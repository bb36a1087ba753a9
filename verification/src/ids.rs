//! Fresh identifiers for cells.
use vstd::prelude::*;

verus! {

/// A lower-case hexadecimal digit.
pub open spec fn lower_hex(c: char) -> bool {
    ('0' <= c && c <= '9') || ('a' <= c && c <= 'f')
}

/// The hyphenated form of a UUID: 36 characters, `-` at positions 8, 13,
/// 18 and 23 and a lower-case hexadecimal digit everywhere else.
pub open spec fn hyphenated_uuid(s: Seq<char>) -> bool {
    &&& s.len() == 36
    &&& forall|i: int| 0 <= i < 36 ==> if i == 8 || i == 13 || i == 18 || i == 23 {
        #[trigger] s[i] == '-'
    } else {
        lower_hex(s[i])
    }
}

/// Calls `uuid::Uuid::new_v4` and renders the result with `to_string`,
/// which writes the hyphenated lower-case form. The identifier is random:
/// only its form is stated.
#[verifier::external_body]
pub fn new_cell_id() -> (id: String)
    ensures
        hyphenated_uuid(id@),
{
    uuid::Uuid::new_v4().to_string()
}

} // verus!
