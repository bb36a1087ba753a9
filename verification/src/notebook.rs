//! Notebook cells and their plain-value model.
use vstd::prelude::*;

verus! {

/// The language (or markdown) of a cell.
#[derive(Clone, Copy, PartialEq, Eq, Structural, Debug)]
pub enum CellType {
    Shell,
    Rust,
    Python,
    JavaScript,
    TypeScript,
    C,
    Cpp,
    Go,
    Markdown,
}

/// One notebook cell.
#[derive(Clone, Debug)]
pub struct Cell {
    pub id: String,
    pub content: String,
    pub output: String,
    pub cell_type: CellType,
    /// Interval in seconds.
    pub polling_interval: Option<u64>,
    /// Timestamp in seconds.
    pub last_run: Option<u64>,
}

/// What a cell holds apart from its identifier and its polling state.
pub struct CellText {
    pub content: Seq<char>,
    pub output: Seq<char>,
    pub kind: CellType,
}

impl Cell {
    pub open spec fn text(&self) -> CellText {
        CellText { content: self.content@, output: self.output@, kind: self.cell_type }
    }

    /// A copy of this cell, field for field.
    pub fn duplicate(&self) -> (c: Cell)
        ensures
            c == *self,
    {
        Cell {
            id: self.id.clone(),
            content: self.content.clone(),
            output: self.output.clone(),
            cell_type: self.cell_type,
            polling_interval: self.polling_interval,
            last_run: self.last_run,
        }
    }
}

pub open spec fn texts(cells: Seq<Cell>) -> Seq<CellText> {
    Seq::new(cells.len(), |i: int| cells[i].text())
}

/// A whole notebook, as the server's export endpoint receives it.
pub struct Notebook {
    pub cells: Vec<Cell>,
}

/// The markdown that an export produces.
pub struct ExportResponse {
    pub markdown: String,
}

} // verus!
