use newts::go_kernel::GoKernel;
use newts::kernel::{
    needs_cargo_add, rust_dependencies, CKernel, CppKernel, Kernel, RustKernel,
    CPP_INPUT_SUPPORT, RUST_INPUT_SUPPORT, RUST_PRELUDE,
};

#[test]
fn rust_program_keeps_earlier_declarations() {
    let k = RustKernel::new();
    let code1 = "struct Foo { x: i32 }".to_string();
    let code2 = "let f = Foo { x: 42 }; println!(\"{}\", f.x);".to_string();
    let p = k.program(code2.clone(), Some(vec![code1.clone()])).unwrap();
    let expected = format!("{}{}{}{}\n}}\n", RUST_PRELUDE, code1, RUST_INPUT_SUPPORT, code2);
    assert_eq!(p, expected);
}

#[test]
fn rust_program_runs_statements_of_every_cell() {
    let k = RustKernel::new();
    let p = k
        .program(
            "println!(\"curr\");".to_string(),
            Some(vec![
                "fn main() { println!(\"Hello, world!\"); }".to_string(),
                "println!(\"prev\");".to_string(),
            ]),
        )
        .unwrap();
    let expected = format!(
        "{}{}println!(\"prev\");\nprintln!(\"curr\");\n}}\n",
        RUST_PRELUDE, RUST_INPUT_SUPPORT
    );
    assert_eq!(p, expected);
}

#[test]
fn rust_program_with_its_own_main_is_kept() {
    let k = RustKernel::new();
    let p = k.program("use std::io;\nfn main() { let _ = io::stdin(); }".to_string(), None).unwrap();
    assert_eq!(p, "use std::io;\nfn main() { let _ = newt_io::stdin(); }");
}

#[test]
fn rust_program_without_code_has_an_empty_main() {
    let k = RustKernel::new();
    let p = k.program("   ".to_string(), None).unwrap();
    assert_eq!(p, format!("{}{}}}\n", RUST_PRELUDE, RUST_INPUT_SUPPORT));
}

#[test]
fn c_program_wraps_the_last_cell_in_main() {
    let k = CKernel::new();
    let p = k.program("printf(\"%d\", x);".to_string(), Some(vec!["int x = 42;".to_string()])).unwrap();
    assert_eq!(
        p,
        "#include <stdio.h>\nint x = 42;\n\nint main() {\nprintf(\"%d\", x);\nreturn 0;\n}\n"
    );
}

#[test]
fn c_program_keeps_a_last_main_and_renames_earlier_ones() {
    let k = CKernel::new();
    let p = k
        .program(
            "int main() { printf(\"%d\", x); return 0; }".to_string(),
            Some(vec!["#include <stdio.h>\nint x = 55;".to_string()]),
        )
        .unwrap();
    assert_eq!(p, "#include <stdio.h>\nint x = 55;\nint main() { printf(\"%d\", x); return 0; }\n");

    let q = k
        .program("puts(\"b\");".to_string(), Some(vec!["int main() { return 1; }".to_string()]))
        .unwrap();
    assert_eq!(
        q,
        "#include <stdio.h>\nint main_ignored_0() { return 1; }\n\nint main() {\nputs(\"b\");\nreturn 0;\n}\n"
    );
}

#[test]
fn cpp_program_has_input_support_and_iostream() {
    let k = CppKernel::new();
    let p = k
        .program(
            "Foo f; f.x = 42; std::cout << f.x;".to_string(),
            Some(vec!["class Foo { public: int x; };".to_string()]),
        )
        .unwrap();
    let expected = format!(
        "{}\n#include <iostream>\nclass Foo {{ public: int x; }};\n\nint main() {{\nFoo f; f.x = 42; std::cout << f.x;\nreturn 0;\n}}\n",
        CPP_INPUT_SUPPORT
    );
    assert_eq!(p, expected);
}

#[test]
fn go_program_keeps_types_and_runs_statements() {
    let k = GoKernel::new();
    let p = k
        .program(
            "f := Foo{X: 42}; fmt.Println(f.X)".to_string(),
            Some(vec!["type Foo struct { X int }".to_string()]),
        )
        .unwrap();
    assert!(p.contains("package main"));
    assert!(p.contains("type Foo struct { X int }"));
    assert!(p.contains("func main()"));
    assert!(p.contains("f := Foo{X: 42}"));
    assert!(p.contains("fmt.Println(f.X)"));
    assert!(p.contains("\"fmt\""));
    assert!(p.find("type Foo").unwrap() < p.find("func main()").unwrap());
}

#[test]
fn rust_dependencies_are_the_used_crates() {
    let src = "use serde::Serialize;\nuse std::io;\n  use rand::Rng;\nuse serde_json;\nextern crate rand;\nextern crate regex;\nuse crate::x;\n".to_string();
    assert_eq!(
        rust_dependencies(&src),
        Some(vec![
            "serde".to_string(),
            "rand".to_string(),
            "serde_json".to_string(),
            "regex".to_string(),
        ])
    );
    assert_eq!(rust_dependencies(&"fn main() {}".to_string()), Some(vec![]));
}

#[test]
fn cargo_add_is_needed_only_for_unlisted_crates() {
    let manifest = "[dependencies]\nserde = \"1\"\n\"rand\" = \"0.8\"\n".to_string();
    assert!(!needs_cargo_add(&"serde".to_string(), &manifest));
    assert!(!needs_cargo_add(&"rand".to_string(), &manifest));
    assert!(needs_cargo_add(&"regex".to_string(), &manifest));
}
