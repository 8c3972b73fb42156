use riscv_interpreter::dispatch::{
    dispatch_source, find_matching, find_structure, get_enum_members, FunctionDefn,
};

#[test]
fn matching_bracket_contents() {
    assert_eq!(find_matching("  {a{b}c} tail"), Some(String::from("a{b}c")));
    assert_eq!(find_matching("(x, (y))"), Some(String::from("x, (y)")));
    assert_eq!(find_matching("()"), None);
    assert_eq!(find_matching("x"), None);
    assert_eq!(find_matching("[unclosed"), None);
}

#[test]
fn structure_after_name() {
    let code = "pub trait T {\n  fn a(&self);\n}\nenum E {\n  A(A),\n}";
    assert_eq!(
        find_structure(code, "pub trait T"),
        Some(String::from("\n  fn a(&self);\n"))
    );
    assert_eq!(find_structure(code, "enum E"), Some(String::from("\n  A(A),\n")));
    assert_eq!(find_structure(code, "struct S"), None);
    assert_eq!(find_structure("enum E{ A }", "enum E"), None);
}

#[test]
fn method_declarations() {
    let f = FunctionDefn::parse("  fn memory_byte_repr(&self, start: usize, len: usize) -> Vec<String>;")
        .unwrap();
    assert_eq!(f.name, "memory_byte_repr");
    assert_eq!(f.self_arg, "&self");
    assert_eq!(
        f.args,
        vec![
            (String::from("start"), String::from("usize")),
            (String::from("len"), String::from("usize"))
        ]
    );
    assert_eq!(f.return_type, Some(String::from("Vec<String>")));
    let g = FunctionDefn::parse("fn stop(&mut self);").unwrap();
    assert_eq!(g.self_arg, "&mut self");
    assert!(g.args.is_empty());
    assert_eq!(g.return_type, None);
    assert!(FunctionDefn::parse("fn bad(&self) -> u32").is_none());
    assert!(FunctionDefn::parse("let x = 1;").is_none());
    assert!(FunctionDefn::parse("fn bad(&self, x u32);").is_none());
}

#[test]
fn method_lines() {
    let defns = FunctionDefn::parse_lines("\n  fn running(&self) -> bool;\n  // note\n  fn stop(&mut self);\n");
    assert_eq!(defns.len(), 2);
    assert_eq!(defns[0].name, "running");
    assert_eq!(defns[1].name, "stop");
}

#[test]
fn enum_members() {
    assert_eq!(
        get_enum_members("\n  RiscV64_i(RiscV64_i),\n  Other(Other),\n"),
        Some(vec![String::from("RiscV64_i"), String::from("  Other")])
    );
    assert_eq!(get_enum_members("A,"), None);
}

#[test]
fn dispatch_text() {
    let src = "pub trait InterpreterTrait {\n  fn set_running(&mut self, running: bool);\n  fn running(&self) -> bool;\n}\npub enum Architecture {\n  RiscV64_i(RiscV64_i),\n}\n";
    assert_eq!(
        dispatch_source(src).unwrap(),
        "use crate::interpreter::Architecture::*;\nimpl Interpreter {\n#[allow(dead_code)]\npub fn set_running(&mut self, running: bool) -> () {\nmatch &mut self.architecture {\n\nRiscV64_i(architecture) => architecture.set_running(running),\n}\n}\n\n#[allow(dead_code)]\npub fn running(&self, ) -> bool {\nmatch &self.architecture {\n\nRiscV64_i(architecture) => architecture.running(),\n}\n}\n\n}"
    );
    assert!(dispatch_source("no trait here").is_none());
}

#[test]
fn matching_skips_leading_form_feed() {
    assert_eq!(find_matching("\u{0C}{abc}"), Some(String::from("abc")));
    assert_eq!(find_matching("\u{A0} (x)"), Some(String::from("x")));
}
