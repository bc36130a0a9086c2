use basalt_core::ast::{Item, Program};
use basalt_core::imports::{add_module_items, import_alias, is_std_import};
use basalt_core::lexer::lex;
use basalt_core::parser::parse;

fn program(source: &str) -> Program {
    parse(lex(source).unwrap()).unwrap()
}

#[test]
fn module_names() {
    assert_eq!(import_alias("lib/util", &None), "util");
    assert_eq!(import_alias("util", &None), "util");
    assert_eq!(import_alias("a/b/c", &Some("short".to_string())), "short");
    assert_eq!(import_alias("dir/", &None), "");
}

#[test]
fn std_paths() {
    assert!(is_std_import("std/math"));
    assert!(!is_std_import("std"));
    assert!(!is_std_import("lib/std/x"));
}

#[test]
fn modules_are_grouped_by_name() {
    let mut p = program("fn main() { }");
    let m1 = program("fn f() { }");
    let m2 = program("fn g() { }");
    add_module_items(&mut p, "util".to_string(), m1.items);
    add_module_items(&mut p, "util".to_string(), m2.items);
    assert_eq!(p.modules.len(), 1);
    assert_eq!(p.modules[0].0, "util");
    assert_eq!(p.modules[0].1.len(), 2);
    assert!(matches!(&p.modules[0].1[1], Item::Function(f) if f.name == "g"));
}

#[test]
fn module_functions_are_checked_and_callable() {
    let mut p = program("fn main(stdout: Stdout) { let x = util.twice(2)\nstdout.println(x as string) }");
    let m = program("fn twice(n: i64) -> i64 { return n * 2 }");
    add_module_items(&mut p, "util".to_string(), m.items);
    assert!(basalt_core::types::check(&p).is_ok());
    let mut bad = program("fn main() { let x = util.twice(\"a\", 1) }");
    let m = program("fn twice(n: i64) -> i64 { return n * 2 }");
    add_module_items(&mut bad, "util".to_string(), m.items);
    let es = basalt_core::types::check(&bad).err().unwrap();
    assert_eq!(es.errors[0].message, "function 'util.twice' expects 1 arguments, got 2");
}
