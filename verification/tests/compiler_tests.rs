//! Tests of what the compiler takes from checked programs.
use basalt_core::compiler::{collect_free_vars, find_captured_vars_in_block, type_to_int_type, IntType};
use basalt_core::lexer::lex;
use basalt_core::parser::parse;
use basalt_core::types::{check, Type, TypedExprKind, TypedItem, TypedProgram, TypedStmt};

fn checked(source: &str) -> TypedProgram {
    let tokens = lex(source).unwrap();
    let ast = parse(tokens).unwrap();
    match check(&ast) {
        Ok(p) => p,
        Err(es) => panic!("{}", es.errors[0].message),
    }
}

#[test]
fn int_widths() {
    assert_eq!(type_to_int_type(&Type::U8), IntType::U8);
    assert_eq!(type_to_int_type(&Type::I32), IntType::I32);
    assert_eq!(type_to_int_type(&Type::U64), IntType::U64);
    assert_eq!(type_to_int_type(&Type::String), IntType::I64);
}

#[test]
fn closures_capture_the_outer_names_they_use() {
    let p = checked(
        "fn main() {\n let a = 1\n let b = 2\n let f = fn(x: i64) -> i64 { return x + a + b + a }\n}",
    );
    let main = p
        .items
        .iter()
        .find_map(|it| match it {
            TypedItem::Function(f) if f.name == "main" => Some(f),
            _ => None,
        })
        .unwrap();
    let captured = find_captured_vars_in_block(&main.body, &main.params);
    assert_eq!(captured, vec!["a".to_string(), "b".to_string()]);

    // The closure's own free variables, in order of first use, without repeats.
    let lambda = main
        .body
        .stmts
        .iter()
        .find_map(|s| match s {
            TypedStmt::Let(d) if d.name == "f" => Some(&d.value),
            _ => None,
        })
        .unwrap();
    match &lambda.kind {
        TypedExprKind::Lambda(params, _, body) => {
            let free = collect_free_vars(body, params);
            assert_eq!(free, vec!["a".to_string(), "b".to_string()]);
        }
        _ => panic!("expected a closure"),
    }
}

#[test]
fn closure_locals_are_not_free() {
    let p = checked("fn main() {\n let n = 3\n let f = fn() -> i64 { let m = 4\n return m + n }\n}");
    let main = p
        .items
        .iter()
        .find_map(|it| match it {
            TypedItem::Function(f) if f.name == "main" => Some(f),
            _ => None,
        })
        .unwrap();
    assert_eq!(find_captured_vars_in_block(&main.body, &main.params), vec!["n".to_string()]);
}

#[test]
fn nested_closures_capture_through_their_parents() {
    let p = checked(
        "fn main() {\n let k = 10\n let outer = fn(a: i64) -> i64 {\n  let inner = fn(b: i64) -> i64 { return a + b + k }\n  return inner(a)\n }\n}",
    );
    let main = p
        .items
        .iter()
        .find_map(|it| match it {
            TypedItem::Function(f) if f.name == "main" => Some(f),
            _ => None,
        })
        .unwrap();
    let mut captured = find_captured_vars_in_block(&main.body, &main.params);
    captured.sort();
    // The outer closure uses `k` (through the inner one it defines after use
    // of nothing else); the inner one uses `a` and `k`.
    assert!(captured.contains(&"k".to_string()));
    assert!(captured.contains(&"a".to_string()));
    assert!(!captured.contains(&"b".to_string()));
    // No name twice.
    let mut dedup = captured.clone();
    dedup.dedup();
    assert_eq!(dedup, captured);
}

#[test]
fn closures_without_outer_names_capture_nothing() {
    let p = checked("fn main() {\n let f = fn(x: i64) -> i64 { let y = x * 2\n return y }\n}");
    let main = p
        .items
        .iter()
        .find_map(|it| match it {
            TypedItem::Function(f) if f.name == "main" => Some(f),
            _ => None,
        })
        .unwrap();
    assert!(find_captured_vars_in_block(&main.body, &main.params).is_empty());
}
