use basalt_core::ast::{BinOp, ExprKind, Item, Program, TypeDefKind, TypeExpr};
use basalt_core::error::CompileError;
use basalt_core::lexer;
use basalt_core::parser::parse;

fn parse_str(source: &str) -> Result<Program, CompileError> {
    let tokens = lexer::lex(source)?;
    parse(tokens)
}

#[test]
fn test_let_decl() {
    let prog = parse_str("let x = 42").unwrap();
    assert_eq!(prog.items.len(), 1);
    match &prog.items[0] {
        Item::Let(decl) => {
            assert_eq!(decl.name, "x");
            assert!(!decl.mutable);
        }
        _ => panic!("expected Let"),
    }
}

#[test]
fn test_let_mut() {
    let prog = parse_str("let mut x = 0").unwrap();
    match &prog.items[0] {
        Item::Let(decl) => {
            assert_eq!(decl.name, "x");
            assert!(decl.mutable);
        }
        _ => panic!("expected Let"),
    }
}

#[test]
fn test_fn_def() {
    let prog = parse_str("fn add(a: i64, b: i64) -> i64 {\n    return a + b\n}").unwrap();
    match &prog.items[0] {
        Item::Function(f) => {
            assert_eq!(f.name, "add");
            assert_eq!(f.params.len(), 2);
        }
        _ => panic!("expected Function"),
    }
}

#[test]
fn test_type_def_struct() {
    let prog = parse_str("type Point {\n    x: f64\n    y: f64\n}").unwrap();
    match &prog.items[0] {
        Item::TypeDef(td) => {
            assert_eq!(td.name, "Point");
            match &td.kind {
                TypeDefKind::Struct(s) => {
                    assert_eq!(s.fields.len(), 2);
                }
                _ => panic!("expected Struct"),
            }
        }
        _ => panic!("expected TypeDef"),
    }
}

#[test]
fn test_type_def_enum() {
    let prog = parse_str("type Color { Red, Green, Blue }").unwrap();
    match &prog.items[0] {
        Item::TypeDef(td) => {
            assert_eq!(td.name, "Color");
            match &td.kind {
                TypeDefKind::Enum(e) => {
                    assert_eq!(e.variants.len(), 3);
                    assert_eq!(e.variants[0].name, "Red");
                }
                _ => panic!("expected Enum"),
            }
        }
        _ => panic!("expected TypeDef"),
    }
}

#[test]
fn parser_test_type_alias() {
    let prog = parse_str("type Numeric = i64 | f64").unwrap();
    match &prog.items[0] {
        Item::TypeDef(td) => {
            assert_eq!(td.name, "Numeric");
            match &td.kind {
                TypeDefKind::Alias(TypeExpr::Union(members)) => {
                    assert_eq!(members.len(), 2);
                }
                _ => panic!("expected Alias union"),
            }
        }
        _ => panic!("expected TypeDef"),
    }
}

#[test]
fn test_if_expr() {
    let prog = parse_str("fn main() {\n    if true {\n        return\n    }\n}").unwrap();
    assert!(matches!(&prog.items[0], Item::Function(_)));
}

#[test]
fn test_array_literal() {
    let prog = parse_str("let arr = [1, 2, 3]").unwrap();
    match &prog.items[0] {
        Item::Let(decl) => match &decl.value.kind {
            ExprKind::ArrayLit(elems) => assert_eq!(elems.len(), 3),
            _ => panic!("expected ArrayLit"),
        },
        _ => panic!("expected Let"),
    }
}

#[test]
fn test_map_literal() {
    let prog = parse_str(r#"let m = {"a": 1, "b": 2}"#).unwrap();
    match &prog.items[0] {
        Item::Let(decl) => match &decl.value.kind {
            ExprKind::MapLit(entries) => assert_eq!(entries.len(), 2),
            _ => panic!("expected MapLit"),
        },
        _ => panic!("expected Let"),
    }
}

#[test]
fn test_tuple_literal() {
    let prog = parse_str("let t = (1, 2, 3)").unwrap();
    match &prog.items[0] {
        Item::Let(decl) => match &decl.value.kind {
            ExprKind::TupleLit(elems) => assert_eq!(elems.len(), 3),
            _ => panic!("expected TupleLit"),
        },
        _ => panic!("expected Let"),
    }
}

#[test]
fn test_match_expr() {
    let src = "fn test(x: i64) -> string {\n    match x {\n        1 => \"one\"\n        2 => \"two\"\n        _ => \"other\"\n    }\n}";
    let prog = parse_str(src).unwrap();
    assert!(matches!(&prog.items[0], Item::Function(_)));
}

#[test]
fn test_for_loop() {
    let src = "fn test() {\n    for i in 0..10 {\n        break\n    }\n}";
    let prog = parse_str(src).unwrap();
    assert!(matches!(&prog.items[0], Item::Function(_)));
}

#[test]
fn parser_test_lambda() {
    let src = "let double = fn(x: i64) -> i64 { return x * 2 }";
    let prog = parse_str(src).unwrap();
    match &prog.items[0] {
        Item::Let(decl) => {
            assert!(matches!(&decl.value.kind, ExprKind::Lambda(_, _, _)));
        }
        _ => panic!("expected Let"),
    }
}

#[test]
fn test_precedence() {
    // 2 + 3 * 4 parses as 2 + (3 * 4).
    let prog = parse_str("let x = 2 + 3 * 4").unwrap();
    match &prog.items[0] {
        Item::Let(decl) => match &decl.value.kind {
            ExprKind::BinOp(_, BinOp::Add, _) => {}
            _ => panic!("expected Add at top level"),
        },
        _ => panic!("expected Let"),
    }
}

#[test]
fn test_error_literal() {
    let prog = parse_str(r#"let e = !("error")"#).unwrap();
    match &prog.items[0] {
        Item::Let(decl) => {
            assert!(matches!(&decl.value.kind, ExprKind::ErrorLit(_)));
        }
        _ => panic!("expected Let"),
    }
}

#[test]
fn test_import() {
    let prog = parse_str(r#"import "std/math""#).unwrap();
    match &prog.items[0] {
        Item::Import(imp) => {
            assert_eq!(imp.path, "std/math");
        }
        _ => panic!("expected Import"),
    }
}

#[test]
fn parser_spans_point_at_statements() {
    let prog = parse_str("fn main() {\n    let x = 1\n    x = 2\n}").unwrap();
    match &prog.items[0] {
        Item::Function(f) => {
            assert_eq!(f.body.stmts.len(), 2);
            assert_eq!(f.body.stmts[0].span.line, 2);
            assert_eq!(f.body.stmts[1].span.line, 3);
        }
        _ => panic!("expected Function"),
    }
}

#[test]
fn parser_reports_friendly_token_names() {
    let e = parse_str("fn main() { let x = }").err().unwrap();
    assert!(e.message.contains("}"), "{}", e.message);
    assert!(!e.message.contains("RBrace"), "{}", e.message);
}

#[test]
fn parser_empty_input_is_an_empty_program() {
    let prog = parse_str("\n\n   \n").unwrap();
    assert!(prog.items.is_empty());
    assert!(prog.modules.is_empty());
}

#[test]
fn parser_names_a_missing_item() {
    let e = parse_str("\n42\n").err().unwrap();
    assert_eq!(e.message, "expected item (fn, type, let, import), got token");
}

#[test]
fn parser_names_a_missing_expression() {
    let e = parse_str("fn main() {\n    let x = )\n}").err().unwrap();
    assert_eq!(e.message, "expected expression, got )");
}

#[test]
fn parser_names_a_missing_pattern() {
    let e = parse_str("fn main() {\n    match 1 {\n        + => 1\n    }\n}").err().unwrap();
    assert_eq!(e.message, "expected pattern, got token");
    let e = parse_str("fn main() {\n    match 1 {\n        Color => 1\n    }\n}").err().unwrap();
    assert_eq!(e.message, "expected '.Variant' after type name in pattern, got =>");
}

#[test]
fn parser_names_a_missing_type() {
    let e = parse_str("fn f(a: 1) {\n}").err().unwrap();
    assert_eq!(e.message, "expected type, got token");
    let e = parse_str("fn f(a: []) {\n}").err().unwrap();
    assert_eq!(e.message, "empty array type needs element type: [T]");
}

#[test]
fn parser_first_item_follows_its_keyword() {
    let prog = parse_str("\nimport \"util\" as u\nfn main() {\n}\n").unwrap();
    assert!(matches!(&prog.items[0], Item::Import(i) if i.path == "util"));
    assert!(matches!(&prog.items[1], Item::Function(f) if f.name == "main"));
}

#[test]
fn parser_break_must_end_its_statement() {
    let e = parse_str("fn main() {\n    loop {\n        break 1\n    }\n}").err().unwrap();
    assert!(e.message.starts_with("expected"), "{}", e.message);
}

#[test]
fn parser_member_access_needs_a_name() {
    let e = parse_str("fn main() {\n    let x = a.(1)\n}").err().unwrap();
    assert_eq!(e.message, "expected field name after '.', got (");
}

#[test]
fn parser_type_definitions_follow_their_shape() {
    let prog = parse_str("type Id = i64\ntype Base {\n    x: i64\n}\ntype Sub: Base {\n    y: i64\n}\n").unwrap();
    match &prog.items[0] {
        Item::TypeDef(td) => {
            assert_eq!(td.name, "Id");
            assert!(td.parent.is_none());
            assert!(matches!(td.kind, TypeDefKind::Alias(_)));
        }
        _ => panic!("expected a type definition"),
    }
    match &prog.items[2] {
        Item::TypeDef(td) => {
            assert_eq!(td.name, "Sub");
            assert_eq!(td.parent.as_deref(), Some("Base"));
            assert!(matches!(td.kind, TypeDefKind::Struct(_)));
        }
        _ => panic!("expected a type definition"),
    }
}

#[test]
fn parser_postfix_operations_chain() {
    let prog = parse_str("fn main() {\n    let v = a.b(1)[0]?\n}").unwrap();
    match &prog.items[0] {
        Item::Function(f) => match &f.body.stmts[0].kind {
            basalt_core::ast::StmtKind::Let(d) => match &d.value.kind {
                ExprKind::Try(inner) => match &inner.kind {
                    ExprKind::Index(obj, _) => assert!(matches!(obj.kind, ExprKind::MethodCall(_, ref m, _) if m == "b")),
                    _ => panic!("expected an index"),
                },
                _ => panic!("expected '?'"),
            },
            _ => panic!("expected a let"),
        },
        _ => panic!("expected a function"),
    }
}

#[test]
fn items_come_in_source_order() {
    let prog = parse_str("import \"a/b\"\n\nfn f() {\n}\ntype P {\n  x: i64\n}\nlet y = 1\nfn g() {\n}\n").unwrap();
    assert_eq!(prog.items.len(), 5);
    assert!(matches!(&prog.items[0], Item::Import(i) if i.path == "a/b"));
    assert!(matches!(&prog.items[1], Item::Function(f) if f.name == "f"));
    assert!(matches!(&prog.items[2], Item::TypeDef(t) if t.name == "P"));
    assert!(matches!(&prog.items[3], Item::Let(d) if d.name == "y"));
    assert!(matches!(&prog.items[4], Item::Function(f) if f.name == "g"));
}

fn let_value(source: &str) -> ExprKind {
    let prog = parse_str(source).unwrap();
    match prog.items.into_iter().next() {
        Some(Item::Let(d)) => d.value.kind,
        _ => panic!("expected a let"),
    }
}

#[test]
fn binary_operators_of_each_level() {
    let cases = [
        ("let x = 1 * 2", BinOp::Mul),
        ("let x = 1 + 2", BinOp::Add),
        ("let x = 1 << 2", BinOp::ShiftLeft),
        ("let x = 1 < 2", BinOp::Lt),
        ("let x = 1 == 2", BinOp::Eq),
        ("let x = 1 & 2", BinOp::BitAnd),
        ("let x = 1 ^ 2", BinOp::BitXor),
        ("let x = 1 | 2", BinOp::BitOr),
        ("let x = true && false", BinOp::And),
        ("let x = true || false", BinOp::Or),
        ("let x = 2 ** 3", BinOp::Pow),
    ];
    for (src, op) in cases {
        match let_value(src) {
            ExprKind::BinOp(_, o, _) => assert_eq!(o, op, "{}", src),
            other => panic!("{}: {:?}", src, other),
        }
    }
    assert!(matches!(let_value("let x = 7"), ExprKind::IntLit(7)));
}

#[test]
fn empty_constructs_parse() {
    let prog = parse_str("fn f() {\n  while true {}\n  loop {}\n  if false {}\n  guard true else {}\n  for c in \"ab\" {}\n  let g = fn() {}\n  match 1 {}\n}\n").unwrap();
    match &prog.items[0] {
        Item::Function(f) => {
            assert_eq!(f.name, "f");
            assert!(f.params.is_empty());
            assert_eq!(f.body.stmts.len(), 7);
        }
        _ => panic!("expected a function"),
    }
    assert!(parse_str("type P {}").is_ok());
    assert!(parse_str("type p {}").is_err());
}

#[test]
fn operators_group_by_binding_strength() {
    match let_value("let x = 1 + 2 * 3") {
        ExprKind::BinOp(l, BinOp::Add, r) => {
            assert!(matches!(l.kind, ExprKind::IntLit(1)));
            assert!(matches!(r.kind, ExprKind::BinOp(_, BinOp::Mul, _)));
        }
        other => panic!("{:?}", other),
    }
    match let_value("let x = 1 * 2 + 3") {
        ExprKind::BinOp(l, BinOp::Add, r) => {
            assert!(matches!(l.kind, ExprKind::BinOp(_, BinOp::Mul, _)));
            assert!(matches!(r.kind, ExprKind::IntLit(3)));
        }
        other => panic!("{:?}", other),
    }
    match let_value("let x = 1 - 2 - 3") {
        ExprKind::BinOp(l, BinOp::Sub, r) => {
            assert!(matches!(l.kind, ExprKind::BinOp(_, BinOp::Sub, _)));
            assert!(matches!(r.kind, ExprKind::IntLit(3)));
        }
        other => panic!("{:?}", other),
    }
    match let_value("let x = 2 ** 3 ** 2") {
        ExprKind::BinOp(l, BinOp::Pow, r) => {
            assert!(matches!(l.kind, ExprKind::IntLit(2)));
            assert!(matches!(r.kind, ExprKind::BinOp(_, BinOp::Pow, _)));
        }
        other => panic!("{:?}", other),
    }
    match let_value("let x = true || 1 < 2") {
        ExprKind::BinOp(_, BinOp::Or, r) => assert!(matches!(r.kind, ExprKind::BinOp(_, BinOp::Lt, _))),
        other => panic!("{:?}", other),
    }
}

#[test]
fn empty_functions_parse_in_order() {
    let prog = parse_str("\nfn a() { }\n\nfn b() {\n}\n").unwrap();
    assert_eq!(prog.items.len(), 2);
    let names: Vec<&str> = prog
        .items
        .iter()
        .map(|it| match it {
            Item::Function(f) => {
                assert!(f.params.is_empty());
                assert!(f.return_type.is_none());
                assert!(f.body.stmts.is_empty());
                f.name.as_str()
            }
            _ => panic!("expected a function"),
        })
        .collect();
    assert_eq!(names, vec!["a", "b"]);
}
