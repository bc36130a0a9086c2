//! Tests of the type checker's rules, messages and helpers.
use basalt_core::ast::{BinOp, Span};
use basalt_core::lexer::lex;
use basalt_core::parser::parse;
use basalt_core::types::checker::TypeChecker;
use basalt_core::types::exprs::parse_index;
use basalt_core::types::rules::is_mutating_method;
use basalt_core::types::suggest::{edit_distance, suggest_similar};
use basalt_core::types::{check, Type};

fn first_error(source: &str) -> Option<(String, u32)> {
    let tokens = match lex(source) {
        Ok(t) => t,
        Err(e) => return Some((e.message, e.span.line)),
    };
    let ast = match parse(tokens) {
        Ok(a) => a,
        Err(e) => return Some((e.message, e.span.line)),
    };
    match check(&ast) {
        Ok(_) => None,
        Err(es) => {
            assert!(!es.errors.is_empty());
            Some((es.errors[0].message.clone(), es.errors[0].span.line))
        }
    }
}

fn error_of(source: &str) -> String {
    first_error(source).expect("expected a compile error").0
}

fn accepts(source: &str) {
    if let Some((m, l)) = first_error(source) {
        panic!("unexpected error on line {}: {}", l, m);
    }
}

#[test]
fn edit_distance_values() {
    assert_eq!(edit_distance("kitten", "sitting"), 3);
    assert_eq!(edit_distance("", "abc"), 3);
    assert_eq!(edit_distance("abc", ""), 3);
    assert_eq!(edit_distance("helo", "hello"), 1);
    assert_eq!(edit_distance("same", "same"), 0);
    assert_eq!(edit_distance("flaw", "lawn"), 2);
    // symmetric
    assert_eq!(edit_distance("lawn", "flaw"), 2);
}

#[test]
fn suggestions_pick_the_closest_other_name() {
    let cands = vec!["hello".to_string(), "help".to_string(), "world".to_string()];
    assert_eq!(suggest_similar("helo", &cands), Some("hello".to_string()));
    // The name itself is never suggested.
    let only = vec!["x".to_string()];
    assert_eq!(suggest_similar("x", &only), None);
    // Too far away for a short name.
    let far = vec!["abcdef".to_string()];
    assert_eq!(suggest_similar("xy", &far), None);
    // Ties go to the first candidate.
    let tie = vec!["ab".to_string(), "ac".to_string()];
    assert_eq!(suggest_similar("aa", &tie), Some("ab".to_string()));
}

#[test]
fn binop_messages_and_types() {
    let ck = TypeChecker::new();
    let s = Span::new(3, 4);
    assert!(matches!(ck.check_binop(&Type::I64, BinOp::Add, &Type::I64, s), Ok(Type::I64)));
    assert!(matches!(ck.check_binop(&Type::String, BinOp::Add, &Type::String, s), Ok(Type::String)));
    let e = ck.check_binop(&Type::I64, BinOp::Add, &Type::F64, s).err().unwrap();
    assert_eq!(e.message, "cannot add i64 and f64");
    assert_eq!(e.span, s);
    let e = ck.check_binop(&Type::I64, BinOp::Sub, &Type::F64, s).err().unwrap();
    assert_eq!(e.message, "cannot apply Sub to i64 and f64");
    let e = ck.check_binop(&Type::I64, BinOp::Pow, &Type::Bool, s).err().unwrap();
    assert_eq!(e.message, "cannot apply ** to i64 and bool");
    assert!(matches!(ck.check_binop(&Type::I64, BinOp::Eq, &Type::Nil, s), Ok(Type::Bool)));
    let e = ck.check_binop(&Type::I64, BinOp::Eq, &Type::String, s).err().unwrap();
    assert_eq!(e.message, "cannot compare i64 and string for equality");
    assert!(matches!(ck.check_binop(&Type::String, BinOp::Lt, &Type::String, s), Ok(Type::Bool)));
    let e = ck.check_binop(&Type::I64, BinOp::And, &Type::Bool, s).err().unwrap();
    assert_eq!(e.message, "logical operators require bool operands, got i64 and bool");
    let e = ck.check_binop(&Type::F64, BinOp::BitAnd, &Type::F64, s).err().unwrap();
    assert_eq!(e.message, "bitwise operators require matching integer types, got f64 and f64");
    assert!(matches!(ck.check_binop(&Type::U8, BinOp::ShiftLeft, &Type::U8, s), Ok(Type::U8)));
}

#[test]
fn conversions() {
    let ck = TypeChecker::new();
    let s = Span::new(1, 1);
    assert!(ck.check_conversion(&Type::I64, &Type::F64, false, s).is_ok());
    assert!(ck.check_conversion(&Type::Bool, &Type::String, false, s).is_ok());
    assert!(ck.check_conversion(&Type::Optional(Box::new(Type::I64)), &Type::I64, false, s).is_ok());
    let e = ck.check_conversion(&Type::Bool, &Type::I64, false, s).err().unwrap();
    assert_eq!(e.message, "cannot convert bool to i64");
}

#[test]
fn literal_ranges() {
    let s = Span::new(2, 7);
    assert!(TypeChecker::check_int_literal_range(255, &Type::U8, "x", s).is_ok());
    let e = TypeChecker::check_int_literal_range(256, &Type::U8, "x", s).err().unwrap();
    assert_eq!(e.message, "integer literal 256 out of range for u8 in 'x'");
    let e = TypeChecker::check_int_literal_range(-129, &Type::I8, "y", s).err().unwrap();
    assert_eq!(e.message, "integer literal -129 out of range for i8 in 'y'");
    assert!(TypeChecker::check_int_literal_range(-128, &Type::I8, "y", s).is_ok());
    assert!(TypeChecker::check_int_literal_range(1 << 100, &Type::String, "z", s).is_ok());
}

#[test]
fn assignability_rules() {
    let ck = TypeChecker::new();
    let arr_i = Type::Array(Box::new(Type::I64));
    let arr_u = Type::Array(Box::new(Type::Union(vec![Type::I64, Type::F64])));
    assert!(!ck.is_assignable(&arr_i, &arr_u));
    assert!(ck.is_assignable(&Type::Array(Box::new(Type::Nil)), &arr_i));
    assert!(ck.is_assignable(&Type::Nil, &Type::Optional(Box::new(Type::String))));
    assert!(ck.is_assignable(&Type::I64, &Type::Optional(Box::new(Type::I64))));
    assert!(ck.is_assignable(&Type::I64, &Type::Union(vec![Type::String, Type::I64])));
    assert!(!ck.is_assignable(&Type::Union(vec![Type::String, Type::I64]), &Type::I64));
    assert!(ck.is_assignable(
        &Type::Error(Box::new(Type::String)),
        &Type::Result(Box::new(Type::I64), Box::new(Type::String))
    ));
    assert!(!ck.is_assignable(&Type::I64, &Type::F64));
}

#[test]
fn subtracting_types() {
    let ck = TypeChecker::new();
    let u = Type::Union(vec![Type::I64, Type::String, Type::Bool]);
    assert_eq!(ck.subtract_type(&u, &Type::I64).display_name(), "string | bool");
    let two = Type::Union(vec![Type::I64, Type::String]);
    assert_eq!(ck.subtract_type(&two, &Type::I64).display_name(), "string");
    let opt = Type::Optional(Box::new(Type::I64));
    assert_eq!(ck.subtract_type(&opt, &Type::Nil).display_name(), "i64");
    assert_eq!(ck.subtract_type(&Type::I64, &Type::I64).display_name(), "i64");
}

#[test]
fn display_names() {
    let t = Type::Function(vec![Type::I64, Type::String], Box::new(Type::Optional(Box::new(Type::Bool))));
    assert_eq!(t.display_name(), "fn(i64, string) -> bool?");
    let m = Type::MapOf(Box::new(Type::String), Box::new(Type::Array(Box::new(Type::U8))));
    assert_eq!(m.display_name(), "[string: [u8]]");
    assert_eq!(Type::Tuple(vec![Type::I64, Type::Nil]).display_name(), "(i64, nil)");
    assert_eq!(Type::Result(Box::new(Type::I64), Box::new(Type::String)).display_name(), "i64!string");
    assert!(Type::U16.is_integer());
    assert!(Type::F64.is_numeric() && !Type::F64.is_integer());
}

#[test]
fn tuple_indices() {
    assert_eq!(parse_index("0"), Some(0));
    assert_eq!(parse_index("12"), Some(12));
    assert_eq!(parse_index("+3"), Some(3));
    assert_eq!(parse_index("x"), None);
    assert_eq!(parse_index(""), None);
    assert_eq!(parse_index("99999999999999999999999999"), None);
}

#[test]
fn mutating_methods() {
    for m in ["push", "pop", "insert", "remove", "sort", "reverse"] {
        assert!(is_mutating_method(m));
    }
    assert!(!is_mutating_method("len"));
}

#[test]
fn programs_that_check() {
    accepts("fn main(stdout: Stdout) { let t = (1, \"a\")\nlet x = t.1\nstdout.println(x) }");
    accepts("type P { x: i64, y: i64 }\nfn main(stdout: Stdout) { let p = P { x: 1, y: 2 }\nlet q = P { x: 3, ..p }\nstdout.println(q.y as string) }");
    accepts("fn f(x: i64 | string) -> i64 {\n if x is i64 { return x } else { return 0 } }\nfn main(stdout: Stdout) { }");
    accepts("fn main(stdout: Stdout) { let mut a = [1]\na.push(2)\nlet b = a.map(fn(v: i64) -> i64 { return v * 2 }) }");
    accepts("fn main(stdout: Stdout) { let m = {\"a\": 1}\nlet v = m.get(\"a\")\nguard let w = v else { return }\nstdout.println(w as string) }");
}

#[test]
fn program_errors_and_messages() {
    assert_eq!(error_of("fn main() { let t = (1, 2)\nlet x = t.5 }"), "tuple index 5 out of bounds (length 2)");
    assert_eq!(error_of("fn main() { continue }"), "continue outside of loop");
    assert_eq!(
        error_of("fn f() -> i64!string { return 1 }\nfn main() { f() }"),
        "result type must be used: assign to a variable, match, or use '?'"
    );
    assert_eq!(error_of("type Stdout { x: i64 }\nfn main() { }"), "type name 'Stdout' is reserved for a built-in capability");
    assert_eq!(error_of("fn main() { let x = 1\nlet y = x.foo }"), "cannot access field 'foo' on i64");
    assert_eq!(error_of("fn main() { let x = [1]\nlet y = x[\"a\"] }"), "array index must be integer, got string");
    assert_eq!(error_of("fn main() { let x: u8 = 300 }"), "integer literal 300 out of range for u8 in 'x'");
    assert_eq!(
        error_of("type C { R, G, B }\nfn main() { let c = C.R\nmatch c { C.R => 1 } }"),
        "non-exhaustive match on 'C': missing variant(s) G, B"
    );
    assert_eq!(error_of("fn main() { match true { true => 1 } }"), "non-exhaustive match on bool: missing true or false branch");
    assert_eq!(error_of("fn main() { let s = \"a\"\nlet t = s.shout() }"), "unknown string method 'shout'");
    assert_eq!(error_of("fn main() { let s = \"a\"\nlet t = s.split() }"), "split takes 1 argument");
    assert_eq!(error_of("fn main() { let x = 1\nlet y = -true }"), "cannot negate bool");
    assert_eq!(error_of("fn main() { let x: i64?? = nil }"), "double optional T?? is not allowed; T? already includes nil");
    assert_eq!(error_of("fn main() { let x: Strng = nil }"), "unknown type 'Strng'");
    assert_eq!(error_of("type Point { x: i64 }\nfn main() { let x: Pont = nil }"), "unknown type 'Pont'; did you mean 'Point'?");
    assert_eq!(error_of("fn main() { let x = 1\nlet y = x? }"), "? operator requires result type, got i64");
    assert_eq!(error_of("fn main() { for x in 5 { } }"), "cannot iterate over i64");
}

#[test]
fn errors_of_several_functions_are_all_reported() {
    let tokens = lex("fn a() { break }\nfn b() { continue }\nfn main() { }").unwrap();
    let ast = parse(tokens).unwrap();
    let es = check(&ast).err().unwrap();
    assert_eq!(es.errors.len(), 2);
    assert_eq!(es.errors[0].message, "break outside of loop");
    assert_eq!(es.errors[1].message, "continue outside of loop");
}

#[test]
fn blocks_do_not_leak_bindings() {
    assert_eq!(
        error_of("fn main() { if true { let inner = 1 }\nlet y = inner }"),
        "undefined variable 'inner'"
    );
}

#[test]
fn narrowing_is_refused_for_captured_mutables() {
    // `x` is mutable and captured by a closure, so `is` does not narrow it.
    let src = "fn main() {\n let mut x: i64 | string = 1\n let f = fn() { x = \"s\" }\n if x is i64 { let y: i64 = x }\n}";
    assert!(error_of(src).starts_with("type mismatch in let 'y'"));
    // Without the capture it narrows.
    accepts("fn main() {\n let mut x: i64 | string = 1\n if x is i64 { let y: i64 = x }\n}");
}

#[test]
fn nil_is_not_a_number() {
    let m = error_of("fn main() {\n    let x: i64 = nil\n}");
    assert!(m.contains("i64") && m.contains("nil"), "{}", m);
    accepts("fn main() {\n    let x: i64? = nil\n}");
}

#[test]
fn assignment_does_not_convert_between_scalars() {
    let m = error_of("fn main() {\n    let x: f64 = 1\n}");
    assert!(m.contains("f64"), "{}", m);
    let m = error_of("fn main() {\n    let s: string = true\n}");
    assert!(m.contains("string"), "{}", m);
}

#[test]
fn capability_names_are_reserved_for_types() {
    let m = error_of("type Stdout {\n    x: i64\n}\nfn main() {\n}");
    assert_eq!(m, "type name 'Stdout' is reserved for a built-in capability");
}

#[test]
fn checked_items_follow_the_source_items() {
    let tokens = lex("import \"std/math\"\nlet limit = 3\ntype P {\n    x: i64\n}\nfn main() {\n}\n").unwrap();
    let ast = parse(tokens).unwrap();
    let typed = check(&ast).unwrap();
    assert!(typed.items.len() >= 4);
    assert!(matches!(&typed.items[0], basalt_core::types::TypedItem::Import(p, None) if p == "std/math"));
    assert!(matches!(&typed.items[1], basalt_core::types::TypedItem::Let(d) if d.name == "limit" && !d.mutable));
    assert!(matches!(&typed.items[2], basalt_core::types::TypedItem::TypeDef(n) if n == "P"));
    assert!(matches!(&typed.items[3], basalt_core::types::TypedItem::Function(f) if f.name == "main"));
}

#[test]
fn mutating_method_needs_a_mutable_binding() {
    let m = error_of("fn main() {\n    let a = [1, 2]\n    a.push(3)\n}");
    assert!(m.contains("immutable") && m.contains("push"), "{}", m);
    accepts("fn main() {\n    let mut a = [1, 2]\n    a.push(3)\n}");
}

#[test]
fn struct_literals_name_every_field_once() {
    let p = "type P { x: i64, y: i64 }\n";
    assert_eq!(
        error_of(&format!("{}fn main() {{ let q = P {{ x: 1 }} }}", p)),
        "missing field 'y' in struct literal for 'P'"
    );
    assert_eq!(
        error_of(&format!("{}fn main() {{ let q = P {{ x: 1, x: 2, y: 3 }} }}", p)),
        "duplicate field 'x' in struct literal"
    );
    assert!(error_of(&format!("{}fn main() {{ let q = P {{ x: 1, y: 2, z: 3 }} }}", p)).starts_with("unknown field 'z' on struct 'P'"));
    assert_eq!(
        error_of(&format!("{}fn main() {{ let q = P {{ x: 1, y: \"s\" }} }}", p)),
        "field 'y' type mismatch: expected i64, got string"
    );
    accepts(&format!("{}fn main() {{ let a = P {{ x: 1, y: 2 }}\nlet b = P {{ y: 5, ..a }} }}", p));
}

#[test]
fn enum_variants_take_their_fields() {
    let e = "type Shape { Circle(f64), Dot }\n";
    accepts(&format!("{}fn main() {{ let s = Shape.Circle(1.5)\nlet d = Shape.Dot }}", e));
    assert_eq!(
        error_of(&format!("{}fn main() {{ let s = Shape.Circle(1.5, 2.0) }}", e)),
        "variant 'Shape.Circle' expects 1 arguments, got 2"
    );
    assert!(error_of(&format!("{}fn main() {{ let s = Shape.Circle(\"a\") }}", e)).contains("mismatch"));
}

#[test]
fn union_matches_must_cover_every_member() {
    let m = error_of("fn f(x: i64 | string) -> i64 {\n return match x {\n is i64 => 1\n }\n}\nfn main() { }");
    assert!(m.starts_with("non-exhaustive match on union type: missing type(s) string"), "{}", m);
    accepts("fn f(x: i64 | string) -> i64 {\n return match x {\n is i64 => 1\n is string => 2\n }\n}\nfn main() { }");
}

#[test]
fn branch_types_join_into_a_union() {
    let m = error_of("fn main() {\n let c = true\n let v: bool = if c { 1 } else { \"a\" }\n}");
    assert!(m.contains("i64 | string"), "{}", m);
    let m = error_of("fn main() {\n let c = 1\n let v: bool = match c {\n 1 => 1\n _ => \"a\"\n }\n}");
    assert!(m.contains("i64 | string"), "{}", m);
}

#[test]
fn functions_are_values() {
    accepts("fn add(a: i64, b: i64) -> i64 { return a + b }\nfn main() { let f = add\nlet x: i64 = f(1, 2) }");
    let m = error_of("fn add(a: i64, b: i64) -> i64 { return a + b }\nfn main() { let f = add\nlet x: string = f(1, 2) }");
    assert!(m.contains("string") && m.contains("i64"), "{}", m);
}

#[test]
fn struct_methods_count_their_arguments() {
    let src = "type C { n: i64\n fn get(self: C) -> i64 { return self.n }\n}\nfn main() { let c = C { n: 1 }\nlet v = c.get(2) }";
    assert_eq!(error_of(src), "method 'get' expects 0 arguments, got 1");
    accepts("type C { n: i64\n fn get(self: C) -> i64 { return self.n }\n}\nfn main() { let c = C { n: 1 }\nlet v: i64 = c.get() }");
}

#[test]
fn module_functions_are_called_through_the_module() {
    let module_src = "fn twice(x: i64) -> i64 { return x * 2 }\ntype Pt { x: i64 }\n";
    let module_items = parse(lex(module_src).unwrap()).unwrap().items;
    let mut ast = parse(lex("fn main() { let v: i64 = util.twice(3) }").unwrap()).unwrap();
    ast.modules.push(("util".to_string(), module_items));
    assert!(check(&ast).is_ok());

    let module_items = parse(lex(module_src).unwrap()).unwrap().items;
    let mut ast = parse(lex("fn main() { let v = util.twice(3, 4) }").unwrap()).unwrap();
    ast.modules.push(("util".to_string(), module_items));
    let es = check(&ast).err().unwrap();
    assert_eq!(es.errors[0].message, "function 'util.twice' expects 1 arguments, got 2");
}

#[test]
fn tuple_destructuring_binds_each_element() {
    accepts("fn main() {\n  let (a, b) = (1, \"x\")\n  let n: i64 = a\n  let s: string = b\n}\n");
    assert!(error_of("fn main() {\n  let (a, b) = (1, \"x\")\n  let s: string = a\n}\n").contains("type mismatch"));
    assert!(error_of("fn main() {\n  let (a, b, c) = (1, 2)\n}\n").contains("tuple destructure: expected 3 elements, got 2"));
    assert!(error_of("fn main() {\n  let (a, b) = 5\n}\n").contains("cannot destructure non-tuple type"));
}

#[test]
fn math_module_signatures() {
    accepts("import \"std/math\"\nfn main() {\n  let a: f64 = math.sqrt(2.0)\n  let b: f64 = math.pow(a, 2.0)\n  let c: f64 = math.pi()\n  let d: f64 = math.atan2(a, b) + c\n}\n");
    assert!(error_of("import \"std/math\"\nfn main() {\n  let a = math.pow(2.0)\n}\n").contains("expects 2 arguments, got 1"));
    assert!(error_of("import \"std/math\"\nfn main() {\n  let a: i64 = math.floor(2.0)\n}\n").contains("type mismatch"));
    assert!(first_error("fn main() {\n  let a = math.sqrt(2.0)\n}\n").is_some());
}

#[test]
fn literal_operands_and_simple_bodies() {
    accepts("fn main() {\n  let a = 1 + 2\n  let b = \"x\" + \"y\"\n  let c = !true\n  let d = -1.5\n  let r = 1..3\n  while false {\n    break\n  }\n  loop {\n    break\n  }\n}\n");
    assert!(first_error("fn main() {\n  let a = \"x\" + 1\n}\n").is_some());
    assert!(first_error("fn main() {\n  let a = !1\n}\n").is_some());
    assert!(first_error("fn main() {\n  let a = ~1.5\n}\n").is_some());
    assert!(first_error("fn main() {\n  let r = 1.0..3\n}\n").is_some());
    assert!(error_of("fn main() {\n  while 1 {\n  }\n}\n").contains("while condition must be bool"));
    assert!(error_of("fn main() {\n  if \"s\" {\n  }\n}\n").contains("if condition must be bool"));
    assert!(error_of("fn main() {\n  for c in 5 {\n  }\n}\n").contains("cannot iterate over"));
    assert!(error_of("fn main() {\n  guard true else {\n  }\n}\n").contains("must diverge"));
    assert!(error_of("fn main() {\n  let a = [1, \"x\"]\n}\n").contains("array element type mismatch"));
    assert!(first_error("fn main() {\n  let a = [1, 2, 3]\n  let m = {\"a\": 1, \"b\": 2}\n}\n").is_none());
    assert!(error_of("fn main() {\n  let m = {\"a\": 1, \"b\": true}\n}\n").contains("map value type mismatch"));
    assert!(first_error("fn main() {\n  let x = 1\n  x = 2\n}\n").is_some());
    accepts("fn main() {\n  let mut x = 1\n  x = 2\n  let n = \"abc\".length\n  let f = fn() {}\n  panic(\"stop\")\n}\n");
}

#[test]
fn struct_literals_and_annotated_literals() {
    let ty = "type P {\n  x: i64\n  y: string\n}\n";
    accepts(&format!("{}fn main() {{\n  let p = P {{ x: 1, y: \"a\" }}\n}}\n", ty));
    assert!(error_of(&format!("{}fn main() {{\n  let p = P {{ x: 1, x: 2, y: \"a\" }}\n}}\n", ty)).contains("duplicate field"));
    assert!(error_of(&format!("{}fn main() {{\n  let p = P {{ x: 1, z: 2, y: \"a\" }}\n}}\n", ty)).contains("unknown field"));
    assert!(error_of(&format!("{}fn main() {{\n  let p = P {{ x: \"no\", y: \"a\" }}\n}}\n", ty)).contains("type mismatch"));
    assert!(error_of(&format!("{}fn main() {{\n  let p = P {{ x: 1 }}\n}}\n", ty)).contains("missing field"));
    accepts("fn main() {\n  let a: u8 = 255\n  let b: i64? = 3\n  let c: string? = nil\n}\n");
    assert!(error_of("fn main() {\n  let a: u8 = 256\n}\n").contains("out of range"));
    assert!(first_error("fn main() {\n  let a: Missing = 1\n}\n").is_some());
}

#[test]
fn bodies_of_literal_bindings_check() {
    accepts("fn f() {\n  let a = 1\n  let b = \"s\"\n  3\n}\nfn main() {\n  let g = fn() {\n    let x = nil\n  }\n  while true {\n    let y = 2\n    break\n  }\n}\n");
    assert!(first_error("import \"std/math\"\nfn main() {\n  let math = 1\n}\n").is_some());
    assert!(first_error("fn main() {\n  break\n}\n").is_some());
}

#[test]
fn edit_distance_counts_bytes() {
    assert_eq!(edit_distance("é", "e"), 2);
    assert_eq!(edit_distance("kitten", "sitting"), 3);
    assert_eq!(suggest_similar("é", &vec!["e".to_string()]), None);
    assert_eq!(suggest_similar("helo", &vec!["hello".to_string(), "stdout".to_string()]), Some("hello".to_string()));
}

#[test]
fn loop_with_break_does_not_return() {
    assert!(error_of("fn f() -> i64 {\n  loop {\n    break\n  }\n}\nfn main() {\n}\n").contains("not all code paths return"));
    accepts("fn f() -> i64 {\n  loop {\n    while true {\n      break\n    }\n  }\n}\nfn main() {\n}\n");
}
