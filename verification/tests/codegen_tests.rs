//! Tests of bytecode generation.
use basalt_core::ast::TypeExpr;
use basalt_core::compiler::codegen::type_expr_key;
use basalt_core::compiler::{CompiledFunction, Op, Program};

fn compiled(source: &str) -> Program {
    match basalt_core::compile(source) {
        Ok(p) => p,
        Err(m) => panic!("{}", m),
    }
}

fn main_fn(p: &Program) -> &CompiledFunction {
    &p.functions[p.entry_point]
}

fn jumps_land_in_code(f: &CompiledFunction) -> bool {
    let n = f.code.len() as i64;
    f.code.iter().enumerate().all(|(i, op)| {
        let off = match op {
            Op::Jump(o)
            | Op::JumpIfTrue(_, o)
            | Op::JumpIfFalse(_, o)
            | Op::JumpIfNil(_, o)
            | Op::JumpIfNotNil(_, o)
            | Op::JumpIfError(_, o) => Some(*o as i64),
            _ => None,
        };
        match off {
            Some(o) => 0 <= i as i64 + o && i as i64 + o <= n,
            None => true,
        }
    })
}

#[test]
fn entry_point_is_main() {
    let p = compiled("fn helper() -> i64 { return 1 }\nfn main(stdout: Stdout) {\n    stdout.println(\"hi\")\n}");
    assert_eq!(p.functions.len(), 2);
    assert_eq!(p.entry_point, 1);
    assert_eq!(main_fn(&p).name, "main");
    assert_eq!(main_fn(&p).param_count, 1);
    assert!(p.strings.iter().any(|s| s == "hi"));
    assert!(main_fn(&p).code.iter().any(|op| matches!(op, Op::CallCapability(_, _, _, 1))));
    assert_eq!(main_fn(&p).line_table.len(), main_fn(&p).code.len());
}

#[test]
fn missing_main_is_refused() {
    let r = basalt_core::compile("fn helper() {\n    return\n}\n");
    assert_eq!(r.err(), Some("entry module must define a `main` function".to_string()));
}

#[test]
fn let_of_literal_loads_and_moves() {
    let p = compiled("fn main(stdout: Stdout) {\n    let x = 42\n}");
    let code = &main_fn(&p).code;
    assert_eq!(code.len(), 3);
    assert!(matches!(code[0], Op::LoadInt(1, 42)));
    assert!(matches!(code[1], Op::Move(2, 1)));
    assert!(matches!(code[2], Op::ReturnNil));
    assert_eq!(main_fn(&p).register_count, 3);
}

#[test]
fn operators_follow_the_left_operand_type() {
    let p = compiled(
        "fn main(stdout: Stdout) {\n    let a = 1.5 + 2.0\n    let b = 1 + 2\n    let c = \"x\" + \"y\"\n    let d = 3 < 4\n}",
    );
    let code = &main_fn(&p).code;
    assert!(code.iter().any(|op| matches!(op, Op::AddFloat(..))));
    assert!(code.iter().any(|op| matches!(op, Op::AddInt(..))));
    assert!(code.iter().any(|op| matches!(op, Op::ConcatString(..))));
    assert!(code.iter().any(|op| matches!(op, Op::LtInt(..))));
    assert!(code.iter().any(|op| matches!(op, Op::LoadFloat(_, t) if t == "1.5")));
}

#[test]
fn length_picks_the_collection_instruction() {
    let p = compiled(
        "fn main(stdout: Stdout) {\n    let s = \"abc\"\n    let n = s.length\n    let a = [1, 2]\n    let m = a.length\n    let t = (1, true)\n    let k = t.length\n}",
    );
    let code = &main_fn(&p).code;
    assert!(code.iter().any(|op| matches!(op, Op::StringLen(..))));
    assert!(code.iter().any(|op| matches!(op, Op::ArrayLen(..))));
    assert!(code.iter().any(|op| matches!(op, Op::LoadInt(_, 2))));
}

#[test]
fn large_unsigned_literal_loads_as_u64() {
    let p = compiled("fn main(stdout: Stdout) {\n    let x: u64 = 18446744073709551615\n}");
    assert!(main_fn(&p).code.iter().any(|op| matches!(op, Op::LoadUInt(_, 18446744073709551615))));
}

#[test]
fn control_flow_jumps_stay_in_code() {
    let p = compiled(
        "fn main(stdout: Stdout) {\n    let mut i = 0\n    while i < 10 {\n        if i == 5 {\n            break\n        }\n        i = i + 1\n    }\n    for x in [1, 2, 3] {\n        if x == 2 {\n            continue\n        }\n    }\n    let r = match i {\n        1 => \"one\",\n        _ => \"other\",\n    }\n    stdout.println(r)\n}",
    );
    for f in &p.functions {
        assert!(jumps_land_in_code(f));
        assert_eq!(f.line_table.len(), f.code.len());
    }
    let code = &main_fn(&p).code;
    assert!(code.iter().any(|op| matches!(op, Op::IterNext(..))));
    assert!(code.iter().any(|op| matches!(op, Op::Jump(o) if *o < 0)));
    assert!(code.iter().any(|op| matches!(op, Op::Jump(o) if *o > 0)));
}

#[test]
fn lambdas_become_functions() {
    let p = compiled("fn main(stdout: Stdout) {\n    let double = fn(x: i64) -> i64 { return x * 2 }\n    stdout.println(double(4) as string)\n}");
    assert_eq!(p.functions.len(), 2);
    assert_eq!(p.functions[0].name, "__lambda_0");
    assert_eq!(p.functions[0].param_count, 1);
    assert!(p.functions[0].code.iter().any(|op| matches!(op, Op::MulInt(..))));
    assert!(matches!(p.functions[0].code.last(), Some(Op::Return(_))));
    assert_eq!(main_fn(&p).name, "main");
}

#[test]
fn conversions_pick_their_instruction() {
    let p = compiled("fn main(stdout: Stdout) {\n    let a = 3 as f64\n    let b = 2.5 as string\n    let c = 300 as? u8\n}");
    let code = &main_fn(&p).code;
    assert!(code.iter().any(|op| matches!(op, Op::IntToFloat(..))));
    assert!(code.iter().any(|op| matches!(op, Op::FloatToString(..))));
    assert!(code.iter().any(|op| matches!(op, Op::IntNarrowSafe(_, _, basalt_core::compiler::IntType::U8))));
}

#[test]
fn string_constants_are_shared() {
    let p = compiled("fn main(stdout: Stdout) {\n    stdout.println(\"same\")\n    stdout.println(\"same\")\n}");
    assert_eq!(p.strings.iter().filter(|s| *s == "same").count(), 1);
}

#[test]
fn type_keys_have_the_shape_of_the_type() {
    let t = TypeExpr::Array(Box::new(TypeExpr::Named("i64".to_string())));
    assert_eq!(type_expr_key(&t), format!("{:?}", t));
    let u = TypeExpr::Function(
        vec![TypeExpr::Named("a".to_string()), TypeExpr::Qualified("m".to_string(), "T".to_string())],
        Box::new(TypeExpr::SelfType),
    );
    assert_eq!(type_expr_key(&u), format!("{:?}", u));
    assert_eq!(type_expr_key(&u), "Function([Named(\"a\"), Qualified(\"m\", \"T\")], SelfType)");
}
