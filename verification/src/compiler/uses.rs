//! Where names are used and bound in checked code, read off the syntax
//! tree directly, and that the free-variable scan sees every use.
use vstd::prelude::*;
use crate::types::{TypedStmt, TypedExpr, TypedExprKind, TypedAssignTarget, TypedStringPart};
use crate::types::capture::lemma_contains_concat;
use super::capture::{names_expr, names_exprs, names_entries, names_fields, names_arms, names_parts, names_stmts,
    names_stmt, target_names, spread_names, else_names, part_names, join_names, defines, opt_name, param_names};

verus! {

/// The name `x` is used in expression `e`: `e` is the name `x`, or `x` is
/// used in one of its parts (operands, arguments, elements, conditions,
/// bodies, branches, nested closures). Two parts are not looked into: the
/// right side of `is`, which names a type or value to compare against, and
/// the source of a struct spread that supplies no field.
pub open spec fn occurs_expr(e: TypedExpr, x: Seq<char>) -> bool
    decreases e,
{
    match e.kind {
        TypedExprKind::Ident(n) => n@ == x,
        TypedExprKind::BinOp(l, _, r) => occurs_expr(*l, x) || occurs_expr(*r, x),
        TypedExprKind::Range(l, r) => occurs_expr(*l, x) || occurs_expr(*r, x),
        TypedExprKind::Index(l, r) => occurs_expr(*l, x) || occurs_expr(*r, x),
        TypedExprKind::UnaryOp(_, y) => occurs_expr(*y, x),
        TypedExprKind::As(y, _) => occurs_expr(*y, x),
        TypedExprKind::AsSafe(y, _) => occurs_expr(*y, x),
        TypedExprKind::Is(y, _) => occurs_expr(*y, x),
        TypedExprKind::Try(y) => occurs_expr(*y, x),
        TypedExprKind::ErrorLit(y) => occurs_expr(*y, x),
        TypedExprKind::FieldAccess(y, _) => occurs_expr(*y, x),
        TypedExprKind::Call(f, args) => occurs_expr(*f, x) || occurs_exprs(args@, x),
        TypedExprKind::MethodCall(o, _, args) => occurs_expr(*o, x) || occurs_exprs(args@, x),
        TypedExprKind::StaticMethodCall(_, _, args) => occurs_exprs(args@, x),
        TypedExprKind::EnumVariant(_, _, args) => occurs_exprs(args@, x),
        TypedExprKind::Panic(args) => occurs_exprs(args@, x),
        TypedExprKind::ArrayLit(args) => occurs_exprs(args@, x),
        TypedExprKind::TupleLit(args) => occurs_exprs(args@, x),
        TypedExprKind::MapLit(entries) => occurs_entries(entries@, x),
        TypedExprKind::StructLit(_, fields, spread) => occurs_fields(fields@, x) || match spread {
            Some(sp) => sp.1@.len() > 0 && occurs_expr(*sp.0, x),
            None => false,
        },
        TypedExprKind::If(c, tb, ee) => occurs_expr(*c, x) || occurs_stmts(tb.stmts@, x) || match ee {
            Some(y) => occurs_expr(*y, x),
            None => false,
        },
        TypedExprKind::Match(sc, arms) => occurs_expr(*sc, x) || occurs_arms(arms@, x),
        TypedExprKind::For(_, _, it, body) => occurs_expr(*it, x) || occurs_stmts(body.stmts@, x),
        TypedExprKind::While(c, body) => occurs_expr(*c, x) || occurs_stmts(body.stmts@, x),
        TypedExprKind::Loop(body) => occurs_stmts(body.stmts@, x),
        TypedExprKind::Block(body) => occurs_stmts(body.stmts@, x),
        TypedExprKind::Guard(_, y, body) => occurs_expr(*y, x) || occurs_stmts(body.stmts@, x),
        TypedExprKind::Lambda(_, _, body) => occurs_stmts(body.stmts@, x),
        TypedExprKind::InterpolatedString(parts) => occurs_parts(parts@, x),
        _ => false,
    }
}

/// `x` is used in one of the expressions.
pub open spec fn occurs_exprs(es: Seq<TypedExpr>, x: Seq<char>) -> bool
    decreases es,
{
    es.len() > 0 && (occurs_exprs(es.drop_last(), x) || occurs_expr(es.last(), x))
}

/// `x` is used in a key or a value of the entries.
pub open spec fn occurs_entries(es: Seq<(TypedExpr, TypedExpr)>, x: Seq<char>) -> bool
    decreases es,
{
    es.len() > 0 && (occurs_entries(es.drop_last(), x) || occurs_expr(es.last().0, x) || occurs_expr(es.last().1, x))
}

/// `x` is used in one of the field values.
pub open spec fn occurs_fields(fs: Seq<(String, TypedExpr)>, x: Seq<char>) -> bool
    decreases fs,
{
    fs.len() > 0 && (occurs_fields(fs.drop_last(), x) || occurs_expr(fs.last().1, x))
}

/// `x` is used in the body of one of the arms.
pub open spec fn occurs_arms(arms: Seq<crate::types::TypedMatchArm>, x: Seq<char>) -> bool
    decreases arms,
{
    arms.len() > 0 && (occurs_arms(arms.drop_last(), x) || occurs_expr(arms.last().body, x))
}

/// `x` is used in one of the interpolated expressions.
pub open spec fn occurs_parts(ps: Seq<TypedStringPart>, x: Seq<char>) -> bool
    decreases ps,
{
    ps.len() > 0 && (occurs_parts(ps.drop_last(), x) || match ps.last() {
        TypedStringPart::Expr(y) => occurs_expr(y, x),
        TypedStringPart::Literal(_) => false,
    })
}

/// `x` is used in one of the statements.
pub open spec fn occurs_stmts(ss: Seq<TypedStmt>, x: Seq<char>) -> bool
    decreases ss,
{
    ss.len() > 0 && (occurs_stmts(ss.drop_last(), x) || occurs_stmt(ss.last(), x))
}

/// `x` is used in the statement: in a value it computes, or as the variable
/// or in the place it assigns to.
pub open spec fn occurs_stmt(st: TypedStmt, x: Seq<char>) -> bool
    decreases st,
{
    match st {
        TypedStmt::Let(d) => occurs_expr(d.value, x),
        TypedStmt::LetTuple(_, v) => occurs_expr(v, x),
        TypedStmt::Assign(t, v) => occurs_expr(*v, x) || match *t {
            TypedAssignTarget::Variable(n, _) => n@ == x,
            TypedAssignTarget::Field(o, _, _) => occurs_expr(o, x),
            TypedAssignTarget::Index(o, i, _) => occurs_expr(o, x) || occurs_expr(i, x),
        },
        TypedStmt::Return(v) => match v {
            Some(y) => occurs_expr(y, x),
            None => false,
        },
        TypedStmt::ReturnError(y) => occurs_expr(y, x),
        TypedStmt::Expr(y) => occurs_expr(y, x),
        _ => false,
    }
}

/// `x` is bound somewhere in expression `e`: as a loop variable of a `for`,
/// the name of a `guard let`, or a parameter of a nested closure, or by a
/// `let` inside one of its blocks.
pub open spec fn bound_expr(e: TypedExpr, x: Seq<char>) -> bool
    decreases e,
{
    match e.kind {
        TypedExprKind::BinOp(l, _, r) => bound_expr(*l, x) || bound_expr(*r, x),
        TypedExprKind::Range(l, r) => bound_expr(*l, x) || bound_expr(*r, x),
        TypedExprKind::Index(l, r) => bound_expr(*l, x) || bound_expr(*r, x),
        TypedExprKind::UnaryOp(_, y) => bound_expr(*y, x),
        TypedExprKind::As(y, _) => bound_expr(*y, x),
        TypedExprKind::AsSafe(y, _) => bound_expr(*y, x),
        TypedExprKind::Is(y, _) => bound_expr(*y, x),
        TypedExprKind::Try(y) => bound_expr(*y, x),
        TypedExprKind::ErrorLit(y) => bound_expr(*y, x),
        TypedExprKind::FieldAccess(y, _) => bound_expr(*y, x),
        TypedExprKind::Call(f, args) => bound_expr(*f, x) || bound_exprs(args@, x),
        TypedExprKind::MethodCall(o, _, args) => bound_expr(*o, x) || bound_exprs(args@, x),
        TypedExprKind::StaticMethodCall(_, _, args) => bound_exprs(args@, x),
        TypedExprKind::EnumVariant(_, _, args) => bound_exprs(args@, x),
        TypedExprKind::Panic(args) => bound_exprs(args@, x),
        TypedExprKind::ArrayLit(args) => bound_exprs(args@, x),
        TypedExprKind::TupleLit(args) => bound_exprs(args@, x),
        TypedExprKind::MapLit(entries) => bound_entries(entries@, x),
        TypedExprKind::StructLit(_, fields, spread) => bound_fields(fields@, x) || match spread {
            Some(sp) => bound_expr(*sp.0, x),
            None => false,
        },
        TypedExprKind::If(c, tb, ee) => bound_expr(*c, x) || bound_stmts(tb.stmts@, x) || match ee {
            Some(y) => bound_expr(*y, x),
            None => false,
        },
        TypedExprKind::Match(sc, arms) => bound_expr(*sc, x) || bound_arms(arms@, x),
        TypedExprKind::For(v1, v2, it, body) => v1@ == x || opt_name(v2).contains(x) || bound_expr(*it, x) || bound_stmts(
            body.stmts@,
            x,
        ),
        TypedExprKind::While(c, body) => bound_expr(*c, x) || bound_stmts(body.stmts@, x),
        TypedExprKind::Loop(body) => bound_stmts(body.stmts@, x),
        TypedExprKind::Block(body) => bound_stmts(body.stmts@, x),
        TypedExprKind::Guard(b, y, body) => opt_name(b).contains(x) || bound_expr(*y, x) || bound_stmts(body.stmts@, x),
        TypedExprKind::Lambda(ps, _, body) => param_names(ps@).contains(x) || bound_stmts(body.stmts@, x),
        TypedExprKind::InterpolatedString(parts) => bound_parts(parts@, x),
        _ => false,
    }
}

/// `x` is bound in one of the expressions.
pub open spec fn bound_exprs(es: Seq<TypedExpr>, x: Seq<char>) -> bool
    decreases es,
{
    es.len() > 0 && (bound_exprs(es.drop_last(), x) || bound_expr(es.last(), x))
}

/// `x` is bound in a key or a value of the entries.
pub open spec fn bound_entries(es: Seq<(TypedExpr, TypedExpr)>, x: Seq<char>) -> bool
    decreases es,
{
    es.len() > 0 && (bound_entries(es.drop_last(), x) || bound_expr(es.last().0, x) || bound_expr(es.last().1, x))
}

/// `x` is bound in one of the field values.
pub open spec fn bound_fields(fs: Seq<(String, TypedExpr)>, x: Seq<char>) -> bool
    decreases fs,
{
    fs.len() > 0 && (bound_fields(fs.drop_last(), x) || bound_expr(fs.last().1, x))
}

/// `x` is bound in the body of one of the arms.
pub open spec fn bound_arms(arms: Seq<crate::types::TypedMatchArm>, x: Seq<char>) -> bool
    decreases arms,
{
    arms.len() > 0 && (bound_arms(arms.drop_last(), x) || bound_expr(arms.last().body, x))
}

/// `x` is bound in one of the interpolated expressions.
pub open spec fn bound_parts(ps: Seq<TypedStringPart>, x: Seq<char>) -> bool
    decreases ps,
{
    ps.len() > 0 && (bound_parts(ps.drop_last(), x) || match ps.last() {
        TypedStringPart::Expr(y) => bound_expr(y, x),
        TypedStringPart::Literal(_) => false,
    })
}

/// `x` is bound in one of the statements.
pub open spec fn bound_stmts(ss: Seq<TypedStmt>, x: Seq<char>) -> bool
    decreases ss,
{
    ss.len() > 0 && (bound_stmts(ss.drop_last(), x) || bound_stmt(ss.last(), x))
}

/// `x` is bound by the statement (`let x`, `let (.., x, ..)`) or inside it.
pub open spec fn bound_stmt(st: TypedStmt, x: Seq<char>) -> bool
    decreases st,
{
    match st {
        TypedStmt::Let(d) => d.name@ == x || bound_expr(d.value, x),
        TypedStmt::LetTuple(bs, v) => param_names(bs@).contains(x) || bound_expr(v, x),
        TypedStmt::Assign(t, v) => bound_expr(*v, x) || match *t {
            TypedAssignTarget::Variable(_, _) => false,
            TypedAssignTarget::Field(o, _, _) => bound_expr(o, x),
            TypedAssignTarget::Index(o, i, _) => bound_expr(o, x) || bound_expr(i, x),
        },
        TypedStmt::Return(v) => match v {
            Some(y) => bound_expr(y, x),
            None => false,
        },
        TypedStmt::ReturnError(y) => bound_expr(y, x),
        TypedStmt::Expr(y) => bound_expr(y, x),
        _ => false,
    }
}

/// What the scan records of `x`, against what the code holds: `x` is among
/// the recorded uses exactly when the code uses it, and a recorded
/// definition of `x` is a binding of `x`.
pub open spec fn scan_sees(n: (Seq<Seq<char>>, Seq<Seq<char>>), used: bool, bound: bool, x: Seq<char>) -> bool {
    &&& used <==> n.0.contains(x)
    &&& n.1.contains(x) ==> bound
}

proof fn lemma_join(a: (Seq<Seq<char>>, Seq<Seq<char>>), b: (Seq<Seq<char>>, Seq<Seq<char>>))
    ensures
        forall|x: Seq<char>| join_names(a, b).0.contains(x) <==> (a.0.contains(x) || b.0.contains(x)),
        forall|x: Seq<char>| join_names(a, b).1.contains(x) <==> (a.1.contains(x) || b.1.contains(x)),
{
    lemma_contains_concat(a.0, b.0);
    lemma_contains_concat(a.1, b.1);
}

proof fn lemma_in_join(a: (Seq<Seq<char>>, Seq<Seq<char>>), b: (Seq<Seq<char>>, Seq<Seq<char>>), x: Seq<char>)
    requires
        a.0.contains(x) || b.0.contains(x),
    ensures
        join_names(a, b).0.contains(x),
{
    if a.0.contains(x) {
        let i = choose|i: int| 0 <= i < a.0.len() && a.0[i] == x;
        assert(join_names(a, b).0[i] == x);
    } else {
        let i = choose|i: int| 0 <= i < b.0.len() && b.0[i] == x;
        assert(join_names(a, b).0[a.0.len() + i] == x);
    }
}

proof fn lemma_join_split(a: (Seq<Seq<char>>, Seq<Seq<char>>), b: (Seq<Seq<char>>, Seq<Seq<char>>), x: Seq<char>)
    requires
        join_names(a, b).0.contains(x),
    ensures
        a.0.contains(x) || b.0.contains(x),
{
    let i = choose|i: int| 0 <= i < join_names(a, b).0.len() && join_names(a, b).0[i] == x;
    if i < a.0.len() {
        assert(a.0[i] == x);
    } else {
        assert(b.0[i - a.0.len()] == x);
    }
}

proof fn lemma_one(n: Seq<char>)
    ensures
        forall|x: Seq<char>| seq![n].contains(x) <==> x == n,
        forall|x: Seq<char>| !Seq::<Seq<char>>::empty().contains(x),
{
    assert(seq![n][0] == n);
}

/// The scan records every use of `x` in `e`, and records a definition of
/// `x` only where `e` binds it.
proof fn lemma_scan_expr(e: TypedExpr, x: Seq<char>)
    ensures
        scan_sees(names_expr(e), occurs_expr(e, x), bound_expr(e, x), x),
    decreases e,
{
    lemma_one(x);
    match e.kind {
        TypedExprKind::Ident(n) => {
            lemma_one(n@);
        },
        TypedExprKind::BinOp(l, _, r) => {
            lemma_scan_expr(*l, x);
            lemma_scan_expr(*r, x);
            lemma_join(names_expr(*l), names_expr(*r));
        },
        TypedExprKind::Range(l, r) => {
            lemma_scan_expr(*l, x);
            lemma_scan_expr(*r, x);
            lemma_join(names_expr(*l), names_expr(*r));
        },
        TypedExprKind::Index(l, r) => {
            lemma_scan_expr(*l, x);
            lemma_scan_expr(*r, x);
            lemma_join(names_expr(*l), names_expr(*r));
        },
        TypedExprKind::UnaryOp(_, y) => lemma_scan_expr(*y, x),
        TypedExprKind::As(y, _) => lemma_scan_expr(*y, x),
        TypedExprKind::AsSafe(y, _) => lemma_scan_expr(*y, x),
        TypedExprKind::Is(y, _) => lemma_scan_expr(*y, x),
        TypedExprKind::Try(y) => lemma_scan_expr(*y, x),
        TypedExprKind::ErrorLit(y) => lemma_scan_expr(*y, x),
        TypedExprKind::FieldAccess(y, _) => lemma_scan_expr(*y, x),
        TypedExprKind::Call(f, args) => {
            lemma_scan_expr(*f, x);
            lemma_scan_exprs(args@, x);
            lemma_join(names_expr(*f), names_exprs(args@));
        },
        TypedExprKind::MethodCall(f, _, args) => {
            lemma_scan_expr(*f, x);
            lemma_scan_exprs(args@, x);
            lemma_join(names_expr(*f), names_exprs(args@));
        },
        TypedExprKind::StaticMethodCall(_, _, args) => lemma_scan_exprs(args@, x),
        TypedExprKind::EnumVariant(_, _, args) => lemma_scan_exprs(args@, x),
        TypedExprKind::Panic(args) => lemma_scan_exprs(args@, x),
        TypedExprKind::ArrayLit(args) => lemma_scan_exprs(args@, x),
        TypedExprKind::TupleLit(args) => lemma_scan_exprs(args@, x),
        TypedExprKind::MapLit(entries) => lemma_scan_entries(entries@, x),
        TypedExprKind::StructLit(_, fields, spread) => {
            lemma_scan_fields(fields@, x);
            match spread {
                Some(sp) => lemma_scan_expr(*sp.0, x),
                None => {},
            }
            lemma_join(names_fields(fields@), spread_names(spread));
        },
        TypedExprKind::If(c, tb, ee) => {
            lemma_scan_expr(*c, x);
            lemma_scan_stmts(tb.stmts@, x);
            match ee {
                Some(y) => lemma_scan_expr(*y, x),
                None => {},
            }
            lemma_join(names_expr(*c), names_stmts(tb.stmts@));
            lemma_join(join_names(names_expr(*c), names_stmts(tb.stmts@)), else_names(ee));
        },
        TypedExprKind::Match(sc, arms) => {
            lemma_scan_expr(*sc, x);
            lemma_scan_arms(arms@, x);
            lemma_join(names_expr(*sc), names_arms(arms@));
        },
        TypedExprKind::For(v1, v2, it, body) => {
            lemma_scan_expr(*it, x);
            lemma_scan_stmts(body.stmts@, x);
            lemma_one(v1@);
            lemma_contains_concat(seq![v1@], opt_name(v2));
            lemma_join(names_expr(*it), defines(seq![v1@] + opt_name(v2)));
            lemma_join(join_names(names_expr(*it), defines(seq![v1@] + opt_name(v2))), names_stmts(body.stmts@));
        },
        TypedExprKind::While(c, body) => {
            lemma_scan_expr(*c, x);
            lemma_scan_stmts(body.stmts@, x);
            lemma_join(names_expr(*c), names_stmts(body.stmts@));
        },
        TypedExprKind::Loop(body) => lemma_scan_stmts(body.stmts@, x),
        TypedExprKind::Block(body) => lemma_scan_stmts(body.stmts@, x),
        TypedExprKind::Guard(b, y, body) => {
            lemma_scan_expr(*y, x);
            lemma_scan_stmts(body.stmts@, x);
            lemma_join(names_expr(*y), names_stmts(body.stmts@));
            lemma_join(join_names(names_expr(*y), names_stmts(body.stmts@)), defines(opt_name(b)));
        },
        TypedExprKind::Lambda(ps, _, body) => {
            lemma_scan_stmts(body.stmts@, x);
            lemma_join(defines(param_names(ps@)), names_stmts(body.stmts@));
        },
        TypedExprKind::InterpolatedString(parts) => lemma_scan_parts(parts@, x),
        _ => {},
    }
}

proof fn lemma_scan_exprs(es: Seq<TypedExpr>, x: Seq<char>)
    ensures
        scan_sees(names_exprs(es), occurs_exprs(es, x), bound_exprs(es, x), x),
    decreases es,
{
    lemma_one(x);
    if es.len() > 0 {
        lemma_scan_exprs(es.drop_last(), x);
        lemma_scan_expr(es.last(), x);
        lemma_join(names_exprs(es.drop_last()), names_expr(es.last()));
    }
}

proof fn lemma_scan_entries(es: Seq<(TypedExpr, TypedExpr)>, x: Seq<char>)
    ensures
        scan_sees(names_entries(es), occurs_entries(es, x), bound_entries(es, x), x),
    decreases es,
{
    lemma_one(x);
    if es.len() > 0 {
        lemma_scan_entries(es.drop_last(), x);
        lemma_scan_expr(es.last().0, x);
        lemma_scan_expr(es.last().1, x);
        lemma_join(names_entries(es.drop_last()), names_expr(es.last().0));
        lemma_join(join_names(names_entries(es.drop_last()), names_expr(es.last().0)), names_expr(es.last().1));
    }
}

proof fn lemma_scan_fields(fs: Seq<(String, TypedExpr)>, x: Seq<char>)
    ensures
        scan_sees(names_fields(fs), occurs_fields(fs, x), bound_fields(fs, x), x),
    decreases fs,
{
    lemma_one(x);
    if fs.len() > 0 {
        lemma_scan_fields(fs.drop_last(), x);
        lemma_scan_expr(fs.last().1, x);
        lemma_join(names_fields(fs.drop_last()), names_expr(fs.last().1));
    }
}

proof fn lemma_scan_arms(arms: Seq<crate::types::TypedMatchArm>, x: Seq<char>)
    ensures
        scan_sees(names_arms(arms), occurs_arms(arms, x), bound_arms(arms, x), x),
    decreases arms,
{
    lemma_one(x);
    if arms.len() > 0 {
        lemma_scan_arms(arms.drop_last(), x);
        lemma_scan_expr(arms.last().body, x);
        lemma_join(names_arms(arms.drop_last()), names_expr(arms.last().body));
    }
}

proof fn lemma_scan_parts(ps: Seq<TypedStringPart>, x: Seq<char>)
    ensures
        scan_sees(names_parts(ps), occurs_parts(ps, x), bound_parts(ps, x), x),
    decreases ps,
{
    lemma_one(x);
    if ps.len() > 0 {
        lemma_scan_parts(ps.drop_last(), x);
        match ps.last() {
            TypedStringPart::Expr(y) => lemma_scan_expr(y, x),
            TypedStringPart::Literal(_) => {},
        }
        lemma_join(names_parts(ps.drop_last()), part_names(ps.last()));
    }
}

pub proof fn lemma_scan_stmts(ss: Seq<TypedStmt>, x: Seq<char>)
    ensures
        scan_sees(names_stmts(ss), occurs_stmts(ss, x), bound_stmts(ss, x), x),
    decreases ss,
{
    lemma_one(x);
    if ss.len() > 0 {
        lemma_scan_stmts(ss.drop_last(), x);
        lemma_scan_stmt(ss.last(), x);
        lemma_join(names_stmts(ss.drop_last()), names_stmt(ss.last()));
    }
}

proof fn lemma_scan_stmt(st: TypedStmt, x: Seq<char>)
    ensures
        scan_sees(names_stmt(st), occurs_stmt(st, x), bound_stmt(st, x), x),
    decreases st,
{
    lemma_one(x);
    match st {
        TypedStmt::Let(d) => {
            lemma_scan_expr(d.value, x);
            lemma_one(d.name@);
            lemma_join(names_expr(d.value), defines(seq![d.name@]));
            if names_stmt(st).1.contains(x) {
                assert(names_expr(d.value).1.contains(x) || seq![d.name@].contains(x));
            }
            if occurs_stmt(st, x) {
                assert(names_expr(d.value).0.contains(x));
                let i = choose|i: int| 0 <= i < names_expr(d.value).0.len() && names_expr(d.value).0[i] == x;
                assert(names_stmt(st).0[i] == x);
            }
            if names_stmt(st).0.contains(x) {
                lemma_join_split(names_expr(d.value), defines(seq![d.name@]), x);
            }
            assert(scan_sees(names_stmt(st), occurs_stmt(st, x), bound_stmt(st, x), x));
        },
        TypedStmt::LetTuple(bs, v) => {
            lemma_scan_expr(v, x);
            lemma_join(names_expr(v), defines(param_names(bs@)));
            if occurs_stmt(st, x) {
                assert(names_expr(v).0.contains(x));
                let i = choose|i: int| 0 <= i < names_expr(v).0.len() && names_expr(v).0[i] == x;
                assert(names_stmt(st).0[i] == x);
            }
            if names_stmt(st).0.contains(x) {
                lemma_join_split(names_expr(v), defines(param_names(bs@)), x);
            }
            assert(scan_sees(names_stmt(st), occurs_stmt(st, x), bound_stmt(st, x), x));
        },
        TypedStmt::Assign(t, v) => {
            lemma_scan_expr(*v, x);
            let tg = *t;
            match tg {
                TypedAssignTarget::Variable(n, _) => {
                    lemma_one(n@);
                    assert(target_names(tg) == (seq![n@], Seq::<Seq<char>>::empty()));
                },
                TypedAssignTarget::Field(o, _, _) => {
                    lemma_scan_expr(o, x);
                    assert(target_names(tg) == names_expr(o));
                },
                TypedAssignTarget::Index(o, i, _) => {
                    lemma_scan_expr(o, x);
                    lemma_scan_expr(i, x);
                    lemma_join(names_expr(o), names_expr(i));
                    assert(target_names(tg) == join_names(names_expr(o), names_expr(i)));
                },
            }
            lemma_join(target_names(tg), names_expr(*v));
            assert(names_stmt(st) == join_names(target_names(tg), names_expr(*v)));
            if occurs_stmt(st, x) {
                assert(target_names(tg).0.contains(x) || names_expr(*v).0.contains(x));
                lemma_in_join(target_names(tg), names_expr(*v), x);
            }
            if names_stmt(st).0.contains(x) {
                lemma_join_split(target_names(tg), names_expr(*v), x);
            }
            assert(scan_sees(names_stmt(st), occurs_stmt(st, x), bound_stmt(st, x), x));
        },
        TypedStmt::Return(v) => {
            match v {
                Some(y) => lemma_scan_expr(y, x),
                None => {},
            }
            assert(scan_sees(names_stmt(st), occurs_stmt(st, x), bound_stmt(st, x), x));
        },
        TypedStmt::ReturnError(y) => {
            lemma_scan_expr(y, x);
            assert(scan_sees(names_stmt(st), occurs_stmt(st, x), bound_stmt(st, x), x));
        },
        TypedStmt::Expr(y) => {
            lemma_scan_expr(y, x);
            assert(scan_sees(names_stmt(st), occurs_stmt(st, x), bound_stmt(st, x), x));
        },
        _ => {},
    }
}

} // verus!
