//! What it means for a typed syntax tree to be well typed: every node
//! obeys the typing rule of its form, all the way down.
use vstd::prelude::*;
use crate::ast::{UnaryOp, Expr, ExprKind, Block, Stmt, StmtKind, AssignTarget, IsTarget, StringPart};
use super::{TypeView, TypeInfo, TypedItem, TypedIsTarget, TypedExpr, TypedExprKind, TypedBlock, TypedStmt, TypedAssignTarget, TypedStringPart,
    is_integer_view, is_numeric_view};
use super::checker::{assignable, TypeChecker};
use super::rules::{binop_type, index_type, conversion_allowed};
use super::exprs::{if_type, match_type, arm_types, field_access_type, method_call_type, static_call_type, block_type};
use super::flow::{diverges, block_returns};
use super::methods::arg_types;

verus! {

/// The typing rule of a node, given the types of its parts.
pub open spec fn node_ok(info: TypeInfo, t: TypedExpr) -> bool {
    match t.kind {
        // An integer literal is an `i64`, or takes the integer type, or a
        // type that accepts `i64`, that its binding declares.
        TypedExprKind::IntLit(_) => is_integer_view(t.ty@) || assignable(info, TypeView::I64, t.ty@),
        TypedExprKind::FloatLit(_) => t.ty@ == TypeView::F64,
        TypedExprKind::BoolLit(_) => t.ty@ == TypeView::Bool,
        TypedExprKind::StringLit(_) => t.ty@ == TypeView::String,
        TypedExprKind::InterpolatedString(_) => t.ty@ == TypeView::String,
        TypedExprKind::Nil => t.ty@ == TypeView::Nil,
        TypedExprKind::Ident(_) => true,
        TypedExprKind::BinOp(l, op, r) => binop_type(op, l.ty@, r.ty@) == Some(t.ty@),
        TypedExprKind::UnaryOp(op, inner) => match op {
            UnaryOp::Neg => is_numeric_view(inner.ty@) && (t.ty@ == inner.ty@ || inner.kind is IntLit),
            UnaryOp::Not => inner.ty@ == TypeView::Bool && t.ty@ == TypeView::Bool,
            UnaryOp::BitNot => is_integer_view(inner.ty@) && t.ty@ == inner.ty@,
        },
        // An access on a type or module name (`Color.Red` before it is
        // resolved) is of type `nil`.
        TypedExprKind::FieldAccess(o, f) => field_access_type(info, o.ty@, f@) == Some(t.ty@) || t.ty@
            == TypeView::Nil,
        TypedExprKind::Index(o, i) => index_type(info, o.ty@, i.ty@) == Some(t.ty@),
        TypedExprKind::Call(f, args) => match f.ty@ {
            TypeView::Function(ps, ret) => ps.len() == args@.len() && *ret == t.ty@ && forall|i: int|
                0 <= i < ps.len() ==> #[trigger] assignable(info, args@[i].ty@, ps[i]),
            _ => false,
        },
        TypedExprKind::MethodCall(o, m, args) => method_call_type(info, o.ty@, m@, arg_types(args@)) == Some(t.ty@),
        TypedExprKind::StaticMethodCall(n, m, args) => static_call_type(info, n@, m@, args@.len()) == Some(t.ty@),
        TypedExprKind::ArrayLit(ts) => if ts@.len() == 0 {
            t.ty@ == TypeView::Array(Box::new(TypeView::Nil))
        } else {
            t.ty@ == TypeView::Array(Box::new(ts@[0].ty@)) && forall|i: int|
                1 <= i < ts@.len() ==> #[trigger] assignable(info, ts@[i].ty@, ts@[0].ty@)
        },
        TypedExprKind::MapLit(ts) => if ts@.len() == 0 {
            t.ty@ == TypeView::MapOf(Box::new(TypeView::Nil), Box::new(TypeView::Nil))
        } else {
            &&& t.ty@ == TypeView::MapOf(Box::new(ts@[0].0.ty@), Box::new(ts@[0].1.ty@))
            &&& forall|i: int| 1 <= i < ts@.len() ==> #[trigger] assignable(info, ts@[i].0.ty@, ts@[0].0.ty@)
            &&& forall|i: int| 1 <= i < ts@.len() ==> #[trigger] assignable(info, ts@[i].1.ty@, ts@[0].1.ty@)
        },
        TypedExprKind::TupleLit(ts) => t.ty@ == TypeView::Tuple(Seq::new(ts@.len(), |i: int| ts@[i].ty@)),
        TypedExprKind::StructLit(n, _, _) => t.ty@ == TypeView::Struct(n@),
        TypedExprKind::EnumVariant(_, _, _) => true,
        TypedExprKind::ErrorLit(inner) => t.ty@ == TypeView::Error(Box::new(inner.ty@)),
        TypedExprKind::If(c, tb, te) => c.ty@ == TypeView::Bool && match te {
            None => t.ty@ == TypeView::Nil,
            Some(et) => t.ty@ == if_type(info, tb.ty@, et.ty@),
        },
        TypedExprKind::Match(_, arms) => t.ty@ == match_type(info, arm_types(arms@)),
        TypedExprKind::For(_, _, it, _) => t.ty@ == TypeView::Nil && (it.ty@ is Array || it.ty@ is MapOf || it.ty@
            == TypeView::String || it.ty@ == TypeView::Range),
        TypedExprKind::While(c, _) => t.ty@ == TypeView::Nil && c.ty@ == TypeView::Bool,
        TypedExprKind::Loop(_) => t.ty@ == TypeView::Nil,
        TypedExprKind::Guard(b, c, blk) => t.ty@ == TypeView::Nil && diverges(blk) && (b is None ==> c.ty@
            == TypeView::Bool),
        TypedExprKind::Block(b) => t.ty@ == b.ty@,
        TypedExprKind::Lambda(_, ret, body) => t.ty@ is Function && ((ret@ != TypeView::Nil && ret@ != TypeView::Void)
            ==> block_returns(body)),
        TypedExprKind::As(inner, target) => t.ty@ == target@ && conversion_allowed(info, inner.ty@, target@),
        TypedExprKind::AsSafe(inner, target) => t.ty@ == TypeView::Optional(Box::new(target@)) && conversion_allowed(
            info,
            inner.ty@,
            target@,
        ),
        TypedExprKind::Is(_, _) => t.ty@ == TypeView::Bool,
        TypedExprKind::Try(inner) => match inner.ty@ {
            TypeView::Result(ok, _) => t.ty@ == *ok,
            _ => false,
        },
        TypedExprKind::Range(a, b) => t.ty@ == TypeView::Range && is_integer_view(a.ty@) && is_integer_view(b.ty@),
        TypedExprKind::Panic(_) => t.ty@ == TypeView::Nil,
    }
}

/// The return type that a checker in state `ck` checks `return` against.
pub open spec fn ret_of(ck: TypeChecker) -> Option<TypeView> {
    match ck.current_fn_return {
        Some(t) => Some(t@),
        None => None,
    }
}

/// Every node of the expression obeys its typing rule; `ret` is the return
/// type of the function (or closure) the expression stands in, and `lp`
/// tells whether it stands in the body of a loop (where `break` and
/// `continue` may appear).
pub open spec fn well_typed(info: TypeInfo, ret: Option<TypeView>, lp: bool, t: TypedExpr) -> bool
    decreases t,
{
    node_ok(info, t) && match t.kind {
        TypedExprKind::InterpolatedString(parts) => forall|i: int|
            0 <= i < parts@.len() ==> match #[trigger] parts@[i] {
                TypedStringPart::Expr(e) => well_typed(info, ret, lp, e),
                TypedStringPart::Literal(_) => true,
            },
        TypedExprKind::BinOp(l, _, r) => well_typed(info, ret, lp, *l) && well_typed(info, ret, lp, *r),
        TypedExprKind::UnaryOp(_, x) => well_typed(info, ret, lp, *x),
        TypedExprKind::FieldAccess(x, _) => well_typed(info, ret, lp, *x),
        TypedExprKind::Index(o, i) => well_typed(info, ret, lp, *o) && well_typed(info, ret, lp, *i),
        TypedExprKind::Call(f, args) => well_typed(info, ret, lp, *f) && forall|i: int|
            0 <= i < args@.len() ==> well_typed(info, ret, lp, #[trigger] args@[i]),
        TypedExprKind::MethodCall(o, _, args) => well_typed(info, ret, lp, *o) && forall|i: int|
            0 <= i < args@.len() ==> well_typed(info, ret, lp, #[trigger] args@[i]),
        TypedExprKind::StaticMethodCall(_, _, args) => forall|i: int|
            0 <= i < args@.len() ==> well_typed(info, ret, lp, #[trigger] args@[i]),
        TypedExprKind::ArrayLit(ts) => forall|i: int| 0 <= i < ts@.len() ==> well_typed(info, ret, lp, #[trigger] ts@[i]),
        TypedExprKind::MapLit(ts) => forall|i: int|
            0 <= i < ts@.len() ==> well_typed(info, ret, lp, (#[trigger] ts@[i]).0) && well_typed(info, ret, lp, ts@[i].1),
        TypedExprKind::TupleLit(ts) => forall|i: int| 0 <= i < ts@.len() ==> well_typed(info, ret, lp, #[trigger] ts@[i]),
        TypedExprKind::StructLit(_, fs, spread) => (forall|i: int|
            0 <= i < fs@.len() ==> well_typed(info, ret, lp, (#[trigger] fs@[i]).1)) && match spread {
            Some(sp) => well_typed(info, ret, lp, *sp.0),
            None => true,
        },
        TypedExprKind::EnumVariant(_, _, args) => forall|i: int|
            0 <= i < args@.len() ==> well_typed(info, ret, lp, #[trigger] args@[i]),
        TypedExprKind::ErrorLit(x) => well_typed(info, ret, lp, *x),
        TypedExprKind::If(c, tb, te) => well_typed(info, ret, lp, *c) && block_well_typed(info, ret, lp, tb) && match te {
            Some(x) => well_typed(info, ret, lp, *x),
            None => true,
        },
        TypedExprKind::Match(s, arms) => well_typed(info, ret, lp, *s) && forall|i: int|
            0 <= i < arms@.len() ==> well_typed(info, ret, lp, (#[trigger] arms@[i]).body),
        TypedExprKind::For(_, _, it, b) => well_typed(info, ret, lp, *it) && block_well_typed(info, ret, true, b),
        TypedExprKind::While(c, b) => well_typed(info, ret, lp, *c) && block_well_typed(info, ret, true, b),
        TypedExprKind::Loop(b) => block_well_typed(info, ret, true, b),
        TypedExprKind::Guard(_, c, b) => well_typed(info, ret, lp, *c) && block_well_typed(info, ret, lp, b),
        TypedExprKind::Block(b) => block_well_typed(info, ret, lp, b),
        TypedExprKind::Lambda(_, r, b) => block_well_typed(info, Some(r@), lp, b),
        TypedExprKind::As(x, _) => well_typed(info, ret, lp, *x),
        TypedExprKind::AsSafe(x, _) => well_typed(info, ret, lp, *x),
        TypedExprKind::Is(x, _) => well_typed(info, ret, lp, *x),
        TypedExprKind::Try(x) => well_typed(info, ret, lp, *x),
        TypedExprKind::Range(a, b) => well_typed(info, ret, lp, *a) && well_typed(info, ret, lp, *b),
        TypedExprKind::Panic(args) => forall|i: int| 0 <= i < args@.len() ==> well_typed(info, ret, lp, #[trigger] args@[i]),
        _ => true,
    }
}

/// Every statement of the block is well typed, and the block has the type
/// of its last statement.
pub open spec fn block_well_typed(info: TypeInfo, ret: Option<TypeView>, lp: bool, b: TypedBlock) -> bool
    decreases b,
{
    b.ty@ == block_type(b.stmts@) && forall|i: int|
        0 <= i < b.stmts@.len() ==> stmt_well_typed(info, ret, lp, #[trigger] b.stmts@[i])
}

/// The statement obeys its typing rule and its expressions are well typed.
pub open spec fn stmt_well_typed(info: TypeInfo, ret: Option<TypeView>, lp: bool, s: TypedStmt) -> bool
    decreases s,
{
    match s {
        TypedStmt::Let(d) => well_typed(info, ret, lp, d.value) && (d.value.ty@ == d.ty@ || assignable(
            info,
            d.value.ty@,
            d.ty@,
        )),
        TypedStmt::LetTuple(bs, v) => well_typed(info, ret, lp, v) && match v.ty@ {
            TypeView::Tuple(ts) => ts.len() == bs@.len() && forall|i: int|
                0 <= i < ts.len() ==> (#[trigger] bs@[i]).1@ == ts[i],
            _ => false,
        },
        TypedStmt::Assign(tt, v) => well_typed(info, ret, lp, *v) && match *tt {
            TypedAssignTarget::Variable(_, vt) => assignable(info, v.ty@, vt@),
            TypedAssignTarget::Field(o, f, ft) => well_typed(info, ret, lp, o) && field_access_type(info, o.ty@, f@)
                == Some(ft@) && assignable(info, v.ty@, ft@),
            TypedAssignTarget::Index(o, i, et) => well_typed(info, ret, lp, o) && well_typed(info, ret, lp, i) && index_type(
                info,
                o.ty@,
                i.ty@,
            ) == Some(et@) && assignable(info, v.ty@, et@),
        },
        TypedStmt::Return(v) => match v {
            Some(e) => well_typed(info, ret, lp, e) && match ret {
                Some(rt) => assignable(info, e.ty@, rt),
                None => true,
            },
            None => true,
        },
        TypedStmt::ReturnError(e) => well_typed(info, ret, lp, e) && match ret {
            Some(rt) => match rt {
                TypeView::Result(_, err) => assignable(info, e.ty@, *err),
                _ => true,
            },
            None => true,
        },
        TypedStmt::Expr(e) => well_typed(info, ret, lp, e) && !(e.ty@ is Result),
        TypedStmt::Break | TypedStmt::Continue => lp,
    }
}

/// A checked item is well typed: a function's body against its declared
/// return type, a top-level binding's value against its type.
pub open spec fn typed_item_ok(info: TypeInfo, ret: Option<TypeView>, lp: bool, t: TypedItem) -> bool {
    match t {
        TypedItem::Function(f) => block_well_typed(info, Some(f.return_type@), lp, f.body),
        TypedItem::Let(d) => well_typed(info, ret, lp, d.value) && (d.value.ty@ == d.ty@ || assignable(
            info,
            d.value.ty@,
            d.ty@,
        )),
        _ => true,
    }
}

/// The checked expression `t` is the checked form of the source expression
/// `e`: the same construct, with the same operators, names and literals,
/// and each part the checked form of the corresponding source part.
pub open spec fn checked_from(e: Expr, t: TypedExpr) -> bool
    decreases e,
{
    match e.kind {
        ExprKind::IntLit(n) => t.kind == TypedExprKind::IntLit(n),
        ExprKind::FloatLit(f) => t.kind matches TypedExprKind::FloatLit(g) && g@ == f@,
        ExprKind::BoolLit(b) => t.kind == TypedExprKind::BoolLit(b),
        ExprKind::StringLit(x) => t.kind matches TypedExprKind::StringLit(y) && y@ == x@,
        ExprKind::InterpolatedString(parts) => match t.kind {
            TypedExprKind::InterpolatedString(tps) => tps@.len() == parts@.len() && forall|i: int|
                0 <= i < parts@.len() ==> match (#[trigger] parts@[i], tps@[i]) {
                    (StringPart::Literal(a), TypedStringPart::Literal(b)) => a@ == b@,
                    (StringPart::Expr(x), TypedStringPart::Expr(y)) => checked_from(*x, y),
                    _ => false,
                },
            _ => false,
        },
        ExprKind::Nil => t.kind is Nil,
        ExprKind::Ident(n) => t.kind matches TypedExprKind::Ident(m) && m@ == n@,
        ExprKind::TypeIdent(n) => t.kind matches TypedExprKind::Ident(m) && m@ == n@,
        ExprKind::BinOp(l, op, r) => match t.kind {
            TypedExprKind::BinOp(tl, o, tr) => o == op && checked_from(*l, *tl) && checked_from(*r, *tr),
            _ => false,
        },
        ExprKind::UnaryOp(op, x) => match t.kind {
            TypedExprKind::UnaryOp(o, tx) => o == op && checked_from(*x, *tx),
            _ => false,
        },
        ExprKind::FieldAccess(x, f) => match t.kind {
            TypedExprKind::FieldAccess(tx, g) => g@ == f@ && checked_from(*x, *tx),
            _ => false,
        },
        ExprKind::TypeAccess(x, f) => match t.kind {
            TypedExprKind::FieldAccess(tx, g) => g@ == f@ && checked_from(*x, *tx),
            _ => false,
        },
        ExprKind::Index(a, b) => match t.kind {
            TypedExprKind::Index(ta, tb) => checked_from(*a, *ta) && checked_from(*b, *tb),
            _ => false,
        },
        ExprKind::Range(a, b) => match t.kind {
            TypedExprKind::Range(ta, tb) => checked_from(*a, *ta) && checked_from(*b, *tb),
            _ => false,
        },
        ExprKind::Call(f, args) => match t.kind {
            TypedExprKind::Call(tf, targs) => checked_from(*f, *tf) && args_from(args@, targs@),
            TypedExprKind::Panic(targs) => (f.kind matches ExprKind::Ident(n) && n@ == "panic"@) && args_from(args@, targs@),
            _ => false,
        },
        ExprKind::MethodCall(o, m, args) => match t.kind {
            TypedExprKind::MethodCall(to, tm, targs) => tm@ == m@ && checked_from(*o, *to) && args_from(args@, targs@),
            TypedExprKind::StaticMethodCall(_, tm, targs) => tm@ == m@ && args_from(args@, targs@),
            TypedExprKind::EnumVariant(_, tm, targs) => tm@ == m@ && args_from(args@, targs@),
            _ => false,
        },
        ExprKind::StaticMethodCall(n, m, args) => match t.kind {
            TypedExprKind::StaticMethodCall(tn, tm, targs) => tn@ == n@ && tm@ == m@ && args_from(args@, targs@),
            TypedExprKind::EnumVariant(tn, tm, targs) => tn@ == n@ && tm@ == m@ && args_from(args@, targs@),
            _ => false,
        },
        ExprKind::ArrayLit(es) => match t.kind {
            TypedExprKind::ArrayLit(ts) => args_from(es@, ts@),
            _ => false,
        },
        ExprKind::TupleLit(es) => match t.kind {
            TypedExprKind::TupleLit(ts) => args_from(es@, ts@),
            _ => false,
        },
        ExprKind::MapLit(ps) => match t.kind {
            TypedExprKind::MapLit(tps) => tps@.len() == ps@.len() && forall|i: int|
                0 <= i < ps@.len() ==> checked_from((#[trigger] ps@[i]).0, tps@[i].0) && checked_from(ps@[i].1, tps@[i].1),
            _ => false,
        },
        ExprKind::StructLit(_, _, fs, sp) => match t.kind {
            TypedExprKind::StructLit(_, tfs, tsp) => tfs@.len() == fs@.len() && (forall|i: int|
                0 <= i < fs@.len() ==> (#[trigger] tfs@[i]).0@ == fs@[i].0@ && checked_from(fs@[i].1, tfs@[i].1)) && match (
                sp,
                tsp,
            ) {
                (Some(x), Some(y)) => checked_from(*x, *y.0),
                (None, None) => true,
                _ => false,
            },
            _ => false,
        },
        ExprKind::EnumVariant(_, v, args) => match t.kind {
            TypedExprKind::EnumVariant(_, tv, targs) => tv@ == v@ && args_from(args@, targs@),
            _ => false,
        },
        ExprKind::QualifiedEnumVariant(_, _, v, args) => match t.kind {
            TypedExprKind::EnumVariant(_, tv, targs) => tv@ == v@ && args_from(args@, targs@),
            _ => false,
        },
        ExprKind::ErrorLit(x) => match t.kind {
            TypedExprKind::ErrorLit(tx) => checked_from(*x, *tx),
            _ => false,
        },
        ExprKind::If(c, b, els) => match t.kind {
            TypedExprKind::If(tc, tb, te) => checked_from(*c, *tc) && block_from(b, tb) && match (els, te) {
                (Some(x), Some(y)) => checked_from(*x, *y),
                (None, None) => true,
                _ => false,
            },
            _ => false,
        },
        ExprKind::Match(sc, arms) => match t.kind {
            TypedExprKind::Match(ts, tarms) => checked_from(*sc, *ts) && tarms@.len() == arms@.len() && forall|i: int|
                0 <= i < arms@.len() ==> checked_from((#[trigger] arms@[i]).body, tarms@[i].body),
            _ => false,
        },
        ExprKind::For(v1, v2, it, b) => match t.kind {
            TypedExprKind::For(w1, _, tit, tb) => w1@ == v1@ && checked_from(*it, *tit) && block_from(b, tb),
            _ => false,
        },
        ExprKind::While(c, b) => match t.kind {
            TypedExprKind::While(tc, tb) => checked_from(*c, *tc) && block_from(b, tb),
            _ => false,
        },
        ExprKind::Loop(b) => match t.kind {
            TypedExprKind::Loop(tb) => block_from(b, tb),
            _ => false,
        },
        ExprKind::Guard(_, c, b) => match t.kind {
            TypedExprKind::Guard(_, tc, tb) => checked_from(*c, *tc) && block_from(b, tb),
            _ => false,
        },
        ExprKind::Block(b) => match t.kind {
            TypedExprKind::Block(tb) => block_from(b, tb),
            _ => false,
        },
        ExprKind::Lambda(_, _, b) => match t.kind {
            TypedExprKind::Lambda(_, _, tb) => block_from(b, tb),
            _ => false,
        },
        ExprKind::As(x, _) => match t.kind {
            TypedExprKind::As(tx, _) => checked_from(*x, *tx),
            _ => false,
        },
        ExprKind::AsSafe(x, _) => match t.kind {
            TypedExprKind::AsSafe(tx, _) => checked_from(*x, *tx),
            _ => false,
        },
        ExprKind::Is(x, target) => match t.kind {
            TypedExprKind::Is(tx, tt) => checked_from(*x, *tx) && match (target, tt) {
                (IsTarget::Expr(y), TypedIsTarget::Expr(z)) => checked_from(*y, *z),
                (IsTarget::Expr(_), _) => false,
                _ => true,
            },
            _ => false,
        },
        ExprKind::Try(x) => match t.kind {
            TypedExprKind::Try(tx) => checked_from(*x, *tx),
            _ => false,
        },
    }
}

/// Each checked argument is the checked form of the source argument.
pub open spec fn args_from(es: Seq<Expr>, ts: Seq<TypedExpr>) -> bool
    decreases es,
{
    ts.len() == es.len() && forall|i: int| 0 <= i < es.len() ==> checked_from(#[trigger] es[i], ts[i])
}

/// Each checked statement is the checked form of the source statement.
pub open spec fn block_from(b: Block, tb: TypedBlock) -> bool
    decreases b,
{
    tb.stmts@.len() == b.stmts@.len() && forall|i: int| 0 <= i < b.stmts@.len() ==> stmt_from(#[trigger] b.stmts@[i], tb.stmts@[i])
}

/// The checked statement is the checked form of the source statement.
pub open spec fn stmt_from(s: Stmt, t: TypedStmt) -> bool
    decreases s,
{
    match s.kind {
        StmtKind::Let(d) => t matches TypedStmt::Let(td) && td.name@ == d.name@ && td.mutable == d.mutable && checked_from(
            d.value,
            td.value,
        ),
        StmtKind::LetTuple(_, v) => t matches TypedStmt::LetTuple(_, tv) && checked_from(v, tv),
        StmtKind::Assign(target, v) => match t {
            TypedStmt::Assign(tt, tv) => checked_from(v, *tv) && match (target, *tt) {
                (AssignTarget::Variable(n), TypedAssignTarget::Variable(m, _)) => m@ == n@,
                (AssignTarget::Field(o, f), TypedAssignTarget::Field(to, g, _)) => g@ == f@ && checked_from(*o, to),
                (AssignTarget::Index(o, i), TypedAssignTarget::Index(to, ti, _)) => checked_from(*o, to) && checked_from(*i, ti),
                _ => false,
            },
            _ => false,
        },
        StmtKind::Return(v) => match t {
            TypedStmt::Return(tv) => match (v, tv) {
                (Some(a), Some(b)) => checked_from(a, b),
                (None, None) => true,
                _ => false,
            },
            _ => false,
        },
        StmtKind::ReturnError(x) => t matches TypedStmt::ReturnError(y) && checked_from(x, y),
        StmtKind::Break => t is Break,
        StmtKind::Continue => t is Continue,
        StmtKind::Expr(x) => t matches TypedStmt::Expr(y) && checked_from(x, y),
    }
}

} // verus!
