//! Checking statements, expressions and blocks.
use vstd::prelude::*;
use crate::ast::{Block, Stmt, StmtKind, Expr, ExprKind, LetDecl, AssignTarget, StringPart, IsTarget, UnaryOp, Span};
use crate::error::CompileError;
use crate::text::{cat2, cat3, cat4, cat5, cat6, str_eq, usize_to_string, chars_of};
use super::{Type, TypeView, TypedExpr, TypedExprKind, TypedBlock, TypedStmt, TypedLetDecl, TypedAssignTarget, TypedStringPart, TypedIsTarget, TypedMatchArm, clone_fields, clone_list, views, list_of};
use super::checker::{TypeChecker, kept, inside, unchanged};
use super::resolve::{with_suggestion, contains_type};
use super::rules::{struct_field_type, is_mutating_method, first_field, names_of_fields, binop_type, index_type, conversion_allowed};
use super::resolve::type_of_expr;
use super::checker::assignable;
use super::{TypeInfo, is_numeric_view, is_integer_view};
use super::capture::{names_contain, add_name};
use super::suggest::views_of;
use super::flow::{diverges, block_returns};
use super::rules::{int_bounds, mutating_method};
use super::typing::{well_typed, block_well_typed, stmt_well_typed, ret_of, node_ok, checked_from, args_from, block_from, stmt_from};

verus! {

/// The value of an integer literal, possibly negated.
pub open spec fn int_literal_value(e: TypedExpr) -> Option<int> {
    match e.kind {
        TypedExprKind::IntLit(n) => Some(n as int),
        TypedExprKind::UnaryOp(op, inner) => if op == UnaryOp::Neg {
            match inner.kind {
                TypedExprKind::IntLit(n) => if n == i128::MIN {
                    None
                } else {
                    Some(-n)
                },
                _ => None,
            }
        } else {
            None
        },
        _ => None,
    }
}

/// The decimal digits of a tuple index, with an optional leading '+'.
pub open spec fn digits_value(s: Seq<char>) -> nat
    decreases s.len(),
{
    if s.len() == 0 {
        0
    } else {
        digits_value(s.drop_last()) * 10 + (s.last() as int - '0' as int) as nat
    }
}

pub open spec fn all_digits(s: Seq<char>) -> bool {
    s.len() > 0 && forall|i: int| 0 <= i < s.len() ==> '0' <= #[trigger] s[i] <= '9'
}

/// The number a field name spells, as `usize` parsing reads it.
/// A field name without its leading '+', if it has one.
pub open spec fn unsigned_part(s: Seq<char>) -> Seq<char> {
    if s.len() > 0 && s[0] == '+' {
        s.drop_first()
    } else {
        s
    }
}

pub open spec fn index_of_field(s: Seq<char>) -> Option<nat> {
    let d = unsigned_part(s);
    if all_digits(d) && digits_value(d) <= usize::MAX {
        Some(digits_value(d))
    } else {
        None
    }
}

/// Reads a tuple index such as `0` or `12` from a field name.
pub fn parse_index(s: &str) -> (r: Option<usize>)
    ensures
        match r {
            Some(n) => index_of_field(s@) == Some(n as nat),
            None => index_of_field(s@) is None,
        },
{
    let cs = chars_of(s);
    let mut start: usize = 0;
    if cs.len() > 0 && cs[0] == '+' {
        start = 1;
    }
    let ghost d = unsigned_part(s@);
    assert(d =~= cs@.skip(start as int));
    if start >= cs.len() {
        return None;
    }
    let mut i: usize = start;
    while i < cs.len()
        invariant
            start <= i <= cs@.len(),
            d == cs@.skip(start as int),
            d == unsigned_part(s@),
            forall|j: int| start <= j < i ==> '0' <= #[trigger] cs@[j] <= '9',
        decreases cs.len() - i,
    {
        let c = cs[i];
        if !('0' <= c && c <= '9') {
            assert(d[i - start] == c);
            assert(!all_digits(d));
            assert(!all_digits(d));
            return None;
        }
        i = i + 1;
    }
    assert(all_digits(d)) by {
        assert forall|j: int| 0 <= j < d.len() implies '0' <= #[trigger] d[j] <= '9' by {
            assert(d[j] == cs@[j + start]);
        }
    }
    let mut v: usize = 0;
    let mut i: usize = start;
    while i < cs.len()
        invariant
            start <= i <= cs@.len(),
            start < cs@.len(),
            d == cs@.skip(start as int),
            d == unsigned_part(s@),
            all_digits(d),
            v == digits_value(d.take(i - start)),
        decreases cs.len() - i,
    {
        let c = cs[i];
        assert(d[i - start] == c);
        assert(d.take(i + 1 - start).drop_last() =~= d.take(i - start));
        let digit = (c as u32 - '0' as u32) as usize;
        if v > (usize::MAX - digit) / 10 {
            proof {
                lemma_digits_monotone(d, (i + 1 - start) as int);
                assert(digits_value(d.take(i + 1 - start)) == v * 10 + digit);
            }
            return None;
        }
        v = v * 10 + digit;
        i = i + 1;
    }
    assert(d.take(i - start) =~= d);
    Some(v)
}

/// A longer run of digits never reads as a smaller number.
pub proof fn lemma_digits_monotone(s: Seq<char>, n: int)
    requires
        0 <= n <= s.len(),
        forall|i: int| 0 <= i < s.len() ==> '0' <= #[trigger] s[i] <= '9',
    ensures
        digits_value(s.take(n)) <= digits_value(s),
    decreases s.len() - n,
{
    if n < s.len() {
        lemma_digits_monotone(s, n + 1);
        assert(s.take(n + 1).drop_last() =~= s.take(n));
    } else {
        assert(s.take(n) =~= s);
    }
}

/// The typing rule that a checked expression obeys, for each form of expression.
pub open spec fn expr_rule(info: TypeInfo, cur: Option<String>, e: Expr, t: TypedExpr) -> bool {
    match e.kind {
        ExprKind::IntLit(n) => t.kind == TypedExprKind::IntLit(n) && t.ty@ == TypeView::I64 && t.span == e.span,
        ExprKind::FloatLit(f) => t.ty@ == TypeView::F64 && t.span == e.span && (t.kind matches TypedExprKind::FloatLit(g)
            && g@ == f@),
        ExprKind::BoolLit(b) => t.kind == TypedExprKind::BoolLit(b) && t.ty@ == TypeView::Bool && t.span == e.span,
        ExprKind::StringLit(s) => t.ty@ == TypeView::String && t.span == e.span && (t.kind matches TypedExprKind::StringLit(
            u,
        ) && u@ == s@),
        ExprKind::InterpolatedString(_) => t.ty@ == TypeView::String && t.span == e.span,
        ExprKind::Nil => t.ty@ == TypeView::Nil && t.span == e.span,
        ExprKind::TypeIdent(_) => t.ty@ == TypeView::Nil && t.span == e.span,
        ExprKind::TypeAccess(_, _) => t.ty@ == TypeView::Nil && t.span == e.span,
        ExprKind::BinOp(_, op, _) => t.span == e.span && match t.kind {
            TypedExprKind::BinOp(l, o, r) => o == op && binop_type(op, l.ty@, r.ty@) == Some(t.ty@),
            _ => false,
        },
        ExprKind::UnaryOp(op, _) => match t.kind {
            TypedExprKind::UnaryOp(o, inner) => o == op && match op {
                UnaryOp::Neg => is_numeric_view(inner.ty@) && t.ty@ == inner.ty@,
                UnaryOp::Not => inner.ty@ == TypeView::Bool && t.ty@ == TypeView::Bool,
                UnaryOp::BitNot => is_integer_view(inner.ty@) && t.ty@ == inner.ty@,
            },
            _ => false,
        },
        ExprKind::Index(_, _) => t.span == e.span && match t.kind {
            TypedExprKind::Index(o, i) => index_type(info, o.ty@, i.ty@) == Some(t.ty@),
            _ => false,
        },
        ExprKind::ErrorLit(_) => match t.kind {
            TypedExprKind::ErrorLit(inner) => t.ty@ == TypeView::Error(Box::new(inner.ty@)),
            _ => false,
        },
        ExprKind::While(_, _) => t.ty@ == TypeView::Nil && t.span == e.span && match t.kind {
            TypedExprKind::While(c, _) => c.ty@ == TypeView::Bool,
            _ => false,
        },
        ExprKind::Loop(_) => t.ty@ == TypeView::Nil && t.span == e.span,
        ExprKind::For(_, _, _, _) => t.ty@ == TypeView::Nil && t.span == e.span && match t.kind {
            TypedExprKind::For(_, _, it, _) => it.ty@ is Array || it.ty@ is MapOf || it.ty@ == TypeView::String
                || it.ty@ == TypeView::Range,
            _ => false,
        },
        ExprKind::Guard(binding, _, _) => t.ty@ == TypeView::Nil && match t.kind {
            TypedExprKind::Guard(_, c, b) => diverges(b) && (binding is None ==> c.ty@ == TypeView::Bool),
            _ => false,
        },
        ExprKind::Is(inner, target) => t.ty@ == TypeView::Bool && t.span == inner.span && match t.kind {
            TypedExprKind::Is(_, tt) => is_target_rule(target, tt),
            _ => false,
        },
        ExprKind::Range(_, _) => t.ty@ == TypeView::Range && t.span == e.span && match t.kind {
            TypedExprKind::Range(a, b) => is_integer_view(a.ty@) && is_integer_view(b.ty@),
            _ => false,
        },
        ExprKind::As(_, te) => match t.kind {
            TypedExprKind::As(inner, _) => type_of_expr(info, cur, te) == Some(t.ty@)
                && conversion_allowed(info, inner.ty@, t.ty@),
            _ => false,
        },
        ExprKind::AsSafe(_, te) => match t.kind {
            TypedExprKind::AsSafe(inner, target) => type_of_expr(info, cur, te) == Some(target@)
                && t.ty@ == TypeView::Optional(Box::new(target@)) && conversion_allowed(info, inner.ty@, target@),
            _ => false,
        },
        ExprKind::Try(_) => match t.kind {
            TypedExprKind::Try(inner) => match inner.ty@ {
                TypeView::Result(ok, _) => t.ty@ == *ok,
                _ => false,
            },
            _ => false,
        },
        ExprKind::Block(_) => t.span == e.span && match t.kind {
            TypedExprKind::Block(b) => t.ty@ == b.ty@,
            _ => false,
        },
        ExprKind::Call(_, _) => match t.kind {
            TypedExprKind::Call(f, args) => match f.ty@ {
                TypeView::Function(ps, ret) => ps.len() == args@.len() && *ret == t.ty@
                    && forall|i: int| 0 <= i < ps.len() ==> #[trigger] assignable(info, args@[i].ty@, ps[i]),
                _ => false,
            },
            TypedExprKind::Panic(_) => t.ty@ == TypeView::Nil,
            _ => false,
        },
        ExprKind::TupleLit(_) => t.span == e.span && match t.kind {
            TypedExprKind::TupleLit(ts) => t.ty@ == TypeView::Tuple(Seq::new(ts@.len(), |i: int| ts@[i].ty@)),
            _ => false,
        },
        ExprKind::ArrayLit(es) => t.span == e.span && match t.kind {
            TypedExprKind::ArrayLit(ts) => ts@.len() == es@.len() && if ts@.len() == 0 {
                t.ty@ == TypeView::Array(Box::new(TypeView::Nil))
            } else {
                t.ty@ == TypeView::Array(Box::new(ts@[0].ty@)) && forall|i: int|
                    1 <= i < ts@.len() ==> #[trigger] assignable(info, ts@[i].ty@, ts@[0].ty@)
            },
            _ => false,
        },
        ExprKind::MapLit(es) => t.span == e.span && match t.kind {
            TypedExprKind::MapLit(ts) => ts@.len() == es@.len() && if ts@.len() == 0 {
                t.ty@ == TypeView::MapOf(Box::new(TypeView::Nil), Box::new(TypeView::Nil))
            } else {
                &&& t.ty@ == TypeView::MapOf(Box::new(ts@[0].0.ty@), Box::new(ts@[0].1.ty@))
                &&& forall|i: int| 1 <= i < ts@.len() ==> #[trigger] assignable(info, ts@[i].0.ty@, ts@[0].0.ty@)
                &&& forall|i: int| 1 <= i < ts@.len() ==> #[trigger] assignable(info, ts@[i].1.ty@, ts@[0].1.ty@)
            },
            _ => false,
        },
        ExprKind::If(_, _, else_expr) => t.span == e.span && match t.kind {
            TypedExprKind::If(c, tb, te) => c.ty@ == TypeView::Bool && (else_expr is None <==> te is None) && match te {
                None => t.ty@ == TypeView::Nil,
                Some(et) => t.ty@ == if_type(info, tb.ty@, et.ty@),
            },
            _ => false,
        },
        ExprKind::Match(_, arms) => t.span == e.span && match t.kind {
            TypedExprKind::Match(ts, tarms) => tarms@.len() == arms@.len() && t.ty@ == match_type(
                info,
                arm_types(tarms@),
            ) && super::patterns::exhaustive(info, cur, ts.ty@, arms@),
            _ => false,
        },
        ExprKind::StructLit(n, module, fs, spread) => t.span == e.span && t.ty@ == TypeView::Struct(
            lit_name(n@, module),
        ) && match (t.kind, lit_fields(info, n@, module)) {
            (TypedExprKind::StructLit(full, tfs, tspread), Some(decl)) => {
                &&& full@ == lit_name(n@, module)
                &&& tfs@.len() == fs@.len()
                &&& (spread is None <==> tspread is None)
                &&& forall|i: int| 0 <= i < tfs@.len() ==> #[trigger] field_checked(info, decl, fs@[i], tfs@[i])
                &&& lit_field_names(fs@).no_duplicates()
                &&& (spread is None ==> forall|k: int|
                    0 <= k < decl.len() ==> #[trigger] lit_field_names(fs@).contains(decl[k].0@))
                &&& (tspread matches Some(sp) ==> sp.0.ty@ == TypeView::Struct(lit_name(n@, module)))
            },
            _ => false,
        },
        ExprKind::EnumVariant(n, v, _) => variant_rule(info, n@, None, v@, t),
        ExprKind::QualifiedEnumVariant(m, n, v, _) => variant_rule(info, n@, Some(m), v@, t),
        ExprKind::FieldAccess(_, f) => t.span == e.span && match t.kind {
            TypedExprKind::FieldAccess(o, tf) => tf@ == f@ && field_access_type(info, o.ty@, f@) == Some(t.ty@),
            _ => false,
        },
        ExprKind::MethodCall(_, m, _) => match t.kind {
            TypedExprKind::MethodCall(o, tm, targs) => tm@ == m@ && method_call_type(
                info,
                o.ty@,
                m@,
                super::methods::arg_types(targs@),
            ) == Some(t.ty@),
            TypedExprKind::StaticMethodCall(n, tm, targs) => tm@ == m@ && static_call_type(info, n@, m@, targs@.len())
                == Some(t.ty@),
            TypedExprKind::EnumVariant(n, tm, targs) => tm@ == m@ && static_call_type(info, n@, m@, targs@.len())
                == Some(t.ty@),
            _ => false,
        },
        ExprKind::StaticMethodCall(n, m, args) => t.span == e.span && match t.kind {
            TypedExprKind::StaticMethodCall(tn, tm, targs) => tn@ == n@ && tm@ == m@ && targs@.len() == args@.len()
                && static_call_type(info, n@, m@, targs@.len()) == Some(t.ty@),
            TypedExprKind::EnumVariant(tn, tm, targs) => tn@ == n@ && tm@ == m@ && targs@.len() == args@.len()
                && static_call_type(info, n@, m@, targs@.len()) == Some(t.ty@),
            _ => false,
        },
        ExprKind::Lambda(_, _, _) => t.span == e.span && t.ty@ is Function && match t.kind {
            TypedExprKind::Lambda(_, ret, body) => (ret@ != TypeView::Nil && ret@ != TypeView::Void) ==> block_returns(body),
            _ => false,
        },
        _ => true,
    }
}

/// The rule that a checked statement obeys, for each form of statement.
pub open spec fn stmt_rule(ck: TypeChecker, after: TypeChecker, st: Stmt, t: TypedStmt) -> bool {
    let info = ck.type_info;
    match st.kind {
        StmtKind::Break => ck.in_loop && t == TypedStmt::Break,
        StmtKind::Continue => ck.in_loop && t == TypedStmt::Continue,
        StmtKind::Expr(_) => match t {
            TypedStmt::Expr(e) => !(e.ty@ is Result),
            _ => false,
        },
        StmtKind::Return(v) => match t {
            TypedStmt::Return(tv) => (v is None <==> tv is None) && match (tv, ck.current_fn_return) {
                (Some(e), Some(rt)) => assignable(info, e.ty@, rt@),
                _ => true,
            },
            _ => false,
        },
        StmtKind::ReturnError(_) => match t {
            TypedStmt::ReturnError(e) => match ck.current_fn_return {
                Some(rt) => match rt@ {
                    TypeView::Result(_, err) => assignable(info, e.ty@, *err),
                    _ => true,
                },
                None => true,
            },
            _ => false,
        },
        StmtKind::Assign(_, _) => match t {
            TypedStmt::Assign(tt, tv) => match *tt {
                TypedAssignTarget::Variable(n, vt) => after.var_view(n@) == Some((vt@, true)) && assignable(info, tv.ty@, vt@),
                TypedAssignTarget::Field(_, _, ft) => assignable(info, tv.ty@, ft@),
                TypedAssignTarget::Index(_, _, et) => assignable(info, tv.ty@, et@),
            },
            _ => false,
        },
        StmtKind::Let(d) => match t {
            TypedStmt::Let(td) => td.name@ == d.name@ && td.mutable == d.mutable && match d.ty {
                Some(te) => type_of_expr(info, ck.current_type_name, te) == Some(td.ty@),
                None => td.ty@ == td.value.ty@,
            },
            _ => false,
        },
        StmtKind::LetTuple(names, _) => match t {
            TypedStmt::LetTuple(bs, v) => match v.ty@ {
                TypeView::Tuple(ts) => ts.len() == names@.len() && bs@.len() == names@.len()
                    && forall|i: int| 0 <= i < names@.len() ==> (#[trigger] bs@[i]).0@ == names@[i]@
                        && bs@[i].1@ == ts[i],
                _ => false,
            },
            _ => false,
        },
    }
}

/// The target of an `is` test keeps its kind and names.
pub open spec fn is_target_rule(target: IsTarget, tt: TypedIsTarget) -> bool {
    match (target, tt) {
        (IsTarget::Type(_), TypedIsTarget::Type(_)) => true,
        (IsTarget::EnumVariant(a, b), TypedIsTarget::EnumVariant(c, d)) => a@ == c@ && b@ == d@,
        (IsTarget::QualifiedVariant(a, b, c), TypedIsTarget::QualifiedVariant(x, y, z)) => a@ == x@ && b@ == y@
            && c@ == z@,
        (IsTarget::Expr(_), TypedIsTarget::Expr(_)) => true,
        _ => false,
    }
}

/// Whether a unary operator applies to a value of type `t`: negation to
/// numbers, `!` to booleans, `~` to integers.
pub open spec fn unary_ok(op: UnaryOp, t: TypeView) -> bool {
    match op {
        UnaryOp::Neg => is_numeric_view(t),
        UnaryOp::Not => t == TypeView::Bool,
        UnaryOp::BitNot => is_integer_view(t),
    }
}

/// Whether a literal may initialise a binding declared with type `te`: the
/// type must exist; an integer literal given an integer type must lie in
/// its range, and any other literal must be assignable to it.
pub open spec fn let_literal_ok(info: TypeInfo, cur: Option<String>, te: crate::ast::TypeExpr, v: Expr) -> bool {
    match type_of_expr(info, cur, te) {
        None => false,
        Some(d) => match v.kind {
            ExprKind::IntLit(n) => if is_integer_view(d) {
                match int_bounds(d) {
                    Some(b) => b.0 <= n <= b.1,
                    None => true,
                }
            } else {
                assignable(info, TypeView::I64, d)
            },
            _ => assignable(info, literal_type(v), d),
        },
    }
}

/// Every field value of a struct literal is a literal.
pub open spec fn literal_fields(fs: Seq<(String, Expr)>) -> bool {
    forall|i: int| 0 <= i < fs.len() ==> literal_expr(#[trigger] fs[i].1)
}

/// A struct literal with literal values fits its declaration: no field
/// twice, each a declared field whose type takes its value, every declared
/// field given.
pub open spec fn struct_lit_fits(info: TypeInfo, decl: Seq<(String, Type)>, fs: Seq<(String, Expr)>) -> bool {
    &&& lit_field_names(fs).no_duplicates()
    &&& forall|i: int| 0 <= i < fs.len() ==> #[trigger] literal_field_fits(info, decl, fs[i])
    &&& forall|k: int| 0 <= k < decl.len() ==> lit_field_names(fs).contains(#[trigger] decl[k].0@)
}

/// A field of a struct literal is declared and its literal value fits.
pub open spec fn literal_field_fits(info: TypeInfo, decl: Seq<(String, Type)>, f: (String, Expr)) -> bool {
    match super::rules::find_field(decl, f.0@) {
        Some(ft) => assignable(info, literal_type(f.1), ft),
        None => false,
    }
}

/// A literal: an integer, float, boolean, string or `nil`.
pub open spec fn literal_expr(e: Expr) -> bool {
    e.kind is IntLit || e.kind is FloatLit || e.kind is BoolLit || e.kind is StringLit || e.kind is Nil
}

/// The type of a literal.
pub open spec fn literal_type(e: Expr) -> TypeView {
    match e.kind {
        ExprKind::IntLit(_) => TypeView::I64,
        ExprKind::FloatLit(_) => TypeView::F64,
        ExprKind::BoolLit(_) => TypeView::Bool,
        ExprKind::StringLit(_) => TypeView::String,
        _ => TypeView::Nil,
    }
}

/// Every expression of the list is a literal.
pub open spec fn all_literal(es: Seq<Expr>) -> bool {
    forall|i: int| 0 <= i < es.len() ==> literal_expr(#[trigger] es[i])
}

/// The types of a list of literals.
pub open spec fn literal_types(es: Seq<Expr>) -> Seq<TypeView> {
    Seq::new(es.len(), |i: int| literal_type(es[i]))
}

/// A statement that needs nothing of the scope: `break` or `continue` inside
/// a loop, or a literal.
pub open spec fn simple_stmt(st: Stmt, lp: bool) -> bool {
    match st.kind {
        StmtKind::Break | StmtKind::Continue => lp,
        StmtKind::Expr(e) => literal_expr(e),
        _ => false,
    }
}

/// A statement that needs nothing of the scope but that its name is free:
/// a simple statement, or `let` of a literal with no written type whose
/// name is not that of an imported module.
pub open spec fn simple_stmt_in(st: Stmt, lp: bool, info: TypeInfo) -> bool {
    simple_stmt(st, lp) || (st.kind matches StmtKind::Let(d) && d.ty is None && literal_expr(d.value)
        && info.modules.get_spec(d.name@) is None)
}

/// Every statement of the block is simple, or a `let` of a literal.
pub open spec fn simple_block(b: Block, lp: bool, info: TypeInfo) -> bool {
    forall|i: int| 0 <= i < b.stmts@.len() ==> simple_stmt_in(#[trigger] b.stmts@[i], lp, info)
}

/// A simple block that ends by leaving: its last statement is `break` or `continue`.
pub open spec fn leaves_simply(b: Block) -> bool {
    b.stmts@.len() > 0 && (b.stmts@.last().kind is Break || b.stmts@.last().kind is Continue)
}

/// Every key and value of a map literal is a literal.
pub open spec fn literal_pairs(es: Seq<(Expr, Expr)>) -> bool {
    forall|i: int| 0 <= i < es.len() ==> literal_expr((#[trigger] es[i]).0) && literal_expr(es[i].1)
}

/// Every key and value fits the type of the first key and value.
pub open spec fn pairs_fit(info: TypeInfo, es: Seq<(Expr, Expr)>) -> bool {
    forall|i: int| 1 <= i < es.len() ==> #[trigger] pair_fits(info, es, i)
}

/// Entry `i` fits the types of the first entry.
pub open spec fn pair_fits(info: TypeInfo, es: Seq<(Expr, Expr)>, i: int) -> bool {
    assignable(info, literal_type(es[i].0), literal_type(es[0].0)) && assignable(info, literal_type(es[i].1), literal_type(es[0].1))
}

/// How a simple statement is checked: `break` and `continue` stay what
/// they are, and a literal is an expression statement that does not leave.
pub open spec fn typed_simply(st: Stmt, t: TypedStmt) -> bool {
    match st.kind {
        StmtKind::Break => t is Break,
        StmtKind::Continue => t is Continue,
        StmtKind::Let(_) => t is Let,
        _ => t matches TypedStmt::Expr(e) && !(e.kind is Panic) && typed_literal(e.kind),
    }
}

/// A checked literal.
pub open spec fn typed_literal(k: TypedExprKind) -> bool {
    k is IntLit || k is FloatLit || k is BoolLit || k is StringLit || k is Nil
}

/// The type of an operand that is a literal or a name, as the checker in
/// state `ck` sees it.
pub open spec fn operand_type(ck: TypeChecker, e: Expr) -> Option<TypeView> {
    if literal_expr(e) {
        Some(literal_type(e))
    } else {
        match e.kind {
            ExprKind::Ident(n) => ident_type(ck, n@),
            _ => None,
        }
    }
}

/// An `if` whose condition is a literal or a name of a type other than
/// `bool` is refused with a message naming that type, at the `if`.
pub open spec fn if_condition_checked(ck: TypeChecker, expr: Expr, r: Result<TypedExpr, CompileError>) -> bool {
    match expr.kind {
        ExprKind::If(c, _, _) => match operand_type(ck, *c) {
            Some(t) => t != TypeView::Bool ==> (r matches Err(err) && err.message@ == "if condition must be bool, got "@
                + super::type_display(t) && err.span == expr.span),
            None => true,
        },
        _ => true,
    }
}

/// What checking an expression statement gives, read as the check of its
/// expression.
pub open spec fn expr_part(r: Result<TypedStmt, CompileError>) -> Result<TypedExpr, CompileError> {
    match r {
        Ok(TypedStmt::Expr(t)) => Ok(t),
        Err(e) => Err(e),
        _ => arbitrary(),
    }
}

/// A lambda without parameters whose body simply runs to its end but that
/// declares a return type other than nil or void is refused, at the lambda.
pub open spec fn lambda_return_checked(ck: TypeChecker, expr: Expr, r: Result<TypedExpr, CompileError>) -> bool {
    match expr.kind {
        ExprKind::Lambda(ps, ret, body) => (ps@.len() == 0 && ret is None && simple_block(body, ck.in_loop, ck.type_info) ==> r is Ok)
            && (ps@.len() == 0 && simple_block(body, ck.in_loop, ck.type_info) ==> match ret {
            Some(te) => match type_of_expr(ck.type_info, ck.current_type_name, te) {
                Some(rt) => rt != TypeView::Nil && rt != TypeView::Void ==> (r matches Err(err) && err.message@
                    == "lambda declares return type "@ + super::type_display(rt) + " but not all code paths return a value"@
                    && err.span == expr.span),
                None => r is Err,
            },
            None => true,
        }),
        _ => true,
    }
}

/// The built-in `length` of a literal or a name of a string, array, map or
/// tuple type is an `i64`; a field of a name of a struct type is found
/// exactly when the struct (or the module struct it names) has that field.
pub open spec fn field_access_checked(ck: TypeChecker, expr: Expr, r: Result<TypedExpr, CompileError>) -> bool {
    match expr.kind {
        ExprKind::FieldAccess(o, f) => match operand_type(ck, *o) {
            Some(t) => (f@ == "length"@ && (t is String || t is Array || t is MapOf || t is Tuple)
                ==> (r matches Ok(te) && te.ty@ == TypeView::I64)) && match t {
                TypeView::Struct(n) => match r {
                    Ok(te) => struct_field_type(ck.type_info, n, f@) == Some(te.ty@),
                    Err(_) => struct_field_type(ck.type_info, n, f@) is None,
                },
                _ => true,
            },
            None => true,
        },
        _ => true,
    }
}

/// A block of simply checked statements never returns a value on every path.
pub proof fn lemma_simple_block_no_return(block: Block, b: TypedBlock, lp: bool, info: TypeInfo)
    requires
        simple_block(block, lp, info),
        b.stmts@.len() == block.stmts@.len(),
        forall|i: int| 0 <= i < block.stmts@.len() ==> simple_stmt_in(#[trigger] block.stmts@[i], lp, info)
            ==> typed_simply(block.stmts@[i], b.stmts@[i]),
    ensures
        !block_returns(b),
{
    if b.stmts@.len() > 0 {
        let k = b.stmts@.len() - 1;
        assert(simple_stmt_in(block.stmts@[k], lp, info));
        assert(typed_simply(block.stmts@[k], b.stmts@[k]));
    }
}

/// Whether an enum variant with literal arguments is accepted: the variant
/// must exist, take as many fields as it is given, and each literal must fit.
pub open spec fn enum_variant_outcome(info: TypeInfo, n: Seq<char>, module: Option<String>, v: Seq<char>, args: Seq<Expr>, ok: bool) -> bool {
    match variant_fields_of(info, n, module, v) {
        None => !ok,
        Some(fs) => all_literal(args) ==> (ok <==> (fs.len() == args.len() && forall|i: int|
            0 <= i < fs.len() ==> #[trigger] assignable(info, literal_type(args[i]), fs[i]))),
    }
}

/// Moving an expression to another place in the source keeps it well typed.
proof fn lemma_well_typed_respan(info: TypeInfo, ret: Option<TypeView>, lp: bool, t: TypedExpr, span: Span)
    ensures
        well_typed(info, ret, lp, t) == well_typed(info, ret, lp, TypedExpr { kind: t.kind, ty: t.ty, span }),
{
    let u = TypedExpr { kind: t.kind, ty: t.ty, span };
    assert(node_ok(info, t) == node_ok(info, u));
}

/// The index of the first variant named `m`.
pub open spec fn variant_position(vs: Seq<super::VariantInfo>, m: Seq<char>) -> Option<int>
    decreases vs.len(),
{
    if vs.len() == 0 {
        None
    } else {
        match variant_position(vs.drop_last(), m) {
            Some(i) => Some(i),
            None => if vs.last().name@ == m {
                Some(vs.len() - 1)
            } else {
                None
            },
        }
    }
}

/// The type of `name.method(..)` with `nargs` arguments when `name` is a
/// type: a static method of a struct, or else a variant of an enum.
pub open spec fn type_static_call(info: TypeInfo, name: Seq<char>, method: Seq<char>, nargs: nat) -> Option<TypeView> {
    let static_method = match info.structs.get_spec(name) {
        Some(si) => match si.methods.get_spec(method) {
            Some(fi) => if !fi.is_method {
                Some(fi)
            } else {
                None
            },
            None => None,
        },
        None => None,
    };
    match static_method {
        Some(fi) => if fi.params@.len() == nargs {
            Some(fi.return_type@)
        } else {
            None
        },
        None => match info.enums.get_spec(name) {
            Some(ei) => match variant_position(ei.variants@, method) {
                Some(k) => if ei.variants@[k].fields@.len() == nargs {
                    Some(TypeView::Enum(name))
                } else {
                    None
                },
                None => None,
            },
            None => None,
        },
    }
}

/// The type of `name.method(..)` with `nargs` arguments: a function of the
/// imported module `name`, or else a static method or variant of the type
/// `name`; `None` where the call is refused.
pub open spec fn static_call_type(info: TypeInfo, name: Seq<char>, method: Seq<char>, nargs: nat) -> Option<TypeView> {
    match info.modules.get_spec(name) {
        Some(mi) => match mi.functions.get_spec(method) {
            Some(fi) => if fi.params@.len() == nargs {
                Some(fi.return_type@)
            } else {
                None
            },
            None => if mi.enums.get_spec(method) is Some {
                None
            } else {
                type_static_call(info, name, method, nargs)
            },
        },
        None => type_static_call(info, name, method, nargs),
    }
}

/// A variant found in a prefix of the list is found at the same place in the whole list.
pub proof fn lemma_variant_position_prefix(vs: Seq<super::VariantInfo>, m: Seq<char>, n: int)
    requires
        0 <= n <= vs.len(),
        variant_position(vs.take(n), m) is Some,
    ensures
        variant_position(vs, m) == variant_position(vs.take(n), m),
    decreases vs.len(),
{
    if n < vs.len() {
        assert(vs.drop_last().take(n) =~= vs.take(n));
        lemma_variant_position_prefix(vs.drop_last(), m, n);
    } else {
        assert(vs.take(n) =~= vs);
    }
}

/// The position just after the last '.' of a name, or 0.
pub open spec fn after_last_dot(p: Seq<char>) -> int
    decreases p.len(),
{
    if p.len() == 0 {
        0
    } else if p.last() == '.' {
        p.len() as int
    } else {
        after_last_dot(p.drop_last())
    }
}

/// The result of a lookup that either gives a type or an error message.
pub open spec fn ok_type(r: Result<TypeView, Seq<char>>) -> Option<TypeView> {
    match r {
        Ok(t) => Some(t),
        Err(_) => None,
    }
}

/// Method `m` of the struct named `short` in the first of the modules that
/// has one (and `clone()` on it), looked up for a value of type `obj`.
pub open spec fn module_struct_method(
    mods: Seq<(String, super::ModuleInfo)>,
    short: Seq<char>,
    m: Seq<char>,
    nargs: nat,
    obj: TypeView,
) -> Option<TypeView>
    decreases mods.len(),
{
    if mods.len() == 0 {
        None
    } else {
        let rest = module_struct_method(mods.drop_first(), short, m, nargs, obj);
        match mods[0].1.structs.get_spec(short) {
            Some(si) => match si.methods.get_spec(m) {
                Some(fi) => Some(fi.return_type@),
                None => if m == "clone"@ && nargs == 0 {
                    Some(obj)
                } else {
                    rest
                },
            },
            None => rest,
        }
    }
}

/// The type of calling method `m` with `nargs` arguments on a value of the
/// struct type `name`: a method it declares (a receiver not counted among
/// the arguments), its `clone()`, or one of a module's struct of that name.
pub open spec fn struct_method_type(info: TypeInfo, name: Seq<char>, m: Seq<char>, nargs: nat) -> Option<TypeView> {
    let local: Option<Option<TypeView>> = match info.structs.get_spec(name) {
        Some(si) => match si.methods.get_spec(m) {
            Some(fi) => {
                let np = fi.params@.len();
                let expected = if fi.is_method && np > 0 {
                    (np - 1) as nat
                } else {
                    np
                };
                Some(
                    if expected == nargs {
                        Some(fi.return_type@)
                    } else {
                        None
                    },
                )
            },
            None => if m == "clone"@ && nargs == 0 {
                Some(Some(TypeView::Struct(name)))
            } else {
                None
            },
        },
        None => None,
    };
    match local {
        Some(res) => res,
        None => module_struct_method(
            info.modules.entries@,
            name.subrange(after_last_dot(name), name.len() as int),
            m,
            nargs,
            TypeView::Struct(name),
        ),
    }
}

/// The type of calling method `m` with arguments of types `args` on a value
/// of type `obj`; `None` where the call is refused.
pub open spec fn method_call_type(info: TypeInfo, obj: TypeView, m: Seq<char>, args: Seq<TypeView>) -> Option<TypeView> {
    match obj {
        TypeView::String => ok_type(
            super::methods::by_signature(
                super::methods::string_method_sig(m),
                m,
                args.len(),
                "unknown string method '"@ + m + "'"@,
            ),
        ),
        TypeView::Array(e) => ok_type(super::methods::array_method(info, *e, m, args)),
        TypeView::MapOf(k, v) => ok_type(
            super::methods::by_signature(
                super::methods::map_method_sig(m, *k, *v),
                m,
                args.len(),
                "unknown map method '"@ + m + "'"@,
            ),
        ),
        TypeView::Struct(name) => struct_method_type(info, name, m, args.len()),
        TypeView::Enum(name) => match info.enums.get_spec(name) {
            Some(ei) => match ei.methods.get_spec(m) {
                Some(fi) => Some(fi.return_type@),
                None => None,
            },
            None => None,
        },
        TypeView::Capability(c) => ok_type(super::methods::capability_method(c, m, args.len())),
        _ => None,
    }
}

/// The type of `.field` on a value of type `obj`: `length` of a string,
/// array, map or tuple; a tuple's element by position; a struct's field.
pub open spec fn field_access_type(info: TypeInfo, obj: TypeView, field: Seq<char>) -> Option<TypeView> {
    if field == "length"@ && (obj == TypeView::String || obj is Array || obj is MapOf || obj is Tuple) {
        Some(TypeView::I64)
    } else {
        match obj {
            TypeView::Tuple(ts) => match index_of_field(field) {
                Some(i) => if i < ts.len() {
                    Some(ts[i as int])
                } else {
                    None
                },
                None => None,
            },
            TypeView::Struct(n) => super::rules::struct_field_type(info, n, field),
            _ => None,
        }
    }
}

/// The type of a name used as a value: the built-in `panic`, a variable in
/// scope, a function, or an imported module.
pub open spec fn ident_type(ck: TypeChecker, n: Seq<char>) -> Option<TypeView> {
    if n == "panic"@ {
        Some(TypeView::Function(seq![TypeView::String], Box::new(TypeView::Nil)))
    } else {
        match ck.var_view(n) {
            Some(b) => Some(b.0),
            None => match ck.type_info.functions.get_spec(n) {
                Some(fi) => Some(
                    TypeView::Function(
                        Seq::new(fi.params@.len(), |i: int| fi.params@[i].1@),
                        Box::new(fi.return_type@),
                    ),
                ),
                None => if ck.type_info.modules.get_spec(n) is Some {
                    Some(TypeView::Nil)
                } else {
                    None
                },
            },
        }
    }
}

/// The union of two branch types: the members of the first, then those of
/// the second (a non-union second type only if it is not there already).
pub open spec fn branch_union(a: TypeView, b: TypeView) -> TypeView {
    let first = match a {
        TypeView::Union(m) => m,
        _ => seq![a],
    };
    TypeView::Union(
        match b {
            TypeView::Union(m) => first + m,
            _ => if first.contains(b) {
                first
            } else {
                first.push(b)
            },
        },
    )
}

/// The type of an `if` whose branches have types `a` and `b`: the wider of
/// the two, `nil` if either is `nil`, else their union.
pub open spec fn if_type(info: TypeInfo, a: TypeView, b: TypeView) -> TypeView {
    if assignable(info, a, b) {
        b
    } else if assignable(info, b, a) {
        a
    } else if a == TypeView::Nil || b == TypeView::Nil {
        TypeView::Nil
    } else {
        branch_union(a, b)
    }
}

/// The type of a `match` so far, `acc`, widened by an arm of type `b`.
pub open spec fn match_join(info: TypeInfo, acc: TypeView, b: TypeView) -> TypeView {
    if !assignable(info, b, acc) && !assignable(info, acc, b) {
        if b != TypeView::Nil && acc != TypeView::Nil {
            branch_union(acc, b)
        } else {
            acc
        }
    } else if assignable(info, acc, b) {
        b
    } else {
        acc
    }
}

/// The type of a `match` whose arms have types `bodies`, joined in order.
pub open spec fn match_type(info: TypeInfo, bodies: Seq<TypeView>) -> TypeView
    decreases bodies.len(),
{
    if bodies.len() == 0 {
        TypeView::Nil
    } else if bodies.len() == 1 {
        bodies[0]
    } else {
        match_join(info, match_type(info, bodies.drop_last()), bodies.last())
    }
}

/// The types of the arms of a checked `match`.
pub open spec fn arm_types(arms: Seq<TypedMatchArm>) -> Seq<TypeView> {
    Seq::new(arms.len(), |i: int| arms[i].body.ty@)
}

/// The name a struct literal builds: `module.Type` or `Type`.
pub open spec fn lit_name(n: Seq<char>, module: Option<String>) -> Seq<char> {
    match module {
        Some(m) => m@ + "."@ + n,
        None => n,
    }
}

/// The declared fields of the struct a literal names.
pub open spec fn lit_fields(info: TypeInfo, n: Seq<char>, module: Option<String>) -> Option<Seq<(String, Type)>> {
    match module {
        Some(m) => match info.modules.get_spec(m@) {
            Some(mi) => match mi.structs.get_spec(n) {
                Some(si) => Some(si.fields@),
                None => None,
            },
            None => None,
        },
        None => match info.structs.get_spec(n) {
            Some(si) => Some(si.fields@),
            None => None,
        },
    }
}

/// The field names written in a struct literal, in order.
pub open spec fn lit_field_names(fs: Seq<(String, Expr)>) -> Seq<Seq<char>> {
    Seq::new(fs.len(), |i: int| fs[i].0@)
}

/// A field of a struct literal was checked: it is declared, and its value
/// fits the declared type.
pub open spec fn field_checked(info: TypeInfo, decl: Seq<(String, Type)>, f: (String, Expr), tf: (String, TypedExpr)) -> bool {
    tf.0@ == f.0@ && match super::rules::find_field(decl, f.0@) {
        Some(ft) => assignable(info, tf.1.ty@, ft),
        None => false,
    }
}

/// Equal lists of named types have the same fields.
pub proof fn lemma_find_field_same(a: Seq<(String, Type)>, b: Seq<(String, Type)>, f: Seq<char>)
    requires
        super::same_pairs(a, b),
    ensures
        super::rules::find_field(a, f) == super::rules::find_field(b, f),
    decreases a.len(),
{
    if a.len() > 0 {
        assert(a[0].0@ == b[0].0@ && a[0].1@ == b[0].1@);
        assert(super::same_pairs(a.drop_first(), b.drop_first())) by {
            assert forall|i: int| 0 <= i < a.drop_first().len() implies #[trigger] a.drop_first()[i].0@
                == b.drop_first()[i].0@ && a.drop_first()[i].1@ == b.drop_first()[i].1@ by {
                assert(a.drop_first()[i] == a[i + 1]);
                assert(b.drop_first()[i] == b[i + 1]);
            }
        }
        lemma_find_field_same(a.drop_first(), b.drop_first(), f);
    }
}

/// The field types of variant `v` of the enum named `n` (in `module`, if given).
pub open spec fn variant_fields_of(info: TypeInfo, n: Seq<char>, module: Option<String>, v: Seq<char>) -> Option<
    Seq<TypeView>,
> {
    let e = match module {
        Some(m) => match info.modules.get_spec(m@) {
            Some(mi) => mi.enums.get_spec(n),
            None => None,
        },
        None => info.enums.get_spec(n),
    };
    match e {
        Some(ei) => match variant_position(ei.variants@, v) {
            Some(k) => Some(views(ei.variants@[k].fields@)),
            None => None,
        },
        None => None,
    }
}

/// A checked `Type.Variant(args)`: of the enum's type, with one argument per
/// field of the variant, each fitting its field's type.
pub open spec fn variant_rule(info: TypeInfo, n: Seq<char>, module: Option<String>, v: Seq<char>, t: TypedExpr) -> bool {
    t.ty@ == TypeView::Enum(lit_name(n, module)) && match t.kind {
        TypedExprKind::EnumVariant(full, tv, targs) => full@ == lit_name(n, module) && tv@ == v && match variant_fields_of(
            info,
            n,
            module,
            v,
        ) {
            Some(fs) => fs.len() == targs@.len() && forall|i: int|
                0 <= i < fs.len() ==> #[trigger] assignable(info, targs@[i].ty@, fs[i]),
            None => false,
        },
        _ => false,
    }
}

/// The place `e` writes through a binding declared without `mut`.
pub open spec fn immutable_root(ck: TypeChecker, e: Expr) -> bool
    decreases e,
{
    match e.kind {
        ExprKind::Ident(n) => match ck.var_view(n@) {
            Some(b) => !b.1,
            None => false,
        },
        ExprKind::FieldAccess(inner, _) => immutable_root(ck, *inner),
        ExprKind::Index(inner, _) => immutable_root(ck, *inner),
        _ => false,
    }
}

/// The expression a place is rooted at: through field accesses and
/// indexing to the value they start from.
pub open spec fn place_root(e: Expr) -> Expr
    decreases e,
{
    match e.kind {
        ExprKind::FieldAccess(inner, _) => place_root(*inner),
        ExprKind::Index(inner, _) => place_root(*inner),
        _ => e,
    }
}

/// The type of a block: that of its last statement when it is an expression, else `nil`.
pub open spec fn block_type(stmts: Seq<TypedStmt>) -> TypeView {
    if stmts.len() > 0 && stmts.last() is Expr {
        match stmts.last() {
            TypedStmt::Expr(e) => e.ty@,
            _ => TypeView::Nil,
        }
    } else {
        TypeView::Nil
    }
}

impl TypeChecker {
    /// The value of an integer literal, possibly negated.
    pub fn extract_int_literal(expr: &TypedExpr) -> (r: Option<i128>)
        ensures
            match r {
                Some(n) => int_literal_value(*expr) == Some(n as int),
                None => int_literal_value(*expr) is None,
            },
    {
        match &expr.kind {
            TypedExprKind::IntLit(n) => Some(*n),
            TypedExprKind::UnaryOp(op, inner) => {
                if matches!(op, UnaryOp::Neg) {
                    match &inner.kind {
                        TypedExprKind::IntLit(n) => if *n == i128::MIN {
                            None
                        } else {
                            Some(-*n)
                        },
                        _ => None,
                    }
                } else {
                    None
                }
            },
            _ => None,
        }
    }

    /// Checks that the variable at the root of a place expression is
    /// mutable; places with no named root (call results) are allowed.
    pub fn check_mutable_target(&self, expr: &Expr, action: &str) -> (r: Result<(), CompileError>)
        ensures
            r is Err <==> immutable_root(*self, *expr),
            r matches Err(err) ==> (place_root(*expr).kind matches ExprKind::Ident(n) && err.message@ == "cannot "@ + action@
                + " on immutable binding '"@ + n@ + "' (declare with 'let mut')"@ && err.span == place_root(*expr).span),
        decreases expr,
    {
        match &expr.kind {
            ExprKind::Ident(name) => {
                match self.lookup_var(name.as_str()) {
                    Some((_, mutable)) => {
                        if !mutable {
                            let msg = cat5("cannot ", action, " on immutable binding '", name.as_str(), "' (declare with 'let mut')");
                            return Err(CompileError::new(msg, expr.span));
                        }
                    },
                    None => {},
                }
                Ok(())
            },
            ExprKind::FieldAccess(inner, _) | ExprKind::Index(inner, _) => self.check_mutable_target(inner, action),
            _ => Ok(()),
        }
    }

    pub fn check_block(&mut self, block: &Block) -> (r: Result<TypedBlock, CompileError>)
        ensures
            r is Ok ==> unchanged(*old(self), *final(self)),
            r matches Ok(b) ==> b.stmts@.len() == block.stmts@.len() && b.ty@ == block_type(b.stmts@),
            r matches Ok(b) ==> block_well_typed(old(self).type_info, ret_of(*old(self)), old(self).in_loop, b),
            r matches Ok(b) ==> block_from(*block, b),
            simple_block(*block, old(self).in_loop, old(self).type_info) ==> r is Ok,
            r matches Ok(b) ==> forall|i: int| 0 <= i < block.stmts@.len() ==> simple_stmt_in(#[trigger] block.stmts@[i], old(self).in_loop, old(self).type_info)
                ==> typed_simply(block.stmts@[i], b.stmts@[i]),
        decreases block, 2nat,
    {
        let ghost start = *self;
        self.push_scope();
        let mut stmts: Vec<TypedStmt> = Vec::new();
        let mut block_ty = Type::Nil;
        let n = block.stmts.len();
        let mut i: usize = 0;
        while i < n
            invariant
                i <= n,
                n == block.stmts@.len(),
                inside(start, *self),
                stmts@.len() == i,
                block_ty@ == block_type(stmts@),
                forall|j: int| 0 <= j < i ==> stmt_well_typed(start.type_info, ret_of(start), start.in_loop, #[trigger] stmts@[j]),
                forall|j: int| 0 <= j < i ==> stmt_from(block.stmts@[j], #[trigger] stmts@[j]),
                forall|j: int| 0 <= j < i ==> simple_stmt_in(#[trigger] block.stmts@[j], start.in_loop, start.type_info)
                    ==> typed_simply(block.stmts@[j], stmts@[j]),
                start == *old(self),
            decreases n - i,
        {
            proof {
                assert(decreases_to!(block.stmts => block.stmts@[i as int]));
                if simple_block(*block, start.in_loop, start.type_info) {
                    assert(simple_stmt_in(block.stmts@[i as int], self.in_loop, self.type_info));
                }
            }
            let typed = match self.check_stmt(&block.stmts[i]) {
                Ok(t) => t,
                Err(e) => {
                    return Err(e);
                },
            };
            block_ty = match &typed {
                TypedStmt::Expr(e) => e.ty.deep_clone(),
                _ => Type::Nil,
            };
            stmts.push(typed);
            i = i + 1;
        }
        self.pop_scope();
        assert(self.scopes@ =~= start.scopes@);
        Ok(TypedBlock { stmts, ty: block_ty })
    }

    pub fn check_let_decl(&mut self, decl: &LetDecl) -> (r: Result<TypedLetDecl, CompileError>)
        ensures
            r is Ok ==> kept(*old(self), *final(self)),
            r matches Ok(td) ==> td.name@ == decl.name@ && td.mutable == decl.mutable,
            r matches Ok(td) ==> well_typed(old(self).type_info, ret_of(*old(self)), old(self).in_loop, td.value),
            r matches Ok(td) ==> checked_from(decl.value, td.value),
            r matches Ok(td) ==> match decl.ty {
                Some(te) => type_of_expr(old(self).type_info, old(self).current_type_name, te) == Some(td.ty@)
                    && (td.value.ty@ == td.ty@ || assignable(old(self).type_info, td.value.ty@, td.ty@)),
                None => td.ty@ == td.value.ty@,
            },
            r matches Ok(td) ==> (old(self).scopes@.len() > 0 ==> final(self).var_view(decl.name@) == Some((td.ty@, decl.mutable))),
            r matches Ok(td) ==> match (decl.ty, int_literal_value(td.value)) {
                (Some(_), Some(n)) => match int_bounds(td.ty@) {
                    Some(b) => b.0 <= n <= b.1,
                    None => true,
                },
                _ => true,
            },
            decl.ty is None && literal_expr(decl.value) ==> (r is Ok <==> !old(self).is_module(decl.name@)),
            match decl.ty {
                Some(te) => literal_expr(decl.value) ==> (r is Ok <==> (let_literal_ok(
                    old(self).type_info,
                    old(self).current_type_name,
                    te,
                    decl.value,
                ) && !old(self).is_module(decl.name@))),
                None => true,
            },
        decreases decl, 2nat,
    {
        let mut value = match self.check_expr(&decl.value) {
            Ok(t) => t,
            Err(e) => {
                return Err(e);
            },
        };
        let ty = match &decl.ty {
            Some(type_expr) => {
                let declared = match self.resolve_type_expr(type_expr) {
                    Ok(t) => t,
                    Err(e) => {
                        return Err(e.with_span(decl.span));
                    },
                };
                let lit = Self::extract_int_literal(&value);
                let narrowing = lit.is_some() && value.ty.is_integer() && declared.is_integer();
                if !narrowing && !self.is_assignable(&value.ty, &declared) {
                    let d = declared.display_name();
                    let v = value.ty.display_name();
                    let msg = cat6("type mismatch in let '", decl.name.as_str(), "': expected ", d.as_str(), ", got ", v.as_str());
                    return Err(CompileError::new(msg, decl.span));
                }
                let ghost v0 = value;
                match lit {
                    Some(n) => {
                        match Self::check_int_literal_range(n, &declared, decl.name.as_str(), decl.span) {
                            Ok(()) => {},
                            Err(e) => {
                                return Err(e);
                            },
                        }
                        value.ty = declared.deep_clone();
                        proof {
                            if v0.kind is IntLit {
                                assert(v0.ty@ == TypeView::I64);
                                assert(is_integer_view(value.ty@) || assignable(self.type_info, TypeView::I64, value.ty@));
                                assert(node_ok(self.type_info, value));
                            }
                        }
                    },
                    None => {},
                }
                declared
            },
            None => value.ty.deep_clone(),
        };
        match self.define_var(decl.name.as_str(), ty.deep_clone(), decl.mutable) {
            Ok(()) => {},
            Err(e) => {
                return Err(e);
            },
        }
        Ok(TypedLetDecl { name: decl.name.clone(), mutable: decl.mutable, ty, value })
    }

    #[verifier::loop_isolation(false)]
    pub fn check_stmt(&mut self, stmt: &Stmt) -> (r: Result<TypedStmt, CompileError>)
        ensures
            r is Ok ==> kept(*old(self), *final(self)),
            r matches Ok(t) ==> stmt_rule(*old(self), *final(self), *stmt, t),
            r matches Ok(t) ==> stmt_well_typed(old(self).type_info, ret_of(*old(self)), old(self).in_loop, t),
            r matches Ok(t) ==> stmt_from(*stmt, t),
            stmt.kind is Break && !old(self).in_loop ==> (r matches Err(e) && e.message@ == "break outside of loop"@
                && e.span == stmt.span),
            stmt.kind is Continue && !old(self).in_loop ==> (r matches Err(e) && e.message@ == "continue outside of loop"@
                && e.span == stmt.span),
            simple_stmt(*stmt, old(self).in_loop) ==> (r matches Ok(t) && typed_simply(*stmt, t)) && *final(self) == *old(self),
            simple_stmt_in(*stmt, old(self).in_loop, old(self).type_info) ==> (r matches Ok(t) && typed_simply(*stmt, t)),
            match stmt.kind {
                StmtKind::Expr(e) => if_condition_checked(*old(self), e, expr_part(r)) && lambda_return_checked(
                    *old(self),
                    e,
                    expr_part(r),
                ),
                _ => true,
            },
        decreases stmt, 2nat,
    {
        match &stmt.kind {
            StmtKind::Let(decl) => {
                match self.check_let_decl(decl) {
                    Ok(t) => Ok(TypedStmt::Let(t)),
                    Err(e) => Err(e),
                }
            },
            StmtKind::LetTuple(names, value) => {
                let tv = match self.check_expr(value) {
                    Ok(t) => t,
                    Err(e) => {
                        return Err(e);
                    },
                };
                match &tv.ty {
                    Type::Tuple(types) => {
                        if names.len() != types.len() {
                            let a = usize_to_string(names.len());
                            let b = usize_to_string(types.len());
                            let msg = cat5("tuple destructure: expected ", a.as_str(), " elements, got ", b.as_str(), "");
                            return Err(CompileError::new(msg, stmt.span));
                        }
                        let mut bindings: Vec<(String, Type)> = Vec::new();
                        let ghost start = *old(self);
                        let mut i: usize = 0;
                        while i < names.len()
                            invariant
                                i <= names@.len(),
                                names@.len() == types@.len(),
                                kept(start, *self),
                                bindings@.len() == i,
                                forall|j: int| 0 <= j < i ==> (#[trigger] bindings@[j]).0@ == names@[j]@
                                    && bindings@[j].1@ == types@[j]@,
                            decreases names.len() - i,
                        {
                            let ty = types[i].deep_clone();
                            match self.define_var(names[i].as_str(), ty.deep_clone(), false) {
                                Ok(()) => {},
                                Err(e) => {
                                    return Err(e);
                                },
                            }
                            bindings.push((names[i].clone(), ty));
                            i = i + 1;
                        }
                        Ok(TypedStmt::LetTuple(bindings, tv))
                    },
                    _ => {
                        let t = tv.ty.display_name();
                        Err(CompileError::new(cat2("cannot destructure non-tuple type ", t.as_str()), stmt.span))
                    },
                }
            },
            StmtKind::Assign(..) => self.check_assign(stmt),
            StmtKind::Return(value) => {
                match value {
                    Some(e) => {
                        let t = match self.check_expr(e) {
                            Ok(t) => t,
                            Err(e) => {
                                return Err(e);
                            },
                        };
                        match &self.current_fn_return {
                            Some(ret_ty) => {
                                if !self.is_assignable(&t.ty, ret_ty) {
                                    let a = ret_ty.display_name();
                                    let b = t.ty.display_name();
                                    let msg = cat4("return type mismatch: expected ", a.as_str(), ", got ", b.as_str());
                                    return Err(CompileError::new(msg, stmt.span));
                                }
                            },
                            None => {},
                        }
                        Ok(TypedStmt::Return(Some(t)))
                    },
                    None => Ok(TypedStmt::Return(None)),
                }
            },
            StmtKind::ReturnError(e) => {
                let t = match self.check_expr(e) {
                    Ok(t) => t,
                    Err(e) => {
                        return Err(e);
                    },
                };
                match &self.current_fn_return {
                    Some(Type::Result(_, err_ty)) => {
                        if !self.is_assignable(&t.ty, err_ty) {
                            let a = err_ty.display_name();
                            let b = t.ty.display_name();
                            let msg = cat4("error type mismatch: expected ", a.as_str(), ", got ", b.as_str());
                            return Err(CompileError::new(msg, stmt.span));
                        }
                    },
                    _ => {},
                }
                Ok(TypedStmt::ReturnError(t))
            },
            StmtKind::Break => {
                if !self.in_loop {
                    return Err(CompileError::new(String::from_str("break outside of loop"), stmt.span));
                }
                Ok(TypedStmt::Break)
            },
            StmtKind::Continue => {
                if !self.in_loop {
                    return Err(CompileError::new(String::from_str("continue outside of loop"), stmt.span));
                }
                Ok(TypedStmt::Continue)
            },
            StmtKind::Expr(e) => {
                let t = match self.check_expr(e) {
                    Ok(t) => t,
                    Err(e) => {
                        return Err(e);
                    },
                };
                if matches!(t.ty, Type::Result(_, _)) {
                    return Err(
                        CompileError::new(
                            String::from_str("result type must be used: assign to a variable, match, or use '?'"),
                            stmt.span,
                        ),
                    );
                }
                Ok(TypedStmt::Expr(t))
            },
        }
    }

    fn check_assign(&mut self, stmt: &Stmt) -> (r: Result<TypedStmt, CompileError>)
        requires
            stmt.kind is Assign,
        ensures
            r is Ok ==> kept(*old(self), *final(self)),
            r matches Ok(t) ==> stmt_rule(*old(self), *final(self), *stmt, t),
            r matches Ok(t) ==> stmt_well_typed(old(self).type_info, ret_of(*old(self)), old(self).in_loop, t),
            r matches Ok(t) ==> stmt_from(*stmt, t),
            match stmt.kind {
                StmtKind::Assign(AssignTarget::Variable(n), v) => literal_expr(v) ==> match old(self).var_view(n@) {
                    Some(b) => (r is Ok <==> (b.1 && assignable(old(self).type_info, literal_type(v), b.0))),
                    None => r is Err,
                },
                _ => true,
            },
        decreases stmt, 1nat,
    {
        match &stmt.kind {
            StmtKind::Assign(target, value) => {
                let tv = match self.check_expr(value) {
                    Ok(t) => t,
                    Err(e) => {
                        return Err(e);
                    },
                };
                let tt = match target {
                    AssignTarget::Variable(name) => {
                        let (var_ty, mutable) = match self.lookup_var(name.as_str()) {
                            Some(b) => b,
                            None => {
                                let names = self.all_var_names();
                                let base = cat3("undefined variable '", name.as_str(), "'");
                                let msg = with_suggestion(base.as_str(), name.as_str(), &names);
                                return Err(CompileError::new(msg, stmt.span));
                            },
                        };
                        if !mutable {
                            let msg = cat3("cannot assign to immutable variable '", name.as_str(), "'");
                            return Err(CompileError::new(msg, stmt.span));
                        }
                        if !self.is_assignable(&tv.ty, &var_ty) {
                            let a = var_ty.display_name();
                            let b = tv.ty.display_name();
                            let msg = cat6("type mismatch in assignment to '", name.as_str(), "': expected ", a.as_str(), ", got ", b.as_str());
                            return Err(CompileError::new(msg, stmt.span));
                        }
                        TypedAssignTarget::Variable(name.clone(), var_ty)
                    },
                    AssignTarget::Field(obj, field) => {
                        match self.check_mutable_target(obj, "assign to field") {
                            Ok(()) => {},
                            Err(e) => {
                                return Err(e);
                            },
                        }
                        let to = match self.check_expr(obj) {
                            Ok(t) => t,
                            Err(e) => {
                                return Err(e);
                            },
                        };
                        let ft = match self.get_field_type(&to.ty, field.as_str(), stmt.span) {
                            Ok(t) => t,
                            Err(e) => {
                                return Err(e);
                            },
                        };
                        if !self.is_assignable(&tv.ty, &ft) {
                            let a = ft.display_name();
                            let b = tv.ty.display_name();
                            let msg = cat4("type mismatch in field assignment: expected ", a.as_str(), ", got ", b.as_str());
                            return Err(CompileError::new(msg, stmt.span));
                        }
                        TypedAssignTarget::Field(to, field.clone(), ft)
                    },
                    AssignTarget::Index(obj, idx) => {
                        match self.check_mutable_target(obj, "assign to index") {
                            Ok(()) => {},
                            Err(e) => {
                                return Err(e);
                            },
                        }
                        let to = match self.check_expr(obj) {
                            Ok(t) => t,
                            Err(e) => {
                                return Err(e);
                            },
                        };
                        let ti = match self.check_expr(idx) {
                            Ok(t) => t,
                            Err(e) => {
                                return Err(e);
                            },
                        };
                        let et = match self.get_index_type(&to.ty, &ti.ty, stmt.span) {
                            Ok(t) => t,
                            Err(e) => {
                                return Err(e);
                            },
                        };
                        if !self.is_assignable(&tv.ty, &et) {
                            let a = et.display_name();
                            let b = tv.ty.display_name();
                            let msg = cat4("type mismatch in index assignment: expected ", a.as_str(), ", got ", b.as_str());
                            return Err(CompileError::new(msg, stmt.span));
                        }
                        TypedAssignTarget::Index(to, ti, et)
                    },
                };
                Ok(TypedStmt::Assign(Box::new(tt), Box::new(tv)))
            },
            _ => Err(CompileError::new(String::new(), stmt.span)),
        }
    }

    /// Checks each expression of a list, stopping at the first error.
    pub fn check_expr_list(&mut self, exprs: &Vec<Expr>) -> (r: Result<Vec<TypedExpr>, CompileError>)
        ensures
            r is Ok ==> kept(*old(self), *final(self)),
            r matches Ok(v) ==> v@.len() == exprs@.len(),
            all_literal(exprs@) ==> (r matches Ok(v) && forall|i: int| 0 <= i < v@.len() ==> (#[trigger] v@[i]).ty@
                == literal_type(exprs@[i])) && *final(self) == *old(self),
            r matches Ok(v) ==> forall|i: int| 0 <= i < v@.len() ==> well_typed(old(self).type_info, ret_of(*old(self)), old(self).in_loop, #[trigger] v@[i]),
            r matches Ok(v) ==> args_from(exprs@, v@),
        decreases exprs, 2nat,
    {
        let ghost start = *self;
        let mut out: Vec<TypedExpr> = Vec::new();
        let mut i: usize = 0;
        while i < exprs.len()
            invariant
                i <= exprs@.len(),
                out@.len() == i,
                kept(start, *self),
                forall|j: int| 0 <= j < i ==> well_typed(start.type_info, ret_of(start), start.in_loop, #[trigger] out@[j]),
                forall|j: int| 0 <= j < i ==> checked_from(exprs@[j], #[trigger] out@[j]),
                all_literal(exprs@) ==> *self == start && forall|j: int| 0 <= j < i ==> (#[trigger] out@[j]).ty@
                    == literal_type(exprs@[j]),
            decreases exprs.len() - i,
        {
            proof {
                assert(decreases_to!(*exprs => exprs@[i as int]));
            }
            match self.check_expr(&exprs[i]) {
                Ok(t) => out.push(t),
                Err(e) => {
                    return Err(e);
                },
            }
            i = i + 1;
        }
        Ok(out)
    }

    #[verifier::rlimit(40)]
    pub fn check_expr(&mut self, expr: &Expr) -> (r: Result<TypedExpr, CompileError>)
        ensures
            r is Ok ==> kept(*old(self), *final(self)),
            r matches Ok(t) ==> expr_rule(old(self).type_info, old(self).current_type_name, *expr, t),
            r matches Ok(t) ==> well_typed(old(self).type_info, ret_of(*old(self)), old(self).in_loop, t),
            r matches Ok(t) ==> checked_from(*expr, t),
            r matches Ok(t) ==> match expr.kind {
                ExprKind::Ident(n) => Some(t.ty@) == ident_type(*old(self), n@),
                _ => true,
            },
            literal_expr(*expr) ==> (r matches Ok(t) && t.ty@ == literal_type(*expr) && !(t.kind is Panic) && typed_literal(t.kind)) && *final(self)
                == *old(self),
            expr.kind matches ExprKind::Ident(n) ==> (r is Ok <==> ident_type(*old(self), n@) is Some) && *final(self)
                == *old(self),
            match expr.kind {
                ExprKind::BinOp(a, op, b) => literal_expr(*a) && literal_expr(*b) ==> (r is Ok <==> binop_type(
                    op,
                    literal_type(*a),
                    literal_type(*b),
                ) is Some),
                ExprKind::UnaryOp(op, a) => literal_expr(*a) ==> (r is Ok <==> unary_ok(op, literal_type(*a))),
                ExprKind::Range(a, b) => literal_expr(*a) && literal_expr(*b) ==> (r is Ok <==> (literal_type(*a)
                    == TypeView::I64 && literal_type(*b) == TypeView::I64)),
                ExprKind::Try(a) => literal_expr(*a) ==> r is Err,
                ExprKind::ErrorLit(a) => literal_expr(*a) ==> r is Ok,
                ExprKind::TupleLit(es) => all_literal(es@) ==> r is Ok,
                ExprKind::While(c, b) => literal_expr(*c) ==> (literal_type(*c) != TypeView::Bool ==> r is Err) && (
                literal_type(*c) == TypeView::Bool && simple_block(b, true, old(self).type_info) ==> r is Ok),
                ExprKind::Loop(b) => simple_block(b, true, old(self).type_info) ==> r is Ok,
                ExprKind::Block(b) => simple_block(b, old(self).in_loop, old(self).type_info) ==> r is Ok,
                _ => true,
            },
            if_condition_checked(*old(self), *expr, r),
            lambda_return_checked(*old(self), *expr, r),
            field_access_checked(*old(self), *expr, r),
        decreases expr, 2nat,
    {
        let span = expr.span;
        match &expr.kind {
            ExprKind::IntLit(n) => Ok(TypedExpr { kind: TypedExprKind::IntLit(*n), ty: Type::I64, span }),
            ExprKind::FloatLit(f) => Ok(TypedExpr { kind: TypedExprKind::FloatLit(f.clone()), ty: Type::F64, span }),
            ExprKind::BoolLit(b) => Ok(TypedExpr { kind: TypedExprKind::BoolLit(*b), ty: Type::Bool, span }),
            ExprKind::StringLit(s) => Ok(TypedExpr { kind: TypedExprKind::StringLit(s.clone()), ty: Type::String, span }),
            ExprKind::InterpolatedString(..) => self.check_interpolated(expr),
            ExprKind::Nil => Ok(TypedExpr { kind: TypedExprKind::Nil, ty: Type::Nil, span }),
            ExprKind::Ident(name) => self.check_ident(name.as_str(), span),
            ExprKind::TypeIdent(name) => Ok(TypedExpr { kind: TypedExprKind::Ident(name.clone()), ty: Type::Nil, span }),
            ExprKind::BinOp(left, op, right) => {
                let tl = match self.check_expr(left) {
                    Ok(t) => t,
                    Err(e) => {
                        return Err(e);
                    },
                };
                let tr = match self.check_expr(right) {
                    Ok(t) => t,
                    Err(e) => {
                        return Err(e);
                    },
                };
                let ty = match self.check_binop(&tl.ty, *op, &tr.ty, span) {
                    Ok(t) => t,
                    Err(e) => {
                        return Err(e);
                    },
                };
                Ok(TypedExpr { kind: TypedExprKind::BinOp(Box::new(tl), *op, Box::new(tr)), ty, span })
            },
            ExprKind::UnaryOp(op, inner) => {
                let t = match self.check_expr(inner) {
                    Ok(t) => t,
                    Err(e) => {
                        return Err(e);
                    },
                };
                let ty = match op {
                    UnaryOp::Neg => {
                        if !t.ty.is_numeric() {
                            let d = t.ty.display_name();
                            return Err(CompileError::new(cat2("cannot negate ", d.as_str()), inner.span));
                        }
                        t.ty.deep_clone()
                    },
                    UnaryOp::Not => {
                        if !matches!(t.ty, Type::Bool) {
                            let d = t.ty.display_name();
                            return Err(CompileError::new(cat2("logical NOT requires bool, got ", d.as_str()), inner.span));
                        }
                        Type::Bool
                    },
                    UnaryOp::BitNot => {
                        if !t.ty.is_integer() {
                            let d = t.ty.display_name();
                            return Err(
                                CompileError::new(cat2("bitwise NOT requires integer, got ", d.as_str()), inner.span),
                            );
                        }
                        t.ty.deep_clone()
                    },
                };
                Ok(TypedExpr { kind: TypedExprKind::UnaryOp(*op, Box::new(t)), ty, span: inner.span })
            },
            ExprKind::FieldAccess(..) => self.check_field_access(expr),
            ExprKind::TypeAccess(obj, name) => {
                let t = match self.check_expr(obj) {
                    Ok(t) => t,
                    Err(e) => {
                        return Err(e);
                    },
                };
                Ok(TypedExpr { kind: TypedExprKind::FieldAccess(Box::new(t), name.clone()), ty: Type::Nil, span })
            },
            ExprKind::Index(obj, idx) => {
                let to = match self.check_expr(obj) {
                    Ok(t) => t,
                    Err(e) => {
                        return Err(e);
                    },
                };
                let ti = match self.check_expr(idx) {
                    Ok(t) => t,
                    Err(e) => {
                        return Err(e);
                    },
                };
                let ty = match self.get_index_type(&to.ty, &ti.ty, span) {
                    Ok(t) => t,
                    Err(e) => {
                        return Err(e);
                    },
                };
                Ok(TypedExpr { kind: TypedExprKind::Index(Box::new(to), Box::new(ti)), ty, span })
            },
            ExprKind::Call(..) => match self.check_call(expr) {
                Ok(t) => {
                    proof {
                        lemma_well_typed_respan(self.type_info, ret_of(*self), self.in_loop, t, span);
                    }
                    Ok(TypedExpr { kind: t.kind, ty: t.ty, span })
                },
                Err(e) => Err(e),
            },
            ExprKind::MethodCall(..) => match self.check_method_call(expr) {
                Ok(t) => {
                    proof {
                        lemma_well_typed_respan(self.type_info, ret_of(*self), self.in_loop, t, span);
                    }
                    Ok(TypedExpr { kind: t.kind, ty: t.ty, span })
                },
                Err(e) => Err(e),
            },
            ExprKind::StaticMethodCall(name, method, args) => {
                let targs = match self.check_expr_list(args) {
                    Ok(v) => v,
                    Err(e) => {
                        return Err(e);
                    },
                };
                let ghost ga = targs@;
                match self.check_static_method_call(name.as_str(), method.as_str(), targs, span) {
                    Ok(t) => {
                        let r = TypedExpr { kind: t.kind, ty: t.ty, span };
                        assert(well_typed(self.type_info, ret_of(*self), self.in_loop, r));
                        Ok(r)
                    },
                    Err(e) => Err(e),
                }
            },
            ExprKind::ArrayLit(..) => self.check_array_lit(expr),
            ExprKind::MapLit(..) => self.check_map_lit(expr),
            ExprKind::TupleLit(elems) => {
                let typed = match self.check_expr_list(elems) {
                    Ok(v) => v,
                    Err(e) => {
                        return Err(e);
                    },
                };
                let mut types: Vec<Type> = Vec::new();
                let mut i: usize = 0;
                while i < typed.len()
                    invariant
                        i <= typed@.len(),
                        types@.len() == i,
                        forall|j: int| 0 <= j < i ==> #[trigger] types@[j]@ == typed@[j].ty@,
                    decreases typed.len() - i,
                {
                    types.push(typed[i].ty.deep_clone());
                    i = i + 1;
                }
                let ghost tv = Seq::new(typed@.len(), |j: int| typed@[j].ty@);
                assert(views(types@) =~= tv);
                let ty = Type::Tuple(types);
                assert(list_of(ty@) =~= tv);
                let r = TypedExpr { kind: TypedExprKind::TupleLit(typed), ty, span };
                assert(well_typed(self.type_info, ret_of(*self), self.in_loop, r));
                Ok(r)
            },
            ExprKind::StructLit(..) => self.check_struct_lit(expr),
            ExprKind::EnumVariant(..) | ExprKind::QualifiedEnumVariant(..) => self.check_enum_variant(expr),
            ExprKind::ErrorLit(inner) => {
                let t = match self.check_expr(inner) {
                    Ok(t) => t,
                    Err(e) => {
                        return Err(e);
                    },
                };
                let ty = Type::Error(Box::new(t.ty.deep_clone()));
                Ok(TypedExpr { kind: TypedExprKind::ErrorLit(Box::new(t)), ty, span: inner.span })
            },
            ExprKind::If(..) => self.check_if(expr),
            ExprKind::Match(..) => self.check_match(expr),
            ExprKind::For(..) => self.check_for(expr),
            ExprKind::While(cond, body) => {
                let tc = match self.check_expr(cond) {
                    Ok(t) => t,
                    Err(e) => {
                        return Err(e);
                    },
                };
                if !matches!(tc.ty, Type::Bool) {
                    let d = tc.ty.display_name();
                    return Err(CompileError::new(cat2("while condition must be bool, got ", d.as_str()), span));
                }
                let old_in_loop = self.in_loop;
                self.in_loop = true;
                let tb = match self.check_block(body) {
                    Ok(t) => t,
                    Err(e) => {
                        return Err(e);
                    },
                };
                self.in_loop = old_in_loop;
                Ok(TypedExpr { kind: TypedExprKind::While(Box::new(tc), tb), ty: Type::Nil, span })
            },
            ExprKind::Loop(body) => {
                let old_in_loop = self.in_loop;
                self.in_loop = true;
                let tb = match self.check_block(body) {
                    Ok(t) => t,
                    Err(e) => {
                        return Err(e);
                    },
                };
                self.in_loop = old_in_loop;
                Ok(TypedExpr { kind: TypedExprKind::Loop(tb), ty: Type::Nil, span })
            },
            ExprKind::Guard(..) => self.check_guard(expr),
            ExprKind::Block(block) => {
                let tb = match self.check_block(block) {
                    Ok(t) => t,
                    Err(e) => {
                        return Err(e);
                    },
                };
                let ty = tb.ty.deep_clone();
                Ok(TypedExpr { kind: TypedExprKind::Block(tb), ty, span })
            },
            ExprKind::Lambda(..) => self.check_lambda(expr),
            ExprKind::As(inner, te) | ExprKind::AsSafe(inner, te) => {
                let safe = matches!(expr.kind, ExprKind::AsSafe(..));
                let t = match self.check_expr(inner) {
                    Ok(t) => t,
                    Err(e) => {
                        return Err(e);
                    },
                };
                let target = match self.resolve_type_expr(te) {
                    Ok(t) => t,
                    Err(e) => {
                        return Err(e.with_span(inner.span));
                    },
                };
                match self.check_conversion(&t.ty, &target, safe, inner.span) {
                    Ok(()) => {},
                    Err(e) => {
                        return Err(e);
                    },
                }
                if safe {
                    let ty = Type::Optional(Box::new(target.deep_clone()));
                    Ok(TypedExpr { kind: TypedExprKind::AsSafe(Box::new(t), target), ty, span: inner.span })
                } else {
                    let ty = target.deep_clone();
                    Ok(TypedExpr { kind: TypedExprKind::As(Box::new(t), target), ty, span: inner.span })
                }
            },
            ExprKind::Is(inner, target) => {
                let t = match self.check_expr(inner) {
                    Ok(t) => t,
                    Err(e) => {
                        return Err(e);
                    },
                };
                let tt = match target {
                    IsTarget::Type(te) => TypedIsTarget::Type(te.copy()),
                    IsTarget::EnumVariant(a, b) => TypedIsTarget::EnumVariant(a.clone(), b.clone()),
                    IsTarget::QualifiedVariant(a, b, c) => TypedIsTarget::QualifiedVariant(a.clone(), b.clone(), c.clone()),
                    IsTarget::Expr(rhs) => {
                        let tr = match self.check_expr(rhs) {
                            Ok(t) => t,
                            Err(e) => {
                                return Err(e);
                            },
                        };
                        TypedIsTarget::Expr(Box::new(tr))
                    },
                };
                Ok(TypedExpr { kind: TypedExprKind::Is(Box::new(t), tt), ty: Type::Bool, span: inner.span })
            },
            ExprKind::Try(inner) => {
                let t = match self.check_expr(inner) {
                    Ok(t) => t,
                    Err(e) => {
                        return Err(e);
                    },
                };
                let ok_ty = match &t.ty {
                    Type::Result(ok, _) => ok.deep_clone(),
                    _ => {
                        let d = t.ty.display_name();
                        return Err(CompileError::new(cat2("? operator requires result type, got ", d.as_str()), inner.span));
                    },
                };
                Ok(TypedExpr { kind: TypedExprKind::Try(Box::new(t)), ty: ok_ty, span: inner.span })
            },
            ExprKind::Range(start, end) => {
                let ts = match self.check_expr(start) {
                    Ok(t) => t,
                    Err(e) => {
                        return Err(e);
                    },
                };
                let te = match self.check_expr(end) {
                    Ok(t) => t,
                    Err(e) => {
                        return Err(e);
                    },
                };
                if !ts.ty.is_integer() {
                    let d = ts.ty.display_name();
                    return Err(CompileError::new(cat2("range start must be integer, got ", d.as_str()), span));
                }
                if !te.ty.is_integer() {
                    let d = te.ty.display_name();
                    return Err(CompileError::new(cat2("range end must be integer, got ", d.as_str()), span));
                }
                Ok(TypedExpr { kind: TypedExprKind::Range(Box::new(ts), Box::new(te)), ty: Type::Range, span })
            },
        }
    }

    /// A name used as a value: `panic`, a variable, a function, or a module.
    fn check_ident(&self, name: &str, span: Span) -> (r: Result<TypedExpr, CompileError>)
        ensures
            r is Ok <==> ident_type(*self, name@) is Some,
            r matches Ok(t) ==> Some(t.ty@) == ident_type(*self, name@),
            r matches Ok(t) ==> t.kind matches TypedExprKind::Ident(m) && m@ == name@,
    {
        if str_eq(name, "panic") {
            let mut ps: Vec<Type> = Vec::new();
            ps.push(Type::String);
            proof {
                assert(ps@.len() == 1 && ps@[0] == Type::String);
                assert(views(ps@) =~= seq![TypeView::String]);
            }
            return Ok(
                TypedExpr {
                    kind: TypedExprKind::Ident(String::from_str("panic")),
                    ty: Type::function_of(ps, Type::Nil),
                    span,
                },
            );
        }
        match self.lookup_var(name) {
            Some((ty, _)) => {
                return Ok(TypedExpr { kind: TypedExprKind::Ident(name.to_string()), ty, span });
            },
            None => {},
        }
        match self.type_info.functions.get(name) {
            Some(info) => {
                let ps = info.param_types();
                let ghost pv = views(ps@);
                let ty = Type::function_of(ps, info.return_type.deep_clone());
                proof {
                    let ghost want = Seq::new(info.params@.len(), |i: int| info.params@[i].1@);
                    assert(pv =~= want);
                }
                return Ok(TypedExpr { kind: TypedExprKind::Ident(name.to_string()), ty, span });
            },
            None => {},
        }
        if self.type_info.modules.contains_key(name) {
            return Ok(TypedExpr { kind: TypedExprKind::Ident(name.to_string()), ty: Type::Nil, span });
        }
        let names = self.all_var_names();
        let base = cat3("undefined variable '", name, "'");
        let msg = with_suggestion(base.as_str(), name, &names);
        Err(CompileError::new(msg, span))
    }

    #[verifier::loop_isolation(false)]
    fn check_interpolated(&mut self, expr: &Expr) -> (r: Result<TypedExpr, CompileError>)
        requires
            expr.kind is InterpolatedString,
        ensures
            r is Ok ==> kept(*old(self), *final(self)),
            r matches Ok(t) ==> expr_rule(old(self).type_info, old(self).current_type_name, *expr, t),
            r matches Ok(t) ==> well_typed(old(self).type_info, ret_of(*old(self)), old(self).in_loop, t),
            r matches Ok(t) ==> checked_from(*expr, t),
            match expr.kind {
                ExprKind::InterpolatedString(parts) => (forall|i: int| 0 <= i < parts@.len() ==> match #[trigger] parts@[i] {
                    StringPart::Literal(_) => true,
                    StringPart::Expr(e) => literal_expr(*e),
                }) ==> r is Ok,
                _ => true,
            },
        decreases expr, 1nat,
    {
        match &expr.kind {
            ExprKind::InterpolatedString(parts) => {
                let ghost start = *self;
                let mut typed_parts: Vec<TypedStringPart> = Vec::new();
                let mut i: usize = 0;
                while i < parts.len()
                    invariant
                        i <= parts@.len(),
                        expr.kind == ExprKind::InterpolatedString(*parts),
                        kept(start, *self),
                        forall|j: int| 0 <= j < typed_parts@.len() ==> match #[trigger] typed_parts@[j] {
                            TypedStringPart::Expr(e) => well_typed(start.type_info, ret_of(start), start.in_loop, e),
                            TypedStringPart::Literal(_) => true,
                        },
                        typed_parts@.len() == i,
                        forall|j: int| 0 <= j < i ==> match (#[trigger] parts@[j], typed_parts@[j]) {
                            (StringPart::Literal(a), TypedStringPart::Literal(b)) => a@ == b@,
                            (StringPart::Expr(x), TypedStringPart::Expr(y)) => checked_from(*x, y),
                            _ => false,
                        },
                    decreases parts.len() - i,
                {
                    proof {
                        assert(decreases_to!(*parts => parts@[i as int]));
                    }
                    match &parts[i] {
                        StringPart::Literal(s) => typed_parts.push(TypedStringPart::Literal(s.clone())),
                        StringPart::Expr(e) => {
                            proof {
                                assert(decreases_to!(parts@[i as int] => **e));
                            }
                            let t = match self.check_expr(e) {
                                Ok(t) => t,
                                Err(err) => {
                                    return Err(err);
                                },
                            };
                            typed_parts.push(TypedStringPart::Expr(t));
                        },
                    }
                    i = i + 1;
                }
                Ok(TypedExpr { kind: TypedExprKind::InterpolatedString(typed_parts), ty: Type::String, span: expr.span })
            },
            _ => Err(CompileError::new(String::new(), expr.span)),
        }
    }

    fn check_field_access(&mut self, expr: &Expr) -> (r: Result<TypedExpr, CompileError>)
        requires
            expr.kind is FieldAccess,
        ensures
            r is Ok ==> kept(*old(self), *final(self)),
            r matches Ok(t) ==> expr_rule(old(self).type_info, old(self).current_type_name, *expr, t),
            r matches Ok(t) ==> well_typed(old(self).type_info, ret_of(*old(self)), old(self).in_loop, t),
            r matches Ok(t) ==> checked_from(*expr, t),
            field_access_checked(*old(self), *expr, r),
        decreases expr, 1nat,
    {
        match &expr.kind {
            ExprKind::FieldAccess(obj, field) => {
                let t = match self.check_expr(obj) {
                    Ok(t) => t,
                    Err(e) => {
                        return Err(e);
                    },
                };
                if str_eq(field.as_str(), "length") && matches!(t.ty, Type::String | Type::Array(_) | Type::MapOf(_, _) | Type::Tuple(_)) {
                    return Ok(
                        TypedExpr {
                            kind: TypedExprKind::FieldAccess(Box::new(t), String::from_str("length")),
                            ty: Type::I64,
                            span: expr.span,
                        },
                    );
                }
                let elem: Option<Type> = match &t.ty {
                    Type::Tuple(types) => match parse_index(field.as_str()) {
                        Some(idx) => {
                            if idx < types.len() {
                                Some(types[idx].deep_clone())
                            } else {
                                let a = usize_to_string(idx);
                                let b = usize_to_string(types.len());
                                let msg = cat5("tuple index ", a.as_str(), " out of bounds (length ", b.as_str(), ")");
                                return Err(CompileError::new(msg, expr.span));
                            }
                        },
                        None => None,
                    },
                    _ => None,
                };
                match elem {
                    Some(ty) => Ok(TypedExpr { kind: TypedExprKind::FieldAccess(Box::new(t), field.clone()), ty, span: expr.span }),
                    None => {
                        let ty = match self.get_field_type(&t.ty, field.as_str(), expr.span) {
                            Ok(ty) => ty,
                            Err(e) => {
                                return Err(e);
                            },
                        };
                        Ok(TypedExpr { kind: TypedExprKind::FieldAccess(Box::new(t), field.clone()), ty, span: expr.span })
                    },
                }
            },
            _ => Err(CompileError::new(String::new(), expr.span)),
        }
    }

    #[verifier::loop_isolation(false)]
    fn check_call(&mut self, expr: &Expr) -> (r: Result<TypedExpr, CompileError>)
        requires
            expr.kind is Call,
        ensures
            r is Ok ==> kept(*old(self), *final(self)),
            r matches Ok(t) ==> expr_rule(old(self).type_info, old(self).current_type_name, *expr, t),
            r matches Ok(t) ==> well_typed(old(self).type_info, ret_of(*old(self)), old(self).in_loop, t),
            r matches Ok(t) ==> checked_from(*expr, t),
            match expr.kind {
                ExprKind::Call(f, args) => all_literal(args@) ==> match f.kind {
                    ExprKind::Ident(n) => if n@ == "panic"@ {
                        r is Ok
                    } else {
                        match ident_type(*old(self), n@) {
                            Some(TypeView::Function(ps, _)) => (r is Ok <==> (ps.len() == args@.len() && forall|i: int|
                                0 <= i < ps.len() ==> #[trigger] assignable(old(self).type_info, literal_type(args@[i]), ps[i]))),
                            _ => r is Err,
                        }
                    },
                    _ => literal_expr(*f) ==> r is Err,
                },
                _ => true,
            },
        decreases expr, 1nat,
    {
        match &expr.kind {
            ExprKind::Call(func, args) => {
                let is_panic = match &func.kind {
                    ExprKind::Ident(name) => str_eq(name.as_str(), "panic"),
                    _ => false,
                };
                if is_panic {
                    let targs = match self.check_expr_list(args) {
                        Ok(v) => v,
                        Err(e) => {
                            return Err(e);
                        },
                    };
                    return Ok(TypedExpr { kind: TypedExprKind::Panic(targs), ty: Type::Nil, span: Span::unset() });
                }
                let tf = match self.check_expr(func) {
                    Ok(t) => t,
                    Err(e) => {
                        return Err(e);
                    },
                };
                let targs = match self.check_expr_list(args) {
                    Ok(v) => v,
                    Err(e) => {
                        return Err(e);
                    },
                };
                let ret = match &tf.ty {
                    Type::Function(params, ret) => {
                        proof {
                            assert(list_of(tf.ty@) =~= views(params@));
                        }
                        if params.len() != targs.len() {
                            let a = usize_to_string(params.len());
                            let b = usize_to_string(targs.len());
                            let msg = cat4("function expects ", a.as_str(), " arguments, got ", b.as_str());
                            return Err(CompileError::new(msg, func.span));
                        }
                        let mut i: usize = 0;
                        while i < params.len()
                            invariant
                                i <= params@.len(),
                                params@.len() == targs@.len(),
                                targs@.len() == args@.len(),
                                all_literal(args@) ==> self.type_info == old(self).type_info && forall|j: int| 0 <= j < targs@.len()
                                    ==> (#[trigger] targs@[j]).ty@ == literal_type(args@[j]),
                                forall|j: int| 0 <= j < i ==> #[trigger] assignable(self.type_info, targs@[j].ty@, params@[j]@),
                            decreases params.len() - i,
                        {
                            if !self.is_assignable(&targs[i].ty, &params[i]) {
                                let n = usize_to_string(i + 1);
                                let p = params[i].display_name();
                                let a = targs[i].ty.display_name();
                                let msg = cat6("argument ", n.as_str(), " type mismatch: expected ", p.as_str(), ", got ", a.as_str());
                                proof {
                                    if all_literal(args@) {
                                        assert(targs@[i as int].ty@ == literal_type(args@[i as int]));
                                        assert(views(params@)[i as int] == params@[i as int]@);
                                        assert(!assignable(old(self).type_info, literal_type(args@[i as int]), views(params@)[i as int]));
                                    }
                                }
                                return Err(CompileError::new(msg, func.span));
                            }
                            i = i + 1;
                        }
                        proof {
                            if all_literal(args@) {
                                assert forall|k: int| 0 <= k < views(params@).len() implies #[trigger] assignable(
                                    old(self).type_info,
                                    literal_type(args@[k]),
                                    views(params@)[k],
                                ) by {
                                    assert(targs@[k].ty@ == literal_type(args@[k]));
                                    assert(views(params@)[k] == params@[k]@);
                                    assert(assignable(self.type_info, targs@[k].ty@, params@[k]@));
                                }
                            }
                        }
                        ret.deep_clone()
                    },
                    _ => {
                        let d = tf.ty.display_name();
                        return Err(CompileError::new(cat2("cannot call value of type ", d.as_str()), func.span));
                    },
                };
                Ok(TypedExpr { kind: TypedExprKind::Call(Box::new(tf), targs), ty: ret, span: Span::unset() })
            },
            _ => Err(CompileError::new(String::new(), expr.span)),
        }
    }

    fn check_method_call(&mut self, expr: &Expr) -> (r: Result<TypedExpr, CompileError>)
        requires
            expr.kind is MethodCall,
        ensures
            match expr.kind {
                ExprKind::MethodCall(obj, m, _) => match obj.kind {
                    ExprKind::Ident(n) => match old(self).var_view(n@) {
                        Some(b) => (mutating_method(m@) && !old(self).is_module(n@) && !b.1) ==> r is Err,
                        None => true,
                    },
                    _ => true,
                },
                _ => true,
            },
            r is Ok ==> kept(*old(self), *final(self)),
            r matches Ok(t) ==> expr_rule(old(self).type_info, old(self).current_type_name, *expr, t),
            r matches Ok(t) ==> well_typed(old(self).type_info, ret_of(*old(self)), old(self).in_loop, t),
            r matches Ok(t) ==> checked_from(*expr, t),
            match expr.kind {
                ExprKind::MethodCall(o, m, args) => literal_expr(*o) && all_literal(args@) ==> (r is Ok <==> method_call_type(
                    old(self).type_info,
                    literal_type(*o),
                    m@,
                    literal_types(args@),
                ) is Some),
                _ => true,
            },
        decreases expr, 1nat,
    {
        match &expr.kind {
            ExprKind::MethodCall(obj, method, args) => {
                let static_target: Option<String> = match &obj.kind {
                    ExprKind::TypeIdent(tname) => Some(tname.clone()),
                    ExprKind::Ident(name) => if self.type_info.modules.contains_key(name.as_str()) {
                        Some(name.clone())
                    } else {
                        None
                    },
                    _ => None,
                };
                match static_target {
                    Some(name) => {
                        let targs = match self.check_expr_list(args) {
                            Ok(v) => v,
                            Err(e) => {
                                return Err(e);
                            },
                        };
                        return self.check_static_method_call(name.as_str(), method.as_str(), targs, obj.span);
                    },
                    None => {},
                }
                if is_mutating_method(method.as_str()) {
                    let action = cat3("call mutating method '", method.as_str(), "'");
                    match self.check_mutable_target(obj, action.as_str()) {
                        Ok(()) => {},
                        Err(e) => {
                            return Err(e);
                        },
                    }
                }
                let to = match self.check_expr(obj) {
                    Ok(t) => t,
                    Err(e) => {
                        return Err(e);
                    },
                };
                let targs = match self.check_expr_list(args) {
                    Ok(v) => v,
                    Err(e) => {
                        return Err(e);
                    },
                };
                let ty = match self.check_builtin_method(&to.ty, method.as_str(), &targs, obj.span) {
                    Ok(t) => t,
                    Err(e) => {
                        return Err(e);
                    },
                };
                Ok(TypedExpr { kind: TypedExprKind::MethodCall(Box::new(to), method.clone(), targs), ty, span: Span::unset() })
            },
            _ => Err(CompileError::new(String::new(), expr.span)),
        }
    }

    /// `Type.method(args)` or `module.function(args)`, with the arguments already checked.
    #[verifier::loop_isolation(false)]
    pub fn check_static_method_call(&self, name: &str, method: &str, targs: Vec<TypedExpr>, span: Span) -> (r: Result<
        TypedExpr,
        CompileError,
    >)
        ensures
            r is Ok <==> static_call_type(self.type_info, name@, method@, targs@.len()) is Some,
            r matches Ok(t) ==> Some(t.ty@) == static_call_type(self.type_info, name@, method@, targs@.len()),
            r matches Ok(t) ==> match t.kind {
                TypedExprKind::StaticMethodCall(n, m, a) => n@ == name@ && m@ == method@ && a@ == targs@,
                TypedExprKind::EnumVariant(n, m, a) => n@ == name@ && m@ == method@ && a@ == targs@,
                _ => false,
            },
    {
        let nargs = targs.len();
        match self.type_info.modules.get(name) {
            Some(mi) => {
                match mi.functions.get(method) {
                    Some(fi) => {
                        if fi.params.len() != nargs {
                            let a = usize_to_string(fi.params.len());
                            let b = usize_to_string(nargs);
                            let msg = cat6("function '", name, ".", method, "' expects ", a.as_str());
                            let msg = cat4(msg.as_str(), " arguments, got ", b.as_str(), "");
                            return Err(CompileError::new(msg, span));
                        }
                        let ty = fi.return_type.deep_clone();
                        return Ok(
                            TypedExpr {
                                kind: TypedExprKind::StaticMethodCall(name.to_string(), method.to_string(), targs),
                                ty,
                                span: Span::unset(),
                            },
                        );
                    },
                    None => {},
                }
                if mi.enums.contains_key(method) {
                    return Err(CompileError::new(cat3("'", method, "' is a type, not a function"), span));
                }
            },
            None => {},
        }
        match self.type_info.structs.get(name) {
            Some(si) => match si.methods.get(method) {
                Some(mi) => {
                    if !mi.is_method {
                        if mi.params.len() != nargs {
                            let a = usize_to_string(mi.params.len());
                            let b = usize_to_string(nargs);
                            let msg = cat6("static method '", name, ".", method, "' expects ", a.as_str());
                            let msg = cat4(msg.as_str(), " arguments, got ", b.as_str(), "");
                            return Err(CompileError::new(msg, span));
                        }
                        let ty = mi.return_type.deep_clone();
                        return Ok(
                            TypedExpr {
                                kind: TypedExprKind::StaticMethodCall(name.to_string(), method.to_string(), targs),
                                ty,
                                span: Span::unset(),
                            },
                        );
                    }
                },
                None => {},
            },
            None => {},
        }
        match self.type_info.enums.get(name) {
            Some(ei) => {
                let mut k: usize = 0;
                while k < ei.variants.len()
                    invariant
                        k <= ei.variants@.len(),
                        variant_position(ei.variants@.take(k as int), method@) is None,
                    decreases ei.variants.len() - k,
                {
                    proof {
                        assert(ei.variants@.take(k as int + 1).drop_last() =~= ei.variants@.take(k as int));
                    }
                    if str_eq(ei.variants[k].name.as_str(), method) {
                        proof {
                            assert(ei.variants@.take(k as int + 1).last() == ei.variants@[k as int]);
                            assert(variant_position(ei.variants@.take(k as int + 1), method@) == Some(k as int));
                            lemma_variant_position_prefix(ei.variants@, method@, k as int + 1);
                        }
                        let nf = ei.variants[k].fields.len();
                        if nf != nargs {
                            let a = usize_to_string(nf);
                            let b = usize_to_string(nargs);
                            let msg = cat6("enum variant '", name, ".", method, "' expects ", a.as_str());
                            let msg = cat4(msg.as_str(), " arguments, got ", b.as_str(), "");
                            return Err(CompileError::new(msg, span));
                        }
                        return Ok(
                            TypedExpr {
                                kind: TypedExprKind::EnumVariant(name.to_string(), method.to_string(), targs),
                                ty: Type::Enum(name.to_string()),
                                span: Span::unset(),
                            },
                        );
                    }
                    k = k + 1;
                }
                proof {
                    assert(ei.variants@.take(k as int) =~= ei.variants@);
                }
            },
            None => {},
        }
        Err(CompileError::new(cat5("unknown function or method '", name, ".", method, "'"), span))
    }

    /// The result type of a method call on a value of type `obj_ty`.
    #[verifier::loop_isolation(false)]
    pub fn check_builtin_method(&self, obj_ty: &Type, method: &str, args: &Vec<TypedExpr>, span: Span) -> (r: Result<
        Type,
        CompileError,
    >)
        ensures
            r is Ok <==> method_call_type(self.type_info, obj_ty@, method@, super::methods::arg_types(args@)) is Some,
            r matches Ok(t) ==> Some(t@) == method_call_type(
                self.type_info,
                obj_ty@,
                method@,
                super::methods::arg_types(args@),
            ),
    {
        match obj_ty {
            Type::String => self.check_string_method(method, args.len(), span),
            Type::Array(elem) => self.check_array_method(elem, method, args, span),
            Type::MapOf(k, v) => self.check_map_method(k, v, method, args.len(), span),
            Type::Struct(name) => {
                let mut method_names: Vec<String> = Vec::new();
                match self.type_info.structs.get(name.as_str()) {
                    Some(info) => {
                        match info.methods.get(method) {
                            Some(mi) => {
                                let np = mi.params.len();
                                let expected = if mi.is_method && np > 0 { np - 1 } else { np };
                                if expected != args.len() {
                                    let a = usize_to_string(expected);
                                    let b = usize_to_string(args.len());
                                    let msg = cat6("method '", method, "' expects ", a.as_str(), " arguments, got ", b.as_str());
                                    return Err(CompileError::new(msg, span));
                                }
                                return Ok(mi.return_type.deep_clone());
                            },
                            None => {},
                        }
                        if str_eq(method, "clone") && args.len() == 0 {
                            return Ok(Type::Struct(name.clone()));
                        }
                        push_table_names(&mut method_names, &info.methods.entries);
                    },
                    None => {},
                }
                let short = last_segment(name.as_str());
                let ghost mods = self.type_info.modules.entries@;
                assert(mods.skip(0) =~= mods);
                let mut m: usize = 0;
                while m < self.type_info.modules.entries.len()
                    invariant
                        m <= self.type_info.modules.entries@.len(),
                        mods == self.type_info.modules.entries@,
                        module_struct_method(mods, short@, method@, args@.len(), obj_ty@) == module_struct_method(
                            mods.skip(m as int),
                            short@,
                            method@,
                            args@.len(),
                            obj_ty@,
                        ),
                    decreases self.type_info.modules.entries.len() - m,
                {
                    proof {
                        assert(mods.skip(m as int).drop_first() =~= mods.skip(m as int + 1));
                        assert(mods.skip(m as int)[0] == mods[m as int]);
                    }
                    let mod_info = &self.type_info.modules.entries[m].1;
                    match mod_info.structs.get(short.as_str()) {
                        Some(info) => {
                            match info.methods.get(method) {
                                Some(mi) => {
                                    return Ok(mi.return_type.deep_clone());
                                },
                                None => {},
                            }
                            if str_eq(method, "clone") && args.len() == 0 {
                                return Ok(obj_ty.deep_clone());
                            }
                            push_table_names(&mut method_names, &info.methods.entries);
                        },
                        None => {},
                    }
                    m = m + 1;
                }
                let d = obj_ty.display_name();
                let base = cat4("unknown method '", method, "' on ", d.as_str());
                let msg = with_suggestion(base.as_str(), method, &method_names);
                Err(CompileError::new(msg, span))
            },
            Type::Enum(name) => {
                let mut method_names: Vec<String> = Vec::new();
                match self.type_info.enums.get(name.as_str()) {
                    Some(info) => {
                        match info.methods.get(method) {
                            Some(mi) => {
                                return Ok(mi.return_type.deep_clone());
                            },
                            None => {},
                        }
                        push_table_names(&mut method_names, &info.methods.entries);
                    },
                    None => {},
                }
                let d = obj_ty.display_name();
                let base = cat4("unknown method '", method, "' on ", d.as_str());
                let msg = with_suggestion(base.as_str(), method, &method_names);
                Err(CompileError::new(msg, span))
            },
            Type::Capability(cap) => self.check_capability_method(cap.as_str(), method, args.len(), span),
            _ => {
                let d = obj_ty.display_name();
                Err(CompileError::new(cat4("unknown method '", method, "' on ", d.as_str()), span))
            },
        }
    }

    #[verifier::loop_isolation(false)]
    fn check_array_lit(&mut self, expr: &Expr) -> (r: Result<TypedExpr, CompileError>)
        requires
            expr.kind is ArrayLit,
        ensures
            r is Ok ==> kept(*old(self), *final(self)),
            r matches Ok(t) ==> expr_rule(old(self).type_info, old(self).current_type_name, *expr, t),
            r matches Ok(t) ==> well_typed(old(self).type_info, ret_of(*old(self)), old(self).in_loop, t),
            r matches Ok(t) ==> checked_from(*expr, t),
            match expr.kind {
                ExprKind::ArrayLit(es) => all_literal(es@) ==> (r is Ok <==> forall|i: int| 1 <= i < es@.len() ==> #[trigger] assignable(
                    old(self).type_info,
                    literal_type(es@[i]),
                    literal_type(es@[0]),
                )),
                _ => true,
            },
        decreases expr, 1nat,
    {
        match &expr.kind {
            ExprKind::ArrayLit(elems) => {
                if elems.len() == 0 {
                    let empty: Vec<TypedExpr> = Vec::new();
                    assert(args_from(elems@, empty@));
                    return Ok(TypedExpr { kind: TypedExprKind::ArrayLit(empty), ty: Type::array_of(Type::Nil), span: expr.span });
                }
                let typed = match self.check_expr_list(elems) {
                    Ok(v) => v,
                    Err(e) => {
                        return Err(e);
                    },
                };
                let elem_ty = typed[0].ty.deep_clone();
                let mut i: usize = 1;
                while i < typed.len()
                    invariant
                        1 <= i <= typed@.len(),
                        elem_ty@ == typed@[0].ty@,
                        typed@.len() == elems@.len(),
                        all_literal(elems@) ==> *self == *old(self) && forall|j: int| 0 <= j < typed@.len() ==> (#[trigger] typed@[j]).ty@
                            == literal_type(elems@[j]),
                        forall|j: int| 1 <= j < i ==> #[trigger] assignable(self.type_info, typed@[j].ty@, typed@[0].ty@),
                    decreases typed.len() - i,
                {
                    if !self.is_assignable(&typed[i].ty, &elem_ty) {
                        let a = elem_ty.display_name();
                        let b = typed[i].ty.display_name();
                        let msg = cat4("array element type mismatch: expected ", a.as_str(), ", got ", b.as_str());
                        proof {
                            if all_literal(elems@) {
                                assert(typed@[i as int].ty@ == literal_type(elems@[i as int]));
                                assert(typed@[0].ty@ == literal_type(elems@[0]));
                                assert(!assignable(old(self).type_info, literal_type(elems@[i as int]), literal_type(elems@[0])));
                            }
                        }
                        return Err(CompileError::new(msg, expr.span));
                    }
                    i = i + 1;
                }
                proof {
                    if all_literal(elems@) {
                        assert forall|k: int| 1 <= k < elems@.len() implies #[trigger] assignable(
                            old(self).type_info,
                            literal_type(elems@[k]),
                            literal_type(elems@[0]),
                        ) by {
                            assert(typed@[k].ty@ == literal_type(elems@[k]));
                            assert(typed@[0].ty@ == literal_type(elems@[0]));
                            assert(assignable(self.type_info, typed@[k].ty@, typed@[0].ty@));
                        }
                    }
                }
                assert(args_from(elems@, typed@));
                Ok(TypedExpr { kind: TypedExprKind::ArrayLit(typed), ty: Type::array_of(elem_ty), span: expr.span })
            },
            _ => Err(CompileError::new(String::new(), expr.span)),
        }
    }

    #[verifier::loop_isolation(false)]
    #[verifier::rlimit(60)]
    fn check_map_lit(&mut self, expr: &Expr) -> (r: Result<TypedExpr, CompileError>)
        requires
            expr.kind is MapLit,
        ensures
            r is Ok ==> kept(*old(self), *final(self)),
            r matches Ok(t) ==> expr_rule(old(self).type_info, old(self).current_type_name, *expr, t),
            r matches Ok(t) ==> well_typed(old(self).type_info, ret_of(*old(self)), old(self).in_loop, t),
            r matches Ok(t) ==> checked_from(*expr, t),
            match expr.kind {
                ExprKind::MapLit(es) => literal_pairs(es@) ==> (r is Ok <==> pairs_fit(old(self).type_info, es@)),
                _ => true,
            },
        decreases expr, 1nat,
    {
        match &expr.kind {
            ExprKind::MapLit(entries) => {
                if entries.len() == 0 {
                    return Ok(
                        TypedExpr {
                            kind: TypedExprKind::MapLit(Vec::new()),
                            ty: Type::map_of(Type::Nil, Type::Nil),
                            span: expr.span,
                        },
                    );
                }
                let ghost start = *self;
                let mut typed: Vec<(TypedExpr, TypedExpr)> = Vec::new();
                let mut key_ty = Type::Nil;
                let mut val_ty = Type::Nil;
                let mut i: usize = 0;
                while i < entries.len()
                    invariant
                        i <= entries@.len(),
                        kept(start, *self),
                        typed@.len() == i,
                        i > 0 ==> key_ty@ == typed@[0].0.ty@ && val_ty@ == typed@[0].1.ty@,
                        forall|j: int| 1 <= j < i ==> #[trigger] assignable(self.type_info, typed@[j].0.ty@, typed@[0].0.ty@),
                        forall|j: int| 1 <= j < i ==> #[trigger] assignable(self.type_info, typed@[j].1.ty@, typed@[0].1.ty@),
                        forall|j: int| 0 <= j < i ==> well_typed(start.type_info, ret_of(start), start.in_loop, (#[trigger] typed@[j]).0)
                            && well_typed(start.type_info, ret_of(start), start.in_loop, typed@[j].1),
                        forall|j: int| 0 <= j < i ==> checked_from(entries@[j].0, (#[trigger] typed@[j]).0) && checked_from(entries@[j].1, typed@[j].1),
                        literal_pairs(entries@) ==> *self == start && forall|j: int| 0 <= j < i ==> (#[trigger] typed@[j]).0.ty@
                            == literal_type(entries@[j].0) && typed@[j].1.ty@ == literal_type(entries@[j].1),
                        literal_pairs(entries@) ==> forall|j: int| 1 <= j < i ==> #[trigger] pair_fits(start.type_info, entries@, j),
                    decreases entries.len() - i,
                {
                    proof {
                        assert(decreases_to!(*entries => entries@[i as int]));
                        if literal_pairs(entries@) {
                            assert(literal_expr(entries@[i as int].0) && literal_expr(entries@[i as int].1));
                        }
                    }
                    let tk = match self.check_expr(&entries[i].0) {
                        Ok(t) => t,
                        Err(e) => {
                            return Err(e);
                        },
                    };
                    let tv = match self.check_expr(&entries[i].1) {
                        Ok(t) => t,
                        Err(e) => {
                            return Err(e);
                        },
                    };
                    if i == 0 {
                        key_ty = tk.ty.deep_clone();
                        val_ty = tv.ty.deep_clone();
                    } else {
                        proof {
                            if literal_pairs(entries@) {
                                assert(literal_expr(entries@[i as int].0) && literal_expr(entries@[i as int].1));
                            }
                        }
                        if !self.is_assignable(&tk.ty, &key_ty) {
                            let a = key_ty.display_name();
                            let b = tk.ty.display_name();
                            let msg = cat4("map key type mismatch: expected ", a.as_str(), ", got ", b.as_str());
                            proof {
                                if literal_pairs(entries@) {
                                    assert(!pair_fits(start.type_info, entries@, i as int));
                                }
                            }
                            return Err(CompileError::new(msg, expr.span));
                        }
                        if !self.is_assignable(&tv.ty, &val_ty) {
                            let a = val_ty.display_name();
                            let b = tv.ty.display_name();
                            let msg = cat4("map value type mismatch: expected ", a.as_str(), ", got ", b.as_str());
                            proof {
                                if literal_pairs(entries@) {
                                    assert(!pair_fits(start.type_info, entries@, i as int));
                                }
                            }
                            return Err(CompileError::new(msg, expr.span));
                        }
                        proof {
                            if literal_pairs(entries@) {
                                assert(pair_fits(start.type_info, entries@, i as int));
                            }
                        }
                    }
                    let ghost before = typed@;
                    let ghost tkv = tk.ty@;
                    let ghost tvv = tv.ty@;
                    typed.push((tk, tv));
                    proof {
                        assert(typed@[i as int].0.ty@ == tkv && typed@[i as int].1.ty@ == tvv);
                        if i > 0 {
                            assert(typed@[0] == before[0]);
                            assert(assignable(self.type_info, tkv, typed@[0].0.ty@));
                            assert(assignable(self.type_info, tvv, typed@[0].1.ty@));
                        }
                        assert forall|j: int| 0 <= j < i + 1 implies well_typed(start.type_info, ret_of(start), start.in_loop, (#[trigger] typed@[j]).0)
                            && well_typed(start.type_info, ret_of(start), start.in_loop, typed@[j].1) by {
                            if j < i {
                                assert(typed@[j] == before[j]);
                            }
                        }
                        assert forall|j: int| 0 <= j < i + 1 implies checked_from(entries@[j].0, (#[trigger] typed@[j]).0) && checked_from(entries@[j].1, typed@[j].1) by {
                            if j < i {
                                assert(typed@[j] == before[j]);
                            }
                        }
                        assert forall|j: int| 1 <= j < i + 1 implies #[trigger] assignable(
                            self.type_info,
                            typed@[j].0.ty@,
                            typed@[0].0.ty@,
                        ) by {
                            if j < i {
                                assert(typed@[j] == before[j]);
                            }
                        }
                        assert forall|j: int| 1 <= j < i + 1 implies #[trigger] assignable(
                            self.type_info,
                            typed@[j].1.ty@,
                            typed@[0].1.ty@,
                        ) by {
                            if j < i {
                                assert(typed@[j] == before[j]);
                            }
                        }
                        if literal_pairs(entries@) {
                            assert forall|j: int| 0 <= j < i + 1 implies (#[trigger] typed@[j]).0.ty@ == literal_type(entries@[j].0)
                                && typed@[j].1.ty@ == literal_type(entries@[j].1) by {
                                if j < i {
                                    assert(typed@[j] == before[j]);
                                }
                            }
                        }
                    }
                    i = i + 1;
                }
                assert(literal_pairs(entries@) ==> pairs_fit(old(self).type_info, entries@));
                Ok(
                    TypedExpr {
                        kind: TypedExprKind::MapLit(typed),
                        ty: Type::map_of(key_ty, val_ty),
                        span: expr.span,
                    },
                )
            },
            _ => Err(CompileError::new(String::new(), expr.span)),
        }
    }

    #[verifier::loop_isolation(false)]
    #[verifier::rlimit(60)]
    fn check_struct_lit(&mut self, expr: &Expr) -> (r: Result<TypedExpr, CompileError>)
        requires
            expr.kind is StructLit,
        ensures
            r is Ok ==> kept(*old(self), *final(self)),
            r matches Ok(t) ==> expr_rule(old(self).type_info, old(self).current_type_name, *expr, t),
            r matches Ok(t) ==> well_typed(old(self).type_info, ret_of(*old(self)), old(self).in_loop, t),
            r matches Ok(t) ==> checked_from(*expr, t),
            match expr.kind {
                ExprKind::StructLit(n, module, fs, spread) => match lit_fields(old(self).type_info, n@, module) {
                    None => r is Err,
                    Some(decl) => (decl.len() == 0 && fs@.len() == 0 && spread is None ==> r is Ok) && (spread is None
                        && literal_fields(fs@) ==> (r is Ok <==> struct_lit_fits(old(self).type_info, decl, fs@))),
                },
                _ => true,
            },
        decreases expr, 1nat,
    {
        match &expr.kind {
            ExprKind::StructLit(tname, module, fields, spread) => {
                let full_name = match module {
                    Some(m) => cat3(m.as_str(), ".", tname.as_str()),
                    None => tname.clone(),
                };
                let info_fields: Option<Vec<(String, Type)>> = match module {
                    Some(m) => match self.type_info.modules.get(m.as_str()) {
                        Some(mi) => match mi.structs.get(tname.as_str()) {
                            Some(si) => Some(clone_fields(&si.fields)),
                            None => None,
                        },
                        None => None,
                    },
                    None => match self.type_info.structs.get(tname.as_str()) {
                        Some(si) => Some(clone_fields(&si.fields)),
                        None => None,
                    },
                };
                let ghost decl = lit_fields(self.type_info, tname@, *module).unwrap();
                let info_fields = match info_fields {
                    Some(f) => f,
                    None => {
                        let names = self.type_name_list();
                        let base = cat3("unknown struct type '", full_name.as_str(), "'");
                        let msg = with_suggestion(base.as_str(), full_name.as_str(), &names);
                        return Err(CompileError::new(msg, expr.span));
                    },
                };
                assert(super::same_pairs(info_fields@, decl));
                let ghost start = *self;
                let ghost names_written = lit_field_names(fields@);
                let mut typed_fields: Vec<(String, TypedExpr)> = Vec::new();
                let mut provided: Vec<String> = Vec::new();
                let mut i: usize = 0;
                while i < fields.len()
                    invariant
                        i <= fields@.len(),
                        kept(start, *self),
                        names_written == lit_field_names(fields@),
                        super::same_pairs(info_fields@, decl),
                        typed_fields@.len() == i,
                        forall|j: int| 0 <= j < i ==> #[trigger] field_checked(
                            start.type_info,
                            decl,
                            fields@[j],
                            typed_fields@[j],
                        ),
                        forall|x: Seq<char>| #[trigger] views_of(provided@).contains(x) <==> names_written.take(i as int).contains(x),
                        names_written.take(i as int).no_duplicates(),
                        forall|j: int| 0 <= j < i ==> well_typed(start.type_info, ret_of(start), start.in_loop, (#[trigger] typed_fields@[j]).1),
                        forall|j: int| 0 <= j < i ==> (#[trigger] typed_fields@[j]).0@ == fields@[j].0@ && checked_from(fields@[j].1, typed_fields@[j].1),
                        literal_fields(fields@) ==> forall|j: int| 0 <= j < i ==> (#[trigger] typed_fields@[j]).1.ty@ == literal_type(
                            fields@[j].1,
                        ),
                        start.type_info == old(self).type_info,
                    decreases fields.len() - i,
                {
                    proof {
                        assert(decreases_to!(*fields => fields@[i as int]));
                    }
                    let name = &fields[i].0;
                    let fe = &fields[i].1;
                    proof {
                        if literal_fields(fields@) {
                            assert(literal_expr(fields@[i as int].1));
                        }
                    }
                    if names_contain(&provided, name.as_str()) {
                        let msg = cat3("duplicate field '", name.as_str(), "' in struct literal");
                        proof {
                            assert(names_written[i as int] == name@);
                            assert(names_written.take(i as int).contains(name@));
                            let j = choose|j: int| 0 <= j < i && names_written.take(i as int)[j] == name@;
                            assert(names_written[j] == names_written[i as int]);
                            assert(!names_written.no_duplicates());
                        }
                        return Err(CompileError::new(msg, fe.span));
                    }
                    let ghost prev_provided = provided@;
                    add_name(&mut provided, name.as_str());
                    proof {
                        let t1 = names_written.take(i as int + 1);
                        assert(t1 =~= names_written.take(i as int).push(name@));
                        assert forall|x: Seq<char>| #[trigger] views_of(provided@).contains(x) <==> t1.contains(x) by {
                            assert(views_of(prev_provided).contains(x) <==> names_written.take(i as int).contains(x));
                            if t1.contains(x) && x != name@ {
                                let k = choose|k: int| 0 <= k < t1.len() && t1[k] == x;
                                assert(names_written.take(i as int)[k] == x);
                            }
                            if names_written.take(i as int).contains(x) {
                                let k = choose|k: int| 0 <= k < i && names_written.take(i as int)[k] == x;
                                assert(t1[k] == x);
                            }
                            assert(t1[i as int] == name@);
                        }
                        assert(!names_written.take(i as int).contains(name@));
                        assert(t1.no_duplicates()) by {
                            assert forall|a: int, b: int| 0 <= a < t1.len() && 0 <= b < t1.len() && a != b implies t1[a]
                                != t1[b] by {
                                if a < i && b < i {
                                    assert(names_written.take(i as int)[a] == t1[a]);
                                    assert(names_written.take(i as int)[b] == t1[b]);
                                } else if a == i {
                                    assert(names_written.take(i as int)[b] == t1[b]);
                                } else {
                                    assert(names_written.take(i as int)[a] == t1[a]);
                                }
                            }
                        }
                    }
                    proof {
                        lemma_find_field_same(info_fields@, decl, name@);
                    }
                    let field_ty = match first_field(&info_fields, name.as_str()) {
                        Some(t) => t,
                        None => {
                            let names = names_of_fields(&info_fields);
                            let base = cat5("unknown field '", name.as_str(), "' on struct '", full_name.as_str(), "'");
                            let msg = with_suggestion(base.as_str(), name.as_str(), &names);
                            proof {
                                assert(!literal_field_fits(start.type_info, decl, fields@[i as int]));
                            }
                            return Err(CompileError::new(msg, fe.span));
                        },
                    };
                    let t = match self.check_expr(fe) {
                        Ok(t) => t,
                        Err(e) => {
                            return Err(e);
                        },
                    };
                    if !self.is_assignable(&t.ty, &field_ty) {
                        let a = field_ty.display_name();
                        let b = t.ty.display_name();
                        let msg = cat6("field '", name.as_str(), "' type mismatch: expected ", a.as_str(), ", got ", b.as_str());
                        proof {
                            if literal_fields(fields@) {
                                assert(!literal_field_fits(start.type_info, decl, fields@[i as int]));
                            }
                        }
                        return Err(CompileError::new(msg, fe.span));
                    }
                    let ghost before = typed_fields@;
                    typed_fields.push((name.clone(), t));
                    proof {
                        if literal_fields(fields@) {
                            assert forall|j: int| 0 <= j < i + 1 implies (#[trigger] typed_fields@[j]).1.ty@ == literal_type(
                                fields@[j].1,
                            ) by {
                                if j < i {
                                    assert(typed_fields@[j] == before[j]);
                                }
                            }
                        }
                        assert forall|j: int| 0 <= j < i + 1 implies well_typed(start.type_info, ret_of(start), start.in_loop, (#[trigger] typed_fields@[j]).1) by {
                            if j < i {
                                assert(typed_fields@[j] == before[j]);
                            }
                        }
                        assert forall|j: int| 0 <= j < i + 1 implies (#[trigger] typed_fields@[j]).0@ == fields@[j].0@ && checked_from(fields@[j].1, typed_fields@[j].1) by {
                            if j < i {
                                assert(typed_fields@[j] == before[j]);
                            }
                        }
                        assert forall|j: int| 0 <= j < i + 1 implies #[trigger] field_checked(
                            start.type_info,
                            decl,
                            fields@[j],
                            typed_fields@[j],
                        ) by {
                            if j < i {
                                assert(typed_fields@[j] == before[j]);
                            }
                        }
                    }
                    i = i + 1;
                }
                assert(names_written.take(fields@.len() as int) =~= names_written);
                let typed_spread = match spread {
                    Some(s) => {
                        let ts = match self.check_expr(s) {
                            Ok(t) => t,
                            Err(e) => {
                                return Err(e);
                            },
                        };
                        let expected = Type::Struct(full_name.clone());
                        if !ts.ty.same(&expected) {
                            let d = ts.ty.display_name();
                            let msg = cat4("spread type mismatch: expected ", full_name.as_str(), ", got ", d.as_str());
                            return Err(CompileError::new(msg, expr.span));
                        }
                        let mut supplied: Vec<(String, Type)> = Vec::new();
                        let mut k: usize = 0;
                        while k < info_fields.len()
                            invariant
                                k <= info_fields@.len(),
                            decreases info_fields.len() - k,
                        {
                            if !names_contain(&provided, info_fields[k].0.as_str()) {
                                add_name(&mut provided, info_fields[k].0.as_str());
                                supplied.push((info_fields[k].0.clone(), info_fields[k].1.deep_clone()));
                            }
                            k = k + 1;
                        }
                        assert(ts.ty@ == TypeView::Struct(full_name@));
                        Some((Box::new(ts), supplied))
                    },
                    None => None,
                };
                let mut k: usize = 0;
                while k < info_fields.len()
                    invariant
                        k <= info_fields@.len(),
                        forall|j: int| 0 <= j < k ==> #[trigger] views_of(provided@).contains(info_fields@[j].0@),
                    decreases info_fields.len() - k,
                {
                    if !names_contain(&provided, info_fields[k].0.as_str()) {
                        let msg = cat5(
                            "missing field '",
                            info_fields[k].0.as_str(),
                            "' in struct literal for '",
                            full_name.as_str(),
                            "'",
                        );
                        proof {
                            if spread is None {
                                assert(!views_of(provided@).contains(info_fields@[k as int].0@));
                                assert(decl[k as int].0@ == info_fields@[k as int].0@);
                                assert(!names_written.contains(decl[k as int].0@));
                            }
                        }
                        return Err(CompileError::new(msg, expr.span));
                    }
                    k = k + 1;
                }
                proof {
                    if spread is None && literal_fields(fields@) {
                        assert forall|j: int| 0 <= j < fields@.len() implies #[trigger] literal_field_fits(
                            old(self).type_info,
                            decl,
                            fields@[j],
                        ) by {
                            assert(field_checked(start.type_info, decl, fields@[j], typed_fields@[j]));
                        }
                    }
                    if spread is None {
                        assert forall|k: int| 0 <= k < decl.len() implies #[trigger] names_written.contains(decl[k].0@) by {
                            assert(views_of(provided@).contains(info_fields@[k].0@));
                        }
                    }
                }
                let ty = Type::Struct(full_name.clone());
                Ok(TypedExpr { kind: TypedExprKind::StructLit(full_name, typed_fields, typed_spread), ty, span: expr.span })
            },
            _ => Err(CompileError::new(String::new(), expr.span)),
        }
    }

    #[verifier::loop_isolation(false)]
    fn check_enum_variant(&mut self, expr: &Expr) -> (r: Result<TypedExpr, CompileError>)
        requires
            expr.kind is EnumVariant || expr.kind is QualifiedEnumVariant,
        ensures
            r is Ok ==> kept(*old(self), *final(self)),
            r matches Ok(t) ==> expr_rule(old(self).type_info, old(self).current_type_name, *expr, t),
            r matches Ok(t) ==> well_typed(old(self).type_info, ret_of(*old(self)), old(self).in_loop, t),
            r matches Ok(t) ==> checked_from(*expr, t),
            match expr.kind {
                ExprKind::EnumVariant(n, v, args) => enum_variant_outcome(old(self).type_info, n@, None, v@, args@, r is Ok),
                ExprKind::QualifiedEnumVariant(m, n, v, args) => enum_variant_outcome(old(self).type_info, n@, Some(m), v@, args@, r is Ok),
                _ => true,
            },
        decreases expr, 1nat,
    {
        let span = expr.span;
        let (module, tname, variant, args): (Option<&String>, &String, &String, &Vec<Expr>) = match &expr.kind {
            ExprKind::EnumVariant(t, v, a) => (None, t, v, a),
            ExprKind::QualifiedEnumVariant(m, t, v, a) => (Some(m), t, v, a),
            _ => {
                return Err(CompileError::new(String::new(), span));
            },
        };
        let full_name = match module {
            Some(m) => cat3(m.as_str(), ".", tname.as_str()),
            None => tname.clone(),
        };
        let variants_fields: Option<Option<Vec<Type>>> = match module {
            Some(m) => match self.type_info.modules.get(m.as_str()) {
                Some(mi) => match mi.enums.get(tname.as_str()) {
                    Some(ei) => Some(find_variant_fields(&ei.variants, variant.as_str())),
                    None => None,
                },
                None => None,
            },
            None => match self.type_info.enums.get(tname.as_str()) {
                Some(ei) => Some(find_variant_fields(&ei.variants, variant.as_str())),
                None => None,
            },
        };
        let field_types = match variants_fields {
            None => {
                return Err(CompileError::new(cat3("unknown enum type '", full_name.as_str(), "'"), span));
            },
            Some(None) => {
                let msg = cat5("unknown variant '", full_name.as_str(), ".", variant.as_str(), "'");
                return Err(CompileError::new(msg, span));
            },
            Some(Some(f)) => f,
        };
        if field_types.len() != args.len() {
            let a = usize_to_string(field_types.len());
            let b = usize_to_string(args.len());
            let msg = cat6("variant '", full_name.as_str(), ".", variant.as_str(), "' expects ", a.as_str());
            let msg = cat4(msg.as_str(), " arguments, got ", b.as_str(), "");
            return Err(CompileError::new(msg, span));
        }
        let ghost start = *self;
        let mut typed: Vec<TypedExpr> = Vec::new();
        let mut i: usize = 0;
        while i < args.len()
            invariant
                i <= args@.len(),
                field_types@.len() == args@.len(),
                kept(start, *self),
                typed@.len() == i,
                forall|j: int| 0 <= j < i ==> #[trigger] assignable(start.type_info, typed@[j].ty@, field_types@[j]@),
                forall|j: int| 0 <= j < i ==> well_typed(start.type_info, ret_of(start), start.in_loop, #[trigger] typed@[j]),
                forall|j: int| 0 <= j < i ==> checked_from(args@[j], #[trigger] typed@[j]),
                all_literal(args@) ==> forall|j: int| 0 <= j < i ==> (#[trigger] typed@[j]).ty@ == literal_type(args@[j]),
            decreases args.len() - i,
        {
            proof {
                assert(decreases_to!(*args => args@[i as int]));
                if all_literal(args@) {
                    assert(literal_expr(args@[i as int]));
                }
            }
            let t = match self.check_expr(&args[i]) {
                Ok(t) => t,
                Err(e) => {
                    return Err(e);
                },
            };
            if !self.is_assignable(&t.ty, &field_types[i]) {
                let a = field_types[i].display_name();
                let b = t.ty.display_name();
                let msg = cat4("variant field type mismatch: expected ", a.as_str(), ", got ", b.as_str());
                proof {
                    if all_literal(args@) {
                        assert(views(field_types@)[i as int] == field_types@[i as int]@);
                        assert(!assignable(old(self).type_info, literal_type(args@[i as int]), views(field_types@)[i as int]));
                    }
                }
                return Err(CompileError::new(msg, span));
            }
            let ghost before = typed@;
            typed.push(t);
            proof {
                assert forall|j: int| 0 <= j < i + 1 implies well_typed(start.type_info, ret_of(start), start.in_loop, #[trigger] typed@[j]) by {
                    if j < i {
                        assert(typed@[j] == before[j]);
                    }
                }
                assert forall|j: int| 0 <= j < i + 1 implies checked_from(args@[j], #[trigger] typed@[j]) by {
                    if j < i {
                        assert(typed@[j] == before[j]);
                    }
                }
                assert forall|j: int| 0 <= j < i + 1 implies #[trigger] assignable(
                    start.type_info,
                    typed@[j].ty@,
                    field_types@[j]@,
                ) by {
                    if j < i {
                        assert(typed@[j] == before[j]);
                    }
                }
                if all_literal(args@) {
                    assert forall|j: int| 0 <= j < i + 1 implies (#[trigger] typed@[j]).ty@ == literal_type(args@[j]) by {
                        if j < i {
                            assert(typed@[j] == before[j]);
                        }
                    }
                }
            }
            i = i + 1;
        }
        proof {
            if all_literal(args@) {
                assert forall|j: int| 0 <= j < views(field_types@).len() implies #[trigger] assignable(
                    old(self).type_info,
                    literal_type(args@[j]),
                    views(field_types@)[j],
                ) by {
                    assert(views(field_types@)[j] == field_types@[j]@);
                    assert(typed@[j].ty@ == literal_type(args@[j]));
                }
            }
        }
        proof {
            assert(views(field_types@).len() == typed@.len());
            assert forall|j: int| 0 <= j < typed@.len() implies #[trigger] assignable(
                start.type_info,
                typed@[j].ty@,
                views(field_types@)[j],
            ) by {
                assert(views(field_types@)[j] == field_types@[j]@);
            }
        }
        let ty = Type::Enum(full_name.clone());
        proof {
            assert(typed@.len() == args@.len());
            assert(args_from(args@, typed@));
        }
        let vname = variant.clone();
        let res = TypedExpr { kind: TypedExprKind::EnumVariant(full_name, vname, typed), ty, span: Span::unset() };
        proof {
            match &expr.kind {
                ExprKind::EnumVariant(_, v, a) => {
                    assert(*a == *args && *v == *variant);
                },
                ExprKind::QualifiedEnumVariant(_, _, v, a) => {
                    assert(*a == *args && *v == *variant);
                },
                _ => {},
            }
        }
        Ok(res)
    }

    /// The type of an `if` with differing branch types: the union of both.
    fn union_of_branches(a: &Type, b: &Type) -> (r: Type)
        ensures
            r@ == branch_union(a@, b@),
    {
        let ghost first: Seq<TypeView> = match a@ {
            TypeView::Union(m) => m,
            _ => seq![a@],
        };
        let mut members: Vec<Type> = match a {
            Type::Union(m) => {
                proof {
                    a.lemma_union_members();
                }
                clone_list(m)
            },
            other => {
                let mut v: Vec<Type> = Vec::new();
                v.push(other.deep_clone());
                assert(views(v@) =~= seq![a@]);
                v
            },
        };
        assert(views(members@) == first);
        match b {
            Type::Union(m) => {
                proof {
                    b.lemma_union_members();
                }
                let mut i: usize = 0;
                while i < m.len()
                    invariant
                        i <= m@.len(),
                        views(members@) =~= first + views(m@).take(i as int),
                    decreases m.len() - i,
                {
                    let c = m[i].deep_clone();
                    let ghost before = views(members@);
                    members.push(c);
                    assert(views(members@) =~= before.push(c@));
                    assert(views(m@).take(i as int + 1) =~= views(m@).take(i as int).push(m@[i as int]@));
                    i = i + 1;
                }
                assert(views(m@).take(m@.len() as int) =~= views(m@));
            },
            other => {
                if !contains_type(&members, other) {
                    let c = other.deep_clone();
                    members.push(c);
                    assert(views(members@) =~= first.push(b@));
                }
            },
        }
        Type::union_of_list(members)
    }

    fn check_if(&mut self, expr: &Expr) -> (r: Result<TypedExpr, CompileError>)
        requires
            expr.kind is If,
        ensures
            r is Ok ==> kept(*old(self), *final(self)),
            r matches Ok(t) ==> expr_rule(old(self).type_info, old(self).current_type_name, *expr, t),
            r matches Ok(t) ==> well_typed(old(self).type_info, ret_of(*old(self)), old(self).in_loop, t),
            r matches Ok(t) ==> checked_from(*expr, t),
            match expr.kind {
                ExprKind::If(c, b, e) => (literal_expr(*c) ==> (literal_type(*c) != TypeView::Bool ==> r is Err) && (
                literal_type(*c) == TypeView::Bool && simple_block(b, old(self).in_loop, old(self).type_info) && e is None ==> r is Ok)),
                _ => true,
            },
            if_condition_checked(*old(self), *expr, r),
        decreases expr, 1nat,
    {
        match &expr.kind {
            ExprKind::If(cond, then_block, else_expr) => {
                let tc = match self.check_expr(cond) {
                    Ok(t) => t,
                    Err(e) => {
                        return Err(e);
                    },
                };
                let narrowing: Option<(String, Type)> = match &cond.kind {
                    ExprKind::Is(inner, IsTarget::Type(te)) => match &inner.kind {
                        ExprKind::Ident(name) => {
                            let is_mutable = match self.lookup_var(name.as_str()) {
                                Some((_, m)) => m,
                                None => false,
                            };
                            if is_mutable && names_contain(&self.captured_mut_vars, name.as_str()) {
                                None
                            } else {
                                match self.resolve_type_expr(te) {
                                    Ok(t) => Some((name.clone(), t)),
                                    Err(e) => {
                                        return Err(e.with_span(expr.span));
                                    },
                                }
                            }
                        },
                        _ => None,
                    },
                    _ => None,
                };
                if !matches!(tc.ty, Type::Bool) {
                    let d = tc.ty.display_name();
                    return Err(CompileError::new(cat2("if condition must be bool, got ", d.as_str()), expr.span));
                }
                match &narrowing {
                    Some((name, ty)) => {
                        self.push_scope();
                        match self.define_var(name.as_str(), ty.deep_clone(), false) {
                            Ok(()) => {},
                            Err(e) => {
                                return Err(e);
                            },
                        }
                    },
                    None => {},
                }
                let tb = match self.check_block(then_block) {
                    Ok(t) => t,
                    Err(e) => {
                        return Err(e);
                    },
                };
                if narrowing.is_some() {
                    self.pop_scope();
                }
                let te = match else_expr {
                    Some(ee) => {
                        let else_narrowing: Option<(String, Type)> = match &narrowing {
                            Some((name, narrow_ty)) => match self.lookup_var(name.as_str()) {
                                Some((original, _)) => {
                                    let complement = self.subtract_type(&original, narrow_ty);
                                    if !complement.same(&original) {
                                        Some((name.clone(), complement))
                                    } else {
                                        None
                                    }
                                },
                                None => None,
                            },
                            None => None,
                        };
                        match &else_narrowing {
                            Some((name, ty)) => {
                                self.push_scope();
                                match self.define_var(name.as_str(), ty.deep_clone(), false) {
                                    Ok(()) => {},
                                    Err(e) => {
                                        return Err(e);
                                    },
                                }
                            },
                            None => {},
                        }
                        let result = match self.check_expr(ee) {
                            Ok(t) => t,
                            Err(e) => {
                                return Err(e);
                            },
                        };
                        if else_narrowing.is_some() {
                            self.pop_scope();
                        }
                        Some(Box::new(result))
                    },
                    None => None,
                };
                let ty = match &te {
                    Some(et) => {
                        if self.is_assignable(&tb.ty, &et.ty) {
                            et.ty.deep_clone()
                        } else if self.is_assignable(&et.ty, &tb.ty) {
                            tb.ty.deep_clone()
                        } else if matches!(tb.ty, Type::Nil) || matches!(et.ty, Type::Nil) {
                            Type::Nil
                        } else {
                            Self::union_of_branches(&tb.ty, &et.ty)
                        }
                    },
                    None => Type::Nil,
                };
                Ok(TypedExpr { kind: TypedExprKind::If(Box::new(tc), tb, te), ty, span: expr.span })
            },
            _ => Err(CompileError::new(String::new(), expr.span)),
        }
    }

    #[verifier::loop_isolation(false)]
    #[verifier::rlimit(40)]
    fn check_match(&mut self, expr: &Expr) -> (r: Result<TypedExpr, CompileError>)
        requires
            expr.kind is Match,
        ensures
            r is Ok ==> kept(*old(self), *final(self)),
            r matches Ok(t) ==> expr_rule(old(self).type_info, old(self).current_type_name, *expr, t),
            r matches Ok(t) ==> well_typed(old(self).type_info, ret_of(*old(self)), old(self).in_loop, t),
            r matches Ok(t) ==> checked_from(*expr, t),
            match expr.kind {
                ExprKind::Match(sc, arms) => literal_expr(*sc) ==> (arms@.len() == 0 ==> r is Err) && (arms@.len() > 0 && (forall|i: int|
                    0 <= i < arms@.len() ==> (#[trigger] arms@[i]).pattern.kind is Wildcard && literal_expr(arms@[i].body)) ==> r is Ok),
                _ => true,
            },
        decreases expr, 1nat,
    {
        match &expr.kind {
            ExprKind::Match(scrutinee, arms) => {
                let ts = match self.check_expr(scrutinee) {
                    Ok(t) => t,
                    Err(e) => {
                        return Err(e);
                    },
                };
                let ghost start = *self;
                let mut typed_arms: Vec<TypedMatchArm> = Vec::new();
                let mut result_ty: Option<Type> = None;
                let mut i: usize = 0;
                while i < arms.len()
                    invariant
                        i <= arms@.len(),
                        kept(start, *self),
                        typed_arms@.len() == i,
                        i == 0 <==> result_ty is None,
                        result_ty matches Some(rt) ==> rt@ == match_type(start.type_info, arm_types(typed_arms@)),
                        forall|j: int| 0 <= j < i ==> well_typed(start.type_info, ret_of(start), start.in_loop, (#[trigger] typed_arms@[j]).body),
                        forall|j: int| 0 <= j < i ==> checked_from(arms@[j].body, (#[trigger] typed_arms@[j]).body),
                    decreases arms.len() - i,
                {
                    proof {
                        assert(decreases_to!(*arms => arms@[i as int]));
                        if forall|k: int| 0 <= k < arms@.len() ==> (#[trigger] arms@[k]).pattern.kind is Wildcard && literal_expr(arms@[k].body) {
                            assert(arms@[i as int].pattern.kind is Wildcard && literal_expr(arms@[i as int].body));
                        }
                    }
                    let bindings = match self.check_pattern(&arms[i].pattern, &ts.ty) {
                        Ok(b) => b,
                        Err(e) => {
                            return Err(e);
                        },
                    };
                    let ghost before_arm = *self;
                    self.push_scope();
                    let mut k: usize = 0;
                    while k < bindings.len()
                        invariant
                            k <= bindings@.len(),
                            inside(before_arm, *self),
                        decreases bindings.len() - k,
                    {
                        match self.define_var(bindings[k].0.as_str(), bindings[k].1.deep_clone(), false) {
                            Ok(()) => {},
                            Err(e) => {
                                return Err(e);
                            },
                        }
                        k = k + 1;
                    }
                    let body = match self.check_expr(&arms[i].body) {
                        Ok(t) => t,
                        Err(e) => {
                            return Err(e);
                        },
                    };
                    self.pop_scope();
                    assert(self.scopes@ =~= before_arm.scopes@);
                    result_ty = match result_ty {
                        Some(rty) => {
                            if !self.is_assignable(&body.ty, &rty) && !self.is_assignable(&rty, &body.ty) {
                                if !matches!(body.ty, Type::Nil) && !matches!(rty, Type::Nil) {
                                    Some(Self::union_of_branches(&rty, &body.ty))
                                } else {
                                    Some(rty)
                                }
                            } else if self.is_assignable(&rty, &body.ty) {
                                Some(body.ty.deep_clone())
                            } else {
                                Some(rty)
                            }
                        },
                        None => Some(body.ty.deep_clone()),
                    };
                    let ghost before = typed_arms@;
                    let ghost body_ty = body.ty@;
                    typed_arms.push(TypedMatchArm { pattern: arms[i].pattern.copy(), body, bindings });
                    proof {
                        assert forall|j: int| 0 <= j < i + 1 implies well_typed(start.type_info, ret_of(start), start.in_loop, (#[trigger] typed_arms@[j]).body) by {
                            if j < i {
                                assert(typed_arms@[j] == before[j]);
                            }
                        }
                        assert forall|j: int| 0 <= j < i + 1 implies checked_from(arms@[j].body, (#[trigger] typed_arms@[j]).body) by {
                            if j < i {
                                assert(typed_arms@[j] == before[j]);
                            }
                        }
                        assert(arm_types(typed_arms@).drop_last() =~= arm_types(before));
                        assert(arm_types(typed_arms@).last() == body_ty);
                    }
                    i = i + 1;
                }
                proof {
                    if arms@.len() > 0 && arms@[0].pattern.kind is Wildcard {
                        assert(super::patterns::catch_all(arms@[0]));
                    }
                }
                match self.check_match_exhaustiveness(&ts.ty, arms, expr.span) {
                    Ok(()) => {},
                    Err(e) => {
                        return Err(e);
                    },
                }
                let ty = match result_ty {
                    Some(t) => t,
                    None => Type::Nil,
                };
                Ok(TypedExpr { kind: TypedExprKind::Match(Box::new(ts), typed_arms), ty, span: expr.span })
            },
            _ => Err(CompileError::new(String::new(), expr.span)),
        }
    }

    fn check_for(&mut self, expr: &Expr) -> (r: Result<TypedExpr, CompileError>)
        requires
            expr.kind is For,
        ensures
            r is Ok ==> kept(*old(self), *final(self)),
            r matches Ok(t) ==> expr_rule(old(self).type_info, old(self).current_type_name, *expr, t),
            r matches Ok(t) ==> well_typed(old(self).type_info, ret_of(*old(self)), old(self).in_loop, t),
            r matches Ok(t) ==> checked_from(*expr, t),
            match expr.kind {
                ExprKind::For(v1, v2, it, body) => literal_expr(*it) ==> (literal_type(*it) != TypeView::String ==> r is Err) && (
                literal_type(*it) == TypeView::String && v2 is None && !old(self).is_module(v1@) && simple_block(body, true, old(self).type_info)
                    ==> r is Ok),
                _ => true,
            },
        decreases expr, 1nat,
    {
        match &expr.kind {
            ExprKind::For(var1, var2, iterable, body) => {
                let ti = match self.check_expr(iterable) {
                    Ok(t) => t,
                    Err(e) => {
                        return Err(e);
                    },
                };
                self.push_scope();
                let old_in_loop = self.in_loop;
                self.in_loop = true;
                let (t1, t2): (Type, Option<Type>) = match &ti.ty {
                    Type::Array(elem) => (elem.deep_clone(), Some(Type::I64)),
                    Type::MapOf(k, v) => (k.deep_clone(), Some(v.deep_clone())),
                    Type::String => (Type::String, Some(Type::I64)),
                    Type::Range => (Type::I64, None),
                    _ => {
                        let d = ti.ty.display_name();
                        return Err(CompileError::new(cat2("cannot iterate over ", d.as_str()), expr.span));
                    },
                };
                match self.define_var(var1.as_str(), t1, false) {
                    Ok(()) => {},
                    Err(e) => {
                        return Err(e);
                    },
                }
                match (var2, t2) {
                    (Some(v2), Some(ty2)) => match self.define_var(v2.as_str(), ty2, false) {
                        Ok(()) => {},
                        Err(e) => {
                            return Err(e);
                        },
                    },
                    _ => {},
                }
                let tb = match self.check_block(body) {
                    Ok(t) => t,
                    Err(e) => {
                        return Err(e);
                    },
                };
                self.in_loop = old_in_loop;
                self.pop_scope();
                Ok(
                    TypedExpr {
                        kind: TypedExprKind::For(var1.clone(), var2.clone(), Box::new(ti), tb),
                        ty: Type::Nil,
                        span: expr.span,
                    },
                )
            },
            _ => Err(CompileError::new(String::new(), expr.span)),
        }
    }

    fn check_guard(&mut self, expr: &Expr) -> (r: Result<TypedExpr, CompileError>)
        requires
            expr.kind is Guard,
        ensures
            r is Ok ==> kept(*old(self), *final(self)),
            r matches Ok(t) ==> expr_rule(old(self).type_info, old(self).current_type_name, *expr, t),
            r matches Ok(t) ==> well_typed(old(self).type_info, ret_of(*old(self)), old(self).in_loop, t),
            r matches Ok(t) ==> checked_from(*expr, t),
            match expr.kind {
                ExprKind::Guard(None, c, b) => literal_expr(*c) ==> (literal_type(*c) != TypeView::Bool ==> r is Err) && (
                literal_type(*c) == TypeView::Bool && simple_block(b, old(self).in_loop, old(self).type_info) ==> (r is Ok <==> leaves_simply(b))),
                _ => true,
            },
        decreases expr, 1nat,
    {
        match &expr.kind {
            ExprKind::Guard(binding, inner, else_block) => {
                let span = inner.span;
                match binding {
                    Some(name) => {
                        let te = match self.check_expr(inner) {
                            Ok(t) => t,
                            Err(e) => {
                                return Err(e);
                            },
                        };
                        let tb = match self.check_block(else_block) {
                            Ok(t) => t,
                            Err(e) => {
                                return Err(e);
                            },
                        };
                        if !Self::block_diverges(&tb) {
                            return Err(
                                CompileError::new(
                                    String::from_str("guard else block must diverge (return, break, continue, or panic)"),
                                    span,
                                ),
                            );
                        }
                        let unwrapped = match &te.ty {
                            Type::Optional(i) => i.deep_clone(),
                            Type::Result(ok, _) => ok.deep_clone(),
                            other => other.deep_clone(),
                        };
                        match self.define_var(name.as_str(), unwrapped, false) {
                            Ok(()) => {},
                            Err(e) => {
                                return Err(e);
                            },
                        }
                        Ok(TypedExpr { kind: TypedExprKind::Guard(Some(name.clone()), Box::new(te), tb), ty: Type::Nil, span })
                    },
                    None => {
                        let tc = match self.check_expr(inner) {
                            Ok(t) => t,
                            Err(e) => {
                                return Err(e);
                            },
                        };
                        if !matches!(tc.ty, Type::Bool) {
                            let d = tc.ty.display_name();
                            return Err(CompileError::new(cat2("guard condition must be bool, got ", d.as_str()), span));
                        }
                        let tb = match self.check_block(else_block) {
                            Ok(t) => t,
                            Err(e) => {
                                return Err(e);
                            },
                        };
                        if !Self::block_diverges(&tb) {
                            return Err(
                                CompileError::new(
                                    String::from_str("guard else block must diverge (return, break, continue, or panic)"),
                                    span,
                                ),
                            );
                        }
                        Ok(TypedExpr { kind: TypedExprKind::Guard(None, Box::new(tc), tb), ty: Type::Nil, span })
                    },
                }
            },
            _ => Err(CompileError::new(String::new(), expr.span)),
        }
    }

    #[verifier::loop_isolation(false)]
    fn check_lambda(&mut self, expr: &Expr) -> (r: Result<TypedExpr, CompileError>)
        requires
            expr.kind is Lambda,
        ensures
            r is Ok ==> kept(*old(self), *final(self)),
            r matches Ok(t) ==> expr_rule(old(self).type_info, old(self).current_type_name, *expr, t),
            r matches Ok(t) ==> well_typed(old(self).type_info, ret_of(*old(self)), old(self).in_loop, t),
            r matches Ok(t) ==> checked_from(*expr, t),
            lambda_return_checked(*old(self), *expr, r),
        decreases expr, 1nat,
    {
        match &expr.kind {
            ExprKind::Lambda(params, ret_type, body) => {
                let mut param_types: Vec<(String, Type)> = Vec::new();
                let ghost start = *self;
                self.push_scope();
                let mut i: usize = 0;
                while i < params.len()
                    invariant
                        i <= params@.len(),
                        inside(start, *self),
                        start == *old(self),
                    decreases params.len() - i,
                {
                    let ty = match self.resolve_type_expr(&params[i].ty) {
                        Ok(t) => t,
                        Err(e) => {
                            return Err(e.with_span(expr.span));
                        },
                    };
                    match self.define_var(params[i].name.as_str(), ty.deep_clone(), false) {
                        Ok(()) => {},
                        Err(e) => {
                            return Err(e);
                        },
                    }
                    param_types.push((params[i].name.clone(), ty));
                    i = i + 1;
                }
                let ret_ty = match ret_type {
                    Some(t) => match self.resolve_type_expr(t) {
                        Ok(t) => t,
                        Err(e) => {
                            return Err(e);
                        },
                    },
                    None => Type::Nil,
                };
                let old_return = self.current_fn_return.take();
                self.current_fn_return = Some(ret_ty.deep_clone());
                let tb = match self.check_block(body) {
                    Ok(t) => t,
                    Err(e) => {
                        return Err(e);
                    },
                };
                proof {
                    if simple_block(*body, start.in_loop, start.type_info) {
                        lemma_simple_block_no_return(*body, tb, start.in_loop, start.type_info);
                    }
                }
                self.current_fn_return = old_return;
                self.pop_scope();
                assert(self.scopes@ =~= start.scopes@);
                if !matches!(ret_ty, Type::Nil) && !matches!(ret_ty, Type::Void) && !self.block_always_returns(&tb) {
                    let d = ret_ty.display_name();
                    let msg = cat3("lambda declares return type ", d.as_str(), " but not all code paths return a value");
                    return Err(CompileError::new(msg, expr.span));
                }
                let mut ptys: Vec<Type> = Vec::new();
                let mut k: usize = 0;
                while k < param_types.len()
                    invariant
                        k <= param_types@.len(),
                    decreases param_types.len() - k,
                {
                    ptys.push(param_types[k].1.deep_clone());
                    k = k + 1;
                }
                let ty = Type::Function(ptys, Box::new(ret_ty.deep_clone()));
                Ok(TypedExpr { kind: TypedExprKind::Lambda(param_types, ret_ty, tb), ty, span: expr.span })
            },
            _ => Err(CompileError::new(String::new(), expr.span)),
        }
    }
}

/// The field types of the variant named `v`, if there is one.
pub fn find_variant_fields(variants: &Vec<super::VariantInfo>, v: &str) -> (r: Option<Vec<Type>>)
    ensures
        r is Some <==> exists|i: int| 0 <= i < variants@.len() && #[trigger] variants@[i].name@ == v@,
        match r {
            Some(fs) => match variant_position(variants@, v@) {
                Some(k) => views(fs@) == views(variants@[k].fields@),
                None => false,
            },
            None => variant_position(variants@, v@) is None,
        },
{
    let mut i: usize = 0;
    while i < variants.len()
        invariant
            i <= variants@.len(),
            forall|j: int| 0 <= j < i ==> variants@[j].name@ != v@,
            variant_position(variants@.take(i as int), v@) is None,
        decreases variants.len() - i,
    {
        proof {
            assert(variants@.take(i as int + 1).drop_last() =~= variants@.take(i as int));
        }
        if str_eq(variants[i].name.as_str(), v) {
            proof {
                assert(variants@.take(i as int + 1).last() == variants@[i as int]);
                assert(variant_position(variants@.take(i as int + 1), v@) == Some(i as int));
                lemma_variant_position_prefix(variants@, v@, i as int + 1);
            }
            return Some(clone_list(&variants[i].fields));
        }
        i = i + 1;
    }
    assert(variants@.take(variants@.len() as int) =~= variants@);
    None
}

/// The part of a name after its last '.', or the whole name.
pub fn last_segment(name: &str) -> (r: String)
    ensures
        r@ == name@.subrange(after_last_dot(name@), name@.len() as int),
{
    let cs = chars_of(name);
    let mut i = cs.len();
    assert(cs@.take(i as int) =~= cs@);
    while i > 0
        invariant
            i <= cs@.len(),
            cs@ == name@,
            after_last_dot(name@) == after_last_dot(cs@.take(i as int)),
        decreases i,
    {
        assert(cs@.take(i as int).drop_last() =~= cs@.take(i - 1));
        assert(cs@.take(i as int).last() == cs@[i - 1]);
        if cs[i - 1] == '.' {
            return crate::text::string_of_range(&cs, i, cs.len());
        }
        i = i - 1;
    }
    assert(name@.subrange(0, name@.len() as int) =~= name@);
    name.to_string()
}

/// Appends the names of a table's entries.
fn push_table_names<V>(names: &mut Vec<String>, entries: &Vec<(String, V)>)
    ensures
        views_of(final(names)@) == views_of(old(names)@) + super::checker::table_keys(entries@),
{
    let ghost start = names@;
    let mut k: usize = 0;
    while k < entries.len()
        invariant
            k <= entries@.len(),
            views_of(names@) == views_of(start) + super::checker::table_keys(entries@.take(k as int)),
        decreases entries.len() - k,
    {
        let n = entries[k].0.clone();
        assert(n@ == entries@[k as int].0@);
        assert(super::checker::table_keys(entries@.take(k + 1)) =~= super::checker::table_keys(entries@.take(k as int)).push(
            entries@[k as int].0@,
        ));
        let ghost before = names@;
        names.push(n);
        assert(views_of(names@) =~= views_of(before).push(entries@[k as int].0@));
        k = k + 1;
    }
    assert(entries@.take(entries@.len() as int) =~= entries@);
}

} // verus!
