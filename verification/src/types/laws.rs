//! Properties of the typing relations that hold for every input.
use vstd::prelude::*;
use crate::ast::BinOp;
use super::{TypeView, TypeInfo, is_numeric_view};
use super::checker::{assignable, assignable_within, any_assignable, resolved_view, without, subtracted, ASSIGN_DEPTH};
use super::rules::binop_type;
use super::suggest::{lev, best_at, lemma_lev_self, name_distance};
use vstd::utf8::{encode_utf8, encode_utf8_decode_utf8};
use super::{TypedExpr, TypedExprKind, TypedStmt};
use super::typing::{well_typed, stmt_well_typed};

verus! {

/// Arithmetic on two operands of the same numeric type (any integer type,
/// or `f64`) is accepted, and its result has that type: `+ - * / % **`.
pub proof fn law_arithmetic_on_same_numeric_type(op: BinOp, t: TypeView)
    requires
        op is Add || op is Sub || op is Mul || op is Div || op is Mod || op is Pow,
        t == TypeView::I8 || t == TypeView::I16 || t == TypeView::I32 || t == TypeView::I64 || t == TypeView::U8
            || t == TypeView::U16 || t == TypeView::U32 || t == TypeView::U64 || t == TypeView::F64,
    ensures
        binop_type(op, t, t) == Some(t),
{
}

/// The bitwise operators and shifts apply to two operands of the same
/// integer type and give that type.
pub proof fn law_bitwise_on_same_integer_type(op: BinOp, t: TypeView)
    requires
        op is BitAnd || op is BitOr || op is BitXor || op is ShiftLeft || op is ShiftRight,
        t == TypeView::I8 || t == TypeView::I16 || t == TypeView::I32 || t == TypeView::I64 || t == TypeView::U8
            || t == TypeView::U16 || t == TypeView::U32 || t == TypeView::U64,
    ensures
        binop_type(op, t, t) == Some(t),
{
}

/// Every type accepts its own values.
pub proof fn law_assignable_reflexive(info: TypeInfo, t: TypeView)
    ensures
        assignable(info, t, t),
{
}

/// `nil` may be used wherever an optional is expected.
pub proof fn law_nil_fits_optional(info: TypeInfo, t: TypeView)
    ensures
        assignable(info, TypeView::Nil, TypeView::Optional(Box::new(t))),
{
}

/// An error value `!(e)` may be returned where a result with error type `e` is expected.
pub proof fn law_error_fits_result(info: TypeInfo, ok: TypeView, e: TypeView)
    ensures
        assignable(info, TypeView::Error(Box::new(e)), TypeView::Result(Box::new(ok), Box::new(e))),
{
    assert(assignable_within(info, e, e, (ASSIGN_DEPTH - 1) as nat));
}

/// Arrays are invariant: an array of one element type is never accepted as
/// an array of another (the empty array literal, of element type `nil`, aside).
pub proof fn law_arrays_invariant(info: TypeInfo, a: TypeView, b: TypeView)
    requires
        a != b,
        a != TypeView::Nil,
    ensures
        !assignable(info, TypeView::Array(Box::new(a)), TypeView::Array(Box::new(b))),
{
}

/// A union accepts each of its members (a member that is not itself a
/// union and not a name that an alias redefines).
pub proof fn law_union_accepts_member(info: TypeInfo, ms: Seq<TypeView>, i: int)
    requires
        0 <= i < ms.len(),
        !(ms[i] is Union),
        resolved_view(info, ms[i]) == ms[i],
    ensures
        assignable(info, ms[i], TypeView::Union(ms)),
{
    lemma_any_assignable_member(info, ms[i], ms, i, (ASSIGN_DEPTH - 1) as nat);
}

proof fn lemma_any_assignable_member(info: TypeInfo, f: TypeView, ms: Seq<TypeView>, i: int, fuel: nat)
    requires
        0 <= i < ms.len(),
        assignable_within(info, f, ms[i], fuel),
    ensures
        any_assignable(info, f, ms, fuel),
    decreases ms.len(),
{
    if i < ms.len() - 1 {
        assert(ms.drop_last()[i] == ms[i]);
        lemma_any_assignable_member(info, f, ms.drop_last(), i, fuel);
    }
}

/// The built-in scalar types: the integers, `f64`, `bool` and `string`.
pub open spec fn scalar_view(t: TypeView) -> bool {
    is_numeric_view(t) || t == TypeView::Bool || t == TypeView::String
}

/// There is no null: `nil` is never accepted where a scalar is expected
/// (only optionals, unions with `nil` and `nil` itself take it).
pub proof fn law_no_null(info: TypeInfo, t: TypeView)
    requires
        scalar_view(t),
    ensures
        !assignable(info, TypeView::Nil, t),
{
}

/// Assignment never converts between scalar types implicitly: a value of
/// one scalar type is refused where another is expected.
pub proof fn law_no_implicit_conversion_on_assign(info: TypeInfo, from: TypeView, to: TypeView)
    requires
        scalar_view(from),
        scalar_view(to),
        from != to,
    ensures
        !assignable(info, from, to),
{
}

/// In a checked `let` of a scalar type, a value that is a scalar or `nil`
/// has exactly the declared type: neither `nil` nor another scalar gets in.
pub proof fn law_accepted_scalar_binding(info: TypeInfo, ret: Option<TypeView>, lp: bool, s: TypedStmt)
    requires
        stmt_well_typed(info, ret, lp, s),
        s matches TypedStmt::Let(d) && scalar_view(d.ty@) && (scalar_view(d.value.ty@) || d.value.ty@
            == TypeView::Nil),
    ensures
        s matches TypedStmt::Let(d) && d.value.ty@ == d.ty@,
{
    if let TypedStmt::Let(d) = s {
        if d.value.ty@ != d.ty@ {
            if d.value.ty@ == TypeView::Nil {
                law_no_null(info, d.ty@);
            } else {
                law_no_implicit_conversion_on_assign(info, d.value.ty@, d.ty@);
            }
        }
    }
}

/// Arithmetic never converts between numeric types implicitly: operands
/// of two different numeric types are refused.
pub proof fn law_no_implicit_numeric_conversion(op: BinOp, l: TypeView, r: TypeView)
    requires
        op == BinOp::Add || op == BinOp::Sub || op == BinOp::Mul || op == BinOp::Div || op == BinOp::Mod
            || op == BinOp::Pow,
        is_numeric_view(l),
        is_numeric_view(r),
        l != r,
    ensures
        binop_type(op, l, r) is None,
{
}

/// In an expression the checker accepted, the two sides of an arithmetic
/// operation on numbers have one and the same type.
pub proof fn law_accepted_arithmetic_same_type(info: TypeInfo, ret: Option<TypeView>, lp: bool, t: TypedExpr)
    requires
        well_typed(info, ret, lp, t),
        t.kind matches TypedExprKind::BinOp(l, op, r) && (op == BinOp::Add || op == BinOp::Sub || op == BinOp::Mul
            || op == BinOp::Div || op == BinOp::Mod || op == BinOp::Pow) && is_numeric_view(l.ty@) && is_numeric_view(
            r.ty@,
        ),
    ensures
        t.kind matches TypedExprKind::BinOp(l, _, r) && l.ty@ == r.ty@,
{
    if let TypedExprKind::BinOp(l, op, r) = t.kind {
        if l.ty@ != r.ty@ {
            law_no_implicit_numeric_conversion(op, l.ty@, r.ty@);
        }
    }
}

/// Anything may be compared for equality with `nil`, and comparisons are `bool`.
pub proof fn law_equality_with_nil(t: TypeView)
    ensures
        binop_type(BinOp::Eq, t, TypeView::Nil) == Some(TypeView::Bool),
        binop_type(BinOp::NotEq, TypeView::Nil, t) == Some(TypeView::Bool),
{
}

/// Ordering comparisons, when allowed, are of type `bool`.
pub proof fn law_comparisons_are_bool(op: BinOp, l: TypeView, r: TypeView)
    requires
        op == BinOp::Lt || op == BinOp::LtEq || op == BinOp::Gt || op == BinOp::GtEq || op == BinOp::Eq
            || op == BinOp::NotEq || op == BinOp::And || op == BinOp::Or,
        binop_type(op, l, r) is Some,
    ensures
        binop_type(op, l, r) == Some(TypeView::Bool),
{
}

/// Narrowing away a member of a union leaves a union without it.
pub proof fn law_subtract_removes(ms: Seq<TypeView>, rm: TypeView)
    ensures
        !without(ms, rm).contains(rm),
    decreases ms.len(),
{
    if ms.len() > 0 {
        law_subtract_removes(ms.drop_last(), rm);
        let w = without(ms.drop_last(), rm);
        if ms.last() != rm {
            assert forall|k: int| 0 <= k < w.push(ms.last()).len() implies w.push(ms.last())[k] != rm by {
                if k < w.len() {
                    assert(w.push(ms.last())[k] == w[k]);
                    assert(!(w[k] == rm)) by {
                        if w[k] == rm {
                            assert(w.contains(rm));
                        }
                    }
                }
            }
        }
    }
}

/// Narrowing `nil` away from an optional leaves the underlying type.
pub proof fn law_optional_minus_nil(t: TypeView)
    ensures
        subtracted(TypeView::Optional(Box::new(t)), TypeView::Nil) == t,
{
}

/// A name is at distance zero from itself.
pub proof fn law_edit_distance_self(a: Seq<u8>)
    ensures
        lev(a, a) == 0,
{
    lemma_lev_self(a);
}

/// Edit distance does not depend on the order of its arguments.
pub proof fn law_edit_distance_symmetric(a: Seq<u8>, b: Seq<u8>)
    ensures
        lev(a, b) == lev(b, a),
    decreases a.len() + b.len(),
{
    if a.len() > 0 && b.len() > 0 {
        law_edit_distance_symmetric(a.drop_last(), b);
        law_edit_distance_symmetric(a, b.drop_last());
        law_edit_distance_symmetric(a.drop_last(), b.drop_last());
    }
}

/// A suggestion is never the name that was asked about.
pub proof fn law_suggestion_differs(name: Seq<char>, cands: Seq<Seq<char>>, i: int)
    requires
        best_at(name, cands, i),
    ensures
        cands[i] != name,
        name_distance(name, cands[i]) > 0,
{
    if name_distance(name, cands[i]) == 0 {
        lemma_lev_zero(encode_utf8(name), encode_utf8(cands[i]));
        encode_utf8_decode_utf8(name);
        encode_utf8_decode_utf8(cands[i]);
    }
}

/// Only equal names are at distance zero.
proof fn lemma_lev_zero(a: Seq<u8>, b: Seq<u8>)
    requires
        lev(a, b) == 0,
    ensures
        a == b,
    decreases a.len() + b.len(),
{
    if a.len() > 0 && b.len() > 0 {
        let cost: int = if a.last() == b.last() { 0 } else { 1 };
        assert(lev(a.drop_last(), b.drop_last()) + cost == 0);
        lemma_lev_zero(a.drop_last(), b.drop_last());
        assert(a =~= a.drop_last().push(a.last()));
        assert(b =~= b.drop_last().push(b.last()));
    } else {
        assert(a =~= b);
    }
}

} // verus!
