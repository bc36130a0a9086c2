//! Typing rules that do not look into expressions: operators, conversions
//! with `as`, ranges of integer literals, field access and indexing.
use vstd::prelude::*;
use crate::ast::{BinOp, Span};
use crate::error::CompileError;
use crate::text::{cat2, cat4, cat5, cat6, i128_to_string, signed_decimal, str_eq, chars_of, string_of_range};
use super::{Type, TypeView, TypeInfo, type_display, is_integer_view, is_numeric_view};
use super::checker::{TypeChecker, assignable};
use super::resolve::suggestion_text;
use super::suggest::views_of;

verus! {

/// The type of `l op r`, if the operator applies to those operand types.
pub open spec fn binop_type(op: BinOp, l: TypeView, r: TypeView) -> Option<TypeView> {
    match op {
        BinOp::Add => if l == TypeView::String && r == TypeView::String {
            Some(TypeView::String)
        } else if l == r && is_numeric_view(l) {
            Some(l)
        } else {
            None
        },
        BinOp::Sub | BinOp::Mul | BinOp::Div | BinOp::Mod | BinOp::Pow => if l == r && is_numeric_view(l) {
            Some(l)
        } else {
            None
        },
        BinOp::Eq | BinOp::NotEq => if l == r || l == TypeView::Nil || r == TypeView::Nil {
            Some(TypeView::Bool)
        } else {
            None
        },
        BinOp::Lt | BinOp::LtEq | BinOp::Gt | BinOp::GtEq => if l == r && (is_numeric_view(l) || l == TypeView::String) {
            Some(TypeView::Bool)
        } else {
            None
        },
        BinOp::And | BinOp::Or => if l == TypeView::Bool && r == TypeView::Bool {
            Some(TypeView::Bool)
        } else {
            None
        },
        _ => if l == r && is_integer_view(l) {
            Some(l)
        } else {
            None
        },
    }
}

/// The message for an operator applied to operands it does not accept.
pub open spec fn binop_message(op: BinOp, l: TypeView, r: TypeView) -> Seq<char> {
    let ls = type_display(l);
    let rs = type_display(r);
    match op {
        BinOp::Add => "cannot add "@ + ls + " and "@ + rs,
        BinOp::Sub => "cannot apply Sub to "@ + ls + " and "@ + rs,
        BinOp::Mul => "cannot apply Mul to "@ + ls + " and "@ + rs,
        BinOp::Div => "cannot apply Div to "@ + ls + " and "@ + rs,
        BinOp::Mod => "cannot apply Mod to "@ + ls + " and "@ + rs,
        BinOp::Pow => "cannot apply ** to "@ + ls + " and "@ + rs,
        BinOp::Eq | BinOp::NotEq => "cannot compare "@ + ls + " and "@ + rs + " for equality"@,
        BinOp::Lt | BinOp::LtEq | BinOp::Gt | BinOp::GtEq => "cannot compare "@ + ls + " and "@ + rs,
        BinOp::And | BinOp::Or => "logical operators require bool operands, got "@ + ls + " and "@ + rs,
        _ => "bitwise operators require matching integer types, got "@ + ls + " and "@ + rs,
    }
}

/// Whether `as` may convert a value of type `from` to type `to`.
pub open spec fn conversion_allowed(info: TypeInfo, from: TypeView, to: TypeView) -> bool {
    ||| from == to
    ||| is_integer_view(from) && is_integer_view(to)
    ||| is_integer_view(from) && to == TypeView::F64
    ||| from == TypeView::F64 && is_integer_view(to)
    ||| is_numeric_view(from) && to == TypeView::String
    ||| from == TypeView::String && is_numeric_view(to)
    ||| from == TypeView::Bool && to == TypeView::String
    ||| from == TypeView::Nil && to == TypeView::String
    ||| from is Optional && to == TypeView::String
    ||| (match from {
        TypeView::Optional(inner) => assignable(info, *inner, to),
        _ => false,
    })
    ||| (from is Enum || from is Struct || from is Error || from is Result) && to == TypeView::String
}

/// The least and greatest value of an integer type.
pub open spec fn int_bounds(t: TypeView) -> Option<(int, int)> {
    match t {
        TypeView::I8 => Some((-128, 127)),
        TypeView::I16 => Some((-32768, 32767)),
        TypeView::I32 => Some((-2147483648, 2147483647)),
        TypeView::I64 => Some((-9223372036854775808, 9223372036854775807)),
        TypeView::U8 => Some((0, 255)),
        TypeView::U16 => Some((0, 65535)),
        TypeView::U32 => Some((0, 4294967295)),
        TypeView::U64 => Some((0, 18446744073709551615)),
        _ => None,
    }
}

/// The position of the first '.' in a name, or -1.
pub open spec fn first_dot(n: Seq<char>) -> int
    decreases n.len(),
{
    if n.len() == 0 {
        -1
    } else if n[0] == '.' {
        0
    } else {
        let k = first_dot(n.drop_first());
        if k < 0 {
            -1
        } else {
            k + 1
        }
    }
}

/// The first '.' lies inside the name.
pub proof fn lemma_first_dot(n: Seq<char>)
    ensures
        first_dot(n) < n.len(),
        first_dot(n) >= 0 ==> n[first_dot(n)] == '.',
    decreases n.len(),
{
    if n.len() > 0 && n[0] != '.' {
        lemma_first_dot(n.drop_first());
    }
}

/// The type of the first field named `f`.
pub open spec fn find_field(fields: Seq<(String, Type)>, f: Seq<char>) -> Option<TypeView>
    decreases fields.len(),
{
    if fields.len() == 0 {
        None
    } else if fields[0].0@ == f {
        Some(fields[0].1@)
    } else {
        find_field(fields.drop_first(), f)
    }
}

/// The names of a list of fields.
pub open spec fn field_names(fields: Seq<(String, Type)>) -> Seq<Seq<char>> {
    Seq::new(fields.len(), |i: int| fields[i].0@)
}

/// The type of field `f` of the struct named `n`: first among the struct's
/// own fields, then, for `m.s`, among those of struct `s` of module `m`.
pub open spec fn struct_field_type(info: TypeInfo, n: Seq<char>, f: Seq<char>) -> Option<TypeView> {
    let local = match info.structs.get_spec(n) {
        Some(si) => find_field(si.fields@, f),
        None => None,
    };
    if local is Some {
        local
    } else if first_dot(n) >= 0 {
        let m = n.take(first_dot(n));
        let s = n.skip(first_dot(n) + 1);
        match info.modules.get_spec(m) {
            Some(mi) => match mi.structs.get_spec(s) {
                Some(si) => find_field(si.fields@, f),
                None => None,
            },
            None => None,
        }
    } else {
        None
    }
}

/// The names of the fields of the struct registered as `n`.
pub open spec fn local_field_names(info: TypeInfo, n: Seq<char>) -> Seq<Seq<char>> {
    match info.structs.get_spec(n) {
        Some(si) => field_names(si.fields@),
        None => Seq::empty(),
    }
}

/// The type of `obj[idx]`, if indexing applies.
pub open spec fn index_type(info: TypeInfo, obj: TypeView, idx: TypeView) -> Option<TypeView> {
    match obj {
        TypeView::Array(e) => if is_integer_view(idx) {
            Some(*e)
        } else {
            None
        },
        TypeView::MapOf(k, v) => if assignable(info, idx, *k) {
            Some(*v)
        } else {
            None
        },
        _ => None,
    }
}

pub open spec fn index_message(obj: TypeView, idx: TypeView) -> Seq<char> {
    match obj {
        TypeView::Array(e) => "array index must be integer, got "@ + type_display(idx),
        TypeView::MapOf(k, v) => "map key type mismatch: expected "@ + type_display(*k) + ", got "@ + type_display(idx),
        _ => "cannot index into "@ + type_display(obj),
    }
}

/// Methods that change the receiver in place.
pub open spec fn mutating_method(name: Seq<char>) -> bool {
    name == "push"@ || name == "pop"@ || name == "insert"@ || name == "remove"@ || name == "sort"@
        || name == "reverse"@
}

/// Methods that change the receiver in place.
pub fn is_mutating_method(name: &str) -> (r: bool)
    ensures
        r == mutating_method(name@),
{
    str_eq(name, "push") || str_eq(name, "pop") || str_eq(name, "insert") || str_eq(name, "remove")
        || str_eq(name, "sort") || str_eq(name, "reverse")
}

impl TypeChecker {
    /// The type of a binary operation, or why the operands do not fit.
    pub fn check_binop(&self, left: &Type, op: BinOp, right: &Type, span: Span) -> (r: Result<Type, CompileError>)
        ensures
            match r {
                Ok(t) => binop_type(op, left@, right@) == Some(t@),
                Err(e) => binop_type(op, left@, right@) is None
                    && e.message@ == binop_message(op, left@, right@) && e.span == span,
            },
    {
        let same = left.same(right);
        let ok = match op {
            BinOp::Add => (matches!(left, Type::String) && matches!(right, Type::String)) || (same && left.is_numeric()),
            BinOp::Sub | BinOp::Mul | BinOp::Div | BinOp::Mod | BinOp::Pow => same && left.is_numeric(),
            BinOp::Eq | BinOp::NotEq => same || matches!(left, Type::Nil) || matches!(right, Type::Nil),
            BinOp::Lt | BinOp::LtEq | BinOp::Gt | BinOp::GtEq => same && (left.is_numeric() || matches!(left, Type::String)),
            BinOp::And | BinOp::Or => matches!(left, Type::Bool) && matches!(right, Type::Bool),
            _ => same && left.is_integer(),
        };
        if ok {
            return match op {
                BinOp::Add => if matches!(left, Type::String) && matches!(right, Type::String) {
                    Ok(Type::String)
                } else {
                    Ok(left.deep_clone())
                },
                BinOp::Eq | BinOp::NotEq | BinOp::Lt | BinOp::LtEq | BinOp::Gt | BinOp::GtEq | BinOp::And | BinOp::Or => Ok(
                    Type::Bool,
                ),
                _ => Ok(left.deep_clone()),
            };
        }
        let ls = left.display_name();
        let rs = right.display_name();
        let msg = match op {
            BinOp::Add => cat4("cannot add ", ls.as_str(), " and ", rs.as_str()),
            BinOp::Sub => cat4("cannot apply Sub to ", ls.as_str(), " and ", rs.as_str()),
            BinOp::Mul => cat4("cannot apply Mul to ", ls.as_str(), " and ", rs.as_str()),
            BinOp::Div => cat4("cannot apply Div to ", ls.as_str(), " and ", rs.as_str()),
            BinOp::Mod => cat4("cannot apply Mod to ", ls.as_str(), " and ", rs.as_str()),
            BinOp::Pow => cat4("cannot apply ** to ", ls.as_str(), " and ", rs.as_str()),
            BinOp::Eq | BinOp::NotEq => cat5("cannot compare ", ls.as_str(), " and ", rs.as_str(), " for equality"),
            BinOp::Lt | BinOp::LtEq | BinOp::Gt | BinOp::GtEq => cat4("cannot compare ", ls.as_str(), " and ", rs.as_str()),
            BinOp::And | BinOp::Or => cat4(
                "logical operators require bool operands, got ",
                ls.as_str(),
                " and ",
                rs.as_str(),
            ),
            _ => cat4("bitwise operators require matching integer types, got ", ls.as_str(), " and ", rs.as_str()),
        };
        Err(CompileError::new(msg, span))
    }

    /// Whether `as` may convert `from` to `to` (the same rules hold for `as?`).
    pub fn check_conversion(&self, from: &Type, to: &Type, is_safe: bool, span: Span) -> (r: Result<(), CompileError>)
        ensures
            r is Ok <==> conversion_allowed(self.type_info, from@, to@),
            r matches Err(e) ==> e.message@ == "cannot convert "@ + type_display(from@) + " to "@ + type_display(to@)
                && e.span == span,
    {
        let to_string = matches!(to, Type::String);
        if from.same(to) {
            return Ok(());
        }
        if from.is_integer() && to.is_integer() {
            return Ok(());
        }
        if from.is_integer() && matches!(to, Type::F64) {
            return Ok(());
        }
        if matches!(from, Type::F64) && to.is_integer() {
            return Ok(());
        }
        if from.is_numeric() && to_string {
            return Ok(());
        }
        if matches!(from, Type::String) && to.is_numeric() {
            return Ok(());
        }
        if matches!(from, Type::Bool) && to_string {
            return Ok(());
        }
        if matches!(from, Type::Nil) && to_string {
            return Ok(());
        }
        if matches!(from, Type::Optional(_)) && to_string {
            return Ok(());
        }
        match from {
            Type::Optional(inner) => {
                if self.is_assignable(inner, to) {
                    return Ok(());
                }
            },
            _ => {},
        }
        if matches!(from, Type::Enum(_) | Type::Struct(_) | Type::Error(_) | Type::Result(_, _)) && to_string {
            return Ok(());
        }
        let f = from.display_name();
        let t = to.display_name();
        Err(CompileError::new(cat4("cannot convert ", f.as_str(), " to ", t.as_str()), span))
    }

    /// Whether an integer literal fits the integer type it is declared with;
    /// any other type accepts it.
    pub fn check_int_literal_range(n: i128, ty: &Type, name: &str, span: Span) -> (r: Result<(), CompileError>)
        ensures
            match int_bounds(ty@) {
                Some(b) => (r is Ok <==> b.0 <= n <= b.1),
                None => r is Ok,
            },
            r matches Err(e) ==> e.message@ == "integer literal "@ + signed_decimal(n as int) + " out of range for "@
                + type_display(ty@) + " in '"@ + name@ + "'"@ && e.span == span,
    {
        let (min, max): (i128, i128) = match ty {
            Type::I8 => (-128, 127),
            Type::I16 => (-32768, 32767),
            Type::I32 => (-2147483648, 2147483647),
            Type::I64 => (-9223372036854775808, 9223372036854775807),
            Type::U8 => (0, 255),
            Type::U16 => (0, 65535),
            Type::U32 => (0, 4294967295),
            Type::U64 => (0, 18446744073709551615),
            _ => {
                return Ok(());
            },
        };
        if n < min || n > max {
            let num = i128_to_string(n);
            let tn = ty.display_name();
            let msg = cat6("integer literal ", num.as_str(), " out of range for ", tn.as_str(), " in '", name);
            let msg = cat2(msg.as_str(), "'");
            return Err(CompileError::new(msg, span));
        }
        Ok(())
    }

    /// The element type of `obj[idx]`.
    pub fn get_index_type(&self, obj_ty: &Type, idx_ty: &Type, span: Span) -> (r: Result<Type, CompileError>)
        ensures
            match r {
                Ok(t) => index_type(self.type_info, obj_ty@, idx_ty@) == Some(t@),
                Err(e) => index_type(self.type_info, obj_ty@, idx_ty@) is None
                    && e.message@ == index_message(obj_ty@, idx_ty@) && e.span == span,
            },
    {
        match obj_ty {
            Type::Array(elem) => {
                if !idx_ty.is_integer() {
                    let i = idx_ty.display_name();
                    return Err(CompileError::new(cat2("array index must be integer, got ", i.as_str()), span));
                }
                Ok(elem.deep_clone())
            },
            Type::MapOf(k, v) => {
                if !self.is_assignable(idx_ty, k) {
                    let ks = k.display_name();
                    let i = idx_ty.display_name();
                    return Err(
                        CompileError::new(cat4("map key type mismatch: expected ", ks.as_str(), ", got ", i.as_str()), span),
                    );
                }
                Ok(v.deep_clone())
            },
            _ => {
                let o = obj_ty.display_name();
                Err(CompileError::new(cat2("cannot index into ", o.as_str()), span))
            },
        }
    }

    /// The type of field `field` of a value of type `ty`.
    pub fn get_field_type(&self, ty: &Type, field: &str, span: Span) -> (r: Result<Type, CompileError>)
        ensures
            match ty@ {
                TypeView::Struct(n) => match r {
                    Ok(t) => struct_field_type(self.type_info, n, field@) == Some(t@),
                    Err(e) => struct_field_type(self.type_info, n, field@) is None && suggestion_text(
                        "unknown field '"@ + field@ + "' on "@ + n,
                        field@,
                        local_field_names(self.type_info, n),
                        e.message@,
                    ) && e.span == span,
                },
                _ => r matches Err(e) && e.message@ == "cannot access field '"@ + field@ + "' on "@ + type_display(ty@)
                    && e.span == span,
            },
    {
        match ty {
            Type::Struct(name) => {
                match self.type_info.structs.get(name.as_str()) {
                    Some(info) => match first_field(&info.fields, field) {
                        Some(t) => {
                            return Ok(t);
                        },
                        None => {},
                    },
                    None => {},
                }
                let nc = chars_of(name.as_str());
                proof {
                    lemma_first_dot(name@);
                }
                let nlen = nc.len();
                if let Some(d) = find_dot(&nc) {
                    assert(d < nlen);
                    let m = string_of_range(&nc, 0, d);
                    let s = string_of_range(&nc, d + 1, nlen);
                    assert(m@ == name@.take(first_dot(name@)));
                    assert(s@ == name@.skip(first_dot(name@) + 1));
                    match self.type_info.modules.get(m.as_str()) {
                        Some(mi) => match mi.structs.get(s.as_str()) {
                            Some(si) => match first_field(&si.fields, field) {
                                Some(t) => {
                                    return Ok(t);
                                },
                                None => {},
                            },
                            None => {},
                        },
                        None => {},
                    }
                }
                let mut cands: Vec<String> = Vec::new();
                match self.type_info.structs.get(name.as_str()) {
                    Some(info) => {
                        cands = names_of_fields(&info.fields);
                    },
                    None => {},
                }
                let base = cat4("unknown field '", field, "' on ", name.as_str());
                let msg = super::resolve::with_suggestion(base.as_str(), field, &cands);
                Err(CompileError::new(msg, span))
            },
            _ => {
                let t = ty.display_name();
                Err(CompileError::new(cat4("cannot access field '", field, "' on ", t.as_str()), span))
            },
        }
    }
}

/// The type of the first field named `f`.
pub fn first_field(fields: &Vec<(String, Type)>, f: &str) -> (r: Option<Type>)
    ensures
        match r {
            Some(t) => find_field(fields@, f@) == Some(t@),
            None => find_field(fields@, f@) is None,
        },
{
    let mut i: usize = 0;
    assert(fields@.skip(0) =~= fields@);
    while i < fields.len()
        invariant
            i <= fields@.len(),
            find_field(fields@, f@) == find_field(fields@.skip(i as int), f@),
        decreases fields.len() - i,
    {
        assert(fields@.skip(i as int)[0] == fields@[i as int]);
        assert(fields@.skip(i as int).drop_first() =~= fields@.skip(i + 1));
        if str_eq(fields[i].0.as_str(), f) {
            return Some(fields[i].1.deep_clone());
        }
        i = i + 1;
    }
    None
}

/// The names of a list of fields, in order.
pub fn names_of_fields(fields: &Vec<(String, Type)>) -> (names: Vec<String>)
    ensures
        views_of(names@) == field_names(fields@),
{
    let mut names: Vec<String> = Vec::new();
    let mut i: usize = 0;
    while i < fields.len()
        invariant
            i <= fields@.len(),
            views_of(names@) == field_names(fields@.take(i as int)),
        decreases fields.len() - i,
    {
        let n = fields[i].0.clone();
        assert(n@ == fields@[i as int].0@);
        let ghost before = names@;
        names.push(n);
        assert(views_of(names@) =~= views_of(before).push(n@));
        assert(field_names(fields@.take(i + 1)) =~= field_names(fields@.take(i as int)).push(fields@[i as int].0@));
        assert(views_of(names@) =~= field_names(fields@.take(i + 1)));
        i = i + 1;
    }
    assert(fields@.take(i as int) =~= fields@);
    names
}

/// The position of the first '.' in `v`.
pub fn find_dot(v: &Vec<char>) -> (r: Option<usize>)
    ensures
        match r {
            Some(k) => first_dot(v@) == k,
            None => first_dot(v@) < 0,
        },
{
    let mut i: usize = 0;
    assert(v@.skip(0) =~= v@);
    while i < v.len()
        invariant
            i <= v@.len(),
            first_dot(v@) == if first_dot(v@.skip(i as int)) < 0 { -1 } else { first_dot(v@.skip(i as int)) + i },
        decreases v.len() - i,
    {
        assert(v@.skip(i as int)[0] == v@[i as int]);
        assert(v@.skip(i as int).drop_first() =~= v@.skip(i + 1));
        if v[i] == '.' {
            return Some(i);
        }
        i = i + 1;
    }
    assert(v@.skip(i as int).len() == 0);
    None
}

} // verus!
