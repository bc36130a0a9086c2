//! The built-in methods of strings, arrays, maps and capabilities, and the
//! lookup of methods declared on structs and enums.
use vstd::prelude::*;
use crate::ast::Span;
use crate::error::CompileError;
use crate::text::{cat2, cat3, cat4, str_eq};
use super::{Type, TypeView, TypeInfo, TypedExpr, type_display, views, list_of};
use super::checker::{TypeChecker, assignable};

verus! {

/// " takes N argument(s)" for the arities the built-in methods have.
pub open spec fn arity_text(n: nat) -> Seq<char> {
    if n == 0 {
        " takes 0 arguments"@
    } else if n == 1 {
        " takes 1 argument"@
    } else {
        " takes 2 arguments"@
    }
}

/// The outcome of calling a method of fixed arity with `nargs` arguments.
pub open spec fn by_signature(sig: Option<(nat, TypeView)>, m: Seq<char>, nargs: nat, unknown: Seq<char>) -> Result<
    TypeView,
    Seq<char>,
> {
    match sig {
        Some(s) => if nargs == s.0 {
            Ok(s.1)
        } else {
            Err(m + arity_text(s.0))
        },
        None => Err(unknown),
    }
}

/// Arity and result type of the string methods.
pub open spec fn string_method_sig(m: Seq<char>) -> Option<(nat, TypeView)> {
    if m == "split"@ {
        Some((1, TypeView::Array(Box::new(TypeView::String))))
    } else if m == "trim"@ || m == "trim_start"@ || m == "trim_end"@ || m == "upper"@ || m == "lower"@ {
        Some((0, TypeView::String))
    } else if m == "replace"@ {
        Some((2, TypeView::String))
    } else if m == "find"@ {
        Some((1, TypeView::Optional(Box::new(TypeView::I64))))
    } else if m == "substring"@ {
        Some((2, TypeView::String))
    } else if m == "starts_with"@ || m == "ends_with"@ || m == "contains"@ {
        Some((1, TypeView::Bool))
    } else if m == "repeat"@ || m == "char_at"@ {
        Some((1, TypeView::String))
    } else if m == "index_of"@ || m == "last_index_of"@ {
        Some((1, TypeView::I64))
    } else if m == "slice"@ {
        Some((2, TypeView::String))
    } else if m == "chars"@ {
        Some((0, TypeView::Array(Box::new(TypeView::String))))
    } else if m == "bytes"@ {
        Some((0, TypeView::Array(Box::new(TypeView::I64))))
    } else {
        None
    }
}

/// Arity and result type of the map methods.
pub open spec fn map_method_sig(m: Seq<char>, k: TypeView, v: TypeView) -> Option<(nat, TypeView)> {
    if m == "get"@ {
        Some((1, TypeView::Optional(Box::new(v))))
    } else if m == "contains_key"@ {
        Some((1, TypeView::Bool))
    } else if m == "keys"@ {
        Some((0, TypeView::Array(Box::new(k))))
    } else if m == "values"@ {
        Some((0, TypeView::Array(Box::new(v))))
    } else if m == "remove"@ {
        Some((1, TypeView::Nil))
    } else if m == "clone"@ {
        Some((0, TypeView::MapOf(Box::new(k), Box::new(v))))
    } else {
        None
    }
}

/// Arity and result type of the methods of the fixed-arity capability methods.
pub open spec fn capability_method_sig(cap: Seq<char>, m: Seq<char>) -> Option<(nat, TypeView)> {
    if cap == "Stdout"@ {
        if m == "println"@ || m == "print"@ {
            Some((1, TypeView::Nil))
        } else if m == "flush"@ {
            Some((0, TypeView::Nil))
        } else {
            None
        }
    } else if cap == "Stdin"@ {
        if m == "read_line"@ || m == "read_key"@ {
            Some((0, TypeView::String))
        } else {
            None
        }
    } else if cap == "Fs"@ {
        if m == "read_file"@ {
            Some((1, TypeView::Result(Box::new(TypeView::String), Box::new(TypeView::String))))
        } else if m == "write_file"@ {
            Some((2, TypeView::Result(Box::new(TypeView::Nil), Box::new(TypeView::String))))
        } else if m == "read_dir"@ {
            Some(
                (
                    1,
                    TypeView::Result(
                        Box::new(TypeView::Array(Box::new(TypeView::String))),
                        Box::new(TypeView::String),
                    ),
                ),
            )
        } else if m == "exists"@ || m == "is_dir"@ {
            Some((1, TypeView::Bool))
        } else if m == "mkdir"@ {
            Some((1, TypeView::Result(Box::new(TypeView::Nil), Box::new(TypeView::String))))
        } else if m == "extension"@ || m == "stem"@ {
            Some((1, TypeView::Optional(Box::new(TypeView::String))))
        } else {
            None
        }
    } else if cap == "Env"@ {
        if m == "args"@ {
            Some((0, TypeView::Array(Box::new(TypeView::String))))
        } else if m == "get"@ {
            Some((1, TypeView::Optional(Box::new(TypeView::String))))
        } else {
            None
        }
    } else if cap == "Highlight"@ {
        if m == "code"@ || m == "inline"@ {
            Some((2, TypeView::String))
        } else {
            None
        }
    } else {
        None
    }
}

pub open spec fn known_capability(cap: Seq<char>) -> bool {
    cap == "Stdout"@ || cap == "Stdin"@ || cap == "Fs"@ || cap == "Env"@ || cap == "Highlight"@
}

/// The result of calling method `m` on capability `cap` with `nargs` arguments.
pub open spec fn capability_method(cap: Seq<char>, m: Seq<char>, nargs: nat) -> Result<TypeView, Seq<char>> {
    if !known_capability(cap) {
        Err("unknown capability '"@ + cap + "'"@)
    } else if cap == "Fs"@ && m == "join"@ {
        if nargs == 0 {
            Err("join takes at least 1 argument"@)
        } else {
            Ok(TypeView::String)
        }
    } else {
        by_signature(capability_method_sig(cap, m), m, nargs, "unknown method '"@ + m + "' on "@ + cap)
    }
}

/// The types of a list of checked expressions.
pub open spec fn arg_types(args: Seq<TypedExpr>) -> Seq<TypeView> {
    Seq::new(args.len(), |i: int| args[i].ty@)
}

/// The result of a method taking one callback (`map`, `filter`, `find`,
/// `any`, `all`), given the callback's type and the result when it fits.
pub open spec fn callback_method(m: Seq<char>, cb: TypeView, needs_bool: bool, result: TypeView) -> Result<TypeView, Seq<char>> {
    match cb {
        TypeView::Function(ps, ret) => if ps.len() != 1 {
            Err(m + " callback must take 1 argument"@)
        } else if needs_bool && *ret != TypeView::Bool {
            Err(m + " callback must return bool"@)
        } else {
            Ok(result)
        },
        _ => Err(m + " argument must be a function"@),
    }
}

/// The result of calling array method `m` on an array of `elem`.
pub open spec fn array_method(info: TypeInfo, elem: TypeView, m: Seq<char>, args: Seq<TypeView>) -> Result<TypeView, Seq<char>> {
    let n = args.len();
    if m == "push"@ {
        if n != 1 {
            Err("push takes 1 argument"@)
        } else if !assignable(info, args[0], elem) {
            Err("push type mismatch: array is ["@ + type_display(elem) + "], got "@ + type_display(args[0]))
        } else {
            Ok(TypeView::Nil)
        }
    } else if m == "pop"@ {
        by_signature(Some((0, elem)), m, n, Seq::empty())
    } else if m == "insert"@ {
        by_signature(Some((2, TypeView::Nil)), m, n, Seq::empty())
    } else if m == "remove"@ {
        by_signature(Some((1, TypeView::Nil)), m, n, Seq::empty())
    } else if m == "sort"@ || m == "reverse"@ {
        by_signature(Some((0, TypeView::Nil)), m, n, Seq::empty())
    } else if m == "join"@ {
        by_signature(Some((1, TypeView::String)), m, n, Seq::empty())
    } else if m == "contains"@ {
        by_signature(Some((1, TypeView::Bool)), m, n, Seq::empty())
    } else if m == "clone"@ {
        by_signature(Some((0, TypeView::Array(Box::new(elem)))), m, n, Seq::empty())
    } else if m == "map"@ {
        if n != 1 {
            Err(m + " takes 1 argument"@)
        } else {
            match args[0] {
                TypeView::Function(ps, ret) => callback_method(m, args[0], false, TypeView::Array(ret)),
                _ => callback_method(m, args[0], false, TypeView::Nil),
            }
        }
    } else if m == "filter"@ {
        if n != 1 {
            Err(m + " takes 1 argument"@)
        } else {
            callback_method(m, args[0], true, TypeView::Array(Box::new(elem)))
        }
    } else if m == "find"@ {
        if n != 1 {
            Err(m + " takes 1 argument"@)
        } else {
            callback_method(m, args[0], true, TypeView::Optional(Box::new(elem)))
        }
    } else if m == "any"@ || m == "all"@ {
        if n != 1 {
            Err(m + " takes 1 argument"@)
        } else {
            callback_method(m, args[0], true, TypeView::Bool)
        }
    } else {
        Err("unknown array method '"@ + m + "'"@)
    }
}

/// `sig` as a view.
pub open spec fn sig_view(sig: Option<(usize, Type)>) -> Option<(nat, TypeView)> {
    match sig {
        Some(s) => Some((s.0 as nat, s.1@)),
        None => None,
    }
}

/// The error for a method called with the wrong number of arguments.
fn arity_error(m: &str, arity: usize, span: Span) -> (e: CompileError)
    requires
        arity <= 2,
    ensures
        e.message@ == m@ + arity_text(arity as nat),
        e.span == span,
{
    let msg = if arity == 0 {
        cat2(m, " takes 0 arguments")
    } else if arity == 1 {
        cat2(m, " takes 1 argument")
    } else {
        cat2(m, " takes 2 arguments")
    };
    CompileError::new(msg, span)
}

/// Applies a fixed signature to a call with `nargs` arguments.
fn apply_signature(sig: Option<(usize, Type)>, m: &str, nargs: usize, unknown: String, span: Span) -> (r: Result<Type, CompileError>)
    requires
        sig matches Some(s) ==> s.0 <= 2,
    ensures
        match by_signature(sig_view(sig), m@, nargs as nat, unknown@) {
            Ok(t) => r matches Ok(u) && u@ == t,
            Err(msg) => r matches Err(e) && e.message@ == msg && e.span == span,
        },
{
    match sig {
        Some((arity, t)) => if nargs == arity {
            Ok(t)
        } else {
            Err(arity_error(m, arity, span))
        },
        None => Err(CompileError::new(unknown, span)),
    }
}

pub fn string_method_signature(m: &str) -> (r: Option<(usize, Type)>)
    ensures
        sig_view(r) == string_method_sig(m@),
        r matches Some(s) ==> s.0 <= 2,
{
    if str_eq(m, "split") {
        Some((1, Type::array_of(Type::String)))
    } else if str_eq(m, "trim") || str_eq(m, "trim_start") || str_eq(m, "trim_end") || str_eq(m, "upper") || str_eq(
        m,
        "lower",
    ) {
        Some((0, Type::String))
    } else if str_eq(m, "replace") {
        Some((2, Type::String))
    } else if str_eq(m, "find") {
        Some((1, Type::optional_of(Type::I64)))
    } else if str_eq(m, "substring") {
        Some((2, Type::String))
    } else if str_eq(m, "starts_with") || str_eq(m, "ends_with") || str_eq(m, "contains") {
        Some((1, Type::Bool))
    } else if str_eq(m, "repeat") || str_eq(m, "char_at") {
        Some((1, Type::String))
    } else if str_eq(m, "index_of") || str_eq(m, "last_index_of") {
        Some((1, Type::I64))
    } else if str_eq(m, "slice") {
        Some((2, Type::String))
    } else if str_eq(m, "chars") {
        Some((0, Type::array_of(Type::String)))
    } else if str_eq(m, "bytes") {
        Some((0, Type::array_of(Type::I64)))
    } else {
        None
    }
}

pub fn map_method_signature(m: &str, k: &Type, v: &Type) -> (r: Option<(usize, Type)>)
    ensures
        sig_view(r) == map_method_sig(m@, k@, v@),
        r matches Some(s) ==> s.0 <= 2,
{
    if str_eq(m, "get") {
        Some((1, Type::Optional(Box::new(v.deep_clone()))))
    } else if str_eq(m, "contains_key") {
        Some((1, Type::Bool))
    } else if str_eq(m, "keys") {
        Some((0, Type::Array(Box::new(k.deep_clone()))))
    } else if str_eq(m, "values") {
        Some((0, Type::Array(Box::new(v.deep_clone()))))
    } else if str_eq(m, "remove") {
        Some((1, Type::Nil))
    } else if str_eq(m, "clone") {
        Some((0, Type::MapOf(Box::new(k.deep_clone()), Box::new(v.deep_clone()))))
    } else {
        None
    }
}

pub fn capability_method_signature(cap: &str, m: &str) -> (r: Option<(usize, Type)>)
    ensures
        sig_view(r) == capability_method_sig(cap@, m@),
        r matches Some(s) ==> s.0 <= 2,
{
    if str_eq(cap, "Stdout") {
        if str_eq(m, "println") || str_eq(m, "print") {
            Some((1, Type::Nil))
        } else if str_eq(m, "flush") {
            Some((0, Type::Nil))
        } else {
            None
        }
    } else if str_eq(cap, "Stdin") {
        if str_eq(m, "read_line") || str_eq(m, "read_key") {
            Some((0, Type::String))
        } else {
            None
        }
    } else if str_eq(cap, "Fs") {
        if str_eq(m, "read_file") {
            Some((1, Type::result_of(Type::String, Type::String)))
        } else if str_eq(m, "write_file") {
            Some((2, Type::result_of(Type::Nil, Type::String)))
        } else if str_eq(m, "read_dir") {
            Some((1, Type::result_of(Type::array_of(Type::String), Type::String)))
        } else if str_eq(m, "exists") || str_eq(m, "is_dir") {
            Some((1, Type::Bool))
        } else if str_eq(m, "mkdir") {
            Some((1, Type::result_of(Type::Nil, Type::String)))
        } else if str_eq(m, "extension") || str_eq(m, "stem") {
            Some((1, Type::optional_of(Type::String)))
        } else {
            None
        }
    } else if str_eq(cap, "Env") {
        if str_eq(m, "args") {
            Some((0, Type::array_of(Type::String)))
        } else if str_eq(m, "get") {
            Some((1, Type::optional_of(Type::String)))
        } else {
            None
        }
    } else if str_eq(cap, "Highlight") {
        if str_eq(m, "code") || str_eq(m, "inline") {
            Some((2, Type::String))
        } else {
            None
        }
    } else {
        None
    }
}

impl TypeChecker {
    /// The result type of a string method called with `nargs` arguments.
    pub fn check_string_method(&self, method: &str, nargs: usize, span: Span) -> (r: Result<Type, CompileError>)
        ensures
            match by_signature(string_method_sig(method@), method@, nargs as nat, "unknown string method '"@ + method@ + "'"@) {
                Ok(t) => r matches Ok(u) && u@ == t,
                Err(msg) => r matches Err(e) && e.message@ == msg && e.span == span,
            },
    {
        let sig = string_method_signature(method);
        apply_signature(sig, method, nargs, cat3("unknown string method '", method, "'"), span)
    }

    /// The result type of a map method called with `nargs` arguments.
    pub fn check_map_method(&self, key_ty: &Type, val_ty: &Type, method: &str, nargs: usize, span: Span) -> (r: Result<
        Type,
        CompileError,
    >)
        ensures
            match by_signature(map_method_sig(method@, key_ty@, val_ty@), method@, nargs as nat, "unknown map method '"@ + method@ + "'"@) {
                Ok(t) => r matches Ok(u) && u@ == t,
                Err(msg) => r matches Err(e) && e.message@ == msg && e.span == span,
            },
    {
        let sig = map_method_signature(method, key_ty, val_ty);
        apply_signature(sig, method, nargs, cat3("unknown map method '", method, "'"), span)
    }

    /// The result type of a capability method called with `nargs` arguments.
    pub fn check_capability_method(&self, cap: &str, method: &str, nargs: usize, span: Span) -> (r: Result<Type, CompileError>)
        ensures
            match capability_method(cap@, method@, nargs as nat) {
                Ok(t) => r matches Ok(u) && u@ == t,
                Err(msg) => r matches Err(e) && e.message@ == msg && e.span == span,
            },
    {
        if !(str_eq(cap, "Stdout") || str_eq(cap, "Stdin") || str_eq(cap, "Fs") || str_eq(cap, "Env") || str_eq(
            cap,
            "Highlight",
        )) {
            return Err(CompileError::new(cat3("unknown capability '", cap, "'"), span));
        }
        if str_eq(cap, "Fs") && str_eq(method, "join") {
            if nargs == 0 {
                return Err(CompileError::new(String::from_str("join takes at least 1 argument"), span));
            }
            return Ok(Type::String);
        }
        let sig = capability_method_signature(cap, method);
        apply_signature(sig, method, nargs, cat4("unknown method '", method, "' on ", cap), span)
    }

    /// The result type of an array method, given the argument types.
    pub fn check_array_method(&self, elem_ty: &Type, method: &str, args: &Vec<TypedExpr>, span: Span) -> (r: Result<
        Type,
        CompileError,
    >)
        ensures
            match array_method(self.type_info, elem_ty@, method@, arg_types(args@)) {
                Ok(t) => r matches Ok(u) && u@ == t,
                Err(msg) => r matches Err(e) && e.message@ == msg && e.span == span,
            },
    {
        let n = args.len();
        let ghost ats = arg_types(args@);
        if str_eq(method, "push") {
            if n != 1 {
                return Err(CompileError::new(String::from_str("push takes 1 argument"), span));
            }
            assert(ats[0] == args@[0].ty@);
            if !self.is_assignable(&args[0].ty, elem_ty) {
                let e = elem_ty.display_name();
                let a = args[0].ty.display_name();
                return Err(CompileError::new(cat4("push type mismatch: array is [", e.as_str(), "], got ", a.as_str()), span));
            }
            return Ok(Type::Nil);
        }
        let fixed: Option<(usize, Type)> = if str_eq(method, "pop") {
            Some((0, elem_ty.deep_clone()))
        } else if str_eq(method, "insert") {
            Some((2, Type::Nil))
        } else if str_eq(method, "remove") {
            Some((1, Type::Nil))
        } else if str_eq(method, "sort") || str_eq(method, "reverse") {
            Some((0, Type::Nil))
        } else if str_eq(method, "join") {
            Some((1, Type::String))
        } else if str_eq(method, "contains") {
            Some((1, Type::Bool))
        } else if str_eq(method, "clone") {
            Some((0, Type::Array(Box::new(elem_ty.deep_clone()))))
        } else {
            None
        };
        if fixed.is_some() {
            return apply_signature(fixed, method, n, String::new(), span);
        }
        let is_map = str_eq(method, "map");
        let is_filter = str_eq(method, "filter");
        let is_find = str_eq(method, "find");
        let is_any_all = str_eq(method, "any") || str_eq(method, "all");
        if !(is_map || is_filter || is_find || is_any_all) {
            return Err(CompileError::new(cat3("unknown array method '", method, "'"), span));
        }
        if n != 1 {
            return Err(CompileError::new(cat2(method, " takes 1 argument"), span));
        }
        assert(ats[0] == args@[0].ty@);
        match &args[0].ty {
            Type::Function(ps, ret) => {
                proof {
                    assert(list_of(args@[0].ty@) =~= views(ps@));
                }
                if ps.len() != 1 {
                    return Err(CompileError::new(cat2(method, " callback must take 1 argument"), span));
                }
                if is_map {
                    return Ok(Type::Array(Box::new(ret.deep_clone())));
                }
                let rv: &Type = ret;
                assert(args@[0].ty@ == TypeView::Function(views(ps@), Box::new(rv@)));
                if !matches!(*rv, Type::Bool) {
                    return Err(CompileError::new(cat2(method, " callback must return bool"), span));
                }
                if is_filter {
                    Ok(Type::Array(Box::new(elem_ty.deep_clone())))
                } else if is_find {
                    Ok(Type::Optional(Box::new(elem_ty.deep_clone())))
                } else {
                    Ok(Type::Bool)
                }
            },
            _ => Err(CompileError::new(cat2(method, " argument must be a function"), span)),
        }
    }
}

} // verus!
