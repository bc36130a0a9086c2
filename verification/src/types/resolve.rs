//! From written types (`TypeExpr`) to checked types (`Type`): built-in
//! names, registered structs, enums and aliases, module-qualified names,
//! and the composite forms.
use vstd::prelude::*;
use crate::ast::TypeExpr;
use crate::error::CompileError;
use crate::text::{cat3, cat4, str_eq};
use super::{Type, TypeView, TypeInfo, views, list_of};
use super::checker::{TypeChecker, alias_view, table_keys};
use super::suggest::{suggest_similar, views_of, best_at, close_to};

verus! {

/// The type a plain name stands for.
pub open spec fn named_type(info: TypeInfo, n: Seq<char>) -> Option<TypeView> {
    if n == "i8"@ {
        Some(TypeView::I8)
    } else if n == "i16"@ {
        Some(TypeView::I16)
    } else if n == "i32"@ {
        Some(TypeView::I32)
    } else if n == "i64"@ {
        Some(TypeView::I64)
    } else if n == "u8"@ {
        Some(TypeView::U8)
    } else if n == "u16"@ {
        Some(TypeView::U16)
    } else if n == "u32"@ {
        Some(TypeView::U32)
    } else if n == "u64"@ {
        Some(TypeView::U64)
    } else if n == "f64"@ {
        Some(TypeView::F64)
    } else if n == "bool"@ {
        Some(TypeView::Bool)
    } else if n == "string"@ {
        Some(TypeView::String)
    } else if n == "nil"@ {
        Some(TypeView::Nil)
    } else if n == "Stdout"@ || n == "Stdin"@ || n == "Fs"@ || n == "Env"@ || n == "Highlight"@ {
        Some(TypeView::Capability(n))
    } else if alias_view(info, n) is Some {
        alias_view(info, n)
    } else if info.structs.get_spec(n) is Some {
        Some(TypeView::Struct(n))
    } else if info.enums.get_spec(n) is Some {
        Some(TypeView::Enum(n))
    } else {
        None
    }
}

/// The names of all registered structs, enums and aliases, in that order.
pub open spec fn type_names(info: TypeInfo) -> Seq<Seq<char>> {
    table_keys(info.structs.entries@) + table_keys(info.enums.entries@) + table_keys(info.aliases.entries@)
}

/// `msg` is `base`, followed by a suggestion of the closest of `cands` to
/// `name` when there is one close enough.
pub open spec fn suggestion_text(base: Seq<char>, name: Seq<char>, cands: Seq<Seq<char>>, msg: Seq<char>) -> bool {
    ||| (forall|i: int| 0 <= i < cands.len() ==> !close_to(name, #[trigger] cands[i])) && msg == base
    ||| exists|i: int| best_at(name, cands, i) && msg == base + "; did you mean '"@ + cands[i] + "'?"@
}

/// `base`, followed by "; did you mean 'x'?" for the closest candidate, if any.
pub fn with_suggestion(base: &str, name: &str, cands: &Vec<String>) -> (msg: String)
    ensures
        suggestion_text(base@, name@, views_of(cands@), msg@),
{
    match suggest_similar(name, cands) {
        Some(s) => {
            let msg = cat4(base, "; did you mean '", s.as_str(), "'?");
            proof {
                let i = choose|i: int| best_at(name@, views_of(cands@), i) && s@ == cands@[i]@;
                assert(views_of(cands@)[i] == s@);
            }
            msg
        },
        None => {
            assert forall|i: int| 0 <= i < views_of(cands@).len() implies !close_to(name@, #[trigger] views_of(cands@)[i]) by {
                assert(views_of(cands@)[i] == cands@[i]@);
            }
            base.to_string()
        },
    }
}

/// The members of a union with nested unions spliced in.
pub open spec fn flattened(rs: Seq<TypeView>) -> Seq<TypeView>
    decreases rs.len(),
{
    if rs.len() == 0 {
        Seq::empty()
    } else {
        flattened(rs.drop_last()) + match rs.last() {
            TypeView::Union(inner) => inner,
            other => seq![other],
        }
    }
}

/// A sequence with later repetitions of a member dropped.
pub open spec fn deduped(s: Seq<TypeView>) -> Seq<TypeView>
    decreases s.len(),
{
    if s.len() == 0 {
        s
    } else {
        let d = deduped(s.drop_last());
        if d.contains(s.last()) {
            d
        } else {
            d.push(s.last())
        }
    }
}

/// The union of the given member types: nested unions spliced in,
/// repetitions dropped, and a lone member standing for itself.
pub open spec fn union_of(rs: Seq<TypeView>) -> TypeView {
    let d = deduped(flattened(rs));
    if d.len() == 1 {
        d[0]
    } else {
        TypeView::Union(d)
    }
}

/// The type a module-qualified name `m.n` stands for.
pub open spec fn qualified_type(info: TypeInfo, m: Seq<char>, n: Seq<char>) -> Option<TypeView> {
    match info.modules.get_spec(m) {
        Some(mi) => if mi.structs.get_spec(n) is Some {
            Some(TypeView::Struct(m + "."@ + n))
        } else if mi.enums.get_spec(n) is Some {
            Some(TypeView::Enum(m + "."@ + n))
        } else {
            match mi.aliases.get_spec(n) {
                Some(a) => Some(a@),
                None => None,
            }
        },
        None => None,
    }
}

/// The type that `Self` stands for inside the definition of `cur`.
pub open spec fn self_type(info: TypeInfo, cur: Option<String>) -> Option<TypeView> {
    match cur {
        Some(n) => if info.structs.get_spec(n@) is Some {
            Some(TypeView::Struct(n@))
        } else if info.enums.get_spec(n@) is Some {
            Some(TypeView::Enum(n@))
        } else {
            None
        },
        None => None,
    }
}

/// The checked type a written type stands for, if it is valid, inside
/// module `module` (where a plain name, at any depth, first means a struct or
/// enum of that module) or at the top level.
pub open spec fn type_of_expr_in(info: TypeInfo, cur: Option<String>, module: Option<Seq<char>>, t: TypeExpr) -> Option<TypeView>
    decreases t,
{
    match t {
        TypeExpr::Named(n) => match module {
            Some(m) => if info.structs.get_spec(m + "."@ + n@) is Some {
                Some(TypeView::Struct(m + "."@ + n@))
            } else if info.enums.get_spec(m + "."@ + n@) is Some {
                Some(TypeView::Enum(m + "."@ + n@))
            } else {
                named_type(info, n@)
            },
            None => named_type(info, n@),
        },
        TypeExpr::Qualified(m, n) => qualified_type(info, m@, n@),
        TypeExpr::Array(inner) => match type_of_expr_in(info, cur, module, *inner) {
            Some(v) => Some(TypeView::Array(Box::new(v))),
            None => None,
        },
        TypeExpr::MapOf(k, v) => match (type_of_expr_in(info, cur, module, *k), type_of_expr_in(info, cur, module, *v)) {
            (Some(a), Some(b)) => Some(TypeView::MapOf(Box::new(a), Box::new(b))),
            _ => None,
        },
        TypeExpr::Tuple(ts) => match types_of_list_in(info, cur, module, ts@) {
            Some(vs) => Some(TypeView::Tuple(vs)),
            None => None,
        },
        TypeExpr::Optional(inner) => match type_of_expr_in(info, cur, module, *inner) {
            Some(v) => if v is Optional {
                None
            } else {
                Some(TypeView::Optional(Box::new(v)))
            },
            None => None,
        },
        TypeExpr::Result(ok, err) => match type_of_expr_in(info, cur, module, *ok) {
            Some(a) => match type_of_expr_in(info, cur, module, *err) {
                Some(b) => if a is Optional || b is Optional {
                    None
                } else {
                    Some(TypeView::Result(Box::new(a), Box::new(b)))
                },
                None => None,
            },
            None => None,
        },
        TypeExpr::Function(ps, r) => match types_of_list_in(info, cur, module, ps@) {
            Some(vs) => match type_of_expr_in(info, cur, module, *r) {
                Some(rv) => Some(TypeView::Function(vs, Box::new(rv))),
                None => None,
            },
            None => None,
        },
        TypeExpr::Union(ms) => match types_of_list_in(info, cur, module, ms@) {
            Some(vs) => Some(union_of(vs)),
            None => None,
        },
        TypeExpr::SelfType => self_type(info, cur),
    }
}

/// The checked types of a list of written types, if all are valid, inside `module`.
pub open spec fn types_of_list_in(info: TypeInfo, cur: Option<String>, module: Option<Seq<char>>, ts: Seq<TypeExpr>) -> Option<Seq<TypeView>>
    decreases ts,
{
    if ts.len() == 0 {
        Some(Seq::empty())
    } else {
        match types_of_list_in(info, cur, module, ts.drop_last()) {
            Some(vs) => match type_of_expr_in(info, cur, module, ts.last()) {
                Some(v) => Some(vs.push(v)),
                None => None,
            },
            None => None,
        }
    }
}

/// A list with an invalid prefix is invalid.
pub proof fn lemma_types_of_list_prefix(info: TypeInfo, cur: Option<String>, module: Option<Seq<char>>, ts: Seq<TypeExpr>, n: int)
    requires
        0 <= n <= ts.len(),
        types_of_list_in(info, cur, module, ts.take(n)) is None,
    ensures
        types_of_list_in(info, cur, module, ts) is None,
    decreases ts.len() - n,
{
    if n < ts.len() {
        assert(ts.take(n + 1).drop_last() =~= ts.take(n));
        lemma_types_of_list_prefix(info, cur, module, ts, n + 1);
    } else {
        assert(ts.take(n) =~= ts);
    }
}

/// The checked type a written type stands for, if it is valid, at the top level.
pub open spec fn type_of_expr(info: TypeInfo, cur: Option<String>, t: TypeExpr) -> Option<TypeView> {
    type_of_expr_in(info, cur, None, t)
}

/// The checked types of a list of written types, if all are valid, at the top level.
pub open spec fn types_of_list(info: TypeInfo, cur: Option<String>, ts: Seq<TypeExpr>) -> Option<Seq<TypeView>> {
    types_of_list_in(info, cur, None, ts)
}

/// A module name given as an optional string, as a value.
pub open spec fn module_view(m: Option<&str>) -> Option<Seq<char>> {
    match m {
        Some(s) => Some(s@),
        None => None,
    }
}

impl TypeChecker {
    /// The type a plain name stands for: a built-in type, a capability, an
    /// alias, a struct or an enum, in that order of precedence.
    pub fn resolve_type_name(&self, name: &str) -> (r: Result<Type, CompileError>)
        ensures
            match r {
                Ok(t) => named_type(self.type_info, name@) == Some(t@),
                Err(e) => named_type(self.type_info, name@) is None
                    && suggestion_text("unknown type '"@ + name@ + "'"@, name@, type_names(self.type_info), e.message@)
                    && e.span.line == 0,
            },
    {
        if str_eq(name, "i8") {
            return Ok(Type::I8);
        }
        if str_eq(name, "i16") {
            return Ok(Type::I16);
        }
        if str_eq(name, "i32") {
            return Ok(Type::I32);
        }
        if str_eq(name, "i64") {
            return Ok(Type::I64);
        }
        if str_eq(name, "u8") {
            return Ok(Type::U8);
        }
        if str_eq(name, "u16") {
            return Ok(Type::U16);
        }
        if str_eq(name, "u32") {
            return Ok(Type::U32);
        }
        if str_eq(name, "u64") {
            return Ok(Type::U64);
        }
        if str_eq(name, "f64") {
            return Ok(Type::F64);
        }
        if str_eq(name, "bool") {
            return Ok(Type::Bool);
        }
        if str_eq(name, "string") {
            return Ok(Type::String);
        }
        if str_eq(name, "nil") {
            return Ok(Type::Nil);
        }
        if str_eq(name, "Stdout") || str_eq(name, "Stdin") || str_eq(name, "Fs") || str_eq(name, "Env")
            || str_eq(name, "Highlight") {
            return Ok(Type::Capability(name.to_string()));
        }
        match self.type_info.aliases.get(name) {
            Some(a) => {
                return Ok(a.deep_clone());
            },
            None => {},
        }
        if self.type_info.structs.contains_key(name) {
            return Ok(Type::Struct(name.to_string()));
        }
        if self.type_info.enums.contains_key(name) {
            return Ok(Type::Enum(name.to_string()));
        }
        let cands = self.type_name_list();
        let base = cat3("unknown type '", name, "'");
        let msg = with_suggestion(base.as_str(), name, &cands);
        Err(CompileError::bare(msg))
    }

    /// The names of all registered structs, enums and aliases.
    pub fn type_name_list(&self) -> (names: Vec<String>)
        ensures
            views_of(names@) == type_names(self.type_info),
    {
        let mut names: Vec<String> = Vec::new();
        push_keys(&mut names, &self.type_info.structs.entries);
        push_keys(&mut names, &self.type_info.enums.entries);
        push_keys(&mut names, &self.type_info.aliases.entries);
        names
    }

    /// The checked type a written type stands for.
    pub fn resolve_type_expr(&self, ty: &TypeExpr) -> (r: Result<Type, CompileError>)
        ensures
            match r {
                Ok(t) => type_of_expr(self.type_info, self.current_type_name, *ty) == Some(t@),
                Err(_) => type_of_expr(self.type_info, self.current_type_name, *ty) is None,
            },
    {
        self.resolve_type_in(ty, None)
    }

    /// The checked type a written type stands for inside `module` (or at
    /// the top level).
    fn resolve_type_in(&self, ty: &TypeExpr, module: Option<&str>) -> (r: Result<Type, CompileError>)
        ensures
            match r {
                Ok(t) => type_of_expr_in(self.type_info, self.current_type_name, module_view(module), *ty) == Some(t@),
                Err(_) => type_of_expr_in(self.type_info, self.current_type_name, module_view(module), *ty) is None,
            },
        decreases ty,
    {
        match ty {
            TypeExpr::Named(name) => {
                match module {
                    Some(m) => {
                        let qualified = cat3(m, ".", name.as_str());
                        if self.type_info.structs.contains_key(qualified.as_str()) {
                            return Ok(Type::Struct(qualified));
                        }
                        if self.type_info.enums.contains_key(qualified.as_str()) {
                            return Ok(Type::Enum(qualified));
                        }
                    },
                    None => {},
                }
                self.resolve_type_name(name.as_str())
            },
            TypeExpr::Qualified(module, name) => {
                match self.type_info.modules.get(module.as_str()) {
                    Some(mi) => {
                        if mi.structs.contains_key(name.as_str()) {
                            return Ok(Type::Struct(cat3(module.as_str(), ".", name.as_str())));
                        }
                        if mi.enums.contains_key(name.as_str()) {
                            return Ok(Type::Enum(cat3(module.as_str(), ".", name.as_str())));
                        }
                        match mi.aliases.get(name.as_str()) {
                            Some(a) => {
                                return Ok(a.deep_clone());
                            },
                            None => {},
                        }
                    },
                    None => {},
                }
                let msg = cat4("unknown type ", module.as_str(), ".", name.as_str());
                Err(CompileError::bare(msg))
            },
            TypeExpr::Array(inner) => {
                let t = match self.resolve_type_in(inner, module) {
                    Ok(v) => v,
                    Err(e) => {
                        return Err(e);
                    },
                };
                Ok(Type::Array(Box::new(t)))
            },
            TypeExpr::MapOf(k, v) => {
                let a = match self.resolve_type_in(k, module) {
                    Ok(v) => v,
                    Err(e) => {
                        return Err(e);
                    },
                };
                let b = match self.resolve_type_in(v, module) {
                    Ok(v) => v,
                    Err(e) => {
                        return Err(e);
                    },
                };
                Ok(Type::MapOf(Box::new(a), Box::new(b)))
            },
            TypeExpr::Tuple(ts) => {
                let vs = match self.resolve_type_list(ts, module) {
                    Ok(v) => v,
                    Err(e) => {
                        return Err(e);
                    },
                };
                let ghost vv = views(vs@);
                let r = Type::Tuple(vs);
                assert(list_of(r@) =~= vv);
                Ok(r)
            },
            TypeExpr::Optional(inner) => {
                let t = match self.resolve_type_in(inner, module) {
                    Ok(v) => v,
                    Err(e) => {
                        return Err(e);
                    },
                };
                if matches!(t, Type::Optional(_)) {
                    return Err(CompileError::bare(
                        String::from_str("double optional T?? is not allowed; T? already includes nil"),
                    ));
                }
                Ok(Type::Optional(Box::new(t)))
            },
            TypeExpr::Result(ok, err) => {
                let a = match self.resolve_type_in(ok, module) {
                    Ok(v) => v,
                    Err(e) => {
                        return Err(e);
                    },
                };
                let b = match self.resolve_type_in(err, module) {
                    Ok(v) => v,
                    Err(e) => {
                        return Err(e);
                    },
                };
                if matches!(a, Type::Optional(_)) {
                    return Err(CompileError::bare(
                        String::from_str("T?!E is not allowed; wrap in parentheses or restructure the type"),
                    ));
                }
                if matches!(b, Type::Optional(_)) {
                    return Err(CompileError::bare(
                        String::from_str("T!E? is not allowed; wrap in parentheses or restructure the type"),
                    ));
                }
                Ok(Type::Result(Box::new(a), Box::new(b)))
            },
            TypeExpr::Function(ps, ret) => {
                let vs = match self.resolve_type_list(ps, module) {
                    Ok(v) => v,
                    Err(e) => {
                        return Err(e);
                    },
                };
                let r = match self.resolve_type_in(ret, module) {
                    Ok(v) => v,
                    Err(e) => {
                        return Err(e);
                    },
                };
                let ghost vv = views(vs@);
                let f = Type::Function(vs, Box::new(r));
                assert(list_of(f@) =~= vv);
                Ok(f)
            },
            TypeExpr::Union(ms) => {
                let vs = match self.resolve_type_list(ms, module) {
                    Ok(v) => v,
                    Err(e) => {
                        return Err(e);
                    },
                };
                Ok(make_union(&vs))
            },
            TypeExpr::SelfType => {
                match &self.current_type_name {
                    Some(name) => {
                        if self.type_info.structs.contains_key(name.as_str()) {
                            return Ok(Type::Struct(name.clone()));
                        }
                        if self.type_info.enums.contains_key(name.as_str()) {
                            return Ok(Type::Enum(name.clone()));
                        }
                    },
                    None => {},
                }
                Err(CompileError::bare(String::from_str("Self used outside of type definition")))
            },
        }
    }

    /// The checked types of a list of written types, failing at the first invalid one.
    #[verifier::loop_isolation(false)]
    fn resolve_type_list(&self, ts: &Vec<TypeExpr>, module: Option<&str>) -> (r: Result<Vec<Type>, CompileError>)
        ensures
            match r {
                Ok(vs) => types_of_list_in(self.type_info, self.current_type_name, module_view(module), ts@) == Some(views(vs@)),
                Err(_) => types_of_list_in(self.type_info, self.current_type_name, module_view(module), ts@) is None,
            },
        decreases ts,
    {
        let mut out: Vec<Type> = Vec::new();
        let mut i: usize = 0;
        while i < ts.len()
            invariant
                i <= ts@.len(),
                types_of_list_in(self.type_info, self.current_type_name, module_view(module), ts@.take(i as int)) == Some(views(out@)),
            decreases ts.len() - i,
        {
            proof {
                assert(decreases_to!(*ts => ts@[i as int]));
            }
            assert(ts@.take(i + 1).drop_last() =~= ts@.take(i as int));
            assert(ts@.take(i + 1).last() == ts@[i as int]);
            match self.resolve_type_in(&ts[i], module) {
                Ok(t) => {
                    let ghost before = views(out@);
                    out.push(t);
                    assert(views(out@) =~= before.push(out@.last()@));
                },
                Err(e) => {
                    proof {
                        lemma_types_of_list_prefix(self.type_info, self.current_type_name, module_view(module), ts@, i + 1);
                    }
                    return Err(e);
                },
            }
            i = i + 1;
        }
        assert(ts@.take(i as int) =~= ts@);
        Ok(out)
    }

    /// Like `resolve_type_expr`, but a plain name, at any depth of the
    /// written type, first looks for a struct or enum registered as
    /// `module.name`.
    pub fn resolve_type_expr_in_module(&self, ty: &TypeExpr, module_name: &str) -> (r: Result<Type, CompileError>)
        ensures
            match r {
                Ok(t) => type_of_expr_in(self.type_info, self.current_type_name, Some(module_name@), *ty) == Some(t@),
                Err(_) => type_of_expr_in(self.type_info, self.current_type_name, Some(module_name@), *ty) is None,
            },
    {
        self.resolve_type_in(ty, Some(module_name))
    }
}

/// Appends the names of a table's entries.
fn push_keys<V>(names: &mut Vec<String>, entries: &Vec<(String, V)>)
    ensures
        views_of(final(names)@) == views_of(old(names)@) + table_keys(entries@),
{
    let ghost start = names@;
    let mut k: usize = 0;
    while k < entries.len()
        invariant
            k <= entries@.len(),
            views_of(names@) == views_of(start) + table_keys(entries@.take(k as int)),
        decreases entries.len() - k,
    {
        let n = entries[k].0.clone();
        assert(n@ == entries@[k as int].0@);
        assert(table_keys(entries@.take(k + 1)) =~= table_keys(entries@.take(k as int)).push(entries@[k as int].0@));
        let ghost before = names@;
        names.push(n);
        assert(views_of(names@) =~= views_of(before).push(n@));
        assert(views_of(names@) =~= views_of(start) + table_keys(entries@.take(k + 1)));
        k = k + 1;
    }
    assert(entries@.take(k as int) =~= entries@);
}

/// Whether a list of types has a member equal to `t`.
pub fn contains_type(ts: &Vec<Type>, t: &Type) -> (r: bool)
    ensures
        r == views(ts@).contains(t@),
{
    let mut i: usize = 0;
    while i < ts.len()
        invariant
            i <= ts@.len(),
            forall|j: int| 0 <= j < i ==> ts@[j]@ != t@,
        decreases ts.len() - i,
    {
        if ts[i].same(t) {
            assert(views(ts@)[i as int] == t@);
            return true;
        }
        i = i + 1;
    }
    assert forall|j: int| 0 <= j < views(ts@).len() implies views(ts@)[j] != t@ by {
        assert(views(ts@)[j] == ts@[j]@);
    }
    false
}

/// The union of the given member types: nested unions spliced in,
/// repetitions dropped, and a lone member standing for itself.
pub fn make_union(members: &Vec<Type>) -> (r: Type)
    ensures
        r@ == union_of(views(members@)),
{
    let ghost ms = views(members@);
    let mut flat: Vec<Type> = Vec::new();
    let mut i: usize = 0;
    while i < members.len()
        invariant
            i <= members@.len(),
            ms == views(members@),
            views(flat@) == flattened(ms.take(i as int)),
        decreases members.len() - i,
    {
        assert(ms.take(i + 1).drop_last() =~= ms.take(i as int));
        assert(ms.take(i + 1).last() == members@[i as int]@);
        let ghost before_f = views(flat@);
        match &members[i] {
            Type::Union(inner) => {
                let ghost iv = views(inner@);
                assert(list_of(members@[i as int]@) =~= iv);
                let mut j: usize = 0;
                while j < inner.len()
                    invariant
                        j <= inner@.len(),
                        iv == views(inner@),
                        views(flat@) == before_f + iv.take(j as int),
                    decreases inner.len() - j,
                {
                    let ghost bf = views(flat@);
                    flat.push(inner[j].deep_clone());
                    assert(views(flat@) =~= bf.push(iv[j as int]));
                    assert(iv.take(j + 1) =~= iv.take(j as int).push(iv[j as int]));
                    j = j + 1;
                }
                assert(iv.take(j as int) =~= iv);
            },
            other => {
                let c = other.deep_clone();
                flat.push(c);
                assert(views(flat@) =~= before_f + seq![members@[i as int]@]);
            },
        }
        i = i + 1;
    }
    assert(ms.take(i as int) =~= ms);
    let ghost fv = views(flat@);
    let mut uniq: Vec<Type> = Vec::new();
    let mut k: usize = 0;
    while k < flat.len()
        invariant
            k <= flat@.len(),
            fv == views(flat@),
            views(uniq@) == deduped(fv.take(k as int)),
        decreases flat.len() - k,
    {
        assert(fv.take(k + 1).drop_last() =~= fv.take(k as int));
        assert(fv.take(k + 1).last() == flat@[k as int]@);
        if !contains_type(&uniq, &flat[k]) {
            let ghost bd = views(uniq@);
            uniq.push(flat[k].deep_clone());
            assert(views(uniq@) =~= bd.push(fv[k as int]));
        }
        k = k + 1;
    }
    assert(fv.take(k as int) =~= fv);
    if uniq.len() == 1 {
        let ghost dv = views(uniq@);
        let r = uniq.pop().unwrap();
        assert(dv[0] == r@);
        r
    } else {
        let ghost dv = views(uniq@);
        let r = Type::Union(uniq);
        assert(list_of(r@) =~= dv);
        r
    }
}

} // verus!
