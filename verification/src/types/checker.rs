//! The type checker's state: the registered types and functions, the stack
//! of variable scopes, and the relations between types (aliases, subtyping,
//! assignability, narrowing).
use vstd::prelude::*;
use crate::error::CompileError;
use crate::text::{cat3, str_eq};
use super::suggest::views_of;
use super::{Table, Type, TypeView, TypeInfo, views, list_of};

verus! {

/// How many parent links are followed before a chain is given up as cyclic.
pub const SUBTYPE_DEPTH: u32 = 100000;

/// How deeply assignability looks through aliases, optionals, results and
/// unions before giving up (only a cycle of aliases gets that deep).
pub const ASSIGN_DEPTH: u32 = 1000;

pub struct TypeChecker {
    pub type_info: TypeInfo,
    /// Innermost scope last; each maps a name to its type and mutability.
    pub scopes: Vec<Table<(Type, bool)>>,
    pub current_fn_return: Option<Type>,
    pub in_loop: bool,
    pub current_type_name: Option<String>,
    /// Variables that are both mutable and captured by a closure in the
    /// current function; narrowing them would be unsound, since any call
    /// could run the closure and change them.
    pub captured_mut_vars: Vec<String>,
}

/// The binding a name has in a stack of scopes, innermost first.
pub open spec fn scopes_lookup(scopes: Seq<Table<(Type, bool)>>, name: Seq<char>) -> Option<(Type, bool)>
    decreases scopes.len(),
{
    if scopes.len() == 0 {
        None
    } else {
        match scopes.last().get_spec(name) {
            Some(e) => Some(e),
            None => scopes_lookup(scopes.drop_last(), name),
        }
    }
}

/// The names entered in a table, in order.
pub open spec fn table_keys<V>(entries: Seq<(String, V)>) -> Seq<Seq<char>> {
    Seq::new(entries.len(), |i: int| entries[i].0@)
}

/// The names bound in a stack of scopes, outermost first.
pub open spec fn scope_names(scopes: Seq<Table<(Type, bool)>>) -> Seq<Seq<char>>
    decreases scopes.len(),
{
    if scopes.len() == 0 {
        Seq::empty()
    } else {
        scope_names(scopes.drop_last()) + table_keys(scopes.last().entries@)
    }
}

pub open spec fn binding_view(e: Option<(Type, bool)>) -> Option<(TypeView, bool)> {
    match e {
        Some(b) => Some((b.0@, b.1)),
        None => None,
    }
}

/// The type that an alias name stands for.
pub open spec fn alias_view(info: TypeInfo, n: Seq<char>) -> Option<TypeView> {
    match info.aliases.get_spec(n) {
        Some(t) => Some(t@),
        None => None,
    }
}

/// A named type with its alias, if it has one, substituted.
pub open spec fn resolved_view(info: TypeInfo, t: TypeView) -> TypeView {
    match t {
        TypeView::Struct(n) => match alias_view(info, n) {
            Some(a) => a,
            None => t,
        },
        TypeView::Enum(n) => match alias_view(info, n) {
            Some(a) => a,
            None => t,
        },
        _ => t,
    }
}

/// The declared parent of a struct.
pub open spec fn struct_parent(info: TypeInfo, n: Seq<char>) -> Option<Seq<char>> {
    match info.structs.get_spec(n) {
        Some(si) => match si.parent {
            Some(p) => Some(p@),
            None => None,
        },
        None => None,
    }
}

/// `sub` reaches `parent` by following at most `fuel` parent links.
pub open spec fn subtype_within(info: TypeInfo, sub: Seq<char>, parent: Seq<char>, fuel: nat) -> bool
    decreases fuel,
{
    if sub == parent {
        true
    } else if fuel == 0 {
        false
    } else {
        match struct_parent(info, sub) {
            Some(p) => p == parent || subtype_within(info, p, parent, (fuel - 1) as nat),
            None => false,
        }
    }
}

/// A value of type `from` may be used where `to` is expected, looking at
/// most `fuel` levels deep.
pub open spec fn assignable_within(info: TypeInfo, from: TypeView, to: TypeView, fuel: nat) -> bool
    decreases fuel, 0nat,
{
    let f = resolved_view(info, from);
    let t = resolved_view(info, to);
    if from == to {
        true
    } else if fuel == 0 {
        false
    } else if f == t {
        true
    } else {
        match t {
            TypeView::Optional(inner) => f == TypeView::Nil || assignable_within(info, f, *inner, (fuel - 1) as nat),
            TypeView::Result(ok, e2) => match f {
                TypeView::Error(e1) => assignable_within(info, *e1, *e2, (fuel - 1) as nat),
                _ => assignable_within(info, f, *ok, (fuel - 1) as nat),
            },
            TypeView::Union(ms) => any_assignable(info, f, ms, (fuel - 1) as nat),
            _ => match f {
                TypeView::Union(ms) => all_assignable(info, ms, t, (fuel - 1) as nat),
                _ => plain_assignable(info, f, t),
            },
        }
    }
}

/// Assignability between types that are neither optionals, results nor unions.
pub open spec fn plain_assignable(info: TypeInfo, f: TypeView, t: TypeView) -> bool {
    match f {
        TypeView::Array(a) => match t {
            TypeView::Array(b) => *a == TypeView::Nil || *a == *b,
            _ => false,
        },
        TypeView::MapOf(kf, vf) => match t {
            TypeView::MapOf(kt, vt) => (*kf == TypeView::Nil && *vf == TypeView::Nil) || (*kf == *kt && *vf == *vt),
            _ => false,
        },
        TypeView::Struct(s) => match t {
            TypeView::Struct(p) => subtype_within(info, s, p, SUBTYPE_DEPTH as nat),
            _ => false,
        },
        TypeView::Capability(s) => match t {
            TypeView::Capability(p) => subtype_within(info, s, p, SUBTYPE_DEPTH as nat),
            _ => false,
        },
        _ => false,
    }
}

/// Some member of `ms` accepts a value of type `f`.
pub open spec fn any_assignable(info: TypeInfo, f: TypeView, ms: Seq<TypeView>, fuel: nat) -> bool
    decreases fuel, ms.len(),
{
    if ms.len() == 0 {
        false
    } else {
        any_assignable(info, f, ms.drop_last(), fuel) || assignable_within(info, f, ms.last(), fuel)
    }
}

/// Every member of `ms` may be used as a `t`.
pub open spec fn all_assignable(info: TypeInfo, ms: Seq<TypeView>, t: TypeView, fuel: nat) -> bool
    decreases fuel, ms.len(),
{
    if ms.len() == 0 {
        true
    } else {
        all_assignable(info, ms.drop_last(), t, fuel) && assignable_within(info, ms.last(), t, fuel)
    }
}

pub open spec fn assignable(info: TypeInfo, from: TypeView, to: TypeView) -> bool {
    assignable_within(info, from, to, ASSIGN_DEPTH as nat)
}

/// The members of `ms` other than `rm`, in order.
pub open spec fn without(ms: Seq<TypeView>, rm: TypeView) -> Seq<TypeView>
    decreases ms.len(),
{
    if ms.len() == 0 {
        ms
    } else if ms.last() == rm {
        without(ms.drop_last(), rm)
    } else {
        without(ms.drop_last(), rm).push(ms.last())
    }
}

/// What is left of a type once the values of type `rm` are ruled out.
pub open spec fn subtracted(original: TypeView, rm: TypeView) -> TypeView {
    match original {
        TypeView::Union(ms) => {
            let rest = without(ms, rm);
            if rest.len() == 0 {
                original
            } else if rest.len() == 1 {
                rest[0]
            } else {
                TypeView::Union(rest)
            }
        },
        TypeView::Optional(inner) => if rm == TypeView::Nil {
            *inner
        } else {
            original
        },
        _ => original,
    }
}

/// The scopes below the innermost one.
pub open spec fn below_top(s: Seq<Table<(Type, bool)>>) -> Seq<Table<(Type, bool)>> {
    if s.len() == 0 {
        s
    } else {
        s.drop_last()
    }
}

/// The function context (return type, loop, type being defined, captured
/// variables) and the registered types are the same in both states.
pub open spec fn same_context(a: TypeChecker, b: TypeChecker) -> bool {
    &&& b.type_info == a.type_info
    &&& b.current_fn_return == a.current_fn_return
    &&& b.in_loop == a.in_loop
    &&& b.current_type_name == a.current_type_name
    &&& b.captured_mut_vars == a.captured_mut_vars
}

/// Checking went from `a` to `b` adding bindings to the innermost scope only.
pub open spec fn kept(a: TypeChecker, b: TypeChecker) -> bool {
    &&& same_context(a, b)
    &&& b.scopes@.len() == a.scopes@.len()
    &&& below_top(b.scopes@) =~= below_top(a.scopes@)
}

/// `b` is `a` with one more scope on top.
pub open spec fn inside(a: TypeChecker, b: TypeChecker) -> bool {
    &&& same_context(a, b)
    &&& b.scopes@.len() == a.scopes@.len() + 1
    &&& b.scopes@.drop_last() =~= a.scopes@
}

/// Checking left every scope as it was.
pub open spec fn unchanged(a: TypeChecker, b: TypeChecker) -> bool {
    same_context(a, b) && b.scopes@ =~= a.scopes@
}

impl TypeChecker {
    pub open spec fn var_view(&self, name: Seq<char>) -> Option<(TypeView, bool)> {
        binding_view(scopes_lookup(self.scopes@, name))
    }

    pub open spec fn is_module(&self, name: Seq<char>) -> bool {
        self.type_info.modules.get_spec(name) is Some
    }

    /// A checker with no registered types and one empty scope.
    pub fn new() -> (c: TypeChecker)
        ensures
            c.scopes@.len() == 1,
            c.scopes@[0].entries@.len() == 0,
            c.type_info.structs.entries@.len() == 0,
            c.type_info.enums.entries@.len() == 0,
            c.type_info.aliases.entries@.len() == 0,
            c.type_info.functions.entries@.len() == 0,
            c.type_info.modules.entries@.len() == 0,
            c.current_fn_return is None,
            !c.in_loop,
            c.current_type_name is None,
            c.captured_mut_vars@.len() == 0,
    {
        let mut scopes = Vec::new();
        scopes.push(Table::new());
        TypeChecker {
            type_info: TypeInfo {
                structs: Table::new(),
                enums: Table::new(),
                aliases: Table::new(),
                functions: Table::new(),
                modules: Table::new(),
            },
            scopes,
            current_fn_return: None,
            in_loop: false,
            current_type_name: None,
            captured_mut_vars: Vec::new(),
        }
    }

    pub fn push_scope(&mut self)
        ensures
            final(self).scopes@ == old(self).scopes@.push(final(self).scopes@.last()),
            final(self).scopes@.last().entries@.len() == 0,
            final(self).type_info == old(self).type_info,
            final(self).current_fn_return == old(self).current_fn_return,
            final(self).in_loop == old(self).in_loop,
            final(self).current_type_name == old(self).current_type_name,
            final(self).captured_mut_vars == old(self).captured_mut_vars,
    {
        self.scopes.push(Table::new());
    }

    pub fn pop_scope(&mut self)
        ensures
            final(self).scopes@ == if old(self).scopes@.len() == 0 {
                old(self).scopes@
            } else {
                old(self).scopes@.drop_last()
            },
            final(self).type_info == old(self).type_info,
            final(self).current_fn_return == old(self).current_fn_return,
            final(self).in_loop == old(self).in_loop,
            final(self).current_type_name == old(self).current_type_name,
            final(self).captured_mut_vars == old(self).captured_mut_vars,
    {
        let _ = self.scopes.pop();
    }

    /// Binds `name` in the innermost scope; a name that is already an
    /// imported module's is refused.
    pub fn define_var(&mut self, name: &str, ty: Type, mutable: bool) -> (r: Result<(), CompileError>)
        ensures
            old(self).is_module(name@) <==> r is Err,
            r is Err ==> final(self).scopes == old(self).scopes,
            r matches Err(e) ==> e.message@ == "'"@ + name@ + "' is already the name of an imported module"@
                && e.span.line == 0,
            r is Ok && old(self).scopes@.len() > 0 ==> final(self).var_view(name@) == Some((ty@, mutable)),
            r is Ok && old(self).scopes@.len() > 0 ==> final(self).scopes@.drop_last() == old(self).scopes@.drop_last(),
            r is Ok && old(self).scopes@.len() > 0 ==> final(self).scopes@.last().get_spec(name@) == Some((ty, mutable)),
            r is Ok && old(self).scopes@.len() > 0 ==> forall|j: Seq<char>| j != name@ ==> #[trigger] final(self).scopes@.last().get_spec(j)
                == old(self).scopes@.last().get_spec(j),
            r is Ok && old(self).scopes@.len() == 0 ==> final(self).scopes == old(self).scopes,
            final(self).scopes@.len() == old(self).scopes@.len(),
            final(self).type_info == old(self).type_info,
            final(self).current_fn_return == old(self).current_fn_return,
            final(self).in_loop == old(self).in_loop,
            final(self).current_type_name == old(self).current_type_name,
            final(self).captured_mut_vars == old(self).captured_mut_vars,
    {
        if self.type_info.modules.contains_key(name) {
            let msg = cat3("'", name, "' is already the name of an imported module");
            return Err(CompileError::bare(msg));
        }
        if self.scopes.len() > 0 {
            let ghost before = self.scopes@;
            let mut scope = self.scopes.pop().unwrap();
            let ghost tv = ty@;
            scope.insert(name.to_string(), (ty, mutable));
            self.scopes.push(scope);
            proof {
                assert(self.scopes@.drop_last() == before.drop_last());
                assert(self.scopes@.last().get_spec(name@) is Some);
            }
        }
        Ok(())
    }

    /// The type and mutability of the innermost binding of `name`.
    pub fn lookup_var(&self, name: &str) -> (r: Option<(Type, bool)>)
        ensures
            binding_view(r) == self.var_view(name@),
    {
        let mut i = self.scopes.len();
        assert(self.scopes@.take(i as int) =~= self.scopes@);
        while i > 0
            invariant
                i <= self.scopes@.len(),
                scopes_lookup(self.scopes@, name@) == scopes_lookup(self.scopes@.take(i as int), name@),
            decreases i,
        {
            assert(self.scopes@.take(i as int).drop_last() =~= self.scopes@.take(i - 1));
            assert(self.scopes@.take(i as int).last() == self.scopes@[i - 1]);
            match self.scopes[i - 1].get(name) {
                Some(entry) => {
                    return Some((entry.0.deep_clone(), entry.1));
                },
                None => {},
            }
            i = i - 1;
        }
        None
    }

    /// Every variable name in scope, outermost scope first.
    pub fn all_var_names(&self) -> (names: Vec<String>)
        ensures
            views_of(names@) == scope_names(self.scopes@),
    {
        let mut names: Vec<String> = Vec::new();
        let mut s: usize = 0;
        while s < self.scopes.len()
            invariant
                s <= self.scopes@.len(),
                views_of(names@) == scope_names(self.scopes@.take(s as int)),
            decreases self.scopes.len() - s,
        {
            let ghost start = names@;
            assert(self.scopes@.take(s + 1).drop_last() =~= self.scopes@.take(s as int));
            let mut k: usize = 0;
            while k < self.scopes[s].entries.len()
                invariant
                    s < self.scopes@.len(),
                    k <= self.scopes@[s as int].entries@.len(),
                    views_of(names@) == views_of(start) + table_keys(self.scopes@[s as int].entries@.take(k as int)),
                decreases self.scopes@[s as int].entries@.len() - k,
            {
                let n = self.scopes[s].entries[k].0.clone();
                let ghost e = self.scopes@[s as int].entries@;
                assert(n@ == e[k as int].0@);
                assert(table_keys(e.take(k + 1)) =~= table_keys(e.take(k as int)).push(e[k as int].0@));
                let ghost before = names@;
                names.push(n);
                assert(views_of(names@) =~= views_of(before).push(n@));
                assert(views_of(names@) =~= views_of(start) + table_keys(self.scopes@[s as int].entries@.take(k + 1)));
                k = k + 1;
            }
            assert(self.scopes@[s as int].entries@.take(k as int) =~= self.scopes@[s as int].entries@);
            assert(views_of(names@) =~= scope_names(self.scopes@.take(s + 1)));
            s = s + 1;
        }
        assert(self.scopes@.take(s as int) =~= self.scopes@);
        names
    }

    /// A named type with its alias, if it has one, substituted.
    pub fn resolve_alias(&self, ty: &Type) -> (r: Type)
        ensures
            r@ == resolved_view(self.type_info, ty@),
    {
        match ty {
            Type::Struct(name) => match self.type_info.aliases.get(name.as_str()) {
                Some(t) => t.deep_clone(),
                None => ty.deep_clone(),
            },
            Type::Enum(name) => match self.type_info.aliases.get(name.as_str()) {
                Some(t) => t.deep_clone(),
                None => ty.deep_clone(),
            },
            _ => ty.deep_clone(),
        }
    }

    /// Whether struct `sub` is `parent` or inherits from it.
    pub fn is_subtype(&self, sub: &str, parent: &str) -> (r: bool)
        ensures
            r == subtype_within(self.type_info, sub@, parent@, SUBTYPE_DEPTH as nat),
    {
        let mut cur = sub.to_string();
        let mut fuel: u32 = SUBTYPE_DEPTH;
        loop
            invariant
                subtype_within(self.type_info, sub@, parent@, SUBTYPE_DEPTH as nat)
                    == subtype_within(self.type_info, cur@, parent@, fuel as nat),
            decreases fuel,
        {
            if str_eq(cur.as_str(), parent) {
                return true;
            }
            if fuel == 0 {
                return false;
            }
            let next = match self.type_info.structs.get(cur.as_str()) {
                Some(info) => match &info.parent {
                    Some(p) => p.clone(),
                    None => {
                        return false;
                    },
                },
                None => {
                    return false;
                },
            };
            if str_eq(next.as_str(), parent) {
                return true;
            }
            cur = next;
            fuel = fuel - 1;
        }
    }

    /// Whether a value of type `from` may be used where `to` is expected,
    /// looking at most `fuel` levels deep.
    pub fn is_assignable_within(&self, from: &Type, to: &Type, fuel: u32) -> (r: bool)
        ensures
            r == assignable_within(self.type_info, from@, to@, fuel as nat),
        decreases 2 * fuel,
    {
        if from.same(to) {
            return true;
        }
        if fuel == 0 {
            return false;
        }
        let f = self.resolve_alias(from);
        let t = self.resolve_alias(to);
        if f.same(&t) {
            return true;
        }
        let k = fuel - 1;
        match &t {
            Type::Optional(inner) => {
                if matches!(f, Type::Nil) {
                    return true;
                }
                return self.is_assignable_within(&f, inner, k);
            },
            Type::Result(ok, e2) => {
                match &f {
                    Type::Error(e1) => {
                        return self.is_assignable_within(e1, e2, k);
                    },
                    _ => {
                        return self.is_assignable_within(&f, ok, k);
                    },
                }
            },
            Type::Union(ms) => {
                proof {
                    assert(list_of(t@) =~= views(ms@));
                }
                return self.any_member_accepts(&f, ms, k);
            },
            _ => {},
        }
        match &f {
            Type::Union(ms) => {
                proof {
                    assert(list_of(f@) =~= views(ms@));
                }
                return self.all_members_assignable(ms, &t, k);
            },
            _ => {},
        }
        self.plain_assignable(&f, &t)
    }

    fn plain_assignable(&self, f: &Type, t: &Type) -> (r: bool)
        ensures
            r == plain_assignable(self.type_info, f@, t@),
    {
        match f {
            Type::Array(a) => match t {
                Type::Array(b) => {
                    let x: &Type = a;
                    let y: &Type = b;
                    assert(f@ == TypeView::Array(Box::new(x@)));
                    assert(t@ == TypeView::Array(Box::new(y@)));
                    let nil = matches!(*x, Type::Nil);
                    assert(nil == (x@ == TypeView::Nil));
                    nil || x.same(y)
                },
                _ => false,
            },
            Type::MapOf(kf, vf) => match t {
                Type::MapOf(kt, vt) => {
                    let (k1, v1, k2, v2): (&Type, &Type, &Type, &Type) = (kf, vf, kt, vt);
                    assert(f@ == TypeView::MapOf(Box::new(k1@), Box::new(v1@)));
                    assert(t@ == TypeView::MapOf(Box::new(k2@), Box::new(v2@)));
                    let nil1 = matches!(*k1, Type::Nil);
                    let nil2 = matches!(*v1, Type::Nil);
                    assert(nil1 == (k1@ == TypeView::Nil));
                    assert(nil2 == (v1@ == TypeView::Nil));
                    (nil1 && nil2) || (k1.same(k2) && v1.same(v2))
                },
                _ => false,
            },
            Type::Struct(s) => match t {
                Type::Struct(p) => self.is_subtype(s.as_str(), p.as_str()),
                _ => false,
            },
            Type::Capability(s) => match t {
                Type::Capability(p) => self.is_subtype(s.as_str(), p.as_str()),
                _ => false,
            },
            _ => false,
        }
    }

    fn any_member_accepts(&self, f: &Type, ms: &Vec<Type>, fuel: u32) -> (r: bool)
        ensures
            r == any_assignable(self.type_info, f@, views(ms@), fuel as nat),
        decreases 2 * fuel + 1,
    {
        let ghost vs = views(ms@);
        let mut i: usize = 0;
        while i < ms.len()
            invariant
                i <= ms@.len(),
                vs == views(ms@),
                !any_assignable(self.type_info, f@, vs.take(i as int), fuel as nat),
            decreases ms.len() - i,
        {
            assert(vs.take(i + 1).drop_last() =~= vs.take(i as int));
            assert(vs.take(i + 1).last() == ms@[i as int]@);
            if self.is_assignable_within(f, &ms[i], fuel) {
                assert(vs.take(i + 1).len() > 0);
                proof {
                    lemma_any_assignable_prefix(self.type_info, f@, vs, (i + 1) as int, fuel as nat);
                }
                return true;
            }
            i = i + 1;
        }
        assert(vs.take(i as int) =~= vs);
        false
    }

    fn all_members_assignable(&self, ms: &Vec<Type>, t: &Type, fuel: u32) -> (r: bool)
        ensures
            r == all_assignable(self.type_info, views(ms@), t@, fuel as nat),
        decreases 2 * fuel + 1,
    {
        let ghost vs = views(ms@);
        let mut i: usize = 0;
        while i < ms.len()
            invariant
                i <= ms@.len(),
                vs == views(ms@),
                all_assignable(self.type_info, vs.take(i as int), t@, fuel as nat),
            decreases ms.len() - i,
        {
            assert(vs.take(i + 1).drop_last() =~= vs.take(i as int));
            assert(vs.take(i + 1).last() == ms@[i as int]@);
            if !self.is_assignable_within(&ms[i], t, fuel) {
                proof {
                    lemma_all_assignable_prefix(self.type_info, vs, t@, (i + 1) as int, fuel as nat);
                }
                return false;
            }
            i = i + 1;
        }
        assert(vs.take(i as int) =~= vs);
        true
    }

    /// Whether a value of type `from` may be used where `to` is expected.
    pub fn is_assignable(&self, from: &Type, to: &Type) -> (r: bool)
        ensures
            r == assignable(self.type_info, from@, to@),
    {
        self.is_assignable_within(from, to, ASSIGN_DEPTH)
    }

    /// Removes a type from a union (`A | B | C` less `A` is `B | C`), or
    /// `nil` from an optional; a union that would be left empty stays as it is.
    pub fn subtract_type(&self, original: &Type, to_remove: &Type) -> (r: Type)
        ensures
            r@ == subtracted(original@, to_remove@),
    {
        match original {
            Type::Union(members) => {
                proof {
                    assert(list_of(original@) =~= views(members@));
                }
                let ghost vs = views(members@);
                let mut remaining: Vec<Type> = Vec::new();
                let mut i: usize = 0;
                while i < members.len()
                    invariant
                        i <= members@.len(),
                        vs == views(members@),
                        views(remaining@) == without(vs.take(i as int), to_remove@),
                    decreases members.len() - i,
                {
                    assert(vs.take(i + 1).drop_last() =~= vs.take(i as int));
                    assert(vs.take(i + 1).last() == members@[i as int]@);
                    if !members[i].same(to_remove) {
                        let ghost before = remaining@;
                        remaining.push(members[i].deep_clone());
                        assert(views(remaining@) =~= views(before).push(members@[i as int]@));
                    }
                    i = i + 1;
                }
                assert(vs.take(i as int) =~= vs);
                if remaining.len() == 0 {
                    original.deep_clone()
                } else if remaining.len() == 1 {
                    let ghost rv = views(remaining@);
                    let r = remaining.pop().unwrap();
                    assert(rv[0] == r@);
                    r
                } else {
                    let ghost rv = views(remaining@);
                    let r = Type::Union(remaining);
                    assert(list_of(r@) =~= rv);
                    r
                }
            },
            Type::Optional(inner) => {
                if matches!(to_remove, Type::Nil) {
                    inner.deep_clone()
                } else {
                    original.deep_clone()
                }
            },
            _ => original.deep_clone(),
        }
    }
}

/// Once some member of a prefix accepts `f`, some member of the whole does.
pub proof fn lemma_any_assignable_prefix(info: TypeInfo, f: TypeView, vs: Seq<TypeView>, n: int, fuel: nat)
    requires
        0 <= n <= vs.len(),
        any_assignable(info, f, vs.take(n), fuel),
    ensures
        any_assignable(info, f, vs, fuel),
    decreases vs.len() - n,
{
    if n < vs.len() {
        assert(vs.take(n + 1).drop_last() =~= vs.take(n));
        lemma_any_assignable_prefix(info, f, vs, n + 1, fuel);
    } else {
        assert(vs.take(n) =~= vs);
    }
}

/// Once some member of a prefix is not assignable, not all members are.
pub proof fn lemma_all_assignable_prefix(info: TypeInfo, vs: Seq<TypeView>, t: TypeView, n: int, fuel: nat)
    requires
        0 <= n <= vs.len(),
        !all_assignable(info, vs.take(n), t, fuel),
    ensures
        !all_assignable(info, vs, t, fuel),
    decreases vs.len() - n,
{
    if n < vs.len() {
        assert(vs.take(n + 1).drop_last() =~= vs.take(n));
        lemma_all_assignable_prefix(info, vs, t, n + 1, fuel);
    } else {
        assert(vs.take(n) =~= vs);
    }
}

} // verus!
