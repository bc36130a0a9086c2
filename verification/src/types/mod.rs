//! Types of the language, the information the checker records about named
//! types and functions, and the typed syntax tree it produces.
use vstd::prelude::*;
use crate::ast::{BinOp, Pattern, Span, TypeExpr, UnaryOp};
use crate::text::{cat2, cat3, cat4, str_eq};

pub mod checker;
pub mod suggest;
pub mod resolve;
pub mod rules;
pub mod methods;
pub mod exprs;
pub mod flow;
pub mod capture;
pub mod patterns;
pub mod program;
pub mod laws;
pub mod typing;
pub use program::check;

verus! {

/// Internal type representation after type checking.
#[derive(Debug)]
pub enum Type {
    I8,
    I16,
    I32,
    I64,
    U8,
    U16,
    U32,
    U64,
    F64,
    Bool,
    String,
    Nil,
    Array(Box<Type>),
    MapOf(Box<Type>, Box<Type>),
    Tuple(Vec<Type>),
    /// `T?`
    Optional(Box<Type>),
    /// `T!E`
    Result(Box<Type>, Box<Type>),
    /// Parameters, return type.
    Function(Vec<Type>, Box<Type>),
    Struct(String),
    Enum(String),
    /// `A | B | C`
    Union(Vec<Type>),
    /// The value of an error literal `!(e)` whose payload has this type.
    Error(Box<Type>),
    /// The type of `a..b`.
    Range,
    /// Stdout, Stdin, Fs, Env, Highlight.
    Capability(String),
    /// For statements that produce no value.
    Void,
}

/// The mathematical value of a `Type`: names as character sequences.
pub enum TypeView {
    I8,
    I16,
    I32,
    I64,
    U8,
    U16,
    U32,
    U64,
    F64,
    Bool,
    String,
    Nil,
    Array(Box<TypeView>),
    MapOf(Box<TypeView>, Box<TypeView>),
    Tuple(Seq<TypeView>),
    Optional(Box<TypeView>),
    Result(Box<TypeView>, Box<TypeView>),
    Function(Seq<TypeView>, Box<TypeView>),
    Struct(Seq<char>),
    Enum(Seq<char>),
    Union(Seq<TypeView>),
    Error(Box<TypeView>),
    Range,
    Capability(Seq<char>),
    Void,
}

/// The views of a list of types.
pub open spec fn views(v: Seq<Type>) -> Seq<TypeView> {
    Seq::new(v.len(), |i: int| if 0 <= i < v.len() { v[i].view() } else { TypeView::Void })
}

impl View for Type {
    type V = TypeView;

    open spec fn view(&self) -> TypeView
        decreases self,
    {
        match self {
            Type::I8 => TypeView::I8,
            Type::I16 => TypeView::I16,
            Type::I32 => TypeView::I32,
            Type::I64 => TypeView::I64,
            Type::U8 => TypeView::U8,
            Type::U16 => TypeView::U16,
            Type::U32 => TypeView::U32,
            Type::U64 => TypeView::U64,
            Type::F64 => TypeView::F64,
            Type::Bool => TypeView::Bool,
            Type::String => TypeView::String,
            Type::Nil => TypeView::Nil,
            Type::Array(t) => TypeView::Array(Box::new((**t).view())),
            Type::MapOf(k, v) => TypeView::MapOf(Box::new((**k).view()), Box::new((**v).view())),
            Type::Tuple(ts) => TypeView::Tuple(
                Seq::new(ts.len() as nat, |i: int| if 0 <= i < ts.len() { ts@[i].view() } else { TypeView::Void }),
            ),
            Type::Optional(t) => TypeView::Optional(Box::new((**t).view())),
            Type::Result(t, e) => TypeView::Result(Box::new((**t).view()), Box::new((**e).view())),
            Type::Function(ps, r) => TypeView::Function(
                Seq::new(ps.len() as nat, |i: int| if 0 <= i < ps.len() { ps@[i].view() } else { TypeView::Void }),
                Box::new((**r).view()),
            ),
            Type::Struct(n) => TypeView::Struct(n@),
            Type::Enum(n) => TypeView::Enum(n@),
            Type::Union(ms) => TypeView::Union(
                Seq::new(ms.len() as nat, |i: int| if 0 <= i < ms.len() { ms@[i].view() } else { TypeView::Void }),
            ),
            Type::Error(t) => TypeView::Error(Box::new((**t).view())),
            Type::Range => TypeView::Range,
            Type::Capability(n) => TypeView::Capability(n@),
            Type::Void => TypeView::Void,
        }
    }
}

/// The members of a union type.
pub open spec fn list_of_type(t: Type) -> Seq<Type> {
    match t {
        Type::Union(ms) => ms@,
        _ => Seq::empty(),
    }
}

/// The members of a list-carrying type view (tuple, parameters, union).
pub open spec fn list_of(t: TypeView) -> Seq<TypeView> {
    match t {
        TypeView::Tuple(s) => s,
        TypeView::Function(s, _) => s,
        TypeView::Union(s) => s,
        _ => Seq::empty(),
    }
}

pub open spec fn is_integer_view(t: TypeView) -> bool {
    match t {
        TypeView::I8 | TypeView::I16 | TypeView::I32 | TypeView::I64 | TypeView::U8
        | TypeView::U16 | TypeView::U32 | TypeView::U64 => true,
        _ => false,
    }
}

pub open spec fn is_numeric_view(t: TypeView) -> bool {
    is_integer_view(t) || t == TypeView::F64
}

/// The names of types joined with a separator.
pub open spec fn join_display(ts: Seq<TypeView>, sep: Seq<char>) -> Seq<char>
    decreases ts,
{
    if ts.len() == 0 {
        Seq::empty()
    } else if ts.len() == 1 {
        type_display(ts[0])
    } else {
        join_display(ts.drop_last(), sep) + sep + type_display(ts.last())
    }
}

/// How a type is written in messages.
pub open spec fn type_display(t: TypeView) -> Seq<char>
    decreases t,
{
    match t {
        TypeView::I8 => "i8"@,
        TypeView::I16 => "i16"@,
        TypeView::I32 => "i32"@,
        TypeView::I64 => "i64"@,
        TypeView::U8 => "u8"@,
        TypeView::U16 => "u16"@,
        TypeView::U32 => "u32"@,
        TypeView::U64 => "u64"@,
        TypeView::F64 => "f64"@,
        TypeView::Bool => "bool"@,
        TypeView::String => "string"@,
        TypeView::Nil => "nil"@,
        TypeView::Array(e) => "["@ + type_display(*e) + "]"@,
        TypeView::MapOf(k, v) => "["@ + type_display(*k) + ": "@ + type_display(*v) + "]"@,
        TypeView::Tuple(ts) => "("@ + join_display(ts, ", "@) + ")"@,
        TypeView::Optional(e) => type_display(*e) + "?"@,
        TypeView::Result(a, b) => type_display(*a) + "!"@ + type_display(*b),
        TypeView::Function(ps, r) => "fn("@ + join_display(ps, ", "@) + ") -> "@ + type_display(*r),
        TypeView::Struct(n) => n,
        TypeView::Enum(n) => n,
        TypeView::Union(ms) => join_display(ms, " | "@),
        TypeView::Error(e) => "Error("@ + type_display(*e) + ")"@,
        TypeView::Range => "Range"@,
        TypeView::Capability(n) => n,
        TypeView::Void => "void"@,
    }
}

impl Type {
    pub fn is_integer(&self) -> (r: bool)
        ensures
            r == is_integer_view(self@),
    {
        match self {
            Type::I8 | Type::I16 | Type::I32 | Type::I64 | Type::U8 | Type::U16 | Type::U32
            | Type::U64 => true,
            _ => false,
        }
    }

    pub fn is_numeric(&self) -> (r: bool)
        ensures
            r == is_numeric_view(self@),
    {
        self.is_integer() || matches!(self, Type::F64)
    }

    /// How this type is written in messages, e.g. `[i64]`, `string?`, `A | B`.
    pub fn display_name(&self) -> (s: String)
        ensures
            s@ == type_display(self@),
        decreases self,
    {
        proof {
            reveal_strlit("i8"); reveal_strlit("i16"); reveal_strlit("i32"); reveal_strlit("i64");
            reveal_strlit("u8"); reveal_strlit("u16"); reveal_strlit("u32"); reveal_strlit("u64");
        }
        match self {
            Type::I8 => String::from_str("i8"),
            Type::I16 => String::from_str("i16"),
            Type::I32 => String::from_str("i32"),
            Type::I64 => String::from_str("i64"),
            Type::U8 => String::from_str("u8"),
            Type::U16 => String::from_str("u16"),
            Type::U32 => String::from_str("u32"),
            Type::U64 => String::from_str("u64"),
            Type::F64 => String::from_str("f64"),
            Type::Bool => String::from_str("bool"),
            Type::String => String::from_str("string"),
            Type::Nil => String::from_str("nil"),
            Type::Array(t) => {
                let inner = t.display_name();
                cat3("[", inner.as_str(), "]")
            },
            Type::MapOf(k, v) => {
                let a = k.display_name();
                let b = v.display_name();
                let s = cat4("[", a.as_str(), ": ", b.as_str());
                cat2(s.as_str(), "]")
            },
            Type::Tuple(ts) => {
                let inner = display_list(ts, ", ");
                proof { assert(list_of(self@) =~= views(ts@)); }
                cat3("(", inner.as_str(), ")")
            },
            Type::Optional(t) => {
                let inner = t.display_name();
                cat2(inner.as_str(), "?")
            },
            Type::Result(t, e) => {
                let a = t.display_name();
                let b = e.display_name();
                cat3(a.as_str(), "!", b.as_str())
            },
            Type::Function(ps, r) => {
                let inner = display_list(ps, ", ");
                proof { assert(list_of(self@) =~= views(ps@)); }
                let ret = r.display_name();
                cat4("fn(", inner.as_str(), ") -> ", ret.as_str())
            },
            Type::Struct(n) => n.clone(),
            Type::Enum(n) => n.clone(),
            Type::Union(ms) => {
                proof { assert(list_of(self@) =~= views(ms@)); }
                display_list(ms, " | ")
            },
            Type::Error(t) => {
                let inner = t.display_name();
                cat3("Error(", inner.as_str(), ")")
            },
            Type::Range => String::from_str("Range"),
            Type::Capability(n) => n.clone(),
            Type::Void => String::from_str("void"),
        }
    }

    /// `[t]`
    pub fn array_of(t: Type) -> (r: Type)
        ensures
            r@ == TypeView::Array(Box::new(t@)),
    {
        Type::Array(Box::new(t))
    }

    /// `t?`
    pub fn optional_of(t: Type) -> (r: Type)
        ensures
            r@ == TypeView::Optional(Box::new(t@)),
    {
        Type::Optional(Box::new(t))
    }

    /// `t!e`
    pub fn result_of(t: Type, e: Type) -> (r: Type)
        ensures
            r@ == TypeView::Result(Box::new(t@), Box::new(e@)),
    {
        Type::Result(Box::new(t), Box::new(e))
    }

    /// `m1 | m2 | ...`
    pub fn union_of_list(ms: Vec<Type>) -> (r: Type)
        ensures
            r@ == TypeView::Union(views(ms@)),
    {
        let r = Type::Union(ms);
        assert(list_of(r@) =~= views(ms@));
        r
    }

    /// The members of a union as views, for a type that is one.
    pub proof fn lemma_union_members(&self)
        requires
            self is Union,
        ensures
            self@ == TypeView::Union(views(list_of_type(*self))),
    {
        assert(list_of(self@) =~= views(list_of_type(*self)));
    }

    /// `fn(ps) -> ret`
    pub fn function_of(ps: Vec<Type>, ret: Type) -> (r: Type)
        ensures
            r@ == TypeView::Function(views(ps@), Box::new(ret@)),
    {
        let r = Type::Function(ps, Box::new(ret));
        assert(list_of(r@) =~= views(ps@));
        r
    }

    /// `[k: v]`
    pub fn map_of(k: Type, v: Type) -> (r: Type)
        ensures
            r@ == TypeView::MapOf(Box::new(k@), Box::new(v@)),
    {
        Type::MapOf(Box::new(k), Box::new(v))
    }

    /// A copy of this type.
    pub fn deep_clone(&self) -> (r: Type)
        ensures
            r@ == self@,
        decreases self,
    {
        match self {
            Type::I8 => Type::I8,
            Type::I16 => Type::I16,
            Type::I32 => Type::I32,
            Type::I64 => Type::I64,
            Type::U8 => Type::U8,
            Type::U16 => Type::U16,
            Type::U32 => Type::U32,
            Type::U64 => Type::U64,
            Type::F64 => Type::F64,
            Type::Bool => Type::Bool,
            Type::String => Type::String,
            Type::Nil => Type::Nil,
            Type::Array(t) => Type::Array(Box::new(t.deep_clone())),
            Type::MapOf(k, v) => Type::MapOf(Box::new(k.deep_clone()), Box::new(v.deep_clone())),
            Type::Tuple(ts) => {
                let c = clone_list(ts);
                proof {
                    assert(list_of(self@) =~= views(ts@));
                }
                let ghost cv = c@;
                let r = Type::Tuple(c);
                proof {
                    assert(list_of(r@) =~= views(cv));
                }
                r
            },
            Type::Optional(t) => Type::Optional(Box::new(t.deep_clone())),
            Type::Result(t, e) => Type::Result(Box::new(t.deep_clone()), Box::new(e.deep_clone())),
            Type::Function(ps, ret) => {
                let c = clone_list(ps);
                proof {
                    assert(list_of(self@) =~= views(ps@));
                }
                let ghost cv = c@;
                let r = Type::Function(c, Box::new(ret.deep_clone()));
                proof {
                    assert(list_of(r@) =~= views(cv));
                }
                r
            },
            Type::Struct(n) => Type::Struct(n.clone()),
            Type::Enum(n) => Type::Enum(n.clone()),
            Type::Union(ms) => {
                let c = clone_list(ms);
                proof {
                    assert(list_of(self@) =~= views(ms@));
                }
                let ghost cv = c@;
                let r = Type::Union(c);
                proof {
                    assert(list_of(r@) =~= views(cv));
                }
                r
            },
            Type::Error(t) => Type::Error(Box::new(t.deep_clone())),
            Type::Range => Type::Range,
            Type::Capability(n) => Type::Capability(n.clone()),
            Type::Void => Type::Void,
        }
    }

    /// Structural equality of types.
    pub fn same(&self, other: &Type) -> (r: bool)
        ensures
            r == (self@ == other@),
        decreases self,
    {
        let r = match (self, other) {
            (Type::I8, Type::I8) => true,
            (Type::I16, Type::I16) => true,
            (Type::I32, Type::I32) => true,
            (Type::I64, Type::I64) => true,
            (Type::U8, Type::U8) => true,
            (Type::U16, Type::U16) => true,
            (Type::U32, Type::U32) => true,
            (Type::U64, Type::U64) => true,
            (Type::F64, Type::F64) => true,
            (Type::Bool, Type::Bool) => true,
            (Type::String, Type::String) => true,
            (Type::Nil, Type::Nil) => true,
            (Type::Array(a), Type::Array(b)) => a.same(b),
            (Type::MapOf(a1, a2), Type::MapOf(b1, b2)) => a1.same(b1) && a2.same(b2),
            (Type::Tuple(a), Type::Tuple(b)) => {
                let e = same_list(a, b);
                proof {
                    assert(list_of(self@) =~= views(a@));
                    assert(list_of(other@) =~= views(b@));
                }
                e
            },
            (Type::Optional(a), Type::Optional(b)) => a.same(b),
            (Type::Result(a1, a2), Type::Result(b1, b2)) => a1.same(b1) && a2.same(b2),
            (Type::Function(a1, a2), Type::Function(b1, b2)) => {
                let e = same_list(a1, b1);
                proof {
                    assert(list_of(self@) =~= views(a1@));
                    assert(list_of(other@) =~= views(b1@));
                }
                e && a2.same(b2)
            },
            (Type::Struct(a), Type::Struct(b)) => *a == *b,
            (Type::Enum(a), Type::Enum(b)) => *a == *b,
            (Type::Union(a), Type::Union(b)) => {
                let e = same_list(a, b);
                proof {
                    assert(list_of(self@) =~= views(a@));
                    assert(list_of(other@) =~= views(b@));
                }
                e
            },
            (Type::Error(a), Type::Error(b)) => a.same(b),
            (Type::Range, Type::Range) => true,
            (Type::Capability(a), Type::Capability(b)) => *a == *b,
            (Type::Void, Type::Void) => true,
            _ => false,
        };
        r
    }
}

/// The names of a list of types joined by `sep`.
#[verifier::loop_isolation(false)]
pub fn display_list(ts: &Vec<Type>, sep: &str) -> (s: String)
    ensures
        s@ == join_display(views(ts@), sep@),
    decreases ts,
{
    let mut s = String::new();
    let mut i: usize = 0;
    while i < ts.len()
        invariant
            i <= ts@.len(),
            s@ == join_display(views(ts@.take(i as int)), sep@),
        decreases ts.len() - i,
    {
        proof {
            assert(decreases_to!(*ts => ts@[i as int]));
        }
        let d = ts[i].display_name();
        let ghost prev = views(ts@.take(i as int));
        assert(views(ts@.take(i + 1)).drop_last() =~= prev);
        assert(views(ts@.take(i + 1)).last() == ts@[i as int]@);
        if i > 0 {
            s.append(sep);
        }
        s.append(d.as_str());
        proof {
            if i == 0 {
                assert(views(ts@.take(1)).len() == 1);
                assert(s@ =~= join_display(views(ts@.take(1)), sep@));
            } else {
                assert(s@ =~= join_display(views(ts@.take(i + 1)), sep@));
            }
        }
        i = i + 1;
    }
    assert(ts@.take(ts@.len() as int) =~= ts@);
    s
}

/// A copy of a list of types.
#[verifier::loop_isolation(false)]
pub fn clone_list(ts: &Vec<Type>) -> (r: Vec<Type>)
    ensures
        views(r@) == views(ts@),
    decreases ts,
{
    let mut out: Vec<Type> = Vec::new();
    let mut i: usize = 0;
    while i < ts.len()
        invariant
            i <= ts@.len(),
            out@.len() == i,
            forall|j: int| 0 <= j < i ==> #[trigger] out@[j]@ == ts@[j]@,
        decreases ts.len() - i,
    {
        proof {
            assert(decreases_to!(*ts => ts@[i as int]));
        }
        out.push(ts[i].deep_clone());
        i = i + 1;
    }
    assert(views(out@) =~= views(ts@));
    out
}

/// Whether two lists of types are the same, element by element.
#[verifier::loop_isolation(false)]
pub fn same_list(a: &Vec<Type>, b: &Vec<Type>) -> (r: bool)
    ensures
        r == (views(a@) == views(b@)),
    decreases a,
{
    if a.len() != b.len() {
        assert(views(a@).len() != views(b@).len());
        return false;
    }
    let mut i: usize = 0;
    while i < a.len()
        invariant
            i <= a@.len(),
            a@.len() == b@.len(),
            forall|j: int| 0 <= j < i ==> #[trigger] a@[j]@ == b@[j]@,
        decreases a.len() - i,
    {
        proof {
            assert(decreases_to!(*a => a@[i as int]));
        }
        if !a[i].same(&b[i]) {
            assert(views(a@)[i as int] != views(b@)[i as int]);
            return false;
        }
        i = i + 1;
    }
    assert(views(a@) =~= views(b@));
    true
}

/// Names and types are kept pairwise.
pub open spec fn same_pairs(a: Seq<(String, Type)>, b: Seq<(String, Type)>) -> bool {
    a.len() == b.len() && forall|i: int| 0 <= i < a.len() ==> #[trigger] a[i].0@ == b[i].0@ && a[i].1@ == b[i].1@
}

/// A copy of a list of named types.
pub fn clone_fields(v: &Vec<(String, Type)>) -> (r: Vec<(String, Type)>)
    ensures
        same_pairs(r@, v@),
{
    let mut out: Vec<(String, Type)> = Vec::new();
    let mut i: usize = 0;
    while i < v.len()
        invariant
            i <= v@.len(),
            out@.len() == i,
            forall|j: int| 0 <= j < i ==> #[trigger] out@[j].0@ == v@[j].0@ && out@[j].1@ == v@[j].1@,
        decreases v.len() - i,
    {
        out.push((v[i].0.clone(), v[i].1.deep_clone()));
        i = i + 1;
    }
    out
}

impl FuncInfo {
    /// A copy of this signature.
    pub fn deep_clone(&self) -> (r: FuncInfo)
        ensures
            r.name@ == self.name@,
            same_pairs(r.params@, self.params@),
            r.return_type@ == self.return_type@,
            r.is_method == self.is_method,
    {
        FuncInfo {
            name: self.name.clone(),
            params: clone_fields(&self.params),
            return_type: self.return_type.deep_clone(),
            is_method: self.is_method,
        }
    }

    /// The parameter types.
    pub fn param_types(&self) -> (r: Vec<Type>)
        ensures
            r@.len() == self.params@.len(),
            forall|i: int| 0 <= i < r@.len() ==> #[trigger] r@[i]@ == self.params@[i].1@,
    {
        let mut out: Vec<Type> = Vec::new();
        let mut i: usize = 0;
        while i < self.params.len()
            invariant
                i <= self.params@.len(),
                out@.len() == i,
                forall|j: int| 0 <= j < i ==> #[trigger] out@[j]@ == self.params@[j].1@,
            decreases self.params.len() - i,
        {
            out.push(self.params[i].1.deep_clone());
            i = i + 1;
        }
        out
    }
}

/// A finite map from names to values, kept in insertion order. Looking a
/// name up finds its most recent entry.
#[derive(Debug)]
pub struct Table<V> {
    pub entries: Vec<(String, V)>,
}

/// The most recent value entered under `k`.
pub open spec fn table_get<V>(entries: Seq<(String, V)>, k: Seq<char>) -> Option<V>
    decreases entries.len(),
{
    if entries.len() == 0 {
        None
    } else if entries.last().0@ == k {
        Some(entries.last().1)
    } else {
        table_get(entries.drop_last(), k)
    }
}

impl<V> Table<V> {
    pub fn new() -> (t: Table<V>)
        ensures
            t.entries@.len() == 0,
    {
        Table { entries: Vec::new() }
    }

    pub open spec fn get_spec(&self, k: Seq<char>) -> Option<V> {
        table_get(self.entries@, k)
    }

    pub fn get(&self, k: &str) -> (r: Option<&V>)
        ensures
            match r {
                Some(v) => self.get_spec(k@) == Some(*v),
                None => self.get_spec(k@) is None,
            },
    {
        let mut i = self.entries.len();
        assert(self.entries@.take(i as int) =~= self.entries@);
        while i > 0
            invariant
                i <= self.entries@.len(),
                table_get(self.entries@, k@) == table_get(self.entries@.take(i as int), k@),
            decreases i,
        {
            assert(self.entries@.take(i as int).drop_last() =~= self.entries@.take(i - 1));
            assert(self.entries@.take(i as int).last() == self.entries@[i - 1]);
            if str_eq(self.entries[i - 1].0.as_str(), k) {
                return Some(&self.entries[i - 1].1);
            }
            i = i - 1;
        }
        None
    }

    pub fn contains_key(&self, k: &str) -> (r: bool)
        ensures
            r == (self.get_spec(k@) is Some),
    {
        self.get(k).is_some()
    }

    /// Enters `v` under `k`, replacing an earlier entry for `k`.
    pub fn insert(&mut self, k: String, v: V)
        ensures
            final(self).get_spec(k@) == Some(v),
            forall|j: Seq<char>| j != k@ ==> #[trigger] final(self).get_spec(j) == old(self).get_spec(j),
    {
        self.entries.push((k, v));
        assert(self.entries@.drop_last() =~= old(self).entries@);
    }

    pub fn len(&self) -> (n: usize)
        ensures
            n == self.entries@.len(),
    {
        self.entries.len()
    }
}

#[derive(Debug)]
pub struct TypedProgram {
    pub items: Vec<TypedItem>,
    pub type_info: TypeInfo,
}

#[derive(Debug)]
pub struct TypeInfo {
    pub structs: Table<StructInfo>,
    pub enums: Table<EnumInfo>,
    pub aliases: Table<Type>,
    pub functions: Table<FuncInfo>,
    pub modules: Table<ModuleInfo>,
}

#[derive(Debug)]
pub struct ModuleInfo {
    pub structs: Table<StructInfo>,
    pub enums: Table<EnumInfo>,
    pub aliases: Table<Type>,
    pub functions: Table<FuncInfo>,
}

#[derive(Debug)]
pub struct StructInfo {
    pub name: String,
    pub fields: Vec<(String, Type)>,
    pub methods: Table<FuncInfo>,
    pub parent: Option<String>,
}

#[derive(Debug)]
pub struct EnumInfo {
    pub name: String,
    pub variants: Vec<VariantInfo>,
    pub methods: Table<FuncInfo>,
}

#[derive(Debug)]
pub struct VariantInfo {
    pub name: String,
    pub fields: Vec<Type>,
}

#[derive(Debug)]
pub struct FuncInfo {
    pub name: String,
    pub params: Vec<(String, Type)>,
    pub return_type: Type,
    pub is_method: bool,
}

#[derive(Debug)]
pub enum TypedItem {
    Function(TypedFnDef),
    /// A type definition; its resolved fields, variants and methods are in the `TypeInfo`.
    TypeDef(String),
    Let(TypedLetDecl),
    /// An import: path and optional alias.
    Import(String, Option<String>),
}

#[derive(Debug)]
pub struct TypedFnDef {
    pub name: String,
    pub params: Vec<(String, Type)>,
    pub return_type: Type,
    pub body: TypedBlock,
}

#[derive(Debug)]
pub struct TypedBlock {
    pub stmts: Vec<TypedStmt>,
    pub ty: Type,
}

#[derive(Debug)]
pub enum TypedStmt {
    Let(TypedLetDecl),
    LetTuple(Vec<(String, Type)>, TypedExpr),
    Assign(Box<TypedAssignTarget>, Box<TypedExpr>),
    Return(Option<TypedExpr>),
    ReturnError(TypedExpr),
    Break,
    Continue,
    Expr(TypedExpr),
}

#[derive(Debug)]
pub struct TypedLetDecl {
    pub name: String,
    pub mutable: bool,
    pub ty: Type,
    pub value: TypedExpr,
}

#[derive(Debug)]
pub enum TypedAssignTarget {
    Variable(String, Type),
    Field(TypedExpr, String, Type),
    Index(TypedExpr, TypedExpr, Type),
}

#[derive(Debug)]
pub struct TypedExpr {
    pub kind: TypedExprKind,
    pub ty: Type,
    pub span: Span,
}

#[derive(Debug)]
pub enum TypedExprKind {
    IntLit(i128),
    FloatLit(String),
    BoolLit(bool),
    StringLit(String),
    InterpolatedString(Vec<TypedStringPart>),
    Nil,
    Ident(String),
    BinOp(Box<TypedExpr>, BinOp, Box<TypedExpr>),
    UnaryOp(UnaryOp, Box<TypedExpr>),
    FieldAccess(Box<TypedExpr>, String),
    Index(Box<TypedExpr>, Box<TypedExpr>),
    Call(Box<TypedExpr>, Vec<TypedExpr>),
    MethodCall(Box<TypedExpr>, String, Vec<TypedExpr>),
    /// `Type.method(..)` or `module.function(..)`.
    StaticMethodCall(String, String, Vec<TypedExpr>),
    ArrayLit(Vec<TypedExpr>),
    MapLit(Vec<(TypedExpr, TypedExpr)>),
    TupleLit(Vec<TypedExpr>),
    /// Struct name, the fields given, and for `..source` the source and the
    /// fields (with their types) that it supplies.
    StructLit(String, Vec<(String, TypedExpr)>, Option<(Box<TypedExpr>, Vec<(String, Type)>)>),
    EnumVariant(String, String, Vec<TypedExpr>),
    ErrorLit(Box<TypedExpr>),
    If(Box<TypedExpr>, TypedBlock, Option<Box<TypedExpr>>),
    Match(Box<TypedExpr>, Vec<TypedMatchArm>),
    For(String, Option<String>, Box<TypedExpr>, TypedBlock),
    While(Box<TypedExpr>, TypedBlock),
    Loop(TypedBlock),
    Guard(Option<String>, Box<TypedExpr>, TypedBlock),
    Block(TypedBlock),
    Lambda(Vec<(String, Type)>, Type, TypedBlock),
    As(Box<TypedExpr>, Type),
    AsSafe(Box<TypedExpr>, Type),
    Is(Box<TypedExpr>, TypedIsTarget),
    Try(Box<TypedExpr>),
    Range(Box<TypedExpr>, Box<TypedExpr>),
    Panic(Vec<TypedExpr>),
}

#[derive(Debug)]
pub enum TypedStringPart {
    Literal(String),
    Expr(TypedExpr),
}

#[derive(Debug)]
pub enum TypedIsTarget {
    Type(TypeExpr),
    EnumVariant(String, String),
    QualifiedVariant(String, String, String),
    Expr(Box<TypedExpr>),
}

#[derive(Debug)]
pub struct TypedMatchArm {
    pub pattern: Pattern,
    pub body: TypedExpr,
    pub bindings: Vec<(String, Type)>,
}

} // verus!
