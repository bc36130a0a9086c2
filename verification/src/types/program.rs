//! Checking a whole program: registering type definitions, imported
//! modules and function signatures, then checking every body.
use vstd::prelude::*;
use crate::ast::{Program, Item, TypeDef, TypeDefKind, FnDef, Param, TypeExpr, FieldDef, VariantDef};
use super::resolve::{type_of_expr, type_of_expr_in, types_of_list_in, module_view};
use crate::error::{CompileError, CompileErrors};
use crate::text::{cat3, cat5, str_eq};
use super::{Type, TypeInfo, ModuleInfo, StructInfo, EnumInfo, VariantInfo, FuncInfo, Table, TypedProgram, TypedItem, TypedFnDef, clone_fields, clone_list};
use super::checker::{TypeChecker, unchanged};
use super::flow::block_returns;
use super::TypeView;
use super::capture::find_captured_mut_vars;
use super::typing::{typed_item_ok, block_well_typed, ret_of, block_from, checked_from};
use super::checker::same_context;
use super::exprs::{simple_block, simple_stmt_in, simple_stmt, literal_expr};
use crate::ast::{Block, StmtKind};

verus! {

/// The names that built-in capabilities use, which no type may take.
pub open spec fn reserved_type_name(n: Seq<char>) -> bool {
    n == "Stdout"@ || n == "Stdin"@ || n == "Fs"@ || n == "Env"@ || n == "Highlight"@
}

/// Every name registered in `a` is still registered in `b`.
pub open spec fn keeps_names<V>(a: Table<V>, b: Table<V>) -> bool {
    forall|k: Seq<char>| #[trigger] a.get_spec(k) is Some ==> b.get_spec(k) is Some
}

/// The registered structs and enums only grew.
pub open spec fn kinds_kept(a: TypeInfo, b: TypeInfo) -> bool {
    keeps_names(a.structs, b.structs) && keeps_names(a.enums, b.enums) && keeps_names(a.aliases, b.aliases)
        && b.functions == a.functions && b.modules == a.modules
}

/// The type definition's name is registered with its kind.
pub open spec fn registered(info: TypeInfo, td: TypeDef) -> bool {
    match td.kind {
        TypeDefKind::Struct(_) => info.structs.get_spec(td.name@) is Some,
        TypeDefKind::Enum(_) => info.enums.get_spec(td.name@) is Some,
        TypeDefKind::Alias(_) => true,
    }
}

/// No type definition among `items` takes a name reserved for a capability.
pub open spec fn no_reserved_names(items: Seq<Item>) -> bool {
    forall|j: int| 0 <= j < items.len() ==> (#[trigger] items[j] matches Item::TypeDef(td)
        ==> !reserved_type_name(td.name@))
}

/// How a checked item stands for the item it was checked from: same kind
/// and name, each checked statement and expression the checked form of
/// the source one, and a function whose declared result is not `nil`
/// returns on every path through its body.
pub open spec fn item_typed(item: Item, t: TypedItem) -> bool {
    match item {
        Item::Function(f) => match t {
            TypedItem::Function(tf) => tf.name@ == f.name@ && ((tf.return_type@ != TypeView::Nil
                && tf.return_type@ != TypeView::Void) ==> block_returns(tf.body)) && block_from(f.body, tf.body),
            _ => false,
        },
        Item::TypeDef(td) => t matches TypedItem::TypeDef(n) && n@ == td.name@,
        Item::Let(d) => t matches TypedItem::Let(tl) && tl.name@ == d.name@ && tl.mutable == d.mutable && checked_from(
            d.value,
            tl.value,
        ),
        Item::Import(imp) => t matches TypedItem::Import(path, _) && path@ == imp.path@,
    }
}

/// Every struct and enum that a module's items define is registered under
/// its qualified name `module.Name`.
pub open spec fn module_types_registered(info: TypeInfo, module: Seq<char>, items: Seq<Item>) -> bool {
    forall|i: int| 0 <= i < items.len() ==> (#[trigger] items[i] matches Item::TypeDef(td) ==> match td.kind {
        TypeDefKind::Struct(_) => info.structs.get_spec(module + "."@ + td.name@) is Some,
        TypeDefKind::Enum(_) => info.enums.get_spec(module + "."@ + td.name@) is Some,
        TypeDefKind::Alias(_) => true,
    })
}

/// Every function of a module's items is in the module's table.
pub open spec fn module_functions_registered(mi: ModuleInfo, items: Seq<Item>) -> bool {
    forall|i: int| 0 <= i < items.len() ==> (#[trigger] items[i] matches Item::Function(f)
        ==> mi.functions.get_spec(f.name@) is Some)
}

/// No module after position `m` has the name of module `m`.
pub open spec fn last_of_its_name(modules: Seq<(String, Vec<Item>)>, m: int) -> bool {
    forall|j: int| m < j < modules.len() ==> #[trigger] modules[j].0@ != modules[m].0@
}

/// Registration facts about a module survive registering more names.
pub proof fn lemma_registered_grows(a: TypeInfo, b: TypeInfo, module: Seq<char>, items: Seq<Item>)
    requires
        keeps_names(a.structs, b.structs),
        keeps_names(a.enums, b.enums),
        module_types_registered(a, module, items),
    ensures
        module_types_registered(b, module, items),
{
    assert forall|i: int| 0 <= i < items.len() implies (#[trigger] items[i] matches Item::TypeDef(td) ==> match td.kind {
        TypeDefKind::Struct(_) => b.structs.get_spec(module + "."@ + td.name@) is Some,
        TypeDefKind::Enum(_) => b.enums.get_spec(module + "."@ + td.name@) is Some,
        TypeDefKind::Alias(_) => true,
    }) by {
        match items[i] {
            Item::TypeDef(td) => {
                assert(a.structs.get_spec(module + "."@ + td.name@) is Some ==> b.structs.get_spec(module + "."@ + td.name@) is Some);
                assert(a.enums.get_spec(module + "."@ + td.name@) is Some ==> b.enums.get_spec(module + "."@ + td.name@) is Some);
            },
            _ => {},
        }
    }
}

/// A copy of a table of signatures.
pub fn clone_func_table(t: &Table<FuncInfo>) -> (r: Table<FuncInfo>)
    ensures
        r.entries@.len() == t.entries@.len(),
{
    let mut out: Table<FuncInfo> = Table::new();
    let mut i: usize = 0;
    while i < t.entries.len()
        invariant
            i <= t.entries@.len(),
            out.entries@.len() == i,
        decreases t.entries.len() - i,
    {
        out.entries.push((t.entries[i].0.clone(), t.entries[i].1.deep_clone()));
        i = i + 1;
    }
    out
}

/// A copy of a list of variants.
pub fn clone_variants(v: &Vec<VariantInfo>) -> (r: Vec<VariantInfo>)
    ensures
        r@.len() == v@.len(),
{
    let mut out: Vec<VariantInfo> = Vec::new();
    let mut i: usize = 0;
    while i < v.len()
        invariant
            i <= v@.len(),
            out@.len() == i,
        decreases v.len() - i,
    {
        out.push(VariantInfo { name: v[i].name.clone(), fields: clone_list(&v[i].fields) });
        i = i + 1;
    }
    out
}

impl StructInfo {
    pub fn deep_clone(&self) -> (r: StructInfo)
        ensures
            r.name@ == self.name@,
    {
        StructInfo {
            name: self.name.clone(),
            fields: clone_fields(&self.fields),
            methods: clone_func_table(&self.methods),
            parent: self.parent.clone(),
        }
    }
}

impl EnumInfo {
    pub fn deep_clone(&self) -> (r: EnumInfo)
        ensures
            r.name@ == self.name@,
    {
        EnumInfo { name: self.name.clone(), variants: clone_variants(&self.variants), methods: clone_func_table(&self.methods) }
    }
}

impl ModuleInfo {
    pub fn empty() -> (m: ModuleInfo)
        ensures
            m.structs.entries@.len() == 0,
            m.enums.entries@.len() == 0,
            m.aliases.entries@.len() == 0,
            m.functions.entries@.len() == 0,
    {
        ModuleInfo { structs: Table::new(), enums: Table::new(), aliases: Table::new(), functions: Table::new() }
    }
}

/// The type a written type stands for inside module `module` (where a
/// plain name first means a struct or enum of that module), or at the top
/// level.
pub open spec fn resolved_in(info: TypeInfo, cur: Option<String>, module: Option<Seq<char>>, ty: TypeExpr) -> Option<TypeView> {
    type_of_expr_in(info, cur, module, ty)
}

/// Every parameter's written type stands for a type.
pub open spec fn params_resolve(info: TypeInfo, cur: Option<String>, module: Option<Seq<char>>, ps: Seq<Param>) -> bool {
    forall|i: int| 0 <= i < ps.len() ==> (#[trigger] resolved_in(info, cur, module, ps[i].ty)) is Some
}

/// `v` holds the parameters' names with the types they stand for.
pub open spec fn params_resolved(info: TypeInfo, cur: Option<String>, module: Option<Seq<char>>, ps: Seq<Param>, v: Seq<(String, Type)>) -> bool {
    &&& v.len() == ps.len()
    &&& forall|i: int| 0 <= i < ps.len() ==> (#[trigger] v[i]).0@ == ps[i].name@ && resolved_in(info, cur, module, ps[i].ty) == Some(v[i].1@)
}

/// Every written type of a function's signature stands for a type.
pub open spec fn sig_resolves(info: TypeInfo, cur: Option<String>, module: Option<Seq<char>>, f: FnDef) -> bool {
    &&& params_resolve(info, cur, module, f.params@)
    &&& (f.return_type matches Some(t) ==> resolved_in(info, cur, module, t) is Some)
}

/// `fi` is the signature of `f`: its name, resolved parameters and return
/// type (`nil` when none is written).
pub open spec fn sig_of(info: TypeInfo, cur: Option<String>, module: Option<Seq<char>>, f: FnDef, fi: FuncInfo) -> bool {
    &&& fi.name@ == f.name@
    &&& params_resolved(info, cur, module, f.params@, fi.params@)
    &&& match f.return_type {
        Some(t) => resolved_in(info, cur, module, t) == Some(fi.return_type@),
        None => fi.return_type@ == TypeView::Nil,
    }
}

/// A method is called on a value when it is declared as one, or when its
/// first parameter is `self`.
pub open spec fn method_flag(f: FnDef, declared: bool) -> bool {
    declared || (f.params@.len() > 0 && f.params@[0].name@ == "self"@)
}

/// An entry `e` of a method table under name `x` is the signature of one
/// of the first `n` methods of that name.
pub open spec fn method_entry(
    info: TypeInfo,
    cur: Option<String>,
    module: Option<Seq<char>>,
    ms: Seq<FnDef>,
    n: int,
    declared: bool,
    x: Seq<char>,
    e: Option<FuncInfo>,
) -> bool {
    match e {
        Some(fi) => exists|j: int|
            0 <= j < n && ms[j].name@ == x && sig_of(info, cur, module, ms[j], fi) && fi.is_method == method_flag(
                ms[j],
                declared,
            ),
        None => true,
    }
}

/// `v` is the variant `d` with its field types resolved.
pub open spec fn variant_resolved(info: TypeInfo, cur: Option<String>, module: Option<Seq<char>>, d: VariantDef, v: VariantInfo) -> bool {
    &&& v.name@ == d.name@
    &&& v.fields@.len() == d.fields@.len()
    &&& forall|k: int| 0 <= k < d.fields@.len() ==> resolved_in(info, cur, module, d.fields@[k]) == Some((#[trigger] v.fields@[k])@)
}

/// Every written type of a type definition stands for a type: the field
/// types of a struct and the variant field types of an enum (where `Self`
/// is the type being defined), or the aliased type.
pub open spec fn skeleton_resolves(info: TypeInfo, cur: Option<String>, td: TypeDef) -> bool {
    match td.kind {
        TypeDefKind::Struct(sd) => forall|i: int| 0 <= i < sd.fields@.len() ==> (#[trigger] type_of_expr(
            info,
            Some(td.name),
            sd.fields@[i].ty,
        )) is Some,
        TypeDefKind::Enum(ed) => forall|i: int, k: int| 0 <= i < ed.variants@.len() && 0 <= k < ed.variants@[i].fields@.len()
            ==> (#[trigger] type_of_expr(info, Some(td.name), ed.variants@[i].fields@[k])) is Some,
        TypeDefKind::Alias(t) => type_of_expr(info, cur, t) is Some,
    }
}

/// Every method signature of a struct or enum definition resolves inside
/// it (where `Self` is the type being defined).
pub open spec fn methods_resolve(info: TypeInfo, td: TypeDef) -> bool {
    match td.kind {
        TypeDefKind::Struct(sd) => forall|i: int| 0 <= i < sd.methods@.len() ==> #[trigger] sig_resolves(
            info,
            Some(td.name),
            None,
            sd.methods@[i],
        ),
        TypeDefKind::Enum(ed) => forall|i: int| 0 <= i < ed.methods@.len() ==> #[trigger] sig_resolves(
            info,
            Some(td.name),
            None,
            ed.methods@[i],
        ),
        TypeDefKind::Alias(_) => true,
    }
}

/// Whether a signature resolves at the top level does not depend on which
/// string names the current type.
pub proof fn lemma_sig_resolves_same(info: TypeInfo, ca: Option<String>, cb: Option<String>, f: FnDef)
    requires
        same_cur(ca, cb),
    ensures
        sig_resolves(info, ca, None, f) == sig_resolves(info, cb, None, f),
{
    if params_resolve(info, ca, None, f.params@) {
        assert forall|i: int| 0 <= i < f.params@.len() implies (#[trigger] resolved_in(info, cb, None, f.params@[i].ty)) is Some by {
            lemma_type_of_expr_same(info, info, ca, cb, None, f.params@[i].ty);
            assert(resolved_in(info, ca, None, f.params@[i].ty) is Some);
        }
    }
    if params_resolve(info, cb, None, f.params@) {
        assert forall|i: int| 0 <= i < f.params@.len() implies (#[trigger] resolved_in(info, ca, None, f.params@[i].ty)) is Some by {
            lemma_type_of_expr_same(info, info, ca, cb, None, f.params@[i].ty);
            assert(resolved_in(info, cb, None, f.params@[i].ty) is Some);
        }
    }
    match f.return_type {
        Some(t) => {
            lemma_type_of_expr_same(info, info, ca, cb, None, t);
            assert(resolved_in(info, ca, None, t) == resolved_in(info, cb, None, t));
        },
        None => {},
    }
}

/// A signature resolves, and to the same types, wherever the named types
/// and modules are the same.
pub proof fn lemma_sig_frame(a: TypeInfo, b: TypeInfo, cur: Option<String>, f: FnDef, fi: FuncInfo)
    requires
        a.structs == b.structs,
        a.enums == b.enums,
        a.aliases == b.aliases,
        a.modules == b.modules,
    ensures
        sig_resolves(a, cur, None, f) == sig_resolves(b, cur, None, f),
        sig_of(a, cur, None, f, fi) == sig_of(b, cur, None, f, fi),
{
    assert forall|i: int| 0 <= i < f.params@.len() implies #[trigger] resolved_in(a, cur, None, f.params@[i].ty)
        == resolved_in(b, cur, None, f.params@[i].ty) by {
        lemma_type_of_expr_same(a, b, cur, cur, None, f.params@[i].ty);
    }
    if params_resolve(a, cur, None, f.params@) {
        assert forall|i: int| 0 <= i < f.params@.len() implies (#[trigger] resolved_in(b, cur, None, f.params@[i].ty)) is Some by {
            assert(resolved_in(a, cur, None, f.params@[i].ty) is Some);
        }
    }
    if params_resolve(b, cur, None, f.params@) {
        assert forall|i: int| 0 <= i < f.params@.len() implies (#[trigger] resolved_in(a, cur, None, f.params@[i].ty)) is Some by {
            assert(resolved_in(b, cur, None, f.params@[i].ty) is Some);
        }
    }
    if params_resolved(a, cur, None, f.params@, fi.params@) {
        assert forall|i: int| 0 <= i < f.params@.len() implies (#[trigger] fi.params@[i]).0@ == f.params@[i].name@
            && resolved_in(b, cur, None, f.params@[i].ty) == Some(fi.params@[i].1@) by {
            assert(resolved_in(a, cur, None, f.params@[i].ty) == resolved_in(b, cur, None, f.params@[i].ty));
        }
    }
    if params_resolved(b, cur, None, f.params@, fi.params@) {
        assert forall|i: int| 0 <= i < f.params@.len() implies (#[trigger] fi.params@[i]).0@ == f.params@[i].name@
            && resolved_in(a, cur, None, f.params@[i].ty) == Some(fi.params@[i].1@) by {
            assert(resolved_in(a, cur, None, f.params@[i].ty) == resolved_in(b, cur, None, f.params@[i].ty));
        }
    }
    match f.return_type {
        Some(t) => {
            lemma_type_of_expr_same(a, b, cur, cur, None, t);
        },
        None => {},
    }
}

/// Some function item among the first `n` items is named `x`.
pub open spec fn fn_named(items: Seq<Item>, n: int, x: Seq<char>) -> bool {
    exists|k: int| 0 <= k < n && (#[trigger] items[k] matches Item::Function(g) && g.name@ == x)
}

/// `e` is the signature of one of the first `n` items, a function named `x`.
pub open spec fn fn_entry(info: TypeInfo, cur: Option<String>, items: Seq<Item>, n: int, x: Seq<char>, e: Option<FuncInfo>) -> bool {
    match e {
        Some(fi) => !fi.is_method && exists|k: int|
            0 <= k < n && (#[trigger] items[k] matches Item::Function(g) && g.name@ == x && sig_of(info, cur, None, g, fi)),
        None => false,
    }
}

/// The imported modules define no types and no functions.
pub open spec fn no_module_code(modules: Seq<(String, Vec<Item>)>) -> bool {
    forall|m: int, i: int| 0 <= m < modules.len() && 0 <= i < modules[m].1@.len() ==> !(#[trigger] modules[m].1@[i] is TypeDef)
        && !(modules[m].1@[i] is Function)
}

/// Some parameter has the name of an imported module.
pub open spec fn params_shadow_module(ck: TypeChecker, ps: Seq<(String, Type)>) -> bool {
    exists|i: int| 0 <= i < ps.len() && ck.is_module(#[trigger] ps[i].0@)
}

/// A statement that needs nothing of the checker: a literal, or `let` of a
/// literal with no written type.
pub open spec fn plain_stmt(st: crate::ast::Stmt) -> bool {
    match st.kind {
        StmtKind::Expr(e) => literal_expr(e),
        StmtKind::Let(d) => d.ty is None && literal_expr(d.value),
        _ => false,
    }
}

/// Every statement of the block needs nothing of the checker.
pub open spec fn plain_body(b: Block) -> bool {
    forall|i: int| 0 <= i < b.stmts@.len() ==> plain_stmt(#[trigger] b.stmts@[i])
}

/// A program that always checks: no imports, modules or type definitions;
/// functions without parameters or written result whose bodies hold only
/// literals and `let`s of literals; top-level `let`s of literals.
pub open spec fn simple_program(p: Program) -> bool {
    &&& p.modules@.len() == 0
    &&& forall|i: int| 0 <= i < p.items@.len() ==> match #[trigger] p.items@[i] {
        Item::Function(f) => f.params@.len() == 0 && f.return_type is None && plain_body(f.body),
        Item::Let(d) => d.ty is None && literal_expr(d.value),
        _ => false,
    }
}

/// No module is registered.
pub open spec fn no_modules(info: TypeInfo) -> bool {
    forall|x: Seq<char>| #[trigger] info.modules.get_spec(x) is None
}

/// A plain body is simple wherever no module is registered.
pub proof fn lemma_plain_simple(b: Block, lp: bool, info: TypeInfo)
    requires
        plain_body(b),
        no_modules(info),
    ensures
        simple_block(b, lp, info),
{
    assert forall|i: int| 0 <= i < b.stmts@.len() implies simple_stmt_in(#[trigger] b.stmts@[i], lp, info) by {
        assert(plain_stmt(b.stmts@[i]));
        if let StmtKind::Let(d) = b.stmts@[i].kind {
            assert(info.modules.get_spec(d.name@) is None);
        }
    }
}

/// No item is a type definition.
pub open spec fn no_type_defs(items: Seq<Item>) -> bool {
    forall|j: int| 0 <= j < items.len() ==> !(#[trigger] items[j] is TypeDef)
}

/// Two checkers' current type names name the same type.
pub open spec fn same_cur(a: Option<String>, b: Option<String>) -> bool {
    match a {
        Some(x) => b matches Some(y) && x@ == y@,
        None => b is None,
    }
}

/// A written type stands for the same type wherever the named types and
/// modules, and the current type's name, are the same.
pub proof fn lemma_type_of_expr_same(a: TypeInfo, b: TypeInfo, ca: Option<String>, cb: Option<String>, md: Option<Seq<char>>, t: TypeExpr)
    requires
        a.structs == b.structs,
        a.enums == b.enums,
        a.aliases == b.aliases,
        a.modules == b.modules,
        same_cur(ca, cb),
    ensures
        type_of_expr_in(a, ca, md, t) == type_of_expr_in(b, cb, md, t),
    decreases t,
{
    match t {
        TypeExpr::Array(x) => lemma_type_of_expr_same(a, b, ca, cb, md, *x),
        TypeExpr::Optional(x) => lemma_type_of_expr_same(a, b, ca, cb, md, *x),
        TypeExpr::MapOf(k, v) => {
            lemma_type_of_expr_same(a, b, ca, cb, md, *k);
            lemma_type_of_expr_same(a, b, ca, cb, md, *v);
        },
        TypeExpr::Result(k, v) => {
            lemma_type_of_expr_same(a, b, ca, cb, md, *k);
            lemma_type_of_expr_same(a, b, ca, cb, md, *v);
        },
        TypeExpr::Tuple(ts) => lemma_types_of_list_same(a, b, ca, cb, md, ts@),
        TypeExpr::Union(ts) => lemma_types_of_list_same(a, b, ca, cb, md, ts@),
        TypeExpr::Function(ts, r) => {
            lemma_types_of_list_same(a, b, ca, cb, md, ts@);
            lemma_type_of_expr_same(a, b, ca, cb, md, *r);
        },
        _ => {},
    }
}

/// `lemma_type_of_expr_same` for lists of written types.
pub proof fn lemma_types_of_list_same(a: TypeInfo, b: TypeInfo, ca: Option<String>, cb: Option<String>, md: Option<Seq<char>>, ts: Seq<TypeExpr>)
    requires
        a.structs == b.structs,
        a.enums == b.enums,
        a.aliases == b.aliases,
        a.modules == b.modules,
        same_cur(ca, cb),
    ensures
        types_of_list_in(a, ca, md, ts) == types_of_list_in(b, cb, md, ts),
    decreases ts,
{
    if ts.len() > 0 {
        lemma_types_of_list_same(a, b, ca, cb, md, ts.drop_last());
        lemma_type_of_expr_same(a, b, ca, cb, md, ts.last());
    }
}

/// The functions of the built-in `math` module and how many `f64`
/// arguments each takes.
pub open spec fn math_arity(name: Seq<char>) -> Option<nat> {
    if name == "sqrt"@ || name == "abs"@ || name == "floor"@ || name == "ceil"@ || name == "round"@ || name
        == "sin"@ || name == "cos"@ || name == "tan"@ || name == "asin"@ || name == "acos"@ || name == "atan"@
        || name == "log"@ || name == "log2"@ || name == "log10"@ || name == "exp"@ {
        Some(1)
    } else if name == "min"@ || name == "max"@ || name == "atan2"@ || name == "pow"@ {
        Some(2)
    } else if name == "pi"@ || name == "e"@ || name == "tau"@ || name == "inf"@ {
        Some(0)
    } else {
        None
    }
}

/// The table holds the math function `x`, with its signature, exactly when
/// there is one of that name.
pub open spec fn math_entry(t: Table<FuncInfo>, x: Seq<char>) -> bool {
    match math_arity(x) {
        Some(n) => t.get_spec(x) matches Some(f) && math_fn_info(x, n, f),
        None => t.get_spec(x) is None,
    }
}

/// `f` is the math function `name`: `n` parameters of type `f64`, an `f64` result.
pub open spec fn math_fn_info(name: Seq<char>, n: nat, f: FuncInfo) -> bool {
    &&& f.name@ == name
    &&& f.params@.len() == n
    &&& forall|i: int| 0 <= i < n ==> (#[trigger] f.params@[i]).1@ == super::TypeView::F64
    &&& forall|i: int| 0 <= i < n ==> (#[trigger] f.params@[i]).0@ == math_param_name(n, i)
    &&& f.return_type@ == super::TypeView::F64
    &&& !f.is_method
}

/// The name of parameter `i` of a math function of `n` parameters: `x`
/// for one, `a` and `b` for two.
pub open spec fn math_param_name(n: nat, i: int) -> Seq<char> {
    if n == 1 {
        "x"@
    } else if i == 0 {
        "a"@
    } else {
        "b"@
    }
}

/// Adds the math function `name` with parameters named `params`.
fn add_math_fn(t: &mut Table<FuncInfo>, name: &str, params: &[&str])
    requires
        forall|i: int| 0 <= i < params@.len() ==> (#[trigger] params@[i])@ == math_param_name(params@.len() as nat, i),
    ensures
        final(t).get_spec(name@) matches Some(f) && math_fn_info(name@, params@.len() as nat, f),
        forall|j: Seq<char>| j != name@ ==> #[trigger] final(t).get_spec(j) == old(t).get_spec(j),
{
    let (k, v) = math_fn(name, params);
    t.insert(k, v);
}

/// What the names of the math functions are spelled of, enough to tell
/// them apart.
proof fn lemma_math_names()
    ensures
        "sqrt"@.len() == 4 && "sqrt"@[0] == 's' && "sqrt"@[1] == 'q' && "sqrt"@[2] == 'r',
        "abs"@.len() == 3 && "abs"@[0] == 'a' && "abs"@[1] == 'b' && "abs"@[2] == 's',
        "floor"@.len() == 5 && "floor"@[0] == 'f' && "floor"@[1] == 'l' && "floor"@[2] == 'o',
        "ceil"@.len() == 4 && "ceil"@[0] == 'c' && "ceil"@[1] == 'e' && "ceil"@[2] == 'i',
        "round"@.len() == 5 && "round"@[0] == 'r' && "round"@[1] == 'o' && "round"@[2] == 'u',
        "min"@.len() == 3 && "min"@[0] == 'm' && "min"@[1] == 'i' && "min"@[2] == 'n',
        "max"@.len() == 3 && "max"@[0] == 'm' && "max"@[1] == 'a' && "max"@[2] == 'x',
        "sin"@.len() == 3 && "sin"@[0] == 's' && "sin"@[1] == 'i' && "sin"@[2] == 'n',
        "cos"@.len() == 3 && "cos"@[0] == 'c' && "cos"@[1] == 'o' && "cos"@[2] == 's',
        "tan"@.len() == 3 && "tan"@[0] == 't' && "tan"@[1] == 'a' && "tan"@[2] == 'n',
        "asin"@.len() == 4 && "asin"@[0] == 'a' && "asin"@[1] == 's' && "asin"@[2] == 'i',
        "acos"@.len() == 4 && "acos"@[0] == 'a' && "acos"@[1] == 'c' && "acos"@[2] == 'o',
        "atan"@.len() == 4 && "atan"@[0] == 'a' && "atan"@[1] == 't' && "atan"@[2] == 'a',
        "atan2"@.len() == 5 && "atan2"@[0] == 'a' && "atan2"@[1] == 't' && "atan2"@[2] == 'a',
        "log"@.len() == 3 && "log"@[0] == 'l' && "log"@[1] == 'o' && "log"@[2] == 'g',
        "log2"@.len() == 4 && "log2"@[0] == 'l' && "log2"@[1] == 'o' && "log2"@[2] == 'g',
        "log10"@.len() == 5 && "log10"@[0] == 'l' && "log10"@[1] == 'o' && "log10"@[2] == 'g',
        "exp"@.len() == 3 && "exp"@[0] == 'e' && "exp"@[1] == 'x' && "exp"@[2] == 'p',
        "pow"@.len() == 3 && "pow"@[0] == 'p' && "pow"@[1] == 'o' && "pow"@[2] == 'w',
        "pi"@.len() == 2 && "pi"@[0] == 'p' && "pi"@[1] == 'i',
        "e"@.len() == 1 && "e"@[0] == 'e',
        "tau"@.len() == 3 && "tau"@[0] == 't' && "tau"@[1] == 'a' && "tau"@[2] == 'u',
        "inf"@.len() == 3 && "inf"@[0] == 'i' && "inf"@[1] == 'n' && "inf"@[2] == 'f',
{
    reveal_strlit("sqrt");
    reveal_strlit("abs");
    reveal_strlit("floor");
    reveal_strlit("ceil");
    reveal_strlit("round");
    reveal_strlit("min");
    reveal_strlit("max");
    reveal_strlit("sin");
    reveal_strlit("cos");
    reveal_strlit("tan");
    reveal_strlit("asin");
    reveal_strlit("acos");
    reveal_strlit("atan");
    reveal_strlit("atan2");
    reveal_strlit("log");
    reveal_strlit("log2");
    reveal_strlit("log10");
    reveal_strlit("exp");
    reveal_strlit("pow");
    reveal_strlit("pi");
    reveal_strlit("e");
    reveal_strlit("tau");
    reveal_strlit("inf");
}

/// Adds the math functions `sqrt`, `abs`, `floor`, `ceil`, `round`.
fn add_math_group_0(t: &mut Table<FuncInfo>)
    ensures
        forall|j: Seq<char>| (j == "sqrt"@ || j == "abs"@ || j == "floor"@ || j == "ceil"@ || j == "round"@) ==> (#[trigger] final(t).get_spec(j) matches Some(f) && math_fn_info(j, 1, f)),
        forall|j: Seq<char>| !(j == "sqrt"@ || j == "abs"@ || j == "floor"@ || j == "ceil"@ || j == "round"@) ==> #[trigger] final(t).get_spec(j) == old(t).get_spec(j),
{
    let ps: [&str; 1] = ["x"];
    assert(ps@.len() == 1);
    assert(ps@[0] == "x");
    add_math_fn(t, "sqrt", &ps);
    add_math_fn(t, "abs", &ps);
    add_math_fn(t, "floor", &ps);
    add_math_fn(t, "ceil", &ps);
    add_math_fn(t, "round", &ps);
    proof {
        lemma_math_names();
    }
}

/// Adds the math functions `min`, `max`.
fn add_math_group_1(t: &mut Table<FuncInfo>)
    ensures
        forall|j: Seq<char>| (j == "min"@ || j == "max"@) ==> (#[trigger] final(t).get_spec(j) matches Some(f) && math_fn_info(j, 2, f)),
        forall|j: Seq<char>| !(j == "min"@ || j == "max"@) ==> #[trigger] final(t).get_spec(j) == old(t).get_spec(j),
{
    let ps: [&str; 2] = ["a", "b"];
    assert(ps@.len() == 2);
    assert(ps@[0] == "a" && ps@[1] == "b");
    add_math_fn(t, "min", &ps);
    add_math_fn(t, "max", &ps);
    proof {
        lemma_math_names();
    }
}

/// Adds the math functions `sin`, `cos`, `tan`, `asin`, `acos`, `atan`.
fn add_math_group_2(t: &mut Table<FuncInfo>)
    ensures
        forall|j: Seq<char>| (j == "sin"@ || j == "cos"@ || j == "tan"@ || j == "asin"@ || j == "acos"@ || j == "atan"@) ==> (#[trigger] final(t).get_spec(j) matches Some(f) && math_fn_info(j, 1, f)),
        forall|j: Seq<char>| !(j == "sin"@ || j == "cos"@ || j == "tan"@ || j == "asin"@ || j == "acos"@ || j == "atan"@) ==> #[trigger] final(t).get_spec(j) == old(t).get_spec(j),
{
    let ps: [&str; 1] = ["x"];
    assert(ps@.len() == 1);
    assert(ps@[0] == "x");
    add_math_fn(t, "sin", &ps);
    add_math_fn(t, "cos", &ps);
    add_math_fn(t, "tan", &ps);
    add_math_fn(t, "asin", &ps);
    add_math_fn(t, "acos", &ps);
    add_math_fn(t, "atan", &ps);
    proof {
        lemma_math_names();
    }
}

/// Adds the math functions `atan2`.
fn add_math_group_3(t: &mut Table<FuncInfo>)
    ensures
        forall|j: Seq<char>| (j == "atan2"@) ==> (#[trigger] final(t).get_spec(j) matches Some(f) && math_fn_info(j, 2, f)),
        forall|j: Seq<char>| !(j == "atan2"@) ==> #[trigger] final(t).get_spec(j) == old(t).get_spec(j),
{
    let ps: [&str; 2] = ["a", "b"];
    assert(ps@.len() == 2);
    assert(ps@[0] == "a" && ps@[1] == "b");
    add_math_fn(t, "atan2", &ps);
    proof {
        lemma_math_names();
    }
}

/// Adds the math functions `log`, `log2`, `log10`, `exp`.
fn add_math_group_4(t: &mut Table<FuncInfo>)
    ensures
        forall|j: Seq<char>| (j == "log"@ || j == "log2"@ || j == "log10"@ || j == "exp"@) ==> (#[trigger] final(t).get_spec(j) matches Some(f) && math_fn_info(j, 1, f)),
        forall|j: Seq<char>| !(j == "log"@ || j == "log2"@ || j == "log10"@ || j == "exp"@) ==> #[trigger] final(t).get_spec(j) == old(t).get_spec(j),
{
    let ps: [&str; 1] = ["x"];
    assert(ps@.len() == 1);
    assert(ps@[0] == "x");
    add_math_fn(t, "log", &ps);
    add_math_fn(t, "log2", &ps);
    add_math_fn(t, "log10", &ps);
    add_math_fn(t, "exp", &ps);
    proof {
        lemma_math_names();
    }
}

/// Adds the math functions `pow`.
fn add_math_group_5(t: &mut Table<FuncInfo>)
    ensures
        forall|j: Seq<char>| (j == "pow"@) ==> (#[trigger] final(t).get_spec(j) matches Some(f) && math_fn_info(j, 2, f)),
        forall|j: Seq<char>| !(j == "pow"@) ==> #[trigger] final(t).get_spec(j) == old(t).get_spec(j),
{
    let ps: [&str; 2] = ["a", "b"];
    assert(ps@.len() == 2);
    assert(ps@[0] == "a" && ps@[1] == "b");
    add_math_fn(t, "pow", &ps);
    proof {
        lemma_math_names();
    }
}

/// Adds the math functions `pi`, `e`, `tau`, `inf`.
fn add_math_group_6(t: &mut Table<FuncInfo>)
    ensures
        forall|j: Seq<char>| (j == "pi"@ || j == "e"@ || j == "tau"@ || j == "inf"@) ==> (#[trigger] final(t).get_spec(j) matches Some(f) && math_fn_info(j, 0, f)),
        forall|j: Seq<char>| !(j == "pi"@ || j == "e"@ || j == "tau"@ || j == "inf"@) ==> #[trigger] final(t).get_spec(j) == old(t).get_spec(j),
{
    let ps: [&str; 0] = [];
    assert(ps@.len() == 0);
    add_math_fn(t, "pi", &ps);
    add_math_fn(t, "e", &ps);
    add_math_fn(t, "tau", &ps);
    add_math_fn(t, "inf", &ps);
    proof {
        lemma_math_names();
    }
}

/// The function table of the built-in `math` module.
fn math_functions() -> (t: Table<FuncInfo>)
    ensures
        forall|x: Seq<char>| #[trigger] math_entry(t, x),
{
    let mut t: Table<FuncInfo> = Table::new();
    let ghost t0 = t;
    add_math_group_0(&mut t);
    let ghost t1 = t;
    add_math_group_1(&mut t);
    let ghost t2 = t;
    add_math_group_2(&mut t);
    let ghost t3 = t;
    add_math_group_3(&mut t);
    let ghost t4 = t;
    add_math_group_4(&mut t);
    let ghost t5 = t;
    add_math_group_5(&mut t);
    let ghost t6 = t;
    add_math_group_6(&mut t);
    let ghost t7 = t;
    proof {
        lemma_math_names();
        assert forall|x: Seq<char>| #[trigger] math_entry(t, x) by {
            if x == "sqrt"@ || x == "abs"@ || x == "floor"@ || x == "ceil"@ || x == "round"@ {
                assert(t1.get_spec(x) matches Some(f) && math_fn_info(x, 1, f));
            } else if x == "min"@ || x == "max"@ {
                assert(t2.get_spec(x) matches Some(f) && math_fn_info(x, 2, f));
            } else if x == "sin"@ || x == "cos"@ || x == "tan"@ || x == "asin"@ || x == "acos"@ || x == "atan"@ {
                assert(t3.get_spec(x) matches Some(f) && math_fn_info(x, 1, f));
            } else if x == "atan2"@ {
                assert(t4.get_spec(x) matches Some(f) && math_fn_info(x, 2, f));
            } else if x == "log"@ || x == "log2"@ || x == "log10"@ || x == "exp"@ {
                assert(t5.get_spec(x) matches Some(f) && math_fn_info(x, 1, f));
            } else if x == "pow"@ {
                assert(t6.get_spec(x) matches Some(f) && math_fn_info(x, 2, f));
            } else if x == "pi"@ || x == "e"@ || x == "tau"@ || x == "inf"@ {
                assert(t7.get_spec(x) matches Some(f) && math_fn_info(x, 0, f));
            } else {
                assert(t0.get_spec(x) is None);
            }
        }
    }
    t
}

/// A function of the math module: `n` parameters of type `f64` named as given, returning `f64`.
fn math_fn(name: &str, params: &[&str]) -> (r: (String, FuncInfo))
    ensures
        r.0@ == name@,
        r.1.name@ == name@,
        r.1.params@.len() == params@.len(),
        forall|i: int| 0 <= i < params@.len() ==> (#[trigger] r.1.params@[i]).1@ == super::TypeView::F64,
        forall|i: int| 0 <= i < params@.len() ==> (#[trigger] r.1.params@[i]).0@ == params@[i]@,
        r.1.return_type@ == super::TypeView::F64,
        !r.1.is_method,
{
    let mut ps: Vec<(String, Type)> = Vec::new();
    let mut i: usize = 0;
    while i < params.len()
        invariant
            i <= params@.len(),
            ps@.len() == i,
            forall|j: int| 0 <= j < i ==> (#[trigger] ps@[j]).1@ == super::TypeView::F64,
            forall|j: int| 0 <= j < i ==> (#[trigger] ps@[j]).0@ == params@[j]@,
        decreases params.len() - i,
    {
        ps.push((params[i].to_string(), Type::F64));
        i = i + 1;
    }
    (name.to_string(), FuncInfo { name: name.to_string(), params: ps, return_type: Type::F64, is_method: false })
}

impl TypeChecker {
    /// The resolved parameters of a function or method.
    fn resolve_params(&self, params: &Vec<Param>, module: Option<&str>) -> (r: Result<Vec<(String, Type)>, CompileError>)
        ensures
            r matches Ok(v) ==> v@.len() == params@.len(),
            r is Ok <==> params_resolve(self.type_info, self.current_type_name, module_view(module), params@),
            r matches Ok(v) ==> params_resolved(self.type_info, self.current_type_name, module_view(module), params@, v@),
    {
        let mut out: Vec<(String, Type)> = Vec::new();
        let mut i: usize = 0;
        while i < params.len()
            invariant
                i <= params@.len(),
                out@.len() == i,
                forall|j: int| 0 <= j < i ==> (#[trigger] out@[j]).0@ == params@[j].name@ && resolved_in(
                    self.type_info,
                    self.current_type_name,
                    module_view(module),
                    params@[j].ty,
                ) == Some(out@[j].1@),
            decreases params.len() - i,
        {
            let t = match module {
                Some(m) => self.resolve_type_expr_in_module(&params[i].ty, m),
                None => self.resolve_type_expr(&params[i].ty),
            };
            match t {
                Ok(t) => out.push((params[i].name.clone(), t)),
                Err(e) => {
                    assert(resolved_in(self.type_info, self.current_type_name, module_view(module), params@[i as int].ty) is None);
                    return Err(e);
                },
            }
            i = i + 1;
        }
        assert forall|j: int| 0 <= j < params@.len() implies (#[trigger] resolved_in(
            self.type_info,
            self.current_type_name,
            module_view(module),
            params@[j].ty,
        )) is Some by {
            assert(out@[j].0@ == params@[j].name@);
        }
        Ok(out)
    }

    /// The signature of a function or method: its resolved parameters and
    /// return type (`nil` when none is written).
    fn resolve_signature(&self, f: &FnDef, module: Option<&str>, is_method: bool) -> (r: Result<FuncInfo, CompileError>)
        ensures
            r matches Ok(info) ==> info.name@ == f.name@ && info.params@.len() == f.params@.len(),
            r is Ok <==> sig_resolves(self.type_info, self.current_type_name, module_view(module), *f),
            r matches Ok(info) ==> sig_of(self.type_info, self.current_type_name, module_view(module), *f, info)
                && info.is_method == method_flag(*f, is_method),
    {
        let params = match self.resolve_params(&f.params, module) {
            Ok(p) => p,
            Err(e) => {
                return Err(e);
            },
        };
        let ret = match &f.return_type {
            Some(t) => {
                let r = match module {
                    Some(m) => self.resolve_type_expr_in_module(t, m),
                    None => self.resolve_type_expr(t),
                };
                match r {
                    Ok(t) => t,
                    Err(e) => {
                        return Err(e);
                    },
                }
            },
            None => Type::Nil,
        };
        let is_method = is_method || (params.len() > 0 && str_eq(params[0].0.as_str(), "self"));
        Ok(FuncInfo { name: f.name.clone(), params, return_type: ret, is_method })
    }

    /// The signatures of a list of methods, by name.
    fn resolve_methods(&self, methods: &Vec<FnDef>, module: Option<&str>, all_methods: bool) -> (r: Result<
        Table<FuncInfo>,
        CompileError,
    >)
        ensures
            r is Ok <==> forall|i: int| 0 <= i < methods@.len() ==> #[trigger] sig_resolves(
                self.type_info,
                self.current_type_name,
                module_view(module),
                methods@[i],
            ),
            r matches Ok(t) ==> forall|x: Seq<char>| #[trigger] t.get_spec(x) is Some <==> exists|i: int|
                0 <= i < methods@.len() && methods@[i].name@ == x,
            r matches Ok(t) ==> forall|x: Seq<char>| #[trigger] method_entry(
                self.type_info,
                self.current_type_name,
                module_view(module),
                methods@,
                methods@.len() as int,
                all_methods,
                x,
                t.get_spec(x),
            ),
    {
        let mut table: Table<FuncInfo> = Table::new();
        let mut i: usize = 0;
        while i < methods.len()
            invariant
                i <= methods@.len(),
                forall|j: int| 0 <= j < i ==> #[trigger] sig_resolves(
                    self.type_info,
                    self.current_type_name,
                    module_view(module),
                    methods@[j],
                ),
                forall|x: Seq<char>| #[trigger] table.get_spec(x) is Some <==> exists|j: int|
                    0 <= j < i && methods@[j].name@ == x,
                forall|x: Seq<char>| #[trigger] method_entry(
                    self.type_info,
                    self.current_type_name,
                    module_view(module),
                    methods@,
                    i as int,
                    all_methods,
                    x,
                    table.get_spec(x),
                ),
            decreases methods.len() - i,
        {
            let info = match self.resolve_signature(&methods[i], module, all_methods) {
                Ok(info) => info,
                Err(e) => {
                    return Err(e);
                },
            };
            let ghost before = table;
            let ghost fi = info;
            table.insert(methods[i].name.clone(), info);
            proof {
                assert forall|x: Seq<char>| #[trigger] table.get_spec(x) is Some <==> exists|j: int|
                    0 <= j < i + 1 && methods@[j].name@ == x by {
                    if x != methods@[i as int].name@ {
                        if exists|j: int| 0 <= j < i + 1 && methods@[j].name@ == x {
                            let j = choose|j: int| 0 <= j < i + 1 && methods@[j].name@ == x;
                            assert(j < i);
                        }
                    }
                }
                assert forall|x: Seq<char>| #[trigger] method_entry(
                    self.type_info,
                    self.current_type_name,
                    module_view(module),
                    methods@,
                    i + 1,
                    all_methods,
                    x,
                    table.get_spec(x),
                ) by {
                    if x == methods@[i as int].name@ {
                        assert(table.get_spec(x) == Some(fi));
                    } else {
                        assert(table.get_spec(x) == before.get_spec(x));
                        assert(method_entry(self.type_info, self.current_type_name, module_view(module), methods@, i as int, all_methods, x, before.get_spec(x)));
                    }
                }
            }
            i = i + 1;
        }
        Ok(table)
    }

    /// Phase one: registers a type's name, with no fields or methods yet.
    pub fn register_type_name(&mut self, td: &TypeDef) -> (r: Result<(), CompileError>)
        ensures
            final(self).current_fn_return == old(self).current_fn_return,
            final(self).in_loop == old(self).in_loop,
            reserved_type_name(td.name@) <==> r is Err,
            r matches Err(e) ==> e.message@ == "type name '"@ + td.name@ + "' is reserved for a built-in capability"@
                && e.span == td.span,
            kinds_kept(old(self).type_info, final(self).type_info),
            r is Ok ==> registered(final(self).type_info, *td),
    {
        let n = td.name.as_str();
        if str_eq(n, "Stdout") || str_eq(n, "Stdin") || str_eq(n, "Fs") || str_eq(n, "Env") || str_eq(n, "Highlight") {
            let msg = cat3("type name '", n, "' is reserved for a built-in capability");
            return Err(CompileError::new(msg, td.span));
        }
        match &td.kind {
            TypeDefKind::Struct(_) => {
                if !self.type_info.structs.contains_key(n) {
                    self.type_info.structs.insert(
                        td.name.clone(),
                        StructInfo { name: td.name.clone(), fields: Vec::new(), methods: Table::new(), parent: td.parent.clone() },
                    );
                }
            },
            TypeDefKind::Enum(_) => {
                if !self.type_info.enums.contains_key(n) {
                    self.type_info.enums.insert(
                        td.name.clone(),
                        EnumInfo { name: td.name.clone(), variants: Vec::new(), methods: Table::new() },
                    );
                }
            },
            TypeDefKind::Alias(ty) => {
                match self.resolve_type_expr(ty) {
                    Ok(resolved) => self.type_info.aliases.insert(td.name.clone(), resolved),
                    Err(_) => {},
                }
            },
        }
        Ok(())
    }

    /// Phase two: resolves a type's fields, variants or aliased type (all
    /// type names are known by now).
    #[verifier::loop_isolation(false)]
    pub fn register_type_def_skeleton(&mut self, td: &TypeDef) -> (r: Result<(), CompileError>)
        ensures
            final(self).current_fn_return == old(self).current_fn_return,
            final(self).in_loop == old(self).in_loop,
            kinds_kept(old(self).type_info, final(self).type_info),
            r is Ok <==> skeleton_resolves(old(self).type_info, old(self).current_type_name, *td),
    {
        let ghost info0 = self.type_info;
        match &td.kind {
            TypeDefKind::Struct(sdef) => {
                self.current_type_name = Some(td.name.clone());
                let mut fields: Vec<(String, Type)> = Vec::new();
                let mut i: usize = 0;
                while i < sdef.fields.len()
                    invariant
                        self.current_fn_return == old(self).current_fn_return,
                        self.in_loop == old(self).in_loop,
                        i <= sdef.fields@.len(),
                        self.type_info == info0,
                        same_cur(self.current_type_name, Some(td.name)),
                        forall|j: int| 0 <= j < i ==> (#[trigger] type_of_expr(info0, Some(td.name), sdef.fields@[j].ty)) is Some,
                    decreases sdef.fields.len() - i,
                {
                    proof {
                        lemma_type_of_expr_same(info0, info0, self.current_type_name, Some(td.name), None, sdef.fields@[i as int].ty);
                    }
                    match self.resolve_type_expr(&sdef.fields[i].ty) {
                        Ok(t) => fields.push((sdef.fields[i].name.clone(), t)),
                        Err(e) => {
                            return Err(e);
                        },
                    }
                    i = i + 1;
                }
                let updated = match self.type_info.structs.get(td.name.as_str()) {
                    Some(info) => Some(
                        StructInfo {
                            name: info.name.clone(),
                            fields,
                            methods: clone_func_table(&info.methods),
                            parent: info.parent.clone(),
                        },
                    ),
                    None => None,
                };
                match updated {
                    Some(info) => self.type_info.structs.insert(td.name.clone(), info),
                    None => {},
                }
                self.current_type_name = None;
            },
            TypeDefKind::Enum(edef) => {
                self.current_type_name = Some(td.name.clone());
                let mut variants: Vec<VariantInfo> = Vec::new();
                let mut i: usize = 0;
                while i < edef.variants.len()
                    invariant
                        self.current_fn_return == old(self).current_fn_return,
                        self.in_loop == old(self).in_loop,
                        i <= edef.variants@.len(),
                        self.type_info == info0,
                        same_cur(self.current_type_name, Some(td.name)),
                        forall|a: int, b: int| 0 <= a < i && 0 <= b < edef.variants@[a].fields@.len() ==> (#[trigger] type_of_expr(
                            info0,
                            Some(td.name),
                            edef.variants@[a].fields@[b],
                        )) is Some,
                    decreases edef.variants.len() - i,
                {
                    let mut fields: Vec<Type> = Vec::new();
                    let mut k: usize = 0;
                    while k < edef.variants[i].fields.len()
                        invariant
                            self.current_fn_return == old(self).current_fn_return,
                            self.in_loop == old(self).in_loop,
                            i < edef.variants@.len(),
                            k <= edef.variants@[i as int].fields@.len(),
                            self.type_info == info0,
                            same_cur(self.current_type_name, Some(td.name)),
                            forall|a: int, b: int| 0 <= a < i && 0 <= b < edef.variants@[a].fields@.len() ==> (#[trigger] type_of_expr(
                                info0,
                                Some(td.name),
                                edef.variants@[a].fields@[b],
                            )) is Some,
                            forall|b: int| 0 <= b < k ==> (#[trigger] type_of_expr(
                                info0,
                                Some(td.name),
                                edef.variants@[i as int].fields@[b],
                            )) is Some,
                        decreases edef.variants@[i as int].fields@.len() - k,
                    {
                        proof {
                            lemma_type_of_expr_same(info0, info0, self.current_type_name, Some(td.name), None, edef.variants@[i as int].fields@[k as int]);
                        }
                        match self.resolve_type_expr(&edef.variants[i].fields[k]) {
                            Ok(t) => fields.push(t),
                            Err(e) => {
                                return Err(e);
                            },
                        }
                        k = k + 1;
                    }
                    variants.push(VariantInfo { name: edef.variants[i].name.clone(), fields });
                    i = i + 1;
                }
                let updated = match self.type_info.enums.get(td.name.as_str()) {
                    Some(info) => Some(
                        EnumInfo { name: info.name.clone(), variants, methods: clone_func_table(&info.methods) },
                    ),
                    None => None,
                };
                match updated {
                    Some(info) => self.type_info.enums.insert(td.name.clone(), info),
                    None => {},
                }
                self.current_type_name = None;
            },
            TypeDefKind::Alias(ty) => {
                match self.resolve_type_expr(ty) {
                    Ok(resolved) => self.type_info.aliases.insert(td.name.clone(), resolved),
                    Err(e) => {
                        return Err(e);
                    },
                }
            },
        }
        Ok(())
    }

    /// Phase three: registers the signatures of a type's methods.
    #[verifier::loop_isolation(false)]
    pub fn register_type_def_methods(&mut self, td: &TypeDef) -> (r: Result<(), CompileError>)
        ensures
            final(self).current_fn_return == old(self).current_fn_return,
            final(self).in_loop == old(self).in_loop,
            kinds_kept(old(self).type_info, final(self).type_info),
            r is Ok <==> methods_resolve(old(self).type_info, *td),
    {
        self.current_type_name = Some(td.name.clone());
        proof {
            match &td.kind {
                TypeDefKind::Struct(sd) => {
                    assert forall|i: int| 0 <= i < sd.methods@.len() implies #[trigger] sig_resolves(
                        self.type_info,
                        self.current_type_name,
                        None,
                        sd.methods@[i],
                    ) == sig_resolves(self.type_info, Some(td.name), None, sd.methods@[i]) by {
                        lemma_sig_resolves_same(self.type_info, self.current_type_name, Some(td.name), sd.methods@[i]);
                    }
                },
                TypeDefKind::Enum(ed) => {
                    assert forall|i: int| 0 <= i < ed.methods@.len() implies #[trigger] sig_resolves(
                        self.type_info,
                        self.current_type_name,
                        None,
                        ed.methods@[i],
                    ) == sig_resolves(self.type_info, Some(td.name), None, ed.methods@[i]) by {
                        lemma_sig_resolves_same(self.type_info, self.current_type_name, Some(td.name), ed.methods@[i]);
                    }
                },
                _ => {},
            }
        }
        match &td.kind {
            TypeDefKind::Struct(sdef) => {
                let methods = match self.resolve_methods(&sdef.methods, None, false) {
                    Ok(m) => m,
                    Err(e) => {
                        return Err(e);
                    },
                };
                let updated = match self.type_info.structs.get(td.name.as_str()) {
                    Some(info) => Some(
                        StructInfo {
                            name: info.name.clone(),
                            fields: clone_fields(&info.fields),
                            methods,
                            parent: info.parent.clone(),
                        },
                    ),
                    None => None,
                };
                match updated {
                    Some(info) => self.type_info.structs.insert(td.name.clone(), info),
                    None => {},
                }
            },
            TypeDefKind::Enum(edef) => {
                let methods = match self.resolve_methods(&edef.methods, None, false) {
                    Ok(m) => m,
                    Err(e) => {
                        return Err(e);
                    },
                };
                let updated = match self.type_info.enums.get(td.name.as_str()) {
                    Some(info) => Some(EnumInfo { name: info.name.clone(), variants: clone_variants(&info.variants), methods }),
                    None => None,
                };
                match updated {
                    Some(info) => self.type_info.enums.insert(td.name.clone(), info),
                    None => {},
                }
            },
            TypeDefKind::Alias(_) => {},
        }
        self.current_type_name = None;
        Ok(())
    }

    /// Registers every type definition of the program, in three passes.
    #[verifier::loop_isolation(false)]
    pub fn register_types(&mut self, program: &Program) -> (r: Result<(), CompileError>)
        ensures
            final(self).current_fn_return == old(self).current_fn_return,
            final(self).in_loop == old(self).in_loop,
            kinds_kept(old(self).type_info, final(self).type_info),
            r is Ok ==> no_reserved_names(program.items@),
            r is Ok ==> forall|i: int| 0 <= i < program.items@.len() ==> (#[trigger] program.items@[i] matches Item::TypeDef(td)
                ==> registered(final(self).type_info, td)),
            no_type_defs(program.items@) ==> r is Ok && final(self).type_info == old(self).type_info,
    {
        let ghost start = self.type_info;
        let mut i: usize = 0;
        while i < program.items.len()
            invariant
                self.current_fn_return == old(self).current_fn_return,
                self.in_loop == old(self).in_loop,
                i <= program.items@.len(),
                no_type_defs(program.items@) ==> self.type_info == start,
                kinds_kept(start, self.type_info),
                forall|j: int| 0 <= j < i ==> (#[trigger] program.items@[j] matches Item::TypeDef(td)
                    ==> registered(self.type_info, td)),
                forall|j: int| 0 <= j < i ==> (#[trigger] program.items@[j] matches Item::TypeDef(td)
                    ==> !reserved_type_name(td.name@)),
            decreases program.items.len() - i,
        {
            match &program.items[i] {
                Item::TypeDef(td) => match self.register_type_name(td) {
                    Ok(()) => {},
                    Err(e) => {
                        return Err(e);
                    },
                },
                _ => {},
            }
            i = i + 1;
        }
        let ghost mid = self.type_info;
        let mut i: usize = 0;
        while i < program.items.len()
            invariant
                self.current_fn_return == old(self).current_fn_return,
                self.in_loop == old(self).in_loop,
                i <= program.items@.len(),
                no_type_defs(program.items@) ==> self.type_info == start,
                kinds_kept(start, mid),
                kinds_kept(mid, self.type_info),
                forall|j: int| 0 <= j < program.items@.len() ==> (#[trigger] program.items@[j] matches Item::TypeDef(td)
                    ==> registered(mid, td)),
                no_reserved_names(program.items@),
            decreases program.items.len() - i,
        {
            match &program.items[i] {
                Item::TypeDef(td) => match self.register_type_def_skeleton(td) {
                    Ok(()) => {},
                    Err(e) => {
                        return Err(e);
                    },
                },
                _ => {},
            }
            i = i + 1;
        }
        let mut i: usize = 0;
        while i < program.items.len()
            invariant
                self.current_fn_return == old(self).current_fn_return,
                self.in_loop == old(self).in_loop,
                i <= program.items@.len(),
                no_type_defs(program.items@) ==> self.type_info == start,
                kinds_kept(start, mid),
                kinds_kept(mid, self.type_info),
                forall|j: int| 0 <= j < program.items@.len() ==> (#[trigger] program.items@[j] matches Item::TypeDef(td)
                    ==> registered(mid, td)),
                no_reserved_names(program.items@),
            decreases program.items.len() - i,
        {
            match &program.items[i] {
                Item::TypeDef(td) => match self.register_type_def_methods(td) {
                    Ok(()) => {},
                    Err(e) => {
                        return Err(e);
                    },
                },
                _ => {},
            }
            i = i + 1;
        }
        Ok(())
    }

    /// The resolved fields of a struct of a module.
    fn module_fields(&self, defs: &Vec<crate::ast::FieldDef>, module: &str) -> (r: Result<Vec<(String, Type)>, CompileError>)
        ensures
            r is Ok <==> forall|i: int| 0 <= i < defs@.len() ==> (#[trigger] resolved_in(
                self.type_info,
                self.current_type_name,
                Some(module@),
                defs@[i].ty,
            )) is Some,
            r matches Ok(v) ==> v@.len() == defs@.len() && forall|i: int| 0 <= i < defs@.len() ==> (#[trigger] v@[i]).0@
                == defs@[i].name@ && resolved_in(self.type_info, self.current_type_name, Some(module@), defs@[i].ty) == Some(v@[i].1@),
    {
        let mut fields: Vec<(String, Type)> = Vec::new();
        let mut i: usize = 0;
        while i < defs.len()
            invariant
                i <= defs@.len(),
                fields@.len() == i,
                forall|j: int| 0 <= j < i ==> (#[trigger] fields@[j]).0@ == defs@[j].name@ && resolved_in(
                    self.type_info,
                    self.current_type_name,
                    Some(module@),
                    defs@[j].ty,
                ) == Some(fields@[j].1@),
            decreases defs.len() - i,
        {
            match self.resolve_type_expr_in_module(&defs[i].ty, module) {
                Ok(t) => fields.push((defs[i].name.clone(), t)),
                Err(e) => {
                    assert(resolved_in(self.type_info, self.current_type_name, Some(module@), defs@[i as int].ty) is None);
                    return Err(e);
                },
            }
            i = i + 1;
        }
        assert forall|j: int| 0 <= j < defs@.len() implies (#[trigger] resolved_in(
            self.type_info,
            self.current_type_name,
            Some(module@),
            defs@[j].ty,
        )) is Some by {
            assert(fields@[j].0@ == defs@[j].name@);
        }
        Ok(fields)
    }

    /// The resolved variants of an enum of a module.
    fn module_variants(&self, defs: &Vec<crate::ast::VariantDef>, module: &str) -> (r: Result<Vec<VariantInfo>, CompileError>)
        ensures
            r is Ok <==> forall|i: int, k: int| 0 <= i < defs@.len() && 0 <= k < defs@[i].fields@.len() ==> (
            #[trigger] resolved_in(self.type_info, self.current_type_name, Some(module@), defs@[i].fields@[k])) is Some,
            r matches Ok(v) ==> v@.len() == defs@.len() && forall|i: int| 0 <= i < defs@.len() ==> #[trigger] variant_resolved(
                self.type_info,
                self.current_type_name,
                Some(module@),
                defs@[i],
                v@[i],
            ),
    {
        let mut variants: Vec<VariantInfo> = Vec::new();
        let mut i: usize = 0;
        while i < defs.len()
            invariant
                i <= defs@.len(),
                variants@.len() == i,
                forall|j: int| 0 <= j < i ==> #[trigger] variant_resolved(
                    self.type_info,
                    self.current_type_name,
                    Some(module@),
                    defs@[j],
                    variants@[j],
                ),
            decreases defs.len() - i,
        {
            let mut fields: Vec<Type> = Vec::new();
            let mut k: usize = 0;
            while k < defs[i].fields.len()
                invariant
                    i < defs@.len(),
                    k <= defs@[i as int].fields@.len(),
                    fields@.len() == k,
                    forall|j: int| 0 <= j < k ==> resolved_in(
                        self.type_info,
                        self.current_type_name,
                        Some(module@),
                        defs@[i as int].fields@[j],
                    ) == Some((#[trigger] fields@[j])@),
                decreases defs@[i as int].fields@.len() - k,
            {
                match self.resolve_type_expr_in_module(&defs[i].fields[k], module) {
                    Ok(t) => fields.push(t),
                    Err(e) => {
                        assert(resolved_in(self.type_info, self.current_type_name, Some(module@), defs@[i as int].fields@[k as int]) is None);
                        return Err(e);
                    },
                }
                k = k + 1;
            }
            variants.push(VariantInfo { name: defs[i].name.clone(), fields });
            i = i + 1;
        }
        assert forall|i: int, k: int| 0 <= i < defs@.len() && 0 <= k < defs@[i].fields@.len() implies (
        #[trigger] resolved_in(self.type_info, self.current_type_name, Some(module@), defs@[i].fields@[k])) is Some by {
            let v = variants@[i];
            assert(variant_resolved(self.type_info, self.current_type_name, Some(module@), defs@[i], v));
            assert(resolved_in(self.type_info, self.current_type_name, Some(module@), defs@[i].fields@[k]) == Some(v.fields@[k]@));
        }
        Ok(variants)
    }

    /// Registers the types and functions of the imported modules, under
    /// their own names in each module and as `module.Name` globally.
    #[verifier::loop_isolation(false)]
    pub fn register_module_types(&mut self, program: &Program) -> (r: Result<(), CompileError>)
        ensures
            final(self).current_fn_return == old(self).current_fn_return,
            final(self).in_loop == old(self).in_loop,
            final(self).type_info.functions == old(self).type_info.functions,
            final(self).type_info.aliases == old(self).type_info.aliases,
            keeps_names(old(self).type_info.structs, final(self).type_info.structs),
            keeps_names(old(self).type_info.enums, final(self).type_info.enums),
            r is Ok ==> forall|m: int| 0 <= m < program.modules@.len()
                ==> final(self).type_info.modules.get_spec(#[trigger] program.modules@[m].0@) is Some,
            r is Ok ==> forall|m: int| 0 <= m < program.modules@.len() ==> module_types_registered(
                final(self).type_info,
                #[trigger] program.modules@[m].0@,
                program.modules@[m].1@,
            ),
            r is Ok ==> forall|m: int| 0 <= m < program.modules@.len() && #[trigger] last_of_its_name(program.modules@, m)
                ==> match final(self).type_info.modules.get_spec(program.modules@[m].0@) {
                Some(mi) => module_functions_registered(mi, program.modules@[m].1@),
                None => false,
            },
            no_module_code(program.modules@) ==> r is Ok,
            program.modules@.len() == 0 ==> final(self).type_info == old(self).type_info,
    {
        let ghost start = self.type_info;
        let mut m: usize = 0;
        while m < program.modules.len()
            invariant
                program.modules@.len() == 0 ==> self.type_info == old(self).type_info,
                self.current_fn_return == old(self).current_fn_return,
                self.in_loop == old(self).in_loop,
                m <= program.modules@.len(),
                self.type_info.functions == start.functions,
                self.type_info.aliases == start.aliases,
                self.type_info.modules == start.modules,
                keeps_names(start.structs, self.type_info.structs),
                keeps_names(start.enums, self.type_info.enums),
                forall|j: int| 0 <= j < m ==> module_types_registered(
                    self.type_info,
                    #[trigger] program.modules@[j].0@,
                    program.modules@[j].1@,
                ),
            decreases program.modules.len() - m,
        {
            let module_name = &program.modules[m].0;
            let items = &program.modules[m].1;
            let ghost before_module = self.type_info;
            let mut i: usize = 0;
            while i < items.len()
                invariant
                    program.modules@.len() == 0 ==> self.type_info == old(self).type_info,
                    self.current_fn_return == old(self).current_fn_return,
                    self.in_loop == old(self).in_loop,
                    i <= items@.len(),
                    self.type_info.functions == start.functions,
                    self.type_info.aliases == start.aliases,
                    self.type_info.modules == start.modules,
                    keeps_names(start.structs, self.type_info.structs),
                    keeps_names(start.enums, self.type_info.enums),
                    keeps_names(before_module.structs, self.type_info.structs),
                    keeps_names(before_module.enums, self.type_info.enums),
                    forall|j: int| 0 <= j < m ==> module_types_registered(
                        before_module,
                        #[trigger] program.modules@[j].0@,
                        program.modules@[j].1@,
                    ),
                    forall|k: int| 0 <= k < i ==> (#[trigger] items@[k] matches Item::TypeDef(td) ==> match td.kind {
                        TypeDefKind::Struct(_) => self.type_info.structs.get_spec(module_name@ + "."@ + td.name@) is Some,
                        TypeDefKind::Enum(_) => self.type_info.enums.get_spec(module_name@ + "."@ + td.name@) is Some,
                        TypeDefKind::Alias(_) => true,
                    }),
                decreases items.len() - i,
            {
                match &items[i] {
                    Item::TypeDef(td) => {
                        let qualified = cat3(module_name.as_str(), ".", td.name.as_str());
                        match &td.kind {
                            TypeDefKind::Struct(_) => self.type_info.structs.insert(
                                qualified,
                                StructInfo { name: td.name.clone(), fields: Vec::new(), methods: Table::new(), parent: td.parent.clone() },
                            ),
                            TypeDefKind::Enum(_) => self.type_info.enums.insert(
                                qualified,
                                EnumInfo { name: td.name.clone(), variants: Vec::new(), methods: Table::new() },
                            ),
                            TypeDefKind::Alias(_) => {},
                        }
                    },
                    _ => {},
                }
                i = i + 1;
            }
            proof {
                assert forall|j: int| 0 <= j < m + 1 implies module_types_registered(
                    self.type_info,
                    #[trigger] program.modules@[j].0@,
                    program.modules@[j].1@,
                ) by {
                    if j < m {
                        lemma_registered_grows(before_module, self.type_info, program.modules@[j].0@, program.modules@[j].1@);
                    }
                }
            }
            m = m + 1;
        }
        let ghost mid = self.type_info;
        let mut m: usize = 0;
        while m < program.modules.len()
            invariant
                program.modules@.len() == 0 ==> self.type_info == old(self).type_info,
                self.current_fn_return == old(self).current_fn_return,
                self.in_loop == old(self).in_loop,
                m <= program.modules@.len(),
                self.type_info.functions == start.functions,
                self.type_info.aliases == start.aliases,
                keeps_names(start.structs, self.type_info.structs),
                keeps_names(start.enums, self.type_info.enums),
                forall|j: int| 0 <= j < m ==> self.type_info.modules.get_spec(#[trigger] program.modules@[j].0@) is Some,
                keeps_names(mid.structs, self.type_info.structs),
                keeps_names(mid.enums, self.type_info.enums),
                forall|j: int| 0 <= j < program.modules@.len() ==> module_types_registered(
                    mid,
                    #[trigger] program.modules@[j].0@,
                    program.modules@[j].1@,
                ),
                forall|j: int| 0 <= j < m && #[trigger] last_of_its_name(program.modules@.take(m as int), j)
                    ==> match self.type_info.modules.get_spec(program.modules@[j].0@) {
                    Some(mi) => module_functions_registered(mi, program.modules@[j].1@),
                    None => false,
                },
            decreases program.modules.len() - m,
        {
            let module_name = program.modules[m].0.as_str();
            let items = &program.modules[m].1;
            let mut mod_info = ModuleInfo::empty();
            let mut i: usize = 0;
            while i < items.len()
                invariant
                    program.modules@.len() == 0 ==> self.type_info == old(self).type_info,
                    self.current_fn_return == old(self).current_fn_return,
                    self.in_loop == old(self).in_loop,
                    i <= items@.len(),
                    forall|k: int| 0 <= k < i ==> (#[trigger] items@[k] matches Item::Function(f)
                        ==> mod_info.functions.get_spec(f.name@) is Some),
                decreases items.len() - i,
            {
                match &items[i] {
                    Item::TypeDef(td) => match &td.kind {
                        TypeDefKind::Struct(sdef) => {
                            let fields = match self.module_fields(&sdef.fields, module_name) {
                                Ok(f) => f,
                                Err(e) => {
                                    return Err(e);
                                },
                            };
                            let methods = match self.resolve_methods(&sdef.methods, Some(module_name), true) {
                                Ok(t) => t,
                                Err(e) => {
                                    return Err(e);
                                },
                            };
                            mod_info.structs.insert(
                                td.name.clone(),
                                StructInfo { name: td.name.clone(), fields, methods, parent: td.parent.clone() },
                            );
                        },
                        TypeDefKind::Enum(edef) => {
                            let variants = match self.module_variants(&edef.variants, module_name) {
                                Ok(v) => v,
                                Err(e) => {
                                    return Err(e);
                                },
                            };
                            mod_info.enums.insert(td.name.clone(), EnumInfo { name: td.name.clone(), variants, methods: Table::new() });
                        },
                        TypeDefKind::Alias(ty) => {
                            let resolved = match self.resolve_type_expr_in_module(ty, module_name) {
                                Ok(t) => t,
                                Err(e) => {
                                    return Err(e);
                                },
                            };
                            mod_info.aliases.insert(td.name.clone(), resolved);
                        },
                    },
                    Item::Function(fdef) => {
                        let info = match self.resolve_signature(fdef, Some(module_name), false) {
                            Ok(mut info) => {
                                info.is_method = false;
                                info
                            },
                            Err(e) => {
                                return Err(e);
                            },
                        };
                        mod_info.functions.insert(fdef.name.clone(), info);
                    },
                    _ => {},
                }
                i = i + 1;
            }
            assert(module_functions_registered(mod_info, items@));
            let ghost before_modules = self.type_info.modules;
            let ghost before_kinds = self.type_info;
            let mut k: usize = 0;
            while k < mod_info.structs.entries.len()
                invariant
                    program.modules@.len() == 0 ==> self.type_info == old(self).type_info,
                    self.current_fn_return == old(self).current_fn_return,
                    self.in_loop == old(self).in_loop,
                    k <= mod_info.structs.entries@.len(),
                    self.type_info.functions == start.functions,
                    self.type_info.aliases == start.aliases,
                    self.type_info.modules == before_modules,
                    keeps_names(start.structs, self.type_info.structs),
                    keeps_names(start.enums, self.type_info.enums),
                    keeps_names(before_kinds.structs, self.type_info.structs),
                    self.type_info.enums == before_kinds.enums,
                decreases mod_info.structs.entries.len() - k,
            {
                let q = cat3(module_name, ".", mod_info.structs.entries[k].0.as_str());
                self.type_info.structs.insert(q, mod_info.structs.entries[k].1.deep_clone());
                k = k + 1;
            }
            let mut k: usize = 0;
            while k < mod_info.enums.entries.len()
                invariant
                    program.modules@.len() == 0 ==> self.type_info == old(self).type_info,
                    self.current_fn_return == old(self).current_fn_return,
                    self.in_loop == old(self).in_loop,
                    k <= mod_info.enums.entries@.len(),
                    self.type_info.functions == start.functions,
                    self.type_info.aliases == start.aliases,
                    self.type_info.modules == before_modules,
                    keeps_names(start.structs, self.type_info.structs),
                    keeps_names(start.enums, self.type_info.enums),
                    keeps_names(before_kinds.structs, self.type_info.structs),
                    keeps_names(before_kinds.enums, self.type_info.enums),
                decreases mod_info.enums.entries.len() - k,
            {
                let q = cat3(module_name, ".", mod_info.enums.entries[k].0.as_str());
                self.type_info.enums.insert(q, mod_info.enums.entries[k].1.deep_clone());
                k = k + 1;
            }
            let ghost inserted = mod_info;
            self.type_info.modules.insert(module_name.to_string(), mod_info);
            proof {
                let ms = program.modules@;
                assert forall|j: int| 0 <= j < m + 1 && #[trigger] last_of_its_name(ms.take(m as int + 1), j)
                    implies match self.type_info.modules.get_spec(ms[j].0@) {
                    Some(mi) => module_functions_registered(mi, ms[j].1@),
                    None => false,
                } by {
                    if j < m {
                        assert(ms.take(m as int + 1)[m as int] == ms[m as int]);
                        assert(ms[m as int].0@ != ms[j].0@);
                        assert(last_of_its_name(ms.take(m as int), j)) by {
                            assert forall|q: int| j < q < ms.take(m as int).len() implies #[trigger] ms.take(
                                m as int,
                            )[q].0@ != ms.take(m as int)[j].0@ by {
                                assert(ms.take(m as int + 1)[q] == ms.take(m as int)[q]);
                            }
                        }
                    }
                }
                assert forall|j: int| 0 <= j < ms.len() implies module_types_registered(
                    self.type_info,
                    #[trigger] ms[j].0@,
                    ms[j].1@,
                ) by {
                    lemma_registered_grows(mid, self.type_info, ms[j].0@, ms[j].1@);
                }
            }
            m = m + 1;
        }
        proof {
            let ms = program.modules@;
            assert(ms.take(ms.len() as int) =~= ms);
        }
        Ok(())
    }

    /// Registers the built-in `math` module, unless a module of that name exists.
    pub fn register_std_math(&mut self)
        ensures
            final(self).current_fn_return == old(self).current_fn_return,
            final(self).in_loop == old(self).in_loop,
            old(self).type_info.modules.get_spec("math"@) is None ==> (final(self).type_info.modules.get_spec("math"@) matches Some(mi)
                && mi.structs.entries@.len() == 0 && mi.enums.entries@.len() == 0 && mi.aliases.entries@.len() == 0
                && forall|x: Seq<char>| #[trigger] math_entry(mi.functions, x)),
            old(self).type_info.modules.get_spec("math"@) is None ==> forall|j: Seq<char>| j != "math"@
                ==> #[trigger] final(self).type_info.modules.get_spec(j) == old(self).type_info.modules.get_spec(j),
            final(self).type_info.structs == old(self).type_info.structs,
            final(self).type_info.enums == old(self).type_info.enums,
            final(self).type_info.aliases == old(self).type_info.aliases,
            final(self).type_info.functions == old(self).type_info.functions,
            old(self).type_info.modules.get_spec("math"@) is Some ==> final(self).type_info == old(self).type_info,
    {
        if self.type_info.modules.contains_key("math") {
            return;
        }
        let mut info = ModuleInfo::empty();
        info.functions = math_functions();
        self.type_info.modules.insert(String::from_str("math"), info);
    }

    /// Registers the signatures of the program's functions.
    #[verifier::loop_isolation(false)]
    pub fn register_functions(&mut self, program: &Program) -> (r: Result<(), CompileError>)
        ensures
            final(self).current_fn_return == old(self).current_fn_return,
            final(self).in_loop == old(self).in_loop,
            final(self).type_info.structs == old(self).type_info.structs,
            final(self).type_info.enums == old(self).type_info.enums,
            final(self).type_info.aliases == old(self).type_info.aliases,
            final(self).type_info.modules == old(self).type_info.modules,
            r is Ok ==> forall|i: int| 0 <= i < program.items@.len() ==> (#[trigger] program.items@[i] matches Item::Function(f)
                ==> final(self).type_info.functions.get_spec(f.name@) is Some),
            r is Ok <==> forall|i: int| 0 <= i < program.items@.len() ==> (#[trigger] program.items@[i] matches Item::Function(f)
                ==> sig_resolves(old(self).type_info, old(self).current_type_name, None, f)),
            r is Ok ==> forall|x: Seq<char>| #[trigger] fn_named(program.items@, program.items@.len() as int, x) ==> fn_entry(
                old(self).type_info,
                old(self).current_type_name,
                program.items@,
                program.items@.len() as int,
                x,
                final(self).type_info.functions.get_spec(x),
            ),
            r is Ok ==> forall|x: Seq<char>| !fn_named(program.items@, program.items@.len() as int, x)
                ==> #[trigger] final(self).type_info.functions.get_spec(x) == old(self).type_info.functions.get_spec(x),
    {
        let ghost start = self.type_info;
        let mut i: usize = 0;
        while i < program.items.len()
            invariant
                self.current_fn_return == old(self).current_fn_return,
                self.in_loop == old(self).in_loop,
                i <= program.items@.len(),
                self.type_info.structs == start.structs,
                self.type_info.enums == start.enums,
                self.type_info.aliases == start.aliases,
                self.type_info.modules == start.modules,
                forall|j: int| 0 <= j < i ==> (#[trigger] program.items@[j] matches Item::Function(f)
                    ==> self.type_info.functions.get_spec(f.name@) is Some),
                self.current_type_name == old(self).current_type_name,
                start == old(self).type_info,
                forall|j: int| 0 <= j < i ==> (#[trigger] program.items@[j] matches Item::Function(f)
                    ==> sig_resolves(start, self.current_type_name, None, f)),
                forall|x: Seq<char>| #[trigger] fn_named(program.items@, i as int, x) ==> fn_entry(
                    start,
                    self.current_type_name,
                    program.items@,
                    i as int,
                    x,
                    self.type_info.functions.get_spec(x),
                ),
                forall|x: Seq<char>| !fn_named(program.items@, i as int, x)
                    ==> #[trigger] self.type_info.functions.get_spec(x) == start.functions.get_spec(x),
            decreases program.items.len() - i,
        {
            match &program.items[i] {
                Item::Function(fdef) => {
                    proof {
                        lemma_sig_frame(self.type_info, start, self.current_type_name, *fdef, arbitrary());
                    }
                    let params = match self.resolve_params(&fdef.params, None) {
                        Ok(p) => p,
                        Err(e) => {
                            return Err(e);
                        },
                    };
                    let ret = match &fdef.return_type {
                        Some(t) => match self.resolve_type_expr(t) {
                            Ok(t) => t,
                            Err(e) => {
                                return Err(e.with_span(fdef.span));
                            },
                        },
                        None => Type::Nil,
                    };
                    let fi = FuncInfo { name: fdef.name.clone(), params, return_type: ret, is_method: false };
                    proof {
                        lemma_sig_frame(self.type_info, start, self.current_type_name, *fdef, fi);
                        assert(sig_of(self.type_info, self.current_type_name, None, *fdef, fi));
                    }
                    let ghost before = self.type_info.functions;
                    self.type_info.functions.insert(fdef.name.clone(), fi);
                    proof {
                        let items = program.items@;
                        assert forall|x: Seq<char>| #[trigger] fn_named(items, i + 1, x) implies fn_entry(
                            start,
                            self.current_type_name,
                            items,
                            i + 1,
                            x,
                            self.type_info.functions.get_spec(x),
                        ) by {
                            if x == fdef.name@ {
                                assert(items[i as int] matches Item::Function(g) && g.name@ == x && sig_of(start, self.current_type_name, None, g, fi));
                            } else {
                                let k = choose|k: int| 0 <= k < i + 1 && (#[trigger] items[k] matches Item::Function(g) && g.name@ == x);
                                assert(k < i);
                                assert(fn_named(items, i as int, x));
                                assert(fn_entry(start, self.current_type_name, items, i as int, x, before.get_spec(x)));
                            }
                        }
                        assert forall|x: Seq<char>| !fn_named(items, i + 1, x) implies #[trigger] self.type_info.functions.get_spec(x)
                            == start.functions.get_spec(x) by {
                            if x == fdef.name@ {
                                assert(items[i as int] matches Item::Function(g) && g.name@ == x);
                                assert(fn_named(items, i + 1, x));
                            } else {
                                if fn_named(items, i as int, x) {
                                    let k = choose|k: int| 0 <= k < i && (#[trigger] items[k] matches Item::Function(g) && g.name@ == x);
                                    assert(fn_named(items, i + 1, x));
                                }
                            }
                        }
                    }
                },
                _ => {
                    proof {
                        let items = program.items@;
                        assert forall|x: Seq<char>| #[trigger] fn_named(items, i + 1, x) implies fn_named(items, i as int, x) by {
                            let k = choose|k: int| 0 <= k < i + 1 && (#[trigger] items[k] matches Item::Function(g) && g.name@ == x);
                            assert(k < i);
                        }
                        assert forall|x: Seq<char>| fn_named(items, i as int, x) implies #[trigger] fn_named(items, i + 1, x) by {
                            let k = choose|k: int| 0 <= k < i && (#[trigger] items[k] matches Item::Function(g) && g.name@ == x);
                        }
                    }
                },
            }
            i = i + 1;
        }
        Ok(())
    }

    /// Checks a function's body against its registered signature.
    pub fn check_fn_def_with_info(&mut self, fdef: &FnDef, info: &FuncInfo) -> (r: Result<TypedFnDef, CompileError>)
        ensures
            r matches Ok(f) ==> f.name@ == fdef.name@ && f.return_type@ == info.return_type@
                && ((info.return_type@ != TypeView::Nil && info.return_type@ != TypeView::Void) ==> block_returns(f.body)),
            r is Ok ==> unchanged(*old(self), *final(self)),
            r matches Ok(f) ==> block_well_typed(old(self).type_info, Some(f.return_type@), old(self).in_loop, f.body),
            r matches Ok(f) ==> block_from(fdef.body, f.body),
            params_shadow_module(*old(self), info.params@) ==> r is Err,
            !params_shadow_module(*old(self), info.params@) && simple_block(fdef.body, old(self).in_loop, old(self).type_info) && (info.return_type@
                == TypeView::Nil || info.return_type@ == TypeView::Void) ==> r is Ok,
    {
        let ghost start = *self;
        self.push_scope();
        let old_return = self.current_fn_return.take();
        self.current_fn_return = Some(info.return_type.deep_clone());
        let mut i: usize = 0;
        while i < info.params.len()
            invariant
                i <= info.params@.len(),
                self.type_info == start.type_info,
                self.in_loop == start.in_loop,
                self.current_type_name == start.current_type_name,
                self.captured_mut_vars == start.captured_mut_vars,
                self.scopes@.len() == start.scopes@.len() + 1,
                self.scopes@.drop_last() =~= start.scopes@,
                ret_of(*self) == Some(info.return_type@),
                forall|j: int| 0 <= j < i ==> !start.is_module(#[trigger] info.params@[j].0@),
                start == *old(self),
            decreases info.params.len() - i,
        {
            match self.define_var(info.params[i].0.as_str(), info.params[i].1.deep_clone(), false) {
                Ok(()) => {},
                Err(e) => {
                    return Err(e);
                },
            }
            i = i + 1;
        }
        let mut old_captured: Vec<String> = Vec::new();
        std::mem::swap(&mut old_captured, &mut self.captured_mut_vars);
        self.captured_mut_vars = find_captured_mut_vars(&fdef.body, &self.scopes);
        let body = match self.check_block(&fdef.body) {
            Ok(b) => b,
            Err(e) => {
                return Err(e);
            },
        };
        if !matches!(info.return_type, Type::Nil) && !matches!(info.return_type, Type::Void)
            && !self.block_always_returns(&body) {
            let d = info.return_type.display_name();
            let msg = cat5("function '", fdef.name.as_str(), "' declares return type ", d.as_str(), " but not all code paths return a value");
            return Err(CompileError::new(msg, fdef.span));
        }
        self.current_fn_return = old_return;
        self.captured_mut_vars = old_captured;
        self.pop_scope();
        assert(self.scopes@ =~= start.scopes@);
        Ok(TypedFnDef { name: fdef.name.clone(), params: clone_fields(&info.params), return_type: info.return_type.deep_clone(), body })
    }

    /// Checks a program function against the signature registered for it.
    pub fn check_fn_def(&mut self, fdef: &FnDef) -> (r: Result<TypedFnDef, CompileError>)
        ensures
            r matches Ok(f) ==> f.name@ == fdef.name@ && ((f.return_type@ != TypeView::Nil && f.return_type@
                != TypeView::Void) ==> block_returns(f.body)),
            r is Ok ==> unchanged(*old(self), *final(self)),
            r matches Ok(f) ==> block_well_typed(old(self).type_info, Some(f.return_type@), old(self).in_loop, f.body),
            r matches Ok(f) ==> block_from(fdef.body, f.body),
            match old(self).type_info.functions.get_spec(fdef.name@) {
                None => r is Err,
                Some(fi) => (params_shadow_module(*old(self), fi.params@) ==> r is Err) && (!params_shadow_module(
                    *old(self),
                    fi.params@,
                ) && simple_block(fdef.body, old(self).in_loop, old(self).type_info) && (fi.return_type@ == TypeView::Nil || fi.return_type@
                    == TypeView::Void) ==> r is Ok),
            },
    {
        let info = match self.type_info.functions.get(fdef.name.as_str()) {
            Some(i) => i.deep_clone(),
            None => {
                return Err(CompileError::new(cat3("unknown function '", fdef.name.as_str(), "'"), fdef.span));
            },
        };
        proof {
            let fi = self.type_info.functions.get_spec(fdef.name@)->0;
            if params_shadow_module(*self, fi.params@) {
                let k = choose|k: int| 0 <= k < fi.params@.len() && self.is_module(#[trigger] fi.params@[k].0@);
                assert(info.params@[k].0@ == fi.params@[k].0@);
                assert(params_shadow_module(*self, info.params@));
            }
            if params_shadow_module(*self, info.params@) {
                let k = choose|k: int| 0 <= k < info.params@.len() && self.is_module(#[trigger] info.params@[k].0@);
                assert(info.params@[k].0@ == fi.params@[k].0@);
                assert(params_shadow_module(*self, fi.params@));
            }
        }
        self.check_fn_def_with_info(fdef, &info)
    }

    /// Checks a method's body against its registered signature.
    pub fn check_method_def(&mut self, method: &FnDef, info: &FuncInfo) -> (r: Result<TypedFnDef, CompileError>)
        ensures
            r matches Ok(f) ==> f.name@ == method.name@ && f.return_type@ == info.return_type@
                && ((info.return_type@ != TypeView::Nil && info.return_type@ != TypeView::Void) ==> block_returns(f.body)),
            r is Ok ==> unchanged(*old(self), *final(self)),
            r matches Ok(f) ==> block_well_typed(old(self).type_info, Some(f.return_type@), old(self).in_loop, f.body),
            r matches Ok(f) ==> block_from(method.body, f.body),
            params_shadow_module(*old(self), info.params@) ==> r is Err,
            !params_shadow_module(*old(self), info.params@) && simple_block(method.body, old(self).in_loop, old(self).type_info) && (info.return_type@
                == TypeView::Nil || info.return_type@ == TypeView::Void) ==> r is Ok,
    {
        let ghost start = *self;
        self.push_scope();
        let old_return = self.current_fn_return.take();
        self.current_fn_return = Some(info.return_type.deep_clone());
        let mut i: usize = 0;
        while i < info.params.len()
            invariant
                i <= info.params@.len(),
                self.type_info == start.type_info,
                self.in_loop == start.in_loop,
                self.current_type_name == start.current_type_name,
                self.captured_mut_vars == start.captured_mut_vars,
                self.scopes@.len() == start.scopes@.len() + 1,
                self.scopes@.drop_last() =~= start.scopes@,
                ret_of(*self) == Some(info.return_type@),
                forall|j: int| 0 <= j < i ==> !start.is_module(#[trigger] info.params@[j].0@),
                start == *old(self),
            decreases info.params.len() - i,
        {
            match self.define_var(info.params[i].0.as_str(), info.params[i].1.deep_clone(), false) {
                Ok(()) => {},
                Err(e) => {
                    return Err(e);
                },
            }
            i = i + 1;
        }
        assert(self.scopes@.drop_last() =~= start.scopes@);
        let body = match self.check_block(&method.body) {
            Ok(b) => b,
            Err(e) => {
                return Err(e);
            },
        };
        if !matches!(info.return_type, Type::Nil) && !matches!(info.return_type, Type::Void)
            && !self.block_always_returns(&body) {
            let d = info.return_type.display_name();
            let msg = cat5("method '", method.name.as_str(), "' declares return type ", d.as_str(), " but not all code paths return a value");
            return Err(CompileError::new(msg, method.span));
        }
        self.current_fn_return = old_return;
        self.pop_scope();
        assert(self.scopes@ =~= start.scopes@);
        Ok(TypedFnDef { name: method.name.clone(), params: clone_fields(&info.params), return_type: info.return_type.deep_clone(), body })
    }

    /// Checks one top-level item.
    pub fn check_item(&mut self, item: &Item) -> (r: Result<TypedItem, CompileError>)
        ensures
            r matches Ok(t) ==> item_typed(*item, t),
            r matches Ok(t) ==> typed_item_ok(old(self).type_info, ret_of(*old(self)), old(self).in_loop, t),
            r is Ok ==> same_context(*old(self), *final(self)),
            match *item {
                Item::TypeDef(_) | Item::Import(_) => r is Ok,
                Item::Function(f) => match old(self).type_info.functions.get_spec(f.name@) {
                    None => r is Err,
                    Some(fi) => !params_shadow_module(*old(self), fi.params@) && simple_block(f.body, old(self).in_loop, old(self).type_info)
                        && (fi.return_type@ == TypeView::Nil || fi.return_type@ == TypeView::Void) ==> r is Ok,
                },
                Item::Let(d) => d.ty is None && literal_expr(d.value) ==> (r is Ok <==> !old(self).is_module(d.name@)),
            },
    {
        match item {
            Item::Function(fdef) => match self.check_fn_def(fdef) {
                Ok(t) => Ok(TypedItem::Function(t)),
                Err(e) => Err(e),
            },
            Item::TypeDef(td) => Ok(TypedItem::TypeDef(td.name.clone())),
            Item::Let(decl) => match self.check_let_decl(decl) {
                Ok(t) => Ok(TypedItem::Let(t)),
                Err(e) => Err(e),
            },
            Item::Import(imp) => Ok(TypedItem::Import(imp.path.clone(), imp.alias.clone())),
        }
    }

    /// Checks a whole program: registers its types, modules and functions,
    /// then checks every function, method and module function, collecting
    /// the errors of all of them.
    pub fn check_program(self, program: &Program) -> (r: Result<TypedProgram, CompileErrors>)
        ensures
            r matches Err(es) ==> es.errors@.len() > 0,
            r matches Ok(p) ==> p.items@.len() >= program.items@.len(),
            r matches Ok(p) ==> forall|i: int| 0 <= i < program.items@.len() ==> item_typed(
                #[trigger] program.items@[i],
                p.items@[i],
            ),
            r is Ok ==> no_reserved_names(program.items@),
            r matches Ok(p) ==> forall|j: int| 0 <= j < p.items@.len() ==> typed_item_ok(
                p.type_info,
                ret_of(self),
                self.in_loop,
                #[trigger] p.items@[j],
            ),
            simple_program(*program) && no_modules(self.type_info) ==> r is Ok,
    {
        let mut ck = self;
        ck.run_checks(program)
    }

    fn run_checks(&mut self, program: &Program) -> (r: Result<TypedProgram, CompileErrors>)
        ensures
            r matches Err(es) ==> es.errors@.len() > 0,
            r matches Ok(p) ==> p.items@.len() >= program.items@.len(),
            r matches Ok(p) ==> forall|i: int| 0 <= i < program.items@.len() ==> item_typed(
                #[trigger] program.items@[i],
                p.items@[i],
            ),
            r is Ok ==> no_reserved_names(program.items@),
            r matches Ok(p) ==> forall|j: int| 0 <= j < p.items@.len() ==> typed_item_ok(
                p.type_info,
                ret_of(*old(self)),
                old(self).in_loop,
                #[trigger] p.items@[j],
            ),
            simple_program(*program) && no_modules(old(self).type_info) ==> r is Ok,
    {
        match self.register_types(program) {
            Ok(()) => {},
            Err(e) => {
                return Err(CompileErrors::single(e));
            },
        }
        match self.register_module_types(program) {
            Ok(()) => {},
            Err(e) => {
                return Err(CompileErrors::single(e));
            },
        }
        let mut has_math_import = false;
        let mut i: usize = 0;
        let ghost info_a = self.type_info;
        while i < program.items.len()
            invariant
                i <= program.items@.len(),
                simple_program(*program) ==> !has_math_import,
            decreases program.items.len() - i,
        {
            match &program.items[i] {
                Item::Import(imp) => {
                    if str_eq(imp.path.as_str(), "std/math") {
                        has_math_import = true;
                    }
                },
                _ => {},
            }
            i = i + 1;
        }
        if has_math_import {
            self.register_std_math();
        }
        let ghost info_b = self.type_info;
        let ghost cur_b = self.current_type_name;
        proof {
            if simple_program(*program) {
                assert forall|i: int| 0 <= i < program.items@.len() implies (#[trigger] program.items@[i] matches Item::Function(f)
                    ==> sig_resolves(info_b, cur_b, None, f)) by {
                    assert(simple_program(*program));
                }
            }
        }
        match self.register_functions(program) {
            Ok(()) => {},
            Err(e) => {
                return Err(CompileErrors::single(e));
            },
        }
        let ghost info_c = self.type_info;
        proof {
            if simple_program(*program) && no_modules(old(self).type_info) {
                assert(info_b == old(self).type_info);
                assert(info_c.modules == info_b.modules);
                assert(no_modules(info_c));
            }
        }
        let mut k: usize = 0;
        while k < self.type_info.functions.entries.len()
            invariant
                k <= self.type_info.functions.entries@.len(),
                self.type_info == info_c,
                simple_program(*program) && no_modules(old(self).type_info) ==> no_modules(info_c),
                self.current_fn_return == old(self).current_fn_return,
                self.in_loop == old(self).in_loop,
            decreases self.type_info.functions.entries.len() - k,
        {
            let name = self.type_info.functions.entries[k].0.clone();
            let info = &self.type_info.functions.entries[k].1;
            let ty = Type::Function(info.param_types(), Box::new(info.return_type.deep_clone()));
            let ghost n = self.type_info.functions.entries@.len();
            match self.define_var(name.as_str(), ty, false) {
                Ok(()) => {},
                Err(e) => {
                    return Err(CompileErrors::single(e));
                },
            }
            k = k + 1;
        }
        proof {
            if simple_program(*program) && no_modules(old(self).type_info) {
                assert(info_c.modules == info_b.modules);
                assert(info_b == old(self).type_info);
            }
        }
        let ghost info0 = self.type_info;
        let ghost ret0 = ret_of(*old(self));
        let ghost lp0 = old(self).in_loop;
        let mut typed_items: Vec<TypedItem> = Vec::new();
        let mut errors: Vec<CompileError> = Vec::new();
        let mut i: usize = 0;
        while i < program.items.len()
            invariant
                i <= program.items@.len(),
                typed_items@.len() + errors@.len() == i,
                no_reserved_names(program.items@),
                errors@.len() == 0 ==> forall|j: int| 0 <= j < i ==> item_typed(
                    #[trigger] program.items@[j],
                    typed_items@[j],
                ),
                errors@.len() == 0 ==> self.type_info == info0 && ret_of(*self) == ret0 && self.in_loop == lp0 && forall|j: int|
                    0 <= j < typed_items@.len() ==> typed_item_ok(info0, ret0, lp0, #[trigger] typed_items@[j]),
                simple_program(*program) && no_modules(old(self).type_info) ==> errors@.len() == 0,
                simple_program(*program) && no_modules(old(self).type_info) ==> no_modules(info0),
                simple_program(*program) && no_modules(old(self).type_info) ==> forall|x: Seq<char>| #[trigger] fn_named(program.items@, program.items@.len() as int, x) ==> fn_entry(
                    info_b,
                    cur_b,
                    program.items@,
                    program.items@.len() as int,
                    x,
                    info0.functions.get_spec(x),
                ),
            decreases program.items.len() - i,
        {
            proof {
                if simple_program(*program) && no_modules(old(self).type_info) {
                    if let Item::Function(f) = program.items@[i as int] {
                        assert(fn_named(program.items@, program.items@.len() as int, f.name@));
                        let fi = info0.functions.get_spec(f.name@)->0;
                        let k = choose|k: int| 0 <= k < program.items@.len() && (#[trigger] program.items@[k] matches Item::Function(g)
                            && g.name@ == f.name@ && sig_of(info_b, cur_b, None, g, fi));
                        assert(simple_program(*program));
                        lemma_plain_simple(f.body, self.in_loop, self.type_info);
                    }
                }
            }
            match self.check_item(&program.items[i]) {
                Ok(t) => typed_items.push(t),
                Err(e) => errors.push(e),
            }
            i = i + 1;
        }
        let mut i: usize = 0;
        while i < program.items.len()
            invariant
                simple_program(*program) && no_modules(old(self).type_info) ==> errors@.len() == 0,
                i <= program.items@.len(),
                typed_items@.len() + errors@.len() >= program.items@.len(),
                no_reserved_names(program.items@),
                errors@.len() == 0 ==> forall|j: int| 0 <= j < program.items@.len() ==> item_typed(
                    #[trigger] program.items@[j],
                    typed_items@[j],
                ),
                errors@.len() == 0 ==> self.type_info == info0 && ret_of(*self) == ret0 && self.in_loop == lp0 && forall|j: int|
                    0 <= j < typed_items@.len() ==> typed_item_ok(info0, ret0, lp0, #[trigger] typed_items@[j]),
            decreases program.items.len() - i,
        {
            match &program.items[i] {
                Item::TypeDef(td) => {
                    let (methods, is_struct) = match &td.kind {
                        TypeDefKind::Struct(sdef) => (Some(&sdef.methods), true),
                        TypeDefKind::Enum(edef) => (Some(&edef.methods), false),
                        TypeDefKind::Alias(_) => (None, false),
                    };
                    match methods {
                        Some(methods) => {
                            let mut j: usize = 0;
                            proof {
                                if simple_program(*program) {
                                    assert(!(program.items@[i as int] is TypeDef));
                                }
                            }
                            while j < methods.len()
                                invariant
                                    !simple_program(*program),
                                    simple_program(*program) && no_modules(old(self).type_info) ==> errors@.len() == 0,
                                    j <= methods@.len(),
                                    typed_items@.len() + errors@.len() >= program.items@.len(),
                no_reserved_names(program.items@),
                errors@.len() == 0 ==> forall|j: int| 0 <= j < program.items@.len() ==> item_typed(
                    #[trigger] program.items@[j],
                    typed_items@[j],
                ),
                errors@.len() == 0 ==> self.type_info == info0 && ret_of(*self) == ret0 && self.in_loop == lp0 && forall|j: int|
                    0 <= j < typed_items@.len() ==> typed_item_ok(info0, ret0, lp0, #[trigger] typed_items@[j]),
                                decreases methods.len() - j,
                            {
                                let method = &methods[j];
                                let info: Option<FuncInfo> = if is_struct {
                                    match self.type_info.structs.get(td.name.as_str()) {
                                        Some(s) => match s.methods.get(method.name.as_str()) {
                                            Some(m) => Some(m.deep_clone()),
                                            None => None,
                                        },
                                        None => None,
                                    }
                                } else {
                                    match self.type_info.enums.get(td.name.as_str()) {
                                        Some(s) => match s.methods.get(method.name.as_str()) {
                                            Some(m) => Some(m.deep_clone()),
                                            None => None,
                                        },
                                        None => None,
                                    }
                                };
                                match info {
                                    Some(info) => {
                                        self.current_type_name = Some(td.name.clone());
                                        let result = self.check_method_def(method, &info);
                                        self.current_type_name = None;
                                        match result {
                                            Ok(t) => typed_items.push(TypedItem::Function(t)),
                                            Err(e) => errors.push(e),
                                        }
                                    },
                                    None => {},
                                }
                                j = j + 1;
                            }
                        },
                        None => {},
                    }
                },
                _ => {},
            }
            i = i + 1;
        }
        let mut m: usize = 0;
        while m < program.modules.len()
            invariant
                simple_program(*program) && no_modules(old(self).type_info) ==> errors@.len() == 0,
                m <= program.modules@.len(),
                typed_items@.len() + errors@.len() >= program.items@.len(),
                no_reserved_names(program.items@),
                errors@.len() == 0 ==> forall|j: int| 0 <= j < program.items@.len() ==> item_typed(
                    #[trigger] program.items@[j],
                    typed_items@[j],
                ),
                errors@.len() == 0 ==> self.type_info == info0 && ret_of(*self) == ret0 && self.in_loop == lp0 && forall|j: int|
                    0 <= j < typed_items@.len() ==> typed_item_ok(info0, ret0, lp0, #[trigger] typed_items@[j]),
            decreases program.modules.len() - m,
        {
            proof {
                assert(program.modules@.len() > 0);
            }
            let module_name = program.modules[m].0.as_str();
            let items = &program.modules[m].1;
            let mut i: usize = 0;
            while i < items.len()
                invariant
                    !simple_program(*program),
                    simple_program(*program) && no_modules(old(self).type_info) ==> errors@.len() == 0,
                    i <= items@.len(),
                    typed_items@.len() + errors@.len() >= program.items@.len(),
                no_reserved_names(program.items@),
                errors@.len() == 0 ==> forall|j: int| 0 <= j < program.items@.len() ==> item_typed(
                    #[trigger] program.items@[j],
                    typed_items@[j],
                ),
                errors@.len() == 0 ==> self.type_info == info0 && ret_of(*self) == ret0 && self.in_loop == lp0 && forall|j: int|
                    0 <= j < typed_items@.len() ==> typed_item_ok(info0, ret0, lp0, #[trigger] typed_items@[j]),
                decreases items.len() - i,
            {
                match &items[i] {
                    Item::Function(fdef) => {
                        let info: Option<FuncInfo> = match self.type_info.modules.get(module_name) {
                            Some(mi) => match mi.functions.get(fdef.name.as_str()) {
                                Some(f) => Some(f.deep_clone()),
                                None => None,
                            },
                            None => None,
                        };
                        match info {
                            Some(info) => match self.check_fn_def_with_info(fdef, &info) {
                                Ok(mut t) => {
                                    t.name = cat3(module_name, ".", fdef.name.as_str());
                                    typed_items.push(TypedItem::Function(t));
                                },
                                Err(e) => errors.push(e),
                            },
                            None => {},
                        }
                    },
                    _ => {},
                }
                i = i + 1;
            }
            m = m + 1;
        }
        if errors.len() > 0 {
            return Err(CompileErrors::new(errors));
        }
        let mut info = TypeInfo {
            structs: Table::new(),
            enums: Table::new(),
            aliases: Table::new(),
            functions: Table::new(),
            modules: Table::new(),
        };
        std::mem::swap(&mut info, &mut self.type_info);
        Ok(TypedProgram { items: typed_items, type_info: info })
    }
}

/// Type-checks a program, producing the typed program or every error found.
/// The typed program is well typed throughout: every function body against
/// its declared return type, every node by the typing rule of its form.
pub fn check(program: &Program) -> (r: Result<TypedProgram, CompileErrors>)
    ensures
        r matches Err(es) ==> es.errors@.len() > 0,
        r matches Ok(p) ==> p.items@.len() >= program.items@.len(),
        r matches Ok(p) ==> forall|i: int| 0 <= i < program.items@.len() ==> item_typed(
            #[trigger] program.items@[i],
            p.items@[i],
        ),
        r is Ok ==> no_reserved_names(program.items@),
        r matches Ok(p) ==> forall|j: int| 0 <= j < p.items@.len() ==> typed_item_ok(p.type_info, None, false, #[trigger] p.items@[j]),
        simple_program(*program) ==> r is Ok,
{
    let checker = TypeChecker::new();
    checker.check_program(program)
}

} // verus!
