//! The syntax tree produced by the parser. Every statement, expression,
//! pattern, function and declaration carries the source position it came from.
use vstd::prelude::*;

verus! {

/// A source position: 1-based line and column. Line 0 means "no position".
#[derive(Debug, Clone, Copy, PartialEq, Eq)]
pub struct Span {
    pub line: u32,
    pub col: u32,
}

impl Span {
    pub fn new(line: u32, col: u32) -> (s: Span)
        ensures
            s.line == line,
            s.col == col,
    {
        Span { line, col }
    }

    /// The position that stands for "unknown".
    pub fn unset() -> (s: Span)
        ensures
            s.line == 0,
            s.col == 0,
    {
        Span { line: 0, col: 0 }
    }
}

impl Default for Span {
    fn default() -> (s: Span)
        ensures
            s.line == 0,
            s.col == 0,
    {
        Span { line: 0, col: 0 }
    }
}

#[derive(Debug)]
pub struct Program {
    pub items: Vec<Item>,
    /// Imported modules, by alias, in the order they were added.
    pub modules: Vec<(String, Vec<Item>)>,
}

#[derive(Debug)]
pub enum Item {
    Function(FnDef),
    TypeDef(TypeDef),
    Let(LetDecl),
    Import(ImportDecl),
}

#[derive(Debug)]
pub struct ImportDecl {
    pub path: String,
    pub alias: Option<String>,
}

#[derive(Debug)]
pub struct FnDef {
    pub name: String,
    pub params: Vec<Param>,
    pub return_type: Option<TypeExpr>,
    pub body: Block,
    pub span: Span,
}

#[derive(Debug)]
pub struct Param {
    pub name: String,
    pub ty: TypeExpr,
}

#[derive(Debug)]
pub struct Block {
    pub stmts: Vec<Stmt>,
}

#[derive(Debug)]
pub struct Stmt {
    pub kind: StmtKind,
    pub span: Span,
}

#[derive(Debug)]
pub enum StmtKind {
    Let(LetDecl),
    /// `let (a, b) = expr`
    LetTuple(Vec<String>, Expr),
    Assign(AssignTarget, Expr),
    Return(Option<Expr>),
    ReturnError(Expr),
    Break,
    Continue,
    Expr(Expr),
}

#[derive(Debug)]
pub struct LetDecl {
    pub name: String,
    pub mutable: bool,
    pub ty: Option<TypeExpr>,
    pub value: Expr,
    pub span: Span,
}

#[derive(Debug)]
pub enum AssignTarget {
    Variable(String),
    Field(Box<Expr>, String),
    Index(Box<Expr>, Box<Expr>),
}

#[derive(Debug)]
pub struct Expr {
    pub kind: ExprKind,
    pub span: Span,
}

#[derive(Debug)]
pub enum ExprKind {
    IntLit(i128),
    /// A floating-point literal, kept as its source text without `_` separators.
    FloatLit(String),
    BoolLit(bool),
    StringLit(String),
    InterpolatedString(Vec<StringPart>),
    Nil,
    Ident(String),
    TypeIdent(String),
    BinOp(Box<Expr>, BinOp, Box<Expr>),
    UnaryOp(UnaryOp, Box<Expr>),
    FieldAccess(Box<Expr>, String),
    /// Access on a type or module, e.g. `Color.Red` or `mod.Type`.
    TypeAccess(Box<Expr>, String),
    Index(Box<Expr>, Box<Expr>),
    Call(Box<Expr>, Vec<Expr>),
    MethodCall(Box<Expr>, String, Vec<Expr>),
    /// `Type.method(args)` or `module.function(args)`.
    StaticMethodCall(String, String, Vec<Expr>),
    ArrayLit(Vec<Expr>),
    MapLit(Vec<(Expr, Expr)>),
    TupleLit(Vec<Expr>),
    /// Type name, optional module, fields, optional `..spread` source.
    StructLit(String, Option<String>, Vec<(String, Expr)>, Option<Box<Expr>>),
    /// Type name, variant, arguments.
    EnumVariant(String, String, Vec<Expr>),
    /// Module, type name, variant, arguments.
    QualifiedEnumVariant(String, String, String, Vec<Expr>),
    /// `!(expr)`
    ErrorLit(Box<Expr>),
    /// Condition, then-block, optional else.
    If(Box<Expr>, Block, Option<Box<Expr>>),
    Match(Box<Expr>, Vec<MatchArm>),
    /// Variable, optional second variable, iterable, body.
    For(String, Option<String>, Box<Expr>, Block),
    While(Box<Expr>, Block),
    Loop(Block),
    /// Optional `let` binding, condition or value, else-block.
    Guard(Option<String>, Box<Expr>, Block),
    Block(Block),
    Lambda(Vec<Param>, Option<TypeExpr>, Block),
    As(Box<Expr>, TypeExpr),
    AsSafe(Box<Expr>, TypeExpr),
    Is(Box<Expr>, IsTarget),
    Try(Box<Expr>),
    Range(Box<Expr>, Box<Expr>),
}

#[derive(Debug)]
pub enum StringPart {
    Literal(String),
    Expr(Box<Expr>),
}

#[derive(Debug)]
pub enum IsTarget {
    Type(TypeExpr),
    EnumVariant(String, String),
    QualifiedVariant(String, String, String),
    Expr(Box<Expr>),
}

#[derive(Debug, Clone, Copy, PartialEq, Eq)]
pub enum BinOp {
    Add,
    Sub,
    Mul,
    Div,
    Mod,
    Pow,
    Eq,
    NotEq,
    Lt,
    LtEq,
    Gt,
    GtEq,
    And,
    Or,
    BitAnd,
    BitOr,
    BitXor,
    ShiftLeft,
    ShiftRight,
}

#[derive(Debug, Clone, Copy, PartialEq, Eq)]
pub enum UnaryOp {
    Neg,
    Not,
    BitNot,
}

#[derive(Debug)]
pub struct MatchArm {
    pub pattern: Pattern,
    pub body: Expr,
}

#[derive(Debug)]
pub struct Pattern {
    pub kind: PatternKind,
    pub span: Span,
}

#[derive(Debug)]
pub enum PatternKind {
    Wildcard,
    IntLit(i128),
    FloatLit(String),
    BoolLit(bool),
    StringLit(String),
    Nil,
    Binding(String),
    /// Type, variant, bindings.
    EnumVariant(String, String, Vec<String>),
    /// Module, type, variant, bindings.
    QualifiedEnumVariant(String, String, String, Vec<String>),
    /// `!name`
    Error(String),
    /// `is T`
    IsType(TypeExpr),
    /// `is Type.Variant`
    IsEnumVariant(String, String),
}

#[derive(Debug)]
pub enum TypeExpr {
    Named(String),
    Qualified(String, String),
    Array(Box<TypeExpr>),
    MapOf(Box<TypeExpr>, Box<TypeExpr>),
    Tuple(Vec<TypeExpr>),
    Optional(Box<TypeExpr>),
    Result(Box<TypeExpr>, Box<TypeExpr>),
    Function(Vec<TypeExpr>, Box<TypeExpr>),
    Union(Vec<TypeExpr>),
    SelfType,
}

/// Two written types are the same, part for part.
pub open spec fn same_texpr(a: TypeExpr, b: TypeExpr) -> bool
    decreases a,
{
    match a {
        TypeExpr::Named(x) => b matches TypeExpr::Named(y) && x@ == y@,
        TypeExpr::Qualified(m, n) => b matches TypeExpr::Qualified(p, q) && m@ == p@ && n@ == q@,
        TypeExpr::Array(x) => b matches TypeExpr::Array(y) && same_texpr(*x, *y),
        TypeExpr::MapOf(k, v) => b matches TypeExpr::MapOf(k2, v2) && same_texpr(*k, *k2) && same_texpr(*v, *v2),
        TypeExpr::Tuple(xs) => b matches TypeExpr::Tuple(ys) && same_texprs(xs@, ys@),
        TypeExpr::Optional(x) => b matches TypeExpr::Optional(y) && same_texpr(*x, *y),
        TypeExpr::Result(x, e) => b matches TypeExpr::Result(y, f) && same_texpr(*x, *y) && same_texpr(*e, *f),
        TypeExpr::Function(ps, r) => b matches TypeExpr::Function(qs, s) && same_texprs(ps@, qs@) && same_texpr(*r, *s),
        TypeExpr::Union(xs) => b matches TypeExpr::Union(ys) && same_texprs(xs@, ys@),
        TypeExpr::SelfType => b is SelfType,
    }
}

/// Two lists of written types are the same, element for element.
pub open spec fn same_texprs(xs: Seq<TypeExpr>, ys: Seq<TypeExpr>) -> bool
    decreases xs,
{
    xs.len() == ys.len() && forall|i: int| 0 <= i < xs.len() ==> same_texpr(#[trigger] xs[i], ys[i])
}

impl TypeExpr {
    /// A copy of this written type.
    pub fn copy(&self) -> (r: TypeExpr)
        ensures
            same_texpr(*self, r),
        decreases self,
    {
        match self {
            TypeExpr::Named(n) => TypeExpr::Named(n.clone()),
            TypeExpr::Qualified(m, n) => TypeExpr::Qualified(m.clone(), n.clone()),
            TypeExpr::Array(t) => TypeExpr::Array(Box::new(t.copy())),
            TypeExpr::MapOf(k, v) => TypeExpr::MapOf(Box::new(k.copy()), Box::new(v.copy())),
            TypeExpr::Tuple(ts) => TypeExpr::Tuple(copy_type_exprs(ts)),
            TypeExpr::Optional(t) => TypeExpr::Optional(Box::new(t.copy())),
            TypeExpr::Result(a, b) => TypeExpr::Result(Box::new(a.copy()), Box::new(b.copy())),
            TypeExpr::Function(ps, r) => TypeExpr::Function(copy_type_exprs(ps), Box::new(r.copy())),
            TypeExpr::Union(ms) => TypeExpr::Union(copy_type_exprs(ms)),
            TypeExpr::SelfType => TypeExpr::SelfType,
        }
    }
}

/// A copy of a list of written types.
#[verifier::loop_isolation(false)]
pub fn copy_type_exprs(ts: &Vec<TypeExpr>) -> (r: Vec<TypeExpr>)
    ensures
        r@.len() == ts@.len(),
        same_texprs(ts@, r@),
    decreases ts,
{
    let mut out: Vec<TypeExpr> = Vec::new();
    let mut i: usize = 0;
    while i < ts.len()
        invariant
            i <= ts@.len(),
            out@.len() == i,
            forall|j: int| 0 <= j < i ==> same_texpr(#[trigger] ts@[j], out@[j]),
        decreases ts.len() - i,
    {
        proof {
            assert(decreases_to!(*ts => ts@[i as int]));
        }
        out.push(ts[i].copy());
        i = i + 1;
    }
    out
}

/// Two lists of names are the same, name for name.
pub open spec fn same_names(a: Seq<String>, b: Seq<String>) -> bool {
    a.len() == b.len() && forall|i: int| 0 <= i < a.len() ==> (#[trigger] a[i])@ == b[i]@
}

/// Two patterns are the same, part for part.
pub open spec fn same_pattern(a: Pattern, b: Pattern) -> bool {
    &&& a.span == b.span
    &&& match a.kind {
        PatternKind::Wildcard => b.kind is Wildcard,
        PatternKind::IntLit(n) => b.kind == PatternKind::IntLit(n),
        PatternKind::FloatLit(x) => b.kind matches PatternKind::FloatLit(y) && x@ == y@,
        PatternKind::BoolLit(v) => b.kind == PatternKind::BoolLit(v),
        PatternKind::StringLit(x) => b.kind matches PatternKind::StringLit(y) && x@ == y@,
        PatternKind::Nil => b.kind is Nil,
        PatternKind::Binding(x) => b.kind matches PatternKind::Binding(y) && x@ == y@,
        PatternKind::EnumVariant(t, v, bs) => b.kind matches PatternKind::EnumVariant(t2, v2, bs2)
            && t@ == t2@ && v@ == v2@ && same_names(bs@, bs2@),
        PatternKind::QualifiedEnumVariant(m, t, v, bs) => b.kind matches PatternKind::QualifiedEnumVariant(m2, t2, v2, bs2)
            && m@ == m2@ && t@ == t2@ && v@ == v2@ && same_names(bs@, bs2@),
        PatternKind::Error(x) => b.kind matches PatternKind::Error(y) && x@ == y@,
        PatternKind::IsType(t) => b.kind matches PatternKind::IsType(t2) && same_texpr(t, t2),
        PatternKind::IsEnumVariant(t, v) => b.kind matches PatternKind::IsEnumVariant(t2, v2) && t@ == t2@ && v@ == v2@,
    }
}

/// A copy of a list of names.
pub fn copy_strings(v: &Vec<String>) -> (r: Vec<String>)
    ensures
        same_names(v@, r@),
{
    let mut out: Vec<String> = Vec::new();
    let mut i: usize = 0;
    while i < v.len()
        invariant
            i <= v@.len(),
            out@.len() == i,
            forall|j: int| 0 <= j < i ==> (#[trigger] v@[j])@ == out@[j]@,
        decreases v.len() - i,
    {
        out.push(v[i].clone());
        i = i + 1;
    }
    out
}

impl Pattern {
    /// A copy of this pattern.
    pub fn copy(&self) -> (r: Pattern)
        ensures
            same_pattern(*self, r),
    {
        let kind = match &self.kind {
            PatternKind::Wildcard => PatternKind::Wildcard,
            PatternKind::IntLit(n) => PatternKind::IntLit(*n),
            PatternKind::FloatLit(x) => PatternKind::FloatLit(x.clone()),
            PatternKind::BoolLit(v) => PatternKind::BoolLit(*v),
            PatternKind::StringLit(x) => PatternKind::StringLit(x.clone()),
            PatternKind::Nil => PatternKind::Nil,
            PatternKind::Binding(x) => PatternKind::Binding(x.clone()),
            PatternKind::EnumVariant(t, v, bs) => PatternKind::EnumVariant(t.clone(), v.clone(), copy_strings(bs)),
            PatternKind::QualifiedEnumVariant(m, t, v, bs) => PatternKind::QualifiedEnumVariant(
                m.clone(),
                t.clone(),
                v.clone(),
                copy_strings(bs),
            ),
            PatternKind::Error(x) => PatternKind::Error(x.clone()),
            PatternKind::IsType(t) => PatternKind::IsType(t.copy()),
            PatternKind::IsEnumVariant(t, v) => PatternKind::IsEnumVariant(t.clone(), v.clone()),
        };
        Pattern { kind, span: self.span }
    }
}

#[derive(Debug)]
pub struct TypeDef {
    pub name: String,
    pub parent: Option<String>,
    pub kind: TypeDefKind,
    pub span: Span,
}

#[derive(Debug)]
pub enum TypeDefKind {
    Struct(StructDef),
    Enum(EnumDef),
    Alias(TypeExpr),
}

#[derive(Debug)]
pub struct StructDef {
    pub fields: Vec<FieldDef>,
    pub methods: Vec<FnDef>,
}

#[derive(Debug)]
pub struct FieldDef {
    pub name: String,
    pub ty: TypeExpr,
}

#[derive(Debug)]
pub struct EnumDef {
    pub variants: Vec<VariantDef>,
    pub methods: Vec<FnDef>,
}

#[derive(Debug)]
pub struct VariantDef {
    pub name: String,
    /// Empty for unit variants.
    pub fields: Vec<TypeExpr>,
}

} // verus!
