//! The parser: turns tokens into the syntax tree, by recursive descent with
//! one function per precedence level.
use vstd::prelude::*;
use crate::ast::{AssignTarget, BinOp, Block, EnumDef, Expr, ExprKind, FieldDef, FnDef, ImportDecl, IsTarget, Item, LetDecl, MatchArm, Param, Pattern, PatternKind, Program, Span, Stmt, StmtKind, StringPart, StructDef, TypeDef, TypeDefKind, TypeExpr, UnaryOp, VariantDef};
use crate::error::CompileError;
use crate::lexer::{SpannedToken, StringPart as LexStringPart, Token, token_display, token_tag};
use crate::text::{cat4, str_eq};

verus! {

/// Parses a token stream into a program. Errors carry the position of the
/// token where parsing failed.
pub fn parse(tokens: Vec<SpannedToken>) -> (r: Result<Program, CompileError>)
    requires
        tokens@.len() < usize::MAX,
    ensures
        r matches Ok(p) ==> p.modules@.len() == 0,
        r matches Ok(p) ==> (p.items@.len() == 0 <==> token_at(tokens@, first_content(tokens@, 0)) is Eof),
        r matches Ok(p) ==> (p.items@.len() > 0 ==> item_shape(
            token_at(tokens@, first_content(tokens@, 0)),
            token_at(tokens@, first_content(tokens@, 0) + 1),
            p.items@[0],
        )),
        r matches Ok(p) ==> exists|ks: Seq<int>, es: Seq<int>| items_from(tokens@, ks, p.items@) && items_chain(tokens@, ks, es),
        token_at(tokens@, first_content(tokens@, 0)) is Eof ==> r is Ok,
        empty_fns(tokens@, 0) matches Some(ns) ==> (r matches Ok(p) && fn_names(p.items@) == ns && all_empty_fns(p.items@)),
        !starts_item(token_at(tokens@, first_content(tokens@, 0))) && !(token_at(
            tokens@,
            first_content(tokens@, 0),
        ) is Eof) ==> (r matches Err(e) && e.message@ == "expected "@ + "item (fn, type, let, import)"@
            + ", got "@ + token_display(token_at(tokens@, first_content(tokens@, 0)))),
{
    let toks = tokens.as_slice();
    let mut parser = Parser::new(Src::Spanned(toks), usize::MAX);
    proof {
        lemma_first_content_spanned(toks, 0);
        lemma_empty_fns_spanned(toks, 0);
    }
    let r = parser.parse_program();
    proof {
        if let Ok(p) = &r {
            assert(has_items_from(Src::Spanned(toks), 0, p.items@));
            let (ks, es) = choose|ks: Seq<int>, es: Seq<int>| src_items(Src::Spanned(toks), ks, p.items@) && src_chain(Src::Spanned(toks), 0, ks, es);
            assert(items_from(tokens@, ks, p.items@));
            assert forall|i: int| 0 <= i < ks.len() implies #[trigger] ks[i] < es[i] && ks[i] == first_content(tokens@, prev_pos(0, es, i)) by {
                if i > 0 {
                    assert(0 <= es[i - 1]);
                }
                lemma_first_content_spanned(toks, prev_pos(0, es, i));
            }
            if es.len() > 0 {
                assert(0 <= es[es.len() - 1]);
            }
            lemma_first_content_spanned(toks, prev_pos(0, es, es.len() as int));
            assert(items_chain(tokens@, ks, es));
        }
    }
    r
}

/// The token at index `i`, or the end marker past the end.
pub open spec fn token_at(toks: Seq<SpannedToken>, i: int) -> Token {
    if 0 <= i < toks.len() {
        toks[i].token
    } else {
        Token::Eof
    }
}

/// The index of the first token at or after `i` that is not a line break.
pub open spec fn first_content(toks: Seq<SpannedToken>, i: int) -> int
    decreases toks.len() - i,
{
    if 0 <= i < toks.len() && toks[i].token is Newline {
        first_content(toks, i + 1)
    } else {
        i
    }
}

/// What a top-level item that starts with token `t`, followed by `next`,
/// is: a function, type, binding or import of the name that `next` gives.
pub open spec fn item_shape(t: Token, next: Token, it: Item) -> bool {
    match t {
        Token::Fn => it matches Item::Function(f) && next matches Token::Ident(n) && f.name@ == n@,
        Token::Type => it matches Item::TypeDef(td) && next matches Token::TypeIdent(n) && td.name@ == n@,
        Token::Let => it is Let,
        Token::Import => it matches Item::Import(imp) && next matches Token::StringLit(p) && imp.path@ == p@,
        _ => false,
    }
}

/// Item `i` starts at token `ks[i]`, in source order, and is of the shape
/// that its first two tokens give.
pub open spec fn items_from(toks: Seq<SpannedToken>, ks: Seq<int>, items: Seq<Item>) -> bool {
    &&& ks.len() == items.len()
    &&& forall|i: int| 0 <= i < ks.len() ==> item_shape(token_at(toks, #[trigger] ks[i]), token_at(toks, ks[i] + 1), items[i])
    &&& forall|i: int, j: int| 0 <= i < j < ks.len() ==> #[trigger] ks[i] < #[trigger] ks[j]
}

/// `items_from` over any source of tokens.
spec fn src_items(src: Src, ks: Seq<int>, items: Seq<Item>) -> bool {
    &&& ks.len() == items.len()
    &&& forall|i: int| 0 <= i < ks.len() ==> item_shape(src_at(src, #[trigger] ks[i]), src_at(src, ks[i] + 1), items[i])
    &&& forall|i: int, j: int| 0 <= i < j < ks.len() ==> #[trigger] ks[i] < #[trigger] ks[j]
}

spec fn has_items_from(src: Src, start: int, items: Seq<Item>) -> bool {
    exists|ks: Seq<int>, es: Seq<int>| src_items(src, ks, items) && src_chain(src, start, ks, es)
}

/// Where the text before item `i` ends: where parsing began, or the end of
/// the previous item.
pub open spec fn prev_pos(start: int, es: Seq<int>, i: int) -> int {
    if i <= 0 {
        start
    } else {
        es[i - 1]
    }
}

/// Item `i` runs from `ks[i]` to `es[i]`; only line breaks lie between
/// one item and the next, and after the last one the input ends.
spec fn src_chain(src: Src, start: int, ks: Seq<int>, es: Seq<int>) -> bool {
    &&& ks.len() == es.len()
    &&& forall|i: int| 0 <= i < ks.len() ==> #[trigger] ks[i] < es[i] && ks[i] == src_first_content(src, prev_pos(start, es, i))
    &&& forall|i: int| 0 <= i < es.len() ==> 0 <= #[trigger] es[i]
    &&& 0 <= start
    &&& src_at(src, src_first_content(src, prev_pos(start, es, es.len() as int))) is Eof
}

/// `src_chain` over the lexer's tokens: the items follow each other with
/// only line breaks between them, from the start to the end of input.
pub open spec fn items_chain(toks: Seq<SpannedToken>, ks: Seq<int>, es: Seq<int>) -> bool {
    &&& ks.len() == es.len()
    &&& forall|i: int| 0 <= i < ks.len() ==> #[trigger] ks[i] < es[i] && ks[i] == first_content(toks, prev_pos(0, es, i))
    &&& token_at(toks, first_content(toks, prev_pos(0, es, es.len() as int))) is Eof
}

/// Tokens that can begin a top-level item.
pub open spec fn starts_item(t: Token) -> bool {
    t is Fn || t is Type || t is Let || t is Import
}

/// The first token that is not a line break, at or after `i`, in any source.
spec fn src_first_content(src: Src, i: int) -> int
    decreases src_len(src) - i,
{
    if 0 <= i < src_len(src) && src_at(src, i) is Newline {
        src_first_content(src, i + 1)
    } else {
        i
    }
}

proof fn lemma_first_content_spanned(toks: &[SpannedToken], i: int)
    requires
        0 <= i,
    ensures
        src_first_content(Src::Spanned(toks), i) == first_content(toks@, i),
        forall|j: int| #[trigger] src_at(Src::Spanned(toks), j) == token_at(toks@, j),
    decreases toks@.len() - i,
{
    if 0 <= i < toks@.len() && toks@[i].token is Newline {
        lemma_first_content_spanned(toks, i + 1);
    }
}

/// At `k` stands a function written `fn name() { }`.
spec fn src_empty_fn_at(src: Src, k: int) -> bool {
    &&& src_at(src, k) is Fn
    &&& src_at(src, k + 1) is Ident
    &&& src_at(src, k + 2) is LParen
    &&& src_at(src, k + 3) is RParen
    &&& src_at(src, k + 4) is LBrace
    &&& src_at(src, src_first_content(src, k + 5)) is RBrace
}

/// From `i` on, the source is a run of functions written `fn name() { }`,
/// with line breaks around them, up to its end; gives their names.
spec fn src_empty_fns(src: Src, i: int) -> Option<Seq<Seq<char>>>
    decreases src_len(src) - i,
{
    let k = src_first_content(src, i);
    let e = src_first_content(src, k + 5) + 1;
    if !(0 <= i <= k) {
        None
    } else if src_at(src, k) is Eof {
        Some(Seq::empty())
    } else if src_empty_fn_at(src, k) && i < e <= src_len(src) {
        match src_empty_fns(src, e) {
            Some(ns) => Some(seq![src_at(src, k + 1)->Ident_0@] + ns),
            None => None,
        }
    } else {
        None
    }
}

/// At `k` stands a function written `fn name() { }`.
pub open spec fn empty_fn_at(toks: Seq<SpannedToken>, k: int) -> bool {
    &&& token_at(toks, k) is Fn
    &&& token_at(toks, k + 1) is Ident
    &&& token_at(toks, k + 2) is LParen
    &&& token_at(toks, k + 3) is RParen
    &&& token_at(toks, k + 4) is LBrace
    &&& token_at(toks, first_content(toks, k + 5)) is RBrace
}

/// From `i` on, the tokens are a run of functions written `fn name() { }`,
/// with line breaks around them, up to the end marker; gives their names.
pub open spec fn empty_fns(toks: Seq<SpannedToken>, i: int) -> Option<Seq<Seq<char>>>
    decreases toks.len() - i,
{
    let k = first_content(toks, i);
    let e = first_content(toks, k + 5) + 1;
    if !(0 <= i <= k) {
        None
    } else if token_at(toks, k) is Eof {
        Some(Seq::empty())
    } else if empty_fn_at(toks, k) && i < e <= toks.len() {
        match empty_fns(toks, e) {
            Some(ns) => Some(seq![token_at(toks, k + 1)->Ident_0@] + ns),
            None => None,
        }
    } else {
        None
    }
}

/// The names of the functions among `items`.
pub open spec fn fn_names(items: Seq<Item>) -> Seq<Seq<char>> {
    Seq::new(items.len(), |i: int| match items[i] {
        Item::Function(f) => f.name@,
        _ => Seq::empty(),
    })
}

/// The item is a function without parameters, return type or statements.
pub open spec fn empty_fn_item(item: Item) -> bool {
    match item {
        Item::Function(f) => f.params@.len() == 0 && f.return_type is None && f.body.stmts@.len() == 0,
        _ => false,
    }
}

/// Every item is a function without parameters, return type or statements.
pub open spec fn all_empty_fns(items: Seq<Item>) -> bool {
    forall|i: int| 0 <= i < items.len() ==> empty_fn_item(#[trigger] items[i])
}

/// Both ways of reading the lexer's output see the same run of functions.
proof fn lemma_empty_fns_spanned(toks: &[SpannedToken], i: int)
    requires
        0 <= i,
    ensures
        src_empty_fns(Src::Spanned(toks), i) == empty_fns(toks@, i),
    decreases toks@.len() - i,
{
    let src = Src::Spanned(toks);
    lemma_first_content_spanned(toks, i);
    let k = first_content(toks@, i);
    if k >= 0 {
        lemma_first_content_spanned(toks, k + 5);
    }
    let e = first_content(toks@, k + 5) + 1;
    if 0 <= i <= k && !(token_at(toks@, k) is Eof) && empty_fn_at(toks@, k) && i < e <= toks@.len() {
        lemma_empty_fns_spanned(toks, e);
    }
}

/// The first content at or after `i` is at or after `i`, and is its own
/// first content.
proof fn lemma_first_content_idem(src: Src, i: int)
    requires
        0 <= i,
    ensures
        i <= src_first_content(src, i),
        src_first_content(src, src_first_content(src, i)) == src_first_content(src, i),
    decreases src_len(src) - i,
{
    if 0 <= i < src_len(src) && src_at(src, i) is Newline {
        lemma_first_content_idem(src, i + 1);
    }
}

/// Line breaks before a run of functions do not change it.
proof fn lemma_empty_fns_skip(src: Src, i: int)
    requires
        0 <= i,
    ensures
        src_empty_fns(src, i) == src_empty_fns(src, src_first_content(src, i)),
{
    lemma_first_content_idem(src, i);
    let k = src_first_content(src, i);
    lemma_first_content_idem(src, k + 5);
    assert(src_first_content(src, k) == k);
}

/// The loop variables of `for a in ..` or `for a, b in ..` starting at `p`
/// are the names as written: the first name is the first variable, and the
/// name after the comma, if any, the second.
spec fn for_vars_written(src: Src, p: int, kind: ExprKind) -> bool {
    match kind {
        ExprKind::For(v1, v2, _, _) => match src_at(src, p + 1) {
            Token::Ident(n1) => v1@ == n1@ && if src_at(src, p + 2) is Comma {
                match (src_at(src, p + 3), v2) {
                    (Token::Ident(n2), Some(w)) => w@ == n2@,
                    _ => false,
                }
            } else {
                v2 is None
            },
            _ => false,
        },
        _ => false,
    }
}

/// Where a parser reads its tokens: the lexer's output with positions, or the
/// tokens of a string interpolation, which have none.
enum Src<'a> {
    Spanned(&'a [SpannedToken]),
    Plain(&'a [Token]),
}

struct Parser<'a> {
    src: Src<'a>,
    pos: usize,
    /// How many more levels of string interpolation may be entered.
    budget: usize,
}

/// What a statement that starts with token `t`, followed by `next`, is.
pub open spec fn stmt_shape(t: Token, next: Token, k: StmtKind) -> bool {
    match t {
        Token::Let => if next is LParen {
            k is LetTuple
        } else {
            k is Let
        },
        Token::Return => k is Return || k is ReturnError,
        Token::Break => k is Break,
        Token::Continue => k is Continue,
        _ => k is Assign || k is Expr,
    }
}

/// Tokens that may end a statement.
pub open spec fn ends_stmt(t: Token) -> bool {
    t is Newline || t is Eof || t is RBrace
}

/// Tokens that continue an expression with a postfix operation.
pub open spec fn starts_postfix(t: Token) -> bool {
    t is Dot || t is LParen || t is LBracket || t is Question
}

/// Tokens that may follow a '.' after an expression.
pub open spec fn starts_member(t: Token) -> bool {
    t is Ident || t is TypeIdent || t is IntLit
}

/// The forms a postfix operation builds.
pub open spec fn postfix_node(k: ExprKind) -> bool {
    k is MethodCall || k is FieldAccess || k is EnumVariant || k is StaticMethodCall || k is TypeAccess
        || k is Call || k is Index || k is Try
}

/// A written type with its `?` and `!E` suffixes taken off.
pub open spec fn type_core(t: TypeExpr) -> TypeExpr
    decreases t,
{
    match t {
        TypeExpr::Optional(inner) => type_core(*inner),
        TypeExpr::Result(ok, _) => type_core(*ok),
        _ => t,
    }
}

/// What the core of a type that starts with token `t` is.
pub open spec fn base_type_shape(t: Token, core: TypeExpr) -> bool {
    match t {
        Token::Ident(n) => match core {
            TypeExpr::Named(m) => m@ == n@,
            TypeExpr::Qualified(m, _) => m@ == n@ && !primitive_type_name(n@),
            _ => false,
        },
        Token::TypeIdent(n) => if n@ == "Self"@ {
            core is SelfType
        } else {
            core matches TypeExpr::Named(m) && m@ == n@
        },
        Token::LBracket => core is Array || core is MapOf,
        Token::LParen => true,
        Token::Fn => core is Function,
        _ => false,
    }
}

/// Tokens that can begin a type.
pub open spec fn starts_type(t: Token) -> bool {
    t is Ident || t is TypeIdent || t is LBracket || t is LParen || t is Fn
}

/// What an expression that starts with token `t`, followed by `next`, is
/// at its outermost level, before any postfix or operator.
pub open spec fn primary_shape(t: Token, next: Token, k: ExprKind) -> bool {
    match t {
        Token::IntLit(v) => k == ExprKind::IntLit(v),
        Token::FloatLit(f) => k matches ExprKind::FloatLit(g) && g@ == f@,
        Token::True => k == ExprKind::BoolLit(true),
        Token::False => k == ExprKind::BoolLit(false),
        Token::Nil => k is Nil,
        Token::StringLit(a) => k matches ExprKind::StringLit(b) && b@ == a@,
        Token::InterpolatedString(_) => k is InterpolatedString,
        Token::Ident(n) => next is Dot || (k matches ExprKind::Ident(m) && m@ == n@),
        Token::TypeIdent(n) => match k {
            ExprKind::TypeIdent(m) => m@ == n@,
            ExprKind::StructLit(m, module, _, _) => m@ == n@ && module is None,
            _ => false,
        },
        Token::LParen => true,
        Token::LBracket => k is ArrayLit,
        Token::LBrace => k is MapLit || k is Block,
        Token::If => k is If,
        Token::Match => k is Match,
        Token::For => k is For,
        Token::While => k is While,
        Token::Loop => k is Loop,
        Token::Guard => k is Guard,
        Token::Fn => k is Lambda,
        _ => false,
    }
}

/// Tokens that can begin an expression.
pub open spec fn starts_primary(t: Token) -> bool {
    t is IntLit || t is FloatLit || t is True || t is False || t is Nil || t is StringLit
        || t is InterpolatedString || t is Ident || t is TypeIdent || t is LParen || t is LBracket
        || t is LBrace || t is If || t is Match || t is For || t is While || t is Loop || t is Guard
        || t is Fn
}

/// Tokens that end an expression: a line end, the end of input, a closing
/// bracket, a comma, the `{` of a block or `else`.
pub open spec fn ends_expr(t: Token) -> bool {
    t is Newline || t is Eof || t is RParen || t is RBrace || t is RBracket || t is Comma || t is LBrace || t is Else
}

/// The token ends an expression parsed at level `lvl`: it continues no
/// operand and is no operator of that level or a tighter one.
pub open spec fn stops_at(t: Token, lvl: nat) -> bool {
    !starts_postfix(t) && (op_level(t) matches Some(k) ==> k > lvl)
}

/// How tightly an operator token binds: `as` tightest, then `**`, the
/// multiplicative, additive, shift, comparison and equality operators,
/// `&`, `^`, `|`, `&&`, `||`, and `..` loosest.
pub open spec fn op_level(t: Token) -> Option<nat> {
    match t {
        Token::As => Some(1),
        Token::StarStar => Some(2),
        Token::Star | Token::Slash | Token::Percent => Some(3),
        Token::Plus | Token::Minus => Some(4),
        Token::ShiftLeft | Token::ShiftRight => Some(5),
        Token::Lt | Token::LtEq | Token::Gt | Token::GtEq => Some(6),
        Token::EqEq | Token::BangEq | Token::Is => Some(7),
        Token::Ampersand => Some(8),
        Token::Caret => Some(9),
        Token::Pipe => Some(10),
        Token::AmpAmp => Some(11),
        Token::PipePipe => Some(12),
        Token::DotDot => Some(13),
        _ => None,
    }
}

/// The binary operation an operator token stands for.
pub open spec fn binop_of(t: Token) -> Option<BinOp> {
    match t {
        Token::Plus => Some(BinOp::Add),
        Token::Minus => Some(BinOp::Sub),
        Token::Star => Some(BinOp::Mul),
        Token::Slash => Some(BinOp::Div),
        Token::Percent => Some(BinOp::Mod),
        Token::StarStar => Some(BinOp::Pow),
        Token::ShiftLeft => Some(BinOp::ShiftLeft),
        Token::ShiftRight => Some(BinOp::ShiftRight),
        Token::Lt => Some(BinOp::Lt),
        Token::LtEq => Some(BinOp::LtEq),
        Token::Gt => Some(BinOp::Gt),
        Token::GtEq => Some(BinOp::GtEq),
        Token::EqEq => Some(BinOp::Eq),
        Token::BangEq => Some(BinOp::NotEq),
        Token::Ampersand => Some(BinOp::BitAnd),
        Token::Caret => Some(BinOp::BitXor),
        Token::Pipe => Some(BinOp::BitOr),
        Token::AmpAmp => Some(BinOp::And),
        Token::PipePipe => Some(BinOp::Or),
        _ => None,
    }
}

/// Tokens that are a whole expression by themselves, whatever follows.
pub open spec fn single_token_expr(t: Token) -> bool {
    t is IntLit || t is FloatLit || t is True || t is False || t is StringLit || t is Nil
}

/// What a pattern that starts with token `t` is.
pub open spec fn pattern_shape(t: Token, k: PatternKind) -> bool {
    match t {
        Token::Ident(n) => if n@ == "_"@ {
            k is Wildcard
        } else {
            match k {
                PatternKind::Binding(b) => b@ == n@,
                PatternKind::QualifiedEnumVariant(m, _, _, _) => m@ == n@,
                _ => false,
            }
        },
        Token::IntLit(v) => k == PatternKind::IntLit(v),
        Token::FloatLit(f) => k matches PatternKind::FloatLit(g) && g@ == f@,
        Token::True => k == PatternKind::BoolLit(true),
        Token::False => k == PatternKind::BoolLit(false),
        Token::StringLit(a) => k matches PatternKind::StringLit(b) && b@ == a@,
        Token::Nil => k is Nil,
        Token::Bang => k is Error,
        Token::Is => k is IsType || k is IsEnumVariant,
        Token::TypeIdent(n) => k matches PatternKind::EnumVariant(m, _, _) && m@ == n@,
        _ => false,
    }
}

/// Tokens that can begin a pattern.
pub open spec fn starts_pattern(t: Token) -> bool {
    t is Ident || t is IntLit || t is FloatLit || t is True || t is False || t is StringLit || t is Nil
        || t is Bang || t is Is || t is TypeIdent
}

/// Tokens that are a whole pattern by themselves.
pub open spec fn single_token_pattern(t: Token) -> bool {
    t is IntLit || t is FloatLit || t is True || t is False || t is StringLit || t is Nil
}

/// The names of the built-in primitive types.
pub open spec fn primitive_type_name(name: Seq<char>) -> bool {
    name == "i8"@ || name == "i16"@ || name == "i32"@ || name == "i64"@ || name == "u8"@
        || name == "u16"@ || name == "u32"@ || name == "u64"@ || name == "f64"@ || name
        == "bool"@ || name == "string"@ || name == "nil"@
}

/// Whether `name` is one of the built-in primitive type names.
pub fn is_primitive_type(name: &str) -> (r: bool)
    ensures
        r == primitive_type_name(name@),
{
    str_eq(name, "i8") || str_eq(name, "i16") || str_eq(name, "i32") || str_eq(name, "i64")
        || str_eq(name, "u8") || str_eq(name, "u16") || str_eq(name, "u32") || str_eq(
        name,
        "u64",
    ) || str_eq(name, "f64") || str_eq(name, "bool") || str_eq(name, "string") || str_eq(
        name,
        "nil",
    )
}

fn mk(kind: ExprKind, span: Span) -> (e: Expr)
    ensures
        e.kind == kind,
        e.span == span,
{
    Expr { kind, span }
}

fn bx(e: Expr) -> (b: Box<Expr>)
    ensures
        *b == e,
{
    Box::new(e)
}

impl<'a> Parser<'a> {
    fn new(src: Src<'a>, budget: usize) -> (p: Parser<'a>)
        requires
            src_len(src) < usize::MAX,
        ensures
            p.src == src,
            p.pos == 0,
            p.budget == budget,
            p.wf(),
    {
        Parser { src, pos: 0, budget }
    }

    spec fn len(&self) -> nat {
        src_len(self.src)
    }

    spec fn wf(&self) -> bool {
        &&& self.pos <= self.len()
        &&& self.len() < usize::MAX
    }

    spec fn remaining(&self) -> int {
        self.len() - self.pos
    }

    /// Same tokens and budget, position not moved back.
    spec fn kept(&self, old: &Parser<'a>) -> bool {
        &&& self.src == old.src
        &&& self.budget == old.budget
        &&& self.pos >= old.pos
        &&& self.wf()
    }

    spec fn tok_at(&self, i: int) -> Token {
        src_at(self.src, i)
    }

    /// After `{`, past line breaks: `..`, or a name followed by `:`.
    spec fn struct_lit_ahead(&self) -> bool {
        let j = src_first_content(self.src, self.pos + 1);
        self.pos + 1 <= self.len() && match self.tok_at(j) {
            Token::DotDot => true,
            Token::Ident(_) => self.tok_at(j + 1) is Colon,
            _ => false,
        }
    }

    /// After `{`, past line breaks: `}`, or a literal key followed by `:`.
    spec fn map_lit_ahead(&self) -> bool {
        let j = src_first_content(self.src, self.pos + 1);
        self.pos + 1 <= self.len() && match self.tok_at(j) {
            Token::RBrace => true,
            Token::StringLit(_) | Token::IntLit(_) | Token::FloatLit(_) | Token::True | Token::False => self.tok_at(j + 1) is Colon,
            _ => false,
        }
    }

    /// The next token is a whole expression by itself and the one after it
    /// neither continues it (postfix) nor is an operator that binds at level
    /// `lvl` or tighter.
    spec fn atom_below(&self, lvl: nat) -> bool {
        &&& single_token_expr(self.tok_at(self.pos as int))
        &&& !starts_postfix(self.tok_at(self.pos + 1))
        &&& (op_level(self.tok_at(self.pos + 1)) matches Some(k) ==> k > lvl)
    }

    /// The next tokens are `a op b`, with `a`, `b` whole expressions by
    /// themselves and `op` a binary operator of level `lvl` or tighter,
    /// followed by a token that does not continue the expression at that
    /// level.
    spec fn bin_below(&self, lvl: nat) -> bool {
        &&& single_token_expr(self.tok_at(self.pos as int))
        &&& (op_level(self.tok_at(self.pos + 1)) matches Some(k) && 2 <= k <= lvl)
        &&& binop_of(self.tok_at(self.pos + 1)) is Some
        &&& single_token_expr(self.tok_at(self.pos + 2))
        &&& stops_at(self.tok_at(self.pos + 3), lvl)
    }

    /// The next tokens are `a op b op c`, with `a`, `b`, `c` whole
    /// expressions by themselves and both operators binary ones of level
    /// `lvl` or tighter, followed by a token that does not continue the
    /// expression at that level.
    spec fn tri_below(&self, lvl: nat) -> bool {
        &&& single_token_expr(self.tok_at(self.pos as int))
        &&& (op_level(self.tok_at(self.pos + 1)) matches Some(k) && 2 <= k <= lvl)
        &&& binop_of(self.tok_at(self.pos + 1)) is Some
        &&& single_token_expr(self.tok_at(self.pos + 2))
        &&& (op_level(self.tok_at(self.pos + 3)) matches Some(k) && 2 <= k <= lvl)
        &&& binop_of(self.tok_at(self.pos + 3)) is Some
        &&& single_token_expr(self.tok_at(self.pos + 4))
        &&& stops_at(self.tok_at(self.pos + 5), lvl)
    }

    /// The first operator of `a op b op c` is applied first: it binds
    /// tighter, or as tight and is not `**` (which groups to the right).
    spec fn left_first(&self) -> bool {
        let k1 = op_level(self.tok_at(self.pos + 1))->0;
        let k3 = op_level(self.tok_at(self.pos + 3))->0;
        k1 < k3 || (k1 == k3 && k1 != 2)
    }

    /// `k` is `(a op b)` applied to `c` by the second operator.
    spec fn left_nested(&self, k: ExprKind) -> bool {
        k matches ExprKind::BinOp(l, o, r) && binop_of(self.tok_at(self.pos + 3)) == Some(o) && primary_shape(
            self.tok_at(self.pos + 4),
            self.tok_at(self.pos + 5),
            r.kind,
        ) && self.binop_shape(l.kind)
    }

    /// `k` is `a` applied to `(b op c)` by the first operator.
    spec fn right_nested(&self, k: ExprKind) -> bool {
        k matches ExprKind::BinOp(l, o, r) && binop_of(self.tok_at(self.pos + 1)) == Some(o) && primary_shape(
            self.tok_at(self.pos as int),
            self.tok_at(self.pos + 1),
            l.kind,
        ) && (r.kind matches ExprKind::BinOp(b, o3, c) && binop_of(self.tok_at(self.pos + 3)) == Some(o3) && primary_shape(
            self.tok_at(self.pos + 2),
            self.tok_at(self.pos + 3),
            b.kind,
        ) && primary_shape(self.tok_at(self.pos + 4), self.tok_at(self.pos + 5), c.kind))
    }

    /// How `a op b op c` groups: by the binding strength of the operators,
    /// to the left among equals but `**`.
    spec fn tri_shape(&self, k: ExprKind) -> bool {
        if self.left_first() {
            self.left_nested(k)
        } else {
            self.right_nested(k)
        }
    }

    /// `k` is the operation of the next three tokens `a op b`.
    spec fn binop_shape(&self, k: ExprKind) -> bool {
        k matches ExprKind::BinOp(l, op, r) && binop_of(self.tok_at(self.pos + 1)) == Some(op) && primary_shape(
            self.tok_at(self.pos as int),
            self.tok_at(self.pos + 1),
            l.kind,
        ) && primary_shape(self.tok_at(self.pos + 2), self.tok_at(self.pos + 3), r.kind)
    }

    /// The next token is a whole expression by itself and the one after it
    /// ends the expression.
    spec fn atom_next(&self) -> bool {
        single_token_expr(self.tok_at(self.pos as int)) && ends_expr(self.tok_at(self.pos + 1))
    }

    fn at(&self, i: usize) -> (t: &'a Token)
        ensures
            *t == self.tok_at(i as int),
    {
        match self.src {
            Src::Spanned(toks) => {
                if i < toks.len() {
                    &toks[i].token
                } else {
                    &Token::Eof
                }
            },
            Src::Plain(toks) => {
                if i < toks.len() {
                    &toks[i]
                } else {
                    &Token::Eof
                }
            },
        }
    }

    fn src_length(&self) -> (n: usize)
        ensures
            n == self.len(),
    {
        match self.src {
            Src::Spanned(toks) => toks.len(),
            Src::Plain(toks) => toks.len(),
        }
    }

    fn peek(&self) -> (t: &'a Token)
        ensures
            *t == self.tok_at(self.pos as int),
    {
        self.at(self.pos)
    }

    fn peek_ahead(&self, n: usize) -> (t: &'a Token)
        requires
            self.wf(),
        ensures
            *t == self.tok_at(self.pos + n),
    {
        let len = self.src_length();
        if n > len - self.pos {
            assert(self.tok_at(self.pos + n) == Token::Eof);
            &Token::Eof
        } else {
            self.at(self.pos + n)
        }
    }

    /// Moves past the current token (never past the end).
    fn advance(&mut self)
        requires
            old(self).wf(),
        ensures
            final(self).kept(old(self)),
            old(self).pos < old(self).len() ==> final(self).pos == old(self).pos + 1,
            old(self).pos >= old(self).len() ==> final(self).pos == old(self).pos,
    {
        if self.pos < self.src_length() {
            self.pos = self.pos + 1;
        }
    }

    /// The position of the current token (the last real token past the end).
    fn current_span(&self) -> (s: Span)
        requires
            self.wf(),
        ensures
            match self.src {
                Src::Spanned(toks) => if toks@.len() == 0 {
                    s.line == 0 && s.col == 0
                } else {
                    let idx = if self.pos < toks@.len() { self.pos as int } else { toks@.len() - 1 };
                    s.line == toks@[idx].line as u32 && s.col == toks@[idx].col as u32
                },
                Src::Plain(_) => s.line == 0 && s.col == 0,
            },
    {
        match self.src {
            Src::Spanned(toks) => {
                if toks.len() == 0 {
                    Span::new(0, 0)
                } else {
                    let idx = if self.pos < toks.len() { self.pos } else { toks.len() - 1 };
                    Span::new(toks[idx].line as u32, toks[idx].col as u32)
                }
            },
            Src::Plain(_) => Span::new(0, 0),
        }
    }

    fn error(&self, msg: String) -> (e: CompileError)
        requires
            self.wf(),
        ensures
            e.message@ == msg@,
    {
        CompileError::new(msg, self.current_span())
    }

    /// Error "expected X, got Y" for the current token.
    fn expected_error(&self, what: &str) -> (e: CompileError)
        requires
            self.wf(),
        ensures
            e.message@ == "expected "@ + what@ + ", got "@ + token_display(self.tok_at(self.pos as int)),
    {
        let got = self.peek().display_name();
        let msg = cat4("expected ", what, ", got ", got);
        self.error(msg)
    }

    /// Consumes the current token if it is the same kind as `expected`.
    fn expect(&mut self, expected: &Token) -> (r: Result<(), CompileError>)
        requires
            old(self).wf(),
            !(*expected is Eof),
        ensures
            final(self).kept(old(self)),
            r is Ok <==> same_kind(old(self).tok_at(old(self).pos as int), *expected),
            r is Ok ==> final(self).pos == old(self).pos + 1,
            r is Err ==> final(self).pos == old(self).pos,
    {
        let tok = self.peek();
        if same_kind_exec(tok, expected) {
            assert(self.pos < self.len()) by {
                if self.pos >= self.len() {
                    assert(self.tok_at(self.pos as int) == Token::Eof);
                }
            }
            self.advance();
            Ok(())
        } else {
            Err(self.expected_error(expected.display_name()))
        }
    }

    fn expect_ident(&mut self) -> (r: Result<String, CompileError>)
        requires
            old(self).wf(),
        ensures
            final(self).kept(old(self)),
            r matches Ok(name) ==> final(self).pos == old(self).pos + 1 && (old(self).tok_at(
                old(self).pos as int,
            ) matches Token::Ident(n) && n@ == name@),
            r is Err <==> !(old(self).tok_at(old(self).pos as int) is Ident),
    {
        match self.peek() {
            Token::Ident(name) => {
                let n = name.clone();
                self.advance();
                Ok(n)
            },
            _ => Err(self.expected_error("identifier")),
        }
    }

    fn expect_type_ident(&mut self) -> (r: Result<String, CompileError>)
        requires
            old(self).wf(),
        ensures
            final(self).kept(old(self)),
            r matches Ok(name) ==> final(self).pos == old(self).pos + 1 && (old(self).tok_at(
                old(self).pos as int,
            ) matches Token::TypeIdent(n) && n@ == name@),
            r is Err ==> !(old(self).tok_at(old(self).pos as int) is TypeIdent),
    {
        match self.peek() {
            Token::TypeIdent(name) => {
                let n = name.clone();
                self.advance();
                Ok(n)
            },
            _ => Err(self.expected_error("type identifier")),
        }
    }

    fn skip_newlines(&mut self)
        requires
            old(self).wf(),
        ensures
            final(self).kept(old(self)),
            !(final(self).tok_at(final(self).pos as int) is Newline),
            final(self).pos == src_first_content(old(self).src, old(self).pos as int),
    {
        while matches!(self.peek(), Token::Newline)
            invariant
                self.kept(old(self)),
                src_first_content(self.src, self.pos as int) == src_first_content(old(self).src, old(self).pos as int),
            decreases self.remaining(),
        {
            self.advance();
        }
    }

    fn expect_newline_or_eof(&mut self) -> (r: Result<(), CompileError>)
        requires
            old(self).wf(),
        ensures
            final(self).kept(old(self)),
            r is Ok <==> (old(self).tok_at(old(self).pos as int) is Newline || old(self).tok_at(
                old(self).pos as int,
            ) is Eof || old(self).tok_at(old(self).pos as int) is RBrace),
    {
        match self.peek() {
            Token::Newline => {
                self.advance();
                Ok(())
            },
            Token::Eof => Ok(()),
            Token::RBrace => Ok(()),
            _ => Err(self.expected_error("newline")),
        }
    }

    fn parse_program(&mut self) -> (r: Result<Program, CompileError>)
        requires
            old(self).wf(),
        ensures
            final(self).kept(old(self)),
            r matches Ok(p) ==> p.modules@.len() == 0,
            r matches Ok(p) ==> (p.items@.len() == 0 <==> old(self).tok_at(
                src_first_content(old(self).src, old(self).pos as int),
            ) is Eof),
            r matches Ok(p) ==> (p.items@.len() > 0 ==> item_shape(
                old(self).tok_at(src_first_content(old(self).src, old(self).pos as int)),
                old(self).tok_at(src_first_content(old(self).src, old(self).pos as int) + 1),
                p.items@[0],
            )),
            old(self).tok_at(src_first_content(old(self).src, old(self).pos as int)) is Eof ==> r is Ok,
            r matches Ok(p) ==> has_items_from(old(self).src, old(self).pos as int, p.items@),
            src_empty_fns(old(self).src, old(self).pos as int) matches Some(ns) ==> (r matches Ok(p) && fn_names(p.items@) == ns
                && all_empty_fns(p.items@)),
            !starts_item(old(self).tok_at(src_first_content(old(self).src, old(self).pos as int)))
                && !(old(self).tok_at(src_first_content(old(self).src, old(self).pos as int)) is Eof) ==> (
            r matches Err(e) && e.message@ == "expected "@ + "item (fn, type, let, import)"@ + ", got "@
                + token_display(old(self).tok_at(src_first_content(old(self).src, old(self).pos as int)))),
        decreases old(self).budget, old(self).remaining(), 40int,
    {
        let mut items: Vec<Item> = Vec::new();
        self.skip_newlines();
        let ghost first = self.tok_at(self.pos as int);
        let ghost second = self.tok_at(self.pos + 1);
        let ghost mut ks: Seq<int> = Seq::empty();
        let ghost mut es: Seq<int> = Seq::empty();
        let ghost start = old(self).pos as int;
        assert(first == old(self).tok_at(src_first_content(old(self).src, old(self).pos as int)));
        proof {
            lemma_empty_fns_skip(self.src, start);
            assert(fn_names(items@) =~= Seq::<Seq<char>>::empty());
        }
        while !matches!(self.peek(), Token::Eof)
            invariant
                self.kept(old(self)),
                !(self.tok_at(self.pos as int) is Newline),
                src_empty_fns(self.src, start) is Some ==> (src_empty_fns(self.src, self.pos as int) is Some
                    && src_empty_fns(self.src, start).unwrap() == fn_names(items@) + src_empty_fns(self.src, self.pos as int).unwrap()
                    && all_empty_fns(items@)),
                first == old(self).tok_at(src_first_content(old(self).src, old(self).pos as int)),
                second == old(self).tok_at(src_first_content(old(self).src, old(self).pos as int) + 1),
                items@.len() == 0 ==> first == self.tok_at(self.pos as int) && second == self.tok_at(self.pos + 1),
                items@.len() > 0 ==> item_shape(first, second, items@[0]),
                src_items(self.src, ks, items@),
                forall|i: int| 0 <= i < ks.len() ==> #[trigger] ks[i] < self.pos,
                start == old(self).pos,
                ks.len() == es.len(),
                forall|i: int| 0 <= i < ks.len() ==> #[trigger] ks[i] < es[i] && ks[i] == src_first_content(self.src, prev_pos(start, es, i)),
                self.pos == src_first_content(self.src, prev_pos(start, es, es.len() as int)),
                forall|i: int| 0 <= i < es.len() ==> #[trigger] es[i] <= self.pos && 0 <= es[i],
            decreases self.remaining(),
        {
            let ghost at = self.pos as int;
            let ghost items0 = items@;
            let ghost rest0 = src_empty_fns(self.src, at);
            proof {
                if rest0 is Some {
                    lemma_first_content_idem(self.src, at);
                    assert(src_first_content(self.src, at) == at);
                }
            }
            let item = self.parse_item()?;
            items.push(item);
            proof {
                if src_empty_fns(self.src, start) is Some {
                    let e = self.pos as int;
                    assert(items@ =~= items0.push(item));
                    assert(fn_names(items@) =~= fn_names(items0).push(fn_names(items@)[items0.len() as int]));
                    assert(rest0.unwrap() =~= seq![fn_names(items@)[items0.len() as int]] + src_empty_fns(self.src, e).unwrap());
                    assert(fn_names(items0) + rest0.unwrap() =~= fn_names(items@) + src_empty_fns(self.src, e).unwrap());
                    lemma_empty_fns_skip(self.src, e);
                }
            }
            proof {
                let ks2 = ks.push(at);
                assert(ks2[ks.len() as int] == at);
                assert forall|i: int| 0 <= i < ks2.len() implies item_shape(src_at(self.src, #[trigger] ks2[i]), src_at(self.src, ks2[i] + 1), items@[i]) by {
                    if i < ks.len() {
                        assert(ks2[i] == ks[i]);
                    }
                }
                assert forall|i: int, j: int| 0 <= i < j < ks2.len() implies #[trigger] ks2[i] < #[trigger] ks2[j] by {
                    if j < ks.len() {
                        assert(ks2[i] == ks[i] && ks2[j] == ks[j]);
                    } else {
                        assert(ks2[i] == ks[i]);
                    }
                }
                ks = ks2;
                let es2 = es.push(self.pos as int);
                assert forall|i: int| 0 <= i < ks.len() implies #[trigger] ks[i] < es2[i] && ks[i] == src_first_content(self.src, prev_pos(start, es2, i)) by {
                    if i < es.len() {
                        assert(es2[i] == es[i]);
                        if i > 0 {
                            assert(es2[i - 1] == es[i - 1]);
                        }
                    } else if i > 0 {
                        assert(es2[i - 1] == es[i - 1]);
                    }
                }
                es = es2;
            }
            self.skip_newlines();
        }
        assert(src_items(old(self).src, ks, items@));
        assert(src_chain(old(self).src, start, ks, es));
        Ok(Program { items, modules: Vec::new() })
    }

    fn parse_item(&mut self) -> (r: Result<Item, CompileError>)
        requires
            old(self).wf(),
        ensures
            final(self).kept(old(self)),
            r is Ok ==> final(self).pos > old(self).pos,
            r matches Ok(it) ==> item_shape(old(self).tok_at(old(self).pos as int), old(self).tok_at(old(self).pos + 1), it),
            !starts_item(old(self).tok_at(old(self).pos as int)) ==> (r matches Err(e) && e.message@
                == "expected "@ + "item (fn, type, let, import)"@ + ", got "@ + token_display(
                old(self).tok_at(old(self).pos as int),
            )),
            src_empty_fn_at(old(self).src, old(self).pos as int) ==> (r matches Ok(it) && it matches Item::Function(f)
                && f.name@ == old(self).tok_at(old(self).pos + 1)->Ident_0@ && f.params@.len() == 0 && f.return_type is None
                && f.body.stmts@.len() == 0 && final(self).pos == src_first_content(old(self).src, old(self).pos + 5) + 1),
        decreases old(self).budget, old(self).remaining(), 39int,
    {
        match self.peek() {
            Token::Fn => {
                let func = self.parse_fn_def()?;
                Ok(Item::Function(func))
            },
            Token::Type => {
                let td = self.parse_type_def()?;
                Ok(Item::TypeDef(td))
            },
            Token::Let => {
                let decl = self.parse_let_decl()?;
                self.expect_newline_or_eof()?;
                Ok(Item::Let(decl))
            },
            Token::Import => {
                let imp = self.parse_import()?;
                self.expect_newline_or_eof()?;
                Ok(Item::Import(imp))
            },
            _ => Err(self.expected_error("item (fn, type, let, import)")),
        }
    }

    fn parse_import(&mut self) -> (r: Result<ImportDecl, CompileError>)
        requires
            old(self).wf(),
        ensures
            old(self).tok_at(old(self).pos as int) is Import && !(old(self).tok_at(old(self).pos + 2) is As) ==> match old(self).tok_at(old(self).pos + 1) {
                Token::StringLit(p) => r matches Ok(imp) && imp.path@ == p@ && imp.alias is None,
                _ => r is Err,
            },
            final(self).kept(old(self)),
            r is Ok ==> final(self).pos > old(self).pos,
            r matches Ok(imp) ==> old(self).tok_at(old(self).pos + 1) matches Token::StringLit(p) && imp.path@ == p@,
            r matches Ok(imp) ==> (imp.alias is Some <==> old(self).tok_at(old(self).pos + 2) is As),
    {
        self.expect(&Token::Import)?;
        let path = match self.peek() {
            Token::StringLit(s) => {
                let p = s.clone();
                self.advance();
                p
            },
            _ => {
                return Err(self.expected_error("string after import"));
            },
        };
        let alias = if matches!(self.peek(), Token::As) {
            self.advance();
            Some(self.expect_ident()?)
        } else {
            None
        };
        Ok(ImportDecl { path, alias })
    }

    fn parse_fn_def(&mut self) -> (r: Result<FnDef, CompileError>)
        requires
            old(self).wf(),
        ensures
            old(self).tok_at(old(self).pos as int) is Fn && old(self).tok_at(old(self).pos + 2) is LParen && old(self).tok_at(old(self).pos + 3) is RParen && old(self).tok_at(old(self).pos + 4) is LBrace && old(self).tok_at(src_first_content(old(self).src, old(self).pos + 4 + 1)) is RBrace
                ==> match old(self).tok_at(old(self).pos + 1) {
                Token::Ident(n) => r matches Ok(f) && f.name@ == n@ && f.params@.len() == 0 && f.return_type is None
                    && f.body.stmts@.len() == 0 && final(self).pos == src_first_content(old(self).src, old(self).pos + 5) + 1,
                _ => r is Err,
            },
            final(self).kept(old(self)),
            r is Ok ==> final(self).pos > old(self).pos,
            r matches Ok(f) ==> old(self).tok_at(old(self).pos + 1) matches Token::Ident(n) && f.name@ == n@,
        decreases old(self).budget, old(self).remaining(), 35int,
    {
        let span = self.current_span();
        self.expect(&Token::Fn)?;
        let name = self.expect_ident()?;
        self.expect(&Token::LParen)?;
        let params = self.parse_params()?;
        self.expect(&Token::RParen)?;
        let return_type = if matches!(self.peek(), Token::Arrow) {
            self.advance();
            Some(self.parse_type_expr()?)
        } else {
            None
        };
        self.skip_newlines();
        let body = self.parse_block()?;
        Ok(FnDef { name, params, return_type, body, span })
    }

    fn parse_params(&mut self) -> (r: Result<Vec<Param>, CompileError>)
        requires
            old(self).wf(),
        ensures
            old(self).tok_at(old(self).pos as int) is RParen ==> (r matches Ok(v) && v@.len() == 0 && final(self).pos == old(self).pos),
            !(old(self).tok_at(old(self).pos as int) is RParen) && !(old(self).tok_at(src_first_content(old(self).src, old(self).pos as int)) is Ident) ==> r is Err,
            final(self).kept(old(self)),
        decreases old(self).budget, old(self).remaining(), 34int,
    {
        let mut params: Vec<Param> = Vec::new();
        if matches!(self.peek(), Token::RParen) {
            return Ok(params);
        }
        loop
            invariant
                self.kept(old(self)),
                params@.len() == 0 ==> self.pos == old(self).pos,
                params@.len() > 0 ==> old(self).tok_at(src_first_content(old(self).src, old(self).pos as int)) is Ident,
                !(old(self).tok_at(old(self).pos as int) is RParen),
            ensures
                self.kept(old(self)),
                old(self).tok_at(src_first_content(old(self).src, old(self).pos as int)) is Ident,
            decreases self.remaining(),
        {
            self.skip_newlines();
            let name = self.expect_ident()?;
            self.expect(&Token::Colon)?;
            let ty = self.parse_type_expr()?;
            params.push(Param { name, ty });
            if matches!(self.peek(), Token::Comma) {
                self.advance();
                self.skip_newlines();
            } else {
                break;
            }
        }
        Ok(params)
    }

    #[verifier::loop_isolation(false)]
    fn parse_type_expr(&mut self) -> (r: Result<TypeExpr, CompileError>)
        requires
            old(self).wf(),
        ensures
            final(self).kept(old(self)),
            r is Ok ==> final(self).pos > old(self).pos,
            r matches Ok(ty) ==> (ty is Union || base_type_shape(old(self).tok_at(old(self).pos as int), type_core(ty))),
            !starts_type(old(self).tok_at(old(self).pos as int)) ==> (r matches Err(e) && e.message@
                == "expected "@ + "type"@ + ", got "@ + token_display(old(self).tok_at(old(self).pos as int))),
        decreases old(self).budget, old(self).remaining(), 33int,
    {
        let base = self.parse_base_type()?;
        if matches!(self.peek(), Token::Pipe) {
            let mut members: Vec<TypeExpr> = Vec::new();
            members.push(base);
            while matches!(self.peek(), Token::Pipe)
                invariant
                    self.kept(old(self)),
                    self.pos > old(self).pos,
                decreases self.remaining(),
            {
                self.advance();
                members.push(self.parse_base_type()?);
            }
            return Ok(TypeExpr::Union(members));
        }
        Ok(base)
    }

    /// Parses a comma-separated list of types up to (not including) `)`.
    fn parse_type_list(&mut self) -> (r: Result<Vec<TypeExpr>, CompileError>)
        requires
            old(self).wf(),
        ensures
            old(self).tok_at(old(self).pos as int) is RParen ==> (r matches Ok(v) && v@.len() == 0 && final(self).pos == old(self).pos),
            !(old(self).tok_at(old(self).pos as int) is RParen) && !starts_type(old(self).tok_at(old(self).pos as int)) ==> r is Err,
            final(self).kept(old(self)),
        decreases old(self).budget, old(self).remaining(), 34int,
    {
        let mut types: Vec<TypeExpr> = Vec::new();
        if !matches!(self.peek(), Token::RParen) {
            loop
                invariant
                    self.kept(old(self)),
                    types@.len() == 0 ==> self.pos == old(self).pos,
                    !(old(self).tok_at(old(self).pos as int) is RParen),
                    types@.len() > 0 ==> starts_type(old(self).tok_at(old(self).pos as int)),
                ensures
                    self.kept(old(self)),
                    starts_type(old(self).tok_at(old(self).pos as int)),
                decreases self.remaining(),
            {
                types.push(self.parse_type_expr()?);
                if matches!(self.peek(), Token::Comma) {
                    self.advance();
                } else {
                    break;
                }
            }
        }
        Ok(types)
    }

    #[verifier::loop_isolation(false)]
    fn parse_base_type(&mut self) -> (r: Result<TypeExpr, CompileError>)
        requires
            old(self).wf(),
        ensures
            final(self).kept(old(self)),
            r is Ok ==> final(self).pos > old(self).pos,
            r matches Ok(ty) ==> base_type_shape(old(self).tok_at(old(self).pos as int), type_core(ty)),
            !starts_type(old(self).tok_at(old(self).pos as int)) ==> (r matches Err(e) && e.message@
                == "expected "@ + "type"@ + ", got "@ + token_display(old(self).tok_at(old(self).pos as int))),
            old(self).tok_at(old(self).pos as int) is LBracket && old(self).tok_at(old(self).pos + 1) is RBracket
                ==> (r matches Err(e) && e.message@ == "empty array type needs element type: [T]"@),
        decreases old(self).budget, old(self).remaining(), 32int,
    {
        let mut ty = match self.peek() {
            Token::Ident(name) => {
                let name = name.clone();
                self.advance();
                if is_primitive_type(name.as_str()) {
                    TypeExpr::Named(name)
                } else if matches!(self.peek(), Token::Dot) && matches!(self.peek_ahead(1), Token::TypeIdent(_)) {
                    self.advance();
                    let tname = self.expect_type_ident()?;
                    TypeExpr::Qualified(name, tname)
                } else {
                    TypeExpr::Named(name)
                }
            },
            Token::TypeIdent(name) => {
                let name = name.clone();
                self.advance();
                if str_eq(name.as_str(), "Self") {
                    TypeExpr::SelfType
                } else {
                    TypeExpr::Named(name)
                }
            },
            Token::LBracket => {
                self.advance();
                if matches!(self.peek(), Token::RBracket) {
                    return Err(self.error(String::from_str("empty array type needs element type: [T]")));
                }
                let inner = self.parse_type_expr()?;
                if matches!(self.peek(), Token::Colon) {
                    self.advance();
                    let value = self.parse_type_expr()?;
                    self.expect(&Token::RBracket)?;
                    TypeExpr::MapOf(Box::new(inner), Box::new(value))
                } else {
                    self.expect(&Token::RBracket)?;
                    TypeExpr::Array(Box::new(inner))
                }
            },
            Token::LParen => {
                self.advance();
                let first = self.parse_type_expr()?;
                if matches!(self.peek(), Token::Comma) {
                    let mut types: Vec<TypeExpr> = Vec::new();
                    types.push(first);
                    while matches!(self.peek(), Token::Comma)
                        invariant
                            self.kept(old(self)),
                            self.pos > old(self).pos,
                        decreases self.remaining(),
                    {
                        self.advance();
                        if matches!(self.peek(), Token::RParen) {
                            break;
                        }
                        types.push(self.parse_type_expr()?);
                    }
                    self.expect(&Token::RParen)?;
                    TypeExpr::Tuple(types)
                } else {
                    self.expect(&Token::RParen)?;
                    first
                }
            },
            Token::Fn => {
                self.advance();
                self.expect(&Token::LParen)?;
                let param_types = self.parse_type_list()?;
                self.expect(&Token::RParen)?;
                let ret = if matches!(self.peek(), Token::Arrow) {
                    self.advance();
                    self.parse_type_expr()?
                } else {
                    TypeExpr::Named(String::from_str("nil"))
                };
                TypeExpr::Function(param_types, Box::new(ret))
            },
            _ => {
                return Err(self.expected_error("type"));
            },
        };
        let ghost core = type_core(ty);
        loop
            invariant
                self.kept(old(self)),
                self.pos > old(self).pos,
                type_core(ty) == core,
            decreases self.remaining(),
        {
            match self.peek() {
                Token::Question => {
                    self.advance();
                    ty = TypeExpr::Optional(Box::new(ty));
                },
                Token::Bang => {
                    self.advance();
                    let err_ty = self.parse_base_type()?;
                    ty = TypeExpr::Result(Box::new(ty), Box::new(err_ty));
                },
                _ => break,
            }
        }
        Ok(ty)
    }

    fn parse_type_def(&mut self) -> (r: Result<TypeDef, CompileError>)
        requires
            old(self).wf(),
        ensures
            !(old(self).tok_at(old(self).pos as int) is Type) || !(old(self).tok_at(old(self).pos + 1) is TypeIdent) ==> r is Err,
            old(self).tok_at(old(self).pos as int) is Type && old(self).tok_at(old(self).pos + 2) is LBrace && old(self).tok_at(src_first_content(old(self).src, old(self).pos + 3)) is RBrace ==> match old(self).tok_at(
                old(self).pos + 1,
            ) {
                Token::TypeIdent(n) => r matches Ok(td) && td.name@ == n@ && td.parent is None && (td.kind matches TypeDefKind::Struct(sd)
                    && sd.fields@.len() == 0 && sd.methods@.len() == 0),
                _ => r is Err,
            },
            final(self).kept(old(self)),
            r is Ok ==> final(self).pos > old(self).pos,
            r matches Ok(td) ==> old(self).tok_at(old(self).pos + 1) matches Token::TypeIdent(n) && td.name@ == n@,
            r matches Ok(td) ==> (td.parent is Some <==> old(self).tok_at(old(self).pos + 2) is Colon),
            r matches Ok(td) ==> (td.kind is Alias <==> old(self).tok_at(
                old(self).pos + if old(self).tok_at(old(self).pos + 2) is Colon {
                    4int
                } else {
                    2int
                },
            ) is Eq),
        decreases old(self).budget, old(self).remaining(), 36int,
    {
        let span = self.current_span();
        self.expect(&Token::Type)?;
        let name = self.expect_type_ident()?;
        let parent = if matches!(self.peek(), Token::Colon) {
            self.advance();
            Some(self.expect_type_ident()?)
        } else {
            None
        };
        if matches!(self.peek(), Token::Eq) {
            self.advance();
            let ty = self.parse_type_expr()?;
            self.expect_newline_or_eof()?;
            return Ok(TypeDef { name, parent, kind: TypeDefKind::Alias(ty), span });
        }
        self.skip_newlines();
        self.expect(&Token::LBrace)?;
        self.skip_newlines();
        let mut fields: Vec<FieldDef> = Vec::new();
        let mut methods: Vec<FnDef> = Vec::new();
        let mut variants: Vec<VariantDef> = Vec::new();
        while !matches!(self.peek(), Token::RBrace)
            invariant
                self.kept(old(self)),
                self.pos > old(self).pos,
                old(self).tok_at(old(self).pos + 2) is LBrace && old(self).tok_at(src_first_content(old(self).src, old(self).pos + 3)) is RBrace ==> fields@.len() == 0
                    && methods@.len() == 0 && variants@.len() == 0 && self.pos == src_first_content(old(self).src, old(self).pos + 3),
            decreases self.remaining(),
        {
            self.skip_newlines();
            if matches!(self.peek(), Token::RBrace) {
                break;
            }
            match self.peek() {
                Token::Fn => {
                    let method = self.parse_fn_def()?;
                    methods.push(method);
                    self.skip_newlines();
                },
                Token::TypeIdent(variant_name) => {
                    let variant_name = variant_name.clone();
                    self.advance();
                    let variant_fields = if matches!(self.peek(), Token::LParen) {
                        self.advance();
                        let vf = self.parse_type_list()?;
                        self.expect(&Token::RParen)?;
                        vf
                    } else {
                        Vec::new()
                    };
                    if matches!(self.peek(), Token::Comma) {
                        self.advance();
                    }
                    variants.push(VariantDef { name: variant_name, fields: variant_fields });
                    self.skip_newlines();
                },
                Token::Ident(field_name) => {
                    let field_name = field_name.clone();
                    self.advance();
                    self.expect(&Token::Colon)?;
                    let ty = self.parse_type_expr()?;
                    fields.push(FieldDef { name: field_name, ty });
                    if matches!(self.peek(), Token::Comma) {
                        self.advance();
                    }
                    self.skip_newlines();
                },
                _ => {
                    return Err(self.expected_error("field, variant or method in type body"));
                },
            }
        }
        self.expect(&Token::RBrace)?;
        let kind = if variants.len() > 0 {
            TypeDefKind::Enum(EnumDef { variants, methods })
        } else {
            TypeDefKind::Struct(StructDef { fields, methods })
        };
        Ok(TypeDef { name, parent, kind, span })
    }

    fn parse_block(&mut self) -> (r: Result<Block, CompileError>)
        requires
            old(self).wf(),
        ensures
            !(old(self).tok_at(old(self).pos as int) is LBrace) ==> r is Err,
            old(self).tok_at(old(self).pos as int) is LBrace && old(self).tok_at(src_first_content(old(self).src, old(self).pos + 1)) is RBrace ==> (r matches Ok(b)
                && b.stmts@.len() == 0 && final(self).pos == src_first_content(old(self).src, old(self).pos + 1) + 1),
            old(self).tok_at(old(self).pos as int) is LBrace && old(self).tok_at(src_first_content(old(self).src, old(self).pos + 1)) is Eof ==> r is Err,
            final(self).kept(old(self)),
            r is Ok ==> final(self).pos > old(self).pos,
        decreases old(self).budget, old(self).remaining(), 3int,
    {
        self.expect(&Token::LBrace)?;
        self.skip_newlines();
        let mut stmts: Vec<Stmt> = Vec::new();
        while !matches!(self.peek(), Token::RBrace)
            invariant
                self.kept(old(self)),
                self.pos > old(self).pos,
                stmts@.len() == 0 ==> self.pos == src_first_content(old(self).src, old(self).pos + 1),
                old(self).tok_at(src_first_content(old(self).src, old(self).pos + 1)) is RBrace ==> stmts@.len() == 0,
                old(self).tok_at(src_first_content(old(self).src, old(self).pos + 1)) is Eof ==> stmts@.len() == 0,
            decreases self.remaining(),
        {
            if matches!(self.peek(), Token::Eof) {
                return Err(self.error(String::from_str("unterminated block")));
            }
            let stmt = self.parse_stmt()?;
            stmts.push(stmt);
            self.skip_newlines();
        }
        self.expect(&Token::RBrace)?;
        Ok(Block { stmts })
    }

    #[verifier::loop_isolation(false)]
    fn parse_stmt(&mut self) -> (r: Result<Stmt, CompileError>)
        requires
            old(self).wf(),
        ensures
            final(self).kept(old(self)),
            r is Ok ==> final(self).pos > old(self).pos,
            r matches Ok(st) ==> stmt_shape(
                old(self).tok_at(old(self).pos as int),
                old(self).tok_at(old(self).pos + 1),
                st.kind,
            ),
            old(self).tok_at(old(self).pos as int) is Break || old(self).tok_at(old(self).pos as int) is Continue
                ==> (r is Ok <==> ends_stmt(old(self).tok_at(old(self).pos + 1))),
        decreases old(self).budget, old(self).remaining(), 30int,
    {
        let span = self.current_span();
        match self.peek() {
            Token::Let => {
                if matches!(self.peek_ahead(1), Token::LParen) {
                    self.advance();
                    self.advance();
                    let mut names: Vec<String> = Vec::new();
                    loop
                        invariant
                            self.kept(old(self)),
                            self.pos > old(self).pos,
                        decreases self.remaining(),
                    {
                        let n = self.expect_ident()?;
                        names.push(n);
                        if matches!(self.peek(), Token::Comma) {
                            self.advance();
                        } else {
                            break;
                        }
                    }
                    self.expect(&Token::RParen)?;
                    self.expect(&Token::Eq)?;
                    let value = self.parse_expr()?;
                    self.expect_newline_or_eof()?;
                    return Ok(Stmt { kind: StmtKind::LetTuple(names, value), span });
                }
                let decl = self.parse_let_decl()?;
                self.expect_newline_or_eof()?;
                Ok(Stmt { kind: StmtKind::Let(decl), span })
            },
            Token::Return => {
                self.advance();
                if matches!(self.peek(), Token::Bang) && matches!(self.peek_ahead(1), Token::LParen) {
                    self.advance();
                    self.advance();
                    let expr = self.parse_expr()?;
                    self.expect(&Token::RParen)?;
                    self.expect_newline_or_eof()?;
                    Ok(Stmt { kind: StmtKind::ReturnError(expr), span })
                } else if matches!(self.peek(), Token::Newline | Token::RBrace | Token::Eof) {
                    self.expect_newline_or_eof()?;
                    Ok(Stmt { kind: StmtKind::Return(None), span })
                } else {
                    let expr = self.parse_expr()?;
                    self.expect_newline_or_eof()?;
                    Ok(Stmt { kind: StmtKind::Return(Some(expr)), span })
                }
            },
            Token::Break => {
                self.advance();
                self.expect_newline_or_eof()?;
                Ok(Stmt { kind: StmtKind::Break, span })
            },
            Token::Continue => {
                self.advance();
                self.expect_newline_or_eof()?;
                Ok(Stmt { kind: StmtKind::Continue, span })
            },
            _ => {
                let expr = self.parse_expr()?;
                if matches!(self.peek(), Token::Eq) {
                    self.advance();
                    let target = self.expr_to_assign_target(expr)?;
                    let value = self.parse_expr()?;
                    self.expect_newline_or_eof()?;
                    Ok(Stmt { kind: StmtKind::Assign(target, value), span })
                } else {
                    self.expect_newline_or_eof()?;
                    Ok(Stmt { kind: StmtKind::Expr(expr), span })
                }
            },
        }
    }

    /// The assignment target an expression denotes: a variable, a field or an
    /// element; anything else is not assignable.
    fn expr_to_assign_target(&self, expr: Expr) -> (r: Result<AssignTarget, CompileError>)
        requires
            self.wf(),
        ensures
            r matches Ok(t) ==> match expr.kind {
                ExprKind::Ident(name) => t == AssignTarget::Variable(name),
                ExprKind::FieldAccess(obj, field) => t == AssignTarget::Field(obj, field),
                ExprKind::Index(obj, idx) => t == AssignTarget::Index(obj, idx),
                _ => false,
            },
            r is Err <==> !(expr.kind is Ident || expr.kind is FieldAccess || expr.kind is Index),
    {
        match expr.kind {
            ExprKind::Ident(name) => Ok(AssignTarget::Variable(name)),
            ExprKind::FieldAccess(obj, field) => Ok(AssignTarget::Field(obj, field)),
            ExprKind::Index(obj, idx) => Ok(AssignTarget::Index(obj, idx)),
            _ => Err(self.error(String::from_str("invalid assignment target"))),
        }
    }

    fn parse_let_decl(&mut self) -> (r: Result<LetDecl, CompileError>)
        requires
            old(self).wf(),
        ensures
            old(self).tok_at(old(self).pos as int) is Let && old(self).tok_at(old(self).pos + 2) is Eq && single_token_expr(old(self).tok_at(old(self).pos + 3)) && ends_expr(old(self).tok_at(old(self).pos + 4))
                ==> match old(self).tok_at(old(self).pos + 1) {
                Token::Ident(n) => r matches Ok(d) && d.name@ == n@ && !d.mutable && d.ty is None && primary_shape(
                    old(self).tok_at(old(self).pos + 3),
                    old(self).tok_at(old(self).pos + 4),
                    d.value.kind,
                ),
                _ => r is Err,
            },
            final(self).kept(old(self)),
            r is Ok ==> final(self).pos > old(self).pos,
        decreases old(self).budget, old(self).remaining(), 29int,
    {
        let span = self.current_span();
        self.expect(&Token::Let)?;
        let mutable = if matches!(self.peek(), Token::Mut) {
            self.advance();
            true
        } else {
            false
        };
        let name = self.expect_ident()?;
        let ty = if matches!(self.peek(), Token::Colon) {
            self.advance();
            Some(self.parse_type_expr()?)
        } else {
            None
        };
        self.expect(&Token::Eq)?;
        let value = self.parse_expr()?;
        Ok(LetDecl { name, mutable, ty, value, span })
    }

    fn parse_expr(&mut self) -> (r: Result<Expr, CompileError>)
        requires
            old(self).wf(),
        ensures
            final(self).kept(old(self)),
            r is Ok ==> final(self).pos > old(self).pos,
            old(self).atom_next() ==> (r matches Ok(e) && primary_shape(
                old(self).tok_at(old(self).pos as int),
                old(self).tok_at(old(self).pos + 1),
                e.kind,
            ) && final(self).pos == old(self).pos + 1),
            old(self).atom_below(14) ==> (r matches Ok(e) && primary_shape(
                old(self).tok_at(old(self).pos as int),
                old(self).tok_at(old(self).pos + 1),
                e.kind,
            ) && final(self).pos == old(self).pos + 1),
            old(self).bin_below(14) ==> (r matches Ok(e) && old(self).binop_shape(e.kind) && final(self).pos == old(self).pos + 3),
            old(self).tri_below(14) ==> (r matches Ok(e) && old(self).tri_shape(e.kind) && final(self).pos == old(self).pos + 5),
        decreases old(self).budget, old(self).remaining(), 20int,
    {
        self.parse_range_expr()
    }

    fn parse_range_expr(&mut self) -> (r: Result<Expr, CompileError>)
        requires
            old(self).wf(),
        ensures
            final(self).kept(old(self)),
            r is Ok ==> final(self).pos > old(self).pos,
            old(self).atom_below(13) ==> (r matches Ok(e) && primary_shape(
                old(self).tok_at(old(self).pos as int),
                old(self).tok_at(old(self).pos + 1),
                e.kind,
            ) && final(self).pos == old(self).pos + 1),
            old(self).bin_below(13) ==> (r matches Ok(e) && old(self).binop_shape(e.kind) && final(self).pos == old(self).pos + 3),
            old(self).tri_below(13) ==> (r matches Ok(e) && old(self).tri_shape(e.kind) && final(self).pos == old(self).pos + 5),
        decreases old(self).budget, old(self).remaining(), 19int,
    {
        let span = self.current_span();
        let left = self.parse_or_expr()?;
        if matches!(self.peek(), Token::DotDot) {
            self.advance();
            let right = self.parse_or_expr()?;
            Ok(mk(ExprKind::Range(bx(left), bx(right)), span))
        } else {
            Ok(left)
        }
    }

    fn parse_or_expr(&mut self) -> (r: Result<Expr, CompileError>)
        requires
            old(self).wf(),
        ensures
            final(self).kept(old(self)),
            r is Ok ==> final(self).pos > old(self).pos,
            old(self).atom_below(12) ==> (r matches Ok(e) && primary_shape(
                old(self).tok_at(old(self).pos as int),
                old(self).tok_at(old(self).pos + 1),
                e.kind,
            ) && final(self).pos == old(self).pos + 1),
            old(self).bin_below(12) ==> (r matches Ok(e) && old(self).binop_shape(e.kind) && final(self).pos == old(self).pos + 3),
            old(self).tri_below(12) ==> (r matches Ok(e) && old(self).tri_shape(e.kind) && final(self).pos == old(self).pos + 5),
        decreases old(self).budget, old(self).remaining(), 18int,
    {
        let span = self.current_span();
        let mut left = self.parse_and_expr()?;
        while matches!(self.peek(), Token::PipePipe)
            invariant
                self.kept(old(self)),
                old(self).atom_below(12) ==> self.pos == old(self).pos + 1 && primary_shape(
                    old(self).tok_at(old(self).pos as int),
                    old(self).tok_at(old(self).pos + 1),
                    left.kind,
                ),
                old(self).bin_below(12) ==> (self.pos == old(self).pos + 1 && op_level(old(self).tok_at(old(self).pos + 1)) == Some(12nat)
                    && primary_shape(old(self).tok_at(old(self).pos as int), old(self).tok_at(old(self).pos + 1), left.kind)) || (
                self.pos == old(self).pos + 3 && old(self).binop_shape(left.kind)),
                old(self).tri_below(12) ==> (self.pos == old(self).pos + 1 && op_level(old(self).tok_at(old(self).pos + 1)) == Some(12nat)
                    && primary_shape(old(self).tok_at(old(self).pos as int), old(self).tok_at(old(self).pos + 1), left.kind)) || (
                self.pos == old(self).pos + 3 && op_level(old(self).tok_at(old(self).pos + 3)) == Some(12nat) && old(self).binop_shape(
                    left.kind,
                )) || (self.pos == old(self).pos + 5 && old(self).tri_shape(left.kind)),
                self.pos > old(self).pos,
            decreases self.remaining(),
        {
            self.advance();
            let right = self.parse_and_expr()?;
            left = mk(ExprKind::BinOp(bx(left), BinOp::Or, bx(right)), span);
        }
        Ok(left)
    }

    fn parse_and_expr(&mut self) -> (r: Result<Expr, CompileError>)
        requires
            old(self).wf(),
        ensures
            final(self).kept(old(self)),
            r is Ok ==> final(self).pos > old(self).pos,
            old(self).atom_below(11) ==> (r matches Ok(e) && primary_shape(
                old(self).tok_at(old(self).pos as int),
                old(self).tok_at(old(self).pos + 1),
                e.kind,
            ) && final(self).pos == old(self).pos + 1),
            old(self).bin_below(11) ==> (r matches Ok(e) && old(self).binop_shape(e.kind) && final(self).pos == old(self).pos + 3),
            old(self).tri_below(11) ==> (r matches Ok(e) && old(self).tri_shape(e.kind) && final(self).pos == old(self).pos + 5),
        decreases old(self).budget, old(self).remaining(), 17int,
    {
        let span = self.current_span();
        let mut left = self.parse_bitor_expr()?;
        while matches!(self.peek(), Token::AmpAmp)
            invariant
                self.kept(old(self)),
                old(self).atom_below(11) ==> self.pos == old(self).pos + 1 && primary_shape(
                    old(self).tok_at(old(self).pos as int),
                    old(self).tok_at(old(self).pos + 1),
                    left.kind,
                ),
                old(self).bin_below(11) ==> (self.pos == old(self).pos + 1 && op_level(old(self).tok_at(old(self).pos + 1)) == Some(11nat)
                    && primary_shape(old(self).tok_at(old(self).pos as int), old(self).tok_at(old(self).pos + 1), left.kind)) || (
                self.pos == old(self).pos + 3 && old(self).binop_shape(left.kind)),
                old(self).tri_below(11) ==> (self.pos == old(self).pos + 1 && op_level(old(self).tok_at(old(self).pos + 1)) == Some(11nat)
                    && primary_shape(old(self).tok_at(old(self).pos as int), old(self).tok_at(old(self).pos + 1), left.kind)) || (
                self.pos == old(self).pos + 3 && op_level(old(self).tok_at(old(self).pos + 3)) == Some(11nat) && old(self).binop_shape(
                    left.kind,
                )) || (self.pos == old(self).pos + 5 && old(self).tri_shape(left.kind)),
                self.pos > old(self).pos,
            decreases self.remaining(),
        {
            self.advance();
            let right = self.parse_bitor_expr()?;
            left = mk(ExprKind::BinOp(bx(left), BinOp::And, bx(right)), span);
        }
        Ok(left)
    }

    fn parse_bitor_expr(&mut self) -> (r: Result<Expr, CompileError>)
        requires
            old(self).wf(),
        ensures
            final(self).kept(old(self)),
            r is Ok ==> final(self).pos > old(self).pos,
            old(self).atom_below(10) ==> (r matches Ok(e) && primary_shape(
                old(self).tok_at(old(self).pos as int),
                old(self).tok_at(old(self).pos + 1),
                e.kind,
            ) && final(self).pos == old(self).pos + 1),
            old(self).bin_below(10) ==> (r matches Ok(e) && old(self).binop_shape(e.kind) && final(self).pos == old(self).pos + 3),
            old(self).tri_below(10) ==> (r matches Ok(e) && old(self).tri_shape(e.kind) && final(self).pos == old(self).pos + 5),
        decreases old(self).budget, old(self).remaining(), 16int,
    {
        let span = self.current_span();
        let mut left = self.parse_bitxor_expr()?;
        while matches!(self.peek(), Token::Pipe)
            invariant
                self.kept(old(self)),
                old(self).atom_below(10) ==> self.pos == old(self).pos + 1 && primary_shape(
                    old(self).tok_at(old(self).pos as int),
                    old(self).tok_at(old(self).pos + 1),
                    left.kind,
                ),
                old(self).bin_below(10) ==> (self.pos == old(self).pos + 1 && op_level(old(self).tok_at(old(self).pos + 1)) == Some(10nat)
                    && primary_shape(old(self).tok_at(old(self).pos as int), old(self).tok_at(old(self).pos + 1), left.kind)) || (
                self.pos == old(self).pos + 3 && old(self).binop_shape(left.kind)),
                old(self).tri_below(10) ==> (self.pos == old(self).pos + 1 && op_level(old(self).tok_at(old(self).pos + 1)) == Some(10nat)
                    && primary_shape(old(self).tok_at(old(self).pos as int), old(self).tok_at(old(self).pos + 1), left.kind)) || (
                self.pos == old(self).pos + 3 && op_level(old(self).tok_at(old(self).pos + 3)) == Some(10nat) && old(self).binop_shape(
                    left.kind,
                )) || (self.pos == old(self).pos + 5 && old(self).tri_shape(left.kind)),
                self.pos > old(self).pos,
            decreases self.remaining(),
        {
            self.advance();
            let right = self.parse_bitxor_expr()?;
            left = mk(ExprKind::BinOp(bx(left), BinOp::BitOr, bx(right)), span);
        }
        Ok(left)
    }

    fn parse_bitxor_expr(&mut self) -> (r: Result<Expr, CompileError>)
        requires
            old(self).wf(),
        ensures
            final(self).kept(old(self)),
            r is Ok ==> final(self).pos > old(self).pos,
            old(self).atom_below(9) ==> (r matches Ok(e) && primary_shape(
                old(self).tok_at(old(self).pos as int),
                old(self).tok_at(old(self).pos + 1),
                e.kind,
            ) && final(self).pos == old(self).pos + 1),
            old(self).bin_below(9) ==> (r matches Ok(e) && old(self).binop_shape(e.kind) && final(self).pos == old(self).pos + 3),
            old(self).tri_below(9) ==> (r matches Ok(e) && old(self).tri_shape(e.kind) && final(self).pos == old(self).pos + 5),
        decreases old(self).budget, old(self).remaining(), 15int,
    {
        let span = self.current_span();
        let mut left = self.parse_bitand_expr()?;
        while matches!(self.peek(), Token::Caret)
            invariant
                self.kept(old(self)),
                old(self).atom_below(9) ==> self.pos == old(self).pos + 1 && primary_shape(
                    old(self).tok_at(old(self).pos as int),
                    old(self).tok_at(old(self).pos + 1),
                    left.kind,
                ),
                old(self).bin_below(9) ==> (self.pos == old(self).pos + 1 && op_level(old(self).tok_at(old(self).pos + 1)) == Some(9nat)
                    && primary_shape(old(self).tok_at(old(self).pos as int), old(self).tok_at(old(self).pos + 1), left.kind)) || (
                self.pos == old(self).pos + 3 && old(self).binop_shape(left.kind)),
                old(self).tri_below(9) ==> (self.pos == old(self).pos + 1 && op_level(old(self).tok_at(old(self).pos + 1)) == Some(9nat)
                    && primary_shape(old(self).tok_at(old(self).pos as int), old(self).tok_at(old(self).pos + 1), left.kind)) || (
                self.pos == old(self).pos + 3 && op_level(old(self).tok_at(old(self).pos + 3)) == Some(9nat) && old(self).binop_shape(
                    left.kind,
                )) || (self.pos == old(self).pos + 5 && old(self).tri_shape(left.kind)),
                self.pos > old(self).pos,
            decreases self.remaining(),
        {
            self.advance();
            let right = self.parse_bitand_expr()?;
            left = mk(ExprKind::BinOp(bx(left), BinOp::BitXor, bx(right)), span);
        }
        Ok(left)
    }

    fn parse_bitand_expr(&mut self) -> (r: Result<Expr, CompileError>)
        requires
            old(self).wf(),
        ensures
            final(self).kept(old(self)),
            r is Ok ==> final(self).pos > old(self).pos,
            old(self).atom_below(8) ==> (r matches Ok(e) && primary_shape(
                old(self).tok_at(old(self).pos as int),
                old(self).tok_at(old(self).pos + 1),
                e.kind,
            ) && final(self).pos == old(self).pos + 1),
            old(self).bin_below(8) ==> (r matches Ok(e) && old(self).binop_shape(e.kind) && final(self).pos == old(self).pos + 3),
            old(self).tri_below(8) ==> (r matches Ok(e) && old(self).tri_shape(e.kind) && final(self).pos == old(self).pos + 5),
        decreases old(self).budget, old(self).remaining(), 14int,
    {
        let span = self.current_span();
        let mut left = self.parse_equality_expr()?;
        while matches!(self.peek(), Token::Ampersand)
            invariant
                self.kept(old(self)),
                old(self).atom_below(8) ==> self.pos == old(self).pos + 1 && primary_shape(
                    old(self).tok_at(old(self).pos as int),
                    old(self).tok_at(old(self).pos + 1),
                    left.kind,
                ),
                old(self).bin_below(8) ==> (self.pos == old(self).pos + 1 && op_level(old(self).tok_at(old(self).pos + 1)) == Some(8nat)
                    && primary_shape(old(self).tok_at(old(self).pos as int), old(self).tok_at(old(self).pos + 1), left.kind)) || (
                self.pos == old(self).pos + 3 && old(self).binop_shape(left.kind)),
                old(self).tri_below(8) ==> (self.pos == old(self).pos + 1 && op_level(old(self).tok_at(old(self).pos + 1)) == Some(8nat)
                    && primary_shape(old(self).tok_at(old(self).pos as int), old(self).tok_at(old(self).pos + 1), left.kind)) || (
                self.pos == old(self).pos + 3 && op_level(old(self).tok_at(old(self).pos + 3)) == Some(8nat) && old(self).binop_shape(
                    left.kind,
                )) || (self.pos == old(self).pos + 5 && old(self).tri_shape(left.kind)),
                self.pos > old(self).pos,
            decreases self.remaining(),
        {
            self.advance();
            let right = self.parse_equality_expr()?;
            left = mk(ExprKind::BinOp(bx(left), BinOp::BitAnd, bx(right)), span);
        }
        Ok(left)
    }

    fn parse_equality_expr(&mut self) -> (r: Result<Expr, CompileError>)
        requires
            old(self).wf(),
        ensures
            final(self).kept(old(self)),
            r is Ok ==> final(self).pos > old(self).pos,
            old(self).atom_below(7) ==> (r matches Ok(e) && primary_shape(
                old(self).tok_at(old(self).pos as int),
                old(self).tok_at(old(self).pos + 1),
                e.kind,
            ) && final(self).pos == old(self).pos + 1),
            old(self).bin_below(7) ==> (r matches Ok(e) && old(self).binop_shape(e.kind) && final(self).pos == old(self).pos + 3),
            old(self).tri_below(7) ==> (r matches Ok(e) && old(self).tri_shape(e.kind) && final(self).pos == old(self).pos + 5),
        decreases old(self).budget, old(self).remaining(), 13int,
    {
        let span = self.current_span();
        let mut left = self.parse_comparison_expr()?;
        loop
            invariant_except_break
                old(self).bin_below(7) ==> (self.pos == old(self).pos + 1 && op_level(old(self).tok_at(old(self).pos + 1)) == Some(7nat)
                    && primary_shape(old(self).tok_at(old(self).pos as int), old(self).tok_at(old(self).pos + 1), left.kind)) || (
                self.pos == old(self).pos + 3 && old(self).binop_shape(left.kind)),
                old(self).tri_below(7) ==> (self.pos == old(self).pos + 1 && op_level(old(self).tok_at(old(self).pos + 1)) == Some(7nat)
                    && primary_shape(old(self).tok_at(old(self).pos as int), old(self).tok_at(old(self).pos + 1), left.kind)) || (
                self.pos == old(self).pos + 3 && op_level(old(self).tok_at(old(self).pos + 3)) == Some(7nat) && old(self).binop_shape(
                    left.kind,
                )) || (self.pos == old(self).pos + 5 && old(self).tri_shape(left.kind)),
            invariant
                self.kept(old(self)),
                old(self).atom_below(7) ==> self.pos == old(self).pos + 1 && primary_shape(
                    old(self).tok_at(old(self).pos as int),
                    old(self).tok_at(old(self).pos + 1),
                    left.kind,
                ),
                self.pos > old(self).pos,
            ensures
                self.kept(old(self)),
                self.pos > old(self).pos,
                old(self).atom_below(7) ==> self.pos == old(self).pos + 1 && primary_shape(
                    old(self).tok_at(old(self).pos as int),
                    old(self).tok_at(old(self).pos + 1),
                    left.kind,
                ),
                old(self).bin_below(7) ==> self.pos == old(self).pos + 3 && old(self).binop_shape(left.kind),
                old(self).tri_below(7) ==> self.pos == old(self).pos + 5 && old(self).tri_shape(left.kind),
            decreases self.remaining(),
        {
            match self.peek() {
                Token::EqEq => {
                    self.advance();
                    let right = self.parse_comparison_expr()?;
                    left = mk(ExprKind::BinOp(bx(left), BinOp::Eq, bx(right)), span);
                },
                Token::BangEq => {
                    self.advance();
                    let right = self.parse_comparison_expr()?;
                    left = mk(ExprKind::BinOp(bx(left), BinOp::NotEq, bx(right)), span);
                },
                Token::Is => {
                    self.advance();
                    let target = self.parse_is_target()?;
                    left = mk(ExprKind::Is(bx(left), target), span);
                },
                _ => break,
            }
        }
        Ok(left)
    }

    fn parse_is_target(&mut self) -> (r: Result<IsTarget, CompileError>)
        requires
            old(self).wf(),
        ensures
            !(old(self).tok_at(old(self).pos + 1) is Dot) ==> match old(self).tok_at(old(self).pos as int) {
                Token::TypeIdent(n) => r matches Ok(IsTarget::Type(TypeExpr::Named(m))) && m@ == n@,
                Token::Nil => r matches Ok(IsTarget::Type(TypeExpr::Named(m))) && m@ == "nil"@,
                _ => true,
            },
            final(self).kept(old(self)),
            r is Ok ==> final(self).pos > old(self).pos,
        decreases old(self).budget, old(self).remaining(), 12int,
    {
        let span = self.current_span();
        match self.peek() {
            Token::TypeIdent(name) => {
                let name = name.clone();
                self.advance();
                if matches!(self.peek(), Token::Dot) {
                    self.advance();
                    let variant = self.expect_type_ident()?;
                    Ok(IsTarget::EnumVariant(name, variant))
                } else {
                    Ok(IsTarget::Type(TypeExpr::Named(name)))
                }
            },
            Token::Ident(name) => {
                let name = name.clone();
                if is_primitive_type(name.as_str()) {
                    self.advance();
                    let mut ty = TypeExpr::Named(name);
                    if matches!(self.peek(), Token::Question) {
                        self.advance();
                        ty = TypeExpr::Optional(Box::new(ty));
                    }
                    return Ok(IsTarget::Type(ty));
                }
                self.advance();
                if matches!(self.peek(), Token::Dot) && matches!(self.peek_ahead(1), Token::TypeIdent(_)) {
                    self.advance();
                    let tname = self.expect_type_ident()?;
                    if matches!(self.peek(), Token::Dot) {
                        self.advance();
                        let variant = self.expect_type_ident()?;
                        Ok(IsTarget::QualifiedVariant(name, tname, variant))
                    } else {
                        Ok(IsTarget::Type(TypeExpr::Qualified(name, tname)))
                    }
                } else {
                    Ok(IsTarget::Expr(bx(mk(ExprKind::Ident(name), span))))
                }
            },
            Token::Nil => {
                self.advance();
                Ok(IsTarget::Type(TypeExpr::Named(String::from_str("nil"))))
            },
            _ => {
                let expr = self.parse_comparison_expr()?;
                Ok(IsTarget::Expr(bx(expr)))
            },
        }
    }

    fn parse_comparison_expr(&mut self) -> (r: Result<Expr, CompileError>)
        requires
            old(self).wf(),
        ensures
            final(self).kept(old(self)),
            r is Ok ==> final(self).pos > old(self).pos,
            old(self).atom_below(6) ==> (r matches Ok(e) && primary_shape(
                old(self).tok_at(old(self).pos as int),
                old(self).tok_at(old(self).pos + 1),
                e.kind,
            ) && final(self).pos == old(self).pos + 1),
            old(self).bin_below(6) ==> (r matches Ok(e) && old(self).binop_shape(e.kind) && final(self).pos == old(self).pos + 3),
            old(self).tri_below(6) ==> (r matches Ok(e) && old(self).tri_shape(e.kind) && final(self).pos == old(self).pos + 5),
        decreases old(self).budget, old(self).remaining(), 11int,
    {
        let span = self.current_span();
        let mut left = self.parse_shift_expr()?;
        loop
            invariant_except_break
                old(self).bin_below(6) ==> (self.pos == old(self).pos + 1 && op_level(old(self).tok_at(old(self).pos + 1)) == Some(6nat)
                    && primary_shape(old(self).tok_at(old(self).pos as int), old(self).tok_at(old(self).pos + 1), left.kind)) || (
                self.pos == old(self).pos + 3 && old(self).binop_shape(left.kind)),
                old(self).tri_below(6) ==> (self.pos == old(self).pos + 1 && op_level(old(self).tok_at(old(self).pos + 1)) == Some(6nat)
                    && primary_shape(old(self).tok_at(old(self).pos as int), old(self).tok_at(old(self).pos + 1), left.kind)) || (
                self.pos == old(self).pos + 3 && op_level(old(self).tok_at(old(self).pos + 3)) == Some(6nat) && old(self).binop_shape(
                    left.kind,
                )) || (self.pos == old(self).pos + 5 && old(self).tri_shape(left.kind)),
            invariant
                self.kept(old(self)),
                old(self).atom_below(6) ==> self.pos == old(self).pos + 1 && primary_shape(
                    old(self).tok_at(old(self).pos as int),
                    old(self).tok_at(old(self).pos + 1),
                    left.kind,
                ),
                self.pos > old(self).pos,
            ensures
                self.kept(old(self)),
                self.pos > old(self).pos,
                old(self).atom_below(6) ==> self.pos == old(self).pos + 1 && primary_shape(
                    old(self).tok_at(old(self).pos as int),
                    old(self).tok_at(old(self).pos + 1),
                    left.kind,
                ),
                old(self).bin_below(6) ==> self.pos == old(self).pos + 3 && old(self).binop_shape(left.kind),
                old(self).tri_below(6) ==> self.pos == old(self).pos + 5 && old(self).tri_shape(left.kind),
            decreases self.remaining(),
        {
            let op = match self.peek() {
                Token::Lt => BinOp::Lt,
                Token::LtEq => BinOp::LtEq,
                Token::Gt => BinOp::Gt,
                Token::GtEq => BinOp::GtEq,
                _ => break,
            };
            self.advance();
            let right = self.parse_shift_expr()?;
            left = mk(ExprKind::BinOp(bx(left), op, bx(right)), span);
        }
        Ok(left)
    }

    fn parse_shift_expr(&mut self) -> (r: Result<Expr, CompileError>)
        requires
            old(self).wf(),
        ensures
            final(self).kept(old(self)),
            r is Ok ==> final(self).pos > old(self).pos,
            old(self).atom_below(5) ==> (r matches Ok(e) && primary_shape(
                old(self).tok_at(old(self).pos as int),
                old(self).tok_at(old(self).pos + 1),
                e.kind,
            ) && final(self).pos == old(self).pos + 1),
            old(self).bin_below(5) ==> (r matches Ok(e) && old(self).binop_shape(e.kind) && final(self).pos == old(self).pos + 3),
            old(self).tri_below(5) ==> (r matches Ok(e) && old(self).tri_shape(e.kind) && final(self).pos == old(self).pos + 5),
        decreases old(self).budget, old(self).remaining(), 10int,
    {
        let span = self.current_span();
        let mut left = self.parse_additive_expr()?;
        loop
            invariant_except_break
                old(self).bin_below(5) ==> (self.pos == old(self).pos + 1 && op_level(old(self).tok_at(old(self).pos + 1)) == Some(5nat)
                    && primary_shape(old(self).tok_at(old(self).pos as int), old(self).tok_at(old(self).pos + 1), left.kind)) || (
                self.pos == old(self).pos + 3 && old(self).binop_shape(left.kind)),
                old(self).tri_below(5) ==> (self.pos == old(self).pos + 1 && op_level(old(self).tok_at(old(self).pos + 1)) == Some(5nat)
                    && primary_shape(old(self).tok_at(old(self).pos as int), old(self).tok_at(old(self).pos + 1), left.kind)) || (
                self.pos == old(self).pos + 3 && op_level(old(self).tok_at(old(self).pos + 3)) == Some(5nat) && old(self).binop_shape(
                    left.kind,
                )) || (self.pos == old(self).pos + 5 && old(self).tri_shape(left.kind)),
            invariant
                self.kept(old(self)),
                old(self).atom_below(5) ==> self.pos == old(self).pos + 1 && primary_shape(
                    old(self).tok_at(old(self).pos as int),
                    old(self).tok_at(old(self).pos + 1),
                    left.kind,
                ),
                self.pos > old(self).pos,
            ensures
                self.kept(old(self)),
                self.pos > old(self).pos,
                old(self).atom_below(5) ==> self.pos == old(self).pos + 1 && primary_shape(
                    old(self).tok_at(old(self).pos as int),
                    old(self).tok_at(old(self).pos + 1),
                    left.kind,
                ),
                old(self).bin_below(5) ==> self.pos == old(self).pos + 3 && old(self).binop_shape(left.kind),
                old(self).tri_below(5) ==> self.pos == old(self).pos + 5 && old(self).tri_shape(left.kind),
            decreases self.remaining(),
        {
            let op = match self.peek() {
                Token::ShiftLeft => BinOp::ShiftLeft,
                Token::ShiftRight => BinOp::ShiftRight,
                _ => break,
            };
            self.advance();
            let right = self.parse_additive_expr()?;
            left = mk(ExprKind::BinOp(bx(left), op, bx(right)), span);
        }
        Ok(left)
    }

    fn parse_additive_expr(&mut self) -> (r: Result<Expr, CompileError>)
        requires
            old(self).wf(),
        ensures
            final(self).kept(old(self)),
            r is Ok ==> final(self).pos > old(self).pos,
            old(self).atom_below(4) ==> (r matches Ok(e) && primary_shape(
                old(self).tok_at(old(self).pos as int),
                old(self).tok_at(old(self).pos + 1),
                e.kind,
            ) && final(self).pos == old(self).pos + 1),
            old(self).bin_below(4) ==> (r matches Ok(e) && old(self).binop_shape(e.kind) && final(self).pos == old(self).pos + 3),
            old(self).tri_below(4) ==> (r matches Ok(e) && old(self).tri_shape(e.kind) && final(self).pos == old(self).pos + 5),
        decreases old(self).budget, old(self).remaining(), 9int,
    {
        let span = self.current_span();
        let mut left = self.parse_multiplicative_expr()?;
        loop
            invariant_except_break
                old(self).bin_below(4) ==> (self.pos == old(self).pos + 1 && op_level(old(self).tok_at(old(self).pos + 1)) == Some(4nat)
                    && primary_shape(old(self).tok_at(old(self).pos as int), old(self).tok_at(old(self).pos + 1), left.kind)) || (
                self.pos == old(self).pos + 3 && old(self).binop_shape(left.kind)),
                old(self).tri_below(4) ==> (self.pos == old(self).pos + 1 && op_level(old(self).tok_at(old(self).pos + 1)) == Some(4nat)
                    && primary_shape(old(self).tok_at(old(self).pos as int), old(self).tok_at(old(self).pos + 1), left.kind)) || (
                self.pos == old(self).pos + 3 && op_level(old(self).tok_at(old(self).pos + 3)) == Some(4nat) && old(self).binop_shape(
                    left.kind,
                )) || (self.pos == old(self).pos + 5 && old(self).tri_shape(left.kind)),
            invariant
                self.kept(old(self)),
                old(self).atom_below(4) ==> self.pos == old(self).pos + 1 && primary_shape(
                    old(self).tok_at(old(self).pos as int),
                    old(self).tok_at(old(self).pos + 1),
                    left.kind,
                ),
                self.pos > old(self).pos,
            ensures
                self.kept(old(self)),
                self.pos > old(self).pos,
                old(self).atom_below(4) ==> self.pos == old(self).pos + 1 && primary_shape(
                    old(self).tok_at(old(self).pos as int),
                    old(self).tok_at(old(self).pos + 1),
                    left.kind,
                ),
                old(self).bin_below(4) ==> self.pos == old(self).pos + 3 && old(self).binop_shape(left.kind),
                old(self).tri_below(4) ==> self.pos == old(self).pos + 5 && old(self).tri_shape(left.kind),
            decreases self.remaining(),
        {
            let op = match self.peek() {
                Token::Plus => BinOp::Add,
                Token::Minus => BinOp::Sub,
                _ => break,
            };
            self.advance();
            let right = self.parse_multiplicative_expr()?;
            left = mk(ExprKind::BinOp(bx(left), op, bx(right)), span);
        }
        Ok(left)
    }

    fn parse_multiplicative_expr(&mut self) -> (r: Result<Expr, CompileError>)
        requires
            old(self).wf(),
        ensures
            final(self).kept(old(self)),
            r is Ok ==> final(self).pos > old(self).pos,
            old(self).atom_below(3) ==> (r matches Ok(e) && primary_shape(
                old(self).tok_at(old(self).pos as int),
                old(self).tok_at(old(self).pos + 1),
                e.kind,
            ) && final(self).pos == old(self).pos + 1),
            old(self).bin_below(3) ==> (r matches Ok(e) && old(self).binop_shape(e.kind) && final(self).pos == old(self).pos + 3),
            old(self).tri_below(3) ==> (r matches Ok(e) && old(self).tri_shape(e.kind) && final(self).pos == old(self).pos + 5),
        decreases old(self).budget, old(self).remaining(), 8int,
    {
        let span = self.current_span();
        let mut left = self.parse_power_expr()?;
        loop
            invariant_except_break
                old(self).bin_below(3) ==> (self.pos == old(self).pos + 1 && op_level(old(self).tok_at(old(self).pos + 1)) == Some(3nat)
                    && primary_shape(old(self).tok_at(old(self).pos as int), old(self).tok_at(old(self).pos + 1), left.kind)) || (
                self.pos == old(self).pos + 3 && old(self).binop_shape(left.kind)),
                old(self).tri_below(3) ==> (self.pos == old(self).pos + 1 && op_level(old(self).tok_at(old(self).pos + 1)) == Some(3nat)
                    && primary_shape(old(self).tok_at(old(self).pos as int), old(self).tok_at(old(self).pos + 1), left.kind)) || (
                self.pos == old(self).pos + 3 && op_level(old(self).tok_at(old(self).pos + 3)) == Some(3nat) && old(self).binop_shape(
                    left.kind,
                )) || (self.pos == old(self).pos + 5 && old(self).tri_shape(left.kind)),
            invariant
                self.kept(old(self)),
                old(self).atom_below(3) ==> self.pos == old(self).pos + 1 && primary_shape(
                    old(self).tok_at(old(self).pos as int),
                    old(self).tok_at(old(self).pos + 1),
                    left.kind,
                ),
                self.pos > old(self).pos,
            ensures
                self.kept(old(self)),
                self.pos > old(self).pos,
                old(self).atom_below(3) ==> self.pos == old(self).pos + 1 && primary_shape(
                    old(self).tok_at(old(self).pos as int),
                    old(self).tok_at(old(self).pos + 1),
                    left.kind,
                ),
                old(self).bin_below(3) ==> self.pos == old(self).pos + 3 && old(self).binop_shape(left.kind),
                old(self).tri_below(3) ==> self.pos == old(self).pos + 5 && old(self).tri_shape(left.kind),
            decreases self.remaining(),
        {
            let op = match self.peek() {
                Token::Star => BinOp::Mul,
                Token::Slash => BinOp::Div,
                Token::Percent => BinOp::Mod,
                _ => break,
            };
            self.advance();
            let right = self.parse_power_expr()?;
            left = mk(ExprKind::BinOp(bx(left), op, bx(right)), span);
        }
        Ok(left)
    }

    /// `**` is right-associative.
    fn parse_power_expr(&mut self) -> (r: Result<Expr, CompileError>)
        requires
            old(self).wf(),
        ensures
            final(self).kept(old(self)),
            r is Ok ==> final(self).pos > old(self).pos,
            old(self).atom_below(2) ==> (r matches Ok(e) && primary_shape(
                old(self).tok_at(old(self).pos as int),
                old(self).tok_at(old(self).pos + 1),
                e.kind,
            ) && final(self).pos == old(self).pos + 1),
            old(self).bin_below(2) ==> (r matches Ok(e) && old(self).binop_shape(e.kind) && final(self).pos == old(self).pos + 3),
            old(self).tri_below(2) ==> (r matches Ok(e) && old(self).tri_shape(e.kind) && final(self).pos == old(self).pos + 5),
        decreases old(self).budget, old(self).remaining(), 7int,
    {
        let span = self.current_span();
        let base = self.parse_as_expr()?;
        if matches!(self.peek(), Token::StarStar) {
            self.advance();
            let exp = self.parse_power_expr()?;
            Ok(mk(ExprKind::BinOp(bx(base), BinOp::Pow, bx(exp)), span))
        } else {
            Ok(base)
        }
    }

    fn parse_as_expr(&mut self) -> (r: Result<Expr, CompileError>)
        requires
            old(self).wf(),
        ensures
            final(self).kept(old(self)),
            r is Ok ==> final(self).pos > old(self).pos,
            old(self).atom_below(1) ==> (r matches Ok(e) && primary_shape(
                old(self).tok_at(old(self).pos as int),
                old(self).tok_at(old(self).pos + 1),
                e.kind,
            ) && final(self).pos == old(self).pos + 1),
        decreases old(self).budget, old(self).remaining(), 6int,
    {
        let span = self.current_span();
        let mut expr = self.parse_unary_expr()?;
        while matches!(self.peek(), Token::As)
            invariant
                self.kept(old(self)),
                old(self).atom_below(1) ==> self.pos == old(self).pos + 1 && primary_shape(
                    old(self).tok_at(old(self).pos as int),
                    old(self).tok_at(old(self).pos + 1),
                    expr.kind,
                ),
                self.pos > old(self).pos,
            decreases self.remaining(),
        {
            self.advance();
            if matches!(self.peek(), Token::Question) {
                self.advance();
                let ty = self.parse_base_type()?;
                expr = mk(ExprKind::AsSafe(bx(expr), ty), span);
            } else {
                let ty = self.parse_base_type()?;
                expr = mk(ExprKind::As(bx(expr), ty), span);
            }
        }
        Ok(expr)
    }

    fn parse_unary_expr(&mut self) -> (r: Result<Expr, CompileError>)
        requires
            old(self).wf(),
        ensures
            final(self).kept(old(self)),
            r is Ok ==> final(self).pos > old(self).pos,
            old(self).atom_below(0) ==> (r matches Ok(e) && primary_shape(
                old(self).tok_at(old(self).pos as int),
                old(self).tok_at(old(self).pos + 1),
                e.kind,
            ) && final(self).pos == old(self).pos + 1),
        decreases old(self).budget, old(self).remaining(), 5int,
    {
        let span = self.current_span();
        match self.peek() {
            Token::Minus => {
                self.advance();
                let expr = self.parse_unary_expr()?;
                Ok(mk(ExprKind::UnaryOp(UnaryOp::Neg, bx(expr)), span))
            },
            Token::Tilde => {
                self.advance();
                let expr = self.parse_unary_expr()?;
                Ok(mk(ExprKind::UnaryOp(UnaryOp::BitNot, bx(expr)), span))
            },
            Token::Bang => {
                if matches!(self.peek_ahead(1), Token::LParen) {
                    self.advance();
                    self.advance();
                    let expr = self.parse_expr()?;
                    self.expect(&Token::RParen)?;
                    let error = mk(ExprKind::ErrorLit(bx(expr)), span);
                    self.parse_postfix(error)
                } else {
                    self.advance();
                    let expr = self.parse_unary_expr()?;
                    Ok(mk(ExprKind::UnaryOp(UnaryOp::Not, bx(expr)), span))
                }
            },
            _ => {
                let expr = self.parse_primary()?;
                self.parse_postfix(expr)
            },
        }
    }

    /// Applies postfix operators (`.`, calls, indexing, `?`) to `expr`.
    #[verifier::loop_isolation(false)]
    fn parse_postfix(&mut self, expr: Expr) -> (r: Result<Expr, CompileError>)
        requires
            old(self).wf(),
        ensures
            final(self).kept(old(self)),
            !starts_postfix(old(self).tok_at(old(self).pos as int)) ==> r == Ok::<Expr, CompileError>(expr)
                && final(self).pos == old(self).pos,
            r matches Ok(e) ==> e.span == expr.span && (e == expr || postfix_node(e.kind)),
            old(self).tok_at(old(self).pos as int) is Dot && !starts_member(old(self).tok_at(old(self).pos + 1))
                ==> (r matches Err(err) && err.message@ == "expected "@ + "field name after '.'"@ + ", got "@
                + token_display(old(self).tok_at(old(self).pos + 1))),
        decreases old(self).budget, old(self).remaining(), 3int,
    {
        let span = expr.span;
        let ghost original = expr;
        let ghost mut changed = false;
        let mut expr = expr;
        loop
            invariant
                self.kept(old(self)),
                expr.span == span,
                span == original.span,
                !changed ==> expr == original && self.pos == old(self).pos,
                changed ==> postfix_node(expr.kind) && starts_postfix(old(self).tok_at(old(self).pos as int)),
                changed ==> !(old(self).tok_at(old(self).pos as int) is Dot && !starts_member(
                    old(self).tok_at(old(self).pos + 1),
                )),
            decreases self.remaining(),
        {
            match self.peek() {
                Token::Dot => {
                    self.advance();
                    match self.peek() {
                        Token::Ident(name) => {
                            let name = name.clone();
                            self.advance();
                            if matches!(self.peek(), Token::LParen) {
                                self.advance();
                                let args = self.parse_args()?;
                                self.expect(&Token::RParen)?;
                                expr = mk(ExprKind::MethodCall(bx(expr), name, args), span);
                                proof {
                                    changed = true;
                                }
                            } else {
                                expr = mk(ExprKind::FieldAccess(bx(expr), name), span);
                                proof {
                                    changed = true;
                                }
                            }
                        },
                        Token::TypeIdent(name) => {
                            let name = name.clone();
                            self.advance();
                            if matches!(self.peek(), Token::LParen) {
                                self.advance();
                                let args = self.parse_args()?;
                                self.expect(&Token::RParen)?;
                                expr = match expr.kind {
                                    ExprKind::TypeIdent(tname) => mk(
                                        ExprKind::EnumVariant(tname, name, args),
                                        span,
                                    ),
                                    ExprKind::Ident(module_name) => mk(
                                        ExprKind::StaticMethodCall(module_name, name, args),
                                        span,
                                    ),
                                    other => mk(
                                        ExprKind::MethodCall(bx(mk(other, span)), name, args),
                                        span,
                                    ),
                                };
                                proof {
                                    changed = true;
                                }
                            } else {
                                expr = match expr.kind {
                                    ExprKind::TypeIdent(tname) => mk(
                                        ExprKind::EnumVariant(tname, name, Vec::new()),
                                        span,
                                    ),
                                    other => mk(ExprKind::TypeAccess(bx(mk(other, span)), name), span),
                                };
                                proof {
                                    changed = true;
                                }
                            }
                        },
                        Token::IntLit(idx) => {
                            let idx = *idx;
                            self.advance();
                            let field = crate::text::i128_to_string(idx);
                            expr = mk(ExprKind::FieldAccess(bx(expr), field), span);
                            proof {
                                changed = true;
                            }
                        },
                        _ => {
                            return Err(self.expected_error("field name after '.'"));
                        },
                    }
                },
                Token::LParen => {
                    self.advance();
                    let args = self.parse_args()?;
                    self.expect(&Token::RParen)?;
                    expr = mk(ExprKind::Call(bx(expr), args), span);
                    proof {
                        changed = true;
                    }
                },
                Token::LBracket => {
                    self.advance();
                    let index = self.parse_expr()?;
                    self.expect(&Token::RBracket)?;
                    expr = mk(ExprKind::Index(bx(expr), bx(index)), span);
                    proof {
                        changed = true;
                    }
                },
                Token::Question => {
                    self.advance();
                    expr = mk(ExprKind::Try(bx(expr)), span);
                    proof {
                        changed = true;
                    }
                },
                _ => break,
            }
        }
        Ok(expr)
    }

    fn parse_args(&mut self) -> (r: Result<Vec<Expr>, CompileError>)
        requires
            old(self).wf(),
        ensures
            old(self).tok_at(src_first_content(old(self).src, old(self).pos as int)) is RParen ==> (r matches Ok(v) && v@.len() == 0
                && final(self).pos == src_first_content(old(self).src, old(self).pos as int)),
            single_token_expr(old(self).tok_at(src_first_content(old(self).src, old(self).pos as int))) && old(self).tok_at(src_first_content(old(self).src, old(self).pos as int) + 1) is RParen ==> (r matches Ok(v) && v@.len() == 1
                && primary_shape(old(self).tok_at(src_first_content(old(self).src, old(self).pos as int)), old(self).tok_at(src_first_content(old(self).src, old(self).pos as int) + 1), v@[0].kind)),
            final(self).kept(old(self)),
        decreases old(self).budget, old(self).remaining(), 21int,
    {
        let mut args: Vec<Expr> = Vec::new();
        self.skip_newlines();
        if matches!(self.peek(), Token::RParen) {
            return Ok(args);
        }
        let ghost fc = self.pos as int;
        loop
            invariant_except_break
                single_token_expr(old(self).tok_at(fc)) && old(self).tok_at(fc + 1) is RParen ==> args@.len() == 0,
            invariant
                self.kept(old(self)),
                fc == src_first_content(old(self).src, old(self).pos as int),
                args@.len() == 0 ==> self.pos == fc,
                !(old(self).tok_at(fc) is RParen),
            ensures
                self.kept(old(self)),
                single_token_expr(old(self).tok_at(fc)) && old(self).tok_at(fc + 1) is RParen ==> args@.len() == 1
                    && primary_shape(old(self).tok_at(fc), old(self).tok_at(fc + 1), args@[0].kind),
            decreases self.remaining(),
        {
            self.skip_newlines();
            args.push(self.parse_expr()?);
            self.skip_newlines();
            if matches!(self.peek(), Token::Comma) {
                self.advance();
                self.skip_newlines();
            } else {
                break;
            }
        }
        Ok(args)
    }

    #[verifier::loop_isolation(false)]
    fn parse_primary(&mut self) -> (r: Result<Expr, CompileError>)
        requires
            old(self).wf(),
        ensures
            final(self).kept(old(self)),
            r is Ok ==> final(self).pos > old(self).pos,
            r matches Ok(e) ==> primary_shape(
                old(self).tok_at(old(self).pos as int),
                old(self).tok_at(old(self).pos + 1),
                e.kind,
            ),
            !starts_primary(old(self).tok_at(old(self).pos as int)) ==> (r matches Err(e) && e.message@
                == "expected "@ + "expression"@ + ", got "@ + token_display(old(self).tok_at(old(self).pos as int))),
            single_token_expr(old(self).tok_at(old(self).pos as int)) ==> r is Ok && final(self).pos
                == old(self).pos + 1,
            old(self).tok_at(old(self).pos as int) is Ident && !(old(self).tok_at(old(self).pos + 1) is Dot)
                ==> r is Ok && final(self).pos == old(self).pos + 1,
            old(self).tok_at(old(self).pos as int) is TypeIdent && !(old(self).tok_at(old(self).pos + 1) is LBrace)
                ==> (r matches Ok(e) && e.kind is TypeIdent && final(self).pos == old(self).pos + 1),
        decreases old(self).budget, old(self).remaining(), 4int,
    {
        let span = self.current_span();
        match self.peek() {
            Token::IntLit(n) => {
                let n = *n;
                self.advance();
                Ok(mk(ExprKind::IntLit(n), span))
            },
            Token::FloatLit(f) => {
                let f = f.clone();
                self.advance();
                Ok(mk(ExprKind::FloatLit(f), span))
            },
            Token::True => {
                self.advance();
                Ok(mk(ExprKind::BoolLit(true), span))
            },
            Token::False => {
                self.advance();
                Ok(mk(ExprKind::BoolLit(false), span))
            },
            Token::Nil => {
                self.advance();
                Ok(mk(ExprKind::Nil, span))
            },
            Token::StringLit(s) => {
                let s = s.clone();
                self.advance();
                Ok(mk(ExprKind::StringLit(s), span))
            },
            Token::InterpolatedString(parts) => {
                self.advance();
                let ast_parts = self.convert_string_parts(parts)?;
                Ok(mk(ExprKind::InterpolatedString(ast_parts), span))
            },
            Token::Ident(name) => {
                let name = name.clone();
                self.advance();
                if matches!(self.peek(), Token::Dot) {
                    if let Token::TypeIdent(tname) = self.peek_ahead(1) {
                        let tname = tname.clone();
                        self.advance();
                        self.advance();
                        return self.parse_qualified(name, tname, span);
                    }
                }
                Ok(mk(ExprKind::Ident(name), span))
            },
            Token::TypeIdent(name) => {
                let name = name.clone();
                self.advance();
                if matches!(self.peek(), Token::LBrace) && self.is_struct_lit_ahead() {
                    self.advance();
                    self.skip_newlines();
                    let (fields, spread) = self.parse_struct_fields()?;
                    self.expect(&Token::RBrace)?;
                    Ok(mk(ExprKind::StructLit(name, None, fields, spread), span))
                } else {
                    Ok(mk(ExprKind::TypeIdent(name), span))
                }
            },
            Token::LParen => {
                self.advance();
                let expr = self.parse_expr()?;
                if matches!(self.peek(), Token::Comma) {
                    let mut elements: Vec<Expr> = Vec::new();
                    elements.push(expr);
                    while matches!(self.peek(), Token::Comma)
                        invariant
                            self.kept(old(self)),
                            self.pos > old(self).pos,
                        decreases self.remaining(),
                    {
                        self.advance();
                        if matches!(self.peek(), Token::RParen) {
                            break;
                        }
                        elements.push(self.parse_expr()?);
                    }
                    self.expect(&Token::RParen)?;
                    Ok(mk(ExprKind::TupleLit(elements), span))
                } else {
                    self.expect(&Token::RParen)?;
                    Ok(expr)
                }
            },
            Token::LBracket => {
                self.advance();
                self.skip_newlines();
                if matches!(self.peek(), Token::RBracket) {
                    self.advance();
                    return Ok(mk(ExprKind::ArrayLit(Vec::new()), span));
                }
                let first = self.parse_expr()?;
                self.skip_newlines();
                if matches!(self.peek(), Token::Comma | Token::RBracket) {
                    let mut elements: Vec<Expr> = Vec::new();
                    elements.push(first);
                    while matches!(self.peek(), Token::Comma)
                        invariant
                            self.kept(old(self)),
                            self.pos > old(self).pos,
                        decreases self.remaining(),
                    {
                        self.advance();
                        self.skip_newlines();
                        if matches!(self.peek(), Token::RBracket) {
                            break;
                        }
                        elements.push(self.parse_expr()?);
                        self.skip_newlines();
                    }
                    self.expect(&Token::RBracket)?;
                    Ok(mk(ExprKind::ArrayLit(elements), span))
                } else {
                    Err(self.expected_error("',' or ']' in array literal"))
                }
            },
            Token::LBrace => {
                if self.is_map_lit_ahead() {
                    self.advance();
                    self.skip_newlines();
                    if matches!(self.peek(), Token::RBrace) {
                        self.advance();
                        return Ok(mk(ExprKind::MapLit(Vec::new()), span));
                    }
                    let mut entries: Vec<(Expr, Expr)> = Vec::new();
                    loop
                        invariant
                            self.kept(old(self)),
                            self.pos > old(self).pos,
                        decreases self.remaining(),
                    {
                        self.skip_newlines();
                        let key = self.parse_expr()?;
                        self.expect(&Token::Colon)?;
                        let value = self.parse_expr()?;
                        entries.push((key, value));
                        self.skip_newlines();
                        if matches!(self.peek(), Token::Comma) {
                            self.advance();
                            self.skip_newlines();
                        } else {
                            break;
                        }
                    }
                    self.skip_newlines();
                    self.expect(&Token::RBrace)?;
                    Ok(mk(ExprKind::MapLit(entries), span))
                } else {
                    let block = self.parse_block()?;
                    Ok(mk(ExprKind::Block(block), span))
                }
            },
            Token::If => self.parse_if_expr(),
            Token::Match => self.parse_match_expr(),
            Token::For => self.parse_for_expr(),
            Token::While => self.parse_while_expr(),
            Token::Loop => self.parse_loop_expr(),
            Token::Guard => self.parse_guard_expr(),
            Token::Fn => self.parse_lambda(),
            _ => Err(self.expected_error("expression")),
        }
    }

    /// After `module.Type`: a struct literal, a variant, a method, a call or
    /// plain access on the type.
    fn parse_qualified(&mut self, name: String, tname: String, span: Span) -> (r: Result<Expr, CompileError>)
        requires
            old(self).wf(),
        ensures
            !(old(self).tok_at(old(self).pos as int) is LBrace || old(self).tok_at(old(self).pos as int) is Dot || old(self).tok_at(old(self).pos as int) is LParen) ==> (r matches Ok(e)
                && (e.kind matches ExprKind::TypeAccess(x, t) && t@ == tname@ && (x.kind matches ExprKind::Ident(n) && n@ == name@))
                && final(self).pos == old(self).pos),
            old(self).tok_at(old(self).pos as int) is Dot && !(old(self).tok_at(old(self).pos + 2) is LParen) ==> match old(self).tok_at(old(self).pos + 1) {
                Token::TypeIdent(v) => r matches Ok(e) && e.kind matches ExprKind::QualifiedEnumVariant(m, t, w, args) && m@ == name@
                    && t@ == tname@ && w@ == v@ && args@.len() == 0,
                _ => true,
            },
            old(self).tok_at(old(self).pos as int) is LParen && old(self).tok_at(src_first_content(old(self).src, old(self).pos + 1)) is RParen ==> (r matches Ok(e)
                && e.kind matches ExprKind::StaticMethodCall(m, t, args) && m@ == name@ && t@ == tname@ && args@.len() == 0),
            old(self).tok_at(old(self).pos as int) is LBrace && old(self).tok_at(src_first_content(old(self).src, old(self).pos + 1)) is RBrace ==> (r matches Ok(e)
                && e.kind matches ExprKind::StructLit(t, Some(m), fs, None) && m@ == name@ && t@ == tname@ && fs@.len() == 0),
            final(self).kept(old(self)),
        decreases old(self).budget, old(self).remaining(), 3int,
    {
        match self.peek() {
            Token::LBrace => {
                self.advance();
                self.skip_newlines();
                let (fields, spread) = self.parse_struct_fields()?;
                self.expect(&Token::RBrace)?;
                Ok(mk(ExprKind::StructLit(tname, Some(name), fields, spread), span))
            },
            Token::Dot => {
                self.advance();
                match self.peek() {
                    Token::TypeIdent(variant) => {
                        let variant = variant.clone();
                        self.advance();
                        if matches!(self.peek(), Token::LParen) {
                            self.advance();
                            let args = self.parse_args()?;
                            self.expect(&Token::RParen)?;
                            return Ok(mk(ExprKind::QualifiedEnumVariant(name, tname, variant, args), span));
                        }
                        Ok(mk(ExprKind::QualifiedEnumVariant(name, tname, variant, Vec::new()), span))
                    },
                    Token::Ident(method) => {
                        let method = method.clone();
                        self.advance();
                        let type_expr = mk(
                            ExprKind::TypeAccess(bx(mk(ExprKind::Ident(name), span)), tname),
                            span,
                        );
                        if matches!(self.peek(), Token::LParen) {
                            self.advance();
                            let args = self.parse_args()?;
                            self.expect(&Token::RParen)?;
                            return Ok(mk(ExprKind::MethodCall(bx(type_expr), method, args), span));
                        }
                        Ok(mk(ExprKind::FieldAccess(bx(type_expr), method), span))
                    },
                    _ => Ok(mk(
                        ExprKind::TypeAccess(bx(mk(ExprKind::Ident(name), span)), tname),
                        span,
                    )),
                }
            },
            Token::LParen => {
                self.advance();
                let args = self.parse_args()?;
                self.expect(&Token::RParen)?;
                Ok(mk(ExprKind::StaticMethodCall(name, tname, args), span))
            },
            _ => Ok(mk(ExprKind::TypeAccess(bx(mk(ExprKind::Ident(name), span)), tname), span)),
        }
    }

    /// After a type name: does `{` open a struct literal (`{ name:`, `{ ..`)
    /// rather than a block?
    fn is_struct_lit_ahead(&self) -> (r: bool)
        requires
            self.wf(),
        ensures
            r == self.struct_lit_ahead(),
    {
        let mut offset: usize = 1;
        let len = self.src_length();
        while offset <= len - self.pos && matches!(self.peek_ahead(offset), Token::Newline)
            invariant
                self.wf(),
                len == self.len(),
                offset >= 1,
                offset <= len - self.pos + 1,
                src_first_content(self.src, self.pos + 1) == src_first_content(self.src, self.pos + offset),
            decreases len - self.pos + 1 - offset,
        {
            offset = offset + 1;
        }
        proof {
            if offset <= len - self.pos {
                assert(src_first_content(self.src, self.pos + offset) == self.pos + offset);
            }
        }
        if offset > len - self.pos {
            return false;
        }
        match self.peek_ahead(offset) {
            Token::RBrace => false,
            Token::DotDot => true,
            Token::Ident(_) => offset < len - self.pos && matches!(self.peek_ahead(offset + 1), Token::Colon),
            _ => false,
        }
    }

    /// After `{`: is this a map literal (`{}` or a literal key followed by `:`)?
    fn is_map_lit_ahead(&self) -> (r: bool)
        requires
            self.wf(),
        ensures
            r == self.map_lit_ahead(),
    {
        let mut offset: usize = 1;
        let len = self.src_length();
        while offset <= len - self.pos && matches!(self.peek_ahead(offset), Token::Newline)
            invariant
                self.wf(),
                len == self.len(),
                offset >= 1,
                offset <= len - self.pos + 1,
                src_first_content(self.src, self.pos + 1) == src_first_content(self.src, self.pos + offset),
            decreases len - self.pos + 1 - offset,
        {
            offset = offset + 1;
        }
        proof {
            if offset <= len - self.pos {
                assert(src_first_content(self.src, self.pos + offset) == self.pos + offset);
            }
        }
        if offset > len - self.pos {
            return false;
        }
        match self.peek_ahead(offset) {
            Token::RBrace => true,
            Token::StringLit(_) | Token::IntLit(_) | Token::FloatLit(_) | Token::True | Token::False => {
                offset < len - self.pos && matches!(self.peek_ahead(offset + 1), Token::Colon)
            },
            _ => false,
        }
    }

    /// The `name: value` fields of a struct literal, with an optional final
    /// `..source` for the fields not given.
    fn parse_struct_fields(&mut self) -> (r: Result<(Vec<(String, Expr)>, Option<Box<Expr>>), CompileError>)
        requires
            old(self).wf(),
        ensures
            old(self).tok_at(src_first_content(old(self).src, old(self).pos as int)) is RBrace ==> (r matches Ok(fs) && fs.0@.len() == 0 && fs.1 is None && final(self).pos == src_first_content(old(self).src, old(self).pos as int)),
            final(self).kept(old(self)),
        decreases old(self).budget, old(self).remaining(), 21int,
    {
        let mut fields: Vec<(String, Expr)> = Vec::new();
        let mut spread: Option<Box<Expr>> = None;
        self.skip_newlines();
        if matches!(self.peek(), Token::RBrace) {
            return Ok((fields, spread));
        }
        loop
            invariant
                self.kept(old(self)),
                !(old(self).tok_at(src_first_content(old(self).src, old(self).pos as int)) is RBrace),
            decreases self.remaining(),
        {
            self.skip_newlines();
            if matches!(self.peek(), Token::RBrace) {
                break;
            }
            if matches!(self.peek(), Token::DotDot) {
                self.advance();
                let source = self.parse_expr()?;
                spread = Some(bx(source));
                self.skip_newlines();
                if matches!(self.peek(), Token::Comma) {
                    self.advance();
                }
                self.skip_newlines();
                break;
            }
            let name = self.expect_ident()?;
            self.expect(&Token::Colon)?;
            let value = self.parse_expr()?;
            fields.push((name, value));
            self.skip_newlines();
            if matches!(self.peek(), Token::Comma) {
                self.advance();
                self.skip_newlines();
            }
        }
        Ok((fields, spread))
    }

    fn parse_if_expr(&mut self) -> (r: Result<Expr, CompileError>)
        requires
            old(self).wf(),
        ensures
            old(self).tok_at(old(self).pos as int) is If && single_token_expr(old(self).tok_at(old(self).pos + 1)) && old(self).tok_at(old(self).pos + 2) is LBrace && old(self).tok_at(src_first_content(old(self).src, old(self).pos + 2 + 1)) is RBrace && !(old(self).tok_at(
                src_first_content(old(self).src, old(self).pos + 3) + 1) is Else) ==> (r matches Ok(e) && e.kind matches ExprKind::If(c, b, None)
                && primary_shape(old(self).tok_at(old(self).pos + 1), old(self).tok_at(old(self).pos + 2), c.kind) && b.stmts@.len() == 0),
            final(self).kept(old(self)),
            r is Ok ==> final(self).pos > old(self).pos,
            r matches Ok(e) ==> e.kind is If,
        decreases old(self).budget, old(self).remaining(), 2int,
    {
        let span = self.current_span();
        self.expect(&Token::If)?;
        let cond = self.parse_expr()?;
        self.skip_newlines();
        let then_block = self.parse_block()?;
        let else_expr = if matches!(self.peek(), Token::Else) {
            self.advance();
            if matches!(self.peek(), Token::If) {
                Some(bx(self.parse_if_expr()?))
            } else {
                let else_span = self.current_span();
                self.skip_newlines();
                let block = self.parse_block()?;
                Some(bx(mk(ExprKind::Block(block), else_span)))
            }
        } else {
            None
        };
        Ok(mk(ExprKind::If(bx(cond), then_block, else_expr), span))
    }

    fn parse_match_expr(&mut self) -> (r: Result<Expr, CompileError>)
        requires
            old(self).wf(),
        ensures
            old(self).tok_at(old(self).pos as int) is Match && single_token_expr(old(self).tok_at(old(self).pos + 1)) && old(self).tok_at(old(self).pos + 2) is LBrace && old(self).tok_at(src_first_content(old(self).src, old(self).pos + 2 + 1)) is RBrace ==> (r matches Ok(e)
                && e.kind matches ExprKind::Match(sc, arms) && primary_shape(old(self).tok_at(old(self).pos + 1), old(self).tok_at(old(self).pos + 2), sc.kind) && arms@.len() == 0),
            final(self).kept(old(self)),
            r is Ok ==> final(self).pos > old(self).pos,
            r matches Ok(e) ==> e.kind is Match,
        decreases old(self).budget, old(self).remaining(), 2int,
    {
        let span = self.current_span();
        self.expect(&Token::Match)?;
        let scrutinee = self.parse_expr()?;
        self.skip_newlines();
        self.expect(&Token::LBrace)?;
        self.skip_newlines();
        let mut arms: Vec<MatchArm> = Vec::new();
        while !matches!(self.peek(), Token::RBrace)
            invariant
                self.kept(old(self)),
                self.pos > old(self).pos,
                old(self).tok_at(old(self).pos as int) is Match && single_token_expr(old(self).tok_at(old(self).pos + 1)) && old(self).tok_at(old(self).pos + 2) is LBrace && old(self).tok_at(src_first_content(old(self).src, old(self).pos + 2 + 1)) is RBrace ==> arms@.len() == 0
                    && self.pos == src_first_content(old(self).src, old(self).pos + 3),
            decreases self.remaining(),
        {
            self.skip_newlines();
            if matches!(self.peek(), Token::RBrace) {
                break;
            }
            let pattern = self.parse_pattern()?;
            self.expect(&Token::FatArrow)?;
            self.skip_newlines();
            let body_span = self.current_span();
            let body = if matches!(self.peek(), Token::Return) {
                let stmt = self.parse_stmt()?;
                let mut stmts: Vec<Stmt> = Vec::new();
                stmts.push(stmt);
                mk(ExprKind::Block(Block { stmts }), body_span)
            } else if matches!(self.peek(), Token::LBrace) {
                let block = self.parse_block()?;
                mk(ExprKind::Block(block), body_span)
            } else {
                self.parse_expr()?
            };
            arms.push(MatchArm { pattern, body });
            self.skip_newlines();
            if matches!(self.peek(), Token::Comma) {
                self.advance();
            }
            self.skip_newlines();
        }
        self.expect(&Token::RBrace)?;
        Ok(mk(ExprKind::Match(bx(scrutinee), arms), span))
    }

    /// A parenthesised list of binding names, as in `Type.Variant(a, b)`.
    fn parse_binding_names(&mut self) -> (r: Result<Vec<String>, CompileError>)
        requires
            old(self).wf(),
        ensures
            !(old(self).tok_at(old(self).pos as int) is LParen) ==> (r matches Ok(v) && v@.len() == 0 && final(self).pos == old(self).pos),
            old(self).tok_at(old(self).pos as int) is LParen && old(self).tok_at(old(self).pos + 1) is RParen ==> (r matches Ok(v) && v@.len() == 0 && final(self).pos
                == old(self).pos + 2),
            old(self).tok_at(old(self).pos as int) is LParen && old(self).tok_at(old(self).pos + 2) is RParen ==> match old(self).tok_at(old(self).pos + 1) {
                Token::Ident(n) => r matches Ok(v) && v@.len() == 1 && v@[0]@ == n@,
                Token::RParen => true,
                _ => r is Err,
            },
            final(self).kept(old(self)),
    {
        let mut bindings: Vec<String> = Vec::new();
        if matches!(self.peek(), Token::LParen) {
            self.advance();
            if !matches!(self.peek(), Token::RParen) {
                loop
                    invariant_except_break
                        bindings@.len() >= 1 ==> old(self).tok_at(old(self).pos + 2) is Comma,
                    invariant
                        self.kept(old(self)),
                        bindings@.len() == 0 ==> self.pos == old(self).pos + 1,
                        bindings@.len() > 0 ==> (old(self).tok_at(old(self).pos + 1) matches Token::Ident(n) && bindings@[0]@ == n@),
                        old(self).tok_at(old(self).pos as int) is LParen,
                        !(old(self).tok_at(old(self).pos + 1) is RParen),
                    ensures
                        self.kept(old(self)),
                        bindings@.len() > 0,
                        old(self).tok_at(old(self).pos + 1) matches Token::Ident(n) && bindings@[0]@ == n@,
                        old(self).tok_at(old(self).pos + 2) is RParen ==> bindings@.len() == 1 && self.pos == old(self).pos + 2,
                    decreases self.remaining(),
                {
                    let name = self.expect_ident()?;
                    bindings.push(name);
                    if matches!(self.peek(), Token::Comma) {
                        self.advance();
                    } else {
                        break;
                    }
                }
            }
            self.expect(&Token::RParen)?;
        }
        Ok(bindings)
    }

    fn parse_pattern(&mut self) -> (r: Result<Pattern, CompileError>)
        requires
            old(self).wf(),
        ensures
            final(self).kept(old(self)),
            r matches Ok(p) ==> pattern_shape(old(self).tok_at(old(self).pos as int), p.kind),
            !starts_pattern(old(self).tok_at(old(self).pos as int)) ==> (r matches Err(e) && e.message@
                == "expected "@ + "pattern"@ + ", got "@ + token_display(old(self).tok_at(old(self).pos as int))),
            single_token_pattern(old(self).tok_at(old(self).pos as int)) ==> r is Ok && final(self).pos
                == old(self).pos + 1,
            old(self).tok_at(old(self).pos as int) is TypeIdent && !(old(self).tok_at(old(self).pos + 1) is Dot)
                ==> (r matches Err(e) && e.message@ == "expected "@
                + "'.Variant' after type name in pattern"@ + ", got "@ + token_display(old(self).tok_at(old(self).pos + 1))),
    {
        let span = self.current_span();
        let kind = match self.peek() {
            Token::Ident(name) => {
                let name = name.clone();
                if str_eq(name.as_str(), "_") {
                    self.advance();
                    PatternKind::Wildcard
                } else {
                    self.advance();
                    let qualified = matches!(self.peek(), Token::Dot) && matches!(self.peek_ahead(1), Token::TypeIdent(_))
                        && matches!(self.peek_ahead(2), Token::Dot) && matches!(self.peek_ahead(3), Token::TypeIdent(_));
                    if qualified {
                        self.advance();
                        let tname = self.expect_type_ident()?;
                        self.advance();
                        let variant = self.expect_type_ident()?;
                        let bindings = self.parse_binding_names()?;
                        PatternKind::QualifiedEnumVariant(name, tname, variant, bindings)
                    } else {
                        PatternKind::Binding(name)
                    }
                }
            },
            Token::IntLit(n) => {
                let n = *n;
                self.advance();
                PatternKind::IntLit(n)
            },
            Token::FloatLit(f) => {
                let f = f.clone();
                self.advance();
                PatternKind::FloatLit(f)
            },
            Token::True => {
                self.advance();
                PatternKind::BoolLit(true)
            },
            Token::False => {
                self.advance();
                PatternKind::BoolLit(false)
            },
            Token::StringLit(s) => {
                let s = s.clone();
                self.advance();
                PatternKind::StringLit(s)
            },
            Token::Nil => {
                self.advance();
                PatternKind::Nil
            },
            Token::Bang => {
                self.advance();
                let name = self.expect_ident()?;
                PatternKind::Error(name)
            },
            Token::Is => {
                self.advance();
                match self.peek() {
                    Token::TypeIdent(name) => {
                        let name = name.clone();
                        self.advance();
                        if matches!(self.peek(), Token::Dot) {
                            self.advance();
                            let variant = self.expect_type_ident()?;
                            PatternKind::IsEnumVariant(name, variant)
                        } else {
                            PatternKind::IsType(TypeExpr::Named(name))
                        }
                    },
                    Token::Ident(name) => {
                        let name = name.clone();
                        if !is_primitive_type(name.as_str()) {
                            return Err(self.expected_error("type after 'is'"));
                        }
                        self.advance();
                        let mut ty = TypeExpr::Named(name);
                        if matches!(self.peek(), Token::Question) {
                            self.advance();
                            ty = TypeExpr::Optional(Box::new(ty));
                        }
                        PatternKind::IsType(ty)
                    },
                    _ => {
                        return Err(self.expected_error("type after 'is'"));
                    },
                }
            },
            Token::TypeIdent(tname) => {
                let tname = tname.clone();
                self.advance();
                if matches!(self.peek(), Token::Dot) {
                    self.advance();
                    let variant = self.expect_type_ident()?;
                    let bindings = self.parse_binding_names()?;
                    PatternKind::EnumVariant(tname, variant, bindings)
                } else {
                    return Err(self.expected_error("'.Variant' after type name in pattern"));
                }
            },
            _ => {
                return Err(self.expected_error("pattern"));
            },
        };
        Ok(Pattern { kind, span })
    }

    fn parse_for_expr(&mut self) -> (r: Result<Expr, CompileError>)
        requires
            old(self).wf(),
        ensures
            old(self).tok_at(old(self).pos as int) is For && old(self).tok_at(old(self).pos + 2) is In && single_token_expr(old(self).tok_at(old(self).pos + 3)) && old(self).tok_at(old(self).pos + 4) is LBrace && old(self).tok_at(src_first_content(old(self).src, old(self).pos + 4 + 1)) is RBrace ==> match old(self).tok_at(
                old(self).pos + 1,
            ) {
                Token::Ident(n) => r matches Ok(e) && e.kind matches ExprKind::For(v, None, it, b) && v@ == n@ && primary_shape(
                    old(self).tok_at(old(self).pos + 3),
                    old(self).tok_at(old(self).pos + 4),
                    it.kind,
                ) && b.stmts@.len() == 0,
                _ => r is Err,
            },
            final(self).kept(old(self)),
            r is Ok ==> final(self).pos > old(self).pos,
            r matches Ok(e) ==> e.kind is For,
            r matches Ok(e) ==> for_vars_written(old(self).src, old(self).pos as int, e.kind),
        decreases old(self).budget, old(self).remaining(), 2int,
    {
        let span = self.current_span();
        self.expect(&Token::For)?;
        let var1 = self.expect_ident()?;
        let var2 = if matches!(self.peek(), Token::Comma) {
            self.advance();
            Some(self.expect_ident()?)
        } else {
            None
        };
        self.expect(&Token::In)?;
        let iterable = self.parse_expr()?;
        self.skip_newlines();
        let body = self.parse_block()?;
        Ok(mk(ExprKind::For(var1, var2, bx(iterable), body), span))
    }

    fn parse_while_expr(&mut self) -> (r: Result<Expr, CompileError>)
        requires
            old(self).wf(),
        ensures
            old(self).tok_at(old(self).pos as int) is While && single_token_expr(old(self).tok_at(old(self).pos + 1)) && old(self).tok_at(old(self).pos + 2) is LBrace && old(self).tok_at(src_first_content(old(self).src, old(self).pos + 2 + 1)) is RBrace ==> (r matches Ok(e)
                && e.kind matches ExprKind::While(c, b) && primary_shape(old(self).tok_at(old(self).pos + 1), old(self).tok_at(old(self).pos + 2), c.kind) && b.stmts@.len() == 0),
            final(self).kept(old(self)),
            r is Ok ==> final(self).pos > old(self).pos,
            r matches Ok(e) ==> e.kind is While,
        decreases old(self).budget, old(self).remaining(), 2int,
    {
        let span = self.current_span();
        self.expect(&Token::While)?;
        let cond = self.parse_expr()?;
        self.skip_newlines();
        let body = self.parse_block()?;
        Ok(mk(ExprKind::While(bx(cond), body), span))
    }

    fn parse_loop_expr(&mut self) -> (r: Result<Expr, CompileError>)
        requires
            old(self).wf(),
        ensures
            old(self).tok_at(old(self).pos as int) is Loop && old(self).tok_at(old(self).pos + 1) is LBrace && old(self).tok_at(src_first_content(old(self).src, old(self).pos + 1 + 1)) is RBrace ==> (r matches Ok(e) && e.kind matches ExprKind::Loop(b)
                && b.stmts@.len() == 0),
            !(old(self).tok_at(old(self).pos as int) is Loop) ==> r is Err,
            final(self).kept(old(self)),
            r is Ok ==> final(self).pos > old(self).pos,
            r matches Ok(e) ==> e.kind is Loop,
        decreases old(self).budget, old(self).remaining(), 2int,
    {
        let span = self.current_span();
        self.expect(&Token::Loop)?;
        self.skip_newlines();
        let body = self.parse_block()?;
        Ok(mk(ExprKind::Loop(body), span))
    }

    fn parse_guard_expr(&mut self) -> (r: Result<Expr, CompileError>)
        requires
            old(self).wf(),
        ensures
            old(self).tok_at(old(self).pos as int) is Guard && single_token_expr(old(self).tok_at(old(self).pos + 1)) && old(self).tok_at(old(self).pos + 2) is Else && old(self).tok_at(old(self).pos + 3) is LBrace && old(self).tok_at(src_first_content(old(self).src, old(self).pos + 3 + 1)) is RBrace
                ==> (r matches Ok(e) && e.kind matches ExprKind::Guard(None, c, b) && primary_shape(old(self).tok_at(old(self).pos + 1), old(self).tok_at(old(self).pos + 2), c.kind)
                && b.stmts@.len() == 0),
            final(self).kept(old(self)),
            r is Ok ==> final(self).pos > old(self).pos,
            r matches Ok(e) ==> e.kind is Guard,
        decreases old(self).budget, old(self).remaining(), 2int,
    {
        let span = self.current_span();
        self.expect(&Token::Guard)?;
        let (binding, condition) = if matches!(self.peek(), Token::Let) {
            self.advance();
            let name = self.expect_ident()?;
            self.expect(&Token::Eq)?;
            let expr = self.parse_expr()?;
            (Some(name), expr)
        } else {
            let expr = self.parse_expr()?;
            (None, expr)
        };
        self.expect(&Token::Else)?;
        self.skip_newlines();
        let else_block = self.parse_block()?;
        Ok(mk(ExprKind::Guard(binding, bx(condition), else_block), span))
    }

    fn parse_lambda(&mut self) -> (r: Result<Expr, CompileError>)
        requires
            old(self).wf(),
        ensures
            old(self).tok_at(old(self).pos as int) is Fn && old(self).tok_at(old(self).pos + 1) is LParen && old(self).tok_at(old(self).pos + 2) is RParen && old(self).tok_at(old(self).pos + 3) is LBrace && old(self).tok_at(src_first_content(old(self).src, old(self).pos + 3 + 1)) is RBrace ==> (r matches Ok(e)
                && e.kind matches ExprKind::Lambda(ps, None, b) && ps@.len() == 0 && b.stmts@.len() == 0),
            final(self).kept(old(self)),
            r is Ok ==> final(self).pos > old(self).pos,
            r matches Ok(e) ==> e.kind is Lambda,
        decreases old(self).budget, old(self).remaining(), 2int,
    {
        let span = self.current_span();
        self.expect(&Token::Fn)?;
        self.expect(&Token::LParen)?;
        let params = self.parse_params()?;
        self.expect(&Token::RParen)?;
        let return_type = if matches!(self.peek(), Token::Arrow) {
            self.advance();
            Some(self.parse_type_expr()?)
        } else {
            None
        };
        self.skip_newlines();
        let body = self.parse_block()?;
        Ok(mk(ExprKind::Lambda(params, return_type, body), span))
    }

    /// Parses the expression parts of an interpolated string, each on its own.
    fn convert_string_parts(&self, parts: &'a Vec<LexStringPart>) -> (r: Result<Vec<StringPart>, CompileError>)
        requires
            self.wf(),
        ensures
            (forall|i: int| 0 <= i < parts@.len() ==> #[trigger] parts@[i] is Literal) ==> (r matches Ok(v) && forall|i: int|
                0 <= i < parts@.len() ==> match (#[trigger] parts@[i], v@[i]) {
                (LexStringPart::Literal(a), StringPart::Literal(b)) => a@ == b@,
                _ => false,
            }),
            r matches Ok(v) ==> v@.len() == parts@.len(),
        decreases self.budget, 0int, 0int,
    {
        let mut result: Vec<StringPart> = Vec::new();
        let mut i: usize = 0;
        while i < parts.len()
            invariant
                i <= parts@.len(),
                result@.len() == i,
                self.wf(),
                (forall|k: int| 0 <= k < parts@.len() ==> #[trigger] parts@[k] is Literal) ==> forall|k: int|
                    0 <= k < i ==> match (#[trigger] parts@[k], result@[k]) {
                        (LexStringPart::Literal(a), StringPart::Literal(b)) => a@ == b@,
                        _ => false,
                    },
            decreases parts.len() - i,
        {
            match &parts[i] {
                LexStringPart::Literal(s) => {
                    result.push(StringPart::Literal(s.clone()));
                },
                LexStringPart::Expr(tokens) => {
                    if self.budget == 0 {
                        return Err(self.error(String::from_str("string interpolation nested too deeply")));
                    }
                    if tokens.len() >= usize::MAX - 1 {
                        return Err(self.error(String::from_str("string interpolation too long")));
                    }
                    let mut sub = Parser::new(Src::Plain(tokens.as_slice()), self.budget - 1);
                    let expr = sub.parse_expr()?;
                    result.push(StringPart::Expr(bx(expr)));
                },
            }
            i = i + 1;
        }
        Ok(result)
    }
}

/// Number of tokens a source holds.
spec fn src_len(src: Src) -> nat {
    match src {
        Src::Spanned(t) => t@.len(),
        Src::Plain(t) => t@.len(),
    }
}

/// The token at index `i` of a source, or the end marker past its end.
spec fn src_at(src: Src, i: int) -> Token {
    match src {
        Src::Spanned(t) => if 0 <= i < t@.len() { t@[i].token } else { Token::Eof },
        Src::Plain(t) => if 0 <= i < t@.len() { t@[i] } else { Token::Eof },
    }
}

/// Two tokens are of the same kind (payloads ignored).
pub open spec fn same_kind(a: Token, b: Token) -> bool {
    token_tag(a) == token_tag(b)
}

fn same_kind_exec(a: &Token, b: &Token) -> (r: bool)
    ensures
        r == same_kind(*a, *b),
{
    a.tag() == b.tag()
}

} // verus!
