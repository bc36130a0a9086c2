//! The lexer: turns source text into tokens with line and column positions.
use vstd::prelude::*;
use crate::ast::Span;
use crate::error::CompileError;
use crate::text::{push_char, chars_of, string_of_range, range_eq_str, cat2, cat3, cat4};

verus! {

#[derive(Debug)]
pub enum Token {
    // Literals
    IntLit(i128),
    /// A floating-point literal, kept as its source text without `_` separators
    /// (for example `2.5E-3`); it always reads as a valid `f64` literal.
    FloatLit(String),
    StringLit(String),
    /// String with interpolations: literal parts alternate with expression parts.
    InterpolatedString(Vec<StringPart>),
    True,
    False,
    Nil,
    // Identifiers
    /// Starts with a lowercase letter or `_`.
    Ident(String),
    /// Starts with an uppercase letter.
    TypeIdent(String),
    // Keywords
    Let,
    Mut,
    Fn,
    Return,
    If,
    Else,
    Match,
    For,
    In,
    While,
    Loop,
    Break,
    Continue,
    Type,
    Guard,
    Import,
    As,
    Is,
    // Operators
    Plus,
    Minus,
    Star,
    Slash,
    Percent,
    StarStar,
    Ampersand,
    Pipe,
    Caret,
    Tilde,
    ShiftLeft,
    ShiftRight,
    AmpAmp,
    PipePipe,
    Bang,
    Eq,
    EqEq,
    BangEq,
    Lt,
    LtEq,
    Gt,
    GtEq,
    DotDot,
    Arrow,
    FatArrow,
    Question,
    // Delimiters
    LParen,
    RParen,
    LBrace,
    RBrace,
    LBracket,
    RBracket,
    // Punctuation
    Dot,
    Comma,
    Colon,
    // Special
    Newline,
    Eof,
}

#[derive(Debug)]
pub enum StringPart {
    Literal(String),
    Expr(Vec<Token>),
}

#[derive(Debug)]
pub struct SpannedToken {
    pub token: Token,
    pub line: usize,
    pub col: usize,
}

/// The human-readable name of a token, as used in error messages.
pub open spec fn token_display(t: Token) -> Seq<char> {
    match t {
        Token::LParen => "("@,
        Token::RParen => ")"@,
        Token::LBrace => "{"@,
        Token::RBrace => "}"@,
        Token::LBracket => "["@,
        Token::RBracket => "]"@,
        Token::Comma => ","@,
        Token::Colon => ":"@,
        Token::Dot => "."@,
        Token::Eq => "="@,
        Token::Arrow => "->"@,
        Token::FatArrow => "=>"@,
        Token::Newline => "newline"@,
        Token::Eof => "end of file"@,
        Token::Let => "let"@,
        Token::Mut => "mut"@,
        Token::Fn => "fn"@,
        Token::Return => "return"@,
        Token::If => "if"@,
        Token::Else => "else"@,
        Token::Match => "match"@,
        Token::For => "for"@,
        Token::In => "in"@,
        Token::While => "while"@,
        Token::Loop => "loop"@,
        Token::Break => "break"@,
        Token::Continue => "continue"@,
        Token::Type => "type"@,
        Token::Guard => "guard"@,
        Token::Import => "import"@,
        Token::As => "as"@,
        Token::Is => "is"@,
        Token::True => "true"@,
        Token::False => "false"@,
        Token::Nil => "nil"@,
        _ => "token"@,
    }
}

impl Token {
    /// Human-readable name for use in error messages.
    pub fn display_name(&self) -> (s: &'static str)
        ensures
            s@ == token_display(*self),
    {
        match self {
            Token::LParen => "(",
            Token::RParen => ")",
            Token::LBrace => "{",
            Token::RBrace => "}",
            Token::LBracket => "[",
            Token::RBracket => "]",
            Token::Comma => ",",
            Token::Colon => ":",
            Token::Dot => ".",
            Token::Eq => "=",
            Token::Arrow => "->",
            Token::FatArrow => "=>",
            Token::Newline => "newline",
            Token::Eof => "end of file",
            Token::Let => "let",
            Token::Mut => "mut",
            Token::Fn => "fn",
            Token::Return => "return",
            Token::If => "if",
            Token::Else => "else",
            Token::Match => "match",
            Token::For => "for",
            Token::In => "in",
            Token::While => "while",
            Token::Loop => "loop",
            Token::Break => "break",
            Token::Continue => "continue",
            Token::Type => "type",
            Token::Guard => "guard",
            Token::Import => "import",
            Token::As => "as",
            Token::Is => "is",
            Token::True => "true",
            Token::False => "false",
            Token::Nil => "nil",
            _ => "token",
        }
    }
}

/// A number that tells token kinds apart (payloads ignored).
pub open spec fn token_tag(t: Token) -> u8 {
    match t {
        Token::IntLit(_) => 0,
        Token::FloatLit(_) => 1,
        Token::StringLit(_) => 2,
        Token::InterpolatedString(_) => 3,
        Token::True => 4,
        Token::False => 5,
        Token::Nil => 6,
        Token::Ident(_) => 7,
        Token::TypeIdent(_) => 8,
        Token::Let => 9,
        Token::Mut => 10,
        Token::Fn => 11,
        Token::Return => 12,
        Token::If => 13,
        Token::Else => 14,
        Token::Match => 15,
        Token::For => 16,
        Token::In => 17,
        Token::While => 18,
        Token::Loop => 19,
        Token::Break => 20,
        Token::Continue => 21,
        Token::Type => 22,
        Token::Guard => 23,
        Token::Import => 24,
        Token::As => 25,
        Token::Is => 26,
        Token::Plus => 27,
        Token::Minus => 28,
        Token::Star => 29,
        Token::Slash => 30,
        Token::Percent => 31,
        Token::StarStar => 32,
        Token::Ampersand => 33,
        Token::Pipe => 34,
        Token::Caret => 35,
        Token::Tilde => 36,
        Token::ShiftLeft => 37,
        Token::ShiftRight => 38,
        Token::AmpAmp => 39,
        Token::PipePipe => 40,
        Token::Bang => 41,
        Token::Eq => 42,
        Token::EqEq => 43,
        Token::BangEq => 44,
        Token::Lt => 45,
        Token::LtEq => 46,
        Token::Gt => 47,
        Token::GtEq => 48,
        Token::DotDot => 49,
        Token::Arrow => 50,
        Token::FatArrow => 51,
        Token::Question => 52,
        Token::LParen => 53,
        Token::RParen => 54,
        Token::LBrace => 55,
        Token::RBrace => 56,
        Token::LBracket => 57,
        Token::RBracket => 58,
        Token::Dot => 59,
        Token::Comma => 60,
        Token::Colon => 61,
        Token::Newline => 62,
        Token::Eof => 63,
    }
}

impl Token {
    /// The kind number of this token (see `token_tag`).
    pub fn tag(&self) -> (r: u8)
        ensures
            r == token_tag(*self),
    {
        match self {
            Token::IntLit(_) => 0,
            Token::FloatLit(_) => 1,
            Token::StringLit(_) => 2,
            Token::InterpolatedString(_) => 3,
            Token::True => 4,
            Token::False => 5,
            Token::Nil => 6,
            Token::Ident(_) => 7,
            Token::TypeIdent(_) => 8,
            Token::Let => 9,
            Token::Mut => 10,
            Token::Fn => 11,
            Token::Return => 12,
            Token::If => 13,
            Token::Else => 14,
            Token::Match => 15,
            Token::For => 16,
            Token::In => 17,
            Token::While => 18,
            Token::Loop => 19,
            Token::Break => 20,
            Token::Continue => 21,
            Token::Type => 22,
            Token::Guard => 23,
            Token::Import => 24,
            Token::As => 25,
            Token::Is => 26,
            Token::Plus => 27,
            Token::Minus => 28,
            Token::Star => 29,
            Token::Slash => 30,
            Token::Percent => 31,
            Token::StarStar => 32,
            Token::Ampersand => 33,
            Token::Pipe => 34,
            Token::Caret => 35,
            Token::Tilde => 36,
            Token::ShiftLeft => 37,
            Token::ShiftRight => 38,
            Token::AmpAmp => 39,
            Token::PipePipe => 40,
            Token::Bang => 41,
            Token::Eq => 42,
            Token::EqEq => 43,
            Token::BangEq => 44,
            Token::Lt => 45,
            Token::LtEq => 46,
            Token::Gt => 47,
            Token::GtEq => 48,
            Token::DotDot => 49,
            Token::Arrow => 50,
            Token::FatArrow => 51,
            Token::Question => 52,
            Token::LParen => 53,
            Token::RParen => 54,
            Token::LBrace => 55,
            Token::RBrace => 56,
            Token::LBracket => 57,
            Token::RBracket => 58,
            Token::Dot => 59,
            Token::Comma => 60,
            Token::Colon => 61,
            Token::Newline => 62,
            Token::Eof => 63,
        }
    }
}

// ---------------------------------------------------------------------------
// Character classes and literal values

pub open spec fn is_dec_digit(c: char) -> bool {
    '0' <= c <= '9'
}

pub open spec fn is_hex_digit(c: char) -> bool {
    ('0' <= c <= '9') || ('a' <= c <= 'f') || ('A' <= c <= 'F')
}

pub open spec fn is_ident_char(c: char) -> bool {
    ('0' <= c <= '9') || ('a' <= c <= 'z') || ('A' <= c <= 'Z') || c == '_'
}

/// The value of one digit character in base 16 or less.
pub open spec fn digit_value(c: char) -> nat {
    if '0' <= c <= '9' {
        (c as int - '0' as int) as nat
    } else if 'a' <= c <= 'f' {
        (c as int - 'a' as int + 10) as nat
    } else {
        (c as int - 'A' as int + 10) as nat
    }
}

/// The characters of `s` without the `_` separators.
pub open spec fn strip_underscores(s: Seq<char>) -> Seq<char>
    decreases s.len(),
{
    if s.len() == 0 {
        Seq::empty()
    } else if s.last() == '_' {
        strip_underscores(s.drop_last())
    } else {
        strip_underscores(s.drop_last()).push(s.last())
    }
}

/// The number that a sequence of digits denotes in the given base.
pub open spec fn radix_value(ds: Seq<char>, radix: nat) -> nat
    decreases ds.len(),
{
    if ds.len() == 0 {
        0
    } else {
        radix_value(ds.drop_last(), radix) * radix + digit_value(ds.last())
    }
}

pub proof fn lemma_radix_value_grows(s: Seq<char>, i: int, j: int, radix: nat)
    requires
        0 <= i <= j <= s.len(),
        radix >= 1,
    ensures
        radix_value(strip_underscores(s.subrange(0, i)), radix) <= radix_value(
            strip_underscores(s.subrange(0, j)),
            radix,
        ),
    decreases j - i,
{
    if i < j {
        lemma_radix_value_grows(s, i, j - 1, radix);
        let p = s.subrange(0, j);
        assert(p.drop_last() =~= s.subrange(0, j - 1));
        let a = strip_underscores(s.subrange(0, j - 1));
        let v = radix_value(a, radix);
        if p.last() != '_' {
            assert(a.push(p.last()).drop_last() =~= a);
            assert(v <= v * radix) by (nonlinear_arith)
                requires
                    radix >= 1,
            ;
        }
    }
}

/// The token `t` is what its source text `text` says: a number of that
/// value, a name or type name of that spelling, the keyword or symbol
/// written there. Strings, line ends and the end of input are left free.
pub open spec fn lexeme_text(t: Token, text: Seq<char>) -> bool {
    match t {
        Token::IntLit(v) => v == int_text_value(text),
        Token::FloatLit(f) => f@ == strip_underscores(text),
        Token::Ident(n) => n@ == text,
        Token::TypeIdent(n) => n@ == text,
        Token::StringLit(_) | Token::InterpolatedString(_) | Token::Newline | Token::Eof => true,
        _ => match symbol_text(t) {
            Some(w) => text == w,
            None => keyword_token(text) == Some(t),
        },
    }
}

/// How an operator, delimiter or punctuation token is written.
pub open spec fn symbol_text(t: Token) -> Option<Seq<char>> {
    match t {
        Token::Plus => Some(seq!['+']),
        Token::Minus => Some(seq!['-']),
        Token::Star => Some(seq!['*']),
        Token::Slash => Some(seq!['/']),
        Token::Percent => Some(seq!['%']),
        Token::StarStar => Some(seq!['*', '*']),
        Token::Ampersand => Some(seq!['&']),
        Token::Pipe => Some(seq!['|']),
        Token::Caret => Some(seq!['^']),
        Token::Tilde => Some(seq!['~']),
        Token::ShiftLeft => Some(seq!['<', '<']),
        Token::ShiftRight => Some(seq!['>', '>']),
        Token::AmpAmp => Some(seq!['&', '&']),
        Token::PipePipe => Some(seq!['|', '|']),
        Token::Bang => Some(seq!['!']),
        Token::Eq => Some(seq!['=']),
        Token::EqEq => Some(seq!['=', '=']),
        Token::BangEq => Some(seq!['!', '=']),
        Token::Lt => Some(seq!['<']),
        Token::LtEq => Some(seq!['<', '=']),
        Token::Gt => Some(seq!['>']),
        Token::GtEq => Some(seq!['>', '=']),
        Token::DotDot => Some(seq!['.', '.']),
        Token::Arrow => Some(seq!['-', '>']),
        Token::FatArrow => Some(seq!['=', '>']),
        Token::Question => Some(seq!['?']),
        Token::LParen => Some(seq!['(']),
        Token::RParen => Some(seq![')']),
        Token::LBrace => Some(seq!['{']),
        Token::RBrace => Some(seq!['}']),
        Token::LBracket => Some(seq!['[']),
        Token::RBracket => Some(seq![']']),
        Token::Dot => Some(seq!['.']),
        Token::Comma => Some(seq![',']),
        Token::Colon => Some(seq![':']),
        _ => None,
    }
}

/// The value of an integer literal written `t`: hexadecimal after `0x`,
/// binary after `0b`, decimal otherwise; `_` separators are ignored.
pub open spec fn int_text_value(t: Seq<char>) -> nat {
    if t.len() >= 2 && t[0] == '0' && (t[1] == 'x' || t[1] == 'X') {
        radix_value(strip_underscores(t.skip(2)), 16)
    } else if t.len() >= 2 && t[0] == '0' && (t[1] == 'b' || t[1] == 'B') {
        radix_value(strip_underscores(t.skip(2)), 2)
    } else {
        radix_value(strip_underscores(t), 10)
    }
}

/// Keywords and the tokens they stand for; `None` for ordinary names.
pub open spec fn keyword_token(word: Seq<char>) -> Option<Token> {
    if word == "let"@ { Some(Token::Let) }
    else if word == "mut"@ { Some(Token::Mut) }
    else if word == "fn"@ { Some(Token::Fn) }
    else if word == "return"@ { Some(Token::Return) }
    else if word == "if"@ { Some(Token::If) }
    else if word == "else"@ { Some(Token::Else) }
    else if word == "match"@ { Some(Token::Match) }
    else if word == "for"@ { Some(Token::For) }
    else if word == "in"@ { Some(Token::In) }
    else if word == "while"@ { Some(Token::While) }
    else if word == "loop"@ { Some(Token::Loop) }
    else if word == "break"@ { Some(Token::Break) }
    else if word == "continue"@ { Some(Token::Continue) }
    else if word == "type"@ { Some(Token::Type) }
    else if word == "guard"@ { Some(Token::Guard) }
    else if word == "import"@ { Some(Token::Import) }
    else if word == "as"@ { Some(Token::As) }
    else if word == "is"@ { Some(Token::Is) }
    else if word == "true"@ { Some(Token::True) }
    else if word == "false"@ { Some(Token::False) }
    else if word == "nil"@ { Some(Token::Nil) }
    else { None }
}

/// Words that are reserved and may not be used as names.
pub open spec fn is_reserved_word(word: Seq<char>) -> bool {
    word == "async"@ || word == "await"@
}

/// Tokens after which a line break does not end the statement.
pub open spec fn continues_line(t: Token) -> bool {
    match t {
        Token::Plus | Token::Minus | Token::Star | Token::Slash | Token::Percent
        | Token::StarStar | Token::Ampersand | Token::Pipe | Token::Caret | Token::Tilde
        | Token::ShiftLeft | Token::ShiftRight | Token::AmpAmp | Token::PipePipe
        | Token::EqEq | Token::BangEq | Token::Lt | Token::LtEq | Token::Gt | Token::GtEq
        | Token::DotDot | Token::Eq | Token::Arrow | Token::FatArrow | Token::Comma
        | Token::Dot | Token::Colon | Token::LParen | Token::LBracket | Token::LBrace => true,
        _ => false,
    }
}

/// The character that an escape `\c` inside a string literal stands for.
pub open spec fn escape_char(c: char) -> Option<char> {
    if c == 'n' { Some('\n') }
    else if c == 't' { Some('\t') }
    else if c == 'r' { Some('\r') }
    else if c == '\\' { Some('\\') }
    else if c == '"' { Some('"') }
    else if c == '0' { Some('\0') }
    else if c == 'e' { Some('\x1B') }
    else { None }
}

/// Each escape in a string literal stands for its own fixed character: `\"`
/// and `\\` for themselves, `\n`, `\t`, `\r`, `\0` and `\e` for the control
/// characters U+000A, U+0009, U+000D, U+0000 and U+001B; no other character
/// after a backslash is an escape, and no two escapes stand for the same
/// character.
pub proof fn law_escapes(c: char, d: char)
    ensures
        (c == '"' || c == '\\') ==> escape_char(c) == Some(c),
        c == '"' ==> escape_char(c).unwrap() as u32 == 0x22,
        c == 'n' ==> escape_char(c).unwrap() as u32 == 0x0A,
        c == 't' ==> escape_char(c).unwrap() as u32 == 0x09,
        c == 'r' ==> escape_char(c).unwrap() as u32 == 0x0D,
        c == '0' ==> escape_char(c).unwrap() as u32 == 0x00,
        c == 'e' ==> escape_char(c).unwrap() as u32 == 0x1B,
        escape_char(c) is Some <==> (c == '"' || c == '\\' || c == 'n' || c == 't' || c == 'r' || c == '0' || c == 'e'),
        escape_char(c) is Some && escape_char(c) == escape_char(d) ==> c == d,
{
}

/// Inside a string literal, a backslash and the escape letter after it give
/// exactly one character of the literal's text, the one the escape stands
/// for, followed by the text of the rest of the literal.
pub proof fn law_string_escapes(cs: Seq<char>, i: int)
    requires
        0 <= i,
        i + 1 < cs.len(),
        cs[i] == '\\',
        literal_text(cs, i + 2) is Some,
    ensures
        cs[i + 1] == '"' ==> literal_text(cs, i) == Some(seq!['\u{22}'] + literal_text(cs, i + 2).unwrap()),
        cs[i + 1] == '\\' ==> literal_text(cs, i) == Some(seq!['\u{5c}'] + literal_text(cs, i + 2).unwrap()),
        cs[i + 1] == 'n' ==> literal_text(cs, i) == Some(seq!['\u{a}'] + literal_text(cs, i + 2).unwrap()),
        cs[i + 1] == 't' ==> literal_text(cs, i) == Some(seq!['\u{9}'] + literal_text(cs, i + 2).unwrap()),
        cs[i + 1] == 'r' ==> literal_text(cs, i) == Some(seq!['\u{d}'] + literal_text(cs, i + 2).unwrap()),
        cs[i + 1] == '0' ==> literal_text(cs, i) == Some(seq!['\u{0}'] + literal_text(cs, i + 2).unwrap()),
        cs[i + 1] == 'e' ==> literal_text(cs, i) == Some(seq!['\u{1b}'] + literal_text(cs, i + 2).unwrap()),
{
}

/// Whether a float literal's text (without `_`) reads as an `f64`: an
/// exponent marker must be followed, after an optional sign, by a digit.
pub open spec fn float_text_ok(t: Seq<char>) -> bool {
    forall|i: int| 0 <= i < t.len() ==> #[trigger] exponent_ok_at(t, i)
}

/// At position `i`: not an exponent marker, or one followed by digits.
pub open spec fn exponent_ok_at(t: Seq<char>, i: int) -> bool {
    (t[i] == 'e' || t[i] == 'E') ==> {
        ||| (i + 1 < t.len() && is_dec_digit(t[i + 1]))
        ||| (i + 2 < t.len() && (t[i + 1] == '+' || t[i + 1] == '-') && is_dec_digit(t[i + 2]))
    }
}

/// The text of a string literal whose body starts at `i`: its characters up
/// to the closing quote, escapes replaced. `None` when the literal is not
/// closed, has an unknown escape, or holds an interpolation `\(...)`.
pub open spec fn literal_text(cs: Seq<char>, i: int) -> Option<Seq<char>>
    decreases cs.len() - i,
{
    if i < 0 || i >= cs.len() {
        None
    } else if cs[i] == '"' {
        Some(Seq::empty())
    } else if cs[i] == '\\' {
        if i + 1 >= cs.len() || cs[i + 1] == '(' {
            None
        } else {
            match escape_char(cs[i + 1]) {
                Some(e) => match literal_text(cs, i + 2) {
                    Some(rest) => Some(seq![e] + rest),
                    None => None,
                },
                None => None,
            }
        }
    } else {
        match literal_text(cs, i + 1) {
            Some(rest) => Some(seq![cs[i]] + rest),
            None => None,
        }
    }
}

/// A non-empty run of letters, digits and `_`.
pub open spec fn is_word(s: Seq<char>) -> bool {
    s.len() > 0 && forall|i: int| 0 <= i < s.len() ==> #[trigger] is_ident_char(s[i])
}

/// Whether the token is one the lexer emits for a single lexeme (never a
/// line break or the end marker), well formed: integer literals are not
/// negative, float literals read as numbers, names start with a lowercase
/// letter or `_` and are neither keywords nor reserved words, type names
/// start with an uppercase letter.
pub open spec fn is_lexeme(t: Token) -> bool {
    match t {
        Token::Newline | Token::Eof => false,
        Token::IntLit(v) => v >= 0,
        Token::FloatLit(f) => float_text_ok(f@),
        Token::Ident(n) => {
            &&& is_word(n@)
            &&& ('a' <= n@[0] <= 'z' || n@[0] == '_')
            &&& keyword_token(n@) is None
            &&& !is_reserved_word(n@)
        },
        Token::TypeIdent(n) => is_word(n@) && 'A' <= n@[0] <= 'Z',
        _ => true,
    }
}

// ---------------------------------------------------------------------------
// The lexer

/// Splits `source` into tokens. On success the tokens come in source order
/// and end with exactly one `Eof`, which is preceded by a `Newline` unless it
/// is the only token, and no two `Newline` tokens follow each other.
pub fn lex(source: &str) -> (r: Result<Vec<SpannedToken>, CompileError>)
    requires
        source@.len() < usize::MAX,
    ensures
        r matches Ok(toks) ==> lexed_well(toks@),
        r matches Ok(toks) ==> forall|i: int| 0 <= i < toks@.len() ==> #[trigger] token_from(source@, toks@[i]),
        plain_source(source@) ==> r is Ok,
        r matches Ok(toks) ==> tokens_of(source@, toks@),
{
    let mut lexer = Lexer::new(source);
    lexer.lex_all()
}

/// Where the run of decimal digits and `_` that starts at `i` ends.
pub open spec fn dec_run_end(cs: Seq<char>, i: int) -> int
    decreases cs.len() - i,
{
    if 0 <= i < cs.len() && scan_class(0, cs[i]) {
        dec_run_end(cs, i + 1)
    } else {
        i
    }
}

/// A decimal integer literal starts at `i`: not `0x` or `0b`, no fraction
/// or exponent after its digits, and a value that fits an `i128`.
pub open spec fn plain_int_at(cs: Seq<char>, i: int) -> bool {
    let e = dec_run_end(cs, i);
    &&& !(cs[i] == '0' && i + 1 < cs.len() && (cs[i + 1] == 'x' || cs[i + 1] == 'X' || cs[i + 1] == 'b' || cs[i + 1] == 'B'))
    &&& !(e < cs.len() && (cs[e] == 'e' || cs[e] == 'E'))
    &&& !(e + 1 < cs.len() && cs[e] == '.' && is_dec_digit(cs[e + 1]))
    &&& int_text_value(cs.subrange(i, e)) <= i128::MAX
}

/// A run of a class that stops at `k` ends at `k`.
proof fn lemma_dec_run_end(cs: Seq<char>, i: int, k: int)
    requires
        0 <= i <= k <= cs.len(),
        forall|j: int| i <= j < k ==> #[trigger] scan_class(0, cs[j]),
        k == cs.len() || !scan_class(0, cs[k]),
    ensures
        dec_run_end(cs, i) == k,
    decreases k - i,
{
    if i < k {
        lemma_dec_run_end(cs, i + 1, k);
    }
}

/// A text that starts with a digit keeps a digit once `_` are dropped.
proof fn lemma_strip_keeps_digit(t: Seq<char>)
    requires
        t.len() > 0,
        is_dec_digit(t[0]),
    ensures
        strip_underscores(t).len() > 0,
    decreases t.len(),
{
    if t.len() > 1 && t.last() == '_' {
        lemma_strip_keeps_digit(t.drop_last());
    }
}

/// Characters that make a token of their own (or the first of two).
pub open spec fn symbol_char(c: char) -> bool {
    c == '+' || c == '-' || c == '*' || c == '/' || c == '%' || c == '&' || c == '|' || c == '^' || c == '~' || c == '!'
        || c == '=' || c == '<' || c == '>' || c == '?' || c == '(' || c == ')' || c == '{' || c == '}' || c == '['
        || c == ']' || c == '.' || c == ',' || c == ':'
}

/// Characters of a text made only of names, symbols, blanks and line breaks.
pub open spec fn plain_char(c: char) -> bool {
    is_blank(c) || c == '\n' || ('a' <= c && c <= 'z') || ('A' <= c && c <= 'Z') || c == '_' || symbol_char(c)
}

/// A text with no literals (no digits, quotes or backslashes) and no
/// reserved word in it: it always lexes.
pub open spec fn plain_source(cs: Seq<char>) -> bool {
    &&& forall|i: int| 0 <= i < cs.len() ==> plain_char(#[trigger] cs[i])
    &&& forall|i: int| 0 <= i && i + 5 <= cs.len() ==> !is_reserved_word(#[trigger] cs.subrange(i, i + 5))
}

/// The shape every successful token stream has.
pub open spec fn lexed_well(toks: Seq<SpannedToken>) -> bool {
    &&& toks.len() >= 1
    &&& toks.last().token is Eof
    &&& toks.len() >= 2 ==> toks[toks.len() - 2].token is Newline
    &&& forall|i: int| 0 <= i < toks.len() - 1 ==> !(#[trigger] toks[i].token is Eof)
    &&& forall|i: int| 0 <= i < toks.len() ==> (#[trigger] toks[i].token is Newline || toks[i].token is Eof
        || is_lexeme(toks[i].token))
    &&& forall|i: int|
        0 <= i < toks.len() - 1 && (#[trigger] toks[i].token is Newline) ==> !(toks[i
            + 1].token is Newline)
    &&& forall|i: int| 0 <= i < toks.len() ==> #[trigger] toks[i].line >= 1
    &&& forall|i: int, j: int|
        0 <= i <= j < toks.len() ==> not_after(#[trigger] toks[i], #[trigger] toks[j])
}

/// The line and column (both from 1) of the character at index `k` of `cs`:
/// a line break moves to column 1 of the next line, any other character one
/// column on.
pub open spec fn line_col_at(cs: Seq<char>, k: int) -> (int, int)
    decreases k,
{
    if k <= 0 {
        (1, 1)
    } else {
        let (l, c) = line_col_at(cs, k - 1);
        if cs[k - 1] == '\n' {
            (l + 1, 1)
        } else {
            (l, c + 1)
        }
    }
}

/// The token stands at a place of the source whose line and column it
/// carries, and the text that starts there spells it (see `lexeme_text`);
/// a string written in quotes holds the literal's text (see `literal_text`).
pub open spec fn token_from(src: Seq<char>, t: SpannedToken) -> bool {
    exists|k: int, j: int|
        0 <= k <= j <= src.len() && #[trigger] line_col_at(src, k) == (t.line as int, t.col as int)
            && lexeme_text(t.token, #[trigger] src.subrange(k, j)) && quoted_text(src, k, t.token)
}

/// A `StringLit` that starts with a quote at index `k` holds the text of
/// the literal there.
pub open spec fn quoted_text(src: Seq<char>, k: int, t: Token) -> bool {
    match t {
        Token::StringLit(s) => 0 <= k < src.len() && src[k] == '"' ==> literal_text(src, k + 1) == Some(s@),
        _ => true,
    }
}

/// A token placed at index `k`, spelled by the text from `k` to `j`, comes
/// from the source.
proof fn lemma_token_here(src: Seq<char>, k: int, j: int, t: SpannedToken)
    requires
        0 <= k <= j <= src.len(),
        line_col_at(src, k) == (t.line as int, t.col as int),
        lexeme_text(t.token, src.subrange(k, j)),
        quoted_text(src, k, t.token),
    ensures
        token_from(src, t),
{
}

/// Character `i` lies in a line comment that starts at or after `a`: a
/// `//` at or before it on the same line.
pub open spec fn comment_from(cs: Seq<char>, a: int, i: int) -> bool {
    exists|s: int|
        a <= s <= i && s + 1 < cs.len() && #[trigger] cs[s] == '/' && cs[s + 1] == '/' && forall|t: int|
            s <= t <= i ==> #[trigger] cs[t] != '\n'
}

/// The characters from `a` to `b` are all blanks, line breaks or comments.
#[verifier::opaque]
pub open spec fn gap_fine(cs: Seq<char>, a: int, b: int) -> bool {
    forall|i: int| a <= i < b ==> is_blank_or_break(#[trigger] cs[i]) || comment_from(cs, a, i)
}

/// `toks` are the tokens of `cs`, in order: some spans of the source spell
/// them (see `tokens_cover`), with only blanks, line breaks and comments
/// around and between them.
pub open spec fn tokens_of(cs: Seq<char>, toks: Seq<SpannedToken>) -> bool {
    exists|spans: Seq<(int, int)>| tokens_cover(cs, toks, spans)
}

/// Where the text before token `i` ends: at the end of the previous token.
pub open spec fn prev_end(spans: Seq<(int, int)>, i: int) -> int {
    if i <= 0 {
        0
    } else {
        spans[i - 1].1
    }
}

/// Token `i` spans the text from `spans[i].0` to `spans[i].1` (an empty
/// span for line ends and the end of input), in order, with only blanks,
/// line breaks and comments before, between and after them; a name,
/// number, keyword, symbol or string token is spelled by its text.
pub open spec fn tokens_cover(cs: Seq<char>, toks: Seq<SpannedToken>, spans: Seq<(int, int)>) -> bool {
    &&& covered_prefix(cs, toks, spans)
    &&& gap_fine(cs, prev_end(spans, spans.len() as int), cs.len() as int)
}

/// `tokens_cover` up to the end of the last token.
#[verifier::opaque]
pub open spec fn covered_prefix(cs: Seq<char>, toks: Seq<SpannedToken>, spans: Seq<(int, int)>) -> bool {
    &&& spans.len() == toks.len()
    &&& forall|i: int| 0 <= i < spans.len() ==> prev_end(spans, i) <= (#[trigger] spans[i]).0 <= spans[i].1 <= cs.len()
    &&& forall|i: int| 0 <= i < spans.len() ==> gap_fine(cs, prev_end(spans, i), (#[trigger] spans[i]).0)
    &&& forall|i: int|
        0 <= i < spans.len() && is_lexeme(#[trigger] toks[i].token) ==> spans[i].0 < spans[i].1 && lexeme_text(
            toks[i].token,
            cs.subrange(spans[i].0, spans[i].1),
        ) && line_col_at(cs, spans[i].0) == (toks[i].line as int, toks[i].col as int)
    &&& forall|i: int| 0 <= i < spans.len() && is_lexeme(#[trigger] toks[i].token) ==> word_ends(cs, spans[i].0, spans[i].1)
}

/// A character that starts a name or keyword.
pub open spec fn is_word_start(c: char) -> bool {
    ('a' <= c <= 'z') || ('A' <= c <= 'Z') || c == '_'
}

/// A token from `k` to `j` takes the longest text it can: one that starts
/// with a letter or `_` the whole run of name characters there, and one
/// that starts a plain decimal integer all of its digits.
pub open spec fn word_ends(cs: Seq<char>, k: int, j: int) -> bool {
    &&& 0 <= k < cs.len() && is_word_start(cs[k]) ==> (j == cs.len() || (0 <= j < cs.len() && !is_ident_char(cs[j])))
    &&& 0 <= k < cs.len() && is_dec_digit(cs[k]) && plain_int_at(cs, k) ==> j == dec_run_end(cs, k)
}

/// Nothing lies between a place and itself.
proof fn lemma_gap_empty(cs: Seq<char>, a: int)
    ensures
        gap_fine(cs, a, a),
{
    reveal(gap_fine);
}

/// Blanks and line breaks extend a gap.
proof fn lemma_gap_blanks(cs: Seq<char>, a: int, p: int, q: int)
    requires
        gap_fine(cs, a, p),
        p <= q <= cs.len(),
        forall|t: int| p <= t < q ==> is_blank_or_break(#[trigger] cs[t]),
    ensures
        gap_fine(cs, a, q),
{
    reveal(gap_fine);
    assert forall|i: int| a <= i < q implies is_blank_or_break(#[trigger] cs[i]) || comment_from(cs, a, i) by {
        if i < p {
        }
    }
}

/// A line comment that starts at `p` extends a gap.
proof fn lemma_gap_comment(cs: Seq<char>, a: int, p: int, q: int)
    requires
        gap_fine(cs, a, p),
        a <= p,
        p + 1 < cs.len(),
        cs[p] == '/',
        cs[p + 1] == '/',
        p <= q <= cs.len(),
        forall|t: int| p <= t < q ==> #[trigger] cs[t] != '\n',
    ensures
        gap_fine(cs, a, q),
{
    reveal(gap_fine);
    assert forall|i: int| a <= i < q implies is_blank_or_break(#[trigger] cs[i]) || comment_from(cs, a, i) by {
        if i >= p {
            assert(forall|t: int| p <= t <= i ==> #[trigger] cs[t] != '\n');
            assert(cs[p] == '/');
        }
    }
}

/// Appending a token with its span keeps the prefix covered.
proof fn lemma_push_span(cs: Seq<char>, toks: Seq<SpannedToken>, spans: Seq<(int, int)>, t: SpannedToken, k: int, j: int)
    requires
        covered_prefix(cs, toks, spans),
        prev_end(spans, spans.len() as int) <= k <= j <= cs.len(),
        gap_fine(cs, prev_end(spans, spans.len() as int), k),
        is_lexeme(t.token) ==> k < j && lexeme_text(t.token, cs.subrange(k, j)) && line_col_at(cs, k) == (
            t.line as int,
            t.col as int,
        ),
        is_lexeme(t.token) ==> word_ends(cs, k, j),
    ensures
        covered_prefix(cs, toks.push(t), spans.push((k, j))),
        prev_end(spans.push((k, j)), spans.len() + 1 as int) == j,
{
    reveal(covered_prefix);
    let s2 = spans.push((k, j));
    let t2 = toks.push(t);
    assert forall|i: int| 0 <= i < s2.len() implies prev_end(s2, i) <= (#[trigger] s2[i]).0 <= s2[i].1 <= cs.len() by {
        if i < spans.len() {
            assert(s2[i] == spans[i]);
            if i > 0 {
                assert(s2[i - 1] == spans[i - 1]);
            }
        }
    }
    assert forall|i: int| 0 <= i < s2.len() implies gap_fine(cs, prev_end(s2, i), (#[trigger] s2[i]).0) by {
        if i < spans.len() {
            assert(s2[i] == spans[i]);
            if i > 0 {
                assert(s2[i - 1] == spans[i - 1]);
            }
        } else if i > 0 {
            assert(s2[i - 1] == spans[i - 1]);
        }
    }
    assert forall|i: int|
        0 <= i < s2.len() && is_lexeme(#[trigger] t2[i].token) implies s2[i].0 < s2[i].1 && lexeme_text(
        t2[i].token,
        cs.subrange(s2[i].0, s2[i].1),
    ) && line_col_at(cs, s2[i].0) == (t2[i].line as int, t2[i].col as int) by {
        if i < spans.len() {
            assert(s2[i] == spans[i]);
            assert(t2[i] == toks[i]);
        }
    }
    assert forall|i: int| 0 <= i < s2.len() && is_lexeme(#[trigger] t2[i].token) implies word_ends(cs, s2[i].0, s2[i].1) by {
        if i < spans.len() {
            assert(s2[i] == spans[i]);
            assert(t2[i] == toks[i]);
        }
    }
}

/// The lexer's progress at `pos`, line `line`, column `col`: the tokens so
/// far cover the source up to their last span, only blanks, line breaks and
/// comments lie from there to `pos`, and the stream is in order before the
/// current place.
#[verifier::opaque]
pub open spec fn lex_state(src: Seq<char>, toks: Seq<SpannedToken>, spans: Seq<(int, int)>, pos: int, line: int, col: int, lwn: bool) -> bool {
    &&& covered_prefix(src, toks, spans)
    &&& prev_end(spans, spans.len() as int) <= pos
    &&& gap_fine(src, prev_end(spans, spans.len() as int), pos)
    &&& stream_ok(src, toks, line, col, lwn)
}

/// Nothing lexed yet.
proof fn lemma_state_start(src: Seq<char>, line: int, col: int)
    ensures
        lex_state(src, Seq::empty(), Seq::empty(), 0, line, col, true),
{
    reveal(lex_state);
    reveal(covered_prefix);
    reveal(stream_ok);
    lemma_gap_empty(src, 0);
}

/// Skipping blanks and line breaks keeps the progress.
proof fn lemma_state_blanks(
    src: Seq<char>, toks: Seq<SpannedToken>, spans: Seq<(int, int)>, p: int, q: int, l: int, c: int, l2: int, c2: int, lwn: bool,
)
    requires
        lex_state(src, toks, spans, p, l, c, lwn),
        p <= q <= src.len(),
        forall|t: int| p <= t < q ==> is_blank_or_break(#[trigger] src[t]),
        l < l2 || (l == l2 && c <= c2),
    ensures
        lex_state(src, toks, spans, q, l2, c2, lwn),
{
    reveal(lex_state);
    lemma_gap_blanks(src, prev_end(spans, spans.len() as int), p, q);
    lemma_stream_move(src, toks, l, c, l2, c2, lwn);
}

/// Skipping a line comment keeps the progress.
proof fn lemma_state_comment(
    src: Seq<char>, toks: Seq<SpannedToken>, spans: Seq<(int, int)>, p: int, q: int, l: int, c: int, l2: int, c2: int, lwn: bool,
)
    requires
        lex_state(src, toks, spans, p, l, c, lwn),
        p + 1 < src.len(),
        src[p] == '/',
        src[p + 1] == '/',
        p <= q <= src.len(),
        forall|t: int| p <= t < q ==> #[trigger] src[t] != '\n',
        l < l2 || (l == l2 && c <= c2),
    ensures
        lex_state(src, toks, spans, q, l2, c2, lwn),
{
    reveal(lex_state);
    lemma_gap_comment(src, prev_end(spans, spans.len() as int), p, q);
    lemma_stream_move(src, toks, l, c, l2, c2, lwn);
}

/// A token spelled by the text from `k` to `j` extends the progress to `j`.
proof fn lemma_state_push(
    src: Seq<char>, toks: Seq<SpannedToken>, spans: Seq<(int, int)>, k: int, j: int, l: int, c: int, lwn: bool, t: SpannedToken,
    l2: int, c2: int,
)
    requires
        lex_state(src, toks, spans, k, l, c, lwn),
        k <= j <= src.len(),
        token_from(src, t),
        !(t.token is Eof),
        t.token is Newline || is_lexeme(t.token),
        t.token is Newline ==> !lwn,
        t.line >= 1,
        t.line == l,
        t.col == c,
        is_lexeme(t.token) ==> k < j && lexeme_text(t.token, src.subrange(k, j)) && line_col_at(src, k) == (l, c),
        is_lexeme(t.token) ==> word_ends(src, k, j),
        l < l2 || (l == l2 && c <= c2),
    ensures
        lex_state(src, toks.push(t), spans.push((k, j)), j, l2, c2, t.token is Newline),
{
    reveal(lex_state);
    lemma_stream_push(src, toks, l, c, lwn, t);
    lemma_stream_move(src, toks.push(t), l, c, l2, c2, t.token is Newline);
    lemma_push_span(src, toks, spans, t, k, j);
    lemma_gap_empty(src, j);
}

/// The end marker at the end of the source completes the stream.
proof fn lemma_state_finish(src: Seq<char>, toks: Seq<SpannedToken>, spans: Seq<(int, int)>, k: int, l: int, c: int, t: SpannedToken)
    requires
        lex_state(src, toks, spans, k, l, c, true),
        k == src.len(),
        token_from(src, t),
        t.token is Eof,
        t.line >= 1,
        t.line == l,
        t.col == c,
    ensures
        lexed_well(toks.push(t)),
        forall|i: int| 0 <= i < toks.len() + 1 ==> #[trigger] token_from(src, toks.push(t)[i]),
        tokens_cover(src, toks.push(t), spans.push((k, k))),
{
    reveal(lex_state);
    lemma_stream_finish(src, toks, l, c, t);
    lemma_push_span(src, toks, spans, t, k, k);
    lemma_gap_empty(src, k);
}

/// A line break before index `pos` ends the statement: the last token does
/// not continue onto the next line, and the next line does not start with
/// `.` (after blanks and line breaks).
#[verifier::opaque]
pub open spec fn line_break_ends(cs: Seq<char>, pos: int, toks: Seq<SpannedToken>) -> bool {
    &&& !(toks.len() > 0 && continues_line(toks.last().token))
    &&& !exists|i: int| pos <= i < cs.len() && cs[i] == '.' && forall|j: int| pos <= j < i ==> #[trigger] is_blank_or_break(cs[j])
}

/// What holds of the tokens made so far, with the lexer at line `line`,
/// column `col`: each comes from the source, none is the end marker, line
/// ends never follow each other, all lie in order before the current place,
/// and `lwn` tells whether the last one is a line end.
#[verifier::opaque]
pub open spec fn stream_ok(src: Seq<char>, toks: Seq<SpannedToken>, line: int, col: int, lwn: bool) -> bool {
    &&& forall|i: int| 0 <= i < toks.len() ==> #[trigger] token_from(src, toks[i])
    &&& lwn == (toks.len() == 0 || toks.last().token is Newline)
    &&& forall|i: int| 0 <= i < toks.len() ==> !(#[trigger] toks[i].token is Eof)
    &&& forall|i: int| 0 <= i < toks.len() ==> (#[trigger] toks[i].token is Newline || is_lexeme(toks[i].token))
    &&& forall|i: int| 0 <= i < toks.len() - 1 && (#[trigger] toks[i].token is Newline) ==> !(toks[i + 1].token is Newline)
    &&& forall|i: int| 0 <= i < toks.len() ==> #[trigger] toks[i].line >= 1
    &&& forall|i: int| 0 <= i < toks.len() ==> #[trigger] toks[i].line < line || (toks[i].line == line && toks[i].col <= col)
    &&& forall|i: int, j: int| 0 <= i <= j < toks.len() ==> not_after(#[trigger] toks[i], #[trigger] toks[j])
}

/// Moving on in the source keeps the tokens behind.
proof fn lemma_stream_move(src: Seq<char>, toks: Seq<SpannedToken>, l: int, c: int, l2: int, c2: int, lwn: bool)
    requires
        stream_ok(src, toks, l, c, lwn),
        l < l2 || (l == l2 && c <= c2),
    ensures
        stream_ok(src, toks, l2, c2, lwn),
{
    reveal(stream_ok);
}

/// A token made at the current place joins the stream.
proof fn lemma_stream_push(src: Seq<char>, toks: Seq<SpannedToken>, l: int, c: int, lwn: bool, t: SpannedToken)
    requires
        stream_ok(src, toks, l, c, lwn),
        token_from(src, t),
        !(t.token is Eof),
        t.token is Newline || is_lexeme(t.token),
        t.token is Newline ==> !lwn,
        t.line >= 1,
        t.line == l,
        t.col == c,
    ensures
        stream_ok(src, toks.push(t), l, c, t.token is Newline),
{
    reveal(stream_ok);
    let t2 = toks.push(t);
    assert forall|i: int, j: int| 0 <= i <= j < t2.len() implies not_after(#[trigger] t2[i], #[trigger] t2[j]) by {
        if j < toks.len() {
            assert(t2[i] == toks[i] && t2[j] == toks[j]);
        } else if i < toks.len() {
            assert(t2[i] == toks[i]);
        }
    }
    assert forall|i: int| 0 <= i < t2.len() - 1 && (#[trigger] t2[i].token is Newline) implies !(t2[i + 1].token is Newline) by {
        if i + 1 < toks.len() {
            assert(t2[i] == toks[i] && t2[i + 1] == toks[i + 1]);
        } else {
            assert(t2[i] == toks.last());
        }
    }
    assert forall|i: int| 0 <= i < t2.len() implies #[trigger] token_from(src, t2[i]) by {
        if i < toks.len() {
            assert(t2[i] == toks[i]);
        }
    }
    assert forall|i: int| 0 <= i < t2.len() implies !(#[trigger] t2[i].token is Eof) && (t2[i].token is Newline || is_lexeme(t2[i].token))
        && t2[i].line >= 1 && (t2[i].line < l || (t2[i].line == l && t2[i].col <= c)) by {
        if i < toks.len() {
            assert(t2[i] == toks[i]);
        }
    }
}

/// The end marker closes a stream that ends with a line end (or is empty).
proof fn lemma_stream_finish(src: Seq<char>, toks: Seq<SpannedToken>, l: int, c: int, t: SpannedToken)
    requires
        stream_ok(src, toks, l, c, true),
        token_from(src, t),
        t.token is Eof,
        t.line >= 1,
        t.line == l,
        t.col == c,
    ensures
        lexed_well(toks.push(t)),
        forall|i: int| 0 <= i < toks.len() + 1 ==> #[trigger] token_from(src, toks.push(t)[i]),
{
    reveal(stream_ok);
    let t2 = toks.push(t);
    assert forall|i: int, j: int| 0 <= i <= j < t2.len() implies not_after(#[trigger] t2[i], #[trigger] t2[j]) by {
        if j < toks.len() {
            assert(t2[i] == toks[i] && t2[j] == toks[j]);
        } else if i < toks.len() {
            assert(t2[i] == toks[i]);
        }
    }
    assert forall|i: int| 0 <= i < t2.len() - 1 && (#[trigger] t2[i].token is Newline) implies !(t2[i + 1].token is Newline) by {
        if i + 1 < toks.len() {
            assert(t2[i] == toks[i] && t2[i + 1] == toks[i + 1]);
        }
    }
    assert forall|i: int| 0 <= i < t2.len() implies #[trigger] token_from(src, t2[i]) by {
        if i < toks.len() {
            assert(t2[i] == toks[i]);
        }
    }
    assert forall|i: int| 0 <= i < t2.len() - 1 implies !(#[trigger] t2[i].token is Eof) by {
        assert(t2[i] == toks[i]);
    }
    assert forall|i: int| 0 <= i < t2.len() implies (#[trigger] t2[i].token is Newline || t2[i].token is Eof || is_lexeme(t2[i].token))
        && t2[i].line >= 1 by {
        if i < toks.len() {
            assert(t2[i] == toks[i]);
        }
    }
    if toks.len() >= 1 {
        assert(t2[t2.len() - 2] == toks.last());
    }
}

/// Token `a` starts no later in the source than token `b`.
pub open spec fn not_after(a: SpannedToken, b: SpannedToken) -> bool {
    a.line < b.line || (a.line == b.line && a.col <= b.col)
}

struct Lexer {
    chars: Vec<char>,
    pos: usize,
    line: usize,
    col: usize,
}

impl Lexer {
    spec fn wf(&self) -> bool {
        &&& self.pos <= self.chars@.len()
        &&& self.chars@.len() < usize::MAX
        &&& 1 <= self.line <= self.pos + 1
        &&& 1 <= self.col <= self.pos + 1
        &&& line_col_at(self.chars@, self.pos as int) == (self.line as int, self.col as int)
    }

    spec fn rest(&self) -> int {
        self.chars@.len() - self.pos
    }

    /// Same text, position not moved back.
    spec fn moved_on(&self, old: &Lexer) -> bool {
        &&& self.chars@ == old.chars@
        &&& self.pos >= old.pos
        &&& self.line >= old.line
        &&& (self.line == old.line ==> self.col >= old.col)
        &&& self.wf()
    }

    fn new(source: &str) -> (l: Lexer)
        requires
            source@.len() < usize::MAX,
        ensures
            l.wf(),
            l.pos == 0,
            l.chars@ == source@,
    {
        Lexer { chars: chars_of(source), pos: 0, line: 1, col: 1 }
    }

    fn peek(&self) -> (c: Option<char>)
        ensures
            c == (if self.pos < self.chars@.len() {
                Some(self.chars@[self.pos as int])
            } else {
                None
            }),
    {
        if self.pos < self.chars.len() {
            Some(self.chars[self.pos])
        } else {
            None
        }
    }

    fn peek_at(&self, offset: usize) -> (c: Option<char>)
        requires
            self.wf(),
        ensures
            c == (if self.pos + offset < self.chars@.len() {
                Some(self.chars@[self.pos + offset])
            } else {
                None
            }),
    {
        if offset < self.chars.len() - self.pos {
            Some(self.chars[self.pos + offset])
        } else {
            None
        }
    }

    fn peek_is(&self, c: char) -> (r: bool)
        ensures
            r == (self.pos < self.chars@.len() && self.chars@[self.pos as int] == c),
    {
        self.pos < self.chars.len() && self.chars[self.pos] == c
    }

    fn peek_at_is(&self, offset: usize, c: char) -> (r: bool)
        requires
            self.wf(),
        ensures
            r == (self.pos + offset < self.chars@.len() && self.chars@[self.pos + offset] == c),
    {
        offset < self.chars.len() - self.pos && self.chars[self.pos + offset] == c
    }

    fn advance(&mut self) -> (c: Option<char>)
        requires
            old(self).wf(),
        ensures
            final(self).wf(),
            final(self).chars == old(self).chars,
            c == (if old(self).pos < old(self).chars@.len() {
                Some(old(self).chars@[old(self).pos as int])
            } else {
                None
            }),
            old(self).pos < old(self).chars@.len() ==> final(self).pos == old(self).pos + 1,
            old(self).pos >= old(self).chars@.len() ==> *final(self) == *old(self),
            c == Some('\n') ==> final(self).line == old(self).line + 1 && final(self).col == 1,
            (c is Some && c != Some('\n')) ==> final(self).line == old(self).line
                && final(self).col == old(self).col + 1,
    {
        if self.pos >= self.chars.len() {
            return None;
        }
        let ch = self.chars[self.pos];
        self.pos += 1;
        if ch == '\n' {
            self.line += 1;
            self.col = 1;
        } else {
            self.col += 1;
        }
        Some(ch)
    }

    fn make_token(&self, token: Token, line: usize, col: usize) -> (t: SpannedToken)
        ensures
            t.token == token,
            t.line == line,
            t.col == col,
    {
        SpannedToken { token, line, col }
    }

    fn span_here(&self) -> (s: Span)
        ensures
            s.line == self.line as u32,
            s.col == self.col as u32,
    {
        Span::new(self.line as u32, self.col as u32)
    }

    #[verifier::rlimit(100)]
    #[verifier::spinoff_prover]
    fn lex_all(&mut self) -> (r: Result<Vec<SpannedToken>, CompileError>)
        requires
            old(self).wf(),
            old(self).pos == 0,
        ensures
            r matches Ok(toks) ==> lexed_well(toks@),
            r matches Ok(toks) ==> forall|i: int| 0 <= i < toks@.len() ==> #[trigger] token_from(old(self).chars@, toks@[i]),
            plain_source(old(self).chars@) ==> r is Ok,
            r matches Ok(toks) ==> tokens_of(old(self).chars@, toks@),
    {
        let mut tokens: Vec<SpannedToken> = Vec::new();
        let mut last_was_newline = true;
        let ghost src = self.chars@;
        let ghost mut spans: Seq<(int, int)> = Seq::empty();
        proof {
            lemma_state_start(src, self.line as int, self.col as int);
        }
        loop
            invariant
                self.wf(),
                self.chars@ == src,
                src == old(self).chars@,
                lex_state(src, tokens@, spans, self.pos as int, self.line as int, self.col as int, last_was_newline),
            decreases self.rest(),
        {
            let ghost pb = self.pos as int;
            let ghost l0 = self.line as int;
            let ghost c0 = self.col as int;
            self.skip_whitespace_not_newline();
            proof {
                assert forall|t: int| pb <= t < self.pos implies is_blank_or_break(#[trigger] src[t]) by {
                    assert(is_blank(self.chars@[t]));
                }
                lemma_state_blanks(src, tokens@, spans, pb, self.pos as int, l0, c0, self.line as int, self.col as int, last_was_newline);
            }
            if self.peek_is('/') && self.peek_at_is(1, '/') {
                let ghost pc = self.pos as int;
                let ghost l1 = self.line as int;
                let ghost c1 = self.col as int;
                self.skip_line_comment();
                proof {
                    lemma_state_comment(src, tokens@, spans, pc, self.pos as int, l1, c1, self.line as int, self.col as int, last_was_newline);
                }
                continue;
            }
            let line = self.line;
            let col = self.col;
            let ghost here = self.pos as int;
            proof {
                lemma_token_here(src, here, here, SpannedToken { token: Token::Newline, line, col });
                lemma_token_here(src, here, here, SpannedToken { token: Token::Eof, line, col });
            }
            match self.peek() {
                None => {
                    if !last_was_newline {
                        let ghost before = tokens@;
                        let nl = self.make_token(Token::Newline, line, col);
                        tokens.push(nl);
                        proof {
                            lemma_state_push(src, before, spans, here, here, line as int, col as int, false, nl, line as int, col as int);
                            assert(before.push(nl) =~= tokens@);
                            spans = spans.push((here, here));
                        }
                        last_was_newline = true;
                    }
                    let ghost before = tokens@;
                    let eof = self.make_token(Token::Eof, line, col);
                    tokens.push(eof);
                    proof {
                        lemma_state_finish(src, before, spans, here, line as int, col as int, eof);
                        assert(before.push(eof) =~= tokens@);
                        let w = spans.push((here, here));
                        assert(tokens_cover(old(self).chars@, tokens@, w));
                        assert(tokens_of(old(self).chars@, tokens@));
                    }
                    return Ok(tokens);
                },
                Some('\n') => {
                    let lwn0 = last_was_newline;
                    self.advance();
                    if !last_was_newline && self.statement_ends_here(&tokens) {
                        let ghost before = tokens@;
                        let nl = self.make_token(Token::Newline, line, col);
                        tokens.push(nl);
                        proof {
                            lemma_state_push(src, before, spans, here, here, line as int, col as int, lwn0, nl, line as int, col as int);
                            assert(before.push(nl) =~= tokens@);
                            spans = spans.push((here, here));
                        }
                        last_was_newline = true;
                    }
                    proof {
                        lemma_state_blanks(src, tokens@, spans, here, here + 1, line as int, col as int, self.line as int, self.col as int, last_was_newline);
                    }
                    continue;
                },
                Some('\r') => {
                    self.advance();
                    proof {
                        lemma_state_blanks(src, tokens@, spans, here, here + 1, line as int, col as int, self.line as int, self.col as int, last_was_newline);
                    }
                    continue;
                },
                Some(ch) => {
                    if ch == '\\' && self.peek_at_is(1, '\\') {
                        let tok = self.lex_multiline_string()?;
                        let st = self.make_token(tok, line, col);
                        proof {
                            lemma_token_here(src, here, here, st);
                            lemma_token_here(
                                src,
                                self.pos as int,
                                self.pos as int,
                                SpannedToken { token: Token::Newline, line: self.line, col: self.col },
                            );
                        }
                        let ghost before = tokens@;
                        tokens.push(st);
                        proof {
                            lemma_state_push(src, before, spans, here, self.pos as int, line as int, col as int, last_was_newline, st, self.line as int, self.col as int);
                            assert(before.push(st) =~= tokens@);
                            spans = spans.push((here, self.pos as int));
                        }
                        let nl = self.make_token(Token::Newline, self.line, self.col);
                        let ghost before2 = tokens@;
                        tokens.push(nl);
                        proof {
                            lemma_state_push(src, before2, spans, self.pos as int, self.pos as int, self.line as int, self.col as int, false, nl, self.line as int, self.col as int);
                            assert(before2.push(nl) =~= tokens@);
                            spans = spans.push((self.pos as int, self.pos as int));
                        }
                        last_was_newline = true;
                        continue;
                    }
                    let tok = self.lex_token(ch)?;
                    proof {
                        lemma_token_here(src, here, self.pos as int, tok);
                    }
                    let ghost before = tokens@;
                    tokens.push(tok);
                    proof {
                        lemma_state_push(src, before, spans, here, self.pos as int, line as int, col as int, last_was_newline, tok, self.line as int, self.col as int);
                        assert(before.push(tok) =~= tokens@);
                        spans = spans.push((here, self.pos as int));
                    }
                    last_was_newline = false;
                },
            }
        }
    }

    /// Whether a line break here ends the statement: the last token does not
    /// ask for more, and the next line does not go on with `.`.
    fn statement_ends_here(&self, tokens: &Vec<SpannedToken>) -> (r: bool)
        requires
            self.wf(),
        ensures
            r == line_break_ends(self.chars@, self.pos as int, tokens@),
    {
        let last = if tokens.len() > 0 {
            Some(&tokens[tokens.len() - 1])
        } else {
            None
        };
        let r = !Self::continues_on_next_line(last) && !self.next_line_continues();
        proof {
            reveal(line_break_ends);
        }
        r
    }

    /// Whether a line break after this token continues the statement.
    fn continues_on_next_line(last: Option<&SpannedToken>) -> (r: bool)
        ensures
            r == (match last {
                None => false,
                Some(st) => continues_line(st.token),
            }),
    {
        match last {
            None => false,
            Some(st) => match st.token {
                Token::Plus | Token::Minus | Token::Star | Token::Slash | Token::Percent
                | Token::StarStar | Token::Ampersand | Token::Pipe | Token::Caret | Token::Tilde
                | Token::ShiftLeft | Token::ShiftRight | Token::AmpAmp | Token::PipePipe
                | Token::EqEq | Token::BangEq | Token::Lt | Token::LtEq | Token::Gt
                | Token::GtEq | Token::DotDot | Token::Eq | Token::Arrow | Token::FatArrow
                | Token::Comma | Token::Dot | Token::Colon | Token::LParen | Token::LBracket
                | Token::LBrace => true,
                _ => false,
            },
        }
    }

    /// Whether the next character after blanks and line breaks is `.`, so
    /// that the next line continues this one (method chaining).
    fn next_line_continues(&self) -> (r: bool)
        requires
            self.wf(),
        ensures
            r == exists|i: int|
                self.pos <= i < self.chars@.len() && self.chars@[i] == '.' && forall|j: int|
                    self.pos <= j < i ==> #[trigger] is_blank_or_break(self.chars@[j]),
    {
        let mut i = self.pos;
        while i < self.chars.len()
            invariant
                self.pos <= i <= self.chars@.len(),
                forall|j: int| self.pos <= j < i ==> #[trigger] is_blank_or_break(self.chars@[j]),
            decreases self.chars.len() - i,
        {
            let ch = self.chars[i];
            if ch == ' ' || ch == '\t' || ch == '\r' || ch == '\n' {
                i += 1;
            } else {
                let r = ch == '.';
                proof {
                    if !r {
                        assert forall|k: int|
                            self.pos <= k < self.chars@.len() && self.chars@[k] == '.' implies
                            !(forall|j: int| self.pos <= j < k ==> #[trigger] is_blank_or_break(self.chars@[j]))
                        by {
                            if k > i {
                                assert(!is_blank_or_break(self.chars@[i as int]));
                            } else if k < i {
                                assert(is_blank_or_break(self.chars@[k]));
                            }
                        }
                    } else {
                        assert(self.chars@[i as int] == '.');
                    }
                }
                return r;
            }
        }
        proof {
            assert forall|k: int|
                self.pos <= k < self.chars@.len() && self.chars@[k] == '.' implies
                !(forall|j: int| self.pos <= j < k ==> #[trigger] is_blank_or_break(self.chars@[j]))
            by {
                assert(is_blank_or_break(self.chars@[k]));
            }
        }
        false
    }

    fn skip_whitespace_not_newline(&mut self)
        requires
            old(self).wf(),
        ensures
            final(self).moved_on(old(self)),
            final(self).pos < final(self).chars@.len() ==> !is_blank(
                final(self).chars@[final(self).pos as int],
            ),
            old(self).pos < old(self).chars@.len() && !is_blank(old(self).chars@[old(self).pos as int]) ==> final(self).pos
                == old(self).pos,
            forall|j: int| old(self).pos <= j < final(self).pos ==> is_blank(#[trigger] final(self).chars@[j]),
    {
        loop
            invariant
                self.moved_on(old(self)),
                forall|j: int| old(self).pos <= j < self.pos ==> is_blank(#[trigger] self.chars@[j]),
            ensures
                self.moved_on(old(self)),
                forall|j: int| old(self).pos <= j < self.pos ==> is_blank(#[trigger] self.chars@[j]),
                self.pos < self.chars@.len() ==> !is_blank(self.chars@[self.pos as int]),
            decreases self.rest(),
        {
            match self.peek() {
                Some(ch) => {
                    if ch == ' ' || ch == '\t' || ch == '\r' {
                        self.advance();
                    } else {
                        break;
                    }
                },
                None => break,
            }
        }
    }

    fn skip_line_comment(&mut self)
        requires
            old(self).wf(),
            old(self).pos < old(self).chars@.len(),
            old(self).chars@[old(self).pos as int] != '\n',
        ensures
            final(self).moved_on(old(self)),
            final(self).pos > old(self).pos,
            forall|t: int| old(self).pos <= t < final(self).pos ==> #[trigger] final(self).chars@[t] != '\n',
    {
        loop
            invariant
                self.moved_on(old(self)),
                self.pos == old(self).pos ==> self.pos < self.chars@.len()
                    && self.chars@[self.pos as int] != '\n',
                forall|t: int| old(self).pos <= t < self.pos ==> #[trigger] self.chars@[t] != '\n',
            ensures
                self.moved_on(old(self)),
                self.pos > old(self).pos,
                forall|t: int| old(self).pos <= t < self.pos ==> #[trigger] self.chars@[t] != '\n',
            decreases self.rest(),
        {
            match self.peek() {
                Some(ch) => {
                    if ch == '\n' {
                        break;
                    }
                    self.advance();
                },
                None => break,
            }
        }
    }

    /// Lexes one token starting at `ch`, the current character.
    fn lex_token(&mut self, ch: char) -> (r: Result<SpannedToken, CompileError>)
        requires
            old(self).wf(),
            old(self).pos < old(self).chars@.len(),
            old(self).chars@[old(self).pos as int] == ch,
        ensures
            final(self).moved_on(old(self)),
            r matches Ok(t) ==> {
                &&& final(self).pos > old(self).pos
                &&& is_lexeme(t.token)
                &&& t.line == old(self).line
                &&& t.col == old(self).col
                &&& lexeme_text(t.token, final(self).chars@.subrange(old(self).pos as int, final(self).pos as int))
                &&& quoted_text(old(self).chars@, old(self).pos as int, t.token)
                &&& word_ends(final(self).chars@, old(self).pos as int, final(self).pos as int)
            },
            plain_source(old(self).chars@) && !is_blank_or_break(ch) ==> r is Ok,
        decreases old(self).rest(), 2int,
    {
        let line = self.line;
        let col = self.col;
        let ghost start = self.pos as int;
        if ch == '"' {
            let tok = self.lex_string()?;
            return Ok(self.make_token(tok, line, col));
        }
        if '0' <= ch && ch <= '9' {
            let tok = self.lex_number()?;
            return Ok(self.make_token(tok, line, col));
        }
        if ('a' <= ch && ch <= 'z') || ch == '_' {
            let ghost p0 = self.pos as int;
            let tr = self.lex_identifier();
            proof {
                if plain_source(self.chars@) && tr is Err {
                    reveal_strlit("async");
                    reveal_strlit("await");
                    let word = self.chars@.subrange(p0, self.pos as int);
                    assert(word.len() == 5);
                    assert(self.chars@.subrange(p0, p0 + 5) =~= word);
                }
            }
            let tok = tr?;
            return Ok(self.make_token(tok, line, col));
        }
        if 'A' <= ch && ch <= 'Z' {
            let tok = self.lex_type_identifier();
            return Ok(self.make_token(tok, line, col));
        }
        let tok = match ch {
            '+' => {
                self.advance();
                Token::Plus
            },
            '-' => {
                self.advance();
                if self.peek_is('>') {
                    self.advance();
                    Token::Arrow
                } else {
                    Token::Minus
                }
            },
            '*' => {
                self.advance();
                if self.peek_is('*') {
                    self.advance();
                    Token::StarStar
                } else {
                    Token::Star
                }
            },
            '/' => {
                self.advance();
                Token::Slash
            },
            '%' => {
                self.advance();
                Token::Percent
            },
            '&' => {
                self.advance();
                if self.peek_is('&') {
                    self.advance();
                    Token::AmpAmp
                } else {
                    Token::Ampersand
                }
            },
            '|' => {
                self.advance();
                if self.peek_is('|') {
                    self.advance();
                    Token::PipePipe
                } else {
                    Token::Pipe
                }
            },
            '^' => {
                self.advance();
                Token::Caret
            },
            '~' => {
                self.advance();
                Token::Tilde
            },
            '!' => {
                self.advance();
                if self.peek_is('=') {
                    self.advance();
                    Token::BangEq
                } else {
                    Token::Bang
                }
            },
            '=' => {
                self.advance();
                if self.peek_is('=') {
                    self.advance();
                    Token::EqEq
                } else if self.peek_is('>') {
                    self.advance();
                    Token::FatArrow
                } else {
                    Token::Eq
                }
            },
            '<' => {
                self.advance();
                if self.peek_is('=') {
                    self.advance();
                    Token::LtEq
                } else if self.peek_is('<') {
                    self.advance();
                    Token::ShiftLeft
                } else {
                    Token::Lt
                }
            },
            '>' => {
                self.advance();
                if self.peek_is('=') {
                    self.advance();
                    Token::GtEq
                } else if self.peek_is('>') {
                    self.advance();
                    Token::ShiftRight
                } else {
                    Token::Gt
                }
            },
            '?' => {
                self.advance();
                Token::Question
            },
            '(' => {
                self.advance();
                Token::LParen
            },
            ')' => {
                self.advance();
                Token::RParen
            },
            '{' => {
                self.advance();
                Token::LBrace
            },
            '}' => {
                self.advance();
                Token::RBrace
            },
            '[' => {
                self.advance();
                Token::LBracket
            },
            ']' => {
                self.advance();
                Token::RBracket
            },
            '.' => {
                self.advance();
                if self.peek_is('.') {
                    self.advance();
                    Token::DotDot
                } else {
                    Token::Dot
                }
            },
            ',' => {
                self.advance();
                Token::Comma
            },
            ':' => {
                self.advance();
                Token::Colon
            },
            _ => {
                let mut msg = String::from_str("unexpected character '");
                push_char(&mut msg, ch);
                push_char(&mut msg, '\'');
                return Err(CompileError::new(msg, Span::new(line as u32, col as u32)));
            },
        };
        proof {
            assert(self.chars@.subrange(start, self.pos as int) =~= symbol_text(tok)->0);
        }
        Ok(self.make_token(tok, line, col))
    }

    /// Consumes characters while `pred` holds; the predicate is chosen by `kind`:
    /// 0 = decimal digit or `_`, 1 = hex digit or `_`, 2 = `0`/`1` or `_`,
    /// 3 = identifier character.
    fn scan_while(&mut self, kind: u8) -> (r: usize)
        requires
            old(self).wf(),
        ensures
            final(self).moved_on(old(self)),
            r == old(self).pos,
            forall|j: int| old(self).pos <= j < final(self).pos ==> #[trigger] scan_class(
                kind,
                final(self).chars@[j],
            ),
            final(self).pos < final(self).chars@.len() ==> !scan_class(
                kind,
                final(self).chars@[final(self).pos as int],
            ),
    {
        let start = self.pos;
        loop
            invariant
                self.moved_on(old(self)),
                start == old(self).pos,
                forall|j: int| start <= j < self.pos ==> #[trigger] scan_class(kind, self.chars@[j]),
            ensures
                self.moved_on(old(self)),
                forall|j: int| start <= j < self.pos ==> #[trigger] scan_class(kind, self.chars@[j]),
                self.pos < self.chars@.len() ==> !scan_class(kind, self.chars@[self.pos as int]),
            decreases self.rest(),
        {
            let ch = match self.peek() {
                Some(c) => c,
                None => break,
            };
            let ok = if kind == 0 {
                ('0' <= ch && ch <= '9') || ch == '_'
            } else if kind == 1 {
                ('0' <= ch && ch <= '9') || ('a' <= ch && ch <= 'f') || ('A' <= ch && ch <= 'F')
                    || ch == '_'
            } else if kind == 2 {
                ch == '0' || ch == '1' || ch == '_'
            } else {
                ('0' <= ch && ch <= '9') || ('a' <= ch && ch <= 'z') || ('A' <= ch && ch <= 'Z')
                    || ch == '_'
            };
            if ok {
                self.advance();
            } else {
                break;
            }
        }
        start
    }

    fn lex_number(&mut self) -> (r: Result<Token, CompileError>)
        requires
            old(self).wf(),
            old(self).pos < old(self).chars@.len(),
            is_dec_digit(old(self).chars@[old(self).pos as int]),
        ensures
            final(self).moved_on(old(self)),
            r is Ok ==> final(self).pos > old(self).pos,
            r matches Ok(t) ==> (t is IntLit || t is FloatLit),
            r matches Ok(Token::IntLit(v)) ==> v >= 0 && v == int_text_value(
                final(self).chars@.subrange(old(self).pos as int, final(self).pos as int),
            ),
            r matches Ok(Token::FloatLit(s)) ==> float_text_ok(s@) && s@ == strip_underscores(
                final(self).chars@.subrange(old(self).pos as int, final(self).pos as int),
            ),
            plain_int_at(old(self).chars@, old(self).pos as int) ==> (r matches Ok(t) && t is IntLit && final(self).pos
                == dec_run_end(old(self).chars@, old(self).pos as int)),
    {
        let start = self.pos;
        if self.peek_is('0') {
            if self.peek_at_is(1, 'x') || self.peek_at_is(1, 'X') {
                self.advance();
                self.advance();
                let hex_start = self.scan_while(1);
                if self.pos == hex_start {
                    return Err(CompileError::new(String::from_str("expected hex digit"), self.span_here()));
                }
                let end = self.pos;
                proof {
                    assert forall|j: int| hex_start <= j < end implies #[trigger] is_hex_digit(self.chars@[j]) || self.chars@[j] == '_' by {
                        assert(scan_class(1, self.chars@[j]));
                    }
                    assert forall|j: int| hex_start <= j < end && self.chars@[j] != '_' implies #[trigger] digit_value(self.chars@[j]) < 16 by {
                        assert(scan_class(1, self.chars@[j]));
                    }
                }
                assert(self.chars@.subrange(start as int, end as int).skip(2) =~= self.chars@.subrange(
                    hex_start as int,
                    end as int,
                ));
                return match parse_digits(&self.chars, hex_start, end, 16) {
                    Ok(v) => Ok(Token::IntLit(v)),
                    Err(reason) => {
                        let msg = cat2("invalid hex literal: ", reason);
                        Err(CompileError::new(msg, self.span_here()))
                    },
                };
            }
            if self.peek_at_is(1, 'b') || self.peek_at_is(1, 'B') {
                self.advance();
                self.advance();
                let bin_start = self.scan_while(2);
                if self.pos == bin_start {
                    return Err(CompileError::new(String::from_str("expected binary digit"), self.span_here()));
                }
                let end = self.pos;
                proof {
                    assert forall|j: int| bin_start <= j < end implies #[trigger] is_hex_digit(self.chars@[j]) || self.chars@[j] == '_' by {
                        assert(scan_class(2, self.chars@[j]));
                    }
                    assert forall|j: int| bin_start <= j < end && self.chars@[j] != '_' implies #[trigger] digit_value(self.chars@[j]) < 2 by {
                        assert(scan_class(2, self.chars@[j]));
                    }
                }
                assert(self.chars@.subrange(start as int, end as int).skip(2) =~= self.chars@.subrange(
                    bin_start as int,
                    end as int,
                ));
                return match parse_digits(&self.chars, bin_start, end, 2) {
                    Ok(v) => Ok(Token::IntLit(v)),
                    Err(reason) => {
                        let msg = cat2("invalid binary literal: ", reason);
                        Err(CompileError::new(msg, self.span_here()))
                    },
                };
            }
        }
        self.scan_while(0);
        let digits_end = self.pos;
        proof {
            lemma_dec_run_end(self.chars@, start as int, digits_end as int);
            lemma_strip_keeps_digit(self.chars@.subrange(start as int, digits_end as int));
            assert forall|j: int| start <= j < digits_end implies #[trigger] is_hex_digit(self.chars@[j]) || self.chars@[j] == '_' by {
                assert(scan_class(0, self.chars@[j]));
            }
            assert forall|j: int| start <= j < digits_end && self.chars@[j] != '_' implies #[trigger] digit_value(self.chars@[j]) < 10 by {
                assert(scan_class(0, self.chars@[j]));
            }
        }
        let mut is_float = false;
        if self.peek_is('.') && !self.peek_at_is(1, '.') {
            if let Some(c) = self.peek_at(1) {
                if '0' <= c && c <= '9' {
                    self.advance();
                    self.scan_while(0);
                    is_float = true;
                }
            }
        }
        let mut has_exp = false;
        if self.peek_is('e') || self.peek_is('E') {
            self.advance();
            if self.peek_is('+') || self.peek_is('-') {
                self.advance();
            }
            self.scan_while(0);
            has_exp = true;
        }
        let end = self.pos;
        let text = without_underscores(&self.chars, start, end);
        if is_float || has_exp {
            if float_text_valid(&text) {
                Ok(Token::FloatLit(text))
            } else {
                let msg = cat3("invalid float literal '", text.as_str(), "': invalid float literal");
                Err(CompileError::new(msg, self.span_here()))
            }
        } else {
            match parse_digits(&self.chars, start, digits_end, 10) {
                Ok(v) => Ok(Token::IntLit(v)),
                Err(reason) => {
                    let msg = cat4("invalid integer literal '", text.as_str(), "': ", reason);
                    Err(CompileError::new(msg, self.span_here()))
                },
            }
        }
    }

    fn lex_string(&mut self) -> (r: Result<Token, CompileError>)
        requires
            old(self).wf(),
            old(self).pos < old(self).chars@.len(),
            old(self).chars@[old(self).pos as int] == '"',
        ensures
            final(self).moved_on(old(self)),
            final(self).pos > old(self).pos,
            r matches Ok(t) ==> (t is StringLit || t is InterpolatedString),
            r matches Ok(Token::StringLit(s)) ==> literal_text(old(self).chars@, old(self).pos + 1) == Some(s@),
            literal_text(old(self).chars@, old(self).pos + 1) matches Some(s) ==> (r matches Ok(
                Token::StringLit(t),
            ) && t@ == s),
        decreases old(self).rest(), 1int,
    {
        self.advance();
        let ghost start = self.pos as int;
        let mut parts: Vec<StringPart> = Vec::new();
        let mut current = String::new();
        loop
            invariant_except_break
                parts@.len() == 0 ==> literal_text(self.chars@, start) == match literal_text(self.chars@, self.pos as int) {
                    Some(rest) => Some(current@ + rest),
                    None => None,
                },
            invariant
                self.moved_on(old(self)),
                self.pos > old(self).pos,
                start == old(self).pos + 1,
                parts@.len() > 0 ==> literal_text(self.chars@, start) is None,
            ensures
                parts@.len() == 0 ==> literal_text(self.chars@, start) == Some(current@),
            decreases self.rest(),
        {
            let ghost p = self.pos as int;
            let ghost before = current@;
            match self.peek() {
                None => {
                    return Err(CompileError::new(String::from_str("unterminated string"), self.span_here()));
                },
                Some('"') => {
                    self.advance();
                    assert(current@ + Seq::<char>::empty() =~= current@);
                    break;
                },
                Some('\\') => {
                    self.advance();
                    match self.peek() {
                        Some('(') => {
                            assert(literal_text(self.chars@, p) is None);
                            self.advance();
                            if current.unicode_len() > 0 {
                                let lit = current;
                                current = String::new();
                                parts.push(StringPart::Literal(lit));
                            }
                            let expr_tokens = self.lex_interpolation_expr()?;
                            parts.push(StringPart::Expr(expr_tokens));
                        },
                        Some(c) => {
                            match escape_to_char(c) {
                                Some(e) => {
                                    self.advance();
                                    push_char(&mut current, e);
                                    proof {
                                        match literal_text(self.chars@, self.pos as int) {
                                            Some(rest) => {
                                                assert(current@ + rest =~= before + (seq![e] + rest));
                                            },
                                            None => {},
                                        }
                                    }
                                },
                                None => {
                                    let mut msg = String::from_str("unknown escape sequence '\\");
                                    push_char(&mut msg, c);
                                    push_char(&mut msg, '\'');
                                    return Err(CompileError::new(msg, self.span_here()));
                                },
                            }
                        },
                        None => {
                            return Err(CompileError::new(String::from_str("unterminated escape"), self.span_here()));
                        },
                    }
                },
                Some(ch) => {
                    self.advance();
                    push_char(&mut current, ch);
                    proof {
                        match literal_text(self.chars@, self.pos as int) {
                            Some(rest) => {
                                assert(current@ + rest =~= before + (seq![ch] + rest));
                            },
                            None => {},
                        }
                    }
                },
            }
        }
        if parts.len() == 0 {
            Ok(Token::StringLit(current))
        } else {
            if current.unicode_len() > 0 {
                parts.push(StringPart::Literal(current));
            }
            Ok(Token::InterpolatedString(parts))
        }
    }

    /// Lexes the tokens of an interpolation `\(...)` up to its closing `)`.
    fn lex_interpolation_expr(&mut self) -> (r: Result<Vec<Token>, CompileError>)
        requires
            old(self).wf(),
        ensures
            final(self).moved_on(old(self)),
            r is Ok ==> final(self).pos > old(self).pos && final(self).chars@[final(self).pos - 1] == ')',
            old(self).pos < old(self).chars@.len() && old(self).chars@[old(self).pos as int] == ')' ==> (r matches Ok(v)
                && v@.len() == 0 && final(self).pos == old(self).pos + 1),
        decreases old(self).rest(), 3int,
    {
        let mut tokens: Vec<Token> = Vec::new();
        let mut paren_depth: usize = 1;
        loop
            invariant_except_break
                paren_depth >= 1,
                paren_depth <= self.pos - old(self).pos + 1,
                old(self).pos < old(self).chars@.len() && old(self).chars@[old(self).pos as int] == ')' ==> tokens@.len() == 0
                    && self.pos == old(self).pos && paren_depth == 1,
            invariant
                self.moved_on(old(self)),
            ensures
                self.moved_on(old(self)),
                self.pos > old(self).pos && self.chars@[self.pos - 1] == ')',
                old(self).pos < old(self).chars@.len() && old(self).chars@[old(self).pos as int] == ')' ==> tokens@.len() == 0
                    && self.pos == old(self).pos + 1,
            decreases self.rest(),
        {
            self.skip_whitespace_not_newline();
            match self.peek() {
                None => {
                    return Err(CompileError::new(String::from_str("unterminated string interpolation"), self.span_here()));
                },
                Some('(') => {
                    paren_depth += 1;
                    self.advance();
                    tokens.push(Token::LParen);
                },
                Some(')') => {
                    paren_depth -= 1;
                    if paren_depth == 0 {
                        self.advance();
                        break;
                    }
                    self.advance();
                    tokens.push(Token::RParen);
                },
                Some(ch) => {
                    let tok = self.lex_token(ch)?;
                    tokens.push(tok.token);
                },
            }
        }
        Ok(tokens)
    }

    /// Lexes consecutive `\\` lines into one string, joined by newlines.
    fn lex_multiline_string(&mut self) -> (r: Result<Token, CompileError>)
        requires
            old(self).wf(),
            old(self).pos + 1 < old(self).chars@.len(),
            old(self).chars@[old(self).pos as int] == '\\',
            old(self).chars@[old(self).pos + 1] == '\\',
        ensures
            final(self).moved_on(old(self)),
            final(self).pos > old(self).pos,
            r matches Ok(t) ==> t is StringLit,
    {
        let mut result = String::new();
        let mut first = true;
        loop
            invariant
                self.moved_on(old(self)),
                first ==> self.pos == old(self).pos,
                !first ==> self.pos > old(self).pos,
                old(self).pos + 1 < old(self).chars@.len(),
                old(self).chars@[old(self).pos as int] == '\\',
                old(self).chars@[old(self).pos + 1] == '\\',
            ensures
                self.moved_on(old(self)),
                self.pos > old(self).pos,
            decreases self.rest(),
        {
            if self.peek_is('\\') && self.peek_at_is(1, '\\') {
                let ghost iter_start = self.pos;
                self.advance();
                self.advance();
                if !first {
                    push_char(&mut result, '\n');
                }
                first = false;
                loop
                    invariant
                        self.moved_on(old(self)),
                        self.pos > old(self).pos,
                        self.pos > iter_start,
                    ensures
                        self.moved_on(old(self)),
                        self.pos > old(self).pos,
                        self.pos > iter_start,
                    decreases self.rest(),
                {
                    let ch = match self.peek() {
                        Some(c) => c,
                        None => break,
                    };
                    if ch == '\n' {
                        self.advance();
                        break;
                    }
                    if ch == '\r' {
                        self.advance();
                        if self.peek_is('\n') {
                            self.advance();
                        }
                        break;
                    }
                    self.advance();
                    push_char(&mut result, ch);
                }
                self.skip_whitespace_not_newline();
                if !(self.peek_is('\\') && self.peek_at_is(1, '\\')) {
                    break;
                }
            } else {
                break;
            }
        }
        Ok(Token::StringLit(result))
    }

    fn lex_identifier(&mut self) -> (r: Result<Token, CompileError>)
        requires
            old(self).wf(),
            old(self).pos < old(self).chars@.len(),
            is_ident_char(old(self).chars@[old(self).pos as int]),
        ensures
            final(self).moved_on(old(self)),
            final(self).pos > old(self).pos,
            forall|j: int| old(self).pos <= j < final(self).pos ==> #[trigger] is_ident_char(
                final(self).chars@[j],
            ),
            final(self).pos < final(self).chars@.len() ==> !is_ident_char(
                final(self).chars@[final(self).pos as int],
            ),
            ({
                let word = final(self).chars@.subrange(old(self).pos as int, final(self).pos as int);
                &&& r is Err <==> is_reserved_word(word)
                &&& r matches Ok(t) ==> match keyword_token(word) {
                    Some(k) => t == k,
                    None => t matches Token::Ident(s) && s@ == word,
                }
            }),
    {
        let start = self.scan_while(3);
        let end = self.pos;
        proof {
            assert forall|j: int| start <= j < end implies #[trigger] is_ident_char(self.chars@[j]) by {
                assert(scan_class(3, self.chars@[j]));
            }
        }
        let v = &self.chars;
        if range_eq_str(v, start, end, "async") || range_eq_str(v, start, end, "await") {
            let word = string_of_range(v, start, end);
            let msg = cat3("'", word.as_str(), "' is reserved for future use");
            return Err(CompileError::new(msg, self.span_here()));
        }
        let token = if range_eq_str(v, start, end, "let") { Token::Let }
        else if range_eq_str(v, start, end, "mut") { Token::Mut }
        else if range_eq_str(v, start, end, "fn") { Token::Fn }
        else if range_eq_str(v, start, end, "return") { Token::Return }
        else if range_eq_str(v, start, end, "if") { Token::If }
        else if range_eq_str(v, start, end, "else") { Token::Else }
        else if range_eq_str(v, start, end, "match") { Token::Match }
        else if range_eq_str(v, start, end, "for") { Token::For }
        else if range_eq_str(v, start, end, "in") { Token::In }
        else if range_eq_str(v, start, end, "while") { Token::While }
        else if range_eq_str(v, start, end, "loop") { Token::Loop }
        else if range_eq_str(v, start, end, "break") { Token::Break }
        else if range_eq_str(v, start, end, "continue") { Token::Continue }
        else if range_eq_str(v, start, end, "type") { Token::Type }
        else if range_eq_str(v, start, end, "guard") { Token::Guard }
        else if range_eq_str(v, start, end, "import") { Token::Import }
        else if range_eq_str(v, start, end, "as") { Token::As }
        else if range_eq_str(v, start, end, "is") { Token::Is }
        else if range_eq_str(v, start, end, "true") { Token::True }
        else if range_eq_str(v, start, end, "false") { Token::False }
        else if range_eq_str(v, start, end, "nil") { Token::Nil }
        else { Token::Ident(string_of_range(v, start, end)) };
        Ok(token)
    }

    fn lex_type_identifier(&mut self) -> (t: Token)
        requires
            old(self).wf(),
            old(self).pos < old(self).chars@.len(),
            is_ident_char(old(self).chars@[old(self).pos as int]),
        ensures
            final(self).moved_on(old(self)),
            final(self).pos > old(self).pos,
            forall|j: int| old(self).pos <= j < final(self).pos ==> #[trigger] is_ident_char(
                final(self).chars@[j],
            ),
            final(self).pos < final(self).chars@.len() ==> !is_ident_char(
                final(self).chars@[final(self).pos as int],
            ),
            t matches Token::TypeIdent(s) && s@ == final(self).chars@.subrange(
                old(self).pos as int,
                final(self).pos as int,
            ),
    {
        let start = self.scan_while(3);
        proof {
            assert forall|j: int| start <= j < self.pos implies #[trigger] is_ident_char(self.chars@[j]) by {
                assert(scan_class(3, self.chars@[j]));
            }
        }
        Token::TypeIdent(string_of_range(&self.chars, start, self.pos))
    }
}

pub open spec fn is_blank(c: char) -> bool {
    c == ' ' || c == '\t' || c == '\r'
}

pub open spec fn is_blank_or_break(c: char) -> bool {
    c == ' ' || c == '\t' || c == '\r' || c == '\n'
}

/// The character classes that `scan_while` accepts.
pub open spec fn scan_class(kind: u8, c: char) -> bool {
    if kind == 0 {
        is_dec_digit(c) || c == '_'
    } else if kind == 1 {
        is_hex_digit(c) || c == '_'
    } else if kind == 2 {
        c == '0' || c == '1' || c == '_'
    } else {
        is_ident_char(c)
    }
}

fn escape_to_char(c: char) -> (r: Option<char>)
    ensures
        r == escape_char(c),
{
    if c == 'n' { Some('\n') }
    else if c == 't' { Some('\t') }
    else if c == 'r' { Some('\r') }
    else if c == '\\' { Some('\\') }
    else if c == '"' { Some('"') }
    else if c == '0' { Some('\0') }
    else if c == 'e' { Some('\x1B') }
    else { None }
}

/// The text `v[from..to]` without its `_` separators.
fn without_underscores(v: &Vec<char>, from: usize, to: usize) -> (s: String)
    requires
        from <= to <= v@.len(),
    ensures
        s@ == strip_underscores(v@.subrange(from as int, to as int)),
{
    let mut s = String::new();
    let mut i = from;
    while i < to
        invariant
            from <= i <= to <= v@.len(),
            s@ == strip_underscores(v@.subrange(from as int, i as int)),
        decreases to - i,
    {
        assert(v@.subrange(from as int, i + 1).drop_last() =~= v@.subrange(from as int, i as int));
        if v[i] != '_' {
            push_char(&mut s, v[i]);
        }
        i += 1;
    }
    s
}

/// Whether a float literal's text reads as an `f64` (see `float_text_ok`).
fn float_text_valid(s: &String) -> (r: bool)
    ensures
        r == float_text_ok(s@),
{
    let t = chars_of(s.as_str());
    let n = t.len();
    let mut i: usize = 0;
    while i < n
        invariant
            n == t@.len(),
            t@ == s@,
            i <= n,
            forall|k: int| 0 <= k < i ==> #[trigger] exponent_ok_at(t@, k),
        decreases n - i,
    {
        if t[i] == 'e' || t[i] == 'E' {
            let ok1 = n - i > 1 && '0' <= t[i + 1] && t[i + 1] <= '9';
            let ok2 = n - i > 2 && (t[i + 1] == '+' || t[i + 1] == '-') && '0' <= t[i + 2] && t[i + 2] <= '9';
            if !ok1 && !ok2 {
                assert(!exponent_ok_at(t@, i as int));
                return false;
            }
        }
        i += 1;
    }
    true
}

fn char_digit_value(c: char) -> (d: u32)
    requires
        is_hex_digit(c),
    ensures
        d == digit_value(c),
        d < 16,
{
    if '0' <= c && c <= '9' {
        (c as u32) - ('0' as u32)
    } else if 'a' <= c && c <= 'f' {
        (c as u32) - ('a' as u32) + 10
    } else {
        (c as u32) - ('A' as u32) + 10
    }
}

/// Reads the digits `v[from..to]` (with `_` separators skipped) in the given
/// base as a non-negative `i128`. Fails, with the reason `str::parse` gives,
/// when no digit is left or the number does not fit.
fn parse_digits(v: &Vec<char>, from: usize, to: usize, radix: u32) -> (r: Result<i128, &'static str>)
    requires
        from <= to <= v@.len(),
        radix == 2 || radix == 10 || radix == 16,
        forall|j: int| from <= j < to ==> #[trigger] is_hex_digit(v@[j]) || v@[j] == '_',
        forall|j: int|
            from <= j < to && v@[j] != '_' ==> #[trigger] digit_value(v@[j]) < radix,
    ensures
        ({
            let ds = strip_underscores(v@.subrange(from as int, to as int));
            &&& r matches Ok(n) ==> ds.len() > 0 && n == radix_value(ds, radix as nat)
            &&& r matches Err(m) ==> {
                ||| ds.len() == 0 && m@ == "cannot parse integer from empty string"@
                ||| ds.len() > 0 && radix_value(ds, radix as nat) > i128::MAX && m@
                    == "number too large to fit in target type"@
            }
            &&& ds.len() > 0 && radix_value(ds, radix as nat) <= i128::MAX ==> r is Ok
        }),
{
    let ghost s = v@.subrange(from as int, to as int);
    let mut acc: i128 = 0;
    let mut seen = false;
    let mut i = from;
    while i < to
        invariant
            from <= i <= to <= v@.len(),
            radix == 2 || radix == 10 || radix == 16,
            s == v@.subrange(from as int, to as int),
            forall|j: int| from <= j < to ==> #[trigger] is_hex_digit(v@[j]) || v@[j] == '_',
            forall|j: int|
                from <= j < to && v@[j] != '_' ==> #[trigger] digit_value(v@[j]) < radix,
            acc >= 0,
            acc == radix_value(strip_underscores(v@.subrange(from as int, i as int)), radix as nat),
            seen == (strip_underscores(v@.subrange(from as int, i as int)).len() > 0),
        decreases to - i,
    {
        assert(v@.subrange(from as int, i + 1).drop_last() =~= v@.subrange(from as int, i as int));
        let c = v[i];
        if c != '_' {
            let d = char_digit_value(c);
            proof {
                let a = strip_underscores(v@.subrange(from as int, i as int));
                assert(v@.subrange(from as int, i + 1).last() == c);
                assert(a.push(c).drop_last() =~= a);
            }
            assert(digit_value(v@[i as int]) < radix);
            let next = match acc.checked_mul(radix as i128) {
                Some(m) => m.checked_add(d as i128),
                None => None,
            };
            match next {
                Some(n) => {
                    acc = n;
                    seen = true;
                },
                None => {
                    proof {
                        assert(s =~= v@.subrange(0, to as int).subrange(from as int, to as int));
                        let w = v@.subrange(from as int, to as int);
                        assert(w.subrange(0, (i + 1 - from) as int) =~= v@.subrange(from as int, i + 1));
                        assert(w.subrange(0, w.len() as int) =~= w);
                        lemma_radix_value_grows(w, (i + 1 - from) as int, w.len() as int, radix as nat);
                        assert(acc * radix + d > i128::MAX);
                    }
                    return Err("number too large to fit in target type");
                },
            }
        }
        i += 1;
    }
    if !seen {
        return Err("cannot parse integer from empty string");
    }
    Ok(acc)
}

} // verus!
