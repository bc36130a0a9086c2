use basalt_core::lexer::{lex, StringPart, Token};

fn tok(source: &str) -> Vec<Token> {
    let tokens = lex(source).unwrap();
    tokens.into_iter().map(|st| st.token).collect()
}

fn tok_no_newlines(source: &str) -> Vec<Token> {
    tok(source)
        .into_iter()
        .filter(|t| !matches!(t, Token::Newline | Token::Eof))
        .collect()
}

fn is_ident(t: &Token, name: &str) -> bool {
    matches!(t, Token::Ident(s) if s == name)
}

#[test]
fn test_integer_literals() {
    assert!(matches!(tok_no_newlines("42").as_slice(), [Token::IntLit(42)]));
    assert!(matches!(tok_no_newlines("0xFF").as_slice(), [Token::IntLit(255)]));
    assert!(matches!(tok_no_newlines("0b1010").as_slice(), [Token::IntLit(10)]));
    assert!(matches!(tok_no_newlines("0").as_slice(), [Token::IntLit(0)]));
}

#[test]
fn test_float_literals() {
    assert!(matches!(tok_no_newlines("3.14").as_slice(), [Token::FloatLit(s)] if s == "3.14" && s.parse::<f64>().unwrap() == 3.14));
    assert!(matches!(tok_no_newlines("1.0e10").as_slice(), [Token::FloatLit(s)] if s.parse::<f64>().unwrap() == 1.0e10));
    assert!(matches!(tok_no_newlines("2.5E-3").as_slice(), [Token::FloatLit(s)] if s.parse::<f64>().unwrap() == 2.5e-3));
}

#[test]
fn test_string_literal() {
    assert!(matches!(tok_no_newlines(r#""hello""#).as_slice(), [Token::StringLit(s)] if s == "hello"));
    assert!(matches!(tok_no_newlines(r#""line 1\nline 2""#).as_slice(), [Token::StringLit(s)] if s == "line 1\nline 2"));
    assert!(matches!(tok_no_newlines(r#""tab\there""#).as_slice(), [Token::StringLit(s)] if s == "tab\there"));
}

#[test]
fn lexer_test_string_interpolation() {
    let tokens = tok_no_newlines(r#""Hello, \(name)!""#);
    assert_eq!(tokens.len(), 1);
    match &tokens[0] {
        Token::InterpolatedString(parts) => {
            assert_eq!(parts.len(), 3);
            assert!(matches!(&parts[0], StringPart::Literal(s) if s == "Hello, "));
            assert!(matches!(&parts[1], StringPart::Expr(ts) if ts.len() == 1 && is_ident(&ts[0], "name")));
            assert!(matches!(&parts[2], StringPart::Literal(s) if s == "!"));
        }
        _ => panic!("expected InterpolatedString"),
    }
}

#[test]
fn test_keywords() {
    assert!(matches!(tok_no_newlines("let").as_slice(), [Token::Let]));
    assert!(matches!(tok_no_newlines("mut").as_slice(), [Token::Mut]));
    assert!(matches!(tok_no_newlines("fn").as_slice(), [Token::Fn]));
    assert!(matches!(tok_no_newlines("return").as_slice(), [Token::Return]));
    assert!(matches!(tok_no_newlines("if").as_slice(), [Token::If]));
    assert!(matches!(tok_no_newlines("else").as_slice(), [Token::Else]));
    assert!(matches!(tok_no_newlines("match").as_slice(), [Token::Match]));
    assert!(matches!(tok_no_newlines("for").as_slice(), [Token::For]));
    assert!(matches!(tok_no_newlines("in").as_slice(), [Token::In]));
    assert!(matches!(tok_no_newlines("while").as_slice(), [Token::While]));
    assert!(matches!(tok_no_newlines("loop").as_slice(), [Token::Loop]));
    assert!(matches!(tok_no_newlines("break").as_slice(), [Token::Break]));
    assert!(matches!(tok_no_newlines("continue").as_slice(), [Token::Continue]));
    assert!(matches!(tok_no_newlines("type").as_slice(), [Token::Type]));
    assert!(matches!(tok_no_newlines("guard").as_slice(), [Token::Guard]));
    assert!(matches!(tok_no_newlines("import").as_slice(), [Token::Import]));
    assert!(matches!(tok_no_newlines("as").as_slice(), [Token::As]));
    assert!(matches!(tok_no_newlines("is").as_slice(), [Token::Is]));
    assert!(matches!(tok_no_newlines("true").as_slice(), [Token::True]));
    assert!(matches!(tok_no_newlines("false").as_slice(), [Token::False]));
    assert!(matches!(tok_no_newlines("nil").as_slice(), [Token::Nil]));
}

#[test]
fn test_operators() {
    assert!(matches!(tok_no_newlines("+").as_slice(), [Token::Plus]));
    assert!(matches!(tok_no_newlines("**").as_slice(), [Token::StarStar]));
    assert!(matches!(tok_no_newlines("->").as_slice(), [Token::Arrow]));
    assert!(matches!(tok_no_newlines("=>").as_slice(), [Token::FatArrow]));
    assert!(matches!(tok_no_newlines("==").as_slice(), [Token::EqEq]));
    assert!(matches!(tok_no_newlines("!=").as_slice(), [Token::BangEq]));
    assert!(matches!(tok_no_newlines("<=").as_slice(), [Token::LtEq]));
    assert!(matches!(tok_no_newlines(">=").as_slice(), [Token::GtEq]));
    assert!(matches!(tok_no_newlines("<<").as_slice(), [Token::ShiftLeft]));
    assert!(matches!(tok_no_newlines(">>").as_slice(), [Token::ShiftRight]));
    assert!(matches!(tok_no_newlines("&&").as_slice(), [Token::AmpAmp]));
    assert!(matches!(tok_no_newlines("||").as_slice(), [Token::PipePipe]));
    assert!(matches!(tok_no_newlines("..").as_slice(), [Token::DotDot]));
}

#[test]
fn test_identifiers() {
    assert!(matches!(tok_no_newlines("foo").as_slice(), [Token::Ident(s)] if s == "foo"));
    assert!(matches!(tok_no_newlines("_bar").as_slice(), [Token::Ident(s)] if s == "_bar"));
    assert!(matches!(tok_no_newlines("Point").as_slice(), [Token::TypeIdent(s)] if s == "Point"));
    assert!(matches!(tok_no_newlines("Self").as_slice(), [Token::TypeIdent(s)] if s == "Self"));
}

#[test]
fn test_line_comment() {
    assert!(matches!(tok_no_newlines("42 // comment").as_slice(), [Token::IntLit(42)]));
}

#[test]
fn test_complex_expression() {
    let tokens = tok_no_newlines("let x = 42 + 3");
    assert!(matches!(
        tokens.as_slice(),
        [Token::Let, Token::Ident(x), Token::Eq, Token::IntLit(42), Token::Plus, Token::IntLit(3)] if x == "x"
    ));
}

#[test]
fn test_newlines_as_separators() {
    let tokens = tok("let x = 1\nlet y = 2\n");
    assert!(matches!(
        tokens.as_slice(),
        [
            Token::Let, Token::Ident(x), Token::Eq, Token::IntLit(1), Token::Newline,
            Token::Let, Token::Ident(y), Token::Eq, Token::IntLit(2), Token::Newline,
            Token::Eof,
        ] if x == "x" && y == "y"
    ));
}

#[test]
fn test_multiline_string() {
    let src = "    \\\\hello\n    \\\\world";
    let tokens = tok_no_newlines(src);
    assert!(matches!(tokens.as_slice(), [Token::StringLit(s)] if s == "hello\nworld"));
}

// --- further lexer behaviour ---

#[test]
fn lexer_reserved_words_are_errors() {
    let e = lex("let async = 1").err().unwrap();
    assert_eq!(e.message, "'async' is reserved for future use");
    assert!(lex("await").is_err());
}

#[test]
fn lexer_int_overflow_is_error() {
    let e = lex("170141183460469231731687303715884105728").err().unwrap();
    assert_eq!(
        e.message,
        "invalid integer literal '170141183460469231731687303715884105728': number too large to fit in target type"
    );
    assert!(matches!(tok_no_newlines("170141183460469231731687303715884105727").as_slice(), [Token::IntLit(v)] if *v == i128::MAX));
}

#[test]
fn lexer_underscores_and_empty_hex() {
    assert!(matches!(tok_no_newlines("1_000").as_slice(), [Token::IntLit(1000)]));
    assert!(matches!(tok_no_newlines("0xff_ff").as_slice(), [Token::IntLit(65535)]));
    let e = lex("0x__").err().unwrap();
    assert_eq!(e.message, "invalid hex literal: cannot parse integer from empty string");
    let e = lex("0x").err().unwrap();
    assert_eq!(e.message, "expected hex digit");
    let e = lex("0b2").err().unwrap();
    assert_eq!(e.message, "expected binary digit");
}

#[test]
fn lexer_bad_float_exponent() {
    let e = lex("1e+").err().unwrap();
    assert_eq!(e.message, "invalid float literal '1e+': invalid float literal");
    assert!(matches!(tok_no_newlines("1_0.5e1_0").as_slice(), [Token::FloatLit(s)] if s == "10.5e10"));
}

#[test]
fn lexer_unexpected_character_position() {
    let e = lex("let x = 1\n  @").err().unwrap();
    assert_eq!(e.message, "unexpected character '@'");
    assert_eq!(e.span.line, 2);
    assert_eq!(e.span.col, 3);
}

#[test]
fn lexer_string_errors() {
    assert_eq!(lex("\"abc").err().unwrap().message, "unterminated string");
    assert_eq!(lex("\"a\\q\"").err().unwrap().message, "unknown escape sequence '\\q'");
}

#[test]
fn lexer_continuation_suppresses_newline() {
    let tokens = tok("let x = 1 +\n 2\nfoo\n  .bar()");
    let newlines = tokens.iter().filter(|t| matches!(t, Token::Newline)).count();
    // one newline after "2"; the line starting with '.' continues "foo"
    assert_eq!(newlines, 2);
    assert!(matches!(tokens.last(), Some(Token::Eof)));
}

#[test]
fn lexer_empty_source_is_just_eof() {
    assert!(matches!(tok("").as_slice(), [Token::Eof]));
    assert!(matches!(tok("\n\n// c\n").as_slice(), [Token::Eof]));
}

#[test]
fn lexer_display_names() {
    assert_eq!(Token::RBrace.display_name(), "}");
    assert_eq!(Token::Eof.display_name(), "end of file");
    assert_eq!(Token::Plus.display_name(), "token");
}

#[test]
fn tokens_come_in_source_order() {
    let toks = lex("let x = 1\nfn  f(a: i64) {\n  return a\n}\n").unwrap();
    for w in toks.windows(2) {
        let (a, b) = (&w[0], &w[1]);
        assert!(a.line < b.line || (a.line == b.line && a.col <= b.col), "{:?} then {:?}", a, b);
    }
    assert_eq!(toks[0].line, 1);
    assert_eq!(toks[0].col, 1);
    // `fn` starts the second line.
    assert!(toks.iter().any(|t| matches!(t.token, Token::Fn) && t.line == 2 && t.col == 1));
}

#[test]
fn names_are_never_keywords_or_reserved() {
    let toks = tok_no_newlines("letter lets _x matches");
    assert!(is_ident(&toks[0], "letter"));
    assert!(is_ident(&toks[1], "lets"));
    assert!(is_ident(&toks[2], "_x"));
    assert!(matches!(tok_no_newlines("let").as_slice(), [Token::Let]));
    assert!(lex("let async = 1").is_err());
    assert!(matches!(tok_no_newlines("Point").as_slice(), [Token::TypeIdent(s)] if s == "Point"));
}

#[test]
fn number_literals_read_their_value() {
    assert!(matches!(tok_no_newlines("1_000_000").as_slice(), [Token::IntLit(1000000)]));
    assert!(matches!(tok_no_newlines("0x1_F").as_slice(), [Token::IntLit(31)]));
    assert!(matches!(tok_no_newlines("0b1_01").as_slice(), [Token::IntLit(5)]));
    assert!(matches!(tok_no_newlines("1_0.2_5").as_slice(), [Token::FloatLit(s)] if s == "10.25"));
    assert!(lex("0x").is_err());
}

#[test]
fn string_literals_hold_their_text() {
    assert!(matches!(tok_no_newlines("\"a\\tb\\\\c\"").as_slice(), [Token::StringLit(s)] if s == "a\tb\\c"));
    assert!(matches!(tok_no_newlines("\"\"").as_slice(), [Token::StringLit(s)] if s.is_empty()));
    assert!(lex("\"open").is_err());
    assert!(lex("\"bad \\q\"").is_err());
}

#[test]
fn tokens_carry_the_place_they_are_written() {
    let toks = lex("a->b\n  x <= 10").unwrap();
    let places: Vec<(usize, usize)> = toks.iter().map(|t| (t.line, t.col)).collect();
    assert!(is_ident(&toks[0].token, "a"));
    assert!(matches!(toks[1].token, Token::Arrow));
    assert!(is_ident(&toks[2].token, "b"));
    assert!(matches!(toks[3].token, Token::Newline));
    assert!(is_ident(&toks[4].token, "x"));
    assert!(matches!(toks[5].token, Token::LtEq));
    assert!(matches!(toks[6].token, Token::IntLit(10)));
    assert_eq!(&places[..7], &[(1, 1), (1, 2), (1, 4), (1, 5), (2, 3), (2, 5), (2, 8)]);
}

#[test]
fn text_of_names_and_symbols_always_lexes() {
    assert!(lex("a + b * (c - d)\n  x.y[z] != w || !v\n").is_ok());
    assert!(lex("fn main() { let q = r }").is_ok());
    assert!(lex("let awaits = 1").is_ok());
    assert!(lex("await").is_err());
    assert!(lex("a # b").is_err());
}

#[test]
fn names_take_the_longest_run() {
    let toks = tok_no_newlines("abc fnord // note\n_x1 Type2");
    assert_eq!(toks.len(), 4);
    assert!(matches!(&toks[0], Token::Ident(s) if s == "abc"));
    assert!(matches!(&toks[1], Token::Ident(s) if s == "fnord"));
    assert!(matches!(&toks[2], Token::Ident(s) if s == "_x1"));
    assert!(matches!(&toks[3], Token::TypeIdent(s) if s == "Type2"));
}

#[test]
fn comments_and_blanks_leave_no_tokens() {
    let toks = tok("  // only a comment\n\n   ");
    assert_eq!(toks.len(), 1);
    assert!(matches!(toks[0], Token::Eof));
}

#[test]
fn integers_take_all_their_digits() {
    let toks = tok_no_newlines("42 7 1_000");
    assert_eq!(toks.len(), 3);
    assert!(matches!(toks[0], Token::IntLit(42)));
    assert!(matches!(toks[1], Token::IntLit(7)));
    assert!(matches!(toks[2], Token::IntLit(1000)));
}
