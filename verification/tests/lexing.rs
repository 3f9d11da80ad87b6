use crow::errors::{ErrorKind, Result};
use crow::lexer::Lexer;
use crow::token::Keyword::{And, Fn, For, If, Import, Let, Or, Struct, Type, While};
use crow::token::TokenKind::{
    BraceLeft, BraceRight, BracketLeft, BracketRight, Colon, Comma, Doc, Dot, Eof, EqEq, Great,
    GreatEq, Ident, Less, LessEq, Minus, NotEq, Num, ParenLeft, ParenRight, Perc, Plus, Semi,
    Slash, Star, StarStar, Str,
};
use crow::token::{LitValue, Span, Token, TokenKind};

/// Shorthand convenience function for creating a token.
fn token(kind: TokenKind, span: (u32, u32)) -> Token {
    Token::new(kind, Span(span.0, span.1))
}

/// Shorthand convenience function for creating a keyword token.
fn keyword(kind: crow::token::Keyword, span: (u32, u32)) -> Token {
    Token::new(TokenKind::Kw(kind), Span(span.0, span.1))
}

fn kinds(text: &str) -> Vec<TokenKind> {
    let mut lexer = Lexer::from_source(text);
    let mut found = Vec::new();
    loop {
        let token = lexer.next_token().expect("a token");
        found.push(token.kind);
        if token.kind == Eof {
            return found;
        }
    }
}

#[test]
fn test_tokenisation_punctuation() -> Result<()> {
    let mut lexer = Lexer::from_source(", . = # ;");

    assert_eq!(lexer.next_token()?, token(Comma, (0, 1)));
    assert_eq!(lexer.next_token()?, token(Dot,   (2, 1)));
    assert_eq!(lexer.next_token()?, token(TokenKind::Eq,    (4, 1)));
    assert_eq!(lexer.next_token()?, token(TokenKind::Hash,  (6, 1)));
    assert_eq!(lexer.next_token()?, token(Semi,  (8, 1)));

    Ok(())
}

#[test]
fn test_tokenisation_operators() -> Result<()> {
    let mut lexer = Lexer::from_source("+ - * /");

    assert_eq!(lexer.next_token()?, token(Plus,  (0, 1)));
    assert_eq!(lexer.next_token()?, token(Minus, (2, 1)));
    assert_eq!(lexer.next_token()?, token(Star,  (4, 1)));
    assert_eq!(lexer.next_token()?, token(Slash, (6, 1)));

    Ok(())
}

#[test]
fn test_tokenisation_enclosing() -> Result<()> {
    let mut lexer = Lexer::from_source("( ) { } [ ]");

    assert_eq!(lexer.next_token()?, token(ParenLeft,    (0, 1)));
    assert_eq!(lexer.next_token()?, token(ParenRight,   (2, 1)));
    assert_eq!(lexer.next_token()?, token(BraceLeft,    (4, 1)));
    assert_eq!(lexer.next_token()?, token(BraceRight,   (6, 1)));
    assert_eq!(lexer.next_token()?, token(BracketLeft,  (8, 1)));
    assert_eq!(lexer.next_token()?, token(BracketRight, (10, 1)));

    Ok(())
}

#[test]
fn test_tokenisation_comparison() -> Result<()> {
    let mut lexer = Lexer::from_source("< <= > >=");

    assert_eq!(lexer.next_token()?, token(Less,    (0, 1)));
    assert_eq!(lexer.next_token()?, token(LessEq,  (2, 2)));
    assert_eq!(lexer.next_token()?, token(Great,   (5, 1)));
    assert_eq!(lexer.next_token()?, token(GreatEq, (7, 2)));

    Ok(())
}

#[test]
fn test_tokenisation_keywords() -> Result<()> {
    let mut lexer = Lexer::from_source("and fn for let if import or struct type while");

    assert_eq!(lexer.next_token()?, keyword(And,    (0, 3)));
    assert_eq!(lexer.next_token()?, keyword(Fn,     (4, 2)));
    assert_eq!(lexer.next_token()?, keyword(For,    (7, 3)));
    assert_eq!(lexer.next_token()?, keyword(Let,    (11, 3)));
    assert_eq!(lexer.next_token()?, keyword(If,     (15, 2)));
    assert_eq!(lexer.next_token()?, keyword(Import, (18, 6)));
    assert_eq!(lexer.next_token()?, keyword(Or,     (25, 2)));
    assert_eq!(lexer.next_token()?, keyword(Struct, (28, 6)));
    assert_eq!(lexer.next_token()?, keyword(Type,   (35, 4)));
    assert_eq!(lexer.next_token()?, keyword(While,  (40, 5)));

    Ok(())
}

#[test]
fn test_ignore_line_comment() -> Result<()> {
    let mut lexer = Lexer::from_source("a \n //foobar \n b");

    assert_eq!(lexer.next_token()?, token(Ident, (0, 1)));
    assert_eq!(lexer.next_token()?, token(Ident, (15, 1)));

    Ok(())
}

#[test]
fn test_ignore_block_comment() -> Result<()> {
    let mut lexer = Lexer::from_source("a \n /* foobar */ \n b");

    assert_eq!(lexer.next_token()?, token(Ident, (0, 1)));
    assert_eq!(lexer.next_token()?, token(Ident, (19, 1)));

    Ok(())
}

#[test]
fn test_doc_comment() -> Result<()> {
    let mut lexer = Lexer::from_source("a \n /// foobar \n b");

    assert_eq!(lexer.next_token()?, token(Ident, (0, 1)));
    assert_eq!(lexer.next_token()?, token(Doc,   (4, 12)));
    assert_eq!(lexer.next_token()?, token(Ident, (17, 1)));

    Ok(())
}

#[test]
fn the_end_of_the_text_is_a_token() {
    let mut lexer = Lexer::from_source("");
    assert_eq!(lexer.next_token().unwrap(), token(Eof, (0, 0)));
    assert_eq!(lexer.next_token().unwrap(), token(Eof, (0, 0)));
    let mut lexer = Lexer::new("  x \t", "main.crow");
    assert_eq!(lexer.text(), "  x \t");
    assert_eq!(lexer.next_token().unwrap(), token(Ident, (2, 1)));
    assert_eq!(lexer.next_token().unwrap(), token(Eof, (5, 0)));
    assert_eq!(lexer.next_token().unwrap(), token(Eof, (5, 0)));
}

#[test]
fn every_punctuation() {
    assert_eq!(
        kinds(", . = == != # : ; % + - * ** / ( ) { } [ ] < <= > >="),
        vec![
            Comma, Dot, TokenKind::Eq, EqEq, NotEq, TokenKind::Hash, Colon, Semi, Perc, Plus, Minus, Star, StarStar, Slash,
            ParenLeft, ParenRight, BraceLeft, BraceRight, BracketLeft, BracketRight, Less, LessEq,
            Great, GreatEq, Eof,
        ]
    );
    assert_eq!(kinds("===<==>=***"), vec![EqEq, TokenKind::Eq, LessEq, TokenKind::Eq, GreatEq, StarStar, Star, Eof]);
    assert_eq!(kinds("a=b"), vec![Ident, TokenKind::Eq, Ident, Eof]);
}

#[test]
fn numbers_carry_their_value() {
    let mut lexer = Lexer::from_source("0 42 007 9223372036854775807 1x");
    for (value, span) in [(0, (0, 1)), (42, (2, 2)), (7, (5, 3)), (i64::MAX, (9, 19))] {
        let found = lexer.next_token().unwrap();
        assert_eq!(found, token(Num, span));
        assert!(matches!(found.lit, Some(LitValue::Int(v)) if v == value));
    }
    assert_eq!(lexer.next_token().unwrap(), token(Num, (29, 1)));
    assert_eq!(lexer.next_token().unwrap(), token(Ident, (30, 1)));
}

#[test]
fn numbers_too_large_are_errors() {
    let mut lexer = Lexer::from_source("9223372036854775808 1");
    let err = lexer.next_token().unwrap_err();
    assert_eq!(err.kind, ErrorKind::Lexer);
    assert_eq!(err.message, "failed to parser number literal: number too large to fit in target type");
    // The analyser goes on after the number.
    assert_eq!(lexer.next_token().unwrap(), token(Num, (20, 1)));
    let mut lexer = Lexer::from_source("123456789012345678901234567890");
    assert!(lexer.next_token().is_err());
    assert_eq!(lexer.next_token().unwrap(), token(Eof, (30, 0)));
}

#[test]
fn words_are_identifiers_or_keywords() {
    assert_eq!(kinds("lets let Let iff if_ x_1 A9"), vec![Ident, TokenKind::Kw(Let), Ident, Ident, Ident, Ident, Ident, Eof]);
    let mut lexer = Lexer::from_source("while_1 whil");
    assert_eq!(lexer.next_token().unwrap(), token(Ident, (0, 7)));
    assert_eq!(lexer.next_token().unwrap(), token(Ident, (8, 4)));
}

#[test]
fn strings_carry_their_text() {
    let mut lexer = Lexer::from_source("\"hi\" \"\" \"h\u{e9} // no comment\" \"open");
    let found = lexer.next_token().unwrap();
    assert_eq!(found, token(Str, (0, 4)));
    assert!(matches!(&found.lit, Some(LitValue::Str(s)) if s == "hi"));
    let found = lexer.next_token().unwrap();
    assert_eq!(found, token(Str, (5, 2)));
    assert!(matches!(&found.lit, Some(LitValue::Str(s)) if s.is_empty()));
    let found = lexer.next_token().unwrap();
    assert_eq!(found, token(Str, (8, 19)));
    assert!(matches!(&found.lit, Some(LitValue::Str(s)) if s == "h\u{e9} // no comment"));
    // A string that is not closed reaches the end of the text.
    let found = lexer.next_token().unwrap();
    assert_eq!(found, token(Str, (28, 5)));
    assert!(matches!(&found.lit, Some(LitValue::Str(s)) if s == "open"));
    assert_eq!(lexer.next_token().unwrap(), token(Eof, (33, 0)));
}

#[test]
fn unexpected_characters_are_errors() {
    let mut lexer = Lexer::from_source("a ! b @ \u{e9} _c '");
    assert_eq!(lexer.next_token().unwrap(), token(Ident, (0, 1)));
    let err = lexer.next_token().unwrap_err();
    assert_eq!(err.kind, ErrorKind::Lexer);
    assert_eq!(err.message, "unexpected character '!'");
    assert_eq!(lexer.next_token().unwrap(), token(Ident, (4, 1)));
    assert_eq!(lexer.next_token().unwrap_err().message, "unexpected character '@'");
    assert_eq!(lexer.next_token().unwrap_err().message, "unexpected character '\u{e9}'");
    assert_eq!(lexer.next_token().unwrap_err().message, "unexpected character '_'");
    assert_eq!(lexer.next_token().unwrap(), token(Ident, (12, 1)));
    assert_eq!(lexer.next_token().unwrap_err().message, "unexpected character '\\''");
    assert_eq!(lexer.next_token().unwrap(), token(Eof, (15, 0)));
    let mut lexer = Lexer::from_source("\u{0}\u{1f600}");
    assert_eq!(lexer.next_token().unwrap_err().message, "unexpected character '\\0'");
    assert_eq!(lexer.next_token().unwrap_err().message, "unexpected character '\u{1f600}'");
    assert_eq!(lexer.next_token().unwrap(), token(Eof, (5, 0)));
}

#[test]
fn white_space_of_every_kind_is_passed_over() {
    let spaces = "\t\n\u{b}\u{c}\r \u{85}\u{a0}\u{1680}\u{2000}\u{2005}\u{200a}\u{2028}\u{2029}\u{202f}\u{205f}\u{3000}";
    for c in spaces.chars() {
        assert!(c.is_whitespace());
    }
    let text = format!("{spaces}x");
    let mut lexer = Lexer::from_source(&text);
    assert_eq!(lexer.next_token().unwrap(), token(Ident, (spaces.len() as u32, 1)));
    // Characters next to the white space ranges are not white space.
    for c in ['\u{8}', '\u{e}', '\u{1f}', '\u{84}', '\u{86}', '\u{a1}', '\u{1681}', '\u{1fff}', '\u{200b}', '\u{2027}', '\u{202a}', '\u{2060}', '\u{3001}', '\u{feff}'] {
        assert!(!c.is_whitespace());
        let text = c.to_string();
        let mut lexer = Lexer::from_source(&text);
        assert_eq!(lexer.next_token().unwrap_err().message, format!("unexpected character {c:?}"));
    }
}

#[test]
fn white_space_agrees_with_the_standard_for_every_character() {
    let mut code = 0u32;
    while code <= 0x10ffff {
        if let Some(c) = char::from_u32(code) {
            if !c.is_ascii_graphic() || c == ' ' {
                let text = format!("{c}");
                let mut lexer = Lexer::from_source(&text);
                let passed = matches!(lexer.next_token(), Ok(found) if found.kind == Eof);
                assert_eq!(passed, c.is_whitespace(), "{code:x}");
            }
        }
        code += if code < 0x3100 { 1 } else { 0x101 };
    }
}

#[test]
fn comments() {
    assert_eq!(kinds("a // b \n c"), vec![Ident, Ident, Eof]);
    assert_eq!(kinds("a // b"), vec![Ident, Eof]);
    assert_eq!(kinds("//"), vec![Eof]);
    assert_eq!(kinds("a /* b \n c */ d"), vec![Ident, Ident, Eof]);
    assert_eq!(kinds("a /* b"), vec![Ident, Eof]);
    assert_eq!(kinds("/**/ a"), vec![Ident, Eof]);
    assert_eq!(kinds("/*/ a */ b"), vec![Ident, Eof]);
    assert_eq!(kinds("/* * / */ b"), vec![Ident, Eof]);
    assert_eq!(kinds("/* h\u{e9} */ // \u{1f600}\n/* */ b"), vec![Ident, Eof]);
    assert_eq!(kinds("a / b"), vec![Ident, Slash, Ident, Eof]);
    assert_eq!(kinds("a /"), vec![Ident, Slash, Eof]);
    let mut lexer = Lexer::from_source("/// doc");
    assert_eq!(lexer.next_token().unwrap(), token(Doc, (0, 7)));
    assert_eq!(lexer.next_token().unwrap(), token(Eof, (7, 0)));
    let mut lexer = Lexer::from_source("////\n///\nx");
    assert_eq!(lexer.next_token().unwrap(), token(Doc, (0, 5)));
    assert_eq!(lexer.next_token().unwrap(), token(Doc, (5, 4)));
    assert_eq!(lexer.next_token().unwrap(), token(Ident, (9, 1)));
}

#[test]
fn spans_cut_the_text_where_the_tokens_are() {
    let text = "let h = \"\u{e9}t\u{e9}\" ** 12; /// end";
    let mut lexer = Lexer::from_source(text);
    let mut fragments = Vec::new();
    loop {
        let found = lexer.next_token().unwrap();
        if found.kind == Eof {
            break;
        }
        fragments.push(found.span.fragment(text).to_string());
    }
    assert_eq!(fragments, vec!["let", "h", "=", "\"\u{e9}t\u{e9}\"", "**", "12", ";", "/// end"]);
}
