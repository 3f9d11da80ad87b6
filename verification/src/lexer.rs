//! Lexical analyser.
//!
//! The analyser reads a text by the bytes of its UTF-8 form. Every token
//! starts and ends between two characters, and its span counts bytes.
use crate::errors::{lexer_err, lexical, ErrorView, Result};
use crate::float::Float;
use crate::text::{
    boundary, char_at, first_char, lemma_boundary_by_byte, lemma_next_boundary, slice, slice_str,
    width_at,
};
use crate::token::{Keyword, LitValue, Span, Token, TokenKind};
use vstd::prelude::*;
use vstd::string::*;
use vstd::utf8::*;

verus! {

/// The number of bytes of the UTF-8 form of `text`.
pub open spec fn size(text: Seq<char>) -> int {
    encode_utf8(text).len() as int
}

/// The byte at position `at` of the UTF-8 form of `text`.
pub open spec fn byte_at(text: Seq<char>, at: int) -> u8 {
    encode_utf8(text)[at]
}

/// Whether the byte at position `at` is `byte`; no byte lies past the end.
pub open spec fn holds(text: Seq<char>, at: int, byte: u8) -> bool {
    0 <= at < size(text) && byte_at(text, at) == byte
}

/// Whether a character is white space: the characters that Unicode gives
/// the property `White_Space`.
pub open spec fn is_space(c: char) -> bool {
    let v = c as u32;
    ||| 0x09 <= v <= 0x0d
    ||| v == 0x20
    ||| v == 0x85
    ||| v == 0xa0
    ||| v == 0x1680
    ||| 0x2000 <= v <= 0x200a
    ||| v == 0x2028
    ||| v == 0x2029
    ||| v == 0x202f
    ||| v == 0x205f
    ||| v == 0x3000
}

pub open spec fn is_digit(b: u8) -> bool {
    0x30 <= b <= 0x39
}

pub open spec fn is_alpha(b: u8) -> bool {
    0x61 <= b <= 0x7a || 0x41 <= b <= 0x5a
}

/// The bytes that a run of the text may be made of.
#[derive(Debug, Clone, Copy)]
pub enum Class {
    /// Decimal digits.
    Digit,
    /// Letters, digits and the underscore.
    Word,
    /// Everything but the line feed.
    Line,
    /// Everything but the double quote.
    Quoted,
}

impl Class {
    pub open spec fn accepts(self, b: u8) -> bool {
        match self {
            Class::Digit => is_digit(b),
            Class::Word => is_digit(b) || is_alpha(b) || b == 0x5f,
            Class::Line => b != 0x0a,
            Class::Quoted => b != 0x22,
        }
    }
}

/// The first position at or after `at` that does not start a white space
/// character.
pub open spec fn skip_space(text: Seq<char>, at: int) -> int
    decreases size(text) - at,
{
    if 0 <= at < at + width_at(text, at) <= size(text) && is_space(char_at(text, at)) {
        skip_space(text, at + width_at(text, at))
    } else {
        at
    }
}

/// The first position at or after `at` whose byte is not of `class`, or
/// the end of the text.
pub open spec fn run_end(text: Seq<char>, at: int, class: Class) -> int
    decreases size(text) - at,
{
    if 0 <= at < size(text) && class.accepts(byte_at(text, at)) {
        run_end(text, at + 1, class)
    } else {
        at
    }
}

/// The position after the first `*/` that starts at or after `at`, or the
/// end of the text.
pub open spec fn block_end(text: Seq<char>, at: int) -> int
    decreases size(text) - at,
{
    if at < 0 || at >= size(text) {
        at
    } else if holds(text, at, 0x2a) && holds(text, at + 1, 0x2f) {
        at + 2
    } else {
        block_end(text, at + 1)
    }
}

/// The position after a run that ends with the byte that closes it: past
/// that byte, or the end of the text where the run reaches it.
pub open spec fn closed_end(text: Seq<char>, at: int, class: Class) -> int {
    let end = run_end(text, at, class);
    if end < size(text) {
        end + 1
    } else {
        end
    }
}

/// The number that the digits from `start` up to `end` write.
pub open spec fn digits_value(text: Seq<char>, start: int, end: int) -> nat
    decreases end - start,
{
    if end <= start {
        0
    } else {
        (digits_value(text, start, end - 1) * 10 + (byte_at(text, end - 1) - 0x30)) as nat
    }
}

/// The keyword that a word is, if it is one.
pub open spec fn keyword_of(word: Seq<char>) -> Option<Keyword> {
    if word == "and"@ {
        Some(Keyword::And)
    } else if word == "fn"@ {
        Some(Keyword::Fn)
    } else if word == "for"@ {
        Some(Keyword::For)
    } else if word == "let"@ {
        Some(Keyword::Let)
    } else if word == "if"@ {
        Some(Keyword::If)
    } else if word == "import"@ {
        Some(Keyword::Import)
    } else if word == "or"@ {
        Some(Keyword::Or)
    } else if word == "struct"@ {
        Some(Keyword::Struct)
    } else if word == "type"@ {
        Some(Keyword::Type)
    } else if word == "while"@ {
        Some(Keyword::While)
    } else {
        None
    }
}

/// What the analyser finds next in a text.
pub enum Lexeme {
    /// A token of this kind, from byte `start` up to byte `end`.
    Token { kind: TokenKind, start: int, end: int },
    /// A character at `at` that starts no token.
    Unexpected { at: int },
    /// A number from `start` up to `end` that is too large for a literal.
    TooLarge { start: int, end: int },
}

/// The kind and the length of the punctuation that starts at `start`
/// with the byte `b`, if any does.
pub open spec fn punctuation(text: Seq<char>, start: int, b: u8) -> Option<(TokenKind, int)> {
    let followed = holds(text, start + 1, 0x3d);
    if b == 0x2c {
        Some((TokenKind::Comma, 1))
    } else if b == 0x2e {
        Some((TokenKind::Dot, 1))
    } else if b == 0x3d {
        if followed {
            Some((TokenKind::EqEq, 2))
        } else {
            Some((TokenKind::Eq, 1))
        }
    } else if b == 0x21 {
        if followed {
            Some((TokenKind::NotEq, 2))
        } else {
            None
        }
    } else if b == 0x23 {
        Some((TokenKind::Hash, 1))
    } else if b == 0x3a {
        Some((TokenKind::Colon, 1))
    } else if b == 0x3b {
        Some((TokenKind::Semi, 1))
    } else if b == 0x25 {
        Some((TokenKind::Perc, 1))
    } else if b == 0x2b {
        Some((TokenKind::Plus, 1))
    } else if b == 0x2d {
        Some((TokenKind::Minus, 1))
    } else if b == 0x2a {
        if holds(text, start + 1, 0x2a) {
            Some((TokenKind::StarStar, 2))
        } else {
            Some((TokenKind::Star, 1))
        }
    } else if b == 0x28 {
        Some((TokenKind::ParenLeft, 1))
    } else if b == 0x29 {
        Some((TokenKind::ParenRight, 1))
    } else if b == 0x7b {
        Some((TokenKind::BraceLeft, 1))
    } else if b == 0x7d {
        Some((TokenKind::BraceRight, 1))
    } else if b == 0x5b {
        Some((TokenKind::BracketLeft, 1))
    } else if b == 0x5d {
        Some((TokenKind::BracketRight, 1))
    } else if b == 0x3c {
        if followed {
            Some((TokenKind::LessEq, 2))
        } else {
            Some((TokenKind::Less, 1))
        }
    } else if b == 0x3e {
        if followed {
            Some((TokenKind::GreatEq, 2))
        } else {
            Some((TokenKind::Great, 1))
        }
    } else {
        None
    }
}

/// What the analyser finds at `start`, where a token starts if any does:
/// `Err` with the position to go on from where a comment starts there.
pub open spec fn scan_at(text: Seq<char>, start: int) -> core::result::Result<Lexeme, int> {
    if start < 0 || start >= size(text) {
        Ok(Lexeme::Token { kind: TokenKind::Eof, start, end: start })
    } else {
        let b = byte_at(text, start);
        if is_digit(b) {
            let end = run_end(text, start + 1, Class::Digit);
            if digits_value(text, start, end) > i64::MAX {
                Ok(Lexeme::TooLarge { start, end })
            } else {
                Ok(Lexeme::Token { kind: TokenKind::Num, start, end })
            }
        } else if is_alpha(b) {
            let end = run_end(text, start + 1, Class::Word);
            let kind = match keyword_of(slice(text, start, end)) {
                Some(keyword) => TokenKind::Kw(keyword),
                None => TokenKind::Ident,
            };
            Ok(Lexeme::Token { kind, start, end })
        } else if b == 0x2f {
            if holds(text, start + 1, 0x2f) {
                if holds(text, start + 2, 0x2f) {
                    Ok(
                        Lexeme::Token {
                            kind: TokenKind::Doc,
                            start,
                            end: closed_end(text, start + 3, Class::Line),
                        },
                    )
                } else {
                    Err(run_end(text, start + 2, Class::Line))
                }
            } else if holds(text, start + 1, 0x2a) {
                Err(block_end(text, start + 2))
            } else {
                Ok(Lexeme::Token { kind: TokenKind::Slash, start, end: start + 1 })
            }
        } else if b == 0x22 {
            Ok(
                Lexeme::Token {
                    kind: TokenKind::Str,
                    start,
                    end: closed_end(text, start + 1, Class::Quoted),
                },
            )
        } else {
            match punctuation(text, start, b) {
                Some((kind, length)) => Ok(Lexeme::Token { kind, start, end: start + length }),
                None => Ok(Lexeme::Unexpected { at: start }),
            }
        }
    }
}

/// Every run, and every block comment, ends at or after its start and
/// inside the text; skipping white space goes forward too.
pub proof fn lemma_forward(text: Seq<char>, at: int, class: Class)
    requires
        0 <= at <= size(text),
    ensures
        at <= run_end(text, at, class) <= size(text),
        at <= closed_end(text, at, class) <= size(text),
        at <= block_end(text, at) <= size(text),
        at <= skip_space(text, at),
    decreases size(text) - at,
{
    if at < size(text) {
        lemma_forward(text, at + 1, class);
        if at < at + width_at(text, at) <= size(text) {
            lemma_forward(text, at + width_at(text, at), class);
        }
    }
}

/// A comment ends after the place where the search for a token began, and
/// inside the text: the analyser always goes forward over it.
pub proof fn lemma_comment_ends_later(text: Seq<char>, from: int)
    requires
        0 <= from <= size(text),
    ensures
        scan_at(text, skip_space(text, from)) matches Err(next) ==> from < next <= size(text),
{
    let start = skip_space(text, from);
    lemma_forward(text, from, Class::Line);
    if start + 2 <= size(text) {
        lemma_forward(text, start + 2, Class::Line);
    }
}

/// What the analyser finds next from `from` on: white space and comments
/// are passed over, then comes a token, the end of the text, or an error.
pub open spec fn next_lexeme(text: Seq<char>, from: int) -> Lexeme
    decreases size(text) - from,
{
    let start = skip_space(text, from);
    match scan_at(text, start) {
        Ok(found) => found,
        Err(next) => {
            if from < next <= size(text) {
                next_lexeme(text, next)
            } else {
                Lexeme::Token { kind: TokenKind::Eof, start: next, end: next }
            }
        },
    }
}

/// What the literal of a token holds.
pub enum LitView {
    Int(i64),
    Float(Float),
    Str(Seq<char>),
}

/// A token as contracts speak of it.
pub struct TokenView {
    pub kind: TokenKind,
    pub span: Span,
    pub lit: Option<LitView>,
}

/// What a token holds.
pub open spec fn token_view(token: Token) -> TokenView {
    TokenView {
        kind: token.kind,
        span: token.span,
        lit: match token.lit {
            Some(LitValue::Int(value)) => Some(LitView::Int(value)),
            Some(LitValue::Float(value)) => Some(LitView::Float(value)),
            Some(LitValue::Str(value)) => Some(LitView::Str(value@)),
            None => None,
        },
    }
}

/// The literal that a token carries: a number its value, a string what
/// stands after its opening quote up to the closing one.
pub open spec fn literal(text: Seq<char>, kind: TokenKind, start: int) -> Option<LitView> {
    match kind {
        TokenKind::Num => Some(
            LitView::Int(digits_value(text, start, run_end(text, start + 1, Class::Digit)) as i64),
        ),
        TokenKind::Str => Some(
            LitView::Str(slice(text, start + 1, run_end(text, start + 1, Class::Quoted))),
        ),
        _ => None,
    }
}

/// Where the analyser stands after a lexeme.
pub open spec fn position_after(text: Seq<char>, found: Lexeme) -> int {
    match found {
        Lexeme::Token { end, .. } => end,
        Lexeme::Unexpected { at } => at + width_at(text, at),
        Lexeme::TooLarge { end, .. } => end,
    }
}

/// How a character prints between quotes, with what must be escaped
/// escaped.
pub uninterp spec fn char_debug(c: char) -> Seq<char>;

/// What the analyser hands out for a lexeme: the token with its span and
/// literal, or the error that says what is wrong.
pub open spec fn lexed(text: Seq<char>, found: Lexeme) -> core::result::Result<TokenView, ErrorView> {
    match found {
        Lexeme::Token { kind, start, end } => Ok(
            TokenView {
                kind,
                span: Span(start as u32, (end - start) as u32),
                lit: literal(text, kind, start),
            },
        ),
        Lexeme::Unexpected { at } => Err(
            lexical("unexpected character "@ + char_debug(char_at(text, at))),
        ),
        Lexeme::TooLarge { .. } => Err(
            lexical("failed to parser number literal: number too large to fit in target type"@),
        ),
    }
}

/// `core::fmt::Debug` of a character: the text that `{:?}` writes for it.
#[verifier::external_body]
fn debug_text(c: char) -> (text: String)
    ensures
        text@ == char_debug(c),
{
    format!("{c:?}")
}

/// The number of bytes of a text.
fn length(text: &str) -> (len: usize)
    ensures
        len == size(text@),
{
    text.as_bytes().len()
}

/// The byte at a position of a text.
fn byte(text: &str, at: usize) -> (b: u8)
    requires
        at < size(text@),
    ensures
        b == byte_at(text@, at as int),
{
    text.as_bytes()[at]
}

/// Whether the byte at a position of a text is `b`.
fn is_byte(text: &str, at: usize, b: u8) -> (yes: bool)
    ensures
        yes == holds(text@, at as int, b),
{
    at < length(text) && byte(text, at) == b
}

fn accepts(class: Class, b: u8) -> (yes: bool)
    ensures
        yes == class.accepts(b),
{
    match class {
        Class::Digit => 0x30 <= b && b <= 0x39,
        Class::Word => (0x30 <= b && b <= 0x39) || (0x61 <= b && b <= 0x7a) || (0x41 <= b && b
            <= 0x5a) || b == 0x5f,
        Class::Line => b != 0x0a,
        Class::Quoted => b != 0x22,
    }
}

fn space(c: char) -> (yes: bool)
    ensures
        yes == is_space(c),
{
    let v = c as u32;
    (0x09 <= v && v <= 0x0d) || v == 0x20 || v == 0x85 || v == 0xa0 || v == 0x1680 || (0x2000 <= v
        && v <= 0x200a) || v == 0x2028 || v == 0x2029 || v == 0x202f || v == 0x205f || v == 0x3000
}

/// A run ends on a boundary: a run of digits or of a word where it
/// starts on one, a run up to a line feed or a quote always.
proof fn lemma_run_boundary(text: Seq<char>, at: int, class: Class)
    requires
        0 <= at <= size(text),
        class is Digit || class is Word ==> boundary(text, at),
    ensures
        boundary(text, run_end(text, at, class)),
        class is Line || class is Quoted ==> boundary(text, closed_end(text, at, class)),
    decreases size(text) - at,
{
    lemma_forward(text, at, class);
    if at < size(text) && class.accepts(byte_at(text, at)) {
        if class is Digit || class is Word {
            lemma_next_boundary(text, at);
        }
        lemma_run_boundary(text, at + 1, class);
    } else {
        lemma_boundary_by_byte(text, at);
        if at < size(text) {
            if boundary(text, at) {
                lemma_next_boundary(text, at);
            }
        }
    }
    let end = run_end(text, at, class);
    lemma_boundary_by_byte(text, end);
    if end < size(text) && (class is Line || class is Quoted) {
        lemma_next_boundary(text, end);
    }
}

/// A byte below 128 is a character of its own: it stands on a boundary
/// and is followed by one.
proof fn lemma_ascii(text: Seq<char>, at: int)
    requires
        0 <= at < size(text),
        byte_at(text, at) < 0x80,
    ensures
        boundary(text, at),
        boundary(text, at + 1),
        width_at(text, at) == 1,
        char_at(text, at) as u32 == byte_at(text, at),
{
    lemma_boundary_by_byte(text, at);
    lemma_next_boundary(text, at);
}

/// A block comment ends on a boundary.
proof fn lemma_block_boundary(text: Seq<char>, at: int)
    requires
        0 <= at <= size(text),
    ensures
        boundary(text, block_end(text, at)),
    decreases size(text) - at,
{
    if at >= size(text) {
        lemma_boundary_by_byte(text, at);
    } else if holds(text, at, 0x2a) && holds(text, at + 1, 0x2f) {
        lemma_ascii(text, at + 1);
    } else {
        lemma_block_boundary(text, at + 1);
    }
}

/// Finds where a run ends.
fn scan_run(text: &str, at: usize, class: Class) -> (end: usize)
    requires
        at <= size(text@),
    ensures
        end == run_end(text@, at as int, class),
        at <= end <= size(text@),
{
    let len = length(text);
    let mut end = at;
    while end < len && accepts(class, byte(text, end))
        invariant
            at <= end <= len,
            len == size(text@),
            run_end(text@, end as int, class) == run_end(text@, at as int, class),
        decreases len - end,
    {
        end += 1;
    }
    end
}

/// Finds where a run ends that the byte after it closes.
fn scan_closed(text: &str, at: usize, class: Class) -> (end: usize)
    requires
        at <= size(text@),
    ensures
        end == closed_end(text@, at as int, class),
        at <= end <= size(text@),
{
    let end = scan_run(text, at, class);
    if end < length(text) {
        end + 1
    } else {
        end
    }
}

/// Finds where a block comment ends.
fn scan_block(text: &str, at: usize) -> (end: usize)
    requires
        at <= size(text@),
    ensures
        end == block_end(text@, at as int),
        at <= end <= size(text@),
{
    let len = length(text);
    let mut end = at;
    while end < len
        invariant
            at <= end <= len,
            len == size(text@),
            block_end(text@, end as int) == block_end(text@, at as int),
        decreases len - end,
    {
        if byte(text, end) == 0x2a && is_byte(text, end + 1, 0x2f) {
            return end + 2;
        }
        end += 1;
    }
    end
}

/// Finds where white space ends.
fn scan_space(text: &str, at: usize) -> (end: usize)
    requires
        at <= size(text@),
        boundary(text@, at as int),
    ensures
        end == skip_space(text@, at as int),
        at <= end <= size(text@),
        boundary(text@, end as int),
{
    let len = length(text);
    let mut end = at;
    loop
        invariant
            at <= end <= len,
            len == size(text@),
            boundary(text@, end as int),
            skip_space(text@, end as int) == skip_space(text@, at as int),
        decreases len - end,
    {
        if end >= len {
            return end;
        }
        proof {
            lemma_next_boundary(text@, end as int);
        }
        let (c, width) = first_char(text, end);
        if !space(c) {
            return end;
        }
        end += width;
    }
}

/// Reads the number that a run of digits writes, if a literal can hold it.
fn number(text: &str, start: usize, end: usize) -> (value: Option<i64>)
    requires
        start <= end <= size(text@),
        forall|i: int| start <= i < end ==> is_digit(byte_at(text@, i)),
    ensures
        value is Some == (digits_value(text@, start as int, end as int) <= i64::MAX),
        value matches Some(v) ==> v == digits_value(text@, start as int, end as int),
{
    let mut value: i64 = 0;
    let mut at = start;
    while at < end
        invariant
            start <= at <= end <= size(text@),
            forall|i: int| start <= i < end ==> is_digit(byte_at(text@, i)),
            0 <= value,
            value == digits_value(text@, start as int, at as int),
        decreases end - at,
    {
        let d = (byte(text, at) - 0x30) as i64;
        assert(digits_value(text@, start as int, at + 1) == value * 10 + d);
        if value > (i64::MAX - d) / 10 {
            proof {
                lemma_digits_grow(text@, start as int, at + 1, end as int);
            }
            return None;
        }
        value = value * 10 + d;
        at += 1;
    }
    Some(value)
}

/// More digits write no smaller a number.
proof fn lemma_digits_grow(text: Seq<char>, start: int, middle: int, end: int)
    requires
        start <= middle <= end <= size(text),
        forall|i: int| start <= i < end ==> is_digit(byte_at(text, i)),
    ensures
        digits_value(text, start, middle) <= digits_value(text, start, end),
    decreases end - middle,
{
    if middle < end {
        lemma_digits_grow(text, start, middle, end - 1);
    }
}

/// A run of digits holds digits only.
proof fn lemma_run_holds(text: Seq<char>, at: int, class: Class)
    requires
        0 <= at <= size(text),
    ensures
        forall|i: int| at <= i < run_end(text, at, class) ==> class.accepts(byte_at(text, i)),
    decreases size(text) - at,
{
    if at < size(text) && class.accepts(byte_at(text, at)) {
        lemma_run_holds(text, at + 1, class);
    }
}

/// Whether two texts are the same, byte for byte.
fn same(a: &str, b: &str) -> (yes: bool)
    ensures
        yes == (a@ == b@),
{
    let x = a.as_bytes();
    let y = b.as_bytes();
    proof {
        encode_utf8_decode_utf8(a@);
        encode_utf8_decode_utf8(b@);
    }
    if x.len() != y.len() {
        return false;
    }
    let mut i: usize = 0;
    while i < x.len()
        invariant
            i <= x@.len(),
            x@.len() == y@.len(),
            x@ == encode_utf8(a@),
            y@ == encode_utf8(b@),
            forall|j: int| 0 <= j < i ==> x@[j] == y@[j],
        decreases x@.len() - i,
    {
        if x[i] != y[i] {
            return false;
        }
        i += 1;
    }
    assert(x@ =~= y@);
    true
}

/// The keyword that a word is, if it is one.
fn try_keyword(word: &str) -> (keyword: Option<Keyword>)
    ensures
        keyword == keyword_of(word@),
{
    if same(word, "and") {
        Some(Keyword::And)
    } else if same(word, "fn") {
        Some(Keyword::Fn)
    } else if same(word, "for") {
        Some(Keyword::For)
    } else if same(word, "let") {
        Some(Keyword::Let)
    } else if same(word, "if") {
        Some(Keyword::If)
    } else if same(word, "import") {
        Some(Keyword::Import)
    } else if same(word, "or") {
        Some(Keyword::Or)
    } else if same(word, "struct") {
        Some(Keyword::Struct)
    } else if same(word, "type") {
        Some(Keyword::Type)
    } else if same(word, "while") {
        Some(Keyword::While)
    } else {
        None
    }
}

/// The kind and the length of the punctuation at `start`, if there is any.
fn punct(text: &str, start: usize, b: u8) -> (found: Option<(TokenKind, usize)>)
    requires
        start < size(text@),
        b == byte_at(text@, start as int),
    ensures
        found is Some == punctuation(text@, start as int, b) is Some,
        found matches Some((kind, length)) ==> punctuation(text@, start as int, b) == Some(
            (kind, length as int),
        ),
{
    let len = length(text);
    let followed = is_byte(text, start + 1, 0x3d);
    if b == 0x2c {
        Some((TokenKind::Comma, 1))
    } else if b == 0x2e {
        Some((TokenKind::Dot, 1))
    } else if b == 0x3d {
        if followed {
            Some((TokenKind::EqEq, 2))
        } else {
            Some((TokenKind::Eq, 1))
        }
    } else if b == 0x21 {
        if followed {
            Some((TokenKind::NotEq, 2))
        } else {
            None
        }
    } else if b == 0x23 {
        Some((TokenKind::Hash, 1))
    } else if b == 0x3a {
        Some((TokenKind::Colon, 1))
    } else if b == 0x3b {
        Some((TokenKind::Semi, 1))
    } else if b == 0x25 {
        Some((TokenKind::Perc, 1))
    } else if b == 0x2b {
        Some((TokenKind::Plus, 1))
    } else if b == 0x2d {
        Some((TokenKind::Minus, 1))
    } else if b == 0x2a {
        if is_byte(text, start + 1, 0x2a) {
            Some((TokenKind::StarStar, 2))
        } else {
            Some((TokenKind::Star, 1))
        }
    } else if b == 0x28 {
        Some((TokenKind::ParenLeft, 1))
    } else if b == 0x29 {
        Some((TokenKind::ParenRight, 1))
    } else if b == 0x7b {
        Some((TokenKind::BraceLeft, 1))
    } else if b == 0x7d {
        Some((TokenKind::BraceRight, 1))
    } else if b == 0x5b {
        Some((TokenKind::BracketLeft, 1))
    } else if b == 0x5d {
        Some((TokenKind::BracketRight, 1))
    } else if b == 0x3c {
        if followed {
            Some((TokenKind::LessEq, 2))
        } else {
            Some((TokenKind::Less, 1))
        }
    } else if b == 0x3e {
        if followed {
            Some((TokenKind::GreatEq, 2))
        } else {
            Some((TokenKind::Great, 1))
        }
    } else {
        None
    }
}

/// Lexical analyser.
pub struct Lexer<'a> {
    /// Original source code text.
    text: &'a str,
    /// Where the text that remains to be lexed starts, in bytes.
    pos: usize,
    /// Span of the text fragment that was consumed. `(byte_offset, size)`
    span: Span,
    /// File where the source text is from.
    file: Option<String>,
}

/// An analyser as contracts speak of it: the text, and the position of
/// the first byte that it has not read.
pub struct LexerView {
    pub text: Seq<char>,
    pub pos: int,
    /// The name of the file where the text is from, if it has one.
    pub file: Option<Seq<char>>,
}

impl<'a> View for Lexer<'a> {
    type V = LexerView;

    closed spec fn view(&self) -> LexerView {
        LexerView {
            text: self.text@,
            pos: self.pos as int,
            file: match self.file {
                Some(name) => Some(name@),
                None => None,
            },
        }
    }
}

impl<'a> Lexer<'a> {
    /// Whether the analyser stands between two characters of a text whose
    /// positions fit a span.
    pub closed spec fn wf(&self) -> bool {
        &&& size(self.text@) <= u32::MAX
        &&& self.pos <= size(self.text@)
        &&& boundary(self.text@, self.pos as int)
    }

    /// Create a new [`Lexer`] from the given source code.
    ///
    /// The filename (or any debug name) can be provided to
    /// provide clearer error messages.
    pub fn new(text: &'a str, file: &str) -> (lexer: Self)
        requires
            size(text@) <= u32::MAX,
        ensures
            lexer.wf(),
            lexer@ == (LexerView { text: text@, pos: 0, file: Some(file@) }),
    {
        proof {
            lemma_boundary_start(text@);
        }
        Self { text, pos: 0, span: Span::new(0, 0), file: Some(String::from_str(file)) }
    }

    /// Creates a new [`Lexer`] from the given source code
    /// with no debug file name.
    pub fn from_source(text: &'a str) -> (lexer: Self)
        requires
            size(text@) <= u32::MAX,
        ensures
            lexer.wf(),
            lexer@ == (LexerView { text: text@, pos: 0, file: None }),
    {
        proof {
            lemma_boundary_start(text@);
        }
        Self { text, pos: 0, span: Span::new(0, 0), file: None }
    }

    pub fn text(&self) -> (text: &str)
        ensures
            text@ == self@.text,
    {
        self.text
    }

    /// Finishes the current token.
    fn make_token(&mut self, kind: TokenKind, start: usize, end: usize, lit: Option<LitValue>) -> (token:
        Token)
        requires
            start <= end <= size(old(self).text@) <= u32::MAX,
            boundary(old(self).text@, start as int),
            boundary(old(self).text@, end as int),
        ensures
            token.span.fits(old(self).text@),
            final(self).wf(),
            final(self).text == old(self).text,
            final(self).file == old(self).file,
            final(self)@.pos == end,
            token.kind == kind,
            token.span == Span(start as u32, (end - start) as u32),
            token.lit == lit,
    {
        self.pos = end;
        self.span = Span::new(start as u32, (end - start) as u32);
        Token { kind, span: self.span, lit }
    }

    /// Reads the next token: white space and comments are passed over,
    /// the end of the text gives a token of its own, over and over.
    pub fn next_token(&mut self) -> (result: Result<Token>)
        requires
            old(self).wf(),
        ensures
            final(self).wf(),
            final(self)@.text == old(self)@.text,
            final(self)@.file == old(self)@.file,
            final(self)@.pos == position_after(
                old(self)@.text,
                next_lexeme(old(self)@.text, old(self)@.pos),
            ),
            (match result {
                Ok(token) => Ok(token_view(token)),
                Err(err) => Err(err@),
            }) == lexed(old(self)@.text, next_lexeme(old(self)@.text, old(self)@.pos)),
            result matches Ok(token) ==> token.span.fits(old(self)@.text),
    {
        let text = self.text;
        let len = length(text);
        loop
            invariant
                self.wf(),
                self.text == old(self).text,
                self.file == old(self).file,
                text == self.text,
                len == size(text@),
                next_lexeme(text@, self.pos as int) == next_lexeme(text@, old(self).pos as int),
            decreases len - self.pos,
        {
            let start = scan_space(text, self.pos);
            if start >= len {
                return Ok(self.make_token(TokenKind::Eof, start, start, None));
            }
            let b = byte(text, start);
            if 0x30 <= b && b <= 0x39 {
                let end = scan_run(text, start + 1, Class::Digit);
                proof {
                    lemma_ascii(text@, start as int);
                    lemma_run_boundary(text@, start + 1, Class::Digit);
                    lemma_run_holds(text@, start + 1, Class::Digit);
                }
                return match number(text, start, end) {
                    Some(value) => Ok(
                        self.make_token(TokenKind::Num, start, end, Some(LitValue::Int(value))),
                    ),
                    None => {
                        self.pos = end;
                        Err(
                            lexer_err(
                                String::from_str(
                                    "failed to parser number literal: number too large to fit in target type",
                                ),
                            ),
                        )
                    },
                };
            } else if (0x61 <= b && b <= 0x7a) || (0x41 <= b && b <= 0x5a) {
                let end = scan_run(text, start + 1, Class::Word);
                proof {
                    lemma_ascii(text@, start as int);
                    lemma_run_boundary(text@, start + 1, Class::Word);
                }
                let kind = match slice_str(text, start, end) {
                    Some(word) => match try_keyword(word) {
                        Some(keyword) => TokenKind::Kw(keyword),
                        None => TokenKind::Ident,
                    },
                    None => TokenKind::Ident,
                };
                return Ok(self.make_token(kind, start, end, None));
            } else if b == 0x2f {
                if is_byte(text, start + 1, 0x2f) {
                    if is_byte(text, start + 2, 0x2f) {
                        let end = scan_closed(text, start + 3, Class::Line);
                        proof {
                            lemma_run_boundary(text@, start + 3, Class::Line);
                        }
                        return Ok(self.make_token(TokenKind::Doc, start, end, None));
                    }
                    let next = scan_run(text, start + 2, Class::Line);
                    proof {
                        lemma_run_boundary(text@, start + 2, Class::Line);
                    }
                    self.pos = next;
                } else if is_byte(text, start + 1, 0x2a) {
                    let next = scan_block(text, start + 2);
                    proof {
                        lemma_block_boundary(text@, start + 2);
                    }
                    self.pos = next;
                } else {
                    proof {
                        lemma_ascii(text@, start as int);
                    }
                    return Ok(self.make_token(TokenKind::Slash, start, start + 1, None));
                }
            } else if b == 0x22 {
                let close = scan_run(text, start + 1, Class::Quoted);
                let end = scan_closed(text, start + 1, Class::Quoted);
                proof {
                    lemma_ascii(text@, start as int);
                    lemma_run_boundary(text@, start + 1, Class::Quoted);
                }
                let value = match slice_str(text, start + 1, close) {
                    Some(value) => String::from_str(value),
                    None => String::new(),
                };
                return Ok(self.make_token(TokenKind::Str, start, end, Some(LitValue::Str(value))));
            } else {
                match punct(text, start, b) {
                    Some((kind, length)) => {
                        proof {
                            lemma_ascii(text@, start as int);
                            if length == 2 {
                                lemma_ascii(text@, start + 1);
                            }
                        }
                        return Ok(self.make_token(kind, start, start + length, None));
                    },
                    None => {
                        proof {
                            lemma_next_boundary(text@, start as int);
                        }
                        let (c, width) = first_char(text, start);
                        self.pos = start + width;
                        let message = String::from_str("unexpected character ").concat(
                            debug_text(c).as_str(),
                        );
                        return Err(lexer_err(message));
                    },
                }
            }
        }
    }
}

/// The start of a text is a boundary.
proof fn lemma_boundary_start(text: Seq<char>)
    ensures
        boundary(text, 0),
{
    encode_utf8_valid_utf8(text);
    is_char_boundary_start_end_of_seq(encode_utf8(text));
}

} // verus!
