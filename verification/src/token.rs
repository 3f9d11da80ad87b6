//! Lexical tokens.
use crate::float::Float;
use crate::text::{slice, slice_str, sliceable};
use vstd::prelude::*;
use vstd::std_specs::cmp::PartialEqSpecImpl;

verus! {

#[derive(Debug, Clone)]
pub struct Token {
    pub kind: TokenKind,
    pub span: Span,
    pub lit: Option<LitValue>,
}

impl Token {
    pub fn new(kind: TokenKind, span: Span) -> (token: Self)
        ensures
            token.kind == kind,
            token.span == span,
            token.lit is None,
    {
        Self { kind, span, lit: None }
    }

    pub fn new_lit(kind: TokenKind, span: Span, lit: LitValue) -> (token: Self)
        ensures
            token.kind == kind,
            token.span == span,
            token.lit == Some(lit),
    {
        Self { kind, span, lit: Some(lit) }
    }
}

impl PartialEq for Token {
    fn eq(&self, other: &Self) -> (same: bool) {
        // Invariant: Literal value omitted because float equality
        //            is problematic and the span should be enough
        //            to identify a token.
        self.kind == other.kind && self.span == other.span
    }
}

impl PartialEqSpecImpl for Token {
    open spec fn obeys_eq_spec() -> bool {
        true
    }

    open spec fn eq_spec(&self, other: &Self) -> bool {
        self.kind == other.kind && self.span == other.span
    }
}

impl Eq for Token {

}

#[derive(Debug, Clone)]
pub enum LitValue {
    Int(i64),
    Float(Float),
    Str(String),
}

/// Span of text.
///
/// Stores index and count.
#[derive(Debug, Clone, Copy, PartialEq, Eq, Structural)]
pub struct Span(pub u32, pub u32);

impl Span {
    pub fn new(index: u32, count: u32) -> (span: Self)
        ensures
            span == Span(index, count),
    {
        Self(index, count)
    }

    /// Whether the span lies inside `text` and cuts no character in two.
    pub open spec fn fits(&self, text: Seq<char>) -> bool {
        sliceable(text, self.0 as int, self.0 + self.1)
    }

    /// The part of `text` that the span covers.
    pub fn fragment<'a>(&self, text: &'a str) -> (part: &'a str)
        requires
            self.fits(text@),
        ensures
            part@ == slice(text@, self.0 as int, self.0 + self.1),
    {
        let lo = self.0 as usize;
        let len = text.as_bytes().len();
        assert(self.0 + self.1 <= len);
        let hi = lo + self.1 as usize;
        match slice_str(text, lo, hi) {
            Some(part) => part,
            None => text,
        }
    }

    pub fn index(&self) -> (index: u32)
        ensures
            index == self.0,
    {
        self.0
    }

    pub fn count(&self) -> (count: u32)
        ensures
            count == self.1,
    {
        self.1
    }
}

#[derive(Debug, Clone, Copy, PartialEq, Eq, Structural)]
pub enum TokenKind {
    Comma,
    Dot,
    Eq,
    EqEq,
    NotEq,
    Hash,
    Colon,
    Semi,
    Perc,
    Plus,
    Minus,
    Star,
    StarStar,
    Slash,
    ParenLeft,
    ParenRight,
    BraceLeft,
    BraceRight,
    BracketLeft,
    BracketRight,
    Less,
    LessEq,
    Great,
    GreatEq,
    /// Identifier.
    Ident,
    /// Integer literal.
    Num,
    /// String literal.
    Str,
    /// Document comment.
    Doc,
    Kw(Keyword),
    /// End-of-file.
    Eof,
}

#[derive(Debug, Clone, Copy, PartialEq, Eq, Structural)]
pub enum Keyword {
    And,
    Fn,
    For,
    Let,
    If,
    Import,
    Or,
    Struct,
    Type,
    While,
}

/// Token operator precedence, lowest first.
#[derive(Debug, Clone, Copy, PartialOrd, Ord, PartialEq, Eq, Structural)]
pub enum Precedence {
    /// The precedence of tokens that terminate an expression.
    Terminator,
    Lowest,
    Assignment,
    Conditional,
    LogicalOr,
    LogicalAnd,
    Equality,
    Is,
    Comparison,
    BitwiseOr,
    BitwiseXor,
    BitwiseAnd,
    BitwiseShift,
    Range,
    Term,
    Factor,
    Unary,
    Exponent,
    Call,
    Primary,
}

impl Precedence {
    /// The rank of a precedence: 0 for `Terminator`, up to 19 for `Primary`.
    pub open spec fn rank(self) -> int {
        match self {
            Precedence::Terminator => 0,
            Precedence::Lowest => 1,
            Precedence::Assignment => 2,
            Precedence::Conditional => 3,
            Precedence::LogicalOr => 4,
            Precedence::LogicalAnd => 5,
            Precedence::Equality => 6,
            Precedence::Is => 7,
            Precedence::Comparison => 8,
            Precedence::BitwiseOr => 9,
            Precedence::BitwiseXor => 10,
            Precedence::BitwiseAnd => 11,
            Precedence::BitwiseShift => 12,
            Precedence::Range => 13,
            Precedence::Term => 14,
            Precedence::Factor => 15,
            Precedence::Unary => 16,
            Precedence::Exponent => 17,
            Precedence::Call => 18,
            Precedence::Primary => 19,
        }
    }

    /// The precedence of a rank; a number that is no rank gives `Terminator`.
    pub open spec fn of_rank(value: int) -> Precedence {
        if value == 1 {
            Precedence::Lowest
        } else if value == 2 {
            Precedence::Assignment
        } else if value == 3 {
            Precedence::Conditional
        } else if value == 4 {
            Precedence::LogicalOr
        } else if value == 5 {
            Precedence::LogicalAnd
        } else if value == 6 {
            Precedence::Equality
        } else if value == 7 {
            Precedence::Is
        } else if value == 8 {
            Precedence::Comparison
        } else if value == 9 {
            Precedence::BitwiseOr
        } else if value == 10 {
            Precedence::BitwiseXor
        } else if value == 11 {
            Precedence::BitwiseAnd
        } else if value == 12 {
            Precedence::BitwiseShift
        } else if value == 13 {
            Precedence::Range
        } else if value == 14 {
            Precedence::Term
        } else if value == 15 {
            Precedence::Factor
        } else if value == 16 {
            Precedence::Unary
        } else if value == 17 {
            Precedence::Exponent
        } else if value == 18 {
            Precedence::Call
        } else if value == 19 {
            Precedence::Primary
        } else {
            Precedence::Terminator
        }
    }

    /// The precedence of a kind of token in the expression parser.
    pub open spec fn spec_of(kind: TokenKind) -> Precedence {
        match kind {
            TokenKind::Num | TokenKind::Ident => Precedence::Lowest,
            TokenKind::Plus | TokenKind::Minus => Precedence::Term,
            TokenKind::Star | TokenKind::Slash => Precedence::Factor,
            TokenKind::StarStar => Precedence::Exponent,
            TokenKind::Eq => Precedence::Assignment,
            TokenKind::EqEq => Precedence::Equality,
            TokenKind::Dot | TokenKind::ParenLeft | TokenKind::BracketLeft => Precedence::Call,
            _ => Precedence::Terminator,
        }
    }

    #[inline(always)]
    pub fn as_i32(&self) -> (rank: i32)
        ensures
            rank == self.rank(),
    {
        match self {
            Precedence::Terminator => 0,
            Precedence::Lowest => 1,
            Precedence::Assignment => 2,
            Precedence::Conditional => 3,
            Precedence::LogicalOr => 4,
            Precedence::LogicalAnd => 5,
            Precedence::Equality => 6,
            Precedence::Is => 7,
            Precedence::Comparison => 8,
            Precedence::BitwiseOr => 9,
            Precedence::BitwiseXor => 10,
            Precedence::BitwiseAnd => 11,
            Precedence::BitwiseShift => 12,
            Precedence::Range => 13,
            Precedence::Term => 14,
            Precedence::Factor => 15,
            Precedence::Unary => 16,
            Precedence::Exponent => 17,
            Precedence::Call => 18,
            Precedence::Primary => 19,
        }
    }

    /// Get the precedence of the given token type in the context
    /// of the expression parser.
    pub fn of(kind: TokenKind) -> (precedence: Precedence)
        ensures
            precedence == Self::spec_of(kind),
    {
        match kind {
            TokenKind::Num | TokenKind::Ident => Precedence::Lowest,
            TokenKind::Plus | TokenKind::Minus => Precedence::Term,
            TokenKind::Star | TokenKind::Slash => Precedence::Factor,
            TokenKind::StarStar => Precedence::Exponent,
            TokenKind::Eq => Precedence::Assignment,
            TokenKind::EqEq => Precedence::Equality,
            TokenKind::Dot | TokenKind::ParenLeft | TokenKind::BracketLeft => Precedence::Call,
            // ------------------------------------------------
            // Terminators
            _ => Precedence::Terminator,
        }
    }

    /// The precedence of a rank; a number that is no rank gives `Terminator`.
    pub fn from_i32(value: i32) -> (precedence: Precedence)
        ensures
            precedence == Self::of_rank(value as int),
    {
        match value {
            1 => Precedence::Lowest,
            2 => Precedence::Assignment,
            3 => Precedence::Conditional,
            4 => Precedence::LogicalOr,
            5 => Precedence::LogicalAnd,
            6 => Precedence::Equality,
            7 => Precedence::Is,
            8 => Precedence::Comparison,
            9 => Precedence::BitwiseOr,
            10 => Precedence::BitwiseXor,
            11 => Precedence::BitwiseAnd,
            12 => Precedence::BitwiseShift,
            13 => Precedence::Range,
            14 => Precedence::Term,
            15 => Precedence::Factor,
            16 => Precedence::Unary,
            17 => Precedence::Exponent,
            18 => Precedence::Call,
            19 => Precedence::Primary,
            _ => Precedence::Terminator,
        }
    }

    /// The precedence `rhs` ranks higher; past either end it is `Terminator`.
    pub fn plus(self, rhs: i32) -> (precedence: Precedence)
        ensures
            precedence == Self::of_rank(self.rank() + rhs),
    {
        let rank = self.as_i32();
        if rhs < -19 || rhs > 19 {
            Precedence::Terminator
        } else {
            Self::from_i32(rank + rhs)
        }
    }

    /// A precedence is the precedence of its rank.
    pub proof fn lemma_rank_round_trip(self)
        ensures
            Self::of_rank(self.rank()) == self,
            0 <= self.rank() <= 19,
    {
    }
}

/// Associativity is the precedence tie-breaker.
#[derive(Debug, PartialEq, Eq, Clone, Copy, Structural)]
pub enum Associativity {
    Left,
    Right,
}

impl Associativity {
    /// Determine the associativity of the given token kind.
    pub fn of(token_ty: TokenKind) -> (side: Associativity)
        ensures
            side == (if token_ty == TokenKind::Eq || token_ty == TokenKind::StarStar {
                Associativity::Right
            } else {
                Associativity::Left
            }),
    {
        // Assignment and exponent are right associative.
        if matches!(token_ty, TokenKind::Eq | TokenKind::StarStar) {
            Associativity::Right
        } else {
            Associativity::Left
        }
    }

    pub fn is_left(&self) -> (yes: bool)
        ensures
            yes == (*self == Associativity::Left),
    {
        *self == Associativity::Left
    }
}

} // verus!
