//! The tokens the parser consumes.

use vstd::prelude::*;

verus! {

/// The lexical category of a token.
#[derive(Clone, Copy, Debug, PartialEq, Eq, Hash, Structural)]
pub enum TokenKind {
    OpenTag,
    DocBlockComment,
    Identifier,
    NullableIdentifier,
    Variable,
    String,
    Integer,
    Float,
    True,
    False,
    Null,
    Abstract,
    As,
    Break,
    Class,
    Continue,
    Do,
    Echo,
    Else,
    ElseIf,
    Extends,
    Final,
    Foreach,
    Function,
    If,
    Implements,
    New,
    Private,
    Protected,
    Public,
    Return,
    ShortFunction,
    Static,
    Use,
    While,
    LeftParen,
    RightParen,
    LeftBrace,
    RightBrace,
    LeftBracket,
    RightBracket,
    Comma,
    SemiColon,
    Colon,
    Arrow,
    DoubleArrow,
    Equals,
    Plus,
    Minus,
    Asterisk,
    Slash,
    Percent,
    Period,
    Not,
    And,
    Or,
    BitwiseAnd,
    BitwiseOr,
    BitwiseXor,
    BitwiseNot,
    BitwiseLeftShift,
    BitwiseRightShift,
    LessThan,
    GreaterThan,
    LessThanEquals,
    GreaterThanEquals,
    /// Any lexical category the grammar has no rule for.
    Other,
}

/// One token of the source text.
#[derive(Debug, PartialEq, Eq)]
pub struct Token {
    pub kind: TokenKind,
    /// The matched text, exactly as it stands in the source.
    pub slice: String,
    /// For a `Float` token, the IEEE 754 binary64 bit pattern of the number
    /// that the slice denotes, or `None` where it denotes no number. Tokens
    /// of other kinds carry `None`.
    pub float: Option<u64>,
}

/// The mathematical value of a [`Token`].
pub struct TokenView {
    pub kind: TokenKind,
    pub slice: Seq<char>,
    pub float: Option<u64>,
}

impl View for Token {
    type V = TokenView;

    open spec fn view(&self) -> TokenView {
        TokenView { kind: self.kind, slice: self.slice@, float: self.float }
    }
}

impl Token {
    /// A token of the given kind and text, without a number.
    pub fn new(kind: TokenKind, slice: &str) -> (token: Token)
        ensures
            token@ == (TokenView { kind, slice: slice@, float: None }),
    {
        Token { kind, slice: slice.to_owned(), float: None }
    }

    /// A `Float` token with the given text, standing for the number whose
    /// binary64 bit pattern is `bits`.
    pub fn float(slice: &str, bits: u64) -> (token: Token)
        ensures
            token@ == (TokenView { kind: TokenKind::Float, slice: slice@, float: Some(bits) }),
    {
        Token { kind: TokenKind::Float, slice: slice.to_owned(), float: Some(bits) }
    }
}

impl Clone for Token {
    /// A copy of the same value.
    fn clone(&self) -> (r: Self)
        ensures
            r@ == self@,
    {
        Token { kind: self.kind, slice: self.slice.clone(), float: self.float }
    }
}

/// The value of an optional token.
pub open spec fn optional_token(o: Option<&Token>) -> Option<TokenView> {
    match o {
        Some(token) => Some(token@),
        None => None,
    }
}

/// The values of a sequence of tokens.
pub open spec fn token_views(tokens: Seq<Token>) -> Seq<TokenView> {
    tokens.map_values(|t: Token| t@)
}

} // verus!
