use vstd::prelude::*;

verus! {

/// The lexical category of a token.
#[derive(Clone, Debug, PartialEq, Eq)]
pub enum TokenKind {
    LeftBrace,
    RightBrace,
    LeftParen,
    RightParen,
    Dot,
    Comma,
    Colon,
    SemiColon,
    Bang,
    BangEqual,
    Plus,
    Minus,
    Star,
    Slash,
    Equal,
    EqualEqual,
    Greater,
    Less,
    LessEqual,
    GreaterEqual,
    RightArrow,
    And,
    Or,
    Let,
    Mut,
    Fn,
    Enum,
    Record,
    Interface,
    Impl,
    Check,
    Match,
    Identifier,
    /// A string literal, holding the text between its quotes.
    String(String),
    /// A character that no rule of the scanner accepts.
    Unknown,
}

/// The mathematical value of a `TokenKind`: the same categories, with the
/// payload of a string literal as a sequence of characters.
pub enum KindView {
    LeftBrace,
    RightBrace,
    LeftParen,
    RightParen,
    Dot,
    Comma,
    Colon,
    SemiColon,
    Bang,
    BangEqual,
    Plus,
    Minus,
    Star,
    Slash,
    Equal,
    EqualEqual,
    Greater,
    Less,
    LessEqual,
    GreaterEqual,
    RightArrow,
    And,
    Or,
    Let,
    Mut,
    Fn,
    Enum,
    Record,
    Interface,
    Impl,
    Check,
    Match,
    Identifier,
    Str(Seq<char>),
    Unknown,
}

impl View for TokenKind {
    type V = KindView;

    open spec fn view(&self) -> KindView {
        match self {
            TokenKind::LeftBrace => KindView::LeftBrace,
            TokenKind::RightBrace => KindView::RightBrace,
            TokenKind::LeftParen => KindView::LeftParen,
            TokenKind::RightParen => KindView::RightParen,
            TokenKind::Dot => KindView::Dot,
            TokenKind::Comma => KindView::Comma,
            TokenKind::Colon => KindView::Colon,
            TokenKind::SemiColon => KindView::SemiColon,
            TokenKind::Bang => KindView::Bang,
            TokenKind::BangEqual => KindView::BangEqual,
            TokenKind::Plus => KindView::Plus,
            TokenKind::Minus => KindView::Minus,
            TokenKind::Star => KindView::Star,
            TokenKind::Slash => KindView::Slash,
            TokenKind::Equal => KindView::Equal,
            TokenKind::EqualEqual => KindView::EqualEqual,
            TokenKind::Greater => KindView::Greater,
            TokenKind::Less => KindView::Less,
            TokenKind::LessEqual => KindView::LessEqual,
            TokenKind::GreaterEqual => KindView::GreaterEqual,
            TokenKind::RightArrow => KindView::RightArrow,
            TokenKind::And => KindView::And,
            TokenKind::Or => KindView::Or,
            TokenKind::Let => KindView::Let,
            TokenKind::Mut => KindView::Mut,
            TokenKind::Fn => KindView::Fn,
            TokenKind::Enum => KindView::Enum,
            TokenKind::Record => KindView::Record,
            TokenKind::Interface => KindView::Interface,
            TokenKind::Impl => KindView::Impl,
            TokenKind::Check => KindView::Check,
            TokenKind::Match => KindView::Match,
            TokenKind::Identifier => KindView::Identifier,
            TokenKind::String(s) => KindView::Str(s@),
            TokenKind::Unknown => KindView::Unknown,
        }
    }
}

/// A classified unit of source text: its category and the exact text it was
/// read from.
#[derive(Clone, Debug, PartialEq, Eq)]
pub struct Token {
    pub kind: TokenKind,
    pub lexeme: String,
}

/// The mathematical value of a `Token`.
pub struct TokenView {
    pub kind: KindView,
    pub lexeme: Seq<char>,
}

impl View for Token {
    type V = TokenView;

    open spec fn view(&self) -> TokenView {
        TokenView { kind: self.kind@, lexeme: self.lexeme@ }
    }
}

impl Token {
    /// An identifier token whose lexeme is `s`.
    pub fn identifier(s: &str) -> (t: Token)
        ensures
            t@ == (TokenView { kind: KindView::Identifier, lexeme: s@ }),
    {
        Token { kind: TokenKind::Identifier, lexeme: s.to_owned() }
    }
}

} // verus!
