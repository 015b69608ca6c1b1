//! The tokens that the lexer hands to the parser, and the errors of parsing.

use vstd::prelude::*;

use crate::syntax::Span;


verus! {

/// A token of Roto source text. Tokens that carry text carry it as it stood
/// in the source.
#[derive(Debug)]
pub enum Token {
    SquareLeft,
    SquareRight,
    CurlyLeft,
    CurlyRight,
    RoundLeft,
    RoundRight,
    Comma,
    Colon,
    Period,
    Hyphen,
    Exact,
    Longer,
    OrLonger,
    PrefixLengthRange,
    UpTo,
    NetMask,
    Ident(String),
    /// `/` followed by digits
    PrefixLength(String),
    IpV4(String),
    IpV6(String),
    /// a string literal with its quotes
    String(String),
    Integer(String),
    /// `0x` followed by hexadecimal digits
    Hex(String),
    /// `AS` followed by digits
    Asn(String),
    Community(String),
    Bool(bool),
    Float,
}

/// A token that carries no text: punctuation and keywords.
pub open spec fn is_plain(t: Token) -> bool {
    match t {
        Token::Ident(_) | Token::PrefixLength(_) | Token::IpV4(_) | Token::IpV6(_)
        | Token::String(_) | Token::Integer(_) | Token::Hex(_) | Token::Asn(_)
        | Token::Community(_) | Token::Bool(_) | Token::Float => false,
        _ => true,
    }
}

/// A character that takes one byte in UTF-8.
pub open spec fn is_ascii(c: char) -> bool {
    (c as u32) < 128
}

/// The text has at least `n` characters and each of the first `n` takes
/// one byte, so that the text can be cut after them.
pub open spec fn ascii_head(s: Seq<char>, n: int) -> bool {
    s.len() >= n && forall|i: int| 0 <= i < n ==> is_ascii(#[trigger] s[i])
}

/// Whether a token is the given plain token.
pub fn is_token(t: &Token, plain: &Token) -> (res: bool)
    requires
        is_plain(*plain),
    ensures
        res == (*t == *plain),
{
    match plain {
        Token::SquareLeft => matches!(t, Token::SquareLeft),
        Token::SquareRight => matches!(t, Token::SquareRight),
        Token::CurlyLeft => matches!(t, Token::CurlyLeft),
        Token::CurlyRight => matches!(t, Token::CurlyRight),
        Token::RoundLeft => matches!(t, Token::RoundLeft),
        Token::RoundRight => matches!(t, Token::RoundRight),
        Token::Comma => matches!(t, Token::Comma),
        Token::Colon => matches!(t, Token::Colon),
        Token::Period => matches!(t, Token::Period),
        Token::Hyphen => matches!(t, Token::Hyphen),
        Token::Exact => matches!(t, Token::Exact),
        Token::Longer => matches!(t, Token::Longer),
        Token::OrLonger => matches!(t, Token::OrLonger),
        Token::PrefixLengthRange => matches!(t, Token::PrefixLengthRange),
        Token::UpTo => matches!(t, Token::UpTo),
        Token::NetMask => matches!(t, Token::NetMask),
        _ => false,
    }
}

/// A copy of a token.
pub fn copy_token(t: &Token) -> (res: Token)
    ensures
        res == *t,
{
    match t {
        Token::SquareLeft => Token::SquareLeft,
        Token::SquareRight => Token::SquareRight,
        Token::CurlyLeft => Token::CurlyLeft,
        Token::CurlyRight => Token::CurlyRight,
        Token::RoundLeft => Token::RoundLeft,
        Token::RoundRight => Token::RoundRight,
        Token::Comma => Token::Comma,
        Token::Colon => Token::Colon,
        Token::Period => Token::Period,
        Token::Hyphen => Token::Hyphen,
        Token::Exact => Token::Exact,
        Token::Longer => Token::Longer,
        Token::OrLonger => Token::OrLonger,
        Token::PrefixLengthRange => Token::PrefixLengthRange,
        Token::UpTo => Token::UpTo,
        Token::NetMask => Token::NetMask,
        Token::Ident(s) => Token::Ident(s.clone()),
        Token::PrefixLength(s) => Token::PrefixLength(s.clone()),
        Token::IpV4(s) => Token::IpV4(s.clone()),
        Token::IpV6(s) => Token::IpV6(s.clone()),
        Token::String(s) => Token::String(s.clone()),
        Token::Integer(s) => Token::Integer(s.clone()),
        Token::Hex(s) => Token::Hex(s.clone()),
        Token::Asn(s) => Token::Asn(s.clone()),
        Token::Community(s) => Token::Community(s.clone()),
        Token::Bool(b) => Token::Bool(*b),
        Token::Float => Token::Float,
    }
}

/// What the parser expected where it found another token.
#[derive(Debug)]
pub enum Expectation {
    Token(Token),
    IpAddress,
    Literal,
    Identifier,
}

/// The kinds of literal whose text can fail to be read.
#[derive(Clone, Copy, Debug, PartialEq, Eq, Structural)]
pub enum LiteralKind {
    Ipv4Address,
    Ipv6Address,
    Integer,
    HexInteger,
    AsNumber,
    Community,
    PrefixLength,
}

/// The description of each kind of literal in error messages.
pub open spec fn literal_kind_text(k: LiteralKind) -> Seq<char> {
    match k {
        LiteralKind::Ipv4Address => "Ipv4 addresss"@,
        LiteralKind::Ipv6Address => "Ipv6 addresss"@,
        LiteralKind::Integer => "integer"@,
        LiteralKind::HexInteger => "hexadecimal integer"@,
        LiteralKind::AsNumber => "AS number"@,
        LiteralKind::Community => "community"@,
        LiteralKind::PrefixLength => "prefix length"@,
    }
}

impl LiteralKind {
    /// The description of this kind of literal in error messages.
    pub fn description(&self) -> (res: &'static str)
        ensures
            res@ == literal_kind_text(*self),
    {
        proof {
            reveal_strlit("Ipv4 addresss");
            reveal_strlit("Ipv6 addresss");
            reveal_strlit("integer");
            reveal_strlit("hexadecimal integer");
            reveal_strlit("AS number");
            reveal_strlit("community");
            reveal_strlit("prefix length");
        }
        match self {
            LiteralKind::Ipv4Address => "Ipv4 addresss",
            LiteralKind::Ipv6Address => "Ipv6 addresss",
            LiteralKind::Integer => "integer",
            LiteralKind::HexInteger => "hexadecimal integer",
            LiteralKind::AsNumber => "AS number",
            LiteralKind::Community => "community",
            LiteralKind::PrefixLength => "prefix length",
        }
    }
}

#[derive(Debug)]
pub enum ParseErrorKind {
    /// The tokens ended where more were needed.
    EndOfInput,
    /// Another token was found than the one expected.
    Expected { expected: Expectation, got: Token },
    /// The text of a literal token could not be read.
    InvalidLiteral { kind: LiteralKind, token: Token },
    /// A token this parser does not read: a floating-point number, an IPv6
    /// extended community, or a literal whose text cannot be cut where its
    /// prefix or quotes end.
    Unsupported { token: Token },
}

/// An error of parsing, and where it was found.
#[derive(Debug)]
pub struct ParseError {
    pub kind: ParseErrorKind,
    pub location: Span,
}

} // verus!
