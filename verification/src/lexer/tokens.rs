use vstd::prelude::*;
use crate::text::{debug_quoted, push_signed, push_str, quoted, signed_text};

verus! {

/// A token that is produced by the [`Lexer`](super::Lexer).
#[derive(Debug, PartialEq, Clone)]
pub enum TokenType {
    /// An identifier of a variable or function with its name.
    Identifier(String),
    /// Keywords
    If,
    Else,
    Let,
    Fn,
    Extern,
    Return,
    True,
    False,
    Const,
    Struct,
    Enum,
    Trait,
    Impl,
    Match,
    For,
    While,
    End,
    As,
    In,
    Bool,
    SelfKeyword,
    SelfType,
    Do,
    Break,
    Continue,
    Import,
    /// Literals
    Integer(i64),
    /// A floating point literal, kept as the characters it was written with
    /// (digits, one `.`, digits).
    Float(String),
    Str(String),
    /// Punctuators
    At,
    Semicolon,
    Colon,
    DoubleColon,
    Comma,
    LParen,
    RParen,
    LBrack,
    RBrack,
    LBrace,
    RBrace,
    Arrow,
    Dot,
    Spread,
    Pipeline,
    /// Operators
    Minus,
    Plus,
    Div,
    Mul,
    Assign,
    Less,
    Greater,
    LessEq,
    GreaterEq,
    Equal,
    Not,
    NotEq,
    /// Augmented assignment operators
    PlusEq,
    MinusEq,
    MulEq,
    DivEq,
    Unknown,
}

/// A token with the position it was found at.
#[derive(Debug)]
pub struct Token {
    pub type_: TokenType,
    pub range: std::ops::Range<usize>,
}

/// The mathematical value of a token type: the text of a token with a
/// payload is a sequence of characters; a token without a payload stands
/// for itself.
pub enum TokenTypeV {
    Identifier(Seq<char>),
    Integer(i64),
    Float(Seq<char>),
    Str(Seq<char>),
    /// A token type that carries no text.
    Plain(TokenType),
}

impl TokenType {
    /// Whether this token type carries a payload.
    pub open spec fn has_payload(self) -> bool {
        self is Identifier || self is Integer || self is Float || self is Str
    }
}

impl View for TokenType {
    type V = TokenTypeV;

    open spec fn view(&self) -> TokenTypeV {
        match self {
            TokenType::Identifier(s) => TokenTypeV::Identifier(s@),
            TokenType::Integer(i) => TokenTypeV::Integer(*i),
            TokenType::Float(s) => TokenTypeV::Float(s@),
            TokenType::Str(s) => TokenTypeV::Str(s@),
            _ => TokenTypeV::Plain(*self),
        }
    }
}

impl TokenType {
    /// A copy of this token type with the same value.
    pub fn duplicate(&self) -> (r: TokenType)
        ensures
            r@ == self@,
    {
        match self {
            TokenType::Identifier(s) => TokenType::Identifier(s.clone()),
            TokenType::Integer(i) => TokenType::Integer(*i),
            TokenType::Float(s) => TokenType::Float(s.clone()),
            TokenType::Str(s) => TokenType::Str(s.clone()),
            TokenType::If => TokenType::If,
            TokenType::Else => TokenType::Else,
            TokenType::Let => TokenType::Let,
            TokenType::Fn => TokenType::Fn,
            TokenType::Extern => TokenType::Extern,
            TokenType::Return => TokenType::Return,
            TokenType::True => TokenType::True,
            TokenType::False => TokenType::False,
            TokenType::Const => TokenType::Const,
            TokenType::Struct => TokenType::Struct,
            TokenType::Enum => TokenType::Enum,
            TokenType::Trait => TokenType::Trait,
            TokenType::Impl => TokenType::Impl,
            TokenType::Match => TokenType::Match,
            TokenType::For => TokenType::For,
            TokenType::While => TokenType::While,
            TokenType::End => TokenType::End,
            TokenType::As => TokenType::As,
            TokenType::In => TokenType::In,
            TokenType::Bool => TokenType::Bool,
            TokenType::SelfKeyword => TokenType::SelfKeyword,
            TokenType::SelfType => TokenType::SelfType,
            TokenType::Do => TokenType::Do,
            TokenType::Break => TokenType::Break,
            TokenType::Continue => TokenType::Continue,
            TokenType::Import => TokenType::Import,
            TokenType::At => TokenType::At,
            TokenType::Semicolon => TokenType::Semicolon,
            TokenType::Colon => TokenType::Colon,
            TokenType::DoubleColon => TokenType::DoubleColon,
            TokenType::Comma => TokenType::Comma,
            TokenType::LParen => TokenType::LParen,
            TokenType::RParen => TokenType::RParen,
            TokenType::LBrack => TokenType::LBrack,
            TokenType::RBrack => TokenType::RBrack,
            TokenType::LBrace => TokenType::LBrace,
            TokenType::RBrace => TokenType::RBrace,
            TokenType::Arrow => TokenType::Arrow,
            TokenType::Dot => TokenType::Dot,
            TokenType::Spread => TokenType::Spread,
            TokenType::Pipeline => TokenType::Pipeline,
            TokenType::Minus => TokenType::Minus,
            TokenType::Plus => TokenType::Plus,
            TokenType::Div => TokenType::Div,
            TokenType::Mul => TokenType::Mul,
            TokenType::Assign => TokenType::Assign,
            TokenType::Less => TokenType::Less,
            TokenType::Greater => TokenType::Greater,
            TokenType::LessEq => TokenType::LessEq,
            TokenType::GreaterEq => TokenType::GreaterEq,
            TokenType::Equal => TokenType::Equal,
            TokenType::Not => TokenType::Not,
            TokenType::NotEq => TokenType::NotEq,
            TokenType::PlusEq => TokenType::PlusEq,
            TokenType::MinusEq => TokenType::MinusEq,
            TokenType::MulEq => TokenType::MulEq,
            TokenType::DivEq => TokenType::DivEq,
            TokenType::Unknown => TokenType::Unknown,
        }
    }

    /// Whether this token type carries a payload.
    pub fn carries_payload(&self) -> (r: bool)
        ensures
            r == self.has_payload(),
    {
        match self {
            TokenType::Identifier(_) | TokenType::Integer(_) | TokenType::Float(_) | TokenType::Str(
                _,
            ) => true,
            _ => false,
        }
    }

    /// Whether two token types are the same (the `==` of token types).
    pub fn same_as(&self, other: &TokenType) -> (r: bool)
        ensures
            r == (self@ == other@),
    {
        match (self, other) {
            (TokenType::Identifier(a), TokenType::Identifier(b)) => *a == *b,
            (TokenType::Integer(a), TokenType::Integer(b)) => *a == *b,
            (TokenType::Float(a), TokenType::Float(b)) => *a == *b,
            (TokenType::Str(a), TokenType::Str(b)) => *a == *b,
            _ => {
                if self.carries_payload() || other.carries_payload() {
                    false
                } else {
                    proof {
                        lemma_plain_variant_index(*self, *other);
                    }
                    self.tag() == other.tag()
                }
            },
        }
    }
}

impl TokenType {
    /// The position of this token type's variant in the declaration.
    pub open spec fn variant_index(self) -> int {
        match self {
            TokenType::Identifier(_) => 0,
            TokenType::If => 1,
            TokenType::Else => 2,
            TokenType::Let => 3,
            TokenType::Fn => 4,
            TokenType::Extern => 5,
            TokenType::Return => 6,
            TokenType::True => 7,
            TokenType::False => 8,
            TokenType::Const => 9,
            TokenType::Struct => 10,
            TokenType::Enum => 11,
            TokenType::Trait => 12,
            TokenType::Impl => 13,
            TokenType::Match => 14,
            TokenType::For => 15,
            TokenType::While => 16,
            TokenType::End => 17,
            TokenType::As => 18,
            TokenType::In => 19,
            TokenType::Bool => 20,
            TokenType::SelfKeyword => 21,
            TokenType::SelfType => 22,
            TokenType::Do => 23,
            TokenType::Break => 24,
            TokenType::Continue => 25,
            TokenType::Import => 26,
            TokenType::Integer(_) => 27,
            TokenType::Float(_) => 28,
            TokenType::Str(_) => 29,
            TokenType::At => 30,
            TokenType::Semicolon => 31,
            TokenType::Colon => 32,
            TokenType::DoubleColon => 33,
            TokenType::Comma => 34,
            TokenType::LParen => 35,
            TokenType::RParen => 36,
            TokenType::LBrack => 37,
            TokenType::RBrack => 38,
            TokenType::LBrace => 39,
            TokenType::RBrace => 40,
            TokenType::Arrow => 41,
            TokenType::Dot => 42,
            TokenType::Spread => 43,
            TokenType::Pipeline => 44,
            TokenType::Minus => 45,
            TokenType::Plus => 46,
            TokenType::Div => 47,
            TokenType::Mul => 48,
            TokenType::Assign => 49,
            TokenType::Less => 50,
            TokenType::Greater => 51,
            TokenType::LessEq => 52,
            TokenType::GreaterEq => 53,
            TokenType::Equal => 54,
            TokenType::Not => 55,
            TokenType::NotEq => 56,
            TokenType::PlusEq => 57,
            TokenType::MinusEq => 58,
            TokenType::MulEq => 59,
            TokenType::DivEq => 60,
            TokenType::Unknown => 61,
        }
    }

    /// The position of this token type's variant in the declaration.
    pub fn tag(&self) -> (r: u8)
        ensures
            r == self.variant_index(),
    {
        match self {
            TokenType::Identifier(_) => 0,
            TokenType::If => 1,
            TokenType::Else => 2,
            TokenType::Let => 3,
            TokenType::Fn => 4,
            TokenType::Extern => 5,
            TokenType::Return => 6,
            TokenType::True => 7,
            TokenType::False => 8,
            TokenType::Const => 9,
            TokenType::Struct => 10,
            TokenType::Enum => 11,
            TokenType::Trait => 12,
            TokenType::Impl => 13,
            TokenType::Match => 14,
            TokenType::For => 15,
            TokenType::While => 16,
            TokenType::End => 17,
            TokenType::As => 18,
            TokenType::In => 19,
            TokenType::Bool => 20,
            TokenType::SelfKeyword => 21,
            TokenType::SelfType => 22,
            TokenType::Do => 23,
            TokenType::Break => 24,
            TokenType::Continue => 25,
            TokenType::Import => 26,
            TokenType::Integer(_) => 27,
            TokenType::Float(_) => 28,
            TokenType::Str(_) => 29,
            TokenType::At => 30,
            TokenType::Semicolon => 31,
            TokenType::Colon => 32,
            TokenType::DoubleColon => 33,
            TokenType::Comma => 34,
            TokenType::LParen => 35,
            TokenType::RParen => 36,
            TokenType::LBrack => 37,
            TokenType::RBrack => 38,
            TokenType::LBrace => 39,
            TokenType::RBrace => 40,
            TokenType::Arrow => 41,
            TokenType::Dot => 42,
            TokenType::Spread => 43,
            TokenType::Pipeline => 44,
            TokenType::Minus => 45,
            TokenType::Plus => 46,
            TokenType::Div => 47,
            TokenType::Mul => 48,
            TokenType::Assign => 49,
            TokenType::Less => 50,
            TokenType::Greater => 51,
            TokenType::LessEq => 52,
            TokenType::GreaterEq => 53,
            TokenType::Equal => 54,
            TokenType::Not => 55,
            TokenType::NotEq => 56,
            TokenType::PlusEq => 57,
            TokenType::MinusEq => 58,
            TokenType::MulEq => 59,
            TokenType::DivEq => 60,
            TokenType::Unknown => 61,
        }
    }
}

/// Two token types without payload are equal exactly when they are the same variant.
pub proof fn lemma_plain_variant_index(a: TokenType, b: TokenType)
    requires
        !a.has_payload(),
        !b.has_payload(),
    ensures
        (a.variant_index() == b.variant_index()) == (a == b),
{
}

/// The name of a token type without payload, as `{:?}` writes it.
pub open spec fn plain_token_text(t: TokenType) -> Seq<char> {
    match t {
        TokenType::If => "If"@,
        TokenType::Else => "Else"@,
        TokenType::Let => "Let"@,
        TokenType::Fn => "Fn"@,
        TokenType::Extern => "Extern"@,
        TokenType::Return => "Return"@,
        TokenType::True => "True"@,
        TokenType::False => "False"@,
        TokenType::Const => "Const"@,
        TokenType::Struct => "Struct"@,
        TokenType::Enum => "Enum"@,
        TokenType::Trait => "Trait"@,
        TokenType::Impl => "Impl"@,
        TokenType::Match => "Match"@,
        TokenType::For => "For"@,
        TokenType::While => "While"@,
        TokenType::End => "End"@,
        TokenType::As => "As"@,
        TokenType::In => "In"@,
        TokenType::Bool => "Bool"@,
        TokenType::SelfKeyword => "SelfKeyword"@,
        TokenType::SelfType => "SelfType"@,
        TokenType::Do => "Do"@,
        TokenType::Break => "Break"@,
        TokenType::Continue => "Continue"@,
        TokenType::Import => "Import"@,
        TokenType::At => "At"@,
        TokenType::Semicolon => "Semicolon"@,
        TokenType::Colon => "Colon"@,
        TokenType::DoubleColon => "DoubleColon"@,
        TokenType::Comma => "Comma"@,
        TokenType::LParen => "LParen"@,
        TokenType::RParen => "RParen"@,
        TokenType::LBrack => "LBrack"@,
        TokenType::RBrack => "RBrack"@,
        TokenType::LBrace => "LBrace"@,
        TokenType::RBrace => "RBrace"@,
        TokenType::Arrow => "Arrow"@,
        TokenType::Dot => "Dot"@,
        TokenType::Spread => "Spread"@,
        TokenType::Pipeline => "Pipeline"@,
        TokenType::Minus => "Minus"@,
        TokenType::Plus => "Plus"@,
        TokenType::Div => "Div"@,
        TokenType::Mul => "Mul"@,
        TokenType::Assign => "Assign"@,
        TokenType::Less => "Less"@,
        TokenType::Greater => "Greater"@,
        TokenType::LessEq => "LessEq"@,
        TokenType::GreaterEq => "GreaterEq"@,
        TokenType::Equal => "Equal"@,
        TokenType::Not => "Not"@,
        TokenType::NotEq => "NotEq"@,
        TokenType::PlusEq => "PlusEq"@,
        TokenType::MinusEq => "MinusEq"@,
        TokenType::MulEq => "MulEq"@,
        TokenType::DivEq => "DivEq"@,
        TokenType::Unknown => "Unknown"@,
        _ => Seq::empty(),
    }
}

/// The text of a token type, as `{:?}` writes it.
pub open spec fn token_text(t: TokenTypeV) -> Seq<char> {
    match t {
        TokenTypeV::Identifier(s) => "Identifier("@ + debug_quoted(s) + ")"@,
        TokenTypeV::Integer(i) => "Integer("@ + signed_text(i as int) + ")"@,
        TokenTypeV::Float(s) => "Float("@ + s + ")"@,
        TokenTypeV::Str(s) => "Str("@ + debug_quoted(s) + ")"@,
        TokenTypeV::Plain(p) => plain_token_text(p),
    }
}

/// Appends the text of a token type to `s`, as `{:?}` writes it.
pub fn push_token_text(s: &mut String, t: &TokenType)
    ensures
        final(s)@ == old(s)@ + token_text(t@),
{
    match t {
        TokenType::Identifier(name) => {
            push_str(s, "Identifier(");
            let q = quoted(name.as_str());
            push_str(s, q.as_str());
            push_str(s, ")");
            assert(final(s)@ =~= old(s)@ + token_text(t@));
        },
        TokenType::Integer(i) => {
            push_str(s, "Integer(");
            push_signed(s, *i);
            push_str(s, ")");
            assert(final(s)@ =~= old(s)@ + token_text(t@));
        },
        TokenType::Float(text) => {
            push_str(s, "Float(");
            push_str(s, text.as_str());
            push_str(s, ")");
            assert(final(s)@ =~= old(s)@ + token_text(t@));
        },
        TokenType::Str(text) => {
            push_str(s, "Str(");
            let q = quoted(text.as_str());
            push_str(s, q.as_str());
            push_str(s, ")");
            assert(final(s)@ =~= old(s)@ + token_text(t@));
        },
        TokenType::If => push_str(s, "If"),
        TokenType::Else => push_str(s, "Else"),
        TokenType::Let => push_str(s, "Let"),
        TokenType::Fn => push_str(s, "Fn"),
        TokenType::Extern => push_str(s, "Extern"),
        TokenType::Return => push_str(s, "Return"),
        TokenType::True => push_str(s, "True"),
        TokenType::False => push_str(s, "False"),
        TokenType::Const => push_str(s, "Const"),
        TokenType::Struct => push_str(s, "Struct"),
        TokenType::Enum => push_str(s, "Enum"),
        TokenType::Trait => push_str(s, "Trait"),
        TokenType::Impl => push_str(s, "Impl"),
        TokenType::Match => push_str(s, "Match"),
        TokenType::For => push_str(s, "For"),
        TokenType::While => push_str(s, "While"),
        TokenType::End => push_str(s, "End"),
        TokenType::As => push_str(s, "As"),
        TokenType::In => push_str(s, "In"),
        TokenType::Bool => push_str(s, "Bool"),
        TokenType::SelfKeyword => push_str(s, "SelfKeyword"),
        TokenType::SelfType => push_str(s, "SelfType"),
        TokenType::Do => push_str(s, "Do"),
        TokenType::Break => push_str(s, "Break"),
        TokenType::Continue => push_str(s, "Continue"),
        TokenType::Import => push_str(s, "Import"),
        TokenType::At => push_str(s, "At"),
        TokenType::Semicolon => push_str(s, "Semicolon"),
        TokenType::Colon => push_str(s, "Colon"),
        TokenType::DoubleColon => push_str(s, "DoubleColon"),
        TokenType::Comma => push_str(s, "Comma"),
        TokenType::LParen => push_str(s, "LParen"),
        TokenType::RParen => push_str(s, "RParen"),
        TokenType::LBrack => push_str(s, "LBrack"),
        TokenType::RBrack => push_str(s, "RBrack"),
        TokenType::LBrace => push_str(s, "LBrace"),
        TokenType::RBrace => push_str(s, "RBrace"),
        TokenType::Arrow => push_str(s, "Arrow"),
        TokenType::Dot => push_str(s, "Dot"),
        TokenType::Spread => push_str(s, "Spread"),
        TokenType::Pipeline => push_str(s, "Pipeline"),
        TokenType::Minus => push_str(s, "Minus"),
        TokenType::Plus => push_str(s, "Plus"),
        TokenType::Div => push_str(s, "Div"),
        TokenType::Mul => push_str(s, "Mul"),
        TokenType::Assign => push_str(s, "Assign"),
        TokenType::Less => push_str(s, "Less"),
        TokenType::Greater => push_str(s, "Greater"),
        TokenType::LessEq => push_str(s, "LessEq"),
        TokenType::GreaterEq => push_str(s, "GreaterEq"),
        TokenType::Equal => push_str(s, "Equal"),
        TokenType::Not => push_str(s, "Not"),
        TokenType::NotEq => push_str(s, "NotEq"),
        TokenType::PlusEq => push_str(s, "PlusEq"),
        TokenType::MinusEq => push_str(s, "MinusEq"),
        TokenType::MulEq => push_str(s, "MulEq"),
        TokenType::DivEq => push_str(s, "DivEq"),
        TokenType::Unknown => push_str(s, "Unknown"),
    }
}

} // verus!
