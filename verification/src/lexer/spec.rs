//! The meaning of lexing, stated over the characters of the program.
use vstd::prelude::*;
use crate::lexer::chars::{is_ident_char, is_ascii_digit, is_numeric, CharClass};
use crate::lexer::tokens::{TokenType, TokenTypeV};

verus! {

/// The first index at or after `i` whose character is not in `cls`
/// (or the end of the input).
pub open spec fn scan(cs: Seq<char>, i: int, cls: CharClass) -> int
    decreases cs.len() - i,
{
    if 0 <= i < cs.len() && cls.contains(cs[i]) {
        scan(cs, i + 1, cls)
    } else {
        i
    }
}

/// Whether a character is skipped between tokens.
pub open spec fn is_blank(c: char) -> bool {
    c == ' ' || c == '\t' || c == '\n'
}

/// Skips blanks and comments from index `i`, with position counter `p`;
/// gives the index of the first character of the next token (or the end)
/// and the position counter there. A blank counts one; a comment counts
/// the characters after its `#` up to, not including, the newline.
pub open spec fn skip(cs: Seq<char>, i: int, p: int) -> (int, int)
    decreases cs.len() - i,
{
    if 0 <= i < cs.len() {
        if is_blank(cs[i]) {
            skip(cs, i + 1, p + 1)
        } else if cs[i] == '#' {
            let j = scan(cs, i + 1, CharClass::NotNewline);
            if i < j <= cs.len() {
                skip(cs, j, p + (j - (i + 1)))
            } else {
                (i, p)
            }
        } else {
            (i, p)
        }
    } else {
        (i, p)
    }
}

/// The end of a number literal whose digits continue at `i`: digits are
/// eaten, and one `.` is eaten when a numeric character follows it.
/// Also tells whether a `.` was eaten.
pub open spec fn number_end(cs: Seq<char>, i: int, is_float: bool) -> (int, bool)
    decreases cs.len() - i,
{
    if 0 <= i < cs.len() {
        if is_numeric(cs[i]) {
            number_end(cs, i + 1, is_float)
        } else if cs[i] == '.' && i + 1 < cs.len() && is_numeric(cs[i + 1]) && !is_float {
            number_end(cs, i + 1, true)
        } else {
            (i, is_float)
        }
    } else {
        (i, is_float)
    }
}

/// The value of a sequence of ASCII digits read in base ten.
pub open spec fn decimal_value(s: Seq<char>) -> int
    decreases s.len(),
{
    if s.len() == 0 {
        0
    } else {
        decimal_value(s.drop_last()) * 10 + (s.last() as int - '0' as int)
    }
}

/// Whether the text of an integer literal denotes an `i64`: ASCII digits
/// only, and a value that fits.
pub open spec fn valid_integer(s: Seq<char>) -> bool {
    &&& s.len() > 0
    &&& forall|k: int| 0 <= k < s.len() ==> is_ascii_digit(#[trigger] s[k])
    &&& decimal_value(s) <= i64::MAX
}

/// The token type of a word made of identifier characters: a keyword, or an identifier.
pub open spec fn word_token(w: Seq<char>) -> TokenTypeV {
    if w == "if"@ {
        TokenTypeV::Plain(TokenType::If)
    } else if w == "else"@ {
        TokenTypeV::Plain(TokenType::Else)
    } else if w == "let"@ {
        TokenTypeV::Plain(TokenType::Let)
    } else if w == "fn"@ {
        TokenTypeV::Plain(TokenType::Fn)
    } else if w == "extern"@ {
        TokenTypeV::Plain(TokenType::Extern)
    } else if w == "return"@ {
        TokenTypeV::Plain(TokenType::Return)
    } else if w == "true"@ {
        TokenTypeV::Plain(TokenType::True)
    } else if w == "false"@ {
        TokenTypeV::Plain(TokenType::False)
    } else if w == "const"@ {
        TokenTypeV::Plain(TokenType::Const)
    } else if w == "struct"@ {
        TokenTypeV::Plain(TokenType::Struct)
    } else if w == "enum"@ {
        TokenTypeV::Plain(TokenType::Enum)
    } else if w == "trait"@ {
        TokenTypeV::Plain(TokenType::Trait)
    } else if w == "impl"@ {
        TokenTypeV::Plain(TokenType::Impl)
    } else if w == "match"@ {
        TokenTypeV::Plain(TokenType::Match)
    } else if w == "for"@ {
        TokenTypeV::Plain(TokenType::For)
    } else if w == "while"@ {
        TokenTypeV::Plain(TokenType::While)
    } else if w == "end"@ {
        TokenTypeV::Plain(TokenType::End)
    } else if w == "as"@ {
        TokenTypeV::Plain(TokenType::As)
    } else if w == "in"@ {
        TokenTypeV::Plain(TokenType::In)
    } else if w == "bool"@ {
        TokenTypeV::Plain(TokenType::Bool)
    } else if w == "self"@ {
        TokenTypeV::Plain(TokenType::SelfKeyword)
    } else if w == "Self"@ {
        TokenTypeV::Plain(TokenType::SelfType)
    } else if w == "do"@ {
        TokenTypeV::Plain(TokenType::Do)
    } else if w == "break"@ {
        TokenTypeV::Plain(TokenType::Break)
    } else if w == "continue"@ {
        TokenTypeV::Plain(TokenType::Continue)
    } else if w == "import"@ {
        TokenTypeV::Plain(TokenType::Import)
    } else {
        TokenTypeV::Identifier(w)
    }
}

/// The message given for an integer literal that does not denote an `i64`.
pub open spec fn invalid_integer_message(s: Seq<char>) -> Seq<char> {
    "Integer literal "@ + s + " is invalid"@
}

/// The outcome of lexing one token: the token type (or the message of an
/// invalid integer literal), the index after the token and the position
/// counter after the token.
pub struct Lexed {
    pub token: Result<TokenTypeV, Seq<char>>,
    pub next: int,
    pub pos: int,
}

/// A one-character token, or a two-character one when the next character
/// is `second`: `i` is the index of the first character.
pub open spec fn one_or_two(
    cs: Seq<char>,
    i: int,
    p: int,
    second: char,
    one: TokenType,
    two: TokenType,
) -> Lexed {
    if i + 1 < cs.len() && cs[i + 1] == second {
        Lexed { token: Ok(TokenTypeV::Plain(two)), next: i + 2, pos: p }
    } else {
        Lexed { token: Ok(TokenTypeV::Plain(one)), next: i + 1, pos: p }
    }
}

/// Lexes the token whose first character is at index `i`, with position
/// counter `p` already counting that character.
pub open spec fn lex_token(cs: Seq<char>, i: int, p: int) -> Lexed
    recommends
        0 <= i < cs.len(),
{
    let c = cs[i];
    let plain = |t: TokenType| Lexed { token: Ok(TokenTypeV::Plain(t)), next: i + 1, pos: p };
    if c == '@' {
        plain(TokenType::At)
    } else if is_ident_char(c) && !is_numeric(c) {
        let j = scan(cs, i + 1, CharClass::Identifier);
        Lexed { token: Ok(word_token(cs.subrange(i, j))), next: j, pos: p + (j - (i + 1)) }
    } else if is_numeric(c) {
        let (j, is_float) = number_end(cs, i + 1, false);
        let text = cs.subrange(i, j);
        let token = if is_float {
            Ok(TokenTypeV::Float(text))
        } else if valid_integer(text) {
            Ok(TokenTypeV::Integer(decimal_value(text) as i64))
        } else {
            Err(invalid_integer_message(text))
        };
        Lexed { token, next: j, pos: p + (j - (i + 1)) }
    } else if c == '"' {
        let j = scan(cs, i + 1, CharClass::NotQuote);
        let next = if j < cs.len() {
            j + 1
        } else {
            j
        };
        Lexed {
            token: Ok(TokenTypeV::Str(cs.subrange(i + 1, j))),
            next,
            pos: p + (j - (i + 1)),
        }
    } else if c == ';' {
        plain(TokenType::Semicolon)
    } else if c == ',' {
        plain(TokenType::Comma)
    } else if c == '(' {
        plain(TokenType::LParen)
    } else if c == ')' {
        plain(TokenType::RParen)
    } else if c == '[' {
        plain(TokenType::LBrack)
    } else if c == ']' {
        plain(TokenType::RBrack)
    } else if c == '{' {
        plain(TokenType::LBrace)
    } else if c == '}' {
        plain(TokenType::RBrace)
    } else if c == '+' {
        one_or_two(cs, i, p, '=', TokenType::Plus, TokenType::PlusEq)
    } else if c == '-' {
        if i + 1 < cs.len() && cs[i + 1] == '=' {
            Lexed { token: Ok(TokenTypeV::Plain(TokenType::MinusEq)), next: i + 2, pos: p }
        } else {
            one_or_two(cs, i, p, '>', TokenType::Minus, TokenType::Arrow)
        }
    } else if c == '*' {
        one_or_two(cs, i, p, '=', TokenType::Mul, TokenType::MulEq)
    } else if c == '/' {
        one_or_two(cs, i, p, '=', TokenType::Div, TokenType::DivEq)
    } else if c == '<' {
        one_or_two(cs, i, p, '=', TokenType::Less, TokenType::LessEq)
    } else if c == '>' {
        one_or_two(cs, i, p, '=', TokenType::Greater, TokenType::GreaterEq)
    } else if c == '=' {
        one_or_two(cs, i, p, '=', TokenType::Assign, TokenType::Equal)
    } else if c == '!' {
        one_or_two(cs, i, p, '=', TokenType::Not, TokenType::NotEq)
    } else if c == '.' {
        one_or_two(cs, i, p, '.', TokenType::Dot, TokenType::Spread)
    } else if c == ':' {
        one_or_two(cs, i, p, ':', TokenType::Colon, TokenType::DoubleColon)
    } else if c == '|' {
        one_or_two(cs, i, p, '>', TokenType::Unknown, TokenType::Pipeline)
    } else {
        plain(TokenType::Unknown)
    }
}

/// The next token from index `i` with position counter `p`, or `None` when
/// only blanks and comments are left.
pub open spec fn lex_next(cs: Seq<char>, i: int, p: int) -> Option<Lexed> {
    let (j, q) = skip(cs, i, p);
    if 0 <= j < cs.len() {
        Some(lex_token(cs, j, q + 1))
    } else {
        None
    }
}

/// The characters `op` lex as exactly one token, the plain token `t`, with
/// nothing left over.
pub open spec fn lexes_as(op: Seq<char>, t: TokenType) -> bool {
    &&& op.len() > 0
    &&& lex_token(op, 0, 0).token == Ok::<TokenTypeV, Seq<char>>(TokenTypeV::Plain(t))
    &&& lex_token(op, 0, 0).next == op.len()
}

} // verus!
