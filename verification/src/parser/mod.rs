//! A recursive-descent parser that turns tokens into the syntax tree of a program.
pub mod expr_grammar;
pub mod expression;
pub mod grammar;
pub mod item_grammar;
pub mod items;
pub mod pattern;
pub mod types;

use vstd::prelude::*;
use crate::lexer::tokens::{push_token_text, token_text, Token, TokenType, TokenTypeV};
use crate::meta::{Attribute, AttributeArg, Meta};
use crate::parser::grammar::{
    attribute_arg_list_at, attribute_arg_view, attribute_args_at, attributes_at, attributes_view, prepend, tok,
    AttributeArgV, AttributeV,
};
use crate::text::{owned, push_str};

verus! {

/// An error found while parsing, with the range of the token it is about.
#[derive(Debug, Clone)]
pub struct ParseError {
    pub message: String,
    pub range: Option<std::ops::Range<usize>>,
}

/// The outcome of a parsing function.
pub type Result<T> = std::result::Result<T, ParseError>;

/// The message of an error that expected one token type and found another.
pub open spec fn expected_found(expected: TokenTypeV, found: TokenTypeV) -> Seq<char> {
    "Expected "@ + token_text(expected) + ", found "@ + token_text(found)
}

/// Where skipping to a point of recovery from `i` stops: after the next
/// `;` or `end`, or before the next keyword that starts a declaration or a
/// `let`, or at the end of the tokens.
pub open spec fn sync_stop(ts: Seq<Token>, i: int) -> int
    decreases ts.len() - i,
{
    if !(0 <= i < ts.len()) {
        i
    } else {
        match ts[i].type_@ {
            TokenTypeV::Plain(TokenType::Semicolon) | TokenTypeV::Plain(TokenType::End) => i + 1,
            TokenTypeV::Plain(TokenType::Fn) | TokenTypeV::Plain(TokenType::Struct) | TokenTypeV::Plain(
                TokenType::Enum,
            ) | TokenTypeV::Plain(TokenType::Trait) | TokenTypeV::Plain(TokenType::Impl) | TokenTypeV::Plain(
                TokenType::Const,
            ) | TokenTypeV::Plain(TokenType::Import) | TokenTypeV::Plain(TokenType::Let) => i,
            _ => sync_stop(ts, i + 1),
        }
    }
}

/// A parser that generates an abstract syntax tree.
pub struct Parser {
    tokens: Vec<Token>,
    index: usize,
    filename: String,
    errors: Vec<ParseError>,
}

impl Parser {
    #[verifier::type_invariant]
    spec fn well_formed(self) -> bool {
        self.index <= self.tokens@.len()
    }

    /// The tokens being parsed.
    pub closed spec fn tokens(&self) -> Seq<Token> {
        self.tokens@
    }

    /// The index of the next token.
    pub closed spec fn index(&self) -> int {
        self.index as int
    }

    /// The name of the file the tokens come from.
    pub closed spec fn filename(&self) -> Seq<char> {
        self.filename@
    }

    /// The errors recorded so far.
    pub closed spec fn errors(&self) -> Seq<ParseError> {
        self.errors@
    }

    /// How many tokens are left.
    pub open spec fn remaining(&self) -> int {
        self.tokens().len() - self.index()
    }

    /// The next token, if any.
    pub open spec fn next_token(&self) -> Option<Token> {
        if 0 <= self.index() < self.tokens().len() {
            Some(self.tokens()[self.index()])
        } else {
            None
        }
    }

    /// The parser after a call: same tokens and file, the index has not gone
    /// back, and the recorded errors are unchanged.
    pub open spec fn moved_on(&self, before: Parser) -> bool {
        &&& self.tokens() == before.tokens()
        &&& self.filename() == before.filename()
        &&& self.errors() == before.errors()
        &&& before.index() <= self.index() <= self.tokens().len()
    }

    /// Creates a parser for the given tokens of a file.
    pub fn new(tokens: Vec<Token>, filename: String) -> (r: Self)
        ensures
            r.tokens() == tokens@,
            r.index() == 0,
            r.filename() == filename@,
            r.errors() == Seq::<ParseError>::empty(),
    {
        Parser { tokens, index: 0, filename, errors: Vec::new() }
    }

    /// The index of the next token is within the tokens.
    pub fn index_in_bounds(&self) -> (r: usize)
        ensures
            r == self.index(),
            0 <= self.index() <= self.tokens().len(),
    {
        proof {
            use_type_invariant(self);
        }
        self.index
    }

    /// The next token, without consuming it.
    pub fn peek(&self) -> (r: Option<&Token>)
        ensures
            r is Some <==> self.next_token() is Some,
            r matches Some(t) ==> *t == self.next_token().unwrap(),
            0 <= self.index() <= self.tokens().len(),
    {
        proof {
            use_type_invariant(self);
        }
        if self.index < self.tokens.len() {
            Some(&self.tokens[self.index])
        } else {
            None
        }
    }

    /// The type of the next token, without consuming it.
    pub fn peek_type(&self) -> (r: Option<TokenType>)
        ensures
            r is Some <==> self.next_token() is Some,
            r matches Some(t) ==> t@ == self.next_token().unwrap().type_@,
    {
        match self.peek() {
            Some(t) => Some(t.type_.duplicate()),
            None => None,
        }
    }

    /// The start of the range of the next token, or `default` at the end.
    pub fn peek_start(&self, default: usize) -> (r: usize)
        ensures
            r == match self.next_token() {
                Some(t) => t.range.start,
                None => default,
            },
    {
        match self.peek() {
            Some(t) => t.range.start,
            None => default,
        }
    }

    /// The end of the range of the next token, or `default` at the end.
    pub fn peek_end(&self, default: usize) -> (r: usize)
        ensures
            r == match self.next_token() {
                Some(t) => t.range.end,
                None => default,
            },
    {
        match self.peek() {
            Some(t) => t.range.end,
            None => default,
        }
    }

    /// Consumes the next token, if any.
    pub fn advance(&mut self) -> (r: Option<Token>)
        ensures
            final(self).moved_on(*old(self)),
            match old(self).next_token() {
                Some(t) => {
                    &&& r matches Some(u) && u.type_@ == t.type_@ && u.range == t.range
                    &&& final(self).index() == old(self).index() + 1
                },
                None => r is None && final(self).index() == old(self).index(),
            },
    {
        proof {
            use_type_invariant(&*self);
        }
        if self.index < self.tokens.len() {
            let t = &self.tokens[self.index];
            let copy = Token {
                type_: t.type_.duplicate(),
                range: std::ops::Range { start: t.range.start, end: t.range.end },
            };
            self.index = self.index + 1;
            Some(copy)
        } else {
            None
        }
    }

    /// Consumes the next token; an error at the end of the input.
    pub fn consume(&mut self) -> (r: Result<Token>)
        ensures
            final(self).moved_on(*old(self)),
            match old(self).next_token() {
                Some(t) => {
                    &&& r matches Ok(u) && u.type_@ == t.type_@ && u.range == t.range
                    &&& final(self).index() == old(self).index() + 1
                },
                None => {
                    &&& r matches Err(e) && e.message@ == "Unexpected end of input"@ && e.range is None
                    &&& final(self).index() == old(self).index()
                },
            },
    {
        match self.advance() {
            Some(t) => Ok(t),
            None => Err(ParseError { message: owned("Unexpected end of input"), range: None }),
        }
    }

    /// Consumes the next token, which must be of the expected type.
    pub fn consume_type(&mut self, expected: TokenType) -> (r: Result<TokenType>)
        ensures
            final(self).moved_on(*old(self)),
            match old(self).next_token() {
                Some(t) => {
                    &&& final(self).index() == old(self).index() + 1
                    &&& if t.type_@ == expected@ {
                        r matches Ok(u) && u@ == expected@
                    } else {
                        r matches Err(e) && e.message@ == expected_found(expected@, t.type_@)
                            && e.range == Some(t.range)
                    }
                },
                None => r matches Err(e) && e.message@ == "Unexpected end of input"@
                    && final(self).index() == old(self).index(),
            },
    {
        let token = self.consume()?;
        if token.type_.same_as(&expected) {
            Ok(token.type_)
        } else {
            let mut message = owned("Expected ");
            push_token_text(&mut message, &expected);
            push_str(&mut message, ", found ");
            push_token_text(&mut message, &token.type_);
            assert(message@ =~= expected_found(expected@, token.type_@));
            Err(ParseError { message, range: Some(token.range) })
        }
    }

    /// Consumes the next token, which must be an identifier, and gives its name.
    pub fn consume_identifier(&mut self) -> (r: Result<String>)
        ensures
            final(self).moved_on(*old(self)),
            match old(self).next_token() {
                Some(t) => {
                    &&& final(self).index() == old(self).index() + 1
                    &&& match t.type_@ {
                        TokenTypeV::Identifier(name) => r matches Ok(n) && n@ == name,
                        _ => r matches Err(e) && e.message@ == "Expected identifier, found "@
                            + token_text(t.type_@) && e.range == Some(t.range),
                    }
                },
                None => r matches Err(e) && e.message@ == "Unexpected end of input"@
                    && final(self).index() == old(self).index(),
            },
    {
        let token = self.consume()?;
        match token.type_ {
            TokenType::Identifier(name) => Ok(name),
            _ => {
                let mut message = owned("Expected identifier, found ");
                push_token_text(&mut message, &token.type_);
                Err(ParseError { message, range: Some(token.range) })
            },
        }
    }

    /// The next token, which must be of the expected type; nothing is consumed.
    pub fn expect_type(&self, expected: TokenType) -> (r: Result<&Token>)
        ensures
            match self.next_token() {
                Some(t) => if t.type_@ == expected@ {
                    r matches Ok(u) && *u == t
                } else {
                    r matches Err(e) && e.message@ == expected_found(expected@, t.type_@)
                        && e.range == Some(t.range)
                },
                None => r matches Err(e) && e.message@ == "Expected "@ + token_text(expected@)
                    + ", found end of input"@ && e.range is None,
            },
    {
        match self.peek() {
            Some(token) => {
                if token.type_.same_as(&expected) {
                    Ok(token)
                } else {
                    let mut message = owned("Expected ");
                    push_token_text(&mut message, &expected);
                    push_str(&mut message, ", found ");
                    push_token_text(&mut message, &token.type_);
                    assert(message@ =~= expected_found(expected@, token.type_@));
                    Err(
                        ParseError {
                            message,
                            range: Some(
                                std::ops::Range { start: token.range.start, end: token.range.end },
                            ),
                        },
                    )
                }
            },
            None => {
                let mut message = owned("Expected ");
                push_token_text(&mut message, &expected);
                push_str(&mut message, ", found end of input");
                Err(ParseError { message, range: None })
            },
        }
    }

    /// Whether the next token is of the expected type.
    pub fn check_type(&self, expected: TokenType) -> (r: bool)
        ensures
            r == (self.next_token() matches Some(t) && t.type_@ == expected@),
    {
        match self.peek() {
            Some(t) => t.type_.same_as(&expected),
            None => false,
        }
    }

    /// Whether the next token is an identifier.
    pub fn check_identifier(&self) -> (r: bool)
        ensures
            r == (self.next_token() matches Some(t) && t.type_ is Identifier),
    {
        match self.peek() {
            Some(t) => match t.type_ {
                TokenType::Identifier(_) => true,
                _ => false,
            },
            None => false,
        }
    }

    /// Consumes the next token when it is of the expected type.
    pub fn match_type(&mut self, expected: TokenType) -> (r: bool)
        ensures
            final(self).moved_on(*old(self)),
            r == (old(self).next_token() matches Some(t) && t.type_@ == expected@),
            final(self).index() == old(self).index() + if r {
                1int
            } else {
                0int
            },
    {
        proof {
            use_type_invariant(&*self);
        }
        if self.check_type(expected) {
            self.advance();
            true
        } else {
            false
        }
    }

    /// Consumes the next token when it is of one of the given types, and gives that type.
    pub fn match_any(&mut self, types: &[TokenType]) -> (r: Option<TokenType>)
        ensures
            final(self).moved_on(*old(self)),
            match r {
                Some(t) => {
                    &&& old(self).next_token() matches Some(u) && u.type_@ == t@
                    &&& exists|i: int| 0 <= i < types@.len() && (#[trigger] types@[i])@ == t@
                    &&& final(self).index() == old(self).index() + 1
                },
                None => {
                    &&& forall|i: int|
                        0 <= i < types@.len() ==> !(old(self).next_token() matches Some(u)
                            && u.type_@ == (#[trigger] types@[i])@)
                    &&& final(self).index() == old(self).index()
                },
            },
    {
        proof {
            use_type_invariant(&*self);
        }
        let mut i: usize = 0;
        while i < types.len()
            invariant
                *self == *old(self),
                0 <= self.index() <= self.tokens().len(),
                i <= types@.len(),
                forall|k: int|
                    0 <= k < i ==> !(self.next_token() matches Some(u) && u.type_@ == (
                    #[trigger] types@[k])@),
            decreases types.len() - i,
        {
            if self.check_type(types[i].duplicate()) {
                self.advance();
                return Some(types[i].duplicate());
            }
            i = i + 1;
        }
        None
    }

    /// Skips tokens up to and including the next `;` or `end`, or up to the
    /// next keyword that starts a declaration or a `let`.
    pub fn sync(&mut self)
        ensures
            final(self).moved_on(*old(self)),
            final(self).index() == sync_stop(old(self).tokens(), old(self).index()),
    {
        proof {
            use_type_invariant(&*self);
        }
        loop
            invariant_except_break
                self.moved_on(*old(self)),
                sync_stop(self.tokens(), self.index()) == sync_stop(old(self).tokens(), old(self).index()),
            ensures
                self.moved_on(*old(self)),
                self.index() == sync_stop(old(self).tokens(), old(self).index()),
            decreases self.remaining(),
        {
            proof {
                use_type_invariant(&*self);
            }
            match self.peek_type() {
                Some(TokenType::Semicolon) => {
                    self.advance();
                    break;
                },
                Some(TokenType::End) => {
                    self.advance();
                    break;
                },
                Some(TokenType::Fn) | Some(TokenType::Struct) | Some(TokenType::Enum) | Some(
                    TokenType::Trait,
                ) | Some(TokenType::Impl) | Some(TokenType::Const) | Some(TokenType::Import) | Some(
                    TokenType::Let,
                ) => break,
                None => break,
                _ => {
                    self.advance();
                },
            }
        }
    }

    /// A `Meta` for this parser's file with the given range and no attributes.
    pub fn create_meta(&self, range: std::ops::Range<usize>) -> (r: Meta)
        ensures
            r.filename@ == self.filename(),
            r.range == range,
            r.attributes@.len() == 0,
    {
        Meta { filename: self.filename.clone(), range, attributes: Vec::new() }
    }

    /// A `Meta` for this parser's file from `start` to `end` with no attributes.
    pub fn meta(&self, start: usize, end: usize) -> (r: Meta)
        ensures
            r.filename@ == self.filename(),
            r.range.start == start && r.range.end == end,
            r.attributes@.len() == 0,
    {
        self.create_meta(std::ops::Range { start, end })
    }

    /// Parses the attributes written before a declaration or an
    /// expression: `@name` or `@name(args)`, where an argument is a string,
    /// a name, or `name = value`.
    pub fn parse_attributes(&mut self) -> (r: Result<Vec<Attribute>>)
        ensures
            final(self).moved_on(*old(self)),
            !(old(self).next_token() matches Some(t) && t.type_@ == TokenTypeV::Plain(TokenType::At))
                ==> (r matches Ok(v) && v@.len() == 0 && final(self).index() == old(self).index()),
            match attributes_at(old(self).tokens(), old(self).index()) {
                Ok((attrs, k)) => (r matches Ok(v) && attributes_view(v@) == attrs && final(self).index() == k),
                Err(m) => (r matches Err(e) && e.message@ == m),
            },
    {
        proof {
            use_type_invariant(&*self);
        }
        let ghost ts = self.tokens();
        let ghost start = self.index();
        let mut attributes: Vec<Attribute> = Vec::new();
        loop
            invariant_except_break
                self.moved_on(*old(self)),
                self.tokens() == ts,
                start == old(self).index(),
                self.index() == start ==> attributes@.len() == 0,
                self.index() > start ==> tok(ts, start) == Some(TokenTypeV::Plain(TokenType::At)),
                attributes_at(ts, start) == prepend(attributes_view(attributes@), attributes_at(ts, self.index())),
            ensures
                self.moved_on(*old(self)),
                self.tokens() == ts,
                self.index() == start ==> attributes@.len() == 0,
                self.index() > start ==> tok(ts, start) == Some(TokenTypeV::Plain(TokenType::At)),
                attributes_at(ts, start) == Ok::<(Seq<AttributeV>, int), Seq<char>>(
                    (attributes_view(attributes@), self.index()),
                ),
            decreases self.remaining(),
        {
            let ghost head = self.index();
            let ghost acc = attributes_view(attributes@);
            if !self.match_type(TokenType::At) {
                proof {
                    assert(acc + Seq::<AttributeV>::empty() =~= acc);
                }
                break;
            }
            let name = self.consume_identifier()?;
            let args = self.parse_attribute_arg_list()?;
            let ghost av = AttributeV { name: name@, args: args@.map_values(|x: AttributeArg| attribute_arg_view(x)) };
            let ghost before_attrs = attributes@;
            attributes.push(Attribute { name, args });
            proof {
                assert(attributes_view(attributes@) =~= acc + seq![av]);
                let inner = attributes_at(ts, self.index());
                match inner {
                    Ok((rest, e)) => {
                        assert(acc + (seq![av] + rest) =~= (acc + seq![av]) + rest);
                    },
                    Err(_) => {},
                }
            }
        }
        Ok(attributes)
    }

    /// Parses the optional arguments of an attribute: none unless a `(`
    /// comes next, else up to and including the `)`.
    fn parse_attribute_arg_list(&mut self) -> (r: Result<Vec<AttributeArg>>)
        ensures
            final(self).moved_on(*old(self)),
            match attribute_arg_list_at(old(self).tokens(), old(self).index()) {
                Ok((args, k)) => (r matches Ok(v) && v@.map_values(|x: AttributeArg| attribute_arg_view(x)) == args
                    && final(self).index() == k),
                Err(m) => (r matches Err(e) && e.message@ == m),
            },
    {
        proof {
            use_type_invariant(&*self);
        }
        let ghost ts = self.tokens();
        let mut attribute_args: Vec<AttributeArg> = Vec::new();
        proof {
            assert(attribute_args@.map_values(|x: AttributeArg| attribute_arg_view(x)) =~= Seq::<AttributeArgV>::empty());
        }
        if !self.match_type(TokenType::LParen) {
            return Ok(attribute_args);
        }
        let ghost args_start = self.index();
        if !self.check_type(TokenType::RParen) {
            loop
                invariant_except_break
                    self.moved_on(*old(self)),
                    self.tokens() == ts,
                    args_start == old(self).index() + 1,
                    self.index() >= args_start,
                    tok(ts, old(self).index()) == Some(TokenTypeV::Plain(TokenType::LParen)),
                    tok(ts, args_start) != Some(TokenTypeV::Plain(TokenType::RParen)),
                    attribute_args_at(ts, args_start) == prepend(
                        attribute_args@.map_values(|x: AttributeArg| attribute_arg_view(x)),
                        attribute_args_at(ts, self.index()),
                    ),
                ensures
                    self.moved_on(*old(self)),
                    self.tokens() == ts,
                    self.index() >= args_start,
                    tok(ts, old(self).index()) == Some(TokenTypeV::Plain(TokenType::LParen)),
                    tok(ts, args_start) != Some(TokenTypeV::Plain(TokenType::RParen)),
                    attribute_args_at(ts, args_start) == Ok::<(Seq<AttributeArgV>, int), Seq<char>>(
                        (attribute_args@.map_values(|x: AttributeArg| attribute_arg_view(x)), self.index()),
                    ),
                decreases self.remaining(),
            {
                let ghost arg_acc = attribute_args@.map_values(|x: AttributeArg| attribute_arg_view(x));
                let ghost before = attribute_args@;
                let is_string = match self.peek_type() {
                    Some(TokenType::Str(_)) => true,
                    _ => false,
                };
                if self.check_identifier() || is_string {
                    let token = self.consume()?;
                    match token.type_ {
                        TokenType::Str(s) => {
                            attribute_args.push(AttributeArg::Literal(s));
                        },
                        TokenType::Identifier(s) => {
                            if self.match_type(TokenType::Assign) {
                                let value_token = self.consume()?;
                                match value_token.type_ {
                                    TokenType::Str(v) => {
                                        attribute_args.push(AttributeArg::KeyValue(s, v));
                                    },
                                    TokenType::Identifier(v) => {
                                        attribute_args.push(AttributeArg::KeyValue(s, v));
                                    },
                                    _ => {
                                        let mut message = owned("Invalid attribute value: ");
                                        push_token_text(&mut message, &value_token.type_);
                                        return Err(ParseError { message, range: Some(value_token.range) });
                                    },
                                }
                            } else {
                                attribute_args.push(AttributeArg::Variable(s));
                            }
                        },
                        _ => {},
                    }
                }
                proof {
                    if attribute_args@.len() > before.len() {
                        assert(attribute_args@.drop_last() =~= before);
                        assert(attribute_args@.map_values(|x: AttributeArg| attribute_arg_view(x)) =~= arg_acc
                            + seq![attribute_arg_view(attribute_args@.last())]);
                    } else {
                        assert(attribute_args@ == before);
                        assert(arg_acc + Seq::<AttributeArgV>::empty() =~= arg_acc);
                    }
                }
                if !self.match_type(TokenType::Comma) {
                    break;
                }
                proof {
                    let inner = attribute_args_at(ts, self.index());
                    let new_acc = attribute_args@.map_values(|x: AttributeArg| attribute_arg_view(x));
                    match inner {
                        Ok((rest, e)) => {
                            if attribute_args@.len() > before.len() {
                                assert(arg_acc + (seq![attribute_arg_view(attribute_args@.last())] + rest)
                                    =~= new_acc + rest);
                            } else {
                                assert(arg_acc + (Seq::<AttributeArgV>::empty() + rest) =~= new_acc + rest);
                            }
                        },
                        Err(_) => {},
                    }
                }
            }
        }
        self.consume_type(TokenType::RParen)?;
        Ok(attribute_args)
    }

    /// Records an error.
    pub fn add_error(&mut self, error: ParseError)
        ensures
            final(self).tokens() == old(self).tokens(),
            final(self).index() == old(self).index(),
            final(self).filename() == old(self).filename(),
            final(self).errors() == old(self).errors().push(error),
    {
        proof {
            use_type_invariant(&*self);
        }
        let mut errors: Vec<ParseError> = Vec::new();
        std::mem::swap(&mut errors, &mut self.errors);
        errors.push(error);
        self.errors = errors;
    }

    /// Whether an error was recorded.
    pub fn has_errors(&self) -> (r: bool)
        ensures
            r == (self.errors().len() > 0),
    {
        !self.errors.is_empty()
    }

    /// The errors recorded so far.
    pub fn get_errors(&self) -> (r: &[ParseError])
        ensures
            r@ == self.errors(),
    {
        self.errors.as_slice()
    }

    /// Whether all tokens have been consumed.
    pub fn is_at_end(&self) -> (r: bool)
        ensures
            r == (self.next_token() is None),
    {
        self.peek().is_none()
    }
}

} // verus!
