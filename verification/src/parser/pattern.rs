//! Patterns of match arms.
use vstd::prelude::*;
use crate::ast::{Literal, Pattern, StructPatternField};
use crate::lexer::tokens::{push_token_text, TokenType, TokenTypeV};
use crate::parser::grammar::{
    field_items_at, field_view, fields_view, pattern_at, pattern_items_at, pattern_list_at, pattern_fields_at,
    pattern_view, patterns_view, prepend, tok, FieldV, PatternV,
};
use crate::parser::expression::path_name;
use crate::parser::types::error;
use crate::parser::{ParseError, Parser, Result};
use crate::text::{owned, str_eq};

verus! {

impl Parser {
    /// Parses the fields of a struct pattern after its `{`, up to and
    /// including the `}`: `name` or `name: pattern`.
    fn parse_struct_pattern_fields(&mut self) -> (r: Result<Vec<StructPatternField>>)
        ensures
            final(self).moved_on(*old(self)),
            r is Ok ==> final(self).index() > old(self).index(),
            match pattern_fields_at(old(self).tokens(), old(self).index()) {
                Ok((fields, k)) => (r matches Ok(v) && fields_view(v@) == fields && final(self).index() == k),
                Err(m) => (r matches Err(e) && e.message@ == m),
            },
        decreases old(self).remaining(), 1nat,
    {
        proof {
            use_type_invariant(&*self);
        }
        let ghost ts = self.tokens();
        let ghost start = self.index();
        let mut fields: Vec<StructPatternField> = Vec::new();
        if !self.check_type(TokenType::RBrace) {
            loop
                invariant_except_break
                    self.moved_on(*old(self)),
                    self.tokens() == ts,
                    start == old(self).index(),
                    tok(ts, start) != Some(TokenTypeV::Plain(TokenType::RBrace)),
                    field_items_at(ts, start) == prepend(fields_view(fields@), field_items_at(ts, self.index())),
                ensures
                    self.moved_on(*old(self)),
                    self.tokens() == ts,
                    self.index() > start,
                    tok(ts, start) != Some(TokenTypeV::Plain(TokenType::RBrace)),
                    field_items_at(ts, start) == Ok::<(Seq<FieldV>, int), Seq<char>>(
                        (fields_view(fields@), self.index()),
                    ),
                decreases self.remaining(),
            {
                let ghost acc = fields_view(fields@);
                let field_name = self.consume_identifier()?;
                let field = if self.match_type(TokenType::Colon) {
                    let pattern = self.parse_pattern()?;
                    StructPatternField::Typed { name: field_name, pattern }
                } else {
                    StructPatternField::Shorthand(field_name)
                };
                let ghost fv = field_view(field);
                let ghost before = fields@;
                fields.push(field);
                proof {
                    assert(fields@.drop_last() =~= before);
                    assert(fields_view(fields@) == acc.push(fv));
                    assert(acc.push(fv) =~= acc + seq![fv]);
                }
                if !self.match_type(TokenType::Comma) {
                    break;
                }
                proof {
                    let inner = field_items_at(ts, self.index());
                    match inner {
                        Ok((rest, e)) => {
                            assert(acc + (seq![fv] + rest) =~= (acc + seq![fv]) + rest);
                        },
                        Err(_) => {},
                    }
                }
            }
        }
        self.consume_type(TokenType::RBrace)?;
        Ok(fields)
    }

    /// Parses patterns separated by commas after a `(`, up to and including the `)`.
    fn parse_pattern_list(&mut self) -> (r: Result<Vec<Pattern>>)
        ensures
            final(self).moved_on(*old(self)),
            r is Ok ==> final(self).index() > old(self).index(),
            match pattern_list_at(old(self).tokens(), old(self).index()) {
                Ok((ps, k)) => (r matches Ok(v) && patterns_view(v@) == ps && final(self).index() == k),
                Err(m) => (r matches Err(e) && e.message@ == m),
            },
        decreases old(self).remaining(), 1nat,
    {
        proof {
            use_type_invariant(&*self);
        }
        let ghost ts = self.tokens();
        let ghost start = self.index();
        let mut patterns: Vec<Pattern> = Vec::new();
        if !self.check_type(TokenType::RParen) {
            loop
                invariant_except_break
                    self.moved_on(*old(self)),
                    self.tokens() == ts,
                    start == old(self).index(),
                    tok(ts, start) != Some(TokenTypeV::Plain(TokenType::RParen)),
                    pattern_items_at(ts, start) == prepend(patterns_view(patterns@), pattern_items_at(ts, self.index())),
                ensures
                    self.moved_on(*old(self)),
                    self.tokens() == ts,
                    self.index() > start,
                    tok(ts, start) != Some(TokenTypeV::Plain(TokenType::RParen)),
                    pattern_items_at(ts, start) == Ok::<(Seq<PatternV>, int), Seq<char>>(
                        (patterns_view(patterns@), self.index()),
                    ),
                decreases self.remaining(),
            {
                let ghost acc = patterns_view(patterns@);
                let p = self.parse_pattern()?;
                let ghost pv = pattern_view(p);
                let ghost before = patterns@;
                patterns.push(p);
                proof {
                    assert(patterns@.drop_last() =~= before);
                    assert(patterns_view(patterns@) == acc.push(pv));
                    assert(acc.push(pv) =~= acc + seq![pv]);
                }
                if !self.match_type(TokenType::Comma) {
                    break;
                }
                proof {
                    let inner = pattern_items_at(ts, self.index());
                    match inner {
                        Ok((rest, e)) => {
                            assert(acc + (seq![pv] + rest) =~= (acc + seq![pv]) + rest);
                        },
                        Err(_) => {},
                    }
                }
            }
        }
        self.consume_type(TokenType::RParen)?;
        Ok(patterns)
    }

    /// Parses a pattern: a literal, `_`, a name, a struct pattern, an enum
    /// variant pattern `Enum::Variant` (with fields in parentheses or braces),
    /// or a tuple of patterns.
    pub fn parse_pattern(&mut self) -> (r: Result<Pattern>)
        ensures
            final(self).moved_on(*old(self)),
            r is Ok ==> final(self).index() > old(self).index(),
            match pattern_at(old(self).tokens(), old(self).index()) {
                Ok((p, k)) => (r matches Ok(pat) && pattern_view(pat) == p && final(self).index() == k),
                Err(m) => (r matches Err(e) && e.message@ == m),
            },
        decreases old(self).remaining(), 0nat,
    {
        proof {
            use_type_invariant(&*self);
        }
        let (start, end, token_type) = match self.peek() {
            Some(t) => (t.range.start, t.range.end, t.type_.duplicate()),
            None => {
                return Err(error("Expected pattern"));
            },
        };
        let no_fields: Vec<Pattern> = Vec::new();
        assert(patterns_view(no_fields@) =~= Seq::<PatternV>::empty());
        match token_type {
            TokenType::Integer(i) => {
                self.advance();
                Ok(Pattern::Literal(Literal::Integer(i)))
            },
            TokenType::Float(f) => {
                self.advance();
                Ok(Pattern::Literal(Literal::Float(f)))
            },
            TokenType::Str(s) => {
                self.advance();
                Ok(Pattern::Literal(Literal::String(s)))
            },
            TokenType::True => {
                self.advance();
                Ok(Pattern::Literal(Literal::Boolean(true)))
            },
            TokenType::False => {
                self.advance();
                Ok(Pattern::Literal(Literal::Boolean(false)))
            },
            TokenType::Identifier(name) => {
                self.advance();
                proof {
                    reveal_strlit("_");
                }
                if str_eq(name.as_str(), "_") {
                    return Ok(Pattern::Wildcard);
                }
                if self.match_type(TokenType::DoubleColon) {
                    let variant_name = self.consume_identifier()?;
                    if self.match_type(TokenType::LParen) {
                        let fields = self.parse_pattern_list()?;
                        Ok(Pattern::EnumVariant { name: path_name(&name, &variant_name), fields })
                    } else if self.match_type(TokenType::LBrace) {
                        let _fields = self.parse_struct_pattern_fields()?;
                        Ok(Pattern::EnumVariant { name: path_name(&name, &variant_name), fields: no_fields })
                    } else {
                        Ok(Pattern::EnumVariant { name: path_name(&name, &variant_name), fields: no_fields })
                    }
                } else if self.match_type(TokenType::LBrace) {
                    let fields = self.parse_struct_pattern_fields()?;
                    Ok(Pattern::Struct { name, fields })
                } else {
                    Ok(Pattern::Variable(name))
                }
            },
            TokenType::LParen => {
                self.advance();
                let patterns = self.parse_pattern_list()?;
                Ok(Pattern::Tuple(patterns))
            },
            other => {
                let mut message = owned("Expected pattern, found ");
                push_token_text(&mut message, &other);
                Err(ParseError { message, range: Some(std::ops::Range { start, end }) })
            },
        }
    }
}

} // verus!
