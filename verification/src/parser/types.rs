//! Type annotations, generic parameters and function parameters.
use vstd::prelude::*;
use crate::ast::{FunctionParam, GenericParam, RowTypeField, TypeAnnotation, TypeAnnotationKind};
use crate::lexer::tokens::{TokenType, TokenTypeV};
use crate::parser::grammar::{
    annotation_at, annotation_items_at, annotation_list_at, annotation_view, annotations_view, expect,
    constraint_items_at, generic_items_at, generic_params_at, generics_view, prepend, row_fields_view,
    row_items_at, tok, AnnotationV, GenericV,
};
use crate::parser::item_grammar::fn_param_at;
use crate::parser::{ParseError, Parser, Result};
use crate::text::owned;

verus! {

/// An error without a range.
pub fn error(message: &str) -> (r: ParseError)
    ensures
        r.message@ == message@,
        r.range is None,
{
    ParseError { message: owned(message), range: None }
}

impl Parser {
    /// Parses a type annotation: a name with optional generic arguments, a
    /// tuple, a row or an array type.
    pub fn parse_type_annotation(&mut self) -> (r: Result<TypeAnnotation>)
        ensures
            final(self).moved_on(*old(self)),
            r is Ok ==> final(self).index() > old(self).index(),
            match annotation_at(old(self).tokens(), old(self).index()) {
                Ok((a, k)) => (r matches Ok(ta) && annotation_view(ta) == a && final(self).index() == k),
                Err(m) => (r matches Err(e) && e.message@ == m),
            },
        decreases old(self).remaining(), 0nat,
    {
        proof {
            use_type_invariant(&*self);
        }
        let ghost ts = self.tokens();
        let ghost i = self.index();
        let start = match self.peek() {
            Some(t) => t.range.start,
            None => {
                return Err(error("Expected type annotation"));
            },
        };
        let name = if self.match_type(TokenType::SelfType) {
            owned("Self")
        } else {
            self.consume_identifier()?
        };
        proof {
            reveal_strlit("Self");
        }
        let no_args: Vec<TypeAnnotation> = Vec::new();
        assert(annotations_view(no_args@) =~= Seq::<AnnotationV>::empty());
        let kind = if crate::text::str_eq(name.as_str(), "Self") {
            TypeAnnotationKind::Constructor { name, generic_args: no_args }
        } else if self.match_type(TokenType::Less) {
            let generic_args = self.parse_type_arguments()?;
            TypeAnnotationKind::Constructor { name, generic_args }
        } else if self.match_type(TokenType::LParen) {
            let types = self.parse_annotation_list(TokenType::RParen)?;
            TypeAnnotationKind::Tuple(types)
        } else if self.match_type(TokenType::LBrace) {
            let fields = self.parse_row_type_fields()?;
            TypeAnnotationKind::Row(fields)
        } else if self.match_type(TokenType::LBrack) {
            let element_type = Box::new(self.parse_type_annotation()?);
            let size = match self.peek_type() {
                Some(TokenType::Integer(n)) => {
                    self.advance();
                    Some(n as usize)
                },
                _ => None,
            };
            self.consume_type(TokenType::RBrack)?;
            TypeAnnotationKind::Array { element_type, size }
        } else {
            TypeAnnotationKind::Constructor { name, generic_args: no_args }
        };
        let end = self.peek_end(start);
        Ok(TypeAnnotation { meta: self.meta(start, end), kind })
    }

    /// Parses type annotations separated by commas, up to and including
    /// the closing token.
    pub(crate) fn parse_annotation_list(&mut self, close: TokenType) -> (r: Result<Vec<TypeAnnotation>>)
        ensures
            final(self).moved_on(*old(self)),
            r is Ok ==> final(self).index() > old(self).index(),
            match annotation_list_at(old(self).tokens(), old(self).index(), close) {
                Ok((items, k)) => (r matches Ok(v) && annotations_view(v@) == items && final(self).index() == k),
                Err(m) => (r matches Err(e) && e.message@ == m),
            },
        decreases old(self).remaining(), 1nat,
    {
        proof {
            use_type_invariant(&*self);
        }
        let ghost ts = self.tokens();
        let ghost start = self.index();
        let mut items: Vec<TypeAnnotation> = Vec::new();
        if !self.check_type(close.duplicate()) {
            loop
                invariant_except_break
                    self.moved_on(*old(self)),
                    self.tokens() == ts,
                    start == old(self).index(),
                    tok(ts, start) != Some(close@),
                    annotation_items_at(ts, start) == prepend(
                        annotations_view(items@),
                        annotation_items_at(ts, self.index()),
                    ),
                ensures
                    self.moved_on(*old(self)),
                    self.tokens() == ts,
                    self.index() > start,
                    tok(ts, start) != Some(close@),
                    annotation_items_at(ts, start) == Ok::<(Seq<AnnotationV>, int), Seq<char>>(
                        (annotations_view(items@), self.index()),
                    ),
                decreases self.remaining(),
            {
                let ghost cur = self.index();
                let ghost acc = annotations_view(items@);
                let a = self.parse_type_annotation()?;
                let ghost av = annotation_view(a);
                let ghost before = items@;
                items.push(a);
                proof {
                    assert(items@.drop_last() =~= before);
                    assert(annotations_view(items@) == acc.push(av));
                    assert(acc.push(av) =~= acc + seq![av]);
                }
                if !self.match_type(TokenType::Comma) {
                    break;
                }
                proof {
                    let inner = annotation_items_at(ts, self.index());
                    match inner {
                        Ok((rest, e)) => {
                            assert(acc + (seq![av] + rest) =~= (acc + seq![av]) + rest);
                        },
                        Err(_) => {},
                    }
                }
            }
        }
        self.consume_type(close)?;
        Ok(items)
    }

    /// Parses the fields `name: type` of a row annotation, separated by
    /// commas, up to and including the `}`.
    fn parse_row_type_fields(&mut self) -> (r: Result<Vec<RowTypeField>>)
        ensures
            final(self).moved_on(*old(self)),
            r is Ok ==> final(self).index() > old(self).index(),
            match (if tok(old(self).tokens(), old(self).index()) == Some(TokenTypeV::Plain(TokenType::RBrace)) {
                Ok((Seq::<(Seq<char>, AnnotationV)>::empty(), old(self).index() + 1))
            } else {
                match row_items_at(old(self).tokens(), old(self).index()) {
                    Ok((fields, k)) => match expect(old(self).tokens(), k, TokenType::RBrace) {
                        Ok(k2) => Ok((fields, k2)),
                        Err(m) => Err(m),
                    },
                    Err(m) => Err(m),
                }
            }) {
                Ok((fields, k)) => (r matches Ok(v) && row_fields_view(v@) == fields && final(self).index() == k),
                Err(m) => (r matches Err(e) && e.message@ == m),
            },
        decreases old(self).remaining(), 1nat,
    {
        proof {
            use_type_invariant(&*self);
        }
        let ghost ts = self.tokens();
        let ghost start = self.index();
        let mut fields: Vec<RowTypeField> = Vec::new();
        if !self.check_type(TokenType::RBrace) {
            loop
                invariant_except_break
                    self.moved_on(*old(self)),
                    self.tokens() == ts,
                    start == old(self).index(),
                    tok(ts, start) != Some(TokenTypeV::Plain(TokenType::RBrace)),
                    row_items_at(ts, start) == prepend(row_fields_view(fields@), row_items_at(ts, self.index())),
                ensures
                    self.moved_on(*old(self)),
                    self.tokens() == ts,
                    self.index() > start,
                    tok(ts, start) != Some(TokenTypeV::Plain(TokenType::RBrace)),
                    row_items_at(ts, start) == Ok::<(Seq<(Seq<char>, AnnotationV)>, int), Seq<char>>(
                        (row_fields_view(fields@), self.index()),
                    ),
                decreases self.remaining(),
            {
                let ghost cur = self.index();
                let ghost acc = row_fields_view(fields@);
                let field_name = self.consume_identifier()?;
                self.consume_type(TokenType::Colon)?;
                let field_type = self.parse_type_annotation()?;
                let ghost fv = (field_name@, annotation_view(field_type));
                let ghost before = fields@;
                fields.push(RowTypeField { name: field_name, type_annotation: field_type });
                proof {
                    assert(fields@.drop_last() =~= before);
                    assert(row_fields_view(fields@) == acc.push(fv));
                    assert(acc.push(fv) =~= acc + seq![fv]);
                }
                if !self.match_type(TokenType::Comma) {
                    break;
                }
                proof {
                    let inner = row_items_at(ts, self.index());
                    match inner {
                        Ok((rest, e)) => {
                            assert(acc + (seq![fv] + rest) =~= (acc + seq![fv]) + rest);
                        },
                        Err(_) => {},
                    }
                }
            }
        }
        self.consume_type(TokenType::RBrace)?;
        Ok(fields)
    }

    /// Parses the generic arguments of a type after its `<`, up to and including the `>`.
    pub fn parse_type_arguments(&mut self) -> (r: Result<Vec<TypeAnnotation>>)
        ensures
            final(self).moved_on(*old(self)),
            r is Ok ==> final(self).index() > old(self).index(),
            match annotation_list_at(old(self).tokens(), old(self).index(), TokenType::Greater) {
                Ok((items, k)) => (r matches Ok(v) && annotations_view(v@) == items && final(self).index() == k),
                Err(m) => (r matches Err(e) && e.message@ == m),
            },
        decreases old(self).remaining(), 2nat,
    {
        self.parse_annotation_list(TokenType::Greater)
    }

    /// Parses generic parameters after their `<`, each with its constraints
    /// joined by `+`, up to and including the `>`.
    pub fn parse_generic_params(&mut self) -> (r: Result<Vec<GenericParam>>)
        ensures
            final(self).moved_on(*old(self)),
            r is Ok ==> final(self).index() > old(self).index(),
            match generic_params_at(old(self).tokens(), old(self).index()) {
                Ok((gs, k)) => (r matches Ok(v) && generics_view(v@) == gs && final(self).index() == k),
                Err(m) => (r matches Err(e) && e.message@ == m),
            },
    {
        proof {
            use_type_invariant(&*self);
        }
        let ghost ts = self.tokens();
        let ghost start = self.index();
        let mut params: Vec<GenericParam> = Vec::new();
        loop
            invariant_except_break
                self.moved_on(*old(self)),
                self.tokens() == ts,
                start == old(self).index(),
                generic_items_at(ts, start) == prepend(generics_view(params@), generic_items_at(ts, self.index())),
            ensures
                self.moved_on(*old(self)),
                self.tokens() == ts,
                self.index() > start,
                generic_items_at(ts, start) == Ok::<(Seq<GenericV>, int), Seq<char>>(
                    (generics_view(params@), self.index()),
                ),
            decreases self.remaining(),
        {
            let ghost acc = generics_view(params@);
            let name = self.consume_identifier()?;
            let constraints = self.parse_constraints()?;
            let ghost gv = GenericV { name: name@, constraints: annotations_view(constraints@) };
            let ghost before = params@;
            params.push(GenericParam { name, constraints });
            proof {
                assert(generics_view(params@) =~= acc + seq![gv]);
            }
            if !self.match_type(TokenType::Comma) {
                break;
            }
            proof {
                let inner = generic_items_at(ts, self.index());
                match inner {
                    Ok((rest, e)) => {
                        assert(acc + (seq![gv] + rest) =~= (acc + seq![gv]) + rest);
                    },
                    Err(_) => {},
                }
            }
        }
        self.consume_type(TokenType::Greater)?;
        Ok(params)
    }

    /// Parses the bounds of a generic parameter: none unless a `:` comes
    /// next, else type annotations joined by `+`.
    fn parse_constraints(&mut self) -> (r: Result<Vec<TypeAnnotation>>)
        ensures
            final(self).moved_on(*old(self)),
            match (if tok(old(self).tokens(), old(self).index()) == Some(TokenTypeV::Plain(TokenType::Colon)) {
                constraint_items_at(old(self).tokens(), old(self).index() + 1)
            } else {
                Ok((Seq::<AnnotationV>::empty(), old(self).index()))
            }) {
                Ok((cs, k)) => (r matches Ok(v) && annotations_view(v@) == cs && final(self).index() == k),
                Err(m) => (r matches Err(e) && e.message@ == m),
            },
    {
        proof {
            use_type_invariant(&*self);
        }
        let ghost ts = self.tokens();
        let mut constraints: Vec<TypeAnnotation> = Vec::new();
        proof {
            assert(annotations_view(constraints@) =~= Seq::<AnnotationV>::empty());
        }
        if !self.match_type(TokenType::Colon) {
            return Ok(constraints);
        }
        let ghost start = self.index();
        loop
            invariant_except_break
                self.moved_on(*old(self)),
                self.tokens() == ts,
                start == old(self).index() + 1,
                tok(ts, old(self).index()) == Some(TokenTypeV::Plain(TokenType::Colon)),
                constraint_items_at(ts, start) == prepend(annotations_view(constraints@), constraint_items_at(ts, self.index())),
            ensures
                self.moved_on(*old(self)),
                self.tokens() == ts,
                tok(ts, old(self).index()) == Some(TokenTypeV::Plain(TokenType::Colon)),
                constraint_items_at(ts, start) == Ok::<(Seq<AnnotationV>, int), Seq<char>>(
                    (annotations_view(constraints@), self.index()),
                ),
            decreases self.remaining(),
        {
            let ghost acc = annotations_view(constraints@);
            let a = self.parse_type_annotation()?;
            let ghost av = annotation_view(a);
            let ghost before = constraints@;
            constraints.push(a);
            proof {
                assert(constraints@.drop_last() =~= before);
                assert(annotations_view(constraints@) == acc.push(av));
                assert(acc.push(av) =~= acc + seq![av]);
            }
            if !self.match_type(TokenType::Plus) {
                break;
            }
            proof {
                let inner = constraint_items_at(ts, self.index());
                match inner {
                    Ok((rest, e)) => {
                        assert(acc + (seq![av] + rest) =~= (acc + seq![av]) + rest);
                    },
                    Err(_) => {},
                }
            }
        }
        Ok(constraints)
    }

    /// Parses a function parameter `name: type`.
    pub fn parse_function_param(&mut self) -> (r: Result<FunctionParam>)
        ensures
            final(self).moved_on(*old(self)),
            r is Ok ==> final(self).index() > old(self).index(),
            match fn_param_at(old(self).tokens(), old(self).index()) {
                Ok(((name, a), k)) => (r matches Ok(p) && p.name@ == name && annotation_view(p.type_annotation) == a
                    && final(self).index() == k),
                Err(m) => (r matches Err(e) && e.message@ == m),
            },
    {
        let name = self.consume_identifier()?;
        self.consume_type(TokenType::Colon)?;
        let type_annotation = self.parse_type_annotation()?;
        Ok(FunctionParam { name, type_annotation })
    }
}

} // verus!
