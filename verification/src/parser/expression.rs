//! Expressions, from assignments down to primary expressions, and blocks.
use vstd::prelude::*;
use crate::ast::{
    ArrayElement, EnumInitFields, Expr, ExprKind, FunctionParam, Literal, MatchArm, RowField,
    StructInitField, TypeAnnotation, TypeAnnotationKind,
};
use crate::lexer::tokens::{push_token_text, TokenType, TokenTypeV};
use crate::parser::expr_grammar::{
    arm_body_at, arms_at, arms_view, array_items_at, assignment_at, bin, block_at, block_items_at,
    comparison_at, comparison_operator_of, comparison_rest, compound_operator, elems_view, equality_at,
    equality_operator, equality_rest, expr_items_at, expr_list_at, expr_view, expression_at, exprs_view,
    factor_at, factor_operator, factor_rest, init_fields_at, init_items_at, inits_view, lambda_params_at,
    match_arm_at, params_view, pipe_at, pipe_rest, postfix_at, postfix_rest, prefix_operator, primary_at,
    range_at, row_field_items_at, row_fields_at, row_view, term_at, term_operator, term_rest, unary_at,
    ArmV, ElemV, ExprV, InitV, RowFieldV, and_at, or_at, lemma_and_at, lemma_arm_body_at, lemma_arms_at,
    lemma_array_items_at, lemma_assignment_at, lemma_block_at, lemma_block_items_at, lemma_comparison_at,
    lemma_comparison_rest, lemma_equality_at, lemma_equality_rest, lemma_expr_items_at, lemma_expr_list_at,
    lemma_expr_view_kind, lemma_expression_at, lemma_factor_at, lemma_factor_rest, lemma_init_fields_at,
    lemma_init_items_at, lemma_match_arm_at, lemma_or_at, lemma_pipe_at, lemma_pipe_rest, lemma_postfix_at,
    lemma_postfix_rest, lemma_primary_at, lemma_range_at, lemma_row_field_items_at, lemma_row_fields_at,
    lemma_term_at, lemma_term_rest, lemma_unary_at, lemma_exprs_view_push, lemma_elems_view_push,
    lemma_row_view_push, lemma_inits_view_push, lemma_arms_view_push, lemma_params_view_push,
    lemma_prepend_prepend, lemma_prepend_empty, elem_view, row_field_view, init_view, arm_view,
    cast_type_name,
};
use crate::parser::grammar::{
    attributes_at, attributes_view, annotation_at, annotation_view, annotations_view, expect, generic_params_at, prepend, tok, AnnotationV,
};
use crate::parser::types::error;
use crate::parser::{ParseError, Parser, Result};
use crate::text::{owned, push_str, str_eq};

verus! {

/// `r` is what `spec` says parsing gives: on `Ok((v, k))` an expression of
/// value `v` with the parser then at `k`; on `Err(m)` an error with message `m`.
pub open spec fn parsed_expr(r: Result<Expr>, end: int, spec: std::result::Result<(ExprV, int), Seq<char>>) -> bool {
    match spec {
        Ok((v, k)) => r matches Ok(e) && expr_view(e) == v && end == k,
        Err(m) => r matches Err(e) && e.message@ == m,
    }
}

/// `r` is what `spec` says parsing a sequence of expressions gives.
pub open spec fn parsed_exprs(r: Result<Vec<Expr>>, end: int, spec: std::result::Result<(Seq<ExprV>, int), Seq<char>>) -> bool {
    match spec {
        Ok((v, k)) => r matches Ok(es) && exprs_view(es@) == v && end == k,
        Err(m) => r matches Err(e) && e.message@ == m,
    }
}

/// `r` is what `spec` says parsing the fields of a struct literal gives.
pub open spec fn parsed_inits(r: Result<Vec<StructInitField>>, end: int, spec: std::result::Result<(Seq<InitV>, int), Seq<char>>) -> bool {
    match spec {
        Ok((v, k)) => r matches Ok(fs) && inits_view(fs@) == v && end == k,
        Err(m) => r matches Err(e) && e.message@ == m,
    }
}

/// `r` is what `spec` says parsing the elements of an array literal gives.
pub open spec fn parsed_elems(r: Result<Vec<ArrayElement>>, end: int, spec: std::result::Result<(Seq<ElemV>, int), Seq<char>>) -> bool {
    match spec {
        Ok((v, k)) => r matches Ok(xs) && elems_view(xs@) == v && end == k,
        Err(m) => r matches Err(e) && e.message@ == m,
    }
}

/// `r` is what `spec` says parsing the fields of a row literal gives.
pub open spec fn parsed_rows(r: Result<Vec<RowField>>, end: int, spec: std::result::Result<(Seq<RowFieldV>, int), Seq<char>>) -> bool {
    match spec {
        Ok((v, k)) => r matches Ok(fs) && row_view(fs@) == v && end == k,
        Err(m) => r matches Err(e) && e.message@ == m,
    }
}

/// `r` is what `spec` says parsing a match arm gives.
pub open spec fn parsed_arm(r: Result<MatchArm>, end: int, spec: std::result::Result<(ArmV, int), Seq<char>>) -> bool {
    match spec {
        Ok((v, k)) => r matches Ok(a) && arm_view(a) == v && end == k,
        Err(m) => r matches Err(e) && e.message@ == m,
    }
}

/// `r` is what `spec` says parsing the arms of a match gives.
pub open spec fn parsed_arms(r: Result<Vec<MatchArm>>, end: int, spec: std::result::Result<(Seq<ArmV>, int), Seq<char>>) -> bool {
    match spec {
        Ok((v, k)) => r matches Ok(arms) && arms_view(arms@) == v && end == k,
        Err(m) => r matches Err(e) && e.message@ == m,
    }
}

/// `r` is what `spec` says parsing the parameters of a lambda gives.
pub open spec fn parsed_params(r: Result<Vec<FunctionParam>>, end: int, spec: std::result::Result<(Seq<(Seq<char>, AnnotationV)>, int), Seq<char>>) -> bool {
    match spec {
        Ok((v, k)) => r matches Ok(ps) && params_view(ps@) == v && end == k,
        Err(m) => r matches Err(e) && e.message@ == m,
    }
}

/// The name `Enum::Variant`.
pub fn path_name(name: &String, variant: &String) -> (r: String)
    ensures
        r@ == name@ + "::"@ + variant@,
{
    let mut s = name.clone();
    push_str(&mut s, "::");
    push_str(&mut s, variant.as_str());
    s
}

impl Parser {
    /// A binary operation spanning from the start of `left` to the end of `right`.
    fn binary(&self, left: Expr, operator: &str, right: Expr) -> (r: Expr)
        ensures
            r.meta.attributes@.len() == 0,
            expr_view(r) == bin(expr_view(left), operator@, expr_view(right)),
    {
        proof {
        }
        let start = left.meta.range.start;
        let end = right.meta.range.end;
        Expr {
            meta: self.meta(start, end),
            kind: ExprKind::BinaryOp {
                left: Box::new(left),
                operator: owned(operator),
                right: Box::new(right),
            },
        }
    }

    /// Parses the expressions of a block up to and including its `end`;
    /// with `explicit`, the block starts with `do`.
    pub fn parse_block(&mut self, explicit: bool) -> (r: Result<Vec<Expr>>)
        ensures
            final(self).moved_on(*old(self)),
            r is Ok ==> final(self).index() > old(self).index(),
            parsed_exprs(r, final(self).index(), block_at(old(self).tokens(), old(self).index(), explicit)),
        decreases old(self).remaining(), if explicit {
            7nat
        } else {
            21nat
        },
    {
        proof {
            use_type_invariant(&*self);
        }
        let ghost ts = self.tokens();
        let ghost i = self.index();
        proof {
            lemma_block_at(ts, i, explicit);
        }
        if explicit {
            self.consume_type(TokenType::Do)?;
        }
        let ghost j = self.index();
        let mut expressions: Vec<Expr> = Vec::new();
        proof {
            assert(exprs_view(expressions@) =~= Seq::<ExprV>::empty());
            assert(prepend(Seq::<ExprV>::empty(), block_items_at(ts, j)) == block_items_at(ts, j)) by {
                match block_items_at(ts, j) {
                    Ok((rest, e)) => {
                        assert(Seq::<ExprV>::empty() + rest =~= rest);
                    },
                    Err(_) => {},
                }
            }
        }
        while !self.check_type(TokenType::End) && !self.is_at_end()
            invariant
                self.moved_on(*old(self)),
                self.tokens() == ts,
                i == old(self).index(),
                i <= j <= self.index(),
                explicit ==> self.index() > old(self).index(),
                block_at(ts, i, explicit) == match block_items_at(ts, j) {
                    Err(m) => Err(m),
                    Ok((es, k)) => match crate::parser::grammar::expect(ts, k, TokenType::End) {
                        Ok(k2) => Ok((es, k2)),
                        Err(m) => Err(m),
                    },
                },
                block_items_at(ts, j) == prepend(exprs_view(expressions@), block_items_at(ts, self.index())),
            decreases self.remaining(),
        {
            let ghost cur = self.index();
            let ghost acc = exprs_view(expressions@);
            proof {
                lemma_block_items_at(ts, cur);
            }
            let e = self.parse_expression()?;
            let ghost k = self.index();
            let ghost before = expressions@;
            expressions.push(e);
            if self.check_type(TokenType::Semicolon) {
                self.advance();
            }
            proof {
                lemma_exprs_view_push(before, e);
                lemma_prepend_prepend(acc, seq![expr_view(e)], block_items_at(ts, self.index()));
            }
        }
        proof {
            lemma_block_items_at(ts, self.index());
            assert(block_items_at(ts, self.index()) == Ok::<(Seq<ExprV>, int), Seq<char>>(
                (Seq::empty(), self.index()),
            ));
            assert(exprs_view(expressions@) + Seq::<ExprV>::empty() =~= exprs_view(expressions@));
        }
        self.consume_type(TokenType::End)?;
        Ok(expressions)
    }

    /// Parses an expression, with the attributes written before it.
    pub fn parse_expression(&mut self) -> (r: Result<Expr>)
        ensures
            r matches Ok(e) ==> (attributes_at(old(self).tokens(), old(self).index()) matches Ok((attrs, _))
                && attributes_view(e.meta.attributes@) == attrs),
            final(self).moved_on(*old(self)),
            r is Ok ==> final(self).index() > old(self).index(),
            parsed_expr(r, final(self).index(), expression_at(old(self).tokens(), old(self).index())),
        decreases old(self).remaining(), 20nat,
    {
        proof {
            lemma_expression_at(old(self).tokens(), old(self).index());
        }
        let attributes = self.parse_attributes()?;
        let mut expr = self.parse_assignment()?;
        let ghost before = expr;
        if attributes.len() > 0 {
            expr.meta.attributes = attributes;
        }
        proof {
            lemma_expr_view_kind(before, expr);
        }
        Ok(expr)
    }

    /// Parses an assignment `target = value`, an augmented assignment such
    /// as `x += 1` (as a binary operation `+=`), or a pipeline.
    fn parse_assignment(&mut self) -> (r: Result<Expr>)
        ensures
            r matches Ok(e) ==> e.meta.attributes@.len() == 0,
            final(self).moved_on(*old(self)),
            r is Ok ==> final(self).index() > old(self).index(),
            parsed_expr(r, final(self).index(), assignment_at(old(self).tokens(), old(self).index())),
        decreases old(self).remaining(), 19nat,
    {
        proof {
            use_type_invariant(&*self);
        }
        let ghost ts = self.tokens();
        proof {
            lemma_assignment_at(ts, old(self).index());
        }
        let left = self.parse_pipe()?;
        let ghost k = self.index();
        if self.match_type(TokenType::Assign) {
            let right = self.parse_assignment()?;
            let start = left.meta.range.start;
            let end = right.meta.range.end;
            return Ok(
                Expr {
                    meta: self.meta(start, end),
                    kind: ExprKind::Assign { target: Box::new(left), value: Box::new(right) },
                },
            );
        }
        let ops = [TokenType::PlusEq, TokenType::MinusEq, TokenType::MulEq, TokenType::DivEq];
        proof {
            assert(ops@[0]@ == TokenTypeV::Plain(TokenType::PlusEq));
            assert(ops@[1]@ == TokenTypeV::Plain(TokenType::MinusEq));
            assert(ops@[2]@ == TokenTypeV::Plain(TokenType::MulEq));
            assert(ops@[3]@ == TokenTypeV::Plain(TokenType::DivEq));
        }
        match self.match_any(&ops) {
            Some(op) => {
                let op_str = match op {
                    TokenType::PlusEq => "+=",
                    TokenType::MinusEq => "-=",
                    TokenType::MulEq => "*=",
                    _ => "/=",
                };
                assert(compound_operator(tok(ts, k)) == Some(op_str@));
                let right = self.parse_assignment()?;
                Ok(self.binary(left, op_str, right))
            },
            None => Ok(left),
        }
    }

    /// Parses operands joined by the pipeline operator `|>`, from the left.
    fn parse_pipe(&mut self) -> (r: Result<Expr>)
        ensures
            r matches Ok(e) ==> e.meta.attributes@.len() == 0,
            final(self).moved_on(*old(self)),
            r is Ok ==> final(self).index() > old(self).index(),
            parsed_expr(r, final(self).index(), pipe_at(old(self).tokens(), old(self).index())),
        decreases old(self).remaining(), 18nat,
    {
        proof {
            use_type_invariant(&*self);
        }
        let ghost ts = self.tokens();
        let ghost i = self.index();
        proof {
            lemma_pipe_at(ts, i);
        }
        let mut left = self.parse_logical_or()?;
        loop
            invariant_except_break
                self.moved_on(*old(self)),
                self.tokens() == ts,
                i == old(self).index(),
                self.index() > i,
                left.meta.attributes@.len() == 0,
                pipe_at(ts, i) == pipe_rest(ts, expr_view(left), self.index()),
            ensures
                self.moved_on(*old(self)),
                self.index() > i,
                left.meta.attributes@.len() == 0,
                pipe_at(ts, i) == Ok::<(ExprV, int), Seq<char>>((expr_view(left), self.index())),
            decreases self.remaining(),
        {
            proof {
                lemma_pipe_rest(ts, expr_view(left), self.index());
            }
            if !self.match_type(TokenType::Pipeline) {
                break;
            }
            let right = self.parse_logical_or()?;
            left = self.binary(left, "|>", right);
        }
        Ok(left)
    }

    /// Parses a logical or (the language has no operator for it yet).
    fn parse_logical_or(&mut self) -> (r: Result<Expr>)
        ensures
            r matches Ok(e) ==> e.meta.attributes@.len() == 0,
            final(self).moved_on(*old(self)),
            r is Ok ==> final(self).index() > old(self).index(),
            parsed_expr(r, final(self).index(), or_at(old(self).tokens(), old(self).index())),
        decreases old(self).remaining(), 17nat,
    {
        proof {
            lemma_or_at(old(self).tokens(), old(self).index());
        }
        self.parse_logical_and()
    }

    /// Parses a logical and (the language has no operator for it yet).
    fn parse_logical_and(&mut self) -> (r: Result<Expr>)
        ensures
            r matches Ok(e) ==> e.meta.attributes@.len() == 0,
            final(self).moved_on(*old(self)),
            r is Ok ==> final(self).index() > old(self).index(),
            parsed_expr(r, final(self).index(), and_at(old(self).tokens(), old(self).index())),
        decreases old(self).remaining(), 16nat,
    {
        proof {
            lemma_and_at(old(self).tokens(), old(self).index());
        }
        self.parse_equality()
    }

    /// Parses comparisons joined by `==` or `!=`, from the left.
    fn parse_equality(&mut self) -> (r: Result<Expr>)
        ensures
            r matches Ok(e) ==> e.meta.attributes@.len() == 0,
            final(self).moved_on(*old(self)),
            r is Ok ==> final(self).index() > old(self).index(),
            parsed_expr(r, final(self).index(), equality_at(old(self).tokens(), old(self).index())),
        decreases old(self).remaining(), 15nat,
    {
        proof {
            use_type_invariant(&*self);
        }
        let ghost ts = self.tokens();
        let ghost i = self.index();
        proof {
            lemma_equality_at(ts, i);
        }
        let mut left = self.parse_comparison()?;
        let ops = [TokenType::Equal, TokenType::NotEq];
        proof {
            assert(ops@[0]@ == TokenTypeV::Plain(TokenType::Equal));
            assert(ops@[1]@ == TokenTypeV::Plain(TokenType::NotEq));
        }
        loop
            invariant_except_break
                self.moved_on(*old(self)),
                self.tokens() == ts,
                i == old(self).index(),
                self.index() > i,
                ops@[0]@ == TokenTypeV::Plain(TokenType::Equal),
                ops@[1]@ == TokenTypeV::Plain(TokenType::NotEq),
                ops@.len() == 2,
                left.meta.attributes@.len() == 0,
                equality_at(ts, i) == equality_rest(ts, expr_view(left), self.index()),
            ensures
                self.moved_on(*old(self)),
                self.index() > i,
                left.meta.attributes@.len() == 0,
                equality_at(ts, i) == Ok::<(ExprV, int), Seq<char>>((expr_view(left), self.index())),
            decreases self.remaining(),
        {
            let ghost k = self.index();
            proof {
                lemma_equality_rest(ts, expr_view(left), k);
            }
            let op_str = match self.match_any(&ops) {
                Some(TokenType::Equal) => "==",
                Some(_) => "!=",
                None => break,
            };
            assert(equality_operator(tok(ts, k)) == Some(op_str@));
            let right = self.parse_comparison()?;
            left = self.binary(left, op_str, right);
        }
        Ok(left)
    }

    /// Parses ranges joined by `<`, `<=`, `>` or `>=`, from the left.
    fn parse_comparison(&mut self) -> (r: Result<Expr>)
        ensures
            r matches Ok(e) ==> e.meta.attributes@.len() == 0,
            final(self).moved_on(*old(self)),
            r is Ok ==> final(self).index() > old(self).index(),
            parsed_expr(r, final(self).index(), comparison_at(old(self).tokens(), old(self).index())),
        decreases old(self).remaining(), 14nat,
    {
        proof {
            use_type_invariant(&*self);
        }
        let ghost ts = self.tokens();
        let ghost i = self.index();
        proof {
            lemma_comparison_at(ts, i);
        }
        let mut left = self.parse_range()?;
        let ops = [TokenType::Less, TokenType::LessEq, TokenType::Greater, TokenType::GreaterEq];
        proof {
            assert(ops@[0]@ == TokenTypeV::Plain(TokenType::Less));
            assert(ops@[1]@ == TokenTypeV::Plain(TokenType::LessEq));
            assert(ops@[2]@ == TokenTypeV::Plain(TokenType::Greater));
            assert(ops@[3]@ == TokenTypeV::Plain(TokenType::GreaterEq));
        }
        loop
            invariant_except_break
                self.moved_on(*old(self)),
                self.tokens() == ts,
                i == old(self).index(),
                self.index() > i,
                ops@[0]@ == TokenTypeV::Plain(TokenType::Less),
                ops@[1]@ == TokenTypeV::Plain(TokenType::LessEq),
                ops@[2]@ == TokenTypeV::Plain(TokenType::Greater),
                ops@[3]@ == TokenTypeV::Plain(TokenType::GreaterEq),
                ops@.len() == 4,
                left.meta.attributes@.len() == 0,
                comparison_at(ts, i) == comparison_rest(ts, expr_view(left), self.index()),
            ensures
                self.moved_on(*old(self)),
                self.index() > i,
                left.meta.attributes@.len() == 0,
                comparison_at(ts, i) == Ok::<(ExprV, int), Seq<char>>((expr_view(left), self.index())),
            decreases self.remaining(),
        {
            let ghost k = self.index();
            proof {
                lemma_comparison_rest(ts, expr_view(left), k);
            }
            let op_str = match self.match_any(&ops) {
                Some(TokenType::Less) => "<",
                Some(TokenType::LessEq) => "<=",
                Some(TokenType::Greater) => ">",
                Some(_) => ">=",
                None => break,
            };
            assert(comparison_operator_of(tok(ts, k)) == Some(op_str@));
            let right = self.parse_range()?;
            left = self.binary(left, op_str, right);
        }
        Ok(left)
    }

    /// Parses a term, or a range `start..end` of two terms.
    fn parse_range(&mut self) -> (r: Result<Expr>)
        ensures
            r matches Ok(e) ==> e.meta.attributes@.len() == 0,
            final(self).moved_on(*old(self)),
            r is Ok ==> final(self).index() > old(self).index(),
            parsed_expr(r, final(self).index(), range_at(old(self).tokens(), old(self).index())),
        decreases old(self).remaining(), 13nat,
    {
        proof {
            lemma_range_at(old(self).tokens(), old(self).index());
        }
        let left = self.parse_term()?;
        if self.match_type(TokenType::Spread) {
            let right = self.parse_term()?;
            let start = left.meta.range.start;
            let end = right.meta.range.end;
            return Ok(
                Expr {
                    meta: self.meta(start, end),
                    kind: ExprKind::Range {
                        start: Box::new(left),
                        end: Box::new(right),
                        inclusive: false,
                    },
                },
            );
        }
        Ok(left)
    }

    /// Parses factors joined by `+` or `-`, from the left.
    fn parse_term(&mut self) -> (r: Result<Expr>)
        ensures
            r matches Ok(e) ==> e.meta.attributes@.len() == 0,
            final(self).moved_on(*old(self)),
            r is Ok ==> final(self).index() > old(self).index(),
            parsed_expr(r, final(self).index(), term_at(old(self).tokens(), old(self).index())),
        decreases old(self).remaining(), 12nat,
    {
        proof {
            use_type_invariant(&*self);
        }
        let ghost ts = self.tokens();
        let ghost i = self.index();
        proof {
            lemma_term_at(ts, i);
        }
        let mut left = self.parse_factor()?;
        let ops = [TokenType::Plus, TokenType::Minus];
        proof {
            assert(ops@[0]@ == TokenTypeV::Plain(TokenType::Plus));
            assert(ops@[1]@ == TokenTypeV::Plain(TokenType::Minus));
        }
        loop
            invariant_except_break
                self.moved_on(*old(self)),
                self.tokens() == ts,
                i == old(self).index(),
                self.index() > i,
                ops@[0]@ == TokenTypeV::Plain(TokenType::Plus),
                ops@[1]@ == TokenTypeV::Plain(TokenType::Minus),
                ops@.len() == 2,
                left.meta.attributes@.len() == 0,
                term_at(ts, i) == term_rest(ts, expr_view(left), self.index()),
            ensures
                self.moved_on(*old(self)),
                self.index() > i,
                left.meta.attributes@.len() == 0,
                term_at(ts, i) == Ok::<(ExprV, int), Seq<char>>((expr_view(left), self.index())),
            decreases self.remaining(),
        {
            let ghost k = self.index();
            proof {
                lemma_term_rest(ts, expr_view(left), k);
            }
            let op_str = match self.match_any(&ops) {
                Some(TokenType::Plus) => "+",
                Some(_) => "-",
                None => break,
            };
            assert(term_operator(tok(ts, k)) == Some(op_str@));
            let right = self.parse_factor()?;
            left = self.binary(left, op_str, right);
        }
        Ok(left)
    }

    /// Parses unary expressions joined by `*` or `/`, from the left.
    fn parse_factor(&mut self) -> (r: Result<Expr>)
        ensures
            r matches Ok(e) ==> e.meta.attributes@.len() == 0,
            final(self).moved_on(*old(self)),
            r is Ok ==> final(self).index() > old(self).index(),
            parsed_expr(r, final(self).index(), factor_at(old(self).tokens(), old(self).index())),
        decreases old(self).remaining(), 11nat,
    {
        proof {
            use_type_invariant(&*self);
        }
        let ghost ts = self.tokens();
        let ghost i = self.index();
        proof {
            lemma_factor_at(ts, i);
        }
        let mut left = self.parse_unary()?;
        let ops = [TokenType::Mul, TokenType::Div];
        proof {
            assert(ops@[0]@ == TokenTypeV::Plain(TokenType::Mul));
            assert(ops@[1]@ == TokenTypeV::Plain(TokenType::Div));
        }
        loop
            invariant_except_break
                self.moved_on(*old(self)),
                self.tokens() == ts,
                i == old(self).index(),
                self.index() > i,
                ops@[0]@ == TokenTypeV::Plain(TokenType::Mul),
                ops@[1]@ == TokenTypeV::Plain(TokenType::Div),
                ops@.len() == 2,
                left.meta.attributes@.len() == 0,
                factor_at(ts, i) == factor_rest(ts, expr_view(left), self.index()),
            ensures
                self.moved_on(*old(self)),
                self.index() > i,
                left.meta.attributes@.len() == 0,
                factor_at(ts, i) == Ok::<(ExprV, int), Seq<char>>((expr_view(left), self.index())),
            decreases self.remaining(),
        {
            let ghost k = self.index();
            proof {
                lemma_factor_rest(ts, expr_view(left), k);
            }
            let op_str = match self.match_any(&ops) {
                Some(TokenType::Mul) => "*",
                Some(_) => "/",
                None => break,
            };
            assert(factor_operator(tok(ts, k)) == Some(op_str@));
            let right = self.parse_unary()?;
            left = self.binary(left, op_str, right);
        }
        Ok(left)
    }

    /// Parses `!` or `-` applied to a unary expression, or a postfix expression.
    fn parse_unary(&mut self) -> (r: Result<Expr>)
        ensures
            r matches Ok(e) ==> e.meta.attributes@.len() == 0,
            final(self).moved_on(*old(self)),
            r is Ok ==> final(self).index() > old(self).index(),
            parsed_expr(r, final(self).index(), unary_at(old(self).tokens(), old(self).index())),
        decreases old(self).remaining(), 10nat,
    {
        proof {
            use_type_invariant(&*self);
        }
        let ghost ts = self.tokens();
        let ghost i = self.index();
        proof {
            lemma_unary_at(ts, i);
        }
        let start = match self.peek() {
            Some(t) => t.range.start,
            None => {
                return Err(error("Expected expression"));
            },
        };
        let ops = [TokenType::Not, TokenType::Minus];
        proof {
            assert(ops@[0]@ == TokenTypeV::Plain(TokenType::Not));
            assert(ops@[1]@ == TokenTypeV::Plain(TokenType::Minus));
        }
        match self.match_any(&ops) {
            Some(op) => {
                let op_str = match op {
                    TokenType::Not => "!",
                    _ => "-",
                };
                assert(prefix_operator(tok(ts, i)) == Some(op_str@));
                let operand = self.parse_unary()?;
                let end = operand.meta.range.end;
                Ok(
                    Expr {
                        meta: self.meta(start, end),
                        kind: ExprKind::UnaryOp {
                            operator: owned(op_str),
                            operand: Box::new(operand),
                        },
                    },
                )
            },
            None => self.parse_postfix(),
        }
    }

    /// Parses a primary expression followed by field accesses `.name`, calls
    /// `(args)`, indexing `[index]` and casts `as type`.
    fn parse_postfix(&mut self) -> (r: Result<Expr>)
        ensures
            r matches Ok(e) ==> e.meta.attributes@.len() == 0,
            final(self).moved_on(*old(self)),
            r is Ok ==> final(self).index() > old(self).index(),
            parsed_expr(r, final(self).index(), postfix_at(old(self).tokens(), old(self).index())),
        decreases old(self).remaining(), 9nat,
    {
        proof {
            use_type_invariant(&*self);
        }
        let ghost ts = self.tokens();
        let ghost i = self.index();
        proof {
            lemma_postfix_at(ts, i);
        }
        let mut expr = self.parse_primary()?;
        loop
            invariant_except_break
                self.moved_on(*old(self)),
                self.tokens() == ts,
                i == old(self).index(),
                self.index() > i,
                expr.meta.attributes@.len() == 0,
                postfix_at(ts, i) == postfix_rest(ts, expr_view(expr), self.index()),
            ensures
                self.moved_on(*old(self)),
                self.index() > i,
                expr.meta.attributes@.len() == 0,
                postfix_at(ts, i) == Ok::<(ExprV, int), Seq<char>>((expr_view(expr), self.index())),
            decreases self.remaining(),
        {
            proof {
                lemma_postfix_rest(ts, expr_view(expr), self.index());
                }
            if self.match_type(TokenType::Dot) {
                let field = self.consume_identifier()?;
                let start = expr.meta.range.start;
                let end = self.peek_end(expr.meta.range.end);
                expr = Expr {
                    meta: self.meta(start, end),
                    kind: ExprKind::DotAccess { value: Box::new(expr), field },
                };
            } else if self.match_type(TokenType::LParen) {
                let args = self.parse_call_args()?;
                let start = expr.meta.range.start;
                let end = self.peek_end(expr.meta.range.end);
                expr = Expr {
                    meta: self.meta(start, end),
                    kind: ExprKind::FunctionCall { function: Box::new(expr), args },
                };
            } else if self.match_type(TokenType::LBrack) {
                let index = self.parse_expression()?;
                self.consume_type(TokenType::RBrack)?;
                let start = expr.meta.range.start;
                let end = self.peek_end(expr.meta.range.end);
                expr = Expr {
                    meta: self.meta(start, end),
                    kind: ExprKind::Index { value: Box::new(expr), index: Box::new(index) },
                };
            } else if self.match_type(TokenType::As) {
                let type_annotation = self.parse_type_annotation()?;
                let start = expr.meta.range.start;
                let end = type_annotation.meta.range.end;
                expr = Expr {
                    meta: self.meta(start, end),
                    kind: ExprKind::Cast(Box::new(expr), type_annotation),
                };
            } else {
                break;
            }
        }
        Ok(expr)
    }

    /// Parses the fields of a struct or enum initialisation after its `{`,
    /// up to and including the `}`: `name: value` or `..spread`.
    fn parse_init_fields(&mut self) -> (r: Result<Vec<StructInitField>>)
        ensures
            final(self).moved_on(*old(self)),
            r is Ok ==> final(self).index() > old(self).index(),
            parsed_inits(r, final(self).index(), init_fields_at(old(self).tokens(), old(self).index())),
        decreases old(self).remaining(), 22nat,
    {
        proof {
            use_type_invariant(&*self);
        }
        let ghost ts = self.tokens();
        let ghost start = self.index();
        proof {
            lemma_init_fields_at(ts, start);
        }
        let mut fields: Vec<StructInitField> = Vec::new();
        if !self.check_type(TokenType::RBrace) {
            proof {
                assert(inits_view(fields@) =~= Seq::<InitV>::empty());
                lemma_prepend_empty(init_items_at(ts, start));
            }
            loop
                invariant_except_break
                    self.moved_on(*old(self)),
                    self.tokens() == ts,
                    start == old(self).index(),
                    tok(ts, start) != Some(TokenTypeV::Plain(TokenType::RBrace)),
                    init_items_at(ts, start) == prepend(inits_view(fields@), init_items_at(ts, self.index())),
                ensures
                    self.moved_on(*old(self)),
                    self.tokens() == ts,
                    tok(ts, start) != Some(TokenTypeV::Plain(TokenType::RBrace)),
                    init_items_at(ts, start) == Ok::<(Seq<InitV>, int), Seq<char>>(
                        (inits_view(fields@), self.index()),
                    ),
                decreases self.remaining(),
            {
                let ghost acc = inits_view(fields@);
                let ghost before = fields@;
                proof {
                    lemma_init_fields_at(ts, start);
                    lemma_init_items_at(ts, self.index());
                }
                let field = if self.match_type(TokenType::Spread) {
                    let expr = self.parse_expression()?;
                    StructInitField::Spread(expr)
                } else {
                    let field_name = self.consume_identifier()?;
                    self.consume_type(TokenType::Colon)?;
                    let value = self.parse_expression()?;
                    StructInitField::Field { name: field_name, value }
                };
                let ghost fv = init_view(field);
                proof {
                    lemma_inits_view_push(before, field);
                }
                fields.push(field);
                if !self.match_type(TokenType::Comma) {
                    break;
                }
                proof {
                    lemma_prepend_prepend(acc, seq![fv], init_items_at(ts, self.index()));
                }
            }
        }
        proof {
            assert(inits_view(fields@) == inits_view(fields@));
        }
        self.consume_type(TokenType::RBrace)?;
        Ok(fields)
    }

    /// Parses one or more expressions separated by commas.
    fn parse_expression_items(&mut self) -> (r: Result<Vec<Expr>>)
        ensures
            final(self).moved_on(*old(self)),
            r is Ok ==> final(self).index() > old(self).index(),
            parsed_exprs(r, final(self).index(), expr_items_at(old(self).tokens(), old(self).index())),
        decreases old(self).remaining(), 21nat,
    {
        proof {
            use_type_invariant(&*self);
        }
        let ghost ts = self.tokens();
        let ghost start = self.index();
        let mut items: Vec<Expr> = Vec::new();
        proof {
            assert(exprs_view(items@) =~= Seq::<ExprV>::empty());
            lemma_prepend_empty(expr_items_at(ts, start));
        }
        loop
            invariant_except_break
                self.moved_on(*old(self)),
                self.tokens() == ts,
                start == old(self).index(),
                expr_items_at(ts, start) == prepend(exprs_view(items@), expr_items_at(ts, self.index())),
            ensures
                self.moved_on(*old(self)),
                self.index() > start,
                expr_items_at(ts, start) == Ok::<(Seq<ExprV>, int), Seq<char>>((exprs_view(items@), self.index())),
            decreases self.remaining(),
        {
            let ghost acc = exprs_view(items@);
            let ghost before = items@;
            proof {
                lemma_expr_items_at(ts, self.index());
            }
            let e = self.parse_expression()?;
            proof {
                lemma_exprs_view_push(before, e);
            }
            let ghost ev = expr_view(e);
            items.push(e);
            if !self.match_type(TokenType::Comma) {
                break;
            }
            proof {
                lemma_prepend_prepend(acc, seq![ev], expr_items_at(ts, self.index()));
            }
        }
        Ok(items)
    }

    /// Parses expressions separated by commas up to and including the
    /// closing `)`, after an opening `(`.
    fn parse_call_args(&mut self) -> (r: Result<Vec<Expr>>)
        ensures
            final(self).moved_on(*old(self)),
            r is Ok ==> final(self).index() > old(self).index(),
            parsed_exprs(r, final(self).index(), expr_list_at(old(self).tokens(), old(self).index())),
        decreases old(self).remaining(), 22nat,
    {
        proof {
            lemma_expr_list_at(old(self).tokens(), old(self).index());
        }
        let args = if !self.check_type(TokenType::RParen) {
            self.parse_expression_items()?
        } else {
            let none: Vec<Expr> = Vec::new();
            proof {
                assert(exprs_view(none@) =~= Seq::<ExprV>::empty());
            }
            none
        };
        self.consume_type(TokenType::RParen)?;
        Ok(args)
    }

    /// Parses one or more elements of an array literal, `..spread` or a
    /// value, separated by commas.
    fn parse_array_elements(&mut self) -> (r: Result<Vec<ArrayElement>>)
        ensures
            final(self).moved_on(*old(self)),
            r is Ok ==> final(self).index() > old(self).index(),
            parsed_elems(r, final(self).index(), array_items_at(old(self).tokens(), old(self).index())),
        decreases old(self).remaining(), 21nat,
    {
        proof {
            use_type_invariant(&*self);
        }
        let ghost ts = self.tokens();
        let ghost start = self.index();
        let mut elements: Vec<ArrayElement> = Vec::new();
        proof {
            assert(elems_view(elements@) =~= Seq::<ElemV>::empty());
            lemma_prepend_empty(array_items_at(ts, start));
        }
        loop
            invariant_except_break
                self.moved_on(*old(self)),
                self.tokens() == ts,
                start == old(self).index(),
                array_items_at(ts, start) == prepend(elems_view(elements@), array_items_at(ts, self.index())),
            ensures
                self.moved_on(*old(self)),
                self.index() > start,
                array_items_at(ts, start) == Ok::<(Seq<ElemV>, int), Seq<char>>(
                    (elems_view(elements@), self.index()),
                ),
            decreases self.remaining(),
        {
            let ghost acc = elems_view(elements@);
            let ghost before = elements@;
            proof {
                lemma_array_items_at(ts, self.index());
            }
            let element = if self.match_type(TokenType::Spread) {
                let expr = self.parse_expression()?;
                ArrayElement::Spread(expr)
            } else {
                let expr = self.parse_expression()?;
                ArrayElement::Value(expr)
            };
            let ghost xv = elem_view(element);
            proof {
                lemma_elems_view_push(before, element);
            }
            elements.push(element);
            if !self.match_type(TokenType::Comma) {
                break;
            }
            proof {
                lemma_prepend_prepend(acc, seq![xv], array_items_at(ts, self.index()));
            }
        }
        Ok(elements)
    }

    /// Parses the arms of a match, up to `end` or the end of the tokens.
    fn parse_match_arms(&mut self) -> (r: Result<Vec<MatchArm>>)
        ensures
            final(self).moved_on(*old(self)),
            parsed_arms(r, final(self).index(), arms_at(old(self).tokens(), old(self).index())),
        decreases old(self).remaining(), 22nat,
    {
        proof {
            use_type_invariant(&*self);
        }
        let ghost ts = self.tokens();
        let ghost start = self.index();
        let mut arms: Vec<MatchArm> = Vec::new();
        proof {
            assert(arms_view(arms@) =~= Seq::<ArmV>::empty());
            lemma_prepend_empty(arms_at(ts, start));
        }
        while !self.check_type(TokenType::End) && !self.is_at_end()
            invariant
                self.moved_on(*old(self)),
                self.tokens() == ts,
                start == old(self).index(),
                arms_at(ts, start) == prepend(arms_view(arms@), arms_at(ts, self.index())),
            decreases self.remaining(),
        {
            let ghost acc = arms_view(arms@);
            let ghost before = arms@;
            proof {
                lemma_arms_at(ts, self.index());
            }
            let arm = self.parse_match_arm()?;
            let ghost av = arm_view(arm);
            proof {
                lemma_arms_view_push(before, arm);
            }
            arms.push(arm);
            proof {
                lemma_prepend_prepend(acc, seq![av], arms_at(ts, self.index()));
            }
        }
        proof {
            lemma_arms_at(ts, self.index());
            assert(arms_view(arms@) + Seq::<ArmV>::empty() =~= arms_view(arms@));
        }
        Ok(arms)
    }

    /// Parses the parameters of a lambda: `name` with an optional `: type`
    /// (the type `unknown` without one), separated by commas.
    fn parse_lambda_params(&mut self) -> (r: Result<Vec<FunctionParam>>)
        ensures
            final(self).moved_on(*old(self)),
            r is Ok ==> final(self).index() > old(self).index(),
            parsed_params(r, final(self).index(), lambda_params_at(old(self).tokens(), old(self).index())),
    {
        proof {
            use_type_invariant(&*self);
        }
        let ghost ts = self.tokens();
        let ghost start = self.index();
        let mut params: Vec<FunctionParam> = Vec::new();
        proof {
            assert(params_view(params@) =~= Seq::<(Seq<char>, AnnotationV)>::empty());
            lemma_prepend_empty(lambda_params_at(ts, start));
        }
        loop
            invariant_except_break
                self.moved_on(*old(self)),
                self.tokens() == ts,
                start == old(self).index(),
                lambda_params_at(ts, start) == prepend(params_view(params@), lambda_params_at(ts, self.index())),
            ensures
                self.moved_on(*old(self)),
                self.index() > start,
                lambda_params_at(ts, start) == Ok::<(Seq<(Seq<char>, AnnotationV)>, int), Seq<char>>(
                    (params_view(params@), self.index()),
                ),
            decreases self.remaining(),
        {
            let ghost acc = params_view(params@);
            let ghost before = params@;
            let param_name = self.consume_identifier()?;
            let param_type = if self.match_type(TokenType::Colon) {
                self.parse_type_annotation()?
            } else {
                let no_args: Vec<TypeAnnotation> = Vec::new();
                proof {
                    assert(annotations_view(no_args@) =~= Seq::<AnnotationV>::empty());
                }
                TypeAnnotation {
                    meta: self.meta(0, 0),
                    kind: TypeAnnotationKind::Constructor { name: owned("unknown"), generic_args: no_args },
                }
            };
            let param = FunctionParam { name: param_name, type_annotation: param_type };
            let ghost pv = (param.name@, annotation_view(param.type_annotation));
            proof {
                lemma_params_view_push(before, param);
            }
            params.push(param);
            if !self.match_type(TokenType::Comma) {
                break;
            }
            proof {
                lemma_prepend_prepend(acc, seq![pv], lambda_params_at(ts, self.index()));
            }
        }
        Ok(params)
    }
}

} // verus!

verus! {

/// Whether a type name is one that may follow a literal in a row to cast it.
fn is_cast_type_name(name: &String) -> (r: bool)
    ensures
        r == cast_type_name(name@),
{
    str_eq(name.as_str(), "i32") || str_eq(name.as_str(), "i64") || str_eq(name.as_str(), "f32")
        || str_eq(name.as_str(), "f64")
}

impl Parser {
    /// Parses a primary expression: a literal, a name (with enum paths and
    /// struct or enum initialisation), a parenthesised expression or tuple,
    /// an array, a row, or an expression that starts with a keyword.
    fn parse_primary(&mut self) -> (r: Result<Expr>)
        ensures
            r matches Ok(e) ==> e.meta.attributes@.len() == 0,
            final(self).moved_on(*old(self)),
            r is Ok ==> final(self).index() > old(self).index(),
            parsed_expr(r, final(self).index(), primary_at(old(self).tokens(), old(self).index())),
        decreases old(self).remaining(), 8nat,
    {
        proof {
            use_type_invariant(&*self);
        }
        let ghost ts = self.tokens();
        let ghost i = self.index();
        proof {
            lemma_primary_at(ts, i);
        }
        let (start, start_range_end, token_type) = match self.peek() {
            Some(t) => (t.range.start, t.range.end, t.type_.duplicate()),
            None => {
                return Err(error("Expected expression"));
            },
        };
        let kind = match token_type {
            TokenType::Integer(n) => {
                self.advance();
                ExprKind::Literal(Literal::Integer(n))
            },
            TokenType::Float(f) => {
                self.advance();
                ExprKind::Literal(Literal::Float(f))
            },
            TokenType::Str(s) => {
                self.advance();
                ExprKind::Literal(Literal::String(s))
            },
            TokenType::True => {
                self.advance();
                ExprKind::Literal(Literal::Boolean(true))
            },
            TokenType::False => {
                self.advance();
                ExprKind::Literal(Literal::Boolean(false))
            },
            TokenType::Identifier(name) => {
                return self.parse_name_expression(name, start);
            },
            TokenType::LParen => {
                return self.parse_parenthesized(start);
            },
            TokenType::LBrack => {
                self.advance();
                let elements = if !self.check_type(TokenType::RBrack) {
                    self.parse_array_elements()?
                } else {
                    let none: Vec<ArrayElement> = Vec::new();
                    proof {
                        assert(elems_view(none@) =~= Seq::<ElemV>::empty());
                    }
                    none
                };
                self.consume_type(TokenType::RBrack)?;
                ExprKind::Array(elements)
            },
            TokenType::LBrace => {
                self.advance();
                let fields = self.parse_row_fields()?;
                ExprKind::Row(fields)
            },
            TokenType::Let => {
                return self.parse_let(start);
            },
            TokenType::If => {
                return self.parse_if(start);
            },
            TokenType::While => {
                return self.parse_while(start);
            },
            TokenType::For => {
                return self.parse_for(start);
            },
            TokenType::Match => {
                return self.parse_match(start);
            },
            TokenType::Do => {
                let body = self.parse_block(true)?;
                ExprKind::Do(body)
            },
            TokenType::Return => {
                return self.parse_return(start);
            },
            TokenType::Break => {
                self.advance();
                ExprKind::Break
            },
            TokenType::Continue => {
                self.advance();
                ExprKind::Continue
            },
            TokenType::Fn => {
                return self.parse_lambda(start);
            },
            other => {
                let mut message = owned("Unexpected token in expression: ");
                push_token_text(&mut message, &other);
                return Err(
                    ParseError {
                        message,
                        range: Some(std::ops::Range { start, end: start_range_end }),
                    },
                );
            },
        };
        let end = self.peek_end(start);
        Ok(Expr { meta: self.meta(start, end), kind })
    }

    /// Parses what starts with a name: an enum path `Enum::Variant`, an
    /// enum literal with struct `{..}` or tuple `(..)` fields, a struct
    /// literal, or a variable.
    fn parse_name_expression(&mut self, name: String, start: usize) -> (r: Result<Expr>)
        requires
            tok(old(self).tokens(), old(self).index()) == Some(TokenTypeV::Identifier(name@)),
        ensures
            r matches Ok(e) ==> e.meta.attributes@.len() == 0,
            final(self).moved_on(*old(self)),
            r is Ok ==> final(self).index() > old(self).index(),
            parsed_expr(r, final(self).index(), primary_at(old(self).tokens(), old(self).index())),
        decreases old(self).remaining(), 6nat,
    {
        proof {
            use_type_invariant(&*self);
            lemma_primary_at(old(self).tokens(), old(self).index());
        }
        self.advance();
        if self.check_type(TokenType::DoubleColon) {
            self.consume_type(TokenType::DoubleColon)?;
            let variant_name = self.consume_identifier()?;
            let end = self.peek_end(start);
            if self.check_type(TokenType::LBrace) {
                self.advance();
                let fields = self.parse_init_fields()?;
                let end = self.peek_end(start);
                Ok(
                    Expr {
                        meta: self.meta(start, end),
                        kind: ExprKind::EnumInit {
                            enum_name: name,
                            variant_name,
                            fields: EnumInitFields::Struct(fields),
                        },
                    },
                )
            } else if self.check_type(TokenType::LParen) {
                self.advance();
                let fields = self.parse_call_args()?;
                let end = self.peek_end(start);
                Ok(
                    Expr {
                        meta: self.meta(start, end),
                        kind: ExprKind::EnumInit {
                            enum_name: name,
                            variant_name,
                            fields: EnumInitFields::Tuple(fields),
                        },
                    },
                )
            } else {
                Ok(
                    Expr {
                        meta: self.meta(start, end),
                        kind: ExprKind::Variable(path_name(&name, &variant_name)),
                    },
                )
            }
        } else if self.check_type(TokenType::LBrace) {
            self.advance();
            let fields = self.parse_init_fields()?;
            let end = self.peek_end(start);
            Ok(Expr { meta: self.meta(start, end), kind: ExprKind::StructInit { name, fields } })
        } else {
            let end = self.peek_end(start);
            Ok(Expr { meta: self.meta(start, end), kind: ExprKind::Variable(name) })
        }
    }

    /// Parses a parenthesised expression or a tuple `(a, b, ..)`.
    fn parse_parenthesized(&mut self, start: usize) -> (r: Result<Expr>)
        requires
            tok(old(self).tokens(), old(self).index()) == Some(TokenTypeV::Plain(TokenType::LParen)),
        ensures
            r matches Ok(e) ==> e.meta.attributes@.len() == 0,
            final(self).moved_on(*old(self)),
            r is Ok ==> final(self).index() > old(self).index(),
            parsed_expr(r, final(self).index(), primary_at(old(self).tokens(), old(self).index())),
        decreases old(self).remaining(), 6nat,
    {
        proof {
            use_type_invariant(&*self);
            lemma_primary_at(old(self).tokens(), old(self).index());
        }
        self.advance();
        let first_expr = self.parse_expression()?;
        let kind = if self.match_type(TokenType::Comma) {
            let mut rest = self.parse_expression_items()?;
            let mut elements: Vec<Expr> = Vec::new();
            proof {
                assert(exprs_view(elements@) =~= Seq::<ExprV>::empty());
                lemma_exprs_view_push(elements@, first_expr);
                assert(Seq::<ExprV>::empty() + seq![expr_view(first_expr)] =~= seq![expr_view(first_expr)]);
            }
            elements.push(first_expr);
            self.append_exprs(&mut elements, &mut rest);
            self.consume_type(TokenType::RParen)?;
            ExprKind::Tuple(elements)
        } else {
            self.consume_type(TokenType::RParen)?;
            first_expr.kind
        };
        let end = self.peek_end(start);
        Ok(Expr { meta: self.meta(start, end), kind })
    }

    /// Parses `let name = value` or `let name: type = value`.
    fn parse_let(&mut self, start: usize) -> (r: Result<Expr>)
        requires
            tok(old(self).tokens(), old(self).index()) == Some(TokenTypeV::Plain(TokenType::Let)),
        ensures
            r matches Ok(e) ==> e.meta.attributes@.len() == 0,
            final(self).moved_on(*old(self)),
            r is Ok ==> final(self).index() > old(self).index(),
            parsed_expr(r, final(self).index(), primary_at(old(self).tokens(), old(self).index())),
        decreases old(self).remaining(), 6nat,
    {
        proof {
            use_type_invariant(&*self);
            lemma_primary_at(old(self).tokens(), old(self).index());
        }
        self.advance();
        let name = self.consume_identifier()?;
        let type_annotation = if self.match_type(TokenType::Colon) {
            Some(self.parse_type_annotation()?)
        } else {
            None
        };
        self.consume_type(TokenType::Assign)?;
        let value = Box::new(self.parse_expression()?);
        let end = self.peek_end(start);
        Ok(Expr { meta: self.meta(start, end), kind: ExprKind::Let { name, type_annotation, value } })
    }

    /// Parses `if condition .. else .. end`, the `else` part optional.
    fn parse_if(&mut self, start: usize) -> (r: Result<Expr>)
        requires
            tok(old(self).tokens(), old(self).index()) == Some(TokenTypeV::Plain(TokenType::If)),
        ensures
            r matches Ok(e) ==> e.meta.attributes@.len() == 0,
            final(self).moved_on(*old(self)),
            r is Ok ==> final(self).index() > old(self).index(),
            parsed_expr(r, final(self).index(), primary_at(old(self).tokens(), old(self).index())),
        decreases old(self).remaining(), 6nat,
    {
        proof {
            use_type_invariant(&*self);
            lemma_primary_at(old(self).tokens(), old(self).index());
        }
        self.advance();
        let condition = Box::new(self.parse_expression()?);
        let then_branch = self.parse_block(false)?;
        let else_branch = if self.match_type(TokenType::Else) {
            Some(self.parse_block(false)?)
        } else {
            None
        };
        let end = self.peek_end(start);
        Ok(Expr { meta: self.meta(start, end), kind: ExprKind::If { condition, then_branch, else_branch } })
    }

    /// Parses `while condition .. end`.
    fn parse_while(&mut self, start: usize) -> (r: Result<Expr>)
        requires
            tok(old(self).tokens(), old(self).index()) == Some(TokenTypeV::Plain(TokenType::While)),
        ensures
            r matches Ok(e) ==> e.meta.attributes@.len() == 0,
            final(self).moved_on(*old(self)),
            r is Ok ==> final(self).index() > old(self).index(),
            parsed_expr(r, final(self).index(), primary_at(old(self).tokens(), old(self).index())),
        decreases old(self).remaining(), 6nat,
    {
        proof {
            use_type_invariant(&*self);
            lemma_primary_at(old(self).tokens(), old(self).index());
        }
        self.advance();
        let condition = Box::new(self.parse_expression()?);
        let body = self.parse_block(false)?;
        let end = self.peek_end(start);
        Ok(Expr { meta: self.meta(start, end), kind: ExprKind::While { condition, body } })
    }

    /// Parses `for name in iterable .. end`.
    fn parse_for(&mut self, start: usize) -> (r: Result<Expr>)
        requires
            tok(old(self).tokens(), old(self).index()) == Some(TokenTypeV::Plain(TokenType::For)),
        ensures
            r matches Ok(e) ==> e.meta.attributes@.len() == 0,
            final(self).moved_on(*old(self)),
            r is Ok ==> final(self).index() > old(self).index(),
            parsed_expr(r, final(self).index(), primary_at(old(self).tokens(), old(self).index())),
        decreases old(self).remaining(), 6nat,
    {
        proof {
            use_type_invariant(&*self);
            lemma_primary_at(old(self).tokens(), old(self).index());
        }
        self.advance();
        let iterator = self.consume_identifier()?;
        self.consume_type(TokenType::In)?;
        let iterable = Box::new(self.parse_expression()?);
        let body = self.parse_block(false)?;
        let end = self.peek_end(start);
        Ok(Expr { meta: self.meta(start, end), kind: ExprKind::For { iterator, iterable, body } })
    }

    /// Parses `match value` and its arms up to `end`.
    fn parse_match(&mut self, start: usize) -> (r: Result<Expr>)
        requires
            tok(old(self).tokens(), old(self).index()) == Some(TokenTypeV::Plain(TokenType::Match)),
        ensures
            r matches Ok(e) ==> e.meta.attributes@.len() == 0,
            final(self).moved_on(*old(self)),
            r is Ok ==> final(self).index() > old(self).index(),
            parsed_expr(r, final(self).index(), primary_at(old(self).tokens(), old(self).index())),
        decreases old(self).remaining(), 6nat,
    {
        proof {
            use_type_invariant(&*self);
            lemma_primary_at(old(self).tokens(), old(self).index());
        }
        self.advance();
        let value = Box::new(self.parse_expression()?);
        let arms = self.parse_match_arms()?;
        self.consume_type(TokenType::End)?;
        let end = self.peek_end(start);
        Ok(Expr { meta: self.meta(start, end), kind: ExprKind::Match { value, arms } })
    }

    /// Parses `return`, with a value unless `end` or `;` comes next.
    fn parse_return(&mut self, start: usize) -> (r: Result<Expr>)
        requires
            tok(old(self).tokens(), old(self).index()) == Some(TokenTypeV::Plain(TokenType::Return)),
        ensures
            r matches Ok(e) ==> e.meta.attributes@.len() == 0,
            final(self).moved_on(*old(self)),
            r is Ok ==> final(self).index() > old(self).index(),
            parsed_expr(r, final(self).index(), primary_at(old(self).tokens(), old(self).index())),
        decreases old(self).remaining(), 6nat,
    {
        proof {
            use_type_invariant(&*self);
            lemma_primary_at(old(self).tokens(), old(self).index());
        }
        self.advance();
        let value = if !self.check_type(TokenType::End) && !self.check_type(TokenType::Semicolon) {
            Some(Box::new(self.parse_expression()?))
        } else {
            None
        };
        let end = self.peek_end(start);
        Ok(Expr { meta: self.meta(start, end), kind: ExprKind::Return(value) })
    }

    /// Parses a lambda `fn<generics>(params) -> type .. end`; the generic
    /// parameters are read and not kept.
    fn parse_lambda(&mut self, start: usize) -> (r: Result<Expr>)
        requires
            tok(old(self).tokens(), old(self).index()) == Some(TokenTypeV::Plain(TokenType::Fn)),
        ensures
            r matches Ok(e) ==> e.meta.attributes@.len() == 0,
            final(self).moved_on(*old(self)),
            r is Ok ==> final(self).index() > old(self).index(),
            parsed_expr(r, final(self).index(), primary_at(old(self).tokens(), old(self).index())),
        decreases old(self).remaining(), 6nat,
    {
        proof {
            use_type_invariant(&*self);
            lemma_primary_at(old(self).tokens(), old(self).index());
        }
        self.advance();
        let ghost ts = self.tokens();
        let ghost i = old(self).index();
        let ghost j = i + 1;
        if self.match_type(TokenType::Less) {
            let _generic_params = self.parse_generic_params()?;
        }
        let ghost k = self.index();
        assert((if tok(ts, j) == Some(TokenTypeV::Plain(TokenType::Less)) {
            match generic_params_at(ts, j + 1) {
                Ok((_, k)) => Ok(k),
                Err(m) => Err(m),
            }
        } else {
            Ok(j)
        }) == Ok::<int, Seq<char>>(k));
        self.consume_type(TokenType::LParen)?;
        let ghost k2 = self.index();
        let params = if !self.check_type(TokenType::RParen) {
            self.parse_lambda_params()?
        } else {
            let none: Vec<FunctionParam> = Vec::new();
            proof {
                assert(params_view(none@) =~= Seq::<(Seq<char>, AnnotationV)>::empty());
            }
            none
        };
        let ghost k3 = self.index();
        assert((if tok(ts, k2) == Some(TokenTypeV::Plain(TokenType::RParen)) {
            Ok((Seq::empty(), k2))
        } else {
            lambda_params_at(ts, k2)
        }) == Ok::<(Seq<(Seq<char>, AnnotationV)>, int), Seq<char>>((params_view(params@), k3)));
        self.consume_type(TokenType::RParen)?;
        let ghost k4 = self.index();
        let return_type = if self.match_type(TokenType::Arrow) {
            Some(self.parse_type_annotation()?)
        } else {
            None
        };
        let ghost k5 = self.index();
        let ghost rt = match &return_type {
            Some(ta) => Some(annotation_view(*ta)),
            None => None,
        };
        assert((if tok(ts, k4) == Some(TokenTypeV::Plain(TokenType::Arrow)) {
            match annotation_at(ts, k4 + 1) {
                Ok((a, k5)) => Ok((Some(a), k5)),
                Err(m) => Err(m),
            }
        } else {
            Ok((None, k4))
        }) == Ok::<(Option<AnnotationV>, int), Seq<char>>((rt, k5)));
        let expressions = self.parse_block(false)?;
        let body = Box::new(Expr { meta: self.meta(0, 0), kind: ExprKind::Block { expressions } });
        assert(expr_view(*body) == ExprV::Block(exprs_view(expressions@)));
        let end = self.peek_end(start);
        Ok(Expr { meta: self.meta(start, end), kind: ExprKind::Lambda { params, return_type, body } })
    }

    /// Moves the expressions of `rest` to the end of `items`.
    fn append_exprs(&self, items: &mut Vec<Expr>, rest: &mut Vec<Expr>)
        ensures
            exprs_view(final(items)@) == exprs_view(old(items)@) + exprs_view(old(rest)@),
    {
        let ghost first = exprs_view(items@);
        let ghost all = exprs_view(rest@);
        let mut taken: Vec<Expr> = Vec::new();
        std::mem::swap(&mut taken, rest);
        let n = taken.len();
        let ghost source = taken@;
        let mut idx: usize = 0;
        while idx < n
            invariant
                n == source.len(),
                idx <= n,
                taken@ == source.subrange(idx as int, n as int),
                exprs_view(items@) == first + exprs_view(source.subrange(0, idx as int)),
                all == exprs_view(source),
            decreases n - idx,
        {
            let e = taken.remove(0);
            proof {
                assert(e == source[idx as int]);
                lemma_exprs_view_push(items@, e);
                lemma_exprs_view_push(source.subrange(0, idx as int), e);
                assert(source.subrange(0, idx as int).push(e) =~= source.subrange(0, idx as int + 1));
                assert(taken@ =~= source.subrange(idx as int + 1, n as int));
            }
            items.push(e);
            idx = idx + 1;
        }
        proof {
            assert(source.subrange(0, n as int) =~= source);
        }
    }

    /// Parses the fields of a row after its `{`, up to and including the
    /// `}`: `name: value`, where a literal value followed by one of the type
    /// names `i32`, `i64`, `f32`, `f64` is cast to it, or `..spread`.
    fn parse_row_fields(&mut self) -> (r: Result<Vec<RowField>>)
        ensures
            final(self).moved_on(*old(self)),
            r is Ok ==> final(self).index() > old(self).index(),
            parsed_rows(r, final(self).index(), row_fields_at(old(self).tokens(), old(self).index())),
        decreases old(self).remaining(), 22nat,
    {
        proof {
            use_type_invariant(&*self);
        }
        let ghost ts = self.tokens();
        let ghost start = self.index();
        proof {
            lemma_row_fields_at(ts, start);
        }
        let mut fields: Vec<RowField> = Vec::new();
        if !self.check_type(TokenType::RBrace) {
            proof {
                assert(row_view(fields@) =~= Seq::<RowFieldV>::empty());
                lemma_prepend_empty(row_field_items_at(ts, start));
            }
            loop
                invariant_except_break
                    self.moved_on(*old(self)),
                    self.tokens() == ts,
                    start == old(self).index(),
                    tok(ts, start) != Some(TokenTypeV::Plain(TokenType::RBrace)),
                    row_field_items_at(ts, start) == prepend(row_view(fields@), row_field_items_at(ts, self.index())),
                ensures
                    self.moved_on(*old(self)),
                    self.tokens() == ts,
                    tok(ts, start) != Some(TokenTypeV::Plain(TokenType::RBrace)),
                    row_field_items_at(ts, start) == Ok::<(Seq<RowFieldV>, int), Seq<char>>(
                        (row_view(fields@), self.index()),
                    ),
                decreases self.remaining(),
            {
                let ghost acc = row_view(fields@);
                let ghost before = fields@;
                proof {
                    lemma_row_fields_at(ts, start);
                    lemma_row_field_items_at(ts, self.index());
                }
                let field = if self.match_type(TokenType::Spread) {
                    let expr = self.parse_expression()?;
                    RowField::Spread(expr)
                } else {
                    let name = self.consume_identifier()?;
                    self.consume_type(TokenType::Colon)?;
                    let mut value = self.parse_expression()?;
                    let is_literal = match value.kind {
                        ExprKind::Literal(_) => true,
                        _ => false,
                    };
                    if is_literal && self.check_identifier() {
                        let cast_name = match self.peek_type() {
                            Some(TokenType::Identifier(written)) => is_cast_type_name(&written),
                            _ => false,
                        };
                        if cast_name {
                            let cast_type_name = self.consume_identifier()?;
                            let no_args: Vec<TypeAnnotation> = Vec::new();
                            proof {
                                assert(annotations_view(no_args@) =~= Seq::<AnnotationV>::empty());
                            }
                            let cast_type = TypeAnnotation {
                                meta: self.meta(0, 0),
                                kind: TypeAnnotationKind::Constructor {
                                    name: cast_type_name,
                                    generic_args: no_args,
                                },
                            };
                            let start = value.meta.range.start;
                            let end = value.meta.range.end;
                            value = Expr {
                                meta: self.meta(start, end),
                                kind: ExprKind::Cast(Box::new(value), cast_type),
                            };
                        }
                    }
                    RowField::Field { name, value }
                };
                let ghost fv = row_field_view(field);
                proof {
                    lemma_row_view_push(before, field);
                }
                fields.push(field);
                if !self.match_type(TokenType::Comma) {
                    break;
                }
                proof {
                    lemma_prepend_prepend(acc, seq![fv], row_field_items_at(ts, self.index()));
                }
            }
        }
        self.consume_type(TokenType::RBrace)?;
        Ok(fields)
    }

    /// Parses a match arm: a pattern, `=` `>`, an optional guard `if
    /// condition`, the body up to `end` or `,`, and the `,` if any.
    fn parse_match_arm(&mut self) -> (r: Result<MatchArm>)
        ensures
            final(self).moved_on(*old(self)),
            r is Ok ==> final(self).index() > old(self).index(),
            parsed_arm(r, final(self).index(), match_arm_at(old(self).tokens(), old(self).index())),
        decreases old(self).remaining(), 7nat,
    {
        proof {
            use_type_invariant(&*self);
        }
        let ghost ts = self.tokens();
        let ghost i = self.index();
        proof {
            lemma_match_arm_at(ts, i);
        }
        let pattern = self.parse_pattern()?;
        self.consume_type(TokenType::Assign)?;
        self.consume_type(TokenType::Greater)?;
        let guard = if self.check_type(TokenType::If) {
            self.advance();
            Some(Box::new(self.parse_expression()?))
        } else {
            None
        };
        let body = self.parse_arm_body()?;
        self.match_type(TokenType::Comma);
        Ok(MatchArm { pattern, guard, body })
    }

    /// Parses the body of a match arm: expressions, each optionally followed
    /// by `;`, up to `end`, `,` or the end of the tokens.
    fn parse_arm_body(&mut self) -> (r: Result<Vec<Expr>>)
        ensures
            final(self).moved_on(*old(self)),
            parsed_exprs(r, final(self).index(), arm_body_at(old(self).tokens(), old(self).index())),
        decreases old(self).remaining(), 21nat,
    {
        proof {
            use_type_invariant(&*self);
        }
        let ghost ts = self.tokens();
        let ghost start = self.index();
        let mut body: Vec<Expr> = Vec::new();
        proof {
            assert(exprs_view(body@) =~= Seq::<ExprV>::empty());
            lemma_prepend_empty(arm_body_at(ts, start));
        }
        while !self.check_type(TokenType::End) && !self.check_type(TokenType::Comma)
            && !self.is_at_end()
            invariant
                self.moved_on(*old(self)),
                self.tokens() == ts,
                start == old(self).index(),
                arm_body_at(ts, start) == prepend(exprs_view(body@), arm_body_at(ts, self.index())),
            decreases self.remaining(),
        {
            let ghost acc = exprs_view(body@);
            let ghost before = body@;
            proof {
                lemma_arm_body_at(ts, self.index());
            }
            let e = self.parse_expression()?;
            let ghost ev = expr_view(e);
            proof {
                lemma_exprs_view_push(before, e);
            }
            body.push(e);
            if self.check_type(TokenType::Semicolon) {
                self.advance();
            }
            proof {
                lemma_prepend_prepend(acc, seq![ev], arm_body_at(ts, self.index()));
            }
        }
        proof {
            lemma_arm_body_at(ts, self.index());
            assert(exprs_view(body@) + Seq::<ExprV>::empty() =~= exprs_view(body@));
        }
        Ok(body)
    }
}

} // verus!
