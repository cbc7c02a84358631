//! The grammar of expressions, stated over the tokens: what parsing from a
//! given token gives, and where it stops. Operators bind by precedence,
//! from the loosest: assignment (right to left), `|>`, `==` `!=`, `<` `<=`
//! `>` `>=`, `..`, `+` `-`, `*` `/`, prefix `!` `-`, then postfix field
//! access, calls, indexing and casts; binary operators group from the left.
//!
//! The rules are one recursive function, `parse_nt`, over the grammar's
//! nonterminals, so that unfolding one rule does not unfold the others.
//! Each nonterminal has a function of its own that reads its result
//! (`expression_at`, `primary_at`, ...), and a lemma (`lemma_expression_at`,
//! ...) that states its rule in terms of those functions.
use vstd::prelude::*;
use crate::ast::{
    ArrayElement, EnumInitFields, Expr, ExprKind, FunctionParam, MatchArm, RowField, StructInitField,
};
use crate::lexer::spec::lexes_as;
use crate::lexer::tokens::{token_text, Token, TokenType, TokenTypeV};
use crate::parser::grammar::{
    annotation_at, annotation_view, attributes_at, expect, generic_params_at, identifier, literal_view,
    pattern_at, pattern_view, prepend, tok, AnnotationV, LiteralV, PatternV,
};

verus! {

/// The value of an expression: its form, names, operators and literals,
/// without source positions or attributes.
pub enum ExprV {
    Literal(LiteralV),
    Array(Seq<ElemV>),
    Tuple(Seq<ExprV>),
    Row(Seq<RowFieldV>),
    Variable(Seq<char>),
    Let { name: Seq<char>, annotation: Option<AnnotationV>, value: Box<ExprV> },
    Assign { target: Box<ExprV>, value: Box<ExprV> },
    UnaryOp { operator: Seq<char>, operand: Box<ExprV> },
    BinaryOp { left: Box<ExprV>, operator: Seq<char>, right: Box<ExprV> },
    Cast(Box<ExprV>, AnnotationV),
    EarlyReturn(Box<ExprV>),
    DotAccess { value: Box<ExprV>, field: Seq<char> },
    Index { value: Box<ExprV>, index: Box<ExprV> },
    FunctionCall { function: Box<ExprV>, args: Seq<ExprV> },
    If { condition: Box<ExprV>, then_branch: Seq<ExprV>, else_branch: Option<Seq<ExprV>> },
    While { condition: Box<ExprV>, body: Seq<ExprV> },
    For { iterator: Seq<char>, iterable: Box<ExprV>, body: Seq<ExprV> },
    Range { start: Box<ExprV>, end: Box<ExprV>, inclusive: bool },
    Break,
    Continue,
    Return(Option<Box<ExprV>>),
    Block(Seq<ExprV>),
    Do(Seq<ExprV>),
    Lambda { params: Seq<(Seq<char>, AnnotationV)>, return_type: Option<AnnotationV>, body: Box<ExprV> },
    Match { value: Box<ExprV>, arms: Seq<ArmV> },
    StructInit { name: Seq<char>, fields: Seq<InitV> },
    EnumInit { enum_name: Seq<char>, variant_name: Seq<char>, fields: EnumFieldsV },
}

/// The value of an element of an array literal.
pub enum ElemV {
    Value(ExprV),
    Spread(ExprV),
}

/// The value of a field of a row literal.
pub enum RowFieldV {
    Field { name: Seq<char>, value: ExprV },
    Spread(ExprV),
}

/// The value of a field of a struct literal.
pub enum InitV {
    Field { name: Seq<char>, value: ExprV },
    Spread(ExprV),
}

/// The value of the fields of an enum literal.
pub enum EnumFieldsV {
    Tuple(Seq<ExprV>),
    Struct(Seq<InitV>),
}

/// The value of a match arm.
pub struct ArmV {
    pub pattern: PatternV,
    pub guard: Option<ExprV>,
    pub body: Seq<ExprV>,
}

/// The value of an expression.
pub open spec fn expr_view(e: Expr) -> ExprV
    decreases e, 0nat,
{
    match e.kind {
        ExprKind::Literal(l) => ExprV::Literal(literal_view(l)),
        ExprKind::Array(xs) => ExprV::Array(elems_view(xs@)),
        ExprKind::Tuple(xs) => ExprV::Tuple(exprs_view(xs@)),
        ExprKind::Row(fs) => ExprV::Row(row_view(fs@)),
        ExprKind::Variable(n) => ExprV::Variable(n@),
        ExprKind::Let { name, type_annotation, value } => ExprV::Let {
            name: name@,
            annotation: match type_annotation {
                Some(ta) => Some(annotation_view(ta)),
                None => None,
            },
            value: Box::new(expr_view(*value)),
        },
        ExprKind::Assign { target, value } => ExprV::Assign {
            target: Box::new(expr_view(*target)),
            value: Box::new(expr_view(*value)),
        },
        ExprKind::UnaryOp { operator, operand } => ExprV::UnaryOp {
            operator: operator@,
            operand: Box::new(expr_view(*operand)),
        },
        ExprKind::BinaryOp { left, operator, right } => ExprV::BinaryOp {
            left: Box::new(expr_view(*left)),
            operator: operator@,
            right: Box::new(expr_view(*right)),
        },
        ExprKind::Cast(x, ta) => ExprV::Cast(Box::new(expr_view(*x)), annotation_view(ta)),
        ExprKind::EarlyReturn(x) => ExprV::EarlyReturn(Box::new(expr_view(*x))),
        ExprKind::DotAccess { value, field } => ExprV::DotAccess {
            value: Box::new(expr_view(*value)),
            field: field@,
        },
        ExprKind::Index { value, index } => ExprV::Index {
            value: Box::new(expr_view(*value)),
            index: Box::new(expr_view(*index)),
        },
        ExprKind::FunctionCall { function, args } => ExprV::FunctionCall {
            function: Box::new(expr_view(*function)),
            args: exprs_view(args@),
        },
        ExprKind::If { condition, then_branch, else_branch } => ExprV::If {
            condition: Box::new(expr_view(*condition)),
            then_branch: exprs_view(then_branch@),
            else_branch: match else_branch {
                Some(b) => Some(exprs_view(b@)),
                None => None,
            },
        },
        ExprKind::While { condition, body } => ExprV::While {
            condition: Box::new(expr_view(*condition)),
            body: exprs_view(body@),
        },
        ExprKind::For { iterator, iterable, body } => ExprV::For {
            iterator: iterator@,
            iterable: Box::new(expr_view(*iterable)),
            body: exprs_view(body@),
        },
        ExprKind::Range { start, end, inclusive } => ExprV::Range {
            start: Box::new(expr_view(*start)),
            end: Box::new(expr_view(*end)),
            inclusive,
        },
        ExprKind::Break => ExprV::Break,
        ExprKind::Continue => ExprV::Continue,
        ExprKind::Return(x) => ExprV::Return(
            match x {
                Some(v) => Some(Box::new(expr_view(*v))),
                None => None,
            },
        ),
        ExprKind::Block { expressions } => ExprV::Block(exprs_view(expressions@)),
        ExprKind::Do(xs) => ExprV::Do(exprs_view(xs@)),
        ExprKind::Lambda { params, return_type, body } => ExprV::Lambda {
            params: params_view(params@),
            return_type: match return_type {
                Some(ta) => Some(annotation_view(ta)),
                None => None,
            },
            body: Box::new(expr_view(*body)),
        },
        ExprKind::Match { value, arms } => ExprV::Match {
            value: Box::new(expr_view(*value)),
            arms: arms_view(arms@),
        },
        ExprKind::StructInit { name, fields } => ExprV::StructInit { name: name@, fields: inits_view(fields@) },
        ExprKind::EnumInit { enum_name, variant_name, fields } => ExprV::EnumInit {
            enum_name: enum_name@,
            variant_name: variant_name@,
            fields: match fields {
                EnumInitFields::Tuple(xs) => EnumFieldsV::Tuple(exprs_view(xs@)),
                EnumInitFields::Struct(fs) => EnumFieldsV::Struct(inits_view(fs@)),
            },
        },
    }
}

/// The values of a sequence of expressions.
pub open spec fn exprs_view(es: Seq<Expr>) -> Seq<ExprV>
    decreases es, es.len(),
{
    if es.len() == 0 {
        Seq::empty()
    } else {
        exprs_view(es.drop_last()).push(expr_view(es.last()))
    }
}

/// The values of the elements of an array literal.
pub open spec fn elems_view(es: Seq<ArrayElement>) -> Seq<ElemV>
    decreases es, es.len(),
{
    if es.len() == 0 {
        Seq::empty()
    } else {
        elems_view(es.drop_last()).push(
            match es.last() {
                ArrayElement::Value(x) => ElemV::Value(expr_view(x)),
                ArrayElement::Spread(x) => ElemV::Spread(expr_view(x)),
            },
        )
    }
}

/// The values of the fields of a row literal.
pub open spec fn row_view(fs: Seq<RowField>) -> Seq<RowFieldV>
    decreases fs, fs.len(),
{
    if fs.len() == 0 {
        Seq::empty()
    } else {
        row_view(fs.drop_last()).push(
            match fs.last() {
                RowField::Field { name, value } => RowFieldV::Field { name: name@, value: expr_view(value) },
                RowField::Spread(x) => RowFieldV::Spread(expr_view(x)),
            },
        )
    }
}

/// The values of the fields of a struct literal.
pub open spec fn inits_view(fs: Seq<StructInitField>) -> Seq<InitV>
    decreases fs, fs.len(),
{
    if fs.len() == 0 {
        Seq::empty()
    } else {
        inits_view(fs.drop_last()).push(
            match fs.last() {
                StructInitField::Field { name, value } => InitV::Field { name: name@, value: expr_view(value) },
                StructInitField::Spread(x) => InitV::Spread(expr_view(x)),
            },
        )
    }
}

/// The values of the arms of a match.
pub open spec fn arms_view(arms: Seq<MatchArm>) -> Seq<ArmV>
    decreases arms, arms.len(),
{
    if arms.len() == 0 {
        Seq::empty()
    } else {
        arms_view(arms.drop_last()).push(
            ArmV {
                pattern: pattern_view(arms.last().pattern),
                guard: match arms.last().guard {
                    Some(g) => Some(expr_view(*g)),
                    None => None,
                },
                body: exprs_view(arms.last().body@),
            },
        )
    }
}

/// The names and annotation values of parameters.
pub open spec fn params_view(ps: Seq<FunctionParam>) -> Seq<(Seq<char>, AnnotationV)> {
    ps.map_values(|p: FunctionParam| (p.name@, annotation_view(p.type_annotation)))
}

/// `i < k` and `k` is within the tokens: a sub-parse made progress.
pub open spec fn advanced(ts: Seq<Token>, i: int, k: int) -> bool {
    i < k <= ts.len()
}

/// The operator of an augmented assignment token.
pub open spec fn compound_operator(t: Option<TokenTypeV>) -> Option<Seq<char>> {
    match t {
        Some(TokenTypeV::Plain(TokenType::PlusEq)) => Some("+="@),
        Some(TokenTypeV::Plain(TokenType::MinusEq)) => Some("-="@),
        Some(TokenTypeV::Plain(TokenType::MulEq)) => Some("*="@),
        Some(TokenTypeV::Plain(TokenType::DivEq)) => Some("/="@),
        _ => None,
    }
}

/// The operator of an equality token.
pub open spec fn equality_operator(t: Option<TokenTypeV>) -> Option<Seq<char>> {
    match t {
        Some(TokenTypeV::Plain(TokenType::Equal)) => Some("=="@),
        Some(TokenTypeV::Plain(TokenType::NotEq)) => Some("!="@),
        _ => None,
    }
}

/// The operator of a comparison token.
pub open spec fn comparison_operator_of(t: Option<TokenTypeV>) -> Option<Seq<char>> {
    match t {
        Some(TokenTypeV::Plain(TokenType::Less)) => Some("<"@),
        Some(TokenTypeV::Plain(TokenType::LessEq)) => Some("<="@),
        Some(TokenTypeV::Plain(TokenType::Greater)) => Some(">"@),
        Some(TokenTypeV::Plain(TokenType::GreaterEq)) => Some(">="@),
        _ => None,
    }
}

/// The operator of an additive token.
pub open spec fn term_operator(t: Option<TokenTypeV>) -> Option<Seq<char>> {
    match t {
        Some(TokenTypeV::Plain(TokenType::Plus)) => Some("+"@),
        Some(TokenTypeV::Plain(TokenType::Minus)) => Some("-"@),
        _ => None,
    }
}

/// The operator of a multiplicative token.
pub open spec fn factor_operator(t: Option<TokenTypeV>) -> Option<Seq<char>> {
    match t {
        Some(TokenTypeV::Plain(TokenType::Mul)) => Some("*"@),
        Some(TokenTypeV::Plain(TokenType::Div)) => Some("/"@),
        _ => None,
    }
}

/// The operator of a prefix token.
pub open spec fn prefix_operator(t: Option<TokenTypeV>) -> Option<Seq<char>> {
    match t {
        Some(TokenTypeV::Plain(TokenType::Not)) => Some("!"@),
        Some(TokenTypeV::Plain(TokenType::Minus)) => Some("-"@),
        _ => None,
    }
}

/// The operator that a binary, prefix or compound-assignment operation is
/// built with is the text of its token: the operator's characters lex back
/// as exactly that token.
pub proof fn law_operator_text_lexes_to_its_token(t: TokenType)
    ensures
        equality_operator(Some(TokenTypeV::Plain(t))) matches Some(op) ==> lexes_as(op, t),
        comparison_operator_of(Some(TokenTypeV::Plain(t))) matches Some(op) ==> lexes_as(op, t),
        term_operator(Some(TokenTypeV::Plain(t))) matches Some(op) ==> lexes_as(op, t),
        factor_operator(Some(TokenTypeV::Plain(t))) matches Some(op) ==> lexes_as(op, t),
        compound_operator(Some(TokenTypeV::Plain(t))) matches Some(op) ==> lexes_as(op, t),
        prefix_operator(Some(TokenTypeV::Plain(t))) matches Some(op) ==> lexes_as(op, t),
{
    reveal_strlit("==");
    reveal_strlit("!=");
    reveal_strlit("<");
    reveal_strlit("<=");
    reveal_strlit(">");
    reveal_strlit(">=");
    reveal_strlit("+");
    reveal_strlit("-");
    reveal_strlit("*");
    reveal_strlit("/");
    reveal_strlit("+=");
    reveal_strlit("-=");
    reveal_strlit("*=");
    reveal_strlit("/=");
    reveal_strlit("!");
}

/// The binary operation `left op right`.
pub open spec fn bin(left: ExprV, op: Seq<char>, right: ExprV) -> ExprV {
    ExprV::BinaryOp { left: Box::new(left), operator: op, right: Box::new(right) }
}

/// Parsing one or more parameters of a lambda at `i`: `name` with an
/// optional `: type` (the type `unknown` without one), separated by commas.
pub open spec fn lambda_params_at(ts: Seq<Token>, i: int) -> Result<(Seq<(Seq<char>, AnnotationV)>, int), Seq<char>>
    decreases ts.len() - i,
{
    match identifier(ts, i) {
        Err(m) => Err(m),
        Ok(name) => {
            let j = i + 1;
            let ty: Result<(AnnotationV, int), Seq<char>> = if tok(ts, j) == Some(TokenTypeV::Plain(TokenType::Colon)) {
                annotation_at(ts, j + 1)
            } else {
                Ok((AnnotationV::Constructor { name: "unknown"@, args: Seq::empty() }, j))
            };
            match ty {
                Err(m) => Err(m),
                Ok((a, k)) => if k <= i {
                    Err(Seq::empty())
                } else if tok(ts, k) == Some(TokenTypeV::Plain(TokenType::Comma)) {
                    prepend(seq![(name, a)], lambda_params_at(ts, k + 1))
                } else {
                    Ok((seq![(name, a)], k))
                },
            }
        },
    }
}

/// Whether a type name may follow a literal in a row to cast it.
pub open spec fn cast_type_name(name: Seq<char>) -> bool {
    name == "i32"@ || name == "i64"@ || name == "f32"@ || name == "f64"@
}

/// The grammar's nonterminals: which construct to parse. The `Rest`
/// variants go on with an operand already parsed; `Block` says whether the
/// block starts with `do`.
pub enum Nt {
    Expression,
    Assignment,
    Pipe,
    PipeRest(ExprV),
    Or,
    And,
    Equality,
    EqualityRest(ExprV),
    Comparison,
    ComparisonRest(ExprV),
    Range,
    Term,
    TermRest(ExprV),
    Factor,
    FactorRest(ExprV),
    Unary,
    Postfix,
    PostfixRest(ExprV),
    Primary,
    Block(bool),
    BlockItems,
    ArmBody,
    ExprList,
    ExprItems,
    Arms,
    MatchArm,
    InitFields,
    InitItems,
    ArrayItems,
    RowFields,
    RowFieldItems,
}

/// What parsing a nonterminal gives.
pub enum Parsed {
    Expr(ExprV),
    Exprs(Seq<ExprV>),
    Arm(ArmV),
    Arms(Seq<ArmV>),
    Inits(Seq<InitV>),
    Elems(Seq<ElemV>),
    Rows(Seq<RowFieldV>),
}

/// The precedence rank of a nonterminal: at the same token, a construct
/// is parsed in terms of constructs of lower rank.
pub open spec fn level(nt: Nt) -> nat {
    match nt {
        Nt::Expression => 20,
        Nt::Assignment => 19,
        Nt::Pipe => 18,
        Nt::PipeRest(_) => 18,
        Nt::Or => 17,
        Nt::And => 16,
        Nt::Equality => 15,
        Nt::EqualityRest(_) => 15,
        Nt::Comparison => 14,
        Nt::ComparisonRest(_) => 14,
        Nt::Range => 13,
        Nt::Term => 12,
        Nt::TermRest(_) => 12,
        Nt::Factor => 11,
        Nt::FactorRest(_) => 11,
        Nt::Unary => 10,
        Nt::Postfix => 9,
        Nt::PostfixRest(_) => 9,
        Nt::Primary => 8,
        Nt::Block(explicit) => if explicit {
            7
        } else {
            22
        },
        Nt::BlockItems => 21,
        Nt::ArmBody => 21,
        Nt::ExprList => 22,
        Nt::ExprItems => 21,
        Nt::Arms => 22,
        Nt::MatchArm => 7,
        Nt::InitFields => 22,
        Nt::InitItems => 21,
        Nt::ArrayItems => 21,
        Nt::RowFields => 22,
        Nt::RowFieldItems => 21,
    }
}

/// The value of a parse, if it is an expression.
pub open spec fn as_expr(r: Result<(Parsed, int), Seq<char>>) -> Result<(ExprV, int), Seq<char>> {
    match r {
        Ok((Parsed::Expr(v), k)) => Ok((v, k)),
        Ok(_) => Err(Seq::empty()),
        Err(m) => Err(m),
    }
}

/// A parse that gives an expression.
pub open spec fn wrap_expr(r: Result<(ExprV, int), Seq<char>>) -> Result<(Parsed, int), Seq<char>> {
    match r {
        Ok((v, k)) => Ok((Parsed::Expr(v), k)),
        Err(m) => Err(m),
    }
}

/// The value of a parse, if it is expressions.
pub open spec fn as_exprs(r: Result<(Parsed, int), Seq<char>>) -> Result<(Seq<ExprV>, int), Seq<char>> {
    match r {
        Ok((Parsed::Exprs(v), k)) => Ok((v, k)),
        Ok(_) => Err(Seq::empty()),
        Err(m) => Err(m),
    }
}

/// A parse that gives expressions.
pub open spec fn wrap_exprs(r: Result<(Seq<ExprV>, int), Seq<char>>) -> Result<(Parsed, int), Seq<char>> {
    match r {
        Ok((v, k)) => Ok((Parsed::Exprs(v), k)),
        Err(m) => Err(m),
    }
}

/// The value of a parse, if it is match arms.
pub open spec fn as_arms(r: Result<(Parsed, int), Seq<char>>) -> Result<(Seq<ArmV>, int), Seq<char>> {
    match r {
        Ok((Parsed::Arms(v), k)) => Ok((v, k)),
        Ok(_) => Err(Seq::empty()),
        Err(m) => Err(m),
    }
}

/// A parse that gives match arms.
pub open spec fn wrap_arms(r: Result<(Seq<ArmV>, int), Seq<char>>) -> Result<(Parsed, int), Seq<char>> {
    match r {
        Ok((v, k)) => Ok((Parsed::Arms(v), k)),
        Err(m) => Err(m),
    }
}

/// The value of a parse, if it is a match arm.
pub open spec fn as_arm(r: Result<(Parsed, int), Seq<char>>) -> Result<(ArmV, int), Seq<char>> {
    match r {
        Ok((Parsed::Arm(v), k)) => Ok((v, k)),
        Ok(_) => Err(Seq::empty()),
        Err(m) => Err(m),
    }
}

/// A parse that gives a match arm.
pub open spec fn wrap_arm(r: Result<(ArmV, int), Seq<char>>) -> Result<(Parsed, int), Seq<char>> {
    match r {
        Ok((v, k)) => Ok((Parsed::Arm(v), k)),
        Err(m) => Err(m),
    }
}

/// The value of a parse, if it is struct literal fields.
pub open spec fn as_inits(r: Result<(Parsed, int), Seq<char>>) -> Result<(Seq<InitV>, int), Seq<char>> {
    match r {
        Ok((Parsed::Inits(v), k)) => Ok((v, k)),
        Ok(_) => Err(Seq::empty()),
        Err(m) => Err(m),
    }
}

/// A parse that gives struct literal fields.
pub open spec fn wrap_inits(r: Result<(Seq<InitV>, int), Seq<char>>) -> Result<(Parsed, int), Seq<char>> {
    match r {
        Ok((v, k)) => Ok((Parsed::Inits(v), k)),
        Err(m) => Err(m),
    }
}

/// The value of a parse, if it is array elements.
pub open spec fn as_elems(r: Result<(Parsed, int), Seq<char>>) -> Result<(Seq<ElemV>, int), Seq<char>> {
    match r {
        Ok((Parsed::Elems(v), k)) => Ok((v, k)),
        Ok(_) => Err(Seq::empty()),
        Err(m) => Err(m),
    }
}

/// A parse that gives array elements.
pub open spec fn wrap_elems(r: Result<(Seq<ElemV>, int), Seq<char>>) -> Result<(Parsed, int), Seq<char>> {
    match r {
        Ok((v, k)) => Ok((Parsed::Elems(v), k)),
        Err(m) => Err(m),
    }
}

/// The value of a parse, if it is row fields.
pub open spec fn as_rows(r: Result<(Parsed, int), Seq<char>>) -> Result<(Seq<RowFieldV>, int), Seq<char>> {
    match r {
        Ok((Parsed::Rows(v), k)) => Ok((v, k)),
        Ok(_) => Err(Seq::empty()),
        Err(m) => Err(m),
    }
}

/// A parse that gives row fields.
pub open spec fn wrap_rows(r: Result<(Seq<RowFieldV>, int), Seq<char>>) -> Result<(Parsed, int), Seq<char>> {
    match r {
        Ok((v, k)) => Ok((Parsed::Rows(v), k)),
        Err(m) => Err(m),
    }
}

/// Parsing the nonterminal `nt` at `i`: its value and the index after it,
/// or the message of the error.
#[verifier::opaque]
pub open spec fn parse_nt(ts: Seq<Token>, i: int, nt: Nt) -> Result<(Parsed, int), Seq<char>>
    decreases ts.len() - i, level(nt),
{
    match nt {
        Nt::Expression => wrap_expr(
            {
                match attributes_at(ts, i) {
                    Err(m) => Err(m),
                    Ok((_, j)) => if !(i <= j <= ts.len()) {
                        Err(Seq::empty())
                    } else {
                        as_expr(parse_nt(ts, j, Nt::Assignment))
                    },
                }
            },
        ),
        Nt::Assignment => wrap_expr(
            {
                match as_expr(parse_nt(ts, i, Nt::Pipe)) {
                    Err(m) => Err(m),
                    Ok((l, k)) => if !advanced(ts, i, k) {
                        Err(Seq::empty())
                    } else if tok(ts, k) == Some(TokenTypeV::Plain(TokenType::Assign)) {
                        match as_expr(parse_nt(ts, k + 1, Nt::Assignment)) {
                            Ok((r, e)) => Ok((ExprV::Assign { target: Box::new(l), value: Box::new(r) }, e)),
                            Err(m) => Err(m),
                        }
                    } else {
                        match compound_operator(tok(ts, k)) {
                            Some(op) => match as_expr(parse_nt(ts, k + 1, Nt::Assignment)) {
                                Ok((r, e)) => Ok((bin(l, op, r), e)),
                                Err(m) => Err(m),
                            },
                            None => Ok((l, k)),
                        }
                    },
                }
            },
        ),
        Nt::Pipe => wrap_expr(
            {
                match as_expr(parse_nt(ts, i, Nt::Or)) {
                    Err(m) => Err(m),
                    Ok((l, k)) => if !advanced(ts, i, k) {
                        Err(Seq::empty())
                    } else {
                        as_expr(parse_nt(ts, k, Nt::PipeRest(l)))
                    },
                }
            },
        ),
        Nt::PipeRest(left) => {
            let k = i;
            wrap_expr(
                {
                    if tok(ts, k) == Some(TokenTypeV::Plain(TokenType::Pipeline)) {
                        match as_expr(parse_nt(ts, k + 1, Nt::Or)) {
                            Err(m) => Err(m),
                            Ok((r, k2)) => if !advanced(ts, k + 1, k2) {
                                Err(Seq::empty())
                            } else {
                                as_expr(parse_nt(ts, k2, Nt::PipeRest(bin(left, "|>"@, r))))
                            },
                        }
                    } else {
                        Ok((left, k))
                    }
                },
            )
        },
        Nt::Or => wrap_expr(
            {
                as_expr(parse_nt(ts, i, Nt::And))
            },
        ),
        Nt::And => wrap_expr(
            {
                as_expr(parse_nt(ts, i, Nt::Equality))
            },
        ),
        Nt::Equality => wrap_expr(
            {
                match as_expr(parse_nt(ts, i, Nt::Comparison)) {
                    Err(m) => Err(m),
                    Ok((l, k)) => if !advanced(ts, i, k) {
                        Err(Seq::empty())
                    } else {
                        as_expr(parse_nt(ts, k, Nt::EqualityRest(l)))
                    },
                }
            },
        ),
        Nt::EqualityRest(left) => {
            let k = i;
            wrap_expr(
                {
                    match equality_operator(tok(ts, k)) {
                        Some(op) => match as_expr(parse_nt(ts, k + 1, Nt::Comparison)) {
                            Err(m) => Err(m),
                            Ok((r, k2)) => if !advanced(ts, k + 1, k2) {
                                Err(Seq::empty())
                            } else {
                                as_expr(parse_nt(ts, k2, Nt::EqualityRest(bin(left, op, r))))
                            },
                        },
                        None => Ok((left, k)),
                    }
                },
            )
        },
        Nt::Comparison => wrap_expr(
            {
                match as_expr(parse_nt(ts, i, Nt::Range)) {
                    Err(m) => Err(m),
                    Ok((l, k)) => if !advanced(ts, i, k) {
                        Err(Seq::empty())
                    } else {
                        as_expr(parse_nt(ts, k, Nt::ComparisonRest(l)))
                    },
                }
            },
        ),
        Nt::ComparisonRest(left) => {
            let k = i;
            wrap_expr(
                {
                    match comparison_operator_of(tok(ts, k)) {
                        Some(op) => match as_expr(parse_nt(ts, k + 1, Nt::Range)) {
                            Err(m) => Err(m),
                            Ok((r, k2)) => if !advanced(ts, k + 1, k2) {
                                Err(Seq::empty())
                            } else {
                                as_expr(parse_nt(ts, k2, Nt::ComparisonRest(bin(left, op, r))))
                            },
                        },
                        None => Ok((left, k)),
                    }
                },
            )
        },
        Nt::Range => wrap_expr(
            {
                match as_expr(parse_nt(ts, i, Nt::Term)) {
                    Err(m) => Err(m),
                    Ok((l, k)) => if !advanced(ts, i, k) {
                        Err(Seq::empty())
                    } else if tok(ts, k) == Some(TokenTypeV::Plain(TokenType::Spread)) {
                        match as_expr(parse_nt(ts, k + 1, Nt::Term)) {
                            Ok((r, k2)) => Ok((ExprV::Range { start: Box::new(l), end: Box::new(r), inclusive: false }, k2)),
                            Err(m) => Err(m),
                        }
                    } else {
                        Ok((l, k))
                    },
                }
            },
        ),
        Nt::Term => wrap_expr(
            {
                match as_expr(parse_nt(ts, i, Nt::Factor)) {
                    Err(m) => Err(m),
                    Ok((l, k)) => if !advanced(ts, i, k) {
                        Err(Seq::empty())
                    } else {
                        as_expr(parse_nt(ts, k, Nt::TermRest(l)))
                    },
                }
            },
        ),
        Nt::TermRest(left) => {
            let k = i;
            wrap_expr(
                {
                    match term_operator(tok(ts, k)) {
                        Some(op) => match as_expr(parse_nt(ts, k + 1, Nt::Factor)) {
                            Err(m) => Err(m),
                            Ok((r, k2)) => if !advanced(ts, k + 1, k2) {
                                Err(Seq::empty())
                            } else {
                                as_expr(parse_nt(ts, k2, Nt::TermRest(bin(left, op, r))))
                            },
                        },
                        None => Ok((left, k)),
                    }
                },
            )
        },
        Nt::Factor => wrap_expr(
            {
                match as_expr(parse_nt(ts, i, Nt::Unary)) {
                    Err(m) => Err(m),
                    Ok((l, k)) => if !advanced(ts, i, k) {
                        Err(Seq::empty())
                    } else {
                        as_expr(parse_nt(ts, k, Nt::FactorRest(l)))
                    },
                }
            },
        ),
        Nt::FactorRest(left) => {
            let k = i;
            wrap_expr(
                {
                    match factor_operator(tok(ts, k)) {
                        Some(op) => match as_expr(parse_nt(ts, k + 1, Nt::Unary)) {
                            Err(m) => Err(m),
                            Ok((r, k2)) => if !advanced(ts, k + 1, k2) {
                                Err(Seq::empty())
                            } else {
                                as_expr(parse_nt(ts, k2, Nt::FactorRest(bin(left, op, r))))
                            },
                        },
                        None => Ok((left, k)),
                    }
                },
            )
        },
        Nt::Unary => wrap_expr(
            {
                if !(0 <= i < ts.len()) {
                    Err("Expected expression"@)
                } else {
                    match prefix_operator(tok(ts, i)) {
                        Some(op) => match as_expr(parse_nt(ts, i + 1, Nt::Unary)) {
                            Ok((x, k)) => Ok((ExprV::UnaryOp { operator: op, operand: Box::new(x) }, k)),
                            Err(m) => Err(m),
                        },
                        None => as_expr(parse_nt(ts, i, Nt::Postfix)),
                    }
                }
            },
        ),
        Nt::Postfix => wrap_expr(
            {
                match as_expr(parse_nt(ts, i, Nt::Primary)) {
                    Err(m) => Err(m),
                    Ok((e, k)) => if !advanced(ts, i, k) {
                        Err(Seq::empty())
                    } else {
                        as_expr(parse_nt(ts, k, Nt::PostfixRest(e)))
                    },
                }
            },
        ),
        Nt::PostfixRest(e) => {
            let k = i;
            wrap_expr(
                {
                    if tok(ts, k) == Some(TokenTypeV::Plain(TokenType::Dot)) {
                        match identifier(ts, k + 1) {
                            Err(m) => Err(m),
                            Ok(f) => as_expr(parse_nt(ts, k + 2, Nt::PostfixRest(ExprV::DotAccess { value: Box::new(e), field: f }))),
                        }
                    } else if tok(ts, k) == Some(TokenTypeV::Plain(TokenType::LParen)) {
                        match as_exprs(parse_nt(ts, k + 1, Nt::ExprList)) {
                            Err(m) => Err(m),
                            Ok((args, k2)) => if !advanced(ts, k + 1, k2) {
                                Err(Seq::empty())
                            } else {
                                as_expr(parse_nt(ts, k2, Nt::PostfixRest(ExprV::FunctionCall { function: Box::new(e), args })))
                            },
                        }
                    } else if tok(ts, k) == Some(TokenTypeV::Plain(TokenType::LBrack)) {
                        match as_expr(parse_nt(ts, k + 1, Nt::Expression)) {
                            Err(m) => Err(m),
                            Ok((x, k2)) => match expect(ts, k2, TokenType::RBrack) {
                                Err(m) => Err(m),
                                Ok(k3) => if !advanced(ts, k + 1, k3) {
                                    Err(Seq::empty())
                                } else {
                                    as_expr(parse_nt(ts, k3, Nt::PostfixRest(ExprV::Index { value: Box::new(e), index: Box::new(x) })))
                                },
                            },
                        }
                    } else if tok(ts, k) == Some(TokenTypeV::Plain(TokenType::As)) {
                        match annotation_at(ts, k + 1) {
                            Err(m) => Err(m),
                            Ok((a, k2)) => if !advanced(ts, k + 1, k2) {
                                Err(Seq::empty())
                            } else {
                                as_expr(parse_nt(ts, k2, Nt::PostfixRest(ExprV::Cast(Box::new(e), a))))
                            },
                        }
                    } else {
                        Ok((e, k))
                    }
                },
            )
        },
        Nt::Primary => wrap_expr(
            {
                if !(0 <= i < ts.len()) {
                    Err("Expected expression"@)
                } else {
                    let j = i + 1;
                    match ts[i].type_@ {
                        TokenTypeV::Integer(n) => Ok((ExprV::Literal(LiteralV::Integer(n)), j)),
                        TokenTypeV::Float(f) => Ok((ExprV::Literal(LiteralV::Float(f)), j)),
                        TokenTypeV::Str(s) => Ok((ExprV::Literal(LiteralV::Str(s)), j)),
                        TokenTypeV::Plain(TokenType::True) => Ok((ExprV::Literal(LiteralV::Boolean(true)), j)),
                        TokenTypeV::Plain(TokenType::False) => Ok((ExprV::Literal(LiteralV::Boolean(false)), j)),
                        TokenTypeV::Identifier(name) => if tok(ts, j) == Some(TokenTypeV::Plain(TokenType::DoubleColon)) {
                            match identifier(ts, j + 1) {
                                Err(m) => Err(m),
                                Ok(variant) => {
                                    let k = j + 2;
                                    if tok(ts, k) == Some(TokenTypeV::Plain(TokenType::LBrace)) {
                                        match as_inits(parse_nt(ts, k + 1, Nt::InitFields)) {
                                            Ok((fs, e)) => Ok((
                                                ExprV::EnumInit {
                                                    enum_name: name,
                                                    variant_name: variant,
                                                    fields: EnumFieldsV::Struct(fs),
                                                },
                                                e,
                                            )),
                                            Err(m) => Err(m),
                                        }
                                    } else if tok(ts, k) == Some(TokenTypeV::Plain(TokenType::LParen)) {
                                        match as_exprs(parse_nt(ts, k + 1, Nt::ExprList)) {
                                            Ok((xs, e)) => Ok((
                                                ExprV::EnumInit {
                                                    enum_name: name,
                                                    variant_name: variant,
                                                    fields: EnumFieldsV::Tuple(xs),
                                                },
                                                e,
                                            )),
                                            Err(m) => Err(m),
                                        }
                                    } else {
                                        Ok((ExprV::Variable(name + "::"@ + variant), k))
                                    }
                                },
                            }
                        } else if tok(ts, j) == Some(TokenTypeV::Plain(TokenType::LBrace)) {
                            match as_inits(parse_nt(ts, j + 1, Nt::InitFields)) {
                                Ok((fs, e)) => Ok((ExprV::StructInit { name, fields: fs }, e)),
                                Err(m) => Err(m),
                            }
                        } else {
                            Ok((ExprV::Variable(name), j))
                        },
                        TokenTypeV::Plain(TokenType::LParen) => match as_expr(parse_nt(ts, j, Nt::Expression)) {
                            Err(m) => Err(m),
                            Ok((e, k)) => if !advanced(ts, j, k) {
                                Err(Seq::empty())
                            } else if tok(ts, k) == Some(TokenTypeV::Plain(TokenType::Comma)) {
                                match as_exprs(parse_nt(ts, k + 1, Nt::ExprItems)) {
                                    Err(m) => Err(m),
                                    Ok((rest, k2)) => match expect(ts, k2, TokenType::RParen) {
                                        Ok(k3) => Ok((ExprV::Tuple(seq![e] + rest), k3)),
                                        Err(m) => Err(m),
                                    },
                                }
                            } else {
                                match expect(ts, k, TokenType::RParen) {
                                    Ok(k2) => Ok((e, k2)),
                                    Err(m) => Err(m),
                                }
                            },
                        },
                        TokenTypeV::Plain(TokenType::LBrack) => if tok(ts, j) == Some(TokenTypeV::Plain(TokenType::RBrack)) {
                            Ok((ExprV::Array(Seq::empty()), j + 1))
                        } else {
                            match as_elems(parse_nt(ts, j, Nt::ArrayItems)) {
                                Err(m) => Err(m),
                                Ok((els, k)) => match expect(ts, k, TokenType::RBrack) {
                                    Ok(k2) => Ok((ExprV::Array(els), k2)),
                                    Err(m) => Err(m),
                                },
                            }
                        },
                        TokenTypeV::Plain(TokenType::LBrace) => match as_rows(parse_nt(ts, j, Nt::RowFields)) {
                            Ok((fs, k)) => Ok((ExprV::Row(fs), k)),
                            Err(m) => Err(m),
                        },
                        TokenTypeV::Plain(TokenType::Let) => match identifier(ts, j) {
                            Err(m) => Err(m),
                            Ok(name) => {
                                let k = j + 1;
                                let ann: Result<(Option<AnnotationV>, int), Seq<char>> = if tok(ts, k) == Some(
                                    TokenTypeV::Plain(TokenType::Colon),
                                ) {
                                    match annotation_at(ts, k + 1) {
                                        Ok((a, k2)) => Ok((Some(a), k2)),
                                        Err(m) => Err(m),
                                    }
                                } else {
                                    Ok((None, k))
                                };
                                match ann {
                                    Err(m) => Err(m),
                                    Ok((a, k2)) => match expect(ts, k2, TokenType::Assign) {
                                        Err(m) => Err(m),
                                        Ok(k3) => if !advanced(ts, i, k3) {
                                            Err(Seq::empty())
                                        } else {
                                            match as_expr(parse_nt(ts, k3, Nt::Expression)) {
                                                Ok((v, e)) => Ok((ExprV::Let { name, annotation: a, value: Box::new(v) }, e)),
                                                Err(m) => Err(m),
                                            }
                                        },
                                    },
                                }
                            },
                        },
                        TokenTypeV::Plain(TokenType::If) => match as_expr(parse_nt(ts, j, Nt::Expression)) {
                            Err(m) => Err(m),
                            Ok((c, k)) => if !advanced(ts, i, k) {
                                Err(Seq::empty())
                            } else {
                                match as_exprs(parse_nt(ts, k, Nt::Block(false))) {
                                    Err(m) => Err(m),
                                    Ok((tb, k2)) => if !advanced(ts, i, k2) {
                                        Err(Seq::empty())
                                    } else if tok(ts, k2) == Some(TokenTypeV::Plain(TokenType::Else)) {
                                        match as_exprs(parse_nt(ts, k2 + 1, Nt::Block(false))) {
                                            Ok((eb, k3)) => Ok((
                                                ExprV::If { condition: Box::new(c), then_branch: tb, else_branch: Some(eb) },
                                                k3,
                                            )),
                                            Err(m) => Err(m),
                                        }
                                    } else {
                                        Ok((ExprV::If { condition: Box::new(c), then_branch: tb, else_branch: None }, k2))
                                    },
                                }
                            },
                        },
                        TokenTypeV::Plain(TokenType::While) => match as_expr(parse_nt(ts, j, Nt::Expression)) {
                            Err(m) => Err(m),
                            Ok((c, k)) => if !advanced(ts, i, k) {
                                Err(Seq::empty())
                            } else {
                                match as_exprs(parse_nt(ts, k, Nt::Block(false))) {
                                    Ok((b, k2)) => Ok((ExprV::While { condition: Box::new(c), body: b }, k2)),
                                    Err(m) => Err(m),
                                }
                            },
                        },
                        TokenTypeV::Plain(TokenType::For) => match identifier(ts, j) {
                            Err(m) => Err(m),
                            Ok(it) => match expect(ts, j + 1, TokenType::In) {
                                Err(m) => Err(m),
                                Ok(k) => match as_expr(parse_nt(ts, k, Nt::Expression)) {
                                    Err(m) => Err(m),
                                    Ok((x, k2)) => if !advanced(ts, i, k2) {
                                        Err(Seq::empty())
                                    } else {
                                        match as_exprs(parse_nt(ts, k2, Nt::Block(false))) {
                                            Ok((b, k3)) => Ok((ExprV::For { iterator: it, iterable: Box::new(x), body: b }, k3)),
                                            Err(m) => Err(m),
                                        }
                                    },
                                },
                            },
                        },
                        TokenTypeV::Plain(TokenType::Match) => match as_expr(parse_nt(ts, j, Nt::Expression)) {
                            Err(m) => Err(m),
                            Ok((v, k)) => if !advanced(ts, i, k) {
                                Err(Seq::empty())
                            } else {
                                match as_arms(parse_nt(ts, k, Nt::Arms)) {
                                    Err(m) => Err(m),
                                    Ok((arms, k2)) => match expect(ts, k2, TokenType::End) {
                                        Ok(k3) => Ok((ExprV::Match { value: Box::new(v), arms }, k3)),
                                        Err(m) => Err(m),
                                    },
                                }
                            },
                        },
                        TokenTypeV::Plain(TokenType::Do) => match as_exprs(parse_nt(ts, i, Nt::Block(true))) {
                            Ok((b, k)) => Ok((ExprV::Do(b), k)),
                            Err(m) => Err(m),
                        },
                        TokenTypeV::Plain(TokenType::Return) => if tok(ts, j) != Some(TokenTypeV::Plain(TokenType::End)) && tok(
                            ts,
                            j,
                        ) != Some(TokenTypeV::Plain(TokenType::Semicolon)) {
                            match as_expr(parse_nt(ts, j, Nt::Expression)) {
                                Ok((v, k)) => Ok((ExprV::Return(Some(Box::new(v))), k)),
                                Err(m) => Err(m),
                            }
                        } else {
                            Ok((ExprV::Return(None), j))
                        },
                        TokenTypeV::Plain(TokenType::Break) => Ok((ExprV::Break, j)),
                        TokenTypeV::Plain(TokenType::Continue) => Ok((ExprV::Continue, j)),
                        TokenTypeV::Plain(TokenType::Fn) => {
                            let generics: Result<int, Seq<char>> = if tok(ts, j) == Some(TokenTypeV::Plain(TokenType::Less)) {
                                match generic_params_at(ts, j + 1) {
                                    Ok((_, k)) => Ok(k),
                                    Err(m) => Err(m),
                                }
                            } else {
                                Ok(j)
                            };
                            match generics {
                                Err(m) => Err(m),
                                Ok(k) => match expect(ts, k, TokenType::LParen) {
                                    Err(m) => Err(m),
                                    Ok(k2) => {
                                        let params: Result<(Seq<(Seq<char>, AnnotationV)>, int), Seq<char>> = if tok(ts, k2)
                                            == Some(TokenTypeV::Plain(TokenType::RParen)) {
                                            Ok((Seq::empty(), k2))
                                        } else {
                                            lambda_params_at(ts, k2)
                                        };
                                        match params {
                                            Err(m) => Err(m),
                                            Ok((ps, k3)) => match expect(ts, k3, TokenType::RParen) {
                                                Err(m) => Err(m),
                                                Ok(k4) => {
                                                    let ret: Result<(Option<AnnotationV>, int), Seq<char>> = if tok(ts, k4) == Some(
                                                        TokenTypeV::Plain(TokenType::Arrow),
                                                    ) {
                                                        match annotation_at(ts, k4 + 1) {
                                                            Ok((a, k5)) => Ok((Some(a), k5)),
                                                            Err(m) => Err(m),
                                                        }
                                                    } else {
                                                        Ok((None, k4))
                                                    };
                                                    match ret {
                                                        Err(m) => Err(m),
                                                        Ok((rt, k5)) => if !advanced(ts, i, k5) {
                                                            Err(Seq::empty())
                                                        } else {
                                                            match as_exprs(parse_nt(ts, k5, Nt::Block(false))) {
                                                                Ok((b, k6)) => Ok((
                                                                    ExprV::Lambda {
                                                                        params: ps,
                                                                        return_type: rt,
                                                                        body: Box::new(ExprV::Block(b)),
                                                                    },
                                                                    k6,
                                                                )),
                                                                Err(m) => Err(m),
                                                            }
                                                        },
                                                    }
                                                },
                                            },
                                        }
                                    },
                                },
                            }
                        },
                        other => Err("Unexpected token in expression: "@ + token_text(other)),
                    }
                }
            },
        ),
        Nt::Block(explicit) => wrap_exprs(
            {
                let start: Result<int, Seq<char>> = if explicit {
                    expect(ts, i, TokenType::Do)
                } else {
                    Ok(i)
                };
                match start {
                    Err(m) => Err(m),
                    Ok(j) => if !(i <= j <= ts.len()) {
                        Err(Seq::empty())
                    } else {
                        match as_exprs(parse_nt(ts, j, Nt::BlockItems)) {
                            Err(m) => Err(m),
                            Ok((es, k)) => match expect(ts, k, TokenType::End) {
                                Ok(k2) => Ok((es, k2)),
                                Err(m) => Err(m),
                            },
                        }
                    },
                }
            },
        ),
        Nt::BlockItems => wrap_exprs(
            {
                if tok(ts, i) == Some(TokenTypeV::Plain(TokenType::End)) || !(0 <= i < ts.len()) {
                    Ok((Seq::empty(), i))
                } else {
                    match as_expr(parse_nt(ts, i, Nt::Expression)) {
                        Err(m) => Err(m),
                        Ok((e, k)) => if !advanced(ts, i, k) {
                            Err(Seq::empty())
                        } else {
                            let k2 = if tok(ts, k) == Some(TokenTypeV::Plain(TokenType::Semicolon)) {
                                k + 1
                            } else {
                                k
                            };
                            prepend(seq![e], as_exprs(parse_nt(ts, k2, Nt::BlockItems)))
                        },
                    }
                }
            },
        ),
        Nt::ArmBody => wrap_exprs(
            {
                if tok(ts, i) == Some(TokenTypeV::Plain(TokenType::End)) || tok(ts, i) == Some(
                    TokenTypeV::Plain(TokenType::Comma),
                ) || !(0 <= i < ts.len()) {
                    Ok((Seq::empty(), i))
                } else {
                    match as_expr(parse_nt(ts, i, Nt::Expression)) {
                        Err(m) => Err(m),
                        Ok((e, k)) => if !advanced(ts, i, k) {
                            Err(Seq::empty())
                        } else {
                            let k2 = if tok(ts, k) == Some(TokenTypeV::Plain(TokenType::Semicolon)) {
                                k + 1
                            } else {
                                k
                            };
                            prepend(seq![e], as_exprs(parse_nt(ts, k2, Nt::ArmBody)))
                        },
                    }
                }
            },
        ),
        Nt::ExprList => wrap_exprs(
            {
                if tok(ts, i) == Some(TokenTypeV::Plain(TokenType::RParen)) {
                    Ok((Seq::empty(), i + 1))
                } else {
                    match as_exprs(parse_nt(ts, i, Nt::ExprItems)) {
                        Err(m) => Err(m),
                        Ok((xs, k)) => match expect(ts, k, TokenType::RParen) {
                            Ok(k2) => Ok((xs, k2)),
                            Err(m) => Err(m),
                        },
                    }
                }
            },
        ),
        Nt::ExprItems => wrap_exprs(
            {
                match as_expr(parse_nt(ts, i, Nt::Expression)) {
                    Err(m) => Err(m),
                    Ok((e, k)) => if !advanced(ts, i, k) {
                        Err(Seq::empty())
                    } else if tok(ts, k) == Some(TokenTypeV::Plain(TokenType::Comma)) {
                        prepend(seq![e], as_exprs(parse_nt(ts, k + 1, Nt::ExprItems)))
                    } else {
                        Ok((seq![e], k))
                    },
                }
            },
        ),
        Nt::Arms => wrap_arms(
            {
                if tok(ts, i) == Some(TokenTypeV::Plain(TokenType::End)) || !(0 <= i < ts.len()) {
                    Ok((Seq::empty(), i))
                } else {
                    match as_arm(parse_nt(ts, i, Nt::MatchArm)) {
                        Err(m) => Err(m),
                        Ok((a, k)) => if !advanced(ts, i, k) {
                            Err(Seq::empty())
                        } else {
                            prepend(seq![a], as_arms(parse_nt(ts, k, Nt::Arms)))
                        },
                    }
                }
            },
        ),
        Nt::MatchArm => wrap_arm(
            {
                match pattern_at(ts, i) {
                    Err(m) => Err(m),
                    Ok((p, k)) => match expect(ts, k, TokenType::Assign) {
                        Err(m) => Err(m),
                        Ok(k1) => match expect(ts, k1, TokenType::Greater) {
                            Err(m) => Err(m),
                            Ok(k2) => if !advanced(ts, i, k2) {
                                Err(Seq::empty())
                            } else {
                                let guard: Result<(Option<ExprV>, int), Seq<char>> = if tok(ts, k2) == Some(
                                    TokenTypeV::Plain(TokenType::If),
                                ) {
                                    match as_expr(parse_nt(ts, k2 + 1, Nt::Expression)) {
                                        Ok((g, k3)) => Ok((Some(g), k3)),
                                        Err(m) => Err(m),
                                    }
                                } else {
                                    Ok((None, k2))
                                };
                                match guard {
                                    Err(m) => Err(m),
                                    Ok((g, k3)) => if !advanced(ts, i, k3) {
                                        Err(Seq::empty())
                                    } else {
                                        match as_exprs(parse_nt(ts, k3, Nt::ArmBody)) {
                                            Err(m) => Err(m),
                                            Ok((body, k4)) => {
                                                let k5 = if tok(ts, k4) == Some(TokenTypeV::Plain(TokenType::Comma)) {
                                                    k4 + 1
                                                } else {
                                                    k4
                                                };
                                                Ok((ArmV { pattern: p, guard: g, body }, k5))
                                            },
                                        }
                                    },
                                }
                            },
                        },
                    },
                }
            },
        ),
        Nt::InitFields => wrap_inits(
            {
                if tok(ts, i) == Some(TokenTypeV::Plain(TokenType::RBrace)) {
                    Ok((Seq::empty(), i + 1))
                } else {
                    match as_inits(parse_nt(ts, i, Nt::InitItems)) {
                        Err(m) => Err(m),
                        Ok((fs, k)) => match expect(ts, k, TokenType::RBrace) {
                            Ok(k2) => Ok((fs, k2)),
                            Err(m) => Err(m),
                        },
                    }
                }
            },
        ),
        Nt::InitItems => wrap_inits(
            {
                let item: Result<(InitV, int), Seq<char>> = if tok(ts, i) == Some(TokenTypeV::Plain(TokenType::Spread)) {
                    match as_expr(parse_nt(ts, i + 1, Nt::Expression)) {
                        Ok((e, k)) => Ok((InitV::Spread(e), k)),
                        Err(m) => Err(m),
                    }
                } else {
                    match identifier(ts, i) {
                        Err(m) => Err(m),
                        Ok(name) => match expect(ts, i + 1, TokenType::Colon) {
                            Err(m) => Err(m),
                            Ok(j) => match as_expr(parse_nt(ts, j, Nt::Expression)) {
                                Ok((v, k)) => Ok((InitV::Field { name, value: v }, k)),
                                Err(m) => Err(m),
                            },
                        },
                    }
                };
                match item {
                    Err(m) => Err(m),
                    Ok((f, k)) => if !advanced(ts, i, k) {
                        Err(Seq::empty())
                    } else if tok(ts, k) == Some(TokenTypeV::Plain(TokenType::Comma)) {
                        prepend(seq![f], as_inits(parse_nt(ts, k + 1, Nt::InitItems)))
                    } else {
                        Ok((seq![f], k))
                    },
                }
            },
        ),
        Nt::ArrayItems => wrap_elems(
            {
                let item: Result<(ElemV, int), Seq<char>> = if tok(ts, i) == Some(TokenTypeV::Plain(TokenType::Spread)) {
                    match as_expr(parse_nt(ts, i + 1, Nt::Expression)) {
                        Ok((e, k)) => Ok((ElemV::Spread(e), k)),
                        Err(m) => Err(m),
                    }
                } else {
                    match as_expr(parse_nt(ts, i, Nt::Expression)) {
                        Ok((e, k)) => Ok((ElemV::Value(e), k)),
                        Err(m) => Err(m),
                    }
                };
                match item {
                    Err(m) => Err(m),
                    Ok((x, k)) => if !advanced(ts, i, k) {
                        Err(Seq::empty())
                    } else if tok(ts, k) == Some(TokenTypeV::Plain(TokenType::Comma)) {
                        prepend(seq![x], as_elems(parse_nt(ts, k + 1, Nt::ArrayItems)))
                    } else {
                        Ok((seq![x], k))
                    },
                }
            },
        ),
        Nt::RowFields => wrap_rows(
            {
                if tok(ts, i) == Some(TokenTypeV::Plain(TokenType::RBrace)) {
                    Ok((Seq::empty(), i + 1))
                } else {
                    match as_rows(parse_nt(ts, i, Nt::RowFieldItems)) {
                        Err(m) => Err(m),
                        Ok((fs, k)) => match expect(ts, k, TokenType::RBrace) {
                            Ok(k2) => Ok((fs, k2)),
                            Err(m) => Err(m),
                        },
                    }
                }
            },
        ),
        Nt::RowFieldItems => wrap_rows(
            {
                let item: Result<(RowFieldV, int), Seq<char>> = if tok(ts, i) == Some(TokenTypeV::Plain(TokenType::Spread)) {
                    match as_expr(parse_nt(ts, i + 1, Nt::Expression)) {
                        Ok((e, k)) => Ok((RowFieldV::Spread(e), k)),
                        Err(m) => Err(m),
                    }
                } else {
                    match identifier(ts, i) {
                        Err(m) => Err(m),
                        Ok(name) => match expect(ts, i + 1, TokenType::Colon) {
                            Err(m) => Err(m),
                            Ok(j) => match as_expr(parse_nt(ts, j, Nt::Expression)) {
                                Err(m) => Err(m),
                                Ok((v, k)) => match (v, tok(ts, k)) {
                                    (ExprV::Literal(_), Some(TokenTypeV::Identifier(w))) => if cast_type_name(w) {
                                        Ok((
                                            RowFieldV::Field {
                                                name,
                                                value: ExprV::Cast(
                                                    Box::new(v),
                                                    AnnotationV::Constructor { name: w, args: Seq::empty() },
                                                ),
                                            },
                                            k + 1,
                                        ))
                                    } else {
                                        Ok((RowFieldV::Field { name, value: v }, k))
                                    },
                                    _ => Ok((RowFieldV::Field { name, value: v }, k)),
                                },
                            },
                        },
                    }
                };
                match item {
                    Err(m) => Err(m),
                    Ok((f, k)) => if !advanced(ts, i, k) {
                        Err(Seq::empty())
                    } else if tok(ts, k) == Some(TokenTypeV::Plain(TokenType::Comma)) {
                        prepend(seq![f], as_rows(parse_nt(ts, k + 1, Nt::RowFieldItems)))
                    } else {
                        Ok((seq![f], k))
                    },
                }
            },
        ),
    }
}

/// Parsing an expression at `i`: the attributes written before it, then an
/// assignment.
pub open spec fn expression_at(ts: Seq<Token>, i: int) -> Result<(ExprV, int), Seq<char>> {
    as_expr(parse_nt(ts, i, Nt::Expression))
}

/// `expression_at` unfolded one step.
pub proof fn lemma_expression_at(ts: Seq<Token>, i: int)
    ensures
        expression_at(ts, i) == ({
            match attributes_at(ts, i) {
                Err(m) => Err(m),
                Ok((_, j)) => if !(i <= j <= ts.len()) {
                    Err(Seq::empty())
                } else {
                    assignment_at(ts, j)
                },
            }
        }),
{
    reveal(parse_nt);
}

/// Parsing an assignment at `i`: `target = value` and augmented
/// assignments group from the right.
pub open spec fn assignment_at(ts: Seq<Token>, i: int) -> Result<(ExprV, int), Seq<char>> {
    as_expr(parse_nt(ts, i, Nt::Assignment))
}

/// `assignment_at` unfolded one step.
pub proof fn lemma_assignment_at(ts: Seq<Token>, i: int)
    ensures
        assignment_at(ts, i) == ({
            match pipe_at(ts, i) {
                Err(m) => Err(m),
                Ok((l, k)) => if !advanced(ts, i, k) {
                    Err(Seq::empty())
                } else if tok(ts, k) == Some(TokenTypeV::Plain(TokenType::Assign)) {
                    match assignment_at(ts, k + 1) {
                        Ok((r, e)) => Ok((ExprV::Assign { target: Box::new(l), value: Box::new(r) }, e)),
                        Err(m) => Err(m),
                    }
                } else {
                    match compound_operator(tok(ts, k)) {
                        Some(op) => match assignment_at(ts, k + 1) {
                            Ok((r, e)) => Ok((bin(l, op, r), e)),
                            Err(m) => Err(m),
                        },
                        None => Ok((l, k)),
                    }
                },
            }
        }),
{
    reveal(parse_nt);
}

/// Parsing operands joined by `|>` at `i`.
pub open spec fn pipe_at(ts: Seq<Token>, i: int) -> Result<(ExprV, int), Seq<char>> {
    as_expr(parse_nt(ts, i, Nt::Pipe))
}

/// `pipe_at` unfolded one step.
pub proof fn lemma_pipe_at(ts: Seq<Token>, i: int)
    ensures
        pipe_at(ts, i) == ({
            match or_at(ts, i) {
                Err(m) => Err(m),
                Ok((l, k)) => if !advanced(ts, i, k) {
                    Err(Seq::empty())
                } else {
                    pipe_rest(ts, l, k)
                },
            }
        }),
{
    reveal(parse_nt);
}

/// Going on with `left` at `k` while `|>` comes next.
pub open spec fn pipe_rest(ts: Seq<Token>, left: ExprV, k: int) -> Result<(ExprV, int), Seq<char>> {
    as_expr(parse_nt(ts, k, Nt::PipeRest(left)))
}

/// `pipe_rest` unfolded one step.
pub proof fn lemma_pipe_rest(ts: Seq<Token>, left: ExprV, k: int)
    ensures
        pipe_rest(ts, left, k) == ({
            if tok(ts, k) == Some(TokenTypeV::Plain(TokenType::Pipeline)) {
                match or_at(ts, k + 1) {
                    Err(m) => Err(m),
                    Ok((r, k2)) => if !advanced(ts, k + 1, k2) {
                        Err(Seq::empty())
                    } else {
                        pipe_rest(ts, bin(left, "|>"@, r), k2)
                    },
                }
            } else {
                Ok((left, k))
            }
        }),
{
    reveal(parse_nt);
}

/// The logical-or level (it has no operator yet).
pub open spec fn or_at(ts: Seq<Token>, i: int) -> Result<(ExprV, int), Seq<char>> {
    as_expr(parse_nt(ts, i, Nt::Or))
}

/// `or_at` unfolded one step.
pub proof fn lemma_or_at(ts: Seq<Token>, i: int)
    ensures
        or_at(ts, i) == ({
            and_at(ts, i)
        }),
{
    reveal(parse_nt);
}

/// The logical-and level (it has no operator yet).
pub open spec fn and_at(ts: Seq<Token>, i: int) -> Result<(ExprV, int), Seq<char>> {
    as_expr(parse_nt(ts, i, Nt::And))
}

/// `and_at` unfolded one step.
pub proof fn lemma_and_at(ts: Seq<Token>, i: int)
    ensures
        and_at(ts, i) == ({
            equality_at(ts, i)
        }),
{
    reveal(parse_nt);
}

/// Parsing comparisons joined by `==` or `!=` at `i`.
pub open spec fn equality_at(ts: Seq<Token>, i: int) -> Result<(ExprV, int), Seq<char>> {
    as_expr(parse_nt(ts, i, Nt::Equality))
}

/// `equality_at` unfolded one step.
pub proof fn lemma_equality_at(ts: Seq<Token>, i: int)
    ensures
        equality_at(ts, i) == ({
            match comparison_at(ts, i) {
                Err(m) => Err(m),
                Ok((l, k)) => if !advanced(ts, i, k) {
                    Err(Seq::empty())
                } else {
                    equality_rest(ts, l, k)
                },
            }
        }),
{
    reveal(parse_nt);
}

/// Going on with `left` at `k` while `==` or `!=` comes next.
pub open spec fn equality_rest(ts: Seq<Token>, left: ExprV, k: int) -> Result<(ExprV, int), Seq<char>> {
    as_expr(parse_nt(ts, k, Nt::EqualityRest(left)))
}

/// `equality_rest` unfolded one step.
pub proof fn lemma_equality_rest(ts: Seq<Token>, left: ExprV, k: int)
    ensures
        equality_rest(ts, left, k) == ({
            match equality_operator(tok(ts, k)) {
                Some(op) => match comparison_at(ts, k + 1) {
                    Err(m) => Err(m),
                    Ok((r, k2)) => if !advanced(ts, k + 1, k2) {
                        Err(Seq::empty())
                    } else {
                        equality_rest(ts, bin(left, op, r), k2)
                    },
                },
                None => Ok((left, k)),
            }
        }),
{
    reveal(parse_nt);
}

/// Parsing ranges joined by `<`, `<=`, `>` or `>=` at `i`.
pub open spec fn comparison_at(ts: Seq<Token>, i: int) -> Result<(ExprV, int), Seq<char>> {
    as_expr(parse_nt(ts, i, Nt::Comparison))
}

/// `comparison_at` unfolded one step.
pub proof fn lemma_comparison_at(ts: Seq<Token>, i: int)
    ensures
        comparison_at(ts, i) == ({
            match range_at(ts, i) {
                Err(m) => Err(m),
                Ok((l, k)) => if !advanced(ts, i, k) {
                    Err(Seq::empty())
                } else {
                    comparison_rest(ts, l, k)
                },
            }
        }),
{
    reveal(parse_nt);
}

/// Going on with `left` at `k` while a comparison comes next.
pub open spec fn comparison_rest(ts: Seq<Token>, left: ExprV, k: int) -> Result<(ExprV, int), Seq<char>> {
    as_expr(parse_nt(ts, k, Nt::ComparisonRest(left)))
}

/// `comparison_rest` unfolded one step.
pub proof fn lemma_comparison_rest(ts: Seq<Token>, left: ExprV, k: int)
    ensures
        comparison_rest(ts, left, k) == ({
            match comparison_operator_of(tok(ts, k)) {
                Some(op) => match range_at(ts, k + 1) {
                    Err(m) => Err(m),
                    Ok((r, k2)) => if !advanced(ts, k + 1, k2) {
                        Err(Seq::empty())
                    } else {
                        comparison_rest(ts, bin(left, op, r), k2)
                    },
                },
                None => Ok((left, k)),
            }
        }),
{
    reveal(parse_nt);
}

/// Parsing a term, or a range `start..end` of two terms, at `i`.
pub open spec fn range_at(ts: Seq<Token>, i: int) -> Result<(ExprV, int), Seq<char>> {
    as_expr(parse_nt(ts, i, Nt::Range))
}

/// `range_at` unfolded one step.
pub proof fn lemma_range_at(ts: Seq<Token>, i: int)
    ensures
        range_at(ts, i) == ({
            match term_at(ts, i) {
                Err(m) => Err(m),
                Ok((l, k)) => if !advanced(ts, i, k) {
                    Err(Seq::empty())
                } else if tok(ts, k) == Some(TokenTypeV::Plain(TokenType::Spread)) {
                    match term_at(ts, k + 1) {
                        Ok((r, k2)) => Ok((ExprV::Range { start: Box::new(l), end: Box::new(r), inclusive: false }, k2)),
                        Err(m) => Err(m),
                    }
                } else {
                    Ok((l, k))
                },
            }
        }),
{
    reveal(parse_nt);
}

/// Parsing factors joined by `+` or `-` at `i`.
pub open spec fn term_at(ts: Seq<Token>, i: int) -> Result<(ExprV, int), Seq<char>> {
    as_expr(parse_nt(ts, i, Nt::Term))
}

/// `term_at` unfolded one step.
pub proof fn lemma_term_at(ts: Seq<Token>, i: int)
    ensures
        term_at(ts, i) == ({
            match factor_at(ts, i) {
                Err(m) => Err(m),
                Ok((l, k)) => if !advanced(ts, i, k) {
                    Err(Seq::empty())
                } else {
                    term_rest(ts, l, k)
                },
            }
        }),
{
    reveal(parse_nt);
}

/// Going on with `left` at `k` while `+` or `-` comes next.
pub open spec fn term_rest(ts: Seq<Token>, left: ExprV, k: int) -> Result<(ExprV, int), Seq<char>> {
    as_expr(parse_nt(ts, k, Nt::TermRest(left)))
}

/// `term_rest` unfolded one step.
pub proof fn lemma_term_rest(ts: Seq<Token>, left: ExprV, k: int)
    ensures
        term_rest(ts, left, k) == ({
            match term_operator(tok(ts, k)) {
                Some(op) => match factor_at(ts, k + 1) {
                    Err(m) => Err(m),
                    Ok((r, k2)) => if !advanced(ts, k + 1, k2) {
                        Err(Seq::empty())
                    } else {
                        term_rest(ts, bin(left, op, r), k2)
                    },
                },
                None => Ok((left, k)),
            }
        }),
{
    reveal(parse_nt);
}

/// Parsing unary expressions joined by `*` or `/` at `i`.
pub open spec fn factor_at(ts: Seq<Token>, i: int) -> Result<(ExprV, int), Seq<char>> {
    as_expr(parse_nt(ts, i, Nt::Factor))
}

/// `factor_at` unfolded one step.
pub proof fn lemma_factor_at(ts: Seq<Token>, i: int)
    ensures
        factor_at(ts, i) == ({
            match unary_at(ts, i) {
                Err(m) => Err(m),
                Ok((l, k)) => if !advanced(ts, i, k) {
                    Err(Seq::empty())
                } else {
                    factor_rest(ts, l, k)
                },
            }
        }),
{
    reveal(parse_nt);
}

/// Going on with `left` at `k` while `*` or `/` comes next.
pub open spec fn factor_rest(ts: Seq<Token>, left: ExprV, k: int) -> Result<(ExprV, int), Seq<char>> {
    as_expr(parse_nt(ts, k, Nt::FactorRest(left)))
}

/// `factor_rest` unfolded one step.
pub proof fn lemma_factor_rest(ts: Seq<Token>, left: ExprV, k: int)
    ensures
        factor_rest(ts, left, k) == ({
            match factor_operator(tok(ts, k)) {
                Some(op) => match unary_at(ts, k + 1) {
                    Err(m) => Err(m),
                    Ok((r, k2)) => if !advanced(ts, k + 1, k2) {
                        Err(Seq::empty())
                    } else {
                        factor_rest(ts, bin(left, op, r), k2)
                    },
                },
                None => Ok((left, k)),
            }
        }),
{
    reveal(parse_nt);
}

/// Parsing `!` or `-` applied to a unary expression, or a postfix
/// expression, at `i`.
pub open spec fn unary_at(ts: Seq<Token>, i: int) -> Result<(ExprV, int), Seq<char>> {
    as_expr(parse_nt(ts, i, Nt::Unary))
}

/// `unary_at` unfolded one step.
pub proof fn lemma_unary_at(ts: Seq<Token>, i: int)
    ensures
        unary_at(ts, i) == ({
            if !(0 <= i < ts.len()) {
                Err("Expected expression"@)
            } else {
                match prefix_operator(tok(ts, i)) {
                    Some(op) => match unary_at(ts, i + 1) {
                        Ok((x, k)) => Ok((ExprV::UnaryOp { operator: op, operand: Box::new(x) }, k)),
                        Err(m) => Err(m),
                    },
                    None => postfix_at(ts, i),
                }
            }
        }),
{
    reveal(parse_nt);
}

/// Parsing a primary expression and what follows it at `i`.
pub open spec fn postfix_at(ts: Seq<Token>, i: int) -> Result<(ExprV, int), Seq<char>> {
    as_expr(parse_nt(ts, i, Nt::Postfix))
}

/// `postfix_at` unfolded one step.
pub proof fn lemma_postfix_at(ts: Seq<Token>, i: int)
    ensures
        postfix_at(ts, i) == ({
            match primary_at(ts, i) {
                Err(m) => Err(m),
                Ok((e, k)) => if !advanced(ts, i, k) {
                    Err(Seq::empty())
                } else {
                    postfix_rest(ts, e, k)
                },
            }
        }),
{
    reveal(parse_nt);
}

/// Going on with `e` at `k` while `.name`, `(args)`, `[index]` or
/// `as type` comes next.
pub open spec fn postfix_rest(ts: Seq<Token>, e: ExprV, k: int) -> Result<(ExprV, int), Seq<char>> {
    as_expr(parse_nt(ts, k, Nt::PostfixRest(e)))
}

/// `postfix_rest` unfolded one step.
pub proof fn lemma_postfix_rest(ts: Seq<Token>, e: ExprV, k: int)
    ensures
        postfix_rest(ts, e, k) == ({
            if tok(ts, k) == Some(TokenTypeV::Plain(TokenType::Dot)) {
                match identifier(ts, k + 1) {
                    Err(m) => Err(m),
                    Ok(f) => postfix_rest(ts, ExprV::DotAccess { value: Box::new(e), field: f }, k + 2),
                }
            } else if tok(ts, k) == Some(TokenTypeV::Plain(TokenType::LParen)) {
                match expr_list_at(ts, k + 1) {
                    Err(m) => Err(m),
                    Ok((args, k2)) => if !advanced(ts, k + 1, k2) {
                        Err(Seq::empty())
                    } else {
                        postfix_rest(ts, ExprV::FunctionCall { function: Box::new(e), args }, k2)
                    },
                }
            } else if tok(ts, k) == Some(TokenTypeV::Plain(TokenType::LBrack)) {
                match expression_at(ts, k + 1) {
                    Err(m) => Err(m),
                    Ok((x, k2)) => match expect(ts, k2, TokenType::RBrack) {
                        Err(m) => Err(m),
                        Ok(k3) => if !advanced(ts, k + 1, k3) {
                            Err(Seq::empty())
                        } else {
                            postfix_rest(ts, ExprV::Index { value: Box::new(e), index: Box::new(x) }, k3)
                        },
                    },
                }
            } else if tok(ts, k) == Some(TokenTypeV::Plain(TokenType::As)) {
                match annotation_at(ts, k + 1) {
                    Err(m) => Err(m),
                    Ok((a, k2)) => if !advanced(ts, k + 1, k2) {
                        Err(Seq::empty())
                    } else {
                        postfix_rest(ts, ExprV::Cast(Box::new(e), a), k2)
                    },
                }
            } else {
                Ok((e, k))
            }
        }),
{
    reveal(parse_nt);
}

/// Parsing a primary expression at `i`: a literal, a name (with enum paths
/// and struct or enum literals), a parenthesised expression or tuple, an
/// array, a row, or an expression that starts with a keyword.
pub open spec fn primary_at(ts: Seq<Token>, i: int) -> Result<(ExprV, int), Seq<char>> {
    as_expr(parse_nt(ts, i, Nt::Primary))
}

/// `primary_at` unfolded one step.
pub proof fn lemma_primary_at(ts: Seq<Token>, i: int)
    ensures
        primary_at(ts, i) == ({
            if !(0 <= i < ts.len()) {
                Err("Expected expression"@)
            } else {
                let j = i + 1;
                match ts[i].type_@ {
                    TokenTypeV::Integer(n) => Ok((ExprV::Literal(LiteralV::Integer(n)), j)),
                    TokenTypeV::Float(f) => Ok((ExprV::Literal(LiteralV::Float(f)), j)),
                    TokenTypeV::Str(s) => Ok((ExprV::Literal(LiteralV::Str(s)), j)),
                    TokenTypeV::Plain(TokenType::True) => Ok((ExprV::Literal(LiteralV::Boolean(true)), j)),
                    TokenTypeV::Plain(TokenType::False) => Ok((ExprV::Literal(LiteralV::Boolean(false)), j)),
                    TokenTypeV::Identifier(name) => if tok(ts, j) == Some(TokenTypeV::Plain(TokenType::DoubleColon)) {
                        match identifier(ts, j + 1) {
                            Err(m) => Err(m),
                            Ok(variant) => {
                                let k = j + 2;
                                if tok(ts, k) == Some(TokenTypeV::Plain(TokenType::LBrace)) {
                                    match init_fields_at(ts, k + 1) {
                                        Ok((fs, e)) => Ok((
                                            ExprV::EnumInit {
                                                enum_name: name,
                                                variant_name: variant,
                                                fields: EnumFieldsV::Struct(fs),
                                            },
                                            e,
                                        )),
                                        Err(m) => Err(m),
                                    }
                                } else if tok(ts, k) == Some(TokenTypeV::Plain(TokenType::LParen)) {
                                    match expr_list_at(ts, k + 1) {
                                        Ok((xs, e)) => Ok((
                                            ExprV::EnumInit {
                                                enum_name: name,
                                                variant_name: variant,
                                                fields: EnumFieldsV::Tuple(xs),
                                            },
                                            e,
                                        )),
                                        Err(m) => Err(m),
                                    }
                                } else {
                                    Ok((ExprV::Variable(name + "::"@ + variant), k))
                                }
                            },
                        }
                    } else if tok(ts, j) == Some(TokenTypeV::Plain(TokenType::LBrace)) {
                        match init_fields_at(ts, j + 1) {
                            Ok((fs, e)) => Ok((ExprV::StructInit { name, fields: fs }, e)),
                            Err(m) => Err(m),
                        }
                    } else {
                        Ok((ExprV::Variable(name), j))
                    },
                    TokenTypeV::Plain(TokenType::LParen) => match expression_at(ts, j) {
                        Err(m) => Err(m),
                        Ok((e, k)) => if !advanced(ts, j, k) {
                            Err(Seq::empty())
                        } else if tok(ts, k) == Some(TokenTypeV::Plain(TokenType::Comma)) {
                            match expr_items_at(ts, k + 1) {
                                Err(m) => Err(m),
                                Ok((rest, k2)) => match expect(ts, k2, TokenType::RParen) {
                                    Ok(k3) => Ok((ExprV::Tuple(seq![e] + rest), k3)),
                                    Err(m) => Err(m),
                                },
                            }
                        } else {
                            match expect(ts, k, TokenType::RParen) {
                                Ok(k2) => Ok((e, k2)),
                                Err(m) => Err(m),
                            }
                        },
                    },
                    TokenTypeV::Plain(TokenType::LBrack) => if tok(ts, j) == Some(TokenTypeV::Plain(TokenType::RBrack)) {
                        Ok((ExprV::Array(Seq::empty()), j + 1))
                    } else {
                        match array_items_at(ts, j) {
                            Err(m) => Err(m),
                            Ok((els, k)) => match expect(ts, k, TokenType::RBrack) {
                                Ok(k2) => Ok((ExprV::Array(els), k2)),
                                Err(m) => Err(m),
                            },
                        }
                    },
                    TokenTypeV::Plain(TokenType::LBrace) => match row_fields_at(ts, j) {
                        Ok((fs, k)) => Ok((ExprV::Row(fs), k)),
                        Err(m) => Err(m),
                    },
                    TokenTypeV::Plain(TokenType::Let) => match identifier(ts, j) {
                        Err(m) => Err(m),
                        Ok(name) => {
                            let k = j + 1;
                            let ann: Result<(Option<AnnotationV>, int), Seq<char>> = if tok(ts, k) == Some(
                                TokenTypeV::Plain(TokenType::Colon),
                            ) {
                                match annotation_at(ts, k + 1) {
                                    Ok((a, k2)) => Ok((Some(a), k2)),
                                    Err(m) => Err(m),
                                }
                            } else {
                                Ok((None, k))
                            };
                            match ann {
                                Err(m) => Err(m),
                                Ok((a, k2)) => match expect(ts, k2, TokenType::Assign) {
                                    Err(m) => Err(m),
                                    Ok(k3) => if !advanced(ts, i, k3) {
                                        Err(Seq::empty())
                                    } else {
                                        match expression_at(ts, k3) {
                                            Ok((v, e)) => Ok((ExprV::Let { name, annotation: a, value: Box::new(v) }, e)),
                                            Err(m) => Err(m),
                                        }
                                    },
                                },
                            }
                        },
                    },
                    TokenTypeV::Plain(TokenType::If) => match expression_at(ts, j) {
                        Err(m) => Err(m),
                        Ok((c, k)) => if !advanced(ts, i, k) {
                            Err(Seq::empty())
                        } else {
                            match block_at(ts, k, false) {
                                Err(m) => Err(m),
                                Ok((tb, k2)) => if !advanced(ts, i, k2) {
                                    Err(Seq::empty())
                                } else if tok(ts, k2) == Some(TokenTypeV::Plain(TokenType::Else)) {
                                    match block_at(ts, k2 + 1, false) {
                                        Ok((eb, k3)) => Ok((
                                            ExprV::If { condition: Box::new(c), then_branch: tb, else_branch: Some(eb) },
                                            k3,
                                        )),
                                        Err(m) => Err(m),
                                    }
                                } else {
                                    Ok((ExprV::If { condition: Box::new(c), then_branch: tb, else_branch: None }, k2))
                                },
                            }
                        },
                    },
                    TokenTypeV::Plain(TokenType::While) => match expression_at(ts, j) {
                        Err(m) => Err(m),
                        Ok((c, k)) => if !advanced(ts, i, k) {
                            Err(Seq::empty())
                        } else {
                            match block_at(ts, k, false) {
                                Ok((b, k2)) => Ok((ExprV::While { condition: Box::new(c), body: b }, k2)),
                                Err(m) => Err(m),
                            }
                        },
                    },
                    TokenTypeV::Plain(TokenType::For) => match identifier(ts, j) {
                        Err(m) => Err(m),
                        Ok(it) => match expect(ts, j + 1, TokenType::In) {
                            Err(m) => Err(m),
                            Ok(k) => match expression_at(ts, k) {
                                Err(m) => Err(m),
                                Ok((x, k2)) => if !advanced(ts, i, k2) {
                                    Err(Seq::empty())
                                } else {
                                    match block_at(ts, k2, false) {
                                        Ok((b, k3)) => Ok((ExprV::For { iterator: it, iterable: Box::new(x), body: b }, k3)),
                                        Err(m) => Err(m),
                                    }
                                },
                            },
                        },
                    },
                    TokenTypeV::Plain(TokenType::Match) => match expression_at(ts, j) {
                        Err(m) => Err(m),
                        Ok((v, k)) => if !advanced(ts, i, k) {
                            Err(Seq::empty())
                        } else {
                            match arms_at(ts, k) {
                                Err(m) => Err(m),
                                Ok((arms, k2)) => match expect(ts, k2, TokenType::End) {
                                    Ok(k3) => Ok((ExprV::Match { value: Box::new(v), arms }, k3)),
                                    Err(m) => Err(m),
                                },
                            }
                        },
                    },
                    TokenTypeV::Plain(TokenType::Do) => match block_at(ts, i, true) {
                        Ok((b, k)) => Ok((ExprV::Do(b), k)),
                        Err(m) => Err(m),
                    },
                    TokenTypeV::Plain(TokenType::Return) => if tok(ts, j) != Some(TokenTypeV::Plain(TokenType::End)) && tok(
                        ts,
                        j,
                    ) != Some(TokenTypeV::Plain(TokenType::Semicolon)) {
                        match expression_at(ts, j) {
                            Ok((v, k)) => Ok((ExprV::Return(Some(Box::new(v))), k)),
                            Err(m) => Err(m),
                        }
                    } else {
                        Ok((ExprV::Return(None), j))
                    },
                    TokenTypeV::Plain(TokenType::Break) => Ok((ExprV::Break, j)),
                    TokenTypeV::Plain(TokenType::Continue) => Ok((ExprV::Continue, j)),
                    TokenTypeV::Plain(TokenType::Fn) => {
                        let generics: Result<int, Seq<char>> = if tok(ts, j) == Some(TokenTypeV::Plain(TokenType::Less)) {
                            match generic_params_at(ts, j + 1) {
                                Ok((_, k)) => Ok(k),
                                Err(m) => Err(m),
                            }
                        } else {
                            Ok(j)
                        };
                        match generics {
                            Err(m) => Err(m),
                            Ok(k) => match expect(ts, k, TokenType::LParen) {
                                Err(m) => Err(m),
                                Ok(k2) => {
                                    let params: Result<(Seq<(Seq<char>, AnnotationV)>, int), Seq<char>> = if tok(ts, k2)
                                        == Some(TokenTypeV::Plain(TokenType::RParen)) {
                                        Ok((Seq::empty(), k2))
                                    } else {
                                        lambda_params_at(ts, k2)
                                    };
                                    match params {
                                        Err(m) => Err(m),
                                        Ok((ps, k3)) => match expect(ts, k3, TokenType::RParen) {
                                            Err(m) => Err(m),
                                            Ok(k4) => {
                                                let ret: Result<(Option<AnnotationV>, int), Seq<char>> = if tok(ts, k4) == Some(
                                                    TokenTypeV::Plain(TokenType::Arrow),
                                                ) {
                                                    match annotation_at(ts, k4 + 1) {
                                                        Ok((a, k5)) => Ok((Some(a), k5)),
                                                        Err(m) => Err(m),
                                                    }
                                                } else {
                                                    Ok((None, k4))
                                                };
                                                match ret {
                                                    Err(m) => Err(m),
                                                    Ok((rt, k5)) => if !advanced(ts, i, k5) {
                                                        Err(Seq::empty())
                                                    } else {
                                                        match block_at(ts, k5, false) {
                                                            Ok((b, k6)) => Ok((
                                                                ExprV::Lambda {
                                                                    params: ps,
                                                                    return_type: rt,
                                                                    body: Box::new(ExprV::Block(b)),
                                                                },
                                                                k6,
                                                            )),
                                                            Err(m) => Err(m),
                                                        }
                                                    },
                                                }
                                            },
                                        },
                                    }
                                },
                            },
                        }
                    },
                    other => Err("Unexpected token in expression: "@ + token_text(other)),
                }
            }
        }),
{
    reveal(parse_nt);
}

/// Parsing a block at `i`: with `explicit` it starts with `do`; the
/// expressions, each optionally followed by `;`, up to and including `end`.
pub open spec fn block_at(ts: Seq<Token>, i: int, explicit: bool) -> Result<(Seq<ExprV>, int), Seq<char>> {
    as_exprs(parse_nt(ts, i, Nt::Block(explicit)))
}

/// `block_at` unfolded one step.
pub proof fn lemma_block_at(ts: Seq<Token>, i: int, explicit: bool)
    ensures
        block_at(ts, i, explicit) == ({
            let start: Result<int, Seq<char>> = if explicit {
                expect(ts, i, TokenType::Do)
            } else {
                Ok(i)
            };
            match start {
                Err(m) => Err(m),
                Ok(j) => if !(i <= j <= ts.len()) {
                    Err(Seq::empty())
                } else {
                    match block_items_at(ts, j) {
                        Err(m) => Err(m),
                        Ok((es, k)) => match expect(ts, k, TokenType::End) {
                            Ok(k2) => Ok((es, k2)),
                            Err(m) => Err(m),
                        },
                    }
                },
            }
        }),
{
    reveal(parse_nt);
}

/// Parsing the expressions of a block at `i`, each optionally followed by
/// `;`, until `end` or the end of the tokens.
pub open spec fn block_items_at(ts: Seq<Token>, i: int) -> Result<(Seq<ExprV>, int), Seq<char>> {
    as_exprs(parse_nt(ts, i, Nt::BlockItems))
}

/// `block_items_at` unfolded one step.
pub proof fn lemma_block_items_at(ts: Seq<Token>, i: int)
    ensures
        block_items_at(ts, i) == ({
            if tok(ts, i) == Some(TokenTypeV::Plain(TokenType::End)) || !(0 <= i < ts.len()) {
                Ok((Seq::empty(), i))
            } else {
                match expression_at(ts, i) {
                    Err(m) => Err(m),
                    Ok((e, k)) => if !advanced(ts, i, k) {
                        Err(Seq::empty())
                    } else {
                        let k2 = if tok(ts, k) == Some(TokenTypeV::Plain(TokenType::Semicolon)) {
                            k + 1
                        } else {
                            k
                        };
                        prepend(seq![e], block_items_at(ts, k2))
                    },
                }
            }
        }),
{
    reveal(parse_nt);
}

/// Parsing the body of a match arm at `i`: expressions, each optionally
/// followed by `;`, until `end`, `,` or the end of the tokens.
pub open spec fn arm_body_at(ts: Seq<Token>, i: int) -> Result<(Seq<ExprV>, int), Seq<char>> {
    as_exprs(parse_nt(ts, i, Nt::ArmBody))
}

/// `arm_body_at` unfolded one step.
pub proof fn lemma_arm_body_at(ts: Seq<Token>, i: int)
    ensures
        arm_body_at(ts, i) == ({
            if tok(ts, i) == Some(TokenTypeV::Plain(TokenType::End)) || tok(ts, i) == Some(
                TokenTypeV::Plain(TokenType::Comma),
            ) || !(0 <= i < ts.len()) {
                Ok((Seq::empty(), i))
            } else {
                match expression_at(ts, i) {
                    Err(m) => Err(m),
                    Ok((e, k)) => if !advanced(ts, i, k) {
                        Err(Seq::empty())
                    } else {
                        let k2 = if tok(ts, k) == Some(TokenTypeV::Plain(TokenType::Semicolon)) {
                            k + 1
                        } else {
                            k
                        };
                        prepend(seq![e], arm_body_at(ts, k2))
                    },
                }
            }
        }),
{
    reveal(parse_nt);
}

/// Parsing expressions separated by commas at `i`, up to and including the
/// `)`: none when it comes first.
pub open spec fn expr_list_at(ts: Seq<Token>, i: int) -> Result<(Seq<ExprV>, int), Seq<char>> {
    as_exprs(parse_nt(ts, i, Nt::ExprList))
}

/// `expr_list_at` unfolded one step.
pub proof fn lemma_expr_list_at(ts: Seq<Token>, i: int)
    ensures
        expr_list_at(ts, i) == ({
            if tok(ts, i) == Some(TokenTypeV::Plain(TokenType::RParen)) {
                Ok((Seq::empty(), i + 1))
            } else {
                match expr_items_at(ts, i) {
                    Err(m) => Err(m),
                    Ok((xs, k)) => match expect(ts, k, TokenType::RParen) {
                        Ok(k2) => Ok((xs, k2)),
                        Err(m) => Err(m),
                    },
                }
            }
        }),
{
    reveal(parse_nt);
}

/// Parsing one or more expressions separated by commas at `i`.
pub open spec fn expr_items_at(ts: Seq<Token>, i: int) -> Result<(Seq<ExprV>, int), Seq<char>> {
    as_exprs(parse_nt(ts, i, Nt::ExprItems))
}

/// `expr_items_at` unfolded one step.
pub proof fn lemma_expr_items_at(ts: Seq<Token>, i: int)
    ensures
        expr_items_at(ts, i) == ({
            match expression_at(ts, i) {
                Err(m) => Err(m),
                Ok((e, k)) => if !advanced(ts, i, k) {
                    Err(Seq::empty())
                } else if tok(ts, k) == Some(TokenTypeV::Plain(TokenType::Comma)) {
                    prepend(seq![e], expr_items_at(ts, k + 1))
                } else {
                    Ok((seq![e], k))
                },
            }
        }),
{
    reveal(parse_nt);
}

/// Parsing the arms of a match at `i`, until `end` or the end of the tokens.
pub open spec fn arms_at(ts: Seq<Token>, i: int) -> Result<(Seq<ArmV>, int), Seq<char>> {
    as_arms(parse_nt(ts, i, Nt::Arms))
}

/// `arms_at` unfolded one step.
pub proof fn lemma_arms_at(ts: Seq<Token>, i: int)
    ensures
        arms_at(ts, i) == ({
            if tok(ts, i) == Some(TokenTypeV::Plain(TokenType::End)) || !(0 <= i < ts.len()) {
                Ok((Seq::empty(), i))
            } else {
                match match_arm_at(ts, i) {
                    Err(m) => Err(m),
                    Ok((a, k)) => if !advanced(ts, i, k) {
                        Err(Seq::empty())
                    } else {
                        prepend(seq![a], arms_at(ts, k))
                    },
                }
            }
        }),
{
    reveal(parse_nt);
}

/// Parsing a match arm at `i`: a pattern, `=` `>`, an optional guard
/// `if condition`, the body up to `end` or `,`, and the `,` if any.
pub open spec fn match_arm_at(ts: Seq<Token>, i: int) -> Result<(ArmV, int), Seq<char>> {
    as_arm(parse_nt(ts, i, Nt::MatchArm))
}

/// `match_arm_at` unfolded one step.
pub proof fn lemma_match_arm_at(ts: Seq<Token>, i: int)
    ensures
        match_arm_at(ts, i) == ({
            match pattern_at(ts, i) {
                Err(m) => Err(m),
                Ok((p, k)) => match expect(ts, k, TokenType::Assign) {
                    Err(m) => Err(m),
                    Ok(k1) => match expect(ts, k1, TokenType::Greater) {
                        Err(m) => Err(m),
                        Ok(k2) => if !advanced(ts, i, k2) {
                            Err(Seq::empty())
                        } else {
                            let guard: Result<(Option<ExprV>, int), Seq<char>> = if tok(ts, k2) == Some(
                                TokenTypeV::Plain(TokenType::If),
                            ) {
                                match expression_at(ts, k2 + 1) {
                                    Ok((g, k3)) => Ok((Some(g), k3)),
                                    Err(m) => Err(m),
                                }
                            } else {
                                Ok((None, k2))
                            };
                            match guard {
                                Err(m) => Err(m),
                                Ok((g, k3)) => if !advanced(ts, i, k3) {
                                    Err(Seq::empty())
                                } else {
                                    match arm_body_at(ts, k3) {
                                        Err(m) => Err(m),
                                        Ok((body, k4)) => {
                                            let k5 = if tok(ts, k4) == Some(TokenTypeV::Plain(TokenType::Comma)) {
                                                k4 + 1
                                            } else {
                                                k4
                                            };
                                            Ok((ArmV { pattern: p, guard: g, body }, k5))
                                        },
                                    }
                                },
                            }
                        },
                    },
                },
            }
        }),
{
    reveal(parse_nt);
}

/// Parsing the fields of a struct or enum literal at `i` (after its `{`),
/// up to and including the `}`: none when it comes first.
pub open spec fn init_fields_at(ts: Seq<Token>, i: int) -> Result<(Seq<InitV>, int), Seq<char>> {
    as_inits(parse_nt(ts, i, Nt::InitFields))
}

/// `init_fields_at` unfolded one step.
pub proof fn lemma_init_fields_at(ts: Seq<Token>, i: int)
    ensures
        init_fields_at(ts, i) == ({
            if tok(ts, i) == Some(TokenTypeV::Plain(TokenType::RBrace)) {
                Ok((Seq::empty(), i + 1))
            } else {
                match init_items_at(ts, i) {
                    Err(m) => Err(m),
                    Ok((fs, k)) => match expect(ts, k, TokenType::RBrace) {
                        Ok(k2) => Ok((fs, k2)),
                        Err(m) => Err(m),
                    },
                }
            }
        }),
{
    reveal(parse_nt);
}

/// Parsing one or more fields of a struct literal at `i`: `..spread` or
/// `name: value`, separated by commas.
pub open spec fn init_items_at(ts: Seq<Token>, i: int) -> Result<(Seq<InitV>, int), Seq<char>> {
    as_inits(parse_nt(ts, i, Nt::InitItems))
}

/// `init_items_at` unfolded one step.
pub proof fn lemma_init_items_at(ts: Seq<Token>, i: int)
    ensures
        init_items_at(ts, i) == ({
            let item: Result<(InitV, int), Seq<char>> = if tok(ts, i) == Some(TokenTypeV::Plain(TokenType::Spread)) {
                match expression_at(ts, i + 1) {
                    Ok((e, k)) => Ok((InitV::Spread(e), k)),
                    Err(m) => Err(m),
                }
            } else {
                match identifier(ts, i) {
                    Err(m) => Err(m),
                    Ok(name) => match expect(ts, i + 1, TokenType::Colon) {
                        Err(m) => Err(m),
                        Ok(j) => match expression_at(ts, j) {
                            Ok((v, k)) => Ok((InitV::Field { name, value: v }, k)),
                            Err(m) => Err(m),
                        },
                    },
                }
            };
            match item {
                Err(m) => Err(m),
                Ok((f, k)) => if !advanced(ts, i, k) {
                    Err(Seq::empty())
                } else if tok(ts, k) == Some(TokenTypeV::Plain(TokenType::Comma)) {
                    prepend(seq![f], init_items_at(ts, k + 1))
                } else {
                    Ok((seq![f], k))
                },
            }
        }),
{
    reveal(parse_nt);
}

/// Parsing one or more elements of an array literal at `i`: `..spread` or
/// a value, separated by commas.
pub open spec fn array_items_at(ts: Seq<Token>, i: int) -> Result<(Seq<ElemV>, int), Seq<char>> {
    as_elems(parse_nt(ts, i, Nt::ArrayItems))
}

/// `array_items_at` unfolded one step.
pub proof fn lemma_array_items_at(ts: Seq<Token>, i: int)
    ensures
        array_items_at(ts, i) == ({
            let item: Result<(ElemV, int), Seq<char>> = if tok(ts, i) == Some(TokenTypeV::Plain(TokenType::Spread)) {
                match expression_at(ts, i + 1) {
                    Ok((e, k)) => Ok((ElemV::Spread(e), k)),
                    Err(m) => Err(m),
                }
            } else {
                match expression_at(ts, i) {
                    Ok((e, k)) => Ok((ElemV::Value(e), k)),
                    Err(m) => Err(m),
                }
            };
            match item {
                Err(m) => Err(m),
                Ok((x, k)) => if !advanced(ts, i, k) {
                    Err(Seq::empty())
                } else if tok(ts, k) == Some(TokenTypeV::Plain(TokenType::Comma)) {
                    prepend(seq![x], array_items_at(ts, k + 1))
                } else {
                    Ok((seq![x], k))
                },
            }
        }),
{
    reveal(parse_nt);
}

/// Parsing the fields of a row literal at `i` (after its `{`), up to and
/// including the `}`: none when it comes first.
pub open spec fn row_fields_at(ts: Seq<Token>, i: int) -> Result<(Seq<RowFieldV>, int), Seq<char>> {
    as_rows(parse_nt(ts, i, Nt::RowFields))
}

/// `row_fields_at` unfolded one step.
pub proof fn lemma_row_fields_at(ts: Seq<Token>, i: int)
    ensures
        row_fields_at(ts, i) == ({
            if tok(ts, i) == Some(TokenTypeV::Plain(TokenType::RBrace)) {
                Ok((Seq::empty(), i + 1))
            } else {
                match row_field_items_at(ts, i) {
                    Err(m) => Err(m),
                    Ok((fs, k)) => match expect(ts, k, TokenType::RBrace) {
                        Ok(k2) => Ok((fs, k2)),
                        Err(m) => Err(m),
                    },
                }
            }
        }),
{
    reveal(parse_nt);
}

/// Parsing one or more fields of a row literal at `i`: `..spread` or
/// `name: value`, where a literal value followed by one of the type names
/// `i32`, `i64`, `f32`, `f64` is cast to it; separated by commas.
pub open spec fn row_field_items_at(ts: Seq<Token>, i: int) -> Result<(Seq<RowFieldV>, int), Seq<char>> {
    as_rows(parse_nt(ts, i, Nt::RowFieldItems))
}

/// `row_field_items_at` unfolded one step.
pub proof fn lemma_row_field_items_at(ts: Seq<Token>, i: int)
    ensures
        row_field_items_at(ts, i) == ({
            let item: Result<(RowFieldV, int), Seq<char>> = if tok(ts, i) == Some(TokenTypeV::Plain(TokenType::Spread)) {
                match expression_at(ts, i + 1) {
                    Ok((e, k)) => Ok((RowFieldV::Spread(e), k)),
                    Err(m) => Err(m),
                }
            } else {
                match identifier(ts, i) {
                    Err(m) => Err(m),
                    Ok(name) => match expect(ts, i + 1, TokenType::Colon) {
                        Err(m) => Err(m),
                        Ok(j) => match expression_at(ts, j) {
                            Err(m) => Err(m),
                            Ok((v, k)) => match (v, tok(ts, k)) {
                                (ExprV::Literal(_), Some(TokenTypeV::Identifier(w))) => if cast_type_name(w) {
                                    Ok((
                                        RowFieldV::Field {
                                            name,
                                            value: ExprV::Cast(
                                                Box::new(v),
                                                AnnotationV::Constructor { name: w, args: Seq::empty() },
                                            ),
                                        },
                                        k + 1,
                                    ))
                                } else {
                                    Ok((RowFieldV::Field { name, value: v }, k))
                                },
                                _ => Ok((RowFieldV::Field { name, value: v }, k)),
                            },
                        },
                    },
                }
            };
            match item {
                Err(m) => Err(m),
                Ok((f, k)) => if !advanced(ts, i, k) {
                    Err(Seq::empty())
                } else if tok(ts, k) == Some(TokenTypeV::Plain(TokenType::Comma)) {
                    prepend(seq![f], row_field_items_at(ts, k + 1))
                } else {
                    Ok((seq![f], k))
                },
            }
        }),
{
    reveal(parse_nt);
}

} // verus!

verus! {

/// Two expressions of the same form have the same value: the value does
/// not depend on source positions or attributes.
pub proof fn lemma_expr_view_kind(a: Expr, b: Expr)
    requires
        a.kind == b.kind,
    ensures
        expr_view(a) == expr_view(b),
{
}


/// The value of an element of an array literal.
pub open spec fn elem_view(x: ArrayElement) -> ElemV {
    match x {
        ArrayElement::Value(e) => ElemV::Value(expr_view(e)),
        ArrayElement::Spread(e) => ElemV::Spread(expr_view(e)),
    }
}

/// The value of a field of a row literal.
pub open spec fn row_field_view(f: RowField) -> RowFieldV {
    match f {
        RowField::Field { name, value } => RowFieldV::Field { name: name@, value: expr_view(value) },
        RowField::Spread(e) => RowFieldV::Spread(expr_view(e)),
    }
}

/// The value of a field of a struct literal.
pub open spec fn init_view(f: StructInitField) -> InitV {
    match f {
        StructInitField::Field { name, value } => InitV::Field { name: name@, value: expr_view(value) },
        StructInitField::Spread(e) => InitV::Spread(expr_view(e)),
    }
}

/// The value of a match arm.
pub open spec fn arm_view(a: MatchArm) -> ArmV {
    ArmV {
        pattern: pattern_view(a.pattern),
        guard: match a.guard {
            Some(g) => Some(expr_view(*g)),
            None => None,
        },
        body: exprs_view(a.body@),
    }
}

/// The values of expressions with one more at the end.
pub proof fn lemma_exprs_view_push(es: Seq<Expr>, e: Expr)
    ensures
        exprs_view(es.push(e)) == exprs_view(es) + seq![expr_view(e)],
{
    assert(es.push(e).drop_last() =~= es);
    assert(exprs_view(es).push(expr_view(e)) =~= exprs_view(es) + seq![expr_view(e)]);
}

/// The values of array elements with one more at the end.
pub proof fn lemma_elems_view_push(xs: Seq<ArrayElement>, x: ArrayElement)
    ensures
        elems_view(xs.push(x)) == elems_view(xs) + seq![elem_view(x)],
{
    assert(xs.push(x).drop_last() =~= xs);
    assert(elems_view(xs).push(elem_view(x)) =~= elems_view(xs) + seq![elem_view(x)]);
}

/// The values of row fields with one more at the end.
pub proof fn lemma_row_view_push(fs: Seq<RowField>, f: RowField)
    ensures
        row_view(fs.push(f)) == row_view(fs) + seq![row_field_view(f)],
{
    assert(fs.push(f).drop_last() =~= fs);
    assert(row_view(fs).push(row_field_view(f)) =~= row_view(fs) + seq![row_field_view(f)]);
}

/// The values of struct literal fields with one more at the end.
pub proof fn lemma_inits_view_push(fs: Seq<StructInitField>, f: StructInitField)
    ensures
        inits_view(fs.push(f)) == inits_view(fs) + seq![init_view(f)],
{
    assert(fs.push(f).drop_last() =~= fs);
    assert(inits_view(fs).push(init_view(f)) =~= inits_view(fs) + seq![init_view(f)]);
}

/// The values of match arms with one more at the end.
pub proof fn lemma_arms_view_push(arms: Seq<MatchArm>, a: MatchArm)
    ensures
        arms_view(arms.push(a)) == arms_view(arms) + seq![arm_view(a)],
{
    assert(arms.push(a).drop_last() =~= arms);
    assert(arms_view(arms).push(arm_view(a)) =~= arms_view(arms) + seq![arm_view(a)]);
}

/// The values of parameters with one more at the end.
pub proof fn lemma_params_view_push(ps: Seq<FunctionParam>, p: FunctionParam)
    ensures
        params_view(ps.push(p)) == params_view(ps) + seq![(p.name@, annotation_view(p.type_annotation))],
{
    assert(params_view(ps.push(p)) =~= params_view(ps) + seq![(p.name@, annotation_view(p.type_annotation))]);
}

/// Putting `acc` and then `more` in front of a result is putting `acc + more` in front.
pub proof fn lemma_prepend_prepend<A>(acc: Seq<A>, more: Seq<A>, r: Result<(Seq<A>, int), Seq<char>>)
    ensures
        prepend(acc, prepend(more, r)) == prepend(acc + more, r),
{
    match r {
        Ok((rest, e)) => {
            assert(acc + (more + rest) =~= (acc + more) + rest);
        },
        Err(_) => {},
    }
}

/// Putting nothing in front of a result leaves it as it is.
pub proof fn lemma_prepend_empty<A>(r: Result<(Seq<A>, int), Seq<char>>)
    ensures
        prepend(Seq::<A>::empty(), r) == r,
{
    match r {
        Ok((rest, e)) => {
            assert(Seq::<A>::empty() + rest =~= rest);
        },
        Err(_) => {},
    }
}

} // verus!
