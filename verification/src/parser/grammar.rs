//! The grammar of type annotations and patterns, stated over the tokens:
//! what parsing from a given token gives, and where it stops.
use vstd::prelude::*;
use crate::ast::{
    GenericParam, Literal, Pattern, RowTypeField, StructPatternField, TypeAnnotation, TypeAnnotationKind,
};
use crate::meta::{Attribute, AttributeArg};
use crate::lexer::tokens::{token_text, Token, TokenType, TokenTypeV};
use crate::parser::expected_found;

verus! {

/// The value of a type annotation: its form, names and sizes, without
/// source positions.
pub enum AnnotationV {
    Constructor { name: Seq<char>, args: Seq<AnnotationV> },
    Tuple(Seq<AnnotationV>),
    Function { args: Seq<AnnotationV>, ret: Box<AnnotationV> },
    Array { elem: Box<AnnotationV>, size: Option<usize> },
    Row(Seq<(Seq<char>, AnnotationV)>),
}

/// The value of a type annotation.
pub open spec fn annotation_view(ta: TypeAnnotation) -> AnnotationV
    decreases ta, 0nat,
{
    match ta.kind {
        TypeAnnotationKind::Constructor { name, generic_args } => AnnotationV::Constructor {
            name: name@,
            args: annotations_view(generic_args@),
        },
        TypeAnnotationKind::Tuple(ts) => AnnotationV::Tuple(annotations_view(ts@)),
        TypeAnnotationKind::Function { args, return_type } => AnnotationV::Function {
            args: annotations_view(args@),
            ret: Box::new(annotation_view(*return_type)),
        },
        TypeAnnotationKind::Array { element_type, size } => AnnotationV::Array {
            elem: Box::new(annotation_view(*element_type)),
            size,
        },
        TypeAnnotationKind::Row(fields) => AnnotationV::Row(row_fields_view(fields@)),
    }
}

/// The values of a sequence of type annotations.
pub open spec fn annotations_view(tas: Seq<TypeAnnotation>) -> Seq<AnnotationV>
    decreases tas, tas.len(),
{
    if tas.len() == 0 {
        Seq::empty()
    } else {
        annotations_view(tas.drop_last()).push(annotation_view(tas.last()))
    }
}

/// The names and values of the fields of a row annotation.
pub open spec fn row_fields_view(fs: Seq<RowTypeField>) -> Seq<(Seq<char>, AnnotationV)>
    decreases fs, fs.len(),
{
    if fs.len() == 0 {
        Seq::empty()
    } else {
        row_fields_view(fs.drop_last()).push((fs.last().name@, annotation_view(fs.last().type_annotation)))
    }
}

/// The value of a literal.
pub enum LiteralV {
    Integer(i64),
    Float(Seq<char>),
    Str(Seq<char>),
    Boolean(bool),
}

/// The value of a literal.
pub open spec fn literal_view(l: Literal) -> LiteralV {
    match l {
        Literal::Integer(i) => LiteralV::Integer(i),
        Literal::Float(f) => LiteralV::Float(f@),
        Literal::String(s) => LiteralV::Str(s@),
        Literal::Boolean(b) => LiteralV::Boolean(b),
    }
}

/// The value of a pattern: its form, names and literals.
pub enum PatternV {
    Literal(LiteralV),
    Variable(Seq<char>),
    Wildcard,
    Tuple(Seq<PatternV>),
    Struct { name: Seq<char>, fields: Seq<FieldV> },
    EnumVariant { name: Seq<char>, fields: Seq<PatternV> },
    Or(Seq<PatternV>),
}

/// The value of a field of a struct pattern.
pub enum FieldV {
    Shorthand(Seq<char>),
    Typed { name: Seq<char>, pattern: PatternV },
}

/// The value of a pattern.
pub open spec fn pattern_view(p: Pattern) -> PatternV
    decreases p, 0nat,
{
    match p {
        Pattern::Literal(l) => PatternV::Literal(literal_view(l)),
        Pattern::Variable(n) => PatternV::Variable(n@),
        Pattern::Wildcard => PatternV::Wildcard,
        Pattern::Tuple(ps) => PatternV::Tuple(patterns_view(ps@)),
        Pattern::Struct { name, fields } => PatternV::Struct { name: name@, fields: fields_view(fields@) },
        Pattern::EnumVariant { name, fields } => PatternV::EnumVariant {
            name: name@,
            fields: patterns_view(fields@),
        },
        Pattern::Or(ps) => PatternV::Or(patterns_view(ps@)),
    }
}

/// The values of a sequence of patterns.
pub open spec fn patterns_view(ps: Seq<Pattern>) -> Seq<PatternV>
    decreases ps, ps.len(),
{
    if ps.len() == 0 {
        Seq::empty()
    } else {
        patterns_view(ps.drop_last()).push(pattern_view(ps.last()))
    }
}

/// The values of the fields of a struct pattern.
pub open spec fn fields_view(fs: Seq<StructPatternField>) -> Seq<FieldV>
    decreases fs, fs.len(),
{
    if fs.len() == 0 {
        Seq::empty()
    } else {
        fields_view(fs.drop_last()).push(field_view(fs.last()))
    }
}

/// The value of a field of a struct pattern.
pub open spec fn field_view(f: StructPatternField) -> FieldV
    decreases f, 0nat,
{
    match f {
        StructPatternField::Shorthand(n) => FieldV::Shorthand(n@),
        StructPatternField::Typed { name, pattern } => FieldV::Typed {
            name: name@,
            pattern: pattern_view(pattern),
        },
    }
}

/// The type of the token at index `i`, if there is one.
pub open spec fn tok(ts: Seq<Token>, i: int) -> Option<TokenTypeV> {
    if 0 <= i < ts.len() {
        Some(ts[i].type_@)
    } else {
        None
    }
}

/// Consuming a token of type `t` at `i`: the index after it, or the error.
pub open spec fn expect(ts: Seq<Token>, i: int, t: TokenType) -> Result<int, Seq<char>> {
    match tok(ts, i) {
        Some(u) => if u == t@ {
            Ok(i + 1)
        } else {
            Err(expected_found(t@, u))
        },
        None => Err("Unexpected end of input"@),
    }
}

/// Consuming an identifier at `i`: its name, or the error.
pub open spec fn identifier(ts: Seq<Token>, i: int) -> Result<Seq<char>, Seq<char>> {
    match tok(ts, i) {
        Some(TokenTypeV::Identifier(n)) => Ok(n),
        Some(u) => Err("Expected identifier, found "@ + token_text(u)),
        None => Err("Unexpected end of input"@),
    }
}

/// A result with `acc` put in front of the items it gives.
pub open spec fn prepend<A>(acc: Seq<A>, r: Result<(Seq<A>, int), Seq<char>>) -> Result<(Seq<A>, int), Seq<char>> {
    match r {
        Ok((rest, e)) => Ok((acc + rest, e)),
        Err(m) => Err(m),
    }
}

/// Parsing a type annotation at `i`: its value and the index after it, or
/// the message of the error.
pub open spec fn annotation_at(ts: Seq<Token>, i: int) -> Result<(AnnotationV, int), Seq<char>>
    decreases ts.len() - i, 0nat,
{
    if !(0 <= i < ts.len()) {
        Err("Expected type annotation"@)
    } else {
        let name: Result<Seq<char>, Seq<char>> = if ts[i].type_@ == TokenTypeV::Plain(TokenType::SelfType) {
            Ok("Self"@)
        } else {
            identifier(ts, i)
        };
        let j = i + 1;
        match name {
            Err(m) => Err(m),
            Ok(name) => if name == "Self"@ {
                Ok((AnnotationV::Constructor { name, args: Seq::empty() }, j))
            } else if tok(ts, j) == Some(TokenTypeV::Plain(TokenType::Less)) {
                match annotation_list_at(ts, j + 1, TokenType::Greater) {
                    Ok((args, k)) => Ok((AnnotationV::Constructor { name, args }, k)),
                    Err(m) => Err(m),
                }
            } else if tok(ts, j) == Some(TokenTypeV::Plain(TokenType::LParen)) {
                match annotation_list_at(ts, j + 1, TokenType::RParen) {
                    Ok((items, k)) => Ok((AnnotationV::Tuple(items), k)),
                    Err(m) => Err(m),
                }
            } else if tok(ts, j) == Some(TokenTypeV::Plain(TokenType::LBrace)) {
                if tok(ts, j + 1) == Some(TokenTypeV::Plain(TokenType::RBrace)) {
                    Ok((AnnotationV::Row(Seq::empty()), j + 2))
                } else {
                    match row_items_at(ts, j + 1) {
                        Ok((fields, k)) => match expect(ts, k, TokenType::RBrace) {
                            Ok(k2) => Ok((AnnotationV::Row(fields), k2)),
                            Err(m) => Err(m),
                        },
                        Err(m) => Err(m),
                    }
                }
            } else if tok(ts, j) == Some(TokenTypeV::Plain(TokenType::LBrack)) {
                match annotation_at(ts, j + 1) {
                    Ok((elem, k)) => {
                        let (size, k2) = match tok(ts, k) {
                            Some(TokenTypeV::Integer(n)) => (Some(n as usize), k + 1),
                            _ => (None, k),
                        };
                        match expect(ts, k2, TokenType::RBrack) {
                            Ok(k3) => Ok((AnnotationV::Array { elem: Box::new(elem), size }, k3)),
                            Err(m) => Err(m),
                        }
                    },
                    Err(m) => Err(m),
                }
            } else {
                Ok((AnnotationV::Constructor { name, args: Seq::empty() }, j))
            },
        }
    }
}

/// Parsing type annotations separated by commas at `i`, up to and including
/// the closing token: none when it comes first.
pub open spec fn annotation_list_at(ts: Seq<Token>, i: int, close: TokenType) -> Result<
    (Seq<AnnotationV>, int),
    Seq<char>,
>
    decreases ts.len() - i, 2nat,
{
    if tok(ts, i) == Some(close@) {
        Ok((Seq::empty(), i + 1))
    } else {
        match annotation_items_at(ts, i) {
            Ok((items, k)) => match expect(ts, k, close) {
                Ok(k2) => Ok((items, k2)),
                Err(m) => Err(m),
            },
            Err(m) => Err(m),
        }
    }
}

/// Parsing one or more type annotations separated by commas at `i`.
pub open spec fn annotation_items_at(ts: Seq<Token>, i: int) -> Result<(Seq<AnnotationV>, int), Seq<char>>
    decreases ts.len() - i, 1nat,
{
    match annotation_at(ts, i) {
        Err(m) => Err(m),
        Ok((a, k)) => if k <= i {
            Err(Seq::empty())
        } else if tok(ts, k) == Some(TokenTypeV::Plain(TokenType::Comma)) {
            prepend(seq![a], annotation_items_at(ts, k + 1))
        } else {
            Ok((seq![a], k))
        },
    }
}

/// Parsing one or more fields `name: type` of a row annotation, separated
/// by commas, at `i`.
pub open spec fn row_items_at(ts: Seq<Token>, i: int) -> Result<(Seq<(Seq<char>, AnnotationV)>, int), Seq<char>>
    decreases ts.len() - i, 1nat,
{
    match identifier(ts, i) {
        Err(m) => Err(m),
        Ok(name) => match expect(ts, i + 1, TokenType::Colon) {
            Err(m) => Err(m),
            Ok(j) => match annotation_at(ts, j) {
                Err(m) => Err(m),
                Ok((a, k)) => if k <= i {
                    Err(Seq::empty())
                } else if tok(ts, k) == Some(TokenTypeV::Plain(TokenType::Comma)) {
                    prepend(seq![(name, a)], row_items_at(ts, k + 1))
                } else {
                    Ok((seq![(name, a)], k))
                },
            },
        },
    }
}

/// The value of a generic parameter: its name and the values of its bounds.
pub struct GenericV {
    pub name: Seq<char>,
    pub constraints: Seq<AnnotationV>,
}

/// The values of generic parameters.
pub open spec fn generics_view(gps: Seq<GenericParam>) -> Seq<GenericV> {
    gps.map_values(|gp: GenericParam| GenericV { name: gp.name@, constraints: annotations_view(gp.constraints@) })
}

/// Parsing generic parameters at `i` (after the `<`), up to and including
/// the `>`: `name` or `name: Bound + Bound`, separated by commas.
pub open spec fn generic_params_at(ts: Seq<Token>, i: int) -> Result<(Seq<GenericV>, int), Seq<char>>
    decreases ts.len() - i, 2nat,
{
    match generic_items_at(ts, i) {
        Ok((gs, k)) => match expect(ts, k, TokenType::Greater) {
            Ok(k2) => Ok((gs, k2)),
            Err(m) => Err(m),
        },
        Err(m) => Err(m),
    }
}

/// Parsing one or more generic parameters separated by commas at `i`.
pub open spec fn generic_items_at(ts: Seq<Token>, i: int) -> Result<(Seq<GenericV>, int), Seq<char>>
    decreases ts.len() - i, 1nat,
{
    match identifier(ts, i) {
        Err(m) => Err(m),
        Ok(name) => {
            let j = i + 1;
            let cs: Result<(Seq<AnnotationV>, int), Seq<char>> = if tok(ts, j) == Some(
                TokenTypeV::Plain(TokenType::Colon),
            ) {
                constraint_items_at(ts, j + 1)
            } else {
                Ok((Seq::empty(), j))
            };
            match cs {
                Err(m) => Err(m),
                Ok((c, k)) => if k <= i {
                    Err(Seq::empty())
                } else if tok(ts, k) == Some(TokenTypeV::Plain(TokenType::Comma)) {
                    prepend(seq![GenericV { name, constraints: c }], generic_items_at(ts, k + 1))
                } else {
                    Ok((seq![GenericV { name, constraints: c }], k))
                },
            }
        },
    }
}

/// Parsing one or more type annotations joined by `+` at `i`.
pub open spec fn constraint_items_at(ts: Seq<Token>, i: int) -> Result<(Seq<AnnotationV>, int), Seq<char>>
    decreases ts.len() - i, 1nat,
{
    match annotation_at(ts, i) {
        Err(m) => Err(m),
        Ok((a, k)) => if k <= i {
            Err(Seq::empty())
        } else if tok(ts, k) == Some(TokenTypeV::Plain(TokenType::Plus)) {
            prepend(seq![a], constraint_items_at(ts, k + 1))
        } else {
            Ok((seq![a], k))
        },
    }
}

/// The value of an attribute: its name and the values of its arguments.
pub struct AttributeV {
    pub name: Seq<char>,
    pub args: Seq<AttributeArgV>,
}

/// The value of an argument of an attribute.
pub enum AttributeArgV {
    Literal(Seq<char>),
    KeyValue(Seq<char>, Seq<char>),
    Variable(Seq<char>),
}

/// The value of an argument of an attribute.
pub open spec fn attribute_arg_view(a: AttributeArg) -> AttributeArgV {
    match a {
        AttributeArg::Literal(s) => AttributeArgV::Literal(s@),
        AttributeArg::KeyValue(k, v) => AttributeArgV::KeyValue(k@, v@),
        AttributeArg::Variable(s) => AttributeArgV::Variable(s@),
    }
}

/// The values of attributes.
pub open spec fn attributes_view(attrs: Seq<Attribute>) -> Seq<AttributeV> {
    attrs.map_values(
        |a: Attribute| AttributeV { name: a.name@, args: a.args@.map_values(|x: AttributeArg| attribute_arg_view(x)) },
    )
}

/// Parsing the attributes at `i`: none unless a `@` comes next; each is
/// `@name` with optional arguments in parentheses.
pub open spec fn attributes_at(ts: Seq<Token>, i: int) -> Result<(Seq<AttributeV>, int), Seq<char>>
    decreases ts.len() - i,
{
    if tok(ts, i) != Some(TokenTypeV::Plain(TokenType::At)) {
        Ok((Seq::empty(), i))
    } else {
        match identifier(ts, i + 1) {
            Err(m) => Err(m),
            Ok(name) => {
                match attribute_arg_list_at(ts, i + 2) {
                    Err(m) => Err(m),
                    Ok((a, k)) => if k <= i {
                        Err(Seq::empty())
                    } else {
                        prepend(seq![AttributeV { name, args: a }], attributes_at(ts, k))
                    },
                }
            },
        }
    }
}

/// Parsing the optional arguments of an attribute at `j`: none unless a
/// `(` comes next, else up to and including the `)`.
pub open spec fn attribute_arg_list_at(ts: Seq<Token>, j: int) -> Result<(Seq<AttributeArgV>, int), Seq<char>> {
    if tok(ts, j) == Some(TokenTypeV::Plain(TokenType::LParen)) {
        if tok(ts, j + 1) == Some(TokenTypeV::Plain(TokenType::RParen)) {
            Ok((Seq::empty(), j + 2))
        } else {
            match attribute_args_at(ts, j + 1) {
                Ok((a, k)) => match expect(ts, k, TokenType::RParen) {
                    Ok(k2) => Ok((a, k2)),
                    Err(m) => Err(m),
                },
                Err(m) => Err(m),
            }
        }
    } else {
        Ok((Seq::empty(), j))
    }
}

/// Parsing the arguments of an attribute at `i`: a string, `name`, or
/// `name = value`, separated by commas; a token of another kind is passed
/// over without an argument.
pub open spec fn attribute_args_at(ts: Seq<Token>, i: int) -> Result<(Seq<AttributeArgV>, int), Seq<char>>
    decreases ts.len() - i,
{
    let one: Result<(Option<AttributeArgV>, int), Seq<char>> = match tok(ts, i) {
        Some(TokenTypeV::Str(s)) => Ok((Some(AttributeArgV::Literal(s)), i + 1)),
        Some(TokenTypeV::Identifier(s)) => if tok(ts, i + 1) == Some(TokenTypeV::Plain(TokenType::Assign)) {
            match tok(ts, i + 2) {
                Some(TokenTypeV::Str(v)) => Ok((Some(AttributeArgV::KeyValue(s, v)), i + 3)),
                Some(TokenTypeV::Identifier(v)) => Ok((Some(AttributeArgV::KeyValue(s, v)), i + 3)),
                Some(u) => Err("Invalid attribute value: "@ + token_text(u)),
                None => Err("Unexpected end of input"@),
            }
        } else {
            Ok((Some(AttributeArgV::Variable(s)), i + 1))
        },
        _ => Ok((None, i)),
    };
    match one {
        Err(m) => Err(m),
        Ok((a, k)) => {
            let acc = match a {
                Some(x) => seq![x],
                None => Seq::empty(),
            };
            if k < i {
                Err(Seq::empty())
            } else if tok(ts, k) == Some(TokenTypeV::Plain(TokenType::Comma)) {
                prepend(acc, attribute_args_at(ts, k + 1))
            } else {
                Ok((acc, k))
            }
        },
    }
}

/// Parsing a pattern at `i`: its value and the index after it, or the
/// message of the error.
pub open spec fn pattern_at(ts: Seq<Token>, i: int) -> Result<(PatternV, int), Seq<char>>
    decreases ts.len() - i, 0nat,
{
    if !(0 <= i < ts.len()) {
        Err("Expected pattern"@)
    } else {
        let j = i + 1;
        match ts[i].type_@ {
            TokenTypeV::Integer(n) => Ok((PatternV::Literal(LiteralV::Integer(n)), j)),
            TokenTypeV::Float(f) => Ok((PatternV::Literal(LiteralV::Float(f)), j)),
            TokenTypeV::Str(s) => Ok((PatternV::Literal(LiteralV::Str(s)), j)),
            TokenTypeV::Plain(TokenType::True) => Ok((PatternV::Literal(LiteralV::Boolean(true)), j)),
            TokenTypeV::Plain(TokenType::False) => Ok((PatternV::Literal(LiteralV::Boolean(false)), j)),
            TokenTypeV::Identifier(name) => if name == "_"@ {
                Ok((PatternV::Wildcard, j))
            } else if tok(ts, j) == Some(TokenTypeV::Plain(TokenType::DoubleColon)) {
                match identifier(ts, j + 1) {
                    Err(m) => Err(m),
                    Ok(variant) => {
                        let path = name + "::"@ + variant;
                        let k = j + 2;
                        if tok(ts, k) == Some(TokenTypeV::Plain(TokenType::LParen)) {
                            match pattern_list_at(ts, k + 1) {
                                Ok((fields, e)) => Ok((PatternV::EnumVariant { name: path, fields }, e)),
                                Err(m) => Err(m),
                            }
                        } else if tok(ts, k) == Some(TokenTypeV::Plain(TokenType::LBrace)) {
                            match pattern_fields_at(ts, k + 1) {
                                Ok((_, e)) => Ok((PatternV::EnumVariant { name: path, fields: Seq::empty() }, e)),
                                Err(m) => Err(m),
                            }
                        } else {
                            Ok((PatternV::EnumVariant { name: path, fields: Seq::empty() }, k))
                        }
                    },
                }
            } else if tok(ts, j) == Some(TokenTypeV::Plain(TokenType::LBrace)) {
                match pattern_fields_at(ts, j + 1) {
                    Ok((fields, e)) => Ok((PatternV::Struct { name, fields }, e)),
                    Err(m) => Err(m),
                }
            } else {
                Ok((PatternV::Variable(name), j))
            },
            TokenTypeV::Plain(TokenType::LParen) => match pattern_list_at(ts, j) {
                Ok((ps, e)) => Ok((PatternV::Tuple(ps), e)),
                Err(m) => Err(m),
            },
            other => Err("Expected pattern, found "@ + token_text(other)),
        }
    }
}

/// Parsing patterns separated by commas at `i`, up to and including the
/// `)`: none when it comes first.
pub open spec fn pattern_list_at(ts: Seq<Token>, i: int) -> Result<(Seq<PatternV>, int), Seq<char>>
    decreases ts.len() - i, 2nat,
{
    if tok(ts, i) == Some(TokenTypeV::Plain(TokenType::RParen)) {
        Ok((Seq::empty(), i + 1))
    } else {
        match pattern_items_at(ts, i) {
            Ok((items, k)) => match expect(ts, k, TokenType::RParen) {
                Ok(k2) => Ok((items, k2)),
                Err(m) => Err(m),
            },
            Err(m) => Err(m),
        }
    }
}

/// Parsing one or more patterns separated by commas at `i`.
pub open spec fn pattern_items_at(ts: Seq<Token>, i: int) -> Result<(Seq<PatternV>, int), Seq<char>>
    decreases ts.len() - i, 1nat,
{
    match pattern_at(ts, i) {
        Err(m) => Err(m),
        Ok((p, k)) => if k <= i {
            Err(Seq::empty())
        } else if tok(ts, k) == Some(TokenTypeV::Plain(TokenType::Comma)) {
            prepend(seq![p], pattern_items_at(ts, k + 1))
        } else {
            Ok((seq![p], k))
        },
    }
}

/// Parsing the fields of a struct pattern at `i`, up to and including the
/// `}`: none when it comes first.
pub open spec fn pattern_fields_at(ts: Seq<Token>, i: int) -> Result<(Seq<FieldV>, int), Seq<char>>
    decreases ts.len() - i, 2nat,
{
    if tok(ts, i) == Some(TokenTypeV::Plain(TokenType::RBrace)) {
        Ok((Seq::empty(), i + 1))
    } else {
        match field_items_at(ts, i) {
            Ok((items, k)) => match expect(ts, k, TokenType::RBrace) {
                Ok(k2) => Ok((items, k2)),
                Err(m) => Err(m),
            },
            Err(m) => Err(m),
        }
    }
}

/// Parsing one or more fields of a struct pattern, `name` or
/// `name: pattern`, separated by commas, at `i`.
pub open spec fn field_items_at(ts: Seq<Token>, i: int) -> Result<(Seq<FieldV>, int), Seq<char>>
    decreases ts.len() - i, 1nat,
{
    match identifier(ts, i) {
        Err(m) => Err(m),
        Ok(name) => {
            let j = i + 1;
            let item: Result<(FieldV, int), Seq<char>> = if tok(ts, j) == Some(
                TokenTypeV::Plain(TokenType::Colon),
            ) {
                match pattern_at(ts, j + 1) {
                    Ok((p, k)) => Ok((FieldV::Typed { name, pattern: p }, k)),
                    Err(m) => Err(m),
                }
            } else {
                Ok((FieldV::Shorthand(name), j))
            };
            match item {
                Err(m) => Err(m),
                Ok((f, k)) => if k <= i {
                    Err(Seq::empty())
                } else if tok(ts, k) == Some(TokenTypeV::Plain(TokenType::Comma)) {
                    prepend(seq![f], field_items_at(ts, k + 1))
                } else {
                    Ok((seq![f], k))
                },
            }
        },
    }
}

} // verus!
