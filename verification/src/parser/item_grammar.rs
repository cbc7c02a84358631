//! The grammar of top-level declarations, stated over the tokens: what
//! parsing a program, or one declaration after its keyword, gives.
use vstd::prelude::*;
use crate::ast::{AstNode, AstNodeKind, EnumVariant, ImportItem, MethodParam, MethodSignature, StructField};
use crate::lexer::tokens::{token_text, Token, TokenType, TokenTypeV};
use crate::parser::expr_grammar::{block_at, expr_view, expression_at, exprs_view, params_view, ExprV};
use crate::parser::grammar::{
    annotation_at, annotation_list_at, annotation_view, attributes_at, attributes_view, expect, generic_params_at,
    generics_view, identifier, prepend, tok, AnnotationV, AttributeV, GenericV,
};

verus! {

/// The value of a field declaration: its attributes, name and type.
pub struct FieldDeclV {
    pub attributes: Seq<AttributeV>,
    pub name: Seq<char>,
    pub annotation: AnnotationV,
}

/// The value of an enum variant.
pub enum VariantV {
    Tuple { name: Seq<char>, fields: Seq<AnnotationV> },
    Struct { name: Seq<char>, fields: Seq<FieldDeclV> },
}

/// The value of a parameter of a method signature.
pub enum MethodParamV {
    SelfParam,
    Typed(Seq<char>, AnnotationV),
}

/// The value of a method signature.
pub struct MethodV {
    pub name: Seq<char>,
    pub args: Seq<MethodParamV>,
    pub return_type: Option<AnnotationV>,
    pub generics: Seq<GenericV>,
}

/// The value of a top-level declaration, without source positions.
pub enum ItemV {
    Function {
        name: Seq<char>,
        args: Seq<(Seq<char>, AnnotationV)>,
        return_type: Option<AnnotationV>,
        generics: Seq<GenericV>,
        body: Seq<ExprV>,
    },
    Struct { name: Seq<char>, generics: Seq<GenericV>, fields: Seq<FieldDeclV> },
    Enum { name: Seq<char>, generics: Seq<GenericV>, variants: Seq<VariantV> },
    Trait { name: Seq<char>, generics: Seq<GenericV>, methods: Seq<MethodV> },
    Impl { trait_name: Option<Seq<char>>, for_type: AnnotationV, methods: Seq<NodeV> },
    Extern { name: Seq<char>, args: Seq<(Seq<char>, AnnotationV)>, return_type: Option<AnnotationV> },
    Const { name: Seq<char>, annotation: Option<AnnotationV>, value: ExprV },
    Import { path: Seq<char>, items: Seq<(Seq<char>, Option<Seq<char>>)> },
}

/// The value of a node of the program: its attributes and declaration.
pub struct NodeV {
    pub attributes: Seq<AttributeV>,
    pub item: ItemV,
}

/// The value of an optional type annotation.
pub open spec fn annotation_opt_view(ta: Option<crate::ast::TypeAnnotation>) -> Option<AnnotationV> {
    match ta {
        Some(a) => Some(annotation_view(a)),
        None => None,
    }
}

/// The value of a field declaration.
pub open spec fn field_decl_view(f: StructField) -> FieldDeclV {
    FieldDeclV {
        attributes: attributes_view(f.meta.attributes@),
        name: f.name@,
        annotation: annotation_view(f.type_annotation),
    }
}

/// The values of field declarations.
pub open spec fn field_decls_view(fs: Seq<StructField>) -> Seq<FieldDeclV> {
    fs.map_values(|f: StructField| field_decl_view(f))
}

/// The value of an enum variant.
pub open spec fn variant_view(v: EnumVariant) -> VariantV {
    match v {
        EnumVariant::Tuple { name, fields, .. } => VariantV::Tuple {
            name: name@,
            fields: crate::parser::grammar::annotations_view(fields@),
        },
        EnumVariant::Struct { name, fields, .. } => VariantV::Struct {
            name: name@,
            fields: field_decls_view(fields@),
        },
    }
}

/// The value of a parameter of a method signature.
pub open spec fn method_param_view(p: MethodParam) -> MethodParamV {
    match p {
        MethodParam::SelfParam => MethodParamV::SelfParam,
        MethodParam::TypedParam { name, type_annotation } => MethodParamV::Typed(
            name@,
            annotation_view(type_annotation),
        ),
    }
}

/// The value of a method signature.
pub open spec fn method_view(m: MethodSignature) -> MethodV {
    MethodV {
        name: m.name@,
        args: m.args@.map_values(|p: MethodParam| method_param_view(p)),
        return_type: annotation_opt_view(m.return_type),
        generics: generics_view(m.generic_params@),
    }
}

/// The value of an imported name and its alias.
pub open spec fn import_item_view(it: ImportItem) -> (Seq<char>, Option<Seq<char>>) {
    (
        it.name@,
        match it.alias {
            Some(a) => Some(a@),
            None => None,
        },
    )
}

/// The value of a declaration.
pub open spec fn item_view(k: AstNodeKind) -> ItemV
    decreases k, 0nat,
{
    match k {
        AstNodeKind::Function { name, args, return_type, generic_params, body } => ItemV::Function {
            name: name@,
            args: params_view(args@),
            return_type: annotation_opt_view(return_type),
            generics: generics_view(generic_params@),
            body: exprs_view(body@),
        },
        AstNodeKind::Struct { name, generic_params, fields } => ItemV::Struct {
            name: name@,
            generics: generics_view(generic_params@),
            fields: field_decls_view(fields@),
        },
        AstNodeKind::Enum { name, generic_params, variants } => ItemV::Enum {
            name: name@,
            generics: generics_view(generic_params@),
            variants: variants@.map_values(|v: EnumVariant| variant_view(v)),
        },
        AstNodeKind::Trait { name, generic_params, methods } => ItemV::Trait {
            name: name@,
            generics: generics_view(generic_params@),
            methods: methods@.map_values(|m: MethodSignature| method_view(m)),
        },
        AstNodeKind::Impl { trait_name, for_type, methods } => ItemV::Impl {
            trait_name: match trait_name {
                Some(t) => Some(t@),
                None => None,
            },
            for_type: annotation_view(for_type),
            methods: nodes_view(methods@),
        },
        AstNodeKind::Extern { name, args, return_type } => ItemV::Extern {
            name: name@,
            args: params_view(args@),
            return_type: annotation_opt_view(return_type),
        },
        AstNodeKind::Const { name, type_annotation, value } => ItemV::Const {
            name: name@,
            annotation: annotation_opt_view(type_annotation),
            value: expr_view(value),
        },
        AstNodeKind::Import { path, items } => ItemV::Import {
            path: path@,
            items: items@.map_values(|it: ImportItem| import_item_view(it)),
        },
    }
}

/// The values of the nodes of a program.
pub open spec fn nodes_view(ns: Seq<AstNode>) -> Seq<NodeV>
    decreases ns, ns.len(),
{
    if ns.len() == 0 {
        Seq::empty()
    } else {
        nodes_view(ns.drop_last()).push(
            NodeV { attributes: attributes_view(ns.last().meta.attributes@), item: item_view(ns.last().kind) },
        )
    }
}

/// The value of a node of the program.
pub open spec fn node_view(n: AstNode) -> NodeV {
    NodeV { attributes: attributes_view(n.meta.attributes@), item: item_view(n.kind) }
}

/// Parsing generic parameters at `i` when a `<` comes next; none otherwise.
pub open spec fn generics_opt_at(ts: Seq<Token>, i: int) -> Result<(Seq<GenericV>, int), Seq<char>> {
    if tok(ts, i) == Some(TokenTypeV::Plain(TokenType::Less)) {
        generic_params_at(ts, i + 1)
    } else {
        Ok((Seq::empty(), i))
    }
}

/// Parsing a return type at `i` when a `->` comes next; none otherwise.
pub open spec fn return_opt_at(ts: Seq<Token>, i: int) -> Result<(Option<AnnotationV>, int), Seq<char>> {
    if tok(ts, i) == Some(TokenTypeV::Plain(TokenType::Arrow)) {
        match annotation_at(ts, i + 1) {
            Ok((a, k)) => Ok((Some(a), k)),
            Err(m) => Err(m),
        }
    } else {
        Ok((None, i))
    }
}

/// Parsing a function parameter `name: type` at `i`.
pub open spec fn fn_param_at(ts: Seq<Token>, i: int) -> Result<((Seq<char>, AnnotationV), int), Seq<char>> {
    match identifier(ts, i) {
        Err(m) => Err(m),
        Ok(name) => match expect(ts, i + 1, TokenType::Colon) {
            Err(m) => Err(m),
            Ok(j) => match annotation_at(ts, j) {
                Ok((a, k)) => Ok(((name, a), k)),
                Err(m) => Err(m),
            },
        },
    }
}

/// Parsing one or more function parameters separated by commas at `i`.
pub open spec fn fn_param_items_at(ts: Seq<Token>, i: int) -> Result<(Seq<(Seq<char>, AnnotationV)>, int), Seq<char>>
    decreases ts.len() - i,
{
    match fn_param_at(ts, i) {
        Err(m) => Err(m),
        Ok((p, k)) => if !(i < k <= ts.len()) {
            Err(Seq::empty())
        } else if tok(ts, k) == Some(TokenTypeV::Plain(TokenType::Comma)) {
            prepend(seq![p], fn_param_items_at(ts, k + 1))
        } else {
            Ok((seq![p], k))
        },
    }
}

/// Parsing function parameters at `i` (after the `(`), up to and
/// including the `)`: none when it comes first.
pub open spec fn fn_params_at(ts: Seq<Token>, i: int) -> Result<(Seq<(Seq<char>, AnnotationV)>, int), Seq<char>> {
    if tok(ts, i) == Some(TokenTypeV::Plain(TokenType::RParen)) {
        Ok((Seq::empty(), i + 1))
    } else {
        match fn_param_items_at(ts, i) {
            Err(m) => Err(m),
            Ok((ps, k)) => match expect(ts, k, TokenType::RParen) {
                Ok(k2) => Ok((ps, k2)),
                Err(m) => Err(m),
            },
        }
    }
}

/// Parsing a function at `i`, after its `fn`: name, generic parameters,
/// parameters, return type and body up to `end`.
pub open spec fn function_at(ts: Seq<Token>, i: int) -> Result<(ItemV, int), Seq<char>> {
    match identifier(ts, i) {
        Err(m) => Err(m),
        Ok(name) => match generics_opt_at(ts, i + 1) {
            Err(m) => Err(m),
            Ok((gs, k)) => match expect(ts, k, TokenType::LParen) {
                Err(m) => Err(m),
                Ok(k2) => match fn_params_at(ts, k2) {
                    Err(m) => Err(m),
                    Ok((ps, k3)) => match return_opt_at(ts, k3) {
                        Err(m) => Err(m),
                        Ok((rt, k4)) => match block_at(ts, k4, false) {
                            Ok((body, k5)) => Ok((
                                ItemV::Function { name, args: ps, return_type: rt, generics: gs, body },
                                k5,
                            )),
                            Err(m) => Err(m),
                        },
                    },
                },
            },
        },
    }
}

/// Parsing a field declaration at `i`: its attributes, `name: type`.
pub open spec fn field_decl_at(ts: Seq<Token>, i: int) -> Result<(FieldDeclV, int), Seq<char>> {
    match attributes_at(ts, i) {
        Err(m) => Err(m),
        Ok((attrs, j)) => match identifier(ts, j) {
            Err(m) => Err(m),
            Ok(name) => match expect(ts, j + 1, TokenType::Colon) {
                Err(m) => Err(m),
                Ok(k) => match annotation_at(ts, k) {
                    Ok((a, k2)) => Ok((FieldDeclV { attributes: attrs, name, annotation: a }, k2)),
                    Err(m) => Err(m),
                },
            },
        },
    }
}

/// Parsing the field declarations of a struct at `i`, until `end` or the
/// end of the tokens.
pub open spec fn struct_fields_at(ts: Seq<Token>, i: int) -> Result<(Seq<FieldDeclV>, int), Seq<char>>
    decreases ts.len() - i,
{
    if tok(ts, i) == Some(TokenTypeV::Plain(TokenType::End)) || !(0 <= i < ts.len()) {
        Ok((Seq::empty(), i))
    } else {
        match field_decl_at(ts, i) {
            Err(m) => Err(m),
            Ok((f, k)) => if !(i < k <= ts.len()) {
                Err(Seq::empty())
            } else {
                prepend(seq![f], struct_fields_at(ts, k))
            },
        }
    }
}

/// Parsing a struct at `i`, after its `struct`: name, generic parameters
/// and field declarations up to `end`.
pub open spec fn struct_at(ts: Seq<Token>, i: int) -> Result<(ItemV, int), Seq<char>> {
    match identifier(ts, i) {
        Err(m) => Err(m),
        Ok(name) => match generics_opt_at(ts, i + 1) {
            Err(m) => Err(m),
            Ok((gs, k)) => match struct_fields_at(ts, k) {
                Err(m) => Err(m),
                Ok((fs, k2)) => match expect(ts, k2, TokenType::End) {
                    Ok(k3) => Ok((ItemV::Struct { name, generics: gs, fields: fs }, k3)),
                    Err(m) => Err(m),
                },
            },
        },
    }
}

/// Parsing one or more field declarations separated by commas at `i`.
pub open spec fn variant_field_items_at(ts: Seq<Token>, i: int) -> Result<(Seq<FieldDeclV>, int), Seq<char>>
    decreases ts.len() - i,
{
    match field_decl_at(ts, i) {
        Err(m) => Err(m),
        Ok((f, k)) => if !(i < k <= ts.len()) {
            Err(Seq::empty())
        } else if tok(ts, k) == Some(TokenTypeV::Plain(TokenType::Comma)) {
            prepend(seq![f], variant_field_items_at(ts, k + 1))
        } else {
            Ok((seq![f], k))
        },
    }
}

/// Parsing the fields of a struct-like variant at `i` (after its `{`), up
/// to and including the `}`: none when it comes first.
pub open spec fn variant_fields_at(ts: Seq<Token>, i: int) -> Result<(Seq<FieldDeclV>, int), Seq<char>> {
    if tok(ts, i) == Some(TokenTypeV::Plain(TokenType::RBrace)) {
        Ok((Seq::empty(), i + 1))
    } else {
        match variant_field_items_at(ts, i) {
            Err(m) => Err(m),
            Ok((fs, k)) => match expect(ts, k, TokenType::RBrace) {
                Ok(k2) => Ok((fs, k2)),
                Err(m) => Err(m),
            },
        }
    }
}

/// Parsing an enum variant at `i`: a name, then types in parentheses,
/// fields in braces, or nothing.
pub open spec fn variant_at(ts: Seq<Token>, i: int) -> Result<(VariantV, int), Seq<char>> {
    match identifier(ts, i) {
        Err(m) => Err(m),
        Ok(name) => {
            let k = i + 1;
            if tok(ts, k) == Some(TokenTypeV::Plain(TokenType::LParen)) {
                match annotation_list_at(ts, k + 1, TokenType::RParen) {
                    Ok((fs, k2)) => Ok((VariantV::Tuple { name, fields: fs }, k2)),
                    Err(m) => Err(m),
                }
            } else if tok(ts, k) == Some(TokenTypeV::Plain(TokenType::LBrace)) {
                match variant_fields_at(ts, k + 1) {
                    Ok((fs, k2)) => Ok((VariantV::Struct { name, fields: fs }, k2)),
                    Err(m) => Err(m),
                }
            } else {
                Ok((VariantV::Tuple { name, fields: Seq::empty() }, k))
            }
        },
    }
}

/// Parsing the variants of an enum at `i`, until `end` or the end of the
/// tokens.
pub open spec fn variants_at(ts: Seq<Token>, i: int) -> Result<(Seq<VariantV>, int), Seq<char>>
    decreases ts.len() - i,
{
    if tok(ts, i) == Some(TokenTypeV::Plain(TokenType::End)) || !(0 <= i < ts.len()) {
        Ok((Seq::empty(), i))
    } else {
        match variant_at(ts, i) {
            Err(m) => Err(m),
            Ok((v, k)) => if !(i < k <= ts.len()) {
                Err(Seq::empty())
            } else {
                prepend(seq![v], variants_at(ts, k))
            },
        }
    }
}

/// Parsing an enum at `i`, after its `enum`: name, generic parameters and
/// variants up to `end`.
pub open spec fn enum_at(ts: Seq<Token>, i: int) -> Result<(ItemV, int), Seq<char>> {
    match identifier(ts, i) {
        Err(m) => Err(m),
        Ok(name) => match generics_opt_at(ts, i + 1) {
            Err(m) => Err(m),
            Ok((gs, k)) => match variants_at(ts, k) {
                Err(m) => Err(m),
                Ok((vs, k2)) => match expect(ts, k2, TokenType::End) {
                    Ok(k3) => Ok((ItemV::Enum { name, generics: gs, variants: vs }, k3)),
                    Err(m) => Err(m),
                },
            },
        },
    }
}

/// Parsing a parameter of a method signature at `i`: `self` or
/// `name: type`.
pub open spec fn method_param_at(ts: Seq<Token>, i: int) -> Result<(MethodParamV, int), Seq<char>> {
    if tok(ts, i) == Some(TokenTypeV::Plain(TokenType::SelfKeyword)) {
        Ok((MethodParamV::SelfParam, i + 1))
    } else {
        match fn_param_at(ts, i) {
            Ok(((name, a), k)) => Ok((MethodParamV::Typed(name, a), k)),
            Err(m) => Err(m),
        }
    }
}

/// Parsing one or more method parameters separated by commas at `i`.
pub open spec fn method_param_items_at(ts: Seq<Token>, i: int) -> Result<(Seq<MethodParamV>, int), Seq<char>>
    decreases ts.len() - i,
{
    match method_param_at(ts, i) {
        Err(m) => Err(m),
        Ok((p, k)) => if !(i < k <= ts.len()) {
            Err(Seq::empty())
        } else if tok(ts, k) == Some(TokenTypeV::Plain(TokenType::Comma)) {
            prepend(seq![p], method_param_items_at(ts, k + 1))
        } else {
            Ok((seq![p], k))
        },
    }
}

/// Parsing the parameters of a method signature at `i` (after the `(`),
/// up to and including the `)`: none when it comes first.
pub open spec fn method_params_at(ts: Seq<Token>, i: int) -> Result<(Seq<MethodParamV>, int), Seq<char>> {
    if tok(ts, i) == Some(TokenTypeV::Plain(TokenType::RParen)) {
        Ok((Seq::empty(), i + 1))
    } else {
        match method_param_items_at(ts, i) {
            Err(m) => Err(m),
            Ok((ps, k)) => match expect(ts, k, TokenType::RParen) {
                Ok(k2) => Ok((ps, k2)),
                Err(m) => Err(m),
            },
        }
    }
}

/// Parsing a method signature at `i`: `fn`, name, generic parameters,
/// parameters and return type.
pub open spec fn method_at(ts: Seq<Token>, i: int) -> Result<(MethodV, int), Seq<char>> {
    match expect(ts, i, TokenType::Fn) {
        Err(m) => Err(m),
        Ok(j) => match identifier(ts, j) {
            Err(m) => Err(m),
            Ok(name) => match generics_opt_at(ts, j + 1) {
                Err(m) => Err(m),
                Ok((gs, k)) => match expect(ts, k, TokenType::LParen) {
                    Err(m) => Err(m),
                    Ok(k2) => match method_params_at(ts, k2) {
                        Err(m) => Err(m),
                        Ok((ps, k3)) => match return_opt_at(ts, k3) {
                            Ok((rt, k4)) => Ok((MethodV { name, args: ps, return_type: rt, generics: gs }, k4)),
                            Err(m) => Err(m),
                        },
                    },
                },
            },
        },
    }
}

/// Parsing the method signatures of a trait at `i`, until `end` or the end
/// of the tokens.
pub open spec fn methods_at(ts: Seq<Token>, i: int) -> Result<(Seq<MethodV>, int), Seq<char>>
    decreases ts.len() - i,
{
    if tok(ts, i) == Some(TokenTypeV::Plain(TokenType::End)) || !(0 <= i < ts.len()) {
        Ok((Seq::empty(), i))
    } else {
        match method_at(ts, i) {
            Err(m) => Err(m),
            Ok((mv, k)) => if !(i < k <= ts.len()) {
                Err(Seq::empty())
            } else {
                prepend(seq![mv], methods_at(ts, k))
            },
        }
    }
}

/// Parsing a trait at `i`, after its `trait`: name, generic parameters and
/// method signatures up to `end`.
pub open spec fn trait_at(ts: Seq<Token>, i: int) -> Result<(ItemV, int), Seq<char>> {
    match identifier(ts, i) {
        Err(m) => Err(m),
        Ok(name) => match generics_opt_at(ts, i + 1) {
            Err(m) => Err(m),
            Ok((gs, k)) => match methods_at(ts, k) {
                Err(m) => Err(m),
                Ok((ms, k2)) => match expect(ts, k2, TokenType::End) {
                    Ok(k3) => Ok((ItemV::Trait { name, generics: gs, methods: ms }, k3)),
                    Err(m) => Err(m),
                },
            },
        },
    }
}

/// Parsing the methods of an impl at `i`: functions, each with its
/// attributes, until `end` or the end of the tokens.
pub open spec fn impl_methods_at(ts: Seq<Token>, i: int) -> Result<(Seq<NodeV>, int), Seq<char>>
    decreases ts.len() - i,
{
    if tok(ts, i) == Some(TokenTypeV::Plain(TokenType::End)) || !(0 <= i < ts.len()) {
        Ok((Seq::empty(), i))
    } else {
        match attributes_at(ts, i) {
            Err(m) => Err(m),
            Ok((attrs, j)) => match function_at(ts, j) {
                Err(m) => Err(m),
                Ok((f, k)) => if !(i < k <= ts.len()) {
                    Err(Seq::empty())
                } else {
                    prepend(seq![NodeV { attributes: attrs, item: f }], impl_methods_at(ts, k))
                },
            },
        }
    }
}

/// Parsing an impl at `i`, after its `impl`: an optional trait name, `for`
/// and the type, then methods up to `end`.
pub open spec fn impl_at(ts: Seq<Token>, i: int) -> Result<(ItemV, int), Seq<char>> {
    let (trait_name, k) = match tok(ts, i) {
        Some(TokenTypeV::Identifier(n)) => (Some(n), i + 1),
        _ => (None, i),
    };
    if tok(ts, k) == Some(TokenTypeV::Plain(TokenType::For)) {
        match annotation_at(ts, k + 1) {
            Err(m) => Err(m),
            Ok((ty, k2)) => match impl_methods_at(ts, k2) {
                Err(m) => Err(m),
                Ok((ms, k3)) => match expect(ts, k3, TokenType::End) {
                    Ok(k4) => Ok((ItemV::Impl { trait_name, for_type: ty, methods: ms }, k4)),
                    Err(m) => Err(m),
                },
            },
        }
    } else if trait_name is Some {
        Err("Expected 'for' after trait name in impl"@)
    } else {
        Err("Expected trait name or type in impl"@)
    }
}

/// Parsing a constant at `i`, after its `const`: name, optional `: type`
/// and `= value`.
pub open spec fn const_at(ts: Seq<Token>, i: int) -> Result<(ItemV, int), Seq<char>> {
    match identifier(ts, i) {
        Err(m) => Err(m),
        Ok(name) => {
            let k = i + 1;
            let ann: Result<(Option<AnnotationV>, int), Seq<char>> = if tok(ts, k) == Some(
                TokenTypeV::Plain(TokenType::Colon),
            ) {
                match annotation_at(ts, k + 1) {
                    Ok((a, k2)) => Ok((Some(a), k2)),
                    Err(m) => Err(m),
                }
            } else {
                Ok((None, k))
            };
            match ann {
                Err(m) => Err(m),
                Ok((a, k2)) => match expect(ts, k2, TokenType::Assign) {
                    Err(m) => Err(m),
                    Ok(k3) => match expression_at(ts, k3) {
                        Ok((v, k4)) => Ok((ItemV::Const { name, annotation: a, value: v }, k4)),
                        Err(m) => Err(m),
                    },
                },
            }
        },
    }
}

/// Parsing an extern function at `i`, after its `extern`: `fn`, name,
/// parameters and optional return type.
pub open spec fn extern_at(ts: Seq<Token>, i: int) -> Result<(ItemV, int), Seq<char>> {
    match expect(ts, i, TokenType::Fn) {
        Err(m) => Err(m),
        Ok(j) => match identifier(ts, j) {
            Err(m) => Err(m),
            Ok(name) => match expect(ts, j + 1, TokenType::LParen) {
                Err(m) => Err(m),
                Ok(k) => match fn_params_at(ts, k) {
                    Err(m) => Err(m),
                    Ok((ps, k2)) => match return_opt_at(ts, k2) {
                        Ok((rt, k3)) => Ok((ItemV::Extern { name, args: ps, return_type: rt }, k3)),
                        Err(m) => Err(m),
                    },
                },
            },
        },
    }
}

/// Parsing one or more imported names at `i`: `name` or `name as alias`,
/// separated by commas.
pub open spec fn import_items_at(ts: Seq<Token>, i: int) -> Result<(Seq<(Seq<char>, Option<Seq<char>>)>, int), Seq<char>>
    decreases ts.len() - i,
{
    match identifier(ts, i) {
        Err(m) => Err(m),
        Ok(name) => {
            let k = i + 1;
            let alias: Result<(Option<Seq<char>>, int), Seq<char>> = if tok(ts, k) == Some(
                TokenTypeV::Plain(TokenType::As),
            ) {
                match identifier(ts, k + 1) {
                    Ok(a) => Ok((Some(a), k + 2)),
                    Err(m) => Err(m),
                }
            } else {
                Ok((None, k))
            };
            match alias {
                Err(m) => Err(m),
                Ok((a, k2)) => if tok(ts, k2) == Some(TokenTypeV::Plain(TokenType::Comma)) {
                    prepend(seq![(name, a)], import_items_at(ts, k2 + 1))
                } else {
                    Ok((seq![(name, a)], k2))
                },
            }
        },
    }
}

/// Parsing an import at `i`, after its `import`: a path string, then
/// optionally `.{names}`.
pub open spec fn import_at(ts: Seq<Token>, i: int) -> Result<(ItemV, int), Seq<char>> {
    match tok(ts, i) {
        None => Err("Unexpected end of input"@),
        Some(TokenTypeV::Str(path)) => {
            let k = i + 1;
            if tok(ts, k) == Some(TokenTypeV::Plain(TokenType::Dot)) {
                match expect(ts, k + 1, TokenType::LBrace) {
                    Err(m) => Err(m),
                    Ok(k2) => {
                        let items: Result<(Seq<(Seq<char>, Option<Seq<char>>)>, int), Seq<char>> = if tok(ts, k2)
                            == Some(TokenTypeV::Plain(TokenType::RBrace)) {
                            Ok((Seq::empty(), k2))
                        } else {
                            import_items_at(ts, k2)
                        };
                        match items {
                            Err(m) => Err(m),
                            Ok((its, k3)) => match expect(ts, k3, TokenType::RBrace) {
                                Ok(k4) => Ok((ItemV::Import { path, items: its }, k4)),
                                Err(m) => Err(m),
                            },
                        }
                    },
                }
            } else {
                Ok((ItemV::Import { path, items: Seq::empty() }, k))
            }
        },
        Some(other) => Err("Expected string literal for import path, found "@ + token_text(other)),
    }
}

/// Parsing a declaration at `i`: its keyword, then what follows it.
pub open spec fn declaration_at(ts: Seq<Token>, i: int) -> Result<(ItemV, int), Seq<char>> {
    match tok(ts, i) {
        None => Err("Expected a top-level declaration"@),
        Some(TokenTypeV::Plain(TokenType::Fn)) => function_at(ts, i + 1),
        Some(TokenTypeV::Plain(TokenType::Struct)) => struct_at(ts, i + 1),
        Some(TokenTypeV::Plain(TokenType::Enum)) => enum_at(ts, i + 1),
        Some(TokenTypeV::Plain(TokenType::Trait)) => trait_at(ts, i + 1),
        Some(TokenTypeV::Plain(TokenType::Impl)) => impl_at(ts, i + 1),
        Some(TokenTypeV::Plain(TokenType::Const)) => const_at(ts, i + 1),
        Some(TokenTypeV::Plain(TokenType::Extern)) => extern_at(ts, i + 1),
        Some(TokenTypeV::Plain(TokenType::Import)) => import_at(ts, i + 1),
        Some(other) => Err("Expected top-level declaration, found "@ + token_text(other)),
    }
}

/// Parsing a program from `i`: declarations, each with its attributes,
/// until the end of the tokens.
pub open spec fn program_at(ts: Seq<Token>, i: int) -> Result<(Seq<NodeV>, int), Seq<char>>
    decreases ts.len() - i,
{
    if !(0 <= i < ts.len()) {
        Ok((Seq::empty(), i))
    } else {
        match attributes_at(ts, i) {
            Err(m) => Err(m),
            Ok((attrs, j)) => match declaration_at(ts, j) {
                Err(m) => Err(m),
                Ok((d, k)) => if !(i < k <= ts.len()) {
                    Err(Seq::empty())
                } else {
                    prepend(seq![NodeV { attributes: attrs, item: d }], program_at(ts, k))
                },
            },
        }
    }
}

/// The values of nodes with one more at the end.
pub proof fn lemma_nodes_view_push(ns: Seq<AstNode>, n: AstNode)
    ensures
        nodes_view(ns.push(n)) == nodes_view(ns) + seq![node_view(n)],
{
    assert(ns.push(n).drop_last() =~= ns);
    assert(nodes_view(ns).push(node_view(n)) =~= nodes_view(ns) + seq![node_view(n)]);
}

} // verus!
