//! When a typed tree has the shape of the tree it was checked from: the same
//! forms, names, operators and literals in the same places, whatever the
//! types and source positions.
use vstd::prelude::*;
use crate::ast;
use crate::typed_ast;

verus! {

/// Two optional names agree.
pub open spec fn same_opt_name(a: Option<String>, b: Option<String>) -> bool {
    match (a, b) {
        (Some(x), Some(y)) => x@ == y@,
        (None, None) => true,
        _ => false,
    }
}

/// A typed annotation has the shape of an annotation.
pub open spec fn same_annotation(a: ast::TypeAnnotation, t: typed_ast::TypeAnnotation) -> bool
    decreases a,
{
    match (a.kind, t.kind) {
        (
            ast::TypeAnnotationKind::Constructor { name, generic_args },
            typed_ast::TypeAnnotationKind::Constructor { name: n2, generic_args: g2 },
        ) => name@ == n2@ && same_annotations(generic_args@, g2@),
        (ast::TypeAnnotationKind::Tuple(x), typed_ast::TypeAnnotationKind::Tuple(y)) => same_annotations(x@, y@),
        (
            ast::TypeAnnotationKind::Function { args, return_type },
            typed_ast::TypeAnnotationKind::Function { args: a2, return_type: r2 },
        ) => same_annotations(args@, a2@) && same_annotation(*return_type, *r2),
        (
            ast::TypeAnnotationKind::Array { element_type, size },
            typed_ast::TypeAnnotationKind::Array { element_type: e2, size: s2 },
        ) => size == s2 && same_annotation(*element_type, *e2),
        (ast::TypeAnnotationKind::Row(f), typed_ast::TypeAnnotationKind::Row(g)) => same_row_type_fields(f@, g@),
        _ => false,
    }
}

/// Typed annotations have the shapes of annotations, one by one.
pub open spec fn same_annotations(a: Seq<ast::TypeAnnotation>, t: Seq<typed_ast::TypeAnnotation>) -> bool
    decreases a,
{
    a.len() == t.len() && forall|i: int| 0 <= i < a.len() ==> same_annotation(a[i], #[trigger] t[i])
}

/// Typed row type fields have the names and shapes of row type fields.
pub open spec fn same_row_type_fields(a: Seq<ast::RowTypeField>, t: Seq<typed_ast::RowTypeField>) -> bool
    decreases a,
{
    a.len() == t.len() && forall|i: int|
        0 <= i < a.len() ==> a[i].name@ == (#[trigger] t[i]).name@ && same_annotation(
            a[i].type_annotation,
            t[i].type_annotation,
        )
}

/// An optional typed annotation has the shape of an optional annotation.
pub open spec fn same_opt_annotation(a: Option<ast::TypeAnnotation>, t: Option<typed_ast::TypeAnnotation>) -> bool {
    match (a, t) {
        (Some(x), Some(y)) => same_annotation(x, y),
        (None, None) => true,
        _ => false,
    }
}

/// A typed generic parameter has the name and constraints of a generic parameter.
pub open spec fn same_generic_param(a: ast::GenericParam, t: typed_ast::GenericParam) -> bool {
    a.name@ == t.name@ && same_annotations(a.constraints@, t.constraints@)
}

/// Typed generic parameters mirror generic parameters, one by one.
pub open spec fn same_generic_params(a: Seq<ast::GenericParam>, t: Seq<typed_ast::GenericParam>) -> bool {
    a.len() == t.len() && forall|i: int| 0 <= i < a.len() ==> same_generic_param(a[i], #[trigger] t[i])
}

/// A typed literal is the literal.
pub open spec fn same_literal(a: ast::Literal, t: typed_ast::TypedLiteral) -> bool {
    match (a, t) {
        (ast::Literal::Integer(x), typed_ast::TypedLiteral::Integer(y)) => x == y,
        (ast::Literal::Float(x), typed_ast::TypedLiteral::Float(y)) => x@ == y@,
        (ast::Literal::String(x), typed_ast::TypedLiteral::String(y)) => x@ == y@,
        (ast::Literal::Boolean(x), typed_ast::TypedLiteral::Boolean(y)) => x == y,
        _ => false,
    }
}

/// A typed pattern has the shape of a pattern.
pub open spec fn same_pattern(a: ast::Pattern, t: typed_ast::TypedPattern) -> bool
    decreases a,
{
    match (a, t) {
        (ast::Pattern::Literal(x), typed_ast::TypedPattern::Literal(y)) => same_literal(x, y),
        (ast::Pattern::Variable(x), typed_ast::TypedPattern::Variable(y)) => x@ == y@,
        (ast::Pattern::Wildcard, typed_ast::TypedPattern::Wildcard) => true,
        (ast::Pattern::Tuple(x), typed_ast::TypedPattern::Tuple(y)) => same_patterns(x@, y@),
        (
            ast::Pattern::Struct { name, fields },
            typed_ast::TypedPattern::Struct { name: n2, fields: f2 },
        ) => name@ == n2@ && same_pattern_fields(fields@, f2@),
        (
            ast::Pattern::EnumVariant { name, fields },
            typed_ast::TypedPattern::EnumVariant { name: n2, fields: f2 },
        ) => name@ == n2@ && same_patterns(fields@, f2@),
        (ast::Pattern::Or(x), typed_ast::TypedPattern::Or(y)) => same_patterns(x@, y@),
        _ => false,
    }
}

/// Typed patterns have the shapes of patterns, one by one.
pub open spec fn same_patterns(a: Seq<ast::Pattern>, t: Seq<typed_ast::TypedPattern>) -> bool
    decreases a,
{
    a.len() == t.len() && forall|i: int| 0 <= i < a.len() ==> same_pattern(a[i], #[trigger] t[i])
}

/// Typed fields of a struct pattern mirror the fields, one by one.
pub open spec fn same_pattern_fields(
    a: Seq<ast::StructPatternField>,
    t: Seq<typed_ast::TypedStructPatternField>,
) -> bool
    decreases a,
{
    a.len() == t.len() && forall|i: int| 0 <= i < a.len() ==> same_pattern_field(a[i], #[trigger] t[i])
}

/// A typed field of a struct pattern mirrors the field.
pub open spec fn same_pattern_field(a: ast::StructPatternField, t: typed_ast::TypedStructPatternField) -> bool
    decreases a,
{
    match (a, t) {
        (ast::StructPatternField::Shorthand(x), typed_ast::TypedStructPatternField::Shorthand(y)) => x@ == y@,
        (
            ast::StructPatternField::Typed { name, pattern },
            typed_ast::TypedStructPatternField::Typed { name: n2, pattern: p2 },
        ) => name@ == n2@ && same_pattern(pattern, p2),
        _ => false,
    }
}

/// A typed parameter has the name and annotation of a parameter.
pub open spec fn same_param(a: ast::FunctionParam, t: typed_ast::TypedFunctionParam) -> bool {
    a.name@ == t.name@ && same_annotation(a.type_annotation, t.type_annotation)
}

/// Typed parameters mirror parameters, one by one.
pub open spec fn same_params(a: Seq<ast::FunctionParam>, t: Seq<typed_ast::TypedFunctionParam>) -> bool {
    a.len() == t.len() && forall|i: int| 0 <= i < a.len() ==> same_param(a[i], #[trigger] t[i])
}

/// A typed expression has the shape of an expression.
pub open spec fn expr_mirrors(e: ast::Expr, t: typed_ast::TypedExpr) -> bool
    decreases e,
{
    match (e.kind, t.kind) {
        (ast::ExprKind::Literal(x), typed_ast::TypedExprKind::Literal(y)) => same_literal(x, y),
        (ast::ExprKind::Array(x), typed_ast::TypedExprKind::Array(y)) => array_mirrors(x@, y@),
        (ast::ExprKind::Tuple(x), typed_ast::TypedExprKind::Tuple(y)) => exprs_mirror(x@, y@),
        (ast::ExprKind::Row(x), typed_ast::TypedExprKind::Row(y)) => row_mirrors(x@, y@),
        (ast::ExprKind::Variable(x), typed_ast::TypedExprKind::Variable(y)) => x@ == y@,
        (
            ast::ExprKind::Let { name, type_annotation, value },
            typed_ast::TypedExprKind::Let { name: n2, type_annotation: a2, value: v2 },
        ) => name@ == n2@ && same_opt_annotation(type_annotation, a2) && expr_mirrors(*value, *v2),
        (
            ast::ExprKind::Assign { target, value },
            typed_ast::TypedExprKind::Assign { target: t2, value: v2 },
        ) => expr_mirrors(*target, *t2) && expr_mirrors(*value, *v2),
        (
            ast::ExprKind::UnaryOp { operator, operand },
            typed_ast::TypedExprKind::UnaryOp { operator: o2, operand: x2 },
        ) => operator@ == o2@ && expr_mirrors(*operand, *x2),
        (
            ast::ExprKind::BinaryOp { left, operator, right },
            typed_ast::TypedExprKind::BinaryOp { left: l2, operator: o2, right: r2 },
        ) => operator@ == o2@ && expr_mirrors(*left, *l2) && expr_mirrors(*right, *r2),
        (ast::ExprKind::Cast(x, ta), typed_ast::TypedExprKind::Cast(y, tb)) => expr_mirrors(*x, *y)
            && same_annotation(ta, tb),
        (ast::ExprKind::EarlyReturn(x), typed_ast::TypedExprKind::EarlyReturn(y)) => expr_mirrors(*x, *y),
        (
            ast::ExprKind::DotAccess { value, field },
            typed_ast::TypedExprKind::DotAccess { value: v2, field: f2 },
        ) => field@ == f2@ && expr_mirrors(*value, *v2),
        (
            ast::ExprKind::Index { value, index },
            typed_ast::TypedExprKind::Index { value: v2, index: i2 },
        ) => expr_mirrors(*value, *v2) && expr_mirrors(*index, *i2),
        (
            ast::ExprKind::FunctionCall { function, args },
            typed_ast::TypedExprKind::FunctionCall { function: f2, args: a2 },
        ) => expr_mirrors(*function, *f2) && exprs_mirror(args@, a2@),
        (
            ast::ExprKind::If { condition, then_branch, else_branch },
            typed_ast::TypedExprKind::If { condition: c2, then_branch: t2, else_branch: e2 },
        ) => expr_mirrors(*condition, *c2) && exprs_mirror(then_branch@, t2@) && match (
            else_branch,
            e2,
        ) {
            (Some(x), Some(y)) => exprs_mirror(x@, y@),
            (None, None) => true,
            _ => false,
        },
        (
            ast::ExprKind::While { condition, body },
            typed_ast::TypedExprKind::While { condition: c2, body: b2 },
        ) => expr_mirrors(*condition, *c2) && exprs_mirror(body@, b2@),
        (
            ast::ExprKind::For { iterator, iterable, body },
            typed_ast::TypedExprKind::For { iterator: i2, iterable: x2, body: b2 },
        ) => iterator@ == i2@ && expr_mirrors(*iterable, *x2) && exprs_mirror(body@, b2@),
        (
            ast::ExprKind::Range { start, end, inclusive },
            typed_ast::TypedExprKind::Range { start: s2, end: e2, inclusive: i2 },
        ) => inclusive == i2 && expr_mirrors(*start, *s2) && expr_mirrors(*end, *e2),
        (ast::ExprKind::Break, typed_ast::TypedExprKind::Break) => true,
        (ast::ExprKind::Continue, typed_ast::TypedExprKind::Continue) => true,
        (ast::ExprKind::Return(x), typed_ast::TypedExprKind::Return(y)) => match (x, y) {
            (Some(a), Some(b)) => expr_mirrors(*a, *b),
            (None, None) => true,
            _ => false,
        },
        (
            ast::ExprKind::Block { expressions },
            typed_ast::TypedExprKind::Block { expressions: x2 },
        ) => exprs_mirror(expressions@, x2@),
        (ast::ExprKind::Do(x), typed_ast::TypedExprKind::Do(y)) => exprs_mirror(x@, y@),
        (
            ast::ExprKind::Lambda { params, return_type, body },
            typed_ast::TypedExprKind::Lambda { params: p2, return_type: r2, body: b2 },
        ) => same_params(params@, p2@) && same_opt_annotation(return_type, r2) && expr_mirrors(
            *body,
            *b2,
        ),
        (
            ast::ExprKind::Match { value, arms },
            typed_ast::TypedExprKind::Match { value: v2, arms: a2 },
        ) => expr_mirrors(*value, *v2) && arms_mirror(arms@, a2@),
        (
            ast::ExprKind::StructInit { name, fields },
            typed_ast::TypedExprKind::StructInit { name: n2, fields: f2 },
        ) => name@ == n2@ && init_fields_mirror(fields@, f2@),
        (
            ast::ExprKind::EnumInit { enum_name, variant_name, fields },
            typed_ast::TypedExprKind::EnumInit { enum_name: e2, variant_name: v2, fields: f2 },
        ) => enum_name@ == e2@ && variant_name@ == v2@ && match (fields, f2) {
            (ast::EnumInitFields::Tuple(x), typed_ast::TypedEnumInitFields::Tuple(y)) => exprs_mirror(
                x@,
                y@,
            ),
            (ast::EnumInitFields::Struct(x), typed_ast::TypedEnumInitFields::Struct(y)) => init_fields_mirror(
                x@,
                y@,
            ),
            _ => false,
        },
        _ => false,
    }
}

/// Typed expressions mirror expressions, one by one.
pub open spec fn exprs_mirror(a: Seq<ast::Expr>, t: Seq<typed_ast::TypedExpr>) -> bool
    decreases a,
{
    a.len() == t.len() && forall|i: int| 0 <= i < a.len() ==> expr_mirrors(a[i], #[trigger] t[i])
}

/// Typed array elements mirror array elements, one by one.
pub open spec fn array_mirrors(a: Seq<ast::ArrayElement>, t: Seq<typed_ast::TypedArrayElement>) -> bool
    decreases a,
{
    a.len() == t.len() && forall|i: int| 0 <= i < a.len() ==> array_element_mirrors(a[i], #[trigger] t[i])
}

/// A typed array element mirrors an array element.
pub open spec fn array_element_mirrors(a: ast::ArrayElement, t: typed_ast::TypedArrayElement) -> bool
    decreases a,
{
    match (a, t) {
        (ast::ArrayElement::Value(x), typed_ast::TypedArrayElement::Value(y)) => expr_mirrors(x, y),
        (ast::ArrayElement::Spread(x), typed_ast::TypedArrayElement::Spread(y)) => expr_mirrors(x, y),
        _ => false,
    }
}

/// Typed row fields mirror row fields, one by one.
pub open spec fn row_mirrors(a: Seq<ast::RowField>, t: Seq<typed_ast::TypedRowField>) -> bool
    decreases a,
{
    a.len() == t.len() && forall|i: int| 0 <= i < a.len() ==> row_field_mirrors(a[i], #[trigger] t[i])
}

/// A typed row field mirrors a row field.
pub open spec fn row_field_mirrors(a: ast::RowField, t: typed_ast::TypedRowField) -> bool
    decreases a,
{
    match (a, t) {
        (ast::RowField::Field { name, value }, typed_ast::TypedRowField::Field { name: n2, value: v2 }) => name@
            == n2@ && expr_mirrors(value, v2),
        (ast::RowField::Spread(x), typed_ast::TypedRowField::Spread(y)) => expr_mirrors(x, y),
        _ => false,
    }
}

/// Typed fields of a struct literal mirror its fields, one by one.
pub open spec fn init_fields_mirror(
    a: Seq<ast::StructInitField>,
    t: Seq<typed_ast::TypedStructInitField>,
) -> bool
    decreases a,
{
    a.len() == t.len() && forall|i: int| 0 <= i < a.len() ==> init_field_mirrors(a[i], #[trigger] t[i])
}

/// A typed field of a struct literal mirrors the field.
pub open spec fn init_field_mirrors(a: ast::StructInitField, t: typed_ast::TypedStructInitField) -> bool
    decreases a,
{
    match (a, t) {
        (
            ast::StructInitField::Field { name, value },
            typed_ast::TypedStructInitField::Field { name: n2, value: v2 },
        ) => name@ == n2@ && expr_mirrors(value, v2),
        (ast::StructInitField::Spread(x), typed_ast::TypedStructInitField::Spread(y)) => expr_mirrors(x, y),
        _ => false,
    }
}

/// Typed match arms mirror match arms, one by one.
pub open spec fn arms_mirror(a: Seq<ast::MatchArm>, t: Seq<typed_ast::TypedMatchArm>) -> bool
    decreases a,
{
    a.len() == t.len() && forall|i: int| 0 <= i < a.len() ==> arm_mirrors(a[i], #[trigger] t[i])
}

/// A typed match arm has the pattern, guard and body of a match arm.
pub open spec fn arm_mirrors(a: ast::MatchArm, t: typed_ast::TypedMatchArm) -> bool
    decreases a,
{
    &&& same_pattern(a.pattern, t.pattern)
    &&& match (a.guard, t.guard) {
        (Some(x), Some(y)) => expr_mirrors(*x, *y),
        (None, None) => true,
        _ => false,
    }
    &&& exprs_mirror(a.body@, t.body@)
}

/// A typed struct field has the name and annotation of a struct field.
pub open spec fn same_struct_field(a: ast::StructField, t: typed_ast::TypedStructField) -> bool {
    a.name@ == t.name@ && same_annotation(a.type_annotation, t.type_annotation)
}

/// Typed struct fields mirror struct fields, one by one.
pub open spec fn same_struct_fields(a: Seq<ast::StructField>, t: Seq<typed_ast::TypedStructField>) -> bool {
    a.len() == t.len() && forall|i: int| 0 <= i < a.len() ==> same_struct_field(a[i], #[trigger] t[i])
}

/// A typed enum variant has the name and fields of an enum variant.
pub open spec fn same_variant(a: ast::EnumVariant, t: typed_ast::TypedEnumVariant) -> bool {
    match (a, t) {
        (
            ast::EnumVariant::Tuple { name, fields, .. },
            typed_ast::TypedEnumVariant::Tuple { name: n2, fields: f2, .. },
        ) => name@ == n2@ && same_annotations(fields@, f2@),
        (
            ast::EnumVariant::Struct { name, fields, .. },
            typed_ast::TypedEnumVariant::Struct { name: n2, fields: f2, .. },
        ) => name@ == n2@ && same_struct_fields(fields@, f2@),
        _ => false,
    }
}

/// Typed enum variants mirror enum variants, one by one.
pub open spec fn same_variants(a: Seq<ast::EnumVariant>, t: Seq<typed_ast::TypedEnumVariant>) -> bool {
    a.len() == t.len() && forall|i: int| 0 <= i < a.len() ==> same_variant(a[i], #[trigger] t[i])
}

/// A typed method parameter mirrors a method parameter.
pub open spec fn same_method_param(a: ast::MethodParam, t: typed_ast::TypedMethodParam) -> bool {
    match (a, t) {
        (ast::MethodParam::SelfParam, typed_ast::TypedMethodParam::SelfParam { .. }) => true,
        (
            ast::MethodParam::TypedParam { name, type_annotation },
            typed_ast::TypedMethodParam::TypedParam { name: n2, type_annotation: a2, .. },
        ) => name@ == n2@ && same_annotation(type_annotation, a2),
        _ => false,
    }
}

/// A typed method signature mirrors a method signature.
pub open spec fn same_method(a: ast::MethodSignature, t: typed_ast::TypedMethodSignature) -> bool {
    &&& a.name@ == t.name@
    &&& a.args@.len() == t.args@.len()
    &&& forall|i: int| 0 <= i < a.args@.len() ==> same_method_param(a.args@[i], #[trigger] t.args@[i])
    &&& same_opt_annotation(a.return_type, t.return_type)
    &&& same_generic_params(a.generic_params@, t.generic_params@)
}

/// Typed method signatures mirror method signatures, one by one.
pub open spec fn same_methods(a: Seq<ast::MethodSignature>, t: Seq<typed_ast::TypedMethodSignature>) -> bool {
    a.len() == t.len() && forall|i: int| 0 <= i < a.len() ==> same_method(a[i], #[trigger] t[i])
}

/// Typed import items are the import items.
pub open spec fn same_imports(a: Seq<ast::ImportItem>, t: Seq<typed_ast::ImportItem>) -> bool {
    a.len() == t.len() && forall|i: int|
        0 <= i < a.len() ==> a[i].name@ == (#[trigger] t[i]).name@ && same_opt_name(
            a[i].alias,
            t[i].alias,
        )
}

/// A typed declaration has the shape of a declaration.
pub open spec fn node_mirrors(n: ast::AstNode, t: typed_ast::TypedAstNode) -> bool
    decreases n,
{
    kind_mirrors(n.kind, t.kind)
}

/// The form of a typed declaration has the shape of the form of a
/// declaration.
pub open spec fn kind_mirrors(k: ast::AstNodeKind, tk: typed_ast::TypedAstNodeKind) -> bool
    decreases k,
{
    match (k, tk) {
        (
            ast::AstNodeKind::Function { name, args, return_type, generic_params, body },
            typed_ast::TypedAstNodeKind::Function {
                name: n2,
                args: a2,
                return_type: r2,
                generic_params: g2,
                body: b2,
            },
        ) => name@ == n2@ && same_params(args@, a2@) && same_opt_annotation(return_type, r2)
            && same_generic_params(generic_params@, g2@) && exprs_mirror(body@, b2@),
        (
            ast::AstNodeKind::Struct { name, generic_params, fields },
            typed_ast::TypedAstNodeKind::Struct { name: n2, generic_params: g2, fields: f2 },
        ) => name@ == n2@ && same_generic_params(generic_params@, g2@) && same_struct_fields(
            fields@,
            f2@,
        ),
        (
            ast::AstNodeKind::Enum { name, generic_params, variants },
            typed_ast::TypedAstNodeKind::Enum { name: n2, generic_params: g2, variants: v2 },
        ) => name@ == n2@ && same_generic_params(generic_params@, g2@) && same_variants(
            variants@,
            v2@,
        ),
        (
            ast::AstNodeKind::Trait { name, generic_params, methods },
            typed_ast::TypedAstNodeKind::Trait { name: n2, generic_params: g2, methods: m2 },
        ) => name@ == n2@ && same_generic_params(generic_params@, g2@) && same_methods(
            methods@,
            m2@,
        ),
        (
            ast::AstNodeKind::Impl { trait_name, for_type, methods },
            typed_ast::TypedAstNodeKind::Impl { trait_name: t2, for_type: f2, methods: m2 },
        ) => same_opt_name(trait_name, t2) && same_annotation(for_type, f2) && nodes_mirror(
            methods@,
            m2@,
        ),
        (
            ast::AstNodeKind::Extern { name, args, return_type },
            typed_ast::TypedAstNodeKind::Extern { name: n2, args: a2, return_type: r2 },
        ) => name@ == n2@ && same_params(args@, a2@) && same_opt_annotation(return_type, r2),
        (
            ast::AstNodeKind::Const { name, type_annotation, value },
            typed_ast::TypedAstNodeKind::Const { name: n2, type_annotation: a2, value: v2 },
        ) => name@ == n2@ && same_opt_annotation(type_annotation, a2) && expr_mirrors(value, v2),
        (
            ast::AstNodeKind::Import { path, items },
            typed_ast::TypedAstNodeKind::Import { path: p2, items: i2 },
        ) => path@ == p2@ && same_imports(items@, i2@),
        _ => false,
    }
}

/// Typed declarations mirror declarations, one by one.
pub open spec fn nodes_mirror(a: Seq<ast::AstNode>, t: Seq<typed_ast::TypedAstNode>) -> bool
    decreases a,
{
    a.len() == t.len() && forall|i: int| 0 <= i < a.len() ==> node_mirrors(a[i], #[trigger] t[i])
}

} // verus!
