//! Reading the types of a checked program through the final substitution.
use vstd::prelude::*;
use crate::ast;
use crate::typechecker::mirror::{
    arm_mirrors, arms_mirror, array_element_mirrors, array_mirrors, expr_mirrors, exprs_mirror,
    init_field_mirrors, init_fields_mirror, kind_mirrors, node_mirrors, row_field_mirrors, row_mirrors,
    same_param, same_params,
};
use crate::typechecker::substitution::apply_type;
use crate::typed_ast::TypeV;
use crate::typechecker::TypeChecker;
use crate::typed_ast;

verus! {

/// `y` has the shape of every expression that `x` has the shape of.
pub open spec fn expr_keeps(x: typed_ast::TypedExpr, y: typed_ast::TypedExpr) -> bool {
    forall|e: ast::Expr| #[trigger] expr_mirrors(e, x) ==> expr_mirrors(e, y)
}

/// `expr_keeps`, element by element.
pub open spec fn exprs_keep(xs: Seq<typed_ast::TypedExpr>, ys: Seq<typed_ast::TypedExpr>) -> bool {
    xs.len() == ys.len() && forall|i: int| 0 <= i < xs.len() ==> expr_keeps(xs[i], #[trigger] ys[i])
}

/// An array element keeps its form and the shape of its expression.
pub open spec fn element_keeps(x: typed_ast::TypedArrayElement, y: typed_ast::TypedArrayElement) -> bool {
    match (x, y) {
        (typed_ast::TypedArrayElement::Value(a), typed_ast::TypedArrayElement::Value(b)) => expr_keeps(a, b),
        (typed_ast::TypedArrayElement::Spread(a), typed_ast::TypedArrayElement::Spread(b)) => expr_keeps(a, b),
        _ => false,
    }
}

/// A row field keeps its form, its name and the shape of its expression.
pub open spec fn row_field_keeps(x: typed_ast::TypedRowField, y: typed_ast::TypedRowField) -> bool {
    match (x, y) {
        (typed_ast::TypedRowField::Field { name: n1, value: a }, typed_ast::TypedRowField::Field { name: n2, value: b }) => n1
            == n2 && expr_keeps(a, b),
        (typed_ast::TypedRowField::Spread(a), typed_ast::TypedRowField::Spread(b)) => expr_keeps(a, b),
        _ => false,
    }
}

/// A field of a struct literal keeps its form, its name and the shape of
/// its expression.
pub open spec fn init_field_keeps(x: typed_ast::TypedStructInitField, y: typed_ast::TypedStructInitField) -> bool {
    match (x, y) {
        (
            typed_ast::TypedStructInitField::Field { name: n1, value: a },
            typed_ast::TypedStructInitField::Field { name: n2, value: b },
        ) => n1 == n2 && expr_keeps(a, b),
        (typed_ast::TypedStructInitField::Spread(a), typed_ast::TypedStructInitField::Spread(b)) => expr_keeps(a, b),
        _ => false,
    }
}

/// A match arm keeps its pattern and guard and the shape of its body.
pub open spec fn arm_keeps(x: typed_ast::TypedMatchArm, y: typed_ast::TypedMatchArm) -> bool {
    &&& x.pattern == y.pattern
    &&& match (x.guard, y.guard) {
        (Some(a), Some(b)) => expr_keeps(*a, *b),
        (None, None) => true,
        _ => false,
    }
    &&& exprs_keep(x.body@, y.body@)
}

/// A parameter keeps its name and annotation.
pub open spec fn param_keeps(x: typed_ast::TypedFunctionParam, y: typed_ast::TypedFunctionParam) -> bool {
    x.name == y.name && x.type_annotation == y.type_annotation
}

/// `y` has the shape of every declaration that `x` has the shape of.
pub open spec fn node_keeps(x: typed_ast::TypedAstNode, y: typed_ast::TypedAstNode) -> bool {
    forall|n: ast::AstNode| #[trigger] node_mirrors(n, x) ==> node_mirrors(n, y)
}

pub proof fn lemma_exprs_keep(a: Seq<ast::Expr>, xs: Seq<typed_ast::TypedExpr>, ys: Seq<typed_ast::TypedExpr>)
    requires
        exprs_mirror(a, xs),
        exprs_keep(xs, ys),
    ensures
        exprs_mirror(a, ys),
{
    assert forall|i: int| 0 <= i < a.len() implies expr_mirrors(a[i], #[trigger] ys[i]) by {
        assert(expr_mirrors(a[i], xs[i]));
        assert(expr_keeps(xs[i], ys[i]));
    }
}

pub proof fn lemma_elements_keep(
    a: Seq<ast::ArrayElement>,
    xs: Seq<typed_ast::TypedArrayElement>,
    ys: Seq<typed_ast::TypedArrayElement>,
)
    requires
        array_mirrors(a, xs),
        xs.len() == ys.len(),
        forall|i: int| 0 <= i < xs.len() ==> element_keeps(xs[i], #[trigger] ys[i]),
    ensures
        array_mirrors(a, ys),
{
    assert forall|i: int| 0 <= i < a.len() implies array_element_mirrors(a[i], #[trigger] ys[i]) by {
        assert(array_element_mirrors(a[i], xs[i]));
        assert(element_keeps(xs[i], ys[i]));
        match (a[i], xs[i], ys[i]) {
            (ast::ArrayElement::Value(x), typed_ast::TypedArrayElement::Value(p), typed_ast::TypedArrayElement::Value(q)) => {
                assert(expr_mirrors(x, p));
                assert(expr_keeps(p, q));
                assert(expr_mirrors(x, q));
            },
            (ast::ArrayElement::Spread(x), typed_ast::TypedArrayElement::Spread(p), typed_ast::TypedArrayElement::Spread(q)) => {
                assert(expr_mirrors(x, p));
                assert(expr_keeps(p, q));
                assert(expr_mirrors(x, q));
            },
            _ => {},
        }
    }
}

pub proof fn lemma_row_keep(a: Seq<ast::RowField>, xs: Seq<typed_ast::TypedRowField>, ys: Seq<typed_ast::TypedRowField>)
    requires
        row_mirrors(a, xs),
        xs.len() == ys.len(),
        forall|i: int| 0 <= i < xs.len() ==> row_field_keeps(xs[i], #[trigger] ys[i]),
    ensures
        row_mirrors(a, ys),
{
    assert forall|i: int| 0 <= i < a.len() implies row_field_mirrors(a[i], #[trigger] ys[i]) by {
        assert(row_field_mirrors(a[i], xs[i]));
        assert(row_field_keeps(xs[i], ys[i]));
        match (a[i], xs[i], ys[i]) {
            (
                ast::RowField::Field { value: x, .. },
                typed_ast::TypedRowField::Field { value: p, .. },
                typed_ast::TypedRowField::Field { value: q, .. },
            ) => {
                assert(expr_mirrors(x, p));
                assert(expr_keeps(p, q));
                assert(expr_mirrors(x, q));
            },
            (ast::RowField::Spread(x), typed_ast::TypedRowField::Spread(p), typed_ast::TypedRowField::Spread(q)) => {
                assert(expr_mirrors(x, p));
                assert(expr_keeps(p, q));
                assert(expr_mirrors(x, q));
            },
            _ => {},
        }
    }
}

pub proof fn lemma_init_fields_keep(
    a: Seq<ast::StructInitField>,
    xs: Seq<typed_ast::TypedStructInitField>,
    ys: Seq<typed_ast::TypedStructInitField>,
)
    requires
        init_fields_mirror(a, xs),
        xs.len() == ys.len(),
        forall|i: int| 0 <= i < xs.len() ==> init_field_keeps(xs[i], #[trigger] ys[i]),
    ensures
        init_fields_mirror(a, ys),
{
    assert forall|i: int| 0 <= i < a.len() implies init_field_mirrors(a[i], #[trigger] ys[i]) by {
        assert(init_field_mirrors(a[i], xs[i]));
        assert(init_field_keeps(xs[i], ys[i]));
        match (a[i], xs[i], ys[i]) {
            (
                ast::StructInitField::Field { value: x, .. },
                typed_ast::TypedStructInitField::Field { value: p, .. },
                typed_ast::TypedStructInitField::Field { value: q, .. },
            ) => {
                assert(expr_mirrors(x, p));
                assert(expr_keeps(p, q));
                assert(expr_mirrors(x, q));
            },
            (
                ast::StructInitField::Spread(x),
                typed_ast::TypedStructInitField::Spread(p),
                typed_ast::TypedStructInitField::Spread(q),
            ) => {
                assert(expr_mirrors(x, p));
                assert(expr_keeps(p, q));
                assert(expr_mirrors(x, q));
            },
            _ => {},
        }
    }
}

pub proof fn lemma_arms_keep(a: Seq<ast::MatchArm>, xs: Seq<typed_ast::TypedMatchArm>, ys: Seq<typed_ast::TypedMatchArm>)
    requires
        arms_mirror(a, xs),
        xs.len() == ys.len(),
        forall|i: int| 0 <= i < xs.len() ==> arm_keeps(xs[i], #[trigger] ys[i]),
    ensures
        arms_mirror(a, ys),
{
    assert forall|i: int| 0 <= i < a.len() implies arm_mirrors(a[i], #[trigger] ys[i]) by {
        assert(arm_mirrors(a[i], xs[i]));
        assert(arm_keeps(xs[i], ys[i]));
        lemma_exprs_keep(a[i].body@, xs[i].body@, ys[i].body@);
        match (a[i].guard, xs[i].guard, ys[i].guard) {
            (Some(x), Some(p), Some(q)) => {
                assert(expr_mirrors(*x, *p));
                assert(expr_keeps(*p, *q));
                assert(expr_mirrors(*x, *q));
            },
            _ => {},
        }
    }
}

pub proof fn lemma_params_keep(
    a: Seq<ast::FunctionParam>,
    xs: Seq<typed_ast::TypedFunctionParam>,
    ys: Seq<typed_ast::TypedFunctionParam>,
)
    requires
        same_params(a, xs),
        xs.len() == ys.len(),
        forall|i: int| 0 <= i < xs.len() ==> param_keeps(xs[i], #[trigger] ys[i]),
    ensures
        same_params(a, ys),
{
    assert forall|i: int| 0 <= i < a.len() implies same_param(a[i], #[trigger] ys[i]) by {
        assert(same_param(a[i], xs[i]));
        assert(param_keeps(xs[i], ys[i]));
    }
}

/// `y` is `x` with `s` applied to every type in it, each once; all else is
/// the same.
pub open spec fn expr_applied(s: Map<usize, TypeV>, x: typed_ast::TypedExpr, y: typed_ast::TypedExpr) -> bool
    decreases x,
{
    &&& y.meta == x.meta
    &&& y.typ@ == apply_type(s, x.typ@)
    &&& match (x.kind, y.kind) {
        (typed_ast::TypedExprKind::Literal(a), typed_ast::TypedExprKind::Literal(b)) => a == b,
        (typed_ast::TypedExprKind::Array(a), typed_ast::TypedExprKind::Array(b)) => elements_applied(s, a@, b@),
        (typed_ast::TypedExprKind::Tuple(a), typed_ast::TypedExprKind::Tuple(b)) => exprs_applied(s, a@, b@),
        (typed_ast::TypedExprKind::Row(a), typed_ast::TypedExprKind::Row(b)) => row_applied(s, a@, b@),
        (typed_ast::TypedExprKind::Variable(a), typed_ast::TypedExprKind::Variable(b)) => a == b,
        (
            typed_ast::TypedExprKind::Let { name, type_annotation, value },
            typed_ast::TypedExprKind::Let { name: n2, type_annotation: a2, value: v2 },
        ) => n2 == name && a2 == type_annotation && expr_applied(s, *value, *v2),
        (
            typed_ast::TypedExprKind::Assign { target, value },
            typed_ast::TypedExprKind::Assign { target: t2, value: v2 },
        ) => expr_applied(s, *target, *t2) && expr_applied(s, *value, *v2),
        (
            typed_ast::TypedExprKind::UnaryOp { operator, operand },
            typed_ast::TypedExprKind::UnaryOp { operator: o2, operand: x2 },
        ) => o2 == operator && expr_applied(s, *operand, *x2),
        (
            typed_ast::TypedExprKind::BinaryOp { left, operator, right },
            typed_ast::TypedExprKind::BinaryOp { left: l2, operator: o2, right: r2 },
        ) => o2 == operator && expr_applied(s, *left, *l2) && expr_applied(s, *right, *r2),
        (typed_ast::TypedExprKind::Cast(a, ta), typed_ast::TypedExprKind::Cast(b, tb)) => tb == ta && expr_applied(
            s,
            *a,
            *b,
        ),
        (typed_ast::TypedExprKind::EarlyReturn(a), typed_ast::TypedExprKind::EarlyReturn(b)) => expr_applied(s, *a, *b),
        (
            typed_ast::TypedExprKind::DotAccess { value, field },
            typed_ast::TypedExprKind::DotAccess { value: v2, field: f2 },
        ) => f2 == field && expr_applied(s, *value, *v2),
        (
            typed_ast::TypedExprKind::Index { value, index },
            typed_ast::TypedExprKind::Index { value: v2, index: i2 },
        ) => expr_applied(s, *value, *v2) && expr_applied(s, *index, *i2),
        (
            typed_ast::TypedExprKind::FunctionCall { function, args },
            typed_ast::TypedExprKind::FunctionCall { function: f2, args: a2 },
        ) => expr_applied(s, *function, *f2) && exprs_applied(s, args@, a2@),
        (
            typed_ast::TypedExprKind::If { condition, then_branch, else_branch },
            typed_ast::TypedExprKind::If { condition: c2, then_branch: t2, else_branch: e2 },
        ) => expr_applied(s, *condition, *c2) && exprs_applied(s, then_branch@, t2@) && match (else_branch, e2) {
            (Some(a), Some(b)) => exprs_applied(s, a@, b@),
            (None, None) => true,
            _ => false,
        },
        (
            typed_ast::TypedExprKind::While { condition, body },
            typed_ast::TypedExprKind::While { condition: c2, body: b2 },
        ) => expr_applied(s, *condition, *c2) && exprs_applied(s, body@, b2@),
        (
            typed_ast::TypedExprKind::For { iterator, iterable, body },
            typed_ast::TypedExprKind::For { iterator: it2, iterable: i2, body: b2 },
        ) => it2 == iterator && expr_applied(s, *iterable, *i2) && exprs_applied(s, body@, b2@),
        (
            typed_ast::TypedExprKind::Range { start, end, inclusive },
            typed_ast::TypedExprKind::Range { start: s2, end: e2, inclusive: in2 },
        ) => in2 == inclusive && expr_applied(s, *start, *s2) && expr_applied(s, *end, *e2),
        (typed_ast::TypedExprKind::Break, typed_ast::TypedExprKind::Break) => true,
        (typed_ast::TypedExprKind::Continue, typed_ast::TypedExprKind::Continue) => true,
        (typed_ast::TypedExprKind::Return(a), typed_ast::TypedExprKind::Return(b)) => match (a, b) {
            (Some(p), Some(q)) => expr_applied(s, *p, *q),
            (None, None) => true,
            _ => false,
        },
        (
            typed_ast::TypedExprKind::Block { expressions },
            typed_ast::TypedExprKind::Block { expressions: e2 },
        ) => exprs_applied(s, expressions@, e2@),
        (typed_ast::TypedExprKind::Do(a), typed_ast::TypedExprKind::Do(b)) => exprs_applied(s, a@, b@),
        (
            typed_ast::TypedExprKind::Lambda { params, return_type, body },
            typed_ast::TypedExprKind::Lambda { params: p2, return_type: r2, body: b2 },
        ) => params_applied(s, params@, p2@) && r2 == return_type && expr_applied(s, *body, *b2),
        (
            typed_ast::TypedExprKind::Match { value, arms },
            typed_ast::TypedExprKind::Match { value: v2, arms: a2 },
        ) => expr_applied(s, *value, *v2) && arms_applied(s, arms@, a2@),
        (
            typed_ast::TypedExprKind::StructInit { name, fields },
            typed_ast::TypedExprKind::StructInit { name: n2, fields: f2 },
        ) => n2 == name && inits_applied(s, fields@, f2@),
        (
            typed_ast::TypedExprKind::EnumInit { enum_name, variant_name, fields },
            typed_ast::TypedExprKind::EnumInit { enum_name: e2, variant_name: v2, fields: f2 },
        ) => e2 == enum_name && v2 == variant_name && match (fields, f2) {
            (typed_ast::TypedEnumInitFields::Tuple(a), typed_ast::TypedEnumInitFields::Tuple(b)) => exprs_applied(
                s,
                a@,
                b@,
            ),
            (typed_ast::TypedEnumInitFields::Struct(a), typed_ast::TypedEnumInitFields::Struct(b)) => inits_applied(
                s,
                a@,
                b@,
            ),
            _ => false,
        },
        _ => false,
    }
}

/// `expr_applied`, element by element.
pub open spec fn exprs_applied(s: Map<usize, TypeV>, xs: Seq<typed_ast::TypedExpr>, ys: Seq<typed_ast::TypedExpr>) -> bool
    decreases xs,
{
    xs.len() == ys.len() && forall|i: int| 0 <= i < xs.len() ==> expr_applied(s, xs[i], #[trigger] ys[i])
}

/// An array element with `s` applied to the types of its expression.
pub open spec fn element_applied(s: Map<usize, TypeV>, x: typed_ast::TypedArrayElement, y: typed_ast::TypedArrayElement) -> bool
    decreases x,
{
    match (x, y) {
        (typed_ast::TypedArrayElement::Value(a), typed_ast::TypedArrayElement::Value(b)) => expr_applied(s, a, b),
        (typed_ast::TypedArrayElement::Spread(a), typed_ast::TypedArrayElement::Spread(b)) => expr_applied(s, a, b),
        _ => false,
    }
}

/// `element_applied`, element by element.
pub open spec fn elements_applied(
    s: Map<usize, TypeV>,
    xs: Seq<typed_ast::TypedArrayElement>,
    ys: Seq<typed_ast::TypedArrayElement>,
) -> bool
    decreases xs,
{
    xs.len() == ys.len() && forall|i: int| 0 <= i < xs.len() ==> element_applied(s, xs[i], #[trigger] ys[i])
}

/// A row field with `s` applied to the types of its expression.
pub open spec fn row_field_applied(s: Map<usize, TypeV>, x: typed_ast::TypedRowField, y: typed_ast::TypedRowField) -> bool
    decreases x,
{
    match (x, y) {
        (typed_ast::TypedRowField::Field { name: n1, value: a }, typed_ast::TypedRowField::Field { name: n2, value: b }) => n1
            == n2 && expr_applied(s, a, b),
        (typed_ast::TypedRowField::Spread(a), typed_ast::TypedRowField::Spread(b)) => expr_applied(s, a, b),
        _ => false,
    }
}

/// `row_field_applied`, field by field.
pub open spec fn row_applied(s: Map<usize, TypeV>, xs: Seq<typed_ast::TypedRowField>, ys: Seq<typed_ast::TypedRowField>) -> bool
    decreases xs,
{
    xs.len() == ys.len() && forall|i: int| 0 <= i < xs.len() ==> row_field_applied(s, xs[i], #[trigger] ys[i])
}

/// A field of a struct literal with `s` applied to the types of its expression.
pub open spec fn init_applied(
    s: Map<usize, TypeV>,
    x: typed_ast::TypedStructInitField,
    y: typed_ast::TypedStructInitField,
) -> bool
    decreases x,
{
    match (x, y) {
        (
            typed_ast::TypedStructInitField::Field { name: n1, value: a },
            typed_ast::TypedStructInitField::Field { name: n2, value: b },
        ) => n1 == n2 && expr_applied(s, a, b),
        (typed_ast::TypedStructInitField::Spread(a), typed_ast::TypedStructInitField::Spread(b)) => expr_applied(s, a, b),
        _ => false,
    }
}

/// `init_applied`, field by field.
pub open spec fn inits_applied(
    s: Map<usize, TypeV>,
    xs: Seq<typed_ast::TypedStructInitField>,
    ys: Seq<typed_ast::TypedStructInitField>,
) -> bool
    decreases xs,
{
    xs.len() == ys.len() && forall|i: int| 0 <= i < xs.len() ==> init_applied(s, xs[i], #[trigger] ys[i])
}

/// A match arm with `s` applied to its type and to the types of its body;
/// its pattern and its guard are the same.
pub open spec fn arm_applied(s: Map<usize, TypeV>, x: typed_ast::TypedMatchArm, y: typed_ast::TypedMatchArm) -> bool
    decreases x,
{
    &&& y.pattern == x.pattern
    &&& y.typ@ == apply_type(s, x.typ@)
    &&& y.guard == x.guard
    &&& exprs_applied(s, x.body@, y.body@)
}

/// `arm_applied`, arm by arm.
pub open spec fn arms_applied(s: Map<usize, TypeV>, xs: Seq<typed_ast::TypedMatchArm>, ys: Seq<typed_ast::TypedMatchArm>) -> bool
    decreases xs,
{
    xs.len() == ys.len() && forall|i: int| 0 <= i < xs.len() ==> arm_applied(s, xs[i], #[trigger] ys[i])
}

/// Parameters with `s` applied to their types; names and annotations are
/// the same.
pub open spec fn params_applied(
    s: Map<usize, TypeV>,
    xs: Seq<typed_ast::TypedFunctionParam>,
    ys: Seq<typed_ast::TypedFunctionParam>,
) -> bool {
    &&& xs.len() == ys.len()
    &&& forall|i: int|
        0 <= i < xs.len() ==> (#[trigger] ys[i]).name == xs[i].name && ys[i].type_annotation == xs[i].type_annotation
            && ys[i].typ@ == apply_type(s, xs[i].typ@)
}

/// Struct fields with `s` applied to their types; all else is the same.
pub open spec fn struct_fields_applied(
    s: Map<usize, TypeV>,
    xs: Seq<typed_ast::TypedStructField>,
    ys: Seq<typed_ast::TypedStructField>,
) -> bool {
    &&& xs.len() == ys.len()
    &&& forall|i: int|
        0 <= i < xs.len() ==> (#[trigger] ys[i]).name == xs[i].name && ys[i].type_annotation == xs[i].type_annotation
            && ys[i].meta == xs[i].meta && ys[i].typ@ == apply_type(s, xs[i].typ@)
}

/// An enum variant with `s` applied to its type and to the types of its
/// fields; all else is the same.
pub open spec fn variant_applied(s: Map<usize, TypeV>, x: typed_ast::TypedEnumVariant, y: typed_ast::TypedEnumVariant) -> bool {
    match (x, y) {
        (
            typed_ast::TypedEnumVariant::Tuple { name: n1, fields: f1, meta: m1, typ: t1 },
            typed_ast::TypedEnumVariant::Tuple { name: n2, fields: f2, meta: m2, typ: t2 },
        ) => n2 == n1 && f2 == f1 && m2 == m1 && t2@ == apply_type(s, t1@),
        (
            typed_ast::TypedEnumVariant::Struct { name: n1, fields: f1, meta: m1, typ: t1 },
            typed_ast::TypedEnumVariant::Struct { name: n2, fields: f2, meta: m2, typ: t2 },
        ) => n2 == n1 && struct_fields_applied(s, f1@, f2@) && m2 == m1 && t2@ == apply_type(s, t1@),
        _ => false,
    }
}

/// A declaration with `s` applied to the types of a function's parameters
/// and body, of a struct's fields and of an enum's variants; other
/// declarations are the same.
pub open spec fn kind_applied(s: Map<usize, TypeV>, x: typed_ast::TypedAstNodeKind, y: typed_ast::TypedAstNodeKind) -> bool {
    match (x, y) {
        (
            typed_ast::TypedAstNodeKind::Function { name, args, return_type, generic_params, body },
            typed_ast::TypedAstNodeKind::Function {
                name: n2,
                args: a2,
                return_type: r2,
                generic_params: g2,
                body: b2,
            },
        ) => n2 == name && params_applied(s, args@, a2@) && r2 == return_type && g2 == generic_params
            && exprs_applied(s, body@, b2@),
        (
            typed_ast::TypedAstNodeKind::Struct { name, generic_params, fields },
            typed_ast::TypedAstNodeKind::Struct { name: n2, generic_params: g2, fields: f2 },
        ) => n2 == name && g2 == generic_params && struct_fields_applied(s, fields@, f2@),
        (
            typed_ast::TypedAstNodeKind::Enum { name, generic_params, variants },
            typed_ast::TypedAstNodeKind::Enum { name: n2, generic_params: g2, variants: v2 },
        ) => n2 == name && g2 == generic_params && variants@.len() == v2@.len() && forall|i: int|
            0 <= i < variants@.len() ==> variant_applied(s, variants@[i], #[trigger] v2@[i]),
        (typed_ast::TypedAstNodeKind::Function { .. }, _) => false,
        (typed_ast::TypedAstNodeKind::Struct { .. }, _) => false,
        (typed_ast::TypedAstNodeKind::Enum { .. }, _) => false,
        _ => y == x,
    }
}

/// A node with `s` applied to its type and to the types in its declaration.
pub open spec fn node_applied(s: Map<usize, TypeV>, x: typed_ast::TypedAstNode, y: typed_ast::TypedAstNode) -> bool {
    &&& y.meta == x.meta
    &&& y.typ@ == apply_type(s, x.typ@)
    &&& kind_applied(s, x.kind, y.kind)
}

impl TypeChecker {
    /// The program with the final substitution applied to the types of its
    /// declarations and expressions.
    pub fn apply_substitution_to_program(&self, program: typed_ast::TypedProgram) -> (r: typed_ast::TypedProgram)
        ensures
            r@.len() == program@.len(),
            forall|i: int| 0 <= i < program@.len() ==> node_keeps(program@[i], #[trigger] r@[i]),
            forall|i: int| 0 <= i < program@.len() ==> node_applied(self.substitution@, program@[i], #[trigger] r@[i]),
    {
        let ghost orig = program@;
        let mut rest = program;
        let mut out: Vec<typed_ast::TypedAstNode> = Vec::new();
        while rest.len() > 0
            invariant
                out@.len() + rest@.len() == orig.len(),
                rest@ == orig.subrange(out@.len() as int, orig.len() as int),
                forall|k: int| 0 <= k < out@.len() ==> node_keeps(orig[k], #[trigger] out@[k]),
                forall|k: int| 0 <= k < out@.len() ==> node_applied(self.substitution@, orig[k], #[trigger] out@[k]),
            decreases rest.len(),
        {
            let node = rest.remove(0);
            out.push(self.apply_substitution_to_node(node));
        }
        out
    }

    /// A declaration with the final substitution applied to its type and
    /// to the types inside it.
    pub fn apply_substitution_to_node(&self, node: typed_ast::TypedAstNode) -> (r: typed_ast::TypedAstNode)
        ensures
            r.typ@ == apply_type(self.substitution@, node.typ@),
            node_keeps(node, r),
            node_applied(self.substitution@, node, r),
    {
        let ghost input = node;
        let typ = self.substitution.apply(&node.typ);
        let kind = self.apply_substitution_to_kind(node.kind);
        let r = typed_ast::TypedAstNode { meta: node.meta, kind, typ };
        assert forall|n: ast::AstNode| #[trigger] node_mirrors(n, input) implies node_mirrors(n, r) by {
            assert(kind_mirrors(n.kind, input.kind));
        }
        r
    }

    /// The form of a declaration with the final substitution applied inside
    /// functions, structs and enums; the other forms are left as they are.
    pub fn apply_substitution_to_kind(&self, kind: typed_ast::TypedAstNodeKind) -> (r: typed_ast::TypedAstNodeKind)
        ensures
            forall|k: ast::AstNodeKind| #[trigger] kind_mirrors(k, kind) ==> kind_mirrors(k, r),
            kind_applied(self.substitution@, kind, r),
    {
        let ghost input = kind;
        let r = match kind {
            typed_ast::TypedAstNodeKind::Function { name, args, return_type, generic_params, body } => {
                let args = self.apply_to_params(args);
                let body = self.apply_to_exprs(body);
                let r = typed_ast::TypedAstNodeKind::Function { name, args, return_type, generic_params, body };
                r
            },
            typed_ast::TypedAstNodeKind::Struct { name, generic_params, fields } => {
                let fields = self.apply_to_struct_fields(fields);
                typed_ast::TypedAstNodeKind::Struct { name, generic_params, fields }
            },
            typed_ast::TypedAstNodeKind::Enum { name, generic_params, variants } => {
                let ghost orig = variants@;
                let mut rest = variants;
                let mut out: Vec<typed_ast::TypedEnumVariant> = Vec::new();
                while rest.len() > 0
                    invariant
                        out@.len() + rest@.len() == orig.len(),
                        rest@ == orig.subrange(out@.len() as int, orig.len() as int),
                        forall|k: int| 0 <= k < out@.len() ==> variant_keeps(orig[k], #[trigger] out@[k]),
                        forall|k: int| 0 <= k < out@.len() ==> variant_applied(self.substitution@, orig[k], #[trigger] out@[k]),
                    decreases rest.len(),
                {
                    let variant = rest.remove(0);
                    let v = match variant {
                        typed_ast::TypedEnumVariant::Tuple { name, fields, meta, typ } => {
                            let fields = self.apply_to_type_annotations(fields);
                            typed_ast::TypedEnumVariant::Tuple { name, fields, meta, typ: self.substitution.apply(&typ) }
                        },
                        typed_ast::TypedEnumVariant::Struct { name, fields, meta, typ } => {
                            let fields = self.apply_to_struct_fields(fields);
                            typed_ast::TypedEnumVariant::Struct { name, fields, meta, typ: self.substitution.apply(&typ) }
                        },
                    };
                    out.push(v);
                }
                typed_ast::TypedAstNodeKind::Enum { name, generic_params, variants: out }
            },
            typed_ast::TypedAstNodeKind::Import { path, items } => typed_ast::TypedAstNodeKind::Import { path, items },
            _ => kind,
        };
        proof {
            assert forall|k: ast::AstNodeKind| #[trigger] kind_mirrors(k, input) implies kind_mirrors(k, r) by {
                match (k, input, r) {
                    (
                        ast::AstNodeKind::Function { args: x, body: xb, .. },
                        typed_ast::TypedAstNodeKind::Function { args: a, body: ab, .. },
                        typed_ast::TypedAstNodeKind::Function { args: b, body: bb, .. },
                    ) => {
                        lemma_params_keep(x@, a@, b@);
                        lemma_exprs_keep(xb@, ab@, bb@);
                    },
                    _ => {},
                }
            }
        }
        r
    }

    /// Parameters with the final substitution applied to their types.
    fn apply_to_params(&self, params: Vec<typed_ast::TypedFunctionParam>) -> (r: Vec<typed_ast::TypedFunctionParam>)
        ensures
            r@.len() == params@.len(),
            forall|i: int| 0 <= i < params@.len() ==> param_keeps(params@[i], #[trigger] r@[i]),
            params_applied(self.substitution@, params@, r@),
    {
        let ghost orig = params@;
        let mut rest = params;
        let mut out: Vec<typed_ast::TypedFunctionParam> = Vec::new();
        while rest.len() > 0
            invariant
                out@.len() + rest@.len() == orig.len(),
                rest@ == orig.subrange(out@.len() as int, orig.len() as int),
                forall|k: int| 0 <= k < out@.len() ==> param_keeps(orig[k], #[trigger] out@[k]),
                forall|k: int|
                    0 <= k < out@.len() ==> (#[trigger] out@[k]).name == orig[k].name && out@[k].type_annotation
                        == orig[k].type_annotation && out@[k].typ@ == apply_type(self.substitution@, orig[k].typ@),
            decreases rest.len(),
        {
            let p = rest.remove(0);
            let typ = self.substitution.apply(&p.typ);
            let type_annotation = self.apply_substitution_to_type_annotation(p.type_annotation);
            out.push(typed_ast::TypedFunctionParam { name: p.name, type_annotation, typ });
        }
        out
    }

    /// Struct fields with the final substitution applied to their types.
    fn apply_to_struct_fields(&self, fields: Vec<typed_ast::TypedStructField>) -> (r: Vec<typed_ast::TypedStructField>)
        ensures
            r@.len() == fields@.len(),
            forall|i: int|
                0 <= i < fields@.len() ==> fields@[i].name == (#[trigger] r@[i]).name
                    && fields@[i].type_annotation == r@[i].type_annotation,
            struct_fields_applied(self.substitution@, fields@, r@),
    {
        let ghost orig = fields@;
        let mut rest = fields;
        let mut out: Vec<typed_ast::TypedStructField> = Vec::new();
        while rest.len() > 0
            invariant
                out@.len() + rest@.len() == orig.len(),
                rest@ == orig.subrange(out@.len() as int, orig.len() as int),
                forall|k: int|
                    0 <= k < out@.len() ==> orig[k].name == (#[trigger] out@[k]).name
                        && orig[k].type_annotation == out@[k].type_annotation,
                forall|k: int|
                    0 <= k < out@.len() ==> (#[trigger] out@[k]).name == orig[k].name && out@[k].type_annotation
                        == orig[k].type_annotation && out@[k].meta == orig[k].meta && out@[k].typ@ == apply_type(
                        self.substitution@,
                        orig[k].typ@,
                    ),
            decreases rest.len(),
        {
            let f = rest.remove(0);
            let typ = self.substitution.apply(&f.typ);
            let type_annotation = self.apply_substitution_to_type_annotation(f.type_annotation);
            out.push(typed_ast::TypedStructField { name: f.name, type_annotation, meta: f.meta, typ });
        }
        out
    }

    /// Annotations, which hold no type variables, as they are.
    fn apply_to_type_annotations(&self, tas: Vec<typed_ast::TypeAnnotation>) -> (r: Vec<typed_ast::TypeAnnotation>)
        ensures
            r == tas,
    {
        tas
    }

    /// An annotation, which holds no type variables, as it is.
    pub fn apply_substitution_to_type_annotation(&self, ta: typed_ast::TypeAnnotation) -> (r: typed_ast::TypeAnnotation)
        ensures
            r == ta,
    {
        ta
    }

    /// Expressions with the final substitution applied to their types.
    #[verifier::loop_isolation(false)]
    fn apply_to_exprs(&self, es: Vec<typed_ast::TypedExpr>) -> (r: Vec<typed_ast::TypedExpr>)
        ensures
            exprs_keep(es@, r@),
            exprs_applied(self.substitution@, es@, r@),
        decreases es, 0nat,
    {
        let ghost orig = es@;
        proof {
            assert(decreases_to!(es => es@));
        }
        let mut rest = es;
        let mut out: Vec<typed_ast::TypedExpr> = Vec::new();
        while rest.len() > 0
            invariant
                out@.len() + rest@.len() == orig.len(),
                rest@ == orig.subrange(out@.len() as int, orig.len() as int),
                forall|k: int| 0 <= k < out@.len() ==> expr_keeps(orig[k], #[trigger] out@[k]),
                forall|k: int| 0 <= k < out@.len() ==> expr_applied(self.substitution@, orig[k], #[trigger] out@[k]),
            decreases rest.len(),
        {
            proof {
                assert(decreases_to!(orig => orig[out@.len() as int]));
            }
            let e = rest.remove(0);
            out.push(self.apply_substitution_to_expr(e));
        }
        out
    }

    /// An expression with the final substitution applied to its type and
    /// to the types inside it.
    pub fn apply_substitution_to_expr(&self, expr: typed_ast::TypedExpr) -> (r: typed_ast::TypedExpr)
        ensures
            r.typ@ == apply_type(self.substitution@, expr.typ@),
            expr_keeps(expr, r),
            expr_applied(self.substitution@, expr, r),
        decreases expr, 1nat,
    {
        let ghost input = expr;
        let typ = self.substitution.apply(&expr.typ);
        let kind = match expr.kind {
            typed_ast::TypedExprKind::Literal(l) => typed_ast::TypedExprKind::Literal(l),
            typed_ast::TypedExprKind::Variable(name) => typed_ast::TypedExprKind::Variable(name),
            typed_ast::TypedExprKind::BinaryOp { left, operator, right } => typed_ast::TypedExprKind::BinaryOp {
                left: Box::new(self.apply_substitution_to_expr(*left)),
                operator,
                right: Box::new(self.apply_substitution_to_expr(*right)),
            },
            typed_ast::TypedExprKind::UnaryOp { operator, operand } => typed_ast::TypedExprKind::UnaryOp {
                operator,
                operand: Box::new(self.apply_substitution_to_expr(*operand)),
            },
            typed_ast::TypedExprKind::Let { name, type_annotation, value } => typed_ast::TypedExprKind::Let {
                name,
                type_annotation,
                value: Box::new(self.apply_substitution_to_expr(*value)),
            },
            typed_ast::TypedExprKind::Assign { target, value } => typed_ast::TypedExprKind::Assign {
                target: Box::new(self.apply_substitution_to_expr(*target)),
                value: Box::new(self.apply_substitution_to_expr(*value)),
            },
            typed_ast::TypedExprKind::Cast(inner, type_annotation) => typed_ast::TypedExprKind::Cast(
                Box::new(self.apply_substitution_to_expr(*inner)),
                self.apply_substitution_to_type_annotation(type_annotation),
            ),
            typed_ast::TypedExprKind::EarlyReturn(inner) => typed_ast::TypedExprKind::EarlyReturn(
                Box::new(self.apply_substitution_to_expr(*inner)),
            ),
            typed_ast::TypedExprKind::DotAccess { value, field } => typed_ast::TypedExprKind::DotAccess {
                value: Box::new(self.apply_substitution_to_expr(*value)),
                field,
            },
            typed_ast::TypedExprKind::Array(elements) => typed_ast::TypedExprKind::Array(
                self.apply_to_elements(elements),
            ),
            typed_ast::TypedExprKind::Tuple(exprs) => typed_ast::TypedExprKind::Tuple(self.apply_to_exprs(exprs)),
            typed_ast::TypedExprKind::Row(fields) => typed_ast::TypedExprKind::Row(self.apply_to_row(fields)),
            typed_ast::TypedExprKind::Index { value, index } => typed_ast::TypedExprKind::Index {
                value: Box::new(self.apply_substitution_to_expr(*value)),
                index: Box::new(self.apply_substitution_to_expr(*index)),
            },
            typed_ast::TypedExprKind::FunctionCall { function, args } => typed_ast::TypedExprKind::FunctionCall {
                function: Box::new(self.apply_substitution_to_expr(*function)),
                args: self.apply_to_exprs(args),
            },
            typed_ast::TypedExprKind::If { condition, then_branch, else_branch } => typed_ast::TypedExprKind::If {
                condition: Box::new(self.apply_substitution_to_expr(*condition)),
                then_branch: self.apply_to_exprs(then_branch),
                else_branch: match else_branch {
                    Some(branch) => Some(self.apply_to_exprs(branch)),
                    None => None,
                },
            },
            typed_ast::TypedExprKind::While { condition, body } => typed_ast::TypedExprKind::While {
                condition: Box::new(self.apply_substitution_to_expr(*condition)),
                body: self.apply_to_exprs(body),
            },
            typed_ast::TypedExprKind::For { iterator, iterable, body } => typed_ast::TypedExprKind::For {
                iterator,
                iterable: Box::new(self.apply_substitution_to_expr(*iterable)),
                body: self.apply_to_exprs(body),
            },
            typed_ast::TypedExprKind::Range { start, end, inclusive } => typed_ast::TypedExprKind::Range {
                start: Box::new(self.apply_substitution_to_expr(*start)),
                end: Box::new(self.apply_substitution_to_expr(*end)),
                inclusive,
            },
            typed_ast::TypedExprKind::Break => typed_ast::TypedExprKind::Break,
            typed_ast::TypedExprKind::Continue => typed_ast::TypedExprKind::Continue,
            typed_ast::TypedExprKind::Return(value) => typed_ast::TypedExprKind::Return(
                match value {
                    Some(e) => Some(Box::new(self.apply_substitution_to_expr(*e))),
                    None => None,
                },
            ),
            typed_ast::TypedExprKind::Block { expressions } => typed_ast::TypedExprKind::Block {
                expressions: self.apply_to_exprs(expressions),
            },
            typed_ast::TypedExprKind::Do(expressions) => typed_ast::TypedExprKind::Do(self.apply_to_exprs(expressions)),
            typed_ast::TypedExprKind::Lambda { params, return_type, body } => typed_ast::TypedExprKind::Lambda {
                params: self.apply_to_params(params),
                return_type,
                body: Box::new(self.apply_substitution_to_expr(*body)),
            },
            typed_ast::TypedExprKind::Match { value, arms } => typed_ast::TypedExprKind::Match {
                value: Box::new(self.apply_substitution_to_expr(*value)),
                arms: self.apply_to_arms(arms),
            },
            typed_ast::TypedExprKind::StructInit { name, fields } => typed_ast::TypedExprKind::StructInit {
                name,
                fields: self.apply_to_init_fields(fields),
            },
            typed_ast::TypedExprKind::EnumInit { enum_name, variant_name, fields } => typed_ast::TypedExprKind::EnumInit {
                enum_name,
                variant_name,
                fields: match fields {
                    typed_ast::TypedEnumInitFields::Tuple(args) => typed_ast::TypedEnumInitFields::Tuple(
                        self.apply_to_exprs(args),
                    ),
                    typed_ast::TypedEnumInitFields::Struct(fields) => typed_ast::TypedEnumInitFields::Struct(
                        self.apply_to_init_fields(fields),
                    ),
                },
            },
        };
        let r = typed_ast::TypedExpr { meta: expr.meta, kind, typ };
        let ghost rg = r;
        proof {
            match (input.kind, rg.kind) {
                (typed_ast::TypedExprKind::Let { value: value_a, .. }, typed_ast::TypedExprKind::Let { value: value_b, .. }) => {
                    assert forall|e: ast::Expr| #[trigger] expr_mirrors(e, input) implies expr_mirrors(e, rg) by {
                        match e.kind {
                            ast::ExprKind::Let { value: value_e, .. } => {
                                assert(expr_keeps(*value_a, *value_b));
                                assert(expr_mirrors(*value_e, *value_a));
                                assert(expr_mirrors(*value_e, *value_b));
                            },
                            _ => {},
                        }
                    }
                },
                (typed_ast::TypedExprKind::Assign { target: target_a, value: value_a, .. }, typed_ast::TypedExprKind::Assign { target: target_b, value: value_b, .. }) => {
                    assert forall|e: ast::Expr| #[trigger] expr_mirrors(e, input) implies expr_mirrors(e, rg) by {
                        match e.kind {
                            ast::ExprKind::Assign { target: target_e, value: value_e, .. } => {
                                assert(expr_keeps(*target_a, *target_b));
                                assert(expr_mirrors(*target_e, *target_a));
                                assert(expr_mirrors(*target_e, *target_b));
                                assert(expr_keeps(*value_a, *value_b));
                                assert(expr_mirrors(*value_e, *value_a));
                                assert(expr_mirrors(*value_e, *value_b));
                            },
                            _ => {},
                        }
                    }
                },
                (typed_ast::TypedExprKind::UnaryOp { operand: operand_a, .. }, typed_ast::TypedExprKind::UnaryOp { operand: operand_b, .. }) => {
                    assert forall|e: ast::Expr| #[trigger] expr_mirrors(e, input) implies expr_mirrors(e, rg) by {
                        match e.kind {
                            ast::ExprKind::UnaryOp { operand: operand_e, .. } => {
                                assert(expr_keeps(*operand_a, *operand_b));
                                assert(expr_mirrors(*operand_e, *operand_a));
                                assert(expr_mirrors(*operand_e, *operand_b));
                            },
                            _ => {},
                        }
                    }
                },
                (typed_ast::TypedExprKind::BinaryOp { left: left_a, right: right_a, .. }, typed_ast::TypedExprKind::BinaryOp { left: left_b, right: right_b, .. }) => {
                    assert forall|e: ast::Expr| #[trigger] expr_mirrors(e, input) implies expr_mirrors(e, rg) by {
                        match e.kind {
                            ast::ExprKind::BinaryOp { left: left_e, right: right_e, .. } => {
                                assert(expr_keeps(*left_a, *left_b));
                                assert(expr_mirrors(*left_e, *left_a));
                                assert(expr_mirrors(*left_e, *left_b));
                                assert(expr_keeps(*right_a, *right_b));
                                assert(expr_mirrors(*right_e, *right_a));
                                assert(expr_mirrors(*right_e, *right_b));
                            },
                            _ => {},
                        }
                    }
                },
                (typed_ast::TypedExprKind::Cast(x0_a, _), typed_ast::TypedExprKind::Cast(x0_b, _)) => {
                    assert forall|e: ast::Expr| #[trigger] expr_mirrors(e, input) implies expr_mirrors(e, rg) by {
                        match e.kind {
                            ast::ExprKind::Cast(x0_e, _) => {
                                assert(expr_keeps(*x0_a, *x0_b));
                                assert(expr_mirrors(*x0_e, *x0_a));
                                assert(expr_mirrors(*x0_e, *x0_b));
                            },
                            _ => {},
                        }
                    }
                },
                (typed_ast::TypedExprKind::EarlyReturn(x0_a), typed_ast::TypedExprKind::EarlyReturn(x0_b)) => {
                    assert forall|e: ast::Expr| #[trigger] expr_mirrors(e, input) implies expr_mirrors(e, rg) by {
                        match e.kind {
                            ast::ExprKind::EarlyReturn(x0_e) => {
                                assert(expr_keeps(*x0_a, *x0_b));
                                assert(expr_mirrors(*x0_e, *x0_a));
                                assert(expr_mirrors(*x0_e, *x0_b));
                            },
                            _ => {},
                        }
                    }
                },
                (typed_ast::TypedExprKind::DotAccess { value: value_a, .. }, typed_ast::TypedExprKind::DotAccess { value: value_b, .. }) => {
                    assert forall|e: ast::Expr| #[trigger] expr_mirrors(e, input) implies expr_mirrors(e, rg) by {
                        match e.kind {
                            ast::ExprKind::DotAccess { value: value_e, .. } => {
                                assert(expr_keeps(*value_a, *value_b));
                                assert(expr_mirrors(*value_e, *value_a));
                                assert(expr_mirrors(*value_e, *value_b));
                            },
                            _ => {},
                        }
                    }
                },
                (typed_ast::TypedExprKind::Index { value: value_a, index: index_a, .. }, typed_ast::TypedExprKind::Index { value: value_b, index: index_b, .. }) => {
                    assert forall|e: ast::Expr| #[trigger] expr_mirrors(e, input) implies expr_mirrors(e, rg) by {
                        match e.kind {
                            ast::ExprKind::Index { value: value_e, index: index_e, .. } => {
                                assert(expr_keeps(*value_a, *value_b));
                                assert(expr_mirrors(*value_e, *value_a));
                                assert(expr_mirrors(*value_e, *value_b));
                                assert(expr_keeps(*index_a, *index_b));
                                assert(expr_mirrors(*index_e, *index_a));
                                assert(expr_mirrors(*index_e, *index_b));
                            },
                            _ => {},
                        }
                    }
                },
                (typed_ast::TypedExprKind::FunctionCall { function: function_a, args: args_a, .. }, typed_ast::TypedExprKind::FunctionCall { function: function_b, args: args_b, .. }) => {
                    assert forall|e: ast::Expr| #[trigger] expr_mirrors(e, input) implies expr_mirrors(e, rg) by {
                        match e.kind {
                            ast::ExprKind::FunctionCall { function: function_e, args: args_e, .. } => {
                                assert(expr_keeps(*function_a, *function_b));
                                assert(expr_mirrors(*function_e, *function_a));
                                assert(expr_mirrors(*function_e, *function_b));
                                lemma_exprs_keep(args_e@, args_a@, args_b@);
                            },
                            _ => {},
                        }
                    }
                },
                (typed_ast::TypedExprKind::If { condition: condition_a, then_branch: then_branch_a, else_branch: else_branch_a, .. }, typed_ast::TypedExprKind::If { condition: condition_b, then_branch: then_branch_b, else_branch: else_branch_b, .. }) => {
                    assert forall|e: ast::Expr| #[trigger] expr_mirrors(e, input) implies expr_mirrors(e, rg) by {
                        match e.kind {
                            ast::ExprKind::If { condition: condition_e, then_branch: then_branch_e, else_branch: else_branch_e, .. } => {
                                assert(expr_keeps(*condition_a, *condition_b));
                                assert(expr_mirrors(*condition_e, *condition_a));
                                assert(expr_mirrors(*condition_e, *condition_b));
                                lemma_exprs_keep(then_branch_e@, then_branch_a@, then_branch_b@);
                                match (else_branch_e, else_branch_a, else_branch_b) {
                                    (Some(p), Some(q), Some(w)) => {
                                        lemma_exprs_keep(p@, q@, w@);
                                    },
                                    _ => {},
                                }
                            },
                            _ => {},
                        }
                    }
                },
                (typed_ast::TypedExprKind::While { condition: condition_a, body: body_a, .. }, typed_ast::TypedExprKind::While { condition: condition_b, body: body_b, .. }) => {
                    assert forall|e: ast::Expr| #[trigger] expr_mirrors(e, input) implies expr_mirrors(e, rg) by {
                        match e.kind {
                            ast::ExprKind::While { condition: condition_e, body: body_e, .. } => {
                                assert(expr_keeps(*condition_a, *condition_b));
                                assert(expr_mirrors(*condition_e, *condition_a));
                                assert(expr_mirrors(*condition_e, *condition_b));
                                lemma_exprs_keep(body_e@, body_a@, body_b@);
                            },
                            _ => {},
                        }
                    }
                },
                (typed_ast::TypedExprKind::For { iterable: iterable_a, body: body_a, .. }, typed_ast::TypedExprKind::For { iterable: iterable_b, body: body_b, .. }) => {
                    assert forall|e: ast::Expr| #[trigger] expr_mirrors(e, input) implies expr_mirrors(e, rg) by {
                        match e.kind {
                            ast::ExprKind::For { iterable: iterable_e, body: body_e, .. } => {
                                assert(expr_keeps(*iterable_a, *iterable_b));
                                assert(expr_mirrors(*iterable_e, *iterable_a));
                                assert(expr_mirrors(*iterable_e, *iterable_b));
                                lemma_exprs_keep(body_e@, body_a@, body_b@);
                            },
                            _ => {},
                        }
                    }
                },
                (typed_ast::TypedExprKind::Range { start: start_a, end: end_a, .. }, typed_ast::TypedExprKind::Range { start: start_b, end: end_b, .. }) => {
                    assert forall|e: ast::Expr| #[trigger] expr_mirrors(e, input) implies expr_mirrors(e, rg) by {
                        match e.kind {
                            ast::ExprKind::Range { start: start_e, end: end_e, .. } => {
                                assert(expr_keeps(*start_a, *start_b));
                                assert(expr_mirrors(*start_e, *start_a));
                                assert(expr_mirrors(*start_e, *start_b));
                                assert(expr_keeps(*end_a, *end_b));
                                assert(expr_mirrors(*end_e, *end_a));
                                assert(expr_mirrors(*end_e, *end_b));
                            },
                            _ => {},
                        }
                    }
                },
                (typed_ast::TypedExprKind::Return(x0_a), typed_ast::TypedExprKind::Return(x0_b)) => {
                    assert forall|e: ast::Expr| #[trigger] expr_mirrors(e, input) implies expr_mirrors(e, rg) by {
                        match e.kind {
                            ast::ExprKind::Return(x0_e) => {
                                match (x0_e, x0_a, x0_b) {
                                    (Some(p), Some(q), Some(w)) => {
                                        assert(expr_mirrors(*p, *q));
                                        assert(expr_keeps(*q, *w));
                                        assert(expr_mirrors(*p, *w));
                                    },
                                    _ => {},
                                }
                            },
                            _ => {},
                        }
                    }
                },
                (typed_ast::TypedExprKind::Block { expressions: expressions_a, .. }, typed_ast::TypedExprKind::Block { expressions: expressions_b, .. }) => {
                    assert forall|e: ast::Expr| #[trigger] expr_mirrors(e, input) implies expr_mirrors(e, rg) by {
                        match e.kind {
                            ast::ExprKind::Block { expressions: expressions_e, .. } => {
                                lemma_exprs_keep(expressions_e@, expressions_a@, expressions_b@);
                            },
                            _ => {},
                        }
                    }
                },
                (typed_ast::TypedExprKind::Do(x0_a), typed_ast::TypedExprKind::Do(x0_b)) => {
                    assert forall|e: ast::Expr| #[trigger] expr_mirrors(e, input) implies expr_mirrors(e, rg) by {
                        match e.kind {
                            ast::ExprKind::Do(x0_e) => {
                                lemma_exprs_keep(x0_e@, x0_a@, x0_b@);
                            },
                            _ => {},
                        }
                    }
                },
                (typed_ast::TypedExprKind::Lambda { params: params_a, body: body_a, .. }, typed_ast::TypedExprKind::Lambda { params: params_b, body: body_b, .. }) => {
                    assert forall|e: ast::Expr| #[trigger] expr_mirrors(e, input) implies expr_mirrors(e, rg) by {
                        match e.kind {
                            ast::ExprKind::Lambda { params: params_e, body: body_e, .. } => {
                                lemma_params_keep(params_e@, params_a@, params_b@);
                                assert(expr_keeps(*body_a, *body_b));
                                assert(expr_mirrors(*body_e, *body_a));
                                assert(expr_mirrors(*body_e, *body_b));
                            },
                            _ => {},
                        }
                    }
                },
                (typed_ast::TypedExprKind::Match { value: value_a, arms: arms_a, .. }, typed_ast::TypedExprKind::Match { value: value_b, arms: arms_b, .. }) => {
                    assert forall|e: ast::Expr| #[trigger] expr_mirrors(e, input) implies expr_mirrors(e, rg) by {
                        match e.kind {
                            ast::ExprKind::Match { value: value_e, arms: arms_e, .. } => {
                                assert(expr_keeps(*value_a, *value_b));
                                assert(expr_mirrors(*value_e, *value_a));
                                assert(expr_mirrors(*value_e, *value_b));
                                lemma_arms_keep(arms_e@, arms_a@, arms_b@);
                            },
                            _ => {},
                        }
                    }
                },
                (typed_ast::TypedExprKind::Array(x0_a), typed_ast::TypedExprKind::Array(x0_b)) => {
                    assert forall|e: ast::Expr| #[trigger] expr_mirrors(e, input) implies expr_mirrors(e, rg) by {
                        match e.kind {
                            ast::ExprKind::Array(x0_e) => {
                                lemma_elements_keep(x0_e@, x0_a@, x0_b@);
                            },
                            _ => {},
                        }
                    }
                },
                (typed_ast::TypedExprKind::Tuple(x0_a), typed_ast::TypedExprKind::Tuple(x0_b)) => {
                    assert forall|e: ast::Expr| #[trigger] expr_mirrors(e, input) implies expr_mirrors(e, rg) by {
                        match e.kind {
                            ast::ExprKind::Tuple(x0_e) => {
                                lemma_exprs_keep(x0_e@, x0_a@, x0_b@);
                            },
                            _ => {},
                        }
                    }
                },
                (typed_ast::TypedExprKind::Row(x0_a), typed_ast::TypedExprKind::Row(x0_b)) => {
                    assert forall|e: ast::Expr| #[trigger] expr_mirrors(e, input) implies expr_mirrors(e, rg) by {
                        match e.kind {
                            ast::ExprKind::Row(x0_e) => {
                                lemma_row_keep(x0_e@, x0_a@, x0_b@);
                            },
                            _ => {},
                        }
                    }
                },
                (typed_ast::TypedExprKind::StructInit { fields: fields_a, .. }, typed_ast::TypedExprKind::StructInit { fields: fields_b, .. }) => {
                    assert forall|e: ast::Expr| #[trigger] expr_mirrors(e, input) implies expr_mirrors(e, rg) by {
                        match e.kind {
                            ast::ExprKind::StructInit { fields: fields_e, .. } => {
                                lemma_init_fields_keep(fields_e@, fields_a@, fields_b@);
                            },
                            _ => {},
                        }
                    }
                },
                (typed_ast::TypedExprKind::EnumInit { fields: fields_a, .. }, typed_ast::TypedExprKind::EnumInit { fields: fields_b, .. }) => {
                    assert forall|e: ast::Expr| #[trigger] expr_mirrors(e, input) implies expr_mirrors(e, rg) by {
                        match e.kind {
                            ast::ExprKind::EnumInit { fields: fields_e, .. } => {
                                match (fields_e, fields_a, fields_b) {
                                    (ast::EnumInitFields::Tuple(p), typed_ast::TypedEnumInitFields::Tuple(q), typed_ast::TypedEnumInitFields::Tuple(w)) => {
                                        lemma_exprs_keep(p@, q@, w@);
                                    },
                                    (ast::EnumInitFields::Struct(p), typed_ast::TypedEnumInitFields::Struct(q), typed_ast::TypedEnumInitFields::Struct(w)) => {
                                        lemma_init_fields_keep(p@, q@, w@);
                                    },
                                    _ => {},
                                }
                            },
                            _ => {},
                        }
                    }
                },
                _ => {},
            }
        }
        proof {
            let sub = self.substitution@;
            match (input.kind, rg.kind) {
                (typed_ast::TypedExprKind::Array(a), typed_ast::TypedExprKind::Array(b)) => {
                    assert(elements_applied(sub, a@, b@));
                },
                (typed_ast::TypedExprKind::Tuple(a), typed_ast::TypedExprKind::Tuple(b)) => {
                    assert(exprs_applied(sub, a@, b@));
                },
                (typed_ast::TypedExprKind::Row(a), typed_ast::TypedExprKind::Row(b)) => {
                    assert(row_applied(sub, a@, b@));
                },
                (typed_ast::TypedExprKind::Match { arms: a, .. }, typed_ast::TypedExprKind::Match { arms: b, .. }) => {
                    assert(arms_applied(sub, a@, b@));
                },
                (typed_ast::TypedExprKind::StructInit { fields: a, .. }, typed_ast::TypedExprKind::StructInit { fields: b, .. }) => {
                    assert(inits_applied(sub, a@, b@));
                },
                (typed_ast::TypedExprKind::EnumInit { fields: a, .. }, typed_ast::TypedExprKind::EnumInit { fields: b, .. }) => {
                    match (a, b) {
                        (typed_ast::TypedEnumInitFields::Struct(p), typed_ast::TypedEnumInitFields::Struct(q)) => {
                            assert(inits_applied(sub, p@, q@));
                        },
                        _ => {},
                    }
                },
                _ => {},
            }
        }
        r
    }

    /// Array elements with the final substitution applied.
    #[verifier::loop_isolation(false)]
    fn apply_to_elements(&self, es: Vec<typed_ast::TypedArrayElement>) -> (r: Vec<typed_ast::TypedArrayElement>)
        ensures
            r@.len() == es@.len(),
            forall|i: int| 0 <= i < es@.len() ==> element_keeps(es@[i], #[trigger] r@[i]),
            forall|i: int| 0 <= i < es@.len() ==> element_applied(self.substitution@, es@[i], #[trigger] r@[i]),
        decreases es, 0nat,
    {
        let ghost orig = es@;
        proof {
            assert(decreases_to!(es => es@));
        }
        let mut rest = es;
        let mut out: Vec<typed_ast::TypedArrayElement> = Vec::new();
        while rest.len() > 0
            invariant
                out@.len() + rest@.len() == orig.len(),
                rest@ == orig.subrange(out@.len() as int, orig.len() as int),
                forall|k: int| 0 <= k < out@.len() ==> element_keeps(orig[k], #[trigger] out@[k]),
                forall|k: int| 0 <= k < out@.len() ==> element_applied(self.substitution@, orig[k], #[trigger] out@[k]),
            decreases rest.len(),
        {
            proof {
                assert(decreases_to!(orig => orig[out@.len() as int]));
            }
            let e = rest.remove(0);
            let v = match e {
                typed_ast::TypedArrayElement::Value(x) => typed_ast::TypedArrayElement::Value(
                    self.apply_substitution_to_expr(x),
                ),
                typed_ast::TypedArrayElement::Spread(x) => typed_ast::TypedArrayElement::Spread(
                    self.apply_substitution_to_expr(x),
                ),
            };
            out.push(v);
        }
        out
    }

    /// Row fields with the final substitution applied.
    #[verifier::loop_isolation(false)]
    fn apply_to_row(&self, fs: Vec<typed_ast::TypedRowField>) -> (r: Vec<typed_ast::TypedRowField>)
        ensures
            r@.len() == fs@.len(),
            forall|i: int| 0 <= i < fs@.len() ==> row_field_keeps(fs@[i], #[trigger] r@[i]),
            forall|i: int| 0 <= i < fs@.len() ==> row_field_applied(self.substitution@, fs@[i], #[trigger] r@[i]),
        decreases fs, 0nat,
    {
        let ghost orig = fs@;
        proof {
            assert(decreases_to!(fs => fs@));
        }
        let mut rest = fs;
        let mut out: Vec<typed_ast::TypedRowField> = Vec::new();
        while rest.len() > 0
            invariant
                out@.len() + rest@.len() == orig.len(),
                rest@ == orig.subrange(out@.len() as int, orig.len() as int),
                forall|k: int| 0 <= k < out@.len() ==> row_field_keeps(orig[k], #[trigger] out@[k]),
                forall|k: int| 0 <= k < out@.len() ==> row_field_applied(self.substitution@, orig[k], #[trigger] out@[k]),
            decreases rest.len(),
        {
            proof {
                assert(decreases_to!(orig => orig[out@.len() as int]));
            }
            let f = rest.remove(0);
            let v = match f {
                typed_ast::TypedRowField::Field { name, value } => typed_ast::TypedRowField::Field {
                    name,
                    value: self.apply_substitution_to_expr(value),
                },
                typed_ast::TypedRowField::Spread(x) => typed_ast::TypedRowField::Spread(
                    self.apply_substitution_to_expr(x),
                ),
            };
            out.push(v);
        }
        out
    }

    /// Fields of a struct literal with the final substitution applied.
    #[verifier::loop_isolation(false)]
    fn apply_to_init_fields(&self, fs: Vec<typed_ast::TypedStructInitField>) -> (r: Vec<typed_ast::TypedStructInitField>)
        ensures
            r@.len() == fs@.len(),
            forall|i: int| 0 <= i < fs@.len() ==> init_field_keeps(fs@[i], #[trigger] r@[i]),
            forall|i: int| 0 <= i < fs@.len() ==> init_applied(self.substitution@, fs@[i], #[trigger] r@[i]),
        decreases fs, 0nat,
    {
        let ghost orig = fs@;
        proof {
            assert(decreases_to!(fs => fs@));
        }
        let mut rest = fs;
        let mut out: Vec<typed_ast::TypedStructInitField> = Vec::new();
        while rest.len() > 0
            invariant
                out@.len() + rest@.len() == orig.len(),
                rest@ == orig.subrange(out@.len() as int, orig.len() as int),
                forall|k: int| 0 <= k < out@.len() ==> init_field_keeps(orig[k], #[trigger] out@[k]),
                forall|k: int| 0 <= k < out@.len() ==> init_applied(self.substitution@, orig[k], #[trigger] out@[k]),
            decreases rest.len(),
        {
            proof {
                assert(decreases_to!(orig => orig[out@.len() as int]));
            }
            let f = rest.remove(0);
            let v = match f {
                typed_ast::TypedStructInitField::Field { name, value } => typed_ast::TypedStructInitField::Field {
                    name,
                    value: self.apply_substitution_to_expr(value),
                },
                typed_ast::TypedStructInitField::Spread(x) => typed_ast::TypedStructInitField::Spread(
                    self.apply_substitution_to_expr(x),
                ),
            };
            out.push(v);
        }
        out
    }

    /// Match arms with the final substitution applied to their types and
    /// bodies; their guards are left as they are.
    #[verifier::loop_isolation(false)]
    fn apply_to_arms(&self, arms: Vec<typed_ast::TypedMatchArm>) -> (r: Vec<typed_ast::TypedMatchArm>)
        ensures
            r@.len() == arms@.len(),
            forall|i: int| 0 <= i < arms@.len() ==> arm_keeps(arms@[i], #[trigger] r@[i]),
            forall|i: int| 0 <= i < arms@.len() ==> arm_applied(self.substitution@, arms@[i], #[trigger] r@[i]),
        decreases arms, 0nat,
    {
        let ghost orig = arms@;
        proof {
            assert(decreases_to!(arms => arms@));
        }
        let mut rest = arms;
        let mut out: Vec<typed_ast::TypedMatchArm> = Vec::new();
        while rest.len() > 0
            invariant
                out@.len() + rest@.len() == orig.len(),
                rest@ == orig.subrange(out@.len() as int, orig.len() as int),
                forall|k: int| 0 <= k < out@.len() ==> arm_keeps(orig[k], #[trigger] out@[k]),
                forall|k: int| 0 <= k < out@.len() ==> arm_applied(self.substitution@, orig[k], #[trigger] out@[k]),
            decreases rest.len(),
        {
            proof {
                assert(decreases_to!(orig => orig[out@.len() as int]));
            }
            let arm = rest.remove(0);
            let typ = self.substitution.apply(&arm.typ);
            let body = self.apply_to_exprs(arm.body);
            let ghost g = arm.guard;
            out.push(typed_ast::TypedMatchArm { pattern: arm.pattern, guard: arm.guard, body, typ });
            proof {
                match g {
                    Some(x) => {
                        assert(expr_keeps(*x, *x));
                    },
                    None => {},
                }
            }
        }
        out
    }
}

/// An enum variant keeps its form, name and fields.
pub open spec fn variant_keeps(x: typed_ast::TypedEnumVariant, y: typed_ast::TypedEnumVariant) -> bool {
    match (x, y) {
        (
            typed_ast::TypedEnumVariant::Tuple { name: n1, fields: f1, .. },
            typed_ast::TypedEnumVariant::Tuple { name: n2, fields: f2, .. },
        ) => n1 == n2 && f1 == f2,
        (
            typed_ast::TypedEnumVariant::Struct { name: n1, fields: f1, .. },
            typed_ast::TypedEnumVariant::Struct { name: n2, fields: f2, .. },
        ) => n1 == n2 && f1@.len() == f2@.len() && forall|i: int|
            0 <= i < f1@.len() ==> f1@[i].name == (#[trigger] f2@[i]).name && f1@[i].type_annotation
                == f2@[i].type_annotation,
        _ => false,
    }
}

} // verus!
