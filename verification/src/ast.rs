use vstd::prelude::*;
use crate::parser::grammar::{annotation_view, annotations_view, row_fields_view};
use crate::meta::Meta;

verus! {

/// A program: its top-level declarations in order.
pub type Program = Vec<AstNode>;

#[derive(Debug)]
pub struct AstNode {
    pub meta: Meta,
    pub kind: AstNodeKind,
}

#[derive(Debug)]
pub enum AstNodeKind {
    Function {
        name: String,
        args: Vec<FunctionParam>,
        return_type: Option<TypeAnnotation>,
        generic_params: Vec<GenericParam>,
        body: Vec<Expr>,
    },
    Struct {
        name: String,
        generic_params: Vec<GenericParam>,
        fields: Vec<StructField>,
    },
    Enum {
        name: String,
        generic_params: Vec<GenericParam>,
        variants: Vec<EnumVariant>,
    },
    Trait {
        name: String,
        generic_params: Vec<GenericParam>,
        methods: Vec<MethodSignature>,
    },
    Impl {
        trait_name: Option<String>,
        for_type: TypeAnnotation,
        methods: Vec<AstNode>,
    },
    Extern {
        name: String,
        args: Vec<FunctionParam>,
        return_type: Option<TypeAnnotation>,
    },
    Const {
        name: String,
        type_annotation: Option<TypeAnnotation>,
        value: Expr,
    },
    Import {
        path: String,
        items: Vec<ImportItem>,
    },
}

#[derive(Debug, Clone)]
pub struct ImportItem {
    pub name: String,
    pub alias: Option<String>,
}

#[derive(Debug, Clone)]
pub struct MethodSignature {
    pub name: String,
    pub args: Vec<MethodParam>,
    pub return_type: Option<TypeAnnotation>,
    pub generic_params: Vec<GenericParam>,
    pub meta: Meta,
}

#[derive(Debug, Clone)]
pub enum MethodParam {
    SelfParam,
    TypedParam {
        name: String,
        type_annotation: TypeAnnotation,
    },
}

#[derive(Debug, Clone)]
pub struct StructField {
    pub name: String,
    pub type_annotation: TypeAnnotation,
    pub meta: Meta,
}

#[derive(Debug, Clone)]
pub enum EnumVariant {
    Tuple {
        name: String,
        fields: Vec<TypeAnnotation>,
        meta: Meta,
    },
    Struct {
        name: String,
        fields: Vec<StructField>,
        meta: Meta,
    },
}

#[derive(Debug, Clone)]
pub struct FunctionParam {
    pub name: String,
    pub type_annotation: TypeAnnotation,
}

#[derive(Debug)]
pub struct TypeAnnotation {
    pub meta: Meta, // attributes not applicable here
    pub kind: TypeAnnotationKind,
}

#[derive(Debug)]
pub enum TypeAnnotationKind {
    Constructor {
        name: String,
        generic_args: Vec<TypeAnnotation>,
    },
    Tuple(Vec<TypeAnnotation>),
    Function {
        args: Vec<TypeAnnotation>,
        return_type: Box<TypeAnnotation>,
    },
    Array {
        element_type: Box<TypeAnnotation>,
        size: Option<usize>,
    },
    Row(Vec<RowTypeField>),
}

#[derive(Debug, Clone)]
pub struct GenericParam {
    pub name: String,
    pub constraints: Vec<TypeAnnotation>,
}

#[derive(Debug)]
pub struct Expr {
    pub meta: Meta,
    pub kind: ExprKind,
}

#[derive(Debug)]
pub enum ExprKind {
    Literal(Literal),
    Array(Vec<ArrayElement>),
    Tuple(Vec<Expr>),
    Row(Vec<RowField>),
    Variable(String),
    Let {
        name: String,
        type_annotation: Option<TypeAnnotation>,
        value: Box<Expr>,
    },
    Assign {
        target: Box<Expr>,
        value: Box<Expr>,
    },
    UnaryOp {
        operator: String,
        operand: Box<Expr>,
    },
    BinaryOp {
        left: Box<Expr>,
        operator: String,
        right: Box<Expr>,
    },
    Cast(Box<Expr>, TypeAnnotation),
    EarlyReturn(Box<Expr>),
    DotAccess {
        // method calls become FunctionCall { function: DotAccess { .., field: method },
        // args: [..] }
        value: Box<Expr>,
        field: String,
    },
    Index {
        value: Box<Expr>,
        index: Box<Expr>,
    },
    FunctionCall {
        function: Box<Expr>,
        args: Vec<Expr>,
    },
    If {
        condition: Box<Expr>,
        then_branch: Vec<Expr>,
        else_branch: Option<Vec<Expr>>,
    },
    While {
        condition: Box<Expr>,
        body: Vec<Expr>,
    },
    For {
        iterator: String,
        iterable: Box<Expr>,
        body: Vec<Expr>,
    },
    Range {
        start: Box<Expr>,
        end: Box<Expr>,
        inclusive: bool,
    },
    Break,
    Continue,
    Return(Option<Box<Expr>>),
    Block {
        expressions: Vec<Expr>,
    },
    Do(Vec<Expr>),
    Lambda {
        params: Vec<FunctionParam>,
        return_type: Option<TypeAnnotation>,
        body: Box<Expr>,
    },
    Match {
        value: Box<Expr>,
        arms: Vec<MatchArm>,
    },
    StructInit {
        name: String,
        fields: Vec<StructInitField>,
    },
    EnumInit {
        enum_name: String,
        variant_name: String,
        fields: EnumInitFields,
    },
}

#[derive(Debug, Clone)]
pub enum Literal {
    Integer(i64),
    /// The characters the literal was written with.
    Float(String),
    String(String),
    Boolean(bool),
}

#[derive(Debug)]
pub struct MatchArm {
    pub pattern: Pattern,
    pub guard: Option<Box<Expr>>,
    pub body: Vec<Expr>,
}

#[derive(Debug)]
pub enum Pattern {
    Literal(Literal),
    Variable(String),
    Wildcard,
    Tuple(Vec<Pattern>),
    Struct {
        name: String,
        fields: Vec<StructPatternField>,
    },
    EnumVariant {
        name: String,
        fields: Vec<Pattern>,
    },
    Or(Vec<Pattern>),
}

#[derive(Debug)]
pub enum StructPatternField {
    Shorthand(String),
    Typed { name: String, pattern: Pattern },
}

#[derive(Debug)]
pub struct RowTypeField {
    pub name: String,
    pub type_annotation: TypeAnnotation,
}

#[derive(Debug)]
pub enum ArrayElement {
    Value(Expr),
    Spread(Expr),
}

#[derive(Debug)]
pub enum RowField {
    Field { name: String, value: Expr },
    Spread(Expr),
}

#[derive(Debug)]
pub enum StructInitField {
    Field { name: String, value: Expr },
    Spread(Expr),
}

#[derive(Debug)]
pub enum EnumInitFields {
    Tuple(Vec<Expr>),
    Struct(Vec<StructInitField>),
}

/// A copy of a type annotation.
pub fn copy_type_annotation(ta: &TypeAnnotation) -> (r: TypeAnnotation)
    ensures
        annotation_view(r) == annotation_view(*ta),
    decreases ta, 0nat,
{
    TypeAnnotation { meta: ta.meta.copy(), kind: copy_type_annotation_kind(&ta.kind) }
}

/// A copy of the shape of a type annotation.
pub fn copy_type_annotation_kind(k: &TypeAnnotationKind) -> (r: TypeAnnotationKind)
    ensures
        match (*k, r) {
            (
                TypeAnnotationKind::Constructor { name, generic_args },
                TypeAnnotationKind::Constructor { name: n2, generic_args: g2 },
            ) => n2@ == name@ && annotations_view(g2@) == annotations_view(generic_args@),
            (TypeAnnotationKind::Tuple(x), TypeAnnotationKind::Tuple(y)) => annotations_view(y@) == annotations_view(x@),
            (
                TypeAnnotationKind::Function { args, return_type },
                TypeAnnotationKind::Function { args: a2, return_type: r2 },
            ) => annotations_view(a2@) == annotations_view(args@) && annotation_view(*r2) == annotation_view(*return_type),
            (
                TypeAnnotationKind::Array { element_type, size },
                TypeAnnotationKind::Array { element_type: e2, size: s2 },
            ) => s2 == size && annotation_view(*e2) == annotation_view(*element_type),
            (TypeAnnotationKind::Row(f), TypeAnnotationKind::Row(g)) => row_fields_view(g@) == row_fields_view(f@),
            _ => false,
        },
    decreases k, 0nat,
{
    match k {
        TypeAnnotationKind::Constructor { name, generic_args } => TypeAnnotationKind::Constructor {
            name: name.clone(),
            generic_args: copy_type_annotations(generic_args),
        },
        TypeAnnotationKind::Tuple(ts) => TypeAnnotationKind::Tuple(copy_type_annotations(ts)),
        TypeAnnotationKind::Function { args, return_type } => TypeAnnotationKind::Function {
            args: copy_type_annotations(args),
            return_type: Box::new(copy_type_annotation(return_type)),
        },
        TypeAnnotationKind::Array { element_type, size } => TypeAnnotationKind::Array {
            element_type: Box::new(copy_type_annotation(element_type)),
            size: *size,
        },
        TypeAnnotationKind::Row(fields) => TypeAnnotationKind::Row(copy_row_type_fields(fields)),
    }
}

/// A copy of the fields of a row type annotation.
pub fn copy_row_type_fields(fields: &Vec<RowTypeField>) -> (r: Vec<RowTypeField>)
    ensures
        row_fields_view(r@) == row_fields_view(fields@),
    decreases fields, 0nat,
{
    let mut out: Vec<RowTypeField> = Vec::new();
    let mut i: usize = 0;
    proof {
        assert(row_fields_view(out@) =~= row_fields_view(fields@.subrange(0, 0)));
    }
    while i < fields.len()
        invariant
            i <= fields@.len(),
            row_fields_view(out@) == row_fields_view(fields@.subrange(0, i as int)),
        decreases fields.len() - i,
    {
        proof {
            assert(decreases_to!(fields => fields[i as int]));
            assert(decreases_to!(fields[i as int] => fields[i as int].type_annotation));
        }
        let field = RowTypeField {
            name: fields[i].name.clone(),
            type_annotation: copy_type_annotation(&fields[i].type_annotation),
        };
        let ghost before = out@;
        out.push(field);
        proof {
            assert(out@.drop_last() =~= before);
            assert(fields@.subrange(0, i as int + 1).drop_last() =~= fields@.subrange(0, i as int));
        }
        i = i + 1;
    }
    proof {
        assert(fields@.subrange(0, fields@.len() as int) =~= fields@);
    }
    out
}

/// A copy of a list of type annotations.
pub fn copy_type_annotations(ts: &Vec<TypeAnnotation>) -> (r: Vec<TypeAnnotation>)
    ensures
        annotations_view(r@) == annotations_view(ts@),
    decreases ts, 0nat,
{
    let mut out: Vec<TypeAnnotation> = Vec::new();
    let mut i: usize = 0;
    proof {
        assert(annotations_view(out@) =~= annotations_view(ts@.subrange(0, 0)));
    }
    while i < ts.len()
        invariant
            i <= ts@.len(),
            annotations_view(out@) == annotations_view(ts@.subrange(0, i as int)),
        decreases ts.len() - i,
    {
        proof {
            assert(decreases_to!(ts => ts[i as int]));
        }
        let copy = copy_type_annotation(&ts[i]);
        let ghost before = out@;
        out.push(copy);
        proof {
            assert(out@.drop_last() =~= before);
            assert(ts@.subrange(0, i as int + 1).drop_last() =~= ts@.subrange(0, i as int));
        }
        i = i + 1;
    }
    proof {
        assert(ts@.subrange(0, ts@.len() as int) =~= ts@);
    }
    out
}

impl Clone for TypeAnnotation {
    fn clone(&self) -> (r: Self)
        ensures
            annotation_view(r) == annotation_view(*self),
    {
        copy_type_annotation(self)
    }
}

impl Clone for TypeAnnotationKind {
    fn clone(&self) -> Self {
        copy_type_annotation_kind(self)
    }
}

impl Clone for RowTypeField {
    fn clone(&self) -> Self {
        RowTypeField {
            name: self.name.clone(),
            type_annotation: copy_type_annotation(&self.type_annotation),
        }
    }
}

} // verus!
