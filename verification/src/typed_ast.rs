use vstd::prelude::*;
use crate::parser::grammar::AnnotationV;
use crate::meta::Meta;

verus! {

/// A type of the language, as the type checker infers it.
#[derive(Debug, PartialEq)]
pub enum Type {
    Var(TypeVar),
    Con {
        name: String,
        args: Vec<Type>,
    },
    Tuple(Vec<Type>),
    Fun {
        args: Vec<Type>,
        ret: Box<Type>,
    },
    Array {
        elem: Box<Type>,
        size: Option<usize>,
    },
    Row(Vec<(String, Type)>),
    Rec(Box<Type>),
}

/// A type variable, named by a number.
#[derive(Debug, Clone, PartialEq, Eq, Hash, Copy)]
pub struct TypeVar(pub usize);

/// A program whose nodes carry their types.
pub type TypedProgram = Vec<TypedAstNode>;

#[derive(Debug)]
pub struct TypedAstNode {
    pub meta: Meta,
    pub kind: TypedAstNodeKind,
    pub typ: Type,
}

#[derive(Debug)]
pub enum TypedAstNodeKind {
    Function {
        name: String,
        args: Vec<TypedFunctionParam>,
        return_type: Option<TypeAnnotation>,
        generic_params: Vec<GenericParam>,
        body: Vec<TypedExpr>,
    },
    Struct {
        name: String,
        generic_params: Vec<GenericParam>,
        fields: Vec<TypedStructField>,
    },
    Enum {
        name: String,
        generic_params: Vec<GenericParam>,
        variants: Vec<TypedEnumVariant>,
    },
    Trait {
        name: String,
        generic_params: Vec<GenericParam>,
        methods: Vec<TypedMethodSignature>,
    },
    Impl {
        trait_name: Option<String>,
        for_type: TypeAnnotation,
        methods: Vec<TypedAstNode>,
    },
    Extern {
        name: String,
        args: Vec<TypedFunctionParam>,
        return_type: Option<TypeAnnotation>,
    },
    Const {
        name: String,
        type_annotation: Option<TypeAnnotation>,
        value: TypedExpr,
    },
    Import {
        path: String,
        items: Vec<ImportItem>,
    },
}

#[derive(Debug, Clone)]
pub struct ImportItem {
    pub name: String,
    pub alias: Option<String>,
}

#[derive(Debug, Clone)]
pub struct TypedMethodSignature {
    pub name: String,
    pub args: Vec<TypedMethodParam>,
    pub return_type: Option<TypeAnnotation>,
    pub generic_params: Vec<GenericParam>,
    pub meta: Meta,
    pub typ: Type,
}

#[derive(Debug, Clone)]
pub enum TypedMethodParam {
    SelfParam {
        typ: Type,
    },
    TypedParam {
        name: String,
        type_annotation: TypeAnnotation,
        typ: Type,
    },
}

#[derive(Debug, Clone)]
pub struct TypedStructField {
    pub name: String,
    pub type_annotation: TypeAnnotation,
    pub meta: Meta,
    pub typ: Type,
}

#[derive(Debug, Clone)]
pub enum TypedEnumVariant {
    Tuple {
        name: String,
        fields: Vec<TypeAnnotation>,
        meta: Meta,
        typ: Type,
    },
    Struct {
        name: String,
        fields: Vec<TypedStructField>,
        meta: Meta,
        typ: Type,
    },
}

#[derive(Debug, Clone)]
pub struct TypedFunctionParam {
    pub name: String,
    pub type_annotation: TypeAnnotation,
    pub typ: Type,
}

#[derive(Debug)]
pub struct TypeAnnotation {
    pub meta: Meta,
    pub kind: TypeAnnotationKind,
}

#[derive(Debug)]
pub enum TypeAnnotationKind {
    Constructor {
        name: String,
        generic_args: Vec<TypeAnnotation>,
    },
    Tuple(Vec<TypeAnnotation>),
    Function {
        args: Vec<TypeAnnotation>,
        return_type: Box<TypeAnnotation>,
    },
    Array {
        element_type: Box<TypeAnnotation>,
        size: Option<usize>,
    },
    Row(Vec<RowTypeField>),
}

#[derive(Debug, Clone)]
pub struct GenericParam {
    pub name: String,
    pub constraints: Vec<TypeAnnotation>,
}

#[derive(Debug)]
pub struct TypedExpr {
    pub meta: Meta,
    pub kind: TypedExprKind,
    pub typ: Type,
}

#[derive(Debug)]
pub enum TypedExprKind {
    Literal(TypedLiteral),
    Array(Vec<TypedArrayElement>),
    Tuple(Vec<TypedExpr>),
    Row(Vec<TypedRowField>),
    Variable(String),
    Let {
        name: String,
        type_annotation: Option<TypeAnnotation>,
        value: Box<TypedExpr>,
    },
    Assign {
        target: Box<TypedExpr>,
        value: Box<TypedExpr>,
    },
    UnaryOp {
        operator: String,
        operand: Box<TypedExpr>,
    },
    BinaryOp {
        left: Box<TypedExpr>,
        operator: String,
        right: Box<TypedExpr>,
    },
    Cast(Box<TypedExpr>, TypeAnnotation),
    EarlyReturn(Box<TypedExpr>),
    DotAccess {
        value: Box<TypedExpr>,
        field: String,
    },
    Index {
        value: Box<TypedExpr>,
        index: Box<TypedExpr>,
    },
    FunctionCall {
        function: Box<TypedExpr>,
        args: Vec<TypedExpr>,
    },
    If {
        condition: Box<TypedExpr>,
        then_branch: Vec<TypedExpr>,
        else_branch: Option<Vec<TypedExpr>>,
    },
    While {
        condition: Box<TypedExpr>,
        body: Vec<TypedExpr>,
    },
    For {
        iterator: String,
        iterable: Box<TypedExpr>,
        body: Vec<TypedExpr>,
    },
    Range {
        start: Box<TypedExpr>,
        end: Box<TypedExpr>,
        inclusive: bool,
    },
    Break,
    Continue,
    Return(Option<Box<TypedExpr>>),
    Block {
        expressions: Vec<TypedExpr>,
    },
    Do(Vec<TypedExpr>),
    Lambda {
        params: Vec<TypedFunctionParam>,
        return_type: Option<TypeAnnotation>,
        body: Box<TypedExpr>,
    },
    Match {
        value: Box<TypedExpr>,
        arms: Vec<TypedMatchArm>,
    },
    StructInit {
        name: String,
        fields: Vec<TypedStructInitField>,
    },
    EnumInit {
        enum_name: String,
        variant_name: String,
        fields: TypedEnumInitFields,
    },
}

#[derive(Debug, Clone)]
pub enum TypedLiteral {
    Integer(i64),
    /// The characters the literal was written with.
    Float(String),
    String(String),
    Boolean(bool),
}

#[derive(Debug)]
pub struct TypedMatchArm {
    pub pattern: TypedPattern,
    pub guard: Option<Box<TypedExpr>>,
    pub body: Vec<TypedExpr>,
    pub typ: Type,
}

#[derive(Debug)]
pub enum TypedPattern {
    Literal(TypedLiteral),
    Variable(String),
    Wildcard,
    Tuple(Vec<TypedPattern>),
    Struct {
        name: String,
        fields: Vec<TypedStructPatternField>,
    },
    EnumVariant {
        name: String,
        fields: Vec<TypedPattern>,
    },
    Or(Vec<TypedPattern>),
}

#[derive(Debug)]
pub enum TypedStructPatternField {
    Shorthand(String),
    Typed { name: String, pattern: TypedPattern },
}

#[derive(Debug)]
pub struct RowTypeField {
    pub name: String,
    pub type_annotation: TypeAnnotation,
}

#[derive(Debug)]
pub enum TypedArrayElement {
    Value(TypedExpr),
    Spread(TypedExpr),
}

#[derive(Debug)]
pub enum TypedRowField {
    Field { name: String, value: TypedExpr },
    Spread(TypedExpr),
}

#[derive(Debug)]
pub enum TypedStructInitField {
    Field { name: String, value: TypedExpr },
    Spread(TypedExpr),
}

#[derive(Debug)]
pub enum TypedEnumInitFields {
    Tuple(Vec<TypedExpr>),
    Struct(Vec<TypedStructInitField>),
}

/// The value of a type annotation of the typed tree: its form, names and
/// sizes, without source positions.
pub open spec fn annotation_value(ta: TypeAnnotation) -> AnnotationV
    decreases ta, 0nat,
{
    match ta.kind {
        TypeAnnotationKind::Constructor { name, generic_args } => AnnotationV::Constructor {
            name: name@,
            args: annotation_values(generic_args@),
        },
        TypeAnnotationKind::Tuple(ts) => AnnotationV::Tuple(annotation_values(ts@)),
        TypeAnnotationKind::Function { args, return_type } => AnnotationV::Function {
            args: annotation_values(args@),
            ret: Box::new(annotation_value(*return_type)),
        },
        TypeAnnotationKind::Array { element_type, size } => AnnotationV::Array {
            elem: Box::new(annotation_value(*element_type)),
            size,
        },
        TypeAnnotationKind::Row(fields) => AnnotationV::Row(row_field_values(fields@)),
    }
}

/// The values of a sequence of type annotations of the typed tree.
pub open spec fn annotation_values(tas: Seq<TypeAnnotation>) -> Seq<AnnotationV>
    decreases tas, tas.len(),
{
    if tas.len() == 0 {
        Seq::empty()
    } else {
        annotation_values(tas.drop_last()).push(annotation_value(tas.last()))
    }
}

/// The names and values of the fields of a row annotation of the typed tree.
pub open spec fn row_field_values(fs: Seq<RowTypeField>) -> Seq<(Seq<char>, AnnotationV)>
    decreases fs, fs.len(),
{
    if fs.len() == 0 {
        Seq::empty()
    } else {
        row_field_values(fs.drop_last()).push((fs.last().name@, annotation_value(fs.last().type_annotation)))
    }
}

/// A copy of a type annotation.
pub fn copy_type_annotation(ta: &TypeAnnotation) -> (r: TypeAnnotation)
    ensures
        annotation_value(r) == annotation_value(*ta),
    decreases ta, 0nat,
{
    TypeAnnotation { meta: ta.meta.copy(), kind: copy_type_annotation_kind(&ta.kind) }
}

/// A copy of the shape of a type annotation.
pub fn copy_type_annotation_kind(k: &TypeAnnotationKind) -> (r: TypeAnnotationKind)
    ensures
        match (*k, r) {
            (
                TypeAnnotationKind::Constructor { name, generic_args },
                TypeAnnotationKind::Constructor { name: n2, generic_args: g2 },
            ) => n2@ == name@ && annotation_values(g2@) == annotation_values(generic_args@),
            (TypeAnnotationKind::Tuple(x), TypeAnnotationKind::Tuple(y)) => annotation_values(y@) == annotation_values(x@),
            (
                TypeAnnotationKind::Function { args, return_type },
                TypeAnnotationKind::Function { args: a2, return_type: r2 },
            ) => annotation_values(a2@) == annotation_values(args@) && annotation_value(*r2) == annotation_value(*return_type),
            (
                TypeAnnotationKind::Array { element_type, size },
                TypeAnnotationKind::Array { element_type: e2, size: s2 },
            ) => s2 == size && annotation_value(*e2) == annotation_value(*element_type),
            (TypeAnnotationKind::Row(f), TypeAnnotationKind::Row(g)) => row_field_values(g@) == row_field_values(f@),
            _ => false,
        },
    decreases k, 0nat,
{
    match k {
        TypeAnnotationKind::Constructor { name, generic_args } => TypeAnnotationKind::Constructor {
            name: name.clone(),
            generic_args: copy_type_annotations(generic_args),
        },
        TypeAnnotationKind::Tuple(ts) => TypeAnnotationKind::Tuple(copy_type_annotations(ts)),
        TypeAnnotationKind::Function { args, return_type } => TypeAnnotationKind::Function {
            args: copy_type_annotations(args),
            return_type: Box::new(copy_type_annotation(return_type)),
        },
        TypeAnnotationKind::Array { element_type, size } => TypeAnnotationKind::Array {
            element_type: Box::new(copy_type_annotation(element_type)),
            size: *size,
        },
        TypeAnnotationKind::Row(fields) => TypeAnnotationKind::Row(copy_row_type_fields(fields)),
    }
}

/// A copy of the fields of a row type annotation.
pub fn copy_row_type_fields(fields: &Vec<RowTypeField>) -> (r: Vec<RowTypeField>)
    ensures
        row_field_values(r@) == row_field_values(fields@),
    decreases fields, 0nat,
{
    let mut out: Vec<RowTypeField> = Vec::new();
    let mut i: usize = 0;
    proof {
        assert(row_field_values(out@) =~= row_field_values(fields@.subrange(0, 0)));
    }
    while i < fields.len()
        invariant
            i <= fields@.len(),
            row_field_values(out@) == row_field_values(fields@.subrange(0, i as int)),
        decreases fields.len() - i,
    {
        proof {
            assert(decreases_to!(fields => fields[i as int]));
            assert(decreases_to!(fields[i as int] => fields[i as int].type_annotation));
        }
        let field = RowTypeField {
            name: fields[i].name.clone(),
            type_annotation: copy_type_annotation(&fields[i].type_annotation),
        };
        let ghost before = out@;
        out.push(field);
        proof {
            assert(out@.drop_last() =~= before);
            assert(fields@.subrange(0, i as int + 1).drop_last() =~= fields@.subrange(0, i as int));
        }
        i = i + 1;
    }
    proof {
        assert(fields@.subrange(0, fields@.len() as int) =~= fields@);
    }
    out
}

/// A copy of a list of type annotations.
pub fn copy_type_annotations(ts: &Vec<TypeAnnotation>) -> (r: Vec<TypeAnnotation>)
    ensures
        annotation_values(r@) == annotation_values(ts@),
    decreases ts, 0nat,
{
    let mut out: Vec<TypeAnnotation> = Vec::new();
    let mut i: usize = 0;
    proof {
        assert(annotation_values(out@) =~= annotation_values(ts@.subrange(0, 0)));
    }
    while i < ts.len()
        invariant
            i <= ts@.len(),
            annotation_values(out@) == annotation_values(ts@.subrange(0, i as int)),
        decreases ts.len() - i,
    {
        proof {
            assert(decreases_to!(ts => ts[i as int]));
        }
        let copy = copy_type_annotation(&ts[i]);
        let ghost before = out@;
        out.push(copy);
        proof {
            assert(out@.drop_last() =~= before);
            assert(ts@.subrange(0, i as int + 1).drop_last() =~= ts@.subrange(0, i as int));
        }
        i = i + 1;
    }
    proof {
        assert(ts@.subrange(0, ts@.len() as int) =~= ts@);
    }
    out
}

impl Clone for TypeAnnotation {
    fn clone(&self) -> (r: Self)
        ensures
            annotation_value(r) == annotation_value(*self),
    {
        copy_type_annotation(self)
    }
}

impl Clone for TypeAnnotationKind {
    fn clone(&self) -> Self {
        copy_type_annotation_kind(self)
    }
}

impl Clone for RowTypeField {
    fn clone(&self) -> Self {
        RowTypeField {
            name: self.name.clone(),
            type_annotation: copy_type_annotation(&self.type_annotation),
        }
    }
}

/// The mathematical value of a [`Type`]: names are sequences of characters
/// and lists are sequences.
pub enum TypeV {
    Var(usize),
    Con { name: Seq<char>, args: Seq<TypeV> },
    Tuple(Seq<TypeV>),
    Fun { args: Seq<TypeV>, ret: Box<TypeV> },
    Array { elem: Box<TypeV>, size: Option<usize> },
    Row(Seq<(Seq<char>, TypeV)>),
    Rec(Box<TypeV>),
}

/// The value of a type.
pub open spec fn type_view(t: Type) -> TypeV
    decreases t, 0nat,
{
    match t {
        Type::Var(v) => TypeV::Var(v.0),
        Type::Con { name, args } => TypeV::Con { name: name@, args: types_view(args@) },
        Type::Tuple(ts) => TypeV::Tuple(types_view(ts@)),
        Type::Fun { args, ret } => TypeV::Fun {
            args: types_view(args@),
            ret: Box::new(type_view(*ret)),
        },
        Type::Array { elem, size } => TypeV::Array { elem: Box::new(type_view(*elem)), size },
        Type::Row(fields) => TypeV::Row(fields_view(fields@)),
        Type::Rec(t) => TypeV::Rec(Box::new(type_view(*t))),
    }
}

/// The values of a sequence of types.
pub open spec fn types_view(ts: Seq<Type>) -> Seq<TypeV>
    decreases ts, ts.len(),
{
    if ts.len() == 0 {
        Seq::empty()
    } else {
        types_view(ts.drop_last()).push(type_view(ts.last()))
    }
}

/// The values of the fields of a row type.
pub open spec fn fields_view(fs: Seq<(String, Type)>) -> Seq<(Seq<char>, TypeV)>
    decreases fs, fs.len(),
{
    if fs.len() == 0 {
        Seq::empty()
    } else {
        fields_view(fs.drop_last()).push((fs.last().0@, type_view(fs.last().1)))
    }
}

impl View for Type {
    type V = TypeV;

    open spec fn view(&self) -> TypeV {
        type_view(*self)
    }
}

/// `types_view` keeps the length and maps each element.
pub proof fn lemma_types_view(ts: Seq<Type>)
    ensures
        types_view(ts).len() == ts.len(),
        forall|i: int| 0 <= i < ts.len() ==> #[trigger] types_view(ts)[i] == type_view(ts[i]),
    decreases ts.len(),
{
    if ts.len() > 0 {
        lemma_types_view(ts.drop_last());
    }
}

/// `fields_view` keeps the length and maps each field.
pub proof fn lemma_fields_view(fs: Seq<(String, Type)>)
    ensures
        fields_view(fs).len() == fs.len(),
        forall|i: int|
            0 <= i < fs.len() ==> #[trigger] fields_view(fs)[i] == (fs[i].0@, type_view(fs[i].1)),
    decreases fs.len(),
{
    if fs.len() > 0 {
        lemma_fields_view(fs.drop_last());
    }
}

/// Two type sequences have equal values when their elements do.
pub proof fn lemma_types_view_ext(a: Seq<Type>, b: Seq<Type>)
    requires
        a.len() == b.len(),
        forall|i: int| 0 <= i < a.len() ==> type_view(#[trigger] a[i]) == type_view(b[i]),
    ensures
        types_view(a) == types_view(b),
{
    lemma_types_view(a);
    lemma_types_view(b);
    assert(types_view(a) =~= types_view(b));
}

/// Two field sequences have equal values when their fields do.
pub proof fn lemma_fields_view_ext(a: Seq<(String, Type)>, b: Seq<(String, Type)>)
    requires
        a.len() == b.len(),
        forall|i: int|
            0 <= i < a.len() ==> (#[trigger] a[i]).0@ == b[i].0@ && type_view(a[i].1) == type_view(
                b[i].1,
            ),
    ensures
        fields_view(a) == fields_view(b),
{
    lemma_fields_view(a);
    lemma_fields_view(b);
    assert(fields_view(a) =~= fields_view(b));
}

/// A copy of a type with the same value.
pub fn copy_type(t: &Type) -> (r: Type)
    ensures
        r@ == t@,
    decreases t, 0nat,
{
    match t {
        Type::Var(v) => Type::Var(TypeVar(v.0)),
        Type::Con { name, args } => {
            let a = copy_types(args);
            proof {
                lemma_types_view_ext(a@, args@);
            }
            Type::Con { name: name.clone(), args: a }
        },
        Type::Tuple(ts) => {
            let a = copy_types(ts);
            proof {
                lemma_types_view_ext(a@, ts@);
            }
            Type::Tuple(a)
        },
        Type::Fun { args, ret } => {
            let a = copy_types(args);
            proof {
                lemma_types_view_ext(a@, args@);
            }
            Type::Fun { args: a, ret: Box::new(copy_type(ret)) }
        },
        Type::Array { elem, size } => Type::Array { elem: Box::new(copy_type(elem)), size: *size },
        Type::Row(fields) => {
            let out = copy_fields(fields);
            proof {
                lemma_fields_view_ext(out@, fields@);
            }
            Type::Row(out)
        },
        Type::Rec(inner) => Type::Rec(Box::new(copy_type(inner))),
    }
}

/// A copy of the fields of a row type with the same values.
pub fn copy_fields(fields: &Vec<(String, Type)>) -> (r: Vec<(String, Type)>)
    ensures
        r@.len() == fields@.len(),
        forall|k: int|
            0 <= k < fields@.len() ==> (#[trigger] r@[k]).0@ == fields@[k].0@ && type_view(r@[k].1)
                == type_view(fields@[k].1),
    decreases fields, 0nat,
{
        let mut out: Vec<(String, Type)> = Vec::new();
        let mut i: usize = 0;
        while i < fields.len()
            invariant
                i <= fields.len(),
                out@.len() == i,
                forall|k: int|
                    0 <= k < i ==> (#[trigger] out@[k]).0@ == fields@[k].0@ && type_view(
                        out@[k].1,
                    ) == type_view(fields@[k].1),
            decreases fields.len() - i,
        {
            proof {
                assert(decreases_to!(fields => fields[i as int]));
                assert(decreases_to!(fields[i as int] => fields[i as int].1));
            }
            let name = fields[i].0.clone();
            let ty = copy_type(&fields[i].1);
            out.push((name, ty));
            i = i + 1;
        }
    out
}

/// A copy of a list of types with the same values.
pub fn copy_types(ts: &Vec<Type>) -> (r: Vec<Type>)
    ensures
        r@.len() == ts@.len(),
        forall|i: int| 0 <= i < ts@.len() ==> type_view(#[trigger] r@[i]) == type_view(ts@[i]),
    decreases ts, 0nat,
{
    let mut out: Vec<Type> = Vec::new();
    let mut i: usize = 0;
    while i < ts.len()
        invariant
            i <= ts.len(),
            out@.len() == i,
            forall|k: int| 0 <= k < i ==> type_view(#[trigger] out@[k]) == type_view(ts@[k]),
        decreases ts.len() - i,
    {
        proof {
            assert(decreases_to!(ts => ts[i as int]));
        }
        out.push(copy_type(&ts[i]));
        i = i + 1;
    }
    out
}

impl Clone for Type {
    fn clone(&self) -> (r: Self)
        ensures
            r@ == self@,
    {
        copy_type(self)
    }
}

} // verus!
