//! From written annotations and patterns to types and typed patterns.
use vstd::prelude::*;
use crate::ast;
use crate::typechecker::mirror::{
    same_annotation, same_annotations, same_generic_param, same_generic_params, same_literal,
    same_pattern, same_pattern_field, same_pattern_fields, same_patterns, same_row_type_fields,
};
use crate::text::str_eq;
use crate::typechecker::{after, same_but_counter, same_decls, TypeChecker};
use crate::typed_ast::{
    copy_type, fields_view, lemma_fields_view, lemma_types_view, type_view, types_view, Type, TypeV,
    TypeVar,
};
use crate::typed_ast;

verus! {

/// Whether an annotation names `Self` somewhere.
pub open spec fn mentions_self(ta: ast::TypeAnnotation) -> bool
    decreases ta,
{
    match ta.kind {
        ast::TypeAnnotationKind::Constructor { name, generic_args } => name@ == "Self"@ || exists|i: int|
            0 <= i < generic_args@.len() && mentions_self(#[trigger] generic_args@[i]),
        ast::TypeAnnotationKind::Tuple(ts) => exists|i: int| 0 <= i < ts@.len() && mentions_self(#[trigger] ts@[i]),
        ast::TypeAnnotationKind::Function { args, return_type } => mentions_self(*return_type) || exists|i: int|
            0 <= i < args@.len() && mentions_self(#[trigger] args@[i]),
        ast::TypeAnnotationKind::Array { element_type, .. } => mentions_self(*element_type),
        ast::TypeAnnotationKind::Row(fields) => exists|i: int|
            0 <= i < fields@.len() && mentions_self(#[trigger] fields@[i].type_annotation),
    }
}

/// The type an annotation stands for, with `gm` giving the types of the
/// generic parameters in scope and `st` the type that `Self` names.
pub open spec fn annotation_type(ta: ast::TypeAnnotation, gm: Map<Seq<char>, Type>, st: Option<Type>) -> TypeV
    decreases ta, 0nat,
{
    match ta.kind {
        ast::TypeAnnotationKind::Constructor { name, generic_args } => if name@ == "Self"@ {
            match st {
                Some(t) => t@,
                None => TypeV::Var(0),
            }
        } else if gm.contains_key(name@) {
            gm[name@]@
        } else {
            TypeV::Con { name: name@, args: annotation_types(generic_args@, gm, st) }
        },
        ast::TypeAnnotationKind::Tuple(ts) => TypeV::Tuple(annotation_types(ts@, gm, st)),
        ast::TypeAnnotationKind::Function { args, return_type } => TypeV::Fun {
            args: annotation_types(args@, gm, st),
            ret: Box::new(annotation_type(*return_type, gm, st)),
        },
        ast::TypeAnnotationKind::Array { element_type, size } => TypeV::Array {
            elem: Box::new(annotation_type(*element_type, gm, st)),
            size,
        },
        ast::TypeAnnotationKind::Row(fields) => TypeV::Row(annotation_fields(fields@, gm, st)),
    }
}

/// `annotation_type` of each annotation of a sequence.
pub open spec fn annotation_types(tas: Seq<ast::TypeAnnotation>, gm: Map<Seq<char>, Type>, st: Option<Type>) -> Seq<TypeV>
    decreases tas, tas.len(),
{
    if tas.len() == 0 {
        Seq::empty()
    } else {
        annotation_types(tas.drop_last(), gm, st).push(annotation_type(tas.last(), gm, st))
    }
}

/// The names and types of the fields of a row annotation.
pub open spec fn annotation_fields(fs: Seq<ast::RowTypeField>, gm: Map<Seq<char>, Type>, st: Option<Type>) -> Seq<(Seq<char>, TypeV)>
    decreases fs, fs.len(),
{
    if fs.len() == 0 {
        Seq::empty()
    } else {
        annotation_fields(fs.drop_last(), gm, st).push(
            (fs.last().name@, annotation_type(fs.last().type_annotation, gm, st)),
        )
    }
}

/// The type an annotation stands for when it is converted with the counter
/// of fresh variables at `n`, and the counter after: `Self` outside an impl
/// takes the next fresh variable; everything else is as in
/// `annotation_type`.
pub open spec fn annotation_run(ta: ast::TypeAnnotation, gm: Map<Seq<char>, Type>, st: Option<Type>, n: usize) -> (
    TypeV,
    usize,
)
    decreases ta, 0nat,
{
    match ta.kind {
        ast::TypeAnnotationKind::Constructor { name, generic_args } => if name@ == "Self"@ {
            match st {
                Some(t) => (t@, n),
                None => (TypeV::Var(n), after(n)),
            }
        } else if gm.contains_key(name@) {
            (gm[name@]@, n)
        } else {
            let args = annotation_runs(generic_args@, gm, st, n);
            (TypeV::Con { name: name@, args: args.0 }, args.1)
        },
        ast::TypeAnnotationKind::Tuple(ts) => {
            let parts = annotation_runs(ts@, gm, st, n);
            (TypeV::Tuple(parts.0), parts.1)
        },
        ast::TypeAnnotationKind::Function { args, return_type } => {
            let parts = annotation_runs(args@, gm, st, n);
            let ret = annotation_run(*return_type, gm, st, parts.1);
            (TypeV::Fun { args: parts.0, ret: Box::new(ret.0) }, ret.1)
        },
        ast::TypeAnnotationKind::Array { element_type, size } => {
            let elem = annotation_run(*element_type, gm, st, n);
            (TypeV::Array { elem: Box::new(elem.0), size }, elem.1)
        },
        ast::TypeAnnotationKind::Row(fields) => {
            let parts = annotation_fields_run(fields@, gm, st, n);
            (TypeV::Row(parts.0), parts.1)
        },
    }
}

/// `annotation_run` on each annotation of a list in turn, the counter
/// going on from one to the next.
pub open spec fn annotation_runs(tas: Seq<ast::TypeAnnotation>, gm: Map<Seq<char>, Type>, st: Option<Type>, n: usize) -> (
    Seq<TypeV>,
    usize,
)
    decreases tas, tas.len(),
{
    if tas.len() == 0 {
        (Seq::empty(), n)
    } else {
        let init = annotation_runs(tas.drop_last(), gm, st, n);
        let last = annotation_run(tas.last(), gm, st, init.1);
        (init.0.push(last.0), last.1)
    }
}

/// `annotation_run` on the type of each field of a row in turn.
pub open spec fn annotation_fields_run(
    fs: Seq<ast::RowTypeField>,
    gm: Map<Seq<char>, Type>,
    st: Option<Type>,
    n: usize,
) -> (Seq<(Seq<char>, TypeV)>, usize)
    decreases fs, fs.len(),
{
    if fs.len() == 0 {
        (Seq::empty(), n)
    } else {
        let init = annotation_fields_run(fs.drop_last(), gm, st, n);
        let last = annotation_run(fs.last().type_annotation, gm, st, init.1);
        (init.0.push((fs.last().name@, last.0)), last.1)
    }
}

pub proof fn lemma_annotation_types(tas: Seq<ast::TypeAnnotation>, gm: Map<Seq<char>, Type>, st: Option<Type>)
    ensures
        annotation_types(tas, gm, st).len() == tas.len(),
        forall|i: int|
            0 <= i < tas.len() ==> #[trigger] annotation_types(tas, gm, st)[i] == annotation_type(tas[i], gm, st),
    decreases tas.len(),
{
    if tas.len() > 0 {
        lemma_annotation_types(tas.drop_last(), gm, st);
    }
}

pub proof fn lemma_annotation_fields(fs: Seq<ast::RowTypeField>, gm: Map<Seq<char>, Type>, st: Option<Type>)
    ensures
        annotation_fields(fs, gm, st).len() == fs.len(),
        forall|i: int|
            0 <= i < fs.len() ==> #[trigger] annotation_fields(fs, gm, st)[i] == (
                fs[i].name@,
                annotation_type(fs[i].type_annotation, gm, st),
            ),
    decreases fs.len(),
{
    if fs.len() > 0 {
        lemma_annotation_fields(fs.drop_last(), gm, st);
    }
}

/// The type `t` has the form that the annotation `ta` writes: `Self` is
/// the type `st` where there is one and a variable otherwise, a generic
/// parameter of `gm` is its type there, any other type constructor is that
/// constructor with as many arguments, a tuple has as many parts, a
/// function as many parameters, an array the same size, a row the same
/// field names in order, and each part has the form of its annotation.
pub open spec fn keeps_form(ta: ast::TypeAnnotation, gm: Map<Seq<char>, Type>, st: Option<Type>, t: TypeV) -> bool
    decreases ta, 0nat,
{
    match ta.kind {
        ast::TypeAnnotationKind::Constructor { name, generic_args } => if name@ == "Self"@ {
            match st {
                Some(x) => t == x@,
                None => t is Var,
            }
        } else if gm.contains_key(name@) {
            t == gm[name@]@
        } else {
            t matches TypeV::Con { name: n, args } && n == name@ && forms_kept(generic_args@, gm, st, args)
        },
        ast::TypeAnnotationKind::Tuple(ts) => (t matches TypeV::Tuple(xs) && forms_kept(ts@, gm, st, xs)),
        ast::TypeAnnotationKind::Function { args, return_type } => (t matches TypeV::Fun { args: xs, ret }
            && forms_kept(args@, gm, st, xs) && keeps_form(*return_type, gm, st, *ret)),
        ast::TypeAnnotationKind::Array { element_type, size } => (t matches TypeV::Array { elem, size: k } && k
            == size && keeps_form(*element_type, gm, st, *elem)),
        ast::TypeAnnotationKind::Row(fields) => (t matches TypeV::Row(fs) && fields_kept(fields@, gm, st, fs)),
    }
}

/// `keeps_form` for each annotation of a list and the type beside it.
pub open spec fn forms_kept(tas: Seq<ast::TypeAnnotation>, gm: Map<Seq<char>, Type>, st: Option<Type>, xs: Seq<TypeV>) -> bool
    decreases tas, tas.len(),
{
    &&& xs.len() == tas.len()
    &&& tas.len() > 0 ==> forms_kept(tas.drop_last(), gm, st, xs.drop_last()) && keeps_form(tas.last(), gm, st, xs.last())
}

/// `keeps_form` for the fields of a row: the same names in order, each
/// type of the form of its annotation.
pub open spec fn fields_kept(fs: Seq<ast::RowTypeField>, gm: Map<Seq<char>, Type>, st: Option<Type>, xs: Seq<(Seq<char>, TypeV)>) -> bool
    decreases fs, fs.len(),
{
    &&& xs.len() == fs.len()
    &&& fs.len() > 0 ==> fields_kept(fs.drop_last(), gm, st, xs.drop_last()) && xs.last().0 == fs.last().name@
        && keeps_form(fs.last().type_annotation, gm, st, xs.last().1)
}

/// Converting an annotation keeps its form (see `keeps_form`), both with
/// and without the counter of fresh variables: in particular an array
/// annotation becomes an array type of the same size.
pub proof fn law_conversion_keeps_form(ta: ast::TypeAnnotation, gm: Map<Seq<char>, Type>, st: Option<Type>, n: usize)
    ensures
        keeps_form(ta, gm, st, annotation_type(ta, gm, st)),
        keeps_form(ta, gm, st, annotation_run(ta, gm, st, n).0),
    decreases ta, 0nat,
{
    match ta.kind {
        ast::TypeAnnotationKind::Constructor { generic_args, .. } => {
            lemma_types_keep_forms(generic_args@, gm, st, n);
        },
        ast::TypeAnnotationKind::Tuple(ts) => {
            lemma_types_keep_forms(ts@, gm, st, n);
        },
        ast::TypeAnnotationKind::Function { args, return_type } => {
            lemma_types_keep_forms(args@, gm, st, n);
            law_conversion_keeps_form(*return_type, gm, st, annotation_runs(args@, gm, st, n).1);
        },
        ast::TypeAnnotationKind::Array { element_type, .. } => {
            law_conversion_keeps_form(*element_type, gm, st, n);
        },
        ast::TypeAnnotationKind::Row(fields) => {
            lemma_fields_keep_forms(fields@, gm, st, n);
        },
    }
}

/// `law_conversion_keeps_form` for a list of annotations.
pub proof fn lemma_types_keep_forms(tas: Seq<ast::TypeAnnotation>, gm: Map<Seq<char>, Type>, st: Option<Type>, n: usize)
    ensures
        forms_kept(tas, gm, st, annotation_types(tas, gm, st)),
        forms_kept(tas, gm, st, annotation_runs(tas, gm, st, n).0),
    decreases tas, tas.len(),
{
    if tas.len() > 0 {
        lemma_types_keep_forms(tas.drop_last(), gm, st, n);
        law_conversion_keeps_form(tas.last(), gm, st, annotation_runs(tas.drop_last(), gm, st, n).1);
        lemma_annotation_types(tas, gm, st);
        lemma_annotation_types(tas.drop_last(), gm, st);
        assert(annotation_types(tas, gm, st).drop_last() =~= annotation_types(tas.drop_last(), gm, st));
        assert(annotation_runs(tas, gm, st, n).0.drop_last() =~= annotation_runs(tas.drop_last(), gm, st, n).0);
    }
}

/// `law_conversion_keeps_form` for the fields of a row.
pub proof fn lemma_fields_keep_forms(fs: Seq<ast::RowTypeField>, gm: Map<Seq<char>, Type>, st: Option<Type>, n: usize)
    ensures
        fields_kept(fs, gm, st, annotation_fields(fs, gm, st)),
        fields_kept(fs, gm, st, annotation_fields_run(fs, gm, st, n).0),
    decreases fs, fs.len(),
{
    if fs.len() > 0 {
        lemma_fields_keep_forms(fs.drop_last(), gm, st, n);
        law_conversion_keeps_form(fs.last().type_annotation, gm, st, annotation_fields_run(fs.drop_last(), gm, st, n).1);
        lemma_annotation_fields(fs, gm, st);
        lemma_annotation_fields(fs.drop_last(), gm, st);
        assert(annotation_fields(fs, gm, st).drop_last() =~= annotation_fields(fs.drop_last(), gm, st));
        assert(annotation_fields_run(fs, gm, st, n).0.drop_last() =~= annotation_fields_run(fs.drop_last(), gm, st, n).0);
    }
}

/// A stored type with the generic parameters of `gm` replaced by their
/// types: a constructor named like a generic parameter stands for it.
pub open spec fn mapped_type(t: TypeV, gm: Map<Seq<char>, Type>) -> TypeV
    decreases t, 0nat,
{
    match t {
        TypeV::Var(_) => t,
        TypeV::Con { name, args } => if gm.contains_key(name) {
            gm[name]@
        } else {
            TypeV::Con { name, args: mapped_types(args, gm) }
        },
        TypeV::Tuple(ts) => TypeV::Tuple(mapped_types(ts, gm)),
        TypeV::Fun { args, ret } => TypeV::Fun {
            args: mapped_types(args, gm),
            ret: Box::new(mapped_type(*ret, gm)),
        },
        TypeV::Array { elem, size } => TypeV::Array { elem: Box::new(mapped_type(*elem, gm)), size },
        TypeV::Row(fields) => TypeV::Row(mapped_fields(fields, gm)),
        TypeV::Rec(inner) => TypeV::Rec(Box::new(mapped_type(*inner, gm))),
    }
}

/// `mapped_type` of each type of a sequence.
pub open spec fn mapped_types(ts: Seq<TypeV>, gm: Map<Seq<char>, Type>) -> Seq<TypeV>
    decreases ts, ts.len(),
{
    if ts.len() == 0 {
        Seq::empty()
    } else {
        mapped_types(ts.drop_last(), gm).push(mapped_type(ts.last(), gm))
    }
}

/// `mapped_type` of the type of each field of a row.
pub open spec fn mapped_fields(fs: Seq<(Seq<char>, TypeV)>, gm: Map<Seq<char>, Type>) -> Seq<(Seq<char>, TypeV)>
    decreases fs, fs.len(),
{
    if fs.len() == 0 {
        Seq::empty()
    } else {
        mapped_fields(fs.drop_last(), gm).push((fs.last().0, mapped_type(fs.last().1, gm)))
    }
}

pub proof fn lemma_mapped_types(ts: Seq<TypeV>, gm: Map<Seq<char>, Type>)
    ensures
        mapped_types(ts, gm).len() == ts.len(),
        forall|i: int| 0 <= i < ts.len() ==> #[trigger] mapped_types(ts, gm)[i] == mapped_type(ts[i], gm),
    decreases ts.len(),
{
    if ts.len() > 0 {
        lemma_mapped_types(ts.drop_last(), gm);
    }
}

pub proof fn lemma_mapped_fields(fs: Seq<(Seq<char>, TypeV)>, gm: Map<Seq<char>, Type>)
    ensures
        mapped_fields(fs, gm).len() == fs.len(),
        forall|i: int|
            0 <= i < fs.len() ==> #[trigger] mapped_fields(fs, gm)[i] == (fs[i].0, mapped_type(fs[i].1, gm)),
    decreases fs.len(),
{
    if fs.len() > 0 {
        lemma_mapped_fields(fs.drop_last(), gm);
    }
}

/// The environment and the counter of fresh variables after checking the
/// pattern `p` from the environment `env` and the counter at `n`: each
/// name that `p` binds, from left to right, gets the next fresh variable,
/// and a name bound again keeps its later variable.
pub open spec fn pattern_run(p: ast::Pattern, env: Map<Seq<char>, Type>, n: usize) -> (Map<Seq<char>, Type>, usize)
    decreases p, 0nat,
{
    match p {
        ast::Pattern::Variable(name) => (env.insert(name@, Type::Var(TypeVar(n))), after(n)),
        ast::Pattern::Tuple(ps) => patterns_run(ps@, env, n),
        ast::Pattern::Struct { fields, .. } => pattern_fields_run(fields@, env, n),
        ast::Pattern::EnumVariant { fields, .. } => patterns_run(fields@, env, n),
        ast::Pattern::Or(ps) => patterns_run(ps@, env, n),
        _ => (env, n),
    }
}

/// `pattern_run` on each pattern of a list in turn.
pub open spec fn patterns_run(ps: Seq<ast::Pattern>, env: Map<Seq<char>, Type>, n: usize) -> (Map<Seq<char>, Type>, usize)
    decreases ps, ps.len(),
{
    if ps.len() == 0 {
        (env, n)
    } else {
        let init = patterns_run(ps.drop_last(), env, n);
        pattern_run(ps.last(), init.0, init.1)
    }
}

/// `pattern_run` on each field of a struct pattern in turn: a shorthand
/// field binds its name.
pub open spec fn pattern_fields_run(fs: Seq<ast::StructPatternField>, env: Map<Seq<char>, Type>, n: usize) -> (
    Map<Seq<char>, Type>,
    usize,
)
    decreases fs, fs.len(),
{
    if fs.len() == 0 {
        (env, n)
    } else {
        let init = pattern_fields_run(fs.drop_last(), env, n);
        match fs.last() {
            ast::StructPatternField::Shorthand(name) => (init.0.insert(name@, Type::Var(TypeVar(init.1))), after(init.1)),
            ast::StructPatternField::Typed { pattern, .. } => pattern_run(pattern, init.0, init.1),
        }
    }
}

/// Whether the pattern binds the name `k`.
pub open spec fn pattern_binds(p: ast::Pattern, k: Seq<char>) -> bool
    decreases p,
{
    match p {
        ast::Pattern::Variable(name) => name@ == k,
        ast::Pattern::Tuple(ps) => exists|i: int| 0 <= i < ps@.len() && pattern_binds(#[trigger] ps@[i], k),
        ast::Pattern::Struct { fields, .. } => exists|i: int|
            0 <= i < fields@.len() && field_binds(#[trigger] fields@[i], k),
        ast::Pattern::EnumVariant { fields, .. } => exists|i: int|
            0 <= i < fields@.len() && pattern_binds(#[trigger] fields@[i], k),
        ast::Pattern::Or(ps) => exists|i: int| 0 <= i < ps@.len() && pattern_binds(#[trigger] ps@[i], k),
        _ => false,
    }
}

/// Whether a field of a struct pattern binds the name `k`.
pub open spec fn field_binds(f: ast::StructPatternField, k: Seq<char>) -> bool
    decreases f,
{
    match f {
        ast::StructPatternField::Shorthand(name) => name@ == k,
        ast::StructPatternField::Typed { pattern, .. } => pattern_binds(pattern, k),
    }
}

impl TypeChecker {
    /// The type an annotation stands for. `Self` stands for the type of the
    /// impl being checked, or for a fresh variable outside an impl.
    pub fn convert_to_internal_type(&mut self, ta: &ast::TypeAnnotation) -> (r: Type)
        ensures
            same_but_counter(*old(self), *final(self)),
            old(self).current_impl_type is Some || !mentions_self(*ta) ==> r@ == annotation_type(
                *ta,
                old(self).generic_mapping@,
                old(self).current_impl_type,
            ) && final(self).next_var == old(self).next_var,
            (r@, final(self).next_var) == annotation_run(
                *ta,
                old(self).generic_mapping@,
                old(self).current_impl_type,
                old(self).next_var,
            ),
            keeps_form(*ta, old(self).generic_mapping@, old(self).current_impl_type, r@),
        decreases ta, 0nat,
    {
        proof {
            law_conversion_keeps_form(*ta, self.generic_mapping@, self.current_impl_type, self.next_var);
        }
        match &ta.kind {
            ast::TypeAnnotationKind::Constructor { name, generic_args } => {
                let is_self = str_eq(name.as_str(), "Self");
                proof {
                    reveal_strlit("Self");
                }
                if is_self {
                    match &self.current_impl_type {
                        Some(impl_type) => copy_type(impl_type),
                        None => self.fresh_var(),
                    }
                } else {
                    match self.generic_mapping.get(name.as_str()) {
                        Some(t) => copy_type(t),
                        None => {
                            let args = self.convert_internal_types(generic_args);
                            Type::Con { name: name.clone(), args }
                        },
                    }
                }
            },
            ast::TypeAnnotationKind::Tuple(ts) => Type::Tuple(self.convert_internal_types(ts)),
            ast::TypeAnnotationKind::Function { args, return_type } => {
                let a = self.convert_internal_types(args);
                let ret = self.convert_to_internal_type(return_type);
                Type::Fun { args: a, ret: Box::new(ret) }
            },
            ast::TypeAnnotationKind::Array { element_type, size } => {
                let elem = self.convert_to_internal_type(element_type);
                Type::Array { elem: Box::new(elem), size: *size }
            },
            ast::TypeAnnotationKind::Row(fields) => Type::Row(self.convert_internal_fields(fields)),
        }
    }

    /// The types of a list of annotations, in order.
    fn convert_internal_types(&mut self, tas: &Vec<ast::TypeAnnotation>) -> (r: Vec<Type>)
        ensures
            same_but_counter(*old(self), *final(self)),
            r@.len() == tas@.len(),
            old(self).current_impl_type is Some || (forall|i: int|
                0 <= i < tas@.len() ==> !mentions_self(#[trigger] tas@[i])) ==> types_view(r@)
                == annotation_types(tas@, old(self).generic_mapping@, old(self).current_impl_type)
                && final(self).next_var == old(self).next_var,
            (types_view(r@), final(self).next_var) == annotation_runs(
                tas@,
                old(self).generic_mapping@,
                old(self).current_impl_type,
                old(self).next_var,
            ),
        decreases tas, 0nat,
    {
        let ghost gm = old(self).generic_mapping@;
        let ghost st = old(self).current_impl_type;
        let ghost exact = old(self).current_impl_type is Some || (forall|i: int|
            0 <= i < tas@.len() ==> !mentions_self(#[trigger] tas@[i]));
        let mut out: Vec<Type> = Vec::new();
        let mut i: usize = 0;
        assert(types_view(out@) =~= annotation_runs(tas@.subrange(0, 0), gm, st, old(self).next_var).0);
        while i < tas.len()
            invariant
                i <= tas@.len(),
                out@.len() == i,
                same_but_counter(*old(self), *self),
                gm == old(self).generic_mapping@,
                st == old(self).current_impl_type,
                exact == (old(self).current_impl_type is Some || (forall|i: int|
                    0 <= i < tas@.len() ==> !mentions_self(#[trigger] tas@[i]))),
                exact ==> self.next_var == old(self).next_var,
                exact ==> forall|k: int| 0 <= k < i ==> type_view(#[trigger] out@[k]) == annotation_type(tas@[k], gm, st),
                (types_view(out@), self.next_var) == annotation_runs(
                    tas@.subrange(0, i as int),
                    gm,
                    st,
                    old(self).next_var,
                ),
            decreases tas.len() - i,
        {
            proof {
                assert(decreases_to!(tas => tas[i as int]));
            }
            let ghost prev = out@;
            let t = self.convert_to_internal_type(&tas[i]);
            out.push(t);
            proof {
                let ps = tas@.subrange(0, i as int + 1);
                assert(ps.drop_last() =~= tas@.subrange(0, i as int));
                assert(ps.last() == tas@[i as int]);
                assert(out@.drop_last() =~= prev);
            }
            i = i + 1;
        }
        assert(tas@.subrange(0, i as int) =~= tas@);
        proof {
            lemma_types_view(out@);
            lemma_annotation_types(tas@, gm, st);
            if exact {
                assert(types_view(out@) =~= annotation_types(tas@, gm, st));
            }
        }
        out
    }

    /// The names and types of the fields of a row annotation, in order.
    fn convert_internal_fields(&mut self, fs: &Vec<ast::RowTypeField>) -> (r: Vec<(String, Type)>)
        ensures
            same_but_counter(*old(self), *final(self)),
            r@.len() == fs@.len(),
            old(self).current_impl_type is Some || (forall|i: int|
                0 <= i < fs@.len() ==> !mentions_self(#[trigger] fs@[i].type_annotation)) ==> fields_view(r@)
                == annotation_fields(fs@, old(self).generic_mapping@, old(self).current_impl_type)
                && final(self).next_var == old(self).next_var,
            (fields_view(r@), final(self).next_var) == annotation_fields_run(
                fs@,
                old(self).generic_mapping@,
                old(self).current_impl_type,
                old(self).next_var,
            ),
        decreases fs, 0nat,
    {
        let ghost gm = old(self).generic_mapping@;
        let ghost st = old(self).current_impl_type;
        let ghost exact = old(self).current_impl_type is Some || (forall|i: int|
            0 <= i < fs@.len() ==> !mentions_self(#[trigger] fs@[i].type_annotation));
        let mut out: Vec<(String, Type)> = Vec::new();
        let mut i: usize = 0;
        assert(fields_view(out@) =~= annotation_fields_run(fs@.subrange(0, 0), gm, st, old(self).next_var).0);
        while i < fs.len()
            invariant
                i <= fs@.len(),
                out@.len() == i,
                same_but_counter(*old(self), *self),
                gm == old(self).generic_mapping@,
                st == old(self).current_impl_type,
                exact == (old(self).current_impl_type is Some || (forall|i: int|
                    0 <= i < fs@.len() ==> !mentions_self(#[trigger] fs@[i].type_annotation))),
                exact ==> self.next_var == old(self).next_var,
                forall|k: int| 0 <= k < i ==> (#[trigger] out@[k]).0@ == fs@[k].name@,
                exact ==> forall|k: int|
                    0 <= k < i ==> type_view((#[trigger] out@[k]).1) == annotation_type(fs@[k].type_annotation, gm, st),
                (fields_view(out@), self.next_var) == annotation_fields_run(
                    fs@.subrange(0, i as int),
                    gm,
                    st,
                    old(self).next_var,
                ),
            decreases fs.len() - i,
        {
            proof {
                assert(decreases_to!(fs => fs[i as int]));
                assert(decreases_to!(fs[i as int] => fs[i as int].type_annotation));
            }
            let ghost prev = out@;
            let t = self.convert_to_internal_type(&fs[i].type_annotation);
            out.push((fs[i].name.clone(), t));
            proof {
                let ps = fs@.subrange(0, i as int + 1);
                assert(ps.drop_last() =~= fs@.subrange(0, i as int));
                assert(ps.last() == fs@[i as int]);
                assert(out@.drop_last() =~= prev);
            }
            i = i + 1;
        }
        assert(fs@.subrange(0, i as int) =~= fs@);
        proof {
            lemma_fields_view(out@);
            lemma_annotation_fields(fs@, gm, st);
            if exact {
                assert(fields_view(out@) =~= annotation_fields(fs@, gm, st));
            }
        }
        out
    }

    /// The typed copy of an annotation.
    pub fn convert_type_annotation(&self, ta: &ast::TypeAnnotation) -> (r: typed_ast::TypeAnnotation)
        ensures
            same_annotation(*ta, r),
        decreases ta, 0nat,
    {
        let kind = match &ta.kind {
            ast::TypeAnnotationKind::Constructor { name, generic_args } => typed_ast::TypeAnnotationKind::Constructor {
                name: name.clone(),
                generic_args: self.convert_type_annotations(generic_args),
            },
            ast::TypeAnnotationKind::Tuple(ts) => typed_ast::TypeAnnotationKind::Tuple(self.convert_type_annotations(ts)),
            ast::TypeAnnotationKind::Function { args, return_type } => typed_ast::TypeAnnotationKind::Function {
                args: self.convert_type_annotations(args),
                return_type: Box::new(self.convert_type_annotation(return_type)),
            },
            ast::TypeAnnotationKind::Array { element_type, size } => typed_ast::TypeAnnotationKind::Array {
                element_type: Box::new(self.convert_type_annotation(element_type)),
                size: *size,
            },
            ast::TypeAnnotationKind::Row(fields) => typed_ast::TypeAnnotationKind::Row(self.convert_row_type_fields(fields)),
        };
        typed_ast::TypeAnnotation { meta: ta.meta.copy(), kind }
    }

    /// The typed copies of a list of annotations.
    pub fn convert_type_annotations(&self, tas: &Vec<ast::TypeAnnotation>) -> (r: Vec<typed_ast::TypeAnnotation>)
        ensures
            same_annotations(tas@, r@),
        decreases tas, 0nat,
    {
        let mut out: Vec<typed_ast::TypeAnnotation> = Vec::new();
        let mut i: usize = 0;
        while i < tas.len()
            invariant
                i <= tas@.len(),
                out@.len() == i,
                forall|k: int| 0 <= k < i ==> same_annotation(tas@[k], #[trigger] out@[k]),
            decreases tas.len() - i,
        {
            proof {
                assert(decreases_to!(tas => tas[i as int]));
            }
            out.push(self.convert_type_annotation(&tas[i]));
            i = i + 1;
        }
        out
    }

    /// The typed copies of the fields of a row annotation.
    fn convert_row_type_fields(&self, fs: &Vec<ast::RowTypeField>) -> (r: Vec<typed_ast::RowTypeField>)
        ensures
            same_row_type_fields(fs@, r@),
        decreases fs, 0nat,
    {
        let mut out: Vec<typed_ast::RowTypeField> = Vec::new();
        let mut i: usize = 0;
        while i < fs.len()
            invariant
                i <= fs@.len(),
                out@.len() == i,
                forall|k: int|
                    0 <= k < i ==> fs@[k].name@ == (#[trigger] out@[k]).name@ && same_annotation(
                        fs@[k].type_annotation,
                        out@[k].type_annotation,
                    ),
            decreases fs.len() - i,
        {
            proof {
                assert(decreases_to!(fs => fs[i as int]));
                assert(decreases_to!(fs[i as int] => fs[i as int].type_annotation));
            }
            let ta = self.convert_type_annotation(&fs[i].type_annotation);
            out.push(typed_ast::RowTypeField { name: fs[i].name.clone(), type_annotation: ta });
            i = i + 1;
        }
        out
    }

    /// The typed copies of generic parameters.
    pub fn convert_generic_params(&self, gps: &Vec<ast::GenericParam>) -> (r: Vec<typed_ast::GenericParam>)
        ensures
            same_generic_params(gps@, r@),
    {
        let mut out: Vec<typed_ast::GenericParam> = Vec::new();
        let mut i: usize = 0;
        while i < gps.len()
            invariant
                i <= gps@.len(),
                out@.len() == i,
                forall|k: int| 0 <= k < i ==> same_generic_param(gps@[k], #[trigger] out@[k]),
            decreases gps.len() - i,
        {
            out.push(self.convert_generic_param(&gps[i]));
            i = i + 1;
        }
        out
    }

    /// The typed copy of a generic parameter.
    pub fn convert_generic_param(&self, gp: &ast::GenericParam) -> (r: typed_ast::GenericParam)
        ensures
            same_generic_param(*gp, r),
    {
        typed_ast::GenericParam {
            name: gp.name.clone(),
            constraints: self.convert_type_annotations(&gp.constraints),
        }
    }

    /// A stored type with the generic parameters in scope replaced by their
    /// types.
    pub fn convert_type_with_mapping(&self, t: &Type) -> (r: Type)
        ensures
            r@ == mapped_type(t@, self.generic_mapping@),
        decreases t, 0nat,
    {
        match t {
            Type::Var(v) => Type::Var(TypeVar(v.0)),
            Type::Con { name, args } => match self.generic_mapping.get(name.as_str()) {
                Some(mapped) => copy_type(mapped),
                None => Type::Con { name: name.clone(), args: self.map_types(args) },
            },
            Type::Tuple(ts) => Type::Tuple(self.map_types(ts)),
            Type::Fun { args, ret } => Type::Fun {
                args: self.map_types(args),
                ret: Box::new(self.convert_type_with_mapping(ret)),
            },
            Type::Array { elem, size } => Type::Array {
                elem: Box::new(self.convert_type_with_mapping(elem)),
                size: *size,
            },
            Type::Row(fields) => Type::Row(self.map_fields(fields)),
            Type::Rec(inner) => Type::Rec(Box::new(self.convert_type_with_mapping(inner))),
        }
    }

    /// `convert_type_with_mapping` on each type of a list.
    fn map_types(&self, ts: &Vec<Type>) -> (r: Vec<Type>)
        ensures
            types_view(r@) == mapped_types(types_view(ts@), self.generic_mapping@),
        decreases ts, 0nat,
    {
        proof {
            lemma_types_view(ts@);
            lemma_mapped_types(types_view(ts@), self.generic_mapping@);
        }
        let mut out: Vec<Type> = Vec::new();
        let mut i: usize = 0;
        while i < ts.len()
            invariant
                i <= ts@.len(),
                out@.len() == i,
                forall|k: int|
                    0 <= k < i ==> type_view(#[trigger] out@[k]) == mapped_type(type_view(ts@[k]), self.generic_mapping@),
            decreases ts.len() - i,
        {
            proof {
                assert(decreases_to!(ts => ts[i as int]));
            }
            out.push(self.convert_type_with_mapping(&ts[i]));
            i = i + 1;
        }
        proof {
            lemma_types_view(out@);
            assert(types_view(out@) =~= mapped_types(types_view(ts@), self.generic_mapping@));
        }
        out
    }

    /// `convert_type_with_mapping` on the type of each field of a row.
    fn map_fields(&self, fields: &Vec<(String, Type)>) -> (r: Vec<(String, Type)>)
        ensures
            fields_view(r@) == mapped_fields(fields_view(fields@), self.generic_mapping@),
        decreases fields, 0nat,
    {
        proof {
            lemma_fields_view(fields@);
            lemma_mapped_fields(fields_view(fields@), self.generic_mapping@);
        }
        let mut out: Vec<(String, Type)> = Vec::new();
        let mut i: usize = 0;
        while i < fields.len()
            invariant
                i <= fields@.len(),
                out@.len() == i,
                forall|k: int|
                    0 <= k < i ==> (#[trigger] out@[k]).0@ == fields@[k].0@ && type_view(out@[k].1)
                        == mapped_type(type_view(fields@[k].1), self.generic_mapping@),
            decreases fields.len() - i,
        {
            proof {
                assert(decreases_to!(fields => fields[i as int]));
                assert(decreases_to!(fields[i as int] => fields[i as int].1));
            }
            let ty = self.convert_type_with_mapping(&fields[i].1);
            out.push((fields[i].0.clone(), ty));
            i = i + 1;
        }
        proof {
            lemma_fields_view(out@);
            assert(fields_view(out@) =~= mapped_fields(fields_view(fields@), self.generic_mapping@));
        }
        out
    }

    /// Binds each name that a pattern binds to a fresh type variable.
    pub fn typecheck_pattern(&mut self, pattern: &ast::Pattern) -> (r: Result<(), String>)
        ensures
            r is Ok,
            same_decls(*old(self), *final(self)),
            final(self).substitution == old(self).substitution,
            forall|k: Seq<char>|
                #[trigger] final(self).env@.contains_key(k) <==> old(self).env@.contains_key(k)
                    || pattern_binds(*pattern, k),
            (final(self).env@, final(self).next_var) == pattern_run(*pattern, old(self).env@, old(self).next_var),
        decreases pattern, 0nat,
    {
        match pattern {
            ast::Pattern::Literal(_) => Ok(()),
            ast::Pattern::Variable(name) => {
                let typ = self.fresh_var();
                self.env.insert(name.clone(), typ);
                Ok(())
            },
            ast::Pattern::Wildcard => Ok(()),
            ast::Pattern::Tuple(patterns) => self.typecheck_patterns(patterns),
            ast::Pattern::Struct { fields, .. } => self.typecheck_pattern_fields(fields),
            ast::Pattern::EnumVariant { fields, .. } => self.typecheck_patterns(fields),
            ast::Pattern::Or(patterns) => self.typecheck_patterns(patterns),
        }
    }

    /// `typecheck_pattern` on the fields of a struct pattern, in order.
    fn typecheck_pattern_fields(&mut self, fields: &Vec<ast::StructPatternField>) -> (r: Result<(), String>)
        ensures
            r is Ok,
            same_decls(*old(self), *final(self)),
            final(self).substitution == old(self).substitution,
            forall|k: Seq<char>|
                #[trigger] final(self).env@.contains_key(k) <==> old(self).env@.contains_key(k)
                    || exists|j: int| 0 <= j < fields@.len() && field_binds(#[trigger] fields@[j], k),
            (final(self).env@, final(self).next_var) == pattern_fields_run(fields@, old(self).env@, old(self).next_var),
        decreases fields, 0nat,
    {
            let mut i: usize = 0;
            while i < fields.len()
                invariant
                    i <= fields@.len(),
                    same_decls(*old(self), *self),
                    self.substitution == old(self).substitution,
                    forall|k: Seq<char>|
                        #[trigger] self.env@.contains_key(k) <==> old(self).env@.contains_key(k)
                            || exists|j: int| 0 <= j < i && field_binds(#[trigger] fields@[j], k),
                    (self.env@, self.next_var) == pattern_fields_run(
                        fields@.subrange(0, i as int),
                        old(self).env@,
                        old(self).next_var,
                    ),
                decreases fields.len() - i,
            {
                proof {
                    assert(decreases_to!(fields => fields[i as int]));
                    let fs = fields@.subrange(0, i as int + 1);
                    assert(fs.drop_last() =~= fields@.subrange(0, i as int));
                    assert(fs.last() == fields@[i as int]);
                }
                match &fields[i] {
                    ast::StructPatternField::Shorthand(name) => {
                        let typ = self.fresh_var();
                        self.env.insert(name.clone(), typ);
                    },
                    ast::StructPatternField::Typed { pattern: inner, .. } => {
                        let _ = self.typecheck_pattern(inner);
                    },
                }
                proof {
                    assert forall|k: Seq<char>| #[trigger] self.env@.contains_key(k) implies old(
                        self,
                    ).env@.contains_key(k) || exists|j: int|
                        0 <= j < i + 1 && field_binds(#[trigger] fields@[j], k) by {
                        if !old(self).env@.contains_key(k) && !(exists|j: int|
                            0 <= j < i && field_binds(#[trigger] fields@[j], k)) {
                            assert(field_binds(fields@[i as int], k));
                        }
                    }
                    assert forall|k: Seq<char>|
                        (exists|j: int| 0 <= j < i + 1 && field_binds(#[trigger] fields@[j], k))
                            implies #[trigger] self.env@.contains_key(k) by {
                        let j = choose|j: int| 0 <= j < i + 1 && field_binds(#[trigger] fields@[j], k);
                        if j < i {
                            assert(exists|j: int| 0 <= j < i && field_binds(#[trigger] fields@[j], k));
                        }
                    }
                }
                i = i + 1;
            }
            assert(fields@.subrange(0, i as int) =~= fields@);
            Ok(())
    }

    /// `typecheck_pattern` on each pattern of a list, in order.
    fn typecheck_patterns(&mut self, ps: &Vec<ast::Pattern>) -> (r: Result<(), String>)
        ensures
            r is Ok,
            same_decls(*old(self), *final(self)),
            final(self).substitution == old(self).substitution,
            forall|k: Seq<char>|
                #[trigger] final(self).env@.contains_key(k) <==> old(self).env@.contains_key(k)
                    || exists|j: int| 0 <= j < ps@.len() && pattern_binds(#[trigger] ps@[j], k),
            (final(self).env@, final(self).next_var) == patterns_run(ps@, old(self).env@, old(self).next_var),
        decreases ps, 0nat,
    {
        let mut i: usize = 0;
        while i < ps.len()
            invariant
                i <= ps@.len(),
                same_decls(*old(self), *self),
                self.substitution == old(self).substitution,
                forall|k: Seq<char>|
                    #[trigger] self.env@.contains_key(k) <==> old(self).env@.contains_key(k)
                        || exists|j: int| 0 <= j < i && pattern_binds(#[trigger] ps@[j], k),
                (self.env@, self.next_var) == patterns_run(ps@.subrange(0, i as int), old(self).env@, old(self).next_var),
            decreases ps.len() - i,
        {
            proof {
                assert(decreases_to!(ps => ps[i as int]));
                let qs = ps@.subrange(0, i as int + 1);
                assert(qs.drop_last() =~= ps@.subrange(0, i as int));
                assert(qs.last() == ps@[i as int]);
            }
            let _ = self.typecheck_pattern(&ps[i]);
            proof {
                assert forall|k: Seq<char>| #[trigger] self.env@.contains_key(k) implies old(
                    self,
                ).env@.contains_key(k) || exists|j: int| 0 <= j < i + 1 && pattern_binds(#[trigger] ps@[j], k) by {
                    if !old(self).env@.contains_key(k) && !(exists|j: int|
                        0 <= j < i && pattern_binds(#[trigger] ps@[j], k)) {
                        assert(pattern_binds(ps@[i as int], k));
                    }
                }
                assert forall|k: Seq<char>|
                    (exists|j: int| 0 <= j < i + 1 && pattern_binds(#[trigger] ps@[j], k)) implies
                    #[trigger] self.env@.contains_key(k) by {
                    let j = choose|j: int| 0 <= j < i + 1 && pattern_binds(#[trigger] ps@[j], k);
                    if j < i {
                        assert(exists|j: int| 0 <= j < i && pattern_binds(#[trigger] ps@[j], k));
                    }
                }
            }
            i = i + 1;
        }
        assert(ps@.subrange(0, i as int) =~= ps@);
        Ok(())
    }

    /// The typed copy of a pattern.
    pub fn convert_pattern(&self, pattern: &ast::Pattern) -> (r: typed_ast::TypedPattern)
        ensures
            same_pattern(*pattern, r),
        decreases pattern, 0nat,
    {
        match pattern {
            ast::Pattern::Literal(lit) => typed_ast::TypedPattern::Literal(convert_literal(lit)),
            ast::Pattern::Variable(name) => typed_ast::TypedPattern::Variable(name.clone()),
            ast::Pattern::Wildcard => typed_ast::TypedPattern::Wildcard,
            ast::Pattern::Tuple(patterns) => typed_ast::TypedPattern::Tuple(self.convert_patterns(patterns)),
            ast::Pattern::Struct { name, fields } => typed_ast::TypedPattern::Struct {
                name: name.clone(),
                fields: self.convert_pattern_fields(fields),
            },
            ast::Pattern::EnumVariant { name, fields } => typed_ast::TypedPattern::EnumVariant {
                name: name.clone(),
                fields: self.convert_patterns(fields),
            },
            ast::Pattern::Or(patterns) => typed_ast::TypedPattern::Or(self.convert_patterns(patterns)),
        }
    }

    /// The typed copies of a list of patterns.
    fn convert_patterns(&self, ps: &Vec<ast::Pattern>) -> (r: Vec<typed_ast::TypedPattern>)
        ensures
            same_patterns(ps@, r@),
        decreases ps, 0nat,
    {
        let mut out: Vec<typed_ast::TypedPattern> = Vec::new();
        let mut i: usize = 0;
        while i < ps.len()
            invariant
                i <= ps@.len(),
                out@.len() == i,
                forall|k: int| 0 <= k < i ==> same_pattern(ps@[k], #[trigger] out@[k]),
            decreases ps.len() - i,
        {
            proof {
                assert(decreases_to!(ps => ps[i as int]));
            }
            out.push(self.convert_pattern(&ps[i]));
            i = i + 1;
        }
        out
    }

    /// The typed copies of the fields of a struct pattern.
    fn convert_pattern_fields(&self, fs: &Vec<ast::StructPatternField>) -> (r: Vec<typed_ast::TypedStructPatternField>)
        ensures
            same_pattern_fields(fs@, r@),
        decreases fs, 0nat,
    {
        let mut out: Vec<typed_ast::TypedStructPatternField> = Vec::new();
        let mut i: usize = 0;
        while i < fs.len()
            invariant
                i <= fs@.len(),
                out@.len() == i,
                forall|k: int| 0 <= k < i ==> same_pattern_field(fs@[k], #[trigger] out@[k]),
            decreases fs.len() - i,
        {
            proof {
                assert(decreases_to!(fs => fs[i as int]));
            }
            let f = match &fs[i] {
                ast::StructPatternField::Shorthand(name) => typed_ast::TypedStructPatternField::Shorthand(name.clone()),
                ast::StructPatternField::Typed { name, pattern } => typed_ast::TypedStructPatternField::Typed {
                    name: name.clone(),
                    pattern: self.convert_pattern(pattern),
                },
            };
            out.push(f);
            i = i + 1;
        }
        out
    }
}

/// The typed copy of a literal.
pub fn convert_literal(lit: &ast::Literal) -> (r: typed_ast::TypedLiteral)
    ensures
        same_literal(*lit, r),
{
    match lit {
        ast::Literal::Integer(i) => typed_ast::TypedLiteral::Integer(*i),
        ast::Literal::Float(f) => typed_ast::TypedLiteral::Float(f.clone()),
        ast::Literal::String(s) => typed_ast::TypedLiteral::String(s.clone()),
        ast::Literal::Boolean(b) => typed_ast::TypedLiteral::Boolean(*b),
    }
}

} // verus!
