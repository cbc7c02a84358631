//! Type inference for declarations.
use vstd::prelude::*;
use crate::ast;
use crate::meta::same_meta;
use crate::text::{owned, push_str, str_eq};
use crate::typechecker::mirror::{
    node_mirrors, nodes_mirror, same_method, same_method_param, same_methods, same_params,
    same_struct_field, same_struct_fields, same_variant, same_variants,
};
use crate::typechecker::convert::annotation_type;
use crate::typechecker::expr::{
    passed,
    bindings_view,
    infers, with_counter,
    bump, infers_list, names_view, reached, unifies,
    bound_all, env_types, fixed_annotation, fresh_mapping, param_types_run, lemma_runs_err, lemma_runs_ok, lemma_steps_push, lemma_steps_start,
    param_bindings, runs, steps_hold, unbound_message,
};
use crate::typechecker::names::NameMap;
use crate::typechecker::convert::annotation_run;
use crate::typechecker::{
    after, constraints_view, counted, generic_classes, generic_names, generic_vars, generics_run,
    lemma_generics_run_defined, ConstraintV,
};
use crate::typechecker::{
    con, same_but_counter, same_decls, undefined_generic_constraint, undefined_trait_message, FunctionSignature,
    TypeChecker,
};
use crate::typed_ast::{copy_type, lemma_types_view, types_view, Type, TypeV};
use crate::typed_ast;

verus! {

/// The key of a type argument of an impl: the name of a type constructor,
/// or `_` for any other annotation.
pub open spec fn annotation_arg_key(a: ast::TypeAnnotation) -> Seq<char> {
    match a.kind {
        ast::TypeAnnotationKind::Constructor { name, .. } => name@,
        _ => "_"@,
    }
}

/// The keys of type arguments, separated by commas.
pub open spec fn joined_annotation_keys(args: Seq<ast::TypeAnnotation>) -> Seq<char>
    decreases args.len(),
{
    if args.len() == 0 {
        Seq::empty()
    } else if args.len() == 1 {
        annotation_arg_key(args[0])
    } else {
        joined_annotation_keys(args.drop_last()) + ","@ + annotation_arg_key(args.last())
    }
}

/// The key under which the methods of an impl for the type constructor
/// `name` applied to `args` are filed: `name`, or `name<k1,k2,..>`.
pub open spec fn impl_key(name: Seq<char>, args: Seq<ast::TypeAnnotation>) -> Seq<char> {
    if args.len() == 0 {
        name
    } else {
        name + "<"@ + joined_annotation_keys(args) + ">"@
    }
}

/// The generic parameters that a declaration introduces, for the forms
/// that have them.
pub open spec fn declared_generics(kind: ast::AstNodeKind) -> Option<Seq<ast::GenericParam>> {
    match kind {
        ast::AstNodeKind::Function { generic_params, .. } => Some(generic_params@),
        ast::AstNodeKind::Struct { generic_params, .. } => Some(generic_params@),
        ast::AstNodeKind::Enum { generic_params, .. } => Some(generic_params@),
        ast::AstNodeKind::Trait { generic_params, .. } => Some(generic_params@),
        _ => None,
    }
}

/// The name of an enum variant.
pub open spec fn variant_name(v: ast::EnumVariant) -> Seq<char> {
    match v {
        ast::EnumVariant::Tuple { name, .. } => name@,
        ast::EnumVariant::Struct { name, .. } => name@,
    }
}

/// What a declaration that was checked records: a function its signature
/// with the names of its generic parameters, a struct the names of its
/// fields, an enum the names of its variants, a trait the names of its
/// methods, and an impl its methods under the trait's name (empty without
/// a trait) and the key of the type.
pub open spec fn records(node: ast::AstNode, c: TypeChecker) -> bool {
    match node.kind {
        ast::AstNodeKind::Function { name, generic_params, .. } => {
            &&& c.function_env@.contains_key(name@)
            &&& c.function_env@[name@].generic_params@.len() == generic_params@.len()
            &&& forall|i: int|
                0 <= i < generic_params@.len() ==> (#[trigger] c.function_env@[name@].generic_params@[i])@
                    == generic_params@[i].name@
        },
        ast::AstNodeKind::Struct { name, fields, .. } => {
            &&& c.struct_env@.contains_key(name@)
            &&& c.struct_env@[name@]@.len() == fields@.len()
            &&& forall|i: int| 0 <= i < fields@.len() ==> (#[trigger] c.struct_env@[name@]@[i]).0@ == fields@[i].name@
        },
        ast::AstNodeKind::Enum { name, variants, .. } => {
            &&& c.enum_env@.contains_key(name@)
            &&& c.enum_env@[name@]@.len() == variants@.len()
            &&& forall|i: int| 0 <= i < variants@.len() ==> (#[trigger] c.enum_env@[name@]@[i])@ == variant_name(variants@[i])
        },
        ast::AstNodeKind::Trait { name, methods, .. } => {
            &&& c.trait_env@.contains_key(name@)
            &&& forall|k: Seq<char>|
                #[trigger] c.trait_env@[name@]@.contains_key(k) <==> exists|i: int|
                    0 <= i < methods@.len() && (#[trigger] methods@[i]).name@ == k
        },
        ast::AstNodeKind::Impl { trait_name, for_type, .. } => {
            let key = match trait_name {
                Some(t) => t@,
                None => Seq::empty(),
            };
            &&& c.impl_env@.contains_key(key)
            &&& for_type.kind matches ast::TypeAnnotationKind::Constructor { name, generic_args }
                && c.impl_env@[key]@.contains_key(impl_key(name@, generic_args@))
        },
        _ => true,
    }
}

/// The message for an impl of a trait that is not declared.
pub open spec fn trait_not_found_message(name: Seq<char>) -> Seq<char> {
    "trait "@ + name + " not found"@
}

/// The message for an impl for an annotation that is not a type constructor.
pub open spec fn impl_target_message() -> Seq<char> {
    "impl for_type must be a constructor"@
}

/// What checking the declaration `node` in the state `before` gives: the
/// state `after` and the outcome `r`.
pub open spec fn checks_node(
    before: TypeChecker,
    node: ast::AstNode,
    after: TypeChecker,
    r: Result<typed_ast::TypedAstNode, String>,
) -> bool
    decreases node, 2nat,
{
    &&& before.substitution@.dom().subset_of(after.substitution@.dom())
    &&& r matches Ok(tn) ==> node_mirrors(node, tn) && tn.typ@ == TypeV::Var(before.next_var)
        && same_meta(node.meta, tn.meta)
    &&& (node.kind is Function && undefined_generic_constraint(
        node.kind->Function_generic_params@,
        before.trait_env@.dom(),
    ) is None) ==> function_rule(before, node, after, r)
    &&& node.kind is Import ==> after == bump(bump(before)) && r is Ok
    &&& node.kind is Extern ==> extern_rule(before, node, after, r)
    &&& node.kind is Const ==> const_rule(before, node, after, r)
    &&& (node.kind is Struct && undefined_generic_constraint(
        node.kind->Struct_generic_params@,
        before.trait_env@.dom(),
    ) is None) ==> struct_rule(before, node, after, r)
    &&& (node.kind is Enum && undefined_generic_constraint(
        node.kind->Enum_generic_params@,
        before.trait_env@.dom(),
    ) is None) ==> enum_rule(before, node, after, r)
    &&& (node.kind is Trait && undefined_generic_constraint(
        node.kind->Trait_generic_params@,
        before.trait_env@.dom(),
    ) is None) ==> trait_rule(before, node, after, r)
    &&& (node.kind is Trait && r is Ok) ==> method_generics_are_vars(node, r->Ok_0, before.trait_env@.dom())
    &&& (node.kind is Impl && (node.kind->Impl_trait_name matches Some(t) ==> before.trait_env@.contains_key(t@))
        && node.kind->Impl_for_type.kind is Constructor) ==> impl_rule(before, node, after, r)
    &&& r is Ok ==> after.generic_mapping == before.generic_mapping && after.current_impl_type
        == before.current_impl_type
    &&& r is Ok ==> records(node, after)
    &&& match declared_generics(node.kind) {
        Some(gps) => match undefined_generic_constraint(gps, before.trait_env@.dom()) {
            Some(n) => (r matches Err(e) && e@ == undefined_trait_message(n)),
            None => true,
        },
        None => true,
    }
    &&& node.kind matches ast::AstNodeKind::Impl { trait_name: Some(t), .. } ==> (!before.trait_env@.contains_key(
        t@,
    ) ==> (r matches Err(e) && e@ == trait_not_found_message(t@) && same_but_counter(before, after)))
    &&& node.kind matches ast::AstNodeKind::Impl { trait_name, for_type, .. } ==> ((trait_name matches Some(t)
        ==> before.trait_env@.contains_key(t@)) && !(for_type.kind is Constructor) ==> (r matches Err(e) && e@
        == impl_target_message() && same_but_counter(before, after)))
}

/// The checker `c3` is `c1` with the generic parameters `gps` entered:
/// each got the next fresh variable, their bounds were recorded as class
/// constraints, and they are the generic parameters in scope.
pub open spec fn generics_entered(c1: TypeChecker, gps: Seq<ast::GenericParam>, c3: TypeChecker) -> bool {
    &&& c3.next_var == counted(c1.next_var, gps.len())
    &&& c3.substitution == c1.substitution
    &&& c3.env == c1.env
    &&& c3.current_impl_type == c1.current_impl_type
    &&& c3.trait_env == c1.trait_env
    &&& c3.impl_env == c1.impl_env
    &&& c3.struct_env == c1.struct_env
    &&& c3.enum_env == c1.enum_env
    &&& c3.function_env == c1.function_env
    &&& constraints_view(c3.constraints@) == constraints_view(c1.constraints@) + generic_classes(gps, c1.next_var)
    &&& env_types(c3.generic_mapping@) == generic_vars(gps, c1.next_var)
}

/// The checker `c4` is `c3` with the parameters `args` bound to the types
/// `tys` (see `param_types_run`).
pub open spec fn params_bound(c3: TypeChecker, args: Seq<ast::FunctionParam>, c4: TypeChecker, tys: Seq<TypeV>) -> bool {
    &&& same_decls(c3, c4)
    &&& c4.substitution == c3.substitution
    &&& (tys, c4.next_var) == param_types_run(
        args,
        c3.generic_mapping@,
        c3.current_impl_type,
        c3.next_var,
        self_param(c3, args),
    )
    &&& env_types(c4.env@) == bound_all(env_types(c3.env@), Seq::new(args.len(), |k: int| (args[k].name@, tys[k])))
}

/// The return type of a function and the checker after it was read: its
/// annotation's type, or a fresh variable without one.
pub open spec fn return_run(c: TypeChecker, rt: Option<ast::TypeAnnotation>) -> (TypeV, TypeChecker) {
    match rt {
        Some(t) => {
            let run = annotation_run(t, c.generic_mapping@, c.current_impl_type, c.next_var);
            (run.0, TypeChecker { next_var: run.1, ..c })
        },
        None => (TypeV::Var(c.next_var), bump(c)),
    }
}

/// The checker `c9` is `c7` with the generic parameters in scope set back
/// to those of `b`, and the function `name` filed with the type `fun` and
/// the names of its generic parameters `gps`.
pub open spec fn function_filed(
    b: TypeChecker,
    c7: TypeChecker,
    name: Seq<char>,
    gps: Seq<ast::GenericParam>,
    fun: TypeV,
    c9: TypeChecker,
) -> bool {
    &&& c9.next_var == c7.next_var
    &&& c9.substitution == c7.substitution
    &&& c9.env == c7.env
    &&& c9.constraints == c7.constraints
    &&& c9.current_impl_type == c7.current_impl_type
    &&& c9.trait_env == c7.trait_env
    &&& c9.impl_env == c7.impl_env
    &&& c9.struct_env == c7.struct_env
    &&& c9.enum_env == c7.enum_env
    &&& c9.generic_mapping == b.generic_mapping
    &&& c9.function_env@.contains_key(name)
    &&& c9.function_env@[name].typ@ == fun
    &&& names_view(c9.function_env@[name].generic_params@) == gps.map_values(|g: ast::GenericParam| g.name@)
    &&& c9.function_env@.remove(name) == c7.function_env@.remove(name)
}

/// A function declaration whose generic bounds name traits: its variable
/// `n0` is unified with the function type from its parameters' types to its
/// return type, then its body is checked with its parameters bound; its
/// parameters must still be bound afterwards, and each gets the type bound
/// to its name.
pub open spec fn function_rule(b: TypeChecker, node: ast::AstNode, a: TypeChecker, r: Result<typed_ast::TypedAstNode, String>) -> bool {
    let n0 = b.next_var;
    let c1 = bump(b);
    let args = node.kind->Function_args@;
    exists|c3: TypeChecker, c4: TypeChecker, tys: Seq<TypeV>|
        #![trigger generics_entered(c1, node.kind->Function_generic_params@, c3), params_bound(c3, args, c4, tys)]
        generics_entered(c1, node.kind->Function_generic_params@, c3) && params_bound(c3, args, c4, tys) && {
            let ret = return_run(c4, node.kind->Function_return_type);
            let fun = TypeV::Fun { args: tys, ret: Box::new(ret.0) };
            exists|c6: TypeChecker, u: Result<(), String>|
                #[trigger] reached(c6, u) && unifies(ret.1, TypeV::Var(n0), fun, c6, u) && match u {
                    Err(m) => a == c6 && r == Err::<typed_ast::TypedAstNode, String>(m),
                    Ok(_) => exists|c7: TypeChecker, y: Result<Seq<typed_ast::TypedExpr>, String>|
                        #[trigger] reached(c7, y) && infers_list(c6, node.kind->Function_body@, c7, y) && match y {
                            Err(m) => a == c7 && r == Err::<typed_ast::TypedAstNode, String>(m),
                            Ok(tb) => exists|c9: TypeChecker|
                                #[trigger] function_filed(b, c7, node.kind->Function_name@, node.kind->Function_generic_params@, fun, c9)
                                    && a == c9 && if forall|k: int| 0 <= k < args.len() ==> c9.env@.contains_key(#[trigger] args[k].name@) {
                                    r matches Ok(tn) && tn.kind matches typed_ast::TypedAstNodeKind::Function {
                                        args: ta,
                                        body,
                                        ..
                                    } && body@ == tb && ta@.len() == args.len() && forall|k: int|
                                        0 <= k < args.len() ==> (#[trigger] ta@[k]).typ@ == c9.env@[args[k].name@]@
                                } else {
                                    r matches Err(m) && m@ == unbound_message()
                                },
                        },
                }
        }
}

/// The types of the annotations of the fields `fs` of a struct, converted
/// in turn with the counter going on from `n`, and the counter after.
pub open spec fn field_types_run(fs: Seq<ast::StructField>, gm: Map<Seq<char>, Type>, st: Option<Type>, n: usize) -> (
    Seq<TypeV>,
    usize,
)
    decreases fs.len(),
{
    if fs.len() == 0 {
        (Seq::empty(), n)
    } else {
        let init = field_types_run(fs.drop_last(), gm, st, n);
        let last = annotation_run(fs.last().type_annotation, gm, st, init.1);
        (init.0.push(last.0), last.1)
    }
}

/// The checker `c5` is `c3` with the counter at `k` and the struct `name`
/// filed with the fields `fs` of the types `tys`.
pub open spec fn struct_filed(
    c3: TypeChecker,
    name: Seq<char>,
    fs: Seq<ast::StructField>,
    tys: Seq<TypeV>,
    k: usize,
    c5: TypeChecker,
) -> bool {
    &&& c5.next_var == k
    &&& c5.substitution == c3.substitution
    &&& c5.env == c3.env
    &&& c5.constraints == c3.constraints
    &&& c5.generic_mapping == c3.generic_mapping
    &&& c5.current_impl_type == c3.current_impl_type
    &&& c5.trait_env == c3.trait_env
    &&& c5.impl_env == c3.impl_env
    &&& c5.enum_env == c3.enum_env
    &&& c5.function_env == c3.function_env
    &&& c5.struct_env@.contains_key(name)
    &&& bindings_view(c5.struct_env@[name]@) == Seq::new(fs.len(), |i: int| (fs[i].name@, tys[i]))
    &&& c5.struct_env@.remove(name) == c3.struct_env@.remove(name)
}

/// The types bound to the generic parameters in scope of `c`, in the
/// order in which they were first bound.
pub open spec fn mapping_types(c: TypeChecker) -> Seq<TypeV> {
    c.generic_mapping.bindings().map_values(|b: (String, Type)| b.1@)
}

/// A struct declaration whose generic bounds name traits: its fields'
/// types are read with its generic parameters in scope and it is filed;
/// its variable `n0` is unified with the struct's type over the types of
/// its generic parameters; then the typed fields read their annotations
/// once more, with the generic parameters of before back in scope.
pub open spec fn struct_rule(b: TypeChecker, node: ast::AstNode, a: TypeChecker, r: Result<typed_ast::TypedAstNode, String>) -> bool {
    let fs = node.kind->Struct_fields@;
    exists|c3: TypeChecker|
        #[trigger] generics_entered(bump(b), node.kind->Struct_generic_params@, c3) && exists|c5: TypeChecker|
            #[trigger] struct_filed(
                c3,
                node.kind->Struct_name@,
                fs,
                field_types_run(fs, c3.generic_mapping@, c3.current_impl_type, c3.next_var).0,
                field_types_run(fs, c3.generic_mapping@, c3.current_impl_type, c3.next_var).1,
                c5,
            ) && exists|c6: TypeChecker, u: Result<(), String>|
                #[trigger] reached(c6, u) && unifies(
                    c5,
                    TypeV::Var(b.next_var),
                    TypeV::Con { name: node.kind->Struct_name@, args: mapping_types(c5) },
                    c6,
                    u,
                ) && match u {
                    Err(m) => a == c6 && r == Err::<typed_ast::TypedAstNode, String>(m),
                    Ok(_) => r is Ok && a == with_counter(
                        restored(c6, b),
                        field_types_run(fs, b.generic_mapping@, c6.current_impl_type, c6.next_var).1,
                    ),
                }
}

/// The counter after the variants `vs` of an enum were typed from the
/// counter at `n`: a tuple variant takes a fresh variable; a struct
/// variant reads its fields' annotations, then takes a fresh variable.
pub open spec fn variants_counter(vs: Seq<ast::EnumVariant>, gm: Map<Seq<char>, Type>, st: Option<Type>, n: usize) -> usize
    decreases vs.len(),
{
    if vs.len() == 0 {
        n
    } else {
        let k = variants_counter(vs.drop_last(), gm, st, n);
        match vs.last() {
            ast::EnumVariant::Tuple { .. } => after(k),
            ast::EnumVariant::Struct { fields, .. } => after(field_types_run(fields@, gm, st, k).1),
        }
    }
}

/// The checker `c5` is `c3` with the enum `name` filed with the names of
/// its variants `vs`.
pub open spec fn enum_filed(c3: TypeChecker, name: Seq<char>, vs: Seq<ast::EnumVariant>, c5: TypeChecker) -> bool {
    &&& c5.next_var == c3.next_var
    &&& c5.substitution == c3.substitution
    &&& c5.env == c3.env
    &&& c5.constraints == c3.constraints
    &&& c5.generic_mapping == c3.generic_mapping
    &&& c5.current_impl_type == c3.current_impl_type
    &&& c5.trait_env == c3.trait_env
    &&& c5.impl_env == c3.impl_env
    &&& c5.struct_env == c3.struct_env
    &&& c5.function_env == c3.function_env
    &&& c5.enum_env@.contains_key(name)
    &&& names_view(c5.enum_env@[name]@) == vs.map_values(|v: ast::EnumVariant| variant_name(v))
    &&& c5.enum_env@.remove(name) == c3.enum_env@.remove(name)
}

/// An enum declaration whose generic bounds name traits: it is filed with
/// the names of its variants, its variable `n0` is unified with the enum's
/// type over the types of its generic parameters, then its variants are
/// typed with its generic parameters still in scope.
pub open spec fn enum_rule(b: TypeChecker, node: ast::AstNode, a: TypeChecker, r: Result<typed_ast::TypedAstNode, String>) -> bool {
    exists|c3: TypeChecker|
        #[trigger] generics_entered(bump(b), node.kind->Enum_generic_params@, c3) && exists|c5: TypeChecker|
            #[trigger] enum_filed(c3, node.kind->Enum_name@, node.kind->Enum_variants@, c5) && exists|
                c6: TypeChecker,
                u: Result<(), String>,
            |
                #[trigger] reached(c6, u) && unifies(
                    c5,
                    TypeV::Var(b.next_var),
                    TypeV::Con { name: node.kind->Enum_name@, args: mapping_types(c5) },
                    c6,
                    u,
                ) && match u {
                    Err(m) => a == c6 && r == Err::<typed_ast::TypedAstNode, String>(m),
                    Ok(_) => r is Ok && a == restored(
                        with_counter(
                            c6,
                            variants_counter(
                                node.kind->Enum_variants@,
                                c6.generic_mapping@,
                                c6.current_impl_type,
                                c6.next_var,
                            ),
                        ),
                        b,
                    ),
                }
}

/// The checker `c` with the generic parameters in scope of `b` back.
pub open spec fn restored(c: TypeChecker, b: TypeChecker) -> TypeChecker {
    TypeChecker { generic_mapping: b.generic_mapping, ..c }
}

/// The types of the typed parameters of an extern declaration checked from
/// the state `b`, and the counter after: the parameters' annotations are
/// read, then the return annotation, then the parameters' annotations once
/// more, which give the typed parameters their types.
pub open spec fn extern_params_run(b: TypeChecker, node: ast::AstNode) -> (Seq<TypeV>, usize) {
    let args = node.kind->Extern_args@;
    let k1 = param_types_run(args, b.generic_mapping@, b.current_impl_type, after(b.next_var), false).1;
    let k2 = match node.kind->Extern_return_type {
        Some(t) => annotation_run(t, b.generic_mapping@, b.current_impl_type, k1).1,
        None => k1,
    };
    param_types_run(args, b.generic_mapping@, b.current_impl_type, k2, false)
}

/// The counter after checking an extern declaration from the state `b`.
pub open spec fn extern_counter(b: TypeChecker, node: ast::AstNode) -> usize {
    extern_params_run(b, node).1
}

/// An extern declaration checked from the state `b`: only the counter
/// moves on, and each typed parameter gets its type from
/// `extern_params_run`.
pub open spec fn extern_rule(b: TypeChecker, node: ast::AstNode, a: TypeChecker, r: Result<typed_ast::TypedAstNode, String>) -> bool {
    &&& a == with_counter(b, extern_counter(b, node))
    &&& r matches Ok(tn) && tn.kind matches typed_ast::TypedAstNodeKind::Extern { args: ta, .. }
        && ta@.map_values(|p: typed_ast::TypedFunctionParam| p.typ@) == extern_params_run(b, node).0
}

/// The typed value of a constant.
pub open spec fn typed_const_value(tn: typed_ast::TypedAstNode) -> Option<typed_ast::TypedExpr> {
    match tn.kind {
        typed_ast::TypedAstNodeKind::Const { value, .. } => Some(value),
        _ => None,
    }
}

/// A constant: its value is checked; with an annotation, the value's type
/// is unified with the annotation's type.
pub open spec fn const_rule(b: TypeChecker, node: ast::AstNode, a: TypeChecker, r: Result<typed_ast::TypedAstNode, String>) -> bool {
    exists|c2: TypeChecker, y: Result<typed_ast::TypedExpr, String>|
        #[trigger] reached(c2, y) && infers(bump(b), node.kind->Const_value, c2, y) && match y {
            Err(m) => a == c2 && r == Err::<typed_ast::TypedAstNode, String>(m),
            Ok(tv) => (r is Ok ==> typed_const_value(r->Ok_0) == Some(tv)) && match node.kind->Const_type_annotation {
                None => a == c2 && r is Ok,
                Some(t) => exists|c4: TypeChecker, u: Result<(), String>|
                    #[trigger] reached(c4, u) && unifies(
                        with_counter(c2, annotation_run(t, c2.generic_mapping@, c2.current_impl_type, c2.next_var).1),
                        tv.typ@,
                        annotation_run(t, c2.generic_mapping@, c2.current_impl_type, c2.next_var).0,
                        c4,
                        u,
                    ) && a == c4 && match u {
                        Err(m) => r == Err::<typed_ast::TypedAstNode, String>(m),
                        Ok(_) => r is Ok,
                    },
            },
        }
}

/// Checking the declarations `ns` in order from the state `b`: the state
/// `a` and the typed declarations, or the error of the first that fails.
pub open spec fn checks_nodes(
    b: TypeChecker,
    ns: Seq<ast::AstNode>,
    a: TypeChecker,
    r: Result<Seq<typed_ast::TypedAstNode>, String>,
) -> bool
    decreases ns, ns.len(),
{
    if ns.len() == 0 {
        a == b && r == Ok::<Seq<typed_ast::TypedAstNode>, String>(Seq::empty())
    } else {
        exists|c: TypeChecker, x: Result<Seq<typed_ast::TypedAstNode>, String>|
            #[trigger] reached(c, x) && checks_nodes(b, ns.drop_last(), c, x) && match x {
                Err(m) => a == c && r == Err::<Seq<typed_ast::TypedAstNode>, String>(m),
                Ok(ts) => exists|y: Result<typed_ast::TypedAstNode, String>|
                    #[trigger] reached(a, y) && checks_node(c, ns.last(), a, y) && match y {
                        Err(m) => r == Err::<Seq<typed_ast::TypedAstNode>, String>(m),
                        Ok(t) => r == Ok::<Seq<typed_ast::TypedAstNode>, String>(ts.push(t)),
                    },
            }
    }
}

/// The checker `c3` is `c2` with the impl's type, whose value is `t`,
/// as the type of the impl being checked.
pub open spec fn impl_entered(c2: TypeChecker, t: TypeV, c3: TypeChecker) -> bool {
    &&& c3.next_var == c2.next_var
    &&& c3.substitution == c2.substitution
    &&& c3.env == c2.env
    &&& c3.constraints == c2.constraints
    &&& c3.generic_mapping == c2.generic_mapping
    &&& c3.trait_env == c2.trait_env
    &&& c3.impl_env == c2.impl_env
    &&& c3.struct_env == c2.struct_env
    &&& c3.enum_env == c2.enum_env
    &&& c3.function_env == c2.function_env
    &&& c3.current_impl_type matches Some(x) && x@ == t
}

/// The key under which an impl is filed: its trait's name, or empty.
pub open spec fn impl_trait_key(node: ast::AstNode) -> Seq<char> {
    match node.kind->Impl_trait_name {
        Some(t) => t@,
        None => Seq::empty(),
    }
}

/// The checker `a` is `c4` with the impl of `node` filed with the types of
/// the functions among its methods `ts`, the impl being checked set back
/// to that of `b`, and one more fresh variable handed out.
pub open spec fn impl_filed(b: TypeChecker, c4: TypeChecker, node: ast::AstNode, ts: Seq<typed_ast::TypedAstNode>, a: TypeChecker) -> bool {
    let key = impl_trait_key(node);
    let tk = impl_key(node.kind->Impl_for_type.kind->Constructor_name@, node.kind->Impl_for_type.kind->Constructor_generic_args@);
    &&& a.next_var == after(c4.next_var)
    &&& a.substitution == c4.substitution
    &&& a.env == c4.env
    &&& a.constraints == c4.constraints
    &&& a.generic_mapping == c4.generic_mapping
    &&& a.current_impl_type == b.current_impl_type
    &&& a.trait_env == c4.trait_env
    &&& a.struct_env == c4.struct_env
    &&& a.enum_env == c4.enum_env
    &&& a.function_env == c4.function_env
    &&& a.impl_env@.contains_key(key)
    &&& a.impl_env@.remove(key) == c4.impl_env@.remove(key)
    &&& a.impl_env@[key]@.contains_key(tk)
    &&& env_types(a.impl_env@[key]@[tk]@) == bound_all(Map::empty(), function_types(ts))
    &&& a.impl_env@[key]@.remove(tk) == (if c4.impl_env@.contains_key(key) {
        c4.impl_env@[key]@
    } else {
        Map::<Seq<char>, NameMap<Type>>::empty()
    }).remove(tk)
}

/// An impl whose trait is declared and whose type is a type constructor:
/// the type is read, its methods are checked in order with it as the type
/// of the impl, and the impl is filed (see `impl_filed`).
pub open spec fn impl_rule(b: TypeChecker, node: ast::AstNode, a: TypeChecker, r: Result<typed_ast::TypedAstNode, String>) -> bool
    decreases node, 1nat,
{
    if node.kind is Impl {
        exists|c3: TypeChecker|
            #[trigger] passed(c3) && impl_entered(
                with_counter(
                    bump(b),
                    annotation_run(node.kind->Impl_for_type, b.generic_mapping@, b.current_impl_type, after(b.next_var)).1,
                ),
                annotation_run(node.kind->Impl_for_type, b.generic_mapping@, b.current_impl_type, after(b.next_var)).0,
                c3,
            ) && exists|c4: TypeChecker, x: Result<Seq<typed_ast::TypedAstNode>, String>|
                #[trigger] reached(c4, x) && checks_nodes(c3, node.kind->Impl_methods@, c4, x) && match x {
                    Err(m) => a == c4 && r == Err::<typed_ast::TypedAstNode, String>(m),
                    Ok(ts) => r is Ok && impl_filed(b, c4, node, ts, a) && (r->Ok_0.kind matches typed_ast::TypedAstNodeKind::Impl {
                        methods,
                        ..
                    } && methods@ == ts),
                }
    } else {
        false
    }
}

/// The generic parameters in scope while the signature of the method `m`
/// of a trait is read from the counter `n`: the method's own, each with the
/// next fresh variable, when all their bounds name traits of `traits`, and
/// none otherwise. Neither `Self` nor the trait's own generic parameters are
/// in scope there.
pub open spec fn method_scope(m: ast::MethodSignature, traits: Set<Seq<char>>, n: usize) -> Map<Seq<char>, Type> {
    if undefined_generic_constraint(m.generic_params@, traits) is None {
        fresh_mapping(generic_names(m.generic_params@), n)
    } else {
        Map::empty()
    }
}

/// The types of the parameters `ps` of a method of a trait, read in turn
/// from the counter `n`, and the counter after: `self` has the type
/// `self_type`, each other parameter the type of its annotation.
pub open spec fn method_params_run(
    ps: Seq<ast::MethodParam>,
    gm: Map<Seq<char>, Type>,
    st: Option<Type>,
    self_type: TypeV,
    n: usize,
) -> (Seq<TypeV>, usize)
    decreases ps.len(),
{
    if ps.len() == 0 {
        (Seq::empty(), n)
    } else {
        let init = method_params_run(ps.drop_last(), gm, st, self_type, n);
        match ps.last() {
            ast::MethodParam::SelfParam => (init.0.push(self_type), init.1),
            ast::MethodParam::TypedParam { type_annotation, .. } => {
                let t = annotation_run(type_annotation, gm, st, init.1);
                (init.0.push(t.0), t.1)
            },
        }
    }
}

/// The type of the method `m` of a trait whose `self` has the type
/// `self_type`, read from the counter `n`, with the counter and the class
/// constraints recorded after: the method's generic parameters are entered
/// first, then its parameters and its return type are read; a method
/// without a return type gets a fresh variable for it.
pub open spec fn method_run(
    m: ast::MethodSignature,
    traits: Set<Seq<char>>,
    st: Option<Type>,
    self_type: TypeV,
    n: usize,
) -> (TypeV, usize, Seq<ConstraintV>) {
    let entered = generics_run(m.generic_params@, traits, n);
    let gm = method_scope(m, traits, n);
    let params = method_params_run(m.args@, gm, st, self_type, entered.0);
    let ret = match m.return_type {
        Some(rt) => annotation_run(rt, gm, st, params.1),
        None => (TypeV::Var(params.1), after(params.1)),
    };
    (TypeV::Fun { args: params.0, ret: Box::new(ret.0) }, ret.1, entered.1)
}

/// `method_run` on each method of a trait in turn: their types, the
/// counter after, and the class constraints they recorded, in order.
pub open spec fn methods_run(
    ms: Seq<ast::MethodSignature>,
    traits: Set<Seq<char>>,
    st: Option<Type>,
    self_type: TypeV,
    n: usize,
) -> (Seq<TypeV>, usize, Seq<ConstraintV>)
    decreases ms.len(),
{
    if ms.len() == 0 {
        (Seq::empty(), n, Seq::empty())
    } else {
        let init = methods_run(ms.drop_last(), traits, st, self_type, n);
        let last = method_run(ms.last(), traits, st, self_type, init.1);
        (init.0.push(last.0), last.1, init.2 + last.2)
    }
}

/// The methods `ms` of a trait by name, each with its type among `tys`; a
/// later method of the same name replaces an earlier one.
pub open spec fn method_table(ms: Seq<ast::MethodSignature>, tys: Seq<TypeV>) -> Map<Seq<char>, TypeV> {
    bound_all(Map::empty(), Seq::new(ms.len(), |j: int| (ms[j].name@, tys[j])))
}

/// A trait declaration whose generic bounds name traits: its generic
/// parameters are entered after the declaration's own variable, `Self`
/// takes the next fresh variable, and each method gets its type from
/// `methods_run`, both in its typed signature and in the table of the
/// trait, which is filed under the trait's name; then the generic
/// parameters in scope are set back and one more fresh variable is taken.
pub open spec fn trait_rule(b: TypeChecker, node: ast::AstNode, a: TypeChecker, r: Result<typed_ast::TypedAstNode, String>) -> bool {
    let name = node.kind->Trait_name@;
    let gps = node.kind->Trait_generic_params@;
    let ms = node.kind->Trait_methods@;
    let self_var = counted(after(b.next_var), gps.len());
    let run = methods_run(ms, b.trait_env@.dom(), b.current_impl_type, TypeV::Var(self_var), after(self_var));
    &&& r matches Ok(tn) && tn.kind matches typed_ast::TypedAstNodeKind::Trait { methods: tms, .. }
        && tms@.len() == ms.len() && forall|j: int| 0 <= j < ms.len() ==> (#[trigger] tms@[j]).typ@ == run.0[j]
    &&& a.next_var == after(run.1)
    &&& constraints_view(a.constraints@) == constraints_view(b.constraints@) + generic_classes(gps, after(b.next_var))
        + run.2
    &&& a.trait_env@.contains_key(name)
    &&& env_types(a.trait_env@[name]@) == method_table(ms, run.0)
    &&& a.trait_env@.remove(name) == b.trait_env@.remove(name)
    &&& a.substitution == b.substitution
    &&& a.env == b.env
    &&& a.generic_mapping == b.generic_mapping
    &&& a.current_impl_type == b.current_impl_type
    &&& a.impl_env == b.impl_env
    &&& a.struct_env == b.struct_env
    &&& a.enum_env == b.enum_env
    &&& a.function_env == b.function_env
}

/// Whether the `k`-th parameter of the method `m` is annotated with one of
/// the method's own generic parameters, all of whose bounds name traits
/// of `traits`.
pub open spec fn names_method_generic(m: ast::MethodSignature, k: int, traits: Set<Seq<char>>) -> bool {
    &&& m.generic_params@.len() > 0
    &&& undefined_generic_constraint(m.generic_params@, traits) is None
    &&& m.args@[k] is TypedParam
    &&& m.args@[k]->TypedParam_type_annotation.kind is Constructor
    &&& m.args@[k]->TypedParam_type_annotation.kind->Constructor_name@ != "Self"@
    &&& exists|i: int|
        0 <= i < m.generic_params@.len() && (#[trigger] m.generic_params@[i]).name@
            == m.args@[k]->TypedParam_type_annotation.kind->Constructor_name@
}

/// The `k`-th parameter of the typed method `t` has a type variable as its
/// type.
pub open spec fn param_typed_var(t: typed_ast::TypedMethodSignature, k: int) -> bool {
    arg_typed_var(t.args@, k)
}

/// The `k`-th of the typed method parameters `args` has a type variable as
/// its type.
pub open spec fn arg_typed_var(args: Seq<typed_ast::TypedMethodParam>, k: int) -> bool {
    args[k] is TypedParam && args[k]->TypedParam_typ@ is Var
}

/// Every method parameter of the typed trait `tn` that names a generic
/// parameter of its method has a type variable as its type.
pub open spec fn method_generics_are_vars(node: ast::AstNode, tn: typed_ast::TypedAstNode, traits: Set<Seq<char>>) -> bool {
    tn.kind is Trait && tn.kind->Trait_methods@.len() == node.kind->Trait_methods@.len() && forall|j: int, k: int|
        0 <= j < node.kind->Trait_methods@.len() && 0 <= k < node.kind->Trait_methods@[j].args@.len()
            && #[trigger] names_method_generic(node.kind->Trait_methods@[j], k, traits) ==> param_typed_var(
            tn.kind->Trait_methods@[j],
            k,
        )
}

/// Each generic parameter is bound by `generic_vars`, and to a type
/// variable.
pub proof fn lemma_generic_vars(gps: Seq<ast::GenericParam>, n: usize)
    ensures
        forall|k: int| 0 <= k < gps.len() ==> generic_vars(gps, n).contains_key(#[trigger] gps[k].name@),
        forall|x: Seq<char>| #[trigger] generic_vars(gps, n).contains_key(x) ==> generic_vars(gps, n)[x] is Var,
    decreases gps.len(),
{
    if gps.len() > 0 {
        lemma_generic_vars(gps.drop_last(), n);
        assert forall|k: int| 0 <= k < gps.len() implies generic_vars(gps, n).contains_key(#[trigger] gps[k].name@) by {
            if k < gps.len() - 1 {
                assert(gps.drop_last()[k] == gps[k]);
            }
        }
    }
}

/// `checks_node` as a step of a run over a list of declarations.
pub open spec fn node_step() -> spec_fn(TypeChecker, ast::AstNode, TypeChecker, Result<typed_ast::TypedAstNode, String>) -> bool {
    |b: TypeChecker, n: ast::AstNode, a: TypeChecker, r: Result<typed_ast::TypedAstNode, String>| checks_node(b, n, a, r)
}

/// The names and types of the functions among typed declarations, in
/// order.
pub open spec fn function_types(ts: Seq<typed_ast::TypedAstNode>) -> Seq<(Seq<char>, TypeV)>
    decreases ts.len(),
{
    if ts.len() == 0 {
        Seq::empty()
    } else {
        match ts.last().kind {
            typed_ast::TypedAstNodeKind::Function { name, .. } => function_types(ts.drop_last()).push(
                (name@, ts.last().typ@),
            ),
            _ => function_types(ts.drop_last()),
        }
    }
}

/// The key of an impl for the type constructor `name` applied to `args`.
pub fn impl_key_of(name: &String, args: &Vec<ast::TypeAnnotation>) -> (r: String)
    ensures
        r@ == impl_key(name@, args@),
{
    if args.len() == 0 {
        return name.clone();
    }
    let mut joined = owned("");
    proof {
        reveal_strlit("");
        assert(joined_annotation_keys(args@.subrange(0, 0)) =~= Seq::<char>::empty());
    }
    let mut i: usize = 0;
    while i < args.len()
        invariant
            i <= args@.len(),
            joined@ == joined_annotation_keys(args@.subrange(0, i as int)),
        decreases args.len() - i,
    {
        let ghost prefix = args@.subrange(0, i as int + 1);
        assert(prefix.drop_last() =~= args@.subrange(0, i as int));
        if i > 0 {
            push_str(&mut joined, ",");
        }
        match &args[i].kind {
            ast::TypeAnnotationKind::Constructor { name: arg_name, .. } => {
                push_str(&mut joined, arg_name.as_str());
            },
            _ => {
                push_str(&mut joined, "_");
            },
        }
        proof {
            reveal_strlit(",");
            reveal_strlit("_");
            if i == 0 {
                assert(joined_annotation_keys(args@.subrange(0, 0)) =~= Seq::<char>::empty());
                assert(joined@ =~= annotation_arg_key(prefix[0]));
            } else {
                assert(joined@ =~= joined_annotation_keys(prefix.drop_last()) + ","@ + annotation_arg_key(
                    prefix.last(),
                ));
            }
        }
        i = i + 1;
    }
    assert(args@.subrange(0, i as int) =~= args@);
    let mut key = name.clone();
    push_str(&mut key, "<");
    push_str(&mut key, joined.as_str());
    push_str(&mut key, ">");
    key
}

impl TypeChecker {
    /// The types bound to the generic parameters in scope, in the order in
    /// which the parameters were first bound.
    fn mapping_values(&self) -> (r: Vec<Type>)
        ensures
            r@.len() == self.generic_mapping.bindings().len(),
            forall|i: int|
                0 <= i < r@.len() ==> (#[trigger] r@[i])@ == self.generic_mapping.bindings()[i].1@,
    {
        let n = self.generic_mapping.len();
        let mut out: Vec<Type> = Vec::new();
        let mut i: usize = 0;
        while i < n
            invariant
                i <= n,
                n == self.generic_mapping.bindings().len(),
                out@.len() == i,
                forall|k: int| 0 <= k < i ==> (#[trigger] out@[k])@ == self.generic_mapping.bindings()[k].1@,
            decreases n - i,
        {
            let (_, t) = self.generic_mapping.binding(i);
            out.push(copy_type(t));
            i = i + 1;
        }
        out
    }

    /// The typed parameters of a function, each with the type it is bound
    /// to after the body has been checked.
    fn bound_params(&self, args: &Vec<ast::FunctionParam>) -> (r: Result<Vec<typed_ast::TypedFunctionParam>, String>)
        ensures
            r is Ok <==> forall|k: int| 0 <= k < args@.len() ==> self.env@.contains_key(#[trigger] args@[k].name@),
            r matches Err(e) ==> e@ == unbound_message(),
            r matches Ok(ps) ==> same_params(args@, ps@) && forall|k: int|
                0 <= k < args@.len() ==> (#[trigger] ps@[k]).typ@ == self.env@[args@[k].name@]@,
    {
        let mut out: Vec<typed_ast::TypedFunctionParam> = Vec::new();
        let mut i: usize = 0;
        while i < args.len()
            invariant
                i <= args@.len(),
                out@.len() == i,
                forall|k: int| 0 <= k < i ==> crate::typechecker::mirror::same_param(args@[k], #[trigger] out@[k]),
                forall|k: int| 0 <= k < i ==> self.env@.contains_key(#[trigger] args@[k].name@),
                forall|k: int| 0 <= k < i ==> (#[trigger] out@[k]).typ@ == self.env@[args@[k].name@]@,
            decreases args.len() - i,
        {
            let p = &args[i];
            let typ = match self.env.get(p.name.as_str()) {
                Some(t) => copy_type(t),
                None => {
                    assert(!self.env@.contains_key(args@[i as int].name@));
                    return Err(owned("unbound variable"));
                },
            };
            out.push(
                typed_ast::TypedFunctionParam {
                    name: p.name.clone(),
                    type_annotation: self.convert_type_annotation(&p.type_annotation),
                    typ,
                },
            );
            i = i + 1;
        }
        Ok(out)
    }

    /// Binds the parameters of a function to their types; a first parameter
    /// named `self` inside an impl gets the type of the impl.
    fn bind_function_params(&mut self, args: &Vec<ast::FunctionParam>) -> (r: Vec<Type>)
        ensures
            same_decls(*old(self), *final(self)),
            final(self).substitution == old(self).substitution,
            r@.len() == args@.len(),
            self_param(*old(self), args@) ==> r@[0]@ == old(self).current_impl_type->Some_0@,
            forall|k: int|
                0 <= k < args@.len() && !(k == 0 && self_param(*old(self), args@)) && fixed_annotation(
                    *old(self),
                    args@[k].type_annotation,
                ) ==> (#[trigger] r@[k])@ == annotation_type(
                    args@[k].type_annotation,
                    old(self).generic_mapping@,
                    old(self).current_impl_type,
                ),
            (forall|k: int| 0 <= k < args@.len() ==> fixed_annotation(*old(self), #[trigger] args@[k].type_annotation))
                ==> final(self).next_var == old(self).next_var,
            env_types(final(self).env@) == bound_all(env_types(old(self).env@), param_bindings(args@, r@)),
            (types_view(r@), final(self).next_var) == param_types_run(
                args@,
                old(self).generic_mapping@,
                old(self).current_impl_type,
                old(self).next_var,
                self_param(*old(self), args@),
            ),
    {
        let first_is_self = self.current_impl_type.is_some() && args.len() > 0 && str_eq(
            args[0].name.as_str(),
            "self",
        );
        let mut arg_types: Vec<Type> = Vec::new();
        let mut i: usize = 0;
        assert(param_bindings(args@.subrange(0, 0), arg_types@).len() == 0);
        assert(types_view(arg_types@) =~= Seq::<TypeV>::empty());
        while i < args.len()
            invariant
                i <= args@.len(),
                first_is_self == self_param(*old(self), args@),
                same_decls(*old(self), *self),
                self.substitution == old(self).substitution,
                arg_types@.len() == i,
                i > 0 && self_param(*old(self), args@) ==> arg_types@[0]@ == old(self).current_impl_type->Some_0@,
                forall|k: int|
                    0 <= k < i && !(k == 0 && self_param(*old(self), args@)) && fixed_annotation(
                        *old(self),
                        args@[k].type_annotation,
                    ) ==> (#[trigger] arg_types@[k])@ == annotation_type(
                        args@[k].type_annotation,
                        old(self).generic_mapping@,
                        old(self).current_impl_type,
                    ),
                (forall|k: int| 0 <= k < i ==> fixed_annotation(*old(self), #[trigger] args@[k].type_annotation))
                    ==> self.next_var == old(self).next_var,
                env_types(self.env@) == bound_all(
                    env_types(old(self).env@),
                    param_bindings(args@.subrange(0, i as int), arg_types@),
                ),
                (types_view(arg_types@), self.next_var) == param_types_run(
                    args@.subrange(0, i as int),
                    old(self).generic_mapping@,
                    old(self).current_impl_type,
                    old(self).next_var,
                    self_param(*old(self), args@),
                ),
            decreases args.len() - i,
        {
            let param = &args[i];
            let ghost before = self.env@;
            let ghost prev_types = arg_types@;
            let mut bound = false;
            if first_is_self && i == 0 {
                match &self.current_impl_type {
                    Some(impl_type) => {
                        let t = copy_type(impl_type);
                        self.env.insert(param.name.clone(), copy_type(&t));
                        assert(env_types(self.env@) =~= env_types(before).insert(args@[i as int].name@, t@));
                        arg_types.push(t);
                        bound = true;
                    },
                    None => {},
                }
            }
            if !bound {
                let t = self.convert_to_internal_type(&param.type_annotation);
                self.env.insert(param.name.clone(), copy_type(&t));
                assert(env_types(self.env@) =~= env_types(before).insert(args@[i as int].name@, t@));
                arg_types.push(t);
            }
            proof {
                let ps = args@.subrange(0, i as int + 1);
                assert(param_bindings(ps, arg_types@).drop_last() =~= param_bindings(
                    args@.subrange(0, i as int),
                    prev_types,
                ));
                assert(ps.drop_last() =~= args@.subrange(0, i as int));
                assert(ps.last() == args@[i as int]);
                assert(arg_types@.drop_last() =~= prev_types);
                if forall|k: int| 0 <= k < i + 1 ==> fixed_annotation(*old(self), #[trigger] args@[k].type_annotation) {
                    assert(fixed_annotation(*old(self), args@[i as int].type_annotation));
                }
            }
            i = i + 1;
        }
        assert(args@.subrange(0, i as int) =~= args@);
        arg_types
    }

    /// The names and types of the fields of a struct.
    fn field_types(&mut self, fields: &Vec<ast::StructField>) -> (r: Vec<(String, Type)>)
        ensures
            final(self).substitution == old(self).substitution,
            same_but_counter(*old(self), *final(self)),
            r@.len() == fields@.len(),
            forall|i: int| 0 <= i < fields@.len() ==> (#[trigger] r@[i]).0@ == fields@[i].name@,
            (r@.map_values(|p: (String, Type)| p.1@), final(self).next_var) == field_types_run(
                fields@,
                old(self).generic_mapping@,
                old(self).current_impl_type,
                old(self).next_var,
            ),
    {
        let mut out: Vec<(String, Type)> = Vec::new();
        let mut i: usize = 0;
        assert(out@.map_values(|p: (String, Type)| p.1@) =~= Seq::<TypeV>::empty());
        while i < fields.len()
            invariant
                i <= fields@.len(),
                out@.len() == i,
                forall|k: int| 0 <= k < i ==> (#[trigger] out@[k]).0@ == fields@[k].name@,
                self.substitution == old(self).substitution,
                same_but_counter(*old(self), *self),
                (out@.map_values(|p: (String, Type)| p.1@), self.next_var) == field_types_run(
                    fields@.subrange(0, i as int),
                    old(self).generic_mapping@,
                    old(self).current_impl_type,
                    old(self).next_var,
                ),
            decreases fields.len() - i,
        {
            let ghost prev = out@;
            let ghost fs = fields@.subrange(0, i as int + 1);
            assert(fs.drop_last() =~= fields@.subrange(0, i as int));
            assert(fs.last() == fields@[i as int]);
            let t = self.convert_to_internal_type(&fields[i].type_annotation);
            out.push((fields[i].name.clone(), t));
            assert(out@.map_values(|p: (String, Type)| p.1@) =~= prev.map_values(|p: (String, Type)| p.1@).push(
                out@.last().1@,
            ));
            i = i + 1;
        }
        assert(fields@.subrange(0, i as int) =~= fields@);
        out
    }

    /// The typed fields of a struct or of a struct variant.
    fn typed_struct_fields(&mut self, fields: &Vec<ast::StructField>) -> (r: Vec<typed_ast::TypedStructField>)
        ensures
            same_but_counter(*old(self), *final(self)),
            same_struct_fields(fields@, r@),
            final(self).next_var == field_types_run(
                fields@,
                old(self).generic_mapping@,
                old(self).current_impl_type,
                old(self).next_var,
            ).1,
    {
        let mut out: Vec<typed_ast::TypedStructField> = Vec::new();
        let mut i: usize = 0;
        while i < fields.len()
            invariant
                i <= fields@.len(),
                out@.len() == i,
                same_but_counter(*old(self), *self),
                forall|k: int| 0 <= k < i ==> same_struct_field(fields@[k], #[trigger] out@[k]),
                self.next_var == field_types_run(
                    fields@.subrange(0, i as int),
                    old(self).generic_mapping@,
                    old(self).current_impl_type,
                    old(self).next_var,
                ).1,
            decreases fields.len() - i,
        {
            let ghost fs = fields@.subrange(0, i as int + 1);
            assert(fs.drop_last() =~= fields@.subrange(0, i as int));
            assert(fs.last() == fields@[i as int]);
            let f = &fields[i];
            let type_annotation = self.convert_type_annotation(&f.type_annotation);
            let typ = self.convert_to_internal_type(&f.type_annotation);
            out.push(
                typed_ast::TypedStructField { name: f.name.clone(), type_annotation, meta: f.meta.copy(), typ },
            );
            i = i + 1;
        }
        assert(fields@.subrange(0, i as int) =~= fields@);
        out
    }

    /// The typed variants of an enum, each with a fresh type variable.
    fn typed_variants(&mut self, variants: &Vec<ast::EnumVariant>) -> (r: Vec<typed_ast::TypedEnumVariant>)
        ensures
            same_but_counter(*old(self), *final(self)),
            same_variants(variants@, r@),
            final(self).next_var == variants_counter(
                variants@,
                old(self).generic_mapping@,
                old(self).current_impl_type,
                old(self).next_var,
            ),
    {
        let mut out: Vec<typed_ast::TypedEnumVariant> = Vec::new();
        let mut i: usize = 0;
        while i < variants.len()
            invariant
                i <= variants@.len(),
                out@.len() == i,
                same_but_counter(*old(self), *self),
                forall|k: int| 0 <= k < i ==> same_variant(variants@[k], #[trigger] out@[k]),
                self.next_var == variants_counter(
                    variants@.subrange(0, i as int),
                    old(self).generic_mapping@,
                    old(self).current_impl_type,
                    old(self).next_var,
                ),
            decreases variants.len() - i,
        {
            let ghost vs = variants@.subrange(0, i as int + 1);
            assert(vs.drop_last() =~= variants@.subrange(0, i as int));
            assert(vs.last() == variants@[i as int]);
            let v = match &variants[i] {
                ast::EnumVariant::Tuple { name, fields, meta } => {
                    let converted = self.convert_type_annotations(fields);
                    typed_ast::TypedEnumVariant::Tuple {
                        name: name.clone(),
                        fields: converted,
                        meta: meta.copy(),
                        typ: self.fresh_var(),
                    }
                },
                ast::EnumVariant::Struct { name, fields, meta } => {
                    let converted = self.typed_struct_fields(fields);
                    typed_ast::TypedEnumVariant::Struct {
                        name: name.clone(),
                        fields: converted,
                        meta: meta.copy(),
                        typ: self.fresh_var(),
                    }
                },
            };
            out.push(v);
            i = i + 1;
        }
        assert(variants@.subrange(0, i as int) =~= variants@);
        out
    }

    /// The names of the variants of an enum.
    fn variant_names(variants: &Vec<ast::EnumVariant>) -> (r: Vec<String>)
        ensures
            r@.len() == variants@.len(),
            forall|i: int| 0 <= i < variants@.len() ==> (#[trigger] r@[i])@ == variant_name(variants@[i]),
    {
        let mut out: Vec<String> = Vec::new();
        let mut i: usize = 0;
        while i < variants.len()
            invariant
                i <= variants@.len(),
                out@.len() == i,
                forall|k: int| 0 <= k < i ==> (#[trigger] out@[k])@ == variant_name(variants@[k]),
            decreases variants.len() - i,
        {
            match &variants[i] {
                ast::EnumVariant::Tuple { name, .. } => out.push(name.clone()),
                ast::EnumVariant::Struct { name, .. } => out.push(name.clone()),
            }
            i = i + 1;
        }
        out
    }

    /// The signature of one method of a trait, with its type (see
    /// `method_run`): the generic parameters of the method are in scope (and
    /// only they), and `self` has the type `self_type`. When a bound of the
    /// method's generic parameters names no trait, none of them is in scope,
    /// and the variables and constraints entered before that bound stay.
    fn trait_method(&mut self, m: &ast::MethodSignature, self_type: &Type) -> (r: typed_ast::TypedMethodSignature)
        ensures
            final(self).substitution == old(self).substitution,
            final(self).generic_mapping == old(self).generic_mapping,
            final(self).current_impl_type == old(self).current_impl_type,
            final(self).trait_env == old(self).trait_env,
            final(self).env == old(self).env,
            final(self).impl_env == old(self).impl_env,
            final(self).struct_env == old(self).struct_env,
            final(self).enum_env == old(self).enum_env,
            final(self).function_env == old(self).function_env,
            ({
                let run = method_run(
                    *m,
                    old(self).trait_env@.dom(),
                    old(self).current_impl_type,
                    self_type@,
                    old(self).next_var,
                );
                &&& r.typ@ == run.0
                &&& final(self).next_var == run.1
                &&& constraints_view(final(self).constraints@) == constraints_view(old(self).constraints@) + run.2
            }),
            same_method(*m, r),
            forall|k: int|
                0 <= k < m.args@.len() && #[trigger] names_method_generic(*m, k, old(self).trait_env@.dom())
                    ==> param_typed_var(r, k),
    {
        let ghost n_m = self.next_var;
        let mut method_generic_map = if m.generic_params.len() == 0 {
            NameMap::new()
        } else {
            match self.process_method_generic_params(&m.generic_params) {
                Ok(map) => map,
                Err(_) => NameMap::new(),
            }
        };
        std::mem::swap(&mut method_generic_map, &mut self.generic_mapping);
        let ghost gm0 = self.generic_mapping;
        let ghost traits = old(self).trait_env@.dom();
        let ghost st = old(self).current_impl_type;
        let ghost entered = generics_run(m.generic_params@, traits, n_m);
        let ghost cs0 = constraints_view(self.constraints@);
        proof {
            if m.generic_params@.len() == 0 {
                assert(generic_names(m.generic_params@) =~= Seq::<Seq<char>>::empty());
            }
        }
        assert(gm0@ == method_scope(*m, traits, n_m));
        assert(self.next_var == entered.0);
        assert(cs0 == constraints_view(old(self).constraints@) + entered.1) by {
            if m.generic_params@.len() == 0 {
                assert(constraints_view(old(self).constraints@) + entered.1 =~= constraints_view(old(self).constraints@));
            }
        }
        let ghost mut tys: Seq<TypeV> = Seq::empty();
        let ghost bound_vars = m.generic_params@.len() > 0 && undefined_generic_constraint(
            m.generic_params@,
            old(self).trait_env@.dom(),
        ) is None;
        proof {
            lemma_generic_vars(m.generic_params@, n_m);
        }
        assert(bound_vars ==> env_types(gm0@) == generic_vars(m.generic_params@, n_m));
        let mut arg_types: Vec<Type> = Vec::new();
        let mut typed_args: Vec<typed_ast::TypedMethodParam> = Vec::new();
        let mut i: usize = 0;
        while i < m.args.len()
            invariant
                i <= m.args@.len(),
                typed_args@.len() == i,
                self.substitution == old(self).substitution,
                self.current_impl_type == old(self).current_impl_type,
                self.trait_env == old(self).trait_env,
                self.generic_mapping == gm0,
                bound_vars == (m.generic_params@.len() > 0 && undefined_generic_constraint(
                    m.generic_params@,
                    old(self).trait_env@.dom(),
                ) is None),
                bound_vars ==> env_types(gm0@) == generic_vars(m.generic_params@, n_m),
                forall|x: Seq<char>| #[trigger] generic_vars(m.generic_params@, n_m).contains_key(x)
                    ==> generic_vars(m.generic_params@, n_m)[x] is Var,
                forall|k: int| 0 <= k < m.generic_params@.len() ==> generic_vars(m.generic_params@, n_m).contains_key(
                    #[trigger] m.generic_params@[k].name@,
                ),
                forall|k: int|
                    0 <= k < i && #[trigger] names_method_generic(*m, k, old(self).trait_env@.dom())
                        ==> arg_typed_var(typed_args@, k),
                forall|k: int| 0 <= k < i ==> same_method_param(m.args@[k], #[trigger] typed_args@[k]),
                self.env == old(self).env,
                self.impl_env == old(self).impl_env,
                self.struct_env == old(self).struct_env,
                self.enum_env == old(self).enum_env,
                self.function_env == old(self).function_env,
                constraints_view(self.constraints@) == cs0,
                (tys, self.next_var) == method_params_run(m.args@.subrange(0, i as int), gm0@, st, self_type@, entered.0),
                arg_types@.len() == i,
                tys.len() == i,
                st == old(self).current_impl_type,
                forall|k: int| 0 <= k < i ==> (#[trigger] arg_types@[k])@ == tys[k],
            decreases m.args.len() - i,
        {
            proof {
                let ps = m.args@.subrange(0, i as int + 1);
                assert(ps.drop_last() =~= m.args@.subrange(0, i as int));
                assert(ps.last() == m.args@[i as int]);
            }
            let ghost before = tys;
            match &m.args[i] {
                ast::MethodParam::SelfParam => {
                    arg_types.push(copy_type(self_type));
                    typed_args.push(typed_ast::TypedMethodParam::SelfParam { typ: copy_type(self_type) });
                    proof {
                        tys = before.push(self_type@);
                    }
                },
                ast::MethodParam::TypedParam { name, type_annotation } => {
                    let param_type = self.convert_to_internal_type(type_annotation);
                    proof {
                        tys = before.push(param_type@);
                    }
                    arg_types.push(copy_type(&param_type));
                    typed_args.push(
                        typed_ast::TypedMethodParam::TypedParam {
                            name: name.clone(),
                            type_annotation: self.convert_type_annotation(type_annotation),
                            typ: param_type,
                        },
                    );
                },
            }
            i = i + 1;
        }
        proof {
            assert(m.args@.subrange(0, i as int) =~= m.args@);
            lemma_types_view(arg_types@);
            assert(types_view(arg_types@) =~= tys);
        }
        let ret_type = match &m.return_type {
            Some(rt) => self.convert_to_internal_type(rt),
            None => self.fresh_var(),
        };
        let method_type = Type::Fun { args: arg_types, ret: Box::new(ret_type) };
        let return_type = match &m.return_type {
            Some(rt) => Some(self.convert_type_annotation(rt)),
            None => None,
        };
        let signature = typed_ast::TypedMethodSignature {
            name: m.name.clone(),
            args: typed_args,
            return_type,
            generic_params: self.convert_generic_params(&m.generic_params),
            meta: m.meta.copy(),
            typ: method_type,
        };
        self.generic_mapping = method_generic_map;
        signature
    }

    /// The signatures of the methods of a trait, and the type of each
    /// method by name (see `methods_run`).
    fn trait_methods(&mut self, methods: &Vec<ast::MethodSignature>, self_type: &Type) -> (r: (
        Vec<typed_ast::TypedMethodSignature>,
        NameMap<Type>,
    ))
        ensures
            final(self).substitution == old(self).substitution,
            final(self).generic_mapping == old(self).generic_mapping,
            final(self).current_impl_type == old(self).current_impl_type,
            final(self).trait_env == old(self).trait_env,
            same_methods(methods@, r.0@),
            forall|j: int, k: int|
                0 <= j < methods@.len() && 0 <= k < methods@[j].args@.len() && #[trigger] names_method_generic(
                    methods@[j],
                    k,
                    old(self).trait_env@.dom(),
                ) ==> param_typed_var(r.0@[j], k),
            forall|k: Seq<char>|
                #[trigger] r.1@.contains_key(k) <==> exists|i: int|
                    0 <= i < methods@.len() && (#[trigger] methods@[i]).name@ == k,
            final(self).env == old(self).env,
            final(self).impl_env == old(self).impl_env,
            final(self).struct_env == old(self).struct_env,
            final(self).enum_env == old(self).enum_env,
            final(self).function_env == old(self).function_env,
            ({
                let run = methods_run(
                    methods@,
                    old(self).trait_env@.dom(),
                    old(self).current_impl_type,
                    self_type@,
                    old(self).next_var,
                );
                &&& r.0@.len() == methods@.len()
                &&& forall|j: int| 0 <= j < methods@.len() ==> (#[trigger] r.0@[j]).typ@ == run.0[j]
                &&& env_types(r.1@) == method_table(methods@, run.0)
                &&& final(self).next_var == run.1
                &&& constraints_view(final(self).constraints@) == constraints_view(old(self).constraints@) + run.2
            }),
    {
        let ghost traits = old(self).trait_env@.dom();
        let ghost st = old(self).current_impl_type;
        let ghost cs0 = constraints_view(self.constraints@);
        let mut method_types: NameMap<Type> = NameMap::new();
        let mut out: Vec<typed_ast::TypedMethodSignature> = Vec::new();
        let mut i: usize = 0;
        proof {
            assert(methods_run(methods@.subrange(0, 0), traits, st, self_type@, old(self).next_var).2
                =~= Seq::<ConstraintV>::empty());
            assert(cs0 + Seq::<ConstraintV>::empty() =~= cs0);
            assert(env_types(method_types@) =~= method_table(methods@.subrange(0, 0), Seq::empty()));
        }
        while i < methods.len()
            invariant
                i <= methods@.len(),
                out@.len() == i,
                forall|k: Seq<char>|
                    #[trigger] method_types@.contains_key(k) <==> exists|j: int|
                        0 <= j < i && (#[trigger] methods@[j]).name@ == k,
                self.substitution == old(self).substitution,
                self.generic_mapping == old(self).generic_mapping,
                self.current_impl_type == old(self).current_impl_type,
                self.trait_env == old(self).trait_env,
                out@.len() == i,
                forall|j: int, k: int|
                    0 <= j < i && 0 <= k < methods@[j].args@.len() && #[trigger] names_method_generic(
                        methods@[j],
                        k,
                        old(self).trait_env@.dom(),
                    ) ==> param_typed_var(out@[j], k),
                forall|k: int| 0 <= k < i ==> same_method(methods@[k], #[trigger] out@[k]),
                self.env == old(self).env,
                self.impl_env == old(self).impl_env,
                self.struct_env == old(self).struct_env,
                self.enum_env == old(self).enum_env,
                self.function_env == old(self).function_env,
                traits == old(self).trait_env@.dom(),
                st == old(self).current_impl_type,
                ({
                    let run = methods_run(methods@.subrange(0, i as int), traits, st, self_type@, old(self).next_var);
                    &&& forall|j: int| 0 <= j < i ==> (#[trigger] out@[j]).typ@ == run.0[j]
                    &&& run.0.len() == i
                    &&& env_types(method_types@) == method_table(methods@.subrange(0, i as int), run.0)
                    &&& self.next_var == run.1
                    &&& constraints_view(self.constraints@) == cs0 + run.2
                }),
            decreases methods.len() - i,
        {
            let ghost prev = methods_run(methods@.subrange(0, i as int), traits, st, self_type@, old(self).next_var);
            let ghost prev_types = method_types@;
            let ghost prev_cs = constraints_view(self.constraints@);
            let signature = self.trait_method(&methods[i], self_type);
            method_types.insert(methods[i].name.clone(), copy_type(&signature.typ));
            proof {
                let ps = methods@.subrange(0, i as int + 1);
                assert(ps.drop_last() =~= methods@.subrange(0, i as int));
                assert(ps.last() == methods@[i as int]);
                let run = methods_run(ps, traits, st, self_type@, old(self).next_var);
                assert(run.0 == prev.0.push(signature.typ@));
                assert(env_types(method_types@) =~= env_types(prev_types).insert(methods@[i as int].name@, signature.typ@));
                let bs = Seq::new(ps.len(), |j: int| (ps[j].name@, run.0[j]));
                assert(bs.drop_last() =~= Seq::new(
                    methods@.subrange(0, i as int).len(),
                    |j: int| (methods@.subrange(0, i as int)[j].name@, prev.0[j]),
                ));
                assert(env_types(method_types@) == method_table(ps, run.0));
                assert(constraints_view(self.constraints@) =~= cs0 + run.2);
            }
            out.push(signature);
            i = i + 1;
        }
        proof {
            assert(methods@.subrange(0, i as int) =~= methods@);
        }
        (out, method_types)
    }

    /// Checks the methods of an impl, in order; the type of each function
    /// among them is filed under its name.
    fn impl_methods(&mut self, methods: &Vec<ast::AstNode>) -> (r: Result<
        (Vec<typed_ast::TypedAstNode>, NameMap<Type>),
        String,
    >)
        ensures
            old(self).substitution@.dom().subset_of(final(self).substitution@.dom()),
            r is Ok ==> final(self).generic_mapping == old(self).generic_mapping,
            r matches Ok((ts, _)) ==> nodes_mirror(methods@, ts@),
            r matches Ok((ts, mt)) ==> env_types(mt@) == bound_all(Map::empty(), function_types(ts@)),
            runs(
                node_step(),
                *old(self),
                methods@,
                *final(self),
                match r {
                    Ok((ts, _)) => Ok(ts@),
                    Err(e) => Err(e),
                },
            ),
            checks_nodes(*old(self), methods@, *final(self), crate::typechecker::expr::first_seq_result(r)),
        decreases methods, 0nat,
    {
        let mut method_types: NameMap<Type> = NameMap::new();
        let mut out: Vec<typed_ast::TypedAstNode> = Vec::new();
        let mut i: usize = 0;
        let ghost mut cs: Seq<TypeChecker> = seq![*self];
        proof {
            lemma_steps_start(node_step(), *self, methods@);
            assert(methods@.subrange(0, 0).len() == 0);
            assert(env_types(method_types@) =~= bound_all(Map::empty(), function_types(out@)));
        }
        while i < methods.len()
            invariant
                i <= methods@.len(),
                out@.len() == i,
                old(self).substitution@.dom().subset_of(self.substitution@.dom()),
                self.generic_mapping == old(self).generic_mapping,
                forall|k: int| 0 <= k < i ==> node_mirrors(methods@[k], #[trigger] out@[k]),
                env_types(method_types@) == bound_all(Map::empty(), function_types(out@)),
                steps_hold(node_step(), cs, methods@, out@),
                cs[0] == *old(self),
                cs.last() == *self,
                checks_nodes(*old(self), methods@.subrange(0, i as int), *self, Ok(out@)),
            decreases methods.len() - i,
        {
            proof {
                assert(decreases_to!(methods => methods[i as int]));
            }
            let ghost pre = *self;
            let ghost ps = methods@.subrange(0, i as int + 1);
            proof {
                assert(ps.drop_last() =~= methods@.subrange(0, i as int));
                assert(ps.last() == methods@[i as int]);
                assert(reached(pre, Ok::<Seq<typed_ast::TypedAstNode>, String>(out@)));
            }
            let res = self.typecheck_node(&methods[i]);
            assert(checks_node(pre, methods@[i as int], *self, res));
            assert(reached(*self, res));
            let typed_method = match res {
                Ok(t) => t,
                Err(e) => {
                    proof {
                        lemma_runs_err(node_step(), cs, methods@, out@, *self, e);
                        assert(checks_nodes(*old(self), ps, *self, Err(e)));
                        lemma_checks_nodes_err(*old(self), methods@, i as int + 1, *self, e);
                    }
                    return Err(e);
                },
            };
            let ghost before_types = method_types@;
            let ghost tm = typed_method;
            let ghost prev_fts = function_types(out@);
            match &typed_method.kind {
                typed_ast::TypedAstNodeKind::Function { name, .. } => {
                    method_types.insert(name.clone(), copy_type(&typed_method.typ));
                    assert(env_types(method_types@) =~= env_types(before_types).insert(name@, typed_method.typ@));
                    assert(prev_fts.push((name@, tm.typ@)).drop_last() =~= prev_fts);
                },
                _ => {},
            }
            let ghost prev_out = out@;
            out.push(typed_method);
            proof {
                assert(out@.drop_last() =~= prev_out);
                assert(out@.last() == tm);
                lemma_steps_push(node_step(), cs, methods@, prev_out, *self, out@.last());
                assert(prev_out.push(out@.last()) =~= out@);
                assert(checks_nodes(*old(self), ps, *self, Ok(out@)));
                cs = cs.push(*self);
            }
            i = i + 1;
        }
        proof {
            lemma_runs_ok(node_step(), cs, methods@, out@);
            assert(methods@.subrange(0, i as int) =~= methods@);
        }
        Ok((out, method_types))
    }

    /// Infers the type of a declaration and records what it declares.
    pub fn typecheck_node(&mut self, node: &ast::AstNode) -> (r: Result<typed_ast::TypedAstNode, String>)
        ensures
            old(self).substitution@.dom().subset_of(final(self).substitution@.dom()),
            r matches Ok(tn) ==> node_mirrors(*node, tn) && tn.typ@ == TypeV::Var(old(self).next_var)
                && same_meta(node.meta, tn.meta),
            r is Ok ==> final(self).generic_mapping == old(self).generic_mapping
                && final(self).current_impl_type == old(self).current_impl_type,
            (node.kind is Function && undefined_generic_constraint(
                node.kind->Function_generic_params@,
                old(self).trait_env@.dom(),
            ) is None) ==> function_rule(*old(self), *node, *final(self), r),
            node.kind is Import ==> *final(self) == bump(bump(*old(self))) && r is Ok,
            node.kind is Extern ==> extern_rule(*old(self), *node, *final(self), r),
            node.kind is Const ==> const_rule(*old(self), *node, *final(self), r),
            (node.kind is Struct && undefined_generic_constraint(
                node.kind->Struct_generic_params@,
                old(self).trait_env@.dom(),
            ) is None) ==> struct_rule(*old(self), *node, *final(self), r),
            (node.kind is Enum && undefined_generic_constraint(
                node.kind->Enum_generic_params@,
                old(self).trait_env@.dom(),
            ) is None) ==> enum_rule(*old(self), *node, *final(self), r),
            (node.kind is Trait && undefined_generic_constraint(
                node.kind->Trait_generic_params@,
                old(self).trait_env@.dom(),
            ) is None) ==> trait_rule(*old(self), *node, *final(self), r),
            (node.kind is Trait && r is Ok) ==> method_generics_are_vars(*node, r->Ok_0, old(self).trait_env@.dom()),
            (node.kind is Impl && (node.kind->Impl_trait_name matches Some(t) ==> old(self).trait_env@.contains_key(t@))
                && node.kind->Impl_for_type.kind is Constructor) ==> impl_rule(*old(self), *node, *final(self), r),
            r is Ok ==> records(*node, *final(self)),
            match declared_generics(node.kind) {
                Some(gps) => match undefined_generic_constraint(gps, old(self).trait_env@.dom()) {
                    Some(n) => (r matches Err(e) && e@ == undefined_trait_message(n)),
                    None => true,
                },
                None => true,
            },
            node.kind matches ast::AstNodeKind::Impl { trait_name: Some(t), .. } ==> (!old(
                self,
            ).trait_env@.contains_key(t@) ==> (r matches Err(e) && e@ == trait_not_found_message(t@)
                && same_but_counter(*old(self), *final(self)))),
            node.kind matches ast::AstNodeKind::Impl { trait_name, for_type, .. } ==> ((trait_name matches Some(
                t,
            ) ==> old(self).trait_env@.contains_key(t@)) && !(for_type.kind is Constructor) ==> (r matches Err(
                e,
            ) && e@ == impl_target_message() && same_but_counter(*old(self), *final(self)))),
        decreases node, 1nat,
    {
        let typ = self.fresh_var();
        let kind = match &node.kind {
            ast::AstNodeKind::Function { name, args, return_type, generic_params, body } => {
                let ghost c1 = *self;
                assert(c1 == bump(*old(self)));
                let mut generic_map = self.process_generic_params(generic_params)?;
                std::mem::swap(&mut generic_map, &mut self.generic_mapping);
                let ghost c3 = *self;
                assert(generics_entered(c1, generic_params@, c3));
                let arg_types = self.bind_function_params(args);
                let ghost c4 = *self;
                proof {
                    lemma_types_view(arg_types@);
                    assert(param_bindings(args@, arg_types@) =~= Seq::new(
                        args@.len(),
                        |k: int| (args@[k].name@, types_view(arg_types@)[k]),
                    ));
                }
                assert(params_bound(c3, args@, c4, types_view(arg_types@)));
                let ret_type = match return_type {
                    Some(rt) => self.convert_to_internal_type(rt),
                    None => self.fresh_var(),
                };
                let ghost c5 = *self;
                assert(return_run(c4, *return_type) == (ret_type@, c5));
                let fun_type = Type::Fun { args: arg_types, ret: Box::new(ret_type) };
                let u = self.unify(&typ, &fun_type);
                assert(unifies(c5, TypeV::Var(old(self).next_var), fun_type@, *self, u));
                assert(reached(*self, u));
                u?;
                let ghost c6 = *self;
                let ry = self.typecheck_exprs(body);
                assert(infers_list(c6, body@, *self, crate::typechecker::expr::seq_result(ry)));
                assert(reached(*self, crate::typechecker::expr::seq_result(ry)));
                let typed_body = ry?;
                let ghost c7 = *self;
                self.generic_mapping = generic_map;
                let mut generic_names: Vec<String> = Vec::new();
                let mut i: usize = 0;
                while i < generic_params.len()
                    invariant
                        i <= generic_params@.len(),
                        generic_names@.len() == i,
                        forall|k: int| 0 <= k < i ==> (#[trigger] generic_names@[k])@ == generic_params@[k].name@,
                    decreases generic_params.len() - i,
                {
                    generic_names.push(generic_params[i].name.clone());
                    i = i + 1;
                }
                let ghost gn = generic_names@;
                let ghost ft = fun_type@;
                self.function_env.insert(
                    name.clone(),
                    FunctionSignature { generic_params: generic_names, typ: fun_type },
                );
                proof {
                    assert(names_view(gn) =~= generic_params@.map_values(|g: ast::GenericParam| g.name@));
                    assert(self.function_env@.remove(name@) =~= c7.function_env@.remove(name@));
                }
                assert(function_filed(*old(self), c7, name@, generic_params@, ft, *self));
                let typed_args = self.bound_params(args)?;
                let converted_return = match return_type {
                    Some(rt) => Some(self.convert_type_annotation(rt)),
                    None => None,
                };
                assert(records(*node, *self));
                typed_ast::TypedAstNodeKind::Function {
                    name: name.clone(),
                    args: typed_args,
                    return_type: converted_return,
                    generic_params: self.convert_generic_params(generic_params),
                    body: typed_body,
                }
            },
            ast::AstNodeKind::Struct { name, generic_params, fields } => {
                let ghost c1 = *self;
                let mut generic_map = self.process_generic_params(generic_params)?;
                std::mem::swap(&mut generic_map, &mut self.generic_mapping);
                let ghost c3 = *self;
                assert(generics_entered(bump(*old(self)), generic_params@, c3));
                let field_types = self.field_types(fields);
                let ghost ftv = field_types@;
                let ghost run = field_types_run(fields@, c3.generic_mapping@, c3.current_impl_type, c3.next_var);
                self.struct_env.insert(name.clone(), field_types);
                let ghost c5 = *self;
                proof {
                    assert(bindings_view(ftv) =~= Seq::new(fields@.len(), |i: int| (fields@[i].name@, run.0[i])));
                    assert(c5.struct_env@.remove(name@) =~= c3.struct_env@.remove(name@));
                }
                assert(struct_filed(c3, name@, fields@, run.0, run.1, c5));
                let margs = self.mapping_values();
                proof {
                    lemma_types_view(margs@);
                    assert(types_view(margs@) =~= mapping_types(c5));
                }
                let con_type = Type::Con { name: name.clone(), args: margs };
                let u = self.unify(&typ, &con_type);
                assert(unifies(c5, TypeV::Var(old(self).next_var), con_type@, *self, u));
                assert(reached(*self, u));
                u?;
                let ghost c6 = *self;
                self.generic_mapping = generic_map;
                assert(*self == restored(c6, *old(self)));
                let typed_fields = self.typed_struct_fields(fields);
                assert(records(*node, *self));
                typed_ast::TypedAstNodeKind::Struct {
                    name: name.clone(),
                    generic_params: self.convert_generic_params(generic_params),
                    fields: typed_fields,
                }
            },
            ast::AstNodeKind::Trait { name, generic_params, methods } => {
                let mut generic_map = self.process_generic_params(generic_params)?;
                proof {
                    lemma_generics_run_defined(generic_params@, old(self).trait_env@.dom(), after(old(self).next_var));
                }
                std::mem::swap(&mut generic_map, &mut self.generic_mapping);
                let self_type = self.fresh_var();
                self.generic_mapping.insert(owned("Self"), copy_type(&self_type));
                let ghost c4 = *self;
                let (typed_methods, method_types) = self.trait_methods(methods, &self_type);
                let ghost c5 = *self;
                self.trait_env.insert(name.clone(), method_types);
                proof {
                    assert(self.trait_env@.remove(name@) =~= old(self).trait_env@.remove(name@));
                }
                self.generic_mapping = generic_map;
                let _ = self.fresh_var();
                assert(records(*node, *self));
                typed_ast::TypedAstNodeKind::Trait {
                    name: name.clone(),
                    generic_params: self.convert_generic_params(generic_params),
                    methods: typed_methods,
                }
            },
            ast::AstNodeKind::Enum { name, generic_params, variants } => {
                let mut generic_map = self.process_generic_params(generic_params)?;
                std::mem::swap(&mut generic_map, &mut self.generic_mapping);
                let ghost c3 = *self;
                assert(generics_entered(bump(*old(self)), generic_params@, c3));
                let vnames = TypeChecker::variant_names(variants);
                let ghost vn = vnames@;
                self.enum_env.insert(name.clone(), vnames);
                let ghost c5 = *self;
                proof {
                    assert(names_view(vn) =~= variants@.map_values(|v: ast::EnumVariant| variant_name(v)));
                    assert(c5.enum_env@.remove(name@) =~= c3.enum_env@.remove(name@));
                }
                assert(enum_filed(c3, name@, variants@, c5));
                let margs = self.mapping_values();
                proof {
                    lemma_types_view(margs@);
                    assert(types_view(margs@) =~= mapping_types(c5));
                }
                let con_type = Type::Con { name: name.clone(), args: margs };
                let u = self.unify(&typ, &con_type);
                assert(unifies(c5, TypeV::Var(old(self).next_var), con_type@, *self, u));
                assert(reached(*self, u));
                u?;
                let ghost c6 = *self;
                let typed_variants = self.typed_variants(variants);
                self.generic_mapping = generic_map;
                assert(*self == restored(with_counter(c6, variants_counter(variants@, c6.generic_mapping@, c6.current_impl_type, c6.next_var)), *old(self)));
                assert(records(*node, *self));
                typed_ast::TypedAstNodeKind::Enum {
                    name: name.clone(),
                    generic_params: self.convert_generic_params(generic_params),
                    variants: typed_variants,
                }
            },
            ast::AstNodeKind::Impl { trait_name, for_type, methods } => {
                match trait_name {
                    Some(t) => {
                        if !self.trait_env.contains_key(t.as_str()) {
                            let mut message = owned("trait ");
                            push_str(&mut message, t.as_str());
                            push_str(&mut message, " not found");
                            return Err(message);
                        }
                    },
                    None => {},
                }
                let ghost c1 = *self;
                let impl_type = self.convert_to_internal_type(for_type);
                let ghost run = annotation_run(*for_type, old(self).generic_mapping@, old(self).current_impl_type, after(old(self).next_var));
                assert(*self == with_counter(bump(*old(self)), run.1));
                let for_type_key = match &for_type.kind {
                    ast::TypeAnnotationKind::Constructor { name, generic_args } => impl_key_of(name, generic_args),
                    _ => {
                        return Err(owned("impl for_type must be a constructor"));
                    },
                };
                let mut saved_impl_type = Some(impl_type);
                std::mem::swap(&mut saved_impl_type, &mut self.current_impl_type);
                let ghost c3 = *self;
                assert(impl_entered(with_counter(bump(*old(self)), run.1), run.0, c3));
                assert(passed(c3));
                let rm = self.impl_methods(methods);
                assert(checks_nodes(c3, methods@, *self, crate::typechecker::expr::first_seq_result(rm)));
                assert(reached(*self, crate::typechecker::expr::first_seq_result(rm)));
                let (typed_methods, impl_method_types) = rm?;
                let ghost c4 = *self;
                let ghost ts = typed_methods@;
                self.current_impl_type = saved_impl_type;
                let trait_key = match trait_name {
                    Some(t) => t.clone(),
                    None => owned(""),
                };
                proof {
                    reveal_strlit("");
                }
                let mut by_type = match self.impl_env.swap_value(trait_key.as_str(), NameMap::new()) {
                    Some(m) => m,
                    None => NameMap::new(),
                };
                let ghost for_type_key_view = for_type_key@;
                let ghost prev_by_type = by_type@;
                let ghost mt = impl_method_types@;
                by_type.insert(for_type_key, impl_method_types);
                let ghost bt = by_type@;
                self.impl_env.insert(trait_key, by_type);
                let _ = self.fresh_var();
                proof {
                    assert(self.impl_env@.remove(trait_key@) =~= c4.impl_env@.remove(trait_key@));
                    assert(prev_by_type == (if c4.impl_env@.contains_key(trait_key@) {
                        c4.impl_env@[trait_key@]@
                    } else {
                        Map::<Seq<char>, NameMap<Type>>::empty()
                    }));
                    assert(bt.remove(for_type_key_view) =~= prev_by_type.remove(for_type_key_view));
                    assert(for_type_key_view == impl_key(for_type.kind->Constructor_name@, for_type.kind->Constructor_generic_args@));
                }
                assert(self.impl_env@.contains_key(trait_key@));
                assert(self.impl_env@[trait_key@]@.contains_key(for_type_key_view));
                assert(trait_key@ == match trait_name { Some(t) => t@, None => Seq::<char>::empty() });
                assert(trait_key@ == impl_trait_key(*node));
                assert(impl_filed(*old(self), c4, *node, ts, *self));
                assert(records(*node, *self));
                typed_ast::TypedAstNodeKind::Impl {
                    trait_name: match trait_name {
                        Some(t) => Some(t.clone()),
                        None => None,
                    },
                    for_type: self.convert_type_annotation(for_type),
                    methods: typed_methods,
                }
            },
            ast::AstNodeKind::Extern { name, args, return_type } => {
                let ghost c1 = *self;
                let arg_types = self.field_types_of_params(args);
                let ret_type = match return_type {
                    Some(rt) => self.convert_to_internal_type(rt),
                    None => con("void"),
                };
                let _ = Type::Fun { args: arg_types, ret: Box::new(ret_type) };
                let typed_args = self.typed_params(args);
                assert(*self == with_counter(*old(self), extern_counter(*old(self), *node)));
                let converted_return = match return_type {
                    Some(rt) => Some(self.convert_type_annotation(rt)),
                    None => None,
                };
                typed_ast::TypedAstNodeKind::Extern {
                    name: name.clone(),
                    args: typed_args,
                    return_type: converted_return,
                }
            },
            ast::AstNodeKind::Const { name, type_annotation, value } => {
                let ghost c1 = *self;
                let rx = self.typecheck_expr(value);
                assert(infers(c1, node.kind->Const_value, *self, rx));
                assert(reached(*self, rx));
                let typed_value = rx?;
                let ghost c2 = *self;
                let converted = match type_annotation {
                    Some(ta) => {
                        let expected_typ = self.convert_to_internal_type(ta);
                        let ghost run = annotation_run(*ta, c2.generic_mapping@, c2.current_impl_type, c2.next_var);
                        assert(*self == with_counter(c2, run.1));
                        let u = self.unify(&typed_value.typ, &expected_typ);
                        assert(unifies(with_counter(c2, run.1), typed_value.typ@, run.0, *self, u));
                        assert(reached(*self, u));
                        u?;
                        Some(self.convert_type_annotation(ta))
                    },
                    None => None,
                };
                typed_ast::TypedAstNodeKind::Const {
                    name: name.clone(),
                    type_annotation: converted,
                    value: typed_value,
                }
            },
            ast::AstNodeKind::Import { path, items } => {
                let _ = self.fresh_var();
                let mut typed_items: Vec<typed_ast::ImportItem> = Vec::new();
                let mut i: usize = 0;
                while i < items.len()
                    invariant
                        i <= items@.len(),
                        typed_items@.len() == i,
                        forall|k: int|
                            0 <= k < i ==> items@[k].name@ == (#[trigger] typed_items@[k]).name@
                                && crate::typechecker::mirror::same_opt_name(items@[k].alias, typed_items@[k].alias),
                    decreases items.len() - i,
                {
                    let alias = match &items[i].alias {
                        Some(a) => Some(a.clone()),
                        None => None,
                    };
                    typed_items.push(typed_ast::ImportItem { name: items[i].name.clone(), alias });
                    i = i + 1;
                }
                typed_ast::TypedAstNodeKind::Import { path: path.clone(), items: typed_items }
            },
        };
        Ok(typed_ast::TypedAstNode { meta: node.meta.copy(), kind, typ })
    }

    /// The types of the parameters of an extern declaration.
    fn field_types_of_params(&mut self, args: &Vec<ast::FunctionParam>) -> (r: Vec<Type>)
        ensures
            same_but_counter(*old(self), *final(self)),
            r@.len() == args@.len(),
            forall|k: int|
                0 <= k < args@.len() && fixed_annotation(*old(self), args@[k].type_annotation) ==> (
                #[trigger] r@[k])@ == annotation_type(
                    args@[k].type_annotation,
                    old(self).generic_mapping@,
                    old(self).current_impl_type,
                ),
            (forall|k: int| 0 <= k < args@.len() ==> fixed_annotation(*old(self), #[trigger] args@[k].type_annotation))
                ==> final(self).next_var == old(self).next_var,
            (types_view(r@), final(self).next_var) == param_types_run(
                args@,
                old(self).generic_mapping@,
                old(self).current_impl_type,
                old(self).next_var,
                false,
            ),
    {
        let mut out: Vec<Type> = Vec::new();
        assert(types_view(out@) =~= Seq::<TypeV>::empty());
        let mut i: usize = 0;
        while i < args.len()
            invariant
                i <= args@.len(),
                same_but_counter(*old(self), *self),
                out@.len() == i,
                forall|k: int|
                    0 <= k < i && fixed_annotation(*old(self), args@[k].type_annotation) ==> (
                    #[trigger] out@[k])@ == annotation_type(
                        args@[k].type_annotation,
                        old(self).generic_mapping@,
                        old(self).current_impl_type,
                    ),
                (forall|k: int| 0 <= k < i ==> fixed_annotation(*old(self), #[trigger] args@[k].type_annotation))
                    ==> self.next_var == old(self).next_var,
                (types_view(out@), self.next_var) == param_types_run(
                    args@.subrange(0, i as int),
                    old(self).generic_mapping@,
                    old(self).current_impl_type,
                    old(self).next_var,
                    false,
                ),
            decreases args.len() - i,
        {
            let ghost prev = out@;
            out.push(self.convert_to_internal_type(&args[i].type_annotation));
            proof {
                let ps = args@.subrange(0, i as int + 1);
                assert(ps.drop_last() =~= args@.subrange(0, i as int));
                assert(ps.last() == args@[i as int]);
                assert(out@.drop_last() =~= prev);
                if forall|k: int| 0 <= k < i + 1 ==> fixed_annotation(*old(self), #[trigger] args@[k].type_annotation) {
                    assert(fixed_annotation(*old(self), args@[i as int].type_annotation));
                }
            }
            i = i + 1;
        }
        assert(args@.subrange(0, i as int) =~= args@);
        out
    }
}

/// Whether the first of the parameters `args` is `self` inside an impl.
pub open spec fn self_param(c: TypeChecker, args: Seq<ast::FunctionParam>) -> bool {
    c.current_impl_type is Some && args.len() > 0 && args[0].name@ == "self"@
}

/// Once a prefix of `ns` fails, checking all of them fails with the same
/// error in the same state.
pub proof fn lemma_checks_nodes_err(b: TypeChecker, ns: Seq<ast::AstNode>, k: int, a: TypeChecker, m: String)
    requires
        0 <= k <= ns.len(),
        checks_nodes(b, ns.subrange(0, k), a, Err(m)),
    ensures
        checks_nodes(b, ns, a, Err(m)),
    decreases ns.len(),
{
    if k < ns.len() {
        assert(ns.drop_last().subrange(0, k) =~= ns.subrange(0, k));
        lemma_checks_nodes_err(b, ns.drop_last(), k, a, m);
        assert(reached(a, Err::<Seq<typed_ast::TypedAstNode>, String>(m)));
    } else {
        assert(ns.subrange(0, k) =~= ns);
    }
}

} // verus!
