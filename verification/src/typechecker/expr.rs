//! Type inference for expressions.
use vstd::prelude::*;
use crate::ast;
use crate::meta::same_meta;
use crate::text::{owned, str_eq};
use crate::lexer::spec::lexes_as;
use crate::lexer::tokens::TokenType;
use crate::typechecker::convert::convert_literal;
use crate::typechecker::mirror::{
    arm_mirrors, arms_mirror, array_element_mirrors, array_mirrors, expr_mirrors, exprs_mirror,
    init_field_mirrors, init_fields_mirror, row_field_mirrors, row_mirrors, same_param, same_params,
};
use crate::typechecker::names::{distinct_names, entries_as_map, lemma_entries_as_map, NameMap};
use crate::typechecker::substitution::{apply_type, bindable, lemma_bind_fresh};
use crate::typechecker::convert::{annotation_run, annotation_type, mapped_type, mentions_self, pattern_binds, pattern_run};
use crate::typechecker::substitution::unify_run;
use crate::typechecker::{after, con, con_v, literal_type, progressed, same_but_counter, same_decls, FunctionSignature, TypeChecker};
use crate::typed_ast::{copy_type, fields_view, lemma_types_view, types_view, Type, TypeV, TypeVar};
use crate::typed_ast;

verus! {

/// The message for a name that nothing binds.
pub open spec fn unbound_message() -> Seq<char> {
    "unbound variable"@
}

/// Whether some impl of some trait gives the type named `owner` a
/// method `field` of type `t`.
pub open spec fn has_method(
    impls: Map<Seq<char>, NameMap<NameMap<Type>>>,
    owner: Seq<char>,
    field: Seq<char>,
    t: TypeV,
) -> bool {
    exists|k: Seq<char>|
        #![trigger impls[k]]
        impls.contains_key(k) && impls[k]@.contains_key(owner) && impls[k]@[owner]@.contains_key(
            field,
        ) && impls[k]@[owner]@[field]@ == t
}

/// Whether some impl of some trait gives the type named `owner` a
/// method `field`.
pub open spec fn has_some_method(
    impls: Map<Seq<char>, NameMap<NameMap<Type>>>,
    owner: Seq<char>,
    field: Seq<char>,
) -> bool {
    exists|k: Seq<char>|
        #![trigger impls[k]]
        impls.contains_key(k) && impls[k]@.contains_key(owner) && impls[k]@[owner]@.contains_key(
            field,
        )
}

/// `n` advanced `k` times, as the counter of fresh variables advances.
pub open spec fn counted(n: usize, k: nat) -> usize
    decreases k,
{
    if k == 0 {
        n
    } else {
        after(counted(n, (k - 1) as nat))
    }
}

/// The generic parameters `names`, each bound to the next fresh type
/// variable counted from `n`; a name given twice keeps the later one.
pub open spec fn fresh_mapping(names: Seq<Seq<char>>, n: usize) -> Map<Seq<char>, Type>
    decreases names.len(),
{
    if names.len() == 0 {
        Map::empty()
    } else {
        fresh_mapping(names.drop_last(), n).insert(
            names.last(),
            Type::Var(TypeVar(counted(n, (names.len() - 1) as nat))),
        )
    }
}

/// The names of a list of names, as values.
pub open spec fn names_view(ns: Seq<String>) -> Seq<Seq<char>> {
    ns.map_values(|s: String| s@)
}

/// The type of a use of the function with the signature `sig`, its generic
/// parameters getting the fresh variables counted from `n`.
pub open spec fn instantiated(sig: FunctionSignature, n: usize) -> TypeV {
    mapped_type(sig.typ@, fresh_mapping(names_view(sig.generic_params@), n))
}

/// The type of the first field named `f` among `fs`, if any.
pub open spec fn first_field_type(fs: Seq<(String, Type)>, f: Seq<char>) -> Option<TypeV>
    decreases fs.len(),
{
    if fs.len() == 0 {
        None
    } else if fs[0].0@ == f {
        Some(fs[0].1@)
    } else {
        first_field_type(fs.drop_first(), f)
    }
}

/// The type of the field `field` of the struct named `owner` in the table
/// `structs`: the first field of that name, if the struct is declared.
pub open spec fn struct_field_type(
    structs: Map<Seq<char>, Vec<(String, Type)>>,
    owner: Seq<char>,
    field: Seq<char>,
) -> Option<TypeV> {
    if structs.contains_key(owner) {
        first_field_type(structs[owner]@, field)
    } else {
        None
    }
}

/// Unifies `t` with each type of `ts`, in order, from the substitution
/// `s`, stopping at the first failure: the substitution reached and the
/// outcome.
pub open spec fn unify_all(s: Map<usize, TypeV>, t: TypeV, ts: Seq<TypeV>) -> (
    Map<usize, TypeV>,
    Result<(), Seq<char>>,
)
    decreases ts.len(),
{
    if ts.len() == 0 {
        (s, Ok(()))
    } else {
        let prefix = unify_all(s, t, ts.drop_last());
        match prefix.1 {
            Ok(()) => unify_run(prefix.0, t, ts.last(), u64::MAX as nat),
            Err(m) => prefix,
        }
    }
}

/// The names and types of a list of bindings, as values.
pub open spec fn bindings_view(bs: Seq<(String, Type)>) -> Seq<(Seq<char>, TypeV)> {
    bs.map_values(|b: (String, Type)| (b.0@, b.1@))
}

/// The types that an environment binds, as values.
pub open spec fn env_types(env: Map<Seq<char>, Type>) -> Map<Seq<char>, TypeV> {
    env.map_values(|t: Type| t@)
}

/// `m` with each binding of `bs` added in turn; a later binding of a name
/// replaces an earlier one.
pub open spec fn bound_all(m: Map<Seq<char>, TypeV>, bs: Seq<(Seq<char>, TypeV)>) -> Map<Seq<char>, TypeV>
    decreases bs.len(),
{
    if bs.len() == 0 {
        m
    } else {
        bound_all(m, bs.drop_last()).insert(bs.last().0, bs.last().1)
    }
}

/// `m` with the binding of each name of `ns` removed.
pub open spec fn unbound_all(m: Map<Seq<char>, Type>, ns: Seq<Seq<char>>) -> Map<Seq<char>, Type>
    decreases ns.len(),
{
    if ns.len() == 0 {
        m
    } else {
        unbound_all(m, ns.drop_last()).remove(ns.last())
    }
}

/// The names that the `let`s among `es` bind and that `env` binds
/// already, in order, each with the type `env` gives it.
pub open spec fn shadowed(es: Seq<ast::Expr>, env: Map<Seq<char>, Type>) -> Seq<(Seq<char>, TypeV)>
    decreases es.len(),
{
    if es.len() == 0 {
        Seq::empty()
    } else {
        let init = shadowed(es.drop_last(), env);
        match es.last().kind {
            ast::ExprKind::Let { name, .. } => if env.contains_key(name@) {
                init.push((name@, env[name@]@))
            } else {
                init
            },
            _ => init,
        }
    }
}

/// Whether the type of a parameter's annotation is fixed by the
/// declarations in scope: it names `Self` only inside an impl.
pub open spec fn fixed_annotation(c: TypeChecker, ta: ast::TypeAnnotation) -> bool {
    c.current_impl_type is Some || !mentions_self(ta)
}

/// The types of the annotations of the parameters `ps`, converted in turn
/// with the counter of fresh variables going on from `n`, and the counter
/// after; where `self_first` holds, the first parameter gets the type of
/// the impl `st` instead and takes no variable.
pub open spec fn param_types_run(
    ps: Seq<ast::FunctionParam>,
    gm: Map<Seq<char>, Type>,
    st: Option<Type>,
    n: usize,
    self_first: bool,
) -> (Seq<TypeV>, usize)
    decreases ps.len(),
{
    if ps.len() == 0 {
        (Seq::empty(), n)
    } else {
        let init = param_types_run(ps.drop_last(), gm, st, n, self_first);
        let last = if self_first && ps.len() == 1 {
            (st->Some_0@, init.1)
        } else {
            annotation_run(ps.last().type_annotation, gm, st, init.1)
        };
        (init.0.push(last.0), last.1)
    }
}

/// The names of the parameters `ps`, in order.
pub open spec fn param_names(ps: Seq<ast::FunctionParam>) -> Seq<Seq<char>> {
    ps.map_values(|p: ast::FunctionParam| p.name@)
}

/// The names and types that the parameters `ps` are bound to, in order.
pub open spec fn param_bindings(ps: Seq<ast::FunctionParam>, ts: Seq<Type>) -> Seq<(Seq<char>, TypeV)> {
    Seq::new(ps.len(), |k: int| (ps[k].name@, ts[k]@))
}

/// Each of the items `xs` that has a result in `ts` was taken, in order,
/// by `step` from one state of `cs` to the next, with that result.
pub open spec fn steps_hold<S, A, T>(
    step: spec_fn(S, A, S, Result<T, String>) -> bool,
    cs: Seq<S>,
    xs: Seq<A>,
    ts: Seq<T>,
) -> bool {
    &&& cs.len() == ts.len() + 1
    &&& ts.len() <= xs.len()
    &&& forall|k: int| #![trigger ts[k]] 0 <= k < ts.len() ==> step(cs[k], xs[k], cs[k + 1], Ok(ts[k]))
}

/// Running `step` on each item of `xs` in order, from the state `before`,
/// ends in the state `after` with the outcome `r`: all the results in
/// order, or the error of the first step that fails (after the steps
/// before it succeeded).
pub open spec fn runs<S, A, T>(
    step: spec_fn(S, A, S, Result<T, String>) -> bool,
    before: S,
    xs: Seq<A>,
    after: S,
    r: Result<Seq<T>, String>,
) -> bool {
    match r {
        Ok(ts) => exists|cs: Seq<S>|
            #[trigger] steps_hold(step, cs, xs, ts) && ts.len() == xs.len() && cs[0] == before && cs.last()
                == after,
        Err(e) => exists|cs: Seq<S>, ts: Seq<T>|
            #[trigger] steps_hold(step, cs, xs, ts) && ts.len() < xs.len() && cs[0] == before && step(
                cs.last(),
                xs[ts.len() as int],
                after,
                Err(e),
            ),
    }
}

/// The contents of a result that holds a list.
pub open spec fn seq_result<T>(r: Result<Vec<T>, String>) -> Result<Seq<T>, String> {
    match r {
        Ok(v) => Ok(v@),
        Err(e) => Err(e),
    }
}

/// The contents of the list in a result that holds a list and more.
pub open spec fn first_seq_result<T, U>(r: Result<(Vec<T>, U), String>) -> Result<Seq<T>, String> {
    match r {
        Ok(p) => Ok(p.0@),
        Err(e) => Err(e),
    }
}

/// No step has been taken yet.
pub proof fn lemma_steps_start<S, A, T>(step: spec_fn(S, A, S, Result<T, String>) -> bool, c: S, xs: Seq<A>)
    ensures
        steps_hold(step, seq![c], xs, Seq::<T>::empty()),
{
}

/// One more step that succeeds.
pub proof fn lemma_steps_push<S, A, T>(
    step: spec_fn(S, A, S, Result<T, String>) -> bool,
    cs: Seq<S>,
    xs: Seq<A>,
    ts: Seq<T>,
    c: S,
    t: T,
)
    requires
        steps_hold(step, cs, xs, ts),
        ts.len() < xs.len(),
        step(cs.last(), xs[ts.len() as int], c, Ok(t)),
    ensures
        steps_hold(step, cs.push(c), xs, ts.push(t)),
        cs.push(c)[0] == cs[0],
        cs.push(c).last() == c,
{
    let cs2 = cs.push(c);
    let ts2 = ts.push(t);
    assert forall|k: int| #![trigger ts2[k]] 0 <= k < ts2.len() implies step(cs2[k], xs[k], cs2[k + 1], Ok(ts2[k])) by {
        if k < ts.len() {
            assert(ts2[k] == ts[k]);
            assert(step(cs[k], xs[k], cs[k + 1], Ok(ts[k])));
        }
    }
}

/// All the steps succeeded.
pub proof fn lemma_runs_ok<S, A, T>(step: spec_fn(S, A, S, Result<T, String>) -> bool, cs: Seq<S>, xs: Seq<A>, ts: Seq<T>)
    requires
        steps_hold(step, cs, xs, ts),
        ts.len() == xs.len(),
    ensures
        runs(step, cs[0], xs, cs.last(), Ok(ts)),
{
    let r: Result<Seq<T>, String> = Ok(ts);
    assert(r->Ok_0 == ts);
    assert(steps_hold(step, cs, xs, r->Ok_0));
}

/// The step after those that succeeded failed.
pub proof fn lemma_runs_err<S, A, T>(
    step: spec_fn(S, A, S, Result<T, String>) -> bool,
    cs: Seq<S>,
    xs: Seq<A>,
    ts: Seq<T>,
    after: S,
    e: String,
)
    requires
        steps_hold(step, cs, xs, ts),
        ts.len() < xs.len(),
        step(cs.last(), xs[ts.len() as int], after, Err(e)),
    ensures
        runs(step, cs[0], xs, after, Err(e)),
{
}

/// A state that a step of checking passed through.
pub open spec fn passed(c: TypeChecker) -> bool {
    true
}

/// A state and an outcome that a step of checking reached.
pub open spec fn reached<T>(c: TypeChecker, r: Result<T, String>) -> bool {
    true
}

/// The checker `c` after it handed out a fresh type variable.
pub open spec fn bump(c: TypeChecker) -> TypeChecker {
    TypeChecker { next_var: after(c.next_var), ..c }
}

/// How the form of `e` decides the outcome of inferring its type, from the
/// state `before` to the state `after`: the expression first takes a fresh
/// variable, then checks its parts in order and unifies as its form asks;
/// the first step that fails decides the error.
pub open spec fn expr_rule(
    before: TypeChecker,
    e: ast::Expr,
    after: TypeChecker,
    r: Result<typed_ast::TypedExpr, String>,
) -> bool
    decreases e, 2nat,
{
    let c1 = bump(before);
    let n0 = before.next_var;
    match e.kind {
        ast::ExprKind::BinaryOp { .. } => binop_rule(c1, n0, e, after, r),
        ast::ExprKind::Literal(l) => unified_last(c1, n0, literal_type(l), after, r),
        ast::ExprKind::Break => unified_last(c1, n0, con_v("void"@), after, r),
        ast::ExprKind::Continue => unified_last(c1, n0, con_v("void"@), after, r),
        ast::ExprKind::UnaryOp { .. } => one_child_rule(c1, n0, e, after, r),
        ast::ExprKind::EarlyReturn(_) => one_child_rule(c1, n0, e, after, r),
        ast::ExprKind::Return(Some(_)) => one_child_rule(c1, n0, e, after, r),
        ast::ExprKind::Return(None) => unified_last(c1, n0, con_v("void"@), after, r),
        ast::ExprKind::Assign { .. } => two_children_rule(c1, n0, e, after, r),
        ast::ExprKind::Range { .. } => two_children_rule(c1, n0, e, after, r),
        ast::ExprKind::Tuple(_) => list_rule(c1, n0, e, after, r),
        ast::ExprKind::Do(_) => list_rule(c1, n0, e, after, r),
        ast::ExprKind::While { .. } => while_rule(c1, n0, e, after, r),
        ast::ExprKind::Variable(name) => var_rule(c1, n0, name@, after, r),
        ast::ExprKind::If { .. } => if_rule(c1, n0, e, after, r),
        ast::ExprKind::FunctionCall { .. } => call_rule(c1, n0, e, after, r),
        ast::ExprKind::StructInit { .. } => struct_init_rule(c1, n0, e, after, r),
        ast::ExprKind::Lambda { .. } => lambda_rule(c1, n0, e, after, r),
        ast::ExprKind::DotAccess { .. } => dot_rule(c1, n0, e, after, r),
        ast::ExprKind::Match { .. } => match_rule(c1, n0, e, after, r),
        ast::ExprKind::Let { .. } => let_rule(c1, e, after, r),
        ast::ExprKind::Cast(..) => cast_rule(c1, n0, e, after, r),
        ast::ExprKind::Block { .. } => block_rule(c1, n0, e, after, r),
        ast::ExprKind::Index { .. } => index_rule(c1, n0, e, after, r),
        ast::ExprKind::For { .. } => for_rule(c1, n0, e, after, r),
        ast::ExprKind::EnumInit { .. } => enum_init_rule(c1, n0, e, after, r),
        ast::ExprKind::Array(_) => array_rule(c1, n0, e, after, r),
        ast::ExprKind::Row(_) => row_rule(c1, n0, e, after, r),
    }
}

/// The checker `c` after it instantiated the signature `sig`: only its
/// counter moved on, by the number of generic parameters.
pub open spec fn after_instantiate(c: TypeChecker, sig: FunctionSignature) -> TypeChecker {
    TypeChecker { next_var: counted(c.next_var, sig.generic_params@.len()), ..c }
}

/// A variable: a function gets its signature's type with fresh variables
/// for its generic parameters, else a bound name its type; the expression's
/// variable is unified with that type. A name bound nowhere is an error.
pub open spec fn var_rule(
    c1: TypeChecker,
    n0: usize,
    name: Seq<char>,
    a: TypeChecker,
    r: Result<typed_ast::TypedExpr, String>,
) -> bool {
    if c1.function_env@.contains_key(name) {
        unified_last(
            after_instantiate(c1, c1.function_env@[name]),
            n0,
            instantiated(c1.function_env@[name], c1.next_var),
            a,
            r,
        )
    } else if c1.env@.contains_key(name) {
        unified_last(c1, n0, c1.env@[name]@, a, r)
    } else {
        a == c1 && (r matches Err(m) && m@ == unbound_message())
    }
}

/// The typed parts of an `if`.
pub open spec fn typed_if_parts(te: typed_ast::TypedExpr) -> Option<
    (typed_ast::TypedExpr, Seq<typed_ast::TypedExpr>, Option<Seq<typed_ast::TypedExpr>>),
> {
    match te.kind {
        typed_ast::TypedExprKind::If { condition, then_branch, else_branch } => Some(
            (
                *condition,
                then_branch@,
                match else_branch {
                    Some(b) => Some(b@),
                    None => None,
                },
            ),
        ),
        _ => None,
    }
}

/// An `if`: the condition is checked and unified with `bool`, then the
/// `then` branch is checked, then the `else` branch (see `else_rule`).
pub open spec fn if_rule(
    c1: TypeChecker,
    n0: usize,
    e: ast::Expr,
    a: TypeChecker,
    r: Result<typed_ast::TypedExpr, String>,
) -> bool
    decreases e, 1nat,
{
    if e.kind is If {
        exists|c2: TypeChecker, x: Result<typed_ast::TypedExpr, String>|
            #[trigger] reached(c2, x) && infers(c1, *e.kind->If_condition, c2, x) && match x {
                Err(m) => a == c2 && r == Err::<typed_ast::TypedExpr, String>(m),
                Ok(tc) => exists|c3: TypeChecker, u: Result<(), String>|
                    #[trigger] reached(c3, u) && unifies(c2, tc.typ@, con_v("bool"@), c3, u) && match u {
                        Err(m) => a == c3 && r == Err::<typed_ast::TypedExpr, String>(m),
                        Ok(_) => exists|c4: TypeChecker, y: Result<Seq<typed_ast::TypedExpr>, String>|
                            #[trigger] reached(c4, y) && infers_list(c3, e.kind->If_then_branch@, c4, y) && match y {
                                Err(m) => a == c4 && r == Err::<typed_ast::TypedExpr, String>(m),
                                Ok(tt) => else_rule(c4, n0, e, tc, tt, a, r),
                            },
                    },
            }
    } else {
        false
    }
}

/// The rest of an `if` once the condition `tc` and the `then` branch `tt`
/// were checked: without an `else` branch the expression's variable is
/// unified with `void`. Else that branch is checked; where both branches
/// end with an expression, their last types are unified and the
/// expression's variable is unified with the `then` one; else it is
/// unified with a fresh variable.
pub open spec fn else_rule(
    c4: TypeChecker,
    n0: usize,
    e: ast::Expr,
    tc: typed_ast::TypedExpr,
    tt: Seq<typed_ast::TypedExpr>,
    a: TypeChecker,
    r: Result<typed_ast::TypedExpr, String>,
) -> bool
    decreases e, 0nat,
{
    if e.kind is If {
        match e.kind->If_else_branch {
            None => (r is Ok ==> typed_if_parts(r->Ok_0) == Some((tc, tt, None::<Seq<typed_ast::TypedExpr>>)))
                && unified_last(c4, n0, con_v("void"@), a, r),
            Some(eb) => exists|c5: TypeChecker, z: Result<Seq<typed_ast::TypedExpr>, String>|
                #[trigger] reached(c5, z) && infers_list(c4, eb@, c5, z) && match z {
                    Err(m) => a == c5 && r == Err::<typed_ast::TypedExpr, String>(m),
                    Ok(tf) => (r is Ok ==> typed_if_parts(r->Ok_0) == Some((tc, tt, Some(tf)))) && if tt.len() > 0
                        && tf.len() > 0 {
                        exists|c6: TypeChecker, u: Result<(), String>|
                            #[trigger] reached(c6, u) && unifies(c5, tt.last().typ@, tf.last().typ@, c6, u) && match u {
                                Err(m) => a == c6 && r == Err::<typed_ast::TypedExpr, String>(m),
                                Ok(_) => unified_last(c6, n0, tt.last().typ@, a, r),
                            }
                    } else {
                        unified_last(bump(c5), n0, TypeV::Var(c5.next_var), a, r)
                    },
                },
        }
    } else {
        false
    }
}

/// The typed parts of a call.
pub open spec fn typed_call_parts(te: typed_ast::TypedExpr) -> Option<(typed_ast::TypedExpr, Seq<typed_ast::TypedExpr>)> {
    match te.kind {
        typed_ast::TypedExprKind::FunctionCall { function, args } => Some((*function, args@)),
        _ => None,
    }
}

/// What a called expression is unified with, in the state `c` after the
/// return variable `v` was handed out: a declared function named directly
/// gives its instantiated signature (and the state after instantiating),
/// anything else the function type from the arguments' types to `v`.
pub open spec fn call_target(c: TypeChecker, function: ast::Expr, args: Seq<typed_ast::TypedExpr>, v: usize) -> (
    TypeChecker,
    TypeV,
) {
    if function.kind is Variable && c.function_env@.contains_key(function.kind->Variable_0@) {
        let sig = c.function_env@[function.kind->Variable_0@];
        (after_instantiate(c, sig), instantiated(sig, c.next_var))
    } else {
        (c, TypeV::Fun { args: typs_of(args), ret: Box::new(TypeV::Var(v)) })
    }
}

/// A call: the function, then the arguments are checked; a fresh variable
/// `v` stands for the result; the function's type is unified with
/// `call_target`, and the expression's variable with `v`.
pub open spec fn call_rule(
    c1: TypeChecker,
    n0: usize,
    e: ast::Expr,
    a: TypeChecker,
    r: Result<typed_ast::TypedExpr, String>,
) -> bool
    decreases e, 1nat,
{
    if e.kind is FunctionCall {
        exists|c2: TypeChecker, x: Result<typed_ast::TypedExpr, String>|
            #[trigger] reached(c2, x) && infers(c1, *e.kind->FunctionCall_function, c2, x) && match x {
                Err(m) => a == c2 && r == Err::<typed_ast::TypedExpr, String>(m),
                Ok(tf) => exists|c3: TypeChecker, y: Result<Seq<typed_ast::TypedExpr>, String>|
                    #[trigger] reached(c3, y) && infers_list(c2, e.kind->FunctionCall_args@, c3, y) && match y {
                        Err(m) => a == c3 && r == Err::<typed_ast::TypedExpr, String>(m),
                        Ok(targs) => (r is Ok ==> typed_call_parts(r->Ok_0) == Some((tf, targs))) && exists|
                            c6: TypeChecker,
                            u: Result<(), String>,
                        |
                            #[trigger] reached(c6, u) && unifies(
                                call_target(bump(c3), *e.kind->FunctionCall_function, targs, c3.next_var).0,
                                tf.typ@,
                                call_target(bump(c3), *e.kind->FunctionCall_function, targs, c3.next_var).1,
                                c6,
                                u,
                            ) && match u {
                                Err(m) => a == c6 && r == Err::<typed_ast::TypedExpr, String>(m),
                                Ok(_) => unified_last(c6, n0, TypeV::Var(c3.next_var), a, r),
                            },
                    },
            }
    } else {
        false
    }
}

/// Inferring the types of the expressions of the fields `fs` of a struct
/// literal in order from the state `b`: the state `a` and the typed
/// fields, or the error of the first that fails.
pub open spec fn infers_init_fields(
    b: TypeChecker,
    fs: Seq<ast::StructInitField>,
    a: TypeChecker,
    r: Result<Seq<typed_ast::TypedStructInitField>, String>,
) -> bool
    decreases fs, fs.len(),
{
    if fs.len() == 0 {
        a == b && r == Ok::<Seq<typed_ast::TypedStructInitField>, String>(Seq::empty())
    } else {
        exists|c: TypeChecker, x: Result<Seq<typed_ast::TypedStructInitField>, String>|
            #[trigger] reached(c, x) && infers_init_fields(b, fs.drop_last(), c, x) && match x {
                Err(m) => a == c && r == Err::<Seq<typed_ast::TypedStructInitField>, String>(m),
                Ok(ts) => exists|y: Result<typed_ast::TypedExpr, String>|
                    #[trigger] reached(a, y) && match fs.last() {
                        ast::StructInitField::Field { value, .. } => infers(c, value, a, y),
                        ast::StructInitField::Spread(v) => infers(c, v, a, y),
                    } && match y {
                        Err(m) => r == Err::<Seq<typed_ast::TypedStructInitField>, String>(m),
                        Ok(t) => r is Ok && r->Ok_0.len() == ts.len() + 1 && r->Ok_0.drop_last() == ts
                            && typed_init_field_value(r->Ok_0.last()) == t,
                    },
            }
    }
}

/// The typed fields of a struct literal.
pub open spec fn typed_init_parts(te: typed_ast::TypedExpr) -> Option<Seq<typed_ast::TypedStructInitField>> {
    match te.kind {
        typed_ast::TypedExprKind::StructInit { fields, .. } => Some(fields@),
        _ => None,
    }
}

/// A struct literal: the expressions of its fields are checked in order,
/// then the expression's variable is unified with the struct's type.
pub open spec fn struct_init_rule(
    c1: TypeChecker,
    n0: usize,
    e: ast::Expr,
    a: TypeChecker,
    r: Result<typed_ast::TypedExpr, String>,
) -> bool
    decreases e, 1nat,
{
    if e.kind is StructInit {
        exists|c2: TypeChecker, x: Result<Seq<typed_ast::TypedStructInitField>, String>|
            #[trigger] reached(c2, x) && infers_init_fields(c1, e.kind->StructInit_fields@, c2, x) && match x {
                Err(m) => a == c2 && r == Err::<typed_ast::TypedExpr, String>(m),
                Ok(tfs) => (r is Ok ==> typed_init_parts(r->Ok_0) == Some(tfs)) && unified_last(
                    c2,
                    n0,
                    TypeV::Con { name: e.kind->StructInit_name@, args: Seq::empty() },
                    a,
                    r,
                ),
            }
    } else {
        false
    }
}

/// The checker `c` with its counter of fresh variables at `n`.
pub open spec fn with_counter(c: TypeChecker, n: usize) -> TypeChecker {
    TypeChecker { next_var: n, ..c }
}

/// The checker `c2` is `c1` with the parameters `ps` of a lambda bound to
/// the types `tys` of their annotations.
pub open spec fn lambda_bound(c1: TypeChecker, ps: Seq<ast::FunctionParam>, c2: TypeChecker, tys: Seq<TypeV>) -> bool {
    &&& same_decls(c1, c2)
    &&& c2.substitution == c1.substitution
    &&& (tys, c2.next_var) == param_types_run(ps, c1.generic_mapping@, c1.current_impl_type, c1.next_var, false)
    &&& env_types(c2.env@) == bound_all(env_types(c1.env@), Seq::new(ps.len(), |k: int| (ps[k].name@, tys[k])))
}

/// The checker `c5` is `c4` with the names `ns` no longer bound.
pub open spec fn names_unbound(c4: TypeChecker, ns: Seq<Seq<char>>, c5: TypeChecker) -> bool {
    &&& same_decls(c4, c5)
    &&& c5.substitution == c4.substitution
    &&& c5.next_var == c4.next_var
    &&& c5.env@ == unbound_all(c4.env@, ns)
}

/// The return type of a lambda whose body was checked with the result
/// `tb` in the state `c`, and the counter after: its annotation's type, or
/// the body's type.
pub open spec fn lambda_return(c: TypeChecker, rt: Option<ast::TypeAnnotation>, tb: typed_ast::TypedExpr) -> (TypeV, usize) {
    match rt {
        Some(t) => annotation_run(t, c.generic_mapping@, c.current_impl_type, c.next_var),
        None => (tb.typ@, c.next_var),
    }
}

/// The typed body of a lambda.
pub open spec fn typed_lambda_body(te: typed_ast::TypedExpr) -> Option<typed_ast::TypedExpr> {
    match te.kind {
        typed_ast::TypedExprKind::Lambda { body, .. } => Some(*body),
        _ => None,
    }
}

/// A lambda: its parameters are bound to the types of their annotations,
/// its body is checked, its return type read (see `lambda_return`), its
/// parameters unbound again, and the expression's variable unified with
/// the function type from the parameters' types to the return type; the
/// typed parameters then read their annotations once more.
pub open spec fn lambda_rule(
    c1: TypeChecker,
    n0: usize,
    e: ast::Expr,
    a: TypeChecker,
    r: Result<typed_ast::TypedExpr, String>,
) -> bool
    decreases e, 1nat,
{
    if e.kind is Lambda {
        exists|c2: TypeChecker, tys: Seq<TypeV>|
            #[trigger] lambda_bound(c1, e.kind->Lambda_params@, c2, tys) && exists|
                c3: TypeChecker,
                x: Result<typed_ast::TypedExpr, String>,
            |
                #[trigger] reached(c3, x) && infers(c2, *e.kind->Lambda_body, c3, x) && match x {
                    Err(m) => a == c3 && r == Err::<typed_ast::TypedExpr, String>(m),
                    Ok(tb) => exists|c5: TypeChecker|
                        #[trigger] passed(c5) && names_unbound(
                            with_counter(c3, lambda_return(c3, e.kind->Lambda_return_type, tb).1),
                            param_names(e.kind->Lambda_params@),
                            c5,
                        ) && exists|c6: TypeChecker, u: Result<(), String>|
                            #[trigger] reached(c6, u) && unifies(
                                c5,
                                TypeV::Var(n0),
                                TypeV::Fun {
                                    args: tys,
                                    ret: Box::new(lambda_return(c3, e.kind->Lambda_return_type, tb).0),
                                },
                                c6,
                                u,
                            ) && match u {
                                Err(m) => a == c6 && r == Err::<typed_ast::TypedExpr, String>(m),
                                Ok(_) => same_but_counter(c6, a) && a.next_var == param_types_run(
                                    e.kind->Lambda_params@,
                                    c6.generic_mapping@,
                                    c6.current_impl_type,
                                    c6.next_var,
                                    false,
                                ).1 && r is Ok && typed_lambda_body(r->Ok_0) == Some(tb),
                            },
                }
    } else {
        false
    }
}

/// What `.field` on a value of the type `t` stands for, from the state
/// `c` to the state `c3`: on a type constructor, a method that an impl
/// gives it, else its struct field of that name; else a fresh variable.
pub open spec fn dot_target(c: TypeChecker, t: TypeV, field: Seq<char>, c3: TypeChecker, x: TypeV) -> bool {
    if t is Con && has_some_method(c.impl_env@, t->Con_name, field) {
        c3 == c && has_method(c.impl_env@, t->Con_name, field, x)
    } else if t is Con && struct_field_type(c.struct_env@, t->Con_name, field) is Some {
        c3 == c && Some(x) == struct_field_type(c.struct_env@, t->Con_name, field)
    } else {
        c3 == bump(c) && x == TypeV::Var(c.next_var)
    }
}

/// The typed value of a field access.
pub open spec fn typed_dot_value(te: typed_ast::TypedExpr) -> Option<typed_ast::TypedExpr> {
    match te.kind {
        typed_ast::TypedExprKind::DotAccess { value, .. } => Some(*value),
        _ => None,
    }
}

/// A field access: the value is checked, then the expression's variable
/// is unified with what the field stands for (see `dot_target`).
pub open spec fn dot_rule(
    c1: TypeChecker,
    n0: usize,
    e: ast::Expr,
    a: TypeChecker,
    r: Result<typed_ast::TypedExpr, String>,
) -> bool
    decreases e, 1nat,
{
    if e.kind is DotAccess {
        exists|c2: TypeChecker, y: Result<typed_ast::TypedExpr, String>|
            #[trigger] reached(c2, y) && infers(c1, *e.kind->DotAccess_value, c2, y) && match y {
                Err(m) => a == c2 && r == Err::<typed_ast::TypedExpr, String>(m),
                Ok(tv) => (r is Ok ==> typed_dot_value(r->Ok_0) == Some(tv)) && exists|c3: TypeChecker, x: TypeV|
                    #[trigger] reached(c3, Ok::<TypeV, String>(x)) && dot_target(
                        c2,
                        tv.typ@,
                        e.kind->DotAccess_field@,
                        c3,
                        x,
                    ) && unified_last(c3, n0, x, a, r),
            }
    } else {
        false
    }
}

/// Checking the arms `arms` of a match in order from the state `b`: the
/// state `a` and the typed arms, or the error of the first that fails. An
/// arm checks its guard, then its pattern, then its body (see
/// `arm_rest`).
pub open spec fn infers_arms(
    b: TypeChecker,
    arms: Seq<ast::MatchArm>,
    a: TypeChecker,
    r: Result<Seq<typed_ast::TypedMatchArm>, String>,
) -> bool
    decreases arms, arms.len(),
{
    if arms.len() == 0 {
        a == b && r == Ok::<Seq<typed_ast::TypedMatchArm>, String>(Seq::empty())
    } else {
        exists|c: TypeChecker, x: Result<Seq<typed_ast::TypedMatchArm>, String>|
            #[trigger] reached(c, x) && infers_arms(b, arms.drop_last(), c, x) && match x {
                Err(m) => a == c && r == Err::<Seq<typed_ast::TypedMatchArm>, String>(m),
                Ok(ts) => match arms.last().guard {
                    None => arm_rest(c, arms, None, ts, a, r),
                    Some(g) => exists|c1: TypeChecker, y: Result<typed_ast::TypedExpr, String>|
                        #[trigger] reached(c1, y) && infers(c, *g, c1, y) && match y {
                            Err(m) => a == c1 && r == Err::<Seq<typed_ast::TypedMatchArm>, String>(m),
                            Ok(t) => arm_rest(c1, arms, Some(Box::new(t)), ts, a, r),
                        },
                },
            }
    }
}

/// The rest of the last arm of `arms` once its guard was checked with the
/// result `tg`: its pattern binds its names to fresh variables, its body
/// is checked, and its type is that of the body's last expression or
/// `void`; the arm is added to the arms `ts` checked before it.
pub open spec fn arm_rest(
    c1: TypeChecker,
    arms: Seq<ast::MatchArm>,
    tg: Option<Box<typed_ast::TypedExpr>>,
    ts: Seq<typed_ast::TypedMatchArm>,
    a: TypeChecker,
    r: Result<Seq<typed_ast::TypedMatchArm>, String>,
) -> bool
    decreases arms, 0nat,
{
    if arms.len() > 0 {
        exists|c2: TypeChecker|
            #[trigger] passed(c2) && patterned(c1, arms.last().pattern, c2) && exists|
                c3: TypeChecker,
                z: Result<Seq<typed_ast::TypedExpr>, String>,
            |
                #[trigger] reached(c3, z) && infers_list(c2, arms.last().body@, c3, z) && a == c3 && match z {
                    Err(m) => r == Err::<Seq<typed_ast::TypedMatchArm>, String>(m),
                    Ok(tb) => r is Ok && r->Ok_0.len() == ts.len() + 1 && r->Ok_0.drop_last() == ts && r->Ok_0.last().guard
                        == tg && r->Ok_0.last().body@ == tb && r->Ok_0.last().typ@ == arm_type(tb),
                }
    } else {
        false
    }
}

/// The types of typed match arms, in order.
pub open spec fn arm_types_of(ts: Seq<typed_ast::TypedMatchArm>) -> Seq<TypeV> {
    ts.map_values(|t: typed_ast::TypedMatchArm| t.typ@)
}

/// The type a match stands for given the types `tys` of its arms, and the
/// state after it was chosen: the first arm's type, or a fresh variable.
pub open spec fn match_type(c: TypeChecker, tys: Seq<TypeV>) -> (TypeV, TypeChecker) {
    if tys.len() > 0 {
        (tys[0], c)
    } else {
        (TypeV::Var(c.next_var), bump(c))
    }
}

/// The checker `c5` is `c4` after unifying `t` with each type of `tys`
/// in order, as `unify_all` says.
pub open spec fn unified_each(c4: TypeChecker, t: TypeV, tys: Seq<TypeV>, c5: TypeChecker) -> bool {
    &&& same_decls(c4, c5)
    &&& c5.env == c4.env
    &&& c5.next_var == c4.next_var
    &&& c5.substitution@ == unify_all(c4.substitution@, t, tys).0
}

/// The typed parts of a match.
pub open spec fn typed_match_parts(te: typed_ast::TypedExpr) -> Option<(typed_ast::TypedExpr, Seq<typed_ast::TypedMatchArm>)> {
    match te.kind {
        typed_ast::TypedExprKind::Match { value, arms } => Some((*value, arms@)),
        _ => None,
    }
}

/// A match: the value is checked, then the arms; the match stands for the
/// first arm's type (or a fresh variable without arms), which is unified
/// with each arm's type in order, then with the expression's variable.
pub open spec fn match_rule(
    c1: TypeChecker,
    n0: usize,
    e: ast::Expr,
    a: TypeChecker,
    r: Result<typed_ast::TypedExpr, String>,
) -> bool
    decreases e, 1nat,
{
    if e.kind is Match {
        exists|c2: TypeChecker, y: Result<typed_ast::TypedExpr, String>|
            #[trigger] reached(c2, y) && infers(c1, *e.kind->Match_value, c2, y) && match y {
                Err(m) => a == c2 && r == Err::<typed_ast::TypedExpr, String>(m),
                Ok(tv) => exists|c3: TypeChecker, z: Result<Seq<typed_ast::TypedMatchArm>, String>|
                    #[trigger] reached(c3, z) && infers_arms(c2, e.kind->Match_arms@, c3, z) && match z {
                        Err(m) => a == c3 && r == Err::<typed_ast::TypedExpr, String>(m),
                        Ok(tas) => (r is Ok ==> typed_match_parts(r->Ok_0) == Some((tv, tas))) && exists|c5: TypeChecker|
                            #[trigger] passed(c5) && unified_each(
                                match_type(c3, arm_types_of(tas)).1,
                                match_type(c3, arm_types_of(tas)).0,
                                arm_types_of(tas),
                                c5,
                            ) && match unify_all(
                                match_type(c3, arm_types_of(tas)).1.substitution@,
                                match_type(c3, arm_types_of(tas)).0,
                                arm_types_of(tas),
                            ).1 {
                                Err(m) => a == c5 && (r matches Err(msg) && msg@ == "unification error: "@ + m),
                                Ok(_) => unified_last(c5, n0, match_type(c3, arm_types_of(tas)).0, a, r),
                            },
                    },
            }
    } else {
        false
    }
}

/// The checker `a` is `c` with `name` bound to a type whose value is `t`.
pub open spec fn name_bound(c: TypeChecker, name: Seq<char>, t: TypeV, a: TypeChecker) -> bool {
    &&& same_decls(c, a)
    &&& a.substitution == c.substitution
    &&& a.next_var == c.next_var
    &&& env_types(a.env@) == env_types(c.env@).insert(name, t)
}

/// The typed value of a `let`.
pub open spec fn typed_let_value(te: typed_ast::TypedExpr) -> Option<typed_ast::TypedExpr> {
    match te.kind {
        typed_ast::TypedExprKind::Let { value, .. } => Some(*value),
        _ => None,
    }
}

/// A `let`: the value is checked; with an annotation, the value's type is
/// unified with the annotation's type; then the name is bound to the
/// value's type. The expression's own variable is left as it is.
pub open spec fn let_rule(c1: TypeChecker, e: ast::Expr, a: TypeChecker, r: Result<typed_ast::TypedExpr, String>) -> bool
    decreases e, 1nat,
{
    if e.kind is Let {
        exists|c2: TypeChecker, y: Result<typed_ast::TypedExpr, String>|
            #[trigger] reached(c2, y) && infers(c1, *e.kind->Let_value, c2, y) && match y {
                Err(m) => a == c2 && r == Err::<typed_ast::TypedExpr, String>(m),
                Ok(tv) => (r is Ok ==> typed_let_value(r->Ok_0) == Some(tv)) && match e.kind->Let_type_annotation {
                    None => name_bound(c2, e.kind->Let_name@, tv.typ@, a) && r is Ok,
                    Some(t) => exists|c4: TypeChecker, u: Result<(), String>|
                        #[trigger] reached(c4, u) && unifies(
                            with_counter(c2, annotation_run(t, c2.generic_mapping@, c2.current_impl_type, c2.next_var).1),
                            tv.typ@,
                            annotation_run(t, c2.generic_mapping@, c2.current_impl_type, c2.next_var).0,
                            c4,
                            u,
                        ) && match u {
                            Err(m) => a == c4 && r == Err::<typed_ast::TypedExpr, String>(m),
                            Ok(_) => name_bound(c4, e.kind->Let_name@, tv.typ@, a) && r is Ok,
                        },
                },
            }
    } else {
        false
    }
}

/// The typed inner expression of a cast.
pub open spec fn typed_cast_inner(te: typed_ast::TypedExpr) -> Option<typed_ast::TypedExpr> {
    match te.kind {
        typed_ast::TypedExprKind::Cast(inner, _) => Some(*inner),
        _ => None,
    }
}

/// A cast: the inner expression is checked, then the expression's
/// variable is unified with the target annotation's type.
pub open spec fn cast_rule(c1: TypeChecker, n0: usize, e: ast::Expr, a: TypeChecker, r: Result<typed_ast::TypedExpr, String>) -> bool
    decreases e, 1nat,
{
    if e.kind is Cast {
        exists|c2: TypeChecker, y: Result<typed_ast::TypedExpr, String>|
            #[trigger] reached(c2, y) && infers(c1, *e.kind->Cast_0, c2, y) && match y {
                Err(m) => a == c2 && r == Err::<typed_ast::TypedExpr, String>(m),
                Ok(ti) => (r is Ok ==> typed_cast_inner(r->Ok_0) == Some(ti)) && unified_last(
                    with_counter(c2, annotation_run(e.kind->Cast_1, c2.generic_mapping@, c2.current_impl_type, c2.next_var).1),
                    n0,
                    annotation_run(e.kind->Cast_1, c2.generic_mapping@, c2.current_impl_type, c2.next_var).0,
                    a,
                    r,
                ),
            }
    } else {
        false
    }
}

/// The checker `c3` is `c2` with the bindings `bs` put back in order.
pub open spec fn rebound(c2: TypeChecker, bs: Seq<(Seq<char>, TypeV)>, c3: TypeChecker) -> bool {
    &&& same_decls(c2, c3)
    &&& c3.substitution == c2.substitution
    &&& c3.next_var == c2.next_var
    &&& env_types(c3.env@) == bound_all(env_types(c2.env@), bs)
}

/// The type of a block whose expressions were checked with the results
/// `ts`: that of the last one, or `void`.
pub open spec fn block_type(ts: Seq<typed_ast::TypedExpr>) -> TypeV {
    if ts.len() > 0 {
        ts.last().typ@
    } else {
        con_v("void"@)
    }
}

/// The typed expressions of a block.
pub open spec fn typed_block_exprs(te: typed_ast::TypedExpr) -> Option<Seq<typed_ast::TypedExpr>> {
    match te.kind {
        typed_ast::TypedExprKind::Block { expressions } => Some(expressions@),
        _ => None,
    }
}

/// A block: its expressions are checked in order; then the names its
/// `let`s shadowed get their types from before the block back, and the
/// expression's variable is unified with the type of the last expression
/// (or `void`).
pub open spec fn block_rule(c1: TypeChecker, n0: usize, e: ast::Expr, a: TypeChecker, r: Result<typed_ast::TypedExpr, String>) -> bool
    decreases e, 1nat,
{
    if e.kind is Block {
        exists|c2: TypeChecker, y: Result<Seq<typed_ast::TypedExpr>, String>|
            #[trigger] reached(c2, y) && infers_list(c1, e.kind->Block_expressions@, c2, y) && match y {
                Err(m) => a == c2 && r == Err::<typed_ast::TypedExpr, String>(m),
                Ok(ts) => (r is Ok ==> typed_block_exprs(r->Ok_0) == Some(ts)) && exists|c3: TypeChecker|
                    #[trigger] passed(c3) && rebound(c2, shadowed(e.kind->Block_expressions@, c1.env@), c3)
                        && unified_last(c3, n0, block_type(ts), a, r),
            }
    } else {
        false
    }
}

/// The element type of an indexed value of the type `t`, and the state
/// after: an array's element type, else a fresh variable.
pub open spec fn index_target(c: TypeChecker, t: TypeV) -> (TypeV, TypeChecker) {
    if t is Array {
        (*t->Array_elem, c)
    } else {
        (TypeV::Var(c.next_var), bump(c))
    }
}

/// The typed value of an index expression.
pub open spec fn typed_index_parts(te: typed_ast::TypedExpr) -> Option<(typed_ast::TypedExpr, typed_ast::TypedExpr)> {
    match te.kind {
        typed_ast::TypedExprKind::Index { value, index } => Some((*value, *index)),
        _ => None,
    }
}

/// An index expression: the value, then the index are checked, the
/// index's type is unified with `i32`, and the expression's variable with
/// the element type (see `index_target`).
pub open spec fn index_rule(c1: TypeChecker, n0: usize, e: ast::Expr, a: TypeChecker, r: Result<typed_ast::TypedExpr, String>) -> bool
    decreases e, 1nat,
{
    if e.kind is Index {
        exists|c2: TypeChecker, y: Result<typed_ast::TypedExpr, String>|
            #[trigger] reached(c2, y) && infers(c1, *e.kind->Index_value, c2, y) && match y {
                Err(m) => a == c2 && r == Err::<typed_ast::TypedExpr, String>(m),
                Ok(tv) => exists|c3: TypeChecker, z: Result<typed_ast::TypedExpr, String>|
                    #[trigger] reached(c3, z) && infers(c2, *e.kind->Index_index, c3, z) && match z {
                        Err(m) => a == c3 && r == Err::<typed_ast::TypedExpr, String>(m),
                        Ok(ti) => (r is Ok ==> typed_index_parts(r->Ok_0) == Some((tv, ti))) && exists|
                            c4: TypeChecker,
                            u: Result<(), String>,
                        |
                            #[trigger] reached(c4, u) && unifies(c3, ti.typ@, con_v("i32"@), c4, u) && match u {
                                Err(m) => a == c4 && r == Err::<typed_ast::TypedExpr, String>(m),
                                Ok(_) => unified_last(index_target(c4, tv.typ@).1, n0, index_target(c4, tv.typ@).0, a, r),
                            },
                    },
            }
    } else {
        false
    }
}

/// The checker `c3` is `c2` after it bound `it` to a fresh variable.
pub open spec fn iterator_bound(c2: TypeChecker, it: Seq<char>, c3: TypeChecker) -> bool {
    &&& same_decls(c2, c3)
    &&& c3.substitution == c2.substitution
    &&& c3.next_var == after(c2.next_var)
    &&& c3.env@ == c2.env@.insert(it, Type::Var(TypeVar(c2.next_var)))
}

/// The typed parts of a `for` loop.
pub open spec fn typed_for_parts(te: typed_ast::TypedExpr) -> Option<(typed_ast::TypedExpr, Seq<typed_ast::TypedExpr>)> {
    match te.kind {
        typed_ast::TypedExprKind::For { iterable, body, .. } => Some((*iterable, body@)),
        _ => None,
    }
}

/// A `for` loop: the iterable is checked, the iterator is bound to a fresh
/// variable, the body is checked, and the expression's variable is unified
/// with `void`.
pub open spec fn for_rule(c1: TypeChecker, n0: usize, e: ast::Expr, a: TypeChecker, r: Result<typed_ast::TypedExpr, String>) -> bool
    decreases e, 1nat,
{
    if e.kind is For {
        exists|c2: TypeChecker, y: Result<typed_ast::TypedExpr, String>|
            #[trigger] reached(c2, y) && infers(c1, *e.kind->For_iterable, c2, y) && match y {
                Err(m) => a == c2 && r == Err::<typed_ast::TypedExpr, String>(m),
                Ok(ti) => exists|c3: TypeChecker|
                    #[trigger] passed(c3) && iterator_bound(c2, e.kind->For_iterator@, c3) && exists|
                        c4: TypeChecker,
                        z: Result<Seq<typed_ast::TypedExpr>, String>,
                    |
                        #[trigger] reached(c4, z) && infers_list(c3, e.kind->For_body@, c4, z) && match z {
                            Err(m) => a == c4 && r == Err::<typed_ast::TypedExpr, String>(m),
                            Ok(tb) => (r is Ok ==> typed_for_parts(r->Ok_0) == Some((ti, tb))) && unified_last(
                                c4,
                                n0,
                                con_v("void"@),
                                a,
                                r,
                            ),
                        },
            }
    } else {
        false
    }
}

/// An enum literal: its values or the expressions of its fields are
/// checked in order, then the expression's variable is unified with the
/// enum's type.
pub open spec fn enum_init_rule(c1: TypeChecker, n0: usize, e: ast::Expr, a: TypeChecker, r: Result<typed_ast::TypedExpr, String>) -> bool
    decreases e, 1nat,
{
    if e.kind is EnumInit {
        match e.kind->EnumInit_fields {
            ast::EnumInitFields::Tuple(values) => exists|c2: TypeChecker, y: Result<Seq<typed_ast::TypedExpr>, String>|
                #[trigger] reached(c2, y) && infers_list(c1, values@, c2, y) && match y {
                    Err(m) => a == c2 && r == Err::<typed_ast::TypedExpr, String>(m),
                    Ok(_) => unified_last(c2, n0, TypeV::Con { name: e.kind->EnumInit_enum_name@, args: Seq::empty() }, a, r),
                },
            ast::EnumInitFields::Struct(inits) => exists|
                c2: TypeChecker,
                y: Result<Seq<typed_ast::TypedStructInitField>, String>,
            |
                #[trigger] reached(c2, y) && infers_init_fields(c1, inits@, c2, y) && match y {
                    Err(m) => a == c2 && r == Err::<typed_ast::TypedExpr, String>(m),
                    Ok(_) => unified_last(c2, n0, TypeV::Con { name: e.kind->EnumInit_enum_name@, args: Seq::empty() }, a, r),
                },
        }
    } else {
        false
    }
}

/// Inferring the types of the elements `els` of an array literal in order
/// from the state `b`: the state `a`, the typed elements and the element
/// type (that of the first value), or the error of the first that fails.
/// Each value after the first is unified with the element type.
pub open spec fn infers_array(
    b: TypeChecker,
    els: Seq<ast::ArrayElement>,
    a: TypeChecker,
    r: Result<(Seq<typed_ast::TypedArrayElement>, Option<TypeV>), String>,
) -> bool
    decreases els, els.len(),
{
    if els.len() == 0 {
        a == b && r == Ok::<(Seq<typed_ast::TypedArrayElement>, Option<TypeV>), String>((Seq::empty(), None))
    } else {
        exists|c: TypeChecker, x: Result<(Seq<typed_ast::TypedArrayElement>, Option<TypeV>), String>|
            #[trigger] reached(c, x) && infers_array(b, els.drop_last(), c, x) && match x {
                Err(m) => a == c && r == Err::<(Seq<typed_ast::TypedArrayElement>, Option<TypeV>), String>(m),
                Ok(p) => match els.last() {
                    ast::ArrayElement::Spread(e) => exists|y: Result<typed_ast::TypedExpr, String>|
                        #[trigger] reached(a, y) && infers(c, e, a, y) && match y {
                            Err(m) => r == Err::<(Seq<typed_ast::TypedArrayElement>, Option<TypeV>), String>(m),
                            Ok(t) => r == Ok::<(Seq<typed_ast::TypedArrayElement>, Option<TypeV>), String>(
                                (p.0.push(typed_ast::TypedArrayElement::Spread(t)), p.1),
                            ),
                        },
                    ast::ArrayElement::Value(e) => exists|c2: TypeChecker, y: Result<typed_ast::TypedExpr, String>|
                        #[trigger] reached(c2, y) && infers(c, e, c2, y) && match y {
                            Err(m) => a == c2 && r == Err::<(Seq<typed_ast::TypedArrayElement>, Option<TypeV>), String>(m),
                            Ok(t) => match p.1 {
                                None => a == c2 && r == Ok::<(Seq<typed_ast::TypedArrayElement>, Option<TypeV>), String>(
                                    (p.0.push(typed_ast::TypedArrayElement::Value(t)), Some(t.typ@)),
                                ),
                                Some(u) => exists|w: Result<(), String>|
                                    #[trigger] reached(a, w) && unifies(c2, u, t.typ@, a, w) && match w {
                                        Err(m) => r == Err::<(Seq<typed_ast::TypedArrayElement>, Option<TypeV>), String>(m),
                                        Ok(_) => r == Ok::<(Seq<typed_ast::TypedArrayElement>, Option<TypeV>), String>(
                                            (p.0.push(typed_ast::TypedArrayElement::Value(t)), p.1),
                                        ),
                                    },
                            },
                        },
                },
            }
    }
}

/// The typed elements and element type of an array literal, as values.
pub open spec fn array_result(r: Result<(Vec<typed_ast::TypedArrayElement>, Option<Type>), String>) -> Result<
    (Seq<typed_ast::TypedArrayElement>, Option<TypeV>),
    String,
> {
    match r {
        Ok(p) => Ok((p.0@, opt_type_view(p.1))),
        Err(e) => Err(e),
    }
}

/// The typed elements of an array literal.
pub open spec fn typed_array_elements(te: typed_ast::TypedExpr) -> Option<Seq<typed_ast::TypedArrayElement>> {
    match te.kind {
        typed_ast::TypedExprKind::Array(ts) => Some(ts@),
        _ => None,
    }
}

/// The element type of an array literal from the type `et` found among its
/// values, and the state after: that type, or a fresh variable.
pub open spec fn array_elem_type(c: TypeChecker, et: Option<TypeV>) -> (TypeV, TypeChecker) {
    match et {
        Some(t) => (t, c),
        None => (TypeV::Var(c.next_var), bump(c)),
    }
}

/// An array literal: its elements are checked in order (see
/// `infers_array`), then the expression's variable is unified with the
/// array of the element type.
pub open spec fn array_rule(c1: TypeChecker, n0: usize, e: ast::Expr, a: TypeChecker, r: Result<typed_ast::TypedExpr, String>) -> bool
    decreases e, 1nat,
{
    if e.kind is Array {
        exists|c2: TypeChecker, x: Result<(Seq<typed_ast::TypedArrayElement>, Option<TypeV>), String>|
            #[trigger] reached(c2, x) && infers_array(c1, e.kind->Array_0@, c2, x) && match x {
                Err(m) => a == c2 && r == Err::<typed_ast::TypedExpr, String>(m),
                Ok(p) => (r is Ok ==> typed_array_elements(r->Ok_0) == Some(p.0)) && unified_last(
                    array_elem_type(c2, p.1).1,
                    n0,
                    TypeV::Array { elem: Box::new(array_elem_type(c2, p.1).0), size: None },
                    a,
                    r,
                ),
            }
    } else {
        false
    }
}

/// Inferring the types of the expressions of the fields `fs` of a row
/// literal in order from the state `b`.
pub open spec fn infers_row(b: TypeChecker, fs: Seq<ast::RowField>, a: TypeChecker, r: Result<Seq<typed_ast::TypedRowField>, String>) -> bool
    decreases fs, fs.len(),
{
    if fs.len() == 0 {
        a == b && r == Ok::<Seq<typed_ast::TypedRowField>, String>(Seq::empty())
    } else {
        exists|c: TypeChecker, x: Result<Seq<typed_ast::TypedRowField>, String>|
            #[trigger] reached(c, x) && infers_row(b, fs.drop_last(), c, x) && match x {
                Err(m) => a == c && r == Err::<Seq<typed_ast::TypedRowField>, String>(m),
                Ok(ts) => exists|y: Result<typed_ast::TypedExpr, String>|
                    #[trigger] reached(a, y) && match fs.last() {
                        ast::RowField::Field { value, .. } => infers(c, value, a, y),
                        ast::RowField::Spread(v) => infers(c, v, a, y),
                    } && match y {
                        Err(m) => r == Err::<Seq<typed_ast::TypedRowField>, String>(m),
                        Ok(t) => r is Ok && r->Ok_0.len() == ts.len() + 1 && r->Ok_0.drop_last() == ts
                            && typed_row_field_value(r->Ok_0.last()) == t,
                    },
            }
    }
}

/// The typed fields of a row literal.
pub open spec fn typed_row_fields(te: typed_ast::TypedExpr) -> Option<Seq<typed_ast::TypedRowField>> {
    match te.kind {
        typed_ast::TypedExprKind::Row(ts) => Some(ts@),
        _ => None,
    }
}

/// A row literal: its fields are checked in order, then the expression's
/// variable is unified with the row of the named fields' names and types.
pub open spec fn row_rule(c1: TypeChecker, n0: usize, e: ast::Expr, a: TypeChecker, r: Result<typed_ast::TypedExpr, String>) -> bool
    decreases e, 1nat,
{
    if e.kind is Row {
        exists|c2: TypeChecker, x: Result<Seq<typed_ast::TypedRowField>, String>|
            #[trigger] reached(c2, x) && infers_row(c1, e.kind->Row_0@, c2, x) && match x {
                Err(m) => a == c2 && r == Err::<typed_ast::TypedExpr, String>(m),
                Ok(ts) => (r is Ok ==> typed_row_fields(r->Ok_0) == Some(ts)) && unified_last(
                    c2,
                    n0,
                    TypeV::Row(named_field_types(ts)),
                    a,
                    r,
                ),
            }
    } else {
        false
    }
}

/// The last step of most forms: the expression's variable `n0` is unified
/// with `x` from the state `c`; on success the outcome is `Ok`.
pub open spec fn unified_last(
    c: TypeChecker,
    n0: usize,
    x: TypeV,
    a: TypeChecker,
    r: Result<typed_ast::TypedExpr, String>,
) -> bool {
    exists|u: Result<(), String>|
        #[trigger] reached(a, u) && unifies(c, TypeV::Var(n0), x, a, u) && match u {
            Err(m) => r == Err::<typed_ast::TypedExpr, String>(m),
            Ok(_) => r is Ok,
        }
}

/// The expression that a form with one part checks.
pub open spec fn only_child(e: ast::Expr) -> ast::Expr {
    match e.kind {
        ast::ExprKind::UnaryOp { operand, .. } => *operand,
        ast::ExprKind::EarlyReturn(inner) => *inner,
        ast::ExprKind::Return(Some(inner)) => *inner,
        _ => e,
    }
}

/// The typed part of a form with one part.
pub open spec fn typed_only_child(te: typed_ast::TypedExpr) -> Option<typed_ast::TypedExpr> {
    match te.kind {
        typed_ast::TypedExprKind::UnaryOp { operand, .. } => Some(*operand),
        typed_ast::TypedExprKind::EarlyReturn(inner) => Some(*inner),
        typed_ast::TypedExprKind::Return(Some(inner)) => Some(*inner),
        _ => None,
    }
}

/// A form with one part: the part is checked; a unary operation then
/// unifies the expression's variable with the part's type, a `return`
/// with a value likewise, and an early return stops there.
pub open spec fn one_child_rule(
    c1: TypeChecker,
    n0: usize,
    e: ast::Expr,
    a: TypeChecker,
    r: Result<typed_ast::TypedExpr, String>,
) -> bool
    decreases e, 1nat,
{
    if e.kind is UnaryOp || e.kind is EarlyReturn || e.kind matches ast::ExprKind::Return(Some(_)) {
        exists|c2: TypeChecker, x: Result<typed_ast::TypedExpr, String>|
            #[trigger] reached(c2, x) && infers(c1, only_child(e), c2, x) && match x {
                Err(m) => a == c2 && r == Err::<typed_ast::TypedExpr, String>(m),
                Ok(t) => (r is Ok ==> typed_only_child(r->Ok_0) == Some(t)) && if e.kind is EarlyReturn {
                    a == c2 && r is Ok
                } else {
                    unified_last(c2, n0, t.typ@, a, r)
                },
            }
    } else {
        false
    }
}

/// The two parts of a form with two parts.
pub open spec fn two_children(e: ast::Expr) -> (ast::Expr, ast::Expr) {
    match e.kind {
        ast::ExprKind::Assign { target, value } => (*target, *value),
        ast::ExprKind::Range { start, end, .. } => (*start, *end),
        _ => (e, e),
    }
}

/// The typed parts of a form with two parts.
pub open spec fn typed_two_children(te: typed_ast::TypedExpr) -> Option<(typed_ast::TypedExpr, typed_ast::TypedExpr)> {
    match te.kind {
        typed_ast::TypedExprKind::Assign { target, value } => Some((*target, *value)),
        typed_ast::TypedExprKind::Range { start, end, .. } => Some((*start, *end)),
        _ => None,
    }
}

/// The type an assignment or a range unifies its variable with, given the
/// type of its first part: `void`, or `Range` of that type.
pub open spec fn two_children_type(e: ast::Expr, first: TypeV) -> TypeV {
    if e.kind is Assign {
        con_v("void"@)
    } else {
        TypeV::Con { name: "Range"@, args: seq![first] }
    }
}

/// A form with two parts (an assignment, a range): both parts are checked
/// in order, their types unified, and the expression's variable unified
/// with `void` for an assignment, with `Range` of the first part's type
/// for a range.
pub open spec fn two_children_rule(
    c1: TypeChecker,
    n0: usize,
    e: ast::Expr,
    a: TypeChecker,
    r: Result<typed_ast::TypedExpr, String>,
) -> bool
    decreases e, 1nat,
{
    if e.kind is Assign || e.kind is Range {
        exists|c2: TypeChecker, x: Result<typed_ast::TypedExpr, String>|
            #[trigger] reached(c2, x) && infers(c1, two_children(e).0, c2, x) && match x {
                Err(m) => a == c2 && r == Err::<typed_ast::TypedExpr, String>(m),
                Ok(t1) => exists|c3: TypeChecker, y: Result<typed_ast::TypedExpr, String>|
                    #[trigger] reached(c3, y) && infers(c2, two_children(e).1, c3, y) && match y {
                        Err(m) => a == c3 && r == Err::<typed_ast::TypedExpr, String>(m),
                        Ok(t2) => (r is Ok ==> typed_two_children(r->Ok_0) == Some((t1, t2))) && exists|
                            c4: TypeChecker,
                            u: Result<(), String>,
                        |
                            #[trigger] reached(c4, u) && unifies(c3, t1.typ@, t2.typ@, c4, u) && match u {
                                Err(m) => a == c4 && r == Err::<typed_ast::TypedExpr, String>(m),
                                Ok(_) => unified_last(c4, n0, two_children_type(e, t1.typ@), a, r),
                            },
                    },
            }
    } else {
        false
    }
}

/// Inferring the types of the expressions `es` in order from the state
/// `b`: the state `a` and all the results, or the error of the first that
/// fails.
pub open spec fn infers_list(
    b: TypeChecker,
    es: Seq<ast::Expr>,
    a: TypeChecker,
    r: Result<Seq<typed_ast::TypedExpr>, String>,
) -> bool
    decreases es, es.len(),
{
    if es.len() == 0 {
        a == b && r == Ok::<Seq<typed_ast::TypedExpr>, String>(Seq::empty())
    } else {
        exists|c: TypeChecker, x: Result<Seq<typed_ast::TypedExpr>, String>|
            #[trigger] reached(c, x) && infers_list(b, es.drop_last(), c, x) && match x {
                Err(m) => a == c && r == Err::<Seq<typed_ast::TypedExpr>, String>(m),
                Ok(ts) => exists|y: Result<typed_ast::TypedExpr, String>|
                    #[trigger] reached(a, y) && infers(c, es.last(), a, y) && match y {
                        Err(m) => r == Err::<Seq<typed_ast::TypedExpr>, String>(m),
                        Ok(t) => r == Ok::<Seq<typed_ast::TypedExpr>, String>(ts.push(t)),
                    },
            }
    }
}

/// The list of expressions of a tuple or a `do` block.
pub open spec fn list_children(e: ast::Expr) -> Seq<ast::Expr> {
    match e.kind {
        ast::ExprKind::Tuple(es) => es@,
        ast::ExprKind::Do(es) => es@,
        _ => Seq::empty(),
    }
}

/// The typed list of a tuple or a `do` block.
pub open spec fn typed_list_children(te: typed_ast::TypedExpr) -> Option<Seq<typed_ast::TypedExpr>> {
    match te.kind {
        typed_ast::TypedExprKind::Tuple(ts) => Some(ts@),
        typed_ast::TypedExprKind::Do(ts) => Some(ts@),
        _ => None,
    }
}

/// The types of typed expressions, in order.
pub open spec fn typs_of(ts: Seq<typed_ast::TypedExpr>) -> Seq<TypeV> {
    ts.map_values(|t: typed_ast::TypedExpr| t.typ@)
}

/// A tuple or a `do` block: the expressions are checked in order, then
/// the expression's variable is unified with the tuple of their types, or
/// with `void`.
pub open spec fn list_rule(
    c1: TypeChecker,
    n0: usize,
    e: ast::Expr,
    a: TypeChecker,
    r: Result<typed_ast::TypedExpr, String>,
) -> bool
    decreases e, 1nat,
{
    if e.kind is Tuple || e.kind is Do {
        exists|c2: TypeChecker, x: Result<Seq<typed_ast::TypedExpr>, String>|
            #[trigger] reached(c2, x) && infers_list(c1, list_children(e), c2, x) && match x {
                Err(m) => a == c2 && r == Err::<typed_ast::TypedExpr, String>(m),
                Ok(ts) => (r is Ok ==> typed_list_children(r->Ok_0) == Some(ts)) && unified_last(
                    c2,
                    n0,
                    if e.kind is Tuple {
                        TypeV::Tuple(typs_of(ts))
                    } else {
                        con_v("void"@)
                    },
                    a,
                    r,
                ),
            }
    } else {
        false
    }
}

/// The typed condition and body of a `while` loop.
pub open spec fn typed_while_parts(te: typed_ast::TypedExpr) -> Option<(typed_ast::TypedExpr, Seq<typed_ast::TypedExpr>)> {
    match te.kind {
        typed_ast::TypedExprKind::While { condition, body } => Some((*condition, body@)),
        _ => None,
    }
}

/// A `while` loop: the condition is checked and unified with `bool`, the
/// body checked in order, and the expression's variable unified with
/// `void`.
pub open spec fn while_rule(
    c1: TypeChecker,
    n0: usize,
    e: ast::Expr,
    a: TypeChecker,
    r: Result<typed_ast::TypedExpr, String>,
) -> bool
    decreases e, 1nat,
{
    if e.kind is While {
        exists|c2: TypeChecker, x: Result<typed_ast::TypedExpr, String>|
            #[trigger] reached(c2, x) && infers(c1, *e.kind->While_condition, c2, x) && match x {
                Err(m) => a == c2 && r == Err::<typed_ast::TypedExpr, String>(m),
                Ok(tc) => exists|c3: TypeChecker, u: Result<(), String>|
                    #[trigger] reached(c3, u) && unifies(c2, tc.typ@, con_v("bool"@), c3, u) && match u {
                        Err(m) => a == c3 && r == Err::<typed_ast::TypedExpr, String>(m),
                        Ok(_) => exists|c4: TypeChecker, y: Result<Seq<typed_ast::TypedExpr>, String>|
                            #[trigger] reached(c4, y) && infers_list(c3, e.kind->While_body@, c4, y) && match y {
                                Err(m) => a == c4 && r == Err::<typed_ast::TypedExpr, String>(m),
                                Ok(tb) => (r is Ok ==> typed_while_parts(r->Ok_0) == Some((tc, tb))) && unified_last(
                                    c4,
                                    n0,
                                    con_v("void"@),
                                    a,
                                    r,
                                ),
                            },
                    },
            }
    } else {
        false
    }
}



/// A binary operation: the left operand, then the right one; both are
/// unified with a fresh variable, and the expression's variable `n0` with
/// `bool` for a comparison, else with that variable.
pub open spec fn binop_rule(
    c1: TypeChecker,
    n0: usize,
    e: ast::Expr,
    a: TypeChecker,
    r: Result<typed_ast::TypedExpr, String>,
) -> bool
    decreases e, 1nat,
{
    if e.kind is BinaryOp {
        exists|c2: TypeChecker, rl: Result<typed_ast::TypedExpr, String>|
            #[trigger] reached(c2, rl) && infers(c1, *e.kind->BinaryOp_left, c2, rl) && match rl {
                Err(m) => a == c2 && r == Err::<typed_ast::TypedExpr, String>(m),
                Ok(tl) => exists|c3: TypeChecker, rr: Result<typed_ast::TypedExpr, String>|
                    #[trigger] reached(c3, rr) && infers(c2, *e.kind->BinaryOp_right, c3, rr) && match rr {
                        Err(m) => a == c3 && r == Err::<typed_ast::TypedExpr, String>(m),
                        Ok(tr) => binop_unify(bump(c3), c3.next_var, n0, e.kind->BinaryOp_operator@, tl, tr, a, r),
                    },
            }
    } else {
        false
    }
}

/// The type of a binary operation with the operator `op` whose operands
/// were unified with the variable `v`: `bool` for a comparison, else `v`.
pub open spec fn binop_type(op: Seq<char>, v: usize) -> TypeV {
    if comparison_operator(op) {
        con_v("bool"@)
    } else {
        TypeV::Var(v)
    }
}

/// The unifications of a binary operation whose operands were checked with
/// the results `tl` and `tr`: each operand with the variable `v`, then the
/// expression's variable `n0` with `bool` for a comparison, else with `v`.
pub open spec fn binop_unify(
    c4: TypeChecker,
    v: usize,
    n0: usize,
    op: Seq<char>,
    tl: typed_ast::TypedExpr,
    tr: typed_ast::TypedExpr,
    a: TypeChecker,
    r: Result<typed_ast::TypedExpr, String>,
) -> bool {
    exists|c5: TypeChecker, u1: Result<(), String>|
        #[trigger] unifies(c4, tl.typ@, TypeV::Var(v), c5, u1) && match u1 {
            Err(m) => a == c5 && r == Err::<typed_ast::TypedExpr, String>(m),
            Ok(_) => exists|c6: TypeChecker, u2: Result<(), String>|
                #[trigger] unifies(c5, tr.typ@, TypeV::Var(v), c6, u2) && match u2 {
                    Err(m) => a == c6 && r == Err::<typed_ast::TypedExpr, String>(m),
                    Ok(_) => exists|u3: Result<(), String>|
                        #[trigger] unifies(
                            c6,
                            TypeV::Var(n0),
                            binop_type(op, v),
                            a,
                            u3,
                        ) && match u3 {
                            Err(m) => r == Err::<typed_ast::TypedExpr, String>(m),
                            Ok(_) => r matches Ok(te) && te.kind matches typed_ast::TypedExprKind::BinaryOp {
                                left,
                                right,
                                ..
                            } && *left == tl && *right == tr,
                        },
                },
        }
}

/// What inferring the type of the expression `e` in the state `before`
/// gives: the state `after` and the outcome `r`.
pub open spec fn infers(
    before: TypeChecker,
    e: ast::Expr,
    after: TypeChecker,
    r: Result<typed_ast::TypedExpr, String>,
) -> bool
    decreases e, 3nat,
{
    &&& progressed(before, after)
    &&& expr_rule(before, e, after, r)
    &&& r matches Ok(te) ==> same_meta(e.meta, te.meta)
    &&& r matches Ok(te) ==> expr_mirrors(e, te) && te.typ@ == apply_type(
        after.substitution@,
        TypeV::Var(before.next_var),
    )
    &&& (e.kind matches ast::ExprKind::Variable(name) && !before.function_env@.contains_key(name@)
        && !before.env@.contains_key(name@)) ==> (r matches Err(m) && m@ == unbound_message())
    &&& !before.substitution@.contains_key(before.next_var) ==> match e.kind {
        ast::ExprKind::Literal(l) => (r matches Ok(te) && te.typ@ == literal_type(l)),
        ast::ExprKind::Break => (r matches Ok(te) && te.typ@ == con_v("void"@)),
        ast::ExprKind::Continue => (r matches Ok(te) && te.typ@ == con_v("void"@)),
        ast::ExprKind::Variable(name) => (!before.function_env@.contains_key(name@)
            && before.env@.contains_key(name@) && bindable(
            before.next_var,
            apply_type(before.substitution@, before.env@[name@]@),
        )) ==> (r matches Ok(te) && te.typ@ == apply_type(
            before.substitution@,
            before.env@[name@]@,
        )),
        _ => true,
    }
}

/// `infers` as a step of a run over a list of expressions.
pub open spec fn infers_step() -> spec_fn(TypeChecker, ast::Expr, TypeChecker, Result<typed_ast::TypedExpr, String>) -> bool {
    |b: TypeChecker, e: ast::Expr, a: TypeChecker, r: Result<typed_ast::TypedExpr, String>| infers(b, e, a, r)
}

/// What unifying the types `t1` and `t2` in the state `before` gives: the
/// state `after` and the outcome `r`.
pub open spec fn unifies(before: TypeChecker, t1: TypeV, t2: TypeV, after: TypeChecker, r: Result<(), String>) -> bool {
    &&& same_decls(before, after)
    &&& after.env == before.env
    &&& after.next_var == before.next_var
    &&& after.substitution@ == unify_run(before.substitution@, t1, t2, u64::MAX as nat).0
    &&& match unify_run(before.substitution@, t1, t2, u64::MAX as nat).1 {
        Ok(()) => r is Ok,
        Err(m) => (r matches Err(e) && e@ == "unification error: "@ + m),
    }
}

/// The expression of a field of a struct literal.
pub open spec fn init_field_value(f: ast::StructInitField) -> ast::Expr {
    match f {
        ast::StructInitField::Field { value, .. } => value,
        ast::StructInitField::Spread(e) => e,
    }
}

/// The typed expression of a field of a struct literal.
pub open spec fn typed_init_field_value(f: typed_ast::TypedStructInitField) -> typed_ast::TypedExpr {
    match f {
        typed_ast::TypedStructInitField::Field { value, .. } => value,
        typed_ast::TypedStructInitField::Spread(e) => e,
    }
}

/// Inferring the type of the expression of a field of a struct literal.
pub open spec fn init_field_step() -> spec_fn(
    TypeChecker,
    ast::StructInitField,
    TypeChecker,
    Result<typed_ast::TypedStructInitField, String>,
) -> bool {
    |b: TypeChecker, f: ast::StructInitField, a: TypeChecker, r: Result<typed_ast::TypedStructInitField, String>|
        infers(
            b,
            init_field_value(f),
            a,
            match r {
                Ok(t) => Ok(typed_init_field_value(t)),
                Err(e) => Err(e),
            },
        )
}

/// The expression of a field of a row literal.
pub open spec fn row_field_value(f: ast::RowField) -> ast::Expr {
    match f {
        ast::RowField::Field { value, .. } => value,
        ast::RowField::Spread(e) => e,
    }
}

/// The typed expression of a field of a row literal.
pub open spec fn typed_row_field_value(f: typed_ast::TypedRowField) -> typed_ast::TypedExpr {
    match f {
        typed_ast::TypedRowField::Field { value, .. } => value,
        typed_ast::TypedRowField::Spread(e) => e,
    }
}

/// Inferring the type of the expression of a field of a row literal.
pub open spec fn row_field_step() -> spec_fn(
    TypeChecker,
    ast::RowField,
    TypeChecker,
    Result<typed_ast::TypedRowField, String>,
) -> bool {
    |b: TypeChecker, f: ast::RowField, a: TypeChecker, r: Result<typed_ast::TypedRowField, String>|
        infers(
            b,
            row_field_value(f),
            a,
            match r {
                Ok(t) => Ok(typed_row_field_value(t)),
                Err(e) => Err(e),
            },
        )
}

/// The names and types of the named fields of a typed row literal, in
/// order.
pub open spec fn named_field_types(ts: Seq<typed_ast::TypedRowField>) -> Seq<(Seq<char>, TypeV)>
    decreases ts.len(),
{
    if ts.len() == 0 {
        Seq::empty()
    } else {
        match ts.last() {
            typed_ast::TypedRowField::Field { name, value } => named_field_types(ts.drop_last()).push(
                (name@, value.typ@),
            ),
            typed_ast::TypedRowField::Spread(_) => named_field_types(ts.drop_last()),
        }
    }
}

/// The value of an optional type.
pub open spec fn opt_type_view(t: Option<Type>) -> Option<TypeV> {
    match t {
        Some(x) => Some(x@),
        None => None,
    }
}

/// The value `e` was inferred to have the type of `t`, which was then
/// unified with `u`, from the state `before` to the state `after`.
pub open spec fn value_unified(
    before: TypeChecker,
    e: ast::Expr,
    u: TypeV,
    t: typed_ast::TypedExpr,
    after: TypeChecker,
) -> bool {
    exists|m: TypeChecker| #[trigger] infers(before, e, m, Ok(t)) && unifies(m, u, t.typ@, after, Ok(()))
}

/// The value `e` was inferred to have a type that then failed to unify
/// with `u`, with the message `msg`.
pub open spec fn value_unify_fails(
    before: TypeChecker,
    e: ast::Expr,
    u: TypeV,
    after: TypeChecker,
    msg: String,
) -> bool {
    exists|m: TypeChecker, t: typed_ast::TypedExpr|
        #[trigger] infers(before, e, m, Ok(t)) && unifies(m, u, t.typ@, after, Err(msg))
}

/// Inferring the type of an element of an array literal, in a state that
/// holds the checker and the element type found so far (that of the first
/// value): a value after the first is unified with that type.
pub open spec fn array_element_step() -> spec_fn(
    (TypeChecker, Option<TypeV>),
    ast::ArrayElement,
    (TypeChecker, Option<TypeV>),
    Result<typed_ast::TypedArrayElement, String>,
) -> bool {
    |b: (TypeChecker, Option<TypeV>), el: ast::ArrayElement, a: (TypeChecker, Option<TypeV>), r: Result<
        typed_ast::TypedArrayElement,
        String,
    >|
        match el {
            ast::ArrayElement::Spread(e) => match r {
                Ok(typed_ast::TypedArrayElement::Spread(t)) => infers(b.0, e, a.0, Ok(t)) && a.1 == b.1,
                Ok(typed_ast::TypedArrayElement::Value(_)) => false,
                Err(m) => infers(b.0, e, a.0, Err(m)),
            },
            ast::ArrayElement::Value(e) => match r {
                Ok(typed_ast::TypedArrayElement::Value(t)) => match b.1 {
                    None => infers(b.0, e, a.0, Ok(t)) && a.1 == Some(t.typ@),
                    Some(u) => a.1 == b.1 && value_unified(b.0, e, u, t, a.0),
                },
                Ok(typed_ast::TypedArrayElement::Spread(_)) => false,
                Err(msg) => infers(b.0, e, a.0, Err(msg)) || (b.1 matches Some(u) && value_unify_fails(
                    b.0,
                    e,
                    u,
                    a.0,
                    msg,
                )),
            },
        }
}

/// What checking the pattern `p` in the state `before` gives: the state
/// `after`, which binds the names bound before and those that `p` binds,
/// each of these to a fresh variable.
pub open spec fn patterned(before: TypeChecker, p: ast::Pattern, after: TypeChecker) -> bool {
    &&& same_decls(before, after)
    &&& after.substitution == before.substitution
    &&& (after.env@, after.next_var) == pattern_run(p, before.env@, before.next_var)
    &&& forall|k: Seq<char>|
        #[trigger] after.env@.contains_key(k) <==> before.env@.contains_key(k) || pattern_binds(p, k)
}

/// What inferring the type of an optional guard `g` in the state `before`
/// gives: the state `after` and the outcome `r`; without a guard nothing
/// changes.
pub open spec fn guard_checked(
    before: TypeChecker,
    g: Option<Box<ast::Expr>>,
    after: TypeChecker,
    r: Result<Option<Box<typed_ast::TypedExpr>>, String>,
) -> bool {
    match g {
        None => after == before && r == Ok::<Option<Box<typed_ast::TypedExpr>>, String>(None),
        Some(e) => match r {
            Ok(Some(t)) => infers(before, *e, after, Ok(*t)),
            Ok(None) => false,
            Err(m) => infers(before, *e, after, Err(m)),
        },
    }
}

/// The type of an arm of a match: that of the last expression of its
/// body, or `void`.
pub open spec fn arm_type(body: Seq<typed_ast::TypedExpr>) -> TypeV {
    if body.len() > 0 {
        body.last().typ@
    } else {
        con_v("void"@)
    }
}

/// The arm `arm` was checked from the state `before` to the state `after`
/// with the result `ta`: its guard, then its pattern, then its body.
pub open spec fn arm_passes(
    before: TypeChecker,
    arm: ast::MatchArm,
    ta: typed_ast::TypedMatchArm,
    after: TypeChecker,
) -> bool {
    &&& ta.typ@ == arm_type(ta.body@)
    &&& exists|m1: TypeChecker, m2: TypeChecker|
        #![trigger guard_checked(before, arm.guard, m1, Ok(ta.guard)), patterned(m1, arm.pattern, m2)]
        guard_checked(before, arm.guard, m1, Ok(ta.guard)) && patterned(m1, arm.pattern, m2) && runs(
            infers_step(),
            m2,
            arm.body@,
            after,
            Ok(ta.body@),
        )
}

/// Checking the arm `arm` from the state `before` failed with the message
/// `e` in the state `after`: in its guard, or in its body.
pub open spec fn arm_fails(before: TypeChecker, arm: ast::MatchArm, after: TypeChecker, e: String) -> bool {
    ||| guard_checked(before, arm.guard, after, Err(e))
    ||| exists|m1: TypeChecker, m2: TypeChecker, tg: Option<Box<typed_ast::TypedExpr>>|
        #![trigger guard_checked(before, arm.guard, m1, Ok(tg)), patterned(m1, arm.pattern, m2)]
        guard_checked(before, arm.guard, m1, Ok(tg)) && patterned(m1, arm.pattern, m2) && runs(
            infers_step(),
            m2,
            arm.body@,
            after,
            Err(e),
        )
}

/// Checking an arm of a match as a step of a run over the arms.
pub open spec fn arm_step() -> spec_fn(
    TypeChecker,
    ast::MatchArm,
    TypeChecker,
    Result<typed_ast::TypedMatchArm, String>,
) -> bool {
    |b: TypeChecker, arm: ast::MatchArm, a: TypeChecker, r: Result<typed_ast::TypedMatchArm, String>|
        match r {
            Ok(ta) => arm_passes(b, arm, ta, a),
            Err(e) => arm_fails(b, arm, a, e),
        }
}

impl TypeChecker {
    /// The type of a use of the function described by `sig`: its generic
    /// parameters get fresh type variables.
    fn instantiate(&mut self, sig: &FunctionSignature) -> (r: Type)
        ensures
            same_decls(*old(self), *final(self)),
            final(self).env == old(self).env,
            final(self).substitution == old(self).substitution,
            r@ == instantiated(*sig, old(self).next_var),
            final(self).next_var == counted(old(self).next_var, sig.generic_params@.len()),
    {
        let mut saved: NameMap<Type> = NameMap::new();
        std::mem::swap(&mut saved, &mut self.generic_mapping);
        let mut i: usize = 0;
        proof {
            assert(sig.generic_params@.subrange(0, 0).len() == 0);
            assert(self.generic_mapping@ =~= fresh_mapping(names_view(sig.generic_params@).subrange(0, 0), old(self).next_var));
        }
        while i < sig.generic_params.len()
            invariant
                i <= sig.generic_params@.len(),
                self.env == old(self).env,
                self.substitution == old(self).substitution,
                saved == old(self).generic_mapping,
                self.constraints == old(self).constraints,
                self.current_impl_type == old(self).current_impl_type,
                self.trait_env == old(self).trait_env,
                self.impl_env == old(self).impl_env,
                self.struct_env == old(self).struct_env,
                self.enum_env == old(self).enum_env,
                self.function_env == old(self).function_env,
                self.generic_mapping@ == fresh_mapping(names_view(sig.generic_params@).subrange(0, i as int), old(self).next_var),
                names_view(sig.generic_params@).len() == sig.generic_params@.len(),
                self.next_var == counted(old(self).next_var, i as nat),
            decreases sig.generic_params.len() - i,
        {
            let v = self.fresh_var();
            self.generic_mapping.insert(sig.generic_params[i].clone(), v);
            proof {
                let ps = names_view(sig.generic_params@).subrange(0, i as int + 1);
                assert(ps.drop_last() =~= names_view(sig.generic_params@).subrange(0, i as int));
                assert(ps.last() == sig.generic_params@[i as int]@);
            }
            i = i + 1;
        }
        assert(names_view(sig.generic_params@).subrange(0, i as int) =~= names_view(sig.generic_params@));
        let t = self.convert_type_with_mapping(&sig.typ);
        self.generic_mapping = saved;
        t
    }

    /// The type of the method `field` that an impl gives the type named
    /// `owner`, looking through the impls of all traits in the order
    /// in which the traits were first implemented.
    fn lookup_method(&self, owner: &str, field: &str) -> (r: Option<Type>)
        ensures
            r matches Some(t) ==> has_method(self.impl_env@, owner@, field@, t@),
            r is None ==> !has_some_method(self.impl_env@, owner@, field@),
    {
        let n = self.impl_env.len();
        proof {
            lemma_entries_as_map(self.impl_env.bindings());
        }
        let mut i: usize = 0;
        while i < n
            invariant
                i <= n,
                n == self.impl_env.bindings().len(),
                distinct_names(self.impl_env.bindings()),
                self.impl_env@ == entries_as_map(self.impl_env.bindings()),
                forall|j: int|
                    0 <= j < i ==> !((#[trigger] self.impl_env.bindings()[j]).1@.contains_key(owner@)
                        && self.impl_env.bindings()[j].1@[owner@]@.contains_key(field@)),
            decreases n - i,
        {
            let (trait_name, type_impls) = self.impl_env.binding(i);
            match type_impls.get(owner) {
                Some(methods) => match methods.get(field) {
                    Some(mt) => {
                        proof {
                            lemma_entries_as_map(self.impl_env.bindings());
                            assert(self.impl_env@.contains_key(trait_name@));
                            assert(self.impl_env@[trait_name@] == *type_impls);
                        }
                        return Some(copy_type(mt));
                    },
                    None => {},
                },
                None => {},
            }
            i = i + 1;
        }
        proof {
            lemma_entries_as_map(self.impl_env.bindings());
            if has_some_method(self.impl_env@, owner@, field@) {
                let k = choose|k: Seq<char>|
                    #![trigger self.impl_env@[k]]
                    self.impl_env@.contains_key(k) && self.impl_env@[k]@.contains_key(owner@)
                        && self.impl_env@[k]@[owner@]@.contains_key(field@);
                let j = choose|j: int|
                    0 <= j < self.impl_env.bindings().len() && (#[trigger] self.impl_env.bindings()[j]).0@ == k;
                assert(self.impl_env@[self.impl_env.bindings()[j].0@] == self.impl_env.bindings()[j].1);
            }
        }
        None
    }

    /// The type of the field `field` of the struct named `owner`, if
    /// the struct is declared and has such a field (the first of that
    /// name).
    fn lookup_field(&self, owner: &str, field: &str) -> (r: Option<Type>)
        ensures
            match r {
                Some(t) => struct_field_type(self.struct_env@, owner@, field@) == Some(t@),
                None => struct_field_type(self.struct_env@, owner@, field@) is None,
            },
    {
        match self.struct_env.get(owner) {
            Some(fields) => {
                let mut i: usize = 0;
                assert(fields@.subrange(0, fields@.len() as int) =~= fields@);
                while i < fields.len()
                    invariant
                        i <= fields@.len(),
                        self.struct_env@.contains_key(owner@),
                        *fields == self.struct_env@[owner@],
                        first_field_type(fields@, field@) == first_field_type(
                            fields@.subrange(i as int, fields@.len() as int),
                            field@,
                        ),
                    decreases fields.len() - i,
                {
                    let ghost rest = fields@.subrange(i as int, fields@.len() as int);
                    assert(rest[0] == fields@[i as int]);
                    if str_eq(fields[i].0.as_str(), field) {
                        let t = copy_type(&fields[i].1);
                        return Some(t);
                    }
                    assert(rest.drop_first() =~= fields@.subrange(i as int + 1, fields@.len() as int));
                    i = i + 1;
                }
                assert(fields@.subrange(i as int, fields@.len() as int).len() == 0);
                None
            },
            None => None,
        }
    }

    /// Infers the types of a list of expressions, in order.
    pub fn typecheck_exprs(&mut self, es: &Vec<ast::Expr>) -> (r: Result<Vec<typed_ast::TypedExpr>, String>)
        ensures
            progressed(*old(self), *final(self)),
            r matches Ok(ts) ==> exprs_mirror(es@, ts@),
            runs(infers_step(), *old(self), es@, *final(self), seq_result(r)),
            infers_list(*old(self), es@, *final(self), seq_result(r)),
        decreases es, 0nat,
    {
        let mut out: Vec<typed_ast::TypedExpr> = Vec::new();
        let mut i: usize = 0;
        let ghost mut cs: Seq<TypeChecker> = seq![*self];
        proof {
            lemma_steps_start(infers_step(), *self, es@);
            assert(es@.subrange(0, 0).len() == 0);
        }
        while i < es.len()
            invariant
                i <= es@.len(),
                out@.len() == i,
                progressed(*old(self), *self),
                forall|k: int| 0 <= k < i ==> expr_mirrors(es@[k], #[trigger] out@[k]),
                steps_hold(infers_step(), cs, es@, out@),
                cs[0] == *old(self),
                cs.last() == *self,
                infers_list(*old(self), es@.subrange(0, i as int), *self, Ok(out@)),
            decreases es.len() - i,
        {
            proof {
                assert(decreases_to!(es => es[i as int]));
            }
            let ghost pre = *self;
            let ghost pre_out = out@;
            let res = self.typecheck_expr(&es[i]);
            assert(infers(pre, es@[i as int], *self, res));
            proof {
                let ps = es@.subrange(0, i as int + 1);
                assert(ps.drop_last() =~= es@.subrange(0, i as int));
                assert(ps.last() == es@[i as int]);
                assert(reached(pre, Ok::<Seq<typed_ast::TypedExpr>, String>(pre_out)));
                assert(reached(*self, res));
            }
            match res {
                Ok(t) => {
                    proof {
                        lemma_steps_push(infers_step(), cs, es@, out@, *self, t);
                        cs = cs.push(*self);
                    }
                    out.push(t);
                },
                Err(e) => {
                    proof {
                        lemma_runs_err(infers_step(), cs, es@, out@, *self, e);
                        assert(infers_list(*old(self), es@.subrange(0, i as int + 1), *self, Err(e)));
                        lemma_infers_list_err(*old(self), es@, i as int + 1, *self, e);
                    }
                    return Err(e);
                },
            }
            i = i + 1;
        }
        proof {
            lemma_runs_ok(infers_step(), cs, es@, out@);
            assert(es@.subrange(0, i as int) =~= es@);
        }
        Ok(out)
    }

    /// Infers the types of the elements of an array literal; the values
    /// (not the spread parts) must agree on one element type, which is
    /// returned where there is a value.
    fn typecheck_array(&mut self, elements: &Vec<ast::ArrayElement>) -> (r: Result<
        (Vec<typed_ast::TypedArrayElement>, Option<Type>),
        String,
    >)
        ensures
            progressed(*old(self), *final(self)),
            r matches Ok((ts, _)) ==> array_mirrors(elements@, ts@),
            runs(
                array_element_step(),
                (*old(self), None),
                elements@,
                (
                    *final(self),
                    match r {
                        Ok((_, et)) => opt_type_view(et),
                        Err(_) => None,
                    },
                ),
                match r {
                    Ok((ts, _)) => Ok(ts@),
                    Err(e) => Err(e),
                },
            ),
            infers_array(
                *old(self),
                elements@,
                *final(self),
                match r {
                    Ok((ts, et)) => Ok((ts@, opt_type_view(et))),
                    Err(e) => Err(e),
                },
            ),
        decreases elements, 0nat,
    {
        let mut elem_type: Option<Type> = None;
        let mut out: Vec<typed_ast::TypedArrayElement> = Vec::new();
        let mut i: usize = 0;
        let ghost mut cs: Seq<(TypeChecker, Option<TypeV>)> = seq![(*self, None)];
        proof {
            lemma_steps_start(array_element_step(), (*self, None), elements@);
            assert(elements@.subrange(0, 0).len() == 0);
        }
        while i < elements.len()
            invariant
                i <= elements@.len(),
                out@.len() == i,
                progressed(*old(self), *self),
                forall|k: int| 0 <= k < i ==> array_element_mirrors(elements@[k], #[trigger] out@[k]),
                steps_hold(array_element_step(), cs, elements@, out@),
                cs[0] == (*old(self), None::<TypeV>),
                cs.last() == (*self, opt_type_view(elem_type)),
                infers_array(*old(self), elements@.subrange(0, i as int), *self, Ok((out@, opt_type_view(elem_type)))),
            decreases elements.len() - i,
        {
            proof {
                assert(decreases_to!(elements => elements[i as int]));
            }
            let ghost pre = *self;
            let ghost pre_et = opt_type_view(elem_type);
            let ghost pre_out = out@;
            let ghost ps = elements@.subrange(0, i as int + 1);
            proof {
                assert(ps.drop_last() =~= elements@.subrange(0, i as int));
                assert(ps.last() == elements@[i as int]);
                assert(reached(pre, Ok::<(Seq<typed_ast::TypedArrayElement>, Option<TypeV>), String>((pre_out, pre_et))));
            }
            match &elements[i] {
                ast::ArrayElement::Value(e) => {
                    let res = self.typecheck_expr(e);
                    assert(infers(pre, *e, *self, res));
                    assert(reached(*self, res));
                    let typed = match res {
                        Ok(t) => t,
                        Err(m) => {
                            proof {
                                lemma_runs_err(array_element_step(), cs, elements@, out@, (*self, None), m);
                                assert(infers_array(*old(self), ps, *self, Err(m)));
                                lemma_infers_array_err(*old(self), elements@, i as int + 1, *self, m);
                            }
                            return Err(m);
                        },
                    };
                    let ghost mid = *self;
                    match &elem_type {
                        Some(et) => {
                            match self.unify(et, &typed.typ) {
                                Ok(()) => {
                                    assert(unifies(mid, et@, typed.typ@, *self, Ok(())));
                                    assert(reached(*self, Ok::<(), String>(())));
                                },
                                Err(m) => {
                                    proof {
                                        assert(unifies(mid, et@, typed.typ@, *self, Err(m)));
                                        assert(reached(*self, Err::<(), String>(m)));
                                        lemma_runs_err(array_element_step(), cs, elements@, out@, (*self, None), m);
                                        assert(infers_array(*old(self), ps, *self, Err(m)));
                                        lemma_infers_array_err(*old(self), elements@, i as int + 1, *self, m);
                                    }
                                    return Err(m);
                                },
                            }
                        },
                        None => {
                            elem_type = Some(copy_type(&typed.typ));
                        },
                    }
                    let ghost tv = typed;
                    out.push(typed_ast::TypedArrayElement::Value(typed));
                    proof {
                        lemma_steps_push(
                            array_element_step(),
                            cs,
                            elements@,
                            out@.drop_last(),
                            (*self, opt_type_view(elem_type)),
                            typed_ast::TypedArrayElement::Value(tv),
                        );
                        assert(out@.drop_last().push(typed_ast::TypedArrayElement::Value(tv)) =~= out@);
                        assert(infers_array(*old(self), ps, *self, Ok((out@, opt_type_view(elem_type)))));
                        cs = cs.push((*self, opt_type_view(elem_type)));
                    }
                },
                ast::ArrayElement::Spread(e) => {
                    let res = self.typecheck_expr(e);
                    assert(infers(pre, *e, *self, res));
                    assert(reached(*self, res));
                    let typed = match res {
                        Ok(t) => t,
                        Err(m) => {
                            proof {
                                lemma_runs_err(array_element_step(), cs, elements@, out@, (*self, None), m);
                                assert(infers_array(*old(self), ps, *self, Err(m)));
                                lemma_infers_array_err(*old(self), elements@, i as int + 1, *self, m);
                            }
                            return Err(m);
                        },
                    };
                    let ghost tv = typed;
                    out.push(typed_ast::TypedArrayElement::Spread(typed));
                    proof {
                        lemma_steps_push(
                            array_element_step(),
                            cs,
                            elements@,
                            out@.drop_last(),
                            (*self, opt_type_view(elem_type)),
                            typed_ast::TypedArrayElement::Spread(tv),
                        );
                        assert(out@.drop_last().push(typed_ast::TypedArrayElement::Spread(tv)) =~= out@);
                        assert(infers_array(*old(self), ps, *self, Ok((out@, opt_type_view(elem_type)))));
                        cs = cs.push((*self, opt_type_view(elem_type)));
                    }
                },
            }
            i = i + 1;
        }
        proof {
            lemma_runs_ok(array_element_step(), cs, elements@, out@);
            assert(elements@.subrange(0, i as int) =~= elements@);
        }
        Ok((out, elem_type))
    }

    /// Infers the types of the fields of a row literal; returns the names
    /// and types of the named fields too.
    fn typecheck_row(&mut self, fields: &Vec<ast::RowField>) -> (r: Result<
        (Vec<typed_ast::TypedRowField>, Vec<(String, Type)>),
        String,
    >)
        ensures
            progressed(*old(self), *final(self)),
            r matches Ok((ts, _)) ==> row_mirrors(fields@, ts@),
            r matches Ok((ts, fts)) ==> bindings_view(fts@) == named_field_types(ts@),
            runs(
                row_field_step(),
                *old(self),
                fields@,
                *final(self),
                match r {
                    Ok((ts, _)) => Ok(ts@),
                    Err(e) => Err(e),
                },
            ),
            infers_row(*old(self), fields@, *final(self), first_seq_result(r)),
        decreases fields, 0nat,
    {
        let mut field_types: Vec<(String, Type)> = Vec::new();
        let mut out: Vec<typed_ast::TypedRowField> = Vec::new();
        let mut i: usize = 0;
        let ghost mut cs: Seq<TypeChecker> = seq![*self];
        proof {
            lemma_steps_start(row_field_step(), *self, fields@);
            assert(fields@.subrange(0, 0).len() == 0);
            assert(bindings_view(field_types@) =~= named_field_types(out@));
        }
        while i < fields.len()
            invariant
                i <= fields@.len(),
                out@.len() == i,
                progressed(*old(self), *self),
                forall|k: int| 0 <= k < i ==> row_field_mirrors(fields@[k], #[trigger] out@[k]),
                bindings_view(field_types@) == named_field_types(out@),
                steps_hold(row_field_step(), cs, fields@, out@),
                cs[0] == *old(self),
                cs.last() == *self,
                infers_row(*old(self), fields@.subrange(0, i as int), *self, Ok(out@)),
            decreases fields.len() - i,
        {
            proof {
                assert(decreases_to!(fields => fields[i as int]));
            }
            let ghost pre = *self;
            let ghost before_types = bindings_view(field_types@);
            let ghost ps = fields@.subrange(0, i as int + 1);
            proof {
                assert(ps.drop_last() =~= fields@.subrange(0, i as int));
                assert(ps.last() == fields@[i as int]);
                assert(reached(pre, Ok::<Seq<typed_ast::TypedRowField>, String>(out@)));
            }
            match &fields[i] {
                ast::RowField::Field { name, value } => {
                    let res = self.typecheck_expr(value);
                    assert(infers(pre, *value, *self, res));
                    assert(reached(*self, res));
                    let typed_value = match res {
                        Ok(t) => t,
                        Err(m) => {
                            proof {
                                lemma_runs_err(row_field_step(), cs, fields@, out@, *self, m);
                                assert(infers_row(*old(self), ps, *self, Err(m)));
                                lemma_infers_row_err(*old(self), fields@, i as int + 1, *self, m);
                            }
                            return Err(m);
                        },
                    };
                    field_types.push((name.clone(), copy_type(&typed_value.typ)));
                    let ghost tv = typed_value;
                    let ghost prev_out = out@;
                    out.push(typed_ast::TypedRowField::Field { name: name.clone(), value: typed_value });
                    proof {
                        assert(out@.drop_last() =~= prev_out);
                        assert(bindings_view(field_types@) =~= before_types.push((name@, tv.typ@)));
                        lemma_steps_push(row_field_step(), cs, fields@, prev_out, *self, out@.last());
                        assert(prev_out.push(out@.last()) =~= out@);
                        assert(infers_row(*old(self), ps, *self, Ok(out@)));
                        cs = cs.push(*self);
                    }
                },
                ast::RowField::Spread(e) => {
                    let res = self.typecheck_expr(e);
                    assert(infers(pre, *e, *self, res));
                    assert(reached(*self, res));
                    let typed_value = match res {
                        Ok(t) => t,
                        Err(m) => {
                            proof {
                                lemma_runs_err(row_field_step(), cs, fields@, out@, *self, m);
                                assert(infers_row(*old(self), ps, *self, Err(m)));
                                lemma_infers_row_err(*old(self), fields@, i as int + 1, *self, m);
                            }
                            return Err(m);
                        },
                    };
                    let ghost prev_out = out@;
                    out.push(typed_ast::TypedRowField::Spread(typed_value));
                    proof {
                        assert(out@.drop_last() =~= prev_out);
                        lemma_steps_push(row_field_step(), cs, fields@, prev_out, *self, out@.last());
                        assert(prev_out.push(out@.last()) =~= out@);
                        assert(infers_row(*old(self), ps, *self, Ok(out@)));
                        cs = cs.push(*self);
                    }
                },
            }
            i = i + 1;
        }
        proof {
            lemma_runs_ok(row_field_step(), cs, fields@, out@);
            assert(fields@.subrange(0, i as int) =~= fields@);
        }
        Ok((out, field_types))
    }

    /// Infers the types of the fields of a struct literal.
    fn typecheck_init_fields(&mut self, fields: &Vec<ast::StructInitField>) -> (r: Result<
        Vec<typed_ast::TypedStructInitField>,
        String,
    >)
        ensures
            progressed(*old(self), *final(self)),
            r matches Ok(ts) ==> init_fields_mirror(fields@, ts@),
            runs(init_field_step(), *old(self), fields@, *final(self), seq_result(r)),
            infers_init_fields(*old(self), fields@, *final(self), seq_result(r)),
        decreases fields, 0nat,
    {
        let mut out: Vec<typed_ast::TypedStructInitField> = Vec::new();
        let mut i: usize = 0;
        let ghost mut cs: Seq<TypeChecker> = seq![*self];
        proof {
            lemma_steps_start(init_field_step(), *self, fields@);
            assert(fields@.subrange(0, 0).len() == 0);
        }
        while i < fields.len()
            invariant
                i <= fields@.len(),
                out@.len() == i,
                progressed(*old(self), *self),
                forall|k: int| 0 <= k < i ==> init_field_mirrors(fields@[k], #[trigger] out@[k]),
                steps_hold(init_field_step(), cs, fields@, out@),
                cs[0] == *old(self),
                cs.last() == *self,
                infers_init_fields(*old(self), fields@.subrange(0, i as int), *self, Ok(out@)),
            decreases fields.len() - i,
        {
            proof {
                assert(decreases_to!(fields => fields[i as int]));
            }
            let ghost pre = *self;
            let ghost ps = fields@.subrange(0, i as int + 1);
            proof {
                assert(ps.drop_last() =~= fields@.subrange(0, i as int));
                assert(ps.last() == fields@[i as int]);
                assert(reached(pre, Ok::<Seq<typed_ast::TypedStructInitField>, String>(out@)));
            }
            match &fields[i] {
                ast::StructInitField::Field { name, value } => {
                    let res = self.typecheck_expr(value);
                    assert(infers(pre, *value, *self, res));
                    assert(reached(*self, res));
                    let typed_value = match res {
                        Ok(t) => t,
                        Err(m) => {
                            proof {
                                lemma_runs_err(init_field_step(), cs, fields@, out@, *self, m);
                                assert(infers_init_fields(*old(self), ps, *self, Err(m)));
                                lemma_infers_init_fields_err(*old(self), fields@, i as int + 1, *self, m);
                            }
                            return Err(m);
                        },
                    };
                    let ghost prev_out = out@;
                    out.push(typed_ast::TypedStructInitField::Field { name: name.clone(), value: typed_value });
                    proof {
                        assert(out@.drop_last() =~= prev_out);
                        lemma_steps_push(init_field_step(), cs, fields@, prev_out, *self, out@.last());
                        assert(prev_out.push(out@.last()) =~= out@);
                        assert(infers_init_fields(*old(self), ps, *self, Ok(out@)));
                        cs = cs.push(*self);
                    }
                },
                ast::StructInitField::Spread(e) => {
                    let res = self.typecheck_expr(e);
                    assert(infers(pre, *e, *self, res));
                    assert(reached(*self, res));
                    let typed_value = match res {
                        Ok(t) => t,
                        Err(m) => {
                            proof {
                                lemma_runs_err(init_field_step(), cs, fields@, out@, *self, m);
                                assert(infers_init_fields(*old(self), ps, *self, Err(m)));
                                lemma_infers_init_fields_err(*old(self), fields@, i as int + 1, *self, m);
                            }
                            return Err(m);
                        },
                    };
                    let ghost prev_out = out@;
                    out.push(typed_ast::TypedStructInitField::Spread(typed_value));
                    proof {
                        assert(out@.drop_last() =~= prev_out);
                        lemma_steps_push(init_field_step(), cs, fields@, prev_out, *self, out@.last());
                        assert(prev_out.push(out@.last()) =~= out@);
                        assert(infers_init_fields(*old(self), ps, *self, Ok(out@)));
                        cs = cs.push(*self);
                    }
                },
            }
            i = i + 1;
        }
        proof {
            lemma_runs_ok(init_field_step(), cs, fields@, out@);
            assert(fields@.subrange(0, i as int) =~= fields@);
        }
        Ok(out)
    }

    /// Infers the types of the arms of a match: the guard first, then the
    /// names the pattern binds, then the body. Returns the type of each
    /// arm too: that of its last expression, or `void`.
    fn typecheck_arms(&mut self, arms: &Vec<ast::MatchArm>) -> (r: Result<
        (Vec<typed_ast::TypedMatchArm>, Vec<Type>),
        String,
    >)
        ensures
            progressed(*old(self), *final(self)),
            r matches Ok((ts, tys)) ==> arms_mirror(arms@, ts@) && tys@.len() == arms@.len(),
            r matches Ok((ts, tys)) ==> forall|k: int| 0 <= k < arms@.len() ==> (#[trigger] tys@[k])@ == ts@[k].typ@,
            runs(
                arm_step(),
                *old(self),
                arms@,
                *final(self),
                match r {
                    Ok((ts, _)) => Ok(ts@),
                    Err(e) => Err(e),
                },
            ),
            infers_arms(
                *old(self),
                arms@,
                *final(self),
                match r {
                    Ok((ts, _)) => Ok(ts@),
                    Err(e) => Err(e),
                },
            ),
        decreases arms, 0nat,
    {
        let mut arm_types: Vec<Type> = Vec::new();
        let mut out: Vec<typed_ast::TypedMatchArm> = Vec::new();
        let mut i: usize = 0;
        let ghost mut cs: Seq<TypeChecker> = seq![*self];
        proof {
            lemma_steps_start(arm_step(), *self, arms@);
            assert(arms@.subrange(0, 0).len() == 0);
        }
        while i < arms.len()
            invariant
                i <= arms@.len(),
                out@.len() == i,
                arm_types@.len() == i,
                progressed(*old(self), *self),
                forall|k: int| 0 <= k < i ==> arm_mirrors(arms@[k], #[trigger] out@[k]),
                forall|k: int| 0 <= k < i ==> (#[trigger] arm_types@[k])@ == out@[k].typ@,
                steps_hold(arm_step(), cs, arms@, out@),
                cs[0] == *old(self),
                cs.last() == *self,
                infers_arms(*old(self), arms@.subrange(0, i as int), *self, Ok(out@)),
            decreases arms.len() - i,
        {
            let arm = &arms[i];
            proof {
                assert(decreases_to!(arms => arms[i as int]));
                assert(decreases_to!(arms[i as int] => arms[i as int].body));
            }
            let ghost pre = *self;
            let ghost ps = arms@.subrange(0, i as int + 1);
            proof {
                assert(ps.drop_last() =~= arms@.subrange(0, i as int));
                assert(ps.last() == arms@[i as int]);
                assert(reached(pre, Ok::<Seq<typed_ast::TypedMatchArm>, String>(out@)));
            }
            let typed_guard = match &arm.guard {
                Some(g) => {
                    proof {
                        assert(decreases_to!(arms[i as int] => arms[i as int].guard));
                    }
                    let res = self.typecheck_expr(g);
                    assert(infers(pre, **g, *self, res));
                    assert(reached(*self, res));
                    match res {
                        Ok(t) => Some(Box::new(t)),
                        Err(e) => {
                            proof {
                                assert(guard_checked(pre, arm.guard, *self, Err(e)));
                                assert(arm_fails(pre, *arm, *self, e));
                                lemma_runs_err(arm_step(), cs, arms@, out@, *self, e);
                                assert(infers_arms(*old(self), ps, *self, Err(e)));
                                lemma_infers_arms_err(*old(self), arms@, i as int + 1, *self, e);
                            }
                            return Err(e);
                        },
                    }
                },
                None => None,
            };
            let ghost m1 = *self;
            assert(guard_checked(pre, arm.guard, m1, Ok(typed_guard)));
            let _ = self.typecheck_pattern(&arm.pattern);
            let ghost m2 = *self;
            assert(patterned(m1, arm.pattern, m2));
            assert(passed(m2));
            let body_res = self.typecheck_exprs(&arm.body);
            assert(reached(*self, seq_result(body_res)));
            let typed_body = match body_res {
                Ok(tb) => tb,
                Err(e) => {
                    proof {
                        assert(runs(infers_step(), m2, arm.body@, *self, Err(e)));
                        assert(arm_fails(pre, *arm, *self, e));
                        lemma_runs_err(arm_step(), cs, arms@, out@, *self, e);
                        assert(arm_rest(m1, ps, typed_guard, out@, *self, Err(e)));
                        assert(infers_arms(*old(self), ps, *self, Err(e)));
                        lemma_infers_arms_err(*old(self), arms@, i as int + 1, *self, e);
                    }
                    return Err(e);
                },
            };
            let arm_typ = if typed_body.len() > 0 {
                copy_type(&typed_body[typed_body.len() - 1].typ)
            } else {
                con("void")
            };
            arm_types.push(copy_type(&arm_typ));
            let ghost prev_out = out@;
            out.push(
                typed_ast::TypedMatchArm {
                    pattern: self.convert_pattern(&arm.pattern),
                    guard: typed_guard,
                    body: typed_body,
                    typ: arm_typ,
                },
            );
            proof {
                let ta = out@.last();
                assert(out@.drop_last() =~= prev_out);
                assert(ta.guard == typed_guard);
                assert(guard_checked(pre, arms@[i as int].guard, m1, Ok(ta.guard)));
                assert(patterned(m1, arms@[i as int].pattern, m2));
                assert(runs(infers_step(), m2, arms@[i as int].body@, *self, Ok(ta.body@)));
                assert(arm_passes(pre, arms@[i as int], ta, *self));
                lemma_steps_push(arm_step(), cs, arms@, prev_out, *self, ta);
                assert(prev_out.push(ta) =~= out@);
                assert(arm_rest(m1, ps, typed_guard, prev_out, *self, Ok(out@)));
                assert(infers_arms(*old(self), ps, *self, Ok(out@)));
                cs = cs.push(*self);
            }
            i = i + 1;
        }
        proof {
            lemma_runs_ok(arm_step(), cs, arms@, out@);
            assert(arms@.subrange(0, i as int) =~= arms@);
        }
        Ok((out, arm_types))
    }

    /// Unifies `t` with each type of `ts`, in order.
    fn unify_each(&mut self, t: &Type, ts: &Vec<Type>) -> (r: Result<(), String>)
        ensures
            progressed(*old(self), *final(self)),
            final(self).env == old(self).env,
            final(self).next_var == old(self).next_var,
            final(self).substitution@ == unify_all(old(self).substitution@, t@, types_view(ts@)).0,
            match unify_all(old(self).substitution@, t@, types_view(ts@)).1 {
                Ok(()) => r is Ok,
                Err(m) => (r matches Err(e) && e@ == "unification error: "@ + m),
            },
    {
        proof {
            lemma_types_view(ts@);
            assert(types_view(ts@).subrange(0, 0).len() == 0);
        }
        let mut i: usize = 0;
        while i < ts.len()
            invariant
                i <= ts@.len(),
                types_view(ts@).len() == ts@.len(),
                forall|k: int| 0 <= k < ts@.len() ==> #[trigger] types_view(ts@)[k] == ts@[k]@,
                progressed(*old(self), *self),
                self.env == old(self).env,
                self.next_var == old(self).next_var,
                self.substitution@ == unify_all(old(self).substitution@, t@, types_view(ts@).subrange(0, i as int)).0,
                unify_all(old(self).substitution@, t@, types_view(ts@).subrange(0, i as int)).1 is Ok,
            decreases ts.len() - i,
        {
            let ghost prefix = types_view(ts@).subrange(0, i as int + 1);
            assert(prefix.drop_last() =~= types_view(ts@).subrange(0, i as int));
            assert(prefix.last() == ts@[i as int]@);
            match self.unify(t, &ts[i]) {
                Ok(()) => {},
                Err(e) => {
                    proof {
                        lemma_unify_all_stops(old(self).substitution@, t@, types_view(ts@), i as int + 1);
                    }
                    return Err(e);
                },
            }
            i = i + 1;
        }
        assert(types_view(ts@).subrange(0, i as int) =~= types_view(ts@));
        Ok(())
    }

    /// The names that the `let`s of a block bind and that are bound
    /// already, with their types before the block.
    fn shadowed_lets(&self, expressions: &Vec<ast::Expr>) -> (r: Vec<(String, Type)>)
        ensures
            bindings_view(r@) == shadowed(expressions@, self.env@),
    {
        let mut old_bindings: Vec<(String, Type)> = Vec::new();
        let mut i: usize = 0;
        assert(bindings_view(old_bindings@) =~= shadowed(expressions@.subrange(0, 0), self.env@));
        while i < expressions.len()
            invariant
                i <= expressions@.len(),
                bindings_view(old_bindings@) == shadowed(expressions@.subrange(0, i as int), self.env@),
            decreases expressions.len() - i,
        {
            let ghost es = expressions@.subrange(0, i as int + 1);
            let ghost before = bindings_view(old_bindings@);
            assert(es.drop_last() =~= expressions@.subrange(0, i as int));
            assert(es.last() == expressions@[i as int]);
            match &expressions[i].kind {
                ast::ExprKind::Let { name, .. } => match self.env.get(name.as_str()) {
                    Some(bound_type) => {
                        old_bindings.push((name.clone(), copy_type(bound_type)));
                        assert(bindings_view(old_bindings@) =~= before.push((name@, self.env@[name@]@)));
                    },
                    None => {},
                },
                _ => {},
            }
            i = i + 1;
        }
        assert(expressions@.subrange(0, i as int) =~= expressions@);
        old_bindings
    }

    /// Binds each name of `bindings` to its type again, in order.
    fn rebind(&mut self, bindings: &Vec<(String, Type)>)
        ensures
            same_decls(*old(self), *final(self)),
            final(self).substitution == old(self).substitution,
            final(self).next_var == old(self).next_var,
            env_types(final(self).env@) == bound_all(env_types(old(self).env@), bindings_view(bindings@)),
    {
        let mut j: usize = 0;
        assert(bindings_view(bindings@).subrange(0, 0).len() == 0);
        while j < bindings.len()
            invariant
                j <= bindings@.len(),
                same_decls(*old(self), *self),
                self.substitution == old(self).substitution,
                self.next_var == old(self).next_var,
                env_types(self.env@) == bound_all(
                    env_types(old(self).env@),
                    bindings_view(bindings@).subrange(0, j as int),
                ),
            decreases bindings.len() - j,
        {
            let ghost bs = bindings_view(bindings@).subrange(0, j as int + 1);
            let ghost before = self.env@;
            assert(bs.drop_last() =~= bindings_view(bindings@).subrange(0, j as int));
            let c = copy_type(&bindings[j].1);
            self.env.insert(bindings[j].0.clone(), c);
            assert(env_types(self.env@) =~= env_types(before).insert(bs.last().0, bs.last().1));
            j = j + 1;
        }
        assert(bindings_view(bindings@).subrange(0, j as int) =~= bindings_view(bindings@));
    }

    /// Binds each parameter of a lambda to the type of its annotation;
    /// returns the names bound and the types, in order.
    fn bind_params(&mut self, params: &Vec<ast::FunctionParam>) -> (r: (Vec<String>, Vec<Type>))
        ensures
            same_decls(*old(self), *final(self)),
            final(self).substitution == old(self).substitution,
            r.0@.len() == params@.len(),
            r.1@.len() == params@.len(),
            forall|k: int| 0 <= k < params@.len() ==> (#[trigger] r.0@[k])@ == params@[k].name@,
            names_view(r.0@) == param_names(params@),
            forall|k: int|
                0 <= k < params@.len() && fixed_annotation(*old(self), params@[k].type_annotation) ==> (
                #[trigger] r.1@[k])@ == annotation_type(
                    params@[k].type_annotation,
                    old(self).generic_mapping@,
                    old(self).current_impl_type,
                ),
            (forall|k: int| 0 <= k < params@.len() ==> fixed_annotation(*old(self), #[trigger] params@[k].type_annotation))
                ==> final(self).next_var == old(self).next_var,
            env_types(final(self).env@) == bound_all(env_types(old(self).env@), param_bindings(params@, r.1@)),
            (types_view(r.1@), final(self).next_var) == param_types_run(
                params@,
                old(self).generic_mapping@,
                old(self).current_impl_type,
                old(self).next_var,
                false,
            ),
    {
        let mut bound: Vec<String> = Vec::new();
        let mut arg_types: Vec<Type> = Vec::new();
        let mut i: usize = 0;
        assert(types_view(arg_types@) =~= Seq::<TypeV>::empty());
        assert(param_bindings(params@.subrange(0, 0), arg_types@).len() == 0);
        while i < params.len()
            invariant
                i <= params@.len(),
                same_decls(*old(self), *self),
                self.substitution == old(self).substitution,
                bound@.len() == i,
                arg_types@.len() == i,
                forall|k: int| 0 <= k < i ==> (#[trigger] bound@[k])@ == params@[k].name@,
                forall|k: int|
                    0 <= k < i && fixed_annotation(*old(self), params@[k].type_annotation) ==> (
                    #[trigger] arg_types@[k])@ == annotation_type(
                        params@[k].type_annotation,
                        old(self).generic_mapping@,
                        old(self).current_impl_type,
                    ),
                (forall|k: int| 0 <= k < i ==> fixed_annotation(*old(self), #[trigger] params@[k].type_annotation))
                    ==> self.next_var == old(self).next_var,
                env_types(self.env@) == bound_all(
                    env_types(old(self).env@),
                    param_bindings(params@.subrange(0, i as int), arg_types@),
                ),
                (types_view(arg_types@), self.next_var) == param_types_run(
                    params@.subrange(0, i as int),
                    old(self).generic_mapping@,
                    old(self).current_impl_type,
                    old(self).next_var,
                    false,
                ),
            decreases params.len() - i,
        {
            let ghost before = self.env@;
            let ghost prev_types = arg_types@;
            let t = self.convert_to_internal_type(&params[i].type_annotation);
            let c = copy_type(&t);
            self.env.insert(params[i].name.clone(), c);
            bound.push(params[i].name.clone());
            arg_types.push(t);
            proof {
                let ps = params@.subrange(0, i as int + 1);
                assert(param_bindings(ps, arg_types@).drop_last() =~= param_bindings(
                    params@.subrange(0, i as int),
                    arg_types@.drop_last(),
                ));
                assert(param_bindings(params@.subrange(0, i as int), arg_types@.drop_last()) =~= param_bindings(
                    params@.subrange(0, i as int),
                    prev_types,
                ));
                assert(env_types(self.env@) =~= env_types(before).insert(params@[i as int].name@, t@));
                assert(ps.drop_last() =~= params@.subrange(0, i as int));
                assert(ps.last() == params@[i as int]);
                assert(arg_types@.drop_last() =~= prev_types);
                if forall|k: int| 0 <= k < i + 1 ==> fixed_annotation(*old(self), #[trigger] params@[k].type_annotation) {
                    assert(fixed_annotation(*old(self), params@[i as int].type_annotation));
                }
            }
            i = i + 1;
        }
        assert(params@.subrange(0, i as int) =~= params@);
        assert(names_view(bound@) =~= param_names(params@));
        (bound, arg_types)
    }

    /// Removes the bindings of the names, in order.
    fn unbind(&mut self, names: &Vec<String>)
        ensures
            same_decls(*old(self), *final(self)),
            final(self).substitution == old(self).substitution,
            final(self).next_var == old(self).next_var,
            final(self).env@ == unbound_all(old(self).env@, names_view(names@)),
    {
        let mut j: usize = 0;
        assert(names_view(names@).subrange(0, 0).len() == 0);
        while j < names.len()
            invariant
                j <= names@.len(),
                same_decls(*old(self), *self),
                self.substitution == old(self).substitution,
                self.next_var == old(self).next_var,
                self.env@ == unbound_all(old(self).env@, names_view(names@).subrange(0, j as int)),
                names_view(names@).len() == names@.len(),
            decreases names.len() - j,
        {
            let ghost ns = names_view(names@).subrange(0, j as int + 1);
            assert(ns.drop_last() =~= names_view(names@).subrange(0, j as int));
            assert(ns.last() == names@[j as int]@);
            self.env.remove(names[j].as_str());
            j = j + 1;
        }
        assert(names_view(names@).subrange(0, j as int) =~= names_view(names@));
    }

    /// The typed parameters of a lambda: each with the type of its
    /// annotation.
    pub fn typed_params(&mut self, params: &Vec<ast::FunctionParam>) -> (r: Vec<typed_ast::TypedFunctionParam>)
        ensures
            same_but_counter(*old(self), *final(self)),
            same_params(params@, r@),
            (r@.map_values(|p: typed_ast::TypedFunctionParam| p.typ@), final(self).next_var) == param_types_run(
                params@,
                old(self).generic_mapping@,
                old(self).current_impl_type,
                old(self).next_var,
                false,
            ),
    {
        let mut typed_params: Vec<typed_ast::TypedFunctionParam> = Vec::new();
        let mut k: usize = 0;
        assert(typed_params@.map_values(|p: typed_ast::TypedFunctionParam| p.typ@) =~= Seq::<TypeV>::empty());
        while k < params.len()
            invariant
                k <= params@.len(),
                typed_params@.len() == k,
                same_but_counter(*old(self), *self),
                forall|m: int| 0 <= m < k ==> same_param(params@[m], #[trigger] typed_params@[m]),
                (typed_params@.map_values(|p: typed_ast::TypedFunctionParam| p.typ@), self.next_var) == param_types_run(
                    params@.subrange(0, k as int),
                    old(self).generic_mapping@,
                    old(self).current_impl_type,
                    old(self).next_var,
                    false,
                ),
            decreases params.len() - k,
        {
            let ghost prev = typed_params@;
            let ghost qs = params@.subrange(0, k as int + 1);
            assert(qs.drop_last() =~= params@.subrange(0, k as int));
            assert(qs.last() == params@[k as int]);
            let p = &params[k];
            let converted = self.convert_type_annotation(&p.type_annotation);
            let t = self.convert_to_internal_type(&p.type_annotation);
            typed_params.push(
                typed_ast::TypedFunctionParam { name: p.name.clone(), type_annotation: converted, typ: t },
            );
            assert(typed_params@.map_values(|p: typed_ast::TypedFunctionParam| p.typ@) =~= prev.map_values(
                |p: typed_ast::TypedFunctionParam| p.typ@,
            ).push(typed_params@.last().typ@));
            k = k + 1;
        }
        assert(params@.subrange(0, k as int) =~= params@);
        typed_params
    }

    /// Infers the type of a call; `typ` is the fresh variable of the
    /// expression.
    fn typecheck_call(&mut self, expr: &ast::Expr, typ: Type) -> (r: Result<typed_ast::TypedExpr, String>)
        requires
            expr.kind is FunctionCall,
            typ@ is Var,
        ensures
            progressed(*old(self), *final(self)),
            r matches Ok(te) ==> expr_mirrors(*expr, te) && te.typ@ == apply_type(final(self).substitution@, typ@)
                && same_meta(expr.meta, te.meta),
            call_rule(*old(self), typ@->Var_0, *expr, *final(self), r),
        decreases expr, 0nat,
    {
        let ghost c1 = *self;
        match &expr.kind {
            ast::ExprKind::FunctionCall { function, args } => {
                let rx = self.typecheck_expr(function);
                assert(infers(c1, *expr.kind->FunctionCall_function, *self, rx));
                assert(reached(*self, rx));
                let typed_function = rx?;
                let ghost c2 = *self;
                let ry = self.typecheck_exprs(args);
                assert(infers_list(c2, expr.kind->FunctionCall_args@, *self, seq_result(ry)));
                assert(reached(*self, seq_result(ry)));
                let typed_args = ry?;
                let ghost c3 = *self;
                let ret_typ = self.fresh_var();
                let ghost c4 = *self;
                assert(c4 == bump(c3));
                let arg_types = types_of(&typed_args);
                proof {
                    lemma_types_view(arg_types@);
                    assert(types_view(arg_types@) =~= typs_of(typed_args@));
                }
                let fun_typ = Type::Fun { args: arg_types, ret: Box::new(copy_type(&ret_typ)) };
                let generic_sig = match &function.kind {
                    ast::ExprKind::Variable(func_name) => match self.function_env.get(func_name.as_str()) {
                        Some(sig) => Some(sig.copy()),
                        None => None,
                    },
                    _ => None,
                };
                let ghost target = call_target(c4, *expr.kind->FunctionCall_function, typed_args@, c3.next_var);
                match generic_sig {
                    Some(sig) => {
                        let instantiated_type = self.instantiate(&sig);
                        proof {
                            let orig = c4.function_env@[function.kind->Variable_0@];
                            assert(names_view(sig.generic_params@) =~= names_view(orig.generic_params@));
                            assert(*self == target.0);
                            assert(instantiated_type@ == target.1);
                        }
                        let u1 = self.unify(&typed_function.typ, &instantiated_type);
                        assert(unifies(target.0, typed_function.typ@, target.1, *self, u1));
                        assert(reached(*self, u1));
                        u1?;
                    },
                    None => {
                        assert(target == (c4, fun_typ@));
                        let u1 = self.unify(&typed_function.typ, &fun_typ);
                        assert(unifies(target.0, typed_function.typ@, target.1, *self, u1));
                        assert(reached(*self, u1));
                        u1?;
                    },
                }
                let ghost c6 = *self;
                let u = self.unify(&typ, &ret_typ);
                assert(unifies(c6, typ@, TypeV::Var(c3.next_var), *self, u));
                assert(reached(*self, u));
                u?;
                let kind = typed_ast::TypedExprKind::FunctionCall { function: Box::new(typed_function), args: typed_args };
                let final_typ = self.substitution.apply(&typ);
                Ok(typed_ast::TypedExpr { meta: expr.meta.copy(), kind, typ: final_typ })
            },
            _ => {
                proof {
                    assert(false);
                }
                Err(owned(""))
            },
        }
    }

    /// Infers the type of an `if`; `typ` is the fresh variable of the
    /// expression.
    fn typecheck_if(&mut self, expr: &ast::Expr, typ: Type) -> (r: Result<typed_ast::TypedExpr, String>)
        requires
            expr.kind is If,
            typ@ is Var,
        ensures
            progressed(*old(self), *final(self)),
            r matches Ok(te) ==> expr_mirrors(*expr, te) && te.typ@ == apply_type(final(self).substitution@, typ@)
                && same_meta(expr.meta, te.meta),
            if_rule(*old(self), typ@->Var_0, *expr, *final(self), r),
        decreases expr, 0nat,
    {
        let ghost c1 = *self;
        match &expr.kind {
            ast::ExprKind::If { condition, then_branch, else_branch } => {
                let rx = self.typecheck_expr(condition);
                assert(infers(c1, *expr.kind->If_condition, *self, rx));
                assert(reached(*self, rx));
                let typed_condition = rx?;
                let ghost c2 = *self;
                let bool_typ = con("bool");
                let u1 = self.unify(&typed_condition.typ, &bool_typ);
                assert(unifies(c2, typed_condition.typ@, con_v("bool"@), *self, u1));
                assert(reached(*self, u1));
                u1?;
                let ghost c3 = *self;
                let ry = self.typecheck_exprs(then_branch);
                assert(infers_list(c3, expr.kind->If_then_branch@, *self, seq_result(ry)));
                assert(reached(*self, seq_result(ry)));
                let typed_then = ry?;
                let ghost c4 = *self;
                let typed_else = match else_branch {
                    Some(branch) => {
                        let rz = self.typecheck_exprs(branch);
                        assert(infers_list(c4, branch@, *self, seq_result(rz)));
                        assert(reached(*self, seq_result(rz)));
                        Some(rz?)
                    },
                    None => None,
                };
                let ghost c5 = *self;
                let branch_typ = match &typed_else {
                    Some(else_exprs) => {
                        if typed_then.len() > 0 && else_exprs.len() > 0 {
                            let last_then = &typed_then[typed_then.len() - 1];
                            let last_else = &else_exprs[else_exprs.len() - 1];
                            let u2 = self.unify(&last_then.typ, &last_else.typ);
                            assert(unifies(c5, typed_then@.last().typ@, else_exprs@.last().typ@, *self, u2));
                            assert(reached(*self, u2));
                            u2?;
                            copy_type(&last_then.typ)
                        } else {
                            let v = self.fresh_var();
                            assert(*self == bump(c5));
                            v
                        }
                    },
                    None => con("void"),
                };
                let ghost c6 = *self;
                let u = self.unify(&typ, &branch_typ);
                assert(unifies(c6, typ@, branch_typ@, *self, u));
                assert(reached(*self, u));
                u?;
                let kind = typed_ast::TypedExprKind::If {
                    condition: Box::new(typed_condition),
                    then_branch: typed_then,
                    else_branch: typed_else,
                };
                let final_typ = self.substitution.apply(&typ);
                Ok(typed_ast::TypedExpr { meta: expr.meta.copy(), kind, typ: final_typ })
            },
            _ => {
                proof {
                    assert(false);
                }
                Err(owned(""))
            },
        }
    }

    /// Infers the type of a lambda; `typ` is the fresh variable of the
    /// expression.
    fn typecheck_lambda(&mut self, expr: &ast::Expr, typ: Type) -> (r: Result<typed_ast::TypedExpr, String>)
        requires
            expr.kind is Lambda,
            typ@ is Var,
        ensures
            progressed(*old(self), *final(self)),
            r matches Ok(te) ==> expr_mirrors(*expr, te) && te.typ@ == apply_type(final(self).substitution@, typ@)
                && same_meta(expr.meta, te.meta),
            lambda_rule(*old(self), typ@->Var_0, *expr, *final(self), r),
        decreases expr, 0nat,
    {
        let ghost c1 = *self;
        match &expr.kind {
            ast::ExprKind::Lambda { params, return_type, body } => {
                let (bound, arg_types) = self.bind_params(params);
                let ghost c2 = *self;
                proof {
                    lemma_types_view(arg_types@);
                    assert(param_bindings(params@, arg_types@) =~= Seq::new(
                        params@.len(),
                        |k: int| (params@[k].name@, types_view(arg_types@)[k]),
                    ));
                }
                assert(lambda_bound(c1, params@, c2, types_view(arg_types@)));
                let rx = self.typecheck_expr(body);
                assert(infers(c2, *expr.kind->Lambda_body, *self, rx));
                assert(reached(*self, rx));
                let typed_body = rx?;
                let ghost c3 = *self;
                let ret_typ = match return_type {
                    Some(rt) => self.convert_to_internal_type(rt),
                    None => copy_type(&typed_body.typ),
                };
                let ghost ret = lambda_return(c3, *return_type, typed_body);
                assert(ret_typ@ == ret.0);
                assert(*self == with_counter(c3, ret.1));
                self.unbind(&bound);
                let ghost c5 = *self;
                assert(names_unbound(with_counter(c3, ret.1), param_names(params@), c5));
                assert(passed(c5));
                let lambda_typ = Type::Fun { args: arg_types, ret: Box::new(ret_typ) };
                let u = self.unify(&typ, &lambda_typ);
                assert(unifies(c5, typ@, TypeV::Fun { args: types_view(arg_types@), ret: Box::new(ret.0) }, *self, u));
                assert(reached(*self, u));
                u?;
                let ghost c6 = *self;
                let typed_params = self.typed_params(params);
                let converted_return = match return_type {
                    Some(rt) => Some(self.convert_type_annotation(rt)),
                    None => None,
                };
                let kind = typed_ast::TypedExprKind::Lambda {
                    params: typed_params,
                    return_type: converted_return,
                    body: Box::new(typed_body),
                };
                let final_typ = self.substitution.apply(&typ);
                Ok(typed_ast::TypedExpr { meta: expr.meta.copy(), kind, typ: final_typ })
            },
            _ => {
                proof {
                    assert(false);
                }
                Err(owned(""))
            },
        }
    }

    /// Infers the type of a field access; `typ` is the fresh variable of
    /// the expression.
    fn typecheck_dot(&mut self, expr: &ast::Expr, typ: Type) -> (r: Result<typed_ast::TypedExpr, String>)
        requires
            expr.kind is DotAccess,
            typ@ is Var,
        ensures
            progressed(*old(self), *final(self)),
            r matches Ok(te) ==> expr_mirrors(*expr, te) && te.typ@ == apply_type(final(self).substitution@, typ@)
                && same_meta(expr.meta, te.meta),
            dot_rule(*old(self), typ@->Var_0, *expr, *final(self), r),
        decreases expr, 0nat,
    {
        let ghost c1 = *self;
        match &expr.kind {
            ast::ExprKind::DotAccess { value, field } => {
                let rx = self.typecheck_expr(value);
                assert(infers(c1, *expr.kind->DotAccess_value, *self, rx));
                assert(reached(*self, rx));
                let typed_value = rx?;
                let ghost c2 = *self;
                let field_typ = match &typed_value.typ {
                    Type::Con { name, .. } => match self.lookup_method(name.as_str(), field.as_str()) {
                        Some(mt) => mt,
                        None => match self.lookup_field(name.as_str(), field.as_str()) {
                            Some(ft) => ft,
                            None => self.fresh_var(),
                        },
                    },
                    _ => self.fresh_var(),
                };
                let ghost c3 = *self;
                assert(dot_target(c2, typed_value.typ@, field@, c3, field_typ@));
                assert(reached(c3, Ok::<TypeV, String>(field_typ@)));
                let u = self.unify(&typ, &field_typ);
                assert(unifies(c3, typ@, field_typ@, *self, u));
                assert(reached(*self, u));
                u?;
                let kind = typed_ast::TypedExprKind::DotAccess { value: Box::new(typed_value), field: field.clone() };
                let final_typ = self.substitution.apply(&typ);
                Ok(typed_ast::TypedExpr { meta: expr.meta.copy(), kind, typ: final_typ })
            },
            _ => {
                proof {
                    assert(false);
                }
                Err(owned(""))
            },
        }
    }

    /// Infers the type of a match; `typ` is the fresh variable of the
    /// expression.
    fn typecheck_match(&mut self, expr: &ast::Expr, typ: Type) -> (r: Result<typed_ast::TypedExpr, String>)
        requires
            expr.kind is Match,
            typ@ is Var,
        ensures
            progressed(*old(self), *final(self)),
            r matches Ok(te) ==> expr_mirrors(*expr, te) && te.typ@ == apply_type(final(self).substitution@, typ@)
                && same_meta(expr.meta, te.meta),
            match_rule(*old(self), typ@->Var_0, *expr, *final(self), r),
        decreases expr, 0nat,
    {
        let ghost c1 = *self;
        match &expr.kind {
            ast::ExprKind::Match { value, arms } => {
                let rx = self.typecheck_expr(value);
                assert(infers(c1, *expr.kind->Match_value, *self, rx));
                assert(reached(*self, rx));
                let typed_value = rx?;
                let ghost c2 = *self;
                let ry = self.typecheck_arms(arms);
                let ghost zr = first_seq_result(ry);
                assert(infers_arms(c2, expr.kind->Match_arms@, *self, zr));
                assert(reached(*self, zr));
                let (typed_arms, arm_types) = ry?;
                let ghost c3 = *self;
                proof {
                    lemma_types_view(arm_types@);
                    assert(types_view(arm_types@) =~= arm_types_of(typed_arms@));
                }
                let match_typ = if arm_types.len() > 0 {
                    copy_type(&arm_types[0])
                } else {
                    self.fresh_var()
                };
                let ghost mt = match_type(c3, arm_types_of(typed_arms@));
                assert(match_typ@ == mt.0);
                assert(*self == mt.1);
                let ue = self.unify_each(&match_typ, &arm_types);
                let ghost c5 = *self;
                assert(unified_each(mt.1, mt.0, arm_types_of(typed_arms@), c5));
                assert(passed(c5));
                ue?;
                let u = self.unify(&typ, &match_typ);
                assert(unifies(c5, typ@, mt.0, *self, u));
                assert(reached(*self, u));
                u?;
                let kind = typed_ast::TypedExprKind::Match { value: Box::new(typed_value), arms: typed_arms };
                let final_typ = self.substitution.apply(&typ);
                Ok(typed_ast::TypedExpr { meta: expr.meta.copy(), kind, typ: final_typ })
            },
            _ => {
                proof {
                    assert(false);
                }
                Err(owned(""))
            },
        }
    }

    /// Infers the type of a `let`; `typ` is the fresh variable of the expression.
    fn typecheck_let(&mut self, expr: &ast::Expr, typ: Type) -> (r: Result<typed_ast::TypedExpr, String>)
        requires
            expr.kind is Let,
            typ@ is Var,
        ensures
            progressed(*old(self), *final(self)),
            r matches Ok(te) ==> expr_mirrors(*expr, te) && te.typ@ == apply_type(final(self).substitution@, typ@)
                && same_meta(expr.meta, te.meta),
            let_rule(*old(self), *expr, *final(self), r),
        decreases expr, 0nat,
    {
        let ghost c1 = *self;
        match &expr.kind {
            ast::ExprKind::Let { name, type_annotation, value } => {
                let rx = self.typecheck_expr(value);
                assert(infers(c1, *expr.kind->Let_value, *self, rx));
                assert(reached(*self, rx));
                let typed_value = rx?;
                let ghost c2 = *self;
                let converted = match type_annotation {
                    Some(ta) => {
                        let expected_typ = self.convert_to_internal_type(ta);
                        let ghost run = annotation_run(*ta, c2.generic_mapping@, c2.current_impl_type, c2.next_var);
                        assert(*self == with_counter(c2, run.1));
                        let u = self.unify(&typed_value.typ, &expected_typ);
                        assert(unifies(with_counter(c2, run.1), typed_value.typ@, run.0, *self, u));
                        assert(reached(*self, u));
                        u?;
                        Some(self.convert_type_annotation(ta))
                    },
                    None => None,
                };
                let ghost c4 = *self;
                self.env.insert(name.clone(), copy_type(&typed_value.typ));
                assert(env_types(self.env@) =~= env_types(c4.env@).insert(name@, typed_value.typ@));
                assert(name_bound(c4, name@, typed_value.typ@, *self));
                let kind = typed_ast::TypedExprKind::Let {
                    name: name.clone(),
                    type_annotation: converted,
                    value: Box::new(typed_value),
                };
                let final_typ = self.substitution.apply(&typ);
                Ok(typed_ast::TypedExpr { meta: expr.meta.copy(), kind, typ: final_typ })
            },
            _ => {
                proof {
                    assert(false);
                }
                Err(owned(""))
            },
        }
    }

    /// Infers the type of a cast; `typ` is the fresh variable of the expression.
    fn typecheck_cast(&mut self, expr: &ast::Expr, typ: Type) -> (r: Result<typed_ast::TypedExpr, String>)
        requires
            expr.kind is Cast,
            typ@ is Var,
        ensures
            progressed(*old(self), *final(self)),
            r matches Ok(te) ==> expr_mirrors(*expr, te) && te.typ@ == apply_type(final(self).substitution@, typ@)
                && same_meta(expr.meta, te.meta),
            cast_rule(*old(self), typ@->Var_0, *expr, *final(self), r),
        decreases expr, 0nat,
    {
        let ghost c1 = *self;
        match &expr.kind {
            ast::ExprKind::Cast(inner, type_annotation) => {
                let rx = self.typecheck_expr(inner);
                assert(infers(c1, *expr.kind->Cast_0, *self, rx));
                assert(reached(*self, rx));
                let typed_expr = rx?;
                let ghost c2 = *self;
                let target_typ = self.convert_to_internal_type(type_annotation);
                let ghost run = annotation_run(*type_annotation, c2.generic_mapping@, c2.current_impl_type, c2.next_var);
                assert(*self == with_counter(c2, run.1));
                let u = self.unify(&typ, &target_typ);
                assert(unifies(with_counter(c2, run.1), typ@, run.0, *self, u));
                assert(reached(*self, u));
                u?;
                let kind = typed_ast::TypedExprKind::Cast(Box::new(typed_expr), self.convert_type_annotation(type_annotation));
                let final_typ = self.substitution.apply(&typ);
                Ok(typed_ast::TypedExpr { meta: expr.meta.copy(), kind, typ: final_typ })
            },
            _ => {
                proof {
                    assert(false);
                }
                Err(owned(""))
            },
        }
    }

    /// Infers the type of an index expression; `typ` is the fresh variable of the expression.
    fn typecheck_index(&mut self, expr: &ast::Expr, typ: Type) -> (r: Result<typed_ast::TypedExpr, String>)
        requires
            expr.kind is Index,
            typ@ is Var,
        ensures
            progressed(*old(self), *final(self)),
            r matches Ok(te) ==> expr_mirrors(*expr, te) && te.typ@ == apply_type(final(self).substitution@, typ@)
                && same_meta(expr.meta, te.meta),
            index_rule(*old(self), typ@->Var_0, *expr, *final(self), r),
        decreases expr, 0nat,
    {
        let ghost c1 = *self;
        match &expr.kind {
            ast::ExprKind::Index { value, index } => {
                let rx = self.typecheck_expr(value);
                assert(infers(c1, *expr.kind->Index_value, *self, rx));
                assert(reached(*self, rx));
                let typed_value = rx?;
                let ghost c2 = *self;
                let ry = self.typecheck_expr(index);
                assert(infers(c2, *expr.kind->Index_index, *self, ry));
                assert(reached(*self, ry));
                let typed_index = ry?;
                let ghost c3 = *self;
                let index_typ = con("i32");
                let u1 = self.unify(&typed_index.typ, &index_typ);
                assert(unifies(c3, typed_index.typ@, con_v("i32"@), *self, u1));
                assert(reached(*self, u1));
                u1?;
                let ghost c4 = *self;
                let elem_typ = match &typed_value.typ {
                    Type::Array { elem, .. } => copy_type(elem),
                    _ => self.fresh_var(),
                };
                assert(index_target(c4, typed_value.typ@) == (elem_typ@, *self));
                let ghost c5 = *self;
                let u = self.unify(&typ, &elem_typ);
                assert(unifies(c5, typ@, elem_typ@, *self, u));
                assert(reached(*self, u));
                u?;
                let kind = typed_ast::TypedExprKind::Index { value: Box::new(typed_value), index: Box::new(typed_index) };
                let final_typ = self.substitution.apply(&typ);
                Ok(typed_ast::TypedExpr { meta: expr.meta.copy(), kind, typ: final_typ })
            },
            _ => {
                proof {
                    assert(false);
                }
                Err(owned(""))
            },
        }
    }

    /// Infers the type of a `for` loop; `typ` is the fresh variable of the expression.
    fn typecheck_for(&mut self, expr: &ast::Expr, typ: Type) -> (r: Result<typed_ast::TypedExpr, String>)
        requires
            expr.kind is For,
            typ@ is Var,
        ensures
            progressed(*old(self), *final(self)),
            r matches Ok(te) ==> expr_mirrors(*expr, te) && te.typ@ == apply_type(final(self).substitution@, typ@)
                && same_meta(expr.meta, te.meta),
            for_rule(*old(self), typ@->Var_0, *expr, *final(self), r),
        decreases expr, 0nat,
    {
        let ghost c1 = *self;
        match &expr.kind {
            ast::ExprKind::For { iterator, iterable, body } => {
                let rx = self.typecheck_expr(iterable);
                assert(infers(c1, *expr.kind->For_iterable, *self, rx));
                assert(reached(*self, rx));
                let typed_iterable = rx?;
                let ghost c2 = *self;
                let elem_typ = self.fresh_var();
                self.env.insert(iterator.clone(), elem_typ);
                let ghost c3 = *self;
                assert(iterator_bound(c2, iterator@, c3));
                assert(passed(c3));
                let ry = self.typecheck_exprs(body);
                assert(infers_list(c3, expr.kind->For_body@, *self, seq_result(ry)));
                assert(reached(*self, seq_result(ry)));
                let typed_body = ry?;
                let ghost c4 = *self;
                let for_typ = con("void");
                let u = self.unify(&typ, &for_typ);
                assert(unifies(c4, typ@, con_v("void"@), *self, u));
                assert(reached(*self, u));
                u?;
                let kind = typed_ast::TypedExprKind::For {
                    iterator: iterator.clone(),
                    iterable: Box::new(typed_iterable),
                    body: typed_body,
                };
                let final_typ = self.substitution.apply(&typ);
                Ok(typed_ast::TypedExpr { meta: expr.meta.copy(), kind, typ: final_typ })
            },
            _ => {
                proof {
                    assert(false);
                }
                Err(owned(""))
            },
        }
    }

    /// Infers the type of a block; `typ` is the fresh variable of the expression.
    fn typecheck_block(&mut self, expr: &ast::Expr, typ: Type) -> (r: Result<typed_ast::TypedExpr, String>)
        requires
            expr.kind is Block,
            typ@ is Var,
        ensures
            progressed(*old(self), *final(self)),
            r matches Ok(te) ==> expr_mirrors(*expr, te) && te.typ@ == apply_type(final(self).substitution@, typ@)
                && same_meta(expr.meta, te.meta),
            block_rule(*old(self), typ@->Var_0, *expr, *final(self), r),
        decreases expr, 0nat,
    {
        let ghost c1 = *self;
        match &expr.kind {
            ast::ExprKind::Block { expressions } => {
                let old_bindings = self.shadowed_lets(expressions);
                let ry = self.typecheck_exprs(expressions);
                assert(infers_list(c1, expr.kind->Block_expressions@, *self, seq_result(ry)));
                assert(reached(*self, seq_result(ry)));
                let typed_expressions = ry?;
                let ghost c2 = *self;
                self.rebind(&old_bindings);
                let ghost c3 = *self;
                assert(rebound(c2, shadowed(expr.kind->Block_expressions@, c1.env@), c3));
                assert(passed(c3));
                let block_typ = if typed_expressions.len() > 0 {
                    copy_type(&typed_expressions[typed_expressions.len() - 1].typ)
                } else {
                    con("void")
                };
                let u = self.unify(&typ, &block_typ);
                assert(unifies(c3, typ@, block_type(typed_expressions@), *self, u));
                assert(reached(*self, u));
                u?;
                let kind = typed_ast::TypedExprKind::Block { expressions: typed_expressions };
                let final_typ = self.substitution.apply(&typ);
                Ok(typed_ast::TypedExpr { meta: expr.meta.copy(), kind, typ: final_typ })
            },
            _ => {
                proof {
                    assert(false);
                }
                Err(owned(""))
            },
        }
    }

    /// Infers the type of an enum literal; `typ` is the fresh variable of the expression.
    fn typecheck_enum_init(&mut self, expr: &ast::Expr, typ: Type) -> (r: Result<typed_ast::TypedExpr, String>)
        requires
            expr.kind is EnumInit,
            typ@ is Var,
        ensures
            progressed(*old(self), *final(self)),
            r matches Ok(te) ==> expr_mirrors(*expr, te) && te.typ@ == apply_type(final(self).substitution@, typ@)
                && same_meta(expr.meta, te.meta),
            enum_init_rule(*old(self), typ@->Var_0, *expr, *final(self), r),
        decreases expr, 0nat,
    {
        let ghost c1 = *self;
        match &expr.kind {
            ast::ExprKind::EnumInit { enum_name, variant_name, fields } => {
                let typed_fields = match fields {
                    ast::EnumInitFields::Tuple(values) => {
                        let ry = self.typecheck_exprs(values);
                        assert(infers_list(c1, values@, *self, seq_result(ry)));
                        assert(reached(*self, seq_result(ry)));
                        typed_ast::TypedEnumInitFields::Tuple(ry?)
                    },
                    ast::EnumInitFields::Struct(inits) => {
                        let ry = self.typecheck_init_fields(inits);
                        assert(infers_init_fields(c1, inits@, *self, seq_result(ry)));
                        assert(reached(*self, seq_result(ry)));
                        typed_ast::TypedEnumInitFields::Struct(ry?)
                    },
                };
                let ghost c2 = *self;
                let enum_args: Vec<Type> = Vec::new();
                assert(types_view(enum_args@) =~= Seq::<TypeV>::empty());
                let enum_typ = Type::Con { name: enum_name.clone(), args: enum_args };
                let u = self.unify(&typ, &enum_typ);
                assert(unifies(c2, typ@, TypeV::Con { name: enum_name@, args: Seq::empty() }, *self, u));
                assert(reached(*self, u));
                u?;
                let kind = typed_ast::TypedExprKind::EnumInit {
                    enum_name: enum_name.clone(),
                    variant_name: variant_name.clone(),
                    fields: typed_fields,
                };
                let final_typ = self.substitution.apply(&typ);
                Ok(typed_ast::TypedExpr { meta: expr.meta.copy(), kind, typ: final_typ })
            },
            _ => {
                proof {
                    assert(false);
                }
                Err(owned(""))
            },
        }
    }

    /// Infers the type of an expression: a fresh type variable, unified
    /// with what the form of the expression requires, and read back through
    /// the substitution at the end.
    #[verifier::rlimit(100)]
    #[verifier::spinoff_prover]
    pub fn typecheck_expr(&mut self, expr: &ast::Expr) -> (r: Result<typed_ast::TypedExpr, String>)
        ensures
            progressed(*old(self), *final(self)),
            r matches Ok(te) ==> expr_mirrors(*expr, te) && te.typ@ == apply_type(
                final(self).substitution@,
                TypeV::Var(old(self).next_var),
            ),
            (expr.kind matches ast::ExprKind::Variable(name) && !old(self).function_env@.contains_key(name@)
                && !old(self).env@.contains_key(name@)) ==> (r matches Err(m) && m@ == unbound_message()),
            !old(self).substitution@.contains_key(old(self).next_var) ==> match expr.kind {
                ast::ExprKind::Literal(l) => (r matches Ok(te) && te.typ@ == literal_type(l)),
                ast::ExprKind::Break => (r matches Ok(te) && te.typ@ == con_v("void"@)),
                ast::ExprKind::Continue => (r matches Ok(te) && te.typ@ == con_v("void"@)),
                ast::ExprKind::Variable(name) => (!old(self).function_env@.contains_key(name@)
                    && old(self).env@.contains_key(name@) && bindable(
                    old(self).next_var,
                    apply_type(old(self).substitution@, old(self).env@[name@]@),
                )) ==> (r matches Ok(te) && te.typ@ == apply_type(
                    old(self).substitution@,
                    old(self).env@[name@]@,
                )),
                _ => true,
            },
            expr_rule(*old(self), *expr, *final(self), r),
            r matches Ok(te) ==> same_meta(expr.meta, te.meta),
        decreases expr, 1nat,
    {
        let typ = self.fresh_var();
        assert(*self == bump(*old(self)));
        let ghost mut binop_done: Option<
            (TypeChecker, TypeChecker, TypeChecker, TypeChecker, TypeChecker, TypeChecker, typed_ast::TypedExpr, typed_ast::TypedExpr),
        > = None;
        let kind = match &expr.kind {
            ast::ExprKind::Literal(lit) => {
                let lit_typ = self.infer_literal(lit);
                proof {
                    if !self.substitution@.contains_key(old(self).next_var) {
                        lemma_bind_fresh(self.substitution@, old(self).next_var, lit_typ@);
                    }
                }
                let ghost c1 = *self;
                let u = self.unify(&typ, &lit_typ);
                assert(unifies(c1, TypeV::Var(old(self).next_var), literal_type(*lit), *self, u));
                assert(reached(*self, u));
                u?;
                typed_ast::TypedExprKind::Literal(convert_literal(lit))
            },
            ast::ExprKind::Variable(name) => {
                let ghost c1 = *self;
                let var_typ = match self.function_env.get(name.as_str()) {
                    Some(sig) => {
                        let sig = sig.copy();
                        let t = self.instantiate(&sig);
                        proof {
                            let orig = c1.function_env@[name@];
                            assert(names_view(sig.generic_params@) =~= names_view(orig.generic_params@));
                            assert(*self == after_instantiate(c1, orig));
                            assert(t@ == instantiated(orig, c1.next_var));
                        }
                        t
                    },
                    None => match self.env.get(name.as_str()) {
                        Some(t) => copy_type(t),
                        None => {
                            return Err(owned("unbound variable"));
                        },
                    },
                };
                proof {
                    if !self.substitution@.contains_key(old(self).next_var) {
                        lemma_bind_fresh(self.substitution@, old(self).next_var, var_typ@);
                    }
                }
                let ghost c2 = *self;
                let u = self.unify(&typ, &var_typ);
                assert(unifies(c2, TypeV::Var(old(self).next_var), var_typ@, *self, u));
                assert(reached(*self, u));
                u?;
                typed_ast::TypedExprKind::Variable(name.clone())
            },
            ast::ExprKind::Array(elements) => {
                let ghost c1 = *self;
                let rx = self.typecheck_array(elements);
                let ghost xr = array_result(rx);
                assert(infers_array(c1, expr.kind->Array_0@, *self, xr));
                assert(reached(*self, xr));
                let (typed_elements, elem_type) = rx?;
                let ghost c2 = *self;
                let ghost et = opt_type_view(elem_type);
                let elem_typ = match elem_type {
                    Some(t) => t,
                    None => self.fresh_var(),
                };
                assert(array_elem_type(c2, et) == (elem_typ@, *self));
                let ghost c3 = *self;
                let array_typ = Type::Array { elem: Box::new(elem_typ), size: None };
                let u = self.unify(&typ, &array_typ);
                assert(unifies(c3, TypeV::Var(old(self).next_var), array_typ@, *self, u));
                assert(reached(*self, u));
                u?;
                typed_ast::TypedExprKind::Array(typed_elements)
            },
            ast::ExprKind::Tuple(elements) => {
                let ghost c1 = *self;
                let rx = self.typecheck_exprs(elements);
                assert(list_children(*expr) == elements@);
                assert(reached(*self, seq_result(rx)));
                let typed_elements = rx?;
                let ghost c2 = *self;
                let elem_types = types_of(&typed_elements);
                proof {
                    lemma_types_view(elem_types@);
                    assert(types_view(elem_types@) =~= typs_of(typed_elements@));
                }
                let tuple_typ = Type::Tuple(elem_types);
                let u = self.unify(&typ, &tuple_typ);
                assert(unifies(c2, TypeV::Var(old(self).next_var), TypeV::Tuple(typs_of(typed_elements@)), *self, u));
                assert(reached(*self, u));
                u?;
                typed_ast::TypedExprKind::Tuple(typed_elements)
            },
            ast::ExprKind::Row(fields) => {
                let ghost c1 = *self;
                let rx = self.typecheck_row(fields);
                assert(infers_row(c1, expr.kind->Row_0@, *self, first_seq_result(rx)));
                assert(reached(*self, first_seq_result(rx)));
                let (typed_fields, field_types) = rx?;
                let ghost c2 = *self;
                proof {
                    crate::typed_ast::lemma_fields_view(field_types@);
                    assert(fields_view(field_types@) =~= bindings_view(field_types@));
                }
                let row_typ = Type::Row(field_types);
                let u = self.unify(&typ, &row_typ);
                assert(unifies(c2, TypeV::Var(old(self).next_var), TypeV::Row(named_field_types(typed_fields@)), *self, u));
                assert(reached(*self, u));
                u?;
                typed_ast::TypedExprKind::Row(typed_fields)
            },
            ast::ExprKind::Let { .. } => {
                return self.typecheck_let(expr, typ);
            },
            ast::ExprKind::Assign { target, value } => {
                let ghost c1 = *self;
                assert(two_children(*expr) == (**target, **value));
                let rx = self.typecheck_expr(target);
                assert(infers(c1, two_children(*expr).0, *self, rx));
                assert(reached(*self, rx));
                let typed_target = rx?;
                let ghost c2 = *self;
                let ry = self.typecheck_expr(value);
                assert(infers(c2, two_children(*expr).1, *self, ry));
                assert(reached(*self, ry));
                let typed_value = ry?;
                let ghost c3 = *self;
                let u1 = self.unify(&typed_target.typ, &typed_value.typ);
                assert(unifies(c3, typed_target.typ@, typed_value.typ@, *self, u1));
                assert(reached(*self, u1));
                u1?;
                let ghost c4 = *self;
                let assign_typ = con("void");
                let u = self.unify(&typ, &assign_typ);
                assert(unifies(c4, TypeV::Var(old(self).next_var), two_children_type(*expr, typed_target.typ@), *self, u));
                assert(reached(*self, u));
                u?;
                typed_ast::TypedExprKind::Assign {
                    target: Box::new(typed_target),
                    value: Box::new(typed_value),
                }
            },
            ast::ExprKind::UnaryOp { operator, operand } => {
                let ghost c1 = *self;
                assert(only_child(*expr) == **operand);
                let rx = self.typecheck_expr(operand);
                assert(infers(c1, only_child(*expr), *self, rx));
                assert(reached(*self, rx));
                let typed_operand = rx?;
                let ghost c2 = *self;
                let op_typ = copy_type(&typed_operand.typ);
                let u = self.unify(&typ, &op_typ);
                assert(unifies(c2, TypeV::Var(old(self).next_var), typed_operand.typ@, *self, u));
                assert(reached(*self, u));
                u?;
                typed_ast::TypedExprKind::UnaryOp {
                    operator: operator.clone(),
                    operand: Box::new(typed_operand),
                }
            },
            ast::ExprKind::Cast(..) => {
                return self.typecheck_cast(expr, typ);
            },
            ast::ExprKind::EarlyReturn(inner) => {
                let ghost c1 = *self;
                assert(only_child(*expr) == **inner);
                let rx = self.typecheck_expr(inner);
                assert(infers(c1, only_child(*expr), *self, rx));
                assert(reached(*self, rx));
                let typed_expr = rx?;
                typed_ast::TypedExprKind::EarlyReturn(Box::new(typed_expr))
            },
            ast::ExprKind::DotAccess { .. } => {
                return self.typecheck_dot(expr, typ);
            },
            ast::ExprKind::Index { .. } => {
                return self.typecheck_index(expr, typ);
            },
            ast::ExprKind::BinaryOp { left, operator, right } => {
                let ghost c1 = *self;
                let rl = self.typecheck_expr(left);
                let ghost c2 = *self;
                assert(infers(c1, **left, c2, rl));
                assert(*expr.kind->BinaryOp_left == **left);
                assert(infers(c1, *expr.kind->BinaryOp_left, c2, rl));
                let left_typ = match rl {
                    Ok(t) => t,
                    Err(m) => {
                        assert(reached(c2, rl));
                        return Err(m);
                    },
                };
                let rr = self.typecheck_expr(right);
                let ghost c3 = *self;
                assert(infers(c2, **right, c3, rr));
                assert(infers(c2, *expr.kind->BinaryOp_right, c3, rr));
                let right_typ = match rr {
                    Ok(t) => t,
                    Err(m) => {
                        assert(reached(c2, Ok::<typed_ast::TypedExpr, String>(left_typ)));
                        assert(reached(c3, rr));
                        return Err(m);
                    },
                };
                let op_typ = self.fresh_var();
                let ghost c4 = *self;
                assert(c4 == bump(c3));
                assert(reached(c2, Ok::<typed_ast::TypedExpr, String>(left_typ)));
                assert(reached(c3, Ok::<typed_ast::TypedExpr, String>(right_typ)));
                let u1 = self.unify(&left_typ.typ, &op_typ);
                let ghost c5 = *self;
                assert(unifies(c4, left_typ.typ@, TypeV::Var(c3.next_var), c5, u1));
                if let Err(m) = u1 {
                    assert(binop_unify(c4, c3.next_var, old(self).next_var, operator@, left_typ, right_typ, *self, Err(m)));
                    assert(binop_rule(c1, old(self).next_var, *expr, *self, Err(m)));
                    return Err(m);
                }
                let u2 = self.unify(&right_typ.typ, &op_typ);
                let ghost c6 = *self;
                assert(unifies(c5, right_typ.typ@, TypeV::Var(c3.next_var), c6, u2));
                if let Err(m) = u2 {
                    assert(binop_unify(c4, c3.next_var, old(self).next_var, operator@, left_typ, right_typ, *self, Err(m)));
                    assert(binop_rule(c1, old(self).next_var, *expr, *self, Err(m)));
                    return Err(m);
                }
                let u3 = if is_comparison(operator.as_str()) {
                    let bool_typ = con("bool");
                    self.unify(&typ, &bool_typ)
                } else {
                    self.unify(&typ, &op_typ)
                };
                assert(unifies(c6, TypeV::Var(old(self).next_var), binop_type(operator@, c3.next_var), *self, u3));
                if let Err(m) = u3 {
                    assert(binop_unify(c4, c3.next_var, old(self).next_var, operator@, left_typ, right_typ, *self, Err(m)));
                    assert(binop_rule(c1, old(self).next_var, *expr, *self, Err(m)));
                    return Err(m);
                }
                let ghost tl = left_typ;
                let ghost tr = right_typ;
                let k = typed_ast::TypedExprKind::BinaryOp {
                    left: Box::new(left_typ),
                    operator: operator.clone(),
                    right: Box::new(right_typ),
                };
                proof {
                    binop_done = Some((c1, c2, c3, c4, c5, c6, tl, tr));
                }
                k
            },
            ast::ExprKind::FunctionCall { .. } => {
                return self.typecheck_call(expr, typ);
            },
            ast::ExprKind::If { .. } => {
                return self.typecheck_if(expr, typ);
            },
            ast::ExprKind::While { condition, body } => {
                let ghost c1 = *self;
                let rx = self.typecheck_expr(condition);
                assert(infers(c1, *expr.kind->While_condition, *self, rx));
                assert(reached(*self, rx));
                let typed_condition = rx?;
                let ghost c2 = *self;
                let bool_typ = con("bool");
                let u1 = self.unify(&typed_condition.typ, &bool_typ);
                assert(unifies(c2, typed_condition.typ@, con_v("bool"@), *self, u1));
                assert(reached(*self, u1));
                u1?;
                let ghost c3 = *self;
                let ry = self.typecheck_exprs(body);
                assert(infers_list(c3, expr.kind->While_body@, *self, seq_result(ry)));
                assert(reached(*self, seq_result(ry)));
                let typed_body = ry?;
                let ghost c4 = *self;
                let while_typ = con("void");
                let u = self.unify(&typ, &while_typ);
                assert(unifies(c4, TypeV::Var(old(self).next_var), con_v("void"@), *self, u));
                assert(reached(*self, u));
                u?;
                typed_ast::TypedExprKind::While { condition: Box::new(typed_condition), body: typed_body }
            },
            ast::ExprKind::For { .. } => {
                return self.typecheck_for(expr, typ);
            },
            ast::ExprKind::Range { start, end, inclusive } => {
                let ghost c1 = *self;
                assert(two_children(*expr) == (**start, **end));
                let rx = self.typecheck_expr(start);
                assert(infers(c1, two_children(*expr).0, *self, rx));
                assert(reached(*self, rx));
                let typed_start = rx?;
                let ghost c2 = *self;
                let ry = self.typecheck_expr(end);
                assert(infers(c2, two_children(*expr).1, *self, ry));
                assert(reached(*self, ry));
                let typed_end = ry?;
                let ghost c3 = *self;
                let u1 = self.unify(&typed_start.typ, &typed_end.typ);
                assert(unifies(c3, typed_start.typ@, typed_end.typ@, *self, u1));
                assert(reached(*self, u1));
                u1?;
                let ghost c4 = *self;
                let range_args = vec![copy_type(&typed_start.typ)];
                proof {
                    lemma_types_view(range_args@);
                    assert(types_view(range_args@) =~= seq![typed_start.typ@]);
                    reveal_strlit("Range");
                }
                let range_typ = Type::Con { name: owned("Range"), args: range_args };
                let u = self.unify(&typ, &range_typ);
                assert(unifies(c4, TypeV::Var(old(self).next_var), two_children_type(*expr, typed_start.typ@), *self, u));
                assert(reached(*self, u));
                u?;
                typed_ast::TypedExprKind::Range {
                    start: Box::new(typed_start),
                    end: Box::new(typed_end),
                    inclusive: *inclusive,
                }
            },
            ast::ExprKind::Break => {
                let break_typ = con("void");
                proof {
                    if !self.substitution@.contains_key(old(self).next_var) {
                        lemma_bind_fresh(self.substitution@, old(self).next_var, break_typ@);
                    }
                }
                let ghost c1 = *self;
                let u = self.unify(&typ, &break_typ);
                assert(unifies(c1, TypeV::Var(old(self).next_var), con_v("void"@), *self, u));
                assert(reached(*self, u));
                u?;
                typed_ast::TypedExprKind::Break
            },
            ast::ExprKind::Continue => {
                let continue_typ = con("void");
                proof {
                    if !self.substitution@.contains_key(old(self).next_var) {
                        lemma_bind_fresh(self.substitution@, old(self).next_var, continue_typ@);
                    }
                }
                let ghost c1 = *self;
                let u = self.unify(&typ, &continue_typ);
                assert(unifies(c1, TypeV::Var(old(self).next_var), con_v("void"@), *self, u));
                assert(reached(*self, u));
                u?;
                typed_ast::TypedExprKind::Continue
            },
            ast::ExprKind::Return(value) => {
                let ghost c1 = *self;
                let typed_expr = match value {
                    Some(e) => {
                        assert(only_child(*expr) == **e);
                        let rx = self.typecheck_expr(e);
                        assert(infers(c1, only_child(*expr), *self, rx));
                        assert(reached(*self, rx));
                        Some(Box::new(rx?))
                    },
                    None => None,
                };
                let ghost c2 = *self;
                let return_typ = match &typed_expr {
                    Some(e) => copy_type(&e.typ),
                    None => con("void"),
                };
                let u = self.unify(&typ, &return_typ);
                assert(unifies(c2, TypeV::Var(old(self).next_var), return_typ@, *self, u));
                assert(reached(*self, u));
                u?;
                typed_ast::TypedExprKind::Return(typed_expr)
            },
            ast::ExprKind::Block { .. } => {
                return self.typecheck_block(expr, typ);
            },
            ast::ExprKind::Do(expressions) => {
                let ghost c1 = *self;
                let rx = self.typecheck_exprs(expressions);
                assert(list_children(*expr) == expressions@);
                assert(reached(*self, seq_result(rx)));
                let typed_expressions = rx?;
                let ghost c2 = *self;
                let do_typ = con("void");
                let u = self.unify(&typ, &do_typ);
                assert(unifies(c2, TypeV::Var(old(self).next_var), con_v("void"@), *self, u));
                assert(reached(*self, u));
                u?;
                typed_ast::TypedExprKind::Do(typed_expressions)
            },
            ast::ExprKind::Lambda { .. } => {
                return self.typecheck_lambda(expr, typ);
            },
            ast::ExprKind::Match { .. } => {
                return self.typecheck_match(expr, typ);
            },
            ast::ExprKind::StructInit { name, fields } => {
                let ghost c1 = *self;
                let rx = self.typecheck_init_fields(fields);
                assert(infers_init_fields(c1, expr.kind->StructInit_fields@, *self, seq_result(rx)));
                assert(reached(*self, seq_result(rx)));
                let typed_fields = rx?;
                let ghost c2 = *self;
                let struct_args: Vec<Type> = Vec::new();
                assert(types_view(struct_args@) =~= Seq::<TypeV>::empty());
                let struct_typ = Type::Con { name: name.clone(), args: struct_args };
                let u = self.unify(&typ, &struct_typ);
                assert(unifies(
                    c2,
                    TypeV::Var(old(self).next_var),
                    TypeV::Con { name: name@, args: Seq::empty() },
                    *self,
                    u,
                ));
                assert(reached(*self, u));
                u?;
                typed_ast::TypedExprKind::StructInit { name: name.clone(), fields: typed_fields }
            },
            ast::ExprKind::EnumInit { .. } => {
                return self.typecheck_enum_init(expr, typ);
            },
        };
        let final_typ = self.substitution.apply(&typ);
        let result = typed_ast::TypedExpr { meta: expr.meta.copy(), kind, typ: final_typ };
        proof {
            if let Some((c1, c2, c3, c4, c5, c6, tl, tr)) = binop_done {
                let op = expr.kind->BinaryOp_operator@;
                assert(unifies(c6, TypeV::Var(old(self).next_var), binop_type(op, c3.next_var), *self, Ok(())));
                assert(binop_unify(c4, c3.next_var, old(self).next_var, op, tl, tr, *self, Ok(result)));
                assert(binop_rule(c1, old(self).next_var, *expr, *self, Ok(result)));
            }
        }
        Ok(result)
    }
}

/// Once a prefix of `fs` fails, inferring the whole of `fs` fails with the
/// same error in the same state.
pub proof fn lemma_infers_init_fields_err(b: TypeChecker, fs: Seq<ast::StructInitField>, k: int, a: TypeChecker, m: String)
    requires
        0 <= k <= fs.len(),
        infers_init_fields(b, fs.subrange(0, k), a, Err(m)),
    ensures
        infers_init_fields(b, fs, a, Err(m)),
    decreases fs.len(),
{
    if k < fs.len() {
        assert(fs.drop_last().subrange(0, k) =~= fs.subrange(0, k));
        lemma_infers_init_fields_err(b, fs.drop_last(), k, a, m);
        assert(reached(a, Err::<Seq<typed_ast::TypedStructInitField>, String>(m)));
    } else {
        assert(fs.subrange(0, k) =~= fs);
    }
}

/// Once a prefix of `arms` fails, checking all of them fails with the same
/// error in the same state.
pub proof fn lemma_infers_arms_err(b: TypeChecker, arms: Seq<ast::MatchArm>, k: int, a: TypeChecker, m: String)
    requires
        0 <= k <= arms.len(),
        infers_arms(b, arms.subrange(0, k), a, Err(m)),
    ensures
        infers_arms(b, arms, a, Err(m)),
    decreases arms.len(),
{
    if k < arms.len() {
        assert(arms.drop_last().subrange(0, k) =~= arms.subrange(0, k));
        lemma_infers_arms_err(b, arms.drop_last(), k, a, m);
        assert(reached(a, Err::<Seq<typed_ast::TypedMatchArm>, String>(m)));
    } else {
        assert(arms.subrange(0, k) =~= arms);
    }
}

/// Once a prefix of `els` fails, inferring all of them fails with the same
/// error in the same state.
pub proof fn lemma_infers_array_err(b: TypeChecker, els: Seq<ast::ArrayElement>, k: int, a: TypeChecker, m: String)
    requires
        0 <= k <= els.len(),
        infers_array(b, els.subrange(0, k), a, Err(m)),
    ensures
        infers_array(b, els, a, Err(m)),
    decreases els.len(),
{
    if k < els.len() {
        assert(els.drop_last().subrange(0, k) =~= els.subrange(0, k));
        lemma_infers_array_err(b, els.drop_last(), k, a, m);
        assert(reached(a, Err::<(Seq<typed_ast::TypedArrayElement>, Option<TypeV>), String>(m)));
    } else {
        assert(els.subrange(0, k) =~= els);
    }
}

/// Once a prefix of `fs` fails, inferring all of them fails with the same
/// error in the same state.
pub proof fn lemma_infers_row_err(b: TypeChecker, fs: Seq<ast::RowField>, k: int, a: TypeChecker, m: String)
    requires
        0 <= k <= fs.len(),
        infers_row(b, fs.subrange(0, k), a, Err(m)),
    ensures
        infers_row(b, fs, a, Err(m)),
    decreases fs.len(),
{
    if k < fs.len() {
        assert(fs.drop_last().subrange(0, k) =~= fs.subrange(0, k));
        lemma_infers_row_err(b, fs.drop_last(), k, a, m);
        assert(reached(a, Err::<Seq<typed_ast::TypedRowField>, String>(m)));
    } else {
        assert(fs.subrange(0, k) =~= fs);
    }
}

/// Once a prefix of `es` fails, inferring the whole of `es` fails with the
/// same error in the same state.
pub proof fn lemma_infers_list_err(b: TypeChecker, es: Seq<ast::Expr>, k: int, a: TypeChecker, m: String)
    requires
        0 <= k <= es.len(),
        infers_list(b, es.subrange(0, k), a, Err(m)),
    ensures
        infers_list(b, es, a, Err(m)),
    decreases es.len(),
{
    if k < es.len() {
        assert(es.drop_last().subrange(0, k) =~= es.subrange(0, k));
        lemma_infers_list_err(b, es.drop_last(), k, a, m);
        assert(reached(a, Err::<Seq<typed_ast::TypedExpr>, String>(m)));
    } else {
        assert(es.subrange(0, k) =~= es);
    }
}

/// Once a prefix of `ts` fails to unify with `t`, the whole of `ts` fails
/// with the same message and substitution.
pub proof fn lemma_unify_all_stops(s: Map<usize, TypeV>, t: TypeV, ts: Seq<TypeV>, k: int)
    requires
        0 <= k <= ts.len(),
        unify_all(s, t, ts.subrange(0, k)).1 is Err,
    ensures
        unify_all(s, t, ts) == unify_all(s, t, ts.subrange(0, k)),
    decreases ts.len(),
{
    if k < ts.len() {
        assert(ts.drop_last().subrange(0, k) =~= ts.subrange(0, k));
        lemma_unify_all_stops(s, t, ts.drop_last(), k);
    } else {
        assert(ts.subrange(0, k) =~= ts);
    }
}

/// Copies of the types of typed expressions, in order.
pub fn types_of(es: &Vec<typed_ast::TypedExpr>) -> (r: Vec<Type>)
    ensures
        r@.len() == es@.len(),
        forall|i: int| 0 <= i < es@.len() ==> (#[trigger] r@[i])@ == es@[i].typ@,
{
    let mut out: Vec<Type> = Vec::new();
    let mut i: usize = 0;
    while i < es.len()
        invariant
            i <= es@.len(),
            out@.len() == i,
            forall|k: int| 0 <= k < i ==> (#[trigger] out@[k])@ == es@[k].typ@,
        decreases es.len() - i,
    {
        out.push(copy_type(&es[i].typ));
        i = i + 1;
    }
    out
}

/// A binary operation whose operator is a comparison, that is characters
/// that lex as one `<`, `<=`, `>`, `>=`, `==` or `!=` token, has the type
/// `bool`; one whose operator lexes as one `+`, `-`, `*`, `/` or `|>`
/// token has the type its operands were unified with.
pub proof fn law_comparisons_have_type_bool(op: Seq<char>, t: TokenType, v: usize)
    requires
        lexes_as(op, t),
    ensures
        (t is Less || t is LessEq || t is Greater || t is GreaterEq || t is Equal || t is NotEq) ==> binop_type(op, v)
            == con_v("bool"@),
        (t is Plus || t is Minus || t is Mul || t is Div || t is Pipeline) ==> binop_type(op, v) == TypeV::Var(v),
{
    reveal_strlit("==");
    reveal_strlit("!=");
    reveal_strlit("<");
    reveal_strlit("<=");
    reveal_strlit(">");
    reveal_strlit(">=");
    let c = op[0];
    if t is Less || t is Greater || t is Plus || t is Minus || t is Mul || t is Div {
        assert(op.len() == 1);
    }
    if t is Pipeline {
        assert(op.len() == 2);
        assert(c == '|');
    }
    if t is LessEq || t is GreaterEq || t is Equal || t is NotEq {
        assert(op.len() == 2);
        assert(op[1] == '=');
    }
    if t is Less {
        assert(op =~= "<"@);
    } else if t is LessEq {
        assert(op =~= "<="@);
    } else if t is Greater {
        assert(op =~= ">"@);
    } else if t is GreaterEq {
        assert(op =~= ">="@);
    } else if t is Equal {
        assert(op =~= "=="@);
    } else if t is NotEq {
        assert(op =~= "!="@);
    } else if t is Plus || t is Minus || t is Mul || t is Div {
        assert(c == '+' || c == '-' || c == '*' || c == '/');
        assert(!comparison_operator(op));
    }
}

/// Whether an operator compares its operands (and gives a `bool`).
pub open spec fn comparison_operator(op: Seq<char>) -> bool {
    op == ">"@ || op == "<"@ || op == ">="@ || op == "<="@ || op == "=="@ || op == "!="@
}

/// Whether an operator compares its operands (and gives a `bool`).
pub fn is_comparison(op: &str) -> (r: bool)
    ensures
        r == comparison_operator(op@),
{
    str_eq(op, ">") || str_eq(op, "<") || str_eq(op, ">=") || str_eq(op, "<=") || str_eq(op, "==")
        || str_eq(op, "!=")
}

} // verus!
