//! Type inference: every declaration and expression gets a type variable,
//! the rules of the language become unifications, and trait constraints on
//! generic parameters are checked against the impls at the end.
use vstd::prelude::*;
use crate::ast;
use crate::meta::same_meta;
use crate::text::{owned, push_str};
use crate::typechecker::apply::{node_applied, node_keeps};
use crate::typechecker::mirror::{node_mirrors, nodes_mirror};
use crate::typechecker::expr::{counted, env_types, fresh_mapping, seq_result, lemma_runs_err, lemma_runs_ok, lemma_steps_push, lemma_steps_start, runs, steps_hold};
use crate::typechecker::node::{checks_node, declared_generics, node_step, trait_not_found_message};
use crate::typechecker::solve::constraints_run;
use crate::typechecker::names::NameMap;
use crate::typechecker::substitution::{apply_type, unify_outcome, unify_run, Substitution};
use crate::typed_ast::{copy_type, types_view, Type, TypeV, TypeVar, TypedAstNode, TypedProgram};

pub mod apply;
pub mod convert;
pub mod expr;
pub mod mirror;
pub mod names;
pub mod node;
pub mod render;
pub mod solve;
pub mod substitution;

verus! {

/// A condition that the types of a program must meet.
#[derive(Debug, Clone)]
pub enum Constraint {
    /// The two types are equal.
    Eq(Type, Type),
    /// The types implement the named trait.
    Class(String, Vec<Type>),
}

/// The type of a declared function and the names of its generic parameters.
pub struct FunctionSignature {
    pub generic_params: Vec<String>,
    pub typ: Type,
}

/// A copy of a list of names.
pub fn copy_names(names: &Vec<String>) -> (r: Vec<String>)
    ensures
        r@.len() == names@.len(),
        forall|i: int| 0 <= i < names@.len() ==> (#[trigger] r@[i])@ == names@[i]@,
{
    let mut out: Vec<String> = Vec::new();
    let mut i: usize = 0;
    while i < names.len()
        invariant
            i <= names@.len(),
            out@.len() == i,
            forall|k: int| 0 <= k < i ==> (#[trigger] out@[k])@ == names@[k]@,
        decreases names.len() - i,
    {
        out.push(names[i].clone());
        i = i + 1;
    }
    out
}

impl FunctionSignature {
    /// A copy of the signature.
    pub fn copy(&self) -> (r: FunctionSignature)
        ensures
            r.typ@ == self.typ@,
            r.generic_params@.len() == self.generic_params@.len(),
            forall|i: int|
                0 <= i < self.generic_params@.len() ==> (#[trigger] r.generic_params@[i])@
                    == self.generic_params@[i]@,
    {
        FunctionSignature { generic_params: copy_names(&self.generic_params), typ: copy_type(&self.typ) }
    }
}

/// The type checker: a counter for fresh type variables, the substitution
/// found so far, the pending trait constraints, and what the declarations
/// seen so far bind.
pub struct TypeChecker {
    pub next_var: usize,
    pub constraints: Vec<Constraint>,
    pub substitution: Substitution,
    pub env: NameMap<Type>,
    pub struct_env: NameMap<Vec<(String, Type)>>,
    pub enum_env: NameMap<Vec<String>>,
    pub trait_env: NameMap<NameMap<Type>>,
    pub impl_env: NameMap<NameMap<NameMap<Type>>>,
    pub generic_mapping: NameMap<Type>,
    pub function_env: NameMap<FunctionSignature>,
    pub current_impl_type: Option<Type>,
}

/// The two checkers agree on their declarations: the tables of structs,
/// enums, traits, impls and functions, the pending constraints, the
/// generic parameters in scope and the type of the impl being checked.
pub open spec fn same_decls(a: TypeChecker, b: TypeChecker) -> bool {
    &&& a.constraints == b.constraints
    &&& a.generic_mapping == b.generic_mapping
    &&& a.current_impl_type == b.current_impl_type
    &&& a.trait_env == b.trait_env
    &&& a.impl_env == b.impl_env
    &&& a.struct_env == b.struct_env
    &&& a.enum_env == b.enum_env
    &&& a.function_env == b.function_env
}

/// From `a` to `b` the checker kept its declarations and only extended its
/// substitution.
pub open spec fn progressed(a: TypeChecker, b: TypeChecker) -> bool {
    &&& same_decls(a, b)
    &&& a.substitution@.dom().subset_of(b.substitution@.dom())
}

/// The two checkers differ at most in their counter of type variables.
pub open spec fn same_but_counter(a: TypeChecker, b: TypeChecker) -> bool {
    &&& same_decls(a, b)
    &&& a.env == b.env
    &&& a.substitution == b.substitution
}

/// The type constructor `name` without arguments.
pub open spec fn con_v(name: Seq<char>) -> TypeV {
    TypeV::Con { name, args: Seq::empty() }
}

/// The type constructor `name` without arguments.
pub fn con(name: &str) -> (r: Type)
    ensures
        r@ == con_v(name@),
{
    let args: Vec<Type> = Vec::new();
    assert(types_view(args@) =~= Seq::<TypeV>::empty());
    Type::Con { name: owned(name), args }
}

/// The type of a literal.
pub open spec fn literal_type(lit: ast::Literal) -> TypeV {
    match lit {
        ast::Literal::Integer(_) => con_v("i32"@),
        ast::Literal::Float(_) => con_v("f32"@),
        ast::Literal::String(_) => con_v("String"@),
        ast::Literal::Boolean(_) => con_v("bool"@),
    }
}

/// The number that follows `n` when fresh variables are counted: the
/// counter wraps around at the largest `usize`.
pub open spec fn after(n: usize) -> usize {
    if n == usize::MAX {
        0
    } else {
        (n + 1) as usize
    }
}

/// The name of the first constraint among `cs` that names a type
/// constructor which is not a trait of `traits`.
pub open spec fn undefined_constraint(cs: Seq<ast::TypeAnnotation>, traits: Set<Seq<char>>) -> Option<
    Seq<char>,
>
    decreases cs.len(),
{
    if cs.len() == 0 {
        None
    } else {
        match undefined_constraint(cs.drop_last(), traits) {
            Some(n) => Some(n),
            None => match cs.last().kind {
                ast::TypeAnnotationKind::Constructor { name, .. } => if traits.contains(name@) {
                    None
                } else {
                    Some(name@)
                },
                _ => None,
            },
        }
    }
}

/// The name of the first constraint of the generic parameters `gps` that
/// names a type constructor which is not a trait of `traits`.
pub open spec fn undefined_generic_constraint(gps: Seq<ast::GenericParam>, traits: Set<Seq<char>>) -> Option<
    Seq<char>,
>
    decreases gps.len(),
{
    if gps.len() == 0 {
        None
    } else {
        match undefined_generic_constraint(gps.drop_last(), traits) {
            Some(n) => Some(n),
            None => undefined_constraint(gps.last().constraints@, traits),
        }
    }
}

/// The message for a constraint that names no trait.
pub open spec fn undefined_trait_message(name: Seq<char>) -> Seq<char> {
    "trait '"@ + name + "' not defined"@
}

/// A constraint as values.
pub enum ConstraintV {
    /// The two types are equal.
    Eq(TypeV, TypeV),
    /// The types implement the named trait.
    Class(Seq<char>, Seq<TypeV>),
}

/// A constraint as values.
pub open spec fn constraint_view(c: Constraint) -> ConstraintV {
    match c {
        Constraint::Eq(a, b) => ConstraintV::Eq(a@, b@),
        Constraint::Class(t, ts) => ConstraintV::Class(t@, types_view(ts@)),
    }
}

/// A list of constraints as values.
pub open spec fn constraints_view(cs: Seq<Constraint>) -> Seq<ConstraintV> {
    cs.map_values(|c: Constraint| constraint_view(c))
}

/// The generic parameters `gps`, each bound to the next type variable
/// counted from `n`; a name given twice keeps the later one.
pub open spec fn generic_vars(gps: Seq<ast::GenericParam>, n: usize) -> Map<Seq<char>, TypeV>
    decreases gps.len(),
{
    if gps.len() == 0 {
        Map::empty()
    } else {
        generic_vars(gps.drop_last(), n).insert(gps.last().name@, TypeV::Var(counted(n, (gps.len() - 1) as nat)))
    }
}

/// A class constraint on `v` for each bound among `cs` that names a type
/// constructor, in order.
pub open spec fn bound_classes(cs: Seq<ast::TypeAnnotation>, v: TypeV) -> Seq<ConstraintV>
    decreases cs.len(),
{
    if cs.len() == 0 {
        Seq::empty()
    } else {
        match cs.last().kind {
            ast::TypeAnnotationKind::Constructor { name, .. } => bound_classes(cs.drop_last(), v).push(
                ConstraintV::Class(name@, seq![v]),
            ),
            _ => bound_classes(cs.drop_last(), v),
        }
    }
}

/// The class constraints that the bounds of the generic parameters `gps`
/// record, the parameters getting the type variables counted from `n`.
pub open spec fn generic_classes(gps: Seq<ast::GenericParam>, n: usize) -> Seq<ConstraintV>
    decreases gps.len(),
{
    if gps.len() == 0 {
        Seq::empty()
    } else {
        generic_classes(gps.drop_last(), n) + bound_classes(
            gps.last().constraints@,
            TypeV::Var(counted(n, (gps.len() - 1) as nat)),
        )
    }
}

/// The names of the generic parameters `gps`, in order.
pub open spec fn generic_names(gps: Seq<ast::GenericParam>) -> Seq<Seq<char>> {
    gps.map_values(|g: ast::GenericParam| g.name@)
}

/// The class constraints on `v` that the bounds `cs` record when they are
/// read in order: reading stops at the first bound that names a type
/// constructor which is no trait of `traits`, and that bound records
/// nothing.
pub open spec fn bounds_run(cs: Seq<ast::TypeAnnotation>, traits: Set<Seq<char>>, v: TypeV) -> Seq<ConstraintV>
    decreases cs.len(),
{
    if cs.len() == 0 {
        Seq::empty()
    } else if undefined_constraint(cs.drop_last(), traits) is Some {
        bounds_run(cs.drop_last(), traits, v)
    } else {
        match cs.last().kind {
            ast::TypeAnnotationKind::Constructor { name, .. } => if traits.contains(name@) {
                bounds_run(cs.drop_last(), traits, v).push(ConstraintV::Class(name@, seq![v]))
            } else {
                bounds_run(cs.drop_last(), traits, v)
            },
            _ => bounds_run(cs.drop_last(), traits, v),
        }
    }
}

/// The counter and the class constraints recorded after the generic
/// parameters `gps` were entered from the counter `n`: each parameter takes
/// the next fresh variable and records its bounds (see `bounds_run`), and
/// entering stops at the first bound that names no trait of `traits`.
pub open spec fn generics_run(gps: Seq<ast::GenericParam>, traits: Set<Seq<char>>, n: usize) -> (usize, Seq<ConstraintV>)
    decreases gps.len(),
{
    if gps.len() == 0 {
        (n, Seq::empty())
    } else {
        let init = generics_run(gps.drop_last(), traits, n);
        if undefined_generic_constraint(gps.drop_last(), traits) is Some {
            init
        } else {
            (after(init.0), init.1 + bounds_run(gps.last().constraints@, traits, TypeV::Var(init.0)))
        }
    }
}

/// What checking the declarations of `program` in order from the state
/// `before`, then solving the pending constraints, gives: the error of
/// the first declaration that fails, or the error of the first constraint
/// that fails, or the typed declarations with the final substitution
/// applied to them.
pub open spec fn program_checked(
    before: TypeChecker,
    program: Seq<ast::AstNode>,
    r: Result<Seq<TypedAstNode>, String>,
) -> bool {
    match r {
        Err(e) => (exists|c: TypeChecker| #[trigger] runs(node_step(), before, program, c, Err(e))) || exists|
            c: TypeChecker,
            ts: Seq<TypedAstNode>,
        |
            #[trigger] runs(node_step(), before, program, c, Ok(ts)) && constraints_run(
                c.substitution@,
                c.impl_env@,
                c.trait_env@,
                c.constraints@,
                0,
            ).1 == Err::<(), Seq<char>>(e@),
        Ok(tp) => exists|c: TypeChecker, ts: Seq<TypedAstNode>|
            #[trigger] runs(node_step(), before, program, c, Ok(ts)) && constraints_run(
                c.substitution@,
                c.impl_env@,
                c.trait_env@,
                c.constraints@,
                0,
            ).1 is Ok && tp.len() == ts.len() && forall|k: int|
                0 <= k < ts.len() ==> node_applied(
                    constraints_run(c.substitution@, c.impl_env@, c.trait_env@, c.constraints@, 0).0,
                    ts[k],
                    #[trigger] tp[k],
                ),
    }
}

impl TypeChecker {
    /// A checker that has seen no declaration.
    pub open spec fn is_fresh(&self) -> bool {
        &&& self.next_var == 0
        &&& self.constraints@.len() == 0
        &&& self.substitution@ == Map::<usize, TypeV>::empty()
        &&& self.env@ == Map::<Seq<char>, Type>::empty()
        &&& self.struct_env@ == Map::<Seq<char>, Vec<(String, Type)>>::empty()
        &&& self.enum_env@ == Map::<Seq<char>, Vec<String>>::empty()
        &&& self.trait_env@ == Map::<Seq<char>, NameMap<Type>>::empty()
        &&& self.impl_env@ == Map::<Seq<char>, NameMap<NameMap<Type>>>::empty()
        &&& self.generic_mapping@ == Map::<Seq<char>, Type>::empty()
        &&& self.function_env@ == Map::<Seq<char>, FunctionSignature>::empty()
        &&& self.current_impl_type is None
    }

    /// What a checker that has seen no declaration holds: a counter at 0,
    /// no constraint, an empty substitution and empty tables, and no impl
    /// being checked.
    pub proof fn lemma_fresh(&self)
        requires
            self.is_fresh(),
        ensures
            self.next_var == 0,
            self.constraints@.len() == 0,
            self.substitution@ == Map::<usize, TypeV>::empty(),
            self.env@ == Map::<Seq<char>, Type>::empty(),
            self.struct_env@ == Map::<Seq<char>, Vec<(String, Type)>>::empty(),
            self.enum_env@ == Map::<Seq<char>, Vec<String>>::empty(),
            self.trait_env@ == Map::<Seq<char>, NameMap<Type>>::empty(),
            self.impl_env@ == Map::<Seq<char>, NameMap<NameMap<Type>>>::empty(),
            self.generic_mapping@ == Map::<Seq<char>, Type>::empty(),
            self.function_env@ == Map::<Seq<char>, FunctionSignature>::empty(),
            self.current_impl_type is None,
    {
    }

    /// A checker that has seen no declaration.
    pub fn new() -> (r: Self)
        ensures
            r.is_fresh(),
    {
        TypeChecker {
            next_var: 0,
            constraints: Vec::new(),
            substitution: Substitution::new(),
            env: NameMap::new(),
            struct_env: NameMap::new(),
            enum_env: NameMap::new(),
            trait_env: NameMap::new(),
            impl_env: NameMap::new(),
            generic_mapping: NameMap::new(),
            function_env: NameMap::new(),
            current_impl_type: None,
        }
    }

    /// Checks a program: each declaration in order, then the pending trait
    /// constraints; the types of the result are read through the final
    /// substitution.
    pub fn typecheck(self, program: ast::Program) -> (r: Result<TypedProgram, String>)
        ensures
            r matches Ok(tp) ==> nodes_mirror(program@, tp@),
            r matches Ok(tp) ==> forall|k: int|
                0 <= k < program@.len() ==> same_meta(program@[k].meta, (#[trigger] tp@[k]).meta),
            program_checked(self, program@, seq_result(r)),
            self.is_fresh() && program@.len() == 0 ==> (r matches Ok(tp) && tp@.len() == 0),
            self.is_fresh() && program@.len() > 0 ==> (program@[0].kind matches ast::AstNodeKind::Impl {
                trait_name: Some(t),
                ..
            } ==> (r matches Err(e) && e@ == trait_not_found_message(t@))),
            self.is_fresh() && program@.len() > 0 ==> (declared_generics(program@[0].kind) matches Some(gps)
                ==> (undefined_generic_constraint(gps, Set::empty()) matches Some(n) ==> (r matches Err(e)
                && e@ == undefined_trait_message(n)))),
    {
        let ghost fresh = self.is_fresh();
        let ghost first_fails = self.is_fresh() && program@.len() > 0 && ((program@[0].kind matches ast::AstNodeKind::Impl {
            trait_name: Some(t),
            ..
        }) || (declared_generics(program@[0].kind) matches Some(gps) && undefined_generic_constraint(
            gps,
            Set::empty(),
        ) is Some));
        let mut checker = self;
        let mut typed_program: Vec<TypedAstNode> = Vec::new();
        let mut i: usize = 0;
        let ghost mut cs: Seq<TypeChecker> = seq![checker];
        proof {
            lemma_steps_start(node_step(), checker, program@);
        }
        while i < program.len()
            invariant
                i <= program@.len(),
                typed_program@.len() == i,
                forall|k: int| 0 <= k < i ==> node_mirrors(program@[k], #[trigger] typed_program@[k]),
                forall|k: int| 0 <= k < i ==> same_meta(program@[k].meta, (#[trigger] typed_program@[k]).meta),
                i == 0 ==> checker == self,
                i > 0 ==> !first_fails,
                first_fails == (fresh && program@.len() > 0 && ((program@[0].kind matches ast::AstNodeKind::Impl {
                    trait_name: Some(t),
                    ..
                }) || (declared_generics(program@[0].kind) matches Some(gps) && undefined_generic_constraint(
                    gps,
                    Set::empty(),
                ) is Some))),
                fresh == self.is_fresh(),
                steps_hold(node_step(), cs, program@, typed_program@),
                cs[0] == self,
                cs.last() == checker,
            decreases program.len() - i,
        {
            proof {
                if i == 0 && self.is_fresh() {
                    assert(checker.trait_env@.dom() =~= Set::<Seq<char>>::empty());
                }
            }
            let ghost pre = checker;
            let res = checker.typecheck_node(&program[i]);
            assert(checks_node(pre, program@[i as int], checker, res));
            let typed_node = match res {
                Ok(t) => t,
                Err(e) => {
                    proof {
                        lemma_runs_err(node_step(), cs, program@, typed_program@, checker, e);
                        assert(runs(node_step(), self, program@, checker, Err(e)));
                    }
                    return Err(e);
                },
            };
            let ghost prev = typed_program@;
            typed_program.push(typed_node);
            proof {
                assert(typed_program@.drop_last() =~= prev);
                lemma_steps_push(node_step(), cs, program@, prev, checker, typed_program@.last());
                assert(prev.push(typed_program@.last()) =~= typed_program@);
                cs = cs.push(checker);
            }
            i = i + 1;
        }
        proof {
            lemma_runs_ok(node_step(), cs, program@, typed_program@);
            if fresh && program@.len() == 0 {
                self.lemma_fresh();
            }
        }
        let ghost end = checker;
        match checker.solve_constraints() {
            Ok(()) => {},
            Err(e) => {
                proof {
                    assert(runs(node_step(), self, program@, end, Ok(typed_program@)));
                }
                return Err(e);
            },
        }
        let result = checker.apply_substitution_to_program(typed_program);
        proof {
            assert forall|k: int| 0 <= k < program@.len() implies node_mirrors(program@[k], #[trigger] result@[k]) by {
                assert(node_mirrors(program@[k], typed_program@[k]));
                assert(node_keeps(typed_program@[k], result@[k]));
            }
            assert forall|k: int| 0 <= k < program@.len() implies same_meta(program@[k].meta, (#[trigger] result@[k]).meta) by {
                assert(same_meta(program@[k].meta, typed_program@[k].meta));
            }
            assert(runs(node_step(), self, program@, end, Ok(typed_program@)));
        }
        Ok(result)
    }

    /// A type variable that has not been handed out before (until the
    /// counter wraps around).
    pub fn fresh_var(&mut self) -> (r: Type)
        ensures
            r@ == TypeV::Var(old(self).next_var),
            r == Type::Var(TypeVar(old(self).next_var)),
            final(self).next_var == after(old(self).next_var),
            final(self).substitution == old(self).substitution,
            final(self).env == old(self).env,
            final(self).generic_mapping == old(self).generic_mapping,
            final(self).constraints == old(self).constraints,
            final(self).current_impl_type == old(self).current_impl_type,
            final(self).trait_env == old(self).trait_env,
            final(self).impl_env == old(self).impl_env,
            final(self).struct_env == old(self).struct_env,
            final(self).enum_env == old(self).enum_env,
            final(self).function_env == old(self).function_env,
    {
        let v = self.next_var;
        self.next_var = v.wrapping_add(1);
        Type::Var(TypeVar(v))
    }

    /// Unifies two types in the checker's substitution; a failure is an
    /// error of the program being checked.
    pub fn unify(&mut self, t1: &Type, t2: &Type) -> (r: Result<(), String>)
        ensures
            old(self).substitution@.dom().subset_of(final(self).substitution@.dom()),
            final(self).next_var == old(self).next_var,
            final(self).env == old(self).env,
            final(self).generic_mapping == old(self).generic_mapping,
            final(self).constraints == old(self).constraints,
            final(self).current_impl_type == old(self).current_impl_type,
            final(self).trait_env == old(self).trait_env,
            final(self).impl_env == old(self).impl_env,
            final(self).struct_env == old(self).struct_env,
            final(self).enum_env == old(self).enum_env,
            final(self).function_env == old(self).function_env,
            match unify_outcome(
                apply_type(old(self).substitution@, t1@),
                apply_type(old(self).substitution@, t2@),
            ) {
                Some(Ok(None)) => r is Ok && final(self).substitution@ == old(self).substitution@,
                Some(Ok(Some((v, t)))) => r is Ok && final(self).substitution@ == old(
                    self,
                ).substitution@.insert(v, t),
                Some(Err(m)) => (r matches Err(e) && e@ == "unification error: "@ + m
                    && final(self).substitution@ == old(self).substitution@),
                None => true,
            },
            final(self).substitution@ == unify_run(
                old(self).substitution@,
                t1@,
                t2@,
                u64::MAX as nat,
            ).0,
            match unify_run(old(self).substitution@, t1@, t2@, u64::MAX as nat).1 {
                Ok(()) => r is Ok,
                Err(m) => (r matches Err(e) && e@ == "unification error: "@ + m),
            },
    {
        match self.substitution.unify(t1, t2) {
            Ok(()) => Ok(()),
            Err(e) => {
                let mut message = owned("unification error: ");
                push_str(&mut message, e.as_str());
                Err(message)
            },
        }
    }

    /// Checks that a constraint names a trait that has been declared.
    pub fn validate_constraint(&self, trait_name: &str) -> (r: Result<(), String>)
        ensures
            self.trait_env@.contains_key(trait_name@) ==> r is Ok,
            !self.trait_env@.contains_key(trait_name@) ==> (r matches Err(e) && e@
                == undefined_trait_message(trait_name@)),
    {
        if !self.trait_env.contains_key(trait_name) {
            let mut message = owned("trait '");
            push_str(&mut message, trait_name);
            push_str(&mut message, "' not defined");
            Err(message)
        } else {
            Ok(())
        }
    }

    /// Gives each generic parameter a fresh type variable and records a
    /// class constraint for each of its trait bounds. At the first bound
    /// that names no trait it stops with an error; the variables taken and
    /// the constraints recorded until then stay (see `generics_run`).
    pub fn process_generic_params(&mut self, generic_params: &Vec<ast::GenericParam>) -> (r: Result<
        NameMap<Type>,
        String,
    >)
        ensures
            match undefined_generic_constraint(generic_params@, old(self).trait_env@.dom()) {
                Some(n) => (r matches Err(e) && e@ == undefined_trait_message(n)),
                None => r is Ok,
            },
            r matches Ok(m) ==> forall|k: Seq<char>|
                #[trigger] m@.contains_key(k) <==> exists|i: int|
                    0 <= i < generic_params@.len() && (#[trigger] generic_params@[i]).name@ == k,
            r matches Ok(m) ==> env_types(m@) == generic_vars(generic_params@, old(self).next_var),
            r is Ok ==> final(self).next_var == counted(old(self).next_var, generic_params@.len()),
            r is Ok ==> constraints_view(final(self).constraints@) == constraints_view(old(self).constraints@)
                + generic_classes(generic_params@, old(self).next_var),
            r matches Ok(m) ==> m@ == fresh_mapping(generic_names(generic_params@), old(self).next_var),
            final(self).next_var == generics_run(generic_params@, old(self).trait_env@.dom(), old(self).next_var).0,
            constraints_view(final(self).constraints@) == constraints_view(old(self).constraints@) + generics_run(
                generic_params@,
                old(self).trait_env@.dom(),
                old(self).next_var,
            ).1,
            final(self).substitution == old(self).substitution,
            final(self).env == old(self).env,
            final(self).generic_mapping == old(self).generic_mapping,
            final(self).current_impl_type == old(self).current_impl_type,
            final(self).trait_env == old(self).trait_env,
            final(self).impl_env == old(self).impl_env,
            final(self).struct_env == old(self).struct_env,
            final(self).enum_env == old(self).enum_env,
            final(self).function_env == old(self).function_env,
    {
        let mut generic_map: NameMap<Type> = NameMap::new();
        let ghost traits = old(self).trait_env@.dom();
        let mut i: usize = 0;
        while i < generic_params.len()
            invariant
                i <= generic_params@.len(),
                traits == self.trait_env@.dom(),
                undefined_generic_constraint(generic_params@.subrange(0, i as int), traits) is None,
                forall|k: Seq<char>|
                    #[trigger] generic_map@.contains_key(k) <==> exists|j: int|
                        0 <= j < i && (#[trigger] generic_params@[j]).name@ == k,
                env_types(generic_map@) == generic_vars(generic_params@.subrange(0, i as int), old(self).next_var),
                generic_map@ == fresh_mapping(generic_names(generic_params@.subrange(0, i as int)), old(self).next_var),
                self.next_var == counted(old(self).next_var, i as nat),
                constraints_view(self.constraints@) == constraints_view(old(self).constraints@) + generic_classes(
                    generic_params@.subrange(0, i as int),
                    old(self).next_var,
                ),
                self.substitution == old(self).substitution,
                self.env == old(self).env,
                self.generic_mapping == old(self).generic_mapping,
                self.current_impl_type == old(self).current_impl_type,
                self.trait_env == old(self).trait_env,
                self.impl_env == old(self).impl_env,
                self.struct_env == old(self).struct_env,
                self.enum_env == old(self).enum_env,
                self.function_env == old(self).function_env,
            decreases generic_params.len() - i,
        {
            let gp = &generic_params[i];
            let ghost before_map = generic_map@;
            let ghost base = constraints_view(self.constraints@);
            let tv = self.fresh_var();
            proof {
                assert(bound_classes(gp.constraints@.subrange(0, 0), tv@) =~= Seq::<ConstraintV>::empty());
                assert(base + bound_classes(gp.constraints@.subrange(0, 0), tv@) =~= base);
            }
            let mut j: usize = 0;
            while j < gp.constraints.len()
                invariant
                    i < generic_params@.len(),
                    gp == generic_params@[i as int],
                    j <= gp.constraints@.len(),
                    traits == self.trait_env@.dom(),
                    undefined_generic_constraint(generic_params@.subrange(0, i as int), traits) is None,
                    undefined_constraint(gp.constraints@.subrange(0, j as int), traits) is None,
                    tv@ == TypeV::Var(counted(old(self).next_var, i as nat)),
                    tv == Type::Var(TypeVar(counted(old(self).next_var, i as nat))),
                    base == constraints_view(old(self).constraints@) + generic_classes(
                        generic_params@.subrange(0, i as int),
                        old(self).next_var,
                    ),
                    self.next_var == counted(old(self).next_var, (i + 1) as nat),
                    constraints_view(self.constraints@) == base + bound_classes(gp.constraints@.subrange(0, j as int), tv@),
                    self.substitution == old(self).substitution,
                    self.env == old(self).env,
                    self.generic_mapping == old(self).generic_mapping,
                    self.current_impl_type == old(self).current_impl_type,
                    self.trait_env == old(self).trait_env,
                    self.impl_env == old(self).impl_env,
                    self.struct_env == old(self).struct_env,
                    self.enum_env == old(self).enum_env,
                    self.function_env == old(self).function_env,
                decreases gp.constraints.len() - j,
            {
                let ghost cs = gp.constraints@.subrange(0, j as int + 1);
                assert(cs.drop_last() =~= gp.constraints@.subrange(0, j as int));
                assert(cs.last() == gp.constraints@[j as int]);
                match &gp.constraints[j].kind {
                    ast::TypeAnnotationKind::Constructor { name, .. } => {
                        match self.validate_constraint(name.as_str()) {
                            Ok(()) => {},
                            Err(e) => {
                                proof {
                                    let n = old(self).next_var;
                                    let pre = generic_params@.subrange(0, i as int);
                                    let ps = generic_params@.subrange(0, i as int + 1);
                                    let bs = gp.constraints@.subrange(0, j as int + 1);
                                    assert(ps.drop_last() =~= pre);
                                    lemma_undefined_constraint_prefix(gp.constraints@, j as int + 1, traits);
                                    lemma_undefined_generic_prefix(generic_params@, i as int + 1, traits);
                                    lemma_generics_run_defined(pre, traits, n);
                                    lemma_bounds_run_defined(gp.constraints@.subrange(0, j as int), traits, tv@);
                                    lemma_bounds_run_prefix(gp.constraints@, j as int + 1, traits, tv@);
                                    assert(bounds_run(bs, traits, tv@) == bounds_run(bs.drop_last(), traits, tv@));
                                    lemma_generics_run_prefix(generic_params@, i as int + 1, traits, n);
                                    assert(generics_run(ps, traits, n) == (
                                        after(counted(n, i as nat)),
                                        generic_classes(pre, n) + bounds_run(gp.constraints@, traits, tv@),
                                    ));
                                    assert(constraints_view(self.constraints@) =~= constraints_view(old(self).constraints@)
                                        + generics_run(generic_params@, traits, n).1);
                                }
                                return Err(e);
                            },
                        }
                        let ghost before_cs = self.constraints@;
                        let c = copy_type(&tv);
                        let ghost cv = c@;
                        let args = vec![c];
                        proof {
                            crate::typed_ast::lemma_types_view(args@);
                            assert(types_view(args@) =~= seq![cv]);
                        }
                        self.constraints.push(Constraint::Class(name.clone(), args));
                        proof {
                            assert(constraints_view(self.constraints@) =~= constraints_view(before_cs).push(
                                ConstraintV::Class(name@, seq![tv@]),
                            ));
                        }
                    },
                    _ => {},
                }
                j = j + 1;
            }
            let ghost tvv = tv;
            generic_map.insert(gp.name.clone(), tv);
            proof {
                let ps = generic_params@.subrange(0, i as int + 1);
                assert(ps.drop_last() =~= generic_params@.subrange(0, i as int));
                assert(ps.last() == gp);
                assert(env_types(generic_map@) =~= env_types(before_map).insert(gp.name@, tvv@));
                assert(generic_names(ps).drop_last() =~= generic_names(generic_params@.subrange(0, i as int)));
                assert(generic_map@ =~= fresh_mapping(generic_names(ps), old(self).next_var));
            }
            proof {
                assert(gp.constraints@.subrange(0, j as int) =~= gp.constraints@);
                let ps = generic_params@.subrange(0, i as int + 1);
                assert(ps.drop_last() =~= generic_params@.subrange(0, i as int));
                assert(ps.last() == gp);
                assert(constraints_view(self.constraints@) =~= constraints_view(old(self).constraints@)
                    + generic_classes(ps, old(self).next_var));
            }
            i = i + 1;
        }
        assert(generic_params@.subrange(0, i as int) =~= generic_params@);
        proof {
            lemma_generics_run_defined(generic_params@, traits, old(self).next_var);
        }
        Ok(generic_map)
    }

    /// `process_generic_params` for the generic parameters of a method.
    pub fn process_method_generic_params(&mut self, generic_params: &Vec<ast::GenericParam>) -> (r:
        Result<NameMap<Type>, String>)
        ensures
            match undefined_generic_constraint(generic_params@, old(self).trait_env@.dom()) {
                Some(n) => (r matches Err(e) && e@ == undefined_trait_message(n)),
                None => r is Ok,
            },
            r matches Ok(m) ==> forall|k: Seq<char>|
                #[trigger] m@.contains_key(k) <==> exists|i: int|
                    0 <= i < generic_params@.len() && (#[trigger] generic_params@[i]).name@ == k,
            r matches Ok(m) ==> env_types(m@) == generic_vars(generic_params@, old(self).next_var),
            r is Ok ==> final(self).next_var == counted(old(self).next_var, generic_params@.len()),
            r is Ok ==> constraints_view(final(self).constraints@) == constraints_view(old(self).constraints@)
                + generic_classes(generic_params@, old(self).next_var),
            r matches Ok(m) ==> m@ == fresh_mapping(generic_names(generic_params@), old(self).next_var),
            final(self).next_var == generics_run(generic_params@, old(self).trait_env@.dom(), old(self).next_var).0,
            constraints_view(final(self).constraints@) == constraints_view(old(self).constraints@) + generics_run(
                generic_params@,
                old(self).trait_env@.dom(),
                old(self).next_var,
            ).1,
            final(self).substitution == old(self).substitution,
            final(self).env == old(self).env,
            final(self).generic_mapping == old(self).generic_mapping,
            final(self).current_impl_type == old(self).current_impl_type,
            final(self).trait_env == old(self).trait_env,
            final(self).impl_env == old(self).impl_env,
            final(self).struct_env == old(self).struct_env,
            final(self).enum_env == old(self).enum_env,
            final(self).function_env == old(self).function_env,
    {
        self.process_generic_params(generic_params)
    }

    /// The type of a literal.
    pub fn infer_literal(&mut self, lit: &ast::Literal) -> (r: Type)
        ensures
            r@ == literal_type(*lit),
            *final(self) == *old(self),
    {
        match lit {
            ast::Literal::Integer(_) => con("i32"),
            ast::Literal::Float(_) => con("f32"),
            ast::Literal::String(_) => con("String"),
            ast::Literal::Boolean(_) => con("bool"),
        }
    }
}

/// Once the prefix of length `k` of `cs` names an undefined trait, so does
/// the whole sequence, and the same one.
pub proof fn lemma_undefined_constraint_prefix(cs: Seq<ast::TypeAnnotation>, k: int, traits: Set<Seq<char>>)
    requires
        0 <= k <= cs.len(),
        undefined_constraint(cs.subrange(0, k), traits) is Some,
    ensures
        undefined_constraint(cs, traits) == undefined_constraint(cs.subrange(0, k), traits),
    decreases cs.len(),
{
    if k < cs.len() {
        assert(cs.drop_last().subrange(0, k) =~= cs.subrange(0, k));
        lemma_undefined_constraint_prefix(cs.drop_last(), k, traits);
    } else {
        assert(cs.subrange(0, k) =~= cs);
    }
}

/// Once the prefix of length `k` of `gps` names an undefined trait, so does
/// the whole sequence, and the same one.
pub proof fn lemma_undefined_generic_prefix(gps: Seq<ast::GenericParam>, k: int, traits: Set<Seq<char>>)
    requires
        0 <= k <= gps.len(),
        undefined_generic_constraint(gps.subrange(0, k), traits) is Some,
    ensures
        undefined_generic_constraint(gps, traits) == undefined_generic_constraint(gps.subrange(0, k), traits),
    decreases gps.len(),
{
    if k < gps.len() {
        assert(gps.drop_last().subrange(0, k) =~= gps.subrange(0, k));
        lemma_undefined_generic_prefix(gps.drop_last(), k, traits);
    } else {
        assert(gps.subrange(0, k) =~= gps);
    }
}

/// Bounds that all name traits record a class constraint each.
pub proof fn lemma_bounds_run_defined(cs: Seq<ast::TypeAnnotation>, traits: Set<Seq<char>>, v: TypeV)
    requires
        undefined_constraint(cs, traits) is None,
    ensures
        bounds_run(cs, traits, v) == bound_classes(cs, v),
    decreases cs.len(),
{
    if cs.len() > 0 {
        lemma_bounds_run_defined(cs.drop_last(), traits, v);
    }
}

/// Generic parameters whose bounds all name traits are entered in full.
pub proof fn lemma_generics_run_defined(gps: Seq<ast::GenericParam>, traits: Set<Seq<char>>, n: usize)
    requires
        undefined_generic_constraint(gps, traits) is None,
    ensures
        generics_run(gps, traits, n) == (counted(n, gps.len()), generic_classes(gps, n)),
    decreases gps.len(),
{
    if gps.len() > 0 {
        lemma_generics_run_defined(gps.drop_last(), traits, n);
        lemma_bounds_run_defined(
            gps.last().constraints@,
            traits,
            TypeV::Var(counted(n, (gps.len() - 1) as nat)),
        );
    }
}

/// Reading bounds stops at the first that names no trait.
pub proof fn lemma_bounds_run_prefix(cs: Seq<ast::TypeAnnotation>, k: int, traits: Set<Seq<char>>, v: TypeV)
    requires
        0 <= k <= cs.len(),
        undefined_constraint(cs.subrange(0, k), traits) is Some,
    ensures
        bounds_run(cs, traits, v) == bounds_run(cs.subrange(0, k), traits, v),
    decreases cs.len(),
{
    if k < cs.len() {
        assert(cs.drop_last().subrange(0, k) =~= cs.subrange(0, k));
        lemma_bounds_run_prefix(cs.drop_last(), k, traits, v);
        lemma_undefined_constraint_prefix(cs.drop_last(), k, traits);
    } else {
        assert(cs.subrange(0, k) =~= cs);
    }
}

/// Entering generic parameters stops at the first bound that names no
/// trait.
pub proof fn lemma_generics_run_prefix(gps: Seq<ast::GenericParam>, k: int, traits: Set<Seq<char>>, n: usize)
    requires
        0 <= k <= gps.len(),
        undefined_generic_constraint(gps.subrange(0, k), traits) is Some,
    ensures
        generics_run(gps, traits, n) == generics_run(gps.subrange(0, k), traits, n),
    decreases gps.len(),
{
    if k < gps.len() {
        assert(gps.drop_last().subrange(0, k) =~= gps.subrange(0, k));
        lemma_generics_run_prefix(gps.drop_last(), k, traits, n);
        lemma_undefined_generic_prefix(gps.drop_last(), k, traits);
    } else {
        assert(gps.subrange(0, k) =~= gps);
    }
}

} // verus!
