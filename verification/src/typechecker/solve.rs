//! Checking the pending constraints against the declared traits and impls.
use vstd::prelude::*;
use crate::text::{owned, push_str};
use crate::typechecker::names::{distinct_names, entries_as_map, lemma_entries_as_map, lemma_entries_as_map_value, NameMap};
use crate::typechecker::substitution::{agree, lemma_agree_applied, law_unify_sound, result_view, unify_run, Substitution};
use crate::typechecker::{Constraint, TypeChecker};
use crate::typed_ast::{lemma_types_view, type_view, types_view, Type, TypeV};

verus! {

/// The key of a type argument: the name of a type constructor, or `_`.
pub open spec fn type_arg_key(t: TypeV) -> Seq<char> {
    match t {
        TypeV::Con { name, .. } => name,
        _ => "_"@,
    }
}

/// The keys of type arguments, separated by commas.
pub open spec fn joined_arg_keys(ts: Seq<TypeV>) -> Seq<char>
    decreases ts.len(),
{
    if ts.len() == 0 {
        Seq::empty()
    } else if ts.len() == 1 {
        type_arg_key(ts[0])
    } else {
        joined_arg_keys(ts.drop_last()) + ","@ + type_arg_key(ts.last())
    }
}

/// The key of the type constructor `name` applied to `args`: `name`, or
/// `name<k1,k2,..>` with the keys of the arguments.
pub open spec fn con_key(name: Seq<char>, args: Seq<TypeV>) -> Seq<char> {
    if args.len() == 0 {
        name
    } else {
        name + "<"@ + joined_arg_keys(args) + ">"@
    }
}

/// The key of one type of a constraint on several types.
pub open spec fn member_key(t: TypeV) -> Seq<char> {
    match t {
        TypeV::Con { name, args } => con_key(name, args),
        _ => "_"@,
    }
}

/// The keys of the types of a constraint on several types, separated by
/// commas.
pub open spec fn joined_member_keys(ts: Seq<TypeV>) -> Seq<char>
    decreases ts.len(),
{
    if ts.len() == 0 {
        Seq::empty()
    } else if ts.len() == 1 {
        member_key(ts[0])
    } else {
        joined_member_keys(ts.drop_last()) + ","@ + member_key(ts.last())
    }
}

/// The key under which the impl that a class constraint asks for is
/// filed; there is none for a constraint on one type that is not a type
/// constructor.
pub open spec fn class_key(ts: Seq<TypeV>) -> Option<Seq<char>> {
    if ts.len() == 1 {
        match ts[0] {
            TypeV::Con { name, args } => Some(con_key(name, args)),
            _ => None,
        }
    } else {
        Some(joined_member_keys(ts))
    }
}

/// A class constraint of the trait `t` on the types `ts` is met: there are
/// impls of the trait, one of them is filed under the key of the types,
/// and where the trait is declared, that impl has each method of it.
pub open spec fn class_satisfied(
    t: Seq<char>,
    ts: Seq<TypeV>,
    impls: Map<Seq<char>, NameMap<NameMap<Type>>>,
    traits: Map<Seq<char>, NameMap<Type>>,
) -> bool {
    &&& impls.contains_key(t)
    &&& class_key(ts) matches Some(k)
    &&& impls[t]@.contains_key(k)
    &&& traits.contains_key(t) ==> forall|m: Seq<char>|
        #[trigger] traits[t]@.contains_key(m) ==> impls[t]@[k]@.contains_key(m)
}

/// Appends the key of a type argument.
fn push_arg_key(s: &mut String, t: &Type)
    ensures
        final(s)@ == old(s)@ + type_arg_key(t@),
{
    match t {
        Type::Con { name, .. } => push_str(s, name.as_str()),
        _ => {
            push_str(s, "_");
            proof {
                reveal_strlit("_");
            }
        },
    }
}

/// The key of the type constructor `name` applied to `args`.
fn con_key_of(name: &String, args: &Vec<Type>) -> (r: String)
    ensures
        r@ == con_key(name@, types_view(args@)),
{
    proof {
        lemma_types_view(args@);
    }
    if args.len() == 0 {
        return name.clone();
    }
    let ghost ts = types_view(args@);
    let mut joined = owned("");
    proof {
        reveal_strlit("");
        assert(joined_arg_keys(ts.subrange(0, 0)) =~= Seq::<char>::empty());
    }
    let mut i: usize = 0;
    while i < args.len()
        invariant
            i <= args@.len(),
            ts == types_view(args@),
            ts.len() == args@.len(),
            forall|k: int| 0 <= k < args@.len() ==> #[trigger] ts[k] == type_view(args@[k]),
            joined@ == joined_arg_keys(ts.subrange(0, i as int)),
        decreases args.len() - i,
    {
        let ghost prefix = ts.subrange(0, i as int + 1);
        assert(prefix.drop_last() =~= ts.subrange(0, i as int));
        if i > 0 {
            push_str(&mut joined, ",");
        }
        push_arg_key(&mut joined, &args[i]);
        proof {
            reveal_strlit(",");
            assert(prefix.last() == ts[i as int]);
            if i == 0 {
                assert(joined@ =~= type_arg_key(prefix[0]));
            } else {
                assert(joined@ =~= joined_arg_keys(prefix.drop_last()) + ","@ + type_arg_key(prefix.last()));
            }
        }
        i = i + 1;
    }
    assert(ts.subrange(0, i as int) =~= ts);
    let mut key = name.clone();
    push_str(&mut key, "<");
    push_str(&mut key, joined.as_str());
    push_str(&mut key, ">");
    key
}

/// Appends the key of one type of a constraint on several types.
fn push_member_key(s: &mut String, t: &Type)
    ensures
        final(s)@ == old(s)@ + member_key(t@),
{
    match t {
        Type::Con { name, args } => {
            let k = con_key_of(name, args);
            push_str(s, k.as_str());
        },
        _ => {
            push_str(s, "_");
            proof {
                reveal_strlit("_");
            }
        },
    }
}

/// The key of the impl that a class constraint on `types` asks for.
pub fn class_key_of(types: &Vec<Type>) -> (r: Option<String>)
    ensures
        match class_key(types_view(types@)) {
            Some(k) => r matches Some(s) && s@ == k,
            None => r is None,
        },
{
    proof {
        lemma_types_view(types@);
    }
    let ghost ts = types_view(types@);
    if types.len() == 1 {
        return match &types[0] {
            Type::Con { name, args } => Some(con_key_of(name, args)),
            _ => None,
        };
    }
    let mut joined = owned("");
    proof {
        reveal_strlit("");
        assert(joined_member_keys(ts.subrange(0, 0)) =~= Seq::<char>::empty());
    }
    let mut i: usize = 0;
    while i < types.len()
        invariant
            i <= types@.len(),
            ts == types_view(types@),
            ts.len() == types@.len(),
            forall|k: int| 0 <= k < types@.len() ==> #[trigger] ts[k] == type_view(types@[k]),
            joined@ == joined_member_keys(ts.subrange(0, i as int)),
        decreases types.len() - i,
    {
        let ghost prefix = ts.subrange(0, i as int + 1);
        assert(prefix.drop_last() =~= ts.subrange(0, i as int));
        if i > 0 {
            push_str(&mut joined, ",");
        }
        push_member_key(&mut joined, &types[i]);
        proof {
            reveal_strlit(",");
            assert(prefix.last() == ts[i as int]);
            if i == 0 {
                assert(joined@ =~= member_key(prefix[0]));
            } else {
                assert(joined@ =~= joined_member_keys(prefix.drop_last()) + ","@ + member_key(prefix.last()));
            }
        }
        i = i + 1;
    }
    assert(ts.subrange(0, i as int) =~= ts);
    Some(joined)
}

/// What checking the methods of an impl against its trait gives, from the
/// `i`-th method of the trait on, under the substitution `s`: each method
/// of the trait, in the order the trait lists them, must be in the impl,
/// and its type is unified with the impl's; the first failure stops it.
pub open spec fn methods_run(
    s: Map<usize, TypeV>,
    trait_methods: Seq<(String, Type)>,
    impl_methods: Map<Seq<char>, Type>,
    trait_name: Seq<char>,
    key: Seq<char>,
    i: int,
) -> (Map<usize, TypeV>, Result<(), Seq<char>>)
    decreases trait_methods.len() - i,
{
    if i < 0 || i >= trait_methods.len() {
        (s, Ok(()))
    } else {
        let name = trait_methods[i].0@;
        if !impl_methods.contains_key(name) {
            (s, Err("impl for trait "@ + trait_name + " for type "@ + key + " missing method "@ + name))
        } else {
            let (s1, r) = unify_run(s, trait_methods[i].1@, impl_methods[name]@, u64::MAX as nat);
            if r is Err {
                (s1, r)
            } else {
                methods_run(s1, trait_methods, impl_methods, trait_name, key, i + 1)
            }
        }
    }
}

/// What checking the class constraint of the trait `t` on the types `ts`
/// gives under the substitution `s`: the substitution after it, and `Ok`
/// or the message of the failure.
pub open spec fn class_run(
    s: Map<usize, TypeV>,
    impls: Map<Seq<char>, NameMap<NameMap<Type>>>,
    traits: Map<Seq<char>, NameMap<Type>>,
    t: Seq<char>,
    ts: Seq<TypeV>,
) -> (Map<usize, TypeV>, Result<(), Seq<char>>) {
    if !impls.contains_key(t) {
        (s, Err("trait "@ + t + " not defined"@))
    } else {
        match class_key(ts) {
            None => (s, Err("class constraint on non-con type"@)),
            Some(k) => if !impls[t]@.contains_key(k) {
                (s, Err("no impl for trait "@ + t + " for type "@ + k))
            } else if !traits.contains_key(t) {
                (s, Ok(()))
            } else {
                methods_run(s, traits[t].bindings(), impls[t]@[k]@, t, k, 0)
            },
        }
    }
}

/// The impl that a class constraint of the trait `t` on the types `ts`
/// asks for has, where the trait is declared, each method of the trait with
/// a type that agrees with the trait's type of it (see `agree`).
pub open spec fn impl_methods_agree(
    t: Seq<char>,
    ts: Seq<TypeV>,
    impls: Map<Seq<char>, NameMap<NameMap<Type>>>,
    traits: Map<Seq<char>, NameMap<Type>>,
) -> bool {
    traits.contains_key(t) ==> (class_key(ts) matches Some(k) && forall|m: Seq<char>|
        #[trigger] traits[t]@.contains_key(m) ==> impls[t]@[k]@.contains_key(m) && agree(
            traits[t]@[m]@,
            impls[t]@[k]@[m]@,
        ))
}

/// Checking the methods of an impl from the `i`-th method of the trait on
/// succeeds only when each of them is in the impl with a type that agrees
/// with the trait's.
pub proof fn lemma_methods_run_agree(
    s: Map<usize, TypeV>,
    trait_methods: Seq<(String, Type)>,
    impl_methods: Map<Seq<char>, Type>,
    trait_name: Seq<char>,
    key: Seq<char>,
    i: int,
)
    requires
        0 <= i,
        methods_run(s, trait_methods, impl_methods, trait_name, key, i).1 is Ok,
    ensures
        forall|j: int|
            i <= j < trait_methods.len() ==> impl_methods.contains_key((#[trigger] trait_methods[j]).0@) && agree(
                trait_methods[j].1@,
                impl_methods[trait_methods[j].0@]@,
            ),
    decreases trait_methods.len() - i,
{
    if i < trait_methods.len() {
        let name = trait_methods[i].0@;
        let (s1, r) = unify_run(s, trait_methods[i].1@, impl_methods[name]@, u64::MAX as nat);
        law_unify_sound(s, trait_methods[i].1@, impl_methods[name]@, u64::MAX as nat);
        lemma_agree_applied(s, trait_methods[i].1@, impl_methods[name]@);
        lemma_methods_run_agree(s1, trait_methods, impl_methods, trait_name, key, i + 1);
    }
}

/// A class constraint is met only by an impl that has every method of the
/// trait with a type that agrees with the trait's type of it: a method
/// whose type clashes with the trait's (say `String` against `i32`) is
/// refused, not merely checked for presence.
pub proof fn law_class_methods_agree(
    s: Map<usize, TypeV>,
    impls: Map<Seq<char>, NameMap<NameMap<Type>>>,
    traits: Map<Seq<char>, NameMap<Type>>,
    t: Seq<char>,
    ts: Seq<TypeV>,
)
    ensures
        class_run(s, impls, traits, t, ts).1 is Ok ==> impl_methods_agree(t, ts, impls, traits),
{
    if class_run(s, impls, traits, t, ts).1 is Ok && traits.contains_key(t) {
        let k = class_key(ts)->Some_0;
        let tm = traits[t].bindings();
        lemma_methods_run_agree(s, tm, impls[t]@[k]@, t, k, 0);
        traits[t].lemma_view_of_bindings();
        assert forall|m: Seq<char>| #[trigger] traits[t]@.contains_key(m) implies impls[t]@[k]@.contains_key(m)
            && agree(traits[t]@[m]@, impls[t]@[k]@[m]@) by {
            lemma_entries_as_map_value(tm, m);
            let j = choose|j: int| 0 <= j < tm.len() && (#[trigger] tm[j]).0@ == m && entries_as_map(tm)[m] == tm[j].1;
            assert(impls[t]@[k]@.contains_key(tm[j].0@));
        }
    }
}

/// Checks one class constraint: the impl filed under the key of the types
/// must exist and have every method of the trait, whose types are unified
/// with the trait's.
fn solve_class(
    substitution: &mut Substitution,
    impl_env: &NameMap<NameMap<NameMap<Type>>>,
    trait_env: &NameMap<NameMap<Type>>,
    trait_name: &String,
    types: &Vec<Type>,
) -> (r: Result<(), String>)
    ensures
        old(substitution)@.dom().subset_of(final(substitution)@.dom()),
        r is Ok ==> class_satisfied(trait_name@, types_view(types@), impl_env@, trait_env@),
        r is Ok ==> impl_methods_agree(trait_name@, types_view(types@), impl_env@, trait_env@),
        (final(substitution)@, result_view(r)) == class_run(
            old(substitution)@,
            impl_env@,
            trait_env@,
            trait_name@,
            types_view(types@),
        ),
{
    proof {
        law_class_methods_agree(substitution@, impl_env@, trait_env@, trait_name@, types_view(types@));
    }
    let type_map = match impl_env.get(trait_name.as_str()) {
        Some(m) => m,
        None => {
            let mut message = owned("trait ");
            push_str(&mut message, trait_name.as_str());
            push_str(&mut message, " not defined");
            return Err(message);
        },
    };
    let type_key = match class_key_of(types) {
        Some(k) => k,
        None => {
            return Err(owned("class constraint on non-con type"));
        },
    };
    let methods = match type_map.get(type_key.as_str()) {
        Some(m) => m,
        None => {
            let mut message = owned("no impl for trait ");
            push_str(&mut message, trait_name.as_str());
            push_str(&mut message, " for type ");
            push_str(&mut message, type_key.as_str());
            return Err(message);
        },
    };
    let trait_methods = match trait_env.get(trait_name.as_str()) {
        Some(t) => t,
        None => {
            return Ok(());
        },
    };
    let n = trait_methods.len();
    let mut i: usize = 0;
    while i < n
        invariant
            i <= n,
            n == trait_methods.bindings().len(),
            distinct_names(trait_methods.bindings()),
            trait_methods@ == entries_as_map(trait_methods.bindings()),
            old(substitution)@.dom().subset_of(substitution@.dom()),
            forall|j: int| 0 <= j < i ==> methods@.contains_key((#[trigger] trait_methods.bindings()[j]).0@),
            class_run(old(substitution)@, impl_env@, trait_env@, trait_name@, types_view(types@)) == methods_run(
                substitution@,
                trait_methods.bindings(),
                methods@,
                trait_name@,
                type_key@,
                i as int,
            ),
        decreases n - i,
    {
        let (method_name, trait_method_type) = trait_methods.binding(i);
        match methods.get(method_name.as_str()) {
            Some(impl_method_type) => {
                substitution.unify(trait_method_type, impl_method_type)?;
            },
            None => {
                let mut message = owned("impl for trait ");
                push_str(&mut message, trait_name.as_str());
                push_str(&mut message, " for type ");
                push_str(&mut message, type_key.as_str());
                push_str(&mut message, " missing method ");
                push_str(&mut message, method_name.as_str());
                return Err(message);
            },
        }
        i = i + 1;
    }
    proof {
        lemma_entries_as_map(trait_methods.bindings());
        assert forall|m: Seq<char>| #[trigger] trait_methods@.contains_key(m) implies methods@.contains_key(m) by {
            let j = choose|j: int|
                0 <= j < trait_methods.bindings().len() && (#[trigger] trait_methods.bindings()[j]).0@ == m;
            assert(methods@.contains_key(trait_methods.bindings()[j].0@));
        }
    }
    Ok(())
}

/// What checking the constraints `cs` from the `i`-th on gives under the
/// substitution `s`: an equation is unified, a class constraint is checked
/// with `class_run`; the first failure stops it.
pub open spec fn constraints_run(
    s: Map<usize, TypeV>,
    impls: Map<Seq<char>, NameMap<NameMap<Type>>>,
    traits: Map<Seq<char>, NameMap<Type>>,
    cs: Seq<Constraint>,
    i: int,
) -> (Map<usize, TypeV>, Result<(), Seq<char>>)
    decreases cs.len() - i,
{
    if i < 0 || i >= cs.len() {
        (s, Ok(()))
    } else {
        let (s1, r) = match cs[i] {
            Constraint::Eq(t1, t2) => unify_run(s, t1@, t2@, u64::MAX as nat),
            Constraint::Class(t, ts) => class_run(s, impls, traits, t@, types_view(ts@)),
        };
        if r is Err {
            (s1, r)
        } else {
            constraints_run(s1, impls, traits, cs, i + 1)
        }
    }
}

impl TypeChecker {
    /// Checks the pending constraints in order: an equation is unified, a
    /// class constraint is checked against the impls.
    pub fn solve_constraints(&mut self) -> (r: Result<(), String>)
        ensures
            old(self).substitution@.dom().subset_of(final(self).substitution@.dom()),
            r is Ok ==> forall|i: int|
                0 <= i < old(self).constraints@.len() ==> (#[trigger] old(self).constraints@[i] matches Constraint::Class(
                    t,
                    ts,
                ) ==> class_satisfied(t@, types_view(ts@), old(self).impl_env@, old(self).trait_env@)),
            r is Ok ==> forall|i: int|
                0 <= i < old(self).constraints@.len() ==> (#[trigger] old(self).constraints@[i] matches Constraint::Class(
                    t,
                    ts,
                ) ==> impl_methods_agree(t@, types_view(ts@), old(self).impl_env@, old(self).trait_env@)),
            (final(self).substitution@, result_view(r)) == constraints_run(
                old(self).substitution@,
                old(self).impl_env@,
                old(self).trait_env@,
                old(self).constraints@,
                0,
            ),
    {
        let mut i: usize = 0;
        while i < self.constraints.len()
            invariant
                i <= self.constraints@.len(),
                self.constraints == old(self).constraints,
                self.impl_env == old(self).impl_env,
                self.trait_env == old(self).trait_env,
                old(self).substitution@.dom().subset_of(self.substitution@.dom()),
                forall|j: int|
                    0 <= j < i ==> (#[trigger] old(self).constraints@[j] matches Constraint::Class(t, ts)
                        ==> class_satisfied(t@, types_view(ts@), old(self).impl_env@, old(self).trait_env@)),
                forall|j: int|
                    0 <= j < i ==> (#[trigger] old(self).constraints@[j] matches Constraint::Class(t, ts)
                        ==> impl_methods_agree(t@, types_view(ts@), old(self).impl_env@, old(self).trait_env@)),
                constraints_run(old(self).substitution@, old(self).impl_env@, old(self).trait_env@, old(self).constraints@, 0)
                    == constraints_run(
                    self.substitution@,
                    old(self).impl_env@,
                    old(self).trait_env@,
                    old(self).constraints@,
                    i as int,
                ),
            decreases self.constraints.len() - i,
        {
            match &self.constraints[i] {
                Constraint::Eq(t1, t2) => {
                    self.substitution.unify(t1, t2)?;
                },
                Constraint::Class(trait_name, types) => {
                    solve_class(&mut self.substitution, &self.impl_env, &self.trait_env, trait_name, types)?;
                },
            }
            i = i + 1;
        }
        Ok(())
    }
}

} // verus!
