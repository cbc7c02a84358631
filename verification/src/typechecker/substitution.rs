//! Substitutions of types for type variables, and unification.
use vstd::prelude::*;
use crate::text::{owned, push_str};
use crate::typechecker::render::{push_type, type_text};
use crate::typed_ast::{
    copy_type, fields_view, lemma_fields_view, lemma_types_view, type_view, types_view, Type,
    TypeV, TypeVar,
};

verus! {

/// The result of replacing, once, each variable of `t` bound in `s` by its binding.
pub open spec fn apply_type(s: Map<usize, TypeV>, t: TypeV) -> TypeV
    decreases t, 0nat,
{
    match t {
        TypeV::Var(v) => if s.contains_key(v) {
            s[v]
        } else {
            t
        },
        TypeV::Con { name, args } => TypeV::Con { name, args: apply_types(s, args) },
        TypeV::Tuple(ts) => TypeV::Tuple(apply_types(s, ts)),
        TypeV::Fun { args, ret } => TypeV::Fun {
            args: apply_types(s, args),
            ret: Box::new(apply_type(s, *ret)),
        },
        TypeV::Array { elem, size } => TypeV::Array { elem: Box::new(apply_type(s, *elem)), size },
        TypeV::Row(fields) => TypeV::Row(apply_fields(s, fields)),
        TypeV::Rec(inner) => TypeV::Rec(Box::new(apply_type(s, *inner))),
    }
}

/// `apply_type` on each type of a sequence.
pub open spec fn apply_types(s: Map<usize, TypeV>, ts: Seq<TypeV>) -> Seq<TypeV>
    decreases ts, ts.len(),
{
    if ts.len() == 0 {
        Seq::empty()
    } else {
        apply_types(s, ts.drop_last()).push(apply_type(s, ts.last()))
    }
}

/// `apply_type` on the type of each field of a row.
pub open spec fn apply_fields(s: Map<usize, TypeV>, fs: Seq<(Seq<char>, TypeV)>) -> Seq<
    (Seq<char>, TypeV),
>
    decreases fs, fs.len(),
{
    if fs.len() == 0 {
        Seq::empty()
    } else {
        apply_fields(s, fs.drop_last()).push((fs.last().0, apply_type(s, fs.last().1)))
    }
}

/// `apply_types` keeps the length and applies to each element.
pub proof fn lemma_apply_types(s: Map<usize, TypeV>, ts: Seq<TypeV>)
    ensures
        apply_types(s, ts).len() == ts.len(),
        forall|i: int| 0 <= i < ts.len() ==> #[trigger] apply_types(s, ts)[i] == apply_type(s, ts[i]),
    decreases ts.len(),
{
    if ts.len() > 0 {
        lemma_apply_types(s, ts.drop_last());
    }
}

/// `apply_fields` keeps the length and the names, and applies to each type.
pub proof fn lemma_apply_fields(s: Map<usize, TypeV>, fs: Seq<(Seq<char>, TypeV)>)
    ensures
        apply_fields(s, fs).len() == fs.len(),
        forall|i: int|
            0 <= i < fs.len() ==> #[trigger] apply_fields(s, fs)[i] == (fs[i].0, apply_type(s, fs[i].1)),
    decreases fs.len(),
{
    if fs.len() > 0 {
        lemma_apply_fields(s, fs.drop_last());
    }
}

/// Whether the variable `v` occurs in the type `t`.
pub open spec fn occurs_in(v: usize, t: TypeV) -> bool
    decreases t, 0nat,
{
    match t {
        TypeV::Var(w) => v == w,
        TypeV::Con { args, .. } => occurs_in_any(v, args),
        TypeV::Tuple(ts) => occurs_in_any(v, ts),
        TypeV::Fun { args, ret } => occurs_in_any(v, args) || occurs_in(v, *ret),
        TypeV::Array { elem, .. } => occurs_in(v, *elem),
        TypeV::Row(fields) => occurs_in_fields(v, fields),
        TypeV::Rec(inner) => occurs_in(v, *inner),
    }
}

/// Whether the variable `v` occurs in one of the types.
pub open spec fn occurs_in_any(v: usize, ts: Seq<TypeV>) -> bool
    decreases ts, ts.len(),
{
    if ts.len() == 0 {
        false
    } else {
        occurs_in_any(v, ts.drop_last()) || occurs_in(v, ts.last())
    }
}

/// Whether the variable `v` occurs in the type of one of the fields.
pub open spec fn occurs_in_fields(v: usize, fs: Seq<(Seq<char>, TypeV)>) -> bool
    decreases fs, fs.len(),
{
    if fs.len() == 0 {
        false
    } else {
        occurs_in_fields(v, fs.drop_last()) || occurs_in(v, fs.last().1)
    }
}

/// `occurs_in_any` holds exactly when the variable occurs in some element.
pub proof fn lemma_occurs_in_any(v: usize, ts: Seq<TypeV>)
    ensures
        occurs_in_any(v, ts) <==> exists|i: int| 0 <= i < ts.len() && occurs_in(v, #[trigger] ts[i]),
    decreases ts.len(),
{
    if ts.len() > 0 {
        lemma_occurs_in_any(v, ts.drop_last());
        if occurs_in_any(v, ts.drop_last()) {
            let i = choose|i: int| 0 <= i < ts.len() - 1 && occurs_in(v, #[trigger] ts.drop_last()[i]);
            assert(ts[i] == ts.drop_last()[i]);
        }
        if exists|i: int| 0 <= i < ts.len() && occurs_in(v, #[trigger] ts[i]) {
            let i = choose|i: int| 0 <= i < ts.len() && occurs_in(v, #[trigger] ts[i]);
            if i < ts.len() - 1 {
                assert(ts.drop_last()[i] == ts[i]);
            }
        }
    }
}

/// `occurs_in_fields` holds exactly when the variable occurs in some field's type.
pub proof fn lemma_occurs_in_fields(v: usize, fs: Seq<(Seq<char>, TypeV)>)
    ensures
        occurs_in_fields(v, fs) <==> exists|i: int|
            0 <= i < fs.len() && occurs_in(v, (#[trigger] fs[i]).1),
    decreases fs.len(),
{
    if fs.len() > 0 {
        lemma_occurs_in_fields(v, fs.drop_last());
        if occurs_in_fields(v, fs.drop_last()) {
            let i = choose|i: int|
                0 <= i < fs.len() - 1 && occurs_in(v, (#[trigger] fs.drop_last()[i]).1);
            assert(fs[i] == fs.drop_last()[i]);
        }
        if exists|i: int| 0 <= i < fs.len() && occurs_in(v, (#[trigger] fs[i]).1) {
            let i = choose|i: int| 0 <= i < fs.len() && occurs_in(v, (#[trigger] fs[i]).1);
            if i < fs.len() - 1 {
                assert(fs.drop_last()[i] == fs[i]);
            }
        }
    }
}

/// Whether the variable `v` occurs in the type `t`.
pub fn occurs_check(v: &TypeVar, t: &Type) -> (r: bool)
    ensures
        r == occurs_in(v.0, t@),
    decreases t, 0nat,
{
    match t {
        Type::Var(v2) => v.0 == v2.0,
        Type::Con { args, .. } => occurs_check_any(v, args),
        Type::Tuple(ts) => occurs_check_any(v, ts),
        Type::Fun { args, ret } => occurs_check_any(v, args) || occurs_check(v, ret),
        Type::Array { elem, .. } => occurs_check(v, elem),
        Type::Row(fields) => occurs_check_fields(v, fields),
        Type::Rec(inner) => occurs_check(v, inner),
    }
}


/// Whether the variable `v` occurs in the type of one of the fields.
fn occurs_check_fields(v: &TypeVar, fields: &Vec<(String, Type)>) -> (r: bool)
    ensures
        r == occurs_in_fields(v.0, fields_view(fields@)),
    decreases fields, 0nat,
{
        proof {
            lemma_fields_view(fields@);
            lemma_occurs_in_fields(v.0, fields_view(fields@));
        }
        let mut i: usize = 0;
        while i < fields.len()
            invariant
                i <= fields@.len(),
                fields_view(fields@).len() == fields@.len(),
                forall|k: int|
                    0 <= k < fields@.len() ==> #[trigger] fields_view(fields@)[k] == (
                        fields@[k].0@,
                        type_view(fields@[k].1),
                    ),
                forall|k: int| 0 <= k < i ==> !occurs_in(v.0, type_view(#[trigger] fields@[k].1)),
                occurs_in_fields(v.0, fields_view(fields@)) <==> exists|k: int|
                    0 <= k < fields_view(fields@).len() && occurs_in(
                        v.0,
                        (#[trigger] fields_view(fields@)[k]).1,
                    ),
            decreases fields.len() - i,
        {
            proof {
                assert(decreases_to!(fields => fields[i as int]));
                assert(decreases_to!(fields[i as int] => fields[i as int].1));
            }
            if occurs_check(v, &fields[i].1) {
                assert(fields_view(fields@)[i as int].1 == type_view(fields@[i as int].1));
                return true;
            }
            i = i + 1;
        }
        proof {
            if occurs_in_fields(v.0, fields_view(fields@)) {
                let k = choose|k: int|
                    0 <= k < fields_view(fields@).len() && occurs_in(
                        v.0,
                        (#[trigger] fields_view(fields@)[k]).1,
                    );
                assert(fields_view(fields@)[k].1 == type_view(fields@[k].1));
            }
        }
        false
}

/// Whether the variable `v` occurs in one of the types.
fn occurs_check_any(v: &TypeVar, ts: &Vec<Type>) -> (r: bool)
    ensures
        r == occurs_in_any(v.0, types_view(ts@)),
    decreases ts, 0nat,
{
    proof {
        lemma_types_view(ts@);
        lemma_occurs_in_any(v.0, types_view(ts@));
    }
    let mut i: usize = 0;
    while i < ts.len()
        invariant
            i <= ts@.len(),
            types_view(ts@).len() == ts@.len(),
            forall|k: int| 0 <= k < ts@.len() ==> #[trigger] types_view(ts@)[k] == type_view(ts@[k]),
            forall|k: int| 0 <= k < i ==> !occurs_in(v.0, type_view(#[trigger] ts@[k])),
            occurs_in_any(v.0, types_view(ts@)) <==> exists|k: int|
                0 <= k < types_view(ts@).len() && occurs_in(v.0, #[trigger] types_view(ts@)[k]),
        decreases ts.len() - i,
    {
        proof {
            assert(decreases_to!(ts => ts[i as int]));
        }
        if occurs_check(v, &ts[i]) {
            assert(types_view(ts@)[i as int] == type_view(ts@[i as int]));
            return true;
        }
        i = i + 1;
    }
    proof {
        if occurs_in_any(v.0, types_view(ts@)) {
            let k = choose|k: int|
                0 <= k < types_view(ts@).len() && occurs_in(v.0, #[trigger] types_view(ts@)[k]);
            assert(types_view(ts@)[k] == type_view(ts@[k]));
        }
    }
    false
}

} // verus!

verus! {

/// The bindings of a list of entries, later entries overriding earlier ones.
pub open spec fn entries_map(es: Seq<(TypeVar, Type)>) -> Map<usize, TypeV>
    decreases es.len(),
{
    if es.len() == 0 {
        Map::empty()
    } else {
        entries_map(es.drop_last()).insert(es.last().0.0, type_view(es.last().1))
    }
}

/// Whether no variable is bound twice in a list of entries.
pub open spec fn distinct_keys(es: Seq<(TypeVar, Type)>) -> bool {
    forall|i: int, j: int| 0 <= i < j < es.len() ==> (#[trigger] es[i]).0.0 != (#[trigger] es[j]).0.0
}

/// The bindings of a list of entries with distinct variables are exactly its entries.
pub proof fn lemma_entries_map(es: Seq<(TypeVar, Type)>)
    requires
        distinct_keys(es),
    ensures
        forall|k: usize|
            #![trigger entries_map(es).contains_key(k)]
            entries_map(es).contains_key(k) <==> exists|i: int|
                0 <= i < es.len() && (#[trigger] es[i]).0.0 == k,
        forall|i: int|
            0 <= i < es.len() ==> entries_map(es).contains_key((#[trigger] es[i]).0.0)
                && entries_map(es)[es[i].0.0] == type_view(es[i].1),
    decreases es.len(),
{
    if es.len() > 0 {
        let init = es.drop_last();
        assert(distinct_keys(init)) by {
            assert forall|i: int, j: int| 0 <= i < j < init.len() implies (#[trigger] init[i]).0.0
                != (#[trigger] init[j]).0.0 by {
                assert(init[i] == es[i] && init[j] == es[j]);
            }
        }
        lemma_entries_map(init);
        assert forall|k: usize| #[trigger]
            entries_map(es).contains_key(k) implies exists|i: int|
                0 <= i < es.len() && (#[trigger] es[i]).0.0 == k by {
            if k != es.last().0.0 {
                let i = choose|i: int| 0 <= i < init.len() && (#[trigger] init[i]).0.0 == k;
                assert(es[i] == init[i]);
            } else {
                assert(es[es.len() - 1].0.0 == k);
            }
        }
        assert forall|i: int| 0 <= i < es.len() implies entries_map(es).contains_key(
            (#[trigger] es[i]).0.0,
        ) && entries_map(es)[es[i].0.0] == type_view(es[i].1) by {
            if i < es.len() - 1 {
                assert(init[i] == es[i]);
                assert(es[i].0.0 != es[es.len() - 1].0.0);
            }
        }
    }
}

/// A substitution: the types that type variables stand for.
pub struct Substitution(Vec<(TypeVar, Type)>);

impl View for Substitution {
    type V = Map<usize, TypeV>;

    closed spec fn view(&self) -> Map<usize, TypeV> {
        entries_map(self.0@)
    }
}

impl Substitution {
    #[verifier::type_invariant]
    spec fn well_formed(self) -> bool {
        distinct_keys(self.0@)
    }

    /// The substitution that binds nothing.
    pub fn new() -> (r: Self)
        ensures
            r@ == Map::<usize, TypeV>::empty(),
    {
        Substitution(Vec::new())
    }

    /// The index of the entry that binds `v`, if any.
    fn find(&self, v: usize) -> (r: Option<usize>)
        ensures
            r matches Some(i) ==> i < self.0@.len() && self.0@[i as int].0.0 == v,
            r is None ==> forall|k: int| 0 <= k < self.0@.len() ==> (#[trigger] self.0@[k]).0.0 != v,
    {
        let mut i: usize = 0;
        while i < self.0.len()
            invariant
                i <= self.0@.len(),
                forall|k: int| 0 <= k < i ==> (#[trigger] self.0@[k]).0.0 != v,
            decreases self.0.len() - i,
        {
            if self.0[i].0.0 == v {
                return Some(i);
            }
            i = i + 1;
        }
        None
    }

    /// The type bound to the variable `v`, if any.
    pub fn lookup(&self, v: usize) -> (r: Option<&Type>)
        ensures
            r is Some <==> self@.contains_key(v),
            r matches Some(t) ==> self@[v] == t@,
    {
        proof {
            use_type_invariant(self);
            lemma_entries_map(self.0@);
        }
        match self.find(v) {
            Some(i) => {
                assert(entries_map(self.0@).contains_key(self.0@[i as int].0.0));
                Some(&self.0[i].1)
            },
            None => None,
        }
    }

    /// Binds the variable `v` to the type `t`, replacing an earlier binding of `v`.
    pub fn insert(&mut self, v: TypeVar, t: Type)
        ensures
            final(self)@ == old(self)@.insert(v.0, t@),
    {
        proof {
            use_type_invariant(&*self);
            lemma_entries_map(self.0@);
        }
        let ghost old_entries = self.0@;
        let ghost tv = t@;
        let found = self.find(v.0);
        let mut entries: Vec<(TypeVar, Type)> = Vec::new();
        std::mem::swap(&mut entries, &mut self.0);
        match found {
            Some(i) => {
                entries.set(i, (v, t));
                let ghost new_entries = entries@;
                assert(distinct_keys(new_entries)) by {
                    assert forall|a: int, b: int| 0 <= a < b < new_entries.len() implies (
                    #[trigger] new_entries[a]).0.0 != (#[trigger] new_entries[b]).0.0 by {
                        assert(old_entries[a].0.0 != old_entries[b].0.0);
                    }
                }
                proof {
                    lemma_entries_map(new_entries);
                    let m = entries_map(old_entries).insert(v.0, tv);
                    assert forall|k: usize| #[trigger]
                        entries_map(new_entries).contains_key(k) implies m.contains_key(k) by {
                        let j = choose|j: int|
                            0 <= j < new_entries.len() && (#[trigger] new_entries[j]).0.0 == k;
                        if j != i {
                            assert(old_entries[j] == new_entries[j]);
                        }
                    }
                    assert forall|k: usize| #[trigger]
                        m.contains_key(k) implies entries_map(new_entries).contains_key(k) by {
                        if k != v.0 {
                            let j = choose|j: int|
                                0 <= j < old_entries.len() && (#[trigger] old_entries[j]).0.0 == k;
                            assert(old_entries[j] == new_entries[j]);
                        } else {
                            assert(new_entries[i as int].0.0 == k);
                        }
                    }
                    assert forall|k: usize| #[trigger]
                        entries_map(new_entries).contains_key(k) implies entries_map(new_entries)[k]
                        == m[k] by {
                        let j = choose|j: int|
                            0 <= j < new_entries.len() && (#[trigger] new_entries[j]).0.0 == k;
                        if j != i {
                            assert(old_entries[j] == new_entries[j]);
                        }
                    }
                    assert(entries_map(new_entries) =~= m);
                }
            },
            None => {
                entries.push((v, t));
                assert(entries@.drop_last() =~= old_entries);
                assert(distinct_keys(entries@)) by {
                    assert forall|a: int, b: int| 0 <= a < b < entries@.len() implies (
                    #[trigger] entries@[a]).0.0 != (#[trigger] entries@[b]).0.0 by {
                        if b < entries@.len() - 1 {
                            assert(old_entries[a] == entries@[a] && old_entries[b] == entries@[b]);
                        } else {
                            assert(old_entries[a] == entries@[a]);
                        }
                    }
                }
            },
        }
        self.0 = entries;
    }
}

} // verus!

verus! {

impl Substitution {
    /// Replaces, once, each variable of `t` bound here by its binding.
    pub fn apply(&self, t: &Type) -> (r: Type)
        ensures
            r@ == apply_type(self@, t@),
        decreases t, 0nat,
    {
        match t {
            Type::Var(v) => match self.lookup(v.0) {
                Some(bound) => copy_type(bound),
                None => copy_type(t),
            },
            Type::Con { name, args } => Type::Con { name: name.clone(), args: self.apply_all(args) },
            Type::Tuple(ts) => Type::Tuple(self.apply_all(ts)),
            Type::Fun { args, ret } => Type::Fun {
                args: self.apply_all(args),
                ret: Box::new(self.apply(ret)),
            },
            Type::Array { elem, size } => Type::Array { elem: Box::new(self.apply(elem)), size: *size },
            Type::Row(fields) => Type::Row(self.apply_row(fields)),
            Type::Rec(inner) => Type::Rec(Box::new(self.apply(inner))),
        }
    }

    /// `apply` on each type of a list.
    pub fn apply_all(&self, ts: &Vec<Type>) -> (r: Vec<Type>)
        ensures
            types_view(r@) == apply_types(self@, types_view(ts@)),
        decreases ts, 0nat,
    {
        proof {
            lemma_types_view(ts@);
            lemma_apply_types(self@, types_view(ts@));
        }
        let mut out: Vec<Type> = Vec::new();
        let mut i: usize = 0;
        while i < ts.len()
            invariant
                i <= ts@.len(),
                out@.len() == i,
                forall|k: int|
                    0 <= k < i ==> type_view(#[trigger] out@[k]) == apply_type(self@, type_view(ts@[k])),
            decreases ts.len() - i,
        {
            proof {
                assert(decreases_to!(ts => ts[i as int]));
            }
            out.push(self.apply(&ts[i]));
            i = i + 1;
        }
        proof {
            lemma_types_view(out@);
            assert(types_view(out@) =~= apply_types(self@, types_view(ts@)));
        }
        out
    }

    /// `apply` on the type of each field of a row.
    pub fn apply_row(&self, fields: &Vec<(String, Type)>) -> (r: Vec<(String, Type)>)
        ensures
            fields_view(r@) == apply_fields(self@, fields_view(fields@)),
        decreases fields, 0nat,
    {
        proof {
            lemma_fields_view(fields@);
            lemma_apply_fields(self@, fields_view(fields@));
        }
        let mut out: Vec<(String, Type)> = Vec::new();
        let mut i: usize = 0;
        while i < fields.len()
            invariant
                i <= fields@.len(),
                out@.len() == i,
                forall|k: int|
                    0 <= k < i ==> (#[trigger] out@[k]).0@ == fields@[k].0@ && type_view(out@[k].1)
                        == apply_type(self@, type_view(fields@[k].1)),
            decreases fields.len() - i,
        {
            proof {
                assert(decreases_to!(fields => fields[i as int]));
                assert(decreases_to!(fields[i as int] => fields[i as int].1));
            }
            let name = fields[i].0.clone();
            let ty = self.apply(&fields[i].1);
            out.push((name, ty));
            i = i + 1;
        }
        proof {
            lemma_fields_view(out@);
            assert(fields_view(out@) =~= apply_fields(self@, fields_view(fields@)));
        }
        out
    }
}

} // verus!

verus! {

/// The bindings of the composition of `s1` after `s2`: the bindings of `s2`
/// with `s1` applied to them, and the bindings of `s1` for the other variables.
pub open spec fn compose_map(s1: Map<usize, TypeV>, s2: Map<usize, TypeV>) -> Map<usize, TypeV> {
    s1.union_prefer_right(s2.map_values(|t: TypeV| apply_type(s1, t)))
}

impl Substitution {
    /// The composition of `self` after `other`: applying it is applying
    /// `other`, then `self`.
    pub fn compose(&self, other: &Substitution) -> (r: Substitution)
        ensures
            r@ == compose_map(self@, other@),
    {
        let mut new_sub = Substitution::new();
        let mut i: usize = 0;
        while i < self.0.len()
            invariant
                i <= self.0@.len(),
                new_sub@ == entries_map(self.0@.take(i as int)),
            decreases self.0.len() - i,
        {
            let v = TypeVar(self.0[i].0.0);
            let t = copy_type(&self.0[i].1);
            new_sub.insert(v, t);
            assert(self.0@.take(i + 1).drop_last() =~= self.0@.take(i as int));
            i = i + 1;
        }
        assert(self.0@.take(self.0@.len() as int) =~= self.0@);
        let ghost s1 = self@;
        let mut j: usize = 0;
        while j < other.0.len()
            invariant
                s1 == self@,
                j <= other.0@.len(),
                new_sub@ == s1.union_prefer_right(
                    entries_map(other.0@.take(j as int)).map_values(|t: TypeV| apply_type(s1, t)),
                ),
            decreases other.0.len() - j,
        {
            let v = TypeVar(other.0[j].0.0);
            let t = self.apply(&other.0[j].1);
            let ghost before = entries_map(other.0@.take(j as int));
            new_sub.insert(v, t);
            assert(other.0@.take(j + 1).drop_last() =~= other.0@.take(j as int));
            assert(entries_map(other.0@.take(j + 1)) == before.insert(
                v.0,
                type_view(other.0@[j as int].1),
            ));
            assert(new_sub@ =~= s1.union_prefer_right(
                entries_map(other.0@.take(j + 1)).map_values(|t: TypeV| apply_type(s1, t)),
            ));
            j = j + 1;
        }
        assert(other.0@.take(other.0@.len() as int) =~= other.0@);
        new_sub
    }
}

} // verus!

verus! {

/// Applying a composition is applying its second substitution, then its first.
pub proof fn law_compose_apply(s1: Map<usize, TypeV>, s2: Map<usize, TypeV>, t: TypeV)
    ensures
        apply_type(compose_map(s1, s2), t) == apply_type(s1, apply_type(s2, t)),
    decreases t, 0nat,
{
    match t {
        TypeV::Var(v) => {},
        TypeV::Con { name, args } => {
            law_compose_apply_types(s1, s2, args);
        },
        TypeV::Tuple(ts) => {
            law_compose_apply_types(s1, s2, ts);
        },
        TypeV::Fun { args, ret } => {
            law_compose_apply_types(s1, s2, args);
            law_compose_apply(s1, s2, *ret);
        },
        TypeV::Array { elem, size } => {
            law_compose_apply(s1, s2, *elem);
        },
        TypeV::Row(fields) => {
            law_compose_apply_fields(s1, s2, fields);
        },
        TypeV::Rec(inner) => {
            law_compose_apply(s1, s2, *inner);
        },
    }
}

/// `law_compose_apply` on each type of a sequence.
pub proof fn law_compose_apply_types(s1: Map<usize, TypeV>, s2: Map<usize, TypeV>, ts: Seq<TypeV>)
    ensures
        apply_types(compose_map(s1, s2), ts) == apply_types(s1, apply_types(s2, ts)),
    decreases ts, ts.len(),
{
    if ts.len() > 0 {
        law_compose_apply_types(s1, s2, ts.drop_last());
        law_compose_apply(s1, s2, ts.last());
        let x = apply_types(s2, ts.drop_last());
        let y = apply_type(s2, ts.last());
        assert(x.push(y).drop_last() =~= x);
    }
}

/// `law_compose_apply` on the type of each field of a row.
pub proof fn law_compose_apply_fields(
    s1: Map<usize, TypeV>,
    s2: Map<usize, TypeV>,
    fs: Seq<(Seq<char>, TypeV)>,
)
    ensures
        apply_fields(compose_map(s1, s2), fs) == apply_fields(s1, apply_fields(s2, fs)),
    decreases fs, fs.len(),
{
    if fs.len() > 0 {
        law_compose_apply_fields(s1, s2, fs.drop_last());
        law_compose_apply(s1, s2, fs.last().1);
        let x = apply_fields(s2, fs.drop_last());
        let y = (fs.last().0, apply_type(s2, fs.last().1));
        assert(x.push(y).drop_last() =~= x);
    }
}

/// The empty substitution changes no type.
pub proof fn law_apply_empty(t: TypeV)
    ensures
        apply_type(Map::<usize, TypeV>::empty(), t) == t,
    decreases t, 0nat,
{
    match t {
        TypeV::Var(v) => {},
        TypeV::Con { name, args } => {
            lemma_apply_empty_types(args);
        },
        TypeV::Tuple(ts) => {
            lemma_apply_empty_types(ts);
        },
        TypeV::Fun { args, ret } => {
            lemma_apply_empty_types(args);
            law_apply_empty(*ret);
        },
        TypeV::Array { elem, size } => {
            law_apply_empty(*elem);
        },
        TypeV::Row(fields) => {
            lemma_apply_empty_fields(fields);
        },
        TypeV::Rec(inner) => {
            law_apply_empty(*inner);
        },
    }
}

/// `law_apply_empty` on each type of a sequence.
pub proof fn lemma_apply_empty_types(ts: Seq<TypeV>)
    ensures
        apply_types(Map::<usize, TypeV>::empty(), ts) == ts,
    decreases ts, ts.len(),
{
    if ts.len() > 0 {
        lemma_apply_empty_types(ts.drop_last());
        law_apply_empty(ts.last());
        assert(ts.drop_last().push(ts.last()) =~= ts);
    }
}

/// `law_apply_empty` on the type of each field of a row.
pub proof fn lemma_apply_empty_fields(fs: Seq<(Seq<char>, TypeV)>)
    ensures
        apply_fields(Map::<usize, TypeV>::empty(), fs) == fs,
    decreases fs, fs.len(),
{
    if fs.len() > 0 {
        lemma_apply_empty_fields(fs.drop_last());
        law_apply_empty(fs.last().1);
        assert(fs.drop_last().push((fs.last().0, fs.last().1)) =~= fs);
    }
}

} // verus!

verus! {

/// Whether two types are the same variable.
pub open spec fn same_var(a: TypeV, b: TypeV) -> bool {
    &&& a is Var
    &&& b is Var
    &&& a->Var_0 == b->Var_0
}

/// Whether two types that are not variables have the same outer shape, so
/// that unification goes on with their parts.
pub open spec fn same_shape(a: TypeV, b: TypeV) -> bool {
    match (a, b) {
        (TypeV::Con { name: n1, args: a1 }, TypeV::Con { name: n2, args: a2 }) => n1 == n2 && a1.len()
            == a2.len(),
        (TypeV::Tuple(x), TypeV::Tuple(y)) => x.len() == y.len(),
        (TypeV::Fun { args: a1, .. }, TypeV::Fun { args: a2, .. }) => a1.len() == a2.len(),
        (TypeV::Array { size: s1, .. }, TypeV::Array { size: s2, .. }) => s1 == s2,
        (TypeV::Row(_), TypeV::Row(_)) => true,
        (TypeV::Rec(_), TypeV::Rec(_)) => true,
        _ => false,
    }
}

/// The message given when two types cannot be unified.
pub open spec fn cannot_unify_message(a: TypeV, b: TypeV) -> Seq<char> {
    "cannot unify "@ + type_text(a) + " and "@ + type_text(b)
}

/// The message given when unification goes deeper than its bound.
pub open spec fn depth_message() -> Seq<char> {
    "unification went too deep"@
}

/// What one step of unification does, given the two types after applying
/// the substitution: `Ok(Some(..))` binds a variable, `Ok(None)` changes
/// nothing, `Err(..)` fails with the message; the other cases go on with
/// the parts of the types (and give `None`).
pub open spec fn unify_outcome(a1: TypeV, a2: TypeV) -> Option<Result<Option<(usize, TypeV)>, Seq<char>>> {
    if same_var(a1, a2) {
        Some(Ok(None))
    } else if a1 is Var {
        if occurs_in(a1->Var_0, a2) {
            Some(Err("occurs check failed"@))
        } else {
            Some(Ok(Some((a1->Var_0, a2))))
        }
    } else if a2 is Var {
        None
    } else if !same_shape(a1, a2) {
        Some(Err(cannot_unify_message(a1, a2)))
    } else if a1 is Row && a2 is Row && a1->Row_0.len() != a2->Row_0.len() {
        Some(Err("row length mismatch"@))
    } else {
        None
    }
}

/// A unification result as values: `Ok` or the message of the error.
pub open spec fn result_view(r: Result<(), String>) -> Result<(), Seq<char>> {
    match r {
        Ok(()) => Ok(()),
        Err(e) => Err(e@),
    }
}

/// What unifying `t1` with `t2` under the substitution `s` gives, allowing
/// `fuel` nested steps: the substitution after it and `Ok` or the message
/// of the first error. Both types are read through `s` at each step; a
/// variable on the right only is unified the other way round; the parts of
/// types of the same shape are unified left to right.
pub open spec fn unify_run(s: Map<usize, TypeV>, t1: TypeV, t2: TypeV, fuel: nat) -> (
    Map<usize, TypeV>,
    Result<(), Seq<char>>,
)
    decreases fuel, 0nat, 0nat,
{
    if fuel == 0 {
        (s, Err(depth_message()))
    } else {
        let a1 = apply_type(s, t1);
        let a2 = apply_type(s, t2);
        match unify_outcome(a1, a2) {
            Some(Ok(None)) => (s, Ok(())),
            Some(Ok(Some((v, t)))) => (s.insert(v, t), Ok(())),
            Some(Err(m)) => (s, Err(m)),
            None => if a2 is Var {
                unify_run(s, a2, a1, (fuel - 1) as nat)
            } else {
                match (a1, a2) {
                    (TypeV::Con { args: x, .. }, TypeV::Con { args: y, .. }) => unify_pairs_run(
                        s,
                        x,
                        y,
                        (fuel - 1) as nat,
                    ),
                    (TypeV::Tuple(x), TypeV::Tuple(y)) => unify_pairs_run(s, x, y, (fuel - 1) as nat),
                    (TypeV::Fun { args: x, ret: r1 }, TypeV::Fun { args: y, ret: r2 }) => {
                        let (s1, r) = unify_pairs_run(s, x, y, (fuel - 1) as nat);
                        if r is Err {
                            (s1, r)
                        } else {
                            unify_run(s1, *r1, *r2, (fuel - 1) as nat)
                        }
                    },
                    (TypeV::Array { elem: e1, .. }, TypeV::Array { elem: e2, .. }) => unify_run(
                        s,
                        *e1,
                        *e2,
                        (fuel - 1) as nat,
                    ),
                    (TypeV::Row(f1), TypeV::Row(f2)) => unify_rows_run(s, f1, f2, (fuel - 1) as nat),
                    (TypeV::Rec(x), TypeV::Rec(y)) => unify_run(s, *x, *y, (fuel - 1) as nat),
                    _ => (s, Ok(())),
                }
            },
        }
    }
}

/// Unifies the types of two sequences pairwise, left to right, stopping at
/// the first error.
pub open spec fn unify_pairs_run(s: Map<usize, TypeV>, xs: Seq<TypeV>, ys: Seq<TypeV>, fuel: nat) -> (
    Map<usize, TypeV>,
    Result<(), Seq<char>>,
)
    decreases fuel, 1nat, xs.len(),
{
    if xs.len() == 0 {
        (s, Ok(()))
    } else {
        let (s1, r1) = unify_pairs_run(s, xs.drop_last(), ys.drop_last(), fuel);
        if r1 is Err {
            (s1, r1)
        } else {
            unify_run(s1, xs.last(), ys.last(), fuel)
        }
    }
}

/// Unifies the fields of two rows pairwise, left to right: the names must
/// agree; stops at the first error.
pub open spec fn unify_rows_run(
    s: Map<usize, TypeV>,
    f1: Seq<(Seq<char>, TypeV)>,
    f2: Seq<(Seq<char>, TypeV)>,
    fuel: nat,
) -> (Map<usize, TypeV>, Result<(), Seq<char>>)
    decreases fuel, 1nat, f1.len(),
{
    if f1.len() == 0 {
        (s, Ok(()))
    } else {
        let (s1, r1) = unify_rows_run(s, f1.drop_last(), f2.drop_last(), fuel);
        if r1 is Err {
            (s1, r1)
        } else if f1.last().0 != f2.last().0 {
            (s1, Err("row fields mismatch"@))
        } else {
            unify_run(s1, f1.last().1, f2.last().1, fuel)
        }
    }
}

/// Once a prefix of the pairs fails, unifying all of them fails the same way.
pub proof fn lemma_pairs_run_prefix(s: Map<usize, TypeV>, xs: Seq<TypeV>, ys: Seq<TypeV>, k: int, fuel: nat)
    requires
        0 <= k <= xs.len(),
        xs.len() == ys.len(),
        unify_pairs_run(s, xs.subrange(0, k), ys.subrange(0, k), fuel).1 is Err,
    ensures
        unify_pairs_run(s, xs, ys, fuel) == unify_pairs_run(s, xs.subrange(0, k), ys.subrange(0, k), fuel),
    decreases xs.len(),
{
    if k < xs.len() {
        assert(xs.drop_last().subrange(0, k) =~= xs.subrange(0, k));
        assert(ys.drop_last().subrange(0, k) =~= ys.subrange(0, k));
        lemma_pairs_run_prefix(s, xs.drop_last(), ys.drop_last(), k, fuel);
    } else {
        assert(xs.subrange(0, k) =~= xs);
        assert(ys.subrange(0, k) =~= ys);
    }
}

/// Once a prefix of the fields fails, unifying all of them fails the same way.
pub proof fn lemma_rows_run_prefix(
    s: Map<usize, TypeV>,
    f1: Seq<(Seq<char>, TypeV)>,
    f2: Seq<(Seq<char>, TypeV)>,
    k: int,
    fuel: nat,
)
    requires
        0 <= k <= f1.len(),
        f1.len() == f2.len(),
        unify_rows_run(s, f1.subrange(0, k), f2.subrange(0, k), fuel).1 is Err,
    ensures
        unify_rows_run(s, f1, f2, fuel) == unify_rows_run(s, f1.subrange(0, k), f2.subrange(0, k), fuel),
    decreases f1.len(),
{
    if k < f1.len() {
        assert(f1.drop_last().subrange(0, k) =~= f1.subrange(0, k));
        assert(f2.drop_last().subrange(0, k) =~= f2.subrange(0, k));
        lemma_rows_run_prefix(s, f1.drop_last(), f2.drop_last(), k, fuel);
    } else {
        assert(f1.subrange(0, k) =~= f1);
        assert(f2.subrange(0, k) =~= f2);
    }
}

/// Two types agree up to variables: wherever neither of them has a
/// variable, they have the same constructor (the same name and number of
/// arguments, the same number of parts or parameters, the same array size,
/// the same row field names in order) and their parts agree.
pub open spec fn agree(a: TypeV, b: TypeV) -> bool
    decreases a, 0nat,
{
    match (a, b) {
        (TypeV::Var(_), _) => true,
        (_, TypeV::Var(_)) => true,
        (TypeV::Con { name: n1, args: x }, TypeV::Con { name: n2, args: y }) => n1 == n2 && agree_all(x, y),
        (TypeV::Tuple(x), TypeV::Tuple(y)) => agree_all(x, y),
        (TypeV::Fun { args: x, ret: r1 }, TypeV::Fun { args: y, ret: r2 }) => agree_all(x, y) && agree(*r1, *r2),
        (TypeV::Array { elem: e1, size: s1 }, TypeV::Array { elem: e2, size: s2 }) => s1 == s2 && agree(*e1, *e2),
        (TypeV::Row(f1), TypeV::Row(f2)) => agree_fields(f1, f2),
        (TypeV::Rec(x), TypeV::Rec(y)) => agree(*x, *y),
        _ => false,
    }
}

/// Two lists of types of the same length that agree pairwise.
pub open spec fn agree_all(xs: Seq<TypeV>, ys: Seq<TypeV>) -> bool
    decreases xs, xs.len(),
{
    &&& xs.len() == ys.len()
    &&& xs.len() > 0 ==> agree_all(xs.drop_last(), ys.drop_last()) && agree(xs.last(), ys.last())
}

/// Two lists of row fields of the same length with the same names in order
/// and types that agree pairwise.
pub open spec fn agree_fields(f1: Seq<(Seq<char>, TypeV)>, f2: Seq<(Seq<char>, TypeV)>) -> bool
    decreases f1, f1.len(),
{
    &&& f1.len() == f2.len()
    &&& f1.len() > 0 ==> agree_fields(f1.drop_last(), f2.drop_last()) && f1.last().0 == f2.last().0 && agree(
        f1.last().1,
        f2.last().1,
    )
}

/// Types that agree once a substitution is applied to both agree already:
/// applying a substitution only fills in variables.
pub proof fn lemma_agree_applied(s: Map<usize, TypeV>, a: TypeV, b: TypeV)
    requires
        agree(apply_type(s, a), apply_type(s, b)),
    ensures
        agree(a, b),
    decreases a, 0nat,
{
    match (a, b) {
        (TypeV::Con { args: x, .. }, TypeV::Con { args: y, .. }) => lemma_agree_all_applied(s, x, y),
        (TypeV::Tuple(x), TypeV::Tuple(y)) => lemma_agree_all_applied(s, x, y),
        (TypeV::Fun { args: x, ret: r1 }, TypeV::Fun { args: y, ret: r2 }) => {
            lemma_agree_all_applied(s, x, y);
            lemma_agree_applied(s, *r1, *r2);
        },
        (TypeV::Array { elem: e1, .. }, TypeV::Array { elem: e2, .. }) => lemma_agree_applied(s, *e1, *e2),
        (TypeV::Row(f1), TypeV::Row(f2)) => lemma_agree_fields_applied(s, f1, f2),
        (TypeV::Rec(x), TypeV::Rec(y)) => lemma_agree_applied(s, *x, *y),
        _ => {},
    }
}

/// `lemma_agree_applied` for lists of types.
pub proof fn lemma_agree_all_applied(s: Map<usize, TypeV>, xs: Seq<TypeV>, ys: Seq<TypeV>)
    requires
        agree_all(apply_types(s, xs), apply_types(s, ys)),
    ensures
        agree_all(xs, ys),
    decreases xs, xs.len(),
{
    lemma_apply_types(s, xs);
    lemma_apply_types(s, ys);
    if xs.len() > 0 {
        assert(apply_types(s, xs).drop_last() =~= apply_types(s, xs.drop_last()));
        assert(apply_types(s, ys).drop_last() =~= apply_types(s, ys.drop_last()));
        lemma_agree_all_applied(s, xs.drop_last(), ys.drop_last());
        lemma_agree_applied(s, xs.last(), ys.last());
    }
}

/// `lemma_agree_applied` for lists of row fields.
pub proof fn lemma_agree_fields_applied(s: Map<usize, TypeV>, f1: Seq<(Seq<char>, TypeV)>, f2: Seq<(Seq<char>, TypeV)>)
    requires
        agree_fields(apply_fields(s, f1), apply_fields(s, f2)),
    ensures
        agree_fields(f1, f2),
    decreases f1, f1.len(),
{
    lemma_apply_fields(s, f1);
    lemma_apply_fields(s, f2);
    if f1.len() > 0 {
        assert(apply_fields(s, f1).drop_last() =~= apply_fields(s, f1.drop_last()));
        assert(apply_fields(s, f2).drop_last() =~= apply_fields(s, f2.drop_last()));
        lemma_agree_fields_applied(s, f1.drop_last(), f2.drop_last());
        lemma_agree_applied(s, f1.last().1, f2.last().1);
    }
}

/// Unification only succeeds on types that agree: when unifying `t1` and
/// `t2` under `s` gives `Ok`, the two types with `s` applied have the same
/// constructors, names, sizes and field names wherever neither has a
/// variable. In particular types of different constructors, arrays of
/// different sizes and rows with different field names never unify.
pub proof fn law_unify_sound(s: Map<usize, TypeV>, t1: TypeV, t2: TypeV, fuel: nat)
    ensures
        unify_run(s, t1, t2, fuel).1 is Ok ==> agree(apply_type(s, t1), apply_type(s, t2)),
    decreases fuel, 0nat, 0nat,
{
    if fuel > 0 {
        let a1 = apply_type(s, t1);
        let a2 = apply_type(s, t2);
        if unify_outcome(a1, a2) is None && !(a2 is Var) {
            let f = (fuel - 1) as nat;
            match (a1, a2) {
                (TypeV::Con { args: x, .. }, TypeV::Con { args: y, .. }) => lemma_pairs_sound(s, x, y, f),
                (TypeV::Tuple(x), TypeV::Tuple(y)) => lemma_pairs_sound(s, x, y, f),
                (TypeV::Fun { args: x, ret: r1 }, TypeV::Fun { args: y, ret: r2 }) => {
                    lemma_pairs_sound(s, x, y, f);
                    let s1 = unify_pairs_run(s, x, y, f).0;
                    law_unify_sound(s1, *r1, *r2, f);
                    if unify_run(s1, *r1, *r2, f).1 is Ok {
                        lemma_agree_applied(s1, *r1, *r2);
                    }
                },
                (TypeV::Array { elem: e1, .. }, TypeV::Array { elem: e2, .. }) => {
                    law_unify_sound(s, *e1, *e2, f);
                    if unify_run(s, *e1, *e2, f).1 is Ok {
                        lemma_agree_applied(s, *e1, *e2);
                    }
                },
                (TypeV::Row(f1), TypeV::Row(f2)) => lemma_rows_sound(s, f1, f2, f),
                (TypeV::Rec(x), TypeV::Rec(y)) => {
                    law_unify_sound(s, *x, *y, f);
                    if unify_run(s, *x, *y, f).1 is Ok {
                        lemma_agree_applied(s, *x, *y);
                    }
                },
                _ => {},
            }
        }
    }
}

/// Unifying two lists pairwise succeeds only on lists that agree.
pub proof fn lemma_pairs_sound(s: Map<usize, TypeV>, xs: Seq<TypeV>, ys: Seq<TypeV>, fuel: nat)
    requires
        xs.len() == ys.len(),
    ensures
        unify_pairs_run(s, xs, ys, fuel).1 is Ok ==> agree_all(xs, ys),
    decreases fuel, 1nat, xs.len(),
{
    if xs.len() > 0 {
        lemma_pairs_sound(s, xs.drop_last(), ys.drop_last(), fuel);
        let s1 = unify_pairs_run(s, xs.drop_last(), ys.drop_last(), fuel).0;
        law_unify_sound(s1, xs.last(), ys.last(), fuel);
        if unify_run(s1, xs.last(), ys.last(), fuel).1 is Ok {
            lemma_agree_applied(s1, xs.last(), ys.last());
        }
    }
}

/// Unifying two rows field by field succeeds only on rows that agree.
pub proof fn lemma_rows_sound(
    s: Map<usize, TypeV>,
    f1: Seq<(Seq<char>, TypeV)>,
    f2: Seq<(Seq<char>, TypeV)>,
    fuel: nat,
)
    requires
        f1.len() == f2.len(),
    ensures
        unify_rows_run(s, f1, f2, fuel).1 is Ok ==> agree_fields(f1, f2),
    decreases fuel, 1nat, f1.len(),
{
    if f1.len() > 0 {
        lemma_rows_sound(s, f1.drop_last(), f2.drop_last(), fuel);
        let s1 = unify_rows_run(s, f1.drop_last(), f2.drop_last(), fuel).0;
        law_unify_sound(s1, f1.last().1, f2.last().1, fuel);
        if unify_run(s1, f1.last().1, f2.last().1, fuel).1 is Ok {
            lemma_agree_applied(s1, f1.last().1, f2.last().1);
        }
    }
}

/// Every binding of `s2` that `s` does not have already binds a variable
/// to a type in which that variable does not occur.
pub open spec fn new_bindings_acyclic(s: Map<usize, TypeV>, s2: Map<usize, TypeV>) -> bool {
    forall|v: usize|
        #[trigger] s2.contains_key(v) && !(s.contains_key(v) && s2[v] == s[v]) ==> !occurs_in(v, s2[v])
}

/// Bindings made in two steps, each acyclic, are acyclic.
pub proof fn lemma_acyclic_trans(s: Map<usize, TypeV>, s1: Map<usize, TypeV>, s2: Map<usize, TypeV>)
    requires
        new_bindings_acyclic(s, s1),
        new_bindings_acyclic(s1, s2),
    ensures
        new_bindings_acyclic(s, s2),
{
    assert forall|v: usize| #[trigger] s2.contains_key(v) && !(s.contains_key(v) && s2[v] == s[v]) implies !occurs_in(
        v,
        s2[v],
    ) by {
        if s1.contains_key(v) && s2[v] == s1[v] {
            assert(s1.contains_key(v));
        }
    }
}

/// The occurs check: unification never binds a variable to a type that
/// contains it, whether it succeeds or fails.
pub proof fn law_unify_occurs_check(s: Map<usize, TypeV>, t1: TypeV, t2: TypeV, fuel: nat)
    ensures
        new_bindings_acyclic(s, unify_run(s, t1, t2, fuel).0),
    decreases fuel, 0nat, 0nat,
{
    if fuel > 0 {
        let a1 = apply_type(s, t1);
        let a2 = apply_type(s, t2);
        let f = (fuel - 1) as nat;
        if unify_outcome(a1, a2) is None {
            if a2 is Var {
                law_unify_occurs_check(s, a2, a1, f);
            } else {
                match (a1, a2) {
                    (TypeV::Con { args: x, .. }, TypeV::Con { args: y, .. }) => lemma_pairs_occurs_check(s, x, y, f),
                    (TypeV::Tuple(x), TypeV::Tuple(y)) => lemma_pairs_occurs_check(s, x, y, f),
                    (TypeV::Fun { args: x, ret: r1 }, TypeV::Fun { args: y, ret: r2 }) => {
                        lemma_pairs_occurs_check(s, x, y, f);
                        let s1 = unify_pairs_run(s, x, y, f).0;
                        law_unify_occurs_check(s1, *r1, *r2, f);
                        lemma_acyclic_trans(s, s1, unify_run(s1, *r1, *r2, f).0);
                    },
                    (TypeV::Array { elem: e1, .. }, TypeV::Array { elem: e2, .. }) => law_unify_occurs_check(s, *e1, *e2, f),
                    (TypeV::Row(f1), TypeV::Row(f2)) => lemma_rows_occurs_check(s, f1, f2, f),
                    (TypeV::Rec(x), TypeV::Rec(y)) => law_unify_occurs_check(s, *x, *y, f),
                    _ => {},
                }
            }
        }
    }
}

/// `law_unify_occurs_check` for unifying two lists pairwise.
pub proof fn lemma_pairs_occurs_check(s: Map<usize, TypeV>, xs: Seq<TypeV>, ys: Seq<TypeV>, fuel: nat)
    ensures
        new_bindings_acyclic(s, unify_pairs_run(s, xs, ys, fuel).0),
    decreases fuel, 1nat, xs.len(),
{
    if xs.len() > 0 {
        lemma_pairs_occurs_check(s, xs.drop_last(), ys.drop_last(), fuel);
        let s1 = unify_pairs_run(s, xs.drop_last(), ys.drop_last(), fuel).0;
        law_unify_occurs_check(s1, xs.last(), ys.last(), fuel);
        lemma_acyclic_trans(s, s1, unify_run(s1, xs.last(), ys.last(), fuel).0);
    }
}

/// `law_unify_occurs_check` for unifying two rows field by field.
pub proof fn lemma_rows_occurs_check(
    s: Map<usize, TypeV>,
    f1: Seq<(Seq<char>, TypeV)>,
    f2: Seq<(Seq<char>, TypeV)>,
    fuel: nat,
)
    ensures
        new_bindings_acyclic(s, unify_rows_run(s, f1, f2, fuel).0),
    decreases fuel, 1nat, f1.len(),
{
    if f1.len() > 0 {
        lemma_rows_occurs_check(s, f1.drop_last(), f2.drop_last(), fuel);
        let s1 = unify_rows_run(s, f1.drop_last(), f2.drop_last(), fuel).0;
        law_unify_occurs_check(s1, f1.last().1, f2.last().1, fuel);
        lemma_acyclic_trans(s, s1, unify_run(s1, f1.last().1, f2.last().1, fuel).0);
    }
}

impl Substitution {
    /// Unifies two types, extending the substitution so that they agree.
    pub fn unify(&mut self, t1: &Type, t2: &Type) -> (r: Result<(), String>)
        ensures
            old(self)@.dom().subset_of(final(self)@.dom()),
            match unify_outcome(apply_type(old(self)@, t1@), apply_type(old(self)@, t2@)) {
                Some(Ok(None)) => r is Ok && final(self)@ == old(self)@,
                Some(Ok(Some((v, t)))) => r is Ok && final(self)@ == old(self)@.insert(v, t),
                Some(Err(m)) => (r matches Err(e) && e@ == m && final(self)@ == old(self)@),
                None => true,
            },
            (final(self)@, result_view(r)) == unify_run(old(self)@, t1@, t2@, u64::MAX as nat),
            r is Ok ==> agree(apply_type(old(self)@, t1@), apply_type(old(self)@, t2@)),
            new_bindings_acyclic(old(self)@, final(self)@),
    {
        proof {
            law_unify_sound(self@, t1@, t2@, u64::MAX as nat);
            law_unify_occurs_check(self@, t1@, t2@, u64::MAX as nat);
        }
        self.unify_within(t1, t2, u64::MAX)
    }

    /// `unify`, giving up with an error beyond `fuel` nested steps.
    fn unify_within(&mut self, t1: &Type, t2: &Type, fuel: u64) -> (r: Result<(), String>)
        ensures
            old(self)@.dom().subset_of(final(self)@.dom()),
            fuel == 0 ==> (r matches Err(e) && e@ == depth_message() && final(self)@ == old(self)@),
            fuel > 0 ==> match unify_outcome(
                apply_type(old(self)@, t1@),
                apply_type(old(self)@, t2@),
            ) {
                Some(Ok(None)) => r is Ok && final(self)@ == old(self)@,
                Some(Ok(Some((v, t)))) => r is Ok && final(self)@ == old(self)@.insert(v, t),
                Some(Err(m)) => (r matches Err(e) && e@ == m && final(self)@ == old(self)@),
                None => true,
            },
            (final(self)@, result_view(r)) == unify_run(old(self)@, t1@, t2@, fuel as nat),
        decreases fuel, 0nat,
    {
        if fuel == 0 {
            return Err(owned("unification went too deep"));
        }
        let a1 = self.apply(t1);
        let a2 = self.apply(t2);
        match (&a1, &a2) {
            (Type::Var(v1), Type::Var(v2)) if v1.0 == v2.0 => {
                return Ok(());
            },
            _ => {},
        }
        match &a1 {
            Type::Var(v) => {
                if occurs_check(v, &a2) {
                    return Err(owned("occurs check failed"));
                }
                let bound = copy_type(&a2);
                self.insert(TypeVar(v.0), bound);
                return Ok(());
            },
            _ => {},
        }
        match &a2 {
            Type::Var(_) => {
                return self.unify_within(&a2, &a1, fuel - 1);
            },
            _ => {},
        }
        match (&a1, &a2) {
            (Type::Con { name: n1, args: x }, Type::Con { name: n2, args: y }) => {
                proof {
                    lemma_types_view(x@);
                    lemma_types_view(y@);
                }
                if *n1 == *n2 && x.len() == y.len() {
                    return self.unify_pairs(x, y, fuel - 1);
                }
            },
            (Type::Tuple(x), Type::Tuple(y)) => {
                proof {
                    lemma_types_view(x@);
                    lemma_types_view(y@);
                }
                if x.len() == y.len() {
                    return self.unify_pairs(x, y, fuel - 1);
                }
            },
            (Type::Fun { args: x, ret: r1 }, Type::Fun { args: y, ret: r2 }) => {
                proof {
                    lemma_types_view(x@);
                    lemma_types_view(y@);
                }
                if x.len() == y.len() {
                    match self.unify_pairs(x, y, fuel - 1) {
                        Ok(()) => {},
                        Err(e) => {
                            return Err(e);
                        },
                    }
                    return self.unify_within(r1, r2, fuel - 1);
                }
            },
            (Type::Array { elem: e1, size: s1 }, Type::Array { elem: e2, size: s2 }) => {
                let same_size = match (s1, s2) {
                    (Some(m), Some(n)) => *m == *n,
                    (None, None) => true,
                    _ => false,
                };
                if same_size {
                    return self.unify_within(e1, e2, fuel - 1);
                }
            },
            (Type::Row(f1), Type::Row(f2)) => {
                proof {
                    lemma_fields_view(f1@);
                    lemma_fields_view(f2@);
                }
                if f1.len() == f2.len() {
                    return self.unify_rows(f1, f2, fuel - 1);
                } else {
                    return Err(owned("row length mismatch"));
                }
            },
            (Type::Rec(x), Type::Rec(y)) => {
                return self.unify_within(x, y, fuel - 1);
            },
            _ => {},
        }
        let mut message = owned("cannot unify ");
        push_type(&mut message, &a1);
        push_str(&mut message, " and ");
        push_type(&mut message, &a2);
        Err(message)
    }

    /// Unifies the fields of two rows pairwise, in order: the names must agree.
    fn unify_rows(&mut self, f1: &Vec<(String, Type)>, f2: &Vec<(String, Type)>, fuel: u64) -> (r:
        Result<(), String>)
        requires
            f1@.len() == f2@.len(),
        ensures
            old(self)@.dom().subset_of(final(self)@.dom()),
            (final(self)@, result_view(r)) == unify_rows_run(
                old(self)@,
                fields_view(f1@),
                fields_view(f2@),
                fuel as nat,
            ),
        decreases fuel, 1nat,
    {
        proof {
            lemma_fields_view(f1@);
            lemma_fields_view(f2@);
        }
        let ghost v1 = fields_view(f1@);
        let ghost v2 = fields_view(f2@);
        let mut i: usize = 0;
        while i < f1.len()
            invariant
                i <= f1@.len(),
                f1@.len() == f2@.len(),
                v1 == fields_view(f1@),
                v2 == fields_view(f2@),
                v1.len() == f1@.len() && v2.len() == f2@.len(),
                forall|k: int| 0 <= k < f1@.len() ==> #[trigger] v1[k] == (f1@[k].0@, f1@[k].1@),
                forall|k: int| 0 <= k < f2@.len() ==> #[trigger] v2[k] == (f2@[k].0@, f2@[k].1@),
                old(self)@.dom().subset_of(self@.dom()),
                (self@, Ok::<(), Seq<char>>(())) == unify_rows_run(
                    old(self)@,
                    v1.subrange(0, i as int),
                    v2.subrange(0, i as int),
                    fuel as nat,
                ),
            decreases f1.len() - i,
        {
            let ghost p1 = v1.subrange(0, i as int + 1);
            let ghost p2 = v2.subrange(0, i as int + 1);
            assert(p1.drop_last() =~= v1.subrange(0, i as int));
            assert(p2.drop_last() =~= v2.subrange(0, i as int));
            assert(p1.last() == v1[i as int]);
            assert(p2.last() == v2[i as int]);
            if f1[i].0 != f2[i].0 {
                let e = owned("row fields mismatch");
                proof {
                    lemma_rows_run_prefix(old(self)@, v1, v2, i as int + 1, fuel as nat);
                }
                return Err(e);
            }
            match self.unify_within(&f1[i].1, &f2[i].1, fuel) {
                Ok(()) => {},
                Err(e) => {
                    proof {
                        lemma_rows_run_prefix(old(self)@, v1, v2, i as int + 1, fuel as nat);
                    }
                    return Err(e);
                },
            }
            i = i + 1;
        }
        assert(v1.subrange(0, i as int) =~= v1);
        assert(v2.subrange(0, i as int) =~= v2);
        Ok(())
    }

    /// Unifies the types of two lists pairwise, in order, stopping at the first error.
    fn unify_pairs(&mut self, x: &Vec<Type>, y: &Vec<Type>, fuel: u64) -> (r: Result<(), String>)
        requires
            x@.len() == y@.len(),
        ensures
            old(self)@.dom().subset_of(final(self)@.dom()),
            (final(self)@, result_view(r)) == unify_pairs_run(
                old(self)@,
                types_view(x@),
                types_view(y@),
                fuel as nat,
            ),
        decreases fuel, 1nat,
    {
        proof {
            lemma_types_view(x@);
            lemma_types_view(y@);
        }
        let ghost v1 = types_view(x@);
        let ghost v2 = types_view(y@);
        let mut i: usize = 0;
        while i < x.len()
            invariant
                i <= x@.len(),
                x@.len() == y@.len(),
                v1 == types_view(x@),
                v2 == types_view(y@),
                v1.len() == x@.len() && v2.len() == y@.len(),
                forall|k: int| 0 <= k < x@.len() ==> #[trigger] v1[k] == x@[k]@,
                forall|k: int| 0 <= k < y@.len() ==> #[trigger] v2[k] == y@[k]@,
                old(self)@.dom().subset_of(self@.dom()),
                (self@, Ok::<(), Seq<char>>(())) == unify_pairs_run(
                    old(self)@,
                    v1.subrange(0, i as int),
                    v2.subrange(0, i as int),
                    fuel as nat,
                ),
            decreases x.len() - i,
        {
            let ghost p1 = v1.subrange(0, i as int + 1);
            let ghost p2 = v2.subrange(0, i as int + 1);
            assert(p1.drop_last() =~= v1.subrange(0, i as int));
            assert(p2.drop_last() =~= v2.subrange(0, i as int));
            assert(p1.last() == v1[i as int]);
            assert(p2.last() == v2[i as int]);
            match self.unify_within(&x[i], &y[i], fuel) {
                Ok(()) => {},
                Err(e) => {
                    proof {
                        lemma_pairs_run_prefix(old(self)@, v1, v2, i as int + 1, fuel as nat);
                    }
                    return Err(e);
                },
            }
            i = i + 1;
        }
        assert(v1.subrange(0, i as int) =~= v1);
        assert(v2.subrange(0, i as int) =~= v2);
        Ok(())
    }
}

} // verus!

verus! {

/// Unification never binds a variable to a type that holds it, and a
/// variable unified with itself binds nothing.
pub proof fn law_binding_is_acyclic(a1: TypeV, a2: TypeV)
    ensures
        unify_outcome(a1, a2) matches Some(Ok(Some((v, t)))) ==> a1 == TypeV::Var(v) && t == a2
            && !occurs_in(v, t),
        a1 is Var && a1 == a2 ==> unify_outcome(a1, a2) == Some(
            Ok::<Option<(usize, TypeV)>, Seq<char>>(None),
        ),
{
}

/// Once a variable is bound, applying the substitution to the variable
/// gives the type it was bound to.
pub proof fn law_binding_applies(s: Map<usize, TypeV>, v: usize, t: TypeV)
    ensures
        apply_type(s.insert(v, t), TypeV::Var(v)) == t,
{
}

/// A variable can be bound to `t`: `t` is the variable itself or does not
/// contain it.
pub open spec fn bindable(v: usize, t: TypeV) -> bool {
    t == TypeV::Var(v) || !occurs_in(v, t)
}

/// Unifying an unbound variable with a type binds the variable to the type
/// read through the substitution, unless that is the variable itself.
pub proof fn lemma_bind_fresh(s: Map<usize, TypeV>, v: usize, t: TypeV)
    requires
        !s.contains_key(v),
    ensures
        apply_type(s, TypeV::Var(v)) == TypeV::Var(v),
        t is Con && t->Con_args.len() == 0 ==> apply_type(s, t) == t && !occurs_in(v, t),
        apply_type(s, t) == TypeV::Var(v) ==> unify_outcome(TypeV::Var(v), apply_type(s, t)) == Some(
            Ok::<Option<(usize, TypeV)>, Seq<char>>(None),
        ),
        apply_type(s, t) != TypeV::Var(v) && !occurs_in(v, apply_type(s, t)) ==> unify_outcome(
            TypeV::Var(v),
            apply_type(s, t),
        ) == Some(Ok::<Option<(usize, TypeV)>, Seq<char>>(Some((v, apply_type(s, t))))),
{
    if t is Con && t->Con_args.len() == 0 {
        assert(apply_types(s, t->Con_args) =~= t->Con_args);
        assert(!occurs_in_any(v, t->Con_args));
    }
}

} // verus!
