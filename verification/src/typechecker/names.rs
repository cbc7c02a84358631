//! A table from names to values that remembers the order in which names
//! were first bound.
use vstd::prelude::*;
use crate::text::str_eq;

verus! {

/// The names of a list of entries, in order.
pub open spec fn entry_names<V>(es: Seq<(String, V)>) -> Seq<Seq<char>> {
    es.map_values(|e: (String, V)| e.0@)
}

/// No name occurs twice among the entries.
pub open spec fn distinct_names<V>(es: Seq<(String, V)>) -> bool {
    forall|a: int, b: int| 0 <= a < b < es.len() ==> (#[trigger] es[a]).0@ != (#[trigger] es[b]).0@
}

/// The map that a list of entries with distinct names stands for.
pub open spec fn entries_as_map<V>(es: Seq<(String, V)>) -> Map<Seq<char>, V>
    decreases es.len(),
{
    if es.len() == 0 {
        Map::empty()
    } else {
        entries_as_map(es.drop_last()).insert(es.last().0@, es.last().1)
    }
}

/// What `entries_as_map` holds: each name of the list, bound to the value
/// beside it.
pub proof fn lemma_entries_as_map<V>(es: Seq<(String, V)>)
    requires
        distinct_names(es),
    ensures
        forall|k: Seq<char>| #[trigger]
            entries_as_map(es).contains_key(k) <==> exists|i: int|
                0 <= i < es.len() && (#[trigger] es[i]).0@ == k,
        forall|i: int| 0 <= i < es.len() ==> #[trigger] entries_as_map(es)[es[i].0@] == es[i].1,
    decreases es.len(),
{
    if es.len() > 0 {
        let init = es.drop_last();
        assert(distinct_names(init)) by {
            assert forall|a: int, b: int| 0 <= a < b < init.len() implies (#[trigger] init[a]).0@
                != (#[trigger] init[b]).0@ by {
                assert(init[a] == es[a] && init[b] == es[b]);
            }
        }
        lemma_entries_as_map(init);
        let m = entries_as_map(es);
        assert forall|k: Seq<char>| #[trigger] m.contains_key(k) implies exists|i: int|
            0 <= i < es.len() && (#[trigger] es[i]).0@ == k by {
            if k != es.last().0@ {
                assert(entries_as_map(init).contains_key(k));
                let j = choose|j: int| 0 <= j < init.len() && (#[trigger] init[j]).0@ == k;
                assert(es[j] == init[j]);
                assert(0 <= j < es.len() && es[j].0@ == k);
            } else {
                assert(es[es.len() - 1].0@ == k);
            }
        }
        assert forall|i: int| 0 <= i < es.len() implies #[trigger] m[es[i].0@] == es[i].1 by {
            if i < es.len() - 1 {
                assert(init[i] == es[i]);
                assert(es[i].0@ != es[es.len() - 1].0@);
                assert(entries_as_map(init)[init[i].0@] == init[i].1);
            }
        }
        assert forall|k: Seq<char>|
            (exists|i: int| 0 <= i < es.len() && (#[trigger] es[i]).0@ == k) implies #[trigger]
            m.contains_key(k) by {
            let i = choose|i: int| 0 <= i < es.len() && (#[trigger] es[i]).0@ == k;
            if i < es.len() - 1 {
                assert(init[i] == es[i]);
                assert(0 <= i < init.len() && init[i].0@ == k);
                assert(entries_as_map(init).contains_key(k));
            }
        }
    }
}

/// A name bound by a list of entries is bound to the value of one of the
/// entries with that name.
pub proof fn lemma_entries_as_map_value<V>(es: Seq<(String, V)>, k: Seq<char>)
    requires
        entries_as_map(es).contains_key(k),
    ensures
        exists|i: int| 0 <= i < es.len() && (#[trigger] es[i]).0@ == k && entries_as_map(es)[k] == es[i].1,
    decreases es.len(),
{
    if es.len() > 0 && es.last().0@ != k {
        lemma_entries_as_map_value(es.drop_last(), k);
        let i = choose|i: int|
            0 <= i < es.drop_last().len() && (#[trigger] es.drop_last()[i]).0@ == k && entries_as_map(es.drop_last())[k]
                == es.drop_last()[i].1;
        assert(es[i] == es.drop_last()[i]);
    } else if es.len() > 0 {
        assert(es[es.len() - 1] == es.last());
    }
}

/// A table from names to values. A name is bound at most once; binding a
/// name again replaces its value in place, so the table keeps the order in
/// which names were first bound.
#[derive(Debug)]
pub struct NameMap<V> {
    entries: Vec<(String, V)>,
}

impl<V> View for NameMap<V> {
    type V = Map<Seq<char>, V>;

    closed spec fn view(&self) -> Map<Seq<char>, V> {
        entries_as_map(self.entries@)
    }
}

impl<V> NameMap<V> {
    #[verifier::type_invariant]
    spec fn well_formed(self) -> bool {
        distinct_names(self.entries@)
    }

    /// The bindings in the order in which their names were first bound.
    pub closed spec fn bindings(&self) -> Seq<(String, V)> {
        self.entries@
    }

    /// The table maps each name to the value of its binding.
    pub proof fn lemma_view_of_bindings(&self)
        ensures
            self@ == entries_as_map(self.bindings()),
    {
    }

    /// The empty table.
    pub fn new() -> (r: Self)
        ensures
            r@ == Map::<Seq<char>, V>::empty(),
            r.bindings() == Seq::<(String, V)>::empty(),
    {
        NameMap { entries: Vec::new() }
    }

    /// The position of the binding of `k`, if any.
    fn position(&self, k: &str) -> (r: Option<usize>)
        ensures
            r matches Some(i) ==> i < self.entries@.len() && self.entries@[i as int].0@ == k@,
            r is None ==> forall|j: int|
                0 <= j < self.entries@.len() ==> (#[trigger] self.entries@[j]).0@ != k@,
    {
        let mut i: usize = 0;
        while i < self.entries.len()
            invariant
                i <= self.entries@.len(),
                forall|j: int| 0 <= j < i ==> (#[trigger] self.entries@[j]).0@ != k@,
            decreases self.entries.len() - i,
        {
            if str_eq(self.entries[i].0.as_str(), k) {
                return Some(i);
            }
            i = i + 1;
        }
        None
    }

    /// The number of bindings; the bindings have distinct names and are
    /// what the view maps.
    pub fn len(&self) -> (r: usize)
        ensures
            r == self.bindings().len(),
            distinct_names(self.bindings()),
            self@ == entries_as_map(self.bindings()),
    {
        proof {
            use_type_invariant(self);
        }
        self.entries.len()
    }

    /// The binding at position `i`, in the order of first binding.
    pub fn binding(&self, i: usize) -> (r: (&String, &V))
        requires
            i < self.bindings().len(),
        ensures
            *r.0 == self.bindings()[i as int].0,
            *r.1 == self.bindings()[i as int].1,
    {
        (&self.entries[i].0, &self.entries[i].1)
    }

    /// Whether `k` is bound.
    pub fn contains_key(&self, k: &str) -> (r: bool)
        ensures
            r == self@.contains_key(k@),
    {
        proof {
            use_type_invariant(self);
            lemma_entries_as_map(self.entries@);
        }
        self.position(k).is_some()
    }

    /// The value bound to `k`, if any.
    pub fn get(&self, k: &str) -> (r: Option<&V>)
        ensures
            r is Some <==> self@.contains_key(k@),
            r matches Some(v) ==> *v == self@[k@],
    {
        proof {
            use_type_invariant(self);
            lemma_entries_as_map(self.entries@);
        }
        match self.position(k) {
            Some(i) => Some(&self.entries[i].1),
            None => None,
        }
    }

    /// Binds `k` to `v`: in place where `k` is bound, else at the end.
    pub fn insert(&mut self, k: String, v: V)
        ensures
            final(self)@ == old(self)@.insert(k@, v),
            old(self)@.contains_key(k@) ==> entry_names(final(self).bindings()) == entry_names(
                old(self).bindings(),
            ),
            !old(self)@.contains_key(k@) ==> entry_names(final(self).bindings()) == entry_names(
                old(self).bindings(),
            ).push(k@),
    {
        proof {
            use_type_invariant(&*self);
            lemma_entries_as_map(self.entries@);
        }
        let ghost old_entries = self.entries@;
        let ghost kv = k@;
        let ghost vv = v;
        let found = self.position(k.as_str());
        let mut entries: Vec<(String, V)> = Vec::new();
        std::mem::swap(&mut entries, &mut self.entries);
        match found {
            Some(i) => {
                entries.set(i, (k, v));
                let ghost new_entries = entries@;
                assert(distinct_names(new_entries)) by {
                    assert forall|a: int, b: int| 0 <= a < b < new_entries.len() implies (
                    #[trigger] new_entries[a]).0@ != (#[trigger] new_entries[b]).0@ by {
                        assert(old_entries[a].0@ != old_entries[b].0@);
                    }
                }
                proof {
                    lemma_entries_as_map(new_entries);
                    let m = entries_as_map(old_entries).insert(kv, vv);
                    assert forall|q: Seq<char>| #[trigger]
                        entries_as_map(new_entries).contains_key(q) implies m.contains_key(q) by {
                        let j = choose|j: int| 0 <= j < new_entries.len() && (#[trigger] new_entries[j]).0@ == q;
                        if j != i {
                            assert(old_entries[j] == new_entries[j]);
                        }
                    }
                    assert forall|q: Seq<char>| #[trigger]
                        m.contains_key(q) implies entries_as_map(new_entries).contains_key(q) by {
                        if q != kv {
                            let j = choose|j: int| 0 <= j < old_entries.len() && (#[trigger] old_entries[j]).0@ == q;
                            assert(old_entries[j] == new_entries[j]);
                        } else {
                            assert(new_entries[i as int].0@ == q);
                        }
                    }
                    assert forall|q: Seq<char>| #[trigger]
                        entries_as_map(new_entries).contains_key(q) implies entries_as_map(new_entries)[q]
                        == m[q] by {
                        let j = choose|j: int| 0 <= j < new_entries.len() && (#[trigger] new_entries[j]).0@ == q;
                        if j != i {
                            assert(old_entries[j] == new_entries[j]);
                        }
                    }
                    assert(entries_as_map(new_entries) =~= m);
                    assert(entry_names(new_entries) =~= entry_names(old_entries));
                }
            },
            None => {
                entries.push((k, v));
                assert(entries@.drop_last() =~= old_entries);
                assert(distinct_names(entries@)) by {
                    assert forall|a: int, b: int| 0 <= a < b < entries@.len() implies (
                    #[trigger] entries@[a]).0@ != (#[trigger] entries@[b]).0@ by {
                        if b < entries@.len() - 1 {
                            assert(old_entries[a] == entries@[a] && old_entries[b] == entries@[b]);
                        } else {
                            assert(old_entries[a] == entries@[a]);
                        }
                    }
                }
                assert(entry_names(entries@) =~= entry_names(old_entries).push(kv));
            },
        }
        self.entries = entries;
    }

    /// Where `k` is bound, binds it to `v` in place and gives back the value
    /// it was bound to; else changes nothing.
    pub fn swap_value(&mut self, k: &str, v: V) -> (r: Option<V>)
        ensures
            old(self)@.contains_key(k@) ==> r == Some(old(self)@[k@]),
            old(self)@.contains_key(k@) ==> final(self)@ == old(self)@.insert(k@, v),
            old(self)@.contains_key(k@) ==> entry_names(final(self).bindings()) == entry_names(old(self).bindings()),
            !old(self)@.contains_key(k@) ==> r is None && final(self)@ == old(self)@,
            !old(self)@.contains_key(k@) ==> final(self).bindings() == old(self).bindings(),
    {
        proof {
            use_type_invariant(&*self);
            lemma_entries_as_map(self.entries@);
        }
        let ghost old_entries = self.entries@;
        let ghost kv = k@;
        let ghost vv = v;
        match self.position(k) {
            Some(i) => {
                let mut entries: Vec<(String, V)> = Vec::new();
                std::mem::swap(&mut entries, &mut self.entries);
                let (name, old_value) = entries.remove(i);
                entries.insert(i, (name, v));
                let ghost new_entries = entries@;
                assert(new_entries =~= old_entries.update(i as int, (old_entries[i as int].0, vv)));
                assert(distinct_names(new_entries)) by {
                    assert forall|a: int, b: int| 0 <= a < b < new_entries.len() implies (
                    #[trigger] new_entries[a]).0@ != (#[trigger] new_entries[b]).0@ by {
                        assert(old_entries[a].0@ != old_entries[b].0@);
                    }
                }
                proof {
                    lemma_entries_as_map(new_entries);
                    let m = entries_as_map(old_entries).insert(kv, vv);
                    assert forall|q: Seq<char>| #[trigger]
                        entries_as_map(new_entries).contains_key(q) implies m.contains_key(q) by {
                        let j = choose|j: int| 0 <= j < new_entries.len() && (#[trigger] new_entries[j]).0@ == q;
                        if j != i {
                            assert(old_entries[j] == new_entries[j]);
                        }
                    }
                    assert forall|q: Seq<char>| #[trigger]
                        m.contains_key(q) implies entries_as_map(new_entries).contains_key(q) by {
                        if q != kv {
                            let j = choose|j: int| 0 <= j < old_entries.len() && (#[trigger] old_entries[j]).0@ == q;
                            assert(old_entries[j] == new_entries[j]);
                        } else {
                            assert(new_entries[i as int].0@ == q);
                        }
                    }
                    assert forall|q: Seq<char>| #[trigger]
                        entries_as_map(new_entries).contains_key(q) implies entries_as_map(new_entries)[q]
                        == m[q] by {
                        let j = choose|j: int| 0 <= j < new_entries.len() && (#[trigger] new_entries[j]).0@ == q;
                        if j != i {
                            assert(old_entries[j] == new_entries[j]);
                        }
                    }
                    assert(entries_as_map(new_entries) =~= m);
                    assert(entry_names(new_entries) =~= entry_names(old_entries));
                }
                self.entries = entries;
                Some(old_value)
            },
            None => None,
        }
    }

    /// Removes the binding of `k`, if any.
    pub fn remove(&mut self, k: &str)
        ensures
            final(self)@ == old(self)@.remove(k@),
    {
        proof {
            use_type_invariant(&*self);
            lemma_entries_as_map(self.entries@);
        }
        let ghost old_entries = self.entries@;
        match self.position(k) {
            Some(i) => {
                let mut entries: Vec<(String, V)> = Vec::new();
                std::mem::swap(&mut entries, &mut self.entries);
                let _ = entries.remove(i);
                let ghost new_entries = entries@;
                assert(new_entries =~= old_entries.remove(i as int));
                assert(distinct_names(new_entries)) by {
                    assert forall|a: int, b: int| 0 <= a < b < new_entries.len() implies (
                    #[trigger] new_entries[a]).0@ != (#[trigger] new_entries[b]).0@ by {
                        if a < i {
                            if b < i {
                                assert(old_entries[a].0@ != old_entries[b].0@);
                            } else {
                                assert(old_entries[a].0@ != old_entries[b + 1].0@);
                            }
                        } else {
                            assert(old_entries[a + 1].0@ != old_entries[b + 1].0@);
                        }
                    }
                }
                proof {
                    lemma_entries_as_map(new_entries);
                    let m = entries_as_map(old_entries).remove(k@);
                    assert forall|q: Seq<char>| #[trigger]
                        entries_as_map(new_entries).contains_key(q) == m.contains_key(q) by {
                        if entries_as_map(new_entries).contains_key(q) {
                            let j = choose|j: int| 0 <= j < new_entries.len() && (#[trigger] new_entries[j]).0@ == q;
                            if j < i {
                                assert(old_entries[j] == new_entries[j]);
                                assert(old_entries[j].0@ != old_entries[i as int].0@);
                            } else {
                                assert(old_entries[j + 1] == new_entries[j]);
                                assert(old_entries[j + 1].0@ != old_entries[i as int].0@);
                            }
                        }
                        if m.contains_key(q) {
                            let j = choose|j: int| 0 <= j < old_entries.len() && (#[trigger] old_entries[j]).0@ == q;
                            if j < i {
                                assert(new_entries[j] == old_entries[j]);
                            } else {
                                assert(j != i);
                                assert(new_entries[j - 1] == old_entries[j]);
                            }
                        }
                    }
                    assert forall|q: Seq<char>| #[trigger]
                        entries_as_map(new_entries).contains_key(q) implies entries_as_map(new_entries)[q]
                        == m[q] by {
                        let j = choose|j: int| 0 <= j < new_entries.len() && (#[trigger] new_entries[j]).0@ == q;
                        if j < i {
                            assert(old_entries[j] == new_entries[j]);
                        } else {
                            assert(old_entries[j + 1] == new_entries[j]);
                        }
                    }
                    assert(entries_as_map(new_entries) =~= m);
                }
                self.entries = entries;
            },
            None => {
                assert(old_entries.len() == self.entries@.len());
                assert(entries_as_map(old_entries).remove(k@) =~= entries_as_map(old_entries));
            },
        }
    }
}

} // verus!
