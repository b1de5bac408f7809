//! A mapping from names to values that keeps one entry per name: a later insertion under a
//! name replaces the value where it stands.
use vstd::prelude::*;

verus! {

/// Position of the first entry under key `k`.
pub open spec fn index_of<W>(es: Seq<(Seq<char>, W)>, k: Seq<char>) -> Option<int>
    decreases es.len(),
{
    if es.len() == 0 {
        None
    } else {
        match index_of(es.drop_last(), k) {
            Some(i) => Some(i),
            None => if es.last().0 == k {
                Some(es.len() - 1)
            } else {
                None
            },
        }
    }
}

/// The entries after inserting `w` under `k`: the entry under `k` takes the new value, or
/// a new entry goes at the end.
pub open spec fn seq_insert<W>(es: Seq<(Seq<char>, W)>, k: Seq<char>, w: W) -> Seq<(Seq<char>, W)> {
    match index_of(es, k) {
        Some(i) => es.update(i, (k, w)),
        None => es.push((k, w)),
    }
}

/// The value under `k`, if any.
pub open spec fn seq_get<W>(es: Seq<(Seq<char>, W)>, k: Seq<char>) -> Option<W> {
    match index_of(es, k) {
        Some(i) => Some(es[i].1),
        None => None,
    }
}

/// The views of a map's entries.
pub open spec fn entry_views<V: View>(es: Seq<(String, V)>) -> Seq<(Seq<char>, V::V)> {
    es.map_values(|e: (String, V)| (e.0@, e.1@))
}

pub proof fn lemma_index_of_bounds<W>(es: Seq<(Seq<char>, W)>, k: Seq<char>)
    ensures
        index_of(es, k) matches Some(i) ==> 0 <= i < es.len() && es[i].0 == k,
        index_of(es, k) is None ==> forall|j: int| 0 <= j < es.len() ==> es[j].0 != k,
    decreases es.len(),
{
    if es.len() > 0 {
        lemma_index_of_bounds(es.drop_last(), k);
        if index_of(es, k) is None {
            assert forall|j: int| 0 <= j < es.len() implies es[j].0 != k by {
                if j < es.len() - 1 {
                    assert(es.drop_last()[j] == es[j]);
                }
            }
        }
    }
}

proof fn lemma_index_of_prefix<W>(es: Seq<(Seq<char>, W)>, k: Seq<char>, j: int)
    requires
        0 <= j <= es.len(),
        index_of(es.take(j), k) is Some,
    ensures
        index_of(es, k) == index_of(es.take(j), k),
    decreases es.len() - j,
{
    if j < es.len() {
        assert(es.take(j + 1).drop_last() =~= es.take(j));
        lemma_index_of_prefix(es, k, j + 1);
    } else {
        assert(es.take(j) =~= es);
    }
}

/// A value that can be copied with its view kept.
pub trait Duplicate: View + Sized {
    fn duplicate(&self) -> (r: Self)
        ensures
            r@ == self@,
    ;
}

/// A mapping from names to values, with one entry per name in the order in which names
/// first came.
#[derive(Debug, PartialEq)]
pub struct NameMap<V> {
    entries: Vec<(String, V)>,
}

impl<V: View> View for NameMap<V> {
    type V = Seq<(Seq<char>, V::V)>;

    closed spec fn view(&self) -> Seq<(Seq<char>, V::V)> {
        entry_views(self.entries@)
    }
}

impl<V: View> NameMap<V> {
    pub fn new() -> (r: Self)
        ensures
            r@ == Seq::<(Seq<char>, V::V)>::empty(),
    {
        let r = NameMap { entries: Vec::new() };
        assert(r@ =~= Seq::<(Seq<char>, V::V)>::empty());
        r
    }

    /// The entries, in order.
    pub fn entries(&self) -> (r: &Vec<(String, V)>)
        ensures
            entry_views(r@) == self@,
    {
        &self.entries
    }

    pub fn len(&self) -> (r: usize)
        ensures
            r == self@.len(),
    {
        self.entries.len()
    }

    fn position(&self, k: &String) -> (r: Option<usize>)
        ensures
            r matches Some(i) ==> index_of(self@, k@) == Some(i as int),
            r is None ==> index_of(self@, k@) is None,
    {
        let ghost es = self@;
        let mut i: usize = 0;
        while i < self.entries.len()
            invariant
                es == self@,
                es == entry_views(self.entries@),
                i <= es.len(),
                index_of(es.take(i as int), k@) is None,
            decreases es.len() - i,
        {
            assert(es.take(i + 1).drop_last() =~= es.take(i as int));
            assert(es[i as int].0 == self.entries@[i as int].0@);
            if self.entries[i].0 == *k {
                assert(es[i as int].0 == k@);
                assert(index_of(es.take(i + 1), k@) == Some(i as int));
                proof {
                    lemma_index_of_prefix(es, k@, i + 1);
                }
                return Some(i);
            }
            i = i + 1;
        }
        assert(es.take(i as int) =~= es);
        None
    }

    /// The value under `k`, if any.
    pub fn get(&self, k: &String) -> (r: Option<&V>)
        ensures
            match seq_get(self@, k@) {
                Some(w) => r matches Some(x) && (*x)@ == w,
                None => r is None,
            },
    {
        proof {
            lemma_index_of_bounds(self@, k@);
        }
        match self.position(k) {
            Some(i) => {
                let e = &self.entries[i];
                assert(index_of(self@, k@) == Some(i as int));
                assert(seq_get(self@, k@) == Some(self@[i as int].1));
                assert(self@[i as int].1 == e.1@);
                Some(&e.1)
            },
            None => None,
        }
    }

    /// Puts `v` under `k`, in place of a value already there.
    pub fn insert(&mut self, k: String, v: V)
        ensures
            final(self)@ == seq_insert(old(self)@, k@, v@),
    {
        proof {
            lemma_index_of_bounds(self@, k@);
        }
        let ghost before = self@;
        match self.position(&k) {
            Some(i) => {
                self.entries.set(i, (k, v));
                assert(self@ =~= before.update(i as int, (k@, v@)));
            },
            None => {
                self.entries.push((k, v));
                assert(self@ =~= before.push((k@, v@)));
            },
        }
    }
}

impl<V: Duplicate> Duplicate for NameMap<V> {
    fn duplicate(&self) -> (r: NameMap<V>) {
        let mut entries: Vec<(String, V)> = Vec::new();
        let mut i: usize = 0;
        while i < self.entries.len()
            invariant
                i <= self.entries@.len(),
                entry_views(entries@) == entry_views(self.entries@.take(i as int)),
            decreases self.entries@.len() - i,
        {
            let ghost before = entries@;
            let e = &self.entries[i];
            entries.push((e.0.clone(), e.1.duplicate()));
            proof {
                assert(entry_views(entries@) =~= entry_views(before).push((e.0@, e.1@)));
                assert(entry_views(self.entries@.take(i + 1)) =~= entry_views(
                    self.entries@.take(i as int),
                ).push((e.0@, e.1@)));
            }
            i = i + 1;
        }
        assert(self.entries@.take(i as int) =~= self.entries@);
        NameMap { entries }
    }
}

} // verus!
