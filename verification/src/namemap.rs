//! A name-keyed map kept as a vector of entries sorted by key, so that
//! iteration order is the lexicographic order of the keys. Insertion with an
//! existing key replaces the prior entry (last write wins).

use vstd::prelude::*;
use crate::strutil::{lex_lt, str_lt, str_eq, lemma_lex_total, lemma_lex_irrefl, lemma_lex_trans};
use vstd::pervasive::VecAdditionalExecFns;

verus! {

/// First value stored under key `k`, if any.
pub open spec fn spec_get<T>(s: Seq<(Seq<char>, T)>, k: Seq<char>) -> Option<T>
    decreases s.len(),
{
    if s.len() == 0 {
        None
    } else if s[0].0 == k {
        Some(s[0].1)
    } else {
        spec_get(s.skip(1), k)
    }
}

/// The entry sequence after a sorted insert of `(k, v)`; an equal key is replaced.
pub open spec fn spec_insert<T>(s: Seq<(Seq<char>, T)>, k: Seq<char>, v: T) -> Seq<(Seq<char>, T)>
    decreases s.len(),
{
    if s.len() == 0 {
        seq![(k, v)]
    } else if lex_lt(k, s[0].0) {
        seq![(k, v)] + s
    } else if k == s[0].0 {
        seq![(k, v)] + s.skip(1)
    } else {
        seq![s[0]] + spec_insert(s.skip(1), k, v)
    }
}

/// The entry sequence after removing the first entry keyed `k`, if any.
pub open spec fn spec_remove<T>(s: Seq<(Seq<char>, T)>, k: Seq<char>) -> Seq<(Seq<char>, T)>
    decreases s.len(),
{
    if s.len() == 0 {
        s
    } else if s[0].0 == k {
        s.skip(1)
    } else {
        seq![s[0]] + spec_remove(s.skip(1), k)
    }
}

/// How many entries carry key `k`.
pub open spec fn spec_count<T>(s: Seq<(Seq<char>, T)>, k: Seq<char>) -> nat
    decreases s.len(),
{
    if s.len() == 0 {
        0
    } else {
        (if s[0].0 == k {
            1nat
        } else {
            0nat
        }) + spec_count(s.skip(1), k)
    }
}

/// The keys are strictly increasing, so each key occurs at most once.
pub open spec fn map_sorted<T>(s: Seq<(Seq<char>, T)>) -> bool {
    forall|i: int, j: int| 0 <= i < j < s.len() ==> lex_lt(#[trigger] s[i].0, #[trigger] s[j].0)
}

proof fn lemma_get_skip<T>(s: Seq<(Seq<char>, T)>, k: Seq<char>, i: int)
    requires
        0 <= i <= s.len(),
        forall|j: int| 0 <= j < i ==> (#[trigger] s[j].0) != k,
    ensures
        spec_get(s, k) == spec_get(s.skip(i), k),
    decreases i,
{
    if i > 0 {
        lemma_get_skip(s.skip(1), k, i - 1);
        assert(s.skip(1).skip(i - 1) =~= s.skip(i));
    } else {
        assert(s.skip(0) =~= s);
    }
}

proof fn lemma_insert_skip<T>(s: Seq<(Seq<char>, T)>, k: Seq<char>, v: T, i: int)
    requires
        0 <= i <= s.len(),
        forall|j: int| 0 <= j < i ==> lex_lt(#[trigger] s[j].0, k),
    ensures
        spec_insert(s, k, v) == s.take(i) + spec_insert(s.skip(i), k, v),
    decreases i,
{
    if i > 0 {
        lemma_lex_irrefl(s[0].0);
        if lex_lt(k, s[0].0) {
            lemma_lex_trans(k, s[0].0, k);
            lemma_lex_irrefl(k);
        }
        assert(k != s[0].0);
        lemma_insert_skip(s.skip(1), k, v, i - 1);
        assert(s.skip(1).skip(i - 1) =~= s.skip(i));
        assert(s.skip(1).take(i - 1) =~= s.take(i).skip(1));
        assert(seq![s[0]] + (s.take(i).skip(1) + spec_insert(s.skip(i), k, v)) =~= s.take(i)
            + spec_insert(s.skip(i), k, v));
    } else {
        assert(s.skip(0) =~= s);
        assert(s.take(0) + spec_insert(s, k, v) =~= spec_insert(s, k, v));
    }
}

proof fn lemma_remove_skip<T>(s: Seq<(Seq<char>, T)>, k: Seq<char>, i: int)
    requires
        0 <= i <= s.len(),
        forall|j: int| 0 <= j < i ==> (#[trigger] s[j].0) != k,
    ensures
        spec_remove(s, k) == s.take(i) + spec_remove(s.skip(i), k),
    decreases i,
{
    if i > 0 {
        lemma_remove_skip(s.skip(1), k, i - 1);
        assert(s.skip(1).skip(i - 1) =~= s.skip(i));
        assert(s.skip(1).take(i - 1) =~= s.take(i).skip(1));
        assert(seq![s[0]] + (s.take(i).skip(1) + spec_remove(s.skip(i), k)) =~= s.take(i)
            + spec_remove(s.skip(i), k));
    } else {
        assert(s.skip(0) =~= s);
        assert(s.take(0) + spec_remove(s, k) =~= spec_remove(s, k));
    }
}

/// Looking up the key just inserted finds the value just inserted.
pub proof fn lemma_get_insert_same<T>(s: Seq<(Seq<char>, T)>, k: Seq<char>, v: T)
    ensures
        spec_get(spec_insert(s, k, v), k) == Some(v),
    decreases s.len(),
{
    if s.len() == 0 {
    } else if lex_lt(k, s[0].0) || k == s[0].0 {
        assert(spec_insert(s, k, v)[0] == (k, v));
    } else {
        lemma_get_insert_same(s.skip(1), k, v);
        assert((seq![s[0]] + spec_insert(s.skip(1), k, v)).skip(1) =~= spec_insert(
            s.skip(1),
            k,
            v,
        ));
    }
}

/// Inserting under one key leaves every other key's lookup unchanged.
pub proof fn lemma_get_insert_other<T>(s: Seq<(Seq<char>, T)>, k: Seq<char>, v: T, k2: Seq<char>)
    requires
        k2 != k,
    ensures
        spec_get(spec_insert(s, k, v), k2) == spec_get(s, k2),
    decreases s.len(),
{
    if s.len() == 0 {
        assert(seq![(k, v)].skip(1) =~= Seq::<(Seq<char>, T)>::empty());
        assert(spec_get(seq![(k, v)], k2) == spec_get(seq![(k, v)].skip(1), k2));
    } else if lex_lt(k, s[0].0) {
        assert((seq![(k, v)] + s).skip(1) =~= s);
    } else if k == s[0].0 {
        assert((seq![(k, v)] + s.skip(1)).skip(1) =~= s.skip(1));
    } else {
        lemma_get_insert_other(s.skip(1), k, v, k2);
        assert((seq![s[0]] + spec_insert(s.skip(1), k, v)).skip(1) =~= spec_insert(
            s.skip(1),
            k,
            v,
        ));
    }
}

/// Every key of the inserted sequence is the new key or a key of the original.
proof fn lemma_insert_keys<T>(s: Seq<(Seq<char>, T)>, k: Seq<char>, v: T)
    ensures
        forall|i: int|
            0 <= i < spec_insert(s, k, v).len() ==> (#[trigger] spec_insert(s, k, v)[i].0) == k
                || (exists|j: int| 0 <= j < s.len() && (#[trigger] s[j].0) == spec_insert(s, k, v)[i].0),
    decreases s.len(),
{
    if s.len() == 0 {
    } else if lex_lt(k, s[0].0) || k == s[0].0 {
    } else {
        lemma_insert_keys(s.skip(1), k, v);
        assert forall|i: int| 0 <= i < spec_insert(s, k, v).len() implies (#[trigger] spec_insert(
            s,
            k,
            v,
        )[i].0) == k || (exists|j: int|
            0 <= j < s.len() && (#[trigger] s[j].0) == spec_insert(s, k, v)[i].0) by {
            if i == 0 {
                assert(s[0].0 == spec_insert(s, k, v)[0].0);
            } else {
                let t = spec_insert(s.skip(1), k, v);
                assert(spec_insert(s, k, v)[i] == t[i - 1]);
                if t[i - 1].0 != k {
                    let j = choose|j: int| 0 <= j < s.skip(1).len() && (#[trigger] s.skip(1)[j].0)
                        == t[i - 1].0;
                    assert(s[j + 1].0 == t[i - 1].0);
                }
            }
        }
    }
}

/// Sorted insertion keeps the entry sequence sorted.
pub proof fn lemma_sorted_insert<T>(s: Seq<(Seq<char>, T)>, k: Seq<char>, v: T)
    requires
        map_sorted(s),
    ensures
        map_sorted(spec_insert(s, k, v)),
    decreases s.len(),
{
    if s.len() == 0 {
    } else if lex_lt(k, s[0].0) {
        let t = seq![(k, v)] + s;
        assert forall|i: int, j: int| 0 <= i < j < t.len() implies lex_lt(
            #[trigger] t[i].0,
            #[trigger] t[j].0,
        ) by {
            if i == 0 && j > 1 {
                lemma_lex_trans(k, s[0].0, s[j - 1].0);
            }
        }
    } else if k == s[0].0 {
        let t = seq![(k, v)] + s.skip(1);
        assert forall|i: int, j: int| 0 <= i < j < t.len() implies lex_lt(
            #[trigger] t[i].0,
            #[trigger] t[j].0,
        ) by {
            if i == 0 {
                assert(t[j].0 == s[j].0);
            }
        }
    } else {
        lemma_lex_total(k, s[0].0);
        assert(map_sorted(s.skip(1)));
        lemma_sorted_insert(s.skip(1), k, v);
        lemma_insert_keys(s.skip(1), k, v);
        let t = seq![s[0]] + spec_insert(s.skip(1), k, v);
        assert forall|i: int, j: int| 0 <= i < j < t.len() implies lex_lt(
            #[trigger] t[i].0,
            #[trigger] t[j].0,
        ) by {
            if i == 0 {
                let u = spec_insert(s.skip(1), k, v);
                assert(t[j].0 == u[j - 1].0);
                if u[j - 1].0 == k {
                    assert(lex_lt(s[0].0, k));
                } else {
                    let m = choose|m: int|
                        0 <= m < s.skip(1).len() && (#[trigger] s.skip(1)[m].0) == u[j - 1].0;
                    assert(s[m + 1].0 == u[j - 1].0);
                    assert(lex_lt(s[0].0, s[m + 1].0));
                }
            }
        }
    }
}

proof fn lemma_count_absent<T>(s: Seq<(Seq<char>, T)>, k: Seq<char>)
    requires
        forall|j: int| 0 <= j < s.len() ==> (#[trigger] s[j].0) != k,
    ensures
        spec_count(s, k) == 0,
    decreases s.len(),
{
    if s.len() > 0 {
        lemma_count_absent(s.skip(1), k);
    }
}

/// In a sorted entry sequence a key occurs once when present, never twice.
pub proof fn lemma_sorted_count<T>(s: Seq<(Seq<char>, T)>, k: Seq<char>)
    requires
        map_sorted(s),
    ensures
        spec_count(s, k) == (if spec_get(s, k) is Some {
            1nat
        } else {
            0nat
        }),
    decreases s.len(),
{
    if s.len() == 0 {
    } else if s[0].0 == k {
        assert forall|j: int| 0 <= j < s.skip(1).len() implies (#[trigger] s.skip(1)[j].0)
            != k by {
            assert(s.skip(1)[j] == s[j + 1]);
            lemma_lex_irrefl(k);
        }
        lemma_count_absent(s.skip(1), k);
    } else {
        assert(map_sorted(s.skip(1)));
        lemma_sorted_count(s.skip(1), k);
    }
}

/// A map from names to values that iterates in lexicographic key order.
pub struct NameMap<T> {
    entries: Vec<(String, T)>,
}

impl<T> View for NameMap<T> {
    type V = Seq<(Seq<char>, T)>;

    closed spec fn view(&self) -> Seq<(Seq<char>, T)> {
        Seq::new(self.entries@.len(), |i: int| (self.entries@[i].0@, self.entries@[i].1))
    }
}

impl<T> NameMap<T> {
    /// The empty map.
    pub fn new() -> (r: Self)
        ensures
            r@ == Seq::<(Seq<char>, T)>::empty(),
            map_sorted(r@),
    {
        let r = NameMap { entries: Vec::new() };
        proof {
            assert(r@ =~= Seq::<(Seq<char>, T)>::empty());
        }
        r
    }

    /// Number of entries.
    pub fn len(&self) -> (n: usize)
        ensures
            n == self@.len(),
    {
        self.entries.len()
    }

    /// Whether the map holds no entry.
    pub fn is_empty(&self) -> (r: bool)
        ensures
            r == (self@.len() == 0),
    {
        self.entries.len() == 0
    }

    /// The key of the `i`-th entry in iteration order.
    pub fn key_at(&self, i: usize) -> (r: &String)
        requires
            i < self@.len(),
        ensures
            r@ == self@[i as int].0,
    {
        &self.entries[i].0
    }

    /// The value of the `i`-th entry in iteration order.
    pub fn val_at(&self, i: usize) -> (r: &T)
        requires
            i < self@.len(),
        ensures
            *r == self@[i as int].1,
    {
        &self.entries[i].1
    }

    /// Looks up the value stored under `k`.
    pub fn get(&self, k: &str) -> (r: Option<&T>)
        ensures
            match r {
                Some(v) => spec_get(self@, k@) == Some(*v),
                None => spec_get(self@, k@) is None,
            },
    {
        let n = self.entries.len();
        let mut i: usize = 0;
        loop
            invariant
                i <= n,
                n == self@.len(),
                forall|j: int| 0 <= j < i ==> (#[trigger] self@[j].0) != k@,
            decreases n - i,
        {
            if i >= n {
                proof {
                    lemma_get_skip(self@, k@, i as int);
                    assert(self@.skip(i as int).len() == 0);
                }
                return None;
            }
            if str_eq(self.entries[i].0.as_str(), k) {
                proof {
                    lemma_get_skip(self@, k@, i as int);
                    assert(self@.skip(i as int)[0] == self@[i as int]);
                }
                return Some(&self.entries[i].1);
            }
            i = i + 1;
        }
    }

    /// Whether some entry is stored under `k`.
    pub fn contains_key(&self, k: &str) -> (r: bool)
        ensures
            r == (spec_get(self@, k@) is Some),
    {
        match self.get(k) {
            Some(_) => true,
            None => false,
        }
    }

    /// Stores `v` under `k`, replacing any prior entry with that key.
    pub fn insert(&mut self, k: String, v: T)
        ensures
            final(self)@ == spec_insert(old(self)@, k@, v),
            map_sorted(old(self)@) ==> map_sorted(final(self)@),
    {
        proof {
            if map_sorted(self@) {
                lemma_sorted_insert(self@, k@, v);
            }
        }
        let ghost s0 = self@;
        let ghost kk = k@;
        let n = self.entries.len();
        let mut i: usize = 0;
        loop
            invariant
                i <= n,
                self@ == old(self)@,
                s0 == old(self)@,
                kk == k@,
                map_sorted(old(self)@) ==> map_sorted(spec_insert(old(self)@, kk, v)),
                n == self@.len(),
                forall|j: int| 0 <= j < i ==> lex_lt(#[trigger] self@[j].0, k@),
            decreases n - i,
        {
            if i >= n {
                proof {
                    lemma_insert_skip(self@, k@, v, i as int);
                    assert(self@.skip(i as int).len() == 0);
                }
                self.entries.push((k, v));
                proof {
                    assert(s0.take(s0.len() as int) =~= s0);
                    assert(self@ =~= s0 + spec_insert(s0.skip(s0.len() as int), kk, v));
                }
                return;
            }
            if str_lt(k.as_str(), self.entries[i].0.as_str()) {
                proof {
                    lemma_insert_skip(self@, k@, v, i as int);
                    assert(self@.skip(i as int)[0] == self@[i as int]);
                }
                self.entries.insert(i, (k, v));
                proof {
                    assert(self@ =~= s0.take(i as int) + (seq![(kk, v)] + s0.skip(i as int)));
                }
                return;
            }
            if str_eq(k.as_str(), self.entries[i].0.as_str()) {
                proof {
                    lemma_insert_skip(self@, k@, v, i as int);
                    assert(self@.skip(i as int)[0] == self@[i as int]);
                }
                self.entries.set(i, (k, v));
                proof {
                    assert(self@ =~= s0.take(i as int) + (seq![(kk, v)] + s0.skip(i as int).skip(
                        1,
                    )));
                }
                return;
            }
            proof {
                lemma_lex_total(k@, self@[i as int].0);
            }
            i = i + 1;
        }
    }

    /// Removes and returns the entry stored under `k`, if any.
    pub fn remove(&mut self, k: &str) -> (r: Option<T>)
        ensures
            final(self)@ == spec_remove(old(self)@, k@),
            match r {
                Some(v) => spec_get(old(self)@, k@) == Some(v),
                None => spec_get(old(self)@, k@) is None,
            },
    {
        let ghost s0 = self@;
        let n = self.entries.len();
        let mut i: usize = 0;
        loop
            invariant
                i <= n,
                self@ == old(self)@,
                s0 == old(self)@,
                n == self@.len(),
                forall|j: int| 0 <= j < i ==> (#[trigger] self@[j].0) != k@,
            decreases n - i,
        {
            if i >= n {
                proof {
                    lemma_get_skip(self@, k@, i as int);
                    lemma_remove_skip(self@, k@, i as int);
                    assert(self@.skip(i as int).len() == 0);
                    assert(s0.take(i as int) + s0.skip(i as int) =~= s0);
                }
                return None;
            }
            if str_eq(self.entries[i].0.as_str(), k) {
                proof {
                    lemma_get_skip(self@, k@, i as int);
                    lemma_remove_skip(self@, k@, i as int);
                    assert(self@.skip(i as int)[0] == self@[i as int]);
                    assert(self@.skip(i as int).skip(1) =~= self@.skip(i as int + 1));
                }
                let e = self.entries.remove(i);
                proof {
                    assert(self@ =~= s0.take(i as int) + s0.skip(i as int + 1));
                }
                return Some(e.1);
            }
            i = i + 1;
        }
    }
}

} // verus!
