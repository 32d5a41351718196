//! Small association maps backing the component tables and the terrain
//! store. Rows are kept in a vector with pairwise-distinct keys; the
//! abstract value is the finite map the rows denote.

use vstd::prelude::*;

verus! {

/// Keys (and, for value filters, values) of association maps: types whose
/// executable equality decides mathematical equality.
pub trait KeyEq: Sized + Copy {
    fn keq(&self, other: &Self) -> (r: bool)
        ensures
            r == (*self == *other),
    ;
}

/// The map denoted by a row sequence; a later row with the same key would
/// win, though well-formed maps never hold one.
pub open spec fn m_of<K, V>(rows: Seq<(K, V)>) -> Map<K, V>
    decreases rows.len(),
{
    if rows.len() == 0 {
        Map::empty()
    } else {
        m_of(rows.drop_last()).insert(rows.last().0, rows.last().1)
    }
}

/// Pairwise-distinct keys.
pub open spec fn uniq<K, V>(rows: Seq<(K, V)>) -> bool {
    forall|i: int, j: int|
        #![trigger rows[i], rows[j]]
        0 <= i && i < j && j < rows.len() ==> rows[i].0 != rows[j].0
}

pub proof fn lemma_m_contains<K, V>(rows: Seq<(K, V)>, k: K)
    ensures
        m_of(rows).contains_key(k) <==> (exists|i: int|
            0 <= i < rows.len() && rows[i].0 == k),
    decreases rows.len(),
{
    if rows.len() == 0 {
    } else {
        lemma_m_contains(rows.drop_last(), k);
        if rows.last().0 == k {
            assert(rows[rows.len() - 1].0 == k);
        } else {
            if exists|i: int| 0 <= i < rows.len() && rows[i].0 == k {
                let i = choose|i: int| 0 <= i < rows.len() && rows[i].0 == k;
                assert(i < rows.len() - 1);
                assert(rows.drop_last()[i].0 == k);
            }
            if exists|i: int| 0 <= i < rows.drop_last().len() && rows.drop_last()[i].0 == k {
                let i = choose|i: int|
                    0 <= i < rows.drop_last().len() && rows.drop_last()[i].0 == k;
                assert(rows[i].0 == k);
            }
        }
    }
}

pub proof fn lemma_uniq_drop_last<K, V>(rows: Seq<(K, V)>)
    requires
        uniq(rows),
        rows.len() > 0,
    ensures
        uniq(rows.drop_last()),
{
    assert forall|i: int, j: int|
        #![trigger rows.drop_last()[i], rows.drop_last()[j]]
        0 <= i && i < j && j < rows.drop_last().len() implies rows.drop_last()[i].0
        != rows.drop_last()[j].0 by {
        assert(rows.drop_last()[i] == rows[i]);
        assert(rows.drop_last()[j] == rows[j]);
    }
}

pub proof fn lemma_m_index<K, V>(rows: Seq<(K, V)>, i: int)
    requires
        uniq(rows),
        0 <= i < rows.len(),
    ensures
        m_of(rows).contains_key(rows[i].0),
        m_of(rows)[rows[i].0] == rows[i].1,
    decreases rows.len(),
{
    if i == rows.len() - 1 {
    } else {
        lemma_uniq_drop_last(rows);
        lemma_m_index(rows.drop_last(), i);
        assert(rows.drop_last()[i] == rows[i]);
        assert(rows.last().0 != rows[i].0);
    }
}

pub proof fn lemma_m_update<K, V>(rows: Seq<(K, V)>, i: int, v: V)
    requires
        uniq(rows),
        0 <= i < rows.len(),
    ensures
        uniq(rows.update(i, (rows[i].0, v))),
        m_of(rows.update(i, (rows[i].0, v))) == m_of(rows).insert(rows[i].0, v),
    decreases rows.len(),
{
    let k = rows[i].0;
    let upd = rows.update(i, (k, v));
    assert forall|a: int, b: int|
        #![trigger upd[a], upd[b]]
        0 <= a && a < b && b < upd.len() implies upd[a].0 != upd[b].0 by {
        assert(rows[a].0 == upd[a].0);
        assert(rows[b].0 == upd[b].0);
    }
    if i == rows.len() - 1 {
        assert(upd.drop_last() =~= rows.drop_last());
        assert(m_of(upd) == m_of(rows.drop_last()).insert(k, v));
        assert(m_of(rows).insert(k, v) =~= m_of(rows.drop_last()).insert(k, v));
    } else {
        lemma_uniq_drop_last(rows);
        assert(upd.drop_last() =~= rows.drop_last().update(i, (rows.drop_last()[i].0, v)));
        lemma_m_update(rows.drop_last(), i, v);
        assert(rows.last().0 != k);
        assert(m_of(upd) == m_of(rows.drop_last()).insert(k, v).insert(
            rows.last().0,
            rows.last().1,
        ));
        assert(m_of(rows.drop_last()).insert(k, v).insert(rows.last().0, rows.last().1)
            =~= m_of(rows.drop_last()).insert(rows.last().0, rows.last().1).insert(k, v));
    }
}

pub proof fn lemma_m_remove_at<K, V>(rows: Seq<(K, V)>, i: int)
    requires
        uniq(rows),
        0 <= i < rows.len(),
    ensures
        uniq(rows.remove(i)),
        m_of(rows.remove(i)) == m_of(rows).remove(rows[i].0),
    decreases rows.len(),
{
    let k = rows[i].0;
    let rem = rows.remove(i);
    assert forall|a: int, b: int|
        #![trigger rem[a], rem[b]]
        0 <= a && a < b && b < rem.len() implies rem[a].0 != rem[b].0 by {
        let a0 = if a < i {
            a
        } else {
            a + 1
        };
        let b0 = if b < i {
            b
        } else {
            b + 1
        };
        assert(rem[a] == rows[a0]);
        assert(rem[b] == rows[b0]);
    }
    lemma_uniq_drop_last(rows);
    if i == rows.len() - 1 {
        assert(rem =~= rows.drop_last());
        lemma_m_contains(rows.drop_last(), k);
        assert forall|j: int| 0 <= j < rows.drop_last().len() implies rows.drop_last()[j].0
            != k by {
            assert(rows.drop_last()[j] == rows[j]);
        }
        assert(!m_of(rows.drop_last()).contains_key(k));
        assert(m_of(rows.drop_last()).insert(k, rows.last().1).remove(k) =~= m_of(
            rows.drop_last(),
        ));
    } else {
        assert(rem.drop_last() =~= rows.drop_last().remove(i));
        assert(rows.drop_last()[i] == rows[i]);
        lemma_m_remove_at(rows.drop_last(), i);
        assert(rem.last() == rows.last());
        assert(m_of(rem) == m_of(rows.drop_last()).remove(k).insert(
            rows.last().0,
            rows.last().1,
        ));
        assert(rows.last().0 != k);
        assert(m_of(rows.drop_last()).remove(k).insert(rows.last().0, rows.last().1)
            =~= m_of(rows.drop_last()).insert(rows.last().0, rows.last().1).remove(k));
    }
}

/// A finite map from `K` to `V`, stored as rows with distinct keys.
pub struct AssocMap<K, V> {
    pub rows: Vec<(K, V)>,
}

impl<K, V> View for AssocMap<K, V> {
    type V = Map<K, V>;

    open spec fn view(&self) -> Map<K, V> {
        m_of(self.rows@)
    }
}

impl<K: KeyEq, V> AssocMap<K, V> {
    /// Keys are pairwise distinct.
    pub open spec fn wf(self) -> bool {
        uniq(self.rows@)
    }

    pub fn new() -> (r: Self)
        ensures
            r@ == Map::<K, V>::empty(),
            r.wf(),
            r.rows@.len() == 0,
    {
        AssocMap { rows: Vec::new() }
    }

    /// Index of the row holding `k`, if any.
    fn find(&self, k: &K) -> (r: Option<usize>)
        ensures
            match r {
                Some(i) => i < self.rows@.len() && self.rows@[i as int].0 == *k,
                None => forall|i: int| 0 <= i < self.rows@.len() ==> self.rows@[i].0 != *k,
            },
    {
        let n = self.rows.len();
        let mut j: usize = 0;
        while j < n
            invariant
                j <= n,
                n == self.rows@.len(),
                forall|i: int| 0 <= i < j ==> self.rows@[i].0 != *k,
            decreases n - j,
        {
            if self.rows[j].0.keq(k) {
                return Some(j);
            }
            j += 1;
        }
        None
    }

    pub fn contains(&self, k: &K) -> (r: bool)
        requires
            self.wf(),
        ensures
            r == self@.contains_key(*k),
    {
        proof {
            lemma_m_contains(self.rows@, *k);
        }
        match self.find(k) {
            Some(i) => {
                proof {
                    lemma_m_index(self.rows@, i as int);
                }
                true
            },
            None => false,
        }
    }

    pub fn get(&self, k: &K) -> (r: Option<&V>)
        requires
            self.wf(),
        ensures
            match r {
                Some(v) => self@.contains_key(*k) && *v == self@[*k],
                None => !self@.contains_key(*k),
            },
    {
        proof {
            lemma_m_contains(self.rows@, *k);
        }
        match self.find(k) {
            Some(i) => {
                proof {
                    lemma_m_index(self.rows@, i as int);
                }
                Some(&self.rows[i].1)
            },
            None => None,
        }
    }

    pub fn insert(&mut self, k: K, v: V)
        requires
            old(self).wf(),
        ensures
            final(self).wf(),
            final(self)@ == old(self)@.insert(k, v),
            final(self).rows@.len() <= old(self).rows@.len() + 1,
    {
        match self.find(&k) {
            Some(i) => {
                proof {
                    lemma_m_update(self.rows@, i as int, v);
                }
                self.rows[i] = (k, v);
            },
            None => {
                let ghost rows0 = self.rows@;
                self.rows.push((k, v));
                proof {
                    assert(self.rows@.drop_last() =~= rows0);
                    assert forall|a: int, b: int|
                        #![trigger self.rows@[a], self.rows@[b]]
                        0 <= a && a < b && b < self.rows@.len() implies self.rows@[a].0
                        != self.rows@[b].0 by {
                        if b < self.rows@.len() - 1 {
                            assert(self.rows@[a] == rows0[a]);
                            assert(self.rows@[b] == rows0[b]);
                        } else {
                            assert(self.rows@[a] == rows0[a]);
                        }
                    }
                }
            },
        }
    }

    /// Remove `k`, handing back the value it held.
    pub fn take(&mut self, k: &K) -> (r: Option<V>)
        requires
            old(self).wf(),
        ensures
            final(self).wf(),
            final(self)@ == old(self)@.remove(*k),
            r == if old(self)@.contains_key(*k) {
                Some(old(self)@[*k])
            } else {
                None::<V>
            },
            final(self).rows@.len() <= old(self).rows@.len(),
    {
        proof {
            lemma_m_contains(self.rows@, *k);
        }
        match self.find(k) {
            Some(i) => {
                proof {
                    lemma_m_index(self.rows@, i as int);
                    lemma_m_remove_at(self.rows@, i as int);
                }
                let (_, v) = self.rows.remove(i);
                Some(v)
            },
            None => {
                proof {
                    assert(self@ =~= self@.remove(*k));
                }
                None
            },
        }
    }

    /// The keys, in row order.
    pub fn keys(&self) -> (r: Vec<K>)
        requires
            self.wf(),
        ensures
            r@.len() == self.rows@.len(),
            forall|i: int| 0 <= i < r@.len() ==> r@[i] == self.rows@[i].0,
            forall|i: int, j: int| 0 <= i < j < r@.len() ==> r@[i] != r@[j],
            forall|k: K| r@.contains(k) <==> self@.contains_key(k),
    {
        let n = self.rows.len();
        let mut out: Vec<K> = Vec::new();
        let mut j: usize = 0;
        while j < n
            invariant
                j <= n,
                n == self.rows@.len(),
                out@.len() == j,
                forall|i: int| 0 <= i < j ==> out@[i] == self.rows@[i].0,
            decreases n - j,
        {
            out.push(self.rows[j].0);
            j += 1;
        }
        proof {
            assert forall|k: K| out@.contains(k) <==> self@.contains_key(k) by {
                lemma_m_contains(self.rows@, k);
                if out@.contains(k) {
                    let ii = choose|ii: int| 0 <= ii < out@.len() && out@[ii] == k;
                    assert(self.rows@[ii].0 == k);
                }
                if exists|i: int| 0 <= i < self.rows@.len() && self.rows@[i].0 == k {
                    let i = choose|i: int| 0 <= i < self.rows@.len() && self.rows@[i].0 == k;
                    assert(out@[i] == k);
                }
            }
        }
        out
    }

    pub fn len(&self) -> (r: usize)
        ensures
            r == self.rows@.len(),
    {
        self.rows.len()
    }
}

impl<K: KeyEq, V: KeyEq> AssocMap<K, V> {
    /// The keys mapped to exactly `val`, in row order.
    pub fn keys_with(&self, val: &V) -> (r: Vec<K>)
        requires
            self.wf(),
        ensures
            forall|k: K| r@.contains(k) <==> (self@.contains_key(k) && self@[k] == *val),
            forall|i: int, j: int| 0 <= i < j < r@.len() ==> r@[i] != r@[j],
    {
        let n = self.rows.len();
        let mut out: Vec<K> = Vec::new();
        let mut j: usize = 0;
        while j < n
            invariant
                j <= n,
                n == self.rows@.len(),
                self.wf(),
                forall|k: K|
                    out@.contains(k) <==> (exists|i: int|
                        0 <= i < j && self.rows@[i].0 == k && self.rows@[i].1 == *val),
                forall|a: int, b: int| 0 <= a < b < out@.len() ==> out@[a] != out@[b],
            decreases n - j,
        {
            let row = &self.rows[j];
            if row.1.keq(val) {
                let ghost out0 = out@;
                out.push(row.0);
                proof {
                    assert forall|k: K|
                        out@.contains(k) <==> (exists|i: int|
                            0 <= i < j + 1 && self.rows@[i].0 == k && self.rows@[i].1
                                == *val) by {
                        if out@.contains(k) {
                            let ii = choose|ii: int| 0 <= ii < out@.len() && out@[ii] == k;
                            if ii < out0.len() {
                                assert(out0.contains(k));
                            } else {
                                assert(self.rows@[j as int].0 == k);
                            }
                        }
                        if exists|i: int|
                            0 <= i < j + 1 && self.rows@[i].0 == k && self.rows@[i].1 == *val {
                            let i = choose|i: int|
                                0 <= i < j + 1 && self.rows@[i].0 == k && self.rows@[i].1
                                    == *val;
                            if i < j {
                                assert(out0.contains(k));
                                let ii = choose|ii: int|
                                    0 <= ii < out0.len() && out0[ii] == k;
                                assert(out@[ii] == k);
                            } else {
                                assert(out@[out@.len() - 1] == k);
                            }
                        }
                    }
                    assert forall|a: int, b: int|
                        0 <= a < b < out@.len() implies out@[a] != out@[b] by {
                        if b < out@.len() - 1 {
                            assert(out@[a] == out0[a] && out@[b] == out0[b]);
                        } else {
                            assert(out@[b] == self.rows@[j as int].0);
                            assert(out0.contains(out0[a]));
                            let i = choose|i: int|
                                0 <= i < j && self.rows@[i].0 == out0[a] && self.rows@[i].1
                                    == *val;
                            assert(self.rows@[i].0 != self.rows@[j as int].0);
                        }
                    }
                }
            } else {
                proof {
                    assert forall|k: K|
                        out@.contains(k) <==> (exists|i: int|
                            0 <= i < j + 1 && self.rows@[i].0 == k && self.rows@[i].1
                                == *val) by {
                        if exists|i: int|
                            0 <= i < j + 1 && self.rows@[i].0 == k && self.rows@[i].1 == *val {
                            let i = choose|i: int|
                                0 <= i < j + 1 && self.rows@[i].0 == k && self.rows@[i].1
                                    == *val;
                            assert(i < j);
                        }
                    }
                }
            }
            j += 1;
        }
        proof {
            assert forall|k: K|
                out@.contains(k) <==> (self@.contains_key(k) && self@[k] == *val) by {
                lemma_m_contains(self.rows@, k);
                if out@.contains(k) {
                    let i = choose|i: int|
                        0 <= i < n && self.rows@[i].0 == k && self.rows@[i].1 == *val;
                    lemma_m_index(self.rows@, i);
                }
                if self@.contains_key(k) && self@[k] == *val {
                    let i = choose|i: int| 0 <= i < self.rows@.len() && self.rows@[i].0 == k;
                    lemma_m_index(self.rows@, i);
                }
            }
        }
        out
    }
}

} // verus!
