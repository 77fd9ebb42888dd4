use vstd::prelude::*;

verus! {

use crate::strutil::str_eq;

/// The map described by an association list, later entries overriding
/// earlier ones.
pub open spec fn kv_map(ps: Seq<(String, String)>) -> Map<Seq<char>, Seq<char>>
    decreases ps.len(),
{
    if ps.len() == 0 {
        Map::<Seq<char>, Seq<char>>::empty()
    } else {
        kv_map(ps.drop_last()).insert(ps.last().0@, ps.last().1@)
    }
}

/// No two entries share a key.
pub open spec fn unique_keys(ps: Seq<(String, String)>) -> bool {
    forall|i: int, j: int| 0 <= i < j < ps.len() ==> ps[i].0@ != ps[j].0@
}

/// Every value of the map is a non-empty string.
pub open spec fn no_empty_values(m: Map<Seq<char>, Seq<char>>) -> bool {
    forall|k: Seq<char>| m.dom().contains(k) ==> (#[trigger] m[k]).len() != 0
}

pub proof fn lemma_kv_map_contains(ps: Seq<(String, String)>, k: Seq<char>)
    ensures
        kv_map(ps).contains_key(k) <==> (exists|i: int|
            0 <= i < ps.len() && (#[trigger] ps[i]).0@ == k),
    decreases ps.len(),
{
    if ps.len() == 0 {
    } else {
        lemma_kv_map_contains(ps.drop_last(), k);
        if ps.last().0@ == k {
            assert(ps[ps.len() - 1].0@ == k);
        } else {
            if kv_map(ps).contains_key(k) {
                let i = choose|i: int|
                    0 <= i < ps.drop_last().len() && (#[trigger] ps.drop_last()[i]).0@ == k;
                assert(ps[i].0@ == k);
            }
            if exists|i: int| 0 <= i < ps.len() && (#[trigger] ps[i]).0@ == k {
                let i = choose|i: int| 0 <= i < ps.len() && (#[trigger] ps[i]).0@ == k;
                assert(i < ps.len() - 1);
                assert(ps.drop_last()[i].0@ == k);
            }
        }
    }
}

pub proof fn lemma_kv_map_value(ps: Seq<(String, String)>, i: int)
    requires
        unique_keys(ps),
        0 <= i < ps.len(),
    ensures
        kv_map(ps).contains_key(ps[i].0@),
        kv_map(ps)[ps[i].0@] == ps[i].1@,
    decreases ps.len(),
{
    if i == ps.len() - 1 {
    } else {
        assert(ps[i].0@ != ps.last().0@);
        lemma_kv_map_value(ps.drop_last(), i);
        assert(ps.drop_last()[i] == ps[i]);
    }
}

pub proof fn lemma_kv_map_remove(ps: Seq<(String, String)>, i: int)
    requires
        unique_keys(ps),
        0 <= i < ps.len(),
    ensures
        kv_map(ps.remove(i)) == kv_map(ps).remove(ps[i].0@),
    decreases ps.len(),
{
    let k = ps[i].0@;
    if i == ps.len() - 1 {
        assert(ps.remove(i) =~= ps.drop_last());
        assert(!kv_map(ps.drop_last()).contains_key(k)) by {
            lemma_kv_map_contains(ps.drop_last(), k);
            if exists|j: int| 0 <= j < ps.drop_last().len() && (#[trigger] ps.drop_last()[j]).0@ == k {
                let j = choose|j: int|
                    0 <= j < ps.drop_last().len() && (#[trigger] ps.drop_last()[j]).0@ == k;
                assert(ps[j].0@ == ps[i].0@);
            }
        }
        assert(kv_map(ps).remove(k) =~= kv_map(ps.drop_last()));
    } else {
        assert(ps[i].0@ != ps.last().0@);
        lemma_kv_map_remove(ps.drop_last(), i);
        assert(ps.drop_last()[i] == ps[i]);
        assert(ps.remove(i).drop_last() =~= ps.drop_last().remove(i));
        assert(ps.remove(i).last() == ps.last());
        assert(kv_map(ps.remove(i))
            == kv_map(ps.drop_last().remove(i)).insert(ps.last().0@, ps.last().1@));
        assert(kv_map(ps.drop_last()).remove(k).insert(ps.last().0@, ps.last().1@)
            =~= kv_map(ps.drop_last()).insert(ps.last().0@, ps.last().1@).remove(k));
    }
}

/// An ordered list of key-value string pairs with unique keys, read as a
/// mapping from key to value.
///
/// This is the collection behind per-request parameters, the MIME table and
/// decoded query strings.
pub struct Dict {
    pub pairs: Vec<(String, String)>,
}

impl View for Dict {
    type V = Map<Seq<char>, Seq<char>>;

    open spec fn view(&self) -> Map<Seq<char>, Seq<char>> {
        kv_map(self.pairs@)
    }
}

impl Dict {
    /// The structural invariant: entries never repeat a key.
    pub open spec fn wf(&self) -> bool {
        unique_keys(self.pairs@)
    }

    /// The entries in order, for specification purposes.
    pub open spec fn spec_pairs(&self) -> Seq<(String, String)> {
        self.pairs@
    }

    /// An empty mapping.
    pub fn new() -> (r: Dict)
        ensures
            r.wf(),
            r@ == Map::<Seq<char>, Seq<char>>::empty(),
            r.spec_pairs() == Seq::<(String, String)>::empty(),
    {
        Dict { pairs: Vec::new() }
    }

    /// How many keys the mapping holds.
    pub fn len(&self) -> (n: usize)
        requires
            self.wf(),
        ensures
            n == self.spec_pairs().len(),
            n == self@.dom().len(),
    {
        proof {
            lemma_kv_map_dom_len(self.pairs@);
        }
        self.pairs.len()
    }

    fn index_of_key(&self, key: &str) -> (r: Option<usize>)
        ensures
            match r {
                Some(i) => i < self.pairs@.len() && self.pairs@[i as int].0@ == key@,
                None => forall|i: int|
                    0 <= i < self.pairs@.len() ==> (#[trigger] self.pairs@[i]).0@ != key@,
            },
    {
        let mut i: usize = 0;
        while i < self.pairs.len()
            invariant
                i <= self.pairs@.len(),
                forall|j: int| 0 <= j < i ==> (#[trigger] self.pairs@[j]).0@ != key@,
            decreases self.pairs@.len() - i,
        {
            let p = &self.pairs[i];
            if str_eq(p.0.as_str(), key) {
                return Some(i);
            }
            i += 1;
        }
        None
    }

    /// Looks a key up, yielding a copy of its value.
    pub fn get(&self, key: &str) -> (r: Option<String>)
        requires
            self.wf(),
        ensures
            match r {
                Some(v) => self@.contains_key(key@) && v@ == self@[key@],
                None => !self@.contains_key(key@),
            },
    {
        match self.index_of_key(key) {
            Some(i) => {
                proof {
                    lemma_kv_map_value(self.pairs@, i as int);
                }
                let p = &self.pairs[i];
                Some(p.1.clone())
            }
            None => {
                proof {
                    lemma_kv_map_contains(self.pairs@, key@);
                }
                None
            }
        }
    }

    /// Binds `key` to `value`, replacing any earlier binding.
    pub fn insert(&mut self, key: String, value: String)
        requires
            old(self).wf(),
        ensures
            final(self).wf(),
            final(self)@ == old(self)@.insert(key@, value@),
    {
        let ghost ps0 = self.pairs@;
        match self.index_of_key(key.as_str()) {
            Some(i) => {
                proof {
                    lemma_kv_map_remove(ps0, i as int);
                }
                self.pairs.remove(i);
                proof {
                    assert(unique_keys(self.pairs@)) by {
                        assert forall|a: int, b: int| 0 <= a < b < self.pairs@.len()
                            implies (#[trigger] self.pairs@[a]).0@
                                != (#[trigger] self.pairs@[b]).0@ by {
                            let a0 = if a < i { a } else { a + 1 };
                            let b0 = if b < i { b } else { b + 1 };
                            assert(self.pairs@[a] == ps0[a0]);
                            assert(self.pairs@[b] == ps0[b0]);
                        }
                    }
                    assert(forall|j: int| 0 <= j < self.pairs@.len()
                        ==> (#[trigger] self.pairs@[j]).0@ != key@) by {
                        assert forall|j: int| 0 <= j < self.pairs@.len()
                            implies (#[trigger] self.pairs@[j]).0@ != key@ by {
                            let j0 = if j < i { j } else { j + 1 };
                            assert(self.pairs@[j] == ps0[j0]);
                            assert(ps0[i as int].0@ == key@);
                        }
                    }
                }
            }
            None => {}
        }
        let ghost ps1 = self.pairs@;
        let ghost kview = key@;
        let ghost vview = value@;
        self.pairs.push((key, value));
        proof {
            assert(self.pairs@.drop_last() =~= ps1);
            assert(self.pairs@.last().0@ == kview);
            assert(self.pairs@.last().1@ == vview);
            assert(unique_keys(self.pairs@)) by {
                assert forall|a: int, b: int| 0 <= a < b < self.pairs@.len()
                    implies (#[trigger] self.pairs@[a]).0@ != (#[trigger] self.pairs@[b]).0@ by {
                    if b == self.pairs@.len() - 1 {
                        assert(self.pairs@[a] == ps1[a]);
                    } else {
                        assert(self.pairs@[a] == ps1[a]);
                        assert(self.pairs@[b] == ps1[b]);
                    }
                }
            }
            assert(kv_map(self.pairs@) =~= old(self)@.insert(kview, vview)) by {
                lemma_kv_map_contains(ps0, kview);
            }
        }
    }

    /// Drops the binding of `key`, if there is one.
    pub fn remove(&mut self, key: &str)
        requires
            old(self).wf(),
        ensures
            final(self).wf(),
            final(self)@ == old(self)@.remove(key@),
    {
        let ghost ps0 = self.pairs@;
        match self.index_of_key(key) {
            Some(i) => {
                proof {
                    lemma_kv_map_remove(ps0, i as int);
                }
                self.pairs.remove(i);
                proof {
                    assert(unique_keys(self.pairs@)) by {
                        assert forall|a: int, b: int| 0 <= a < b < self.pairs@.len()
                            implies (#[trigger] self.pairs@[a]).0@
                                != (#[trigger] self.pairs@[b]).0@ by {
                            let a0 = if a < i { a } else { a + 1 };
                            let b0 = if b < i { b } else { b + 1 };
                            assert(self.pairs@[a] == ps0[a0]);
                            assert(self.pairs@[b] == ps0[b0]);
                        }
                    }
                }
            }
            None => {
                proof {
                    lemma_kv_map_contains(ps0, key@);
                    assert(kv_map(ps0).remove(key@) =~= kv_map(ps0));
                }
            }
        }
    }

    /// Whether any key is bound to the empty string.
    pub fn has_empty_value(&self) -> (r: bool)
        requires
            self.wf(),
        ensures
            r == !no_empty_values(self@),
    {
        let mut i: usize = 0;
        while i < self.pairs.len()
            invariant
                self.wf(),
                i <= self.pairs@.len(),
                forall|j: int| 0 <= j < i ==> (#[trigger] self.pairs@[j]).1@.len() != 0,
            decreases self.pairs@.len() - i,
        {
            let p = &self.pairs[i];
            if p.1.as_str().is_empty() {
                proof {
                    lemma_kv_map_value(self.pairs@, i as int);
                }
                return true;
            }
            i += 1;
        }
        proof {
            assert forall|k: Seq<char>| self@.dom().contains(k)
                implies (#[trigger] self@[k]).len() != 0 by {
                lemma_kv_map_contains(self.pairs@, k);
                let j = choose|j: int|
                    0 <= j < self.pairs@.len() && (#[trigger] self.pairs@[j]).0@ == k;
                lemma_kv_map_value(self.pairs@, j);
            }
        }
        false
    }

    /// Whether the keys are pairwise distinct — `wf` as a run-time test,
    /// for callers outside the verified world.
    pub fn check_wf(&self) -> (r: bool)
        ensures
            r == self.wf(),
    {
        let mut i: usize = 0;
        while i < self.pairs.len()
            invariant
                i <= self.pairs@.len(),
                forall|a: int, b: int|
                    0 <= a < b < self.pairs@.len() && a < i ==> (#[trigger] self.pairs@[a]).0@
                        != (#[trigger] self.pairs@[b]).0@,
            decreases self.pairs@.len() - i,
        {
            let mut j: usize = i + 1;
            while j < self.pairs.len()
                invariant
                    i < j <= self.pairs@.len(),
                    i < self.pairs@.len(),
                    forall|b: int| i < b < j ==> (#[trigger] self.pairs@[b]).0@
                        != self.pairs@[i as int].0@,
                decreases self.pairs@.len() - j,
            {
                let pi = &self.pairs[i];
                let pj = &self.pairs[j];
                if str_eq(pi.0.as_str(), pj.0.as_str()) {
                    return false;
                }
                j += 1;
            }
            i += 1;
        }
        true
    }

    /// An identical copy.
    pub fn duplicate(&self) -> (r: Dict)
        requires
            self.wf(),
        ensures
            r.wf(),
            r@ == self@,
    {
        let mut pairs: Vec<(String, String)> = Vec::new();
        let mut i: usize = 0;
        while i < self.pairs.len()
            invariant
                i <= self.pairs@.len(),
                pairs@ =~= self.pairs@.subrange(0, i as int),
            decreases self.pairs@.len() - i,
        {
            let p = &self.pairs[i];
            let k = p.0.clone();
            let v = p.1.clone();
            pairs.push((k, v));
            proof {
                assert((k, v) == self.pairs@[i as int]);
                assert(pairs@ =~= self.pairs@.subrange(0, i + 1));
            }
            i += 1;
        }
        proof {
            assert(pairs@ =~= self.pairs@);
        }
        Dict { pairs }
    }

    /// Adds every binding of `other`, overriding shared keys.
    pub fn extend(&mut self, other: &Dict)
        requires
            old(self).wf(),
            other.wf(),
        ensures
            final(self).wf(),
            final(self)@ == old(self)@.union_prefer_right(other@),
    {
        let ghost m0 = old(self)@;
        let mut i: usize = 0;
        proof {
            assert(kv_map(other.pairs@.subrange(0, 0)) =~= Map::<Seq<char>, Seq<char>>::empty());
            assert(m0.union_prefer_right(kv_map(other.pairs@.subrange(0, 0))) =~= m0);
        }
        while i < other.pairs.len()
            invariant
                self.wf(),
                i <= other.pairs@.len(),
                self@ == m0.union_prefer_right(kv_map(other.pairs@.subrange(0, i as int))),
            decreases other.pairs@.len() - i,
        {
            let p = &other.pairs[i];
            let k = p.0.clone();
            let v = p.1.clone();
            let ghost pre = other.pairs@.subrange(0, i as int);
            self.insert(k, v);
            proof {
                let post = other.pairs@.subrange(0, i + 1);
                assert(post.drop_last() =~= pre);
                assert(post.last() == other.pairs@[i as int]);
                assert(kv_map(post) == kv_map(pre).insert(
                    other.pairs@[i as int].0@,
                    other.pairs@[i as int].1@,
                ));
                assert(m0.union_prefer_right(kv_map(pre)).insert(
                    other.pairs@[i as int].0@,
                    other.pairs@[i as int].1@,
                ) =~= m0.union_prefer_right(kv_map(post)));
            }
            i += 1;
        }
        proof {
            assert(other.pairs@.subrange(0, other.pairs@.len() as int) =~= other.pairs@);
        }
    }
}

pub proof fn lemma_kv_map_dom_len(ps: Seq<(String, String)>)
    requires
        unique_keys(ps),
    ensures
        kv_map(ps).dom().len() == ps.len(),
        kv_map(ps).dom().finite(),
    decreases ps.len(),
{
    if ps.len() == 0 {
        assert(kv_map(ps).dom() =~= Set::<Seq<char>>::empty());
    } else {
        lemma_kv_map_dom_len(ps.drop_last());
        assert(!kv_map(ps.drop_last()).contains_key(ps.last().0@)) by {
            lemma_kv_map_contains(ps.drop_last(), ps.last().0@);
            if exists|j: int|
                0 <= j < ps.drop_last().len() && (#[trigger] ps.drop_last()[j]).0@ == ps.last().0@ {
                let j = choose|j: int|
                    0 <= j < ps.drop_last().len()
                        && (#[trigger] ps.drop_last()[j]).0@ == ps.last().0@;
                assert(ps[j].0@ == ps[ps.len() - 1].0@);
            }
        }
        assert(kv_map(ps).dom() =~= kv_map(ps.drop_last()).dom().insert(ps.last().0@));
        vstd::set::axiom_set_insert_len(kv_map(ps.drop_last()).dom(), ps.last().0@);
    }
}

} // verus!
