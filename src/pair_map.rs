use std::collections::HashMap;
use vstd::prelude::*;

verus! {

broadcast use vstd::std_specs::hash::group_hash_axioms;

/// A map keyed by a pair of identifiers, such as (asset, holder) or
/// (asset, proposal).
pub struct PairMap<V> {
    inner: HashMap<u64, HashMap<u64, V>>,
}

impl<V> View for PairMap<V> {
    type V = Map<(u64, u64), V>;

    closed spec fn view(&self) -> Map<(u64, u64), V> {
        Map::new(
            |k: (u64, u64)| self.inner@.contains_key(k.0) && self.inner@[k.0]@.contains_key(k.1),
            |k: (u64, u64)| self.inner@[k.0]@[k.1],
        )
    }
}

impl<V> PairMap<V> {
    pub fn new() -> (r: PairMap<V>)
        ensures
            r@ == Map::<(u64, u64), V>::empty(),
    {
        let r = PairMap { inner: HashMap::new() };
        assert(r@ =~= Map::<(u64, u64), V>::empty());
        r
    }

    pub fn get(&self, a: u64, b: u64) -> (r: Option<&V>)
        ensures
            match r {
                Some(v) => self@.contains_key((a, b)) && *v == self@[(a, b)],
                None => !self@.contains_key((a, b)),
            },
    {
        match self.inner.get(&a) {
            Some(m) => m.get(&b),
            None => None,
        }
    }

    pub fn insert(&mut self, a: u64, b: u64, v: V)
        ensures
            final(self)@ == old(self)@.insert((a, b), v),
    {
        let ghost old_view = self@;
        let mut m = match self.inner.remove(&a) {
            Some(m) => m,
            None => HashMap::new(),
        };
        m.insert(b, v);
        self.inner.insert(a, m);
        assert(self@ =~= old_view.insert((a, b), v));
    }

    pub fn remove(&mut self, a: u64, b: u64) -> (r: Option<V>)
        ensures
            final(self)@ == old(self)@.remove((a, b)),
            match r {
                Some(v) => old(self)@.contains_key((a, b)) && v == old(self)@[(a, b)],
                None => !old(self)@.contains_key((a, b)),
            },
    {
        let ghost old_view = self@;
        match self.inner.remove(&a) {
            Some(mut m) => {
                let r = m.remove(&b);
                self.inner.insert(a, m);
                assert(self@ =~= old_view.remove((a, b)));
                r
            },
            None => {
                assert(self@ =~= old_view.remove((a, b)));
                None
            },
        }
    }
}

} // verus!
