//! A finite map from names to values, kept as two parallel vectors in which
//! no name occurs twice.

use vstd::prelude::*;

verus! {

/// A map keyed by name. Its view is the mathematical map from each name's
/// characters to the view of the value stored under it.
pub struct NameMap<V: View> {
    names: Vec<String>,
    values: Vec<V>,
}

impl<V: View> View for NameMap<V> {
    type V = Map<Seq<char>, V::V>;

    closed spec fn view(&self) -> Map<Seq<char>, V::V> {
        Map::new(
            |k: Seq<char>| self.holds(k),
            |k: Seq<char>| self.values[self.slot(k)]@,
        )
    }
}

impl<V: View> NameMap<V> {
    /// Both vectors have one length and every name is stored once.
    pub closed spec fn wf(&self) -> bool {
        &&& self.names.len() == self.values.len()
        &&& forall|i: int, j: int|
            0 <= i < j < self.names.len() ==> self.names[i]@ != self.names[j]@
    }

    spec fn holds(&self, k: Seq<char>) -> bool {
        exists|i: int| 0 <= i < self.names.len() && #[trigger] self.names[i]@ == k
    }

    spec fn slot(&self, k: Seq<char>) -> int {
        choose|i: int| 0 <= i < self.names.len() && #[trigger] self.names[i]@ == k
    }

    /// The empty map.
    pub fn new() -> (r: Self)
        ensures
            r.wf(),
            r@ == Map::<Seq<char>, V::V>::empty(),
    {
        let r = NameMap { names: Vec::new(), values: Vec::new() };
        assert(r@ =~= Map::<Seq<char>, V::V>::empty());
        r
    }

    fn find(&self, name: &String) -> (r: Option<usize>)
        requires
            self.wf(),
        ensures
            match r {
                Some(i) => i < self.names.len() && self.names[i as int]@ == name@
                    && self.holds(name@) && self.slot(name@) == i,
                None => !self.holds(name@),
            },
    {
        let mut i: usize = 0;
        while i < self.names.len()
            invariant
                self.wf(),
                i <= self.names.len(),
                forall|j: int| 0 <= j < i ==> self.names[j]@ != name@,
            decreases self.names.len() - i,
        {
            if self.names[i] == *name {
                assert(self.names[i as int]@ == name@);
                assert(self.holds(name@));
                return Some(i);
            }
            i += 1;
        }
        None
    }

    /// The value stored under `name`, if there is one.
    pub fn get(&self, name: &String) -> (r: Option<&V>)
        requires
            self.wf(),
        ensures
            match r {
                Some(v) => self@.contains_key(name@) && v@ == self@[name@],
                None => !self@.contains_key(name@),
            },
    {
        match self.find(name) {
            Some(i) => Some(&self.values[i]),
            None => None,
        }
    }

    /// Whether a value is stored under `name`.
    pub fn contains(&self, name: &String) -> (r: bool)
        requires
            self.wf(),
        ensures
            r == self@.contains_key(name@),
    {
        self.find(name).is_some()
    }

    /// Stores `value` under `name`, replacing what was stored there.
    pub fn insert(&mut self, name: String, value: V)
        requires
            old(self).wf(),
        ensures
            final(self).wf(),
            final(self)@ == old(self)@.insert(name@, value@),
    {
        match self.find(&name) {
            Some(i) => {
                self.values.set(i, value);
                assert forall|k: Seq<char>| self.holds(k) implies self.slot(k) == old(self).slot(k) by {
                    assert(old(self).holds(k));
                }
                assert(self@ =~= old(self)@.insert(name@, value@));
            },
            None => {
                let ghost n = self.names.len() as int;
                self.names.push(name);
                self.values.push(value);
                assert(self.names[n]@ == name@);
                assert forall|k: Seq<char>| old(self).holds(k) implies self.holds(k)
                    && self.slot(k) == old(self).slot(k) by {
                    let i = old(self).slot(k);
                    assert(self.names[i]@ == k);
                    let j = self.slot(k);
                    assert(i == j);
                }
                assert forall|k: Seq<char>| self.holds(k) implies old(self).holds(k)
                    || k == name@ by {
                    let j = self.slot(k);
                    if j < n {
                        assert(old(self).names[j]@ == k);
                    }
                }
                assert(self.holds(name@) && self.slot(name@) == n);
                assert(self@ =~= old(self)@.insert(name@, value@));
            },
        }
    }
}

} // verus!
