//! Signals by name.
use crate::text::same_text;
use vstd::prelude::*;

verus! {

/// Signals by name, each name once.
pub struct SignalMap {
    entries: Vec<(String, wellen::Signal)>,
}

/// The entry at `i` has the name `name`.
spec fn named(entries: Seq<(String, wellen::Signal)>, i: int, name: Seq<char>) -> bool {
    0 <= i < entries.len() && entries[i].0@ == name
}

/// Some entry has the name `name`.
spec fn has(entries: Seq<(String, wellen::Signal)>, name: Seq<char>) -> bool {
    exists|i: int| named(entries, i, name)
}

impl View for SignalMap {
    type V = Map<Seq<char>, wellen::Signal>;

    closed spec fn view(&self) -> Map<Seq<char>, wellen::Signal> {
        let entries = self.entries@;
        Map::new(
            |name: Seq<char>| has(entries, name),
            |name: Seq<char>| entries[choose|i: int| named(entries, i, name)].1,
        )
    }
}

impl SignalMap {
    /// No name stands twice.
    pub closed spec fn wf(self) -> bool {
        forall|i: int, j: int|
            0 <= i < j < self.entries@.len() ==> (#[trigger] self.entries@[i]).0@ != (
            #[trigger] self.entries@[j]).0@
    }

    proof fn entry_is_value(self, i: int)
        requires
            self.wf(),
            0 <= i < self.entries@.len(),
        ensures
            self@.contains_key(self.entries@[i].0@),
            self@[self.entries@[i].0@] == self.entries@[i].1,
    {
        let name = self.entries@[i].0@;
        assert(named(self.entries@, i, name));
        let k = choose|k: int| named(self.entries@, k, name);
        assert(k == i);
    }

    /// A map without signals.
    pub fn new() -> (r: Self)
        ensures
            r.wf(),
            r@ == Map::<Seq<char>, wellen::Signal>::empty(),
    {
        let r = SignalMap { entries: Vec::new() };
        assert(r@ =~= Map::<Seq<char>, wellen::Signal>::empty());
        r
    }

    /// The position of a name.
    fn position(&self, name: &str) -> (r: Option<usize>)
        requires
            self.wf(),
        ensures
            match r {
                Some(i) => named(self.entries@, i as int, name@),
                None => !self@.contains_key(name@),
            },
    {
        let mut i: usize = 0;
        while i < self.entries.len()
            invariant
                0 <= i <= self.entries@.len(),
                forall|j: int| 0 <= j < i ==> !#[trigger] named(self.entries@, j, name@),
            decreases self.entries@.len() - i,
        {
            if same_text(self.entries[i].0.as_str(), name) {
                return Some(i);
            }
            i += 1;
        }
        None
    }

    /// Whether there is a signal of the name.
    pub fn contains_key(&self, name: &str) -> (r: bool)
        requires
            self.wf(),
        ensures
            r == self@.contains_key(name@),
    {
        match self.position(name) {
            Some(i) => {
                proof {
                    self.entry_is_value(i as int);
                }
                true
            },
            None => false,
        }
    }

    /// The signal of the name.
    pub fn get(&self, name: &str) -> (r: Option<&wellen::Signal>)
        requires
            self.wf(),
        ensures
            match r {
                Some(signal) => self@.contains_key(name@) && *signal == self@[name@],
                None => !self@.contains_key(name@),
            },
    {
        match self.position(name) {
            Some(i) => {
                proof {
                    self.entry_is_value(i as int);
                }
                Some(&self.entries[i].1)
            },
            None => None,
        }
    }

    /// Whether there is no signal.
    pub fn is_empty(&self) -> (r: bool)
        requires
            self.wf(),
        ensures
            r == (self@ == Map::<Seq<char>, wellen::Signal>::empty()),
    {
        proof {
            if self.entries@.len() == 0 {
                assert(self@ =~= Map::<Seq<char>, wellen::Signal>::empty());
            } else {
                self.entry_is_value(0);
            }
        }
        self.entries.len() == 0
    }

    /// Puts a signal under a name, in place of the one that stood there.
    pub fn insert(&mut self, name: String, signal: wellen::Signal)
        requires
            old(self).wf(),
        ensures
            final(self).wf(),
            final(self)@ == old(self)@.insert(name@, signal),
    {
        let ghost before = *self;
        match self.position(name.as_str()) {
            Some(i) => {
                self.entries.set(i, (name, signal));
                proof {
                    assert forall|n: Seq<char>| #[trigger]
                        self@.contains_key(n) <==> before@.insert(name@, signal).contains_key(n) by {
                        if has(self.entries@, n) {
                            let k = choose|k: int| named(self.entries@, k, n);
                            assert(named(before.entries@, k, n));
                        }
                        if has(before.entries@, n) {
                            let k = choose|k: int| named(before.entries@, k, n);
                            assert(named(self.entries@, k, n));
                        }
                        self.entry_is_value(i as int);
                    }
                    assert forall|n: Seq<char>| #[trigger] self@.contains_key(n) implies self@[n]
                        == before@.insert(name@, signal)[n] by {
                        let k = choose|k: int| named(self.entries@, k, n);
                        self.entry_is_value(k);
                        before.entry_is_value(k);
                    }
                    assert(self@ =~= before@.insert(name@, signal));
                }
            },
            None => {
                self.entries.push((name, signal));
                proof {
                    let last = self.entries@.len() - 1;
                    assert forall|j: int| 0 <= j < last implies (#[trigger] self.entries@[j]).0@
                        != name@ by {
                        before.entry_is_value(j);
                    }
                    assert forall|n: Seq<char>| #[trigger]
                        self@.contains_key(n) <==> before@.insert(name@, signal).contains_key(n) by {
                        if has(self.entries@, n) && n != name@ {
                            let k = choose|k: int| named(self.entries@, k, n);
                            assert(named(before.entries@, k, n));
                        }
                        if has(before.entries@, n) {
                            let k = choose|k: int| named(before.entries@, k, n);
                            assert(named(self.entries@, k, n));
                        }
                        self.entry_is_value(last);
                    }
                    assert forall|n: Seq<char>| #[trigger] self@.contains_key(n) implies self@[n]
                        == before@.insert(name@, signal)[n] by {
                        let k = choose|k: int| named(self.entries@, k, n);
                        self.entry_is_value(k);
                        if k < last {
                            before.entry_is_value(k);
                        }
                    }
                    assert(self@ =~= before@.insert(name@, signal));
                }
            },
        }
    }

    /// Takes the signal of the name out of the map.
    pub fn remove(&mut self, name: &str) -> (r: Option<wellen::Signal>)
        requires
            old(self).wf(),
        ensures
            final(self).wf(),
            final(self)@ == old(self)@.remove(name@),
            match r {
                Some(signal) => old(self)@.contains_key(name@) && signal == old(self)@[name@],
                None => !old(self)@.contains_key(name@),
            },
    {
        let ghost before = *self;
        match self.position(name) {
            Some(i) => {
                let (_, signal) = self.entries.remove(i);
                proof {
                    before.entry_is_value(i as int);
                    let was = |k: int| if k < i {
                        k
                    } else {
                        k + 1
                    };
                    assert(forall|k: int|
                        0 <= k < self.entries@.len() ==> #[trigger] self.entries@[k]
                            == before.entries@[was(k)]);
                    assert forall|n: Seq<char>| #[trigger]
                        self@.contains_key(n) <==> before@.remove(name@).contains_key(n) by {
                        if has(self.entries@, n) {
                            let k = choose|k: int| named(self.entries@, k, n);
                            assert(named(before.entries@, was(k), n));
                        }
                        if has(before.entries@, n) && n != name@ {
                            let k = choose|k: int| named(before.entries@, k, n);
                            let now = if k < i {
                                k
                            } else {
                                k - 1
                            };
                            assert(named(self.entries@, now, n));
                        }
                    }
                    assert forall|n: Seq<char>| #[trigger] self@.contains_key(n) implies self@[n]
                        == before@.remove(name@)[n] by {
                        let k = choose|k: int| named(self.entries@, k, n);
                        self.entry_is_value(k);
                        before.entry_is_value(was(k));
                    }
                    assert(self@ =~= before@.remove(name@));
                }
                Some(signal)
            },
            None => {
                assert(self@ =~= before@.remove(name@));
                None
            },
        }
    }
}

} // verus!
