//! A set of names.
use vstd::prelude::*;

use crate::text;

verus! {

/// A set of names, in the order in which they came.
#[derive(Debug)]
pub struct NameSet {
    /// The names, each once.
    pub items: Vec<String>,
}

impl View for NameSet {
    type V = Set<Seq<char>>;

    open spec fn view(&self) -> Set<Seq<char>> {
        text::texts(self.items@).to_set()
    }
}

impl NameSet {
    /// No name occurs twice.
    pub open spec fn wf(self) -> bool {
        text::texts(self.items@).no_duplicates()
    }

    /// No names.
    pub fn new() -> (r: NameSet)
        ensures
            r.wf(),
            r@ == Set::<Seq<char>>::empty(),
    {
        let r = NameSet { items: Vec::new() };
        assert(text::texts(r.items@) =~= Seq::<Seq<char>>::empty());
        assert(r@ =~= Set::<Seq<char>>::empty());
        r
    }

    fn index_of(&self, name: &str) -> (r: Option<usize>)
        ensures
            r matches Some(i) ==> i < self.items@.len() && self.items@[i as int]@ == name@,
            r is Some == self@.contains(name@),
    {
        let ghost all = text::texts(self.items@);
        let mut i: usize = 0;
        while i < self.items.len()
            invariant
                i <= self.items@.len(),
                all == text::texts(self.items@),
                forall|j: int| 0 <= j < i ==> #[trigger] all[j] != name@,
            decreases self.items.len() - i,
        {
            assert(all[i as int] == self.items@[i as int]@);
            if text::same(self.items[i].as_str(), name) {
                assert(all.contains(name@));
                return Some(i);
            }
            i += 1;
        }
        assert(!all.contains(name@));
        None
    }

    /// Whether a name is in the set.
    pub fn contains(&self, name: &str) -> (r: bool)
        ensures
            r == self@.contains(name@),
    {
        match self.index_of(name) {
            Some(_) => true,
            None => false,
        }
    }

    /// Put a name in.
    pub fn insert(&mut self, name: &str)
        requires
            old(self).wf(),
        ensures
            final(self).wf(),
            final(self)@ == old(self)@.insert(name@),
    {
        if self.contains(name) {
            assert(self@.insert(name@) =~= self@);
            return;
        }
        let ghost before = text::texts(self.items@);
        text::push_text(&mut self.items, name);
        proof {
            let after = text::texts(self.items@);
            assert(after =~= before.push(name@));
            assert forall|i: int, j: int|
                0 <= i < after.len() && 0 <= j < after.len() && i != j implies after[i]
                != after[j] by {
                if i == before.len() {
                    assert(before.contains(before[j]));
                } else if j == before.len() {
                    assert(before.contains(before[i]));
                }
            }
            assert forall|x: Seq<char>| after.contains(x) == (before.contains(x) || x == name@) by {
                if before.contains(x) {
                    let k = choose|k: int| 0 <= k < before.len() && before[k] == x;
                    assert(after[k] == x);
                }
                if x == name@ {
                    assert(after[before.len() as int] == x);
                }
            }
            assert(self@ =~= old(self)@.insert(name@));
        }
    }

    /// Take a name out, saying whether it was there.
    pub fn remove(&mut self, name: &str) -> (r: bool)
        requires
            old(self).wf(),
        ensures
            final(self).wf(),
            r == old(self)@.contains(name@),
            final(self)@ == old(self)@.remove(name@),
    {
        match self.index_of(name) {
            Some(i) => {
                let ghost before = text::texts(self.items@);
                let _ = self.items.remove(i);
                proof {
                    let after = text::texts(self.items@);
                    assert(after =~= before.remove(i as int));
                    assert(before[i as int] == name@);
                    assert forall|a: int, b: int|
                        0 <= a < after.len() && 0 <= b < after.len() && a != b implies after[a]
                        != after[b] by {
                        let pa = if a < i {
                            a
                        } else {
                            a + 1
                        };
                        let pb = if b < i {
                            b
                        } else {
                            b + 1
                        };
                        assert(before[pa] != before[pb]);
                    }
                    assert forall|x: Seq<char>|
                        after.contains(x) == (before.contains(x) && x != name@) by {
                        if after.contains(x) {
                            let k = choose|k: int| 0 <= k < after.len() && after[k] == x;
                            let pk = if k < i {
                                k
                            } else {
                                k + 1
                            };
                            assert(before[pk] == x);
                            assert(before[pk] != before[i as int]);
                        }
                        if before.contains(x) && x != name@ {
                            let k = choose|k: int| 0 <= k < before.len() && before[k] == x;
                            let nk = if k < i {
                                k
                            } else {
                                k - 1
                            };
                            assert(after[nk] == x);
                        }
                    }
                    assert(self@ =~= old(self)@.remove(name@));
                }
                true
            },
            None => {
                assert(self@.remove(name@) =~= self@);
                false
            },
        }
    }

    /// The names, each once.
    pub fn list(&self) -> (r: Vec<String>)
        ensures
            text::texts(r@) == text::texts(self.items@),
            text::texts(r@).to_set() == self@,
            self.wf() ==> text::texts(r@).no_duplicates(),
    {
        text::clone_texts(self.items.as_slice())
    }
}

} // verus!
