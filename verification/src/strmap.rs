//! A small string-to-string map backed by a vector of pairs, with a
//! mathematical map as its view. Configuration records use it for their
//! dependency, script and component tables.

use vstd::prelude::*;

verus! {

use vstd::seq_lib::*;

broadcast use vstd::seq_lib::lemma_seq_contains_after_push, vstd::seq_lib::seq_to_set_is_finite;

/// The map a list of key/value pairs stands for; a later pair wins a
/// repeated key.
pub open spec fn map_of_pairs(s: Seq<(Seq<char>, Seq<char>)>) -> Map<Seq<char>, Seq<char>>
    decreases s.len(),
{
    if s.len() == 0 {
        Map::empty()
    } else {
        map_of_pairs(s.drop_last()).insert(s.last().0, s.last().1)
    }
}

/// With pairwise distinct keys, `map_of_pairs` reads off the entries: its
/// domain is exactly the listed keys and each key maps to its listed value.
pub proof fn lemma_map_of_pairs_entries(s: Seq<(Seq<char>, Seq<char>)>)
    requires
        forall|i: int, j: int| 0 <= i < j < s.len() ==> s[i].0 != s[j].0,
    ensures
        forall|k: Seq<char>| #[trigger]
            map_of_pairs(s).dom().contains(k) <==> exists|i: int| 0 <= i < s.len() && s[i].0 == k,
        forall|i: int|
            0 <= i < s.len() ==> map_of_pairs(s).dom().contains(#[trigger] s[i].0)
                && map_of_pairs(s)[s[i].0] == s[i].1,
    decreases s.len(),
{
    if s.len() > 0 {
        let s2 = s.drop_last();
        lemma_map_of_pairs_entries(s2);
        assert(map_of_pairs(s) == map_of_pairs(s2).insert(s.last().0, s.last().1));
        assert forall|k: Seq<char>| #[trigger]
            map_of_pairs(s).dom().contains(k) implies exists|i: int|
            0 <= i < s.len() && s[i].0 == k by {
            if k != s.last().0 {
                assert(map_of_pairs(s2).dom().contains(k));
                let i = choose|i: int| 0 <= i < s2.len() && s2[i].0 == k;
                assert(s2[i] == s[i]);
                assert(s[i].0 == k);
            } else {
                assert(s[s.len() - 1].0 == k);
            }
        }
        assert forall|k: Seq<char>|
            (exists|i: int| 0 <= i < s.len() && s[i].0 == k) implies #[trigger] map_of_pairs(
            s,
        ).dom().contains(k) by {
            let i = choose|i: int| 0 <= i < s.len() && s[i].0 == k;
            if i < s.len() - 1 {
                assert(s2[i].0 == k);
            }
        }
        assert forall|i: int|
            0 <= i < s.len() implies map_of_pairs(s).dom().contains(#[trigger] s[i].0)
            && map_of_pairs(s)[s[i].0] == s[i].1 by {
            if i < s.len() - 1 {
                assert(s2[i] == s[i]);
                assert(s[i].0 != s.last().0);
            }
        }
    }
}

/// A string-keyed table of strings. Keys are unique; insertion replaces.
#[derive(Debug)]
pub struct StrMap {
    entries: Vec<(String, String)>,
}

impl View for StrMap {
    type V = Map<Seq<char>, Seq<char>>;

    closed spec fn view(&self) -> Map<Seq<char>, Seq<char>> {
        map_of_pairs(self.entries.deep_view())
    }
}

impl StrMap {
    /// Keys are pairwise distinct.
    pub closed spec fn wf(&self) -> bool {
        forall|i: int, j: int|
            0 <= i < j < self.entries.deep_view().len() ==> self.entries.deep_view()[i].0
                != self.entries.deep_view()[j].0
    }

    pub fn new() -> (r: Self)
        ensures
            r.wf(),
            r@ == Map::<Seq<char>, Seq<char>>::empty(),
    {
        let r = StrMap { entries: Vec::new() };
        proof {
            assert(r.entries.deep_view() =~= Seq::<(Seq<char>, Seq<char>)>::empty());
        }
        r
    }

    pub fn is_empty(&self) -> (r: bool)
        requires
            self.wf(),
        ensures
            r == (self@ == Map::<Seq<char>, Seq<char>>::empty()),
    {
        let r = self.entries.len() == 0;
        proof {
            lemma_map_of_pairs_entries(self.entries.deep_view());
            if r {
                assert(self.entries.deep_view() =~= Seq::<(Seq<char>, Seq<char>)>::empty());
            } else {
                assert(self@.dom().contains(self.entries.deep_view()[0].0));
            }
        }
        r
    }

    /// How many keys the table holds.
    pub fn len(&self) -> (r: usize)
        requires
            self.wf(),
        ensures
            r == self@.dom().len(),
    {
        let r = self.entries.len();
        proof {
            let s = self.entries.deep_view();
            lemma_map_of_pairs_entries(s);
            let keys = s.map_values(|p: (Seq<char>, Seq<char>)| p.0);
            assert forall|a: int, b: int|
                0 <= a < b < keys.len() implies keys[a] != keys[b] by {
                assert(keys[a] == s[a].0);
                assert(keys[b] == s[b].0);
            }
            assert(keys.no_duplicates());
            assert forall|k: Seq<char>| #[trigger]
                self@.dom().contains(k) implies keys.to_set().contains(k) by {
                let i = choose|i: int| 0 <= i < s.len() && s[i].0 == k;
                assert(keys[i] == k);
            }
            assert forall|k: Seq<char>| #[trigger]
                keys.to_set().contains(k) implies self@.dom().contains(k) by {
                let i = choose|i: int| 0 <= i < keys.len() && keys[i] == k;
                assert(s[i].0 == k);
            }
            assert(self@.dom() =~= keys.to_set());
            keys.unique_seq_to_set();
        }
        r
    }

    /// The stored pairs, for walking the table; keys are distinct and
    /// each pair reads back from the view.
    pub fn entries(&self) -> (r: &Vec<(String, String)>)
        requires
            self.wf(),
        ensures
            forall|i: int, j: int| 0 <= i < j < r.deep_view().len() ==> r.deep_view()[i].0
                != r.deep_view()[j].0,
            forall|i: int|
                0 <= i < r.deep_view().len() ==> self@.dom().contains(
                    (#[trigger] r.deep_view()[i]).0,
                ) && self@[r.deep_view()[i].0] == r.deep_view()[i].1,
            forall|k: Seq<char>| #[trigger]
                self@.dom().contains(k) ==> exists|i: int|
                    0 <= i < r.deep_view().len() && r.deep_view()[i].0 == k,
    {
        proof {
            lemma_map_of_pairs_entries(self.entries.deep_view());
        }
        &self.entries
    }

    /// The value stored under `key`, if any.
    #[verifier::loop_isolation(false)]
    pub fn get(&self, key: &str) -> (r: Option<&String>)
        requires
            self.wf(),
        ensures
            match r {
                Some(v) => self@.dom().contains(key@) && v@ == self@[key@],
                None => !self@.dom().contains(key@),
            },
    {
        proof {
            lemma_map_of_pairs_entries(self.entries.deep_view());
        }
        let key_owned = key.to_owned();
        let mut i: usize = 0;
        while i < self.entries.len()
            invariant
                i <= self.entries.len(),
                key_owned@ == key@,
                forall|j: int| 0 <= j < i ==> (#[trigger] self.entries.deep_view()[j]).0 != key@,
            decreases self.entries.len() - i,
        {
            if self.entries[i].0 == key_owned {
                proof {
                    assert(self.entries.deep_view()[i as int].0 == key@);
                }
                return Some(&self.entries[i].1);
            }
            i = i + 1;
        }
        None
    }

    pub fn contains_key(&self, key: &str) -> (r: bool)
        requires
            self.wf(),
        ensures
            r == self@.dom().contains(key@),
    {
        match self.get(key) {
            Some(_) => true,
            None => false,
        }
    }

    /// Stores `value` under `key`, replacing any earlier value.
    #[verifier::loop_isolation(false)]
    pub fn insert(&mut self, key: &str, value: &str)
        requires
            old(self).wf(),
        ensures
            final(self).wf(),
            final(self)@ == old(self)@.insert(key@, value@),
    {
        proof {
            lemma_map_of_pairs_entries(self.entries.deep_view());
        }
        let ghost oldv = self.entries.deep_view();
        let key_owned = key.to_owned();
        // Drop any earlier entry under the key.
        let mut i: usize = 0;
        let mut found = false;
        while i < self.entries.len() && !found
            invariant
                i <= self.entries.len(),
                key_owned@ == key@,
                !found ==> self.entries.deep_view() == oldv && forall|j: int|
                    0 <= j < i ==> (#[trigger] oldv[j]).0 != key@,
                found ==> {
                    &&& i <= oldv.len() - 1
                    &&& oldv[i as int].0 == key@
                    &&& self.entries.deep_view() =~= oldv.remove(i as int)
                },
            decreases self.entries.len() - i + if found { 0int } else { 1int },
        {
            if self.entries[i].0 == key_owned {
                proof {
                    assert(self.entries.deep_view()[i as int].0 == key@);
                }
                self.entries.remove(i);
                found = true;
                proof {
                    assert(self.entries.deep_view() =~= oldv.remove(i as int));
                }
            } else {
                i = i + 1;
            }
        }
        let ghost midv = self.entries.deep_view();
        proof {
            assert forall|a: int, b: int|
                0 <= a < b < midv.len() implies midv[a].0 != midv[b].0 by {
                if found {
                    let a0: int = if a < i { a } else { a + 1 };
                    let b0: int = if b < i { b } else { b + 1 };
                    assert(midv[a] == oldv[a0]);
                    assert(midv[b] == oldv[b0]);
                }
            }
            assert forall|j: int| 0 <= j < midv.len() implies (#[trigger] midv[j]).0 != key@ by {
                if found {
                    let j0: int = if j < i { j } else { j + 1 };
                    assert(midv[j] == oldv[j0]);
                    if j0 != i {
                        assert(oldv[j0].0 != oldv[i as int].0);
                    }
                } else {
                    assert(midv[j] == oldv[j]);
                }
            }
            assert forall|k: Seq<char>|
                k != key@ implies (#[trigger] map_of_pairs(midv).dom().contains(k) == map_of_pairs(
                oldv,
            ).dom().contains(k) && (map_of_pairs(oldv).dom().contains(k) ==> map_of_pairs(midv)[k]
                == map_of_pairs(oldv)[k])) by {
                lemma_map_of_pairs_entries(midv);
                lemma_map_of_pairs_entries(oldv);
                if map_of_pairs(oldv).dom().contains(k) {
                    let j0 = choose|j0: int| 0 <= j0 < oldv.len() && oldv[j0].0 == k;
                    if found {
                        assert(j0 != i);
                        if j0 < i {
                            assert(midv[j0] == oldv[j0]);
                            assert(midv[j0].0 == k);
                        } else {
                            assert(midv[j0 - 1] == oldv[j0]);
                            assert(midv[j0 - 1].0 == k);
                        }
                    } else {
                        assert(midv[j0].0 == k);
                    }
                    let j1 = choose|j1: int| 0 <= j1 < midv.len() && midv[j1].0 == k;
                    let j1m: int = if found && j1 >= i {
                        j1 + 1
                    } else {
                        j1
                    };
                    assert(midv[j1] == oldv[j1m]);
                    assert(map_of_pairs(midv)[k] == midv[j1].1);
                    assert(map_of_pairs(oldv)[k] == oldv[j1m].1);
                }
                if map_of_pairs(midv).dom().contains(k) {
                    let j1 = choose|j1: int| 0 <= j1 < midv.len() && midv[j1].0 == k;
                    let j1m: int = if found && j1 >= i {
                        j1 + 1
                    } else {
                        j1
                    };
                    assert(midv[j1] == oldv[j1m]);
                    assert(oldv[j1m].0 == k);
                }
            }
            assert(!map_of_pairs(midv).dom().contains(key@)) by {
                lemma_map_of_pairs_entries(midv);
            }
        }
        let pair = (key.to_owned(), value.to_owned());
        self.entries.push(pair);
        proof {
            let newv = self.entries.deep_view();
            assert(newv =~= midv.push((key@, value@)));
            assert(newv.drop_last() =~= midv);
            assert(map_of_pairs(newv) == map_of_pairs(midv).insert(key@, value@));
            assert(map_of_pairs(newv) =~= map_of_pairs(oldv).insert(key@, value@));
            assert forall|a: int, b: int|
                0 <= a < b < newv.len() implies newv[a].0 != newv[b].0 by {
                if b == newv.len() - 1 {
                    assert(newv[a] == midv[a]);
                }
            }
        }
    }
}

} // verus!
