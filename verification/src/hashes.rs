//! The hashes of the files that a read processed, keyed by file name.
use vstd::prelude::*;
use crate::text::str_equals;

verus! {

/// The map that a list of pairs builds when they are inserted in order: a
/// later pair replaces an earlier one with the same key.
pub open spec fn pairs_map(ps: Seq<(String, u64)>) -> Map<Seq<char>, u64>
    decreases ps.len(),
{
    if ps.len() == 0 {
        Map::empty()
    } else {
        pairs_map(ps.drop_last()).insert(ps.last().0@, ps.last().1)
    }
}

/// No key occurs twice among the pairs.
pub open spec fn distinct_keys(ps: Seq<(String, u64)>) -> bool {
    forall|i: int, j: int| 0 <= i < ps.len() && 0 <= j < ps.len() && i != j ==> #[trigger] ps[i].0@
        != #[trigger] ps[j].0@
}

/// File hashes: at most one hash per file key.
pub struct FileHashes {
    entries: Vec<(String, u64)>,
}

impl View for FileHashes {
    type V = Map<Seq<char>, u64>;

    closed spec fn view(&self) -> Map<Seq<char>, u64> {
        pairs_map(self.entries@)
    }
}

/// A list of hashes in which no key occurs twice loses nothing when it is
/// made into a map: the map holds exactly the keys of the list, each with
/// its own hash, and as many keys as the list has pairs.
pub proof fn law_distinct_pairs_kept(ps: Seq<(String, u64)>)
    requires
        distinct_keys(ps),
    ensures
        forall|k: Seq<char>| #[trigger]
            pairs_map(ps).contains_key(k) <==> exists|i: int| 0 <= i < ps.len() && ps[i].0@ == k,
        forall|i: int| 0 <= i < ps.len() ==> #[trigger] pairs_map(ps)[ps[i].0@] == ps[i].1,
        pairs_map(ps).dom().finite(),
        pairs_map(ps).dom().len() == ps.len(),
    decreases ps.len(),
{
    if ps.len() > 0 {
        let p = ps.drop_last();
        assert(distinct_keys(p)) by {
            assert forall|i: int, j: int| 0 <= i < p.len() && 0 <= j < p.len() && i != j implies #[trigger] p[i].0@
                != #[trigger] p[j].0@ by {
                assert(p[i] == ps[i]);
                assert(p[j] == ps[j]);
            }
        }
        law_distinct_pairs_kept(p);
        let last = ps.last();
        assert(!pairs_map(p).contains_key(last.0@)) by {
            if pairs_map(p).contains_key(last.0@) {
                let i = choose|i: int| 0 <= i < p.len() && p[i].0@ == last.0@;
                assert(ps[i].0@ != ps[ps.len() - 1].0@);
            }
        }
        assert forall|k: Seq<char>| #[trigger]
            pairs_map(ps).contains_key(k) <==> exists|i: int| 0 <= i < ps.len() && ps[i].0@ == k by {
            if pairs_map(ps).contains_key(k) && k != last.0@ {
                let i = choose|i: int| 0 <= i < p.len() && p[i].0@ == k;
                assert(ps[i] == p[i]);
            }
            if exists|i: int| 0 <= i < ps.len() && ps[i].0@ == k {
                let i = choose|i: int| 0 <= i < ps.len() && ps[i].0@ == k;
                if i < p.len() {
                    assert(p[i] == ps[i]);
                }
            }
        }
        assert forall|i: int| 0 <= i < ps.len() implies #[trigger] pairs_map(ps)[ps[i].0@] == ps[i].1 by {
            if i < p.len() {
                assert(p[i] == ps[i]);
                assert(ps[i].0@ != ps[ps.len() - 1].0@);
            }
        }
    }
}

impl FileHashes {
    #[verifier::type_invariant]
    spec fn inv(self) -> bool {
        distinct_keys(self.entries@)
    }

    /// No hash.
    pub fn new() -> (r: FileHashes)
        ensures
            r@ == Map::<Seq<char>, u64>::empty(),
    {
        FileHashes { entries: Vec::new() }
    }

    /// How many files have a hash.
    pub fn len(&self) -> (r: usize)
        ensures
            r == self@.len(),
    {
        proof {
            use_type_invariant(self);
            law_distinct_pairs_kept(self.entries@);
        }
        self.entries.len()
    }

    /// The index of the entry with key `key`, if there is one.
    fn find(&self, key: &str) -> (r: Option<usize>)
        ensures
            r matches Some(i) ==> i < self.entries@.len() && self.entries@[i as int].0@ == key@,
            r is None ==> forall|i: int| 0 <= i < self.entries@.len() ==> self.entries@[i].0@ != key@,
    {
        let n = self.entries.len();
        let mut i: usize = 0;
        while i < n
            invariant
                n == self.entries@.len(),
                i <= n,
                forall|j: int| 0 <= j < i ==> self.entries@[j].0@ != key@,
            decreases n - i,
        {
            if str_equals(self.entries[i].0.as_str(), key) {
                return Some(i);
            }
            i = i + 1;
        }
        None
    }

    /// The hash of `key`, if it has one.
    pub fn get(&self, key: &str) -> (r: Option<u64>)
        ensures
            r == (if self@.contains_key(key@) {
                Some(self@[key@])
            } else {
                None::<u64>
            }),
    {
        proof {
            use_type_invariant(self);
            law_distinct_pairs_kept(self.entries@);
        }
        match self.find(key) {
            Some(i) => Some(self.entries[i].1),
            None => None,
        }
    }

    /// Gives `key` the hash `value`, replacing any hash it had.
    pub fn insert(&mut self, key: String, value: u64)
        ensures
            final(self)@ == old(self)@.insert(key@, value),
    {
        proof {
            use_type_invariant(&*self);
            law_distinct_pairs_kept(self.entries@);
        }
        let ghost old_entries = self.entries@;
        let found = self.find(key.as_str());
        let mut entries = Vec::new();
        std::mem::swap(&mut entries, &mut self.entries);
        match found {
            Some(i) => {
                entries.set(i, (key, value));
            },
            None => {
                entries.push((key, value));
            },
        }
        proof {
            let ne = entries@;
            assert(distinct_keys(ne)) by {
                assert forall|a: int, b: int| 0 <= a < ne.len() && 0 <= b < ne.len() && a != b implies #[trigger] ne[a].0@
                    != #[trigger] ne[b].0@ by {
                    if a < old_entries.len() && b < old_entries.len() {
                        if found is Some {
                            let i = found->0 as int;
                            if a != i && b != i {
                                assert(ne[a] == old_entries[a]);
                                assert(ne[b] == old_entries[b]);
                            } else if a == i {
                                assert(ne[b] == old_entries[b]);
                                assert(old_entries[i].0@ == key@);
                                assert(old_entries[i].0@ != old_entries[b].0@);
                            } else {
                                assert(ne[a] == old_entries[a]);
                                assert(old_entries[i].0@ == key@);
                                assert(old_entries[i].0@ != old_entries[a].0@);
                            }
                        } else {
                            assert(ne[a] == old_entries[a]);
                            assert(ne[b] == old_entries[b]);
                        }
                    } else if a < old_entries.len() {
                        assert(ne[a] == old_entries[a]);
                    } else {
                        assert(ne[b] == old_entries[b]);
                    }
                }
            }
            law_distinct_pairs_kept(ne);
            assert(pairs_map(ne) =~= pairs_map(old_entries).insert(key@, value)) by {
                assert forall|k: Seq<char>| #[trigger] pairs_map(ne).contains_key(k)
                    == pairs_map(old_entries).insert(key@, value).contains_key(k) by {
                    if pairs_map(ne).contains_key(k) {
                        let j = choose|j: int| 0 <= j < ne.len() && ne[j].0@ == k;
                        if k != key@ {
                            assert(ne[j] == old_entries[j]);
                        }
                    }
                    if k != key@ && pairs_map(old_entries).contains_key(k) {
                        let j = choose|j: int| 0 <= j < old_entries.len() && old_entries[j].0@ == k;
                        if found is Some {
                            assert(j != found->0 as int);
                        }
                        assert(ne[j] == old_entries[j]);
                    }
                    if k == key@ {
                        if found is Some {
                            assert(ne[found->0 as int].0@ == k);
                        } else {
                            assert(ne[ne.len() - 1].0@ == k);
                        }
                    }
                }
                assert forall|k: Seq<char>| #[trigger] pairs_map(ne).contains_key(k) implies pairs_map(ne)[k]
                    == pairs_map(old_entries).insert(key@, value)[k] by {
                    let j = choose|j: int| 0 <= j < ne.len() && ne[j].0@ == k;
                    if k != key@ {
                        assert(ne[j] == old_entries[j]);
                    } else {
                        if found is Some {
                            assert(j == found->0 as int);
                        } else {
                            assert(j == ne.len() - 1);
                        }
                    }
                }
            }
        }
        self.entries = entries;
    }

    /// The hashes of `pairs`, a later pair replacing an earlier one with the
    /// same key.
    pub fn from_pairs(pairs: Vec<(String, u64)>) -> (r: FileHashes)
        ensures
            r@ == pairs_map(pairs@),
    {
        let mut r = FileHashes::new();
        let n = pairs.len();
        let mut k: usize = 0;
        while k < n
            invariant
                n == pairs@.len(),
                k <= n,
                r@ == pairs_map(pairs@.take(k as int)),
            decreases n - k,
        {
            let key = pairs[k].0.clone();
            proof {
                assert(pairs@.take(k + 1).drop_last() =~= pairs@.take(k as int));
                assert(pairs@.take(k + 1).last() == pairs@[k as int]);
            }
            r.insert(key, pairs[k].1);
            k = k + 1;
        }
        proof {
            assert(pairs@.take(n as int) =~= pairs@);
        }
        r
    }

    /// Hands out every key with its hash, leaving no hash behind. Each key
    /// comes once.
    pub fn take_pairs(&mut self) -> (r: Vec<(String, u64)>)
        ensures
            pairs_map(r@) == old(self)@,
            distinct_keys(r@),
            final(self)@ == Map::<Seq<char>, u64>::empty(),
    {
        proof {
            use_type_invariant(&*self);
        }
        let mut entries = Vec::new();
        std::mem::swap(&mut entries, &mut self.entries);
        entries
    }
}

} // verus!
