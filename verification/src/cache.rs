//! Content-addressed byte cache, keyed by the composite cache key. Reads
//! and writes are exact: the view is a map from key strings to byte
//! sequences, and get/insert/invalidate behave as map lookup, update and
//! removal.

use vstd::prelude::*;

verus! {

struct CacheSlot {
    key: String,
    data: Vec<u8>,
}

/// In-memory cache used per bucket or as the process-wide fallback.
pub struct Cache {
    entries: Vec<CacheSlot>,
}

spec fn slots_unique(s: Seq<CacheSlot>) -> bool {
    forall|i: int, j: int| 0 <= i < j < s.len() ==> (#[trigger] s[i]).key@ != (#[trigger] s[j]).key@
}

spec fn has_key(s: Seq<CacheSlot>, k: Seq<char>) -> bool {
    exists|i: int| 0 <= i < s.len() && (#[trigger] s[i]).key@ == k
}

spec fn index_of_key(s: Seq<CacheSlot>, k: Seq<char>) -> int {
    choose|i: int| 0 <= i < s.len() && (#[trigger] s[i]).key@ == k
}

spec fn slots_map(s: Seq<CacheSlot>) -> Map<Seq<char>, Seq<u8>> {
    Map::new(|k: Seq<char>| has_key(s, k), |k: Seq<char>| s[index_of_key(s, k)].data@)
}

/// Copies a byte buffer; cached reads hand out an owned copy.
pub fn clone_bytes(v: &Vec<u8>) -> (r: Vec<u8>)
    ensures
        r@ == v@,
{
    let r = v.clone();
    proof {
        assert forall|i: int| 0 <= i < v@.len() implies r@[i] == v@[i] by {
            assert(cloned::<u8>(v@[i], r@[i]));
        }
        assert(r@ =~= v@);
    }
    r
}

impl View for Cache {
    type V = Map<Seq<char>, Seq<u8>>;

    closed spec fn view(&self) -> Map<Seq<char>, Seq<u8>> {
        slots_map(self.entries@)
    }
}

impl Cache {
    /// Keys are stored at most once, so the map view is faithful.
    pub closed spec fn wf(&self) -> bool {
        slots_unique(self.entries@)
    }

    /// An empty cache.
    pub fn new() -> (r: Cache)
        ensures
            r.wf(),
            r@ == Map::<Seq<char>, Seq<u8>>::empty(),
    {
        let r = Cache { entries: Vec::new() };
        proof {
            assert(r@ =~= Map::<Seq<char>, Seq<u8>>::empty());
        }
        r
    }

    /// Looks a key up; returns the cached bytes exactly when the key is
    /// present.
    pub fn get(&self, key: &String) -> (r: Option<Vec<u8>>)
        requires
            self.wf(),
        ensures
            match r {
                Some(d) => self@.contains_key(key@) && d@ == self@[key@],
                None => !self@.contains_key(key@),
            },
    {
        let n = self.entries.len();
        for i in 0..n
            invariant
                n == self.entries@.len(),
                self.wf(),
                forall|j: int| 0 <= j < i ==> (#[trigger] self.entries@[j]).key@ != key@,
        {
            if self.entries[i].key.eq(key) {
                proof {
                    let w = index_of_key(self.entries@, key@);
                    assert(0 <= w < self.entries@.len() && self.entries@[w].key@ == key@);
                    assert(w == i as int);
                }
                return Some(clone_bytes(&self.entries[i].data));
            }
        }
        proof {
            assert(!has_key(self.entries@, key@));
        }
        None
    }

    /// Inserts or replaces the bytes cached under a key.
    pub fn insert(&mut self, key: String, value: Vec<u8>)
        requires
            old(self).wf(),
        ensures
            final(self).wf(),
            final(self)@ == old(self)@.insert(key@, value@),
    {
        let ghost old_entries = self.entries@;
        let n = self.entries.len();
        for i in 0..n
            invariant
                n == self.entries@.len(),
                self.wf(),
                self.entries@ == old_entries,
                old_entries == old(self).entries@,
                forall|j: int| 0 <= j < i ==> (#[trigger] self.entries@[j]).key@ != key@,
        {
            if self.entries[i].key.eq(&key) {
                self.entries.set(i, CacheSlot { key, data: value });
                proof {
                    let s0 = old_entries;
                    let s1 = self.entries@;
                    assert forall|a: int, b: int| 0 <= a < b < s1.len() implies
                        (#[trigger] s1[a]).key@ != (#[trigger] s1[b]).key@ by {
                        assert(s0[a].key@ == s1[a].key@ && s0[b].key@ == s1[b].key@);
                    }
                    assert(slots_map(s1) =~= slots_map(s0).insert(s0[i as int].key@, value@)) by {
                        assert forall|k: Seq<char>| has_key(s1, k) <==> slots_map(s0).insert(
                            s0[i as int].key@,
                            value@,
                        ).dom().contains(k) by {
                            if has_key(s1, k) {
                                let w = index_of_key(s1, k);
                                assert(0 <= w < s1.len() && s1[w].key@ == k);
                                assert(s0[w].key@ == k);
                            }
                            if has_key(s0, k) {
                                let w = index_of_key(s0, k);
                                assert(0 <= w < s0.len() && s0[w].key@ == k);
                                assert(s1[w].key@ == k);
                            }
                        }
                        assert forall|k: Seq<char>| has_key(s1, k) implies slots_map(s1)[k]
                            == slots_map(s0).insert(s0[i as int].key@, value@)[k] by {
                            let w = index_of_key(s1, k);
                            assert(0 <= w < s1.len() && s1[w].key@ == k);
                            if w == i as int {
                                assert(slots_map(s1)[k] == value@);
                            } else {
                                assert(s0[w].key@ == k);
                                let w0 = index_of_key(s0, k);
                                assert(0 <= w0 < s0.len() && s0[w0].key@ == k);
                                assert(w0 == w);
                                assert(k != s0[i as int].key@);
                            }
                        }
                    }
                    assert(s0[i as int].key@ == key@);
                    assert(self@ =~= old(self)@.insert(key@, value@));
                }
                return;
            }
        }
        self.entries.push(CacheSlot { key, data: value });
        proof {
            let s0 = old_entries;
            let s1 = self.entries@;
            let ki = s1[s0.len() as int].key@;
            assert forall|a: int, b: int| 0 <= a < b < s1.len() implies
                (#[trigger] s1[a]).key@ != (#[trigger] s1[b]).key@ by {
                if b < s0.len() {
                    assert(s0[a].key@ != s0[b].key@);
                } else {
                    assert(s1[a].key@ == s0[a].key@);
                    assert(s1[b].key@ == ki);
                }
            }
            assert(slots_map(s1) =~= slots_map(s0).insert(ki, value@)) by {
                assert forall|k: Seq<char>| has_key(s1, k) <==> (has_key(s0, k) || k == ki) by {
                    if has_key(s1, k) {
                        let w = index_of_key(s1, k);
                        assert(0 <= w < s1.len() && s1[w].key@ == k);
                        if w < s0.len() {
                            assert(s0[w].key@ == k);
                        }
                    }
                    if has_key(s0, k) {
                        let w = index_of_key(s0, k);
                        assert(0 <= w < s0.len() && s0[w].key@ == k);
                        assert(s1[w].key@ == k);
                    }
                    assert(s1[s0.len() as int].key@ == ki);
                }
                assert forall|k: Seq<char>| has_key(s1, k) implies slots_map(s1)[k]
                    == slots_map(s0).insert(ki, value@)[k] by {
                    let w = index_of_key(s1, k);
                    assert(0 <= w < s1.len() && s1[w].key@ == k);
                    if k == ki {
                        assert(w == s0.len() as int);
                        assert(slots_map(s1)[k] == value@);
                    } else {
                        assert(w < s0.len());
                        assert(s0[w].key@ == k);
                        let w0 = index_of_key(s0, k);
                        assert(0 <= w0 < s0.len() && s0[w0].key@ == k);
                        assert(w0 == w);
                    }
                }
            }
        }
    }

    /// Drops a key; absent keys are a no-op.
    pub fn invalidate(&mut self, key: &String)
        requires
            old(self).wf(),
        ensures
            final(self).wf(),
            final(self)@ == old(self)@.remove(key@),
    {
        let ghost s0 = self.entries@;
        let n = self.entries.len();
        for i in 0..n
            invariant
                n == self.entries@.len(),
                self.wf(),
                self.entries@ == s0,
                s0 == old(self).entries@,
                forall|j: int| 0 <= j < i ==> (#[trigger] self.entries@[j]).key@ != key@,
        {
            if self.entries[i].key.eq(key) {
                self.entries.remove(i);
                proof {
                    let s1 = self.entries@;
                    assert forall|a: int, b: int| 0 <= a < b < s1.len() implies
                        (#[trigger] s1[a]).key@ != (#[trigger] s1[b]).key@ by {
                        let a0: int = if a < i as int { a } else { a + 1 };
                        let b0: int = if b < i as int { b } else { b + 1 };
                        assert(s1[a] == s0[a0] && s1[b] == s0[b0]);
                        assert(s0[a0].key@ != s0[b0].key@);
                    }
                    assert(slots_map(s1) =~= slots_map(s0).remove(key@)) by {
                        assert forall|k: Seq<char>| has_key(s1, k) <==> (has_key(s0, k) && k
                            != key@) by {
                            if has_key(s1, k) {
                                let w = index_of_key(s1, k);
                                assert(0 <= w < s1.len() && s1[w].key@ == k);
                                let w0: int = if w < i as int { w } else { w + 1 };
                                assert(s0[w0].key@ == k);
                                assert(w0 != i as int);
                                assert(s0[i as int].key@ == key@);
                            }
                            if has_key(s0, k) && k != key@ {
                                let w = index_of_key(s0, k);
                                assert(0 <= w < s0.len() && s0[w].key@ == k);
                                assert(w != i as int);
                                let w1: int = if w < i as int { w } else { w - 1 };
                                assert(s1[w1].key@ == k);
                            }
                        }
                        assert forall|k: Seq<char>| has_key(s1, k) implies slots_map(s1)[k]
                            == slots_map(s0).remove(key@)[k] by {
                            let w = index_of_key(s1, k);
                            assert(0 <= w < s1.len() && s1[w].key@ == k);
                            let w0: int = if w < i as int { w } else { w + 1 };
                            assert(s0[w0].key@ == k);
                            let wx = index_of_key(s0, k);
                            assert(0 <= wx < s0.len() && s0[wx].key@ == k);
                            assert(wx == w0);
                            assert(s1[w].data@ == s0[w0].data@);
                        }
                    }
                    assert(self@ =~= old(self)@.remove(key@));
                }
                return;
            }
        }
        proof {
            assert(!has_key(self.entries@, key@));
            assert(slots_map(self.entries@) =~= slots_map(s0).remove(key@)) by {
                assert forall|k: Seq<char>| has_key(s0, k) implies k != key@ by {
                    let w = index_of_key(s0, k);
                    assert(0 <= w < s0.len() && s0[w].key@ == k);
                }
            }
        }
    }
}

} // verus!
