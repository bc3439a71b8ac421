//! The in-memory reference backend: an exact implementation of the
//! storage contract, used standalone and as the model other backends are
//! held to.

use crate::cache::clone_bytes;
use crate::config::ImageKind;
use crate::storage::template::without_image;
use crate::storage::template::StorageBackend;
use crate::storage::template::StorageError;
use crate::storage::template::StoreKey;
use vstd::prelude::*;

verus! {

struct StoredObject {
    bucket_id: u32,
    image_id: String,
    kind: ImageKind,
    sizing_id: u32,
    data: Vec<u8>,
}

impl StoredObject {
    spec fn key(&self) -> StoreKey {
        (self.bucket_id, self.image_id@, self.kind, self.sizing_id)
    }
}

spec fn objects_unique(s: Seq<StoredObject>) -> bool {
    forall|i: int, j: int| 0 <= i < j < s.len() ==> (#[trigger] s[i]).key() != (#[trigger] s[j]).key()
}

spec fn has_obj(s: Seq<StoredObject>, k: StoreKey) -> bool {
    exists|i: int| 0 <= i < s.len() && (#[trigger] s[i]).key() == k
}

spec fn index_of_obj(s: Seq<StoredObject>, k: StoreKey) -> int {
    choose|i: int| 0 <= i < s.len() && (#[trigger] s[i]).key() == k
}

spec fn objects_map(s: Seq<StoredObject>) -> Map<StoreKey, Seq<u8>> {
    Map::new(|k: StoreKey| has_obj(s, k), |k: StoreKey| s[index_of_obj(s, k)].data@)
}

/// Stores every variant in process memory. Operations never fail.
pub struct MemoryStorageBackend {
    entries: Vec<StoredObject>,
}

impl MemoryStorageBackend {
    /// Keys are stored at most once, so the map view is faithful.
    pub closed spec fn wf(&self) -> bool {
        objects_unique(self.entries@)
    }

    /// An empty store.
    pub fn new() -> (r: MemoryStorageBackend)
        ensures
            r.inv(),
            r.contents() == Map::<StoreKey, Seq<u8>>::empty(),
    {
        let r = MemoryStorageBackend { entries: Vec::new() };
        proof {
            assert(r.contents() =~= Map::<StoreKey, Seq<u8>>::empty());
        }
        r
    }

    /// Removes the first stored variant of the image, if any remains.
    fn take_one(&mut self, bucket_id: u32, image_id: &String) -> (r: Option<(u32, ImageKind)>)
        requires
            old(self).wf(),
        ensures
            final(self).wf(),
            match r {
                Some((s, k)) => {
                    &&& old(self).contents().contains_key((bucket_id, image_id@, k, s))
                    &&& final(self).contents() == old(self).contents().remove(
                        (bucket_id, image_id@, k, s),
                    )
                    &&& final(self).entries@.len() < old(self).entries@.len()
                },
                None => {
                    &&& *final(self) == *old(self)
                    &&& forall|s: u32, k: ImageKind|
                        !old(self).contents().contains_key((bucket_id, image_id@, k, s))
                },
            },
    {
        let ghost s0 = self.entries@;
        let n = self.entries.len();
        for i in 0..n
            invariant
                n == self.entries@.len(),
                self.wf(),
                self.entries@ == s0,
                s0 == old(self).entries@,
                *self == *old(self),
                forall|j: int|
                    0 <= j < i
                        ==> !((#[trigger] self.entries@[j]).bucket_id == bucket_id
                        && self.entries@[j].image_id@ == image_id@),
        {
            if self.entries[i].bucket_id == bucket_id && self.entries[i].image_id.eq(image_id) {
                let sizing_id = self.entries[i].sizing_id;
                let kind = self.entries[i].kind;
                let ghost key = s0[i as int].key();
                self.entries.remove(i);
                proof {
                    let s1 = self.entries@;
                    assert forall|a: int, b: int| 0 <= a < b < s1.len() implies
                        (#[trigger] s1[a]).key() != (#[trigger] s1[b]).key() by {
                        let a0: int = if a < i as int { a } else { a + 1 };
                        let b0: int = if b < i as int { b } else { b + 1 };
                        assert(s1[a] == s0[a0] && s1[b] == s0[b0]);
                        assert(s0[a0].key() != s0[b0].key());
                    }
                    assert(has_obj(s0, key));
                    assert(objects_map(s1) =~= objects_map(s0).remove(key)) by {
                        assert forall|k: StoreKey| has_obj(s1, k) <==> (has_obj(s0, k) && k
                            != key) by {
                            if has_obj(s1, k) {
                                let w = index_of_obj(s1, k);
                                assert(0 <= w < s1.len() && s1[w].key() == k);
                                let w0: int = if w < i as int { w } else { w + 1 };
                                assert(s0[w0].key() == k);
                                assert(w0 != i as int);
                            }
                            if has_obj(s0, k) && k != key {
                                let w = index_of_obj(s0, k);
                                assert(0 <= w < s0.len() && s0[w].key() == k);
                                assert(w != i as int);
                                let w1: int = if w < i as int { w } else { w - 1 };
                                assert(s1[w1].key() == k);
                            }
                        }
                        assert forall|k: StoreKey| has_obj(s1, k) implies objects_map(s1)[k]
                            == objects_map(s0).remove(key)[k] by {
                            let w = index_of_obj(s1, k);
                            assert(0 <= w < s1.len() && s1[w].key() == k);
                            let w0: int = if w < i as int { w } else { w + 1 };
                            assert(s0[w0].key() == k);
                            let wx = index_of_obj(s0, k);
                            assert(0 <= wx < s0.len() && s0[wx].key() == k);
                            assert(wx == w0);
                            assert(s1[w].data@ == s0[w0].data@);
                        }
                    }
                    assert(key == (bucket_id, image_id@, kind, sizing_id));
                    assert(has_obj(old(self).entries@, key));
                    assert(old(self).contents().contains_key(key));
                    assert(self.contents() =~= old(self).contents().remove(key));
                }
                return Some((sizing_id, kind));
            }
        }
        proof {
            assert forall|s: u32, k: ImageKind|
                !old(self).contents().contains_key((bucket_id, image_id@, k, s)) by {
                if has_obj(s0, (bucket_id, image_id@, k, s)) {
                    let w = index_of_obj(s0, (bucket_id, image_id@, k, s));
                    assert(0 <= w < s0.len() && s0[w].key() == (bucket_id, image_id@, k, s));
                }
            }
        }
        None
    }
}

impl StorageBackend for MemoryStorageBackend {
    closed spec fn contents(&self) -> Map<StoreKey, Seq<u8>> {
        objects_map(self.entries@)
    }

    closed spec fn inv(&self) -> bool {
        self.wf()
    }

    fn store(
        &mut self,
        bucket_id: u32,
        image_id: &String,
        kind: ImageKind,
        sizing_id: u32,
        data: Vec<u8>,
    ) -> (r: Result<(), StorageError>) {
        let ghost s0 = self.entries@;
        let ghost key = (bucket_id, image_id@, kind, sizing_id);
        let n = self.entries.len();
        for i in 0..n
            invariant
                n == self.entries@.len(),
                self.wf(),
                self.entries@ == s0,
                s0 == old(self).entries@,
                key == (bucket_id, image_id@, kind, sizing_id),
                forall|j: int| 0 <= j < i ==> (#[trigger] self.entries@[j]).key() != key,
        {
            proof {
                assert(self.entries@[i as int].key() == key <==> (self.entries@[i as int].bucket_id
                    == bucket_id && self.entries@[i as int].image_id@ == image_id@
                    && self.entries@[i as int].kind == kind && self.entries@[i as int].sizing_id
                    == sizing_id));
            }
            if self.entries[i].bucket_id == bucket_id && self.entries[i].image_id.eq(image_id)
                && self.entries[i].kind == kind && self.entries[i].sizing_id == sizing_id {
                let image_id_c = self.entries[i].image_id.clone();
                self.entries.set(
                    i,
                    StoredObject { bucket_id, image_id: image_id_c, kind, sizing_id, data },
                );
                proof {
                    let s1 = self.entries@;
                    assert(s1[i as int].key() == key);
                    assert forall|a: int, b: int| 0 <= a < b < s1.len() implies
                        (#[trigger] s1[a]).key() != (#[trigger] s1[b]).key() by {
                        assert(s0[a].key() == s1[a].key() && s0[b].key() == s1[b].key());
                    }
                    assert(objects_map(s1) =~= objects_map(s0).insert(key, data@)) by {
                        assert forall|k: StoreKey| has_obj(s1, k) <==> (has_obj(s0, k) || k
                            == key) by {
                            if has_obj(s1, k) {
                                let w = index_of_obj(s1, k);
                                assert(0 <= w < s1.len() && s1[w].key() == k);
                                if w != i as int {
                                    assert(s0[w].key() == k);
                                }
                            }
                            if has_obj(s0, k) {
                                let w = index_of_obj(s0, k);
                                assert(0 <= w < s0.len() && s0[w].key() == k);
                                if w != i as int {
                                    assert(s1[w].key() == k);
                                } else {
                                    assert(k == key);
                                    assert(s1[i as int].key() == k);
                                }
                            }
                        }
                        assert forall|k: StoreKey| has_obj(s1, k) implies objects_map(s1)[k]
                            == objects_map(s0).insert(key, data@)[k] by {
                            let w = index_of_obj(s1, k);
                            assert(0 <= w < s1.len() && s1[w].key() == k);
                            if w == i as int {
                                assert(k == key);
                                assert(objects_map(s1)[k] == data@);
                            } else {
                                assert(s0[w].key() == k);
                                let w0 = index_of_obj(s0, k);
                                assert(0 <= w0 < s0.len() && s0[w0].key() == k);
                                assert(w0 == w);
                                assert(k != key);
                            }
                        }
                    }
                }
                return Ok(());
            }
        }
        self.entries.push(StoredObject { bucket_id, image_id: image_id.clone(), kind, sizing_id, data });
        proof {
            let s1 = self.entries@;
            let l = s0.len() as int;
            assert(s1[l].key() == key);
            assert forall|a: int, b: int| 0 <= a < b < s1.len() implies
                (#[trigger] s1[a]).key() != (#[trigger] s1[b]).key() by {
                if b < l {
                    assert(s0[a].key() != s0[b].key());
                } else {
                    assert(s1[a].key() == s0[a].key());
                    assert(s1[b].key() == key);
                }
            }
            assert(objects_map(s1) =~= objects_map(s0).insert(key, data@)) by {
                assert forall|k: StoreKey| has_obj(s1, k) <==> (has_obj(s0, k) || k == key) by {
                    if has_obj(s1, k) {
                        let w = index_of_obj(s1, k);
                        assert(0 <= w < s1.len() && s1[w].key() == k);
                        if w < l {
                            assert(s0[w].key() == k);
                        }
                    }
                    if has_obj(s0, k) {
                        let w = index_of_obj(s0, k);
                        assert(0 <= w < s0.len() && s0[w].key() == k);
                        assert(s1[w].key() == k);
                    }
                }
                assert forall|k: StoreKey| has_obj(s1, k) implies objects_map(s1)[k]
                    == objects_map(s0).insert(key, data@)[k] by {
                    let w = index_of_obj(s1, k);
                    assert(0 <= w < s1.len() && s1[w].key() == k);
                    if k == key {
                        assert(w == l);
                        assert(objects_map(s1)[k] == data@);
                    } else {
                        assert(w < l);
                        assert(s0[w].key() == k);
                        let w0 = index_of_obj(s0, k);
                        assert(0 <= w0 < s0.len() && s0[w0].key() == k);
                        assert(w0 == w);
                    }
                }
            }
        }
        Ok(())
    }

    fn fetch(
        &self,
        bucket_id: u32,
        image_id: &String,
        kind: ImageKind,
        sizing_id: u32,
    ) -> (r: Result<Option<Vec<u8>>, StorageError>) {
        let ghost key = (bucket_id, image_id@, kind, sizing_id);
        let n = self.entries.len();
        for i in 0..n
            invariant
                n == self.entries@.len(),
                self.wf(),
                key == (bucket_id, image_id@, kind, sizing_id),
                forall|j: int| 0 <= j < i ==> (#[trigger] self.entries@[j]).key() != key,
        {
            proof {
                assert(self.entries@[i as int].key() == key <==> (self.entries@[i as int].bucket_id
                    == bucket_id && self.entries@[i as int].image_id@ == image_id@
                    && self.entries@[i as int].kind == kind && self.entries@[i as int].sizing_id
                    == sizing_id));
            }
            if self.entries[i].bucket_id == bucket_id && self.entries[i].image_id.eq(image_id)
                && self.entries[i].kind == kind && self.entries[i].sizing_id == sizing_id {
                proof {
                    let w = index_of_obj(self.entries@, key);
                    assert(0 <= w < self.entries@.len() && self.entries@[w].key() == key);
                    assert(w == i as int);
                }
                return Ok(Some(clone_bytes(&self.entries[i].data)));
            }
        }
        proof {
            assert(!has_obj(self.entries@, key));
        }
        Ok(None)
    }

    fn delete(&mut self, bucket_id: u32, image_id: &String) -> (r: Result<
        Vec<(u32, ImageKind)>,
        StorageError,
    >) {
        let mut removed: Vec<(u32, ImageKind)> = Vec::new();
        loop
            invariant
                self.wf(),
                forall|k: StoreKey|
                    #[trigger] self.contents().contains_key(k) ==> old(
                        self,
                    ).contents().contains_key(k) && self.contents()[k] == old(self).contents()[k],
                forall|k: StoreKey|
                    #[trigger] old(self).contents().contains_key(k) && !(k.0 == bucket_id && k.1
                        == image_id@) ==> self.contents().contains_key(k),
                forall|s: u32, k: ImageKind|
                    #[trigger] removed@.contains((s, k)) <==> (old(self).contents().contains_key(
                        (bucket_id, image_id@, k, s),
                    ) && !self.contents().contains_key((bucket_id, image_id@, k, s))),
            decreases self.entries@.len(),
        {
            let ghost mid = *self;
            match self.take_one(bucket_id, image_id) {
                Some((sizing_id, kind)) => {
                    let ghost kk = (bucket_id, image_id@, kind, sizing_id);
                    let ghost pre = removed@;
                    removed.push((sizing_id, kind));
                    proof {
                        assert(mid.contents().contains_key(kk));
                        assert(self.contents() == mid.contents().remove(kk));
                        assert forall|s: u32, k: ImageKind|
                            removed@.contains((s, k)) <==> (old(self).contents().contains_key(
                                (bucket_id, image_id@, k, s),
                            ) && !self.contents().contains_key((bucket_id, image_id@, k, s))) by {
                            let key = (bucket_id, image_id@, k, s);
                            if removed@.contains((s, k)) {
                                let w = choose|w: int|
                                    0 <= w < removed@.len() && removed@[w] == (s, k);
                                if w < pre.len() {
                                    assert(pre[w] == (s, k));
                                    assert(pre.contains((s, k)));
                                    assert(old(self).contents().contains_key(key)
                                        && !mid.contents().contains_key(key));
                                } else {
                                    assert((s, k) == (sizing_id, kind));
                                    assert(key == kk);
                                    assert(mid.contents().contains_key(kk));
                                    assert(old(self).contents().contains_key(key));
                                }
                                assert(!self.contents().contains_key(key));
                            }
                            if old(self).contents().contains_key(key)
                                && !self.contents().contains_key(key) {
                                if key == kk {
                                    assert(removed@[removed@.len() - 1] == (s, k));
                                    assert(removed@.contains((s, k)));
                                } else {
                                    assert(!mid.contents().contains_key(key));
                                    assert(pre.contains((s, k)));
                                    let w = choose|w: int| 0 <= w < pre.len() && pre[w] == (s, k);
                                    assert(removed@[w] == (s, k));
                                    assert(removed@.contains((s, k)));
                                }
                            }
                        }
                    }
                },
                None => {
                    proof {
                        assert forall|k: StoreKey|
                            self.contents().contains_key(k) <==> (old(
                                self,
                            ).contents().contains_key(k) && !(k.0 == bucket_id && k.1
                                == image_id@)) by {
                            if self.contents().contains_key(k) {
                                if k.0 == bucket_id && k.1 == image_id@ {
                                    let s: u32 = k.3;
                                    let kd: ImageKind = k.2;
                                    assert(!mid.contents().contains_key(
                                        (bucket_id, image_id@, kd, s),
                                    ));
                                    assert(k == (bucket_id, image_id@, kd, s));
                                    assert(false);
                                }
                            }
                            if old(self).contents().contains_key(k) && !(k.0 == bucket_id && k.1
                                == image_id@) {
                                assert(mid.contents().contains_key(k));
                            }
                        }
                        assert(self.contents() =~= without_image(
                            old(self).contents(),
                            bucket_id,
                            image_id@,
                        ));
                    }
                    return Ok(removed);
                },
            }
        }
    }
}

} // verus!
