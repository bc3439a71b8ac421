//! The bucket controller: upload/fetch/delete orchestration over one
//! bucket's configuration, cache handle, admission limiters, pipeline and
//! storage backend, together with the process-wide bucket registry.

use crate::cache::clone_bytes;
use crate::cache::Cache;
use crate::config::BucketConfig;
use crate::config::ImageKind;
use crate::config::ProcessingMode;
use crate::keys::colon_free;
use crate::keys::key_of;
use crate::keys::lemma_cache_key_injective;
use crate::keys::render_cache_key;
use crate::limits::Limiter;
use crate::pipelines::register::PipelineSelector;
use crate::pipelines::ImageTransformer;
use crate::pipelines::PipelineError;
use crate::pipelines::StoreEntry;
use crate::storage::template::without_image;
use crate::storage::template::StorageBackend;
use crate::storage::template::StorageError;
use crate::storage::template::StoreKey;
use crate::utils::crc_hash;
use crate::utils::crc_hash_of;
use crate::utils::crc32_checksum;
use crate::utils::crc32_of;
use crate::utils::image_id_of;
use crate::utils::lemma_hex_of_colon_free;
use crate::utils::sha256_hash;
use vstd::prelude::*;
use vstd::string::StringExecFns;

verus! {

/// Why an upload, fetch or delete failed. Not-found is not an error: it
/// is the absent result of a fetch.
#[derive(Clone, Copy, Debug, PartialEq, Eq, Structural)]
pub enum BucketError {
    /// The admission limiter is closed or exhausted.
    Admission,
    /// The pipeline transform failed; no partial state was written.
    Pipeline(PipelineError),
    /// The storage backend failed; variants may be partially written.
    Storage(StorageError),
}

/// The per-variant part of an upload response.
#[derive(Clone, Copy, Debug)]
pub struct ImageUploadInfo {
    /// The computed image sizing id, useful for tracking files in the
    /// storage systems.
    pub sizing_id: u32,
}

/// The response payload of a successful upload.
#[derive(Debug)]
pub struct UploadInfo {
    /// The generated id the file can be accessed under for this bucket.
    pub image_id: String,
    /// The crc32 checksum of the uploaded image.
    pub checksum: u32,
    /// The information that is specific to each stored variant.
    pub images: Vec<ImageUploadInfo>,
    /// The id of the bucket the image was stored in.
    pub bucket_id: u32,
}

/// Which limiter a permit was drawn from, so that exactly that one is
/// released.
#[derive(Clone, Copy, Debug, PartialEq, Eq, Structural)]
pub enum PermitToken {
    Global,
    Local,
    Unlimited,
}

/// Whether admission succeeds right now: the global limiter decides alone
/// when configured; otherwise the local one; otherwise admission is free.
pub open spec fn admission_ok(global: Option<Limiter>, local: Option<Limiter>) -> bool {
    match global {
        Some(g) => g.can_grant(),
        None => match local {
            Some(l) => l.can_grant(),
            None => true,
        },
    }
}

/// Global limiter precedence: when a global limiter is configured,
/// admission is decided by it alone — the local limiter is never
/// consulted, whatever its state; the two are never combined.
pub proof fn lemma_global_limiter_precedence(
    g: Limiter,
    local_a: Option<Limiter>,
    local_b: Option<Limiter>,
)
    ensures
        admission_ok(Some(g), local_a) == g.can_grant(),
        admission_ok(Some(g), local_a) == admission_ok(Some(g), local_b),
{
}

/// Limiter well-formedness for an optional limiter.
pub open spec fn limiter_opt_wf(l: Option<Limiter>) -> bool {
    match l {
        Some(l) => l.wf(),
        None => true,
    }
}

/// Resolves at most one concurrency permit: a configured global limiter
/// takes strict precedence and the local one is then ignored entirely;
/// the two are never combined. Fails exactly when the limiter consulted
/// cannot grant.
fn get_optional_permit(global: &mut Option<Limiter>, local: &mut Option<Limiter>) -> (r: Result<
    PermitToken,
    BucketError,
>)
    requires
        limiter_opt_wf(*old(global)),
        limiter_opt_wf(*old(local)),
    ensures
        limiter_opt_wf(*final(global)),
        limiter_opt_wf(*final(local)),
        r is Ok <==> admission_ok(*old(global), *old(local)),
        r is Err ==> r == Err::<PermitToken, BucketError>(BucketError::Admission) && *final(global)
            == *old(global) && *final(local) == *old(local),
        match r {
            Ok(PermitToken::Global) => {
                &&& (*old(global)) matches Some(g) && (*final(global)) matches Some(g2)
                    && g2.spec_available() == g.spec_available() - 1 && g2.spec_capacity()
                    == g.spec_capacity() && g2.is_closed() == g.is_closed()
                &&& *final(local) == *old(local)
            },
            Ok(PermitToken::Local) => {
                &&& (*old(global)) is None && *final(global) == *old(global)
                &&& (*old(local)) matches Some(l) && (*final(local)) matches Some(l2)
                    && l2.spec_available() == l.spec_available() - 1 && l2.spec_capacity()
                    == l.spec_capacity() && l2.is_closed() == l.is_closed()
            },
            Ok(PermitToken::Unlimited) => {
                &&& (*old(global)) is None && (*old(local)) is None
                &&& *final(global) == *old(global) && *final(local) == *old(local)
            },
            Err(_) => true,
        },
{
    if let Some(limiter) = global {
        if limiter.try_acquire() {
            return Ok(PermitToken::Global);
        }
        return Err(BucketError::Admission);
    }
    if let Some(limiter) = local {
        if limiter.try_acquire() {
            return Ok(PermitToken::Local);
        }
        return Err(BucketError::Admission);
    }
    Ok(PermitToken::Unlimited)
}

/// Hands the permit named by the token back to the limiter it came from.
fn release_optional_permit(
    global: &mut Option<Limiter>,
    local: &mut Option<Limiter>,
    token: PermitToken,
)
    requires
        limiter_opt_wf(*old(global)),
        limiter_opt_wf(*old(local)),
        token is Global ==> ((*old(global)) matches Some(g) && g.spec_available()
            < g.spec_capacity()),
        token is Local ==> ((*old(local)) matches Some(l) && l.spec_available() < l.spec_capacity()),
    ensures
        limiter_opt_wf(*final(global)),
        limiter_opt_wf(*final(local)),
        match token {
            PermitToken::Global => {
                &&& (*old(global)) matches Some(g) && (*final(global)) matches Some(g2)
                    && g2.spec_available() == g.spec_available() + 1 && g2.spec_capacity()
                    == g.spec_capacity() && g2.is_closed() == g.is_closed()
                &&& *final(local) == *old(local)
            },
            PermitToken::Local => {
                &&& (*final(local)) matches Some(l2) && (*old(local)) matches Some(l)
                    && l2.spec_available() == l.spec_available() + 1 && l2.spec_capacity()
                    == l.spec_capacity() && l2.is_closed() == l.is_closed()
                &&& *final(global) == *old(global)
            },
            PermitToken::Unlimited => {
                &&& *final(global) == *old(global)
                &&& *final(local) == *old(local)
            },
        },
{
    match token {
        PermitToken::Global => {
            if let Some(limiter) = global {
                limiter.release();
            }
        },
        PermitToken::Local => {
            if let Some(limiter) = local {
                limiter.release();
            }
        },
        PermitToken::Unlimited => {},
    }
}

/// A bucket's cache as the coherence invariant sees it: every composite
/// key the bucket could have produced that is present in the cache is
/// backed by the storage backend, with the same bytes.
pub open spec fn cache_coherent_with(
    cache: Map<Seq<char>, Seq<u8>>,
    store: Map<StoreKey, Seq<u8>>,
    bucket_id: u32,
) -> bool {
    forall|sid: u32, iid: Seq<char>, kind: ImageKind|
        colon_free(iid) && #[trigger] cache.contains_key(key_of(bucket_id, sid, iid, kind))
            ==> store.contains_key((bucket_id, iid, kind, sid)) && cache[key_of(
            bucket_id,
            sid,
            iid,
            kind,
        )] == store[(bucket_id, iid, kind, sid)]
}

/// Owns one bucket's configuration, cache handle, concurrency limiters,
/// pipeline and storage handle, and orchestrates upload, fetch and
/// delete over them.
pub struct BucketController<S: StorageBackend, T: ImageTransformer> {
    pub bucket_id: u32,
    pub cache: Option<Cache>,
    pub shared_cache: Option<Cache>,
    pub global_limiter: Option<Limiter>,
    pub config: BucketConfig,
    pub pipeline: PipelineSelector<T>,
    pub storage: S,
    pub limiter: Option<Limiter>,
}

impl<S: StorageBackend, T: ImageTransformer> BucketController<S, T> {
    /// The controller's invariant: well-formed parts, a pipeline that
    /// agrees with the configuration, and a bucket-local cache coherent
    /// with storage.
    pub open spec fn wf(&self) -> bool {
        &&& self.config.wf()
        &&& limiter_opt_wf(self.global_limiter)
        &&& limiter_opt_wf(self.limiter)
        &&& match self.cache {
            Some(c) => c.wf(),
            None => true,
        }
        &&& match self.shared_cache {
            Some(c) => c.wf(),
            None => true,
        }
        &&& self.storage.inv()
        &&& self.pipeline.mode() == self.config.mode
        &&& self.pipeline.store_format() == self.config.formats.original_image_store_format
        &&& self.pipeline.presets() == self.config.sizing_presets@
        &&& match self.cache {
            Some(c) => cache_coherent_with(c@, self.storage.contents(), self.bucket_id),
            None => true,
        }
    }

    /// Reads through this controller are pinned to storage contents: the
    /// bucket has its own (coherent) cache, or no cache at all. A
    /// process-wide fallback cache is never invalidated by this bucket's
    /// deletes, so reads through it may be stale.
    pub open spec fn reads_coherently(&self) -> bool {
        self.cache is Some || self.shared_cache is None
    }

    /// The fields fixed for the controller's lifetime.
    pub open spec fn same_statics(&self, other: &Self) -> bool {
        &&& self.bucket_id == other.bucket_id
        &&& self.config == other.config
        &&& self.pipeline == other.pipeline
    }

    /// Builds a controller from its startup configuration; the bucket's
    /// own admission limiter comes from `max_concurrency`.
    pub fn new(
        bucket_id: u32,
        cache: Option<Cache>,
        global_limiter: Option<Limiter>,
        config: BucketConfig,
        pipeline: PipelineSelector<T>,
        storage: S,
    ) -> (r: BucketController<S, T>)
        requires
            config.wf(),
            limiter_opt_wf(global_limiter),
            storage.inv(),
            pipeline.mode() == config.mode,
            pipeline.store_format() == config.formats.original_image_store_format,
            pipeline.presets() == config.sizing_presets@,
            match cache {
                Some(c) => c.wf() && cache_coherent_with(c@, storage.contents(), bucket_id),
                None => true,
            },
        ensures
            r.wf(),
            r.bucket_id == bucket_id,
            r.cache == cache,
            r.shared_cache is None,
            r.global_limiter == global_limiter,
            r.config == config,
            r.pipeline == pipeline,
            r.storage == storage,
            match config.max_concurrency {
                Some(n) => r.limiter matches Some(l) && l.spec_capacity() == n
                    && l.spec_available() == n && !l.is_closed(),
                None => r.limiter is None,
            },
    {
        let limiter = match config.max_concurrency {
            Some(n) => Some(Limiter::new(n)),
            None => None,
        };
        BucketController {
            bucket_id,
            cache,
            shared_cache: None,
            global_limiter,
            limiter,
            config,
            pipeline,
            storage,
        }
    }

    /// Attaches the process-wide fallback cache handle consulted when the
    /// bucket has no cache of its own.
    pub fn attach_shared_cache(&mut self, shared: Cache)
        requires
            old(self).wf(),
            shared.wf(),
        ensures
            final(self).wf(),
            *final(self) == (BucketController { shared_cache: Some(shared), ..*old(self) }),
    {
        self.shared_cache = Some(shared);
    }

    /// The bucket's configuration.
    pub fn cfg(&self) -> (r: &BucketConfig)
        ensures
            *r == self.config,
    {
        &self.config
    }

    /// The composite cache key of a variant of an image in this bucket.
    pub fn cache_key(&self, sizing_id: u32, image_id: &str, kind: ImageKind) -> (r: String)
        ensures
            r@ == key_of(self.bucket_id, sizing_id, image_id@, kind),
    {
        render_cache_key(self.bucket_id, sizing_id, image_id, kind)
    }
}

/// The storage key an entry of an image is persisted under.
pub open spec fn entry_key(bucket_id: u32, image_id: Seq<char>, e: StoreEntry) -> StoreKey {
    (bucket_id, image_id, e.kind, e.sizing_id)
}

/// The store after persisting a fan-out of entries of one image, in
/// order: later entries overwrite earlier ones under the same key.
pub open spec fn store_all(
    m: Map<StoreKey, Seq<u8>>,
    bucket_id: u32,
    image_id: Seq<char>,
    entries: Seq<StoreEntry>,
) -> Map<StoreKey, Seq<u8>>
    decreases entries.len(),
{
    if entries.len() == 0 {
        m
    } else {
        store_all(
            m.insert(entry_key(bucket_id, image_id, entries.first()), entries.first().data@),
            bucket_id,
            image_id,
            entries.drop_first(),
        )
    }
}

/// Fan-out writes never drop keys.
pub proof fn lemma_store_all_monotone(
    m: Map<StoreKey, Seq<u8>>,
    bucket_id: u32,
    image_id: Seq<char>,
    entries: Seq<StoreEntry>,
    k: StoreKey,
)
    requires
        m.contains_key(k),
    ensures
        store_all(m, bucket_id, image_id, entries).contains_key(k),
    decreases entries.len(),
{
    if entries.len() > 0 {
        lemma_store_all_monotone(
            m.insert(entry_key(bucket_id, image_id, entries.first()), entries.first().data@),
            bucket_id,
            image_id,
            entries.drop_first(),
            k,
        );
    }
}

/// Every entry of the fan-out ends up stored under its key.
pub proof fn lemma_store_all_entry(
    m: Map<StoreKey, Seq<u8>>,
    bucket_id: u32,
    image_id: Seq<char>,
    entries: Seq<StoreEntry>,
    i: int,
)
    requires
        0 <= i < entries.len(),
    ensures
        store_all(m, bucket_id, image_id, entries).contains_key(
            entry_key(bucket_id, image_id, entries[i]),
        ),
    decreases entries.len(),
{
    let m1 = m.insert(entry_key(bucket_id, image_id, entries.first()), entries.first().data@);
    if i == 0 {
        lemma_store_all_monotone(
            m1,
            bucket_id,
            image_id,
            entries.drop_first(),
            entry_key(bucket_id, image_id, entries.first()),
        );
    } else {
        lemma_store_all_entry(m1, bucket_id, image_id, entries.drop_first(), i - 1);
        assert(entries.drop_first()[i - 1] == entries[i]);
    }
}

/// Persisting one more entry extends the fan-out.
pub proof fn lemma_store_all_push(
    m: Map<StoreKey, Seq<u8>>,
    bucket_id: u32,
    image_id: Seq<char>,
    entries: Seq<StoreEntry>,
    e: StoreEntry,
)
    ensures
        store_all(m, bucket_id, image_id, entries.push(e)) == store_all(
            m,
            bucket_id,
            image_id,
            entries,
        ).insert(entry_key(bucket_id, image_id, e), e.data@),
    decreases entries.len(),
{
    if entries.len() == 0 {
        assert(entries.push(e).drop_first() =~= Seq::<StoreEntry>::empty());
        assert(entries.push(e).first() == e);
        assert(store_all(m, bucket_id, image_id, entries.push(e)) == store_all(
            m.insert(entry_key(bucket_id, image_id, e), e.data@),
            bucket_id,
            image_id,
            entries.push(e).drop_first(),
        ));
        assert(store_all(m, bucket_id, image_id, entries) == m);
    } else {
        let m1 = m.insert(entry_key(bucket_id, image_id, entries.first()), entries.first().data@);
        assert(entries.push(e).first() == entries.first());
        assert(entries.push(e).drop_first() =~= entries.drop_first().push(e));
        lemma_store_all_push(m1, bucket_id, image_id, entries.drop_first(), e);
        assert(store_all(m, bucket_id, image_id, entries.push(e)) == store_all(
            m1,
            bucket_id,
            image_id,
            entries.drop_first().push(e),
        ));
        assert(store_all(m, bucket_id, image_id, entries) == store_all(
            m1,
            bucket_id,
            image_id,
            entries.drop_first(),
        ));
    }
}

impl<S: StorageBackend, T: ImageTransformer> BucketController<S, T> {
    /// The cache-aside read path: consult the bucket's own cache, else
    /// the process-wide fallback, else none; on a hit return the cached
    /// bytes without touching storage; on a miss read storage and
    /// populate the consulted cache on a storage hit.
    fn caching_fetch(&mut self, image_id: &String, fetch_kind: ImageKind, sizing_id: u32) -> (r:
        Result<Option<Vec<u8>>, BucketError>)
        requires
            old(self).wf(),
            colon_free(image_id@),
        ensures
            final(self).wf(),
            final(self).same_statics(old(self)),
            final(self).storage.contents() == old(self).storage.contents(),
            final(self).global_limiter == old(self).global_limiter,
            final(self).limiter == old(self).limiter,
            (final(self).cache is Some) == (old(self).cache is Some),
            (final(self).shared_cache is Some) == (old(self).shared_cache is Some),
            match r {
                Ok(Some(d)) => old(self).reads_coherently() ==> (
                old(self).storage.contents().contains_key(
                    (old(self).bucket_id, image_id@, fetch_kind, sizing_id),
                ) && d@ == old(self).storage.contents()[
                    (old(self).bucket_id, image_id@, fetch_kind, sizing_id)
                ]),
                Ok(None) => !old(self).storage.contents().contains_key(
                    (old(self).bucket_id, image_id@, fetch_kind, sizing_id),
                ),
                Err(e) => e is Storage,
            },
    {
        let key = self.cache_key(sizing_id, image_id.as_str(), fetch_kind);
        let cached: Option<Vec<u8>> = if let Some(c) = &self.cache {
            c.get(&key)
        } else if let Some(c) = &self.shared_cache {
            c.get(&key)
        } else {
            None
        };
        if let Some(buffer) = cached {
            proof {
                if self.cache is Some {
                    assert(self.storage.contents().contains_key(
                        (self.bucket_id, image_id@, fetch_kind, sizing_id),
                    ));
                }
            }
            return Ok(Some(buffer));
        }
        let fetched = match self.storage.fetch(self.bucket_id, image_id, fetch_kind, sizing_id) {
            Ok(v) => v,
            Err(e) => {
                return Err(BucketError::Storage(e));
            },
        };
        match fetched {
            Some(data) => {
                let copy = clone_bytes(&data);
                let ghost b = self.bucket_id;
                let ghost iid = image_id@;
                let ghost store = self.storage.contents();
                if let Some(c) = &mut self.cache {
                    c.insert(key, copy);
                    proof {
                        let cm = match &self.cache {
                            Some(c) => c@,
                            None => Map::<Seq<char>, Seq<u8>>::empty(),
                        };
                        assert forall|sid2: u32, iid2: Seq<char>, kind2: ImageKind|
                            colon_free(iid2) && #[trigger] cm.contains_key(
                                key_of(b, sid2, iid2, kind2),
                            ) implies store.contains_key((b, iid2, kind2, sid2)) && cm[key_of(
                            b,
                            sid2,
                            iid2,
                            kind2,
                        )] == store[(b, iid2, kind2, sid2)] by {
                            if key_of(b, sid2, iid2, kind2) == key_of(b, sizing_id, iid, fetch_kind) {
                                lemma_cache_key_injective(
                                    b, sid2, iid2, kind2,
                                    b, sizing_id, iid, fetch_kind,
                                );
                            }
                        }
                    }
                } else if let Some(c) = &mut self.shared_cache {
                    c.insert(key, copy);
                }
                Ok(Some(data))
            },
            None => Ok(None),
        }
    }

    /// Persists every entry of a fan-out under its key and mirrors each
    /// persisted entry into the bucket's own cache. A failing write fails
    /// the overall call, but the remaining writes are still attempted:
    /// storage may hold partial results the caller is told to treat as
    /// failed.
    fn concurrent_upload(&mut self, image_id: &String, to_store: Vec<StoreEntry>) -> (r: Result<
        Vec<ImageUploadInfo>,
        BucketError,
    >)
        requires
            old(self).wf(),
            colon_free(image_id@),
        ensures
            final(self).wf(),
            final(self).same_statics(old(self)),
            final(self).global_limiter == old(self).global_limiter,
            final(self).limiter == old(self).limiter,
            final(self).shared_cache == old(self).shared_cache,
            (final(self).cache is Some) == (old(self).cache is Some),
            without_image(final(self).storage.contents(), old(self).bucket_id, image_id@)
                == without_image(old(self).storage.contents(), old(self).bucket_id, image_id@),
            to_store@.len() == 0 ==> r is Ok,
            match r {
                Ok(infos) => {
                    &&& infos@.len() == to_store@.len()
                    &&& forall|i: int|
                        0 <= i < to_store@.len() ==> (#[trigger] infos@[i]).sizing_id
                            == to_store@[i].sizing_id
                    &&& final(self).storage.contents() == store_all(
                        old(self).storage.contents(),
                        old(self).bucket_id,
                        image_id@,
                        to_store@,
                    )
                },
                Err(e) => e is Storage,
            },
    {
        let ghost b = self.bucket_id;
        let ghost iid = image_id@;
        let ghost m0 = self.storage.contents();
        let ghost all = to_store@;
        let mut image_upload_info: Vec<ImageUploadInfo> = Vec::new();
        let mut first_err: Option<StorageError> = None;
        let mut remaining = to_store;
        let total = remaining.len();
        proof {
            assert(all.len() == total);
        }
        let mut done: usize = 0;
        while remaining.len() > 0
            invariant
                self.wf(),
                colon_free(iid),
                iid == image_id@,
                b == self.bucket_id,
                self.same_statics(old(self)),
                old(self).bucket_id == b,
                self.global_limiter == old(self).global_limiter,
                self.limiter == old(self).limiter,
                self.shared_cache == old(self).shared_cache,
                (self.cache is Some) == (old(self).cache is Some),
                m0 == old(self).storage.contents(),
                all == to_store@,
                all.len() <= usize::MAX,
                done + remaining@.len() == all.len(),
                remaining@ == all.skip(done as int),
                image_upload_info@.len() == done,
                forall|i: int|
                    0 <= i < done ==> (#[trigger] image_upload_info@[i]).sizing_id
                        == all[i].sizing_id,
                done == 0 ==> first_err is None,
                first_err is None ==> self.storage.contents() == store_all(
                    m0,
                    b,
                    iid,
                    all.take(done as int),
                ),
                without_image(self.storage.contents(), b, iid) == without_image(m0, b, iid),
            decreases remaining@.len(),
        {
            let store_entry = remaining.remove(0);
            proof {
                assert(store_entry == all[done as int]);
                assert(remaining@ =~= all.skip(done as int + 1));
            }
            image_upload_info.push(ImageUploadInfo { sizing_id: store_entry.sizing_id });
            let cache_key = self.cache_key(
                store_entry.sizing_id,
                image_id.as_str(),
                store_entry.kind,
            );
            let entry_kind = store_entry.kind;
            let entry_sizing = store_entry.sizing_id;
            let cached_bytes = clone_bytes(&store_entry.data);
            let ghost m_pre = self.storage.contents();
            let stored = self.storage.store(
                self.bucket_id,
                image_id,
                entry_kind,
                entry_sizing,
                store_entry.data,
            );
            match stored {
                Ok(_) => {
                    let ghost m_now = self.storage.contents();
                    let ghost ek = entry_key(b, iid, all[done as int]);
                    proof {
                        assert(m_now == m_pre.insert(ek, all[done as int].data@));
                        if first_err is None {
                            lemma_store_all_push(m0, b, iid, all.take(done as int), all[done as int]);
                            assert(all.take(done as int).push(all[done as int]) =~= all.take(
                                done as int + 1,
                            ));
                        }
                        assert(without_image(m_now, b, iid) =~= without_image(m_pre, b, iid)) by {
                            assert forall|k: StoreKey|
                                without_image(m_now, b, iid).contains_key(k)
                                    == without_image(m_pre, b, iid).contains_key(k) by {
                                if k != ek {
                                    assert(m_now.contains_key(k) == m_pre.contains_key(k));
                                }
                            }
                        }
                    }
                    if let Some(c) = &mut self.cache {
                        c.insert(cache_key, cached_bytes);
                        proof {
                            let cm = match &self.cache {
                                Some(c) => c@,
                                None => Map::<Seq<char>, Seq<u8>>::empty(),
                            };
                            let store = self.storage.contents();
                            assert forall|sid2: u32, iid2: Seq<char>, kind2: ImageKind|
                                colon_free(iid2) && #[trigger] cm.contains_key(
                                    key_of(b, sid2, iid2, kind2),
                                ) implies store.contains_key((b, iid2, kind2, sid2)) && cm[key_of(
                                b,
                                sid2,
                                iid2,
                                kind2,
                            )] == store[(b, iid2, kind2, sid2)] by {
                                if key_of(b, sid2, iid2, kind2) == key_of(
                                    b,
                                    entry_sizing,
                                    iid,
                                    entry_kind,
                                ) {
                                    lemma_cache_key_injective(
                                        b, sid2, iid2, kind2,
                                        b, entry_sizing, iid, entry_kind,
                                    );
                                }
                            }
                        }
                    }
                },
                Err(e) => {
                    if first_err.is_none() {
                        first_err = Some(e);
                    }
                },
            }
            done = done + 1;
        }
        proof {
            assert(all.take(done as int) =~= all);
        }
        match first_err {
            Some(e) => Err(BucketError::Storage(e)),
            None => Ok(image_upload_info),
        }
    }
}


impl<S: StorageBackend, T: ImageTransformer> BucketController<S, T> {
    /// Uploads raw bytes: admission, identity and checksum, the pipeline's
    /// upload hook, then the fan-out of the produced variants to storage
    /// and cache. The permit is released on every exit path.
    pub fn upload(&mut self, kind: ImageKind, data: Vec<u8>) -> (r: Result<
        UploadInfo,
        BucketError,
    >)
        requires
            old(self).wf(),
        ensures
            final(self).wf(),
            final(self).same_statics(old(self)),
            final(self).global_limiter == old(self).global_limiter,
            final(self).limiter == old(self).limiter,
            final(self).shared_cache == old(self).shared_cache,
            (final(self).cache is Some) == (old(self).cache is Some),
            (r == Err::<UploadInfo, BucketError>(BucketError::Admission)) <==> !admission_ok(
                old(self).global_limiter,
                old(self).limiter,
            ),
            without_image(
                final(self).storage.contents(),
                old(self).bucket_id,
                image_id_of(data@),
            ) == without_image(
                old(self).storage.contents(),
                old(self).bucket_id,
                image_id_of(data@),
            ),
            match r {
                Ok(info) => {
                    let b = old(self).bucket_id;
                    let iid = image_id_of(data@);
                    let sf = old(self).config.formats.original_image_store_format;
                    let ids = old(self).pipeline.preset_ids();
                    &&& info.image_id@ == iid
                    &&& info.checksum == crc32_of(data@)
                    &&& info.bucket_id == b
                    &&& info.images@[0].sizing_id == 0
                    &&& (old(self).config.mode != ProcessingMode::Aot ==> info.images@.len() == 1)
                    &&& final(self).storage.contents().contains_key((b, iid, sf, 0))
                    &&& (old(self).config.mode == ProcessingMode::Aot ==> {
                        &&& info.images@.len() == 1 + ids.len()
                        &&& forall|i: int|
                            0 <= i < ids.len() ==> (#[trigger] info.images@[i + 1]).sizing_id
                                == ids[i]
                        &&& forall|i: int|
                            0 <= i < ids.len() ==> final(self).storage.contents().contains_key(
                                (b, iid, sf, #[trigger] ids[i]),
                            )
                    })
                },
                Err(e) => {
                    &&& (e is Pipeline ==> final(self).storage.contents() == old(
                        self,
                    ).storage.contents())
                    &&& (e is Admission ==> *final(self) == *old(self))
                },
            },
    {
        let token = match get_optional_permit(&mut self.global_limiter, &mut self.limiter) {
            Ok(t) => t,
            Err(e) => {
                return Err(e);
            },
        };
        let checksum = crc32_checksum(data.as_slice());
        let image_id = sha256_hash(data.as_slice());
        proof {
            lemma_hex_of_colon_free(crate::utils::sha256_of(data@));
        }
        let ghost data_view = data@;
        let result = match self.pipeline.on_upload(kind, data) {
            Ok(res) => res,
            Err(e) => {
                release_optional_permit(&mut self.global_limiter, &mut self.limiter, token);
                proof {
                    assert(self.global_limiter == old(self).global_limiter);
                    assert(self.limiter == old(self).limiter);
                }
                return Err(BucketError::Pipeline(e));
            },
        };
        let ghost to_store_view = result.to_store@;
        let image_upload_info = match self.concurrent_upload(&image_id, result.to_store) {
            Ok(infos) => infos,
            Err(e) => {
                release_optional_permit(&mut self.global_limiter, &mut self.limiter, token);
                proof {
                    assert(self.global_limiter == old(self).global_limiter);
                    assert(self.limiter == old(self).limiter);
                }
                return Err(e);
            },
        };
        release_optional_permit(&mut self.global_limiter, &mut self.limiter, token);
        proof {
            assert(self.global_limiter == old(self).global_limiter);
            assert(self.limiter == old(self).limiter);
            let b = old(self).bucket_id;
            let iid = image_id_of(data_view);
            let m0 = old(self).storage.contents();
            lemma_store_all_entry(m0, b, iid, to_store_view, 0);
            if old(self).config.mode == ProcessingMode::Aot {
                let ids = old(self).pipeline.preset_ids();
                assert forall|i: int| 0 <= i < ids.len() implies
                    self.storage.contents().contains_key((b, iid,
                        old(self).config.formats.original_image_store_format,
                        #[trigger] ids[i])) by {
                    lemma_store_all_entry(m0, b, iid, to_store_view, i + 1);
                }
            }
        }
        Ok(
            UploadInfo {
                checksum,
                image_id,
                bucket_id: self.bucket_id,
                images: image_upload_info,
            },
        )
    }
}


/// The view of an optional preset name.
pub open spec fn spec_opt_view(o: Option<String>) -> Option<Seq<char>> {
    match o {
        Some(s) => Some(s@),
        None => None,
    }
}

/// The effective sizing id of a fetch: the explicit preset argument wins,
/// else the bucket's configured default; the literal name `original` (or
/// no preset at all) is the reserved id `0`, and any other name maps to
/// its deterministic hash.
pub open spec fn resolved_sizing_id(
    size_preset: Option<Seq<char>>,
    default_preset: Option<Seq<char>>,
) -> u32 {
    match (match size_preset {
        Some(s) => Some(s),
        None => default_preset,
    }) {
        Some(name) => if name == "original"@ {
            0u32
        } else {
            crc_hash_of(name)
        },
        None => 0u32,
    }
}

/// Resolves the effective sizing id of a fetch.
pub fn resolve_sizing_id(size_preset: &Option<String>, default_preset: &Option<String>) -> (r: u32)
    ensures
        r == resolved_sizing_id(spec_opt_view(*size_preset), spec_opt_view(*default_preset)),
{
    let name: Option<&String> = match size_preset {
        Some(s) => Some(s),
        None => match default_preset {
            Some(d) => Some(d),
            None => None,
        },
    };
    match name {
        Some(n) => {
            let original = String::from_str("original");
            if n.eq(&original) {
                0
            } else {
                crc_hash(n.as_str())
            }
        },
        None => 0,
    }
}

impl<S: StorageBackend, T: ImageTransformer> BucketController<S, T> {
    /// Fetches a variant: admission, sizing resolution, a mode-dependent
    /// cache-aside lookup, and — outside ahead-of-time mode — the
    /// pipeline's fetch hook plus the fan-out of whatever it queued.
    /// `None` means the image (or, in realtime and ahead-of-time modes,
    /// the requested variant) does not exist; errors are distinct.
    pub fn fetch(
        &mut self,
        image_id: &String,
        desired_kind: ImageKind,
        size_preset: Option<String>,
        custom_sizing: Option<(u32, u32)>,
    ) -> (r: Result<Option<StoreEntry>, BucketError>)
        requires
            old(self).wf(),
            colon_free(image_id@),
        ensures
            final(self).wf(),
            final(self).same_statics(old(self)),
            final(self).global_limiter == old(self).global_limiter,
            final(self).limiter == old(self).limiter,
            (final(self).cache is Some) == (old(self).cache is Some),
            (final(self).shared_cache is Some) == (old(self).shared_cache is Some),
            (r == Err::<Option<StoreEntry>, BucketError>(BucketError::Admission)) <==> !admission_ok(
                old(self).global_limiter,
                old(self).limiter,
            ),
            (r == Err::<Option<StoreEntry>, BucketError>(BucketError::Admission)) ==> *final(self)
                == *old(self),
            old(self).config.mode != ProcessingMode::Jit ==> final(self).storage.contents() == old(
                self,
            ).storage.contents(),
            without_image(final(self).storage.contents(), old(self).bucket_id, image_id@)
                == without_image(old(self).storage.contents(), old(self).bucket_id, image_id@),
            ({
                let sid = resolved_sizing_id(
                    spec_opt_view(size_preset),
                    spec_opt_view(old(self).config.default_serving_preset),
                );
                r matches Ok(Some(e)) ==> e.kind == desired_kind && e.sizing_id == sid
            }),
            ({
                let b = old(self).bucket_id;
                let iid = image_id@;
                let sf = old(self).config.formats.original_image_store_format;
                let sid = resolved_sizing_id(
                    spec_opt_view(size_preset),
                    spec_opt_view(old(self).config.default_serving_preset),
                );
                let m0 = old(self).storage.contents();
                let m1 = final(self).storage.contents();
                old(self).reads_coherently() ==> match old(self).config.mode {
                    ProcessingMode::Realtime => {
                        &&& ((r matches Ok(None)) <==> (r is Ok && !m0.contains_key(
                            (b, iid, sf, 0),
                        )))
                        &&& (r matches Ok(Some(e)) ==> ((desired_kind == sf && sid == 0
                            && custom_sizing is None) ==> e.data@ == m0[(b, iid, sf, 0)]))
                    },
                    ProcessingMode::Aot => {
                        &&& ((r matches Ok(None)) <==> (r is Ok && !m0.contains_key(
                            (b, iid, desired_kind, sid),
                        )))
                        &&& (r matches Ok(Some(e)) ==> m0.contains_key((b, iid, desired_kind, sid))
                            && e.data@ == m0[(b, iid, desired_kind, sid)])
                    },
                    ProcessingMode::Jit => {
                        &&& ((r matches Ok(None)) <==> (r is Ok && !m0.contains_key(
                            (b, iid, desired_kind, sid),
                        ) && !m0.contains_key((b, iid, sf, 0))))
                        &&& (r matches Ok(Some(e)) ==> ((desired_kind != sf || custom_sizing
                            is Some || m0.contains_key((b, iid, desired_kind, sid))) ==> (
                        m1.contains_key((b, iid, desired_kind, sid)) && m1[
                            (b, iid, desired_kind, sid)
                        ] == e.data@)))
                    },
                }
            }),
    {
        let token = match get_optional_permit(&mut self.global_limiter, &mut self.limiter) {
            Ok(t) => t,
            Err(e) => {
                return Err(e);
            },
        };
        let sizing_id = resolve_sizing_id(&size_preset, &self.config.default_serving_preset);
        let mode = self.config.mode;
        let fetch_kind = if mode == ProcessingMode::Realtime {
            self.config.formats.original_image_store_format
        } else {
            desired_kind
        };
        let lookup_sizing = if mode == ProcessingMode::Realtime {
            0
        } else {
            sizing_id
        };
        let maybe_existing = match self.caching_fetch(image_id, fetch_kind, lookup_sizing) {
            Ok(v) => v,
            Err(e) => {
                release_optional_permit(&mut self.global_limiter, &mut self.limiter, token);
                proof {
                    assert(self.global_limiter == old(self).global_limiter);
                    assert(self.limiter == old(self).limiter);
                }
                return Err(e);
            },
        };
        let ghost direct_hit = maybe_existing is Some;
        let (data, retrieved_kind) = match maybe_existing {
            None => {
                if mode == ProcessingMode::Jit {
                    let base_kind = self.config.formats.original_image_store_format;
                    let value = match self.caching_fetch(image_id, base_kind, 0) {
                        Ok(v) => v,
                        Err(e) => {
                            release_optional_permit(
                                &mut self.global_limiter,
                                &mut self.limiter,
                                token,
                            );
                            proof {
                                assert(self.global_limiter == old(self).global_limiter);
                                assert(self.limiter == old(self).limiter);
                            }
                            return Err(e);
                        },
                    };
                    match value {
                        None => {
                            release_optional_permit(
                                &mut self.global_limiter,
                                &mut self.limiter,
                                token,
                            );
                            proof {
                                assert(self.global_limiter == old(self).global_limiter);
                                assert(self.limiter == old(self).limiter);
                            }
                            return Ok(None);
                        },
                        Some(original) => (original, base_kind),
                    }
                } else {
                    release_optional_permit(&mut self.global_limiter, &mut self.limiter, token);
                    proof {
                        assert(self.global_limiter == old(self).global_limiter);
                        assert(self.limiter == old(self).limiter);
                    }
                    return Ok(None);
                }
            },
            Some(computed) => (computed, fetch_kind),
        };
        if mode == ProcessingMode::Aot {
            release_optional_permit(&mut self.global_limiter, &mut self.limiter, token);
            proof {
                assert(self.global_limiter == old(self).global_limiter);
                assert(self.limiter == old(self).limiter);
            }
            return Ok(Some(StoreEntry { data, kind: retrieved_kind, sizing_id }));
        }
        let ghost data_view = data@;
        let result = match self.pipeline.on_fetch(
            desired_kind,
            retrieved_kind,
            data,
            sizing_id,
            custom_sizing,
        ) {
            Ok(res) => res,
            Err(e) => {
                release_optional_permit(&mut self.global_limiter, &mut self.limiter, token);
                proof {
                    assert(self.global_limiter == old(self).global_limiter);
                    assert(self.limiter == old(self).limiter);
                }
                return Err(BucketError::Pipeline(e));
            },
        };
        let ghost to_store_view = result.to_store@;
        let ghost m_mid = self.storage.contents();
        match self.concurrent_upload(image_id, result.to_store) {
            Ok(_) => {},
            Err(e) => {
                release_optional_permit(&mut self.global_limiter, &mut self.limiter, token);
                proof {
                    assert(self.global_limiter == old(self).global_limiter);
                    assert(self.limiter == old(self).limiter);
                }
                return Err(e);
            },
        }
        release_optional_permit(&mut self.global_limiter, &mut self.limiter, token);
        proof {
            assert(self.global_limiter == old(self).global_limiter);
            assert(self.limiter == old(self).limiter);
            if to_store_view.len() == 0 {
                assert(store_all(m_mid, old(self).bucket_id, image_id@, to_store_view) == m_mid);
            } else {
                let b = old(self).bucket_id;
                let iid = image_id@;
                let ek = entry_key(b, iid, to_store_view[0]);
                assert(to_store_view.drop_first() =~= Seq::<StoreEntry>::empty());
                assert(store_all(m_mid, b, iid, to_store_view) == store_all(
                    m_mid.insert(ek, to_store_view[0].data@),
                    b,
                    iid,
                    to_store_view.drop_first(),
                ));
                assert(self.storage.contents() == m_mid.insert(ek, to_store_view[0].data@));
            }
        }
        Ok(result.response)
    }

    /// Deletes an image: the backend purges every variant and reports the
    /// combinations that existed; each reported combination is then
    /// invalidated in the bucket's own cache. A bucket serving through the
    /// process-wide fallback cache leaves that cache untouched.
    pub fn delete(&mut self, image_id: &String) -> (r: Result<(), BucketError>)
        requires
            old(self).wf(),
            colon_free(image_id@),
        ensures
            final(self).wf(),
            final(self).same_statics(old(self)),
            final(self).global_limiter == old(self).global_limiter,
            final(self).limiter == old(self).limiter,
            final(self).shared_cache == old(self).shared_cache,
            (final(self).cache is Some) == (old(self).cache is Some),
            (r == Err::<(), BucketError>(BucketError::Admission)) <==> !admission_ok(
                old(self).global_limiter,
                old(self).limiter,
            ),
            (r == Err::<(), BucketError>(BucketError::Admission)) ==> *final(self) == *old(self),
            match r {
                Ok(_) => {
                    &&& final(self).storage.contents() == without_image(
                        old(self).storage.contents(),
                        old(self).bucket_id,
                        image_id@,
                    )
                    &&& (final(self).cache matches Some(c) ==> forall|sid: u32, kind: ImageKind|
                        !c@.contains_key(
                            #[trigger] key_of(old(self).bucket_id, sid, image_id@, kind),
                        ))
                },
                Err(e) => {
                    &&& final(self).storage.contents() == old(self).storage.contents()
                    &&& final(self).cache == old(self).cache
                },
            },
    {
        let token = match get_optional_permit(&mut self.global_limiter, &mut self.limiter) {
            Ok(t) => t,
            Err(e) => {
                return Err(e);
            },
        };
        let ghost m0 = self.storage.contents();
        let purged_entities = match self.storage.delete(self.bucket_id, image_id) {
            Ok(v) => v,
            Err(e) => {
                release_optional_permit(&mut self.global_limiter, &mut self.limiter, token);
                proof {
                    assert(self.global_limiter == old(self).global_limiter);
                    assert(self.limiter == old(self).limiter);
                }
                return Err(BucketError::Storage(e));
            },
        };
        let b = self.bucket_id;
        let ghost iid = image_id@;
        let ghost purged = purged_entities@;
        let ghost m1 = self.storage.contents();
        if let Some(cache) = &mut self.cache {
            let ghost c0 = cache@;
            let n = purged_entities.len();
            for i in 0..n
                invariant
                    n == purged.len(),
                    purged == purged_entities@,
                    iid == image_id@,
                    colon_free(iid),
                    cache.wf(),
                    forall|k: Seq<char>|
                        #[trigger] cache@.contains_key(k) ==> c0.contains_key(k) && cache@[k]
                            == c0[k],
                    forall|j: int|
                        0 <= j < i ==> !cache@.contains_key(
                            #[trigger] key_of(b, purged[j].0, iid, purged[j].1),
                        ),
            {
                let cache_key = render_cache_key(
                    b,
                    purged_entities[i].0,
                    image_id.as_str(),
                    purged_entities[i].1,
                );
                cache.invalidate(&cache_key);
            }
            proof {
                let c1 = cache@;
                assert forall|sid: u32, kind: ImageKind|
                    !c1.contains_key(#[trigger] key_of(b, sid, iid, kind)) by {
                    if c1.contains_key(key_of(b, sid, iid, kind)) {
                        assert(c0.contains_key(key_of(b, sid, iid, kind)));
                        assert(m0.contains_key((b, iid, kind, sid)));
                        assert(purged.contains((sid, kind)));
                        let j = choose|j: int| 0 <= j < purged.len() && purged[j] == (sid, kind);
                        assert(!c1.contains_key(key_of(b, purged[j].0, iid, purged[j].1)));
                    }
                }
                assert forall|sid2: u32, iid2: Seq<char>, kind2: ImageKind|
                    colon_free(iid2) && #[trigger] c1.contains_key(key_of(b, sid2, iid2, kind2))
                        implies m1.contains_key((b, iid2, kind2, sid2)) && c1[key_of(
                    b,
                    sid2,
                    iid2,
                    kind2,
                )] == m1[(b, iid2, kind2, sid2)] by {
                    assert(c0.contains_key(key_of(b, sid2, iid2, kind2)));
                    assert(m0.contains_key((b, iid2, kind2, sid2)));
                    if iid2 == iid {
                        assert(!c1.contains_key(key_of(b, sid2, iid, kind2)));
                        assert(false);
                    }
                    assert(m1.contains_key((b, iid2, kind2, sid2)) && m1[(b, iid2, kind2, sid2)]
                        == m0[(b, iid2, kind2, sid2)]);
                }
            }
        }
        release_optional_permit(&mut self.global_limiter, &mut self.limiter, token);
        proof {
            assert(self.global_limiter == old(self).global_limiter);
            assert(self.limiter == old(self).limiter);
        }
        Ok(())
    }
}


/// The process-wide bucket registry: set exactly once during startup,
/// read-only thereafter.
pub struct BucketRegistry<S: StorageBackend, T: ImageTransformer> {
    entries: Vec<(u32, BucketController<S, T>)>,
    initialized: bool,
}

impl<S: StorageBackend, T: ImageTransformer> BucketRegistry<S, T> {
    /// The registered buckets.
    pub closed spec fn spec_entries(&self) -> Seq<(u32, BucketController<S, T>)> {
        self.entries@
    }

    /// Whether the one-time initialization has happened.
    pub closed spec fn is_initialized(&self) -> bool {
        self.initialized
    }

    /// Every registered controller is well-formed.
    pub open spec fn wf(&self) -> bool {
        forall|i: int|
            0 <= i < self.spec_entries().len() ==> (#[trigger] self.spec_entries()[i]).1.wf()
    }

    /// An empty, not yet initialized registry.
    pub fn new() -> (r: BucketRegistry<S, T>)
        ensures
            r.wf(),
            !r.is_initialized(),
            r.spec_entries().len() == 0,
    {
        BucketRegistry { entries: Vec::new(), initialized: false }
    }
}

/// Populates the registry. The registry is set exactly once: a second
/// call is a no-op.
pub fn init_buckets<S: StorageBackend, T: ImageTransformer>(
    registry: &mut BucketRegistry<S, T>,
    buckets: Vec<(u32, BucketController<S, T>)>,
)
    requires
        old(registry).wf(),
        forall|i: int| 0 <= i < buckets@.len() ==> (#[trigger] buckets@[i]).1.wf(),
    ensures
        final(registry).wf(),
        !old(registry).is_initialized() ==> (final(registry).spec_entries() == buckets@
            && final(registry).is_initialized()),
        old(registry).is_initialized() ==> *final(registry) == *old(registry),
{
    if !registry.initialized {
        registry.entries = buckets;
        registry.initialized = true;
    }
}

/// Looks a bucket's controller up by its id.
pub fn get_bucket_by_id<'a, S: StorageBackend, T: ImageTransformer>(
    registry: &'a BucketRegistry<S, T>,
    bucket_id: u32,
) -> (r: Option<&'a BucketController<S, T>>)
    requires
        registry.wf(),
    ensures
        match r {
            Some(c) => c.wf() && exists|i: int|
                0 <= i < registry.spec_entries().len() && (#[trigger] registry.spec_entries()[i]).0
                    == bucket_id && registry.spec_entries()[i].1 == *c,
            None => forall|i: int|
                0 <= i < registry.spec_entries().len() ==> (#[trigger] registry.spec_entries()[
                    i
                ]).0 != bucket_id,
        },
{
    let n = registry.entries.len();
    for i in 0..n
        invariant
            n == registry.spec_entries().len(),
            registry.wf(),
            forall|j: int|
                0 <= j < i ==> (#[trigger] registry.spec_entries()[j]).0 != bucket_id,
    {
        if registry.entries[i].0 == bucket_id {
            return Some(&registry.entries[i].1);
        }
    }
    None
}

/// Looks a bucket's controller up by the deterministic hash of its name.
pub fn get_bucket_by_name<'a, S: StorageBackend, T: ImageTransformer>(
    registry: &'a BucketRegistry<S, T>,
    bucket: &str,
) -> (r: Option<&'a BucketController<S, T>>)
    requires
        registry.wf(),
    ensures
        match r {
            Some(c) => c.wf() && exists|i: int|
                0 <= i < registry.spec_entries().len() && (#[trigger] registry.spec_entries()[i]).0
                    == crc_hash_of(bucket@) && registry.spec_entries()[i].1 == *c,
            None => forall|i: int|
                0 <= i < registry.spec_entries().len() ==> (#[trigger] registry.spec_entries()[
                    i
                ]).0 != crc_hash_of(bucket@),
        },
{
    let bucket_id = crc_hash(bucket);
    get_bucket_by_id(registry, bucket_id)
}

} // verus!
