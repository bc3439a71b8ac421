//! The storage backend capability: what the bucket controller relies on
//! from any durable store of derived image variants.

use crate::config::ImageKind;
use vstd::prelude::*;

verus! {

/// A backend I/O failure. Not-found is not an error: absent variants are
/// reported as `None` by `fetch`.
#[derive(Clone, Copy, Debug, PartialEq, Eq, Structural)]
pub struct StorageError;

/// The identity a variant is stored under.
pub type StoreKey = (u32, Seq<char>, ImageKind, u32);

/// The store with every variant of one image removed.
pub open spec fn without_image(
    m: Map<StoreKey, Seq<u8>>,
    bucket_id: u32,
    image_id: Seq<char>,
) -> Map<StoreKey, Seq<u8>> {
    Map::<StoreKey, Seq<u8>>::new(
        |k: StoreKey| m.contains_key(k) && !(k.0 == bucket_id && k.1 == image_id),
        |k: StoreKey| m[k],
    )
}

/// Durable store for derived image variants, addressed by
/// `(bucket_id, image_id, kind, sizing_id)`.
///
/// Implementations either perform the requested change and return `Ok`,
/// or fail without changing the visible contents; `delete` reports every
/// variant combination of the image that existed prior to deletion.
pub trait StorageBackend: Sized {
    /// The variants currently stored, as a map to their bytes.
    spec fn contents(&self) -> Map<StoreKey, Seq<u8>>;

    /// The backend's internal well-formedness; constructors establish it
    /// and every operation preserves it.
    spec fn inv(&self) -> bool;

    /// Persists one variant, replacing any previous bytes under the key.
    fn store(
        &mut self,
        bucket_id: u32,
        image_id: &String,
        kind: ImageKind,
        sizing_id: u32,
        data: Vec<u8>,
    ) -> (r: Result<(), StorageError>)
        requires
            old(self).inv(),
        ensures
            final(self).inv(),
            r is Ok ==> final(self).contents() == old(self).contents().insert(
                (bucket_id, image_id@, kind, sizing_id),
                data@,
            ),
            r is Err ==> final(self).contents() == old(self).contents(),
    ;

    /// Reads one variant back; `None` exactly when it is not stored.
    fn fetch(
        &self,
        bucket_id: u32,
        image_id: &String,
        kind: ImageKind,
        sizing_id: u32,
    ) -> (r: Result<Option<Vec<u8>>, StorageError>)
        requires
            self.inv(),
        ensures
            match r {
                Ok(Some(d)) => self.contents().contains_key((bucket_id, image_id@, kind, sizing_id))
                    && d@ == self.contents()[(bucket_id, image_id@, kind, sizing_id)],
                Ok(None) => !self.contents().contains_key((bucket_id, image_id@, kind, sizing_id)),
                Err(_) => true,
            },
    ;

    /// Purges every variant of an image, reporting each `(sizing_id, kind)`
    /// combination that existed.
    fn delete(&mut self, bucket_id: u32, image_id: &String) -> (r: Result<
        Vec<(u32, ImageKind)>,
        StorageError,
    >)
        requires
            old(self).inv(),
        ensures
            final(self).inv(),
            match r {
                Ok(v) => {
                    &&& final(self).contents() == without_image(
                        old(self).contents(),
                        bucket_id,
                        image_id@,
                    )
                    &&& forall|s: u32, k: ImageKind|
                        v@.contains((s, k)) <==> old(self).contents().contains_key(
                            (bucket_id, image_id@, k, s),
                        )
                },
                Err(_) => final(self).contents() == old(self).contents(),
            },
    ;
}

} // verus!
