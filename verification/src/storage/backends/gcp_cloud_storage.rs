//! The verifiable half of the cloud object-storage adapter: object path
//! layout and the purge plan for deletes. The client calls themselves are
//! I/O and live with the unverified adapters.

use crate::config::file_extension_of;
use crate::config::BucketConfig;
use crate::config::ImageKind;
use crate::keys::dec_of;
use crate::keys::render_u32;
use vstd::prelude::*;
use vstd::string::StringExecFns;

verus! {

/// The object name a variant is stored under:
/// `bucket/sizing/image.extension`.
pub open spec fn object_path_of(
    bucket_id: u32,
    sizing_id: u32,
    image_id: Seq<char>,
    kind: ImageKind,
) -> Seq<char> {
    dec_of(bucket_id as nat) + seq!['/'] + dec_of(sizing_id as nat) + seq!['/'] + image_id
        + seq!['.'] + file_extension_of(kind)
}

/// Renders the object name a variant is stored under.
pub fn format_path(bucket_id: u32, sizing_id: u32, image_id: &str, kind: ImageKind) -> (r: String)
    ensures
        r@ == object_path_of(bucket_id, sizing_id, image_id@, kind),
{
    proof {
        reveal_strlit("/");
        reveal_strlit(".");
    }
    let mut r = render_u32(bucket_id);
    r.append("/");
    let sizing = render_u32(sizing_id);
    r.append(sizing.as_str());
    r.append("/");
    r.append(image_id);
    r.append(".");
    r.append(kind.as_file_extension());
    proof {
        assert("/"@ =~= seq!['/']);
        assert("."@ =~= seq!['.']);
        assert(r@ =~= object_path_of(bucket_id, sizing_id, image_id@, kind));
    }
    r
}

/// The encoding purged at a given offset of each sizing id's block.
pub open spec fn purge_kind_at(j: int) -> ImageKind {
    if j == 0 { ImageKind::Png } else if j == 1 { ImageKind::Jpeg } else if j == 2 {
        ImageKind::Webp
    } else {
        ImageKind::Gif
    }
}

/// Plans a purge of every variant an image could be stored under: for
/// each registered sizing id and each supported encoding, the object path
/// to delete and the `(sizing_id, kind)` combination to report.
pub fn purge_plan(config: &BucketConfig, bucket_id: u32, image_id: &str) -> (r: (
    Vec<String>,
    Vec<(u32, ImageKind)>,
))
    ensures
        r.0@.len() == r.1@.len(),
        ({
            let ids = seq![0u32] + config.sizing_presets@.map_values(|p: crate::config::SizingPreset| p.sizing_id);
            &&& r.1@.len() == 4 * ids.len()
            &&& forall|i: int, j: int|
                0 <= i < ids.len() && 0 <= j < 4 ==> #[trigger] r.1@[4 * i + j] == (
                    ids[i],
                    purge_kind_at(j),
                )
            &&& forall|i: int, j: int|
                0 <= i < ids.len() && 0 <= j < 4 ==> (#[trigger] r.0@[4 * i + j])@
                    == object_path_of(bucket_id, ids[i], image_id@, purge_kind_at(j))
        }),
{
    let ghost ids_spec = seq![0u32] + config.sizing_presets@.map_values(
        |p: crate::config::SizingPreset| p.sizing_id,
    );
    let ids = config.sizing_preset_ids();
    proof {
        assert(ids@ =~= ids_spec);
    }
    let mut paths: Vec<String> = Vec::new();
    let mut pairs: Vec<(u32, ImageKind)> = Vec::new();
    let n = ids.len();
    for i in 0..n
        invariant
            n == ids@.len(),
            ids@ == ids_spec,
            paths@.len() == 4 * i,
            pairs@.len() == 4 * i,
            forall|a: int, j: int|
                0 <= a < i && 0 <= j < 4 ==> #[trigger] pairs@[4 * a + j] == (
                    ids_spec[a],
                    purge_kind_at(j),
                ),
            forall|a: int, j: int|
                0 <= a < i && 0 <= j < 4 ==> (#[trigger] paths@[4 * a + j])@ == object_path_of(
                    bucket_id,
                    ids_spec[a],
                    image_id@,
                    purge_kind_at(j),
                ),
    {
        let sizing_id = ids[i];
        let kinds = ImageKind::variants();
        for j in 0..4usize
            invariant
                kinds@ == seq![ImageKind::Png, ImageKind::Jpeg, ImageKind::Webp, ImageKind::Gif],
                n == ids@.len(),
                ids@ == ids_spec,
                i < n,
                sizing_id == ids_spec[i as int],
                paths@.len() == 4 * i + j,
                pairs@.len() == 4 * i + j,
                forall|a: int, b: int|
                    0 <= a < i && 0 <= b < 4 ==> #[trigger] pairs@[4 * a + b] == (
                        ids_spec[a],
                        purge_kind_at(b),
                    ),
                forall|a: int, b: int|
                    0 <= a < i && 0 <= b < 4 ==> (#[trigger] paths@[4 * a + b])@ == object_path_of(
                        bucket_id,
                        ids_spec[a],
                        image_id@,
                        purge_kind_at(b),
                    ),
                forall|b: int|
                    0 <= b < j ==> #[trigger] pairs@[4 * (i as int) + b] == (
                        ids_spec[i as int],
                        purge_kind_at(b),
                    ),
                forall|b: int|
                    0 <= b < j ==> (#[trigger] paths@[4 * (i as int) + b])@ == object_path_of(
                        bucket_id,
                        ids_spec[i as int],
                        image_id@,
                        purge_kind_at(b),
                    ),
        {
            let kind = kinds[j];
            proof {
                assert(kinds@[j as int] == purge_kind_at(j as int));
            }
            paths.push(format_path(bucket_id, sizing_id, image_id, kind));
            pairs.push((sizing_id, kind));
        }
    }
    (paths, pairs)
}

} // verus!
