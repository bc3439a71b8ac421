//! Static per-bucket configuration: supported image encodings, sizing
//! presets, processing mode and admission limits.

use crate::utils::crc_hash;
use crate::utils::crc_hash_of;
use vstd::prelude::*;

verus! {

/// Closed enumeration of the supported image encodings.
#[derive(Clone, Copy, Debug, PartialEq, Eq, Structural)]
pub enum ImageKind {
    Png,
    Jpeg,
    Webp,
    Gif,
}

/// File extension of an encoding, as a character sequence.
pub open spec fn file_extension_of(kind: ImageKind) -> Seq<char> {
    match kind {
        ImageKind::Png => seq!['p', 'n', 'g'],
        ImageKind::Jpeg => seq!['j', 'p', 'e', 'g'],
        ImageKind::Webp => seq!['w', 'e', 'b', 'p'],
        ImageKind::Gif => seq!['g', 'i', 'f'],
    }
}

/// Content type of an encoding, as a character sequence.
pub open spec fn content_type_of(kind: ImageKind) -> Seq<char> {
    seq!['i', 'm', 'a', 'g', 'e', '/'] + file_extension_of(kind)
}

impl ImageKind {
    /// The file extension this encoding is stored under.
    pub fn as_file_extension(&self) -> (r: &'static str)
        ensures
            r@ == file_extension_of(*self),
    {
        proof {
            reveal_strlit("png");
            reveal_strlit("jpeg");
            reveal_strlit("webp");
            reveal_strlit("gif");
        }
        match self {
            ImageKind::Png => {
                proof {
                    assert("png"@ =~= file_extension_of(ImageKind::Png));
                }
                "png"
            },
            ImageKind::Jpeg => {
                proof {
                    assert("jpeg"@ =~= file_extension_of(ImageKind::Jpeg));
                }
                "jpeg"
            },
            ImageKind::Webp => {
                proof {
                    assert("webp"@ =~= file_extension_of(ImageKind::Webp));
                }
                "webp"
            },
            ImageKind::Gif => {
                proof {
                    assert("gif"@ =~= file_extension_of(ImageKind::Gif));
                }
                "gif"
            },
        }
    }

    /// The content-type string served with this encoding.
    pub fn as_content_type(&self) -> (r: &'static str)
        ensures
            r@ == content_type_of(*self),
    {
        proof {
            reveal_strlit("image/png");
            reveal_strlit("image/jpeg");
            reveal_strlit("image/webp");
            reveal_strlit("image/gif");
        }
        match self {
            ImageKind::Png => {
                proof {
                    assert("image/png"@ =~= content_type_of(ImageKind::Png));
                }
                "image/png"
            },
            ImageKind::Jpeg => {
                proof {
                    assert("image/jpeg"@ =~= content_type_of(ImageKind::Jpeg));
                }
                "image/jpeg"
            },
            ImageKind::Webp => {
                proof {
                    assert("image/webp"@ =~= content_type_of(ImageKind::Webp));
                }
                "image/webp"
            },
            ImageKind::Gif => {
                proof {
                    assert("image/gif"@ =~= content_type_of(ImageKind::Gif));
                }
                "image/gif"
            },
        }
    }

    /// Every supported encoding, enumerable for purges and fan-out.
    pub fn variants() -> (r: Vec<ImageKind>)
        ensures
            r@ == seq![ImageKind::Png, ImageKind::Jpeg, ImageKind::Webp, ImageKind::Gif],
    {
        let mut v: Vec<ImageKind> = Vec::new();
        v.push(ImageKind::Png);
        v.push(ImageKind::Jpeg);
        v.push(ImageKind::Webp);
        v.push(ImageKind::Gif);
        proof {
            assert(v@ =~= seq![ImageKind::Png, ImageKind::Jpeg, ImageKind::Webp, ImageKind::Gif]);
        }
        v
    }
}

/// Extensions never contain the cache-key separator.
pub proof fn lemma_extension_colon_free(kind: ImageKind)
    ensures
        forall|i: int|
            0 <= i < file_extension_of(kind).len() ==> file_extension_of(kind)[i] != ':',
{
}

/// No two encodings share a file extension.
pub proof fn lemma_extension_injective(k1: ImageKind, k2: ImageKind)
    requires
        file_extension_of(k1) == file_extension_of(k2),
    ensures
        k1 == k2,
{
    if k1 != k2 {
        assert(file_extension_of(k1)[0] == file_extension_of(k2)[0]);
    }
}

/// When the pipeline runs relative to requests.
#[derive(Clone, Copy, Debug, PartialEq, Eq, Structural)]
pub enum ProcessingMode {
    /// Variants are derived on every fetch from the stored original.
    Realtime,
    /// Variants are derived on first fetch and then persisted.
    Jit,
    /// All variants are derived and persisted at upload time.
    Aot,
}

/// Encoding-related bucket settings.
#[derive(Clone, Debug)]
pub struct ImageFormats {
    /// The canonical encoding originals are stored under.
    pub original_image_store_format: ImageKind,
}

/// A named target dimension registered for a bucket.
#[derive(Clone, Debug)]
pub struct SizingPreset {
    pub name: String,
    pub sizing_id: u32,
    pub width: u32,
    pub height: u32,
}

impl SizingPreset {
    /// Well-formed presets carry the id derived from their name.
    pub open spec fn wf(&self) -> bool {
        self.sizing_id == crc_hash_of(self.name@)
    }

    /// Registers a preset under the deterministic hash of its name.
    pub fn new(name: String, width: u32, height: u32) -> (r: SizingPreset)
        ensures
            r.wf(),
            r.name == name,
            r.width == width,
            r.height == height,
    {
        let sizing_id = crc_hash(name.as_str());
        SizingPreset { name, sizing_id, width, height }
    }
}

/// Immutable per-bucket configuration, loaded at startup.
#[derive(Clone, Debug)]
pub struct BucketConfig {
    /// Bucket-local admission limit, if any.
    pub max_concurrency: Option<u32>,
    /// Preset used when a fetch names none.
    pub default_serving_preset: Option<String>,
    /// Fixed processing mode of the bucket.
    pub mode: ProcessingMode,
    /// Encoding settings.
    pub formats: ImageFormats,
    /// Named sizing presets registered for the bucket.
    pub sizing_presets: Vec<SizingPreset>,
}

impl BucketConfig {
    /// Every preset's id is the hash of its name.
    pub open spec fn wf(&self) -> bool {
        forall|i: int| 0 <= i < self.sizing_presets@.len() ==> (#[trigger] self.sizing_presets@[i]).wf()
    }

    /// The full set of sizing ids registered for the bucket: the reserved
    /// id `0` for unmodified originals, then one id per preset.
    pub fn sizing_preset_ids(&self) -> (r: Vec<u32>)
        ensures
            r@.len() == self.sizing_presets@.len() + 1,
            r@[0] == 0u32,
            forall|i: int|
                0 <= i < self.sizing_presets@.len()
                    ==> r@[i + 1] == (#[trigger] self.sizing_presets@[i]).sizing_id,
    {
        let mut ids: Vec<u32> = Vec::new();
        ids.push(0);
        let n = self.sizing_presets.len();
        for i in 0..n
            invariant
                n == self.sizing_presets@.len(),
                ids@.len() == i + 1,
                ids@[0] == 0u32,
                forall|j: int|
                    0 <= j < i ==> ids@[j + 1] == (#[trigger] self.sizing_presets@[j]).sizing_id,
        {
            ids.push(self.sizing_presets[i].sizing_id);
        }
        ids
    }
}

} // verus!
