//! The processing pipeline abstraction: what gets transformed, cached and
//! stored, and when, for each of the three processing modes. The
//! pixel-level transform itself is a black-box capability implemented
//! outside the core.

pub mod aot;
pub mod jit;
pub mod realtime;
pub mod register;

pub use crate::config::ProcessingMode;

use crate::config::ImageKind;
use crate::config::SizingPreset;
use vstd::prelude::*;

verus! {

/// A transform failure: fatal to the call, no partial state.
#[derive(Clone, Copy, Debug, PartialEq, Eq, Structural)]
pub struct PipelineError;

/// A unit of derived output: bytes, their encoding, and the sizing they
/// were produced for.
#[derive(Debug)]
pub struct StoreEntry {
    pub data: Vec<u8>,
    pub kind: ImageKind,
    pub sizing_id: u32,
}

/// The pipeline's sole output contract: zero or more entries destined
/// for persistent storage, and at most one direct response to a fetch.
#[derive(Debug)]
pub struct PipelineResult {
    pub to_store: Vec<StoreEntry>,
    pub response: Option<StoreEntry>,
}

/// The pixel-level decode/resize/encode capability invoked inside a
/// pipeline. It is CPU-bound, synchronous and free of I/O; what bytes it
/// produces is outside the core's scope.
pub trait ImageTransformer: Sized {
    /// Re-encodes `data` from `from_kind` to `to_kind`, resizing to the
    /// given target dimensions when some are given.
    fn transform(
        &self,
        data: &Vec<u8>,
        from_kind: ImageKind,
        to_kind: ImageKind,
        sizing: Option<(u32, u32)>,
    ) -> Result<Vec<u8>, PipelineError>;
}

/// An entry addressed to a given variant.
pub open spec fn entry_is(e: StoreEntry, kind: ImageKind, sizing_id: u32) -> bool {
    e.kind == kind && e.sizing_id == sizing_id
}

/// When a fetch needs no transform at all: the stored bytes already are
/// the requested variant.
pub open spec fn is_passthrough_fetch(
    desired_kind: ImageKind,
    data_kind: ImageKind,
    custom_size: Option<(u32, u32)>,
) -> bool {
    desired_kind == data_kind && custom_size is None
}

/// The target dimensions registered under a sizing id, if any preset
/// carries it.
pub fn preset_dims(presets: &Vec<SizingPreset>, sizing_id: u32) -> (r: Option<(u32, u32)>)
    ensures
        match r {
            Some(d) => exists|i: int|
                0 <= i < presets@.len() && (#[trigger] presets@[i]).sizing_id == sizing_id && d == (
                    presets@[i].width,
                    presets@[i].height,
                ),
            None => forall|i: int|
                0 <= i < presets@.len() ==> (#[trigger] presets@[i]).sizing_id != sizing_id,
        },
{
    let n = presets.len();
    for i in 0..n
        invariant
            n == presets@.len(),
            forall|j: int| 0 <= j < i ==> (#[trigger] presets@[j]).sizing_id != sizing_id,
    {
        if presets[i].sizing_id == sizing_id {
            return Some((presets[i].width, presets[i].height));
        }
    }
    None
}

} // verus!
