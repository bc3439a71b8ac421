//! Ahead-of-time mode: the full fan-out of variants is produced at upload
//! time — the canonical original plus one entry per registered sizing
//! preset — so fetches are pure lookups.

use crate::cache::clone_bytes;
use crate::config::ImageKind;
use crate::config::SizingPreset;
use crate::pipelines::entry_is;
use crate::pipelines::is_passthrough_fetch;
use crate::pipelines::preset_dims;
use crate::pipelines::ImageTransformer;
use crate::pipelines::PipelineError;
use crate::pipelines::PipelineResult;
use crate::pipelines::StoreEntry;
use vstd::prelude::*;

verus! {

/// The ahead-of-time pipeline over a concrete transformer.
pub struct AheadOfTimePipeline<T: ImageTransformer> {
    pub transformer: T,
    pub store_format: ImageKind,
    pub presets: Vec<SizingPreset>,
}

impl<T: ImageTransformer> AheadOfTimePipeline<T> {
    /// On upload every variant is produced: the canonical original at
    /// sizing `0`, then one entry per registered preset, in order.
    pub fn process_upload(&self, kind: ImageKind, data: Vec<u8>) -> (r: Result<
        PipelineResult,
        PipelineError,
    >)
        ensures
            match r {
                Ok(res) => {
                    &&& res.response is None
                    &&& res.to_store@.len() == 1 + self.presets@.len()
                    &&& entry_is(res.to_store@[0], self.store_format, 0)
                    &&& forall|i: int|
                        0 <= i < self.presets@.len() ==> entry_is(
                            #[trigger] res.to_store@[i + 1],
                            self.store_format,
                            self.presets@[i].sizing_id,
                        )
                },
                Err(_) => true,
            },
    {
        let encoded = self.transformer.transform(&data, kind, self.store_format, None)?;
        let mut to_store: Vec<StoreEntry> = Vec::new();
        to_store.push(StoreEntry { data: encoded, kind: self.store_format, sizing_id: 0 });
        let n = self.presets.len();
        for i in 0..n
            invariant
                n == self.presets@.len(),
                to_store@.len() == 1 + i,
                entry_is(to_store@[0], self.store_format, 0),
                forall|j: int|
                    0 <= j < i ==> entry_is(
                        #[trigger] to_store@[j + 1],
                        self.store_format,
                        self.presets@[j].sizing_id,
                    ),
        {
            let dims = Some((self.presets[i].width, self.presets[i].height));
            let sized = self.transformer.transform(&data, kind, self.store_format, dims)?;
            to_store.push(
                StoreEntry {
                    data: sized,
                    kind: self.store_format,
                    sizing_id: self.presets[i].sizing_id,
                },
            );
        }
        Ok(PipelineResult { to_store, response: None })
    }

    /// On fetch the requested variant is derived from the given bytes and
    /// queued for storage, exactly as in just-in-time mode; in this mode
    /// the controller resolves fetches by lookup alone and does not call
    /// it.
    pub fn process_fetch(
        &self,
        desired_kind: ImageKind,
        data_kind: ImageKind,
        data: Vec<u8>,
        sizing_id: u32,
        custom_size: Option<(u32, u32)>,
    ) -> (r: Result<PipelineResult, PipelineError>)
        ensures
            match r {
                Ok(res) => {
                    &&& res.response matches Some(e) && entry_is(e, desired_kind, sizing_id)
                    &&& if is_passthrough_fetch(desired_kind, data_kind, custom_size) {
                        res.to_store@.len() == 0 && (res.response matches Some(e) && e.data@
                            == data@)
                    } else {
                        res.to_store@.len() == 1 && entry_is(
                            res.to_store@[0],
                            desired_kind,
                            sizing_id,
                        ) && (res.response matches Some(e) && res.to_store@[0].data@ == e.data@)
                    }
                },
                Err(_) => true,
            },
            is_passthrough_fetch(desired_kind, data_kind, custom_size) ==> r is Ok,
    {
        if desired_kind == data_kind && custom_size.is_none() {
            return Ok(
                PipelineResult {
                    to_store: Vec::new(),
                    response: Some(StoreEntry { data, kind: desired_kind, sizing_id }),
                },
            );
        }
        let dims = match custom_size {
            Some(d) => Some(d),
            None => preset_dims(&self.presets, sizing_id),
        };
        let derived = self.transformer.transform(&data, data_kind, desired_kind, dims)?;
        let stored = clone_bytes(&derived);
        let mut to_store: Vec<StoreEntry> = Vec::new();
        to_store.push(StoreEntry { data: stored, kind: desired_kind, sizing_id });
        Ok(
            PipelineResult {
                to_store,
                response: Some(StoreEntry { data: derived, kind: desired_kind, sizing_id }),
            },
        )
    }
}

} // verus!
