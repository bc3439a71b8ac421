//! Just-in-time mode: uploads persist only the canonical original; a
//! fetch that misses derives the requested variant from the original and
//! queues it for storage, amortizing later requests.

use crate::cache::clone_bytes;
use crate::config::ImageKind;
use crate::config::SizingPreset;
use crate::pipelines::entry_is;
use crate::pipelines::is_passthrough_fetch;
use crate::pipelines::preset_dims;
use crate::pipelines::ImageTransformer;
use crate::pipelines::PipelineError;
use crate::pipelines::PipelineResult;
use crate::pipelines::StoreEntry;
use vstd::prelude::*;

verus! {

/// The just-in-time pipeline over a concrete transformer.
pub struct JustInTimePipeline<T: ImageTransformer> {
    pub transformer: T,
    pub store_format: ImageKind,
    pub presets: Vec<SizingPreset>,
}

impl<T: ImageTransformer> JustInTimePipeline<T> {
    /// On upload only the canonical original is produced, at sizing `0`.
    pub fn process_upload(&self, kind: ImageKind, data: Vec<u8>) -> (r: Result<
        PipelineResult,
        PipelineError,
    >)
        ensures
            match r {
                Ok(res) => {
                    &&& res.response is None
                    &&& res.to_store@.len() == 1
                    &&& entry_is(res.to_store@[0], self.store_format, 0)
                },
                Err(_) => true,
            },
    {
        let encoded = self.transformer.transform(&data, kind, self.store_format, None)?;
        let mut to_store: Vec<StoreEntry> = Vec::new();
        to_store.push(StoreEntry { data: encoded, kind: self.store_format, sizing_id: 0 });
        Ok(PipelineResult { to_store, response: None })
    }

    /// On fetch, bytes already of the requested encoding pass through
    /// untouched; otherwise the requested variant is derived and the same
    /// bytes are both returned and queued for storage under the requested
    /// `(kind, sizing_id)`.
    pub fn process_fetch(
        &self,
        desired_kind: ImageKind,
        data_kind: ImageKind,
        data: Vec<u8>,
        sizing_id: u32,
        custom_size: Option<(u32, u32)>,
    ) -> (r: Result<PipelineResult, PipelineError>)
        ensures
            match r {
                Ok(res) => {
                    &&& res.response matches Some(e) && entry_is(e, desired_kind, sizing_id)
                    &&& if is_passthrough_fetch(desired_kind, data_kind, custom_size) {
                        res.to_store@.len() == 0 && (res.response matches Some(e) && e.data@
                            == data@)
                    } else {
                        res.to_store@.len() == 1 && entry_is(
                            res.to_store@[0],
                            desired_kind,
                            sizing_id,
                        ) && (res.response matches Some(e) && res.to_store@[0].data@ == e.data@)
                    }
                },
                Err(_) => true,
            },
            is_passthrough_fetch(desired_kind, data_kind, custom_size) ==> r is Ok,
    {
        if desired_kind == data_kind && custom_size.is_none() {
            return Ok(
                PipelineResult {
                    to_store: Vec::new(),
                    response: Some(StoreEntry { data, kind: desired_kind, sizing_id }),
                },
            );
        }
        let dims = match custom_size {
            Some(d) => Some(d),
            None => preset_dims(&self.presets, sizing_id),
        };
        let derived = self.transformer.transform(&data, data_kind, desired_kind, dims)?;
        let stored = clone_bytes(&derived);
        let mut to_store: Vec<StoreEntry> = Vec::new();
        to_store.push(StoreEntry { data: stored, kind: desired_kind, sizing_id });
        Ok(
            PipelineResult {
                to_store,
                response: Some(StoreEntry { data: derived, kind: desired_kind, sizing_id }),
            },
        )
    }
}

} // verus!
