//! Realtime mode: only the canonical original is persisted; every fetch
//! derives the requested variant from it on the spot and nothing derived
//! is written back.

use crate::config::ImageKind;
use crate::config::SizingPreset;
use crate::pipelines::entry_is;
use crate::pipelines::preset_dims;
use crate::pipelines::ImageTransformer;
use crate::pipelines::PipelineError;
use crate::pipelines::PipelineResult;
use crate::pipelines::StoreEntry;
use vstd::prelude::*;

verus! {

/// The realtime pipeline over a concrete transformer.
pub struct RealtimePipeline<T: ImageTransformer> {
    pub transformer: T,
    pub store_format: ImageKind,
    pub presets: Vec<SizingPreset>,
}

impl<T: ImageTransformer> RealtimePipeline<T> {
    /// On upload only the canonical original is produced, at sizing `0`.
    pub fn process_upload(&self, kind: ImageKind, data: Vec<u8>) -> (r: Result<
        PipelineResult,
        PipelineError,
    >)
        ensures
            match r {
                Ok(res) => {
                    &&& res.response is None
                    &&& res.to_store@.len() == 1
                    &&& entry_is(res.to_store@[0], self.store_format, 0)
                },
                Err(_) => true,
            },
    {
        let encoded = self.transformer.transform(&data, kind, self.store_format, None)?;
        let mut to_store: Vec<StoreEntry> = Vec::new();
        to_store.push(StoreEntry { data: encoded, kind: self.store_format, sizing_id: 0 });
        Ok(PipelineResult { to_store, response: None })
    }

    /// On fetch the stored original is turned into the requested variant;
    /// nothing is queued for storage. When the request already is the
    /// stored original, the bytes pass through untransformed.
    pub fn process_fetch(
        &self,
        desired_kind: ImageKind,
        data_kind: ImageKind,
        data: Vec<u8>,
        sizing_id: u32,
        custom_size: Option<(u32, u32)>,
    ) -> (r: Result<PipelineResult, PipelineError>)
        ensures
            match r {
                Ok(res) => {
                    &&& res.to_store@.len() == 0
                    &&& res.response matches Some(e) && entry_is(e, desired_kind, sizing_id)
                },
                Err(_) => true,
            },
            (desired_kind == data_kind && sizing_id == 0 && custom_size is None) ==> match r {
                Ok(res) => res.response matches Some(e) && e.data@ == data@,
                Err(_) => false,
            },
    {
        if desired_kind == data_kind && sizing_id == 0 && custom_size.is_none() {
            return Ok(
                PipelineResult {
                    to_store: Vec::new(),
                    response: Some(StoreEntry { data, kind: desired_kind, sizing_id }),
                },
            );
        }
        let dims = match custom_size {
            Some(d) => Some(d),
            None => preset_dims(&self.presets, sizing_id),
        };
        let derived = self.transformer.transform(&data, data_kind, desired_kind, dims)?;
        Ok(
            PipelineResult {
                to_store: Vec::new(),
                response: Some(StoreEntry { data: derived, kind: desired_kind, sizing_id }),
            },
        )
    }
}

} // verus!
