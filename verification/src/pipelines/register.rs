//! Pipeline selection: a closed tagged dispatch over the three processing
//! modes. The variant set is fixed and performance-sensitive, so dispatch
//! is a match rather than a virtual call.

use crate::config::ImageKind;
use crate::config::ProcessingMode;
use crate::pipelines::aot::AheadOfTimePipeline;
use crate::pipelines::entry_is;
use crate::pipelines::is_passthrough_fetch;
use crate::pipelines::jit::JustInTimePipeline;
use crate::pipelines::realtime::RealtimePipeline;
use crate::pipelines::ImageTransformer;
use crate::pipelines::PipelineError;
use crate::pipelines::PipelineResult;
use crate::config::SizingPreset;
use vstd::prelude::*;

verus! {

/// What any mode's upload hook produces: no direct response, and a
/// fan-out of entries fixed by the mode — the canonical original alone
/// for realtime and just-in-time, the original plus one entry per
/// registered preset for ahead-of-time.
pub open spec fn upload_result_shape(
    mode: ProcessingMode,
    store_format: ImageKind,
    preset_ids: Seq<u32>,
    res: PipelineResult,
) -> bool {
    &&& res.response is None
    &&& entry_is(res.to_store@[0], store_format, 0)
    &&& match mode {
        ProcessingMode::Realtime => res.to_store@.len() == 1,
        ProcessingMode::Jit => res.to_store@.len() == 1,
        ProcessingMode::Aot => {
            &&& res.to_store@.len() == 1 + preset_ids.len()
            &&& forall|i: int|
                0 <= i < preset_ids.len() ==> entry_is(
                    #[trigger] res.to_store@[i + 1],
                    store_format,
                    preset_ids[i],
                )
        },
    }
}

/// What any mode's fetch hook produces: a response addressed to the
/// requested variant; realtime persists nothing, while the other modes
/// either pass stored bytes through untouched or queue exactly the
/// responded bytes for storage under the requested variant.
pub open spec fn fetch_result_shape(
    mode: ProcessingMode,
    desired_kind: ImageKind,
    data_kind: ImageKind,
    data: Seq<u8>,
    sizing_id: u32,
    custom_size: Option<(u32, u32)>,
    res: PipelineResult,
) -> bool {
    &&& res.response matches Some(e) && entry_is(e, desired_kind, sizing_id)
    &&& match mode {
        ProcessingMode::Realtime => {
            &&& res.to_store@.len() == 0
            &&& (desired_kind == data_kind && sizing_id == 0 && custom_size is None) ==> (
            res.response matches Some(e) && e.data@ == data)
        },
        ProcessingMode::Jit | ProcessingMode::Aot => {
            if is_passthrough_fetch(desired_kind, data_kind, custom_size) {
                &&& res.to_store@.len() == 0
                &&& res.response matches Some(e) && e.data@ == data
            } else {
                &&& res.to_store@.len() == 1
                &&& entry_is(res.to_store@[0], desired_kind, sizing_id)
                &&& res.response matches Some(e) && res.to_store@[0].data@ == e.data@
            }
        },
    }
}

/// The pipeline capability, implemented once per processing mode.
pub trait Pipeline: Sized {
    fn on_upload(&self, kind: ImageKind, data: Vec<u8>) -> Result<PipelineResult, PipelineError>;

    fn on_fetch(
        &self,
        desired_kind: ImageKind,
        data_kind: ImageKind,
        data: Vec<u8>,
        sizing_id: u32,
        custom_size: Option<(u32, u32)>,
    ) -> Result<PipelineResult, PipelineError>;
}

impl<T: ImageTransformer> Pipeline for RealtimePipeline<T> {
    fn on_upload(&self, kind: ImageKind, data: Vec<u8>) -> Result<PipelineResult, PipelineError> {
        self.process_upload(kind, data)
    }

    fn on_fetch(
        &self,
        desired_kind: ImageKind,
        data_kind: ImageKind,
        data: Vec<u8>,
        sizing_id: u32,
        custom_size: Option<(u32, u32)>,
    ) -> Result<PipelineResult, PipelineError> {
        self.process_fetch(desired_kind, data_kind, data, sizing_id, custom_size)
    }
}

impl<T: ImageTransformer> Pipeline for JustInTimePipeline<T> {
    fn on_upload(&self, kind: ImageKind, data: Vec<u8>) -> Result<PipelineResult, PipelineError> {
        self.process_upload(kind, data)
    }

    fn on_fetch(
        &self,
        desired_kind: ImageKind,
        data_kind: ImageKind,
        data: Vec<u8>,
        sizing_id: u32,
        custom_size: Option<(u32, u32)>,
    ) -> Result<PipelineResult, PipelineError> {
        self.process_fetch(desired_kind, data_kind, data, sizing_id, custom_size)
    }
}

impl<T: ImageTransformer> Pipeline for AheadOfTimePipeline<T> {
    fn on_upload(&self, kind: ImageKind, data: Vec<u8>) -> Result<PipelineResult, PipelineError> {
        self.process_upload(kind, data)
    }

    fn on_fetch(
        &self,
        desired_kind: ImageKind,
        data_kind: ImageKind,
        data: Vec<u8>,
        sizing_id: u32,
        custom_size: Option<(u32, u32)>,
    ) -> Result<PipelineResult, PipelineError> {
        self.process_fetch(desired_kind, data_kind, data, sizing_id, custom_size)
    }
}

/// The pipelines, dynamically selected by the bucket's configured mode.
pub enum PipelineSelector<T: ImageTransformer> {
    RealtimePipeline(RealtimePipeline<T>),
    AheadOfTimePipeline(AheadOfTimePipeline<T>),
    JustInTimePipeline(JustInTimePipeline<T>),
}

impl<T: ImageTransformer> PipelineSelector<T> {
    /// The processing mode this selector dispatches to.
    pub open spec fn mode(&self) -> ProcessingMode {
        match self {
            PipelineSelector::RealtimePipeline(_) => ProcessingMode::Realtime,
            PipelineSelector::AheadOfTimePipeline(_) => ProcessingMode::Aot,
            PipelineSelector::JustInTimePipeline(_) => ProcessingMode::Jit,
        }
    }

    /// The canonical on-disk encoding the pipeline stores originals under.
    pub open spec fn store_format(&self) -> ImageKind {
        match self {
            PipelineSelector::RealtimePipeline(p) => p.store_format,
            PipelineSelector::AheadOfTimePipeline(p) => p.store_format,
            PipelineSelector::JustInTimePipeline(p) => p.store_format,
        }
    }

    /// The sizing presets the pipeline derives variants for.
    pub open spec fn presets(&self) -> Seq<SizingPreset> {
        match self {
            PipelineSelector::RealtimePipeline(p) => p.presets@,
            PipelineSelector::AheadOfTimePipeline(p) => p.presets@,
            PipelineSelector::JustInTimePipeline(p) => p.presets@,
        }
    }

    /// The sizing ids the pipeline derives variants for.
    pub open spec fn preset_ids(&self) -> Seq<u32> {
        self.presets().map_values(|p: SizingPreset| p.sizing_id)
    }

    /// Dispatches the upload hook of the selected mode.
    pub fn on_upload(&self, kind: ImageKind, data: Vec<u8>) -> (r: Result<
        PipelineResult,
        PipelineError,
    >)
        ensures
            match r {
                Ok(res) => upload_result_shape(
                    self.mode(),
                    self.store_format(),
                    self.preset_ids(),
                    res,
                ),
                Err(_) => true,
            },
    {
        match self {
            PipelineSelector::RealtimePipeline(p) => p.process_upload(kind, data),
            PipelineSelector::AheadOfTimePipeline(p) => p.process_upload(kind, data),
            PipelineSelector::JustInTimePipeline(p) => p.process_upload(kind, data),
        }
    }

    /// Dispatches the fetch hook of the selected mode.
    pub fn on_fetch(
        &self,
        desired_kind: ImageKind,
        data_kind: ImageKind,
        data: Vec<u8>,
        sizing_id: u32,
        custom_size: Option<(u32, u32)>,
    ) -> (r: Result<PipelineResult, PipelineError>)
        ensures
            match r {
                Ok(res) => fetch_result_shape(
                    self.mode(),
                    desired_kind,
                    data_kind,
                    data@,
                    sizing_id,
                    custom_size,
                    res,
                ),
                Err(_) => true,
            },
            (self.mode() != ProcessingMode::Realtime && is_passthrough_fetch(
                desired_kind,
                data_kind,
                custom_size,
            )) ==> r is Ok,
    {
        match self {
            PipelineSelector::RealtimePipeline(p) => p.process_fetch(
                desired_kind,
                data_kind,
                data,
                sizing_id,
                custom_size,
            ),
            PipelineSelector::AheadOfTimePipeline(p) => p.process_fetch(
                desired_kind,
                data_kind,
                data,
                sizing_id,
                custom_size,
            ),
            PipelineSelector::JustInTimePipeline(p) => p.process_fetch(
                desired_kind,
                data_kind,
                data,
                sizing_id,
                custom_size,
            ),
        }
    }
}

} // verus!
