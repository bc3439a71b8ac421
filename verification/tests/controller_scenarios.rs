use std::sync::atomic::AtomicUsize;
use std::sync::atomic::Ordering;
use std::sync::Arc;

use lust::cache::Cache;
use lust::config::BucketConfig;
use lust::config::ImageFormats;
use lust::config::ImageKind;
use lust::config::ProcessingMode;
use lust::config::SizingPreset;
use lust::controller::get_bucket_by_id;
use lust::controller::get_bucket_by_name;
use lust::controller::init_buckets;
use lust::controller::resolve_sizing_id;
use lust::controller::BucketController;
use lust::controller::BucketError;
use lust::controller::BucketRegistry;
use lust::limits::Limiter;
use lust::pipelines::aot::AheadOfTimePipeline;
use lust::pipelines::jit::JustInTimePipeline;
use lust::pipelines::realtime::RealtimePipeline;
use lust::pipelines::register::PipelineSelector;
use lust::pipelines::ImageTransformer;
use lust::pipelines::PipelineError;
use lust::storage::memory::MemoryStorageBackend;
use lust::storage::template::StorageBackend;
use lust::storage::template::StorageError;
use lust::utils::crc_hash;
use lust::utils::sha256_hash;

/// A transform stand-in that stamps the target encoding and dimensions in
/// front of the bytes, counting its invocations.
struct StampTransformer {
    calls: Arc<AtomicUsize>,
    fail: bool,
}

fn kind_tag(kind: ImageKind) -> u8 {
    match kind {
        ImageKind::Png => 1,
        ImageKind::Jpeg => 2,
        ImageKind::Webp => 3,
        ImageKind::Gif => 4,
    }
}

impl ImageTransformer for StampTransformer {
    fn transform(
        &self,
        data: &Vec<u8>,
        _from_kind: ImageKind,
        to_kind: ImageKind,
        sizing: Option<(u32, u32)>,
    ) -> Result<Vec<u8>, PipelineError> {
        self.calls.fetch_add(1, Ordering::SeqCst);
        if self.fail {
            return Err(PipelineError);
        }
        let mut out = vec![kind_tag(to_kind)];
        if let Some((w, h)) = sizing {
            out.push(w as u8);
            out.push(h as u8);
        }
        out.extend_from_slice(data);
        Ok(out)
    }
}

fn thumb_presets() -> Vec<SizingPreset> {
    vec![SizingPreset::new("thumb".to_string(), 64, 64)]
}

fn make_config(mode: ProcessingMode) -> BucketConfig {
    BucketConfig {
        max_concurrency: None,
        default_serving_preset: None,
        mode,
        formats: ImageFormats {
            original_image_store_format: ImageKind::Png,
        },
        sizing_presets: thumb_presets(),
    }
}

fn make_controller(
    mode: ProcessingMode,
    calls: Arc<AtomicUsize>,
    fail: bool,
    global: Option<Limiter>,
    max_concurrency: Option<u32>,
) -> BucketController<MemoryStorageBackend, StampTransformer> {
    let transformer = StampTransformer { calls, fail };
    let pipeline = match mode {
        ProcessingMode::Realtime => PipelineSelector::RealtimePipeline(RealtimePipeline {
            transformer,
            store_format: ImageKind::Png,
            presets: thumb_presets(),
        }),
        ProcessingMode::Jit => PipelineSelector::JustInTimePipeline(JustInTimePipeline {
            transformer,
            store_format: ImageKind::Png,
            presets: thumb_presets(),
        }),
        ProcessingMode::Aot => PipelineSelector::AheadOfTimePipeline(AheadOfTimePipeline {
            transformer,
            store_format: ImageKind::Png,
            presets: thumb_presets(),
        }),
    };
    let mut config = make_config(mode);
    config.max_concurrency = max_concurrency;
    BucketController::new(
        7,
        Some(Cache::new()),
        global,
        config,
        pipeline,
        MemoryStorageBackend::new(),
    )
}

#[test]
fn aot_upload_then_fetch_end_to_end() {
    let calls = Arc::new(AtomicUsize::new(0));
    let mut controller = make_controller(ProcessingMode::Aot, calls.clone(), false, None, None);
    let info = controller.upload(ImageKind::Png, b"abc".to_vec()).unwrap();
    assert_eq!(
        info.image_id,
        sha256_hash(b"abc")
    );
    // crc32 of "abc"
    assert_eq!(info.checksum, 0x352441C2);
    assert_eq!(info.bucket_id, 7);
    // one entry per configured preset plus the original
    assert_eq!(info.images.len(), 2);
    assert_eq!(info.images[0].sizing_id, 0);
    assert_eq!(info.images[1].sizing_id, crc_hash("thumb"));
    let upload_calls = calls.load(Ordering::SeqCst);
    assert_eq!(upload_calls, 2);

    let image_id = info.image_id.clone();
    let original = controller
        .fetch(&image_id, ImageKind::Png, None, None)
        .unwrap()
        .unwrap();
    let thumb = controller
        .fetch(&image_id, ImageKind::Png, Some("thumb".to_string()), None)
        .unwrap()
        .unwrap();
    // the stored bytes come back exactly, and the thumb differs from the
    // original
    assert_eq!(original.data, vec![1, 97, 98, 99]);
    assert_eq!(thumb.data, vec![1, 64, 64, 97, 98, 99]);
    assert_ne!(original.data, thumb.data);
    assert_eq!(thumb.sizing_id, crc_hash("thumb"));
    // ahead-of-time fetches never invoke the pipeline transform
    assert_eq!(calls.load(Ordering::SeqCst), upload_calls);
}

#[test]
fn aot_fetch_missing_variant_is_not_found() {
    let calls = Arc::new(AtomicUsize::new(0));
    let mut controller = make_controller(ProcessingMode::Aot, calls.clone(), false, None, None);
    let info = controller.upload(ImageKind::Png, b"abc".to_vec()).unwrap();
    let r = controller
        .fetch(&info.image_id, ImageKind::Png, Some("large".to_string()), None)
        .unwrap();
    assert!(r.is_none());
}

#[test]
fn upload_checksum_is_crc32_of_payload() {
    let calls = Arc::new(AtomicUsize::new(0));
    let mut controller = make_controller(ProcessingMode::Jit, calls, false, None, None);
    let info = controller
        .upload(ImageKind::Png, b"123456789".to_vec())
        .unwrap();
    // the crc32 check value
    assert_eq!(info.checksum, 0xCBF43926);
}

#[test]
fn jit_fetch_memoizes_derived_variant() {
    let calls = Arc::new(AtomicUsize::new(0));
    let mut controller = make_controller(ProcessingMode::Jit, calls.clone(), false, None, None);
    let info = controller.upload(ImageKind::Png, b"xyz".to_vec()).unwrap();
    assert_eq!(info.images.len(), 1);
    let after_upload = calls.load(Ordering::SeqCst);
    assert_eq!(after_upload, 1);

    let first = controller
        .fetch(&info.image_id, ImageKind::Webp, None, None)
        .unwrap()
        .unwrap();
    // deriving the missing variant invoked the transform exactly once
    assert_eq!(calls.load(Ordering::SeqCst), after_upload + 1);
    assert_eq!(first.kind, ImageKind::Webp);

    let second = controller
        .fetch(&info.image_id, ImageKind::Webp, None, None)
        .unwrap()
        .unwrap();
    // the variant is now served from cache/storage without a further
    // invocation
    assert_eq!(calls.load(Ordering::SeqCst), after_upload + 1);
    assert_eq!(second.data, first.data);
}

#[test]
fn jit_fetch_missing_image_is_not_found() {
    let calls = Arc::new(AtomicUsize::new(0));
    let mut controller = make_controller(ProcessingMode::Jit, calls, false, None, None);
    let missing = sha256_hash(b"never uploaded");
    assert!(controller
        .fetch(&missing, ImageKind::Png, None, None)
        .unwrap()
        .is_none());
}

#[test]
fn realtime_ignores_preset_for_key_resolution() {
    let calls = Arc::new(AtomicUsize::new(0));
    let mut controller =
        make_controller(ProcessingMode::Realtime, calls.clone(), false, None, None);
    let info = controller.upload(ImageKind::Png, b"pic".to_vec()).unwrap();
    assert_eq!(info.images.len(), 1);
    assert_eq!(info.images[0].sizing_id, 0);

    // a preset argument changes the response sizing id but the lookup
    // still targets the stored original at sizing 0
    let sized = controller
        .fetch(&info.image_id, ImageKind::Png, Some("thumb".to_string()), None)
        .unwrap()
        .unwrap();
    assert_eq!(sized.sizing_id, crc_hash("thumb"));
    // the stored original is itself stamped from upload; the fetch-time
    // transform stamps the target encoding and dimensions in front of it
    assert_eq!(sized.data, vec![1, 64, 64, 1, 112, 105, 99]);

    // a missing image is "not found", never an error
    let missing = sha256_hash(b"absent");
    assert!(controller
        .fetch(&missing, ImageKind::Webp, Some("thumb".to_string()), None)
        .unwrap()
        .is_none());
}

#[test]
fn delete_purges_storage_and_cache() {
    let calls = Arc::new(AtomicUsize::new(0));
    let mut controller = make_controller(ProcessingMode::Aot, calls, false, None, None);
    let info = controller.upload(ImageKind::Png, b"abc".to_vec()).unwrap();
    let image_id = info.image_id.clone();
    // warm the cache
    assert!(controller
        .fetch(&image_id, ImageKind::Png, Some("thumb".to_string()), None)
        .unwrap()
        .is_some());
    controller.delete(&image_id).unwrap();
    // every variant is gone: storage was purged and the cache no longer
    // answers for any of the image's keys
    assert!(controller
        .fetch(&image_id, ImageKind::Png, None, None)
        .unwrap()
        .is_none());
    assert!(controller
        .fetch(&image_id, ImageKind::Png, Some("thumb".to_string()), None)
        .unwrap()
        .is_none());
}

#[test]
fn shared_fallback_cache_is_not_invalidated_on_delete() {
    let calls = Arc::new(AtomicUsize::new(0));
    let mut controller = make_controller(ProcessingMode::Aot, calls, false, None, None);
    controller.cache = None;
    controller.attach_shared_cache(Cache::new());
    let info = controller.upload(ImageKind::Png, b"abc".to_vec()).unwrap();
    let image_id = info.image_id.clone();
    // warm the shared fallback cache
    assert!(controller
        .fetch(&image_id, ImageKind::Png, None, None)
        .unwrap()
        .is_some());
    controller.delete(&image_id).unwrap();
    // delete only invalidates the bucket-local cache, so the fallback
    // still serves the stale bytes
    assert!(controller
        .fetch(&image_id, ImageKind::Png, None, None)
        .unwrap()
        .is_some());
}

#[test]
fn admission_global_takes_precedence_over_local() {
    let calls = Arc::new(AtomicUsize::new(0));
    // the global limiter has no free slot while the local one does: the
    // call must fail, proving the global limiter decides alone
    let mut exhausted_global = Limiter::new(1);
    assert!(exhausted_global.try_acquire());
    let mut controller = make_controller(
        ProcessingMode::Aot,
        calls,
        false,
        Some(exhausted_global),
        Some(1),
    );
    let r = controller.upload(ImageKind::Png, b"abc".to_vec());
    assert_eq!(r.unwrap_err(), BucketError::Admission);
}

#[test]
fn admission_local_applies_without_global() {
    let calls = Arc::new(AtomicUsize::new(0));
    let mut controller = make_controller(ProcessingMode::Aot, calls, false, None, Some(1));
    // the permit is released on every exit path, so consecutive calls all
    // pass a capacity-one local limiter
    controller.upload(ImageKind::Png, b"a".to_vec()).unwrap();
    controller.upload(ImageKind::Png, b"b".to_vec()).unwrap();
}

#[test]
fn pipeline_failure_is_reported_and_writes_nothing() {
    let calls = Arc::new(AtomicUsize::new(0));
    let mut controller = make_controller(ProcessingMode::Aot, calls, true, None, None);
    let r = controller.upload(ImageKind::Png, b"abc".to_vec());
    assert_eq!(r.unwrap_err(), BucketError::Pipeline(PipelineError));
    let missing = sha256_hash(b"abc");
    assert!(controller
        .fetch(&missing, ImageKind::Png, None, None)
        .unwrap()
        .is_none());
}

/// A backend whose writes always fail.
struct FailingBackend;

impl StorageBackend for FailingBackend {
    fn contents(&self) -> vstd::map::Map<(u32, vstd::seq::Seq<char>, ImageKind, u32), vstd::seq::Seq<u8>> {
        panic!()
    }

    fn inv(&self) -> bool {
        false
    }

    fn store(
        &mut self,
        _bucket_id: u32,
        _image_id: &String,
        _kind: ImageKind,
        _sizing_id: u32,
        _data: Vec<u8>,
    ) -> Result<(), StorageError> {
        Err(StorageError)
    }

    fn fetch(
        &self,
        _bucket_id: u32,
        _image_id: &String,
        _kind: ImageKind,
        _sizing_id: u32,
    ) -> Result<Option<Vec<u8>>, StorageError> {
        Err(StorageError)
    }

    fn delete(
        &mut self,
        _bucket_id: u32,
        _image_id: &String,
    ) -> Result<Vec<(u32, ImageKind)>, StorageError> {
        Err(StorageError)
    }
}

#[test]
fn storage_failure_is_reported_as_storage_error() {
    let calls = Arc::new(AtomicUsize::new(0));
    let transformer = StampTransformer { calls, fail: false };
    let pipeline = PipelineSelector::AheadOfTimePipeline(AheadOfTimePipeline {
        transformer,
        store_format: ImageKind::Png,
        presets: thumb_presets(),
    });
    let mut controller: BucketController<FailingBackend, StampTransformer> =
        BucketController::new(7, None, None, make_config(ProcessingMode::Aot), pipeline, FailingBackend);
    let r = controller.upload(ImageKind::Png, b"abc".to_vec());
    assert_eq!(r.unwrap_err(), BucketError::Storage(StorageError));
}

#[test]
fn sizing_resolution_rules() {
    assert_eq!(resolve_sizing_id(&None, &None), 0);
    assert_eq!(resolve_sizing_id(&Some("original".to_string()), &None), 0);
    assert_eq!(
        resolve_sizing_id(&Some("thumb".to_string()), &None),
        crc_hash("thumb")
    );
    // the explicit argument wins over the configured default
    assert_eq!(
        resolve_sizing_id(
            &Some("thumb".to_string()),
            &Some("large".to_string())
        ),
        crc_hash("thumb")
    );
    assert_eq!(
        resolve_sizing_id(&None, &Some("large".to_string())),
        crc_hash("large")
    );
}

#[test]
fn upload_empty_payload_uses_empty_digest() {
    let calls = Arc::new(AtomicUsize::new(0));
    let mut controller = make_controller(ProcessingMode::Aot, calls, false, None, None);
    let info = controller.upload(ImageKind::Png, Vec::new()).unwrap();
    assert_eq!(
        info.image_id,
        "e3b0c44298fc1c149afbf4c8996fb92427ae41e4649b934ca495991b7852b855"
    );
}

#[test]
fn fetch_falls_back_to_configured_default_preset() {
    let calls = Arc::new(AtomicUsize::new(0));
    let mut controller = make_controller(ProcessingMode::Aot, calls, false, None, None);
    controller.config.default_serving_preset = Some("thumb".to_string());
    let info = controller.upload(ImageKind::Png, b"abc".to_vec()).unwrap();
    // no explicit preset: the bucket's default resolves the sizing id
    let served = controller
        .fetch(&info.image_id, ImageKind::Png, None, None)
        .unwrap()
        .unwrap();
    assert_eq!(served.sizing_id, crc_hash("thumb"));
    assert_eq!(served.data, vec![1, 64, 64, 97, 98, 99]);
    // the explicit name for the unmodified original still wins
    let original = controller
        .fetch(&info.image_id, ImageKind::Png, Some("original".to_string()), None)
        .unwrap()
        .unwrap();
    assert_eq!(original.sizing_id, 0);
    assert_eq!(original.data, vec![1, 97, 98, 99]);
}

#[test]
fn jit_sized_request_for_store_format_serves_original_bytes() {
    let calls = Arc::new(AtomicUsize::new(0));
    let mut controller = make_controller(ProcessingMode::Jit, calls.clone(), false, None, None);
    let info = controller.upload(ImageKind::Png, b"xyz".to_vec()).unwrap();
    let after_upload = calls.load(Ordering::SeqCst);
    // the sized variant of the store format is absent; the fallback finds
    // the original, whose encoding already matches, so the bytes pass
    // through without a transform
    let served = controller
        .fetch(&info.image_id, ImageKind::Png, Some("thumb".to_string()), None)
        .unwrap()
        .unwrap();
    assert_eq!(calls.load(Ordering::SeqCst), after_upload);
    assert_eq!(served.sizing_id, crc_hash("thumb"));
    assert_eq!(served.data, vec![1, 120, 121, 122]);
}

#[test]
fn registry_set_once_and_lookup() {
    let calls = Arc::new(AtomicUsize::new(0));
    let id = crc_hash("photos");
    let controller = make_controller(ProcessingMode::Aot, calls, false, None, None);
    let mut registry = BucketRegistry::new();
    init_buckets(&mut registry, vec![(id, controller)]);
    assert!(get_bucket_by_id(&registry, id).is_some());
    assert!(get_bucket_by_id(&registry, id.wrapping_add(1)).is_none());
    assert!(get_bucket_by_name(&registry, "photos").is_some());
    assert!(get_bucket_by_name(&registry, "videos").is_none());
    // a second initialization is a no-op
    init_buckets(&mut registry, Vec::new());
    assert!(get_bucket_by_id(&registry, id).is_some());
    assert_eq!(get_bucket_by_id(&registry, id).unwrap().cfg().mode, ProcessingMode::Aot);
}
