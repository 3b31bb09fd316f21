use asset_upload::args::UploadArgs;
use asset_upload::batch::prepare_batch;
use std::sync::atomic::AtomicBool;
use std::sync::Arc;
use asset_upload::cache::{AssetPair, Cache, CacheItem};
use asset_upload::detect::{classify, detect_changes, Change, DataType};
use asset_upload::error::UploadError;
use asset_upload::run::{
    check_counts, check_metadata, count_uploaded, needs_upload, reconcile, retain_ready,
    unique_messages,
};
use asset_upload::scheduler::UploadScheduler;

fn asset(index: usize, image_hash: &str, metadata_hash: &str) -> AssetPair {
    AssetPair {
        index,
        image: format!("assets/{}.png", index),
        image_hash: image_hash.to_string(),
        metadata: format!("assets/{}.json", index),
        metadata_hash: metadata_hash.to_string(),
        animation: None,
        animation_hash: None,
    }
}

fn animated(index: usize, animation_hash: &str) -> AssetPair {
    let mut a = asset(index, "img", "meta");
    a.animation = Some(format!("assets/{}.gif", index));
    a.animation_hash = Some(animation_hash.to_string());
    a
}

fn uploaded_item(a: &AssetPair) -> CacheItem {
    let mut item = a.into_cache_item();
    item.image_link = format!("https://store/{}.png", a.index);
    item.metadata_link = format!("https://store/{}.json", a.index);
    if item.animation_link.is_some() {
        item.animation_link = Some(format!("https://store/{}.gif", a.index));
    }
    item
}

/// Runs a whole batch, every upload succeeding, and returns the largest
/// number of operations that were in flight at once.
fn run_batch(sched: &mut UploadScheduler, cache: &mut Cache, fail: Option<usize>) -> usize {
    let mut pending: Vec<usize> = Vec::new();
    let (from, to) = sched.start();
    pending.extend(from..to);
    let mut most = sched.in_flight;
    while sched.keep_waiting(false) {
        let task = pending.remove(0);
        let outcome = if Some(task) == fail {
            Err(format!("Upload error: task {}", task))
        } else {
            Ok(format!("link-{}", task))
        };
        assert!(sched.complete(cache, task, outcome).is_ok());
        if let Some((from, to)) = sched.replenish() {
            pending.extend(from..to);
        }
        assert!(sched.in_flight <= sched.limit);
        most = most.max(sched.in_flight);
    }
    most
}

#[test]
fn three_new_assets_are_scheduled_and_uploaded() {
    let assets = vec![asset(0, "i0", "m0"), asset(1, "i1", "m1"), asset(2, "i2", "m2")];
    let mut cache = Cache::new("program".to_string());
    let indices = detect_changes(&assets, &mut cache);
    assert_eq!(indices.image, vec![0, 1, 2]);
    assert_eq!(indices.metadata, vec![0, 1, 2]);
    assert!(indices.animation.is_empty());
    assert!(needs_upload(&indices));
    assert!(check_counts(&indices).is_ok());

    let tasks = prepare_batch(&assets, &cache, &indices.image, DataType::Image).ok().unwrap();
    let mut sched = UploadScheduler::new(tasks, DataType::Image, 2);
    assert_eq!(sched.start(), (0, 2));
    assert_eq!(sched.pending(), 3);
    assert!(sched.complete(&mut cache, 0, Ok("img-0".to_string())).is_ok());
    assert_eq!(sched.pending(), 2);
    // One free slot of two is not more than half the window.
    assert_eq!(sched.replenish(), None);
    assert!(sched.complete(&mut cache, 1, Ok("img-1".to_string())).is_ok());
    assert_eq!(sched.replenish(), Some((2, 3)));
    assert!(sched.complete(&mut cache, 2, Ok("img-2".to_string())).is_ok());
    assert!(!sched.keep_waiting(false));
    assert!(sched.finish().is_empty());
    assert_eq!(cache.get(1).unwrap().image_link, "img-1");

    let mut metadata = indices.metadata.clone();
    retain_ready(&mut metadata, &indices.image, &cache, DataType::Image);
    assert_eq!(metadata, vec![0, 1, 2]);
    let tasks = prepare_batch(&assets, &cache, &metadata, DataType::Metadata).ok().unwrap();
    assert_eq!(tasks[1].media_link, "img-1");
    assert_eq!(tasks[1].content_type, "application/json");
    let mut sched = UploadScheduler::new(tasks, DataType::Metadata, 2);
    run_batch(&mut sched, &mut cache, None);
    assert!(sched.finish().is_empty());
    assert_eq!(count_uploaded(&assets, &cache), 3);
    assert!(reconcile(&assets, &cache, &Vec::new()).is_ok());
}

#[test]
fn changed_image_reschedules_image_and_metadata() {
    let assets = vec![asset(0, "i0", "m0"), asset(1, "i1-new", "m1"), asset(2, "i2", "m2")];
    let mut cache = Cache::new("program".to_string());
    for a in &assets {
        cache.upsert(a.index, uploaded_item(a));
    }
    let mut old = uploaded_item(&assets[1]);
    old.image_hash = "i1-old".to_string();
    cache.upsert(1, old);
    let indices = detect_changes(&assets, &mut cache);
    assert_eq!(indices.image, vec![1]);
    assert_eq!(indices.metadata, vec![1]);
    let item = cache.get(1).unwrap();
    assert_eq!(item.image_hash, "i1-new");
    assert!(item.image_link.is_empty());
    assert!(item.metadata_link.is_empty());
}

#[test]
fn unchanged_assets_schedule_nothing_on_second_run() {
    let assets = vec![asset(0, "i0", "m0"), animated(1, "an1")];
    let mut cache = Cache::new("program".to_string());
    let first = detect_changes(&assets, &mut cache);
    assert_eq!(first.animation, vec![1]);
    for a in &assets {
        cache.upsert(a.index, uploaded_item(a));
    }
    let second = detect_changes(&assets, &mut cache);
    assert!(second.image.is_empty());
    assert!(second.metadata.is_empty());
    assert!(second.animation.is_empty());
    assert!(!needs_upload(&second));
}

#[test]
fn cache_keys_only_grow() {
    let mut cache = Cache::new("program".to_string());
    let stale = asset(7, "i7", "m7");
    cache.upsert(7, uploaded_item(&stale));
    let assets = vec![asset(0, "i0", "m0"), asset(1, "i1", "m1")];
    detect_changes(&assets, &mut cache);
    assert!(cache.get(7).is_some());
    assert!(cache.get(0).is_some());
    assert!(cache.get(1).is_some());
    assert_eq!(cache.items.len(), 3);
}

#[test]
fn every_changed_image_has_its_metadata_scheduled() {
    let assets = vec![asset(0, "a", "m0"), asset(1, "b", "m1"), asset(2, "c", "m2-new")];
    let mut cache = Cache::new("program".to_string());
    for (a, old_hash) in assets.iter().zip(["a-old", "b", "c"]) {
        let mut item = uploaded_item(a);
        item.image_hash = old_hash.to_string();
        item.metadata_hash = "m-old".to_string();
        cache.upsert(a.index, item);
    }
    let indices = detect_changes(&assets, &mut cache);
    assert_eq!(indices.image, vec![0]);
    assert_eq!(indices.metadata, vec![0, 1, 2]);
    for i in &indices.image {
        assert!(indices.metadata.contains(i));
    }
}

#[test]
fn metadata_change_updates_item_in_place() {
    let a = asset(0, "i0", "m0-new");
    let mut cache = Cache::new("program".to_string());
    let mut item = uploaded_item(&a);
    item.metadata_hash = "m0-old".to_string();
    item.on_chain = true;
    cache.upsert(0, item);
    assert_eq!(classify(cache.get(0), &a), Change::MetadataChanged);
    let indices = detect_changes(&vec![a], &mut cache);
    assert!(indices.image.is_empty());
    assert_eq!(indices.metadata, vec![0]);
    let item = cache.get(0).unwrap();
    assert_eq!(item.image_link, "https://store/0.png");
    assert_eq!(item.metadata_hash, "m0-new");
    assert!(item.metadata_link.is_empty());
    assert!(!item.on_chain);
}

#[test]
fn changed_animation_reschedules_all_three_roles() {
    let a = animated(0, "an-new");
    let mut cache = Cache::new("program".to_string());
    let mut item = uploaded_item(&a);
    item.animation_hash = Some("an-old".to_string());
    cache.upsert(0, item);
    assert_eq!(classify(cache.get(0), &a), Change::AnimationReplaced);
    let indices = detect_changes(&vec![a], &mut cache);
    assert_eq!(indices.image, vec![0]);
    assert_eq!(indices.metadata, vec![0]);
    assert_eq!(indices.animation, vec![0]);
}

#[test]
fn replaced_image_keeps_earlier_animation_scheduled() {
    let a = asset(0, "i-new", "m0");
    let mut cache = Cache::new("program".to_string());
    let mut item = uploaded_item(&animated(0, "an"));
    item.image_hash = "i-old".to_string();
    cache.upsert(0, item);
    let indices = detect_changes(&vec![a], &mut cache);
    assert_eq!(indices.animation, vec![0]);
    assert!(cache.get(0).unwrap().animation_link.is_none());
}

#[test]
fn mixed_extensions_fail_before_any_task() {
    let mut assets = vec![asset(0, "i0", "m0"), asset(1, "i1", "m1")];
    assets[1].image = "assets/1.jpg".to_string();
    let mut cache = Cache::new("program".to_string());
    let indices = detect_changes(&assets, &mut cache);
    let r = prepare_batch(&assets, &cache, &indices.image, DataType::Image);
    assert!(matches!(r, Err(UploadError::ExtensionMismatch)));
}

#[test]
fn media_batch_content_type_comes_from_extension() {
    let assets = vec![asset(0, "i0", "m0"), asset(1, "i1", "m1")];
    let mut cache = Cache::new("program".to_string());
    let indices = detect_changes(&assets, &mut cache);
    let tasks = prepare_batch(&assets, &cache, &indices.image, DataType::Image).ok().unwrap();
    assert_eq!(tasks.len(), 2);
    assert_eq!(tasks[0].content_type, "image/png");
    assert_eq!(tasks[1].file_path, "assets/1.png");
    assert_eq!(tasks[1].asset_id, 1);
    assert!(tasks[1].media_link.is_empty());
}

#[test]
fn batch_errors_name_the_missing_piece() {
    let assets = vec![asset(0, "i0", "m0")];
    let mut cache = Cache::new("program".to_string());
    let r = prepare_batch(&assets, &cache, &vec![3], DataType::Image);
    assert!(matches!(r, Err(UploadError::MissingAsset(3))));
    let r = prepare_batch(&assets, &cache, &vec![0], DataType::Animation);
    assert!(matches!(r, Err(UploadError::MissingFile(0))));
    let r = prepare_batch(&assets, &cache, &vec![0], DataType::Image);
    assert!(matches!(r, Err(UploadError::MissingCacheEntry(0))));
    let r = prepare_batch(&assets, &cache, &vec![], DataType::Image);
    assert!(matches!(r, Err(UploadError::ExtensionMismatch)));
    let mut bare = asset(0, "i0", "m0");
    bare.image = "assets/0".to_string();
    detect_changes(&vec![asset(0, "i0", "m0")], &mut cache);
    let r = prepare_batch(&vec![bare], &cache, &vec![0], DataType::Image);
    assert!(matches!(r, Err(UploadError::ExtensionMismatch)));
}

#[test]
fn in_flight_never_exceeds_the_limit() {
    let limit = 4;
    for len in 0..=(10 * limit) {
        let assets: Vec<AssetPair> = (0..len).map(|i| asset(i, "i", "m")).collect();
        let mut cache = Cache::new("program".to_string());
        let indices = detect_changes(&assets, &mut cache);
        let tasks = match prepare_batch(&assets, &cache, &indices.image, DataType::Image) {
            Ok(t) => t,
            Err(_) => {
                assert_eq!(len, 0);
                Vec::new()
            }
        };
        let mut sched = UploadScheduler::new(tasks, DataType::Image, limit);
        let most = run_batch(&mut sched, &mut cache, None);
        assert!(most <= limit);
        assert_eq!(sched.uploaded, len);
        assert!(sched.finish().is_empty());
    }
}

#[test]
fn one_failed_upload_leaves_the_others_done() {
    let assets: Vec<AssetPair> = (0..10).map(|i| asset(i, "i", "m")).collect();
    let mut cache = Cache::new("program".to_string());
    let indices = detect_changes(&assets, &mut cache);
    let tasks = prepare_batch(&assets, &cache, &indices.image, DataType::Image).ok().unwrap();
    let mut sched = UploadScheduler::new(tasks, DataType::Image, 4);
    run_batch(&mut sched, &mut cache, Some(5));
    assert_eq!(sched.uploaded, 9);
    let errors = sched.finish();
    assert_eq!(errors, vec!["Upload error: task 5".to_string()]);
    for i in 0..10 {
        assert_eq!(cache.get(i).unwrap().image_link.is_empty(), i == 5);
    }
    let mut metadata = indices.metadata.clone();
    retain_ready(&mut metadata, &indices.image, &cache, DataType::Image);
    assert_eq!(metadata, vec![0, 1, 2, 3, 4, 6, 7, 8, 9]);
    match reconcile(&assets, &cache, &errors) {
        Err(UploadError::Incomplete(msgs)) => assert_eq!(msgs, errors),
        _ => panic!("expected an incomplete run"),
    }
}

#[test]
fn interruption_abandons_queued_tasks() {
    let assets: Vec<AssetPair> = (0..6).map(|i| asset(i, "i", "m")).collect();
    let mut cache = Cache::new("program".to_string());
    let indices = detect_changes(&assets, &mut cache);
    let tasks = prepare_batch(&assets, &cache, &indices.image, DataType::Image).ok().unwrap();
    let mut sched = UploadScheduler::new(tasks, DataType::Image, 2);
    assert_eq!(sched.start(), (0, 2));
    assert!(sched.keep_waiting(false));
    assert!(sched.complete(&mut cache, 1, Ok("link-1".to_string())).is_ok());
    assert_eq!(sched.replenish(), None);
    assert!(!sched.keep_waiting(true));
    assert!(sched.abandoned());
    let errors = sched.finish();
    assert_eq!(errors, vec!["Not all files were uploaded.".to_string()]);
    for i in 0..6 {
        assert_eq!(cache.get(i).unwrap().image_link.is_empty(), i != 1);
    }
    match reconcile(&assets, &cache, &errors) {
        Err(UploadError::Incomplete(msgs)) => assert_eq!(msgs.len(), 1),
        _ => panic!("expected an incomplete run"),
    }
}

#[test]
fn completion_without_cache_item_is_reported() {
    let assets = vec![asset(0, "i0", "m0")];
    let mut cache = Cache::new("program".to_string());
    detect_changes(&assets, &mut cache);
    let tasks = prepare_batch(&assets, &cache, &vec![0], DataType::Image).ok().unwrap();
    let mut sched = UploadScheduler::new(tasks, DataType::Image, 2);
    sched.start();
    let mut empty = Cache::new("program".to_string());
    let r = sched.complete(&mut empty, 0, Ok("link".to_string()));
    assert!(matches!(r, Err(UploadError::MissingCacheEntry(0))));
}

#[test]
fn metadata_fields_must_match_configuration() {
    let file = "assets/0.json".to_string();
    let sym = "SYM".to_string();
    assert!(check_metadata(&file, &sym, 500, &sym, 500).is_ok());
    match check_metadata(&file, &"OTHER".to_string(), 500, &sym, 500) {
        Err(UploadError::SymbolMismatch { expected, actual, .. }) => {
            assert_eq!(expected, "SYM");
            assert_eq!(actual, "OTHER");
        }
        _ => panic!("expected a symbol mismatch"),
    }
    assert!(matches!(
        check_metadata(&file, &sym, 250, &sym, 500),
        Err(UploadError::FeeMismatch { expected_fee: 500, actual_fee: 250, .. })
    ));
}

#[test]
fn more_images_than_metadata_is_an_error() {
    let assets = vec![asset(0, "i0", "m0")];
    let mut cache = Cache::new("program".to_string());
    let mut indices = detect_changes(&assets, &mut cache);
    assert!(check_counts(&indices).is_ok());
    indices.metadata.clear();
    assert!(matches!(
        check_counts(&indices),
        Err(UploadError::MoreImagesThanMetadata { images: 1, metadata: 0 })
    ));
}

#[test]
fn failed_animation_drops_its_metadata() {
    let assets = vec![animated(0, "an0"), animated(1, "an1")];
    let mut cache = Cache::new("program".to_string());
    let indices = detect_changes(&assets, &mut cache);
    let tasks = prepare_batch(&assets, &cache, &indices.animation, DataType::Animation)
        .ok()
        .unwrap();
    assert_eq!(tasks[0].content_type, "image/gif");
    let mut sched = UploadScheduler::new(tasks, DataType::Animation, 4);
    run_batch(&mut sched, &mut cache, Some(1));
    assert_eq!(cache.get(0).unwrap().animation_link, Some("link-0".to_string()));
    let mut metadata = indices.metadata.clone();
    retain_ready(&mut metadata, &indices.animation, &cache, DataType::Animation);
    assert_eq!(metadata, vec![0]);
}

#[test]
fn aggregated_messages_are_deduplicated() {
    let errors = vec!["a".to_string(), "b".to_string(), "a".to_string()];
    assert_eq!(unique_messages(&errors), vec!["a".to_string(), "b".to_string()]);
    let assets = vec![asset(0, "i0", "m0")];
    let cache = Cache::new("program".to_string());
    match reconcile(&assets, &cache, &Vec::new()) {
        Err(UploadError::Incomplete(msgs)) => assert!(msgs.is_empty()),
        _ => panic!("expected an incomplete run"),
    }
}

#[test]
fn interruption_flag_stops_waiting() {
    let args = UploadArgs {
        assets_dir: "assets".to_string(),
        config: "config.json".to_string(),
        keypair: None,
        rpc_url: None,
        cache: "cache.json".to_string(),
        interrupted: Arc::new(AtomicBool::new(true)),
    };
    let assets = vec![asset(0, "i0", "m0")];
    let mut cache = Cache::new("program".to_string());
    detect_changes(&assets, &mut cache);
    let tasks = prepare_batch(&assets, &cache, &vec![0], DataType::Image).ok().unwrap();
    let mut sched = UploadScheduler::new(tasks, DataType::Image, 2);
    sched.start();
    assert!(args.is_interrupted());
    assert!(!sched.poll(&args));
    args.clear_interrupted();
    assert!(!args.is_interrupted());
    assert!(sched.poll(&args));
}
