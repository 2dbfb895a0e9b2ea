use file_screening::batch::{
    check_record, route_record, BatchAccumulator, Delivery, SkipReason, DEFAULT_BATCH_INTERVAL_MS, DEFAULT_BATCH_SIZE,
    METADATA_CHANNEL_CAPACITY,
};
use file_screening::config::{FileExtensionMapRust, RulePriorityRust};
use file_screening::metadata::{ExtraMetadata, FileMetadata};

fn record(name: &str, extension: Option<&str>) -> FileMetadata {
    FileMetadata {
        file_path: format!("/docs/{}", name),
        file_name: name.to_string(),
        extension: extension.map(|e| e.to_string()),
        file_size: 1,
        created_time: 1,
        modified_time: 1,
        is_dir: false,
        is_hidden: false,
        hash_value: None,
        category_id: None,
        labels: None,
        initial_rule_matches: None,
        extra_metadata: None,
        is_os_bundle: Some(false),
    }
}

fn maps() -> Vec<FileExtensionMapRust> {
    vec![FileExtensionMapRust {
        id: 1,
        extension: "txt".to_string(),
        category_id: 1,
        description: None,
        priority: RulePriorityRust::Low,
    }]
}

fn names(batch: &Option<Vec<FileMetadata>>) -> Option<Vec<String>> {
    batch.as_ref().map(|b| b.iter().map(|m| m.file_name.clone()).collect())
}

#[test]
fn defaults() {
    assert_eq!(DEFAULT_BATCH_SIZE, 50);
    assert_eq!(DEFAULT_BATCH_INTERVAL_MS, 10_000);
    assert_eq!(METADATA_CHANNEL_CAPACITY, 100);
}

#[test]
fn three_records_with_batch_size_two_flush_once() {
    let mut acc = BatchAccumulator::new(2, 10_000);
    assert!(acc.try_start(0));
    let first = acc.accept(record("a.txt", Some("txt")), &maps(), 10);
    assert!(first.is_none());
    let second = acc.accept(record("b.txt", Some("txt")), &maps(), 20);
    assert_eq!(names(&second), Some(vec!["a.txt".to_string(), "b.txt".to_string()]));
    let third = acc.accept(record("c.txt", Some("txt")), &maps(), 30);
    assert!(third.is_none());
    assert_eq!(acc.pending_count(), 1);
    assert_eq!(acc.get_stats().received_files, 3);
    assert_eq!(acc.get_stats().processed_files, 3);
}

#[test]
fn one_record_is_flushed_when_the_interval_has_passed() {
    let mut acc = BatchAccumulator::new(50, 1000);
    assert!(acc.try_start(5000));
    assert!(acc.accept(record("a.txt", Some("txt")), &maps(), 5100).is_none());
    assert!(acc.on_tick(5999).is_none());
    assert_eq!(acc.pending_count(), 1);
    let flushed = acc.on_tick(6000);
    assert_eq!(names(&flushed), Some(vec!["a.txt".to_string()]));
    assert_eq!(acc.pending_count(), 0);
    assert!(acc.on_tick(9000).is_none());
    assert!(acc.accept(record("b.txt", Some("txt")), &maps(), 6500).is_none());
    assert!(acc.on_tick(6999).is_none());
    assert!(acc.on_tick(7000).is_some());
}

#[test]
fn a_tick_before_the_last_flush_time_flushes_nothing() {
    let mut acc = BatchAccumulator::new(50, 1000);
    assert!(acc.try_start(5000));
    assert!(acc.accept(record("a.txt", Some("txt")), &maps(), 5000).is_none());
    assert!(acc.on_tick(10).is_none());
    assert_eq!(acc.pending_count(), 1);
}

#[test]
fn closing_flushes_what_is_left() {
    let mut acc = BatchAccumulator::new(50, 10_000);
    assert!(acc.try_start(0));
    acc.accept(record("a.txt", Some("txt")), &maps(), 1);
    acc.accept(record("b.txt", Some("txt")), &maps(), 2);
    let rest = acc.close(3);
    assert_eq!(names(&rest), Some(vec!["a.txt".to_string(), "b.txt".to_string()]));
    assert!(!acc.is_running());
    assert_eq!(acc.pending_count(), 0);
    assert!(acc.close(4).is_none());
}

#[test]
fn a_second_start_is_refused() {
    let mut acc = BatchAccumulator::new(2, 1000);
    assert!(!acc.is_running());
    assert!(acc.try_start(1));
    assert!(!acc.try_start(2));
    assert!(acc.is_running());
    acc.close(3);
    assert!(acc.try_start(4));
}

#[test]
fn each_reason_to_skip() {
    let m = maps();
    let mut hidden = record(".a.txt", Some("txt"));
    hidden.is_hidden = true;
    assert_eq!(check_record(&hidden, &m), Some(SkipReason::Hidden));

    let mut excluded = record("a.txt", Some("txt"));
    let mut extra = ExtraMetadata::new();
    extra.excluded_by_rule_id = Some(1);
    excluded.extra_metadata = Some(extra);
    assert_eq!(check_record(&excluded, &m), Some(SkipReason::RuleExcluded));

    assert_eq!(check_record(&record("a.pdf", Some("pdf")), &m), Some(SkipReason::InvalidExtension));
    assert_eq!(check_record(&record("README", None), &m), Some(SkipReason::InvalidExtension));
    assert_eq!(check_record(&record("README", None), &Vec::new()), None);

    assert_eq!(check_record(&record("x.DS_Store.txt", Some("txt")), &m), Some(SkipReason::DsStore));

    let mut directory = record("folder", None);
    directory.is_dir = true;
    assert_eq!(check_record(&directory, &m), Some(SkipReason::Directory));

    assert_eq!(check_record(&record("a.TXT", Some("TXT")), &m), None);
}

#[test]
fn bundles_pass_the_whitelist_but_not_the_other_checks() {
    let m = maps();
    let mut bundle = record("Mail.app", Some("app"));
    bundle.is_os_bundle = Some(true);
    assert_eq!(check_record(&bundle, &m), None);
    bundle.is_dir = true;
    assert_eq!(check_record(&bundle, &m), Some(SkipReason::Directory));
    bundle.is_hidden = true;
    assert_eq!(check_record(&bundle, &m), Some(SkipReason::Hidden));
}

#[test]
fn skipped_records_are_counted_by_reason() {
    let mut acc = BatchAccumulator::new(10, 1000);
    let m = maps();
    let mut hidden = record(".a.txt", Some("txt"));
    hidden.is_hidden = true;
    let mut directory = record("folder", None);
    directory.is_dir = true;
    assert!(acc.accept(hidden, &m, 1).is_none());
    assert!(acc.accept(directory, &m, 2).is_none());
    assert!(acc.accept(record("a.pdf", Some("pdf")), &m, 3).is_none());
    assert!(acc.accept(record(".DS_Store", None), &Vec::new(), 4).is_none());
    assert!(acc.accept(record("a.txt", Some("txt")), &m, 5).is_none());
    let s = acc.get_stats();
    assert_eq!(s.received_files, 5);
    assert_eq!(s.hidden_files_skipped, 1);
    assert_eq!(s.directory_skipped, 1);
    assert_eq!(s.invalid_extension_skipped, 1);
    assert_eq!(s.ds_store_skipped, 1);
    assert_eq!(s.rule_excluded_files_skipped, 0);
    assert_eq!(s.bundle_skipped, 0);
    assert_eq!(s.processed_files, 1);
    assert_eq!(acc.pending_count(), 1);
}

#[test]
fn a_batch_size_of_zero_flushes_every_record() {
    let mut acc = BatchAccumulator::new(0, 1000);
    let out = acc.accept(record("a.txt", Some("txt")), &maps(), 1);
    assert_eq!(names(&out), Some(vec!["a.txt".to_string()]));
    assert_eq!(acc.pending_count(), 0);
}

#[test]
fn a_record_goes_to_the_queue_or_straight_to_the_service() {
    match route_record(record("a.txt", Some("txt")), true) {
        Delivery::Queue(m) => assert_eq!(m.file_name, "a.txt"),
        Delivery::Direct(_) => panic!("expected the queue"),
    }
    match route_record(record("b.txt", Some("txt")), false) {
        Delivery::Direct(batch) => {
            assert_eq!(batch.len(), 1);
            assert_eq!(batch[0].file_name, "b.txt");
        },
        Delivery::Queue(_) => panic!("expected a direct submission"),
    }
}
