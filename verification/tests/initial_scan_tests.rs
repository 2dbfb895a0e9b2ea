use file_screening::bundle::PathProbe;
use file_screening::cache::ConfigurationCache;
use file_screening::commands::directory_entry;
use file_screening::config::{AllConfigurations, FileExtensionMapRust, MonitoredDirectory, RulePriorityRust};
use file_screening::initial_scan::{
    path_is_top_level, plan_single_scan, single_walk_filter, walk_filter, DirectoryScan,
    InitialScanner, SingleScanPlan, WalkSkip, BLACKLIST_RECHECK_PERIOD,
};
use file_screening::metadata::FileMetadata;
use file_screening::monitor::{DropReason, EventOutcome};
use file_screening::rules::MonitorStats;

fn dir(path: &str, is_blacklist: bool) -> MonitoredDirectory {
    MonitoredDirectory {
        id: None,
        path: path.to_string(),
        alias: None,
        is_blacklist,
        created_at: None,
        updated_at: None,
    }
}

fn cache() -> ConfigurationCache {
    let mut cache = ConfigurationCache::new();
    cache.store_configuration(AllConfigurations {
        file_categories: Vec::new(),
        file_filter_rules: Vec::new(),
        file_extension_maps: vec![FileExtensionMapRust {
            id: 1,
            extension: "txt".to_string(),
            category_id: 1,
            description: None,
            priority: RulePriorityRust::Low,
        }],
        monitored_folders: vec![dir("/docs", false), dir("/docs/tmp", true)],
        full_disk_access: false,
        bundle_extensions: Vec::new(),
    });
    cache
}

fn file() -> PathProbe {
    PathProbe {
        exists: true,
        is_file: true,
        is_dir: false,
        has_info_plist: false,
        has_bundle_layout: false,
        dot_entries: 0,
        on_macos: true,
    }
}

fn directory() -> PathProbe {
    PathProbe { is_file: false, is_dir: true, ..file() }
}

fn record() -> EventOutcome {
    EventOutcome::Record(FileMetadata {
        file_path: "/docs/a.txt".to_string(),
        file_name: "a.txt".to_string(),
        extension: None,
        file_size: 0,
        created_time: 0,
        modified_time: 0,
        is_dir: false,
        is_hidden: false,
        hash_value: None,
        category_id: None,
        labels: None,
        initial_rule_matches: None,
        extra_metadata: None,
        is_os_bundle: None,
    })
}

#[test]
fn the_walk_enters_what_passes_every_check() {
    let c = cache();
    assert_eq!(walk_filter(&c, "/docs/a.txt", &file()), None);
    assert_eq!(walk_filter(&c, "/docs/sub", &directory()), None);
    assert_eq!(walk_filter(&c, "/docs/sub.d", &directory()), None);
}

#[test]
fn the_walk_skips_for_each_reason() {
    let c = cache();
    assert_eq!(walk_filter(&c, "/docs/.git", &directory()), Some(WalkSkip::Hidden));
    assert_eq!(walk_filter(&c, "/docs/tmp/.git", &directory()), Some(WalkSkip::Hidden));
    assert_eq!(walk_filter(&c, "/docs/tmp/a.txt", &file()), Some(WalkSkip::Blacklisted));
    assert_eq!(walk_filter(&c, "/docs/Mail.app", &directory()), Some(WalkSkip::Bundle));
    assert_eq!(walk_filter(&c, "/docs/Mail.app/Contents", &directory()), Some(WalkSkip::Bundle));
    let plist = PathProbe { has_info_plist: true, ..directory() };
    assert_eq!(walk_filter(&c, "/docs/thing", &plist), Some(WalkSkip::BundleByPlist));
    let elsewhere = PathProbe { on_macos: false, ..plist };
    assert_eq!(walk_filter(&c, "/docs/thing", &elsewhere), None);
    assert_eq!(walk_filter(&c, "/docs/a.exe", &file()), Some(WalkSkip::NotInWhitelist));
    assert_eq!(walk_filter(&c, "/docs/README", &file()), Some(WalkSkip::NotInWhitelist));
}

#[test]
fn the_walk_of_one_directory_only_skips_hidden_entries_and_bundles() {
    assert_eq!(single_walk_filter("/docs/a.exe", &file()), None);
    assert_eq!(single_walk_filter("/docs/.a", &file()), Some(WalkSkip::Hidden));
    assert_eq!(single_walk_filter("/docs/X.bundle", &directory()), Some(WalkSkip::Bundle));
}

#[test]
fn top_level_paths_hold_at_most_one_separator() {
    assert!(path_is_top_level("Mail.app"));
    assert!(path_is_top_level("/Mail.app"));
    assert!(!path_is_top_level("/Applications/Mail.app"));
    assert!(path_is_top_level(""));
}

#[test]
fn the_scan_of_one_directory_is_planned() {
    let c = cache();
    assert_eq!(plan_single_scan(&c, "/docs/tmp/new", true), SingleScanPlan::Skip);
    assert_eq!(plan_single_scan(&c, "/docs/tmp/new", false), SingleScanPlan::Skip);
    assert_eq!(plan_single_scan(&c, "/docs/new", false), SingleScanPlan::Missing);
    assert_eq!(plan_single_scan(&c, "/docs/new", true), SingleScanPlan::Walk);
}

#[test]
fn the_initial_scan_runs_once() {
    let mut scanner = InitialScanner::new();
    assert!(scanner.try_begin());
    assert!(!scanner.try_begin());
    assert!(!scanner.try_begin());
}

#[test]
fn the_walk_keeps_count() {
    let c = cache();
    let mut scan = DirectoryScan::new();
    scan.note_filtered("/Mail.app", WalkSkip::Bundle);
    scan.note_filtered("/docs/Mail.app", WalkSkip::Bundle);
    scan.note_filtered("/docs/thing", WalkSkip::BundleByPlist);
    scan.note_filtered("/docs/.git", WalkSkip::Hidden);
    assert_eq!(scan.skipped_bundles, 2);
    assert!(scan.visit(&c, "/docs/a.txt"));
    scan.note_outcome(&record());
    assert!(scan.visit(&c, "/docs/tmp/a.txt"));
    scan.note_outcome(&EventOutcome::Dropped(DropReason::Blacklisted));
    assert!(scan.visit(&c, "/docs/b.txt"));
    scan.note_outcome(&EventOutcome::Redirect("/docs/X.app".to_string()));
    assert_eq!(
        scan,
        DirectoryScan { total_files: 3, processed_files: 1, skipped_files: 2, skipped_bundles: 2 }
    );
    let mut stats =
        MonitorStats { processed_files: 10, filtered_files: 20, filtered_bundles: 30, error_count: 4 };
    scan.finish(&mut stats);
    assert_eq!(stats.processed_files, 11);
    assert_eq!(stats.filtered_files, 22);
    assert_eq!(stats.filtered_bundles, 32);
    assert_eq!(stats.error_count, 4);
}

#[test]
fn every_thousandth_entry_is_checked_against_the_blacklist_again() {
    let c = cache();
    assert_eq!(BLACKLIST_RECHECK_PERIOD, 1000);
    let mut scan =
        DirectoryScan { total_files: 998, processed_files: 998, skipped_files: 0, skipped_bundles: 0 };
    assert!(scan.visit(&c, "/docs/tmp/a.txt"));
    scan.note_outcome(&record());
    assert!(!scan.visit(&c, "/docs/tmp/a.txt"));
    assert_eq!(scan.total_files, 1000);
    assert_eq!(scan.skipped_files, 1);
    assert!(scan.visit(&c, "/docs/tmp/a.txt"));
    let mut other =
        DirectoryScan { total_files: 999, processed_files: 999, skipped_files: 0, skipped_bundles: 0 };
    assert!(other.visit(&c, "/docs/a.txt"));
    assert_eq!(other.skipped_files, 0);
}

#[test]
fn only_visible_directories_are_offered() {
    let entry = directory_entry("sub".to_string(), "/d/sub".to_string(), true).unwrap();
    assert_eq!(entry.name, "sub");
    assert_eq!(entry.path, "/d/sub");
    assert!(entry.is_directory);
    assert!(directory_entry(".git".to_string(), "/d/.git".to_string(), true).is_none());
    assert!(directory_entry("a.txt".to_string(), "/d/a.txt".to_string(), false).is_none());
    assert!(directory_entry(String::new(), "/d".to_string(), true).is_some());
}

#[test]
fn entries_and_bundles_of_a_single_walk_are_counted() {
    let mut scan = DirectoryScan::new();
    assert!(scan.is_settled());
    scan.note_bundle();
    scan.note_bundle();
    scan.note_entry();
    assert!(!scan.is_settled());
    scan.note_outcome(&record());
    assert!(scan.is_settled());
    scan.note_entry();
    scan.note_entry();
    scan.note_outcome(&EventOutcome::Dropped(DropReason::NoMetadata));
    assert!(!scan.is_settled());
    assert_eq!(
        scan,
        DirectoryScan { total_files: 3, processed_files: 1, skipped_files: 1, skipped_bundles: 2 }
    );
}
