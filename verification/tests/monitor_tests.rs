use file_screening::bundle::PathProbe;
use file_screening::cache::ConfigurationCache;
use file_screening::config::{
    AllConfigurations, FileCategoryRust, FileExtensionMapRust, FileFilterRuleRust,
    MonitoredDirectory, RuleActionRust, RulePriorityRust, RuleTypeRust,
};
use file_screening::debounce::SimpleFileEvent;
use file_screening::metadata::FileStat;
use file_screening::monitor::{process_file_event, DropReason, EventOutcome, PathFacts};
use file_screening::rules::MonitorStats;

fn dir(path: &str, is_blacklist: bool) -> MonitoredDirectory {
    MonitoredDirectory {
        id: Some(1),
        path: path.to_string(),
        alias: None,
        is_blacklist,
        created_at: None,
        updated_at: None,
    }
}

fn ext_map(extension: &str, category_id: i32) -> FileExtensionMapRust {
    FileExtensionMapRust {
        id: 0,
        extension: extension.to_string(),
        category_id,
        description: None,
        priority: RulePriorityRust::Low,
    }
}

fn docs_config(rules: Vec<FileFilterRuleRust>) -> AllConfigurations {
    AllConfigurations {
        file_categories: vec![FileCategoryRust {
            id: 1,
            name: "document".to_string(),
            description: None,
            icon: None,
        }],
        file_filter_rules: rules,
        file_extension_maps: vec![ext_map("txt", 1)],
        monitored_folders: vec![dir("/docs", false), dir("/docs/tmp", true)],
        full_disk_access: true,
        bundle_extensions: Vec::new(),
    }
}

fn docs_cache(rules: Vec<FileFilterRuleRust>) -> ConfigurationCache {
    let mut cache = ConfigurationCache::new();
    cache.store_configuration(docs_config(rules));
    cache
}

fn file_facts(content: &[u8]) -> PathFacts {
    PathFacts {
        probe: PathProbe {
            exists: true,
            is_file: true,
            is_dir: false,
            has_info_plist: false,
            has_bundle_layout: false,
            dot_entries: 0,
            on_macos: true,
        },
        stat: Some(FileStat { is_dir: false, len: content.len() as u64, created: 5, modified: 6 }),
        head: content.to_vec(),
    }
}

fn dir_facts() -> PathFacts {
    PathFacts {
        probe: PathProbe {
            exists: true,
            is_file: false,
            is_dir: true,
            has_info_plist: false,
            has_bundle_layout: false,
            dot_entries: 0,
            on_macos: true,
        },
        stat: Some(FileStat { is_dir: true, len: 64, created: 5, modified: 6 }),
        head: Vec::new(),
    }
}

fn stats() -> MonitorStats {
    MonitorStats { processed_files: 0, filtered_files: 0, filtered_bundles: 0, error_count: 0 }
}

fn added(path: &str) -> SimpleFileEvent {
    SimpleFileEvent::Added(path.to_string())
}

fn reason(outcome: &EventOutcome) -> Option<DropReason> {
    match outcome {
        EventOutcome::Dropped(r) => Some(*r),
        _ => None,
    }
}

#[test]
fn a_file_under_a_blacklisted_directory_gives_no_record() {
    let cache = docs_cache(Vec::new());
    let mut s = stats();
    let out = process_file_event(&cache, &mut s, &added("/docs/tmp/a.txt"), &file_facts(b"x"), &None);
    assert_eq!(reason(&out), Some(DropReason::Blacklisted));
    assert_eq!(s.filtered_files, 1);
    assert_eq!(s.processed_files, 0);
}

#[test]
fn a_file_under_a_monitored_directory_gives_one_record() {
    let cache = docs_cache(Vec::new());
    let mut s = stats();
    let out = process_file_event(&cache, &mut s, &added("/docs/a.txt"), &file_facts(b"abc"), &None);
    match out {
        EventOutcome::Record(m) => {
            assert_eq!(m.file_path, "/docs/a.txt");
            assert_eq!(m.file_name, "a.txt");
            assert_eq!(m.category_id, Some(1));
            assert!(!m.is_excluded());
            assert_eq!(m.extra_metadata.as_ref().unwrap().excluded_by_rule_id, None);
            assert_eq!(m.labels, Some(vec!["ext:txt".to_string()]));
            assert_eq!(m.file_size, 3);
            assert_eq!(m.is_os_bundle, Some(false));
            assert_eq!(
                m.hash_value,
                Some("ba7816bf8f01cfea414140de5dae2223b00361a396177a9cb410ff61f20015ad".to_string())
            );
        },
        _ => panic!("expected a record"),
    }
    assert_eq!(s.processed_files, 1);
    assert_eq!(s.filtered_files, 0);
    assert_eq!(s.filtered_bundles, 0);
}

#[test]
fn a_removal_asks_for_a_delete_and_gives_no_record() {
    let cache = docs_cache(Vec::new());
    let mut s = stats();
    let event = SimpleFileEvent::Removed("/docs/a.txt".to_string());
    let out = process_file_event(&cache, &mut s, &event, &file_facts(b""), &None);
    match out {
        EventOutcome::Delete(p) => assert_eq!(p, "/docs/a.txt"),
        _ => panic!("expected a delete"),
    }
    assert_eq!(s.processed_files, 0);
    let unmonitored = SimpleFileEvent::Removed("/elsewhere/a.txt".to_string());
    match process_file_event(&cache, &mut s, &unmonitored, &file_facts(b""), &None) {
        EventOutcome::Delete(p) => assert_eq!(p, "/elsewhere/a.txt"),
        _ => panic!("expected a delete"),
    }
}

#[test]
fn changes_outside_the_monitored_directories_are_dropped() {
    let cache = docs_cache(Vec::new());
    let mut s = stats();
    let out = process_file_event(&cache, &mut s, &added("/other/a.txt"), &file_facts(b"x"), &None);
    assert_eq!(reason(&out), Some(DropReason::NotMonitored));
    let empty = ConfigurationCache::new();
    let out = process_file_event(&empty, &mut s, &added("/docs/a.txt"), &file_facts(b"x"), &None);
    assert_eq!(reason(&out), Some(DropReason::NotMonitored));
    assert_eq!(s.filtered_files, 0);
}

#[test]
fn missing_and_hidden_paths_are_dropped() {
    let cache = docs_cache(Vec::new());
    let mut s = stats();
    let mut gone = file_facts(b"x");
    gone.probe.exists = false;
    let out = process_file_event(&cache, &mut s, &added("/docs/a.txt"), &gone, &None);
    assert_eq!(reason(&out), Some(DropReason::Missing));
    let out = process_file_event(&cache, &mut s, &added("/docs/.git/a.txt"), &file_facts(b"x"), &None);
    assert_eq!(reason(&out), Some(DropReason::Hidden));
    assert_eq!(s.filtered_files, 0);
}

#[test]
fn files_outside_the_whitelist_are_dropped_and_counted() {
    let cache = docs_cache(Vec::new());
    let mut s = stats();
    let out = process_file_event(&cache, &mut s, &added("/docs/a.exe"), &file_facts(b"x"), &None);
    assert_eq!(reason(&out), Some(DropReason::NotInWhitelist));
    let out = process_file_event(&cache, &mut s, &added("/docs/Makefile"), &file_facts(b"x"), &None);
    assert_eq!(reason(&out), Some(DropReason::NoExtension));
    assert_eq!(s.filtered_files, 2);
    let out = process_file_event(&cache, &mut s, &added("/docs/A.TXT"), &file_facts(b"x"), &None);
    assert!(matches!(out, EventOutcome::Record(_)));
}

#[test]
fn a_file_inside_a_bundle_is_sent_to_the_bundle() {
    let cache = docs_cache(Vec::new());
    let mut s = stats();
    let inner = process_file_event(
        &cache,
        &mut s,
        &added("/docs/App.app/Contents/MacOS/bin"),
        &file_facts(b"x"),
        &None,
    );
    let root = match inner {
        EventOutcome::Redirect(root) => root,
        _ => panic!("expected a redirect"),
    };
    assert_eq!(root, "/docs/App.app");
    assert_eq!(s.processed_files, 0);
    assert_eq!(s.filtered_bundles, 0);
    match process_file_event(&cache, &mut s, &added(&root), &dir_facts(), &None) {
        EventOutcome::Record(m) => {
            assert_eq!(m.file_path, "/docs/App.app");
            assert_eq!(m.is_os_bundle, Some(true));
        },
        _ => panic!("expected a record of the bundle"),
    }
    assert_eq!(s.processed_files, 1);
    assert_eq!(s.filtered_bundles, 1);
}

#[test]
fn a_file_inside_a_bundle_is_sent_to_the_bundle_whatever_its_extension() {
    let cache = docs_cache(Vec::new());
    let mut s = stats();
    for inner in ["/docs/App.app/Contents/Info.plist", "/docs/App.app/a.txt", "/docs/X.framework/Y.app/z"] {
        let out = process_file_event(&cache, &mut s, &added(inner), &file_facts(b"x"), &None);
        assert!(matches!(out, EventOutcome::Redirect(_)));
    }
    assert_eq!(s.filtered_files, 0);
}

#[test]
fn a_file_inside_a_bundle_is_sent_to_it_when_the_configuration_names_other_extensions() {
    let mut config = docs_config(Vec::new());
    config.bundle_extensions = vec![".plugin".to_string()];
    let mut cache = ConfigurationCache::new();
    cache.store_configuration(config);
    let mut s = stats();
    let out = process_file_event(
        &cache,
        &mut s,
        &added("/docs/Mail.app/Contents/notes.txt"),
        &file_facts(b"x"),
        &None,
    );
    match out {
        EventOutcome::Redirect(root) => assert_eq!(root, "/docs/Mail.app"),
        _ => panic!("expected a redirect"),
    }
    assert_eq!(s.processed_files, 0);
}

#[test]
fn a_file_inside_a_bundle_by_a_fallback_extension_or_in_another_casing_is_sent_to_it() {
    let cache = docs_cache(Vec::new());
    let mut s = stats();
    for (inner, root) in [
        ("/docs/Tool.plugin/a.txt", "/docs/Tool.plugin"),
        ("/docs/Display.colorSync/Contents/x.txt", "/docs/Display.colorSync"),
        ("/docs/App.APP/Contents/x.txt", "/docs/App.APP"),
    ] {
        match process_file_event(&cache, &mut s, &added(inner), &file_facts(b"x"), &None) {
            EventOutcome::Redirect(to) => assert_eq!(to, root),
            _ => panic!("expected a redirect"),
        }
        match process_file_event(&cache, &mut s, &added(root), &dir_facts(), &None) {
            EventOutcome::Record(m) => {
                assert_eq!(m.file_path, root);
                assert_eq!(m.is_os_bundle, Some(true));
            },
            _ => panic!("expected a record of the bundle"),
        }
    }
}

#[test]
fn a_bundle_is_recorded_as_one_unit() {
    let cache = docs_cache(Vec::new());
    let mut s = stats();
    let out = process_file_event(&cache, &mut s, &added("/docs/Mail.app"), &dir_facts(), &None);
    match out {
        EventOutcome::Record(m) => {
            assert_eq!(m.is_os_bundle, Some(true));
            assert!(m.is_dir);
            assert_eq!(m.hash_value, None);
            assert_eq!(m.extension, None);
        },
        _ => panic!("expected a record"),
    }
    assert_eq!(s.filtered_bundles, 1);
    assert_eq!(s.processed_files, 1);
}

#[test]
fn a_neighbour_of_a_monitored_directory_is_not_monitored() {
    let cache = docs_cache(Vec::new());
    let mut s = stats();
    let out = process_file_event(&cache, &mut s, &added("/docs2/a.txt"), &file_facts(b"x"), &None);
    assert_eq!(reason(&out), Some(DropReason::NotMonitored));
    assert_eq!(s.processed_files, 0);
    assert_eq!(s.filtered_files, 0);
}

#[test]
fn a_directory_with_info_plist_or_many_dot_entries_is_a_bundle() {
    let cache = docs_cache(Vec::new());
    let mut s = stats();
    let mut facts = dir_facts();
    facts.probe.has_info_plist = true;
    match process_file_event(&cache, &mut s, &added("/docs/thing"), &facts, &None) {
        EventOutcome::Record(m) => assert_eq!(m.is_os_bundle, Some(true)),
        _ => panic!("expected a record"),
    }
    let mut dots = dir_facts();
    dots.probe.dot_entries = 6;
    match process_file_event(&cache, &mut s, &added("/docs/thing"), &dots, &None) {
        EventOutcome::Record(m) => assert_eq!(m.is_os_bundle, Some(true)),
        _ => panic!("expected a record"),
    }
    let mut few = dir_facts();
    few.probe.dot_entries = 5;
    match process_file_event(&cache, &mut s, &added("/docs/thing"), &few, &None) {
        EventOutcome::Record(m) => assert_eq!(m.is_os_bundle, Some(false)),
        _ => panic!("expected a record"),
    }
    assert_eq!(s.filtered_bundles, 2);
}

#[test]
fn excluded_records_are_dropped_unless_they_are_bundles() {
    let exclude = FileFilterRuleRust {
        id: 9,
        name: "drafts".to_string(),
        description: None,
        rule_type: RuleTypeRust::Filename,
        category_id: None,
        priority: RulePriorityRust::High,
        action: RuleActionRust::Exclude,
        enabled: true,
        is_system: false,
        pattern: "draft".to_string(),
        pattern_type: "keyword".to_string(),
        extra_data: None,
    };
    let cache = docs_cache(vec![exclude]);
    let mut s = stats();
    let out = process_file_event(&cache, &mut s, &added("/docs/Draft.txt"), &file_facts(b"x"), &None);
    assert_eq!(reason(&out), Some(DropReason::Excluded));
    assert_eq!(s.processed_files, 1);
    assert_eq!(s.filtered_files, 1);
    let out = process_file_event(&cache, &mut s, &added("/docs/Draft.app"), &dir_facts(), &None);
    assert!(matches!(out, EventOutcome::Record(_)));
    assert_eq!(s.filtered_files, 1);
}

#[test]
fn no_stat_no_record() {
    let cache = docs_cache(Vec::new());
    let mut s = stats();
    let mut facts = file_facts(b"x");
    facts.stat = None;
    let out = process_file_event(&cache, &mut s, &added("/docs/a.txt"), &facts, &None);
    assert_eq!(reason(&out), Some(DropReason::NoMetadata));
}

#[test]
fn a_home_relative_root_is_resolved() {
    let mut config = docs_config(Vec::new());
    config.monitored_folders = vec![dir("~/notes", false)];
    let mut cache = ConfigurationCache::new();
    cache.store_configuration(config);
    let mut s = stats();
    let home = Some("/home/me".to_string());
    let out =
        process_file_event(&cache, &mut s, &added("/home/me/notes/a.txt"), &file_facts(b"x"), &home);
    assert!(matches!(out, EventOutcome::Record(_)));
    let out =
        process_file_event(&cache, &mut s, &added("/home/me/notes/a.txt"), &file_facts(b"x"), &None);
    assert_eq!(reason(&out), Some(DropReason::NotMonitored));
}
