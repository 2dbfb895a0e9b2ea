use file_screening::bundle::PathProbe;
use file_screening::config::{
    FileExtensionMapRust, FileScanningConfig, MonitoredDirectory, RulePriorityRust,
};
use file_screening::scanner::{
    category_allowed, check_scan_config, find_category,
    get_category_ids_for_file_type, is_file_in_time_range, is_file_of_type, is_macos_bundle_folder,
    path_in_cache_directory, scan_entry_simplified, scan_entry_with_filter, scan_limit_reached,
    should_scan_directory, time_allowed, EntryFacts, FileType, Now, ScanError, ScanSkip, TimeRange,
};

const DAY: u64 = 86_400;

fn ext_map(extension: &str, category_id: i32) -> FileExtensionMapRust {
    FileExtensionMapRust {
        id: 0,
        extension: extension.to_string(),
        category_id,
        description: None,
        priority: RulePriorityRust::Low,
    }
}

fn maps() -> Vec<FileExtensionMapRust> {
    vec![ext_map("txt", 1), ext_map("PNG", 2), ext_map("mp3", 3), ext_map("zip", 4), ext_map("png", 9)]
}

fn file_probe() -> PathProbe {
    PathProbe {
        exists: true,
        is_file: true,
        is_dir: false,
        has_info_plist: false,
        has_bundle_layout: false,
        dot_entries: 0,
        on_macos: false,
    }
}

fn facts(modified: Option<u64>) -> EntryFacts {
    EntryFacts {
        probe: file_probe(),
        size: 42,
        modified_secs: modified,
        created_time: Some("created".to_string()),
        modified_time: "modified".to_string(),
    }
}

fn now() -> Now {
    Now { secs: 100 * DAY, subsec_nanos: 0 }
}

fn skip<T: std::fmt::Debug>(r: Result<T, ScanSkip>) -> ScanSkip {
    r.unwrap_err()
}

#[test]
fn category_ids_of_file_types() {
    assert_eq!(get_category_ids_for_file_type(&FileType::Image), vec![2]);
    assert_eq!(get_category_ids_for_file_type(&FileType::AudioVideo), vec![3]);
    assert_eq!(get_category_ids_for_file_type(&FileType::Archive), vec![4]);
    assert_eq!(get_category_ids_for_file_type(&FileType::Document), vec![1]);
    assert_eq!(get_category_ids_for_file_type(&FileType::All), Vec::<i32>::new());
}

#[test]
fn files_of_a_type() {
    let m = maps();
    assert!(is_file_of_type(&Some("txt".to_string()), &FileType::Document, &m));
    assert!(is_file_of_type(&Some("TXT".to_string()), &FileType::Document, &m));
    assert!(!is_file_of_type(&Some("txt".to_string()), &FileType::Image, &m));
    assert!(is_file_of_type(&Some("png".to_string()), &FileType::Image, &m));
    assert!(!is_file_of_type(&Some("exe".to_string()), &FileType::Archive, &m));
    assert!(!is_file_of_type(&None, &FileType::Document, &m));
    assert!(is_file_of_type(&None, &FileType::All, &m));
    assert!(is_file_of_type(&Some("exe".to_string()), &FileType::All, &Vec::new()));
}

#[test]
fn time_ranges_end_now() {
    let n = 100 * DAY;
    assert!(is_file_in_time_range(n, &TimeRange::Today, n, 0));
    assert!(is_file_in_time_range(n - DAY, &TimeRange::Today, n, 0));
    assert!(!is_file_in_time_range(n - DAY, &TimeRange::Today, n, 1));
    assert!(!is_file_in_time_range(n - DAY - 1, &TimeRange::Today, n, 0));
    assert!(is_file_in_time_range(n - 7 * DAY, &TimeRange::Last7Days, n, 0));
    assert!(!is_file_in_time_range(n - 7 * DAY - 1, &TimeRange::Last7Days, n, 0));
    assert!(is_file_in_time_range(n - 30 * DAY, &TimeRange::Last30Days, n, 0));
    assert!(!is_file_in_time_range(n - 30 * DAY - 1, &TimeRange::Last30Days, n, 999_999_999));
    assert!(is_file_in_time_range(n + 5, &TimeRange::Today, n, 0));
    assert!(is_file_in_time_range(0, &TimeRange::Today, 10, 0));
}

#[test]
fn a_time_beyond_the_clock_is_in_no_range() {
    assert!(!is_file_in_time_range(u64::MAX, &TimeRange::Today, 0, 0));
    assert!(!is_file_in_time_range(i64::MAX as u64 + 1, &TimeRange::Last30Days, 0, 0));
    assert!(is_file_in_time_range(i64::MAX as u64, &TimeRange::Last30Days, i64::MAX as u64, 0));
    assert!(!is_file_in_time_range(i64::MAX as u64, &TimeRange::Last30Days, u64::MAX, 0));
}

#[test]
fn the_filters_pass_when_nothing_is_asked() {
    assert!(time_allowed(&None, 0, &now()));
    assert!(!time_allowed(&Some(TimeRange::Today), 0, &now()));
    assert!(category_allowed(&None, 77));
    assert!(category_allowed(&Some(FileType::All), 77));
    assert!(category_allowed(&Some(FileType::Image), 2));
    assert!(!category_allowed(&Some(FileType::Image), 3));
}

#[test]
fn the_first_row_gives_the_category() {
    assert_eq!(find_category(&maps(), "png"), Some(2));
    assert_eq!(find_category(&maps(), "Txt"), Some(1));
    assert_eq!(find_category(&maps(), "gif"), None);
    let mut config = FileScanningConfig::new();
    config.set_mapping("png".to_string(), 5);
    config.set_mapping("PNG".to_string(), 7);
    config.set_mapping("txt".to_string(), 1);
    config.set_mapping("png".to_string(), 6);
    assert_eq!(config.category_of("png"), Some(6));
    assert_eq!(config.category_of("PNG"), Some(7));
    assert_eq!(config.category_of("txt"), Some(1));
    assert_eq!(config.category_of("Png"), None);
    assert_eq!(config.extension_mappings.len(), 3);
}

#[test]
fn cache_directories_in_any_casing() {
    assert!(path_in_cache_directory("/a/Cache/b.txt"));
    assert!(path_in_cache_directory("/a/cAcHe"));
    assert!(!path_in_cache_directory("/a/Caches/b.txt"));
    assert!(!path_in_cache_directory("/a/mycache/b.txt"));
}

#[test]
fn a_scan_needs_an_extension_table() {
    assert_eq!(check_scan_config(&Vec::new()), Err(ScanError::NoExtensionMaps));
    assert_eq!(check_scan_config(&maps()), Ok(()));
    assert_eq!(ScanError::NoExtensionMaps.message(), "配置中未找到文件扩展名映射");
}

#[test]
fn scans_walk_existing_monitoring_roots() {
    let dir = |is_blacklist| MonitoredDirectory {
        id: None,
        path: "/d".to_string(),
        alias: None,
        is_blacklist,
        created_at: None,
        updated_at: None,
    };
    let d = PathProbe { is_file: false, is_dir: true, ..file_probe() };
    assert!(should_scan_directory(&dir(false), &d));
    assert!(!should_scan_directory(&dir(true), &d));
    assert!(!should_scan_directory(&dir(false), &file_probe()));
    assert!(!should_scan_directory(&dir(false), &PathProbe { exists: false, ..d }));
}

#[test]
fn the_scan_limit() {
    assert!(!scan_limit_reached(499));
    assert!(scan_limit_reached(500));
}

#[test]
fn a_filtered_scan_returns_a_matching_file() {
    let info = scan_entry_with_filter(
        "/docs/Pic.PNG",
        &facts(Some(100 * DAY - 10)),
        &maps(),
        &Some(TimeRange::Today),
        &Some(FileType::Image),
        &now(),
    )
    .unwrap();
    assert_eq!(info.file_path, "/docs/Pic.PNG");
    assert_eq!(info.file_name, "Pic.PNG");
    assert_eq!(info.file_size, 42);
    assert_eq!(info.extension, Some("png".to_string()));
    assert_eq!(info.created_time, Some("created".to_string()));
    assert_eq!(info.modified_time, "modified");
    assert_eq!(info.category_id, Some(2));
}

#[test]
fn a_filtered_scan_skips_for_each_reason() {
    let m = maps();
    let f = facts(Some(100 * DAY));
    let n = now();
    let run = |path: &str, f: &EntryFacts, t: Option<TimeRange>, ft: Option<FileType>| {
        skip(scan_entry_with_filter(path, f, &m, &t, &ft, &n))
    };
    assert_eq!(run("/docs/.git/a.txt", &f, None, None), ScanSkip::Hidden);
    assert_eq!(run("/docs/X.app", &f, None, None), ScanSkip::Bundle);
    assert_eq!(run("/docs/X.app/a.txt", &f, None, None), ScanSkip::Bundle);
    assert_eq!(run("/docs/cache/a.txt", &f, None, None), ScanSkip::CacheDirectory);
    let mut directory = facts(Some(1));
    directory.probe.is_file = false;
    directory.probe.is_dir = true;
    assert_eq!(run("/docs/sub", &directory, None, None), ScanSkip::NotAFile);
    assert_eq!(run("/docs/a.exe", &f, None, None), ScanSkip::ExtensionFiltered);
    assert_eq!(run("/docs/README", &f, None, None), ScanSkip::NoExtension);
    assert_eq!(run("/docs/README", &f, None, Some(FileType::Image)), ScanSkip::NoExtension);
    assert_eq!(run("/docs/a.txt", &f, None, Some(FileType::Image)), ScanSkip::WrongType);
    assert_eq!(run("/docs/a.txt", &facts(None), None, None), ScanSkip::NoMetadata);
    assert_eq!(
        run("/docs/a.txt", &facts(Some(1)), Some(TimeRange::Last30Days), None),
        ScanSkip::OutOfRange
    );
}

#[test]
fn a_file_without_extension_is_returned_when_all_types_are_asked() {
    let info = scan_entry_with_filter(
        "/docs/README",
        &facts(Some(5)),
        &maps(),
        &None,
        &Some(FileType::All),
        &now(),
    )
    .unwrap();
    assert_eq!(info.extension, None);
    assert_eq!(info.category_id, None);
    assert_eq!(info.file_name, "README");
}

fn scanning_config() -> FileScanningConfig {
    FileScanningConfig {
        extension_mappings: vec![("txt".to_string(), 1), ("app".to_string(), 8), ("png".to_string(), 2)],
        bundle_extensions: vec![".app".to_string()],
        ignore_patterns: Vec::new(),
        file_categories: Vec::new(),
        error_message: None,
    }
}

fn bundle_facts(modified: Option<u64>) -> EntryFacts {
    let mut f = facts(modified);
    f.probe.is_file = false;
    f.probe.is_dir = true;
    f.probe.has_info_plist = true;
    f
}

#[test]
fn the_simplified_scan_returns_a_bundle_as_one_file() {
    let info = scan_entry_simplified(
        "/apps/Mail.app",
        &bundle_facts(Some(5)),
        &scanning_config(),
        &vec![false],
        &None,
        &None,
        &now(),
    )
    .unwrap();
    assert_eq!(info.file_name, "Mail.app");
    assert_eq!(info.extension, Some("app".to_string()));
    assert_eq!(info.category_id, Some(8));
}

#[test]
fn the_simplified_scan_skips_what_lies_in_a_bundle() {
    let c = scanning_config();
    let n = now();
    let inside = scan_entry_simplified(
        "/apps/Mail.app/Contents/a.txt",
        &facts(Some(5)),
        &c,
        &vec![false, true, false],
        &None,
        &None,
        &n,
    );
    assert_eq!(skip(inside), ScanSkip::InsideBundle);
    let unconfirmed = scan_entry_simplified(
        "/apps/Mail.app/Contents/a.txt",
        &facts(Some(5)),
        &c,
        &vec![false, false, false],
        &None,
        &None,
        &n,
    );
    assert_eq!(unconfirmed.unwrap().category_id, Some(1));
}

#[test]
fn the_simplified_scan_skips_for_each_reason() {
    let c = scanning_config();
    let n = now();
    let none: Vec<bool> = Vec::new();
    let run = |path: &str, f: &EntryFacts, t: Option<TimeRange>, ft: Option<FileType>| {
        skip(scan_entry_simplified(path, f, &c, &none, &t, &ft, &n))
    };
    let f = facts(Some(100 * DAY));
    assert_eq!(run("/d/.a/x.txt", &f, None, None), ScanSkip::Hidden);
    let mut directory = facts(Some(1));
    directory.probe.is_file = false;
    directory.probe.is_dir = true;
    assert_eq!(run("/d/sub", &directory, None, None), ScanSkip::NotAFile);
    assert_eq!(run("/d/README", &f, None, None), ScanSkip::NoExtension);
    assert_eq!(run("/d/a.exe", &f, None, None), ScanSkip::ExtensionFiltered);
    assert_eq!(run("/d/a.txt", &f, None, Some(FileType::Image)), ScanSkip::WrongType);
    assert_eq!(run("/d/a.txt", &facts(None), None, None), ScanSkip::NoMetadata);
    assert_eq!(run("/d/a.txt", &facts(Some(1)), Some(TimeRange::Today), None), ScanSkip::OutOfRange);
    assert_eq!(run("/d/X.app", &bundle_facts(None), None, None), ScanSkip::NoMetadata);
    assert_eq!(
        run("/d/X.app", &bundle_facts(Some(1)), Some(TimeRange::Today), None),
        ScanSkip::OutOfRange
    );
    assert_eq!(
        run("/d/X.app", &bundle_facts(Some(1)), None, Some(FileType::Image)),
        ScanSkip::WrongType
    );
    let mut other = scanning_config();
    other.bundle_extensions = vec![".app".to_string(), ".pkg".to_string()];
    let pkg = scan_entry_simplified("/d/X.pkg", &bundle_facts(Some(1)), &other, &none, &None, &None, &n);
    assert_eq!(skip(pkg), ScanSkip::ExtensionFiltered);
}

#[test]
fn a_filtered_scan_knows_bundles_by_name_or_by_info_plist() {
    let directory = PathProbe { is_file: false, is_dir: true, on_macos: true, ..file_probe() };
    assert!(is_macos_bundle_folder("/a/X.framework", &file_probe()));
    assert!(is_macos_bundle_folder("/a/X.app/inside", &file_probe()));
    assert!(!is_macos_bundle_folder("/a/plain", &directory));
    assert!(is_macos_bundle_folder("/a/plain", &PathProbe { has_info_plist: true, ..directory }));
    assert!(!is_macos_bundle_folder("/a/plain", &PathProbe { has_bundle_layout: true, ..directory }));
    assert!(!is_macos_bundle_folder("", &PathProbe { has_info_plist: true, ..directory }));
}
