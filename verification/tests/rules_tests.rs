use file_screening::config::{
    AllConfigurations, FileCategoryRust, FileExtensionMapRust, FileFilterRuleRust, RuleActionRust,
    RuleExtraData, RulePriorityRust, RuleTypeRust,
};
use file_screening::metadata::{ExtraMetadata, FileMetadata};
use file_screening::rules::{
    add_label_to, apply_initial_rules, apply_rule_verdicts, evaluate_rules, pattern_matches,
    push_unique_string, rule_matches, MonitorStats, HIDDEN_RULE_ID,
};

fn record(name: &str, extension: Option<&str>) -> FileMetadata {
    FileMetadata {
        file_path: format!("/docs/{}", name),
        file_name: name.to_string(),
        extension: extension.map(|e| e.to_string()),
        file_size: 10,
        created_time: 1,
        modified_time: 2,
        is_dir: false,
        is_hidden: false,
        hash_value: None,
        category_id: None,
        labels: None,
        initial_rule_matches: None,
        extra_metadata: None,
        is_os_bundle: None,
    }
}

fn rule(
    id: i32,
    name: &str,
    rule_type: RuleTypeRust,
    action: RuleActionRust,
    pattern: &str,
    pattern_type: &str,
) -> FileFilterRuleRust {
    FileFilterRuleRust {
        id,
        name: name.to_string(),
        description: None,
        rule_type,
        category_id: None,
        priority: RulePriorityRust::Medium,
        action,
        enabled: true,
        is_system: false,
        pattern: pattern.to_string(),
        pattern_type: pattern_type.to_string(),
        extra_data: None,
    }
}

fn ext_map(extension: &str, category_id: i32) -> FileExtensionMapRust {
    FileExtensionMapRust {
        id: 0,
        extension: extension.to_string(),
        category_id,
        description: None,
        priority: RulePriorityRust::Medium,
    }
}

fn config(rules: Vec<FileFilterRuleRust>, maps: Vec<FileExtensionMapRust>) -> AllConfigurations {
    AllConfigurations {
        file_categories: vec![
            FileCategoryRust { id: 1, name: "document".to_string(), description: None, icon: None },
            FileCategoryRust { id: 2, name: "image".to_string(), description: None, icon: None },
        ],
        file_filter_rules: rules,
        file_extension_maps: maps,
        monitored_folders: Vec::new(),
        full_disk_access: false,
        bundle_extensions: Vec::new(),
    }
}

fn stats() -> MonitorStats {
    MonitorStats { processed_files: 0, filtered_files: 0, filtered_bundles: 0, error_count: 0 }
}

fn strs(list: &[&str]) -> Option<Vec<String>> {
    Some(list.iter().map(|s| s.to_string()).collect())
}

#[test]
fn regex_patterns_are_searched_anywhere() {
    assert!(pattern_matches("b+c", "aabbbcc"));
    assert!(pattern_matches("^report_\\d{4}\\.txt$", "report_2024.txt"));
    assert!(!pattern_matches("^report_\\d{4}\\.txt$", "report_24.txt"));
    assert!(!pattern_matches("abc", "ABC"));
}

#[test]
fn malformed_patterns_match_nothing() {
    assert!(!pattern_matches("foo(bar", "foo(bar"));
    assert!(!pattern_matches("[", "["));
}

#[test]
fn push_unique_keeps_one_of_each() {
    let mut list = vec!["a".to_string()];
    push_unique_string(&mut list, "b".to_string());
    push_unique_string(&mut list, "a".to_string());
    push_unique_string(&mut list, "b".to_string());
    assert_eq!(list, vec!["a".to_string(), "b".to_string()]);
    let mut labels = None;
    add_label_to(&mut labels, "x".to_string());
    add_label_to(&mut labels, "x".to_string());
    assert_eq!(labels, strs(&["x"]));
}

#[test]
fn hidden_files_are_excluded_outright() {
    let mut m = record(".secret.txt", Some("txt"));
    m.is_hidden = true;
    let mut s = stats();
    apply_initial_rules(&config(Vec::new(), Vec::new()), &mut m, &mut s);
    let extra = m.extra_metadata.clone().unwrap();
    assert_eq!(extra.excluded_by_rule_id, Some(9999));
    assert_eq!(HIDDEN_RULE_ID, 9999);
    assert_eq!(extra.excluded_by_rule_name, Some("隐藏文件自动排除".to_string()));
    assert!(m.is_excluded());
    assert_eq!(s.processed_files, 1);
    assert_eq!(s.filtered_files, 0);
}

#[test]
fn the_first_row_of_the_extension_table_wins() {
    let mut m = record("a.txt", Some("txt"));
    let c = config(Vec::new(), vec![ext_map("md", 7), ext_map("txt", 1), ext_map("txt", 2)]);
    let mut s = stats();
    apply_initial_rules(&c, &mut m, &mut s);
    assert_eq!(m.category_id, Some(1));
    assert_eq!(m.labels, strs(&["ext:txt"]));
    let extra = m.extra_metadata.unwrap();
    assert_eq!(extra.file_type_from_ext_map, Some("document".to_string()));
    assert_eq!(extra.extension, Some("txt".to_string()));
    assert_eq!(extra.excluded_by_rule_id, None);
    assert_eq!(m.is_os_bundle, Some(false));
    assert_eq!(m.initial_rule_matches, None);
}

#[test]
fn an_unknown_category_gets_the_fallback_name() {
    let mut m = record("a.bin", Some("bin"));
    let c = config(Vec::new(), vec![ext_map("bin", 42)]);
    apply_initial_rules(&c, &mut m, &mut stats());
    assert_eq!(m.category_id, Some(42));
    assert_eq!(
        m.extra_metadata.unwrap().file_type_from_ext_map,
        Some("unknown_category_id".to_string())
    );
}

#[test]
fn the_extension_table_is_compared_as_written() {
    let mut m = record("a.txt", Some("txt"));
    let c = config(Vec::new(), vec![ext_map("TXT", 1)]);
    apply_initial_rules(&c, &mut m, &mut stats());
    assert_eq!(m.category_id, None);
    assert_eq!(m.labels, strs(&["ext:txt"]));
}

#[test]
fn a_record_without_extension_and_without_matches_is_only_flagged() {
    let mut m = record("Makefile", None);
    let mut s = stats();
    apply_initial_rules(&config(Vec::new(), vec![ext_map("txt", 1)]), &mut m, &mut s);
    assert_eq!(m.category_id, None);
    assert_eq!(m.labels, None);
    assert_eq!(m.initial_rule_matches, None);
    assert!(m.extra_metadata.is_none());
    assert_eq!(m.is_os_bundle, Some(false));
    assert_eq!(s.processed_files, 1);
}

#[test]
fn keyword_rules_ignore_case() {
    let r = rule(1, "drafts", RuleTypeRust::Filename, RuleActionRust::Label, "DRAFT", "keyword");
    assert!(rule_matches(&r, "my_draft_v2.txt", &None));
    assert!(!rule_matches(&r, "final.txt", &None));
    let e = rule(2, "texts", RuleTypeRust::Extension, RuleActionRust::Label, "TXT", "keyword");
    assert!(rule_matches(&e, "a.txt", &Some("txt".to_string())));
    assert!(rule_matches(&e, "a.txt2", &Some("Txt2".to_string())));
    assert!(!rule_matches(&e, "a.txt", &Some("tx".to_string())));
    assert!(!rule_matches(&e, "a.txt", &None));
}

#[test]
fn regex_rules_by_type() {
    let f = rule(1, "tmp", RuleTypeRust::Filename, RuleActionRust::Exclude, "^~\\$", "regex");
    assert!(rule_matches(&f, "~$doc.docx", &None));
    assert!(!rule_matches(&f, "doc.docx", &None));
    let e = rule(2, "imgs", RuleTypeRust::Extension, RuleActionRust::Label, "^(png|jpe?g)$", "regex");
    assert!(rule_matches(&e, "x", &Some("jpeg".to_string())));
    assert!(!rule_matches(&e, "x", &Some("gif".to_string())));
    let b = rule(3, "apps", RuleTypeRust::OSBundle, RuleActionRust::Include, "\\.app$", "regex");
    assert!(rule_matches(&b, "mail.app", &None));
    let b_keyword = rule(3, "apps", RuleTypeRust::OSBundle, RuleActionRust::Include, ".app", "keyword");
    assert!(!rule_matches(&b_keyword, "mail.app", &None));
    let bad = rule(4, "bad", RuleTypeRust::Filename, RuleActionRust::Exclude, "(", "regex");
    assert!(!rule_matches(&bad, "(", &None));
    let folder = rule(5, "f", RuleTypeRust::Folder, RuleActionRust::Exclude, "a", "keyword");
    assert!(!rule_matches(&folder, "a", &None));
    let glob = rule(6, "g", RuleTypeRust::Filename, RuleActionRust::Exclude, "*.txt", "glob");
    assert!(!rule_matches(&glob, "a.txt", &None));
}

#[test]
fn the_file_name_is_lowercased_before_matching() {
    let c = config(
        vec![
            rule(1, "upper", RuleTypeRust::Filename, RuleActionRust::Label, "^[A-Z]+$", "regex"),
            rule(2, "lower", RuleTypeRust::Filename, RuleActionRust::Label, "^[a-z]+$", "regex"),
        ],
        Vec::new(),
    );
    assert_eq!(evaluate_rules(&c, "README", &None), vec![false, true]);
}

#[test]
fn label_rules_add_their_name_and_value_once() {
    let mut labelled =
        rule(1, "invoice", RuleTypeRust::Filename, RuleActionRust::Label, "invoice", "keyword");
    labelled.extra_data = Some(RuleExtraData { label_value: Some("finance".to_string()) });
    let again = rule(2, "invoice", RuleTypeRust::Filename, RuleActionRust::Label, "inv", "keyword");
    let mut third = rule(3, "money", RuleTypeRust::Filename, RuleActionRust::Label, "2024", "keyword");
    third.extra_data = Some(RuleExtraData { label_value: Some("finance".to_string()) });
    let c = config(vec![labelled, again, third], vec![ext_map("pdf", 1)]);
    let mut m = record("Invoice_2024.pdf", Some("pdf"));
    apply_initial_rules(&c, &mut m, &mut stats());
    assert_eq!(m.labels, strs(&["ext:pdf", "invoice", "finance", "money"]));
    assert_eq!(m.initial_rule_matches, strs(&["invoice", "money"]));
    assert!(!m.is_excluded());
}

#[test]
fn exclude_rules_mark_the_record_and_count() {
    let c = config(
        vec![
            rule(5, "temp", RuleTypeRust::Extension, RuleActionRust::Exclude, "tmp", "keyword"),
            rule(6, "temp2", RuleTypeRust::Filename, RuleActionRust::Exclude, "scratch", "keyword"),
        ],
        Vec::new(),
    );
    let mut m = record("scratch.tmp", Some("tmp"));
    let mut s = stats();
    apply_initial_rules(&c, &mut m, &mut s);
    let extra = m.extra_metadata.clone().unwrap();
    assert_eq!(extra.excluded_by_rule_id, Some(6));
    assert_eq!(extra.excluded_by_rule_name, Some("temp2".to_string()));
    assert!(m.is_excluded());
    assert_eq!(s.filtered_files, 2);
    assert_eq!(s.processed_files, 1);
    assert_eq!(m.initial_rule_matches, strs(&["temp", "temp2"]));
}

#[test]
fn bundles_are_never_excluded_by_rules() {
    let c = config(
        vec![rule(5, "no-apps", RuleTypeRust::Filename, RuleActionRust::Exclude, "app", "keyword")],
        Vec::new(),
    );
    let mut m = record("Mail.app", Some("app"));
    m.is_os_bundle = Some(true);
    let mut s = stats();
    apply_initial_rules(&c, &mut m, &mut s);
    assert!(!m.is_excluded());
    assert_eq!(m.extra_metadata.unwrap().excluded_by_rule_id, None);
    assert_eq!(m.is_os_bundle, Some(true));
    assert_eq!(s.filtered_files, 0);
    assert_eq!(m.initial_rule_matches, strs(&["no-apps"]));
}

#[test]
fn a_bundle_rule_flags_and_shields_from_later_exclusion() {
    let c = config(
        vec![
            rule(1, "bundle", RuleTypeRust::OSBundle, RuleActionRust::Exclude, "\\.app$", "regex"),
            rule(2, "no-apps", RuleTypeRust::Filename, RuleActionRust::Exclude, "app", "keyword"),
        ],
        Vec::new(),
    );
    let mut m = record("Mail.app", None);
    let mut s = stats();
    apply_initial_rules(&c, &mut m, &mut s);
    assert_eq!(m.is_os_bundle, Some(true));
    assert_eq!(m.labels, strs(&["bundle", "macos_bundle"]));
    let extra = m.extra_metadata.clone().unwrap();
    assert_eq!(extra.macos_bundle_rule_id, Some(1));
    assert_eq!(extra.macos_bundle_rule_name, Some("bundle".to_string()));
    assert_eq!(extra.is_macos_bundle, Some(true));
    assert_eq!(extra.excluded_by_rule_id, None);
    assert_eq!(s.filtered_files, 0);
}

#[test]
fn an_exclusion_before_the_bundle_rule_stands() {
    let c = config(
        vec![
            rule(2, "no-apps", RuleTypeRust::Filename, RuleActionRust::Exclude, "app", "keyword"),
            rule(1, "bundle", RuleTypeRust::OSBundle, RuleActionRust::Include, "\\.app$", "regex"),
        ],
        Vec::new(),
    );
    let mut m = record("Mail.app", None);
    let mut s = stats();
    apply_initial_rules(&c, &mut m, &mut s);
    assert_eq!(m.is_os_bundle, Some(true));
    assert_eq!(m.extra_metadata.unwrap().excluded_by_rule_id, Some(2));
    assert_eq!(s.filtered_files, 1);
}

#[test]
fn the_last_matching_rule_sets_the_category() {
    let mut first = rule(1, "a", RuleTypeRust::Filename, RuleActionRust::Include, "x", "keyword");
    first.category_id = Some(10);
    let mut second = rule(2, "b", RuleTypeRust::Filename, RuleActionRust::Include, "x", "keyword");
    second.category_id = Some(20);
    let third = rule(3, "c", RuleTypeRust::Filename, RuleActionRust::Include, "x", "keyword");
    let mut unmatched = rule(4, "d", RuleTypeRust::Filename, RuleActionRust::Include, "y", "keyword");
    unmatched.category_id = Some(30);
    let c = config(vec![first, second, third, unmatched], vec![ext_map("txt", 1)]);
    let mut m = record("x.txt", Some("txt"));
    apply_initial_rules(&c, &mut m, &mut stats());
    assert_eq!(m.category_id, Some(20));
    assert_eq!(m.initial_rule_matches, strs(&["a", "b", "c"]));
}

#[test]
fn disabled_rules_do_nothing() {
    let mut off = rule(1, "off", RuleTypeRust::Filename, RuleActionRust::Exclude, "a", "keyword");
    off.enabled = false;
    let c = config(vec![off], Vec::new());
    let mut m = record("a", None);
    let mut s = stats();
    apply_initial_rules(&c, &mut m, &mut s);
    assert!(!m.is_excluded());
    assert_eq!(m.initial_rule_matches, None);
    assert_eq!(s.filtered_files, 0);
}

#[test]
fn verdicts_decide_which_rules_act() {
    let c = config(
        vec![
            rule(1, "one", RuleTypeRust::Filename, RuleActionRust::Label, "zzz", "keyword"),
            rule(2, "two", RuleTypeRust::Filename, RuleActionRust::Exclude, "zzz", "keyword"),
            rule(3, "three", RuleTypeRust::Filename, RuleActionRust::Label, "zzz", "keyword"),
        ],
        Vec::new(),
    );
    let mut m = record("a", None);
    let mut s = stats();
    apply_rule_verdicts(&c, &mut m, &mut s, &vec![true, false]);
    assert_eq!(m.labels, strs(&["one"]));
    assert_eq!(m.initial_rule_matches, strs(&["one"]));
    assert!(!m.is_excluded());
    let mut n = record("a", None);
    apply_rule_verdicts(&c, &mut n, &mut s, &vec![false, true, true]);
    assert_eq!(n.labels, strs(&["three"]));
    assert_eq!(n.extra_metadata.unwrap().excluded_by_rule_id, Some(2));
    assert_eq!(s.processed_files, 2);
    assert_eq!(s.filtered_files, 1);
}

#[test]
fn classification_is_deterministic_and_never_duplicates_labels() {
    let mut labelled = rule(1, "ext:txt", RuleTypeRust::Extension, RuleActionRust::Label, "txt", "keyword");
    labelled.extra_data = Some(RuleExtraData { label_value: Some("notes".to_string()) });
    let c = config(
        vec![
            labelled,
            rule(2, "notes", RuleTypeRust::Filename, RuleActionRust::Label, "note", "keyword"),
        ],
        vec![ext_map("txt", 1)],
    );
    let mut first = record("Note.txt", Some("txt"));
    let mut second = record("Note.txt", Some("txt"));
    apply_initial_rules(&c, &mut first, &mut stats());
    apply_initial_rules(&c, &mut second, &mut stats());
    assert_eq!(first.labels, strs(&["ext:txt", "notes"]));
    assert_eq!(first.labels, second.labels);
    assert_eq!(first.category_id, second.category_id);
    assert_eq!(first.initial_rule_matches, second.initial_rule_matches);
    assert_eq!(first.is_os_bundle, second.is_os_bundle);
    assert_eq!(
        first.extra_metadata.as_ref().unwrap().extension,
        second.extra_metadata.as_ref().unwrap().extension
    );
    let labels = first.labels.clone().unwrap();
    for (i, a) in labels.iter().enumerate() {
        for b in labels.iter().skip(i + 1) {
            assert_ne!(a, b);
        }
    }
    let mut again = first.clone();
    apply_initial_rules(&c, &mut again, &mut stats());
    assert_eq!(again.labels, first.labels);
    assert_eq!(again.initial_rule_matches, first.initial_rule_matches);
}

#[test]
fn earlier_notes_are_kept_when_nothing_new_is_noted() {
    let mut m = record("Makefile", None);
    m.extra_metadata = Some(ExtraMetadata {
        excluded_by_rule_id: Some(3),
        excluded_by_rule_name: None,
        file_type_from_ext_map: None,
        extension: None,
        macos_bundle_rule_id: None,
        macos_bundle_rule_name: None,
        is_macos_bundle: None,
    });
    m.initial_rule_matches = strs(&[]);
    m.labels = strs(&["old"]);
    apply_initial_rules(&config(Vec::new(), Vec::new()), &mut m, &mut stats());
    assert_eq!(m.extra_metadata.unwrap().excluded_by_rule_id, Some(3));
    assert_eq!(m.initial_rule_matches, strs(&[]));
    assert_eq!(m.labels, strs(&["old"]));
}

#[test]
fn classifying_a_classified_record_again_changes_nothing() {
    let mut labelled = rule(1, "work", RuleTypeRust::Filename, RuleActionRust::Label, "report", "keyword");
    labelled.extra_data = Some(RuleExtraData { label_value: Some("office".to_string()) });
    labelled.category_id = Some(5);
    let c = config(
        vec![
            labelled,
            rule(2, "old", RuleTypeRust::Filename, RuleActionRust::Exclude, "2019", "keyword"),
            rule(3, "pdfs", RuleTypeRust::Extension, RuleActionRust::Include, "^pdf$", "regex"),
        ],
        vec![ext_map("pdf", 1)],
    );
    let mut once = record("Report_2019.pdf", Some("pdf"));
    apply_initial_rules(&c, &mut once, &mut stats());
    let mut twice = once.clone();
    apply_initial_rules(&c, &mut twice, &mut stats());
    assert_eq!(once.category_id, Some(5));
    assert_eq!(once.labels, strs(&["ext:pdf", "work", "office"]));
    assert_eq!(once.initial_rule_matches, strs(&["work", "old", "pdfs"]));
    assert_eq!(twice.category_id, once.category_id);
    assert_eq!(twice.labels, once.labels);
    assert_eq!(twice.initial_rule_matches, once.initial_rule_matches);
    assert_eq!(twice.is_os_bundle, once.is_os_bundle);
    let a = once.extra_metadata.unwrap();
    let b = twice.extra_metadata.unwrap();
    assert_eq!(a.excluded_by_rule_id, Some(2));
    assert_eq!(b.excluded_by_rule_id, a.excluded_by_rule_id);
    assert_eq!(b.excluded_by_rule_name, a.excluded_by_rule_name);
    assert_eq!(b.file_type_from_ext_map, a.file_type_from_ext_map);
    assert_eq!(b.extension, a.extension);
    assert_eq!(b.is_macos_bundle, a.is_macos_bundle);
}

#[test]
fn a_record_that_a_rule_flags_as_a_bundle_is_classified_the_same_again() {
    let mut labelled = rule(1, "apps", RuleTypeRust::Filename, RuleActionRust::Label, "mail", "keyword");
    labelled.category_id = Some(3);
    let c = config(
        vec![
            labelled,
            rule(2, "bundle", RuleTypeRust::OSBundle, RuleActionRust::Include, "\\.app$", "regex"),
            rule(3, "no-apps", RuleTypeRust::Filename, RuleActionRust::Exclude, "app", "keyword"),
        ],
        Vec::new(),
    );
    let mut once = record("Mail.app", None);
    apply_initial_rules(&c, &mut once, &mut stats());
    assert_eq!(once.is_os_bundle, Some(true));
    assert!(!once.is_excluded());
    let mut twice = once.clone();
    apply_initial_rules(&c, &mut twice, &mut stats());
    assert_eq!(twice.category_id, once.category_id);
    assert_eq!(twice.labels, once.labels);
    assert_eq!(twice.initial_rule_matches, once.initial_rule_matches);
    assert_eq!(twice.is_os_bundle, once.is_os_bundle);
    let a = once.extra_metadata.unwrap();
    let b = twice.extra_metadata.unwrap();
    assert_eq!(b.excluded_by_rule_id, a.excluded_by_rule_id);
    assert_eq!(b.macos_bundle_rule_id, a.macos_bundle_rule_id);
    assert_eq!(b.macos_bundle_rule_name, a.macos_bundle_rule_name);
    assert_eq!(b.is_macos_bundle, a.is_macos_bundle);
}
