//! The rule engine: extension table and filter rules applied to one record.
//!
//! Which rules match is decided first ([`evaluate_rules`], which asks the
//! regex engine); what the matching rules do to the record is a function of
//! the record, the configuration and those verdicts alone
//! ([`apply_rule_verdicts`]).

use vstd::prelude::*;
use vstd::string::StringExecFns;
use crate::config::{
    AllConfigurations, CategoryView, ConfigView, ExtensionMapView, FileCategoryRust,
    FileExtensionMapRust, FileFilterRuleRust, RuleActionRust, RuleTypeRust, RuleView,
};
use crate::metadata::{ExtraMetadata, ExtraView, FileMetadata, MetadataView};
use crate::text::{
    chars_of, contains, contains_seq, lowercased, opt_view, opt_views, str_eq, to_lowercase, views,
};

verus! {

/// The rule id under which hidden files are excluded.
pub const HIDDEN_RULE_ID: i32 = 9999;

/// Counters of the monitor.
#[derive(Debug, Clone, Copy, Default)]
pub struct MonitorStats {
    pub processed_files: u64,
    pub filtered_files: u64,
    pub filtered_bundles: u64,
    pub error_count: u64,
}

/// `regex::Error`: why a pattern does not compile. Nothing is read from it.
#[verifier::external_type_specification]
#[verifier::external_body]
pub struct ExRegexError(regex::Error);

/// Whether `regex::Regex::new` accepts a pattern with these characters.
pub uninterp spec fn regex_valid(pattern: Seq<char>) -> bool;

/// Whether `regex::Regex::is_match` finds a match of the pattern in the haystack.
pub uninterp spec fn regex_found(pattern: Seq<char>, haystack: Seq<char>) -> bool;

/// `regex::Regex::new` followed by `regex::Regex::is_match`: compiles
/// `pattern` and searches `haystack` for a match. The error is the one that
/// compiling gave. The contract names both results and states neither.
#[verifier::external_body]
fn regex_search(pattern: &str, haystack: &str) -> (r: Result<bool, regex::Error>)
    ensures
        r is Ok <==> regex_valid(pattern@),
        r matches Ok(b) ==> b == regex_found(pattern@, haystack@),
{
    let re = regex::Regex::new(pattern)?;
    Ok(re.is_match(haystack))
}

/// A pattern that compiles and matches; a malformed pattern matches nothing.
pub open spec fn regex_hit(pattern: Seq<char>, haystack: Seq<char>) -> bool {
    regex_valid(pattern) && regex_found(pattern, haystack)
}

/// The name under which hidden files are excluded.
pub open spec fn hidden_rule_name() -> Seq<char> {
    "隐藏文件自动排除"@
}

/// `s` with `x` appended unless it is already there.
pub open spec fn push_unique(s: Seq<Seq<char>>, x: Seq<char>) -> Seq<Seq<char>> {
    if s.contains(x) {
        s
    } else {
        s.push(x)
    }
}

/// A label list, created if absent, with `x` added unless present.
pub open spec fn add_label(labels: Option<Seq<Seq<char>>>, x: Seq<char>) -> Option<
    Seq<Seq<char>>,
> {
    match labels {
        Some(l) => Some(push_unique(l, x)),
        None => Some(seq![x]),
    }
}

/// The first row of the extension table whose extension is `ext`.
pub open spec fn lookup_extension(maps: Seq<ExtensionMapView>, ext: Seq<char>) -> Option<
    ExtensionMapView,
>
    decreases maps.len(),
{
    if maps.len() == 0 {
        None
    } else if maps[0].extension == ext {
        Some(maps[0])
    } else {
        lookup_extension(maps.drop_first(), ext)
    }
}

/// The name of the first category with this id, or a fixed fallback.
pub open spec fn category_name(categories: Seq<CategoryView>, id: i32) -> Seq<char>
    decreases categories.len(),
{
    if categories.len() == 0 {
        "unknown_category_id"@
    } else if categories[0].id == id {
        categories[0].name
    } else {
        category_name(categories.drop_first(), id)
    }
}

/// Whether a rule matches a file: `filename` is the lowercased file name,
/// `extension` the record's extension. A keyword pattern matches when the
/// name, or the extension, holds it, compared in lowercase; a regex pattern
/// is taken as written.
pub open spec fn rule_hits(rule: RuleView, filename: Seq<char>, extension: Option<Seq<char>>) -> bool {
    match rule.rule_type {
        RuleTypeRust::Filename => {
            if rule.pattern_type == "keyword"@ {
                contains_seq(filename, lowercased(rule.pattern))
            } else if rule.pattern_type == "regex"@ {
                regex_hit(rule.pattern, filename)
            } else {
                false
            }
        },
        RuleTypeRust::OSBundle => rule.pattern_type == "regex"@ && regex_hit(
            rule.pattern,
            filename,
        ),
        RuleTypeRust::Extension => match extension {
            Some(ext) => {
                if rule.pattern_type == "keyword"@ {
                    contains_seq(lowercased(ext), lowercased(rule.pattern))
                } else if rule.pattern_type == "regex"@ {
                    regex_hit(rule.pattern, ext)
                } else {
                    false
                }
            },
            None => false,
        },
        _ => false,
    }
}

/// The verdicts of all rules on one file.
pub open spec fn rule_verdicts(
    rules: Seq<RuleView>,
    file_name: Seq<char>,
    extension: Option<Seq<char>>,
) -> Seq<bool> {
    Seq::new(rules.len(), |i: int| rule_hits(rules[i], lowercased(file_name), extension))
}

/// What the engine has worked out for a record so far.
pub struct Classification {
    pub category_id: Option<i32>,
    pub labels: Option<Seq<Seq<char>>>,
    pub rule_matches: Seq<Seq<char>>,
    pub is_bundle: bool,
    pub extra: ExtraView,
    /// How many times an `Exclude` rule attached the exclusion marker.
    pub filtered: nat,
}

/// The effect of one matching rule.
pub open spec fn apply_matched(st: Classification, rule: RuleView) -> Classification {
    let named = Classification { rule_matches: push_unique(st.rule_matches, rule.name), ..st };
    let acted = if rule.rule_type == RuleTypeRust::OSBundle {
        Classification {
            is_bundle: true,
            labels: add_label(add_label(named.labels, rule.name), "macos_bundle"@),
            extra: ExtraView {
                macos_bundle_rule_id: Some(rule.id),
                macos_bundle_rule_name: Some(rule.name),
                is_macos_bundle: Some(true),
                ..named.extra
            },
            ..named
        }
    } else {
        match rule.action {
            RuleActionRust::Label => {
                let own = add_label(named.labels, rule.name);
                Classification {
                    labels: match rule.label_value {
                        Some(value) => add_label(own, value),
                        None => own,
                    },
                    ..named
                }
            },
            RuleActionRust::Exclude => {
                if named.is_bundle {
                    named
                } else {
                    Classification {
                        extra: ExtraView {
                            excluded_by_rule_id: Some(rule.id),
                            excluded_by_rule_name: Some(rule.name),
                            ..named.extra
                        },
                        filtered: named.filtered + 1,
                        ..named
                    }
                }
            },
            RuleActionRust::Include => named,
        }
    };
    match rule.category_id {
        Some(id) => Classification { category_id: Some(id), ..acted },
        None => acted,
    }
}

/// The effect of the first `n` rules, in their stored order. A rule acts when
/// it is enabled and its verdict is a match; a missing verdict is no match.
pub open spec fn apply_rules(
    st: Classification,
    rules: Seq<RuleView>,
    verdicts: Seq<bool>,
    n: nat,
) -> Classification
    decreases n,
{
    if n == 0 {
        st
    } else {
        let before = apply_rules(st, rules, verdicts, (n - 1) as nat);
        if rules[n - 1].enabled && n - 1 < verdicts.len() && verdicts[n - 1] {
            apply_matched(before, rules[n - 1])
        } else {
            before
        }
    }
}

/// Where the engine starts: hidden files are excluded outright, and the
/// extension table gives a first category and the extension label.
pub open spec fn initial_classification(m: MetadataView, c: ConfigView) -> Classification {
    let hidden = if m.is_hidden {
        ExtraView {
            excluded_by_rule_id: Some(HIDDEN_RULE_ID),
            excluded_by_rule_name: Some(hidden_rule_name()),
            ..ExtraView::empty()
        }
    } else {
        ExtraView::empty()
    };
    let start = Classification {
        category_id: m.category_id,
        labels: m.labels,
        rule_matches: match m.initial_rule_matches {
            Some(names) => names,
            None => Seq::empty(),
        },
        is_bundle: m.is_os_bundle == Some(true),
        extra: hidden,
        filtered: 0,
    };
    match m.extension {
        Some(ext) => {
            let by_table = match lookup_extension(c.extension_maps, ext) {
                Some(row) => Classification {
                    category_id: Some(row.category_id),
                    extra: ExtraView {
                        file_type_from_ext_map: Some(category_name(c.categories, row.category_id)),
                        ..start.extra
                    },
                    ..start
                },
                None => start,
            };
            Classification {
                labels: add_label(by_table.labels, "ext:"@ + ext),
                extra: ExtraView { extension: Some(ext), ..by_table.extra },
                ..by_table
            }
        },
        None => start,
    }
}

/// The engine's result for a record, given each rule's verdict.
pub open spec fn classified(m: MetadataView, c: ConfigView, verdicts: Seq<bool>) -> Classification {
    apply_rules(initial_classification(m, c), c.rules, verdicts, c.rules.len())
}

/// The record as the engine leaves it.
pub open spec fn annotated(m: MetadataView, st: Classification) -> MetadataView {
    MetadataView {
        category_id: st.category_id,
        labels: st.labels,
        initial_rule_matches: if st.rule_matches.len() > 0 {
            Some(st.rule_matches)
        } else {
            m.initial_rule_matches
        },
        extra_metadata: if st.extra.is_empty() {
            m.extra_metadata
        } else {
            Some(st.extra)
        },
        is_os_bundle: Some(st.is_bundle),
        ..m
    }
}

/// Appends `item` to `list` unless a string with the same characters is there.
pub fn push_unique_string(list: &mut Vec<String>, item: String)
    ensures
        views(final(list)@) == push_unique(views(old(list)@), item@),
{
    let mut i: usize = 0;
    while i < list.len()
        invariant
            i <= list.len(),
            list@ == old(list)@,
            forall|j: int| 0 <= j < i ==> views(list@)[j] != item@,
        decreases list.len() - i,
    {
        if str_eq(list[i].as_str(), item.as_str()) {
            assert(views(list@)[i as int] == item@);
            return ;
        }
        i += 1;
    }
    list.push(item);
    assert(views(list@) =~= views(old(list)@).push(item@));
}

/// Adds `item` to a label list, creating the list if there is none.
pub fn add_label_to(labels: &mut Option<Vec<String>>, item: String)
    ensures
        opt_views(*final(labels)) == add_label(opt_views(*old(labels)), item@),
{
    let mut list: Vec<String> = match labels.take() {
        Some(list) => list,
        None => Vec::new(),
    };
    proof {
        if *old(labels) is None {
            assert(views(list@) =~= Seq::<Seq<char>>::empty());
            assert(push_unique(views(list@), item@) =~= seq![item@]);
        }
    }
    push_unique_string(&mut list, item);
    *labels = Some(list);
}

/// The index of the first row of the extension table for `ext`.
fn find_extension_row(maps: &Vec<FileExtensionMapRust>, ext: &str) -> (r: Option<usize>)
    ensures
        match r {
            Some(i) => i < maps.len() && lookup_extension(
                maps@.map_values(|m: FileExtensionMapRust| m@),
                ext@,
            ) == Some(maps[i as int]@),
            None => lookup_extension(maps@.map_values(|m: FileExtensionMapRust| m@), ext@)
                is None,
        },
{
    let ghost rows = maps@.map_values(|m: FileExtensionMapRust| m@);
    assert(rows.skip(0) =~= rows);
    let mut i: usize = 0;
    while i < maps.len()
        invariant
            i <= maps.len(),
            rows == maps@.map_values(|m: FileExtensionMapRust| m@),
            lookup_extension(rows, ext@) == lookup_extension(rows.skip(i as int), ext@),
        decreases maps.len() - i,
    {
        assert(rows.skip(i as int).drop_first() =~= rows.skip(i + 1));
        assert(rows.skip(i as int)[0] == maps[i as int]@);
        if str_eq(maps[i].extension.as_str(), ext) {
            return Some(i);
        }
        i += 1;
    }
    None
}

/// The name of the first category with this id, or the fallback.
fn find_category_name(categories: &Vec<FileCategoryRust>, id: i32) -> (name: String)
    ensures
        name@ == category_name(categories@.map_values(|c: FileCategoryRust| c@), id),
{
    let ghost rows = categories@.map_values(|c: FileCategoryRust| c@);
    assert(rows.skip(0) =~= rows);
    let mut i: usize = 0;
    while i < categories.len()
        invariant
            i <= categories.len(),
            rows == categories@.map_values(|c: FileCategoryRust| c@),
            category_name(rows, id) == category_name(rows.skip(i as int), id),
        decreases categories.len() - i,
    {
        assert(rows.skip(i as int).drop_first() =~= rows.skip(i + 1));
        assert(rows.skip(i as int)[0] == categories[i as int]@);
        if categories[i].id == id {
            return categories[i].name.clone();
        }
        i += 1;
    }
    String::from_str("unknown_category_id")
}

/// Whether `pattern` compiles and matches `haystack`; a malformed pattern
/// matches nothing.
pub fn pattern_matches(pattern: &str, haystack: &str) -> (b: bool)
    ensures
        b == regex_hit(pattern@, haystack@),
{
    match regex_search(pattern, haystack) {
        Ok(found) => found,
        Err(_) => false,
    }
}

/// Whether `rule` matches a file with this lowercased name and this extension.
pub fn rule_matches(rule: &FileFilterRuleRust, filename: &str, extension: &Option<String>) -> (b:
    bool)
    ensures
        b == rule_hits(rule@, filename@, opt_view(*extension)),
{
    let is_keyword = str_eq(rule.pattern_type.as_str(), "keyword");
    let is_regex = str_eq(rule.pattern_type.as_str(), "regex");
    match rule.rule_type {
        RuleTypeRust::Filename => {
            if is_keyword {
                let needle = to_lowercase(rule.pattern.as_str());
                let hay = chars_of(filename);
                let needle_chars = chars_of(needle.as_str());
                contains(hay.as_slice(), needle_chars.as_slice())
            } else if is_regex {
                pattern_matches(rule.pattern.as_str(), filename)
            } else {
                false
            }
        },
        RuleTypeRust::OSBundle => is_regex && pattern_matches(rule.pattern.as_str(), filename),
        RuleTypeRust::Extension => match extension {
            Some(ext) => {
                if is_keyword {
                    let needle = to_lowercase(rule.pattern.as_str());
                    let hay = to_lowercase(ext.as_str());
                    let hay_chars = chars_of(hay.as_str());
                    let needle_chars = chars_of(needle.as_str());
                    contains(hay_chars.as_slice(), needle_chars.as_slice())
                } else if is_regex {
                    pattern_matches(rule.pattern.as_str(), ext.as_str())
                } else {
                    false
                }
            },
            None => false,
        },
        _ => false,
    }
}

/// The verdict of every rule of `config` on a file, in the rules' order.
pub fn evaluate_rules(config: &AllConfigurations, file_name: &str, extension: &Option<String>) -> (v:
    Vec<bool>)
    ensures
        v@ == rule_verdicts(config@.rules, file_name@, opt_view(*extension)),
{
    let filename = to_lowercase(file_name);
    let mut v: Vec<bool> = Vec::new();
    let mut i: usize = 0;
    while i < config.file_filter_rules.len()
        invariant
            i <= config.file_filter_rules.len(),
            filename@ == lowercased(file_name@),
            v@.len() == i,
            forall|j: int|
                0 <= j < i ==> v@[j] == rule_hits(
                    #[trigger] config@.rules[j],
                    filename@,
                    opt_view(*extension),
                ),
        decreases config.file_filter_rules.len() - i,
    {
        let hit = rule_matches(&config.file_filter_rules[i], filename.as_str(), extension);
        v.push(hit);
        i += 1;
    }
    assert(v@ =~= rule_verdicts(config@.rules, file_name@, opt_view(*extension)));
    v
}

/// Applies the extension table and the rules whose verdict is a match to one
/// record and counts it. The record keeps what classification does not touch.
pub fn apply_rule_verdicts(
    config: &AllConfigurations,
    metadata: &mut FileMetadata,
    stats: &mut MonitorStats,
    verdicts: &Vec<bool>,
)
    requires
        old(stats).processed_files < u64::MAX,
        old(stats).filtered_files + config.file_filter_rules.len() <= u64::MAX,
    ensures
        final(metadata)@ == annotated(
            old(metadata)@,
            classified(old(metadata)@, config@, verdicts@),
        ),
        final(stats).processed_files == old(stats).processed_files + 1,
        final(stats).filtered_files == old(stats).filtered_files + classified(
            old(metadata)@,
            config@,
            verdicts@,
        ).filtered,
        final(stats).filtered_bundles == old(stats).filtered_bundles,
        final(stats).error_count == old(stats).error_count,
{
    let ghost m0 = metadata@;
    stats.processed_files = stats.processed_files + 1;

    let mut extra = ExtraMetadata::new();
    if metadata.is_hidden {
        extra.excluded_by_rule_id = Some(HIDDEN_RULE_ID);
        extra.excluded_by_rule_name = Some(String::from_str("隐藏文件自动排除"));
    }
    let mut category_id = metadata.category_id;
    let mut is_bundle = metadata.is_bundle();
    let mut labels = metadata.labels.take();
    let had_matches = metadata.initial_rule_matches.is_some();
    let mut rule_matches: Vec<String> = match metadata.initial_rule_matches.take() {
        Some(names) => names,
        None => Vec::new(),
    };
    assert(views(Seq::<String>::empty()) =~= Seq::<Seq<char>>::empty());

    match &metadata.extension {
        Some(ext) => {
            match find_extension_row(&config.file_extension_maps, ext.as_str()) {
                Some(row) => {
                    let id = config.file_extension_maps[row].category_id;
                    category_id = Some(id);
                    extra.file_type_from_ext_map = Some(
                        find_category_name(&config.file_categories, id),
                    );
                },
                None => {},
            }
            add_label_to(&mut labels, String::from_str("ext:").concat(ext.as_str()));
            extra.extension = Some(ext.clone());
        },
        None => {},
    }

    let ghost start = initial_classification(m0, config@);
    let ghost mut st = start;
    assert(st.extra == extra@);
    let mut i: usize = 0;
    while i < config.file_filter_rules.len()
        invariant
            i <= config.file_filter_rules.len(),
            st == apply_rules(start, config@.rules, verdicts@, i as nat),
            st.category_id == category_id,
            st.labels == opt_views(labels),
            st.rule_matches == views(rule_matches@),
            st.is_bundle == is_bundle,
            st.extra == extra@,
            st.filtered <= i,
            st.rule_matches.len() >= start.rule_matches.len(),
            stats.filtered_files == old(stats).filtered_files + st.filtered,
            stats.processed_files == old(stats).processed_files + 1,
            stats.filtered_bundles == old(stats).filtered_bundles,
            stats.error_count == old(stats).error_count,
            old(stats).filtered_files + config.file_filter_rules.len() <= u64::MAX,
        decreases config.file_filter_rules.len() - i,
    {
        let rule = &config.file_filter_rules[i];
        assert(config@.rules[i as int] == rule@);
        if rule.enabled && i < verdicts.len() && verdicts[i] {
            push_unique_string(&mut rule_matches, rule.name.clone());
            match rule.rule_type {
                RuleTypeRust::OSBundle => {
                    is_bundle = true;
                    extra.macos_bundle_rule_id = Some(rule.id);
                    extra.macos_bundle_rule_name = Some(rule.name.clone());
                    extra.is_macos_bundle = Some(true);
                    add_label_to(&mut labels, rule.name.clone());
                    add_label_to(&mut labels, String::from_str("macos_bundle"));
                },
                _ => {
                    match rule.action {
                        RuleActionRust::Label => {
                            add_label_to(&mut labels, rule.name.clone());
                            match &rule.extra_data {
                                Some(data) => match &data.label_value {
                                    Some(value) => {
                                        add_label_to(&mut labels, value.clone());
                                    },
                                    None => {},
                                },
                                None => {},
                            }
                        },
                        RuleActionRust::Exclude => {
                            if !is_bundle {
                                extra.excluded_by_rule_id = Some(rule.id);
                                extra.excluded_by_rule_name = Some(rule.name.clone());
                                stats.filtered_files = stats.filtered_files + 1;
                            }
                        },
                        RuleActionRust::Include => {},
                    }
                },
            }
            match rule.category_id {
                Some(id) => {
                    category_id = Some(id);
                },
                None => {},
            }
            proof {
                st = apply_matched(st, rule@);
            }
        }
        i += 1;
    }

    metadata.category_id = category_id;
    metadata.labels = labels;
    if rule_matches.len() > 0 || had_matches {
        metadata.initial_rule_matches = Some(rule_matches);
    } else {
        metadata.initial_rule_matches = None;
    }
    if !extra.is_empty() {
        metadata.extra_metadata = Some(extra);
    }
    metadata.is_os_bundle = Some(is_bundle);
    proof {
        if st.rule_matches.len() == 0 {
            assert(st.rule_matches =~= start.rule_matches);
        }
    }
}

/// Classifies one record against a configuration: asks each rule for its
/// verdict, then applies the matching ones.
pub fn apply_initial_rules(
    config: &AllConfigurations,
    metadata: &mut FileMetadata,
    stats: &mut MonitorStats,
)
    requires
        old(stats).processed_files < u64::MAX,
        old(stats).filtered_files + config.file_filter_rules.len() <= u64::MAX,
    ensures
        final(metadata)@ == annotated(
            old(metadata)@,
            classified(
                old(metadata)@,
                config@,
                rule_verdicts(config@.rules, old(metadata)@.file_name, old(metadata)@.extension),
            ),
        ),
        final(stats).processed_files == old(stats).processed_files + 1,
        final(stats).filtered_files == old(stats).filtered_files + classified(
            old(metadata)@,
            config@,
            rule_verdicts(config@.rules, old(metadata)@.file_name, old(metadata)@.extension),
        ).filtered,
        final(stats).filtered_bundles == old(stats).filtered_bundles,
        final(stats).error_count == old(stats).error_count,
{
    let verdicts = evaluate_rules(config, metadata.file_name.as_str(), &metadata.extension);
    apply_rule_verdicts(config, metadata, stats, &verdicts);
}

/// A list with no string twice.
pub open spec fn opt_no_duplicates(list: Option<Seq<Seq<char>>>) -> bool {
    list matches Some(l) ==> l.no_duplicates()
}

proof fn lemma_push_unique_no_duplicates(s: Seq<Seq<char>>, x: Seq<char>)
    requires
        s.no_duplicates(),
    ensures
        push_unique(s, x).no_duplicates(),
{
}

proof fn lemma_add_label_no_duplicates(labels: Option<Seq<Seq<char>>>, x: Seq<char>)
    requires
        opt_no_duplicates(labels),
    ensures
        opt_no_duplicates(add_label(labels, x)),
{
    match labels {
        Some(l) => lemma_push_unique_no_duplicates(l, x),
        None => {},
    }
}

proof fn lemma_apply_matched_no_duplicates(st: Classification, rule: RuleView)
    requires
        opt_no_duplicates(st.labels),
        st.rule_matches.no_duplicates(),
    ensures
        opt_no_duplicates(apply_matched(st, rule).labels),
        apply_matched(st, rule).rule_matches.no_duplicates(),
{
    lemma_push_unique_no_duplicates(st.rule_matches, rule.name);
    lemma_add_label_no_duplicates(st.labels, rule.name);
    let own = add_label(st.labels, rule.name);
    lemma_add_label_no_duplicates(own, "macos_bundle"@);
    match rule.label_value {
        Some(value) => lemma_add_label_no_duplicates(own, value),
        None => {},
    }
}

proof fn lemma_apply_rules_no_duplicates(
    st: Classification,
    rules: Seq<RuleView>,
    verdicts: Seq<bool>,
    n: nat,
)
    requires
        opt_no_duplicates(st.labels),
        st.rule_matches.no_duplicates(),
    ensures
        opt_no_duplicates(apply_rules(st, rules, verdicts, n).labels),
        apply_rules(st, rules, verdicts, n).rule_matches.no_duplicates(),
    decreases n,
{
    if n > 0 {
        lemma_apply_rules_no_duplicates(st, rules, verdicts, (n - 1) as nat);
        lemma_apply_matched_no_duplicates(
            apply_rules(st, rules, verdicts, (n - 1) as nat),
            rules[n - 1],
        );
    }
}

/// Classification never produces a label twice: a record whose label list
/// and rule-match list hold no string twice leaves the engine with lists
/// that hold no string twice, whatever the rules and their verdicts.
pub proof fn lemma_labels_never_duplicated(m: MetadataView, c: ConfigView, verdicts: Seq<bool>)
    requires
        opt_no_duplicates(m.labels),
        opt_no_duplicates(m.initial_rule_matches),
    ensures
        opt_no_duplicates(annotated(m, classified(m, c, verdicts)).labels),
        opt_no_duplicates(annotated(m, classified(m, c, verdicts)).initial_rule_matches),
{
    let start = initial_classification(m, c);
    match m.extension {
        Some(ext) => lemma_add_label_no_duplicates(m.labels, "ext:"@ + ext),
        None => {},
    }
    lemma_apply_rules_no_duplicates(start, c.rules, verdicts, c.rules.len());
}

/// Classification is a function of its input: two runs over the same record
/// with the same configuration give the same record and the same count of
/// exclusions.
pub proof fn lemma_classification_deterministic(
    m: MetadataView,
    c: ConfigView,
    first: MetadataView,
    first_filtered: nat,
    second: MetadataView,
    second_filtered: nat,
)
    requires
        first == annotated(
            m,
            classified(m, c, rule_verdicts(c.rules, m.file_name, m.extension)),
        ),
        first_filtered == classified(
            m,
            c,
            rule_verdicts(c.rules, m.file_name, m.extension),
        ).filtered,
        second == annotated(
            m,
            classified(m, c, rule_verdicts(c.rules, m.file_name, m.extension)),
        ),
        second_filtered == classified(
            m,
            c,
            rule_verdicts(c.rules, m.file_name, m.extension),
        ).filtered,
    ensures
        first == second,
        first_filtered == second_filtered,
{
}

proof fn lemma_bundle_keeps_exclusion(
    st: Classification,
    rules: Seq<RuleView>,
    verdicts: Seq<bool>,
    n: nat,
)
    requires
        st.is_bundle,
    ensures
        apply_rules(st, rules, verdicts, n).is_bundle,
        apply_rules(st, rules, verdicts, n).extra.excluded_by_rule_id
            == st.extra.excluded_by_rule_id,
        apply_rules(st, rules, verdicts, n).extra.excluded_by_rule_name
            == st.extra.excluded_by_rule_name,
        apply_rules(st, rules, verdicts, n).filtered == st.filtered,
    decreases n,
{
    if n > 0 {
        lemma_bundle_keeps_exclusion(st, rules, verdicts, (n - 1) as nat);
    }
}

/// Bundles are immune to `Exclude` rules: for a record flagged as a bundle no
/// rule attaches an exclusion marker, whatever the rules and their verdicts.
/// Only the hidden flag excludes such a record, and a marker that the record
/// brought along is the only other one it can leave with.
pub proof fn lemma_bundles_never_excluded(m: MetadataView, c: ConfigView, verdicts: Seq<bool>)
    requires
        m.is_bundle(),
    ensures
        classified(m, c, verdicts).is_bundle,
        classified(m, c, verdicts).filtered == 0,
        classified(m, c, verdicts).extra.excluded_by_rule_id == (if m.is_hidden {
            Some(HIDDEN_RULE_ID)
        } else {
            None::<i32>
        }),
        annotated(m, classified(m, c, verdicts)).is_excluded() ==> m.is_hidden
            || m.is_excluded(),
{
    lemma_bundle_keeps_exclusion(initial_classification(m, c), c.rules, verdicts, c.rules.len());
}

/// A label list holds `x`.
pub open spec fn has_label(labels: Option<Seq<Seq<char>>>, x: Seq<char>) -> bool {
    labels matches Some(l) && l.contains(x)
}

proof fn lemma_push_unique_holds(s: Seq<Seq<char>>, x: Seq<char>)
    ensures
        push_unique(s, x).contains(x),
        forall|y: Seq<char>| s.contains(y) ==> #[trigger] push_unique(s, x).contains(y),
        s.contains(x) ==> push_unique(s, x) == s,
        push_unique(s, x).len() >= s.len(),
{
    if !s.contains(x) {
        assert(s.push(x)[s.len() as int] == x);
        assert forall|y: Seq<char>| s.contains(y) implies #[trigger] s.push(x).contains(y) by {
            let i = choose|i: int| 0 <= i < s.len() && s[i] == y;
            assert(s.push(x)[i] == y);
        }
    }
}

proof fn lemma_add_label_holds(labels: Option<Seq<Seq<char>>>, x: Seq<char>)
    ensures
        has_label(add_label(labels, x), x),
        forall|y: Seq<char>| has_label(labels, y) ==> #[trigger] has_label(add_label(labels, x), y),
        has_label(labels, x) ==> add_label(labels, x) == labels,
{
    match labels {
        Some(l) => lemma_push_unique_holds(l, x),
        None => {
            assert(seq![x][0] == x);
        },
    }
}

proof fn lemma_apply_matched_grows(st: Classification, rule: RuleView)
    ensures
        apply_matched(st, rule).rule_matches.contains(rule.name),
        forall|y: Seq<char>|
            st.rule_matches.contains(y) ==> #[trigger] apply_matched(
                st,
                rule,
            ).rule_matches.contains(y),
        forall|y: Seq<char>|
            has_label(st.labels, y) ==> #[trigger] has_label(apply_matched(st, rule).labels, y),
        st.is_bundle ==> apply_matched(st, rule).is_bundle,
        apply_matched(st, rule).filtered >= st.filtered,
{
    lemma_push_unique_holds(st.rule_matches, rule.name);
    let own = add_label(st.labels, rule.name);
    lemma_add_label_holds(st.labels, rule.name);
    lemma_add_label_holds(own, "macos_bundle"@);
    match rule.label_value {
        Some(value) => lemma_add_label_holds(own, value),
        None => {},
    }
}

proof fn lemma_apply_rules_grow(
    st: Classification,
    rules: Seq<RuleView>,
    verdicts: Seq<bool>,
    k: nat,
    n: nat,
)
    requires
        k <= n,
    ensures
        forall|y: Seq<char>|
            apply_rules(st, rules, verdicts, k).rule_matches.contains(y) ==> #[trigger] apply_rules(
                st,
                rules,
                verdicts,
                n,
            ).rule_matches.contains(y),
        forall|y: Seq<char>|
            has_label(apply_rules(st, rules, verdicts, k).labels, y) ==> #[trigger] has_label(
                apply_rules(st, rules, verdicts, n).labels,
                y,
            ),
        apply_rules(st, rules, verdicts, k).is_bundle ==> apply_rules(
            st,
            rules,
            verdicts,
            n,
        ).is_bundle,
        apply_rules(st, rules, verdicts, k).filtered <= apply_rules(
            st,
            rules,
            verdicts,
            n,
        ).filtered,
    decreases n,
{
    if k < n {
        lemma_apply_rules_grow(st, rules, verdicts, k, (n - 1) as nat);
        lemma_apply_matched_grows(apply_rules(st, rules, verdicts, (n - 1) as nat), rules[n - 1]);
    }
}

/// The bundle flag is settled for the marker: the first run ended with the
/// flag it began with, or no `Exclude` rule attached a marker in it.
spec fn marker_settled(first_start: Classification, last: Classification) -> bool {
    last.is_bundle == first_start.is_bundle || last.filtered == first_start.filtered
}

/// What a second run over the result of a first run keeps, rule by rule.
spec fn second_run_agrees(
    first_start: Classification,
    second_start: Classification,
    first: Classification,
    second: Classification,
    last: Classification,
) -> bool {
    &&& second.labels == last.labels
    &&& second.rule_matches == last.rule_matches
    &&& second.extra == first.extra
    &&& second.is_bundle == last.is_bundle
    &&& (second.category_id == first.category_id || (first.category_id
        == first_start.category_id && second.category_id == second_start.category_id))
}

proof fn lemma_second_run(
    first_start: Classification,
    second_start: Classification,
    rules: Seq<RuleView>,
    verdicts: Seq<bool>,
    n: nat,
    total: nat,
)
    requires
        n <= total,
        second_start.labels == apply_rules(first_start, rules, verdicts, total).labels,
        second_start.rule_matches == apply_rules(
            first_start,
            rules,
            verdicts,
            total,
        ).rule_matches,
        second_start.extra == first_start.extra,
        second_start.is_bundle == apply_rules(first_start, rules, verdicts, total).is_bundle,
        marker_settled(first_start, apply_rules(first_start, rules, verdicts, total)),
    ensures
        second_run_agrees(
            first_start,
            second_start,
            apply_rules(first_start, rules, verdicts, n),
            apply_rules(second_start, rules, verdicts, n),
            apply_rules(first_start, rules, verdicts, total),
        ),
    decreases n,
{
    let last = apply_rules(first_start, rules, verdicts, total);
    lemma_apply_rules_grow(first_start, rules, verdicts, 0, n);
    lemma_apply_rules_grow(first_start, rules, verdicts, n, total);
    if n > 0 {
        lemma_second_run(first_start, second_start, rules, verdicts, (n - 1) as nat, total);
        lemma_apply_rules_grow(first_start, rules, verdicts, 0, (n - 1) as nat);
        lemma_apply_rules_grow(first_start, rules, verdicts, (n - 1) as nat, n);
        let a = apply_rules(first_start, rules, verdicts, (n - 1) as nat);
        let b = apply_rules(second_start, rules, verdicts, (n - 1) as nat);
        let rule = rules[n - 1];
        if rule.enabled && n - 1 < verdicts.len() && verdicts[n - 1] {
            let a1 = apply_matched(a, rule);
            assert(a1 == apply_rules(first_start, rules, verdicts, n));
            lemma_apply_matched_grows(a, rule);
            lemma_push_unique_holds(a.rule_matches, rule.name);
            assert(last.rule_matches.contains(rule.name));
            lemma_push_unique_holds(b.rule_matches, rule.name);
            let a_own = add_label(a.labels, rule.name);
            lemma_add_label_holds(a.labels, rule.name);
            lemma_add_label_holds(a_own, "macos_bundle"@);
            lemma_add_label_holds(b.labels, rule.name);
            lemma_add_label_holds(b.labels, "macos_bundle"@);
            if rule.rule_type == RuleTypeRust::OSBundle {
                assert(a1.is_bundle);
                assert(last.is_bundle);
                assert(has_label(a1.labels, rule.name));
                assert(has_label(a1.labels, "macos_bundle"@));
                assert(has_label(last.labels, rule.name));
                assert(has_label(last.labels, "macos_bundle"@));
            } else if rule.action == RuleActionRust::Label {
                match rule.label_value {
                    Some(value) => {
                        lemma_add_label_holds(a_own, value);
                        lemma_add_label_holds(b.labels, value);
                        assert(has_label(a1.labels, rule.name));
                        assert(has_label(a1.labels, value));
                        assert(has_label(last.labels, rule.name));
                        assert(has_label(last.labels, value));
                    },
                    None => {
                        assert(has_label(a1.labels, rule.name));
                        assert(has_label(last.labels, rule.name));
                    },
                }
            } else if rule.action == RuleActionRust::Exclude {
                if a.is_bundle != last.is_bundle {
                    assert(!a.is_bundle && last.is_bundle);
                    assert(!first_start.is_bundle);
                    assert(a1.filtered == a.filtered + 1);
                    assert(a.filtered >= first_start.filtered);
                    assert(last.filtered >= a1.filtered);
                    assert(false);
                }
            }
        }
    }
}

/// Classification is idempotent: classifying the classified record again
/// changes nothing. The one case left out is a record that came without the
/// bundle flag, got an exclusion marker from an `Exclude` rule, and was
/// flagged as a bundle by a later rule: on the second run the flag shields it
/// from that marker.
pub proof fn lemma_classification_idempotent(m: MetadataView, c: ConfigView, verdicts: Seq<bool>)
    requires
        m.is_bundle() || !classified(m, c, verdicts).is_bundle || classified(
            m,
            c,
            verdicts,
        ).filtered == 0,
    ensures
        annotated(
            annotated(m, classified(m, c, verdicts)),
            classified(annotated(m, classified(m, c, verdicts)), c, verdicts),
        ) == annotated(m, classified(m, c, verdicts)),
{
    let total = c.rules.len();
    let first_start = initial_classification(m, c);
    let first = apply_rules(first_start, c.rules, verdicts, total);
    let once = annotated(m, first);
    let second_start = initial_classification(once, c);
    let second = apply_rules(second_start, c.rules, verdicts, total);
    lemma_apply_rules_grow(first_start, c.rules, verdicts, 0, total);
    assert(first_start.filtered == 0);
    assert(marker_settled(first_start, first));
    assert(second_start.is_bundle == first.is_bundle);
    assert(second_start.extra == first_start.extra);
    match m.extension {
        Some(ext) => {
            lemma_add_label_holds(m.labels, "ext:"@ + ext);
            assert(has_label(first_start.labels, "ext:"@ + ext));
            assert(has_label(first.labels, "ext:"@ + ext));
            lemma_add_label_holds(first.labels, "ext:"@ + ext);
        },
        None => {},
    }
    assert(second_start.labels == first.labels);
    if first.rule_matches.len() == 0 {
        if first_start.rule_matches.len() > 0 {
            assert(first_start.rule_matches.contains(first_start.rule_matches[0]));
            assert(first.rule_matches.contains(first_start.rule_matches[0]));
        }
        assert(second_start.rule_matches =~= first.rule_matches);
    }
    assert(second_start.rule_matches == first.rule_matches);
    lemma_second_run(first_start, second_start, c.rules, verdicts, total, total);
    let twice = annotated(once, second);
    assert(twice.category_id == once.category_id);
    assert(twice.labels == once.labels);
    assert(twice.initial_rule_matches == once.initial_rule_matches);
    assert(twice.extra_metadata == once.extra_metadata);
    assert(twice.is_os_bundle == once.is_os_bundle);
}

} // verus!
