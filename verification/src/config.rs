//! The configuration snapshot that the indexing service hands out, and the
//! records it is made of.

use vstd::prelude::*;
use crate::text::{opt_view, str_eq, views};

verus! {

/// What a filter rule looks at.
#[derive(Debug, Clone, Copy, PartialEq, Eq, Structural)]
pub enum RuleTypeRust {
    Extension,
    Filename,
    Folder,
    Structure,
    OSBundle,
}

/// Declared weight of a rule or an extension mapping.
#[derive(Debug, Clone, Copy, PartialEq, Eq, Structural)]
pub enum RulePriorityRust {
    Low,
    Medium,
    High,
}

/// What a matching rule does to a record.
#[derive(Debug, Clone, Copy, PartialEq, Eq, Structural)]
pub enum RuleActionRust {
    Include,
    Exclude,
    Label,
}

/// One entry of the classification taxonomy.
#[derive(Debug, Clone)]
pub struct FileCategoryRust {
    pub id: i32,
    pub name: String,
    pub description: Option<String>,
    pub icon: Option<String>,
}

/// The part of a rule's free-form data that classification reads.
#[derive(Debug, Clone)]
pub struct RuleExtraData {
    /// An explicit label that a `Label` rule attaches besides its own name.
    pub label_value: Option<String>,
}

/// One filter rule.
#[derive(Debug, Clone)]
pub struct FileFilterRuleRust {
    pub id: i32,
    pub name: String,
    pub description: Option<String>,
    pub rule_type: RuleTypeRust,
    pub category_id: Option<i32>,
    pub priority: RulePriorityRust,
    pub action: RuleActionRust,
    pub enabled: bool,
    pub is_system: bool,
    pub pattern: String,
    /// `"regex"`, `"glob"` or `"keyword"`.
    pub pattern_type: String,
    pub extra_data: Option<RuleExtraData>,
}

/// One row of the extension table: lowercase extension without the dot.
#[derive(Debug, Clone)]
pub struct FileExtensionMapRust {
    pub id: i32,
    pub extension: String,
    pub category_id: i32,
    pub description: Option<String>,
    pub priority: RulePriorityRust,
}

/// A configured directory: a monitoring root or a blacklist root.
#[derive(Debug, Clone)]
pub struct MonitoredDirectory {
    pub id: Option<i32>,
    pub path: String,
    pub alias: Option<String>,
    pub is_blacklist: bool,
    pub created_at: Option<String>,
    pub updated_at: Option<String>,
}

/// A full configuration snapshot.
#[derive(Debug, Clone)]
pub struct AllConfigurations {
    pub file_categories: Vec<FileCategoryRust>,
    pub file_filter_rules: Vec<FileFilterRuleRust>,
    pub file_extension_maps: Vec<FileExtensionMapRust>,
    pub monitored_folders: Vec<MonitoredDirectory>,
    pub full_disk_access: bool,
    pub bundle_extensions: Vec<String>,
}

/// The narrow configuration for lightweight scans. The extension table is a
/// list of pairs; in a well-formed configuration no extension occurs twice.
#[derive(Debug, Clone)]
pub struct FileScanningConfig {
    pub extension_mappings: Vec<(String, i32)>,
    pub bundle_extensions: Vec<String>,
    pub ignore_patterns: Vec<String>,
    pub file_categories: Vec<FileCategoryRust>,
    pub error_message: Option<String>,
}

/// A category as contracts see it.
pub struct CategoryView {
    pub id: i32,
    pub name: Seq<char>,
}

/// A filter rule as contracts see it.
pub struct RuleView {
    pub id: i32,
    pub name: Seq<char>,
    pub rule_type: RuleTypeRust,
    pub category_id: Option<i32>,
    pub action: RuleActionRust,
    pub enabled: bool,
    pub pattern: Seq<char>,
    pub pattern_type: Seq<char>,
    pub label_value: Option<Seq<char>>,
}

/// An extension mapping as contracts see it.
pub struct ExtensionMapView {
    pub extension: Seq<char>,
    pub category_id: i32,
}

/// A configured directory as contracts see it.
pub struct DirectoryView {
    pub id: Option<i32>,
    pub path: Seq<char>,
    pub alias: Option<Seq<char>>,
    pub is_blacklist: bool,
    pub created_at: Option<Seq<char>>,
    pub updated_at: Option<Seq<char>>,
}

/// A configuration snapshot as contracts see it.
pub struct ConfigView {
    pub categories: Seq<CategoryView>,
    pub rules: Seq<RuleView>,
    pub extension_maps: Seq<ExtensionMapView>,
    pub folders: Seq<DirectoryView>,
    pub full_disk_access: bool,
    pub bundle_extensions: Seq<Seq<char>>,
}

impl View for FileCategoryRust {
    type V = CategoryView;

    open spec fn view(&self) -> CategoryView {
        CategoryView { id: self.id, name: self.name@ }
    }
}

impl View for FileFilterRuleRust {
    type V = RuleView;

    open spec fn view(&self) -> RuleView {
        RuleView {
            id: self.id,
            name: self.name@,
            rule_type: self.rule_type,
            category_id: self.category_id,
            action: self.action,
            enabled: self.enabled,
            pattern: self.pattern@,
            pattern_type: self.pattern_type@,
            label_value: match self.extra_data {
                Some(extra) => match extra.label_value {
                    Some(label) => Some(label@),
                    None => None,
                },
                None => None,
            },
        }
    }
}

impl View for FileExtensionMapRust {
    type V = ExtensionMapView;

    open spec fn view(&self) -> ExtensionMapView {
        ExtensionMapView { extension: self.extension@, category_id: self.category_id }
    }
}

impl View for MonitoredDirectory {
    type V = DirectoryView;

    open spec fn view(&self) -> DirectoryView {
        DirectoryView {
            id: self.id,
            path: self.path@,
            alias: opt_view(self.alias),
            is_blacklist: self.is_blacklist,
            created_at: opt_view(self.created_at),
            updated_at: opt_view(self.updated_at),
        }
    }
}

impl View for AllConfigurations {
    type V = ConfigView;

    open spec fn view(&self) -> ConfigView {
        ConfigView {
            categories: self.file_categories@.map_values(|c: FileCategoryRust| c@),
            rules: self.file_filter_rules@.map_values(|r: FileFilterRuleRust| r@),
            extension_maps: self.file_extension_maps@.map_values(|m: FileExtensionMapRust| m@),
            folders: self.monitored_folders@.map_values(|d: MonitoredDirectory| d@),
            full_disk_access: self.full_disk_access,
            bundle_extensions: views(self.bundle_extensions@),
        }
    }
}

/// The category that a list of pairs gives an extension: that of the first
/// pair with this extension.
pub open spec fn mapping_for(mappings: Seq<(String, i32)>, ext: Seq<char>) -> Option<i32>
    decreases mappings.len(),
{
    if mappings.len() == 0 {
        None
    } else if mappings[0].0@ == ext {
        Some(mappings[0].1)
    } else {
        mapping_for(mappings.drop_first(), ext)
    }
}

proof fn lemma_mapping_at(mappings: Seq<(String, i32)>, ext: Seq<char>, i: int)
    requires
        0 <= i < mappings.len(),
        mappings[i].0@ == ext,
        forall|j: int| 0 <= j < i ==> (#[trigger] mappings[j]).0@ != ext,
    ensures
        mapping_for(mappings, ext) == Some(mappings[i].1),
    decreases i,
{
    if i > 0 {
        let rest = mappings.drop_first();
        assert forall|j: int| 0 <= j < i - 1 implies (#[trigger] rest[j]).0@ != ext by {
            assert(rest[j] == mappings[j + 1]);
        }
        assert(rest[i - 1] == mappings[i]);
        lemma_mapping_at(rest, ext, i - 1);
    }
}

proof fn lemma_mapping_absent(mappings: Seq<(String, i32)>, ext: Seq<char>)
    requires
        forall|j: int| 0 <= j < mappings.len() ==> (#[trigger] mappings[j]).0@ != ext,
    ensures
        mapping_for(mappings, ext) is None,
    decreases mappings.len(),
{
    if mappings.len() > 0 {
        let rest = mappings.drop_first();
        assert forall|j: int| 0 <= j < rest.len() implies (#[trigger] rest[j]).0@ != ext by {
            assert(rest[j] == mappings[j + 1]);
        }
        lemma_mapping_absent(rest, ext);
    }
}

proof fn lemma_mapping_same(a: Seq<(String, i32)>, b: Seq<(String, i32)>, ext: Seq<char>)
    requires
        a.len() <= b.len(),
        forall|i: int| 0 <= i < a.len() ==> (#[trigger] a[i]).0@ == b[i].0@,
        forall|i: int| 0 <= i < a.len() && (#[trigger] a[i]).0@ == ext ==> a[i].1 == b[i].1,
        forall|i: int| a.len() <= i < b.len() ==> (#[trigger] b[i]).0@ != ext,
    ensures
        mapping_for(a, ext) == mapping_for(b, ext),
    decreases a.len(),
{
    if a.len() == 0 {
        lemma_mapping_absent(b, ext);
    } else {
        assert(a[0].0@ == b[0].0@);
        if a[0].0@ != ext {
            let ra = a.drop_first();
            let rb = b.drop_first();
            assert forall|i: int| 0 <= i < ra.len() implies (#[trigger] ra[i]).0@ == rb[i].0@ by {
                assert(ra[i] == a[i + 1]);
                assert(rb[i] == b[i + 1]);
            }
            assert forall|i: int| 0 <= i < ra.len() && (#[trigger] ra[i]).0@ == ext implies ra[i].1
                == rb[i].1 by {
                assert(ra[i] == a[i + 1]);
                assert(rb[i] == b[i + 1]);
            }
            assert forall|i: int| ra.len() <= i < rb.len() implies (#[trigger] rb[i]).0@ != ext by {
                assert(rb[i] == b[i + 1]);
            }
            lemma_mapping_same(ra, rb, ext);
        }
    }
}

impl FileScanningConfig {
    /// No extension has two categories.
    pub open spec fn wf(&self) -> bool {
        forall|i: int, j: int|
            0 <= i < j < self.extension_mappings@.len() ==> (
            #[trigger] self.extension_mappings@[i]).0@ != (#[trigger] self.extension_mappings@[j]).0@
    }

    /// A configuration that maps nothing and names nothing.
    pub fn new() -> (out: FileScanningConfig)
        ensures
            out.wf(),
            out.extension_mappings@.len() == 0,
            out.bundle_extensions@.len() == 0,
            out.ignore_patterns@.len() == 0,
            out.file_categories@.len() == 0,
            out.error_message is None,
    {
        FileScanningConfig {
            extension_mappings: Vec::new(),
            bundle_extensions: Vec::new(),
            ignore_patterns: Vec::new(),
            file_categories: Vec::new(),
            error_message: None,
        }
    }

    /// The category of an extension, if it has one.
    pub fn category_of(&self, ext: &str) -> (out: Option<i32>)
        ensures
            out == mapping_for(self.extension_mappings@, ext@),
    {
        let mappings = &self.extension_mappings;
        assert(mappings@.skip(0) =~= mappings@);
        let mut i: usize = 0;
        while i < mappings.len()
            invariant
                i <= mappings.len(),
                mappings@ == self.extension_mappings@,
                mapping_for(mappings@, ext@) == mapping_for(mappings@.skip(i as int), ext@),
            decreases mappings.len() - i,
        {
            assert(mappings@.skip(i as int).drop_first() =~= mappings@.skip(i + 1));
            assert(mappings@.skip(i as int)[0] == mappings@[i as int]);
            if str_eq(mappings[i].0.as_str(), ext) {
                return Some(mappings[i].1);
            }
            i += 1;
        }
        None
    }

    /// Gives `extension` the category `category_id`, in place of the one it
    /// had, if it had one. Every other extension keeps its category.
    pub fn set_mapping(&mut self, extension: String, category_id: i32)
        requires
            old(self).wf(),
        ensures
            final(self).wf(),
            mapping_for(final(self).extension_mappings@, extension@) == Some(category_id),
            forall|other: Seq<char>|
                other != extension@ ==> #[trigger] mapping_for(
                    final(self).extension_mappings@,
                    other,
                ) == mapping_for(old(self).extension_mappings@, other),
            final(self).bundle_extensions == old(self).bundle_extensions,
            final(self).ignore_patterns == old(self).ignore_patterns,
            final(self).file_categories == old(self).file_categories,
            final(self).error_message == old(self).error_message,
    {
        let ghost before = self.extension_mappings@;
        let mut i: usize = 0;
        while i < self.extension_mappings.len()
            invariant
                i <= self.extension_mappings.len(),
                *self == *old(self),
                old(self).wf(),
                before == self.extension_mappings@,
                forall|j: int| 0 <= j < i ==> (#[trigger] before[j]).0@ != extension@,
            decreases self.extension_mappings.len() - i,
        {
            if str_eq(self.extension_mappings[i].0.as_str(), extension.as_str()) {
                self.extension_mappings[i] = (extension, category_id);
                let ghost after = self.extension_mappings@;
                proof {
                    assert(after == before.update(i as int, (extension, category_id)));
                    lemma_mapping_at(after, extension@, i as int);
                    assert forall|other: Seq<char>| other != extension@ implies #[trigger] mapping_for(
                        after,
                        other,
                    ) == mapping_for(before, other) by {
                        lemma_mapping_same(before, after, other);
                    }
                    assert forall|a: int, b: int| 0 <= a < b < after.len() implies (
                    #[trigger] after[a]).0@ != (#[trigger] after[b]).0@ by {
                        assert(before[a].0@ != before[b].0@);
                    }
                }
                return ;
            }
            i += 1;
        }
        self.extension_mappings.push((extension, category_id));
        let ghost after = self.extension_mappings@;
        proof {
            assert(after == before.push((extension, category_id)));
            lemma_mapping_at(after, extension@, before.len() as int);
            assert forall|other: Seq<char>| other != extension@ implies #[trigger] mapping_for(
                after,
                other,
            ) == mapping_for(before, other) by {
                lemma_mapping_same(before, after, other);
            }
            assert forall|a: int, b: int| 0 <= a < b < after.len() implies (#[trigger] after[a]).0@
                != (#[trigger] after[b]).0@ by {
                if b < before.len() {
                    assert(before[a].0@ != before[b].0@);
                }
            }
        }
    }
}

} // verus!
