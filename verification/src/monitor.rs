//! What to do with one filesystem change.
//!
//! The same routine serves the initial scan and the live watch. It decides
//! from the change, the configuration cache and what the caller found on
//! disk; it reads nothing itself. A removal asks for a delete, a file inside
//! a bundle sends the caller to the bundle, and everything else ends as a
//! record or is dropped for a stated reason.

use vstd::prelude::*;
use crate::blacklist::covers;
use crate::bundle::{
    ancestors_of, default_bundle_extensions, enclosing_bundle_of, is_bundle_folder,
    is_enclosing_bundle, is_inside_macos_bundle, is_outermost_named, lemma_ancestors_are_prefixes,
    marker, named_ancestor_of, named_bundle_ancestor, PathProbe, DOT_ENTRY_THRESHOLD,
};
use crate::cache::{
    blacklist_paths, bundle_extensions_of, directory_views, passes_whitelist, under_monitored,
    ConfigurationCache,
};
use crate::config::ConfigView;
use crate::debounce::{ChangeKind, ChangeView, SimpleFileEvent};
use crate::metadata::{
    calculate_simple_hash, extracted, get_file_metadata, hashed_prefix, hex_string, sha256_digest,
    FileMetadata, FileStat, MetadataView, HASH_PREFIX_LEN,
};
use crate::paths::{
    components, extension_of, file_name_of, get_file_extension, is_hidden_file, is_hidden_path,
};
use crate::rules::{
    annotated, apply_initial_rules, classified, lookup_extension, rule_verdicts, MonitorStats,
};
use crate::text::{contains_seq, first_occurrence, occurs_at, opt_view};

verus! {

/// A file inside nested bundles is sent from bundle to bundle at most this
/// many times.
pub const MAX_BUNDLE_REDIRECTS: usize = 16;

/// What the caller found on disk for a path.
#[derive(Debug, Clone)]
pub struct PathFacts {
    pub probe: PathProbe,
    /// The stat of the path, where it could be had.
    pub stat: Option<FileStat>,
    /// The leading bytes of the file's content; empty for a directory or an
    /// unreadable file.
    pub head: Vec<u8>,
}

/// Why a change led to no record.
#[derive(Debug, Clone, Copy, PartialEq, Eq, Structural)]
pub enum DropReason {
    /// The path lies under no monitoring root.
    NotMonitored,
    /// The path does not exist.
    Missing,
    /// The path is hidden.
    Hidden,
    /// The file's extension is not in the extension table.
    NotInWhitelist,
    /// The file has no extension.
    NoExtension,
    /// The path is blacklisted.
    Blacklisted,
    /// No metadata could be had for the path.
    NoMetadata,
    /// A rule excluded the record.
    Excluded,
}

/// What a change leads to.
#[derive(Debug, Clone)]
pub enum EventOutcome {
    /// Ask the service to delete the record of this path.
    Delete(String),
    /// The path lies in this bundle: process the bundle instead.
    Redirect(String),
    /// Nothing is forwarded.
    Dropped(DropReason),
    /// Forward this record.
    Record(FileMetadata),
}

/// An outcome as contracts see it.
pub enum OutcomeView {
    Delete(Seq<char>),
    Redirect(Seq<char>),
    Dropped(DropReason),
    Record(MetadataView),
}

impl View for EventOutcome {
    type V = OutcomeView;

    open spec fn view(&self) -> OutcomeView {
        match self {
            EventOutcome::Delete(p) => OutcomeView::Delete(p@),
            EventOutcome::Redirect(p) => OutcomeView::Redirect(p@),
            EventOutcome::Dropped(r) => OutcomeView::Dropped(*r),
            EventOutcome::Record(m) => OutcomeView::Record(m@),
        }
    }
}

/// By how much one change moves the counters.
pub struct StatsDelta {
    pub processed: nat,
    pub filtered: nat,
    pub bundles: nat,
}

/// No counter moves.
pub open spec fn no_delta() -> StatsDelta {
    StatsDelta { processed: 0, filtered: 0, bundles: 0 }
}

/// The hash of a file with these leading bytes.
pub open spec fn content_hash(head: Seq<u8>) -> Option<Seq<char>> {
    if hashed_prefix(head, HASH_PREFIX_LEN).len() > 0 {
        Some(hex_string(sha256_digest(hashed_prefix(head, HASH_PREFIX_LEN))))
    } else {
        None
    }
}

/// The probe alone makes the path a bundle: a directory, on a platform with
/// bundles, that holds `Contents/Info.plist` or many dot-prefixed entries.
pub open spec fn bundle_by_content(probe: PathProbe) -> bool {
    probe.is_dir && probe.on_macos && (probe.has_info_plist || probe.dot_entries
        > DOT_ENTRY_THRESHOLD)
}

/// The record of a path before classification.
pub open spec fn prepared(
    path: Seq<char>,
    name: Seq<char>,
    stat: FileStat,
    probe: PathProbe,
    head: Seq<u8>,
    is_bundle: bool,
) -> MetadataView {
    let base = extracted(path, name, stat, probe);
    MetadataView {
        is_os_bundle: if is_bundle {
            Some(true)
        } else {
            base.is_os_bundle
        },
        hash_value: if base.is_dir {
            None
        } else {
            content_hash(head)
        },
        ..base
    }
}

/// What an added path that passed the early checks leads to: blacklisted
/// paths are dropped, the others are extracted, classified and, unless a
/// rule excluded them, recorded. Bundles are recorded even when excluded.
pub open spec fn record_outcome(
    cache: ConfigurationCache,
    config: ConfigView,
    path: Seq<char>,
    probe: PathProbe,
    stat: Option<FileStat>,
    head: Seq<u8>,
    is_bundle: bool,
) -> (OutcomeView, StatsDelta) {
    if covers(blacklist_paths(cache.folders()), components(path)) {
        (
            OutcomeView::Dropped(DropReason::Blacklisted),
            StatsDelta { processed: 0, filtered: 1, bundles: 0 },
        )
    } else if stat is Some && file_name_of(path) is Some {
        let before = prepared(path, file_name_of(path)->0, stat->0, probe, head, is_bundle);
        let st = classified(before, config, rule_verdicts(config.rules, before.file_name, before.extension));
        let after = annotated(before, st);
        let delta = StatsDelta {
            processed: 1,
            filtered: st.filtered,
            bundles: if is_bundle {
                1
            } else {
                0
            },
        };
        if !after.is_bundle() && after.is_excluded() {
            (OutcomeView::Dropped(DropReason::Excluded), delta)
        } else {
            (OutcomeView::Record(after), delta)
        }
    } else {
        (OutcomeView::Dropped(DropReason::NoMetadata), no_delta())
    }
}

/// What a change leads to, and by how much it moves the counters.
pub open spec fn event_outcome(
    cache: ConfigurationCache,
    event: ChangeView,
    probe: PathProbe,
    stat: Option<FileStat>,
    head: Seq<u8>,
    home: Option<Seq<char>>,
) -> (OutcomeView, StatsDelta) {
    let path = event.path;
    if event.kind == ChangeKind::Removed {
        (OutcomeView::Delete(path), no_delta())
    } else if !under_monitored(directory_views(cache.monitored()), path, home) {
        (OutcomeView::Dropped(DropReason::NotMonitored), no_delta())
    } else if !probe.exists {
        (OutcomeView::Dropped(DropReason::Missing), no_delta())
    } else if is_hidden_path(path) {
        (OutcomeView::Dropped(DropReason::Hidden), no_delta())
    } else if enclosing_bundle_of(path, default_bundle_extensions()) is Some {
        (
            OutcomeView::Redirect(enclosing_bundle_of(path, default_bundle_extensions())->0),
            no_delta(),
        )
    } else if named_ancestor_of(path, bundle_extensions_of(cache.snapshot_view())) is Some {
        (
            OutcomeView::Redirect(
                named_ancestor_of(path, bundle_extensions_of(cache.snapshot_view()))->0,
            ),
            no_delta(),
        )
    } else {
        let by_name = is_bundle_folder(path, bundle_extensions_of(cache.snapshot_view()), probe);
        if probe.is_file && !by_name && !passes_whitelist(cache.extension_maps(), extension_of(path)) {
            (
                OutcomeView::Dropped(
                    if extension_of(path) is Some {
                        DropReason::NotInWhitelist
                    } else {
                        DropReason::NoExtension
                    },
                ),
                StatsDelta { processed: 0, filtered: 1, bundles: 0 },
            )
        } else {
            record_outcome(
                cache,
                cache.snapshot_view()->0,
                path,
                probe,
                stat,
                head,
                by_name || bundle_by_content(probe),
            )
        }
    }
}

/// A cache without a snapshot monitors nothing.
pub proof fn lemma_nothing_monitored_without_snapshot(
    cache: ConfigurationCache,
    path: Seq<char>,
    home: Option<Seq<char>>,
)
    requires
        cache.wf(),
        cache.snapshot() is None,
    ensures
        !under_monitored(directory_views(cache.monitored()), path, home),
{
    assert(directory_views(cache.monitored()).len() == 0);
}

/// Decides what one change leads to and counts it.
///
/// `facts` is what the caller found on disk for the path of the event, and
/// `home` the home directory where one is known. On `Redirect` the caller
/// probes the bundle and asks again with the bundle's path; the path gets
/// shorter each time.
pub fn process_file_event(
    cache: &ConfigurationCache,
    stats: &mut MonitorStats,
    event: &SimpleFileEvent,
    facts: &PathFacts,
    home: &Option<String>,
) -> (out: EventOutcome)
    requires
        cache.wf(),
        old(stats).processed_files < u64::MAX,
        old(stats).filtered_bundles < u64::MAX,
        old(stats).filtered_files + (match cache.snapshot() {
            Some(c) => c.file_filter_rules@.len(),
            None => 0,
        }) < u64::MAX,
    ensures
        out@ == event_outcome(*cache, event@, facts.probe, facts.stat, facts.head@, opt_view(*home)).0,
        final(stats).processed_files == old(stats).processed_files + event_outcome(
            *cache,
            event@,
            facts.probe,
            facts.stat,
            facts.head@,
            opt_view(*home),
        ).1.processed,
        final(stats).filtered_files == old(stats).filtered_files + event_outcome(
            *cache,
            event@,
            facts.probe,
            facts.stat,
            facts.head@,
            opt_view(*home),
        ).1.filtered,
        final(stats).filtered_bundles == old(stats).filtered_bundles + event_outcome(
            *cache,
            event@,
            facts.probe,
            facts.stat,
            facts.head@,
            opt_view(*home),
        ).1.bundles,
        final(stats).error_count == old(stats).error_count,
        out matches EventOutcome::Redirect(root) ==> root@.len() < event@.path.len(),
{
    let path = match event {
        SimpleFileEvent::Removed(p) => {
            return EventOutcome::Delete(p.clone());
        },
        SimpleFileEvent::Added(p) => p.as_str(),
    };
    let config = match cache.get_configurations() {
        Some(config) => config,
        None => {
            proof {
                lemma_nothing_monitored_without_snapshot(*cache, path@, opt_view(*home));
            }
            return EventOutcome::Dropped(DropReason::NotMonitored);
        },
    };
    if !cache.belongs_to_monitored_dir(path, home) {
        return EventOutcome::Dropped(DropReason::NotMonitored);
    }
    if !facts.probe.exists {
        return EventOutcome::Dropped(DropReason::Missing);
    }
    if is_hidden_file(path) {
        return EventOutcome::Dropped(DropReason::Hidden);
    }
    match is_inside_macos_bundle(path) {
        Some(root) => {
            return EventOutcome::Redirect(root);
        },
        None => {},
    }
    let extensions = cache.extract_bundle_extensions();
    match named_bundle_ancestor(path, &extensions) {
        Some(root) => {
            return EventOutcome::Redirect(root);
        },
        None => {},
    }
    let by_name = cache.check_if_macos_bundle(path, &facts.probe);
    if facts.probe.is_file && !by_name {
        let extension = get_file_extension(path);
        if !cache.extension_in_whitelist(&extension) {
            stats.filtered_files = stats.filtered_files + 1;
            return EventOutcome::Dropped(
                if extension.is_some() {
                    DropReason::NotInWhitelist
                } else {
                    DropReason::NoExtension
                },
            );
        }
    }
    let is_bundle = by_name || (facts.probe.is_dir && facts.probe.on_macos && (
    facts.probe.has_info_plist || facts.probe.dot_entries > DOT_ENTRY_THRESHOLD));
    if cache.is_in_blacklist(path) {
        stats.filtered_files = stats.filtered_files + 1;
        return EventOutcome::Dropped(DropReason::Blacklisted);
    }
    let stat = match &facts.stat {
        Some(stat) => stat,
        None => {
            return EventOutcome::Dropped(DropReason::NoMetadata);
        },
    };
    let mut metadata = match get_file_metadata(path, stat, &facts.probe) {
        Some(metadata) => metadata,
        None => {
            return EventOutcome::Dropped(DropReason::NoMetadata);
        },
    };
    if is_bundle {
        metadata.is_os_bundle = Some(true);
        stats.filtered_bundles = stats.filtered_bundles + 1;
    }
    if !metadata.is_dir {
        metadata.hash_value = calculate_simple_hash(facts.head.as_slice(), HASH_PREFIX_LEN);
    }
    assert(metadata@ == prepared(
        path@,
        file_name_of(path@)->0,
        *stat,
        facts.probe,
        facts.head@,
        is_bundle,
    ));
    apply_initial_rules(config, &mut metadata, stats);
    if !metadata.is_bundle() && metadata.is_excluded() {
        return EventOutcome::Dropped(DropReason::Excluded);
    }
    EventOutcome::Record(metadata)
}

/// Nothing under a blacklisted directory is recorded: whatever the caller
/// found on disk, a change at a path that the blacklist covers leads to no
/// record.
pub proof fn lemma_blacklisted_paths_give_no_record(
    cache: ConfigurationCache,
    event: ChangeView,
    probe: PathProbe,
    stat: Option<FileStat>,
    head: Seq<u8>,
    home: Option<Seq<char>>,
)
    requires
        covers(blacklist_paths(cache.folders()), components(event.path)),
    ensures
        !(event_outcome(cache, event, probe, stat, head, home).0 is Record),
{
}

/// A file inside a bundle is never recorded under its own path: whatever the
/// caller found on disk, a change at a path that lies in a bundle, by the
/// default markers or by an ancestor whose name ends with a bundle extension
/// in force, leads to no record of that path.
pub proof fn lemma_paths_inside_bundles_give_no_record(
    cache: ConfigurationCache,
    event: ChangeView,
    probe: PathProbe,
    stat: Option<FileStat>,
    head: Seq<u8>,
    home: Option<Seq<char>>,
)
    requires
        enclosing_bundle_of(event.path, default_bundle_extensions()) is Some || named_ancestor_of(
            event.path,
            bundle_extensions_of(cache.snapshot_view()),
        ) is Some,
    ensures
        !(event_outcome(cache, event, probe, stat, head, home).0 is Record),
{
}

/// A record is the record of the path that changed: it carries that path,
/// its final component, and what the stat said. A record that is no bundle
/// carries no exclusion marker.
pub proof fn lemma_record_is_of_the_path(
    cache: ConfigurationCache,
    event: ChangeView,
    probe: PathProbe,
    stat: Option<FileStat>,
    head: Seq<u8>,
    home: Option<Seq<char>>,
)
    ensures
        event_outcome(cache, event, probe, stat, head, home).0 matches OutcomeView::Record(m) ==> {
            &&& event.kind == ChangeKind::Added
            &&& m.file_path == event.path
            &&& file_name_of(event.path) == Some(m.file_name)
            &&& stat is Some
            &&& m.is_dir == stat->0.is_dir
            &&& m.created_time == stat->0.created
            &&& m.modified_time == stat->0.modified
            &&& !m.is_hidden
            &&& (m.is_bundle() || !m.is_excluded())
        },
{
}

/// Without rules, a record carries no exclusion marker and the category
/// that the first row of the extension table gives its extension.
pub proof fn lemma_record_without_rules(
    cache: ConfigurationCache,
    event: ChangeView,
    probe: PathProbe,
    stat: Option<FileStat>,
    head: Seq<u8>,
    home: Option<Seq<char>>,
)
    requires
        cache.snapshot_view() is Some,
        cache.snapshot_view()->0.rules.len() == 0,
    ensures
        event_outcome(cache, event, probe, stat, head, home).0 matches OutcomeView::Record(m) ==> {
            &&& !m.is_excluded()
            &&& m.extension == (if stat->0.is_dir {
                None
            } else {
                extension_of(event.path)
            })
            &&& m.category_id == (match m.extension {
                Some(ext) => match lookup_extension(
                    cache.snapshot_view()->0.extension_maps,
                    ext,
                ) {
                    Some(row) => Some(row.category_id),
                    None => None,
                },
                None => None,
            })
        },
{
}

/// A removal leads to a delete of the same path, to no record, and moves no
/// counter.
pub proof fn lemma_removal_gives_delete(
    cache: ConfigurationCache,
    event: ChangeView,
    probe: PathProbe,
    stat: Option<FileStat>,
    head: Seq<u8>,
    home: Option<Seq<char>>,
)
    requires
        event.kind == ChangeKind::Removed,
    ensures
        event_outcome(cache, event, probe, stat, head, home) == (
            OutcomeView::Delete(event.path),
            no_delta(),
        ),
{
}

/// Following a file to the bundle it lies in ends: the bundle's path is a
/// proper prefix of the file's path.
pub proof fn lemma_redirect_shortens(
    cache: ConfigurationCache,
    event: ChangeView,
    probe: PathProbe,
    stat: Option<FileStat>,
    head: Seq<u8>,
    home: Option<Seq<char>>,
)
    ensures
        event_outcome(cache, event, probe, stat, head, home).0 matches OutcomeView::Redirect(root)
            ==> root.is_prefix_of(event.path) && root.len() < event.path.len(),
{
    let path = event.path;
    let extensions = default_bundle_extensions();
    if event_outcome(cache, event, probe, stat, head, home).0 is Redirect {
        if enclosing_bundle_of(path, extensions) is Some {
            let root = enclosing_bundle_of(path, extensions)->0;
            assert(is_enclosing_bundle(path, extensions, root));
            let (j, i) = choose|j: int, i: int|
                0 <= j < extensions.len() && (forall|y: int|
                    0 <= y < j ==> !contains_seq(path, marker(#[trigger] extensions[y])))
                    && #[trigger] first_occurrence(path, marker(extensions[j]), i) && root
                    == path.take(i + extensions[j].len());
            assert(occurs_at(path, marker(extensions[j]), i));
        } else {
            let in_force = bundle_extensions_of(cache.snapshot_view());
            let k = choose|k: int| is_outermost_named(ancestors_of(path), in_force, k);
            lemma_ancestors_are_prefixes(path, path.len(), k);
        }
    }
}

} // verus!
