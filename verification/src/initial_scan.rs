//! The bulk scan that seeds the pipeline: which entries of a directory walk
//! are visited, and the bookkeeping of the walk.
//!
//! The walk itself is the caller's. Before it descends into an entry it asks
//! [`walk_filter`]; for every entry it visits it asks [`DirectoryScan::visit`]
//! and then runs the entry through the routine that the live watch uses.

use vstd::prelude::*;
use crate::blacklist::covers;
use crate::bundle::{
    default_bundle_extensions, enclosing_bundle_of, is_bundle_folder, is_inside_macos_bundle,
    is_macos_bundle_folder, PathProbe,
};
use crate::cache::{blacklist_paths, passes_whitelist, ConfigurationCache};
use crate::monitor::EventOutcome;
use crate::paths::{
    components, extension_of, get_file_extension, is_hidden_file, is_hidden_path, SEPARATOR,
};
use crate::rules::MonitorStats;
use crate::text::chars_of;

verus! {

/// Every so many visited entries the walk checks the blacklist again.
pub const BLACKLIST_RECHECK_PERIOD: u64 = 1000;

/// Why the walk does not enter an entry.
#[derive(Debug, Clone, Copy, PartialEq, Eq, Structural)]
pub enum WalkSkip {
    Hidden,
    Blacklisted,
    /// The entry is a bundle by its name or layout.
    Bundle,
    /// The entry lies in a bundle.
    InsideBundle,
    /// The entry is a directory that holds `Contents/Info.plist`.
    BundleByPlist,
    /// The entry is a file whose extension is not in the extension table.
    NotInWhitelist,
}

/// Why the bulk walk does not enter an entry, if it does not. Directories
/// are exempt from the extension check.
pub open spec fn walk_skip(cache: ConfigurationCache, path: Seq<char>, probe: PathProbe) -> Option<
    WalkSkip,
> {
    if is_hidden_path(path) {
        Some(WalkSkip::Hidden)
    } else if covers(blacklist_paths(cache.folders()), components(path)) {
        Some(WalkSkip::Blacklisted)
    } else if is_bundle_folder(path, default_bundle_extensions(), probe) {
        Some(WalkSkip::Bundle)
    } else if enclosing_bundle_of(path, default_bundle_extensions()) is Some {
        Some(WalkSkip::InsideBundle)
    } else if probe.is_dir && probe.on_macos && probe.has_info_plist {
        Some(WalkSkip::BundleByPlist)
    } else if probe.is_file && !passes_whitelist(cache.extension_maps(), extension_of(path)) {
        Some(WalkSkip::NotInWhitelist)
    } else {
        None
    }
}

/// Why the bulk walk does not enter `path`, if it does not.
pub fn walk_filter(cache: &ConfigurationCache, path: &str, probe: &PathProbe) -> (out: Option<
    WalkSkip,
>)
    requires
        cache.wf(),
    ensures
        out == walk_skip(*cache, path@, *probe),
{
    if is_hidden_file(path) {
        return Some(WalkSkip::Hidden);
    }
    if cache.is_in_blacklist(path) {
        return Some(WalkSkip::Blacklisted);
    }
    if is_macos_bundle_folder(path, probe) {
        return Some(WalkSkip::Bundle);
    }
    if is_inside_macos_bundle(path).is_some() {
        return Some(WalkSkip::InsideBundle);
    }
    if probe.is_dir && probe.on_macos && probe.has_info_plist {
        return Some(WalkSkip::BundleByPlist);
    }
    if probe.is_file {
        let extension = get_file_extension(path);
        if !cache.extension_in_whitelist(&extension) {
            return Some(WalkSkip::NotInWhitelist);
        }
    }
    None
}

/// Why the walk of a single added directory does not enter an entry, if it
/// does not: hidden entries, bundles and what lies in them are left out.
pub open spec fn single_walk_skip(path: Seq<char>, probe: PathProbe) -> Option<WalkSkip> {
    if is_hidden_path(path) {
        Some(WalkSkip::Hidden)
    } else if is_bundle_folder(path, default_bundle_extensions(), probe) {
        Some(WalkSkip::Bundle)
    } else if enclosing_bundle_of(path, default_bundle_extensions()) is Some {
        Some(WalkSkip::InsideBundle)
    } else {
        None
    }
}

/// Why the walk of a single added directory does not enter `path`.
pub fn single_walk_filter(path: &str, probe: &PathProbe) -> (out: Option<WalkSkip>)
    ensures
        out == single_walk_skip(path@, *probe),
{
    if is_hidden_file(path) {
        return Some(WalkSkip::Hidden);
    }
    if is_macos_bundle_folder(path, probe) {
        return Some(WalkSkip::Bundle);
    }
    if is_inside_macos_bundle(path).is_some() {
        return Some(WalkSkip::InsideBundle);
    }
    None
}

/// How many separators the first `n` characters of a path hold.
pub open spec fn separators_in(path: Seq<char>, n: nat) -> nat
    decreases n,
{
    if n == 0 {
        0
    } else {
        separators_in(path, (n - 1) as nat) + (if path[n - 1] == SEPARATOR {
            1nat
        } else {
            0nat
        })
    }
}

/// A bundle at the top of the tree: its path holds at most one separator.
pub open spec fn is_top_level(path: Seq<char>) -> bool {
    separators_in(path, path.len()) <= 1
}

/// Whether the path holds at most one separator.
pub fn path_is_top_level(path: &str) -> (b: bool)
    ensures
        b == is_top_level(path@),
{
    let chars = chars_of(path);
    let mut count: usize = 0;
    let mut i: usize = 0;
    while i < chars.len()
        invariant
            i <= chars.len(),
            chars@ == path@,
            count == separators_in(path@, i as nat),
            count <= i,
        decreases chars.len() - i,
    {
        if chars[i] == SEPARATOR {
            count += 1;
        }
        i += 1;
    }
    count <= 1
}

/// What to do about the scan of one directory that was added later.
#[derive(Debug, Clone, Copy, PartialEq, Eq, Structural)]
pub enum SingleScanPlan {
    /// The directory is blacklisted: nothing to scan.
    Skip,
    /// The directory does not exist: the scan fails.
    Missing,
    /// Walk the directory.
    Walk,
}

/// Plans the scan of one directory.
pub fn plan_single_scan(cache: &ConfigurationCache, path: &str, exists: bool) -> (out:
    SingleScanPlan)
    requires
        cache.wf(),
    ensures
        out == (if covers(blacklist_paths(cache.folders()), components(path@)) {
            SingleScanPlan::Skip
        } else if !exists {
            SingleScanPlan::Missing
        } else {
            SingleScanPlan::Walk
        }),
{
    if cache.is_in_blacklist(path) {
        SingleScanPlan::Skip
    } else if !exists {
        SingleScanPlan::Missing
    } else {
        SingleScanPlan::Walk
    }
}

/// The latch of the bulk scan: it runs at most once per monitor.
pub struct InitialScanner {
    started: bool,
}

impl InitialScanner {
    /// The scan was begun.
    pub closed spec fn started(&self) -> bool {
        self.started
    }

    /// A scanner whose scan has not begun.
    pub fn new() -> (out: InitialScanner)
        ensures
            !out.started(),
    {
        InitialScanner { started: false }
    }

    /// Begins the scan. Only the first call says yes; the latch stays set.
    pub fn try_begin(&mut self) -> (go: bool)
        ensures
            go == !old(self).started(),
            final(self).started(),
    {
        if self.started {
            false
        } else {
            self.started = true;
            true
        }
    }
}

/// The bookkeeping of the walk of one directory.
#[derive(Debug, Clone, Copy, PartialEq, Eq, Structural)]
pub struct DirectoryScan {
    pub total_files: u64,
    pub processed_files: u64,
    pub skipped_files: u64,
    pub skipped_bundles: u64,
}

impl DirectoryScan {
    /// Every visited entry was processed, skipped, or is still under way.
    pub open spec fn wf(self) -> bool {
        self.processed_files + self.skipped_files <= self.total_files
    }

    /// A walk that has seen nothing.
    pub fn new() -> (out: DirectoryScan)
        ensures
            out.wf(),
            out == (DirectoryScan {
                total_files: 0,
                processed_files: 0,
                skipped_files: 0,
                skipped_bundles: 0,
            }),
    {
        DirectoryScan { total_files: 0, processed_files: 0, skipped_files: 0, skipped_bundles: 0 }
    }

    /// Notes that the walk did not enter `path`. A bundle found by its
    /// structure counts as a skipped bundle, and so does one found by its
    /// name at the top of the tree.
    pub fn note_filtered(&mut self, path: &str, skip: WalkSkip)
        requires
            old(self).skipped_bundles < u64::MAX,
        ensures
            *final(self) == (DirectoryScan {
                skipped_bundles: if skip == WalkSkip::BundleByPlist || (skip == WalkSkip::Bundle
                    && is_top_level(path@)) {
                    (old(self).skipped_bundles + 1) as u64
                } else {
                    old(self).skipped_bundles
                },
                ..*old(self)
            }),
    {
        let counts = match skip {
            WalkSkip::BundleByPlist => true,
            WalkSkip::Bundle => path_is_top_level(path),
            _ => false,
        };
        if counts {
            self.skipped_bundles = self.skipped_bundles + 1;
        }
    }

    /// Counts one skipped bundle.
    pub fn note_bundle(&mut self)
        requires
            old(self).skipped_bundles < u64::MAX,
        ensures
            *final(self) == (DirectoryScan {
                skipped_bundles: (old(self).skipped_bundles + 1) as u64,
                ..*old(self)
            }),
    {
        self.skipped_bundles = self.skipped_bundles + 1;
    }

    /// Counts one entry of the walk that is seen and not yet judged.
    pub fn note_entry(&mut self)
        requires
            old(self).wf(),
            old(self).total_files < u64::MAX,
        ensures
            final(self).wf(),
            *final(self) == (DirectoryScan {
                total_files: (old(self).total_files + 1) as u64,
                ..*old(self)
            }),
            final(self).processed_files + final(self).skipped_files < final(self).total_files,
    {
        self.total_files = self.total_files + 1;
    }

    /// Whether every entry seen so far was processed or skipped.
    pub fn is_settled(&self) -> (b: bool)
        ensures
            b == (self.processed_files + self.skipped_files >= self.total_files),
    {
        let done: u128 = self.processed_files as u128 + self.skipped_files as u128;
        done >= self.total_files as u128
    }

    /// Counts one visited entry and says whether to go on with it. Every
    /// `BLACKLIST_RECHECK_PERIOD`-th entry is checked against the blacklist
    /// again, in case the configuration changed during the walk; if it is
    /// blacklisted now, it is counted as skipped and left alone.
    pub fn visit(&mut self, cache: &ConfigurationCache, path: &str) -> (go: bool)
        requires
            cache.wf(),
            old(self).wf(),
            old(self).total_files < u64::MAX,
        ensures
            final(self).wf(),
            final(self).total_files == old(self).total_files + 1,
            final(self).processed_files == old(self).processed_files,
            final(self).skipped_bundles == old(self).skipped_bundles,
            go == !(final(self).total_files % BLACKLIST_RECHECK_PERIOD == 0 && covers(
                blacklist_paths(cache.folders()),
                components(path@),
            )),
            final(self).skipped_files == old(self).skipped_files + (if go {
                0int
            } else {
                1int
            }),
            go ==> final(self).processed_files + final(self).skipped_files
                < final(self).total_files,
    {
        self.total_files = self.total_files + 1;
        if self.total_files % BLACKLIST_RECHECK_PERIOD == 0 && cache.is_in_blacklist(path) {
            self.skipped_files = self.skipped_files + 1;
            false
        } else {
            true
        }
    }

    /// Counts what a visited entry led to: a record counts as processed,
    /// anything else as skipped.
    pub fn note_outcome(&mut self, outcome: &EventOutcome)
        requires
            old(self).processed_files + old(self).skipped_files < old(self).total_files,
        ensures
            final(self).wf(),
            *final(self) == (if outcome@ is Record {
                DirectoryScan {
                    processed_files: (old(self).processed_files + 1) as u64,
                    ..*old(self)
                }
            } else {
                DirectoryScan {
                    skipped_files: (old(self).skipped_files + 1) as u64,
                    ..*old(self)
                }
            }),
    {
        match outcome {
            EventOutcome::Record(_) => {
                self.processed_files = self.processed_files + 1;
            },
            _ => {
                self.skipped_files = self.skipped_files + 1;
            },
        }
    }

    /// Adds the counts of the finished walk to the monitor's counters.
    pub fn finish(&self, stats: &mut MonitorStats)
        requires
            old(stats).processed_files + self.processed_files <= u64::MAX,
            old(stats).filtered_files + self.skipped_files <= u64::MAX,
            old(stats).filtered_bundles + self.skipped_bundles <= u64::MAX,
        ensures
            final(stats).processed_files == old(stats).processed_files + self.processed_files,
            final(stats).filtered_files == old(stats).filtered_files + self.skipped_files,
            final(stats).filtered_bundles == old(stats).filtered_bundles + self.skipped_bundles,
            final(stats).error_count == old(stats).error_count,
    {
        stats.processed_files = stats.processed_files + self.processed_files;
        stats.filtered_files = stats.filtered_files + self.skipped_files;
        stats.filtered_bundles = stats.filtered_bundles + self.skipped_bundles;
    }
}

} // verus!
