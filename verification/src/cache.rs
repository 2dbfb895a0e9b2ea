//! The configuration cache: the last snapshot and what is derived from it.
//!
//! The cache is one owned value. A refresh replaces the snapshot, the
//! monitored directories, the blacklisted directories and the blacklist index
//! in one step, so whoever reads the cache sees all four derived from the
//! same snapshot.

use vstd::prelude::*;
use vstd::string::StringExecFns;
use crate::blacklist::{covers, BlacklistTrie};
use crate::bundle::{is_bundle_folder, is_macos_bundle_folder_with_extensions, PathProbe};
use crate::config::{
    AllConfigurations, ConfigView, DirectoryView, ExtensionMapView, FileExtensionMapRust,
    MonitoredDirectory, RuleTypeRust, RuleView,
};
use crate::paths::{components, components_of, is_component_prefix, path_components, seqs};
use crate::text::{chars_of, lowercased, opt_view, starts_with, str_eq, to_lowercase, views};

verus! {

/// The directories of a list that are blacklist roots (`blacklisted`) or
/// monitoring roots (otherwise), in their order.
pub open spec fn directories_where(folders: Seq<DirectoryView>, blacklisted: bool) -> Seq<
    DirectoryView,
>
    decreases folders.len(),
{
    if folders.len() == 0 {
        Seq::empty()
    } else {
        let rest = directories_where(folders.drop_last(), blacklisted);
        if folders.last().is_blacklist == blacklisted {
            rest.push(folders.last())
        } else {
            rest
        }
    }
}

/// The paths that a list of directories blacklists, each as its components.
pub open spec fn blacklist_paths(folders: Seq<DirectoryView>) -> Set<Seq<Seq<char>>>
    decreases folders.len(),
{
    if folders.len() == 0 {
        Set::empty()
    } else {
        let rest = blacklist_paths(folders.drop_last());
        if folders.last().is_blacklist {
            rest.insert(components(folders.last().path))
        } else {
            rest
        }
    }
}

/// The views of a list of directories.
pub open spec fn directory_views(dirs: Seq<MonitoredDirectory>) -> Seq<DirectoryView> {
    dirs.map_values(|d: MonitoredDirectory| d@)
}

/// The extensions that mark a bundle when the configuration names none.
pub open spec fn fallback_bundle_extensions() -> Seq<Seq<char>> {
    seq![
        ".app"@,
        ".bundle"@,
        ".framework"@,
        ".fcpbundle"@,
        ".photoslibrary"@,
        ".imovielibrary"@,
        ".tvlibrary"@,
        ".theater"@,
        ".plugin"@,
        ".component"@,
        ".colorSync"@,
        ".mdimporter"@,
        ".qlgenerator"@,
        ".saver"@,
        ".service"@,
        ".wdgt"@,
        ".xpc"@,
    ]
}

/// A rule that names a bundle extension: an enabled bundle rule whose
/// pattern starts with a dot.
pub open spec fn names_bundle_extension(rule: RuleView) -> bool {
    rule.rule_type == RuleTypeRust::OSBundle && rule.enabled && rule.pattern.len() > 0
        && rule.pattern[0] == '.'
}

/// The bundle extensions that the rules name, in the rules' order.
pub open spec fn rule_bundle_extensions(rules: Seq<RuleView>) -> Seq<Seq<char>>
    decreases rules.len(),
{
    if rules.len() == 0 {
        Seq::empty()
    } else {
        let rest = rule_bundle_extensions(rules.drop_last());
        if names_bundle_extension(rules.last()) {
            rest.push(rules.last().pattern)
        } else {
            rest
        }
    }
}

/// The bundle extensions in force: the snapshot's own list, else what its
/// rules name, else the fallback list.
pub open spec fn bundle_extensions_of(snapshot: Option<ConfigView>) -> Seq<Seq<char>> {
    match snapshot {
        Some(c) => if c.bundle_extensions.len() > 0 {
            c.bundle_extensions
        } else if rule_bundle_extensions(c.rules).len() > 0 {
            rule_bundle_extensions(c.rules)
        } else {
            fallback_bundle_extensions()
        },
        None => fallback_bundle_extensions(),
    }
}

/// An extension passes the whitelist of an extension table: the table is
/// empty, or it holds the extension, compared in lowercase.
pub open spec fn passes_whitelist(maps: Seq<ExtensionMapView>, extension: Option<Seq<char>>) -> bool {
    maps.len() == 0 || match extension {
        Some(ext) => exists|i: int|
            0 <= i < maps.len() && lowercased((#[trigger] maps[i]).extension) == lowercased(ext),
        None => false,
    }
}

/// `path` with every `~` replaced by `home`.
pub open spec fn with_home(path: Seq<char>, home: Seq<char>) -> Seq<char>
    decreases path.len(),
{
    if path.len() == 0 {
        Seq::empty()
    } else if path.last() == '~' {
        with_home(path.drop_last(), home) + home
    } else {
        with_home(path.drop_last(), home).push(path.last())
    }
}

/// A configured directory path with its leading `~/` resolved, where a home
/// directory is known.
pub open spec fn expanded(path: Seq<char>, home: Option<Seq<char>>) -> Seq<char> {
    match home {
        Some(h) => if seq!['~', '/'].is_prefix_of(path) {
            with_home(path, h)
        } else {
            path
        },
        None => path,
    }
}

/// `path` lies under one of the monitoring roots of `dirs`: the components
/// of the root are the first components of the path.
pub open spec fn under_monitored(dirs: Seq<DirectoryView>, path: Seq<char>, home: Option<Seq<char>>) -> bool {
    exists|i: int|
        0 <= i < dirs.len() && !(#[trigger] dirs[i]).is_blacklist && components(
            expanded(dirs[i].path, home),
        ).is_prefix_of(components(path))
}

/// A copy of a directory record.
pub fn copy_directory(dir: &MonitoredDirectory) -> (out: MonitoredDirectory)
    ensures
        out == *dir,
{
    MonitoredDirectory {
        id: dir.id,
        path: dir.path.clone(),
        alias: match &dir.alias {
            Some(s) => Some(s.clone()),
            None => None,
        },
        is_blacklist: dir.is_blacklist,
        created_at: match &dir.created_at {
            Some(s) => Some(s.clone()),
            None => None,
        },
        updated_at: match &dir.updated_at {
            Some(s) => Some(s.clone()),
            None => None,
        },
    }
}

/// Whether `extension` passes the whitelist of `maps`.
pub fn extension_allowed(maps: &Vec<FileExtensionMapRust>, extension: &Option<String>) -> (b: bool)
    ensures
        b == passes_whitelist(
            maps@.map_values(|m: FileExtensionMapRust| m@),
            opt_view(*extension),
        ),
{
    let ghost rows = maps@.map_values(|m: FileExtensionMapRust| m@);
    if maps.len() == 0 {
        return true;
    }
    let ext = match extension {
        Some(ext) => ext,
        None => {
            return false;
        },
    };
    let wanted = to_lowercase(ext.as_str());
    let mut i: usize = 0;
    while i < maps.len()
        invariant
            i <= maps.len(),
            rows == maps@.map_values(|m: FileExtensionMapRust| m@),
            wanted@ == lowercased(ext@),
            *extension == Some(*ext),
            forall|j: int| 0 <= j < i ==> lowercased((#[trigger] rows[j]).extension) != wanted@,
        decreases maps.len() - i,
    {
        let have = to_lowercase(maps[i].extension.as_str());
        assert(rows[i as int].extension == maps@[i as int].extension@);
        if str_eq(have.as_str(), wanted.as_str()) {
            assert(lowercased(rows[i as int].extension) == lowercased(ext@));
            return true;
        }
        i += 1;
    }
    false
}

/// `path` with every `~` replaced by `home`.
pub fn replace_home(path: &str, home: &str) -> (out: Vec<char>)
    ensures
        out@ == with_home(path@, home@),
{
    let chars = chars_of(path);
    let home_chars = chars_of(home);
    let mut out: Vec<char> = Vec::new();
    let mut i: usize = 0;
    assert(chars@.take(0) =~= Seq::<char>::empty());
    while i < chars.len()
        invariant
            i <= chars.len(),
            chars@ == path@,
            home_chars@ == home@,
            out@ == with_home(chars@.take(i as int), home@),
        decreases chars.len() - i,
    {
        assert(chars@.take(i + 1).drop_last() =~= chars@.take(i as int));
        assert(chars@.take(i + 1).last() == chars@[i as int]);
        if chars[i] == '~' {
            let ghost before = out@;
            let mut k: usize = 0;
            while k < home_chars.len()
                invariant
                    k <= home_chars.len(),
                    out@ == before + home_chars@.take(k as int),
                decreases home_chars.len() - k,
            {
                out.push(home_chars[k]);
                assert(out@ =~= before + home_chars@.take(k + 1));
                k += 1;
            }
            assert(home_chars@.take(home_chars@.len() as int) =~= home_chars@);
        } else {
            out.push(chars[i]);
        }
        i += 1;
    }
    assert(chars@.take(chars@.len() as int) =~= chars@);
    out
}

/// A configured directory path with its leading `~/` resolved.
pub fn expand_home(path: &str, home: &Option<String>) -> (out: Vec<char>)
    ensures
        out@ == expanded(path@, opt_view(*home)),
{
    let chars = chars_of(path);
    match home {
        Some(h) => {
            let mut prefix: Vec<char> = Vec::new();
            prefix.push('~');
            prefix.push('/');
            assert(prefix@ =~= seq!['~', '/']);
            if starts_with(chars.as_slice(), prefix.as_slice()) {
                replace_home(path, h.as_str())
            } else {
                chars
            }
        },
        None => chars,
    }
}

/// Whether two optional strings hold the same characters.
pub fn same_opt_string(a: &Option<String>, b: &Option<String>) -> (r: bool)
    ensures
        r == (opt_view(*a) == opt_view(*b)),
{
    match (a, b) {
        (Some(x), Some(y)) => str_eq(x.as_str(), y.as_str()),
        (None, None) => true,
        _ => false,
    }
}

/// Whether two directory records say the same.
pub fn same_directory(a: &MonitoredDirectory, b: &MonitoredDirectory) -> (r: bool)
    ensures
        r == (a@ == b@),
{
    let same_id = match (a.id, b.id) {
        (Some(x), Some(y)) => x == y,
        (None, None) => true,
        _ => false,
    };
    same_id && str_eq(a.path.as_str(), b.path.as_str()) && same_opt_string(
        &a.alias,
        &b.alias,
    ) && a.is_blacklist == b.is_blacklist && same_opt_string(&a.created_at, &b.created_at)
        && same_opt_string(&a.updated_at, &b.updated_at)
}

/// Two directory lists differ: in length, or `before` holds a record that
/// `after` lacks.
pub open spec fn directories_differ(before: Seq<DirectoryView>, after: Seq<DirectoryView>) -> bool {
    before.len() != after.len() || exists|i: int|
        0 <= i < before.len() && !after.contains(#[trigger] before[i])
}

/// Whether the directory list changed from `before` to `after`.
pub fn directories_changed(before: &Vec<MonitoredDirectory>, after: &Vec<MonitoredDirectory>) -> (r:
    bool)
    ensures
        r == directories_differ(directory_views(before@), directory_views(after@)),
{
    if before.len() != after.len() {
        return true;
    }
    let ghost old_views = directory_views(before@);
    let ghost new_views = directory_views(after@);
    let mut i: usize = 0;
    while i < before.len()
        invariant
            i <= before.len(),
            before.len() == after.len(),
            old_views == directory_views(before@),
            new_views == directory_views(after@),
            forall|x: int| 0 <= x < i ==> new_views.contains(#[trigger] old_views[x]),
        decreases before.len() - i,
    {
        let mut found = false;
        let mut j: usize = 0;
        while j < after.len() && !found
            invariant
                j <= after.len(),
                i < before.len(),
                old_views == directory_views(before@),
                new_views == directory_views(after@),
                found ==> new_views.contains(old_views[i as int]),
                !found ==> forall|y: int| 0 <= y < j ==> new_views[y] != old_views[i as int],
            decreases after.len() - j + (if found { 0int } else { 1int }),
        {
            if same_directory(&before[i], &after[j]) {
                assert(new_views[j as int] == old_views[i as int]);
                found = true;
            } else {
                j += 1;
            }
        }
        if !found {
            assert(!new_views.contains(old_views[i as int]));
            return true;
        }
        i += 1;
    }
    false
}

/// The paths of a list of directories.
pub open spec fn directory_paths(dirs: Seq<DirectoryView>) -> Seq<Seq<char>> {
    dirs.map_values(|d: DirectoryView| d.path)
}

/// Two path lists differ: in length, or `before` holds a path that `after`
/// lacks.
pub open spec fn paths_differ(before: Seq<Seq<char>>, after: Seq<Seq<char>>) -> bool {
    before.len() != after.len() || exists|i: int|
        0 <= i < before.len() && !after.contains(#[trigger] before[i])
}

/// Whether the path list changed from `before` to `after`.
pub fn paths_changed(before: &Vec<String>, after: &Vec<String>) -> (r: bool)
    ensures
        r == paths_differ(views(before@), views(after@)),
{
    if before.len() != after.len() {
        return true;
    }
    let ghost old_paths = views(before@);
    let ghost new_paths = views(after@);
    let mut i: usize = 0;
    while i < before.len()
        invariant
            i <= before.len(),
            before.len() == after.len(),
            old_paths == views(before@),
            new_paths == views(after@),
            forall|x: int| 0 <= x < i ==> new_paths.contains(#[trigger] old_paths[x]),
        decreases before.len() - i,
    {
        let mut found = false;
        let mut j: usize = 0;
        while j < after.len() && !found
            invariant
                j <= after.len(),
                i < before.len(),
                old_paths == views(before@),
                new_paths == views(after@),
                found ==> new_paths.contains(old_paths[i as int]),
                !found ==> forall|y: int| 0 <= y < j ==> new_paths[y] != old_paths[i as int],
            decreases after.len() - j + (if found { 0int } else { 1int }),
        {
            if str_eq(before[i].as_str(), after[j].as_str()) {
                assert(new_paths[j as int] == old_paths[i as int]);
                found = true;
            } else {
                j += 1;
            }
        }
        if !found {
            assert(!new_paths.contains(old_paths[i as int]));
            return true;
        }
        i += 1;
    }
    false
}

/// Counts that describe the cache.
#[derive(Debug, Clone, Copy, PartialEq, Eq, Structural)]
pub struct ConfigurationSummary {
    pub has_config_cache: bool,
    pub config_categories_count: usize,
    pub config_filter_rules_count: usize,
    pub config_extension_maps_count: usize,
    pub full_disk_access: bool,
    pub monitored_dirs_count: usize,
    pub blacklist_dirs_count: usize,
    pub bundle_extensions_count: usize,
    pub timestamp: u64,
}

/// How many enabled bundle rules a rule list holds.
pub open spec fn enabled_bundle_rules(rules: Seq<RuleView>) -> nat
    decreases rules.len(),
{
    if rules.len() == 0 {
        0
    } else {
        enabled_bundle_rules(rules.drop_last()) + (if rules.last().rule_type
            == RuleTypeRust::OSBundle && rules.last().enabled {
            1nat
        } else {
            0nat
        })
    }
}

/// The configuration cache.
pub struct ConfigurationCache {
    snapshot: Option<AllConfigurations>,
    monitored_dirs: Vec<MonitoredDirectory>,
    blacklist_dirs: Vec<MonitoredDirectory>,
    blacklist: BlacklistTrie,
}

impl ConfigurationCache {
    /// The snapshot in the cache.
    pub closed spec fn snapshot(&self) -> Option<AllConfigurations> {
        self.snapshot
    }

    /// The monitoring roots in the cache.
    pub closed spec fn monitored(&self) -> Seq<MonitoredDirectory> {
        self.monitored_dirs@
    }

    /// The blacklist roots in the cache.
    pub closed spec fn blacklisted(&self) -> Seq<MonitoredDirectory> {
        self.blacklist_dirs@
    }

    /// What the blacklist index of the cache holds.
    pub closed spec fn blacklist(&self) -> Set<Seq<Seq<char>>> {
        self.blacklist@
    }

    /// The blacklist index is a well-formed trie.
    pub closed spec fn index_wf(&self) -> bool {
        self.blacklist.wf()
    }

    /// The snapshot as contracts see it.
    pub open spec fn snapshot_view(&self) -> Option<ConfigView> {
        match self.snapshot() {
            Some(c) => Some(c@),
            None => None,
        }
    }

    /// The configured directories of the snapshot; none without a snapshot.
    pub open spec fn folders(&self) -> Seq<DirectoryView> {
        match self.snapshot() {
            Some(c) => c@.folders,
            None => Seq::empty(),
        }
    }

    /// The extension table of the snapshot; empty without a snapshot.
    pub open spec fn extension_maps(&self) -> Seq<ExtensionMapView> {
        match self.snapshot() {
            Some(c) => c@.extension_maps,
            None => Seq::empty(),
        }
    }

    /// Everything derived is derived from the snapshot in the cache: the
    /// monitoring roots are its directories that are not blacklisted, the
    /// blacklist roots are those that are, and the blacklist index holds
    /// exactly the paths of the latter.
    pub open spec fn wf(&self) -> bool {
        &&& self.index_wf()
        &&& directory_views(self.monitored()) == directories_where(self.folders(), false)
        &&& directory_views(self.blacklisted()) == directories_where(self.folders(), true)
        &&& self.blacklist() == blacklist_paths(self.folders())
    }

    /// A cache without a snapshot: nothing monitored, nothing blacklisted.
    pub fn new() -> (out: ConfigurationCache)
        ensures
            out.wf(),
            out.snapshot() is None,
    {
        let out = ConfigurationCache {
            snapshot: None,
            monitored_dirs: Vec::new(),
            blacklist_dirs: Vec::new(),
            blacklist: BlacklistTrie::new(),
        };
        assert(directory_views(out.monitored()) =~= Seq::<DirectoryView>::empty());
        assert(directory_views(out.blacklisted()) =~= Seq::<DirectoryView>::empty());
        out
    }

    /// Replaces the snapshot and, in the same step, everything derived from it.
    pub fn store_configuration(&mut self, config: AllConfigurations)
        ensures
            final(self).wf(),
            final(self).snapshot() == Some(config),
    {
        let mut monitored: Vec<MonitoredDirectory> = Vec::new();
        let mut blacklisted: Vec<MonitoredDirectory> = Vec::new();
        let mut index = BlacklistTrie::new();
        let ghost folders = config@.folders;
        let mut i: usize = 0;
        assert(folders.take(0) =~= Seq::<DirectoryView>::empty());
        assert(directory_views(monitored@) =~= Seq::<DirectoryView>::empty());
        assert(directory_views(blacklisted@) =~= Seq::<DirectoryView>::empty());
        while i < config.monitored_folders.len()
            invariant
                i <= config.monitored_folders.len(),
                folders == config@.folders,
                index.wf(),
                directory_views(monitored@) == directories_where(folders.take(i as int), false),
                directory_views(blacklisted@) == directories_where(folders.take(i as int), true),
                index@ == blacklist_paths(folders.take(i as int)),
            decreases config.monitored_folders.len() - i,
        {
            let dir = &config.monitored_folders[i];
            assert(folders.take(i + 1).drop_last() =~= folders.take(i as int));
            assert(folders.take(i + 1).last() == dir@);
            let ghost kept = directory_views(monitored@);
            let ghost banned = directory_views(blacklisted@);
            if dir.is_blacklist {
                blacklisted.push(copy_directory(dir));
                index.insert(dir.path.as_str());
                assert(directory_views(blacklisted@) =~= banned.push(dir@));
            } else {
                monitored.push(copy_directory(dir));
                assert(directory_views(monitored@) =~= kept.push(dir@));
            }
            i += 1;
        }
        assert(folders.take(folders.len() as int) =~= folders);
        self.snapshot = Some(config);
        self.monitored_dirs = monitored;
        self.blacklist_dirs = blacklisted;
        self.blacklist = index;
    }

    /// Replaces the snapshot as [`ConfigurationCache::store_configuration`]
    /// does and says whether the folders changed: whether the paths of the
    /// monitoring roots or the records of the blacklist roots differ from
    /// what the cache held before.
    pub fn refresh_folder_configuration(&mut self, config: AllConfigurations) -> (changed: bool)
        ensures
            final(self).wf(),
            final(self).snapshot() == Some(config),
            changed == (paths_differ(
                directory_paths(directory_views(old(self).monitored())),
                directory_paths(directory_views(final(self).monitored())),
            ) || directories_differ(
                directory_views(old(self).blacklisted()),
                directory_views(final(self).blacklisted()),
            )),
    {
        let monitored_before = self.get_monitored_dirs();
        let mut blacklisted_before: Vec<MonitoredDirectory> = Vec::new();
        std::mem::swap(&mut blacklisted_before, &mut self.blacklist_dirs);
        assert(views(monitored_before@) =~= directory_paths(
            directory_views(old(self).monitored()),
        ));
        self.store_configuration(config);
        let monitored_after = self.get_monitored_dirs();
        assert(views(monitored_after@) =~= directory_paths(directory_views(self.monitored())));
        let monitored_changed = paths_changed(&monitored_before, &monitored_after);
        let blacklist_changed = directories_changed(&blacklisted_before, &self.blacklist_dirs);
        monitored_changed || blacklist_changed
    }

    /// The snapshot, if one was stored.
    pub fn get_configurations(&self) -> (out: Option<&AllConfigurations>)
        ensures
            match out {
                Some(c) => self.snapshot() == Some(*c),
                None => self.snapshot() is None,
            },
    {
        self.snapshot.as_ref()
    }

    /// The monitoring roots.
    pub fn get_monitored_directories(&self) -> (out: &Vec<MonitoredDirectory>)
        ensures
            out@ == self.monitored(),
    {
        &self.monitored_dirs
    }

    /// The blacklist roots.
    pub fn get_blacklisted_directories(&self) -> (out: &Vec<MonitoredDirectory>)
        ensures
            out@ == self.blacklisted(),
    {
        &self.blacklist_dirs
    }

    /// The paths of the monitoring roots, in their order.
    pub fn get_monitored_dirs(&self) -> (out: Vec<String>)
        ensures
            out@.len() == self.monitored().len(),
            forall|i: int| 0 <= i < out@.len() ==> out@[i]@ == self.monitored()[i].path@,
    {
        let mut out: Vec<String> = Vec::new();
        let mut i: usize = 0;
        while i < self.monitored_dirs.len()
            invariant
                i <= self.monitored_dirs.len(),
                out@.len() == i,
                forall|j: int| 0 <= j < i ==> out@[j]@ == self.monitored_dirs@[j].path@,
            decreases self.monitored_dirs.len() - i,
        {
            out.push(self.monitored_dirs[i].path.clone());
            i += 1;
        }
        out
    }

    /// Whether `path` or one of its ancestors is a blacklist root.
    pub fn is_in_blacklist(&self, path: &str) -> (b: bool)
        requires
            self.wf(),
        ensures
            b == covers(blacklist_paths(self.folders()), components(path@)),
    {
        self.blacklist.is_path_or_ancestor_blacklisted(path)
    }

    /// Whether `path` lies under a monitoring root. `home` is the home
    /// directory, where one is known; it resolves a root written as `~/...`.
    pub fn belongs_to_monitored_dir(&self, path: &str, home: &Option<String>) -> (b: bool)
        ensures
            b == under_monitored(
                directory_views(self.monitored()),
                path@,
                opt_view(*home),
            ),
    {
        let wanted = path_components(path);
        let ghost dirs = directory_views(self.monitored());
        let ghost h = opt_view(*home);
        let mut i: usize = 0;
        while i < self.monitored_dirs.len()
            invariant
                i <= self.monitored_dirs.len(),
                seqs(wanted@) == components(path@),
                dirs == directory_views(self.monitored()),
                h == opt_view(*home),
                forall|j: int|
                    0 <= j < i ==> !(!(#[trigger] dirs[j]).is_blacklist && components(
                        expanded(dirs[j].path, h),
                    ).is_prefix_of(components(path@))),
            decreases self.monitored_dirs.len() - i,
        {
            let dir = &self.monitored_dirs[i];
            assert(dirs[i as int] == dir@);
            if !dir.is_blacklist {
                let root = expand_home(dir.path.as_str(), home);
                let root_components = components_of(root.as_slice());
                if is_component_prefix(&root_components, &wanted) {
                    return true;
                }
            }
            i += 1;
        }
        false
    }

    /// The bundle extensions in force.
    pub fn extract_bundle_extensions(&self) -> (out: Vec<String>)
        ensures
            views(out@) == bundle_extensions_of(self.snapshot_view()),
    {
        match &self.snapshot {
            Some(config) => {
                if config.bundle_extensions.len() > 0 {
                    let mut out: Vec<String> = Vec::new();
                    let mut i: usize = 0;
                    while i < config.bundle_extensions.len()
                        invariant
                            i <= config.bundle_extensions.len(),
                            views(out@) == views(config.bundle_extensions@).take(i as int),
                        decreases config.bundle_extensions.len() - i,
                    {
                        let ghost before = views(out@);
                        out.push(config.bundle_extensions[i].clone());
                        assert(views(out@) =~= before.push(config.bundle_extensions@[i as int]@));
                        assert(views(out@) =~= views(config.bundle_extensions@).take(i + 1));
                        i += 1;
                    }
                    assert(views(config.bundle_extensions@).take(
                        config.bundle_extensions@.len() as int,
                    ) =~= views(config.bundle_extensions@));
                    return out;
                }
                let ghost rules = config@.rules;
                let mut out: Vec<String> = Vec::new();
                let mut i: usize = 0;
                assert(rules.take(0) =~= Seq::<RuleView>::empty());
                assert(views(out@) =~= Seq::<Seq<char>>::empty());
                while i < config.file_filter_rules.len()
                    invariant
                        i <= config.file_filter_rules.len(),
                        rules == config@.rules,
                        views(out@) == rule_bundle_extensions(rules.take(i as int)),
                    decreases config.file_filter_rules.len() - i,
                {
                    let rule = &config.file_filter_rules[i];
                    assert(rules.take(i + 1).drop_last() =~= rules.take(i as int));
                    assert(rules.take(i + 1).last() == rule@);
                    let is_bundle_rule = match rule.rule_type {
                        RuleTypeRust::OSBundle => true,
                        _ => false,
                    };
                    if is_bundle_rule && rule.enabled {
                        let pattern = chars_of(rule.pattern.as_str());
                        if pattern.len() > 0 && pattern[0] == '.' {
                            let ghost before = views(out@);
                            out.push(rule.pattern.clone());
                            assert(views(out@) =~= before.push(rule@.pattern));
                        }
                    }
                    i += 1;
                }
                assert(rules.take(rules.len() as int) =~= rules);
                if out.len() > 0 {
                    return out;
                }
            },
            None => {},
        }
        let mut out: Vec<String> = Vec::new();
        out.push(String::from_str(".app"));
        out.push(String::from_str(".bundle"));
        out.push(String::from_str(".framework"));
        out.push(String::from_str(".fcpbundle"));
        out.push(String::from_str(".photoslibrary"));
        out.push(String::from_str(".imovielibrary"));
        out.push(String::from_str(".tvlibrary"));
        out.push(String::from_str(".theater"));
        out.push(String::from_str(".plugin"));
        out.push(String::from_str(".component"));
        out.push(String::from_str(".colorSync"));
        out.push(String::from_str(".mdimporter"));
        out.push(String::from_str(".qlgenerator"));
        out.push(String::from_str(".saver"));
        out.push(String::from_str(".service"));
        out.push(String::from_str(".wdgt"));
        out.push(String::from_str(".xpc"));
        assert(views(out@) =~= fallback_bundle_extensions());
        out
    }

    /// Whether `path` is a bundle folder by the bundle extensions in force.
    pub fn check_if_macos_bundle(&self, path: &str, probe: &PathProbe) -> (b: bool)
        ensures
            b == is_bundle_folder(path@, bundle_extensions_of(self.snapshot_view()), *probe),
    {
        let extensions = self.extract_bundle_extensions();
        is_macos_bundle_folder_with_extensions(path, &extensions, probe)
    }

    /// Whether `extension` passes the whitelist of the snapshot's extension
    /// table. Without a snapshot everything passes.
    pub fn extension_in_whitelist(&self, extension: &Option<String>) -> (b: bool)
        ensures
            b == passes_whitelist(self.extension_maps(), opt_view(*extension)),
    {
        match &self.snapshot {
            Some(config) => extension_allowed(&config.file_extension_maps, extension),
            None => true,
        }
    }

    /// The counts that describe the cache, stamped with `timestamp`.
    pub fn get_configuration_summary(&self, timestamp: u64) -> (out: ConfigurationSummary)
        ensures
            out.has_config_cache == (self.snapshot() is Some),
            out.timestamp == timestamp,
            out.monitored_dirs_count == self.monitored().len(),
            out.blacklist_dirs_count == self.blacklisted().len(),
            match self.snapshot() {
                Some(c) => {
                    &&& out.config_categories_count == c.file_categories@.len()
                    &&& out.config_filter_rules_count == c.file_filter_rules@.len()
                    &&& out.config_extension_maps_count == c.file_extension_maps@.len()
                    &&& out.full_disk_access == c.full_disk_access
                    &&& out.bundle_extensions_count == enabled_bundle_rules(c@.rules)
                },
                None => {
                    &&& out.config_categories_count == 0
                    &&& out.config_filter_rules_count == 0
                    &&& out.config_extension_maps_count == 0
                    &&& !out.full_disk_access
                    &&& out.bundle_extensions_count == 0
                },
            },
    {
        let mut out = ConfigurationSummary {
            has_config_cache: false,
            config_categories_count: 0,
            config_filter_rules_count: 0,
            config_extension_maps_count: 0,
            full_disk_access: false,
            monitored_dirs_count: self.monitored_dirs.len(),
            blacklist_dirs_count: self.blacklist_dirs.len(),
            bundle_extensions_count: 0,
            timestamp,
        };
        match &self.snapshot {
            Some(config) => {
                let ghost rules = config@.rules;
                let mut count: usize = 0;
                let mut i: usize = 0;
                assert(rules.take(0) =~= Seq::<RuleView>::empty());
                while i < config.file_filter_rules.len()
                    invariant
                        i <= config.file_filter_rules.len(),
                        rules == config@.rules,
                        count == enabled_bundle_rules(rules.take(i as int)),
                        count <= i,
                    decreases config.file_filter_rules.len() - i,
                {
                    let rule = &config.file_filter_rules[i];
                    assert(rules.take(i + 1).drop_last() =~= rules.take(i as int));
                    assert(rules.take(i + 1).last() == rule@);
                    let is_bundle_rule = match rule.rule_type {
                        RuleTypeRust::OSBundle => true,
                        _ => false,
                    };
                    if is_bundle_rule && rule.enabled {
                        count += 1;
                    }
                    i += 1;
                }
                assert(rules.take(rules.len() as int) =~= rules);
                out.has_config_cache = true;
                out.config_categories_count = config.file_categories.len();
                out.config_filter_rules_count = config.file_filter_rules.len();
                out.config_extension_maps_count = config.file_extension_maps.len();
                out.full_disk_access = config.full_disk_access;
                out.bundle_extensions_count = count;
            },
            None => {},
        }
        out
    }
}

/// A reader of the cache never sees derived data of two snapshots: the
/// monitoring roots, the blacklist roots and the blacklist index of a
/// well-formed cache all come from the one snapshot it holds, and a path is
/// blacklisted exactly when a blacklist root of that snapshot is a prefix of
/// it.
pub proof fn lemma_cache_is_of_one_snapshot(cache: ConfigurationCache, path: Seq<char>)
    requires
        cache.wf(),
    ensures
        directory_views(cache.monitored()) == directories_where(cache.folders(), false),
        directory_views(cache.blacklisted()) == directories_where(cache.folders(), true),
        cache.blacklist() == blacklist_paths(cache.folders()),
        cache.snapshot() is None ==> cache.monitored().len() == 0 && cache.blacklisted().len()
            == 0 && !covers(cache.blacklist(), components(path)),
{
    if cache.snapshot() is None {
        assert(directory_views(cache.monitored()).len() == 0);
        assert(directory_views(cache.blacklisted()).len() == 0);
    }
}

} // verus!
