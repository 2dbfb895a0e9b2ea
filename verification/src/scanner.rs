//! On-demand scans: which files of the monitored directories a query for a
//! time range or a file type returns.
//!
//! The walk over the directories is the caller's. For each entry it finds,
//! the caller hands over path, stat and formatted times, and the functions
//! here decide whether the entry is part of the answer.

use vstd::prelude::*;
use vstd::string::StringExecFns;
use crate::bundle::{
    ancestors_of, bundle_extension_matches, default_bundle_extension_list,
    default_bundle_extensions, enclosing_bundle_of, find_containing_bundle, has_bundle_suffix,
    is_confirmed_bundle, is_inside_macos_bundle, is_macos_bundle, path_has_bundle_suffix, PathProbe,
};
use crate::config::{
    mapping_for, ExtensionMapView, FileExtensionMapRust, FileScanningConfig, MonitoredDirectory,
};
use crate::paths::{
    components, extension_of, file_name, file_name_of, get_file_extension, is_hidden_file,
    is_hidden_path, path_components, seqs,
};
use crate::text::{chars_of, lowercased, opt_view, str_eq, string_of, to_lowercase, views};

verus! {

/// A scan returns at most this many files.
pub const SCAN_RESULT_LIMIT: usize = 500;

/// A file of a scan result. Times are formatted by the caller.
#[derive(Debug, Clone)]
pub struct FileInfo {
    pub file_path: String,
    pub file_name: String,
    pub file_size: u64,
    pub extension: Option<String>,
    pub created_time: Option<String>,
    pub modified_time: String,
    pub category_id: Option<i32>,
}

/// How far back a scan looks.
#[derive(Debug, Clone, Copy, PartialEq, Eq, Structural)]
pub enum TimeRange {
    Today,
    Last7Days,
    Last30Days,
}

/// The kind of file a scan looks for.
#[derive(Debug, Clone, Copy, PartialEq, Eq, Structural)]
pub enum FileType {
    Image,
    AudioVideo,
    Archive,
    Document,
    All,
}

/// A scan result as contracts see it.
pub struct FileInfoView {
    pub file_path: Seq<char>,
    pub file_name: Seq<char>,
    pub file_size: u64,
    pub extension: Option<Seq<char>>,
    pub created_time: Option<Seq<char>>,
    pub modified_time: Seq<char>,
    pub category_id: Option<i32>,
}

impl View for FileInfo {
    type V = FileInfoView;

    open spec fn view(&self) -> FileInfoView {
        FileInfoView {
            file_path: self.file_path@,
            file_name: self.file_name@,
            file_size: self.file_size,
            extension: opt_view(self.extension),
            created_time: opt_view(self.created_time),
            modified_time: self.modified_time@,
            category_id: self.category_id,
        }
    }
}

/// The category ids that a file type stands for; none for `All`.
pub open spec fn category_ids_of(file_type: FileType) -> Seq<i32> {
    match file_type {
        FileType::Image => seq![2i32],
        FileType::AudioVideo => seq![3i32],
        FileType::Archive => seq![4i32],
        FileType::Document => seq![1i32],
        FileType::All => Seq::empty(),
    }
}

/// The category ids that `file_type` stands for.
pub fn get_category_ids_for_file_type(file_type: &FileType) -> (out: Vec<i32>)
    ensures
        out@ == category_ids_of(*file_type),
{
    let mut out: Vec<i32> = Vec::new();
    match file_type {
        FileType::Image => {
            out.push(2);
        },
        FileType::AudioVideo => {
            out.push(3);
        },
        FileType::Archive => {
            out.push(4);
        },
        FileType::Document => {
            out.push(1);
        },
        FileType::All => {},
    }
    assert(out@ =~= category_ids_of(*file_type));
    out
}

/// Whether a list of category ids holds `id`.
pub fn has_category(ids: &Vec<i32>, id: i32) -> (b: bool)
    ensures
        b == ids@.contains(id),
{
    let mut i: usize = 0;
    while i < ids.len()
        invariant
            i <= ids.len(),
            forall|j: int| 0 <= j < i ==> ids@[j] != id,
        decreases ids.len() - i,
    {
        if ids[i] == id {
            return true;
        }
        i += 1;
    }
    false
}

/// A file with this extension is of the type: every file is of type `All`;
/// for another type the extension table must map the extension, compared in
/// lowercase, to one of the type's categories.
pub open spec fn file_is_of_type(
    extension: Option<Seq<char>>,
    file_type: FileType,
    maps: Seq<ExtensionMapView>,
) -> bool {
    file_type == FileType::All || match extension {
        Some(ext) => exists|i: int|
            0 <= i < maps.len() && lowercased((#[trigger] maps[i]).extension) == lowercased(ext)
                && category_ids_of(file_type).contains(maps[i].category_id),
        None => false,
    }
}

/// Whether a file with this extension is of the given type.
pub fn is_file_of_type(
    extension: &Option<String>,
    file_type: &FileType,
    extension_maps: &Vec<FileExtensionMapRust>,
) -> (b: bool)
    ensures
        b == file_is_of_type(
            opt_view(*extension),
            *file_type,
            extension_maps@.map_values(|m: FileExtensionMapRust| m@),
        ),
{
    match file_type {
        FileType::All => {
            return true;
        },
        _ => {},
    }
    let ext = match extension {
        Some(ext) => ext,
        None => {
            return false;
        },
    };
    let wanted = to_lowercase(ext.as_str());
    let ids = get_category_ids_for_file_type(file_type);
    let ghost rows = extension_maps@.map_values(|m: FileExtensionMapRust| m@);
    let mut i: usize = 0;
    while i < extension_maps.len()
        invariant
            i <= extension_maps.len(),
            rows == extension_maps@.map_values(|m: FileExtensionMapRust| m@),
            wanted@ == lowercased(ext@),
            *extension == Some(*ext),
            *file_type != FileType::All,
            ids@ == category_ids_of(*file_type),
            forall|j: int|
                0 <= j < i ==> !(lowercased((#[trigger] rows[j]).extension) == wanted@
                    && category_ids_of(*file_type).contains(rows[j].category_id)),
        decreases extension_maps.len() - i,
    {
        let row = &extension_maps[i];
        assert(rows[i as int] == row@);
        let have = to_lowercase(row.extension.as_str());
        if str_eq(have.as_str(), wanted.as_str()) && has_category(&ids, row.category_id) {
            assert(lowercased(rows[i as int].extension) == lowercased(ext@)
                && category_ids_of(*file_type).contains(rows[i as int].category_id));
            return true;
        }
        i += 1;
    }
    false
}

/// How many seconds a time range reaches back.
pub open spec fn range_seconds(range: TimeRange) -> int {
    match range {
        TimeRange::Today => 86_400int,
        TimeRange::Last7Days => 604_800int,
        TimeRange::Last30Days => 2_592_000int,
    }
}

/// A modification time lies in a range that ends now: it is no earlier than
/// the range's length before now. A time that no clock can hold lies in no
/// range.
pub open spec fn in_time_range(
    modified_time_secs: u64,
    range: TimeRange,
    now_secs: u64,
    now_subsec_nanos: u32,
) -> bool {
    modified_time_secs <= i64::MAX && (modified_time_secs + range_seconds(range))
        * 1_000_000_000 >= now_secs * 1_000_000_000 + now_subsec_nanos
}

/// Whether a file modified at `modified_time_secs` lies in `time_range`,
/// seen from the time `now_secs` and `now_subsec_nanos`, both counted from
/// the epoch.
pub fn is_file_in_time_range(
    modified_time_secs: u64,
    time_range: &TimeRange,
    now_secs: u64,
    now_subsec_nanos: u32,
) -> (b: bool)
    ensures
        b == in_time_range(modified_time_secs, *time_range, now_secs, now_subsec_nanos),
{
    if modified_time_secs > 0x7fff_ffff_ffff_ffff {
        return false;
    }
    let window: u64 = match time_range {
        TimeRange::Today => 86_400,
        TimeRange::Last7Days => 604_800,
        TimeRange::Last30Days => 2_592_000,
    };
    let end: u128 = (modified_time_secs as u128 + window as u128) * 1_000_000_000;
    let now: u128 = now_secs as u128 * 1_000_000_000 + now_subsec_nanos as u128;
    end >= now
}

/// Why a scan leaves an entry out.
#[derive(Debug, Clone, Copy, PartialEq, Eq, Structural)]
pub enum ScanSkip {
    /// The path is hidden.
    Hidden,
    /// The path is a bundle that the scan does not report.
    Bundle,
    /// The path lies inside a bundle.
    InsideBundle,
    /// The path lies in a directory called `Cache`, in any casing.
    CacheDirectory,
    /// The entry is not a regular file.
    NotAFile,
    /// The extension is not in the extension table.
    ExtensionFiltered,
    /// The file has no extension.
    NoExtension,
    /// The file is not of the type asked for.
    WrongType,
    /// The modification time could not be had.
    NoMetadata,
    /// The file was modified before the time range.
    OutOfRange,
}

/// What the caller found out about one entry of the walk.
#[derive(Debug, Clone)]
pub struct EntryFacts {
    pub probe: PathProbe,
    /// The size of the entry in bytes.
    pub size: u64,
    /// When the entry was modified, in seconds since the epoch, where known.
    pub modified_secs: Option<u64>,
    /// The creation time, formatted, where known.
    pub created_time: Option<String>,
    /// The modification time, formatted.
    pub modified_time: String,
}

/// The current time, counted from the epoch.
#[derive(Debug, Clone, Copy, PartialEq, Eq, Structural)]
pub struct Now {
    pub secs: u64,
    pub subsec_nanos: u32,
}

/// A component that names a cache directory: `cache` in any casing.
pub open spec fn is_cache_name(name: Seq<char>) -> bool {
    &&& name.len() == 5
    &&& (name[0] == 'c' || name[0] == 'C')
    &&& (name[1] == 'a' || name[1] == 'A')
    &&& (name[2] == 'c' || name[2] == 'C')
    &&& (name[3] == 'h' || name[3] == 'H')
    &&& (name[4] == 'e' || name[4] == 'E')
}

/// One of the path's components names a cache directory.
pub open spec fn in_cache_directory(path: Seq<char>) -> bool {
    exists|i: int| 0 <= i < components(path).len() && is_cache_name(#[trigger] components(path)[i])
}

/// Whether one of the components of `path` names a cache directory.
pub fn path_in_cache_directory(path: &str) -> (b: bool)
    ensures
        b == in_cache_directory(path@),
{
    let comps = path_components(path);
    let mut i: usize = 0;
    while i < comps.len()
        invariant
            i <= comps.len(),
            seqs(comps@) == components(path@),
            forall|j: int| 0 <= j < i ==> !is_cache_name(#[trigger] components(path@)[j]),
        decreases comps.len() - i,
    {
        let name = &comps[i];
        assert(components(path@)[i as int] == name@);
        if name.len() == 5 && (name[0] == 'c' || name[0] == 'C') && (name[1] == 'a' || name[1]
            == 'A') && (name[2] == 'c' || name[2] == 'C') && (name[3] == 'h' || name[3] == 'H')
            && (name[4] == 'e' || name[4] == 'E') {
            return true;
        }
        i += 1;
    }
    false
}

/// The category of the first row of the extension table whose extension,
/// in lowercase, is `ext` in lowercase.
pub open spec fn category_for(maps: Seq<ExtensionMapView>, ext: Seq<char>) -> Option<i32>
    decreases maps.len(),
{
    if maps.len() == 0 {
        None
    } else if lowercased(maps[0].extension) == lowercased(ext) {
        Some(maps[0].category_id)
    } else {
        category_for(maps.drop_first(), ext)
    }
}

/// The category that the extension table gives an extension.
pub fn find_category(maps: &Vec<FileExtensionMapRust>, ext: &str) -> (out: Option<i32>)
    ensures
        out == category_for(maps@.map_values(|m: FileExtensionMapRust| m@), ext@),
{
    let ghost rows = maps@.map_values(|m: FileExtensionMapRust| m@);
    let wanted = to_lowercase(ext);
    assert(rows.skip(0) =~= rows);
    let mut i: usize = 0;
    while i < maps.len()
        invariant
            i <= maps.len(),
            rows == maps@.map_values(|m: FileExtensionMapRust| m@),
            wanted@ == lowercased(ext@),
            category_for(rows, ext@) == category_for(rows.skip(i as int), ext@),
        decreases maps.len() - i,
    {
        assert(rows.skip(i as int).drop_first() =~= rows.skip(i + 1));
        assert(rows.skip(i as int)[0] == maps[i as int]@);
        let have = to_lowercase(maps[i].extension.as_str());
        if str_eq(have.as_str(), wanted.as_str()) {
            return Some(maps[i].category_id);
        }
        i += 1;
    }
    None
}

/// A file of this type and category passes the type filter: no type is
/// asked for, the type is `All`, or the category is one of the type's.
pub open spec fn category_passes(file_type: Option<FileType>, category_id: i32) -> bool {
    match file_type {
        Some(ft) => ft == FileType::All || category_ids_of(ft).len() == 0 || category_ids_of(
            ft,
        ).contains(category_id),
        None => true,
    }
}

/// Whether a file of this category passes the type filter.
pub fn category_allowed(file_type: &Option<FileType>, category_id: i32) -> (b: bool)
    ensures
        b == category_passes(*file_type, category_id),
{
    match file_type {
        Some(ft) => {
            match ft {
                FileType::All => {
                    return true;
                },
                _ => {},
            }
            let ids = get_category_ids_for_file_type(ft);
            ids.len() == 0 || has_category(&ids, category_id)
        },
        None => true,
    }
}

/// The modification time passes the time filter: no range is asked for, or
/// the time lies in the range.
pub open spec fn time_passes(time_range: Option<TimeRange>, modified_secs: u64, now: Now) -> bool {
    match time_range {
        Some(range) => in_time_range(modified_secs, range, now.secs, now.subsec_nanos),
        None => true,
    }
}

/// Whether the modification time passes the time filter.
pub fn time_allowed(time_range: &Option<TimeRange>, modified_secs: u64, now: &Now) -> (b: bool)
    ensures
        b == time_passes(*time_range, modified_secs, *now),
{
    match time_range {
        Some(range) => is_file_in_time_range(modified_secs, range, now.secs, now.subsec_nanos),
        None => true,
    }
}

/// The scan result for a path with the given facts.
pub open spec fn file_info_of(
    path: Seq<char>,
    extension: Option<Seq<char>>,
    category_id: Option<i32>,
    size: u64,
    created_time: Option<Seq<char>>,
    modified_time: Seq<char>,
) -> FileInfoView {
    FileInfoView {
        file_path: path,
        file_name: match file_name_of(path) {
            Some(name) => name,
            None => Seq::empty(),
        },
        file_size: size,
        extension,
        created_time,
        modified_time,
        category_id,
    }
}

/// Builds the scan result of an entry.
pub fn make_file_info(
    path: &str,
    extension: Option<String>,
    category_id: Option<i32>,
    facts: &EntryFacts,
) -> (out: FileInfo)
    ensures
        out@ == file_info_of(
            path@,
            opt_view(extension),
            category_id,
            facts.size,
            opt_view(facts.created_time),
            facts.modified_time@,
        ),
{
    let chars = chars_of(path);
    let name = match file_name(path) {
        Some(name) => string_of(name.as_slice()),
        None => String::new(),
    };
    FileInfo {
        file_path: string_of(chars.as_slice()),
        file_name: name,
        file_size: facts.size,
        extension,
        created_time: match &facts.created_time {
            Some(t) => Some(t.clone()),
            None => None,
        },
        modified_time: facts.modified_time.clone(),
        category_id,
    }
}

/// The path is a bundle for a filtered scan: by the default extensions, or
/// as a directory that holds `Contents/Info.plist` on a platform with
/// bundles.
pub open spec fn is_scan_bundle(path: Seq<char>, probe: PathProbe) -> bool {
    path.len() > 0 && (has_bundle_suffix(path, default_bundle_extensions()) || (probe.is_dir
        && probe.on_macos && probe.has_info_plist))
}

/// Whether `path` is a bundle folder for a filtered scan.
pub fn is_macos_bundle_folder(path: &str, probe: &PathProbe) -> (b: bool)
    ensures
        b == is_scan_bundle(path@, *probe),
{
    if path.unicode_len() == 0 {
        return false;
    }
    let extensions = default_bundle_extension_list();
    if path_has_bundle_suffix(path, &extensions) {
        return true;
    }
    probe.is_dir && probe.on_macos && probe.has_info_plist
}

/// Why a filtered scan leaves an entry out, if it does.
pub open spec fn filter_skip(
    path: Seq<char>,
    probe: PathProbe,
    modified_secs: Option<u64>,
    maps: Seq<ExtensionMapView>,
    time_range: Option<TimeRange>,
    file_type: Option<FileType>,
    now: Now,
) -> Option<ScanSkip> {
    let ext = extension_of(path);
    if is_hidden_path(path) {
        Some(ScanSkip::Hidden)
    } else if is_scan_bundle(path, probe) {
        Some(ScanSkip::Bundle)
    } else if enclosing_bundle_of(path, default_bundle_extensions()) is Some {
        Some(ScanSkip::InsideBundle)
    } else if in_cache_directory(path) {
        Some(ScanSkip::CacheDirectory)
    } else if !probe.is_file {
        Some(ScanSkip::NotAFile)
    } else if ext is Some && category_for(maps, ext->0) is None {
        Some(ScanSkip::ExtensionFiltered)
    } else if ext is None && file_type != Some(FileType::All) {
        Some(ScanSkip::NoExtension)
    } else if file_type is Some && !file_is_of_type(ext, file_type->0, maps) {
        Some(ScanSkip::WrongType)
    } else if modified_secs is None {
        Some(ScanSkip::NoMetadata)
    } else if !time_passes(time_range, modified_secs->0, now) {
        Some(ScanSkip::OutOfRange)
    } else {
        None
    }
}

/// Decides whether a filtered scan returns an entry. It returns regular
/// files that are not hidden, not part of a bundle or a cache directory,
/// whose extension is in the extension table, and that pass the type and
/// time filters; the category is the table's for the extension.
pub fn scan_entry_with_filter(
    path: &str,
    facts: &EntryFacts,
    extension_maps: &Vec<FileExtensionMapRust>,
    time_range: &Option<TimeRange>,
    file_type: &Option<FileType>,
    now: &Now,
) -> (out: Result<FileInfo, ScanSkip>)
    ensures
        match out {
            Ok(info) => filter_skip(
                path@,
                facts.probe,
                facts.modified_secs,
                extension_maps@.map_values(|m: FileExtensionMapRust| m@),
                *time_range,
                *file_type,
                *now,
            ) is None && info@ == file_info_of(
                path@,
                extension_of(path@),
                match extension_of(path@) {
                    Some(ext) => category_for(
                        extension_maps@.map_values(|m: FileExtensionMapRust| m@),
                        ext,
                    ),
                    None => None,
                },
                facts.size,
                opt_view(facts.created_time),
                facts.modified_time@,
            ),
            Err(skip) => filter_skip(
                path@,
                facts.probe,
                facts.modified_secs,
                extension_maps@.map_values(|m: FileExtensionMapRust| m@),
                *time_range,
                *file_type,
                *now,
            ) == Some(skip),
        },
{
    if is_hidden_file(path) {
        return Err(ScanSkip::Hidden);
    }
    if is_macos_bundle_folder(path, &facts.probe) {
        return Err(ScanSkip::Bundle);
    }
    if is_inside_macos_bundle(path).is_some() {
        return Err(ScanSkip::InsideBundle);
    }
    if path_in_cache_directory(path) {
        return Err(ScanSkip::CacheDirectory);
    }
    if !facts.probe.is_file {
        return Err(ScanSkip::NotAFile);
    }
    let extension = get_file_extension(path);
    let category_id = match &extension {
        Some(ext) => {
            let found = find_category(extension_maps, ext.as_str());
            if found.is_none() {
                return Err(ScanSkip::ExtensionFiltered);
            }
            found
        },
        None => {
            let all = match file_type {
                Some(FileType::All) => true,
                _ => false,
            };
            if !all {
                return Err(ScanSkip::NoExtension);
            }
            None
        },
    };
    match file_type {
        Some(ft) => {
            if !is_file_of_type(&extension, ft, extension_maps) {
                return Err(ScanSkip::WrongType);
            }
        },
        None => {},
    }
    let modified_secs = match facts.modified_secs {
        Some(secs) => secs,
        None => {
            return Err(ScanSkip::NoMetadata);
        },
    };
    if !time_allowed(time_range, modified_secs, now) {
        return Err(ScanSkip::OutOfRange);
    }
    Ok(make_file_info(path, extension, category_id, facts))
}

/// Whether a scan that has `found` files has reached its limit.
pub fn scan_limit_reached(found: usize) -> (b: bool)
    ensures
        b == (found >= SCAN_RESULT_LIMIT),
{
    found >= SCAN_RESULT_LIMIT
}

/// Why a scan cannot start.
#[derive(Debug, Clone, Copy, PartialEq, Eq, Structural)]
pub enum ScanError {
    /// The configuration holds no extension table.
    NoExtensionMaps,
}

impl ScanError {
    /// The error in words.
    pub fn message(&self) -> (out: String)
        ensures
            out@ == "配置中未找到文件扩展名映射"@,
    {
        String::from_str("配置中未找到文件扩展名映射")
    }
}

/// A filtered scan needs an extension table.
pub fn check_scan_config(extension_maps: &Vec<FileExtensionMapRust>) -> (out: Result<(), ScanError>)
    ensures
        out is Ok <==> extension_maps@.len() > 0,
        out is Err ==> out == Err::<(), ScanError>(ScanError::NoExtensionMaps),
{
    if extension_maps.len() == 0 {
        Err(ScanError::NoExtensionMaps)
    } else {
        Ok(())
    }
}

/// Whether a scan walks a configured directory: a monitoring root that
/// exists as a directory.
pub fn should_scan_directory(dir: &MonitoredDirectory, probe: &PathProbe) -> (b: bool)
    ensures
        b == (!dir.is_blacklist && probe.exists && probe.is_dir),
{
    !dir.is_blacklist && probe.exists && probe.is_dir
}

/// The path is a bundle for the simplified scan: a directory whose name
/// carries a bundle extension and that holds `Contents/Info.plist`.
pub open spec fn is_whole_bundle(path: Seq<char>, extensions: Seq<Seq<char>>, probe: PathProbe) -> bool {
    probe.is_dir && bundle_extension_matches(path, extensions) && probe.has_info_plist
}

/// The path lies in a confirmed bundle.
pub open spec fn in_confirmed_bundle(path: Seq<char>, extensions: Seq<Seq<char>>, confirmed: Seq<bool>) -> bool {
    exists|k: int| is_confirmed_bundle(ancestors_of(path), extensions, confirmed, k)
}

/// Why the simplified scan leaves an entry out, if it does. A bundle is
/// judged as one file; what lies inside a bundle is left out.
pub open spec fn simplified_skip(
    path: Seq<char>,
    probe: PathProbe,
    modified_secs: Option<u64>,
    mappings: Seq<(String, i32)>,
    extensions: Seq<Seq<char>>,
    confirmed: Seq<bool>,
    time_range: Option<TimeRange>,
    file_type: Option<FileType>,
    now: Now,
) -> Option<ScanSkip> {
    let ext = extension_of(path);
    if is_hidden_path(path) {
        Some(ScanSkip::Hidden)
    } else if is_whole_bundle(path, extensions, probe) {
        if ext is None {
            Some(ScanSkip::NoExtension)
        } else if mapping_for(mappings, ext->0) is None {
            Some(ScanSkip::ExtensionFiltered)
        } else if modified_secs is None {
            Some(ScanSkip::NoMetadata)
        } else if !time_passes(time_range, modified_secs->0, now) {
            Some(ScanSkip::OutOfRange)
        } else if !category_passes(file_type, mapping_for(mappings, ext->0)->0) {
            Some(ScanSkip::WrongType)
        } else {
            None
        }
    } else if in_confirmed_bundle(path, extensions, confirmed) {
        Some(ScanSkip::InsideBundle)
    } else if !probe.is_file {
        Some(ScanSkip::NotAFile)
    } else if ext is None {
        Some(ScanSkip::NoExtension)
    } else if mapping_for(mappings, ext->0) is None {
        Some(ScanSkip::ExtensionFiltered)
    } else if !category_passes(file_type, mapping_for(mappings, ext->0)->0) {
        Some(ScanSkip::WrongType)
    } else if modified_secs is None {
        Some(ScanSkip::NoMetadata)
    } else if !time_passes(time_range, modified_secs->0, now) {
        Some(ScanSkip::OutOfRange)
    } else {
        None
    }
}

/// Decides whether the simplified scan returns an entry. `confirmed` tells
/// for each ancestor of the path, in the order of
/// [`crate::bundle::ancestor_paths`], whether it is a directory that holds
/// `Contents/Info.plist`.
pub fn scan_entry_simplified(
    path: &str,
    facts: &EntryFacts,
    config: &FileScanningConfig,
    confirmed: &Vec<bool>,
    time_range: &Option<TimeRange>,
    file_type: &Option<FileType>,
    now: &Now,
) -> (out: Result<FileInfo, ScanSkip>)
    ensures
        match out {
            Ok(info) => simplified_skip(
                path@,
                facts.probe,
                facts.modified_secs,
                config.extension_mappings@,
                views(config.bundle_extensions@),
                confirmed@,
                *time_range,
                *file_type,
                *now,
            ) is None && extension_of(path@) is Some && info@ == file_info_of(
                path@,
                extension_of(path@),
                mapping_for(config.extension_mappings@, extension_of(path@)->0),
                facts.size,
                opt_view(facts.created_time),
                facts.modified_time@,
            ),
            Err(skip) => simplified_skip(
                path@,
                facts.probe,
                facts.modified_secs,
                config.extension_mappings@,
                views(config.bundle_extensions@),
                confirmed@,
                *time_range,
                *file_type,
                *now,
            ) == Some(skip),
        },
{
    if is_hidden_file(path) {
        return Err(ScanSkip::Hidden);
    }
    if facts.probe.is_dir && is_macos_bundle(
        path,
        &config.bundle_extensions,
        &facts.probe,
    ) {
        let extension = get_file_extension(path);
        let ext = match &extension {
            Some(ext) => ext,
            None => {
                return Err(ScanSkip::NoExtension);
            },
        };
        let category_id = match config.category_of(ext.as_str()) {
            Some(id) => id,
            None => {
                return Err(ScanSkip::ExtensionFiltered);
            },
        };
        let modified_secs = match facts.modified_secs {
            Some(secs) => secs,
            None => {
                return Err(ScanSkip::NoMetadata);
            },
        };
        if !time_allowed(time_range, modified_secs, now) {
            return Err(ScanSkip::OutOfRange);
        }
        if !category_allowed(file_type, category_id) {
            return Err(ScanSkip::WrongType);
        }
        return Ok(make_file_info(path, extension, Some(category_id), facts));
    }
    if find_containing_bundle(path, &config.bundle_extensions, confirmed).is_some() {
        return Err(ScanSkip::InsideBundle);
    }
    if !facts.probe.is_file {
        return Err(ScanSkip::NotAFile);
    }
    let extension = get_file_extension(path);
    let ext = match &extension {
        Some(ext) => ext,
        None => {
            return Err(ScanSkip::NoExtension);
        },
    };
    let category_id = match config.category_of(ext.as_str()) {
        Some(id) => id,
        None => {
            return Err(ScanSkip::ExtensionFiltered);
        },
    };
    if !category_allowed(file_type, category_id) {
        return Err(ScanSkip::WrongType);
    }
    let modified_secs = match facts.modified_secs {
        Some(secs) => secs,
        None => {
            return Err(ScanSkip::NoMetadata);
        },
    };
    if !time_allowed(time_range, modified_secs, now) {
        return Err(ScanSkip::OutOfRange);
    }
    Ok(make_file_info(path, extension, Some(category_id), facts))
}

} // verus!
