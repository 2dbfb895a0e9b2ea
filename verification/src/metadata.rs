//! The per-file record that travels through the pipeline.

use vstd::prelude::*;
use crate::bundle::{default_bundle_extensions, is_bundle_folder, is_macos_bundle_folder, PathProbe};
use crate::paths::{
    extension_of, file_name, file_name_of, get_file_extension, is_hidden_file, is_hidden_path,
};
use crate::text::{chars_of, opt_view, opt_views, string_of};

verus! {

/// What classification notes about a record besides category and labels.
/// A record carries an exclusion marker when `excluded_by_rule_id` is set.
#[derive(Debug, Clone)]
pub struct ExtraMetadata {
    pub excluded_by_rule_id: Option<i32>,
    pub excluded_by_rule_name: Option<String>,
    pub file_type_from_ext_map: Option<String>,
    pub extension: Option<String>,
    pub macos_bundle_rule_id: Option<i32>,
    pub macos_bundle_rule_name: Option<String>,
    pub is_macos_bundle: Option<bool>,
}

/// One file as the pipeline knows it. Times are seconds since the epoch.
#[derive(Debug, Clone)]
pub struct FileMetadata {
    pub file_path: String,
    pub file_name: String,
    pub extension: Option<String>,
    pub file_size: u64,
    pub created_time: u64,
    pub modified_time: u64,
    pub is_dir: bool,
    pub is_hidden: bool,
    pub hash_value: Option<String>,
    pub category_id: Option<i32>,
    pub labels: Option<Vec<String>>,
    pub initial_rule_matches: Option<Vec<String>>,
    pub extra_metadata: Option<ExtraMetadata>,
    pub is_os_bundle: Option<bool>,
}

/// `ExtraMetadata` as contracts see it.
pub struct ExtraView {
    pub excluded_by_rule_id: Option<i32>,
    pub excluded_by_rule_name: Option<Seq<char>>,
    pub file_type_from_ext_map: Option<Seq<char>>,
    pub extension: Option<Seq<char>>,
    pub macos_bundle_rule_id: Option<i32>,
    pub macos_bundle_rule_name: Option<Seq<char>>,
    pub is_macos_bundle: Option<bool>,
}

impl ExtraView {
    /// The record with nothing noted.
    pub open spec fn empty() -> ExtraView {
        ExtraView {
            excluded_by_rule_id: None,
            excluded_by_rule_name: None,
            file_type_from_ext_map: None,
            extension: None,
            macos_bundle_rule_id: None,
            macos_bundle_rule_name: None,
            is_macos_bundle: None,
        }
    }

    /// Nothing is noted.
    pub open spec fn is_empty(self) -> bool {
        self == ExtraView::empty()
    }
}

/// `FileMetadata` as contracts see it.
pub struct MetadataView {
    pub file_path: Seq<char>,
    pub file_name: Seq<char>,
    pub extension: Option<Seq<char>>,
    pub file_size: u64,
    pub created_time: u64,
    pub modified_time: u64,
    pub is_dir: bool,
    pub is_hidden: bool,
    pub hash_value: Option<Seq<char>>,
    pub category_id: Option<i32>,
    pub labels: Option<Seq<Seq<char>>>,
    pub initial_rule_matches: Option<Seq<Seq<char>>>,
    pub extra_metadata: Option<ExtraView>,
    pub is_os_bundle: Option<bool>,
}

impl MetadataView {
    /// The record carries an exclusion marker.
    pub open spec fn is_excluded(self) -> bool {
        self.extra_metadata matches Some(extra) && extra.excluded_by_rule_id is Some
    }

    /// The record is flagged as a bundle.
    pub open spec fn is_bundle(self) -> bool {
        self.is_os_bundle == Some(true)
    }
}

impl View for ExtraMetadata {
    type V = ExtraView;

    open spec fn view(&self) -> ExtraView {
        ExtraView {
            excluded_by_rule_id: self.excluded_by_rule_id,
            excluded_by_rule_name: opt_view(self.excluded_by_rule_name),
            file_type_from_ext_map: opt_view(self.file_type_from_ext_map),
            extension: opt_view(self.extension),
            macos_bundle_rule_id: self.macos_bundle_rule_id,
            macos_bundle_rule_name: opt_view(self.macos_bundle_rule_name),
            is_macos_bundle: self.is_macos_bundle,
        }
    }
}

impl View for FileMetadata {
    type V = MetadataView;

    open spec fn view(&self) -> MetadataView {
        MetadataView {
            file_path: self.file_path@,
            file_name: self.file_name@,
            extension: opt_view(self.extension),
            file_size: self.file_size,
            created_time: self.created_time,
            modified_time: self.modified_time,
            is_dir: self.is_dir,
            is_hidden: self.is_hidden,
            hash_value: opt_view(self.hash_value),
            category_id: self.category_id,
            labels: opt_views(self.labels),
            initial_rule_matches: opt_views(self.initial_rule_matches),
            extra_metadata: match self.extra_metadata {
                Some(extra) => Some(extra@),
                None => None,
            },
            is_os_bundle: self.is_os_bundle,
        }
    }
}

impl ExtraMetadata {
    /// A record with nothing noted.
    pub fn new() -> (out: ExtraMetadata)
        ensures
            out@ == ExtraView::empty(),
    {
        ExtraMetadata {
            excluded_by_rule_id: None,
            excluded_by_rule_name: None,
            file_type_from_ext_map: None,
            extension: None,
            macos_bundle_rule_id: None,
            macos_bundle_rule_name: None,
            is_macos_bundle: None,
        }
    }

    /// Whether nothing is noted.
    pub fn is_empty(&self) -> (b: bool)
        ensures
            b == self@.is_empty(),
    {
        self.excluded_by_rule_id.is_none() && self.excluded_by_rule_name.is_none()
            && self.file_type_from_ext_map.is_none() && self.extension.is_none()
            && self.macos_bundle_rule_id.is_none() && self.macos_bundle_rule_name.is_none()
            && self.is_macos_bundle.is_none()
    }
}

impl FileMetadata {
    /// Whether the record carries an exclusion marker.
    pub fn is_excluded(&self) -> (b: bool)
        ensures
            b == self@.is_excluded(),
    {
        match &self.extra_metadata {
            Some(extra) => extra.excluded_by_rule_id.is_some(),
            None => false,
        }
    }

    /// Whether the record is flagged as a bundle.
    pub fn is_bundle(&self) -> (b: bool)
        ensures
            b == self@.is_bundle(),
    {
        match self.is_os_bundle {
            Some(b) => b,
            None => false,
        }
    }
}

/// How many characters a hash has: two for each of the digest's 32 bytes.
pub const HASH_HEX_LEN: usize = 64;

/// At most this many leading bytes of a file go into its hash.
pub const HASH_PREFIX_LEN: usize = 4096;

/// What a stat of a path gives. Times are seconds since the epoch.
#[derive(Debug, Clone, Copy, PartialEq, Eq, Structural)]
pub struct FileStat {
    pub is_dir: bool,
    pub len: u64,
    pub created: u64,
    pub modified: u64,
}

/// The record that extraction builds for a path with final component `name`.
pub open spec fn extracted(path: Seq<char>, name: Seq<char>, stat: FileStat, probe: PathProbe) -> MetadataView {
    MetadataView {
        file_path: path,
        file_name: name,
        extension: if stat.is_dir {
            None
        } else {
            extension_of(path)
        },
        file_size: if stat.is_dir {
            0
        } else {
            stat.len
        },
        created_time: stat.created,
        modified_time: stat.modified,
        is_dir: stat.is_dir,
        is_hidden: is_hidden_path(path),
        hash_value: None,
        category_id: None,
        labels: None,
        initial_rule_matches: None,
        extra_metadata: None,
        is_os_bundle: Some(is_bundle_folder(path, default_bundle_extensions(), probe)),
    }
}

/// Builds the record of a path from its stat and probe. There is none for
/// a path without a final component.
pub fn get_file_metadata(path: &str, stat: &FileStat, probe: &PathProbe) -> (out: Option<
    FileMetadata,
>)
    ensures
        match out {
            Some(m) => file_name_of(path@) is Some && m@ == extracted(
                path@,
                file_name_of(path@)->0,
                *stat,
                *probe,
            ),
            None => file_name_of(path@) is None,
        },
{
    let name = match file_name(path) {
        Some(name) => name,
        None => {
            return None;
        },
    };
    let extension = if stat.is_dir {
        None
    } else {
        get_file_extension(path)
    };
    let chars = chars_of(path);
    Some(
        FileMetadata {
            file_path: string_of(chars.as_slice()),
            file_name: string_of(name.as_slice()),
            extension,
            file_size: if stat.is_dir {
                0
            } else {
                stat.len
            },
            created_time: stat.created,
            modified_time: stat.modified,
            is_dir: stat.is_dir,
            is_hidden: is_hidden_file(path),
            hash_value: None,
            category_id: None,
            labels: None,
            initial_rule_matches: None,
            extra_metadata: None,
            is_os_bundle: Some(is_macos_bundle_folder(path, probe)),
        },
    )
}

/// The SHA-256 digest of a byte string, as `sha2::Sha256` computes it.
pub uninterp spec fn sha256_digest(data: Seq<u8>) -> Seq<u8>;

/// `sha2::Digest::digest` for `sha2::Sha256`: the digest of `data`, 32 bytes.
/// The contract names the digest and states its length.
#[verifier::external_body]
fn sha256(data: &[u8]) -> (out: Vec<u8>)
    ensures
        out@ == sha256_digest(data@),
        out@.len() == 32,
{
    <sha2::Sha256 as sha2::Digest>::digest(data).to_vec()
}

/// The sixteen hexadecimal digits, lowercase.
pub open spec fn hex_digits() -> Seq<char> {
    seq!['0', '1', '2', '3', '4', '5', '6', '7', '8', '9', 'a', 'b', 'c', 'd', 'e', 'f']
}

/// Bytes written as lowercase hexadecimal, two digits each.
pub open spec fn hex_string(bytes: Seq<u8>) -> Seq<char> {
    Seq::new(
        2 * bytes.len(),
        |i: int|
            if i % 2 == 0 {
                hex_digits()[bytes[i / 2] as int / 16]
            } else {
                hex_digits()[bytes[i / 2] as int % 16]
            },
    )
}

/// Writes `bytes` as lowercase hexadecimal.
pub fn to_hex(bytes: &[u8]) -> (out: String)
    ensures
        out@ == hex_string(bytes@),
{
    let mut digits: Vec<char> = Vec::new();
    digits.push('0');
    digits.push('1');
    digits.push('2');
    digits.push('3');
    digits.push('4');
    digits.push('5');
    digits.push('6');
    digits.push('7');
    digits.push('8');
    digits.push('9');
    digits.push('a');
    digits.push('b');
    digits.push('c');
    digits.push('d');
    digits.push('e');
    digits.push('f');
    assert(digits@ =~= hex_digits());
    let mut out: Vec<char> = Vec::new();
    let mut i: usize = 0;
    while i < bytes.len()
        invariant
            i <= bytes.len(),
            digits@ == hex_digits(),
            out@.len() == 2 * i,
            forall|k: int| 0 <= k < 2 * i ==> out@[k] == hex_string(bytes@)[k],
        decreases bytes.len() - i,
    {
        let b = bytes[i];
        out.push(digits[(b / 16) as usize]);
        out.push(digits[(b % 16) as usize]);
        i += 1;
    }
    assert(out@ =~= hex_string(bytes@));
    string_of(out.as_slice())
}

/// The part of a file's content that its hash covers.
pub open spec fn hashed_prefix(content: Seq<u8>, max_bytes: usize) -> Seq<u8> {
    let limit = if max_bytes < HASH_PREFIX_LEN {
        max_bytes as int
    } else {
        HASH_PREFIX_LEN as int
    };
    if content.len() <= limit {
        content
    } else {
        content.take(limit)
    }
}

/// The cheap fingerprint of a file: the SHA-256 of at most `max_bytes`, and
/// at most 4096, leading bytes of its content, as 64 hexadecimal digits.
/// There is none when that part is empty.
pub fn calculate_simple_hash(content: &[u8], max_bytes: usize) -> (out: Option<String>)
    ensures
        match out {
            Some(h) => hashed_prefix(content@, max_bytes).len() > 0 && h@ == hex_string(
                sha256_digest(hashed_prefix(content@, max_bytes)),
            ) && h@.len() == HASH_HEX_LEN,
            None => hashed_prefix(content@, max_bytes).len() == 0,
        },
{
    let limit = if max_bytes < HASH_PREFIX_LEN {
        max_bytes
    } else {
        HASH_PREFIX_LEN
    };
    let part = if content.len() <= limit {
        content
    } else {
        &content[0..limit]
    };
    assert(part@ =~= hashed_prefix(content@, max_bytes));
    if part.len() == 0 {
        return None;
    }
    let digest = sha256(part);
    Some(to_hex(digest.as_slice()))
}

} // verus!
