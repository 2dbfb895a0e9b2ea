//! Bundle detection: package directories that count as one file.
//!
//! A bundle is recognised by its name (a known extension), by its inner
//! structure (`Contents/Info.plist`), or, as a last resort, by the number of
//! dot-prefixed entries it holds. What is on disk is not read here: the
//! caller probes the path and hands over what it found as a [`PathProbe`].

use vstd::prelude::*;
use vstd::string::StringExecFns;
use crate::paths::{
    file_name, file_name_of, is_step, last_step, lemma_file_name_is_a_segment,
    lemma_split_nonempty, seqs, split, split_chars, SEPARATOR,
};
use crate::text::{
    chars_of, contains_seq, ends_with, find, first_occurrence, lowercased, occurs_at, opt_view,
    string_of, to_lowercase, views,
};

verus! {

/// More dot-prefixed entries than this make a directory a probable bundle.
pub const DOT_ENTRY_THRESHOLD: usize = 5;

/// What the filesystem says about one path.
#[derive(Debug, Clone, Copy, PartialEq, Eq, Structural)]
pub struct PathProbe {
    /// The path exists.
    pub exists: bool,
    /// It is a regular file.
    pub is_file: bool,
    /// It is a directory.
    pub is_dir: bool,
    /// `Contents/Info.plist` exists below it.
    pub has_info_plist: bool,
    /// `Contents` is a directory below it that holds `Info.plist`, `MacOS`
    /// or `Resources`.
    pub has_bundle_layout: bool,
    /// How many of its entries have a name that starts with a dot.
    pub dot_entries: usize,
    /// The platform knows bundles.
    pub on_macos: bool,
}

/// The extensions that mark a bundle when no configuration says otherwise.
pub open spec fn default_bundle_extensions() -> Seq<Seq<char>> {
    seq![
        ".app"@,
        ".bundle"@,
        ".framework"@,
        ".fcpbundle"@,
        ".photoslibrary"@,
        ".imovielibrary"@,
        ".tvlibrary"@,
        ".theater"@,
    ]
}

/// The default bundle extensions.
pub fn default_bundle_extension_list() -> (out: Vec<String>)
    ensures
        views(out@) == default_bundle_extensions(),
{
    let mut out: Vec<String> = Vec::new();
    out.push(String::from_str(".app"));
    out.push(String::from_str(".bundle"));
    out.push(String::from_str(".framework"));
    out.push(String::from_str(".fcpbundle"));
    out.push(String::from_str(".photoslibrary"));
    out.push(String::from_str(".imovielibrary"));
    out.push(String::from_str(".tvlibrary"));
    out.push(String::from_str(".theater"));
    assert(views(out@) =~= default_bundle_extensions());
    out
}

/// `segment` ends with `extension`, both taken in lowercase.
pub open spec fn ends_with_extension(segment: Seq<char>, extension: Seq<char>) -> bool {
    lowercased(extension).is_suffix_of(lowercased(segment))
}

/// Some segment of the path ends with one of the extensions, compared in
/// lowercase.
pub open spec fn has_bundle_suffix(path: Seq<char>, extensions: Seq<Seq<char>>) -> bool {
    exists|i: int, j: int|
        0 <= i < split(path, SEPARATOR).len() && 0 <= j < extensions.len()
            && ends_with_extension(
            #[trigger] split(path, SEPARATOR)[i],
            #[trigger] extensions[j],
        )
}

/// A directory on a platform with bundles that has the inner layout of one.
pub open spec fn has_layout(probe: PathProbe) -> bool {
    probe.is_dir && probe.on_macos && probe.has_bundle_layout
}

/// Whether a path is a bundle by name or by layout, for a list of extensions.
pub open spec fn is_bundle_folder(path: Seq<char>, extensions: Seq<Seq<char>>, probe: PathProbe) -> bool {
    path.len() > 0 && (has_bundle_suffix(path, extensions) || has_layout(probe))
}

/// Whether some segment of `path` ends with one of `extensions`, compared in
/// lowercase.
pub fn path_has_bundle_suffix(path: &str, extensions: &Vec<String>) -> (b: bool)
    ensures
        b == has_bundle_suffix(path@, views(extensions@)),
{
    let chars = chars_of(path);
    let segments = split_chars(chars.as_slice(), SEPARATOR);
    let ghost segs = split(path@, SEPARATOR);
    let ghost exts = views(extensions@);
    let mut i: usize = 0;
    while i < segments.len()
        invariant
            i <= segments.len(),
            seqs(segments@) == segs,
            segs == split(path@, SEPARATOR),
            exts == views(extensions@),
            forall|x: int, j: int|
                0 <= x < i && 0 <= j < exts.len() ==> !ends_with_extension(
                    #[trigger] segs[x],
                    #[trigger] exts[j],
                ),
        decreases segments.len() - i,
    {
        assert(segs[i as int] == segments@[i as int]@);
        let raw = string_of(segments[i].as_slice());
        let lower = to_lowercase(raw.as_str());
        let lower_chars = chars_of(lower.as_str());
        let mut j: usize = 0;
        while j < extensions.len()
            invariant
                j <= extensions.len(),
                i < segments.len(),
                segments.len() == segs.len(),
                segs == split(path@, SEPARATOR),
                exts == views(extensions@),
                lower_chars@ == lowercased(segs[i as int]),
                forall|y: int|
                    0 <= y < j ==> !ends_with_extension(segs[i as int], #[trigger] exts[y]),
            decreases extensions.len() - j,
        {
            let ext = to_lowercase(extensions[j].as_str());
            let ext_chars = chars_of(ext.as_str());
            assert(exts[j as int] == extensions@[j as int]@);
            if ends_with(lower_chars.as_slice(), ext_chars.as_slice()) {
                assert(ends_with_extension(segs[i as int], exts[j as int]));
                return true;
            }
            j += 1;
        }
        i += 1;
    }
    false
}

/// Whether `path` is a bundle folder for the given extensions: by the name
/// of the path or of a directory on the way to it, or by its layout.
pub fn is_macos_bundle_folder_with_extensions(
    path: &str,
    extensions: &Vec<String>,
    probe: &PathProbe,
) -> (b: bool)
    ensures
        b == is_bundle_folder(path@, views(extensions@), *probe),
{
    if path.unicode_len() == 0 {
        return false;
    }
    if path_has_bundle_suffix(path, extensions) {
        return true;
    }
    probe.is_dir && probe.on_macos && probe.has_bundle_layout
}

/// Whether `path` is a bundle folder by the default extensions.
pub fn is_macos_bundle_folder(path: &str, probe: &PathProbe) -> (b: bool)
    ensures
        b == is_bundle_folder(path@, default_bundle_extensions(), *probe),
{
    let extensions = default_bundle_extension_list();
    is_macos_bundle_folder_with_extensions(path, &extensions, probe)
}

/// `name` ends with one of the extensions, compared in lowercase.
pub open spec fn name_has_extension(name: Seq<char>, extensions: Seq<Seq<char>>) -> bool {
    exists|j: int| 0 <= j < extensions.len() && ends_with_extension(name, #[trigger] extensions[j])
}

/// The final component of the path ends with one of the extensions,
/// compared in lowercase.
pub open spec fn bundle_extension_matches(path: Seq<char>, extensions: Seq<Seq<char>>) -> bool {
    match file_name_of(path) {
        Some(name) => name_has_extension(name, extensions),
        None => false,
    }
}

/// Whether `name` ends with one of `extensions`, compared in lowercase.
pub fn name_ends_with_extension(name: &[char], extensions: &Vec<String>) -> (b: bool)
    ensures
        b == name_has_extension(name@, views(extensions@)),
{
    let raw = string_of(name);
    let lower = to_lowercase(raw.as_str());
    let lower_chars = chars_of(lower.as_str());
    let ghost exts = views(extensions@);
    let mut j: usize = 0;
    while j < extensions.len()
        invariant
            j <= extensions.len(),
            exts == views(extensions@),
            lower_chars@ == lowercased(name@),
            forall|y: int| 0 <= y < j ==> !ends_with_extension(name@, #[trigger] exts[y]),
        decreases extensions.len() - j,
    {
        let ext = to_lowercase(extensions[j].as_str());
        let ext_chars = chars_of(ext.as_str());
        assert(exts[j as int] == extensions@[j as int]@);
        if ends_with(lower_chars.as_slice(), ext_chars.as_slice()) {
            assert(ends_with_extension(name@, exts[j as int]));
            return true;
        }
        j += 1;
    }
    false
}

/// Whether the final component of `path` ends with one of
/// `bundle_extensions`, compared in lowercase.
pub fn has_bundle_extension(path: &str, bundle_extensions: &Vec<String>) -> (b: bool)
    ensures
        b == bundle_extension_matches(path@, views(bundle_extensions@)),
{
    match file_name(path) {
        Some(name) => name_ends_with_extension(name.as_slice(), bundle_extensions),
        None => false,
    }
}

/// Whether a probed path has the inner structure of a bundle: a directory
/// that holds `Contents/Info.plist`.
pub fn has_bundle_structure(probe: &PathProbe) -> (b: bool)
    ensures
        b == (probe.is_dir && probe.has_info_plist),
{
    probe.is_dir && probe.has_info_plist
}

/// The path is a bundle by name and structure: its final component ends
/// with one of the extensions, and it is a directory that holds
/// `Contents/Info.plist`.
pub open spec fn is_bundle(path: Seq<char>, extensions: Seq<Seq<char>>, probe: PathProbe) -> bool {
    bundle_extension_matches(path, extensions) && probe.is_dir && probe.has_info_plist
}

/// Whether `path` is a bundle: its name ends with a bundle extension and the
/// probe confirms the structure.
pub fn is_macos_bundle(path: &str, bundle_extensions: &Vec<String>, probe: &PathProbe) -> (b: bool)
    ensures
        b == is_bundle(path@, views(bundle_extensions@), *probe),
{
    if !has_bundle_extension(path, bundle_extensions) {
        return false;
    }
    has_bundle_structure(probe)
}

/// The marker of a bundle extension inside a path: the extension and the
/// separator after it.
pub open spec fn marker(extension: Seq<char>) -> Seq<char> {
    extension.push(SEPARATOR)
}

/// `root` is the bundle that `path` lies in, by the first of `extensions`
/// whose marker occurs in the path: the path up to the first occurrence of
/// that marker, the extension included.
pub open spec fn is_enclosing_bundle(path: Seq<char>, extensions: Seq<Seq<char>>, root: Seq<char>) -> bool {
    exists|j: int, i: int|
        0 <= j < extensions.len() && (forall|y: int|
            0 <= y < j ==> !contains_seq(path, marker(#[trigger] extensions[y])))
            && #[trigger] first_occurrence(path, marker(extensions[j]), i) && root == path.take(
            i + extensions[j].len(),
        )
}

/// No marker of `extensions` occurs in `path`.
pub open spec fn outside_bundles(path: Seq<char>, extensions: Seq<Seq<char>>) -> bool {
    forall|j: int| 0 <= j < extensions.len() ==> !contains_seq(path, marker(#[trigger] extensions[j]))
}

/// The enclosing bundle of a path is unique.
pub proof fn lemma_enclosing_bundle_unique(
    path: Seq<char>,
    extensions: Seq<Seq<char>>,
    a: Seq<char>,
    b: Seq<char>,
)
    requires
        is_enclosing_bundle(path, extensions, a),
        is_enclosing_bundle(path, extensions, b),
    ensures
        a == b,
{
    let (ja, ia) = choose|j: int, i: int|
        0 <= j < extensions.len() && (forall|y: int|
            0 <= y < j ==> !contains_seq(path, marker(#[trigger] extensions[y])))
            && #[trigger] first_occurrence(path, marker(extensions[j]), i) && a == path.take(
            i + extensions[j].len(),
        );
    let (jb, ib) = choose|j: int, i: int|
        0 <= j < extensions.len() && (forall|y: int|
            0 <= y < j ==> !contains_seq(path, marker(#[trigger] extensions[y])))
            && #[trigger] first_occurrence(path, marker(extensions[j]), i) && b == path.take(
            i + extensions[j].len(),
        );
    assert(occurs_at(path, marker(extensions[ja]), ia));
    assert(occurs_at(path, marker(extensions[jb]), ib));
    assert(contains_seq(path, marker(extensions[ja])));
    assert(contains_seq(path, marker(extensions[jb])));
    assert(ja == jb);
    assert(ia == ib);
}

/// The bundle that a path lies in, if it lies in one.
pub open spec fn enclosing_bundle_of(path: Seq<char>, extensions: Seq<Seq<char>>) -> Option<
    Seq<char>,
> {
    if exists|root: Seq<char>| is_enclosing_bundle(path, extensions, root) {
        Some(choose|root: Seq<char>| is_enclosing_bundle(path, extensions, root))
    } else {
        None
    }
}

/// A path with no marker in it lies in no bundle.
pub proof fn lemma_outside_bundles(path: Seq<char>, extensions: Seq<Seq<char>>)
    requires
        outside_bundles(path, extensions),
    ensures
        enclosing_bundle_of(path, extensions) is None,
{
    if exists|root: Seq<char>| is_enclosing_bundle(path, extensions, root) {
        let root = choose|root: Seq<char>| is_enclosing_bundle(path, extensions, root);
        let (j, i) = choose|j: int, i: int|
            0 <= j < extensions.len() && (forall|y: int|
                0 <= y < j ==> !contains_seq(path, marker(#[trigger] extensions[y])))
                && #[trigger] first_occurrence(path, marker(extensions[j]), i) && root
                == path.take(i + extensions[j].len());
        assert(occurs_at(path, marker(extensions[j]), i));
        assert(contains_seq(path, marker(extensions[j])));
    }
}

/// The bundle that `path` lies in, for the given extensions. The result is a
/// proper prefix of the path.
pub fn enclosing_bundle(path: &str, extensions: &Vec<String>) -> (out: Option<String>)
    ensures
        opt_view(out) == enclosing_bundle_of(path@, views(extensions@)),
        match out {
            Some(root) => is_enclosing_bundle(path@, views(extensions@), root@)
                && root@.is_prefix_of(path@) && root@.len() < path@.len(),
            None => outside_bundles(path@, views(extensions@)),
        },
{
    let chars = chars_of(path);
    let ghost exts = views(extensions@);
    let mut j: usize = 0;
    while j < extensions.len()
        invariant
            j <= extensions.len(),
            chars@ == path@,
            exts == views(extensions@),
            forall|y: int| 0 <= y < j ==> !contains_seq(path@, marker(#[trigger] exts[y])),
        decreases extensions.len() - j,
    {
        let mut mark = chars_of(extensions[j].as_str());
        mark.push(SEPARATOR);
        assert(exts[j as int] == extensions@[j as int]@);
        assert(mark@ == marker(exts[j as int]));
        match find(chars.as_slice(), mark.as_slice()) {
            Some(i) => {
                assert(occurs_at(chars@, mark@, i as int));
                assert(mark.len() >= 1);
                assert(i + mark.len() <= chars.len());
                let end: usize = i + (mark.len() - 1);
                let mut root: Vec<char> = Vec::new();
                let mut k: usize = 0;
                while k < end
                    invariant
                        k <= end,
                        end < chars.len(),
                        root@ == chars@.take(k as int),
                    decreases end - k,
                {
                    root.push(chars[k]);
                    assert(root@ =~= chars@.take(k + 1));
                    k += 1;
                }
                proof {
                    assert(is_enclosing_bundle(path@, exts, root@));
                    let chosen = choose|r: Seq<char>| is_enclosing_bundle(path@, exts, r);
                    lemma_enclosing_bundle_unique(path@, exts, root@, chosen);
                }
                return Some(string_of(root.as_slice()));
            },
            None => {},
        }
        j += 1;
    }
    proof {
        lemma_outside_bundles(path@, exts);
    }
    None
}

/// The bundle that `path` lies in, by the default extensions.
pub fn is_inside_macos_bundle(path: &str) -> (out: Option<String>)
    ensures
        opt_view(out) == enclosing_bundle_of(path@, default_bundle_extensions()),
        match out {
            Some(root) => is_enclosing_bundle(path@, default_bundle_extensions(), root@)
                && root@.is_prefix_of(path@) && root@.len() < path@.len(),
            None => outside_bundles(path@, default_bundle_extensions()),
        },
{
    let extensions = default_bundle_extension_list();
    enclosing_bundle(path, &extensions)
}

/// The prefix of `path` that ends at index `i` is one of its ancestors: it
/// ends with a component, a separator follows, and a further component
/// follows after that.
pub open spec fn is_ancestor_cut(path: Seq<char>, i: int) -> bool {
    &&& 0 < i < path.len()
    &&& path[i] == SEPARATOR
    &&& is_step(split(path.take(i), SEPARATOR).last())
    &&& last_step(split(path.skip(i + 1), SEPARATOR)) is Some
}

/// The ancestors of `path` that end before index `n`, outermost first.
pub open spec fn ancestors_upto(path: Seq<char>, n: nat) -> Seq<Seq<char>>
    decreases n,
{
    if n == 0 {
        Seq::empty()
    } else {
        let shorter = ancestors_upto(path, (n - 1) as nat);
        if is_ancestor_cut(path, n - 1) {
            shorter.push(path.take(n - 1))
        } else {
            shorter
        }
    }
}

/// The ancestors of `path`, outermost first.
pub open spec fn ancestors_of(path: Seq<char>) -> Seq<Seq<char>> {
    ancestors_upto(path, path.len())
}

/// Whether some segment counts as a component.
fn has_step(segments: &Vec<Vec<char>>) -> (b: bool)
    ensures
        b == (last_step(seqs(segments@)) is Some),
{
    let ghost all = seqs(segments@);
    let mut i: usize = segments.len();
    assert(all.take(i as int) =~= all);
    while i > 0
        invariant
            i <= segments.len(),
            all == seqs(segments@),
            last_step(all) == last_step(all.take(i as int)),
        decreases i,
    {
        i -= 1;
        assert(all.take(i + 1).drop_last() =~= all.take(i as int));
        assert(all.take(i + 1).last() == all[i as int]);
        assert(all[i as int] == segments@[i as int]@);
        let segment = segments[i].as_slice();
        let is_dot = segment.len() == 1 && segment[0] == '.';
        proof {
            assert(seq!['.'].len() == 1);
            if segment.len() == 1 {
                assert(segment@ == seq!['.'] <==> segment@ =~= seq!['.']);
            }
        }
        if segment.len() > 0 && !is_dot {
            return true;
        }
    }
    false
}

/// The ancestors of `path`, outermost first: each is the path cut after one
/// of its components, the final component left out.
pub fn ancestor_paths(path: &str) -> (out: Vec<String>)
    ensures
        views(out@) == ancestors_of(path@),
{
    let chars = chars_of(path);
    let all = chars.as_slice();
    let mut out: Vec<String> = Vec::new();
    let mut i: usize = 0;
    assert(views(out@) =~= Seq::<Seq<char>>::empty());
    while i < all.len()
        invariant
            i <= all.len(),
            all@ == path@,
            views(out@) == ancestors_upto(path@, i as nat),
        decreases all.len() - i,
    {
        let ghost before = views(out@);
        if i > 0 && all[i] == SEPARATOR {
            let head = &all[0..i];
            let tail = &all[i + 1..all.len()];
            assert(head@ =~= path@.take(i as int));
            assert(tail@ =~= path@.skip(i + 1));
            let head_segments = split_chars(head, SEPARATOR);
            let tail_segments = split_chars(tail, SEPARATOR);
            proof {
                lemma_split_nonempty(head@, SEPARATOR);
            }
            let last = &head_segments[head_segments.len() - 1];
            assert(seqs(head_segments@).last() == last@);
            let last_is_dot = last.len() == 1 && last[0] == '.';
            proof {
                assert(seq!['.'].len() == 1);
                if last.len() == 1 {
                    assert(last@ == seq!['.'] <==> last@ =~= seq!['.']);
                }
            }
            if last.len() > 0 && !last_is_dot && has_step(&tail_segments) {
                out.push(string_of(head));
                assert(views(out@) =~= before.push(path@.take(i as int)));
            }
        }
        i += 1;
    }
    out
}

/// `k` is the first ancestor that carries a bundle extension and whose
/// structure was confirmed. A missing confirmation counts as none.
pub open spec fn is_outermost_bundle(
    ancestors: Seq<Seq<char>>,
    extensions: Seq<Seq<char>>,
    confirmed: Seq<bool>,
    k: int,
) -> bool {
    &&& is_confirmed_bundle(ancestors, extensions, confirmed, k)
    &&& forall|j: int| 0 <= j < k ==> !is_confirmed_bundle(ancestors, extensions, confirmed, j)
}

/// Ancestor `k` carries a bundle extension and its structure was confirmed.
pub open spec fn is_confirmed_bundle(
    ancestors: Seq<Seq<char>>,
    extensions: Seq<Seq<char>>,
    confirmed: Seq<bool>,
    k: int,
) -> bool {
    &&& 0 <= k < ancestors.len()
    &&& k < confirmed.len()
    &&& confirmed[k]
    &&& bundle_extension_matches(ancestors[k], extensions)
}

/// The outermost bundle that `path` lies in. `confirmed` tells, for each
/// ancestor of the path in the order of [`ancestor_paths`], whether it is a
/// directory with the inner structure of a bundle.
pub fn find_containing_bundle(
    path: &str,
    bundle_extensions: &Vec<String>,
    confirmed: &Vec<bool>,
) -> (out: Option<String>)
    ensures
        match out {
            Some(root) => exists|k: int|
                #[trigger] is_outermost_bundle(
                    ancestors_of(path@),
                    views(bundle_extensions@),
                    confirmed@,
                    k,
                ) && root@ == ancestors_of(path@)[k],
            None => forall|k: int|
                !is_confirmed_bundle(
                    ancestors_of(path@),
                    views(bundle_extensions@),
                    confirmed@,
                    k,
                ),
        },
{
    let mut ancestors = ancestor_paths(path);
    let ghost all = views(ancestors@);
    let n = ancestors.len();
    let mut k: usize = 0;
    while k < n
        invariant
            k <= n,
            n == ancestors.len(),
            all == ancestors_of(path@),
            all.len() == n,
            forall|j: int| k <= j < n ==> ancestors@[j]@ == all[j],
            forall|j: int|
                0 <= j < k ==> !is_confirmed_bundle(all, views(bundle_extensions@), confirmed@, j),
        decreases n - k,
    {
        if k < confirmed.len() && confirmed[k] && has_bundle_extension(
            ancestors[k].as_str(),
            bundle_extensions,
        ) {
            let mut root = String::new();
            std::mem::swap(&mut root, &mut ancestors[k]);
            assert(is_outermost_bundle(all, views(bundle_extensions@), confirmed@, k as int));
            return Some(root);
        }
        k += 1;
    }
    None
}

/// Every ancestor of a path is a proper prefix of it.
pub proof fn lemma_ancestors_are_prefixes(path: Seq<char>, n: nat, k: int)
    requires
        n <= path.len(),
        0 <= k < ancestors_upto(path, n).len(),
    ensures
        ancestors_upto(path, n)[k].is_prefix_of(path),
        ancestors_upto(path, n)[k].len() < path.len(),
    decreases n,
{
    if n > 0 {
        let shorter = ancestors_upto(path, (n - 1) as nat);
        if k < shorter.len() {
            lemma_ancestors_are_prefixes(path, (n - 1) as nat, k);
        } else {
            assert(is_ancestor_cut(path, n - 1));
            assert(ancestors_upto(path, n)[k] == path.take(n - 1));
            assert(path.subrange(0, n - 1) =~= path.take(n - 1));
        }
    }
}

/// Ancestor `k` is the outermost one whose name ends with one of the
/// extensions.
pub open spec fn is_outermost_named(
    ancestors: Seq<Seq<char>>,
    extensions: Seq<Seq<char>>,
    k: int,
) -> bool {
    &&& 0 <= k < ancestors.len()
    &&& bundle_extension_matches(ancestors[k], extensions)
    &&& forall|j: int| 0 <= j < k ==> !bundle_extension_matches(#[trigger] ancestors[j], extensions)
}

/// The outermost ancestor of a path whose name ends with one of the
/// extensions, compared in lowercase: the bundle by name that the path lies
/// in, if it lies in one.
pub open spec fn named_ancestor_of(path: Seq<char>, extensions: Seq<Seq<char>>) -> Option<
    Seq<char>,
> {
    if exists|k: int| is_outermost_named(ancestors_of(path), extensions, k) {
        Some(
            ancestors_of(path)[choose|k: int|
                is_outermost_named(ancestors_of(path), extensions, k)],
        )
    } else {
        None
    }
}

/// The bundle by name that `path` lies in: its outermost ancestor whose
/// name ends with one of `extensions`. The result is a proper prefix of the
/// path.
pub fn named_bundle_ancestor(path: &str, extensions: &Vec<String>) -> (out: Option<String>)
    ensures
        opt_view(out) == named_ancestor_of(path@, views(extensions@)),
        out matches Some(root) ==> root@.is_prefix_of(path@) && root@.len() < path@.len(),
{
    let mut ancestors = ancestor_paths(path);
    let ghost all = views(ancestors@);
    let ghost exts = views(extensions@);
    let n = ancestors.len();
    let mut k: usize = 0;
    while k < n
        invariant
            k <= n,
            n == ancestors.len(),
            all == ancestors_of(path@),
            all.len() == n,
            exts == views(extensions@),
            forall|j: int| k <= j < n ==> ancestors@[j]@ == all[j],
            forall|j: int| 0 <= j < k ==> !bundle_extension_matches(#[trigger] all[j], exts),
        decreases n - k,
    {
        if has_bundle_extension(ancestors[k].as_str(), extensions) {
            let mut root = String::new();
            std::mem::swap(&mut root, &mut ancestors[k]);
            proof {
                assert(is_outermost_named(all, exts, k as int));
                let chosen = choose|c: int| is_outermost_named(all, exts, c);
                assert(chosen == k);
                lemma_ancestors_are_prefixes(path@, path@.len(), k as int);
            }
            return Some(root);
        }
        k += 1;
    }
    None
}

/// A directory whose name ends with a configured bundle extension and that
/// holds `Contents/Info.plist` is a bundle, whatever the platform and
/// whatever else the probe says; and it is a bundle folder by its name
/// alone.
pub proof fn lemma_named_directory_with_info_plist_is_a_bundle(
    path: Seq<char>,
    extensions: Seq<Seq<char>>,
    probe: PathProbe,
)
    requires
        bundle_extension_matches(path, extensions),
        probe.is_dir,
        probe.has_info_plist,
    ensures
        is_bundle(path, extensions, probe),
        is_bundle_folder(path, extensions, probe),
{
    let name = file_name_of(path)->0;
    let j = choose|j: int| 0 <= j < extensions.len() && ends_with_extension(name, #[trigger] extensions[j]);
    lemma_file_name_is_a_segment(path);
    let i = choose|i: int| 0 <= i < split(path, SEPARATOR).len() && split(path, SEPARATOR)[i] == name;
    assert(ends_with_extension(split(path, SEPARATOR)[i], extensions[j]));
    lemma_split_nonempty(path, SEPARATOR);
    if path.len() == 0 {
        assert(split(path, SEPARATOR) =~= seq![Seq::<char>::empty()]);
        assert(split(path, SEPARATOR)[i].len() == 0);
    }
}

} // verus!
