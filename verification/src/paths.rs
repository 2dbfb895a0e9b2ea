//! Paths as text: segments between separators, the components that name
//! something, file name and extension.
//!
//! A path is split on `/`. Empty segments and `.` are noise, `..` is a step
//! up; what is left are the components that name a directory or a file.

use vstd::prelude::*;
use crate::text::{chars_of, lowercased, opt_view, same_chars, string_of, to_lowercase};

verus! {

/// The path separator.
pub const SEPARATOR: char = '/';

/// The pieces of `s` between occurrences of `sep`; always at least one piece.
pub open spec fn split(s: Seq<char>, sep: char) -> Seq<Seq<char>>
    decreases s.len(),
{
    if s.len() == 0 {
        seq![Seq::empty()]
    } else {
        let before = split(s.drop_last(), sep);
        if s.last() == sep {
            before.push(Seq::empty())
        } else {
            before.drop_last().push(before.last().push(s.last()))
        }
    }
}

/// Splitting always gives at least one piece.
pub proof fn lemma_split_nonempty(s: Seq<char>, sep: char)
    ensures
        split(s, sep).len() >= 1,
    decreases s.len(),
{
    if s.len() > 0 {
        lemma_split_nonempty(s.drop_last(), sep);
    }
}

/// A segment that names something: not empty, not `.`, not `..`.
pub open spec fn is_normal(segment: Seq<char>) -> bool {
    segment.len() > 0 && segment != seq!['.'] && segment != seq!['.', '.']
}

/// The segments of `segments` that name something, in order.
pub open spec fn normal_only(segments: Seq<Seq<char>>) -> Seq<Seq<char>>
    decreases segments.len(),
{
    if segments.len() == 0 {
        Seq::empty()
    } else if is_normal(segments.last()) {
        normal_only(segments.drop_last()).push(segments.last())
    } else {
        normal_only(segments.drop_last())
    }
}

/// The components of a path that name a directory or a file.
pub open spec fn components(path: Seq<char>) -> Seq<Seq<char>> {
    normal_only(split(path, SEPARATOR))
}

/// A segment that counts when looking for the final component: not empty
/// and not `.`.
pub open spec fn is_step(segment: Seq<char>) -> bool {
    segment.len() > 0 && segment != seq!['.']
}

/// The last segment for which `is_step` holds, if any.
pub open spec fn last_step(segments: Seq<Seq<char>>) -> Option<Seq<char>>
    decreases segments.len(),
{
    if segments.len() == 0 {
        None
    } else if is_step(segments.last()) {
        Some(segments.last())
    } else {
        last_step(segments.drop_last())
    }
}

/// The final component of a path; none if there is no component or the path
/// ends in `..`.
pub open spec fn file_name_of(path: Seq<char>) -> Option<Seq<char>> {
    match last_step(split(path, SEPARATOR)) {
        Some(segment) => if segment == seq!['.', '.'] {
            None
        } else {
            Some(segment)
        },
        None => None,
    }
}

proof fn lemma_last_step_is_a_segment(segments: Seq<Seq<char>>)
    requires
        last_step(segments) is Some,
    ensures
        exists|i: int|
            0 <= i < segments.len() && #[trigger] segments[i] == last_step(segments)->0 && is_step(
                segments[i],
            ),
    decreases segments.len(),
{
    if is_step(segments.last()) {
        assert(segments[segments.len() - 1] == last_step(segments)->0);
    } else {
        lemma_last_step_is_a_segment(segments.drop_last());
        let rest = segments.drop_last();
        let i = choose|i: int|
            0 <= i < rest.len() && #[trigger] rest[i] == last_step(rest)->0 && is_step(rest[i]);
        assert(segments[i] == rest[i]);
    }
}

/// The final component of a path is one of its segments, and not an empty
/// one.
pub proof fn lemma_file_name_is_a_segment(path: Seq<char>)
    requires
        file_name_of(path) is Some,
    ensures
        file_name_of(path)->0.len() > 0,
        exists|i: int|
            0 <= i < split(path, SEPARATOR).len() && #[trigger] split(path, SEPARATOR)[i]
                == file_name_of(path)->0,
{
    lemma_last_step_is_a_segment(split(path, SEPARATOR));
}

/// `i` is the index of the last dot of `name`.
pub open spec fn is_last_dot(name: Seq<char>, i: int) -> bool {
    0 <= i < name.len() && name[i] == '.' && forall|j: int| i < j < name.len() ==> name[j] != '.'
}

/// The extension of a file name: what follows its last dot, unless the name
/// has no dot or its only dot is the first character.
pub open spec fn extension_of_name(name: Seq<char>) -> Option<Seq<char>> {
    if exists|i: int| is_last_dot(name, i) {
        let i = choose|i: int| is_last_dot(name, i);
        if i == 0 {
            None
        } else {
            Some(name.subrange(i + 1, name.len() as int))
        }
    } else {
        None
    }
}

/// The extension of a path's final component, as written.
pub open spec fn raw_extension_of(path: Seq<char>) -> Option<Seq<char>> {
    match file_name_of(path) {
        Some(name) => extension_of_name(name),
        None => None,
    }
}

/// The extension of a path's final component, in lowercase.
pub open spec fn extension_of(path: Seq<char>) -> Option<Seq<char>> {
    match raw_extension_of(path) {
        Some(ext) => Some(lowercased(ext)),
        None => None,
    }
}

/// A segment that marks a path as hidden: it starts with a dot and is
/// neither `.` nor `..`.
pub open spec fn is_hidden_segment(segment: Seq<char>) -> bool {
    segment.len() > 0 && segment[0] == '.' && segment != seq!['.'] && segment != seq!['.', '.']
}

/// A path is hidden when one of its segments is.
pub open spec fn is_hidden_path(path: Seq<char>) -> bool {
    exists|i: int|
        0 <= i < split(path, SEPARATOR).len() && is_hidden_segment(
            #[trigger] split(path, SEPARATOR)[i],
        )
}

/// The views of a list of character vectors.
pub open spec fn seqs(v: Seq<Vec<char>>) -> Seq<Seq<char>> {
    v.map_values(|x: Vec<char>| x@)
}

/// Splits `s` on `sep`.
pub fn split_chars(s: &[char], sep: char) -> (out: Vec<Vec<char>>)
    ensures
        seqs(out@) == split(s@, sep),
{
    let mut done: Vec<Vec<char>> = Vec::new();
    let mut current: Vec<char> = Vec::new();
    let mut i: usize = 0;
    assert(s@.take(0) =~= Seq::<char>::empty());
    assert(seqs(done@).push(current@) =~= seq![Seq::<char>::empty()]);
    while i < s.len()
        invariant
            i <= s.len(),
            split(s@.take(i as int), sep) == seqs(done@).push(current@),
        decreases s.len() - i,
    {
        let ghost before = seqs(done@).push(current@);
        assert(s@.take(i + 1).drop_last() =~= s@.take(i as int));
        assert(s@.take(i + 1).last() == s@[i as int]);
        if s[i] == sep {
            done.push(current);
            current = Vec::new();
            assert(seqs(done@) =~= before);
        } else {
            current.push(s[i]);
            assert(seqs(done@).push(current@) =~= before.drop_last().push(
                before.last().push(s@[i as int]),
            ));
        }
        i += 1;
    }
    assert(s@.take(s@.len() as int) =~= s@);
    done.push(current);
    assert(seqs(done@) =~= split(s@, sep));
    done
}

/// Whether a segment names something.
pub fn segment_is_normal(segment: &[char]) -> (b: bool)
    ensures
        b == is_normal(segment@),
{
    if segment.len() == 0 {
        false
    } else if segment.len() == 1 {
        assert(segment@ == seq!['.'] <==> segment@ =~= seq!['.']);
        assert(seq!['.', '.'].len() == 2);
        segment[0] != '.'
    } else if segment.len() == 2 {
        assert(segment@ == seq!['.', '.'] <==> segment@ =~= seq!['.', '.']);
        assert(seq!['.'].len() == 1);
        !(segment[0] == '.' && segment[1] == '.')
    } else {
        assert(seq!['.', '.'].len() == 2);
        assert(seq!['.'].len() == 1);
        true
    }
}

/// The components of `path` that name a directory or a file.
pub fn path_components(path: &str) -> (out: Vec<Vec<char>>)
    ensures
        seqs(out@) == components(path@),
{
    let chars = chars_of(path);
    components_of(chars.as_slice())
}

/// Whether the components `prefix` are the first components of `whole`.
pub fn is_component_prefix(prefix: &Vec<Vec<char>>, whole: &Vec<Vec<char>>) -> (b: bool)
    ensures
        b == seqs(prefix@).is_prefix_of(seqs(whole@)),
{
    if prefix.len() > whole.len() {
        return false;
    }
    let mut i: usize = 0;
    while i < prefix.len()
        invariant
            i <= prefix.len(),
            prefix.len() <= whole.len(),
            forall|j: int| 0 <= j < i ==> seqs(prefix@)[j] == seqs(whole@)[j],
        decreases prefix.len() - i,
    {
        if !same_chars(prefix[i].as_slice(), whole[i].as_slice()) {
            assert(seqs(whole@).subrange(0, prefix@.len() as int)[i as int] == seqs(whole@)[i as int]);
            assert(seqs(prefix@)[i as int] != seqs(whole@)[i as int]);
            return false;
        }
        i += 1;
    }
    assert(seqs(whole@).subrange(0, prefix@.len() as int) =~= seqs(prefix@));
    true
}

/// The components of a path given as characters.
pub fn components_of(path: &[char]) -> (out: Vec<Vec<char>>)
    ensures
        seqs(out@) == components(path@),
{
    let mut segments = split_chars(path, SEPARATOR);
    let ghost all = seqs(segments@);
    let mut out: Vec<Vec<char>> = Vec::new();
    let n = segments.len();
    let mut i: usize = 0;
    assert(all.take(0) =~= Seq::<Seq<char>>::empty());
    assert(seqs(out@) =~= Seq::<Seq<char>>::empty());
    while i < n
        invariant
            i <= n,
            n == segments.len(),
            all.len() == n,
            forall|j: int| i <= j < n ==> segments@[j]@ == all[j],
            seqs(out@) == normal_only(all.take(i as int)),
        decreases n - i,
    {
        assert(all.take(i + 1).drop_last() =~= all.take(i as int));
        assert(all.take(i + 1).last() == all[i as int]);
        if segment_is_normal(segments[i].as_slice()) {
            let ghost before = seqs(out@);
            let mut taken: Vec<char> = Vec::new();
            std::mem::swap(&mut taken, &mut segments[i]);
            out.push(taken);
            assert(seqs(out@) =~= before.push(all[i as int]));
        }
        i += 1;
    }
    assert(all.take(n as int) =~= all);
    out
}

/// Whether a segment counts as a final component candidate.
fn segment_is_step(segment: &[char]) -> (b: bool)
    ensures
        b == is_step(segment@),
{
    if segment.len() == 1 {
        assert(segment@ == seq!['.'] <==> segment@ =~= seq!['.']);
        segment[0] != '.'
    } else {
        assert(seq!['.'].len() == 1);
        segment.len() > 0
    }
}

/// Whether a segment is `..`.
fn segment_is_parent(segment: &[char]) -> (b: bool)
    ensures
        b == (segment@ == seq!['.', '.']),
{
    if segment.len() == 2 {
        assert(segment@ == seq!['.', '.'] <==> segment@ =~= seq!['.', '.']);
        segment[0] == '.' && segment[1] == '.'
    } else {
        assert(seq!['.', '.'].len() == 2);
        false
    }
}

/// The final component of `path`.
pub fn file_name(path: &str) -> (out: Option<Vec<char>>)
    ensures
        match out {
            Some(name) => file_name_of(path@) == Some(name@),
            None => file_name_of(path@) is None,
        },
{
    let chars = chars_of(path);
    let mut segments = split_chars(chars.as_slice(), SEPARATOR);
    let ghost all = seqs(segments@);
    let mut i: usize = segments.len();
    assert(all.take(i as int) =~= all);
    while i > 0
        invariant
            i <= segments.len(),
            all == seqs(segments@),
            all == split(path@, SEPARATOR),
            last_step(all) == last_step(all.take(i as int)),
        decreases i,
    {
        i -= 1;
        assert(all.take(i + 1).drop_last() =~= all.take(i as int));
        assert(all.take(i + 1).last() == all[i as int]);
        assert(all[i as int] == segments@[i as int]@);
        if segment_is_step(segments[i].as_slice()) {
            if segment_is_parent(segments[i].as_slice()) {
                return None;
            }
            let mut name: Vec<char> = Vec::new();
            std::mem::swap(&mut name, &mut segments[i]);
            return Some(name);
        }
    }
    None
}

proof fn lemma_last_dot_unique(name: Seq<char>, i: int, j: int)
    requires
        is_last_dot(name, i),
        is_last_dot(name, j),
    ensures
        i == j,
{
}

/// The extension of a file name, as written.
pub fn name_extension(name: &[char]) -> (out: Option<Vec<char>>)
    ensures
        match out {
            Some(ext) => extension_of_name(name@) == Some(ext@),
            None => extension_of_name(name@) is None,
        },
{
    let mut i: usize = name.len();
    while i > 0
        invariant
            i <= name.len(),
            forall|j: int| i <= j < name.len() ==> name@[j] != '.',
        decreases i,
    {
        i -= 1;
        if name[i] == '.' {
            assert(is_last_dot(name@, i as int));
            proof {
                let c = choose|c: int| is_last_dot(name@, c);
                lemma_last_dot_unique(name@, i as int, c);
            }
            if i == 0 {
                return None;
            }
            let mut ext: Vec<char> = Vec::new();
            let mut k: usize = i + 1;
            while k < name.len()
                invariant
                    i + 1 <= k <= name.len(),
                    ext@ == name@.subrange(i + 1, k as int),
                decreases name.len() - k,
            {
                ext.push(name[k]);
                assert(ext@ =~= name@.subrange(i + 1, k + 1));
                k += 1;
            }
            return Some(ext);
        }
    }
    None
}

/// The extension of the final component of `file_path`, in lowercase.
pub fn get_file_extension(file_path: &str) -> (out: Option<String>)
    ensures
        opt_view(out) == extension_of(file_path@),
{
    match file_name(file_path) {
        Some(name) => match name_extension(name.as_slice()) {
            Some(ext) => {
                let raw = string_of(ext.as_slice());
                Some(to_lowercase(raw.as_str()))
            },
            None => None,
        },
        None => None,
    }
}

/// Whether a segment marks a path as hidden.
fn segment_is_hidden(segment: &[char]) -> (b: bool)
    ensures
        b == is_hidden_segment(segment@),
{
    if segment.len() == 0 {
        false
    } else if segment[0] != '.' {
        false
    } else {
        segment_is_normal(segment)
    }
}

/// Whether `path` is hidden: whether its name, or the name of a directory on
/// the way to it, starts with a dot (`.` and `..` aside).
pub fn is_hidden_file(path: &str) -> (b: bool)
    ensures
        b == is_hidden_path(path@),
{
    let chars = chars_of(path);
    let segments = split_chars(chars.as_slice(), SEPARATOR);
    let mut i: usize = 0;
    while i < segments.len()
        invariant
            i <= segments.len(),
            seqs(segments@) == split(path@, SEPARATOR),
            forall|j: int| 0 <= j < i ==> !is_hidden_segment(#[trigger] split(path@, SEPARATOR)[j]),
        decreases segments.len() - i,
    {
        assert(seqs(segments@)[i as int] == segments@[i as int]@);
        if segment_is_hidden(segments[i].as_slice()) {
            return true;
        }
        i += 1;
    }
    false
}

} // verus!
