//! Path mapping: suffix tests, root-relative paths, extension swapping and
//! the output location of a compiled unit.
//!
//! Paths are plain strings whose segments are separated by `/`.

use vstd::prelude::*;

verus! {

/// The suffix that marks a file as a source unit.
pub open spec fn source_suffix_spec() -> Seq<char> {
    ".ula"@
}

/// The extension given to every compiled output file.
pub open spec fn target_extension_spec() -> Seq<char> {
    "lua"@
}

/// The suffix that marks a file as a source unit.
pub fn source_suffix() -> (r: &'static str)
    ensures
        r@ == source_suffix_spec(),
{
    ".ula"
}

/// The extension given to every compiled output file.
pub fn target_extension() -> (r: &'static str)
    ensures
        r@ == target_extension_spec(),
{
    "lua"
}

/// `s` ends with `suffix`.
pub open spec fn seq_ends_with(s: Seq<char>, suffix: Seq<char>) -> bool {
    suffix.len() <= s.len() && s.subrange(s.len() - suffix.len(), s.len() as int)
        == suffix
}

/// `s` starts with `prefix`.
pub open spec fn seq_starts_with(s: Seq<char>, prefix: Seq<char>) -> bool {
    prefix.len() <= s.len() && s.subrange(0, prefix.len() as int) == prefix
}

/// Whether `s` ends with `suffix`, decided character by character.
pub fn str_has_suffix(s: &str, suffix: &str) -> (r: bool)
    ensures
        r == seq_ends_with(s@, suffix@),
{
    let n: usize = s.unicode_len();
    let m: usize = suffix.unicode_len();
    if m > n {
        return false;
    }
    let mut i: usize = 0;
    while i < m
        invariant
            i <= m,
            m <= n,
            n == s@.len(),
            m == suffix@.len(),
            forall|j: int| 0 <= j < i ==> s@[n - m + j] == suffix@[j],
        decreases m - i,
    {
        if s.get_char(n - m + i) != suffix.get_char(i) {
            proof {
                if seq_ends_with(s@, suffix@) {
                    assert(s@.subrange(s@.len() - suffix@.len(), s@.len() as int)[i as int]
                        == s@[n - m + i]);
                }
            }
            return false;
        }
        i = i + 1;
    }
    proof {
        assert(s@.subrange(s@.len() - suffix@.len(), s@.len() as int) =~= suffix@);
    }
    true
}

/// Whether `s` starts with `prefix`, decided character by character.
pub fn str_has_prefix(s: &str, prefix: &str) -> (r: bool)
    ensures
        r == seq_starts_with(s@, prefix@),
{
    let n: usize = s.unicode_len();
    let m: usize = prefix.unicode_len();
    if m > n {
        return false;
    }
    let mut i: usize = 0;
    while i < m
        invariant
            i <= m,
            m <= n,
            n == s@.len(),
            m == prefix@.len(),
            forall|j: int| 0 <= j < i ==> s@[j] == prefix@[j],
        decreases m - i,
    {
        if s.get_char(i) != prefix.get_char(i) {
            proof {
                if seq_starts_with(s@, prefix@) {
                    assert(s@.subrange(0, prefix@.len() as int)[i as int] == s@[i as int]);
                }
            }
            return false;
        }
        i = i + 1;
    }
    proof {
        assert(s@.subrange(0, prefix@.len() as int) =~= prefix@);
    }
    true
}

/// The greatest index at which `c` occurs in `s`, or `-1` when it does not.
pub open spec fn last_index_of(s: Seq<char>, c: char) -> int
    decreases s.len(),
{
    if s.len() == 0 {
        -1
    } else if s[s.len() - 1] == c {
        s.len() - 1
    } else {
        last_index_of(s.drop_last(), c)
    }
}

/// When `c` occurs nowhere in `s`, its last index is `-1`.
proof fn lemma_last_index_absent(s: Seq<char>, c: char)
    requires
        forall|j: int| 0 <= j < s.len() ==> s[j] != c,
    ensures
        last_index_of(s, c) == -1,
    decreases s.len(),
{
    if s.len() > 0 {
        assert(forall|j: int| 0 <= j < s.drop_last().len() ==> s.drop_last()[j] != c);
        lemma_last_index_absent(s.drop_last(), c);
    }
}

/// When `c` occurs at `i` and nowhere later, `i` is its last index.
proof fn lemma_last_index_found(s: Seq<char>, c: char, i: int)
    requires
        0 <= i < s.len(),
        s[i] == c,
        forall|j: int| i < j < s.len() ==> s[j] != c,
    ensures
        last_index_of(s, c) == i,
    decreases s.len(),
{
    if i < s.len() - 1 {
        assert(forall|j: int| i < j < s.drop_last().len() ==> s.drop_last()[j] != c);
        lemma_last_index_found(s.drop_last(), c, i);
    }
}

/// The position of the last occurrence of `c` in `s`, if any.
pub fn find_last_char(s: &str, c: char) -> (r: Option<usize>)
    ensures
        match r {
            Some(i) => i == last_index_of(s@, c) && i < s@.len(),
            None => last_index_of(s@, c) == -1,
        },
{
    let n: usize = s.unicode_len();
    let mut i: usize = n;
    while i > 0
        invariant
            i <= n,
            n == s@.len(),
            forall|j: int| i <= j < n ==> s@[j] != c,
        decreases i,
    {
        i = i - 1;
        if s.get_char(i) == c {
            proof {
                lemma_last_index_found(s@, c, i as int);
            }
            return Some(i);
        }
    }
    proof {
        lemma_last_index_absent(s@, c);
    }
    None
}

/// The root-relative part of `path` once the `root` prefix and one leading
/// separator are removed.
pub open spec fn strip_root(path: Seq<char>, root: Seq<char>) -> Seq<char>
    recommends
        seq_starts_with(path, root),
{
    let rest = path.subrange(root.len() as int, path.len() as int);
    if rest.len() > 0 && rest[0] == '/' {
        rest.subrange(1, rest.len() as int)
    } else {
        rest
    }
}

/// `dir` and `rel` joined with exactly one separator between them.
pub open spec fn join_path(dir: Seq<char>, rel: Seq<char>) -> Seq<char> {
    if dir.len() > 0 && dir[dir.len() - 1] == '/' {
        dir + rel
    } else {
        dir + "/"@ + rel
    }
}

/// `path` with the extension of its final segment replaced by `ext`; when the
/// final segment has no extension (no `.` after a non-empty stem), `.ext` is
/// appended instead.
pub open spec fn swap_extension(path: Seq<char>, ext: Seq<char>) -> Seq<char> {
    let dot = last_index_of(path, '.');
    let slash = last_index_of(path, '/');
    if dot > slash + 1 {
        path.subrange(0, dot) + "."@ + ext
    } else {
        path + "."@ + ext
    }
}

/// The output location of a unit: its root-relative path joined onto the
/// output root, with the extension swapped.
pub open spec fn mapped_output_path(
    input_root: Seq<char>,
    output_root: Seq<char>,
    path: Seq<char>,
    ext: Seq<char>,
) -> Seq<char>
    recommends
        seq_starts_with(path, input_root),
{
    swap_extension(join_path(output_root, strip_root(path, input_root)), ext)
}

/// The root-relative part of `path` under `root`.
pub fn rel_path(path: &str, root: &str) -> (r: String)
    requires
        seq_starts_with(path@, root@),
    ensures
        r@ == strip_root(path@, root@),
{
    let n: usize = path.unicode_len();
    let k: usize = root.unicode_len();
    let rest = path.substring_char(k, n);
    let rest_len: usize = rest.unicode_len();
    if rest_len > 0 && rest.get_char(0) == '/' {
        String::from_str(rest.substring_char(1, rest_len))
    } else {
        String::from_str(rest)
    }
}

/// `path` with its final segment's extension replaced by `ext`.
pub fn with_extension(path: &str, ext: &str) -> (r: String)
    ensures
        r@ == swap_extension(path@, ext@),
{
    let n: usize = path.unicode_len();
    let dot = find_last_char(path, '.');
    let slash = find_last_char(path, '/');
    let stem_end: usize = match (dot, slash) {
        (Some(d), Some(s)) => if d > s + 1 {
            d
        } else {
            n
        },
        (Some(d), None) => if d > 0 {
            d
        } else {
            n
        },
        (None, _) => n,
    };
    let mut out = String::from_str(path.substring_char(0, stem_end));
    out.append(".");
    out.append(ext);
    proof {
        assert(path@.subrange(0, path@.len() as int) =~= path@);
    }
    out
}

/// The output location of a unit under the output root.
pub fn map_output_path(input_root: &str, output_root: &str, path: &str, ext: &str) -> (r:
    String)
    requires
        seq_starts_with(path@, input_root@),
    ensures
        r@ == mapped_output_path(input_root@, output_root@, path@, ext@),
{
    let rel = rel_path(path, input_root);
    let out_len: usize = output_root.unicode_len();
    let mut joined = String::from_str(output_root);
    if !(out_len > 0 && output_root.get_char(out_len - 1) == '/') {
        joined.append("/");
    }
    joined.append(rel.as_str());
    with_extension(joined.as_str(), ext)
}

} // verus!
