//! Character-level helpers on text: conversion to characters, substrings,
//! and the file-path rules used to name modules and to match imports.

use vstd::prelude::*;
use vstd::string::*;

verus! {

/// Collects the characters of `text`, in order.
pub fn chars_of(text: &str) -> (r: Vec<char>)
    ensures
        r@ == text@,
{
    let n = text.unicode_len();
    let mut v: Vec<char> = Vec::new();
    let mut i: usize = 0;
    while i < n
        invariant
            n == text@.len(),
            i <= n,
            v@ == text@.subrange(0, i as int),
        decreases n - i,
    {
        let c = text.get_char(i);
        v.push(c);
        i = i + 1;
        assert(v@ =~= text@.subrange(0, i as int));
    }
    assert(v@ =~= text@);
    v
}

/// Copies the characters `lo..hi` of `text` into a new string.
pub fn substring(text: &str, lo: usize, hi: usize) -> (r: String)
    requires
        lo <= hi <= text@.len(),
    ensures
        r@ == text@.subrange(lo as int, hi as int),
{
    text.substring_char(lo, hi).to_owned()
}

/// Whether the characters of `s` from `pos` on begin with `w`.
pub fn starts_with_at(s: &Vec<char>, pos: usize, w: &str) -> (r: bool)
    requires
        pos <= s@.len(),
    ensures
        r == (pos + w@.len() <= s@.len() && s@.subrange(pos as int, pos + w@.len()) == w@),
{
    let n = w.unicode_len();
    if n > s.len() - pos {
        return false;
    }
    let mut i: usize = 0;
    while i < n
        invariant
            n == w@.len(),
            pos + n <= s.len(),
            i <= n,
            forall|j: int| 0 <= j < i ==> s@[pos + j] == w@[j],
        decreases n - i,
    {
        if s[pos + i] != w.get_char(i) {
            assert(s@.subrange(pos as int, pos + w@.len())[i as int] != w@[i as int]);
            return false;
        }
        i = i + 1;
    }
    assert(s@.subrange(pos as int, pos + w@.len()) =~= w@);
    true
}

/// The index of the last occurrence of `c` in `s`, or -1.
pub open spec fn last_index(s: Seq<char>, c: char) -> int
    decreases s.len(),
{
    if s.len() == 0 {
        -1
    } else if s.last() == c {
        s.len() - 1
    } else {
        last_index(s.drop_last(), c)
    }
}

/// The path without trailing separators and trailing `.` components, which
/// name no file (a lone `/` is kept).
pub open spec fn trim_end_dirs(p: Seq<char>) -> Seq<char>
    decreases p.len(),
{
    if p.len() > 1 && p.last() == '/' {
        trim_end_dirs(p.drop_last())
    } else if p.len() > 2 && p.last() == '.' && p[p.len() - 2] == '/' {
        trim_end_dirs(p.subrange(0, p.len() - 2))
    } else {
        p
    }
}

/// The last component of a `/`-separated path, as `Path::file_name` reads it:
/// trailing separators and `.` components are ignored, and `.`, `..` or no
/// component at all give no file name (empty).
pub open spec fn file_name_of(p: Seq<char>) -> Seq<char> {
    let t = trim_end_dirs(p);
    let n = t.subrange(last_index(t, '/') + 1, t.len() as int);
    if n == seq!['.'] || n == seq!['.', '.'] {
        Seq::empty()
    } else {
        n
    }
}

/// The file stem: the file name without its final extension. A leading dot
/// does not start an extension.
pub open spec fn stem_of(p: Seq<char>) -> Seq<char> {
    let n = file_name_of(p);
    let d = last_index(n, '.');
    if d <= 0 {
        n
    } else {
        n.subrange(0, d)
    }
}

/// The extension of the file name, if it has one.
pub open spec fn extension_of(p: Seq<char>) -> Option<Seq<char>> {
    let n = file_name_of(p);
    let d = last_index(n, '.');
    if d <= 0 {
        None
    } else {
        Some(n.subrange(d + 1, n.len() as int))
    }
}

/// Whether `file` ends with the relative path `path`, on a component boundary.
pub open spec fn path_ends_with(file: Seq<char>, path: Seq<char>) -> bool {
    file == path || (file.len() > path.len() && file.subrange(
        file.len() - path.len(),
        file.len() as int,
    ) == path && file[file.len() - path.len() - 1] == '/')
}

proof fn lemma_last_index_bounds(s: Seq<char>, c: char)
    ensures
        -1 <= last_index(s, c) < s.len(),
        last_index(s, c) >= 0 ==> s[last_index(s, c)] == c,
    decreases s.len(),
{
    if s.len() > 0 && s.last() != c {
        lemma_last_index_bounds(s.drop_last(), c);
    }
}

/// Finds the last `c` in `s[lo..hi]`.
fn find_last(s: &Vec<char>, lo: usize, hi: usize, c: char) -> (r: Option<usize>)
    requires
        lo <= hi <= s@.len(),
    ensures
        match r {
            None => last_index(s@.subrange(lo as int, hi as int), c) == -1,
            Some(k) => lo <= k < hi && last_index(s@.subrange(lo as int, hi as int), c) == k - lo,
        },
{
    let mut i: usize = hi;
    while i > lo
        invariant
            lo <= i <= hi <= s@.len(),
            last_index(s@.subrange(lo as int, hi as int), c) == last_index(
                s@.subrange(lo as int, i as int),
                c,
            ),
        decreases i,
    {
        if s[i - 1] == c {
            return Some(i - 1);
        }
        assert(s@.subrange(lo as int, i as int).drop_last() =~= s@.subrange(lo as int, i - 1));
        i = i - 1;
    }
    None
}

/// The span `start..end` of the file name of the path `s` (empty when it has none).
fn file_name_span(s: &Vec<char>) -> (r: (usize, usize))
    ensures
        r.0 <= r.1 <= s@.len(),
        s@.subrange(r.0 as int, r.1 as int) == file_name_of(s@),
{
    let mut end = s.len();
    assert(s@.subrange(0, end as int) =~= s@);
    while (end > 1 && s[end - 1] == '/') || (end > 2 && s[end - 1] == '.' && s[end - 2] == '/')
        invariant
            end <= s@.len(),
            trim_end_dirs(s@) == trim_end_dirs(s@.subrange(0, end as int)),
        decreases end,
    {
        if end > 1 && s[end - 1] == '/' {
            assert(s@.subrange(0, end as int).drop_last() =~= s@.subrange(0, end - 1));
            end = end - 1;
        } else {
            assert(s@.subrange(0, end as int).subrange(0, end - 2) =~= s@.subrange(0, end - 2));
            end = end - 2;
        }
    }
    let ghost t = s@.subrange(0, end as int);
    assert(trim_end_dirs(t) == t);
    let start = match find_last(s, 0, end, '/') {
        Some(k) => k + 1,
        None => 0,
    };
    assert(t.subrange(last_index(t, '/') + 1, t.len() as int) =~= s@.subrange(start as int, end as int));
    if (end - start == 1 && s[start] == '.') || (end - start == 2 && s[start] == '.' && s[start + 1]
        == '.') {
        assert(s@.subrange(start as int, end as int) =~= seq!['.'] || s@.subrange(start as int, end as int)
            =~= seq!['.', '.']);
        assert(s@.subrange(start as int, start as int) =~= Seq::<char>::empty());
        (start, start)
    } else {
        assert(s@.subrange(start as int, end as int) != seq!['.']) by {
            if end - start == 1 {
                assert(s@.subrange(start as int, end as int)[0] == s@[start as int]);
            }
        }
        assert(s@.subrange(start as int, end as int) != seq!['.', '.']) by {
            if end - start == 2 {
                assert(s@.subrange(start as int, end as int)[0] == s@[start as int]);
                assert(s@.subrange(start as int, end as int)[1] == s@[start + 1]);
            }
        }
        (start, end)
    }
}

/// The file stem of a path (`lib/utils.wgsl` gives `utils`), as `Path::file_stem`
/// gives it; empty when the path names no file.
pub fn file_stem(path: &str) -> (r: String)
    ensures
        r@ == stem_of(path@),
{
    let s = chars_of(path);
    let (start, end) = file_name_span(&s);
    let ghost name = s@.subrange(start as int, end as int);
    match find_last(&s, start, end, '.') {
        Some(k) if k > start => {
            assert(name.subrange(0, k - start) =~= s@.subrange(start as int, k as int));
            substring(path, start, k)
        },
        _ => substring(path, start, end),
    }
}

/// The extension of a path's file name (`a/b.wgsl` gives `wgsl`).
pub fn extension(path: &str) -> (r: Option<String>)
    ensures
        r is Some <==> extension_of(path@) is Some,
        r is Some ==> r->0@ == extension_of(path@)->0,
{
    let s = chars_of(path);
    let (start, end) = file_name_span(&s);
    let ghost name = s@.subrange(start as int, end as int);
    match find_last(&s, start, end, '.') {
        Some(k) if k > start => {
            assert(name.subrange(k - start + 1, name.len() as int) =~= s@.subrange(k + 1, end as int));
            Some(substring(path, k + 1, end))
        },
        _ => None,
    }
}

/// The file name of a path (`a/b.wgsl` gives `b.wgsl`).
pub fn file_name(path: &str) -> (r: String)
    ensures
        r@ == file_name_of(path@),
{
    let s = chars_of(path);
    let (start, end) = file_name_span(&s);
    substring(path, start, end)
}

/// Whether the registry entry `file` ends with the import path `path`.
pub fn ends_with_path(file: &str, path: &str) -> (r: bool)
    ensures
        r == path_ends_with(file@, path@),
{
    let f = chars_of(file);
    let p = chars_of(path);
    if f.len() == p.len() {
        let same = starts_with_at(&f, 0, path);
        proof {
            if f@ == p@ {
                assert(f@.subrange(0, p@.len() as int) =~= f@);
            }
            if same {
                assert(f@.subrange(0, p@.len() as int) =~= f@);
            }
        }
        return same;
    }
    if f.len() < p.len() {
        return false;
    }
    let k = f.len() - p.len();
    starts_with_at(&f, k, path) && f[k - 1] == '/'
}

/// Whether the characters of `s` equal those of `t`.
pub fn same_text(s: &str, t: &str) -> (r: bool)
    ensures
        r == (s@ == t@),
{
    let v = chars_of(s);
    if v.len() != t.unicode_len() {
        return false;
    }
    let r = starts_with_at(&v, 0, t);
    assert(v@.subrange(0, t@.len() as int) =~= v@);
    r
}

} // verus!
