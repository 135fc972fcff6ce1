//! File-name, extension and joining rules of `std::path::Path` for `/`-separated
//! paths, stated over character sequences.

use vstd::prelude::*;
use crate::text::{after_last, after_last_start, slice_to_vec};

verus! {

/// `after_last(s, c)` is a suffix of `s`, preceded by `c` when shorter than `s`.
pub proof fn lemma_after_last_shape(s: Seq<char>, c: char)
    ensures
        after_last(s, c).len() <= s.len(),
        after_last(s, c) == s.skip(s.len() - after_last(s, c).len()),
        after_last(s, c).len() < s.len() ==> s[s.len() - after_last(s, c).len() - 1] == c,
    decreases s.len(),
{
    if s.len() == 0 {
        assert(s.skip(0) =~= s);
    } else if s.last() == c {
        assert(s.skip(s.len() as int) =~= seq![]);
    } else {
        let t = s.drop_last();
        lemma_after_last_shape(t, c);
        let a = after_last(t, c);
        assert(t.skip(t.len() - a.len()).push(s.last()) =~= s.skip(s.len() - a.len() - 1));
        if a.len() < t.len() {
            assert(s[s.len() - a.len() - 2] == t[t.len() - a.len() - 1]);
        }
    }
}

/// Where the file name of `s` lies, as `(start, end)`: the last component unless
/// it is `..`; trailing `/` and `.` components are passed over.
pub open spec fn name_bounds(s: Seq<char>) -> Option<(int, int)>
    decreases s.len(),
{
    let seg = after_last(s, '/');
    proof {
        lemma_after_last_shape(s, '/');
    }
    if seg.len() == 0 || seg == seq!['.'] {
        if seg.len() == s.len() {
            None
        } else {
            name_bounds(s.take(s.len() - seg.len() - 1))
        }
    } else if seg == seq!['.', '.'] {
        None
    } else {
        Some((s.len() - seg.len(), s.len() as int))
    }
}

/// `Path::file_name`.
pub open spec fn file_name(s: Seq<char>) -> Option<Seq<char>> {
    match name_bounds(s) {
        Some((a, b)) => Some(s.subrange(a, b)),
        None => None,
    }
}

/// The bounds of a file name lie within the path and are not empty.
pub proof fn lemma_name_bounds_valid(s: Seq<char>)
    ensures
        name_bounds(s) matches Some((a, b)) ==> 0 <= a < b <= s.len(),
    decreases s.len(),
{
    lemma_after_last_shape(s, '/');
    let seg = after_last(s, '/');
    if seg.len() == 0 || seg == seq!['.'] {
        if seg.len() != s.len() {
            let t = s.take(s.len() - seg.len() - 1);
            lemma_name_bounds_valid(t);
        }
    }
}

/// `Path::extension`: what follows the last `.` of the file name, unless the
/// name has no `.` or its only leading part before that `.` is empty.
pub open spec fn extension(s: Seq<char>) -> Option<Seq<char>> {
    match file_name(s) {
        None => None,
        Some(name) => {
            let e = after_last(name, '.');
            if e.len() == name.len() || e.len() + 1 == name.len() {
                None
            } else {
                Some(e)
            }
        },
    }
}

/// `path.extension().and_then(to_str).unwrap_or_default()`.
pub open spec fn extension_or_empty(s: Seq<char>) -> Seq<char> {
    match extension(s) {
        Some(e) => e,
        None => seq![],
    }
}

/// `path.file_name().and_then(to_str).unwrap_or_default()`.
pub open spec fn file_name_or_empty(s: Seq<char>) -> Seq<char> {
    match file_name(s) {
        Some(n) => n,
        None => seq![],
    }
}

/// `Path::join` for a `/`-separated base and component.
pub open spec fn join(base: Seq<char>, name: Seq<char>) -> Seq<char> {
    if name.len() > 0 && name[0] == '/' {
        name
    } else if base.len() > 0 && base.last() != '/' {
        base + seq!['/'] + name
    } else {
        base + name
    }
}

/// Where the file name of `path` lies.
pub fn name_bounds_of(path: &[char]) -> (r: Option<(usize, usize)>)
    ensures
        r is None <==> name_bounds(path@) is None,
        r matches Some((a, b)) ==> name_bounds(path@) == Some((a as int, b as int)) && a < b
            <= path@.len(),
{
    proof {
        lemma_name_bounds_valid(path@);
    }
    let mut end = path.len();
    let ghost full = path@;
    assert(path@.take(end as int) =~= path@);
    loop
        invariant
            end <= path@.len(),
            full == path@,
            name_bounds(path@.take(end as int)) == name_bounds(full),
            name_bounds(full) matches Some((a, b)) ==> 0 <= a < b <= full.len(),
        decreases end,
    {
        let ghost s = path@.take(end as int);
        let prefix = slice_to_vec(path, 0, end);
        assert(prefix@ =~= s);
        let start = after_last_start(prefix.as_slice(), '/');
        let seg_len = end - start;
        proof {
            lemma_after_last_shape(s, '/');
        }
        let is_dot = seg_len == 1 && path[start] == '.';
        let is_dotdot = seg_len == 2 && path[start] == '.' && path[start + 1] == '.';
        let ghost seg = after_last(s, '/');
        assert(seg == s.skip(start as int));
        assert(is_dot <==> seg == seq!['.']) by {
            if seg_len == 1 {
                assert(seg[0] == path@[start as int]);
                if seg == seq!['.'] {
                    assert(seg[0] == '.');
                }
                if is_dot {
                    assert(seg =~= seq!['.']);
                }
            }
        }
        assert(is_dotdot <==> seg == seq!['.', '.']) by {
            if seg_len == 2 {
                assert(seg[0] == path@[start as int]);
                assert(seg[1] == path@[start + 1]);
                if seg == seq!['.', '.'] {
                    assert(seg[0] == '.' && seg[1] == '.');
                }
                if is_dotdot {
                    assert(seg =~= seq!['.', '.']);
                }
            }
        }
        if seg_len == 0 || is_dot {
            if start == 0 {
                return None;
            }
            assert(s.take(s.len() - seg.len() - 1) =~= path@.take(start - 1));
            end = start - 1;
        } else if is_dotdot {
            return None;
        } else {
            return Some((start, end));
        }
    }
}

/// The file name of `path`, if it has one.
pub fn file_name_of(path: &[char]) -> (r: Option<Vec<char>>)
    ensures
        match file_name(path@) {
            Some(n) => r matches Some(v) && v@ == n,
            None => r is None,
        },
{
    match name_bounds_of(path) {
        None => None,
        Some((a, b)) => {
            assert(name_bounds(path@) == Some((a as int, b as int)));
            Some(slice_to_vec(path, a, b))
        },
    }
}

/// `extension_or_empty(path)`.
pub fn extension_of(path: &[char]) -> (e: Vec<char>)
    ensures
        e@ == extension_or_empty(path@),
{
    match file_name_of(path) {
        None => Vec::new(),
        Some(name) => {
            let start = after_last_start(name.as_slice(), '.');
            proof {
                lemma_after_last_shape(name@, '.');
            }
            if start == 0 || start == 1 {
                Vec::new()
            } else {
                slice_to_vec(name.as_slice(), start, name.len())
            }
        },
    }
}

/// `file_name_or_empty(path)`.
pub fn file_name_or_empty_of(path: &[char]) -> (n: Vec<char>)
    ensures
        n@ == file_name_or_empty(path@),
{
    match file_name_of(path) {
        None => Vec::new(),
        Some(name) => name,
    }
}

/// `join(base, name)`.
pub fn join_chars(base: &[char], name: &[char]) -> (out: Vec<char>)
    ensures
        out@ == join(base@, name@),
{
    if name.len() > 0 && name[0] == '/' {
        return slice_to_vec(name, 0, name.len());
    }
    let mut out = slice_to_vec(base, 0, base.len());
    if base.len() > 0 && base[base.len() - 1] != '/' {
        out.push('/');
    }
    let n = name.len();
    for i in 0..n
        invariant
            n == name@.len(),
            out@ == (if base@.len() > 0 && base@.last() != '/' {
                base@ + seq!['/']
            } else {
                base@
            }) + name@.take(i as int),
    {
        out.push(name[i]);
        assert(name@.take(i + 1) == name@.take(i as int).push(name@[i as int]));
    }
    assert(name@.take(n as int) =~= name@);
    assert(base@.subrange(0, base@.len() as int) =~= base@);
    out
}


/// The ASCII-lowercased extension of `path`, empty when it has none.
pub fn lower_extension(path: &str) -> (e: Vec<char>)
    ensures
        e@ == crate::text::lower(extension_or_empty(path@)),
{
    let p = crate::text::to_chars(path);
    let e = extension_of(p.as_slice());
    crate::text::to_lower(e.as_slice())
}

/// The ASCII-lowercased file name of `path`, empty when it has none.
pub fn lower_file_name(path: &str) -> (n: Vec<char>)
    ensures
        n@ == crate::text::lower(file_name_or_empty(path@)),
{
    let p = crate::text::to_chars(path);
    let n = file_name_or_empty_of(p.as_slice());
    crate::text::to_lower(n.as_slice())
}


/// Where the file stem of `s` ends: before the last `.` of the file name when the
/// name has an extension, otherwise at the end of the name.
pub open spec fn stem_end(s: Seq<char>) -> Option<int> {
    match name_bounds(s) {
        None => None,
        Some((a, b)) => {
            let name = s.subrange(a, b);
            let e = after_last(name, '.');
            if e.len() == name.len() || e.len() + 1 == name.len() {
                Some(b)
            } else {
                Some(b - e.len() - 1)
            }
        },
    }
}

/// `Path::with_extension`: everything after the file stem replaced by `.ext`
/// (by nothing when `ext` is empty); a path without a file name is kept.
pub open spec fn with_extension(s: Seq<char>, ext: Seq<char>) -> Seq<char> {
    match stem_end(s) {
        None => s,
        Some(k) => s.take(k) + (if ext.len() > 0 {
            seq!['.'] + ext
        } else {
            seq![]
        }),
    }
}

/// `with_extension(path, ext)`.
pub fn with_extension_of(path: &str, ext: &str) -> (out: String)
    ensures
        out@ == with_extension(path@, ext@),
{
    let p = crate::text::to_chars(path);
    match name_bounds_of(p.as_slice()) {
        None => String::from_str(path),
        Some((a, b)) => {
            let name = slice_to_vec(p.as_slice(), a, b);
            let start = after_last_start(name.as_slice(), '.');
            proof {
                lemma_after_last_shape(name@, '.');
            }
            let k = if start == 0 || start == 1 {
                b
            } else {
                a + start - 1
            };
            let mut out = slice_to_vec(p.as_slice(), 0, k);
            let e = crate::text::to_chars(ext);
            if e.len() > 0 {
                out.push('.');
                crate::text::extend_chars(&mut out, e.as_slice());
            }
            assert(out@ =~= with_extension(path@, ext@));
            crate::text::from_chars(out.as_slice())
        },
    }
}

} // verus!
