//! Decisions the site generator takes about files: which Markdown files are posts, what
//! their pages are called, and which static files need copying.
use vstd::prelude::*;

use crate::text::{chars_of, same_text, string_of_range};

verus! {

/// The position of the last `.` in `s`.
pub open spec fn last_dot(s: Seq<char>) -> Option<int>
    decreases s.len(),
{
    if s.len() == 0 {
        None
    } else if s.last() == '.' {
        Some(s.len() - 1)
    } else {
        last_dot(s.drop_last())
    }
}

/// `last_dot` reports the last `.` of `s`, and nothing when `s` holds none.
pub proof fn lemma_last_dot(s: Seq<char>)
    ensures
        match last_dot(s) {
            Some(i) => 0 <= i < s.len() && s[i] == '.' && forall|j: int| i < j < s.len() ==> s[j] != '.',
            None => forall|j: int| 0 <= j < s.len() ==> s[j] != '.',
        },
    decreases s.len(),
{
    if s.len() > 0 && s.last() != '.' {
        let t = s.drop_last();
        lemma_last_dot(t);
        assert forall|j: int| 0 <= j < t.len() implies t[j] == s[j] by {}
    }
}

/// `name` names no file (as `Path::file_name` sees it): it is empty, `.` or `..`.
pub open spec fn no_file_name(name: Seq<char>) -> bool {
    name.len() == 0 || name == seq!['.'] || name == seq!['.', '.']
}

/// Where the extension of a file name starts: after its last `.`, unless that `.` is the
/// first character (`.bashrc` has none).
pub open spec fn extension_dot(name: Seq<char>) -> Option<int> {
    if no_file_name(name) {
        None
    } else {
        match last_dot(name) {
            Some(i) => if i > 0 {
                Some(i)
            } else {
                None
            },
            None => None,
        }
    }
}

/// The extension of a file name, as `Path::extension` gives it.
pub open spec fn extension_of(name: Seq<char>) -> Option<Seq<char>> {
    match extension_dot(name) {
        Some(i) => Some(name.subrange(i + 1, name.len() as int)),
        None => None,
    }
}

/// A file name without its extension, as `Path::file_stem` gives it.
pub open spec fn stem_of(name: Seq<char>) -> Seq<char> {
    match extension_dot(name) {
        Some(i) => name.subrange(0, i),
        None => name,
    }
}

/// A file name with its extension replaced by `ext` (removed when `ext` is empty), as
/// `Path::set_extension` does; a name that names no file stays as it is.
pub open spec fn with_extension_of(name: Seq<char>, ext: Seq<char>) -> Seq<char> {
    if no_file_name(name) {
        name
    } else if ext.len() == 0 {
        stem_of(name)
    } else {
        stem_of(name) + seq!['.'] + ext
    }
}

fn is_no_file_name(v: &Vec<char>) -> (b: bool)
    ensures
        b == no_file_name(v@),
{
    let n = v.len();
    if n == 1 && v[0] == '.' {
        assert(v@ =~= seq!['.']);
    }
    if n == 2 && v[0] == '.' && v[1] == '.' {
        assert(v@ =~= seq!['.', '.']);
    }
    n == 0 || (n == 1 && v[0] == '.') || (n == 2 && v[0] == '.' && v[1] == '.')
}

fn find_extension_dot(v: &Vec<char>) -> (r: Option<usize>)
    ensures
        match r {
            Some(i) => extension_dot(v@) == Some(i as int) && i < v@.len(),
            None => extension_dot(v@) is None,
        },
{
    let n = v.len();
    if is_no_file_name(v) {
        return None;
    }
    assert(v@.subrange(0, n as int) =~= v@);
    let mut k = n;
    while k > 0
        invariant
            n == v@.len(),
            0 <= k <= n,
            !no_file_name(v@),
            last_dot(v@) == last_dot(v@.subrange(0, k as int)),
        decreases k,
    {
        proof {
            assert(v@.subrange(0, k as int).drop_last() =~= v@.subrange(0, k - 1));
        }
        proof {
            lemma_last_dot(v@.subrange(0, k as int));
        }
        assert(v@.subrange(0, k as int).last() == v@[k - 1]);
        if v[k - 1] == '.' {
            if k - 1 > 0 {
                return Some(k - 1);
            } else {
                return None;
            }
        }
        k -= 1;
    }
    None
}

/// The extension of a file name (`Path::extension`): what follows its last `.`, unless
/// that `.` starts the name.
pub fn file_extension(name: &str) -> (ext: Option<String>)
    ensures
        match ext {
            Some(e) => extension_of(name@) == Some(e@),
            None => extension_of(name@) is None,
        },
{
    let v = chars_of(name);
    let n = v.len();
    match find_extension_dot(&v) {
        Some(i) => Some(string_of_range(&v, i + 1, n)),
        None => None,
    }
}

/// Whether a file name has the extension `ext` (the test that picks out posts).
pub fn has_extension(name: &str, ext: &str) -> (b: bool)
    ensures
        b == (extension_of(name@) == Some(ext@)),
{
    match file_extension(name) {
        Some(e) => same_text(e.as_str(), ext),
        None => false,
    }
}

/// A file name with its extension replaced (`Path::set_extension`): `post.md` with
/// `html` is `post.html`.
pub fn with_extension(name: &str, ext: &str) -> (res: String)
    ensures
        res@ == with_extension_of(name@, ext@),
{
    let v = chars_of(name);
    if is_no_file_name(&v) {
        return String::from_str(name);
    }
    let n = v.len();
    let stem_end = match find_extension_dot(&v) {
        Some(i) => i,
        None => n,
    };
    let mut res = string_of_range(&v, 0, stem_end);
    assert(res@ == stem_of(name@)) by {
        assert(v@.subrange(0, n as int) =~= v@);
    }
    if !ext.is_empty() {
        res.push('.');
        res.append(ext);
    }
    res
}

/// `s` holds no `.`.
pub open spec fn dot_free(s: Seq<char>) -> bool {
    forall|i: int| 0 <= i < s.len() ==> s[i] != '.'
}

proof fn lemma_last_dot_of_suffix(a: Seq<char>, b: Seq<char>)
    requires
        dot_free(b),
    ensures
        last_dot(a + seq!['.'] + b) == Some(a.len() as int),
    decreases b.len(),
{
    if b.len() == 0 {
        assert(a + seq!['.'] + b =~= a.push('.'));
    } else {
        assert((a + seq!['.'] + b).drop_last() =~= a + seq!['.'] + b.drop_last());
        lemma_last_dot_of_suffix(a, b.drop_last());
    }
}

proof fn lemma_stem_nonempty(name: Seq<char>)
    requires
        !no_file_name(name),
    ensures
        stem_of(name).len() > 0,
{
    lemma_last_dot(name);
}

/// Giving a file a new extension (non-empty, without a `.`) gives it exactly that
/// extension and keeps its stem.
pub proof fn lemma_with_extension_sets_extension(name: Seq<char>, ext: Seq<char>)
    requires
        !no_file_name(name),
        ext.len() > 0,
        dot_free(ext),
    ensures
        extension_of(with_extension_of(name, ext)) == Some(ext),
        stem_of(with_extension_of(name, ext)) == stem_of(name),
{
    let stem = stem_of(name);
    lemma_stem_nonempty(name);
    let r = stem + seq!['.'] + ext;
    lemma_last_dot_of_suffix(stem, ext);
    if r == seq!['.', '.'] {
        assert(r[r.len() - 1] == '.');
        assert(r[r.len() - 1] == ext[ext.len() - 1]);
    }
    if r == seq!['.'] {
        assert(r.len() >= 2);
    }
    assert(!no_file_name(r));
    assert(r.subrange((stem.len() + 1) as int, r.len() as int) =~= ext);
    assert(r.subrange(0, stem.len() as int) =~= stem);
}

/// Giving a file the same new extension twice is giving it once.
pub proof fn lemma_with_extension_idempotent(name: Seq<char>, ext: Seq<char>)
    requires
        ext.len() > 0,
        dot_free(ext),
    ensures
        with_extension_of(with_extension_of(name, ext), ext) == with_extension_of(name, ext),
{
    if !no_file_name(name) {
        lemma_with_extension_sets_extension(name, ext);
        let r = with_extension_of(name, ext);
        lemma_stem_nonempty(name);
        assert(r.len() >= 2);
    }
}

/// What was found of a static file's copy: nothing there, metadata that could not be
/// read (the error), or metadata and, from it, its modification time or the error reading it.
pub enum Destination<E> {
    Missing,
    Unreadable(E),
    Found(Result<i128, E>),
}

/// Whether a static file is copied, given the source's modification time (or the error
/// reading it) and what was found of the copy: `Ok(true)` when the copy is missing or
/// older than the source, `Ok(false)` when it is as new or newer, and the error when
/// reading the copy's metadata, the source's time or the copy's time fails (checked in
/// that order). The source's time matters only when the copy exists. Times are in any
/// one unit and origin.
pub fn should_copy_file<E>(src_modified: Result<i128, E>, dst: Destination<E>) -> (res: Result<bool, E>)
    ensures
        res == match dst {
            Destination::Missing => Ok(true),
            Destination::Unreadable(e) => Err(e),
            Destination::Found(dst_modified) => match src_modified {
                Err(e) => Err(e),
                Ok(s) => match dst_modified {
                    Err(e) => Err(e),
                    Ok(d) => Ok(s > d),
                },
            },
        },
{
    match dst {
        Destination::Missing => Ok(true),
        Destination::Unreadable(e) => Err(e),
        Destination::Found(dst_modified) => {
            let s = src_modified?;
            let d = dst_modified?;
            Ok(s > d)
        },
    }
}

/// How much the generator logs.
#[derive(Debug, Clone, Copy, PartialEq, Eq, Structural)]
pub enum LogLevel {
    Info,
    Debug,
    Trace,
}

/// The log level for the number of `-v` flags: none logs at `Info`, one at `Debug`, more
/// at `Trace`.
pub fn log_level(verbosity: u8) -> (level: LogLevel)
    ensures
        level == (if verbosity == 0 {
            LogLevel::Info
        } else if verbosity == 1 {
            LogLevel::Debug
        } else {
            LogLevel::Trace
        }),
{
    if verbosity == 0 {
        LogLevel::Info
    } else if verbosity == 1 {
        LogLevel::Debug
    } else {
        LogLevel::Trace
    }
}

} // verus!
