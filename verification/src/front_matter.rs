//! Splitting a post into its `+++`-fenced TOML front matter and its Markdown body.
use vstd::prelude::*;

use crate::text::{chars_of, string_of_range};

verus! {

/// The fence that opens and closes the front matter.
pub open spec fn fence() -> Seq<char> {
    seq!['+', '+', '+']
}

/// `s` holds the fence at position `i`.
pub open spec fn fence_at(s: Seq<char>, i: int) -> bool {
    &&& 0 <= i
    &&& i + 3 <= s.len()
    &&& s[i] == '+'
    &&& s[i + 1] == '+'
    &&& s[i + 2] == '+'
}

/// The first position at or after `from` where the fence occurs (what `str::find` reports).
pub open spec fn find_fence(s: Seq<char>, from: int) -> Option<int>
    decreases s.len() - from,
{
    if from < 0 || from + 3 > s.len() {
        None
    } else if fence_at(s, from) {
        Some(from)
    } else {
        find_fence(s, from + 1)
    }
}

/// `find_fence` reports the least position at or after `from` where the fence occurs,
/// and reports nothing exactly when the fence occurs nowhere at or after `from`.
pub proof fn lemma_find_fence(s: Seq<char>, from: int)
    requires
        0 <= from,
    ensures
        match find_fence(s, from) {
            Some(i) => {
                &&& from <= i
                &&& fence_at(s, i)
                &&& forall|j: int| from <= j < i ==> !#[trigger] fence_at(s, j)
            },
            None => forall|j: int| from <= j ==> !#[trigger] fence_at(s, j),
        },
    decreases s.len() - from,
{
    if from + 3 > s.len() {
    } else if fence_at(s, from) {
    } else {
        lemma_find_fence(s, from + 1);
        assert forall|j: int| from <= j < from + 1 implies !#[trigger] fence_at(s, j) by {}
    }
}

/// The fence occurs first at `k` when counting from `from`.
pub proof fn lemma_find_fence_is(s: Seq<char>, from: int, k: int)
    requires
        0 <= from <= k,
        fence_at(s, k),
        forall|j: int| from <= j < k ==> !#[trigger] fence_at(s, j),
    ensures
        find_fence(s, from) == Some(k),
{
    lemma_find_fence(s, from);
}

/// `x` followed by a fence holds no fence that starts inside `x`: the fence that follows
/// is the first one.
pub open spec fn fence_free(x: Seq<char>) -> bool {
    forall|j: int| 0 <= j < x.len() ==> !#[trigger] fence_at(x + fence(), j)
}

/// Why a post has no front matter.
#[derive(Debug, Clone, Copy, PartialEq, Eq, Structural)]
pub enum HeaderError {
    /// No opening `+++`.
    StartDelimiterNotFound,
    /// An opening `+++` but no closing one after it.
    EndDelimiterNotFound,
}

impl HeaderError {
    /// The message the error is reported with.
    pub fn message(&self) -> (m: String)
        ensures
            m@ == self.spec_message(),
    {
        match self {
            HeaderError::StartDelimiterNotFound => {
                let m = String::from_str("start delimiter +++ not found");
                proof { reveal_strlit("start delimiter +++ not found"); }
                m
            },
            HeaderError::EndDelimiterNotFound => {
                let m = String::from_str("end delimiter +++ not found");
                proof { reveal_strlit("end delimiter +++ not found"); }
                m
            },
        }
    }

    pub open spec fn spec_message(&self) -> Seq<char> {
        match self {
            HeaderError::StartDelimiterNotFound => "start delimiter +++ not found"@,
            HeaderError::EndDelimiterNotFound => "end delimiter +++ not found"@,
        }
    }
}

/// The split of a post: the text between the first fence and the next fence after it,
/// and everything after that second fence.
pub open spec fn split_header(s: Seq<char>) -> Result<(Seq<char>, Seq<char>), HeaderError> {
    match find_fence(s, 0) {
        None => Err(HeaderError::StartDelimiterNotFound),
        Some(a) => match find_fence(s, a + 3) {
            None => Err(HeaderError::EndDelimiterNotFound),
            Some(b) => Ok((s.subrange(a + 3, b), s.subrange(b + 3, s.len() as int))),
        },
    }
}

fn find_fence_from(v: &Vec<char>, from: usize) -> (r: Option<usize>)
    requires
        from <= v@.len(),
    ensures
        match r {
            Some(i) => find_fence(v@, from as int) == Some(i as int),
            None => find_fence(v@, from as int) is None,
        },
{
    let mut i = from;
    while i < v.len()
        invariant
            from <= i <= v@.len(),
            find_fence(v@, from as int) == find_fence(v@, i as int),
        decreases v@.len() - i,
    {
        if v.len() - i < 3 {
            return None;
        }
        if v[i] == '+' && v[i + 1] == '+' && v[i + 2] == '+' {
            return Some(i);
        }
        i += 1;
    }
    None
}

/// Splits a post into its front matter (the text between the first `+++` and the next
/// `+++` after it) and its Markdown body (everything after that second `+++`).
pub fn get_header(content: &str) -> (res: Result<(String, String), HeaderError>)
    ensures
        match (res, split_header(content@)) {
            (Ok((fm, md)), Ok((sfm, smd))) => fm@ == sfm && md@ == smd,
            (Err(e), Err(se)) => e == se,
            _ => false,
        },
{
    let v = chars_of(content);
    let n = v.len();
    proof {
        lemma_find_fence(v@, 0);
    }
    match find_fence_from(&v, 0) {
        None => Err(HeaderError::StartDelimiterNotFound),
        Some(a) => {
            let start = a + 3;
            proof {
                lemma_find_fence(v@, start as int);
            }
            match find_fence_from(&v, start) {
                None => Err(HeaderError::EndDelimiterNotFound),
                Some(b) => {
                    let front = string_of_range(&v, start, b);
                    let body = string_of_range(&v, b + 3, n);
                    Ok((front, body))
                },
            }
        },
    }
}

/// A split post is its fence-free prefix, the opening fence, the front matter, the
/// closing fence and the body, in that order: nothing is lost or added.
pub proof fn lemma_split_reassembles(s: Seq<char>)
    ensures
        split_header(s) matches Ok((fm, md)) ==> exists|pre: Seq<char>|
            {
                &&& #[trigger] fence_free(pre)
                &&& fence_free(fm)
                &&& s == pre + fence() + fm + fence() + md
            },
{
    lemma_find_fence(s, 0);
    if let Some(a) = find_fence(s, 0) {
        lemma_find_fence(s, a + 3);
        if let Some(b) = find_fence(s, a + 3) {
            let pre = s.subrange(0, a);
            let fm = s.subrange(a + 3, b);
            let md = s.subrange(b + 3, s.len() as int);
            assert(s =~= pre + fence() + fm + fence() + md);
            assert forall|j: int| 0 <= j < pre.len() implies !#[trigger] fence_at(
                pre + fence(),
                j,
            ) by {
                assert(fence_at(pre + fence(), j) ==> fence_at(s, j));
            }
            assert forall|j: int| 0 <= j < fm.len() implies !#[trigger] fence_at(
                fm + fence(),
                j,
            ) by {
                assert(fence_at(fm + fence(), j) ==> fence_at(s, j + a + 3));
            }
            assert(fence_free(pre));
        }
    }
}

/// Splitting a post assembled from a fence-free prefix, front matter and body gives
/// back exactly that front matter and that body.
pub proof fn lemma_split_of_assembled(pre: Seq<char>, fm: Seq<char>, md: Seq<char>)
    requires
        fence_free(pre),
        fence_free(fm),
    ensures
        split_header(pre + fence() + fm + fence() + md) == Ok::<(Seq<char>, Seq<char>), HeaderError>((fm, md)),
{
    let s = pre + fence() + fm + fence() + md;
    let a = pre.len() as int;
    let b = a + 3 + fm.len();
    assert forall|j: int| 0 <= j < a implies !#[trigger] fence_at(s, j) by {
        assert(fence_at(s, j) ==> fence_at(pre + fence(), j));
    }
    assert(fence_at(s, a));
    lemma_find_fence_is(s, 0, a);
    assert forall|j: int| a + 3 <= j < b implies !#[trigger] fence_at(s, j) by {
        assert(fence_at(s, j) ==> fence_at(fm + fence(), j - a - 3));
    }
    assert(fence_at(s, b));
    lemma_find_fence_is(s, a + 3, b);
    assert(s.subrange(a + 3, b) =~= fm);
    assert(s.subrange(b + 3, s.len() as int) =~= md);
}

} // verus!
