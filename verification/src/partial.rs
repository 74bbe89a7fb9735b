//! Recognising Handlebars partial inclusions in a template text.
//!
//! Handlebars expands an inline partial that includes itself (directly or through other
//! inline partials) without end, so templates are rendered here only when they hold no
//! partial inclusion at all.
use vstd::prelude::*;

use crate::text::chars_of;

verus! {

/// What Handlebars lets stand between `{{` and the `>` of a partial: whitespace, the
/// whitespace-control `~` and the block `#`.
pub open spec fn partial_filler(c: char) -> bool {
    c == ' ' || c == '\t' || c == '\n' || c == '\r' || c == '~' || c == '#'
}

/// From position `j` on, `t` holds filler characters and then `>`.
pub open spec fn partial_tail(t: Seq<char>, j: int) -> bool
    decreases t.len() - j,
{
    if j < 0 || j >= t.len() {
        false
    } else if t[j] == '>' {
        true
    } else if partial_filler(t[j]) {
        partial_tail(t, j + 1)
    } else {
        false
    }
}

/// `t` opens a partial inclusion at position `i`: `{{`, filler, then `>` (this covers
/// `{{>`, `{{~>`, `{{#>` and `{{~#>`, with any whitespace Handlebars admits).
pub open spec fn partial_at(t: Seq<char>, i: int) -> bool {
    0 <= i && i + 1 < t.len() && t[i] == '{' && t[i + 1] == '{' && partial_tail(t, i + 2)
}

/// `t` holds no partial inclusion.
pub open spec fn partial_free(t: Seq<char>) -> bool {
    forall|i: int| !#[trigger] partial_at(t, i)
}

/// The first position at or after `i` where `t` opens a partial inclusion.
pub open spec fn first_partial(t: Seq<char>, i: int) -> Option<int>
    decreases t.len() - i,
{
    if i < 0 || i >= t.len() {
        None
    } else if partial_at(t, i) {
        Some(i)
    } else {
        first_partial(t, i + 1)
    }
}

/// When no partial opens at or after `i`, no partial opens anywhere from `i` on.
pub proof fn lemma_first_partial_none(t: Seq<char>, i: int)
    requires
        0 <= i,
        first_partial(t, i) is None,
    ensures
        forall|k: int| i <= k ==> !#[trigger] partial_at(t, k),
    decreases t.len() - i,
{
    if i < t.len() {
        lemma_first_partial_none(t, i + 1);
    }
}

fn tail_from(v: &Vec<char>, j: usize) -> (b: bool)
    requires
        j <= v@.len(),
    ensures
        b == partial_tail(v@, j as int),
{
    let mut k = j;
    while k < v.len()
        invariant
            j <= k <= v@.len(),
            partial_tail(v@, j as int) == partial_tail(v@, k as int),
        decreases v@.len() - k,
    {
        let c = v[k];
        if c == '>' {
            return true;
        }
        if !(c == ' ' || c == '\t' || c == '\n' || c == '\r' || c == '~' || c == '#') {
            return false;
        }
        k += 1;
    }
    false
}

/// Whether a template text holds no partial inclusion.
pub fn is_partial_free(t: &str) -> (b: bool)
    ensures
        b == partial_free(t@),
{
    let v = chars_of(t);
    let n = v.len();
    let mut i: usize = 0;
    while i < n
        invariant
            n == v@.len(),
            v@ == t@,
            0 <= i <= n,
            forall|k: int| 0 <= k < i ==> !#[trigger] partial_at(t@, k),
        decreases n - i,
    {
        if i + 1 < n && v[i] == '{' && v[i + 1] == '{' && tail_from(&v, i + 2) {
            assert(partial_at(t@, i as int));
            return false;
        }
        i += 1;
    }
    assert forall|k: int| !#[trigger] partial_at(t@, k) by {
        if k >= n as int {
        }
    }
    true
}

} // verus!
