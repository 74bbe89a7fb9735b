//! The index page: every post, newest first, in a table.
use vstd::prelude::*;

use crate::config::{
    calendar_number, date_before, date_lt, date_text, format_date, lemma_date_order_is_calendar_order,
    BlogPostConfig, PostDate,
};
use crate::html::{html_escaped, push_html_escaped};

verus! {

/// Post `i` sorts before post `j` (by date, then by position in the list): the order in
/// which a stable sort by date puts them.
pub open spec fn sorts_before(dates: Seq<PostDate>, i: int, j: int) -> bool {
    date_lt(dates[i], dates[j]) || (dates[i] == dates[j] && i < j)
}

/// `order` lists every post position exactly once, latest first: the order a stable sort
/// by date followed by a reversal gives.
pub open spec fn is_index_order(dates: Seq<PostDate>, order: Seq<int>) -> bool {
    &&& order.len() == dates.len()
    &&& forall|k: int| 0 <= k < order.len() ==> 0 <= #[trigger] order[k] < dates.len()
    &&& forall|x: int| 0 <= x < dates.len() ==> order.contains(x)
    &&& forall|k: int, l: int|
        0 <= k < l < order.len() ==> sorts_before(dates, #[trigger] order[l], #[trigger] order[k])
}

/// The dates of a list of posts.
pub open spec fn post_dates(posts: Seq<(String, BlogPostConfig, String)>) -> Seq<PostDate> {
    Seq::new(posts.len(), |i: int| posts[i].1.date)
}

/// Two different posts never sort the same way round both ways.
pub proof fn lemma_sorts_before_asymmetric(dates: Seq<PostDate>, i: int, j: int)
    requires
        sorts_before(dates, i, j),
    ensures
        !sorts_before(dates, j, i),
{
}

proof fn lemma_orders_agree_upto(dates: Seq<PostDate>, o1: Seq<int>, o2: Seq<int>, k: int)
    requires
        is_index_order(dates, o1),
        is_index_order(dates, o2),
        0 <= k < o1.len(),
    ensures
        forall|j: int| 0 <= j <= k ==> o1[j] == o2[j],
    decreases k,
{
    if k > 0 {
        lemma_orders_agree_upto(dates, o1, o2, k - 1);
    }
    let a = o1[k];
    let b = o2[k];
    if a != b {
        assert(o1.contains(b));
        let m = choose|m: int| 0 <= m < o1.len() && o1[m] == b;
        assert(o2.contains(a));
        let m2 = choose|m: int| 0 <= m < o2.len() && o2[m] == a;
        if m < k {
            assert(o2[m] == b);
            assert(sorts_before(dates, o2[k], o2[m]));
            assert(false);
        }
        if m2 < k {
            assert(o1[m2] == a);
            assert(sorts_before(dates, o1[k], o1[m2]));
            assert(false);
        }
        assert(m != k);
        assert(m2 != k);
        assert(sorts_before(dates, o1[m], o1[k]));
        assert(sorts_before(dates, o2[m2], o2[k]));
        lemma_sorts_before_asymmetric(dates, b, a);
    }
}

/// The index order is determined by the dates alone: two orders that both list every post
/// once, latest first, are the same order.
pub proof fn lemma_index_order_unique(dates: Seq<PostDate>, o1: Seq<int>, o2: Seq<int>)
    requires
        is_index_order(dates, o1),
        is_index_order(dates, o2),
    ensures
        o1 == o2,
{
    if o1.len() > 0 {
        lemma_orders_agree_upto(dates, o1, o2, o1.len() - 1);
    }
    assert(o1 =~= o2);
}

/// `order` lists position `x`.
pub open spec fn lists(order: Seq<usize>, x: int) -> bool {
    exists|m: int| 0 <= m < order.len() && order[m] as int == x
}

/// The positions of `posts` in index order: latest date first; among posts of the same
/// date, the later in the list first.
pub fn post_order(posts: &Vec<(String, BlogPostConfig, String)>) -> (order: Vec<usize>)
    ensures
        is_index_order(post_dates(posts@), order@.map_values(|x: usize| x as int)),
{
    let ghost dates = post_dates(posts@);
    let mut order: Vec<usize> = Vec::new();
    let n = posts.len();
    let mut i: usize = 0;
    while i < n
        invariant
            n == posts@.len(),
            dates == post_dates(posts@),
            0 <= i <= n,
            order@.len() == i,
            forall|k: int| 0 <= k < order@.len() ==> #[trigger] order@[k] < i,
            forall|x: int| 0 <= x < i ==> #[trigger] lists(order@, x),
            forall|k: int, l: int|
                0 <= k < l < order@.len() ==> sorts_before(
                    dates,
                    #[trigger] order@[l] as int,
                    #[trigger] order@[k] as int,
                ),
        decreases n - i,
    {
        let date = &posts[i].1.date;
        let mut p: usize = 0;
        while p < order.len() && date_before(date, &posts[order[p]].1.date)
            invariant
                n == posts@.len(),
                dates == post_dates(posts@),
                i < n,
                *date == dates[i as int],
                0 <= p <= order@.len(),
                forall|k: int| 0 <= k < order@.len() ==> #[trigger] order@[k] < i,
                forall|k: int| 0 <= k < p ==> sorts_before(dates, i as int, #[trigger] order@[k] as int),
            decreases order@.len() - p,
        {
            p += 1;
        }
        let ghost old_order = order@;
        proof {
            if p < old_order.len() {
                assert(!date_lt(dates[i as int], dates[old_order[p as int] as int]));
            }
        }
        order.insert(p, i);
        proof {
            assert forall|k: int, l: int| 0 <= k < l < order@.len() implies sorts_before(
                dates,
                #[trigger] order@[l] as int,
                #[trigger] order@[k] as int,
            ) by {
                if l == p {
                    assert(order@[k] == old_order[k]);
                } else if k == p {
                    assert(order@[l] == old_order[l - 1]);
                    let q = old_order[p as int];
                    assert(sorts_before(dates, old_order[l - 1] as int, q as int) || l - 1 == p);
                    assert(!date_lt(dates[i as int], dates[q as int]));
                } else if k < p && l < p {
                } else if k < p {
                    assert(order@[l] == old_order[l - 1]);
                } else {
                    assert(order@[l] == old_order[l - 1]);
                    assert(order@[k] == old_order[k - 1]);
                }
            }
            assert forall|x: int| 0 <= x < i + 1 implies #[trigger] lists(order@, x) by {
                if x == i {
                    assert(order@[p as int] == i);
                } else {
                    assert(lists(old_order, x));
                    let m = choose|m: int| 0 <= m < old_order.len() && old_order[m] as int == x;
                    if m < p {
                        assert(order@[m] == old_order[m]);
                    } else {
                        assert(order@[m + 1] == old_order[m]);
                    }
                }
            }
        }
        i += 1;
    }
    proof {
        let o = order@.map_values(|x: usize| x as int);
        assert forall|x: int| 0 <= x < dates.len() implies o.contains(x) by {
            assert(lists(order@, x));
            let m = choose|m: int| 0 <= m < order@.len() && order@[m] as int == x;
            assert(o[m] == x);
        }
    }
    order
}

/// Opens the index page, up to the first post's row.
pub const INDEX_HEAD: &'static str = "<h2 class=\"slogan\">/blog</h2><table class=\"sortable border-none\"><thead class=\"border-none\"><tr class=\"border-none\"><th class=\"border-none\">Category</th><th class=\"border-none\">Date</th><th class=\"border-none\">Title</th></tr></thead><tbody class=\"border-none\">";

/// Closes the index page.
pub const INDEX_TAIL: &'static str = "</tbody></table>";

/// A row up to the post's date.
pub const ROW_START: &'static str = "<tr class=\"border-none\"><td class=\"border-none\"><div>blog</div></td><td class=\"border-none\"><div>";

/// A row from the date up to the link target.
pub const ROW_LINK: &'static str = "</div></td><td class=\"border-none\"><a href=\"";

/// A row from the link target up to the title.
pub const ROW_TITLE: &'static str = "\">";

/// A row after the title.
pub const ROW_END: &'static str = "</a></td></tr>";

/// The row of one post: its date, and its title linking to `/` followed by its path.
pub open spec fn index_row(path: Seq<char>, c: BlogPostConfig) -> Seq<char> {
    ROW_START@ + html_escaped(date_text(c.date)) + ROW_LINK@ + html_escaped("/"@ + path)
        + ROW_TITLE@ + html_escaped(c.title@) + ROW_END@
}

/// The rows of the posts at the positions in `order`, in that order.
pub open spec fn index_rows(posts: Seq<(String, BlogPostConfig, String)>, order: Seq<int>) -> Seq<char>
    decreases order.len(),
{
    if order.len() == 0 {
        Seq::empty()
    } else {
        index_rows(posts, order.drop_last()) + index_row(
            posts[order.last()].0@,
            posts[order.last()].1,
        )
    }
}

/// The index order of a list of dates (the only order `is_index_order` admits).
pub open spec fn index_order(dates: Seq<PostDate>) -> Seq<int> {
    choose|o: Seq<int>| is_index_order(dates, o)
}

/// The index page of a list of posts: a table with one row per post, in index order.
pub open spec fn index_page(posts: Seq<(String, BlogPostConfig, String)>) -> Seq<char> {
    INDEX_HEAD@ + index_rows(posts, index_order(post_dates(posts))) + INDEX_TAIL@
}

/// Ordering posts is transitive.
pub proof fn lemma_sorts_before_transitive(dates: Seq<PostDate>, i: int, j: int, k: int)
    requires
        sorts_before(dates, i, j),
        sorts_before(dates, j, k),
    ensures
        sorts_before(dates, i, k),
{
}

/// Any two different posts are ordered one way round.
pub proof fn lemma_sorts_before_total(dates: Seq<PostDate>, i: int, j: int)
    requires
        i != j,
    ensures
        sorts_before(dates, i, j) || sorts_before(dates, j, i),
{
}

/// `o` lists positions strictly from latest to earliest.
pub open spec fn descending(dates: Seq<PostDate>, o: Seq<int>) -> bool {
    forall|k: int, l: int| 0 <= k < l < o.len() ==> sorts_before(dates, #[trigger] o[l], #[trigger] o[k])
}

/// `x` put into the descending list `o` at its place.
pub open spec fn insert_in_order(dates: Seq<PostDate>, o: Seq<int>, x: int) -> Seq<int>
    decreases o.len(),
{
    if o.len() == 0 {
        seq![x]
    } else if sorts_before(dates, o[0], x) {
        seq![x] + o
    } else {
        seq![o[0]] + insert_in_order(dates, o.drop_first(), x)
    }
}

proof fn lemma_insert_in_order(dates: Seq<PostDate>, o: Seq<int>, x: int)
    requires
        descending(dates, o),
        !o.contains(x),
    ensures
        insert_in_order(dates, o, x).len() == o.len() + 1,
        forall|y: int| #[trigger] insert_in_order(dates, o, x).contains(y) <==> (y == x || o.contains(y)),
        descending(dates, insert_in_order(dates, o, x)),
    decreases o.len(),
{
    let r = insert_in_order(dates, o, x);
    if o.len() == 0 {
        assert forall|y: int| #[trigger] r.contains(y) <==> (y == x || o.contains(y)) by {
            if r.contains(y) {
                assert(r[0] == y);
            }
            if y == x {
                assert(r[0] == x);
            }
        }
    } else if sorts_before(dates, o[0], x) {
        assert forall|y: int| #[trigger] r.contains(y) <==> (y == x || o.contains(y)) by {
            if r.contains(y) {
                let m = choose|m: int| 0 <= m < r.len() && r[m] == y;
                if m > 0 {
                    assert(o[m - 1] == y);
                }
            }
            if o.contains(y) {
                let m = choose|m: int| 0 <= m < o.len() && o[m] == y;
                assert(r[m + 1] == y);
            }
            if y == x {
                assert(r[0] == x);
            }
        }
        assert forall|k: int, l: int| 0 <= k < l < r.len() implies sorts_before(
            dates,
            #[trigger] r[l],
            #[trigger] r[k],
        ) by {
            if k == 0 {
                assert(r[l] == o[l - 1]);
                if l - 1 > 0 {
                    assert(sorts_before(dates, o[l - 1], o[0]));
                    lemma_sorts_before_transitive(dates, o[l - 1], o[0], x);
                }
            } else {
                assert(r[l] == o[l - 1]);
                assert(r[k] == o[k - 1]);
            }
        }
    } else {
        let t = o.drop_first();
        assert(descending(dates, t)) by {
            assert forall|k: int, l: int| 0 <= k < l < t.len() implies sorts_before(
                dates,
                #[trigger] t[l],
                #[trigger] t[k],
            ) by {
                assert(t[l] == o[l + 1]);
                assert(t[k] == o[k + 1]);
            }
        }
        assert(!t.contains(x)) by {
            if t.contains(x) {
                let m = choose|m: int| 0 <= m < t.len() && t[m] == x;
                assert(o[m + 1] == x);
            }
        }
        lemma_insert_in_order(dates, t, x);
        let rt = insert_in_order(dates, t, x);
        assert(r == seq![o[0]] + rt);
        assert(o.contains(o[0]));
        lemma_sorts_before_total(dates, o[0], x);
        assert forall|y: int| #[trigger] r.contains(y) <==> (y == x || o.contains(y)) by {
            if r.contains(y) {
                let m = choose|m: int| 0 <= m < r.len() && r[m] == y;
                if m > 0 {
                    assert(rt[m - 1] == y);
                    assert(rt.contains(y));
                    if t.contains(y) {
                        let q = choose|q: int| 0 <= q < t.len() && t[q] == y;
                        assert(o[q + 1] == y);
                    }
                } else {
                    assert(o[0] == y);
                }
            }
            if o.contains(y) {
                let m = choose|m: int| 0 <= m < o.len() && o[m] == y;
                if m > 0 {
                    assert(t[m - 1] == y);
                    assert(t.contains(y));
                    assert(rt.contains(y));
                    let q = choose|q: int| 0 <= q < rt.len() && rt[q] == y;
                    assert(r[q + 1] == y);
                } else {
                    assert(r[0] == y);
                }
            }
            if y == x {
                assert(rt.contains(x));
                let q = choose|q: int| 0 <= q < rt.len() && rt[q] == x;
                assert(r[q + 1] == x);
            }
        }
        assert forall|k: int, l: int| 0 <= k < l < r.len() implies sorts_before(
            dates,
            #[trigger] r[l],
            #[trigger] r[k],
        ) by {
            assert(r[l] == rt[l - 1]);
            if k == 0 {
                assert(rt.contains(rt[l - 1]));
                let y = rt[l - 1];
                if y != x {
                    assert(t.contains(y));
                    let q = choose|q: int| 0 <= q < t.len() && t[q] == y;
                    assert(o[q + 1] == y);
                    assert(sorts_before(dates, o[q + 1], o[0]));
                }
            } else {
                assert(r[k] == rt[k - 1]);
            }
        }
    }
}

/// The positions `0..n` sorted into index order by repeated insertion.
pub open spec fn sorted_positions(dates: Seq<PostDate>, n: nat) -> Seq<int>
    decreases n,
{
    if n == 0 {
        Seq::empty()
    } else {
        insert_in_order(dates, sorted_positions(dates, (n - 1) as nat), n - 1)
    }
}

proof fn lemma_sorted_positions(dates: Seq<PostDate>, n: nat)
    ensures
        sorted_positions(dates, n).len() == n,
        forall|y: int| #[trigger] sorted_positions(dates, n).contains(y) <==> 0 <= y < n,
        descending(dates, sorted_positions(dates, n)),
    decreases n,
{
    if n > 0 {
        let m = (n - 1) as nat;
        lemma_sorted_positions(dates, m);
        lemma_insert_in_order(dates, sorted_positions(dates, m), n - 1);
    }
}

/// Every list of dates has an index order.
pub proof fn lemma_index_order_exists(dates: Seq<PostDate>)
    ensures
        is_index_order(dates, index_order(dates)),
{
    let o = sorted_positions(dates, dates.len());
    lemma_sorted_positions(dates, dates.len());
    assert forall|k: int| 0 <= k < o.len() implies 0 <= #[trigger] o[k] < dates.len() by {
        assert(o.contains(o[k]));
    }
    assert(is_index_order(dates, o));
}

proof fn lemma_rows_agree(
    p1: Seq<(String, BlogPostConfig, String)>,
    o1: Seq<int>,
    p2: Seq<(String, BlogPostConfig, String)>,
    o2: Seq<int>,
)
    requires
        o1.len() == o2.len(),
        forall|k: int| 0 <= k < o1.len() ==> p1[#[trigger] o1[k]] == p2[o2[k]],
    ensures
        index_rows(p1, o1) == index_rows(p2, o2),
    decreases o1.len(),
{
    if o1.len() > 0 {
        let n = o1.len() - 1;
        assert(p1[o1[n]] == p2[o2[n]]);
        lemma_rows_agree(p1, o1.drop_last(), p2, o2.drop_last());
    }
}

/// When no two posts share a date, the index page does not depend on the order in which
/// the posts are given: listing them in any other order (`p2[k]` is `p1[perm[k]]`, with
/// `inv` the inverse of `perm`) gives the same page.
pub proof fn lemma_index_page_reorder(
    p1: Seq<(String, BlogPostConfig, String)>,
    p2: Seq<(String, BlogPostConfig, String)>,
    perm: Seq<int>,
    inv: Seq<int>,
)
    requires
        p2.len() == p1.len(),
        perm.len() == p1.len(),
        inv.len() == p1.len(),
        forall|k: int| 0 <= k < p1.len() ==> 0 <= #[trigger] perm[k] < p1.len(),
        forall|k: int| 0 <= k < p1.len() ==> 0 <= #[trigger] inv[k] < p1.len(),
        forall|k: int| 0 <= k < p1.len() ==> #[trigger] inv[perm[k]] == k,
        forall|k: int| 0 <= k < p1.len() ==> #[trigger] perm[inv[k]] == k,
        forall|k: int| 0 <= k < p1.len() ==> #[trigger] p2[k] == p1[perm[k]],
        forall|i: int, j: int|
            0 <= i < p1.len() && 0 <= j < p1.len() && i != j ==> #[trigger] p1[i].1.date != #[trigger] p1[j].1.date,
    ensures
        index_page(p1) == index_page(p2),
{
    let n = p1.len();
    let d1 = post_dates(p1);
    let d2 = post_dates(p2);
    lemma_index_order_exists(d1);
    let o1 = index_order(d1);
    let o2 = Seq::new(n, |k: int| inv[o1[k]]);
    assert forall|k: int| 0 <= k < n implies #[trigger] p2[o2[k]] == p1[o1[k]] by {
        assert(0 <= o1[k] < n);
        assert(p2[inv[o1[k]]] == p1[perm[inv[o1[k]]]]);
    }
    assert forall|k: int| 0 <= k < o2.len() implies 0 <= #[trigger] o2[k] < d2.len() by {
        assert(0 <= o1[k] < n);
    }
    assert forall|y: int| 0 <= y < d2.len() implies o2.contains(y) by {
        assert(o1.contains(perm[y]));
        let m = choose|m: int| 0 <= m < o1.len() && o1[m] == perm[y];
        assert(o2[m] == inv[perm[y]]);
    }
    assert forall|k: int, l: int| 0 <= k < l < o2.len() implies sorts_before(
        d2,
        #[trigger] o2[l],
        #[trigger] o2[k],
    ) by {
        assert(sorts_before(d1, o1[l], o1[k]));
        assert(0 <= o1[k] < n && 0 <= o1[l] < n);
        assert(p2[o2[k]] == p1[o1[k]]);
        assert(p2[o2[l]] == p1[o1[l]]);
        if o1[l] == o1[k] {
            lemma_sorts_before_asymmetric(d1, o1[l], o1[k]);
        }
        assert(p1[o1[l]].1.date != p1[o1[k]].1.date);
        assert(d2[o2[l]] == d1[o1[l]]);
        assert(d2[o2[k]] == d1[o1[k]]);
    }
    assert(is_index_order(d2, o2));
    lemma_index_order_exists(d2);
    lemma_index_order_unique(d2, o2, index_order(d2));
    lemma_rows_agree(p1, o1, p2, o2);
}

/// On the index page a post never comes before a post with a later calendar date: the
/// rows run from the latest date to the earliest.
pub proof fn lemma_index_latest_first(posts: Seq<(String, BlogPostConfig, String)>, k: int, l: int)
    requires
        ({
            let o = index_order(post_dates(posts));
            0 <= k < l < o.len()
        }),
    ensures
        ({
            let d = post_dates(posts);
            let o = index_order(d);
            calendar_number(d[o[l]]) <= calendar_number(d[o[k]])
        }),
{
    let d = post_dates(posts);
    lemma_index_order_exists(d);
    let o = index_order(d);
    assert(sorts_before(d, o[l], o[k]));
    lemma_date_order_is_calendar_order(d[o[l]], d[o[k]]);
}

/// The index page: every post (path, front matter, content), latest date first, each
/// row showing the date and the title linking to `/` and the post's path.
pub fn index(posts: Vec<(String, BlogPostConfig, String)>) -> (res: Result<String, crate::render::RenderFailure>)
    ensures
        res matches Ok(s) && s@ == index_page(posts@),
{
    let order = post_order(&posts);
    let ghost o = order@.map_values(|x: usize| x as int);
    proof {
        lemma_index_order_unique(post_dates(posts@), o, index_order(post_dates(posts@)));
    }
    let mut s = String::from_str(INDEX_HEAD);
    let n = order.len();
    let mut k: usize = 0;
    while k < n
        invariant
            n == order@.len(),
            o == order@.map_values(|x: usize| x as int),
            is_index_order(post_dates(posts@), o),
            0 <= k <= n,
            s@ == INDEX_HEAD@ + index_rows(posts@, o.take(k as int)),
        decreases n - k,
    {
        let j = order[k];
        assert(o[k as int] == j as int);
        let post = &posts[j];
        s.append(ROW_START);
        let date = format_date(&post.1.date);
        push_html_escaped(&mut s, date.as_str());
        s.append(ROW_LINK);
        let mut link = String::from_str("/");
        link.append(post.0.as_str());
        push_html_escaped(&mut s, link.as_str());
        s.append(ROW_TITLE);
        push_html_escaped(&mut s, post.1.title.as_str());
        s.append(ROW_END);
        proof {
            assert(o.take(k + 1).drop_last() =~= o.take(k as int));
            assert(o.take(k + 1).last() == j as int);
        }
        k += 1;
    }
    s.append(INDEX_TAIL);
    proof {
        assert(o.take(n as int) =~= o);
    }
    Ok(s)
}

} // verus!
