use vstd::prelude::*;

use crate::dates::{
    display_writing_date, full_writing_date, is_iso_date_text, long_date, short_date,
};
use crate::text::{
    compare_text, lemma_text_less_irreflexive, lemma_text_less_total, lemma_text_less_transitive,
    text_less, TextOrder,
};

verus! {

/// What the writings index needs to know of one writing.
#[derive(Clone, Debug)]
pub struct PostSummary {
    pub slug: String,
    pub title: String,
    pub date_published: String,
}

/// `a` is listed before `b`: it was published later, or on the same date with
/// a title that comes first.
pub open spec fn post_before(a: PostSummary, b: PostSummary) -> bool {
    ||| text_less(b.date_published@, a.date_published@)
    ||| (a.date_published@ == b.date_published@ && text_less(a.title@, b.title@))
}

/// Two writings that the order cannot tell apart: same date, same title.
pub open spec fn same_rank(a: PostSummary, b: PostSummary) -> bool {
    a.date_published@ == b.date_published@ && a.title@ == b.title@
}

/// No writing is listed after one that should come later.
pub open spec fn is_chronological(s: Seq<PostSummary>) -> bool {
    forall|i: int, j: int| 0 <= i < j < s.len() ==> !post_before(#[trigger] s[j], #[trigger] s[i])
}

/// `out` holds the writings of `input`, each exactly once (`out[i]` is
/// `input[p[i]]`), and writings of the same rank keep their relative order.
pub open spec fn is_stable_arrangement(
    out: Seq<PostSummary>,
    input: Seq<PostSummary>,
    p: Seq<int>,
) -> bool {
    &&& out.len() == input.len()
    &&& p.len() == input.len()
    &&& forall|i: int| 0 <= i < p.len() ==> 0 <= #[trigger] p[i] < input.len()
    &&& forall|i: int, j: int| 0 <= i < j < p.len() ==> #[trigger] p[i] != #[trigger] p[j]
    &&& forall|i: int| 0 <= i < out.len() ==> #[trigger] out[i] == input[p[i]]
    &&& forall|i: int, j: int|
        0 <= i < j < out.len() && same_rank(#[trigger] out[i], #[trigger] out[j]) ==> p[i] < p[j]
}

/// `out` is `input` sorted newest first, then by title, keeping the input
/// order among writings of the same rank.
pub open spec fn is_chronological_order_of(out: Seq<PostSummary>, input: Seq<PostSummary>) -> bool {
    &&& is_chronological(out)
    &&& exists|p: Seq<int>| is_stable_arrangement(out, input, p)
}

/// The listing order is transitive.
pub proof fn lemma_post_before_transitive(a: PostSummary, b: PostSummary, c: PostSummary)
    requires
        post_before(a, b),
        post_before(b, c),
    ensures
        post_before(a, c),
{
    if text_less(b.date_published@, a.date_published@) && text_less(
        c.date_published@,
        b.date_published@,
    ) {
        lemma_text_less_transitive(c.date_published@, b.date_published@, a.date_published@);
    }
    if a.date_published@ == b.date_published@ && b.date_published@ == c.date_published@
        && text_less(a.title@, b.title@) && text_less(b.title@, c.title@) {
        lemma_text_less_transitive(a.title@, b.title@, c.title@);
    }
}

/// No writing is listed before itself.
pub proof fn lemma_post_before_irreflexive(a: PostSummary)
    ensures
        !post_before(a, a),
{
    lemma_text_less_irreflexive(a.date_published@);
    lemma_text_less_irreflexive(a.title@);
}

/// Writings of the same rank are ordered alike against any other writing.
proof fn lemma_same_rank_before(a: PostSummary, b: PostSummary, c: PostSummary)
    requires
        same_rank(a, b),
        post_before(b, c),
    ensures
        post_before(a, c),
{
}

/// Of two writings of different rank, one is listed before the other.
proof fn lemma_post_before_total(a: PostSummary, b: PostSummary)
    ensures
        !same_rank(a, b) ==> post_before(a, b) || post_before(b, a),
{
    lemma_text_less_total(a.date_published@, b.date_published@);
    lemma_text_less_total(a.title@, b.title@);
}

/// An increasing map of `0..n` into `0..n` is the identity.
proof fn lemma_increasing_is_identity(p: Seq<int>, n: int)
    requires
        p.len() == n,
        forall|i: int| 0 <= i < n ==> 0 <= #[trigger] p[i] < n,
        forall|i: int, j: int| 0 <= i < j < n ==> #[trigger] p[i] < #[trigger] p[j],
    ensures
        forall|i: int| 0 <= i < n ==> #[trigger] p[i] == i,
    decreases n,
{
    if n > 0 {
        let q = p.drop_last();
        assert forall|i: int| 0 <= i < n - 1 implies 0 <= #[trigger] q[i] < n - 1 by {
            assert(p[i] < p[n - 1]);
        }
        assert forall|i: int, j: int| 0 <= i < j < n - 1 implies #[trigger] q[i] < #[trigger] q[j] by {
            assert(p[i] < p[j]);
        }
        lemma_increasing_is_identity(q, n - 1);
        if n >= 2 {
            assert(p[n - 2] < p[n - 1]);
            assert(q[n - 2] == n - 2);
        }
        assert forall|i: int| 0 <= i < n implies #[trigger] p[i] == i by {
            if i < n - 1 {
                assert(q[i] == i);
            }
        }
    }
}

/// Sorting writings that are already in order changes nothing; so sorting
/// twice gives what sorting once gives.
pub proof fn law_sorting_sorted_posts_changes_nothing(
    out: Seq<PostSummary>,
    input: Seq<PostSummary>,
)
    requires
        is_chronological(input),
        is_chronological_order_of(out, input),
    ensures
        out == input,
{
    let p = choose|p: Seq<int>| is_stable_arrangement(out, input, p);
    let n = input.len() as int;
    assert forall|i: int, j: int| 0 <= i < j < n implies #[trigger] p[i] < #[trigger] p[j] by {
        assert(out[i] == input[p[i]]);
        assert(out[j] == input[p[j]]);
        if !same_rank(out[i], out[j]) {
            lemma_post_before_total(out[i], out[j]);
            assert(!post_before(out[j], out[i]));
            if p[j] < p[i] {
                assert(!post_before(input[p[i]], input[p[j]]));
            }
        }
    }
    lemma_increasing_is_identity(p, n);
    assert forall|i: int| 0 <= i < n implies #[trigger] out[i] == input[i] by {
        assert(out[i] == input[p[i]]);
    }
    assert(out =~= input);
}

/// Whether `a` is listed before `b`.
fn is_listed_before(a: &PostSummary, b: &PostSummary) -> (r: bool)
    ensures
        r == post_before(*a, *b),
{
    match compare_text(b.date_published.as_str(), a.date_published.as_str()) {
        TextOrder::Less => true,
        TextOrder::Greater => false,
        TextOrder::Equal => match compare_text(a.title.as_str(), b.title.as_str()) {
            TextOrder::Less => true,
            _ => false,
        },
    }
}

/// What holds of the writings placed so far: `out` is in order, and holds
/// the first `k` writings of `input` (`out[i]` is `input[p[i]]`), writings of
/// the same rank in their input order.
pub open spec fn sorted_prefix(
    out: Seq<PostSummary>,
    input: Seq<PostSummary>,
    p: Seq<int>,
    k: int,
) -> bool {
    &&& 0 <= k <= input.len()
    &&& out.len() == k
    &&& is_chronological(out)
    &&& p.len() == k
    &&& forall|i: int| 0 <= i < p.len() ==> 0 <= #[trigger] p[i] < k
    &&& forall|i: int, j: int| 0 <= i < j < p.len() ==> #[trigger] p[i] != #[trigger] p[j]
    &&& forall|i: int| 0 <= i < out.len() ==> #[trigger] out[i] == input[p[i]]
    &&& forall|i: int, j: int|
        0 <= i < j < out.len() && same_rank(#[trigger] out[i], #[trigger] out[j]) ==> p[i] < p[j]
}

/// Placing the next writing before the first one it is listed before keeps
/// the placed writings in order and stable.
proof fn lemma_insert_next(
    out: Seq<PostSummary>,
    input: Seq<PostSummary>,
    p: Seq<int>,
    k: int,
    pos: int,
)
    requires
        sorted_prefix(out, input, p, k),
        k < input.len(),
        0 <= pos <= out.len(),
        forall|j: int| 0 <= j < pos ==> !post_before(input[k], #[trigger] out[j]),
        pos < out.len() ==> post_before(input[k], out[pos]),
    ensures
        sorted_prefix(out.insert(pos, input[k]), input, p.insert(pos, k), k + 1),
{
    let x = input[k];
    let new_out = out.insert(pos, x);
    let new_p = p.insert(pos, k);
    assert forall|j: int| pos <= j < out.len() implies !post_before(#[trigger] out[j], x)
        && !same_rank(out[j], x) by {
        lemma_post_before_irreflexive(out[j]);
        if j > pos {
            if post_before(out[j], x) {
                lemma_post_before_transitive(out[j], x, out[pos]);
            }
            if same_rank(out[j], x) {
                lemma_same_rank_before(out[j], x, out[pos]);
            }
        } else {
            if post_before(out[j], x) {
                lemma_post_before_transitive(out[j], x, out[j]);
            }
            if same_rank(out[j], x) {
                lemma_same_rank_before(out[j], x, out[j]);
            }
        }
    }
    assert forall|i: int, j: int| 0 <= i < j < new_out.len() implies !post_before(
        #[trigger] new_out[j],
        #[trigger] new_out[i],
    ) by {
        if j > pos {
            assert(new_out[j] == out[j - 1]);
        }
        if i > pos {
            assert(new_out[i] == out[i - 1]);
        }
    }
    assert forall|i: int, j: int|
        0 <= i < j < new_out.len() && same_rank(
            #[trigger] new_out[i],
            #[trigger] new_out[j],
        ) implies new_p[i] < new_p[j] by {
        if j > pos {
            assert(new_out[j] == out[j - 1]);
        }
        if i > pos {
            assert(new_out[i] == out[i - 1]);
        }
        if i == pos && j > pos {
            assert(same_rank(out[j - 1], x));
        }
    }
    assert forall|i: int| 0 <= i < new_out.len() implies #[trigger] new_out[i] == input[new_p[i]] by {
        if i > pos {
            assert(new_out[i] == out[i - 1]);
        }
    }
}

/// Sorts writings newest first, and writings of one date by title. The sort
/// is stable: writings with the same date and title keep their order.
pub fn sort_posts_chronologically(posts: &mut Vec<PostSummary>)
    ensures
        is_chronological_order_of(final(posts)@, old(posts)@),
{
    let ghost input = posts@;
    let mut rest: Vec<PostSummary> = Vec::new();
    std::mem::swap(&mut rest, posts);
    let mut out: Vec<PostSummary> = Vec::new();
    let ghost mut p: Seq<int> = Seq::empty();
    let ghost mut k: int = 0;
    while rest.len() > 0
        invariant
            sorted_prefix(out@, input, p, k),
            rest@ == input.skip(k),
        decreases rest.len(),
    {
        let x = rest.remove(0);
        assert(x == input[k]);
        let mut pos: usize = 0;
        while pos < out.len() && !is_listed_before(&x, &out[pos])
            invariant
                pos <= out@.len(),
                forall|j: int| 0 <= j < pos ==> !post_before(x, #[trigger] out@[j]),
            decreases out@.len() - pos,
        {
            pos = pos + 1;
        }
        proof {
            lemma_insert_next(out@, input, p, k, pos as int);
            p = p.insert(pos as int, k);
            assert(input.skip(k).drop_first() =~= input.skip(k + 1));
            k = k + 1;
        }
        out.insert(pos, x);
    }
    assert(is_stable_arrangement(out@, input, p));
    *posts = out;
}

/// A date as the writings index shows it: `Jun 2026` for a valid date.
pub open spec fn shown_short_date(d: Seq<char>) -> Seq<char> {
    if is_iso_date_text(d) {
        short_date(d)
    } else {
        d
    }
}

/// A date written out in full: `June 12, 2026` for a valid date.
pub open spec fn shown_long_date(d: Seq<char>) -> Seq<char> {
    if is_iso_date_text(d) {
        long_date(d)
    } else {
        d
    }
}

/// One entry of the writings index.
pub open spec fn writing_entry(p: PostSummary) -> Seq<char> {
    "        <li><a href=\"./"@ + p.slug@ + ".html\">"@ + p.title@
        + "</a><time class=\"writing-date\" datetime=\""@ + p.date_published@
        + "\" aria-label=\""@ + shown_long_date(p.date_published@) + "\" title=\""@
        + shown_long_date(p.date_published@) + "\">"@ + shown_short_date(p.date_published@)
        + "</time></li>\n"@
}

/// The entries of the writings index, in the given order.
pub open spec fn writing_entries(s: Seq<PostSummary>) -> Seq<char>
    decreases s.len(),
{
    if s.len() == 0 {
        Seq::empty()
    } else {
        writing_entries(s.drop_last()) + writing_entry(s.last())
    }
}

/// The writings index page body.
pub open spec fn writings_index(s: Seq<PostSummary>) -> Seq<char> {
    "    <article class=\"writings\">\n    <section>\n      <h2>Writings</h2>\n      <ul class=\"writing-list\">\n"@
        + writing_entries(s) + "        </ul>\n    </section>\n  </article>"@
}

/// Lists the writings with links and publication dates, in the given order.
pub fn render_writings_index(posts: &[PostSummary]) -> (r: String)
    ensures
        r@ == writings_index(posts@),
{
    let mut list_html = String::new();
    let mut i: usize = 0;
    while i < posts.len()
        invariant
            i <= posts@.len(),
            list_html@ == writing_entries(posts@.take(i as int)),
        decreases posts@.len() - i,
    {
        let post = &posts[i];
        let display_date = display_writing_date(post.date_published.as_str());
        let full_date = full_writing_date(post.date_published.as_str());
        list_html.append("        <li><a href=\"./");
        list_html.append(post.slug.as_str());
        list_html.append(".html\">");
        list_html.append(post.title.as_str());
        list_html.append("</a><time class=\"writing-date\" datetime=\"");
        list_html.append(post.date_published.as_str());
        list_html.append("\" aria-label=\"");
        list_html.append(full_date.as_str());
        list_html.append("\" title=\"");
        list_html.append(full_date.as_str());
        list_html.append("\">");
        list_html.append(display_date.as_str());
        list_html.append("</time></li>\n");
        assert(posts@.take(i + 1).drop_last() =~= posts@.take(i as int));
        i = i + 1;
    }
    assert(posts@.take(posts@.len() as int) =~= posts@);
    let mut out = String::from_str(
        "    <article class=\"writings\">\n    <section>\n      <h2>Writings</h2>\n      <ul class=\"writing-list\">\n",
    );
    out.append(list_html.as_str());
    out.append("        </ul>\n    </section>\n  </article>");
    out
}

/// The writings index lists its writings in the given order: the entries of
/// two lists one after the other are those of the first, then those of the
/// second.
pub proof fn law_writing_entries_in_order(a: Seq<PostSummary>, b: Seq<PostSummary>)
    ensures
        writing_entries(a + b) == writing_entries(a) + writing_entries(b),
    decreases b.len(),
{
    if b.len() == 0 {
        assert(a + b =~= a);
        assert(writing_entries(a) + writing_entries(b) =~= writing_entries(a));
    } else {
        assert((a + b).drop_last() =~= a + b.drop_last());
        assert((a + b).last() == b.last());
        law_writing_entries_in_order(a, b.drop_last());
        assert(writing_entries(a + b) =~= writing_entries(a) + writing_entries(b));
    }
}

} // verus!
