//! Shortening a text to a given number of grapheme clusters.
//!
//! Lengths are counted in extended grapheme clusters, the characters a
//! reader perceives, and a cluster is never cut apart.

use unicode_segmentation::UnicodeSegmentation;
use vstd::prelude::*;
use vstd::seq_lib::lemma_flatten_concat;

verus! {

/// The extended grapheme clusters of `text`, in the order in which they
/// occur, as Unicode Standard Annex 29 defines them.
pub uninterp spec fn grapheme_clusters(text: Seq<char>) -> Seq<Seq<char>>;

/// The characters of each piece.
pub open spec fn views(parts: Seq<&str>) -> Seq<Seq<char>> {
    Seq::new(parts.len(), |i: int| parts[i]@)
}

/// Splits `text` into its grapheme clusters by
/// `UnicodeSegmentation::graphemes` with `is_extended` set.
///
/// Trusted: the result is a function of the text alone, and the clusters
/// are consecutive pieces of the text that together make up all of it.
#[verifier::external_body]
fn graphemes<'a>(text: &'a str) -> (clusters: Vec<&'a str>)
    ensures
        views(clusters@) == grapheme_clusters(text@),
        views(clusters@).flatten() == text@,
{
    UnicodeSegmentation::graphemes(text, true).collect()
}

/// The three clusters that stand for what was left out.
pub open spec fn ellipsis() -> Seq<Seq<char>> {
    seq![seq!['.'], seq!['.'], seq!['.']]
}

/// How many clusters are kept in front of the ellipsis: half of what the
/// ellipsis leaves of `limit`, rounded up.
pub open spec fn prefix_len(limit: nat) -> nat
    recommends
        limit > 3,
{
    ((limit - 3 + 1) / 2) as nat
}

/// How many clusters are kept behind the ellipsis: half of what the
/// ellipsis leaves of `limit`, rounded down.
pub open spec fn suffix_len(limit: nat) -> nat
    recommends
        limit > 3,
{
    ((limit - 3) / 2) as nat
}

/// The clusters that are left of `clusters` under `limit`.
///
/// Up to a limit of three the first `limit` clusters are kept. Above it, a
/// text that fits is kept whole; of a longer one the first `prefix_len`
/// and the last `suffix_len` clusters are kept, with an ellipsis between
/// them.
pub open spec fn limited_clusters(limit: nat, clusters: Seq<Seq<char>>) -> Seq<Seq<char>> {
    if limit <= 3 {
        clusters.take(limit as int)
    } else if clusters.len() <= limit {
        clusters
    } else {
        clusters.take(prefix_len(limit) as int) + ellipsis() + clusters.skip(
            clusters.len() - suffix_len(limit),
        )
    }
}

/// The text that is left of a text with the given clusters under `limit`.
pub open spec fn limited_text(limit: nat, clusters: Seq<Seq<char>>) -> Seq<char> {
    limited_clusters(limit, clusters).flatten()
}

/// Under a limit above three the clusters that are left number `limit`, or
/// as many as there were where that is less.
pub proof fn lemma_limited_clusters_len(limit: nat, clusters: Seq<Seq<char>>)
    requires
        limit > 3,
    ensures
        limited_clusters(limit, clusters).len() == if clusters.len() <= limit {
            clusters.len()
        } else {
            limit
        },
{
}

/// Shortening a text under a limit above three leaves it with `limit`
/// grapheme clusters, or with as many as it had where that is less,
/// provided that the shortened text splits into the very clusters it was
/// joined from. (It need not: a combining mark at the head of what is kept
/// behind the ellipsis attaches itself to the full stop in front of it.)
pub proof fn lemma_limited_text_cluster_count(limit: nat, text: Seq<char>)
    requires
        limit > 3,
        grapheme_clusters(text).flatten() == text,
        grapheme_clusters(text).len() > limit ==> grapheme_clusters(
            limited_text(limit, grapheme_clusters(text)),
        ) == limited_clusters(limit, grapheme_clusters(text)),
    ensures
        grapheme_clusters(limited_text(limit, grapheme_clusters(text))).len() == if grapheme_clusters(
            text,
        ).len() <= limit {
            grapheme_clusters(text).len()
        } else {
            limit
        },
{
    lemma_limited_clusters_len(limit, grapheme_clusters(text));
}

/// The ellipsis reads as three full stops.
pub proof fn lemma_ellipsis_text()
    ensures
        ellipsis().flatten() == "..."@,
{
    reveal_strlit("...");
    let e = ellipsis();
    assert(e.drop_first().drop_first().drop_first().flatten() == Seq::<char>::empty());
    assert(e.drop_first().drop_first().flatten() == seq!['.']);
    assert(e.drop_first().flatten() == seq!['.', '.']);
    assert(e.flatten() == seq!['.', '.', '.']);
    assert("..."@ == seq!['.', '.', '.']);
}

/// Appends the pieces `parts[from..to]` to `out`, in order.
fn append_pieces(out: &mut String, parts: &Vec<&str>, from: usize, to: usize)
    requires
        from <= to <= parts.len(),
    ensures
        final(out)@ == old(out)@ + views(parts@).subrange(from as int, to as int).flatten(),
{
    let ghost pieces = views(parts@);
    let mut i = from;
    while i < to
        invariant
            from <= i <= to <= parts.len(),
            pieces == views(parts@),
            out@ == old(out)@ + pieces.subrange(from as int, i as int).flatten(),
        decreases to - i,
    {
        proof {
            let done = pieces.subrange(from as int, i as int);
            let next = pieces.subrange(from as int, i + 1);
            assert(next == done.push(pieces[i as int]));
            done.lemma_flatten_push(pieces[i as int]);
        }
        out.append(parts[i]);
        i += 1;
    }
}

/// Shortens a text, given as its clusters, to `limit` clusters.
pub fn limit_clusters(limit: usize, clusters: &Vec<&str>) -> (out: String)
    requires
        limit <= 3 ==> limit <= clusters.len(),
    ensures
        out@ == limited_text(limit as nat, views(clusters@)),
{
    let ghost pieces = views(clusters@);
    let n = clusters.len();
    let mut out = String::new();
    if limit <= 3 {
        append_pieces(&mut out, clusters, 0, limit);
    } else if n <= limit {
        append_pieces(&mut out, clusters, 0, n);
        assert(pieces.subrange(0, n as int) == pieces);
    } else {
        let prefix_end = (limit - 3 + 1) / 2;
        let suffix_start = n - (limit - 3) / 2;
        append_pieces(&mut out, clusters, 0, prefix_end);
        out.append("...");
        append_pieces(&mut out, clusters, suffix_start, n);
        proof {
            let head = pieces.take(prefix_end as int);
            let tail = pieces.skip(suffix_start as int);
            lemma_ellipsis_text();
            lemma_flatten_concat(head, ellipsis());
            lemma_flatten_concat(head + ellipsis(), tail);
        }
    }
    out
}

/// Shortens `text` to `limit` grapheme clusters, with an ellipsis in the
/// middle of a text that is too long.
///
/// A limit of three or less leaves no room for an ellipsis; the text must
/// then have at least `limit` clusters, and its first `limit` clusters are
/// returned.
pub fn limit_text_size(limit: usize, text: String) -> (out: String)
    requires
        limit <= 3 ==> limit <= grapheme_clusters(text@).len(),
    ensures
        out@ == limited_text(limit as nat, grapheme_clusters(text@)),
        limit > 3 && grapheme_clusters(text@).len() <= limit ==> out@ == text@,
{
    let clusters = graphemes(text.as_str());
    limit_clusters(limit, &clusters)
}

/// Shortens `text` like [`limit_text_size`], and returns `None` where a
/// limit of three or less asks for more clusters than the text has.
pub fn try_limit_text_size(limit: usize, text: String) -> (out: Option<String>)
    ensures
        out is Some <==> (limit > 3 || limit <= grapheme_clusters(text@).len()),
        out matches Some(out) ==> out@ == limited_text(limit as nat, grapheme_clusters(text@)),
{
    if limit <= 3 && length_in_clusters(text.as_str()) < limit {
        None
    } else {
        Some(limit_text_size(limit, text))
    }
}

/// Counts the grapheme clusters of `text`.
pub fn length_in_clusters(text: &str) -> (count: usize)
    ensures
        count == grapheme_clusters(text@).len(),
{
    graphemes(text).len()
}

} // verus!
