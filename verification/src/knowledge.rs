//! Ranking knowledge chunks by their relevance to search terms, and the
//! answers and prompts made from the best of them.
use vstd::prelude::*;
use crate::llm::KnowledgeChunk;
use crate::text::{
    byte_within, chars_before_byte, chars_of, count_matches, count_matches_exec,
    is_char_boundary, is_char_boundary_exec, lower_text, slice_vec, split_at_char, split_char,
    decimal, file_name_of, join_with, owned, path_file_name, push_decimal, str_eq, string_of,
    to_lowercase, trim, trim_vec, utf8_len,
};
use crate::json::{get_u64, json_parse_result, parse_json};
use crate::text::{contains, contains_str, replace_all, replace_str};
use vstd::string::StringExecFns;

verus! {

// ---------------------------------------------------------------------------
// Relevance
// ---------------------------------------------------------------------------

/// The first 200 bytes of a text (all of it where it is shorter).
pub open spec fn intro_of(body: Seq<char>) -> Seq<char> {
    if utf8_len(body) <= 200 {
        body
    } else {
        body.take(choose|k: int| 0 <= k <= body.len() && #[trigger] utf8_len(body.take(k)) == 200)
    }
}

/// The first 200 bytes of a text end at a character boundary: where they do
/// not, the relevance of a chunk cannot be reckoned (the slice would cut a
/// character).
pub open spec fn intro_ok(body: Seq<char>) -> bool {
    utf8_len(body) > 200 ==> is_char_boundary(body, 200)
}

/// The points a term scores in a chunk: ten for each match in the title,
/// one for each in the body, three more for each in the first 200 bytes of
/// the body (title and body in lower case).
pub open spec fn term_points(title: Seq<char>, body: Seq<char>, term: Seq<char>) -> nat {
    10 * count_matches(title, term) + count_matches(body, term) + 3 * count_matches(
        intro_of(body),
        term,
    )
}

/// The points all terms score, each in lower case.
pub open spec fn points(title: Seq<char>, body: Seq<char>, terms: Seq<Seq<char>>) -> nat
    decreases terms.len(),
{
    if terms.len() == 0 {
        0
    } else {
        points(title, body, terms.drop_last()) + term_points(title, body, lower_text(terms.last()))
    }
}

/// The relevance of a chunk to the terms, in tenths: the points, times 0.3
/// for a chunk with a body shorter than 100 bytes. The value is exact; a
/// score kept in `f32` differs in its last bit: `0.3` as an `f32` is a little
/// above 0.3 (0.300000011920928955078125), so 100 points of a short chunk
/// come to 30.000002 and outrank 30 points of a long one, which tie here at
/// 300 tenths and keep their first-come order; and sums beyond 2^24 points
/// are not rounded here as an `f32` rounds them.
pub open spec fn relevance(title: Seq<char>, body: Seq<char>, terms: Seq<Seq<char>>) -> nat {
    let p = points(lower_text(title), lower_text(body), terms);
    if utf8_len(body) < 100 {
        3 * p
    } else {
        10 * p
    }
}

/// Relevance adds up over the terms: with no term a chunk scores nothing,
/// and one more term, wherever it stands in the list, adds its own points:
/// ten per match in the title, one per match in the body and three per
/// match in the body's first 200 bytes, all in lower case; times 0.3 for a
/// body shorter than 100 bytes (in tenths: 3 or 10 per point).
pub proof fn lemma_relevance_sums_terms(
    title: Seq<char>,
    body: Seq<char>,
    terms: Seq<Seq<char>>,
    t: Seq<char>,
)
    ensures
        relevance(title, body, Seq::empty()) == 0,
        ({
            let tl = lower_text(title);
            let bl = lower_text(body);
            let x = lower_text(t);
            let per = if utf8_len(body) < 100 {
                3int
            } else {
                10int
            };
            relevance(title, body, terms.push(t)) == relevance(title, body, terms) + per * (10
                * count_matches(tl, x) + count_matches(bl, x) + 3 * count_matches(intro_of(bl), x))
        }),
{
    assert(terms.push(t).drop_last() =~= terms);
}

/// A number, or `u64::MAX` where it is larger.
pub open spec fn capped(x: int) -> u64 {
    if x > u64::MAX {
        u64::MAX
    } else {
        x as u64
    }
}

/// The relevance of a chunk can be reckoned: with no term, or where the
/// first 200 bytes of its body in lower case end at a character boundary.
pub open spec fn scorable(body: Seq<char>, terms: Seq<Seq<char>>) -> bool {
    terms.len() > 0 ==> intro_ok(lower_text(body))
}

fn count_in(v: &Vec<char>, pat: &Vec<char>) -> (r: u128)
    ensures
        r == count_matches(v@, pat@),
        r <= usize::MAX as int + 1,
{
    proof {
        crate::text::lemma_count_matches_bound(v@, pat@);
    }
    if pat.len() == 0 {
        v.len() as u128 + 1
    } else {
        count_matches_exec(v, pat) as u128
    }
}

fn sat_add(a: u64, b: u128) -> (r: u64)
    ensures
        r == capped(a + b),
{
    if b > (u64::MAX - a) as u128 {
        u64::MAX
    } else {
        a + b as u64
    }
}

fn sat_times(a: u64, k: u64) -> (r: u64)
    requires
        k > 0,
    ensures
        r == capped(k * a),
{
    if a > u64::MAX / k {
        proof {
            assert(k * a > u64::MAX) by (nonlinear_arith)
                requires
                    a > u64::MAX / k,
                    k > 0,
            ;
        }
        u64::MAX
    } else {
        proof {
            assert(k * a <= u64::MAX) by (nonlinear_arith)
                requires
                    a <= u64::MAX / k,
                    k > 0,
            ;
        }
        k * a
    }
}

proof fn lemma_capped_add(a: int, b: int)
    requires
        a >= 0,
        b >= 0,
    ensures
        capped(capped(a) + b) == capped(a + b),
{
}

proof fn lemma_capped_times(a: int, k: int)
    requires
        k > 0,
        a >= 0,
    ensures
        capped(k * capped(a)) == capped(k * a),
{
    if a > u64::MAX {
        assert(k * a >= a) by (nonlinear_arith)
            requires
                k > 0,
                a >= 0,
        ;
        assert(k * (u64::MAX as int) >= u64::MAX) by (nonlinear_arith)
            requires
                k > 0,
        ;
    }
}

/// The relevance of a chunk to search terms, in tenths (`u64::MAX` where
/// larger).
pub fn calculate_relevance_score(chunk: &KnowledgeChunk, terms: &Vec<String>) -> (r: u64)
    requires
        scorable(chunk.body@, crate::panels::views_of(terms@)),
    ensures
        r == capped(relevance(chunk.title@, chunk.body@, crate::panels::views_of(terms@)) as int),
{
    let ghost tv = crate::panels::views_of(terms@);
    let title = chars_of(to_lowercase(chunk.title.as_str()).as_str());
    let body = chars_of(to_lowercase(chunk.body.as_str()).as_str());
    let mut score: u64 = 0;
    let mut i: usize = 0;
    while i < terms.len()
        invariant
            i <= terms@.len(),
            tv == crate::panels::views_of(terms@),
            title@ == lower_text(chunk.title@),
            body@ == lower_text(chunk.body@),
            scorable(chunk.body@, tv),
            score == capped(points(title@, body@, tv.take(i as int)) as int),
        decreases terms.len() - i,
    {
        let term = chars_of(to_lowercase(terms[i].as_str()).as_str());
        let intro = if crate::text::byte_within(&body, 200) {
            let k = chars_before_byte(&body, 200);
            proof {
                let c = choose|c: int|
                    0 <= c <= body@.len() && #[trigger] utf8_len(body@.take(c)) == 200;
                if c < k {
                    crate::text::lemma_utf8_len_prefix(body@, c, k as int);
                    crate::text::lemma_utf8_len_prefix(body@, c + 1, k as int);
                    assert(body@.take(c + 1).drop_last() =~= body@.take(c));
                } else if c > k {
                    crate::text::lemma_utf8_len_prefix(body@, k as int + 1, c);
                    assert(body@.take(k + 1).drop_last() =~= body@.take(k as int));
                }
            }
            let s = slice_vec(&body, 0, k);
            assert(s@ =~= body@.take(k as int));
            s
        } else {
            slice_vec(&body, 0, body.len())
        };
        assert(intro@ =~= intro_of(body@));
        let t = count_in(&title, &term);
        let b = count_in(&body, &term);
        let n = count_in(&intro, &term);
        let pts: u128 = 10 * t + b + 3 * n;
        proof {
            assert(tv.take(i + 1).drop_last() =~= tv.take(i as int));
            assert(tv.take(i + 1).last() == terms@[i as int]@);
            lemma_capped_add(points(title@, body@, tv.take(i as int)) as int, pts as int);
        }
        score = sat_add(score, pts);
        i = i + 1;
    }
    assert(tv.take(i as int) =~= tv);
    let short = !crate::text::byte_within(&chars_of(chunk.body.as_str()), 99);
    proof {
        lemma_capped_times(points(title@, body@, tv) as int, 3);
        lemma_capped_times(points(title@, body@, tv) as int, 10);
    }
    if short {
        sat_times(score, 3)
    } else {
        sat_times(score, 10)
    }
}


/// Whether the relevance of a chunk can be reckoned for the terms.
pub fn can_score(chunk: &KnowledgeChunk, terms: &Vec<String>) -> (r: bool)
    ensures
        r == scorable(chunk.body@, crate::panels::views_of(terms@)),
{
    if terms.len() == 0 {
        return true;
    }
    let body = chars_of(to_lowercase(chunk.body.as_str()).as_str());
    if crate::text::byte_within(&body, 200) {
        is_char_boundary_exec(&body, 200)
    } else {
        true
    }
}

// ---------------------------------------------------------------------------
// Ranking
// ---------------------------------------------------------------------------

/// The number of leading entries of `order` whose score is at least `s`.
pub open spec fn ge_prefix(order: Seq<int>, scores: Seq<u64>, s: u64) -> nat
    decreases order.len(),
{
    if order.len() == 0 {
        0
    } else if scores[order[0]] >= s {
        1 + ge_prefix(order.drop_first(), scores, s)
    } else {
        0
    }
}

/// The order of the entries by descending score, equal scores in their
/// first order: each entry is placed after those before it that score at
/// least as much.
pub open spec fn rank_order(scores: Seq<u64>) -> Seq<int>
    decreases scores.len(),
{
    if scores.len() == 0 {
        Seq::empty()
    } else {
        let o = rank_order(scores.drop_last());
        o.insert(ge_prefix(o, scores, scores.last()) as int, scores.len() - 1)
    }
}

/// The scores of chunks for search terms.
pub open spec fn chunk_scores(chunks: Seq<KnowledgeChunk>, terms: Seq<Seq<char>>) -> Seq<u64> {
    Seq::new(
        chunks.len(),
        |i: int| capped(relevance(chunks[i].title@, chunks[i].body@, terms) as int),
    )
}

/// The relevance of every chunk can be reckoned.
pub open spec fn all_scorable(chunks: Seq<KnowledgeChunk>, terms: Seq<Seq<char>>) -> bool {
    forall|i: int| 0 <= i < chunks.len() ==> scorable(#[trigger] chunks[i].body@, terms)
}

/// A chunk is a copy of another.
pub open spec fn same_chunk(a: KnowledgeChunk, b: KnowledgeChunk) -> bool {
    a.id == b.id && a.title@ == b.title@ && a.body@ == b.body@ && a.source_file@ == b.source_file@
        && a.metadata@ == b.metadata@
}

proof fn lemma_ge_prefix_scan(o: Seq<int>, scores: Seq<u64>, s: u64, p: int)
    requires
        0 <= p <= o.len(),
        forall|j: int| 0 <= j < p ==> scores[#[trigger] o[j]] >= s,
        p == o.len() || scores[o[p]] < s,
    ensures
        ge_prefix(o, scores, s) == p,
    decreases p,
{
    if p > 0 {
        let t = o.drop_first();
        assert forall|j: int| 0 <= j < p - 1 implies scores[#[trigger] t[j]] >= s by {
            assert(t[j] == o[j + 1]);
        }
        if p < o.len() {
            assert(t[p - 1] == o[p]);
        }
        lemma_ge_prefix_scan(t, scores, s, p - 1);
    }
}

proof fn lemma_ge_prefix_same(o: Seq<int>, a: Seq<u64>, b: Seq<u64>, s: u64)
    requires
        forall|j: int| 0 <= j < o.len() ==> 0 <= #[trigger] o[j] < a.len() && o[j] < b.len() && a[o[j]] == b[o[j]],
    ensures
        ge_prefix(o, a, s) == ge_prefix(o, b, s),
    decreases o.len(),
{
    if o.len() > 0 {
        let t = o.drop_first();
        assert forall|j: int| 0 <= j < t.len() implies 0 <= #[trigger] t[j] < a.len() && t[j] < b.len() && a[t[j]] == b[t[j]] by {
            assert(t[j] == o[j + 1]);
        }
        lemma_ge_prefix_same(t, a, b, s);
    }
}

proof fn lemma_ge_prefix_bounds(o: Seq<int>, scores: Seq<u64>, s: u64)
    ensures
        ge_prefix(o, scores, s) <= o.len(),
        forall|j: int| 0 <= j < ge_prefix(o, scores, s) ==> scores[#[trigger] o[j]] >= s,
        ge_prefix(o, scores, s) < o.len() ==> scores[o[ge_prefix(o, scores, s) as int]] < s,
    decreases o.len(),
{
    if o.len() > 0 {
        let t = o.drop_first();
        lemma_ge_prefix_bounds(t, scores, s);
        if scores[o[0]] >= s {
            assert forall|j: int| 0 <= j < ge_prefix(o, scores, s) implies scores[#[trigger] o[j]] >= s by {
                if j > 0 {
                    assert(o[j] == t[j - 1]);
                }
            }
            if ge_prefix(o, scores, s) < o.len() {
                assert(o[ge_prefix(o, scores, s) as int] == t[ge_prefix(t, scores, s) as int]);
            }
        }
    }
}

/// Ranking keeps each chunk exactly once and puts the higher scores first.
pub proof fn lemma_rank_order(scores: Seq<u64>)
    ensures
        rank_order(scores).len() == scores.len(),
        forall|j: int|
            0 <= j < scores.len() ==> 0 <= #[trigger] rank_order(scores)[j] < scores.len(),
        forall|a: int, b: int|
            0 <= a < b < scores.len() ==> rank_order(scores)[a] != rank_order(scores)[b],
        forall|a: int, b: int|
            0 <= a < b < scores.len() ==> scores[rank_order(scores)[a]] >= scores[rank_order(
                scores,
            )[b]],
    decreases scores.len(),
{
    if scores.len() > 0 {
        let d = scores.drop_last();
        let n = scores.len() - 1;
        let s = scores.last();
        lemma_rank_order(d);
        let o = rank_order(d);
        assert forall|j: int| 0 <= j < o.len() implies 0 <= #[trigger] o[j] < d.len() && o[j]
            < scores.len() && d[o[j]] == scores[o[j]] by {}
        lemma_ge_prefix_same(o, d, scores, s);
        lemma_ge_prefix_bounds(o, scores, s);
        let p = ge_prefix(o, scores, s) as int;
        let r = o.insert(p, n);
        assert(r == rank_order(scores));
        assert forall|j: int| 0 <= j < scores.len() implies 0 <= #[trigger] r[j] < scores.len() by {
            if j < p {
                assert(r[j] == o[j]);
            } else if j > p {
                assert(r[j] == o[j - 1]);
            }
        }
        assert forall|a: int, b: int| 0 <= a < b < scores.len() implies r[a] != r[b] by {
            if a < p && b < p {
                assert(r[a] == o[a] && r[b] == o[b]);
            } else if a < p && b == p {
                assert(r[a] == o[a]);
            } else if a < p && b > p {
                assert(r[a] == o[a] && r[b] == o[b - 1]);
            } else if a == p {
                assert(r[b] == o[b - 1]);
            } else {
                assert(r[a] == o[a - 1] && r[b] == o[b - 1]);
            }
        }
        assert forall|a: int, b: int| 0 <= a < b < scores.len() implies scores[r[a]] >= scores[r[b]] by {
            if b < p {
                assert(r[a] == o[a] && r[b] == o[b]);
            } else if b == p {
                assert(r[a] == o[a]);
            } else if a < p {
                assert(r[a] == o[a] && r[b] == o[b - 1]);
                assert(scores[o[a]] >= s);
                assert(scores[o[p]] < s);
                if b - 1 > p {
                    assert(scores[o[p]] >= scores[o[b - 1]]);
                }
            } else if a == p {
                assert(r[b] == o[b - 1]);
                assert(scores[o[p]] < s);
                if b - 1 > p {
                    assert(scores[o[p]] >= scores[o[b - 1]]);
                }
            } else {
                assert(r[a] == o[a - 1] && r[b] == o[b - 1]);
            }
        }
    }
}

/// The chunks ordered by descending relevance to the terms, chunks of equal
/// relevance in their first order.
pub fn score_and_rank_chunks(chunks: &Vec<KnowledgeChunk>, terms: &Vec<String>) -> (r: Vec<
    KnowledgeChunk,
>)
    requires
        all_scorable(chunks@, crate::panels::views_of(terms@)),
    ensures
        ({
            let order = rank_order(chunk_scores(chunks@, crate::panels::views_of(terms@)));
            &&& r@.len() == chunks@.len()
            &&& forall|j: int|
                0 <= j < r@.len() ==> same_chunk(#[trigger] r@[j], chunks@[order[j]])
        }),
{
    let ghost tv = crate::panels::views_of(terms@);
    let ghost all = chunk_scores(chunks@, tv);
    let mut scores: Vec<u64> = Vec::new();
    let mut i: usize = 0;
    while i < chunks.len()
        invariant
            i <= chunks@.len(),
            tv == crate::panels::views_of(terms@),
            all == chunk_scores(chunks@, tv),
            all_scorable(chunks@, tv),
            scores@ == all.take(i as int),
        decreases chunks.len() - i,
    {
        let sc = calculate_relevance_score(&chunks[i], terms);
        scores.push(sc);
        i = i + 1;
        assert(scores@ =~= all.take(i as int));
    }
    assert(all.take(i as int) =~= all);
    let mut order: Vec<usize> = Vec::new();
    let mut k: usize = 0;
    while k < scores.len()
        invariant
            k <= scores@.len(),
            scores@ == all,
            order@.map_values(|x: usize| x as int) == rank_order(all.take(k as int)),
            order@.len() == k,
            forall|j: int| 0 <= j < order@.len() ==> #[trigger] order@[j] < k,
        decreases scores.len() - k,
    {
        let ghost ov = order@.map_values(|x: usize| x as int);
        let ghost t = all.take(k + 1);
        let s = scores[k];
        let mut p: usize = 0;
        while p < order.len() && scores[order[p]] >= s
            invariant
                p <= order@.len(),
                scores@ == all,
                order@.len() == k,
                k < scores@.len(),
                forall|j: int| 0 <= j < order@.len() ==> #[trigger] order@[j] < k,
                forall|j: int| 0 <= j < p ==> scores@[#[trigger] order@[j] as int] >= s,
            decreases order.len() - p,
        {
            p = p + 1;
        }
        proof {
            assert(t.drop_last() =~= all.take(k as int));
            assert(t.last() == s);
            assert forall|j: int| 0 <= j < p implies t[#[trigger] ov[j]] >= s by {
                assert(ov[j] == order@[j] as int);
            }
            if p < order@.len() {
                assert(ov[p as int] == order@[p as int] as int);
            }
            lemma_ge_prefix_scan(ov, t, s, p as int);
        }
        order.insert(p, k);
        proof {
            assert(order@.map_values(|x: usize| x as int) =~= ov.insert(p as int, k as int));
        }
        k = k + 1;
    }
    assert(all.take(k as int) =~= all);
    let mut r: Vec<KnowledgeChunk> = Vec::new();
    let mut j: usize = 0;
    proof {
        lemma_rank_order(all);
    }
    while j < order.len()
        invariant
            j <= order@.len(),
            order@.len() == chunks@.len(),
            order@.map_values(|x: usize| x as int) == rank_order(all),
            forall|m: int| 0 <= m < order@.len() ==> #[trigger] order@[m] < chunks@.len(),
            r@.len() == j,
            forall|m: int|
                0 <= m < j ==> same_chunk(#[trigger] r@[m], chunks@[rank_order(all)[m]]),
        decreases order.len() - j,
    {
        proof {
            assert(rank_order(all)[j as int] == order@[j as int] as int);
        }
        r.push(chunks[order[j]].copy());
        j = j + 1;
    }
    r
}


/// The chunks ranked by relevance, or `None` where the relevance of some
/// chunk cannot be reckoned.
pub fn rank_chunks(chunks: &Vec<KnowledgeChunk>, terms: &Vec<String>) -> (r: Option<
    Vec<KnowledgeChunk>,
>)
    ensures
        r is None <==> !all_scorable(chunks@, crate::panels::views_of(terms@)),
        r matches Some(v) ==> ({
            let order = rank_order(chunk_scores(chunks@, crate::panels::views_of(terms@)));
            &&& v@.len() == chunks@.len()
            &&& forall|j: int|
                0 <= j < v@.len() ==> same_chunk(#[trigger] v@[j], chunks@[order[j]])
        }),
{
    let mut i: usize = 0;
    while i < chunks.len()
        invariant
            i <= chunks@.len(),
            forall|j: int|
                0 <= j < i ==> scorable(#[trigger] chunks@[j].body@, crate::panels::views_of(terms@)),
        decreases chunks.len() - i,
    {
        if !can_score(&chunks[i], terms) {
            return None;
        }
        i = i + 1;
    }
    Some(score_and_rank_chunks(chunks, terms))
}

// ---------------------------------------------------------------------------
// Snippets and sources
// ---------------------------------------------------------------------------

/// The sentences of a body that make good snippets: the pieces between its
/// full stops, trimmed, longer than 30 and shorter than 300 bytes; the
/// first two of them, each with its full stop.
pub open spec fn good_sentences(pieces: Seq<Seq<char>>) -> Seq<Seq<char>>
    decreases pieces.len(),
{
    if pieces.len() == 0 {
        Seq::empty()
    } else {
        let rest = good_sentences(pieces.drop_last());
        let t = trim(pieces.last());
        if 30 < utf8_len(t) && utf8_len(t) < 300 {
            rest.push(t)
        } else {
            rest
        }
    }
}

pub open spec fn chunk_snippets(body: Seq<char>) -> Seq<Seq<char>> {
    let g = good_sentences(split_at_char(body, '.'));
    let two = if g.len() <= 2 {
        g
    } else {
        g.take(2)
    };
    two.map_values(|t: Seq<char>| t + "."@)
}

/// The snippets of the first chunks, taken chunk by chunk until there are
/// at least `max` of them.
pub open spec fn snippet_fold(bodies: Seq<Seq<char>>, max: nat) -> Seq<Seq<char>>
    decreases bodies.len(),
{
    if bodies.len() == 0 {
        Seq::empty()
    } else {
        let prev = snippet_fold(bodies.drop_last(), max);
        if prev.len() >= max {
            prev
        } else {
            prev + chunk_snippets(bodies.last())
        }
    }
}

pub open spec fn bodies_of(chunks: Seq<KnowledgeChunk>) -> Seq<Seq<char>> {
    chunks.map_values(|c: KnowledgeChunk| c.body@)
}

/// At most `max` snippets from the first `2 * max` chunks.
pub open spec fn relevant_snippets(chunks: Seq<KnowledgeChunk>, max: nat) -> Seq<Seq<char>> {
    let b = bodies_of(chunks);
    let first = if b.len() <= 2 * max {
        b
    } else {
        b.take(2 * max as int)
    };
    let all = snippet_fold(first, max);
    if all.len() <= max {
        all
    } else {
        all.take(max as int)
    }
}

fn sentences_of(body: &str) -> (r: Vec<String>)
    ensures
        crate::panels::views_of(r@) == chunk_snippets(body@),
{
    let pieces = split_char(body, '.');
    let ghost pv = pieces@.map_values(|w: Vec<char>| w@);
    let mut good: Vec<String> = Vec::new();
    let mut i: usize = 0;
    while i < pieces.len()
        invariant
            i <= pieces@.len(),
            pv == pieces@.map_values(|w: Vec<char>| w@),
            pv == split_at_char(body@, '.'),
            crate::panels::views_of(good@) == good_sentences(pv.take(i as int)),
        decreases pieces.len() - i,
    {
        assert(pv.take(i + 1).drop_last() =~= pv.take(i as int));
        assert(pv.take(i + 1).last() == pieces@[i as int]@);
        let t = trim_vec(&pieces[i]);
        let long = byte_within(&t, 30);
        let short = !byte_within(&t, 299);
        if long && short {
            let ghost before = crate::panels::views_of(good@);
            good.push(string_of(&t));
            assert(crate::panels::views_of(good@) =~= before.push(t@));
        }
        i = i + 1;
    }
    assert(pv.take(i as int) =~= pv);
    let ghost g = good_sentences(pv);
    let ghost two = if g.len() <= 2 {
        g
    } else {
        g.take(2)
    };
    let mut r: Vec<String> = Vec::new();
    let mut k: usize = 0;
    while k < good.len() && k < 2
        invariant
            k <= good@.len(),
            k <= 2,
            crate::panels::views_of(good@) == g,
            two == if g.len() <= 2 {
                g
            } else {
                g.take(2)
            },
            crate::panels::views_of(r@) == two.take(k as int).map_values(|t: Seq<char>| t + "."@),
        decreases good.len() - k,
    {
        let ghost before = crate::panels::views_of(r@);
        let mut t = good[k].clone();
        t.append(".");
        let ghost tv = t@;
        assert(tv == two[k as int] + "."@) by {
            assert(two[k as int] == g[k as int]);
            assert(g[k as int] == good@[k as int]@);
        }
        r.push(t);
        assert(crate::panels::views_of(r@) =~= before.push(tv));
        k = k + 1;
        assert(two.take(k as int).map_values(|t: Seq<char>| t + "."@) =~= two.take(k - 1).map_values(
            |t: Seq<char>| t + "."@,
        ).push(tv));
        assert(crate::panels::views_of(r@) =~= two.take(k as int).map_values(
            |t: Seq<char>| t + "."@,
        ));
    }
    assert(two.take(k as int) =~= two);
    r
}

/// At most `max` snippets of the chunks, as `extract_relevant_snippets`
/// picks them.
pub fn extract_relevant_snippets(chunks: &Vec<KnowledgeChunk>, max: usize) -> (r: Vec<String>)
    requires
        max <= usize::MAX / 2,
    ensures
        crate::panels::views_of(r@) == relevant_snippets(chunks@, max as nat),
{
    let ghost b = bodies_of(chunks@);
    let limit = if chunks.len() <= 2 * max {
        chunks.len()
    } else {
        2 * max
    };
    let ghost first = b.take(limit as int);
    assert(first =~= if b.len() <= 2 * max {
        b
    } else {
        b.take(2 * max as int)
    });
    let mut all: Vec<String> = Vec::new();
    let mut i: usize = 0;
    while i < limit
        invariant
            i <= limit <= chunks@.len(),
            b == bodies_of(chunks@),
            first == b.take(limit as int),
            crate::panels::views_of(all@) == snippet_fold(first.take(i as int), max as nat),
        decreases limit - i,
    {
        assert(first.take(i + 1).drop_last() =~= first.take(i as int));
        assert(first.take(i + 1).last() == chunks@[i as int].body@);
        if all.len() >= max {
            i = i + 1;
        } else {
            let s = sentences_of(chunks[i].body.as_str());
            let ghost before = crate::panels::views_of(all@);
            let mut k: usize = 0;
            while k < s.len()
                invariant
                    k <= s@.len(),
                    crate::panels::views_of(all@) == before + crate::panels::views_of(s@).take(
                        k as int,
                    ),
                decreases s.len() - k,
            {
                let ghost mid = crate::panels::views_of(all@);
                let x = s[k].clone();
                let ghost xv = x@;
                assert(xv == crate::panels::views_of(s@)[k as int]);
                all.push(x);
                assert(crate::panels::views_of(all@) =~= mid.push(xv));
                k = k + 1;
                assert(crate::panels::views_of(all@) =~= before + crate::panels::views_of(
                    s@,
                ).take(k as int));
            }
            assert(crate::panels::views_of(s@).take(k as int) =~= crate::panels::views_of(s@));
            i = i + 1;
        }
    }
    assert(first.take(i as int) =~= first);
    let ghost fold = snippet_fold(first, max as nat);
    let mut r: Vec<String> = Vec::new();
    let mut k: usize = 0;
    while k < all.len() && k < max
        invariant
            k <= all@.len(),
            k <= max,
            crate::panels::views_of(all@) == fold,
            crate::panels::views_of(r@) == fold.take(k as int),
        decreases all.len() - k,
    {
        let ghost mid = crate::panels::views_of(r@);
        let x = all[k].clone();
        let ghost xv = x@;
        assert(xv == fold[k as int]);
        r.push(x);
        assert(crate::panels::views_of(r@) =~= mid.push(xv));
        k = k + 1;
        assert(crate::panels::views_of(r@) =~= fold.take(k as int));
    }
    proof {
        if fold.len() <= max {
            assert(fold.take(k as int) =~= fold);
        }
    }
    r
}


/// Where a chunk comes from: its file, with `#page=<n>` where its metadata
/// names a page.
pub open spec fn source_path(c: KnowledgeChunk) -> Seq<char> {
    match json_parse_result(c.metadata@) {
        Some(m) => match get_u64(m, "page_number"@) {
            Some(p) => c.source_file@ + "#page="@ + decimal(p as nat),
            None => c.source_file@,
        },
        None => c.source_file@,
    }
}

/// The file name of a chunk's source, by which sources are told apart.
pub open spec fn source_name(c: KnowledgeChunk) -> Seq<char> {
    match file_name_of(c.source_file@) {
        Some(n) => n,
        None => c.source_file@,
    }
}

/// The sources of the chunks, one per file name, and the file names seen,
/// taken until there are five sources.
pub open spec fn sources_fold(chunks: Seq<KnowledgeChunk>) -> (Seq<Seq<char>>, Seq<Seq<char>>)
    decreases chunks.len(),
{
    if chunks.len() == 0 {
        (Seq::empty(), Seq::empty())
    } else {
        let (src, seen) = sources_fold(chunks.drop_last());
        let c = chunks.last();
        if src.len() >= 5 || seen.contains(source_name(c)) {
            (src, seen)
        } else {
            (src.push(source_path(c)), seen.push(source_name(c)))
        }
    }
}

/// Up to five sources of the chunks, in order, one per file name.
pub open spec fn unique_sources(chunks: Seq<KnowledgeChunk>) -> Seq<Seq<char>> {
    sources_fold(chunks).0
}

fn source_path_exec(c: &KnowledgeChunk) -> (r: String)
    ensures
        r@ == source_path(*c),
{
    match parse_json(c.metadata.as_str()) {
        Some(m) => match m.get("page_number") {
            Some(p) => match p.as_u64() {
                Some(n) => {
                    let mut s = c.source_file.clone();
                    s.append("#page=");
                    push_decimal(&mut s, n);
                    s
                },
                None => c.source_file.clone(),
            },
            None => c.source_file.clone(),
        },
        None => c.source_file.clone(),
    }
}

fn contains_string(v: &Vec<String>, s: &str) -> (r: bool)
    ensures
        r == crate::panels::views_of(v@).contains(s@),
{
    let mut i: usize = 0;
    while i < v.len()
        invariant
            i <= v@.len(),
            forall|j: int| 0 <= j < i ==> v@[j]@ != s@,
        decreases v.len() - i,
    {
        if str_eq(v[i].as_str(), s) {
            assert(crate::panels::views_of(v@)[i as int] == s@);
            return true;
        }
        i = i + 1;
    }
    assert(!crate::panels::views_of(v@).contains(s@)) by {
        if crate::panels::views_of(v@).contains(s@) {
            let j = choose|j: int| 0 <= j < v@.len() && crate::panels::views_of(v@)[j] == s@;
            assert(v@[j]@ == s@);
        }
    }
    false
}

/// Up to five sources of the chunks, one per file name.
pub fn extract_unique_sources(chunks: &Vec<KnowledgeChunk>) -> (r: Vec<String>)
    ensures
        crate::panels::views_of(r@) == unique_sources(chunks@),
{
    let mut sources: Vec<String> = Vec::new();
    let mut seen: Vec<String> = Vec::new();
    let mut i: usize = 0;
    while i < chunks.len()
        invariant
            i <= chunks@.len(),
            (crate::panels::views_of(sources@), crate::panels::views_of(seen@)) == sources_fold(
                chunks@.take(i as int),
            ),
        decreases chunks.len() - i,
    {
        assert(chunks@.take(i + 1).drop_last() =~= chunks@.take(i as int));
        assert(chunks@.take(i + 1).last() == chunks@[i as int]);
        if sources.len() < 5 {
            let c = &chunks[i];
            let name = match path_file_name(c.source_file.as_str()) {
                Some(n) => n,
                None => c.source_file.clone(),
            };
            if !contains_string(&seen, name.as_str()) {
                let path = source_path_exec(c);
                let ghost (s0, n0) = (crate::panels::views_of(sources@), crate::panels::views_of(seen@));
                let ghost (pv, nv) = (path@, name@);
                sources.push(path);
                seen.push(name);
                assert(crate::panels::views_of(sources@) =~= s0.push(pv));
                assert(crate::panels::views_of(seen@) =~= n0.push(nv));
            }
        }
        i = i + 1;
    }
    assert(chunks@.take(i as int) =~= chunks@);
    sources
}

/// The pieces joined one after the other.
pub open spec fn concat_all(pieces: Seq<Seq<char>>) -> Seq<char>
    decreases pieces.len(),
{
    if pieces.len() == 0 {
        Seq::empty()
    } else {
        concat_all(pieces.drop_last()) + pieces.last()
    }
}

/// The sources as `(from <source>)`, separated by commas.
pub open spec fn sources_line(sources: Seq<Seq<char>>) -> Seq<char> {
    join_with(sources.map_values(|s: Seq<char>| "(from "@ + s + ")"@), ", "@)
}

/// The end of an answer: its sources, and how to open them.
pub open spec fn sources_footer(chunks: Seq<KnowledgeChunk>) -> Seq<char> {
    "📚 **Sources**: "@ + sources_line(unique_sources(chunks))
        + "\n\n💡 *Press Tab to cycle source links, Enter to open.*"@
}

fn append_sources(out: &mut String, chunks: &Vec<KnowledgeChunk>)
    ensures
        final(out)@ == old(out)@ + sources_footer(chunks@),
{
    out.append("📚 **Sources**: ");
    let sources = extract_unique_sources(chunks);
    let ghost sv = crate::panels::views_of(sources@);
    let ghost parts = sv.map_values(|s: Seq<char>| "(from "@ + s + ")"@);
    let ghost start = out@;
    let mut i: usize = 0;
    while i < sources.len()
        invariant
            i <= sources@.len(),
            sv == crate::panels::views_of(sources@),
            parts == sv.map_values(|s: Seq<char>| "(from "@ + s + ")"@),
            out@ == start + join_with(parts.take(i as int), ", "@),
        decreases sources.len() - i,
    {
        if i > 0 {
            out.append(", ");
        }
        out.append("(from ");
        out.append(sources[i].as_str());
        out.append(")");
        proof {
            let t = parts.take(i + 1);
            assert(t.drop_last() =~= parts.take(i as int));
            assert(t.last() == "(from "@ + sources@[i as int]@ + ")"@);
            if i == 0 {
                assert(t.len() == 1);
            }
        }
        i = i + 1;
    }
    assert(parts.take(i as int) =~= parts);
    out.append("\n\n💡 *Press Tab to cycle source links, Enter to open.*");
}

/// The answer made from the chunks directly: the topic of the question,
/// up to four snippets, then the sources.
pub open spec fn answer_text(query: Seq<char>, chunks: Seq<KnowledgeChunk>) -> Seq<char> {
    "**Regarding "@ + crate::llm::topic_of(query) + ":**\n\n"@ + concat_all(
        relevant_snippets(chunks, 4).map_values(|s: Seq<char>| s + "\n\n"@),
    ) + "\n---\n"@ + sources_footer(chunks)
}

pub fn generate_answer_from_chunks(query: &str, chunks: &Vec<KnowledgeChunk>) -> (r: String)
    ensures
        r@ == answer_text(query@, chunks@),
{
    let topic = crate::llm::extract_topic(query);
    let mut out = owned("**Regarding ");
    out.append(topic.as_str());
    out.append(":**\n\n");
    let snippets = extract_relevant_snippets(chunks, 4);
    let ghost parts = crate::panels::views_of(snippets@).map_values(|s: Seq<char>| s + "\n\n"@);
    let ghost start = out@;
    let mut i: usize = 0;
    while i < snippets.len()
        invariant
            i <= snippets@.len(),
            parts == crate::panels::views_of(snippets@).map_values(|s: Seq<char>| s + "\n\n"@),
            out@ == start + concat_all(parts.take(i as int)),
        decreases snippets.len() - i,
    {
        out.append(snippets[i].as_str());
        out.append("\n\n");
        proof {
            let t = parts.take(i + 1);
            assert(t.drop_last() =~= parts.take(i as int));
            assert(t.last() == snippets@[i as int]@ + "\n\n"@);
        }
        i = i + 1;
    }
    assert(parts.take(i as int) =~= parts);
    out.append("\n---\n");
    append_sources(&mut out, chunks);
    out
}

/// The answer made from the local model's output: the output cleaned, then
/// the sources.
pub open spec fn summary_text(raw: Seq<char>, chunks: Seq<KnowledgeChunk>) -> Seq<char> {
    crate::llm::cleaned_text(raw) + "\n\n---\n"@ + sources_footer(chunks)
}

pub fn summary_response(raw: &str, chunks: &Vec<KnowledgeChunk>) -> (r: String)
    ensures
        r@ == summary_text(raw@, chunks@),
{
    let mut out = crate::llm::clean_llm_response(raw);
    out.append("\n\n---\n");
    append_sources(&mut out, chunks);
    out
}


// ---------------------------------------------------------------------------
// The prompt of the local model
// ---------------------------------------------------------------------------

/// The first 300 bytes of a text (all of it where it is shorter).
pub open spec fn excerpt_of(body: Seq<char>) -> Seq<char> {
    if utf8_len(body) <= 300 {
        body
    } else {
        body.take(choose|k: int| 0 <= k <= body.len() && #[trigger] utf8_len(body.take(k)) == 300)
    }
}

/// The excerpts of the first three chunks can be taken: each longer body's
/// first 300 bytes end at a character boundary.
pub open spec fn excerpts_ok(chunks: Seq<KnowledgeChunk>) -> bool {
    forall|i: int|
        0 <= i < chunks.len() && i < 3 ==> (utf8_len(#[trigger] chunks[i].body@) > 300
            ==> is_char_boundary(chunks[i].body@, 300))
}

pub open spec fn prompt_header() -> Seq<char> {
    "<|system|>\nYou are a helpful assistant that answers questions concisely based on provided excerpts.\nRules:\n- Answer in 2-4 sentences maximum\n- Use natural, conversational language\n- Only use information from the excerpts\n- If excerpts don't fully answer the question, say so\n\nEXCERPTS:\n"@
}

/// The numbered excerpts of the chunks: `[n] <excerpt>` and a blank line.
pub open spec fn excerpt_lines(chunks: Seq<KnowledgeChunk>) -> Seq<char>
    decreases chunks.len(),
{
    if chunks.len() == 0 {
        Seq::empty()
    } else {
        excerpt_lines(chunks.drop_last()) + "["@ + decimal(chunks.len()) + "] "@ + excerpt_of(
            chunks.last().body@,
        ) + "\n\n"@
    }
}

/// The prompt for the local model: the rules, excerpts of the first three
/// chunks, and the question.
pub open spec fn summarizer_prompt(query: Seq<char>, chunks: Seq<KnowledgeChunk>) -> Seq<char> {
    let first = if chunks.len() <= 3 {
        chunks
    } else {
        chunks.take(3)
    };
    prompt_header() + excerpt_lines(first) + "<|user|>\n"@ + query + "\n<|assistant|>\n"@
}

fn excerpt(body: &str) -> (r: String)
    requires
        utf8_len(body@) > 300 ==> is_char_boundary(body@, 300),
    ensures
        r@ == excerpt_of(body@),
{
    let v = chars_of(body);
    if byte_within(&v, 300) {
        let k = chars_before_byte(&v, 300);
        proof {
            let c = choose|c: int| 0 <= c <= v@.len() && #[trigger] utf8_len(v@.take(c)) == 300;
            if c < k {
                crate::text::lemma_utf8_len_prefix(v@, c, k as int);
                crate::text::lemma_utf8_len_prefix(v@, c + 1, k as int);
                assert(v@.take(c + 1).drop_last() =~= v@.take(c));
            } else if c > k {
                crate::text::lemma_utf8_len_prefix(v@, k as int + 1, c);
                assert(v@.take(k + 1).drop_last() =~= v@.take(k as int));
            }
        }
        let r = crate::text::substring(&v, 0, k);
        assert(v@.subrange(0, k as int) =~= v@.take(k as int));
        r
    } else {
        owned(body)
    }
}

pub fn build_summarizer_prompt(query: &str, chunks: &Vec<KnowledgeChunk>) -> (r: String)
    requires
        excerpts_ok(chunks@),
    ensures
        r@ == summarizer_prompt(query@, chunks@),
{
    let mut out = owned(
        "<|system|>\nYou are a helpful assistant that answers questions concisely based on provided excerpts.\nRules:\n- Answer in 2-4 sentences maximum\n- Use natural, conversational language\n- Only use information from the excerpts\n- If excerpts don't fully answer the question, say so\n\nEXCERPTS:\n",
    );
    let n = if chunks.len() <= 3 {
        chunks.len()
    } else {
        3
    };
    let ghost first = chunks@.take(n as int);
    assert(first =~= if chunks@.len() <= 3 {
        chunks@
    } else {
        chunks@.take(3)
    });
    let ghost start = out@;
    let mut i: usize = 0;
    while i < n
        invariant
            i <= n <= 3,
            n <= chunks@.len(),
            first == chunks@.take(n as int),
            excerpts_ok(chunks@),
            out@ == start + excerpt_lines(first.take(i as int)),
        decreases n - i,
    {
        out.append("[");
        crate::text::push_decimal(&mut out, (i + 1) as u64);
        out.append("] ");
        let e = excerpt(chunks[i].body.as_str());
        out.append(e.as_str());
        out.append("\n\n");
        proof {
            let t = first.take(i + 1);
            assert(t.drop_last() =~= first.take(i as int));
            assert(t.last() == chunks@[i as int]);
        }
        i = i + 1;
    }
    assert(first.take(i as int) =~= first);
    out.append("<|user|>\n");
    out.append(query);
    out.append("\n<|assistant|>\n");
    out
}

/// The prompt for the local model, or `None` where an excerpt would cut a
/// character.
pub fn summarizer_prompt_checked(query: &str, chunks: &Vec<KnowledgeChunk>) -> (r: Option<String>)
    ensures
        r is None <==> !excerpts_ok(chunks@),
        r matches Some(p) ==> p@ == summarizer_prompt(query@, chunks@),
{
    let mut i: usize = 0;
    while i < chunks.len() && i < 3
        invariant
            i <= chunks@.len(),
            i <= 3,
            forall|j: int|
                0 <= j < i ==> (utf8_len(#[trigger] chunks@[j].body@) > 300 ==> is_char_boundary(
                    chunks@[j].body@,
                    300,
                )),
        decreases chunks.len() - i,
    {
        let v = chars_of(chunks[i].body.as_str());
        if byte_within(&v, 300) && !is_char_boundary_exec(&v, 300) {
            return None;
        }
        i = i + 1;
    }
    Some(build_summarizer_prompt(query, chunks))
}


// ---------------------------------------------------------------------------
// Searching the knowledge base
// ---------------------------------------------------------------------------

/// The knowledge domains of the knowledge modules: each module name that
/// holds `_knowledge`, without it.
pub open spec fn domains_of(names: Seq<Seq<char>>) -> Seq<Seq<char>>
    decreases names.len(),
{
    if names.len() == 0 {
        Seq::empty()
    } else {
        let rest = domains_of(names.drop_last());
        let n = names.last();
        if contains(n, "_knowledge"@) {
            rest.push(replace_all(n, "_knowledge"@, ""@))
        } else {
            rest
        }
    }
}

pub fn knowledge_domains(names: &Vec<String>) -> (r: Vec<String>)
    ensures
        crate::panels::views_of(r@) == domains_of(crate::panels::views_of(names@)),
{
    proof {
        reveal_strlit("_knowledge");
    }
    let ghost nv = crate::panels::views_of(names@);
    let mut r: Vec<String> = Vec::new();
    let mut i: usize = 0;
    while i < names.len()
        invariant
            i <= names@.len(),
            nv == crate::panels::views_of(names@),
            crate::panels::views_of(r@) == domains_of(nv.take(i as int)),
        decreases names.len() - i,
    {
        assert(nv.take(i + 1).drop_last() =~= nv.take(i as int));
        assert(nv.take(i + 1).last() == names@[i as int]@);
        proof {
            reveal_strlit("_knowledge");
        }
        if contains_str(names[i].as_str(), "_knowledge") {
            let d = replace_str(names[i].as_str(), "_knowledge", "");
            let ghost before = crate::panels::views_of(r@);
            let ghost dv = d@;
            r.push(d);
            assert(crate::panels::views_of(r@) =~= before.push(dv));
        }
        i = i + 1;
    }
    assert(nv.take(i as int) =~= nv);
    r
}

/// The chunks found, each new one (by id) added after those already found.
pub open spec fn merge_new(found: Seq<KnowledgeChunk>, more: Seq<KnowledgeChunk>) -> Seq<KnowledgeChunk>
    decreases more.len(),
{
    if more.len() == 0 {
        found
    } else {
        let acc = merge_new(found, more.drop_last());
        let c = more.last();
        if exists|j: int| 0 <= j < acc.len() && (#[trigger] acc[j]).id == c.id {
            acc
        } else {
            acc.push(c)
        }
    }
}

fn has_id(v: &Vec<KnowledgeChunk>, id: i64) -> (r: bool)
    ensures
        r == exists|j: int| 0 <= j < v@.len() && (#[trigger] v@[j]).id == id,
{
    let mut i: usize = 0;
    while i < v.len()
        invariant
            i <= v@.len(),
            forall|j: int| 0 <= j < i ==> (#[trigger] v@[j]).id != id,
        decreases v.len() - i,
    {
        if v[i].id == id {
            return true;
        }
        i = i + 1;
    }
    false
}

fn merge_into(results: &mut Vec<KnowledgeChunk>, more: Vec<KnowledgeChunk>)
    ensures
        final(results)@ == merge_new(old(results)@, more@),
{
    let ghost all = more@;
    let n0 = more.len();
    let mut more = more;
    let mut i: usize = 0;
    while more.len() > 0
        invariant
            all.len() == n0,
            i + more@.len() == all.len(),
            more@ == all.skip(i as int),
            results@ == merge_new(old(results)@, all.take(i as int)),
        decreases more.len(),
    {
        let c = more.remove(0);
        assert(all.take(i + 1).drop_last() =~= all.take(i as int));
        assert(all.take(i + 1).last() == c);
        if !has_id(results, c.id) {
            results.push(c);
        }
        i = i + 1;
        assert(more@ =~= all.skip(i as int));
    }
    assert(all.take(i as int) =~= all);
}

/// The stage of a search.
#[derive(Clone, Copy, Debug, PartialEq, Eq, Structural)]
pub enum SearchStage {
    /// Waiting for the phrase search.
    Phrase,
    /// Waiting for the search for any of the terms.
    AnyTerm,
    /// Waiting for the search for the term at this index.
    Term(usize),
    /// Done.
    Finished,
}

/// A search of the knowledge base in up to four queries: the terms as a
/// phrase; where that finds fewer than five chunks and there are several
/// terms, any of the terms; where there are still fewer than five, each of
/// the first two terms alone.
pub struct KnowledgeSearch {
    pub terms: Vec<String>,
    pub stage: SearchStage,
    pub results: Vec<KnowledgeChunk>,
}

/// What the search asks for next.
pub enum SearchAction {
    /// Search the knowledge base for `query`, returning up to `limit`
    /// chunks.
    Query { query: String, limit: usize },
    /// The search is over: the chunks found, in the order found.
    Done(Vec<KnowledgeChunk>),
}

/// The query for the term at index `k`, or the end of the search.
pub open spec fn term_step_ok(s: KnowledgeSearch, k: usize, a: SearchAction) -> bool {
    if k < 2 && k < s.terms@.len() {
        &&& s.stage == SearchStage::Term(k)
        &&& a matches SearchAction::Query { query, limit }
        &&& query@ == s.terms@[k as int]@
        &&& limit == 10
    } else {
        &&& s.stage == SearchStage::Finished
        &&& s.results@.len() == 0
        &&& a is Done
    }
}

impl KnowledgeSearch {
    /// Starts a search for the terms: done at once where there is none,
    /// else the phrase search for up to 15 chunks.
    pub fn start(terms: Vec<String>) -> (r: (KnowledgeSearch, SearchAction))
        ensures
            crate::panels::views_of(r.0.terms@) == crate::panels::views_of(terms@),
            r.0.results@.len() == 0,
            terms@.len() == 0 ==> r.0.stage == SearchStage::Finished && (r.1 matches SearchAction::Done(v) && v@.len() == 0),
            terms@.len() > 0 ==> r.0.stage == SearchStage::Phrase && (r.1 matches SearchAction::Query { query, limit } && query@ == join_with(
                crate::panels::views_of(terms@),
                " "@,
            ) && limit == 15),
    {
        if terms.len() == 0 {
            (
                KnowledgeSearch { terms, stage: SearchStage::Finished, results: Vec::new() },
                SearchAction::Done(Vec::new()),
            )
        } else {
            let query = crate::text::join_strings(&terms, " ");
            (
                KnowledgeSearch { terms, stage: SearchStage::Phrase, results: Vec::new() },
                SearchAction::Query { query, limit: 15 },
            )
        }
    }

    fn term_step(&mut self, k: usize) -> (a: SearchAction)
        ensures
            final(self).terms@ == old(self).terms@,
            ({
                let pre = *old(self);
                if k < 2 && k < pre.terms@.len() {
                    final(self).results@ == pre.results@ && term_step_ok(*final(self), k, a)
                } else {
                    &&& term_step_ok(*final(self), k, a)
                    &&& a matches SearchAction::Done(v) && v@ == pre.results@
                }
            }),
    {
        if k < 2 && k < self.terms.len() {
            self.stage = SearchStage::Term(k);
            SearchAction::Query { query: self.terms[k].clone(), limit: 10 }
        } else {
            self.stage = SearchStage::Finished;
            let mut done: Vec<KnowledgeChunk> = Vec::new();
            std::mem::swap(&mut done, &mut self.results);
            SearchAction::Done(done)
        }
    }

    /// Takes in what the last query found and says what comes next.
    pub fn on_results(&mut self, found: Vec<KnowledgeChunk>) -> (a: SearchAction)
        ensures
            final(self).terms@ == old(self).terms@,
            ({
                let pre = *old(self);
                let n = pre.terms@.len();
                match pre.stage {
                    SearchStage::Phrase => {
                        if found@.len() < 5 && n > 1 {
                            &&& final(self).stage == SearchStage::AnyTerm
                            &&& final(self).results@ == found@
                            &&& a matches SearchAction::Query { query, limit }
                            &&& query@ == join_with(crate::panels::views_of(pre.terms@), " OR "@)
                            &&& limit == 20
                        } else if found@.len() < 5 {
                            &&& term_step_ok(*final(self), 0, a)
                            &&& (a matches SearchAction::Done(v) ==> v@ == found@)
                            &&& (a is Query ==> final(self).results@ == found@)
                        } else {
                            &&& final(self).stage == SearchStage::Finished
                            &&& final(self).results@.len() == 0
                            &&& a matches SearchAction::Done(v) && v@ == found@
                        }
                    },
                    SearchStage::AnyTerm => {
                        let merged = merge_new(pre.results@, found@);
                        if merged.len() < 5 {
                            &&& term_step_ok(*final(self), 0, a)
                            &&& (a matches SearchAction::Done(v) ==> v@ == merged)
                            &&& (a is Query ==> final(self).results@ == merged)
                        } else {
                            &&& final(self).stage == SearchStage::Finished
                            &&& final(self).results@.len() == 0
                            &&& a matches SearchAction::Done(v) && v@ == merged
                        }
                    },
                    SearchStage::Term(k) => {
                        let merged = merge_new(pre.results@, found@);
                        &&& k < usize::MAX ==> term_step_ok(*final(self), (k + 1) as usize, a)
                        &&& (a matches SearchAction::Done(v) ==> v@ == merged)
                        &&& (a is Query ==> final(self).results@ == merged)
                    },
                    SearchStage::Finished => {
                        &&& final(self).stage == SearchStage::Finished
                        &&& final(self).results@.len() == 0
                        &&& a matches SearchAction::Done(v) && v@ == pre.results@
                    },
                }
            }),
    {
        match self.stage {
            SearchStage::Phrase => {
                self.results = found;
                if self.results.len() < 5 && self.terms.len() > 1 {
                    self.stage = SearchStage::AnyTerm;
                    SearchAction::Query { query: crate::text::join_strings(&self.terms, " OR "), limit: 20 }
                } else if self.results.len() < 5 {
                    self.term_step(0)
                } else {
                    self.term_step(2)
                }
            },
            SearchStage::AnyTerm => {
                merge_into(&mut self.results, found);
                if self.results.len() < 5 {
                    self.term_step(0)
                } else {
                    self.term_step(2)
                }
            },
            SearchStage::Term(k) => {
                merge_into(&mut self.results, found);
                if k < usize::MAX {
                    self.term_step(k + 1)
                } else {
                    self.term_step(2)
                }
            },
            SearchStage::Finished => self.term_step(2),
        }
    }
}

/// The six most relevant of the chunks found, or `None` where the relevance
/// of some chunk cannot be reckoned.
pub fn best_chunks(found: &Vec<KnowledgeChunk>, terms: &Vec<String>) -> (r: Option<Vec<KnowledgeChunk>>)
    ensures
        r is None <==> !all_scorable(found@, crate::panels::views_of(terms@)),
        r matches Some(v) ==> ({
            let order = rank_order(chunk_scores(found@, crate::panels::views_of(terms@)));
            let n = if found@.len() < 6 { found@.len() } else { 6 };
            &&& v@.len() == n
            &&& forall|j: int| 0 <= j < n ==> same_chunk(#[trigger] v@[j], found@[order[j]])
        }),
{
    match rank_chunks(found, terms) {
        None => None,
        Some(ranked) => {
            let mut ranked = ranked;
            ranked.truncate(6);
            Some(ranked)
        },
    }
}


/// How a question is answered once the knowledge base was searched.
pub enum AnswerPlan {
    /// This text.
    Answer(String),
    /// By the local model, from the chunks found.
    Summarize,
}

/// The answer to a question from the chunks found: that nothing was found,
/// the local model's summary where it is in use, or the chunks' snippets.
pub fn plan_answer(settings: &crate::llm::LlmSettings, query: &str, chunks: &Vec<KnowledgeChunk>) -> (r:
    AnswerPlan)
    ensures
        chunks@.len() == 0 ==> (r matches AnswerPlan::Answer(t) && t@ == crate::llm::no_results_text(query@)),
        chunks@.len() > 0 && settings.use_summarizer && settings.model_path is Some ==> r is Summarize,
        chunks@.len() > 0 && !(settings.use_summarizer && settings.model_path is Some) ==> (r matches AnswerPlan::Answer(t) && t@ == answer_text(query@, chunks@)),
{
    if chunks.len() == 0 {
        AnswerPlan::Answer(crate::llm::generate_no_results_response(query))
    } else if settings.use_summarizer && settings.model_path.is_some() {
        AnswerPlan::Summarize
    } else {
        AnswerPlan::Answer(generate_answer_from_chunks(query, chunks))
    }
}

} // verus!
