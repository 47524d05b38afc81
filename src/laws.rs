use vstd::prelude::*;

use crate::ranking::{
    capped, has_score, match_score, ranked, ranked_down_to, ranked_entries, ranked_items,
    recommendation, scored, top_score, Scored,
};
use crate::record::{items_view, project, QueryView, ResultItem, SongView};
use crate::text::{is_substring, lower_of};

verus! {

broadcast use vstd::seq_lib::group_filter_ensures;

/// The test "this entry's score lies between `v` and the top score".
spec fn scores_from(v: int) -> spec_fn(Scored) -> bool {
    |e: Scored| v <= e.1 && e.1 <= top_score()
}

proof fn lemma_filter_split(
    s: Seq<Scored>,
    p: spec_fn(Scored) -> bool,
    a: spec_fn(Scored) -> bool,
    b: spec_fn(Scored) -> bool,
)
    requires
        forall|x: Scored| #[trigger] p(x) == (a(x) || b(x)),
        forall|x: Scored| !(#[trigger] a(x) && #[trigger] b(x)),
    ensures
        s.filter(p).len() == s.filter(a).len() + s.filter(b).len(),
    decreases s.len(),
{
    reveal(Seq::filter);
    if s.len() > 0 {
        lemma_filter_split(s.drop_last(), p, a, b);
    }
}

/// What holds of the entries ranked from score `v` upwards: their scores are
/// at least `v` and never rise along the sequence, each comes from
/// `entries`, each entry in range is there, and there are as many as in
/// `entries`.
proof fn lemma_ranked_down_to(entries: Seq<Scored>, v: int)
    requires
        1 <= v <= top_score() + 1,
    ensures
        forall|i: int|
            0 <= i < ranked_down_to(entries, v).len() ==> v <= (
            #[trigger] ranked_down_to(entries, v)[i]).1,
        forall|i: int, j: int|
            0 <= i < j < ranked_down_to(entries, v).len() ==> (
            #[trigger] ranked_down_to(entries, v)[i]).1 >= (
            #[trigger] ranked_down_to(entries, v)[j]).1,
        forall|i: int|
            0 <= i < ranked_down_to(entries, v).len() ==> entries.contains(
                #[trigger] ranked_down_to(entries, v)[i],
            ),
        forall|k: int|
            0 <= k < entries.len() && v <= entries[k].1 <= top_score() ==> ranked_down_to(
                entries,
                v,
            ).contains(#[trigger] entries[k]),
        ranked_down_to(entries, v).len() == entries.filter(scores_from(v)).len(),
    decreases top_score() + 1 - v,
{
    let r = ranked_down_to(entries, v);
    if v > top_score() {
        assert(r.len() == 0);
        let f = entries.filter(scores_from(v));
        if f.len() > 0 {
            assert(scores_from(v)(f[0]));
        }
    } else {
        lemma_ranked_down_to(entries, v + 1);
        let a = ranked_down_to(entries, v + 1);
        let p = has_score(v);
        let b = entries.filter(p);
        assert(r == a + b);
        assert forall|i: int| 0 <= i < r.len() implies v <= (#[trigger] r[i]).1 by {
            if i >= a.len() {
                assert(r[i] == b[i - a.len()]);
                assert(p(b[i - a.len()]));
            }
        }
        assert forall|i: int, j: int| 0 <= i < j < r.len() implies (#[trigger] r[i]).1 >= (
        #[trigger] r[j]).1 by {
            if i >= a.len() {
                assert(p(b[i - a.len()]));
                assert(p(b[j - a.len()]));
            } else if j >= a.len() {
                assert(p(b[j - a.len()]));
                assert(v + 1 <= a[i].1);
            }
        }
        assert forall|i: int| 0 <= i < r.len() implies entries.contains(#[trigger] r[i]) by {
            if i >= a.len() {
                assert(b.contains(b[i - a.len()]));
                entries.lemma_filter_contains_rev(p, b[i - a.len()]);
            } else {
                assert(entries.contains(a[i]));
            }
        }
        assert forall|k: int| 0 <= k < entries.len() && v <= entries[k].1 <= top_score() implies r.contains(
            #[trigger] entries[k],
        ) by {
            if entries[k].1 == v {
                assert(p(entries[k]));
                assert(b.contains(entries[k]));
                let j = choose|j: int| 0 <= j < b.len() && b[j] == entries[k];
                assert(r[a.len() + j] == entries[k]);
            } else {
                assert(a.contains(entries[k]));
                let j = choose|j: int| 0 <= j < a.len() && a[j] == entries[k];
                assert(r[j] == entries[k]);
            }
        }
        lemma_filter_split(entries, scores_from(v), scores_from(v + 1), p);
    }
}

/// An entry of the scored snapshot carries a record of the snapshot and that
/// record's match score.
proof fn lemma_scored_entry(q: QueryView, recs: Seq<SongView>, e: Scored)
    requires
        scored(q, recs).contains(e),
    ensures
        e.1 == match_score(q, e.0),
        exists|k: int| 0 <= k < recs.len() && #[trigger] recs[k] == e.0,
{
    let k = choose|k: int| 0 <= k < scored(q, recs).len() && scored(q, recs)[k] == e;
    assert(recs[k] == e.0);
}

/// Ranking given scores: scores never rise along the result, every entry of
/// it comes from the input with a positive score, and it never exceeds
/// `limit` items.
pub proof fn lemma_ranked_items_order(entries: Seq<Scored>, limit: nat)
    ensures
        ranked_items(entries, limit).len() <= limit,
        ranked_items(entries, limit) == capped(ranked_entries(entries), limit).map_values(
            |e: Scored| project(e.0),
        ),
        forall|i: int, j: int|
            0 <= i < j < capped(ranked_entries(entries), limit).len() ==> (
            #[trigger] capped(ranked_entries(entries), limit)[i]).1 >= (
            #[trigger] capped(ranked_entries(entries), limit)[j]).1,
        forall|i: int|
            0 <= i < capped(ranked_entries(entries), limit).len() ==> 0 < (
            #[trigger] capped(ranked_entries(entries), limit)[i]).1 && entries.contains(
                capped(ranked_entries(entries), limit)[i],
            ),
{
    lemma_ranked_down_to(entries, 1);
    let r = ranked_entries(entries);
    let c = capped(r, limit);
    assert forall|i: int| 0 <= i < c.len() implies #[trigger] c[i] == r[i] by {}
    assert forall|i: int, j: int| 0 <= i < j < c.len() implies (#[trigger] c[i]).1 >= (
    #[trigger] c[j]).1 by {
        assert(c[i] == r[i] && c[j] == r[j]);
    }
}

/// With both hints empty, no record scores and nothing is recommended,
/// whatever the snapshot holds.
pub proof fn lemma_empty_hints_recommend_nothing(q: QueryView, recs: Seq<SongView>)
    requires
        q.artist.len() == 0,
        q.genre.len() == 0,
    ensures
        ranked(q, recs).len() == 0,
        recommendation(q, recs).len() == 0,
{
    lemma_ranked_down_to(scored(q, recs), 1);
    let r = ranked(q, recs);
    if r.len() > 0 {
        assert(scored(q, recs).contains(r[0]));
        lemma_scored_entry(q, recs, r[0]);
    }
}

/// Ranking never returns more records than the snapshot holds.
pub proof fn lemma_ranked_len(q: QueryView, recs: Seq<SongView>)
    ensures
        ranked(q, recs).len() <= recs.len(),
{
    lemma_ranked_down_to(scored(q, recs), 1);
}

/// A record whose artist contains the artist hint, ignoring case, under an
/// empty genre hint, scores exactly the artist bonus, is ranked, and is
/// recommended when the cap admits the whole snapshot; records that match
/// nothing are never ranked.
pub proof fn lemma_artist_hint_scores_ten(q: QueryView, recs: Seq<SongView>, k: int)
    requires
        0 <= k < recs.len(),
        q.artist.len() > 0,
        q.genre.len() == 0,
        is_substring(lower_of(q.artist), lower_of(recs[k].artist)),
    ensures
        match_score(q, recs[k]) == 10,
        ranked(q, recs).contains((recs[k], 10int)),
        forall|i: int|
            0 <= i < ranked(q, recs).len() ==> match_score(q, (#[trigger] ranked(q, recs)[i]).0)
                > 0,
        recs.len() <= q.limit ==> recommendation(q, recs).contains(project(recs[k])),
{
    let s = scored(q, recs);
    lemma_ranked_down_to(s, 1);
    let r = ranked(q, recs);
    assert(s[k] == (recs[k], 10int));
    assert(r.contains(s[k]));
    assert forall|i: int| 0 <= i < r.len() implies match_score(q, (#[trigger] r[i]).0) > 0 by {
        assert(s.contains(r[i]));
        lemma_scored_entry(q, recs, r[i]);
    }
    if recs.len() <= q.limit {
        let j = choose|j: int| 0 <= j < r.len() && r[j] == s[k];
        assert(capped(r, q.limit) == r);
        assert(recommendation(q, recs)[j] == project(recs[k]));
    }
}

/// Along the recommendation the match scores of the underlying records
/// never rise.
pub proof fn lemma_recommendation_descending(q: QueryView, recs: Seq<SongView>)
    ensures
        recommendation(q, recs) == capped(ranked(q, recs), q.limit).map_values(
            |e: Scored| project(e.0),
        ),
        forall|i: int, j: int|
            0 <= i < j < capped(ranked(q, recs), q.limit).len() ==> match_score(
                q,
                (#[trigger] capped(ranked(q, recs), q.limit)[i]).0,
            ) >= match_score(q, (#[trigger] capped(ranked(q, recs), q.limit)[j]).0),
{
    let s = scored(q, recs);
    lemma_ranked_items_order(s, q.limit);
    let c = capped(ranked(q, recs), q.limit);
    assert forall|i: int, j: int| 0 <= i < j < c.len() implies match_score(q, (#[trigger] c[i]).0)
        >= match_score(q, (#[trigger] c[j]).0) by {
        lemma_scored_entry(q, recs, c[i]);
        lemma_scored_entry(q, recs, c[j]);
    }
}

/// A recommendation never exceeds the query's cap; a cap of zero gives none.
pub proof fn lemma_recommendation_within_limit(q: QueryView, recs: Seq<SongView>)
    ensures
        recommendation(q, recs).len() <= q.limit,
        q.limit == 0 ==> recommendation(q, recs).len() == 0,
{
}

/// Two recommendations for one query over one snapshot are the same.
pub proof fn lemma_recommend_repeatable(
    q: QueryView,
    recs: Seq<SongView>,
    first: Seq<ResultItem>,
    second: Seq<ResultItem>,
)
    requires
        items_view(first) == recommendation(q, recs),
        items_view(second) == recommendation(q, recs),
    ensures
        items_view(first) == items_view(second),
{
}

/// Every recommended item is the projection of a record of the one snapshot
/// that was queried.
pub proof fn lemma_results_come_from_snapshot(q: QueryView, recs: Seq<SongView>)
    ensures
        forall|i: int|
            0 <= i < recommendation(q, recs).len() ==> exists|k: int|
                0 <= k < recs.len() && #[trigger] recommendation(q, recs)[i] == project(
                    #[trigger] recs[k],
                ),
{
    let s = scored(q, recs);
    lemma_ranked_items_order(s, q.limit);
    let c = capped(ranked(q, recs), q.limit);
    assert forall|i: int| 0 <= i < recommendation(q, recs).len() implies exists|k: int|
        0 <= k < recs.len() && #[trigger] recommendation(q, recs)[i] == project(
            #[trigger] recs[k],
        ) by {
        lemma_scored_entry(q, recs, c[i]);
        let k = choose|k: int| 0 <= k < recs.len() && recs[k] == c[i].0;
        assert(recommendation(q, recs)[i] == project(recs[k]));
    }
}

} // verus!
