use vstd::prelude::*;

use crate::record::{
    items_view, project, songs_view, ItemView, Query, QueryView, ResultItem, SongRecord,
    SongView,
};
use crate::text::{contains, is_substring, lower_of, lowercase};

verus! {

/// Points for an artist hint found in the record's artist.
pub const ARTIST_BONUS: u8 = 10;

/// Points for a genre hint found in the record's primary genre.
pub const GENRE_BONUS: u8 = 8;

/// Points for a genre hint found in the record's subgenre.
pub const SUBGENRE_BONUS: u8 = 5;

/// The highest score a record can get: every bonus at once.
pub const MAX_SCORE: u8 = 23;

/// `bonus` when `hint` is non-empty and occurs in `field`, both taken in
/// lower case; otherwise nothing.
pub open spec fn hint_bonus(hint: Seq<char>, field: Seq<char>, bonus: int) -> int {
    if hint.len() > 0 && is_substring(lower_of(hint), lower_of(field)) {
        bonus
    } else {
        0
    }
}

/// How well a record matches a query: the sum of the three bonuses.
pub open spec fn match_score(q: QueryView, r: SongView) -> int {
    hint_bonus(q.artist, r.artist, ARTIST_BONUS as int) + hint_bonus(
        q.genre,
        r.genre,
        GENRE_BONUS as int,
    ) + hint_bonus(q.genre, r.subgenre, SUBGENRE_BONUS as int)
}

/// A record paired with its score.
pub type Scored = (SongView, int);

/// Each record of `recs` paired with the score at the same position of
/// `scores`, as far as both reach.
pub open spec fn pair_scores(recs: Seq<SongView>, scores: Seq<int>) -> Seq<Scored> {
    let n = if recs.len() <= scores.len() {
        recs.len()
    } else {
        scores.len()
    };
    Seq::new(n, |i: int| (recs[i], scores[i]))
}

/// Each record of `recs` paired with its match score for `q`.
pub open spec fn scored(q: QueryView, recs: Seq<SongView>) -> Seq<Scored> {
    recs.map_values(|r: SongView| (r, match_score(q, r)))
}

/// The test "this entry's score is exactly `v`".
pub open spec fn has_score(v: int) -> spec_fn(Scored) -> bool {
    |e: Scored| e.1 == v
}

/// Highest score that a ranking pass looks at: the largest `u8`.
pub open spec fn top_score() -> int {
    255
}

/// The entries whose score lies in `v ..= top_score()`, highest score first;
/// entries of equal score keep their order.
pub open spec fn ranked_down_to(entries: Seq<Scored>, v: int) -> Seq<Scored>
    decreases top_score() + 1 - v,
{
    if v > top_score() {
        Seq::empty()
    } else {
        ranked_down_to(entries, v + 1) + entries.filter(has_score(v))
    }
}

/// Every entry of positive score, ranked by descending score, ties in the
/// order of `entries`.
pub open spec fn ranked_entries(entries: Seq<Scored>) -> Seq<Scored> {
    ranked_down_to(entries, 1)
}

/// The first `limit` elements of `s`, or all of `s` when it is shorter.
pub open spec fn capped<A>(s: Seq<A>, limit: nat) -> Seq<A> {
    if s.len() <= limit {
        s
    } else {
        s.take(limit as int)
    }
}

/// The ranked entries, cut to `limit`, each exposed as a result item.
pub open spec fn ranked_items(entries: Seq<Scored>, limit: nat) -> Seq<ItemView> {
    capped(ranked_entries(entries), limit).map_values(|e: Scored| project(e.0))
}

/// Every record that matches `q` at all, with its score, ranked by
/// descending score, ties in catalog order.
pub open spec fn ranked(q: QueryView, recs: Seq<SongView>) -> Seq<Scored> {
    ranked_entries(scored(q, recs))
}

/// What a query returns against a snapshot: the ranked records, cut to the
/// query's cap, each exposed as a result item.
pub open spec fn recommendation(q: QueryView, recs: Seq<SongView>) -> Seq<ItemView> {
    ranked_items(scored(q, recs), q.limit)
}

/// The scores of a slice of `u8`, as integers.
pub open spec fn score_values(scores: Seq<u8>) -> Seq<int> {
    scores.map_values(|s: u8| s as int)
}

proof fn lemma_capped_push<A>(s: Seq<A>, x: A, limit: nat)
    ensures
        capped(s.push(x), limit) == if capped(s, limit).len() < limit {
            capped(s, limit).push(x)
        } else {
            capped(s, limit)
        },
{
    if s.len() < limit {
        assert(capped(s.push(x), limit) =~= s.push(x));
    } else {
        assert(capped(s.push(x), limit) =~= s.take(limit as int));
        assert(capped(s, limit) =~= s.take(limit as int));
    }
}

proof fn lemma_filter_take_step(entries: Seq<Scored>, p: spec_fn(Scored) -> bool, j: int)
    requires
        0 <= j < entries.len(),
    ensures
        entries.take(j + 1).filter(p) == if p(entries[j]) {
            entries.take(j).filter(p).push(entries[j])
        } else {
            entries.take(j).filter(p)
        },
{
    reveal(Seq::filter);
    assert(entries.take(j + 1).drop_last() =~= entries.take(j));
}

/// `bonus` when `hint` is non-empty and `hint_lower` occurs in
/// `field_lower`; otherwise nothing. The two lower-case texts are given.
pub fn bonus_if_found(hint: &str, hint_lower: &str, field_lower: &str, bonus: u8) -> (r: u8)
    ensures
        r == if hint@.len() > 0 && is_substring(hint_lower@, field_lower@) {
            bonus
        } else {
            0
        },
{
    if hint.is_empty() {
        0
    } else if contains(field_lower, hint_lower) {
        bonus
    } else {
        0
    }
}

/// `bonus` when `hint` is non-empty and occurs in `field`, ignoring case.
fn field_bonus(hint: &str, hint_lower: &str, field: &str, bonus: u8) -> (r: u8)
    requires
        hint_lower@ == lower_of(hint@),
    ensures
        r as int == hint_bonus(hint@, field@, bonus as int),
{
    let field_lower = lowercase(field);
    bonus_if_found(hint, hint_lower, field_lower.as_str(), bonus)
}

/// The score of a record, with the query's hints already in lower case.
fn score_lowered(query: &Query, artist_lower: &str, genre_lower: &str, record: &SongRecord) -> (r:
    u8)
    requires
        artist_lower@ == lower_of(query.artist@),
        genre_lower@ == lower_of(query.genre@),
    ensures
        r as int == match_score(query@, record@),
        r <= MAX_SCORE,
{
    let a = field_bonus(query.artist.as_str(), artist_lower, record.artist.as_str(), ARTIST_BONUS);
    let g = field_bonus(query.genre.as_str(), genre_lower, record.genre.as_str(), GENRE_BONUS);
    let s = field_bonus(query.genre.as_str(), genre_lower, record.subgenre.as_str(), SUBGENRE_BONUS);
    a + g + s
}

/// The match score of one record against a query.
pub fn score(query: &Query, record: &SongRecord) -> (r: u8)
    ensures
        r as int == match_score(query@, record@),
        r <= MAX_SCORE,
{
    let artist_lower = lowercase(query.artist.as_str());
    let genre_lower = lowercase(query.genre.as_str());
    score_lowered(query, artist_lower.as_str(), genre_lower.as_str(), record)
}

/// Ranks `records` by the scores given for them, position by position:
/// records of score zero are dropped, the rest come highest score first,
/// ties in the order of `records`, at most `limit` of them. Positions beyond
/// the shorter of the two slices are ignored.
pub fn rank_scored(records: &[SongRecord], scores: &[u8], limit: usize) -> (r: Vec<ResultItem>)
    ensures
        items_view(r@) == ranked_items(
            pair_scores(songs_view(records@), score_values(scores@)),
            limit as nat,
        ),
{
    let ghost entries = pair_scores(songs_view(records@), score_values(scores@));
    let n: usize = if records.len() <= scores.len() {
        records.len()
    } else {
        scores.len()
    };
    assert(entries.len() == n);
    assert forall|k: int| 0 <= k < n implies #[trigger] entries[k] == (records@[k]@, scores@[k] as int) by {
        assert(songs_view(records@)[k] == records@[k]@);
    }
    let mut out: Vec<ResultItem> = Vec::new();
    let mut v: u16 = 255;
    while v > 0
        invariant
            n <= records@.len(),
            n <= scores@.len(),
            entries.len() == n,
            forall|k: int|
                0 <= k < n ==> #[trigger] entries[k] == (records@[k]@, scores@[k] as int),
            v <= 255,
            items_view(out@) == capped(ranked_down_to(entries, v + 1), limit as nat).map_values(
                |e: Scored| project(e.0),
            ),
        decreases v,
    {
        let ghost before = ranked_down_to(entries, v + 1);
        let ghost p = has_score(v as int);
        let mut j: usize = 0;
        assert(entries.take(0).filter(p) =~= Seq::<Scored>::empty()) by {
            reveal(Seq::filter);
        }
        assert(before + entries.take(0).filter(p) =~= before);
        while j < n
            invariant
                n <= records@.len(),
                n <= scores@.len(),
                entries.len() == n,
                forall|k: int|
                    0 <= k < n ==> #[trigger] entries[k] == (records@[k]@, scores@[k] as int),
                1 <= v <= 255,
                j <= n,
                p == has_score(v as int),
                items_view(out@) == capped(before + entries.take(j as int).filter(p), limit as nat).map_values(
                    |e: Scored| project(e.0),
                ),
            decreases n - j,
        {
            let ghost old_out = out@;
            let ghost acc = before + entries.take(j as int).filter(p);
            proof {
                lemma_filter_take_step(entries, p, j as int);
                lemma_capped_push(acc, entries[j as int], limit as nat);
                assert(items_view(out@).len() == capped(acc, limit as nat).len());
            }
            if scores[j] as u16 == v && out.len() < limit {
                let item = ResultItem::from_record(&records[j]);
                out.push(item);
                proof {
                    assert(items_view(out@) =~= items_view(old_out).push(project(entries[j as int].0)));
                    assert(before + entries.take(j + 1).filter(p) =~= acc.push(entries[j as int]));
                    assert(items_view(out@) =~= capped(acc.push(entries[j as int]), limit as nat).map_values(
                        |e: Scored| project(e.0),
                    ));
                }
            } else {
                proof {
                    if scores@[j as int] == v {
                        assert(before + entries.take(j + 1).filter(p) =~= acc.push(entries[j as int]));
                    } else {
                        assert(before + entries.take(j + 1).filter(p) =~= acc);
                    }
                }
            }
            j = j + 1;
        }
        assert(entries.take(n as int) =~= entries);
        v = v - 1;
    }
    out
}

/// Scores, filters, ranks and truncates `records` for `query`. Records that
/// match nothing are dropped; the rest come highest score first, ties in the
/// order of `records`, at most `query.limit` of them.
pub fn recommend(records: &[SongRecord], query: &Query) -> (r: Vec<ResultItem>)
    ensures
        items_view(r@) == recommendation(query@, songs_view(records@)),
{
    let ghost recs = songs_view(records@);
    let ghost q = query@;
    let artist_lower = lowercase(query.artist.as_str());
    let genre_lower = lowercase(query.genre.as_str());
    let n = records.len();

    let mut scores: Vec<u8> = Vec::new();
    let mut i: usize = 0;
    while i < n
        invariant
            n == records@.len(),
            q == query@,
            recs == songs_view(records@),
            artist_lower@ == lower_of(query.artist@),
            genre_lower@ == lower_of(query.genre@),
            i <= n,
            scores@.len() == i,
            forall|k: int| 0 <= k < i ==> #[trigger] scores@[k] as int == match_score(q, recs[k]),
        decreases n - i,
    {
        let s = score_lowered(query, artist_lower.as_str(), genre_lower.as_str(), &records[i]);
        assert(recs[i as int] == records@[i as int]@);
        scores.push(s);
        i = i + 1;
    }
    assert(pair_scores(recs, score_values(scores@)) =~= scored(q, recs));
    rank_scored(records, scores.as_slice(), query.limit)
}

} // verus!
