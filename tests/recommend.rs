use spotify_api::{
    bonus_if_found, rank_scored, recommend, score, CatalogStore, Query, ResultItem, SongRecord, DEFAULT_LIMIT, MAX_SCORE,
    SAMPLE_SIZE,
};

fn song(id: &str, artist: &str, genre: &str, subgenre: &str) -> SongRecord {
    SongRecord::new(
        id.to_string(),
        format!("Track {}", id),
        artist.to_string(),
        genre.to_string(),
        subgenre.to_string(),
        None,
    )
}

fn daft_catalog() -> Vec<SongRecord> {
    vec![
        song("1", "Daft Punk", "edm", "house"),
        song("2", "Daft Punk", "pop", "pop"),
    ]
}

fn query(artist: &str, genre: &str, limit: usize) -> Query {
    Query::new(Some(artist.to_string()), Some(genre.to_string()), Some(limit))
}

fn ids(items: &[ResultItem]) -> Vec<String> {
    items.iter().map(|t| t.id.clone()).collect()
}

#[test]
fn daft_matches_artist_only_and_keeps_catalog_order() {
    let catalog = daft_catalog();
    let q = query("daft", "daft", 10);
    assert_eq!(score(&q, &catalog[0]), 10);
    assert_eq!(score(&q, &catalog[1]), 10);
    let out = recommend(&catalog, &q);
    assert_eq!(ids(&out), vec!["1".to_string(), "2".to_string()]);
}

#[test]
fn house_genre_hint_matches_subgenre_only() {
    let catalog = daft_catalog();
    let q = query("", "house", 10);
    assert_eq!(score(&q, &catalog[0]), 5);
    assert_eq!(score(&q, &catalog[1]), 0);
    let out = recommend(&catalog, &q);
    assert_eq!(ids(&out), vec!["1".to_string()]);
}

#[test]
fn empty_hints_recommend_nothing() {
    let catalog = daft_catalog();
    let out = recommend(&catalog, &query("", "", 10));
    assert!(out.is_empty());
    let missing = Query::new(None, None, None);
    assert!(recommend(&catalog, &missing).is_empty());
}

#[test]
fn artist_hint_ranks_match_and_drops_others() {
    let catalog = vec![
        song("a", "Queen", "rock", "classic rock"),
        song("b", "The Weeknd", "r&b", "urban contemporary"),
        song("c", "Queens of the Stone Age", "rock", "hard rock"),
    ];
    let q = query("QUEEN", "", 10);
    assert_eq!(score(&q, &catalog[0]), 10);
    assert_eq!(score(&q, &catalog[1]), 0);
    let out = recommend(&catalog, &q);
    assert_eq!(ids(&out), vec!["a".to_string(), "c".to_string()]);
}

#[test]
fn results_descend_by_score() {
    let catalog = vec![
        song("sub", "Nobody", "latin", "tropical rock"),
        song("artist", "Rockets", "pop", "dance pop"),
        song("genre", "Someone", "rock", "album rock"),
        song("all", "Rock Band", "rock", "hard rock"),
        song("none", "Other", "pop", "electropop"),
        song("genre_only", "Else", "rocky", "indie"),
    ];
    let q = query("rock", "rock", 10);
    let scores: Vec<u8> = catalog.iter().map(|r| score(&q, r)).collect();
    assert_eq!(scores, vec![5, 10, 13, 23, 0, 8]);
    let out = recommend(&catalog, &q);
    assert_eq!(
        ids(&out),
        vec!["all", "genre", "artist", "genre_only", "sub"]
            .into_iter()
            .map(String::from)
            .collect::<Vec<_>>()
    );
}

#[test]
fn full_match_scores_the_maximum() {
    let r = song("x", "Edm Lovers", "EDM", "progressive electro house edm");
    let q = query("edm", "edm", 1);
    assert_eq!(score(&q, &r), MAX_SCORE);
    assert_eq!(MAX_SCORE, 23);
}

#[test]
fn limit_truncates_results() {
    let catalog = vec![
        song("1", "A", "pop", "pop"),
        song("2", "B", "pop", "pop"),
        song("3", "C", "pop", "pop"),
    ];
    let out = recommend(&catalog, &query("", "pop", 2));
    assert_eq!(ids(&out), vec!["1".to_string(), "2".to_string()]);
    let none = recommend(&catalog, &query("", "pop", 0));
    assert!(none.is_empty());
    let all = recommend(&catalog, &query("", "pop", 100));
    assert_eq!(all.len(), 3);
}

#[test]
fn default_limit_is_twenty() {
    let q = Query::new(None, Some("pop".to_string()), None);
    assert_eq!(q.limit, 20);
    assert_eq!(DEFAULT_LIMIT, 20);
    assert_eq!(q.artist, "");
    let catalog: Vec<SongRecord> = (0..30).map(|i| song(&i.to_string(), "X", "pop", "y")).collect();
    let out = recommend(&catalog, &q);
    assert_eq!(out.len(), 20);
    assert_eq!(out[0].id, "0");
    assert_eq!(out[19].id, "19");
}

#[test]
fn repeated_queries_agree() {
    let store = CatalogStore::from_records(daft_catalog());
    let q = Query::from_text("daft", 10);
    let first = store.recommend(&q);
    let second = store.recommend(&q);
    assert_eq!(ids(&first), ids(&second));
    assert_eq!(first.len(), 2);
}

#[test]
fn results_belong_to_one_snapshot() {
    let mut store = CatalogStore::new();
    let q = Query::from_text("pop", 10);
    assert!(store.recommend(&q).is_empty());
    store.load(vec![song("a1", "Pop Star", "pop", "dance pop"), song("a2", "Other", "pop", "pop")]);
    let first = store.recommend(&q);
    assert_eq!(ids(&first), vec!["a1".to_string(), "a2".to_string()]);
    store.load(vec![song("b1", "Indie", "pop", "indie poptimism")]);
    let second = store.recommend(&q);
    assert_eq!(ids(&second), vec!["b1".to_string()]);
}

#[test]
fn items_project_record_fields() {
    let catalog = daft_catalog();
    let out = recommend(&catalog, &query("punk", "", 1));
    assert_eq!(out.len(), 1);
    assert_eq!(out[0].id, "1");
    assert_eq!(out[0].title, "Track 1");
    assert_eq!(out[0].artist, "Daft Punk");
    assert_eq!(out[0].primary_genre, "edm");
    assert_eq!(out[0].year, None);
}

#[test]
fn hint_must_be_contiguous() {
    let r = song("1", "Daft Punk", "edm", "house");
    assert_eq!(score(&query("dpunk", "", 5), &r), 0);
    assert_eq!(score(&query("t p", "", 5), &r), 10);
    assert_eq!(score(&query("", "HOUSE", 5), &r), 5);
    assert_eq!(score(&query("", "E", 5), &r), 13);
}

#[test]
fn store_lifecycle_and_sample() {
    let store = CatalogStore::new();
    assert!(store.is_empty());
    assert_eq!(store.len(), 0);
    assert!(store.sample(SAMPLE_SIZE).is_empty());
    let catalog: Vec<SongRecord> = (0..7).map(|i| song(&i.to_string(), "X", "pop", "y")).collect();
    let store = CatalogStore::from_records(catalog);
    assert_eq!(store.len(), 7);
    assert!(!store.is_empty());
    let sample = store.sample(SAMPLE_SIZE);
    assert_eq!(sample.len(), 5);
    assert_eq!(sample[4].id, "4");
    assert_eq!(store.sample(10).len(), 7);
    assert_eq!(store.snapshot().len(), 7);
    assert_eq!(store.snapshot()[6].id, "6");
    let copy = store.snapshot()[2].duplicate();
    assert_eq!(copy.id, "2");
    assert_eq!(copy.subgenre, "y");
}

#[test]
fn rank_scored_orders_by_given_scores() {
    let catalog = vec![
        song("1", "A", "x", "x"),
        song("2", "B", "x", "x"),
        song("3", "C", "x", "x"),
        song("4", "D", "x", "x"),
    ];
    let out = rank_scored(&catalog, &[5, 0, 200, 5], 10);
    assert_eq!(ids(&out), vec!["3".to_string(), "1".to_string(), "4".to_string()]);
    let capped = rank_scored(&catalog, &[5, 0, 200, 5], 2);
    assert_eq!(ids(&capped), vec!["3".to_string(), "1".to_string()]);
    let short = rank_scored(&catalog, &[1, 2], 10);
    assert_eq!(ids(&short), vec!["2".to_string(), "1".to_string()]);
    let max = rank_scored(&catalog, &[255, 0, 0, 254], 10);
    assert_eq!(ids(&max), vec!["1".to_string(), "4".to_string()]);
}

#[test]
fn bonus_if_found_on_folded_text() {
    assert_eq!(bonus_if_found("Rock", "rock", "hard rock", 5), 5);
    assert_eq!(bonus_if_found("Rock", "rock", "Hard Rock", 5), 0);
    assert_eq!(bonus_if_found("", "", "hard rock", 5), 0);
    assert_eq!(bonus_if_found("pop", "pop", "rock", 8), 0);
}

#[test]
fn case_is_ignored_on_both_sides() {
    let r = song("1", "ABBA", "POP", "Dance Pop");
    assert_eq!(score(&query("abba", "", 1), &r), 10);
    assert_eq!(score(&query("AbBa", "pOp", 1), &r), 23);
}
