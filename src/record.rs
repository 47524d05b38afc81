use vstd::prelude::*;

verus! {

/// Result cap used when a query leaves it out.
pub const DEFAULT_LIMIT: usize = 20;

/// One song of the catalog, as loaded. Audio attributes that the ranking
/// never reads are not kept here.
pub struct SongRecord {
    pub id: String,
    pub title: String,
    pub artist: String,
    pub genre: String,
    pub subgenre: String,
    pub popularity: Option<u32>,
}

/// Mathematical model of a song record.
pub struct SongView {
    pub id: Seq<char>,
    pub title: Seq<char>,
    pub artist: Seq<char>,
    pub genre: Seq<char>,
    pub subgenre: Seq<char>,
    pub popularity: Option<u32>,
}

impl View for SongRecord {
    type V = SongView;

    open spec fn view(&self) -> SongView {
        SongView {
            id: self.id@,
            title: self.title@,
            artist: self.artist@,
            genre: self.genre@,
            subgenre: self.subgenre@,
            popularity: self.popularity,
        }
    }
}

/// The models of a sequence of records, in order.
pub open spec fn songs_view(s: Seq<SongRecord>) -> Seq<SongView> {
    s.map_values(|r: SongRecord| r@)
}

impl SongRecord {
    pub fn new(
        id: String,
        title: String,
        artist: String,
        genre: String,
        subgenre: String,
        popularity: Option<u32>,
    ) -> (r: SongRecord)
        ensures
            r@ == (SongView {
                id: id@,
                title: title@,
                artist: artist@,
                genre: genre@,
                subgenre: subgenre@,
                popularity,
            }),
    {
        SongRecord { id, title, artist, genre, subgenre, popularity }
    }

    /// A field-by-field copy.
    pub fn duplicate(&self) -> (r: SongRecord)
        ensures
            r@ == self@,
    {
        SongRecord {
            id: self.id.clone(),
            title: self.title.clone(),
            artist: self.artist.clone(),
            genre: self.genre.clone(),
            subgenre: self.subgenre.clone(),
            popularity: self.popularity,
        }
    }
}

/// What a caller receives for a ranked record. It carries no score: the rank
/// shows only in the order of the items.
pub struct ResultItem {
    pub id: String,
    pub title: String,
    pub artist: String,
    pub primary_genre: String,
    pub year: Option<i32>,
}

/// Mathematical model of a result item.
pub struct ItemView {
    pub id: Seq<char>,
    pub title: Seq<char>,
    pub artist: Seq<char>,
    pub primary_genre: Seq<char>,
    pub year: Option<i32>,
}

impl View for ResultItem {
    type V = ItemView;

    open spec fn view(&self) -> ItemView {
        ItemView {
            id: self.id@,
            title: self.title@,
            artist: self.artist@,
            primary_genre: self.primary_genre@,
            year: self.year,
        }
    }
}

/// The models of a sequence of result items, in order.
pub open spec fn items_view(s: Seq<ResultItem>) -> Seq<ItemView> {
    s.map_values(|r: ResultItem| r@)
}

/// The item exposed for a record. The catalog holds no release year, so the
/// year is always unknown.
pub open spec fn project(r: SongView) -> ItemView {
    ItemView {
        id: r.id,
        title: r.title,
        artist: r.artist,
        primary_genre: r.genre,
        year: None,
    }
}

impl ResultItem {
    /// Builds the item that a record is exposed as.
    pub fn from_record(r: &SongRecord) -> (item: ResultItem)
        ensures
            item@ == project(r@),
    {
        ResultItem {
            id: r.id.clone(),
            title: r.title.clone(),
            artist: r.artist.clone(),
            primary_genre: r.genre.clone(),
            year: None,
        }
    }
}

/// A recommendation request: an artist hint, a genre hint and a cap on the
/// number of results. An empty hint puts no constraint.
pub struct Query {
    pub artist: String,
    pub genre: String,
    pub limit: usize,
}

/// Mathematical model of a query.
pub struct QueryView {
    pub artist: Seq<char>,
    pub genre: Seq<char>,
    pub limit: nat,
}

impl View for Query {
    type V = QueryView;

    open spec fn view(&self) -> QueryView {
        QueryView { artist: self.artist@, genre: self.genre@, limit: self.limit as nat }
    }
}

impl Query {
    /// Builds a query from optional parts: a missing hint is empty, and a
    /// missing cap is the default one.
    pub fn new(artist: Option<String>, genre: Option<String>, limit: Option<usize>) -> (q: Query)
        ensures
            q.artist@ == (match artist {
                Some(a) => a@,
                None => Seq::<char>::empty(),
            }),
            q.genre@ == (match genre {
                Some(g) => g@,
                None => Seq::<char>::empty(),
            }),
            q.limit == (match limit {
                Some(l) => l,
                None => DEFAULT_LIMIT,
            }),
    {
        let artist = match artist {
            Some(a) => a,
            None => String::new(),
        };
        let genre = match genre {
            Some(g) => g,
            None => String::new(),
        };
        let limit = match limit {
            Some(l) => l,
            None => DEFAULT_LIMIT,
        };
        Query { artist, genre, limit }
    }

    /// A query whose artist and genre hints are both the same text.
    pub fn from_text(text: &str, limit: usize) -> (q: Query)
        ensures
            q@ == (QueryView { artist: text@, genre: text@, limit: limit as nat }),
    {
        Query { artist: text.to_owned(), genre: text.to_owned(), limit }
    }
}

} // verus!
