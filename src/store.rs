use vstd::prelude::*;

use crate::ranking::{capped, recommend, recommendation};
use crate::record::{items_view, songs_view, Query, ResultItem, SongRecord, SongView};

verus! {

/// Number of records that `sample` hands out when asked for a preview.
pub const SAMPLE_SIZE: usize = 5;

/// Holds the current catalog snapshot. A load replaces the whole snapshot;
/// queries only read it.
pub struct CatalogStore {
    songs: Vec<SongRecord>,
}

impl View for CatalogStore {
    type V = Seq<SongView>;

    closed spec fn view(&self) -> Seq<SongView> {
        songs_view(self.songs@)
    }
}

impl CatalogStore {
    /// A store whose snapshot is empty.
    pub fn new() -> (r: CatalogStore)
        ensures
            r@ == Seq::<SongView>::empty(),
    {
        let r = CatalogStore { songs: Vec::new() };
        assert(r@ =~= Seq::<SongView>::empty());
        r
    }

    /// A store whose snapshot is `records`, in that order.
    pub fn from_records(records: Vec<SongRecord>) -> (r: CatalogStore)
        ensures
            r@ == songs_view(records@),
    {
        CatalogStore { songs: records }
    }

    /// Replaces the whole snapshot with `records`. Nothing of the previous
    /// snapshot remains, and no check is made on the records.
    pub fn load(&mut self, records: Vec<SongRecord>)
        ensures
            final(self)@ == songs_view(records@),
    {
        self.songs = records;
    }

    /// Read access to the current snapshot.
    pub fn snapshot(&self) -> (r: &[SongRecord])
        ensures
            songs_view(r@) == self@,
    {
        self.songs.as_slice()
    }

    /// Number of records in the snapshot.
    pub fn len(&self) -> (r: usize)
        ensures
            r == self@.len(),
    {
        self.songs.len()
    }

    /// Whether the snapshot holds no record at all.
    pub fn is_empty(&self) -> (r: bool)
        ensures
            r == (self@.len() == 0),
    {
        self.songs.len() == 0
    }

    /// Copies of the first `n` records, or of all of them when there are
    /// fewer.
    pub fn sample(&self, n: usize) -> (r: Vec<SongRecord>)
        ensures
            songs_view(r@) == capped(self@, n as nat),
    {
        let ghost all = self@;
        let mut out: Vec<SongRecord> = Vec::new();
        let mut i: usize = 0;
        while i < n && i < self.songs.len()
            invariant
                all == songs_view(self.songs@),
                i <= self.songs@.len(),
                i <= n,
                songs_view(out@) == all.take(i as int),
            decreases self.songs@.len() - i,
        {
            let rec = self.songs[i].duplicate();
            let ghost before = out@;
            out.push(rec);
            assert(all[i as int] == self.songs@[i as int]@);
            assert(songs_view(out@) =~= songs_view(before).push(rec@));
            assert(songs_view(out@) =~= all.take(i + 1));
            i = i + 1;
        }
        assert(all.len() <= n ==> all.take(all.len() as int) =~= all);
        out
    }

    /// The recommendation for `query` over the current snapshot.
    pub fn recommend(&self, query: &Query) -> (r: Vec<ResultItem>)
        ensures
            items_view(r@) == recommendation(query@, self@),
    {
        recommend(self.songs.as_slice(), query)
    }
}

} // verus!
