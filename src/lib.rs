//! In-memory song catalog with a scoring-and-ranking recommendation engine.
//!
//! A catalog snapshot is a sequence of song records. A query carries an
//! artist hint, a genre hint and a result cap. Each record gets an additive
//! score from case-insensitive substring matches of the hints against its
//! fields; records that score zero are dropped, the rest are ranked by
//! descending score (ties keep catalog order) and truncated to the cap.

pub mod text;
pub mod record;
pub mod ranking;
pub mod store;
pub mod laws;

pub use ranking::{bonus_if_found, rank_scored, recommend, score, ARTIST_BONUS, GENRE_BONUS, MAX_SCORE, SUBGENRE_BONUS};
pub use record::{Query, ResultItem, SongRecord, DEFAULT_LIMIT};
pub use store::{CatalogStore, SAMPLE_SIZE};
