//! A persistent store of users, events and what guests do at them: song
//! requests, tips, ratings, playlists, and a leaderboard of DJs.
//!
//! [`store::Store`] holds one counter of identifiers and seven collections of
//! rows in stable memory. Its contracts speak of [`state::StoreData`], the
//! collections as maps from keys to rows; [`laws`] states what follows for
//! every store. Rows are kept as bytes: [`codec`] and [`record`] say how, and
//! [`stable`] holds the calls into the memory that are taken on trust.

pub mod codec;
pub mod error;
pub mod laws;
pub mod leaderboard;
pub mod listing;
pub mod model;
pub mod record;
pub mod request;
pub mod stable;
pub mod state;
pub mod store;
pub mod table;
pub mod text;
