//! The catalog entry that the library hands to the playlist.
use vstd::prelude::*;

verus! {

/// One indexed audio file with its metadata. `id` is the catalog's stable
/// identity for `path`.
#[derive(Clone, Debug)]
pub struct Track {
    pub id: i64,
    pub path: String,
    pub title: String,
    pub artist: String,
    pub album: String,
    pub duration: u32,
    pub track_number: Option<u32>,
    pub year: Option<u32>,
    pub genre: Option<String>,
}

} // verus!
