use vstd::prelude::*;

verus! {

/// The record of one managed file: the tags that decide where it lives, its
/// current path, and the drop folder it arrived through.
#[derive(Debug, Clone, PartialEq, Eq)]
pub struct Item {
    pub title: String,
    pub album: String,
    pub artist: String,
    pub album_artists: Vec<String>,
    pub disc_number: i32,
    pub track_number: i32,
    pub file_path: String,
    pub source: String,
}

/// The texts of a list of strings.
pub open spec fn texts(v: Seq<String>) -> Seq<Seq<char>> {
    v.map_values(|s: String| s@)
}

impl Item {
    /// The album-artist names of the item, as texts.
    pub open spec fn album_artists_view(&self) -> Seq<Seq<char>> {
        texts(self.album_artists@)
    }
}

} // verus!
