use vstd::prelude::*;
use vstd::string::*;
use crate::error::Error;
use crate::item::{Item, texts};
use crate::naming::{
    get_iterative_filename, get_track_directory, get_track_filename, is_first_free,
    track_directory, track_file_name,
};
use crate::paths::{get_source, get_track_extension, kept_extension, source_of};
use crate::text::push_text;

verus! {

pub open spec fn album_artists_tag() -> Seq<char> {
    seq!['a', 'l', 'b', 'u', 'm', ' ', 'a', 'r', 't', 'i', 's', 't', 's']
}

/// Where one file goes: the library directory to create, and the name and
/// extension from which the collision-free destination is chosen.
#[derive(Debug, Clone, PartialEq, Eq)]
pub struct MovePlan {
    pub from: String,
    pub directory: String,
    pub file_name: String,
    pub extension: String,
    pub source: String,
}

/// The plan for filing `track` under `library` with source label `source`.
pub open spec fn plan_of(p: MovePlan, track: Item, library: Seq<char>, source: Seq<char>) -> bool {
    &&& p.from@ == track.file_path@
    &&& p.directory@ == track_directory(track, library)
    &&& p.file_name@ == track_file_name(track)
    &&& p.extension@ == kept_extension(track.file_path@)
    &&& p.source@ == source
}

/// The error for an item without album artists.
pub open spec fn is_missing_artists(e: Error, track: Item) -> bool {
    match e {
        Error::MissingRequiredTag(path, tag) => path@ == track.file_path@ && tag@
            == album_artists_tag(),
        _ => false,
    }
}

fn missing_artists_error(track: &Item) -> (r: Error)
    ensures
        is_missing_artists(r, *track),
{
    let mut tag = String::new();
    push_text(&mut tag, "album artists");
    proof {
        reveal_strlit("album artists");
    }
    assert(tag@ =~= album_artists_tag());
    Error::MissingRequiredTag(track.file_path.clone(), tag)
}

/// A freshly read record as it stands, or the error for the tag that filing
/// needs and it lacks: at least one album artist.
pub fn require_tags(item: Item) -> (r: Result<Item, Error>)
    ensures
        match r {
            Ok(i) => i == item && item.album_artists@.len() > 0,
            Err(e) => item.album_artists@.len() == 0 && is_missing_artists(e, item),
        },
{
    if item.album_artists.len() == 0 {
        Err(missing_artists_error(&item))
    } else {
        Ok(item)
    }
}

/// Plans the move of `track` into the library at `library_path`, recording
/// `source` as its source label. An item without album artists has no place
/// in the library and is refused.
pub fn move_track(track: &Item, library_path: &str, source: &str) -> (r: Result<MovePlan, Error>)
    ensures
        match r {
            Ok(p) => track.album_artists@.len() > 0 && plan_of(p, *track, library_path@, source@),
            Err(e) => track.album_artists@.len() == 0 && is_missing_artists(e, *track),
        },
{
    let directory = match get_track_directory(track, library_path) {
        Some(d) => d,
        None => {
            return Err(missing_artists_error(track));
        },
    };
    let mut src = String::new();
    push_text(&mut src, source);
    Ok(
        MovePlan {
            from: track.file_path.clone(),
            directory,
            file_name: get_track_filename(track),
            extension: get_track_extension(track.file_path.as_str()),
            source: src,
        },
    )
}

/// Plans the move of a newly found `track` into the library at
/// `library_path`; its source label is the drop folder below the inbox
/// `auto_add_path` through which it arrived.
pub fn move_new_track(track: &Item, library_path: &str, auto_add_path: &str) -> (r: Result<
    MovePlan,
    Error,
>)
    ensures
        match r {
            Ok(p) => track.album_artists@.len() > 0 && plan_of(
                p,
                *track,
                library_path@,
                source_of(track.file_path@, auto_add_path@),
            ),
            Err(e) => track.album_artists@.len() == 0 && is_missing_artists(e, *track),
        },
{
    let source = get_source(track.file_path.as_str(), auto_add_path);
    move_track(track, library_path, source.as_str())
}

impl MovePlan {
    /// The destination of the move: the first free numbered name in the
    /// planned directory, given the paths that already exist there.
    pub fn target(&self, existing: &Vec<String>) -> (r: String)
        ensures
            is_first_free(r@, self.directory@, self.file_name@, self.extension@, texts(existing@)),
            !texts(existing@).contains(r@),
    {
        get_iterative_filename(
            self.file_name.as_str(),
            self.extension.as_str(),
            self.directory.as_str(),
            existing,
        )
    }

    /// The error reported when the planned directory cannot be created.
    pub fn directory_error(&self) -> (r: Error)
        ensures
            r == Error::UnableToCreateDirectory(self.directory),
    {
        Error::UnableToCreateDirectory(self.directory.clone())
    }
}

} // verus!
