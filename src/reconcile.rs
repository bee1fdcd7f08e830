use vstd::prelude::*;
use crate::error::Error;
use crate::item::{Item, texts};
use crate::mover::{is_missing_artists, move_track, plan_of, MovePlan};
use crate::naming::{candidate_path, is_first_free, track_directory, track_file_name};
use crate::paths::{get_parent, kept_extension, parent};

verus! {

/// Whether two records of one file agree on the five tags that decide where
/// it is filed: title, album, artist, track number and album artists.
pub open spec fn same_placement(a: Item, b: Item) -> bool {
    &&& a.title@ == b.title@
    &&& a.album@ == b.album@
    &&& a.artist@ == b.artist@
    &&& a.track_number == b.track_number
    &&& a.album_artists_view() == b.album_artists_view()
}

/// What re-evaluating an indexed item found.
#[derive(Debug, Clone, PartialEq, Eq)]
pub enum Reconsideration {
    /// The file is gone or cannot be read: drop it from the index.
    Gone,
    /// The file is where its tags say: the fresh record, at the same path.
    Unchanged(Item),
    /// The tags changed: move the file as planned, keeping its source label.
    Relocate(MovePlan),
}

/// `r` is the outcome of re-evaluating `track`, where `exists` tells whether
/// its file is still on disk and `read` is what a fresh read of it gave.
pub open spec fn reconsider_result(
    r: Result<Reconsideration, Error>,
    track: Item,
    library: Seq<char>,
    exists: bool,
    read: Option<Item>,
) -> bool {
    if !exists {
        r == Ok::<Reconsideration, Error>(Reconsideration::Gone)
    } else {
        match read {
            None => r == Ok::<Reconsideration, Error>(Reconsideration::Gone),
            Some(fresh) => if same_placement(track, fresh) {
                r == Ok::<Reconsideration, Error>(Reconsideration::Unchanged(fresh))
            } else {
                match r {
                    Ok(Reconsideration::Relocate(p)) => fresh.album_artists@.len() > 0 && plan_of(
                        p,
                        fresh,
                        library,
                        track.source@,
                    ),
                    Err(e) => fresh.album_artists@.len() == 0 && is_missing_artists(e, fresh),
                    _ => false,
                }
            },
        }
    }
}

fn same_texts(a: &Vec<String>, b: &Vec<String>) -> (r: bool)
    ensures
        r == (texts(a@) == texts(b@)),
{
    if a.len() != b.len() {
        assert(texts(a@).len() != texts(b@).len());
        return false;
    }
    let mut i: usize = 0;
    while i < a.len()
        invariant
            a.len() == b.len(),
            i <= a.len(),
            forall|j: int| 0 <= j < i ==> a@[j]@ == b@[j]@,
        decreases a.len() - i,
    {
        if a[i] != b[i] {
            assert(texts(a@)[i as int] != texts(b@)[i as int]);
            return false;
        }
        i = i + 1;
    }
    assert(texts(a@) =~= texts(b@));
    true
}

/// Whether the record read from disk differs from the indexed one in a tag
/// that decides where the file is filed.
pub fn track_warrants_move(track_as_saved: &Item, track_as_read: &Item) -> (r: bool)
    ensures
        r == !same_placement(*track_as_saved, *track_as_read),
{
    !(track_as_saved.title == track_as_read.title && track_as_saved.album == track_as_read.album
        && track_as_saved.artist == track_as_read.artist && track_as_saved.track_number
        == track_as_read.track_number && same_texts(
        &track_as_saved.album_artists,
        &track_as_read.album_artists,
    ))
}

/// Re-evaluates the indexed `track` against the library at `library_path`:
/// `exists` tells whether its file is still on disk and `track_as_read` is
/// what reading it afresh gave. A missing or unreadable file is gone; an
/// unchanged one stays; a changed one is planned to move, under the source
/// label that was recorded for it.
pub fn reconsider_track(
    track: &Item,
    library_path: &str,
    exists: bool,
    track_as_read: Option<Item>,
) -> (r: Result<Reconsideration, Error>)
    ensures
        reconsider_result(r, *track, library_path@, exists, track_as_read),
{
    if !exists {
        return Ok(Reconsideration::Gone);
    }
    match track_as_read {
        None => Ok(Reconsideration::Gone),
        Some(fresh) => {
            if !track_warrants_move(track, &fresh) {
                Ok(Reconsideration::Unchanged(fresh))
            } else {
                match move_track(&fresh, library_path, track.source.as_str()) {
                    Ok(p) => Ok(Reconsideration::Relocate(p)),
                    Err(e) => Err(e),
                }
            }
        },
    }
}

/// The directories to remove, if empty, once a file has left `old_path`:
/// its album folder, then its artist folder.
pub fn cleanup_directories(old_path: &str) -> (r: Vec<String>)
    ensures
        texts(r@) == seq![parent(old_path@), parent(parent(old_path@))],
{
    let album = get_parent(old_path);
    let artist = get_parent(album.as_str());
    let mut v = Vec::new();
    v.push(album);
    v.push(artist);
    assert(texts(v@) =~= seq![parent(old_path@), parent(parent(old_path@))]);
    v
}

/// A file whose record no longer matches a file on disk is dropped.
pub proof fn lemma_missing_file_is_gone(
    r: Result<Reconsideration, Error>,
    track: Item,
    library: Seq<char>,
    read: Option<Item>,
)
    requires
        reconsider_result(r, track, library, false, read),
    ensures
        r == Ok::<Reconsideration, Error>(Reconsideration::Gone),
{
}

/// A file moved into an empty library directory lands at the unnumbered name
/// its tags give; re-evaluating it right after, when its tags read back the
/// same, keeps it where it is, at that same path.
pub proof fn lemma_round_trip(
    item: Item,
    library: Seq<char>,
    source: Seq<char>,
    plan: MovePlan,
    target: Seq<char>,
    moved: Item,
    again: Item,
    r: Result<Reconsideration, Error>,
)
    requires
        plan_of(plan, item, library, source),
        is_first_free(target, plan.directory@, plan.file_name@, plan.extension@, Seq::empty()),
        moved.file_path@ == target,
        same_placement(item, moved),
        again.file_path@ == moved.file_path@,
        same_placement(moved, again),
        reconsider_result(r, moved, library, true, Some(again)),
    ensures
        r == Ok::<Reconsideration, Error>(Reconsideration::Unchanged(again)),
        again.file_path@ == candidate_path(
            track_directory(item, library),
            track_file_name(item),
            kept_extension(item.file_path@),
            0,
        ),
{
    let k = choose|k: nat|
        #![trigger candidate_path(plan.directory@, plan.file_name@, plan.extension@, k)]
        target == candidate_path(plan.directory@, plan.file_name@, plan.extension@, k)
            && !Seq::<Seq<char>>::empty().contains(target) && forall|j: nat|
            j < k ==> Seq::<Seq<char>>::empty().contains(
                #[trigger] candidate_path(plan.directory@, plan.file_name@, plan.extension@, j),
            );
    if k > 0 {
        assert(!Seq::<Seq<char>>::empty().contains(
            candidate_path(plan.directory@, plan.file_name@, plan.extension@, 0),
        ));
    }
}

/// When a fresh read changes the title, the file is planned to move to the
/// name the new title gives, under the source label recorded before.
pub proof fn lemma_edit_relocates(
    saved: Item,
    fresh: Item,
    library: Seq<char>,
    r: Result<Reconsideration, Error>,
)
    requires
        saved.title@ != fresh.title@,
        fresh.album_artists@.len() > 0,
        reconsider_result(r, saved, library, true, Some(fresh)),
    ensures
        r matches Ok(Reconsideration::Relocate(p)) && p.source@ == saved.source@ && p.from@
            == fresh.file_path@ && p.file_name@ == track_file_name(fresh) && p.directory@
            == track_directory(fresh, library),
{
}

} // verus!
