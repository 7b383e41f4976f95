use vstd::prelude::*;

use crate::bindings::{extension, extension_of, file_stem, file_stem_of};
use crate::track::{Track, TrackView, copy_track, track_views};

verus! {

/// One track as a saved playlist stores it.
#[derive(Clone, Debug)]
pub struct PlaylistEntry {
    pub path: String,
    pub title: String,
    pub artist: String,
}

/// What a `PlaylistEntry` holds, as plain values.
pub struct EntryView {
    pub path: Seq<char>,
    pub title: Seq<char>,
    pub artist: Seq<char>,
}

impl View for PlaylistEntry {
    type V = EntryView;

    open spec fn view(&self) -> EntryView {
        EntryView { path: self.path@, title: self.title@, artist: self.artist@ }
    }
}

/// The views of a sequence of entries.
pub open spec fn entry_views(s: Seq<PlaylistEntry>) -> Seq<EntryView> {
    s.map_values(|e: PlaylistEntry| e@)
}

/// The entry saved for a track: its path, title and artist.
pub open spec fn entry_of(t: TrackView) -> EntryView {
    EntryView { path: t.path, title: t.title, artist: t.artist }
}

/// The track loaded from an entry: no duration.
pub open spec fn track_of_entry(e: EntryView) -> TrackView {
    TrackView { path: e.path, title: e.title, artist: e.artist, duration_secs: None }
}

/// The entries that saving a list of tracks writes, in order.
pub fn playlist_entries(tracks: &Vec<Track>) -> (r: Vec<PlaylistEntry>)
    ensures
        entry_views(r@) == track_views(tracks@).map_values(|t: TrackView| entry_of(t)),
{
    let mut r: Vec<PlaylistEntry> = Vec::new();
    for i in 0..tracks.len()
        invariant
            entry_views(r@) == track_views(tracks@).take(i as int).map_values(
                |t: TrackView| entry_of(t),
            ),
    {
        let t = copy_track(&tracks[i]);
        let ghost before = r@;
        r.push(PlaylistEntry { path: t.path, title: t.title, artist: t.artist });
        proof {
            assert(track_views(tracks@).take(i + 1) =~= track_views(tracks@).take(i as int).push(
                tracks@[i as int]@,
            ));
            assert(entry_views(r@) =~= entry_views(before).push(r@.last()@));
        }
    }
    proof {
        assert(track_views(tracks@).take(tracks.len() as int) =~= track_views(tracks@));
    }
    r
}

/// The tracks that loading a playlist's entries gives, in order.
pub fn tracks_from_entries(entries: Vec<PlaylistEntry>) -> (r: Vec<Track>)
    ensures
        track_views(r@) == entry_views(entries@).map_values(|e: EntryView| track_of_entry(e)),
{
    let ghost orig = entry_views(entries@);
    let mut rest = entries;
    let mut rev: Vec<Track> = Vec::new();
    while rest.len() > 0
        invariant
            orig.len() == entries@.len(),
            rest.len() <= orig.len(),
            forall|k: int| 0 <= k < rest.len() ==> #[trigger] rest@[k]@ == orig[k],
            rev.len() + rest.len() == orig.len(),
            forall|k: int|
                0 <= k < rev.len() ==> (#[trigger] rev@[k])@ == track_of_entry(
                    orig[orig.len() - 1 - k],
                ),
        decreases rest.len(),
    {
        let ghost m = rest.len() - 1;
        let ghost before = rev@;
        let e = rest.pop().unwrap();
        proof {
            assert(e@ == orig[m]);
        }
        rev.push(Track { path: e.path, title: e.title, artist: e.artist, duration_secs: None });
        proof {
            assert forall|k: int| 0 <= k < rev.len() implies (#[trigger] rev@[k])@
                == track_of_entry(orig[orig.len() - 1 - k]) by {
                if k < before.len() {
                    assert(rev@[k] == before[k]);
                }
            }
        }
    }
    let mut r: Vec<Track> = Vec::new();
    let n = rev.len();
    while rev.len() > 0
        invariant
            n == orig.len(),
            rev.len() + r.len() == n,
            forall|k: int|
                0 <= k < rev.len() ==> (#[trigger] rev@[k])@ == track_of_entry(orig[n - 1 - k]),
            forall|k: int| 0 <= k < r.len() ==> (#[trigger] r@[k])@ == track_of_entry(orig[k]),
        decreases rev.len(),
    {
        let ghost before = r@;
        let t = rev.pop().unwrap();
        r.push(t);
        proof {
            assert forall|k: int| 0 <= k < r.len() implies (#[trigger] r@[k])@ == track_of_entry(
                orig[k],
            ) by {
                if k < before.len() {
                    assert(r@[k] == before[k]);
                }
            }
        }
    }
    proof {
        assert(track_views(r@) =~= orig.map_values(|e: EntryView| track_of_entry(e)));
    }
    r
}

/// Saving a list of tracks and loading it back gives the same tracks, with
/// no durations.
pub proof fn lemma_playlist_round_trip(tracks: Seq<TrackView>)
    ensures
        tracks.map_values(|t: TrackView| entry_of(t)).map_values(
            |e: EntryView| track_of_entry(e),
        ) == tracks.map_values(
            |t: TrackView|
                TrackView {
                    path: t.path,
                    title: t.title,
                    artist: t.artist,
                    duration_secs: None,
                },
        ),
{
    assert(tracks.map_values(|t: TrackView| entry_of(t)).map_values(
        |e: EntryView| track_of_entry(e),
    ) =~= tracks.map_values(
        |t: TrackView|
            TrackView { path: t.path, title: t.title, artist: t.artist, duration_secs: None },
    ));
}

/// The playlist named by a file of the playlist directory: the file stem of
/// a `.json` file; nothing for other files.
pub open spec fn playlist_name_of(path: Seq<char>) -> Option<Seq<char>> {
    if extension_of(path) == Some("json"@) {
        file_stem_of(path)
    } else {
        None
    }
}

/// The playlist names among the files of the playlist directory, in order.
pub open spec fn playlist_names_of(paths: Seq<Seq<char>>) -> Seq<Seq<char>>
    decreases paths.len(),
{
    if paths.len() == 0 {
        seq![]
    } else {
        let rest = playlist_names_of(paths.drop_last());
        match playlist_name_of(paths.last()) {
            Some(n) => rest.push(n),
            None => rest,
        }
    }
}

/// The playlist names among the files of the playlist directory.
pub fn playlist_names(paths: &Vec<String>) -> (r: Vec<String>)
    ensures
        r.deep_view() == playlist_names_of(paths.deep_view()),
{
    let mut r: Vec<String> = Vec::new();
    let n = paths.len();
    for i in 0..n
        invariant
            n == paths.len(),
            r.deep_view() == playlist_names_of(paths.deep_view().take(i as int)),
    {
        let ghost prefix = paths.deep_view().take(i + 1);
        proof {
            assert(prefix.drop_last() =~= paths.deep_view().take(i as int));
            assert(prefix.last() == paths@[i as int]@);
        }
        let p = paths[i].as_str();
        let is_json = match extension(p) {
            Some(e) => e == String::from_str("json"),
            None => false,
        };
        if is_json {
            match file_stem(p) {
                Some(stem) => {
                    let ghost before = r.deep_view();
                    r.push(stem);
                    proof {
                        assert(r.deep_view() =~= before.push(r@.last()@));
                    }
                },
                None => {},
            }
        }
    }
    proof {
        assert(paths.deep_view().take(n as int) =~= paths.deep_view());
    }
    r
}

} // verus!
