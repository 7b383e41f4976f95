use vstd::prelude::*;

use crate::bindings::{extension, extension_of, file_stem, file_stem_of, lowercase, lowercase_of};
use crate::sorting::{
    alike, is_total_preorder, lemma_sort_stable, lemma_insert_at, lemma_sort_permutes, lemma_sort_sorted,
    sorted_by, stable_sort_by,
};
use crate::text::{
    contains_seq, find_first, first_occurrence, lemma_first_occurrence_unique, lemma_lex_antisymmetric,
    lemma_lex_total, lemma_lex_transitive, lex_le, lex_le_chars, to_chars,
};

verus! {

/// A music file of the library.
#[derive(Clone, Debug)]
pub struct Track {
    pub path: String,
    pub title: String,
    pub artist: String,
    pub duration_secs: Option<u64>,
}

/// What a `Track` holds, as plain values.
pub struct TrackView {
    pub path: Seq<char>,
    pub title: Seq<char>,
    pub artist: Seq<char>,
    pub duration_secs: Option<u64>,
}

impl View for Track {
    type V = TrackView;

    open spec fn view(&self) -> TrackView {
        TrackView {
            path: self.path@,
            title: self.title@,
            artist: self.artist@,
            duration_secs: self.duration_secs,
        }
    }
}

/// The views of a sequence of tracks.
pub open spec fn track_views(s: Seq<Track>) -> Seq<TrackView> {
    s.map_values(|t: Track| t@)
}

/// A copy of `t`.
pub fn copy_track(t: &Track) -> (r: Track)
    ensures
        r@ == t@,
{
    Track {
        path: t.path.clone(),
        title: t.title.clone(),
        artist: t.artist.clone(),
        duration_secs: t.duration_secs,
    }
}

/// Index of the first track of `s` equal to `t`, or `s.len()` when there is
/// none.
pub open spec fn track_index_of(s: Seq<TrackView>, t: TrackView) -> int
    decreases s.len(),
{
    if s.len() == 0 {
        0
    } else if s[0] == t {
        0
    } else {
        1 + track_index_of(s.drop_first(), t)
    }
}

proof fn lemma_track_index_at(s: Seq<TrackView>, t: TrackView, p: int)
    requires
        0 <= p <= s.len(),
        forall|k: int| 0 <= k < p ==> #[trigger] s[k] != t,
        p == s.len() || s[p] == t,
    ensures
        track_index_of(s, t) == p,
    decreases p,
{
    if p > 0 {
        let u = s.drop_first();
        assert forall|k: int| 0 <= k < p - 1 implies #[trigger] u[k] != t by {
            assert(u[k] == s[k + 1]);
        }
        lemma_track_index_at(u, t, p - 1);
    }
}

/// Whether two tracks hold the same path, title, artist and duration.
pub fn same_track(a: &Track, b: &Track) -> (r: bool)
    ensures
        r == (a@ == b@),
{
    let durations_equal = match (a.duration_secs, b.duration_secs) {
        (Some(x), Some(y)) => x == y,
        (None, None) => true,
        _ => false,
    };
    a.path == b.path && a.title == b.title && a.artist == b.artist && durations_equal
}

/// Where `t` first stands in `tracks`, or `tracks.len()` when it is not there.
pub fn find_track(tracks: &Vec<Track>, t: &Track) -> (r: usize)
    ensures
        r == track_index_of(track_views(tracks@), t@),
        r <= tracks.len(),
{
    let mut i: usize = 0;
    while i < tracks.len() && !same_track(&tracks[i], t)
        invariant
            i <= tracks.len(),
            forall|k: int| 0 <= k < i ==> (#[trigger] tracks@[k])@ != t@,
        decreases tracks.len() - i,
    {
        i = i + 1;
    }
    proof {
        let v = track_views(tracks@);
        assert forall|k: int| 0 <= k < i implies #[trigger] v[k] != t@ by {
            assert(v[k] == tracks@[k]@);
        }
        if i < tracks.len() {
            assert(v[i as int] == tracks@[i as int]@);
        }
        lemma_track_index_at(v, t@, i as int);
    }
    i
}

/// The text between artist and title in a file name: `" - "`.
pub open spec fn artist_separator() -> Seq<char> {
    seq![' ', '-', ' ']
}

/// The artist shown when a file name names none.
pub open spec fn unknown_name() -> Seq<char> {
    "Unknown"@
}

/// Artist and title read from a file stem: the parts before and after the
/// first `" - "`, or `"Unknown"` and the whole stem when there is none.
pub open spec fn artist_title_of(stem: Seq<char>) -> (Seq<char>, Seq<char>) {
    if contains_seq(stem, artist_separator()) {
        let i = choose|i: int| first_occurrence(stem, artist_separator(), i);
        (stem.subrange(0, i), stem.subrange(i + 3, stem.len() as int))
    } else {
        (unknown_name(), stem)
    }
}

/// Splits a file stem into artist and title.
pub fn split_artist_title(stem: &str) -> (r: (String, String))
    ensures
        (r.0@, r.1@) == artist_title_of(stem@),
{
    let chars = to_chars(stem);
    let sep: Vec<char> = vec![' ', '-', ' '];
    assert(sep@ =~= artist_separator());
    match find_first(&chars, &sep) {
        Some(i) => {
            proof {
                assert(contains_seq(stem@, artist_separator()));
                let j = choose|j: int| first_occurrence(stem@, artist_separator(), j);
                lemma_first_occurrence_unique(stem@, artist_separator(), i as int, j);
                assert(i + 3 <= chars.len());
            }
            let artist = String::from_str(stem.substring_char(0, i));
            let title = String::from_str(stem.substring_char(i + 3, chars.len()));
            (artist, title)
        },
        None => {
            let unknown = String::from_str("Unknown");
            (unknown, String::from_str(stem))
        },
    }
}

/// When a file stem names an artist, artist, `" - "` and title put back
/// together give the stem, and the artist holds no `" - "`.
pub proof fn lemma_split_rejoins(stem: Seq<char>)
    requires
        contains_seq(stem, artist_separator()),
    ensures
        artist_title_of(stem).0 + artist_separator() + artist_title_of(stem).1 == stem,
        !contains_seq(artist_title_of(stem).0, artist_separator()),
{
    let k = choose|k: int| crate::text::occurs_at(stem, artist_separator(), k);
    crate::text::lemma_first_occurrence_exists(stem, artist_separator(), k);
    let i = choose|i: int| first_occurrence(stem, artist_separator(), i);
    let a = stem.subrange(0, i);
    assert(stem.subrange(i, i + 3) == artist_separator());
    assert(a + artist_separator() + stem.subrange(i + 3, stem.len() as int) =~= stem);
    if contains_seq(a, artist_separator()) {
        let j = choose|j: int| crate::text::occurs_at(a, artist_separator(), j);
        assert(a.subrange(j, j + 3) =~= stem.subrange(j, j + 3));
        assert(crate::text::occurs_at(stem, artist_separator(), j));
    }
}

/// The stem used for a path: its file stem, or `"Unknown"` when it has none.
pub open spec fn stem_or_unknown(path: Seq<char>) -> Seq<char> {
    match file_stem_of(path) {
        Some(s) => s,
        None => unknown_name(),
    }
}

/// The track made for a path: artist and title from its file stem, no
/// duration.
pub open spec fn track_of_path(path: Seq<char>) -> TrackView {
    let (artist, title) = artist_title_of(stem_or_unknown(path));
    TrackView { path, title, artist, duration_secs: None }
}

/// Makes the track of a file path.
pub fn create_track_from_path(path: &str) -> (t: Track)
    ensures
        t@ == track_of_path(path@),
{
    let stem = match file_stem(path) {
        Some(s) => s,
        None => String::from_str("Unknown"),
    };
    let (artist, title) = split_artist_title(stem.as_str());
    Track { path: String::from_str(path), title, artist, duration_secs: None }
}

/// The file extensions of the audio files that the library takes.
pub open spec fn is_audio_extension(ext: Seq<char>) -> bool {
    ||| ext == "mp3"@
    ||| ext == "flac"@
    ||| ext == "ogg"@
    ||| ext == "wav"@
    ||| ext == "m4a"@
    ||| ext == "aac"@
    ||| ext == "webm"@
}

/// A path is an audio file when its extension is one of the audio extensions.
pub open spec fn is_audio_path(path: Seq<char>) -> bool {
    match extension_of(path) {
        Some(e) => is_audio_extension(e),
        None => false,
    }
}

/// Decides `is_audio_extension`.
pub fn is_audio_extension_str(ext: &str) -> (b: bool)
    ensures
        b == is_audio_extension(ext@),
{
    let names = ["mp3", "flac", "ogg", "wav", "m4a", "aac", "webm"];
    let e = String::from_str(ext);
    let mut i: usize = 0;
    while i < 7
        invariant
            e@ == ext@,
            i <= 7,
            names@ == seq!["mp3", "flac", "ogg", "wav", "m4a", "aac", "webm"],
            forall|k: int| 0 <= k < i ==> names@[k]@ != ext@,
        decreases 7 - i,
    {
        let name = String::from_str(names[i]);
        if name == e {
            return true;
        }
        i = i + 1;
    }
    false
}

/// Decides `is_audio_path`.
pub fn is_audio_path_str(path: &str) -> (b: bool)
    ensures
        b == is_audio_path(path@),
{
    match extension(path) {
        Some(e) => is_audio_extension_str(e.as_str()),
        None => false,
    }
}


/// The library's order of tracks: by lower-cased artist, then by lower-cased
/// title, each compared as `str` compares (by code point).
pub open spec fn track_order(a: TrackView, b: TrackView) -> bool {
    let aa = lowercase_of(a.artist);
    let ba = lowercase_of(b.artist);
    if aa == ba {
        lex_le(lowercase_of(a.title), lowercase_of(b.title))
    } else {
        lex_le(aa, ba)
    }
}

/// `track_order` as a function value.
pub open spec fn track_le() -> spec_fn(TrackView, TrackView) -> bool {
    |a: TrackView, b: TrackView| track_order(a, b)
}

/// The library's order of tracks is total and transitive.
pub proof fn lemma_track_order_total_preorder()
    ensures
        is_total_preorder(track_le()),
{
    assert forall|a: TrackView, b: TrackView| #[trigger]
        track_le()(a, b) || track_le()(b, a) by {
        lemma_lex_total(lowercase_of(a.artist), lowercase_of(b.artist));
        lemma_lex_total(lowercase_of(a.title), lowercase_of(b.title));
    }
    assert forall|a: TrackView, b: TrackView, c: TrackView| #[trigger]
        track_le()(a, b) && #[trigger] track_le()(b, c) implies track_le()(a, c) by {
        let (aa, ba, ca) = (lowercase_of(a.artist), lowercase_of(b.artist), lowercase_of(c.artist));
        let (at, bt, ct) = (lowercase_of(a.title), lowercase_of(b.title), lowercase_of(c.title));
        if aa == ba && ba == ca {
            lemma_lex_transitive(at, bt, ct);
        } else if aa == ba {
            assert(lex_le(ba, ca));
        } else if ba == ca {
            assert(lex_le(aa, ba));
        } else {
            lemma_lex_transitive(aa, ba, ca);
            if aa == ca {
                lemma_lex_antisymmetric(aa, ba);
            }
        }
    }
}

/// Lower-cased artist and title of a track, as characters.
struct TrackKey {
    artist: Vec<char>,
    title: Vec<char>,
}

fn track_key(t: &Track) -> (k: TrackKey)
    ensures
        k.artist@ == lowercase_of(t.artist@),
        k.title@ == lowercase_of(t.title@),
{
    let a = lowercase(t.artist.as_str());
    let b = lowercase(t.title.as_str());
    TrackKey { artist: to_chars(a.as_str()), title: to_chars(b.as_str()) }
}

fn key_le(a: &TrackKey, b: &TrackKey) -> (r: bool)
    ensures
        r == (if a.artist@ == b.artist@ {
            lex_le(a.title@, b.title@)
        } else {
            lex_le(a.artist@, b.artist@)
        }),
{
    let ab = lex_le_chars(&a.artist, &b.artist);
    let ba = lex_le_chars(&b.artist, &a.artist);
    proof {
        lemma_lex_total(a.artist@, a.artist@);
        if ab && ba {
            lemma_lex_antisymmetric(a.artist@, b.artist@);
        }
    }
    if ab && ba {
        lex_le_chars(&a.title, &b.title)
    } else {
        ab
    }
}

/// Sorts tracks into the library's order, stably.
pub fn sort_tracks(tracks: Vec<Track>) -> (r: Vec<Track>)
    ensures
        track_views(r@) == stable_sort_by(track_le(), track_views(tracks@)),
{
    let ghost orig = track_views(tracks@);
    let mut rest = tracks;
    let mut out: Vec<Track> = Vec::new();
    let mut keys: Vec<TrackKey> = Vec::new();
    proof {
        assert(orig.skip(orig.len() as int) =~= Seq::<TrackView>::empty());
        assert(track_views(out@) =~= Seq::<TrackView>::empty());
    }
    while rest.len() > 0
        invariant
            orig.len() == tracks@.len(),
            rest.len() <= orig.len(),
            forall|k: int| 0 <= k < rest.len() ==> #[trigger] rest@[k]@ == orig[k],
            track_views(out@) == stable_sort_by(track_le(), orig.skip(rest.len() as int)),
            keys.len() == out.len(),
            forall|k: int|
                0 <= k < keys.len() ==> (#[trigger] keys@[k]).artist@ == lowercase_of(
                    out@[k].artist@,
                ) && keys@[k].title@ == lowercase_of(out@[k].title@),
        decreases rest.len(),
    {
        let ghost m = rest.len() - 1;
        let t = rest.pop().unwrap();
        let kt = track_key(&t);
        let mut j: usize = 0;
        while j < out.len() && !key_le(&kt, &keys[j])
            invariant
                j <= out.len(),
                keys.len() == out.len(),
                kt.artist@ == lowercase_of(t.artist@),
                kt.title@ == lowercase_of(t.title@),
                forall|k: int|
                    0 <= k < keys.len() ==> (#[trigger] keys@[k]).artist@ == lowercase_of(
                        out@[k].artist@,
                    ) && keys@[k].title@ == lowercase_of(out@[k].title@),
                forall|k: int| 0 <= k < j ==> !track_order(t@, #[trigger] out@[k]@),
            decreases out.len() - j,
        {
            j = j + 1;
        }
        proof {
            let ov = track_views(out@);
            assert forall|k: int| 0 <= k < j implies !track_le()(t@, #[trigger] ov[k]) by {
                assert(ov[k] == out@[k]@);
            }
            if j < out.len() {
                assert(ov[j as int] == out@[j as int]@);
            }
            lemma_insert_at(track_le(), t@, ov, j as int);
            assert(orig.skip(m) =~= seq![orig[m]] + orig.skip(m + 1));
            assert(orig.skip(m).drop_first() =~= orig.skip(m + 1));
        }
        let ghost old_out = out@;
        out.insert(j, t);
        keys.insert(j, kt);
        proof {
            assert(track_views(out@) =~= track_views(old_out).take(j as int) + seq![t@]
                + track_views(old_out).skip(j as int));
            assert forall|k: int| 0 <= k < keys.len() implies (#[trigger] keys@[k]).artist@
                == lowercase_of(out@[k].artist@) && keys@[k].title@ == lowercase_of(
                out@[k].title@,
            ) by {
                if k < j {
                    assert(out@[k] == old_out[k]);
                } else if k > j {
                    assert(out@[k] == old_out[k - 1]);
                }
            }
        }
    }
    proof {
        assert(orig.skip(0) =~= orig);
    }
    out
}

/// The audio files among `paths`, each made a track, in the order given.
pub open spec fn audio_tracks(paths: Seq<Seq<char>>) -> Seq<TrackView>
    decreases paths.len(),
{
    if paths.len() == 0 {
        seq![]
    } else {
        let rest = audio_tracks(paths.drop_last());
        if is_audio_path(paths.last()) {
            rest.push(track_of_path(paths.last()))
        } else {
            rest
        }
    }
}

/// The library made from the paths of a directory walk: the audio files, as
/// tracks, in the library's order.
pub open spec fn library_of_paths(paths: Seq<Seq<char>>) -> Seq<TrackView> {
    stable_sort_by(track_le(), audio_tracks(paths))
}

/// Makes the library from the paths that a walk of the music directory found.
pub fn tracks_from_paths(paths: &Vec<String>) -> (r: Vec<Track>)
    ensures
        track_views(r@) == library_of_paths(paths.deep_view()),
{
    let mut found: Vec<Track> = Vec::new();
    let n = paths.len();
    for i in 0..n
        invariant
            n == paths.len(),
            track_views(found@) == audio_tracks(paths.deep_view().take(i as int)),
    {
        let ghost prefix = paths.deep_view().take(i + 1);
        proof {
            assert(prefix.drop_last() =~= paths.deep_view().take(i as int));
            assert(prefix.last() == paths@[i as int]@);
        }
        let p = paths[i].as_str();
        if is_audio_path_str(p) {
            let ghost before = found@;
            found.push(create_track_from_path(p));
            proof {
                assert(track_views(found@) =~= track_views(before).push(found@.last()@));
            }
        }
    }
    proof {
        assert(paths.deep_view().take(n as int) =~= paths.deep_view());
    }
    sort_tracks(found)
}

/// The library lists its tracks in the library's order.
pub proof fn lemma_library_sorted(paths: Seq<Seq<char>>)
    ensures
        sorted_by(track_le(), library_of_paths(paths)),
{
    lemma_track_order_total_preorder();
    lemma_sort_sorted(track_le(), audio_tracks(paths));
}

/// Tracks that the library's order ranks alike (same lower-cased artist and
/// title) stay in the order of the walk.
pub proof fn lemma_library_keeps_walk_order(paths: Seq<Seq<char>>, y: TrackView)
    ensures
        alike(track_le(), library_of_paths(paths), y) == alike(track_le(), audio_tracks(paths), y),
{
    lemma_track_order_total_preorder();
    lemma_sort_stable(track_le(), audio_tracks(paths), y);
}

/// The library holds each audio file of the walk once, and nothing else.
pub proof fn lemma_library_permutes(paths: Seq<Seq<char>>)
    ensures
        library_of_paths(paths).to_multiset() == audio_tracks(paths).to_multiset(),
{
    lemma_sort_permutes(track_le(), audio_tracks(paths));
}

/// The walk's audio files among `paths`, made tracks, come from those paths
/// and are audio files.
proof fn lemma_audio_tracks_from_audio_paths(paths: Seq<Seq<char>>, t: TrackView)
    requires
        audio_tracks(paths).contains(t),
    ensures
        paths.contains(t.path),
        is_audio_path(t.path),
    decreases paths.len(),
{
    let rest = paths.drop_last();
    let j = choose|j: int| 0 <= j < audio_tracks(paths).len() && audio_tracks(paths)[j] == t;
    if j < audio_tracks(rest).len() {
        assert(audio_tracks(rest)[j] == t);
        lemma_audio_tracks_from_audio_paths(rest, t);
        let k = choose|k: int| 0 <= k < rest.len() && rest[k] == t.path;
        assert(paths[k] == t.path);
    } else {
        assert(t == track_of_path(paths.last()));
        assert(paths[paths.len() - 1] == t.path);
    }
}

/// The library holds only audio files of the walk: every track's path is
/// one of the walked paths, and its extension is one of mp3, flac, ogg, wav,
/// m4a, aac and webm. So no other file beside the music (a `.lrc` lyrics
/// file, a `.jpg` cover, a `.txt` or `.json` file) is ever a track.
pub proof fn lemma_library_holds_only_audio_files(paths: Seq<Seq<char>>, t: TrackView)
    requires
        library_of_paths(paths).contains(t),
    ensures
        paths.contains(t.path),
        extension_of(t.path) is Some,
        ({
            let e = extension_of(t.path)->0;
            e == "mp3"@ || e == "flac"@ || e == "ogg"@ || e == "wav"@ || e == "m4a"@ || e == "aac"@
                || e == "webm"@
        }),
{
    lemma_library_permutes(paths);
    library_of_paths(paths).to_multiset_ensures();
    audio_tracks(paths).to_multiset_ensures();
    assert(library_of_paths(paths).to_multiset().count(t) > 0);
    assert(audio_tracks(paths).to_multiset().count(t) > 0);
    lemma_audio_tracks_from_audio_paths(paths, t);
}

/// A path whose extension is `lrc`, `jpg`, `txt` or `json` is not an audio
/// file, so it makes no track of the library.
pub proof fn lemma_other_files_are_not_tracks(path: Seq<char>)
    requires
        extension_of(path) == Some("lrc"@) || extension_of(path) == Some("jpg"@) || extension_of(
            path,
        ) == Some("txt"@) || extension_of(path) == Some("json"@),
    ensures
        !is_audio_path(path),
{
    reveal_strlit("lrc");
    reveal_strlit("jpg");
    reveal_strlit("txt");
    reveal_strlit("json");
    reveal_strlit("mp3");
    reveal_strlit("flac");
    reveal_strlit("ogg");
    reveal_strlit("wav");
    reveal_strlit("m4a");
    reveal_strlit("aac");
    reveal_strlit("webm");
    let e = extension_of(path)->0;
    assert(e[0] == 'l' || e[0] == 'j' || e[0] == 't');
}

/// Search looks at a track's title and artist only: two tracks with the same
/// title and artist match a query alike, whatever their paths and durations.
/// A track matches a non-empty query only when the lower-cased query occurs
/// in its lower-cased title or artist, and the empty query matches every
/// track.
pub proof fn lemma_search_reads_title_and_artist(query: Seq<char>, t: TrackView, u: TrackView)
    requires
        t.title == u.title,
        t.artist == u.artist,
    ensures
        track_matches(query, t) == track_matches(query, u),
        track_matches(query, t) && lowercase_of(query).len() > 0 ==> contains_seq(
            lowercase_of(t.title),
            lowercase_of(query),
        ) || contains_seq(lowercase_of(t.artist), lowercase_of(query)),
        lowercase_of(query).len() == 0 ==> track_matches(query, t),
{
}

/// A track matches a search query when the lower-cased query is empty or
/// occurs in the lower-cased title or the lower-cased artist.
pub open spec fn track_matches(query: Seq<char>, t: TrackView) -> bool {
    let q = lowercase_of(query);
    ||| q.len() == 0
    ||| contains_seq(lowercase_of(t.title), q)
    ||| contains_seq(lowercase_of(t.artist), q)
}

/// Decides `track_matches`.
pub fn matches_query(query: &str, track: &Track) -> (b: bool)
    ensures
        b == track_matches(query@, track@),
        query@.len() == 0 ==> b,
{
    let q = to_chars(lowercase(query).as_str());
    if q.len() == 0 {
        return true;
    }
    let title = to_chars(lowercase(track.title.as_str()).as_str());
    if find_first(&title, &q).is_some() {
        return true;
    }
    let artist = to_chars(lowercase(track.artist.as_str()).as_str());
    find_first(&artist, &q).is_some()
}

/// For each track, whether it matches the search query.
pub fn search_visibility(query: &str, tracks: &Vec<Track>) -> (r: Vec<bool>)
    ensures
        r.len() == tracks.len(),
        forall|i: int| 0 <= i < r.len() ==> r@[i] == track_matches(query@, tracks@[i]@),
        query@.len() == 0 ==> forall|i: int| 0 <= i < r.len() ==> r@[i],
{
    let mut r: Vec<bool> = Vec::new();
    for i in 0..tracks.len()
        invariant
            r.len() == i,
            forall|k: int| 0 <= k < i ==> r@[k] == track_matches(query@, tracks@[k]@),
            query@.len() == 0 ==> forall|k: int| 0 <= k < i ==> r@[k],
    {
        r.push(matches_query(query, &tracks[i]));
    }
    r
}

} // verus!
