use volta_wave::track::{
    create_track_from_path, is_audio_path_str, search_visibility, sort_tracks, split_artist_title,
    tracks_from_paths, Track,
};

fn track(artist: &str, title: &str, path: &str) -> Track {
    Track { path: path.to_string(), title: title.to_string(), artist: artist.to_string(), duration_secs: None }
}

#[test]
fn split_on_first_separator() {
    assert_eq!(split_artist_title("Artist - Title"), ("Artist".to_string(), "Title".to_string()));
    assert_eq!(split_artist_title("A - B - C"), ("A".to_string(), "B - C".to_string()));
    assert_eq!(split_artist_title("Just a title"), ("Unknown".to_string(), "Just a title".to_string()));
    assert_eq!(split_artist_title("No-spaces-dash"), ("Unknown".to_string(), "No-spaces-dash".to_string()));
}

#[test]
fn track_from_file_name() {
    let t = create_track_from_path("/home/me/Music/Daft Punk - One More Time.mp3");
    assert_eq!(t.artist, "Daft Punk");
    assert_eq!(t.title, "One More Time");
    assert_eq!(t.path, "/home/me/Music/Daft Punk - One More Time.mp3");
    assert_eq!(t.duration_secs, None);
    let u = create_track_from_path("/music/song.flac");
    assert_eq!(u.artist, "Unknown");
    assert_eq!(u.title, "song");
    let v = create_track_from_path("/music/A - B.tar.gz");
    assert_eq!(v.artist, "A");
    assert_eq!(v.title, "B.tar");
}

#[test]
fn audio_extensions() {
    for p in ["a.mp3", "a.flac", "a.ogg", "a.wav", "a.m4a", "a.aac", "a.webm"] {
        assert!(is_audio_path_str(p), "{}", p);
    }
    for p in ["a.MP3", "a.txt", "a", "dir/", "a.mp3.bak", ".mp3"] {
        assert!(!is_audio_path_str(p), "{}", p);
    }
}

#[test]
fn library_sorted_by_artist_then_title() {
    let paths: Vec<String> = [
        "/m/b - zeta.mp3",
        "/m/notes.txt",
        "/m/A - beta.ogg",
        "/m/a - Alpha.flac",
        "/m/untitled.wav",
        "/m/cover.jpg",
    ]
    .iter()
    .map(|s| s.to_string())
    .collect();
    let lib = tracks_from_paths(&paths);
    let names: Vec<(String, String)> = lib.iter().map(|t| (t.artist.clone(), t.title.clone())).collect();
    assert_eq!(
        names,
        vec![
            ("a".to_string(), "Alpha".to_string()),
            ("A".to_string(), "beta".to_string()),
            ("b".to_string(), "zeta".to_string()),
            ("Unknown".to_string(), "untitled".to_string()),
        ]
    );
}

#[test]
fn sort_is_stable_for_equal_keys() {
    let v = vec![track("X", "Same", "/1"), track("x", "same", "/2"), track("A", "Z", "/3"), track("X", "SAME", "/4")];
    let s = sort_tracks(v);
    let paths: Vec<&str> = s.iter().map(|t| t.path.as_str()).collect();
    assert_eq!(paths, vec!["/3", "/1", "/2", "/4"]);
}

#[test]
fn search_is_case_insensitive_on_title_and_artist() {
    let tracks = vec![track("Daft Punk", "One More Time", "/a"), track("Muse", "Uprising", "/b")];
    assert_eq!(search_visibility("", &tracks), vec![true, true]);
    assert_eq!(search_visibility("DAFT", &tracks), vec![true, false]);
    assert_eq!(search_visibility("rising", &tracks), vec![false, true]);
    assert_eq!(search_visibility("zzz", &tracks), vec![false, false]);
}

#[test]
fn split_parts_rejoin_to_stem() {
    for stem in ["A - B", "A - B - C", " -  - ", "x -  - y"] {
        let (artist, title) = split_artist_title(stem);
        assert_eq!(format!("{} - {}", artist, title), stem);
        assert!(!artist.contains(" - "));
    }
}
