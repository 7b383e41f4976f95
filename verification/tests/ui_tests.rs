use volta_wave::display::{
    cover_file_names, is_cover_picture, viz_routine, PictureKind, VizRoutine,
    clock_label, key_action, play_button_icon, queue_count_label, repeat_button_labels,
    shuffle_tooltip, track_count_label, viz_mode_name, KeyAction,
};
use volta_wave::player::RepeatMode;
use volta_wave::playlist::{playlist_entries, playlist_names, tracks_from_entries};
use volta_wave::theme::{parse_hex_color, theme_at, viz_accent_for};
use volta_wave::track::Track;

#[test]
fn clock_labels() {
    assert_eq!(clock_label(0), "0:00");
    assert_eq!(clock_label(5_999), "0:05");
    assert_eq!(clock_label(65_000), "1:05");
    assert_eq!(clock_label(3_600_000), "60:00");
    assert_eq!(clock_label(754_321), "12:34");
}

#[test]
fn count_labels() {
    assert_eq!(track_count_label(42), "42 tracks");
    assert_eq!(track_count_label(0), "0 tracks");
    assert_eq!(queue_count_label(3), "Queue: 3");
}

#[test]
fn mode_names_and_icons() {
    let names: Vec<&str> = (0..7).map(viz_mode_name).collect();
    assert_eq!(names, vec!["Bars", "Wave", "Circles", "Stars", "Mirror", "Spectrum", "Bars"]);
    assert_eq!(repeat_button_labels(RepeatMode::Off), ("media-playlist-repeat-symbolic", "Repeat: Off"));
    assert_eq!(repeat_button_labels(RepeatMode::All), ("media-playlist-repeat-symbolic", "Repeat: All"));
    assert_eq!(repeat_button_labels(RepeatMode::One), ("media-playlist-repeat-song-symbolic", "Repeat: One"));
    assert_eq!(shuffle_tooltip(true), "Shuffle: ON");
    assert_eq!(shuffle_tooltip(false), "Shuffle: OFF");
    assert_eq!(play_button_icon(true), "media-playback-pause-symbolic");
    assert_eq!(play_button_icon(false), "media-playback-start-symbolic");
}

#[test]
fn keyboard_shortcuts() {
    assert_eq!(key_action("space"), KeyAction::TogglePlay);
    assert_eq!(key_action("Left"), KeyAction::SeekBackward);
    assert_eq!(key_action("a"), KeyAction::SeekBackward);
    assert_eq!(key_action("Right"), KeyAction::SeekForward);
    assert_eq!(key_action("d"), KeyAction::SeekForward);
    assert_eq!(key_action("m"), KeyAction::Ignore);
    assert_eq!(key_action("v"), KeyAction::CycleVisualization);
    assert_eq!(key_action("t"), KeyAction::CycleTheme);
    assert_eq!(key_action("D"), KeyAction::Ignore);
    assert_eq!(key_action("Return"), KeyAction::Ignore);
}

#[test]
fn theme_colors() {
    assert_eq!(theme_at(0).name, "Tokyo Night");
    assert_eq!(theme_at(7).name, "Forest");
    assert_eq!(viz_accent_for(6), "#00ffff");
    assert_eq!(viz_accent_for(99), "#7aa2f7");
    assert_eq!(parse_hex_color("#7aa2f7"), (0x7a, 0xa2, 0xf7));
    assert_eq!(parse_hex_color("#FFffFF"), (255, 255, 255));
    assert_eq!(parse_hex_color("#zz00+a"), (255, 0, 10));
    assert_eq!(parse_hex_color("#-f0000"), (-15, 0, 0));
    for i in 0..8 {
        let t = theme_at(i);
        for c in [t.bg, t.fg, t.accent, t.dim, t.sidebar_bg, t.viz_accent, t.gradient_start, t.gradient_end] {
            let (r, g, b) = parse_hex_color(c);
            assert!((0..=255).contains(&r) && (0..=255).contains(&g) && (0..=255).contains(&b));
        }
    }
}

#[test]
fn playlist_round_trip() {
    let tracks = vec![
        Track { path: "/m/a.mp3".to_string(), title: "a".to_string(), artist: "X".to_string(), duration_secs: Some(3) },
        Track { path: "/m/b.mp3".to_string(), title: "b".to_string(), artist: "Y".to_string(), duration_secs: None },
    ];
    let entries = playlist_entries(&tracks);
    assert_eq!(entries.len(), 2);
    assert_eq!(entries[0].path, "/m/a.mp3");
    assert_eq!(entries[1].artist, "Y");
    let back = tracks_from_entries(entries);
    assert_eq!(back.len(), 2);
    assert_eq!(back[0].title, "a");
    assert_eq!(back[0].duration_secs, None);
    assert_eq!(back[1].path, "/m/b.mp3");
}

#[test]
fn playlist_names_from_json_files() {
    let files: Vec<String> = ["/p/road trip.json", "/p/notes.txt", "/p/x.JSON", "/p/chill.json", "/p/.json"]
        .iter()
        .map(|s| s.to_string())
        .collect();
    assert_eq!(playlist_names(&files), vec!["road trip".to_string(), "chill".to_string()]);
}

#[test]
fn style_sheet_uses_theme_colors() {
    let css = volta_wave::style::theme_css(0);
    assert!(css.starts_with("\n* { -gtk-icon-transform: none; }\n"));
    assert!(css.contains(".main-container {\n background-color: #1a1b26;\n}"));
    assert!(css.contains(".lyrics-current { \n color: #7aa2f7; "));
    assert!(css.contains("border: 1px solid #565f8940;"));
    assert!(css.contains(".context-btn.destructive {\n color: #ff4444;\n}"));
    assert_eq!(css.matches("#1a1b26").count(), 9);
    assert!(!css.contains("{{") && !css.contains("{bg}"));
    let forest = volta_wave::style::theme_css(7);
    assert!(forest.contains("background-color: #1a2e1a;"));
}

#[test]
fn drawing_routines_and_covers() {
    let r: Vec<VizRoutine> = (0..7).map(viz_routine).collect();
    assert_eq!(
        r,
        vec![
            VizRoutine::Bars,
            VizRoutine::Wave,
            VizRoutine::Circles,
            VizRoutine::Stars,
            VizRoutine::Mirror,
            VizRoutine::Spectrum,
            VizRoutine::Bars
        ]
    );
    assert!(is_cover_picture(PictureKind::CoverFront));
    assert!(is_cover_picture(PictureKind::CoverBack));
    assert!(!is_cover_picture(PictureKind::Other));
    assert_eq!(cover_file_names(), vec!["folder.jpg", "cover.jpg", "album.jpg", "Folder.jpg", "Cover.jpg"]);
}
