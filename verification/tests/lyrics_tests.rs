use volta_wave::lyrics::{
    current_lyric_index, lrc_line_from_captures, lrc_path_for, lyric_window_texts,
    lyrics_from_response, lyrics_search_url, parse_lrc, parse_lrc_line, LrcLine,
};

fn line(t: u64, s: &str) -> LrcLine {
    LrcLine { time_ms: t, text: s.to_string() }
}

#[test]
fn lrc_line_times_in_milliseconds() {
    assert_eq!(parse_lrc_line("[01:02.50]Hello"), Some((62500, "Hello".to_string())));
    assert_eq!(parse_lrc_line("[00:05]  spaced  "), Some((5000, "spaced".to_string())));
    assert_eq!(parse_lrc_line("[10:00.]x"), Some((600000, "x".to_string())));
    assert_eq!(parse_lrc_line("[00:01.23456]x"), Some((1235, "x".to_string())));
    assert_eq!(parse_lrc_line("[00:01.2340]x"), Some((1234, "x".to_string())));
    assert_eq!(parse_lrc_line("[00:01.0005]x"), Some((1001, "x".to_string())));
    assert_eq!(parse_lrc_line("intro [00:03.1]late tag"), Some((3100, "late tag".to_string())));
}

#[test]
fn lrc_lines_that_are_not_lyrics() {
    assert_eq!(parse_lrc_line("[ar:Artist]"), None);
    assert_eq!(parse_lrc_line("[00:01.00]"), None);
    assert_eq!(parse_lrc_line("[00:01.00]   "), None);
    assert_eq!(parse_lrc_line("plain text"), None);
    assert_eq!(parse_lrc_line(""), None);
}

#[test]
fn lrc_groups_to_line() {
    let g = vec![Some("[1:2]x".to_string()), Some("1".to_string()), Some("2".to_string()), Some(" x ".to_string())];
    assert_eq!(lrc_line_from_captures(&g), Some((62000, "x".to_string())));
    let missing = vec![Some("a".to_string()), None, Some("2".to_string()), Some("x".to_string())];
    assert_eq!(lrc_line_from_captures(&missing), None);
    let short = vec![Some("a".to_string())];
    assert_eq!(lrc_line_from_captures(&short), None);
    let huge = vec![None, Some("99999999999999999999".to_string()), Some("0".to_string()), Some("x".to_string())];
    assert_eq!(lrc_line_from_captures(&huge), Some((u64::MAX, "x".to_string())));
}

#[test]
fn lrc_file_sorted_by_time() {
    let content = "[ti:Song]\n[00:10.00]third\r\n[00:01.00]first\n[00:05.00]second\n[00:05.00]second bis\nnoise\n";
    let lyrics = parse_lrc(content);
    let got: Vec<(u64, &str)> = lyrics.iter().map(|l| (l.time_ms, l.text.as_str())).collect();
    assert_eq!(got, vec![(1000, "first"), (5000, "second"), (5000, "second bis"), (10000, "third")]);
}

#[test]
fn service_answer_prefers_synced_lyrics() {
    let synced = lyrics_from_response(Some("[00:02.00]b\n[00:01.00]a"), Some("plain"));
    assert_eq!(synced.iter().map(|l| l.text.as_str()).collect::<Vec<_>>(), vec!["a", "b"]);
    let plain = lyrics_from_response(Some(""), Some("one\n\n   \ntwo "));
    let got: Vec<(u64, &str)> = plain.iter().map(|l| (l.time_ms, l.text.as_str())).collect();
    assert_eq!(got, vec![(0, "one"), (5000, "two ")]);
    assert!(lyrics_from_response(None, Some("")).is_empty());
    assert!(lyrics_from_response(None, None).is_empty());
}

#[test]
fn current_line_is_latest_due() {
    let lyrics = vec![line(1000, "a"), line(2000, "b"), line(3000, "c")];
    assert_eq!(current_lyric_index(&lyrics, 0), 0);
    assert_eq!(current_lyric_index(&lyrics, 1000), 0);
    assert_eq!(current_lyric_index(&lyrics, 2500), 1);
    assert_eq!(current_lyric_index(&lyrics, 99999), 2);
    assert_eq!(
        lyric_window_texts(&lyrics, 2500),
        Some(("a".to_string(), "b".to_string(), "c".to_string()))
    );
    assert_eq!(
        lyric_window_texts(&lyrics, 0),
        Some(("".to_string(), "a".to_string(), "b".to_string()))
    );
    assert_eq!(
        lyric_window_texts(&lyrics, 5000),
        Some(("b".to_string(), "c".to_string(), "".to_string()))
    );
    assert_eq!(lyric_window_texts(&Vec::new(), 5), None);
}

#[test]
fn lrc_file_beside_audio_file() {
    assert_eq!(lrc_path_for("/music/A - B.mp3"), "/music/A - B.lrc");
    assert_eq!(lrc_path_for("/music/noext"), "/music/noext.lrc");
    assert_eq!(lrc_path_for("/mu.sic/noext"), "/mu.lrc");
}

#[test]
fn search_url_percent_encodes() {
    assert_eq!(
        lyrics_search_url("AC/DC", "Highway to Hell"),
        "https://lrclib.net/api/search?artist_name=AC%2FDC&track_name=Highway%20to%20Hell"
    );
    assert_eq!(
        lyrics_search_url("Björk", "a-b_c.d~e"),
        "https://lrclib.net/api/search?artist_name=Bj%C3%B6rk&track_name=a-b_c.d~e"
    );
}

#[test]
fn synced_lyrics_win_even_without_timed_lines() {
    assert!(lyrics_from_response(Some("no tags here"), Some("plain line")).is_empty());
}
