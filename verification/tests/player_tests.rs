use volta_wave::lyrics::LrcLine;
use volta_wave::player::{track_has_ended, PlayerState, RepeatMode, ViewMode};
use volta_wave::track::Track;

fn track(name: &str) -> Track {
    Track { path: format!("/m/{}.mp3", name), title: name.to_string(), artist: "A".to_string(), duration_secs: None }
}

fn player(n: usize) -> PlayerState {
    let mut p = PlayerState::new();
    p.set_tracks((0..n).map(|i| track(&i.to_string())).collect());
    p
}

#[test]
fn starts_idle() {
    let p = PlayerState::new();
    assert!(p.tracks.is_empty());
    assert_eq!(p.current_index, None);
    assert!(!p.is_playing);
    assert_eq!(p.current_theme, 0);
    assert_eq!(p.viz_mode, 0);
    assert_eq!(p.repeat_mode, RepeatMode::Off);
    assert_eq!(p.view_mode, ViewMode::Full);
    assert!(p.queue.is_empty());
}

#[test]
fn selecting_and_stepping() {
    let mut p = player(3);
    assert_eq!(p.select_track(5), None);
    assert_eq!(p.current_index, None);
    assert_eq!(p.skip_next(), None);
    assert_eq!(p.select_track(1), Some(1));
    assert_eq!(p.skip_next(), Some(2));
    assert_eq!(p.skip_next(), None);
    assert_eq!(p.current_index, Some(2));
    assert_eq!(p.previous_track(), Some(1));
    assert_eq!(p.previous_track(), Some(0));
    assert_eq!(p.previous_track(), Some(2));
}

#[test]
fn repeat_all_wraps_around() {
    let mut p = player(2);
    p.select_track(1);
    assert_eq!(p.cycle_repeat(), RepeatMode::All);
    assert_eq!(p.skip_next(), Some(0));
}

#[test]
fn repeat_one_replays_the_ended_track() {
    let mut p = player(3);
    p.select_track(0);
    p.cycle_repeat();
    assert_eq!(p.cycle_repeat(), RepeatMode::One);
    assert_eq!(p.on_progress(1000, 200000), None);
    assert_eq!(p.on_progress(199950, 200000), Some(0));
    assert_eq!(p.current_index, Some(0));
    p.enqueue(2);
    assert_eq!(p.on_progress(200000, 200000), Some(0));
    assert_eq!(p.queue.len(), 1);
    assert_eq!(p.skip_next(), Some(2));
    assert!(p.queue.is_empty());
    assert_eq!(p.skip_next(), None);
    p.select_track(1);
    assert_eq!(p.cycle_repeat(), RepeatMode::Off);
    assert_eq!(p.on_progress(200000, 200000), Some(2));
    assert_eq!(p.on_progress(200000, 200000), None);
}

#[test]
fn queue_plays_before_the_list() {
    let mut p = player(4);
    p.select_track(0);
    p.enqueue(3);
    p.enqueue(2);
    assert_eq!(p.skip_next(), Some(3));
    assert_eq!(p.on_progress(5000, 5000), Some(2));
    assert!(p.queue.is_empty());
    assert_eq!(p.skip_next(), Some(3));
    p.toggle_shuffle();
    p.enqueue(1);
    assert_eq!(p.skip_next(), Some(1));
    p.enqueue(9);
    assert_eq!(p.skip_next(), None);
    assert!(p.queue.is_empty());
    assert_eq!(p.current_index, Some(1));
    let mut idle = player(2);
    idle.enqueue(1);
    assert_eq!(idle.skip_next(), Some(1));
}

#[test]
fn track_end_detection() {
    assert!(!track_has_ended(0, 0));
    assert!(!track_has_ended(1000, 5000));
    assert!(track_has_ended(4900, 5000));
    assert!(track_has_ended(5000, 5000));
    assert!(!track_has_ended(0, 50));
    assert!(track_has_ended(u64::MAX, 50));
}

#[test]
fn shuffle_moves_to_another_track() {
    let mut p = player(4);
    p.select_track(2);
    assert!(p.toggle_shuffle());
    for _ in 0..50 {
        let before = p.current_index.unwrap();
        let next = p.skip_next().unwrap();
        assert!(next < 4);
        assert_ne!(next, before);
    }
    let mut single = player(1);
    single.select_track(0);
    single.toggle_shuffle();
    assert_eq!(single.skip_next(), Some(0));
}

#[test]
fn advance_with_given_draw() {
    let mut p = player(4);
    p.select_track(2);
    p.toggle_shuffle();
    assert_eq!(p.advance(2, false), Some(3));
    assert_eq!(p.advance(3, false), Some(0));
    assert_eq!(p.advance(1, true), Some(1));
}

#[test]
fn queue_operations() {
    let mut p = player(3);
    assert_eq!(p.enqueue(2), 1);
    assert_eq!(p.enqueue(0), 2);
    assert_eq!(p.enqueue(2), 3);
    assert_eq!(p.select_queue_entry(1), Some(0));
    assert_eq!(p.select_queue_entry(9), None);
    p.dequeue(2);
    assert_eq!(p.queue.iter().copied().collect::<Vec<_>>(), vec![0]);
    let i = p.play_track_next(3, track("x"));
    assert_eq!(i, 3);
    assert_eq!(p.tracks.len(), 4);
    let j = p.enqueue_track(4, track("y"));
    assert_eq!(j, 4);
    assert_eq!(p.queue.iter().copied().collect::<Vec<_>>(), vec![3, 0, 4]);
    let k = p.enqueue_track(1, track("1"));
    assert_eq!(k, 1);
    let m = p.play_track_next(3, track("x"));
    assert_eq!(m, 3);
    assert_eq!(p.tracks.len(), 5);
    assert_eq!(p.queue.iter().copied().collect::<Vec<_>>(), vec![3, 3, 0, 4, 1]);
    p.clear_queue();
    assert!(p.queue.is_empty());
}

#[test]
fn menu_queues_the_clicked_row() {
    let mut p = PlayerState::new();
    p.set_tracks(vec![track("a"), track("b"), track("a")]);
    assert_eq!(p.enqueue_track(2, track("a")), 2);
    assert_eq!(p.tracks.len(), 3);
    assert_eq!(p.play_track_next(2, track("a")), 2);
    // The row holds another track: the track's first place is queued.
    assert_eq!(p.enqueue_track(1, track("a")), 0);
    assert_eq!(p.tracks.len(), 3);
    assert_eq!(p.queue.iter().copied().collect::<Vec<_>>(), vec![2, 2, 0]);
}

#[test]
fn removing_tracks_keeps_current_on_its_track() {
    let mut p = player(4);
    p.select_track(2);
    p.remove_track(0, false);
    assert_eq!(p.current_index, Some(1));
    assert_eq!(p.tracks[1].title, "2");
    p.remove_track(1, false);
    assert_eq!(p.current_index, Some(1));
    p.remove_track(1, true);
    assert_eq!(p.current_index, None);
    assert_eq!(p.tracks.len(), 1);
}

#[test]
fn toggles_and_cycles() {
    let mut p = PlayerState::new();
    assert!(p.toggle_playing());
    assert!(!p.toggle_playing());
    for k in 1..=6 {
        assert_eq!(p.cycle_viz_mode(), k % 6);
    }
    for k in 1..=8 {
        assert_eq!(p.cycle_theme(), k % 8);
    }
    p.set_theme(4);
    assert_eq!(p.current_theme, 4);
    assert_eq!(p.toggle_view_mode(1200, 800), ViewMode::Mini);
    assert_eq!((p.window_x, p.window_y), (1200, 800));
    assert_eq!(p.toggle_view_mode(400, 150), ViewMode::Full);
    assert_eq!((p.window_x, p.window_y), (1200, 800));
    assert_eq!(p.cycle_repeat(), RepeatMode::All);
    assert_eq!(p.cycle_repeat(), RepeatMode::One);
    assert_eq!(p.cycle_repeat(), RepeatMode::Off);
}

#[test]
fn lyrics_kept_up_to_limit() {
    let mut p = PlayerState::new();
    let many: Vec<LrcLine> = (0..250).map(|i| LrcLine { time_ms: i * 10, text: i.to_string() }).collect();
    assert!(!p.set_lyrics(many));
    assert_eq!(p.lyrics.len(), 200);
    assert_eq!(p.lyric_display(25), Some(("1".to_string(), "2".to_string(), "3".to_string())));
    assert!(p.set_lyrics(Vec::new()));
    assert_eq!(p.lyric_display(25), None);
}

#[test]
fn previous_undoes_next_and_back() {
    let mut p = player(3);
    p.cycle_repeat();
    for start in 0..3 {
        p.select_track(start);
        let n = p.skip_next().unwrap();
        assert_eq!(p.previous_track(), Some(start));
        p.select_track(start);
        p.previous_track();
        assert_eq!(p.skip_next(), Some(start));
        assert_eq!(n, (start + 1) % 3);
    }
}

#[test]
fn removing_the_playing_track_stops_playback() {
    let mut p = player(3);
    p.select_track(1);
    p.mark_playing();
    p.remove_track(0, false);
    assert!(p.is_playing);
    assert_eq!(p.current_index, Some(0));
    p.remove_track(0, true);
    assert_eq!(p.current_index, None);
    assert!(!p.is_playing);
}

#[test]
fn mode_clicks_in_any_order() {
    let mut p = PlayerState::new();
    p.cycle_repeat();
    p.cycle_viz_mode();
    p.toggle_shuffle();
    p.cycle_viz_mode();
    p.cycle_repeat();
    p.toggle_shuffle();
    p.cycle_viz_mode();
    p.toggle_shuffle();
    p.cycle_viz_mode();
    p.cycle_viz_mode();
    p.cycle_viz_mode();
    p.cycle_viz_mode();
    // Two repeat clicks, three shuffle clicks, seven visualization clicks.
    assert_eq!(p.repeat_mode, RepeatMode::One);
    assert!(p.shuffle_mode);
    assert_eq!(p.viz_mode, 7 % 6);
}
