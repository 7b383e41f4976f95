use vstd::prelude::*;

use std::collections::VecDeque;

use crate::bindings::random_below;
use crate::lyrics::{LrcLine, lyric_views, lyric_window, lyric_window_texts};
use crate::track::{Track, TrackView, find_track, same_track, track_index_of, track_views};

verus! {

/// How playback goes on at the end of the track list or of a track.
#[derive(Clone, Copy, Debug, PartialEq, Eq, Structural)]
pub enum RepeatMode {
    Off,
    One,
    All,
}

/// The window's layout.
#[derive(Clone, Copy, Debug, PartialEq, Eq, Structural)]
pub enum ViewMode {
    Full,
    Mini,
}

/// The number of colour themes.
pub const THEME_COUNT: usize = 8;

/// The number of visualization modes.
pub const VIZ_MODE_COUNT: usize = 6;

/// The most lyric lines kept for a track.
pub const MAX_LYRIC_LINES: usize = 200;

/// The player's state: the library, what plays, the play queue and the
/// display settings.
pub struct PlayerState {
    pub tracks: Vec<Track>,
    pub current_index: Option<usize>,
    pub lyrics: Vec<LrcLine>,
    pub is_playing: bool,
    pub current_theme: usize,
    pub viz_mode: usize,
    pub shuffle_mode: bool,
    pub repeat_mode: RepeatMode,
    pub queue: VecDeque<usize>,
    pub view_mode: ViewMode,
    pub window_x: i32,
    pub window_y: i32,
}

/// The repeat mode after the repeat button: Off, then All, then One, then Off.
pub open spec fn next_repeat(m: RepeatMode) -> RepeatMode {
    match m {
        RepeatMode::Off => RepeatMode::All,
        RepeatMode::All => RepeatMode::One,
        RepeatMode::One => RepeatMode::Off,
    }
}

/// The track picked at random in shuffle mode: the drawn index, moved on by
/// one (cyclically) when it is the current track and there are others.
pub open spec fn shuffle_pick(idx: usize, len: nat, draw: usize) -> usize {
    if draw == idx && len > 1 {
        ((draw + 1) % (len as int)) as usize
    } else {
        draw
    }
}

/// The index that "next" goes to from the current track, before the queue
/// and the library are consulted: when a track has ended and repeat is One,
/// the same track; else in shuffle mode the shuffle pick; else the following
/// track, or the first one when the list repeats; else nothing.
pub open spec fn next_choice(
    current: Option<usize>,
    len: nat,
    shuffle: bool,
    repeat: RepeatMode,
    draw: usize,
    at_track_end: bool,
) -> Option<usize> {
    match current {
        None => None,
        Some(idx) => if at_track_end && repeat == RepeatMode::One {
            Some(idx)
        } else if shuffle {
            Some(shuffle_pick(idx, len, draw))
        } else if idx + 1 < len {
            Some((idx + 1) as usize)
        } else if repeat == RepeatMode::All {
            Some(0)
        } else {
            None
        },
    }
}

/// Whether the play queue decides what comes next: it does whenever it holds
/// an entry, except that a track that has ended under repeat One plays again.
pub open spec fn queue_decides(
    queue: Seq<usize>,
    current: Option<usize>,
    repeat: RepeatMode,
    at_track_end: bool,
) -> bool {
    queue.len() > 0 && !(at_track_end && repeat == RepeatMode::One && current is Some)
}

/// What "next" plays and the queue it leaves: when the queue decides, its
/// front entry (if it names a track of the library), with the front taken
/// off the queue; otherwise `next_choice`, with the queue unchanged.
pub open spec fn next_step(
    queue: Seq<usize>,
    current: Option<usize>,
    len: nat,
    shuffle: bool,
    repeat: RepeatMode,
    draw: usize,
    at_track_end: bool,
) -> (Option<usize>, Seq<usize>) {
    if queue_decides(queue, current, repeat, at_track_end) {
        (playable(Some(queue[0]), len), queue.drop_first())
    } else {
        (playable(next_choice(current, len, shuffle, repeat, draw, at_track_end), len), queue)
    }
}

/// The library index that a track opened on row `row` stands for: the row
/// when it holds the track, else the track's first place in the library
/// (`tracks.len()` when it is not there).
pub open spec fn track_slot(tracks: Seq<TrackView>, row: int, t: TrackView) -> int {
    if 0 <= row < tracks.len() && tracks[row] == t {
        row
    } else {
        track_index_of(tracks, t)
    }
}

/// Whether "next" needs a random draw: in shuffle mode, with a current track,
/// when neither the queue nor a repeated track decides.
pub open spec fn needs_draw(
    queue: Seq<usize>,
    current: Option<usize>,
    shuffle: bool,
    repeat: RepeatMode,
    at_track_end: bool,
) -> bool {
    &&& shuffle
    &&& current is Some
    &&& !queue_decides(queue, current, repeat, at_track_end)
    &&& !(at_track_end && repeat == RepeatMode::One)
}

/// The index that "previous" goes to: the track before, or from the first
/// track the last one (`len - 1` wrapping as `usize` arithmetic wraps when
/// the list is empty).
pub open spec fn previous_choice(current: Option<usize>, len: nat) -> Option<usize> {
    match current {
        None => None,
        Some(idx) => if idx > 0 {
            Some((idx - 1) as usize)
        } else if len > 0 {
            Some((len - 1) as usize)
        } else {
            Some(usize::MAX)
        },
    }
}

/// A choice is taken only when it names a track of the library.
pub open spec fn playable(choice: Option<usize>, len: nat) -> Option<usize> {
    match choice {
        Some(i) => if i < len {
            Some(i)
        } else {
            None
        },
        None => None,
    }
}

/// Whether a playing track has reached its end: it has a duration and the
/// position is within 100 ms of it (`duration - 100` wraps as `u64`
/// arithmetic wraps for durations under 100 ms).
pub open spec fn is_track_end(position_ms: u64, duration_ms: u64) -> bool {
    duration_ms > 0 && position_ms as int >= (if duration_ms >= 100 {
        duration_ms - 100
    } else {
        duration_ms + 0x1_0000_0000_0000_0000 - 100
    })
}

/// Decides `is_track_end`.
pub fn track_has_ended(position_ms: u64, duration_ms: u64) -> (b: bool)
    ensures
        b == is_track_end(position_ms, duration_ms),
{
    duration_ms > 0 && position_ms >= duration_ms.wrapping_sub(100)
}

/// The index the current track moves to when the track at `removed` is taken
/// from the list; `clear_if_current` says whether removing the current track
/// leaves nothing current.
pub open spec fn current_after_removal(
    current: Option<usize>,
    removed: usize,
    clear_if_current: bool,
) -> Option<usize> {
    match current {
        Some(c) => if c > removed {
            Some((c - 1) as usize)
        } else if c == removed && clear_if_current {
            None
        } else {
            Some(c)
        },
        None => None,
    }
}

/// `s` without the entries equal to `x`, order kept.
pub open spec fn without(s: Seq<usize>, x: usize) -> Seq<usize>
    decreases s.len(),
{
    if s.len() == 0 {
        seq![]
    } else {
        let rest = without(s.drop_last(), x);
        if s.last() == x {
            rest
        } else {
            rest.push(s.last())
        }
    }
}

impl PlayerState {
    /// The settings stay in range: a valid theme and visualization mode, and
    /// at most `MAX_LYRIC_LINES` lyric lines.
    pub open spec fn wf(&self) -> bool {
        &&& self.current_theme < THEME_COUNT
        &&& self.viz_mode < VIZ_MODE_COUNT
        &&& self.lyrics.len() <= MAX_LYRIC_LINES
    }

    /// The repeat mode, shuffle setting and visualization mode, the state
    /// that the three mode buttons change.
    pub open spec fn modes(&self) -> (RepeatMode, bool, int) {
        (self.repeat_mode, self.shuffle_mode, self.viz_mode as int)
    }

    /// Everything but the library and what plays is as in `other`.
    pub open spec fn same_settings(&self, other: &PlayerState) -> bool {
        &&& self.lyrics@ == other.lyrics@
        &&& self.current_theme == other.current_theme
        &&& self.viz_mode == other.viz_mode
        &&& self.shuffle_mode == other.shuffle_mode
        &&& self.repeat_mode == other.repeat_mode
        &&& self.view_mode == other.view_mode
        &&& self.window_x == other.window_x
        &&& self.window_y == other.window_y
    }

    /// Everything but `current_index` and `is_playing` is as in `other`.
    pub open spec fn same_but_playback(&self, other: &PlayerState) -> bool {
        &&& self.same_settings(other)
        &&& self.tracks@ == other.tracks@
        &&& self.queue@ == other.queue@
    }

    /// The player as it starts: no tracks, nothing playing, the first theme,
    /// the bar visualization, no shuffle or repeat, an empty queue, the full
    /// view.
    pub fn new() -> (s: PlayerState)
        ensures
            s.wf(),
            s.tracks@.len() == 0,
            s.current_index is None,
            s.lyrics@.len() == 0,
            !s.is_playing,
            s.current_theme == 0,
            s.viz_mode == 0,
            !s.shuffle_mode,
            s.repeat_mode == RepeatMode::Off,
            s.queue@.len() == 0,
            s.view_mode == ViewMode::Full,
            s.window_x == 0,
            s.window_y == 0,
    {
        PlayerState {
            tracks: Vec::new(),
            current_index: None,
            lyrics: Vec::new(),
            is_playing: false,
            current_theme: 0,
            viz_mode: 0,
            shuffle_mode: false,
            repeat_mode: RepeatMode::Off,
            queue: VecDeque::new(),
            view_mode: ViewMode::Full,
            window_x: 0,
            window_y: 0,
        }
    }

    /// Replaces the library (a scan or a loaded playlist). What plays and the
    /// queue are left as they are.
    pub fn set_tracks(&mut self, tracks: Vec<Track>)
        requires
            old(self).wf(),
        ensures
            final(self).wf(),
            final(self).tracks@ == tracks@,
            final(self).same_settings(old(self)),
            final(self).current_index == old(self).current_index,
            final(self).is_playing == old(self).is_playing,
            final(self).queue@ == old(self).queue@,
    {
        self.tracks = tracks;
    }

    /// The number of tracks in the library.
    pub fn track_count(&self) -> (n: usize)
        ensures
            n == self.tracks.len(),
    {
        self.tracks.len()
    }

    /// Playback started: the player is playing.
    pub fn mark_playing(&mut self)
        requires
            old(self).wf(),
        ensures
            final(self).wf(),
            final(self).is_playing,
            final(self).current_index == old(self).current_index,
            final(self).same_but_playback(old(self)),
    {
        self.is_playing = true;
    }

    /// The play/pause button: flips between playing and paused, and gives the
    /// new state.
    pub fn toggle_playing(&mut self) -> (playing: bool)
        requires
            old(self).wf(),
        ensures
            final(self).wf(),
            playing == !old(self).is_playing,
            final(self).is_playing == playing,
            final(self).current_index == old(self).current_index,
            final(self).same_but_playback(old(self)),
    {
        self.is_playing = !self.is_playing;
        self.is_playing
    }

    /// Makes the track at `index` current when it is in the library, and
    /// gives it back to be played.
    pub fn select_track(&mut self, index: usize) -> (r: Option<usize>)
        requires
            old(self).wf(),
        ensures
            final(self).wf(),
            final(self).same_but_playback(old(self)),
            final(self).is_playing == old(self).is_playing,
            r == playable(Some(index), old(self).tracks@.len()),
            final(self).current_index == (if r is Some {
                r
            } else {
                old(self).current_index
            }),
    {
        if index < self.tracks.len() {
            self.current_index = Some(index);
            Some(index)
        } else {
            None
        }
    }

    /// Plays the queue entry at `row`: the track it names becomes current
    /// when it is in the library. The queue keeps the entry.
    pub fn select_queue_entry(&mut self, row: usize) -> (r: Option<usize>)
        requires
            old(self).wf(),
        ensures
            final(self).wf(),
            final(self).same_but_playback(old(self)),
            final(self).is_playing == old(self).is_playing,
            r == (if row < old(self).queue@.len() {
                playable(Some(old(self).queue@[row as int]), old(self).tracks@.len())
            } else {
                None
            }),
            final(self).current_index == (if r is Some {
                r
            } else {
                old(self).current_index
            }),
    {
        if row < self.queue.len() {
            let idx = self.queue[row];
            self.select_track(idx)
        } else {
            None
        }
    }

    /// The previous button: goes to the track before the current one, from
    /// the first to the last.
    pub fn previous_track(&mut self) -> (r: Option<usize>)
        requires
            old(self).wf(),
        ensures
            final(self).wf(),
            final(self).same_but_playback(old(self)),
            final(self).is_playing == old(self).is_playing,
            r == playable(
                previous_choice(old(self).current_index, old(self).tracks@.len()),
                old(self).tracks@.len(),
            ),
            final(self).current_index == (if r is Some {
                r
            } else {
                old(self).current_index
            }),
    {
        match self.current_index {
            None => None,
            Some(idx) => {
                let target = if idx > 0 {
                    idx - 1
                } else if self.tracks.len() > 0 {
                    self.tracks.len() - 1
                } else {
                    usize::MAX
                };
                self.select_track(target)
            },
        }
    }

    /// Where "next" goes from here for a given random draw (used in shuffle
    /// mode), before the queue and the library are consulted.
    pub fn next_choice_for(&self, draw: usize, at_track_end: bool) -> (r: Option<usize>)
        requires
            self.shuffle_mode && self.current_index is Some && !(at_track_end && self.repeat_mode
                == RepeatMode::One) ==> draw < self.tracks.len(),
        ensures
            r == next_choice(
                self.current_index,
                self.tracks@.len(),
                self.shuffle_mode,
                self.repeat_mode,
                draw,
                at_track_end,
            ),
    {
        let len = self.tracks.len();
        match self.current_index {
            None => None,
            Some(idx) => {
                if at_track_end && self.repeat_mode == RepeatMode::One {
                    Some(idx)
                } else if self.shuffle_mode {
                    if draw == idx && len > 1 {
                        Some((draw + 1) % len)
                    } else {
                        Some(draw)
                    }
                } else if len > 0 && idx < len - 1 {
                    Some(idx + 1)
                } else if self.repeat_mode == RepeatMode::All {
                    Some(0)
                } else {
                    None
                }
            },
        }
    }

    /// Moves to the next track for a given random draw: the queue's front
    /// when the queue decides (taken off the queue), else `next_choice`; the
    /// choice is made current when it is in the library, and given back to be
    /// played.
    pub fn advance(&mut self, draw: usize, at_track_end: bool) -> (r: Option<usize>)
        requires
            old(self).wf(),
            needs_draw(
                old(self).queue@,
                old(self).current_index,
                old(self).shuffle_mode,
                old(self).repeat_mode,
                at_track_end,
            ) ==> draw < old(self).tracks.len(),
        ensures
            final(self).wf(),
            final(self).same_settings(old(self)),
            final(self).tracks@ == old(self).tracks@,
            final(self).is_playing == old(self).is_playing,
            (r, final(self).queue@) == next_step(
                old(self).queue@,
                old(self).current_index,
                old(self).tracks@.len(),
                old(self).shuffle_mode,
                old(self).repeat_mode,
                draw,
                at_track_end,
            ),
            final(self).current_index == (if r is Some {
                r
            } else {
                old(self).current_index
            }),
    {
        let decides = self.queue.len() > 0 && !(at_track_end && self.repeat_mode == RepeatMode::One
            && self.current_index.is_some());
        if decides {
            let front = self.queue.pop_front().unwrap();
            self.select_track(front)
        } else {
            match self.next_choice_for(draw, at_track_end) {
                Some(i) => self.select_track(i),
                None => None,
            }
        }
    }

    /// The random draw that "next" needs: a random index when `needs_draw`,
    /// else 0 (unused).
    fn draw_for_next(&self, at_track_end: bool) -> (d: usize)
        requires
            needs_draw(
                self.queue@,
                self.current_index,
                self.shuffle_mode,
                self.repeat_mode,
                at_track_end,
            ) ==> self.tracks.len() > 0,
        ensures
            needs_draw(
                self.queue@,
                self.current_index,
                self.shuffle_mode,
                self.repeat_mode,
                at_track_end,
            ) ==> d < self.tracks.len(),
            !needs_draw(
                self.queue@,
                self.current_index,
                self.shuffle_mode,
                self.repeat_mode,
                at_track_end,
            ) ==> d == 0,
    {
        let decides = self.queue.len() > 0 && !(at_track_end && self.repeat_mode == RepeatMode::One
            && self.current_index.is_some());
        if self.shuffle_mode && self.current_index.is_some() && !decides && !(at_track_end
            && self.repeat_mode == RepeatMode::One) {
            random_below(self.tracks.len())
        } else {
            0
        }
    }

    /// The next button. The queue's front plays first (and leaves the
    /// queue); without a queue, in shuffle mode the next track is drawn at
    /// random (never the current one when there are others), otherwise as
    /// `next_choice` says.
    pub fn skip_next(&mut self) -> (r: Option<usize>)
        requires
            old(self).wf(),
            needs_draw(
                old(self).queue@,
                old(self).current_index,
                old(self).shuffle_mode,
                old(self).repeat_mode,
                false,
            ) ==> old(self).tracks.len() > 0,
        ensures
            final(self).wf(),
            final(self).same_settings(old(self)),
            final(self).tracks@ == old(self).tracks@,
            final(self).is_playing == old(self).is_playing,
            exists|draw: usize|
                (needs_draw(
                    old(self).queue@,
                    old(self).current_index,
                    old(self).shuffle_mode,
                    old(self).repeat_mode,
                    false,
                ) ==> draw < old(self).tracks.len()) && (r, final(self).queue@) == #[trigger] next_step(
                    old(self).queue@,
                    old(self).current_index,
                    old(self).tracks@.len(),
                    old(self).shuffle_mode,
                    old(self).repeat_mode,
                    draw,
                    false,
                ),
            !needs_draw(
                old(self).queue@,
                old(self).current_index,
                old(self).shuffle_mode,
                old(self).repeat_mode,
                false,
            ) ==> (r, final(self).queue@) == next_step(
                old(self).queue@,
                old(self).current_index,
                old(self).tracks@.len(),
                old(self).shuffle_mode,
                old(self).repeat_mode,
                0,
                false,
            ),
            final(self).current_index == (if r is Some {
                r
            } else {
                old(self).current_index
            }),
    {
        let draw = self.draw_for_next(false);
        self.advance(draw, false)
    }

    /// The progress timer: when the playing track has ended and a track is
    /// current, moves on as `next_step` says for a track end (under repeat
    /// One the same track plays again; otherwise the queue's front first);
    /// the drawn index is random in shuffle mode.
    pub fn on_progress(&mut self, position_ms: u64, duration_ms: u64) -> (r: Option<usize>)
        requires
            old(self).wf(),
            is_track_end(position_ms, duration_ms) && old(self).current_index is Some && needs_draw(
                old(self).queue@,
                old(self).current_index,
                old(self).shuffle_mode,
                old(self).repeat_mode,
                true,
            ) ==> old(self).tracks.len() > 0,
        ensures
            final(self).wf(),
            final(self).same_settings(old(self)),
            final(self).tracks@ == old(self).tracks@,
            final(self).is_playing == old(self).is_playing,
            !(is_track_end(position_ms, duration_ms) && old(self).current_index is Some) ==> r is None
                && final(self).current_index == old(self).current_index && final(self).queue@
                == old(self).queue@,
            is_track_end(position_ms, duration_ms) && old(self).current_index is Some ==> exists|
                draw: usize,
            |
                (needs_draw(
                    old(self).queue@,
                    old(self).current_index,
                    old(self).shuffle_mode,
                    old(self).repeat_mode,
                    true,
                ) ==> draw < old(self).tracks.len()) && (r, final(self).queue@) == #[trigger] next_step(
                    old(self).queue@,
                    old(self).current_index,
                    old(self).tracks@.len(),
                    old(self).shuffle_mode,
                    old(self).repeat_mode,
                    draw,
                    true,
                ),
            is_track_end(position_ms, duration_ms) && old(self).current_index is Some && !needs_draw(
                old(self).queue@,
                old(self).current_index,
                old(self).shuffle_mode,
                old(self).repeat_mode,
                true,
            ) ==> (r, final(self).queue@) == next_step(
                old(self).queue@,
                old(self).current_index,
                old(self).tracks@.len(),
                old(self).shuffle_mode,
                old(self).repeat_mode,
                0,
                true,
            ),
            final(self).current_index == (if r is Some {
                r
            } else {
                old(self).current_index
            }),
    {
        if !track_has_ended(position_ms, duration_ms) || self.current_index.is_none() {
            return None;
        }
        let draw = self.draw_for_next(true);
        self.advance(draw, true)
    }

    /// The shuffle button: flips shuffle mode and gives the new setting.
    pub fn toggle_shuffle(&mut self) -> (on: bool)
        requires
            old(self).wf(),
        ensures
            final(self).wf(),
            on == !old(self).shuffle_mode,
            final(self).modes() == click_step(old(self).modes(), ModeClick::Shuffle),
            final(self).shuffle_mode == on,
            final(self).tracks@ == old(self).tracks@,
            final(self).queue@ == old(self).queue@,
            final(self).current_index == old(self).current_index,
            final(self).is_playing == old(self).is_playing,
            final(self).repeat_mode == old(self).repeat_mode,
            final(self).current_theme == old(self).current_theme,
            final(self).viz_mode == old(self).viz_mode,
            final(self).view_mode == old(self).view_mode,
            final(self).lyrics@ == old(self).lyrics@,
            final(self).window_x == old(self).window_x,
            final(self).window_y == old(self).window_y,
    {
        self.shuffle_mode = !self.shuffle_mode;
        self.shuffle_mode
    }

    /// The repeat button: Off, All, One, Off, ...; gives the new mode.
    pub fn cycle_repeat(&mut self) -> (m: RepeatMode)
        requires
            old(self).wf(),
        ensures
            final(self).wf(),
            m == next_repeat(old(self).repeat_mode),
            final(self).modes() == click_step(old(self).modes(), ModeClick::Repeat),
            final(self).repeat_mode == m,
            final(self).tracks@ == old(self).tracks@,
            final(self).queue@ == old(self).queue@,
            final(self).current_index == old(self).current_index,
            final(self).is_playing == old(self).is_playing,
            final(self).shuffle_mode == old(self).shuffle_mode,
            final(self).current_theme == old(self).current_theme,
            final(self).viz_mode == old(self).viz_mode,
            final(self).view_mode == old(self).view_mode,
            final(self).lyrics@ == old(self).lyrics@,
            final(self).window_x == old(self).window_x,
            final(self).window_y == old(self).window_y,
    {
        self.repeat_mode = match self.repeat_mode {
            RepeatMode::Off => RepeatMode::All,
            RepeatMode::All => RepeatMode::One,
            RepeatMode::One => RepeatMode::Off,
        };
        self.repeat_mode
    }

    /// The visualization button (or the `v` key): the next of the six
    /// modes, cyclically; gives the new mode.
    pub fn cycle_viz_mode(&mut self) -> (m: usize)
        requires
            old(self).wf(),
        ensures
            final(self).wf(),
            m == (old(self).viz_mode + 1) % (VIZ_MODE_COUNT as int),
            final(self).modes() == click_step(old(self).modes(), ModeClick::Visualization),
            final(self).viz_mode == m,
            final(self).tracks@ == old(self).tracks@,
            final(self).queue@ == old(self).queue@,
            final(self).current_index == old(self).current_index,
            final(self).is_playing == old(self).is_playing,
            final(self).shuffle_mode == old(self).shuffle_mode,
            final(self).repeat_mode == old(self).repeat_mode,
            final(self).current_theme == old(self).current_theme,
            final(self).view_mode == old(self).view_mode,
            final(self).lyrics@ == old(self).lyrics@,
            final(self).window_x == old(self).window_x,
            final(self).window_y == old(self).window_y,
    {
        self.viz_mode = (self.viz_mode + 1) % VIZ_MODE_COUNT;
        self.viz_mode
    }

    /// The `t` key: the next of the colour themes, cyclically; gives it.
    pub fn cycle_theme(&mut self) -> (t: usize)
        requires
            old(self).wf(),
        ensures
            final(self).wf(),
            t == (old(self).current_theme + 1) % (THEME_COUNT as int),
            final(self).current_theme == t,
            final(self).tracks@ == old(self).tracks@,
            final(self).queue@ == old(self).queue@,
            final(self).current_index == old(self).current_index,
            final(self).is_playing == old(self).is_playing,
            final(self).shuffle_mode == old(self).shuffle_mode,
            final(self).repeat_mode == old(self).repeat_mode,
            final(self).viz_mode == old(self).viz_mode,
            final(self).view_mode == old(self).view_mode,
            final(self).lyrics@ == old(self).lyrics@,
            final(self).window_x == old(self).window_x,
            final(self).window_y == old(self).window_y,
    {
        self.current_theme = (self.current_theme + 1) % THEME_COUNT;
        self.current_theme
    }

    /// A theme button: makes theme `index` current.
    pub fn set_theme(&mut self, index: usize)
        requires
            old(self).wf(),
            index < THEME_COUNT,
        ensures
            final(self).wf(),
            final(self).current_theme == index,
            final(self).tracks@ == old(self).tracks@,
            final(self).queue@ == old(self).queue@,
            final(self).current_index == old(self).current_index,
            final(self).is_playing == old(self).is_playing,
            final(self).shuffle_mode == old(self).shuffle_mode,
            final(self).repeat_mode == old(self).repeat_mode,
            final(self).viz_mode == old(self).viz_mode,
            final(self).view_mode == old(self).view_mode,
            final(self).lyrics@ == old(self).lyrics@,
            final(self).window_x == old(self).window_x,
            final(self).window_y == old(self).window_y,
    {
        self.current_theme = index;
    }

    /// The mini-view button (or the `d` key): from the full view to the mini
    /// view, keeping the window's size from before, and back; gives the new
    /// view.
    pub fn toggle_view_mode(&mut self, width: i32, height: i32) -> (v: ViewMode)
        requires
            old(self).wf(),
        ensures
            final(self).wf(),
            v == (if old(self).view_mode == ViewMode::Full {
                ViewMode::Mini
            } else {
                ViewMode::Full
            }),
            final(self).view_mode == v,
            old(self).view_mode == ViewMode::Full ==> final(self).window_x == width && final(self).window_y == height,
            old(self).view_mode == ViewMode::Mini ==> final(self).window_x == old(self).window_x
                && final(self).window_y == old(self).window_y,
            final(self).tracks@ == old(self).tracks@,
            final(self).queue@ == old(self).queue@,
            final(self).current_index == old(self).current_index,
            final(self).is_playing == old(self).is_playing,
            final(self).shuffle_mode == old(self).shuffle_mode,
            final(self).repeat_mode == old(self).repeat_mode,
            final(self).current_theme == old(self).current_theme,
            final(self).viz_mode == old(self).viz_mode,
            final(self).lyrics@ == old(self).lyrics@,
    {
        match self.view_mode {
            ViewMode::Full => {
                self.view_mode = ViewMode::Mini;
                self.window_x = width;
                self.window_y = height;
            },
            ViewMode::Mini => {
                self.view_mode = ViewMode::Full;
            },
        }
        self.view_mode
    }

    /// A row's add button: appends the track index to the queue and gives the
    /// queue's new length.
    pub fn enqueue(&mut self, index: usize) -> (n: usize)
        requires
            old(self).wf(),
        ensures
            final(self).wf(),
            final(self).queue@ == old(self).queue@.push(index),
            n == final(self).queue@.len(),
            final(self).tracks@ == old(self).tracks@,
            final(self).current_index == old(self).current_index,
            final(self).is_playing == old(self).is_playing,
            final(self).same_settings(old(self)),
    {
        self.queue.push_back(index);
        self.queue.len()
    }

    /// The context menu's "Add to Queue", opened on library row `row` for
    /// `track`: queues the row when it holds the track, else the track's
    /// first place in the library, adding the track at the end of the library
    /// only when it is not there at all; gives the queued index.
    pub fn enqueue_track(&mut self, row: usize, track: Track) -> (i: usize)
        requires
            old(self).wf(),
        ensures
            final(self).wf(),
            i == track_slot(track_views(old(self).tracks@), row as int, track@),
            i < old(self).tracks@.len() ==> final(self).tracks@ == old(self).tracks@,
            i >= old(self).tracks@.len() ==> i == old(self).tracks@.len() && final(self).tracks@
                == old(self).tracks@.push(track),
            final(self).queue@ == old(self).queue@.push(i),
            final(self).current_index == old(self).current_index,
            final(self).is_playing == old(self).is_playing,
            final(self).same_settings(old(self)),
    {
        let i = self.place_track(row, track);
        self.queue.push_back(i);
        i
    }

    /// The context menu's "Play Next", opened on library row `row` for
    /// `track`: puts the row (when it holds the track, else the track's first
    /// place in the library) at the front of the queue, adding the track at
    /// the end of the library only when it is not there at all; gives the
    /// queued index.
    pub fn play_track_next(&mut self, row: usize, track: Track) -> (i: usize)
        requires
            old(self).wf(),
        ensures
            final(self).wf(),
            i == track_slot(track_views(old(self).tracks@), row as int, track@),
            i < old(self).tracks@.len() ==> final(self).tracks@ == old(self).tracks@,
            i >= old(self).tracks@.len() ==> i == old(self).tracks@.len() && final(self).tracks@
                == old(self).tracks@.push(track),
            final(self).queue@ == seq![i] + old(self).queue@,
            final(self).current_index == old(self).current_index,
            final(self).is_playing == old(self).is_playing,
            final(self).same_settings(old(self)),
    {
        let i = self.place_track(row, track);
        self.queue.push_front(i);
        i
    }

    /// The index that stands for `track` opened on row `row`: the row when it
    /// holds the track, else the track's first place in the library, else a
    /// new place at the end, where the track is added.
    fn place_track(&mut self, row: usize, track: Track) -> (i: usize)
        requires
            old(self).wf(),
        ensures
            final(self).wf(),
            i == track_slot(track_views(old(self).tracks@), row as int, track@),
            i < old(self).tracks@.len() ==> final(self).tracks@ == old(self).tracks@,
            i >= old(self).tracks@.len() ==> i == old(self).tracks@.len() && final(self).tracks@
                == old(self).tracks@.push(track),
            final(self).queue@ == old(self).queue@,
            final(self).current_index == old(self).current_index,
            final(self).is_playing == old(self).is_playing,
            final(self).same_settings(old(self)),
    {
        if row < self.tracks.len() && same_track(&self.tracks[row], &track) {
            proof {
                assert(track_views(self.tracks@)[row as int] == self.tracks@[row as int]@);
            }
            return row;
        }
        proof {
            if row < self.tracks.len() {
                assert(track_views(self.tracks@)[row as int] == self.tracks@[row as int]@);
            }
        }
        let p = find_track(&self.tracks, &track);
        if p < self.tracks.len() {
            p
        } else {
            let i = self.tracks.len();
            self.tracks.push(track);
            i
        }
    }

    /// A queue row's remove button: takes every entry for the track index out
    /// of the queue.
    pub fn dequeue(&mut self, index: usize)
        requires
            old(self).wf(),
        ensures
            final(self).wf(),
            final(self).queue@ == without(old(self).queue@, index),
            final(self).tracks@ == old(self).tracks@,
            final(self).current_index == old(self).current_index,
            final(self).is_playing == old(self).is_playing,
            final(self).same_settings(old(self)),
    {
        let mut kept: VecDeque<usize> = VecDeque::new();
        let n = self.queue.len();
        for i in 0..n
            invariant
                n == self.queue@.len(),
                kept@ == without(self.queue@.take(i as int), index),
        {
            proof {
                assert(self.queue@.take(i + 1).drop_last() =~= self.queue@.take(i as int));
            }
            let x = self.queue[i];
            if x != index {
                kept.push_back(x);
            }
        }
        proof {
            assert(self.queue@.take(n as int) =~= self.queue@);
        }
        self.queue = kept;
    }

    /// The clear-queue button.
    pub fn clear_queue(&mut self)
        requires
            old(self).wf(),
        ensures
            final(self).wf(),
            final(self).queue@.len() == 0,
            final(self).tracks@ == old(self).tracks@,
            final(self).current_index == old(self).current_index,
            final(self).is_playing == old(self).is_playing,
            final(self).same_settings(old(self)),
    {
        self.queue.clear();
    }

    /// The context menu's remove: takes the track at `index` out of the
    /// library. A later current track moves down with it; when the removed
    /// track is the current one and `clear_if_current` (the confirmed removal
    /// of the current track), nothing is current afterwards and playback
    /// stops. The queue is left as it is.
    pub fn remove_track(&mut self, index: usize, clear_if_current: bool)
        requires
            old(self).wf(),
            index < old(self).tracks.len(),
        ensures
            final(self).wf(),
            final(self).tracks@ == old(self).tracks@.remove(index as int),
            final(self).current_index == current_after_removal(
                old(self).current_index,
                index,
                clear_if_current,
            ),
            final(self).queue@ == old(self).queue@,
            final(self).is_playing == (if old(self).current_index == Some(index)
                && clear_if_current {
                false
            } else {
                old(self).is_playing
            }),
            final(self).same_settings(old(self)),
    {
        self.tracks.remove(index);
        match self.current_index {
            Some(c) => {
                if c > index {
                    self.current_index = Some(c - 1);
                } else if c == index && clear_if_current {
                    self.current_index = None;
                    self.is_playing = false;
                }
            },
            None => {},
        }
    }

    /// Stores the lyrics found for the playing track, keeping the first
    /// `MAX_LYRIC_LINES`; gives whether there are none.
    pub fn set_lyrics(&mut self, lines: Vec<LrcLine>) -> (empty: bool)
        requires
            old(self).wf(),
        ensures
            final(self).wf(),
            lyric_views(final(self).lyrics@) == lyric_views(lines@).take(
                if lines@.len() <= MAX_LYRIC_LINES {
                    lines@.len() as int
                } else {
                    MAX_LYRIC_LINES as int
                },
            ),
            empty == (lines@.len() == 0),
            final(self).tracks@ == old(self).tracks@,
            final(self).queue@ == old(self).queue@,
            final(self).current_index == old(self).current_index,
            final(self).is_playing == old(self).is_playing,
            final(self).shuffle_mode == old(self).shuffle_mode,
            final(self).repeat_mode == old(self).repeat_mode,
            final(self).current_theme == old(self).current_theme,
            final(self).viz_mode == old(self).viz_mode,
            final(self).view_mode == old(self).view_mode,
            final(self).window_x == old(self).window_x,
            final(self).window_y == old(self).window_y,
    {
        let mut lines = lines;
        let ghost before = lines@;
        lines.truncate(MAX_LYRIC_LINES);
        proof {
            assert(lyric_views(lines@) =~= lyric_views(before).take(lines@.len() as int));
        }
        self.lyrics = lines;
        self.lyrics.len() == 0
    }

    /// The three lyric texts to show at `position_ms`, or `None` without
    /// lyrics.
    pub fn lyric_display(&self, position_ms: u64) -> (r: Option<(String, String, String)>)
        ensures
            match r {
                Some((a, b, c)) => self.lyrics.len() > 0 && lyric_window(
                    lyric_views(self.lyrics@),
                    position_ms,
                ) == (a@, b@, c@),
                None => self.lyrics.len() == 0,
            },
    {
        lyric_window_texts(&self.lyrics, position_ms)
    }
}


/// Pressing the repeat button three times brings back the repeat mode, and
/// each press changes it.
pub proof fn lemma_repeat_cycle(m: RepeatMode)
    ensures
        next_repeat(next_repeat(next_repeat(m))) == m,
        next_repeat(m) != m,
{
}

/// A setting with `n` values after `k` presses of a button that moves it on
/// cyclically.
pub open spec fn cycled(m: int, n: int, k: nat) -> int
    decreases k,
{
    if k == 0 {
        m
    } else {
        (cycled(m, n, (k - 1) as nat) + 1) % n
    }
}

/// `k` presses move a cyclic setting on by `k` places; `n` presses bring it
/// back (the visualization modes after `VIZ_MODE_COUNT` presses, the themes
/// after `THEME_COUNT`).
pub proof fn lemma_cycle_returns(m: int, n: int, k: nat)
    requires
        0 <= m < n,
    ensures
        cycled(m, n, k) == (m + k) % n,
        cycled(m, n, n as nat) == m,
    decreases k,
{
    lemma_cycle_offset(m, n, k);
    lemma_cycle_offset(m, n, n as nat);
    vstd::arithmetic::div_mod::lemma_mod_add_multiples_vanish(m, n);
    vstd::arithmetic::div_mod::lemma_small_mod(m as nat, n as nat);
}

proof fn lemma_cycle_offset(m: int, n: int, k: nat)
    requires
        0 <= m < n,
    ensures
        cycled(m, n, k) == (m + k) % n,
    decreases k,
{
    if k == 0 {
        vstd::arithmetic::div_mod::lemma_small_mod(m as nat, n as nat);
    } else {
        lemma_cycle_offset(m, n, (k - 1) as nat);
        vstd::arithmetic::div_mod::lemma_add_mod_noop_right(1, m + k - 1, n);
    }
}

/// In shuffle mode with more than one track, "next" never stays on the
/// current track, and it always names a track of the library.
pub proof fn lemma_shuffle_moves_on(idx: usize, len: nat, draw: usize)
    requires
        len > 1,
        len <= usize::MAX,
        draw < len,
    ensures
        shuffle_pick(idx, len, draw) != idx,
        shuffle_pick(idx, len, draw) < len,
{
    if draw == idx {
        if draw + 1 < len {
            vstd::arithmetic::div_mod::lemma_small_mod((draw + 1) as nat, len);
            assert((draw + 1) % (len as int) == draw + 1);
        } else {
            vstd::arithmetic::div_mod::lemma_mod_self_0(len as int);
            assert((draw + 1) % (len as int) == 0);
        }
    }
}

/// In shuffle mode "next" plays the track that was drawn, as drawn, whenever
/// it is not the current one; only a draw of the current track moves on to
/// the track after it (cyclically). So with an empty queue every other track
/// of the library can come next, each by its own draw.
pub proof fn lemma_shuffle_plays_the_draw(
    idx: usize,
    len: nat,
    draw: usize,
    repeat: RepeatMode,
    at_track_end: bool,
)
    requires
        idx < len,
        draw < len,
        len <= usize::MAX,
        !(at_track_end && repeat == RepeatMode::One),
    ensures
        draw != idx ==> shuffle_pick(idx, len, draw) == draw,
        draw != idx ==> next_step(seq![], Some(idx), len, true, repeat, draw, at_track_end)
            == (Some(draw), Seq::<usize>::empty()),
        draw == idx && len > 1 ==> shuffle_pick(idx, len, draw) == (idx + 1) % (len as int),
{
    if draw == idx && len > 1 {
        vstd::arithmetic::div_mod::lemma_mod_bound(draw + 1, len as int);
    }
}

/// Without shuffle and with an empty queue, "previous" after "next" goes back
/// to the track one started from, whenever "next" moved on (not when a track
/// that ended under repeat One plays again).
pub proof fn lemma_previous_undoes_next(
    i: usize,
    len: nat,
    repeat: RepeatMode,
    draw: usize,
    at_track_end: bool,
)
    requires
        i < len,
        len <= usize::MAX,
        !(at_track_end && repeat == RepeatMode::One),
        i + 1 < len || repeat == RepeatMode::All,
    ensures
        next_step(seq![], Some(i), len, false, repeat, draw, at_track_end).0 matches Some(j)
            && playable(previous_choice(Some(j), len), len) == Some(i),
{
}

/// Without shuffle, with an empty queue and with the whole list repeating,
/// "next" after "previous" comes back to the track one started from.
pub proof fn lemma_next_undoes_previous(i: usize, len: nat, draw: usize, at_track_end: bool)
    requires
        i < len,
        len <= usize::MAX,
    ensures
        playable(previous_choice(Some(i), len), len) matches Some(j) && next_step(
            seq![],
            Some(j),
            len,
            false,
            RepeatMode::All,
            draw,
            at_track_end,
        ).0 == Some(i),
{
}

/// With a queued track, "next" plays the queue's front (when it is in the
/// library) and takes it off the queue, unless a track that ended under
/// repeat One plays again; under repeat One, an ended track always plays
/// again, whatever its place in the list.
pub proof fn lemma_queue_and_repeat_one(
    queue: Seq<usize>,
    current: Option<usize>,
    len: nat,
    shuffle: bool,
    repeat: RepeatMode,
    draw: usize,
    at_track_end: bool,
)
    ensures
        queue.len() > 0 && !(at_track_end && repeat == RepeatMode::One && current is Some) ==> {
            &&& next_step(queue, current, len, shuffle, repeat, draw, at_track_end).1
                == queue.drop_first()
            &&& (queue[0] < len ==> next_step(
                queue,
                current,
                len,
                shuffle,
                repeat,
                draw,
                at_track_end,
            ).0 == Some(queue[0]))
        },
        at_track_end && repeat == RepeatMode::One && current is Some && current->0 < len ==> {
            &&& next_step(queue, current, len, shuffle, repeat, draw, at_track_end).0 == current
            &&& next_step(queue, current, len, shuffle, repeat, draw, at_track_end).1 == queue
        },
{
}

/// Removing another track keeps the current index on the same track.
pub proof fn lemma_removal_keeps_current_track<T>(
    tracks: Seq<T>,
    index: usize,
    c: usize,
    clear_if_current: bool,
)
    requires
        index < tracks.len(),
        c < tracks.len(),
        c != index,
    ensures
        current_after_removal(Some(c), index, clear_if_current) matches Some(d) && d
            < tracks.len() - 1 && tracks.remove(index as int)[d as int] == tracks[c as int],
{
}

/// Taking a track index out of the queue keeps the other entries in their
/// order: the result is the queue filtered by "is not that index", and
/// taking it out of two queues joined is joining the two results.
pub proof fn lemma_dequeue_keeps_order(s: Seq<usize>, t: Seq<usize>, x: usize)
    ensures
        without(s, x) == s.filter(|y: usize| y != x),
        without(s + t, x) == without(s, x) + without(t, x),
    decreases t.len(),
{
    lemma_without_is_filter(s, x);
    lemma_without_is_filter(t, x);
    lemma_without_is_filter(s + t, x);
    Seq::filter_distributes_over_add(s, t, |y: usize| y != x);
}

proof fn lemma_without_is_filter(s: Seq<usize>, x: usize)
    ensures
        without(s, x) == s.filter(|y: usize| y != x),
    decreases s.len(),
{
    reveal(Seq::filter);
    if s.len() > 0 {
        lemma_without_is_filter(s.drop_last(), x);
    }
}

/// Taking a track index out of the queue removes every entry for it and
/// keeps every other entry.
pub proof fn lemma_dequeue_removes(s: Seq<usize>, x: usize)
    ensures
        !without(s, x).contains(x),
        forall|y: usize| y != x ==> (without(s, x).contains(y) <==> s.contains(y)),
    decreases s.len(),
{
    if s.len() > 0 {
        let t = s.drop_last();
        lemma_dequeue_removes(t, x);
        let w = without(t, x);
        let r = without(s, x);
        if s.last() == x {
            assert(r == w);
        } else {
            assert(r == w.push(s.last()));
        }
        assert forall|y: usize| y != x implies (r.contains(y) <==> s.contains(y)) by {
            if s.contains(y) {
                let k = choose|k: int| 0 <= k < s.len() && s[k] == y;
                if k < t.len() {
                    assert(t[k] == y);
                    assert(t.contains(y));
                    assert(w.contains(y));
                    let j = choose|j: int| 0 <= j < w.len() && w[j] == y;
                    assert(r[j] == y);
                } else {
                    assert(r[r.len() - 1] == y);
                }
            }
            if r.contains(y) {
                let j = choose|j: int| 0 <= j < r.len() && r[j] == y;
                if j < w.len() {
                    assert(w[j] == y);
                    assert(w.contains(y));
                    assert(t.contains(y));
                    let k = choose|k: int| 0 <= k < t.len() && t[k] == y;
                    assert(s[k] == t[k]);
                } else {
                    assert(s[s.len() - 1] == y);
                }
            }
        }
        if r.contains(x) {
            let j = choose|j: int| 0 <= j < r.len() && r[j] == x;
            if j < w.len() {
                assert(w[j] == x);
                assert(w.contains(x));
            }
        }
    }
}

/// A click on one of the mode buttons.
pub enum ModeClick {
    Repeat,
    Shuffle,
    Visualization,
}

/// The repeat mode, shuffle setting and visualization mode after one click,
/// as `cycle_repeat`, `toggle_shuffle` and `cycle_viz_mode` change them.
pub open spec fn click_step(s: (RepeatMode, bool, int), c: ModeClick) -> (RepeatMode, bool, int) {
    match c {
        ModeClick::Repeat => (next_repeat(s.0), s.1, s.2),
        ModeClick::Shuffle => (s.0, !s.1, s.2),
        ModeClick::Visualization => (s.0, s.1, (s.2 + 1) % (VIZ_MODE_COUNT as int)),
    }
}

/// The modes after a sequence of clicks, in the order given.
pub open spec fn after_clicks(s: (RepeatMode, bool, int), clicks: Seq<ModeClick>) -> (
    RepeatMode,
    bool,
    int,
)
    decreases clicks.len(),
{
    if clicks.len() == 0 {
        s
    } else {
        click_step(after_clicks(s, clicks.drop_last()), clicks.last())
    }
}

/// How many of the clicks are on the repeat, shuffle or visualization button.
pub open spec fn click_counts(clicks: Seq<ModeClick>) -> (nat, nat, nat)
    decreases clicks.len(),
{
    if clicks.len() == 0 {
        (0, 0, 0)
    } else {
        let c = click_counts(clicks.drop_last());
        match clicks.last() {
            ModeClick::Repeat => ((c.0 + 1) as nat, c.1, c.2),
            ModeClick::Shuffle => (c.0, (c.1 + 1) as nat, c.2),
            ModeClick::Visualization => (c.0, c.1, (c.2 + 1) as nat),
        }
    }
}

/// The repeat mode after `k` clicks of the repeat button from `m`.
pub open spec fn repeat_after(m: RepeatMode, k: nat) -> RepeatMode
    decreases k,
{
    if k == 0 {
        m
    } else {
        next_repeat(repeat_after(m, (k - 1) as nat))
    }
}

/// After any clicks on the repeat, shuffle and visualization buttons, in any
/// order, each mode depends only on how often its own button was clicked:
/// repeat has moved on `k` steps, shuffle has flipped `m` times, and the
/// visualization has moved on `v` places modulo the number of modes. From
/// the start (repeat Off) the repeat mode is Off, All, One by `k % 3`.
pub proof fn lemma_mode_clicks(
    repeat: RepeatMode,
    shuffle: bool,
    viz: int,
    clicks: Seq<ModeClick>,
)
    requires
        0 <= viz < VIZ_MODE_COUNT,
    ensures
        after_clicks((repeat, shuffle, viz), clicks) == (
            repeat_after(repeat, click_counts(clicks).0),
            shuffle != (click_counts(clicks).1 % 2 == 1),
            (viz + click_counts(clicks).2) % (VIZ_MODE_COUNT as int),
        ),
        repeat_after(RepeatMode::Off, click_counts(clicks).0) == (if click_counts(clicks).0 % 3
            == 0 {
            RepeatMode::Off
        } else if click_counts(clicks).0 % 3 == 1 {
            RepeatMode::All
        } else {
            RepeatMode::One
        }),
    decreases clicks.len(),
{
    lemma_repeat_from_off(click_counts(clicks).0);
    if clicks.len() == 0 {
        vstd::arithmetic::div_mod::lemma_small_mod(viz as nat, VIZ_MODE_COUNT as nat);
    } else {
        lemma_mode_clicks(repeat, shuffle, viz, clicks.drop_last());
        let c = click_counts(clicks.drop_last());
        vstd::arithmetic::div_mod::lemma_add_mod_noop_right(1, viz + c.2, VIZ_MODE_COUNT as int);
    }
}

proof fn lemma_repeat_from_off(k: nat)
    ensures
        repeat_after(RepeatMode::Off, k) == (if k % 3 == 0 {
            RepeatMode::Off
        } else if k % 3 == 1 {
            RepeatMode::All
        } else {
            RepeatMode::One
        }),
    decreases k,
{
    if k > 0 {
        lemma_repeat_from_off((k - 1) as nat);
    }
}

} // verus!
