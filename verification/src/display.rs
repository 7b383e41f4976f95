use vstd::prelude::*;

use crate::player::RepeatMode;
use crate::text::{decimal, push_decimal, push_two_digits, two_digits};

verus! {

/// A time in milliseconds as `minutes:seconds`, seconds with two digits.
pub open spec fn clock_text(ms: u64) -> Seq<char> {
    decimal((ms / 60000) as nat) + seq![':'] + two_digits(((ms % 60000) / 1000) as nat)
}

/// A time in milliseconds as `minutes:seconds` (`{}:{:02}`).
pub fn clock_label(ms: u64) -> (r: String)
    ensures
        r@ == clock_text(ms),
{
    let mut r = String::new();
    push_decimal(&mut r, ms / 60000);
    r.append(":");
    proof {
        reveal_strlit(":");
    }
    push_two_digits(&mut r, (ms % 60000) / 1000);
    proof {
        assert(r@ =~= clock_text(ms));
    }
    r
}

/// The library's count label: `n tracks`.
pub fn track_count_label(n: usize) -> (r: String)
    ensures
        r@ == decimal(n as nat) + " tracks"@,
{
    let mut r = String::new();
    push_decimal(&mut r, n as u64);
    r.append(" tracks");
    proof {
        assert(Seq::<char>::empty() + decimal(n as nat) =~= decimal(n as nat));
    }
    r
}

/// The queue's count label: `Queue: n`.
pub fn queue_count_label(n: usize) -> (r: String)
    ensures
        r@ == "Queue: "@ + decimal(n as nat),
{
    let mut r = String::from_str("Queue: ");
    push_decimal(&mut r, n as u64);
    r
}

/// The name of a visualization mode (the bar mode's for any other number).
pub open spec fn viz_mode_name_of(mode: usize) -> Seq<char> {
    if mode == 1 {
        "Wave"@
    } else if mode == 2 {
        "Circles"@
    } else if mode == 3 {
        "Stars"@
    } else if mode == 4 {
        "Mirror"@
    } else if mode == 5 {
        "Spectrum"@
    } else {
        "Bars"@
    }
}

/// The name of a visualization mode.
pub fn viz_mode_name(mode: usize) -> (r: &'static str)
    ensures
        r@ == viz_mode_name_of(mode),
{
    match mode {
        0 => "Bars",
        1 => "Wave",
        2 => "Circles",
        3 => "Stars",
        4 => "Mirror",
        5 => "Spectrum",
        _ => "Bars",
    }
}

/// The repeat button's icon and tooltip for a repeat mode.
pub fn repeat_button_labels(mode: RepeatMode) -> (r: (&'static str, &'static str))
    ensures
        r.0@ == (if mode == RepeatMode::One {
            "media-playlist-repeat-song-symbolic"@
        } else {
            "media-playlist-repeat-symbolic"@
        }),
        r.1@ == (match mode {
            RepeatMode::Off => "Repeat: Off"@,
            RepeatMode::All => "Repeat: All"@,
            RepeatMode::One => "Repeat: One"@,
        }),
{
    match mode {
        RepeatMode::Off => ("media-playlist-repeat-symbolic", "Repeat: Off"),
        RepeatMode::All => ("media-playlist-repeat-symbolic", "Repeat: All"),
        RepeatMode::One => ("media-playlist-repeat-song-symbolic", "Repeat: One"),
    }
}

/// The shuffle button's tooltip.
pub fn shuffle_tooltip(on: bool) -> (r: &'static str)
    ensures
        r@ == (if on {
            "Shuffle: ON"@
        } else {
            "Shuffle: OFF"@
        }),
{
    if on {
        "Shuffle: ON"
    } else {
        "Shuffle: OFF"
    }
}

/// The play button's icon: pause while playing, play otherwise.
pub fn play_button_icon(playing: bool) -> (r: &'static str)
    ensures
        r@ == (if playing {
            "media-playback-pause-symbolic"@
        } else {
            "media-playback-start-symbolic"@
        }),
{
    if playing {
        "media-playback-pause-symbolic"
    } else {
        "media-playback-start-symbolic"
    }
}

/// What a key press does.
#[derive(Clone, Copy, Debug, PartialEq, Eq, Structural)]
pub enum KeyAction {
    TogglePlay,
    SeekBackward,
    SeekForward,
    CycleVisualization,
    CycleTheme,
    Ignore,
}

/// The action of a key, by its name: Space plays or pauses, Left and `a`
/// seek back, Right and `d` seek forward, `v` cycles the visualization and
/// `t` the theme; other keys are passed on.
pub open spec fn key_action_of(name: Seq<char>) -> KeyAction {
    if name == "space"@ {
        KeyAction::TogglePlay
    } else if name == "Left"@ || name == "a"@ {
        KeyAction::SeekBackward
    } else if name == "Right"@ || name == "d"@ {
        KeyAction::SeekForward
    } else if name == "v"@ {
        KeyAction::CycleVisualization
    } else if name == "t"@ {
        KeyAction::CycleTheme
    } else {
        KeyAction::Ignore
    }
}

/// The action of a key, by its name.
pub fn key_action(name: &str) -> (r: KeyAction)
    ensures
        r == key_action_of(name@),
{
    let n = String::from_str(name);
    if n == String::from_str("space") {
        KeyAction::TogglePlay
    } else if n == String::from_str("Left") || n == String::from_str("a") {
        KeyAction::SeekBackward
    } else if n == String::from_str("Right") || n == String::from_str("d") {
        KeyAction::SeekForward
    } else if n == String::from_str("v") {
        KeyAction::CycleVisualization
    } else if n == String::from_str("t") {
        KeyAction::CycleTheme
    } else {
        KeyAction::Ignore
    }
}

/// The drawing routine of a visualization mode.
#[derive(Clone, Copy, Debug, PartialEq, Eq, Structural)]
pub enum VizRoutine {
    Bars,
    Wave,
    Circles,
    Stars,
    Mirror,
    Spectrum,
}

/// The routine that draws a visualization mode: the six modes in order, the
/// bars for any other number.
pub open spec fn viz_routine_of(mode: usize) -> VizRoutine {
    if mode == 1 {
        VizRoutine::Wave
    } else if mode == 2 {
        VizRoutine::Circles
    } else if mode == 3 {
        VizRoutine::Stars
    } else if mode == 4 {
        VizRoutine::Mirror
    } else if mode == 5 {
        VizRoutine::Spectrum
    } else {
        VizRoutine::Bars
    }
}

/// The routine that draws a visualization mode.
pub fn viz_routine(mode: usize) -> (r: VizRoutine)
    ensures
        r == viz_routine_of(mode),
{
    match mode {
        1 => VizRoutine::Wave,
        2 => VizRoutine::Circles,
        3 => VizRoutine::Stars,
        4 => VizRoutine::Mirror,
        5 => VizRoutine::Spectrum,
        _ => VizRoutine::Bars,
    }
}

/// The kind of a picture stored in an audio file's tags, as far as the
/// player cares.
#[derive(Clone, Copy, Debug, PartialEq, Eq, Structural)]
pub enum PictureKind {
    CoverFront,
    CoverBack,
    Other,
}

/// Whether a tag picture may serve as album art: the front or back cover.
pub fn is_cover_picture(kind: PictureKind) -> (b: bool)
    ensures
        b == (kind == PictureKind::CoverFront || kind == PictureKind::CoverBack),
{
    match kind {
        PictureKind::CoverFront => true,
        PictureKind::CoverBack => true,
        PictureKind::Other => false,
    }
}

/// The image files looked for beside an audio file when its tags hold no
/// cover, in the order they are tried.
pub open spec fn cover_file_names_of() -> Seq<&'static str> {
    seq!["folder.jpg", "cover.jpg", "album.jpg", "Folder.jpg", "Cover.jpg"]
}

/// The cover image names, in the order they are tried.
pub fn cover_file_names() -> (r: Vec<&'static str>)
    ensures
        r@ == cover_file_names_of(),
{
    let r = vec!["folder.jpg", "cover.jpg", "album.jpg", "Folder.jpg", "Cover.jpg"];
    assert(r@ =~= cover_file_names_of());
    r
}

} // verus!
