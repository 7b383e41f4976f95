use vstd::prelude::*;

use crate::player::THEME_COUNT;

verus! {

/// A colour theme: its name and its colours as `#rrggbb` strings.
#[derive(Clone, Copy)]
pub struct Theme {
    pub name: &'static str,
    pub bg: &'static str,
    pub fg: &'static str,
    pub accent: &'static str,
    pub dim: &'static str,
    pub sidebar_bg: &'static str,
    pub viz_accent: &'static str,
    pub gradient_start: &'static str,
    pub gradient_end: &'static str,
}

/// The themes, by index (`THEME_COUNT` of them; the last one stands for any
/// larger index).
pub open spec fn theme_table(i: int) -> Theme {
    if i == 0 {
        Theme {
            name: "Tokyo Night",
            bg: "#1a1b26",
            fg: "#c0caf5",
            accent: "#7aa2f7",
            dim: "#565f89",
            sidebar_bg: "#16161e",
            viz_accent: "#7aa2f7",
            gradient_start: "#7aa2f7",
            gradient_end: "#bb9af7",
        }
    } else if i == 1 {
        Theme {
            name: "Gruvbox",
            bg: "#282828",
            fg: "#ebdbb2",
            accent: "#fe8019",
            dim: "#928374",
            sidebar_bg: "#1d2021",
            viz_accent: "#fe8019",
            gradient_start: "#fe8019",
            gradient_end: "#fabd2f",
        }
    } else if i == 2 {
        Theme {
            name: "Dracula",
            bg: "#282a36",
            fg: "#f8f8f2",
            accent: "#bd93f9",
            dim: "#6272a4",
            sidebar_bg: "#21222c",
            viz_accent: "#bd93f9",
            gradient_start: "#bd93f9",
            gradient_end: "#ff79c6",
        }
    } else if i == 3 {
        Theme {
            name: "Nord",
            bg: "#2e3440",
            fg: "#d8dee9",
            accent: "#88c0d0",
            dim: "#4c566a",
            sidebar_bg: "#242933",
            viz_accent: "#88c0d0",
            gradient_start: "#88c0d0",
            gradient_end: "#81a1c1",
        }
    } else if i == 4 {
        Theme {
            name: "Catppuccin",
            bg: "#1e1e2e",
            fg: "#cdd6f4",
            accent: "#cba6f7",
            dim: "#6c7086",
            sidebar_bg: "#181825",
            viz_accent: "#cba6f7",
            gradient_start: "#f5c2e7",
            gradient_end: "#cba6f7",
        }
    } else if i == 5 {
        Theme {
            name: "Solarized",
            bg: "#002b36",
            fg: "#839496",
            accent: "#268bd2",
            dim: "#586e75",
            sidebar_bg: "#00232c",
            viz_accent: "#268bd2",
            gradient_start: "#2aa198",
            gradient_end: "#268bd2",
        }
    } else if i == 6 {
        Theme {
            name: "Cyberpunk",
            bg: "#0d0d1a",
            fg: "#f0f0f0",
            accent: "#ff00ff",
            dim: "#4a4a6a",
            sidebar_bg: "#0a0a12",
            viz_accent: "#00ffff",
            gradient_start: "#ff00ff",
            gradient_end: "#00ffff",
        }
    } else {
        Theme {
            name: "Forest",
            bg: "#1a2e1a",
            fg: "#c8e6c8",
            accent: "#4caf50",
            dim: "#2e5a2e",
            sidebar_bg: "#0f1f0f",
            viz_accent: "#8bc34a",
            gradient_start: "#4caf50",
            gradient_end: "#8bc34a",
        }
    }
}

/// The theme at `i`.
pub fn theme_at(i: usize) -> (t: Theme)
    requires
        i < THEME_COUNT,
    ensures
        t == theme_table(i as int),
{
    match i {
        0 => Theme {
            name: "Tokyo Night",
            bg: "#1a1b26",
            fg: "#c0caf5",
            accent: "#7aa2f7",
            dim: "#565f89",
            sidebar_bg: "#16161e",
            viz_accent: "#7aa2f7",
            gradient_start: "#7aa2f7",
            gradient_end: "#bb9af7",
        },
        1 => Theme {
            name: "Gruvbox",
            bg: "#282828",
            fg: "#ebdbb2",
            accent: "#fe8019",
            dim: "#928374",
            sidebar_bg: "#1d2021",
            viz_accent: "#fe8019",
            gradient_start: "#fe8019",
            gradient_end: "#fabd2f",
        },
        2 => Theme {
            name: "Dracula",
            bg: "#282a36",
            fg: "#f8f8f2",
            accent: "#bd93f9",
            dim: "#6272a4",
            sidebar_bg: "#21222c",
            viz_accent: "#bd93f9",
            gradient_start: "#bd93f9",
            gradient_end: "#ff79c6",
        },
        3 => Theme {
            name: "Nord",
            bg: "#2e3440",
            fg: "#d8dee9",
            accent: "#88c0d0",
            dim: "#4c566a",
            sidebar_bg: "#242933",
            viz_accent: "#88c0d0",
            gradient_start: "#88c0d0",
            gradient_end: "#81a1c1",
        },
        4 => Theme {
            name: "Catppuccin",
            bg: "#1e1e2e",
            fg: "#cdd6f4",
            accent: "#cba6f7",
            dim: "#6c7086",
            sidebar_bg: "#181825",
            viz_accent: "#cba6f7",
            gradient_start: "#f5c2e7",
            gradient_end: "#cba6f7",
        },
        5 => Theme {
            name: "Solarized",
            bg: "#002b36",
            fg: "#839496",
            accent: "#268bd2",
            dim: "#586e75",
            sidebar_bg: "#00232c",
            viz_accent: "#268bd2",
            gradient_start: "#2aa198",
            gradient_end: "#268bd2",
        },
        6 => Theme {
            name: "Cyberpunk",
            bg: "#0d0d1a",
            fg: "#f0f0f0",
            accent: "#ff00ff",
            dim: "#4a4a6a",
            sidebar_bg: "#0a0a12",
            viz_accent: "#00ffff",
            gradient_start: "#ff00ff",
            gradient_end: "#00ffff",
        },
        _ => Theme {
            name: "Forest",
            bg: "#1a2e1a",
            fg: "#c8e6c8",
            accent: "#4caf50",
            dim: "#2e5a2e",
            sidebar_bg: "#0f1f0f",
            viz_accent: "#8bc34a",
            gradient_start: "#4caf50",
            gradient_end: "#8bc34a",
        },
    }
}

/// The visualization colour for the theme at `i`, the first theme's for an
/// index out of range.
pub fn viz_accent_for(i: usize) -> (c: &'static str)
    ensures
        c == (if i < THEME_COUNT {
            theme_table(i as int).viz_accent
        } else {
            theme_table(0).viz_accent
        }),
{
    if i < THEME_COUNT {
        theme_at(i).viz_accent
    } else {
        theme_at(0).viz_accent
    }
}

/// The value of an ASCII hexadecimal digit (either case).
pub open spec fn hex_value(b: u8) -> Option<int> {
    if 0x30 <= b <= 0x39 {
        Some(b - 0x30)
    } else if 0x61 <= b <= 0x66 {
        Some(b - 0x61 + 10)
    } else if 0x41 <= b <= 0x46 {
        Some(b - 0x41 + 10)
    } else {
        None
    }
}

/// What `i32::from_str_radix(s, 16).unwrap_or(255)` gives for the two-byte
/// string `[b0, b1]`: a sign and one digit, or two digits; 255 for anything
/// else.
pub open spec fn hex_pair_value(b0: u8, b1: u8) -> i32 {
    if b0 == 0x2b {
        match hex_value(b1) {
            Some(v) => v as i32,
            None => 255,
        }
    } else if b0 == 0x2d {
        match hex_value(b1) {
            Some(v) => (-v) as i32,
            None => 255,
        }
    } else {
        match (hex_value(b0), hex_value(b1)) {
            (Some(h), Some(l)) => (h * 16 + l) as i32,
            _ => 255,
        }
    }
}

/// The red, green and blue values of a `#rrggbb` colour, read from bytes 1
/// to 6.
pub open spec fn hex_color_of(bytes: Seq<u8>) -> (i32, i32, i32) {
    (
        hex_pair_value(bytes[1], bytes[2]),
        hex_pair_value(bytes[3], bytes[4]),
        hex_pair_value(bytes[5], bytes[6]),
    )
}

fn hex_digit_value(b: u8) -> (r: Option<u8>)
    ensures
        match hex_value(b) {
            Some(v) => r == Some(v as u8),
            None => r is None,
        },
{
    if 0x30 <= b && b <= 0x39 {
        Some(b - 0x30)
    } else if 0x61 <= b && b <= 0x66 {
        Some(b - 0x61 + 10)
    } else if 0x41 <= b && b <= 0x46 {
        Some(b - 0x41 + 10)
    } else {
        None
    }
}

fn hex_pair(b0: u8, b1: u8) -> (r: i32)
    ensures
        r == hex_pair_value(b0, b1),
{
    if b0 == 0x2b {
        match hex_digit_value(b1) {
            Some(v) => v as i32,
            None => 255,
        }
    } else if b0 == 0x2d {
        match hex_digit_value(b1) {
            Some(v) => -(v as i32),
            None => 255,
        }
    } else {
        match (hex_digit_value(b0), hex_digit_value(b1)) {
            (Some(h), Some(l)) => (h as i32) * 16 + (l as i32),
            _ => 255,
        }
    }
}

/// The red, green and blue values (0 to 255 for a well-formed colour) of a
/// `#rrggbb` string. The string must have its byte boundaries 1, 3, 5 and 7
/// on characters, as slicing it there requires.
pub fn parse_hex_color(hex: &str) -> (r: (i32, i32, i32))
    requires
        vstd::utf8::encode_utf8(hex@).len() >= 7,
        vstd::utf8::is_char_boundary(vstd::utf8::encode_utf8(hex@), 1),
        vstd::utf8::is_char_boundary(vstd::utf8::encode_utf8(hex@), 3),
        vstd::utf8::is_char_boundary(vstd::utf8::encode_utf8(hex@), 5),
        vstd::utf8::is_char_boundary(vstd::utf8::encode_utf8(hex@), 7),
    ensures
        r == hex_color_of(vstd::utf8::encode_utf8(hex@)),
{
    let b = hex.as_bytes();
    (hex_pair(b[1], b[2]), hex_pair(b[3], b[4]), hex_pair(b[5], b[6]))
}

} // verus!
