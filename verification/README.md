# volta_wave

The logic of the Volta Wave music player as a library verified with Verus,
and the GTK application around it.

- `src/` — the verified library:
  - `text.rs`: characters, `trim`, `lines`, substring search, decimal numerals,
    string order;
  - `sorting.rs`: stable sorting (insertion) with its laws: sorted,
    permutation, stable;
  - `track.rs`: tracks from file names, the library scan, its order, search;
  - `lyrics.rs`: LRC parsing, plain lyrics, the lyric window, the lyric file
    path and the lyrics service query;
  - `player.rs`: the player state machine: selection, next/previous,
    shuffle and repeat, the queue, removal, settings;
  - `theme.rs`, `style.rs`: colour themes, colour parsing, the style sheet;
  - `display.rs`: labels and keyboard shortcuts;
  - `playlist.rs`: saved playlist entries and playlist names;
  - `bindings.rs`: the calls into `regex`, `rand`, `urlencoding` and std's
    Unicode and path functions, with the contracts the library relies on.
- `tests/` — tests of the library on concrete values.
- `app/` — the GTK4/GStreamer application: windows, playback, drawing, files
  and the network.
