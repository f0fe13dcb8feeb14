# Chromia

A music player for Linux: a local library with tag reading and SQLite
storage, YouTube and SoundCloud streams through yt-dlp, a download manager,
synced lyrics from lrclib.net, palettes and stylesheets for the interface,
and MPRIS2 / Discord Rich Presence integrations.

The decisions of the player are a library verified with Verus; the program
around it does the I/O.

## Layout

- `src/` — the verified library (`chromia`):
  - `audio/` — the play queue (shuffle, repeat, history) and the engine: a
    state machine from commands and outcomes to the actions its host carries
    out (open a file, download a stream, pause the sink, report an event).
  - `config/` — the configuration schema, its defaults, and directory paths.
  - `download/` — yt-dlp arguments and output lines, and the scheduler that
    keeps at most three downloads running.
  - `integrations/` — what MPRIS2 exports (status, loop mode, metadata,
    `file://` URIs) and what Discord shows.
  - `library/` — tracks, the scanner's file rules, and how database rows
    become tracks.
  - `lyrics/` — LRC parsing, the active line at a position, lrclib queries
    and replies.
  - `sources/` — enabled sources, yt-dlp replies (search results, track
    info, downloaded paths), cache file names.
  - `theme/` — Catppuccin palettes, presets, hex colors and the generated
    stylesheet.
  - `ui/` — layout presets and slots, navigation pages, album grouping and
    the text the widgets show.
  - `text.rs` — the string functions the rest is built on.
- `tests/` — tests of the library on concrete values.
- `app/` — the program: configuration file, SQLite, tag reading, the
  filesystem scan and watcher, yt-dlp and HTTP calls, audio output with the
  equalizer, D-Bus and Discord, and the floating-point color math. It has
  no GTK interface: it runs the player, the library and the integrations
  headless, and the widget logic (labels, album cards, the repeat button,
  layout presets) is available from the library for an interface to use.

Each public function of the library states in `ensures` what it returns;
the laws that relate several calls are public proof functions named `law_*`.
Times (durations, positions, seeks) are held as whole nanoseconds in `u128`,
which holds every `std::time::Duration` exactly.
