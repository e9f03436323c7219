# LyricsLens

Synced lyrics over any window on a Linux desktop: the playing track is read
over MPRIS, its lyrics are looked up on LRCLIB, and the line being sung is
shown as the song goes.

## Layout

- `src/` is the library, verified with Verus. Public functions carry contracts
  that say what they return — all but `Clock::since_anchor_ms`, whose answer is
  a reading of the machine clock; the properties that span several calls are
  public proof functions named `law_…`.
  - `lyrics`, `sync`, `screen`, `store`, `mpris`, `cli`, `tray`,
    `preferences`, `desktop`, `i18n`, `log`, `update`, `worker`: the overlay
    program — reading LRC files, following the song with a clock that anchors
    on the edges of quantised position readings, deciding the line on screen,
    naming cache files, choosing the player, reading the command line.
  - `webview`: the same ideas for the webview front end — its LRC reader
    (all of it but reading a timestamp's seconds, a floating-point number,
    which the caller hands in), the LRCLIB steps (exact lookup, broad search,
    choice), the lyrics cache's tables and rules, the MPRIS follower, the
    compositor commands for Hyprland and Sway, hotkeys, cover art, logging
    and settings. The cache is held in memory; the library has no SQLite
    file behind it.
  - `text`: the string operations the rest is written with, each with its
    specification.
- `app/` is the program around the library: arguments, files, the session bus
  and the network. It hands the library plain values and takes plain values
  back.
- `tests/` runs the library on concrete cases.
