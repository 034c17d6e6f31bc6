# SELFsonic

A light terminal client for [Subsonic](https://subsonic.org) servers
(Navidrome, Airsonic, Gonic, ...): tabs for artists, albums, playlists,
favourites and the queue, gapless playback, MPRIS, a DJ mode that refills
the queue with related tracks, and a local SQLite cache refreshed by hand.

The decisions of the client are a library proved with Verus; the program
around it does the I/O.

## Layout

- `src/` — the verified library (`selfsonic`):
  - `api/` — the data of the REST API, the authentication parameters, URL
    building with percent-encoding, retries with exponential backoff and the
    reading of answers.
  - `cache/` — the rows of the cache and how server entries are stored.
  - `playback/engine.rs` — the queue, the play order (shuffle keeps the
    current entry in place), repeat modes, the DJ bookkeeping, scrobbling
    and the saved state. Every operation answers with the step the audio
    output has to take.
  - `playback/dj.rs` — the cascade of sources of the DJ mode and the
    filtering of candidates.
  - `playback/position.rs` — which position is published to MPRIS around a
    change of track.
  - `playback/mpris.rs` — track paths, metadata fields and capability flags.
  - `ui/` — the state of the interface (tabs, lists, navigation levels,
    favourites, album paging), key bindings, colours and the parsing of the
    terminal's colour answers.
  - `session.rs` — what a key, an MPRIS command, a notice of the player or a
    DJ refill does to the interface and the player.
- `tests/` — tests of the library.
- `app/` — the program: terminal (ratatui, crossterm), HTTP (ureq), SQLite
  (rusqlite), audio (rodio), MPRIS (mpris-server), configuration and logging.

## Keys

| Key | Action |
| --- | --- |
| `j` / `k` | move down / up |
| `g` / `G` | top / bottom |
| `Ctrl+d` / `Ctrl+u` | page down / up |
| `Tab` / `Shift+Tab` | next / previous tab |
| `Enter` | open / play |
| `Esc` | back |
| `space` | play / pause |
| `n` / `p` | next / previous |
| `l` | cycle repeat (off → track → all) |
| `s` | toggle shuffle |
| `+` / `-` | volume |
| `[` / `]` | seek back / forward by `audio.seek_step` seconds (10 by default) |
| `d` | DJ mode on / off |
| `f` | star / unstar the selected track |
| `r` | refresh library from server |
| `q` / `Ctrl+q` | quit |
