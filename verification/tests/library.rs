use selfsonic::api::client::{
    after_status, after_transport_error, artists_of, check_status, check_stream_status,
    next_catalogue_page,
    playlists_of, response_data, retry_delay, CallStep, Client,
};
use selfsonic::api::models::{
    ApiError, ArtistId3, ArtistIndexEntry, ArtistsIndex, ArtistsPayload, Child, Playlist,
    PlaylistList, PlaylistsPayload, ResponseEnvelope, SubsonicResponse,
};
use selfsonic::cache::db::{playlist_album_id, track_of_child, CachedAlbum, CachedPlaylist, CachedTrack};
use selfsonic::config::default_seek_step;
use selfsonic::error::AppError;
use selfsonic::playback::dj::{collect_start, collect_step, DjNext, DjOutcome, DjStep};
use selfsonic::playback::engine::{Engine, EngineEvent, LoopMode, PlayerOp, TrackMeta};
use selfsonic::playback::mpris::{
    metadata_fields, mpris_change, player_flags, track_id_of_path, track_list_due, track_path,
    MprisProp, MprisShadow, PlaybackState,
};
use selfsonic::session::{
    apply_command, dj_refill_due, handle_action, note_event, refill_finish, refill_target,
    wants_more_albums, CommandOutcome, KeyOutcome, PlayerCommand,
};
use selfsonic::text::{starts_with, strip_prefix, titled_count};
use selfsonic::ui::app::{AppState, ListItem, Selection, Tab, TabLoad};
use selfsonic::ui::colors::{Color, Theme, ThemeMode};
use selfsonic::ui::keybindings::Action;
use selfsonic::ui::theme::Palette;
use selfsonic::ui::views::{fmt_duration, loop_label, row_texts};
use std::collections::HashSet;

fn track(id: &str) -> TrackMeta {
    TrackMeta {
        id: id.to_string(),
        title: format!("title {id}"),
        artist: "artist".into(),
        album: "album".into(),
        album_id: String::new(),
        cover_art: None,
        duration: 200,
        track_number: None,
        disc_number: None,
    }
}

fn cached(id: &str) -> CachedTrack {
    CachedTrack {
        id: id.into(),
        title: format!("title {id}"),
        album: "album".into(),
        album_id: "al".into(),
        artist: "artist".into(),
        cover_art: None,
        duration: 100,
        track_number: Some(1),
        disc_number: None,
    }
}

fn ids(tracks: &[TrackMeta]) -> Vec<String> {
    tracks.iter().map(|t| t.id.clone()).collect()
}

// ---------- text ----------

#[test]
fn titled_count_writes_decimal_in_brackets() {
    assert_eq!(titled_count("Queue", 0), "Queue (0)");
    assert_eq!(titled_count("Favorites", 1203), "Favorites (1203)");
}

#[test]
fn prefixes() {
    assert!(starts_with("DJ: off", "DJ:"));
    assert!(!starts_with("D", "DJ:"));
    assert_eq!(strip_prefix("rgb:ff", "rgb:"), Some("ff".to_string()));
    assert_eq!(strip_prefix("xrgb:ff", "rgb:"), None);
}

#[test]
fn durations_and_labels() {
    assert_eq!(fmt_duration(125), "2:05");
    assert_eq!(fmt_duration(0), "0:00");
    assert_eq!(fmt_duration(-5), "0:00");
    assert_eq!(fmt_duration(3600), "60:00");
    assert_eq!(fmt_duration(59), "0:59");
    assert_eq!(fmt_duration(i32::MAX), "35791394:07");
    // The text reads back as the seconds.
    for secs in [0, 1, 59, 60, 61, 599, 3599, 3600, 86399, 1_000_000] {
        let t = fmt_duration(secs);
        let (m, ss) = t.split_once(':').unwrap();
        assert_eq!(ss.len(), 2);
        assert!(m.len() == 1 || !m.starts_with('0'));
        let (m, ss): (i64, i64) = (m.parse().unwrap(), ss.parse().unwrap());
        assert!(ss < 60);
        assert_eq!(m * 60 + ss, secs as i64);
    }
    assert_eq!(loop_label(&LoopMode::Off), "repeat: off");
    assert_eq!(loop_label(&LoopMode::Track), "repeat: 1");
    assert_eq!(loop_label(&LoopMode::Playlist), "repeat: all");
    assert_eq!(default_seek_step(), 10);
}

// ---------- client ----------

#[test]
fn url_is_built_in_order_with_encoded_values() {
    let client = Client::new("http://h:1//", "u", "p w").unwrap();
    let url = client.url("getAlbum", &[("id", "a/b".into())]);
    assert_eq!(
        url,
        "http://h:1/rest/getAlbum?u=u&p=p%20w&v=1%2E16%2E1&c=SELFsonic&f=json&id=a%2Fb"
    );
    assert_eq!(
        client.cover_art_url("c1"),
        "http://h:1/rest/getCoverArt?u=u&p=p%20w&v=1%2E16%2E1&c=SELFsonic&f=json&id=c1"
    );
}

#[test]
fn non_ascii_values_are_encoded_byte_by_byte() {
    let client = Client::new("http://h", "ю", "p").unwrap();
    let url = client.url("ping", &[]);
    assert!(url.starts_with("http://h/rest/ping?u=%D1%8E&p=p&"));
}

#[test]
fn retries_back_off_and_give_up() {
    assert_eq!(retry_delay(1), 500);
    assert_eq!(retry_delay(2), 1000);
    assert_eq!(retry_delay(3), 2000);
    assert!(matches!(after_status("getArtists", 0, 200), CallStep::Read));
    assert!(matches!(after_status("getArtists", 0, 404), CallStep::Read));
    assert!(matches!(
        after_status("getArtists", 0, 503),
        CallStep::Retry { attempt: 1, delay_ms: 500 }
    ));
    assert!(matches!(
        after_status("getArtists", 2, 500),
        CallStep::Retry { attempt: 3, delay_ms: 2000 }
    ));
    match after_status("getArtists", 3, 502) {
        CallStep::Fail(AppError::Network(m)) => {
            assert_eq!(m, "getArtists: server responded 502 after 3 attempts")
        }
        other => panic!("expected a failure, got {other:?}"),
    }
    assert!(matches!(
        after_transport_error("ping", 1, "refused"),
        CallStep::Retry { attempt: 2, delay_ms: 1000 }
    ));
    match after_transport_error("ping", 3, "refused") {
        CallStep::Fail(AppError::Network(m)) => assert_eq!(m, "ping: refused"),
        other => panic!("expected a failure, got {other:?}"),
    }
}

#[test]
fn answers_are_checked() {
    assert!(check_status(200).is_ok());
    assert!(check_status(500).is_ok());
    match check_status(401) {
        Err(AppError::Network(m)) => assert_eq!(m, "HTTP 401"),
        other => panic!("unexpected {other:?}"),
    }
    assert!(check_stream_status("stream t1", 206, "206 Partial Content").is_ok());
    match check_stream_status("stream t1", 404, "404 Not Found") {
        Err(AppError::Network(m)) => assert_eq!(m, "stream t1: HTTP 404 Not Found"),
        other => panic!("unexpected {other:?}"),
    }
    assert!(check_stream_status("stream t1", 503, "503 Service Unavailable").is_err());
    let envelope = |status: &str, error: Option<ApiError>, data: Option<u8>| SubsonicResponse {
        response: ResponseEnvelope {
            status: status.into(),
            version: "1.16.1".into(),
            error,
            data,
        },
    };
    assert_eq!(response_data(envelope("ok", None, Some(7))).unwrap(), 7);
    match response_data(envelope("ok", None, None)) {
        Err(AppError::Api { code, message }) => {
            assert_eq!(code, 0);
            assert_eq!(message, "empty response");
        }
        other => panic!("unexpected {other:?}"),
    }
    match response_data(envelope(
        "failed",
        Some(ApiError { code: 40, message: "Wrong username or password".into() }),
        None,
    )) {
        Err(AppError::Api { code, message }) => {
            assert_eq!(code, 40);
            assert_eq!(message, "Wrong username or password");
        }
        other => panic!("unexpected {other:?}"),
    }
    match response_data(envelope("failed", None, Some(1))) {
        Err(AppError::Api { code, message }) => {
            assert_eq!(code, 0);
            assert_eq!(message, "unknown server error");
        }
        other => panic!("unexpected {other:?}"),
    }
}

#[test]
fn errors_read_as_text() {
    assert_eq!(AppError::Network("HTTP 401".into()).message(), "network: HTTP 401");
    assert_eq!(
        AppError::Api { code: -3, message: "x".into() }.message(),
        "Subsonic API (-3): x"
    );
    assert_eq!(
        AppError::Io { path: "/tmp/a".into(), detail: "denied".into() }.message(),
        "IO (/tmp/a): denied"
    );
    assert_eq!(AppError::Other("plain".into()).message(), "plain");
}

#[test]
fn payloads_are_flattened() {
    let artist = |id: &str| ArtistId3 { id: id.into(), name: id.into(), album_count: None };
    let payload = ArtistsPayload {
        artists: ArtistsIndex {
            index: vec![
                ArtistIndexEntry { name: "A".into(), artist: vec![artist("a1"), artist("a2")] },
                ArtistIndexEntry { name: "B".into(), artist: vec![] },
                ArtistIndexEntry { name: "C".into(), artist: vec![artist("c1")] },
            ],
        },
    };
    let got: Vec<String> = artists_of(payload).into_iter().map(|a| a.id).collect();
    assert_eq!(got, vec!["a1", "a2", "c1"]);
    assert!(playlists_of(PlaylistsPayload { playlists: None }).is_empty());
    let lists = PlaylistsPayload {
        playlists: Some(PlaylistList {
            playlist: vec![Playlist { id: "p".into(), name: "P".into(), song_count: None, duration: None }],
        }),
    };
    assert_eq!(playlists_of(lists).len(), 1);
}

#[test]
fn catalogue_paging_stops_on_short_page() {
    assert_eq!(next_catalogue_page(1, 500), Some(500));
    assert_eq!(next_catalogue_page(1, 499), None);
    assert_eq!(next_catalogue_page(2, 1000), Some(1000));
    assert_eq!(next_catalogue_page(500, 250_000), None);
}

// ---------- cache rows ----------

#[test]
fn server_entries_become_cache_rows() {
    let c = Child { id: "t".into(), title: Some("T".into()), duration: None, track: Some(4), ..Default::default() };
    let row = track_of_child(&c, "al9");
    assert_eq!(row.id, "t");
    assert_eq!(row.album_id, "al9");
    assert_eq!(row.title, "T");
    assert_eq!(row.artist, "");
    assert_eq!(row.duration, 0);
    assert_eq!(row.track_number, Some(4));
    assert_eq!(playlist_album_id("p1"), "playlist:p1");
}

// ---------- player ----------

#[test]
fn next_then_previous_returns_to_the_same_track() {
    let mut e = Engine::new();
    assert_eq!(e.set_queue(vec![track("a"), track("b"), track("c")], 1), PlayerOp::Jump(1));
    assert_eq!(e.play_track_at(1, true), Some(1));
    assert_eq!(e.current().unwrap().id, "b");
    assert_eq!(e.next(), PlayerOp::Jump(2));
    assert_eq!(e.play_track_at(2, true), Some(2));
    assert_eq!(e.previous(), PlayerOp::Jump(1));
    assert_eq!(e.play_track_at(1, true), Some(1));
    assert_eq!(e.current().unwrap().id, "b");
}

#[test]
fn queue_end_finishes_without_repeat() {
    let mut e = Engine::new();
    e.set_queue(vec![track("a")], 0);
    e.play_track_at(0, true);
    assert_eq!(e.next(), PlayerOp::Finish);
    assert!(e.stopped());
    assert!(e.current().is_none());
    let mut e = Engine::new();
    e.set_queue(vec![track("a"), track("b")], 1);
    e.set_loop_mode(LoopMode::Playlist);
    e.play_track_at(1, true);
    assert_eq!(e.next(), PlayerOp::Jump(0));
}

#[test]
fn toggle_pauses_and_resumes() {
    let mut e = Engine::new();
    assert_eq!(e.toggle(), PlayerOp::Keep);
    e.set_queue(vec![track("a")], 0);
    e.play_track_at(0, true);
    assert_eq!(e.toggle(), PlayerOp::Pause);
    assert!(e.paused());
    assert_eq!(e.toggle(), PlayerOp::Resume);
    assert_eq!(e.stop(), PlayerOp::Halt);
    assert_eq!(e.toggle(), PlayerOp::Start(0));
}

#[test]
fn shuffle_keeps_the_queue_and_current_entry() {
    let mut e = Engine::new();
    let q: Vec<TrackMeta> = (0..20).map(|i| track(&format!("t{i}"))).collect();
    e.set_queue(q, 7);
    assert!(e.toggle_shuffle());
    assert_eq!(e.queue().len(), 20);
    assert_eq!(e.track_at(e.queue_pos()).unwrap().id, "t7");
    assert!(!e.toggle_shuffle());
    assert_eq!(e.track_at(e.queue_pos()).unwrap().id, "t7");
}

#[test]
fn snapshot_restores_the_queue() {
    let mut e = Engine::new();
    e.set_queue(vec![track("a"), track("b"), track("c")], 2);
    let snap = e.state_snapshot();
    assert_eq!(snap.queue, vec!["a", "b", "c"]);
    let mut f = Engine::new();
    f.restore_state(snap.shuffle, snap.loop_mode, &snap.queue, snap.queue_pos, vec![track("c"), track("a"), track("b")]);
    assert_eq!(ids(f.queue()), vec!["a", "b", "c"]);
    assert_eq!(f.queue_pos(), 2);
}

#[test]
fn appended_tracks_follow_the_queue() {
    let mut e = Engine::new();
    e.set_queue(vec![track("a")], 0);
    e.play_track_at(0, true);
    assert_eq!(e.append_tracks(vec![track("b"), track("c")]), PlayerOp::Keep);
    assert_eq!(ids(e.queue()), vec!["a", "b", "c"]);
    assert_eq!(e.queue_remaining(), 2);
}

#[test]
fn appending_to_an_idle_player_starts_the_first_added_track() {
    let mut e = Engine::new();
    assert_eq!(e.append_tracks(vec![track("x"), track("y")]), PlayerOp::Start(0));
    assert!(!e.stopped());
    assert_eq!(e.play_track_at(0, true), Some(0));
    assert_eq!(ids(e.queue()), vec!["x", "y"]);
    assert_eq!(e.current().unwrap().id, "x");
    assert_eq!(e.queue_pos(), 0);
    // A queue that ran out goes on with the first added track.
    assert_eq!(e.next(), PlayerOp::Jump(1));
    e.play_track_at(1, true);
    assert_eq!(e.next(), PlayerOp::Finish);
    assert_eq!(e.append_tracks(vec![track("z")]), PlayerOp::Start(2));
    assert_eq!(e.play_track_at(2, true), Some(2));
    assert_eq!(e.current().unwrap().id, "z");
}

#[test]
fn a_start_past_the_end_plays_nothing() {
    let mut e = Engine::new();
    e.start_dj(track("s"));
    let gen = e.queue_gen();
    assert_eq!(e.set_queue(vec![track("a"), track("b")], 2), PlayerOp::Halt);
    assert_eq!(ids(e.queue()), vec!["a", "b"]);
    assert!(e.current().is_none());
    assert!(e.stopped());
    assert_eq!(e.queue_gen(), gen + 1);
    assert!(!e.dj_enabled());
    assert!(e.dj_anchor().is_none());
    assert_eq!(e.set_queue(Vec::new(), 0), PlayerOp::Halt);
    assert!(e.stopped());
    assert_eq!(e.set_queue(vec![track("a"), track("b")], 1), PlayerOp::Jump(1));
    assert!(!e.stopped());
}

#[test]
fn scrobble_once_after_threshold() {
    let mut e = Engine::new();
    e.set_queue(vec![track("a")], 0);
    e.play_track_at(0, true);
    assert_eq!(e.maybe_scrobble(1_000_000_000, 50_000_000_000), None);
    assert_eq!(e.maybe_scrobble(1_000_000_000, 100_000_000_000), Some("a".to_string()));
    assert_eq!(e.maybe_scrobble(1_000_000_000, 150_000_000_000), None);
}

// ---------- DJ ----------

#[test]
fn dj_cascade_goes_through_the_sources() {
    let current = track("cur");
    let mut exclude = HashSet::new();
    exclude.insert("cur".to_string());
    assert!(matches!(collect_start(), DjNext::Fetch(DjStep::Similar)));
    let only_current = vec![Child { id: "cur".into(), ..Default::default() }];
    assert!(matches!(
        collect_step(DjStep::Similar, &current, only_current, &exclude),
        DjNext::Fetch(DjStep::Artist)
    ));
    let mut no_artist = track("cur");
    no_artist.artist = String::new();
    assert!(matches!(
        collect_step(DjStep::Similar, &no_artist, vec![], &exclude),
        DjNext::Fetch(DjStep::Random)
    ));
    match collect_step(DjStep::Artist, &current, vec![Child { id: "n".into(), ..Default::default() }], &exclude) {
        DjNext::Done(o) => {
            assert_eq!(o.source, DjStep::Artist);
            assert_eq!(ids(&o.tracks), vec!["n"]);
        }
        other => panic!("unexpected {other:?}"),
    }
    match collect_step(DjStep::Random, &current, vec![], &exclude) {
        DjNext::Done(o) => assert!(o.tracks.is_empty()),
        other => panic!("unexpected {other:?}"),
    }
}

// ---------- MPRIS ----------

#[test]
fn track_paths_round_trip() {
    let p = track_path("abc");
    assert_eq!(p, "/org/mpris/MediaPlayer2/Track/abc");
    assert_eq!(track_id_of_path(&p), Some("abc".to_string()));
    assert_eq!(track_id_of_path("/other/abc"), None);
}

#[test]
fn metadata_leaves_out_empty_fields() {
    let mut t = track("x");
    t.album = String::new();
    t.duration = 0;
    let m = metadata_fields(&t, None);
    assert_eq!(m.track_path, "/org/mpris/MediaPlayer2/Track/x");
    assert_eq!(m.length_secs, None);
    assert_eq!(m.title, Some("title x".to_string()));
    assert_eq!(m.album, None);
    assert_eq!(m.album_artist, None);
    let m = metadata_fields(&track("y"), Some("http://art".into()));
    assert_eq!(m.length_secs, Some(200));
    assert_eq!(m.album_artist, Some("artist".to_string()));
    assert_eq!(m.art_url, Some("http://art".to_string()));
}

#[test]
fn mpris_properties_are_announced_only_on_change() {
    let mut shown = MprisShadow::new();
    assert!(!mpris_change(&mut shown, MprisProp::Status(PlaybackState::Stopped)));
    assert!(mpris_change(&mut shown, MprisProp::Status(PlaybackState::Playing)));
    assert_eq!(shown.status, PlaybackState::Playing);
    assert!(!mpris_change(&mut shown, MprisProp::Status(PlaybackState::Playing)));
    assert!(mpris_change(&mut shown, MprisProp::Loop(LoopMode::Track)));
    assert!(!mpris_change(&mut shown, MprisProp::Loop(LoopMode::Track)));
    assert!(mpris_change(&mut shown, MprisProp::CanSeek(true)));
    assert!(!mpris_change(&mut shown, MprisProp::CanPlay(false)));
    assert!(!mpris_change(&mut shown, MprisProp::Metadata(None)));
    assert!(mpris_change(&mut shown, MprisProp::Metadata(Some(metadata_fields(&track("a"), None)))));
    assert!(!mpris_change(&mut shown, MprisProp::Metadata(Some(metadata_fields(&track("a"), None)))));
    assert!(mpris_change(&mut shown, MprisProp::Metadata(Some(metadata_fields(&track("b"), None)))));
    assert!(mpris_change(
        &mut shown,
        MprisProp::Metadata(Some(metadata_fields(&track("b"), Some("http://art".into()))))
    ));
    assert!(mpris_change(&mut shown, MprisProp::Metadata(None)));
    assert!(shown.metadata.is_none());
}

#[test]
fn track_list_is_published_when_the_queue_changes() {
    assert!(track_list_due(None, 0));
    assert!(!track_list_due(Some(3), 3));
    assert!(track_list_due(Some(3), 4));
}

#[test]
fn player_flags_follow_the_state() {
    let mut e = Engine::new();
    let f = player_flags(&e);
    assert_eq!(f.status, PlaybackState::Stopped);
    assert!(!f.can_play && !f.can_go_next && !f.can_go_previous);
    e.set_queue(vec![track("a"), track("b")], 0);
    e.play_track_at(0, true);
    let f = player_flags(&e);
    assert_eq!(f.status, PlaybackState::Playing);
    assert!(f.can_go_next && !f.can_go_previous && f.can_pause && f.can_seek);
    e.toggle();
    assert_eq!(player_flags(&e).status, PlaybackState::Paused);
}

// ---------- interface ----------

#[test]
fn tabs_cycle() {
    let mut t = Tab::Artists;
    for _ in 0..5 {
        t = t.next();
    }
    assert_eq!(t, Tab::Artists);
    assert_eq!(Tab::Artists.prev(), Tab::Queue);
    assert_eq!(Tab::Queue.next().prev(), Tab::Queue);
    assert_eq!(Tab::Favorites.label(), "Favorites");
}

#[test]
fn back_restores_the_opened_level() {
    let mut app = AppState::new();
    let albums = vec![
        CachedAlbum { id: "al1".into(), name: "One".into(), artist: "A".into(), duration: 0, year: None },
        CachedAlbum { id: "al2".into(), name: "Two".into(), artist: "A".into(), duration: 0, year: Some(2001) },
    ];
    app.show_albums(&albums);
    assert_eq!(app.list.len(), 3);
    assert!(matches!(app.list[2], ListItem::More));
    app.move_down();
    app.show_tracks(&[cached("t1"), cached("t2")], "Two".into());
    assert!(app.has_parent());
    assert_eq!(app.list_title, "Two");
    assert_eq!(app.selected, 0);
    app.back();
    assert!(!app.has_parent());
    assert_eq!(app.list_title, "Albums");
    assert_eq!(app.selected, 1);
    assert_eq!(app.list.len(), 3);
}

#[test]
fn back_restores_the_level_after_several_lists() {
    let mut app = AppState::new();
    app.show_favorites(&[cached("a"), cached("b"), cached("c")]);
    app.move_down();
    let title = app.list_title.clone();
    app.push_level();
    app.set_list(vec![ListItem::More], "first".into());
    app.set_list(vec![ListItem::More, ListItem::More], "second".into());
    app.move_down();
    assert!(app.has_parent());
    app.back();
    assert!(!app.has_parent());
    assert_eq!(app.list.len(), 3);
    assert_eq!(app.selected, 1);
    assert_eq!(app.list_title, title);
    assert_eq!(app.tab, Tab::Artists);
    // Without a saved level nothing changes.
    app.back();
    assert_eq!(app.list.len(), 3);
    assert_eq!(app.selected, 1);
}

#[test]
fn rows_show_their_parts() {
    let artist = ListItem::Artist { id: "a".into(), name: "Bach".into(), album_count: Some(12) };
    assert_eq!(row_texts(&artist, false), vec!["Bach", "  \u{b7} 12 alb."]);
    let artist = ListItem::Artist { id: "a".into(), name: "Bach".into(), album_count: None };
    assert_eq!(row_texts(&artist, false), vec!["Bach", "  \u{b7} 0 alb."]);
    let album = ListItem::Album {
        id: "al".into(),
        name: "Mass".into(),
        artist: "Bach".into(),
        year: Some(1749),
        duration: 6125,
    };
    assert_eq!(row_texts(&album, false), vec!["Mass", "  \u{2014} Bach", "  1749  102:05"]);
    let album = ListItem::Album { id: "al".into(), name: "M".into(), artist: "".into(), year: None, duration: 0 };
    assert_eq!(row_texts(&album, false), vec!["M", "  \u{2014} ", ""]);
    let mut t = track("t");
    t.track_number = Some(3);
    t.duration = 65;
    assert_eq!(
        row_texts(&ListItem::Track(t.clone()), true),
        vec![" 3. ", "\u{2665} ", "title t", "  \u{2014} artist", "  1:05"]
    );
    t.track_number = Some(12);
    t.artist = String::new();
    t.duration = 0;
    assert_eq!(row_texts(&ListItem::Track(t.clone()), false), vec!["12. ", "", "title t", "", ""]);
    t.track_number = None;
    assert_eq!(row_texts(&ListItem::Track(t), false)[0], "");
    let playlist = ListItem::Playlist { id: "p".into(), name: "Mix".into(), song_count: 7 };
    assert_eq!(row_texts(&playlist, false), vec!["Mix", "  \u{b7} 7 tracks"]);
    assert_eq!(row_texts(&ListItem::More, false), vec!["--- load more ---"]);
}

#[test]
fn selection_moves_inside_the_list() {
    let mut app = AppState::new();
    app.move_down();
    assert_eq!(app.selected, 0);
    app.show_favorites(&[cached("a"), cached("b"), cached("c")]);
    assert_eq!(app.list_title, "Favorites (3)");
    app.bottom();
    assert_eq!(app.selected, 2);
    app.move_down();
    assert_eq!(app.selected, 2);
    app.page(20, false);
    assert_eq!(app.selected, 0);
    app.page(20, true);
    assert_eq!(app.selected, 2);
    app.move_up();
    app.top();
    assert_eq!(app.selected, 0);
}

#[test]
fn enter_on_a_track_plays_the_level_from_it() {
    let mut app = AppState::new();
    let mut e = Engine::new();
    app.show_tracks(&[cached("a"), cached("b"), cached("c")], "Album".into());
    app.move_down();
    app.set_message("old".into(), false);
    match app.select_current(&mut e) {
        Selection::Played(op) => assert_eq!(op, PlayerOp::Jump(1)),
        other => panic!("unexpected {other:?}"),
    }
    assert!(app.message.is_none());
    assert_eq!(ids(e.queue()), vec!["a", "b", "c"]);
    assert_eq!(e.queue_pos(), 1);
}

#[test]
fn enter_on_other_rows_says_what_to_open() {
    let mut app = AppState::new();
    let mut e = Engine::new();
    assert!(matches!(app.select_current(&mut e), Selection::Nothing));
    app.show_playlists(&[CachedPlaylist { id: "p1".into(), name: "Mix".into(), song_count: 3 }]);
    match app.select_current(&mut e) {
        Selection::OpenPlaylist { id, name } => {
            assert_eq!(id, "p1");
            assert_eq!(name, "Mix");
        }
        other => panic!("unexpected {other:?}"),
    }
}

#[test]
fn queue_tab_snaps_to_the_current_track() {
    let mut app = AppState::new();
    let mut e = Engine::new();
    e.set_queue(vec![track("a"), track("b"), track("c")], 2);
    e.play_track_at(2, true);
    app.tab = Tab::Queue;
    app.open_queue();
    app.sync_queue(&e);
    assert_eq!(app.list_title, "Queue (3)");
    assert_eq!(app.selected, 2);
    app.move_up();
    app.sync_queue(&e);
    assert_eq!(app.selected, 1);
}

#[test]
fn unstarring_in_favorites_drops_the_row() {
    let mut app = AppState::new();
    app.tab = Tab::Favorites;
    app.show_favorites(&[cached("a"), cached("b")]);
    app.set_starred(vec!["a".into(), "b".into()]);
    app.bottom();
    let (t, starred) = app.favorite_target().unwrap();
    assert_eq!(t.id, "b");
    assert!(starred);
    app.favorite_toggled("b", false);
    assert_eq!(app.list.len(), 1);
    assert_eq!(app.selected, 0);
    assert_eq!(app.list_title, "Favorites (1)");
}

#[test]
fn favorites_need_a_selected_track() {
    let mut app = AppState::new();
    assert!(app.favorite_target().is_none());
    let m = app.message.clone().unwrap();
    assert_eq!(m.text, "Favorites: select a track first (f)");
    assert!(m.is_error);
}

#[test]
fn refresh_messages() {
    let mut app = AppState::new();
    app.refresh_started();
    assert!(app.loading);
    app.refresh_finished(Some("network: down".into()));
    assert!(!app.loading);
    assert_eq!(app.message.clone().unwrap().text, "Refresh error: network: down");
    app.refresh_finished(None);
    assert_eq!(app.message.clone().unwrap().text, "Library updated");
}

#[test]
fn album_paging_moves_on_until_empty() {
    let mut app = AppState::new();
    assert_eq!(app.more_albums_offset(), 500);
    app.albums_page_loaded(500, 200);
    assert_eq!(app.albums_offset, 500);
    assert_eq!(app.more_albums_offset(), 1000);
    app.albums_page_loaded(1000, 0);
    assert!(app.albums_exhausted);
    app.show_albums(&[]);
    assert!(app.list.is_empty());
}

// ---------- main loop ----------

#[test]
fn keys_drive_the_interface_and_the_player() {
    let mut app = AppState::new();
    let mut e = Engine::new();
    assert!(matches!(handle_action(&mut app, &mut e, Action::Quit, 10), KeyOutcome::Quit));
    assert!(matches!(handle_action(&mut app, &mut e, Action::NextTab, 10), KeyOutcome::LoadTab));
    assert_eq!(app.tab, Tab::Albums);
    assert!(matches!(handle_action(&mut app, &mut e, Action::SeekBackward, default_seek_step()), KeyOutcome::Seek(-10)));
    assert!(matches!(handle_action(&mut app, &mut e, Action::DJ, 10), KeyOutcome::Done));
    assert_eq!(app.message.clone().unwrap().text, "DJ: select a track first (d)");
    app.show_tracks(&[cached("a")], "A".into());
    assert!(matches!(handle_action(&mut app, &mut e, Action::DJ, 10), KeyOutcome::Player(PlayerOp::Jump(0))));
    assert!(e.dj_enabled());
    assert_eq!(ids(e.queue()), vec!["a"]);
    assert!(matches!(handle_action(&mut app, &mut e, Action::DJ, 10), KeyOutcome::Done));
    assert!(!e.dj_enabled());
    assert_eq!(app.message.clone().unwrap().text, "DJ: off");
}

#[test]
fn favorite_key_names_the_selected_track() {
    let mut app = AppState::new();
    let mut e = Engine::new();
    assert!(matches!(handle_action(&mut app, &mut e, Action::ToggleFavorite, 10), KeyOutcome::Done));
    assert_eq!(app.message.clone().unwrap().text, "Favorites: select a track first (f)");
    app.show_tracks(&[cached("a")], "A".into());
    match handle_action(&mut app, &mut e, Action::ToggleFavorite, 10) {
        KeyOutcome::Favorite { track, starred } => {
            assert_eq!(track.id, "a");
            assert!(!starred);
        }
        other => panic!("unexpected {other:?}"),
    }
    app.set_starred(vec!["a".to_string()]);
    assert!(matches!(
        handle_action(&mut app, &mut e, Action::ToggleFavorite, 10),
        KeyOutcome::Favorite { starred: true, .. }
    ));
}

#[test]
fn seek_keys_move_by_the_configured_step() {
    let mut app = AppState::new();
    let mut e = Engine::new();
    assert!(matches!(handle_action(&mut app, &mut e, Action::SeekForward, 30), KeyOutcome::Seek(30)));
    assert!(matches!(handle_action(&mut app, &mut e, Action::SeekBackward, 5), KeyOutcome::Seek(-5)));
    assert!(matches!(
        handle_action(&mut app, &mut e, Action::SeekForward, u64::MAX),
        KeyOutcome::Seek(i64::MAX)
    ));
}

#[test]
fn mpris_commands_reach_the_player() {
    let mut app = AppState::new();
    let mut e = Engine::new();
    e.set_queue(vec![track("a"), track("b")], 0);
    e.play_track_at(0, true);
    app.set_message("x".into(), false);
    match apply_command(&mut app, &mut e, PlayerCommand::GoTo("/org/mpris/MediaPlayer2/Track/b".into())) {
        CommandOutcome::Player(op) => assert_eq!(op, PlayerOp::Jump(1)),
        other => panic!("unexpected {other:?}"),
    }
    assert!(app.message.is_none());
    assert!(matches!(
        apply_command(&mut app, &mut e, PlayerCommand::Seek { offset_us: -2_500_000 }),
        CommandOutcome::SeekBy(-2)
    ));
    assert!(matches!(
        apply_command(&mut app, &mut e, PlayerCommand::SetPosition {
            track_id: "/org/mpris/MediaPlayer2/Track/a".into(),
            position_us: 3_000_000
        }),
        CommandOutcome::SeekTo(3_000_000)
    ));
    assert!(matches!(
        apply_command(&mut app, &mut e, PlayerCommand::SetPosition {
            track_id: "/org/mpris/MediaPlayer2/Track/b".into(),
            position_us: 3_000_000
        }),
        CommandOutcome::Done
    ));
    assert!(matches!(apply_command(&mut app, &mut e, PlayerCommand::Pause), CommandOutcome::Player(PlayerOp::Pause)));
    assert!(matches!(apply_command(&mut app, &mut e, PlayerCommand::Pause), CommandOutcome::Done));
}

#[test]
fn player_notices_become_messages() {
    let mut app = AppState::new();
    assert!(note_event(&mut app, &EngineEvent::TrackStarted { queue_index: 0 }));
    assert!(app.message.is_none());
    assert!(!note_event(&mut app, &EngineEvent::LoadFailed("Song".into())));
    let m = app.message.clone().unwrap();
    assert_eq!(m.text, "Failed to load \"Song\"");
    assert!(m.is_error);
    note_event(&mut app, &EngineEvent::QueueFinished);
    assert_eq!(app.message.clone().unwrap().text, "Queue finished");
}

#[test]
fn dj_refill_appends_a_batch() {
    let mut app = AppState::new();
    let mut e = Engine::new();
    e.set_queue(vec![track("s")], 0);
    e.play_track_at(0, true);
    e.start_dj(track("s"));
    assert!(dj_refill_due(&e, None));
    assert!(!dj_refill_due(&e, Some(10)));
    assert!(refill_target(&mut e).is_some());
    app.set_message("DJ: picking similar tracks...".into(), false);
    let batch: Vec<TrackMeta> = (0..30).map(|i| track(&format!("r{i}"))).collect();
    let op = refill_finish(&mut app, &mut e, Ok(DjOutcome { tracks: batch, source: DjStep::Random }));
    assert_eq!(op, PlayerOp::Keep);
    assert_eq!(e.queue().len(), 26);
    assert!(e.is_dj_random("r3"));
    assert!(!e.is_dj_random("r29"));
    assert!(app.message.is_none());
    let op = refill_finish(&mut app, &mut e, Err("network: down".into()));
    assert_eq!(op, PlayerOp::Keep);
    assert!(!e.dj_enabled());
    assert_eq!(app.message.clone().unwrap().text, "DJ: network: down");
}

#[test]
fn more_albums_load_when_the_last_row_is_selected() {
    let mut app = AppState::new();
    app.tab = Tab::Albums;
    app.show_albums(&[]);
    assert!(wants_more_albums(&app));
    app.loading = true;
    assert!(!wants_more_albums(&app));
}

// ---------- colours ----------

#[test]
fn palette_slots_override_the_fixed_set() {
    let mut p = Palette::default();
    assert_eq!(Theme::from_palette(&p, ThemeMode::Light), Theme::light());
    p.color3 = Some((1, 2, 3));
    let t = Theme::from_palette(&p, ThemeMode::Dark);
    assert_eq!(t.yellow, Color::Rgb(1, 2, 3));
    assert_eq!(t.border, Color::Rgb(1, 2, 3));
    assert_eq!(t.accent, Color::Rgb(1, 2, 3));
    assert_eq!(t.red, Theme::dark().red);
    assert_eq!(t.fg, Color::Reset);
}

#[test]
fn tab_loads_say_what_to_read() {
    let mut app = AppState::new();
    assert_eq!(app.begin_tab_load(), TabLoad::Artists);
    app.tab = Tab::Albums;
    app.albums_page_loaded(500, 0);
    assert!(app.albums_exhausted);
    assert_eq!(app.begin_tab_load(), TabLoad::Albums { limit: 500 });
    assert!(!app.albums_exhausted);
    assert_eq!(app.albums_offset, 0);
    app.tab = Tab::Queue;
    assert_eq!(app.begin_tab_load(), TabLoad::Nothing);
    assert_eq!(app.list_title, "Queue");
}

#[test]
fn shuffle_changes_the_play_order() {
    let mut e = Engine::new();
    let q: Vec<TrackMeta> = (0..20).map(|i| track(&format!("t{i}"))).collect();
    e.set_queue(q, 0);
    let before: Vec<String> = (0..20).map(|i| e.track_at(i).unwrap().id).collect();
    e.toggle_shuffle();
    let after: Vec<String> = (0..20).map(|i| e.track_at(i).unwrap().id).collect();
    assert_eq!(after[0], "t0");
    assert_ne!(before, after);
    let mut sorted = after.clone();
    sorted.sort();
    let mut expected = before.clone();
    expected.sort();
    assert_eq!(sorted, expected);
}
