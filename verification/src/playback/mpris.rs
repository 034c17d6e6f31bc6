//! What the player tells MPRIS: track paths, metadata fields and the
//! capability flags. The D-Bus service itself belongs to the application.
use crate::playback::engine::{Engine, EngineView, LoopMode, TrackMeta};
use crate::text::{has_prefix, str_eq, strip_prefix};
use vstd::prelude::*;
use vstd::string::{StrSliceExecFns, StringExecFns};

verus! {

/// The object path of the tracks below which the ids of the server stand.
pub const TRACK_PREFIX: &'static str = "/org/mpris/MediaPlayer2/Track/";

/// The MPRIS track path of a track of the server.
pub fn track_path(id: &str) -> (r: String)
    ensures
        r@ == TRACK_PREFIX@ + id@,
{
    let mut s = TRACK_PREFIX.to_owned();
    s.append(id);
    s
}

/// The id of the server in an MPRIS track path, if it is one of ours.
pub fn track_id_of_path(path: &str) -> (r: Option<String>)
    ensures
        r is Some == has_prefix(path@, TRACK_PREFIX@),
        r is Some ==> TRACK_PREFIX@ + r->0@ == path@,
{
    let r = strip_prefix(path, TRACK_PREFIX);
    proof {
        if r is Some {
            assert(TRACK_PREFIX@ + r->0@ =~= path@);
        }
    }
    r
}

/// The path of a track goes back to its id.
pub proof fn lemma_track_path_round_trip(id: Seq<char>)
    ensures
        has_prefix(TRACK_PREFIX@ + id, TRACK_PREFIX@),
        (TRACK_PREFIX@ + id).subrange(TRACK_PREFIX@.len() as int, (TRACK_PREFIX@ + id).len() as int)
            == id,
{
    assert((TRACK_PREFIX@ + id).subrange(0, TRACK_PREFIX@.len() as int) =~= TRACK_PREFIX@);
    assert((TRACK_PREFIX@ + id).subrange(
        TRACK_PREFIX@.len() as int,
        (TRACK_PREFIX@ + id).len() as int,
    ) =~= id);
}

/// The metadata of a track as MPRIS shows it; absent fields are left out.
#[derive(Debug)]
pub struct MetadataFields {
    pub track_path: String,
    pub length_secs: Option<i64>,
    pub title: Option<String>,
    pub artist: Option<String>,
    pub album: Option<String>,
    pub album_artist: Option<String>,
    pub art_url: Option<String>,
    pub track_number: Option<i32>,
    pub disc_number: Option<i32>,
}

/// The characters of an optional text.
pub open spec fn opt_text(o: Option<String>) -> Option<Seq<char>> {
    match o {
        Some(s) => Some(s@),
        None => None,
    }
}

/// What the contracts say of the metadata of a track.
pub struct MetadataView {
    pub track_path: Seq<char>,
    pub length_secs: Option<i64>,
    pub title: Option<Seq<char>>,
    pub artist: Option<Seq<char>>,
    pub album: Option<Seq<char>>,
    pub album_artist: Option<Seq<char>>,
    pub art_url: Option<Seq<char>>,
    pub track_number: Option<i32>,
    pub disc_number: Option<i32>,
}

impl View for MetadataFields {
    type V = MetadataView;

    open spec fn view(&self) -> MetadataView {
        MetadataView {
            track_path: self.track_path@,
            length_secs: self.length_secs,
            title: opt_text(self.title),
            artist: opt_text(self.artist),
            album: opt_text(self.album),
            album_artist: opt_text(self.album_artist),
            art_url: opt_text(self.art_url),
            track_number: self.track_number,
            disc_number: self.disc_number,
        }
    }
}

/// A text that is kept only when it is not empty.
pub open spec fn present(s: Seq<char>, field: Option<String>) -> bool {
    if s.len() > 0 {
        field is Some && field->0@ == s
    } else {
        field is None
    }
}

/// The metadata of a track: its path, the length when known, the title,
/// artist and album when not empty (the artist is then also the album
/// artist), the cover URL, and the track and disc numbers.
pub fn metadata_fields(track: &TrackMeta, art_url: Option<String>) -> (r: MetadataFields)
    ensures
        r.track_path@ == TRACK_PREFIX@ + track.id@,
        r.length_secs == (if track.duration > 0 {
            Some(track.duration as i64)
        } else {
            None
        }),
        present(track.title@, r.title),
        present(track.artist@, r.artist),
        present(track.album@, r.album),
        track.album@.len() > 0 ==> r.album_artist is Some && r.album_artist->0@ == track.artist@,
        track.album@.len() == 0 ==> r.album_artist is None,
        r.art_url == art_url,
        r.track_number == track.track_number,
        r.disc_number == track.disc_number,
{
    let has_album = track.album.as_str().unicode_len() > 0;
    MetadataFields {
        track_path: track_path(track.id.as_str()),
        length_secs: if track.duration > 0 {
            Some(track.duration as i64)
        } else {
            None
        },
        title: if track.title.as_str().unicode_len() > 0 {
            Some(track.title.clone())
        } else {
            None
        },
        artist: if track.artist.as_str().unicode_len() > 0 {
            Some(track.artist.clone())
        } else {
            None
        },
        album: if has_album {
            Some(track.album.clone())
        } else {
            None
        },
        album_artist: if has_album {
            Some(track.artist.clone())
        } else {
            None
        },
        art_url,
        track_number: track.track_number,
        disc_number: track.disc_number,
    }
}

/// The playback status shown to MPRIS.
#[derive(Debug, Clone, Copy, PartialEq, Eq, Structural)]
pub enum PlaybackState {
    Playing,
    Paused,
    Stopped,
}

/// What MPRIS may offer the user.
#[derive(Debug, Clone, Copy, PartialEq, Eq, Structural)]
pub struct PlayerFlags {
    pub status: PlaybackState,
    pub can_go_next: bool,
    pub can_go_previous: bool,
    pub can_play: bool,
    pub can_pause: bool,
    pub can_seek: bool,
}

/// The flags of a player state.
pub open spec fn flags_of(v: EngineView) -> PlayerFlags {
    PlayerFlags {
        status: if v.current is None {
            PlaybackState::Stopped
        } else if !v.stopped && !v.paused {
            PlaybackState::Playing
        } else {
            PlaybackState::Paused
        },
        can_go_next: v.pos + 1 < v.queue.len() || v.loop_mode != LoopMode::Off,
        can_go_previous: v.pos > 0 || v.loop_mode == LoopMode::Playlist,
        can_play: v.queue.len() > 0,
        can_pause: v.current is Some,
        can_seek: v.current is Some,
    }
}

/// The status and capability flags of the player: next is possible before
/// the end of the queue or with a repeat mode, previous after the start or
/// when the whole queue repeats.
pub fn player_flags(engine: &Engine) -> (r: PlayerFlags)
    requires
        engine.wf(),
    ensures
        r == flags_of(engine@),
{
    let playing = !engine.stopped() && !engine.paused();
    let has_current = engine.current().is_some();
    let status = if !has_current {
        PlaybackState::Stopped
    } else if playing {
        PlaybackState::Playing
    } else {
        PlaybackState::Paused
    };
    let pos = engine.queue_pos();
    let n = engine.queue().len();
    let mode = engine.loop_mode();
    PlayerFlags {
        status,
        can_go_next: (pos < n && pos + 1 < n) || mode != LoopMode::Off,
        can_go_previous: pos > 0 || mode == LoopMode::Playlist,
        can_play: n > 0,
        can_pause: has_current,
        can_seek: has_current,
    }
}

// ---------- what is published ----------

/// A property of the player that MPRIS publishes, with its value.
#[derive(Debug)]
pub enum MprisProp {
    Status(PlaybackState),
    Loop(LoopMode),
    Shuffle(bool),
    CanGoNext(bool),
    CanGoPrevious(bool),
    CanPlay(bool),
    CanPause(bool),
    CanSeek(bool),
    /// The metadata of the current track; `None` is empty metadata.
    Metadata(Option<MetadataFields>),
}

/// What the contracts say of a published property.
pub enum MprisPropView {
    Status(PlaybackState),
    Loop(LoopMode),
    Shuffle(bool),
    CanGoNext(bool),
    CanGoPrevious(bool),
    CanPlay(bool),
    CanPause(bool),
    CanSeek(bool),
    Metadata(Option<MetadataView>),
}

impl View for MprisProp {
    type V = MprisPropView;

    open spec fn view(&self) -> MprisPropView {
        match self {
            MprisProp::Status(s) => MprisPropView::Status(*s),
            MprisProp::Loop(m) => MprisPropView::Loop(*m),
            MprisProp::Shuffle(b) => MprisPropView::Shuffle(*b),
            MprisProp::CanGoNext(b) => MprisPropView::CanGoNext(*b),
            MprisProp::CanGoPrevious(b) => MprisPropView::CanGoPrevious(*b),
            MprisProp::CanPlay(b) => MprisPropView::CanPlay(*b),
            MprisProp::CanPause(b) => MprisPropView::CanPause(*b),
            MprisProp::CanSeek(b) => MprisPropView::CanSeek(*b),
            MprisProp::Metadata(m) => MprisPropView::Metadata(
                match m {
                    Some(f) => Some(f@),
                    None => None,
                },
            ),
        }
    }
}

/// The properties last published to MPRIS.
pub struct MprisShadow {
    pub status: PlaybackState,
    pub loop_mode: LoopMode,
    pub shuffle: bool,
    pub can_go_next: bool,
    pub can_go_previous: bool,
    pub can_play: bool,
    pub can_pause: bool,
    pub can_seek: bool,
    pub metadata: Option<MetadataFields>,
}

/// What the contracts say of the published properties.
pub struct MprisShadowView {
    pub status: PlaybackState,
    pub loop_mode: LoopMode,
    pub shuffle: bool,
    pub can_go_next: bool,
    pub can_go_previous: bool,
    pub can_play: bool,
    pub can_pause: bool,
    pub can_seek: bool,
    pub metadata: Option<MetadataView>,
}

impl View for MprisShadow {
    type V = MprisShadowView;

    open spec fn view(&self) -> MprisShadowView {
        MprisShadowView {
            status: self.status,
            loop_mode: self.loop_mode,
            shuffle: self.shuffle,
            can_go_next: self.can_go_next,
            can_go_previous: self.can_go_previous,
            can_play: self.can_play,
            can_pause: self.can_pause,
            can_seek: self.can_seek,
            metadata: match self.metadata {
                Some(f) => Some(f@),
                None => None,
            },
        }
    }
}

/// Whether `v` already shows the value of `p`.
pub open spec fn shows(v: MprisShadowView, p: MprisPropView) -> bool {
    match p {
        MprisPropView::Status(s) => v.status == s,
        MprisPropView::Loop(m) => v.loop_mode == m,
        MprisPropView::Shuffle(b) => v.shuffle == b,
        MprisPropView::CanGoNext(b) => v.can_go_next == b,
        MprisPropView::CanGoPrevious(b) => v.can_go_previous == b,
        MprisPropView::CanPlay(b) => v.can_play == b,
        MprisPropView::CanPause(b) => v.can_pause == b,
        MprisPropView::CanSeek(b) => v.can_seek == b,
        MprisPropView::Metadata(m) => v.metadata == m,
    }
}

/// `v` with the value of `p` published.
pub open spec fn with_prop(v: MprisShadowView, p: MprisPropView) -> MprisShadowView {
    match p {
        MprisPropView::Status(s) => MprisShadowView { status: s, ..v },
        MprisPropView::Loop(m) => MprisShadowView { loop_mode: m, ..v },
        MprisPropView::Shuffle(b) => MprisShadowView { shuffle: b, ..v },
        MprisPropView::CanGoNext(b) => MprisShadowView { can_go_next: b, ..v },
        MprisPropView::CanGoPrevious(b) => MprisShadowView { can_go_previous: b, ..v },
        MprisPropView::CanPlay(b) => MprisShadowView { can_play: b, ..v },
        MprisPropView::CanPause(b) => MprisShadowView { can_pause: b, ..v },
        MprisPropView::CanSeek(b) => MprisShadowView { can_seek: b, ..v },
        MprisPropView::Metadata(m) => MprisShadowView { metadata: m, ..v },
    }
}

impl MprisShadow {
    /// What the service shows before anything was published: stopped, no
    /// repeat, no shuffle, nothing possible, empty metadata.
    pub fn new() -> (r: MprisShadow)
        ensures
            r@ == (MprisShadowView {
                status: PlaybackState::Stopped,
                loop_mode: LoopMode::Off,
                shuffle: false,
                can_go_next: false,
                can_go_previous: false,
                can_play: false,
                can_pause: false,
                can_seek: false,
                metadata: None,
            }),
    {
        MprisShadow {
            status: PlaybackState::Stopped,
            loop_mode: LoopMode::Off,
            shuffle: false,
            can_go_next: false,
            can_go_previous: false,
            can_play: false,
            can_pause: false,
            can_seek: false,
            metadata: None,
        }
    }
}

fn same_text(a: &Option<String>, b: &Option<String>) -> (r: bool)
    ensures
        r == (opt_text(*a) == opt_text(*b)),
{
    match (a, b) {
        (Some(x), Some(y)) => str_eq(x.as_str(), y.as_str()),
        (None, None) => true,
        _ => false,
    }
}

fn same_length(a: Option<i64>, b: Option<i64>) -> (r: bool)
    ensures
        r == (a == b),
{
    match (a, b) {
        (Some(x), Some(y)) => x == y,
        (None, None) => true,
        _ => false,
    }
}

fn same_index(a: Option<i32>, b: Option<i32>) -> (r: bool)
    ensures
        r == (a == b),
{
    match (a, b) {
        (Some(x), Some(y)) => x == y,
        (None, None) => true,
        _ => false,
    }
}

fn same_metadata(a: &MetadataFields, b: &MetadataFields) -> (r: bool)
    ensures
        r == (a@ == b@),
{
    str_eq(a.track_path.as_str(), b.track_path.as_str()) && same_length(a.length_secs, b.length_secs)
        && same_text(&a.title, &b.title) && same_text(&a.artist, &b.artist) && same_text(
        &a.album,
        &b.album,
    ) && same_text(&a.album_artist, &b.album_artist) && same_text(&a.art_url, &b.art_url)
        && same_index(a.track_number, b.track_number) && same_index(a.disc_number, b.disc_number)
}

fn same_published_metadata(a: &Option<MetadataFields>, b: &Option<MetadataFields>) -> (r: bool)
    ensures
        r == (match *a {
            Some(f) => Some(f@),
            None => None,
        } == match *b {
            Some(f) => Some(f@),
            None => None,
        }),
{
    match (a, b) {
        (Some(x), Some(y)) => same_metadata(x, y),
        (None, None) => true,
        _ => false,
    }
}

/// Publishes the value of a property: it is recorded, and the answer says
/// whether it differs from what was shown, that is whether MPRIS clients must
/// be told.
#[verifier::rlimit(40)]
pub fn mpris_change(shown: &mut MprisShadow, prop: MprisProp) -> (emit: bool)
    ensures
        emit == !shows(old(shown)@, prop@),
        final(shown)@ == with_prop(old(shown)@, prop@),
{
    match prop {
        MprisProp::Status(s) => {
            let emit = shown.status != s;
            shown.status = s;
            emit
        },
        MprisProp::Loop(m) => {
            let emit = shown.loop_mode != m;
            shown.loop_mode = m;
            emit
        },
        MprisProp::Shuffle(b) => {
            let emit = shown.shuffle != b;
            shown.shuffle = b;
            emit
        },
        MprisProp::CanGoNext(b) => {
            let emit = shown.can_go_next != b;
            shown.can_go_next = b;
            emit
        },
        MprisProp::CanGoPrevious(b) => {
            let emit = shown.can_go_previous != b;
            shown.can_go_previous = b;
            emit
        },
        MprisProp::CanPlay(b) => {
            let emit = shown.can_play != b;
            shown.can_play = b;
            emit
        },
        MprisProp::CanPause(b) => {
            let emit = shown.can_pause != b;
            shown.can_pause = b;
            emit
        },
        MprisProp::CanSeek(b) => {
            let emit = shown.can_seek != b;
            shown.can_seek = b;
            emit
        },
        MprisProp::Metadata(m) => {
            let same = same_published_metadata(&shown.metadata, &m);
            shown.metadata = m;
            !same
        },
    }
}

/// Whether the track list must be published again: the queue changed since
/// the generation `last` was published (or nothing was yet).
pub fn track_list_due(last: Option<usize>, queue_gen: usize) -> (r: bool)
    ensures
        r == (last != Some(queue_gen)),
{
    match last {
        Some(g) => g != queue_gen,
        None => true,
    }
}

} // verus!
