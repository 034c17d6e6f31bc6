//! The decisions of the main loop: keys, MPRIS commands, notices of the
//! player and the DJ refill. Each one changes the state of the interface and
//! of the player and tells the application what to do with the audio output
//! or the I/O around the library.
use crate::playback::dj::{
    DJ_BATCH, DJ_REFILL_AT, DjOutcome, DjStep, deduped, lemma_deduped_excludes, lemma_deduped_unique,
};
use crate::playback::engine::{
    Engine, EngineEvent, EngineView, LoopMode, PlayerOp, TrackMeta, advanced, index_played,
    queue_replaced, shuffle_switched, start_op, toggled, track_ids, tracks_appended, went_back,
};
use crate::playback::mpris::{TRACK_PREFIX, track_id_of_path};
use crate::text::{has_prefix, starts_with, str_eq, texts};
use crate::ui::app::{AppState, AppView, ListItem, Selection, Tab, selected_track_of, selection_made};
use crate::ui::keybindings::Action;
use vstd::prelude::*;
use vstd::string::StringExecFns;

verus! {

/// The rows one page key moves.
pub const PAGE_ROWS: usize = 20;

/// The seconds that a seek key with the configured step `step` moves:
/// forward, or backward; a step beyond what an `i64` holds seeks by the
/// largest one it does.
pub open spec fn seek_secs(step: u64, forward: bool) -> i64 {
    let s: int = if step <= i64::MAX {
        step as int
    } else {
        i64::MAX as int
    };
    if forward {
        s as i64
    } else {
        (-s) as i64
    }
}

/// The seek of a seek key with the step `step` (see `seek_secs`).
fn seek_by(step: u64, forward: bool) -> (r: i64)
    ensures
        r == seek_secs(step, forward),
{
    let s: i64 = if step <= 9_223_372_036_854_775_807u64 {
        step as i64
    } else {
        9_223_372_036_854_775_807i64
    };
    if forward {
        s
    } else {
        -s
    }
}

/// The least time between two DJ refills, in milliseconds.
pub const DJ_REFILL_MIN_INTERVAL_MS: u64 = 1000;

/// `after` is `before` with the message `text` (an error when `is_error`).
pub open spec fn with_message(before: AppView, after: AppView, text: Seq<char>, is_error: bool) -> bool {
    &&& after.message is Some
    &&& after.message->0.text@ == text
    &&& after.message->0.is_error == is_error
    &&& after == (AppView { message: after.message, ..before })
}

fn show_message(app: &mut AppState, text: &str, is_error: bool)
    ensures
        with_message(old(app)@, final(app)@, text@, is_error),
{
    app.set_message(text.to_owned(), is_error);
}

// ---------- keys ----------

/// What the application does after a key.
#[derive(Debug)]
pub enum KeyOutcome {
    /// Nothing more: the state was updated.
    Done,
    /// The program ends.
    Quit,
    /// Apply this step to the audio output.
    Player(PlayerOp),
    /// Load the tab now shown from the cache.
    LoadTab,
    /// Carry out what Enter selected.
    Selected(Selection),
    /// One volume step up (`true`) or down.
    Volume(bool),
    /// Seek by this many seconds.
    Seek(i64),
    /// Refresh the library from the server.
    Refresh,
    /// Star the track at the server and in the cache, or unstar it when
    /// `starred` (it is starred now).
    Favorite { track: TrackMeta, starred: bool },
}

/// The DJ key: the seed is the selected track, else the current one.
pub open spec fn dj_seed(app: AppView, engine: EngineView) -> Option<TrackMeta> {
    match selected_track_of(app) {
        Some(t) => Some(t),
        None => engine.current,
    }
}

/// What the DJ key does: without a seed it says so; with the DJ mode on it
/// switches it off; else the queue becomes the seed alone, played at once,
/// and the DJ mode starts from it.
pub open spec fn dj_toggled(
    app: AppView,
    app_after: AppView,
    engine: EngineView,
    engine_after: EngineView,
    r: KeyOutcome,
) -> bool {
    match dj_seed(app, engine) {
        None => {
            &&& with_message(app, app_after, "DJ: select a track first (d)"@, true)
            &&& engine_after == engine
            &&& r is Done
        },
        Some(seed) => if engine.dj_enabled {
            &&& with_message(app, app_after, "DJ: off"@, false)
            &&& engine_after == (EngineView { dj_enabled: false, ..engine })
            &&& r is Done
        } else {
            &&& with_message(app, app_after, "DJ: picking similar tracks..."@, false)
            &&& exists|mid: EngineView|
                #![trigger queue_replaced(engine, mid, seq![seed], 0)]
                queue_replaced(engine, mid, seq![seed], 0) && engine_after == (EngineView {
                    dj_enabled: true,
                    dj_anchor: Some(seed),
                    dj_random: Set::empty(),
                    ..mid
                })
            &&& r == KeyOutcome::Player(start_op(1, 0))
        },
    }
}

/// Carries out a key action on the interface and the player; the seek keys
/// move by `seek_step` seconds, the step of the configuration.
pub fn handle_action(app: &mut AppState, engine: &mut Engine, action: Action, seek_step: u64) -> (r:
    KeyOutcome)
    requires
        old(engine).wf(),
    ensures
        final(engine).wf(),
        match action {
            Action::Quit => r is Quit && final(app)@ == old(app)@ && final(engine)@ == old(engine)@,
            Action::Down => r is Done && final(app)@ == old(app)@.moved_down() && final(engine)@
                == old(engine)@,
            Action::Up => r is Done && final(app)@ == old(app)@.moved_up() && final(engine)@ == old(
                engine,
            )@,
            Action::PageDown => r is Done && final(app)@ == old(app)@.paged(PAGE_ROWS as int, true)
                && final(engine)@ == old(engine)@,
            Action::PageUp => r is Done && final(app)@ == old(app)@.paged(PAGE_ROWS as int, false)
                && final(engine)@ == old(engine)@,
            Action::Top => r is Done && final(app)@ == (AppView { selected: 0, ..old(app)@ })
                && final(engine)@ == old(engine)@,
            Action::Bottom => r is Done && final(app)@ == old(app)@.at_bottom() && final(engine)@
                == old(engine)@,
            Action::NextTab => r is LoadTab && final(app)@ == (AppView {
                tab: Tab::after(old(app)@.tab),
                ..old(app)@
            }) && final(engine)@ == old(engine)@,
            Action::PrevTab => r is LoadTab && final(app)@ == (AppView {
                tab: Tab::before(old(app)@.tab),
                ..old(app)@
            }) && final(engine)@ == old(engine)@,
            Action::Back => r is Done && final(app)@ == old(app)@.popped() && final(engine)@ == old(
                engine,
            )@,
            Action::Select => if old(app)@.tab == Tab::Queue {
                &&& final(app)@ == old(app)@
                &&& if old(app)@.selected < old(engine)@.queue.len() {
                    r matches KeyOutcome::Player(op) && index_played(
                        old(engine)@,
                        final(engine)@,
                        old(app)@.selected,
                        op,
                    )
                } else {
                    r is Done && final(engine)@ == old(engine)@
                }
            } else {
                r matches KeyOutcome::Selected(sel) && selection_made(
                    old(app)@,
                    final(app)@,
                    old(engine)@,
                    final(engine)@,
                    sel,
                )
            },
            Action::PlayPause => final(app)@ == old(app)@ && (r matches KeyOutcome::Player(op)
                && toggled(old(engine)@, final(engine)@, op)),
            Action::Next => final(app)@ == old(app)@ && (r matches KeyOutcome::Player(op) && advanced(
                old(engine)@,
                final(engine)@,
                op,
            )),
            Action::Previous => final(app)@ == old(app)@ && (r matches KeyOutcome::Player(op)
                && went_back(old(engine)@, final(engine)@, op)),
            Action::CycleLoop => r is Done && final(app)@ == old(app)@ && final(engine)@ == (
            EngineView { loop_mode: LoopMode::next_mode(old(engine)@.loop_mode), ..old(engine)@ }),
            Action::ToggleShuffle => r is Done && final(app)@ == old(app)@ && shuffle_switched(
                old(engine)@,
                final(engine)@,
                !old(engine)@.shuffle,
            ),
            Action::VolumeUp => r == KeyOutcome::Volume(true) && final(app)@ == old(app)@
                && final(engine)@ == old(engine)@,
            Action::VolumeDown => r == KeyOutcome::Volume(false) && final(app)@ == old(app)@
                && final(engine)@ == old(engine)@,
            Action::SeekForward => r == KeyOutcome::Seek(seek_secs(seek_step, true)) && final(app)@
                == old(app)@ && final(engine)@ == old(engine)@,
            Action::SeekBackward => r == KeyOutcome::Seek(seek_secs(seek_step, false))
                && final(app)@ == old(app)@ && final(engine)@ == old(engine)@,
            Action::Refresh => r is Refresh && final(app)@ == old(app)@ && final(engine)@ == old(
                engine,
            )@,
            Action::DJ => dj_toggled(old(app)@, final(app)@, old(engine)@, final(engine)@, r),
            Action::ToggleFavorite => final(engine)@ == old(engine)@ && match selected_track_of(
                old(app)@,
            ) {
                None => r is Done && with_message(
                    old(app)@,
                    final(app)@,
                    "Favorites: select a track first (f)"@,
                    true,
                ),
                Some(t) => r == (KeyOutcome::Favorite {
                    track: t,
                    starred: old(app)@.starred.contains(t.id@),
                }) && final(app)@ == old(app)@,
            },
        },
{
    match action {
        Action::Quit => KeyOutcome::Quit,
        Action::Down => {
            app.move_down();
            KeyOutcome::Done
        },
        Action::Up => {
            app.move_up();
            KeyOutcome::Done
        },
        Action::PageDown => {
            app.page(PAGE_ROWS, true);
            KeyOutcome::Done
        },
        Action::PageUp => {
            app.page(PAGE_ROWS, false);
            KeyOutcome::Done
        },
        Action::Top => {
            app.top();
            KeyOutcome::Done
        },
        Action::Bottom => {
            app.bottom();
            KeyOutcome::Done
        },
        Action::NextTab => {
            let t = app.current_tab().next();
            app.set_tab(t);
            KeyOutcome::LoadTab
        },
        Action::PrevTab => {
            let t = app.current_tab().prev();
            app.set_tab(t);
            KeyOutcome::LoadTab
        },
        Action::Back => {
            if app.has_parent() {
                app.back();
            }
            KeyOutcome::Done
        },
        Action::Select => {
            if app.current_tab() == Tab::Queue {
                let sel = app.selection();
                if sel < engine.queue().len() {
                    KeyOutcome::Player(engine.play_index(sel))
                } else {
                    KeyOutcome::Done
                }
            } else {
                KeyOutcome::Selected(app.select_current(engine))
            }
        },
        Action::PlayPause => KeyOutcome::Player(engine.toggle()),
        Action::Next => KeyOutcome::Player(engine.next()),
        Action::Previous => KeyOutcome::Player(engine.previous()),
        Action::CycleLoop => {
            engine.cycle_loop();
            KeyOutcome::Done
        },
        Action::ToggleShuffle => {
            engine.toggle_shuffle();
            KeyOutcome::Done
        },
        Action::VolumeUp => KeyOutcome::Volume(true),
        Action::VolumeDown => KeyOutcome::Volume(false),
        Action::SeekForward => KeyOutcome::Seek(seek_by(seek_step, true)),
        Action::SeekBackward => KeyOutcome::Seek(seek_by(seek_step, false)),
        Action::Refresh => KeyOutcome::Refresh,
        Action::DJ => toggle_dj(app, engine),
        Action::ToggleFavorite => match app.favorite_target() {
            Some((track, starred)) => KeyOutcome::Favorite { track, starred },
            None => KeyOutcome::Done,
        },
    }
}

/// The DJ key.
fn toggle_dj(app: &mut AppState, engine: &mut Engine) -> (r: KeyOutcome)
    requires
        old(engine).wf(),
    ensures
        final(engine).wf(),
        dj_toggled(old(app)@, final(app)@, old(engine)@, final(engine)@, r),
{
    let seed = match app.selected_track() {
        Some(t) => t,
        None => match engine.current() {
            Some(t) => t.clone(),
            None => {
                show_message(app, "DJ: select a track first (d)", true);
                return KeyOutcome::Done;
            },
        },
    };
    if engine.dj_enabled() {
        engine.set_dj(false);
        show_message(app, "DJ: off", false);
        KeyOutcome::Done
    } else {
        let ghost before = engine@;
        let mut single: Vec<TrackMeta> = Vec::new();
        single.push(seed.clone());
        assert(single@ =~= seq![seed]);
        let op = engine.set_queue(single, 0);
        let ghost mid = engine@;
        assert(queue_replaced(before, mid, seq![seed], 0));
        engine.start_dj(seed);
        show_message(app, "DJ: picking similar tracks...", false);
        KeyOutcome::Player(op)
    }
}

/// Two texts with the same prefix and the same result are equal.
proof fn lemma_prefix_cancel(p: Seq<char>, a: Seq<char>, b: Seq<char>)
    requires
        p + a == p + b,
    ensures
        a == b,
{
    assert((p + a).subrange(p.len() as int, (p + a).len() as int) =~= a);
    assert((p + b).subrange(p.len() as int, (p + b).len() as int) =~= b);
}

// ---------- MPRIS commands ----------

/// The commands that come from MPRIS (the volume is set by the application).
#[derive(Debug)]
pub enum PlayerCommand {
    Play,
    Pause,
    PlayPause,
    Next,
    Previous,
    Stop,
    Seek { offset_us: i64 },
    SetPosition { track_id: String, position_us: i64 },
    OpenUri(String),
    SetLoopStatus(LoopMode),
    SetShuffle(bool),
    GoTo(String),
    Quit,
}

/// What the application does after a command.
#[derive(Debug)]
pub enum CommandOutcome {
    /// Nothing more.
    Done,
    /// Apply this step to the audio output.
    Player(PlayerOp),
    /// Seek by this many seconds, then tell MPRIS the new position.
    SeekBy(i64),
    /// Seek to this many microseconds, then tell MPRIS the new position.
    SeekTo(u64),
    /// The URI cannot be opened (it is logged).
    Unsupported(String),
    /// The program ends.
    Quit,
}

/// The whole seconds of a number of microseconds, rounded toward zero.
pub open spec fn whole_seconds(us: int) -> int {
    if us >= 0 {
        us / 1_000_000
    } else {
        -((-us) / 1_000_000)
    }
}

fn seconds_of(us: i64) -> (r: i64)
    ensures
        r == whole_seconds(us as int),
{
    let wide: i128 = us as i128;
    let mag: u128 = if wide >= 0 {
        wide as u128
    } else {
        (-wide) as u128
    };
    let q: u128 = mag / 1_000_000;
    assert(q <= 9_223_372_036_855);
    if wide >= 0 {
        q as i64
    } else {
        -(q as i64)
    }
}

fn queue_index_of(queue: &[TrackMeta], id: &str) -> (r: Option<usize>)
    ensures
        r is None ==> forall|k: int| 0 <= k < queue@.len() ==> queue@[k].id@ != id@,
        r is Some ==> r->0 < queue@.len() && queue@[r->0 as int].id@ == id@ && (forall|j: int|
            0 <= j < r->0 ==> queue@[j].id@ != id@),
{
    let mut k: usize = 0;
    while k < queue.len()
        invariant
            k <= queue@.len(),
            forall|j: int| 0 <= j < k ==> queue@[j].id@ != id@,
        decreases queue@.len() - k,
    {
        if str_eq(queue[k].id.as_str(), id) {
            return Some(k);
        }
        k = k + 1;
    }
    None
}

/// What a command does to the player: play/pause, next, previous and stop as
/// the keys do; seeking is left to the audio output; a position is set only
/// on the current track; "go to" plays the first queue entry of the track.
pub open spec fn command_applied(
    engine: EngineView,
    engine_after: EngineView,
    cmd: PlayerCommand,
    r: CommandOutcome,
) -> bool {
    match cmd {
        PlayerCommand::Play | PlayerCommand::PlayPause => r matches CommandOutcome::Player(op)
            && toggled(engine, engine_after, op),
        PlayerCommand::Pause => if !engine.paused && !engine.stopped {
            r matches CommandOutcome::Player(op) && toggled(engine, engine_after, op)
        } else {
            r is Done && engine_after == engine
        },
        PlayerCommand::Next => r matches CommandOutcome::Player(op) && advanced(
            engine,
            engine_after,
            op,
        ),
        PlayerCommand::Previous => r matches CommandOutcome::Player(op) && went_back(
            engine,
            engine_after,
            op,
        ),
        PlayerCommand::Stop => r == CommandOutcome::Player(PlayerOp::Halt) && engine_after
            == engine.stopped_all(),
        PlayerCommand::Seek { offset_us } => r == CommandOutcome::SeekBy(
            whole_seconds(offset_us as int) as i64,
        ) && engine_after == engine,
        PlayerCommand::SetPosition { track_id, position_us } => {
            &&& engine_after == engine
            &&& if has_prefix(track_id@, TRACK_PREFIX@) && engine.current is Some && TRACK_PREFIX@
                + engine.current->0.id@ == track_id@ {
                r == CommandOutcome::SeekTo(position_us as u64)
            } else {
                r is Done
            }
        },
        PlayerCommand::OpenUri(uri) => r == CommandOutcome::Unsupported(uri) && engine_after
            == engine,
        PlayerCommand::SetLoopStatus(mode) => r is Done && engine_after == (EngineView {
            loop_mode: mode,
            ..engine
        }),
        PlayerCommand::SetShuffle(on) => r is Done && (if engine.shuffle != on {
            shuffle_switched(engine, engine_after, on)
        } else {
            engine_after == engine
        }),
        PlayerCommand::GoTo(path) => if has_prefix(path@, TRACK_PREFIX@) && (exists|k: int|
            0 <= k < engine.queue.len() && TRACK_PREFIX@ + engine.queue[k].id@ == path@) {
            r matches CommandOutcome::Player(op) && exists|k: int|
                0 <= k < engine.queue.len() && TRACK_PREFIX@ + engine.queue[k].id@ == path@
                    && (forall|j: int| 0 <= j < k ==> TRACK_PREFIX@ + engine.queue[j].id@ != path@)
                    && index_played(engine, engine_after, k, op)
        } else {
            r is Done && engine_after == engine
        },
        PlayerCommand::Quit => r is Quit && engine_after == engine,
    }
}

/// Carries out an MPRIS command; any message on screen is cleared.
pub fn apply_command(app: &mut AppState, engine: &mut Engine, cmd: PlayerCommand) -> (r:
    CommandOutcome)
    requires
        old(engine).wf(),
    ensures
        final(engine).wf(),
        final(app)@ == (AppView { message: None, ..old(app)@ }),
        command_applied(old(engine)@, final(engine)@, cmd, r),
{
    let r = match cmd {
        PlayerCommand::Play | PlayerCommand::PlayPause => CommandOutcome::Player(engine.toggle()),
        PlayerCommand::Pause => {
            if !engine.paused() && !engine.stopped() {
                CommandOutcome::Player(engine.toggle())
            } else {
                CommandOutcome::Done
            }
        },
        PlayerCommand::Next => CommandOutcome::Player(engine.next()),
        PlayerCommand::Previous => CommandOutcome::Player(engine.previous()),
        PlayerCommand::Stop => CommandOutcome::Player(engine.stop()),
        PlayerCommand::Seek { offset_us } => CommandOutcome::SeekBy(seconds_of(offset_us)),
        PlayerCommand::SetPosition { track_id, position_us } => {
            let on_current = match track_id_of_path(track_id.as_str()) {
                Some(id) => match engine.current() {
                    Some(t) => {
                        let same = str_eq(t.id.as_str(), id.as_str());
                        proof {
                            if TRACK_PREFIX@ + t.id@ == track_id@ {
                                lemma_prefix_cancel(TRACK_PREFIX@, t.id@, id@);
                            }
                        }
                        same
                    },
                    None => false,
                },
                None => false,
            };
            if on_current {
                CommandOutcome::SeekTo(position_us as u64)
            } else {
                CommandOutcome::Done
            }
        },
        PlayerCommand::OpenUri(uri) => CommandOutcome::Unsupported(uri),
        PlayerCommand::SetLoopStatus(mode) => {
            engine.set_loop_mode(mode);
            CommandOutcome::Done
        },
        PlayerCommand::SetShuffle(on) => {
            if engine.shuffle() != on {
                engine.toggle_shuffle();
            }
            CommandOutcome::Done
        },
        PlayerCommand::GoTo(path) => {
            match track_id_of_path(path.as_str()) {
                Some(id) => match queue_index_of(engine.queue(), id.as_str()) {
                    Some(k) => {
                        proof {
                            assert(TRACK_PREFIX@ + engine@.queue[k as int].id@ == path@);
                            assert forall|j: int| 0 <= j < k implies TRACK_PREFIX@
                                + engine@.queue[j].id@ != path@ by {
                                if TRACK_PREFIX@ + engine@.queue[j].id@ == path@ {
                                    lemma_prefix_cancel(TRACK_PREFIX@, engine@.queue[j].id@, id@);
                                }
                            }
                        }
                        let ghost before = engine@;
                        let op = engine.play_index(k);
                        assert(index_played(before, engine@, k as int, op));
                        assert(0 <= k < before.queue.len() && TRACK_PREFIX@ + before.queue[k as int].id@
                            == path@);
                        CommandOutcome::Player(op)
                    },
                    None => {
                        proof {
                            assert forall|k: int| 0 <= k < engine@.queue.len() implies TRACK_PREFIX@
                                + engine@.queue[k].id@ != path@ by {
                                if TRACK_PREFIX@ + engine@.queue[k].id@ == path@ {
                                    lemma_prefix_cancel(TRACK_PREFIX@, engine@.queue[k].id@, id@);
                                }
                            }
                        }
                        CommandOutcome::Done
                    },
                },
                None => CommandOutcome::Done,
            }
        },
        PlayerCommand::Quit => CommandOutcome::Quit,
    };
    app.clear_message();
    r
}

// ---------- notices of the player ----------

/// Shows what a notice of the player means for the user; returns whether a
/// track started (MPRIS is then told that the position jumped).
pub fn note_event(app: &mut AppState, ev: &EngineEvent) -> (started: bool)
    ensures
        started == (*ev is TrackStarted),
        match *ev {
            EngineEvent::QueueFinished => with_message(old(app)@, final(app)@, "Queue finished"@, false),
            EngineEvent::LoadFailed(title) => with_message(
                old(app)@,
                final(app)@,
                "Failed to load \""@ + title@ + "\""@,
                true,
            ),
            _ => final(app)@ == old(app)@,
        },
{
    match ev {
        EngineEvent::TrackStarted { .. } => true,
        EngineEvent::TrackEnded => false,
        EngineEvent::QueueFinished => {
            show_message(app, "Queue finished", false);
            false
        },
        EngineEvent::LoadFailed(title) => {
            let mut text = "Failed to load \"".to_owned();
            text.append(title.as_str());
            text.append("\"");
            app.set_message(text, true);
            false
        },
    }
}

// ---------- DJ refill ----------

/// Whether the queue needs a DJ refill: the DJ mode is on, few tracks are
/// left, and the last refill (`since_last_ms` ago, if any) is not too recent.
pub fn dj_refill_due(engine: &Engine, since_last_ms: Option<u64>) -> (r: bool)
    requires
        engine.wf(),
    ensures
        r == (engine@.dj_enabled && engine@.remaining() < DJ_REFILL_AT && match since_last_ms {
            Some(ms) => ms >= DJ_REFILL_MIN_INTERVAL_MS,
            None => true,
        }),
{
    if !engine.dj_enabled() {
        return false;
    }
    if engine.queue_remaining() >= DJ_REFILL_AT {
        return false;
    }
    match since_last_ms {
        Some(ms) => ms >= DJ_REFILL_MIN_INTERVAL_MS,
        None => true,
    }
}

/// The track a refill starts from: the current one; without one the DJ
/// mode stops.
pub fn refill_target(engine: &mut Engine) -> (r: Option<TrackMeta>)
    requires
        old(engine).wf(),
    ensures
        final(engine).wf(),
        r == old(engine)@.current,
        r is Some ==> final(engine)@ == old(engine)@,
        r is None ==> final(engine)@ == (EngineView { dj_enabled: false, ..old(engine)@ }),
{
    match engine.current() {
        Some(t) => Some(t.clone()),
        None => {
            engine.set_dj(false);
            None
        },
    }
}

/// The tracks one refill adds: at most `DJ_BATCH` of the candidates.
pub open spec fn refill_batch(tracks: Seq<TrackMeta>) -> Seq<TrackMeta> {
    if tracks.len() <= DJ_BATCH {
        tracks
    } else {
        tracks.subrange(0, DJ_BATCH as int)
    }
}

/// Whether the message on screen comes from the DJ mode.
pub open spec fn dj_message(v: AppView) -> bool {
    v.message is Some && has_prefix(v.message->0.text@, "DJ:"@)
}

/// What a refill does with the answer of the cascade: an error or no
/// candidate stops the DJ mode with a message; else at most a batch of
/// candidates is appended (random ones are marked as such) and a message of
/// the DJ mode is cleared.
pub open spec fn refill_applied(
    app: AppView,
    app_after: AppView,
    engine: EngineView,
    engine_after: EngineView,
    outcome: Result<DjOutcome, String>,
    op: PlayerOp,
) -> bool {
    match outcome {
        Err(e) => {
            &&& with_message(app, app_after, "DJ: "@ + e@, true)
            &&& engine_after == (EngineView { dj_enabled: false, ..engine })
            &&& op == PlayerOp::Keep
        },
        Ok(o) => {
            let batch = refill_batch(o.tracks@);
            if batch.len() == 0 {
                &&& with_message(app, app_after, "DJ: no more similar tracks"@, false)
                &&& engine_after == (EngineView { dj_enabled: false, ..engine })
                &&& op == PlayerOp::Keep
            } else {
                let marked = if o.source == DjStep::Random {
                    EngineView { dj_random: engine.dj_random.union(track_ids(batch).to_set()), ..engine }
                } else {
                    engine
                };
                &&& tracks_appended(marked, engine_after, batch, op)
                &&& app_after == (if dj_message(app) {
                    AppView { message: None, ..app }
                } else {
                    app
                })
            }
        },
    }
}

/// Applies the answer of a DJ refill to the player and the interface.
pub fn refill_finish(app: &mut AppState, engine: &mut Engine, outcome: Result<DjOutcome, String>) -> (op:
    PlayerOp)
    requires
        old(engine).wf(),
    ensures
        final(engine).wf(),
        refill_applied(old(app)@, final(app)@, old(engine)@, final(engine)@, outcome, op),
{
    let o = match outcome {
        Err(e) => {
            engine.set_dj(false);
            let mut text = "DJ: ".to_owned();
            text.append(e.as_str());
            app.set_message(text, true);
            return PlayerOp::Keep;
        },
        Ok(o) => o,
    };
    let source = o.source;
    let mut batch = o.tracks;
    batch.truncate(DJ_BATCH);
    assert(batch@ =~= refill_batch(o.tracks@));
    if batch.len() == 0 {
        engine.set_dj(false);
        show_message(app, "DJ: no more similar tracks", false);
        return PlayerOp::Keep;
    }
    if source == DjStep::Random {
        let mut ids: Vec<String> = Vec::new();
        let mut i: usize = 0;
        while i < batch.len()
            invariant
                i <= batch@.len(),
                texts(ids@) == track_ids(batch@.subrange(0, i as int)),
            decreases batch@.len() - i,
        {
            let ghost ids0 = ids@;
            ids.push(batch[i].id.clone());
            proof {
                let b = batch@.subrange(0, i + 1);
                assert(b.drop_last() == batch@.subrange(0, i as int));
                assert(texts(ids0).len() == ids0.len());
                assert forall|k: int| 0 <= k < ids@.len() implies texts(ids@)[k] == track_ids(b)[k] by {
                    assert(texts(ids@)[k] == ids@[k]@);
                    assert(track_ids(b)[k] == b[k].id@);
                    if k < ids0.len() {
                        assert(texts(ids0)[k] == ids0[k]@);
                        assert(track_ids(batch@.subrange(0, i as int))[k] == b[k].id@);
                    }
                }
                assert(texts(ids@) =~= track_ids(b));
            }
            i = i + 1;
        }
        assert(batch@.subrange(0, batch@.len() as int) == batch@);
        engine.mark_dj_random(ids.as_slice());
    }
    let dj_text = match app.current_message() {
        Some(m) => starts_with(m.text.as_str(), "DJ:"),
        None => false,
    };
    if dj_text {
        app.clear_message();
    }
    engine.append_tracks(batch)
}

/// A DJ refill whose candidates were filtered against the ids of the queue
/// adds no track that the queue already had, and no track twice.
pub proof fn lemma_refill_adds_no_repeat(
    app: AppView,
    app_after: AppView,
    engine: EngineView,
    engine_after: EngineView,
    o: DjOutcome,
    candidates: Seq<TrackMeta>,
    op: PlayerOp,
)
    requires
        o.tracks@ == deduped(candidates, track_ids(engine.queue).to_set()),
        refill_applied(app, app_after, engine, engine_after, Ok(o), op),
    ensures
        engine_after.queue.subrange(0, engine.queue.len() as int) == engine.queue,
        forall|i: int|
            engine.queue.len() <= i < engine_after.queue.len() ==> !track_ids(engine.queue).contains(
                #[trigger] engine_after.queue[i].id@,
            ),
        forall|i: int, j: int|
            engine.queue.len() <= i < j < engine_after.queue.len() ==> #[trigger] engine_after.queue[i].id@
                != #[trigger] engine_after.queue[j].id@,
{
    broadcast use vstd::seq_lib::group_to_multiset_ensures;

    let ex = track_ids(engine.queue).to_set();
    let fresh = o.tracks@;
    let batch = refill_batch(fresh);
    lemma_deduped_excludes(candidates, ex);
    lemma_deduped_unique(candidates, ex);
    if batch.len() == 0 {
        assert(engine_after.queue.subrange(0, engine.queue.len() as int) =~= engine.queue);
        return;
    }
    let base = engine.queue.len() as int;
    let added = engine_after.queue.subrange(base, engine_after.queue.len() as int);
    assert forall|k: int| 0 <= k < batch.len() implies !ex.contains(#[trigger] batch[k].id@) by {
        assert(batch[k] == fresh[k]);
    }
    assert forall|a: int, b: int| 0 <= a < b < batch.len() implies #[trigger] batch[a].id@
        != #[trigger] batch[b].id@ by {
        assert(batch[a] == fresh[a]);
        assert(batch[b] == fresh[b]);
    }
    assert(batch.no_duplicates()) by {
        assert forall|a: int, b: int| 0 <= a < batch.len() && 0 <= b < batch.len() && a != b implies batch[a]
            != batch[b] by {
            if a < b {
                assert(batch[a].id@ != batch[b].id@);
            } else {
                assert(batch[b].id@ != batch[a].id@);
            }
        }
    }
    batch.lemma_multiset_has_no_duplicates();
    assert(added.to_multiset() == batch.to_multiset());
    assert forall|x: TrackMeta| added.to_multiset().contains(x) implies added.to_multiset().count(x)
        == 1 by {
    }
    added.lemma_multiset_has_no_duplicates_conv();
    assert forall|i: int| base <= i < engine_after.queue.len() implies !track_ids(engine.queue).contains(
        #[trigger] engine_after.queue[i].id@,
    ) by {
        let x = added[i - base];
        assert(x == engine_after.queue[i]);
        assert(added[i - base] == x);
        assert(added.contains(x));
        assert(added.to_multiset().count(x) > 0);
        assert(batch.to_multiset().count(x) > 0);
        assert(batch.contains(x));
        let k = choose|k: int| 0 <= k < batch.len() && batch[k] == x;
        assert(!ex.contains(batch[k].id@));
        if track_ids(engine.queue).contains(x.id@) {
            assert(ex.contains(x.id@));
        }
    }
    assert forall|i: int, j: int| base <= i < j < engine_after.queue.len() implies #[trigger] engine_after.queue[i].id@
        != #[trigger] engine_after.queue[j].id@ by {
        let x = added[i - base];
        let y = added[j - base];
        assert(x == engine_after.queue[i]);
        assert(y == engine_after.queue[j]);
        assert(x != y);
        assert(added[i - base] == x && added[j - base] == y);
        assert(added.contains(x) && added.contains(y));
        assert(added.to_multiset().count(x) > 0 && added.to_multiset().count(y) > 0);
        assert(batch.to_multiset().count(x) > 0 && batch.to_multiset().count(y) > 0);
        assert(batch.contains(x) && batch.contains(y));
        let a = choose|a: int| 0 <= a < batch.len() && batch[a] == x;
        let b = choose|b: int| 0 <= b < batch.len() && batch[b] == y;
        if a < b {
            assert(batch[a].id@ != batch[b].id@);
        } else if b < a {
            assert(batch[b].id@ != batch[a].id@);
        }
    }
}

// ---------- album paging ----------

/// Whether the next page of albums should be loaded: the Albums tab is
/// idle with its "load more" row selected.
pub fn wants_more_albums(app: &AppState) -> (r: bool)
    ensures
        r == (app@.tab == Tab::Albums && !app@.loading && 0 <= app@.selected < app@.list.len()
            && app@.list[app@.selected] is More),
{
    if app.current_tab() != Tab::Albums || app.is_loading() {
        return false;
    }
    let _sel = app.selection();
    let item = app.selected_item();
    match item {
        Some(i) => {
            assert(*i == app@.list[app@.selected]);
            match i {
                ListItem::More => true,
                _ => false,
            }
        },
        None => false,
    }
}

} // verus!
