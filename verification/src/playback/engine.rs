//! Play queue and transport state of the player.
//!
//! The audio output itself lives in the application; every operation here
//! decides the next state and tells the application, by a [`PlayerOp`], what
//! to do with the sound.
use crate::api::models::Child;
use crate::cache::db::CachedTrack;
use rand::seq::SliceRandom;
use vstd::multiset::Multiset;
use vstd::prelude::*;
use crate::text::{contains_text, str_eq, texts};

verus! {

/// Repeat mode of the play queue.
#[derive(Debug, Clone, Copy, PartialEq, Eq, Structural)]
pub enum LoopMode {
    Off,
    Track,
    Playlist,
}

impl LoopMode {
    /// The mode that follows `m` in the cycle off → track → all → off.
    pub open spec fn next_mode(m: LoopMode) -> LoopMode {
        match m {
            LoopMode::Off => LoopMode::Track,
            LoopMode::Track => LoopMode::Playlist,
            LoopMode::Playlist => LoopMode::Off,
        }
    }

    pub fn cycle(&self) -> (r: LoopMode)
        ensures
            r == LoopMode::next_mode(*self),
    {
        match self {
            LoopMode::Off => LoopMode::Track,
            LoopMode::Track => LoopMode::Playlist,
            LoopMode::Playlist => LoopMode::Off,
        }
    }
}

/// Cycling the repeat mode three times gives back the mode one started from.
pub proof fn lemma_cycle_three_times_is_identity(m: LoopMode)
    ensures
        LoopMode::next_mode(LoopMode::next_mode(LoopMode::next_mode(m))) == m,
{
}

/// What the player knows of a track.
#[derive(Debug)]
pub struct TrackMeta {
    pub id: String,
    pub title: String,
    pub artist: String,
    pub album: String,
    pub album_id: String,
    pub cover_art: Option<String>,
    pub duration: i32,
    pub track_number: Option<i32>,
    pub disc_number: Option<i32>,
}

impl Clone for TrackMeta {
    fn clone(&self) -> (r: Self)
        ensures
            r == *self,
    {
        TrackMeta {
            id: self.id.clone(),
            title: self.title.clone(),
            artist: self.artist.clone(),
            album: self.album.clone(),
            album_id: self.album_id.clone(),
            cover_art: self.cover_art.clone(),
            duration: self.duration,
            track_number: self.track_number,
            disc_number: self.disc_number,
        }
    }
}

/// The text of an optional string, empty when absent.
pub open spec fn text_or_empty(s: Option<String>) -> Seq<char> {
    match s {
        Some(t) => t@,
        None => Seq::empty(),
    }
}

/// The text of an optional string, empty when absent.
pub fn string_or_empty(s: &Option<String>) -> (r: String)
    ensures
        r@ == text_or_empty(*s),
{
    match s {
        Some(t) => t.clone(),
        None => String::new(),
    }
}

/// `t` is what the player knows of the server entry `c`: absent texts are
/// empty and an absent duration is 0.
pub open spec fn describes_child(t: TrackMeta, c: Child) -> bool {
    &&& t.id == c.id
    &&& t.title@ == text_or_empty(c.title)
    &&& t.artist@ == text_or_empty(c.artist)
    &&& t.album@ == text_or_empty(c.album)
    &&& t.album_id@ == text_or_empty(c.album_id)
    &&& t.cover_art == c.cover_art
    &&& t.duration == (match c.duration {
        Some(d) => d,
        None => 0,
    })
    &&& t.track_number == c.track
    &&& t.disc_number == c.disc_number
}

impl TrackMeta {
    /// The track of a cache row; every field is copied.
    pub fn from_cached(t: &CachedTrack) -> (r: TrackMeta)
        ensures
            r.id == t.id,
            r.title == t.title,
            r.artist == t.artist,
            r.album == t.album,
            r.album_id == t.album_id,
            r.cover_art == t.cover_art,
            r.duration == t.duration,
            r.track_number == t.track_number,
            r.disc_number == t.disc_number,
    {
        TrackMeta {
            id: t.id.clone(),
            title: t.title.clone(),
            artist: t.artist.clone(),
            album: t.album.clone(),
            album_id: t.album_id.clone(),
            cover_art: t.cover_art.clone(),
            duration: t.duration,
            track_number: t.track_number,
            disc_number: t.disc_number,
        }
    }

    /// The track of a server entry: absent texts become empty, an absent
    /// duration becomes 0.
    pub fn from_child(c: &Child) -> (r: TrackMeta)
        ensures
            describes_child(r, *c),
    {
        TrackMeta {
            id: c.id.clone(),
            title: string_or_empty(&c.title),
            artist: string_or_empty(&c.artist),
            album: string_or_empty(&c.album),
            album_id: string_or_empty(&c.album_id),
            cover_art: c.cover_art.clone(),
            duration: match c.duration {
                Some(d) => d,
                None => 0,
            },
            track_number: c.track,
            disc_number: c.disc_number,
        }
    }
}

// ---------- play order ----------

/// `order` lists every index below `n` exactly once.
pub open spec fn is_index_perm(order: Seq<usize>, n: int) -> bool {
    &&& order.len() == n
    &&& forall|i: int| 0 <= i < order.len() ==> (#[trigger] order[i] as int) < n
    &&& order.no_duplicates()
}

/// The play order `0, 1, ..., n - 1`.
pub open spec fn identity_order(n: int) -> Seq<usize> {
    Seq::new(n as nat, |i: int| i as usize)
}

/// The queue index that the position `pos` of `order` names, or 0 past its end.
pub open spec fn kept_index(order: Seq<usize>, pos: int) -> usize {
    if 0 <= pos < order.len() {
        order[pos]
    } else {
        0
    }
}

/// `new_order` is a play order rebuilt over `n` entries from `old_order` at position
/// `pos`: in queue order when shuffle is off (or there is one entry at most),
/// else a shuffled order that keeps the entry that stood at `pos` where it was.
pub open spec fn order_rebuilt(
    old_order: Seq<usize>,
    new_order: Seq<usize>,
    pos: int,
    n: int,
    shuffle: bool,
) -> bool {
    &&& is_index_perm(new_order, n)
    &&& (!shuffle || n <= 1) ==> new_order == identity_order(n)
    &&& (shuffle && n > 1 && (kept_index(old_order, pos) as int) < n) ==> new_order[pos]
        == kept_index(old_order, pos)
}

proof fn lemma_identity_is_perm(n: int)
    requires
        0 <= n <= usize::MAX,
    ensures
        is_index_perm(identity_order(n), n),
{
    let s = identity_order(n);
    assert forall|i: int, j: int| 0 <= i < s.len() && 0 <= j < s.len() && i != j implies s[i]
        != s[j] by {
        assert(s[i] as int == i);
        assert(s[j] as int == j);
    }
}

proof fn lemma_perm_of_multiset(a: Seq<usize>, b: Seq<usize>, n: int)
    requires
        is_index_perm(a, n),
        a.to_multiset() == b.to_multiset(),
    ensures
        is_index_perm(b, n),
{
    broadcast use vstd::seq_lib::group_to_multiset_ensures;

    assert(a.len() == a.to_multiset().len());
    assert(b.len() == b.to_multiset().len());
    a.lemma_multiset_has_no_duplicates();
    assert forall|x: usize| b.to_multiset().contains(x) implies b.to_multiset().count(x) == 1 by {
        assert(a.to_multiset().contains(x));
    }
    b.lemma_multiset_has_no_duplicates_conv();
    assert forall|i: int| 0 <= i < b.len() implies (#[trigger] b[i] as int) < n by {
        assert(b.contains(b[i]));
        assert(a.to_multiset().count(b[i]) > 0);
        assert(a.contains(b[i]));
    }
}

proof fn lemma_swap_keeps_perm(a: Seq<usize>, i: int, j: int, n: int)
    requires
        is_index_perm(a, n),
        0 <= i < n,
        0 <= j < n,
    ensures
        is_index_perm(a.update(i, a[j]).update(j, a[i]), n),
{
    let b = a.update(i, a[j]).update(j, a[i]);
    assert forall|x: int, y: int| 0 <= x < b.len() && 0 <= y < b.len() && x != y implies b[x]
        != b[y] by {
        let sx = if x == j {
            i
        } else if x == i {
            j
        } else {
            x
        };
        let sy = if y == j {
            i
        } else if y == i {
            j
        } else {
            y
        };
        assert(b[x] == a[sx]);
        assert(b[y] == a[sy]);
    }
}

/// The same elements in a random order: calls `rand::seq::SliceRandom::shuffle`
/// with the thread-local generator `rand::rng()`. Claimed: the result holds
/// every element as often as the argument did. Which order comes out is
/// left open.
#[verifier::external_body]
fn shuffled<T>(v: Vec<T>) -> (r: Vec<T>)
    ensures
        r@.to_multiset() == v@.to_multiset(),
{
    let mut v = v;
    v.shuffle(&mut rand::rng());
    v
}

fn identity_vec(n: usize) -> (r: Vec<usize>)
    ensures
        r@ == identity_order(n as int),
{
    let mut v: Vec<usize> = Vec::new();
    let mut i: usize = 0;
    while i < n
        invariant
            i <= n,
            v@ == identity_order(i as int),
        decreases n - i,
    {
        v.push(i);
        i = i + 1;
    }
    v
}

/// Builds a play order over `n` entries, as [`order_rebuilt`] says.
fn rebuilt_order(old_order: &Vec<usize>, pos: usize, n: usize, shuffle: bool) -> (r: Vec<usize>)
    requires
        n == 0 ==> pos == 0,
        n > 0 ==> pos < n,
    ensures
        order_rebuilt(old_order@, r@, pos as int, n as int, shuffle),
{
    let current_idx = if pos < old_order.len() {
        old_order[pos]
    } else {
        0
    };
    let mut order = identity_vec(n);
    proof {
        lemma_identity_is_perm(n as int);
    }
    if shuffle && n > 1 {
        let ghost before = order@;
        order = shuffled(order);
        proof {
            lemma_perm_of_multiset(before, order@, n as int);
        }
        let mut p: usize = 0;
        while p < n && order[p] != current_idx
            invariant
                order@.len() == n,
                p <= n,
                forall|k: int| 0 <= k < p ==> order@[k] != current_idx,
            decreases n - p,
        {
            p = p + 1;
        }
        if p < n {
            let a = order[pos];
            let b = order[p];
            proof {
                lemma_swap_keeps_perm(order@, pos as int, p as int, n as int);
            }
            order.set(pos, b);
            order.set(p, a);
        } else {
            proof {
                if (current_idx as int) < n {
                    assert(order@.to_multiset().count(current_idx) > 0) by {
                        broadcast use vstd::seq_lib::group_to_multiset_ensures;

                        assert(before[current_idx as int] == current_idx);
                        assert(before.contains(current_idx));
                    }
                    broadcast use vstd::seq_lib::group_to_multiset_ensures;

                    assert(order@.contains(current_idx));
                }
            }
        }
    }
    order
}


// ---------- the engine ----------

/// What the application must do with the audio output after an operation.
#[derive(Debug, Clone, Copy, PartialEq, Eq, Structural)]
pub enum PlayerOp {
    /// Leave the audio output as it is.
    Keep,
    /// Resume the paused audio.
    Resume,
    /// Pause the audio.
    Pause,
    /// Stop and clear the audio output.
    Halt,
    /// Stop and clear the audio output: the queue is finished.
    Finish,
    /// Start the track at this position of the play order (nothing is playing).
    Start(usize),
    /// Cut the audio and start the track at this position of the play order.
    Jump(usize),
}

/// Notices of the player for the rest of the program.
#[derive(Debug, PartialEq, Eq)]
pub enum EngineEvent {
    /// A track started; the index is its place in the queue.
    TrackStarted { queue_index: usize },
    /// The current track ended.
    TrackEnded,
    /// The queue ran out (no repeat).
    QueueFinished,
    /// A track could not be loaded; the text is its title.
    LoadFailed(String),
}

impl Clone for EngineEvent {
    fn clone(&self) -> (r: Self)
        ensures
            r == *self,
    {
        match self {
            EngineEvent::TrackStarted { queue_index } => EngineEvent::TrackStarted {
                queue_index: *queue_index,
            },
            EngineEvent::TrackEnded => EngineEvent::TrackEnded,
            EngineEvent::QueueFinished => EngineEvent::QueueFinished,
            EngineEvent::LoadFailed(t) => EngineEvent::LoadFailed(t.clone()),
        }
    }
}

/// The state of the player as the contracts speak of it.
#[verifier::ext_equal]
pub struct EngineView {
    pub queue: Seq<TrackMeta>,
    pub order: Seq<usize>,
    pub pos: int,
    pub current: Option<TrackMeta>,
    pub paused: bool,
    pub stopped: bool,
    pub loop_mode: LoopMode,
    pub shuffle: bool,
    pub scrobbled: bool,
    pub queue_gen: usize,
    pub dj_enabled: bool,
    pub dj_anchor: Option<TrackMeta>,
    pub dj_random: Set<Seq<char>>,
}

/// The counter value after one more change, wrapping at the top.
pub open spec fn next_gen(g: usize) -> usize {
    if g == usize::MAX {
        0
    } else {
        (g + 1) as usize
    }
}

/// The position a new queue of `n` tracks is set to when `start` is asked
/// for: `start` itself inside the queue, else its last track.
pub open spec fn clamp_start(start: int, n: int) -> int {
    if n == 0 {
        0
    } else if start < n {
        start
    } else {
        n - 1
    }
}

/// The player after its queue was replaced by `tracks` to be played from
/// `start`: the play order is rebuilt around the clamped start, nothing is
/// current, and the DJ mode is off. Playback runs on when `start` lies in the
/// queue; a start at or past its end leaves the player stopped.
pub open spec fn queue_replaced(
    before: EngineView,
    after: EngineView,
    tracks: Seq<TrackMeta>,
    start: int,
) -> bool {
    &&& order_rebuilt(
        before.order,
        after.order,
        clamp_start(start, tracks.len() as int),
        tracks.len() as int,
        before.shuffle,
    )
    &&& after == (EngineView {
        queue: tracks,
        order: after.order,
        pos: clamp_start(start, tracks.len() as int),
        current: None,
        stopped: !(start < tracks.len()),
        queue_gen: next_gen(before.queue_gen),
        dj_enabled: false,
        dj_anchor: None,
        dj_random: Set::empty(),
        ..before
    })
}

/// What the audio output must do after a queue of `n` tracks was set to
/// start at `start`: jump to that track, or, for a start at or past the end,
/// stop and clear what it was playing.
pub open spec fn start_op(n: int, start: int) -> PlayerOp {
    if start < n {
        PlayerOp::Jump(start as usize)
    } else {
        PlayerOp::Halt
    }
}

/// The player after play/pause: from a stop it resumes the current track or
/// starts the one at the current position; else it pauses or resumes.
pub open spec fn toggled(before: EngineView, after: EngineView, op: PlayerOp) -> bool {
    if before.stopped {
        if before.current.is_some() {
            op == PlayerOp::Resume && after == (EngineView { stopped: false, paused: false, ..before })
        } else if before.queue.len() > 0 {
            op == PlayerOp::Start(before.pos as usize) && after == (EngineView {
                stopped: false,
                ..before
            })
        } else {
            op == PlayerOp::Keep && after == before
        }
    } else if before.paused {
        op == PlayerOp::Resume && after == (EngineView { paused: false, ..before })
    } else {
        op == PlayerOp::Pause && after == (EngineView { paused: true, ..before })
    }
}

/// The player after "next": a jump to the next position, or the end of a
/// queue that does not repeat.
pub open spec fn advanced(before: EngineView, after: EngineView, op: PlayerOp) -> bool {
    if before.order.len() == 0 {
        op == PlayerOp::Keep && after == before
    } else {
        match before.next_position() {
            Some(p) => op == PlayerOp::Jump(p as usize) && after == before,
            None => op == PlayerOp::Finish && after == before.stopped_all(),
        }
    }
}

/// The player after "previous": a jump to the previous position.
pub open spec fn went_back(before: EngineView, after: EngineView, op: PlayerOp) -> bool {
    &&& after == before
    &&& before.order.len() == 0 ==> op == PlayerOp::Keep
    &&& before.order.len() > 0 ==> op == PlayerOp::Jump(before.previous_position() as usize)
}

/// The player after shuffle was switched to `on`: the play order is rebuilt
/// around the current position.
pub open spec fn shuffle_switched(before: EngineView, after: EngineView, on: bool) -> bool {
    &&& on == !before.shuffle
    &&& order_rebuilt(before.order, after.order, before.pos, before.queue.len() as int, on)
    &&& after == (EngineView { shuffle: on, order: after.order, ..before })
}

/// The player after the entry `idx` of the queue was asked for: a jump to
/// its place in the play order, nothing for an index past the queue.
pub open spec fn index_played(before: EngineView, after: EngineView, idx: int, op: PlayerOp) -> bool {
    &&& after == before
    &&& idx >= before.queue.len() ==> op == PlayerOp::Keep
    &&& idx < before.queue.len() ==> exists|p: int|
        0 <= p < before.order.len() && before.order[p] == idx && op == PlayerOp::Jump(p as usize)
}

/// The player after `tracks` were appended to the queue: the old queue is a
/// prefix, the new tracks follow (in a random order among themselves with
/// shuffle on), the play order goes on with them, and a queue that had run
/// out starts again at the first appended track.
pub open spec fn tracks_appended(
    before: EngineView,
    after: EngineView,
    tracks: Seq<TrackMeta>,
    op: PlayerOp,
) -> bool {
    &&& tracks.len() == 0 ==> op == PlayerOp::Keep && after == before
    &&& tracks.len() > 0 ==> {
        let base = before.queue.len();
        let added = after.queue.subrange(base as int, after.queue.len() as int);
        &&& after.queue.subrange(0, base as int) == before.queue
        &&& added.to_multiset() == tracks.to_multiset()
        &&& !before.shuffle ==> added == tracks
        &&& after.order == before.order + Seq::new(
            tracks.len(),
            |i: int| (base + i) as usize,
        )
        &&& if before.stopped && before.current.is_none() {
            &&& op == PlayerOp::Start(base as usize)
            &&& after == (EngineView {
                queue: after.queue,
                order: after.order,
                stopped: false,
                queue_gen: next_gen(before.queue_gen),
                ..before
            })
        } else {
            &&& op == PlayerOp::Keep
            &&& after == (EngineView {
                queue: after.queue,
                order: after.order,
                queue_gen: next_gen(before.queue_gen),
                ..before
            })
        }
    }
}

impl EngineView {
    /// The play order covers the queue and the position lies in it.
    pub open spec fn wf(self) -> bool {
        &&& is_index_perm(self.order, self.queue.len() as int)
        &&& (0 <= self.pos < self.order.len() || (self.order.len() == 0 && self.pos == 0))
    }

    /// The track at a position of the play order.
    pub open spec fn track_at(self, order_pos: int) -> TrackMeta {
        self.queue[self.order[order_pos] as int]
    }

    /// Playback stopped and nothing current, the rest unchanged.
    pub open spec fn shut_down(self) -> EngineView {
        EngineView { stopped: true, current: None, ..self }
    }

    /// Playback stopped, nothing current, and the DJ mode off.
    pub open spec fn stopped_all(self) -> EngineView {
        EngineView {
            stopped: true,
            current: None,
            dj_enabled: false,
            dj_anchor: None,
            dj_random: Set::empty(),
            ..self
        }
    }

    /// How many tracks of the play order follow the current position.
    pub open spec fn remaining(self) -> int {
        if self.order.len() == 0 {
            0
        } else {
            self.order.len() - self.pos - 1
        }
    }

    /// The position `next` moves to, or `None` where the queue is finished.
    pub open spec fn next_position(self) -> Option<int> {
        let n = self.order.len() as int;
        if self.loop_mode == LoopMode::Playlist {
            Some((self.pos + 1) % n)
        } else if self.pos + 1 < n {
            Some(self.pos + 1)
        } else {
            None
        }
    }

    /// The position `previous` moves to.
    pub open spec fn previous_position(self) -> int {
        let n = self.order.len() as int;
        if self.pos == 0 {
            if self.loop_mode == LoopMode::Playlist {
                n - 1
            } else {
                self.pos
            }
        } else {
            self.pos - 1
        }
    }

    /// The track that should be decoded ahead of time, if any.
    pub open spec fn next_to_preload(self) -> Option<TrackMeta> {
        let n = self.order.len() as int;
        if n == 0 {
            None
        } else if self.pos + 1 < n {
            Some(self.track_at(self.pos + 1))
        } else if self.dj_enabled {
            None
        } else {
            match self.loop_mode {
                LoopMode::Track => Some(self.track_at(self.pos)),
                LoopMode::Playlist => Some(self.track_at(0)),
                LoopMode::Off => None,
            }
        }
    }
}

/// Queue, play order, transport flags and DJ bookkeeping of the player.
pub struct Engine {
    queue: Vec<TrackMeta>,
    order: Vec<usize>,
    pos: usize,
    current: Option<TrackMeta>,
    paused: bool,
    stopped: bool,
    loop_mode: LoopMode,
    shuffle: bool,
    scrobbled: bool,
    queue_gen: usize,
    dj_enabled: bool,
    dj_anchor: Option<TrackMeta>,
    dj_random_ids: Vec<String>,
}

impl View for Engine {
    type V = EngineView;

    closed spec fn view(&self) -> EngineView {
        EngineView {
            queue: self.queue@,
            order: self.order@,
            pos: self.pos as int,
            current: self.current,
            paused: self.paused,
            stopped: self.stopped,
            loop_mode: self.loop_mode,
            shuffle: self.shuffle,
            scrobbled: self.scrobbled,
            queue_gen: self.queue_gen,
            dj_enabled: self.dj_enabled,
            dj_anchor: self.dj_anchor,
            dj_random: texts(self.dj_random_ids@).to_set(),
        }
    }
}

fn next_counter(g: usize) -> (r: usize)
    ensures
        r == next_gen(g),
{
    if g == usize::MAX {
        0
    } else {
        g + 1
    }
}

impl Engine {
    pub open spec fn wf(&self) -> bool {
        self@.wf()
    }

    /// A player with an empty queue, stopped.
    pub fn new() -> (e: Engine)
        ensures
            e.wf(),
            e@ == (EngineView {
                queue: Seq::empty(),
                order: Seq::empty(),
                pos: 0,
                current: None,
                paused: false,
                stopped: true,
                loop_mode: LoopMode::Off,
                shuffle: false,
                scrobbled: false,
                queue_gen: 0,
                dj_enabled: false,
                dj_anchor: None,
                dj_random: Set::empty(),
            }),
    {
        let e = Engine {
            queue: Vec::new(),
            order: Vec::new(),
            pos: 0,
            current: None,
            paused: false,
            stopped: true,
            loop_mode: LoopMode::Off,
            shuffle: false,
            scrobbled: false,
            queue_gen: 0,
            dj_enabled: false,
            dj_anchor: None,
            dj_random_ids: Vec::new(),
        };
        assert(texts(e.dj_random_ids@).to_set() =~= Set::empty());
        e
    }

    // ---------- state ----------

    pub fn current(&self) -> (r: Option<&TrackMeta>)
        ensures
            r.is_some() == self@.current.is_some(),
            r.is_some() ==> *r.unwrap() == self@.current.unwrap(),
    {
        self.current.as_ref()
    }

    pub fn queue(&self) -> (r: &[TrackMeta])
        ensures
            r@ == self@.queue,
    {
        self.queue.as_slice()
    }

    pub fn queue_pos(&self) -> (r: usize)
        ensures
            r == self@.pos,
    {
        self.pos
    }

    pub fn paused(&self) -> (r: bool)
        ensures
            r == self@.paused,
    {
        self.paused
    }

    pub fn stopped(&self) -> (r: bool)
        ensures
            r == self@.stopped,
    {
        self.stopped
    }

    pub fn loop_mode(&self) -> (r: LoopMode)
        ensures
            r == self@.loop_mode,
    {
        self.loop_mode
    }

    pub fn shuffle(&self) -> (r: bool)
        ensures
            r == self@.shuffle,
    {
        self.shuffle
    }

    /// Counts the changes of the queue (for the MPRIS track list).
    pub fn queue_gen(&self) -> (r: usize)
        ensures
            r == self@.queue_gen,
    {
        self.queue_gen
    }

    pub fn dj_enabled(&self) -> (r: bool)
        ensures
            r == self@.dj_enabled,
    {
        self.dj_enabled
    }

    pub fn dj_anchor(&self) -> (r: Option<&TrackMeta>)
        ensures
            r.is_some() == self@.dj_anchor.is_some(),
            r.is_some() ==> *r.unwrap() == self@.dj_anchor.unwrap(),
    {
        self.dj_anchor.as_ref()
    }

    /// Whether the track was added by the random fallback of the DJ mode.
    pub fn is_dj_random(&self, id: &str) -> (r: bool)
        ensures
            r == self@.dj_random.contains(id@),
    {
        let r = contains_text(&self.dj_random_ids, id);
        assert(texts(self.dj_random_ids@).contains(id@) == texts(self.dj_random_ids@).to_set().contains(id@));
        r
    }

    /// How many tracks of the play order follow the current one.
    pub fn queue_remaining(&self) -> (r: usize)
        requires
            self.wf(),
        ensures
            r == self@.remaining(),
    {
        let n = self.order.len();
        let taken = if self.pos + 1 < n {
            self.pos + 1
        } else {
            n
        };
        n - taken
    }

    // ---------- queue ----------

    /// Replaces the queue and positions it at `start` (clamped into the queue).
    /// Nothing is current afterwards, the DJ mode is off and the play order is
    /// rebuilt; playback itself is not started.
    fn set_queue_inner(&mut self, tracks: Vec<TrackMeta>, start: usize)
        requires
            old(self).wf(),
        ensures
            final(self).wf(),
            order_rebuilt(
                old(self)@.order,
                final(self)@.order,
                clamp_start(start as int, tracks@.len() as int),
                tracks@.len() as int,
                old(self)@.shuffle,
            ),
            final(self)@ == (EngineView {
                queue: tracks@,
                order: final(self)@.order,
                pos: clamp_start(start as int, tracks@.len() as int),
                current: None,
                queue_gen: next_gen(old(self)@.queue_gen),
                dj_enabled: false,
                dj_anchor: None,
                dj_random: Set::empty(),
                ..old(self)@
            }),
    {
        let n = tracks.len();
        let p = if n == 0 {
            0
        } else if start < n {
            start
        } else {
            n - 1
        };
        let order = rebuilt_order(&self.order, p, n, self.shuffle);
        self.queue = tracks;
        self.order = order;
        self.pos = p;
        self.current = None;
        self.queue_gen = next_counter(self.queue_gen);
        self.dj_enabled = false;
        self.dj_anchor = None;
        self.dj_random_ids = Vec::new();
        assert(texts(self.dj_random_ids@).to_set() =~= Set::empty());
    }

    /// Replaces the queue and asks to play it from `start`; a start at or
    /// past the end of `tracks` plays nothing and leaves the player stopped.
    /// The DJ mode is switched off.
    pub fn set_queue(&mut self, tracks: Vec<TrackMeta>, start: usize) -> (op: PlayerOp)
        requires
            old(self).wf(),
        ensures
            final(self).wf(),
            queue_replaced(old(self)@, final(self)@, tracks@, start as int),
            op == start_op(tracks@.len() as int, start as int),
    {
        let n = tracks.len();
        self.set_queue_inner(tracks, start);
        if start < n {
            self.stopped = false;
            PlayerOp::Jump(start)
        } else {
            self.stopped = true;
            PlayerOp::Halt
        }
    }

    /// The track at a position of the play order (taken modulo its length).
    pub fn track_at(&self, order_idx: usize) -> (r: Option<TrackMeta>)
        requires
            self.wf(),
        ensures
            self@.order.len() == 0 ==> r.is_none(),
            self@.order.len() > 0 ==> r == Some(
                self@.track_at(order_idx as int % self@.order.len() as int),
            ),
    {
        let n = self.order.len();
        if n == 0 {
            None
        } else {
            let p = order_idx % n;
            Some(self.queue[self.order[p]].clone())
        }
    }

    /// Records the outcome of starting the track at a position of the play
    /// order (taken modulo its length): when it was loaded it becomes current
    /// and playback runs; when loading failed, playback stops. Returns the
    /// queue index of the started track.
    pub fn play_track_at(&mut self, order_idx: usize, loaded: bool) -> (r: Option<usize>)
        requires
            old(self).wf(),
        ensures
            final(self).wf(),
            old(self)@.order.len() == 0 ==> final(self)@ == old(self)@ && r.is_none(),
            old(self)@.order.len() > 0 ==> {
                let p = order_idx as int % old(self)@.order.len() as int;
                if loaded {
                    &&& final(self)@ == (EngineView {
                        pos: p,
                        stopped: false,
                        current: Some(old(self)@.track_at(p)),
                        paused: false,
                        scrobbled: false,
                        ..old(self)@
                    })
                    &&& r == Some(old(self)@.order[p])
                } else {
                    &&& final(self)@ == (EngineView {
                        pos: p,
                        stopped: true,
                        current: None,
                        ..old(self)@
                    })
                    &&& r.is_none()
                }
            },
    {
        let n = self.order.len();
        if n == 0 {
            return None;
        }
        let p = order_idx % n;
        self.pos = p;
        let idx = self.order[p];
        if loaded {
            let track = self.queue[idx].clone();
            self.stopped = false;
            self.current = Some(track);
            self.paused = false;
            self.scrobbled = false;
            Some(idx)
        } else {
            self.stopped = true;
            self.current = None;
            None
        }
    }

    /// The track that follows in the play order, with the repeat mode taken
    /// into account (at the end of the queue the DJ mode does not wrap).
    pub fn peek_next(&self) -> (r: Option<TrackMeta>)
        requires
            self.wf(),
        ensures
            r == self@.next_to_preload(),
    {
        let n = self.order.len();
        if n == 0 {
            return None;
        }
        let next = self.pos + 1;
        if next < n {
            return Some(self.queue[self.order[next]].clone());
        }
        if self.dj_enabled {
            return None;
        }
        match self.loop_mode {
            LoopMode::Track => Some(self.queue[self.order[self.pos]].clone()),
            LoopMode::Playlist => Some(self.queue[self.order[0]].clone()),
            LoopMode::Off => None,
        }
    }

    // ---------- transport ----------

    /// Play/pause. From a stop, resumes the current track or starts the
    /// track at the current position.
    pub fn toggle(&mut self) -> (op: PlayerOp)
        requires
            old(self).wf(),
        ensures
            final(self).wf(),
            toggled(old(self)@, final(self)@, op),
    {
        if self.stopped {
            if self.current.is_some() {
                self.stopped = false;
                self.paused = false;
                PlayerOp::Resume
            } else if self.queue.len() > 0 {
                self.stopped = false;
                PlayerOp::Start(self.pos)
            } else {
                PlayerOp::Keep
            }
        } else if self.paused {
            self.paused = false;
            PlayerOp::Resume
        } else {
            self.paused = true;
            PlayerOp::Pause
        }
    }

    fn shut_down(&mut self)
        requires
            old(self).wf(),
        ensures
            final(self).wf(),
            final(self)@ == old(self)@.shut_down(),
    {
        self.stopped = true;
        self.current = None;
    }

    /// Full stop of playback; also switches the DJ mode off.
    pub fn stop(&mut self) -> (op: PlayerOp)
        requires
            old(self).wf(),
        ensures
            final(self).wf(),
            final(self)@ == old(self)@.stopped_all(),
            op == PlayerOp::Halt,
    {
        self.shut_down();
        self.dj_enabled = false;
        self.dj_anchor = None;
        self.dj_random_ids = Vec::new();
        assert(texts(self.dj_random_ids@).to_set() =~= Set::empty());
        PlayerOp::Halt
    }

    /// Moves on to the next track; at the end of a queue that does not
    /// repeat, playback stops and the queue is finished.
    pub fn next(&mut self) -> (op: PlayerOp)
        requires
            old(self).wf(),
        ensures
            final(self).wf(),
            advanced(old(self)@, final(self)@, op),
    {
        let n = self.order.len();
        if n == 0 {
            return PlayerOp::Keep;
        }
        if self.loop_mode == LoopMode::Playlist {
            PlayerOp::Jump((self.pos + 1) % n)
        } else if self.pos + 1 < n {
            PlayerOp::Jump(self.pos + 1)
        } else {
            self.stop();
            PlayerOp::Finish
        }
    }

    /// Moves back to the previous track (from the first one: to the last one
    /// when the whole queue repeats, else to the same track again).
    pub fn previous(&mut self) -> (op: PlayerOp)
        requires
            old(self).wf(),
        ensures
            final(self).wf(),
            went_back(old(self)@, final(self)@, op),
    {
        let n = self.order.len();
        if n == 0 {
            return PlayerOp::Keep;
        }
        let prev = if self.pos == 0 {
            if self.loop_mode == LoopMode::Playlist {
                n - 1
            } else {
                self.pos
            }
        } else {
            self.pos - 1
        };
        PlayerOp::Jump(prev)
    }

    /// Advances the repeat mode and returns the new one.
    pub fn cycle_loop(&mut self) -> (r: LoopMode)
        requires
            old(self).wf(),
        ensures
            final(self).wf(),
            r == LoopMode::next_mode(old(self)@.loop_mode),
            final(self)@ == (EngineView { loop_mode: r, ..old(self)@ }),
    {
        self.loop_mode = self.loop_mode.cycle();
        self.loop_mode
    }

    pub fn set_loop_mode(&mut self, mode: LoopMode)
        requires
            old(self).wf(),
        ensures
            final(self).wf(),
            final(self)@ == (EngineView { loop_mode: mode, ..old(self)@ }),
    {
        self.loop_mode = mode;
    }

    /// Switches shuffle and rebuilds the play order; returns the new setting.
    pub fn toggle_shuffle(&mut self) -> (r: bool)
        requires
            old(self).wf(),
        ensures
            final(self).wf(),
            shuffle_switched(old(self)@, final(self)@, r),
    {
        self.shuffle = !self.shuffle;
        let order = rebuilt_order(&self.order, self.pos, self.queue.len(), self.shuffle);
        self.order = order;
        self.shuffle
    }

    /// Jumps to the entry with this index of the queue, wherever it stands in
    /// the play order.
    pub fn play_index(&mut self, queue_idx: usize) -> (op: PlayerOp)
        requires
            old(self).wf(),
        ensures
            final(self).wf(),
            index_played(old(self)@, final(self)@, queue_idx as int, op),
    {
        if queue_idx >= self.queue.len() {
            return PlayerOp::Keep;
        }
        let n = self.order.len();
        let mut p: usize = 0;
        while p < n
            invariant
                self@ == old(self)@,
                old(self).wf(),
                queue_idx < old(self)@.queue.len(),
                n == self.order@.len(),
                p <= n,
                forall|k: int| 0 <= k < p ==> self.order@[k] != queue_idx,
            decreases n - p,
        {
            if self.order[p] == queue_idx {
                return PlayerOp::Jump(p);
            }
            p = p + 1;
        }
        proof {
            lemma_perm_covers(self.order@, self.queue@.len() as int, queue_idx as int);
        }
        PlayerOp::Keep
    }

    /// The decision when the current track has ended on its own.
    pub fn on_track_ended(&mut self) -> (op: PlayerOp)
        requires
            old(self).wf(),
        ensures
            final(self).wf(),
            old(self)@.stopped ==> op == PlayerOp::Keep && final(self)@ == old(self)@,
            !old(self)@.stopped && old(self)@.dj_enabled ==> if old(self)@.pos + 1 < old(
                self,
            )@.order.len() {
                op == PlayerOp::Start((old(self)@.pos + 1) as usize) && final(self)@ == old(self)@
            } else {
                op == PlayerOp::Halt && final(self)@ == old(self)@.shut_down()
            },
            !old(self)@.stopped && !old(self)@.dj_enabled ==> match old(self)@.loop_mode {
                LoopMode::Track => op == PlayerOp::Start(old(self)@.pos as usize) && final(self)@
                    == old(self)@,
                LoopMode::Playlist => op == PlayerOp::Start((old(self)@.pos + 1) as usize)
                    && final(self)@ == old(self)@,
                LoopMode::Off => if old(self)@.pos + 1 < old(self)@.order.len() {
                    op == PlayerOp::Start((old(self)@.pos + 1) as usize) && final(self)@ == old(
                        self,
                    )@
                } else {
                    op == PlayerOp::Finish && final(self)@ == old(self)@.stopped_all()
                },
            },
    {
        let n = self.order.len();
        if self.stopped {
            return PlayerOp::Keep;
        }
        if self.dj_enabled {
            if self.pos + 1 < n {
                return PlayerOp::Start(self.pos + 1);
            } else {
                self.shut_down();
                return PlayerOp::Halt;
            }
        }
        match self.loop_mode {
            LoopMode::Track => PlayerOp::Start(self.pos),
            LoopMode::Playlist => PlayerOp::Start(self.pos + 1),
            LoopMode::Off => {
                if self.pos + 1 < n {
                    PlayerOp::Start(self.pos + 1)
                } else {
                    self.stop();
                    PlayerOp::Finish
                }
            },
        }
    }

    // ---------- DJ mode ----------

    /// Switches the DJ mode (the queue is refilled with similar tracks).
    pub fn set_dj(&mut self, enabled: bool)
        requires
            old(self).wf(),
        ensures
            final(self).wf(),
            final(self)@ == (EngineView { dj_enabled: enabled, ..old(self)@ }),
    {
        self.dj_enabled = enabled;
    }

    /// Starts the DJ mode: the seed track becomes the anchor and no track
    /// counts as randomly added.
    pub fn start_dj(&mut self, seed: TrackMeta)
        requires
            old(self).wf(),
        ensures
            final(self).wf(),
            final(self)@ == (EngineView {
                dj_enabled: true,
                dj_anchor: Some(seed),
                dj_random: Set::empty(),
                ..old(self)@
            }),
    {
        self.dj_enabled = true;
        self.dj_anchor = Some(seed);
        self.dj_random_ids = Vec::new();
        assert(texts(self.dj_random_ids@).to_set() =~= Set::empty());
    }

    pub fn set_dj_anchor(&mut self, track: TrackMeta)
        requires
            old(self).wf(),
        ensures
            final(self).wf(),
            final(self)@ == (EngineView { dj_anchor: Some(track), ..old(self)@ }),
    {
        self.dj_anchor = Some(track);
    }

    /// Marks tracks added by the random fallback (they never become the anchor).
    pub fn mark_dj_random(&mut self, ids: &[String])
        requires
            old(self).wf(),
        ensures
            final(self).wf(),
            final(self)@ == (EngineView {
                dj_random: old(self)@.dj_random.union(texts(ids@).to_set()),
                ..old(self)@
            }),
    {
        let mut all: Vec<String> = Vec::new();
        std::mem::swap(&mut all, &mut self.dj_random_ids);
        let ghost before = all@;
        let mut i: usize = 0;
        while i < ids.len()
            invariant
                i <= ids@.len(),
                all@ == before + ids@.subrange(0, i as int),
            decreases ids@.len() - i,
        {
            all.push(ids[i].clone());
            assert(ids@.subrange(0, i + 1) == ids@.subrange(0, i as int).push(ids@[i as int]));
            i = i + 1;
        }
        self.dj_random_ids = all;
        assert(ids@.subrange(0, ids@.len() as int) == ids@);
        assert(texts(before + ids@) == texts(before) + texts(ids@));
        assert(texts(before + ids@).to_set() =~= texts(before).to_set().union(texts(ids@).to_set()))
            by {
            assert forall|x: Seq<char>| texts(before + ids@).to_set().contains(x) implies texts(
                before,
            ).to_set().union(texts(ids@).to_set()).contains(x) by {
                let k = (texts(before) + texts(ids@)).index_of(x);
                if k < texts(before).len() {
                    assert(texts(before)[k] == x);
                } else {
                    assert(texts(ids@)[k - texts(before).len()] == x);
                }
            }
            assert forall|x: Seq<char>| texts(before).to_set().union(texts(ids@).to_set()).contains(
                x,
            ) implies texts(before + ids@).to_set().contains(x) by {
                if texts(before).contains(x) {
                    let k = texts(before).index_of(x);
                    assert((texts(before) + texts(ids@))[k] == x);
                } else {
                    let k = texts(ids@).index_of(x);
                    assert((texts(before) + texts(ids@))[texts(before).len() + k] == x);
                }
            }
        }
    }

    /// Removes the random mark of a track.
    pub fn unmark_dj_random(&mut self, id: &str)
        requires
            old(self).wf(),
        ensures
            final(self).wf(),
            final(self)@ == (EngineView { dj_random: old(self)@.dj_random.remove(id@), ..old(self)@ }),
    {
        let ghost before = self.dj_random_ids@;
        let mut kept: Vec<String> = Vec::new();
        let mut i: usize = 0;
        while i < self.dj_random_ids.len()
            invariant
                self.dj_random_ids@ == before,
                i <= before.len(),
                texts(kept@).to_set() == texts(before.subrange(0, i as int)).to_set().remove(id@),
            decreases before.len() - i,
        {
            let ghost prev = kept@;
            let same = str_eq(self.dj_random_ids[i].as_str(), id);
            if !same {
                kept.push(self.dj_random_ids[i].clone());
            }
            proof {
                let sub = before.subrange(0, i as int);
                let sub1 = before.subrange(0, i + 1);
                let b = before[i as int];
                assert(sub1 == sub.push(b));
                sub.lemma_push_map_commute(|s: String| s@, b);
                texts(sub).lemma_push_to_set_commute(b@);
                if same {
                    assert(kept@ == prev);
                    assert(texts(sub1).to_set().remove(id@) =~= texts(sub).to_set().remove(id@));
                } else {
                    assert(kept@ == prev.push(b));
                    prev.lemma_push_map_commute(|s: String| s@, b);
                    texts(prev).lemma_push_to_set_commute(b@);
                    assert(texts(sub1).to_set().remove(id@) =~= texts(sub).to_set().remove(
                        id@,
                    ).insert(b@));
                }
            }
            i = i + 1;
        }
        self.dj_random_ids = kept;
        assert(before.subrange(0, before.len() as int) == before);
    }

    // ---------- growing the queue ----------

    /// Appends tracks at the end of the queue without touching playback (the
    /// DJ refill). With shuffle on, the new tracks come in a random order
    /// among themselves. When the queue had run out (stopped with nothing
    /// current), playback resumes at the first appended track.
    pub fn append_tracks(&mut self, tracks: Vec<TrackMeta>) -> (op: PlayerOp)
        requires
            old(self).wf(),
        ensures
            final(self).wf(),
            tracks_appended(old(self)@, final(self)@, tracks@, op),
    {
        if tracks.len() == 0 {
            return PlayerOp::Keep;
        }
        let ghost old_queue = self.queue@;
        let ghost old_order = self.order@;
        let mut added = if self.shuffle {
            shuffled(tracks)
        } else {
            tracks
        };
        proof {
            broadcast use vstd::seq_lib::group_to_multiset_ensures;

            assert(added@.len() == added@.to_multiset().len());
            assert(tracks@.len() == tracks@.to_multiset().len());
        }
        let ghost added_seq = added@;
        let base = self.queue.len();
        self.queue.append(&mut added);
        let total = self.queue.len();
        let mut order: Vec<usize> = Vec::new();
        std::mem::swap(&mut order, &mut self.order);
        let mut i = base;
        while i < total
            invariant
                base <= i <= total,
                total == base + added_seq.len(),
                order@ == old_order + Seq::new(
                    (i - base) as nat,
                    |k: int| (base + k) as usize,
                ),
            decreases total - i,
        {
            order.push(i);
            proof {
                assert(Seq::new((i + 1 - base) as nat, |k: int| (base + k) as usize) == Seq::new(
                    (i - base) as nat,
                    |k: int| (base + k) as usize,
                ).push(i));
            }
            i = i + 1;
        }
        self.order = order;
        proof {
            assert(self.queue@.subrange(0, base as int) == old_queue);
            assert(self.queue@.subrange(base as int, total as int) == added_seq);
            let o = self.order@;
            assert forall|k: int| 0 <= k < o.len() implies (#[trigger] o[k] as int) < total by {
                if k >= old_order.len() {
                    assert(o[k] == (base + (k - base)) as usize);
                }
            }
            assert forall|x: int, y: int| 0 <= x < o.len() && 0 <= y < o.len() && x != y implies o[x]
                != o[y] by {
                if x >= base && y >= base {
                } else if x < base && y < base {
                    assert(o[x] == old_order[x]);
                    assert(o[y] == old_order[y]);
                } else if x < base {
                    assert((o[x] as int) < base);
                } else {
                    assert((o[y] as int) < base);
                }
            }
        }
        self.queue_gen = next_counter(self.queue_gen);
        if self.stopped && self.current.is_none() {
            self.stopped = false;
            PlayerOp::Start(base)
        } else {
            PlayerOp::Keep
        }
    }

    // ---------- saved state ----------

    /// Repeat mode, shuffle, the ids of the queue and the position: what is
    /// kept between runs.
    pub fn state_snapshot(&self) -> (r: QueueSnapshot)
        requires
            self.wf(),
        ensures
            r.shuffle == self@.shuffle,
            r.loop_mode == self@.loop_mode,
            texts(r.queue@) == track_ids(self@.queue),
            r.queue_pos == self@.pos,
    {
        let mut ids: Vec<String> = Vec::new();
        let mut i: usize = 0;
        while i < self.queue.len()
            invariant
                i <= self.queue@.len(),
                texts(ids@) == track_ids(self.queue@.subrange(0, i as int)),
            decreases self.queue@.len() - i,
        {
            let ghost before = ids@;
            ids.push(self.queue[i].id.clone());
            proof {
                before.lemma_push_map_commute(|s: String| s@, self.queue@[i as int].id);
                assert(self.queue@.subrange(0, i + 1) == self.queue@.subrange(0, i as int).push(
                    self.queue@[i as int],
                ));
                self.queue@.subrange(0, i as int).lemma_push_map_commute(
                    |t: TrackMeta| t.id@,
                    self.queue@[i as int],
                );
            }
            i = i + 1;
        }
        assert(self.queue@.subrange(0, self.queue@.len() as int) == self.queue@);
        QueueSnapshot { shuffle: self.shuffle, loop_mode: self.loop_mode, queue: ids, queue_pos: self.pos }
    }

    /// Restores repeat mode and shuffle, and rebuilds the queue from saved
    /// ids: each id takes the first track of `tracks` with that id, ids
    /// without a track are skipped. When some track was found, the queue is
    /// replaced and positioned at `queue_pos` (clamped); playback is not started.
    pub fn restore_state(
        &mut self,
        shuffle: bool,
        loop_mode: LoopMode,
        queue: &Vec<String>,
        queue_pos: usize,
        tracks: Vec<TrackMeta>,
    )
        requires
            old(self).wf(),
        ensures
            final(self).wf(),
            ({
                let restored = resolve_ids(texts(queue@), tracks@);
                if tracks@.len() > 0 && queue@.len() > 0 && restored.len() > 0 {
                    &&& order_rebuilt(
                        old(self)@.order,
                        final(self)@.order,
                        clamp_start(queue_pos as int, restored.len() as int),
                        restored.len() as int,
                        shuffle,
                    )
                    &&& final(self)@ == (EngineView {
                        queue: restored,
                        order: final(self)@.order,
                        pos: clamp_start(queue_pos as int, restored.len() as int),
                        current: None,
                        shuffle: shuffle,
                        loop_mode: loop_mode,
                        queue_gen: next_gen(old(self)@.queue_gen),
                        dj_enabled: false,
                        dj_anchor: None,
                        dj_random: Set::empty(),
                        ..old(self)@
                    })
                } else {
                    final(self)@ == (EngineView { shuffle: shuffle, loop_mode: loop_mode, ..old(self)@ })
                }
            }),
    {
        self.shuffle = shuffle;
        self.loop_mode = loop_mode;
        if tracks.len() > 0 && queue.len() > 0 {
            let restored = resolve_tracks(queue, &tracks);
            if restored.len() > 0 {
                let start = queue_pos;
                self.set_queue_inner(restored, start);
            }
        }
    }

    // ---------- scrobbling ----------

    /// Whether the current track should now be counted as listened to
    /// (`since_start_ns`: time since it started, `position_ns`: the playback
    /// position, both in nanoseconds). Returns the id to submit and
    /// remembers that it was counted.
    pub fn maybe_scrobble(&mut self, since_start_ns: u128, position_ns: u128) -> (r: Option<String>)
        requires
            old(self).wf(),
        ensures
            final(self).wf(),
            ({
                let due = !old(self)@.scrobbled && !old(self)@.stopped && old(
                    self,
                )@.current.is_some() && since_start_ns >= SCROBBLE_SWITCH_GUARD_NANOS
                    && position_ns >= threshold_nanos(
                    secs_to_nanos(old(self)@.current.unwrap().duration),
                );
                if due {
                    &&& r == Some(old(self)@.current.unwrap().id)
                    &&& final(self)@ == (EngineView { scrobbled: true, ..old(self)@ })
                } else {
                    &&& r.is_none()
                    &&& final(self)@ == old(self)@
                }
            }),
    {
        if self.scrobbled || self.stopped {
            return None;
        }
        let id_and_duration = match &self.current {
            Some(t) => Some((t.id.clone(), t.duration)),
            None => None,
        };
        match id_and_duration {
            None => None,
            Some((id, secs)) => {
                if since_start_ns < SCROBBLE_SWITCH_GUARD_NANOS {
                    return None;
                }
                let duration = if secs > 0 {
                    secs as u128 * 1_000_000_000
                } else {
                    0
                };
                if should_scrobble(position_ns, duration) {
                    self.scrobbled = true;
                    Some(id)
                } else {
                    None
                }
            },
        }
    }
}


/// The ids of the tracks of a queue.
pub open spec fn track_ids(q: Seq<TrackMeta>) -> Seq<Seq<char>> {
    q.map_values(|t: TrackMeta| t.id@)
}

/// What is kept of the player between runs (the volume is kept by the application).
#[derive(Debug)]
pub struct QueueSnapshot {
    pub shuffle: bool,
    pub loop_mode: LoopMode,
    pub queue: Vec<String>,
    pub queue_pos: usize,
}

/// The first track of `tracks` with the id `id`.
pub open spec fn first_with_id(tracks: Seq<TrackMeta>, id: Seq<char>) -> Option<TrackMeta>
    decreases tracks.len(),
{
    if tracks.len() == 0 {
        None
    } else if tracks[0].id@ == id {
        Some(tracks[0])
    } else {
        first_with_id(tracks.drop_first(), id)
    }
}

/// For each id in turn, the first track with that id; ids without one are skipped.
pub open spec fn resolve_ids(ids: Seq<Seq<char>>, tracks: Seq<TrackMeta>) -> Seq<TrackMeta>
    decreases ids.len(),
{
    if ids.len() == 0 {
        Seq::empty()
    } else {
        let prev = resolve_ids(ids.drop_last(), tracks);
        match first_with_id(tracks, ids.last()) {
            Some(t) => prev.push(t),
            None => prev,
        }
    }
}

proof fn lemma_first_with_id_found(tracks: Seq<TrackMeta>, id: Seq<char>, k: int)
    requires
        0 <= k <= tracks.len(),
        forall|j: int| 0 <= j < k ==> tracks[j].id@ != id,
    ensures
        first_with_id(tracks, id) == first_with_id(tracks.subrange(k, tracks.len() as int), id),
    decreases k,
{
    if k > 0 {
        lemma_first_with_id_found(tracks.drop_first(), id, k - 1);
        assert(tracks.drop_first().subrange(k - 1, tracks.len() - 1) == tracks.subrange(
            k,
            tracks.len() as int,
        ));
    } else {
        assert(tracks.subrange(0, tracks.len() as int) == tracks);
    }
}

fn find_track(tracks: &Vec<TrackMeta>, id: &String) -> (r: Option<TrackMeta>)
    ensures
        r == first_with_id(tracks@, id@),
{
    let mut k: usize = 0;
    while k < tracks.len()
        invariant
            k <= tracks@.len(),
            forall|j: int| 0 <= j < k ==> tracks@[j].id@ != id@,
        decreases tracks@.len() - k,
    {
        if str_eq(tracks[k].id.as_str(), id.as_str()) {
            proof {
                lemma_first_with_id_found(tracks@, id@, k as int);
                assert(tracks@.subrange(k as int, tracks@.len() as int)[0] == tracks@[k as int]);
            }
            return Some(tracks[k].clone());
        }
        k = k + 1;
    }
    proof {
        lemma_first_with_id_found(tracks@, id@, k as int);
    }
    None
}

fn resolve_tracks(ids: &Vec<String>, tracks: &Vec<TrackMeta>) -> (r: Vec<TrackMeta>)
    ensures
        r@ == resolve_ids(texts(ids@), tracks@),
{
    let mut out: Vec<TrackMeta> = Vec::new();
    let mut i: usize = 0;
    while i < ids.len()
        invariant
            i <= ids@.len(),
            out@ == resolve_ids(texts(ids@.subrange(0, i as int)), tracks@),
        decreases ids@.len() - i,
    {
        let found = find_track(tracks, &ids[i]);
        proof {
            let sub1 = ids@.subrange(0, i + 1);
            assert(sub1.drop_last() == ids@.subrange(0, i as int));
            assert(texts(sub1).drop_last() == texts(ids@.subrange(0, i as int)));
            assert(texts(sub1).last() == ids@[i as int]@);
        }
        match found {
            Some(t) => out.push(t),
            None => {},
        }
        i = i + 1;
    }
    assert(ids@.subrange(0, ids@.len() as int) == ids@);
    out
}

/// Restoring the saved ids against the queue itself gives the queue back,
/// when tracks with the same id are the same track.
pub proof fn lemma_snapshot_restores_queue(q: Seq<TrackMeta>)
    requires
        forall|i: int, j: int|
            0 <= i < q.len() && 0 <= j < q.len() && q[i].id@ == q[j].id@ ==> q[i] == q[j],
    ensures
        resolve_ids(track_ids(q), q) == q,
{
    lemma_resolve_prefix(q, q.len() as int);
    assert(track_ids(q).subrange(0, q.len() as int) == track_ids(q));
    assert(q.subrange(0, q.len() as int) == q);
}

proof fn lemma_first_with_id_is_member(tracks: Seq<TrackMeta>, id: Seq<char>, k: int)
    requires
        0 <= k < tracks.len(),
        tracks[k].id@ == id,
    ensures
        exists|j: int| 0 <= j < tracks.len() && tracks[j].id@ == id && first_with_id(tracks, id)
            == Some(tracks[j]),
    decreases k,
{
    if tracks[0].id@ == id {
        assert(first_with_id(tracks, id) == Some(tracks[0]));
    } else {
        lemma_first_with_id_is_member(tracks.drop_first(), id, k - 1);
        let j = choose|j: int|
            0 <= j < tracks.drop_first().len() && tracks.drop_first()[j].id@ == id && first_with_id(
                tracks.drop_first(),
                id,
            ) == Some(tracks.drop_first()[j]);
        assert(tracks[j + 1] == tracks.drop_first()[j]);
    }
}

proof fn lemma_resolve_prefix(q: Seq<TrackMeta>, k: int)
    requires
        0 <= k <= q.len(),
        forall|i: int, j: int|
            0 <= i < q.len() && 0 <= j < q.len() && q[i].id@ == q[j].id@ ==> q[i] == q[j],
    ensures
        resolve_ids(track_ids(q).subrange(0, k), q) == q.subrange(0, k),
    decreases k,
{
    if k > 0 {
        lemma_resolve_prefix(q, k - 1);
        let ids = track_ids(q).subrange(0, k);
        assert(ids.drop_last() == track_ids(q).subrange(0, k - 1));
        assert(ids.last() == q[k - 1].id@);
        lemma_first_with_id_is_member(q, q[k - 1].id@, k - 1);
        assert(q.subrange(0, k) == q.subrange(0, k - 1).push(q[k - 1]));
    }
}

/// Nanoseconds in a whole number of seconds (negative counts as 0).
pub open spec fn secs_to_nanos(secs: i32) -> int {
    if secs > 0 {
        secs * 1_000_000_000
    } else {
        0
    }
}

/// Least play time for counting a listen: four minutes, in nanoseconds.
pub const SCROBBLE_MIN_PLAY_NANOS: u128 = 240_000_000_000;

/// Time after a track switch during which the audio output may still report
/// the position of the previous track (200 ms, in nanoseconds).
pub const SCROBBLE_SWITCH_GUARD_NANOS: u128 = 200_000_000;

/// The play time after which a track of this duration counts as listened to:
/// half its duration or four minutes, whichever comes first; an unknown
/// duration (shorter than 2 ns) counts as a long track.
pub open spec fn threshold_nanos(duration: int) -> int {
    let half = duration / 2;
    if half == 0 {
        SCROBBLE_MIN_PLAY_NANOS as int
    } else if half < SCROBBLE_MIN_PLAY_NANOS {
        half
    } else {
        SCROBBLE_MIN_PLAY_NANOS as int
    }
}

/// The listen threshold of a track of `duration_ns` nanoseconds.
pub fn scrobble_threshold(duration_ns: u128) -> (r: u128)
    ensures
        r == threshold_nanos(duration_ns as int),
{
    let half = duration_ns / 2;
    if half == 0 {
        SCROBBLE_MIN_PLAY_NANOS
    } else if half < SCROBBLE_MIN_PLAY_NANOS {
        half
    } else {
        SCROBBLE_MIN_PLAY_NANOS
    }
}

/// Whether a play position has reached the listen threshold of the duration.
pub fn should_scrobble(position_ns: u128, duration_ns: u128) -> (r: bool)
    ensures
        r == (position_ns >= threshold_nanos(duration_ns as int)),
{
    position_ns >= scrobble_threshold(duration_ns)
}

/// The longest duration the standard library can represent, in nanoseconds.
pub const DURATION_MAX_NANOS: u128 = 18_446_744_073_709_551_615_999_999_999;

/// The target of a relative seek from `position_ns` by `delta_secs` seconds:
/// never before the start, never past the longest representable duration.
pub fn seek_target(position_ns: u128, delta_secs: i64) -> (r: u128)
    requires
        position_ns <= DURATION_MAX_NANOS,
    ensures
        delta_secs < 0 ==> r == (if position_ns >= -delta_secs * 1_000_000_000 {
            position_ns + delta_secs * 1_000_000_000
        } else {
            0
        }),
        delta_secs >= 0 ==> r == (if position_ns + delta_secs * 1_000_000_000
            <= DURATION_MAX_NANOS {
            position_ns + delta_secs * 1_000_000_000
        } else {
            DURATION_MAX_NANOS as int
        }),
{
    if delta_secs < 0 {
        let back: u128 = if delta_secs == i64::MIN {
            9_223_372_036_854_775_808u128 * 1_000_000_000
        } else {
            (-delta_secs) as u128 * 1_000_000_000
        };
        if position_ns >= back {
            position_ns - back
        } else {
            0
        }
    } else {
        let ahead = delta_secs as u128 * 1_000_000_000;
        if ahead <= DURATION_MAX_NANOS - position_ns {
            position_ns + ahead
        } else {
            DURATION_MAX_NANOS
        }
    }
}

/// A track decoded ahead of time, with the id of the track it belongs to.
pub struct ReadyTrack<T> {
    pub id: String,
    pub value: T,
}

/// What [`take_matching`] found in the slot of the pre-decoded track.
#[derive(Debug)]
pub enum TakeReady<T> {
    /// The slot held the wanted track; its value is handed out.
    Consumed(T),
    /// The slot held another track, which is dropped (its id is given).
    Discarded(String),
    /// The slot was empty.
    Empty,
}

/// Empties the slot and hands out its value only when it belongs to the
/// track `want_id`, so that no other track's audio is ever played.
pub fn take_matching<T>(slot: &mut Option<ReadyTrack<T>>, want_id: &str) -> (r: TakeReady<T>)
    ensures
        final(slot).is_none(),
        match *old(slot) {
            None => r is Empty,
            Some(ready) => if ready.id@ == want_id@ {
                r == TakeReady::Consumed(ready.value)
            } else {
                r == TakeReady::<T>::Discarded(ready.id)
            },
        },
{
    match slot.take() {
        None => TakeReady::Empty,
        Some(ready) => {
            if str_eq(ready.id.as_str(), want_id) {
                TakeReady::Consumed(ready.value)
            } else {
                TakeReady::Discarded(ready.id)
            }
        },
    }
}

/// Turning shuffle on keeps the queue entry at the current position where it was.
pub proof fn lemma_shuffle_keeps_current_entry(before: EngineView, after_order: Seq<usize>)
    requires
        before.wf(),
        before.queue.len() > 1,
        order_rebuilt(before.order, after_order, before.pos, before.queue.len() as int, true),
    ensures
        after_order[before.pos] == before.order[before.pos],
{
}

/// Stepping back after stepping forward comes back to the same position.
pub proof fn lemma_previous_undoes_next(v: EngineView)
    requires
        v.wf(),
        v.order.len() > 0,
        v.next_position() is Some,
    ensures
        (EngineView { pos: v.next_position().unwrap(), ..v }).previous_position() == v.pos,
{
    let n = v.order.len() as int;
    if v.pos + 1 < n {
        vstd::arithmetic::div_mod::lemma_small_mod((v.pos + 1) as nat, n as nat);
    } else {
        vstd::arithmetic::div_mod::lemma_mod_self_0(n);
    }
}

/// "Previous" goes one place back in the play order. From the first place it
/// starts the same track again, unless the whole queue repeats: then it goes
/// to the last place. The player itself is left as it was.
pub proof fn lemma_previous_steps_back(before: EngineView, after: EngineView, op: PlayerOp)
    requires
        before.wf(),
        went_back(before, after, op),
    ensures
        after == before,
        before.order.len() == 0 ==> op == PlayerOp::Keep,
        before.order.len() > 0 && before.pos > 0 ==> op == PlayerOp::Jump((before.pos - 1) as usize),
        before.order.len() > 0 && before.pos == 0 && before.loop_mode != LoopMode::Playlist ==> op
            == PlayerOp::Jump(0),
        before.order.len() > 0 && before.pos == 0 && before.loop_mode == LoopMode::Playlist ==> op
            == PlayerOp::Jump((before.order.len() - 1) as usize),
{
}

/// "Next" goes one place on in the play order. At the last place it goes
/// back to the first when the whole queue repeats; otherwise the queue is
/// finished: playback stops, nothing is current and the DJ mode is off.
pub proof fn lemma_next_steps_forward(before: EngineView, after: EngineView, op: PlayerOp)
    requires
        before.wf(),
        advanced(before, after, op),
    ensures
        before.order.len() == 0 ==> op == PlayerOp::Keep && after == before,
        before.pos + 1 < before.order.len() ==> op == PlayerOp::Jump((before.pos + 1) as usize)
            && after == before,
        before.order.len() > 0 && before.pos + 1 == before.order.len() && before.loop_mode
            == LoopMode::Playlist ==> op == PlayerOp::Jump(0) && after == before,
        before.order.len() > 0 && before.pos + 1 == before.order.len() && before.loop_mode
            != LoopMode::Playlist ==> {
            &&& op == PlayerOp::Finish
            &&& after.stopped && after.current is None && !after.dj_enabled
            &&& after.queue == before.queue && after.order == before.order && after.pos
                == before.pos
        },
{
    let n = before.order.len() as int;
    if n > 0 && before.loop_mode == LoopMode::Playlist {
        if before.pos + 1 < n {
            vstd::arithmetic::div_mod::lemma_small_mod((before.pos + 1) as nat, n as nat);
        } else {
            vstd::arithmetic::div_mod::lemma_mod_self_0(n);
        }
    }
}

/// Restoring a snapshot against the queue's own tracks gives back the queue
/// and the position, when tracks with the same id are the same track.
pub proof fn lemma_restore_snapshot_round_trip(v: EngineView)
    requires
        v.wf(),
        v.queue.len() > 0,
        forall|i: int, j: int|
            0 <= i < v.queue.len() && 0 <= j < v.queue.len() && v.queue[i].id@ == v.queue[j].id@
                ==> v.queue[i] == v.queue[j],
    ensures
        resolve_ids(track_ids(v.queue), v.queue) == v.queue,
        clamp_start(v.pos, v.queue.len() as int) == v.pos,
{
    lemma_snapshot_restores_queue(v.queue);
}

/// Every index below `n` stands somewhere in a play order over `n` entries.
proof fn lemma_perm_covers(order: Seq<usize>, n: int, x: int)
    requires
        is_index_perm(order, n),
        0 <= x < n,
    ensures
        exists|p: int| 0 <= p < order.len() && order[p] == x,
{
    broadcast use vstd::seq_lib::seq_to_set_is_finite;

    let m = order.map_values(|v: usize| v as int);
    assert forall|i: int, j: int| 0 <= i < m.len() && 0 <= j < m.len() && i != j implies m[i]
        != m[j] by {
        assert(order[i] != order[j]);
    }
    m.unique_seq_to_set();
    let s = m.to_set();
    let r = vstd::set_lib::set_int_range(0, n);
    vstd::set_lib::lemma_int_range(0, n);
    assert forall|y: int| s.contains(y) implies r.contains(y) by {
        let i = m.index_of(y);
        assert(m[i] == order[i] as int);
    }
    vstd::set_lib::lemma_subset_equality(s, r);
    assert(r.contains(x));
    assert(s.contains(x));
    let i = m.index_of(x);
    assert(order[i] == x);
}

} // verus!
