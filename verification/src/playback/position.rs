//! What position is published to MPRIS around a change of track.
//!
//! After a change of track the audio output resets its position a few
//! milliseconds later, so for a moment it still reports the position of the
//! old track. Publishing that value would overwrite the `Seeked(0)` just sent
//! and freeze the progress bar of the client. The real position is therefore
//! published only once it differs from the one seen when the track started,
//! or once a safety timeout has passed (the old and the new track may both
//! sit at 0).
use crate::text::str_eq;
use std::time::{Duration, Instant};
use vstd::prelude::*;

verus! {

/// `std::time::Instant`, carried through opaque: the moment a change of track began.
#[verifier::external_type_specification]
#[verifier::external_body]
pub struct ExInstant(Instant);

/// The length of a `Duration` in nanoseconds (`Duration::as_nanos`).
pub uninterp spec fn duration_nanos(d: Duration) -> nat;

/// `Duration::as_nanos`: the whole length of `d` in nanoseconds, which the
/// contracts call `duration_nanos`.
#[verifier::external_body]
fn nanos_of(d: &Duration) -> (r: u128)
    ensures
        r == duration_nanos(*d),
{
    d.as_nanos()
}

/// `Duration::from_nanos`: a duration of exactly `n` nanoseconds.
#[verifier::external_body]
fn from_nanos(n: u64) -> (r: Duration)
    ensures
        duration_nanos(r) == n,
{
    Duration::from_nanos(n)
}

/// `Instant::now`: the current instant (nothing is known of it).
#[verifier::external_body]
fn now() -> Instant {
    Instant::now()
}

/// `Instant::elapsed`: the time since `t` (nothing is known of it).
#[verifier::external_body]
fn elapsed(t: &Instant) -> Duration {
    t.elapsed()
}

/// After this long the position is published even when it did not change.
pub const SWITCH_TIMEOUT_MS: u64 = 500;

/// The same timeout in nanoseconds.
pub const SWITCH_TIMEOUT_NANOS: u128 = 500_000_000;

/// What the contracts say of the guard.
pub struct PositionView {
    /// A change of track waits for the position of the new track.
    pub switch_pending: bool,
    /// The position (in nanoseconds) seen when the track started, or last published.
    pub baseline: nat,
    /// The track whose metadata was last published.
    pub last_meta_id: Option<Seq<char>>,
}

/// Guards the position published to MPRIS.
pub struct PositionGuard {
    switch_pending: bool,
    baseline: u128,
    switch_started: Instant,
    last_meta_id: Option<String>,
}

impl View for PositionGuard {
    type V = PositionView;

    closed spec fn view(&self) -> PositionView {
        PositionView {
            switch_pending: self.switch_pending,
            baseline: self.baseline as nat,
            last_meta_id: match self.last_meta_id {
                Some(s) => Some(s@),
                None => None,
            },
        }
    }
}

/// Whether the position `raw` (seen `elapsed` after the change of track)
/// ends the wait for the new track.
pub open spec fn switch_over(v: PositionView, raw: nat, elapsed: nat) -> bool {
    raw != v.baseline || elapsed >= SWITCH_TIMEOUT_NANOS
}

/// The guard after publishing the position `raw`.
pub open spec fn published(v: PositionView, raw: nat) -> PositionView {
    PositionView { switch_pending: false, baseline: raw, ..v }
}

/// One step of the guard: the position `raw` seen `elapsed` after the last
/// change of track leads from `v` to `after`, and `out` is published.
pub open spec fn guard_step(v: PositionView, raw: nat, elapsed: nat, after: PositionView, out: nat) -> bool {
    if v.switch_pending && !switch_over(v, raw, elapsed) {
        after == v && out == 0
    } else {
        after == published(v, raw) && out == raw
    }
}

/// What the metadata of MPRIS needs after a tick.
#[derive(Debug, Clone, Copy, PartialEq, Eq, Structural)]
pub enum MetaPublish {
    /// Nothing changed.
    Keep,
    /// A new current track: publish its metadata.
    Track,
    /// Nothing is current any more: publish empty metadata.
    Clear,
}

impl PositionGuard {
    /// No change of track pending, position 0, no metadata published.
    pub fn new() -> (g: PositionGuard)
        ensures
            g@ == (PositionView { switch_pending: false, baseline: 0, last_meta_id: None }),
    {
        PositionGuard { switch_pending: false, baseline: 0, switch_started: now(), last_meta_id: None }
    }

    /// A track started while the audio output reports `raw`, which may still
    /// be the position of the old track.
    pub fn on_track_started(&mut self, raw: Duration)
        ensures
            final(self)@ == (PositionView {
                switch_pending: true,
                baseline: duration_nanos(raw),
                ..old(self)@
            }),
    {
        self.switch_pending = true;
        self.baseline = nanos_of(&raw);
        self.switch_started = now();
    }

    /// The position to publish when the audio output reports `raw`, measured
    /// from the last change of track against the clock.
    pub fn next(&mut self, raw: Duration) -> (r: Duration)
        ensures
            exists|e: nat|
                guard_step(old(self)@, duration_nanos(raw), e, final(self)@, duration_nanos(r)),
    {
        let e = elapsed(&self.switch_started);
        self.step(raw, e)
    }

    /// The position to publish when the audio output reports `raw`,
    /// `elapsed` after the last change of track.
    pub fn step(&mut self, raw: Duration, elapsed: Duration) -> (r: Duration)
        ensures
            guard_step(
                old(self)@,
                duration_nanos(raw),
                duration_nanos(elapsed),
                final(self)@,
                duration_nanos(r),
            ),
    {
        let raw_ns = nanos_of(&raw);
        if self.switch_pending {
            let elapsed_ns = nanos_of(&elapsed);
            if raw_ns != self.baseline || elapsed_ns >= SWITCH_TIMEOUT_NANOS {
                self.switch_pending = false;
                self.baseline = raw_ns;
                raw
            } else {
                from_nanos(0)
            }
        } else {
            self.baseline = raw_ns;
            raw
        }
    }

    /// Tells whether the metadata must be published again for the current
    /// track `current` (its id), and remembers what was published.
    pub fn meta_change(&mut self, current: Option<&str>) -> (r: MetaPublish)
        ensures
            match current {
                Some(id) => if old(self)@.last_meta_id == Some(id@) {
                    r == MetaPublish::Keep && final(self)@ == old(self)@
                } else {
                    r == MetaPublish::Track && final(self)@ == (PositionView {
                        last_meta_id: Some(id@),
                        ..old(self)@
                    })
                },
                None => if old(self)@.last_meta_id is Some {
                    r == MetaPublish::Clear && final(self)@ == (PositionView {
                        last_meta_id: None,
                        ..old(self)@
                    })
                } else {
                    r == MetaPublish::Keep && final(self)@ == old(self)@
                },
            },
    {
        match current {
            Some(id) => {
                let same = match &self.last_meta_id {
                    Some(last) => str_eq(last.as_str(), id),
                    None => false,
                };
                if same {
                    MetaPublish::Keep
                } else {
                    self.last_meta_id = Some(id.to_owned());
                    MetaPublish::Track
                }
            },
            None => {
                if self.last_meta_id.is_some() {
                    self.last_meta_id = None;
                    MetaPublish::Clear
                } else {
                    MetaPublish::Keep
                }
            },
        }
    }
}

/// A guard that sees the old track's position keeps publishing 0 until the
/// position moves or the timeout passes; after that it passes the position
/// through.
pub proof fn lemma_guard_hides_old_position(v: PositionView, raw: nat, elapsed: nat, after: PositionView, out: nat)
    requires
        v.switch_pending,
        raw == v.baseline,
        elapsed < SWITCH_TIMEOUT_NANOS,
        guard_step(v, raw, elapsed, after, out),
    ensures
        out == 0,
        after == v,
{
}

/// Without a pending change of track the position passes through unchanged.
pub proof fn lemma_guard_passes_through(v: PositionView, raw: nat, elapsed: nat, after: PositionView, out: nat)
    requires
        !v.switch_pending,
        guard_step(v, raw, elapsed, after, out),
    ensures
        out == raw,
        !after.switch_pending,
{
}

} // verus!
