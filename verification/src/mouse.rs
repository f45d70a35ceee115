//! Mouse input: click zones and double-click detection.

use vstd::prelude::*;

verus! {

/// A region of the viewport that a click falls into.
#[derive(Debug, Clone, Copy, PartialEq, Eq, Structural)]
pub enum ClickZone {
    Left,
    Center,
    Right,
}

/// A point in time on the monotonic clock.
#[verifier::external_type_specification]
#[verifier::external_body]
pub struct ExInstant(std::time::Instant);

/// Reads the monotonic clock with `std::time::Instant::now`. Nothing is
/// claimed of the value: it depends on the time of the call.
#[verifier::external_body]
fn instant_now() -> (r: std::time::Instant) {
    std::time::Instant::now()
}

/// Nanoseconds from `earlier` to `later` by `Instant::duration_since` and
/// `Duration::as_nanos` (0 when `earlier` is the later one). Nothing is
/// claimed of the value: the instants are opaque.
#[verifier::external_body]
fn nanos_between(later: &std::time::Instant, earlier: &std::time::Instant) -> (r: u128) {
    later.duration_since(*earlier).as_nanos()
}

/// Whole milliseconds from a click at `last` to one at `now`, both in
/// nanoseconds on one clock; 0 when `now` is the earlier one.
pub open spec fn elapsed_ms(last: u128, now: u128) -> nat {
    if now >= last {
        ((now - last) as nat) / 1_000_000
    } else {
        0
    }
}

/// What a click at `now` makes of a detector whose pending first click is at
/// `last`: no pending click and a double click when it came less than
/// `interval_ms` milliseconds after the pending one; otherwise this click is
/// the pending one and no double click.
pub open spec fn click_outcome(last: Option<u128>, interval_ms: u32, now: u128) -> (Option<u128>, bool) {
    match last {
        Some(t) if elapsed_ms(t, now) < interval_ms => (None, true),
        _ => (Some(now), false),
    }
}

/// Whether a click is the second of a double click: it came less than
/// `interval_ms` milliseconds after an unpaired first click.
pub fn is_double_click(since_last_ms: Option<u128>, interval_ms: u32) -> (r: bool)
    ensures
        r == (since_last_ms matches Some(ms) && ms < interval_ms),
{
    match since_last_ms {
        Some(ms) => ms < interval_ms as u128,
        None => false,
    }
}

/// Detects double clicks: two clicks within an interval. Click times are
/// kept as nanoseconds after the clock reading taken when the detector was
/// made.
pub struct DoubleClickDetector {
    origin: std::time::Instant,
    last_click_time: Option<u128>,
    interval_ms: u32,
}

impl DoubleClickDetector {
    /// The time of the first click waiting for its pair, if any.
    pub closed spec fn pending_time(&self) -> Option<u128> {
        self.last_click_time
    }

    /// Whether a first click is waiting for its pair.
    pub open spec fn pending(&self) -> bool {
        self.pending_time() is Some
    }

    /// The double-click interval in milliseconds.
    pub closed spec fn interval(&self) -> u32 {
        self.interval_ms
    }

    /// A detector for double clicks at most `interval_ms` milliseconds apart,
    /// with no click yet.
    pub fn new(interval_ms: u32) -> (r: DoubleClickDetector)
        ensures
            r.pending_time() is None,
            r.interval() == interval_ms,
    {
        DoubleClickDetector { origin: instant_now(), last_click_time: None, interval_ms }
    }

    /// Registers a click made `now_ns` nanoseconds after the detector's clock
    /// origin; true when it completes a double click.
    pub fn click_at(&mut self, now_ns: u128) -> (r: bool)
        ensures
            final(self).interval() == old(self).interval(),
            (final(self).pending_time(), r) == click_outcome(old(self).pending_time(), old(self).interval(), now_ns),
    {
        let since = match self.last_click_time {
            Some(t) => Some(if now_ns >= t { (now_ns - t) / 1_000_000 } else { 0 }),
            None => None,
        };
        let double = is_double_click(since, self.interval_ms);
        if double {
            self.last_click_time = None;
        } else {
            self.last_click_time = Some(now_ns);
        }
        double
    }

    /// Registers a click at the current time; true when it completes a double
    /// click. A double click leaves no click pending; any other click becomes
    /// the pending first click, at its own time.
    pub fn click(&mut self) -> (r: bool)
        ensures
            final(self).interval() == old(self).interval(),
            exists|now: u128| (final(self).pending_time(), r) == #[trigger] click_outcome(old(self).pending_time(), old(self).interval(), now),
    {
        let now = instant_now();
        let t = nanos_between(&now, &self.origin);
        self.click_at(t)
    }
}

/// A detected double click resets the detector: of three clicks at `t0`,
/// `t1` and `t2` on a new detector, the first is no double click; the second
/// is one when it came within the interval of the first; after a double click
/// the third is none, and otherwise it is one when it came within the
/// interval of the second.
pub proof fn lemma_double_click_resets(interval_ms: u32, t0: u128, t1: u128, t2: u128)
    ensures
        ({
            let (s1, r1) = click_outcome(None, interval_ms, t0);
            let (s2, r2) = click_outcome(s1, interval_ms, t1);
            let (s3, r3) = click_outcome(s2, interval_ms, t2);
            &&& !r1
            &&& r2 == (elapsed_ms(t0, t1) < interval_ms)
            &&& r2 ==> !r3
            &&& !r2 ==> r3 == (elapsed_ms(t1, t2) < interval_ms)
        }),
{
}

} // verus!
