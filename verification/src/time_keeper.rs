//! The clock of a session: when it started, and when the last frame was
//! drawn.

use crate::uniforms::Uniforms;
use std::time::{Duration, Instant};
use vstd::prelude::*;

verus! {

/// A moment on the monotonic clock. Nothing is known of what it holds.
#[verifier::external_type_specification]
#[verifier::external_body]
pub struct ExInstant(Instant);

/// Reads the monotonic clock with `Instant::now`. Two readings may differ,
/// so nothing is promised of the result.
#[verifier::external_body]
fn now() -> Instant {
    Instant::now()
}

/// The time from `earlier` to `later` as `Instant::duration_since` gives it,
/// which is zero if `earlier` is the later of the two.
#[verifier::external_body]
fn duration_between(later: &Instant, earlier: &Instant) -> Duration {
    later.duration_since(*earlier)
}

/// The whole milliseconds from `start` to now, as `Instant::elapsed` and
/// `Duration::as_millis` give them. The result depends on the clock, so
/// nothing is promised of it.
#[verifier::external_body]
fn elapsed_millis(start: &Instant) -> u128 {
    start.elapsed().as_millis()
}

/// The low 32 bits of a count of milliseconds: the count wraps around after
/// about 49.7 days.
pub fn millis_to_u32(millis: u128) -> (r: u32)
    ensures
        r == millis % 0x1_0000_0000,
{
    (millis % 0x1_0000_0000) as u32
}

/// When the session started and when the last frame was drawn.
pub struct TimeKeeper {
    pub last_render_time: Instant,
    pub starting_time: Instant,
}

impl TimeKeeper {
    /// A clock that starts now: the last frame counts as drawn at the start.
    pub fn new() -> (r: TimeKeeper)
        ensures
            r.last_render_time == r.starting_time,
    {
        let now = now();
        TimeKeeper { last_render_time: now, starting_time: now }
    }

    /// Marks a frame: writes the milliseconds since the start, modulo 2^32,
    /// into the time binding of `uniforms`, and returns the time since the
    /// frame before. The start stays as it was.
    pub fn update_time(&mut self, uniforms: &mut Uniforms) -> (dt: Duration)
        requires
            old(uniforms).wf(),
            old(uniforms)@.has_time(),
        ensures
            final(self).starting_time == old(self).starting_time,
            final(uniforms).wf(),
            final(uniforms)@.has_time(),
            exists|elapsed: u32| final(uniforms)@ == #[trigger] old(uniforms)@.with_time(elapsed),
    {
        let now = now();
        let dt = duration_between(&now, &self.last_render_time);
        self.last_render_time = now;
        let elapsed_time = millis_to_u32(elapsed_millis(&self.starting_time));
        uniforms.update_time(elapsed_time);
        dt
    }
}

} // verus!
