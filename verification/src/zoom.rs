//! Smoothing of zoom input events.
//!
//! Zoom deltas arrive as plain integers (in the caller's wheel unit) with a
//! timestamp in milliseconds. Each delta is damped to a tenth (truncated
//! toward zero) before it is queued. A delta whose sign opposes the queued
//! events cancels the ongoing zoom: the queue is cleared and the new event
//! is dropped. Zero counts as positive, mirroring how a sign function maps
//! a zero input. Events older than the input window are discarded from the
//! front of the queue.

use vstd::prelude::*;
use crate::math::tdiv;

verus! {

/// How long a zoom input event stays relevant, in milliseconds.
pub const ZOOM_INPUT_WINDOW_MS: u64 = 500;

/// The damped value queued for a raw delta: a tenth, truncated toward zero.
pub open spec fn damped(delta: int) -> int {
    tdiv(delta, 10)
}

/// Whether two damped deltas point in opposite zoom directions.
pub open spec fn signs_differ(a: int, b: int) -> bool {
    (a >= 0) != (b >= 0)
}

/// An event is stale when it fell out of the input window.
pub open spec fn stale(now: u64, t: u64) -> bool {
    now > t + ZOOM_INPUT_WINDOW_MS
}

/// The queue with all stale leading events removed.
pub open spec fn drop_stale(s: Seq<(u64, i64)>, now: u64) -> Seq<(u64, i64)>
    decreases s.len(),
{
    if s.len() > 0 && stale(now, s[0].0) {
        drop_stale(s.drop_first(), now)
    } else {
        s
    }
}

/// Accumulated zoom input: queued `(timestamp, damped delta)` events and
/// the current zoom speed.
pub struct Zoom {
    pub events: Vec<(u64, i64)>,
    pub speed: i64,
}

impl Zoom {
    pub fn new() -> (r: Zoom)
        ensures
            r.events@ == Seq::<(u64, i64)>::empty(),
            r.speed == 0,
    {
        Zoom { events: Vec::new(), speed: 0 }
    }

    /// Queue a new zoom delta. If it opposes the queued events, the queue
    /// is cleared instead, stopping the ongoing zoom.
    pub fn push_delta(&mut self, delta: i64, now: u64)
        requires
            delta != i64::MIN,
        ensures
            final(self).speed == old(self).speed,
            ({
                let ne = damped(delta as int);
                if old(self).events@.len() > 0 && signs_differ(
                    old(self).events@[0].1 as int,
                    ne,
                ) {
                    final(self).events@ == Seq::<(u64, i64)>::empty()
                } else {
                    final(self).events@ == old(self).events@.push((now, ne as i64))
                }
            }),
    {
        let new_event: i64 = if delta < 0 {
            -((((-delta) as u64) / 10) as i64)
        } else {
            ((delta as u64) / 10) as i64
        };
        if self.events.len() > 0 {
            let first: i64 = self.events[0].1;
            if (first >= 0) != (new_event >= 0) {
                self.events.clear();
                return;
            }
        }
        self.events.push((now, new_event));
    }

    /// Discard all queued events that fell out of the input window.
    pub fn discard_old_events(&mut self, now: u64)
        ensures
            final(self).speed == old(self).speed,
            final(self).events@ == drop_stale(old(self).events@, now),
    {
        loop
            invariant
                self.speed == old(self).speed,
                drop_stale(self.events@, now) == drop_stale(old(self).events@, now),
            ensures
                self.speed == old(self).speed,
                drop_stale(self.events@, now) == drop_stale(old(self).events@, now),
                self.events@.len() == 0 || !stale(now, self.events@[0].0),
            decreases self.events@.len(),
        {
            if self.events.len() == 0 {
                break;
            }
            let t: u64 = self.events[0].0;
            if !(now > t && now - t > ZOOM_INPUT_WINDOW_MS) {
                break;
            }
            self.events.remove(0);
        }
    }
}

} // verus!
