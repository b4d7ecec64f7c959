//! The test-data generator's pure parts: the triangular wave a
//! simulated sensor walks through, and its address resolution.
//!
//! The simulator itself connects and writes frames; this module holds
//! what of it is a function of plain values — which reading comes next,
//! and where to connect when only a port was configured.

use vstd::prelude::*;

use vstd::string::StrSliceExecFns;
use vstd::string::StringExecFns;

verus! {

/// A triangular wave over the integers: climbs from `min` to `max` one
/// step at a time, then back down, and repeats.
pub struct UpAndDown {
    pub current: i32,
    pub max: i32,
    pub min: i32,
    pub step: i32,
}

/// The direction the wave takes from state `s`: it turns around at
/// either bound and otherwise keeps going.
pub open spec fn next_step(s: UpAndDown) -> int {
    if s.current == s.max {
        -1
    } else if s.current == s.min {
        1
    } else {
        s.step as int
    }
}

/// The wave is spent: it would turn downward while already sitting on
/// its lower bound, which only happens when the bounds coincide.
pub open spec fn wave_done(s: UpAndDown) -> bool {
    next_step(s) == -1 && s.current == s.min
}

impl UpAndDown {
    /// The wave stays within its bounds and only ever moves one step.
    pub open spec fn wf(self) -> bool {
        &&& self.min <= self.current <= self.max
        &&& (self.step == 1 || self.step == -1)
    }

    /// A wave that starts at `min`, climbing.
    pub fn new(min: i32, max: i32) -> (wave: UpAndDown)
        ensures
            wave == (UpAndDown { current: min, max, min, step: 1 }),
            min <= max ==> wave.wf(),
    {
        UpAndDown { current: min, max, min, step: 1 }
    }

    /// Yields the current value and advances one step, turning around
    /// at the bounds; yields nothing once the wave is spent.
    pub fn next(&mut self) -> (item: Option<i32>)
        requires
            old(self).wf(),
        ensures
            final(self).wf(),
            final(self).min == old(self).min,
            final(self).max == old(self).max,
            final(self).step == next_step(*old(self)),
            item == if wave_done(*old(self)) {
                Option::<i32>::None
            } else {
                Option::<i32>::Some(old(self).current)
            },
            wave_done(*old(self)) ==> final(self).current == old(self).current,
            !wave_done(*old(self)) ==> final(self).current == old(self).current + next_step(
                *old(self),
            ),
    {
        let result = self.current;
        if result == self.max {
            self.step = -1;
        } else if result == self.min {
            self.step = 1;
        }
        if self.step == -1 && self.current == self.min {
            return None;
        }
        self.current = self.current + self.step;
        Some(result)
    }
}

/// Resolves the simulator's target address: a bare `:PORT` form means
/// the bridge runs on this same machine, so the loopback host is used;
/// anything else is taken as it stands.
pub fn init_server_url(configured: &str) -> (resolved: String)
    ensures
        configured@.len() > 0 && configured@[0] == ':' ==> resolved@ == "127.0.0.1"@
            + configured@,
        !(configured@.len() > 0 && configured@[0] == ':') ==> resolved@ == configured@,
{
    if !configured.is_empty() && configured.get_char(0) == ':' {
        let host = String::from_str("127.0.0.1");
        host.concat(configured)
    } else {
        configured.to_owned()
    }
}

} // verus!
