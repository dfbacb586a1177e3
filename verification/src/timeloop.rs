//! The wrapping clock of the time loop.

use vstd::prelude::*;

verus! {

/// A replay actor of the player's earlier route, tagged with the generation
/// that it was spawned for.
#[derive(Clone, Copy, Debug, PartialEq, Eq, Default, Structural)]
pub struct GhostActor {
    pub gen: u16,
}

/// The clock: the time within the running loop, the period after which it
/// wraps, and the number of loops completed so far.
#[derive(Clone, Copy, Debug, PartialEq, Eq, Structural)]
pub struct Timeloop {
    pub current_time: u32,
    pub max_time: u32,
    pub gen: u16,
}

impl Default for Timeloop {
    /// A clock without a loop: it stands at zero until a level gives it a
    /// period.
    fn default() -> (timeloop: Timeloop)
        ensures
            timeloop == (Timeloop { current_time: 0, max_time: 0, gen: 0 }),
    {
        Timeloop { current_time: 0, max_time: 0, gen: 0 }
    }
}

impl Timeloop {
    /// Advancing by `dt` carries the clock past the end of the loop.
    pub open spec fn wraps(self, dt: u32) -> bool {
        self.current_time + dt > self.max_time
    }

    /// The clock can be advanced by `dt`: if that ends the loop, the loop has
    /// a length to wrap by and the generation counter has room for one more.
    pub open spec fn can_advance(self, dt: u32) -> bool {
        self.wraps(dt) ==> self.max_time > 0 && self.gen < u16::MAX
    }

    /// The clock after `dt` has passed. A loop that ends is ended once,
    /// however many periods `dt` spans.
    pub open spec fn advanced(self, dt: u32) -> Timeloop {
        if self.wraps(dt) {
            Timeloop {
                current_time: ((self.current_time + dt) % (self.max_time as int)) as u32,
                max_time: self.max_time,
                gen: (self.gen + 1) as u16,
            }
        } else {
            Timeloop {
                current_time: (self.current_time + dt) as u32,
                max_time: self.max_time,
                gen: self.gen,
            }
        }
    }

    /// The ghost that advancing by `dt` brings into the world: one, tagged
    /// with the new generation, when the loop ends, and none otherwise.
    pub open spec fn spawned(self, dt: u32) -> Option<GhostActor> {
        if self.wraps(dt) {
            Some(GhostActor { gen: (self.gen + 1) as u16 })
        } else {
            None
        }
    }

    /// A clock at the start of its first loop.
    pub fn new(max_time: u32) -> (timeloop: Timeloop)
        ensures
            timeloop == (Timeloop { current_time: 0, max_time, gen: 0 }),
    {
        Timeloop { current_time: 0, max_time, gen: 0 }
    }

    /// Decides [`Timeloop::can_advance`].
    pub fn has_room(&self, dt: u32) -> (r: bool)
        ensures
            r == self.can_advance(dt),
    {
        let sum: u64 = self.current_time as u64 + dt as u64;
        sum <= self.max_time as u64 || (self.max_time > 0 && self.gen < u16::MAX)
    }
}

/// Advances the clock by `dt`. When the time passes the end of the loop it is
/// reduced modulo the period, the generation grows by one, and one ghost of
/// the new generation is handed out for spawning.
pub fn loop_time(timeloop: &mut Timeloop, dt: u32) -> (spawn: Option<GhostActor>)
    requires
        old(timeloop).can_advance(dt),
    ensures
        *final(timeloop) == old(timeloop).advanced(dt),
        spawn == old(timeloop).spawned(dt),
        final(timeloop).current_time <= final(timeloop).max_time,
        final(timeloop).gen - old(timeloop).gen <= 1,
        spawn.is_some() <==> final(timeloop).gen != old(timeloop).gen,
{
    let sum: u64 = timeloop.current_time as u64 + dt as u64;
    if sum > timeloop.max_time as u64 {
        let wrapped: u64 = sum % (timeloop.max_time as u64);
        timeloop.current_time = wrapped as u32;
        timeloop.gen = timeloop.gen + 1;
        Some(GhostActor { gen: timeloop.gen })
    } else {
        timeloop.current_time = sum as u32;
        None
    }
}

/// A tick that runs a fresh loop over its end by less than a period ends
/// exactly one loop: the generation grows by one, one ghost appears, and the
/// clock shows the overshoot.
pub proof fn lemma_overshoot_wraps_once(clock: Timeloop, overshoot: u32)
    requires
        clock.current_time == 0,
        0 < overshoot < clock.max_time,
        clock.max_time + overshoot <= u32::MAX,
        clock.gen < u16::MAX,
    ensures
        clock.can_advance((clock.max_time + overshoot) as u32),
        clock.advanced((clock.max_time + overshoot) as u32).current_time == overshoot,
        clock.advanced((clock.max_time + overshoot) as u32).gen == clock.gen + 1,
        clock.spawned((clock.max_time + overshoot) as u32) == Some(
            (GhostActor { gen: (clock.gen + 1) as u16 }),
        ),
{
    let m = clock.max_time as int;
    let e = overshoot as int;
    assert((m + e) % m == e) by (nonlinear_arith)
        requires
            0 < e < m,
    ;
}

/// However long a tick is, it ends at most one loop, and the clock never
/// shows more than the period afterwards.
pub proof fn lemma_at_most_one_wrap(clock: Timeloop, dt: u32)
    requires
        clock.can_advance(dt),
    ensures
        clock.advanced(dt).gen == clock.gen || clock.advanced(dt).gen == clock.gen + 1,
        clock.advanced(dt).gen == clock.gen + 1 <==> clock.spawned(dt).is_some(),
        clock.advanced(dt).current_time <= clock.max_time,
        clock.advanced(dt).max_time == clock.max_time,
{
}

} // verus!
