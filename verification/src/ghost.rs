//! The recording of the player's route and its replay by the ghosts of
//! earlier loops.

use vstd::prelude::*;
use crate::actor::Npc;
use crate::path::{
    first_after, leg_position, leg_heading, leg_pose, all_in_world, interpolate,
    lemma_first_after_is,
};
use crate::timeloop::{GhostActor, Timeloop};
use crate::vector::{Transform, Vector};

verus! {

/// The route that the player has walked: one sample for every turn, in the
/// order in which they were taken. The record only grows; the samples of
/// earlier loops stay in it.
#[derive(Clone, Debug)]
pub struct GhostPath {
    pub points: Vec<(u32, Vector)>,
}

/// The sample that every replay starts from: the origin at time zero.
pub open spec fn origin_sample() -> (u32, Vector) {
    (0u32, Vector { x: 0, y: 0, z: 0 })
}

/// The time at which a ghost of generation `gen` reads the record: the time
/// of the running loop, moved on by one period for each generation.
pub open spec fn replay_time(timeloop: Timeloop, gen: u16) -> int {
    timeloop.current_time + gen * timeloop.max_time
}

/// The record holds a sample later than time `q`, so that a ghost that reads
/// at `q` has somewhere to go.
pub open spec fn replay_found(points: Seq<(u32, Vector)>, q: int) -> bool {
    first_after(points, q, 0) < points.len()
}

/// The sample that a ghost reading at time `q` heads for: the first one
/// later than `q`.
pub open spec fn replay_next(points: Seq<(u32, Vector)>, q: int) -> (u32, Vector) {
    points[first_after(points, q, 0)]
}

/// The sample that a ghost reading at time `q` comes from: the one before
/// [`replay_next`] in the record, or the origin at time zero before the
/// first. A ghost never turns back to the end of the record.
pub open spec fn replay_prev(points: Seq<(u32, Vector)>, q: int) -> (u32, Vector) {
    let i = first_after(points, q, 0);
    if i == 0 {
        origin_sample()
    } else {
        points[i - 1]
    }
}

/// Where a ghost that reads the record at time `q` stands.
pub open spec fn replay_position(points: Seq<(u32, Vector)>, q: int, period: int) -> (
    int,
    int,
    int,
) {
    leg_position(replay_prev(points, q), replay_next(points, q), q, period)
}

/// Which way a ghost that reads the record at time `q` looks.
pub open spec fn replay_heading(points: Seq<(u32, Vector)>, q: int) -> (int, int, int) {
    leg_heading(replay_prev(points, q), replay_next(points, q))
}

/// The pose of a ghost that reads the record at time `q`, if the record
/// holds a later sample.
pub open spec fn replay_pose(points: Seq<(u32, Vector)>, q: int, period: int) -> Option<Transform> {
    if replay_found(points, q) {
        Some(leg_pose(replay_prev(points, q), replay_next(points, q), q, period))
    } else {
        None
    }
}

/// A ghost of generation `gen` after the record has placed it for the time
/// that the clock shows. A ghost that was knocked out, or for which the
/// record holds no later sample, stays as it is.
pub open spec fn replayed(npc: Npc, gen: u16, points: Seq<(u32, Vector)>, clock: Timeloop) -> Npc {
    match replay_pose(points, replay_time(clock, gen), clock.max_time as int) {
        Some(pose) => if npc.is_dead {
            npc
        } else {
            Npc { transform: pose, ..npc }
        },
        None => npc,
    }
}

impl Default for GhostPath {
    /// The record at the start of a session.
    fn default() -> (path: GhostPath)
        ensures
            path.points@ == seq![origin_sample()],
            path.wf(),
    {
        GhostPath::new()
    }
}

impl GhostPath {
    /// Every sample lies inside the simulated world.
    pub open spec fn wf(self) -> bool {
        all_in_world(self.points@)
    }

    /// The record at the start of a session: the origin at time zero.
    pub fn new() -> (path: GhostPath)
        ensures
            path.points@ == seq![origin_sample()],
            path.wf(),
    {
        let mut points: Vec<(u32, Vector)> = Vec::new();
        points.push((0u32, Vector { x: 0, y: 0, z: 0 }));
        assert(points@ =~= seq![origin_sample()]);
        GhostPath { points }
    }

    /// Decides [`GhostPath::wf`].
    pub fn is_wf(&self) -> (r: bool)
        ensures
            r == self.wf(),
    {
        let mut i: usize = 0;
        while i < self.points.len()
            invariant
                0 <= i <= self.points.len(),
                forall|j: int| 0 <= j < i ==> (#[trigger] self.points@[j]).1.in_world(),
            decreases self.points.len() - i,
        {
            if !self.points[i].1.lies_in_world() {
                return false;
            }
            i = i + 1;
        }
        true
    }

    /// Appends the sample `(time, at)`.
    pub fn record(&mut self, time: u32, at: Vector)
        requires
            old(self).wf(),
            at.in_world(),
        ensures
            final(self).points@ == old(self).points@.push((time, at)),
            final(self).wf(),
    {
        self.points.push((time, at));
    }

    /// The pose of a ghost that reads the record at time `query`, or nothing
    /// when the record holds no later sample.
    pub fn pose_at(&self, query: u64, max_time: u32) -> (pose: Option<Transform>)
        requires
            self.wf(),
        ensures
            pose == replay_pose(self.points@, query as int, max_time as int),
            pose matches Some(p) ==> p.translation.coords() == replay_position(
                self.points@,
                query as int,
                max_time as int,
            ),
            pose matches Some(p) ==> p.facing.coords() == replay_heading(
                self.points@,
                query as int,
            ),
            pose matches Some(p) ==> p.translation.in_world() && p.facing.is_offset(),
    {
        let n = self.points.len();
        let mut i: usize = 0;
        while i < n && self.points[i].0 as u64 <= query
            invariant
                n == self.points.len(),
                0 <= i <= n,
                forall|j: int| 0 <= j < i ==> (#[trigger] self.points@[j]).0 <= query,
            decreases n - i,
        {
            i = i + 1;
        }
        proof {
            lemma_first_after_is(self.points@, query as int, 0, i as int);
        }
        if i >= n {
            return None;
        }
        let next = self.points[i];
        let prev = if i == 0 {
            (0u32, Vector { x: 0, y: 0, z: 0 })
        } else {
            self.points[i - 1]
        };
        assert(prev.0 <= query < next.0) by {
            if i > 0 {
                assert(self.points@[i - 1].0 <= query);
            }
        }
        Some(interpolate(prev, next, query, max_time))
    }
}

/// Puts a ghost where the record says it was. A ghost of generation `gen`
/// reads the record at the time of the running loop plus `gen` periods and is
/// placed on the leg that this time falls on, looking along it. A ghost that
/// was knocked out, or for which the record holds no later sample, stays as
/// it is. Returns whether the ghost was placed.
pub fn move_ghosts(
    timeloop: &Timeloop,
    ghost: &GhostActor,
    path: &GhostPath,
    npc: &mut Npc,
) -> (moved: bool)
    requires
        path.wf(),
    ensures
        moved == (!old(npc).is_dead && replay_found(
            path.points@,
            replay_time(*timeloop, ghost.gen),
        )),
        *final(npc) == replayed(*old(npc), ghost.gen, path.points@, *timeloop),
        moved ==> final(npc).transform.translation.coords() == replay_position(
            path.points@,
            replay_time(*timeloop, ghost.gen),
            timeloop.max_time as int,
        ),
        moved ==> final(npc).transform.facing.coords() == replay_heading(
            path.points@,
            replay_time(*timeloop, ghost.gen),
        ),
        moved ==> final(npc).transform.translation.in_world(),
        moved ==> final(npc).transform.facing.is_offset(),
{
    if npc.is_dead {
        return false;
    }
    assert(ghost.gen * timeloop.max_time <= 0xffff * 0xffff_ffff) by (nonlinear_arith)
        requires
            0 <= ghost.gen <= 0xffff,
            0 <= timeloop.max_time <= 0xffff_ffff,
    ;
    let query: u64 = timeloop.current_time as u64 + (ghost.gen as u64) * (timeloop.max_time as u64);
    match path.pose_at(query, timeloop.max_time) {
        Some(pose) => {
            npc.transform = pose;
            true
        },
        None => false,
    }
}

} // verus!
