//! Time-keyed waypoint paths and the linear interpolation along them that
//! patrols and replays share.

use vstd::prelude::*;
use crate::actor::Npc;
use crate::timeloop::Timeloop;
use crate::vector::{Vector, Transform, quot, minus, vector_of};

verus! {

/// The index of the first waypoint at or after index `from` whose timestamp
/// exceeds `t`, or the number of waypoints if there is none.
pub open spec fn first_after(points: Seq<(u32, Vector)>, t: int, from: int) -> int
    decreases points.len() - from,
{
    if from < 0 || from >= points.len() {
        points.len() as int
    } else if points[from].0 > t {
        from
    } else {
        first_after(points, t, from + 1)
    }
}

/// The time from `from` to `to` on a clock that wraps after `period`: the
/// plain difference, with one period added when it is negative.
pub open spec fn gap(from: int, to: int, period: int) -> int {
    if to - from < 0 {
        to - from + period
    } else {
        to - from
    }
}

/// The coordinate reached after `elapsed` of the `span` that leads from
/// coordinate `from` to coordinate `to`, rounded toward `from`.
pub open spec fn blend(from: int, to: int, elapsed: int, span: int) -> int {
    from + quot((to - from) * elapsed, span)
}

/// The point reached at time `t` on the straight leg from waypoint `prev` to
/// waypoint `next`, on a clock that wraps after `period`.
pub open spec fn leg_position(prev: (u32, Vector), next: (u32, Vector), t: int, period: int) -> (
    int,
    int,
    int,
) {
    let span = gap(prev.0 as int, next.0 as int, period);
    let elapsed = gap(prev.0 as int, t, period);
    (
        blend(prev.1.x as int, next.1.x as int, elapsed, span),
        blend(prev.1.y as int, next.1.y as int, elapsed, span),
        blend(prev.1.z as int, next.1.z as int, elapsed, span),
    )
}

/// The direction of the leg from waypoint `prev` to waypoint `next`.
pub open spec fn leg_heading(prev: (u32, Vector), next: (u32, Vector)) -> (int, int, int) {
    minus(next.1.coords(), prev.1.coords())
}

/// The pose at time `t` on the leg from `prev` to `next`: the position
/// reached, looking along the leg.
pub open spec fn leg_pose(
    prev: (u32, Vector),
    next: (u32, Vector),
    t: int,
    period: int,
) -> Transform {
    Transform {
        translation: vector_of(leg_position(prev, next, t, period)),
        facing: vector_of(leg_heading(prev, next)),
    }
}

/// Time `t` falls on the leg from `prev` to `next`: the leg takes time, and
/// `t` lies no earlier than its start and no later than its end.
pub open spec fn on_leg(prev: (u32, Vector), next: (u32, Vector), t: int, period: int) -> bool {
    0 <= gap(prev.0 as int, t, period) <= gap(prev.0 as int, next.0 as int, period) && 0 < gap(
        prev.0 as int,
        next.0 as int,
        period,
    )
}

/// Timestamps grow strictly from each waypoint to the next.
pub open spec fn ascending(points: Seq<(u32, Vector)>) -> bool {
    forall|i: int| 0 < i < points.len() ==> (#[trigger] points[i - 1]).0 < points[i].0
}

/// Every waypoint lies inside the simulated world.
pub open spec fn all_in_world(points: Seq<(u32, Vector)>) -> bool {
    forall|i: int| 0 <= i < points.len() ==> (#[trigger] points[i]).1.in_world()
}

/// Every timestamp lies before `period`.
pub open spec fn all_before(points: Seq<(u32, Vector)>, period: int) -> bool {
    forall|i: int| 0 <= i < points.len() ==> (#[trigger] points[i]).0 < period
}

/// `r` is what [`first_after`] finds when searching from `from`.
pub proof fn lemma_first_after(points: Seq<(u32, Vector)>, t: int, from: int)
    requires
        0 <= from <= points.len(),
    ensures
        from <= first_after(points, t, from) <= points.len(),
        first_after(points, t, from) < points.len() ==> points[first_after(points, t, from)].0 > t,
        forall|j: int| from <= j < first_after(points, t, from) ==> (#[trigger] points[j]).0 <= t,
    decreases points.len() - from,
{
    if from < points.len() && points[from].0 <= t {
        lemma_first_after(points, t, from + 1);
    }
}

/// An index that exceeds `t` while nothing from `from` up to it does is the
/// one that [`first_after`] finds.
pub proof fn lemma_first_after_is(points: Seq<(u32, Vector)>, t: int, from: int, r: int)
    requires
        0 <= from <= r <= points.len(),
        r < points.len() ==> points[r].0 > t,
        forall|j: int| from <= j < r ==> (#[trigger] points[j]).0 <= t,
    ensures
        first_after(points, t, from) == r,
    decreases points.len() - from,
{
    if from < r {
        lemma_first_after_is(points, t, from + 1, r);
    }
}

/// In an ascending path an earlier waypoint has the earlier timestamp.
pub proof fn lemma_ascending_pairs(points: Seq<(u32, Vector)>, i: int, j: int)
    requires
        ascending(points),
        0 <= i < j < points.len(),
    ensures
        points[i].0 < points[j].0,
    decreases j - i,
{
    assert(points[j - 1].0 < points[j].0);
    if i < j - 1 {
        lemma_ascending_pairs(points, i, j - 1);
    }
}

/// Interpolation never leaves the interval between its end points, starts
/// exactly at `from` and ends exactly at `to`.
pub proof fn lemma_blend_between(from: int, to: int, elapsed: int, span: int)
    requires
        0 <= elapsed <= span,
        0 < span,
    ensures
        from <= to ==> from <= blend(from, to, elapsed, span) <= to,
        to <= from ==> to <= blend(from, to, elapsed, span) <= from,
        blend(from, to, 0, span) == from,
        blend(from, to, span, span) == to,
{
    let d = to - from;
    if d >= 0 {
        assert(0 <= (d * elapsed) / span <= d && d * elapsed >= 0 && (d * span) / span == d
            && d * 0 == 0 && 0int / span == 0) by (nonlinear_arith)
            requires
                0 <= elapsed <= span,
                0 < span,
                d >= 0,
        ;
    } else {
        let m = -d;
        assert(0 <= (m * elapsed) / span <= m && m * elapsed >= 0 && (m * span) / span == m
            && m * 0 == 0 && 0int / span == 0 && d * elapsed == -(m * elapsed) && d * span == -(m
            * span) && d * 0 == 0) by (nonlinear_arith)
            requires
                0 <= elapsed <= span,
                0 < span,
                m > 0,
                d == -m,
        ;
        assert(m * span > 0) by (nonlinear_arith)
            requires
                m > 0,
                span > 0,
        ;
    }
}

fn blend_coordinate(from: i32, to: i32, elapsed: i64, span: i64) -> (c: i32)
    requires
        0 <= elapsed <= span,
        0 < span,
    ensures
        c == blend(from as int, to as int, elapsed as int, span as int),
{
    let d: i128 = to as i128 - from as i128;
    proof {
        lemma_blend_between(from as int, to as int, elapsed as int, span as int);
        crate::vector::lemma_product_bound(
            d as int,
            elapsed as int,
            0x1_0000_0000,
            0x7fff_ffff_ffff_ffff,
        );
    }
    let step: i128 = (d * (elapsed as i128)) / (span as i128);
    (from as i128 + step) as i32
}

/// The pose at time `t` on the leg from `prev` to `next`: the interpolated
/// position, looking along the leg.
pub fn interpolate(prev: (u32, Vector), next: (u32, Vector), t: u64, period: u32) -> (pose:
    Transform)
    requires
        on_leg(prev, next, t as int, period as int),
        prev.1.in_world(),
        next.1.in_world(),
    ensures
        pose == leg_pose(prev, next, t as int, period as int),
        pose.translation.coords() == leg_position(prev, next, t as int, period as int),
        pose.facing.coords() == leg_heading(prev, next),
        pose.translation.in_world(),
        pose.facing.is_offset(),
{
    let start: i128 = prev.0 as i128;
    let mut span: i128 = next.0 as i128 - start;
    if span < 0 {
        span = span + period as i128;
    }
    let mut elapsed: i128 = t as i128 - start;
    if elapsed < 0 {
        elapsed = elapsed + period as i128;
    }
    let span: i64 = span as i64;
    let elapsed: i64 = elapsed as i64;
    proof {
        lemma_blend_between(prev.1.x as int, next.1.x as int, elapsed as int, span as int);
        lemma_blend_between(prev.1.y as int, next.1.y as int, elapsed as int, span as int);
        lemma_blend_between(prev.1.z as int, next.1.z as int, elapsed as int, span as int);
    }
    Transform {
        translation: Vector {
            x: blend_coordinate(prev.1.x, next.1.x, elapsed, span),
            y: blend_coordinate(prev.1.y, next.1.y, elapsed, span),
            z: blend_coordinate(prev.1.z, next.1.z, elapsed, span),
        },
        facing: Vector {
            x: next.1.x - prev.1.x,
            y: next.1.y - prev.1.y,
            z: next.1.z - prev.1.z,
        },
    }
}

/// Why a list of waypoints is no patrol path.
#[derive(Clone, Copy, Debug, PartialEq, Eq, Structural)]
pub enum PathError {
    /// Fewer than two waypoints: there is no leg to walk.
    TooFewWaypoints,
    /// A timestamp does not lie before the end of the loop.
    BeyondPeriod,
    /// A waypoint lies outside the simulated world.
    OutsideWorld,
    /// A timestamp is not later than the one before it.
    Unordered,
}

/// A closed patrol route: waypoints in the order of their timestamps, walked
/// once per loop, with a last leg that leads from the last waypoint over the
/// end of the loop back to the first.
#[derive(Clone, Debug, Default)]
pub struct Path {
    pub points: Vec<(u32, Vector)>,
}

/// The index of the waypoint that a patrol heads for at time `t`: the first
/// one whose timestamp exceeds `t`, or the first of all when none does.
pub open spec fn patrol_next(points: Seq<(u32, Vector)>, t: int) -> int {
    let i = first_after(points, t, 0);
    if i >= points.len() {
        0
    } else {
        i
    }
}

/// The index of the waypoint that a patrol comes from at time `t`: the one
/// before [`patrol_next`] in the list, or the last of all before the first.
pub open spec fn patrol_prev(points: Seq<(u32, Vector)>, t: int) -> int {
    let next = patrol_next(points, t);
    if next == 0 {
        points.len() - 1
    } else {
        next - 1
    }
}

/// Where a patrol stands at time `t` of a loop of length `period`.
pub open spec fn patrol_position(points: Seq<(u32, Vector)>, t: int, period: int) -> (
    int,
    int,
    int,
) {
    leg_position(points[patrol_prev(points, t)], points[patrol_next(points, t)], t, period)
}

/// Which way a patrol looks at time `t`: along the leg that it is on.
pub open spec fn patrol_heading(points: Seq<(u32, Vector)>, t: int) -> (int, int, int) {
    leg_heading(points[patrol_prev(points, t)], points[patrol_next(points, t)])
}

/// Where a patrol stands and looks at time `t` of a loop of length `period`.
pub open spec fn patrol_pose(points: Seq<(u32, Vector)>, t: int, period: int) -> Transform {
    leg_pose(points[patrol_prev(points, t)], points[patrol_next(points, t)], t, period)
}

/// A guard after its round has placed it for the time that the clock shows.
/// A guard that was knocked out stays as it is.
pub open spec fn patrolled(npc: Npc, points: Seq<(u32, Vector)>, clock: Timeloop) -> Npc {
    if npc.is_dead {
        npc
    } else {
        Npc {
            transform: patrol_pose(points, clock.current_time as int, clock.max_time as int),
            ..npc
        }
    }
}

/// The waypoints make a patrol path for a loop of length `period`.
pub open spec fn patrol_ready(points: Seq<(u32, Vector)>, period: int) -> bool {
    &&& points.len() >= 2
    &&& all_before(points, period)
    &&& all_in_world(points)
    &&& ascending(points)
}

/// What [`Path::new`] answers for a list of waypoints.
pub open spec fn path_verdict(points: Seq<(u32, Vector)>, period: int) -> Option<PathError> {
    if points.len() < 2 {
        Some(PathError::TooFewWaypoints)
    } else if !all_before(points, period) {
        Some(PathError::BeyondPeriod)
    } else if !all_in_world(points) {
        Some(PathError::OutsideWorld)
    } else if !ascending(points) {
        Some(PathError::Unordered)
    } else {
        None
    }
}

/// At any time of the loop a ready path has a leg that the time falls on.
pub proof fn lemma_patrol_on_leg(points: Seq<(u32, Vector)>, t: int, period: int)
    requires
        patrol_ready(points, period),
        0 <= t <= period,
    ensures
        0 <= patrol_prev(points, t) < points.len(),
        0 <= patrol_next(points, t) < points.len(),
        on_leg(points[patrol_prev(points, t)], points[patrol_next(points, t)], t, period),
{
    let n = points.len() as int;
    let i = first_after(points, t, 0);
    lemma_first_after(points, t, 0);
    lemma_ascending_pairs(points, 0, n - 1);
    assert(points[0].0 < period);
    assert(points[n - 1].0 < period);
    if 0 < i < n {
        assert(points[i - 1].0 <= t);
    } else if i == n {
        assert(points[n - 1].0 <= t);
    }
}

/// Computes [`path_verdict`]: what, if anything, keeps a list of waypoints
/// from being a patrol path.
pub fn check_waypoints(points: &Vec<(u32, Vector)>, max_time: u32) -> (verdict: Option<PathError>)
    ensures
        verdict == path_verdict(points@, max_time as int),
{
    let n = points.len();
    if n < 2 {
        return Some(PathError::TooFewWaypoints);
    }
    let mut beyond = false;
    let mut outside = false;
    let mut unordered = false;
    let mut i: usize = 0;
    while i < n
        invariant
            n == points.len(),
            0 <= i <= n,
            beyond == !all_before(points@.take(i as int), max_time as int),
            outside == !all_in_world(points@.take(i as int)),
            unordered == !ascending(points@.take(i as int)),
        decreases n - i,
    {
        let ghost before = points@.take(i as int);
        let ghost after = points@.take(i as int + 1);
        assert(forall|j: int| 0 <= j < i ==> before[j] == after[j]);
        assert(after[i as int] == points@[i as int]);
        if points[i].0 >= max_time {
            beyond = true;
        }
        if !points[i].1.lies_in_world() {
            outside = true;
        }
        if i > 0 && points[i - 1].0 >= points[i].0 {
            unordered = true;
        }
        proof {
            if all_before(before, max_time as int) && points@[i as int].0 < max_time {
                assert(all_before(after, max_time as int));
            } else if !all_before(before, max_time as int) {
                let j = choose|j: int| 0 <= j < before.len() && !(before[j].0 < max_time);
                assert(!(after[j].0 < max_time));
            }
            if all_in_world(before) && points@[i as int].1.in_world() {
                assert(all_in_world(after));
            } else if !all_in_world(before) {
                let j = choose|j: int| 0 <= j < before.len() && !before[j].1.in_world();
                assert(!after[j].1.in_world());
            }
            if ascending(before) && (i == 0 || points@[i - 1].0 < points@[i as int].0) {
                assert forall|j: int| 0 < j < after.len() implies (#[trigger] after[j
                    - 1]).0 < after[j].0 by {
                    if j < i {
                        assert(before[j - 1].0 < before[j].0);
                    }
                }
            } else if !ascending(before) {
                let j = choose|j: int|
                    0 < j < before.len() && !((#[trigger] before[j - 1]).0 < before[j].0);
                assert(!(after[j - 1].0 < after[j].0));
            } else {
                assert(!(after[i - 1].0 < after[i as int].0));
            }
        }
        i = i + 1;
    }
    assert(points@.take(n as int) == points@);
    if beyond {
        Some(PathError::BeyondPeriod)
    } else if outside {
        Some(PathError::OutsideWorld)
    } else if unordered {
        Some(PathError::Unordered)
    } else {
        None
    }
}

impl Path {
    /// The path can be walked on a loop of length `max_time`.
    pub open spec fn valid(self, max_time: u32) -> bool {
        patrol_ready(self.points@, max_time as int)
    }

    /// Makes a patrol path for a loop of length `max_time`, or says what is
    /// wrong with the waypoints. A path is refused here rather than at the
    /// first query.
    pub fn new(points: Vec<(u32, Vector)>, max_time: u32) -> (made: Result<Path, PathError>)
        ensures
            made.is_ok() == path_verdict(points@, max_time as int).is_none(),
            made matches Ok(path) ==> path.points@ == points@ && path.valid(max_time),
            made matches Err(e) ==> path_verdict(points@, max_time as int) == Some(e),
    {
        match check_waypoints(&points, max_time) {
            Some(e) => Err(e),
            None => Ok(Path { points }),
        }
    }

    /// Decides [`Path::valid`].
    pub fn is_valid(&self, max_time: u32) -> (r: bool)
        ensures
            r == self.valid(max_time),
    {
        check_waypoints(&self.points, max_time).is_none()
    }

    /// Where the patrol stands and looks at time `t` of the loop.
    pub fn pose_at(&self, t: u32, max_time: u32) -> (pose: Transform)
        requires
            self.valid(max_time),
            t <= max_time,
        ensures
            pose == patrol_pose(self.points@, t as int, max_time as int),
            pose.translation.coords() == patrol_position(self.points@, t as int, max_time as int),
            pose.facing.coords() == patrol_heading(self.points@, t as int),
            pose.translation.in_world(),
            pose.facing.is_offset(),
    {
        let n = self.points.len();
        let mut i: usize = 0;
        while i < n && self.points[i].0 <= t
            invariant
                n == self.points.len(),
                0 <= i <= n,
                forall|j: int| 0 <= j < i ==> (#[trigger] self.points@[j]).0 <= t,
            decreases n - i,
        {
            i = i + 1;
        }
        proof {
            lemma_first_after_is(self.points@, t as int, 0, i as int);
            lemma_patrol_on_leg(self.points@, t as int, max_time as int);
        }
        let next: usize = if i >= n { 0 } else { i };
        let prev: usize = if next == 0 { n - 1 } else { next - 1 };
        interpolate(self.points[prev], self.points[next], t as u64, max_time)
    }
}

/// A patrol that is asked for its place at the very time of one of its
/// waypoints stands exactly on that waypoint.
pub proof fn lemma_waypoint_is_reached(path: Path, max_time: u32, k: int)
    requires
        path.valid(max_time),
        0 <= k < path.points@.len(),
    ensures
        patrol_position(path.points@, path.points@[k].0 as int, max_time as int)
            == path.points@[k].1.coords(),
{
    let points = path.points@;
    let n = points.len() as int;
    let t = points[k].0 as int;
    assert forall|j: int| 0 <= j < k + 1 implies (#[trigger] points[j]).0 <= t by {
        if j < k {
            lemma_ascending_pairs(points, j, k);
        }
    }
    if k + 1 < n {
        assert(points[k + 1 - 1].0 < points[k + 1].0);
    }
    lemma_first_after_is(points, t, 0, k + 1);
    assert(patrol_prev(points, t) == k);
    lemma_patrol_on_leg(points, t, max_time as int);
    let here = points[k].1;
    let next = points[patrol_next(points, t)];
    let span = gap(t, next.0 as int, max_time as int);
    lemma_blend_between(here.x as int, next.1.x as int, 0, span);
    lemma_blend_between(here.y as int, next.1.y as int, 0, span);
    lemma_blend_between(here.z as int, next.1.z as int, 0, span);
}

/// Before the first waypoint's time and from the last waypoint's time on, a
/// patrol walks the leg that closes the loop: from the last waypoint to the
/// first.
pub proof fn lemma_loop_closes(path: Path, max_time: u32, t: int)
    requires
        path.valid(max_time),
        0 <= t < path.points@[0].0 || path.points@[path.points@.len() - 1].0 <= t,
    ensures
        patrol_prev(path.points@, t) == path.points@.len() - 1,
        patrol_next(path.points@, t) == 0,
{
    let points = path.points@;
    let n = points.len() as int;
    if t < points[0].0 {
        lemma_first_after_is(points, t, 0, 0);
    } else {
        assert forall|j: int| 0 <= j < n implies (#[trigger] points[j]).0 <= t by {
            if j < n - 1 {
                lemma_ascending_pairs(points, j, n - 1);
            }
        }
        lemma_first_after_is(points, t, 0, n);
    }
}

/// Puts a patrolling guard where its path says it is at the time that the
/// clock shows, looking along the leg that it walks. A guard that was knocked
/// out stays as it is.
pub fn move_npcs(timeloop: &Timeloop, path: &Path, npc: &mut Npc)
    requires
        path.valid(timeloop.max_time),
        timeloop.current_time <= timeloop.max_time,
    ensures
        *final(npc) == patrolled(*old(npc), path.points@, *timeloop),
        !old(npc).is_dead ==> final(npc).transform.translation.coords() == patrol_position(
            path.points@,
            timeloop.current_time as int,
            timeloop.max_time as int,
        ),
        !old(npc).is_dead ==> final(npc).transform.facing.coords() == patrol_heading(
            path.points@,
            timeloop.current_time as int,
        ),
        !old(npc).is_dead ==> final(npc).transform.translation.in_world(),
        !old(npc).is_dead ==> final(npc).transform.facing.is_offset(),
{
    if !npc.is_dead {
        npc.transform = path.pose_at(timeloop.current_time, timeloop.max_time);
    }
}

} // verus!
