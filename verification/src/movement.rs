//! From pressed keys to a step of the player: the intent, the candidate
//! position, the walls that refuse it, and the turns worth recording.

use vstd::prelude::*;
use crate::action::{Action, NlaTrack};
use crate::actor::Player;
use crate::geometry::Wall;
use crate::ghost::GhostPath;
use crate::timeloop::Timeloop;
use crate::vector::{
    Transform, Vector, dot, quot, vector_of, within, lemma_product_bound, ONE, WORLD,
};

verus! {

/// The length of each of the two components of a diagonal unit intent: `ONE`
/// divided by the square root of two, to the nearest thousandth.
pub const DIAGONAL: i32 = 707;

/// The number of clock ticks in a second.
pub const TICKS_PER_SECOND: i32 = 1000;

/// Where the trailing camera hangs, seen from the player: to the side,
pub const CAMERA_X: i32 = -5700;

/// above,
pub const CAMERA_Y: i32 = 20700;

/// and behind.
pub const CAMERA_Z: i32 = -20000;

/// The direction in which an entity wants to move: a vector of the ground
/// plane, of unit length or zero.
#[derive(Clone, Copy, Debug, PartialEq, Eq, Structural)]
pub struct MovementController(pub Vector);

impl Default for MovementController {
    /// No intent.
    fn default() -> (controller: MovementController)
        ensures
            controller.0 == (Vector { x: 0, y: 0, z: 0 }),
    {
        MovementController(Vector { x: 0, y: 0, z: 0 })
    }
}

/// How fast an entity moves and turns.
#[derive(Clone, Copy, Debug, PartialEq, Eq, Structural)]
pub struct Movement {
    /// Thousandths of a unit per second.
    pub speed: u32,
    /// Thousandths of a radian per second.
    pub rotation: u32,
}

/// The push along one axis from the two keys that pull it either way.
pub open spec fn axis(forth: bool, back: bool) -> int {
    (if forth { 1int } else { 0int }) - (if back { 1int } else { 0int })
}

/// A push along one axis at full length: `scale` forth, `-scale` back.
pub open spec fn pushed(push: int, scale: i32) -> i32 {
    if push > 0 {
        scale
    } else if push < 0 {
        (-scale) as i32
    } else {
        0
    }
}

/// The intent that four direction keys ask for. Keys that pull against each
/// other cancel; a diagonal is as long as a straight direction.
pub open spec fn intent(up: bool, down: bool, left: bool, right: bool) -> Vector {
    let x = axis(left, right);
    let z = axis(up, down);
    let scale = if x != 0 && z != 0 { DIAGONAL } else { ONE };
    Vector { x: pushed(x, scale), y: 0, z: pushed(z, scale) }
}

/// The vector has length zero, or length one to within a thousandth.
pub open spec fn zero_or_unit(v: Vector) -> bool {
    v.length_squared() == 0 || (ONE - 1) * (ONE - 1) <= v.length_squared() <= (ONE + 1) * (ONE + 1)
}

/// The distance covered along one axis in a tick of length `dt` at `speed`
/// with the intent `along` on that axis, rounded toward zero.
pub open spec fn stride(along: int, speed: int, dt: int) -> int {
    quot(along * speed * dt, ONE * TICKS_PER_SECOND)
}

/// The position that a step would lead to.
pub open spec fn candidate(from: Vector, intent: Vector, speed: u32, dt: u32) -> (int, int, int) {
    (
        from.x + stride(intent.x as int, speed as int, dt as int),
        from.y + stride(intent.y as int, speed as int, dt as int),
        from.z + stride(intent.z as int, speed as int, dt as int),
    )
}

/// The position lies inside the simulated world.
pub open spec fn reachable(at: (int, int, int)) -> bool {
    within(at.0, WORLD as int) && within(at.1, WORLD as int) && within(at.2, WORLD as int)
}

/// The point `(x, z)` of the ground plane lies strictly inside some wall.
pub open spec fn hits_wall(walls: Seq<Wall>, x: int, z: int) -> bool {
    exists|i: int| 0 <= i < walls.len() && (#[trigger] walls[i]).contains(x, z)
}

/// The intent is long enough to walk: longer than half a unit.
pub open spec fn is_walking(intent: Vector) -> bool {
    4 * intent.length_squared() > ONE * ONE
}

/// The angle between the two directions is more than a tenth of π.
///
/// With `d` the scalar product and `a`, `b` the squared lengths, the angle
/// exceeds a tenth of π exactly when its cosine stays below that of a tenth
/// of π, whose square is (5 + √5) / 8. That holds when `d` is not positive,
/// and otherwise when `8 d² - 5 a b` is below `√5 a b`: when it is negative,
/// or when its square is below `5 (a b)²`. A direction of length zero has no
/// angle to any other.
pub open spec fn turned(from: Vector, to: Vector) -> bool {
    let a = from.length_squared();
    let b = to.length_squared();
    let d = dot(from.coords(), to.coords());
    let excess = 8 * (d * d) - 5 * (a * b);
    a > 0 && b > 0 && (d <= 0 || excess < 0 || excess * excess < 5 * ((a * b) * (a * b)))
}

/// Turns the four direction keys into an intent.
pub fn record_movement_controller(up: bool, down: bool, left: bool, right: bool) -> (controller:
    MovementController)
    ensures
        controller.0 == intent(up, down, left, right),
        controller.0.is_unit_scale(),
        zero_or_unit(controller.0),
{
    let mut x: i32 = 0;
    let mut z: i32 = 0;
    if up {
        z = z + 1;
    }
    if down {
        z = z - 1;
    }
    if left {
        x = x + 1;
    }
    if right {
        x = x - 1;
    }
    let scale: i32 = if x != 0 && z != 0 { DIAGONAL } else { ONE };
    let controller = MovementController(
        Vector { x: push_by(x, scale), y: 0, z: push_by(z, scale) },
    );
    proof {
        lemma_intent_zero_or_unit(up, down, left, right);
    }
    controller
}

fn push_by(push: i32, scale: i32) -> (c: i32)
    requires
        0 <= scale <= ONE,
    ensures
        c == pushed(push as int, scale),
{
    if push > 0 {
        scale
    } else if push < 0 {
        -scale
    } else {
        0
    }
}

/// Whatever keys are pressed, the intent has length zero or one, and never
/// the length of a unit square's diagonal.
pub proof fn lemma_intent_zero_or_unit(up: bool, down: bool, left: bool, right: bool)
    ensures
        zero_or_unit(intent(up, down, left, right)),
        intent(up, down, left, right).is_unit_scale(),
        intent(up, down, left, right).length_squared() < 2 * (ONE * ONE) - 2 * ONE,
{
    let v = intent(up, down, left, right);
    assert(v.y * v.y == 0);
    assert(ONE * ONE == 1000000 && (ONE - 1) * (ONE - 1) == 998001 && (ONE + 1) * (ONE + 1)
        == 1002001);
    if axis(left, right) != 0 && axis(up, down) != 0 {
        assert(v.x == DIAGONAL || v.x == -DIAGONAL);
        assert(v.z == DIAGONAL || v.z == -DIAGONAL);
        assert(v.x * v.x == 499849);
        assert(v.z * v.z == 499849);
    } else {
        assert(v.x == 0 || v.z == 0);
        assert(v.x == 0 || v.x == ONE || v.x == -ONE);
        assert(v.z == 0 || v.z == ONE || v.z == -ONE);
        assert(v.x * v.x == 0 || v.x * v.x == 1000000);
        assert(v.z * v.z == 0 || v.z * v.z == 1000000);
    }
}

fn stride_of(along: i32, speed: u32, dt: u32) -> (s: i128)
    ensures
        s == stride(along as int, speed as int, dt as int),
        within(s as int, 0x8000_0000_0000_0000_0000_0000int),
{
    proof {
        lemma_product_bound(speed as int, dt as int, 0x1_0000_0000, 0x1_0000_0000);
        assert(0x1_0000_0000int * 0x1_0000_0000int == 0x1_0000_0000_0000_0000int);
    }
    let pace: i128 = (speed as i128) * (dt as i128);
    proof {
        lemma_product_bound(along as int, pace as int, 0x8000_0000, 0x1_0000_0000_0000_0000int);
        assert(0x8000_0000int * 0x1_0000_0000_0000_0000int
            == 0x8000_0000_0000_0000_0000_0000int);
        assert(along * speed * dt == along * (speed * dt)) by (nonlinear_arith);
    }
    let scaled: i128 = (along as i128) * pace;
    let unit: i128 = 1_000_000;
    assert(unit == ONE * TICKS_PER_SECOND);
    scaled / unit
}

/// Computes the [`candidate`] of a step, if it lies inside the world.
pub fn plan(from: Vector, intent: Vector, speed: u32, dt: u32) -> (to: Option<Vector>)
    ensures
        to.is_some() == reachable(candidate(from, intent, speed, dt)),
        to matches Some(v) ==> v.coords() == candidate(from, intent, speed, dt),
{
    let x: i128 = from.x as i128 + stride_of(intent.x, speed, dt);
    let y: i128 = from.y as i128 + stride_of(intent.y, speed, dt);
    let z: i128 = from.z as i128 + stride_of(intent.z, speed, dt);
    let limit: i128 = WORLD as i128;
    if -limit <= x && x <= limit && -limit <= y && y <= limit && -limit <= z && z <= limit {
        Some(Vector { x: x as i32, y: y as i32, z: z as i32 })
    } else {
        None
    }
}

/// Decides [`hits_wall`].
pub fn runs_into(walls: &Vec<Wall>, x: i32, z: i32) -> (r: bool)
    ensures
        r == hits_wall(walls@, x as int, z as int),
{
    let mut i: usize = 0;
    while i < walls.len()
        invariant
            0 <= i <= walls.len(),
            forall|k: int| 0 <= k < i ==> !(#[trigger] walls@[k]).contains(x as int, z as int),
        decreases walls.len() - i,
    {
        if walls[i].encloses(x, z) {
            return true;
        }
        i = i + 1;
    }
    false
}

/// Decides [`is_walking`].
pub fn walks(intent: Vector) -> (r: bool)
    ensures
        r == is_walking(intent),
{
    let x: i128 = intent.x as i128;
    let y: i128 = intent.y as i128;
    let z: i128 = intent.z as i128;
    proof {
        let l = 0x8000_0000int;
        lemma_product_bound(x as int, x as int, l, l);
        lemma_product_bound(y as int, y as int, l, l);
        lemma_product_bound(z as int, z as int, l, l);
    }
    let unit: i128 = ONE as i128;
    assert(unit * unit == ONE * ONE);
    4 * (x * x + y * y + z * z) > unit * unit
}

/// Decides [`turned`] for two directions of unit scale.
pub fn has_turned(from: Vector, to: Vector) -> (r: bool)
    requires
        from.is_unit_scale(),
        to.is_unit_scale(),
    ensures
        r == turned(from, to),
{
    let fx: i128 = from.x as i128;
    let fy: i128 = from.y as i128;
    let fz: i128 = from.z as i128;
    let tx: i128 = to.x as i128;
    let ty: i128 = to.y as i128;
    let tz: i128 = to.z as i128;
    proof {
        let l = ONE as int;
        lemma_product_bound(fx as int, fx as int, l, l);
        lemma_product_bound(fy as int, fy as int, l, l);
        lemma_product_bound(fz as int, fz as int, l, l);
        lemma_product_bound(tx as int, tx as int, l, l);
        lemma_product_bound(ty as int, ty as int, l, l);
        lemma_product_bound(tz as int, tz as int, l, l);
        lemma_product_bound(fx as int, tx as int, l, l);
        lemma_product_bound(fy as int, ty as int, l, l);
        lemma_product_bound(fz as int, tz as int, l, l);
    }
    let a: i128 = fx * fx + fy * fy + fz * fz;
    let b: i128 = tx * tx + ty * ty + tz * tz;
    let d: i128 = fx * tx + fy * ty + fz * tz;
    proof {
        let m = 3 * (ONE * ONE);
        lemma_product_bound(a as int, b as int, m, m);
        lemma_product_bound(d as int, d as int, m, m);
    }
    let ab: i128 = a * b;
    let excess: i128 = 8 * (d * d) - 5 * ab;
    proof {
        let m = 3 * (ONE * ONE);
        lemma_product_bound(ab as int, ab as int, m * m, m * m);
        lemma_product_bound(excess as int, excess as int, 13 * (m * m), 13 * (m * m));
    }
    a > 0 && b > 0 && (d <= 0 || excess < 0 || excess * excess < 5 * (ab * ab))
}

/// The step is taken: the player is alive and the candidate position lies
/// inside no wall.
pub open spec fn steps(
    player: Player,
    controller: MovementController,
    movement: Movement,
    dt: u32,
    walls: Seq<Wall>,
) -> bool {
    let to = candidate(player.transform.translation, controller.0, movement.speed, dt);
    !player.fate.is_dead() && !hits_wall(walls, to.0, to.2)
}

/// The player after a tick of length `dt`. Where the step is taken the player
/// stands on the candidate position and wants to idle, or to walk and face
/// along the intent if that is long enough. Where it is not, nothing changes.
pub open spec fn stepped(
    player: Player,
    controller: MovementController,
    movement: Movement,
    dt: u32,
    walls: Seq<Wall>,
) -> Player {
    if steps(player, controller, movement, dt, walls) {
        Player {
            transform: Transform {
                translation: vector_of(
                    candidate(player.transform.translation, controller.0, movement.speed, dt),
                ),
                facing: if is_walking(controller.0) {
                    controller.0
                } else {
                    player.transform.facing
                },
            },
            action: Action {
                current_track: player.action.current_track,
                new_track: if is_walking(controller.0) {
                    NlaTrack::Walk
                } else {
                    NlaTrack::Idle
                },
            },
            fate: player.fate,
        }
    } else {
        player
    }
}

/// The camera after the player's tick: at its fixed offset from the player
/// where the step is taken, and where it was where it is not.
pub open spec fn trailing(
    camera: Vector,
    player: Player,
    controller: MovementController,
    movement: Movement,
    dt: u32,
    walls: Seq<Wall>,
) -> Vector {
    if steps(player, controller, movement, dt, walls) {
        let to = candidate(player.transform.translation, controller.0, movement.speed, dt);
        vector_of((to.0 + CAMERA_X, to.1 + CAMERA_Y, to.2 + CAMERA_Z))
    } else {
        camera
    }
}

/// The step is taken at a walk, and it turns the player by more than a tenth
/// of π.
pub open spec fn turns(
    player: Player,
    controller: MovementController,
    movement: Movement,
    dt: u32,
    walls: Seq<Wall>,
) -> bool {
    steps(player, controller, movement, dt, walls) && is_walking(controller.0) && turned(
        player.transform.facing,
        controller.0,
    )
}

/// The ghost record after the player's tick: one sample longer, by the
/// clock's time and the player's new position, where the player turns.
pub open spec fn recorded(
    record: Seq<(u32, Vector)>,
    now: u32,
    player: Player,
    controller: MovementController,
    movement: Movement,
    dt: u32,
    walls: Seq<Wall>,
) -> Seq<(u32, Vector)> {
    if turns(player, controller, movement, dt, walls) {
        record.push(
            (
                now,
                vector_of(
                    candidate(player.transform.translation, controller.0, movement.speed, dt),
                ),
            ),
        )
    } else {
        record
    }
}

/// Moves the player for a tick of length `dt`.
///
/// The candidate position is the present one plus intent times speed times
/// `dt`. If it lies strictly inside any wall the whole step is dropped and
/// nothing changes; a step is never taken in part. A player who was seen does
/// not move either. Otherwise the player stands on the candidate position and
/// wants to idle, or to walk if the intent is longer than half a unit. A
/// walking player faces along the intent, and when that turns the player by
/// more than a tenth of π the clock's time and the new position are added to
/// the ghost record. The camera follows at its fixed offset. Returns whether
/// the step was taken.
pub fn apply_movement(
    dt: u32,
    timeloop: &Timeloop,
    controller: &MovementController,
    movement: &Movement,
    walls: &Vec<Wall>,
    player: &mut Player,
    camera: &mut Vector,
    ghostpath: &mut GhostPath,
) -> (moved: bool)
    requires
        old(player).transform.facing.is_unit_scale(),
        controller.0.is_unit_scale(),
        old(ghostpath).wf(),
        reachable(candidate(old(player).transform.translation, controller.0, movement.speed, dt)),
    ensures
        moved == steps(*old(player), *controller, *movement, dt, walls@),
        *final(player) == stepped(*old(player), *controller, *movement, dt, walls@),
        *final(camera) == trailing(*old(camera), *old(player), *controller, *movement, dt, walls@),
        final(ghostpath).points@ == recorded(
            old(ghostpath).points@,
            timeloop.current_time,
            *old(player),
            *controller,
            *movement,
            dt,
            walls@,
        ),
        final(ghostpath).wf(),
        final(player).transform.facing.is_unit_scale(),
        final(player).transform.translation.in_world()
            || !old(player).transform.translation.in_world(),
{
    if player.fate.dead() {
        return false;
    }
    let to = match plan(player.transform.translation, controller.0, movement.speed, dt) {
        Some(to) => to,
        None => {
            return false;
        },
    };
    if runs_into(walls, to.x, to.z) {
        return false;
    }
    player.transform.translation = to;
    player.action.new_track = NlaTrack::Idle;
    if walks(controller.0) {
        player.action.new_track = NlaTrack::Walk;
        if has_turned(player.transform.facing, controller.0) {
            ghostpath.record(timeloop.current_time, to);
        }
        player.transform.facing = controller.0;
    }
    *camera = Vector { x: to.x + CAMERA_X, y: to.y + CAMERA_Y, z: to.z + CAMERA_Z };
    true
}

/// A candidate position strictly inside a wall is refused, whatever the
/// other walls are: the step is not taken.
pub proof fn lemma_wall_refuses_step(
    player: Player,
    controller: MovementController,
    movement: Movement,
    dt: u32,
    walls: Seq<Wall>,
    i: int,
)
    requires
        0 <= i < walls.len(),
        walls[i].contains(
            candidate(player.transform.translation, controller.0, movement.speed, dt).0,
            candidate(player.transform.translation, controller.0, movement.speed, dt).2,
        ),
    ensures
        !steps(player, controller, movement, dt, walls),
        stepped(player, controller, movement, dt, walls) == player,
{
}

} // verus!
