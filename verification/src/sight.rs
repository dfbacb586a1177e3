//! What a guard can see: the cone of vision, the walls that hide the player,
//! and what follows when nothing hides them.

use vstd::prelude::*;
use crate::action::{Action, NlaTrack};
use crate::actor::{Npc, Player};
use crate::geometry::Wall;
use crate::vector::{Transform, Vector, dot, minus, within, lemma_product_bound, ONE, WORLD};

verus! {

/// The target lies inside the guard's cone of vision: the angle between the
/// guard's facing and the direction from the guard to the target is less
/// than a quarter of π.
///
/// With `a` the scalar product of the two directions the angle is below a
/// quarter of π exactly when its cosine exceeds the square root of one half,
/// that is, when `a` is positive and twice its square exceeds the product of
/// the two squared lengths. A guard without a facing, or one that stands on
/// the target, sees nothing.
pub open spec fn in_cone(guard: Transform, target: Vector) -> bool {
    let toward = minus(target.coords(), guard.translation.coords());
    let ahead = guard.facing.coords();
    let along = dot(toward, ahead);
    along > 0 && 2 * (along * along) > dot(toward, toward) * dot(ahead, ahead)
}

/// Some wall stands in the line of sight from `from` to `to`.
pub open spec fn blocked(walls: Seq<Wall>, from: Vector, to: Vector) -> bool {
    exists|i: int| 0 <= i < walls.len() && (#[trigger] walls[i]).occludes(from, to)
}

/// The guard sees the target: it is awake, the target is in its cone of
/// vision, and no wall hides it.
pub open spec fn detects(guard: Npc, target: Vector, walls: Seq<Wall>) -> bool {
    !guard.is_dead && in_cone(guard.transform, target) && !blocked(
        walls,
        guard.transform.translation,
        target,
    )
}

/// The guard after it has seen the target: it shoots, and it has turned to
/// face the target.
pub open spec fn alerted(guard: Npc, target: Vector) -> Npc {
    Npc {
        transform: Transform {
            translation: guard.transform.translation,
            facing: Vector {
                x: (target.x - guard.transform.translation.x) as i32,
                y: (target.y - guard.transform.translation.y) as i32,
                z: (target.z - guard.transform.translation.z) as i32,
            },
        },
        action: Action { current_track: guard.action.current_track, new_track: NlaTrack::Shoot },
        is_dead: guard.is_dead,
        is_shooting: true,
    }
}

/// The guard can be asked what it sees: unless it was knocked out, it stands
/// inside the world and its facing is no longer than a difference of two
/// positions.
pub open spec fn sighted(guard: Npc) -> bool {
    !guard.is_dead ==> guard.transform.translation.in_world()
        && guard.transform.facing.is_offset()
}

/// The two characters are less than one unit apart.
pub open spec fn near(a: Vector, b: Vector) -> bool {
    dot(minus(a.coords(), b.coords()), minus(a.coords(), b.coords())) < ONE * ONE
}

/// Decides [`in_cone`] for a guard and a target inside the world.
pub fn within_cone(guard: &Transform, target: Vector) -> (r: bool)
    requires
        guard.translation.in_world(),
        guard.facing.is_offset(),
        target.in_world(),
    ensures
        r == in_cone(*guard, target),
{
    let tx: i128 = (target.x as i64 - guard.translation.x as i64) as i128;
    let ty: i128 = (target.y as i64 - guard.translation.y as i64) as i128;
    let tz: i128 = (target.z as i64 - guard.translation.z as i64) as i128;
    let fx: i128 = guard.facing.x as i128;
    let fy: i128 = guard.facing.y as i128;
    let fz: i128 = guard.facing.z as i128;
    proof {
        let l = 2 * WORLD as int;
        lemma_product_bound(tx as int, fx as int, l, l);
        lemma_product_bound(ty as int, fy as int, l, l);
        lemma_product_bound(tz as int, fz as int, l, l);
        lemma_product_bound(tx as int, tx as int, l, l);
        lemma_product_bound(ty as int, ty as int, l, l);
        lemma_product_bound(tz as int, tz as int, l, l);
        lemma_product_bound(fx as int, fx as int, l, l);
        lemma_product_bound(fy as int, fy as int, l, l);
        lemma_product_bound(fz as int, fz as int, l, l);
    }
    let along: i128 = tx * fx + ty * fy + tz * fz;
    let toward_sq: i128 = tx * tx + ty * ty + tz * tz;
    let ahead_sq: i128 = fx * fx + fy * fy + fz * fz;
    proof {
        let l = 2 * WORLD as int;
        lemma_product_bound(along as int, along as int, 3 * (l * l), 3 * (l * l));
        lemma_product_bound(toward_sq as int, ahead_sq as int, 3 * (l * l), 3 * (l * l));
    }
    along > 0 && 2 * (along * along) > toward_sq * ahead_sq
}

/// Decides [`blocked`]. Every wall is asked; one that does not hide the
/// target does not end the search.
pub fn is_blocked(walls: &Vec<Wall>, from: Vector, to: Vector) -> (r: bool)
    ensures
        r == blocked(walls@, from, to),
{
    let mut hidden = false;
    let mut i: usize = 0;
    while i < walls.len()
        invariant
            0 <= i <= walls.len(),
            hidden == blocked(walls@.take(i as int), from, to),
        decreases walls.len() - i,
    {
        let ghost before = walls@.take(i as int);
        let ghost after = walls@.take(i as int + 1);
        let hides = walls[i].blocks_sight(from, to);
        proof {
            assert(after[i as int] == walls@[i as int]);
            if blocked(before, from, to) {
                let k = choose|k: int|
                    0 <= k < before.len() && (#[trigger] before[k]).occludes(from, to);
                assert(after[k].occludes(from, to));
            } else if !hides {
                assert forall|k: int| 0 <= k < after.len() implies !(#[trigger] after[k]).occludes(
                    from,
                    to,
                ) by {
                    if k < i {
                        assert(before[k] == after[k]);
                    }
                }
            }
        }
        if hides {
            hidden = true;
        }
        i = i + 1;
    }
    assert(walls@.take(walls.len() as int) == walls@);
    hidden
}

/// Decides [`detects`].
pub fn can_see(guard: &Npc, target: Vector, walls: &Vec<Wall>) -> (r: bool)
    requires
        sighted(*guard),
        target.in_world(),
    ensures
        r == detects(*guard, target, walls@),
{
    !guard.is_dead && within_cone(&guard.transform, target) && !is_blocked(
        walls,
        guard.transform.translation,
        target,
    )
}

/// A target outside the cone of vision is never seen, wherever the walls
/// stand.
pub proof fn lemma_outside_cone_unseen(guard: Npc, target: Vector, walls: Seq<Wall>)
    requires
        !in_cone(guard.transform, target),
    ensures
        !detects(guard, target, walls),
{
}

/// One wall in the line of sight is enough to hide the target, whatever the
/// other walls do.
pub proof fn lemma_one_wall_hides(guard: Npc, target: Vector, walls: Seq<Wall>, i: int)
    requires
        0 <= i < walls.len(),
        walls[i].occludes(guard.transform.translation, target),
    ensures
        blocked(walls, guard.transform.translation, target),
        !detects(guard, target, walls),
{
}

/// Some guard of the list sees the target.
pub open spec fn any_detects(guards: Seq<Npc>, target: Vector, walls: Seq<Wall>) -> bool {
    exists|j: int| 0 <= j < guards.len() && detects(#[trigger] guards[j], target, walls)
}

/// The player is caught in this tick: not seen before, and seen now by at
/// least one guard.
pub open spec fn catches(guards: Seq<Npc>, player: Player, walls: Seq<Wall>) -> bool {
    !player.fate.is_dead() && any_detects(guards, player.transform.translation, walls)
}

/// A guard after it has looked for the player: alerted if the player could
/// still be caught and the guard sees them, and unchanged otherwise.
pub open spec fn watching(guard: Npc, player: Player, walls: Seq<Wall>) -> Npc {
    if !player.fate.is_dead() && detects(guard, player.transform.translation, walls) {
        alerted(guard, player.transform.translation)
    } else {
        guard
    }
}

/// The guards after each has looked for the player.
pub open spec fn all_watching(guards: Seq<Npc>, player: Player, walls: Seq<Wall>) -> Seq<Npc> {
    Seq::new(guards.len(), |j: int| watching(guards[j], player, walls))
}

/// The player after the guards have looked for them: detected and at once on
/// the way down if caught, and unchanged otherwise.
pub open spec fn watched(player: Player, guards: Seq<Npc>, walls: Seq<Wall>) -> Player {
    if catches(guards, player, walls) {
        Player { fate: player.fate.seen().sunk(), ..player }
    } else {
        player
    }
}

/// A character after the player has come to stand at `at`: knocked out if
/// that is less than a unit away.
pub open spec fn knocked(npc: Npc, at: Vector) -> Npc {
    Npc { is_dead: npc.is_dead || near(npc.transform.translation, at), ..npc }
}

/// The characters after the player has come to stand at `at`.
pub open spec fn all_knocked(npcs: Seq<Npc>, at: Vector) -> Seq<Npc> {
    Seq::new(npcs.len(), |j: int| knocked(npcs[j], at))
}

/// Lets every guard look for the player. Each guard that is awake, has the
/// player in its cone of vision and no wall in between starts to shoot and
/// turns to the player. If at least one guard does, the player is detected
/// and starts to descend within the same tick. A player who was seen before
/// is not looked for again. Returns whether the player was caught in this
/// tick.
pub fn detect_player(player: &mut Player, enemies: &mut Vec<Npc>, walls: &Vec<Wall>) -> (caught:
    bool)
    requires
        old(player).transform.translation.in_world(),
        forall|j: int| 0 <= j < old(enemies)@.len() ==> sighted(#[trigger] old(enemies)@[j]),
    ensures
        caught == catches(old(enemies)@, *old(player), walls@),
        *final(player) == watched(*old(player), old(enemies)@, walls@),
        final(enemies)@ == all_watching(old(enemies)@, *old(player), walls@),
        forall|j: int| 0 <= j < final(enemies)@.len() ==> sighted(#[trigger] final(enemies)@[j]),
{
    let target = player.transform.translation;
    let mut caught = false;
    if player.fate.dead() {
        assert(enemies@ =~= all_watching(old(enemies)@, *old(player), walls@));
        return false;
    }
    let mut j: usize = 0;
    while j < enemies.len()
        invariant
            0 <= j <= enemies.len(),
            enemies@.len() == old(enemies)@.len(),
            target == old(player).transform.translation,
            target.in_world(),
            *player == *old(player),
            !old(player).fate.is_dead(),
            caught == any_detects(old(enemies)@.take(j as int), target, walls@),
            forall|k: int| j <= k < enemies@.len() ==> #[trigger] enemies@[k] == old(enemies)@[k],
            forall|k: int| 0 <= k < old(enemies)@.len() ==> sighted(#[trigger] old(enemies)@[k]),
            forall|k: int|
                0 <= k < j ==> #[trigger] enemies@[k] == if detects(
                    old(enemies)@[k],
                    target,
                    walls@,
                ) {
                    alerted(old(enemies)@[k], target)
                } else {
                    old(enemies)@[k]
                },
            forall|k: int| 0 <= k < enemies@.len() ==> sighted(#[trigger] enemies@[k]),
        decreases enemies.len() - j,
    {
        let ghost before = old(enemies)@.take(j as int);
        let ghost after = old(enemies)@.take(j as int + 1);
        let mut guard = enemies[j];
        let sees = can_see(&guard, target, walls);
        proof {
            assert(after[j as int] == old(enemies)@[j as int]);
            if any_detects(before, target, walls@) {
                let k = choose|k: int|
                    0 <= k < before.len() && detects(#[trigger] before[k], target, walls@);
                assert(detects(after[k], target, walls@));
            } else if !sees {
                assert forall|k: int| 0 <= k < after.len() implies !detects(
                    #[trigger] after[k],
                    target,
                    walls@,
                ) by {
                    if k < j {
                        assert(before[k] == after[k]);
                    }
                }
            }
        }
        if sees {
            guard.is_shooting = true;
            guard.transform.facing = Vector {
                x: target.x - guard.transform.translation.x,
                y: target.y - guard.transform.translation.y,
                z: target.z - guard.transform.translation.z,
            };
            guard.action.new_track = NlaTrack::Shoot;
            enemies[j] = guard;
            caught = true;
        }
        j = j + 1;
    }
    assert(old(enemies)@.take(old(enemies)@.len() as int) == old(enemies)@);
    assert(enemies@ =~= all_watching(old(enemies)@, *old(player), walls@));
    if caught {
        player.fate = player.fate.detect().descend();
    }
    caught
}

/// Knocks out every character that stands less than one unit from the
/// player. A character that was knocked out before stays so.
pub fn kill_npcs(player: &Player, npcs: &mut Vec<Npc>)
    ensures
        final(npcs)@ == all_knocked(old(npcs)@, player.transform.translation),
{
    let target = player.transform.translation;
    let mut j: usize = 0;
    while j < npcs.len()
        invariant
            0 <= j <= npcs.len(),
            npcs@.len() == old(npcs)@.len(),
            target == player.transform.translation,
            forall|k: int| j <= k < npcs@.len() ==> #[trigger] npcs@[k] == old(npcs)@[k],
            forall|k: int| 0 <= k < j ==> #[trigger] npcs@[k] == knocked(old(npcs)@[k], target),
        decreases npcs.len() - j,
    {
        let mut npc = npcs[j];
        if is_near(npc.transform.translation, target) {
            npc.is_dead = true;
            npcs[j] = npc;
        }
        j = j + 1;
    }
    assert(npcs@ =~= all_knocked(old(npcs)@, target));
}

/// Decides [`near`].
pub fn is_near(a: Vector, b: Vector) -> (r: bool)
    ensures
        r == near(a, b),
{
    let dx: i128 = (a.x as i64 - b.x as i64) as i128;
    let dy: i128 = (a.y as i64 - b.y as i64) as i128;
    let dz: i128 = (a.z as i64 - b.z as i64) as i128;
    proof {
        let l = 0x1_0000_0000int;
        lemma_product_bound(dx as int, dx as int, l, l);
        lemma_product_bound(dy as int, dy as int, l, l);
        lemma_product_bound(dz as int, dz as int, l, l);
    }
    let unit: i128 = ONE as i128;
    assert(unit * unit == ONE * ONE);
    dx * dx + dy * dy + dz * dz < unit * unit
}

} // verus!
