//! The whole level as one value, and the pass over it that makes a frame.

use vstd::prelude::*;
use crate::action::{animate, Action, NlaTrack};
use crate::actor::{Npc, Player};
use crate::fate::{go_to_hell, mourned, sentence};
use crate::geometry::Wall;
use crate::ghost::{move_ghosts, replayed, GhostPath};
use crate::movement::{
    apply_movement, candidate, intent, plan, reachable, record_movement_controller, recorded,
    stepped, trailing, Movement, MovementController, lemma_intent_zero_or_unit,
};
use crate::path::{all_in_world, move_npcs, patrolled, Path};
use crate::screen::Screen;
use crate::sight::{all_knocked, all_watching, detect_player, kill_npcs, sighted, watched};
use crate::timeloop::{loop_time, GhostActor, Timeloop};
use crate::vector::{Transform, Vector};

verus! {

/// The direction keys held down during a frame.
#[derive(Clone, Copy, Debug, PartialEq, Eq, Default, Structural)]
pub struct Keys {
    pub up: bool,
    pub down: bool,
    pub left: bool,
    pub right: bool,
}

/// A level in play. The characters are the guards, one for each round and in
/// the order of the rounds, followed by the ghosts in the order in which they
/// appeared.
#[derive(Clone, Debug)]
pub struct Stage {
    pub timeloop: Timeloop,
    pub ghostpath: GhostPath,
    pub walls: Vec<Wall>,
    pub player: Player,
    pub controller: MovementController,
    pub movement: Movement,
    pub camera: Vector,
    pub npcs: Vec<Npc>,
    pub rounds: Vec<Path>,
    pub ghosts: Vec<GhostActor>,
}

/// What a frame asks of the world around the level.
#[derive(Clone, Debug, PartialEq, Eq)]
pub struct Frame {
    /// The ghost that joined the characters in this frame.
    pub spawned: Option<GhostActor>,
    /// The screen to change to.
    pub next_screen: Option<Screen>,
    /// The clip that the player's animation is to start.
    pub player_clip: Option<usize>,
    /// For each character, the clip that its animation is to start.
    pub npc_clips: Vec<Option<usize>>,
}

/// A level in play as a mathematical value.
#[verifier::ext_equal]
pub struct Scene {
    pub timeloop: Timeloop,
    pub record: Seq<(u32, Vector)>,
    pub walls: Seq<Wall>,
    pub player: Player,
    pub controller: MovementController,
    pub movement: Movement,
    pub camera: Vector,
    pub npcs: Seq<Npc>,
    pub rounds: Seq<Path>,
    pub ghosts: Seq<GhostActor>,
}

/// A character as it enters the level: at the origin, looking ahead, about to
/// walk.
pub open spec fn newcomer() -> Npc {
    Npc {
        transform: Transform {
            translation: Vector { x: 0, y: 0, z: 0 },
            facing: Vector { x: 0, y: 0, z: -1000i32 },
        },
        action: Action { current_track: NlaTrack::Idle, new_track: NlaTrack::Walk },
        is_dead: false,
        is_shooting: false,
    }
}

impl Scene {
    /// The level holds together: every character has a round or is a ghost,
    /// the clock shows a time of the loop that every round fits, and all
    /// stand and look where the sight tests can follow them.
    pub open spec fn wf(self) -> bool {
        &&& self.npcs.len() == self.rounds.len() + self.ghosts.len()
        &&& self.timeloop.current_time <= self.timeloop.max_time
        &&& all_in_world(self.record)
        &&& self.player.transform.translation.in_world()
        &&& self.player.transform.facing.is_unit_scale()
        &&& forall|i: int| 0 <= i < self.npcs.len() ==> sighted(#[trigger] self.npcs[i])
        &&& forall|i: int|
            0 <= i < self.rounds.len() ==> (#[trigger] self.rounds[i]).valid(
                self.timeloop.max_time,
            )
    }

    /// A frame of length `dt` with the keys `keys` can be played: the
    /// player's step stays inside the world, and the clock can go on.
    pub open spec fn playable(self, keys: Keys, dt: u32) -> bool {
        &&& reachable(
            candidate(
                self.player.transform.translation,
                intent(keys.up, keys.down, keys.left, keys.right),
                self.movement.speed,
                dt,
            ),
        )
        &&& self.timeloop.can_advance(dt)
    }

    /// The keys are read: they set the intent.
    pub open spec fn steered(self, keys: Keys) -> Scene {
        Scene {
            controller: MovementController(intent(keys.up, keys.down, keys.left, keys.right)),
            ..self
        }
    }

    /// The player takes a step of length `dt`, the camera follows, and a turn
    /// is recorded.
    pub open spec fn stepped(self, dt: u32) -> Scene {
        Scene {
            player: stepped(self.player, self.controller, self.movement, dt, self.walls),
            camera: trailing(
                self.camera,
                self.player,
                self.controller,
                self.movement,
                dt,
                self.walls,
            ),
            record: recorded(
                self.record,
                self.timeloop.current_time,
                self.player,
                self.controller,
                self.movement,
                dt,
                self.walls,
            ),
            ..self
        }
    }

    /// The clock goes on by `dt`. Where that ends a loop, a ghost of the new
    /// generation joins the characters.
    pub open spec fn clocked(self, dt: u32) -> Scene {
        match self.timeloop.spawned(dt) {
            Some(ghost) => Scene {
                timeloop: self.timeloop.advanced(dt),
                npcs: self.npcs.push(newcomer()),
                ghosts: self.ghosts.push(ghost),
                ..self
            },
            None => Scene { timeloop: self.timeloop.advanced(dt), ..self },
        }
    }

    /// Character `i` where its round or the record puts it at the time that
    /// the clock shows.
    pub open spec fn placed_at(self, i: int) -> Npc {
        if i < self.rounds.len() {
            patrolled(self.npcs[i], self.rounds[i].points@, self.timeloop)
        } else {
            replayed(
                self.npcs[i],
                self.ghosts[i - self.rounds.len()].gen,
                self.record,
                self.timeloop,
            )
        }
    }

    /// Every character is put where its round or the record says.
    pub open spec fn placed(self) -> Scene {
        Scene { npcs: Seq::new(self.npcs.len(), |i: int| self.placed_at(i)), ..self }
    }

    /// The characters within a unit of the player are knocked out.
    pub open spec fn struck(self) -> Scene {
        Scene { npcs: all_knocked(self.npcs, self.player.transform.translation), ..self }
    }

    /// The characters look for the player.
    pub open spec fn searched(self) -> Scene {
        Scene {
            player: watched(self.player, self.npcs, self.walls),
            npcs: all_watching(self.npcs, self.player, self.walls),
            ..self
        }
    }

    /// The countdown of a seen player runs for `dt`.
    pub open spec fn judged(self, dt: u32) -> Scene {
        Scene {
            player: Player {
                fate: self.player.fate.after(dt),
                action: mourned(self.player.action, self.player.fate),
                ..self.player
            },
            ..self
        }
    }

    /// Every animation follows the track that is wanted of it.
    pub open spec fn animated(self) -> Scene {
        Scene {
            player: Player { action: self.player.action.followed(), ..self.player },
            npcs: Seq::new(
                self.npcs.len(),
                |i: int| Npc { action: self.npcs[i].action.followed(), ..self.npcs[i] },
            ),
            ..self
        }
    }

    /// The level once the player has been looked for, in a frame of length
    /// `dt` with the keys `keys`: the keys are read, the player steps, the
    /// clock goes on, the characters are placed, those near the player are
    /// knocked out, and the others look for the player.
    pub open spec fn sought(self, keys: Keys, dt: u32) -> Scene {
        self.steered(keys).stepped(dt).clocked(dt).placed().struck().searched()
    }

    /// The level just before the animations follow: the player has been
    /// looked for, and the countdown of a seen player has run.
    pub open spec fn decided(self, keys: Keys, dt: u32) -> Scene {
        self.sought(keys, dt).judged(dt)
    }

    /// The level after a frame of length `dt` with the keys `keys`.
    pub open spec fn ticked(self, keys: Keys, dt: u32) -> Scene {
        self.decided(keys, dt).animated()
    }

    /// The clips that the characters' animations are to start.
    pub open spec fn cues(self) -> Seq<Option<usize>> {
        Seq::new(self.npcs.len(), |i: int| self.npcs[i].action.cue())
    }
}

/// A step that a wall refuses leaves the player where they were for the
/// whole frame, whatever else the frame brings.
pub proof fn lemma_frame_respects_walls(scene: Scene, keys: Keys, dt: u32, i: int)
    requires
        0 <= i < scene.walls.len(),
        scene.walls[i].contains(
            candidate(
                scene.player.transform.translation,
                intent(keys.up, keys.down, keys.left, keys.right),
                scene.movement.speed,
                dt,
            ).0,
            candidate(
                scene.player.transform.translation,
                intent(keys.up, keys.down, keys.left, keys.right),
                scene.movement.speed,
                dt,
            ).2,
        ),
    ensures
        scene.ticked(keys, dt).player.transform == scene.player.transform,
{
}

/// A frame ends at most one loop and brings at most one ghost; the rounds
/// and the walls stay as they are.
pub proof fn lemma_frame_adds_at_most_one_ghost(scene: Scene, keys: Keys, dt: u32)
    ensures
        scene.ticked(keys, dt).rounds == scene.rounds,
        scene.ticked(keys, dt).walls == scene.walls,
        scene.ticked(keys, dt).ghosts == scene.ghosts || scene.ticked(keys, dt).ghosts
            == scene.ghosts.push((GhostActor { gen: scene.ticked(keys, dt).timeloop.gen })),
        scene.ticked(keys, dt).npcs.len() - scene.npcs.len() == scene.ticked(keys, dt).ghosts.len()
            - scene.ghosts.len(),
{
}

impl View for Stage {
    type V = Scene;

    open spec fn view(&self) -> Scene {
        Scene {
            timeloop: self.timeloop,
            record: self.ghostpath.points@,
            walls: self.walls@,
            player: self.player,
            controller: self.controller,
            movement: self.movement,
            camera: self.camera,
            npcs: self.npcs@,
            rounds: self.rounds@,
            ghosts: self.ghosts@,
        }
    }
}

impl Stage {
    /// What a level can start from: the player stands inside the world and
    /// faces along a direction of unit scale, and every round is a path for
    /// the loop.
    pub open spec fn can_start(max_time: u32, player: Player, rounds: Seq<Path>) -> bool {
        &&& player.transform.translation.in_world()
        &&& player.transform.facing.is_unit_scale()
        &&& forall|i: int| 0 <= i < rounds.len() ==> (#[trigger] rounds[i]).valid(max_time)
    }

    /// The level at the start of a session: the clock at the start of its
    /// first loop, the record with its first sample, one guard for each
    /// round, no ghost, no intent, and the camera at the origin.
    pub open spec fn fresh(
        max_time: u32,
        walls: Seq<Wall>,
        player: Player,
        movement: Movement,
        rounds: Seq<Path>,
    ) -> Scene {
        Scene {
            timeloop: Timeloop { current_time: 0, max_time, gen: 0 },
            record: seq![crate::ghost::origin_sample()],
            walls,
            player,
            controller: MovementController(Vector { x: 0, y: 0, z: 0 }),
            movement,
            camera: Vector { x: 0, y: 0, z: 0 },
            npcs: Seq::new(rounds.len(), |i: int| newcomer()),
            rounds,
            ghosts: Seq::empty(),
        }
    }

    /// Sets up a level, or nothing where it cannot start.
    pub fn new(
        max_time: u32,
        walls: Vec<Wall>,
        player: Player,
        movement: Movement,
        rounds: Vec<Path>,
    ) -> (made: Option<Stage>)
        ensures
            made.is_some() == Stage::can_start(max_time, player, rounds@),
            made matches Some(stage) ==> stage@ == Stage::fresh(
                max_time,
                walls@,
                player,
                movement,
                rounds@,
            ) && stage@.wf(),
    {
        if !player.transform.translation.lies_in_world()
            || !player.transform.facing.fits_unit_scale() {
            return None;
        }
        let mut npcs: Vec<Npc> = Vec::new();
        let mut i: usize = 0;
        while i < rounds.len()
            invariant
                0 <= i <= rounds.len(),
                npcs@.len() == i,
                forall|k: int| 0 <= k < i ==> #[trigger] npcs@[k] == newcomer(),
                forall|k: int| 0 <= k < i ==> (#[trigger] rounds@[k]).valid(max_time),
            decreases rounds.len() - i,
        {
            if !rounds[i].is_valid(max_time) {
                return None;
            }
            npcs.push(Npc::new(Vector::zero(), Vector::new(0, 0, -1000)));
            i = i + 1;
        }
        let stage = Stage {
            timeloop: Timeloop::new(max_time),
            ghostpath: GhostPath::new(),
            walls,
            player,
            controller: MovementController(Vector::zero()),
            movement,
            camera: Vector::zero(),
            npcs,
            rounds,
            ghosts: Vec::new(),
        };
        assert(stage@ =~= Stage::fresh(max_time, walls@, player, movement, rounds@));
        Some(stage)
    }

    /// Decides whether the level holds together.
    pub fn is_wf(&self) -> (r: bool)
        ensures
            r == self@.wf(),
    {
        if self.rounds.len() > self.npcs.len() || self.npcs.len() - self.rounds.len()
            != self.ghosts.len() {
            return false;
        }
        if self.timeloop.current_time > self.timeloop.max_time || !self.ghostpath.is_wf()
            || !self.player.transform.translation.lies_in_world()
            || !self.player.transform.facing.fits_unit_scale() {
            return false;
        }
        let mut i: usize = 0;
        while i < self.npcs.len()
            invariant
                0 <= i <= self.npcs.len(),
                forall|k: int| 0 <= k < i ==> sighted(#[trigger] self.npcs@[k]),
            decreases self.npcs.len() - i,
        {
            let npc = &self.npcs[i];
            if !npc.is_dead && !(npc.transform.translation.lies_in_world()
                && npc.transform.facing.fits_offset()) {
                return false;
            }
            i = i + 1;
        }
        let mut j: usize = 0;
        while j < self.rounds.len()
            invariant
                0 <= j <= self.rounds.len(),
                forall|k: int|
                    0 <= k < j ==> (#[trigger] self.rounds@[k]).valid(self.timeloop.max_time),
            decreases self.rounds.len() - j,
        {
            if !self.rounds[j].is_valid(self.timeloop.max_time) {
                return false;
            }
            j = j + 1;
        }
        true
    }

    /// Decides whether a frame of length `dt` with the keys `keys` can be
    /// played.
    pub fn can_tick(&self, keys: Keys, dt: u32) -> (r: bool)
        ensures
            r == self@.playable(keys, dt),
    {
        let controller = record_movement_controller(keys.up, keys.down, keys.left, keys.right);
        plan(self.player.transform.translation, controller.0, self.movement.speed, dt).is_some()
            && self.timeloop.has_room(dt)
    }

    fn place(&mut self)
        requires
            old(self)@.wf(),
        ensures
            final(self)@ == old(self)@.placed(),
            final(self)@.wf(),
    {
        let mut i: usize = 0;
        while i < self.npcs.len()
            invariant
                0 <= i <= self.npcs.len(),
                old(self)@.wf(),
                self.npcs@.len() == old(self).npcs@.len(),
                self@ == (Scene { npcs: self.npcs@, ..old(self)@ }),
                forall|k: int| i <= k < self.npcs@.len() ==> #[trigger] self.npcs@[k] == old(
                    self,
                ).npcs@[k],
                forall|k: int| 0 <= k < i ==> #[trigger] self.npcs@[k] == old(self)@.placed_at(k),
                forall|k: int| 0 <= k < self.npcs@.len() ==> sighted(#[trigger] self.npcs@[k]),
            decreases self.npcs.len() - i,
        {
            let mut npc = self.npcs[i];
            if i < self.rounds.len() {
                assert(self.rounds@[i as int].valid(self.timeloop.max_time));
                move_npcs(&self.timeloop, &self.rounds[i], &mut npc);
            } else {
                move_ghosts(
                    &self.timeloop,
                    &self.ghosts[i - self.rounds.len()],
                    &self.ghostpath,
                    &mut npc,
                );
            }
            self.npcs[i] = npc;
            i = i + 1;
        }
        assert(self@ =~= old(self)@.placed());
    }

    fn animate_all(&mut self) -> (clips: Vec<Option<usize>>)
        requires
            old(self)@.wf(),
        ensures
            final(self)@.npcs == old(self)@.animated().npcs,
            final(self)@ == (Scene { npcs: final(self)@.npcs, ..old(self)@ }),
            clips@ == old(self)@.cues(),
            final(self)@.wf(),
    {
        let mut clips: Vec<Option<usize>> = Vec::new();
        let mut i: usize = 0;
        while i < self.npcs.len()
            invariant
                0 <= i <= self.npcs.len(),
                old(self)@.wf(),
                self.npcs@.len() == old(self).npcs@.len(),
                self@ == (Scene { npcs: self.npcs@, ..old(self)@ }),
                clips@.len() == i,
                forall|k: int| i <= k < self.npcs@.len() ==> #[trigger] self.npcs@[k] == old(
                    self,
                ).npcs@[k],
                forall|k: int|
                    0 <= k < i ==> #[trigger] self.npcs@[k] == (Npc {
                        action: old(self).npcs@[k].action.followed(),
                        ..old(self).npcs@[k]
                    }),
                forall|k: int|
                    0 <= k < i ==> #[trigger] clips@[k] == old(self).npcs@[k].action.cue(),
                forall|k: int| 0 <= k < self.npcs@.len() ==> sighted(#[trigger] self.npcs@[k]),
            decreases self.npcs.len() - i,
        {
            let mut npc = self.npcs[i];
            let clip = animate(&mut npc.action);
            self.npcs[i] = npc;
            clips.push(clip);
            i = i + 1;
        }
        assert(self@.npcs =~= old(self)@.animated().npcs);
        assert(clips@ =~= old(self)@.cues());
        clips
    }

    /// Plays one frame of length `dt` with the keys `keys`, in a fixed order:
    /// the keys set the intent; the player steps, unless a wall refuses it;
    /// the clock goes on, and a ghost joins when a loop ends; the guards and
    /// the ghosts are put where their rounds and the record say; characters
    /// within a unit of the player are knocked out; the others look for the
    /// player; the countdown of a seen player runs; and the animations follow
    /// the tracks wanted of them. What the frame asks of the world around the
    /// level is returned.
    pub fn tick(&mut self, keys: Keys, dt: u32) -> (frame: Frame)
        requires
            old(self)@.wf(),
            old(self)@.playable(keys, dt),
        ensures
            final(self)@ == old(self)@.ticked(keys, dt),
            final(self)@.wf(),
            frame.spawned == old(self)@.timeloop.spawned(dt),
            frame.next_screen == sentence(old(self)@.sought(keys, dt).player.fate, dt),
            frame.player_clip == old(self)@.decided(keys, dt).player.action.cue(),
            frame.npc_clips@ == old(self)@.decided(keys, dt).cues(),
    {
        proof {
            lemma_intent_zero_or_unit(keys.up, keys.down, keys.left, keys.right);
        }
        self.controller = record_movement_controller(keys.up, keys.down, keys.left, keys.right);
        assert(self@ == old(self)@.steered(keys));
        let ghost s1 = self@;

        apply_movement(
            dt,
            &self.timeloop,
            &self.controller,
            &self.movement,
            &self.walls,
            &mut self.player,
            &mut self.camera,
            &mut self.ghostpath,
        );
        assert(self@ =~= s1.stepped(dt));
        let ghost s2 = self@;

        let spawned = loop_time(&mut self.timeloop, dt);
        if let Some(ghost_actor) = spawned {
            self.npcs.push(Npc::new(Vector::zero(), Vector::new(0, 0, -1000)));
            self.ghosts.push(ghost_actor);
        }
        assert(self@ =~= s2.clocked(dt));
        let ghost s3 = self@;
        assert(s3.wf()) by {
            assert forall|i: int| 0 <= i < s3.npcs.len() implies sighted(
                #[trigger] s3.npcs[i],
            ) by {
                if i < s2.npcs.len() {
                    assert(s3.npcs[i] == s2.npcs[i]);
                }
            }
        }

        self.place();
        let ghost s4 = self@;

        kill_npcs(&self.player, &mut self.npcs);
        assert(self@ =~= s4.struck());
        let ghost s5 = self@;

        detect_player(&mut self.player, &mut self.npcs, &self.walls);
        assert(self@ =~= s5.searched());
        let ghost s6 = self@;

        let next_screen = go_to_hell(&mut self.player.fate, &mut self.player.action, dt);
        assert(self@ =~= s6.judged(dt));
        let ghost s7 = self@;
        assert(s7 == old(self)@.decided(keys, dt));

        let player_clip = animate(&mut self.player.action);
        let npc_clips = self.animate_all();
        assert(self@ =~= s7.animated());

        Frame { spawned, next_screen, player_clip, npc_clips }
    }

    /// Plays one frame like [`Stage::tick`] where that can be done, and
    /// leaves the level untouched where it cannot: where the level does not
    /// hold together, the player's step would leave the world, or the clock
    /// cannot go on.
    pub fn try_tick(&mut self, keys: Keys, dt: u32) -> (played: Option<Frame>)
        ensures
            played.is_some() == (old(self)@.wf() && old(self)@.playable(keys, dt)),
            played.is_none() ==> *final(self) == *old(self),
            played.is_some() ==> final(self)@ == old(self)@.ticked(keys, dt),
            played.is_some() ==> final(self)@.wf(),
            played matches Some(frame) ==> frame.spawned == old(self)@.timeloop.spawned(dt),
            played matches Some(frame) ==> frame.next_screen == sentence(
                old(self)@.sought(keys, dt).player.fate,
                dt,
            ),
            played matches Some(frame) ==> frame.player_clip == old(self)@.decided(
                keys,
                dt,
            ).player.action.cue(),
            played matches Some(frame) ==> frame.npc_clips@ == old(self)@.decided(keys, dt).cues(),
    {
        if self.is_wf() && self.can_tick(keys, dt) {
            Some(self.tick(keys, dt))
        } else {
            None
        }
    }
}

} // verus!
