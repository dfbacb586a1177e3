//! The records of the entities that the simulation moves.

use vstd::prelude::*;
use crate::action::{Action, NlaTrack};
use crate::fate::Fate;
use crate::vector::{Transform, Vector};

verus! {

/// A guard or a ghost.
#[derive(Clone, Copy, Debug, PartialEq, Eq, Structural)]
pub struct Npc {
    pub transform: Transform,
    pub action: Action,
    /// The character was knocked out and takes no further part.
    pub is_dead: bool,
    /// The character has seen the player and fired.
    pub is_shooting: bool,
}

/// The character that the person at the keyboard steers.
#[derive(Clone, Copy, Debug, PartialEq, Eq, Structural)]
pub struct Player {
    pub transform: Transform,
    pub action: Action,
    pub fate: Fate,
}

impl Npc {
    /// A character that stands at `translation`, looks along `facing` and
    /// starts to walk.
    pub fn new(translation: Vector, facing: Vector) -> (npc: Npc)
        ensures
            npc == (Npc {
                transform: Transform { translation, facing },
                action: Action { current_track: NlaTrack::Idle, new_track: NlaTrack::Walk },
                is_dead: false,
                is_shooting: false,
            }),
    {
        Npc {
            transform: Transform { translation, facing },
            action: Action { current_track: NlaTrack::Idle, new_track: NlaTrack::Walk },
            is_dead: false,
            is_shooting: false,
        }
    }
}

impl Player {
    /// A living player that stands idle at `translation` and looks along
    /// `facing`.
    pub fn new(translation: Vector, facing: Vector) -> (player: Player)
        ensures
            player == (Player {
                transform: Transform { translation, facing },
                action: Action { current_track: NlaTrack::Idle, new_track: NlaTrack::Idle },
                fate: Fate::Alive,
            }),
    {
        Player {
            transform: Transform { translation, facing },
            action: Action { current_track: NlaTrack::Idle, new_track: NlaTrack::Idle },
            fate: Fate::Alive,
        }
    }
}

} // verus!
