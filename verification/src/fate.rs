//! What becomes of a player who was seen: the escalation from detection to
//! the screen that ends the attempt.

use vstd::prelude::*;
use crate::action::{Action, NlaTrack};
use crate::screen::Screen;

verus! {

/// The time between being seen and the change of screen.
pub const HELL_DELAY: u32 = 500;

/// The countdown of a player on the way down.
#[derive(Clone, Copy, Debug, PartialEq, Eq, Default, Structural)]
pub struct IsGoingToHell {
    pub countdown: u32,
}

/// The stages of a player's end. They are passed in this order and never
/// left backwards.
#[derive(Clone, Copy, Debug, PartialEq, Eq, Structural)]
pub enum Fate {
    /// Not seen so far.
    Alive,
    /// Seen by a guard. This stage is left within the tick that enters it.
    Detected,
    /// Counting down to the change of screen.
    Descending(IsGoingToHell),
    /// The change of screen was asked for.
    Terminal,
}

impl Fate {
    /// The player has been seen, now or earlier.
    pub open spec fn is_dead(self) -> bool {
        self != Fate::Alive
    }

    /// The fate once a guard has seen the player: a living player is
    /// detected, and nothing changes for one who already was.
    pub open spec fn seen(self) -> Fate {
        match self {
            Fate::Alive => Fate::Detected,
            other => other,
        }
    }

    /// The fate once the detection has sunk in: the countdown starts.
    pub open spec fn sunk(self) -> Fate {
        match self {
            Fate::Detected => Fate::Descending(IsGoingToHell { countdown: HELL_DELAY }),
            other => other,
        }
    }

    /// The countdown runs out within a tick of length `dt`.
    pub open spec fn runs_out(self, dt: u32) -> bool {
        match self {
            Fate::Descending(hell) => hell.countdown <= dt,
            _ => false,
        }
    }

    /// The fate after a tick of length `dt`.
    pub open spec fn after(self, dt: u32) -> Fate {
        match self {
            Fate::Descending(hell) => if hell.countdown <= dt {
                Fate::Terminal
            } else {
                Fate::Descending(IsGoingToHell { countdown: (hell.countdown - dt) as u32 })
            },
            other => other,
        }
    }

    /// Computes [`Fate::is_dead`].
    pub fn dead(&self) -> (r: bool)
        ensures
            r == self.is_dead(),
    {
        match self {
            Fate::Alive => false,
            _ => true,
        }
    }

    /// Computes [`Fate::seen`].
    pub fn detect(self) -> (next: Fate)
        ensures
            next == self.seen(),
    {
        match self {
            Fate::Alive => Fate::Detected,
            other => other,
        }
    }

    /// Computes [`Fate::sunk`].
    pub fn descend(self) -> (next: Fate)
        ensures
            next == self.sunk(),
    {
        match self {
            Fate::Detected => Fate::Descending(IsGoingToHell { countdown: HELL_DELAY }),
            other => other,
        }
    }
}

/// The action of a player whose fate is `fate`: while the player descends
/// the death animation is wanted.
pub open spec fn mourned(action: Action, fate: Fate) -> Action {
    if fate is Descending {
        Action { current_track: action.current_track, new_track: NlaTrack::Die }
    } else {
        action
    }
}

/// The screen to show after a tick of length `dt`: hell once the countdown
/// has run out, and no other otherwise.
pub open spec fn sentence(fate: Fate, dt: u32) -> Option<Screen> {
    if fate.runs_out(dt) {
        Some(Screen::Hell)
    } else {
        None
    }
}

/// Runs the countdown of a seen player for a tick of length `dt`. While the
/// player descends the death animation is asked for and the countdown loses
/// `dt`; in the tick in which it reaches zero or less the fate becomes
/// terminal and the hell screen is requested. At every other stage nothing
/// happens.
pub fn go_to_hell(fate: &mut Fate, action: &mut Action, dt: u32) -> (next_screen: Option<Screen>)
    ensures
        *final(fate) == old(fate).after(dt),
        *final(action) == mourned(*old(action), *old(fate)),
        next_screen == sentence(*old(fate), dt),
{
    match *fate {
        Fate::Descending(hell) => {
            action.new_track = NlaTrack::Die;
            if hell.countdown <= dt {
                *fate = Fate::Terminal;
                Some(Screen::Hell)
            } else {
                *fate = Fate::Descending(IsGoingToHell { countdown: hell.countdown - dt });
                None
            }
        },
        _ => None,
    }
}

/// A countdown that a tick uses up fires within that tick, not in the next:
/// the fate becomes terminal and the hell screen is requested at once.
pub proof fn lemma_spent_countdown_fires(countdown: u32, dt: u32)
    requires
        countdown <= dt,
    ensures
        Fate::Descending((IsGoingToHell { countdown })).after(dt) == Fate::Terminal,
        sentence(Fate::Descending((IsGoingToHell { countdown })), dt) == Some(Screen::Hell),
{
}

/// The stages are never left backwards: after a tick a seen player is still
/// seen, and a terminal fate stays terminal.
pub proof fn lemma_fate_only_advances(fate: Fate, dt: u32)
    ensures
        fate.is_dead() ==> fate.after(dt).is_dead(),
        fate == Fate::Terminal ==> fate.after(dt) == Fate::Terminal,
        fate.after(dt) == Fate::Terminal <==> fate == Fate::Terminal || fate.runs_out(dt),
        fate.seen().is_dead(),
        fate.seen().sunk() != Fate::Detected,
{
}

} // verus!
