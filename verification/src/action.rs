//! Which animation an entity plays, and when the playing clip has to change.

use vstd::prelude::*;

verus! {

/// The animation tracks of a character.
#[derive(Clone, Copy, Debug, PartialEq, Eq, Hash, Structural)]
pub enum NlaTrack {
    Walk,
    Idle,
    Shoot,
    Die,
    Punch,
}

/// The track an entity plays now and the track the simulation wants it to
/// play.
#[derive(Clone, Copy, Debug, PartialEq, Eq, Structural)]
pub struct Action {
    pub current_track: NlaTrack,
    pub new_track: NlaTrack,
}

/// The position of a track's clip in the list of a character's clips.
pub open spec fn clip_index(track: NlaTrack) -> usize {
    match track {
        NlaTrack::Shoot => 0,
        NlaTrack::Walk => 1,
        NlaTrack::Punch => 2,
        NlaTrack::Idle => 3,
        NlaTrack::Die => 4,
    }
}

/// Computes [`clip_index`].
pub fn clip_of(track: NlaTrack) -> (index: usize)
    ensures
        index == clip_index(track),
{
    match track {
        NlaTrack::Shoot => 0,
        NlaTrack::Walk => 1,
        NlaTrack::Punch => 2,
        NlaTrack::Idle => 3,
        NlaTrack::Die => 4,
    }
}

impl Action {
    /// The wanted track is not the one that plays.
    pub open spec fn is_stale(self) -> bool {
        self.new_track != self.current_track
    }

    /// The action once the wanted track plays.
    pub open spec fn followed(self) -> Action {
        Action { current_track: self.new_track, new_track: self.new_track }
    }

    /// The clip to start so that the wanted track plays, if it does not
    /// already.
    pub open spec fn cue(self) -> Option<usize> {
        if self.is_stale() {
            Some(clip_index(self.new_track))
        } else {
            None
        }
    }
}

/// Follows a change of the wanted track. When the wanted track differs from
/// the playing one, the wanted track becomes the playing one and the clip to
/// start is returned; otherwise nothing changes and nothing is returned.
pub fn animate(action: &mut Action) -> (clip: Option<usize>)
    ensures
        *final(action) == old(action).followed(),
        clip == old(action).cue(),
{
    if action.new_track != action.current_track {
        action.current_track = action.new_track;
        Some(clip_of(action.new_track))
    } else {
        None
    }
}

} // verus!
