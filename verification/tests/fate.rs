use jamprogamer::action::{animate, clip_of, Action, NlaTrack};
use jamprogamer::fate::{go_to_hell, Fate, IsGoingToHell, HELL_DELAY};
use jamprogamer::screen::{handle_hell_action, handle_win_action, HellAction, Screen, WinAction};

fn idle() -> Action {
    Action { current_track: NlaTrack::Idle, new_track: NlaTrack::Walk }
}

#[test]
fn countdown_that_runs_out_fires_in_the_same_tick() {
    let mut fate = Fate::Descending(IsGoingToHell { countdown: 500 });
    let mut action = idle();
    let next = go_to_hell(&mut fate, &mut action, 600);
    assert_eq!(next, Some(Screen::Hell));
    assert_eq!(fate, Fate::Terminal);
    assert_eq!(action.new_track, NlaTrack::Die);
    assert_eq!(action.current_track, NlaTrack::Idle);
}

#[test]
fn countdown_that_reaches_zero_fires() {
    let mut fate = Fate::Descending(IsGoingToHell { countdown: 500 });
    let mut action = idle();
    assert_eq!(go_to_hell(&mut fate, &mut action, 500), Some(Screen::Hell));
    assert_eq!(fate, Fate::Terminal);
}

#[test]
fn countdown_runs_down_tick_by_tick() {
    let mut fate = Fate::Descending(IsGoingToHell { countdown: HELL_DELAY });
    let mut action = idle();
    assert_eq!(go_to_hell(&mut fate, &mut action, 200), None);
    assert_eq!(fate, Fate::Descending(IsGoingToHell { countdown: 300 }));
    assert_eq!(action.new_track, NlaTrack::Die);
    assert_eq!(go_to_hell(&mut fate, &mut action, 299), None);
    assert_eq!(fate, Fate::Descending(IsGoingToHell { countdown: 1 }));
    assert_eq!(go_to_hell(&mut fate, &mut action, 0), None);
    assert_eq!(fate, Fate::Descending(IsGoingToHell { countdown: 1 }));
    assert_eq!(go_to_hell(&mut fate, &mut action, 1), Some(Screen::Hell));
    assert_eq!(fate, Fate::Terminal);
}

#[test]
fn spent_countdown_fires_at_once() {
    let mut fate = Fate::Descending(IsGoingToHell { countdown: 0 });
    let mut action = idle();
    assert_eq!(go_to_hell(&mut fate, &mut action, 0), Some(Screen::Hell));
    assert_eq!(fate, Fate::Terminal);
}

#[test]
fn screen_is_requested_once() {
    let mut fate = Fate::Terminal;
    let mut action = idle();
    assert_eq!(go_to_hell(&mut fate, &mut action, 1000), None);
    assert_eq!(fate, Fate::Terminal);
    assert_eq!(action, idle());
}

#[test]
fn nothing_happens_to_the_living() {
    let mut action = idle();
    let mut fate = Fate::Alive;
    assert_eq!(go_to_hell(&mut fate, &mut action, u32::MAX), None);
    assert_eq!(fate, Fate::Alive);
    assert_eq!(action, idle());
    let mut fate = Fate::Detected;
    assert_eq!(go_to_hell(&mut fate, &mut action, u32::MAX), None);
    assert_eq!(fate, Fate::Detected);
    assert_eq!(action, idle());
}

#[test]
fn detection_leads_straight_to_the_descent() {
    assert_eq!(Fate::Alive.detect(), Fate::Detected);
    assert_eq!(Fate::Detected.descend(), Fate::Descending(IsGoingToHell { countdown: 500 }));
    assert_eq!(Fate::Alive.descend(), Fate::Alive);
    assert_eq!(Fate::Terminal.detect(), Fate::Terminal);
    assert_eq!(Fate::Terminal.descend(), Fate::Terminal);
    let running = Fate::Descending(IsGoingToHell { countdown: 20 });
    assert_eq!(running.detect().descend(), running);
    assert!(!Fate::Alive.dead());
    assert!(Fate::Detected.dead());
    assert!(running.dead());
    assert!(Fate::Terminal.dead());
}

#[test]
fn animation_follows_a_new_track() {
    let mut action = Action { current_track: NlaTrack::Idle, new_track: NlaTrack::Shoot };
    assert_eq!(animate(&mut action), Some(0));
    assert_eq!(action, Action { current_track: NlaTrack::Shoot, new_track: NlaTrack::Shoot });
    assert_eq!(animate(&mut action), None);
    assert_eq!(action, Action { current_track: NlaTrack::Shoot, new_track: NlaTrack::Shoot });
}

#[test]
fn every_track_has_its_clip() {
    assert_eq!(clip_of(NlaTrack::Shoot), 0);
    assert_eq!(clip_of(NlaTrack::Walk), 1);
    assert_eq!(clip_of(NlaTrack::Punch), 2);
    assert_eq!(clip_of(NlaTrack::Idle), 3);
    assert_eq!(clip_of(NlaTrack::Die), 4);
    let mut action = Action { current_track: NlaTrack::Walk, new_track: NlaTrack::Die };
    assert_eq!(animate(&mut action), Some(4));
    action.new_track = NlaTrack::Idle;
    assert_eq!(animate(&mut action), Some(3));
    action.new_track = NlaTrack::Punch;
    assert_eq!(animate(&mut action), Some(2));
    action.new_track = NlaTrack::Walk;
    assert_eq!(animate(&mut action), Some(1));
}

#[test]
fn game_opens_on_the_splash_screen() {
    assert_eq!(Screen::default(), Screen::Splash);
}

#[test]
fn way_back_from_hell_is_another_attempt() {
    assert_eq!(handle_hell_action(true, HellAction::Back), Some(Screen::Playing));
    assert_eq!(handle_hell_action(false, HellAction::Back), None);
}

#[test]
fn way_back_from_heaven_is_the_title() {
    assert_eq!(handle_win_action(true, WinAction::Back), Some(Screen::Title));
    assert_eq!(handle_win_action(false, WinAction::Back), None);
}
