use jamprogamer::action::NlaTrack;
use jamprogamer::actor::{Npc, Player};
use jamprogamer::fate::{Fate, IsGoingToHell};
use jamprogamer::geometry::Wall;
use jamprogamer::sight::{can_see, detect_player, is_blocked, is_near, kill_npcs, within_cone};
use jamprogamer::vector::{Transform, Vector, WORLD};

fn guard_at_origin() -> Npc {
    Npc::new(Vector::new(0, 0, 0), Vector::new(0, 0, 1000))
}

fn player_at(x: i32, z: i32) -> Player {
    Player::new(Vector::new(x, 0, z), Vector::new(0, 0, 1000))
}

fn looking(facing: Vector) -> Transform {
    Transform { translation: Vector::new(0, 0, 0), facing }
}

#[test]
fn target_straight_ahead_is_in_the_cone() {
    let guard = looking(Vector::new(0, 0, 1000));
    assert!(within_cone(&guard, Vector::new(0, 0, 5000)));
    assert!(within_cone(&guard, Vector::new(0, 0, 1)));
}

#[test]
fn cone_is_open_at_a_quarter_of_pi() {
    let guard = looking(Vector::new(0, 0, 1000));
    assert!(!within_cone(&guard, Vector::new(1000, 0, 1000)));
    assert!(!within_cone(&guard, Vector::new(-1000, 0, 1000)));
    assert!(within_cone(&guard, Vector::new(999, 0, 1000)));
    assert!(within_cone(&guard, Vector::new(-999, 0, 1000)));
    assert!(!within_cone(&guard, Vector::new(1001, 0, 1000)));
    assert!(!within_cone(&guard, Vector::new(0, 1000, 1000)));
    assert!(within_cone(&guard, Vector::new(0, 999, 1000)));
}

#[test]
fn target_beside_or_behind_is_outside_the_cone() {
    let guard = looking(Vector::new(0, 0, 1000));
    assert!(!within_cone(&guard, Vector::new(5000, 0, 0)));
    assert!(!within_cone(&guard, Vector::new(0, 0, -5000)));
    assert!(!within_cone(&guard, Vector::new(3000, 0, -3000)));
    assert!(!within_cone(&guard, Vector::new(-5000, 0, 4000)));
}

#[test]
fn cone_does_not_depend_on_the_length_of_the_facing() {
    for facing in [Vector::new(0, 0, 1), Vector::new(0, 0, 1000), Vector::new(0, 0, 2 * WORLD)] {
        let guard = looking(facing);
        assert!(within_cone(&guard, Vector::new(999, 0, 1000)));
        assert!(!within_cone(&guard, Vector::new(1000, 0, 1000)));
    }
    let slanted = looking(Vector::new(3000, 0, 3000));
    assert!(within_cone(&slanted, Vector::new(10, 0, 1000)));
    assert!(!within_cone(&slanted, Vector::new(0, 0, 1000)));
    assert!(!within_cone(&slanted, Vector::new(1000, 0, 0)));
    assert!(within_cone(&slanted, Vector::new(1000, 0, 1)));
}

#[test]
fn guard_without_facing_or_distance_sees_nothing() {
    assert!(!within_cone(&looking(Vector::new(0, 0, 0)), Vector::new(0, 0, 5000)));
    assert!(!within_cone(&looking(Vector::new(0, 0, 1000)), Vector::new(0, 0, 0)));
}

#[test]
fn cone_is_decided_at_the_edge_of_the_world() {
    let guard = Transform {
        translation: Vector::new(-WORLD, -WORLD, -WORLD),
        facing: Vector::new(2 * WORLD, 2 * WORLD, 2 * WORLD),
    };
    assert!(within_cone(&guard, Vector::new(WORLD, WORLD, WORLD)));
    assert!(!within_cone(&guard, Vector::new(WORLD, -WORLD, -WORLD)));
    let back = Transform {
        translation: Vector::new(WORLD, WORLD, WORLD),
        facing: Vector::new(2 * WORLD, 2 * WORLD, 2 * WORLD),
    };
    assert!(!within_cone(&back, Vector::new(-WORLD, -WORLD, -WORLD)));
}

#[test]
fn any_wall_in_the_way_blocks() {
    let beside = Wall { center: Vector::new(9000, 0, 2500), half_x: 1000, half_z: 1000 };
    let across = Wall { center: Vector::new(0, 0, 2500), half_x: 5000, half_z: 1000 };
    let from = Vector::new(0, 0, 0);
    let to = Vector::new(0, 0, 5000);
    assert!(!is_blocked(&vec![], from, to));
    assert!(!is_blocked(&vec![beside], from, to));
    assert!(is_blocked(&vec![across], from, to));
    assert!(is_blocked(&vec![across, beside], from, to));
    assert!(is_blocked(&vec![beside, across], from, to));
    assert!(is_blocked(&vec![beside, across, beside], from, to));
}

#[test]
fn unhidden_player_in_the_cone_is_caught() {
    let mut player = player_at(0, 5000);
    let mut guards = vec![guard_at_origin()];
    let walls = vec![Wall { center: Vector::new(9000, 0, 2500), half_x: 1000, half_z: 1000 }];
    assert!(detect_player(&mut player, &mut guards, &walls));
    assert_eq!(player.fate, Fate::Descending(IsGoingToHell { countdown: 500 }));
    assert_eq!(player.transform, player_at(0, 5000).transform);
    assert_eq!(player.action, player_at(0, 5000).action);
    assert!(guards[0].is_shooting);
    assert!(!guards[0].is_dead);
    assert_eq!(guards[0].action.new_track, NlaTrack::Shoot);
    assert_eq!(guards[0].action.current_track, NlaTrack::Idle);
    assert_eq!(guards[0].transform.translation, Vector::new(0, 0, 0));
    assert_eq!(guards[0].transform.facing, Vector::new(0, 0, 5000));
}

#[test]
fn guard_turns_to_the_player_it_has_seen() {
    let mut player = player_at(2000, 5000);
    let mut guards = vec![Npc::new(Vector::new(-1000, 0, 1000), Vector::new(0, 0, 1000))];
    assert!(detect_player(&mut player, &mut guards, &vec![]));
    assert_eq!(guards[0].transform.facing, Vector::new(3000, 0, 4000));
}

#[test]
fn wall_across_the_line_of_sight_hides_the_player() {
    let mut player = player_at(0, 5000);
    let mut guards = vec![guard_at_origin()];
    let walls = vec![
        Wall { center: Vector::new(9000, 0, 2500), half_x: 1000, half_z: 1000 },
        Wall { center: Vector::new(0, 0, 2500), half_x: 5000, half_z: 1000 },
        Wall { center: Vector::new(-9000, 0, 2500), half_x: 1000, half_z: 1000 },
    ];
    assert!(!detect_player(&mut player, &mut guards, &walls));
    assert_eq!(player, player_at(0, 5000));
    assert_eq!(guards, vec![guard_at_origin()]);
}

#[test]
fn wall_around_guard_and_player_hides_nothing() {
    let mut player = player_at(0, 5000);
    let mut guards = vec![guard_at_origin()];
    let walls = vec![Wall { center: Vector::new(0, 0, 2500), half_x: 5000, half_z: 5000 }];
    assert!(!is_blocked(&walls, Vector::new(0, 0, 0), Vector::new(0, 0, 5000)));
    assert!(detect_player(&mut player, &mut guards, &walls));
}

#[test]
fn player_outside_the_cone_is_never_caught() {
    let spots = [(5000, 4999), (5000, 0), (-5000, 1000), (0, -5000), (3000, -100), (-1, -1)];
    let no_walls: Vec<Wall> = vec![];
    let far_wall = vec![Wall { center: Vector::new(0, 0, 90_000), half_x: 1000, half_z: 1000 }];
    let near_wall = vec![Wall { center: Vector::new(2000, 0, 2000), half_x: 500, half_z: 500 }];
    for (x, z) in spots {
        for walls in [&no_walls, &far_wall, &near_wall] {
            let mut player = player_at(x, z);
            let mut guards = vec![guard_at_origin()];
            assert!(!detect_player(&mut player, &mut guards, walls));
            assert_eq!(player.fate, Fate::Alive);
            assert_eq!(guards, vec![guard_at_origin()]);
        }
    }
}

#[test]
fn knocked_out_guard_sees_nothing() {
    let mut player = player_at(0, 5000);
    let mut out = guard_at_origin();
    out.is_dead = true;
    let mut guards = vec![out];
    assert!(!can_see(&out, player.transform.translation, &vec![]));
    assert!(!detect_player(&mut player, &mut guards, &vec![]));
    assert_eq!(guards, vec![out]);
    assert_eq!(player.fate, Fate::Alive);
}

#[test]
fn seen_player_is_not_looked_for_again() {
    let running = Fate::Descending(IsGoingToHell { countdown: 120 });
    for fate in [Fate::Detected, running, Fate::Terminal] {
        let mut player = player_at(0, 5000);
        player.fate = fate;
        let mut guards = vec![guard_at_origin()];
        assert!(!detect_player(&mut player, &mut guards, &vec![]));
        assert_eq!(player.fate, fate);
        assert_eq!(guards, vec![guard_at_origin()]);
    }
}

#[test]
fn every_guard_that_sees_the_player_shoots() {
    let mut player = player_at(0, 5000);
    let away = Npc::new(Vector::new(0, 0, 9000), Vector::new(0, 0, 1000));
    let second = Npc::new(Vector::new(-4000, 0, 5000), Vector::new(1000, 0, 0));
    let mut guards = vec![away, guard_at_origin(), second];
    assert!(detect_player(&mut player, &mut guards, &vec![]));
    assert_eq!(guards[0], away);
    assert!(guards[1].is_shooting);
    assert!(guards[2].is_shooting);
    assert_eq!(guards[2].transform.facing, Vector::new(4000, 0, 0));
    assert_eq!(player.fate, Fate::Descending(IsGoingToHell { countdown: 500 }));
}

#[test]
fn nobody_there_nobody_caught() {
    let mut player = player_at(0, 5000);
    let mut guards: Vec<Npc> = vec![];
    assert!(!detect_player(&mut player, &mut guards, &vec![]));
    assert_eq!(player.fate, Fate::Alive);
}

#[test]
fn characters_within_a_unit_are_knocked_out() {
    let player = player_at(0, 0);
    let close = Npc::new(Vector::new(600, 0, -799), Vector::new(0, 0, 1000));
    let at_a_unit = Npc::new(Vector::new(600, 0, 800), Vector::new(0, 0, 1000));
    let above = Npc::new(Vector::new(0, 1000, 0), Vector::new(0, 0, 1000));
    let mut gone = Npc::new(Vector::new(90_000, 0, 0), Vector::new(0, 0, 1000));
    gone.is_dead = true;
    let mut npcs = vec![close, at_a_unit, above, gone];
    kill_npcs(&player, &mut npcs);
    let mut fallen = close;
    fallen.is_dead = true;
    assert_eq!(npcs, vec![fallen, at_a_unit, above, gone]);
}

#[test]
fn nearness_is_decided_over_the_whole_coordinate_range() {
    assert!(is_near(Vector::new(i32::MAX, 0, 0), Vector::new(i32::MAX - 999, 0, 0)));
    let highest = Vector::new(i32::MAX, i32::MAX, i32::MAX);
    let lowest = Vector::new(i32::MIN, i32::MIN, i32::MIN);
    assert!(!is_near(highest, lowest));
    assert!(is_near(Vector::new(5, 5, 5), Vector::new(5, 5, 5)));
}

#[test]
fn seen_player_knocks_out_too() {
    let mut player = player_at(0, 0);
    player.fate = Fate::Terminal;
    let mut npcs = vec![Npc::new(Vector::new(0, 0, 10), Vector::new(0, 0, 1000))];
    kill_npcs(&player, &mut npcs);
    assert!(npcs[0].is_dead);
}
