use jamprogamer::actor::Npc;
use jamprogamer::ghost::{move_ghosts, GhostPath};
use jamprogamer::timeloop::{GhostActor, Timeloop};
use jamprogamer::vector::{Transform, Vector, WORLD};

fn walked() -> GhostPath {
    let mut path = GhostPath::new();
    path.record(4000, Vector::new(8000, 0, 0));
    path.record(6000, Vector::new(8000, 0, -3000));
    path.record(36_000, Vector::new(-4000, 0, -3000));
    path
}

#[test]
fn record_starts_at_the_origin() {
    let path = GhostPath::new();
    assert_eq!(path.points, vec![(0, Vector::new(0, 0, 0))]);
    assert!(path.is_wf());
    assert_eq!(GhostPath::default().points, path.points);
}

#[test]
fn record_only_grows() {
    let path = walked();
    assert_eq!(
        path.points,
        vec![
            (0, Vector::new(0, 0, 0)),
            (4000, Vector::new(8000, 0, 0)),
            (6000, Vector::new(8000, 0, -3000)),
            (36_000, Vector::new(-4000, 0, -3000)),
        ]
    );
    assert!(path.is_wf());
}

#[test]
fn record_with_a_sample_outside_the_world_is_not_well_formed() {
    let mut path = walked();
    path.points.push((40_000, Vector::new(0, WORLD + 1, 0)));
    assert!(!path.is_wf());
}

#[test]
fn replay_interpolates_between_samples() {
    let path = walked();
    let pose = path.pose_at(1000, 30_000).unwrap();
    assert_eq!(pose.translation, Vector::new(2000, 0, 0));
    assert_eq!(pose.facing, Vector::new(8000, 0, 0));
    let pose = path.pose_at(5000, 30_000).unwrap();
    assert_eq!(pose.translation, Vector::new(8000, 0, -1500));
    assert_eq!(pose.facing, Vector::new(0, 0, -3000));
}

#[test]
fn replay_at_a_sample_stands_on_it() {
    let path = walked();
    assert_eq!(path.pose_at(0, 30_000).unwrap().translation, Vector::new(0, 0, 0));
    assert_eq!(path.pose_at(4000, 30_000).unwrap().translation, Vector::new(8000, 0, 0));
    assert_eq!(path.pose_at(6000, 30_000).unwrap().translation, Vector::new(8000, 0, -3000));
}

#[test]
fn replay_reads_across_the_end_of_a_loop() {
    let path = walked();
    let pose = path.pose_at(31_000, 30_000).unwrap();
    assert_eq!(pose.translation, Vector::new(-2000, 0, -3000));
    assert_eq!(pose.facing, Vector::new(-12_000, 0, 0));
}

#[test]
fn replay_ends_with_the_record() {
    let path = walked();
    assert_eq!(path.pose_at(36_000, 30_000), None);
    assert_eq!(path.pose_at(u64::MAX, 30_000), None);
    assert_eq!(GhostPath::new().pose_at(0, 30_000), None);
}

#[test]
fn replay_before_the_first_sample_starts_from_the_origin() {
    let path = GhostPath { points: vec![(2000, Vector::new(6000, 0, -2000))] };
    let pose = path.pose_at(500, 30_000).unwrap();
    assert_eq!(pose.translation, Vector::new(1500, 0, -500));
    assert_eq!(pose.facing, Vector::new(6000, 0, -2000));
    let second = GhostPath {
        points: vec![(2000, Vector::new(6000, 0, -2000)), (3000, Vector::new(0, 0, 0))],
    };
    assert_eq!(second.pose_at(500, 30_000).unwrap().translation, Vector::new(1500, 0, -500));
}

#[test]
fn replay_takes_the_first_later_sample_of_an_unordered_record() {
    let path = GhostPath {
        points: vec![
            (0, Vector::new(0, 0, 0)),
            (29_000, Vector::new(1000, 0, 0)),
            (1000, Vector::new(2000, 0, 0)),
            (40_000, Vector::new(3000, 0, 0)),
        ],
    };
    assert_eq!(path.pose_at(500, 30_000).unwrap().translation, Vector::new(17, 0, 0));
    let pose = path.pose_at(29_500, 30_000).unwrap();
    assert_eq!(pose.facing, Vector::new(1000, 0, 0));
    assert_eq!(pose.translation, Vector::new(2730, 0, 0));
}

#[test]
fn ghost_reads_its_own_generation() {
    let path = walked();
    let clock = Timeloop { current_time: 1000, max_time: 30_000, gen: 1 };
    let mut first = Npc::new(Vector::new(0, 0, 0), Vector::new(0, 0, 0));
    assert!(move_ghosts(&clock, &GhostActor { gen: 0 }, &path, &mut first));
    assert_eq!(
        first.transform,
        Transform { translation: Vector::new(2000, 0, 0), facing: Vector::new(8000, 0, 0) }
    );
    let mut second = Npc::new(Vector::new(0, 0, 0), Vector::new(0, 0, 0));
    assert!(move_ghosts(&clock, &GhostActor { gen: 1 }, &path, &mut second));
    assert_eq!(
        second.transform,
        Transform { translation: Vector::new(-2000, 0, -3000), facing: Vector::new(-12_000, 0, 0) }
    );
}

#[test]
fn ghost_without_history_stays() {
    let path = walked();
    let clock = Timeloop { current_time: 1000, max_time: 30_000, gen: 3 };
    let mut npc = Npc::new(Vector::new(5, 6, 7), Vector::new(0, 0, 1000));
    let before = npc;
    assert!(!move_ghosts(&clock, &GhostActor { gen: 2 }, &path, &mut npc));
    assert_eq!(npc, before);
}

#[test]
fn knocked_out_ghost_stays() {
    let path = walked();
    let clock = Timeloop { current_time: 1000, max_time: 30_000, gen: 1 };
    let mut npc = Npc::new(Vector::new(5, 6, 7), Vector::new(0, 0, 1000));
    npc.is_dead = true;
    let before = npc;
    assert!(!move_ghosts(&clock, &GhostActor { gen: 0 }, &path, &mut npc));
    assert_eq!(npc, before);
}

#[test]
fn highest_generation_does_not_overflow() {
    let path = GhostPath { points: vec![(u32::MAX, Vector::new(1000, 0, 0))] };
    let clock = Timeloop { current_time: u32::MAX, max_time: u32::MAX, gen: u16::MAX };
    let mut npc = Npc::new(Vector::new(0, 0, 0), Vector::new(0, 0, 0));
    assert!(!move_ghosts(&clock, &GhostActor { gen: u16::MAX }, &path, &mut npc));
    let early = Timeloop { current_time: 0, max_time: u32::MAX, gen: 0 };
    assert!(move_ghosts(&early, &GhostActor { gen: 0 }, &path, &mut npc));
    assert_eq!(npc.transform.translation, Vector::new(0, 0, 0));
}
