use jamprogamer::timeloop::{loop_time, GhostActor, Timeloop};

#[test]
fn new_clock_starts_first_loop() {
    let clock = Timeloop::new(30_000);
    assert_eq!(clock, Timeloop { current_time: 0, max_time: 30_000, gen: 0 });
}

#[test]
fn tick_inside_the_loop_only_adds_time() {
    let mut clock = Timeloop { current_time: 1200, max_time: 30_000, gen: 3 };
    let spawn = loop_time(&mut clock, 16);
    assert_eq!(spawn, None);
    assert_eq!(clock, Timeloop { current_time: 1216, max_time: 30_000, gen: 3 });
}

#[test]
fn reaching_the_end_exactly_does_not_wrap() {
    let mut clock = Timeloop { current_time: 29_000, max_time: 30_000, gen: 0 };
    let spawn = loop_time(&mut clock, 1000);
    assert_eq!(spawn, None);
    assert_eq!(clock, Timeloop { current_time: 30_000, max_time: 30_000, gen: 0 });
}

#[test]
fn passing_the_end_wraps_and_spawns_one_ghost() {
    let mut clock = Timeloop { current_time: 29_990, max_time: 30_000, gen: 0 };
    let spawn = loop_time(&mut clock, 16);
    assert_eq!(spawn, Some(GhostActor { gen: 1 }));
    assert_eq!(clock, Timeloop { current_time: 6, max_time: 30_000, gen: 1 });
}

#[test]
fn overshoot_from_a_fresh_loop_wraps_once() {
    let mut clock = Timeloop::new(30_000);
    let spawn = loop_time(&mut clock, 30_000 + 16);
    assert_eq!(spawn, Some(GhostActor { gen: 1 }));
    assert_eq!(clock.gen, 1);
    assert_eq!(clock.current_time, 16);
    assert_eq!(clock.max_time, 30_000);
}

#[test]
fn a_tick_of_several_periods_still_wraps_once() {
    let mut clock = Timeloop { current_time: 10, max_time: 30_000, gen: 4 };
    let spawn = loop_time(&mut clock, 3 * 30_000 + 5);
    assert_eq!(spawn, Some(GhostActor { gen: 5 }));
    assert_eq!(clock, Timeloop { current_time: 15, max_time: 30_000, gen: 5 });
}

#[test]
fn wrapping_from_the_end_of_the_loop() {
    let mut clock = Timeloop { current_time: 30_000, max_time: 30_000, gen: 1 };
    let spawn = loop_time(&mut clock, 1);
    assert_eq!(spawn, Some(GhostActor { gen: 2 }));
    assert_eq!(clock.current_time, 1);
}

#[test]
fn largest_tick_does_not_overflow() {
    let mut clock = Timeloop { current_time: u32::MAX, max_time: u32::MAX, gen: 0 };
    let spawn = loop_time(&mut clock, u32::MAX);
    assert_eq!(spawn, Some(GhostActor { gen: 1 }));
    assert_eq!(clock.current_time, 0);
}

#[test]
fn room_is_needed_only_for_a_wrap() {
    let zero = Timeloop { current_time: 0, max_time: 0, gen: 0 };
    assert!(zero.has_room(0));
    assert!(!zero.has_room(1));
    let full = Timeloop { current_time: 5, max_time: 10, gen: u16::MAX };
    assert!(full.has_room(5));
    assert!(!full.has_room(6));
    let usual = Timeloop { current_time: 5, max_time: 10, gen: 7 };
    assert!(usual.has_room(u32::MAX));
}

#[test]
fn zero_tick_changes_nothing() {
    let mut clock = Timeloop { current_time: 0, max_time: 0, gen: 9 };
    assert_eq!(loop_time(&mut clock, 0), None);
    assert_eq!(clock, Timeloop { current_time: 0, max_time: 0, gen: 9 });
}

#[test]
fn clock_without_a_level_stands_still() {
    let clock = Timeloop::default();
    assert_eq!(clock, Timeloop { current_time: 0, max_time: 0, gen: 0 });
    assert_eq!(GhostActor::default(), GhostActor { gen: 0 });
}
