use bevy::input::keyboard::KeyCode;
use bevy::input::ButtonInput;
use zelda_rs::interact::{
    absent, distance_squared, find_position, interact_system, InteractEvents, Interacter, Target,
};
use zelda_rs::units::Vec2;

const A: u64 = 11;
const B: u64 = 22;
const C: u64 = 33;
const ORIGIN: Vec2 = Vec2 { x: 0, y: 0 };

fn sorted(mut ids: Vec<u64>) -> Vec<u64> {
    ids.sort();
    ids
}

/// One pass with the interact key either going down in this frame or not.
fn pass(
    player: Vec2,
    overlaps: &Vec<u64>,
    sensor: &mut Interacter,
    targets: &Vec<Target>,
    interact: bool,
) -> Vec<InteractEvents> {
    let mut kb = ButtonInput::default();
    if interact {
        kb.press(KeyCode::KeyE);
    }
    interact_system(player, overlaps, sensor, targets, &kb, KeyCode::KeyE)
}

fn at(id: u64, x: i32, y: i32) -> Target {
    Target { id, position: Vec2 { x, y } }
}

#[test]
fn new_sensor_is_empty() {
    let sensor = Interacter::new();
    assert!(sensor.is_empty());
    assert!(!sensor.contains(&A));
    assert_eq!(sensor.ids(), vec![]);
    assert!(Interacter::default().is_empty());
}

#[test]
fn sensor_holds_what_it_was_given() {
    let sensor = Interacter::from_ids(&vec![B, A, B]);
    assert!(!sensor.is_empty());
    assert!(sensor.contains(&A));
    assert!(sensor.contains(&B));
    assert!(!sensor.contains(&C));
    assert_eq!(sorted(sensor.ids()), vec![A, B]);
}

#[test]
fn absent_is_the_negated_membership() {
    assert!(absent(&vec![], A));
    assert!(absent(&vec![B, C], A));
    assert!(!absent(&vec![B, A], A));
}

#[test]
fn overlap_change_emits_exit_and_enter() {
    let mut sensor = Interacter::from_ids(&vec![A, B]);
    let events = pass(ORIGIN, &vec![B, C], &mut sensor, &vec![], false);
    assert_eq!(events, vec![InteractEvents::Entered(C), InteractEvents::Exited(A)]);
    assert_eq!(sorted(sensor.ids()), vec![B, C]);
}

#[test]
fn events_are_the_symmetric_difference() {
    let before = vec![1, 2, 3, 4, 5, 6];
    let report = vec![9, 4, 8, 5, 6, 7];
    let mut sensor = Interacter::from_ids(&before);
    let events = pass(ORIGIN, &report, &mut sensor, &vec![], false);
    assert_eq!(events.len(), 6);
    assert_eq!(
        &events[..3],
        &[InteractEvents::Entered(9), InteractEvents::Entered(8), InteractEvents::Entered(7)]
    );
    let mut exited = vec![];
    for event in &events[3..] {
        match event {
            InteractEvents::Exited(id) => exited.push(*id),
            other => panic!("{other:?} among the exits"),
        }
    }
    assert_eq!(sorted(exited), vec![1, 2, 3]);
    assert_eq!(sorted(sensor.ids()), vec![4, 5, 6, 7, 8, 9]);
}

#[test]
fn repeated_report_entries_enter_once() {
    let mut sensor = Interacter::new();
    let events = pass(ORIGIN, &vec![B, A, B, A], &mut sensor, &vec![], false);
    assert_eq!(events, vec![InteractEvents::Entered(B), InteractEvents::Entered(A)]);
    assert_eq!(sorted(sensor.ids()), vec![A, B]);
}

#[test]
fn unchanged_overlaps_emit_nothing() {
    let mut sensor = Interacter::new();
    let report = vec![A, B, C];
    let first = pass(ORIGIN, &report, &mut sensor, &vec![], false);
    assert_eq!(first.len(), 3);
    for _ in 0..50 {
        assert_eq!(pass(ORIGIN, &report, &mut sensor, &vec![], false), vec![]);
        assert_eq!(sorted(sensor.ids()), vec![A, B, C]);
    }
}

#[test]
fn empty_sensor_and_empty_report_do_nothing() {
    let mut sensor = Interacter::new();
    let targets = vec![at(A, 1, 1)];
    assert_eq!(pass(ORIGIN, &vec![], &mut sensor, &targets, false), vec![]);
    assert_eq!(pass(ORIGIN, &vec![], &mut sensor, &targets, true), vec![]);
    assert!(sensor.is_empty());
}

#[test]
fn everything_exits_when_the_report_empties() {
    let mut sensor = Interacter::from_ids(&vec![A]);
    let events = pass(ORIGIN, &vec![], &mut sensor, &vec![], false);
    assert_eq!(events, vec![InteractEvents::Exited(A)]);
    assert!(sensor.is_empty());
}

#[test]
fn interact_toggles_the_nearest() {
    let mut sensor = Interacter::from_ids(&vec![A, B, C]);
    let targets = vec![at(A, 3000, 4000), at(B, -1000, 2000), at(C, 0, -9000)];
    let player = Vec2 { x: 0, y: 1000 };
    let events = pass(player, &vec![A, B, C], &mut sensor, &targets, true);
    assert_eq!(events, vec![InteractEvents::Toggled(B)]);
    assert_eq!(sorted(sensor.ids()), vec![A, B, C]);
}

#[test]
fn interact_breaks_ties_by_the_smaller_id() {
    let targets = vec![at(C, 5000, 0), at(A, -5000, 0), at(B, 0, 5000)];
    for report in [vec![A, B, C], vec![C, B, A], vec![B, C, A]] {
        let mut sensor = Interacter::from_ids(&report);
        let events = pass(ORIGIN, &report, &mut sensor, &targets, true);
        assert_eq!(events, vec![InteractEvents::Toggled(A)]);
    }
}

#[test]
fn interact_comes_after_enter_and_exit() {
    let mut sensor = Interacter::from_ids(&vec![A]);
    let targets = vec![at(B, 10, 10), at(C, 5, 5)];
    let events = pass(ORIGIN, &vec![B, C], &mut sensor, &targets, true);
    assert_eq!(
        events,
        vec![
            InteractEvents::Entered(B),
            InteractEvents::Entered(C),
            InteractEvents::Exited(A),
            InteractEvents::Toggled(C),
        ]
    );
    assert_eq!(sorted(sensor.ids()), vec![B, C]);
}

#[test]
fn interact_keeps_only_entities_with_a_position() {
    let mut sensor = Interacter::from_ids(&vec![A, B]);
    let targets = vec![at(B, 700, 0), at(C, 1, 0)];
    let events = pass(ORIGIN, &vec![A, B], &mut sensor, &targets, true);
    assert_eq!(events, vec![InteractEvents::Toggled(B)]);
    assert_eq!(sensor.ids(), vec![B]);
    let next = pass(ORIGIN, &vec![A, B], &mut sensor, &targets, false);
    assert_eq!(next, vec![InteractEvents::Entered(A)]);
}

#[test]
fn interact_fires_only_when_its_key_goes_down() {
    let targets = vec![at(A, 1, 1)];
    let report = vec![A];
    let mut sensor = Interacter::from_ids(&report);
    let mut kb = ButtonInput::default();
    kb.press(KeyCode::KeyE);
    let first = interact_system(ORIGIN, &report, &mut sensor, &targets, &kb, KeyCode::KeyE);
    assert_eq!(first, vec![InteractEvents::Toggled(A)]);
    kb.clear();
    assert!(kb.pressed(KeyCode::KeyE));
    let held = interact_system(ORIGIN, &report, &mut sensor, &targets, &kb, KeyCode::KeyE);
    assert_eq!(held, vec![]);
    let mut other = ButtonInput::default();
    other.press(KeyCode::KeyF);
    let wrong = interact_system(ORIGIN, &report, &mut sensor, &targets, &other, KeyCode::KeyE);
    assert_eq!(wrong, vec![]);
}

#[test]
fn interact_without_candidates_toggles_nothing() {
    let mut sensor = Interacter::from_ids(&vec![A]);
    let events = pass(ORIGIN, &vec![A], &mut sensor, &vec![at(B, 0, 0)], true);
    assert_eq!(events, vec![]);
    assert!(sensor.is_empty());
}

#[test]
fn first_target_with_an_id_gives_its_position() {
    let targets = vec![at(A, 1, 2), at(B, 3, 4), at(A, 5, 6)];
    assert_eq!(find_position(&targets, A), Some(Vec2 { x: 1, y: 2 }));
    assert_eq!(find_position(&targets, B), Some(Vec2 { x: 3, y: 4 }));
    assert_eq!(find_position(&targets, C), None);
}

#[test]
fn squared_distance_is_exact() {
    assert_eq!(distance_squared(Vec2 { x: 1, y: 2 }, Vec2 { x: 4, y: 6 }), 25);
    assert_eq!(distance_squared(ORIGIN, ORIGIN), 0);
    let far = distance_squared(Vec2 { x: i32::MIN, y: i32::MIN }, Vec2 { x: i32::MAX, y: i32::MAX });
    assert_eq!(far, 2 * (u32::MAX as u128) * (u32::MAX as u128));
}
