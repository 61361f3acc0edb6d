use landsknecht::collisions::active_collisions;
use landsknecht::collisions::apply_collision_event;
use landsknecht::collisions::ActiveCollisions;
use landsknecht::collisions::CollisionEvent;

const PLAYER: u64 = 1;
const O1: u64 = 10;
const O2: u64 = 11;

#[test]
fn start_then_stop_leaves_empty() {
    let mut ac = ActiveCollisions::new();
    let events = vec![
        CollisionEvent::Started(PLAYER, O1),
        CollisionEvent::Stopped(PLAYER, O1),
    ];
    active_collisions(&mut ac, PLAYER, &events);
    assert_eq!(ac.len(), 0);
    assert!(!ac.is_touching(O1));
}

#[test]
fn two_starts_one_stop_keeps_the_other() {
    let mut ac = ActiveCollisions::new();
    let events = vec![
        CollisionEvent::Started(PLAYER, O1),
        CollisionEvent::Started(PLAYER, O2),
        CollisionEvent::Stopped(PLAYER, O1),
    ];
    active_collisions(&mut ac, PLAYER, &events);
    assert_eq!(ac.len(), 1);
    assert!(!ac.is_touching(O1));
    assert!(ac.is_touching(O2));
}

#[test]
fn untracked_events_are_noops() {
    let mut ac = ActiveCollisions::new();
    let events = vec![
        CollisionEvent::Started(O1, O2),
        CollisionEvent::Stopped(O2, O1),
    ];
    active_collisions(&mut ac, PLAYER, &events);
    assert_eq!(ac.len(), 0);
    assert!(!ac.is_touching(O1));
    assert!(!ac.is_touching(O2));
}

#[test]
fn owner_on_either_side_is_tracked() {
    let mut ac = ActiveCollisions::new();
    apply_collision_event(&mut ac, PLAYER, &CollisionEvent::Started(O1, PLAYER));
    assert!(ac.is_touching(O1));
    apply_collision_event(&mut ac, PLAYER, &CollisionEvent::Stopped(O1, PLAYER));
    assert!(!ac.is_touching(O1));
}

#[test]
fn stored_event_is_the_start() {
    let mut ac = ActiveCollisions::new();
    let ev = CollisionEvent::Started(PLAYER, O1);
    apply_collision_event(&mut ac, PLAYER, &ev);
    assert_eq!(ac.0.get(&O1), Some(&ev));
}

#[test]
fn stop_without_start_is_harmless() {
    let mut ac = ActiveCollisions::new();
    apply_collision_event(&mut ac, PLAYER, &CollisionEvent::Stopped(PLAYER, O1));
    assert_eq!(ac.len(), 0);
}

#[test]
fn restart_after_stop_tracks_again() {
    let mut ac = ActiveCollisions::new();
    let events = vec![
        CollisionEvent::Started(PLAYER, O1),
        CollisionEvent::Stopped(PLAYER, O1),
        CollisionEvent::Started(O1, PLAYER),
    ];
    active_collisions(&mut ac, PLAYER, &events);
    assert_eq!(ac.len(), 1);
    assert!(ac.is_touching(O1));
}
