//! Tests for the time scheduler: deadline ordering, insertion-order
//! tie-break, never-early popping, and clearing.

use redoxbombs::events::GameEvent;
use redoxbombs::time::{TimeController, Timeout, MAX_EVENT_DELAY_MILLIS};

#[test]
fn scheduler_pops_in_deadline_order() {
    let mut t = TimeController::new();
    // Scheduled out of deadline order: deadlines 500, 100, 300.
    t.schedule_event_in(0, 500, GameEvent::EnemyMove { id: 0 });
    t.schedule_event_in(0, 100, GameEvent::BombExplode { id: 1 });
    t.schedule_event_in(0, 300, GameEvent::FirePutOut { id: 2 });

    assert_eq!(t.pop_event(1000), Some(GameEvent::BombExplode { id: 1 }));
    assert_eq!(t.pop_event(1000), Some(GameEvent::FirePutOut { id: 2 }));
    assert_eq!(t.pop_event(1000), Some(GameEvent::EnemyMove { id: 0 }));
    assert_eq!(t.pop_event(1000), None);
}

#[test]
fn scheduler_never_pops_early() {
    let mut t = TimeController::new();
    t.schedule_event_in(100, 400, GameEvent::BombExplode { id: 0 });

    assert_eq!(t.pop_event(0), None);
    assert_eq!(t.pop_event(499), None);
    assert_eq!(t.pop_event(500), Some(GameEvent::BombExplode { id: 0 }));
}

#[test]
fn scheduler_breaks_ties_by_scheduling_order() {
    let mut t = TimeController::new();
    // Both expire at clock reading 600.
    t.schedule_event_in(100, 500, GameEvent::EnemyMove { id: 7 });
    t.schedule_event_in(300, 300, GameEvent::EnemyMove { id: 8 });

    assert_eq!(t.pop_event(600), Some(GameEvent::EnemyMove { id: 7 }));
    assert_eq!(t.pop_event(600), Some(GameEvent::EnemyMove { id: 8 }));
}

#[test]
fn scheduler_interleaves_ready_and_pending() {
    let mut t = TimeController::new();
    t.schedule_event_in(0, 200, GameEvent::FireInit { id: 0 });
    t.schedule_event_in(0, 800, GameEvent::FirePutOut { id: 0 });

    assert_eq!(t.pop_event(500), Some(GameEvent::FireInit { id: 0 }));
    assert_eq!(t.pop_event(500), None);
    assert_eq!(t.pop_event(800), Some(GameEvent::FirePutOut { id: 0 }));
}

#[test]
fn scheduler_clear_discards_everything() {
    let mut t = TimeController::new();
    t.schedule_event_in(0, 1, GameEvent::EnemyMove { id: 0 });
    t.schedule_event_in(0, 2, GameEvent::EnemyMove { id: 1 });
    t.clear();

    assert_eq!(t.pop_event(u64::MAX - MAX_EVENT_DELAY_MILLIS), None);
}

#[test]
fn timeout_expiration() {
    let timeout = Timeout::new(120, 80, GameEvent::StairsCheckCollision);
    assert_eq!(timeout.expiration_time(), 200);
    assert!(!timeout.expired(199));
    assert!(timeout.expired(200));
    assert!(timeout.expired(201));
}
