use lorenz_view::{Direction, KeyEvent, Session, CAPACITY};

#[test]
fn new_session_advances_and_moves_nowhere() {
    let s: Session<u32> = Session::new();
    let plan = s.on_tick();
    assert!(plan.advance);
    assert!(plan.moves.is_empty());
    assert_eq!(s.trajectory().len(), 0);
    assert!(s.keys().held().is_empty());
}

#[test]
fn key_events_update_the_held_set_only() {
    let mut s: Session<u32> = Session::new();
    s.record(4);
    s.on_input(KeyEvent::Pressed(Direction::Left));
    s.on_input(KeyEvent::Pressed(Direction::Forward));
    assert_eq!(s.on_tick().moves, vec![Direction::Forward, Direction::Left]);
    assert_eq!(s.trajectory().points(), &vec![4]);
    s.on_input(KeyEvent::Released(Direction::Forward));
    assert_eq!(s.on_tick().moves, vec![Direction::Left]);
    s.on_input(KeyEvent::Released(Direction::Forward));
    assert_eq!(s.on_tick().moves, vec![Direction::Left]);
    s.on_input(KeyEvent::Released(Direction::Left));
    assert!(s.on_tick().moves.is_empty());
    assert_eq!(s.trajectory().points(), &vec![4]);
}

#[test]
fn recording_leaves_the_keys_alone() {
    let mut s: Session<u32> = Session::new();
    s.on_input(KeyEvent::Pressed(Direction::Back));
    assert!(s.record(1));
    assert!(s.record(2));
    assert!(s.keys().is_held(Direction::Back));
    assert_eq!(s.trajectory().points(), &vec![1, 2]);
}

#[test]
fn ticks_stop_advancing_at_the_cap() {
    let mut s: Session<usize> = Session::new();
    let mut ticks = 0usize;
    while ticks < CAPACITY + 50 {
        let plan = s.on_tick();
        assert_eq!(plan.advance, ticks < CAPACITY);
        if plan.advance {
            assert!(s.record(ticks));
        }
        ticks += 1;
        assert_eq!(s.trajectory().len(), ticks.min(CAPACITY));
    }
    assert!(!s.record(0));
    assert_eq!(s.trajectory().len(), CAPACITY);
    assert_eq!(s.trajectory().get(CAPACITY - 1), Some(&(CAPACITY - 1)));
}

#[test]
fn camera_still_moves_when_the_trajectory_is_full() {
    let mut s: Session<u8> = Session::new();
    for _ in 0..CAPACITY {
        s.record(0);
    }
    s.on_input(KeyEvent::Pressed(Direction::Right));
    let plan = s.on_tick();
    assert!(!plan.advance);
    assert_eq!(plan.moves, vec![Direction::Right]);
}
