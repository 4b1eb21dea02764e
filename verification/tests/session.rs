use tetris::control::{key_of, NORMAL_INTERVAL, SOFT_DROP_INTERVAL};
use tetris::{App, Direction, Event, Key, Kind, Session, Tetris};

#[test]
fn arrow_codes_name_their_keys() {
    assert_eq!(key_of("ArrowLeft"), Key::Left);
    assert_eq!(key_of("ArrowRight"), Key::Right);
    assert_eq!(key_of("ArrowUp"), Key::Up);
    assert_eq!(key_of("ArrowDown"), Key::Down);
}

#[test]
fn other_codes_name_no_key_of_the_game() {
    for code in ["", "Space", "KeyA", "arrowleft", "ArrowLeft ", "ArrowLef", "Enter"] {
        assert_eq!(key_of(code), Key::Other);
    }
}

#[test]
fn intervals_are_half_a_second_and_a_twentieth() {
    assert_eq!(NORMAL_INTERVAL, 500);
    assert_eq!(SOFT_DROP_INTERVAL, 50);
}

#[test]
fn session_starts_at_the_normal_interval() {
    let session = Session::new(Tetris::new(10, 20));
    assert_eq!(session.interval(), 500);
    assert_eq!(session.game().active(), Tetris::new(10, 20).active());
}

#[test]
fn down_arrow_shortens_the_interval_until_released() {
    let mut session = Session::new(Tetris::new(10, 20));
    assert!(session.handle(Event::KeyDown(Key::Down)));
    assert_eq!(session.interval(), 50);
    assert!(!session.handle(Event::KeyDown(Key::Down)));
    assert_eq!(session.interval(), 50);
    assert!(session.handle(Event::KeyUp(Key::Down)));
    assert_eq!(session.interval(), 500);
    assert!(!session.handle(Event::KeyUp(Key::Down)));
    assert_eq!(session.interval(), 500);
}

#[test]
fn down_arrow_does_not_move_the_piece() {
    let mut session = Session::new(Tetris::new(10, 20));
    let before = session.game().active();
    session.handle(Event::KeyDown(Key::Down));
    session.handle(Event::KeyUp(Key::Down));
    assert_eq!(session.game().active(), before);
}

#[test]
fn events_are_the_operations_of_the_game() {
    let mut session = Session::new(Tetris::with_sequence(10, 20, vec![Kind::T]));
    let mut game = Tetris::with_sequence(10, 20, vec![Kind::T]);
    assert!(!session.handle(Event::Tick));
    game.tick();
    assert_eq!(session.game().active(), game.active());
    assert!(!session.handle(Event::KeyDown(Key::Left)));
    game.shift_current_shape(Direction::Left);
    assert_eq!(session.game().active(), game.active());
    assert!(!session.handle(Event::KeyDown(Key::Up)));
    game.rotate();
    assert_eq!(session.game().active(), game.active());
    assert!(!session.handle(Event::KeyDown(Key::Right)));
    assert!(!session.handle(Event::KeyDown(Key::Right)));
    game.shift_current_shape(Direction::Right);
    game.shift_current_shape(Direction::Right);
    assert_eq!(session.game().active(), game.active());
    assert_eq!(session.interval(), 500);
}

#[test]
fn releases_and_other_keys_change_nothing() {
    let mut session = Session::new(Tetris::new(10, 20));
    session.handle(Event::Tick);
    let before = session.game().active();
    for event in [
        Event::KeyUp(Key::Left),
        Event::KeyUp(Key::Right),
        Event::KeyUp(Key::Up),
        Event::KeyUp(Key::Other),
        Event::KeyDown(Key::Other),
    ] {
        assert!(!session.handle(event));
        assert_eq!(session.game().active(), before);
        assert_eq!(session.interval(), 500);
    }
}

#[test]
fn options_take_their_defaults_where_nothing_is_given() {
    let app = App::from_dimensions(None, None);
    assert_eq!((app.width(), app.height()), (10, 30));
    let app = App::from_dimensions(Some(4), None);
    assert_eq!((app.width(), app.height()), (4, 30));
    let app = App::from_dimensions(None, Some(6));
    assert_eq!((app.width(), app.height()), (10, 6));
    let app = App::from_dimensions(Some(0), Some(u32::MAX));
    assert_eq!((app.width(), app.height()), (0, u32::MAX));
}
