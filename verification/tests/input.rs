use glyph8::input::{Event, KeyCode, KeyEvent, KeyEventKind};
use glyph8::{ControllerState, Input, PollOutcome};

fn key(code: KeyCode, ctrl: bool) -> Event {
    Event::Key(KeyEvent {
        code,
        ctrl,
        kind: KeyEventKind::Press,
    })
}

#[test]
fn esc_quits() {
    let mut i = Input::new();
    let r = i.handle_event(&key(KeyCode::Esc, false));
    assert_eq!(r, Some(PollOutcome::Quit));
}

#[test]
fn ctrl_c_quits() {
    let mut i = Input::new();
    let r = i.handle_event(&key(KeyCode::Char('c'), true));
    assert_eq!(r, Some(PollOutcome::Quit));
}

#[test]
fn r_resets() {
    let mut i = Input::new();
    let r = i.handle_event(&key(KeyCode::Char('r'), false));
    assert_eq!(r, Some(PollOutcome::Reset));
}

#[test]
fn z_presses_b() {
    let mut i = Input::new();
    i.handle_event(&key(KeyCode::Char('z'), false));
    assert!(i.p1().pressed(ControllerState::B));
    assert!(!i.p1().pressed(ControllerState::A));
}

#[test]
fn arrows_press_dpad() {
    let mut i = Input::new();
    i.handle_event(&key(KeyCode::Up, false));
    i.handle_event(&key(KeyCode::Right, false));
    assert!(i.p1().pressed(ControllerState::UP));
    assert!(i.p1().pressed(ControllerState::RIGHT));
}

#[test]
fn begin_frame_clears_held_buttons() {
    let mut i = Input::new();
    i.handle_event(&key(KeyCode::Up, false));
    assert!(i.p1().pressed(ControllerState::UP));
    i.begin_frame();
    assert_eq!(i.p1(), ControllerState::empty());
}

#[test]
fn tab_presses_select() {
    let mut i = Input::new();
    i.handle_event(&key(KeyCode::Tab, false));
    assert!(i.p1().pressed(ControllerState::SELECT));
}

#[test]
fn enter_presses_start() {
    let mut i = Input::new();
    i.handle_event(&key(KeyCode::Enter, false));
    assert!(i.p1().pressed(ControllerState::START));
}

#[test]
fn non_key_event_returns_none() {
    let mut i = Input::new();
    let r = i.handle_event(&Event::Other);
    assert_eq!(r, None);
    assert_eq!(i.p1(), ControllerState::empty());
}

#[test]
fn releases_are_ignored_and_repeats_count() {
    let mut i = Input::default();
    let release = Event::Key(KeyEvent { code: KeyCode::Esc, ctrl: false, kind: KeyEventKind::Release });
    assert_eq!(i.handle_event(&release), None);
    let release_x = Event::Key(KeyEvent { code: KeyCode::Char('x'), ctrl: false, kind: KeyEventKind::Release });
    assert_eq!(i.handle_event(&release_x), None);
    assert_eq!(i.p1(), ControllerState::empty());
    let repeat_x = Event::Key(KeyEvent { code: KeyCode::Char('X'), ctrl: false, kind: KeyEventKind::Repeat });
    assert_eq!(i.handle_event(&repeat_x), None);
    assert_eq!(i.p1(), ControllerState(ControllerState::A));
}

#[test]
fn uppercase_and_other_keys() {
    let mut i = Input::new();
    assert_eq!(i.handle_event(&key(KeyCode::Char('C'), true)), Some(PollOutcome::Quit));
    assert_eq!(i.handle_event(&key(KeyCode::Char('R'), false)), Some(PollOutcome::Reset));
    // Plain 'c' and Ctrl+other letters do not quit.
    assert_eq!(i.handle_event(&key(KeyCode::Char('c'), false)), None);
    assert_eq!(i.handle_event(&key(KeyCode::Char('Z'), true)), None);
    assert_eq!(i.handle_event(&key(KeyCode::Other, false)), None);
    i.handle_event(&key(KeyCode::Down, false));
    i.handle_event(&key(KeyCode::Left, false));
    assert_eq!(
        i.p1(),
        ControllerState(ControllerState::B | ControllerState::DOWN | ControllerState::LEFT)
    );
}
