use rustfest::input::{command_for, update_inputs, InputEvent, Key, MouseButton, ViewCommand, ViewFlags};

fn press(key: Key) -> InputEvent {
    InputEvent::Keyboard { pressed: true, key: Some(key) }
}

fn flags() -> ViewFlags {
    ViewFlags { show_points: false, show_wireframe: false, draw_background: true }
}

#[test]
fn keys_stand_for_their_commands() {
    let table = [
        (Key::Escape, ViewCommand::Quit),
        (Key::PageDown, ViewCommand::ZoomOut),
        (Key::PageUp, ViewCommand::ZoomIn),
        (Key::Left, ViewCommand::ScrollLeft),
        (Key::Right, ViewCommand::ScrollRight),
        (Key::Up, ViewCommand::ScrollUp),
        (Key::Down, ViewCommand::ScrollDown),
        (Key::P, ViewCommand::TogglePoints),
        (Key::W, ViewCommand::ToggleWireframe),
        (Key::B, ViewCommand::ToggleBackground),
        (Key::A, ViewCommand::WidenStroke),
        (Key::Z, ViewCommand::NarrowStroke),
        (Key::Other, ViewCommand::Nothing),
    ];
    for (key, command) in table {
        assert_eq!(command_for(&press(key)), command);
        assert_eq!(command_for(&InputEvent::Keyboard { pressed: false, key: Some(key) }), ViewCommand::Nothing);
    }
    assert_eq!(command_for(&InputEvent::Keyboard { pressed: true, key: None }), ViewCommand::Nothing);
}

#[test]
fn window_and_mouse_events() {
    assert_eq!(command_for(&InputEvent::Closed), ViewCommand::Quit);
    assert_eq!(command_for(&InputEvent::CursorMoved), ViewCommand::TrackCursor);
    assert_eq!(command_for(&InputEvent::Other), ViewCommand::Nothing);
    assert_eq!(
        command_for(&InputEvent::MouseInput { pressed: true, button: MouseButton::Left }),
        ViewCommand::ReportCursor
    );
    assert_eq!(
        command_for(&InputEvent::MouseInput { pressed: false, button: MouseButton::Left }),
        ViewCommand::Nothing
    );
    assert_eq!(
        command_for(&InputEvent::MouseInput { pressed: true, button: MouseButton::Right }),
        ViewCommand::Nothing
    );
}

#[test]
fn toggles_flip_switches() {
    let mut f = flags();
    let (running, commands) = update_inputs(&mut f, &vec![press(Key::P), press(Key::W), press(Key::B)]);
    assert!(running);
    assert_eq!(commands, vec![ViewCommand::TogglePoints, ViewCommand::ToggleWireframe, ViewCommand::ToggleBackground]);
    assert_eq!(f, ViewFlags { show_points: true, show_wireframe: true, draw_background: false });
}

#[test]
fn toggling_twice_restores_the_switches() {
    let mut f = flags();
    update_inputs(&mut f, &vec![press(Key::W), press(Key::P), press(Key::W), press(Key::P)]);
    assert_eq!(f, flags());
}

#[test]
fn odd_toggle_counts_flip_whatever_the_order() {
    let mut a = flags();
    let mut b = flags();
    update_inputs(&mut a, &vec![press(Key::B), press(Key::P), press(Key::B), press(Key::B), press(Key::Left)]);
    update_inputs(&mut b, &vec![press(Key::P), press(Key::Left), press(Key::B)]);
    assert_eq!(a, b);
    assert_eq!(a, ViewFlags { show_points: true, show_wireframe: false, draw_background: false });
}

#[test]
fn other_events_leave_the_switches() {
    let mut f = flags();
    let events = vec![
        press(Key::PageUp),
        press(Key::A),
        InputEvent::CursorMoved,
        InputEvent::MouseInput { pressed: true, button: MouseButton::Left },
        InputEvent::Other,
    ];
    let (running, commands) = update_inputs(&mut f, &events);
    assert!(running);
    assert_eq!(
        commands,
        vec![ViewCommand::ZoomIn, ViewCommand::WidenStroke, ViewCommand::TrackCursor, ViewCommand::ReportCursor, ViewCommand::Nothing]
    );
    assert_eq!(f, flags());
}

#[test]
fn closing_or_escape_stops_the_viewer() {
    let mut f = flags();
    let (running, commands) = update_inputs(&mut f, &vec![InputEvent::Closed, press(Key::P)]);
    assert!(!running);
    assert_eq!(commands, vec![ViewCommand::Quit, ViewCommand::TogglePoints]);
    assert!(f.show_points);
    let (running, _) = update_inputs(&mut f, &vec![press(Key::Down), press(Key::Escape), press(Key::Up)]);
    assert!(!running);
}

#[test]
fn no_events_keep_running() {
    let mut f = flags();
    let (running, commands) = update_inputs(&mut f, &Vec::new());
    assert!(running);
    assert!(commands.is_empty());
    assert_eq!(f, flags());
}
