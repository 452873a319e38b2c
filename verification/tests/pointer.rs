use euthergate::number::Binary64;
use euthergate::pointer::{
    handle_command, parse_button, parse_command, parse_coordinate, parse_extent, read_line,
    release_buttons, session_step, timestamp, Axis, Bind, Command, Field, PointerError,
    PointerEvent, PointerInput, Progress, State, BTN_LEFT, BTN_MIDDLE, BTN_RIGHT,
};
use std::collections::BTreeSet;

fn number(value: f64) -> Binary64 {
    Binary64 { bits: value.to_bits() }
}

fn fields(line: &str) -> Vec<Field> {
    read_line(line)
        .unwrap_or_default()
        .into_iter()
        .map(|text| Field { number: text.parse::<f64>().ok().map(number), text })
        .collect()
}

fn motion(x: u32, y: u32, width: u32, height: u32) -> PointerEvent {
    PointerEvent::Motion { x, y, width, height }
}

#[test]
fn motion_is_rounded_and_kept_on_the_surface() {
    let mut pressed = Vec::new();
    let mut events = |line: &str| handle_command(&mut pressed, &fields(line)).unwrap().events;
    assert_eq!(
        events("move 800 500.4 1280 720"),
        vec![motion(800, 500, 1280, 720), PointerEvent::Frame]
    );
    assert_eq!(events("move -3 1e9 1280 720")[0], motion(0, 719, 1280, 720));
    assert_eq!(events("move inf nan 1280 720")[0], motion(1279, 0, 1280, 720));
    assert_eq!(events("move 0.5 1.5 10 +10")[0], motion(1, 2, 10, 10));
    assert_eq!(events("  move\t1 2 3 4 ")[0], motion(1, 2, 3, 4));
}

#[test]
fn errors_name_the_first_field_that_is_wrong() {
    let error = |line: &str| parse_command(&fields(line)).unwrap_err();
    assert_eq!(error("move a b 0 x"), PointerError::Extent);
    assert_eq!(error("move a b 1 x"), PointerError::Extent);
    assert_eq!(error("move a 1 1 1"), PointerError::Coordinate);
    assert_eq!(error("move 1 b 1 1"), PointerError::Coordinate);
    assert_eq!(error("button 3 pressed"), PointerError::Button);
    assert_eq!(error("button x released"), PointerError::Button);
    assert_eq!(error("button 0 held"), PointerError::Command);
    assert_eq!(error("wheel a b"), PointerError::HorizontalWheel);
    assert_eq!(error("wheel 1 b"), PointerError::VerticalWheel);
    assert_eq!(error("move 1 2 3"), PointerError::Command);
    assert_eq!(error("stop now"), PointerError::Command);
    assert_eq!(error("Release"), PointerError::Command);
    assert_eq!(PointerError::Extent.message(), "invalid pointer extent");
    assert_eq!(PointerError::Coordinate.message(), "invalid pointer coordinate");
    assert_eq!(PointerError::Button.message(), "unsupported pointer button");
    assert_eq!(PointerError::HorizontalWheel.message(), "invalid horizontal wheel delta");
    assert_eq!(PointerError::VerticalWheel.message(), "invalid vertical wheel delta");
    assert_eq!(PointerError::Command.message(), "invalid virtual-pointer command");
    assert_eq!(PointerError::Read.message(), "could not read a virtual-pointer command");
}

#[test]
fn fields_are_read() {
    assert_eq!(parse_extent("1280"), Ok(1280));
    assert_eq!(parse_extent("0"), Err(PointerError::Extent));
    assert_eq!(parse_extent("-1"), Err(PointerError::Extent));
    assert_eq!(parse_coordinate(Some(number(7.5)), 100), Ok(8));
    assert_eq!(parse_coordinate(Some(number(1.0)), 0), Ok(0));
    assert_eq!(parse_coordinate(None, 100), Err(PointerError::Coordinate));
    assert_eq!(parse_button("0"), Ok(BTN_LEFT));
    assert_eq!(parse_button("1"), Ok(BTN_MIDDLE));
    assert_eq!(parse_button("2"), Ok(BTN_RIGHT));
    assert_eq!(parse_button("00"), Err(PointerError::Button));
    assert_eq!((BTN_LEFT, BTN_RIGHT, BTN_MIDDLE), (0x110, 0x111, 0x112));
    assert_eq!(timestamp(4294967296 * 3 + 17), 17);
    assert_eq!(timestamp(4294967295), 4294967295);
}

#[test]
fn buttons_go_down_and_up_once() {
    let mut pressed = Vec::new();
    let mut run = |line: &str| handle_command(&mut pressed, &fields(line)).unwrap();
    let down = run("button 0 pressed");
    assert!(down.go_on);
    assert_eq!(down.events, vec![PointerEvent::Press(BTN_LEFT), PointerEvent::Frame]);
    assert_eq!(run("button 0 pressed").events, vec![]);
    run("button 1 pressed");
    run("button 2 pressed");
    assert_eq!(
        run("button 0 released").events,
        vec![PointerEvent::Release(BTN_LEFT), PointerEvent::Frame]
    );
    assert_eq!(run("button 0 released").events, vec![]);
    assert_eq!(
        run("release").events,
        vec![
            PointerEvent::Release(BTN_RIGHT),
            PointerEvent::Release(BTN_MIDDLE),
            PointerEvent::Frame
        ]
    );
    assert_eq!(run("release").events, vec![PointerEvent::Frame]);
    assert!(pressed.is_empty());
}

#[test]
fn wheel_scrolls_along_the_moved_axes() {
    let mut pressed = Vec::new();
    let mut events = |line: &str| handle_command(&mut pressed, &fields(line)).unwrap().events;
    assert_eq!(events("wheel 0 -0.0"), vec![PointerEvent::WheelSource, PointerEvent::Frame]);
    assert_eq!(
        events("wheel 0 120"),
        vec![
            PointerEvent::WheelSource,
            PointerEvent::Scroll { axis: Axis::Vertical, delta: number(120.0), step: 1 },
            PointerEvent::Frame
        ]
    );
    assert_eq!(
        events("wheel -60.5 nan")[1],
        PointerEvent::Scroll { axis: Axis::Horizontal, delta: number(-60.5), step: -1 }
    );
    assert!(matches!(
        events("wheel 0 nan")[1],
        PointerEvent::Scroll { axis: Axis::Vertical, delta: _, step: 0 }
    ));
}

#[test]
fn a_session_releases_its_buttons_however_it_ends() {
    let ends = [
        (PointerInput::Line(fields("stop")), Progress::Finished),
        (PointerInput::Line(fields("jump")), Progress::Failed(PointerError::Command)),
        (PointerInput::End, Progress::Finished),
        (PointerInput::ReadFailed, Progress::Failed(PointerError::Read)),
    ];
    for (end, progress) in ends {
        let mut pressed = Vec::new();
        let mut held = BTreeSet::new();
        let mut events = Vec::new();
        for line in ["button 0 pressed", "move 1 1 9 9", "button 2 pressed"] {
            let step = session_step(&mut pressed, &PointerInput::Line(fields(line)));
            assert_eq!(step.progress, Progress::Continue);
            events.extend(step.events);
        }
        let step = session_step(&mut pressed, &end);
        assert_eq!(step.progress, progress);
        events.extend(step.events);
        for event in events {
            match event {
                PointerEvent::Press(button) => assert!(held.insert(button)),
                PointerEvent::Release(button) => assert!(held.remove(&button)),
                _ => {}
            }
        }
        assert!(held.is_empty() && pressed.is_empty());
    }
}

#[test]
fn releasing_keeps_the_order() {
    let mut pressed = vec![BTN_RIGHT, BTN_LEFT];
    assert_eq!(
        release_buttons(&mut pressed),
        vec![
            PointerEvent::Release(BTN_RIGHT),
            PointerEvent::Release(BTN_LEFT),
            PointerEvent::Frame
        ]
    );
    assert!(pressed.is_empty());
}

#[test]
fn commands_are_understood() {
    assert_eq!(parse_command(&fields("stop")), Ok(Command::Stop));
    assert_eq!(parse_command(&fields("release")), Ok(Command::ReleaseAll));
    assert_eq!(parse_command(&fields("button 1 released")), Ok(Command::Release(BTN_MIDDLE)));
    assert!(read_line(" \t\u{3000}").is_none());
    assert_eq!(read_line("a  b").unwrap(), vec!["a".to_string(), "b".to_string()]);
    let mut pressed = vec![BTN_LEFT];
    let stop = handle_command(&mut pressed, &fields("stop")).unwrap();
    assert!(!stop.go_on && stop.events.is_empty());
    assert_eq!(pressed, vec![BTN_LEFT]);
    assert!(handle_command(&mut pressed, &fields("x")).is_err());
    assert_eq!(pressed, vec![BTN_LEFT]);
}

#[test]
fn globals_are_bound_once_and_capped() {
    let mut state = State::new();
    assert_eq!(state.event("wl_output", 4), None);
    assert_eq!(state.event("wl_seat", 12), Some(Bind::Seat(9)));
    assert_eq!(state.event("wl_seat", 5), None);
    assert_eq!(state.event("zwlr_virtual_pointer_manager_v1", 1), Some(Bind::Manager(1)));
    assert_eq!(state.event("zwlr_virtual_pointer_manager_v1", 2), None);
    assert_eq!(state, State { seat: true, manager: true });
    assert_eq!(
        State::new().event("zwlr_virtual_pointer_manager_v1", 3),
        Some(Bind::Manager(2))
    );
}
