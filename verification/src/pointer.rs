//! The virtual pointer: commands, one per line, become pointer events.
//!
//! A command is a line of fields that ASCII whitespace separates:
//!
//! - `move X Y WIDTH HEIGHT`: go to a point of a surface of the given size;
//! - `button B pressed` and `button B released`, where `B` is 0, 1 or 2;
//! - `wheel DX DY`: scroll;
//! - `release`: let go of every button;
//! - `stop`: end the session.
//!
//! However a session ends, every button that is still held is released first.

use crate::number::Binary64;
use crate::text::{is_blank, parse_unsigned, same_text, split_fields};
use vstd::prelude::*;

verus! {

/// Event code of the left button.
pub const BTN_LEFT: u32 = 0x110;

/// Event code of the right button.
pub const BTN_RIGHT: u32 = 0x111;

/// Event code of the middle button.
pub const BTN_MIDDLE: u32 = 0x112;

/// The highest version of the seat interface that is asked for.
pub const SEAT_VERSION: u32 = 9;

/// The highest version of the pointer manager interface that is asked for.
pub const MANAGER_VERSION: u32 = 2;

/// Why a line is no command, or why a session cannot go on.
#[derive(Clone, Copy, Debug, PartialEq, Eq, Structural)]
pub enum PointerError {
    Extent,
    Coordinate,
    Button,
    HorizontalWheel,
    VerticalWheel,
    Command,
    Read,
}

impl PointerError {
    /// The text of the error.
    pub open spec fn message_spec(self) -> Seq<char> {
        match self {
            PointerError::Extent => "invalid pointer extent"@,
            PointerError::Coordinate => "invalid pointer coordinate"@,
            PointerError::Button => "unsupported pointer button"@,
            PointerError::HorizontalWheel => "invalid horizontal wheel delta"@,
            PointerError::VerticalWheel => "invalid vertical wheel delta"@,
            PointerError::Command => "invalid virtual-pointer command"@,
            PointerError::Read => "could not read a virtual-pointer command"@,
        }
    }

    /// The text of the error.
    pub fn message(&self) -> (text: &'static str)
        ensures
            text@ == self.message_spec(),
    {
        match self {
            PointerError::Extent => "invalid pointer extent",
            PointerError::Coordinate => "invalid pointer coordinate",
            PointerError::Button => "unsupported pointer button",
            PointerError::HorizontalWheel => "invalid horizontal wheel delta",
            PointerError::VerticalWheel => "invalid vertical wheel delta",
            PointerError::Command => "invalid virtual-pointer command",
            PointerError::Read => "could not read a virtual-pointer command",
        }
    }
}

/// One field of a command, with the binary64 number that its text reads as, if it does.
#[derive(Debug)]
pub struct Field {
    pub text: String,
    pub number: Option<Binary64>,
}

/// What a field holds.
pub struct FieldView {
    pub text: Seq<char>,
    pub number: Option<Binary64>,
}

impl View for Field {
    type V = FieldView;

    open spec fn view(&self) -> FieldView {
        FieldView { text: self.text@, number: self.number }
    }
}

/// What the fields of a line hold.
pub open spec fn field_views(list: Seq<Field>) -> Seq<FieldView> {
    Seq::new(list.len(), |i: int| list[i]@)
}

/// A scroll direction.
#[derive(Clone, Copy, Debug, PartialEq, Eq, Structural)]
pub enum Axis {
    Horizontal,
    Vertical,
}

/// What the compositor is told.
#[derive(Clone, Copy, Debug, PartialEq, Eq, Structural)]
pub enum PointerEvent {
    /// Absolute motion on a surface of `width` by `height`.
    Motion { x: u32, y: u32, width: u32, height: u32 },
    /// A button goes down.
    Press(u32),
    /// A button comes up.
    Release(u32),
    /// The scroll events that follow come from a wheel.
    WheelSource,
    /// A scroll by `delta` wheel units, with one wheel step in its direction.
    Scroll { axis: Axis, delta: Binary64, step: i32 },
    /// The events since the last frame belong together.
    Frame,
}

/// A command that was understood.
#[derive(Clone, Copy, Debug, PartialEq, Eq, Structural)]
pub enum Command {
    Move { x: u32, y: u32, width: u32, height: u32 },
    Press(u32),
    Release(u32),
    Wheel { dx: Binary64, dy: Binary64 },
    ReleaseAll,
    Stop,
}

/// Milliseconds as an event timestamp, which counts modulo 2^32.
pub fn timestamp(elapsed_millis: u128) -> (stamp: u32)
    ensures
        stamp as int == elapsed_millis as int % 0x1_0000_0000,
{
    (elapsed_millis % 0x1_0000_0000) as u32
}

/// The extent that a field gives: a positive number.
pub open spec fn extent_spec(value: Seq<char>) -> Result<u32, PointerError> {
    match crate::text::unsigned_value(value) {
        Some(n) => if n > 0 {
            Ok(n)
        } else {
            Err(PointerError::Extent)
        },
        None => Err(PointerError::Extent),
    }
}

/// Reads the width or height of a surface.
pub fn parse_extent(value: &str) -> (extent: Result<u32, PointerError>)
    ensures
        extent == extent_spec(value@),
{
    match parse_unsigned(value) {
        Some(n) => if n > 0 {
            Ok(n)
        } else {
            Err(PointerError::Extent)
        },
        None => Err(PointerError::Extent),
    }
}

/// The coordinate that a number gives: the nearest point of `0..extent`.
pub open spec fn coordinate_spec(value: Option<Binary64>, extent: u32) -> Result<
    u32,
    PointerError,
> {
    match value {
        Some(number) => {
            let last = if extent == 0 {
                0
            } else {
                (extent - 1) as u32
            };
            if number.rounded_spec() <= last {
                Ok(number.rounded_spec())
            } else {
                Ok(last)
            }
        },
        None => Err(PointerError::Coordinate),
    }
}

/// Rounds a coordinate and brings it into `0..extent`.
pub fn parse_coordinate(value: Option<Binary64>, extent: u32) -> (coordinate: Result<
    u32,
    PointerError,
>)
    ensures
        coordinate == coordinate_spec(value, extent),
{
    match value {
        Some(number) => {
            let whole: u32 = number.rounded();
            let last: u32 = extent.saturating_sub(1);
            if whole <= last {
                Ok(whole)
            } else {
                Ok(last)
            }
        },
        None => Err(PointerError::Coordinate),
    }
}

/// The event code of a button number.
pub open spec fn button_spec(value: Seq<char>) -> Result<u32, PointerError> {
    if value == "0"@ {
        Ok(BTN_LEFT)
    } else if value == "1"@ {
        Ok(BTN_MIDDLE)
    } else if value == "2"@ {
        Ok(BTN_RIGHT)
    } else {
        Err(PointerError::Button)
    }
}

/// Reads a button number.
pub fn parse_button(value: &str) -> (button: Result<u32, PointerError>)
    ensures
        button == button_spec(value@),
{
    if same_text(value, "0") {
        Ok(BTN_LEFT)
    } else if same_text(value, "1") {
        Ok(BTN_MIDDLE)
    } else if same_text(value, "2") {
        Ok(BTN_RIGHT)
    } else {
        Err(PointerError::Button)
    }
}

/// `move X Y WIDTH HEIGHT`: the extents are read before the coordinates.
pub open spec fn move_spec(fields: Seq<FieldView>) -> Result<Command, PointerError> {
    match (extent_spec(fields[3].text), extent_spec(fields[4].text)) {
        (Err(e), _) => Err(e),
        (Ok(_), Err(e)) => Err(e),
        (Ok(width), Ok(height)) => match (
            coordinate_spec(fields[1].number, width),
            coordinate_spec(fields[2].number, height),
        ) {
            (Err(e), _) => Err(e),
            (Ok(_), Err(e)) => Err(e),
            (Ok(x), Ok(y)) => Ok(Command::Move { x, y, width, height }),
        },
    }
}

/// `wheel DX DY`.
pub open spec fn wheel_spec(fields: Seq<FieldView>) -> Result<Command, PointerError> {
    match (fields[1].number, fields[2].number) {
        (None, _) => Err(PointerError::HorizontalWheel),
        (Some(_), None) => Err(PointerError::VerticalWheel),
        (Some(dx), Some(dy)) => Ok(Command::Wheel { dx, dy }),
    }
}

/// The command that the fields of a line give.
pub open spec fn command_spec(fields: Seq<FieldView>) -> Result<Command, PointerError> {
    if fields.len() == 5 && fields[0].text == "move"@ {
        move_spec(fields)
    } else if fields.len() == 3 && fields[0].text == "button"@ && fields[2].text == "pressed"@ {
        match button_spec(fields[1].text) {
            Ok(button) => Ok(Command::Press(button)),
            Err(e) => Err(e),
        }
    } else if fields.len() == 3 && fields[0].text == "button"@ && fields[2].text == "released"@ {
        match button_spec(fields[1].text) {
            Ok(button) => Ok(Command::Release(button)),
            Err(e) => Err(e),
        }
    } else if fields.len() == 3 && fields[0].text == "wheel"@ {
        wheel_spec(fields)
    } else if fields.len() == 1 && fields[0].text == "release"@ {
        Ok(Command::ReleaseAll)
    } else if fields.len() == 1 && fields[0].text == "stop"@ {
        Ok(Command::Stop)
    } else {
        Err(PointerError::Command)
    }
}

fn parse_move(fields: &Vec<Field>) -> (command: Result<Command, PointerError>)
    requires
        fields.len() == 5,
    ensures
        command == move_spec(field_views(fields@)),
{
    let width: u32 = match parse_extent(fields[3].text.as_str()) {
        Ok(width) => width,
        Err(e) => return Err(e),
    };
    let height: u32 = match parse_extent(fields[4].text.as_str()) {
        Ok(height) => height,
        Err(e) => return Err(e),
    };
    let x: u32 = match parse_coordinate(fields[1].number, width) {
        Ok(x) => x,
        Err(e) => return Err(e),
    };
    let y: u32 = match parse_coordinate(fields[2].number, height) {
        Ok(y) => y,
        Err(e) => return Err(e),
    };
    Ok(Command::Move { x, y, width, height })
}

/// Understands the fields of a line as a command.
pub fn parse_command(fields: &Vec<Field>) -> (command: Result<Command, PointerError>)
    ensures
        command == command_spec(field_views(fields@)),
{
    let count: usize = fields.len();
    if count == 5 && same_text(fields[0].text.as_str(), "move") {
        return parse_move(fields);
    }
    if count == 3 && same_text(fields[0].text.as_str(), "button") {
        let down: bool = same_text(fields[2].text.as_str(), "pressed");
        let up: bool = same_text(fields[2].text.as_str(), "released");
        if down || up {
            return match parse_button(fields[1].text.as_str()) {
                Ok(button) => if down {
                    Ok(Command::Press(button))
                } else {
                    Ok(Command::Release(button))
                },
                Err(e) => Err(e),
            };
        }
    }
    if count == 3 && same_text(fields[0].text.as_str(), "wheel") {
        return match fields[1].number {
            None => Err(PointerError::HorizontalWheel),
            Some(dx) => match fields[2].number {
                None => Err(PointerError::VerticalWheel),
                Some(dy) => Ok(Command::Wheel { dx, dy }),
            },
        };
    }
    if count == 1 && same_text(fields[0].text.as_str(), "release") {
        return Ok(Command::ReleaseAll);
    }
    if count == 1 && same_text(fields[0].text.as_str(), "stop") {
        return Ok(Command::Stop);
    }
    Err(PointerError::Command)
}

/// The position of the first `button` in the list of held buttons; its length where there is none.
pub open spec fn held_position(pressed: Seq<u32>, button: u32) -> int
    decreases pressed.len(),
{
    if pressed.len() == 0 || pressed[0] == button {
        0
    } else {
        1 + held_position(pressed.drop_first(), button)
    }
}

proof fn lemma_held_position(pressed: Seq<u32>, button: u32, n: int)
    requires
        0 <= n <= pressed.len(),
        forall|i: int| 0 <= i < n ==> #[trigger] pressed[i] != button,
        n < pressed.len() ==> pressed[n] == button,
    ensures
        held_position(pressed, button) == n,
    decreases n,
{
    if n > 0 {
        let rest = pressed.drop_first();
        assert forall|i: int| 0 <= i < n - 1 implies #[trigger] rest[i] != button by {
            assert(rest[i] == pressed[i + 1]);
        }
        assert(pressed[0] != button);
        lemma_held_position(rest, button, n - 1);
    }
}

fn find_button(pressed: &Vec<u32>, button: u32) -> (at: usize)
    ensures
        at == held_position(pressed@, button),
        at <= pressed.len(),
        at < pressed.len() ==> pressed@[at as int] == button,
        at < pressed.len() <==> pressed@.contains(button),
{
    let mut at: usize = 0;
    while at < pressed.len() && pressed[at] != button
        invariant
            at <= pressed.len(),
            forall|i: int| 0 <= i < at ==> #[trigger] pressed@[i] != button,
        decreases pressed.len() - at,
    {
        at = at + 1;
    }
    proof {
        lemma_held_position(pressed@, button, at as int);
    }
    at
}

/// The scroll event of one wheel delta; none for a delta of zero.
pub open spec fn scroll_events(axis: Axis, delta: Binary64) -> Seq<PointerEvent> {
    if delta.is_zero() {
        seq![]
    } else {
        seq![PointerEvent::Scroll { axis, delta, step: delta.direction_spec() as i32 }]
    }
}

/// The events that release the held buttons, in the order of the list.
pub open spec fn release_events(pressed: Seq<u32>) -> Seq<PointerEvent> {
    pressed.map_values(|button: u32| PointerEvent::Release(button)).push(PointerEvent::Frame)
}

/// The events that a command sends while `pressed` are the held buttons.
pub open spec fn events_spec(pressed: Seq<u32>, command: Command) -> Seq<PointerEvent> {
    match command {
        Command::Move { x, y, width, height } => seq![
            PointerEvent::Motion { x, y, width, height },
            PointerEvent::Frame,
        ],
        Command::Press(button) => if pressed.contains(button) {
            seq![]
        } else {
            seq![PointerEvent::Press(button), PointerEvent::Frame]
        },
        Command::Release(button) => if pressed.contains(button) {
            seq![PointerEvent::Release(button), PointerEvent::Frame]
        } else {
            seq![]
        },
        Command::Wheel { dx, dy } => seq![PointerEvent::WheelSource] + scroll_events(
            Axis::Horizontal,
            dx,
        ) + scroll_events(Axis::Vertical, dy) + seq![PointerEvent::Frame],
        Command::ReleaseAll => release_events(pressed),
        Command::Stop => seq![],
    }
}

/// The held buttons after a command.
pub open spec fn pressed_spec(pressed: Seq<u32>, command: Command) -> Seq<u32> {
    match command {
        Command::Press(button) => if pressed.contains(button) {
            pressed
        } else {
            pressed.push(button)
        },
        Command::Release(button) => if pressed.contains(button) {
            pressed.update(held_position(pressed, button), pressed.last()).drop_last()
        } else {
            pressed
        },
        Command::ReleaseAll => seq![],
        _ => pressed,
    }
}

/// Lets go of every held button.
pub fn release_buttons(pressed: &mut Vec<u32>) -> (events: Vec<PointerEvent>)
    ensures
        events@ == release_events(old(pressed)@),
        final(pressed)@ == Seq::<u32>::empty(),
{
    let mut events: Vec<PointerEvent> = Vec::new();
    let ghost all = pressed@.map_values(|button: u32| PointerEvent::Release(button));
    for i in 0..pressed.len()
        invariant
            pressed@ == old(pressed)@,
            all == pressed@.map_values(|button: u32| PointerEvent::Release(button)),
            events@ == all.take(i as int),
    {
        events.push(PointerEvent::Release(pressed[i]));
        assert(events@ =~= all.take(i + 1));
    }
    assert(all.take(pressed@.len() as int) =~= all);
    pressed.clear();
    events.push(PointerEvent::Frame);
    events
}

/// What a command led to: the events to send, and whether the session goes on.
#[derive(Debug)]
pub struct Handled {
    pub events: Vec<PointerEvent>,
    pub go_on: bool,
}

fn push_scroll(events: &mut Vec<PointerEvent>, axis: Axis, delta: Binary64)
    ensures
        final(events)@ == old(events)@ + scroll_events(axis, delta),
{
    if !delta.zero() {
        let step: i32 = delta.direction();
        events.push(PointerEvent::Scroll { axis, delta, step });
    }
    assert(events@ =~= old(events)@ + scroll_events(axis, delta));
}

/// Carries out the command that the fields of a line give.
///
/// A line that is no command sends nothing and leaves the held buttons alone.
pub fn handle_command(pressed: &mut Vec<u32>, fields: &Vec<Field>) -> (result: Result<
    Handled,
    PointerError,
>)
    ensures
        match command_spec(field_views(fields@)) {
            Ok(command) => {
                &&& result matches Ok(handled)
                &&& handled.events@ == events_spec(old(pressed)@, command)
                &&& handled.go_on == (command != Command::Stop)
                &&& final(pressed)@ == pressed_spec(old(pressed)@, command)
            },
            Err(e) => {
                &&& result matches Err(error)
                &&& error == e
                &&& final(pressed)@ == old(pressed)@
            },
        },
{
    let command = match parse_command(fields) {
        Ok(command) => command,
        Err(e) => return Err(e),
    };
    let mut events: Vec<PointerEvent> = Vec::new();
    match command {
        Command::Move { x, y, width, height } => {
            events.push(PointerEvent::Motion { x, y, width, height });
            events.push(PointerEvent::Frame);
        },
        Command::Press(button) => {
            let at: usize = find_button(pressed, button);
            if at == pressed.len() {
                events.push(PointerEvent::Press(button));
                events.push(PointerEvent::Frame);
                pressed.push(button);
            }
        },
        Command::Release(button) => {
            let at: usize = find_button(pressed, button);
            if at < pressed.len() {
                events.push(PointerEvent::Release(button));
                events.push(PointerEvent::Frame);
                pressed.swap_remove(at);
            }
        },
        Command::Wheel { dx, dy } => {
            events.push(PointerEvent::WheelSource);
            push_scroll(&mut events, Axis::Horizontal, dx);
            push_scroll(&mut events, Axis::Vertical, dy);
            events.push(PointerEvent::Frame);
        },
        Command::ReleaseAll => {
            events = release_buttons(pressed);
        },
        Command::Stop => {
            return Ok(Handled { events, go_on: false });
        },
    }
    assert(events@ =~= events_spec(old(pressed)@, command));
    Ok(Handled { events, go_on: true })
}

/// The fields of a line; none where the line is blank.
pub fn read_line(line: &str) -> (list: Option<Vec<String>>)
    ensures
        list is None <==> crate::text::trimmed(line@).len() == 0,
        list matches Some(list) ==> crate::text::texts(list@) == crate::text::fields(line@),
{
    if is_blank(line) {
        None
    } else {
        Some(split_fields(line))
    }
}

/// What a session is given next.
#[derive(Debug)]
pub enum PointerInput {
    /// The fields of a line that is not blank.
    Line(Vec<Field>),
    /// There are no more lines.
    End,
    /// The next line could not be read.
    ReadFailed,
}

/// What an input holds.
pub enum InputView {
    Line(Seq<FieldView>),
    End,
    ReadFailed,
}

impl View for PointerInput {
    type V = InputView;

    open spec fn view(&self) -> InputView {
        match self {
            PointerInput::Line(fields) => InputView::Line(field_views(fields@)),
            PointerInput::End => InputView::End,
            PointerInput::ReadFailed => InputView::ReadFailed,
        }
    }
}

/// Whether a session goes on.
#[derive(Clone, Copy, Debug, PartialEq, Eq, Structural)]
pub enum Progress {
    Continue,
    Finished,
    Failed(PointerError),
}

/// What an input leads to.
pub open spec fn progress_spec(input: InputView) -> Progress {
    match input {
        InputView::Line(fields) => match command_spec(fields) {
            Ok(Command::Stop) => Progress::Finished,
            Ok(_) => Progress::Continue,
            Err(e) => Progress::Failed(e),
        },
        InputView::End => Progress::Finished,
        InputView::ReadFailed => Progress::Failed(PointerError::Read),
    }
}

/// The events of one step of a session: those of the command, or, where the session ends, those
/// that release the held buttons.
pub open spec fn step_events(pressed: Seq<u32>, input: InputView) -> Seq<PointerEvent> {
    match (input, progress_spec(input)) {
        (InputView::Line(fields), Progress::Continue) => events_spec(
            pressed,
            command_spec(fields)->Ok_0,
        ),
        _ => release_events(pressed),
    }
}

/// The held buttons after one step of a session.
pub open spec fn step_pressed(pressed: Seq<u32>, input: InputView) -> Seq<u32> {
    match (input, progress_spec(input)) {
        (InputView::Line(fields), Progress::Continue) => pressed_spec(
            pressed,
            command_spec(fields)->Ok_0,
        ),
        _ => seq![],
    }
}

/// The events to send, and whether the session goes on.
#[derive(Debug)]
pub struct PointerStep {
    pub events: Vec<PointerEvent>,
    pub progress: Progress,
}

/// One step of a session. Whatever ends it, the held buttons are released.
pub fn session_step(pressed: &mut Vec<u32>, input: &PointerInput) -> (step: PointerStep)
    ensures
        step.events@ == step_events(old(pressed)@, input@),
        step.progress == progress_spec(input@),
        final(pressed)@ == step_pressed(old(pressed)@, input@),
{
    let progress: Progress = match input {
        PointerInput::Line(fields) => match handle_command(pressed, fields) {
            Ok(handled) => if handled.go_on {
                return PointerStep { events: handled.events, progress: Progress::Continue };
            } else {
                Progress::Finished
            },
            Err(e) => Progress::Failed(e),
        },
        PointerInput::End => Progress::Finished,
        PointerInput::ReadFailed => Progress::Failed(PointerError::Read),
    };
    let events = release_buttons(pressed);
    PointerStep { events, progress }
}

/// A global of the compositor to bind, with the version to ask for.
#[derive(Clone, Copy, Debug, PartialEq, Eq, Structural)]
pub enum Bind {
    Seat(u32),
    Manager(u32),
}

/// Which of the globals that a session needs have been bound.
#[derive(Clone, Copy, Debug, PartialEq, Eq, Structural)]
pub struct State {
    pub seat: bool,
    pub manager: bool,
}

/// The lesser of two versions.
pub open spec fn lesser(a: u32, b: u32) -> u32 {
    if a < b {
        a
    } else {
        b
    }
}

/// The global that an announcement gives cause to bind.
pub open spec fn bind_spec(state: State, interface: Seq<char>, version: u32) -> Option<Bind> {
    if interface == "wl_seat"@ && !state.seat {
        Some(Bind::Seat(lesser(version, SEAT_VERSION)))
    } else if interface == "zwlr_virtual_pointer_manager_v1"@ && !state.manager {
        Some(Bind::Manager(lesser(version, MANAGER_VERSION)))
    } else {
        None
    }
}

impl State {
    /// Nothing bound yet.
    pub fn new() -> (state: State)
        ensures
            state == (State { seat: false, manager: false }),
    {
        State { seat: false, manager: false }
    }

    /// A global is announced: the first seat and the first pointer manager are bound.
    pub fn event(&mut self, interface: &str, version: u32) -> (bind: Option<Bind>)
        ensures
            bind == bind_spec(*old(self), interface@, version),
            final(self).seat == (old(self).seat || bind is Some && bind->0 is Seat),
            final(self).manager == (old(self).manager || bind is Some && bind->0 is Manager),
    {
        if same_text(interface, "wl_seat") && !self.seat {
            self.seat = true;
            Some(Bind::Seat(if version < SEAT_VERSION { version } else { SEAT_VERSION }))
        } else if same_text(interface, "zwlr_virtual_pointer_manager_v1") && !self.manager {
            self.manager = true;
            Some(Bind::Manager(if version < MANAGER_VERSION { version } else { MANAGER_VERSION }))
        } else {
            None
        }
    }
}

/// The buttons that the compositor sees held after one more event.
pub open spec fn held_after_event(held: Set<u32>, event: PointerEvent) -> Set<u32> {
    match event {
        PointerEvent::Press(button) => held.insert(button),
        PointerEvent::Release(button) => held.remove(button),
        _ => held,
    }
}

/// The buttons that the compositor sees held after some events.
pub open spec fn held_after(held: Set<u32>, events: Seq<PointerEvent>) -> Set<u32>
    decreases events.len(),
{
    if events.len() == 0 {
        held
    } else {
        held_after(held_after_event(held, events[0]), events.drop_first())
    }
}

/// Only a button that is up goes down, and only one that is down comes up.
pub open spec fn consistent(held: Set<u32>, events: Seq<PointerEvent>) -> bool
    decreases events.len(),
{
    events.len() > 0 ==> {
        &&& events[0] matches PointerEvent::Press(button) ==> !held.contains(button)
        &&& events[0] matches PointerEvent::Release(button) ==> held.contains(button)
        &&& consistent(held_after_event(held, events[0]), events.drop_first())
    }
}

proof fn lemma_concat(held: Set<u32>, a: Seq<PointerEvent>, b: Seq<PointerEvent>)
    ensures
        held_after(held, a + b) == held_after(held_after(held, a), b),
        consistent(held, a + b) == (consistent(held, a) && consistent(held_after(held, a), b)),
    decreases a.len(),
{
    if a.len() == 0 {
        assert(a + b =~= b);
    } else {
        assert((a + b).drop_first() =~= a.drop_first() + b);
        lemma_concat(held_after_event(held, a[0]), a.drop_first(), b);
    }
}

proof fn lemma_one(held: Set<u32>, event: PointerEvent)
    ensures
        held_after(held, seq![event]) == held_after_event(held, event),
        consistent(held, seq![event]) == {
            &&& event matches PointerEvent::Press(button) ==> !held.contains(button)
            &&& event matches PointerEvent::Release(button) ==> held.contains(button)
        },
{
    assert(seq![event].drop_first() =~= seq![]);
    reveal_with_fuel(held_after, 2);
    reveal_with_fuel(consistent, 2);
}

proof fn lemma_two(held: Set<u32>, a: PointerEvent, b: PointerEvent)
    ensures
        held_after(held, seq![a, b]) == held_after_event(held_after_event(held, a), b),
        consistent(held, seq![a, b]) == (consistent(held, seq![a]) && consistent(
            held_after_event(held, a),
            seq![b],
        )),
{
    assert(seq![a, b] =~= seq![a] + seq![b]);
    lemma_concat(held, seq![a], seq![b]);
    lemma_one(held, a);
    lemma_one(held_after_event(held, a), b);
}

proof fn lemma_release_events(pressed: Seq<u32>)
    requires
        pressed.no_duplicates(),
    ensures
        held_after(pressed.to_set(), release_events(pressed)) == Set::<u32>::empty(),
        consistent(pressed.to_set(), release_events(pressed)),
    decreases pressed.len(),
{
    let held = pressed.to_set();
    let events = release_events(pressed);
    if pressed.len() == 0 {
        assert(events =~= seq![PointerEvent::Frame]);
        lemma_one(held, PointerEvent::Frame);
        assert(held =~= Set::<u32>::empty());
    } else {
        let rest = pressed.drop_first();
        assert(events.drop_first() =~= release_events(rest));
        assert(events[0] == PointerEvent::Release(pressed[0]));
        assert(pressed.contains(pressed[0]));
        assert(held.remove(pressed[0]) =~= rest.to_set()) by {
            assert forall|b: u32| held.remove(pressed[0]).contains(b) == rest.to_set().contains(
                b,
            ) by {
                if rest.contains(b) {
                    let i = choose|i: int| 0 <= i < rest.len() && rest[i] == b;
                    assert(pressed[i + 1] == b);
                }
                if pressed.contains(b) && b != pressed[0] {
                    let i = choose|i: int| 0 <= i < pressed.len() && pressed[i] == b;
                    assert(rest[i - 1] == b);
                }
            }
        }
        lemma_release_events(rest);
    }
}

proof fn lemma_removed(pressed: Seq<u32>, button: u32)
    requires
        pressed.no_duplicates(),
        pressed.contains(button),
    ensures
        pressed_spec(pressed, Command::Release(button)).no_duplicates(),
        pressed_spec(pressed, Command::Release(button)).to_set() == pressed.to_set().remove(button),
{
    lemma_held_is_first(pressed, button);
    let at = held_position(pressed, button);
    let next = pressed.update(at, pressed.last()).drop_last();
    assert forall|b: u32| #[trigger]
        next.contains(b) == (pressed.contains(b) && b != button) by {
        if next.contains(b) {
            let i = choose|i: int| 0 <= i < next.len() && next[i] == b;
            if i == at {
                assert(pressed[pressed.len() - 1] == b);
            } else {
                assert(pressed[i] == b);
            }
        }
        if pressed.contains(b) && b != button {
            let i = choose|i: int| 0 <= i < pressed.len() && pressed[i] == b;
            if i == pressed.len() - 1 {
                assert(next[at] == b);
            } else {
                assert(next[i] == b);
            }
        }
    }
    assert(next.to_set() =~= pressed.to_set().remove(button));
}

proof fn lemma_held_is_first(pressed: Seq<u32>, button: u32)
    requires
        pressed.contains(button),
    ensures
        0 <= held_position(pressed, button) < pressed.len(),
        pressed[held_position(pressed, button)] == button,
    decreases pressed.len(),
{
    if pressed[0] != button {
        let i = choose|i: int| 0 <= i < pressed.len() && pressed[i] == button;
        assert(pressed.drop_first()[i - 1] == button);
        lemma_held_is_first(pressed.drop_first(), button);
    }
}

proof fn lemma_command(pressed: Seq<u32>, command: Command)
    requires
        pressed.no_duplicates(),
    ensures
        pressed_spec(pressed, command).no_duplicates(),
        held_after(pressed.to_set(), events_spec(pressed, command)) == pressed_spec(
            pressed,
            command,
        ).to_set(),
        consistent(pressed.to_set(), events_spec(pressed, command)),
{
    let held = pressed.to_set();
    match command {
        Command::Move { x, y, width, height } => {
            lemma_two(held, PointerEvent::Motion { x, y, width, height }, PointerEvent::Frame);
            lemma_one(held, PointerEvent::Motion { x, y, width, height });
            lemma_one(held, PointerEvent::Frame);
        },
        Command::Press(button) => {
            if !pressed.contains(button) {
                lemma_two(held, PointerEvent::Press(button), PointerEvent::Frame);
                lemma_one(held, PointerEvent::Press(button));
                lemma_one(held.insert(button), PointerEvent::Frame);
                let next = pressed.push(button);
                assert forall|b: u32| #[trigger]
                    next.contains(b) == (pressed.contains(b) || b == button) by {
                    if pressed.contains(b) {
                        let i = choose|i: int| 0 <= i < pressed.len() && pressed[i] == b;
                        assert(next[i] == b);
                    }
                    if b == button {
                        assert(next[pressed.len() as int] == b);
                    }
                }
                assert(next.to_set() =~= held.insert(button));
            }
        },
        Command::Release(button) => {
            if pressed.contains(button) {
                lemma_two(held, PointerEvent::Release(button), PointerEvent::Frame);
                lemma_one(held, PointerEvent::Release(button));
                lemma_one(held.remove(button), PointerEvent::Frame);
                lemma_removed(pressed, button);
            }
        },
        Command::Wheel { dx, dy } => {
            let source = seq![PointerEvent::WheelSource];
            let horizontal = scroll_events(Axis::Horizontal, dx);
            let vertical = scroll_events(Axis::Vertical, dy);
            lemma_one(held, PointerEvent::WheelSource);
            lemma_one(held, PointerEvent::Frame);
            if !dx.is_zero() {
                lemma_one(held, horizontal[0]);
            }
            if !dy.is_zero() {
                lemma_one(held, vertical[0]);
            }
            lemma_concat(held, source, horizontal);
            lemma_concat(held, source + horizontal, vertical);
            lemma_concat(held, source + horizontal + vertical, seq![PointerEvent::Frame]);
        },
        Command::ReleaseAll => {
            lemma_release_events(pressed);
            assert(Seq::<u32>::empty().to_set() =~= Set::<u32>::empty());
        },
        Command::Stop => {},
    }
}

/// After every step the compositor sees exactly the listed buttons held, no button is listed
/// twice, no button goes down twice and none comes up that is not down.
pub proof fn law_compositor_sees_the_held_buttons(pressed: Seq<u32>, input: InputView)
    requires
        pressed.no_duplicates(),
    ensures
        step_pressed(pressed, input).no_duplicates(),
        held_after(pressed.to_set(), step_events(pressed, input)) == step_pressed(
            pressed,
            input,
        ).to_set(),
        consistent(pressed.to_set(), step_events(pressed, input)),
{
    match (input, progress_spec(input)) {
        (InputView::Line(fields), Progress::Continue) => {
            lemma_command(pressed, command_spec(fields)->Ok_0);
        },
        _ => {
            lemma_release_events(pressed);
            assert(Seq::<u32>::empty().to_set() =~= Set::<u32>::empty());
        },
    }
}

/// A line that is no command ends the session with its error, and the held buttons are released.
pub proof fn law_invalid_line_releases_and_ends(
    pressed: Seq<u32>,
    fields: Seq<FieldView>,
    error: PointerError,
)
    requires
        command_spec(fields) == Err::<Command, PointerError>(error),
    ensures
        progress_spec(InputView::Line(fields)) == Progress::Failed(error),
        step_events(pressed, InputView::Line(fields)) == release_events(pressed),
        step_pressed(pressed, InputView::Line(fields)) == Seq::<u32>::empty(),
{
}

/// The events of a whole session, up to the input that ends it.
pub open spec fn run_events(pressed: Seq<u32>, inputs: Seq<InputView>) -> Seq<PointerEvent>
    decreases inputs.len(),
{
    if inputs.len() == 0 {
        seq![]
    } else if progress_spec(inputs[0]) == Progress::Continue {
        step_events(pressed, inputs[0]) + run_events(
            step_pressed(pressed, inputs[0]),
            inputs.drop_first(),
        )
    } else {
        step_events(pressed, inputs[0])
    }
}

/// Whether one of the inputs ends the session.
pub open spec fn run_ends(inputs: Seq<InputView>) -> bool {
    exists|i: int| 0 <= i < inputs.len() && progress_spec(#[trigger] inputs[i]) != Progress::Continue
}

/// However a session ends, the compositor sees no button held after it.
pub proof fn law_session_releases_every_button(pressed: Seq<u32>, inputs: Seq<InputView>)
    requires
        pressed.no_duplicates(),
        run_ends(inputs),
    ensures
        held_after(pressed.to_set(), run_events(pressed, inputs)) == Set::<u32>::empty(),
        consistent(pressed.to_set(), run_events(pressed, inputs)),
    decreases inputs.len(),
{
    let input = inputs[0];
    law_compositor_sees_the_held_buttons(pressed, input);
    if progress_spec(input) == Progress::Continue {
        let rest = inputs.drop_first();
        let i = choose|i: int|
            0 <= i < inputs.len() && progress_spec(#[trigger] inputs[i]) != Progress::Continue;
        assert(progress_spec(rest[i - 1]) != Progress::Continue);
        law_session_releases_every_button(step_pressed(pressed, input), rest);
        lemma_concat(
            pressed.to_set(),
            step_events(pressed, input),
            run_events(step_pressed(pressed, input), rest),
        );
    } else {
        assert(Seq::<u32>::empty().to_set() =~= Set::<u32>::empty());
    }
}

/// Whether every listed button is one of the three known ones.
pub open spec fn known_buttons(pressed: Seq<u32>) -> bool {
    forall|i: int|
        0 <= i < pressed.len() ==> {
            ||| #[trigger] pressed[i] == BTN_LEFT
            ||| pressed[i] == BTN_MIDDLE
            ||| pressed[i] == BTN_RIGHT
        }
}

/// Only the three known buttons are ever held.
pub proof fn law_only_known_buttons_are_held(pressed: Seq<u32>, input: InputView)
    requires
        known_buttons(pressed),
    ensures
        known_buttons(step_pressed(pressed, input)),
{
    match (input, progress_spec(input)) {
        (InputView::Line(fields), Progress::Continue) => {
            let command = command_spec(fields)->Ok_0;
            if let Command::Release(button) = command {
                if pressed.contains(button) {
                    lemma_held_is_first(pressed, button);
                    let next = pressed_spec(pressed, command);
                    assert forall|i: int| 0 <= i < next.len() implies {
                        ||| #[trigger] next[i] == BTN_LEFT
                        ||| next[i] == BTN_MIDDLE
                        ||| next[i] == BTN_RIGHT
                    } by {
                        assert(next[i] == pressed[i] || next[i] == pressed[pressed.len() - 1]);
                    }
                }
            }
        },
        _ => {},
    }
}

/// A motion goes to a point of its surface.
pub proof fn law_motion_stays_on_the_surface(fields: Seq<FieldView>)
    ensures
        command_spec(fields) matches Ok(Command::Move { x, y, width, height }) ==> x < width && y
            < height,
{
}

/// A scroll carries one wheel step, in the direction of its delta.
pub proof fn law_wheel_step_keeps_the_direction(axis: Axis, delta: Binary64)
    requires
        !delta.is_zero(),
        !delta.is_nan(),
    ensures
        scroll_events(axis, delta) == seq![
            PointerEvent::Scroll {
                axis,
                delta,
                step: if delta.negative() {
                    -1i32
                } else {
                    1i32
                },
            },
        ],
{
}

/// A seat and a pointer manager are bound at most once each.
pub proof fn law_globals_are_bound_once(state: State, interface: Seq<char>, version: u32)
    ensures
        state.seat ==> !(bind_spec(state, interface, version) matches Some(Bind::Seat(_))),
        state.manager ==> !(bind_spec(state, interface, version) matches Some(Bind::Manager(_))),
{
}

/// A wheel command scrolls on every axis whose delta is not zero, by that delta, of either sign, and
/// on no other: first the horizontal axis, then the vertical one, all in one frame of the wheel. Each
/// scroll carries one wheel step in the direction of its delta, or none where that is no number. The
/// held buttons stay held.
pub proof fn law_wheel_scrolls_by_its_deltas(pressed: Seq<u32>, dx: Binary64, dy: Binary64)
    ensures
        ({
            let events = events_spec(pressed, Command::Wheel { dx, dy });
            let across: int = if dx.bits == 0 || dx.bits == 0x8000_0000_0000_0000 {
                0
            } else {
                1
            };
            let along: int = if dy.bits == 0 || dy.bits == 0x8000_0000_0000_0000 {
                0
            } else {
                1
            };
            &&& events.len() == 2 + across + along
            &&& events[0] is WheelSource
            &&& across == 1 ==> {
                &&& events[1] matches PointerEvent::Scroll { axis, delta, step }
                &&& axis is Horizontal
                &&& delta == dx
                &&& 0 < dx.bits <= 0x7ff0_0000_0000_0000 ==> step == 1
                &&& 0x8000_0000_0000_0000 < dx.bits <= 0xfff0_0000_0000_0000 ==> step == -1
                &&& 0x7ff0_0000_0000_0000 < dx.bits < 0x8000_0000_0000_0000 || dx.bits
                    > 0xfff0_0000_0000_0000 ==> step == 0
            }
            &&& along == 1 ==> {
                &&& events[1 + across] matches PointerEvent::Scroll { axis, delta, step }
                &&& axis is Vertical
                &&& delta == dy
                &&& 0 < dy.bits <= 0x7ff0_0000_0000_0000 ==> step == 1
                &&& 0x8000_0000_0000_0000 < dy.bits <= 0xfff0_0000_0000_0000 ==> step == -1
                &&& 0x7ff0_0000_0000_0000 < dy.bits < 0x8000_0000_0000_0000 || dy.bits
                    > 0xfff0_0000_0000_0000 ==> step == 0
            }
            &&& events[events.len() - 1] is Frame
            &&& pressed_spec(pressed, Command::Wheel { dx, dy }) == pressed
        }),
{
    crate::number::law_zeros_and_signs(dx);
    crate::number::law_zeros_and_signs(dy);
}

/// A button that is up goes down when it is pressed, whichever others are held, and is held from
/// then on, behind them. One that is down already stays as it is, and nothing is sent.
pub proof fn law_press_takes_effect(pressed: Seq<u32>, button: u32)
    ensures
        ({
            let events = events_spec(pressed, Command::Press(button));
            let after = pressed_spec(pressed, Command::Press(button));
            &&& !pressed.contains(button) ==> {
                &&& events.len() == 2
                &&& events[0] == PointerEvent::Press(button)
                &&& events[1] is Frame
                &&& after == pressed.push(button)
            }
            &&& pressed.contains(button) ==> events.len() == 0 && after == pressed
        }),
{
}

/// A button that is held comes up when it is released, and no other does: the last of the list takes
/// its place there. For one that is up nothing is sent, and nothing changes.
pub proof fn law_release_takes_effect(pressed: Seq<u32>, button: u32)
    requires
        pressed.no_duplicates(),
    ensures
        ({
            let events = events_spec(pressed, Command::Release(button));
            let after = pressed_spec(pressed, Command::Release(button));
            &&& pressed.contains(button) ==> {
                &&& events.len() == 2
                &&& events[0] == PointerEvent::Release(button)
                &&& events[1] is Frame
                &&& after.len() == pressed.len() - 1
                &&& forall|i: int|
                    0 <= i < after.len() ==> #[trigger] after[i] == if pressed[i] == button {
                        pressed[pressed.len() - 1]
                    } else {
                        pressed[i]
                    }
                &&& !after.contains(button)
            }
            &&& !pressed.contains(button) ==> events.len() == 0 && after == pressed
        }),
{
    if pressed.contains(button) {
        lemma_held_is_first(pressed, button);
        lemma_removed(pressed, button);
        let after = pressed_spec(pressed, Command::Release(button));
        assert(after.contains(button) == after.to_set().contains(button));
    }
}

/// To release all is to release every held button, each once and in the order in which they are
/// listed, in one frame; then none is held. That is also what happens wherever a session ends.
pub proof fn law_every_held_button_is_released(pressed: Seq<u32>, input: InputView)
    requires
        progress_spec(input) != Progress::Continue || (input matches InputView::Line(fields)
            && command_spec(fields) == Ok::<Command, PointerError>(Command::ReleaseAll)),
    ensures
        ({
            let events = step_events(pressed, input);
            &&& events.len() == pressed.len() + 1
            &&& forall|i: int|
                0 <= i < pressed.len() ==> #[trigger] events[i] == PointerEvent::Release(pressed[i])
            &&& events[pressed.len() as int] is Frame
            &&& step_pressed(pressed, input).len() == 0
        }),
{
}

/// A motion goes where the command says, in one frame, and leaves the held buttons alone; a stop
/// sends nothing.
pub proof fn law_motion_is_sent_as_commanded(
    pressed: Seq<u32>,
    x: u32,
    y: u32,
    width: u32,
    height: u32,
)
    ensures
        ({
            let command = Command::Move { x, y, width, height };
            let events = events_spec(pressed, command);
            &&& events.len() == 2
            &&& events[0] == PointerEvent::Motion { x, y, width, height }
            &&& events[1] is Frame
            &&& pressed_spec(pressed, command) == pressed
        }),
        events_spec(pressed, Command::Stop).len() == 0,
        pressed_spec(pressed, Command::Stop) == pressed,
{
}

/// A session goes on exactly as long as its lines are commands other than the stop, and then does
/// what the command says. It ends well at a stop or where there are no more lines, and fails with
/// the error of the line, or where the line cannot be read.
pub proof fn law_session_goes_on_until_it_is_ended(
    pressed: Seq<u32>,
    fields: Seq<FieldView>,
    command: Command,
    error: PointerError,
)
    ensures
        command_spec(fields) == Ok::<Command, PointerError>(command) && !(command is Stop) ==> {
            &&& progress_spec(InputView::Line(fields)) is Continue
            &&& step_events(pressed, InputView::Line(fields)) == events_spec(pressed, command)
            &&& step_pressed(pressed, InputView::Line(fields)) == pressed_spec(pressed, command)
        },
        command_spec(fields) == Ok::<Command, PointerError>(Command::Stop) ==> progress_spec(
            InputView::Line(fields),
        ) is Finished,
        command_spec(fields) == Err::<Command, PointerError>(error) ==> progress_spec(
            InputView::Line(fields),
        ) == Progress::Failed(error),
        progress_spec(InputView::End) is Finished,
        progress_spec(InputView::ReadFailed) == Progress::Failed(PointerError::Read),
{
}

proof fn lemma_words_differ()
    ensures
        "move"@.len() == 4,
        "button"@.len() == 6,
        "wheel"@.len() == 5,
        "release"@.len() == 7,
        "stop"@.len() == 4,
        "pressed"@.len() == 7,
        "released"@.len() == 8,
        "0"@ == seq!['0'],
        "1"@ == seq!['1'],
        "2"@ == seq!['2'],
{
    reveal_strlit("move");
    reveal_strlit("button");
    reveal_strlit("wheel");
    reveal_strlit("release");
    reveal_strlit("stop");
    reveal_strlit("pressed");
    reveal_strlit("released");
    reveal_strlit("0");
    reveal_strlit("1");
    reveal_strlit("2");
    assert("0"@ =~= seq!['0']);
    assert("1"@ =~= seq!['1']);
    assert("2"@ =~= seq!['2']);
}

/// A line `move X Y WIDTH HEIGHT` moves to the point of the surface that is nearest to the numbers,
/// rounded: to the rounded number where that lies on the surface, and to the far edge where it lies
/// beyond. Its extents are positive numbers, or the line is refused for them; numbers that cannot be
/// read are refused after that.
pub proof fn law_move_lines(fields: Seq<FieldView>)
    requires
        fields.len() == 5,
        fields[0].text == "move"@,
    ensures
        match (
            crate::text::unsigned_value(fields[3].text),
            crate::text::unsigned_value(fields[4].text),
        ) {
            (Some(w), Some(h)) => if w == 0 || h == 0 {
                command_spec(fields) == Err::<Command, PointerError>(PointerError::Extent)
            } else {
                match (fields[1].number, fields[2].number) {
                    (Some(a), Some(b)) => {
                        &&& command_spec(fields) matches Ok(Command::Move { x, y, width, height })
                        &&& width == w
                        &&& height == h
                        &&& x < w
                        &&& x == a.rounded_spec() || x == w - 1 && a.rounded_spec() >= w
                        &&& y < h
                        &&& y == b.rounded_spec() || y == h - 1 && b.rounded_spec() >= h
                    },
                    _ => command_spec(fields) == Err::<Command, PointerError>(
                        PointerError::Coordinate,
                    ),
                }
            },
            _ => command_spec(fields) == Err::<Command, PointerError>(PointerError::Extent),
        },
{
}

/// A coordinate is the point of a surface that is nearest to a number, for every extent.
pub proof fn law_coordinates_are_the_nearest_points(number: Binary64, extent: u32)
    ensures
        coordinate_spec(Some(number), extent) matches Ok(point) && {
            &&& extent > 0 ==> point < extent
            &&& number.rounded_spec() < extent ==> point == number.rounded_spec()
            &&& number.rounded_spec() >= extent ==> point + 1 == extent || point == 0 && extent == 0
        },
        coordinate_spec(None, extent) == Err::<u32, PointerError>(PointerError::Coordinate),
{
}

/// An extent is a positive number.
pub proof fn law_extents_are_positive(text: Seq<char>, n: u32)
    ensures
        extent_spec(text) == Ok::<u32, PointerError>(n) <==> n > 0 && crate::text::unsigned_value(
            text,
        ) == Some(n),
        extent_spec(text) is Err ==> extent_spec(text) == Err::<u32, PointerError>(
            PointerError::Extent,
        ),
{
}

/// The buttons are 0, 1 and 2: the left, the middle and the right one, by their event codes 272, 274
/// and 273. Nothing else is a button.
pub proof fn law_button_numbers(text: Seq<char>)
    ensures
        text == seq!['0'] ==> button_spec(text) == Ok::<u32, PointerError>(272),
        text == seq!['1'] ==> button_spec(text) == Ok::<u32, PointerError>(274),
        text == seq!['2'] ==> button_spec(text) == Ok::<u32, PointerError>(273),
        text != seq!['0'] && text != seq!['1'] && text != seq!['2'] ==> button_spec(text) == Err::<
            u32,
            PointerError,
        >(PointerError::Button),
{
    lemma_words_differ();
    assert(seq!['0'][0] != seq!['1'][0]);
    assert(seq!['0'][0] != seq!['2'][0]);
    assert(seq!['1'][0] != seq!['2'][0]);
}

/// A line `button B pressed` presses the button and a line `button B released` releases it, whenever
/// there is such a button.
pub proof fn law_button_lines(fields: Seq<FieldView>)
    requires
        fields.len() == 3,
        fields[0].text == "button"@,
    ensures
        fields[2].text == "pressed"@ ==> match button_spec(fields[1].text) {
            Ok(button) => command_spec(fields) == Ok::<Command, PointerError>(
                Command::Press(button),
            ),
            Err(error) => command_spec(fields) == Err::<Command, PointerError>(error),
        },
        fields[2].text == "released"@ ==> match button_spec(fields[1].text) {
            Ok(button) => command_spec(fields) == Ok::<Command, PointerError>(
                Command::Release(button),
            ),
            Err(error) => command_spec(fields) == Err::<Command, PointerError>(error),
        },
        fields[2].text != "pressed"@ && fields[2].text != "released"@ ==> command_spec(fields)
            == Err::<Command, PointerError>(PointerError::Command),
{
    lemma_words_differ();
}

/// A line `wheel DX DY` scrolls by the two numbers, whatever they are; where one cannot be read, the
/// line is refused for it, for the horizontal one first.
pub proof fn law_wheel_lines(fields: Seq<FieldView>)
    requires
        fields.len() == 3,
        fields[0].text == "wheel"@,
    ensures
        match (fields[1].number, fields[2].number) {
            (Some(dx), Some(dy)) => command_spec(fields) == Ok::<Command, PointerError>(
                Command::Wheel { dx, dy },
            ),
            (None, _) => command_spec(fields) == Err::<Command, PointerError>(
                PointerError::HorizontalWheel,
            ),
            (_, None) => command_spec(fields) == Err::<Command, PointerError>(
                PointerError::VerticalWheel,
            ),
        },
{
    lemma_words_differ();
}

/// A line `release` releases all and a line `stop` stops. A line that does not begin with the word of
/// a command, or has more or fewer fields than that command takes, is no command.
pub proof fn law_other_lines(fields: Seq<FieldView>)
    ensures
        fields.len() == 1 && fields[0].text == "release"@ ==> command_spec(fields) == Ok::<
            Command,
            PointerError,
        >(Command::ReleaseAll),
        fields.len() == 1 && fields[0].text == "stop"@ ==> command_spec(fields) == Ok::<
            Command,
            PointerError,
        >(Command::Stop),
        !(fields.len() == 5 && fields[0].text == "move"@) && !(fields.len() == 3 && (fields[0].text
            == "button"@ || fields[0].text == "wheel"@)) && !(fields.len() == 1 && (fields[0].text
            == "release"@ || fields[0].text == "stop"@)) ==> command_spec(fields) == Err::<
            Command,
            PointerError,
        >(PointerError::Command),
{
    lemma_words_differ();
}

/// What the fields of a line hold is what each of them holds, in order.
pub proof fn law_field_views_show_every_field(list: Seq<Field>, i: int)
    requires
        0 <= i < list.len(),
    ensures
        field_views(list).len() == list.len(),
        field_views(list)[i].text == list[i].text@,
        field_views(list)[i].number == list[i].number,
{
}

/// What an input holds is what its variant holds.
pub proof fn law_input_views_show_every_field(list: Vec<Field>)
    ensures
        PointerInput::Line(list)@ == InputView::Line(field_views(list@)),
        PointerInput::End@ is End,
        PointerInput::ReadFailed@ is ReadFailed,
{
}

/// The first seat and the first pointer manager that are announced are bound, in the version that
/// is announced but in no higher one than is known, and nothing else is bound.
pub proof fn law_first_globals_are_bound(state: State, interface: Seq<char>, version: u32)
    ensures
        interface == "wl_seat"@ && !state.seat ==> {
            &&& bind_spec(state, interface, version) matches Some(Bind::Seat(asked))
            &&& asked <= version && asked <= 9
            &&& asked == version || asked == 9
        },
        interface == "zwlr_virtual_pointer_manager_v1"@ && !state.manager ==> {
            &&& bind_spec(state, interface, version) matches Some(Bind::Manager(asked))
            &&& asked <= version && asked <= 2
            &&& asked == version || asked == 2
        },
        bind_spec(state, interface, version) is Some ==> interface == "wl_seat"@ && !state.seat
            || interface == "zwlr_virtual_pointer_manager_v1"@ && !state.manager,
{
    reveal_strlit("wl_seat");
    reveal_strlit("zwlr_virtual_pointer_manager_v1");
    assert("wl_seat"@.len() != "zwlr_virtual_pointer_manager_v1"@.len());
}

} // verus!
