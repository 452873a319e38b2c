//! The bridge between a desktop viewer and the media helper: signaling goes through, line by line.

use crate::desktop::DesktopSelection;
use vstd::prelude::*;
use vstd::string::*;

verus! {

/// What the helper is told when the viewer leaves.
pub const FAREWELL: &'static str = "{\"type\":\"stop\"}\n";

/// How many seconds the helper has to leave after that.
pub const FAREWELL_SECONDS: u64 = 2;

/// The words that tell the helper which output to capture, and how.
pub open spec fn helper_args(selection: crate::desktop::SelectionView) -> Seq<Seq<char>> {
    seq!["--output"@, selection.output, "--mode"@, selection.mode]
}

/// The words that tell the helper which output to capture, and how.
pub fn helper_arguments(selection: &DesktopSelection) -> (args: Vec<String>)
    ensures
        crate::text::texts(args@) == helper_args(selection@),
{
    let mut args: Vec<String> = Vec::new();
    args.push("--output".to_owned());
    args.push(selection.output.clone());
    args.push("--mode".to_owned());
    args.push(selection.mode.clone());
    assert(crate::text::texts(args@) =~= helper_args(selection@));
    args
}

/// What happens on the bridge.
#[derive(Debug)]
pub enum SignalEvent {
    /// The helper printed a line.
    HelperLine(String),
    /// The helper prints no more.
    HelperClosed,
    /// What the helper prints cannot be read.
    HelperReadFailed,
    /// The helper left, with this status.
    HelperExited(String),
    /// Whether the helper left cannot be told.
    HelperWaitFailed,
    /// The viewer sent text.
    ViewerText(String),
    /// The viewer left.
    ViewerClosed,
    /// The viewer sent something else.
    ViewerOther,
    /// The viewer's socket broke.
    ViewerFailed,
    /// A line could not be sent to the viewer.
    SendFailed,
    /// A text could not be written to the helper, for this reason.
    WriteFailed(String),
    /// The time for the helper to leave is over; whether it left.
    Farewell(bool),
}

/// What is to be done on the bridge.
#[derive(Debug)]
pub enum SignalAction {
    /// Send this text to the viewer.
    Send(String),
    /// Write this text to the helper.
    Write(String),
    /// Wait for what happens next.
    Wait,
    /// Say farewell to the helper, and give it its time to leave.
    Finish,
    /// Kill the helper; the bridge is closed.
    Kill,
    /// The bridge is closed.
    Close,
    /// The bridge breaks down, for this reason.
    Fail(String),
}

/// What an action holds.
pub enum SignalActionView {
    Send(Seq<char>),
    Write(Seq<char>),
    Wait,
    Finish,
    Kill,
    Close,
    Fail(Seq<char>),
}

impl View for SignalAction {
    type V = SignalActionView;

    open spec fn view(&self) -> SignalActionView {
        match self {
            SignalAction::Send(text) => SignalActionView::Send(text@),
            SignalAction::Write(text) => SignalActionView::Write(text@),
            SignalAction::Wait => SignalActionView::Wait,
            SignalAction::Finish => SignalActionView::Finish,
            SignalAction::Kill => SignalActionView::Kill,
            SignalAction::Close => SignalActionView::Close,
            SignalAction::Fail(message) => SignalActionView::Fail(message@),
        }
    }
}

/// The action that an event calls for.
pub open spec fn signal_action(event: SignalEvent) -> SignalActionView {
    match event {
        SignalEvent::HelperLine(line) => SignalActionView::Send(line@),
        SignalEvent::HelperClosed => SignalActionView::Finish,
        SignalEvent::HelperReadFailed => SignalActionView::Fail(
            "could not read WebRTC helper output"@,
        ),
        SignalEvent::HelperExited(status) => SignalActionView::Fail(
            "WebRTC helper exited with "@ + status@,
        ),
        SignalEvent::HelperWaitFailed => SignalActionView::Fail("could not wait for WebRTC helper"@),
        SignalEvent::ViewerText(text) => SignalActionView::Write(text@.push('\n')),
        SignalEvent::ViewerClosed => SignalActionView::Finish,
        SignalEvent::ViewerOther => SignalActionView::Wait,
        SignalEvent::ViewerFailed => SignalActionView::Finish,
        SignalEvent::SendFailed => SignalActionView::Finish,
        SignalEvent::WriteFailed(reason) => SignalActionView::Fail(reason@),
        SignalEvent::Farewell(left) => if left {
            SignalActionView::Close
        } else {
            SignalActionView::Kill
        },
    }
}

/// Decides what to do about an event on the bridge.
pub fn desktop_socket(event: SignalEvent) -> (action: SignalAction)
    ensures
        action@ == signal_action(event),
{
    match event {
        SignalEvent::HelperLine(line) => SignalAction::Send(line),
        SignalEvent::HelperClosed => SignalAction::Finish,
        SignalEvent::HelperReadFailed => SignalAction::Fail(
            "could not read WebRTC helper output".to_owned(),
        ),
        SignalEvent::HelperExited(status) => {
            let mut message = "WebRTC helper exited with ".to_owned();
            message.append(status.as_str());
            SignalAction::Fail(message)
        },
        SignalEvent::HelperWaitFailed => SignalAction::Fail(
            "could not wait for WebRTC helper".to_owned(),
        ),
        SignalEvent::ViewerText(text) => {
            let mut line = text;
            let ghost before = line@;
            line.append("\n");
            proof {
                reveal_strlit("\n");
                assert(line@ =~= before.push('\n'));
            }
            SignalAction::Write(line)
        },
        SignalEvent::ViewerClosed => SignalAction::Finish,
        SignalEvent::ViewerOther => SignalAction::Wait,
        SignalEvent::ViewerFailed => SignalAction::Finish,
        SignalEvent::SendFailed => SignalAction::Finish,
        SignalEvent::WriteFailed(reason) => SignalAction::Fail(reason),
        SignalEvent::Farewell(left) => if left {
            SignalAction::Close
        } else {
            SignalAction::Kill
        },
    }
}

/// Signaling goes through unchanged: the viewer is sent exactly the lines that the helper prints,
/// and the helper is written exactly the texts that the viewer sends, each as one line.
pub proof fn law_signaling_is_relayed(event: SignalEvent)
    ensures
        forall|text: Seq<char>|
            signal_action(event) == SignalActionView::Send(text) <==> (event matches
                SignalEvent::HelperLine(line) && line@ == text),
        forall|text: Seq<char>|
            signal_action(event) == SignalActionView::Write(#[trigger] text.push('\n')) <==> (
            event matches SignalEvent::ViewerText(sent) && sent@ == text),
{
    assert forall|text: Seq<char>|
        signal_action(event) == SignalActionView::Write(#[trigger] text.push('\n')) <==> (
        event matches SignalEvent::ViewerText(sent) && sent@ == text) by {
        if let SignalEvent::ViewerText(sent) = event {
            assert(text.push('\n').drop_last() =~= text);
            assert(sent@.push('\n').drop_last() =~= sent@);
        }
    }
}

/// The viewer's text and the helper's lines are relayed as long as the bridge stands: every text of
/// the viewer is written, whatever it is, with one line feed behind it, and nothing else is; every
/// line of the helper is sent, as it is, and nothing else is.
pub proof fn law_nothing_is_lost_on_the_bridge(event: SignalEvent)
    ensures
        signal_action(event) is Write <==> event is ViewerText,
        signal_action(event) is Send <==> event is HelperLine,
        event matches SignalEvent::ViewerText(text) ==> {
            &&& signal_action(event) matches SignalActionView::Write(line)
            &&& line.len() == text@.len() + 1
            &&& line[text@.len() as int] == '\n'
            &&& forall|i: int| 0 <= i < text@.len() ==> #[trigger] line[i] == text@[i]
        },
        event matches SignalEvent::HelperLine(line) ==> signal_action(event)
            == SignalActionView::Send(line@),
{
}

/// The helper is told farewell exactly if the viewer cannot be served any more or the helper has
/// nothing more to say. When its time is over it is killed exactly if it is still there. Messages
/// without meaning change nothing.
pub proof fn law_bridge_ends_in_order(event: SignalEvent)
    ensures
        signal_action(event) is Finish <==> {
            ||| event is HelperClosed
            ||| event is ViewerClosed
            ||| event is ViewerFailed
            ||| event is SendFailed
        },
        signal_action(event) is Kill <==> event == SignalEvent::Farewell(false),
        signal_action(event) is Close <==> event == SignalEvent::Farewell(true),
        signal_action(event) is Wait <==> event is ViewerOther,
{
}

/// The bridge breaks down exactly if the helper cannot be read, waited for or written to, or has
/// left, and then says why: with the status that the helper left with, or with the reason that it
/// could not be written to.
pub proof fn law_bridge_failures_say_why(event: SignalEvent)
    ensures
        signal_action(event) is Fail <==> {
            ||| event is HelperReadFailed
            ||| event is HelperWaitFailed
            ||| event is HelperExited
            ||| event is WriteFailed
        },
        event matches SignalEvent::WriteFailed(reason) ==> signal_action(event)
            == SignalActionView::Fail(reason@),
        event matches SignalEvent::HelperExited(status) ==> {
            &&& signal_action(event) matches SignalActionView::Fail(message)
            &&& message == "WebRTC helper exited with "@ + status@
        },
        event is HelperReadFailed ==> signal_action(event) == SignalActionView::Fail(
            "could not read WebRTC helper output"@,
        ),
        event is HelperWaitFailed ==> signal_action(event) == SignalActionView::Fail(
            "could not wait for WebRTC helper"@,
        ),
{
}

/// The helper is told the name and the mode of the selected output, unchanged, each behind the word
/// that announces it.
pub proof fn law_helper_is_told_the_selection(selection: DesktopSelection)
    ensures
        ({
            let args = helper_args(selection@);
            &&& args.len() == 4
            &&& args[0] == "--output"@
            &&& args[1] == selection.output@
            &&& args[2] == "--mode"@
            &&& args[3] == selection.mode@
        }),
{
}

/// What an action holds is what its variant holds.
pub proof fn law_action_views_show_every_field(text: String)
    ensures
        SignalAction::Send(text)@ == SignalActionView::Send(text@),
        SignalAction::Write(text)@ == SignalActionView::Write(text@),
        SignalAction::Fail(text)@ == SignalActionView::Fail(text@),
        SignalAction::Wait@ is Wait,
        SignalAction::Finish@ is Finish,
        SignalAction::Kill@ is Kill,
        SignalAction::Close@ is Close,
{
}

} // verus!
