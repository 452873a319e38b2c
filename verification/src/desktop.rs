//! The captured desktop: which output is captured, who watches it, and what `hyprctl` is told.
//!
//! Requests that need `hyprctl` go step by step. A step either is done or names the command to
//! run; the reply of the command leads to the next step.

use crate::error::DesktopError;
use crate::monitors::{monitor_workspace, parse_outputs, DesktopOutput, HyprMonitor};
use crate::reply::{Body, Member, Reply, Scalar, CONFLICT, OK, SERVICE_UNAVAILABLE};
use crate::text::{append_decimal, join, same_text, trim};
use vstd::prelude::*;
use vstd::string::*;

verus! {

/// The output that is captured.
#[derive(Debug)]
pub struct DesktopSelection {
    pub output: String,
    pub mode: String,
    pub workspace: u32,
    pub virtual_output: bool,
}

/// What a selection holds.
pub struct SelectionView {
    pub output: Seq<char>,
    pub mode: Seq<char>,
    pub workspace: u32,
    pub virtual_output: bool,
}

impl View for DesktopSelection {
    type V = SelectionView;

    open spec fn view(&self) -> SelectionView {
        SelectionView {
            output: self.output@,
            mode: self.mode@,
            workspace: self.workspace,
            virtual_output: self.virtual_output,
        }
    }
}

fn copy_selection(selection: &DesktopSelection) -> (copy: DesktopSelection)
    ensures
        copy@ == selection@,
{
    DesktopSelection {
        output: selection.output.clone(),
        mode: selection.mode.clone(),
        workspace: selection.workspace,
        virtual_output: selection.virtual_output,
    }
}

/// The state of the desktop.
#[derive(Debug)]
pub struct DesktopManager {
    /// Whether an output is captured.
    pub active: bool,
    /// Whether a viewer watches it.
    pub viewer_connected: bool,
    /// The name of the virtual output.
    pub headless_output: String,
    /// The mode of the virtual output.
    pub headless_mode: String,
    /// The output that is captured, or was last.
    pub selection: DesktopSelection,
}

/// What the state of the desktop holds.
pub struct ManagerView {
    pub active: bool,
    pub viewer_connected: bool,
    pub headless_output: Seq<char>,
    pub headless_mode: Seq<char>,
    pub selection: SelectionView,
}

impl View for DesktopManager {
    type V = ManagerView;

    open spec fn view(&self) -> ManagerView {
        ManagerView {
            active: self.active,
            viewer_connected: self.viewer_connected,
            headless_output: self.headless_output@,
            headless_mode: self.headless_mode@,
            selection: self.selection@,
        }
    }
}

/// The desktop before anything was captured.
pub open spec fn initial_desktop(output: Seq<char>, mode: Seq<char>) -> ManagerView {
    ManagerView {
        active: false,
        viewer_connected: false,
        headless_output: output,
        headless_mode: mode,
        selection: SelectionView { output, mode, workspace: 0, virtual_output: true },
    }
}

/// The words of a command that lists the monitors.
pub open spec fn list_args() -> Seq<Seq<char>> {
    seq!["monitors"@, "all"@, "-j"@]
}

/// The words of a command that creates the virtual output.
pub open spec fn create_args(output: Seq<char>) -> Seq<Seq<char>> {
    seq!["output"@, "create"@, "headless"@, output]
}

/// The words of a command that removes the virtual output.
pub open spec fn remove_args(output: Seq<char>) -> Seq<Seq<char>> {
    seq!["output"@, "remove"@, output]
}

/// The words of a command that gives the virtual output its mode.
pub open spec fn configure_args(output: Seq<char>, mode: Seq<char>) -> Seq<Seq<char>> {
    seq!["keyword"@, "monitor"@, output + ","@ + mode + ",auto,1"@]
}

/// The words of a command that opens a terminal on a workspace.
pub open spec fn exec_args(workspace: u32) -> Seq<Seq<char>> {
    seq![
        "dispatch"@,
        "exec"@,
        "[workspace "@ + crate::text::decimal(workspace as nat)
            + " silent] kitty --title EutherGate-Remote-Forge"@,
    ]
}

fn three_words(first: &str, second: &str, third: String) -> (args: Vec<String>)
    ensures
        crate::text::texts(args@) == seq![first@, second@, third@],
{
    let mut args: Vec<String> = Vec::new();
    args.push(first.to_owned());
    args.push(second.to_owned());
    args.push(third);
    assert(crate::text::texts(args@) =~= seq![first@, second@, third@]);
    args
}

/// The command that lists the monitors.
pub fn list_command() -> (args: Vec<String>)
    ensures
        crate::text::texts(args@) == list_args(),
{
    three_words("monitors", "all", "-j".to_owned())
}

fn create_command(output: &String) -> (args: Vec<String>)
    ensures
        crate::text::texts(args@) == create_args(output@),
{
    let mut args: Vec<String> = three_words("output", "create", "headless".to_owned());
    let ghost before = args@;
    args.push(output.clone());
    assert(crate::text::texts(args@) =~= crate::text::texts(before).push(output@));
    assert(crate::text::texts(args@) =~= create_args(output@));
    args
}

fn remove_command(output: &String) -> (args: Vec<String>)
    ensures
        crate::text::texts(args@) == remove_args(output@),
{
    three_words("output", "remove", output.clone())
}

fn configure_command(output: &String, mode: &String) -> (args: Vec<String>)
    ensures
        crate::text::texts(args@) == configure_args(output@, mode@),
{
    let mut setting = output.clone();
    setting.append(",");
    setting.append(mode.as_str());
    setting.append(",auto,1");
    three_words("keyword", "monitor", setting)
}

fn exec_command(workspace: u32) -> (args: Vec<String>)
    ensures
        crate::text::texts(args@) == exec_args(workspace),
{
    let mut rule = "[workspace ".to_owned();
    append_decimal(&mut rule, workspace);
    rule.append(" silent] kitty --title EutherGate-Remote-Forge");
    three_words("dispatch", "exec", rule)
}

/// How a run of `hyprctl` went.
#[derive(Debug)]
pub enum HyprRun {
    /// It could not be run.
    NotStarted,
    /// It ran; what it printed.
    Exited { success: bool, stdout: String, stderr: String },
}

/// What a run of `hyprctl` with some words gives: the trimmed output, or a message.
pub open spec fn hyprctl_spec(args: Seq<Seq<char>>, run: HyprRun) -> Result<Seq<char>, Seq<char>> {
    let words = crate::text::joined(args, " "@);
    match run {
        HyprRun::NotStarted => Err("could not run hyprctl "@ + words),
        HyprRun::Exited { success, stdout, stderr } => if success {
            Ok(crate::text::trimmed(stdout@))
        } else {
            Err("hyprctl "@ + words + " failed: "@ + crate::text::trimmed(stderr@))
        },
    }
}

/// Judges a run of `hyprctl`.
pub fn hyprctl(args: &Vec<String>, run: &HyprRun) -> (outcome: Result<String, String>)
    ensures
        match (outcome, hyprctl_spec(crate::text::texts(args@), *run)) {
            (Ok(text), Ok(expected)) => text@ == expected,
            (Err(message), Err(expected)) => message@ == expected,
            _ => false,
        },
{
    match run {
        HyprRun::NotStarted => {
            let mut message = "could not run hyprctl ".to_owned();
            message.append(join(args, " ").as_str());
            Err(message)
        },
        HyprRun::Exited { success, stdout, stderr } => {
            if *success {
                Ok(trim(stdout.as_str()).to_owned())
            } else {
                let mut message = "hyprctl ".to_owned();
                message.append(join(args, " ").as_str());
                message.append(" failed: ");
                message.append(trim(stderr.as_str()));
                Err(message)
            }
        },
    }
}

/// The reply of `hyprctl` to a command.
#[derive(Debug)]
pub enum HyprReply {
    /// What it printed, with the list of monitors that this is, if it is one.
    Printed { text: String, monitors: Option<Vec<HyprMonitor>> },
    /// It failed, with this message.
    Failed(String),
}

/// What a reply of `hyprctl` holds.
pub enum HyprReplyView {
    Printed { text: Seq<char>, monitors: Option<Seq<crate::monitors::MonitorView>> },
    Failed(Seq<char>),
}

impl View for HyprReply {
    type V = HyprReplyView;

    open spec fn view(&self) -> HyprReplyView {
        match self {
            HyprReply::Printed { text, monitors } => HyprReplyView::Printed {
                text: text@,
                monitors: match monitors {
                    Some(monitors) => Some(crate::monitors::monitor_views(monitors@)),
                    None => None,
                },
            },
            HyprReply::Failed(message) => HyprReplyView::Failed(message@),
        }
    }
}

/// The outputs that a reply lists.
pub open spec fn listed(reply: HyprReplyView, headless: Seq<char>) -> Result<
    Seq<crate::monitors::OutputView>,
    crate::error::ErrorView,
> {
    match reply {
        HyprReplyView::Failed(message) => Err(crate::error::ErrorView::Hyprctl(message)),
        HyprReplyView::Printed { text: _, monitors } => match monitors {
            Some(monitors) => Ok(crate::monitors::outputs_of(monitors, headless)),
            None => Err(crate::error::ErrorView::InvalidMonitors),
        },
    }
}

fn read_list(reply: &HyprReply, headless: &str) -> (outputs: Result<
    Vec<DesktopOutput>,
    DesktopError,
>)
    ensures
        match (outputs, listed(reply@, headless@)) {
            (Ok(outputs), Ok(expected)) => crate::monitors::output_views(outputs@) == expected,
            (Err(error), Err(expected)) => error@ == expected,
            _ => false,
        },
{
    match reply {
        HyprReply::Failed(message) => Err(DesktopError::Hyprctl(message.clone())),
        HyprReply::Printed { text: _, monitors } => parse_outputs(monitors, headless),
    }
}

/// The position of the first output of that name; the number of outputs where there is none.
pub open spec fn output_position(outputs: Seq<crate::monitors::OutputView>, name: Seq<char>) -> int
    decreases outputs.len(),
{
    if outputs.len() == 0 || outputs[0].name == name {
        0
    } else {
        1 + output_position(outputs.drop_first(), name)
    }
}

/// Whether there is an output of that name.
pub open spec fn has_output(outputs: Seq<crate::monitors::OutputView>, name: Seq<char>) -> bool {
    exists|i: int| 0 <= i < outputs.len() && (#[trigger] outputs[i]).name == name
}

proof fn lemma_output_position(
    outputs: Seq<crate::monitors::OutputView>,
    name: Seq<char>,
    n: int,
)
    requires
        0 <= n <= outputs.len(),
        forall|i: int| 0 <= i < n ==> (#[trigger] outputs[i]).name != name,
        n < outputs.len() ==> outputs[n].name == name,
    ensures
        output_position(outputs, name) == n,
        has_output(outputs, name) <==> n < outputs.len(),
    decreases n,
{
    if n > 0 {
        let rest = outputs.drop_first();
        assert forall|i: int| 0 <= i < n - 1 implies (#[trigger] rest[i]).name != name by {
            assert(rest[i] == outputs[i + 1]);
        }
        assert(outputs[0].name != name);
        lemma_output_position(rest, name, n - 1);
    }
}

fn find_output(outputs: &Vec<DesktopOutput>, name: &str) -> (at: usize)
    ensures
        at == output_position(crate::monitors::output_views(outputs@), name@),
        at <= outputs.len(),
        at < outputs.len() <==> has_output(crate::monitors::output_views(outputs@), name@),
{
    let ghost views = crate::monitors::output_views(outputs@);
    let mut at: usize = 0;
    while at < outputs.len() && !same_text(outputs[at].name.as_str(), name)
        invariant
            at <= outputs.len(),
            views == crate::monitors::output_views(outputs@),
            forall|i: int| 0 <= i < at ==> (#[trigger] views[i]).name != name@,
        decreases outputs.len() - at,
    {
        assert(views[at as int].name == outputs@[at as int].name@);
        at = at + 1;
    }
    proof {
        lemma_output_position(views, name@, at as int);
    }
    at
}

/// The outputs to choose from: those that are listed, behind the virtual output where it is not
/// among them.
pub open spec fn all_outputs(
    outputs: Seq<crate::monitors::OutputView>,
    headless: Seq<char>,
    mode: Seq<char>,
) -> Seq<crate::monitors::OutputView> {
    if has_output(outputs, headless) {
        outputs
    } else {
        seq![
            crate::monitors::OutputView {
                name: headless,
                description: "Virtual Forge output"@,
                mode,
                workspace: 0,
                virtual_output: true,
            },
        ] + outputs
    }
}

/// What a start of the capture waits for.
#[derive(Debug)]
pub enum StartStage {
    /// The list of monitors.
    Listing,
    /// The creation of the virtual output.
    Creating,
    /// The mode of the virtual output.
    Configuring,
    /// The removal of the virtual output, which did not take its mode.
    Removing(String),
    /// The list of monitors, once the output should be there.
    Confirming,
}

/// A start of the capture that is under way.
#[derive(Debug)]
pub struct Start {
    pub requested: String,
    pub stage: StartStage,
}

/// What a stage holds.
pub enum StageView {
    Listing,
    Creating,
    Configuring,
    Removing(Seq<char>),
    Confirming,
}

/// What a start holds.
pub struct StartView {
    pub requested: Seq<char>,
    pub stage: StageView,
}

impl View for Start {
    type V = StartView;

    open spec fn view(&self) -> StartView {
        StartView {
            requested: self.requested@,
            stage: match self.stage {
                StartStage::Listing => StageView::Listing,
                StartStage::Creating => StageView::Creating,
                StartStage::Configuring => StageView::Configuring,
                StartStage::Removing(message) => StageView::Removing(message@),
                StartStage::Confirming => StageView::Confirming,
            },
        }
    }
}

/// The next step of a start.
#[derive(Debug)]
pub enum StartStep {
    Run { args: Vec<String>, next: Start },
    Done(Result<DesktopSelection, DesktopError>),
}

/// What a step holds.
pub enum StartStepView {
    Run { args: Seq<Seq<char>>, next: StartView },
    Done(Result<SelectionView, crate::error::ErrorView>),
}

impl View for StartStep {
    type V = StartStepView;

    open spec fn view(&self) -> StartStepView {
        match self {
            StartStep::Run { args, next } => StartStepView::Run {
                args: crate::text::texts(args@),
                next: next@,
            },
            StartStep::Done(Ok(selection)) => StartStepView::Done(Ok(selection@)),
            StartStep::Done(Err(error)) => StartStepView::Done(Err(error@)),
        }
    }
}

/// The output that a request is for: the virtual output where it names none.
pub open spec fn requested_output(desktop: ManagerView, requested: Option<Seq<char>>) -> Seq<char> {
    match requested {
        Some(name) => name,
        None => desktop.headless_output,
    }
}

/// The first step of a start.
pub open spec fn start_spec(
    desktop: ManagerView,
    helper_present: bool,
    helper_path: Seq<char>,
    requested: Option<Seq<char>>,
) -> StartStepView {
    let name = requested_output(desktop, requested);
    if !helper_present {
        StartStepView::Done(Err(crate::error::ErrorView::HelperMissing(helper_path)))
    } else if desktop.viewer_connected && name != desktop.selection.output {
        StartStepView::Done(Err(crate::error::ErrorView::ViewerConnected))
    } else {
        StartStepView::Run {
            args: list_args(),
            next: StartView { requested: name, stage: StageView::Listing },
        }
    }
}

/// The step that lists the monitors once more.
pub open spec fn confirm_step(requested: Seq<char>) -> StartStepView {
    StartStepView::Run {
        args: list_args(),
        next: StartView { requested, stage: StageView::Confirming },
    }
}

/// The step that gives the virtual output its mode.
pub open spec fn configure_step(desktop: ManagerView, requested: Seq<char>) -> StartStepView {
    StartStepView::Run {
        args: configure_args(desktop.headless_output, desktop.headless_mode),
        next: StartView { requested, stage: StageView::Configuring },
    }
}

/// The selection of an output.
pub open spec fn selection_of(output: crate::monitors::OutputView) -> SelectionView {
    SelectionView {
        output: output.name,
        mode: output.mode,
        workspace: output.workspace,
        virtual_output: output.virtual_output,
    }
}

/// The step that follows a reply to a start.
pub open spec fn start_reply_spec(
    desktop: ManagerView,
    start: StartView,
    reply: HyprReplyView,
) -> StartStepView {
    let name = start.requested;
    let headless = desktop.headless_output;
    match start.stage {
        StageView::Listing => match listed(reply, headless) {
            Err(error) => StartStepView::Done(Err(error)),
            Ok(outputs) => if name == headless {
                if has_output(outputs, name) {
                    configure_step(desktop, name)
                } else {
                    StartStepView::Run {
                        args: create_args(headless),
                        next: StartView { requested: name, stage: StageView::Creating },
                    }
                }
            } else if has_output(outputs, name) {
                confirm_step(name)
            } else {
                StartStepView::Done(Err(crate::error::ErrorView::OutputMissing(name)))
            },
        },
        StageView::Creating => match reply {
            HyprReplyView::Failed(message) => StartStepView::Done(
                Err(crate::error::ErrorView::Hyprctl(message)),
            ),
            _ => configure_step(desktop, name),
        },
        StageView::Configuring => match reply {
            HyprReplyView::Failed(message) => StartStepView::Run {
                args: remove_args(headless),
                next: StartView { requested: name, stage: StageView::Removing(message) },
            },
            _ => confirm_step(name),
        },
        StageView::Removing(message) => StartStepView::Done(
            Err(crate::error::ErrorView::Hyprctl(message)),
        ),
        StageView::Confirming => match listed(reply, headless) {
            Err(error) => StartStepView::Done(Err(error)),
            Ok(outputs) => if has_output(outputs, name) {
                StartStepView::Done(Ok(selection_of(outputs[output_position(outputs, name)])))
            } else {
                StartStepView::Done(Err(crate::error::ErrorView::OutputDisappeared(name)))
            },
        },
    }
}

/// The desktop after a step of a start: only a start that succeeds changes it.
pub open spec fn started(desktop: ManagerView, step: StartStepView) -> ManagerView {
    match step {
        StartStepView::Done(Ok(selection)) => ManagerView { active: true, selection, ..desktop },
        _ => desktop,
    }
}

/// What a stop of the capture waits for.
#[derive(Clone, Copy, Debug, PartialEq, Eq, Structural)]
pub enum StopStage {
    /// The list of monitors.
    Listing,
    /// The removal of the virtual output.
    Removing,
}

/// The next step of a stop.
#[derive(Debug)]
pub enum StopStep {
    Run { args: Vec<String>, next: StopStage },
    Done(Result<(), DesktopError>),
}

/// What a step holds.
pub enum StopStepView {
    Run { args: Seq<Seq<char>>, next: StopStage },
    Done(Result<(), crate::error::ErrorView>),
}

impl View for StopStep {
    type V = StopStepView;

    open spec fn view(&self) -> StopStepView {
        match self {
            StopStep::Run { args, next } => StopStepView::Run {
                args: crate::text::texts(args@),
                next: *next,
            },
            StopStep::Done(Ok(())) => StopStepView::Done(Ok(())),
            StopStep::Done(Err(error)) => StopStepView::Done(Err(error@)),
        }
    }
}

/// The first step of a stop: nothing is to be done where nothing is captured.
pub open spec fn stop_spec(desktop: ManagerView) -> StopStepView {
    if desktop.active {
        StopStepView::Run { args: list_args(), next: StopStage::Listing }
    } else {
        StopStepView::Done(Ok(()))
    }
}

/// The step that follows a reply to a stop.
pub open spec fn stop_reply_spec(
    desktop: ManagerView,
    stage: StopStage,
    reply: HyprReplyView,
) -> StopStepView {
    match stage {
        StopStage::Listing => match listed(reply, desktop.headless_output) {
            Err(error) => StopStepView::Done(Err(error)),
            Ok(outputs) => if has_output(outputs, desktop.headless_output) {
                StopStepView::Run {
                    args: remove_args(desktop.headless_output),
                    next: StopStage::Removing,
                }
            } else {
                StopStepView::Done(Ok(()))
            },
        },
        StopStage::Removing => match reply {
            HyprReplyView::Failed(message) => StopStepView::Done(
                Err(crate::error::ErrorView::Hyprctl(message)),
            ),
            _ => StopStepView::Done(Ok(())),
        },
    }
}

/// What a launch of a terminal waits for.
#[derive(Debug)]
pub enum LaunchStage {
    /// The list of monitors, for the workspace of this output.
    Listing(String),
    /// The terminal on this workspace.
    Launching(u32),
}

/// What a stage holds.
pub enum LaunchStageView {
    Listing(Seq<char>),
    Launching(u32),
}

impl View for LaunchStage {
    type V = LaunchStageView;

    open spec fn view(&self) -> LaunchStageView {
        match self {
            LaunchStage::Listing(output) => LaunchStageView::Listing(output@),
            LaunchStage::Launching(workspace) => LaunchStageView::Launching(*workspace),
        }
    }
}

/// The next step of a launch.
#[derive(Debug)]
pub enum LaunchStep {
    Run { args: Vec<String>, next: LaunchStage },
    Done(Result<u32, DesktopError>),
}

/// What a step holds.
pub enum LaunchStepView {
    Run { args: Seq<Seq<char>>, next: LaunchStageView },
    Done(Result<u32, crate::error::ErrorView>),
}

impl View for LaunchStep {
    type V = LaunchStepView;

    open spec fn view(&self) -> LaunchStepView {
        match self {
            LaunchStep::Run { args, next } => LaunchStepView::Run {
                args: crate::text::texts(args@),
                next: next@,
            },
            LaunchStep::Done(result) => LaunchStepView::Done(
                crate::monitors::result_view(*result),
            ),
        }
    }
}

/// The first step of a launch.
pub open spec fn launch_spec(desktop: ManagerView) -> LaunchStepView {
    if desktop.active {
        LaunchStepView::Run {
            args: list_args(),
            next: LaunchStageView::Listing(desktop.selection.output),
        }
    } else {
        LaunchStepView::Done(Err(crate::error::ErrorView::NotActive))
    }
}

/// The step that follows once the workspace has been looked for.
pub open spec fn launch_found_spec(
    found: Result<u32, crate::error::ErrorView>,
) -> LaunchStepView {
    match found {
        Ok(workspace) => LaunchStepView::Run {
            args: exec_args(workspace),
            next: LaunchStageView::Launching(workspace),
        },
        Err(error) => LaunchStepView::Done(Err(error)),
    }
}

/// The step that follows a reply to a launch, where `document` is the JSON document that the
/// reply prints.
pub open spec fn launch_reply_spec(
    stage: LaunchStageView,
    reply: HyprReplyView,
    document: Option<crate::monitors::Json>,
) -> LaunchStepView {
    match reply {
        HyprReplyView::Failed(message) => LaunchStepView::Done(
            Err(crate::error::ErrorView::Hyprctl(message)),
        ),
        HyprReplyView::Printed { text: _, monitors: _ } => match stage {
            LaunchStageView::Listing(output) => launch_found_spec(
                crate::monitors::workspace_spec(document, output),
            ),
            LaunchStageView::Launching(workspace) => LaunchStepView::Done(Ok(workspace)),
        },
    }
}

/// The text that a reply prints.
pub open spec fn printed_text(reply: HyprReplyView) -> Seq<char> {
    match reply {
        HyprReplyView::Printed { text, monitors: _ } => text,
        HyprReplyView::Failed(_) => seq![],
    }
}

/// Goes on with a launch once the workspace has been looked for.
pub fn launch_found(found: Result<u32, DesktopError>) -> (step: LaunchStep)
    ensures
        step@ == launch_found_spec(crate::monitors::result_view(found)),
{
    match found {
        Ok(workspace) => LaunchStep::Run {
            args: exec_command(workspace),
            next: LaunchStage::Launching(workspace),
        },
        Err(error) => LaunchStep::Done(Err(error)),
    }
}

/// The reply to a viewer who wants to watch; `None` where the viewer may.
pub open spec fn viewer_refusal(desktop: ManagerView) -> Option<crate::reply::ReplyView> {
    if !desktop.active {
        Some(
            crate::reply::ReplyView {
                status: CONFLICT,
                set_cookie: None,
                body: crate::reply::BodyView::Text("desktop capture is not active"@),
            },
        )
    } else if desktop.viewer_connected {
        Some(
            crate::reply::ReplyView {
                status: CONFLICT,
                set_cookie: None,
                body: crate::reply::BodyView::Text("a desktop viewer is already connected"@),
            },
        )
    } else {
        None
    }
}

/// How the desktop stands.
#[derive(Debug)]
pub struct DesktopStatusResponse {
    pub available: bool,
    pub active: bool,
    pub viewer_connected: bool,
    pub output: String,
    pub mode: String,
    pub workspace: u32,
    pub transport: &'static str,
    pub input: &'static str,
    pub virtual_output: bool,
    pub outputs: Vec<DesktopOutput>,
}

impl DesktopManager {
    /// The desktop before anything was captured.
    pub fn new(headless_output: String, headless_mode: String) -> (desktop: DesktopManager)
        ensures
            desktop@ == initial_desktop(headless_output@, headless_mode@),
    {
        let selection = DesktopSelection {
            output: headless_output.clone(),
            mode: headless_mode.clone(),
            workspace: 0,
            virtual_output: true,
        };
        DesktopManager {
            active: false,
            viewer_connected: false,
            headless_output,
            headless_mode,
            selection,
        }
    }

    /// The output that is captured, or was last.
    pub fn selection(&self) -> (selection: DesktopSelection)
        ensures
            selection@ == self@.selection,
    {
        copy_selection(&self.selection)
    }

    /// The outputs to choose from, by the reply that lists the monitors.
    pub fn outputs(&self, reply: &HyprReply) -> (outputs: Result<Vec<DesktopOutput>, DesktopError>)
        ensures
            match (outputs, listed(reply@, self@.headless_output)) {
                (Ok(outputs), Ok(expected)) => crate::monitors::output_views(outputs@)
                    == all_outputs(expected, self@.headless_output, self@.headless_mode),
                (Err(error), Err(expected)) => error@ == expected,
                _ => false,
            },
    {
        let mut outputs = match read_list(reply, self.headless_output.as_str()) {
            Ok(outputs) => outputs,
            Err(error) => return Err(error),
        };
        let at: usize = find_output(&outputs, self.headless_output.as_str());
        if at == outputs.len() {
            let ghost before = crate::monitors::output_views(outputs@);
            let output = DesktopOutput {
                name: self.headless_output.clone(),
                description: "Virtual Forge output".to_owned(),
                mode: self.headless_mode.clone(),
                workspace: 0,
                virtual_output: true,
            };
            let ghost first = output@;
            outputs.insert(0, output);
            assert(crate::monitors::output_views(outputs@) =~= seq![first] + before);
        }
        Ok(outputs)
    }

    /// Begins to capture an output: the one that is asked for, or else the virtual one.
    pub fn start(
        &self,
        helper_present: bool,
        helper_path: &str,
        requested_output: Option<&str>,
    ) -> (step: StartStep)
        ensures
            step@ == start_spec(
                self@,
                helper_present,
                helper_path@,
                (match requested_output {
                    Some(name) => Some(name@),
                    None => None,
                }),
            ),
    {
        if !helper_present {
            return StartStep::Done(Err(DesktopError::HelperMissing(helper_path.to_owned())));
        }
        let requested: String = match requested_output {
            Some(name) => name.to_owned(),
            None => self.headless_output.clone(),
        };
        if self.viewer_connected && !same_text(requested.as_str(), self.selection.output.as_str()) {
            return StartStep::Done(Err(DesktopError::ViewerConnected));
        }
        StartStep::Run {
            args: list_command(),
            next: Start { requested, stage: StartStage::Listing },
        }
    }

    fn configure(&self, requested: String) -> (step: StartStep)
        ensures
            step@ == configure_step(self@, requested@),
    {
        StartStep::Run {
            args: configure_command(&self.headless_output, &self.headless_mode),
            next: Start { requested, stage: StartStage::Configuring },
        }
    }

    fn start_listed(&self, requested: String, reply: &HyprReply) -> (step: StartStep)
        ensures
            step@ == start_reply_spec(
                self@,
                StartView { requested: requested@, stage: StageView::Listing },
                reply@,
            ),
    {
        let outputs = match read_list(reply, self.headless_output.as_str()) {
            Ok(outputs) => outputs,
            Err(error) => return StartStep::Done(Err(error)),
        };
        let there: bool = find_output(&outputs, requested.as_str()) < outputs.len();
        if same_text(requested.as_str(), self.headless_output.as_str()) {
            if there {
                self.configure(requested)
            } else {
                StartStep::Run {
                    args: create_command(&self.headless_output),
                    next: Start { requested, stage: StartStage::Creating },
                }
            }
        } else if there {
            StartStep::Run {
                args: list_command(),
                next: Start { requested, stage: StartStage::Confirming },
            }
        } else {
            StartStep::Done(Err(DesktopError::OutputMissing(requested)))
        }
    }

    fn start_confirmed(&mut self, requested: String, reply: &HyprReply) -> (step: StartStep)
        ensures
            step@ == start_reply_spec(
                old(self)@,
                StartView { requested: requested@, stage: StageView::Confirming },
                reply@,
            ),
            final(self)@ == started(old(self)@, step@),
    {
        let mut outputs = match read_list(reply, self.headless_output.as_str()) {
            Ok(outputs) => outputs,
            Err(error) => return StartStep::Done(Err(error)),
        };
        let at: usize = find_output(&outputs, requested.as_str());
        if at == outputs.len() {
            return StartStep::Done(Err(DesktopError::OutputDisappeared(requested)));
        }
        let ghost views = crate::monitors::output_views(outputs@);
        assert(views[at as int] == outputs@[at as int]@);
        let selected = outputs.swap_remove(at);
        let selection = DesktopSelection {
            output: selected.name,
            mode: selected.mode,
            workspace: selected.workspace,
            virtual_output: selected.virtual_output,
        };
        self.selection = copy_selection(&selection);
        self.active = true;
        StartStep::Done(Ok(selection))
    }

    /// Goes on with a start after a reply of `hyprctl`.
    pub fn start_reply(&mut self, start: Start, reply: &HyprReply) -> (step: StartStep)
        ensures
            step@ == start_reply_spec(old(self)@, start@, reply@),
            final(self)@ == started(old(self)@, step@),
    {
        let Start { requested, stage } = start;
        match stage {
            StartStage::Listing => self.start_listed(requested, reply),
            StartStage::Creating => match reply {
                HyprReply::Failed(message) => StartStep::Done(
                    Err(DesktopError::Hyprctl(message.clone())),
                ),
                HyprReply::Printed { text: _, monitors: _ } => self.configure(requested),
            },
            StartStage::Configuring => match reply {
                HyprReply::Failed(message) => StartStep::Run {
                    args: remove_command(&self.headless_output),
                    next: Start { requested, stage: StartStage::Removing(message.clone()) },
                },
                HyprReply::Printed { text: _, monitors: _ } => StartStep::Run {
                    args: list_command(),
                    next: Start { requested, stage: StartStage::Confirming },
                },
            },
            StartStage::Removing(message) => StartStep::Done(Err(DesktopError::Hyprctl(message))),
            StartStage::Confirming => self.start_confirmed(requested, reply),
        }
    }

    /// Ends the capture. From here on nothing is captured, whatever `hyprctl` replies.
    pub fn stop(&mut self) -> (step: StopStep)
        ensures
            step@ == stop_spec(old(self)@),
            final(self)@ == (ManagerView { active: false, ..old(self)@ }),
    {
        if !self.active {
            return StopStep::Done(Ok(()));
        }
        self.active = false;
        StopStep::Run { args: list_command(), next: StopStage::Listing }
    }

    /// Goes on with a stop after a reply of `hyprctl`.
    pub fn stop_reply(&self, stage: StopStage, reply: &HyprReply) -> (step: StopStep)
        ensures
            step@ == stop_reply_spec(self@, stage, reply@),
    {
        match stage {
            StopStage::Listing => {
                let outputs = match read_list(reply, self.headless_output.as_str()) {
                    Ok(outputs) => outputs,
                    Err(error) => return StopStep::Done(Err(error)),
                };
                if find_output(&outputs, self.headless_output.as_str()) < outputs.len() {
                    StopStep::Run {
                        args: remove_command(&self.headless_output),
                        next: StopStage::Removing,
                    }
                } else {
                    StopStep::Done(Ok(()))
                }
            },
            StopStage::Removing => match reply {
                HyprReply::Failed(message) => StopStep::Done(
                    Err(DesktopError::Hyprctl(message.clone())),
                ),
                HyprReply::Printed { text: _, monitors: _ } => StopStep::Done(Ok(())),
            },
        }
    }

    /// Begins to open a terminal on the active workspace of the captured output.
    pub fn launch_terminal(&self) -> (step: LaunchStep)
        ensures
            step@ == launch_spec(self@),
    {
        if !self.active {
            return LaunchStep::Done(Err(DesktopError::NotActive));
        }
        LaunchStep::Run {
            args: list_command(),
            next: LaunchStage::Listing(self.selection.output.clone()),
        }
    }

    /// A viewer wants to watch; `None` where the viewer may, and is then the only one.
    pub fn desktop_ws(&mut self) -> (refusal: Option<Reply>)
        ensures
            match refusal {
                Some(reply) => viewer_refusal(old(self)@) == Some(reply@) && final(self)@ == old(
                    self,
                )@,
                None => {
                    &&& viewer_refusal(old(self)@) is None
                    &&& final(self)@ == (ManagerView { viewer_connected: true, ..old(self)@ })
                },
            },
    {
        if !self.active {
            return Some(Reply::text(CONFLICT, "desktop capture is not active"));
        }
        if self.viewer_connected {
            return Some(Reply::text(CONFLICT, "a desktop viewer is already connected"));
        }
        self.viewer_connected = true;
        None
    }

    /// The viewer has left.
    pub fn viewer_left(&mut self)
        ensures
            final(self)@ == (ManagerView { viewer_connected: false, ..old(self)@ }),
    {
        self.viewer_connected = false;
    }

    /// How the desktop stands. Where the outputs could not be listed, none are told.
    pub fn desktop_status(
        &self,
        available: bool,
        outputs: Result<Vec<DesktopOutput>, DesktopError>,
    ) -> (status: DesktopStatusResponse)
        ensures
            status.available == available,
            status.active == self@.active,
            status.viewer_connected == self@.viewer_connected,
            status.output@ == self@.selection.output,
            status.mode@ == self@.selection.mode,
            status.workspace == self@.selection.workspace,
            status.transport@ == "WebRTC/VP8"@,
            status.input@ == "WebRTC DataChannel"@,
            status.virtual_output == self@.selection.virtual_output,
            match outputs {
                Ok(outputs) => status.outputs == outputs,
                Err(_) => status.outputs@.len() == 0,
            },
    {
        let outputs: Vec<DesktopOutput> = match outputs {
            Ok(outputs) => outputs,
            Err(_) => Vec::new(),
        };
        let selection = self.selection();
        DesktopStatusResponse {
            available,
            active: self.active,
            viewer_connected: self.viewer_connected,
            output: selection.output,
            mode: selection.mode,
            workspace: selection.workspace,
            transport: "WebRTC/VP8",
            input: "WebRTC DataChannel",
            virtual_output: selection.virtual_output,
            outputs,
        }
    }
}

/// Goes on with a launch after a reply of `hyprctl`.
pub fn launch_reply(stage: LaunchStage, reply: &HyprReply) -> (step: LaunchStep)
    ensures
        step@ == launch_reply_spec(
            stage@,
            reply@,
            crate::monitors::json_document(printed_text(reply@)),
        ),
{
    match reply {
        HyprReply::Failed(message) => LaunchStep::Done(Err(DesktopError::Hyprctl(message.clone()))),
        HyprReply::Printed { text, monitors: _ } => match stage {
            LaunchStage::Listing(output) => launch_found(
                monitor_workspace(text.as_str(), output.as_str()),
            ),
            LaunchStage::Launching(workspace) => LaunchStep::Done(Ok(workspace)),
        },
    }
}

/// The reply to a request that failed.
pub open spec fn failure_reply(error: crate::error::ErrorView) -> crate::reply::ReplyView {
    crate::reply::single_member(
        SERVICE_UNAVAILABLE,
        "error"@,
        crate::reply::ScalarView::Text(crate::error::message_of(error)),
    )
}

/// The reply to a start.
pub open spec fn start_answer(
    outcome: Result<SelectionView, crate::error::ErrorView>,
) -> crate::reply::ReplyView {
    match outcome {
        Ok(selection) => crate::reply::ReplyView {
            status: OK,
            set_cookie: None,
            body: crate::reply::BodyView::Object(
                seq![
                    ("active"@, crate::reply::ScalarView::Bool(true)),
                    ("output"@, crate::reply::ScalarView::Text(selection.output)),
                    ("workspace"@, crate::reply::ScalarView::Number(selection.workspace)),
                ],
            ),
        },
        Err(error) => failure_reply(error),
    }
}

/// Answers a start.
pub fn desktop_start(outcome: Result<DesktopSelection, DesktopError>) -> (reply: Reply)
    ensures
        reply@ == start_answer(
            (match outcome {
                Ok(selection) => Ok(selection@),
                Err(error) => Err(error@),
            }),
        ),
{
    match outcome {
        Ok(selection) => {
            let mut members: Vec<Member> = Vec::new();
            members.push(Member { name: "active", value: Scalar::Bool(true) });
            members.push(Member { name: "output", value: Scalar::Text(selection.output) });
            members.push(Member { name: "workspace", value: Scalar::Number(selection.workspace) });
            assert(crate::reply::member_views(members@) =~= seq![
                ("active"@, crate::reply::ScalarView::Bool(true)),
                ("output"@, crate::reply::ScalarView::Text(selection.output@)),
                ("workspace"@, crate::reply::ScalarView::Number(selection.workspace)),
            ]);
            Reply { status: OK, set_cookie: None, body: Body::Object(members) }
        },
        Err(error) => Reply::error(SERVICE_UNAVAILABLE, error.message()),
    }
}

/// Answers a stop.
pub fn desktop_stop(outcome: Result<(), DesktopError>) -> (reply: Reply)
    ensures
        match outcome {
            Ok(_) => reply@ == crate::reply::single_member(
                OK,
                "active"@,
                crate::reply::ScalarView::Bool(false),
            ),
            Err(error) => reply@ == failure_reply(error@),
        },
{
    match outcome {
        Ok(_) => Reply::single(OK, "active", Scalar::Bool(false)),
        Err(error) => Reply::error(SERVICE_UNAVAILABLE, error.message()),
    }
}

/// Answers a launch of a terminal.
pub fn desktop_launch_terminal(outcome: Result<u32, DesktopError>) -> (reply: Reply)
    ensures
        match outcome {
            Ok(workspace) => reply@ == crate::reply::single_member(
                OK,
                "workspace"@,
                crate::reply::ScalarView::Number(workspace),
            ),
            Err(error) => reply@ == failure_reply(error@),
        },
{
    match outcome {
        Ok(workspace) => Reply::single(OK, "workspace", Scalar::Number(workspace)),
        Err(error) => Reply::error(SERVICE_UNAVAILABLE, error.message()),
    }
}

/// The commands that a start runs, where `replies` are the replies of `hyprctl` in turn.
pub open spec fn start_commands(
    desktop: ManagerView,
    step: StartStepView,
    replies: Seq<HyprReplyView>,
) -> Seq<Seq<Seq<char>>>
    decreases replies.len(),
{
    match step {
        StartStepView::Done(_) => seq![],
        StartStepView::Run { args, next } => if replies.len() == 0 {
            seq![args]
        } else {
            seq![args] + start_commands(
                desktop,
                start_reply_spec(desktop, next, replies[0]),
                replies.drop_first(),
            )
        },
    }
}

/// How a start ends, where `replies` are the replies of `hyprctl` in turn; `None` where it waits
/// for more.
pub open spec fn start_outcome(
    desktop: ManagerView,
    step: StartStepView,
    replies: Seq<HyprReplyView>,
) -> Option<Result<SelectionView, crate::error::ErrorView>>
    decreases replies.len(),
{
    match step {
        StartStepView::Done(result) => Some(result),
        StartStepView::Run { args: _, next } => if replies.len() == 0 {
            None
        } else {
            start_outcome(
                desktop,
                start_reply_spec(desktop, next, replies[0]),
                replies.drop_first(),
            )
        },
    }
}

/// Whether a step of a start is for that output.
pub open spec fn step_is_for(step: StartStepView, name: Seq<char>) -> bool {
    step matches StartStepView::Run { args: _, next } ==> next.requested == name
}

proof fn lemma_position(outputs: Seq<crate::monitors::OutputView>, name: Seq<char>)
    requires
        has_output(outputs, name),
    ensures
        0 <= output_position(outputs, name) < outputs.len(),
        outputs[output_position(outputs, name)].name == name,
    decreases outputs.len(),
{
    let i = choose|i: int| 0 <= i < outputs.len() && (#[trigger] outputs[i]).name == name;
    if outputs[0].name != name {
        assert(outputs.drop_first()[i - 1].name == name);
        lemma_position(outputs.drop_first(), name);
    }
}

proof fn lemma_start_step(desktop: ManagerView, start: StartView, reply: HyprReplyView)
    ensures
        step_is_for(start_reply_spec(desktop, start, reply), start.requested),
        start_reply_spec(desktop, start, reply) matches StartStepView::Done(Ok(selection)) ==> {
            &&& selection.output == start.requested
            &&& selection.virtual_output == (start.requested == desktop.headless_output)
        },
{
    if let StageView::Confirming = start.stage {
        if let Ok(outputs) = listed(reply, desktop.headless_output) {
            if has_output(outputs, start.requested) {
                lemma_position(outputs, start.requested);
            }
        }
    }
}

proof fn lemma_started_output(
    desktop: ManagerView,
    step: StartStepView,
    name: Seq<char>,
    replies: Seq<HyprReplyView>,
)
    requires
        step_is_for(step, name),
        !(step matches StartStepView::Done(Ok(_))),
    ensures
        start_outcome(desktop, step, replies) matches Some(Ok(selection)) ==> {
            &&& selection.output == name
            &&& selection.virtual_output == (name == desktop.headless_output)
        },
    decreases replies.len(),
{
    if let StartStepView::Run { args, next } = step {
        if replies.len() > 0 {
            lemma_start_step(desktop, next, replies[0]);
            let following = start_reply_spec(desktop, next, replies[0]);
            if !(following matches StartStepView::Done(Ok(_))) {
                lemma_started_output(desktop, following, name, replies.drop_first());
            }
        }
    }
}

/// A start that succeeds captures the output that was asked for, or the virtual output where none
/// was.
pub proof fn law_start_captures_what_was_asked_for(
    desktop: ManagerView,
    helper_present: bool,
    helper_path: Seq<char>,
    requested: Option<Seq<char>>,
    replies: Seq<HyprReplyView>,
)
    ensures
        start_outcome(
            desktop,
            start_spec(desktop, helper_present, helper_path, requested),
            replies,
        ) matches Some(Ok(selection)) ==> {
            &&& selection.output == requested_output(desktop, requested)
            &&& selection.virtual_output == (selection.output == desktop.headless_output)
        },
{
    lemma_started_output(
        desktop,
        start_spec(desktop, helper_present, helper_path, requested),
        requested_output(desktop, requested),
        replies,
    );
}

/// How many more replies a step of a start can need.
pub open spec fn replies_needed(step: StartStepView) -> nat {
    match step {
        StartStepView::Done(_) => 0,
        StartStepView::Run { args: _, next } => match next.stage {
            StageView::Listing => 4,
            StageView::Creating => 3,
            StageView::Configuring => 2,
            StageView::Removing(_) => 1,
            StageView::Confirming => 1,
        },
    }
}

proof fn lemma_start_ends(desktop: ManagerView, step: StartStepView, replies: Seq<HyprReplyView>)
    requires
        replies.len() >= replies_needed(step),
    ensures
        start_outcome(desktop, step, replies) is Some,
        start_commands(desktop, step, replies).len() <= replies_needed(step),
    decreases replies.len(),
{
    if let StartStepView::Run { args, next } = step {
        lemma_start_ends(
            desktop,
            start_reply_spec(desktop, next, replies[0]),
            replies.drop_first(),
        );
    }
}

/// A start runs at most four commands, whatever they reply, and then ends.
pub proof fn law_start_ends(
    desktop: ManagerView,
    helper_present: bool,
    helper_path: Seq<char>,
    requested: Option<Seq<char>>,
    replies: Seq<HyprReplyView>,
)
    requires
        replies.len() >= 4,
    ensures
        ({
            let first = start_spec(desktop, helper_present, helper_path, requested);
            &&& start_outcome(desktop, first, replies) is Some
            &&& start_commands(desktop, first, replies).len() <= 4
        }),
{
    lemma_start_ends(
        desktop,
        start_spec(desktop, helper_present, helper_path, requested),
        replies,
    );
}

/// A step of a start that only looks at the monitors.
pub open spec fn step_only_lists(step: StartStepView) -> bool {
    step matches StartStepView::Run { args, next } ==> args == list_args() && (next.stage is Listing
        || next.stage is Confirming)
}

proof fn lemma_only_lists(
    desktop: ManagerView,
    step: StartStepView,
    name: Seq<char>,
    replies: Seq<HyprReplyView>,
)
    requires
        name != desktop.headless_output,
        step_is_for(step, name),
        step_only_lists(step),
    ensures
        forall|i: int|
            0 <= i < start_commands(desktop, step, replies).len() ==> #[trigger] start_commands(
                desktop,
                step,
                replies,
            )[i] == list_args(),
    decreases replies.len(),
{
    if let StartStepView::Run { args, next } = step {
        if replies.len() > 0 {
            let following = start_reply_spec(desktop, next, replies[0]);
            lemma_start_step(desktop, next, replies[0]);
            lemma_only_lists(desktop, following, name, replies.drop_first());
            let rest = start_commands(desktop, following, replies.drop_first());
            let all = start_commands(desktop, step, replies);
            assert forall|i: int| 0 <= i < all.len() implies #[trigger] all[i] == list_args() by {
                if i > 0 {
                    assert(all[i] == rest[i - 1]);
                }
            }
        }
    }
}

/// To capture a physical output nothing is created, changed or removed: the monitors are listed,
/// and that is all.
pub proof fn law_physical_outputs_are_left_alone(
    desktop: ManagerView,
    helper_present: bool,
    helper_path: Seq<char>,
    requested: Seq<char>,
    replies: Seq<HyprReplyView>,
)
    requires
        requested != desktop.headless_output,
    ensures
        ({
            let first = start_spec(desktop, helper_present, helper_path, Some(requested));
            let commands = start_commands(desktop, first, replies);
            forall|i: int| 0 <= i < commands.len() ==> #[trigger] commands[i] == list_args()
        }),
{
    lemma_only_lists(
        desktop,
        start_spec(desktop, helper_present, helper_path, Some(requested)),
        requested,
        replies,
    );
}

/// A start that fails leaves the desktop as it was; one that succeeds changes the selection and
/// makes the capture active, and nothing else.
pub proof fn law_failed_start_changes_nothing(
    desktop: ManagerView,
    start: StartView,
    reply: HyprReplyView,
)
    ensures
        ({
            let step = start_reply_spec(desktop, start, reply);
            let after = started(desktop, step);
            &&& !(step matches StartStepView::Done(Ok(_))) ==> after == desktop
            &&& after.viewer_connected == desktop.viewer_connected
            &&& after.headless_output == desktop.headless_output
            &&& after.headless_mode == desktop.headless_mode
            &&& step matches StartStepView::Done(Ok(selection)) ==> after.active && after.selection
                == selection
        }),
{
}

/// While a viewer watches one output, a start of another is refused before anything is run.
pub proof fn law_no_switch_under_a_viewer(
    desktop: ManagerView,
    helper_path: Seq<char>,
    requested: Option<Seq<char>>,
    replies: Seq<HyprReplyView>,
)
    requires
        desktop.viewer_connected,
        requested_output(desktop, requested) != desktop.selection.output,
    ensures
        ({
            let first = start_spec(desktop, true, helper_path, requested);
            &&& start_commands(desktop, first, replies).len() == 0
            &&& start_outcome(desktop, first, replies) == Some(
                Err::<SelectionView, _>(crate::error::ErrorView::ViewerConnected),
            )
        }),
{
}

/// A virtual output that does not take its mode is removed, and the start fails with what the
/// mode command said, whatever the removal replies.
pub proof fn law_unusable_virtual_output_is_removed(
    desktop: ManagerView,
    requested: Seq<char>,
    message: Seq<char>,
    removal: HyprReplyView,
)
    ensures
        ({
            let waiting = StartView { requested, stage: StageView::Configuring };
            let step = start_reply_spec(desktop, waiting, HyprReplyView::Failed(message));
            &&& step matches StartStepView::Run { args, next }
            &&& args == remove_args(desktop.headless_output)
            &&& start_reply_spec(desktop, next, removal) == StartStepView::Done(
                Err(crate::error::ErrorView::Hyprctl(message)),
            )
        }),
{
}

/// Stopping twice is stopping once: the second stop runs nothing.
pub proof fn law_second_stop_does_nothing(desktop: ManagerView)
    ensures
        stop_spec(ManagerView { active: false, ..desktop }) == StopStepView::Done(Ok(())),
{
}

/// A stop removes nothing but the virtual output, and that only where it is listed.
pub proof fn law_stop_removes_only_the_virtual_output(
    desktop: ManagerView,
    stage: StopStage,
    reply: HyprReplyView,
)
    ensures
        stop_reply_spec(desktop, stage, reply) matches StopStepView::Run { args, next } ==> {
            &&& args == remove_args(desktop.headless_output)
            &&& stage is Listing
            &&& next is Removing
            &&& listed(reply, desktop.headless_output) matches Ok(outputs)
            &&& has_output(outputs, desktop.headless_output)
        },
{
}

/// One viewer at a time: once a viewer watches, no other may until the first has left. That a
/// viewer came and left again changes nothing, so that the next one may watch.
pub proof fn law_one_viewer_at_a_time(desktop: ManagerView)
    requires
        viewer_refusal(desktop) is None,
    ensures
        ({
            let watched = ManagerView { viewer_connected: true, ..desktop };
            let left = ManagerView { viewer_connected: false, ..watched };
            &&& viewer_refusal(watched) is Some
            &&& left == desktop
            &&& viewer_refusal(left) is None
        }),
{
}

/// After a stop no viewer may watch and no terminal is opened, until the next start succeeds.
pub proof fn law_nothing_works_after_a_stop(desktop: ManagerView)
    ensures
        ({
            let stopped = ManagerView { active: false, ..desktop };
            &&& viewer_refusal(stopped) is Some
            &&& launch_spec(stopped) is Done
            &&& stop_spec(stopped) is Done
        }),
{
}

/// The virtual output is always among the outputs to choose from, and all that are listed are.
pub proof fn law_virtual_output_can_be_chosen(
    outputs: Seq<crate::monitors::OutputView>,
    headless: Seq<char>,
    mode: Seq<char>,
)
    ensures
        has_output(all_outputs(outputs, headless, mode), headless),
        forall|i: int|
            0 <= i < outputs.len() ==> all_outputs(outputs, headless, mode).contains(
                #[trigger] outputs[i],
            ),
{
    let all = all_outputs(outputs, headless, mode);
    if !has_output(outputs, headless) {
        assert(all[0].name == headless);
    }
    assert forall|i: int| 0 <= i < outputs.len() implies all.contains(#[trigger] outputs[i]) by {
        if has_output(outputs, headless) {
            assert(all[i] == outputs[i]);
        } else {
            assert(all[i + 1] == outputs[i]);
        }
    }
}

/// The active workspace of the first output of that name; `None` where there is none.
pub open spec fn workspace_of(
    outputs: Seq<crate::monitors::OutputView>,
    name: Seq<char>,
) -> Option<u32> {
    if has_output(outputs, name) {
        Some(outputs[output_position(outputs, name)].workspace)
    } else {
        None
    }
}

proof fn lemma_workspace_among(
    items: Seq<crate::monitors::Json>,
    outputs: Seq<crate::monitors::OutputView>,
    name: Seq<char>,
)
    requires
        items.len() == outputs.len(),
        forall|i: int|
            0 <= i < items.len() ==> {
                &&& crate::monitors::is_named(#[trigger] items[i], outputs[i].name)
                &&& crate::monitors::active_workspace(items[i]) == Some(outputs[i].workspace)
            },
    ensures
        crate::monitors::workspace_among(items, name) == workspace_of(outputs, name),
    decreases items.len(),
{
    if items.len() > 0 {
        assert(crate::monitors::is_named(items[0], outputs[0].name));
        if outputs[0].name != name {
            let items_left = items.drop_first();
            let left = outputs.drop_first();
            assert forall|i: int| 0 <= i < items_left.len() implies {
                &&& crate::monitors::is_named(#[trigger] items_left[i], left[i].name)
                &&& crate::monitors::active_workspace(items_left[i]) == Some(left[i].workspace)
            } by {
                assert(items_left[i] == items[i + 1]);
            }
            lemma_workspace_among(items_left, left, name);
            if has_output(outputs, name) {
                let i = choose|i: int| 0 <= i < outputs.len() && (#[trigger] outputs[i]).name == name;
                assert(left[i - 1].name == name);
                lemma_position(left, name);
            } else if has_output(left, name) {
                let i = choose|i: int| 0 <= i < left.len() && (#[trigger] left[i]).name == name;
                assert(outputs[i + 1].name == name);
            }
        }
    }
}

/// The two ways in which a list of monitors is read agree: the workspace that a terminal is opened
/// on is the one that is shown for the first output of that name, and is missed just where no
/// output of that name is shown.
pub proof fn law_workspaces_are_those_of_the_outputs(
    document: crate::monitors::Json,
    monitors: Seq<crate::monitors::MonitorView>,
    headless: Seq<char>,
    name: Seq<char>,
)
    requires
        crate::monitors::same_listing(document, monitors),
    ensures
        ({
            let shown = workspace_of(crate::monitors::outputs_of(monitors, headless), name);
            &&& crate::monitors::workspace_in(document, name) == shown
            &&& crate::monitors::workspace_spec(Some(document), name) == match shown {
                Some(id) => Ok(id),
                None => Err(crate::error::ErrorView::NoWorkspace(name)),
            }
        }),
{
    if let crate::monitors::Json::List(items) = document {
        lemma_workspace_among(
            items@,
            crate::monitors::outputs_of(monitors, headless),
            name,
        );
    }
}

/// A terminal is opened only while something is captured, and a start that succeeds makes that
/// so, for the output that was started.
pub proof fn law_terminal_opens_on_the_started_output(
    desktop: ManagerView,
    selection: SelectionView,
)
    ensures
        !desktop.active ==> launch_spec(desktop) == LaunchStepView::Done(
            Err(crate::error::ErrorView::NotActive),
        ),
        launch_spec(started(desktop, StartStepView::Done(Ok(selection)))) == (LaunchStepView::Run {
            args: list_args(),
            next: LaunchStageView::Listing(selection.output),
        }),
{
}

/// What the state of the desktop and a selection hold is what their fields hold.
pub proof fn law_desktop_views_show_every_field(desktop: DesktopManager)
    ensures
        desktop@.active == desktop.active,
        desktop@.viewer_connected == desktop.viewer_connected,
        desktop@.headless_output == desktop.headless_output@,
        desktop@.headless_mode == desktop.headless_mode@,
        desktop@.selection.output == desktop.selection.output@,
        desktop@.selection.mode == desktop.selection.mode@,
        desktop@.selection.workspace == desktop.selection.workspace,
        desktop@.selection.virtual_output == desktop.selection.virtual_output,
{
}

/// What a step holds is what its variant holds: the words of the command and what it waits for, or
/// how it ended.
pub proof fn law_step_views_show_every_field(
    args: Vec<String>,
    start: Start,
    stop: StopStage,
    launch: LaunchStage,
    selection: DesktopSelection,
    workspace: u32,
)
    ensures
        start@.requested == start.requested@,
        match start.stage {
            StartStage::Listing => start@.stage is Listing,
            StartStage::Creating => start@.stage is Creating,
            StartStage::Configuring => start@.stage is Configuring,
            StartStage::Removing(message) => start@.stage == StageView::Removing(message@),
            StartStage::Confirming => start@.stage is Confirming,
        },
        match launch {
            LaunchStage::Listing(output) => launch@ == LaunchStageView::Listing(output@),
            LaunchStage::Launching(id) => launch@ == LaunchStageView::Launching(id),
        },
        (StartStep::Run { args, next: start })@ == (StartStepView::Run {
            args: crate::text::texts(args@),
            next: start@,
        }),
        (StopStep::Run { args, next: stop })@ == (StopStepView::Run {
            args: crate::text::texts(args@),
            next: stop,
        }),
        (LaunchStep::Run { args, next: launch })@ == (LaunchStepView::Run {
            args: crate::text::texts(args@),
            next: launch@,
        }),
        StartStep::Done(Ok(selection))@ == StartStepView::Done(Ok(selection@)),
        StopStep::Done(Ok(()))@ == StopStepView::Done(Ok(())),
        LaunchStep::Done(Ok(workspace))@ == LaunchStepView::Done(Ok(workspace)),
{
}

/// A step that failed holds the error that it failed with.
pub proof fn law_failed_step_views_show_the_error(error: DesktopError)
    ensures
        StartStep::Done(Err(error))@ == StartStepView::Done(Err(error@)),
        StopStep::Done(Err(error))@ == StopStepView::Done(Err(error@)),
        LaunchStep::Done(Err(error))@ == LaunchStepView::Done(Err(error@)),
        crate::monitors::result_view(Err::<u32, DesktopError>(error)) == Err::<u32, _>(error@),
{
}

/// Before anything was captured nothing is, nobody watches, and the virtual output, in its mode, is
/// the one that is selected.
pub proof fn law_desktop_begins_idle(output: Seq<char>, mode: Seq<char>)
    ensures
        ({
            let desktop = initial_desktop(output, mode);
            &&& !desktop.active && !desktop.viewer_connected
            &&& desktop.headless_output == output && desktop.selection.output == output
            &&& desktop.headless_mode == mode && desktop.selection.mode == mode
            &&& desktop.selection.workspace == 0 && desktop.selection.virtual_output
        }),
{
}

/// A start is refused before anything is run exactly if the helper is missing, or a viewer watches
/// another output than the one that is asked for. To ask for none is to ask for the virtual output.
pub proof fn law_start_is_refused_only_for_cause(
    desktop: DesktopManager,
    helper_present: bool,
    helper_path: Seq<char>,
    name: Seq<char>,
)
    ensures
        start_spec(desktop@, helper_present, helper_path, None) == start_spec(
            desktop@,
            helper_present,
            helper_path,
            Some(desktop.headless_output@),
        ),
        ({
            let step = start_spec(desktop@, helper_present, helper_path, Some(name));
            &&& !helper_present ==> step == StartStepView::Done(
                Err(crate::error::ErrorView::HelperMissing(helper_path)),
            )
            &&& helper_present && desktop.viewer_connected && name != desktop.selection.output@
                ==> step == StartStepView::Done(Err(crate::error::ErrorView::ViewerConnected))
            &&& helper_present && (!desktop.viewer_connected || name == desktop.selection.output@)
                ==> {
                &&& step matches StartStepView::Run { args, next }
                &&& args == seq!["monitors"@, "all"@, "-j"@]
                &&& next.requested == name
                &&& next.stage is Listing
            }
        }),
{
}

proof fn lemma_listed_name(list: Seq<HyprMonitor>, headless: Seq<char>, name: Seq<char>, k: int)
    requires
        0 <= k <= list.len(),
        forall|j: int| 0 <= j < k ==> (#[trigger] list[j]).name@ != name,
        k < list.len() ==> list[k].name@ == name,
    ensures
        ({
            let outputs = crate::monitors::outputs_of(
                crate::monitors::monitor_views(list),
                headless,
            );
            &&& outputs.len() == list.len()
            &&& output_position(outputs, name) == k
            &&& has_output(outputs, name) <==> k < list.len()
        }),
{
    let outputs = crate::monitors::outputs_of(crate::monitors::monitor_views(list), headless);
    assert forall|j: int| 0 <= j < k implies (#[trigger] outputs[j]).name != name by {
        assert(outputs[j].name == list[j].name@);
    }
    if k < list.len() {
        assert(outputs[k].name == list[k].name@);
    }
    lemma_output_position(outputs, name, k);
}

proof fn lemma_first_of_name(list: Seq<HyprMonitor>, name: Seq<char>, n: int) -> (k: int)
    requires
        0 <= n <= list.len(),
    ensures
        0 <= k <= n,
        forall|j: int| 0 <= j < k ==> (#[trigger] list[j]).name@ != name,
        k < n ==> list[k].name@ == name,
    decreases n,
{
    if n == 0 {
        0
    } else {
        let k = lemma_first_of_name(list, name, n - 1);
        if k < n - 1 || list[n - 1].name@ == name {
            k
        } else {
            n
        }
    }
}

/// A physical output that is listed can be captured, at whatever position it is listed: where both
/// lists of monitors hold it, the start succeeds after these two, with the name, the mode and the
/// workspace of the first monitor of that name in the second list, and the capture is active. `i`
/// is any position of the output in the first list, `k` its first in the second.
pub proof fn law_listed_output_is_captured(
    desktop: DesktopManager,
    helper_path: Seq<char>,
    name: Seq<char>,
    first: Vec<HyprMonitor>,
    first_text: String,
    i: int,
    second: Vec<HyprMonitor>,
    second_text: String,
    k: int,
)
    requires
        name != desktop.headless_output@,
        desktop.viewer_connected ==> name == desktop.selection.output@,
        0 <= i < first@.len(),
        first@[i].name@ == name,
        0 <= k < second@.len(),
        second@[k].name@ == name,
        forall|j: int| 0 <= j < k ==> (#[trigger] second@[j]).name@ != name,
    ensures
        ({
            let first_reply = HyprReply::Printed { text: first_text, monitors: Some(first) };
            let second_reply = HyprReply::Printed { text: second_text, monitors: Some(second) };
            let shown = crate::monitors::outputs_of(
                crate::monitors::monitor_views(second@),
                desktop.headless_output@,
            )[k];
            &&& start_spec(desktop@, true, helper_path, Some(name)) matches StartStepView::Run {
                args: list,
                next: start,
            }
            &&& list == seq!["monitors"@, "all"@, "-j"@]
            &&& start_reply_spec(desktop@, start, first_reply@) matches StartStepView::Run {
                args: list_again,
                next: confirming,
            }
            &&& list_again == seq!["monitors"@, "all"@, "-j"@]
            &&& start_reply_spec(desktop@, confirming, second_reply@) matches StartStepView::Done(
                Ok(selection),
            )
            &&& selection.output == name
            &&& selection.mode == shown.mode
            &&& selection.workspace == second@[k].active_workspace.id
            &&& !selection.virtual_output
            &&& started(desktop@, StartStepView::Done(Ok(selection))) == (ManagerView {
                active: true,
                viewer_connected: desktop.viewer_connected,
                headless_output: desktop.headless_output@,
                headless_mode: desktop.headless_mode@,
                selection,
            })
        }),
{
    let n = lemma_first_of_name(first@, name, first@.len() as int);
    if n == first@.len() {
        assert(first@[i].name@ != name);
    }
    lemma_listed_name(first@, desktop.headless_output@, name, n);
    lemma_listed_name(second@, desktop.headless_output@, name, k);
}

/// That an output does not exist is answered exactly if a physical output is asked for and none of
/// the monitors of the first list has its name.
pub proof fn law_output_is_missing_only_if_not_listed(
    desktop: DesktopManager,
    start: StartView,
    text: String,
    list: Vec<HyprMonitor>,
    reply: HyprReply,
)
    ensures
        start.stage is Listing && start.requested != desktop.headless_output@ ==> {
            let step = start_reply_spec(
                desktop@,
                start,
                (HyprReply::Printed { text, monitors: Some(list) })@,
            );
            step == StartStepView::Done(
                Err(crate::error::ErrorView::OutputMissing(start.requested)),
            ) <==> forall|j: int|
                0 <= j < list@.len() ==> (#[trigger] list@[j]).name@ != start.requested
        },
        start_reply_spec(desktop@, start, reply@) matches StartStepView::Done(
            Err(crate::error::ErrorView::OutputMissing(name)),
        ) ==> {
            &&& name == start.requested
            &&& name != desktop.headless_output@
            &&& start.stage is Listing
            &&& reply matches HyprReply::Printed { text: _, monitors: Some(_) }
        },
{
    let n = lemma_first_of_name(list@, start.requested, list@.len() as int);
    lemma_listed_name(list@, desktop.headless_output@, start.requested, n);
}

/// The virtual output can always be captured: it is created exactly if it is not listed yet, then
/// given its mode, and where the list that follows holds it the start succeeds with what is listed
/// of it. `n` is the first position of the virtual output in the first list, or the length of that
/// list where it is not there, and `k` its first position in the second.
pub proof fn law_virtual_output_is_captured(
    desktop: DesktopManager,
    helper_path: Seq<char>,
    first: Vec<HyprMonitor>,
    first_text: String,
    n: int,
    second: Vec<HyprMonitor>,
    second_text: String,
    k: int,
    done: HyprReply,
)
    requires
        desktop.viewer_connected ==> desktop.headless_output@ == desktop.selection.output@,
        0 <= n <= first@.len(),
        forall|j: int|
            0 <= j < n ==> (#[trigger] first@[j]).name@ != desktop.headless_output@,
        n < first@.len() ==> first@[n].name@ == desktop.headless_output@,
        0 <= k < second@.len(),
        second@[k].name@ == desktop.headless_output@,
        forall|j: int| 0 <= j < k ==> (#[trigger] second@[j]).name@ != desktop.headless_output@,
        done is Printed,
    ensures
        ({
            let name = desktop.headless_output@;
            let first_reply = HyprReply::Printed { text: first_text, monitors: Some(first) };
            let second_reply = HyprReply::Printed { text: second_text, monitors: Some(second) };
            let shown = crate::monitors::outputs_of(
                crate::monitors::monitor_views(second@),
                name,
            )[k];
            let begun = StartView { requested: name, stage: StageView::Listing };
            let after_list = start_reply_spec(desktop@, begun, first_reply@);
            let configuring = StartView { requested: name, stage: StageView::Configuring };
            let configure = StartStepView::Run {
                args: seq![
                    "keyword"@,
                    "monitor"@,
                    name + ","@ + desktop.headless_mode@ + ",auto,1"@,
                ],
                next: configuring,
            };
            &&& start_spec(desktop@, true, helper_path, None) == (StartStepView::Run {
                args: seq!["monitors"@, "all"@, "-j"@],
                next: begun,
            })
            &&& n < first@.len() ==> after_list == configure
            &&& n == first@.len() ==> {
                &&& after_list matches StartStepView::Run { args, next }
                &&& args == seq!["output"@, "create"@, "headless"@, name]
                &&& start_reply_spec(desktop@, next, done@) == configure
            }
            &&& start_reply_spec(desktop@, configuring, done@) matches StartStepView::Run {
                args,
                next: confirming,
            }
            &&& args == seq!["monitors"@, "all"@, "-j"@]
            &&& start_reply_spec(desktop@, confirming, second_reply@) matches StartStepView::Done(
                Ok(selection),
            )
            &&& selection.output == name
            &&& selection.mode == shown.mode
            &&& selection.workspace == second@[k].active_workspace.id
            &&& selection.virtual_output
        }),
{
    lemma_listed_name(first@, desktop.headless_output@, desktop.headless_output@, n);
    lemma_listed_name(second@, desktop.headless_output@, desktop.headless_output@, k);
}

/// Where `hyprctl` fails a start fails with what it said, once an output that did not take its mode
/// is removed. Where it prints no list of monitors the start fails for that, and where the second
/// list does not hold the output any more, for that.
pub proof fn law_failed_steps_fail_the_start(
    desktop: DesktopManager,
    start: StartView,
    message: String,
    text: String,
    list: Vec<HyprMonitor>,
)
    ensures
        start.stage is Listing || start.stage is Creating || start.stage is Confirming
            ==> start_reply_spec(desktop@, start, HyprReply::Failed(message)@)
            == StartStepView::Done(Err(crate::error::ErrorView::Hyprctl(message@))),
        start.stage is Configuring ==> {
            &&& start_reply_spec(
                desktop@,
                start,
                HyprReply::Failed(message)@,
            ) matches StartStepView::Run { args, next }
            &&& args == seq!["output"@, "remove"@, desktop.headless_output@]
            &&& next.requested == start.requested
            &&& next.stage == StageView::Removing(message@)
        },
        start.stage is Listing || start.stage is Confirming ==> start_reply_spec(
            desktop@,
            start,
            (HyprReply::Printed { text, monitors: None })@,
        ) == StartStepView::Done(Err(crate::error::ErrorView::InvalidMonitors)),
        start.stage is Confirming ==> (start_reply_spec(
            desktop@,
            start,
            (HyprReply::Printed { text, monitors: Some(list) })@,
        ) == StartStepView::Done(Err(crate::error::ErrorView::OutputDisappeared(start.requested)))
            <==> forall|j: int|
            0 <= j < list@.len() ==> (#[trigger] list@[j]).name@ != start.requested),
{
    let n = lemma_first_of_name(list@, start.requested, list@.len() as int);
    lemma_listed_name(list@, desktop.headless_output@, start.requested, n);
}

/// A stop of a running capture lists the monitors and removes the virtual output exactly if it is
/// listed. It ends well once that is done, or where there is nothing to remove, and otherwise fails
/// with what `hyprctl` said.
pub proof fn law_stop_removes_the_virtual_output(
    desktop: DesktopManager,
    text: String,
    list: Vec<HyprMonitor>,
    message: String,
    done: HyprReply,
)
    requires
        done is Printed,
    ensures
        desktop.active ==> stop_spec(desktop@) == (StopStepView::Run {
            args: seq!["monitors"@, "all"@, "-j"@],
            next: StopStage::Listing,
        }),
        !desktop.active ==> stop_spec(desktop@) == StopStepView::Done(Ok(())),
        ({
            let reply = HyprReply::Printed { text, monitors: Some(list) };
            let step = stop_reply_spec(desktop@, StopStage::Listing, reply@);
            let there = exists|j: int|
                0 <= j < list@.len() && (#[trigger] list@[j]).name@ == desktop.headless_output@;
            &&& there ==> step == (StopStepView::Run {
                args: seq!["output"@, "remove"@, desktop.headless_output@],
                next: StopStage::Removing,
            })
            &&& !there ==> step == StopStepView::Done(Ok(()))
        }),
        stop_reply_spec(
            desktop@,
            StopStage::Listing,
            (HyprReply::Printed { text, monitors: None })@,
        ) == StopStepView::Done(Err(crate::error::ErrorView::InvalidMonitors)),
        stop_reply_spec(desktop@, StopStage::Removing, done@) == StopStepView::Done(Ok(())),
        forall|stage: StopStage|
            #[trigger] stop_reply_spec(desktop@, stage, HyprReply::Failed(message)@)
                == StopStepView::Done(Err(crate::error::ErrorView::Hyprctl(message@))),
{
    let name = desktop.headless_output@;
    let n = lemma_first_of_name(list@, name, list@.len() as int);
    lemma_listed_name(list@, name, name, n);
    if n < list@.len() {
        assert(list@[n].name@ == name);
    }
}

/// A terminal is opened on the workspace that the selected output is on by then: the monitors are
/// listed, and the command names the workspace that is found for that output, as a number that reads
/// back as it. That workspace is also what is answered. What fails on the way is answered instead.
pub proof fn law_terminal_is_opened_on_the_workspace(
    desktop: DesktopManager,
    stage: LaunchStageView,
    document: Option<crate::monitors::Json>,
    message: String,
    printed: HyprReply,
    workspace: u32,
) -> (number: Seq<char>)
    requires
        printed is Printed,
    ensures
        desktop.active ==> launch_spec(desktop@) == (LaunchStepView::Run {
            args: seq!["monitors"@, "all"@, "-j"@],
            next: LaunchStageView::Listing(desktop.selection.output@),
        }),
        !desktop.active ==> launch_spec(desktop@) == LaunchStepView::Done(
            Err(crate::error::ErrorView::NotActive),
        ),
        crate::text::unsigned_value(number) == Some(workspace),
        stage matches LaunchStageView::Listing(output) ==> match crate::monitors::workspace_spec(
            document,
            output,
        ) {
            Ok(found) => found == workspace ==> launch_reply_spec(stage, printed@, document) == (
            LaunchStepView::Run {
                args: seq![
                    "dispatch"@,
                    "exec"@,
                    "[workspace "@ + number + " silent] kitty --title EutherGate-Remote-Forge"@,
                ],
                next: LaunchStageView::Launching(workspace),
            }),
            Err(error) => launch_reply_spec(stage, printed@, document) == LaunchStepView::Done(
                Err(error),
            ),
        },
        stage == LaunchStageView::Launching(workspace) ==> launch_reply_spec(
            stage,
            printed@,
            document,
        ) == LaunchStepView::Done(Ok(workspace)),
        launch_reply_spec(stage, HyprReply::Failed(message)@, document) == LaunchStepView::Done(
            Err(crate::error::ErrorView::Hyprctl(message@)),
        ),
{
    crate::text::law_decimal_is_read_back(workspace);
    crate::text::decimal(workspace as nat)
}

/// The text of a reply is what was printed.
pub proof fn law_printed_text_is_what_was_printed(text: String, monitors: Option<Vec<HyprMonitor>>)
    ensures
        printed_text((HyprReply::Printed { text, monitors })@) == text@,
{
}

/// A viewer is refused exactly if no capture is active or another viewer is connected, whatever
/// output is captured, and is told which of the two.
pub proof fn law_viewers_are_refused_only_for_cause(desktop: DesktopManager)
    ensures
        viewer_refusal(desktop@) is None <==> desktop.active && !desktop.viewer_connected,
        viewer_refusal(desktop@) matches Some(reply) ==> {
            &&& reply.status == 409
            &&& reply.set_cookie is None
            &&& reply.body == crate::reply::BodyView::Text(
                if desktop.active {
                    "a desktop viewer is already connected"@
                } else {
                    "desktop capture is not active"@
                },
            )
        },
{
}

/// After every start that succeeds with no viewer connected, whatever output was selected, the next
/// viewer is let in.
pub proof fn law_next_viewer_is_let_in_after_a_start(
    desktop: ManagerView,
    start: StartView,
    reply: HyprReplyView,
)
    requires
        !desktop.viewer_connected,
        start_reply_spec(desktop, start, reply) matches StartStepView::Done(Ok(_)),
    ensures
        viewer_refusal(started(desktop, start_reply_spec(desktop, start, reply))) is None,
{
}

/// The outputs to choose from are those that are listed, unchanged and in their order. Only where
/// the virtual output is not among them it stands before them, with its own name and mode.
pub proof fn law_outputs_to_choose_from(
    outputs: Seq<crate::monitors::OutputView>,
    headless: Seq<char>,
    mode: Seq<char>,
)
    ensures
        ({
            let all = all_outputs(outputs, headless, mode);
            let there = exists|i: int|
                0 <= i < outputs.len() && (#[trigger] outputs[i]).name == headless;
            &&& there ==> all == outputs
            &&& !there ==> {
                &&& all.len() == outputs.len() + 1
                &&& all.skip(1) == outputs
                &&& all[0].name == headless
                &&& all[0].mode == mode
                &&& all[0].workspace == 0
                &&& all[0].virtual_output
                &&& all[0].description == "Virtual Forge output"@
            }
        }),
{
    let all = all_outputs(outputs, headless, mode);
    if !has_output(outputs, headless) {
        assert(all.skip(1) =~= outputs);
    }
}

/// The outputs that a reply lists are those of the monitors that it prints; a reply that prints none
/// is an error, and one that failed is what it said.
pub proof fn law_replies_list_their_monitors(
    text: String,
    list: Vec<HyprMonitor>,
    message: String,
    headless: Seq<char>,
)
    ensures
        listed((HyprReply::Printed { text, monitors: Some(list) })@, headless) == Ok::<
            _,
            crate::error::ErrorView,
        >(crate::monitors::outputs_of(crate::monitors::monitor_views(list@), headless)),
        listed((HyprReply::Printed { text, monitors: None })@, headless) == Err::<
            Seq<crate::monitors::OutputView>,
            _,
        >(crate::error::ErrorView::InvalidMonitors),
        listed(HyprReply::Failed(message)@, headless) == Err::<
            Seq<crate::monitors::OutputView>,
            _,
        >(crate::error::ErrorView::Hyprctl(message@)),
{
}

/// A run of `hyprctl` counts as its exit says, whatever it printed. What it printed is handed on but
/// for the whitespace around it; where it failed the message names the command and what it
/// complained of.
pub proof fn law_runs_count_as_their_exit_says(
    args: Seq<Seq<char>>,
    success: bool,
    stdout: String,
    stderr: String,
)
    ensures
        ({
            let outcome = hyprctl_spec(args, HyprRun::Exited { success, stdout, stderr });
            &&& success ==> outcome == Ok::<Seq<char>, Seq<char>>(crate::text::trimmed(stdout@))
            &&& !success ==> outcome == Err::<Seq<char>, Seq<char>>(
                "hyprctl "@ + crate::text::joined(args, " "@) + " failed: "@
                    + crate::text::trimmed(stderr@),
            )
        }),
        hyprctl_spec(args, HyprRun::NotStarted) == Err::<Seq<char>, Seq<char>>(
            "could not run hyprctl "@ + crate::text::joined(args, " "@),
        ),
{
}

/// A start that succeeded is answered with its output and workspace, and anything that failed with
/// the text of its error, as unavailable.
pub proof fn law_answers_tell_the_outcome(
    selection: SelectionView,
    error: crate::error::ErrorView,
)
    ensures
        ({
            let reply = start_answer(Ok(selection));
            &&& reply.status == 200
            &&& reply.set_cookie is None
            &&& reply.body matches crate::reply::BodyView::Object(members)
            &&& members.len() == 3
            &&& members[0] == ("active"@, crate::reply::ScalarView::Bool(true))
            &&& members[1] == ("output"@, crate::reply::ScalarView::Text(selection.output))
            &&& members[2] == ("workspace"@, crate::reply::ScalarView::Number(selection.workspace))
        }),
        start_answer(Err(error)) == failure_reply(error),
        ({
            let reply = failure_reply(error);
            &&& reply.status == 503
            &&& reply.set_cookie is None
            &&& reply.body matches crate::reply::BodyView::Object(members)
            &&& members.len() == 1
            &&& members[0] == (
                "error"@,
                crate::reply::ScalarView::Text(crate::error::message_of(error)),
            )
        }),
{
}

} // verus!
