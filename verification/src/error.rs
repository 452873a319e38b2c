//! What can go wrong with the desktop.

use vstd::prelude::*;
use vstd::string::*;

verus! {

/// Why a desktop request failed.
#[derive(Debug)]
pub enum DesktopError {
    /// The media helper is not at this path.
    HelperMissing(String),
    /// A viewer watches another output.
    ViewerConnected,
    /// `hyprctl` failed, with this message.
    Hyprctl(String),
    /// `hyprctl` printed no list of monitors.
    InvalidMonitors,
    /// There is no output of this name.
    OutputMissing(String),
    /// The output of this name is gone.
    OutputDisappeared(String),
    /// Nothing is captured.
    NotActive,
    /// The output of this name has no active workspace.
    NoWorkspace(String),
}

/// What an error holds.
pub enum ErrorView {
    HelperMissing(Seq<char>),
    ViewerConnected,
    Hyprctl(Seq<char>),
    InvalidMonitors,
    OutputMissing(Seq<char>),
    OutputDisappeared(Seq<char>),
    NotActive,
    NoWorkspace(Seq<char>),
}

impl View for DesktopError {
    type V = ErrorView;

    open spec fn view(&self) -> ErrorView {
        match self {
            DesktopError::HelperMissing(path) => ErrorView::HelperMissing(path@),
            DesktopError::ViewerConnected => ErrorView::ViewerConnected,
            DesktopError::Hyprctl(message) => ErrorView::Hyprctl(message@),
            DesktopError::InvalidMonitors => ErrorView::InvalidMonitors,
            DesktopError::OutputMissing(name) => ErrorView::OutputMissing(name@),
            DesktopError::OutputDisappeared(name) => ErrorView::OutputDisappeared(name@),
            DesktopError::NotActive => ErrorView::NotActive,
            DesktopError::NoWorkspace(name) => ErrorView::NoWorkspace(name@),
        }
    }
}

/// The text of an error.
pub open spec fn message_of(error: ErrorView) -> Seq<char> {
    match error {
        ErrorView::HelperMissing(path) => "WebRTC helper not found at "@ + path,
        ErrorView::ViewerConnected => "disconnect the current viewer before switching output"@,
        ErrorView::Hyprctl(message) => message,
        ErrorView::InvalidMonitors => "hyprctl returned invalid monitor JSON"@,
        ErrorView::OutputMissing(name) => "Wayland output "@ + name + " does not exist"@,
        ErrorView::OutputDisappeared(name) => "Wayland output "@ + name + " disappeared"@,
        ErrorView::NotActive => "start a desktop capture first"@,
        ErrorView::NoWorkspace(name) => "Hyprland output "@ + name + " has no active workspace"@,
    }
}

fn around(before: &str, middle: &str, after: &str) -> (text: String)
    ensures
        text@ == before@ + middle@ + after@,
{
    let mut text = before.to_owned();
    text.append(middle);
    text.append(after);
    text
}

impl DesktopError {
    /// The text of the error.
    pub fn message(&self) -> (text: String)
        ensures
            text@ == message_of(self@),
    {
        match self {
            DesktopError::HelperMissing(path) => {
                let mut text = "WebRTC helper not found at ".to_owned();
                text.append(path.as_str());
                text
            },
            DesktopError::ViewerConnected => {
                "disconnect the current viewer before switching output".to_owned()
            },
            DesktopError::Hyprctl(message) => message.clone(),
            DesktopError::InvalidMonitors => "hyprctl returned invalid monitor JSON".to_owned(),
            DesktopError::OutputMissing(name) => {
                around("Wayland output ", name.as_str(), " does not exist")
            },
            DesktopError::OutputDisappeared(name) => {
                around("Wayland output ", name.as_str(), " disappeared")
            },
            DesktopError::NotActive => "start a desktop capture first".to_owned(),
            DesktopError::NoWorkspace(name) => {
                around("Hyprland output ", name.as_str(), " has no active workspace")
            },
        }
    }
}

/// The text of an error names what it is about, unchanged: the path, the output, or what `hyprctl`
/// said.
pub proof fn law_messages_name_their_subject(name: Seq<char>)
    ensures
        message_of(ErrorView::HelperMissing(name)) == "WebRTC helper not found at "@ + name,
        message_of(ErrorView::Hyprctl(name)) == name,
        message_of(ErrorView::OutputMissing(name)) == "Wayland output "@ + name
            + " does not exist"@,
        message_of(ErrorView::OutputDisappeared(name)) == "Wayland output "@ + name
            + " disappeared"@,
        message_of(ErrorView::NoWorkspace(name)) == "Hyprland output "@ + name
            + " has no active workspace"@,
        message_of(ErrorView::ViewerConnected)
            == "disconnect the current viewer before switching output"@,
        message_of(ErrorView::InvalidMonitors) == "hyprctl returned invalid monitor JSON"@,
        message_of(ErrorView::NotActive) == "start a desktop capture first"@,
{
}

/// What an error holds is what its variant holds.
pub proof fn law_error_views_show_every_field(text: String)
    ensures
        DesktopError::HelperMissing(text)@ == ErrorView::HelperMissing(text@),
        DesktopError::ViewerConnected@ is ViewerConnected,
        DesktopError::Hyprctl(text)@ == ErrorView::Hyprctl(text@),
        DesktopError::InvalidMonitors@ is InvalidMonitors,
        DesktopError::OutputMissing(text)@ == ErrorView::OutputMissing(text@),
        DesktopError::OutputDisappeared(text)@ == ErrorView::OutputDisappeared(text@),
        DesktopError::NotActive@ is NotActive,
        DesktopError::NoWorkspace(text)@ == ErrorView::NoWorkspace(text@),
{
}

} // verus!
