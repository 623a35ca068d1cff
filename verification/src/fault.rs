//! The ways in which a request ends without success, and the errors they are
//! reported as.

use vstd::prelude::*;

use crate::action::Selector;
use crate::error::Error;
#[allow(unused_imports)]
use crate::error::ErrorView;
use crate::text::{concat2, concat3, decimal_text, from_utf8_lossy};
#[allow(unused_imports)]
use crate::text::{decimal, utf8_lossy};

verus! {

/// Why a request ended without success.
#[derive(Debug, PartialEq, Eq)]
pub enum Fault<'a> {
    /// The host reported an error.
    Raised(Error),
    /// The process may not use the accessibility API.
    Untrusted,
    /// No element has the keyboard focus.
    NothingFocused,
    /// No element matches the selector.
    NoElement(&'a Selector),
    /// A click was asked for without saying where.
    ClickUnspecified,
    /// The element to click has no known place.
    ClickUnplaced,
    /// The element to type into has no known place.
    TypeUnplaced,
    /// The mouse was to move without saying where to.
    MoveUnspecified,
    /// The element to move the mouse to has no known place.
    MoveUnplaced,
    /// The element did not take the focus.
    FocusRefused,
    /// The application has no window that could be captured.
    NothingToCapture(&'a String),
    /// The screen capture program could not be started.
    ScreencaptureNotStarted(String),
    /// The screen capture program failed.
    ScreencaptureFailed,
    /// The script program could not be started to activate the application.
    ActivateNotStarted(&'a String, String),
    /// The script to activate the application failed, having written this.
    ActivateFailed(&'a String, Vec<u8>),
    /// The program that opens applications could not be started.
    OpenNotStarted(&'a String, String),
    /// There is no such application to open.
    OpenFailed(&'a String),
    /// No image of the window could be had.
    NoImage(u32),
    /// The path cannot be made into a URL.
    BadPath(&'a String),
    /// No image file could be begun at the path.
    NoDestination(&'a String),
    /// The image file could not be written.
    NotWritten(&'a String),
}

/// An error of the platform with that message.
pub open spec fn platform_error(message: Seq<char>) -> ErrorView {
    ErrorView::PlatformError { message }
}

/// What to say when an application could not be activated.
pub open spec fn activation_message(app: Seq<char>, reason: Seq<char>) -> Seq<char> {
    "failed to activate "@ + app + ": "@ + reason
}

/// The error that says that an application could not be activated.
pub fn activation_error(app: &str, reason: &str) -> (r: Error)
    ensures
        r@ == platform_error(activation_message(app@, reason@)),
{
    Error::PlatformError { message: concat3("failed to activate ", app, ": ").concat(reason) }
}

impl<'a> Fault<'a> {
    /// The error that the fault is reported as.
    pub open spec fn reported(self) -> ErrorView {
        match self {
            Fault::Raised(error) => error@,
            Fault::Untrusted => ErrorView::PermissionDenied {
                message:
                    "Accessibility permission not granted. Go to System Settings > Privacy & Security > Accessibility and add this application."@,
            },
            Fault::NothingFocused => ErrorView::ElementNotFound {
                message: "no element is currently focused"@,
            },
            Fault::NoElement(selector) => ErrorView::ElementNotFound { message: selector.shown@ },
            Fault::ClickUnspecified => platform_error(
                "click requires either a selector or coordinates"@,
            ),
            Fault::ClickUnplaced => platform_error(
                "element has no position/size — cannot compute click target"@,
            ),
            Fault::TypeUnplaced => platform_error("element has no position/size"@),
            Fault::MoveUnspecified => platform_error(
                "move_mouse requires either a selector or coordinates"@,
            ),
            Fault::MoveUnplaced => platform_error("element has no position"@),
            Fault::FocusRefused => platform_error("failed to set focus on element"@),
            Fault::NothingToCapture(app) => platform_error(
                "no capturable window found for "@ + app@,
            ),
            Fault::ScreencaptureNotStarted(reason) => platform_error(
                "screencapture failed: "@ + reason@,
            ),
            Fault::ScreencaptureFailed => platform_error(
                "screencapture returned non-zero exit code"@,
            ),
            Fault::ActivateNotStarted(app, reason) => platform_error(
                activation_message(app@, reason@),
            ),
            Fault::ActivateFailed(app, stderr) => platform_error(
                activation_message(app@, utf8_lossy(stderr@)),
            ),
            Fault::OpenNotStarted(app, reason) => platform_error(
                "failed to open '"@ + app@ + "': "@ + reason@,
            ),
            Fault::OpenFailed(app) => ErrorView::ApplicationNotFound { name: app@ },
            Fault::NoImage(window) => platform_error(
                "failed to capture window "@ + decimal(window as nat),
            ),
            Fault::BadPath(path) => platform_error("invalid screenshot path: "@ + path@),
            Fault::NoDestination(path) => platform_error(
                "failed to create PNG destination: "@ + path@,
            ),
            Fault::NotWritten(path) => platform_error(
                "failed to write PNG screenshot: "@ + path@,
            ),
        }
    }

    /// The error that the fault is reported as. An error of the host's is handed on as
    /// it is.
    pub fn report(self) -> (r: Error)
        ensures
            r@ == self.reported(),
            self is Raised ==> r == self->Raised_0,
    {
        let message = match self {
            Fault::Raised(error) => {
                return error;
            },
            Fault::Untrusted => {
                return Error::PermissionDenied {
                    message:
                        "Accessibility permission not granted. Go to System Settings > Privacy & Security > Accessibility and add this application.".to_owned(),
                };
            },
            Fault::NothingFocused => {
                return Error::ElementNotFound {
                    message: "no element is currently focused".to_owned(),
                };
            },
            Fault::NoElement(selector) => {
                return Error::ElementNotFound { message: selector.shown.clone() };
            },
            Fault::OpenFailed(app) => {
                return Error::ApplicationNotFound { name: app.clone() };
            },
            Fault::ActivateNotStarted(app, reason) => {
                return activation_error(app.as_str(), reason.as_str());
            },
            Fault::ActivateFailed(app, stderr) => {
                return activation_error(
                    app.as_str(),
                    from_utf8_lossy(stderr.as_slice()).as_str(),
                );
            },
            Fault::ClickUnspecified =>
                "click requires either a selector or coordinates".to_owned(),
            Fault::ClickUnplaced =>
                "element has no position/size — cannot compute click target".to_owned(),
            Fault::TypeUnplaced => "element has no position/size".to_owned(),
            Fault::MoveUnspecified =>
                "move_mouse requires either a selector or coordinates".to_owned(),
            Fault::MoveUnplaced => "element has no position".to_owned(),
            Fault::FocusRefused => "failed to set focus on element".to_owned(),
            Fault::NothingToCapture(app) => concat2(
                "no capturable window found for ",
                app.as_str(),
            ),
            Fault::ScreencaptureNotStarted(reason) => concat2(
                "screencapture failed: ",
                reason.as_str(),
            ),
            Fault::ScreencaptureFailed => "screencapture returned non-zero exit code".to_owned(),
            Fault::OpenNotStarted(app, reason) => concat3(
                "failed to open '",
                app.as_str(),
                "': ",
            ).concat(reason.as_str()),
            Fault::NoImage(window) => concat2(
                "failed to capture window ",
                decimal_text(window as u64).as_str(),
            ),
            Fault::BadPath(path) => concat2("invalid screenshot path: ", path.as_str()),
            Fault::NoDestination(path) => concat2(
                "failed to create PNG destination: ",
                path.as_str(),
            ),
            Fault::NotWritten(path) => concat2(
                "failed to write PNG screenshot: ",
                path.as_str(),
            ),
        };
        Error::PlatformError { message }
    }
}

/// Whether a result reports a fault; an error of the host's is reported as it is.
pub open spec fn is_report<'a, T>(result: Result<T, Error>, fault: Fault<'a>) -> bool {
    &&& result is Err
    &&& result->Err_0@ == fault.reported()
    &&& fault is Raised ==> result->Err_0 == fault->Raised_0
}

/// What is reported of each fault. What the host reported goes on unchanged; an element
/// that was not found is reported by its selector, and an application that was not found
/// by its name; the rest are errors of the platform, which say what failed and on what.
pub proof fn faults_say_what_failed<'a>(
    error: Error,
    selector: &'a Selector,
    name: &'a String,
    reason: String,
    stderr: Vec<u8>,
    window: u32,
)
    ensures
        Fault::<'a>::Raised(error).reported() == error@,
        Fault::<'a>::Untrusted.reported() is PermissionDenied,
        Fault::<'a>::NothingFocused.reported() == (ErrorView::ElementNotFound {
            message: "no element is currently focused"@,
        }),
        Fault::NoElement(selector).reported() == (ErrorView::ElementNotFound {
            message: selector.shown@,
        }),
        Fault::OpenFailed(name).reported() == (ErrorView::ApplicationNotFound { name: name@ }),
        Fault::NothingToCapture(name).reported() == (ErrorView::PlatformError {
            message: "no capturable window found for "@ + name@,
        }),
        Fault::<'a>::ScreencaptureNotStarted(reason).reported() == (ErrorView::PlatformError {
            message: "screencapture failed: "@ + reason@,
        }),
        Fault::ActivateNotStarted(name, reason).reported() == (ErrorView::PlatformError {
            message: "failed to activate "@ + name@ + ": "@ + reason@,
        }),
        Fault::ActivateFailed(name, stderr).reported() == (ErrorView::PlatformError {
            message: "failed to activate "@ + name@ + ": "@ + utf8_lossy(stderr@),
        }),
        Fault::OpenNotStarted(name, reason).reported() == (ErrorView::PlatformError {
            message: "failed to open '"@ + name@ + "': "@ + reason@,
        }),
        Fault::<'a>::NoImage(window).reported() == (ErrorView::PlatformError {
            message: "failed to capture window "@ + decimal(window as nat),
        }),
        Fault::BadPath(name).reported() == (ErrorView::PlatformError {
            message: "invalid screenshot path: "@ + name@,
        }),
        Fault::NoDestination(name).reported() == (ErrorView::PlatformError {
            message: "failed to create PNG destination: "@ + name@,
        }),
        Fault::NotWritten(name).reported() == (ErrorView::PlatformError {
            message: "failed to write PNG screenshot: "@ + name@,
        }),
{
}

} // verus!
