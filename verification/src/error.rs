//! What can go wrong.

use vstd::prelude::*;

verus! {

/// An error of the platform.
#[derive(Debug, PartialEq, Eq)]
pub enum Error {
    PlatformError { message: String },
    ApplicationNotFound { name: String },
    PermissionDenied { message: String },
    ElementNotFound { message: String },
}

/// An error, with its text.
pub enum ErrorView {
    PlatformError { message: Seq<char> },
    ApplicationNotFound { name: Seq<char> },
    PermissionDenied { message: Seq<char> },
    ElementNotFound { message: Seq<char> },
}

impl View for Error {
    type V = ErrorView;

    open spec fn view(&self) -> ErrorView {
        match self {
            Error::PlatformError { message } => ErrorView::PlatformError { message: message@ },
            Error::ApplicationNotFound { name } => ErrorView::ApplicationNotFound { name: name@ },
            Error::PermissionDenied { message } => ErrorView::PermissionDenied {
                message: message@,
            },
            Error::ElementNotFound { message } => ErrorView::ElementNotFound { message: message@ },
        }
    }
}

} // verus!
