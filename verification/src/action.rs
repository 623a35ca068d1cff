//! Actions, and what comes of them.

use vstd::prelude::*;

use crate::node::Point;

verus! {

/// Which element is meant. How elements are matched is the host's business; the
/// library reads the application to look in, and the text that shows the selector.
#[derive(Debug, PartialEq, Eq)]
pub struct Selector {
    pub app: Option<String>,
    pub shown: String,
}

#[derive(Clone, Copy, Debug, PartialEq, Eq, Structural)]
pub enum MouseButton {
    Left,
    Right,
    Middle,
}

#[derive(Clone, Copy, Debug, PartialEq, Eq, Structural)]
pub enum ScrollDirection {
    Up,
    Down,
    Left,
    Right,
}

impl ScrollDirection {
    /// The direction's name.
    pub open spec fn name(self) -> Seq<char> {
        match self {
            ScrollDirection::Up => "Up"@,
            ScrollDirection::Down => "Down"@,
            ScrollDirection::Left => "Left"@,
            ScrollDirection::Right => "Right"@,
        }
    }

    /// The direction's name.
    pub fn as_str(self) -> (r: &'static str)
        ensures
            r@ == self.name(),
    {
        match self {
            ScrollDirection::Up => "Up",
            ScrollDirection::Down => "Down",
            ScrollDirection::Left => "Left",
            ScrollDirection::Right => "Right",
        }
    }
}

/// Something to do.
#[allow(inconsistent_fields)]
#[derive(Debug, PartialEq, Eq)]
pub enum Action {
    Click {
        selector: Option<Selector>,
        coordinates: Option<Point>,
        button: MouseButton,
        count: u32,
    },
    Type { text: String, selector: Option<Selector>, submit: bool },
    KeyPress { key: String, app: Option<String> },
    Scroll {
        direction: ScrollDirection,
        amount: u32,
        selector: Option<Selector>,
        app: Option<String>,
    },
    MoveMouse { selector: Option<Selector>, coordinates: Option<Point> },
    Drag { from: Point, to: Point },
    Focus { selector: Selector },
    Screenshot { path: Option<String>, app: Option<String> },
}

/// What came of an action.
#[derive(Debug, PartialEq, Eq)]
pub struct ActionResult {
    pub success: bool,
    pub message: Option<String>,
    pub path: Option<String>,
    pub data: Option<String>,
}

/// What came of an action, with its texts.
pub struct ActionResultView {
    pub success: bool,
    pub message: Option<Seq<char>>,
    pub path: Option<Seq<char>>,
    pub data: Option<Seq<char>>,
}

/// The text of a string that may be missing.
pub open spec fn optional_text(s: Option<String>) -> Option<Seq<char>> {
    match s {
        Some(text) => Some(text@),
        None => None,
    }
}

/// The string, where there is one.
pub open spec fn optional_ref<'a>(s: &'a Option<String>) -> Option<&'a String> {
    match s {
        Some(name) => Some(name),
        None => None,
    }
}

impl View for ActionResult {
    type V = ActionResultView;

    open spec fn view(&self) -> ActionResultView {
        ActionResultView {
            success: self.success,
            message: optional_text(self.message),
            path: optional_text(self.path),
            data: optional_text(self.data),
        }
    }
}

/// How a program that the host ran ended.
#[derive(Debug, PartialEq, Eq)]
pub enum ProgramEnd {
    /// It could not be started, for the reason given.
    NotStarted { reason: String },
    /// It ran. `stderr` is what it wrote to its standard error.
    Exited { success: bool, stderr: Vec<u8> },
}

/// The view of a result shows whether it is a success, and each of its texts that is there.
pub proof fn results_show_all_they_hold(result: ActionResult)
    ensures
        result@.success == result.success,
        result.message is Some ==> result@.message == Some(result.message->0@),
        result.message is None ==> result@.message is None,
        result.path is Some ==> result@.path == Some(result.path->0@),
        result.path is None ==> result@.path is None,
        result.data is Some ==> result@.data == Some(result.data->0@),
        result.data is None ==> result@.data is None,
{
}

} // verus!
