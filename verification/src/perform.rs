//! Performing an action, one command to the host at a time.
//!
//! An action begins in some state. As long as it is not finished, the state has a
//! command, which the host carries out; what came of it leads to the next state.

use vstd::prelude::*;
use vstd::utf8::encode_utf8;

use crate::action::{Action, ActionResult, MouseButton, ProgramEnd, ScrollDirection, Selector};
#[allow(unused_imports)]
use crate::action::{optional_ref, ActionResultView};
use crate::error::Error;
#[allow(unused_imports)]
use crate::fault::is_report;
use crate::fault::Fault;
use crate::node::{find_best_scroll_point, AccessibilityNode, Point};
#[allow(unused_imports)]
use crate::node::{best_scroll_point, center_of};
use crate::pid::parse_pid_target;
#[allow(unused_imports)]
use crate::pid::pid_target;
#[allow(unused_imports)]
use crate::text::decimal;
use crate::text::{concat2, concat3, decimal_text};

verus! {

/// How many levels below an application are described to find a place to scroll at.
pub const SCROLL_DEPTH: u32 = 8;

/// How many levels below an element that is held are described.
pub const ELEMENT_DEPTH: u32 = 0;

/// Where to look for elements.
#[derive(Clone, Copy, Debug, PartialEq, Eq, Structural)]
pub enum Root {
    /// In the application that is this process.
    Application(i32),
    /// In the whole system.
    System,
}

/// A key, or keys held together.
#[derive(Debug, PartialEq, Eq)]
pub enum Key<'a> {
    Given(&'a String),
    SelectAll,
    Backspace,
    Return,
}

impl<'a> Key<'a> {
    /// The name by which the key is pressed.
    pub open spec fn name(self) -> Seq<char> {
        match self {
            Key::Given(key) => key@,
            Key::SelectAll => "cmd+a"@,
            Key::Backspace => "backspace"@,
            Key::Return => "return"@,
        }
    }

    /// The name by which the key is pressed.
    pub fn as_str(&self) -> (r: &str)
        ensures
            r@ == self.name(),
    {
        match self {
            Key::Given(key) => key.as_str(),
            Key::SelectAll => "cmd+a",
            Key::Backspace => "backspace",
            Key::Return => "return",
        }
    }
}

/// What the host is to do next. Times are in milliseconds.
#[allow(inconsistent_fields)]
#[derive(Debug, PartialEq, Eq)]
pub enum Command<'a> {
    /// Find the process that the application's name means.
    FindPid(&'a String),
    /// Find the one element that the selector means.
    FindOne(&'a Selector),
    /// Find an element and hold it.
    FindElement(Root, &'a Selector),
    /// Describe the element held, `ELEMENT_DEPTH` levels deep: without those below it.
    DescribeElement,
    /// Give the keyboard focus to the element held.
    FocusElement,
    /// Let go of the element held.
    ReleaseElement,
    /// Find all the elements of the process that the selector means.
    FindAll(i32, &'a Selector),
    /// Describe the application that is this process, that many levels deep.
    DescribeApp(i32, u32),
    /// Bring the application to the front.
    Activate(&'a String),
    /// Raise the window of the process.
    RaiseWindow(i32),
    /// Wait.
    Pause(u64),
    /// Click, in a process or wherever the place is.
    Click { point: &'a Point, button: MouseButton, count: u32, pid: Option<i32> },
    /// Move the mouse, for a process or for the whole system.
    MoveMouse { point: &'a Point, pid: Option<i32> },
    /// Press a key.
    PressKey(Key<'a>),
    /// Press a key while the application is in front, and put things back.
    PressKeyIn { app: &'a String, key: Key<'a> },
    /// Type a text.
    TypeText(&'a String),
    /// Turn the scroll wheel, for a process or for the whole system.
    Scroll { direction: ScrollDirection, amount: u32, pid: Option<i32> },
    /// Drag with the mouse.
    Drag { from: &'a Point, to: &'a Point },
    /// Find the windows to capture for the application.
    FindWindows(&'a String),
    /// Write an image of the window to the path.
    CaptureWindow { window: u32, path: &'a String },
    /// Write an image of the screen to the path.
    CaptureScreen { path: &'a String },
}

/// What came of a command.
#[derive(Debug, PartialEq, Eq)]
pub enum Reply {
    /// Of a command that only does something.
    Done(Result<(), Error>),
    /// Of finding a process.
    Pid(Result<i32, Error>),
    /// Of finding the one element.
    One(Result<AccessibilityNode, Error>),
    /// Of finding an element to hold: whether there is one.
    Found(bool),
    /// Of describing an element or an application.
    Described(AccessibilityNode),
    /// Of finding all the elements.
    All(Vec<AccessibilityNode>),
    /// Of giving the focus: whether it was taken.
    Focused(bool),
    /// Of finding windows.
    Windows(Result<Vec<u32>, Error>),
    /// Of capturing the screen: how the program ended.
    Ended(ProgramEnd),
}

/// Whether a reply is one to that command.
pub open spec fn answers<'a>(command: Command<'a>, reply: Reply) -> bool {
    match command {
        Command::FindPid(_) => reply is Pid,
        Command::FindOne(_) => reply is One,
        Command::FindElement(_, _) => reply is Found,
        Command::DescribeElement => reply is Described,
        Command::FocusElement => reply is Focused,
        Command::FindAll(_, _) => reply is All,
        Command::DescribeApp(_, _) => reply is Described,
        Command::FindWindows(_) => reply is Windows,
        Command::CaptureScreen { .. } => reply is Ended,
        _ => reply is Done,
    }
}

/// A number of commands that are carried out one after the other.
#[allow(inconsistent_fields)]
#[derive(Debug, PartialEq, Eq)]
pub enum Job<'a> {
    Click { point: Point, button: MouseButton, count: u32, pid: Option<i32> },
    /// Replace what the element at the place holds.
    Fill { app: Option<&'a String>, point: Point, text: &'a String, submit: bool },
    /// Type where the focus is.
    Type { text: &'a String, submit: bool },
    /// Press a key in a process.
    PressAt { pid: i32, key: &'a String },
    /// Press a key in an application.
    PressIn { app: &'a String, key: &'a String },
    /// Press a key where the focus is.
    Press { key: &'a String },
    /// Scroll in an application.
    ScrollIn {
        app: &'a String,
        pid: i32,
        point: Option<Point>,
        direction: ScrollDirection,
        amount: u32,
    },
    /// Scroll where the mouse is.
    Scroll { direction: ScrollDirection, amount: u32 },
    Move { point: Point },
    Drag { from: &'a Point, to: &'a Point },
}

/// What follows the typing: nothing, or a pause and the return key.
pub open spec fn submission<'a>(submit: bool) -> Seq<Command<'a>> {
    if submit {
        seq![Command::Pause(100), Command::PressKey(Key::Return)]
    } else {
        Seq::empty()
    }
}

/// The number of bytes of a text.
pub open spec fn byte_length(text: Seq<char>) -> usize {
    encode_utf8(text).len() as usize
}

/// How a place is shown.
pub open spec fn place_text(point: Point) -> Seq<char> {
    "("@ + point.x.text@ + ", "@ + point.y.text@ + ")"@
}

fn show_place(point: &Point) -> (r: String)
    ensures
        r@ == place_text(*point),
{
    concat3("(", point.x.text.as_str(), ", ").concat(point.y.text.as_str()).concat(")")
}

impl<'a> Job<'a> {
    /// The commands of the job, in order.
    pub open spec fn commands(&self) -> Seq<Command<'_>> {
        match self {
            Job::Click { point, button, count, pid } => seq![
                Command::Click { point, button: *button, count: *count, pid: *pid },
            ],
            Job::Fill { app, point, text, submit } => (match app {
                Some(name) => seq![Command::Activate(name)],
                None => Seq::empty(),
            }) + seq![
                Command::Click { point, button: MouseButton::Left, count: 1, pid: None },
                Command::Pause(100),
                Command::PressKey(Key::SelectAll),
                Command::Pause(50),
                Command::PressKey(Key::Backspace),
                Command::Pause(100),
                Command::TypeText(text),
            ] + submission(*submit),
            Job::Type { text, submit } => seq![Command::TypeText(text)] + submission(*submit),
            Job::PressAt { pid, key } => seq![
                Command::RaiseWindow(*pid),
                Command::Pause(100),
                Command::PressKey(Key::Given(key)),
            ],
            Job::PressIn { app, key } => seq![Command::PressKeyIn { app, key: Key::Given(key) }],
            Job::Press { key } => seq![Command::PressKey(Key::Given(key))],
            Job::ScrollIn { app, pid, point, direction, amount } => seq![Command::Activate(app)]
                + (match point {
                Some(place) => seq![Command::MoveMouse { point: place, pid: Some(*pid) }],
                None => Seq::empty(),
            }) + seq![
                Command::Pause(50),
                Command::Scroll { direction: *direction, amount: *amount, pid: Some(*pid) },
            ],
            Job::Scroll { direction, amount } => seq![
                Command::Scroll { direction: *direction, amount: *amount, pid: None },
            ],
            Job::Move { point } => seq![Command::MoveMouse { point, pid: None }],
            Job::Drag { from, to } => seq![Command::Drag { from, to }],
        }
    }

    /// The commands of the job, in order.
    pub fn list_commands(&self) -> (r: Vec<Command<'_>>)
        ensures
            r@ == self.commands(),
            r@.len() > 0,
    {
        let mut list: Vec<Command<'_>> = Vec::new();
        match self {
            Job::Click { point, button, count, pid } => {
                list.push(Command::Click { point, button: *button, count: *count, pid: *pid });
            },
            Job::Fill { app, point, text, submit } => {
                if let Some(name) = app {
                    list.push(Command::Activate(name));
                }
                list.push(
                    Command::Click { point, button: MouseButton::Left, count: 1, pid: None },
                );
                list.push(Command::Pause(100));
                list.push(Command::PressKey(Key::SelectAll));
                list.push(Command::Pause(50));
                list.push(Command::PressKey(Key::Backspace));
                list.push(Command::Pause(100));
                list.push(Command::TypeText(text));
                if *submit {
                    list.push(Command::Pause(100));
                    list.push(Command::PressKey(Key::Return));
                }
            },
            Job::Type { text, submit } => {
                list.push(Command::TypeText(text));
                if *submit {
                    list.push(Command::Pause(100));
                    list.push(Command::PressKey(Key::Return));
                }
            },
            Job::PressAt { pid, key } => {
                list.push(Command::RaiseWindow(*pid));
                list.push(Command::Pause(100));
                list.push(Command::PressKey(Key::Given(key)));
            },
            Job::PressIn { app, key } => {
                list.push(Command::PressKeyIn { app, key: Key::Given(key) });
            },
            Job::Press { key } => {
                list.push(Command::PressKey(Key::Given(key)));
            },
            Job::ScrollIn { app, pid, point, direction, amount } => {
                list.push(Command::Activate(app));
                if let Some(place) = point {
                    list.push(Command::MoveMouse { point: place, pid: Some(*pid) });
                }
                list.push(Command::Pause(50));
                list.push(
                    Command::Scroll { direction: *direction, amount: *amount, pid: Some(*pid) },
                );
            },
            Job::Scroll { direction, amount } => {
                list.push(Command::Scroll { direction: *direction, amount: *amount, pid: None });
            },
            Job::Move { point } => {
                list.push(Command::MoveMouse { point, pid: None });
            },
            Job::Drag { from, to } => {
                list.push(Command::Drag { from, to });
            },
        }
        assert(list@ =~= self.commands());
        list
    }

    /// What is reported once the job is done.
    pub open spec fn message(&self) -> Seq<char> {
        match self {
            Job::Click { point, .. } => "clicked at "@ + place_text(*point),
            Job::Fill { text, submit, .. } => typed_message(text@, *submit),
            Job::Type { text, submit } => typed_message(text@, *submit),
            Job::PressAt { key, .. } => "pressed "@ + key@,
            Job::PressIn { key, .. } => "pressed "@ + key@,
            Job::Press { key } => "pressed "@ + key@,
            Job::ScrollIn { direction, amount, .. } => scrolled_message(*direction, *amount),
            Job::Scroll { direction, amount } => scrolled_message(*direction, *amount),
            Job::Move { point } => "moved mouse to "@ + place_text(*point),
            Job::Drag { from, to } => "dragged from "@ + place_text(**from) + " to "@ + place_text(
                **to,
            ),
        }
    }

    /// What is reported once the job is done.
    pub fn show_message(&self) -> (r: String)
        ensures
            r@ == self.message(),
    {
        match self {
            Job::Click { point, .. } => concat2("clicked at ", show_place(point).as_str()),
            Job::Fill { text, submit, .. } => show_typed(text.as_str(), *submit),
            Job::Type { text, submit } => show_typed(text.as_str(), *submit),
            Job::PressAt { key, .. } => concat2("pressed ", key.as_str()),
            Job::PressIn { key, .. } => concat2("pressed ", key.as_str()),
            Job::Press { key } => concat2("pressed ", key.as_str()),
            Job::ScrollIn { direction, amount, .. } => show_scrolled(*direction, *amount),
            Job::Scroll { direction, amount } => show_scrolled(*direction, *amount),
            Job::Move { point } => concat2("moved mouse to ", show_place(point).as_str()),
            Job::Drag { from, to } => concat3(
                "dragged from ",
                show_place(from).as_str(),
                " to ",
            ).concat(show_place(to).as_str()),
        }
    }
}

/// What is reported of typing: the length of the text in bytes.
pub open spec fn typed_message(text: Seq<char>, submit: bool) -> Seq<char> {
    let typed = "typed "@ + decimal(byte_length(text) as nat) + " characters"@;
    if submit {
        typed + " and submitted"@
    } else {
        typed
    }
}

fn show_typed(text: &str, submit: bool) -> (r: String)
    ensures
        r@ == typed_message(text@, submit),
{
    let typed = concat3("typed ", decimal_text(text.len() as u64).as_str(), " characters");
    if submit {
        typed.concat(" and submitted")
    } else {
        typed
    }
}

/// What is reported of scrolling.
pub open spec fn scrolled_message(direction: ScrollDirection, amount: u32) -> Seq<char> {
    "scrolled "@ + direction.name() + " by "@ + decimal(amount as nat)
}

fn show_scrolled(direction: ScrollDirection, amount: u32) -> (r: String)
    ensures
        r@ == scrolled_message(direction, amount),
{
    concat3("scrolled ", direction.as_str(), " by ").concat(decimal_text(amount as u64).as_str())
}

/// What an action has achieved.
#[derive(Debug, PartialEq, Eq)]
pub enum Achieved<'a> {
    Job(Job<'a>),
    Focus,
    Screenshot(&'a String),
}

impl<'a> Achieved<'a> {
    /// The result that is reported.
    pub open spec fn reported(self) -> ActionResultView {
        ActionResultView {
            success: true,
            message: Some(
                match self {
                    Achieved::Job(job) => job.message(),
                    Achieved::Focus => "focused element"@,
                    Achieved::Screenshot(path) => "screenshot saved to "@ + path@,
                },
            ),
            path: match self {
                Achieved::Screenshot(path) => Some(path@),
                _ => None,
            },
            data: None,
        }
    }

    /// The result that is reported.
    pub fn report(self) -> (r: ActionResult)
        ensures
            r@ == self.reported(),
    {
        match self {
            Achieved::Job(job) => ActionResult {
                success: true,
                message: Some(job.show_message()),
                path: None,
                data: None,
            },
            Achieved::Focus => ActionResult {
                success: true,
                message: Some("focused element".to_owned()),
                path: None,
                data: None,
            },
            Achieved::Screenshot(path) => ActionResult {
                success: true,
                message: Some(concat2("screenshot saved to ", path.as_str())),
                path: Some(path.clone()),
                data: None,
            },
        }
    }
}

/// An action under way.
#[allow(inconsistent_fields)]
#[derive(Debug, PartialEq, Eq)]
pub enum Perform<'a> {
    /// Looking for the element to click.
    ClickFind { selector: &'a Selector, button: MouseButton, count: u32 },
    /// Looking for the process to click in, at a place that may not be known.
    ClickPid { app: &'a String, point: Option<Point>, button: MouseButton, count: u32 },
    /// Looking for the process to type into.
    TypePid { app: &'a String, selector: &'a Selector, text: &'a String, submit: bool },
    /// Looking for the element to type into.
    TypeFind { root: Root, selector: &'a Selector, text: &'a String, submit: bool },
    /// Having the element to type into described.
    TypeDescribe { selector: &'a Selector, text: &'a String, submit: bool },
    /// Letting go of the element to type into.
    TypeRelease { selector: &'a Selector, text: &'a String, submit: bool, point: Option<Point> },
    /// Looking for the process to scroll in.
    ScrollPid {
        app: &'a String,
        selector: Option<&'a Selector>,
        direction: ScrollDirection,
        amount: u32,
    },
    /// Looking for the place to scroll at.
    ScrollLook {
        app: &'a String,
        pid: i32,
        selector: Option<&'a Selector>,
        direction: ScrollDirection,
        amount: u32,
    },
    /// Looking for the element to move the mouse to.
    MoveFind { selector: &'a Selector },
    /// Looking for the process in which to give the focus.
    FocusPid { app: &'a String, selector: &'a Selector },
    /// Looking for the element to give the focus to.
    FocusFind { root: Root, selector: &'a Selector },
    /// Giving the focus.
    FocusSet,
    /// Letting go of the element that took the focus, or did not.
    FocusRelease { focused: bool },
    /// Looking for the windows to capture.
    ShotWindows { app: &'a String, path: &'a String },
    /// Capturing one of the windows.
    ShotWindow { windows: Vec<u32>, at: usize, path: &'a String },
    /// Capturing the screen.
    ShotScreen { path: &'a String },
    /// Carrying out the commands of a job.
    Running { job: Job<'a>, at: usize },
    Succeeded(Achieved<'a>),
    Failed(Fault<'a>),
}

/// A job of which nothing is done yet.
pub open spec fn run<'a>(job: Job<'a>) -> Perform<'a> {
    Perform::Running { job, at: 0 }
}

/// Clicking at a place, where it is known.
pub open spec fn click_at<'a>(
    point: Option<Point>,
    button: MouseButton,
    count: u32,
    pid: Option<i32>,
) -> Perform<'a> {
    match point {
        Some(point) => run(Job::Click { point, button, count, pid }),
        None => Perform::Failed(Fault::ClickUnplaced),
    }
}

/// Clicking at a place that may not be known, in the application where one is given.
/// The application comes first: where it is not found, the place does not matter.
pub open spec fn click_in<'a>(
    app: &'a Option<String>,
    point: Option<Point>,
    button: MouseButton,
    count: u32,
) -> Perform<'a> {
    match app {
        Some(name) => Perform::ClickPid { app: name, point, button, count },
        None => click_at(point, button, count, None),
    }
}

/// Moving the mouse to a place, where it is known.
pub open spec fn move_to<'a>(point: Option<Point>) -> Perform<'a> {
    match point {
        Some(point) => run(Job::Move { point }),
        None => Perform::Failed(Fault::MoveUnplaced),
    }
}

/// How an action begins. A screenshot without a path of its own goes to `scratch`.
pub open spec fn begin<'a>(action: &'a Action, scratch: &'a String) -> Perform<'a> {
    match action {
        Action::Click { selector, coordinates, button, count } => match coordinates {
            Some(point) => match selector {
                Some(selector) => click_in(&selector.app, Some(*point), *button, *count),
                None => click_at(Some(*point), *button, *count, None),
            },
            None => match selector {
                Some(selector) => Perform::ClickFind { selector, button: *button, count: *count },
                None => Perform::Failed(Fault::ClickUnspecified),
            },
        },
        Action::Type { text, selector, submit } => match selector {
            Some(selector) => match &selector.app {
                Some(app) => Perform::TypePid { app, selector, text, submit: *submit },
                None => Perform::TypeFind { root: Root::System, selector, text, submit: *submit },
            },
            None => run(Job::Type { text, submit: *submit }),
        },
        Action::KeyPress { key, app } => match app {
            Some(app) => match pid_target(app@) {
                Some(pid) => run(Job::PressAt { pid, key }),
                None => run(Job::PressIn { app, key }),
            },
            None => run(Job::Press { key }),
        },
        Action::Scroll { direction, amount, selector, app } => match app {
            Some(app) => Perform::ScrollPid {
                app,
                selector: match selector {
                    Some(selector) => Some(selector),
                    None => None,
                },
                direction: *direction,
                amount: *amount,
            },
            None => run(Job::Scroll { direction: *direction, amount: *amount }),
        },
        Action::MoveMouse { selector, coordinates } => match coordinates {
            Some(point) => move_to(Some(*point)),
            None => match selector {
                Some(selector) => Perform::MoveFind { selector },
                None => Perform::Failed(Fault::MoveUnspecified),
            },
        },
        Action::Drag { from, to } => run(Job::Drag { from, to }),
        Action::Focus { selector } => match &selector.app {
            Some(app) => Perform::FocusPid { app, selector },
            None => Perform::FocusFind { root: Root::System, selector },
        },
        Action::Screenshot { path, app } => {
            let path = match path {
                Some(path) => path,
                None => scratch,
            };
            match app {
                Some(app) => Perform::ShotWindows { app, path },
                None => Perform::ShotScreen { path },
            }
        },
    }
}

/// The state after the state `state`, once `reply` came of its command. A reply that
/// does not belong to the command changes nothing.
pub open spec fn next<'a>(state: Perform<'a>, reply: Reply) -> Perform<'a> {
    match (state, reply) {
        (Perform::ClickFind { selector, button, count }, Reply::One(found)) => match found {
            Ok(node) => click_in(&selector.app, center_of(node), button, count),
            Err(e) => Perform::Failed(Fault::Raised(e)),
        },
        (Perform::ClickPid { point, button, count, .. }, Reply::Pid(found)) => match found {
            Ok(pid) => click_at(point, button, count, Some(pid)),
            Err(e) => Perform::Failed(Fault::Raised(e)),
        },
        (Perform::TypePid { selector, text, submit, .. }, Reply::Pid(found)) => match found {
            Ok(pid) => Perform::TypeFind { root: Root::Application(pid), selector, text, submit },
            Err(e) => Perform::Failed(Fault::Raised(e)),
        },
        (Perform::TypeFind { selector, text, submit, .. }, Reply::Found(found)) => if found {
            Perform::TypeDescribe { selector, text, submit }
        } else {
            Perform::Failed(Fault::NoElement(selector))
        },
        (
            Perform::TypeDescribe { selector, text, submit },
            Reply::Described(node),
        ) => Perform::TypeRelease { selector, text, submit, point: center_of(node) },
        (Perform::TypeRelease { selector, text, submit, point }, Reply::Done(done)) => match done {
            Ok(_) => match point {
                Some(point) => run(
                    Job::Fill { app: optional_ref(&selector.app), point, text, submit },
                ),
                None => Perform::Failed(Fault::TypeUnplaced),
            },
            Err(e) => Perform::Failed(Fault::Raised(e)),
        },
        (
            Perform::ScrollPid { app, selector, direction, amount },
            Reply::Pid(found),
        ) => match found {
            Ok(pid) => Perform::ScrollLook { app, pid, selector, direction, amount },
            Err(e) => Perform::Failed(Fault::Raised(e)),
        },
        (
            Perform::ScrollLook { app, pid, selector: Some(_), direction, amount },
            Reply::All(nodes),
        ) => {
            let point = if nodes@.len() > 0 {
                center_of(nodes@[0])
            } else {
                None
            };
            run(Job::ScrollIn { app, pid, point, direction, amount })
        },
        (
            Perform::ScrollLook { app, pid, selector: None, direction, amount },
            Reply::Described(tree),
        ) => run(Job::ScrollIn { app, pid, point: best_scroll_point(tree), direction, amount }),
        (Perform::MoveFind { .. }, Reply::One(found)) => match found {
            Ok(node) => move_to(center_of(node)),
            Err(e) => Perform::Failed(Fault::Raised(e)),
        },
        (Perform::FocusPid { selector, .. }, Reply::Pid(found)) => match found {
            Ok(pid) => Perform::FocusFind { root: Root::Application(pid), selector },
            Err(e) => Perform::Failed(Fault::Raised(e)),
        },
        (Perform::FocusFind { selector, .. }, Reply::Found(found)) => if found {
            Perform::FocusSet
        } else {
            Perform::Failed(Fault::NoElement(selector))
        },
        (Perform::FocusSet, Reply::Focused(focused)) => Perform::FocusRelease { focused },
        (Perform::FocusRelease { focused }, Reply::Done(done)) => match done {
            Ok(_) => if focused {
                Perform::Succeeded(Achieved::Focus)
            } else {
                Perform::Failed(Fault::FocusRefused)
            },
            Err(e) => Perform::Failed(Fault::Raised(e)),
        },
        (Perform::ShotWindows { app, path }, Reply::Windows(found)) => match found {
            Ok(windows) => if windows@.len() > 0 {
                Perform::ShotWindow { windows, at: 0, path }
            } else {
                Perform::Failed(Fault::NothingToCapture(app))
            },
            Err(e) => Perform::Failed(Fault::Raised(e)),
        },
        (Perform::ShotWindow { windows, at, path }, Reply::Done(done)) => match done {
            Ok(_) => Perform::Succeeded(Achieved::Screenshot(path)),
            Err(e) => if at + 1 < windows@.len() {
                Perform::ShotWindow { windows, at: (at + 1) as usize, path }
            } else {
                Perform::Failed(Fault::Raised(e))
            },
        },
        (Perform::ShotScreen { path }, Reply::Ended(end)) => match end {
            ProgramEnd::NotStarted { reason } => Perform::Failed(
                Fault::ScreencaptureNotStarted(reason),
            ),
            ProgramEnd::Exited { success, .. } => if success {
                Perform::Succeeded(Achieved::Screenshot(path))
            } else {
                Perform::Failed(Fault::ScreencaptureFailed)
            },
        },
        (Perform::Running { job, at }, Reply::Done(done)) => match done {
            Ok(_) => if at + 1 < job.commands().len() {
                Perform::Running { job, at: (at + 1) as usize }
            } else {
                Perform::Succeeded(Achieved::Job(job))
            },
            Err(e) => Perform::Failed(Fault::Raised(e)),
        },
        _ => state,
    }
}

impl<'a> Perform<'a> {
    /// Whether the state is one that an action can be in.
    pub open spec fn is_valid(self) -> bool {
        match self {
            Perform::ShotWindow { windows, at, .. } => at < windows@.len(),
            Perform::Running { job, at } => at < job.commands().len(),
            _ => true,
        }
    }

    /// Whether the action is over.
    pub open spec fn is_over(self) -> bool {
        self is Succeeded || self is Failed
    }

    /// What the host is to do, if the action is not over.
    pub open spec fn awaited(&self) -> Option<Command<'_>> {
        match self {
            Perform::ClickFind { selector, .. } => Some(Command::FindOne(selector)),
            Perform::ClickPid { app, .. } => Some(Command::FindPid(app)),
            Perform::TypePid { app, .. } => Some(Command::FindPid(app)),
            Perform::TypeFind { root, selector, .. } => Some(
                Command::FindElement(*root, selector),
            ),
            Perform::TypeDescribe { .. } => Some(Command::DescribeElement),
            Perform::TypeRelease { .. } => Some(Command::ReleaseElement),
            Perform::ScrollPid { app, .. } => Some(Command::FindPid(app)),
            Perform::ScrollLook { pid, selector: Some(selector), .. } => Some(
                Command::FindAll(*pid, selector),
            ),
            Perform::ScrollLook { pid, selector: None, .. } => Some(Command::DescribeApp(*pid, SCROLL_DEPTH)),
            Perform::MoveFind { selector } => Some(Command::FindOne(selector)),
            Perform::FocusPid { app, .. } => Some(Command::FindPid(app)),
            Perform::FocusFind { root, selector } => Some(Command::FindElement(*root, selector)),
            Perform::FocusSet => Some(Command::FocusElement),
            Perform::FocusRelease { .. } => Some(Command::ReleaseElement),
            Perform::ShotWindows { app, .. } => Some(Command::FindWindows(app)),
            Perform::ShotWindow { windows, at, path } => Some(
                Command::CaptureWindow { window: windows@[*at as int], path },
            ),
            Perform::ShotScreen { path } => Some(Command::CaptureScreen { path }),
            Perform::Running { job, at } => Some(job.commands()[*at as int]),
            Perform::Succeeded(_) => None,
            Perform::Failed(_) => None,
        }
    }

    /// Whether the reply is one to the command awaited.
    pub open spec fn accepts(self, reply: Reply) -> bool {
        match self {
            Perform::ClickFind { .. } => reply is One,
            Perform::ClickPid { .. } => reply is Pid,
            Perform::TypePid { .. } => reply is Pid,
            Perform::TypeFind { .. } => reply is Found,
            Perform::TypeDescribe { .. } => reply is Described,
            Perform::TypeRelease { .. } => reply is Done,
            Perform::ScrollPid { .. } => reply is Pid,
            Perform::ScrollLook { selector, .. } => if selector is Some {
                reply is All
            } else {
                reply is Described
            },
            Perform::MoveFind { .. } => reply is One,
            Perform::FocusPid { .. } => reply is Pid,
            Perform::FocusFind { .. } => reply is Found,
            Perform::FocusSet => reply is Focused,
            Perform::FocusRelease { .. } => reply is Done,
            Perform::ShotWindows { .. } => reply is Windows,
            Perform::ShotWindow { .. } => reply is Done,
            Perform::ShotScreen { .. } => reply is Ended,
            Perform::Running { .. } => reply is Done,
            Perform::Succeeded(_) => false,
            Perform::Failed(_) => false,
        }
    }

    fn start_job(job: Job<'a>) -> (r: Self)
        ensures
            r == run(job),
            r.is_valid(),
    {
        let list = job.list_commands();
        assert(list@.len() > 0);
        Perform::Running { job, at: 0 }
    }

    fn start_click(point: Option<Point>, button: MouseButton, count: u32, pid: Option<i32>) -> (r:
        Self)
        ensures
            r == click_at::<'a>(point, button, count, pid),
            r.is_valid(),
    {
        match point {
            Some(point) => Self::start_job(Job::Click { point, button, count, pid }),
            None => Perform::Failed(Fault::ClickUnplaced),
        }
    }

    fn start_click_in(
        app: &'a Option<String>,
        point: Option<Point>,
        button: MouseButton,
        count: u32,
    ) -> (r: Self)
        ensures
            r == click_in(app, point, button, count),
            r.is_valid(),
    {
        match app {
            Some(name) => Perform::ClickPid { app: name, point, button, count },
            None => Self::start_click(point, button, count, None),
        }
    }

    fn start_move(point: Option<Point>) -> (r: Self)
        ensures
            r == move_to::<'a>(point),
            r.is_valid(),
    {
        match point {
            Some(point) => Self::start_job(Job::Move { point }),
            None => Perform::Failed(Fault::MoveUnplaced),
        }
    }

    /// Begins an action. A screenshot without a path of its own goes to `scratch`.
    pub fn start(action: &'a Action, scratch: &'a String) -> (r: Self)
        ensures
            r == begin(action, scratch),
            r.is_valid(),
    {
        match action {
            Action::Click { selector, coordinates, button, count } => match coordinates {
                Some(point) => match selector {
                    Some(selector) => Self::start_click_in(
                        &selector.app,
                        Some(point.copy()),
                        *button,
                        *count,
                    ),
                    None => Self::start_click(Some(point.copy()), *button, *count, None),
                },
                None => match selector {
                    Some(selector) => Perform::ClickFind {
                        selector,
                        button: *button,
                        count: *count,
                    },
                    None => Perform::Failed(Fault::ClickUnspecified),
                },
            },
            Action::Type { text, selector, submit } => match selector {
                Some(selector) => match &selector.app {
                    Some(app) => Perform::TypePid { app, selector, text, submit: *submit },
                    None => Perform::TypeFind {
                        root: Root::System,
                        selector,
                        text,
                        submit: *submit,
                    },
                },
                None => Self::start_job(Job::Type { text, submit: *submit }),
            },
            Action::KeyPress { key, app } => match app {
                Some(app) => match parse_pid_target(app.as_str()) {
                    Some(pid) => Self::start_job(Job::PressAt { pid, key }),
                    None => Self::start_job(Job::PressIn { app, key }),
                },
                None => Self::start_job(Job::Press { key }),
            },
            Action::Scroll { direction, amount, selector, app } => match app {
                Some(app) => Perform::ScrollPid {
                    app,
                    selector: match selector {
                        Some(selector) => Some(selector),
                        None => None,
                    },
                    direction: *direction,
                    amount: *amount,
                },
                None => Self::start_job(Job::Scroll { direction: *direction, amount: *amount }),
            },
            Action::MoveMouse { selector, coordinates } => match coordinates {
                Some(point) => Self::start_move(Some(point.copy())),
                None => match selector {
                    Some(selector) => Perform::MoveFind { selector },
                    None => Perform::Failed(Fault::MoveUnspecified),
                },
            },
            Action::Drag { from, to } => Self::start_job(Job::Drag { from, to }),
            Action::Focus { selector } => match &selector.app {
                Some(app) => Perform::FocusPid { app, selector },
                None => Perform::FocusFind { root: Root::System, selector },
            },
            Action::Screenshot { path, app } => {
                let path = match path {
                    Some(path) => path,
                    None => scratch,
                };
                match app {
                    Some(app) => Perform::ShotWindows { app, path },
                    None => Perform::ShotScreen { path },
                }
            },
        }
    }

    /// What the host is to do, if the action is not over.
    pub fn command(&self) -> (r: Option<Command<'_>>)
        requires
            self.is_valid(),
        ensures
            r == self.awaited(),
    {
        match self {
            Perform::ClickFind { selector, .. } => Some(Command::FindOne(selector)),
            Perform::ClickPid { app, .. } => Some(Command::FindPid(app)),
            Perform::TypePid { app, .. } => Some(Command::FindPid(app)),
            Perform::TypeFind { root, selector, .. } => Some(
                Command::FindElement(*root, selector),
            ),
            Perform::TypeDescribe { .. } => Some(Command::DescribeElement),
            Perform::TypeRelease { .. } => Some(Command::ReleaseElement),
            Perform::ScrollPid { app, .. } => Some(Command::FindPid(app)),
            Perform::ScrollLook { pid, selector, .. } => match selector {
                Some(selector) => Some(Command::FindAll(*pid, selector)),
                None => Some(Command::DescribeApp(*pid, SCROLL_DEPTH)),
            },
            Perform::MoveFind { selector } => Some(Command::FindOne(selector)),
            Perform::FocusPid { app, .. } => Some(Command::FindPid(app)),
            Perform::FocusFind { root, selector } => Some(Command::FindElement(*root, selector)),
            Perform::FocusSet => Some(Command::FocusElement),
            Perform::FocusRelease { .. } => Some(Command::ReleaseElement),
            Perform::ShotWindows { app, .. } => Some(Command::FindWindows(app)),
            Perform::ShotWindow { windows, at, path } => Some(
                Command::CaptureWindow { window: windows[*at], path },
            ),
            Perform::ShotScreen { path } => Some(Command::CaptureScreen { path }),
            Perform::Running { job, at } => {
                let mut list = job.list_commands();
                Some(list.swap_remove(*at))
            },
            Perform::Succeeded(_) => None,
            Perform::Failed(_) => None,
        }
    }

    /// Goes on once `reply` came of the command.
    pub fn step(self, reply: Reply) -> (r: Self)
        requires
            self.is_valid(),
            self.accepts(reply),
        ensures
            r == next(self, reply),
            r.is_valid(),
    {
        match (self, reply) {
            (Perform::ClickFind { selector, button, count }, Reply::One(found)) => match found {
                Ok(node) => Self::start_click_in(&selector.app, node.center(), button, count),
                Err(e) => Perform::Failed(Fault::Raised(e)),
            },
            (Perform::ClickPid { app: _, point, button, count }, Reply::Pid(found)) => match found {
                Ok(pid) => Self::start_click(point, button, count, Some(pid)),
                Err(e) => Perform::Failed(Fault::Raised(e)),
            },
            (
                Perform::TypePid { app: _, selector, text, submit },
                Reply::Pid(found),
            ) => match found {
                Ok(pid) => Perform::TypeFind {
                    root: Root::Application(pid),
                    selector,
                    text,
                    submit,
                },
                Err(e) => Perform::Failed(Fault::Raised(e)),
            },
            (
                Perform::TypeFind { root: _, selector, text, submit },
                Reply::Found(found),
            ) => if found {
                Perform::TypeDescribe { selector, text, submit }
            } else {
                Perform::Failed(Fault::NoElement(selector))
            },
            (
                Perform::TypeDescribe { selector, text, submit },
                Reply::Described(node),
            ) => Perform::TypeRelease { selector, text, submit, point: node.center() },
            (
                Perform::TypeRelease { selector, text, submit, point },
                Reply::Done(done),
            ) => match done {
                Ok(_) => match point {
                    Some(point) => {
                        let app = match &selector.app {
                            Some(name) => Some(name),
                            None => None,
                        };
                        Self::start_job(Job::Fill { app, point, text, submit })
                    },
                    None => Perform::Failed(Fault::TypeUnplaced),
                },
                Err(e) => Perform::Failed(Fault::Raised(e)),
            },
            (
                Perform::ScrollPid { app, selector, direction, amount },
                Reply::Pid(found),
            ) => match found {
                Ok(pid) => Perform::ScrollLook { app, pid, selector, direction, amount },
                Err(e) => Perform::Failed(Fault::Raised(e)),
            },
            (
                Perform::ScrollLook { app, pid, selector: _, direction, amount },
                Reply::All(nodes),
            ) => {
                let point = if nodes.len() > 0 {
                    nodes[0].center()
                } else {
                    None
                };
                Self::start_job(Job::ScrollIn { app, pid, point, direction, amount })
            },
            (
                Perform::ScrollLook { app, pid, selector: _, direction, amount },
                Reply::Described(tree),
            ) => {
                let point = find_best_scroll_point(&tree);
                Self::start_job(Job::ScrollIn { app, pid, point, direction, amount })
            },
            (Perform::MoveFind { selector: _ }, Reply::One(found)) => match found {
                Ok(node) => Self::start_move(node.center()),
                Err(e) => Perform::Failed(Fault::Raised(e)),
            },
            (Perform::FocusPid { app: _, selector }, Reply::Pid(found)) => match found {
                Ok(pid) => Perform::FocusFind { root: Root::Application(pid), selector },
                Err(e) => Perform::Failed(Fault::Raised(e)),
            },
            (Perform::FocusFind { root: _, selector }, Reply::Found(found)) => if found {
                Perform::FocusSet
            } else {
                Perform::Failed(Fault::NoElement(selector))
            },
            (Perform::FocusSet, Reply::Focused(focused)) => Perform::FocusRelease { focused },
            (Perform::FocusRelease { focused }, Reply::Done(done)) => match done {
                Ok(_) => if focused {
                    Perform::Succeeded(Achieved::Focus)
                } else {
                    Perform::Failed(Fault::FocusRefused)
                },
                Err(e) => Perform::Failed(Fault::Raised(e)),
            },
            (Perform::ShotWindows { app, path }, Reply::Windows(found)) => match found {
                Ok(windows) => if windows.len() > 0 {
                    Perform::ShotWindow { windows, at: 0, path }
                } else {
                    Perform::Failed(Fault::NothingToCapture(app))
                },
                Err(e) => Perform::Failed(Fault::Raised(e)),
            },
            (Perform::ShotWindow { windows, at, path }, Reply::Done(done)) => match done {
                Ok(_) => Perform::Succeeded(Achieved::Screenshot(path)),
                Err(e) => {
                    let count = windows.len();
                    if at + 1 < count {
                        Perform::ShotWindow { windows, at: at + 1, path }
                    } else {
                        Perform::Failed(Fault::Raised(e))
                    }
                },
            },
            (Perform::ShotScreen { path }, Reply::Ended(end)) => match end {
                ProgramEnd::NotStarted { reason } => Perform::Failed(
                    Fault::ScreencaptureNotStarted(reason),
                ),
                ProgramEnd::Exited { success, stderr: _ } => if success {
                    Perform::Succeeded(Achieved::Screenshot(path))
                } else {
                    Perform::Failed(Fault::ScreencaptureFailed)
                },
            },
            (Perform::Running { job, at }, Reply::Done(done)) => match done {
                Ok(_) => {
                    let count = job.list_commands().len();
                    if at + 1 < count {
                        Perform::Running { job, at: at + 1 }
                    } else {
                        Perform::Succeeded(Achieved::Job(job))
                    }
                },
                Err(e) => Perform::Failed(Fault::Raised(e)),
            },
            (state, _) => state,
        }
    }

    /// The result of an action that is over.
    pub fn finish(self) -> (r: Result<ActionResult, Error>)
        requires
            self.is_over(),
        ensures
            match self {
                Perform::Succeeded(achieved) => r is Ok && r->Ok_0@ == achieved.reported(),
                Perform::Failed(fault) => is_report(r, fault),
                _ => false,
            },
    {
        match self {
            Perform::Succeeded(achieved) => Ok(achieved.report()),
            Perform::Failed(fault) => Err(fault.report()),
            _ => vstd::pervasive::unreached(),
        }
    }
}

} // verus!
