//! Acting on a single element without the mouse or the keyboard, one command to the
//! host at a time.

use vstd::prelude::*;

use crate::action::Selector;
use crate::error::Error;
#[allow(unused_imports)]
use crate::fault::is_report;
use crate::fault::Fault;
use crate::perform::Root;

verus! {

/// What to do to the element.
#[derive(Clone, Copy, Debug, PartialEq, Eq)]
pub enum Task<'a> {
    Press,
    ScrollToVisible,
    SetValue(&'a String),
}

/// What the host is to do next.
#[derive(Debug, PartialEq, Eq)]
pub enum TouchCommand<'a> {
    /// Find the process that the application's name means.
    FindPid(&'a String),
    /// Find an element and press it.
    Press(Root, &'a Selector),
    /// Find an element and scroll until it can be seen.
    ScrollToVisible(Root, &'a Selector),
    /// Find an element and hold it.
    FindElement(Root, &'a Selector),
    /// Set the value of the element held.
    SetValue(&'a String),
    /// Let go of the element held.
    ReleaseElement,
}

/// What came of a command.
#[derive(Debug, PartialEq, Eq)]
pub enum TouchReply {
    /// Of finding a process.
    Pid(Result<i32, Error>),
    /// Of anything done to an element, or finding it: whether it succeeded.
    Success(bool),
    /// Of letting go.
    Released,
}

/// Whether a reply is one to that command.
pub open spec fn answers_touch<'a>(command: TouchCommand<'a>, reply: TouchReply) -> bool {
    match command {
        TouchCommand::FindPid(_) => reply is Pid,
        TouchCommand::ReleaseElement => reply is Released,
        _ => reply is Success,
    }
}

/// A task under way.
#[allow(inconsistent_fields)]
#[derive(Debug, PartialEq, Eq)]
pub enum Touch<'a> {
    /// Looking for the process of the application.
    Pid { app: &'a String, selector: &'a Selector, task: Task<'a> },
    /// Finding the element, and doing to it what there is to do.
    Act { root: Root, selector: &'a Selector, task: Task<'a> },
    /// Setting the value of the element held.
    Assign { value: &'a String },
    /// Letting go of the element whose value was set, or not.
    Release { success: bool },
    /// The task is over, and it succeeded or not.
    Over(bool),
    Failed(Fault<'a>),
}

/// How a task begins: in the application that the selector names, or anywhere.
pub open spec fn touch_begin<'a>(selector: &'a Selector, task: Task<'a>) -> Touch<'a> {
    match &selector.app {
        Some(app) => Touch::Pid { app, selector, task },
        None => Touch::Act { root: Root::System, selector, task },
    }
}

/// The state after the state `state`, once `reply` came of its command. A reply that
/// does not belong to the command changes nothing.
pub open spec fn touch_next<'a>(state: Touch<'a>, reply: TouchReply) -> Touch<'a> {
    match (state, reply) {
        (Touch::Pid { selector, task, .. }, TouchReply::Pid(found)) => match found {
            Ok(pid) => Touch::Act { root: Root::Application(pid), selector, task },
            Err(e) => if task is Press {
                Touch::Over(false)
            } else {
                Touch::Failed(Fault::Raised(e))
            },
        },
        (
            Touch::Act { task: Task::SetValue(value), .. },
            TouchReply::Success(found),
        ) => if found {
            Touch::Assign { value }
        } else {
            Touch::Over(false)
        },
        (Touch::Act { .. }, TouchReply::Success(success)) => Touch::Over(success),
        (Touch::Assign { .. }, TouchReply::Success(success)) => Touch::Release { success },
        (Touch::Release { success }, TouchReply::Released) => Touch::Over(success),
        _ => state,
    }
}

impl<'a> Touch<'a> {
    /// Whether the task is over.
    pub open spec fn is_over(self) -> bool {
        self is Over || self is Failed
    }

    /// What the host is to do, if the task is not over.
    pub open spec fn awaited(&self) -> Option<TouchCommand<'_>> {
        match self {
            Touch::Pid { app, .. } => Some(TouchCommand::FindPid(app)),
            Touch::Act { root, selector, task } => Some(
                match task {
                    Task::Press => TouchCommand::Press(*root, selector),
                    Task::ScrollToVisible => TouchCommand::ScrollToVisible(*root, selector),
                    Task::SetValue(_) => TouchCommand::FindElement(*root, selector),
                },
            ),
            Touch::Assign { value } => Some(TouchCommand::SetValue(value)),
            Touch::Release { .. } => Some(TouchCommand::ReleaseElement),
            Touch::Over(_) => None,
            Touch::Failed(_) => None,
        }
    }

    /// Whether the reply is one to the command awaited.
    pub open spec fn accepts(self, reply: TouchReply) -> bool {
        match self {
            Touch::Pid { .. } => reply is Pid,
            Touch::Act { .. } => reply is Success,
            Touch::Assign { .. } => reply is Success,
            Touch::Release { .. } => reply is Released,
            Touch::Over(_) => false,
            Touch::Failed(_) => false,
        }
    }

    /// Begins a task.
    pub fn start(selector: &'a Selector, task: Task<'a>) -> (r: Self)
        ensures
            r == touch_begin(selector, task),
    {
        match &selector.app {
            Some(app) => Touch::Pid { app, selector, task },
            None => Touch::Act { root: Root::System, selector, task },
        }
    }

    /// What the host is to do, if the task is not over.
    pub fn command(&self) -> (r: Option<TouchCommand<'_>>)
        ensures
            r == self.awaited(),
    {
        match self {
            Touch::Pid { app, .. } => Some(TouchCommand::FindPid(app)),
            Touch::Act { root, selector, task } => match task {
                Task::Press => Some(TouchCommand::Press(*root, selector)),
                Task::ScrollToVisible => Some(TouchCommand::ScrollToVisible(*root, selector)),
                Task::SetValue(_) => Some(TouchCommand::FindElement(*root, selector)),
            },
            Touch::Assign { value } => Some(TouchCommand::SetValue(value)),
            Touch::Release { .. } => Some(TouchCommand::ReleaseElement),
            Touch::Over(_) => None,
            Touch::Failed(_) => None,
        }
    }

    /// Goes on once `reply` came of the command.
    pub fn step(self, reply: TouchReply) -> (r: Self)
        requires
            self.accepts(reply),
        ensures
            r == touch_next(self, reply),
    {
        match (self, reply) {
            (Touch::Pid { app: _, selector, task }, TouchReply::Pid(found)) => match found {
                Ok(pid) => Touch::Act { root: Root::Application(pid), selector, task },
                Err(e) => match task {
                    Task::Press => Touch::Over(false),
                    _ => Touch::Failed(Fault::Raised(e)),
                },
            },
            (
                Touch::Act { root: _, selector: _, task },
                TouchReply::Success(success),
            ) => match task {
                Task::SetValue(value) => if success {
                    Touch::Assign { value }
                } else {
                    Touch::Over(false)
                },
                _ => Touch::Over(success),
            },
            (Touch::Assign { value: _ }, TouchReply::Success(success)) => Touch::Release { success },
            (Touch::Release { success }, TouchReply::Released) => Touch::Over(success),
            (state, _) => state,
        }
    }

    /// Whether a task that is over succeeded.
    pub fn finish(self) -> (r: Result<bool, Error>)
        requires
            self.is_over(),
        ensures
            match self {
                Touch::Over(success) => r == Ok::<bool, Error>(success),
                Touch::Failed(fault) => is_report(r, fault),
                _ => false,
            },
    {
        match self {
            Touch::Over(success) => Ok(success),
            Touch::Failed(fault) => Err(fault.report()),
            _ => vstd::pervasive::unreached(),
        }
    }

    /// Whether the element was pressed, once the task of pressing it is over.
    pub fn pressed(self) -> (r: Option<()>)
        requires
            self.is_over(),
        ensures
            r is Some <==> self == Touch::<'a>::Over(true),
    {
        match self {
            Touch::Over(success) => if success {
                Some(())
            } else {
                None
            },
            _ => None,
        }
    }
}

/// A task takes the replies that answer its command, and no others.
pub proof fn touches_take_answers<'a>(state: Touch<'a>, reply: TouchReply)
    ensures
        state.accepts(reply) <==> !state.is_over() && answers_touch(state.awaited()->0, reply),
{
}

/// How many stages are left, at most.
pub open spec fn touch_stages_left<'a>(state: Touch<'a>) -> nat {
    match state {
        Touch::Pid { .. } => 4,
        Touch::Act { .. } => 3,
        Touch::Assign { .. } => 2,
        Touch::Release { .. } => 1,
        Touch::Over(_) => 0,
        Touch::Failed(_) => 0,
    }
}

/// Every task comes to an end.
pub proof fn every_touch_reply_advances<'a>(state: Touch<'a>, reply: TouchReply)
    requires
        state.accepts(reply),
    ensures
        touch_stages_left(touch_next(state, reply)) < touch_stages_left(state),
{
}

/// Whether pressing is all that is left to do, or it is over without an error.
pub open spec fn is_pressing<'a>(state: Touch<'a>) -> bool {
    match state {
        Touch::Pid { task, .. } => task is Press,
        Touch::Act { task, .. } => task is Press,
        Touch::Over(_) => true,
        _ => false,
    }
}

/// Pressing an element never fails with an error: an application that is not found
/// only means that nothing was pressed.
pub proof fn pressing_reports_no_error<'a>(selector: &'a Selector, state: Touch<'a>, reply: TouchReply)
    ensures
        is_pressing(touch_begin(selector, Task::Press)),
        is_pressing(state) ==> is_pressing(touch_next(state, reply)),
{
}

/// An element whose value is set is let go of next, whether the setting succeeded or
/// not, and what it came to is what is reported.
pub proof fn set_element_is_released<'a>(value: &'a String, success: bool)
    ensures
        ({
            let set = touch_next(Touch::Assign { value }, TouchReply::Success(success));
            &&& set.awaited() == Some(TouchCommand::ReleaseElement)
            &&& touch_next(set, TouchReply::Released) == Touch::<'a>::Over(success)
        }),
{
}

/// What each task asks of the host, and what it comes to. It goes on in the process of the
/// application that the selector names, or in the whole system. Pressing and scrolling
/// succeed if the host did. Setting a value finds the element first; where there is none,
/// nothing is set and that is no error.
pub proof fn course_of_a_task<'a>(
    selector: &'a Selector,
    value: &'a String,
    pid: i32,
    success: bool,
    e: Error,
)
    ensures
        ({
            let root = if selector.app is Some {
                Root::Application(pid)
            } else {
                Root::System
            };
            let press = Touch::Act { root, selector, task: Task::Press };
            let scroll = Touch::Act { root, selector, task: Task::ScrollToVisible };
            let set = Touch::Act { root, selector, task: Task::SetValue(value) };
            let held = touch_next(set, TouchReply::Success(true));
            &&& press.awaited() == Some(TouchCommand::Press(root, selector))
            &&& scroll.awaited() == Some(TouchCommand::ScrollToVisible(root, selector))
            &&& set.awaited() == Some(TouchCommand::FindElement(root, selector))
            &&& held.awaited() == Some(TouchCommand::SetValue(value))
            &&& touch_next(press, TouchReply::Success(success)) == Touch::<'a>::Over(success)
            &&& touch_next(scroll, TouchReply::Success(success)) == Touch::<'a>::Over(success)
            &&& touch_next(set, TouchReply::Success(false)) == Touch::<'a>::Over(false)
            &&& forall|task: Task<'a>| #[trigger]
                touch_begin(selector, task) == (match &selector.app {
                    None => Touch::Act { root, selector, task },
                    Some(app) => Touch::Pid { app, selector, task },
                })
            &&& selector.app is Some ==> forall|task: Task<'a>|
                {
                    let start = #[trigger] touch_begin(selector, task);
                    &&& start.awaited() == Some(TouchCommand::FindPid(&selector.app->0))
                    &&& touch_next(start, TouchReply::Pid(Ok(pid))) == (Touch::Act {
                        root,
                        selector,
                        task,
                    })
                    &&& touch_next(start, TouchReply::Pid(Err(e))) == (if task is Press {
                        Touch::<'a>::Over(false)
                    } else {
                        Touch::<'a>::Failed(Fault::Raised(e))
                    })
                }
        }),
{
}

} // verus!
