//! Bringing an application to the front, one command to the host at a time.

use vstd::prelude::*;

use crate::action::ProgramEnd;
use crate::error::Error;
#[allow(unused_imports)]
use crate::fault::is_report;
use crate::fault::Fault;
use crate::pid::parse_pid_target;
#[allow(unused_imports)]
use crate::pid::pid_target;
use crate::text::concat3;

verus! {

/// How long to wait for the application to come to the front, in milliseconds.
pub const SETTLING_TIME: u64 = 200;

/// What the host is to do next.
#[derive(Debug, PartialEq, Eq)]
pub enum ActivateCommand<'a> {
    /// Find the process that the application's name means.
    FindPid(&'a String),
    /// Raise the window of the process.
    RaiseWindow(i32),
    /// Run the script that activates the application.
    RunScript(&'a String),
    /// Wait, for so many milliseconds.
    Pause(u64),
}

/// What came of a command.
#[derive(Debug, PartialEq, Eq)]
pub enum ActivateReply {
    /// Of finding a process.
    Pid(Result<i32, Error>),
    /// Of raising a window, or waiting.
    Done,
    /// Of running the script: how the program ended.
    Ended(ProgramEnd),
}

/// Whether a reply is one to that command.
pub open spec fn answers_activation<'a>(command: ActivateCommand<'a>, reply: ActivateReply) -> bool {
    match command {
        ActivateCommand::FindPid(_) => reply is Pid,
        ActivateCommand::RunScript(_) => reply is Ended,
        ActivateCommand::RaiseWindow(_) | ActivateCommand::Pause(_) => reply is Done,
    }
}

/// An activation under way.
#[derive(Debug, PartialEq, Eq)]
pub enum Activation<'a> {
    /// Looking for the process.
    Pid(&'a String),
    /// Raising its window.
    Raise(&'a String, i32),
    /// Running the script.
    Script(&'a String),
    /// Waiting for the application to come to the front.
    Settle,
    Activated,
    Failed(Fault<'a>),
}

/// The state after the state `state`, once `reply` came of its command. A reply that
/// does not belong to the command changes nothing.
pub open spec fn activate_next<'a>(state: Activation<'a>, reply: ActivateReply) -> Activation<'a> {
    match (state, reply) {
        (Activation::Pid(app), ActivateReply::Pid(found)) => match found {
            Ok(pid) => Activation::Raise(app, pid),
            Err(e) => Activation::Failed(Fault::Raised(e)),
        },
        (Activation::Raise(app, _), ActivateReply::Done) => if pid_target(app@) is Some {
            Activation::Settle
        } else {
            Activation::Script(app)
        },
        (Activation::Script(app), ActivateReply::Ended(end)) => match end {
            ProgramEnd::NotStarted { reason } => Activation::Failed(
                Fault::ActivateNotStarted(app, reason),
            ),
            ProgramEnd::Exited { success, stderr } => if success {
                Activation::Settle
            } else {
                Activation::Failed(Fault::ActivateFailed(app, stderr))
            },
        },
        (Activation::Settle, ActivateReply::Done) => Activation::Activated,
        _ => state,
    }
}

impl<'a> Activation<'a> {
    /// Whether the activation is over.
    pub open spec fn is_over(self) -> bool {
        self is Activated || self is Failed
    }

    /// What the host is to do, if the activation is not over.
    pub open spec fn awaited(&self) -> Option<ActivateCommand<'_>> {
        match self {
            Activation::Pid(app) => Some(ActivateCommand::FindPid(app)),
            Activation::Raise(_, pid) => Some(ActivateCommand::RaiseWindow(*pid)),
            Activation::Script(app) => Some(ActivateCommand::RunScript(app)),
            Activation::Settle => Some(ActivateCommand::Pause(SETTLING_TIME)),
            Activation::Activated => None,
            Activation::Failed(_) => None,
        }
    }

    /// Whether the reply is one to the command awaited.
    pub open spec fn accepts(self, reply: ActivateReply) -> bool {
        match self {
            Activation::Pid(_) => reply is Pid,
            Activation::Raise(_, _) => reply is Done,
            Activation::Script(_) => reply is Ended,
            Activation::Settle => reply is Done,
            Activation::Activated => false,
            Activation::Failed(_) => false,
        }
    }

    /// Begins to bring an application to the front.
    pub fn start(app: &'a String) -> (r: Self)
        ensures
            r == Activation::Pid(app),
    {
        Activation::Pid(app)
    }

    /// What the host is to do, if the activation is not over.
    pub fn command(&self) -> (r: Option<ActivateCommand<'_>>)
        ensures
            r == self.awaited(),
    {
        match self {
            Activation::Pid(app) => Some(ActivateCommand::FindPid(app)),
            Activation::Raise(_, pid) => Some(ActivateCommand::RaiseWindow(*pid)),
            Activation::Script(app) => Some(ActivateCommand::RunScript(app)),
            Activation::Settle => Some(ActivateCommand::Pause(SETTLING_TIME)),
            Activation::Activated => None,
            Activation::Failed(_) => None,
        }
    }

    /// Goes on once `reply` came of the command.
    pub fn step(self, reply: ActivateReply) -> (r: Self)
        requires
            self.accepts(reply),
        ensures
            r == activate_next(self, reply),
    {
        match (self, reply) {
            (Activation::Pid(app), ActivateReply::Pid(found)) => match found {
                Ok(pid) => Activation::Raise(app, pid),
                Err(e) => Activation::Failed(Fault::Raised(e)),
            },
            (Activation::Raise(app, _), ActivateReply::Done) => if parse_pid_target(
                app.as_str(),
            ).is_some() {
                Activation::Settle
            } else {
                Activation::Script(app)
            },
            (Activation::Script(app), ActivateReply::Ended(end)) => match end {
                ProgramEnd::NotStarted { reason } => Activation::Failed(
                    Fault::ActivateNotStarted(app, reason),
                ),
                ProgramEnd::Exited { success, stderr } => if success {
                    Activation::Settle
                } else {
                    Activation::Failed(Fault::ActivateFailed(app, stderr))
                },
            },
            (Activation::Settle, ActivateReply::Done) => Activation::Activated,
            (state, _) => state,
        }
    }

    /// What came of an activation that is over.
    pub fn finish(self) -> (r: Result<(), Error>)
        requires
            self.is_over(),
        ensures
            match self {
                Activation::Activated => r is Ok,
                Activation::Failed(fault) => is_report(r, fault),
                _ => false,
            },
    {
        match self {
            Activation::Activated => Ok(()),
            Activation::Failed(fault) => Err(fault.report()),
            _ => vstd::pervasive::unreached(),
        }
    }
}

/// The script that activates an application.
pub open spec fn activation_script(app: Seq<char>) -> Seq<char> {
    "tell application \""@ + app + "\" to activate"@
}

/// The script that activates an application.
pub fn write_activation_script(app: &str) -> (r: String)
    ensures
        r@ == activation_script(app@),
{
    concat3("tell application \"", app, "\" to activate")
}

/// An activation takes the replies that answer its command, and no others.
pub proof fn activations_take_answers<'a>(state: Activation<'a>, reply: ActivateReply)
    ensures
        state.accepts(reply) <==> !state.is_over() && answers_activation(
            state.awaited()->0,
            reply,
        ),
{
}

/// How many stages are left, at most.
pub open spec fn activate_stages_left<'a>(state: Activation<'a>) -> nat {
    match state {
        Activation::Pid(_) => 4,
        Activation::Raise(_, _) => 3,
        Activation::Script(_) => 2,
        Activation::Settle => 1,
        Activation::Activated => 0,
        Activation::Failed(_) => 0,
    }
}

/// Every activation comes to an end.
pub proof fn every_activate_reply_advances<'a>(state: Activation<'a>, reply: ActivateReply)
    requires
        state.accepts(reply),
    ensures
        activate_stages_left(activate_next(state, reply)) < activate_stages_left(state),
{
}

/// A process named outright is raised without running a script; for a name the script
/// runs.
pub proof fn only_names_are_scripted<'a>(app: &'a String, pid: i32)
    ensures
        ({
            let raised = activate_next(Activation::Raise(app, pid), ActivateReply::Done);
            &&& pid_target(app@) is Some ==> raised.awaited() == Some(
                ActivateCommand::Pause(SETTLING_TIME),
            )
            &&& pid_target(app@) is None ==> raised.awaited() == Some(
                ActivateCommand::RunScript(app),
            )
        }),
{
}

/// What bringing an application to the front asks of the host, and what it comes to. Its
/// process is found and its window raised; then, unless the process was named outright,
/// the script is run, which tells the application by its name to activate; and where that
/// went well, two tenths of a second are waited.
pub proof fn course_of_an_activation<'a>(
    app: &'a String,
    pid: i32,
    e: Error,
    reason: String,
    stderr: Vec<u8>,
)
    ensures
        ({
            let start = Activation::Pid(app);
            let found = activate_next(start, ActivateReply::Pid(Ok(pid)));
            let raised = activate_next(found, ActivateReply::Done);
            let ran = |success: bool|
                activate_next(
                    raised,
                    ActivateReply::Ended(ProgramEnd::Exited { success, stderr }),
                );
            &&& start.awaited() == Some(ActivateCommand::FindPid(app))
            &&& activate_next(start, ActivateReply::Pid(Err(e))) == Activation::<'a>::Failed(
                Fault::Raised(e),
            )
            &&& found.awaited() == Some(ActivateCommand::RaiseWindow(pid))
            &&& pid_target(app@) is Some ==> {
                &&& raised.awaited() == Some(ActivateCommand::Pause(200))
                &&& activate_next(raised, ActivateReply::Done) == Activation::<'a>::Activated
            }
            &&& pid_target(app@) is None ==> {
                &&& raised.awaited() == Some(ActivateCommand::RunScript(app))
                &&& ran(true).awaited() == Some(ActivateCommand::Pause(200))
                &&& activate_next(ran(true), ActivateReply::Done) == Activation::<'a>::Activated
                &&& ran(false) == Activation::<'a>::Failed(Fault::ActivateFailed(app, stderr))
                &&& activate_next(
                    raised,
                    ActivateReply::Ended(ProgramEnd::NotStarted { reason }),
                ) == Activation::<'a>::Failed(Fault::ActivateNotStarted(app, reason))
            }
            &&& activation_script(app@) == "tell application \""@ + app@ + "\" to activate"@
        }),
{
}

} // verus!
