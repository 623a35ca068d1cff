//! The programs that the host runs, and what their ends mean.

use vstd::prelude::*;

use crate::action::ProgramEnd;
use crate::activate::write_activation_script;
#[allow(unused_imports)]
use crate::activate::activation_script;
use crate::error::Error;
#[allow(unused_imports)]
use crate::fault::is_report;
use crate::fault::Fault;
use crate::node::AccessibilityNode;
use crate::text::{concat3, decimal_text};
#[allow(unused_imports)]
use crate::text::{decimal, numbers_are_told_apart, texts};

verus! {

fn two_arguments(flag: &str, argument: String) -> (r: Vec<String>)
    ensures
        texts(r@) == seq![flag@, argument@],
{
    let mut arguments: Vec<String> = Vec::new();
    arguments.push(flag.to_owned());
    arguments.push(argument);
    assert(texts(arguments@) =~= seq![flag@, argument@]);
    arguments
}

/// The arguments of `osascript` to activate an application.
pub fn osascript_arguments(app: &str) -> (r: Vec<String>)
    ensures
        texts(r@) == seq!["-e"@, activation_script(app@)],
{
    two_arguments("-e", write_activation_script(app))
}

/// The arguments of `screencapture` to write an image of the screen, without a sound.
pub fn screencapture_arguments(path: &str) -> (r: Vec<String>)
    ensures
        texts(r@) == seq!["-x"@, path@],
{
    two_arguments("-x", path.to_owned())
}

/// The arguments of `open` to start an application.
pub fn open_arguments(app: &str) -> (r: Vec<String>)
    ensures
        texts(r@) == seq!["-a"@, app@],
{
    two_arguments("-a", app.to_owned())
}

/// Why an application was not opened, by how `open` ended.
pub open spec fn open_fault<'a>(app: &'a String, end: ProgramEnd) -> Option<Fault<'a>> {
    match end {
        ProgramEnd::NotStarted { reason } => Some(Fault::OpenNotStarted(app, reason)),
        ProgramEnd::Exited { success, .. } => if success {
            None
        } else {
            Some(Fault::OpenFailed(app))
        },
    }
}

/// Whether an application was opened, by how `open` ended.
pub fn open_result(app: &String, end: ProgramEnd) -> (r: Result<(), Error>)
    ensures
        match open_fault(app, end) {
            None => r is Ok,
            Some(fault) => is_report(r, fault),
        },
{
    match end {
        ProgramEnd::NotStarted { reason } => Err(Fault::OpenNotStarted(app, reason).report()),
        ProgramEnd::Exited { success, stderr: _ } => if success {
            Ok(())
        } else {
            Err(Fault::OpenFailed(app).report())
        },
    }
}

/// Where a screenshot goes that has no path of its own.
pub open spec fn scratch_path(process: u32) -> Seq<char> {
    "/tmp/agent-computer-use-screenshot-"@ + decimal(process as nat) + ".png"@
}

/// Where a screenshot goes that has no path of its own. `process` is the number of
/// the process that takes it.
pub fn write_scratch_path(process: u32) -> (r: String)
    ensures
        r@ == scratch_path(process),
{
    concat3("/tmp/agent-computer-use-screenshot-", decimal_text(process as u64).as_str(), ".png")
}

/// The element that has the keyboard focus, if the host found one.
pub fn focused(found: Option<AccessibilityNode>) -> (r: Result<AccessibilityNode, Error>)
    ensures
        match found {
            Some(element) => r == Ok::<AccessibilityNode, Error>(element),
            None => is_report(r, Fault::NothingFocused),
        },
{
    match found {
        Some(element) => Ok(element),
        None => Err(Fault::NothingFocused.report()),
    }
}

/// An application counts as opened exactly if the program ran and succeeded. Where it
/// could not be started that is reported with the reason, and where it failed there is no
/// such application.
pub proof fn opening_succeeds_with_the_program<'a>(
    app: &'a String,
    reason: String,
    stderr: Vec<u8>,
)
    ensures
        open_fault(app, ProgramEnd::Exited { success: true, stderr }) is None,
        open_fault(app, ProgramEnd::Exited { success: false, stderr }) == Some(
            Fault::OpenFailed(app),
        ),
        open_fault(app, ProgramEnd::NotStarted { reason }) == Some(
            Fault::OpenNotStarted(app, reason),
        ),
{
}

/// Every process has a scratch path of its own, for PNG files and under `/tmp`.
pub proof fn scratch_paths_are_told_apart(a: u32, b: u32)
    ensures
        scratch_path(a) == "/tmp/agent-computer-use-screenshot-"@ + decimal(a as nat) + ".png"@,
        scratch_path(a) == scratch_path(b) ==> a == b,
{
    let head = "/tmp/agent-computer-use-screenshot-"@;
    let tail = ".png"@;
    let x = decimal(a as nat);
    let y = decimal(b as nat);
    if scratch_path(a) == scratch_path(b) {
        assert((head + x + tail).len() == (head + y + tail).len());
        assert(x =~= (head + x + tail).subrange(head.len() as int, (head.len() + x.len()) as int));
        assert(y =~= (head + y + tail).subrange(head.len() as int, (head.len() + y.len()) as int));
        numbers_are_told_apart(a as nat, b as nat);
    }
}

} // verus!
