//! Writing an image of a window to a PNG file, one command to the host at a time.

use vstd::prelude::*;

use crate::error::Error;
#[allow(unused_imports)]
use crate::fault::is_report;
use crate::fault::Fault;

verus! {

/// How the image of a window is taken.
#[derive(Clone, Copy, Debug, PartialEq, Eq, Structural)]
pub enum ImageQuality {
    /// At the best resolution, without the window's frame.
    BestUnframed,
    /// As the system does it by default.
    Default,
}

/// What the host is to do next.
#[allow(inconsistent_fields)]
#[derive(Debug, PartialEq, Eq)]
pub enum CaptureCommand<'a> {
    /// Take an image of the window, and keep it.
    TakeImage { window: u32, quality: ImageQuality },
    /// Make a URL of the path, and keep it.
    MakeUrl(&'a String),
    /// Begin a PNG file with one image at the URL, and hold it.
    BeginFile,
    /// Put the image into the file.
    AddImage,
    /// Write the file.
    WriteFile,
    /// Let go of the file.
    ReleaseFile,
}

/// What came of a command.
#[derive(Debug, PartialEq, Eq)]
pub enum CaptureReply {
    /// Of a command that can fail: whether it succeeded.
    Success(bool),
    /// Of one that cannot.
    Done,
}

/// Whether a reply is one to that command.
pub open spec fn answers_capture<'a>(command: CaptureCommand<'a>, reply: CaptureReply) -> bool {
    match command {
        CaptureCommand::AddImage | CaptureCommand::ReleaseFile => reply is Done,
        _ => reply is Success,
    }
}

/// A capture under way.
#[allow(inconsistent_fields)]
#[derive(Debug, PartialEq, Eq)]
pub enum Capture<'a> {
    Image { window: u32, path: &'a String, quality: ImageQuality },
    Url { path: &'a String },
    Begin { path: &'a String },
    Fill { path: &'a String },
    Write { path: &'a String },
    Release { path: &'a String, written: bool },
    Written,
    Failed(Fault<'a>),
}

/// The state after the state `state`, once `reply` came of its command. A reply that
/// does not belong to the command changes nothing.
pub open spec fn capture_next<'a>(state: Capture<'a>, reply: CaptureReply) -> Capture<'a> {
    match (state, reply) {
        (Capture::Image { window, path, quality }, CaptureReply::Success(taken)) => if taken {
            Capture::Url { path }
        } else if quality is BestUnframed {
            Capture::Image { window, path, quality: ImageQuality::Default }
        } else {
            Capture::Failed(Fault::NoImage(window))
        },
        (Capture::Url { path }, CaptureReply::Success(made)) => if made {
            Capture::Begin { path }
        } else {
            Capture::Failed(Fault::BadPath(path))
        },
        (Capture::Begin { path }, CaptureReply::Success(begun)) => if begun {
            Capture::Fill { path }
        } else {
            Capture::Failed(Fault::NoDestination(path))
        },
        (Capture::Fill { path }, CaptureReply::Done) => Capture::Write { path },
        (Capture::Write { path }, CaptureReply::Success(written)) => Capture::Release {
            path,
            written,
        },
        (Capture::Release { path, written }, CaptureReply::Done) => if written {
            Capture::Written
        } else {
            Capture::Failed(Fault::NotWritten(path))
        },
        _ => state,
    }
}

impl<'a> Capture<'a> {
    /// Whether the capture is over.
    pub open spec fn is_over(self) -> bool {
        self is Written || self is Failed
    }

    /// What the host is to do, if the capture is not over.
    pub open spec fn awaited(&self) -> Option<CaptureCommand<'_>> {
        match self {
            Capture::Image { window, quality, .. } => Some(
                CaptureCommand::TakeImage { window: *window, quality: *quality },
            ),
            Capture::Url { path } => Some(CaptureCommand::MakeUrl(path)),
            Capture::Begin { .. } => Some(CaptureCommand::BeginFile),
            Capture::Fill { .. } => Some(CaptureCommand::AddImage),
            Capture::Write { .. } => Some(CaptureCommand::WriteFile),
            Capture::Release { .. } => Some(CaptureCommand::ReleaseFile),
            Capture::Written => None,
            Capture::Failed(_) => None,
        }
    }

    /// Whether the reply is one to the command awaited.
    pub open spec fn accepts(self, reply: CaptureReply) -> bool {
        match self {
            Capture::Image { .. } => reply is Success,
            Capture::Url { .. } => reply is Success,
            Capture::Begin { .. } => reply is Success,
            Capture::Fill { .. } => reply is Done,
            Capture::Write { .. } => reply is Success,
            Capture::Release { .. } => reply is Done,
            Capture::Written => false,
            Capture::Failed(_) => false,
        }
    }

    /// Begins to capture a window, at the best quality.
    pub fn start(window: u32, path: &'a String) -> (r: Self)
        ensures
            r == (Capture::Image { window, path, quality: ImageQuality::BestUnframed }),
    {
        Capture::Image { window, path, quality: ImageQuality::BestUnframed }
    }

    /// What the host is to do, if the capture is not over.
    pub fn command(&self) -> (r: Option<CaptureCommand<'_>>)
        ensures
            r == self.awaited(),
    {
        match self {
            Capture::Image { window, quality, .. } => Some(
                CaptureCommand::TakeImage { window: *window, quality: *quality },
            ),
            Capture::Url { path } => Some(CaptureCommand::MakeUrl(path)),
            Capture::Begin { .. } => Some(CaptureCommand::BeginFile),
            Capture::Fill { .. } => Some(CaptureCommand::AddImage),
            Capture::Write { .. } => Some(CaptureCommand::WriteFile),
            Capture::Release { .. } => Some(CaptureCommand::ReleaseFile),
            Capture::Written => None,
            Capture::Failed(_) => None,
        }
    }

    /// Goes on once `reply` came of the command.
    pub fn step(self, reply: CaptureReply) -> (r: Self)
        requires
            self.accepts(reply),
        ensures
            r == capture_next(self, reply),
    {
        match (self, reply) {
            (Capture::Image { window, path, quality }, CaptureReply::Success(taken)) => {
                if taken {
                    return Capture::Url { path };
                }
                match quality {
                    ImageQuality::BestUnframed => Capture::Image {
                        window,
                        path,
                        quality: ImageQuality::Default,
                    },
                    ImageQuality::Default => Capture::Failed(Fault::NoImage(window)),
                }
            },
            (Capture::Url { path }, CaptureReply::Success(made)) => if made {
                Capture::Begin { path }
            } else {
                Capture::Failed(Fault::BadPath(path))
            },
            (Capture::Begin { path }, CaptureReply::Success(begun)) => if begun {
                Capture::Fill { path }
            } else {
                Capture::Failed(Fault::NoDestination(path))
            },
            (Capture::Fill { path }, CaptureReply::Done) => Capture::Write { path },
            (Capture::Write { path }, CaptureReply::Success(written)) => Capture::Release {
                path,
                written,
            },
            (Capture::Release { path, written }, CaptureReply::Done) => if written {
                Capture::Written
            } else {
                Capture::Failed(Fault::NotWritten(path))
            },
            (state, _) => state,
        }
    }

    /// What came of a capture that is over.
    pub fn finish(self) -> (r: Result<(), Error>)
        requires
            self.is_over(),
        ensures
            match self {
                Capture::Written => r is Ok,
                Capture::Failed(fault) => is_report(r, fault),
                _ => false,
            },
    {
        match self {
            Capture::Written => Ok(()),
            Capture::Failed(fault) => Err(fault.report()),
            _ => vstd::pervasive::unreached(),
        }
    }
}

/// A capture takes the replies that answer its command, and no others.
pub proof fn captures_take_answers<'a>(state: Capture<'a>, reply: CaptureReply)
    ensures
        state.accepts(reply) <==> !state.is_over() && answers_capture(state.awaited()->0, reply),
{
}

/// How many stages are left, at most.
pub open spec fn capture_stages_left<'a>(state: Capture<'a>) -> nat {
    match state {
        Capture::Image { quality, .. } => if quality is BestUnframed {
            7
        } else {
            6
        },
        Capture::Url { .. } => 5,
        Capture::Begin { .. } => 4,
        Capture::Fill { .. } => 3,
        Capture::Write { .. } => 2,
        Capture::Release { .. } => 1,
        Capture::Written => 0,
        Capture::Failed(_) => 0,
    }
}

/// Every capture comes to an end.
pub proof fn every_capture_reply_advances<'a>(state: Capture<'a>, reply: CaptureReply)
    requires
        state.accepts(reply),
    ensures
        capture_stages_left(capture_next(state, reply)) < capture_stages_left(state),
{
}

/// Whether a file has been begun and not been let go of.
pub open spec fn holds_file<'a>(state: Capture<'a>) -> bool {
    state is Fill || state is Write || state is Release
}

/// A file that was begun is let go of, and only such a one: a capture comes to hold a
/// file by beginning it, gives it up by letting go of it and in no other way, and is
/// over without one.
pub proof fn files_are_released<'a>(state: Capture<'a>, reply: CaptureReply)
    requires
        state.accepts(reply),
    ensures
        !holds_file(state) && holds_file(capture_next(state, reply)) <==> state.awaited() == Some(
            CaptureCommand::BeginFile,
        ) && reply == CaptureReply::Success(true),
        holds_file(state) && !holds_file(capture_next(state, reply)) <==> state.awaited() == Some(
            CaptureCommand::ReleaseFile,
        ),
        state.is_over() ==> !holds_file(state),
{
}

/// Where the best image cannot be had, the plain one is tried, and only then is the
/// window given up.
pub proof fn a_plain_image_is_tried_second<'a>(window: u32, path: &'a String)
    ensures
        ({
            let start = Capture::Image { window, path, quality: ImageQuality::BestUnframed };
            let second = capture_next(start, CaptureReply::Success(false));
            &&& second.awaited() == Some(
                CaptureCommand::TakeImage { window, quality: ImageQuality::Default },
            )
            &&& capture_next(second, CaptureReply::Success(true)) == capture_next(
                start,
                CaptureReply::Success(true),
            )
            &&& capture_next(second, CaptureReply::Success(false)) == Capture::<'a>::Failed(
                Fault::NoImage(window),
            )
        }),
{
}

/// What writing an image of a window asks of the host, and what it comes to: the image is
/// taken, the URL made of the path, the file begun, the image put into it, the file
/// written and let go of. Each step that fails ends the capture with its own fault, the
/// writing only after the file was let go of.
pub proof fn course_of_a_capture<'a>(window: u32, path: &'a String)
    ensures
        ({
            let yes = CaptureReply::Success(true);
            let no = CaptureReply::Success(false);
            let start = Capture::Image { window, path, quality: ImageQuality::BestUnframed };
            let taken = capture_next(start, yes);
            let made = capture_next(taken, yes);
            let begun = capture_next(made, yes);
            let filled = capture_next(begun, CaptureReply::Done);
            let written = capture_next(filled, yes);
            let unwritten = capture_next(filled, no);
            &&& start.awaited() == Some(
                CaptureCommand::TakeImage { window, quality: ImageQuality::BestUnframed },
            )
            &&& taken.awaited() == Some(CaptureCommand::MakeUrl(path))
            &&& made.awaited() == Some(CaptureCommand::<'a>::BeginFile)
            &&& begun.awaited() == Some(CaptureCommand::<'a>::AddImage)
            &&& filled.awaited() == Some(CaptureCommand::<'a>::WriteFile)
            &&& written.awaited() == Some(CaptureCommand::<'a>::ReleaseFile)
            &&& unwritten.awaited() == Some(CaptureCommand::<'a>::ReleaseFile)
            &&& capture_next(written, CaptureReply::Done) == Capture::<'a>::Written
            &&& capture_next(taken, no) == Capture::<'a>::Failed(Fault::BadPath(path))
            &&& capture_next(made, no) == Capture::<'a>::Failed(Fault::NoDestination(path))
            &&& capture_next(unwritten, CaptureReply::Done) == Capture::<'a>::Failed(
                Fault::NotWritten(path),
            )
        }),
{
}

} // verus!
