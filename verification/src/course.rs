//! What holds of actions from beginning to end, whatever the host replies.

use vstd::prelude::*;
use vstd::utf8::encode_utf8;

use crate::action::{
    optional_ref, Action, ActionResultView, MouseButton, ProgramEnd, ScrollDirection, Selector,
};
use crate::error::Error;
use crate::fault::Fault;
use crate::node::{best_scroll_point, center_of, has_place, is_framed, AccessibilityNode, Point};
use crate::perform::{
    answers, begin, next, run, Achieved, Command, Job, Key, Perform, Reply, Root, SCROLL_DEPTH,
};
use crate::node::places_are_known_with_position_and_size;
use crate::pid::pid_target;
use crate::text::decimal;

verus! {

/// Whether each reply belongs to the command that is awaited when it comes.
pub open spec fn follows<'a>(state: Perform<'a>, replies: Seq<Reply>) -> bool
    decreases replies.len(),
{
    replies.len() == 0 || (state.accepts(replies[0]) && follows(
        next(state, replies[0]),
        replies.skip(1),
    ))
}

/// The state that the replies lead to.
pub open spec fn after<'a>(state: Perform<'a>, replies: Seq<Reply>) -> Perform<'a>
    decreases replies.len(),
{
    if replies.len() == 0 {
        state
    } else {
        after(next(state, replies[0]), replies.skip(1))
    }
}

/// The commands that the replies came of, in order.
pub open spec fn issued<'a>(state: Perform<'a>, replies: Seq<Reply>) -> Seq<Command<'a>>
    decreases replies.len(),
{
    if replies.len() == 0 {
        Seq::empty()
    } else {
        seq![state.awaited()->0] + issued(next(state, replies[0]), replies.skip(1))
    }
}

proof fn one_reply<'a>(state: Perform<'a>, replies: Seq<Reply>)
    requires
        replies.len() == 1,
        state.accepts(replies[0]),
    ensures
        follows(state, replies),
        after(state, replies) == next(state, replies[0]),
        issued(state, replies) == seq![state.awaited()->0],
{
    let then = next(state, replies[0]);
    let rest = replies.skip(1);
    assert(rest.len() == 0);
    assert(follows(then, rest));
    assert(after(then, rest) == then);
    assert(issued(then, rest) == Seq::<Command<'a>>::empty());
    assert(issued(state, replies) =~= seq![state.awaited()->0]);
}

/// The error that a reply reports.
pub open spec fn error_in(reply: Reply) -> Option<Error> {
    match reply {
        Reply::Done(Err(e)) => Some(e),
        Reply::Pid(Err(e)) => Some(e),
        Reply::One(Err(e)) => Some(e),
        Reply::Windows(Err(e)) => Some(e),
        _ => None,
    }
}

/// Whether there is another window to try when this one cannot be captured.
pub open spec fn has_another_window<'a>(state: Perform<'a>) -> bool {
    match state {
        Perform::ShotWindow { windows, at, .. } => at + 1 < windows@.len(),
        _ => false,
    }
}

/// An error that the host reports ends the action, which fails with that very error.
/// Only a window that cannot be captured is passed over, as long as there is another.
pub proof fn an_error_ends_the_action<'a>(state: Perform<'a>, reply: Reply)
    requires
        state.accepts(reply),
        error_in(reply) is Some,
        !has_another_window(state),
    ensures
        next(state, reply) == Perform::<'a>::Failed(Fault::Raised(error_in(reply)->0)),
{
}

/// How many stages are left, at most.
pub open spec fn stages_left<'a>(state: Perform<'a>) -> nat {
    match state {
        Perform::TypePid { .. } => 5,
        Perform::TypeFind { .. } => 4,
        Perform::TypeDescribe { .. } => 3,
        Perform::TypeRelease { .. } => 2,
        Perform::FocusPid { .. } => 4,
        Perform::FocusFind { .. } => 3,
        Perform::FocusSet => 2,
        Perform::FocusRelease { .. } => 1,
        Perform::ClickFind { .. } => 3,
        Perform::ClickPid { .. } => 2,
        Perform::ScrollPid { .. } => 3,
        Perform::ScrollLook { .. } => 2,
        Perform::MoveFind { .. } => 2,
        Perform::ShotWindows { .. } => 2,
        Perform::ShotWindow { .. } => 1,
        Perform::ShotScreen { .. } => 1,
        Perform::Running { .. } => 1,
        Perform::Succeeded(_) => 0,
        Perform::Failed(_) => 0,
    }
}

/// How many commands are left of the present stage.
pub open spec fn commands_left<'a>(state: Perform<'a>) -> int {
    match state {
        Perform::Running { job, at } => job.commands().len() - at,
        Perform::ShotWindow { windows, at, .. } => windows@.len() - at,
        Perform::Succeeded(_) => 0,
        Perform::Failed(_) => 0,
        _ => 1,
    }
}

/// Every action comes to an end: each reply brings it to a later stage, or one
/// command further in the same stage.
pub proof fn every_reply_advances<'a>(state: Perform<'a>, reply: Reply)
    requires
        state.is_valid(),
        state.accepts(reply),
    ensures
        stages_left(next(state, reply)) < stages_left(state) || (stages_left(next(state, reply))
            == stages_left(state) && 0 < commands_left(next(state, reply)) < commands_left(state)),
{
    match state {
        Perform::Running { job, .. } => {
            jobs_are_short(job);
        },
        Perform::ShotWindow { windows, .. } => {
            assert(windows.len() == windows@.len());
        },
        _ => {},
    }
}

proof fn jobs_are_only_done<'a>(job: Job<'a>, at: int, reply: Reply)
    requires
        0 <= at < job.commands().len(),
    ensures
        answers(job.commands()[at], reply) <==> reply is Done,
{
}

/// An action takes the replies that answer its command, and no others.
pub proof fn actions_take_answers<'a>(state: Perform<'a>, reply: Reply)
    requires
        state.is_valid(),
    ensures
        state.accepts(reply) <==> !state.is_over() && answers(state.awaited()->0, reply),
{
    if let Perform::Running { job, at } = state {
        jobs_are_only_done(job, at as int, reply);
    }
}

/// An action awaits a command exactly as long as it is not over.
pub proof fn awaits_until_over<'a>(state: Perform<'a>)
    ensures
        state.awaited() is None <==> state.is_over(),
        stages_left(state) == 0 <==> state.is_over(),
{
}

/// Whether an element is being held.
pub open spec fn holds_element<'a>(state: Perform<'a>) -> bool {
    state is TypeDescribe || state is TypeRelease || state is FocusSet || state is FocusRelease
}

/// How many of the replies say that an element was found to hold.
pub open spec fn elements_found(replies: Seq<Reply>) -> nat
    decreases replies.len(),
{
    if replies.len() == 0 {
        0
    } else {
        (if replies[0] == Reply::Found(true) {
            1nat
        } else {
            0nat
        }) + elements_found(replies.skip(1))
    }
}

/// How many of the commands let go of an element.
pub open spec fn elements_released<'a>(commands: Seq<Command<'a>>) -> nat
    decreases commands.len(),
{
    if commands.len() == 0 {
        0
    } else {
        (if commands[0] is ReleaseElement {
            1nat
        } else {
            0nat
        }) + elements_released(commands.skip(1))
    }
}

proof fn jobs_hold_no_element<'a>(job: Job<'a>, at: int)
    requires
        0 <= at < job.commands().len(),
    ensures
        !(job.commands()[at] is ReleaseElement),
{
}

proof fn found_and_released_balance<'a>(state: Perform<'a>, replies: Seq<Reply>)
    requires
        state.is_valid(),
        follows(state, replies),
    ensures
        elements_found(replies) + (if holds_element(state) {
            1int
        } else {
            0int
        }) == elements_released(issued(state, replies)) + (if holds_element(after(state, replies)) {
            1int
        } else {
            0int
        }),
    decreases replies.len(),
{
    if replies.len() > 0 {
        let reply = replies[0];
        let rest = replies.skip(1);
        let then = next(state, reply);
        valid_stays_valid(state, reply);
        found_and_released_balance(then, rest);
        let all = issued(state, replies);
        assert(all.skip(1) =~= issued(then, rest));
        assert(all[0] == state.awaited()->0);
        if let Perform::Running { job, at } = state {
            jobs_hold_no_element(job, at as int);
        }
    }
}

proof fn valid_stays_valid<'a>(state: Perform<'a>, reply: Reply)
    requires
        state.is_valid(),
        state.accepts(reply),
    ensures
        next(state, reply).is_valid(),
{
}

/// Every element that was found is let go of exactly once, however the action ends.
pub proof fn elements_are_released<'a>(
    action: &'a Action,
    scratch: &'a String,
    replies: Seq<Reply>,
)
    requires
        follows(begin(action, scratch), replies),
        after(begin(action, scratch), replies).is_over(),
    ensures
        elements_found(replies) == elements_released(issued(begin(action, scratch), replies)),
{
    assert(begin(action, scratch).is_valid());
    found_and_released_balance(begin(action, scratch), replies);
}

/// So many replies that a command was carried out.
pub open spec fn all_done(n: nat) -> Seq<Reply> {
    Seq::new(n, |i: int| Reply::Done(Ok(())))
}

proof fn job_goes_on<'a>(job: Job<'a>, at: usize, replies: Seq<Reply>)
    requires
        at < job.commands().len(),
        job.commands().len() <= usize::MAX,
        replies == all_done((job.commands().len() - at) as nat),
    ensures
        follows(Perform::Running { job, at }, replies),
        issued(Perform::Running { job, at }, replies) == job.commands().skip(at as int),
        after(Perform::Running { job, at }, replies) == Perform::<'a>::Succeeded(
            Achieved::Job(job),
        ),
    decreases job.commands().len() - at,
{
    let state = Perform::Running { job, at };
    let rest = replies.skip(1);
    assert(replies[0] == Reply::Done(Ok(())));
    assert(rest =~= all_done((job.commands().len() - at - 1) as nat));
    if at + 1 < job.commands().len() {
        job_goes_on(job, (at + 1) as usize, rest);
        assert(job.commands().skip(at as int) =~= seq![job.commands()[at as int]]
            + job.commands().skip(at + 1));
    } else {
        one_reply(state, replies);
        assert(job.commands().skip(at as int) =~= seq![job.commands()[at as int]]);
    }
}

proof fn jobs_are_short<'a>(job: Job<'a>)
    ensures
        0 < job.commands().len() <= 10,
{
}

/// A job succeeds by carrying out its commands, all of them and in order.
pub proof fn a_job_carries_out_its_commands<'a>(job: Job<'a>)
    ensures
        follows(run(job), all_done(job.commands().len())),
        issued(run(job), all_done(job.commands().len())) == job.commands(),
        after(run(job), all_done(job.commands().len())) == Perform::<'a>::Succeeded(
            Achieved::Job(job),
        ),
{
    jobs_are_short(job);
    job_goes_on(job, 0, all_done(job.commands().len()));
    assert(job.commands().skip(0) =~= job.commands());
}

/// A job ends with the first of its commands that fails: what was done before is
/// done, nothing after it is, and the action fails with that error.
pub proof fn a_failed_command_ends_the_job<'a>(job: Job<'a>, k: nat, e: Error)
    requires
        k < job.commands().len(),
    ensures
        ({
            let replies = all_done(k).push(Reply::Done(Err(e)));
            &&& follows(run(job), replies)
            &&& issued(run(job), replies) == job.commands().take(k as int + 1)
            &&& after(run(job), replies) == Perform::<'a>::Failed(Fault::Raised(e))
        }),
{
    jobs_are_short(job);
    job_fails_later(job, 0, k, e);
    assert(job.commands().subrange(0, k as int + 1) =~= job.commands().take(k as int + 1));
}

proof fn job_fails_later<'a>(job: Job<'a>, at: usize, k: nat, e: Error)
    requires
        at + k < job.commands().len() <= 10,
    ensures
        ({
            let replies = all_done(k).push(Reply::Done(Err(e)));
            let state = Perform::Running { job, at };
            &&& follows(state, replies)
            &&& issued(state, replies) == job.commands().subrange(at as int, at + k + 1)
            &&& after(state, replies) == Perform::<'a>::Failed(Fault::Raised(e))
        }),
    decreases k,
{
    let replies = all_done(k).push(Reply::Done(Err(e)));
    let state = Perform::Running { job, at };
    let rest = replies.skip(1);
    let commands = job.commands();
    if k == 0 {
        assert(replies[0] == Reply::Done(Err(e)));
        one_reply(state, replies);
        assert(commands.subrange(at as int, at + 1) =~= seq![commands[at as int]]);
    } else {
        assert(replies[0] == Reply::Done(Ok(())));
        assert(rest =~= all_done((k - 1) as nat).push(Reply::Done(Err(e))));
        job_fails_later(job, (at + 1) as usize, (k - 1) as nat, e);
        assert(commands.subrange(at as int, at + k + 1) =~= seq![commands[at as int]]
            + commands.subrange(at + 1, at + k + 1));
    }
}

proof fn goes_on<'a>(state: Perform<'a>, a: Seq<Reply>, b: Seq<Reply>)
    requires
        follows(state, a),
        follows(after(state, a), b),
    ensures
        follows(state, a + b),
        issued(state, a + b) == issued(state, a) + issued(after(state, a), b),
        after(state, a + b) == after(after(state, a), b),
    decreases a.len(),
{
    if a.len() == 0 {
        assert(a + b =~= b);
        assert(issued(state, a) + issued(state, b) =~= issued(state, b));
    } else {
        let then = next(state, a[0]);
        goes_on(then, a.skip(1), b);
        assert((a + b).skip(1) =~= a.skip(1) + b);
        assert((a + b)[0] == a[0]);
        assert(issued(state, a + b) =~= issued(state, a) + issued(after(state, a), b));
    }
}

/// An action that gets to a job with some replies succeeds with what the job does.
proof fn job_follows<'a>(state: Perform<'a>, replies: Seq<Reply>, job: Job<'a>)
    requires
        follows(state, replies),
        after(state, replies) == run(job),
    ensures
        ({
            let all = replies + all_done(job.commands().len());
            &&& follows(state, all)
            &&& issued(state, all) == issued(state, replies) + job.commands()
            &&& after(state, all) == Perform::<'a>::Succeeded(Achieved::Job(job))
        }),
{
    a_job_carries_out_its_commands(job);
    goes_on(state, replies, all_done(job.commands().len()));
}

/// The process found for the application that a selector names, if it names one.
pub open spec fn process_in(selector: Selector, pid: i32) -> Option<i32> {
    if selector.app is Some {
        Some(pid)
    } else {
        None
    }
}

/// Where a selector looks, once the process was found for the application it names.
pub open spec fn root_of(selector: Selector, pid: i32) -> Root {
    if selector.app is Some {
        Root::Application(pid)
    } else {
        Root::System
    }
}

/// Finding the process of the application that a selector names, if it names one.
pub open spec fn process_lookup<'a>(selector: &'a Selector) -> Seq<Command<'a>> {
    match &selector.app {
        Some(app) => seq![Command::FindPid(app)],
        None => Seq::empty(),
    }
}

/// The reply to that lookup, if there is one.
pub open spec fn process_found(selector: Selector, pid: i32) -> Seq<Reply> {
    if selector.app is Some {
        seq![Reply::Pid(Ok(pid))]
    } else {
        Seq::empty()
    }
}

/// Clicking an element: it is found, then the process where the selector names an
/// application, and then its centre is clicked, in that process or wherever it is.
pub proof fn course_of_a_click<'a>(
    action: &'a Action,
    scratch: &'a String,
    node: AccessibilityNode,
    pid: i32,
)
    requires
        action is Click,
        action->Click_coordinates is None,
        action->Click_selector is Some,
        center_of(node) is Some,
    ensures
        ({
            let selector = action->Click_selector->0;
            let job = Job::Click {
                point: center_of(node)->0,
                button: action->button,
                count: action->count,
                pid: process_in(selector, pid),
            };
            let replies = seq![Reply::One(Ok(node))] + process_found(selector, pid) + all_done(
                job.commands().len(),
            );
            let start = begin(action, scratch);
            &&& follows(start, replies)
            &&& issued(start, replies) == seq![Command::FindOne(&selector)] + process_lookup(
                &selector,
            ) + job.commands()
            &&& after(start, replies) == Perform::<'a>::Succeeded(Achieved::Job(job))
        }),
{
    let selector = action->Click_selector->0;
    let job = Job::Click {
        point: center_of(node)->0,
        button: action->button,
        count: action->count,
        pid: process_in(selector, pid),
    };
    let start = begin(action, scratch);
    let first = seq![Reply::One(Ok(node))];
    let replies = first + process_found(selector, pid);
    if selector.app is Some {
        assert(replies =~= seq![Reply::One(Ok(node)), Reply::Pid(Ok(pid))]);
        two_replies(start, replies);
    } else {
        assert(replies =~= first);
        one_reply(start, replies);
    }
    assert(issued(start, replies) =~= seq![Command::FindOne(&selector)] + process_lookup(
        &selector,
    ));
    job_follows(start, replies, job);
}

proof fn two_replies<'a>(state: Perform<'a>, replies: Seq<Reply>)
    requires
        replies.len() == 2,
        state.accepts(replies[0]),
        next(state, replies[0]).accepts(replies[1]),
    ensures
        follows(state, replies),
        after(state, replies) == next(next(state, replies[0]), replies[1]),
        issued(state, replies) == seq![
            state.awaited()->0,
            next(state, replies[0]).awaited()->0,
        ],
{
    reveal_with_fuel(follows, 3);
    reveal_with_fuel(after, 3);
    reveal_with_fuel(issued, 3);
    assert(replies.skip(1)[0] == replies[1]);
    assert(replies.skip(1).skip(1).len() == 0);
    assert(issued(state, replies) =~= seq![
        state.awaited()->0,
        next(state, replies[0]).awaited()->0,
    ]);
}

/// The process of the application that a selector names is looked for first, if it
/// names one; then the element is looked for there, or in the whole system.
proof fn process_is_found_first<'a>(action: &'a Action, scratch: &'a String, pid: i32)
    requires
        (action is Type && action->Type_selector is Some) || action is Focus,
    ensures
        ({
            let selector = if action is Type {
                action->Type_selector->0
            } else {
                action->Focus_selector
            };
            let start = begin(action, scratch);
            let replies = process_found(selector, pid);
            &&& follows(start, replies)
            &&& issued(start, replies) == process_lookup(&selector)
            &&& after(start, replies) == (if action is Type {
                Perform::TypeFind {
                    root: root_of(selector, pid),
                    selector: &selector,
                    text: &action->text,
                    submit: action->submit,
                }
            } else {
                Perform::FocusFind { root: root_of(selector, pid), selector: &selector }
            })
        }),
{
    let selector = if action is Type {
        action->Type_selector->0
    } else {
        action->Focus_selector
    };
    if selector.app is Some {
        one_reply(begin(action, scratch), process_found(selector, pid));
    }
}

/// Typing into an element: it is found, in the application that the selector names or
/// anywhere, placed and let go of; then that application comes to the front, where one
/// is named, the element is clicked, what it held is selected and deleted, and the text
/// is typed and, where asked for, submitted.
pub proof fn course_of_typing<'a>(
    action: &'a Action,
    scratch: &'a String,
    node: AccessibilityNode,
    pid: i32,
)
    requires
        action is Type,
        action->Type_selector is Some,
        center_of(node) is Some,
    ensures
        ({
            let selector = action->Type_selector->0;
            let job = Job::Fill {
                app: optional_ref(&selector.app),
                point: center_of(node)->0,
                text: &action->text,
                submit: action->submit,
            };
            let replies = process_found(selector, pid) + seq![
                Reply::Found(true),
                Reply::Described(node),
                Reply::Done(Ok(())),
            ] + all_done(job.commands().len());
            let start = begin(action, scratch);
            &&& follows(start, replies)
            &&& issued(start, replies) == process_lookup(&selector) + seq![
                Command::FindElement(root_of(selector, pid), &selector),
                Command::DescribeElement,
                Command::ReleaseElement,
            ] + job.commands()
            &&& after(start, replies) == Perform::<'a>::Succeeded(Achieved::Job(job))
            &&& selector.app is Some ==> job.commands()[0] == Command::Activate(&selector.app->0)
            &&& forall|i: int|
                0 <= i < job.commands().len() && (selector.app is None || i > 0) ==> !((
                #[trigger] job.commands()[i]) is Activate)
        }),
{
    let selector = action->Type_selector->0;
    let job = Job::Fill {
        app: optional_ref(&selector.app),
        point: center_of(node)->0,
        text: &action->text,
        submit: action->submit,
    };
    let start = begin(action, scratch);
    let first = process_found(selector, pid);
    let found = seq![Reply::Found(true), Reply::Described(node)];
    let released = seq![Reply::Done(Ok(()))];
    process_is_found_first(action, scratch, pid);
    two_replies(after(start, first), found);
    goes_on(start, first, found);
    one_reply(after(start, first + found), released);
    goes_on(start, first + found, released);
    let replies = first + found + released;
    job_follows(start, replies, job);
    assert(replies =~= first + seq![
        Reply::Found(true),
        Reply::Described(node),
        Reply::Done(Ok(())),
    ]);
    assert(issued(start, replies) =~= process_lookup(&selector) + seq![
        Command::FindElement(root_of(selector, pid), &selector),
        Command::DescribeElement,
        Command::ReleaseElement,
    ]);
}

/// Scrolling in an application without saying where: its tree is described, eight
/// levels deep, and the place to scroll at is the best one of that tree.
pub proof fn course_of_scrolling<'a>(
    action: &'a Action,
    scratch: &'a String,
    tree: AccessibilityNode,
    pid: i32,
)
    requires
        action is Scroll,
        action->Scroll_selector is None,
        action->Scroll_app is Some,
    ensures
        ({
            let app = action->Scroll_app->0;
            let job = Job::ScrollIn {
                app: &app,
                pid,
                point: best_scroll_point(tree),
                direction: action->direction,
                amount: action->amount,
            };
            let replies = seq![Reply::Pid(Ok(pid)), Reply::Described(tree)] + all_done(
                job.commands().len(),
            );
            let start = begin(action, scratch);
            &&& follows(start, replies)
            &&& issued(start, replies) == seq![
                Command::FindPid(&app),
                Command::DescribeApp(pid, SCROLL_DEPTH),
            ] + job.commands()
            &&& after(start, replies) == Perform::<'a>::Succeeded(Achieved::Job(job))
        }),
{
    let app = action->Scroll_app->0;
    let job = Job::ScrollIn {
        app: &app,
        pid,
        point: best_scroll_point(tree),
        direction: action->direction,
        amount: action->amount,
    };
    let start = begin(action, scratch);
    let replies = seq![Reply::Pid(Ok(pid)), Reply::Described(tree)];
    two_replies(start, replies);
    job_follows(start, replies, job);
}

/// Scrolling in an application at an element: of all the elements that match, the
/// first one's centre is the place to scroll at. Where none matches, or its place is
/// not known, the mouse stays where it is.
pub proof fn course_of_scrolling_at_an_element<'a>(
    action: &'a Action,
    scratch: &'a String,
    nodes: Vec<AccessibilityNode>,
    pid: i32,
)
    requires
        action is Scroll,
        action->Scroll_selector is Some,
        action->Scroll_app is Some,
    ensures
        ({
            let app = action->Scroll_app->0;
            let job = Job::ScrollIn {
                app: &app,
                pid,
                point: if nodes@.len() > 0 {
                    center_of(nodes@[0])
                } else {
                    None
                },
                direction: action->direction,
                amount: action->amount,
            };
            let replies = seq![Reply::Pid(Ok(pid)), Reply::All(nodes)] + all_done(
                job.commands().len(),
            );
            let start = begin(action, scratch);
            &&& follows(start, replies)
            &&& issued(start, replies) == seq![
                Command::FindPid(&app),
                Command::FindAll(pid, &action->Scroll_selector->0),
            ] + job.commands()
            &&& after(start, replies) == Perform::<'a>::Succeeded(Achieved::Job(job))
        }),
{
    let app = action->Scroll_app->0;
    let job = Job::ScrollIn {
        app: &app,
        pid,
        point: if nodes@.len() > 0 {
            center_of(nodes@[0])
        } else {
            None
        },
        direction: action->direction,
        amount: action->amount,
    };
    let start = begin(action, scratch);
    let replies = seq![Reply::Pid(Ok(pid)), Reply::All(nodes)];
    two_replies(start, replies);
    job_follows(start, replies, job);
}

/// A screenshot goes to the path given or else to the scratch path: of an application
/// by way of its windows, beginning with the first, and otherwise of the screen.
pub proof fn course_of_a_screenshot<'a>(
    action: &'a Action,
    scratch: &'a String,
    windows: Vec<u32>,
)
    requires
        action is Screenshot,
        windows@.len() > 0,
    ensures
        ({
            let path = match action->Screenshot_path {
                Some(path) => path,
                None => *scratch,
            };
            let start = begin(action, scratch);
            match action->Screenshot_app {
                Some(app) => {
                    &&& start.awaited() == Some(Command::FindWindows(&app))
                    &&& next(start, Reply::Windows(Ok(windows))) == (Perform::ShotWindow {
                        windows,
                        at: 0,
                        path: &path,
                    })
                },
                None => start.awaited() == Some(Command::CaptureScreen { path: &path }),
            }
        }),
{
}

/// So many replies that a window could not be captured, with these errors.
pub open spec fn all_failed(errors: Seq<Error>) -> Seq<Reply> {
    errors.map_values(|e: Error| Reply::Done(Err(e)))
}

/// The commands to capture some windows to a path.
pub open spec fn captures<'a>(windows: Seq<u32>, path: &'a String) -> Seq<Command<'a>> {
    windows.map_values(|w: u32| Command::CaptureWindow { window: w, path })
}

/// The windows of an application are tried in their order up to the first that can
/// be captured, and no further.
pub proof fn windows_are_tried_in_order<'a>(
    windows: Vec<u32>,
    at: usize,
    path: &'a String,
    errors: Seq<Error>,
)
    requires
        at + errors.len() < windows@.len(),
    ensures
        ({
            let start = Perform::ShotWindow { windows, at, path };
            let replies = all_failed(errors).push(Reply::Done(Ok(())));
            &&& follows(start, replies)
            &&& issued(start, replies) == captures(
                windows@.subrange(at as int, at + errors.len() + 1),
                path,
            )
            &&& after(start, replies) == Perform::Succeeded(Achieved::Screenshot(path))
        }),
    decreases errors.len(),
{
    let start = Perform::ShotWindow { windows, at, path };
    let replies = all_failed(errors).push(Reply::Done(Ok(())));
    let rest = replies.skip(1);
    assert(windows.len() == windows@.len());
    let tried = windows@.subrange(at as int, at + errors.len() + 1);
    if errors.len() == 0 {
        assert(replies[0] == Reply::Done(Ok(())));
        one_reply(start, replies);
        assert(issued(start, replies) =~= captures(tried, path));
    } else {
        assert(replies[0] == Reply::Done(Err(errors[0])));
        assert(rest =~= all_failed(errors.skip(1)).push(Reply::Done(Ok(()))));
        windows_are_tried_in_order(windows, (at + 1) as usize, path, errors.skip(1));
        assert(tried.skip(1) =~= windows@.subrange(at + 1, at + errors.len() + 1));
        assert(issued(start, replies) =~= captures(tried, path));
    }
}

/// Where no window of an application can be captured, all were tried, and the action
/// fails with the error of the last.
pub proof fn the_last_error_is_reported<'a>(
    windows: Vec<u32>,
    at: usize,
    path: &'a String,
    errors: Seq<Error>,
)
    requires
        errors.len() > 0,
        at + errors.len() == windows@.len(),
    ensures
        ({
            let start = Perform::ShotWindow { windows, at, path };
            &&& follows(start, all_failed(errors))
            &&& issued(start, all_failed(errors)) == captures(windows@.skip(at as int), path)
            &&& after(start, all_failed(errors)) == Perform::<'a>::Failed(
                Fault::Raised(errors.last()),
            )
        }),
    decreases errors.len(),
{
    let start = Perform::ShotWindow { windows, at, path };
    let replies = all_failed(errors);
    let rest = replies.skip(1);
    assert(windows.len() == windows@.len());
    assert(replies[0] == Reply::Done(Err(errors[0])));
    assert(rest =~= all_failed(errors.skip(1)));
    let tried = windows@.skip(at as int);
    if errors.len() == 1 {
        one_reply(start, replies);
        assert(issued(start, replies) =~= captures(tried, path));
    } else {
        the_last_error_is_reported(windows, (at + 1) as usize, path, errors.skip(1));
        assert(tried.skip(1) =~= windows@.skip(at + 1));
        assert(errors.skip(1).last() == errors.last());
        assert(issued(start, replies) =~= captures(tried, path));
    }
}

/// Moving the mouse to an element: it is found, and the mouse moves to its centre.
pub proof fn course_of_moving<'a>(
    action: &'a Action,
    scratch: &'a String,
    node: AccessibilityNode,
)
    requires
        action is MoveMouse,
        action->MoveMouse_coordinates is None,
        action->MoveMouse_selector is Some,
        center_of(node) is Some,
    ensures
        ({
            let job = Job::Move { point: center_of(node)->0 };
            let replies = seq![Reply::One(Ok(node))] + all_done(job.commands().len());
            let start = begin(action, scratch);
            &&& follows(start, replies)
            &&& issued(start, replies) == seq![Command::FindOne(&action->MoveMouse_selector->0)]
                + job.commands()
            &&& after(start, replies) == Perform::<'a>::Succeeded(Achieved::Job(job))
        }),
{
    let job = Job::Move { point: center_of(node)->0 };
    let start = begin(action, scratch);
    let replies = seq![Reply::One(Ok(node))];
    one_reply(start, replies);
    job_follows(start, replies, job);
}

/// Giving the focus to an element: it is found, in the application that the selector
/// names or anywhere, the focus is given, the element is let go of, and the action
/// succeeds if the focus was taken.
pub proof fn course_of_focusing<'a>(
    action: &'a Action,
    scratch: &'a String,
    pid: i32,
    focused: bool,
)
    requires
        action is Focus,
    ensures
        ({
            let selector = action->Focus_selector;
            let replies = process_found(selector, pid) + seq![
                Reply::Found(true),
                Reply::Focused(focused),
                Reply::Done(Ok(())),
            ];
            let start = begin(action, scratch);
            &&& follows(start, replies)
            &&& issued(start, replies) == process_lookup(&selector) + seq![
                Command::FindElement(root_of(selector, pid), &selector),
                Command::FocusElement,
                Command::ReleaseElement,
            ]
            &&& after(start, replies) == (if focused {
                Perform::<'a>::Succeeded(Achieved::Focus)
            } else {
                Perform::<'a>::Failed(Fault::FocusRefused)
            })
        }),
{
    let selector = action->Focus_selector;
    let start = begin(action, scratch);
    let first = process_found(selector, pid);
    let found = seq![Reply::Found(true), Reply::Focused(focused)];
    let released = seq![Reply::Done(Ok(()))];
    process_is_found_first(action, scratch, pid);
    two_replies(after(start, first), found);
    goes_on(start, first, found);
    one_reply(after(start, first + found), released);
    goes_on(start, first + found, released);
    let replies = first + found + released;
    assert(replies =~= first + seq![
        Reply::Found(true),
        Reply::Focused(focused),
        Reply::Done(Ok(())),
    ]);
    assert(issued(start, replies) =~= process_lookup(&selector) + seq![
        Command::FindElement(root_of(selector, pid), &selector),
        Command::FocusElement,
        Command::ReleaseElement,
    ]);
}

/// An action that looks for nothing goes straight to its job: typing without a
/// selector, pressing a key, scrolling without an application, and dragging.
pub proof fn nothing_is_looked_for_without_need<'a>(action: &'a Action, scratch: &'a String)
    ensures
        match action {
            Action::Type { text, selector: None, submit } => begin(action, scratch) == run(
                Job::Type { text, submit: *submit },
            ),
            Action::KeyPress { key, app: None } => begin(action, scratch) == run(
                Job::Press { key },
            ),
            Action::KeyPress { key, app: Some(app) } => begin(action, scratch) == run(
                match pid_target(app@) {
                    Some(pid) => Job::PressAt { pid, key },
                    None => Job::PressIn { app, key },
                },
            ),
            Action::Scroll { direction, amount, app: None, .. } => begin(action, scratch) == run(
                Job::Scroll { direction: *direction, amount: *amount },
            ),
            Action::Drag { from, to } => begin(action, scratch) == run(Job::Drag { from, to }),
            _ => true,
        },
{
}

/// Coordinates go before the selector: a click at a place looks for no element, and
/// of the selector only the application counts. Nor does a move to a place.
pub proof fn coordinates_come_first<'a>(action: &'a Action, scratch: &'a String, point: Point)
    ensures
        action is Click && action->Click_coordinates == Some(point) ==> ({
            let start = begin(action, scratch);
            if action->Click_selector is Some && action->Click_selector->0.app is Some {
                start == (Perform::ClickPid {
                    app: &action->Click_selector->0.app->0,
                    point: Some(point),
                    button: action->button,
                    count: action->count,
                })
            } else {
                start == run(
                    Job::Click { point, button: action->button, count: action->count, pid: None },
                )
            }
        }),
        action is MoveMouse && action->MoveMouse_coordinates == Some(point) ==> begin(
            action,
            scratch,
        ) == run(Job::Move { point }),
{
}

/// A click or a move that says neither where nor at what is refused without doing
/// anything.
pub proof fn unspecified_places_are_refused<'a>(action: &'a Action, scratch: &'a String)
    ensures
        action is Click && action->Click_coordinates is None && action->Click_selector is None
            ==> begin(action, scratch) == Perform::<'a>::Failed(Fault::ClickUnspecified),
        action is MoveMouse && action->MoveMouse_coordinates is None
            && action->MoveMouse_selector is None ==> begin(action, scratch)
            == Perform::<'a>::Failed(Fault::MoveUnspecified),
{
}

/// An action on an element that is not found, or whose place is not known, fails.
pub proof fn missing_elements_stop_the_action<'a>(
    state: Perform<'a>,
    selector: &'a Selector,
    node: AccessibilityNode,
    pid: i32,
)
    ensures
        state is TypeFind && state->TypeFind_selector == selector ==> next(
            state,
            Reply::Found(false),
        ) == Perform::<'a>::Failed(Fault::NoElement(selector)),
        state is FocusFind && state->FocusFind_selector == selector ==> next(
            state,
            Reply::Found(false),
        ) == Perform::<'a>::Failed(Fault::NoElement(selector)),
        state is TypeRelease && state->TypeRelease_point is None ==> next(
            state,
            Reply::Done(Ok(())),
        ) == Perform::<'a>::Failed(Fault::TypeUnplaced),
        state is ClickFind && state->ClickFind_selector.app is None && center_of(node) is None
            ==> next(state, Reply::One(Ok(node))) == Perform::<'a>::Failed(Fault::ClickUnplaced),
        state is ClickPid && state->ClickPid_point is None ==> next(state, Reply::Pid(Ok(pid)))
            == Perform::<'a>::Failed(Fault::ClickUnplaced),
        state is MoveFind && center_of(node) is None ==> next(state, Reply::One(Ok(node)))
            == Perform::<'a>::Failed(Fault::MoveUnplaced),
{
}

/// An element that is found is clicked, or the mouse moved to it, exactly where its
/// position and its size are known.
pub proof fn placed_elements_are_reached<'a>(
    selector: &'a Selector,
    button: MouseButton,
    count: u32,
    node: AccessibilityNode,
)
    requires
        is_framed(node),
    ensures
        selector.app is None ==> {
            let found = next(
                Perform::ClickFind { selector, button, count },
                Reply::One(Ok(node)),
            );
            if has_place(node) {
                found == run(Job::Click { point: center_of(node)->0, button, count, pid: None })
            } else {
                found == Perform::<'a>::Failed(Fault::ClickUnplaced)
            }
        },
        next(Perform::MoveFind { selector }, Reply::One(Ok(node))) == (if has_place(node) {
            run(Job::Move { point: center_of(node)->0 })
        } else {
            Perform::<'a>::Failed(Fault::MoveUnplaced)
        }),
{
    places_are_known_with_position_and_size(node);
}

/// Whether `commands` are the last ones of `all`.
pub open spec fn ends_with<'a>(all: Seq<Command<'a>>, commands: Seq<Command<'a>>) -> bool {
    commands.len() <= all.len() && all.skip(all.len() - commands.len()) == commands
}

proof fn success_of_running<'a>(state: Perform<'a>, replies: Seq<Reply>, job: Job<'a>)
    requires
        state.is_valid(),
        !state.is_over(),
        follows(state, replies),
        after(state, replies) == Perform::<'a>::Succeeded(Achieved::Job(job)),
    ensures
        match state {
            Perform::Running { job: own, at } => own == job && issued(state, replies)
                == job.commands().skip(at as int),
            _ => ends_with(issued(state, replies), job.commands()),
        },
    decreases replies.len(),
{
    assert(replies.len() > 0);
    let then = next(state, replies[0]);
    let rest = replies.skip(1);
    let all = issued(state, replies);
    let later = issued(then, rest);
    valid_stays_valid(state, replies[0]);
    assert(all =~= seq![state.awaited()->0] + later);
    if then.is_over() {
        assert(follows(then, rest));
        if rest.len() > 0 {
            assert(then.accepts(rest[0]));
        }
        assert(later.len() == 0);
        assert(after(then, rest) == then);
        if let Perform::Running { at, .. } = state {
            assert(all =~= job.commands().skip(at as int));
        }
    } else {
        success_of_running(then, rest, job);
        match state {
            Perform::Running { at, .. } => {
                jobs_are_short(job);
                assert(all =~= job.commands().skip(at as int));
            },
            _ => {
                if then is Running {
                    assert(job.commands().skip(0) =~= job.commands());
                    assert(all.skip(1) =~= later);
                } else {
                    assert(all.skip(all.len() - job.commands().len()) =~= later.skip(
                        later.len() - job.commands().len(),
                    ));
                }
            },
        }
    }
}

/// A success that is reported is a real one: whatever came before, the last commands
/// carried out are those of the job reported, all of them and in order.
pub proof fn success_means_all_was_done<'a>(
    action: &'a Action,
    scratch: &'a String,
    replies: Seq<Reply>,
    job: Job<'a>,
)
    requires
        follows(begin(action, scratch), replies),
        after(begin(action, scratch), replies) == Perform::<'a>::Succeeded(Achieved::Job(job)),
    ensures
        ends_with(issued(begin(action, scratch), replies), job.commands()),
{
    let start = begin(action, scratch);
    assert(start.is_valid());
    if start.is_over() {
        assert(replies.len() == 0);
    }
    success_of_running(start, replies, job);
    if start is Running {
        let all = issued(start, replies);
        assert(job.commands().skip(0) =~= job.commands());
        assert(all.skip(0) =~= all);
    }
}

/// Whether an action succeeds with these replies.
pub open spec fn succeeds<'a>(
    action: &'a Action,
    scratch: &'a String,
    replies: Seq<Reply>,
) -> bool {
    follows(begin(action, scratch), replies) && after(begin(action, scratch), replies) is Succeeded
}

/// What an action reports that succeeds with these replies.
pub open spec fn success_of<'a>(
    action: &'a Action,
    scratch: &'a String,
    replies: Seq<Reply>,
) -> ActionResultView {
    after(begin(action, scratch), replies)->Succeeded_0.reported()
}

/// A success that says no more than this.
pub open spec fn saying(message: Seq<char>) -> ActionResultView {
    ActionResultView { success: true, message: Some(message), path: None, data: None }
}

/// A success takes a step that does not fail.
proof fn success_goes_on<'a>(state: Perform<'a>, replies: Seq<Reply>)
    requires
        state.is_valid(),
        !state.is_over(),
        follows(state, replies),
        after(state, replies) is Succeeded,
    ensures
        replies.len() > 0,
        state.accepts(replies[0]),
        next(state, replies[0]).is_valid(),
        !(next(state, replies[0]) is Failed),
        follows(next(state, replies[0]), replies.skip(1)),
        after(next(state, replies[0]), replies.skip(1)) == after(state, replies),
        issued(state, replies) == seq![state.awaited()->0] + issued(
            next(state, replies[0]),
            replies.skip(1),
        ),
{
    let then = next(state, replies[0]);
    let rest = replies.skip(1);
    assert(replies.len() > 0) by {
        if replies.len() == 0 {
            assert(after(state, replies) == state);
        }
    }
    assert(follows(then, rest));
    valid_stays_valid(state, replies[0]);
    if then is Failed {
        if rest.len() > 0 {
            assert(then.accepts(rest[0]));
        }
        assert(after(then, rest) == then);
    }
}

proof fn nothing_comes_after_the_end<'a>(state: Perform<'a>, replies: Seq<Reply>)
    requires
        state.is_over(),
        follows(state, replies),
    ensures
        replies.len() == 0,
        issued(state, replies) == Seq::<Command<'a>>::empty(),
        after(state, replies) == state,
{
    if replies.len() > 0 {
        assert(state.accepts(replies[0]));
    }
}

/// A job that succeeds does so by carrying out what is left of it.
proof fn a_job_succeeds_whole<'a>(job: Job<'a>, at: usize, replies: Seq<Reply>)
    requires
        at < job.commands().len(),
        follows(Perform::Running { job, at }, replies),
        after(Perform::Running { job, at }, replies) is Succeeded,
    ensures
        issued(Perform::Running { job, at }, replies) == job.commands().skip(at as int),
        after(Perform::Running { job, at }, replies) == Perform::<'a>::Succeeded(
            Achieved::Job(job),
        ),
    decreases replies.len(),
{
    let state = Perform::Running { job, at };
    let commands = job.commands();
    jobs_are_short(job);
    success_goes_on(state, replies);
    let then = next(state, replies[0]);
    let rest = replies.skip(1);
    if at + 1 < commands.len() {
        a_job_succeeds_whole(job, (at + 1) as usize, rest);
        assert(commands.skip(at as int) =~= seq![commands[at as int]] + commands.skip(at + 1));
    } else {
        nothing_comes_after_the_end(then, rest);
        assert(commands.skip(at as int) =~= seq![commands[at as int]]);
        assert(issued(state, replies) =~= commands.skip(at as int));
    }
}

proof fn a_whole_job_succeeds<'a>(job: Job<'a>, replies: Seq<Reply>)
    requires
        follows(run(job), replies),
        after(run(job), replies) is Succeeded,
    ensures
        issued(run(job), replies) == job.commands(),
        after(run(job), replies) == Perform::<'a>::Succeeded(Achieved::Job(job)),
{
    jobs_are_short(job);
    a_job_succeeds_whole(job, 0, replies);
    assert(job.commands().skip(0) =~= job.commands());
}

/// A click that succeeds was one click, with the button and the count asked for. It was at
/// the coordinates given, and without them at the centre of the element that was found; and
/// it was in the process of the application that the selector names, if it names one.
pub proof fn every_click_is_as_asked<'a>(
    action: &'a Action,
    scratch: &'a String,
    replies: Seq<Reply>,
)
    requires
        action is Click,
        succeeds(action, scratch, replies),
    ensures
        ({
            let selector = action->Click_selector;
            let looked = action->Click_coordinates is None;
            let named = selector is Some && selector->0.app is Some;
            let n: int = if looked {
                1
            } else {
                0
            };
            let node = replies[0]->One_0->Ok_0;
            let point = if looked {
                node.frame->0.center
            } else {
                action->Click_coordinates->0
            };
            let pid = if named {
                Some(replies[n]->Pid_0->Ok_0)
            } else {
                None
            };
            &&& looked ==> selector is Some && replies.len() > 0 && replies[0] == Reply::One(
                Ok(node),
            ) && node.frame is Some
            &&& named ==> replies.len() > n && replies[n] == Reply::Pid(Ok(pid->0))
            &&& issued(begin(action, scratch), replies) == (if looked {
                seq![Command::FindOne(&selector->0)]
            } else {
                Seq::empty()
            }) + (if named {
                seq![Command::FindPid(&selector->0.app->0)]
            } else {
                Seq::empty()
            }) + seq![
                Command::Click { point: &point, button: action->button, count: action->count, pid },
            ]
            &&& success_of(action, scratch, replies) == saying(
                "clicked at "@ + ("("@ + point.x.text@ + ", "@ + point.y.text@ + ")"@),
            )
        }),
{
    let selector = action->Click_selector;
    let looked = action->Click_coordinates is None;
    let named = selector is Some && selector->0.app is Some;
    let start = begin(action, scratch);
    let all = issued(start, replies);
    if start.is_over() {
        nothing_comes_after_the_end(start, replies);
    }
    if looked {
        success_goes_on(start, replies);
        let second = next(start, replies[0]);
        let rest = replies.skip(1);
        if named {
            success_goes_on(second, rest);
            let third = next(second, rest[0]);
            assert(rest[0] == replies[1]);
            a_whole_job_succeeds(third->Running_job, rest.skip(1));
            assert(all =~= seq![
                Command::FindOne(&selector->0),
                Command::FindPid(&selector->0.app->0),
            ] + third->Running_job.commands());
        } else {
            a_whole_job_succeeds(second->Running_job, rest);
            assert(all =~= seq![Command::FindOne(&selector->0)] + second->Running_job.commands());
        }
    } else if named {
        success_goes_on(start, replies);
        let second = next(start, replies[0]);
        a_whole_job_succeeds(second->Running_job, replies.skip(1));
        assert(all =~= seq![Command::FindPid(&selector->0.app->0)]
            + second->Running_job.commands());
    } else {
        a_whole_job_succeeds(start->Running_job, replies);
        assert(all =~= start->Running_job.commands());
    }
}

/// Typing that succeeds typed the text, and pressed return behind it exactly if the text
/// was to be submitted. With a selector, the element was found before, in the application
/// that the selector names or anywhere, and let go of; that application, if one is named,
/// was brought to the front; and the element was clicked at its centre and emptied.
/// Without a selector nothing else was done.
pub proof fn every_text_is_typed_as_asked<'a>(
    action: &'a Action,
    scratch: &'a String,
    replies: Seq<Reply>,
)
    requires
        action is Type,
        succeeds(action, scratch, replies),
    ensures
        ({
            let text = action->text;
            let selector = action->Type_selector;
            let named = selector is Some && selector->0.app is Some;
            let n: int = if named {
                1
            } else {
                0
            };
            let root = if named {
                Root::Application(replies[0]->Pid_0->Ok_0)
            } else {
                Root::System
            };
            let node = replies[n + 1]->Described_0;
            let point = node.frame->0.center;
            let submitted = if action->submit {
                seq![Command::Pause(100), Command::PressKey(Key::Return)]
            } else {
                Seq::empty()
            };
            let all = issued(begin(action, scratch), replies);
            let count = "typed "@ + decimal(encode_utf8(text@).len() as usize as nat)
                + " characters"@;
            &&& selector is None ==> all == seq![Command::TypeText(&text)] + submitted
            &&& selector is Some ==> {
                &&& replies.len() > n + 1
                &&& named ==> replies[0] == Reply::Pid(Ok(replies[0]->Pid_0->Ok_0))
                &&& replies[n] == Reply::Found(true)
                &&& replies[n + 1] == Reply::Described(node)
                &&& node.frame is Some
                &&& all == (if named {
                    seq![Command::FindPid(&selector->0.app->0)]
                } else {
                    Seq::empty()
                }) + seq![
                    Command::FindElement(root, &selector->0),
                    Command::DescribeElement,
                    Command::ReleaseElement,
                ] + (if named {
                    seq![Command::Activate(&selector->0.app->0)]
                } else {
                    Seq::empty()
                }) + seq![
                    Command::Click {
                        point: &point,
                        button: MouseButton::Left,
                        count: 1,
                        pid: None,
                    },
                    Command::Pause(100),
                    Command::PressKey(Key::SelectAll),
                    Command::Pause(50),
                    Command::PressKey(Key::Backspace),
                    Command::Pause(100),
                    Command::TypeText(&text),
                ] + submitted
            }
            &&& !action->submit ==> all.last() == Command::TypeText(&text)
            &&& action->submit <==> exists|i: int|
                0 <= i < all.len() && #[trigger] all[i] == Command::<'a>::PressKey(Key::Return)
            &&& Key::<'a>::Return.name() == "return"@
            &&& Key::<'a>::SelectAll.name() == "cmd+a"@
            &&& Key::<'a>::Backspace.name() == "backspace"@
            &&& success_of(action, scratch, replies) == saying(
                if action->submit {
                    count + " and submitted"@
                } else {
                    count
                },
            )
        }),
{
    let text = action->text;
    let selector = action->Type_selector;
    let named = selector is Some && selector->0.app is Some;
    let start = begin(action, scratch);
    let all = issued(start, replies);
    let submitted = if action->submit {
        seq![Command::Pause(100), Command::PressKey(Key::Return)]
    } else {
        Seq::empty()
    };
    if selector is None {
        a_whole_job_succeeds(start->Running_job, replies);
        assert(all =~= seq![Command::TypeText(&text)] + submitted);
    } else {
        let n: int = if named {
            1
        } else {
            0
        };
        let head = if named {
            seq![Command::FindPid(&selector->0.app->0)]
        } else {
            Seq::empty()
        };
        let finding = if named {
            next(start, replies[0])
        } else {
            start
        };
        let left = replies.skip(n);
        if named {
            success_goes_on(start, replies);
        } else {
            assert(left =~= replies);
        }
        success_goes_on(finding, left);
        let describing = next(finding, left[0]);
        let left1 = left.skip(1);
        success_goes_on(describing, left1);
        let releasing = next(describing, left1[0]);
        let left2 = left1.skip(1);
        success_goes_on(releasing, left2);
        let running = next(releasing, left2[0]);
        let left3 = left2.skip(1);
        assert(left[0] == replies[n]);
        assert(left1[0] == replies[n + 1]);
        a_whole_job_succeeds(running->Running_job, left3);
        let commands = running->Running_job.commands();
        let node = replies[n + 1]->Described_0;
        let point = node.frame->0.center;
        let root = if named {
            Root::Application(replies[0]->Pid_0->Ok_0)
        } else {
            Root::System
        };
        let middle = seq![
            Command::FindElement(root, &selector->0),
            Command::DescribeElement,
            Command::ReleaseElement,
        ];
        assert(all =~= head + middle + commands);
        let front = if named {
            seq![Command::Activate(&selector->0.app->0)]
        } else {
            Seq::empty()
        };
        let work = seq![
            Command::Click { point: &point, button: MouseButton::Left, count: 1, pid: None },
            Command::Pause(100),
            Command::PressKey(Key::SelectAll),
            Command::Pause(50),
            Command::PressKey(Key::Backspace),
            Command::Pause(100),
            Command::TypeText(&text),
        ];
        assert(commands =~= front + work + submitted);
        assert(all =~= head + middle + front + work + submitted);
    }
    if action->submit {
        assert(all.last() == Command::<'a>::PressKey(Key::Return));
        assert(all[all.len() - 1] == Command::<'a>::PressKey(Key::Return));
    }
}

/// Pressing a key that succeeds pressed that key, once: where the focus is; or, for a
/// process named outright, after its window was raised and a tenth of a second had passed;
/// or, for any other application, while that was in front.
pub proof fn every_key_is_pressed_as_asked<'a>(
    action: &'a Action,
    scratch: &'a String,
    replies: Seq<Reply>,
)
    requires
        action is KeyPress,
        succeeds(action, scratch, replies),
    ensures
        ({
            let key = action->key;
            let app = action->KeyPress_app;
            let all = issued(begin(action, scratch), replies);
            &&& app is None ==> all == seq![Command::PressKey(Key::Given(&key))]
            &&& app is Some && pid_target(app->0@) is Some ==> all == seq![
                Command::RaiseWindow(pid_target(app->0@)->0),
                Command::Pause(100),
                Command::PressKey(Key::Given(&key)),
            ]
            &&& app is Some && pid_target(app->0@) is None ==> all == seq![
                Command::PressKeyIn { app: &app->0, key: Key::Given(&key) },
            ]
            &&& Key::Given(&key).name() == key@
            &&& success_of(action, scratch, replies) == saying("pressed "@ + key@)
        }),
{
    let start = begin(action, scratch);
    a_whole_job_succeeds(start->Running_job, replies);
}

/// Scrolling that succeeds turned the wheel once, in the direction and by the amount asked
/// for. Without an application nothing else was done. With one, its process was found, then
/// the place, then it was brought to the front, the mouse was moved to the place, if there
/// is one, for that process, and after a twentieth of a second the wheel was turned for that
/// process. With a selector the place is the centre of the first element of the process
/// that matches, and otherwise the best one of the tree, eight levels deep.
pub proof fn every_scroll_is_as_asked<'a>(
    action: &'a Action,
    scratch: &'a String,
    replies: Seq<Reply>,
)
    requires
        action is Scroll,
        succeeds(action, scratch, replies),
    ensures
        ({
            let app = action->Scroll_app;
            let selector = action->Scroll_selector;
            let pid = replies[0]->Pid_0->Ok_0;
            let nodes = replies[1]->All_0;
            let tree = replies[1]->Described_0;
            let point = if selector is None {
                best_scroll_point(tree)
            } else if nodes@.len() > 0 && nodes@[0].frame is Some {
                Some(nodes@[0].frame->0.center)
            } else {
                None
            };
            let all = issued(begin(action, scratch), replies);
            &&& app is None ==> all == seq![
                Command::Scroll { direction: action->direction, amount: action->amount, pid: None },
            ]
            &&& app is Some ==> {
                &&& replies.len() > 1
                &&& replies[0] == Reply::Pid(Ok(pid))
                &&& selector is Some ==> replies[1] == Reply::All(nodes)
                &&& selector is None ==> replies[1] == Reply::Described(tree)
                &&& all == seq![
                    Command::FindPid(&app->0),
                    if selector is Some {
                        Command::FindAll(pid, &selector->0)
                    } else {
                        Command::DescribeApp(pid, 8)
                    },
                    Command::Activate(&app->0),
                ] + (if point is Some {
                    seq![Command::MoveMouse { point: &point->0, pid: Some(pid) }]
                } else {
                    Seq::empty()
                }) + seq![
                    Command::Pause(50),
                    Command::Scroll {
                        direction: action->direction,
                        amount: action->amount,
                        pid: Some(pid),
                    },
                ]
            }
            &&& success_of(action, scratch, replies) == saying(
                "scrolled "@ + (match action->direction {
                    ScrollDirection::Up => "Up"@,
                    ScrollDirection::Down => "Down"@,
                    ScrollDirection::Left => "Left"@,
                    ScrollDirection::Right => "Right"@,
                }) + " by "@ + decimal(action->amount as nat),
            )
        }),
{
    let start = begin(action, scratch);
    let app = action->Scroll_app;
    let selector = action->Scroll_selector;
    let all = issued(start, replies);
    if app is None {
        a_whole_job_succeeds(start->Running_job, replies);
    } else {
        success_goes_on(start, replies);
        let looking = next(start, replies[0]);
        let left = replies.skip(1);
        success_goes_on(looking, left);
        assert(left[0] == replies[1]);
        let running = next(looking, left[0]);
        a_whole_job_succeeds(running->Running_job, left.skip(1));
        let pid = replies[0]->Pid_0->Ok_0;
        let look = if selector is Some {
            Command::FindAll(pid, &selector->0)
        } else {
            Command::DescribeApp(pid, 8)
        };
        assert(all =~= seq![Command::FindPid(&app->0), look] + running->Running_job.commands());
    }
}

/// Moving the mouse that succeeds moved it once: to the coordinates given, and without them
/// to the centre of the element that was found.
pub proof fn every_move_is_as_asked<'a>(
    action: &'a Action,
    scratch: &'a String,
    replies: Seq<Reply>,
)
    requires
        action is MoveMouse,
        succeeds(action, scratch, replies),
    ensures
        ({
            let looked = action->MoveMouse_coordinates is None;
            let node = replies[0]->One_0->Ok_0;
            let point = if looked {
                node.frame->0.center
            } else {
                action->MoveMouse_coordinates->0
            };
            let selector = action->MoveMouse_selector;
            &&& looked ==> selector is Some && replies.len() > 0 && replies[0] == Reply::One(
                Ok(node),
            ) && node.frame is Some
            &&& issued(begin(action, scratch), replies) == (if looked {
                seq![Command::FindOne(&selector->0)]
            } else {
                Seq::empty()
            }) + seq![Command::MoveMouse { point: &point, pid: None }]
            &&& success_of(action, scratch, replies) == saying(
                "moved mouse to "@ + ("("@ + point.x.text@ + ", "@ + point.y.text@ + ")"@),
            )
        }),
{
    let start = begin(action, scratch);
    let all = issued(start, replies);
    if start.is_over() {
        nothing_comes_after_the_end(start, replies);
    }
    if action->MoveMouse_coordinates is None {
        success_goes_on(start, replies);
        let running = next(start, replies[0]);
        a_whole_job_succeeds(running->Running_job, replies.skip(1));
        assert(all =~= seq![Command::FindOne(&action->MoveMouse_selector->0)]
            + running->Running_job.commands());
    } else {
        a_whole_job_succeeds(start->Running_job, replies);
        assert(all =~= start->Running_job.commands());
    }
}

/// Dragging that succeeds dragged once, from the one place given to the other.
pub proof fn every_drag_is_as_asked<'a>(
    action: &'a Action,
    scratch: &'a String,
    replies: Seq<Reply>,
)
    requires
        action is Drag,
        succeeds(action, scratch, replies),
    ensures
        ({
            let from = action->from;
            let to = action->to;
            &&& issued(begin(action, scratch), replies) == seq![
                Command::Drag { from: &from, to: &to },
            ]
            &&& success_of(action, scratch, replies) == saying(
                "dragged from "@ + ("("@ + from.x.text@ + ", "@ + from.y.text@ + ")"@) + " to "@
                    + ("("@ + to.x.text@ + ", "@ + to.y.text@ + ")"@),
            )
        }),
{
    let start = begin(action, scratch);
    a_whole_job_succeeds(start->Running_job, replies);
}

/// Focusing that succeeds found the element, in the application that the selector names or
/// anywhere, gave it the focus, which it took, and let go of it.
pub proof fn every_focus_is_as_asked<'a>(
    action: &'a Action,
    scratch: &'a String,
    replies: Seq<Reply>,
)
    requires
        action is Focus,
        succeeds(action, scratch, replies),
    ensures
        ({
            let selector = action->Focus_selector;
            let named = selector.app is Some;
            let n: int = if named {
                1
            } else {
                0
            };
            let root = if named {
                Root::Application(replies[0]->Pid_0->Ok_0)
            } else {
                Root::System
            };
            &&& replies.len() > n + 1
            &&& named ==> replies[0] == Reply::Pid(Ok(replies[0]->Pid_0->Ok_0))
            &&& replies[n] == Reply::Found(true)
            &&& replies[n + 1] == Reply::Focused(true)
            &&& issued(begin(action, scratch), replies) == (if named {
                seq![Command::FindPid(&selector.app->0)]
            } else {
                Seq::empty()
            }) + seq![
                Command::FindElement(root, &selector),
                Command::FocusElement,
                Command::ReleaseElement,
            ]
            &&& success_of(action, scratch, replies) == saying("focused element"@)
        }),
{
    let selector = action->Focus_selector;
    let named = selector.app is Some;
    let start = begin(action, scratch);
    let all = issued(start, replies);
    let n: int = if named {
        1
    } else {
        0
    };
    let finding = if named {
        next(start, replies[0])
    } else {
        start
    };
    let left = replies.skip(n);
    if named {
        success_goes_on(start, replies);
    } else {
        assert(left =~= replies);
    }
    success_goes_on(finding, left);
    let focusing = next(finding, left[0]);
    let left1 = left.skip(1);
    success_goes_on(focusing, left1);
    let releasing = next(focusing, left1[0]);
    let left2 = left1.skip(1);
    success_goes_on(releasing, left2);
    let end = next(releasing, left2[0]);
    nothing_comes_after_the_end(end, left2.skip(1));
    assert(left[0] == replies[n]);
    assert(left1[0] == replies[n + 1]);
    let root = if named {
        Root::Application(replies[0]->Pid_0->Ok_0)
    } else {
        Root::System
    };
    assert(all =~= (if named {
        seq![Command::FindPid(&selector.app->0)]
    } else {
        Seq::empty()
    }) + seq![
        Command::FindElement(root, &selector),
        Command::FocusElement,
        Command::ReleaseElement,
    ]);
}

proof fn a_window_was_captured<'a>(
    windows: Vec<u32>,
    at: usize,
    path: &'a String,
    replies: Seq<Reply>,
)
    requires
        at < windows@.len(),
        follows(Perform::ShotWindow { windows, at, path }, replies),
        after(Perform::ShotWindow { windows, at, path }, replies) is Succeeded,
    ensures
        ({
            let start = Perform::ShotWindow { windows, at, path };
            let all = issued(start, replies);
            &&& 0 < replies.len() <= windows@.len() - at
            &&& all.len() == replies.len()
            &&& forall|k: int|
                0 <= k < all.len() ==> #[trigger] all[k] == (Command::CaptureWindow {
                    window: windows@[at + k],
                    path,
                })
            &&& forall|k: int|
                0 <= k < replies.len() - 1 ==> (#[trigger] replies[k]) is Done
                    && replies[k]->Done_0 is Err
            &&& replies.last() is Done && replies.last()->Done_0 is Ok
            &&& after(start, replies) == Perform::Succeeded(Achieved::Screenshot(path))
        }),
    decreases replies.len(),
{
    let start = Perform::ShotWindow { windows, at, path };
    let all = issued(start, replies);
    assert(windows.len() == windows@.len());
    success_goes_on(start, replies);
    let then = next(start, replies[0]);
    let rest = replies.skip(1);
    let later = issued(then, rest);
    if then.is_over() {
        nothing_comes_after_the_end(then, rest);
        assert(replies.last() == replies[0]);
    } else {
        a_window_was_captured(windows, (at + 1) as usize, path, rest);
        assert(replies.last() == rest.last());
        assert forall|k: int| 0 <= k < all.len() implies #[trigger] all[k] == (
        Command::CaptureWindow { window: windows@[at + k], path }) by {
            if k > 0 {
                assert(all[k] == later[k - 1]);
            }
        }
        assert forall|k: int| 0 <= k < replies.len() - 1 implies (#[trigger] replies[k]) is Done
            && replies[k]->Done_0 is Err by {
            if k > 0 {
                assert(replies[k] == rest[k - 1]);
            }
        }
    }
}

/// A screenshot that succeeds is at the path given, or else at the scratch path, and that
/// is reported. Without an application it is of the screen. With one, its windows were
/// found, and captured in their order up to the first that could be.
pub proof fn every_screenshot_is_as_asked<'a>(
    action: &'a Action,
    scratch: &'a String,
    replies: Seq<Reply>,
)
    requires
        action is Screenshot,
        succeeds(action, scratch, replies),
    ensures
        ({
            let path = if action->Screenshot_path is Some {
                action->Screenshot_path->0
            } else {
                *scratch
            };
            let app = action->Screenshot_app;
            let windows = replies[0]->Windows_0->Ok_0;
            let all = issued(begin(action, scratch), replies);
            &&& app is None ==> {
                &&& all == seq![Command::CaptureScreen { path: &path }]
                &&& replies[0] is Ended
                &&& replies[0]->Ended_0 is Exited
                &&& replies[0]->Ended_0->success
            }
            &&& app is Some ==> {
                &&& replies[0] == Reply::Windows(Ok(windows))
                &&& 2 <= replies.len() <= windows@.len() + 1
                &&& all.len() == replies.len()
                &&& all[0] == Command::FindWindows(&app->0)
                &&& forall|k: int|
                    1 <= k < all.len() ==> #[trigger] all[k] == (Command::CaptureWindow {
                        window: windows@[k - 1],
                        path: &path,
                    })
                &&& forall|k: int|
                    1 <= k < replies.len() - 1 ==> (#[trigger] replies[k]) is Done
                        && replies[k]->Done_0 is Err
                &&& replies.last() is Done && replies.last()->Done_0 is Ok
            }
            &&& success_of(action, scratch, replies) == (ActionResultView {
                success: true,
                message: Some("screenshot saved to "@ + path@),
                path: Some(path@),
                data: None,
            })
        }),
{
    let start = begin(action, scratch);
    let all = issued(start, replies);
    success_goes_on(start, replies);
    let then = next(start, replies[0]);
    let rest = replies.skip(1);
    if action->Screenshot_app is None {
        nothing_comes_after_the_end(then, rest);
        assert(all =~= seq![start.awaited()->0]);
    } else {
        let later = issued(then, rest);
        a_window_was_captured(then->windows, 0, then->ShotWindow_path, rest);
        assert(replies.last() == rest.last());
        assert forall|k: int| 1 <= k < all.len() implies #[trigger] all[k] == later[k - 1] by {}
        assert forall|k: int| 1 <= k < replies.len() implies #[trigger] replies[k] == rest[k
            - 1] by {}
    }
}

/// How a screenshot of the screen ends, and how one fails: where the program that captures
/// the screen succeeded, so did the action; without a window to capture, the application is named; where the
/// program that captures the screen could not be started, the reason is; and where it
/// failed, that is said.
pub proof fn how_screenshots_end<'a>(
    app: &'a String,
    path: &'a String,
    windows: Vec<u32>,
    reason: String,
    stderr: Vec<u8>,
)
    requires
        windows@.len() == 0,
    ensures
        next(
            Perform::ShotScreen { path },
            Reply::Ended(ProgramEnd::Exited { success: true, stderr }),
        ) == Perform::Succeeded(Achieved::Screenshot(path)),
        next(Perform::ShotWindows { app, path }, Reply::Windows(Ok(windows))) == Perform::<
            'a,
        >::Failed(Fault::NothingToCapture(app)),
        next(
            Perform::ShotScreen { path },
            Reply::Ended(ProgramEnd::NotStarted { reason }),
        ) == Perform::<'a>::Failed(Fault::ScreencaptureNotStarted(reason)),
        next(
            Perform::ShotScreen { path },
            Reply::Ended(ProgramEnd::Exited { success: false, stderr }),
        ) == Perform::<'a>::Failed(Fault::ScreencaptureFailed),
{
}

} // verus!
