//! Reading accessibility trees and finding elements in them, one command to the host
//! at a time.

use vstd::prelude::*;

#[allow(unused_imports)]
use crate::action::optional_ref;
use crate::action::Selector;
use crate::error::Error;
#[allow(unused_imports)]
use crate::fault::is_report;
use crate::fault::Fault;
#[allow(unused_imports)]
use crate::node::{are_framed, is_framed, is_system_wide};
use crate::node::{system_wide, AccessibilityNode};

verus! {

/// What is asked for.
#[derive(Clone, Copy, Debug, PartialEq, Eq)]
pub enum Goal<'a> {
    /// A tree, that many levels deep at most.
    Tree(Option<u32>),
    /// All the elements that match.
    All(&'a Selector),
    /// The first element that matches.
    First(&'a Selector),
}

/// What the host is to do next.
#[allow(inconsistent_fields)]
#[derive(Debug, PartialEq, Eq)]
pub enum QueryCommand<'a> {
    /// Find out whether the accessibility API may be used.
    CheckTrust,
    /// Find the process that the application's name means.
    FindPid(&'a String),
    /// List the running applications.
    ListApps,
    /// Describe the tree of a process, whose root counts as that level.
    Describe { pid: i32, max_depth: Option<u32>, level: u32 },
    /// Describe the tree of each application, one for each and in their order. The root
    /// counts as that level.
    DescribeEach { apps: &'a Vec<(i32, String)>, max_depth: Option<u32>, level: u32 },
    /// Find the elements of a process that match.
    FindAll { pid: i32, selector: &'a Selector },
    /// Find the elements of each application that match, a list for each and in their
    /// order.
    FindAllOfEach { apps: &'a Vec<(i32, String)>, selector: &'a Selector },
    /// Find the first element of a process that matches.
    FindFirst { pid: i32, selector: &'a Selector },
}

/// What came of a command.
#[derive(Debug, PartialEq, Eq)]
pub enum QueryReply {
    Trusted(bool),
    Pid(Result<i32, Error>),
    Apps(Vec<(i32, String)>),
    Tree(AccessibilityNode),
    Trees(Vec<AccessibilityNode>),
    Elements(Vec<AccessibilityNode>),
    ElementsOfEach(Vec<Vec<AccessibilityNode>>),
    First(Option<AccessibilityNode>),
}

/// What was found.
#[derive(Debug, PartialEq, Eq)]
pub enum Answer {
    /// The tree of one application.
    Tree(AccessibilityNode),
    /// The trees of all applications.
    System(Vec<AccessibilityNode>),
    /// The elements of one application.
    Elements(Vec<AccessibilityNode>),
    /// The elements of all applications, application by application.
    ElementsOfEach(Vec<Vec<AccessibilityNode>>),
    /// The first element.
    First(AccessibilityNode),
}

/// A query under way.
#[allow(inconsistent_fields)]
#[derive(Debug, PartialEq, Eq)]
pub enum Query<'a> {
    /// Asking whether the accessibility API may be used.
    Trust { app: Option<&'a String>, goal: Goal<'a> },
    /// Looking for the process of the application.
    Pid { app: &'a String, goal: Goal<'a> },
    /// Looking in one process.
    Inside { pid: i32, goal: Goal<'a> },
    /// Listing the applications.
    Listing { goal: Goal<'a> },
    /// Describing the tree of each application.
    TreeOfEach { apps: Vec<(i32, String)>, max_depth: Option<u32> },
    /// Looking in each application.
    InEach { apps: Vec<(i32, String)>, selector: &'a Selector },
    /// Looking in one application after the other.
    InTurn { apps: Vec<(i32, String)>, at: usize, selector: &'a Selector },
    Answered(Answer),
    Failed(Fault<'a>),
}

/// Whether a reply is one to that command. Where something is asked of each
/// application, there is one answer for each.
pub open spec fn answers_query<'a>(command: QueryCommand<'a>, reply: QueryReply) -> bool {
    match command {
        QueryCommand::CheckTrust => reply is Trusted,
        QueryCommand::FindPid(_) => reply is Pid,
        QueryCommand::ListApps => reply is Apps,
        QueryCommand::Describe { .. } => reply is Tree,
        QueryCommand::DescribeEach { apps, .. } => reply is Trees && reply->Trees_0@.len()
            == apps@.len(),
        QueryCommand::FindAll { .. } => reply is Elements,
        QueryCommand::FindAllOfEach { apps, .. } => reply is ElementsOfEach
            && reply->ElementsOfEach_0@.len() == apps@.len(),
        QueryCommand::FindFirst { .. } => reply is First,
    }
}

/// Where the query goes once the applications are listed.
pub open spec fn among<'a>(apps: Vec<(i32, String)>, goal: Goal<'a>) -> Query<'a> {
    match goal {
        Goal::Tree(max_depth) => Query::TreeOfEach { apps, max_depth },
        Goal::All(selector) => Query::InEach { apps, selector },
        Goal::First(selector) => if apps@.len() > 0 {
            Query::InTurn { apps, at: 0, selector }
        } else {
            Query::Failed(Fault::NoElement(selector))
        },
    }
}

/// The state after the state `state`, once `reply` came of its command. A reply that
/// does not belong to the command changes nothing.
pub open spec fn query_next<'a>(state: Query<'a>, reply: QueryReply) -> Query<'a> {
    match (state, reply) {
        (Query::Trust { app, goal }, QueryReply::Trusted(trusted)) => if !trusted {
            Query::Failed(Fault::Untrusted)
        } else {
            match app {
                Some(app) => Query::Pid { app, goal },
                None => Query::Listing { goal },
            }
        },
        (Query::Pid { goal, .. }, QueryReply::Pid(found)) => match found {
            Ok(pid) => Query::Inside { pid, goal },
            Err(e) => Query::Failed(Fault::Raised(e)),
        },
        (Query::Inside { goal: Goal::Tree(_), .. }, QueryReply::Tree(tree)) => Query::Answered(
            Answer::Tree(tree),
        ),
        (
            Query::Inside { goal: Goal::All(_), .. },
            QueryReply::Elements(elements),
        ) => Query::Answered(Answer::Elements(elements)),
        (
            Query::Inside { goal: Goal::First(selector), .. },
            QueryReply::First(found),
        ) => match found {
            Some(element) => Query::Answered(Answer::First(element)),
            None => Query::Failed(Fault::NoElement(selector)),
        },
        (Query::Listing { goal }, QueryReply::Apps(apps)) => among(apps, goal),
        (Query::TreeOfEach { .. }, QueryReply::Trees(trees)) => Query::Answered(
            Answer::System(trees),
        ),
        (Query::InEach { .. }, QueryReply::ElementsOfEach(lists)) => Query::Answered(
            Answer::ElementsOfEach(lists),
        ),
        (Query::InTurn { apps, at, selector }, QueryReply::First(found)) => match found {
            Some(element) => Query::Answered(Answer::First(element)),
            None => if at + 1 < apps@.len() {
                Query::InTurn { apps, at: (at + 1) as usize, selector }
            } else {
                Query::Failed(Fault::NoElement(selector))
            },
        },
        _ => state,
    }
}

/// The elements of all the lists, list by list.
pub open spec fn all_elements(lists: Seq<Vec<AccessibilityNode>>) -> Seq<AccessibilityNode>
    decreases lists.len(),
{
    if lists.len() == 0 {
        Seq::empty()
    } else {
        all_elements(lists.drop_last()) + lists.last()@
    }
}

fn merge(lists: Vec<Vec<AccessibilityNode>>) -> (r: Vec<AccessibilityNode>)
    ensures
        r@ == all_elements(lists@),
{
    let ghost all = all_elements(lists@);
    let mut lists = lists;
    let mut merged: Vec<AccessibilityNode> = Vec::new();
    while lists.len() > 0
        invariant
            all_elements(lists@) + merged@ =~= all,
        decreases lists.len(),
    {
        let ghost before = lists@;
        let mut last = lists.pop().unwrap();
        assert(before.drop_last() =~= lists@);
        last.append(&mut merged);
        merged = last;
    }
    merged
}

impl<'a> Query<'a> {
    /// Whether the state is one that a query can be in.
    pub open spec fn is_valid(self) -> bool {
        match self {
            Query::InTurn { apps, at, .. } => at < apps@.len(),
            _ => true,
        }
    }

    /// Whether the query is over.
    pub open spec fn is_over(self) -> bool {
        self is Answered || self is Failed
    }

    /// What the host is to do, if the query is not over.
    pub open spec fn awaited(&self) -> Option<QueryCommand<'_>> {
        match self {
            Query::Trust { .. } => Some(QueryCommand::CheckTrust),
            Query::Pid { app, .. } => Some(QueryCommand::FindPid(app)),
            Query::Inside { pid, goal } => Some(
                match goal {
                    Goal::Tree(max_depth) => QueryCommand::Describe {
                        pid: *pid,
                        max_depth: *max_depth,
                        level: 0,
                    },
                    Goal::All(selector) => QueryCommand::FindAll { pid: *pid, selector },
                    Goal::First(selector) => QueryCommand::FindFirst { pid: *pid, selector },
                },
            ),
            Query::Listing { .. } => Some(QueryCommand::ListApps),
            Query::TreeOfEach { apps, max_depth } => Some(
                QueryCommand::DescribeEach { apps, max_depth: *max_depth, level: 1 },
            ),
            Query::InEach { apps, selector } => Some(
                QueryCommand::FindAllOfEach { apps, selector },
            ),
            Query::InTurn { apps, at, selector } => Some(
                QueryCommand::FindFirst { pid: apps@[*at as int].0, selector },
            ),
            Query::Answered(_) => None,
            Query::Failed(_) => None,
        }
    }

    /// Whether the reply is one to the command awaited.
    pub open spec fn accepts(self, reply: QueryReply) -> bool {
        match self {
            Query::Trust { .. } => reply is Trusted,
            Query::Pid { .. } => reply is Pid,
            Query::Inside { goal, .. } => match goal {
                Goal::Tree(_) => reply is Tree,
                Goal::All(_) => reply is Elements,
                Goal::First(_) => reply is First,
            },
            Query::Listing { .. } => reply is Apps,
            Query::TreeOfEach { apps, .. } => reply is Trees && reply->Trees_0@.len()
                == apps@.len(),
            Query::InEach { apps, .. } => reply is ElementsOfEach
                && reply->ElementsOfEach_0@.len() == apps@.len(),
            Query::InTurn { .. } => reply is First,
            Query::Answered(_) => false,
            Query::Failed(_) => false,
        }
    }

    /// Begins to read the tree of an application, or of the whole system.
    pub fn tree(app: Option<&'a String>, max_depth: Option<u32>) -> (r: Self)
        ensures
            r == (Query::Trust { app, goal: Goal::Tree(max_depth) }),
            r.is_valid(),
    {
        Query::Trust { app, goal: Goal::Tree(max_depth) }
    }

    /// Begins to look for all the elements that match.
    pub fn find(selector: &'a Selector) -> (r: Self)
        ensures
            r == (Query::Trust {
                app: optional_ref(&selector.app),
                goal: Goal::All(selector),
            }),
            r.is_valid(),
    {
        let app = match &selector.app {
            Some(name) => Some(name),
            None => None,
        };
        Query::Trust { app, goal: Goal::All(selector) }
    }

    /// Begins to look for the first element that matches.
    pub fn find_one(selector: &'a Selector) -> (r: Self)
        ensures
            r == (Query::Trust {
                app: optional_ref(&selector.app),
                goal: Goal::First(selector),
            }),
            r.is_valid(),
    {
        let app = match &selector.app {
            Some(name) => Some(name),
            None => None,
        };
        Query::Trust { app, goal: Goal::First(selector) }
    }

    /// What the host is to do, if the query is not over.
    pub fn command(&self) -> (r: Option<QueryCommand<'_>>)
        requires
            self.is_valid(),
        ensures
            r == self.awaited(),
    {
        match self {
            Query::Trust { .. } => Some(QueryCommand::CheckTrust),
            Query::Pid { app, .. } => Some(QueryCommand::FindPid(app)),
            Query::Inside { pid, goal } => match goal {
                Goal::Tree(max_depth) => Some(
                    QueryCommand::Describe { pid: *pid, max_depth: *max_depth, level: 0 },
                ),
                Goal::All(selector) => Some(QueryCommand::FindAll { pid: *pid, selector }),
                Goal::First(selector) => Some(QueryCommand::FindFirst { pid: *pid, selector }),
            },
            Query::Listing { .. } => Some(QueryCommand::ListApps),
            Query::TreeOfEach { apps, max_depth } => Some(
                QueryCommand::DescribeEach { apps, max_depth: *max_depth, level: 1 },
            ),
            Query::InEach { apps, selector } => Some(
                QueryCommand::FindAllOfEach { apps, selector },
            ),
            Query::InTurn { apps, at, selector } => Some(
                QueryCommand::FindFirst { pid: apps[*at].0, selector },
            ),
            Query::Answered(_) => None,
            Query::Failed(_) => None,
        }
    }

    /// Goes on once `reply` came of the command.
    pub fn step(self, reply: QueryReply) -> (r: Self)
        requires
            self.is_valid(),
            self.accepts(reply),
        ensures
            r == query_next(self, reply),
            r.is_valid(),
    {
        match (self, reply) {
            (Query::Trust { app, goal }, QueryReply::Trusted(trusted)) => {
                if !trusted {
                    return Query::Failed(Fault::Untrusted);
                }
                match app {
                    Some(app) => Query::Pid { app, goal },
                    None => Query::Listing { goal },
                }
            },
            (Query::Pid { app: _, goal }, QueryReply::Pid(found)) => match found {
                Ok(pid) => Query::Inside { pid, goal },
                Err(e) => Query::Failed(Fault::Raised(e)),
            },
            (Query::Inside { pid: _, goal: _ }, QueryReply::Tree(tree)) => Query::Answered(
                Answer::Tree(tree),
            ),
            (Query::Inside { pid: _, goal: _ }, QueryReply::Elements(elements)) => Query::Answered(
                Answer::Elements(elements),
            ),
            (Query::Inside { pid: _, goal }, QueryReply::First(found)) => match (found, goal) {
                (Some(element), _) => Query::Answered(Answer::First(element)),
                (None, Goal::First(selector)) => Query::Failed(Fault::NoElement(selector)),
                (None, goal) => vstd::pervasive::unreached(),
            },
            (Query::Listing { goal }, QueryReply::Apps(apps)) => match goal {
                Goal::Tree(max_depth) => Query::TreeOfEach { apps, max_depth },
                Goal::All(selector) => Query::InEach { apps, selector },
                Goal::First(selector) => if apps.len() > 0 {
                    Query::InTurn { apps, at: 0, selector }
                } else {
                    Query::Failed(Fault::NoElement(selector))
                },
            },
            (Query::TreeOfEach { apps: _, max_depth: _ }, QueryReply::Trees(trees)) =>
                Query::Answered(Answer::System(trees)),
            (Query::InEach { apps: _, selector: _ }, QueryReply::ElementsOfEach(lists)) =>
                Query::Answered(Answer::ElementsOfEach(lists)),
            (Query::InTurn { apps, at, selector }, QueryReply::First(found)) => match found {
                Some(element) => Query::Answered(Answer::First(element)),
                None => {
                    let count = apps.len();
                    if at + 1 < count {
                        Query::InTurn { apps, at: at + 1, selector }
                    } else {
                        Query::Failed(Fault::NoElement(selector))
                    }
                },
            },
            (state, _) => state,
        }
    }

    /// The tree that a query for one ended with. The trees of all applications hang
    /// below one node for the system.
    pub fn into_tree(self) -> (r: Result<AccessibilityNode, Error>)
        requires
            self is Failed || (self is Answered && (self->Answered_0 is Tree
                || self->Answered_0 is System)),
        ensures
            match self {
                Query::Answered(Answer::Tree(tree)) => r == Ok::<AccessibilityNode, Error>(tree),
                Query::Answered(Answer::System(trees)) => {
                    &&& r is Ok
                    &&& is_system_wide(r->Ok_0, trees)
                    &&& are_framed(trees@) ==> is_framed(r->Ok_0)
                },
                Query::Failed(fault) => is_report(r, fault),
                _ => false,
            },
    {
        match self {
            Query::Answered(Answer::Tree(tree)) => Ok(tree),
            Query::Answered(Answer::System(trees)) => Ok(system_wide(trees)),
            Query::Failed(fault) => Err(fault.report()),
            _ => vstd::pervasive::unreached(),
        }
    }

    /// The elements that a query for all of them ended with.
    pub fn into_elements(self) -> (r: Result<Vec<AccessibilityNode>, Error>)
        requires
            self is Failed || (self is Answered && (self->Answered_0 is Elements
                || self->Answered_0 is ElementsOfEach)),
        ensures
            match self {
                Query::Answered(Answer::Elements(elements)) => r is Ok && r->Ok_0 == elements,
                Query::Answered(Answer::ElementsOfEach(lists)) => r is Ok && r->Ok_0@
                    == all_elements(lists@),
                Query::Failed(fault) => is_report(r, fault),
                _ => false,
            },
    {
        match self {
            Query::Answered(Answer::Elements(elements)) => Ok(elements),
            Query::Answered(Answer::ElementsOfEach(lists)) => Ok(merge(lists)),
            Query::Failed(fault) => Err(fault.report()),
            _ => vstd::pervasive::unreached(),
        }
    }

    /// The element that a query for the first ended with.
    pub fn into_first(self) -> (r: Result<AccessibilityNode, Error>)
        requires
            self is Failed || (self is Answered && self->Answered_0 is First),
        ensures
            match self {
                Query::Answered(Answer::First(element)) => r == Ok::<AccessibilityNode, Error>(
                    element,
                ),
                Query::Failed(fault) => is_report(r, fault),
                _ => false,
            },
    {
        match self {
            Query::Answered(Answer::First(element)) => Ok(element),
            Query::Failed(fault) => Err(fault.report()),
            _ => vstd::pervasive::unreached(),
        }
    }
}

/// Whether a query is one for a tree, or failed.
pub open spec fn is_for_tree<'a>(state: Query<'a>) -> bool {
    match state {
        Query::Trust { goal, .. } => goal is Tree,
        Query::Pid { goal, .. } => goal is Tree,
        Query::Inside { goal, .. } => goal is Tree,
        Query::Listing { goal } => goal is Tree,
        Query::TreeOfEach { .. } => true,
        Query::Answered(answer) => answer is Tree || answer is System,
        Query::Failed(_) => true,
        _ => false,
    }
}

/// Whether a query is one for all the elements that match, or failed.
pub open spec fn is_for_all<'a>(state: Query<'a>) -> bool {
    match state {
        Query::Trust { goal, .. } => goal is All,
        Query::Pid { goal, .. } => goal is All,
        Query::Inside { goal, .. } => goal is All,
        Query::Listing { goal } => goal is All,
        Query::InEach { .. } => true,
        Query::Answered(answer) => answer is Elements || answer is ElementsOfEach,
        Query::Failed(_) => true,
        _ => false,
    }
}

/// Whether a query is one for the first element that matches, or failed.
pub open spec fn is_for_first<'a>(state: Query<'a>) -> bool {
    match state {
        Query::Trust { goal, .. } => goal is First,
        Query::Pid { goal, .. } => goal is First,
        Query::Inside { goal, .. } => goal is First,
        Query::Listing { goal } => goal is First,
        Query::InTurn { .. } => true,
        Query::Answered(answer) => answer is First,
        Query::Failed(_) => true,
        _ => false,
    }
}

/// A query ends with the kind of answer that was asked for, if it does not fail.
pub proof fn answers_are_to_the_question<'a>(state: Query<'a>, reply: QueryReply)
    requires
        state.accepts(reply),
    ensures
        is_for_tree(state) ==> is_for_tree(query_next(state, reply)),
        is_for_all(state) ==> is_for_all(query_next(state, reply)),
        is_for_first(state) ==> is_for_first(query_next(state, reply)),
{
}

/// A query takes the replies that answer its command, and no others.
pub proof fn queries_take_answers<'a>(state: Query<'a>, reply: QueryReply)
    requires
        state.is_valid(),
    ensures
        state.accepts(reply) <==> !state.is_over() && answers_query(state.awaited()->0, reply),
{
}

/// The tree of the whole system has one child for each application that is listed, the
/// tree of that application.
pub proof fn every_application_has_its_tree<'a>(
    apps: Vec<(i32, String)>,
    max_depth: Option<u32>,
    reply: QueryReply,
    root: AccessibilityNode,
)
    requires
        (Query::TreeOfEach { apps, max_depth }).accepts(reply),
        is_system_wide(root, reply->Trees_0),
    ensures
        query_next(Query::Listing { goal: Goal::Tree(max_depth) }, QueryReply::Apps(apps))
            == (Query::TreeOfEach { apps, max_depth }),
        query_next(Query::TreeOfEach { apps, max_depth }, reply) == Query::<'a>::Answered(
            Answer::System(reply->Trees_0),
        ),
        root.children@.len() == apps@.len(),
        root.children@ == reply->Trees_0@,
{
}

/// Looking everywhere gives the elements of each application that is listed, one
/// application after the other.
pub proof fn every_application_is_looked_in<'a>(
    apps: Vec<(i32, String)>,
    selector: &'a Selector,
    reply: QueryReply,
)
    requires
        (Query::InEach { apps, selector }).accepts(reply),
    ensures
        query_next(Query::Listing { goal: Goal::All(selector) }, QueryReply::Apps(apps))
            == (Query::InEach { apps, selector }),
        query_next(Query::InEach { apps, selector }, reply) == Query::<'a>::Answered(
            Answer::ElementsOfEach(reply->ElementsOfEach_0),
        ),
        reply->ElementsOfEach_0@.len() == apps@.len(),
{
}

/// Whether the trees that a reply brings are framed.
pub open spec fn brings_framed(reply: QueryReply) -> bool {
    match reply {
        QueryReply::Tree(tree) => is_framed(tree),
        QueryReply::Trees(trees) => are_framed(trees@),
        QueryReply::Elements(elements) => are_framed(elements@),
        QueryReply::ElementsOfEach(lists) => are_framed(all_elements(lists@)),
        QueryReply::First(Some(element)) => is_framed(element),
        _ => true,
    }
}

/// Whether the trees that a query ended with, if it has, are framed.
pub open spec fn has_framed<'a>(state: Query<'a>) -> bool {
    match state {
        Query::Answered(Answer::Tree(tree)) => is_framed(tree),
        Query::Answered(Answer::System(trees)) => are_framed(trees@),
        Query::Answered(Answer::Elements(elements)) => are_framed(elements@),
        Query::Answered(Answer::ElementsOfEach(lists)) => are_framed(all_elements(lists@)),
        Query::Answered(Answer::First(element)) => is_framed(element),
        _ => true,
    }
}

/// A query keeps the frames of the trees it is handed.
pub proof fn queries_keep_frames<'a>(state: Query<'a>, reply: QueryReply)
    requires
        has_framed(state),
        brings_framed(reply),
    ensures
        has_framed(query_next(state, reply)),
{
}

/// Without permission nothing is looked at: the query fails at once.
pub proof fn nothing_is_read_without_permission<'a>(app: Option<&'a String>, goal: Goal<'a>)
    ensures
        ({
            let start = Query::Trust { app, goal };
            &&& start.awaited() == Some(QueryCommand::CheckTrust)
            &&& query_next(start, QueryReply::Trusted(false)) == Query::<'a>::Failed(
                Fault::Untrusted,
            )
        }),
{
}

/// How many stages are left, at most.
pub open spec fn query_stages_left<'a>(state: Query<'a>) -> nat {
    match state {
        Query::Trust { .. } => 3,
        Query::Pid { .. } => 2,
        Query::Listing { .. } => 2,
        Query::Inside { .. } => 1,
        Query::TreeOfEach { .. } => 1,
        Query::InEach { .. } => 1,
        Query::InTurn { .. } => 1,
        Query::Answered(_) => 0,
        Query::Failed(_) => 0,
    }
}

/// How many applications are left to look in.
pub open spec fn apps_left<'a>(state: Query<'a>) -> int {
    match state {
        Query::InTurn { apps, at, .. } => apps@.len() - at,
        _ => 0,
    }
}

/// Every query comes to an end.
pub proof fn every_query_reply_advances<'a>(state: Query<'a>, reply: QueryReply)
    requires
        state.is_valid(),
        state.accepts(reply),
    ensures
        query_stages_left(query_next(state, reply)) < query_stages_left(state) || (
        query_stages_left(query_next(state, reply)) == query_stages_left(state) && 0 < apps_left(
            query_next(state, reply),
        ) < apps_left(state)),
{
    if let Query::InTurn { apps, .. } = state {
        assert(apps.len() == apps@.len());
    }
}

/// The state that so many applications without a match lead to.
pub open spec fn after_misses<'a>(state: Query<'a>, n: nat) -> Query<'a>
    decreases n,
{
    if n == 0 {
        state
    } else {
        query_next(after_misses(state, (n - 1) as nat), QueryReply::First(None))
    }
}

/// The applications are looked in one after the other, in the order of the list; the
/// first match ends the query, and where there is none the selector is reported.
pub proof fn first_match_ends_the_query<'a>(
    apps: Vec<(i32, String)>,
    selector: &'a Selector,
    n: nat,
    element: AccessibilityNode,
)
    requires
        n < apps@.len(),
    ensures
        ({
            let start = Query::InTurn { apps, at: 0, selector };
            let there = after_misses(start, n);
            &&& there.awaited() == Some(
                QueryCommand::FindFirst { pid: apps@[n as int].0, selector },
            )
            &&& query_next(there, QueryReply::First(Some(element))) == Query::<'a>::Answered(
                Answer::First(element),
            )
            &&& n + 1 == apps@.len() ==> query_next(there, QueryReply::First(None))
                == Query::<'a>::Failed(Fault::NoElement(selector))
        }),
{
    misses_move_on(apps, selector, n);
    assert(apps.len() == apps@.len());
}

proof fn misses_move_on<'a>(apps: Vec<(i32, String)>, selector: &'a Selector, n: nat)
    requires
        n < apps@.len(),
    ensures
        after_misses(Query::InTurn { apps, at: 0, selector }, n) == (Query::InTurn {
            apps,
            at: n as usize,
            selector,
        }),
    decreases n,
{
    assert(apps.len() == apps@.len());
    if n > 0 {
        misses_move_on(apps, selector, (n - 1) as nat);
    }
}

/// What reading a tree asks of the host and ends with. The tree of an application is that
/// of its process, from the top and as deep as was asked for; the tree of the system has
/// below it the trees of all the applications that are listed, which count as one level
/// down.
pub proof fn course_of_reading_a_tree<'a>(
    app: Option<&'a String>,
    max_depth: Option<u32>,
    pid: i32,
    tree: AccessibilityNode,
    apps: Vec<(i32, String)>,
    trees: Vec<AccessibilityNode>,
)
    requires
        trees@.len() == apps@.len(),
    ensures
        ({
            let start = Query::Trust { app, goal: Goal::Tree(max_depth) };
            let trusted = query_next(start, QueryReply::Trusted(true));
            &&& start.awaited() == Some(QueryCommand::CheckTrust)
            &&& app is Some ==> {
                let found = query_next(trusted, QueryReply::Pid(Ok(pid)));
                &&& trusted.awaited() == Some(QueryCommand::FindPid(app->0))
                &&& found.awaited() == Some(QueryCommand::Describe { pid, max_depth, level: 0 })
                &&& query_next(found, QueryReply::Tree(tree)) == Query::<'a>::Answered(
                    Answer::Tree(tree),
                )
            }
            &&& app is None ==> {
                let listed = query_next(trusted, QueryReply::Apps(apps));
                &&& trusted.awaited() == Some(QueryCommand::ListApps)
                &&& listed.awaited() == Some(
                    QueryCommand::DescribeEach { apps: &apps, max_depth, level: 1 },
                )
                &&& query_next(listed, QueryReply::Trees(trees)) == Query::<'a>::Answered(
                    Answer::System(trees),
                )
            }
        }),
{
}

/// What looking for all the elements asks of the host and ends with: those of the process
/// of the application that the selector names, or of each application that is listed.
pub proof fn course_of_finding_all<'a>(
    selector: &'a Selector,
    pid: i32,
    elements: Vec<AccessibilityNode>,
    apps: Vec<(i32, String)>,
    lists: Vec<Vec<AccessibilityNode>>,
)
    requires
        lists@.len() == apps@.len(),
    ensures
        ({
            let start = Query::Trust { app: optional_ref(&selector.app), goal: Goal::All(selector) };
            let trusted = query_next(start, QueryReply::Trusted(true));
            &&& start.awaited() == Some(QueryCommand::CheckTrust)
            &&& selector.app is Some ==> {
                let found = query_next(trusted, QueryReply::Pid(Ok(pid)));
                &&& trusted.awaited() == Some(QueryCommand::FindPid(&selector.app->0))
                &&& found.awaited() == Some(QueryCommand::FindAll { pid, selector })
                &&& query_next(found, QueryReply::Elements(elements)) == Query::<'a>::Answered(
                    Answer::Elements(elements),
                )
            }
            &&& selector.app is None ==> {
                let listed = query_next(trusted, QueryReply::Apps(apps));
                &&& trusted.awaited() == Some(QueryCommand::ListApps)
                &&& listed.awaited() == Some(
                    QueryCommand::FindAllOfEach { apps: &apps, selector },
                )
                &&& query_next(listed, QueryReply::ElementsOfEach(lists)) == Query::<
                    'a,
                >::Answered(Answer::ElementsOfEach(lists))
            }
        }),
{
}

/// What looking for one element asks of the host and ends with: in the process of the
/// application that the selector names, or in the applications that are listed, beginning
/// with the first. Where there is no such element, or no application to look in, the
/// selector is reported.
pub proof fn course_of_finding_one<'a>(
    selector: &'a Selector,
    pid: i32,
    found: Option<AccessibilityNode>,
    apps: Vec<(i32, String)>,
)
    ensures
        ({
            let start = Query::Trust {
                app: optional_ref(&selector.app),
                goal: Goal::First(selector),
            };
            let trusted = query_next(start, QueryReply::Trusted(true));
            &&& start.awaited() == Some(QueryCommand::CheckTrust)
            &&& selector.app is Some ==> {
                let inside = query_next(trusted, QueryReply::Pid(Ok(pid)));
                &&& trusted.awaited() == Some(QueryCommand::FindPid(&selector.app->0))
                &&& inside.awaited() == Some(QueryCommand::FindFirst { pid, selector })
                &&& query_next(inside, QueryReply::First(found)) == match found {
                    Some(element) => Query::<'a>::Answered(Answer::First(element)),
                    None => Query::<'a>::Failed(Fault::NoElement(selector)),
                }
            }
            &&& selector.app is None ==> {
                let listed = query_next(trusted, QueryReply::Apps(apps));
                &&& trusted.awaited() == Some(QueryCommand::ListApps)
                &&& apps@.len() == 0 ==> listed == Query::<'a>::Failed(Fault::NoElement(selector))
                &&& apps@.len() > 0 ==> listed == (Query::InTurn { apps, at: 0, selector })
            }
        }),
{
}

/// A query whose application is not found fails with that error.
pub proof fn an_unknown_application_ends_the_query<'a>(
    app: &'a String,
    goal: Goal<'a>,
    e: Error,
)
    ensures
        query_next(
            query_next(Query::Trust { app: Some(app), goal }, QueryReply::Trusted(true)),
            QueryReply::Pid(Err(e)),
        ) == Query::<'a>::Failed(Fault::Raised(e)),
{
}

/// The elements of the applications are put one list behind the other: one list more adds
/// its elements at the end, and nothing else.
pub proof fn one_list_more_comes_last(
    lists: Seq<Vec<AccessibilityNode>>,
    list: Vec<AccessibilityNode>,
)
    ensures
        all_elements(Seq::empty()).len() == 0,
        all_elements(lists.push(list)) == all_elements(lists) + list@,
{
    assert(lists.push(list).drop_last() =~= lists);
}

} // verus!
