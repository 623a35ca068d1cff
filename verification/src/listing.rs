//! What is reported of applications and of their windows.

use vstd::prelude::*;

use crate::apps::find_app_pids;
#[allow(unused_imports)]
use crate::apps::{apps_meant, ascends, listed, one_place_more};
use crate::error::Error;
#[allow(unused_imports)]
use crate::error::ErrorView;
use crate::node::{AccessibilityNode, Point, Role, Size};

verus! {

/// A running application.
#[derive(Debug, PartialEq, Eq)]
pub struct AppInfo {
    pub name: String,
    pub pid: u32,
    pub frontmost: bool,
    pub bundle_id: Option<String>,
}

/// How the running applications are described.
pub open spec fn described(apps: Seq<(i32, String)>, frontmost: Seq<Option<bool>>) -> Seq<AppInfo> {
    Seq::new(
        apps.len(),
        |i: int|
            AppInfo {
                name: apps[i].1,
                pid: apps[i].0 as u32,
                frontmost: frontmost[i] == Some(true),
                bundle_id: None,
            },
    )
}

/// Describes the running applications. `frontmost` says of each whether it is in
/// front, where that is known; what is not known to be in front is not.
pub fn app_infos(apps: &Vec<(i32, String)>, frontmost: &Vec<Option<bool>>) -> (r: Vec<AppInfo>)
    requires
        apps.len() == frontmost.len(),
    ensures
        r@ == described(apps@, frontmost@),
        r@.len() == apps@.len(),
        forall|i: int|
            0 <= i < r@.len() ==> #[trigger] r@[i] == (AppInfo {
                name: apps@[i].1,
                pid: apps@[i].0 as u32,
                frontmost: frontmost@[i] == Some(true),
                bundle_id: None,
            }),
{
    let mut infos: Vec<AppInfo> = Vec::new();
    let mut i: usize = 0;
    while i < apps.len()
        invariant
            i <= apps.len(),
            apps.len() == frontmost.len(),
            infos@.len() == i,
            forall|j: int|
                0 <= j < i ==> #[trigger] infos@[j] == (AppInfo {
                    name: apps@[j].1,
                    pid: apps@[j].0 as u32,
                    frontmost: frontmost@[j] == Some(true),
                    bundle_id: None,
                }),
        decreases apps.len() - i,
    {
        let in_front = match frontmost[i] {
            Some(known) => known,
            None => false,
        };
        infos.push(
            AppInfo {
                name: apps[i].1.clone(),
                pid: apps[i].0 as u32,
                frontmost: in_front,
                bundle_id: None,
            },
        );
        i += 1;
    }
    infos
}

/// How many levels below an application are described to list its windows.
pub const WINDOW_DEPTH: u32 = 1;

/// The applications whose windows to describe: those that the name means or, where
/// none is given, all that run.
pub fn apps_to_describe(app: Option<&str>, running: Vec<(i32, String)>) -> (r: Result<
    Vec<(i32, String)>,
    Error,
>)
    ensures
        match app {
            None => r is Ok && r->Ok_0 == running,
            Some(name) => match r {
                Ok(found) => {
                    &&& listed(found@) == apps_meant(name@, listed(running@))
                    &&& found@.len() > 0
                },
                Err(e) => {
                    &&& apps_meant(name@, listed(running@)).len() == 0
                    &&& e@ == (ErrorView::ApplicationNotFound { name: name@ })
                },
            },
        },
{
    match app {
        Some(name) => find_app_pids(name, &running),
        None => Ok(running),
    }
}

/// A window of a running application.
#[derive(Debug, PartialEq, Eq)]
pub struct WindowInfo {
    pub title: String,
    pub app: String,
    pub pid: u32,
    pub position: Option<Point>,
    pub size: Option<Size>,
    pub minimized: Option<bool>,
    pub frontmost: Option<bool>,
}

/// A window, with its texts.
pub struct WindowInfoView {
    pub title: Seq<char>,
    pub app: Seq<char>,
    pub pid: u32,
    pub position: Option<Point>,
    pub size: Option<Size>,
    pub minimized: Option<bool>,
    pub frontmost: Option<bool>,
}

impl View for WindowInfo {
    type V = WindowInfoView;

    open spec fn view(&self) -> WindowInfoView {
        WindowInfoView {
            title: self.title@,
            app: self.app@,
            pid: self.pid,
            position: self.position,
            size: self.size,
            minimized: self.minimized,
            frontmost: self.frontmost,
        }
    }
}

/// A list of windows, with their texts.
pub open spec fn window_views(v: Seq<WindowInfo>) -> Seq<WindowInfoView> {
    v.map_values(|w: WindowInfo| w@)
}

/// How an element of an application is reported as a window.
pub open spec fn window_info(app: (i32, String), element: AccessibilityNode) -> WindowInfoView {
    WindowInfoView {
        title: match element.name {
            Some(name) => name@,
            None => "(untitled)"@,
        },
        app: app.1@,
        pid: app.0 as u32,
        position: element.position,
        size: element.size,
        minimized: None,
        frontmost: None,
    }
}

/// The windows among the elements directly below an application, in order.
pub open spec fn windows_of(app: (i32, String), elements: Seq<AccessibilityNode>) -> Seq<
    WindowInfoView,
>
    decreases elements.len(),
{
    if elements.len() == 0 {
        Seq::empty()
    } else {
        let rest = windows_of(app, elements.drop_last());
        if elements.last().role is Window {
            rest.push(window_info(app, elements.last()))
        } else {
            rest
        }
    }
}

/// The windows of the applications, one application after the other; `trees` are the
/// applications' trees.
pub open spec fn all_windows(apps: Seq<(i32, String)>, trees: Seq<AccessibilityNode>) -> Seq<
    WindowInfoView,
>
    decreases apps.len(),
{
    if apps.len() == 0 {
        Seq::empty()
    } else {
        all_windows(apps.drop_last(), trees) + windows_of(
            apps.last(),
            trees[apps.len() - 1].children@,
        )
    }
}

fn copy_position(position: &Option<Point>) -> (r: Option<Point>)
    ensures
        r == *position,
{
    match position {
        Some(point) => Some(point.copy()),
        None => None,
    }
}

fn copy_size(size: &Option<Size>) -> (r: Option<Size>)
    ensures
        r == *size,
{
    match size {
        Some(size) => Some(size.copy()),
        None => None,
    }
}

/// Adds the windows of one application to `windows`.
fn add_windows_of(
    app: &(i32, String),
    elements: &Vec<AccessibilityNode>,
    windows: &mut Vec<WindowInfo>,
)
    ensures
        window_views(final(windows)@) == window_views(old(windows)@) + windows_of(*app, elements@),
{
    let mut i: usize = 0;
    while i < elements.len()
        invariant
            i <= elements.len(),
            window_views(windows@) =~= window_views(old(windows)@) + windows_of(
                *app,
                elements@.take(i as int),
            ),
        decreases elements.len() - i,
    {
        let element = &elements[i];
        assert(elements@.take(i + 1).drop_last() =~= elements@.take(i as int));
        assert(elements@.take(i + 1).last() == *element);
        if let Role::Window = element.role {
            let title = match &element.name {
                Some(name) => name.clone(),
                None => "(untitled)".to_owned(),
            };
            let info = WindowInfo {
                title,
                app: app.1.clone(),
                pid: app.0 as u32,
                position: copy_position(&element.position),
                size: copy_size(&element.size),
                minimized: None,
                frontmost: None,
            };
            assert(info@ == window_info(*app, *element));
            let ghost before = windows@;
            windows.push(info);
            assert(window_views(windows@) =~= window_views(before).push(info@));
        }
        i += 1;
    }
    assert(elements@.take(elements@.len() as int) =~= elements@);
}

/// Describes the windows of the applications. `trees` holds each application's tree,
/// `WINDOW_DEPTH` levels deep.
pub fn windows(apps: &Vec<(i32, String)>, trees: &Vec<AccessibilityNode>) -> (r: Vec<WindowInfo>)
    requires
        apps.len() == trees.len(),
    ensures
        window_views(r@) == all_windows(apps@, trees@),
{
    let mut found: Vec<WindowInfo> = Vec::new();
    let mut i: usize = 0;
    assert(window_views(found@) =~= all_windows(apps@.take(0), trees@));
    while i < apps.len()
        invariant
            i <= apps.len(),
            apps.len() == trees.len(),
            window_views(found@) == all_windows(apps@.take(i as int), trees@),
        decreases apps.len() - i,
    {
        assert(apps@.take(i + 1).drop_last() =~= apps@.take(i as int));
        add_windows_of(&apps[i], &trees[i].children, &mut found);
        i += 1;
    }
    assert(apps@.take(apps@.len() as int) =~= apps@);
    found
}

/// Whether one pair of places comes before another.
pub open spec fn comes_before(a: (int, int), b: (int, int)) -> bool {
    a.0 < b.0 || (a.0 == b.0 && a.1 < b.1)
}

proof fn window_places(app: (i32, String), elements: Seq<AccessibilityNode>) -> (at: Seq<int>)
    ensures
        ascends(at),
        at.len() == windows_of(app, elements).len(),
        forall|k: int|
            0 <= k < at.len() ==> 0 <= #[trigger] at[k] < elements.len() && windows_of(
                app,
                elements,
            )[k] == window_info(app, elements[at[k]]),
        forall|i: int|
            0 <= i < elements.len() ==> (#[trigger] at.contains(i) <==> elements[i].role is Window),
    decreases elements.len(),
{
    if elements.len() == 0 {
        Seq::empty()
    } else {
        let before = elements.drop_last();
        let n = elements.len() - 1;
        let rest = window_places(app, before);
        one_place_more(rest, n);
        assert(!rest.contains(n));
        let at = if elements[n].role is Window {
            rest.push(n)
        } else {
            rest
        };
        assert forall|k: int| 0 <= k < at.len() implies 0 <= #[trigger] at[k] < elements.len()
            && windows_of(app, elements)[k] == window_info(app, elements[at[k]]) by {
            if k < rest.len() {
                assert(at[k] == rest[k]);
                assert(before[rest[k]] == elements[rest[k]]);
            }
        }
        assert forall|i: int| 0 <= i < elements.len() implies (#[trigger] at.contains(i)
            <==> elements[i].role is Window) by {
            if i < n {
                assert(before[i] == elements[i]);
                assert(rest.contains(i) <==> before[i].role is Window);
            }
        }
        at
    }
}

/// Every window is reported, and nothing else: the elements of the role of a window that
/// stand directly below an application, application by application and in their order.
/// Each is reported by its name, or as untitled where it has none, with the name and the
/// number of its application, and with its position and size.
///
/// The places of the windows, of the application and below it, are returned.
pub proof fn every_window_is_reported(
    apps: Seq<(i32, String)>,
    trees: Seq<AccessibilityNode>,
) -> (at: Seq<(int, int)>)
    requires
        apps.len() == trees.len(),
    ensures
        at.len() == all_windows(apps, trees).len(),
        forall|m: int|
            0 <= m < at.len() ==> {
                let (k, i) = #[trigger] at[m];
                let element = trees[k].children@[i];
                &&& 0 <= k < apps.len()
                &&& 0 <= i < trees[k].children@.len()
                &&& all_windows(apps, trees)[m] == (WindowInfoView {
                    title: if element.name is Some {
                        element.name->0@
                    } else {
                        "(untitled)"@
                    },
                    app: apps[k].1@,
                    pid: apps[k].0 as u32,
                    position: element.position,
                    size: element.size,
                    minimized: None,
                    frontmost: None,
                })
            },
        forall|m: int, n: int|
            0 <= m < n < at.len() ==> comes_before(#[trigger] at[m], #[trigger] at[n]),
        forall|k: int, i: int|
            0 <= k < apps.len() && 0 <= i < trees[k].children@.len() ==> (#[trigger] at.contains(
                (k, i),
            ) <==> trees[k].children@[i].role is Window),
{
    reported_places(apps, trees)
}

proof fn reported_places(apps: Seq<(i32, String)>, trees: Seq<AccessibilityNode>) -> (at: Seq<
    (int, int),
>)
    requires
        apps.len() <= trees.len(),
    ensures
        at.len() == all_windows(apps, trees).len(),
        forall|m: int|
            0 <= m < at.len() ==> {
                let (k, i) = #[trigger] at[m];
                &&& 0 <= k < apps.len()
                &&& 0 <= i < trees[k].children@.len()
                &&& all_windows(apps, trees)[m] == window_info(apps[k], trees[k].children@[i])
            },
        forall|m: int, n: int|
            0 <= m < n < at.len() ==> comes_before(#[trigger] at[m], #[trigger] at[n]),
        forall|k: int, i: int|
            0 <= k < apps.len() && 0 <= i < trees[k].children@.len() ==> (#[trigger] at.contains(
                (k, i),
            ) <==> trees[k].children@[i].role is Window),
    decreases apps.len(),
{
    if apps.len() == 0 {
        Seq::empty()
    } else {
        let before = apps.drop_last();
        let n = apps.len() - 1;
        let rest = reported_places(before, trees);
        let own = window_places(apps[n], trees[n].children@);
        let more = Seq::new(own.len(), |k: int| (n, own[k]));
        let at = rest + more;
        assert forall|m: int| 0 <= m < at.len() implies {
            let (k, i) = #[trigger] at[m];
            &&& 0 <= k < apps.len()
            &&& 0 <= i < trees[k].children@.len()
            &&& all_windows(apps, trees)[m] == window_info(apps[k], trees[k].children@[i])
        } by {
            if m < rest.len() {
                assert(at[m] == rest[m]);
                assert(before[rest[m].0] == apps[rest[m].0]);
            } else {
                let j = m - rest.len();
                assert(at[m] == (n, own[j]));
            }
        }
        assert forall|m: int, l: int| 0 <= m < l < at.len() implies comes_before(
            #[trigger] at[m],
            #[trigger] at[l],
        ) by {
            if l < rest.len() {
                assert(comes_before(rest[m], rest[l]));
            } else if m < rest.len() {
                assert(at[m] == rest[m]);
            } else {
                assert(own[m - rest.len()] < own[l - rest.len()]);
            }
        }
        assert forall|k: int, i: int|
            0 <= k < apps.len() && 0 <= i < trees[k].children@.len() implies (
        #[trigger] at.contains((k, i)) <==> trees[k].children@[i].role is Window) by {
            if k < n {
                assert(rest.contains((k, i)) <==> trees[k].children@[i].role is Window);
                if rest.contains((k, i)) {
                    let m = choose|m: int| 0 <= m < rest.len() && rest[m] == (k, i);
                    assert(at[m] == (k, i));
                }
                if at.contains((k, i)) {
                    let m = choose|m: int| 0 <= m < at.len() && at[m] == (k, i);
                    assert(m < rest.len());
                    assert(rest[m] == (k, i));
                }
            } else {
                assert(own.contains(i) <==> trees[k].children@[i].role is Window);
                if own.contains(i) {
                    let j = choose|j: int| 0 <= j < own.len() && own[j] == i;
                    assert(at[rest.len() + j] == (k, i));
                }
                if at.contains((k, i)) {
                    let m = choose|m: int| 0 <= m < at.len() && at[m] == (k, i);
                    if m < rest.len() {
                        assert(rest[m].0 < n);
                    }
                    assert(own[m - rest.len()] == i);
                }
            }
        }
        at
    }
}

/// Every running application is described, in the order of the list: by its own name and
/// number, in front exactly if that is known of it, and without a bundle.
pub proof fn every_application_is_described(
    apps: Seq<(i32, String)>,
    frontmost: Seq<Option<bool>>,
    i: int,
)
    requires
        0 <= i < apps.len(),
        apps.len() == frontmost.len(),
    ensures
        described(apps, frontmost).len() == apps.len(),
        described(apps, frontmost)[i].name == apps[i].1,
        described(apps, frontmost)[i].pid == apps[i].0 as u32,
        described(apps, frontmost)[i].frontmost <==> frontmost[i] == Some(true),
        described(apps, frontmost)[i].bundle_id is None,
{
}

/// A list of windows shows all of them, in their order, with all that is reported of them.
pub proof fn every_window_is_shown(windows: Seq<WindowInfo>, i: int)
    requires
        0 <= i < windows.len(),
    ensures
        window_views(windows).len() == windows.len(),
        ({
            let shown = window_views(windows)[i];
            &&& shown.title == windows[i].title@
            &&& shown.app == windows[i].app@
            &&& shown.pid == windows[i].pid
            &&& shown.position == windows[i].position
            &&& shown.size == windows[i].size
            &&& shown.minimized == windows[i].minimized
            &&& shown.frontmost == windows[i].frontmost
        }),
{
}

} // verus!
