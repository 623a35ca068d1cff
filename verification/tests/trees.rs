use agent_computer_use_macos::action::Selector;
use agent_computer_use_macos::error::Error;
use agent_computer_use_macos::listing::{
    app_infos, apps_to_describe, windows, AppInfo, WindowInfo, WINDOW_DEPTH,
};
use agent_computer_use_macos::node::{
    collect_text, find_best_scroll_point, find_largest_scroll_area, system_wide, text,
    AccessibilityNode, Coordinate, Frame, Point, Role, Size,
};
use agent_computer_use_macos::perform::Root;
use agent_computer_use_macos::program::focused;
use agent_computer_use_macos::query::{Query, QueryCommand, QueryReply};
use agent_computer_use_macos::touch::{Task, Touch, TouchCommand, TouchReply};

fn coordinate(value: f64) -> Coordinate {
    Coordinate { bits: value.to_bits(), text: value.to_string() }
}

fn point(x: f64, y: f64) -> Point {
    Point { x: coordinate(x), y: coordinate(y) }
}

fn size(width: f64, height: f64) -> Size {
    Size { width: coordinate(width), height: coordinate(height) }
}

fn frame(x: f64, y: f64, width: f64, height: f64) -> Frame {
    let area = width * height;
    Frame {
        center: point(x + width / 2.0, y + height / 2.0),
        scroll_anchor: point(x + width * 0.65, y + height * 0.5),
        area: if area > 0.0 { area.to_bits() } else { 0 },
    }
}

fn node(role: Role, name: Option<&str>, children: Vec<AccessibilityNode>) -> AccessibilityNode {
    AccessibilityNode {
        role,
        name: name.map(|n| n.to_string()),
        value: None,
        description: None,
        id: None,
        position: None,
        size: None,
        frame: None,
        focused: None,
        enabled: None,
        pid: None,
        children,
    }
}

fn placed(role: Role, x: f64, y: f64, width: f64, height: f64) -> AccessibilityNode {
    let mut n = node(role, None, vec![]);
    n.position = Some(point(x, y));
    n.size = Some(size(width, height));
    n.frame = Some(frame(x, y, width, height));
    n
}

fn other() -> Role {
    Role::Other("Group".to_string())
}

fn selector(app: Option<&str>) -> Selector {
    Selector { app: app.map(|a| a.to_string()), shown: "Selector { role: button }".to_string() }
}

#[test]
fn text_is_collected_from_the_top_down() {
    let mut field = node(Role::TextField, Some("label"), vec![]);
    field.value = Some("typed".to_string());
    let mut empty = node(Role::StaticText, Some("label"), vec![]);
    empty.value = Some(String::new());
    let mut button = node(other(), Some("Press"), vec![]);
    button.value = Some("ignored".to_string());
    let tree = node(
        Role::Window,
        Some("Title"),
        vec![
            node(other(), Some(""), vec![field, node(Role::Link, Some(""), vec![])]),
            node(Role::Heading, Some("Head"), vec![]),
            empty,
            node(Role::Paragraph, None, vec![]),
            button,
        ],
    );
    let mut parts = vec!["before".to_string()];
    collect_text(&tree, &mut parts);
    assert_eq!(parts, vec!["before", "Title", "typed", "", "Head", "", "Press"]);
    assert_eq!(text(&tree), "Title\ntyped\n\nHead\n\nPress");
    assert_eq!(text(&node(other(), None, vec![])), "");
}

#[test]
fn the_largest_scroll_area_is_scrolled_in() {
    let mut unplaced = node(Role::ScrollArea, None, vec![]);
    unplaced.size = Some(size(9000.0, 9000.0));
    let window = node(
        Role::Window,
        None,
        vec![
            placed(Role::ScrollArea, 0.0, 0.0, 10.0, 10.0),
            placed(other(), 0.0, 0.0, 500.0, 500.0),
            node(other(), None, vec![placed(Role::ScrollArea, 100.0, 50.0, 40.0, 20.0)]),
            placed(Role::ScrollArea, 7.0, 7.0, 20.0, 40.0),
            unplaced,
        ],
    );
    let tree = node(other(), None, vec![window]);
    assert_eq!(find_best_scroll_point(&tree), Some(point(120.0, 60.0)));
    let mut best = Some(point(1.0, 2.0));
    let mut area = 1000.0f64.to_bits();
    find_largest_scroll_area(&tree, &mut best, &mut area);
    assert_eq!((best, area), (Some(point(1.0, 2.0)), 1000.0f64.to_bits()));
}

#[test]
fn without_scroll_areas_the_first_window_is_scrolled_in() {
    let flat = placed(Role::ScrollArea, 0.0, 0.0, 0.0, 50.0);
    let tree = node(other(), None, vec![placed(Role::Window, 100.0, 10.0, 200.0, 80.0), flat]);
    assert_eq!(find_best_scroll_point(&tree), Some(point(230.0, 50.0)));
    let tree = node(
        other(),
        None,
        vec![node(Role::Window, None, vec![]), placed(Role::Window, 0.0, 0.0, 9.0, 9.0)],
    );
    assert_eq!(find_best_scroll_point(&tree), None);
    assert_eq!(find_best_scroll_point(&node(other(), None, vec![])), None);
}

#[test]
fn elements_have_a_centre_where_they_are_placed() {
    assert_eq!(placed(other(), 10.0, 20.0, 30.0, 40.0).center(), Some(point(25.0, 40.0)));
    assert_eq!(node(other(), None, vec![]).center(), None);
}

#[test]
fn the_system_node_stands_above_the_trees() {
    let root = system_wide(vec![node(other(), Some("a"), vec![])]);
    assert_eq!(root, node(Role::SystemWide, Some("System"), vec![node(other(), Some("a"), vec![])]));
}

#[test]
fn applications_are_described() {
    let apps = vec![(1, "A".to_string()), (2, "B".to_string()), (-1, "C".to_string())];
    let infos = app_infos(&apps, &vec![Some(true), None, Some(false)]);
    let info = |name: &str, pid, frontmost| AppInfo {
        name: name.to_string(),
        pid,
        frontmost,
        bundle_id: None,
    };
    assert_eq!(infos, vec![info("A", 1, true), info("B", 2, false), info("C", u32::MAX, false)]);
}

#[test]
fn windows_are_described_application_by_application() {
    let mut first = placed(Role::Window, 1.0, 2.0, 3.0, 4.0);
    first.name = Some("Inbox".to_string());
    let inner = node(other(), None, vec![node(Role::Window, Some("deep"), vec![])]);
    let trees = vec![
        node(other(), None, vec![first, inner]),
        node(other(), None, vec![]),
        node(other(), None, vec![node(Role::Window, None, vec![])]),
    ];
    let apps = vec![(5, "Mail".to_string()), (6, "Idle".to_string()), (7, "Notes".to_string())];
    let found = windows(&apps, &trees);
    assert_eq!(
        found,
        vec![
            WindowInfo {
                title: "Inbox".to_string(),
                app: "Mail".to_string(),
                pid: 5,
                position: Some(point(1.0, 2.0)),
                size: Some(size(3.0, 4.0)),
                minimized: None,
                frontmost: None,
            },
            WindowInfo {
                title: "(untitled)".to_string(),
                app: "Notes".to_string(),
                pid: 7,
                position: None,
                size: None,
                minimized: None,
                frontmost: None,
            },
        ]
    );
}

#[test]
fn nothing_is_read_without_permission() {
    let wanted = selector(Some("Mail"));
    let denied = || {
        Err(Error::PermissionDenied {
            message: "Accessibility permission not granted. Go to System Settings > Privacy & \
                      Security > Accessibility and add this application."
                .to_string(),
        })
    };
    let tree = Query::tree(None, None);
    assert_eq!(tree.command(), Some(QueryCommand::CheckTrust));
    assert_eq!(tree.step(QueryReply::Trusted(false)).into_tree(), denied());
    assert_eq!(
        Query::find_one(&wanted).step(QueryReply::Trusted(false)).into_first(),
        denied()
    );
    match Query::find(&wanted).step(QueryReply::Trusted(false)).into_elements() {
        Err(error) => assert_eq!(Err(error), denied()),
        Ok(_) => panic!(),
    }
}

#[test]
fn the_tree_of_one_application_is_read() {
    let app = "Mail".to_string();
    let query = Query::tree(Some(&app), Some(4)).step(QueryReply::Trusted(true));
    assert_eq!(query.command(), Some(QueryCommand::FindPid(&app)));
    let query = query.step(QueryReply::Pid(Ok(9)));
    assert_eq!(
        query.command(),
        Some(QueryCommand::Describe { pid: 9, max_depth: Some(4), level: 0 })
    );
    let query = query.step(QueryReply::Tree(node(other(), Some("x"), vec![])));
    assert_eq!(query.command(), None);
    assert_eq!(query.into_tree(), Ok(node(other(), Some("x"), vec![])));
}

#[test]
fn the_trees_of_all_applications_are_read() {
    let apps = vec![(1, "A".to_string()), (2, "B".to_string())];
    let query = Query::tree(None, None).step(QueryReply::Trusted(true));
    assert_eq!(query.command(), Some(QueryCommand::ListApps));
    let query = query.step(QueryReply::Apps(apps.clone()));
    assert_eq!(
        query.command(),
        Some(QueryCommand::DescribeEach { apps: &apps, max_depth: None, level: 1 })
    );
    let trees = || vec![node(other(), Some("a"), vec![]), node(other(), Some("b"), vec![])];
    let query = query.step(QueryReply::Trees(trees()));
    let root = query.into_tree().unwrap();
    assert_eq!(root.children.len(), apps.len());
    assert_eq!(root, system_wide(trees()));
}

#[test]
fn without_applications_the_system_has_no_children() {
    let query = Query::tree(None, Some(3))
        .step(QueryReply::Trusted(true))
        .step(QueryReply::Apps(vec![]))
        .step(QueryReply::Trees(vec![]));
    assert_eq!(query.into_tree(), Ok(system_wide(vec![])));
}

#[test]
fn windows_are_listed_of_the_applications_meant() {
    let running = || vec![(1, "Mail".to_string()), (2, "Notes".to_string())];
    assert_eq!(apps_to_describe(None, running()), Ok(running()));
    assert_eq!(apps_to_describe(Some("NOTES"), running()), Ok(vec![(2, "Notes".to_string())]));
    assert_eq!(apps_to_describe(Some("pid:7"), running()), Ok(vec![(7, "pid:7".to_string())]));
    assert_eq!(
        apps_to_describe(Some("Safari"), running()),
        Err(Error::ApplicationNotFound { name: "Safari".to_string() })
    );
    assert_eq!(WINDOW_DEPTH, 1);
}

#[test]
fn all_matches_are_found() {
    let wanted = selector(None);
    let apps = vec![(1, "A".to_string()), (2, "B".to_string()), (3, "C".to_string())];
    let query = Query::find(&wanted).step(QueryReply::Trusted(true));
    assert_eq!(query.command(), Some(QueryCommand::ListApps));
    let query = query.step(QueryReply::Apps(apps.clone()));
    assert_eq!(
        query.command(),
        Some(QueryCommand::FindAllOfEach { apps: &apps, selector: &wanted })
    );
    let named = |name| node(other(), Some(name), vec![]);
    let query = query.step(QueryReply::ElementsOfEach(vec![
        vec![named("1"), named("2")],
        vec![],
        vec![named("3")],
    ]));
    assert_eq!(query.into_elements(), Ok(vec![named("1"), named("2"), named("3")]));

    let inside = selector(Some("A"));
    let query = Query::find(&inside)
        .step(QueryReply::Trusted(true))
        .step(QueryReply::Pid(Ok(1)));
    assert_eq!(query.command(), Some(QueryCommand::FindAll { pid: 1, selector: &inside }));
    let query = query.step(QueryReply::Elements(vec![named("4")]));
    assert_eq!(query.into_elements(), Ok(vec![named("4")]));
}

#[test]
fn the_first_match_ends_the_search() {
    let wanted = selector(None);
    let apps = || vec![(1, "A".to_string()), (2, "B".to_string()), (3, "C".to_string())];
    let hunt = || {
        Query::find_one(&wanted)
            .step(QueryReply::Trusted(true))
            .step(QueryReply::Apps(apps()))
    };
    let query = hunt();
    assert_eq!(query.command(), Some(QueryCommand::FindFirst { pid: 1, selector: &wanted }));
    let query = query.step(QueryReply::First(None));
    assert_eq!(query.command(), Some(QueryCommand::FindFirst { pid: 2, selector: &wanted }));
    let query = query.step(QueryReply::First(Some(node(other(), Some("hit"), vec![]))));
    assert_eq!(query.into_first(), Ok(node(other(), Some("hit"), vec![])));

    let missed = hunt()
        .step(QueryReply::First(None))
        .step(QueryReply::First(None))
        .step(QueryReply::First(None));
    let missing = || {
        Err(Error::ElementNotFound { message: "Selector { role: button }".to_string() })
    };
    assert_eq!(missed.into_first(), missing());
    let nothing_runs = Query::find_one(&wanted)
        .step(QueryReply::Trusted(true))
        .step(QueryReply::Apps(vec![]));
    assert_eq!(nothing_runs.into_first(), missing());
    let inside = selector(Some("A"));
    let query = Query::find_one(&inside)
        .step(QueryReply::Trusted(true))
        .step(QueryReply::Pid(Ok(1)))
        .step(QueryReply::First(None));
    assert_eq!(query.into_first(), missing());
    let lost = Query::find_one(&inside)
        .step(QueryReply::Trusted(true))
        .step(QueryReply::Pid(Err(Error::ApplicationNotFound { name: "A".to_string() })));
    assert_eq!(lost.into_first(), Err(Error::ApplicationNotFound { name: "A".to_string() }));
}

#[test]
fn the_focused_element_is_reported() {
    assert_eq!(
        focused(Some(node(other(), Some("f"), vec![]))),
        Ok(node(other(), Some("f"), vec![]))
    );
    assert_eq!(
        focused(None),
        Err(Error::ElementNotFound { message: "no element is currently focused".to_string() })
    );
}

#[test]
fn pressing_reports_no_error() {
    let inside = selector(Some("A"));
    let lost = || Error::ApplicationNotFound { name: "A".to_string() };
    let press = Touch::start(&inside, Task::Press).step(TouchReply::Pid(Err(lost())));
    assert_eq!(press.pressed(), None);
    let anywhere = selector(None);
    let press = Touch::start(&anywhere, Task::Press);
    assert_eq!(press.command(), Some(TouchCommand::Press(Root::System, &anywhere)));
    let press = press.step(TouchReply::Success(false));
    assert_eq!(press.pressed(), None);
    let scroll = Touch::start(&inside, Task::ScrollToVisible).step(TouchReply::Pid(Err(lost())));
    assert_eq!(scroll.finish(), Err(lost()));
}

#[test]
fn elements_are_scrolled_to() {
    let anywhere = selector(None);
    let scroll = Touch::start(&anywhere, Task::ScrollToVisible);
    assert_eq!(scroll.command(), Some(TouchCommand::ScrollToVisible(Root::System, &anywhere)));
    assert_eq!(scroll.step(TouchReply::Success(true)).finish(), Ok(true));
}

#[test]
fn values_are_set_and_elements_let_go() {
    let inside = selector(Some("A"));
    let value = "new".to_string();
    let found = || {
        Touch::start(&inside, Task::SetValue(&value))
            .step(TouchReply::Pid(Ok(3)))
            .step(TouchReply::Success(true))
    };
    let start = Touch::start(&inside, Task::SetValue(&value)).step(TouchReply::Pid(Ok(3)));
    assert_eq!(start.command(), Some(TouchCommand::FindElement(Root::Application(3), &inside)));
    assert_eq!(start.step(TouchReply::Success(false)).finish(), Ok(false));
    assert_eq!(found().command(), Some(TouchCommand::SetValue(&value)));
    for success in [true, false] {
        let set = found().step(TouchReply::Success(success));
        assert_eq!(set.command(), Some(TouchCommand::ReleaseElement));
        assert_eq!(set.step(TouchReply::Released).finish(), Ok(success));
    }
}
