use agent_computer_use_macos::action::{
    Action, ActionResult, MouseButton, ProgramEnd, ScrollDirection, Selector,
};
use agent_computer_use_macos::error::Error;
use agent_computer_use_macos::node::{AccessibilityNode, Coordinate, Frame, Point, Role, Size};
use agent_computer_use_macos::perform::{
    Command, Key, Perform, Reply, Root, ELEMENT_DEPTH, SCROLL_DEPTH,
};

fn coordinate(value: f64) -> Coordinate {
    Coordinate { bits: value.to_bits(), text: value.to_string() }
}

fn point(x: f64, y: f64) -> Point {
    Point { x: coordinate(x), y: coordinate(y) }
}

/// An element of two by two around that place, or one whose place is not known.
fn element(center: Option<(f64, f64)>) -> AccessibilityNode {
    AccessibilityNode {
        role: Role::ScrollArea,
        name: None,
        value: None,
        description: None,
        id: None,
        position: center.map(|(x, y)| point(x - 1.0, y - 1.0)),
        size: center.map(|_| Size { width: coordinate(2.0), height: coordinate(2.0) }),
        frame: center.map(|(x, y)| Frame {
            center: point(x, y),
            scroll_anchor: point(x - 1.0 + 2.0 * 0.65, y),
            area: 4.0f64.to_bits(),
        }),
        focused: None,
        enabled: None,
        pid: None,
        children: vec![],
    }
}

fn selector(app: Option<&str>) -> Selector {
    Selector { app: app.map(|a| a.to_string()), shown: "Selector(x)".to_string() }
}

fn done() -> Reply {
    Reply::Done(Ok(()))
}

fn platform_error(message: &str) -> Error {
    Error::PlatformError { message: message.to_string() }
}

fn succeeded(message: &str) -> Result<ActionResult, Error> {
    Ok(ActionResult {
        success: true,
        message: Some(message.to_string()),
        path: None,
        data: None,
    })
}

/// Follows an action through, and checks each command against the one expected.
fn follow(action: &Action, course: Vec<(Command<'_>, Reply)>) -> Result<ActionResult, Error> {
    let scratch = "/tmp/scratch.png".to_string();
    let mut state = Perform::start(action, &scratch);
    for (command, reply) in course {
        assert_eq!(state.command(), Some(command));
        state = state.step(reply);
    }
    assert_eq!(state.command(), None);
    state.finish()
}

fn click(selector: Option<Selector>, coordinates: Option<Point>) -> Action {
    Action::Click { selector, coordinates, button: MouseButton::Right, count: 2 }
}

#[test]
fn places_are_clicked() {
    let at = point(10.0, 20.5);
    let plain = |pid| Command::Click { point: &at, button: MouseButton::Right, count: 2, pid };
    let action = click(None, Some(point(10.0, 20.5)));
    assert_eq!(follow(&action, vec![(plain(None), done())]), succeeded("clicked at (10, 20.5)"));
    let action = click(Some(selector(None)), Some(point(10.0, 20.5)));
    assert_eq!(follow(&action, vec![(plain(None), done())]), succeeded("clicked at (10, 20.5)"));
    let app = "Mail".to_string();
    let action = click(Some(selector(Some("Mail"))), Some(point(10.0, 20.5)));
    let course = vec![
        (Command::FindPid(&app), Reply::Pid(Ok(4))),
        (plain(Some(4)), done()),
    ];
    assert_eq!(follow(&action, course), succeeded("clicked at (10, 20.5)"));
}

#[test]
fn elements_are_clicked() {
    let at = point(1.0, 2.0);
    let app = "Mail".to_string();
    let wanted = selector(Some("Mail"));
    let action = click(Some(selector(Some("Mail"))), None);
    let course = vec![
        (Command::FindOne(&wanted), Reply::One(Ok(element(Some((1.0, 2.0)))))),
        (Command::FindPid(&app), Reply::Pid(Ok(4))),
        (
            Command::Click { point: &at, button: MouseButton::Right, count: 2, pid: Some(4) },
            done(),
        ),
    ];
    assert_eq!(follow(&action, course), succeeded("clicked at (1, 2)"));
    let anywhere = selector(None);
    let action = click(Some(selector(None)), None);
    let course = vec![
        (Command::FindOne(&anywhere), Reply::One(Ok(element(Some((1.0, 2.0)))))),
        (Command::Click { point: &at, button: MouseButton::Right, count: 2, pid: None }, done()),
    ];
    assert_eq!(follow(&action, course), succeeded("clicked at (1, 2)"));
    let course = vec![(Command::FindOne(&anywhere), Reply::One(Ok(element(None))))];
    assert_eq!(
        follow(&action, course),
        Err(platform_error("element has no position/size — cannot compute click target"))
    );
}

#[test]
fn the_process_is_looked_for_before_the_place() {
    let app = "Mail".to_string();
    let wanted = selector(Some("Mail"));
    let action = click(Some(selector(Some("Mail"))), None);
    let lost = || Error::ApplicationNotFound { name: "Mail".to_string() };
    let course = vec![
        (Command::FindOne(&wanted), Reply::One(Ok(element(None)))),
        (Command::FindPid(&app), Reply::Pid(Err(lost()))),
    ];
    assert_eq!(follow(&action, course), Err(lost()));
}

#[test]
fn clicks_and_moves_need_a_place() {
    assert_eq!(
        follow(&click(None, None), vec![]),
        Err(platform_error("click requires either a selector or coordinates"))
    );
    assert_eq!(
        follow(&Action::MoveMouse { selector: None, coordinates: None }, vec![]),
        Err(platform_error("move_mouse requires either a selector or coordinates"))
    );
}

#[test]
fn text_replaces_what_an_element_holds() {
    let app = "Mail".to_string();
    let wanted = selector(Some("Mail"));
    let at = point(1.0, 2.0);
    let text = "né".to_string();
    let action = Action::Type {
        text: text.clone(),
        selector: Some(selector(Some("Mail"))),
        submit: true,
    };
    let course = vec![
        (Command::FindPid(&app), Reply::Pid(Ok(4))),
        (Command::FindElement(Root::Application(4), &wanted), Reply::Found(true)),
        (Command::DescribeElement, Reply::Described(element(Some((1.0, 2.0))))),
        (Command::ReleaseElement, done()),
        (Command::Activate(&app), done()),
        (Command::Click { point: &at, button: MouseButton::Left, count: 1, pid: None }, done()),
        (Command::Pause(100), done()),
        (Command::PressKey(Key::SelectAll), done()),
        (Command::Pause(50), done()),
        (Command::PressKey(Key::Backspace), done()),
        (Command::Pause(100), done()),
        (Command::TypeText(&text), done()),
        (Command::Pause(100), done()),
        (Command::PressKey(Key::Return), done()),
    ];
    assert_eq!(follow(&action, course), succeeded("typed 3 characters and submitted"));
}

#[test]
fn text_goes_into_an_element_found_anywhere() {
    let wanted = selector(None);
    let at = point(1.0, 2.0);
    let text = "ab".to_string();
    let action =
        Action::Type { text: text.clone(), selector: Some(selector(None)), submit: false };
    let course = vec![
        (Command::FindElement(Root::System, &wanted), Reply::Found(true)),
        (Command::DescribeElement, Reply::Described(element(Some((1.0, 2.0))))),
        (Command::ReleaseElement, done()),
        (Command::Click { point: &at, button: MouseButton::Left, count: 1, pid: None }, done()),
        (Command::Pause(100), done()),
        (Command::PressKey(Key::SelectAll), done()),
        (Command::Pause(50), done()),
        (Command::PressKey(Key::Backspace), done()),
        (Command::Pause(100), done()),
        (Command::TypeText(&text), done()),
    ];
    assert_eq!(follow(&action, course), succeeded("typed 2 characters"));
}

#[test]
fn elements_to_type_into_are_let_go_of() {
    let wanted = selector(None);
    let action =
        Action::Type { text: "a".to_string(), selector: Some(selector(None)), submit: false };
    let course = vec![(Command::FindElement(Root::System, &wanted), Reply::Found(false))];
    assert_eq!(
        follow(&action, course),
        Err(Error::ElementNotFound { message: "Selector(x)".to_string() })
    );
    let course = vec![
        (Command::FindElement(Root::System, &wanted), Reply::Found(true)),
        (Command::DescribeElement, Reply::Described(element(None))),
        (Command::ReleaseElement, done()),
    ];
    assert_eq!(follow(&action, course), Err(platform_error("element has no position/size")));
}

#[test]
fn text_is_typed_where_the_focus_is() {
    let text = "hello".to_string();
    let action = Action::Type { text: text.clone(), selector: None, submit: true };
    let course = vec![
        (Command::TypeText(&text), done()),
        (Command::Pause(100), done()),
        (Command::PressKey(Key::Return), done()),
    ];
    assert_eq!(follow(&action, course), succeeded("typed 5 characters and submitted"));
}

#[test]
fn a_failed_command_ends_the_action() {
    let text = "hello".to_string();
    let action = Action::Type { text: text.clone(), selector: None, submit: true };
    let course = vec![
        (Command::TypeText(&text), done()),
        (Command::Pause(100), done()),
        (Command::PressKey(Key::Return), Reply::Done(Err(platform_error("no keyboard")))),
    ];
    assert_eq!(follow(&action, course), Err(platform_error("no keyboard")));
    let course = vec![(Command::TypeText(&text), Reply::Done(Err(platform_error("stuck"))))];
    assert_eq!(follow(&action, course), Err(platform_error("stuck")));
}

#[test]
fn keys_are_pressed() {
    let key = "cmd+s".to_string();
    let press = |app: Option<&str>| Action::KeyPress {
        key: "cmd+s".to_string(),
        app: app.map(|a| a.to_string()),
    };
    assert_eq!(
        follow(&press(None), vec![(Command::PressKey(Key::Given(&key)), done())]),
        succeeded("pressed cmd+s")
    );
    let app = "Mail".to_string();
    assert_eq!(
        follow(
            &press(Some("Mail")),
            vec![(Command::PressKeyIn { app: &app, key: Key::Given(&key) }, done())]
        ),
        succeeded("pressed cmd+s")
    );
    let course = vec![
        (Command::RaiseWindow(77), done()),
        (Command::Pause(100), done()),
        (Command::PressKey(Key::Given(&key)), done()),
    ];
    assert_eq!(follow(&press(Some("pid:77")), course), succeeded("pressed cmd+s"));
    assert_eq!(Key::Given(&key).as_str(), "cmd+s");
    assert_eq!(Key::SelectAll.as_str(), "cmd+a");
    assert_eq!(Key::Backspace.as_str(), "backspace");
    assert_eq!(Key::Return.as_str(), "return");
}

fn scroll(app: Option<&str>, selector: Option<Selector>) -> Action {
    Action::Scroll {
        direction: ScrollDirection::Down,
        amount: 12,
        selector,
        app: app.map(|a| a.to_string()),
    }
}

#[test]
fn the_wheel_is_turned() {
    let turn = |pid| Command::Scroll { direction: ScrollDirection::Down, amount: 12, pid };
    let action = scroll(None, Some(selector(Some("Mail"))));
    assert_eq!(follow(&action, vec![(turn(None), done())]), succeeded("scrolled Down by 12"));
}

#[test]
fn applications_are_scrolled_in() {
    let app = "Mail".to_string();
    let turn = |pid| Command::Scroll { direction: ScrollDirection::Down, amount: 12, pid };
    let at = point(3.0, 4.0);
    let wanted = selector(None);
    let course = vec![
        (Command::FindPid(&app), Reply::Pid(Ok(4))),
        (
            Command::FindAll(4, &wanted),
            Reply::All(vec![element(Some((3.0, 4.0))), element(Some((5.0, 6.0)))]),
        ),
        (Command::Activate(&app), done()),
        (Command::MoveMouse { point: &at, pid: Some(4) }, done()),
        (Command::Pause(50), done()),
        (turn(Some(4)), done()),
    ];
    let action = scroll(Some("Mail"), Some(selector(None)));
    assert_eq!(follow(&action, course), succeeded("scrolled Down by 12"));
    let course = vec![
        (Command::FindPid(&app), Reply::Pid(Ok(4))),
        (Command::DescribeApp(4, SCROLL_DEPTH), Reply::Described(element(Some((3.0, 4.0))))),
        (Command::Activate(&app), done()),
        (Command::MoveMouse { point: &at, pid: Some(4) }, done()),
        (Command::Pause(50), done()),
        (turn(Some(4)), done()),
    ];
    assert_eq!(follow(&scroll(Some("Mail"), None), course), succeeded("scrolled Down by 12"));
    for nothing in [vec![], vec![element(None), element(Some((5.0, 6.0)))]] {
        let course = vec![
            (Command::FindPid(&app), Reply::Pid(Ok(4))),
            (Command::FindAll(4, &wanted), Reply::All(nothing)),
            (Command::Activate(&app), done()),
            (Command::Pause(50), done()),
            (turn(Some(4)), done()),
        ];
        assert_eq!(follow(&action, course), succeeded("scrolled Down by 12"));
    }
}

#[test]
fn directions_have_names() {
    assert_eq!(ScrollDirection::Up.as_str(), format!("{:?}", ScrollDirection::Up));
    assert_eq!(ScrollDirection::Down.as_str(), format!("{:?}", ScrollDirection::Down));
    assert_eq!(ScrollDirection::Left.as_str(), format!("{:?}", ScrollDirection::Left));
    assert_eq!(ScrollDirection::Right.as_str(), format!("{:?}", ScrollDirection::Right));
}

#[test]
fn the_mouse_moves_and_drags() {
    let at = point(-1.5, 0.25);
    let action = Action::MoveMouse {
        selector: Some(selector(None)),
        coordinates: Some(point(-1.5, 0.25)),
    };
    let course = vec![(Command::MoveMouse { point: &at, pid: None }, done())];
    assert_eq!(follow(&action, course), succeeded("moved mouse to (-1.5, 0.25)"));
    let wanted = selector(None);
    let action = Action::MoveMouse { selector: Some(selector(None)), coordinates: None };
    let course = vec![
        (Command::FindOne(&wanted), Reply::One(Ok(element(Some((-1.5, 0.25)))))),
        (Command::MoveMouse { point: &at, pid: None }, done()),
    ];
    assert_eq!(follow(&action, course), succeeded("moved mouse to (-1.5, 0.25)"));
    let course = vec![(Command::FindOne(&wanted), Reply::One(Ok(element(None))))];
    assert_eq!(follow(&action, course), Err(platform_error("element has no position")));
    let to = point(7.0, 8.0);
    let action = Action::Drag { from: point(-1.5, 0.25), to: point(7.0, 8.0) };
    let course = vec![(Command::Drag { from: &at, to: &to }, done())];
    assert_eq!(follow(&action, course), succeeded("dragged from (-1.5, 0.25) to (7, 8)"));
}

#[test]
fn the_focus_is_given() {
    let app = "Mail".to_string();
    let wanted = selector(Some("Mail"));
    let action = Action::Focus { selector: selector(Some("Mail")) };
    let course = |focused| {
        vec![
            (Command::FindPid(&app), Reply::Pid(Ok(4))),
            (Command::FindElement(Root::Application(4), &wanted), Reply::Found(true)),
            (Command::FocusElement, Reply::Focused(focused)),
            (Command::ReleaseElement, done()),
        ]
    };
    assert_eq!(follow(&action, course(true)), succeeded("focused element"));
    assert_eq!(
        follow(&action, course(false)),
        Err(platform_error("failed to set focus on element"))
    );
    let anywhere = selector(None);
    let action = Action::Focus { selector: selector(None) };
    let course = vec![
        (Command::FindElement(Root::System, &anywhere), Reply::Found(true)),
        (Command::FocusElement, Reply::Focused(true)),
        (Command::ReleaseElement, done()),
    ];
    assert_eq!(follow(&action, course), succeeded("focused element"));
    let course = vec![(Command::FindElement(Root::System, &anywhere), Reply::Found(false))];
    assert_eq!(
        follow(&action, course),
        Err(Error::ElementNotFound { message: "Selector(x)".to_string() })
    );
}

fn saved(path: &str) -> Result<ActionResult, Error> {
    Ok(ActionResult {
        success: true,
        message: Some(format!("screenshot saved to {path}")),
        path: Some(path.to_string()),
        data: None,
    })
}

#[test]
fn the_screen_is_captured() {
    let scratch = "/tmp/scratch.png".to_string();
    let action = Action::Screenshot { path: None, app: None };
    let course = |end| vec![(Command::CaptureScreen { path: &scratch }, Reply::Ended(end))];
    let exited = |success| ProgramEnd::Exited { success, stderr: vec![] };
    assert_eq!(follow(&action, course(exited(true))), saved("/tmp/scratch.png"));
    assert_eq!(
        follow(&action, course(exited(false))),
        Err(platform_error("screencapture returned non-zero exit code"))
    );
    assert_eq!(
        follow(&action, course(ProgramEnd::NotStarted { reason: "gone".to_string() })),
        Err(platform_error("screencapture failed: gone"))
    );
}

#[test]
fn windows_are_captured_in_turn() {
    let app = "Mail".to_string();
    let path = "/a.png".to_string();
    let action =
        Action::Screenshot { path: Some("/a.png".to_string()), app: Some("Mail".to_string()) };
    let failed = |message| Reply::Done(Err(platform_error(message)));
    let course = |second| {
        vec![
            (Command::FindWindows(&app), Reply::Windows(Ok(vec![5, 6]))),
            (Command::CaptureWindow { window: 5, path: &path }, failed("first")),
            (Command::CaptureWindow { window: 6, path: &path }, second),
        ]
    };
    assert_eq!(follow(&action, course(done())), saved("/a.png"));
    assert_eq!(follow(&action, course(failed("second"))), Err(platform_error("second")));
    let course = vec![(Command::FindWindows(&app), Reply::Windows(Ok(vec![])))];
    assert_eq!(
        follow(&action, course),
        Err(platform_error("no capturable window found for Mail"))
    );
    let course =
        vec![(Command::FindWindows(&app), Reply::Windows(Err(platform_error("no windows"))))];
    assert_eq!(follow(&action, course), Err(platform_error("no windows")));
}

#[test]
fn trees_are_described_as_deep_as_needed() {
    assert_eq!(SCROLL_DEPTH, 8);
    assert_eq!(ELEMENT_DEPTH, 0);
}
