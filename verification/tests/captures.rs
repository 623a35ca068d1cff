use agent_computer_use_macos::action::ProgramEnd;
use agent_computer_use_macos::activate::{
    write_activation_script, ActivateCommand, ActivateReply, Activation,
};
use agent_computer_use_macos::apps::{Bounds, Number, WindowEntry};
use agent_computer_use_macos::capture::{Capture, CaptureCommand, CaptureReply, ImageQuality};
use agent_computer_use_macos::error::Error;
use agent_computer_use_macos::fault::activation_error;
use agent_computer_use_macos::program::{
    open_arguments, open_result, osascript_arguments, screencapture_arguments, write_scratch_path,
};
use agent_computer_use_macos::windows::{
    check_areas, find_capturable, find_window_ids, get_window_ids, order_for_capture, round_to_double, Window,
};

fn number(value: i64) -> Option<Number> {
    Some(Number { value, exact: true })
}

fn window(pid: i64, id: i64, width: i64, height: i64, title: Option<&str>) -> WindowEntry {
    WindowEntry {
        owner_pid: number(pid),
        owner_name: None,
        number: number(id),
        layer: number(0),
        bounds: Some(Bounds { width: number(width), height: number(height) }),
        title: title.map(|t| t.to_string()),
    }
}

fn owners() -> Vec<(i32, String)> {
    vec![(1, "Game".to_string()), (2, "Game Helper".to_string())]
}

fn platform_error(message: &str) -> Error {
    Error::PlatformError { message: message.to_string() }
}

#[test]
fn areas_are_rounded_as_doubles_are() {
    let limit: u64 = 1 << 53;
    let samples = [
        0,
        1,
        10_000,
        limit - 1,
        limit,
        limit + 1,
        limit + 2,
        limit + 3,
        2 * limit + 1,
        2 * limit + 2,
        2 * limit + 3,
        2 * limit + 6,
        123_456_789_012_345_678,
        i64::MAX as u64 - 512,
        i64::MAX as u64 - 511,
        i64::MAX as u64,
    ];
    for n in samples {
        assert_eq!(round_to_double(n), (n as f64) as u64, "{n}");
    }
}

#[test]
fn smaller_windows_are_tried_first() {
    let list = Some(vec![
        window(1, 11, 800, 600, Some("Lobby")),
        window(2, 12, 400, 300, Some("Table")),
        window(3, 13, 200, 200, Some("Other")),
        window(1, 14, 300, 400, Some("Table 2")),
    ]);
    assert_eq!(get_window_ids("Game", &owners(), &list), Ok(vec![12, 14, 11]));
}

#[test]
fn dashboards_are_tried_only_alone() {
    let list = Some(vec![
        window(1, 11, 100, 100, Some("My DASHBOARD")),
        window(1, 12, 800, 600, None),
    ]);
    assert_eq!(get_window_ids("Game", &owners(), &list), Ok(vec![12]));
    let list = Some(vec![
        window(1, 11, 900, 100, Some("Dashboard b")),
        window(1, 12, 100, 100, Some("dashboard a")),
    ]);
    assert_eq!(get_window_ids("Game", &owners(), &list), Ok(vec![12, 11]));
}

#[test]
fn unfit_windows_are_passed_over() {
    let mut on_layer = window(1, 21, 500, 500, None);
    on_layer.layer = number(3);
    let mut without_layer = window(1, 22, 500, 500, None);
    without_layer.layer = None;
    let mut without_bounds = window(1, 23, 500, 500, None);
    without_bounds.bounds = None;
    let mut without_height = window(1, 24, 500, 500, None);
    without_height.bounds = Some(Bounds { width: number(500), height: None });
    let mut without_number = window(1, 25, 500, 500, None);
    without_number.number = None;
    let mut without_owner = window(1, 26, 500, 500, None);
    without_owner.owner_pid = None;
    let mut lossy_owner = window(1, 27, 500, 501, None);
    lossy_owner.owner_pid = Some(Number { value: 1, exact: false });
    let entries = vec![
        on_layer,
        without_layer,
        without_bounds,
        without_height,
        without_number,
        without_owner,
        lossy_owner,
        window(1, 28, 99, 500, None),
        window(1, 29, 500, 99, None),
        window(1, 30, 100, 100, None),
        window(9, 31, 500, 500, None),
    ];
    assert!(check_areas(&entries, &owners()));
    assert_eq!(get_window_ids("Game", &owners(), &Some(entries)), Ok(vec![30, 22, 27]));
}

#[test]
fn window_numbers_and_processes_are_cut_to_size() {
    let entries = vec![window((1 << 32) + 1, (1 << 32) + 7, 100, 200, Some("T"))];
    let found = find_capturable(&entries, &owners());
    assert_eq!(found, vec![(Window { id: 7, area: 20_000 }, "T".to_string())]);
}

#[test]
fn missing_windows_are_reported() {
    assert_eq!(
        get_window_ids("Game", &owners(), &None),
        Err(platform_error("failed to get window list"))
    );
    assert_eq!(
        get_window_ids("Game", &owners(), &Some(vec![])),
        Err(platform_error("no window found for Game"))
    );
}

#[test]
fn windows_of_one_area_keep_their_order() {
    let windows = vec![
        Window { id: 1, area: 5 },
        Window { id: 2, area: 3 },
        Window { id: 3, area: 5 },
        Window { id: 4, area: 3 },
        Window { id: 5, area: 4 },
    ];
    let titles = vec![String::new(); 5];
    assert_eq!(order_for_capture(&windows, &titles), vec![2, 4, 5, 1, 3]);
    assert_eq!(order_for_capture(&vec![], &vec![]), Vec::<u32>::new());
}

#[test]
fn areas_beyond_the_integers_are_noticed() {
    let huge = 1i64 << 32;
    assert!(!check_areas(&vec![window(1, 1, huge, huge, None)], &owners()));
    assert!(check_areas(&vec![window(9, 1, huge, huge, None)], &owners()));
    assert!(check_areas(&vec![window(1, 1, huge, huge / 4, None)], &owners()));
}

#[test]
fn a_window_is_written_to_a_file() {
    let path = "/tmp/a.png".to_string();
    let mut capture = Capture::start(3, &path);
    let expected = [
        (
            CaptureCommand::TakeImage { window: 3, quality: ImageQuality::BestUnframed },
            CaptureReply::Success(false),
        ),
        (
            CaptureCommand::TakeImage { window: 3, quality: ImageQuality::Default },
            CaptureReply::Success(true),
        ),
        (CaptureCommand::MakeUrl(&path), CaptureReply::Success(true)),
        (CaptureCommand::BeginFile, CaptureReply::Success(true)),
        (CaptureCommand::AddImage, CaptureReply::Done),
        (CaptureCommand::WriteFile, CaptureReply::Success(true)),
        (CaptureCommand::ReleaseFile, CaptureReply::Done),
    ];
    for (command, reply) in expected {
        assert_eq!(capture.command(), Some(command));
        capture = capture.step(reply);
    }
    assert_eq!(capture.command(), None);
    assert_eq!(capture.finish(), Ok(()));
}

#[test]
fn failures_to_capture_are_reported() {
    let path = "/tmp/a.png".to_string();
    let yes = || CaptureReply::Success(true);
    let no = || CaptureReply::Success(false);
    let image = Capture::start(30, &path).step(no()).step(no());
    assert_eq!(image.finish(), Err(platform_error("failed to capture window 30")));
    let url = Capture::start(3, &path).step(yes()).step(no());
    assert_eq!(url.finish(), Err(platform_error("invalid screenshot path: /tmp/a.png")));
    let begin = Capture::start(3, &path).step(yes()).step(yes()).step(no());
    assert_eq!(begin.finish(), Err(platform_error("failed to create PNG destination: /tmp/a.png")));
    let write = Capture::start(3, &path)
        .step(yes())
        .step(yes())
        .step(yes())
        .step(CaptureReply::Done)
        .step(no());
    assert_eq!(write.command(), Some(CaptureCommand::ReleaseFile));
    let write = write.step(CaptureReply::Done);
    assert_eq!(write.finish(), Err(platform_error("failed to write PNG screenshot: /tmp/a.png")));
}

#[test]
fn named_applications_are_activated_by_script() {
    let app = "Safari".to_string();
    let activation = Activation::start(&app);
    assert_eq!(activation.command(), Some(ActivateCommand::FindPid(&app)));
    let activation = activation.step(ActivateReply::Pid(Ok(4)));
    assert_eq!(activation.command(), Some(ActivateCommand::RaiseWindow(4)));
    let activation = activation.step(ActivateReply::Done);
    assert_eq!(activation.command(), Some(ActivateCommand::RunScript(&app)));
    let end = ProgramEnd::Exited { success: true, stderr: b"warning".to_vec() };
    let activation = activation.step(ActivateReply::Ended(end));
    assert_eq!(activation.command(), Some(ActivateCommand::Pause(200)));
    let activation = activation.step(ActivateReply::Done);
    assert_eq!(activation.command(), None);
    assert_eq!(activation.finish(), Ok(()));
}

#[test]
fn processes_are_activated_without_a_script() {
    let app = "pid:4".to_string();
    let activation = Activation::start(&app)
        .step(ActivateReply::Pid(Ok(4)))
        .step(ActivateReply::Done);
    assert_eq!(activation.command(), Some(ActivateCommand::Pause(200)));
    assert_eq!(activation.step(ActivateReply::Done).finish(), Ok(()));
}

#[test]
fn failures_to_activate_are_reported() {
    let app = "Safari".to_string();
    let lost = Error::ApplicationNotFound { name: app.clone() };
    let activation = Activation::start(&app).step(ActivateReply::Pid(Err(lost)));
    assert_eq!(
        activation.finish(),
        Err(Error::ApplicationNotFound { name: "Safari".to_string() })
    );
    let scripted = || {
        Activation::start(&app).step(ActivateReply::Pid(Ok(4))).step(ActivateReply::Done)
    };
    let end = ProgramEnd::NotStarted { reason: "not there".to_string() };
    assert_eq!(
        scripted().step(ActivateReply::Ended(end)).finish(),
        Err(platform_error("failed to activate Safari: not there"))
    );
    let end = ProgramEnd::Exited { success: false, stderr: b"no \xffway".to_vec() };
    assert_eq!(
        scripted().step(ActivateReply::Ended(end)).finish(),
        Err(platform_error("failed to activate Safari: no \u{FFFD}way"))
    );
    let end = ProgramEnd::Exited { success: false, stderr: "né".as_bytes().to_vec() };
    assert_eq!(
        scripted().step(ActivateReply::Ended(end)).finish(),
        Err(activation_error("Safari", "né"))
    );
}

#[test]
fn programs_are_given_their_arguments() {
    assert_eq!(
        write_activation_script("Safari"),
        "tell application \"Safari\" to activate"
    );
    assert_eq!(
        osascript_arguments("Mail"),
        vec!["-e", "tell application \"Mail\" to activate"]
    );
    assert_eq!(screencapture_arguments("/tmp/x.png"), vec!["-x", "/tmp/x.png"]);
    assert_eq!(open_arguments("Mail"), vec!["-a", "Mail"]);
    assert_eq!(write_scratch_path(981), "/tmp/agent-computer-use-screenshot-981.png");
}

#[test]
fn opening_succeeds_or_says_why_not() {
    let app = "Mail".to_string();
    let exited = |success| ProgramEnd::Exited { success, stderr: vec![] };
    assert_eq!(open_result(&app, exited(true)), Ok(()));
    assert_eq!(
        open_result(&app, exited(false)),
        Err(Error::ApplicationNotFound { name: "Mail".to_string() })
    );
    assert_eq!(
        open_result(&app, ProgramEnd::NotStarted { reason: "gone".to_string() }),
        Err(platform_error("failed to open 'Mail': gone"))
    );
}

#[test]
fn rounding_keeps_the_order_of_areas() {
    let limit: u64 = 1 << 53;
    for start in [limit - 4, 2 * limit - 4, 4 * limit - 8] {
        for n in start..start + 16 {
            assert!(round_to_double(n) <= round_to_double(n + 1));
        }
    }
}

#[test]
fn a_single_dashboard_is_captured() {
    let list = Some(vec![window(2, 9, 640, 480, Some("Dashboard"))]);
    assert_eq!(get_window_ids("Game", &owners(), &list), Ok(vec![9]));
}

#[test]
fn windows_are_found_by_name() {
    let huge = 1i64 << 32;
    let running = vec![(1, "Game".to_string()), (2, "Mail".to_string())];
    let list = Some(vec![
        window(1, 11, 800, 600, None),
        window(2, 12, huge, huge, None),
        window(1, 13, 200, 200, None),
    ]);
    assert_eq!(find_window_ids("gam", &running, &list), Some(Ok(vec![13, 11])));
    assert_eq!(find_window_ids("pid:1", &running, &list), Some(Ok(vec![13, 11])));
    assert_eq!(find_window_ids("Mail", &running, &list), None);
    assert_eq!(
        find_window_ids("Notes", &running, &list),
        Some(Err(Error::ApplicationNotFound { name: "Notes".to_string() }))
    );
    assert_eq!(
        find_window_ids("Notes", &running, &None),
        Some(Err(Error::ApplicationNotFound { name: "Notes".to_string() }))
    );
    assert_eq!(
        find_window_ids("Game", &running, &None),
        Some(Err(platform_error("failed to get window list")))
    );
    assert_eq!(
        find_window_ids("pid:9", &running, &list),
        Some(Err(platform_error("no window found for pid:9")))
    );
}
