use agent_computer_use_macos::action::Selector;
use agent_computer_use_macos::apps::{
    find_app_pids, find_meant, is_system_service, lowered_names, running_apps_native, Bounds,
    Number, WindowEntry,
};
use agent_computer_use_macos::error::Error;
use agent_computer_use_macos::pid::parse_pid_target;
use agent_computer_use_macos::platform::{MacOSPlatform, PID_CACHE_TTL};
use agent_computer_use_macos::text::{
    chars_of, contains, decimal_text, join, same_text, starts_with,
};
use agent_computer_use_macos::touch::{TouchCommand, TouchReply};
use agent_computer_use_macos::perform::Root;

fn entry(pid: i64, name: Option<&str>) -> WindowEntry {
    WindowEntry {
        owner_pid: Some(Number { value: pid, exact: true }),
        owner_name: name.map(|n| n.to_string()),
        number: None,
        layer: None,
        bounds: Some(Bounds { width: None, height: None }),
        title: None,
    }
}

fn app(pid: i32, name: &str) -> (i32, String) {
    (pid, name.to_string())
}

#[test]
fn process_targets_are_positive_integers() {
    assert_eq!(parse_pid_target("pid:42"), Some(42));
    assert_eq!(parse_pid_target("pid:+42"), Some(42));
    assert_eq!(parse_pid_target("pid:0042"), Some(42));
    assert_eq!(parse_pid_target("pid:2147483647"), Some(2147483647));
    assert_eq!(parse_pid_target("pid:00000000000000000000000000007"), Some(7));
}

#[test]
fn other_names_are_no_process_targets() {
    for name in [
        "", "pid", "pid:", "pid:+", "pid:-", "pid:0", "pid:-0", "pid:-3", "pid:2147483648",
        "pid:99999999999999999999", "pid: 4", "pid:4 ", "pid:4x", "pid:1_0", "pid:++4", "PID:4",
        " pid:4", "Safari", "pid:\u{0664}",
    ] {
        assert_eq!(parse_pid_target(name), None, "{name}");
    }
}

#[test]
fn process_targets_agree_with_integer_parsing() {
    for text in ["1", "+1", "-1", "007", "2147483647", "2147483648", "+", "", "1e3", "12"] {
        let expected = text.parse::<i32>().ok().filter(|pid| *pid > 0);
        assert_eq!(parse_pid_target(&format!("pid:{text}")), expected, "{text}");
    }
}

#[test]
fn every_process_can_be_named() {
    for pid in [1, 9, 10, 99, 100, 65535, i32::MAX] {
        let name = format!("pid:{}", decimal_text(pid as u64));
        assert_eq!(parse_pid_target(&name), Some(pid));
    }
}

#[test]
fn texts_are_compared_by_characters() {
    assert_eq!(chars_of("aé☃"), vec!['a', 'é', '☃']);
    assert!(same_text("Dock", "Dock"));
    assert!(!same_text("Dock", "dock"));
    assert!(starts_with("safari", "saf"));
    assert!(starts_with("safari", ""));
    assert!(!starts_with("saf", "safari"));
    assert!(contains("my dashboard here", "dashboard"));
    assert!(contains("dashboard", "dashboard"));
    assert!(contains("", ""));
    assert!(!contains("dashboar", "dashboard"));
}

#[test]
fn numbers_are_written_in_decimal() {
    for n in [0, 5, 10, 19, 100, 4294967295, u64::MAX] {
        assert_eq!(decimal_text(n), n.to_string());
    }
}

#[test]
fn parts_are_joined() {
    assert_eq!(join(&vec![], "\n"), "");
    assert_eq!(join(&vec!["a".to_string()], "\n"), "a");
    assert_eq!(join(&vec!["a".to_string(), "".to_string(), "b".to_string()], ", "), "a, , b");
}

#[test]
fn system_services_are_known_by_name() {
    for name in ["Accessibility", "Control Centre Helper", "Dock", "Window Server", "loginwindow"] {
        assert!(is_system_service(name));
    }
    for name in ["", "dock", "Docker", "Safari"] {
        assert!(!is_system_service(name));
    }
}

#[test]
fn each_process_is_listed_once() {
    let entries = vec![
        entry(10, Some("Safari")),
        entry(20, Some("Mail")),
        entry(10, Some("Safari")),
        entry(30, Some("Dock")),
        entry(40, Some("")),
    ];
    assert_eq!(running_apps_native(&entries), vec![app(10, "Safari"), app(20, "Mail")]);
    assert_eq!(MacOSPlatform::new().running_apps(&vec![]), vec![]);
}

#[test]
fn the_first_entry_of_a_process_counts() {
    let entries = vec![
        entry(10, None),
        entry(10, Some("Safari")),
        entry(20, Some("Dock")),
        entry(20, Some("Mail")),
    ];
    assert_eq!(running_apps_native(&entries), vec![]);
}

#[test]
fn entries_without_a_usable_process_are_passed_over() {
    let mut lossy = entry(10, Some("Safari"));
    lossy.owner_pid = Some(Number { value: 10, exact: false });
    let mut missing = entry(10, Some("Safari"));
    missing.owner_pid = None;
    let entries = vec![
        lossy,
        missing,
        entry(0, Some("Safari")),
        entry(-4, Some("Safari")),
        entry(10, Some("Mail")),
        entry((1 << 32) + 10, Some("Notes")),
        entry((1 << 32) + 11, Some("Notes")),
    ];
    assert_eq!(running_apps_native(&entries), vec![app(10, "Mail"), app(11, "Notes")]);
}

#[test]
fn equal_names_go_before_longer_ones() {
    let names: Vec<String> = ["safari beta", "safari", "notes", "safari"]
        .iter()
        .map(|n| n.to_string())
        .collect();
    assert_eq!(find_meant("safari", &names), vec![1, 3]);
    assert_eq!(find_meant("saf", &names), vec![0, 1, 3]);
    assert_eq!(find_meant("", &names), vec![0, 1, 2, 3]);
    assert_eq!(find_meant("mail", &names), Vec::<usize>::new());
}

#[test]
fn applications_are_found_without_regard_to_case() {
    let apps = vec![app(1, "Safari Beta"), app(2, "SAFARI"), app(3, "Safari")];
    assert_eq!(lowered_names(&apps), vec!["safari beta", "safari", "safari"]);
    assert_eq!(find_app_pids("safari", &apps), Ok(vec![app(2, "SAFARI"), app(3, "Safari")]));
    assert_eq!(find_app_pids("Safari B", &apps), Ok(vec![app(1, "Safari Beta")]));
    let greek = vec![app(4, "ΟΔΟΣ")];
    assert_eq!(find_app_pids("οδος", &greek), Ok(vec![app(4, "ΟΔΟΣ")]));
    assert_eq!(
        find_app_pids("Mail", &apps),
        Err(Error::ApplicationNotFound { name: "Mail".to_string() })
    );
}

#[test]
fn process_targets_are_found_listed_or_not() {
    let apps = vec![app(7, "Safari"), app(7, "Other")];
    assert_eq!(find_app_pids("pid:7", &apps), Ok(vec![app(7, "Safari")]));
    assert_eq!(find_app_pids("pid:8", &apps), Ok(vec![app(8, "pid:8")]));
}

#[test]
fn a_new_platform_knows_nothing() {
    assert_eq!(MacOSPlatform::new().find_app_pid("Safari", 0), None);
    assert_eq!(MacOSPlatform::default().cached_pid("safari", 0), None);
    assert_eq!(MacOSPlatform::new().platform_name(), "macOS");
}

#[test]
fn process_targets_need_no_lookup() {
    assert_eq!(MacOSPlatform::new().find_app_pid("pid:12", 0), Some(12));
}

#[test]
fn found_processes_are_remembered_for_a_while() {
    let mut platform = MacOSPlatform::new();
    let apps = vec![app(1, "Safari"), app(2, "Mail")];
    assert_eq!(platform.find_listed_pid("SAFARI", &apps, 100), Ok(1));
    let end = 100 + PID_CACHE_TTL;
    assert_eq!(PID_CACHE_TTL, 30_000_000_000);
    assert_eq!(platform.find_app_pid("safari", end - 1), Some(1));
    assert_eq!(platform.find_app_pid("mAIL", end - 1), Some(2));
    assert_eq!(platform.find_app_pid("safari", end), None);
    assert_eq!(platform.find_app_pid("saf", 100), None);
}

#[test]
fn a_failed_lookup_changes_nothing() {
    let mut platform = MacOSPlatform::new();
    let apps = vec![app(1, "Safari")];
    assert_eq!(
        platform.find_listed_pid("Mail", &apps, 0),
        Err(Error::ApplicationNotFound { name: "Mail".to_string() })
    );
    assert_eq!(platform.find_app_pid("Safari", 0), None);
}

#[test]
fn of_shared_names_the_first_is_found_and_the_last_remembered() {
    let mut platform = MacOSPlatform::new();
    let apps = vec![app(1, "Table"), app(2, "table")];
    assert_eq!(platform.find_listed_pid("Table", &apps, 0), Ok(1));
    assert_eq!(platform.find_app_pid("Table", 1), Some(2));
}

#[test]
fn unlisted_names_stay_remembered() {
    let mut platform = MacOSPlatform::new();
    assert_eq!(platform.find_listed_pid("Mail", &vec![app(5, "Mail")], 0), Ok(5));
    assert_eq!(platform.find_listed_pid("Notes", &vec![app(6, "Notes")], 9), Ok(6));
    assert_eq!(platform.find_app_pid("Mail", 10), Some(5));
    platform.remember(&vec!["mail".to_string()], &vec![app(8, "Mail")], 20);
    assert_eq!(platform.find_app_pid("Mail", 10), Some(8));
    assert_eq!(platform.find_app_pid("Mail", 20), None);
}

#[test]
fn elements_are_pressed_in_their_application() {
    let platform = MacOSPlatform::new();
    let selector = Selector { app: Some("Safari".to_string()), shown: "S".to_string() };
    let press = platform.ax_press(&selector);
    assert_eq!(press.command(), Some(TouchCommand::FindPid(&"Safari".to_string())));
    let press = press.step(TouchReply::Pid(Ok(5)));
    assert_eq!(press.command(), Some(TouchCommand::Press(Root::Application(5), &selector)));
    let press = press.step(TouchReply::Success(true));
    assert_eq!(press.command(), None);
    assert_eq!(press.pressed(), Some(()));
}

#[test]
fn the_process_found_is_the_first_of_all() {
    let apps = vec![app(3, "Safari Beta"), app(1, "safari"), app(2, "Safari")];
    for name in ["SAFARI", "safari b", "saf"] {
        let all = find_app_pids(name, &apps).unwrap();
        assert_eq!(MacOSPlatform::new().find_listed_pid(name, &apps, 0), Ok(all[0].0));
    }
    let all = find_app_pids("pid:9", &apps).unwrap();
    assert_eq!(MacOSPlatform::new().find_app_pid("pid:9", 0), Some(all[0].0));
}

#[test]
fn an_answer_is_kept_for_half_a_minute() {
    let mut platform = MacOSPlatform::new();
    let apps = vec![app(5, "Safari")];
    assert_eq!(platform.settle_app_pid("Safari", &apps, 0, 7), Ok(5));
    let end = 7 + PID_CACHE_TTL;
    assert_eq!(platform.settle_app_pid("SAFARI", &vec![], end - 1, end - 1), Ok(5));
    assert_eq!(
        platform.settle_app_pid("SAFARI", &vec![], end, end),
        Err(Error::ApplicationNotFound { name: "SAFARI".to_string() })
    );
    assert_eq!(platform.settle_app_pid("safari", &vec![app(6, "Safari")], end, end), Ok(6));
}

#[test]
fn what_is_known_goes_before_the_list() {
    let mut platform = MacOSPlatform::new();
    assert_eq!(platform.settle_app_pid("Mail", &vec![app(1, "Mail")], 0, 0), Ok(1));
    let moved = vec![app(2, "Mail"), app(3, "Notes")];
    assert_eq!(platform.settle_app_pid("mail", &moved, 1, 1), Ok(1));
    assert_eq!(platform.find_app_pid("Notes", 1), None);
    assert_eq!(platform.settle_app_pid("pid:8", &moved, 1, 1), Ok(8));
    assert_eq!(platform.settle_app_pid("pid:8", &vec![], 1, 1), Ok(8));
}

#[test]
fn a_beginning_is_looked_up_every_time() {
    let mut platform = MacOSPlatform::new();
    assert_eq!(platform.settle_app_pid("saf", &vec![app(1, "Safari")], 0, 0), Ok(1));
    assert_eq!(platform.find_app_pid("saf", 1), None);
    assert_eq!(platform.settle_app_pid("saf", &vec![app(2, "Safari")], 1, 1), Ok(2));
}

#[test]
fn lookups_work_to_the_end_of_time() {
    let mut platform = MacOSPlatform::new();
    let apps = vec![app(4, "Mail")];
    assert_eq!(platform.find_listed_pid("Mail", &apps, u64::MAX), Ok(4));
    assert_eq!(platform.find_app_pid("Mail", u64::MAX), Some(4));
    assert_eq!(
        platform.find_listed_pid("Notes", &apps, u64::MAX),
        Err(Error::ApplicationNotFound { name: "Notes".to_string() })
    );
}
