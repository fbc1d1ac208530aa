use zapretctl::lifecycle::{
    begin_install, build_descriptor, classify_removal, driver_service_chars, make_bin_path,
    primary_service_chars, process_listed, removal_plan, status_display, status_report,
    worker_display, worker_image_chars, CommandOutcome, InstallStart, RemovalNote, ServiceAction,
    StartMode,
};
use zapretctl::status::ServiceStatus;

fn chars(s: &str) -> Vec<char> {
    s.chars().collect()
}

fn listing(names: &[&str]) -> Vec<Vec<char>> {
    names.iter().map(|n| chars(n)).collect()
}

#[test]
fn fixed_names() {
    assert_eq!(primary_service_chars(), chars("zapret"));
    assert_eq!(driver_service_chars(), chars("WinDivert"));
    assert_eq!(worker_image_chars(), chars("winws.exe"));
}

#[test]
fn bin_path_quotes_worker_and_appends_arguments() {
    assert_eq!(make_bin_path(&chars("-a -b -c")), chars("\"winws.exe\" -a -b -c"));
    assert_eq!(make_bin_path(&chars("")), chars("\"winws.exe\" "));
}

#[test]
fn descriptor_carries_arguments_verbatim() {
    let d = build_descriptor(chars("zapret"), chars("-a  -b"));
    assert_eq!(d.name, chars("zapret"));
    assert_eq!(d.arguments, chars("-a  -b"));
    assert_eq!(d.binary_path, chars("\"winws.exe\" -a  -b"));
    assert_eq!(d.start_mode, StartMode::Automatic);
}

struct FakeRegistry {
    calls: usize,
}

impl FakeRegistry {
    fn create(&mut self) {
        self.calls += 1;
    }

    fn start(&mut self) {
        self.calls += 1;
    }
}

#[test]
fn install_with_no_candidates_touches_no_service() {
    let mut registry = FakeRegistry { calls: 0 };
    let mut reported = false;
    match begin_install(&listing(&[])) {
        InstallStart::NoConfiguration => {
            reported = true;
        },
        InstallStart::Select(_) => {
            registry.create();
            registry.start();
        },
    }
    assert!(reported);
    assert_eq!(registry.calls, 0);

    let mut registry = FakeRegistry { calls: 0 };
    match begin_install(&listing(&["readme.txt", "service_gen.bat"])) {
        InstallStart::NoConfiguration => {},
        InstallStart::Select(_) => {
            registry.create();
            registry.start();
        },
    }
    assert_eq!(registry.calls, 0);
}

#[test]
fn install_offers_eligible_candidates() {
    match begin_install(&listing(&["a.bat", "service_gen.bat", "b.bat"])) {
        InstallStart::NoConfiguration => panic!("candidates expected"),
        InstallStart::Select(c) => assert_eq!(c, listing(&["a.bat", "b.bat"])),
    }
}

#[test]
fn removal_plan_stops_then_deletes_each_service() {
    let plan = removal_plan(&listing(&["zapret", "WinDivert"]));
    assert_eq!(plan.len(), 4);
    assert_eq!(plan[0].service, chars("zapret"));
    assert_eq!(plan[0].action, ServiceAction::Stop);
    assert_eq!(plan[1].service, chars("zapret"));
    assert_eq!(plan[1].action, ServiceAction::Delete);
    assert_eq!(plan[2].service, chars("WinDivert"));
    assert_eq!(plan[2].action, ServiceAction::Stop);
    assert_eq!(plan[3].service, chars("WinDivert"));
    assert_eq!(plan[3].action, ServiceAction::Delete);
}

#[test]
fn removal_twice_reports_failures_without_aborting() {
    let services = listing(&["zapret", "WinDivert"]);

    // First pass: both services exist and both deletes succeed.
    let mut first_notes = Vec::new();
    for step in removal_plan(&services) {
        if step.action == ServiceAction::Delete {
            first_notes.push(classify_removal(CommandOutcome::Completed(true)));
        }
    }
    assert_eq!(first_notes, vec![RemovalNote::Removed, RemovalNote::Removed]);

    // Second pass: the services are already gone, every delete now fails;
    // each failure is reported and the pass still covers both services.
    let mut second_notes = Vec::new();
    for step in removal_plan(&services) {
        if step.action == ServiceAction::Delete {
            second_notes.push(classify_removal(CommandOutcome::Completed(false)));
        }
    }
    assert_eq!(second_notes, vec![RemovalNote::RemovalFailed, RemovalNote::RemovalFailed]);
}

#[test]
fn removal_launch_failure_is_not_reported() {
    assert_eq!(classify_removal(CommandOutcome::LaunchFailed), RemovalNote::NotReported);
}

#[test]
fn report_renders_three_independent_lines() {
    let r = status_report(&ServiceStatus::Running, &ServiceStatus::Stopped, false);
    assert_eq!(r.primary, "RUNNING");
    assert_eq!(r.driver, "STOPPED");
    assert_eq!(r.worker, "NOT RUNNING");

    // The driver line moves alone: the other two lines stay as they are.
    let r2 = status_report(&ServiceStatus::Running, &ServiceStatus::Running, false);
    assert_eq!(r2.primary, r.primary);
    assert_eq!(r2.driver, "RUNNING");
    assert_eq!(r2.worker, r.worker);
}

#[test]
fn worker_presence_is_a_substring_match() {
    let listing = chars(
        "Image Name                     PID Session Name\nwinws.exe                     4242 Console\n",
    );
    assert!(process_listed(&listing, &chars("winws.exe")));
    let empty = chars("INFO: No tasks are running which match the specified criteria.\n");
    assert!(!process_listed(&empty, &chars("winws.exe")));
}

#[test]
fn display_classes() {
    assert_eq!(status_display(&ServiceStatus::StopPending), "STOP_PENDING");
    assert_eq!(status_display(&ServiceStatus::StartPending), "NOT FOUND");
    assert_eq!(status_display(&ServiceStatus::NotFound), "NOT FOUND");
    assert_eq!(status_display(&ServiceStatus::Unknown("7".chars().collect())), "NOT FOUND");
    assert_eq!(worker_display(true), "RUNNING");
}
