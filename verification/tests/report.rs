use supervisor::mode::Mode;
use supervisor::report::{file_name, parse_report, render_report, Outcome, Process, RunRecord};

fn record(outcome: Outcome, mode: Mode) -> RunRecord {
    RunRecord {
        proc: Process {
            executable: String::from("/bin/echo"),
            args: vec![String::from("a"), String::from("b c")],
        },
        outcome,
        mode,
        stamp: String::from("2024-01-02-03-04-05.6"),
    }
}

#[test]
fn renders_completed_run() {
    let rec = record(Outcome::Completed { success: true, exit_code: Some(0) }, Mode::Stop);
    let text = render_report(&rec);
    let expected = "executable = \"/bin/echo\"\nargs = [\"a\", \"b c\", ]\n\n[status]\nstatus = success\nexit-code = 0\nmode = Stop\n---\n";
    assert_eq!(text, expected);
}

#[test]
fn renders_failure_without_code() {
    let rec = record(Outcome::Completed { success: false, exit_code: None }, Mode::Repeat);
    let text = render_report(&rec);
    let expected =
        "executable = \"/bin/echo\"\nargs = [\"a\", \"b c\", ]\n\n[status]\nstatus = failure\nmode = Repeat\n---\n";
    assert_eq!(text, expected);
}

#[test]
fn renders_killed_run() {
    let rec = record(Outcome::Killed, Mode::Stop);
    let text = render_report(&rec);
    assert!(text.contains("status = killed"));
    assert!(!text.contains("exit-code"));
}

#[test]
fn round_trip_reproduces_definition() {
    let rec = record(Outcome::Completed { success: true, exit_code: Some(3) }, Mode::Once);
    let text = render_report(&rec);
    let (exe, args) = parse_report(&text).expect("a rendered report parses");
    assert_eq!(exe, "/bin/echo");
    assert_eq!(args, vec!["a", "b c"]);
}

#[test]
fn round_trip_with_awkward_tokens() {
    let rec = RunRecord {
        proc: Process {
            executable: String::from("C:\\bin\\run \"x\""),
            args: vec![String::from("line\nbreak"), String::from("tab\there"), String::from("")],
        },
        outcome: Outcome::Killed,
        mode: Mode::Stop,
        stamp: String::from("s"),
    };
    let text = render_report(&rec);
    let (exe, args) = parse_report(&text).expect("escaped tokens parse back");
    assert_eq!(exe, "C:\\bin\\run \"x\"");
    assert_eq!(args, vec!["line\nbreak", "tab\there", ""]);
}

#[test]
fn round_trip_empty_args() {
    let rec = RunRecord {
        proc: Process { executable: String::from("tool"), args: vec![] },
        outcome: Outcome::Completed { success: true, exit_code: Some(0) },
        mode: Mode::Stop,
        stamp: String::from("s"),
    };
    let text = render_report(&rec);
    let (exe, args) = parse_report(&text).expect("an empty list parses");
    assert_eq!(exe, "tool");
    assert!(args.is_empty());
}

#[test]
fn malformed_reports_are_rejected() {
    assert!(parse_report("").is_none());
    assert!(parse_report("executable = \"unterminated").is_none());
    assert!(parse_report("command = \"x\"\nargs = []").is_none());
    assert!(parse_report("executable = \"x\"\nargs = [\"a\"]").is_none());
}

#[test]
fn file_names_use_the_basename() {
    assert_eq!(
        file_name("/usr/bin/worker", "stdout", "2024-01-02-03-04-05.6"),
        "worker-stdout-2024-01-02-03-04-05.6.log"
    );
    assert_eq!(file_name("worker", "stderr", "t"), "worker-stderr-t.log");
    assert_eq!(file_name("a/b/", "status", "t"), "-status-t.log");
}
