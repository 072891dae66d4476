use supervisor::mode::Mode;
use supervisor::report::{Outcome, Process, RunRecord};
use supervisor::supervisor::{SupState, Supervisor};

fn proc_def() -> Process {
    Process { executable: String::from("/bin/sleep"), args: vec![String::from("1")] }
}

fn run_once(sup: &mut Supervisor, stamp: &str) -> RunRecord {
    let mode = sup.try_begin().expect("the barrier is open");
    assert_ne!(mode, Mode::Stop);
    sup.on_spawned();
    sup.on_child_exit(true, Some(0), String::from(stamp))
}

#[test]
fn once_settles_after_one_run() {
    let mut sup = Supervisor::new(proc_def(), Mode::Once);
    let rec = run_once(&mut sup, "t1");
    assert_eq!(rec.mode, Mode::Stop, "a pending Once flips to Stop at completion");
    assert!(matches!(rec.outcome, Outcome::Completed { success: true, exit_code: Some(0) }));
    // No further spawn: the loop settles blocked in the waiting state.
    assert_eq!(sup.try_begin(), None);
    assert_eq!(sup.state, SupState::WaitingForRun);
    assert_eq!(sup.cell.mode, Mode::Stop);
}

#[test]
fn repeat_runs_again_and_again() {
    let mut sup = Supervisor::new(proc_def(), Mode::Repeat);
    let stamps = ["t1", "t2", "t3"];
    let mut records = Vec::new();
    for stamp in stamps {
        records.push(run_once(&mut sup, stamp));
    }
    assert_eq!(records.len(), 3, "three completions leave exactly three records");
    for (rec, stamp) in records.iter().zip(stamps) {
        assert!(matches!(rec.outcome, Outcome::Completed { success: true, exit_code: Some(0) }));
        assert_eq!(rec.mode, Mode::Repeat, "a completion leaves Repeat untouched");
        assert_eq!(rec.stamp, stamp);
    }
    // The timestamps arrive in the order the runs were made.
    assert!(records[0].stamp < records[1].stamp && records[1].stamp < records[2].stamp);
    // The barrier is open again at once.
    assert_eq!(sup.try_begin(), Some(Mode::Repeat));
}

#[test]
fn stop_while_running_kills_and_blocks() {
    let mut sup = Supervisor::new(proc_def(), Mode::Repeat);
    assert_eq!(sup.try_begin(), Some(Mode::Repeat));
    sup.on_spawned();
    // An external actor stops the process while the child runs.
    sup.set_mode(Mode::Stop);
    let rec = sup.on_killed(String::from("t1"));
    assert!(matches!(rec.outcome, Outcome::Killed));
    assert_eq!(rec.mode, Mode::Stop);
    // No further spawn until the mode leaves Stop.
    assert_eq!(sup.try_begin(), None);
    assert_eq!(sup.try_begin(), None);
    sup.set_mode(Mode::Once);
    assert_eq!(sup.try_begin(), Some(Mode::Once));
}

#[test]
fn external_decision_is_preserved_at_completion() {
    let mut sup = Supervisor::new(proc_def(), Mode::Once);
    sup.try_begin().unwrap();
    sup.on_spawned();
    // The mode moved to Repeat while the child ran: the completion keeps it.
    sup.set_mode(Mode::Repeat);
    let rec = sup.on_child_exit(false, Some(7), String::from("t1"));
    assert_eq!(rec.mode, Mode::Repeat);
    assert!(matches!(rec.outcome, Outcome::Completed { success: false, exit_code: Some(7) }));
    assert_eq!(sup.try_begin(), Some(Mode::Repeat));
}

#[test]
fn spawn_failure_ends_the_loop() {
    let mut sup = Supervisor::new(proc_def(), Mode::Repeat);
    sup.try_begin().unwrap();
    sup.on_spawn_failed();
    assert_eq!(sup.state, SupState::Done);
}

#[test]
fn record_snapshots_the_definition() {
    let mut sup = Supervisor::new(proc_def(), Mode::Once);
    let rec = run_once(&mut sup, "t1");
    assert_eq!(rec.proc.executable, "/bin/sleep");
    assert_eq!(rec.proc.args, vec![String::from("1")]);
}
