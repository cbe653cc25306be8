use oh_my_droid::apply::StepKind;
use oh_my_droid::cmd::setup::{Event, Failure, Outcome, Reconciliation, Request, Stage};
use oh_my_droid::config::{Configuration, SshConfig};
use oh_my_droid::consts::{CONFIG_FILE, MIN_DISK_GB};
use oh_my_droid::mapping::Mapping;

fn mapping(pairs: &[(&str, &str)]) -> Mapping {
    let mut out = Mapping::new();
    for (key, value) in pairs {
        out.insert(key.to_string(), value.to_string());
    }
    out
}

fn three_operations() -> Configuration {
    let mut desired = Configuration::empty();
    desired.alias = Some(mapping(&[("ls", "eza")]));
    desired.zoxide = Some(true);
    desired
}

fn disk(size: &str) -> Event {
    Event::Measured(Some(format!(" 1G-blocks\n{:>10}\n", size)))
}

#[test]
fn the_constants_are_what_a_run_goes_by() {
    assert_eq!(CONFIG_FILE, "oh-my-droid.toml");
    assert_eq!(MIN_DISK_GB, 7);
}

#[test]
fn an_unchanged_snapshot_is_up_to_date() {
    let snapshot = Configuration::default();
    let mut run = Reconciliation::begin(&snapshot, &snapshot, false, false);
    assert!(run.diffs().is_empty());
    assert_eq!(run.stage(), Stage::Done(Outcome::UpToDate));
    assert_eq!(run.pending(), Request::Stop(Outcome::UpToDate));
    assert_eq!(run.advance(Event::Validated(true)), Request::Stop(Outcome::UpToDate));
    assert_eq!(run.advance(Event::StepFinished(true)), Request::Stop(Outcome::UpToDate));
    assert_eq!(run.advance(Event::LockWritten(true)), Request::Stop(Outcome::UpToDate));
}

#[test]
fn a_run_after_a_successful_run_is_up_to_date() {
    let desired = three_operations();
    let mut first = Reconciliation::begin(&Configuration::empty(), &desired, false, true);
    assert_eq!(first.pending(), Request::Validate);
    first.advance(Event::Validated(true));
    first.advance(Event::Shown);
    first.advance(disk("30G"));
    first.advance(Event::StepFinished(true));
    first.advance(Event::StepFinished(true));
    assert_eq!(first.advance(Event::StepFinished(true)), Request::WriteLock);
    assert_eq!(first.advance(Event::LockWritten(true)), Request::Stop(Outcome::Applied));
    let lock = desired.clone();
    let second = Reconciliation::begin(&lock, &desired, false, true);
    assert_eq!(second.pending(), Request::Stop(Outcome::UpToDate));
}

#[test]
fn begin_compares_and_translates() {
    let desired = three_operations();
    let run = Reconciliation::begin(&Configuration::empty(), &desired, false, false);
    assert_eq!(run.diffs().len(), 2);
    let kinds: Vec<StepKind> = run.steps().iter().map(|step| step.kind()).collect();
    assert_eq!(kinds, vec![StepKind::Paths, StepKind::Alias, StepKind::Zoxide]);
    assert_eq!(run.stage(), Stage::Validating);
    assert_eq!(run.pending(), Request::Validate);
}

#[test]
fn only_a_failure_gives_a_non_zero_exit_code() {
    assert_eq!(Outcome::UpToDate.exit_code(), 0);
    assert_eq!(Outcome::Cancelled.exit_code(), 0);
    assert_eq!(Outcome::Previewed.exit_code(), 0);
    assert_eq!(Outcome::Applied.exit_code(), 0);
    for failure in [
        Failure::ConfigLoad,
        Failure::Validation,
        Failure::Precondition,
        Failure::Operation(0),
        Failure::Persistence,
    ] {
        assert_eq!(Outcome::Failed(failure).exit_code(), 1);
    }
}

#[test]
fn an_invalid_snapshot_fails_before_anything_is_shown() {
    let desired = three_operations();
    let mut run = Reconciliation::begin(&Configuration::empty(), &desired, false, false);
    assert_eq!(
        run.advance(Event::Validated(false)),
        Request::Stop(Outcome::Failed(Failure::Validation))
    );
    assert_eq!(run.advance(Event::Shown), Request::Stop(Outcome::Failed(Failure::Validation)));
}

#[test]
fn a_refusal_cancels_the_run() {
    for answer in ["n\n", "\n", "", "yes\n", "no", "y y", "N"] {
        let desired = three_operations();
        let mut run = Reconciliation::begin(&Configuration::empty(), &desired, false, false);
        assert_eq!(run.advance(Event::Validated(true)), Request::ShowChanges);
        assert_eq!(run.advance(Event::Shown), Request::Confirm);
        assert_eq!(
            run.advance(Event::Answered(answer.to_string())),
            Request::Stop(Outcome::Cancelled),
            "{:?}",
            answer
        );
        assert_eq!(run.advance(disk("30G")), Request::Stop(Outcome::Cancelled));
        assert_eq!(run.advance(Event::StepFinished(true)), Request::Stop(Outcome::Cancelled));
        assert_eq!(run.advance(Event::LockWritten(true)), Request::Stop(Outcome::Cancelled));
        assert_eq!(run.stage(), Stage::Done(Outcome::Cancelled));
    }
}

#[test]
fn a_yes_lets_the_run_go_on() {
    for answer in ["y", "Y\n", "  y  \r\n"] {
        let desired = three_operations();
        let mut run = Reconciliation::begin(&Configuration::empty(), &desired, false, false);
        run.advance(Event::Validated(true));
        run.advance(Event::Shown);
        assert_eq!(run.advance(Event::Answered(answer.to_string())), Request::MeasureDisk);
        assert_eq!(run.advance(disk("7G")), Request::Execute(0));
    }
}

#[test]
fn no_confirmation_is_asked_for_where_it_is_skipped() {
    let desired = three_operations();
    let mut run = Reconciliation::begin(&Configuration::empty(), &desired, false, true);
    run.advance(Event::Validated(true));
    assert_eq!(run.advance(Event::Shown), Request::MeasureDisk);
    let mut dry = Reconciliation::begin(&Configuration::empty(), &desired, true, false);
    dry.advance(Event::Validated(true));
    assert_eq!(dry.advance(Event::Shown), Request::MeasureDisk);
}

#[test]
fn a_small_disk_fails_the_run_before_any_operation() {
    for report in [disk("6G"), disk("0G"), Event::Measured(Some(String::new())), Event::Measured(None)] {
        let desired = three_operations();
        let mut run = Reconciliation::begin(&Configuration::empty(), &desired, false, true);
        run.advance(Event::Validated(true));
        run.advance(Event::Shown);
        assert_eq!(
            run.advance(report),
            Request::Stop(Outcome::Failed(Failure::Precondition))
        );
        assert_eq!(
            run.advance(Event::StepFinished(true)),
            Request::Stop(Outcome::Failed(Failure::Precondition))
        );
    }
}

#[test]
fn a_dry_run_shows_the_operations_and_runs_none() {
    let desired = three_operations();
    let mut run = Reconciliation::begin(&Configuration::empty(), &desired, true, false);
    assert_eq!(run.advance(Event::Validated(true)), Request::ShowChanges);
    assert_eq!(run.advance(Event::Shown), Request::MeasureDisk);
    assert_eq!(run.advance(disk("30G")), Request::Preview);
    assert_eq!(run.advance(Event::StepFinished(true)), Request::Preview);
    assert_eq!(run.advance(Event::Previewed), Request::Stop(Outcome::Previewed));
    assert_eq!(run.advance(Event::LockWritten(true)), Request::Stop(Outcome::Previewed));
}

#[test]
fn operations_run_in_order_and_the_lock_is_written_last() {
    let desired = three_operations();
    let mut run = Reconciliation::begin(&Configuration::empty(), &desired, false, true);
    run.advance(Event::Validated(true));
    run.advance(Event::Shown);
    assert_eq!(run.advance(disk("30G")), Request::Execute(0));
    assert_eq!(run.stage(), Stage::Executing(0));
    assert_eq!(run.advance(Event::StepFinished(true)), Request::Execute(1));
    assert_eq!(run.advance(Event::StepFinished(true)), Request::Execute(2));
    assert_eq!(run.advance(Event::StepFinished(true)), Request::WriteLock);
    assert_eq!(run.stage(), Stage::Persisting);
    assert_eq!(run.advance(Event::LockWritten(true)), Request::Stop(Outcome::Applied));
    assert_eq!(run.stage(), Stage::Done(Outcome::Applied));
}

#[test]
fn the_second_of_three_operations_fails() {
    let desired = three_operations();
    let mut run = Reconciliation::begin(&Configuration::empty(), &desired, false, true);
    assert_eq!(run.steps().len(), 3);
    run.advance(Event::Validated(true));
    run.advance(Event::Shown);
    assert_eq!(run.advance(disk("30G")), Request::Execute(0));
    assert_eq!(run.advance(Event::StepFinished(true)), Request::Execute(1));
    let failed = Request::Stop(Outcome::Failed(Failure::Operation(1)));
    assert_eq!(run.advance(Event::StepFinished(false)), failed);
    assert_eq!(run.advance(Event::StepFinished(true)), failed);
    assert_eq!(run.advance(Event::LockWritten(true)), failed);
    assert_eq!(run.pending(), failed);
}

#[test]
fn a_lock_that_cannot_be_written_fails_the_run() {
    let desired = three_operations();
    let mut run = Reconciliation::begin(&Configuration::empty(), &desired, false, true);
    run.advance(Event::Validated(true));
    run.advance(Event::Shown);
    run.advance(disk("30G"));
    run.advance(Event::StepFinished(true));
    run.advance(Event::StepFinished(true));
    run.advance(Event::StepFinished(true));
    assert_eq!(
        run.advance(Event::LockWritten(false)),
        Request::Stop(Outcome::Failed(Failure::Persistence))
    );
}

#[test]
fn an_event_that_answers_nothing_changes_nothing() {
    let desired = three_operations();
    let mut run = Reconciliation::begin(&Configuration::empty(), &desired, false, false);
    assert_eq!(run.advance(Event::Shown), Request::Validate);
    assert_eq!(run.advance(Event::Answered("y".to_string())), Request::Validate);
    assert_eq!(run.advance(Event::StepFinished(true)), Request::Validate);
    assert_eq!(run.advance(Event::LockWritten(true)), Request::Validate);
    run.advance(Event::Validated(true));
    assert_eq!(run.advance(Event::Validated(false)), Request::ShowChanges);
    run.advance(Event::Shown);
    assert_eq!(run.advance(disk("30G")), Request::Confirm);
    run.advance(Event::Answered("y".to_string()));
    assert_eq!(run.advance(Event::Answered("n".to_string())), Request::MeasureDisk);
    run.advance(disk("30G"));
    assert_eq!(run.advance(disk("1G")), Request::Execute(0));
    assert_eq!(run.advance(Event::LockWritten(true)), Request::Execute(0));
}

#[test]
fn a_run_with_one_change_in_a_group() {
    let mut old = Configuration::empty();
    old.ssh = Some(SshConfig { port: Some(22), authorized_keys: None });
    let mut new = Configuration::empty();
    new.ssh = Some(SshConfig { port: Some(2222), authorized_keys: None });
    let mut run = Reconciliation::begin(&old, &new, false, true);
    assert_eq!(run.diffs().len(), 1);
    assert_eq!(run.steps().len(), 2);
    run.advance(Event::Validated(true));
    run.advance(Event::Shown);
    assert_eq!(run.advance(disk("100G")), Request::Execute(0));
    assert_eq!(run.advance(Event::StepFinished(true)), Request::Execute(1));
    assert_eq!(run.advance(Event::StepFinished(true)), Request::WriteLock);
}
