//! Jobs and computations: construction, paths, lifecycle, retry rule.

use magman::error::Error;
use magman::job::{should_retry_spawn, CompState, Job, SpawnOutcome};

#[test]
fn new_job_defaults() {
    let job = Job::new("echo hi");
    assert_eq!(job.name().len(), 6);
    assert!(job.extra_files.is_empty());
    let c = job.submit("/tmp/w".to_string());
    assert_eq!(c.inp_file(), "/tmp/w/job.inp");
    assert_eq!(c.out_file(), "/tmp/w/job.out");
    assert_eq!(c.err_file(), "/tmp/w/job.err");
    assert_eq!(c.run_file(), "/tmp/w/run");
    assert_eq!(c.wrk_dir(), "/tmp/w");
}

#[test]
fn attach_file_ignores_duplicates() {
    let mut job = Job::new("pwd");
    job.attach_file("POTCAR".to_string());
    job.attach_file("KPOINTS".to_string());
    job.attach_file("POTCAR".to_string());
    assert_eq!(job.extra_files, vec!["POTCAR".to_string(), "KPOINTS".to_string()]);
    let c = job.submit("/w".to_string());
    assert_eq!(c.extra_files(), vec!["/w/POTCAR".to_string(), "/w/KPOINTS".to_string()]);
}

#[test]
fn lifecycle_runs_created_started_completed() {
    let mut c = Job::new("pwd").submit("/w".to_string());
    assert!(!c.is_started());
    assert_eq!(c.state(), CompState::Created);
    c.start(SpawnOutcome::Spawned).unwrap();
    assert!(c.is_started());
    assert_eq!(c.state(), CompState::Started);
    c.wait(true).unwrap();
    assert_eq!(c.state(), CompState::Completed);
}

#[test]
fn wait_before_start_fails() {
    let mut c = Job::new("pwd").submit("/w".to_string());
    assert_eq!(c.wait(true), Err(Error::NotStarted));
    assert_eq!(c.state(), CompState::Created);
}

#[test]
fn failed_exit_is_terminal() {
    let mut c = Job::new("false").submit("/w".to_string());
    c.start(SpawnOutcome::Spawned).unwrap();
    assert_eq!(c.wait(false), Err(Error::ProcessFailure));
    assert_eq!(c.state(), CompState::Failed);
}

#[test]
fn spawn_failure_leaves_computation_unstarted() {
    let mut c = Job::new("pwd").submit("/w".to_string());
    assert_eq!(c.start(SpawnOutcome::OtherError), Err(Error::SpawnFailure));
    assert_eq!(c.state(), CompState::Created);
    assert!(!c.is_started());
}

#[test]
fn busy_file_is_retried_exactly_once() {
    // First attempt hits the transient "text file busy" condition.
    let mut c = Job::new("cat").submit("/w".to_string());
    assert_eq!(c.start(SpawnOutcome::BusyFile), Err(Error::SpawnFailure));
    // The policy orders exactly one retry for it...
    assert!(should_retry_spawn(SpawnOutcome::BusyFile, 1));
    // ...which succeeds and the run goes on to completion.
    c.start(SpawnOutcome::Spawned).unwrap();
    c.wait(true).unwrap();
    assert_eq!(c.state(), CompState::Completed);
    // No second retry, and no retry for other failures.
    assert!(!should_retry_spawn(SpawnOutcome::BusyFile, 2));
    assert!(!should_retry_spawn(SpawnOutcome::OtherError, 1));
    assert!(!should_retry_spawn(SpawnOutcome::Spawned, 1));
}

#[test]
fn run_for_output_composes_start_and_wait() {
    let mut c = Job::new("pwd").submit("/w".to_string());
    c.run_for_output(SpawnOutcome::Spawned, true).unwrap();
    assert_eq!(c.state(), CompState::Completed);

    let mut c = Job::new("pwd").submit("/w".to_string());
    assert_eq!(
        c.run_for_output(SpawnOutcome::OtherError, true),
        Err(Error::SpawnFailure)
    );
    assert_eq!(c.state(), CompState::Created);

    let mut c = Job::new("pwd").submit("/w".to_string());
    assert_eq!(
        c.run_for_output(SpawnOutcome::Spawned, false),
        Err(Error::ProcessFailure)
    );
    assert_eq!(c.state(), CompState::Failed);
}

#[test]
fn is_done_compares_timestamps() {
    let c = Job::new("pwd").submit("/w".to_string());
    assert!(c.is_done(true, Some(100), Some(100)));
    assert!(c.is_done(true, Some(100), Some(250)));
    assert!(!c.is_done(true, Some(250), Some(100)));
    assert!(!c.is_done(false, Some(100), Some(200)));
    assert!(!c.is_done(true, None, Some(200)));
    assert!(!c.is_done(true, Some(100), None));
}
