//! Job registry: stable identifiers, validation, lifecycle through the Db.

use magman::error::Error;
use magman::job::{Job, SpawnOutcome};
use magman::registry::Db;

fn new_job(script: &str) -> Job {
    Job::new(script)
}

#[test]
fn ids_start_at_one_and_grow() {
    let mut db = Db::new();
    let a = db.insert_job(new_job("pwd"), "/tmp/w1".to_string());
    let b = db.insert_job(new_job("ls"), "/tmp/w2".to_string());
    let c = db.insert_job(new_job("date"), "/tmp/w3".to_string());
    assert_eq!((a, b, c), (1, 2, 3));
}

#[test]
fn ids_are_never_reused() {
    let mut db = Db::new();
    let a = db.insert_job(new_job("pwd"), "/tmp/w1".to_string());
    let b = db.insert_job(new_job("ls"), "/tmp/w2".to_string());
    db.delete_job(a).unwrap();
    let c = db.insert_job(new_job("date"), "/tmp/w3".to_string());
    assert_eq!(c, 3);
    let list = db.get_job_list();
    assert!(list.contains(&b) && list.contains(&c) && !list.contains(&a));
}

#[test]
fn update_job_on_unstarted_succeeds() {
    let mut db = Db::new();
    let id = db.insert_job(new_job("old script"), "/tmp/w1".to_string());
    db.update_job(id, new_job("new script"), "/tmp/w2".to_string())
        .unwrap();
    // The entry now lives in the new working directory.
    assert_eq!(db.job_dir(id).unwrap(), "/tmp/w2");
}

#[test]
fn update_job_on_started_fails() {
    let mut db = Db::new();
    let id = db.insert_job(new_job("pwd"), "/tmp/w1".to_string());
    db.wait_job(id, SpawnOutcome::Spawned, true).unwrap();
    let r = db.update_job(id, new_job("ls"), "/tmp/w2".to_string());
    assert_eq!(r, Err(Error::AlreadyStarted));
    // The old entry is untouched.
    assert_eq!(db.job_dir(id).unwrap(), "/tmp/w1");
}

#[test]
fn update_job_unknown_id_fails() {
    let mut db = Db::new();
    let r = db.update_job(77, new_job("ls"), "/tmp/w".to_string());
    assert_eq!(r, Err(Error::NotFound));
}

#[test]
fn wait_job_unknown_id_fails() {
    let mut db = Db::new();
    assert_eq!(
        db.wait_job(42, SpawnOutcome::Spawned, true),
        Err(Error::NotFound)
    );
}

#[test]
fn wait_job_runs_to_completion() {
    let mut db = Db::new();
    let id = db.insert_job(new_job("pwd"), "/tmp/w".to_string());
    db.wait_job(id, SpawnOutcome::Spawned, true).unwrap();
    // A finished computation is never resurrected.
    assert_eq!(
        db.wait_job(id, SpawnOutcome::Spawned, true),
        Err(Error::AlreadyStarted)
    );
}

#[test]
fn wait_job_spawn_failure_leaves_job_configurable() {
    let mut db = Db::new();
    let id = db.insert_job(new_job("pwd"), "/tmp/w".to_string());
    assert_eq!(
        db.wait_job(id, SpawnOutcome::OtherError, true),
        Err(Error::SpawnFailure)
    );
    // Nothing was started, so the job can still be reconfigured and run.
    db.update_job(id, new_job("ls"), "/tmp/w2".to_string()).unwrap();
    db.wait_job(id, SpawnOutcome::Spawned, true).unwrap();
}

#[test]
fn wait_job_process_failure() {
    let mut db = Db::new();
    let id = db.insert_job(new_job("false"), "/tmp/w".to_string());
    assert_eq!(
        db.wait_job(id, SpawnOutcome::Spawned, false),
        Err(Error::ProcessFailure)
    );
}

#[test]
fn delete_job_unknown_id_fails() {
    let mut db = Db::new();
    assert_eq!(db.delete_job(9), Err(Error::NotFound));
}

#[test]
fn clear_jobs_empties_the_registry() {
    let mut db = Db::new();
    db.insert_job(new_job("a"), "/tmp/w1".to_string());
    db.insert_job(new_job("b"), "/tmp/w2".to_string());
    db.clear_jobs();
    assert!(db.get_job_list().is_empty());
    // The counter survives: the next id is still fresh.
    let id = db.insert_job(new_job("c"), "/tmp/w3".to_string());
    assert_eq!(id, 3);
}

#[test]
fn job_file_path_resolves_under_the_directory() {
    let mut db = Db::new();
    let id = db.insert_job(new_job("pwd"), "/scratch/j1".to_string());
    let p = db.job_file_path(id, &"POSCAR".to_string()).unwrap();
    assert_eq!(p, "/scratch/j1/POSCAR");
    assert_eq!(
        db.job_file_path(id + 1, &"POSCAR".to_string()),
        Err(Error::NotFound)
    );
}

#[test]
fn get_job_list_lists_live_entries_once() {
    let mut db = Db::new();
    let a = db.insert_job(new_job("a"), "/tmp/w1".to_string());
    let b = db.insert_job(new_job("b"), "/tmp/w2".to_string());
    db.delete_job(a).unwrap();
    let list = db.get_job_list();
    assert_eq!(list, vec![b]);
}
