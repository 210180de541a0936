//! Dispatcher: FIFO queueing, pool throttling, control messages.

use magman::dispatch::{
    create_job_for_remote_session, shell_script_for_job, worker_response, Control, TaskServer,
};
use magman::error::Error;
use magman::pool::{Node, Nodes};

fn server_of(names: &[&str]) -> TaskServer {
    TaskServer::new(Nodes::new(names.iter().map(|n| n.to_string()).collect()))
}

#[test]
fn three_commands_two_nodes() {
    // Three concurrent command requests over a pool of two nodes: two run at
    // once, the third starts only after a node is handed back.
    let mut server = server_of(&["n1", "n2"]);
    server.on_interaction("sleep 1; echo done".to_string(), ".".to_string(), 1);
    server.on_interaction("sleep 1; echo done".to_string(), ".".to_string(), 2);
    server.on_interaction("sleep 1; echo done".to_string(), ".".to_string(), 3);

    let (job1, node1) = server.next_job().unwrap();
    let (job2, _node2) = server.next_job().unwrap();
    assert_eq!((job1.ticket, job2.ticket), (1, 2));
    // Both nodes are on loan: the third request waits.
    assert!(server.next_job().is_none());
    // One worker finishes; the third request is served, oldest first.
    server.worker_finished(node1);
    let (job3, _node3) = server.next_job().unwrap();
    assert_eq!(job3.ticket, 3);
}

#[test]
fn add_node_raises_concurrency_mid_run() {
    let mut server = server_of(&["n1", "n2"]);
    server.on_interaction("pwd".to_string(), "/tmp".to_string(), 1);
    server.on_interaction("pwd".to_string(), "/tmp".to_string(), 2);
    server.on_interaction("pwd".to_string(), "/tmp".to_string(), 3);
    let (_j1, n1) = server.next_job().unwrap();
    let (_j2, _n2) = server.next_job().unwrap();
    assert!(server.next_job().is_none());
    // A node admitted mid-run serves the next request at once...
    server.on_control(Control::AddNode("n3".to_string()));
    let (j3, n3) = server.next_job().unwrap();
    assert_eq!(j3.ticket, 3);
    assert_eq!(n3.name(), "n3");
    // ...without disrupting in-flight work: the earlier loan comes back fine.
    server.worker_finished(n1);
    server.on_interaction("pwd".to_string(), "/tmp".to_string(), 4);
    assert!(server.next_job().is_some());
}

#[test]
fn quit_stops_the_loop_and_keeps_work() {
    let mut server = server_of(&["n1"]);
    server.on_interaction("pwd".to_string(), "/tmp".to_string(), 1);
    assert!(server.is_running());
    server.on_control(Control::Quit);
    assert!(!server.is_running());
    // Already-queued work is not dropped by the quit message itself.
    assert!(server.next_job().is_some());
}

#[test]
fn pause_and_resume_are_advisory() {
    let mut server = server_of(&["n1"]);
    server.on_interaction("pwd".to_string(), "/tmp".to_string(), 1);
    server.on_control(Control::Pause);
    server.on_control(Control::Resume);
    assert!(server.is_running());
    assert!(server.next_job().is_some());
}

#[test]
fn no_work_without_requests() {
    let mut server = server_of(&["n1"]);
    assert!(server.next_job().is_none());
}

#[test]
fn shell_script_layout() {
    let node = Node::new("n1".to_string());
    let script = shell_script_for_job("pwd", "/tmp", &node);
    assert_eq!(script, "#! /usr/bin/env bash\ncd /tmp\npwd\n");
}

#[test]
fn remote_session_job_gets_fresh_name() {
    let node = Node::new("n1".to_string());
    let job = create_job_for_remote_session("pwd", "/tmp", &node);
    assert_eq!(job.name().len(), 6);
}

#[test]
fn worker_response_text() {
    assert_eq!(worker_response(Ok("out\n".to_string())), "out\n");
    assert_eq!(worker_response(Err(Error::ProcessFailure)), "Job failure");
    assert_eq!(worker_response(Err(Error::SpawnFailure)), "Job failure");
}
