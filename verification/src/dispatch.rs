//! The request dispatcher.
//!
//! [`TaskServer`] is the decision core of the request router: a FIFO queue of
//! pending interactions, the node pool, and the control state.  The
//! surrounding application owns the channels, sockets and worker tasks; each
//! event it observes — a client interaction, a control message, a worker
//! handing its node back — is applied here, and the contracts state what the
//! event does to the state.  Concurrency is throttled by the pool alone: a
//! pending interaction is handed out only together with a borrowed node.

use crate::error::Error;
use crate::job::Job;
use crate::pool::{Node, Nodes};
use vstd::multiset::Multiset;
use vstd::prelude::*;
use vstd::string::StringExecFns;

verus! {

/// The message sent from client for controlling the server.
#[derive(Debug, Clone)]
pub enum Control {
    Quit,
    Pause,
    Resume,
    /// Admit a new remote node, by name, into the pool.
    AddNode(String),
}

/// One pending interaction: a command line, a working directory, and the
/// ticket naming the response slot the application delivers the output to.
#[derive(Debug)]
pub struct Interaction {
    pub cmd: String,
    pub wrk_dir: String,
    pub ticket: usize,
}

/// The mathematical value of an [`Interaction`].
pub struct InteractionV {
    pub cmd: Seq<char>,
    pub wrk_dir: Seq<char>,
    pub ticket: usize,
}

impl View for Interaction {
    type V = InteractionV;

    open spec fn view(&self) -> InteractionV {
        InteractionV { cmd: self.cmd@, wrk_dir: self.wrk_dir@, ticket: self.ticket }
    }
}

/// The shell script a worker runs for one command in one directory: a bash
/// header, a change into the working directory, and the command itself.
pub open spec fn spec_shell_script(cmd: Seq<char>, wrk_dir: Seq<char>) -> Seq<char> {
    "#! /usr/bin/env bash\ncd "@ + wrk_dir + "\n"@ + cmd + "\n"@
}

/// The run script for one remote command: change into the working directory,
/// then run the command.  The node itself does not enter the script; the
/// application reaches the node out-of-band.
pub fn shell_script_for_job(cmd: &str, wrk_dir: &str, node: &Node) -> (script: String)
    ensures
        script@ == spec_shell_script(cmd@, wrk_dir@),
{
    let _ = node;
    let mut script = String::from_str("#! /usr/bin/env bash\ncd ");
    script.append(wrk_dir);
    script.append("\n");
    script.append(cmd);
    script.append("\n");
    script
}

/// Build the job that runs `cmd` in `wrk_dir` for a remote session on `node`.
pub fn create_job_for_remote_session(cmd: &str, wrk_dir: &str, node: &Node) -> (job: Job)
    ensures
        job@.script == spec_shell_script(cmd@, wrk_dir@),
        job@.input == Seq::<char>::empty(),
{
    let script = shell_script_for_job(cmd, wrk_dir, node);
    Job::new(script.as_str())
}

/// The text delivered to a request's response slot: the captured output of a
/// completed job, or the failure marker.
pub fn worker_response(outcome: Result<String, Error>) -> (resp: String)
    ensures
        outcome matches Ok(out) ==> resp@ == out@,
        outcome is Err ==> resp@ == "Job failure"@,
{
    match outcome {
        Ok(out) => out,
        Err(_) => String::from_str("Job failure"),
    }
}

/// The dispatcher state: pending interactions, the node pool, and whether the
/// serving loop goes on.
pub struct TaskServer {
    nodes: Nodes,
    queue: Vec<Interaction>,
    running: bool,
}

impl TaskServer {
    /// The pending interactions, oldest first.
    pub closed spec fn spec_queue(&self) -> Seq<InteractionV> {
        self.queue@.map_values(|i: Interaction| i@)
    }

    /// The names of the nodes resting in the pool.
    pub closed spec fn spec_free(&self) -> Multiset<Seq<char>> {
        self.nodes.free_names()
    }

    /// The names of the nodes on loan to workers.
    pub closed spec fn spec_borrowed(&self) -> Multiset<Seq<char>> {
        self.nodes.borrowed_names()
    }

    /// Every node the dispatcher knows, resting or on loan.
    pub open spec fn spec_circulation(&self) -> Multiset<Seq<char>> {
        self.spec_free().add(self.spec_borrowed())
    }

    /// Whether the serving loop goes on.
    pub closed spec fn spec_running(&self) -> bool {
        self.running
    }

    /// A dispatcher over the given pool, with no pending work.
    pub fn new(nodes: Nodes) -> (server: TaskServer)
        ensures
            server.spec_queue() == Seq::<InteractionV>::empty(),
            server.spec_free() == nodes.free_names(),
            server.spec_borrowed() == nodes.borrowed_names(),
            server.spec_running(),
    {
        let server = TaskServer { nodes, queue: Vec::new(), running: true };
        proof {
            assert(server.spec_queue() =~= Seq::<InteractionV>::empty());
        }
        server
    }

    /// Whether the serving loop goes on.
    pub fn is_running(&self) -> (r: bool)
        ensures
            r == self.spec_running(),
    {
        self.running
    }

    /// A new client interaction arrived: it joins the end of the queue; pool
    /// and control state are untouched.
    pub fn on_interaction(&mut self, cmd: String, wrk_dir: String, ticket: usize)
        ensures
            final(self).spec_queue() == old(self).spec_queue().push(
                (InteractionV { cmd: cmd@, wrk_dir: wrk_dir@, ticket }),
            ),
            final(self).spec_free() == old(self).spec_free(),
            final(self).spec_borrowed() == old(self).spec_borrowed(),
            final(self).spec_running() == old(self).spec_running(),
    {
        let ghost prev = self.spec_queue();
        self.queue.push(Interaction { cmd, wrk_dir, ticket });
        proof {
            assert(self.spec_queue() =~= prev.push(self.queue@.last()@));
        }
    }

    /// A control message arrived.  `Quit` ends the serving loop and nothing
    /// else: in-flight work is not touched.  `AddNode` admits the named node
    /// into the pool at once, growing the circulation by one.  `Pause` and
    /// `Resume` are advisory and change nothing here.
    pub fn on_control(&mut self, ctl: Control)
        requires
            ctl matches Control::AddNode(name) ==> name@.len() > 0,
        ensures
            final(self).spec_queue() == old(self).spec_queue(),
            ctl matches Control::AddNode(name) ==> {
                &&& final(self).spec_free() == old(self).spec_free().insert(name@)
                &&& final(self).spec_borrowed() == old(self).spec_borrowed()
                &&& final(self).spec_circulation() == old(self).spec_circulation().insert(name@)
                &&& final(self).spec_running() == old(self).spec_running()
            },
            ctl is Quit ==> !final(self).spec_running() && final(self).spec_free() == old(self).spec_free() && final(self).spec_borrowed() == old(self).spec_borrowed(),
            ctl is Pause || ctl is Resume ==> final(self).spec_free() == old(self).spec_free()
                && final(self).spec_borrowed() == old(self).spec_borrowed() && final(self).spec_running() == old(self).spec_running(),
    {
        match ctl {
            Control::Quit => {
                self.running = false;
            },
            Control::Pause => {},
            Control::Resume => {},
            Control::AddNode(name) => {
                let node = Node::new(name);
                self.nodes.add_node(node);
            },
        }
    }

    /// Hand out the next unit of work: the oldest pending interaction
    /// together with a borrowed node, when both exist.  This pairing is the
    /// sole concurrency throttle — without a free node nothing is handed out
    /// — and the queue is served first come, first served.
    pub fn next_job(&mut self) -> (r: Option<(Interaction, Node)>)
        ensures
            final(self).spec_running() == old(self).spec_running(),
            final(self).spec_circulation() == old(self).spec_circulation(),
            r is Some <==> old(self).spec_queue().len() > 0 && old(self).spec_free().len() > 0,
            r matches Some((job, node)) ==> {
                &&& job@ == old(self).spec_queue().first()
                &&& final(self).spec_queue() == old(self).spec_queue().drop_first()
                &&& old(self).spec_free().contains(node@)
                &&& final(self).spec_free() == old(self).spec_free().remove(node@)
                &&& final(self).spec_borrowed() == old(self).spec_borrowed().insert(node@)
            },
            r is None ==> final(self).spec_queue() == old(self).spec_queue() && final(self).spec_free() == old(self).spec_free() && final(self).spec_borrowed() == old(self).spec_borrowed(),
    {
        if self.queue.len() == 0 {
            return None;
        }
        match self.nodes.borrow_node() {
            Some(node) => {
                let ghost prev = self.spec_queue();
                let job = self.queue.remove(0);
                proof {
                    assert(self.spec_queue() =~= prev.drop_first());
                }
                Some((job, node))
            },
            None => None,
        }
    }

    /// A worker finished its unit of work, success or failure, and hands its
    /// node back: the node rejoins the pool, and one more pending interaction
    /// can be served.
    pub fn worker_finished(&mut self, node: Node)
        requires
            old(self).spec_borrowed().contains(node@),
        ensures
            final(self).spec_queue() == old(self).spec_queue(),
            final(self).spec_running() == old(self).spec_running(),
            final(self).spec_circulation() == old(self).spec_circulation(),
            final(self).spec_free() == old(self).spec_free().insert(node@),
            final(self).spec_borrowed() == old(self).spec_borrowed().remove(node@),
    {
        self.nodes.return_node(node);
    }
}

} // verus!
