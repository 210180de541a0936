//! Interactive remote-node sessions: availability bookkeeping.
//!
//! The interactive runner drives one remote node at a time; this module
//! tracks each node's availability.  Running the remote commands themselves
//! is I/O and belongs to the surrounding application.

use vstd::prelude::*;
use vstd::string::StringExecFns;

verus! {

/// The availability of a remote node in an interactive session.
#[derive(Debug, Clone, Copy, PartialEq, Eq, Structural)]
pub enum NodeStatus {
    Ready,
    Busy,
    Down,
}

/// A remote node of the interactive runner, with its availability.
#[derive(Debug)]
pub struct Node {
    name: String,
    status: NodeStatus,
}

impl Node {
    /// The node's name.
    pub closed spec fn spec_name(&self) -> Seq<char> {
        self.name@
    }

    /// The node's availability.
    pub closed spec fn spec_status(&self) -> NodeStatus {
        self.status
    }

    /// A fresh node starts ready.
    pub fn new(name: &str) -> (node: Node)
        ensures
            node.spec_name() == name@,
            node.spec_status() == NodeStatus::Ready,
    {
        Node { name: String::from_str(name), status: NodeStatus::Ready }
    }

    /// Whether the node is ready to take work.
    pub fn is_ready(&self) -> (r: bool)
        ensures
            r == (self.spec_status() == NodeStatus::Ready),
    {
        self.status == NodeStatus::Ready
    }

    /// Mark the node ready; its name is untouched.
    pub fn mark_as_ready(&mut self)
        ensures
            final(self).spec_status() == NodeStatus::Ready,
            final(self).spec_name() == old(self).spec_name(),
    {
        self.status = NodeStatus::Ready
    }

    /// Mark the node busy; its name is untouched.
    pub fn mark_as_busy(&mut self)
        ensures
            final(self).spec_status() == NodeStatus::Busy,
            final(self).spec_name() == old(self).spec_name(),
    {
        self.status = NodeStatus::Busy
    }
}

} // verus!
