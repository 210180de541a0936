//! The node resource pool.
//!
//! A [`Node`] is an addressable remote execution target, identified by a
//! non-empty name.  [`Nodes`] is a bounded multiset of such targets: workers
//! borrow a node, run one unit of work on it, and return it.  What is on loan
//! is tracked as a ghost multiset of node names, so that every operation's
//! contract states the conservation law: nodes are never lost or duplicated,
//! and the circulation grows only across an explicit [`Nodes::add_node`].

use vstd::multiset::Multiset;
use vstd::prelude::*;

verus! {

broadcast use {vstd::seq_lib::group_to_multiset_ensures, vstd::multiset::group_multiset_axioms};

/// Represents a remote node for computation.
#[derive(Debug, Clone)]
pub struct Node {
    name: String,
}

impl View for Node {
    type V = Seq<char>;

    closed spec fn view(&self) -> Seq<char> {
        self.name@
    }
}

impl Node {
    /// Construct a node from its non-empty name.
    pub fn new(name: String) -> (node: Node)
        requires
            name@.len() > 0,
        ensures
            node@ == name@,
    {
        Node { name }
    }

    /// Return the name of remote node.
    pub fn name(&self) -> (name: &str)
        ensures
            name@ == self@,
    {
        self.name.as_str()
    }
}

/// Represents a list of remote nodes allocated for computation.
pub struct Nodes {
    free: Vec<Node>,
    borrowed: Ghost<Multiset<Seq<char>>>,
}

impl Nodes {
    /// The multiset of names of the nodes now resting in the pool.
    pub closed spec fn free_names(&self) -> Multiset<Seq<char>> {
        self.free@.map_values(|n: Node| n@).to_multiset()
    }

    /// The multiset of names of the nodes now on loan to workers.
    pub closed spec fn borrowed_names(&self) -> Multiset<Seq<char>> {
        self.borrowed@
    }

    /// How many nodes rest in the pool, ready to be borrowed.
    pub open spec fn available(&self) -> nat {
        self.free_names().len()
    }

    /// Every node of the pool, resting or on loan: the circulation.
    pub open spec fn in_circulation(&self) -> Multiset<Seq<char>> {
        self.free_names().add(self.borrowed_names())
    }

    /// Construct `Nodes` from a list of node names, one entry per name.
    pub fn new(names: Vec<String>) -> (pool: Nodes)
        requires
            forall|i: int| 0 <= i < names@.len() ==> #[trigger] names@[i]@.len() > 0,
        ensures
            pool.borrowed_names() == Multiset::<Seq<char>>::empty(),
            pool.in_circulation() == names@.map_values(|s: String| s@).to_multiset(),
            pool.available() == names@.len(),
    {
        let mut free: Vec<Node> = Vec::new();
        let n = names.len();
        for i in 0..n
            invariant
                n == names@.len(),
                free@.len() == i,
                forall|j: int| 0 <= j < i ==> #[trigger] free@[j]@ == names@[j]@,
                forall|j: int| 0 <= j < names@.len() ==> #[trigger] names@[j]@.len() > 0,
        {
            let name = names[i].clone();
            free.push(Node::new(name));
        }
        let pool = Nodes { free, borrowed: Ghost(Multiset::empty()) };
        proof {
            assert(pool.free@.map_values(|nd: Node| nd@) =~= names@.map_values(|s: String| s@));
            assert(pool.in_circulation() =~= pool.free_names());
        }
        pool
    }

    /// Borrow one node from `Nodes`; `None` when every node is on loan.
    ///
    /// Pool and loans together are conserved: the circulation after the call
    /// is the circulation before it.
    pub fn borrow_node(&mut self) -> (r: Option<Node>)
        ensures
            final(self).in_circulation() == old(self).in_circulation(),
            r is Some <==> old(self).available() > 0,
            r matches Some(node) ==> {
                &&& old(self).free_names().contains(node@)
                &&& final(self).free_names() == old(self).free_names().remove(node@)
                &&& final(self).borrowed_names() == old(self).borrowed_names().insert(node@)
            },
            r is None ==> final(self).free_names() == old(self).free_names()
                && final(self).borrowed_names() == old(self).borrowed_names(),
    {
        let ghost old_map = self.free@.map_values(|n: Node| n@);
        match self.free.pop() {
            Some(node) => {
                proof {
                    self.borrowed@ = self.borrowed@.insert(node@);
                    let new_map = self.free@.map_values(|n: Node| n@);
                    assert(old_map =~= new_map.push(node@));
                    assert(self.free_names() =~= old(self).free_names().remove(node@));
                    assert(self.in_circulation() =~= old(self).in_circulation());
                }
                Some(node)
            },
            None => {
                assert(old(self).free_names().len() == 0);
                None
            },
        }
    }

    /// Return one `node` to `Nodes`, making it available again.
    ///
    /// The node must be one that is on loan; pool and loans together are
    /// conserved.
    pub fn return_node(&mut self, node: Node)
        requires
            old(self).borrowed_names().contains(node@),
        ensures
            final(self).in_circulation() == old(self).in_circulation(),
            final(self).free_names() == old(self).free_names().insert(node@),
            final(self).borrowed_names() == old(self).borrowed_names().remove(node@),
    {
        let ghost old_map = self.free@.map_values(|n: Node| n@);
        proof {
            self.borrowed@ = self.borrowed@.remove(node@);
        }
        let ghost name = node@;
        self.free.push(node);
        proof {
            assert(self.free@.map_values(|n: Node| n@) =~= old_map.push(name));
            assert(self.in_circulation() =~= old(self).in_circulation());
        }
    }

    /// Admit one more node into the pool: the circulation grows by this node,
    /// and nothing on loan is touched.
    pub fn add_node(&mut self, node: Node)
        ensures
            final(self).free_names() == old(self).free_names().insert(node@),
            final(self).borrowed_names() == old(self).borrowed_names(),
            final(self).in_circulation() == old(self).in_circulation().insert(node@),
    {
        let ghost old_map = self.free@.map_values(|n: Node| n@);
        let ghost name = node@;
        self.free.push(node);
        proof {
            assert(self.free@.map_values(|n: Node| n@) =~= old_map.push(name));
            assert(self.in_circulation() =~= old(self).in_circulation().insert(name));
        }
    }
}

/// Conservation of nodes: the nodes on loan and the nodes resting in the pool
/// always partition the circulation, so no more nodes are ever on loan at
/// once than the pool has in circulation.  Together with the per-operation
/// contracts — `borrow_node` and `return_node` keep the circulation, only
/// `add_node` grows it — this bounds the number of concurrent borrowers of
/// any sequence of borrow and return operations by the pool size.
pub proof fn lemma_pool_conservation(pool: Nodes)
    ensures
        pool.borrowed_names().len() + pool.free_names().len() == pool.in_circulation().len(),
        pool.borrowed_names().len() <= pool.in_circulation().len(),
{
    broadcast use vstd::multiset::group_multiset_axioms;

}

} // verus!
