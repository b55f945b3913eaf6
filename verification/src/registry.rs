//! The node manager's record of the nodes that run: each by its name, with the identifier of
//! the actor that runs it.
use vstd::prelude::*;
use crate::node_store::NodeStoreError;
use crate::paths::string_eq;

verus! {

/// Why the node manager refused a request.
#[derive(Debug, Clone, PartialEq, Eq)]
pub enum NodeManagerError {
    AlreadyStarted { name: String },
    AlreadyStopped { name: String },
    NotStarted { name: String },
    StoreError(NodeStoreError),
    OtherError(String),
}

/// A running node: its name and the identifier of its actor.
pub type Entry = (Seq<char>, u64);

/// Some entry is for the node `n`.
pub open spec fn has_name(s: Seq<Entry>, n: Seq<char>) -> bool {
    exists|i: int| 0 <= i < s.len() && #[trigger] s[i].0 == n
}

/// No name occurs twice.
pub open spec fn names_distinct(s: Seq<Entry>) -> bool {
    forall|i: int, j: int| 0 <= i < j < s.len() ==> #[trigger] s[i].0 != #[trigger] s[j].0
}

/// The running nodes, by name.
#[derive(Debug)]
pub struct NodeRegistry {
    nodes: Vec<(String, u64)>,
}

impl NodeRegistry {
    /// The running nodes, in the order in which they started.
    pub closed spec fn entries(&self) -> Seq<Entry> {
        self.nodes@.map_values(|e: (String, u64)| (e.0@, e.1))
    }

    /// No node runs.
    pub fn new() -> (r: NodeRegistry)
        ensures
            r.entries().len() == 0,
    {
        NodeRegistry { nodes: Vec::new() }
    }

    fn find(&self, name: &str) -> (r: Option<usize>)
        ensures
            match r {
                Some(i) => i < self.entries().len() && self.entries()[i as int].0 == name@,
                None => !has_name(self.entries(), name@),
            },
    {
        let wanted = name.to_owned();
        let mut i: usize = 0;
        while i < self.nodes.len()
            invariant
                i <= self.nodes@.len(),
                wanted@ == name@,
                forall|j: int| 0 <= j < i ==> #[trigger] self.entries()[j].0 != name@,
            decreases self.nodes.len() - i,
        {
            if string_eq(&self.nodes[i].0, &wanted) {
                proof {
                    assert(self.entries()[i as int].0 == self.nodes@[i as int].0@);
                }
                return Some(i);
            }
            proof {
                assert(self.entries()[i as int].0 == self.nodes@[i as int].0@);
            }
            i = i + 1;
        }
        None
    }

    /// Whether the node `name` runs.
    pub fn is_running(&self, name: &str) -> (r: bool)
        ensures
            r == has_name(self.entries(), name@),
    {
        self.find(name).is_some()
    }

    /// Whether the node `name` may be started: refused where it already runs. The store is to
    /// be asked for the node only where this allows it.
    pub fn check_can_start(&self, name: &str) -> (r: Result<(), NodeManagerError>)
        ensures
            has_name(self.entries(), name@) ==> (r matches Err(NodeManagerError::AlreadyStarted {
                name: n,
            }) && n@ == name@),
            !has_name(self.entries(), name@) ==> r is Ok,
    {
        if self.find(name).is_some() {
            Err(NodeManagerError::AlreadyStarted { name: name.to_owned() })
        } else {
            Ok(())
        }
    }

    /// Records that the node `name`, as the store loaded it, runs: `loaded` is the identifier of
    /// the actor that runs the loaded node, or the store's error. Refused, with nothing
    /// changed, where the node already runs (the store is then not to be asked) or where the
    /// store could not load it.
    pub fn start_node(&mut self, name: &str, loaded: Result<u64, NodeStoreError>) -> (r: Result<
        (),
        NodeManagerError,
    >)
        requires
            names_distinct(old(self).entries()),
        ensures
            names_distinct(final(self).entries()),
            has_name(old(self).entries(), name@) ==> (final(self).entries() == old(self).entries()
                && (r matches Err(NodeManagerError::AlreadyStarted { name: n }) && n@ == name@)),
            !has_name(old(self).entries(), name@) ==> match loaded {
                Ok(id) => r is Ok && final(self).entries() == old(self).entries().push((name@, id)),
                Err(e) => final(self).entries() == old(self).entries() && r == Err::<
                    (),
                    NodeManagerError,
                >(NodeManagerError::StoreError(e)),
            },
    {
        if self.find(name).is_some() {
            return Err(NodeManagerError::AlreadyStarted { name: name.to_owned() });
        }
        let id = match loaded {
            Ok(id) => id,
            Err(e) => {
                return Err(NodeManagerError::StoreError(e));
            },
        };
        let ghost before = self.entries();
        self.nodes.push((name.to_owned(), id));
        proof {
            assert(self.entries() =~= before.push((name@, id)));
            assert forall|i: int, j: int|
                0 <= i < j < self.entries().len() implies #[trigger] self.entries()[i].0
                != #[trigger] self.entries()[j].0 by {
                if j == before.len() {
                    assert(before[i].0 != name@);
                }
            }
        }
        Ok(())
    }

    /// The actor that runs the node `name`; refused where it does not run.
    pub fn get_node(&self, name: &str) -> (r: Result<u64, NodeManagerError>)
        ensures
            match r {
                Ok(id) => exists|i: int|
                    0 <= i < self.entries().len() && #[trigger] self.entries()[i] == (name@, id),
                Err(e) => !has_name(self.entries(), name@) && (e matches NodeManagerError::NotStarted {
                    name: n,
                } && n@ == name@),
            },
    {
        match self.find(name) {
            Some(i) => {
                proof {
                    assert(self.entries()[i as int] == (name@, self.nodes@[i as int].1));
                }
                Ok(self.nodes[i].1)
            },
            None => Err(NodeManagerError::NotStarted { name: name.to_owned() }),
        }
    }

    /// The names of the running nodes, in the order in which they started.
    pub fn names(&self) -> (r: Vec<String>)
        ensures
            r@.len() == self.entries().len(),
            forall|i: int| 0 <= i < r@.len() ==> #[trigger] r@[i]@ == self.entries()[i].0,
    {
        let mut out: Vec<String> = Vec::new();
        let mut i: usize = 0;
        while i < self.nodes.len()
            invariant
                i <= self.nodes@.len(),
                out@.len() == i,
                forall|j: int| 0 <= j < i ==> #[trigger] out@[j]@ == self.entries()[j].0,
            decreases self.nodes.len() - i,
        {
            out.push(self.nodes[i].0.clone());
            i = i + 1;
        }
        out
    }

    /// The actor `id` died: its node no longer runs, and its name is returned; refused where
    /// no running node has that actor.
    pub fn on_link_died(&mut self, id: u64) -> (r: Result<String, NodeManagerError>)
        requires
            names_distinct(old(self).entries()),
        ensures
            names_distinct(final(self).entries()),
            match r {
                Ok(n) => exists|i: int|
                    0 <= i < old(self).entries().len() && #[trigger] old(self).entries()[i] == (
                        n@,
                        id,
                    ) && final(self).entries() == old(self).entries().remove(i),
                Err(_) => final(self).entries() == old(self).entries() && forall|i: int|
                    0 <= i < old(self).entries().len() ==> #[trigger] old(self).entries()[i].1 != id,
            },
    {
        let mut i: usize = 0;
        while i < self.nodes.len()
            invariant
                i <= self.nodes@.len(),
                self.nodes@ == old(self).nodes@,
                names_distinct(old(self).entries()),
                forall|j: int| 0 <= j < i ==> #[trigger] self.entries()[j].1 != id,
            decreases self.nodes.len() - i,
        {
            if self.nodes[i].1 == id {
                let ghost before = self.entries();
                let (name, _) = self.nodes.remove(i);
                proof {
                    assert(self.entries() =~= before.remove(i as int));
                    assert(before[i as int] == (name@, id));
                    assert forall|a: int, b: int|
                        0 <= a < b < self.entries().len() implies #[trigger] self.entries()[a].0
                        != #[trigger] self.entries()[b].0 by {
                        let a2 = if a < i {
                            a
                        } else {
                            a + 1
                        };
                        let b2 = if b < i {
                            b
                        } else {
                            b + 1
                        };
                        assert(self.entries()[a] == before[a2]);
                        assert(self.entries()[b] == before[b2]);
                    }
                    assert(old(self).entries()[i as int] == (name@, id));
                }
                return Ok(name);
            }
            proof {
                assert(self.entries()[i as int].1 == self.nodes@[i as int].1);
            }
            i = i + 1;
        }
        Err(NodeManagerError::OtherError("there is no such node started".to_owned()))
    }
}

/// A node that was started is found under its name, in the actor it was started in.
pub proof fn lemma_started_is_found(s: Seq<Entry>, n: Seq<char>, id: u64, found: u64)
    requires
        names_distinct(s.push((n, id))),
        exists|i: int| 0 <= i < s.push((n, id)).len() && #[trigger] s.push((n, id))[i] == (n, found),
    ensures
        found == id,
{
    let t = s.push((n, id));
    let i = choose|i: int| 0 <= i < t.len() && #[trigger] t[i] == (n, found);
    if i < s.len() {
        assert(t[i].0 == t[s.len() as int].0);
    }
}

/// A node whose actor died is no longer running.
pub proof fn lemma_died_not_running(s: Seq<Entry>, i: int)
    requires
        names_distinct(s),
        0 <= i < s.len(),
    ensures
        !has_name(s.remove(i), s[i].0),
{
    if has_name(s.remove(i), s[i].0) {
        let k = choose|k: int| 0 <= k < s.remove(i).len() && #[trigger] s.remove(i)[k].0 == s[i].0;
        let k2 = if k < i {
            k
        } else {
            k + 1
        };
        assert(s.remove(i)[k] == s[k2]);
        if k2 < i {
            assert(s[k2].0 != s[i].0);
        } else {
            assert(s[i].0 != s[k2].0);
        }
    }
}

} // verus!
