//! The static topology of the cluster: the declared nodes, in order, and the
//! identity of the node this process runs as.

use vstd::prelude::*;

verus! {

/// Why a configuration cannot be used to start a node.
#[derive(Debug, Clone, Copy, PartialEq, Eq, Structural)]
pub enum ConfigError {
    /// No declared node carries the identifier of the current node.
    UnknownNode,
    /// The storage kind is neither `"sled"` nor `"memory"`.
    UnknownStorage,
    /// The persistent storage was chosen without a database name.
    MissingDbName,
}

/// One node of the cluster.
#[derive(Debug)]
pub struct Instance {
    pub id: usize,
    pub address: String,
    pub name: String,
}

/// What an [`Instance`] holds, as mathematical values.
pub struct InstanceView {
    pub id: usize,
    pub address: Seq<char>,
    pub name: Seq<char>,
}

impl View for Instance {
    type V = InstanceView;

    open spec fn view(&self) -> InstanceView {
        InstanceView { id: self.id, address: self.address@, name: self.name@ }
    }
}

/// The node list, in its declared order, and the node this process is.
pub struct NodeConfig {
    pub nodes: Vec<Instance>,
    pub current_node: Instance,
}

/// The views of a node list, position by position.
pub open spec fn node_views(nodes: Seq<Instance>) -> Seq<InstanceView> {
    Seq::new(nodes.len(), |i: int| nodes[i]@)
}

/// `at` is the position of the first node of `nodes` whose identifier is `id`.
pub open spec fn is_first_with_id(nodes: Seq<Instance>, id: usize, at: int) -> bool {
    &&& 0 <= at < nodes.len()
    &&& nodes[at].id == id
    &&& forall|j: int| 0 <= j < at ==> (#[trigger] nodes[j]).id != id
}

/// Some node of `nodes` carries the identifier `id`.
pub open spec fn has_id(nodes: Seq<Instance>, id: usize) -> bool {
    exists|i: int| 0 <= i < nodes.len() && (#[trigger] nodes[i]).id == id
}

impl NodeConfig {
    /// The current node is one of the declared nodes, by identifier.
    pub open spec fn wf(&self) -> bool {
        has_id(self.nodes@, self.current_node.id)
    }

    /// No two declared nodes share an identifier.
    pub open spec fn ids_unique(&self) -> bool {
        forall|i: int, j: int|
            0 <= i < j < self.nodes.len() ==> (#[trigger] self.nodes[i]).id != (
            #[trigger] self.nodes[j]).id
    }

    /// Builds the topology of the node `node_id` from the declared nodes.
    ///
    /// The node list is kept as given. The current node is a copy of the
    /// first declared node that carries `node_id`; without such a node there
    /// is no topology.
    pub fn init(nodes: Vec<Instance>, node_id: usize) -> (r: Result<NodeConfig, ConfigError>)
        ensures
            match r {
                Ok(config) => {
                    &&& config.wf()
                    &&& config.nodes == nodes
                    &&& exists|at: int|
                        is_first_with_id(nodes@, node_id, at) && config.current_node@
                            == (#[trigger] nodes[at])@
                },
                Err(e) => e == ConfigError::UnknownNode && !has_id(nodes@, node_id),
            },
    {
        let mut i: usize = 0;
        while i < nodes.len()
            invariant
                0 <= i <= nodes.len(),
                forall|j: int| 0 <= j < i ==> (#[trigger] nodes[j]).id != node_id,
            decreases nodes.len() - i,
        {
            if nodes[i].id == node_id {
                let current_node = Instance {
                    id: nodes[i].id,
                    address: nodes[i].address.clone(),
                    name: nodes[i].name.clone(),
                };
                assert(is_first_with_id(nodes@, node_id, i as int));
                assert(current_node@ == nodes[i as int]@);
                return Ok(NodeConfig { nodes, current_node });
            }
            i += 1;
        }
        Err(ConfigError::UnknownNode)
    }
}

} // verus!
