//! What the editor remembers besides the graph: which node is the active one.

use vstd::prelude::*;
use crate::graph::Graph;
use crate::id_type::NodeId;

verus! {

/// What a node's own controls ask for.
#[derive(Clone, Copy, Debug, PartialEq, Eq, Structural)]
pub enum MyResponse {
    SetActiveNode(NodeId),
    ClearActiveNode,
}

/// The editor's state: the node whose value is shown, if any.
#[derive(Clone, Copy, Debug, PartialEq, Eq, Structural)]
pub struct MyGraphState {
    pub active_node: Option<NodeId>,
}

impl Default for MyGraphState {
    /// No node is active.
    fn default() -> (s: Self)
        ensures
            s.active_node is None,
    {
        MyGraphState { active_node: None }
    }
}

impl MyGraphState {
    /// Whether that node is the active one.
    pub fn is_active(&self, node_id: NodeId) -> (r: bool)
        ensures
            r == (self.active_node == Some(node_id)),
    {
        match self.active_node {
            Some(id) => id == node_id,
            None => false,
        }
    }

    /// Follows a response: the node named becomes the active one, or no node is.
    pub fn apply(&mut self, response: MyResponse)
        ensures
            final(self).active_node == (match response {
                MyResponse::SetActiveNode(node) => Some(node),
                MyResponse::ClearActiveNode => None,
            }),
    {
        match response {
            MyResponse::SetActiveNode(node) => {
                self.active_node = Some(node);
            },
            MyResponse::ClearActiveNode => {
                self.active_node = None;
            },
        }
    }

    /// The node to evaluate and show: the active node, as long as the graph
    /// still holds it. An active node that has left the graph is forgotten.
    pub fn active_target(&mut self, graph: &Graph) -> (r: Option<NodeId>)
        ensures
            r == (match old(self).active_node {
                Some(node) if graph@.nodes.contains_key(node) => Some(node),
                _ => None,
            }),
            final(self).active_node == r,
    {
        match self.active_node {
            Some(node) => {
                if graph.contains_node(node) {
                    Some(node)
                } else {
                    self.active_node = None;
                    None
                }
            },
            None => None,
        }
    }
}

} // verus!
