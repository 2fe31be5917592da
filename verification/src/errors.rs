//! What the graph store refuses, as values.

use vstd::prelude::*;
use crate::id_type::{AnyParameterId, InputId, NodeId, OutputId};

verus! {

/// A request that the graph store could not serve. The graph is left as it
/// was whenever one of these is returned.
#[derive(Clone, Debug, PartialEq, Eq)]
pub enum EguiGraphError {
    /// The node has no parameter of that name, or more than one.
    NoParameterNamed(NodeId, String),
    /// The graph holds no parameter under that handle.
    InvalidParameterId(AnyParameterId),
    /// The graph holds no node under that handle.
    InvalidNodeId(NodeId),
    /// Joining that output to that input would make a node depend on itself.
    CyclicConnection(OutputId, InputId),
}

/// What an error says, for contracts.
pub enum GraphErrorView {
    NoParameterNamed(NodeId, Seq<char>),
    InvalidParameterId(AnyParameterId),
    InvalidNodeId(NodeId),
    CyclicConnection(OutputId, InputId),
}

impl View for EguiGraphError {
    type V = GraphErrorView;

    open spec fn view(&self) -> GraphErrorView {
        match *self {
            EguiGraphError::NoParameterNamed(node, name) => GraphErrorView::NoParameterNamed(
                node,
                name@,
            ),
            EguiGraphError::InvalidParameterId(id) => GraphErrorView::InvalidParameterId(id),
            EguiGraphError::InvalidNodeId(id) => GraphErrorView::InvalidNodeId(id),
            EguiGraphError::CyclicConnection(output, input) => GraphErrorView::CyclicConnection(
                output,
                input,
            ),
        }
    }
}

/// A result of the graph store with its error, if any, taken by what it says.
pub open spec fn outcome<T>(r: Result<T, EguiGraphError>) -> Result<T, GraphErrorView> {
    match r {
        Ok(v) => Ok(v),
        Err(e) => Err(e@),
    }
}

} // verus!
