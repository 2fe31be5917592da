//! Handles by which nodes and parameters refer to each other.

use vstd::prelude::*;

verus! {

/// Handle of a node: its slot in the graph's node arena.
#[derive(Clone, Copy, Debug, PartialEq, Eq, Structural, Hash)]
pub struct NodeId(pub usize);

/// Handle of an input parameter: its slot in the graph's input arena.
#[derive(Clone, Copy, Debug, PartialEq, Eq, Structural, Hash)]
pub struct InputId(pub usize);

/// Handle of an output parameter: its slot in the graph's output arena.
#[derive(Clone, Copy, Debug, PartialEq, Eq, Structural, Hash)]
pub struct OutputId(pub usize);

/// Either kind of parameter handle.
#[derive(Clone, Copy, Debug, PartialEq, Eq, Structural, Hash)]
pub enum AnyParameterId {
    Input(InputId),
    Output(OutputId),
}

impl AnyParameterId {
    /// The input handle inside, where this is one.
    pub fn as_input(&self) -> (r: Option<InputId>)
        ensures
            r == (match *self {
                AnyParameterId::Input(id) => Some(id),
                AnyParameterId::Output(_) => None,
            }),
    {
        match self {
            AnyParameterId::Input(id) => Some(*id),
            AnyParameterId::Output(_) => None,
        }
    }

    /// The output handle inside, where this is one.
    pub fn as_output(&self) -> (r: Option<OutputId>)
        ensures
            r == (match *self {
                AnyParameterId::Output(id) => Some(id),
                AnyParameterId::Input(_) => None,
            }),
    {
        match self {
            AnyParameterId::Output(id) => Some(*id),
            AnyParameterId::Input(_) => None,
        }
    }
}

} // verus!
