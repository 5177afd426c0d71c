//! Decode targets that take a graph entity's structural metadata instead of one
//! of its properties.
use vstd::prelude::*;

verus! {

/// The identifier of a node or relationship.
#[derive(Clone, Copy, Debug, Default, PartialEq, Eq, Hash, Structural)]
pub struct Id(pub u64);

/// The start node identifier of a relationship.
#[derive(Clone, Copy, Debug, Default, PartialEq, Eq, Hash, Structural)]
pub struct StartNodeId(pub u64);

/// The end node identifier of a relationship.
#[derive(Clone, Copy, Debug, Default, PartialEq, Eq, Hash, Structural)]
pub struct EndNodeId(pub u64);

/// The labels of a node, in the order received.
#[derive(Clone, Debug, Default, PartialEq, Eq, Hash)]
pub struct Labels(pub Vec<String>);

/// The type of a relationship.
#[derive(Clone, Debug, Default, PartialEq, Eq, Hash)]
pub struct Type(pub String);

/// The property keys of a node or relationship, in stored order, each once.
#[derive(Clone, Debug, Default, PartialEq, Eq)]
pub struct Keys(pub Vec<String>);

} // verus!
