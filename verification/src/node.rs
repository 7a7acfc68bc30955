//! One live connection as the relay sees it.

use crate::text::characters_of;
use vstd::prelude::*;

verus! {

/// The relay's handle to one connection: the position of that connection in
/// the relay's connection table. A message addressed to a handle is sent on
/// the connection behind it.
#[derive(Clone, Copy, Debug, PartialEq, Eq, Hash, Structural)]
pub struct ConnectionHandle {
    pub index: usize,
}

/// A connection: the name it registered under, if any, and the handle on
/// which messages to it are sent.
#[derive(Clone, Debug, PartialEq, Eq)]
pub struct Node {
    pub owner: Option<String>,
    pub sender: ConnectionHandle,
}

/// What a [`Node`] is in contracts: its name as a sequence of characters, and
/// its handle.
pub struct NodeView {
    pub owner: Option<Seq<char>>,
    pub sender: ConnectionHandle,
}

impl View for Node {
    type V = NodeView;

    open spec fn view(&self) -> NodeView {
        NodeView { owner: characters_of(self.owner), sender: self.sender }
    }
}

impl Node {
    /// A connection that has not registered a name yet.
    pub fn new(sender: ConnectionHandle) -> (node: Node)
        ensures
            node.owner is None,
            node.sender == sender,
    {
        Node { owner: None, sender }
    }
}

} // verus!
