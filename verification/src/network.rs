//! The registry of names: which connection answers to which name.

use crate::node::{ConnectionHandle, Node, NodeView};
use vstd::hash_map::StringHashMap;
use vstd::prelude::*;

verus! {

/// Why a registration is refused.
#[derive(Clone, Copy, Debug, PartialEq, Eq, Structural)]
pub enum Refusal {
    /// The name is empty. Only a name of at least one character can be
    /// registered.
    EmptyName,
    /// The name already belongs to a connection.
    NameTaken,
}

/// The registry. In contracts it is the map from each registered name to the
/// handle of the connection that holds it, so a name has at most one holder.
/// No name in it is empty.
pub struct Network {
    pub nodemap: StringHashMap<ConnectionHandle>,
}

impl View for Network {
    type V = Map<Seq<char>, ConnectionHandle>;

    open spec fn view(&self) -> Map<Seq<char>, ConnectionHandle> {
        self.nodemap@
    }
}

impl Default for Network {
    /// The registry with no name in it.
    fn default() -> (network: Network)
        ensures
            network@ == Map::<Seq<char>, ConnectionHandle>::empty(),
            network.wf(),
    {
        Network { nodemap: StringHashMap::new() }
    }
}

impl Network {
    /// The registry holds finitely many names, so that it has a size, and
    /// none of them is empty. Every registry that starts empty and changes
    /// through [`Self::add_user`] and [`Self::remove`] is such a registry.
    pub open spec fn wf(&self) -> bool {
        &&& self@.dom().finite()
        &&& !self@.contains_key(Seq::<char>::empty())
    }

    /// What [`Self::add_user`] answers to a request for `owner`: the empty
    /// name is refused, a name that is taken is refused, and any other name
    /// is granted.
    pub open spec fn answer(&self, owner: Seq<char>) -> Result<(), Refusal> {
        if owner.len() == 0 {
            Err(Refusal::EmptyName)
        } else if self@.contains_key(owner) {
            Err(Refusal::NameTaken)
        } else {
            Ok(())
        }
    }

    /// Registers `node` under `owner`. A free name of at least one character
    /// is bound to the node and entered in the registry. The empty name and
    /// a name that is taken are refused, and then neither the registry nor
    /// the node changes.
    pub fn add_user(&mut self, owner: &str, node: &mut Node) -> (added: Result<(), Refusal>)
        ensures
            added == old(self).answer(owner@),
            added is Err ==> final(self)@ == old(self)@ && *final(node) == *old(node),
            added is Ok ==> final(self)@ == old(self)@.insert(owner@, old(node).sender),
            added is Ok ==> final(node)@ == (NodeView {
                owner: Some(owner@),
                sender: old(node).sender,
            }),
            old(self).wf() ==> final(self).wf(),
            old(self).wf() && added is Ok ==> final(self)@.len() == old(self)@.len() + 1,
    {
        if owner.is_empty() {
            Err(Refusal::EmptyName)
        } else if self.nodemap.contains_key(owner) {
            Err(Refusal::NameTaken)
        } else {
            node.owner = Some(owner.to_owned());
            self.nodemap.insert(owner.to_owned(), node.sender);
            proof {
                assert(owner@ !== Seq::<char>::empty());
            }
            Ok(())
        }
    }

    /// Takes `owner` out of the registry. A name that is not registered
    /// leaves the registry as it was.
    pub fn remove(&mut self, owner: &str)
        ensures
            final(self)@ == old(self)@.remove(owner@),
            !old(self)@.contains_key(owner@) ==> final(self)@ == old(self)@,
            old(self).wf() ==> final(self).wf(),
            old(self).wf() && old(self)@.contains_key(owner@) ==> final(self)@.len() == old(
                self,
            )@.len() - 1,
    {
        proof {
            if self@.dom().finite() && self@.contains_key(owner@) {
                self@.lemma_remove_key_len(owner@);
            }
        }
        self.nodemap.remove(owner);
    }

    /// The number of registered names.
    pub fn size(&self) -> (count: usize)
        ensures
            count == self@.len(),
    {
        self.nodemap.len()
    }

    /// The handle of the connection registered under `owner`, if there is one.
    pub fn lookup(&self, owner: &str) -> (found: Option<ConnectionHandle>)
        ensures
            found == if self@.contains_key(owner@) {
                Some(self@[owner@])
            } else {
                None
            },
    {
        match self.nodemap.get(owner) {
            Some(handle) => Some(*handle),
            None => None,
        }
    }
}

} // verus!
