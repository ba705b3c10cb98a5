//! The members of the network.

use vstd::prelude::*;

verus! {

/// A member of the network: a display name, the address it is reached at, and
/// the public key that identifies it and under which its signatures verify.
#[derive(Debug)]
pub struct Node {
    name: String,
    ip: String,
    public_key: String,
}

/// What a node holds, as mathematical values.
pub struct NodeView {
    pub name: Seq<char>,
    pub ip: Seq<char>,
    pub public_key: Seq<char>,
}

impl View for Node {
    type V = NodeView;

    closed spec fn view(&self) -> NodeView {
        NodeView { name: self.name@, ip: self.ip@, public_key: self.public_key@ }
    }
}

impl Node {
    /// A node with the given name, address and public key.
    pub fn new(name: String, ip: String, public_key: String) -> (node: Node)
        ensures
            node@ == (NodeView { name: name@, ip: ip@, public_key: public_key@ }),
    {
        Node { name, ip, public_key }
    }

    /// The display name.
    pub fn get_name(&self) -> (name: &str)
        ensures
            name@ == self@.name,
    {
        self.name.as_str()
    }

    /// The address at which the node answers signing requests.
    pub fn get_ip(&self) -> (ip: &str)
        ensures
            ip@ == self@.ip,
    {
        self.ip.as_str()
    }

    /// The public key.
    pub fn get_public_key(&self) -> (key: &str)
        ensures
            key@ == self@.public_key,
    {
        self.public_key.as_str()
    }

    /// Whether two nodes are the same member, which is decided by the public
    /// key alone.
    pub fn same_key(&self, other: &Node) -> (same: bool)
        ensures
            same == (self@.public_key == other@.public_key),
    {
        self.public_key == other.public_key
    }
}

/// The public keys of a node set, in its order.
pub open spec fn keys_of(nodes: Seq<Node>) -> Seq<Seq<char>> {
    Seq::new(nodes.len(), |i: int| nodes[i]@.public_key)
}

} // verus!
