//! The nodes of the audio graph: channels, tracks (a channel with clips)
//! and the node type the graph holds, which forwards to either.
use vstd::prelude::*;

verus! {

/// Identifies a node of the audio graph.
#[derive(Clone, Copy, Debug, Default, PartialEq, Eq, Structural)]
pub struct NodeId(pub usize);

/// A mixer channel.  Its processing state lives elsewhere for now: resetting,
/// applying an action, collecting or clearing updates and restarting plugins
/// leave it as it is.
#[derive(Debug, Default)]
pub struct Channel {
    pub id: NodeId,
}

impl Channel {
    /// The channel's node id.
    pub fn id(&self) -> (id: NodeId)
        ensures
            id == self.id,
    {
        self.id
    }

    pub fn reset(&mut self)
        ensures
            *final(self) == *old(self),
    {
    }

    pub fn apply<A, S>(&mut self, _action: A, _state: &S)
        ensures
            *final(self) == *old(self),
    {
    }

    /// Contributes no updates.
    pub fn collect_updates<E>(&mut self, _updates: &mut Vec<E>)
        ensures
            *final(self) == *old(self),
            final(_updates)@ == old(_updates)@,
    {
    }

    pub fn clear_updates(&mut self)
        ensures
            *final(self) == *old(self),
    {
    }

    pub fn restart_all_plugins(&mut self)
        ensures
            *final(self) == *old(self),
    {
    }
}

/// A track: a channel that also plays clips.  Every operation is its
/// channel's.
#[derive(Debug)]
pub struct Track {
    pub channel: Channel,
}

impl Track {
    pub fn id(&self) -> (id: NodeId)
        ensures
            id == self.channel.id,
    {
        self.channel.id()
    }

    pub fn reset(&mut self)
        ensures
            *final(self) == *old(self),
    {
        self.channel.reset();
    }

    pub fn apply<A, S>(&mut self, action: A, state: &S)
        ensures
            *final(self) == *old(self),
    {
        self.channel.apply(action, state);
    }

    pub fn collect_updates<E>(&mut self, updates: &mut Vec<E>)
        ensures
            *final(self) == *old(self),
            final(updates)@ == old(updates)@,
    {
        self.channel.collect_updates(updates);
    }

    pub fn clear_updates(&mut self)
        ensures
            *final(self) == *old(self),
    {
        self.channel.clear_updates();
    }

    pub fn restart_all_plugins(&mut self)
        ensures
            *final(self) == *old(self),
    {
        self.channel.restart_all_plugins();
    }
}

/// A node of the audio graph: a track or a channel.
#[derive(Debug)]
pub enum Node {
    Track(Track),
    Channel(Channel),
}

/// The id of whichever node it is.
pub open spec fn node_id(node: Node) -> NodeId {
    match node {
        Node::Track(t) => t.channel.id,
        Node::Channel(c) => c.id,
    }
}

impl From<Channel> for Node {
    fn from(c: Channel) -> (node: Node) {
        Node::Channel(c)
    }
}

impl vstd::std_specs::convert::FromSpecImpl<Channel> for Node {
    open spec fn obeys_from_spec() -> bool {
        true
    }

    open spec fn from_spec(c: Channel) -> Node {
        Node::Channel(c)
    }
}

impl Node {
    pub fn id(&self) -> (id: NodeId)
        ensures
            id == node_id(*self),
    {
        match self {
            Node::Track(t) => t.id(),
            Node::Channel(c) => c.id(),
        }
    }

    pub fn reset(&mut self)
        ensures
            *final(self) == *old(self),
    {
        match self {
            Node::Track(t) => t.reset(),
            Node::Channel(c) => c.reset(),
        }
    }

    pub fn restart_all_plugins(&mut self)
        ensures
            *final(self) == *old(self),
    {
        match self {
            Node::Track(t) => t.restart_all_plugins(),
            Node::Channel(c) => c.restart_all_plugins(),
        }
    }

    pub fn clear_updates(&mut self)
        ensures
            *final(self) == *old(self),
    {
        match self {
            Node::Track(t) => t.clear_updates(),
            Node::Channel(c) => c.clear_updates(),
        }
    }

    pub fn collect_updates<E>(&mut self, updates: &mut Vec<E>)
        ensures
            *final(self) == *old(self),
            final(updates)@ == old(updates)@,
    {
        match self {
            Node::Track(t) => t.collect_updates(updates),
            Node::Channel(c) => c.collect_updates(updates),
        }
    }

    pub fn apply<A, S>(&mut self, action: A, state: &S)
        ensures
            *final(self) == *old(self),
    {
        match self {
            Node::Track(t) => t.apply(action, state),
            Node::Channel(c) => c.apply(action, state),
        }
    }
}

} // verus!
