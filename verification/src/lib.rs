//! Reactive view projections.
//!
//! A *view* is a read-only accessor over a container together with the kind
//! of message that announces a change of it.  A *projection* turns one view
//! into another and stays consistent under mutation by forwarding
//! fine-grained diffs, without recomputing its whole output.
//!
//! All state lives in one [`graph::Graph`]: the cells of the ports, and the
//! nodes that are views, observers and projections.  Buffers, ports and views
//! are handles into the graph; a handle is a number and does not own what it
//! names.  A subscription keeps no observer alive: a node that its owner
//! released is told of nothing.
//!
//! Propagation is pull-based.  A mutation of a buffer changes the data and
//! queues the diff on the port of the buffer; nothing else happens until a
//! consumer updates a port.  An update runs the hooks of the port, which pull
//! everything upstream first, and then delivers the queued messages of the
//! port to its subscribers.
//!
//! What each step does to a graph is stated as a relation between the graph
//! before and after; reads are stated as functions of the graph.  Proof
//! functions whose names begin with `lemma_` state what holds across steps:
//! that an adapter converges on its buffer, that a reset is complete, that a
//! filter and a flattening show what a computation from scratch gives.
//!
//! The fields of a graph are open.  [`graph::Graph::is_sound`] tests at run
//! time that a graph which came from elsewhere names nothing that is not
//! there.
pub mod buffer;
pub mod graph;
pub mod projection;
pub mod propagate;
pub mod sound;
pub mod view;
