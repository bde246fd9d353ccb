//! Views, observers, channels and ports.
use vstd::prelude::*;
use crate::buffer::vec::VecDiff;
use crate::view::index::AreaMsg;
use crate::view::list::ListDiff;

pub mod channel;
pub mod grid;
pub mod index;
pub mod list;
pub mod observer;
pub mod port;
pub mod sequence;
pub mod singleton;

verus! {

/// A change notification of any view shape, as it travels through the graph.
#[derive(Clone, Copy)]
pub enum Msg<T> {
    /// The value of a singleton changed.
    Unit,
    /// The item at this index of a sequence changed.
    Index(usize),
    /// One mutation of a vector.
    Vec(VecDiff<T>),
    /// One mutation of a list.
    List(ListDiff<T>),
    /// One mutation of a vector of nested views, each named by its port.
    Views(VecDiff<usize>),
    /// The items under the keys of this area of an index changed.
    Area(AreaMsg),
}

/// The shapes of view that a port can have.
#[derive(Clone, Copy, PartialEq, Eq, Structural)]
pub enum Shape {
    Vector,
    Sequence,
    Enumerated,
    Index,
    List,
    Singleton,
}

/// A shape of view: what can be read is up to the shape, the message that
/// announces a change of it is declared here.
pub trait ViewShape<T>: Copy + Sized {
    /// Notification message for the observers.
    type Msg;

    /// The message as it travels through the graph.
    spec fn message(msg: Self::Msg) -> Msg<T>;

    /// Which shape this is.
    spec fn shape() -> Shape;

    fn wrap(msg: Self::Msg) -> (m: Msg<T>)
        ensures
            m == Self::message(msg),
    ;

    /// The marker of the shape, and which shape it is.
    fn marker() -> (r: (Self, Shape))
        ensures
            r.1 == Self::shape(),
    ;
}

/// A view that lives in a graph: the node that is read, and its shape.
#[derive(Clone, Copy)]
pub struct ViewRef<V> {
    pub node: usize,
    pub shape: V,
}

/// The cell in which a port keeps the view that it publishes now.  What is
/// read through the cell follows the port when it publishes another view.
#[derive(Clone, Copy)]
pub struct ViewCell<V> {
    pub port: usize,
    pub shape: V,
}

} // verus!
