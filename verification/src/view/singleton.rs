//! Singletons: views of one value.
use vstd::prelude::*;
use crate::graph::Graph;
use crate::view::{Msg, Shape, ViewRef, ViewShape};

verus! {

/// The shape of singleton views.
#[derive(Clone, Copy)]
pub struct Singleton;


impl<T> ViewShape<T> for Singleton {
    type Msg = ();

    open spec fn message(msg: ()) -> Msg<T> {
        Msg::Unit
    }

    open spec fn shape() -> Shape {
        Shape::Singleton
    }

    fn wrap(msg: ()) -> (m: Msg<T>) {
        Msg::Unit
    }

    fn marker() -> (r: (Self, Shape)) {
        (Singleton, Shape::Singleton)
    }
}

/// Read access to a singleton in a graph.
pub trait SingletonView<T, F, P>: Sized {
    /// The value, as the graph `g` has it; none where there is no value to
    /// read.
    spec fn value(&self, g: &Graph<T, F, P>) -> Option<T>;

    spec fn readable(g: &Graph<T, F, P>) -> bool;

    fn get(&self, g: &Graph<T, F, P>) -> (r: Option<T>)
        requires
            Self::readable(g),
        ensures
            r == self.value(g),
    ;
}

impl<T: Copy, F: Fn(&T) -> T, P: Fn(&T) -> bool> SingletonView<T, F, P> for ViewRef<Singleton> {
    open spec fn value(&self, g: &Graph<T, F, P>) -> Option<T> {
        g.sgl_get_at(self.node, g.depth())
    }

    open spec fn readable(g: &Graph<T, F, P>) -> bool {
        g.wf()
    }

    fn get(&self, g: &Graph<T, F, P>) -> (r: Option<T>) {
        g.sgl_get(self.node, g.nodes.len())
    }
}

/// A singleton that may be missing: without a view there is no value.
impl<T: Copy, F: Fn(&T) -> T, P: Fn(&T) -> bool> SingletonView<T, F, P> for Option<
    ViewRef<Singleton>,
> {
    open spec fn value(&self, g: &Graph<T, F, P>) -> Option<T> {
        match *self {
            Some(view) => g.sgl_get_at(view.node, g.depth()),
            None => None,
        }
    }

    open spec fn readable(g: &Graph<T, F, P>) -> bool {
        g.wf()
    }

    fn get(&self, g: &Graph<T, F, P>) -> (r: Option<T>) {
        match self {
            Some(view) => g.sgl_get(view.node, g.nodes.len()),
            None => None,
        }
    }
}

} // verus!
