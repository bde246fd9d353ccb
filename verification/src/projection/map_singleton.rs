//! Mapping of a singleton.
use vstd::prelude::*;
use crate::graph::{total_fn, Graph, Node};
use crate::view::port::{OuterViewPort, ViewPort};
use crate::view::singleton::Singleton;
use crate::projection::vec2seq::one_msg;
use crate::view::Msg;

verus! {

/// The value `f(x)` for the value `x` of the source.
pub struct MapSingleton<F> {
    pub src_view: Option<usize>,
    pub f: F,
    pub cast: usize,
}

impl<F> MapSingleton<F> {
    /// Rebinds to the source `view` and announces a change.
    pub fn reset<T>(&mut self, view: Option<usize>) -> (out: Vec<Msg<T>>)
        ensures
            final(self).src_view == view,
            final(self).f == old(self).f,
            final(self).cast == old(self).cast,
            out@ == seq![Msg::<T>::Unit],
    {
        self.src_view = view;
        one_msg(Msg::Unit)
    }

    /// The source changed: so did the mapped value.
    pub fn notify<T>(&self) -> (out: Vec<Msg<T>>)
        ensures
            out@ == seq![Msg::<T>::Unit],
    {
        one_msg(Msg::Unit)
    }
}


impl OuterViewPort<Singleton> {
    /// The value `f(x)` for the value `x` of this singleton, on a new port.
    pub fn map<T: Copy, F: Fn(&T) -> T, P: Fn(&T) -> bool>(
        &self,
        g: &mut Graph<T, F, P>,
        f: F,
    ) -> (port: OuterViewPort<Singleton>)
        requires
            old(g).wf(),
            self.0.valid(old(g)),
            old(g).ports@.len() + 1 < usize::MAX,
            total_fn::<T, F>(f),
        ensures
            final(g).wf(),
            port.0.id == old(g).ports@.len(),
            final(g).ports@.len() == old(g).ports@.len() + 1,
            final(g).nodes@.len() > old(g).nodes@.len(),
            final(g).view_of(port.0.id) == Some(old(g).nodes@.len() as usize),
            final(g).projected(
                old(g),
                self.0.id,
                Node::MapSingleton(MapSingleton { src_view: None, f, cast: old(g).ports@.len() as usize }),
                true,
            ),
    {
        let cast = g.ports.len();
        let (port, _) = g.project(self.0.id, Node::MapSingleton(MapSingleton { src_view: None, f, cast: cast }), true);
        OuterViewPort(ViewPort { id: port, shape: Singleton })
    }
}

} // verus!
