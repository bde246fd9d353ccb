//! A singleton seen as a sequence of one item.
use vstd::prelude::*;
use crate::graph::{Graph, Node};
use crate::view::port::{OuterViewPort, ViewPort};
use crate::view::sequence::Sequence;
use crate::view::singleton::Singleton;
use crate::projection::vec2seq::one_msg;
use crate::view::Msg;

verus! {

/// The sequence that holds the value of the source, and nothing if there is
/// no source.
pub struct Singleton2Sequence {
    pub src_view: Option<usize>,
    pub cast: usize,
}

impl Singleton2Sequence {
    /// Rebinds to the source `view` and announces index zero.
    pub fn reset<T>(&mut self, view: Option<usize>) -> (out: Vec<Msg<T>>)
        ensures
            final(self).src_view == view,
            final(self).cast == old(self).cast,
            out@ == seq![Msg::<T>::Index(0)],
    {
        self.src_view = view;
        one_msg(Msg::Index(0))
    }

    /// The source changed: so did the item at index zero.
    pub fn notify<T>(&self) -> (out: Vec<Msg<T>>)
        ensures
            out@ == seq![Msg::<T>::Index(0)],
    {
        one_msg(Msg::Index(0))
    }
}


impl OuterViewPort<Singleton> {
    /// The singleton seen as a sequence of one item, on a new port.
    pub fn to_sequence<T: Copy, F: Fn(&T) -> T, P: Fn(&T) -> bool>(
        &self,
        g: &mut Graph<T, F, P>,
    ) -> (port: OuterViewPort<Sequence>)
        requires
            old(g).wf(),
            self.0.valid(old(g)),
            old(g).ports@.len() + 1 < usize::MAX,
        ensures
            final(g).wf(),
            port.0.id == old(g).ports@.len(),
            final(g).ports@.len() == old(g).ports@.len() + 1,
            final(g).nodes@.len() > old(g).nodes@.len(),
            final(g).view_of(port.0.id) == Some(old(g).nodes@.len() as usize),
            final(g).projected(
                old(g),
                self.0.id,
                Node::Singleton2Sequence(Singleton2Sequence { src_view: None, cast: old(g).ports@.len() as usize }),
                true,
            ),
    {
        let cast = g.ports.len();
        let (port, _) = g.project(self.0.id, Node::Singleton2Sequence(Singleton2Sequence { src_view: None, cast: cast }), true);
        OuterViewPort(ViewPort { id: port, shape: Sequence })
    }
}

} // verus!
