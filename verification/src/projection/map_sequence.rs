//! Item-wise mapping of a sequence.
use vstd::prelude::*;
use crate::graph::{total_fn, Graph, Node};
use crate::view::port::{OuterViewPort, ViewPort};
use crate::view::sequence::Sequence;
use crate::projection::vec2seq::{one_msg, range_msgs};
use crate::view::Msg;
use crate::view::observer::index_msgs;

verus! {

/// The sequence of `f(x)` for the items `x` of the source.
pub struct MapSequenceItem<F> {
    pub src_view: Option<usize>,
    pub f: F,
    pub cast: usize,
}

/// The index messages below `len`, or none where the length is not known.
pub open spec fn known_range<T>(len: Option<usize>) -> Seq<Msg<T>> {
    match len {
        Some(len) => index_msgs(0, len),
        None => Seq::empty(),
    }
}

/// The messages of a sequence whose source was replaced: every index below
/// the old length, then every index below the new length.
pub open spec fn rebind_msgs<T>(old_len: Option<usize>, new_len: Option<usize>) -> Seq<Msg<T>> {
    known_range(old_len) + known_range(new_len)
}

/// The messages of a rebinding, as [`rebind_msgs`] gives them.
pub fn rebind<T>(old_len: Option<usize>, new_len: Option<usize>) -> (out: Vec<Msg<T>>)
    ensures
        out@ == rebind_msgs::<T>(old_len, new_len),
{
    let mut out: Vec<Msg<T>> = match old_len {
        Some(len) => range_msgs((0, len)),
        None => Vec::new(),
    };
    let mut more: Vec<Msg<T>> = match new_len {
        Some(len) => range_msgs((0, len)),
        None => Vec::new(),
    };
    out.append(&mut more);
    out
}

impl<F> MapSequenceItem<F> {
    /// Rebinds to the source `view`.  `old_len` is the length of this
    /// sequence before, `new_len` the one it has over the new source.
    pub fn reset<T>(&mut self, view: Option<usize>, old_len: Option<usize>, new_len: Option<usize>)
        -> (out: Vec<Msg<T>>)
        ensures
            final(self).src_view == view,
            final(self).f == old(self).f,
            final(self).cast == old(self).cast,
            out@ == rebind_msgs::<T>(old_len, new_len),
    {
        self.src_view = view;
        rebind(old_len, new_len)
    }

    /// The item at `idx` of the source changed: so did the item at `idx`.
    pub fn notify<T>(&self, idx: usize) -> (out: Vec<Msg<T>>)
        ensures
            out@ == seq![Msg::<T>::Index(idx)],
    {
        one_msg(Msg::Index(idx))
    }
}


impl OuterViewPort<Sequence> {
    /// The sequence of `f(x)` for the items `x` of this sequence, on a new port.
    pub fn map<T: Copy, F: Fn(&T) -> T, P: Fn(&T) -> bool>(
        &self,
        g: &mut Graph<T, F, P>,
        f: F,
    ) -> (port: OuterViewPort<Sequence>)
        requires
            old(g).wf(),
            self.0.valid(old(g)),
            old(g).ports@.len() + 1 < usize::MAX,
            total_fn::<T, F>(f),
        ensures
            final(g).wf(),
            port.0.id == old(g).ports@.len(),
            final(g).ports@.len() == old(g).ports@.len() + 1,
            final(g).nodes@.len() > old(g).nodes@.len(),
            final(g).view_of(port.0.id) == Some(old(g).nodes@.len() as usize),
            final(g).projected(
                old(g),
                self.0.id,
                Node::MapSequenceItem(MapSequenceItem { src_view: None, f, cast: old(g).ports@.len() as usize }),
                true,
            ),
    {
        let cast = g.ports.len();
        let (port, _) = g.project(self.0.id, Node::MapSequenceItem(MapSequenceItem { src_view: None, f, cast: cast }), true);
        OuterViewPort(ViewPort { id: port, shape: Sequence })
    }
}

} // verus!
