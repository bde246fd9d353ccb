//! Pairing the items of a sequence with their index.
use vstd::prelude::*;
use crate::graph::{Graph, Node};
use crate::view::port::{OuterViewPort, ViewPort};
use crate::view::sequence::{Sequence, SequenceView};
use crate::view::{Shape, ViewRef, ViewShape};
use crate::projection::map_sequence::{rebind, rebind_msgs};
use crate::projection::vec2seq::one_msg;
use crate::view::Msg;

verus! {

/// The sequence of `(i, x)` for the items `x` of the source at index `i`.
pub struct EnumerateSequence {
    pub src_view: Option<usize>,
    pub cast: usize,
}

/// The shape of enumerated sequence views.
#[derive(Clone, Copy)]
pub struct Enumerated;

impl EnumerateSequence {
    /// Rebinds to the source `view`.  `old_len` is the length of this
    /// sequence before, `new_len` the one it has over the new source.
    pub fn reset<T>(&mut self, view: Option<usize>, old_len: Option<usize>, new_len: Option<usize>)
        -> (out: Vec<Msg<T>>)
        ensures
            final(self).src_view == view,
            final(self).cast == old(self).cast,
            out@ == rebind_msgs::<T>(old_len, new_len),
    {
        self.src_view = view;
        rebind(old_len, new_len)
    }

    /// The item at `idx` of the source changed: so did the pair at `idx`.
    pub fn notify<T>(&self, idx: usize) -> (out: Vec<Msg<T>>)
        ensures
            out@ == seq![Msg::<T>::Index(idx)],
    {
        one_msg(Msg::Index(idx))
    }
}


impl OuterViewPort<Sequence> {
    /// The sequence of the pairs of index and item of this sequence, on a new port.
    pub fn enumerate<T: Copy, F: Fn(&T) -> T, P: Fn(&T) -> bool>(
        &self,
        g: &mut Graph<T, F, P>,
    ) -> (port: OuterViewPort<Enumerated>)
        requires
            old(g).wf(),
            self.0.valid(old(g)),
            old(g).ports@.len() + 1 < usize::MAX,
        ensures
            final(g).wf(),
            port.0.id == old(g).ports@.len(),
            final(g).ports@.len() == old(g).ports@.len() + 1,
            final(g).nodes@.len() > old(g).nodes@.len(),
            final(g).view_of(port.0.id) == Some(old(g).nodes@.len() as usize),
            final(g).projected(
                old(g),
                self.0.id,
                Node::EnumerateSequence(EnumerateSequence { src_view: None, cast: old(g).ports@.len() as usize }),
                true,
            ),
    {
        let cast = g.ports.len();
        let (port, _) = g.project(self.0.id, Node::EnumerateSequence(EnumerateSequence { src_view: None, cast: cast }), true);
        OuterViewPort(ViewPort { id: port, shape: Enumerated })
    }
}


impl<T> ViewShape<T> for Enumerated {
    type Msg = usize;

    open spec fn message(msg: usize) -> Msg<T> {
        Msg::Index(msg)
    }

    open spec fn shape() -> Shape {
        Shape::Enumerated
    }

    fn wrap(msg: usize) -> (m: Msg<T>) {
        Msg::Index(msg)
    }

    fn marker() -> (r: (Self, Shape)) {
        (Enumerated, Shape::Enumerated)
    }
}

impl<T: Copy, F: Fn(&T) -> T, P: Fn(&T) -> bool> Graph<T, F, P> {
    /// The pair at `idx` of the enumerated sequence at `node`: the index and
    /// the item that the source has there.
    pub open spec fn enum_get_at(&self, node: usize, idx: usize) -> Option<(usize, T)> {
        if node < self.nodes@.len() {
            match self.nodes@[node as int] {
                Node::EnumerateSequence(e) => match self.opt_seq_get_at(
                    e.src_view,
                    idx,
                    (self.depth() - 1) as nat,
                ) {
                    Some(x) => Some((idx, x)),
                    None => None,
                },
                _ => None,
            }
        } else {
            None
        }
    }

    /// The pair at `idx` of the enumerated sequence at `node`.
    pub fn enum_get(&self, node: usize, idx: usize) -> (r: Option<(usize, T)>)
        requires
            self.wf(),
        ensures
            r == self.enum_get_at(node, idx),
    {
        if node >= self.nodes.len() {
            return None;
        }
        match &self.nodes[node] {
            Node::EnumerateSequence(e) => match self.opt_seq_get(
                e.src_view,
                idx,
                self.nodes.len() - 1,
            ) {
                Some(x) => Some((idx, x)),
                None => None,
            },
            _ => None,
        }
    }
}

impl<T: Copy, F: Fn(&T) -> T, P: Fn(&T) -> bool> SequenceView<T, F, P> for ViewRef<Enumerated> {
    type Item = (usize, T);

    open spec fn item_at(&self, g: &Graph<T, F, P>, idx: usize) -> Option<(usize, T)> {
        g.enum_get_at(self.node, idx)
    }

    open spec fn length(&self, g: &Graph<T, F, P>) -> Option<usize> {
        g.seq_len_at(self.node, g.depth())
    }

    open spec fn readable(g: &Graph<T, F, P>) -> bool {
        g.wf()
    }

    fn get(&self, g: &Graph<T, F, P>, idx: &usize) -> (r: Option<(usize, T)>) {
        g.enum_get(self.node, *idx)
    }

    fn len(&self, g: &Graph<T, F, P>) -> (r: Option<usize>) {
        g.seq_len(self.node, g.nodes.len())
    }
}

/// An enumerated sequence that may be missing.
impl<T: Copy, F: Fn(&T) -> T, P: Fn(&T) -> bool> SequenceView<T, F, P> for Option<
    ViewRef<Enumerated>,
> {
    type Item = (usize, T);

    open spec fn item_at(&self, g: &Graph<T, F, P>, idx: usize) -> Option<(usize, T)> {
        match *self {
            Some(view) => g.enum_get_at(view.node, idx),
            None => None,
        }
    }

    open spec fn length(&self, g: &Graph<T, F, P>) -> Option<usize> {
        match *self {
            Some(view) => g.seq_len_at(view.node, g.depth()),
            None => None,
        }
    }

    open spec fn readable(g: &Graph<T, F, P>) -> bool {
        g.wf()
    }

    fn get(&self, g: &Graph<T, F, P>, idx: &usize) -> (r: Option<(usize, T)>) {
        match self {
            Some(view) => g.enum_get(view.node, *idx),
            None => None,
        }
    }

    fn len(&self, g: &Graph<T, F, P>) -> (r: Option<usize>) {
        match self {
            Some(view) => g.seq_len(view.node, g.nodes.len()),
            None => None,
        }
    }
}

} // verus!
