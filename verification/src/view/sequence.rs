//! Sequences: views of items at the indices from zero on.
use vstd::prelude::*;
use crate::graph::Graph;
use crate::view::{Msg, Shape, ViewCell, ViewRef, ViewShape};

verus! {

/// The shape of sequence views.
#[derive(Clone, Copy)]
pub struct Sequence;

impl<T> ViewShape<T> for Sequence {
    type Msg = usize;

    open spec fn message(msg: usize) -> Msg<T> {
        Msg::Index(msg)
    }

    open spec fn shape() -> Shape {
        Shape::Sequence
    }

    fn wrap(msg: usize) -> (m: Msg<T>) {
        Msg::Index(msg)
    }

    fn marker() -> (r: (Self, Shape)) {
        (Sequence, Shape::Sequence)
    }
}

/// Read access to a sequence in a graph.
pub trait SequenceView<T, F, P>: Sized {
    type Item;

    /// The item at `idx`, as the graph `g` has it.
    spec fn item_at(&self, g: &Graph<T, F, P>, idx: usize) -> Option<Self::Item>;

    /// The length, as the graph `g` has it; none where it is not known.
    spec fn length(&self, g: &Graph<T, F, P>) -> Option<usize>;

    spec fn readable(g: &Graph<T, F, P>) -> bool;

    fn get(&self, g: &Graph<T, F, P>, idx: &usize) -> (r: Option<Self::Item>)
        requires
            Self::readable(g),
        ensures
            r == self.item_at(g, *idx),
    ;

    fn len(&self, g: &Graph<T, F, P>) -> (r: Option<usize>)
        requires
            Self::readable(g),
        ensures
            r == self.length(g),
    ;
}

impl<T: Copy, F: Fn(&T) -> T, P: Fn(&T) -> bool> SequenceView<T, F, P> for ViewRef<Sequence> {
    type Item = T;

    open spec fn item_at(&self, g: &Graph<T, F, P>, idx: usize) -> Option<T> {
        g.seq_get_at(self.node, idx, g.depth())
    }

    open spec fn length(&self, g: &Graph<T, F, P>) -> Option<usize> {
        g.seq_len_at(self.node, g.depth())
    }

    open spec fn readable(g: &Graph<T, F, P>) -> bool {
        g.wf()
    }

    fn get(&self, g: &Graph<T, F, P>, idx: &usize) -> (r: Option<T>) {
        g.seq_get(self.node, *idx, g.nodes.len())
    }

    fn len(&self, g: &Graph<T, F, P>) -> (r: Option<usize>) {
        g.seq_len(self.node, g.nodes.len())
    }
}

/// A sequence that may be missing: without a view there is no item, and the
/// length is not known.
impl<T: Copy, F: Fn(&T) -> T, P: Fn(&T) -> bool> SequenceView<T, F, P> for Option<
    ViewRef<Sequence>,
> {
    type Item = T;

    open spec fn item_at(&self, g: &Graph<T, F, P>, idx: usize) -> Option<T> {
        match *self {
            Some(view) => g.seq_get_at(view.node, idx, g.depth()),
            None => None,
        }
    }

    open spec fn length(&self, g: &Graph<T, F, P>) -> Option<usize> {
        match *self {
            Some(view) => g.seq_len_at(view.node, g.depth()),
            None => None,
        }
    }

    open spec fn readable(g: &Graph<T, F, P>) -> bool {
        g.wf()
    }

    fn get(&self, g: &Graph<T, F, P>, idx: &usize) -> (r: Option<T>) {
        match self {
            Some(view) => g.seq_get(view.node, *idx, g.nodes.len()),
            None => None,
        }
    }

    fn len(&self, g: &Graph<T, F, P>) -> (r: Option<usize>) {
        match self {
            Some(view) => g.seq_len(view.node, g.nodes.len()),
            None => None,
        }
    }
}

/// The sequence that a port publishes, whichever it is at the time of the
/// read.
impl<T: Copy, F: Fn(&T) -> T, P: Fn(&T) -> bool> SequenceView<T, F, P> for ViewCell<Sequence> {
    type Item = T;

    open spec fn item_at(&self, g: &Graph<T, F, P>, idx: usize) -> Option<T> {
        g.opt_seq_get_at(g.view_of(self.port), idx, g.depth())
    }

    open spec fn length(&self, g: &Graph<T, F, P>) -> Option<usize> {
        g.opt_seq_len_at(g.view_of(self.port), g.depth())
    }

    open spec fn readable(g: &Graph<T, F, P>) -> bool {
        g.wf()
    }

    fn get(&self, g: &Graph<T, F, P>, idx: &usize) -> (r: Option<T>) {
        g.opt_seq_get(g.port_view(self.port), *idx, g.nodes.len())
    }

    fn len(&self, g: &Graph<T, F, P>) -> (r: Option<usize>) {
        g.opt_seq_len(g.port_view(self.port), g.nodes.len())
    }
}

/// A walk along a sequence from its start.
pub struct SequenceViewIter<V> {
    pub view: V,
    pub cur: usize,
}

impl<V> SequenceViewIter<V> {
    /// The item at the place of the walk, which moves on by one.  The walk
    /// stays at the largest index.
    pub fn next<T, F, P>(&mut self, g: &Graph<T, F, P>) -> (r: Option<V::Item>) where
        V: SequenceView<T, F, P>,

        requires
            V::readable(g),
        ensures
            r == old(self).view.item_at(g, old(self).cur),
            final(self).view == old(self).view,
            final(self).cur == if old(self).cur < usize::MAX {
                old(self).cur + 1
            } else {
                usize::MAX as int
            },
    {
        let i = self.cur;
        if self.cur < usize::MAX {
            self.cur = self.cur + 1;
        }
        self.view.get(g, &i)
    }
}

/// Walks along sequences.
pub trait SequenceViewExt: Copy + Sized {
    /// A walk from the start of the sequence.
    fn iter(&self) -> (it: SequenceViewIter<Self>)
        ensures
            it.view == *self,
            it.cur == 0,
    ;
}

impl SequenceViewExt for ViewRef<Sequence> {
    fn iter(&self) -> (it: SequenceViewIter<Self>) {
        SequenceViewIter { view: *self, cur: 0 }
    }
}

} // verus!
