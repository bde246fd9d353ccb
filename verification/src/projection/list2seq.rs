//! A list seen as a sequence.
use vstd::prelude::*;
use crate::graph::{Graph, Node};
use crate::view::ViewRef;
use crate::view::list::List;
use crate::view::port::{InnerViewPort, OuterViewPort, ViewPort};
use crate::view::sequence::Sequence;
use crate::graph::{sat_add, sat_sub, add_saturating, sub_saturating};
use crate::projection::vec2seq::{larger, max_len, one_msg, range_msgs};
use crate::view::Msg;
use crate::view::list::ListDiff;
use crate::view::observer::index_msgs;

verus! {

/// Adapter from a list view to a sequence view.
pub struct List2Seq {
    pub cur_len: usize,
    pub src_view: Option<usize>,
    pub cast: usize,
}

/// The length that a sequence of length `len` has after `diff`.  The count
/// stops at zero and at the largest number.
pub open spec fn len_after_list_diff<T>(len: usize, diff: ListDiff<T>) -> usize {
    match diff {
        ListDiff::Clear => 0,
        ListDiff::Remove(_) => sat_sub(len, 1),
        ListDiff::Insert { .. } => sat_add(len, 1),
        ListDiff::Update { .. } => len,
    }
}

/// The messages that announce the indices whose item may differ after `diff`
/// was applied to a sequence of length `len`.
pub open spec fn dirty_after_list_diff<T>(len: usize, diff: ListDiff<T>) -> Seq<Msg<T>> {
    match diff {
        ListDiff::Clear => index_msgs(0, len),
        ListDiff::Remove(idx) => index_msgs(idx, len),
        ListDiff::Insert { idx, .. } => index_msgs(idx, sat_add(len, 1)),
        ListDiff::Update { idx, .. } => seq![Msg::Index(idx)],
    }
}

impl List2Seq {
    /// Rebinds to the list view `view`, whose length is `new_len` now.  Every
    /// index below the old or the new length is announced.
    pub fn reset<T>(&mut self, view: Option<usize>, new_len: usize) -> (out: Vec<Msg<T>>)
        ensures
            final(self).src_view == view,
            final(self).cur_len == new_len,
            final(self).cast == old(self).cast,
            out@ == index_msgs::<T>(0, max_len(old(self).cur_len, new_len)),
    {
        let old_len = self.cur_len;
        self.src_view = view;
        self.cur_len = new_len;
        range_msgs((0, larger(old_len, new_len)))
    }

    /// Follows one mutation of the list: adjusts the length and announces the
    /// indices whose item may differ.
    pub fn notify<T>(&mut self, diff: &ListDiff<T>) -> (out: Vec<Msg<T>>)
        ensures
            final(self).cur_len == len_after_list_diff(old(self).cur_len, *diff),
            final(self).src_view == old(self).src_view,
            final(self).cast == old(self).cast,
            out@ == dirty_after_list_diff(old(self).cur_len, *diff),
    {
        let len = self.cur_len;
        match diff {
            ListDiff::Clear => {
                self.cur_len = 0;
                range_msgs((0, len))
            },
            ListDiff::Remove(idx) => {
                self.cur_len = sub_saturating(len, 1);
                range_msgs((*idx, len))
            },
            ListDiff::Insert { idx, .. } => {
                self.cur_len = add_saturating(len, 1);
                range_msgs((*idx, add_saturating(len, 1)))
            },
            ListDiff::Update { idx, .. } => one_msg(Msg::Index(*idx)),
        }
    }
}


impl List2Seq {
    /// A sequence adapter without source, published on `port`.
    pub fn new<T: Copy, F: Fn(&T) -> T, P: Fn(&T) -> bool>(
        g: &mut Graph<T, F, P>,
        port: InnerViewPort<Sequence>,
    ) -> (view: ViewRef<Sequence>)
        requires
            old(g).wf(),
            port.0.valid(old(g)),
        ensures
            final(g).wf(),
            final(g).sized(old(g)),
            view.node == old(g).nodes@.len(),
            final(g).view_of(port.0.id) == Some(view.node),
            exists|mid: Graph<T, F, P>|
                #[trigger] mid.node_added(
                    old(g),
                    Node::List2Seq(List2Seq { cur_len: 0, src_view: None, cast: port.0.id }),
                ) && final(g).published(&mid, port.0.id, Some(view.node)),
    {
        let node = g.add_node(Node::List2Seq(List2Seq { cur_len: 0, src_view: None, cast: port.0.id }));
        let ghost mid = *g;
        g.publish(port.0.id, Some(node));
        proof {
            assert(mid.node_added(old(g), Node::List2Seq(List2Seq { cur_len: 0, src_view: None, cast: port.0.id })));
        }
        ViewRef { node, shape: Sequence }
    }
}

impl OuterViewPort<List> {
    /// The list seen as a sequence, on a new port.
    pub fn to_sequence<T: Copy, F: Fn(&T) -> T, P: Fn(&T) -> bool>(
        &self,
        g: &mut Graph<T, F, P>,
    ) -> (port: OuterViewPort<Sequence>)
        requires
            old(g).wf(),
            self.0.valid(old(g)),
            old(g).ports@.len() + 1 < usize::MAX,
        ensures
            final(g).wf(),
            port.0.id == old(g).ports@.len(),
            final(g).ports@.len() == old(g).ports@.len() + 1,
            final(g).nodes@.len() > old(g).nodes@.len(),
            final(g).view_of(port.0.id) == Some(old(g).nodes@.len() as usize),
            final(g).projected(
                old(g),
                self.0.id,
                Node::List2Seq(List2Seq { cur_len: 0, src_view: None, cast: old(g).ports@.len() as usize }),
                false,
            ),
    {
        let cast = g.ports.len();
        let (port, _) = g.project(self.0.id, Node::List2Seq(List2Seq { cur_len: 0, src_view: None, cast: cast }), false);
        OuterViewPort(ViewPort { id: port, shape: Sequence })
    }
}

} // verus!
