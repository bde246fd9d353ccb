//! A vector seen as a list.
use vstd::prelude::*;
use crate::buffer::vec::Vector;
use crate::graph::{Graph, Node};
use crate::view::ViewRef;
use crate::view::list::List;
use crate::view::port::{InnerViewPort, OuterViewPort, ViewPort};
use crate::buffer::vec::VecDiff;
use crate::graph::{add_saturating, sub_saturating};
use crate::projection::vec2seq::{len_after_vec_diff, one_msg};
use crate::view::Msg;
use crate::view::list::ListDiff;

verus! {

/// Adapter from a vector view to a list view.
pub struct Vec2List {
    pub cur_len: usize,
    pub src_view: Option<usize>,
    pub cast: usize,
}

/// The list diff that says what `diff` did to a vector of `len` items.
pub open spec fn list_diff_of<T>(len: usize, diff: VecDiff<T>) -> ListDiff<T> {
    match diff {
        VecDiff::Clear => ListDiff::Clear,
        VecDiff::Push(val) => ListDiff::Insert { idx: len, val },
        VecDiff::Remove(idx) => ListDiff::Remove(idx),
        VecDiff::Insert { idx, val } => ListDiff::Insert { idx, val },
        VecDiff::Update { idx, val } => ListDiff::Update { idx, val },
    }
}

/// The list diffs that build `items` from scratch: a clear, then one insert
/// at the end for each item.
pub open spec fn rebuild_msgs<T>(items: Seq<T>) -> Seq<Msg<T>> {
    Seq::new(
        items.len() + 1,
        |k: int|
            if k == 0 {
                Msg::List(ListDiff::Clear)
            } else {
                Msg::List(ListDiff::Insert { idx: (k - 1) as usize, val: items[k - 1] })
            },
    )
}

impl Vec2List {
    /// Rebinds to the vector view `view`, which holds `items` now.  With a
    /// view the list is announced from scratch; without one nothing is.
    pub fn reset<T: Copy>(&mut self, view: Option<usize>, items: &Vec<T>) -> (out: Vec<Msg<T>>)
        ensures
            final(self).src_view == view,
            final(self).cast == old(self).cast,
            final(self).cur_len == if view.is_some() {
                items@.len() as usize
            } else {
                0
            },
            out@ == if view.is_some() {
                rebuild_msgs(items@)
            } else {
                Seq::<Msg<T>>::empty()
            },
    {
        self.src_view = view;
        let mut out: Vec<Msg<T>> = Vec::new();
        if view.is_some() {
            out.push(Msg::List(ListDiff::Clear));
            let mut i: usize = 0;
            while i < items.len()
                invariant
                    i <= items@.len(),
                    out@.len() == i + 1,
                    forall|k: int| 0 <= k < out@.len() ==> out@[k] == rebuild_msgs(items@)[k],
                decreases items@.len() - i,
            {
                out.push(Msg::List(ListDiff::Insert { idx: i, val: items[i] }));
                i += 1;
            }
            proof {
                assert(out@ =~= rebuild_msgs(items@));
            }
            self.cur_len = items.len();
        } else {
            self.cur_len = 0;
        }
        out
    }

    /// Follows one mutation of the vector: adjusts the length and announces
    /// the same mutation as a list diff.
    pub fn notify<T: Copy>(&mut self, diff: &VecDiff<T>) -> (out: Vec<Msg<T>>)
        ensures
            final(self).cur_len == len_after_vec_diff(old(self).cur_len, *diff),
            final(self).src_view == old(self).src_view,
            final(self).cast == old(self).cast,
            out@ == seq![Msg::List(list_diff_of(old(self).cur_len, *diff))],
    {
        let len = self.cur_len;
        match *diff {
            VecDiff::Clear => {
                self.cur_len = 0;
                one_msg(Msg::List(ListDiff::Clear))
            },
            VecDiff::Push(val) => {
                self.cur_len = add_saturating(len, 1);
                one_msg(Msg::List(ListDiff::Insert { idx: len, val }))
            },
            VecDiff::Remove(idx) => {
                self.cur_len = sub_saturating(len, 1);
                one_msg(Msg::List(ListDiff::Remove(idx)))
            },
            VecDiff::Insert { idx, val } => {
                self.cur_len = add_saturating(len, 1);
                one_msg(Msg::List(ListDiff::Insert { idx, val }))
            },
            VecDiff::Update { idx, val } => one_msg(Msg::List(ListDiff::Update { idx, val })),
        }
    }
}


impl Vec2List {
    /// A list adapter without source, published on `port`.
    pub fn new<T: Copy, F: Fn(&T) -> T, P: Fn(&T) -> bool>(
        g: &mut Graph<T, F, P>,
        port: InnerViewPort<List>,
    ) -> (view: ViewRef<List>)
        requires
            old(g).wf(),
            port.0.valid(old(g)),
        ensures
            final(g).wf(),
            final(g).sized(old(g)),
            view.node == old(g).nodes@.len(),
            final(g).view_of(port.0.id) == Some(view.node),
            exists|mid: Graph<T, F, P>|
                #[trigger] mid.node_added(
                    old(g),
                    Node::Vec2List(Vec2List { cur_len: 0, src_view: None, cast: port.0.id }),
                ) && final(g).published(&mid, port.0.id, Some(view.node)),
    {
        let node = g.add_node(Node::Vec2List(Vec2List { cur_len: 0, src_view: None, cast: port.0.id }));
        let ghost mid = *g;
        g.publish(port.0.id, Some(node));
        proof {
            assert(mid.node_added(old(g), Node::Vec2List(Vec2List { cur_len: 0, src_view: None, cast: port.0.id })));
        }
        ViewRef { node, shape: List }
    }
}

impl OuterViewPort<Vector> {
    /// The vector seen as a list, on a new port.
    pub fn to_list<T: Copy, F: Fn(&T) -> T, P: Fn(&T) -> bool>(
        &self,
        g: &mut Graph<T, F, P>,
    ) -> (port: OuterViewPort<List>)
        requires
            old(g).wf(),
            self.0.valid(old(g)),
            old(g).ports@.len() + 1 < usize::MAX,
        ensures
            final(g).wf(),
            port.0.id == old(g).ports@.len(),
            final(g).ports@.len() == old(g).ports@.len() + 1,
            final(g).nodes@.len() > old(g).nodes@.len(),
            final(g).view_of(port.0.id) == Some(old(g).nodes@.len() as usize),
            final(g).projected(
                old(g),
                self.0.id,
                Node::Vec2List(Vec2List { cur_len: 0, src_view: None, cast: old(g).ports@.len() as usize }),
                false,
            ),
    {
        let cast = g.ports.len();
        let (port, _) = g.project(self.0.id, Node::Vec2List(Vec2List { cur_len: 0, src_view: None, cast: cast }), false);
        OuterViewPort(ViewPort { id: port, shape: List })
    }
}

} // verus!
