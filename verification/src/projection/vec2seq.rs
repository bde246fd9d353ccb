//! A vector seen as a sequence.
use vstd::prelude::*;
use crate::buffer::vec::{all_fit, apply_vec_diffs, vec_diff_fits, Vector};
use crate::graph::{Graph, Node};
use crate::view::ViewRef;
use crate::view::port::{InnerViewPort, OuterViewPort, ViewPort};
use crate::view::sequence::Sequence;
use crate::buffer::vec::VecDiff;
use crate::graph::{sat_add, sat_sub, add_saturating, sub_saturating};
use crate::view::Msg;
use crate::view::observer::index_msgs;

verus! {

/// Adapter from a vector view to a sequence view.  The length it reports is
/// the one that the diffs seen so far add up to.
pub struct VecSequence {
    pub cur_len: usize,
    pub data: Option<usize>,
    pub cast: usize,
}

/// The length that a sequence of length `len` has after `diff`.  The count
/// stops at zero and at the largest number.
pub open spec fn len_after_vec_diff<X>(len: usize, diff: VecDiff<X>) -> usize {
    match diff {
        VecDiff::Clear => 0,
        VecDiff::Push(_) => sat_add(len, 1),
        VecDiff::Remove(_) => sat_sub(len, 1),
        VecDiff::Insert { .. } => sat_add(len, 1),
        VecDiff::Update { .. } => len,
    }
}

/// The messages that announce the indices whose item may differ after `diff`
/// was applied to a sequence of length `len`.
pub open spec fn dirty_after_vec_diff<X, T>(len: usize, diff: VecDiff<X>) -> Seq<Msg<T>> {
    match diff {
        VecDiff::Clear => index_msgs(0, len),
        VecDiff::Push(_) => seq![Msg::Index(len)],
        VecDiff::Remove(idx) => index_msgs(idx, len),
        VecDiff::Insert { idx, .. } => index_msgs(idx, sat_add(len, 1)),
        VecDiff::Update { idx, .. } => seq![Msg::Index(idx)],
    }
}

/// The larger of two lengths.
pub open spec fn max_len(a: usize, b: usize) -> usize {
    if a >= b {
        a
    } else {
        b
    }
}

/// The larger of two lengths.
pub fn larger(a: usize, b: usize) -> (r: usize)
    ensures
        r == max_len(a, b),
{
    if a >= b {
        a
    } else {
        b
    }
}

/// The one message `msg`.
pub fn one_msg<T>(msg: Msg<T>) -> (out: Vec<Msg<T>>)
    ensures
        out@ == seq![msg],
{
    let mut out: Vec<Msg<T>> = Vec::new();
    out.push(msg);
    out
}

/// The index messages of the range `range`.
pub fn range_msgs<T>(range: (usize, usize)) -> (out: Vec<Msg<T>>)
    ensures
        out@ == index_msgs::<T>(range.0, range.1),
{
    let mut out: Vec<Msg<T>> = Vec::new();
    let mut i: usize = range.0;
    while i < range.1
        invariant
            range.0 <= i,
            i <= range.1 || i == range.0,
            out@ == index_msgs::<T>(range.0, i),
        decreases range.1 - i,
    {
        out.push(Msg::Index(i));
        proof {
            assert(index_msgs::<T>(range.0, (i + 1) as usize) =~= index_msgs::<T>(
                range.0,
                i,
            ).push(Msg::Index(i)));
        }
        i += 1;
    }
    proof {
        assert(index_msgs::<T>(range.0, i) =~= index_msgs::<T>(range.0, range.1));
    }
    out
}

impl VecSequence {
    /// Rebinds to the vector view `view`, which holds `new_len` items now.
    /// Every index below the old or the new length is announced.
    pub fn reset<T>(&mut self, view: Option<usize>, new_len: usize) -> (out: Vec<Msg<T>>)
        ensures
            final(self).data == view,
            final(self).cur_len == new_len,
            final(self).cast == old(self).cast,
            out@ == index_msgs::<T>(0, max_len(old(self).cur_len, new_len)),
    {
        let old_len = self.cur_len;
        self.data = view;
        self.cur_len = new_len;
        range_msgs((0, larger(old_len, new_len)))
    }

    /// Follows one mutation of the vector: adjusts the length and announces
    /// the indices whose item may differ.
    pub fn notify<X, T>(&mut self, diff: &VecDiff<X>) -> (out: Vec<Msg<T>>)
        ensures
            final(self).cur_len == len_after_vec_diff(old(self).cur_len, *diff),
            final(self).data == old(self).data,
            final(self).cast == old(self).cast,
            out@ == dirty_after_vec_diff::<X, T>(old(self).cur_len, *diff),
    {
        let len = self.cur_len;
        match diff {
            VecDiff::Clear => {
                self.cur_len = 0;
                range_msgs((0, len))
            },
            VecDiff::Push(_) => {
                self.cur_len = add_saturating(len, 1);
                one_msg(Msg::Index(len))
            },
            VecDiff::Remove(idx) => {
                self.cur_len = sub_saturating(len, 1);
                range_msgs((*idx, len))
            },
            VecDiff::Insert { idx, .. } => {
                self.cur_len = add_saturating(len, 1);
                range_msgs((*idx, add_saturating(len, 1)))
            },
            VecDiff::Update { idx, .. } => one_msg(Msg::Index(*idx)),
        }
    }
}

/// The length that a sequence adapter reports after it saw `diffs`, one
/// after the other, if it reported `len` before.
pub open spec fn len_after_vec_diffs<T>(len: usize, diffs: Seq<VecDiff<T>>) -> usize
    decreases diffs.len(),
{
    if diffs.len() == 0 {
        len
    } else {
        len_after_vec_diff(len_after_vec_diffs(len, diffs.drop_last()), diffs.last())
    }
}

/// An adapter that replays the diffs of a vector converges on the vector:
/// if it reported the length of the vector before a run of mutations and
/// saw the diff of each, it reports the length of the vector after the run.
pub proof fn lemma_vec_sequence_converges<T>(items: Seq<T>, diffs: Seq<VecDiff<T>>)
    requires
        items.len() <= usize::MAX,
        all_fit(items, diffs),
    ensures
        len_after_vec_diffs(items.len() as usize, diffs) == apply_vec_diffs(items, diffs).len(),
    decreases diffs.len(),
{
    if diffs.len() > 0 {
        lemma_vec_sequence_converges(items, diffs.drop_last());
    }
}


impl VecSequence {
    /// A sequence adapter without source, published on `port`.
    pub fn new<T: Copy, F: Fn(&T) -> T, P: Fn(&T) -> bool>(
        g: &mut Graph<T, F, P>,
        port: InnerViewPort<Sequence>,
    ) -> (view: ViewRef<Sequence>)
        requires
            old(g).wf(),
            port.0.valid(old(g)),
        ensures
            final(g).wf(),
            final(g).sized(old(g)),
            view.node == old(g).nodes@.len(),
            final(g).view_of(port.0.id) == Some(view.node),
            exists|mid: Graph<T, F, P>|
                #[trigger] mid.node_added(
                    old(g),
                    Node::VecSequence(VecSequence { cur_len: 0, data: None, cast: port.0.id }),
                ) && final(g).published(&mid, port.0.id, Some(view.node)),
    {
        let node = g.add_node(Node::VecSequence(VecSequence { cur_len: 0, data: None, cast: port.0.id }));
        let ghost mid = *g;
        g.publish(port.0.id, Some(node));
        proof {
            assert(mid.node_added(old(g), Node::VecSequence(VecSequence { cur_len: 0, data: None, cast: port.0.id })));
        }
        ViewRef { node, shape: Sequence }
    }
}

impl OuterViewPort<Vector> {
    /// The vector seen as a sequence, on a new port.
    pub fn to_sequence<T: Copy, F: Fn(&T) -> T, P: Fn(&T) -> bool>(
        &self,
        g: &mut Graph<T, F, P>,
    ) -> (port: OuterViewPort<Sequence>)
        requires
            old(g).wf(),
            self.0.valid(old(g)),
            old(g).ports@.len() + 1 < usize::MAX,
        ensures
            final(g).wf(),
            port.0.id == old(g).ports@.len(),
            final(g).ports@.len() == old(g).ports@.len() + 1,
            final(g).nodes@.len() > old(g).nodes@.len(),
            final(g).view_of(port.0.id) == Some(old(g).nodes@.len() as usize),
            final(g).projected(
                old(g),
                self.0.id,
                Node::VecSequence(VecSequence { cur_len: 0, data: None, cast: old(g).ports@.len() as usize }),
                false,
            ),
    {
        let cast = g.ports.len();
        let (port, _) = g.project(self.0.id, Node::VecSequence(VecSequence { cur_len: 0, data: None, cast: cast }), false);
        OuterViewPort(ViewPort { id: port, shape: Sequence })
    }
}


/// The messages that announce `diffs`, in their order.
pub open spec fn vec_msgs<T>(diffs: Seq<VecDiff<T>>) -> Seq<Msg<T>> {
    Seq::new(diffs.len(), |i: int| Msg::Vec(diffs[i]))
}

impl<T: Copy, F: Fn(&T) -> T, P: Fn(&T) -> bool> Graph<T, F, P> {
    /// The length that the sequence adapter at `node` keeps.
    pub open spec fn cur_len_at(&self, node: usize) -> Option<usize> {
        if node < self.nodes@.len() {
            match self.nodes@[node as int] {
                Node::VecSequence(s) => Some(s.cur_len),
                _ => None,
            }
        } else {
            None
        }
    }

    /// Whether the sequence adapter at `adapter` follows the vector buffer
    /// at `buf`: it is bound to the buffer, it is the one live subscriber of
    /// the port of the buffer, and it announces on another port.
    pub open spec fn follows(&self, buf: usize, adapter: usize) -> bool {
        let port = self.port_of_vec(buf);
        &&& self.vec_items(buf).is_some()
        &&& port < self.ports@.len()
        &&& adapter < self.nodes@.len()
        &&& match self.nodes@[adapter as int] {
            Node::VecSequence(s) => s.data == Some(buf) && s.cast != port,
            _ => false,
        }
        &&& self.ports@[port as int].cast.live(self.alive@) == seq![adapter]
    }

    /// Whether the adapter lags behind the buffer by the diffs `diffs`: it
    /// follows the buffer and reports the length of `base`, the buffer holds
    /// what `diffs` make of `base`, and the diffs are what is pending on the
    /// port of the buffer.
    pub open spec fn lags_by(
        &self,
        buf: usize,
        adapter: usize,
        base: Seq<T>,
        diffs: Seq<VecDiff<T>>,
    ) -> bool {
        &&& self.follows(buf, adapter)
        &&& base.len() <= usize::MAX
        &&& all_fit(base, diffs)
        &&& self.vec_items(buf) == Some(apply_vec_diffs(base, diffs))
        &&& self.cur_len_at(adapter) == Some(base.len() as usize)
        &&& self.ports@[self.port_of_vec(buf) as int].cast.pending() == vec_msgs(diffs)
    }

    /// A mutation of the buffer is accounted for: if the adapter lagged by
    /// `diffs` and the diff `diff` was applied to the buffer, it lags by
    /// `diffs` and `diff`.
    pub proof fn lemma_mutation_is_pending(
        &self,
        pre: &Self,
        buf: usize,
        adapter: usize,
        base: Seq<T>,
        diffs: Seq<VecDiff<T>>,
        diff: VecDiff<T>,
    )
        requires
            pre.lags_by(buf, adapter, base, diffs),
            self.buffer_applied(pre, buf, diff),
            vec_diff_fits(apply_vec_diffs(base, diffs).len(), diff),
            apply_vec_diffs(base, diffs).len() < usize::MAX,
        ensures
            self.lags_by(buf, adapter, base, diffs.push(diff)),
    {
        let more = diffs.push(diff);
        assert(more.drop_last() =~= diffs);
        assert(vec_msgs(diffs) + seq![Msg::Vec(diff)] =~= vec_msgs(more));
        assert(self.nodes@[adapter as int] == pre.nodes@[adapter as int]);
    }

    /// An adapter that alone is told of a run of diffs keeps the length that
    /// the diffs add up to; the buffer and its port stay as they are.
    pub proof fn lemma_delivered_diffs(
        &self,
        pre: &Self,
        buf: usize,
        adapter: usize,
        diffs: Seq<VecDiff<T>>,
    )
        requires
            self.delivered_all(pre, vec_msgs(diffs), seq![adapter]),
            pre.vec_items(buf).is_some(),
            pre.port_of_vec(buf) < pre.ports@.len(),
            adapter < pre.nodes@.len(),
            match pre.nodes@[adapter as int] {
                Node::VecSequence(s) => s.data == Some(buf) && s.cast != pre.port_of_vec(buf),
                _ => false,
            },
        ensures
            self.nodes@.len() == pre.nodes@.len(),
            self.ports@.len() == pre.ports@.len(),
            self.alive@ == pre.alive@,
            self.nodes@[buf as int] == pre.nodes@[buf as int],
            self.ports@[pre.port_of_vec(buf) as int] == pre.ports@[pre.port_of_vec(buf) as int],
            match (pre.nodes@[adapter as int], self.nodes@[adapter as int]) {
                (Node::VecSequence(s), Node::VecSequence(t)) => {
                    &&& t.data == s.data
                    &&& t.cast == s.cast
                    &&& t.cur_len == len_after_vec_diffs(s.cur_len, diffs)
                },
                _ => false,
            },
        decreases diffs.len(),
    {
        let msgs = vec_msgs(diffs);
        if diffs.len() > 0 {
            let mid = choose|mid: Self|
                mid.delivered_all(pre, msgs.drop_last(), seq![adapter]) && #[trigger] self.delivered(
                    &mid,
                    msgs.last(),
                    seq![adapter],
                );
            assert(msgs.drop_last() =~= vec_msgs(diffs.drop_last()));
            mid.lemma_delivered_diffs(pre, buf, adapter, diffs.drop_last());
            let one = seq![adapter];
            let m = choose|m: Self|
                m.delivered(&mid, msgs.last(), one.drop_last()) && #[trigger] self.notified(
                    &m,
                    one.last(),
                    msgs.last(),
                );
            assert(one.drop_last().len() == 0);
            assert(m.same(&mid));
            assert(msgs.last() == Msg::Vec(diffs.last()));
        }
    }

    /// A pull settles the account: if the adapter lagged behind the buffer
    /// by the pending diffs and the pending messages of the port of the
    /// buffer were delivered, the adapter reports the length of the buffer,
    /// and nothing is pending.  What is shown after the pull is what a
    /// derivation from the buffer from scratch gives.
    pub proof fn lemma_pull_converges(
        &self,
        pre: &Self,
        buf: usize,
        adapter: usize,
        base: Seq<T>,
        diffs: Seq<VecDiff<T>>,
    )
        requires
            pre.lags_by(buf, adapter, base, diffs),
            self.drained(pre, pre.port_of_vec(buf)),
        ensures
            self.lags_by(buf, adapter, apply_vec_diffs(base, diffs), Seq::empty()),
            self.vec_items(buf) == pre.vec_items(buf),
            self.cur_len_at(adapter) == Some(self.vec_len_at(Some(buf))),
    {
        let port = pre.port_of_vec(buf);
        let mid = choose|mid: Self|
            #[trigger] mid.queue_taken(pre, port) && self.delivered_all(
                &mid,
                pre.ports@[port as int].cast.pending(),
                pre.ports@[port as int].cast.live(pre.alive@),
            );
        self.lemma_delivered_diffs(&mid, buf, adapter, diffs);
        lemma_vec_sequence_converges(base, diffs);
        let items = apply_vec_diffs(base, diffs);
        assert(vec_msgs(Seq::<VecDiff<T>>::empty()) =~= Seq::<Msg<T>>::empty());
        assert(self.ports@[port as int].cast.pending() =~= Seq::<Msg<T>>::empty());
        match pre.nodes@[buf as int] {
            Node::VecData(d) => {
                assert(d.data@.len() == d.data.len());
            },
            _ => {},
        }
    }
}

} // verus!
