//! How resets and changes travel from a view to its observers.
use vstd::prelude::*;
use crate::buffer::singleton::{SingletonBufferTarget, SingletonBufferView};
use crate::buffer::vec::{
    all_fit, apply_diff_to, apply_vec_diff, apply_vec_diffs, vec_diff_fits, VecBufferTarget,
    VecDiff,
};
use crate::graph::{holds, opt_ok, total_pred, Graph, Node};
use crate::projection::enumerate_sequence::EnumerateSequence;
use crate::projection::map_list::MapListItem;
use crate::projection::map_sequence::{rebind_msgs, MapSequenceItem};
use crate::projection::map_singleton::MapSingleton;
use crate::projection::projection_helper::set_merged_range;
use crate::projection::sgl2seq::Singleton2Sequence;
use crate::view::observer::index_msgs;
use crate::view::channel::set_merged;
use crate::view::list::{apply_list_diff, ListDiff};
use crate::projection::filter_sequence::{filter_dirty, preds_after};
use crate::projection::list2seq::{dirty_after_list_diff, len_after_list_diff, List2Seq};
use crate::projection::map_list::map_list_diff;
use crate::projection::vec2list::{list_diff_of, rebuild_msgs, Vec2List};
use crate::projection::vec2seq::{
    dirty_after_vec_diff, len_after_vec_diff, max_len, one_msg, VecSequence,
};
use crate::projection::map_index_item::MapIndexItem;
use crate::projection::map_index_key::MapIndexKey;
use crate::projection::seq2idx::Sequence2Index;
use crate::projection::sgl2idx::Singleton2Index;
use crate::projection::flatten_grid::area_items;
use crate::projection::vec2bin::rebuild_diffs;
use crate::view::Msg;
use crate::view::index::{
    area_msgs, area_of_len, map_area, map_msg, rebind_areas, seq_area, AreaMsg, Key,
};

verus! {

impl<T: Copy, F: Fn(&T) -> T, P: Fn(&T) -> bool> Graph<T, F, P> {
    /// The number of source indices below `idx` whose item passes `pred`.
    pub open spec fn passing_before(&self, src: Option<usize>, pred: P, idx: nat, fuel: nat) -> nat
        decreases idx,
    {
        if idx == 0 {
            0
        } else {
            self.passing_before(src, pred, (idx - 1) as nat, fuel) + match self.opt_seq_get_at(
                src,
                (idx - 1) as usize,
                fuel,
            ) {
                Some(x) => if holds::<T, P>(pred, x) {
                    1nat
                } else {
                    0nat
                },
                None => 0nat,
            }
        }
    }

    /// No more items pass before an index than there are indices before it.
    pub proof fn lemma_passing_before_bound(&self, src: Option<usize>, pred: P, idx: nat, fuel: nat)
        ensures
            self.passing_before(src, pred, idx, fuel) <= idx,
        decreases idx,
    {
        if idx > 0 {
            self.lemma_passing_before_bound(src, pred, (idx - 1) as nat, fuel);
        }
    }

    /// Counts the source indices below `idx` whose item passes `pred`.
    pub fn count_passing(&self, src: Option<usize>, pred: &P, idx: usize, fuel: usize) -> (count:
        usize)
        requires
            self.wf(),
            total_pred::<T, P>(*pred),
        ensures
            count == self.passing_before(src, *pred, idx as nat, fuel as nat),
    {
        let mut j: usize = 0;
        let mut count: usize = 0;
        while j < idx
            invariant
                self.wf(),
                total_pred::<T, P>(*pred),
                j <= idx,
                count <= j,
                count == self.passing_before(src, *pred, j as nat, fuel as nat),
            decreases idx - j,
        {
            match self.opt_seq_get(src, j, fuel) {
                Some(x) => {
                    if Self::call_pred(pred, x) {
                        count += 1;
                    }
                },
                None => {},
            }
            j += 1;
        }
        count
    }

    /// `self` is `pre`, but the node `obs` may differ and `msgs` are queued
    /// on `port`.
    pub open spec fn stepped(&self, pre: &Self, obs: usize, port: usize, msgs: Seq<Msg<T>>) -> bool {
        &&& self.alive@ == pre.alive@
        &&& self.nodes@.len() == pre.nodes@.len()
        &&& forall|n: int|
            0 <= n < self.nodes@.len() && n != obs ==> self.nodes@[n] == pre.nodes@[n]
        &&& self.ports_queued(pre, port, msgs)
    }

    /// The outcome of the predicate of a filter over `src` at `idx`: a
    /// failure where the source has no item.
    pub open spec fn pred_at(&self, src: Option<usize>, pred: P, idx: usize, fuel: nat) -> bool {
        match self.opt_seq_get_at(src, idx, fuel) {
            Some(x) => holds::<T, P>(pred, x),
            None => false,
        }
    }

    /// What it means that the node `obs` of `pre` was told of `msg` and
    /// `self` is the outcome.  A node takes the messages of the shape that
    /// it observes; any other message changes nothing.
    pub open spec fn notified(&self, pre: &Self, obs: usize, msg: Msg<T>) -> bool {
        if obs >= pre.nodes@.len() {
            self.same(pre)
        } else {
            match (pre.nodes@[obs as int], msg) {
                (Node::VecSequence(s), Msg::Vec(diff)) => {
                    &&& self.stepped(pre, obs, s.cast, dirty_after_vec_diff(s.cur_len, diff))
                    &&& self.nodes@[obs as int] == Node::<T, F, P>::VecSequence(
                        VecSequence {
                            cur_len: len_after_vec_diff(s.cur_len, diff),
                            data: s.data,
                            cast: s.cast,
                        },
                    )
                },
                (Node::VecSequence(s), Msg::Views(diff)) => {
                    &&& self.stepped(pre, obs, s.cast, dirty_after_vec_diff(s.cur_len, diff))
                    &&& self.nodes@[obs as int] == Node::<T, F, P>::VecSequence(
                        VecSequence {
                            cur_len: len_after_vec_diff(s.cur_len, diff),
                            data: s.data,
                            cast: s.cast,
                        },
                    )
                },
                (Node::Vec2List(s), Msg::Vec(diff)) => {
                    &&& self.stepped(
                        pre,
                        obs,
                        s.cast,
                        seq![Msg::List(list_diff_of(s.cur_len, diff))],
                    )
                    &&& self.nodes@[obs as int] == Node::<T, F, P>::Vec2List(
                        Vec2List {
                            cur_len: len_after_vec_diff(s.cur_len, diff),
                            src_view: s.src_view,
                            cast: s.cast,
                        },
                    )
                },
                (Node::List2Seq(s), Msg::List(diff)) => {
                    &&& self.stepped(pre, obs, s.cast, dirty_after_list_diff(s.cur_len, diff))
                    &&& self.nodes@[obs as int] == Node::<T, F, P>::List2Seq(
                        List2Seq {
                            cur_len: len_after_list_diff(s.cur_len, diff),
                            src_view: s.src_view,
                            cast: s.cast,
                        },
                    )
                },
                (Node::MapSequenceItem(m), Msg::Index(idx)) => {
                    &&& self.stepped(pre, obs, m.cast, seq![Msg::Index(idx)])
                    &&& self.nodes@[obs as int] == pre.nodes@[obs as int]
                },
                (Node::EnumerateSequence(e), Msg::Index(idx)) => {
                    &&& self.stepped(pre, obs, e.cast, seq![Msg::Index(idx)])
                    &&& self.nodes@[obs as int] == pre.nodes@[obs as int]
                },
                (Node::MapListItem(m), Msg::List(diff)) => {
                    &&& self.stepped(
                        pre,
                        obs,
                        m.cast,
                        seq![Msg::List(map_list_diff::<T, F>(m.f, diff))],
                    )
                    &&& self.nodes@[obs as int] == pre.nodes@[obs as int]
                },
                (Node::MapSingleton(m), Msg::Unit) => {
                    &&& self.stepped(pre, obs, m.cast, seq![Msg::Unit])
                    &&& self.nodes@[obs as int] == pre.nodes@[obs as int]
                },
                (Node::Singleton2Sequence(s), Msg::Unit) => {
                    &&& self.stepped(pre, obs, s.cast, seq![Msg::Index(0)])
                    &&& self.nodes@[obs as int] == pre.nodes@[obs as int]
                },
                (Node::Filter(f), Msg::Index(idx)) => {
                    &&& self.stepped(
                        pre,
                        obs,
                        f.cast,
                        filter_dirty(
                            f.old_preds@,
                            idx,
                            pre.seq_len_at(obs, pre.depth()),
                            pre.pred_at(f.src_view, f.pred, idx, pre.depth()),
                            pre.passing_before(f.src_view, f.pred, idx as nat, pre.depth()) as usize,
                        ),
                    )
                    &&& match self.nodes@[obs as int] {
                        Node::Filter(g) => {
                            &&& g.src_view == f.src_view
                            &&& g.pred == f.pred
                            &&& g.cast == f.cast
                            &&& g.old_preds@ == preds_after(
                                f.old_preds@,
                                idx,
                                pre.pred_at(f.src_view, f.pred, idx, pre.depth()),
                            )
                        },
                        _ => false,
                    }
                },
                (Node::VecBufferTarget(t), Msg::List(diff)) => self.buffer_applied(
                    pre,
                    t.buffer.data,
                    vec_diff_of(diff),
                ),
                (Node::SingletonBufferTarget(t), Msg::Unit) => match t.src_view {
                    Some(src) => match pre.sgl_get_at(src, pre.depth()) {
                        Some(x) => self.singleton_set(pre, t.buffer.value, x),
                        None => self.same(pre),
                    },
                    None => self.same(pre),
                },
                (Node::ProjectionArg(a), Msg::Index(idx)) => self.arg_received(
                    pre,
                    obs,
                    a.src,
                    set_merged(a.rx.pending(), idx),
                ),
                (Node::ProjectionArg(a), Msg::Unit) => self.arg_received(
                    pre,
                    obs,
                    a.src,
                    set_merged(a.rx.pending(), 0),
                ),
                (Node::Sequence2Index(s), Msg::Index(idx)) => {
                    &&& self.stepped(
                        pre,
                        obs,
                        s.cast,
                        seq![Msg::Area(AreaMsg::Key(Key::Index(idx)))],
                    )
                    &&& self.nodes@[obs as int] == pre.nodes@[obs as int]
                },
                (Node::Singleton2Index(s), Msg::Unit) => {
                    &&& self.stepped(pre, obs, s.cast, seq![Msg::Area(AreaMsg::Key(Key::Unit))])
                    &&& self.nodes@[obs as int] == pre.nodes@[obs as int]
                },
                (Node::MapIndexItem(m), Msg::Area(area)) => {
                    &&& self.stepped(pre, obs, m.cast, seq![Msg::Area(area)])
                    &&& self.nodes@[obs as int] == pre.nodes@[obs as int]
                },
                (Node::MapIndexKey(m), Msg::Area(area)) => {
                    &&& self.stepped(pre, obs, m.cast, seq![Msg::Area(map_msg(m.map, area))])
                    &&& self.nodes@[obs as int] == pre.nodes@[obs as int]
                },
                (Node::IndexArg(a), Msg::Area(area)) => self.index_arg_received(
                    pre,
                    obs,
                    a.src,
                    a.rx.pending().push(area),
                ),
                (Node::VecBinWriter(w), Msg::Vec(diff)) => {
                    &&& self.stepped(pre, obs, pre.ports@.len() as usize, Seq::empty())
                    &&& match self.nodes@[obs as int] {
                        Node::VecBinWriter(v) => v.data == w.data && v.records@ == w.records@.push(
                            diff,
                        ),
                        _ => false,
                    }
                },
                (Node::VecJsonWriter(w), Msg::Vec(diff)) => {
                    &&& self.stepped(pre, obs, pre.ports@.len() as usize, Seq::empty())
                    &&& match self.nodes@[obs as int] {
                        Node::VecJsonWriter(v) => v.data == w.data && v.records@
                            == w.records@.push(diff),
                        _ => false,
                    }
                },
                (Node::NotifyFnObserver(o), _) => {
                    &&& self.stepped(pre, obs, pre.ports@.len() as usize, Seq::empty())
                    &&& match self.nodes@[obs as int] {
                        Node::NotifyFnObserver(n) => n.received@ == o.received@.push(msg),
                        _ => false,
                    }
                },
                _ => self.same(pre),
            }
        }
    }

    /// `self` is `pre`, but the projection argument at `arg` has the source
    /// `src` and the indices `pending` in its channel.
    pub open spec fn arg_received(
        &self,
        pre: &Self,
        arg: usize,
        src: Option<usize>,
        pending: Seq<usize>,
    ) -> bool {
        &&& self.alive@ == pre.alive@
        &&& self.ports@ == pre.ports@
        &&& self.nodes@.len() == pre.nodes@.len()
        &&& forall|n: int|
            0 <= n < self.nodes@.len() && n != arg ==> self.nodes@[n] == pre.nodes@[n]
        &&& match (pre.nodes@[arg as int], self.nodes@[arg as int]) {
            (Node::ProjectionArg(a), Node::ProjectionArg(b)) => {
                &&& b.src == src
                &&& b.notify == a.notify
                &&& b.owner == a.owner
                &&& b.unit == a.unit
                &&& b.tx == a.tx
                &&& b.rx.num_senders == a.rx.num_senders
                &&& b.rx.pending() == pending
            },
            _ => false,
        }
    }

    /// Tells the node `obs` of `msg`.
    pub fn notify_node(&mut self, obs: usize, msg: Msg<T>)
        requires
            old(self).wf(),
        ensures
            final(self).wf(),
            final(self).extends(old(self)),
            final(self).notified(old(self), obs, msg),
    {
        if obs >= self.nodes.len() {
            return ;
        }
        let depth = self.nodes.len();
        let (port, out) = match (&self.nodes[obs], msg) {
            (Node::NotifyFnObserver(_), _) => {
                match &mut self.nodes[obs] {
                    Node::NotifyFnObserver(o) => {
                        o.notify(msg);
                    },
                    _ => {},
                }
                proof {
                    assert(self.ports@ =~= old(self).ports@);
                    self.lemma_wf_after_step(old(self), obs);
                }
                return ;
            },
            (Node::VecBufferTarget(t), Msg::List(diff)) => {
                let buf = t.buffer.data;
                let vd = match diff {
                    ListDiff::Clear => VecDiff::Clear,
                    ListDiff::Remove(idx) => VecDiff::Remove(idx),
                    ListDiff::Insert { idx, val } => VecDiff::Insert { idx, val },
                    ListDiff::Update { idx, val } => VecDiff::Update { idx, val },
                };
                self.apply_to_buffer(buf, vd);
                return ;
            },
            (Node::SingletonBufferTarget(t), Msg::Unit) => {
                let buf = t.buffer.value;
                match t.src_view {
                    Some(src) => match self.sgl_get(src, depth) {
                        Some(x) => {
                            self.set_singleton(buf, x);
                        },
                        None => {},
                    },
                    None => {},
                }
                return ;
            },
            (Node::ProjectionArg(_), Msg::Index(_)) | (Node::ProjectionArg(_), Msg::Unit) => {
                let idx = match msg {
                    Msg::Index(idx) => idx,
                    _ => 0,
                };
                match &mut self.nodes[obs] {
                    Node::ProjectionArg(a) => {
                        a.notify(idx);
                    },
                    _ => {},
                }
                proof {
                    assert(self.ports@ =~= old(self).ports@);
                    assert forall|n: int| 0 <= n < self.nodes@.len() implies (
                    #[trigger] self.nodes@[n]).wf(self.ports@.len(), self.nodes@.len()) by {
                        if n != obs {
                            assert(self.nodes@[n] == old(self).nodes@[n]);
                        }
                    }
                }
                return ;
            },
            (Node::Filter(f), Msg::Index(idx)) => {
                let len = self.seq_len(obs, depth);
                let np = match self.opt_seq_get(f.src_view, idx, depth) {
                    Some(x) => Self::call_pred(&f.pred, x),
                    None => false,
                };
                let before = self.count_passing(f.src_view, &f.pred, idx, depth);
                proof {
                    self.lemma_passing_before_bound(f.src_view, f.pred, idx as nat, depth as nat);
                }
                match &mut self.nodes[obs] {
                    Node::Filter(f) => {
                        let out = f.notify(idx, len, np, before);
                        (f.cast, out)
                    },
                    _ => {
                        return ;
                    },
                }
            },
            _ => match msg {
                Msg::Vec(diff) => match &self.nodes[obs] {
                    Node::VecBinWriter(_) | Node::VecJsonWriter(_) => {
                        match &mut self.nodes[obs] {
                            Node::VecBinWriter(w) => {
                                w.notify(&diff);
                            },
                            Node::VecJsonWriter(w) => {
                                w.notify(&diff);
                            },
                            _ => {},
                        }
                        proof {
                            assert(self.ports@ =~= old(self).ports@);
                            self.lemma_wf_after_step(old(self), obs);
                        }
                        return ;
                    },
                    Node::VecSequence(_) | Node::Vec2List(_) => match &mut self.nodes[obs] {
                        Node::VecSequence(s) => {
                            let out = s.notify(&diff);
                            (s.cast, out)
                        },
                        Node::Vec2List(s) => {
                            let out = s.notify(&diff);
                            (s.cast, out)
                        },
                        _ => (0, Vec::new()),
                    },
                    _ => {
                        return ;
                    },
                },
                Msg::Views(diff) => match &self.nodes[obs] {
                    Node::VecSequence(_) => match &mut self.nodes[obs] {
                        Node::VecSequence(s) => {
                            let out = s.notify(&diff);
                            (s.cast, out)
                        },
                        _ => (0, Vec::new()),
                    },
                    _ => {
                        return ;
                    },
                },
                Msg::List(diff) => match &self.nodes[obs] {
                    Node::List2Seq(_) => match &mut self.nodes[obs] {
                        Node::List2Seq(s) => {
                            let out = s.notify(&diff);
                            (s.cast, out)
                        },
                        _ => (0, Vec::new()),
                    },
                    Node::MapListItem(m) => (m.cast, m.notify(&diff)),
                    _ => {
                        return ;
                    },
                },
                Msg::Index(idx) => match &self.nodes[obs] {
                    Node::MapSequenceItem(m) => (m.cast, m.notify(idx)),
                    Node::EnumerateSequence(e) => (e.cast, e.notify(idx)),
                    Node::Sequence2Index(s) => (
                        s.cast,
                        one_msg(Msg::Area(AreaMsg::Key(Key::Index(idx)))),
                    ),
                    _ => {
                        return ;
                    },
                },
                Msg::Unit => match &self.nodes[obs] {
                    Node::MapSingleton(m) => (m.cast, m.notify()),
                    Node::Singleton2Sequence(s) => (s.cast, s.notify()),
                    Node::Singleton2Index(s) => (s.cast, one_msg(Msg::Area(AreaMsg::Key(Key::Unit)))),
                    _ => {
                        return ;
                    },
                },
                Msg::Area(area) => match &self.nodes[obs] {
                    Node::IndexArg(_) => {
                        match &mut self.nodes[obs] {
                            Node::IndexArg(a) => {
                                a.notify(area);
                            },
                            _ => {},
                        }
                        proof {
                            assert(self.ports@ =~= old(self).ports@);
                            self.lemma_wf_after_step(old(self), obs);
                        }
                        return ;
                    },
                    Node::MapIndexItem(m) => (m.cast, one_msg(Msg::Area(area))),
                    Node::MapIndexKey(m) => (m.cast, one_msg(Msg::Area(area.map_keys(m.map)))),
                    _ => {
                        return ;
                    },
                },
            },
        };
        let ghost mid = *self;
        proof {
            assert(mid.nodes@.len() == old(self).nodes@.len());
            assert forall|n: int| 0 <= n < mid.nodes@.len() implies (#[trigger] mid.nodes@[n]).wf(
                mid.ports@.len(),
                mid.nodes@.len(),
            ) by {
                if n != obs {
                    assert(mid.nodes@[n] == old(self).nodes@[n]);
                }
            }
        }
        self.emit(port, out);
    }
}


/// The vector diff that does to a vector what `diff` does to a list.
pub open spec fn vec_diff_of<T>(diff: ListDiff<T>) -> VecDiff<T> {
    match diff {
        ListDiff::Clear => VecDiff::Clear,
        ListDiff::Remove(idx) => VecDiff::Remove(idx),
        ListDiff::Insert { idx, val } => VecDiff::Insert { idx, val },
        ListDiff::Update { idx, val } => VecDiff::Update { idx, val },
    }
}

/// The diffs that build `items` from scratch: a clear, then one push for each
/// item.
pub open spec fn refill_msgs<T>(items: Seq<T>) -> Seq<Msg<T>> {
    Seq::new(
        items.len() + 1,
        |k: int|
            if k == 0 {
                Msg::Vec(VecDiff::Clear)
            } else {
                Msg::Vec(VecDiff::Push(items[k - 1]))
            },
    )
}

impl<T: Copy, F: Fn(&T) -> T, P: Fn(&T) -> bool> Graph<T, F, P> {
    /// What it means that `diff` was applied to the vector buffer at `buf`
    /// of `pre` and `self` is the outcome: the items are changed and the diff
    /// is queued on the port of the buffer.  A diff that does not fit, or a
    /// node that is no vector buffer, changes nothing.
    pub open spec fn buffer_applied(&self, pre: &Self, buf: usize, diff: VecDiff<T>) -> bool {
        if buf < pre.nodes@.len() {
            match pre.nodes@[buf as int] {
                Node::VecData(d) => if vec_diff_fits(d.data@.len(), diff) {
                    &&& self.stepped(pre, buf, d.port, seq![Msg::Vec(diff)])
                    &&& match self.nodes@[buf as int] {
                        Node::VecData(e) => e.port == d.port && e.data@ == apply_vec_diff(
                            d.data@,
                            diff,
                        ),
                        _ => false,
                    }
                } else {
                    self.same(pre)
                },
                _ => self.same(pre),
            }
        } else {
            self.same(pre)
        }
    }

    /// Applies `diff` to the vector buffer at `buf` and announces it.
    pub fn apply_to_buffer(&mut self, buf: usize, diff: VecDiff<T>) -> (done: bool)
        requires
            old(self).wf(),
        ensures
            final(self).wf(),
            final(self).extends(old(self)),
            final(self).buffer_applied(old(self), buf, diff),
            done == match old(self).vec_items(buf) {
                Some(items) => vec_diff_fits(items.len(), diff),
                None => false,
            },
    {
        if buf >= self.nodes.len() {
            return false;
        }
        let port = match &self.nodes[buf] {
            Node::VecData(d) => {
                let fits = match diff {
                    VecDiff::Clear => true,
                    VecDiff::Push(_) => true,
                    VecDiff::Remove(idx) => idx < d.data.len(),
                    VecDiff::Insert { idx, .. } => idx <= d.data.len(),
                    VecDiff::Update { idx, .. } => idx < d.data.len(),
                };
                if !fits {
                    return false;
                }
                d.port
            },
            _ => {
                return false;
            },
        };
        match &mut self.nodes[buf] {
            Node::VecData(d) => {
                apply_diff_to(&mut d.data, &diff);
            },
            _ => {},
        }
        let ghost mid = *self;
        proof {
            assert forall|n: int| 0 <= n < mid.nodes@.len() implies (#[trigger] mid.nodes@[n]).wf(
                mid.ports@.len(),
                mid.nodes@.len(),
            ) by {
                if n != buf {
                    assert(mid.nodes@[n] == old(self).nodes@[n]);
                }
            }
        }
        self.emit(port, one_msg(Msg::Vec(diff)));
        true
    }

    /// What it means that the vector buffer at `buf` of `pre` was refilled
    /// with `items` and `self` is the outcome.
    pub open spec fn buffer_refilled(&self, pre: &Self, buf: usize, items: Seq<T>) -> bool {
        if buf < pre.nodes@.len() {
            match pre.nodes@[buf as int] {
                Node::VecData(d) => {
                    &&& self.stepped(pre, buf, d.port, refill_msgs(items))
                    &&& match self.nodes@[buf as int] {
                        Node::VecData(e) => e.port == d.port && e.data@ == items,
                        _ => false,
                    }
                },
                _ => self.same(pre),
            }
        } else {
            self.same(pre)
        }
    }

    /// Clears the vector buffer at `buf` and pushes `items`, announcing each
    /// step.
    pub fn refill_buffer(&mut self, buf: usize, items: Vec<T>)
        requires
            old(self).wf(),
        ensures
            final(self).wf(),
            final(self).extends(old(self)),
            final(self).buffer_refilled(old(self), buf, items@),
    {
        if buf >= self.nodes.len() {
            return ;
        }
        let port = match &self.nodes[buf] {
            Node::VecData(d) => d.port,
            _ => {
                return ;
            },
        };
        let mut out: Vec<Msg<T>> = Vec::new();
        out.push(Msg::Vec(VecDiff::Clear));
        let mut i: usize = 0;
        while i < items.len()
            invariant
                i <= items@.len(),
                out@.len() == i + 1,
                forall|k: int| 0 <= k < out@.len() ==> out@[k] == refill_msgs(items@)[k],
            decreases items@.len() - i,
        {
            out.push(Msg::Vec(VecDiff::Push(items[i])));
            i += 1;
        }
        proof {
            assert(out@ =~= refill_msgs(items@));
        }
        match &mut self.nodes[buf] {
            Node::VecData(d) => {
                d.data = items;
            },
            _ => {},
        }
        let ghost mid = *self;
        proof {
            assert forall|n: int| 0 <= n < mid.nodes@.len() implies (#[trigger] mid.nodes@[n]).wf(
                mid.ports@.len(),
                mid.nodes@.len(),
            ) by {
                if n != buf {
                    assert(mid.nodes@[n] == old(self).nodes@[n]);
                }
            }
        }
        self.emit(port, out);
    }

    /// What it means that the singleton buffer at `buf` of `pre` was set to
    /// `value` and `self` is the outcome: the value is stored and a change is
    /// queued on the port of the buffer.  A node that is no singleton buffer
    /// is left as it is.
    pub open spec fn singleton_set(&self, pre: &Self, buf: usize, value: T) -> bool {
        if buf < pre.nodes@.len() {
            match pre.nodes@[buf as int] {
                Node::SingletonBufferView(d) => {
                    &&& self.stepped(pre, buf, d.port, seq![Msg::Unit])
                    &&& self.nodes@[buf as int] == Node::<T, F, P>::SingletonBufferView(
                        SingletonBufferView { value, port: d.port },
                    )
                },
                _ => self.same(pre),
            }
        } else {
            self.same(pre)
        }
    }

    /// Stores `value` in the singleton buffer at `buf` and announces the
    /// change.
    pub fn set_singleton(&mut self, buf: usize, value: T)
        requires
            old(self).wf(),
        ensures
            final(self).wf(),
            final(self).extends(old(self)),
            final(self).singleton_set(old(self), buf, value),
    {
        if buf >= self.nodes.len() {
            return ;
        }
        let port = match &self.nodes[buf] {
            Node::SingletonBufferView(d) => d.port,
            _ => {
                return ;
            },
        };
        match &mut self.nodes[buf] {
            Node::SingletonBufferView(d) => {
                d.value = value;
            },
            _ => {},
        }
        let ghost mid = *self;
        proof {
            assert forall|n: int| 0 <= n < mid.nodes@.len() implies (#[trigger] mid.nodes@[n]).wf(
                mid.ports@.len(),
                mid.nodes@.len(),
            ) by {
                if n != buf {
                    assert(mid.nodes@[n] == old(self).nodes@[n]);
                }
            }
        }
        self.emit(port, one_msg(Msg::Unit));
    }
}


/// The length `len`, or zero where it is not known.
pub open spec fn known_or_zero(len: Option<usize>) -> usize {
    match len {
        Some(len) => len,
        None => 0,
    }
}

impl<T: Copy, F: Fn(&T) -> T, P: Fn(&T) -> bool> Graph<T, F, P> {
    /// `self` is `pre`, but the nodes `a` and `b` may differ and `msgs` are
    /// queued on `port`.
    pub open spec fn stepped_two(
        &self,
        pre: &Self,
        a: usize,
        b: usize,
        port: usize,
        msgs: Seq<Msg<T>>,
    ) -> bool {
        &&& self.alive@ == pre.alive@
        &&& self.nodes@.len() == pre.nodes@.len()
        &&& forall|n: int|
            0 <= n < self.nodes@.len() && n != a && n != b ==> self.nodes@[n] == pre.nodes@[n]
        &&& self.ports_queued(pre, port, msgs)
    }

    /// What it means that the vector target at `obs` of `pre`, which fills
    /// the buffer `t.buffer`, was rebound to `view` and `self` is the outcome.
    /// With a view, the buffer is refilled with the items of the view.
    pub open spec fn vec_target_reset(
        &self,
        pre: &Self,
        obs: usize,
        t: VecBufferTarget,
        view: Option<usize>,
    ) -> bool {
        let buf = t.buffer.data;
        let rebound = Node::<T, F, P>::VecBufferTarget(
            VecBufferTarget { buffer: t.buffer, src_view: view },
        );
        &&& self.nodes@[obs as int] == rebound
        &&& match (view, pre.vec_items(buf)) {
            (Some(src), Some(_)) => {
                let items = pre.list_prefix(src, 0, pre.depth());
                &&& self.stepped_two(pre, obs, buf, pre.port_of_vec(buf), refill_msgs(items))
                &&& self.vec_items(buf) == Some(items)
                &&& self.port_of_vec(buf) == pre.port_of_vec(buf)
            },
            _ => self.stepped(pre, obs, pre.ports@.len() as usize, Seq::empty()),
        }
    }

    /// The port on which the vector buffer at `node` announces its diffs; the
    /// number of ports, which names none, where there is no such buffer.
    pub open spec fn port_of_vec(&self, node: usize) -> usize {
        if node < self.nodes@.len() {
            match self.nodes@[node as int] {
                Node::VecData(d) => d.port,
                _ => self.ports@.len() as usize,
            }
        } else {
            self.ports@.len() as usize
        }
    }

    /// The value and the port of the singleton buffer at `node`.
    pub open spec fn singleton_at(&self, node: usize) -> Option<SingletonBufferView<T>> {
        if node < self.nodes@.len() {
            match self.nodes@[node as int] {
                Node::SingletonBufferView(d) => Some(d),
                _ => None,
            }
        } else {
            None
        }
    }

    /// What it means that the singleton target at `obs` of `pre`, which fills
    /// the buffer `t.buffer`, was rebound to `view` and `self` is the outcome.
    /// With a view that has a value, the buffer is set to it.
    pub open spec fn singleton_target_reset(
        &self,
        pre: &Self,
        obs: usize,
        t: SingletonBufferTarget,
        view: Option<usize>,
    ) -> bool {
        let buf = t.buffer.value;
        let rebound = Node::<T, F, P>::SingletonBufferTarget(
            SingletonBufferTarget { buffer: t.buffer, src_view: view },
        );
        let value = match view {
            Some(src) => pre.sgl_get_at(src, pre.depth()),
            None => None,
        };
        &&& self.nodes@[obs as int] == rebound
        &&& match (value, pre.singleton_at(buf)) {
            (Some(x), Some(d)) => {
                &&& self.stepped_two(pre, obs, buf, d.port, seq![Msg::Unit])
                &&& self.singleton_at(buf) == Some(SingletonBufferView { value: x, port: d.port })
            },
            _ => self.stepped(pre, obs, pre.ports@.len() as usize, Seq::empty()),
        }
    }

    /// What it means that the node `obs` of `pre` was rebound to the view
    /// `view` and `self` is the outcome.
    pub open spec fn was_reset(&self, pre: &Self, obs: usize, view: Option<usize>) -> bool {
        if obs >= pre.nodes@.len() {
            self.same(pre)
        } else {
            let depth = pre.depth();
            let below = (depth - 1) as nat;
            match pre.nodes@[obs as int] {
                Node::VecSequence(s) => {
                    &&& self.stepped(
                        pre,
                        obs,
                        s.cast,
                        index_msgs(0, max_len(s.cur_len, pre.vec_len_at(view))),
                    )
                    &&& self.nodes@[obs as int] == Node::<T, F, P>::VecSequence(
                        VecSequence { cur_len: pre.vec_len_at(view), data: view, cast: s.cast },
                    )
                },
                Node::Vec2List(s) => {
                    &&& self.stepped(
                        pre,
                        obs,
                        s.cast,
                        if view.is_some() {
                            rebuild_msgs(pre.vec_seq_at(view))
                        } else {
                            Seq::empty()
                        },
                    )
                    &&& self.nodes@[obs as int] == Node::<T, F, P>::Vec2List(
                        Vec2List {
                            cur_len: pre.vec_seq_at(view).len() as usize,
                            src_view: view,
                            cast: s.cast,
                        },
                    )
                },
                Node::List2Seq(s) => {
                    let new_len = match view {
                        Some(src) => known_or_zero(pre.list_len_at(src, depth)),
                        None => 0,
                    };
                    &&& self.stepped(pre, obs, s.cast, index_msgs(0, max_len(s.cur_len, new_len)))
                    &&& self.nodes@[obs as int] == Node::<T, F, P>::List2Seq(
                        List2Seq { cur_len: new_len, src_view: view, cast: s.cast },
                    )
                },
                Node::MapSequenceItem(m) => {
                    &&& self.stepped(
                        pre,
                        obs,
                        m.cast,
                        rebind_msgs(pre.seq_len_at(obs, depth), pre.opt_seq_len_at(view, below)),
                    )
                    &&& self.nodes@[obs as int] == Node::<T, F, P>::MapSequenceItem(
                        MapSequenceItem { src_view: view, f: m.f, cast: m.cast },
                    )
                },
                Node::EnumerateSequence(e) => {
                    &&& self.stepped(
                        pre,
                        obs,
                        e.cast,
                        rebind_msgs(pre.seq_len_at(obs, depth), pre.opt_seq_len_at(view, below)),
                    )
                    &&& self.nodes@[obs as int] == Node::<T, F, P>::EnumerateSequence(
                        EnumerateSequence { src_view: view, cast: e.cast },
                    )
                },
                Node::Filter(f) => {
                    &&& self.stepped(
                        pre,
                        obs,
                        f.cast,
                        rebind_msgs(
                            pre.seq_len_at(obs, depth),
                            pre.filter_len_at(view, f.pred, below),
                        ),
                    )
                    &&& match self.nodes@[obs as int] {
                        Node::Filter(g) => {
                            &&& g.src_view == view
                            &&& g.pred == f.pred
                            &&& g.cast == f.cast
                            &&& g.old_preds@ == Seq::<bool>::empty()
                        },
                        _ => false,
                    }
                },
                Node::MapListItem(m) => {
                    &&& self.stepped(pre, obs, pre.ports@.len() as usize, Seq::empty())
                    &&& self.nodes@[obs as int] == Node::<T, F, P>::MapListItem(
                        MapListItem { src_view: view, f: m.f, cast: m.cast },
                    )
                },
                Node::MapSingleton(m) => {
                    &&& self.stepped(pre, obs, m.cast, seq![Msg::Unit])
                    &&& self.nodes@[obs as int] == Node::<T, F, P>::MapSingleton(
                        MapSingleton { src_view: view, f: m.f, cast: m.cast },
                    )
                },
                Node::Singleton2Sequence(s) => {
                    &&& self.stepped(pre, obs, s.cast, seq![Msg::Index(0)])
                    &&& self.nodes@[obs as int] == Node::<T, F, P>::Singleton2Sequence(
                        Singleton2Sequence { src_view: view, cast: s.cast },
                    )
                },
                Node::Sequence2Index(s) => {
                    &&& self.stepped(
                        pre,
                        obs,
                        s.cast,
                        area_msgs(pre.idx_area_at(obs, depth)) + area_msgs(
                            seq_area(pre.opt_seq_len_at(view, below)),
                        ),
                    )
                    &&& self.nodes@[obs as int] == Node::<T, F, P>::Sequence2Index(
                        Sequence2Index { src_view: view, cast: s.cast },
                    )
                },
                Node::Singleton2Index(s) => {
                    &&& self.stepped(pre, obs, s.cast, seq![Msg::Area(AreaMsg::Key(Key::Unit))])
                    &&& self.nodes@[obs as int] == Node::<T, F, P>::Singleton2Index(
                        Singleton2Index { src_view: view, cast: s.cast },
                    )
                },
                Node::MapIndexItem(m) => {
                    &&& self.stepped(
                        pre,
                        obs,
                        m.cast,
                        area_msgs(pre.idx_area_at(obs, depth)) + area_msgs(
                            pre.opt_idx_area_at(view, below),
                        ),
                    )
                    &&& self.nodes@[obs as int] == Node::<T, F, P>::MapIndexItem(
                        MapIndexItem { src_view: view, f: m.f, cast: m.cast },
                    )
                },
                Node::MapIndexKey(m) => {
                    &&& self.stepped(
                        pre,
                        obs,
                        m.cast,
                        area_msgs(pre.idx_area_at(obs, depth)) + area_msgs(
                            map_area(m.map, pre.opt_idx_area_at(view, below)),
                        ),
                    )
                    &&& self.nodes@[obs as int] == Node::<T, F, P>::MapIndexKey(
                        MapIndexKey { src_view: view, map: m.map, cast: m.cast },
                    )
                },
                Node::IndexArg(a) => self.index_arg_received(
                    pre,
                    obs,
                    view,
                    a.rx.pending() + area_items(pre.opt_idx_area_at(a.src, depth)) + area_items(
                        pre.opt_idx_area_at(view, depth),
                    ),
                ),
                Node::VecBinWriter(w) => {
                    &&& self.stepped(pre, obs, pre.ports@.len() as usize, Seq::empty())
                    &&& match self.nodes@[obs as int] {
                        Node::VecBinWriter(v) => v.data == view && v.records@ == w.records@
                            + rebuild_diffs(pre.vec_seq_at(view)),
                        _ => false,
                    }
                },
                Node::VecJsonWriter(w) => {
                    &&& self.stepped(pre, obs, pre.ports@.len() as usize, Seq::empty())
                    &&& match self.nodes@[obs as int] {
                        Node::VecJsonWriter(v) => v.data == view && v.records@ == w.records@
                            + rebuild_diffs(pre.vec_seq_at(view)),
                        _ => false,
                    }
                },
                Node::ResetFnObserver(o) => {
                    &&& self.stepped(pre, obs, pre.ports@.len() as usize, Seq::empty())
                    &&& match self.nodes@[obs as int] {
                        Node::ResetFnObserver(n) => n.views@ == o.views@.push(view),
                        _ => false,
                    }
                },
                Node::VecBufferTarget(t) => self.vec_target_reset(pre, obs, t, view),
                Node::SingletonBufferTarget(t) => self.singleton_target_reset(pre, obs, t, view),
                Node::ProjectionArg(a) => self.arg_received(
                    pre,
                    obs,
                    view,
                    set_merged_range(
                        a.rx.pending(),
                        0,
                        if a.unit {
                            1
                        } else {
                            max_len(
                                known_or_zero(pre.opt_seq_len_at(a.src, depth)),
                                known_or_zero(pre.opt_seq_len_at(view, depth)),
                            )
                        },
                    ),
                ),
                _ => self.same(pre),
            }
        }
    }

    /// `self` is well-formed if `pre` is and only the node `obs` differs, in
    /// a way that keeps it well-formed.
    pub proof fn lemma_wf_after_step(&self, pre: &Self, obs: usize)
        requires
            pre.wf(),
            self.alive@ == pre.alive@,
            self.ports@ == pre.ports@,
            self.nodes@.len() == pre.nodes@.len(),
            forall|n: int|
                0 <= n < self.nodes@.len() && n != obs ==> self.nodes@[n] == pre.nodes@[n],
            obs < self.nodes@.len() ==> self.nodes@[obs as int].wf(
                self.ports@.len(),
                self.nodes@.len(),
            ),
            obs < self.nodes@.len() ==> self.nodes@[obs as int].fills_below(obs as int),
        ensures
            self.wf(),
    {
        assert forall|n: int| 0 <= n < self.nodes@.len() implies (#[trigger] self.nodes@[n]).wf(
            self.ports@.len(),
            self.nodes@.len(),
        ) by {
            if n != obs {
                assert(self.nodes@[n] == pre.nodes@[n]);
            }
        }
    }

    /// Rebinds the node `obs` to the view `view`.
    pub fn reset_node(&mut self, obs: usize, view: Option<usize>)
        requires
            old(self).wf(),
            opt_ok(view, old(self).nodes@.len()),
        ensures
            final(self).wf(),
            final(self).extends(old(self)),
            final(self).was_reset(old(self), obs, view),
            forall|k: int|
                obs <= k < old(self).nodes@.len() && old(self).is_leaf(k) ==> final(self).nodes@[k]
                    == old(self).nodes@[k],
    {
        if obs >= self.nodes.len() {
            return ;
        }
        let depth = self.nodes.len();
        let (port, out) = match &self.nodes[obs] {
            Node::VecSequence(_) => {
                let new_len = self.vec_len(view);
                match &mut self.nodes[obs] {
                    Node::VecSequence(s) => {
                        let out = s.reset(view, new_len);
                        (s.cast, out)
                    },
                    _ => (0, Vec::new()),
                }
            },
            Node::Vec2List(_) => {
                let items = self.vec_copy(view);
                match &mut self.nodes[obs] {
                    Node::Vec2List(s) => {
                        let out = s.reset(view, &items);
                        (s.cast, out)
                    },
                    _ => (0, Vec::new()),
                }
            },
            Node::List2Seq(_) => {
                let new_len = match view {
                    Some(src) => match self.list_len(src, depth) {
                        Some(len) => len,
                        None => 0,
                    },
                    None => 0,
                };
                match &mut self.nodes[obs] {
                    Node::List2Seq(s) => {
                        let out = s.reset(view, new_len);
                        (s.cast, out)
                    },
                    _ => (0, Vec::new()),
                }
            },
            Node::MapSequenceItem(_) => {
                let old_len = self.seq_len(obs, depth);
                let new_len = self.opt_seq_len(view, depth - 1);
                match &mut self.nodes[obs] {
                    Node::MapSequenceItem(m) => {
                        let out = m.reset(view, old_len, new_len);
                        (m.cast, out)
                    },
                    _ => (0, Vec::new()),
                }
            },
            Node::EnumerateSequence(_) => {
                let old_len = self.seq_len(obs, depth);
                let new_len = self.opt_seq_len(view, depth - 1);
                match &mut self.nodes[obs] {
                    Node::EnumerateSequence(e) => {
                        let out = e.reset(view, old_len, new_len);
                        (e.cast, out)
                    },
                    _ => (0, Vec::new()),
                }
            },
            Node::Filter(f) => {
                let old_len = self.seq_len(obs, depth);
                let new_len = self.filter_len(view, &f.pred, depth - 1);
                match &mut self.nodes[obs] {
                    Node::Filter(f) => {
                        let out = f.reset(view, old_len, new_len);
                        (f.cast, out)
                    },
                    _ => (0, Vec::new()),
                }
            },
            Node::MapListItem(_) => {
                match &mut self.nodes[obs] {
                    Node::MapListItem(m) => {
                        m.reset(view);
                    },
                    _ => {},
                }
                (self.ports.len(), Vec::new())
            },
            Node::MapSingleton(_) => match &mut self.nodes[obs] {
                Node::MapSingleton(m) => {
                    let out = m.reset(view);
                    (m.cast, out)
                },
                _ => (0, Vec::new()),
            },
            Node::Singleton2Sequence(_) => match &mut self.nodes[obs] {
                Node::Singleton2Sequence(s) => {
                    let out = s.reset(view);
                    (s.cast, out)
                },
                _ => (0, Vec::new()),
            },
            Node::Sequence2Index(_) => {
                let old_area = self.idx_area(obs, depth);
                let new_area = area_of_len(self.opt_seq_len(view, depth - 1));
                match &mut self.nodes[obs] {
                    Node::Sequence2Index(s) => {
                        s.src_view = view;
                        (s.cast, rebind_areas(&old_area, &new_area))
                    },
                    _ => (0, Vec::new()),
                }
            },
            Node::Singleton2Index(_) => match &mut self.nodes[obs] {
                Node::Singleton2Index(s) => {
                    s.src_view = view;
                    (s.cast, one_msg(Msg::Area(AreaMsg::Key(Key::Unit))))
                },
                _ => (0, Vec::new()),
            },
            Node::MapIndexItem(_) => {
                let old_area = self.idx_area(obs, depth);
                let new_area = self.opt_idx_area(view, depth - 1);
                match &mut self.nodes[obs] {
                    Node::MapIndexItem(m) => {
                        m.src_view = view;
                        (m.cast, rebind_areas(&old_area, &new_area))
                    },
                    _ => (0, Vec::new()),
                }
            },
            Node::MapIndexKey(m) => {
                let old_area = self.idx_area(obs, depth);
                let new_area = self.opt_idx_area(view, depth - 1).map_keys(m.map);
                match &mut self.nodes[obs] {
                    Node::MapIndexKey(m) => {
                        m.src_view = view;
                        (m.cast, rebind_areas(&old_area, &new_area))
                    },
                    _ => (0, Vec::new()),
                }
            },
            Node::IndexArg(a) => {
                let old_area = self.opt_idx_area(a.src, depth);
                let new_area = self.opt_idx_area(view, depth);
                match &mut self.nodes[obs] {
                    Node::IndexArg(a) => {
                        a.reset(view, &old_area, &new_area);
                    },
                    _ => {},
                }
                proof {
                    assert(self.ports@ =~= old(self).ports@);
                    self.lemma_wf_after_step(old(self), obs);
                }
                return ;
            },
            Node::VecBinWriter(_) | Node::VecJsonWriter(_) => {
                let items = self.vec_copy(view);
                match &mut self.nodes[obs] {
                    Node::VecBinWriter(w) => {
                        w.reset(view, &items);
                    },
                    Node::VecJsonWriter(w) => {
                        w.reset(view, &items);
                    },
                    _ => {},
                }
                proof {
                    assert(self.ports@ =~= old(self).ports@);
                    self.lemma_wf_after_step(old(self), obs);
                }
                return ;
            },
            Node::ResetFnObserver(_) => {
                match &mut self.nodes[obs] {
                    Node::ResetFnObserver(o) => {
                        o.reset(view);
                    },
                    _ => {},
                }
                proof {
                    assert(self.ports@ =~= old(self).ports@);
                    self.lemma_wf_after_step(old(self), obs);
                }
                return ;
            },
            Node::VecBufferTarget(t) => {
                let buf = t.buffer.data;
                let fill = view.is_some() && self.is_vec(buf);
                let items = match view {
                    Some(src) => self.list_items(src, depth),
                    None => Vec::new(),
                };
                match &mut self.nodes[obs] {
                    Node::VecBufferTarget(t) => {
                        t.src_view = view;
                    },
                    _ => {},
                }
                proof {
                    assert(self.ports@ =~= old(self).ports@);
                    self.lemma_wf_after_step(old(self), obs);
                }
                if fill {
                    self.refill_buffer(buf, items);
                }
                return ;
            },
            Node::SingletonBufferTarget(t) => {
                let buf = t.buffer.value;
                let value = match view {
                    Some(src) => self.sgl_get(src, depth),
                    None => None,
                };
                let is_buf = buf < self.nodes.len() && matches!(
                    self.nodes[buf],
                    Node::SingletonBufferView(_)
                );
                match &mut self.nodes[obs] {
                    Node::SingletonBufferTarget(t) => {
                        t.src_view = view;
                    },
                    _ => {},
                }
                proof {
                    assert(self.ports@ =~= old(self).ports@);
                    self.lemma_wf_after_step(old(self), obs);
                }
                match value {
                    Some(x) => {
                        if is_buf {
                            self.set_singleton(buf, x);
                        }
                    },
                    None => {},
                }
                return ;
            },
            Node::ProjectionArg(a) => {
                let old_len = match self.opt_seq_len(a.src, depth) {
                    Some(len) => len,
                    None => 0,
                };
                let new_len = match self.opt_seq_len(view, depth) {
                    Some(len) => len,
                    None => 0,
                };
                match &mut self.nodes[obs] {
                    Node::ProjectionArg(a) => {
                        a.reset(view, old_len, new_len);
                    },
                    _ => {},
                }
                proof {
                    assert(self.ports@ =~= old(self).ports@);
                    self.lemma_wf_after_step(old(self), obs);
                }
                return ;
            },
            _ => {
                return ;
            },
        };
        proof {
            assert(self.ports@ =~= old(self).ports@);
            self.lemma_wf_after_step(old(self), obs);
        }
        self.emit(port, out);
    }

    /// Whether a vector buffer lives at `node`.
    pub fn is_vec(&self, node: usize) -> (r: bool)
        ensures
            r == self.vec_items(node).is_some(),
    {
        node < self.nodes.len() && matches!(self.nodes[node], Node::VecData(_))
    }
}


/// A vector that follows another through a list view holds the same items:
/// the list diff that stands for a diff does to a list what the diff does to
/// the vector, and what it does to the vector that follows is the same
/// again, for every diff that fits a vector that is not full.
pub proof fn lemma_list_round_trip<T>(items: Seq<T>, diff: VecDiff<T>)
    requires
        items.len() < usize::MAX,
        vec_diff_fits(items.len(), diff),
    ensures
        apply_list_diff(items, list_diff_of(items.len() as usize, diff)) == apply_vec_diff(
            items,
            diff,
        ),
        vec_diff_fits(items.len(), vec_diff_of(list_diff_of(items.len() as usize, diff))),
        apply_vec_diff(items, vec_diff_of(list_diff_of(items.len() as usize, diff)))
            == apply_vec_diff(items, diff),
        len_after_vec_diff(items.len() as usize, diff) == apply_vec_diff(items, diff).len(),
{
    match diff {
        VecDiff::Push(val) => {
            assert(items.insert(items.len() as int, val) =~= items.push(val));
        },
        _ => {},
    }
}

/// The diffs that travel through a list view for a run of diffs of a vector
/// that starts with `items`.
pub open spec fn through_list<T>(items: Seq<T>, diffs: Seq<VecDiff<T>>) -> Seq<VecDiff<T>>
    decreases diffs.len(),
{
    if diffs.len() == 0 {
        Seq::empty()
    } else {
        through_list(items, diffs.drop_last()).push(
            vec_diff_of(
                list_diff_of(
                    apply_vec_diffs(items, diffs.drop_last()).len() as usize,
                    diffs.last(),
                ),
            ),
        )
    }
}

/// At every step of a run of mutations, a vector that follows through a
/// list view holds what the vector itself holds.
pub proof fn lemma_list_round_trip_all<T>(items: Seq<T>, diffs: Seq<VecDiff<T>>)
    requires
        all_fit(items, diffs),
    ensures
        apply_vec_diffs(items, through_list(items, diffs)) == apply_vec_diffs(items, diffs),
        through_list(items, diffs).len() == diffs.len(),
    decreases diffs.len(),
{
    if diffs.len() > 0 {
        lemma_list_round_trip_all(items, diffs.drop_last());
        let before = apply_vec_diffs(items, diffs.drop_last());
        lemma_list_round_trip(before, diffs.last());
        let through = through_list(items, diffs);
        assert(through.drop_last() =~= through_list(items, diffs.drop_last()));
    }
}


impl<T: Copy, F: Fn(&T) -> T, P: Fn(&T) -> bool> Graph<T, F, P> {
    /// Whether what the node `obs` keeps of its source is what a fresh
    /// derivation from the view `view` gives: an adapter reports the length
    /// that the view has, a target holds the items or the value that the
    /// view has, and every other observer of a view is bound to it.
    pub open spec fn in_sync(&self, obs: usize, view: Option<usize>) -> bool {
        if obs >= self.nodes@.len() {
            true
        } else {
            match self.nodes@[obs as int] {
                Node::VecSequence(s) => s.data == view && s.cur_len == self.vec_len_at(view),
                Node::Vec2List(s) => s.src_view == view && s.cur_len == self.vec_seq_at(view).len(),
                Node::List2Seq(s) => s.src_view == view && s.cur_len == match view {
                    Some(src) => known_or_zero(self.list_len_at(src, self.depth())),
                    None => 0,
                },
                Node::VecBufferTarget(t) => t.src_view == view && match (
                    view,
                    self.vec_items(t.buffer.data),
                ) {
                    (Some(src), Some(items)) => items == self.list_prefix(src, 0, self.depth()),
                    _ => true,
                },
                Node::SingletonBufferTarget(t) => t.src_view == view && match (
                    view,
                    self.singleton_at(t.buffer.value),
                ) {
                    (Some(src), Some(d)) => match self.sgl_get_at(src, self.depth()) {
                        Some(x) => d.value == x,
                        None => true,
                    },
                    _ => true,
                },
                Node::MapSequenceItem(m) => m.src_view == view,
                Node::EnumerateSequence(e) => e.src_view == view,
                Node::Filter(f) => f.src_view == view && f.old_preds@.len() == 0,
                Node::MapListItem(m) => m.src_view == view,
                Node::MapSingleton(m) => m.src_view == view,
                Node::Singleton2Sequence(s) => s.src_view == view,
                Node::Sequence2Index(s) => s.src_view == view,
                Node::Singleton2Index(s) => s.src_view == view,
                Node::MapIndexItem(m) => m.src_view == view,
                Node::MapIndexKey(m) => m.src_view == view,
                Node::ProjectionArg(a) => a.src == view,
                Node::IndexArg(a) => a.src == view,
                Node::VecBinWriter(w) => w.data == view,
                Node::VecJsonWriter(w) => w.data == view,
                _ => true,
            }
        }
    }

    /// A list is read the same in two graphs that differ in one node which
    /// is neither a list nor a vector.
    pub proof fn lemma_list_read_frame(&self, pre: &Self, changed: usize, node: usize, fuel: nat)
        requires
            self.nodes@.len() == pre.nodes@.len(),
            forall|n: int|
                0 <= n < self.nodes@.len() && n != changed ==> self.nodes@[n] == pre.nodes@[n],
            changed < self.nodes@.len() ==> {
                &&& self.nodes@[changed as int].kind() == pre.nodes@[changed as int].kind()
                &&& !(pre.nodes@[changed as int] is Vec2List)
                &&& !(pre.nodes@[changed as int] is MapListItem)
                &&& !(pre.nodes@[changed as int] is VecData)
                &&& !(pre.nodes@[changed as int] is ViewData)
            },
        ensures
            self.list_len_at(node, fuel) == pre.list_len_at(node, fuel),
            forall|idx: usize|
                #[trigger] self.list_get_at(node, idx, fuel) == pre.list_get_at(node, idx, fuel),
        decreases fuel,
    {
        if fuel > 0 && node < self.nodes@.len() {
            if node != changed {
                assert(self.nodes@[node as int] == pre.nodes@[node as int]);
                match pre.nodes@[node as int] {
                    Node::MapListItem(m) => {
                        match m.src_view {
                            Some(src) => {
                                self.lemma_list_read_frame(pre, changed, src, (fuel - 1) as nat);
                                assert forall|idx: usize| #[trigger]
                                    self.list_get_at(node, idx, fuel) == pre.list_get_at(
                                        node,
                                        idx,
                                        fuel,
                                    ) by {
                                    assert(self.list_get_at(src, idx, (fuel - 1) as nat)
                                        == pre.list_get_at(src, idx, (fuel - 1) as nat));
                                }
                            },
                            None => {},
                        }
                    },
                    Node::Vec2List(l) => {
                        assert forall|idx: usize| #[trigger]
                            self.list_get_at(node, idx, fuel) == pre.list_get_at(
                                node,
                                idx,
                                fuel,
                            ) by {
                            self.lemma_vec_read_frame(pre, changed, l.src_view, idx);
                        }
                    },
                    _ => {},
                }
            } else {
                let a = pre.nodes@[node as int];
                let b = self.nodes@[node as int];
                assert(a.kind() == b.kind());
                assert(!(a is Vec2List) && !(a is MapListItem));
                assert(!(b is Vec2List) && !(b is MapListItem));
            }
        }
    }

    /// A vector is read the same in two graphs that differ in one node which
    /// is no vector.
    pub proof fn lemma_vec_read_frame(
        &self,
        pre: &Self,
        changed: usize,
        view: Option<usize>,
        idx: usize,
    )
        requires
            self.nodes@.len() == pre.nodes@.len(),
            forall|n: int|
                0 <= n < self.nodes@.len() && n != changed ==> self.nodes@[n] == pre.nodes@[n],
            changed < self.nodes@.len() ==> {
                &&& self.nodes@[changed as int].kind() == pre.nodes@[changed as int].kind()
                &&& !(pre.nodes@[changed as int] is VecData)
                &&& !(pre.nodes@[changed as int] is ViewData)
            } || changed >= self.nodes@.len(),
        ensures
            self.vec_get_at(view, idx) == pre.vec_get_at(view, idx),
            self.vec_len_at(view) == pre.vec_len_at(view),
            self.vec_seq_at(view) == pre.vec_seq_at(view),
    {
        match view {
            Some(d) => {
                if d < self.nodes@.len() {
                    if d != changed {
                        assert(self.nodes@[d as int] == pre.nodes@[d as int]);
                    } else {
                        let a = pre.nodes@[d as int];
                        let b = self.nodes@[d as int];
                        assert(a.kind() == b.kind());
                        assert(!(a is VecData) && !(a is ViewData));
                        assert(!(b is VecData) && !(b is ViewData));
                    }
                }
            },
            None => {},
        }
    }

    /// After a reset a sequence adapter of a vector reports the length that
    /// the vector has.
    pub proof fn lemma_reset_vec_sequence(&self, pre: &Self, obs: usize, view: Option<usize>)
        requires
            self.was_reset(pre, obs, view),
            obs < pre.nodes@.len(),
            pre.nodes@[obs as int] is VecSequence,
        ensures
            self.in_sync(obs, view),
    {
        self.lemma_vec_read_frame(pre, obs, view, 0);
    }

    /// After a reset a list adapter of a vector reports the length that the
    /// vector has.
    pub proof fn lemma_reset_vec2list(&self, pre: &Self, obs: usize, view: Option<usize>)
        requires
            self.was_reset(pre, obs, view),
            obs < pre.nodes@.len(),
            pre.nodes@[obs as int] is Vec2List,
        ensures
            self.in_sync(obs, view),
    {
        self.lemma_vec_read_frame(pre, obs, view, 0);
        match view {
            Some(n) => {
                if n < pre.nodes@.len() {
                    match pre.nodes@[n as int] {
                        Node::VecData(d) => {
                            assert(d.data@.len() == d.data.len());
                        },
                        _ => {},
                    }
                }
            },
            None => {},
        }
    }

    /// After a reset a sequence adapter of a list reports the length that
    /// the list has.
    pub proof fn lemma_reset_list2seq(&self, pre: &Self, obs: usize, view: Option<usize>)
        requires
            self.was_reset(pre, obs, view),
            obs < pre.nodes@.len(),
            pre.nodes@[obs as int] is List2Seq,
        ensures
            self.in_sync(obs, view),
    {
        match view {
            Some(src) => {
                self.lemma_list_read_frame(pre, obs, src, pre.depth());
            },
            None => {},
        }
    }

    /// After a reset a target holds what its view has, if the view is read
    /// the same before and after the step: every view is that does not read
    /// the buffer of the target.
    pub proof fn lemma_reset_target(&self, pre: &Self, obs: usize, view: Option<usize>)
        requires
            pre.wf(),
            self.was_reset(pre, obs, view),
            obs < pre.nodes@.len(),
            pre.nodes@[obs as int] is VecBufferTarget || pre.nodes@[obs as int]
                is SingletonBufferTarget,
            match view {
                Some(src) => {
                    &&& self.list_prefix(src, 0, self.depth()) == pre.list_prefix(
                        src,
                        0,
                        pre.depth(),
                    )
                    &&& self.sgl_get_at(src, self.depth()) == pre.sgl_get_at(src, pre.depth())
                },
                None => true,
            },
        ensures
            self.in_sync(obs, view),
    {
        assert(pre.nodes@[obs as int].fills_below(obs as int));
    }
}

} // verus!
