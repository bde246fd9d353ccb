//! Keeping the items of a sequence that pass a predicate.
use vstd::prelude::*;
use crate::graph::{holds, total_pred, Graph, Node};
use crate::view::port::{OuterViewPort, ViewPort};
use crate::view::sequence::Sequence;
use crate::graph::{add_saturating, sat_add};
use crate::projection::map_sequence::{rebind, rebind_msgs};
use crate::projection::vec2seq::{one_msg, range_msgs};
use crate::view::Msg;
use crate::view::observer::index_msgs;

verus! {

/// The items of the source that pass `pred`, in their order.  Nothing is
/// cached but the last outcome of the predicate at each source index.
pub struct Filter<P> {
    pub src_view: Option<usize>,
    pub pred: P,
    pub old_preds: Vec<bool>,
    pub cast: usize,
}

/// The outcome that is remembered for the source index `idx`: a failure
/// where nothing is remembered.
pub open spec fn old_pred_at(preds: Seq<bool>, idx: usize) -> bool {
    if idx < preds.len() {
        preds[idx as int]
    } else {
        false
    }
}

/// The remembered outcomes after the predicate gave `np` at the source index
/// `idx`: what was remembered up to `idx`, with failures where nothing was,
/// and `np` at `idx`.  The largest index is not remembered.
pub open spec fn preds_after(preds: Seq<bool>, idx: usize, np: bool) -> Seq<bool> {
    if idx < usize::MAX {
        Seq::new(
            (idx + 1) as nat,
            |k: int|
                if k == idx {
                    np
                } else if k < preds.len() {
                    preds[k]
                } else {
                    false
                },
        )
    } else {
        preds
    }
}

/// The messages of a filter whose source changed at an index where the
/// predicate gives `np` now and `before` items pass before it, when the
/// filter reports the length `len`.  If the outcome flipped, every index from
/// `before` up to and with `len` is announced, else only `before`.
pub open spec fn filter_dirty<T>(
    preds: Seq<bool>,
    idx: usize,
    len: Option<usize>,
    np: bool,
    before: usize,
) -> Seq<Msg<T>> {
    let end = sat_add(
        match len {
            Some(len) => len,
            None => 0,
        },
        1,
    );
    if np != old_pred_at(preds, idx) {
        index_msgs(before, end)
    } else {
        seq![Msg::Index(before)]
    }
}

impl<P> Filter<P> {
    /// Rebinds to the source `view` and forgets the remembered outcomes.
    /// `old_len` is the length of this sequence before, `new_len` the one it
    /// has over the new source.
    pub fn reset<T>(&mut self, view: Option<usize>, old_len: Option<usize>, new_len: Option<usize>)
        -> (out: Vec<Msg<T>>)
        ensures
            final(self).src_view == view,
            final(self).pred == old(self).pred,
            final(self).cast == old(self).cast,
            final(self).old_preds@ == Seq::<bool>::empty(),
            out@ == rebind_msgs::<T>(old_len, new_len),
    {
        self.src_view = view;
        self.old_preds = Vec::new();
        rebind(old_len, new_len)
    }

    /// The source changed at `idx`, where the predicate gives `np` now and
    /// `before` items pass before it; `len` is the length of this sequence.
    pub fn notify<T>(&mut self, idx: usize, len: Option<usize>, np: bool, before: usize) -> (out:
        Vec<Msg<T>>)
        ensures
            final(self).src_view == old(self).src_view,
            final(self).pred == old(self).pred,
            final(self).cast == old(self).cast,
            final(self).old_preds@ == preds_after(old(self).old_preds@, idx, np),
            out@ == filter_dirty::<T>(old(self).old_preds@, idx, len, np, before),
    {
        let end = add_saturating(
            match len {
                Some(len) => len,
                None => 0,
            },
            1,
        );
        let op = if idx < self.old_preds.len() {
            self.old_preds[idx]
        } else {
            false
        };
        if idx < usize::MAX {
            self.old_preds.truncate(idx + 1);
            while self.old_preds.len() < idx + 1
                invariant
                    idx < usize::MAX,
                    self.old_preds@.len() <= idx + 1,
                    old(self).old_preds@.len() <= self.old_preds@.len() || self.old_preds@.len()
                        == idx + 1,
                    self.src_view == old(self).src_view,
                    self.pred == old(self).pred,
                    self.cast == old(self).cast,
                    forall|k: int|
                        0 <= k < self.old_preds@.len() ==> self.old_preds@[k] == if k < old(
                            self,
                        ).old_preds@.len() {
                            old(self).old_preds@[k]
                        } else {
                            false
                        },
                decreases idx + 1 - self.old_preds@.len(),
            {
                self.old_preds.push(false);
            }
            self.old_preds[idx] = np;
            proof {
                assert(self.old_preds@ =~= preds_after(old(self).old_preds@, idx, np));
            }
        }
        if np != op {
            range_msgs((before, end))
        } else {
            one_msg(Msg::Index(before))
        }
    }
}


impl OuterViewPort<Sequence> {
    /// The items of this sequence that pass `pred`, on a new port.
    pub fn filter<T: Copy, F: Fn(&T) -> T, P: Fn(&T) -> bool>(
        &self,
        g: &mut Graph<T, F, P>,
        pred: P,
    ) -> (port: OuterViewPort<Sequence>)
        requires
            old(g).wf(),
            self.0.valid(old(g)),
            old(g).ports@.len() + 1 < usize::MAX,
            total_pred::<T, P>(pred),
        ensures
            final(g).wf(),
            port.0.id == old(g).ports@.len(),
            final(g).ports@.len() == old(g).ports@.len() + 1,
            final(g).nodes@.len() > old(g).nodes@.len(),
            final(g).view_of(port.0.id) == Some(old(g).nodes@.len() as usize),
            exists|filter: Filter<P>|
                #[trigger] final(g).projected(old(g), self.0.id, Node::Filter(filter), true)
                    && filter.src_view.is_none() && filter.pred == pred && filter.old_preds@
                    == Seq::<bool>::empty() && filter.cast == old(g).ports@.len(),
    {
        let cast = g.ports.len();
        let filter = Filter { src_view: None, pred, old_preds: Vec::new(), cast };
        let ghost made = filter;
        let (port, _) = g.project(self.0.id, Node::Filter(filter), true);
        proof {
            assert(g.projected(old(g), self.0.id, Node::Filter(made), true));
        }
        OuterViewPort(ViewPort { id: port, shape: Sequence })
    }
}


/// The items among the first `n` of `s` that pass `pred`, in their order.
pub open spec fn kept<T, P: Fn(&T) -> bool>(s: Seq<T>, pred: P, n: nat) -> Seq<T>
    decreases n,
{
    if n == 0 || n > s.len() {
        Seq::empty()
    } else if holds::<T, P>(pred, s[n - 1]) {
        kept(s, pred, (n - 1) as nat).push(s[n - 1])
    } else {
        kept(s, pred, (n - 1) as nat)
    }
}

/// The scan of a filter over the items `s`, as [`Graph::filter_scan`] runs
/// it over a source that reads as `s`.
pub open spec fn scan_items<T, P: Fn(&T) -> bool>(
    s: Seq<T>,
    pred: P,
    idx: usize,
    i: nat,
    j: nat,
    offset: nat,
) -> nat
    decreases s.len() - i,
{
    if j <= idx && i < s.len() {
        if holds::<T, P>(pred, s[i as int]) {
            scan_items(s, pred, idx, i + 1, j + 1, offset)
        } else {
            scan_items(s, pred, idx, i + 1, j, offset + 1)
        }
    } else {
        offset
    }
}

/// The kept items of a longer prefix start with those of a shorter one.
pub proof fn lemma_kept_grows<T, P: Fn(&T) -> bool>(s: Seq<T>, pred: P, m: nat, n: nat)
    requires
        m <= n <= s.len(),
    ensures
        kept(s, pred, m).len() <= kept(s, pred, n).len() <= n,
        forall|k: int|
            0 <= k < kept(s, pred, m).len() ==> kept(s, pred, n)[k] == kept(s, pred, m)[k],
    decreases n - m,
{
    if m < n {
        lemma_kept_grows(s, pred, m, (n - 1) as nat);
    } else {
        lemma_kept_bound(s, pred, m);
    }
}

/// No more items are kept than there are.
pub proof fn lemma_kept_bound<T, P: Fn(&T) -> bool>(s: Seq<T>, pred: P, n: nat)
    requires
        n <= s.len(),
    ensures
        kept(s, pred, n).len() <= n,
    decreases n,
{
    if n > 0 {
        lemma_kept_bound(s, pred, (n - 1) as nat);
    }
}

/// The kept items are the filter of the items.
pub proof fn lemma_kept_is_filter<T, P: Fn(&T) -> bool>(s: Seq<T>, pred: P, n: nat)
    requires
        n <= s.len(),
    ensures
        kept(s, pred, n) == s.subrange(0, n as int).filter(|x: T| holds::<T, P>(pred, x)),
    decreases n,
{
    reveal(Seq::filter);
    let f = |x: T| holds::<T, P>(pred, x);
    if n > 0 {
        lemma_kept_is_filter(s, pred, (n - 1) as nat);
        assert(s.subrange(0, n as int).drop_last() =~= s.subrange(0, n - 1));
        assert(s.subrange(0, n as int).last() == s[n - 1]);
    } else {
        assert(s.subrange(0, 0).len() == 0);
    }
}

/// Where the scan of a filter ends: if the items hold more than `idx` that
/// pass, at the number of items that fail before the one that passes as the
/// `idx`-th; else at the number of all items that fail.
pub proof fn lemma_scan_items<T, P: Fn(&T) -> bool>(
    s: Seq<T>,
    pred: P,
    idx: usize,
    i: nat,
    j: nat,
    offset: nat,
)
    requires
        i <= s.len(),
        j == kept(s, pred, i).len(),
        i == j + offset,
        j <= idx,
    ensures
        ({
            let r = scan_items(s, pred, idx, i, j, offset);
            let all = kept(s, pred, s.len());
            if idx < all.len() {
                &&& idx + r < s.len()
                &&& all[idx as int] == s[idx + r]
            } else {
                r == s.len() - all.len()
            }
        }),
    decreases s.len() - i,
{
    let all = kept(s, pred, s.len());
    if i < s.len() {
        if holds::<T, P>(pred, s[i as int]) {
            if j + 1 <= idx {
                lemma_scan_items(s, pred, idx, i + 1, j + 1, offset);
            } else {
                // the item at `i` is the `idx`-th that passes
                lemma_kept_grows(s, pred, i + 1, s.len());
                assert(kept(s, pred, i + 1)[j as int] == s[i as int]);
                assert(scan_items(s, pred, idx, i + 1, j + 1, offset) == offset);
            }
        } else {
            lemma_scan_items(s, pred, idx, i + 1, j, offset + 1);
        }
    }
}

impl<T: Copy, F: Fn(&T) -> T, P: Fn(&T) -> bool> Graph<T, F, P> {
    /// Whether the sequence view `src` reads as the items `s`: it has the
    /// item of `s` at every index of `s` and none beyond.
    pub open spec fn reads_as(&self, src: Option<usize>, s: Seq<T>, fuel: nat) -> bool {
        forall|i: usize|
            #[trigger] self.opt_seq_get_at(src, i, fuel) == if i < s.len() {
                Some(s[i as int])
            } else {
                None
            }
    }

    /// Over a source that reads as `s`, the scan of the graph is the scan of
    /// the items.
    pub proof fn lemma_filter_scan(
        &self,
        src: Option<usize>,
        s: Seq<T>,
        pred: P,
        idx: usize,
        i: usize,
        j: usize,
        offset: usize,
        fuel: nat,
    )
        requires
            self.reads_as(src, s, fuel),
            s.len() < usize::MAX,
            i <= s.len(),
            j <= i,
            offset <= i,
        ensures
            self.filter_scan(src, pred, idx, i, j, offset, fuel) == scan_items(
                s,
                pred,
                idx,
                i as nat,
                j as nat,
                offset as nat,
            ),
        decreases s.len() - i,
    {
        if j <= idx {
            assert(self.opt_seq_get_at(src, i, fuel) == if i < s.len() {
                Some(s[i as int])
            } else {
                None
            });
            if i < s.len() {
                if holds::<T, P>(pred, s[i as int]) {
                    self.lemma_filter_scan(
                        src,
                        s,
                        pred,
                        idx,
                        (i + 1) as usize,
                        (j + 1) as usize,
                        offset,
                        fuel,
                    );
                } else {
                    self.lemma_filter_scan(
                        src,
                        s,
                        pred,
                        idx,
                        (i + 1) as usize,
                        j,
                        (offset + 1) as usize,
                        fuel,
                    );
                }
            }
        }
    }

    /// A filter shows what a filter of the source from scratch gives: over
    /// a source that reads as the items `s`, the filter at `node` has at
    /// each index the item of the filter of `s` by its predicate, and none
    /// beyond; and if the source reports the length of `s`, the filter
    /// reports the length of the filter of `s`.
    pub proof fn lemma_filter_is_batch(&self, node: usize, s: Seq<T>, fuel: nat)
        requires
            node < self.nodes@.len(),
            self.nodes@[node as int] is Filter,
            s.len() < usize::MAX,
            self.reads_as(self.nodes@[node as int]->Filter_0.src_view, s, fuel),
        ensures
            ({
                let f = self.nodes@[node as int]->Filter_0;
                let batch = s.filter(|x: T| holds::<T, P>(f.pred, x));
                &&& forall|idx: usize|
                    #[trigger] self.seq_get_at(node, idx, fuel + 1) == if idx < batch.len() {
                        Some(batch[idx as int])
                    } else {
                        None
                    }
                &&& self.opt_seq_len_at(f.src_view, fuel) == Some(s.len() as usize)
                    ==> self.seq_len_at(node, fuel + 1) == Some(batch.len() as usize)
            }),
    {
        let f = self.nodes@[node as int]->Filter_0;
        let batch = s.filter(|x: T| holds::<T, P>(f.pred, x));
        let all = kept(s, f.pred, s.len());
        lemma_kept_is_filter(s, f.pred, s.len());
        assert(s.subrange(0, s.len() as int) =~= s);
        lemma_kept_bound(s, f.pred, s.len());
        assert forall|idx: usize| #[trigger]
            self.seq_get_at(node, idx, fuel + 1) == if idx < batch.len() {
                Some(batch[idx as int])
            } else {
                None
            } by {
            self.lemma_filter_scan(f.src_view, s, f.pred, idx, 0, 0, 0, fuel);
            lemma_scan_items(s, f.pred, idx, 0, 0, 0);
            let r = scan_items(s, f.pred, idx, 0, 0, 0);
            if idx < all.len() {
                assert(self.opt_seq_get_at(f.src_view, (idx + r) as usize, fuel) == Some(
                    s[idx + r],
                ));
            } else {
                if idx + r <= usize::MAX {
                    assert(self.opt_seq_get_at(f.src_view, (idx + r) as usize, fuel).is_none());
                }
            }
        }
        if self.opt_seq_len_at(f.src_view, fuel) == Some(s.len() as usize) {
            let n = s.len() as usize;
            self.lemma_filter_scan(f.src_view, s, f.pred, n, 0, 0, 0, fuel);
            lemma_scan_items(s, f.pred, n, 0, 0, 0);
        }
    }
}


impl<P> Filter<P> {
    /// Scans the source from its start and counts the items that fail
    /// `pred`, until more than `idx` items have passed or the source ends.
    pub fn get_offset<T: Copy, F: Fn(&T) -> T>(
        g: &Graph<T, F, P>,
        src: Option<usize>,
        pred: &P,
        idx: usize,
        fuel: usize,
    ) -> (offset: usize) where P: Fn(&T) -> bool
        requires
            g.wf(),
            total_pred::<T, P>(*pred),
        ensures
            offset == g.filter_scan(src, *pred, idx, 0, 0, 0, fuel as nat),
        decreases fuel, 2nat,
    {
        let mut i: usize = 0;
        let mut j: usize = 0;
        let mut offset: usize = 0;
        while j <= idx && i < usize::MAX && j < usize::MAX && offset < usize::MAX
            invariant
                g.wf(),
                total_pred::<T, P>(*pred),
                g.filter_scan(src, *pred, idx, i, j, offset, fuel as nat) == g.filter_scan(
                    src,
                    *pred,
                    idx,
                    0,
                    0,
                    0,
                    fuel as nat,
                ),
            decreases usize::MAX - i,
        {
            match g.opt_seq_get(src, i, fuel) {
                Some(x) => {
                    if Graph::<T, F, P>::call_pred(pred, x) {
                        j += 1;
                    } else {
                        offset += 1;
                    }
                    i += 1;
                },
                None => {
                    return offset;
                },
            }
        }
        offset
    }
}


impl<T: Copy, F: Fn(&T) -> T, P: Fn(&T) -> bool> Graph<T, F, P> {
    /// A sequence adapter that reports the length of its vector reads as the
    /// items of the vector.
    pub proof fn lemma_adapter_reads_vector(&self, buf: usize, adapter: usize, fuel: nat)
        requires
            fuel > 0,
            self.vec_items(buf).is_some(),
            adapter < self.nodes@.len(),
            match self.nodes@[adapter as int] {
                Node::VecSequence(s) => s.data == Some(buf) && s.cur_len
                    == self.vec_items(buf).unwrap().len(),
                _ => false,
            },
        ensures
            self.reads_as(Some(adapter), self.vec_items(buf).unwrap(), fuel),
            self.opt_seq_len_at(Some(adapter), fuel) == Some(
                self.vec_items(buf).unwrap().len() as usize,
            ),
    {
        let items = self.vec_items(buf).unwrap();
        assert forall|i: usize| #[trigger]
            self.opt_seq_get_at(Some(adapter), i, fuel) == if i < items.len() {
                Some(items[i as int])
            } else {
                None
            } by {
            assert(self.seq_get_at(adapter, i, fuel) == self.vec_get_at(Some(buf), i));
        }
    }

    /// From the buffer to the filter, what is shown after a pull is what a
    /// computation from scratch gives: once the adapter of a vector buffer
    /// reports the length of the buffer, as it does after the messages of
    /// the buffer were delivered to it, a filter of the adapter shows the
    /// filter of the items of the buffer and reports its length.
    pub proof fn lemma_filtered_buffer_is_batch(
        &self,
        buf: usize,
        adapter: usize,
        filter: usize,
        fuel: nat,
    )
        requires
            fuel > 0,
            self.vec_items(buf).is_some(),
            self.vec_items(buf).unwrap().len() < usize::MAX,
            self.cur_len_at(adapter) == Some(self.vec_items(buf).unwrap().len() as usize),
            match self.nodes@[adapter as int] {
                Node::VecSequence(s) => s.data == Some(buf),
                _ => false,
            },
            filter < self.nodes@.len(),
            match self.nodes@[filter as int] {
                Node::Filter(f) => f.src_view == Some(adapter),
                _ => false,
            },
        ensures
            ({
                let items = self.vec_items(buf).unwrap();
                let f = self.nodes@[filter as int]->Filter_0;
                let batch = items.filter(|x: T| holds::<T, P>(f.pred, x));
                &&& self.seq_len_at(filter, fuel + 1) == Some(batch.len() as usize)
                &&& forall|idx: usize|
                    #[trigger] self.seq_get_at(filter, idx, fuel + 1) == if idx < batch.len() {
                        Some(batch[idx as int])
                    } else {
                        None
                    }
            }),
    {
        self.lemma_adapter_reads_vector(buf, adapter, fuel);
        self.lemma_filter_is_batch(filter, self.vec_items(buf).unwrap(), fuel);
    }
}

} // verus!
