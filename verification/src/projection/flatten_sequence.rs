//! Flattening a sequence of sequences.
use vstd::prelude::*;
use crate::graph::{add_saturating, opt_ok, sat_add, Graph, Node};
use crate::projection::projection_helper::{ArgHandler, Keepalive};
use crate::view::ViewRef;
use crate::view::port::{InnerViewPort, OuterViewPort, ViewPort};
use crate::view::sequence::Sequence;
use crate::projection::vec2seq::one_msg;
use crate::propagate::known_or_zero;
use crate::projection::projection_helper::ProjectionHelper;
use crate::projection::vec2seq::{larger, max_len, range_msgs};
use crate::view::Msg;
use crate::view::observer::index_msgs;

verus! {

/// What a flattening knows of one nested sequence: the key of the slot of the
/// outer sequence that names it, where it starts in the flat sequence, its
/// length when the offsets were last computed, and the port it is read from.
#[derive(Clone, Copy)]
pub struct Chunk {
    pub key: usize,
    pub offset: usize,
    pub len: usize,
    pub view: usize,
}

/// The concatenation of the sequences that the items of an outer sequence
/// name.
pub struct Flatten {
    pub length: usize,
    pub top: usize,
    pub chunks: Vec<Chunk>,
    pub cast: usize,
    pub proj_helper: ProjectionHelper,
}


/// The number of chunks at the front of `chunks`, from position `k` on, whose
/// key is below `key`, added to `k`: where a chunk with the key `key` stands,
/// or would stand, in a list that is ordered by key.
pub open spec fn slot_of(chunks: Seq<Chunk>, key: usize, k: nat) -> nat
    decreases chunks.len() - k,
{
    if k >= chunks.len() || chunks[k as int].key >= key {
        k
    } else {
        slot_of(chunks, key, k + 1)
    }
}

/// Whether `chunks` holds a chunk with the key `key` at the slot of the key.
pub open spec fn has_chunk(chunks: Seq<Chunk>, key: usize) -> bool {
    let p = slot_of(chunks, key, 0);
    p < chunks.len() && chunks[p as int].key == key
}

/// `chunks` with `chunk` at the slot of its key, in place of the chunk with
/// the same key if there is one.
pub open spec fn with_chunk(chunks: Seq<Chunk>, chunk: Chunk) -> Seq<Chunk> {
    let p = slot_of(chunks, chunk.key, 0) as int;
    if has_chunk(chunks, chunk.key) {
        chunks.update(p, chunk)
    } else {
        chunks.insert(p, chunk)
    }
}

/// `chunks` without the chunk with the key `key`.
pub open spec fn without_chunk(chunks: Seq<Chunk>, key: usize) -> Seq<Chunk> {
    let p = slot_of(chunks, key, 0) as int;
    if has_chunk(chunks, key) {
        chunks.remove(p)
    } else {
        chunks
    }
}

/// The keys rise strictly along `chunks`.
pub open spec fn ordered(chunks: Seq<Chunk>) -> bool {
    forall|j: int, k: int|
        0 <= j < k < chunks.len() ==> (#[trigger] chunks[j]).key < (#[trigger] chunks[k]).key
}

/// The sum of the first `k` lengths; it stops at the largest number.
pub open spec fn offset_at(lens: Seq<usize>, k: nat) -> usize
    decreases k,
{
    if k == 0 || k > lens.len() {
        0
    } else {
        sat_add(offset_at(lens, (k - 1) as nat), lens[k - 1])
    }
}

/// The chunks with the offsets that the lengths `lens` give them.
pub open spec fn placed(chunks: Seq<Chunk>, lens: Seq<usize>) -> Seq<Chunk> {
    Seq::new(
        chunks.len(),
        |k: int|
            Chunk {
                key: chunks[k].key,
                offset: offset_at(lens, k as nat),
                len: lens[k],
                view: chunks[k].view,
            },
    )
}

/// The smaller of two numbers.
pub open spec fn min_len(a: usize, b: usize) -> usize {
    if a <= b {
        a
    } else {
        b
    }
}

/// The messages for the chunks before position `k` whose offset moved: for
/// each, every index from the smaller of the old and the new offset up to
/// the larger of the two plus the length of the chunk.
pub open spec fn moved_msgs<T>(chunks: Seq<Chunk>, lens: Seq<usize>, k: nat) -> Seq<Msg<T>>
    decreases k,
{
    if k == 0 || k > chunks.len() {
        Seq::empty()
    } else {
        let i = (k - 1) as nat;
        let old_offset = chunks[i as int].offset;
        let new_offset = offset_at(lens, i);
        moved_msgs(chunks, lens, i) + if old_offset != new_offset {
            index_msgs(
                min_len(old_offset, new_offset),
                sat_add(max_len(old_offset, new_offset), lens[i as int]),
            )
        } else {
            Seq::empty()
        }
    }
}

/// The messages of a recomputation of the offsets: those of the chunks that
/// moved, then every index from the new length up to the old one.
pub open spec fn offsets_msgs<T>(chunks: Seq<Chunk>, length: usize, lens: Seq<usize>) -> Seq<
    Msg<T>,
> {
    moved_msgs(chunks, lens, chunks.len()) + index_msgs(offset_at(lens, chunks.len()), length)
}

impl Flatten {
    /// The position of the chunk with the key `key`, or of the place where it
    /// would stand.
    pub fn slot(&self, key: usize) -> (p: usize)
        ensures
            p == slot_of(self.chunks@, key, 0),
            p <= self.chunks@.len(),
    {
        let mut k: usize = 0;
        while k < self.chunks.len() && self.chunks[k].key < key
            invariant
                k <= self.chunks@.len(),
                slot_of(self.chunks@, key, k as nat) == slot_of(self.chunks@, key, 0),
            decreases self.chunks@.len() - k,
        {
            k += 1;
        }
        k
    }

    /// The chunk with the key `key`.
    pub fn chunk(&self, key: usize) -> (c: Option<Chunk>)
        ensures
            c == if has_chunk(self.chunks@, key) {
                Some(self.chunks@[slot_of(self.chunks@, key, 0) as int])
            } else {
                None
            },
    {
        let p = self.slot(key);
        if p < self.chunks.len() && self.chunks[p].key == key {
            Some(self.chunks[p])
        } else {
            None
        }
    }

    /// Puts a chunk for the nested view `view` under `key`, with offset and
    /// length zero; a chunk that was under the key is replaced.
    pub fn insert_chunk(&mut self, key: usize, view: usize)
        ensures
            final(self).chunks@ == with_chunk(
                old(self).chunks@,
                Chunk { key, offset: 0, len: 0, view },
            ),
            final(self).length == old(self).length,
            final(self).top == old(self).top,
            final(self).cast == old(self).cast,
            final(self).proj_helper == old(self).proj_helper,
    {
        let p = self.slot(key);
        let chunk = Chunk { key, offset: 0, len: 0, view };
        if p < self.chunks.len() && self.chunks[p].key == key {
            self.chunks[p] = chunk;
        } else {
            self.chunks.insert(p, chunk);
        }
    }

    /// Drops the chunk under `key`; says whether there was one.
    pub fn remove_chunk(&mut self, key: usize) -> (found: bool)
        ensures
            found == has_chunk(old(self).chunks@, key),
            final(self).chunks@ == without_chunk(old(self).chunks@, key),
            final(self).length == old(self).length,
            final(self).top == old(self).top,
            final(self).cast == old(self).cast,
            final(self).proj_helper == old(self).proj_helper,
    {
        let p = self.slot(key);
        if p < self.chunks.len() && self.chunks[p].key == key {
            self.chunks.remove(p);
            true
        } else {
            false
        }
    }

    /// Recomputes the offset of every chunk and the length of the flat
    /// sequence from `lens`, the lengths that the nested views report now, one
    /// for each chunk.  Hands out the messages for every flat index whose
    /// item may differ.
    pub fn update_all_offsets<T>(&mut self, lens: &Vec<usize>) -> (dirty: Vec<Msg<T>>)
        requires
            lens@.len() == old(self).chunks@.len(),
        ensures
            final(self).chunks@ == placed(old(self).chunks@, lens@),
            final(self).length == offset_at(lens@, lens@.len()),
            final(self).top == old(self).top,
            final(self).cast == old(self).cast,
            final(self).proj_helper == old(self).proj_helper,
            dirty@ == offsets_msgs::<T>(old(self).chunks@, old(self).length, lens@),
    {
        let mut dirty: Vec<Msg<T>> = Vec::new();
        let mut cur_offset: usize = 0;
        let mut k: usize = 0;
        while k < self.chunks.len()
            invariant
                k <= self.chunks@.len(),
                lens@.len() == self.chunks@.len(),
                self.chunks@.len() == old(self).chunks@.len(),
                self.length == old(self).length,
                self.top == old(self).top,
                self.cast == old(self).cast,
                self.proj_helper == old(self).proj_helper,
                cur_offset == offset_at(lens@, k as nat),
                dirty@ == moved_msgs::<T>(old(self).chunks@, lens@, k as nat),
                forall|j: int| 0 <= j < k ==> self.chunks@[j] == placed(old(self).chunks@, lens@)[j],
                forall|j: int|
                    k <= j < self.chunks@.len() ==> self.chunks@[j] == old(self).chunks@[j],
            decreases self.chunks@.len() - k,
        {
            let old_chunk = self.chunks[k];
            let len = lens[k];
            self.chunks[k] = Chunk {
                key: old_chunk.key,
                offset: cur_offset,
                len,
                view: old_chunk.view,
            };
            if old_chunk.offset != cur_offset {
                let start = if old_chunk.offset <= cur_offset {
                    old_chunk.offset
                } else {
                    cur_offset
                };
                let end = add_saturating(larger(old_chunk.offset, cur_offset), len);
                let mut more = range_msgs::<T>((start, end));
                dirty.append(&mut more);
            } else {
                proof {
                    assert(dirty@ + Seq::<Msg<T>>::empty() =~= dirty@);
                }
            }
            cur_offset = add_saturating(cur_offset, len);
            k += 1;
        }
        let old_length = self.length;
        self.length = cur_offset;
        let mut tail = range_msgs::<T>((cur_offset, old_length));
        dirty.append(&mut tail);
        proof {
            assert(self.chunks@ =~= placed(old(self).chunks@, lens@));
        }
        dirty
    }
}

/// Putting a chunk into an ordered list keeps it ordered.
pub proof fn lemma_with_chunk_ordered(chunks: Seq<Chunk>, chunk: Chunk)
    requires
        ordered(chunks),
    ensures
        ordered(with_chunk(chunks, chunk)),
{
    lemma_slot_bounds(chunks, chunk.key, 0);
}

/// Taking a chunk out of an ordered list keeps it ordered.
pub proof fn lemma_without_chunk_ordered(chunks: Seq<Chunk>, key: usize)
    requires
        ordered(chunks),
    ensures
        ordered(without_chunk(chunks, key)),
{
}

/// The slot of a key: every chunk before it, from `k` on, has a smaller key,
/// and the chunk at it, if any, has a key that is not smaller.
pub proof fn lemma_slot_bounds(chunks: Seq<Chunk>, key: usize, k: nat)
    requires
        k <= chunks.len(),
    ensures
        k <= slot_of(chunks, key, k) <= chunks.len(),
        forall|j: int| k <= j < slot_of(chunks, key, k) ==> (#[trigger] chunks[j]).key < key,
        slot_of(chunks, key, k) < chunks.len() ==> chunks[slot_of(chunks, key, k) as int].key >= key,
    decreases chunks.len() - k,
{
    if k < chunks.len() && chunks[k as int].key < key {
        lemma_slot_bounds(chunks, key, k + 1);
    }
}


impl<T: Copy, F: Fn(&T) -> T, P: Fn(&T) -> bool> Graph<T, F, P> {
    /// The flattening at `node`.
    pub open spec fn flatten_at(&self, node: usize) -> Option<Flatten> {
        if node < self.nodes@.len() {
            match self.nodes@[node as int] {
                Node::Flatten(f) => Some(f),
                _ => None,
            }
        } else {
            None
        }
    }

    /// The port of the nested view at `idx` of the sequence that `port`
    /// publishes.
    pub open spec fn nested_at(&self, port: usize, idx: usize) -> Option<usize> {
        match self.view_of(port) {
            Some(view) => self.seq_view_at(view, idx),
            None => None,
        }
    }

    /// The lengths that the nested views of `chunks` report now, zero where
    /// a length is not known.
    pub open spec fn chunk_lens(&self, chunks: Seq<Chunk>) -> Seq<usize> {
        Seq::new(
            chunks.len(),
            |k: int|
                known_or_zero(self.opt_seq_len_at(self.view_of(chunks[k].view), self.depth())),
        )
    }

    /// `self` is `pre`, but the flattening at `node` has the chunks `chunks`
    /// and the length `length`, and `msgs` are queued on its port.
    pub open spec fn flatten_stepped(
        &self,
        pre: &Self,
        node: usize,
        chunks: Seq<Chunk>,
        length: usize,
        msgs: Seq<Msg<T>>,
    ) -> bool {
        match (pre.flatten_at(node), self.flatten_at(node)) {
            (Some(f), Some(g)) => {
                &&& self.stepped(pre, node, f.cast, msgs)
                &&& g.chunks@ == chunks
                &&& g.length == length
                &&& g.top == f.top
                &&& g.cast == f.cast
                &&& g.proj_helper == f.proj_helper
            },
            _ => false,
        }
    }

    /// What it means that the offsets of the flattening at `node` of `pre`
    /// were recomputed, after `first` was queued on its port, and `self` is
    /// the outcome.
    pub open spec fn offsets_refreshed(&self, pre: &Self, node: usize, first: Seq<Msg<T>>) -> bool {
        match pre.flatten_at(node) {
            Some(f) => {
                let lens = pre.chunk_lens(f.chunks@);
                self.flatten_stepped(
                    pre,
                    node,
                    placed(f.chunks@, lens),
                    offset_at(lens, lens.len()),
                    first + offsets_msgs(f.chunks@, f.length, lens),
                )
            },
            None => self.same(pre),
        }
    }

    /// What it means that the outer sequence of the flattening at `node` of
    /// `pre` changed at `chunk_idx` and `self` is the outcome.  If the outer
    /// sequence names a nested view there, the flattening takes it as the
    /// dependency `chunk_idx`, puts a chunk for it, and updates the port of
    /// the nested view; else it drops the dependency and the chunk.  Either
    /// way the offsets are recomputed.
    pub open spec fn top_changed(&self, pre: &Self, node: usize, chunk_idx: usize, fuel: nat) -> bool
        decreases fuel, 2nat, 2nat,
    {
        match pre.flatten_at(node) {
            Some(f) => match pre.nested_at(f.top, chunk_idx) {
                Some(port) => exists|m1: Self, m2: Self, m3: Self|
                    #[trigger] Self::in_turn(m1, m2, m3) && m1.sequence_arg_renewed(
                        pre,
                        node,
                        chunk_idx,
                        port,
                        ArgHandler::FlattenChunk(chunk_idx),
                        fuel,
                    ) && (match m1.flatten_at(node) {
                        Some(g) => m2.flatten_stepped(
                            &m1,
                            node,
                            with_chunk(
                                g.chunks@,
                                Chunk { key: chunk_idx, offset: 0, len: 0, view: port },
                            ),
                            g.length,
                            Seq::empty(),
                        ),
                        None => m2.same(&m1),
                    }) && (if fuel > 0 {
                        m3.updated(&m2, port, (fuel - 1) as nat)
                    } else {
                        m3.same(&m2)
                    }) && self.offsets_refreshed(&m3, node, Seq::empty()),
                None => exists|m1: Self, m2: Self|
                    #[trigger] Self::in_turn(m1, m2, m2) && m1.arg_dropped(pre, node, chunk_idx) && (
                    match m1.flatten_at(node) {
                        Some(g) => m2.flatten_stepped(
                            &m1,
                            node,
                            without_chunk(g.chunks@, chunk_idx),
                            g.length,
                            Seq::empty(),
                        ),
                        None => m2.same(&m1),
                    }) && self.offsets_refreshed(&m2, node, Seq::empty()),
            },
            None => self.same(pre),
        }
    }

    /// Three states that follow one another.
    pub open spec fn in_turn(m1: Self, m2: Self, m3: Self) -> bool {
        m2.extends(&m1) && m3.extends(&m2)
    }

    /// What it means that the nested view under `key` of the flattening at
    /// `node` of `pre` changed at `idx` and `self` is the outcome.  With a
    /// chunk under the key, the flat index of the change is announced, at the
    /// offset that the chunk had, and the offsets are recomputed if the
    /// length of the nested view is not the one of the chunk.  Without one,
    /// the offsets are recomputed.
    pub open spec fn chunk_changed(&self, pre: &Self, node: usize, key: usize, idx: usize) -> bool {
        match pre.flatten_at(node) {
            Some(f) => if has_chunk(f.chunks@, key) {
                let chunk = f.chunks@[slot_of(f.chunks@, key, 0) as int];
                let len = known_or_zero(pre.opt_seq_len_at(pre.view_of(chunk.view), pre.depth()));
                let first = if idx + chunk.offset <= usize::MAX {
                    seq![Msg::<T>::Index((idx + chunk.offset) as usize)]
                } else {
                    Seq::empty()
                };
                if chunk.len != len {
                    self.offsets_refreshed(pre, node, first)
                } else {
                    self.flatten_stepped(pre, node, f.chunks@, f.length, first)
                }
            } else {
                self.offsets_refreshed(pre, node, Seq::empty())
            },
            None => self.same(pre),
        }
    }

    /// Recomputes the offsets of the flattening at `node` from the lengths
    /// that the nested views report now, and queues `first` and then the
    /// messages of the recomputation on its port.
    pub fn refresh_offsets(&mut self, node: usize, first: Vec<Msg<T>>)
        requires
            old(self).wf(),
        ensures
            final(self).wf(),
            final(self).extends(old(self)),
            final(self).nodes@.len() == old(self).nodes@.len(),
            final(self).offsets_refreshed(old(self), node, first@),
    {
        if node >= self.nodes.len() {
            return ;
        }
        let depth = self.nodes.len();
        let mut lens: Vec<usize> = Vec::new();
        let cast = match &self.nodes[node] {
            Node::Flatten(f) => {
                let mut k: usize = 0;
                while k < f.chunks.len()
                    invariant
                        self.wf(),
                        depth == self.nodes@.len(),
                        k <= f.chunks@.len(),
                        lens@.len() == k,
                        forall|j: int|
                            0 <= j < k ==> lens@[j] == self.chunk_lens(f.chunks@)[j],
                    decreases f.chunks@.len() - k,
                {
                    let len = match self.opt_seq_len(self.port_view(f.chunks[k].view), depth) {
                        Some(len) => len,
                        None => 0,
                    };
                    lens.push(len);
                    k += 1;
                }
                proof {
                    assert(lens@ =~= self.chunk_lens(f.chunks@));
                }
                f.cast
            },
            _ => {
                return ;
            },
        };
        let mut out = first;
        match &mut self.nodes[node] {
            Node::Flatten(f) => {
                let mut dirty = f.update_all_offsets::<T>(&lens);
                out.append(&mut dirty);
            },
            _ => {},
        }
        proof {
            assert(self.ports@ =~= old(self).ports@);
            assert(self.nodes@[node as int].wf(self.ports@.len(), self.nodes@.len())) by {
                let f = old(self).flatten_at(node).unwrap();
                let g = self.flatten_at(node).unwrap();
                assert(old(self).nodes@[node as int].wf(self.ports@.len(), self.nodes@.len()));
                assert forall|k: int| 0 <= k < g.chunks@.len() implies (#[trigger] g.chunks@[k]).view
                    < self.ports@.len() by {
                    assert(g.chunks@[k].view == f.chunks@[k].view);
                }
            }
            self.lemma_wf_after_step(old(self), node);
        }
        self.emit(cast, out);
    }

    /// Sets the chunks of the flattening at `node`: puts a chunk for `view`
    /// under `key`, or drops the chunk under `key` where `view` is none.
    pub fn set_chunk(&mut self, node: usize, key: usize, view: Option<usize>)
        requires
            old(self).wf(),
            opt_ok(view, old(self).ports@.len()),
        ensures
            final(self).wf(),
            final(self).extends(old(self)),
            final(self).nodes@.len() == old(self).nodes@.len(),
            match old(self).flatten_at(node) {
                Some(g) => final(self).flatten_stepped(
                    old(self),
                    node,
                    match view {
                        Some(port) => with_chunk(
                            g.chunks@,
                            Chunk { key, offset: 0, len: 0, view: port },
                        ),
                        None => without_chunk(g.chunks@, key),
                    },
                    g.length,
                    Seq::empty(),
                ),
                None => final(self).same(old(self)),
            },
    {
        if node >= self.nodes.len() {
            return ;
        }
        match &self.nodes[node] {
            Node::Flatten(_) => {},
            _ => {
                return ;
            },
        }
        match &mut self.nodes[node] {
            Node::Flatten(f) => match view {
                Some(port) => {
                    f.insert_chunk(key, port);
                },
                None => {
                    f.remove_chunk(key);
                },
            },
            _ => {},
        }
        proof {
            assert(self.ports@ =~= old(self).ports@);
            let f = old(self).flatten_at(node).unwrap();
            let g = self.flatten_at(node).unwrap();
            assert(old(self).nodes@[node as int].wf(self.ports@.len(), self.nodes@.len()));
            lemma_slot_bounds(f.chunks@, key, 0);
            assert forall|k: int| 0 <= k < g.chunks@.len() implies (#[trigger] g.chunks@[k]).view
                < self.ports@.len() by {
                let p = slot_of(f.chunks@, key, 0) as int;
                match view {
                    Some(port) => {
                        if has_chunk(f.chunks@, key) {
                            if k != p {
                                assert(g.chunks@[k] == f.chunks@[k]);
                            }
                        } else {
                            if k < p {
                                assert(g.chunks@[k] == f.chunks@[k]);
                            } else if k > p {
                                assert(g.chunks@[k] == f.chunks@[k - 1]);
                            }
                        }
                    },
                    None => {
                        if has_chunk(f.chunks@, key) {
                            if k < p {
                                assert(g.chunks@[k] == f.chunks@[k]);
                            } else {
                                assert(g.chunks@[k] == f.chunks@[k + 1]);
                            }
                        } else {
                            assert(g.chunks@[k] == f.chunks@[k]);
                        }
                    },
                }
            }
            self.lemma_wf_after_step(old(self), node);
            let cast = f.cast;
            if cast < self.ports@.len() {
                assert(self.ports@[cast as int].cast.pending() + Seq::<Msg<T>>::empty()
                    =~= self.ports@[cast as int].cast.pending());
            }
        }
    }


    /// The nested view under `key` of the flattening at `node` changed at
    /// `idx`.
    pub fn chunk_notified(&mut self, node: usize, key: usize, idx: usize)
        requires
            old(self).wf(),
        ensures
            final(self).wf(),
            final(self).extends(old(self)),
            final(self).nodes@.len() == old(self).nodes@.len(),
            final(self).chunk_changed(old(self), node, key, idx),
    {
        if node >= self.nodes.len() {
            return ;
        }
        let depth = self.nodes.len();
        let (chunk, cast) = match &self.nodes[node] {
            Node::Flatten(f) => (f.chunk(key), f.cast),
            _ => {
                return ;
            },
        };
        match chunk {
            Some(chunk) => {
                let len = match self.opt_seq_len(self.port_view(chunk.view), depth) {
                    Some(len) => len,
                    None => 0,
                };
                let first: Vec<Msg<T>> = if idx <= usize::MAX - chunk.offset {
                    one_msg(Msg::Index(idx + chunk.offset))
                } else {
                    Vec::new()
                };
                if chunk.len != len {
                    self.refresh_offsets(node, first);
                } else {
                    self.emit(cast, first);
                }
            },
            None => {
                self.refresh_offsets(node, Vec::new());
            },
        }
    }
}


/// A flattening of the sequence on `top` without chunks, which announces on
/// `out` and whose helper keeps its hooks in the hook chain of `out`.
pub open spec fn fresh_flatten(flat: Flatten, top: usize, out: usize) -> bool {
    &&& flat.length == 0
    &&& flat.top == top
    &&& flat.chunks@ == Seq::<Chunk>::empty()
    &&& flat.cast == out
    &&& flat.proj_helper.keepalive@ == Seq::<Keepalive>::empty()
    &&& flat.proj_helper.proj.is_none()
    &&& flat.proj_helper.update_hooks == out
}

impl Flatten {
    /// A flattening of the sequence of views on `top_port`, published on
    /// `out_port`.  The outer sequence is its dependency under the largest
    /// key.
    pub fn new<T: Copy, F: Fn(&T) -> T, P: Fn(&T) -> bool>(
        g: &mut Graph<T, F, P>,
        top_port: OuterViewPort<Sequence>,
        out_port: InnerViewPort<Sequence>,
    ) -> (view: ViewRef<Sequence>)
        requires
            old(g).wf(),
            top_port.0.valid(old(g)),
            out_port.0.valid(old(g)),
            old(g).ports@.len() < usize::MAX,
        ensures
            final(g).wf(),
            final(g).sized(old(g)),
            view.node == old(g).nodes@.len(),
            final(g).view_of(out_port.0.id) == Some(view.node),
            exists|flat: Flatten|
                #[trigger] final(g).installed(
                    old(g),
                    top_port.0.id,
                    out_port.0.id,
                    Node::Flatten(flat),
                    usize::MAX,
                    ArgHandler::FlattenTop,
                ) && fresh_flatten(flat, top_port.0.id, out_port.0.id),
    {
        let flat = Flatten {
            length: 0,
            top: top_port.0.id,
            chunks: Vec::new(),
            cast: out_port.0.id,
            proj_helper: ProjectionHelper::new(out_port.0.id),
        };
        let ghost made = flat;
        let node = g.install(
            top_port.0.id,
            out_port.0.id,
            Node::Flatten(flat),
            usize::MAX,
            ArgHandler::FlattenTop,
        );
        proof {
            assert(g.installed(
                old(g),
                top_port.0.id,
                out_port.0.id,
                Node::Flatten(made),
                usize::MAX,
                ArgHandler::FlattenTop,
            ));
        }
        ViewRef { node, shape: Sequence }
    }
}

impl OuterViewPort<Sequence> {
    /// The concatenation of the sequences that the items of this sequence
    /// name, on a new port.
    pub fn flatten<T: Copy, F: Fn(&T) -> T, P: Fn(&T) -> bool>(&self, g: &mut Graph<T, F, P>) -> (port:
        OuterViewPort<Sequence>)
        requires
            old(g).wf(),
            self.0.valid(old(g)),
            old(g).ports@.len() + 1 < usize::MAX,
        ensures
            final(g).wf(),
            port.0.id == old(g).ports@.len(),
            final(g).ports@.len() == old(g).ports@.len() + 1,
            final(g).nodes@.len() > old(g).nodes@.len(),
            final(g).view_of(port.0.id) == Some(old(g).nodes@.len() as usize),
            exists|mid: Graph<T, F, P>, flat: Flatten|
                #[trigger] final(g).installed(
                    &mid,
                    self.0.id,
                    port.0.id,
                    Node::Flatten(flat),
                    usize::MAX,
                    ArgHandler::FlattenTop,
                ) && fresh_flatten(flat, self.0.id, port.0.id) && mid.nodes@ == old(g).nodes@
                    && mid.alive@ == old(g).alive@ && mid.ports@.len() == old(g).ports@.len() + 1,
    {
        let port = ViewPort::<Sequence>::new(g);
        Flatten::new(g, *self, port.inner());
        port.into_outer()
    }
}


/// The items of the first `n` of the sequences `parts`, one sequence after
/// the other.
pub open spec fn joined<T>(parts: Seq<Seq<T>>, n: nat) -> Seq<T>
    decreases n,
{
    if n == 0 || n > parts.len() {
        Seq::empty()
    } else {
        joined(parts, (n - 1) as nat) + parts[n - 1]
    }
}

/// The lengths of `parts`.
pub open spec fn lens_of<T>(parts: Seq<Seq<T>>) -> Seq<usize> {
    Seq::new(parts.len(), |k: int| parts[k].len() as usize)
}

/// What the first `k` parts hold is a prefix of what all hold.
pub proof fn lemma_joined_prefix<T>(parts: Seq<Seq<T>>, k: nat)
    requires
        k <= parts.len(),
    ensures
        joined(parts, k).len() <= joined(parts, parts.len()).len(),
        forall|i: int|
            0 <= i < joined(parts, k).len() ==> joined(parts, parts.len())[i] == joined(parts, k)[i],
    decreases parts.len() - k,
{
    if k < parts.len() {
        lemma_joined_prefix(parts, k + 1);
        let next = joined(parts, k + 1);
        assert(next == joined(parts, k) + parts[k as int]);
        assert forall|i: int| 0 <= i < joined(parts, k).len() implies joined(
            parts,
            parts.len(),
        )[i] == joined(parts, k)[i] by {
            assert(next[i] == joined(parts, k)[i]);
        }
    }
}

/// The sum of the lengths, where nothing is too large for a number.
pub proof fn lemma_joined_sum<T>(parts: Seq<Seq<T>>, k: nat)
    requires
        k <= parts.len(),
        joined(parts, k).len() < usize::MAX,
    ensures
        offset_at(lens_of(parts), k) == joined(parts, k).len(),
    decreases k,
{
    if k > 0 {
        lemma_joined_sum(parts, (k - 1) as nat);
    }
}

impl<T: Copy, F: Fn(&T) -> T, P: Fn(&T) -> bool> Graph<T, F, P> {
    /// Whether the chunks `chunks` stand for the sequences `parts`: the
    /// nested view of each chunk reads as its part and reports its length,
    /// and each chunk starts where the parts before it end.
    pub open spec fn chunks_hold(&self, chunks: Seq<Chunk>, parts: Seq<Seq<T>>, fuel: nat) -> bool {
        &&& chunks.len() == parts.len()
        &&& forall|k: int|
            0 <= k < chunks.len() ==> {
                let view = self.view_of((#[trigger] chunks[k]).view);
                &&& self.reads_as(view, parts[k], fuel)
                &&& self.opt_seq_len_at(view, fuel) == Some(parts[k].len() as usize)
                &&& chunks[k].offset == offset_at(lens_of(parts), k as nat)
            }
    }

    /// The scan for the chunk of a flat index finds the part that holds the
    /// index.
    pub proof fn lemma_chunk_scan(
        &self,
        chunks: Seq<Chunk>,
        parts: Seq<Seq<T>>,
        idx: usize,
        k: nat,
        fuel: nat,
    )
        requires
            self.chunks_hold(chunks, parts, fuel),
            joined(parts, parts.len()).len() < usize::MAX,
            k <= chunks.len(),
            joined(parts, k).len() <= idx,
        ensures
            match self.chunk_scan(chunks, idx, k, joined(parts, k).len() as usize, fuel) {
                Some(at) => {
                    &&& k <= at < chunks.len()
                    &&& joined(parts, at as nat).len() <= idx < joined(parts, (at + 1) as nat).len()
                },
                None => joined(parts, parts.len()).len() <= idx,
            },
        decreases chunks.len() - k,
    {
        if k < chunks.len() {
            lemma_joined_prefix(parts, k + 1);
            lemma_joined_prefix(parts, k);
            let view = self.view_of(chunks[k as int].view);
            assert(self.opt_seq_len_at(view, fuel) == Some(parts[k as int].len() as usize));
            let acc = joined(parts, k).len() as usize;
            let end = sat_add(acc, parts[k as int].len() as usize);
            assert(end == joined(parts, k + 1).len());
            if idx >= end {
                self.lemma_chunk_scan(chunks, parts, idx, k + 1, fuel);
            }
        }
    }

    /// A flattening shows what joining the nested sequences from scratch
    /// gives: if its chunks stand for the sequences `parts` and its length
    /// is the sum of their lengths, it has at each index the item of the
    /// parts joined, and none beyond, and reports their length.
    pub proof fn lemma_flatten_is_batch(&self, node: usize, parts: Seq<Seq<T>>, fuel: nat)
        requires
            node < self.nodes@.len(),
            self.nodes@[node as int] is Flatten,
            joined(parts, parts.len()).len() < usize::MAX,
            self.chunks_hold(self.nodes@[node as int]->Flatten_0.chunks@, parts, fuel),
            self.nodes@[node as int]->Flatten_0.length == offset_at(lens_of(parts), parts.len()),
        ensures
            ({
                let batch = joined(parts, parts.len());
                &&& self.seq_len_at(node, fuel + 1) == Some(batch.len() as usize)
                &&& forall|idx: usize|
                    #[trigger] self.seq_get_at(node, idx, fuel + 1) == if idx < batch.len() {
                        Some(batch[idx as int])
                    } else {
                        None
                    }
            }),
    {
        let f = self.nodes@[node as int]->Flatten_0;
        let batch = joined(parts, parts.len());
        lemma_joined_sum(parts, parts.len());
        assert forall|idx: usize| #[trigger]
            self.seq_get_at(node, idx, fuel + 1) == if idx < batch.len() {
                Some(batch[idx as int])
            } else {
                None
            } by {
            self.lemma_chunk_scan(f.chunks@, parts, idx, 0, fuel);
            match self.chunk_scan(f.chunks@, idx, 0, 0, fuel) {
                Some(at) => {
                    lemma_joined_prefix(parts, (at + 1) as nat);
                    lemma_joined_prefix(parts, at as nat);
                    lemma_joined_sum(parts, at as nat);
                    let view = self.view_of(f.chunks@[at].view);
                    let local = (idx - f.chunks@[at].offset) as usize;
                    assert(self.opt_seq_get_at(view, local, fuel) == Some(parts[at][local as int]));
                    assert(joined(parts, (at + 1) as nat)[idx as int] == parts[at][local as int]);
                },
                None => {},
            }
        }
    }
}


impl Flatten {
    /// The position of the chunk that holds the flat index `glob_idx`: the
    /// first at whose end the running sum of the lengths, as the nested views
    /// report them now, exceeds `glob_idx`.
    pub fn get_chunk_idx<T: Copy, F: Fn(&T) -> T, P: Fn(&T) -> bool>(
        g: &Graph<T, F, P>,
        chunks: &Vec<Chunk>,
        glob_idx: usize,
        fuel: usize,
    ) -> (r: Option<usize>)
        requires
            g.wf(),
        ensures
            match r {
                Some(k) => g.chunk_scan(chunks@, glob_idx, 0, 0, fuel as nat) == Some(k as int)
                    && k < chunks@.len(),
                None => g.chunk_scan(chunks@, glob_idx, 0, 0, fuel as nat).is_none(),
            },
        decreases fuel, 2nat,
    {
        let mut k: usize = 0;
        let mut acc: usize = 0;
        while k < chunks.len()
            invariant
                g.wf(),
                k <= chunks@.len(),
                g.chunk_scan(chunks@, glob_idx, k as nat, acc, fuel as nat) == g.chunk_scan(
                    chunks@,
                    glob_idx,
                    0,
                    0,
                    fuel as nat,
                ),
            decreases chunks@.len() - k,
        {
            let len = match g.opt_seq_len(g.port_view(chunks[k].view), fuel) {
                Some(len) => len,
                None => 0,
            };
            let end = add_saturating(acc, len);
            if glob_idx < end {
                return Some(k);
            }
            acc = end;
            k += 1;
        }
        None
    }
}


impl Flatten {
    /// The outer sequence of the flattening at `node` changed at `chunk_idx`.
    pub fn update_chunk<T: Copy, F: Fn(&T) -> T, P: Fn(&T) -> bool>(
        g: &mut Graph<T, F, P>,
        node: usize,
        chunk_idx: usize,
        fuel: usize,
    )
        requires
            old(g).wf(),
        ensures
            final(g).wf(),
            final(g).extends(old(g)),
            final(g).top_changed(old(g), node, chunk_idx, fuel as nat),
        decreases fuel, 4nat,
    {
        if node >= g.nodes.len() {
            return ;
        }
        let top = match &g.nodes[node] {
            Node::Flatten(f) => f.top,
            _ => {
                return ;
            },
        };
        let nested = match g.port_view(top) {
            Some(view) => g.seq_view(view, chunk_idx),
            None => None,
        };
        match nested {
            Some(port) => {
                g.new_sequence_arg(
                    node,
                    chunk_idx,
                    port,
                    ArgHandler::FlattenChunk(chunk_idx),
                    fuel,
                );
                let ghost m1 = *g;
                g.set_chunk(node, chunk_idx, Some(port));
                let ghost m2 = *g;
                if fuel > 0 {
                    g.update_port(port, fuel - 1);
                }
                let ghost m3 = *g;
                g.refresh_offsets(node, Vec::new());
                proof {
                    assert(Graph::<T, F, P>::in_turn(m1, m2, m3));
                }
            },
            None => {
                g.remove_arg(node, chunk_idx);
                let ghost m1 = *g;
                g.set_chunk(node, chunk_idx, None);
                let ghost m2 = *g;
                g.refresh_offsets(node, Vec::new());
                proof {
                    assert(Graph::<T, F, P>::in_turn(m1, m2, m2));
                }
            },
        }
    }
}

} // verus!
