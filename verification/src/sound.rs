//! Testing at run time that a graph is sound.
//!
//! The fields of a graph are open, so that its owner can read them.  A
//! caller that does not trust what it was handed can test here that every
//! reference between ports and nodes names something that exists and that
//! the lists of the projections are in order.
use vstd::prelude::*;
use crate::graph::{opt_ok, Graph, Node};
use crate::projection::flatten_sequence::{ordered, Chunk};
use crate::projection::projection_helper::ProjectionHelper;
use crate::view::index::Key;
use crate::view::port::{Hook, PortState};

verus! {

/// Whether every number of `v` is below `bound`.
pub fn all_below(v: &Vec<usize>, bound: usize) -> (ok: bool)
    ensures
        ok == (forall|k: int| 0 <= k < v@.len() ==> #[trigger] v@[k] < bound),
{
    let mut i: usize = 0;
    while i < v.len()
        invariant
            i <= v@.len(),
            forall|k: int| 0 <= k < i ==> #[trigger] v@[k] < bound,
        decreases v@.len() - i,
    {
        if v[i] >= bound {
            return false;
        }
        i += 1;
    }
    true
}

/// Whether no number stands twice in `v`.
pub fn distinct(v: &Vec<usize>) -> (ok: bool)
    ensures
        ok == v@.no_duplicates(),
{
    let mut i: usize = 0;
    while i < v.len()
        invariant
            i <= v@.len(),
            forall|a: int, b: int| 0 <= a < b < i ==> v@[a] != v@[b],
        decreases v@.len() - i,
    {
        let mut j: usize = 0;
        while j < i
            invariant
                j <= i,
                i < v@.len(),
                forall|a: int| 0 <= a < j ==> v@[a] != v@[i as int],
            decreases i - j,
        {
            if v[j] == v[i] {
                return false;
            }
            j += 1;
        }
        i += 1;
    }
    proof {
        assert forall|a: int, b: int| 0 <= a < v@.len() && 0 <= b < v@.len() && a
            != b implies v@[a] != v@[b] by {
            if a < b {
                assert(v@[a] != v@[b]);
            } else {
                assert(v@[b] != v@[a]);
            }
        }
    }
    true
}

/// Whether no key stands twice in `v`.
pub fn distinct_keys(v: &Vec<Key>) -> (ok: bool)
    ensures
        ok == v@.no_duplicates(),
{
    let mut i: usize = 0;
    while i < v.len()
        invariant
            i <= v@.len(),
            forall|a: int, b: int| 0 <= a < b < i ==> v@[a] != v@[b],
        decreases v@.len() - i,
    {
        let mut j: usize = 0;
        while j < i
            invariant
                j <= i,
                i < v@.len(),
                forall|a: int| 0 <= a < j ==> v@[a] != v@[i as int],
            decreases i - j,
        {
            if v[j] == v[i] {
                return false;
            }
            j += 1;
        }
        i += 1;
    }
    proof {
        assert forall|a: int, b: int| 0 <= a < v@.len() && 0 <= b < v@.len() && a
            != b implies v@[a] != v@[b] by {
            if a < b {
                assert(v@[a] != v@[b]);
            } else {
                assert(v@[b] != v@[a]);
            }
        }
    }
    true
}

/// Whether the number that `view` holds, if it holds one, is below `bound`.
pub fn opt_below(view: Option<usize>, bound: usize) -> (ok: bool)
    ensures
        ok == opt_ok(view, bound as nat),
{
    match view {
        Some(n) => n < bound,
        None => true,
    }
}

/// Whether the chunks are in the order of their keys and each names a port
/// that exists.
pub fn chunks_sound(chunks: &Vec<Chunk>, n_ports: usize) -> (ok: bool)
    ensures
        ok == (ordered(chunks@) && forall|k: int|
            0 <= k < chunks@.len() ==> (#[trigger] chunks@[k]).view < n_ports),
{
    let mut i: usize = 0;
    while i < chunks.len()
        invariant
            i <= chunks@.len(),
            forall|k: int| 0 <= k < i ==> (#[trigger] chunks@[k]).view < n_ports,
            forall|a: int, b: int|
                0 <= a < b < i ==> (#[trigger] chunks@[a]).key < (#[trigger] chunks@[b]).key,
        decreases chunks@.len() - i,
    {
        if chunks[i].view >= n_ports {
            return false;
        }
        if i > 0 && chunks[i - 1].key >= chunks[i].key {
            proof {
                assert(!(chunks@[i - 1].key < chunks@[i as int].key));
            }
            return false;
        }
        proof {
            assert forall|a: int, b: int| 0 <= a < b < i + 1 implies (#[trigger] chunks@[a]).key < (
            #[trigger] chunks@[b]).key by {
                if b == i && a < i - 1 {
                    assert(chunks@[a].key < chunks@[i - 1].key);
                }
            }
        }
        i += 1;
    }
    true
}

/// Whether the chunks of a grid are in the order of a walk row by row and
/// each names a port that exists.
pub fn grid_chunks_sound(chunks: &Vec<crate::projection::flatten_grid::Chunk>, n_ports: usize) -> (ok:
    bool)
    ensures
        ok == (crate::projection::flatten_grid::ordered(chunks@) && forall|k: int|
            0 <= k < chunks@.len() ==> (#[trigger] chunks@[k]).view < n_ports),
{
    let mut i: usize = 0;
    while i < chunks.len()
        invariant
            i <= chunks@.len(),
            forall|k: int| 0 <= k < i ==> (#[trigger] chunks@[k]).view < n_ports,
            forall|a: int, b: int|
                0 <= a < b < i ==> crate::projection::flatten_grid::rank(
                    (#[trigger] chunks@[a]).at,
                ) < crate::projection::flatten_grid::rank((#[trigger] chunks@[b]).at),
        decreases chunks@.len() - i,
    {
        if chunks[i].view >= n_ports {
            return false;
        }
        if i > 0 && crate::projection::flatten_grid::rank_of(chunks[i - 1].at)
            >= crate::projection::flatten_grid::rank_of(chunks[i].at) {
            proof {
                assert(!(crate::projection::flatten_grid::rank(chunks@[i - 1].at)
                    < crate::projection::flatten_grid::rank(chunks@[i as int].at)));
            }
            return false;
        }
        proof {
            assert forall|a: int, b: int| 0 <= a < b < i + 1 implies crate::projection::flatten_grid::rank(
                (#[trigger] chunks@[a]).at,
            ) < crate::projection::flatten_grid::rank((#[trigger] chunks@[b]).at) by {
                if b == i && a < i - 1 {
                    assert(crate::projection::flatten_grid::rank(chunks@[a].at)
                        < crate::projection::flatten_grid::rank(chunks@[i - 1].at));
                }
            }
        }
        i += 1;
    }
    true
}

impl ProjectionHelper {
    /// Whether every port and node that the helper names exists.
    pub fn is_sound(&self, n_ports: usize, n_nodes: usize) -> (ok: bool)
        ensures
            ok == self.wf(n_ports as nat, n_nodes as nat),
    {
        if self.update_hooks >= n_ports || !opt_below(self.proj, n_nodes) {
            return false;
        }
        let mut i: usize = 0;
        while i < self.keepalive.len()
            invariant
                i <= self.keepalive@.len(),
                forall|k: int| 0 <= k < i ==> (#[trigger] self.keepalive@[k]).arg < n_nodes,
            decreases self.keepalive@.len() - i,
        {
            if self.keepalive[i].arg >= n_nodes {
                return false;
            }
            i += 1;
        }
        true
    }
}

impl<T> PortState<T> {
    /// Whether every port and node that this port names exists.
    pub fn is_sound(&self, n_ports: usize, n_nodes: usize) -> (ok: bool)
        ensures
            ok == self.wf(n_ports as nat, n_nodes as nat),
    {
        if !opt_below(self.view, n_nodes) || !all_below(&self.cast.observers, n_nodes) {
            return false;
        }
        let mut i: usize = 0;
        while i < self.update_hooks.len()
            invariant
                i <= self.update_hooks@.len(),
                forall|k: int|
                    0 <= k < i ==> match #[trigger] self.update_hooks@[k] {
                        Hook::Port(p) => p < n_ports,
                        Hook::Arg(a) => a < n_nodes,
                    },
            decreases self.update_hooks@.len() - i,
        {
            let ok = match self.update_hooks[i] {
                Hook::Port(p) => p < n_ports,
                Hook::Arg(a) => a < n_nodes,
            };
            if !ok {
                return false;
            }
            i += 1;
        }
        true
    }
}

impl<T: Copy, F: Fn(&T) -> T, P: Fn(&T) -> bool> Node<T, F, P> {
    /// Whether every port and node that this node names exists, what it
    /// keeps in lists is in order, and a buffer that it fills is older than
    /// the node itself, which stands at `id`.
    pub fn is_sound(&self, n_ports: usize, n_nodes: usize, id: usize) -> (ok: bool)
        ensures
            ok == (self.refs_ok(n_ports as nat, n_nodes as nat) && self.fills_below(id as int)),
    {
        match self {
            Node::VecData(d) => d.port < n_ports,
            Node::ViewData(d) => d.port < n_ports && all_below(&d.data, n_ports),
            Node::VecBufferTarget(t) => t.buffer.data < n_nodes && t.buffer.port.0.id < n_ports
                && opt_below(t.src_view, n_nodes) && t.buffer.data < id,
            Node::SingletonBufferView(d) => d.port < n_ports,
            Node::SingletonBufferTarget(t) => t.buffer.value < n_nodes && t.buffer.port.0.id
                < n_ports && opt_below(t.src_view, n_nodes) && t.buffer.value < id,
            Node::MapSingleton(m) => m.cast < n_ports && opt_below(m.src_view, n_nodes),
            Node::Singleton2Sequence(s) => s.cast < n_ports && opt_below(s.src_view, n_nodes),
            Node::VecSequence(s) => s.cast < n_ports && opt_below(s.data, n_nodes),
            Node::Vec2List(s) => s.cast < n_ports && opt_below(s.src_view, n_nodes),
            Node::List2Seq(s) => s.cast < n_ports && opt_below(s.src_view, n_nodes),
            Node::MapSequenceItem(m) => m.cast < n_ports && opt_below(m.src_view, n_nodes),
            Node::MapListItem(m) => m.cast < n_ports && opt_below(m.src_view, n_nodes),
            Node::EnumerateSequence(e) => e.cast < n_ports && opt_below(e.src_view, n_nodes),
            Node::Filter(f) => f.cast < n_ports && opt_below(f.src_view, n_nodes),
            Node::Flatten(f) => f.cast < n_ports && f.top < n_ports && f.proj_helper.is_sound(
                n_ports,
                n_nodes,
            ) && chunks_sound(&f.chunks, n_ports),
            Node::Wrapped(w) => w.cast < n_ports && w.items < n_ports && w.proj_helper.is_sound(
                n_ports,
                n_nodes,
            ),
            Node::Separated(s) => s.cast < n_ports && s.items < n_ports && s.proj_helper.is_sound(
                n_ports,
                n_nodes,
            ),
            Node::ProjectionArg(a) => a.owner < n_nodes && opt_below(a.src, n_nodes) && match &a.rx.send_buf {
                Some(set) => distinct(&set.keys),
                None => true,
            },
            Node::NotifyFnObserver(_) => true,
            Node::ResetFnObserver(_) => true,
            Node::IndexBufferView(d) => d.port < n_ports && d.keys.len() == d.items.len() && distinct_keys(
                &d.keys,
            ),
            Node::IndexViews(d) => d.port < n_ports && d.keys.len() == d.views.len()
                && distinct_keys(&d.keys) && all_below(&d.views, n_ports),
            Node::Sequence2Index(s) => s.cast < n_ports && opt_below(s.src_view, n_nodes),
            Node::Singleton2Index(s) => s.cast < n_ports && opt_below(s.src_view, n_nodes),
            Node::MapIndexItem(m) => m.cast < n_ports && opt_below(m.src_view, n_nodes),
            Node::MapIndexKey(m) => m.cast < n_ports && opt_below(m.src_view, n_nodes),
            Node::FlattenGrid(f) => f.cast < n_ports && f.top < n_ports && f.proj_helper.is_sound(
                n_ports,
                n_nodes,
            ) && grid_chunks_sound(&f.chunks, n_ports),
            Node::IndexArg(a) => a.owner < n_nodes && opt_below(a.src, n_nodes),
            Node::VecBinWriter(w) => opt_below(w.data, n_nodes),
            Node::VecJsonWriter(w) => opt_below(w.data, n_nodes),
            Node::SingletonView(d) => d.port < n_ports && d.value < n_ports,
            Node::FlattenSingleton(f) => f.cast < n_ports && f.outer < n_ports && opt_below(
                f.inner,
                n_ports,
            ) && f.proj.is_sound(n_ports, n_nodes),
        }
    }
}

impl<T: Copy, F: Fn(&T) -> T, P: Fn(&T) -> bool> Graph<T, F, P> {
    /// Every reference between ports and nodes names something that exists,
    /// what the projections keep in lists is in order, and every node that
    /// fills a buffer is younger than the buffer.
    pub open spec fn sound(&self) -> bool {
        &&& self.alive@.len() == self.nodes@.len()
        &&& forall|p: int|
            0 <= p < self.ports@.len() ==> (#[trigger] self.ports@[p]).wf(
                self.ports@.len(),
                self.nodes@.len(),
            )
        &&& forall|n: int|
            0 <= n < self.nodes@.len() ==> (#[trigger] self.nodes@[n]).refs_ok(
                self.ports@.len(),
                self.nodes@.len(),
            ) && self.nodes@[n].fills_below(n)
    }

    /// Whether the functions of every projection are total.
    pub open spec fn fns_total(&self) -> bool {
        forall|n: int| 0 <= n < self.nodes@.len() ==> (#[trigger] self.nodes@[n]).fns_total()
    }

    /// A graph is well-formed if it is sound and the functions of its
    /// projections are total, and only then.
    pub proof fn lemma_wf_is_sound_and_total(&self)
        ensures
            self.wf() <==> self.sound() && self.fns_total(),
    {
        if self.wf() {
            assert forall|n: int| 0 <= n < self.nodes@.len() implies (#[trigger] self.nodes@[n]).refs_ok(
                self.ports@.len(),
                self.nodes@.len(),
            ) && self.nodes@[n].fills_below(n) && self.nodes@[n].fns_total() by {
                assert(self.nodes@[n].wf(self.ports@.len(), self.nodes@.len()));
            }
        }
        if self.sound() && self.fns_total() {
            assert forall|n: int| 0 <= n < self.nodes@.len() implies (#[trigger] self.nodes@[n]).wf(
                self.ports@.len(),
                self.nodes@.len(),
            ) by {
                assert(self.nodes@[n].refs_ok(self.ports@.len(), self.nodes@.len()));
                assert(self.nodes@[n].fns_total());
            }
        }
    }

    /// Tests whether the graph is sound.
    pub fn is_sound(&self) -> (ok: bool)
        ensures
            ok == self.sound(),
    {
        if self.alive.len() != self.nodes.len() {
            return false;
        }
        let n_ports = self.ports.len();
        let n_nodes = self.nodes.len();
        let mut p: usize = 0;
        while p < n_ports
            invariant
                p <= n_ports,
                n_ports == self.ports@.len(),
                n_nodes == self.nodes@.len(),
                forall|q: int|
                    0 <= q < p ==> (#[trigger] self.ports@[q]).wf(n_ports as nat, n_nodes as nat),
            decreases n_ports - p,
        {
            if !self.ports[p].is_sound(n_ports, n_nodes) {
                return false;
            }
            p += 1;
        }
        let mut n: usize = 0;
        while n < n_nodes
            invariant
                n <= n_nodes,
                n_ports == self.ports@.len(),
                n_nodes == self.nodes@.len(),
                self.alive@.len() == self.nodes@.len(),
                forall|q: int|
                    0 <= q < n_ports ==> (#[trigger] self.ports@[q]).wf(
                        n_ports as nat,
                        n_nodes as nat,
                    ),
                forall|m: int|
                    0 <= m < n ==> (#[trigger] self.nodes@[m]).refs_ok(
                        n_ports as nat,
                        n_nodes as nat,
                    ) && self.nodes@[m].fills_below(m),
            decreases n_nodes - n,
        {
            if !self.nodes[n].is_sound(n_ports, n_nodes, n) {
                return false;
            }
            n += 1;
        }
        true
    }
}

} // verus!
