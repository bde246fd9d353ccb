//! The graph: the one place where ports, views and observers live.
use vstd::prelude::*;
use crate::buffer::index_hashmap::{IndexBufferView, IndexViews};
use crate::buffer::singleton::{SingletonBufferTarget, SingletonBufferView, SingletonViewData};
use crate::projection::map_index_item::MapIndexItem;
use crate::projection::map_index_key::MapIndexKey;
use crate::projection::seq2idx::Sequence2Index;
use crate::projection::sgl2idx::Singleton2Index;
use crate::buffer::vec::{VecBufferTarget, VecData, ViewData};
use crate::projection::map_singleton::MapSingleton;
use crate::projection::sgl2seq::Singleton2Sequence;
use crate::projection::decorate_sequence::{
    separated_len, separated_place, wrapped_len, wrapped_place, Place, Separated, Wrapped,
};
use crate::projection::enumerate_sequence::EnumerateSequence;
use crate::projection::filter_sequence::Filter;
use crate::projection::flatten_grid::IndexArg;
use crate::projection::flatten_sequence::Flatten;
use crate::projection::list2seq::List2Seq;
use crate::projection::map_list::MapListItem;
use crate::projection::map_sequence::MapSequenceItem;
use crate::projection::projection_helper::ProjectionArg;
use crate::projection::vec2bin::VecBinWriter;
use crate::projection::vec2json::VecJsonWriter;
use crate::projection::vec2list::Vec2List;
use crate::projection::vec2seq::VecSequence;
use crate::projection::flatten_sequence::{ordered, Chunk};
use crate::view::Msg;
use crate::view::observer::{NotifyFnObserver, ObserverBroadcast, ResetFnObserver};
use crate::view::port::{Hook, PortState};

verus! {

/// What lives at a node of the graph.
pub enum Node<T, F, P> {
    VecData(VecData<T>),
    ViewData(ViewData),
    VecBufferTarget(VecBufferTarget),
    SingletonBufferView(SingletonBufferView<T>),
    SingletonBufferTarget(SingletonBufferTarget),
    MapSingleton(MapSingleton<F>),
    Singleton2Sequence(Singleton2Sequence),
    VecSequence(VecSequence),
    Vec2List(Vec2List),
    List2Seq(List2Seq),
    MapSequenceItem(MapSequenceItem<F>),
    MapListItem(MapListItem<F>),
    EnumerateSequence(EnumerateSequence),
    Filter(Filter<P>),
    Flatten(Flatten),
    Wrapped(Wrapped<T>),
    Separated(Separated<T>),
    ProjectionArg(ProjectionArg),
    NotifyFnObserver(NotifyFnObserver<T>),
    ResetFnObserver(ResetFnObserver),
    IndexBufferView(IndexBufferView<T>),
    IndexViews(IndexViews),
    Sequence2Index(Sequence2Index),
    Singleton2Index(Singleton2Index),
    MapIndexItem(MapIndexItem<F>),
    MapIndexKey(MapIndexKey),
    FlattenGrid(crate::projection::flatten_grid::Flatten),
    IndexArg(IndexArg),
    VecBinWriter(VecBinWriter<T>),
    VecJsonWriter(VecJsonWriter<T>),
    SingletonView(SingletonViewData),
    FlattenSingleton(crate::projection::flatten_singleton::Flatten),
}

/// The state of a whole pipeline.  Ports and nodes are named by their index;
/// both only grow.  `alive` says for each node whether an owner still holds
/// it: a node that is not alive is told of nothing.
pub struct Graph<T, F, P> {
    pub ports: Vec<PortState<T>>,
    pub nodes: Vec<Node<T, F, P>>,
    pub alive: Vec<bool>,
}


/// Whether `f` can be called on every item and returns one value for each.
pub open spec fn total_fn<T, F: Fn(&T) -> T>(f: F) -> bool {
    &&& forall|x: T| call_requires(f, (&x,))
    &&& forall|x: T, y: T, z: T|
        call_ensures(f, (&x,), y) && call_ensures(f, (&x,), z) ==> y == z
}

/// The value of `f` at `x`.
pub open spec fn apply_fn<T, F: Fn(&T) -> T>(f: F, x: T) -> T {
    choose|y: T| call_ensures(f, (&x,), y)
}

/// Whether `p` can be called on every item and returns one answer for each.
pub open spec fn total_pred<T, P: Fn(&T) -> bool>(p: P) -> bool {
    &&& forall|x: T| call_requires(p, (&x,))
    &&& forall|x: T| !(call_ensures(p, (&x,), true) && call_ensures(p, (&x,), false))
}

/// Whether `x` passes `p`.
pub open spec fn holds<T, P: Fn(&T) -> bool>(p: P, x: T) -> bool {
    call_ensures(p, (&x,), true)
}

/// `a + b`, or the largest number if that is too large.
pub open spec fn sat_add(a: usize, b: usize) -> usize {
    if a + b <= usize::MAX {
        (a + b) as usize
    } else {
        usize::MAX
    }
}

/// `a - b`, or zero if `b` is larger.
pub open spec fn sat_sub(a: usize, b: usize) -> usize {
    if a >= b {
        (a - b) as usize
    } else {
        0
    }
}

/// `a + b`, or the largest number if that is too large.
pub fn add_saturating(a: usize, b: usize) -> (r: usize)
    ensures
        r == sat_add(a, b),
{
    if a <= usize::MAX - b {
        a + b
    } else {
        usize::MAX
    }
}

/// `a - b`, or zero if `b` is larger.
pub fn sub_saturating(a: usize, b: usize) -> (r: usize)
    ensures
        r == sat_sub(a, b),
{
    if a >= b {
        a - b
    } else {
        0
    }
}

/// Whether the number that `view` holds, if it holds one, is below `bound`.
pub open spec fn opt_ok(view: Option<usize>, bound: nat) -> bool {
    match view {
        Some(n) => n < bound,
        None => true,
    }
}

impl<T, F: Fn(&T) -> T, P: Fn(&T) -> bool> Node<T, F, P> {
    /// Every port and node that this node names exists, and what it keeps
    /// in lists is in order.
    pub open spec fn refs_ok(&self, n_ports: nat, n_nodes: nat) -> bool {
        match *self {
            Node::VecData(d) => d.port < n_ports,
            Node::ViewData(d) => {
                &&& d.port < n_ports
                &&& forall|k: int| 0 <= k < d.data@.len() ==> #[trigger] d.data@[k] < n_ports
            },
            Node::VecBufferTarget(t) => {
                &&& t.buffer.data < n_nodes
                &&& t.buffer.port.0.id < n_ports
                &&& opt_ok(t.src_view, n_nodes)
            },
            Node::SingletonBufferView(d) => d.port < n_ports,
            Node::SingletonBufferTarget(t) => {
                &&& t.buffer.value < n_nodes
                &&& t.buffer.port.0.id < n_ports
                &&& opt_ok(t.src_view, n_nodes)
            },
            Node::MapSingleton(m) => {
                &&& m.cast < n_ports
                &&& opt_ok(m.src_view, n_nodes)
            },
            Node::Singleton2Sequence(s) => s.cast < n_ports && opt_ok(s.src_view, n_nodes),
            Node::VecSequence(s) => s.cast < n_ports && opt_ok(s.data, n_nodes),
            Node::Vec2List(s) => s.cast < n_ports && opt_ok(s.src_view, n_nodes),
            Node::List2Seq(s) => s.cast < n_ports && opt_ok(s.src_view, n_nodes),
            Node::MapSequenceItem(m) => {
                &&& m.cast < n_ports
                &&& opt_ok(m.src_view, n_nodes)
            },
            Node::MapListItem(m) => {
                &&& m.cast < n_ports
                &&& opt_ok(m.src_view, n_nodes)
            },
            Node::EnumerateSequence(e) => e.cast < n_ports && opt_ok(e.src_view, n_nodes),
            Node::Filter(f) => {
                &&& f.cast < n_ports
                &&& opt_ok(f.src_view, n_nodes)
            },
            Node::Flatten(f) => {
                &&& f.cast < n_ports
                &&& f.top < n_ports
                &&& f.proj_helper.wf(n_ports, n_nodes)
                &&& ordered(f.chunks@)
                &&& forall|k: int|
                    0 <= k < f.chunks@.len() ==> (#[trigger] f.chunks@[k]).view < n_ports
            },
            Node::Wrapped(w) => {
                &&& w.cast < n_ports
                &&& w.items < n_ports
                &&& w.proj_helper.wf(n_ports, n_nodes)
            },
            Node::Separated(s) => {
                &&& s.cast < n_ports
                &&& s.items < n_ports
                &&& s.proj_helper.wf(n_ports, n_nodes)
            },
            Node::ProjectionArg(a) => {
                &&& a.owner < n_nodes
                &&& opt_ok(a.src, n_nodes)
                &&& a.rx.pending().no_duplicates()
            },
            Node::NotifyFnObserver(_) => true,
            Node::ResetFnObserver(_) => true,
            Node::IndexBufferView(d) => {
                &&& d.port < n_ports
                &&& d.keys@.len() == d.items@.len()
                &&& d.keys@.no_duplicates()
            },
            Node::IndexViews(d) => {
                &&& d.port < n_ports
                &&& d.keys@.len() == d.views@.len()
                &&& d.keys@.no_duplicates()
                &&& forall|k: int| 0 <= k < d.views@.len() ==> #[trigger] d.views@[k] < n_ports
            },
            Node::Sequence2Index(s) => s.cast < n_ports && opt_ok(s.src_view, n_nodes),
            Node::Singleton2Index(s) => s.cast < n_ports && opt_ok(s.src_view, n_nodes),
            Node::MapIndexItem(m) => {
                &&& m.cast < n_ports
                &&& opt_ok(m.src_view, n_nodes)
            },
            Node::MapIndexKey(m) => m.cast < n_ports && opt_ok(m.src_view, n_nodes),
            Node::FlattenGrid(f) => {
                &&& f.cast < n_ports
                &&& f.top < n_ports
                &&& f.proj_helper.wf(n_ports, n_nodes)
                &&& crate::projection::flatten_grid::ordered(f.chunks@)
                &&& forall|k: int|
                    0 <= k < f.chunks@.len() ==> (#[trigger] f.chunks@[k]).view < n_ports
            },
            Node::IndexArg(a) => a.owner < n_nodes && opt_ok(a.src, n_nodes),
            Node::VecBinWriter(w) => opt_ok(w.data, n_nodes),
            Node::VecJsonWriter(w) => opt_ok(w.data, n_nodes),
            Node::SingletonView(d) => d.port < n_ports && d.value < n_ports,
            Node::FlattenSingleton(f) => {
                &&& f.cast < n_ports
                &&& f.outer < n_ports
                &&& opt_ok(f.inner, n_ports)
                &&& f.proj.wf(n_ports, n_nodes)
            },
        }
    }

    /// The functions of this node can be called on every item and return one
    /// value for each.
    pub open spec fn fns_total(&self) -> bool {
        match *self {
            Node::MapSingleton(m) => total_fn::<T, F>(m.f),
            Node::MapSequenceItem(m) => total_fn::<T, F>(m.f),
            Node::MapListItem(m) => total_fn::<T, F>(m.f),
            Node::MapIndexItem(m) => total_fn::<T, F>(m.f),
            Node::Filter(f) => total_pred::<T, P>(f.pred),
            _ => true,
        }
    }

    /// Every port and node that this node names exists, what it keeps in
    /// lists is in order, and its functions are total.
    pub open spec fn wf(&self, n_ports: nat, n_nodes: nat) -> bool {
        self.refs_ok(n_ports, n_nodes) && self.fns_total()
    }
}

impl<T, F: Fn(&T) -> T, P: Fn(&T) -> bool> Node<T, F, P> {
    /// A node that fills a buffer stands behind the buffer: the buffer is
    /// older than the node at index `id`.
    pub open spec fn fills_below(&self, id: int) -> bool {
        match *self {
            Node::VecBufferTarget(t) => t.buffer.data < id,
            Node::SingletonBufferTarget(t) => t.buffer.value < id,
            _ => true,
        }
    }

    /// Which kind of node this is, as a number.
    pub open spec fn kind(&self) -> nat {
        match *self {
            Node::VecData(_) => 0,
            Node::ViewData(_) => 1,
            Node::VecBufferTarget(_) => 2,
            Node::SingletonBufferView(_) => 3,
            Node::SingletonBufferTarget(_) => 4,
            Node::MapSingleton(_) => 5,
            Node::Singleton2Sequence(_) => 6,
            Node::VecSequence(_) => 7,
            Node::Vec2List(_) => 8,
            Node::List2Seq(_) => 9,
            Node::MapSequenceItem(_) => 10,
            Node::MapListItem(_) => 11,
            Node::EnumerateSequence(_) => 12,
            Node::Filter(_) => 13,
            Node::Flatten(_) => 14,
            Node::Wrapped(_) => 18,
            Node::Separated(_) => 19,
            Node::ProjectionArg(_) => 15,
            Node::NotifyFnObserver(_) => 16,
            Node::ResetFnObserver(_) => 17,
            Node::IndexBufferView(_) => 20,
            Node::IndexViews(_) => 21,
            Node::Sequence2Index(_) => 22,
            Node::Singleton2Index(_) => 23,
            Node::MapIndexItem(_) => 24,
            Node::MapIndexKey(_) => 25,
            Node::IndexArg(_) => 26,
            Node::FlattenGrid(_) => 27,
            Node::VecBinWriter(_) => 28,
            Node::VecJsonWriter(_) => 29,
            Node::SingletonView(_) => 30,
            Node::FlattenSingleton(_) => 31,
        }
    }

    /// Whether this is one of the buffers that own data.
    pub open spec fn is_leaf(&self) -> bool {
        match *self {
            Node::VecData(_) => true,
            Node::ViewData(_) => true,
            Node::SingletonBufferView(_) => true,
            Node::IndexBufferView(_) => true,
            Node::IndexViews(_) => true,
            Node::SingletonView(_) => true,
            _ => false,
        }
    }
}

impl<T> PortState<T> {
    /// Every port and node that this port names exists.
    pub open spec fn wf(&self, n_ports: nat, n_nodes: nat) -> bool {
        &&& opt_ok(self.view, n_nodes)
        &&& forall|k: int|
            0 <= k < self.cast.observers@.len() ==> #[trigger] self.cast.observers@[k] < n_nodes
        &&& forall|k: int|
            0 <= k < self.update_hooks@.len() ==> match #[trigger] self.update_hooks@[k] {
                Hook::Port(p) => p < n_ports,
                Hook::Arg(a) => a < n_nodes,
            }
    }
}

impl<T: Copy, F: Fn(&T) -> T, P: Fn(&T) -> bool> Graph<T, F, P> {
    /// Every reference between ports and nodes names something that exists,
    /// and the functions of the projections are total.
    pub open spec fn wf(&self) -> bool {
        &&& self.alive@.len() == self.nodes@.len()
        &&& forall|p: int|
            0 <= p < self.ports@.len() ==> (#[trigger] self.ports@[p]).wf(
                self.ports@.len(),
                self.nodes@.len(),
            )
        &&& forall|n: int|
            0 <= n < self.nodes@.len() ==> (#[trigger] self.nodes@[n]).wf(
                self.ports@.len(),
                self.nodes@.len(),
            )
        &&& forall|n: int| 0 <= n < self.nodes@.len() ==> (#[trigger] self.nodes@[n]).fills_below(n)
    }

    /// Whether a buffer that owns data lives at `node`.
    pub open spec fn is_leaf(&self, node: int) -> bool {
        0 <= node < self.nodes@.len() && self.nodes@[node].is_leaf()
    }

    /// The view that `port` publishes now.
    pub open spec fn view_of(&self, port: usize) -> Option<usize> {
        if port < self.ports@.len() {
            self.ports@[port as int].view
        } else {
            None
        }
    }

    /// The depth to which views are read: enough for any chain of views that
    /// does not run in a circle.
    pub open spec fn depth(&self) -> nat {
        self.nodes@.len()
    }

    // ---------------------------------------------------------------- vectors

    /// The items of the vector buffer at `node`.
    pub open spec fn vec_items(&self, node: usize) -> Option<Seq<T>> {
        if node < self.nodes@.len() {
            match self.nodes@[node as int] {
                Node::VecData(d) => Some(d.data@),
                _ => None,
            }
        } else {
            None
        }
    }

    /// The item at `idx` of the vector view `view`.
    pub open spec fn vec_get_at(&self, view: Option<usize>, idx: usize) -> Option<T> {
        match view {
            Some(n) => match self.vec_items(n) {
                Some(items) => if idx < items.len() {
                    Some(items[idx as int])
                } else {
                    None
                },
                None => None,
            },
            None => None,
        }
    }

    /// The ports of the nested views that the vector buffer at `node` holds.
    pub open spec fn view_items(&self, node: usize) -> Option<Seq<usize>> {
        if node < self.nodes@.len() {
            match self.nodes@[node as int] {
                Node::ViewData(d) => Some(d.data@),
                _ => None,
            }
        } else {
            None
        }
    }

    /// The length of the vector view `view`, be its items values or views;
    /// zero where there is none.
    pub open spec fn vec_len_at(&self, view: Option<usize>) -> usize {
        match view {
            Some(n) => match self.vec_items(n) {
                Some(items) => items.len() as usize,
                None => match self.view_items(n) {
                    Some(ports) => ports.len() as usize,
                    None => 0,
                },
            },
            None => 0,
        }
    }

    /// The port of the nested view at `idx` of the sequence view at `node`.
    /// Only the sequence that a vector of views is seen as has nested views.
    pub open spec fn seq_view_at(&self, node: usize, idx: usize) -> Option<usize> {
        if node < self.nodes@.len() {
            match self.nodes@[node as int] {
                Node::VecSequence(s) => match s.data {
                    Some(d) => match self.view_items(d) {
                        Some(ports) => if idx < ports.len() {
                            Some(ports[idx as int])
                        } else {
                            None
                        },
                        None => None,
                    },
                    None => None,
                },
                _ => None,
            }
        } else {
            None
        }
    }

    // ------------------------------------------------------------- singletons

    /// The value of the singleton view at `node`, read to depth `fuel`.
    pub open spec fn sgl_get_at(&self, node: usize, fuel: nat) -> Option<T>
        decreases fuel, 0nat,
    {
        if fuel == 0 || node >= self.nodes@.len() {
            None
        } else {
            match self.nodes@[node as int] {
                Node::SingletonBufferView(d) => Some(d.value),
                Node::MapSingleton(m) => match m.src_view {
                    Some(src) => match self.sgl_get_at(src, (fuel - 1) as nat) {
                        Some(x) => Some(apply_fn::<T, F>(m.f, x)),
                        None => None,
                    },
                    None => None,
                },
                Node::FlattenSingleton(f) => match f.inner {
                    Some(port) => match self.view_of(port) {
                        Some(view) => self.sgl_get_at(view, (fuel - 1) as nat),
                        None => None,
                    },
                    None => None,
                },
                _ => None,
            }
        }
    }

    /// The port of the nested view that the singleton view at `node` holds.
    /// Only a buffer of a view has a nested view.
    pub open spec fn sgl_view_at(&self, node: usize) -> Option<usize> {
        if node < self.nodes@.len() {
            match self.nodes@[node as int] {
                Node::SingletonView(d) => Some(d.value),
                _ => None,
            }
        } else {
            None
        }
    }

    // ------------------------------------------------------------------ lists

    /// The length of the list view at `node`, read to depth `fuel`.
    pub open spec fn list_len_at(&self, node: usize, fuel: nat) -> Option<usize>
        decreases fuel, 0nat,
    {
        if fuel == 0 || node >= self.nodes@.len() {
            None
        } else {
            match self.nodes@[node as int] {
                Node::Vec2List(l) => Some(l.cur_len),
                Node::MapListItem(m) => match m.src_view {
                    Some(src) => self.list_len_at(src, (fuel - 1) as nat),
                    None => None,
                },
                _ => None,
            }
        }
    }

    /// The item at `idx` of the list view at `node`, read to depth `fuel`.
    pub open spec fn list_get_at(&self, node: usize, idx: usize, fuel: nat) -> Option<T>
        decreases fuel, 0nat,
    {
        if fuel == 0 || node >= self.nodes@.len() {
            None
        } else {
            match self.nodes@[node as int] {
                Node::Vec2List(l) => self.vec_get_at(l.src_view, idx),
                Node::MapListItem(m) => match m.src_view {
                    Some(src) => match self.list_get_at(src, idx, (fuel - 1) as nat) {
                        Some(x) => Some(apply_fn::<T, F>(m.f, x)),
                        None => None,
                    },
                    None => None,
                },
                _ => None,
            }
        }
    }

    // -------------------------------------------------------------- sequences

    /// The length of the sequence view `view`, read to depth `fuel`: none
    /// where it is not known, as it is where there is no view.
    pub open spec fn opt_seq_len_at(&self, view: Option<usize>, fuel: nat) -> Option<usize>
        decreases fuel, 1nat,
    {
        match view {
            Some(n) => self.seq_len_at(n, fuel),
            None => None,
        }
    }

    /// The item at `idx` of the sequence view `view`, read to depth `fuel`.
    pub open spec fn opt_seq_get_at(&self, view: Option<usize>, idx: usize, fuel: nat) -> Option<T>
        decreases fuel, 1nat,
    {
        match view {
            Some(n) => self.seq_get_at(n, idx, fuel),
            None => None,
        }
    }

    /// The length of the sequence view at `node`, read to depth `fuel`.
    pub open spec fn seq_len_at(&self, node: usize, fuel: nat) -> Option<usize>
        decreases fuel, 0nat,
    {
        if fuel == 0 || node >= self.nodes@.len() {
            None
        } else {
            let rest = (fuel - 1) as nat;
            match self.nodes@[node as int] {
                Node::VecSequence(s) => Some(s.cur_len),
                Node::List2Seq(s) => Some(s.cur_len),
                Node::Singleton2Sequence(s) => Some(
                    if s.src_view.is_some() {
                        1usize
                    } else {
                        0usize
                    },
                ),
                Node::MapSequenceItem(m) => self.opt_seq_len_at(m.src_view, rest),
                Node::EnumerateSequence(e) => self.opt_seq_len_at(e.src_view, rest),
                Node::Filter(f) => self.filter_len_at(f.src_view, f.pred, rest),
                Node::Flatten(f) => Some(f.length),
                Node::Wrapped(w) => wrapped_len(self.opt_seq_len_at(self.view_of(w.items), rest)),
                Node::Separated(s) => separated_len(
                    self.opt_seq_len_at(self.view_of(s.items), rest),
                ),
                _ => None,
            }
        }
    }

    /// The length of the filter of the source `src` by `pred`: the length of
    /// the source less the items that fail in a scan of it.  It is not known
    /// where the length of the source is not.
    pub open spec fn filter_len_at(&self, src: Option<usize>, pred: P, fuel: nat) -> Option<usize>
        decreases fuel, usize::MAX + 3,
    {
        match self.opt_seq_len_at(src, fuel) {
            Some(len) => Some(sat_sub(len, self.filter_scan(src, pred, len, 0, 0, 0, fuel))),
            None => None,
        }
    }

    /// The item at `idx` of the sequence view at `node`, read to depth `fuel`.
    pub open spec fn seq_get_at(&self, node: usize, idx: usize, fuel: nat) -> Option<T>
        decreases fuel, 0nat,
    {
        if fuel == 0 || node >= self.nodes@.len() {
            None
        } else {
            let rest = (fuel - 1) as nat;
            match self.nodes@[node as int] {
                Node::VecSequence(s) => self.vec_get_at(s.data, idx),
                Node::List2Seq(s) => match s.src_view {
                    Some(src) => self.list_get_at(src, idx, rest),
                    None => None,
                },
                Node::Singleton2Sequence(s) => match s.src_view {
                    Some(src) => if idx == 0 {
                        self.sgl_get_at(src, rest)
                    } else {
                        None
                    },
                    None => None,
                },
                Node::MapSequenceItem(m) => match self.opt_seq_get_at(m.src_view, idx, rest) {
                    Some(x) => Some(apply_fn::<T, F>(m.f, x)),
                    None => None,
                },
                Node::Filter(f) => {
                    let offset = self.filter_scan(f.src_view, f.pred, idx, 0, 0, 0, rest);
                    if idx + offset <= usize::MAX {
                        self.opt_seq_get_at(f.src_view, (idx + offset) as usize, rest)
                    } else {
                        None
                    }
                },
                Node::Flatten(f) => match self.chunk_scan(f.chunks@, idx, 0, 0, rest) {
                    Some(k) => if idx >= f.chunks@[k].offset {
                        self.opt_seq_get_at(
                            self.view_of(f.chunks@[k].view),
                            (idx - f.chunks@[k].offset) as usize,
                            rest,
                        )
                    } else {
                        None
                    },
                    None => None,
                },
                Node::Wrapped(w) => match wrapped_place(
                    w.opening,
                    w.closing,
                    self.opt_seq_len_at(self.view_of(w.items), rest),
                    idx,
                ) {
                    Place::Fixed(x) => Some(x),
                    Place::Source(i) => self.opt_seq_get_at(self.view_of(w.items), i, rest),
                    Place::Outside => None,
                },
                Node::Separated(s) => match separated_place(
                    s.delimiter,
                    self.opt_seq_len_at(self.view_of(s.items), rest),
                    idx,
                ) {
                    Place::Fixed(x) => Some(x),
                    Place::Source(i) => self.opt_seq_get_at(self.view_of(s.items), i, rest),
                    Place::Outside => None,
                },
                _ => None,
            }
        }
    }

    /// The number of items that fail `pred` among those that a scan of the
    /// source passes.  The scan is at source index `i`, has seen `j` items
    /// pass and `offset` items fail; it ends where the source has no item, or
    /// when more than `idx` items have passed.
    pub open spec fn filter_scan(
        &self,
        src: Option<usize>,
        pred: P,
        idx: usize,
        i: usize,
        j: usize,
        offset: usize,
        fuel: nat,
    ) -> usize
        decreases fuel, usize::MAX - i + 2,
    {
        if j <= idx && i < usize::MAX && j < usize::MAX && offset < usize::MAX {
            match self.opt_seq_get_at(src, i, fuel) {
                Some(x) => if holds::<T, P>(pred, x) {
                    self.filter_scan(
                        src,
                        pred,
                        idx,
                        (i + 1) as usize,
                        (j + 1) as usize,
                        offset,
                        fuel,
                    )
                } else {
                    self.filter_scan(
                        src,
                        pred,
                        idx,
                        (i + 1) as usize,
                        j,
                        (offset + 1) as usize,
                        fuel,
                    )
                },
                None => offset,
            }
        } else {
            offset
        }
    }

    /// The position in `chunks` of the first chunk, from position `k` on, at
    /// whose end the running sum of the lengths exceeds `glob_idx`.  The
    /// lengths are those that the nested views report now; `acc` is the sum
    /// of the lengths before position `k`.
    pub open spec fn chunk_scan(
        &self,
        chunks: Seq<Chunk>,
        glob_idx: usize,
        k: nat,
        acc: usize,
        fuel: nat,
    ) -> Option<int>
        decreases fuel, chunks.len() - k + 2,
    {
        if k >= chunks.len() {
            None
        } else {
            let len = match self.opt_seq_len_at(self.view_of(chunks[k as int].view), fuel) {
                Some(len) => len,
                None => 0,
            };
            let end = sat_add(acc, len);
            if glob_idx < end {
                Some(k as int)
            } else {
                self.chunk_scan(chunks, glob_idx, k + 1, end, fuel)
            }
        }
    }
}


impl<T: Copy, F: Fn(&T) -> T, P: Fn(&T) -> bool> Graph<T, F, P> {
    /// Applies `f` to `x`.
    pub fn call_fn(f: &F, x: T) -> (y: T)
        requires
            total_fn::<T, F>(*f),
        ensures
            y == apply_fn::<T, F>(*f, x),
    {
        f(&x)
    }

    /// Tests `x` with `p`.
    pub fn call_pred(p: &P, x: T) -> (r: bool)
        requires
            total_pred::<T, P>(*p),
        ensures
            r == holds::<T, P>(*p, x),
    {
        p(&x)
    }

    /// The item at `idx` of the vector view `view`.
    pub fn vec_get(&self, view: Option<usize>, idx: usize) -> (r: Option<T>)
        ensures
            r == self.vec_get_at(view, idx),
    {
        match view {
            Some(n) => {
                if n < self.nodes.len() {
                    match &self.nodes[n] {
                        Node::VecData(d) => if idx < d.data.len() {
                            Some(d.data[idx])
                        } else {
                            None
                        },
                        _ => None,
                    }
                } else {
                    None
                }
            },
            None => None,
        }
    }

    /// The length of the vector view `view`; zero where there is none.
    pub fn vec_len(&self, view: Option<usize>) -> (r: usize)
        ensures
            r == self.vec_len_at(view),
    {
        match view {
            Some(n) => {
                if n < self.nodes.len() {
                    match &self.nodes[n] {
                        Node::VecData(d) => d.data.len(),
                        Node::ViewData(d) => d.data.len(),
                        _ => 0,
                    }
                } else {
                    0
                }
            },
            None => 0,
        }
    }

    /// The port of the nested view at `idx` of the sequence view at `node`.
    pub fn seq_view(&self, node: usize, idx: usize) -> (r: Option<usize>)
        requires
            self.wf(),
        ensures
            r == self.seq_view_at(node, idx),
            match r {
                Some(port) => port < self.ports@.len(),
                None => true,
            },
    {
        if node >= self.nodes.len() {
            return None;
        }
        match &self.nodes[node] {
            Node::VecSequence(s) => match s.data {
                Some(d) => {
                    if d < self.nodes.len() {
                        match &self.nodes[d] {
                            Node::ViewData(v) => if idx < v.data.len() {
                                Some(v.data[idx])
                            } else {
                                None
                            },
                            _ => None,
                        }
                    } else {
                        None
                    }
                },
                None => None,
            },
            _ => None,
        }
    }

    /// The value of the singleton view at `node`, read to depth `fuel`.
    pub fn sgl_get(&self, node: usize, fuel: usize) -> (r: Option<T>)
        requires
            self.wf(),
        ensures
            r == self.sgl_get_at(node, fuel as nat),
        decreases fuel,
    {
        if fuel == 0 || node >= self.nodes.len() {
            return None;
        }
        match &self.nodes[node] {
            Node::SingletonBufferView(d) => Some(d.value),
            Node::MapSingleton(m) => match m.src_view {
                Some(src) => match self.sgl_get(src, fuel - 1) {
                    Some(x) => Some(Self::call_fn(&m.f, x)),
                    None => None,
                },
                None => None,
            },
            Node::FlattenSingleton(f) => match f.inner {
                Some(port) => match self.port_view(port) {
                    Some(view) => self.sgl_get(view, fuel - 1),
                    None => None,
                },
                None => None,
            },
            _ => None,
        }
    }

    /// The port of the nested view that the singleton view at `node` holds.
    pub fn sgl_view(&self, node: usize) -> (r: Option<usize>)
        requires
            self.wf(),
        ensures
            r == self.sgl_view_at(node),
            match r {
                Some(port) => port < self.ports@.len(),
                None => true,
            },
    {
        if node >= self.nodes.len() {
            return None;
        }
        match &self.nodes[node] {
            Node::SingletonView(d) => Some(d.value),
            _ => None,
        }
    }

    /// The length of the list view at `node`, read to depth `fuel`.
    pub fn list_len(&self, node: usize, fuel: usize) -> (r: Option<usize>)
        requires
            self.wf(),
        ensures
            r == self.list_len_at(node, fuel as nat),
        decreases fuel,
    {
        if fuel == 0 || node >= self.nodes.len() {
            return None;
        }
        match &self.nodes[node] {
            Node::Vec2List(l) => Some(l.cur_len),
            Node::MapListItem(m) => match m.src_view {
                Some(src) => self.list_len(src, fuel - 1),
                None => None,
            },
            _ => None,
        }
    }

    /// The item at `idx` of the list view at `node`, read to depth `fuel`.
    pub fn list_get(&self, node: usize, idx: usize, fuel: usize) -> (r: Option<T>)
        requires
            self.wf(),
        ensures
            r == self.list_get_at(node, idx, fuel as nat),
        decreases fuel,
    {
        if fuel == 0 || node >= self.nodes.len() {
            return None;
        }
        match &self.nodes[node] {
            Node::Vec2List(l) => self.vec_get(l.src_view, idx),
            Node::MapListItem(m) => match m.src_view {
                Some(src) => match self.list_get(src, idx, fuel - 1) {
                    Some(x) => Some(Self::call_fn(&m.f, x)),
                    None => None,
                },
                None => None,
            },
            _ => None,
        }
    }

    /// The length of the sequence view `view`, read to depth `fuel`.
    pub fn opt_seq_len(&self, view: Option<usize>, fuel: usize) -> (r: Option<usize>)
        requires
            self.wf(),
        ensures
            r == self.opt_seq_len_at(view, fuel as nat),
        decreases fuel, 1nat,
    {
        match view {
            Some(n) => self.seq_len(n, fuel),
            None => None,
        }
    }

    /// The item at `idx` of the sequence view `view`, read to depth `fuel`.
    pub fn opt_seq_get(&self, view: Option<usize>, idx: usize, fuel: usize) -> (r: Option<T>)
        requires
            self.wf(),
        ensures
            r == self.opt_seq_get_at(view, idx, fuel as nat),
        decreases fuel, 1nat,
    {
        match view {
            Some(n) => self.seq_get(n, idx, fuel),
            None => None,
        }
    }

    /// The view that `port` publishes now.
    pub fn port_view(&self, port: usize) -> (r: Option<usize>)
        ensures
            r == self.view_of(port),
    {
        if port < self.ports.len() {
            self.ports[port].view
        } else {
            None
        }
    }

    /// The length of the sequence view at `node`, read to depth `fuel`.
    pub fn seq_len(&self, node: usize, fuel: usize) -> (r: Option<usize>)
        requires
            self.wf(),
        ensures
            r == self.seq_len_at(node, fuel as nat),
        decreases fuel, 0nat,
    {
        if fuel == 0 || node >= self.nodes.len() {
            return None;
        }
        match &self.nodes[node] {
            Node::VecSequence(s) => Some(s.cur_len),
            Node::List2Seq(s) => Some(s.cur_len),
            Node::Singleton2Sequence(s) => Some(
                if s.src_view.is_some() {
                    1
                } else {
                    0
                },
            ),
            Node::MapSequenceItem(m) => self.opt_seq_len(m.src_view, fuel - 1),
            Node::EnumerateSequence(e) => self.opt_seq_len(e.src_view, fuel - 1),
            Node::Filter(f) => self.filter_len(f.src_view, &f.pred, fuel - 1),
            Node::Flatten(f) => Some(f.length),
            Node::Wrapped(w) => w.len(self.opt_seq_len(self.port_view(w.items), fuel - 1)),
            Node::Separated(s) => s.len(self.opt_seq_len(self.port_view(s.items), fuel - 1)),
            _ => None,
        }
    }

    /// The length of the filter of the source `src` by `pred`.
    pub fn filter_len(&self, src: Option<usize>, pred: &P, fuel: usize) -> (r: Option<usize>)
        requires
            self.wf(),
            total_pred::<T, P>(*pred),
        ensures
            r == self.filter_len_at(src, *pred, fuel as nat),
        decreases fuel, 3nat,
    {
        match self.opt_seq_len(src, fuel) {
            Some(len) => {
                let offset = Filter::get_offset(self, src, pred, len, fuel);
                Some(sub_saturating(len, offset))
            },
            None => None,
        }
    }

    /// The item at `idx` of the sequence view at `node`, read to depth `fuel`.
    pub fn seq_get(&self, node: usize, idx: usize, fuel: usize) -> (r: Option<T>)
        requires
            self.wf(),
        ensures
            r == self.seq_get_at(node, idx, fuel as nat),
        decreases fuel, 0nat,
    {
        if fuel == 0 || node >= self.nodes.len() {
            return None;
        }
        match &self.nodes[node] {
            Node::VecSequence(s) => self.vec_get(s.data, idx),
            Node::List2Seq(s) => match s.src_view {
                Some(src) => self.list_get(src, idx, fuel - 1),
                None => None,
            },
            Node::Singleton2Sequence(s) => match s.src_view {
                Some(src) => if idx == 0 {
                    self.sgl_get(src, fuel - 1)
                } else {
                    None
                },
                None => None,
            },
            Node::MapSequenceItem(m) => match self.opt_seq_get(m.src_view, idx, fuel - 1) {
                Some(x) => Some(Self::call_fn(&m.f, x)),
                None => None,
            },
            Node::Filter(f) => {
                let offset = Filter::get_offset(self, f.src_view, &f.pred, idx, fuel - 1);
                if idx <= usize::MAX - offset {
                    self.opt_seq_get(f.src_view, idx + offset, fuel - 1)
                } else {
                    None
                }
            },
            Node::Flatten(f) => match Flatten::get_chunk_idx(self, &f.chunks, idx, fuel - 1) {
                Some(k) => {
                    let chunk = f.chunks[k];
                    if idx >= chunk.offset {
                        self.opt_seq_get(self.port_view(chunk.view), idx - chunk.offset, fuel - 1)
                    } else {
                        None
                    }
                },
                None => None,
            },
            Node::Wrapped(w) => {
                let len = self.opt_seq_len(self.port_view(w.items), fuel - 1);
                match w.get(len, idx) {
                    Place::Fixed(x) => Some(x),
                    Place::Source(i) => self.opt_seq_get(self.port_view(w.items), i, fuel - 1),
                    Place::Outside => None,
                }
            },
            Node::Separated(s) => {
                let len = self.opt_seq_len(self.port_view(s.items), fuel - 1);
                match s.get(len, idx) {
                    Place::Fixed(x) => Some(x),
                    Place::Source(i) => self.opt_seq_get(self.port_view(s.items), i, fuel - 1),
                    Place::Outside => None,
                }
            },
            _ => None,
        }
    }


}


/// `post` is `pre` but for `msgs`, which are queued behind what was pending.
pub open spec fn queued<T: Copy>(pre: PortState<T>, post: PortState<T>, msgs: Seq<Msg<T>>) -> bool {
    &&& post.view == pre.view
    &&& post.update_hooks == pre.update_hooks
    &&& post.cast.observers == pre.cast.observers
    &&& post.cast.tx == pre.cast.tx
    &&& post.cast.rx.num_senders == pre.cast.rx.num_senders
    &&& post.cast.pending() == pre.cast.pending() + msgs
}

/// A node stays well-formed when ports and nodes are added.
pub proof fn lemma_node_wf_grows<T, F: Fn(&T) -> T, P: Fn(&T) -> bool>(
    node: Node<T, F, P>,
    n_ports: nat,
    n_nodes: nat,
    more_ports: nat,
    more_nodes: nat,
)
    requires
        node.wf(n_ports, n_nodes),
        n_ports <= more_ports,
        n_nodes <= more_nodes,
    ensures
        node.wf(more_ports, more_nodes),
{
}

/// A port stays well-formed when ports and nodes are added.
pub proof fn lemma_port_wf_grows<T>(
    port: PortState<T>,
    n_ports: nat,
    n_nodes: nat,
    more_ports: nat,
    more_nodes: nat,
)
    requires
        port.wf(n_ports, n_nodes),
        n_ports <= more_ports,
        n_nodes <= more_nodes,
    ensures
        port.wf(more_ports, more_nodes),
{
}

impl<T: Copy, F: Fn(&T) -> T, P: Fn(&T) -> bool> Graph<T, F, P> {
    /// The ports of `self` are those of `pre` but for `msgs`, which are
    /// queued on `port`.  If `port` does not exist, no port differs.
    pub open spec fn ports_queued(&self, pre: &Self, port: usize, msgs: Seq<Msg<T>>) -> bool {
        &&& self.ports@.len() == pre.ports@.len()
        &&& forall|q: int|
            0 <= q < self.ports@.len() && q != port ==> self.ports@[q] == pre.ports@[q]
        &&& port < self.ports@.len() ==> queued(
            pre.ports@[port as int],
            self.ports@[port as int],
            msgs,
        )
    }

    /// `self` is `pre` but for `msgs`, which are queued on `port`.
    pub open spec fn emitted(&self, pre: &Self, port: usize, msgs: Seq<Msg<T>>) -> bool {
        &&& self.nodes@ == pre.nodes@
        &&& self.alive@ == pre.alive@
        &&& self.ports_queued(pre, port, msgs)
    }

    /// The items of the vector view `view`; none where there is no vector.
    pub open spec fn vec_seq_at(&self, view: Option<usize>) -> Seq<T> {
        match view {
            Some(n) => match self.vec_items(n) {
                Some(items) => items,
                None => Seq::empty(),
            },
            None => Seq::empty(),
        }
    }

    /// The items of the list view at `node` from the index `i` up to the
    /// first index that has none.
    pub open spec fn list_prefix(&self, node: usize, i: usize, fuel: nat) -> Seq<T>
        decreases usize::MAX - i,
    {
        if i < usize::MAX {
            match self.list_get_at(node, i, fuel) {
                Some(x) => seq![x] + self.list_prefix(node, (i + 1) as usize, fuel),
                None => Seq::empty(),
            }
        } else {
            Seq::empty()
        }
    }

    /// A copy of the items of the vector view `view`.
    pub fn vec_copy(&self, view: Option<usize>) -> (items: Vec<T>)
        ensures
            items@ == self.vec_seq_at(view),
    {
        let mut items: Vec<T> = Vec::new();
        match view {
            Some(n) => {
                if n < self.nodes.len() {
                    match &self.nodes[n] {
                        Node::VecData(d) => {
                            let mut i: usize = 0;
                            while i < d.data.len()
                                invariant
                                    i <= d.data@.len(),
                                    items@ == d.data@.subrange(0, i as int),
                                decreases d.data@.len() - i,
                            {
                                items.push(d.data[i]);
                                proof {
                                    assert(d.data@.subrange(0, i as int).push(d.data@[i as int])
                                        =~= d.data@.subrange(0, i as int + 1));
                                }
                                i += 1;
                            }
                            proof {
                                assert(d.data@.subrange(0, i as int) =~= d.data@);
                            }
                        },
                        _ => {},
                    }
                }
            },
            None => {},
        }
        items
    }

    /// The items of the list view at `node`, up to the first index that has
    /// none.
    pub fn list_items(&self, node: usize, fuel: usize) -> (items: Vec<T>)
        requires
            self.wf(),
        ensures
            items@ == self.list_prefix(node, 0, fuel as nat),
    {
        let mut items: Vec<T> = Vec::new();
        let mut i: usize = 0;
        proof {
            assert(items@ + self.list_prefix(node, 0, fuel as nat) =~= self.list_prefix(
                node,
                0,
                fuel as nat,
            ));
        }
        while i < usize::MAX
            invariant
                self.wf(),
                items@ + self.list_prefix(node, i, fuel as nat) == self.list_prefix(
                    node,
                    0,
                    fuel as nat,
                ),
            decreases usize::MAX - i,
        {
            match self.list_get(node, i, fuel) {
                Some(x) => {
                    proof {
                        assert(items@.push(x) + self.list_prefix(node, (i + 1) as usize, fuel as nat)
                            =~= items@ + self.list_prefix(node, i, fuel as nat));
                    }
                    items.push(x);
                    i += 1;
                },
                None => {
                    proof {
                        assert(items@ + Seq::<T>::empty() =~= items@);
                    }
                    return items;
                },
            }
        }
        proof {
            assert(items@ + Seq::<T>::empty() =~= items@);
        }
        items
    }

    /// `self` holds what `pre` holds.
    pub open spec fn same(&self, pre: &Self) -> bool {
        &&& self.nodes@ == pre.nodes@
        &&& self.ports@ == pre.ports@
        &&& self.alive@ == pre.alive@
    }

    /// `self` is `pre` with one more port, which publishes no view and has
    /// no subscriber, no hook and nothing pending.
    pub open spec fn port_added(&self, pre: &Self) -> bool {
        let id = pre.ports@.len() as int;
        &&& self.ports@.len() == id + 1
        &&& forall|q: int| 0 <= q < id ==> self.ports@[q] == pre.ports@[q]
        &&& self.ports@[id].view.is_none()
        &&& self.ports@[id].update_hooks@ == Seq::<Hook>::empty()
        &&& self.ports@[id].cast.observers@ == Seq::<usize>::empty()
        &&& self.ports@[id].cast.pending() == Seq::<Msg<T>>::empty()
        &&& self.nodes@ == pre.nodes@
        &&& self.alive@ == pre.alive@
    }

    /// A graph without ports and nodes.
    pub fn new() -> (g: Self)
        ensures
            g.wf(),
            g.ports@.len() == 0,
            g.nodes@.len() == 0,
    {
        Graph { ports: Vec::new(), nodes: Vec::new(), alive: Vec::new() }
    }

    /// Adds a port that publishes no view, has no subscriber and no hook.
    pub fn add_port(&mut self) -> (id: usize)
        requires
            old(self).wf(),
        ensures
            final(self).wf(),
            id == old(self).ports@.len(),
            final(self).port_added(old(self)),
    {
        let id = self.ports.len();
        let port = PortState { view: None, cast: ObserverBroadcast::new(), update_hooks: Vec::new() };
        self.ports.push(port);
        proof {
            assert forall|p: int| 0 <= p < self.ports@.len() implies (#[trigger] self.ports@[p]).wf(
                self.ports@.len(),
                self.nodes@.len(),
            ) by {
                if p < id {
                    lemma_port_wf_grows(
                        old(self).ports@[p],
                        old(self).ports@.len(),
                        old(self).nodes@.len(),
                        self.ports@.len(),
                        self.nodes@.len(),
                    );
                }
            }
            assert forall|n: int| 0 <= n < self.nodes@.len() implies (#[trigger] self.nodes@[n]).wf(
                self.ports@.len(),
                self.nodes@.len(),
            ) by {
                lemma_node_wf_grows(
                    old(self).nodes@[n],
                    old(self).ports@.len(),
                    old(self).nodes@.len(),
                    self.ports@.len(),
                    self.nodes@.len(),
                );
            }
        }
        id
    }

    /// Adds `node`, alive.
    pub fn add_node(&mut self, node: Node<T, F, P>) -> (id: usize)
        requires
            old(self).wf(),
            node.wf(old(self).ports@.len(), old(self).nodes@.len() + 1),
            node.fills_below(old(self).nodes@.len() as int),
        ensures
            final(self).wf(),
            id == old(self).nodes@.len(),
            final(self).nodes@ == old(self).nodes@.push(node),
            final(self).alive@ == old(self).alive@.push(true),
            final(self).ports@ == old(self).ports@,
    {
        let id = self.nodes.len();
        self.nodes.push(node);
        self.alive.push(true);
        proof {
            assert forall|p: int| 0 <= p < self.ports@.len() implies (#[trigger] self.ports@[p]).wf(
                self.ports@.len(),
                self.nodes@.len(),
            ) by {
                lemma_port_wf_grows(
                    old(self).ports@[p],
                    old(self).ports@.len(),
                    old(self).nodes@.len(),
                    self.ports@.len(),
                    self.nodes@.len(),
                );
            }
            assert forall|n: int| 0 <= n < self.nodes@.len() implies (#[trigger] self.nodes@[n]).wf(
                self.ports@.len(),
                self.nodes@.len(),
            ) by {
                if n < id {
                    lemma_node_wf_grows(
                        old(self).nodes@[n],
                        old(self).ports@.len(),
                        old(self).nodes@.len(),
                        self.ports@.len(),
                        self.nodes@.len(),
                    );
                }
            }
        }
        id
    }

    /// Queues `msgs` on `port`, in their order.
    pub fn emit(&mut self, port: usize, msgs: Vec<Msg<T>>)
        requires
            old(self).wf(),
        ensures
            final(self).wf(),
            final(self).emitted(old(self), port, msgs@),
            forall|q: int|
                0 <= q < final(self).ports@.len() ==> (#[trigger] final(self).ports@[q]).view == old(
                    self,
                ).ports@[q].view,
    {
        if port >= self.ports.len() {
            return ;
        }
        let mut i: usize = 0;
        proof {
            assert(self.ports@[port as int].cast.pending() + msgs@.subrange(0, 0)
                =~= self.ports@[port as int].cast.pending());
        }
        while i < msgs.len()
            invariant
                i <= msgs@.len(),
                port < self.ports@.len(),
                self.wf(),
                self.emitted(old(self), port, msgs@.subrange(0, i as int)),
            decreases msgs@.len() - i,
        {
            let ghost before = *self;
            self.ports[port].cast.notify(msgs[i]);
            proof {
                assert(msgs@.subrange(0, i as int).push(msgs@[i as int]) =~= msgs@.subrange(
                    0,
                    i as int + 1,
                ));
                assert((old(self).ports@[port as int].cast.pending() + msgs@.subrange(
                    0,
                    i as int,
                )).push(msgs@[i as int]) =~= old(self).ports@[port as int].cast.pending()
                    + msgs@.subrange(0, i as int + 1));
                assert forall|p: int| 0 <= p < self.ports@.len() implies (
                #[trigger] self.ports@[p]).wf(self.ports@.len(), self.nodes@.len()) by {
                    if p != port {
                        assert(self.ports@[p] == before.ports@[p]);
                    }
                }
            }
            i += 1;
        }
        proof {
            assert(msgs@.subrange(0, i as int) =~= msgs@);
        }
    }
}

} // verus!
