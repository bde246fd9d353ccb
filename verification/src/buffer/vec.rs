//! A growable vector that announces each mutation as a diff.
use vstd::prelude::*;
use crate::graph::{Graph, Node};
use crate::projection::vec2seq::one_msg;
use crate::view::{Msg, Shape, ViewRef, ViewShape};
use crate::view::list::List;
use crate::view::observer::ObserverRef;
use crate::view::port::{Hook, InnerViewPort, OuterViewPort, ViewPort};
use crate::view::sequence::Sequence;

verus! {

/// What the graph keeps of a vector buffer: the items, and the port on which
/// each mutation is announced.
pub struct VecData<T> {
    pub data: Vec<T>,
    pub port: usize,
}

/// What the graph keeps of a vector buffer whose items are views: the ports
/// of the nested views, and the port on which each mutation is announced.
pub struct ViewData {
    pub data: Vec<usize>,
    pub port: usize,
}

/// A vector buffer: the handle of its owner.
#[derive(Clone, Copy)]
pub struct VecBuffer {
    pub data: usize,
    pub port: InnerViewPort<Vector>,
}

/// An observer that replays the diffs of a list into a vector buffer.
pub struct VecBufferTarget {
    pub buffer: VecBuffer,
    pub src_view: Option<usize>,
}

/// One mutation of a vector.
#[derive(Clone, Copy)]
pub enum VecDiff<T> {
    Clear,
    Push(T),
    Remove(usize),
    Insert { idx: usize, val: T },
    Update { idx: usize, val: T },
}

/// The shape of vector views.
#[derive(Clone, Copy)]
pub struct Vector;

/// Whether `diff` names a position that a vector of `len` items has.
pub open spec fn vec_diff_fits<T>(len: nat, diff: VecDiff<T>) -> bool {
    match diff {
        VecDiff::Clear => true,
        VecDiff::Push(_) => true,
        VecDiff::Remove(idx) => idx < len,
        VecDiff::Insert { idx, .. } => idx <= len,
        VecDiff::Update { idx, .. } => idx < len,
    }
}

/// The contents of a vector after `diff`.  A diff that does not fit leaves the
/// vector as it is.
pub open spec fn apply_vec_diff<T>(items: Seq<T>, diff: VecDiff<T>) -> Seq<T> {
    if !vec_diff_fits(items.len(), diff) {
        items
    } else {
        match diff {
            VecDiff::Clear => Seq::empty(),
            VecDiff::Push(val) => items.push(val),
            VecDiff::Remove(idx) => items.remove(idx as int),
            VecDiff::Insert { idx, val } => items.insert(idx as int, val),
            VecDiff::Update { idx, val } => items.update(idx as int, val),
        }
    }
}

/// The contents after a run of diffs, applied in order.
pub open spec fn apply_vec_diffs<T>(items: Seq<T>, diffs: Seq<VecDiff<T>>) -> Seq<T>
    decreases diffs.len(),
{
    if diffs.len() == 0 {
        items
    } else {
        apply_vec_diff(apply_vec_diffs(items, diffs.drop_last()), diffs.last())
    }
}

/// Whether each of `diffs` fits the vector that the diffs before it make of
/// `items`, and none of these vectors is full.
pub open spec fn all_fit<T>(items: Seq<T>, diffs: Seq<VecDiff<T>>) -> bool
    decreases diffs.len(),
{
    if diffs.len() == 0 {
        true
    } else {
        &&& all_fit(items, diffs.drop_last())
        &&& apply_vec_diffs(items, diffs.drop_last()).len() < usize::MAX
        &&& vec_diff_fits(apply_vec_diffs(items, diffs.drop_last()).len(), diffs.last())
    }
}

/// Applies `diff` to `data` in place; says whether it fitted.
pub fn apply_diff_to<T: Copy>(data: &mut Vec<T>, diff: &VecDiff<T>) -> (fits: bool)
    ensures
        fits == vec_diff_fits(old(data)@.len(), *diff),
        final(data)@ == apply_vec_diff(old(data)@, *diff),
{
    match *diff {
        VecDiff::Clear => {
            data.clear();
            true
        },
        VecDiff::Push(val) => {
            data.push(val);
            true
        },
        VecDiff::Remove(idx) => {
            if idx < data.len() {
                data.remove(idx);
                true
            } else {
                false
            }
        },
        VecDiff::Insert { idx, val } => {
            if idx <= data.len() {
                data.insert(idx, val);
                true
            } else {
                false
            }
        },
        VecDiff::Update { idx, val } => {
            if idx < data.len() {
                data[idx] = val;
                true
            } else {
                false
            }
        },
    }
}


impl<T> ViewShape<T> for Vector {
    type Msg = VecDiff<T>;

    open spec fn message(msg: VecDiff<T>) -> Msg<T> {
        Msg::Vec(msg)
    }

    open spec fn shape() -> Shape {
        Shape::Vector
    }

    fn wrap(msg: VecDiff<T>) -> (m: Msg<T>) {
        Msg::Vec(msg)
    }

    fn marker() -> (r: (Self, Shape)) {
        (Vector, Shape::Vector)
    }
}

/// One push message for each of `items`, in their order.
pub open spec fn push_msgs<T>(items: Seq<T>) -> Seq<Msg<T>> {
    Seq::new(items.len(), |k: int| Msg::Vec(VecDiff::Push(items[k])))
}

impl<T: Copy, F: Fn(&T) -> T, P: Fn(&T) -> bool> Graph<T, F, P> {
    /// What it means that the nested view on `view` was pushed to the vector
    /// of views at `buf` of `pre` and `self` is the outcome.
    pub open spec fn view_pushed(&self, pre: &Self, buf: usize, view: usize) -> bool {
        if buf < pre.nodes@.len() {
            match pre.nodes@[buf as int] {
                Node::ViewData(d) => {
                    &&& self.stepped(pre, buf, d.port, seq![Msg::Views(VecDiff::Push(view))])
                    &&& match self.nodes@[buf as int] {
                        Node::ViewData(e) => e.port == d.port && e.data@ == d.data@.push(view),
                        _ => false,
                    }
                },
                _ => self.same(pre),
            }
        } else {
            self.same(pre)
        }
    }

    /// What it means that the nested view at `idx` was removed from the
    /// vector of views at `buf` of `pre` and `self` is the outcome.
    pub open spec fn view_removed(&self, pre: &Self, buf: usize, idx: usize) -> bool {
        match pre.view_items(buf) {
            Some(ports) => if idx < ports.len() {
                &&& self.stepped(
                    pre,
                    buf,
                    pre.port_of_views(buf),
                    seq![Msg::Views(VecDiff::Remove(idx))],
                )
                &&& self.view_items(buf) == Some(ports.remove(idx as int))
                &&& self.port_of_views(buf) == pre.port_of_views(buf)
            } else {
                self.same(pre)
            },
            None => self.same(pre),
        }
    }

    /// The port on which the vector of views at `node` announces its diffs.
    pub open spec fn port_of_views(&self, node: usize) -> usize {
        if node < self.nodes@.len() {
            match self.nodes@[node as int] {
                Node::ViewData(d) => d.port,
                _ => self.ports@.len() as usize,
            }
        } else {
            self.ports@.len() as usize
        }
    }
}

impl VecBuffer {
    /// The items of the buffer, as the graph `g` has them.
    pub open spec fn items<T: Copy, F: Fn(&T) -> T, P: Fn(&T) -> bool>(
        &self,
        g: &Graph<T, F, P>,
    ) -> Seq<T> {
        g.vec_seq_at(Some(self.data))
    }

    /// Whether this is a buffer of items of `g`, with its port.
    pub open spec fn valid<T: Copy, F: Fn(&T) -> T, P: Fn(&T) -> bool>(
        &self,
        g: &Graph<T, F, P>,
    ) -> bool {
        &&& g.vec_items(self.data).is_some()
        &&& g.port_of_vec(self.data) == self.port.0.id
        &&& self.port.0.id < g.ports@.len()
    }

    /// A buffer that holds `data` and announces on `port`: the buffer is
    /// published on the port, then one push is announced for each item.
    pub fn with_data_port<T: Copy, F: Fn(&T) -> T, P: Fn(&T) -> bool>(
        g: &mut Graph<T, F, P>,
        data: Vec<T>,
        port: InnerViewPort<Vector>,
    ) -> (buf: Self)
        requires
            old(g).wf(),
            port.0.valid(old(g)),
        ensures
            final(g).wf(),
            final(g).sized(old(g)),
            buf.valid(final(g)),
            buf.port == port,
            buf.data + 1 == final(g).nodes@.len(),
            buf.data >= old(g).nodes@.len(),
            buf.items(final(g)) == data@,
            final(g).view_of(port.0.id) == Some(buf.data),
            exists|mid: Graph<T, F, P>|
                #[trigger] mid.adopted(
                    old(g),
                    port.0.id,
                    Node::VecData(VecData { data, port: port.0.id }),
                ) && final(g).emitted(&mid, port.0.id, push_msgs(data@)),
    {
        let mut out: Vec<Msg<T>> = Vec::new();
        let mut i: usize = 0;
        while i < data.len()
            invariant
                i <= data@.len(),
                out@.len() == i,
                forall|k: int| 0 <= k < i ==> out@[k] == push_msgs(data@)[k],
            decreases data@.len() - i,
        {
            out.push(Msg::Vec(VecDiff::Push(data[i])));
            i += 1;
        }
        proof {
            assert(out@ =~= push_msgs(data@));
        }
        let ghost items = data@;
        let node = g.adopt(port.0.id, Node::VecData(VecData { data, port: port.0.id }));
        let ghost mid = *g;
        g.emit(port.0.id, out);
        proof {
            assert(mid.adopted(old(g), port.0.id, Node::VecData(VecData { data, port: port.0.id })));
        }
        VecBuffer { data: node, port }
    }

    /// Lets this buffer follow the list on `port`: the port is pulled
    /// whenever the port of this buffer is, and a new observer replays the
    /// list into this buffer.  The observer is handed out; the buffer follows
    /// as long as it is alive.
    pub fn attach_to<T: Copy, F: Fn(&T) -> T, P: Fn(&T) -> bool>(
        &self,
        g: &mut Graph<T, F, P>,
        port: OuterViewPort<List>,
    ) -> (target: ObserverRef)
        requires
            old(g).wf(),
            self.valid(old(g)),
            port.0.valid(old(g)),
            old(g).ports@.len() < usize::MAX,
        ensures
            final(g).wf(),
            final(g).extends(old(g)),
            target.node == old(g).nodes@.len(),
            exists|m1: Graph<T, F, P>, m2: Graph<T, F, P>|
                #[trigger] m2.sized(&m1) && m1.hooked(old(g), self.port.0.id, Hook::Port(port.0.id))
                    && m2.ports@ == m1.ports@ && m2.nodes@ == m1.nodes@.push(
                    Node::VecBufferTarget(VecBufferTarget { buffer: *self, src_view: None }),
                ) && m2.alive@ == m1.alive@.push(true) && final(g).observed(
                    &m2,
                    port.0.id,
                    target.node,
                    old(g).reach() + 1,
                ),
    {
        self.port.0.add_update_hook(g, Hook::Port(port.0.id));
        let ghost m1 = *g;
        let node = g.add_node(
            Node::VecBufferTarget(VecBufferTarget { buffer: *self, src_view: None }),
        );
        let ghost m2 = *g;
        let target = ObserverRef { node };
        port.add_observer(g, target);
        proof {
            assert(m2.sized(&m1));
        }
        target
    }

    /// A buffer that holds `data`, on a new port.
    pub fn with_data<T: Copy, F: Fn(&T) -> T, P: Fn(&T) -> bool>(
        g: &mut Graph<T, F, P>,
        data: Vec<T>,
    ) -> (buf: Self)
        requires
            old(g).wf(),
        ensures
            final(g).wf(),
            buf.valid(final(g)),
            buf.port.0.id == old(g).ports@.len(),
            buf.data + 1 == final(g).nodes@.len(),
            buf.data >= old(g).nodes@.len(),
            buf.items(final(g)) == data@,
            final(g).view_of(buf.port.0.id) == Some(buf.data),
            final(g).ports@.len() == old(g).ports@.len() + 1,
            final(g).nodes@.len() >= old(g).nodes@.len() + 1,
            exists|m1: Graph<T, F, P>, m2: Graph<T, F, P>|
                #[trigger] m2.adopted(
                    &m1,
                    buf.port.0.id,
                    Node::VecData(VecData { data, port: buf.port.0.id }),
                ) && m1.port_added(old(g)) && final(g).emitted(
                    &m2,
                    buf.port.0.id,
                    push_msgs(data@),
                ),
    {
        let port = ViewPort::<Vector>::new(g).into_inner();
        let ghost m1 = *g;
        let buf = VecBuffer::with_data_port(g, data, port);
        proof {
            assert(m1.port_added(old(g)));
        }
        buf
    }

    /// An empty buffer that announces on `port`.
    pub fn with_port<T: Copy, F: Fn(&T) -> T, P: Fn(&T) -> bool>(
        g: &mut Graph<T, F, P>,
        port: InnerViewPort<Vector>,
    ) -> (buf: Self)
        requires
            old(g).wf(),
            port.0.valid(old(g)),
        ensures
            final(g).wf(),
            final(g).sized(old(g)),
            buf.valid(final(g)),
            buf.port == port,
            buf.data + 1 == final(g).nodes@.len(),
            buf.data >= old(g).nodes@.len(),
            buf.items(final(g)) == Seq::<T>::empty(),
            final(g).view_of(port.0.id) == Some(buf.data),
            exists|mid: Graph<T, F, P>, d: VecData<T>|
                #[trigger] mid.adopted(old(g), port.0.id, Node::VecData(d)) && d.data@ == Seq::<
                    T,
                >::empty() && d.port == port.0.id && final(g).emitted(
                    &mid,
                    port.0.id,
                    Seq::empty(),
                ),
    {
        let buf = VecBuffer::with_data_port(g, Vec::new(), port);
        proof {
            assert(push_msgs(Seq::<T>::empty()) =~= Seq::<Msg<T>>::empty());
        }
        buf
    }

    /// An empty buffer on a new port.
    pub fn new<T: Copy, F: Fn(&T) -> T, P: Fn(&T) -> bool>(g: &mut Graph<T, F, P>) -> (buf: Self)
        requires
            old(g).wf(),
        ensures
            final(g).wf(),
            buf.valid(final(g)),
            buf.port.0.id == old(g).ports@.len(),
            buf.data + 1 == final(g).nodes@.len(),
            buf.data >= old(g).nodes@.len(),
            buf.items(final(g)) == Seq::<T>::empty(),
            final(g).view_of(buf.port.0.id) == Some(buf.data),
            final(g).ports@.len() == old(g).ports@.len() + 1,
            final(g).nodes@.len() >= old(g).nodes@.len() + 1,
            exists|m1: Graph<T, F, P>, m2: Graph<T, F, P>, d: VecData<T>|
                #[trigger] m2.adopted(&m1, buf.port.0.id, Node::VecData(d)) && d.data@ == Seq::<
                    T,
                >::empty() && d.port == buf.port.0.id && m1.port_added(old(g))
                    && final(g).emitted(&m2, buf.port.0.id, Seq::empty()),
    {
        let port = ViewPort::<Vector>::new(g).into_inner();
        let ghost m1 = *g;
        let buf = VecBuffer::with_port(g, port);
        proof {
            assert(m1.port_added(old(g)));
        }
        buf
    }

    /// An empty buffer whose items are nested views, on a new port.
    pub fn with_views<T: Copy, F: Fn(&T) -> T, P: Fn(&T) -> bool>(g: &mut Graph<T, F, P>) -> (buf:
        Self)
        requires
            old(g).wf(),
        ensures
            final(g).wf(),
            buf.port.0.id == old(g).ports@.len(),
            buf.data + 1 == final(g).nodes@.len(),
            buf.data >= old(g).nodes@.len(),
            final(g).view_items(buf.data) == Some(Seq::<usize>::empty()),
            final(g).port_of_views(buf.data) == buf.port.0.id,
            final(g).view_of(buf.port.0.id) == Some(buf.data),
            final(g).ports@.len() == old(g).ports@.len() + 1,
            final(g).nodes@.len() >= old(g).nodes@.len() + 1,
            exists|mid: Graph<T, F, P>, d: ViewData|
                #[trigger] final(g).adopted(&mid, buf.port.0.id, Node::ViewData(d)) && d.data@
                    == Seq::<usize>::empty() && d.port == buf.port.0.id && mid.port_added(old(g)),
    {
        let port = ViewPort::<Vector>::new(g).into_inner();
        let ghost mid = *g;
        let d = ViewData { data: Vec::new(), port: port.0.id };
        let ghost made = d;
        let node = g.adopt(port.0.id, Node::ViewData(d));
        proof {
            assert(g.adopted(&mid, port.0.id, Node::ViewData(made)));
        }
        VecBuffer { data: node, port }
    }

    /// The consumers' facet of the port of this buffer.
    pub fn get_port(&self) -> (port: OuterViewPort<Vector>)
        ensures
            port.0 == self.port.0,
    {
        self.port.0.outer()
    }

    /// Applies `diff` and announces it.
    pub fn apply_diff<T: Copy, F: Fn(&T) -> T, P: Fn(&T) -> bool>(
        &mut self,
        g: &mut Graph<T, F, P>,
        diff: VecDiff<T>,
    )
        requires
            old(g).wf(),
            vec_diff_fits(old(self).items(old(g)).len(), diff),
        ensures
            *final(self) == *old(self),
            final(g).wf(),
            final(g).extends(old(g)),
            final(g).buffer_applied(old(g), old(self).data, diff),
    {
        g.apply_to_buffer(self.data, diff);
    }

    /// The number of items.
    pub fn len<T: Copy, F: Fn(&T) -> T, P: Fn(&T) -> bool>(&self, g: &Graph<T, F, P>) -> (n: usize)
        ensures
            n == g.vec_len_at(Some(self.data)),
    {
        g.vec_len(Some(self.data))
    }

    /// The item at `idx`.
    pub fn get<T: Copy, F: Fn(&T) -> T, P: Fn(&T) -> bool>(&self, g: &Graph<T, F, P>, idx: usize) -> (item:
        T)
        requires
            idx < self.items(g).len(),
        ensures
            item == self.items(g)[idx as int],
    {
        match g.vec_get(Some(self.data), idx) {
            Some(item) => item,
            None => unreached(),
        }
    }

    /// Drops every item.
    pub fn clear<T: Copy, F: Fn(&T) -> T, P: Fn(&T) -> bool>(&mut self, g: &mut Graph<T, F, P>)
        requires
            old(g).wf(),
        ensures
            *final(self) == *old(self),
            final(g).wf(),
            final(g).extends(old(g)),
            final(g).buffer_applied(old(g), old(self).data, VecDiff::Clear),
    {
        self.apply_diff(g, VecDiff::Clear);
    }

    /// Appends `val`.
    pub fn push<T: Copy, F: Fn(&T) -> T, P: Fn(&T) -> bool>(
        &mut self,
        g: &mut Graph<T, F, P>,
        val: T,
    )
        requires
            old(g).wf(),
        ensures
            *final(self) == *old(self),
            final(g).wf(),
            final(g).extends(old(g)),
            final(g).buffer_applied(old(g), old(self).data, VecDiff::Push(val)),
    {
        self.apply_diff(g, VecDiff::Push(val));
    }

    /// Takes the item at `idx` out.
    pub fn remove<T: Copy, F: Fn(&T) -> T, P: Fn(&T) -> bool>(
        &mut self,
        g: &mut Graph<T, F, P>,
        idx: usize,
    )
        requires
            old(g).wf(),
            idx < old(self).items(old(g)).len(),
        ensures
            *final(self) == *old(self),
            final(g).wf(),
            final(g).extends(old(g)),
            final(g).buffer_applied(old(g), old(self).data, VecDiff::Remove(idx)),
    {
        self.apply_diff(g, VecDiff::Remove(idx));
    }

    /// Puts `val` in front of the item at `idx`.
    pub fn insert<T: Copy, F: Fn(&T) -> T, P: Fn(&T) -> bool>(
        &mut self,
        g: &mut Graph<T, F, P>,
        idx: usize,
        val: T,
    )
        requires
            old(g).wf(),
            idx <= old(self).items(old(g)).len(),
        ensures
            *final(self) == *old(self),
            final(g).wf(),
            final(g).extends(old(g)),
            final(g).buffer_applied(old(g), old(self).data, VecDiff::Insert { idx, val }),
    {
        self.apply_diff(g, VecDiff::Insert { idx, val });
    }

    /// Puts `val` in place of the item at `idx`.
    pub fn update<T: Copy, F: Fn(&T) -> T, P: Fn(&T) -> bool>(
        &mut self,
        g: &mut Graph<T, F, P>,
        idx: usize,
        val: T,
    )
        requires
            old(g).wf(),
            idx < old(self).items(old(g)).len(),
        ensures
            *final(self) == *old(self),
            final(g).wf(),
            final(g).extends(old(g)),
            final(g).buffer_applied(old(g), old(self).data, VecDiff::Update { idx, val }),
    {
        self.apply_diff(g, VecDiff::Update { idx, val });
    }

    /// A copy of the item at `idx` to work on; it goes back into the buffer
    /// when it is committed.
    pub fn get_mut<T: Copy, F: Fn(&T) -> T, P: Fn(&T) -> bool>(
        &mut self,
        g: &Graph<T, F, P>,
        idx: usize,
    ) -> (access: MutableVecAccess<T>)
        requires
            idx < old(self).items(g).len(),
        ensures
            *final(self) == *old(self),
            access.buf == *old(self),
            access.idx == idx,
            access.val == old(self).items(g)[idx as int],
    {
        MutableVecAccess { buf: *self, idx, val: self.get(g, idx) }
    }

    /// The view of the items.
    pub fn into_inner(self) -> (view: ViewRef<Vector>)
        ensures
            view.node == self.data,
    {
        ViewRef { node: self.data, shape: Vector }
    }

    /// Appends the nested view on `port` to a buffer of views.
    pub fn push_view<T: Copy, F: Fn(&T) -> T, P: Fn(&T) -> bool>(
        &mut self,
        g: &mut Graph<T, F, P>,
        port: OuterViewPort<Sequence>,
    )
        requires
            old(g).wf(),
            port.0.valid(old(g)),
        ensures
            *final(self) == *old(self),
            final(g).wf(),
            final(g).extends(old(g)),
            final(g).view_pushed(old(g), old(self).data, port.0.id),
    {
        if self.data >= g.nodes.len() {
            return ;
        }
        let out = match &g.nodes[self.data] {
            Node::ViewData(d) => d.port,
            _ => {
                return ;
            },
        };
        match &mut g.nodes[self.data] {
            Node::ViewData(d) => {
                d.data.push(port.0.id);
            },
            _ => {},
        }
        proof {
            assert(g.ports@ =~= old(g).ports@);
            assert(old(g).nodes@[self.data as int].wf(g.ports@.len(), g.nodes@.len()));
            g.lemma_wf_after_step(old(g), self.data);
        }
        g.emit(out, one_msg(Msg::Views(VecDiff::Push(port.0.id))));
    }

    /// Takes the nested view at `idx` out of a buffer of views.
    pub fn remove_view<T: Copy, F: Fn(&T) -> T, P: Fn(&T) -> bool>(
        &mut self,
        g: &mut Graph<T, F, P>,
        idx: usize,
    )
        requires
            old(g).wf(),
        ensures
            *final(self) == *old(self),
            final(g).wf(),
            final(g).extends(old(g)),
            final(g).view_removed(old(g), old(self).data, idx),
    {
        if self.data >= g.nodes.len() {
            return ;
        }
        let out = match &g.nodes[self.data] {
            Node::ViewData(d) => {
                if idx >= d.data.len() {
                    return ;
                }
                d.port
            },
            _ => {
                return ;
            },
        };
        match &mut g.nodes[self.data] {
            Node::ViewData(d) => {
                d.data.remove(idx);
            },
            _ => {},
        }
        proof {
            assert(g.ports@ =~= old(g).ports@);
            assert(old(g).nodes@[self.data as int].wf(g.ports@.len(), g.nodes@.len()));
            g.lemma_wf_after_step(old(g), self.data);
        }
        g.emit(out, one_msg(Msg::Views(VecDiff::Remove(idx))));
    }
}

/// A copy of one item of a vector buffer to work on.
pub struct MutableVecAccess<T> {
    pub buf: VecBuffer,
    pub idx: usize,
    pub val: T,
}

impl<T: Copy> MutableVecAccess<T> {
    /// The copy.
    pub fn deref(&self) -> (val: &T)
        ensures
            *val == self.val,
    {
        &self.val
    }

    /// Changes the copy.
    pub fn set(&mut self, val: T)
        ensures
            final(self).val == val,
            final(self).buf == old(self).buf,
            final(self).idx == old(self).idx,
    {
        self.val = val;
    }

    /// Puts the copy back into the buffer, in place of the item it was
    /// taken from.
    pub fn commit<F: Fn(&T) -> T, P: Fn(&T) -> bool>(self, g: &mut Graph<T, F, P>)
        requires
            old(g).wf(),
            self.idx < self.buf.items(old(g)).len(),
        ensures
            final(g).wf(),
            final(g).extends(old(g)),
            final(g).buffer_applied(
                old(g),
                self.buf.data,
                VecDiff::Update { idx: self.idx, val: self.val },
            ),
    {
        let mut buf = self.buf;
        buf.update(g, self.idx, self.val);
    }
}

} // verus!
