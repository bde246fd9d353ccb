//! A single value that announces each change.
use vstd::prelude::*;
use crate::graph::{Graph, Node};
use crate::projection::vec2seq::one_msg;
use crate::view::Msg;
use crate::view::ViewRef;
use crate::view::observer::ObserverRef;
use crate::view::port::{Hook, InnerViewPort, OuterViewPort, ViewPort};
use crate::view::singleton::Singleton;

verus! {

/// What the graph keeps of a singleton buffer: the value, and the port on
/// which each change is announced.
pub struct SingletonBufferView<T> {
    pub value: T,
    pub port: usize,
}

/// What the graph keeps of a singleton buffer whose value is a view: the
/// port of the nested view, and the port on which each change is announced.
pub struct SingletonViewData {
    pub value: usize,
    pub port: usize,
}

/// A singleton buffer: the handle of its owner.
#[derive(Clone, Copy)]
pub struct SingletonBuffer {
    pub value: usize,
    pub port: InnerViewPort<Singleton>,
}

/// An observer that copies the value of a singleton view into a buffer.
pub struct SingletonBufferTarget {
    pub buffer: SingletonBuffer,
    pub src_view: Option<usize>,
}


impl SingletonBuffer {
    /// The value of the buffer, as the graph `g` has it.
    pub open spec fn value<T: Copy, F: Fn(&T) -> T, P: Fn(&T) -> bool>(
        &self,
        g: &Graph<T, F, P>,
    ) -> Option<T> {
        match g.singleton_at(self.value) {
            Some(d) => Some(d.value),
            None => None,
        }
    }

    /// Whether this is a singleton buffer of `g`, with its port.
    pub open spec fn valid<T: Copy, F: Fn(&T) -> T, P: Fn(&T) -> bool>(
        &self,
        g: &Graph<T, F, P>,
    ) -> bool {
        match g.singleton_at(self.value) {
            Some(d) => d.port == self.port.0.id && self.port.0.id < g.ports@.len(),
            None => false,
        }
    }

    /// A buffer that holds `value` and announces on `port`.
    pub fn with_port<T: Copy, F: Fn(&T) -> T, P: Fn(&T) -> bool>(
        g: &mut Graph<T, F, P>,
        value: T,
        port: InnerViewPort<Singleton>,
    ) -> (buf: Self)
        requires
            old(g).wf(),
            port.0.valid(old(g)),
        ensures
            final(g).wf(),
            final(g).sized(old(g)),
            buf.valid(final(g)),
            buf.port == port,
            buf.value + 1 == final(g).nodes@.len(),
            buf.value >= old(g).nodes@.len(),
            buf.value(final(g)) == Some(value),
            final(g).view_of(port.0.id) == Some(buf.value),
            final(g).adopted(
                old(g),
                port.0.id,
                Node::SingletonBufferView(SingletonBufferView { value, port: port.0.id }),
            ),
    {
        let node = g.adopt(port.0.id, Node::SingletonBufferView(SingletonBufferView { value, port: port.0.id }));
        SingletonBuffer { value: node, port }
    }

    /// Lets this buffer follow the singleton on `port`: the port is pulled
    /// whenever the port of this buffer is, and a new observer copies the
    /// value into this buffer.  The observer is handed out; the buffer
    /// follows as long as it is alive.
    pub fn attach_to<T: Copy, F: Fn(&T) -> T, P: Fn(&T) -> bool>(
        &self,
        g: &mut Graph<T, F, P>,
        port: OuterViewPort<Singleton>,
    ) -> (target: ObserverRef)
        requires
            old(g).wf(),
            self.valid(old(g)),
            port.0.valid(old(g)),
            old(g).ports@.len() < usize::MAX,
        ensures
            final(g).wf(),
            final(g).extends(old(g)),
            target.node == old(g).nodes@.len(),
            exists|m1: Graph<T, F, P>, m2: Graph<T, F, P>|
                #[trigger] m2.node_added(
                    &m1,
                    Node::SingletonBufferTarget(
                        SingletonBufferTarget { buffer: *self, src_view: None },
                    ),
                ) && m1.hooked(old(g), self.port.0.id, Hook::Port(port.0.id)) && final(g).observed(
                    &m2,
                    port.0.id,
                    target.node,
                    old(g).reach() + 1,
                ),
    {
        self.port.0.add_update_hook(g, Hook::Port(port.0.id));
        let ghost m1 = *g;
        let node = g.add_node(
            Node::SingletonBufferTarget(SingletonBufferTarget { buffer: *self, src_view: None }),
        );
        let ghost m2 = *g;
        let target = ObserverRef { node };
        port.add_observer(g, target);
        proof {
            assert(m2.node_added(
                &m1,
                Node::SingletonBufferTarget(SingletonBufferTarget { buffer: *self, src_view: None }),
            ));
        }
        target
    }

    /// A new port whose view this buffer follows; the observer that copies
    /// the value is handed out with it.
    pub fn make_in_port<T: Copy, F: Fn(&T) -> T, P: Fn(&T) -> bool>(
        &self,
        g: &mut Graph<T, F, P>,
    ) -> (made: (InnerViewPort<Singleton>, ObserverRef))
        requires
            old(g).wf(),
            self.valid(old(g)),
            old(g).ports@.len() + 1 < usize::MAX,
        ensures
            final(g).wf(),
            made.0.0.id == old(g).ports@.len(),
            final(g).ports@.len() == old(g).ports@.len() + 1,
            made.1.node == old(g).nodes@.len(),
            final(g).view_of(made.0.0.id).is_none(),
            exists|m0: Graph<T, F, P>, m1: Graph<T, F, P>, m2: Graph<T, F, P>|
                #[trigger] Graph::<T, F, P>::chain(m0, m1, m2) && m0.port_added(old(g)) && m1.hooked(
                    &m0,
                    self.port.0.id,
                    Hook::Port(made.0.0.id),
                ) && m2.node_added(
                    &m1,
                    Node::SingletonBufferTarget(
                        SingletonBufferTarget { buffer: *self, src_view: None },
                    ),
                ) && final(g).observed(&m2, made.0.0.id, made.1.node, m0.reach() + 1),
    {
        let port = ViewPort::<Singleton>::new(g);
        let ghost m0 = *g;
        proof {
            assert(m0.singleton_at(self.value) == old(g).singleton_at(self.value));
        }
        self.port.0.add_update_hook(g, Hook::Port(port.id));
        let ghost m1 = *g;
        let node = g.add_node(
            Node::SingletonBufferTarget(SingletonBufferTarget { buffer: *self, src_view: None }),
        );
        let ghost m2 = *g;
        let target = ObserverRef { node };
        port.outer().add_observer(g, target);
        proof {
            assert(Graph::<T, F, P>::chain(m0, m1, m2));
            assert(m2.node_added(
                &m1,
                Node::SingletonBufferTarget(SingletonBufferTarget { buffer: *self, src_view: None }),
            ));
        }
        (port.into_inner(), target)
    }

    /// A buffer that holds `value`, on a new port.
    pub fn new<T: Copy, F: Fn(&T) -> T, P: Fn(&T) -> bool>(g: &mut Graph<T, F, P>, value: T) -> (buf:
        Self)
        requires
            old(g).wf(),
        ensures
            final(g).wf(),
            buf.valid(final(g)),
            buf.port.0.id == old(g).ports@.len(),
            buf.value + 1 == final(g).nodes@.len(),
            buf.value >= old(g).nodes@.len(),
            buf.value(final(g)) == Some(value),
            final(g).view_of(buf.port.0.id) == Some(buf.value),
            final(g).ports@.len() == old(g).ports@.len() + 1,
            exists|mid: Graph<T, F, P>|
                #[trigger] mid.port_added(old(g)) && final(g).adopted(
                    &mid,
                    buf.port.0.id,
                    Node::SingletonBufferView(SingletonBufferView { value, port: buf.port.0.id }),
                ),
    {
        let port = ViewPort::<Singleton>::new(g).into_inner();
        let ghost mid = *g;
        let buf = SingletonBuffer::with_port(g, value, port);
        proof {
            assert(mid.port_added(old(g)));
        }
        buf
    }

    /// The consumers' facet of the port of this buffer.
    pub fn get_port(&self) -> (port: OuterViewPort<Singleton>)
        ensures
            port.0 == self.port.0,
    {
        self.port.0.outer()
    }

    /// The value.
    pub fn get<T: Copy, F: Fn(&T) -> T, P: Fn(&T) -> bool>(&self, g: &Graph<T, F, P>) -> (value: T)
        requires
            self.value(g).is_some(),
        ensures
            Some(value) == self.value(g),
    {
        match &g.nodes[self.value] {
            Node::SingletonBufferView(d) => d.value,
            _ => unreached(),
        }
    }

    /// A copy of the value to work on; it goes back into the buffer when it
    /// is committed.
    pub fn get_mut<T: Copy, F: Fn(&T) -> T, P: Fn(&T) -> bool>(&self, g: &Graph<T, F, P>) -> (access:
        MutableSingletonAccess<T>)
        requires
            self.value(g).is_some(),
        ensures
            access.buf == *self,
            Some(access.val) == self.value(g),
    {
        MutableSingletonAccess { buf: *self, val: self.get(g) }
    }

    /// Stores `new_value` and announces the change.
    pub fn set<T: Copy, F: Fn(&T) -> T, P: Fn(&T) -> bool>(
        &mut self,
        g: &mut Graph<T, F, P>,
        new_value: T,
    )
        requires
            old(g).wf(),
        ensures
            *final(self) == *old(self),
            final(g).wf(),
            final(g).extends(old(g)),
            final(g).singleton_set(old(g), old(self).value, new_value),
    {
        g.set_singleton(self.value, new_value);
    }

    /// The view of the value.
    pub fn into_inner(self) -> (view: ViewRef<Singleton>)
        ensures
            view.node == self.value,
    {
        ViewRef { node: self.value, shape: Singleton }
    }
}

/// A copy of the value of a singleton buffer to work on.
pub struct MutableSingletonAccess<T> {
    pub buf: SingletonBuffer,
    pub val: T,
}

impl<T: Copy> MutableSingletonAccess<T> {
    /// The copy.
    pub fn deref(&self) -> (val: &T)
        ensures
            *val == self.val,
    {
        &self.val
    }

    /// Changes the copy.
    pub fn set(&mut self, val: T)
        ensures
            final(self).val == val,
            final(self).buf == old(self).buf,
    {
        self.val = val;
    }

    /// Puts the copy back into the buffer.
    pub fn commit<F: Fn(&T) -> T, P: Fn(&T) -> bool>(self, g: &mut Graph<T, F, P>)
        requires
            old(g).wf(),
        ensures
            final(g).wf(),
            final(g).extends(old(g)),
            final(g).singleton_set(old(g), self.buf.value, self.val),
    {
        let mut buf = self.buf;
        buf.set(g, self.val);
    }
}


impl<T: Copy, F: Fn(&T) -> T, P: Fn(&T) -> bool> Graph<T, F, P> {
    /// What it means that the singleton buffer of a view at `buf` of `pre`
    /// was set to the nested view on `view` and `self` is the outcome.
    pub open spec fn singleton_view_set(&self, pre: &Self, buf: usize, view: usize) -> bool {
        if buf < pre.nodes@.len() {
            match pre.nodes@[buf as int] {
                Node::SingletonView(d) => {
                    &&& self.stepped(pre, buf, d.port, seq![Msg::Unit])
                    &&& self.nodes@[buf as int] == Node::<T, F, P>::SingletonView(
                        SingletonViewData { value: view, port: d.port },
                    )
                },
                _ => self.same(pre),
            }
        } else {
            self.same(pre)
        }
    }
}

impl SingletonBuffer {
    /// A buffer that holds the nested view on `nested`, on a new port.
    pub fn with_view<T: Copy, F: Fn(&T) -> T, P: Fn(&T) -> bool>(
        g: &mut Graph<T, F, P>,
        nested: OuterViewPort<Singleton>,
    ) -> (buf: Self)
        requires
            old(g).wf(),
            nested.0.valid(old(g)),
        ensures
            final(g).wf(),
            buf.port.0.id == old(g).ports@.len(),
            buf.value + 1 == final(g).nodes@.len(),
            buf.value >= old(g).nodes@.len(),
            final(g).sgl_view_at(buf.value) == Some(nested.0.id),
            final(g).view_of(buf.port.0.id) == Some(buf.value),
            final(g).ports@.len() == old(g).ports@.len() + 1,
            exists|mid: Graph<T, F, P>|
                #[trigger] mid.port_added(old(g)) && final(g).adopted(
                    &mid,
                    buf.port.0.id,
                    Node::SingletonView(
                        SingletonViewData { value: nested.0.id, port: buf.port.0.id },
                    ),
                ),
    {
        let port = ViewPort::<Singleton>::new(g).into_inner();
        let ghost mid = *g;
        let node = g.adopt(
            port.0.id,
            Node::SingletonView(SingletonViewData { value: nested.0.id, port: port.0.id }),
        );
        proof {
            assert(mid.port_added(old(g)));
        }
        SingletonBuffer { value: node, port }
    }

    /// Puts the nested view on `nested` in place of the one that the buffer
    /// holds, and announces the change.
    pub fn set_view<T: Copy, F: Fn(&T) -> T, P: Fn(&T) -> bool>(
        &mut self,
        g: &mut Graph<T, F, P>,
        nested: OuterViewPort<Singleton>,
    )
        requires
            old(g).wf(),
            nested.0.valid(old(g)),
        ensures
            *final(self) == *old(self),
            final(g).wf(),
            final(g).extends(old(g)),
            final(g).singleton_view_set(old(g), old(self).value, nested.0.id),
    {
        if self.value >= g.nodes.len() {
            return ;
        }
        let out = match &g.nodes[self.value] {
            Node::SingletonView(d) => d.port,
            _ => {
                return ;
            },
        };
        match &mut g.nodes[self.value] {
            Node::SingletonView(d) => {
                d.value = nested.0.id;
            },
            _ => {},
        }
        proof {
            assert(g.ports@ =~= old(g).ports@);
            g.lemma_wf_after_step(old(g), self.value);
        }
        g.emit(out, one_msg(Msg::Unit));
    }
}

} // verus!
