//! Flattening a singleton of a singleton.
use vstd::prelude::*;
use crate::graph::{Graph, Node};
use crate::projection::projection_helper::{ArgHandler, Keepalive, ProjectionHelper};
use crate::view::ViewRef;
use crate::view::port::{InnerViewPort, OuterViewPort, ViewPort};
use crate::view::singleton::Singleton;

verus! {

/// The value of the singleton that the value of an outer singleton names.
pub struct Flatten {
    pub outer: usize,
    pub inner: Option<usize>,
    pub cast: usize,
    pub proj: ProjectionHelper,
}

/// A flattening of the singleton on `outer` that names no nested singleton
/// yet, which announces on `out` and whose helper keeps its hooks in the
/// hook chain of `out`.
pub open spec fn fresh_flatten(flat: Flatten, outer: usize, out: usize) -> bool {
    &&& flat.outer == outer
    &&& flat.inner.is_none()
    &&& flat.cast == out
    &&& flat.proj.keepalive@ == Seq::<Keepalive>::empty()
    &&& flat.proj.proj.is_none()
    &&& flat.proj.update_hooks == out
}

impl<T: Copy, F: Fn(&T) -> T, P: Fn(&T) -> bool> Graph<T, F, P> {
    /// The flattening of singletons at `node`.
    pub open spec fn unfolded_at(&self, node: usize) -> Option<Flatten> {
        if node < self.nodes@.len() {
            match self.nodes@[node as int] {
                Node::FlattenSingleton(f) => Some(f),
                _ => None,
            }
        } else {
            None
        }
    }

    /// The port of the nested singleton that the singleton on `port` names.
    pub open spec fn sgl_nested_at(&self, port: usize) -> Option<usize> {
        match self.view_of(port) {
            Some(view) => self.sgl_view_at(view),
            None => None,
        }
    }

    /// `self` is `pre`, but the flattening of singletons at `node` names the
    /// nested singleton on `inner`.
    pub open spec fn inner_set(&self, pre: &Self, node: usize, inner: Option<usize>) -> bool {
        &&& self.ports@ == pre.ports@
        &&& self.alive@ == pre.alive@
        &&& self.nodes@.len() == pre.nodes@.len()
        &&& forall|n: int|
            0 <= n < self.nodes@.len() && n != node ==> self.nodes@[n] == pre.nodes@[n]
        &&& match (pre.unfolded_at(node), self.unfolded_at(node)) {
            (Some(f), Some(g)) => {
                &&& g.outer == f.outer
                &&& g.inner == inner
                &&& g.cast == f.cast
                &&& g.proj == f.proj
            },
            _ => false,
        }
    }

    /// What it means that the outer singleton of the flattening at `node` of
    /// `pre` changed and `self` is the outcome: the flattening names the
    /// nested singleton that the outer one names now, and takes it as its
    /// dependency under the key one, or drops that dependency if there is
    /// no nested singleton.
    pub open spec fn outer_changed(&self, pre: &Self, node: usize, fuel: nat) -> bool
        decreases fuel, 2nat, 2nat,
    {
        match pre.unfolded_at(node) {
            Some(f) => exists|mid: Self|
                #[trigger] mid.inner_set(pre, node, pre.sgl_nested_at(f.outer)) && match pre.sgl_nested_at(
                    f.outer,
                ) {
                    Some(port) => self.sequence_arg_renewed(
                        &mid,
                        node,
                        1,
                        port,
                        ArgHandler::FlattenInner,
                        fuel,
                    ),
                    None => self.arg_dropped(&mid, node, 1),
                },
            None => self.same(pre),
        }
    }

    /// The outer singleton of the flattening at `node` changed.
    pub fn unfold_outer(&mut self, node: usize, fuel: usize)
        requires
            old(self).wf(),
        ensures
            final(self).wf(),
            final(self).extends(old(self)),
            final(self).outer_changed(old(self), node, fuel as nat),
        decreases fuel, 4nat,
    {
        if node >= self.nodes.len() {
            return ;
        }
        let outer = match &self.nodes[node] {
            Node::FlattenSingleton(f) => f.outer,
            _ => {
                return ;
            },
        };
        let nested = match self.port_view(outer) {
            Some(view) => self.sgl_view(view),
            None => None,
        };
        match &mut self.nodes[node] {
            Node::FlattenSingleton(f) => {
                f.inner = nested;
            },
            _ => {},
        }
        let ghost mid = *self;
        proof {
            assert(self.ports@ =~= old(self).ports@);
            self.lemma_wf_after_step(old(self), node);
            assert(mid.inner_set(old(self), node, nested));
        }
        match nested {
            Some(port) => {
                self.new_sequence_arg(node, 1, port, ArgHandler::FlattenInner, fuel);
            },
            None => {
                self.remove_arg(node, 1);
            },
        }
    }
}

impl Flatten {
    /// A flattening of the singleton of a view on `top_port`, published on
    /// `out_port`.  The outer singleton is its dependency under the key
    /// zero.
    pub fn new<T: Copy, F: Fn(&T) -> T, P: Fn(&T) -> bool>(
        g: &mut Graph<T, F, P>,
        top_port: OuterViewPort<Singleton>,
        out_port: InnerViewPort<Singleton>,
    ) -> (view: ViewRef<Singleton>)
        requires
            old(g).wf(),
            top_port.0.valid(old(g)),
            out_port.0.valid(old(g)),
            old(g).ports@.len() < usize::MAX,
        ensures
            final(g).wf(),
            final(g).sized(old(g)),
            view.node == old(g).nodes@.len(),
            final(g).view_of(out_port.0.id) == Some(view.node),
            exists|flat: Flatten|
                #[trigger] final(g).installed(
                    old(g),
                    top_port.0.id,
                    out_port.0.id,
                    Node::FlattenSingleton(flat),
                    0,
                    ArgHandler::FlattenOuter,
                ) && fresh_flatten(flat, top_port.0.id, out_port.0.id),
    {
        let flat = Flatten {
            outer: top_port.0.id,
            inner: None,
            cast: out_port.0.id,
            proj: ProjectionHelper::new(out_port.0.id),
        };
        let ghost made = flat;
        let node = g.install(
            top_port.0.id,
            out_port.0.id,
            Node::FlattenSingleton(flat),
            0,
            ArgHandler::FlattenOuter,
        );
        proof {
            assert(g.installed(
                old(g),
                top_port.0.id,
                out_port.0.id,
                Node::FlattenSingleton(made),
                0,
                ArgHandler::FlattenOuter,
            ));
        }
        ViewRef { node, shape: Singleton }
    }
}

impl OuterViewPort<Singleton> {
    /// The value of the singleton that the value of this singleton names,
    /// on a new port.
    pub fn flatten<T: Copy, F: Fn(&T) -> T, P: Fn(&T) -> bool>(&self, g: &mut Graph<T, F, P>) -> (port:
        OuterViewPort<Singleton>)
        requires
            old(g).wf(),
            self.0.valid(old(g)),
            old(g).ports@.len() + 1 < usize::MAX,
        ensures
            final(g).wf(),
            port.0.id == old(g).ports@.len(),
            final(g).ports@.len() == old(g).ports@.len() + 1,
            final(g).nodes@.len() > old(g).nodes@.len(),
            final(g).view_of(port.0.id) == Some(old(g).nodes@.len() as usize),
            exists|mid: Graph<T, F, P>, flat: Flatten|
                #[trigger] final(g).installed(
                    &mid,
                    self.0.id,
                    port.0.id,
                    Node::FlattenSingleton(flat),
                    0,
                    ArgHandler::FlattenOuter,
                ) && fresh_flatten(flat, self.0.id, port.0.id) && mid.nodes@ == old(g).nodes@
                    && mid.alive@ == old(g).alive@ && mid.ports@.len() == old(g).ports@.len() + 1,
    {
        let port = ViewPort::<Singleton>::new(g);
        Flatten::new(g, *self, port.inner());
        port.into_outer()
    }
}

} // verus!
