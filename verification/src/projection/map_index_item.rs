//! Item-wise mapping of an index.
use vstd::prelude::*;
use crate::graph::{total_fn, Graph, Node};
use crate::view::ViewRef;
use crate::view::index::Index;
use crate::view::port::{InnerViewPort, OuterViewPort, ViewPort};

verus! {

/// The index of `f(x)` for the items `x` of the source, under their keys.
pub struct MapIndexItem<F> {
    pub src_view: Option<usize>,
    pub f: F,
    pub cast: usize,
}


impl<F> MapIndexItem<F> {
    /// A mapping without source, published on `port`.
    pub fn new<T: Copy, P: Fn(&T) -> bool>(
        g: &mut Graph<T, F, P>,
        port: InnerViewPort<Index>,
        f: F,
    ) -> (view: ViewRef<Index>) where F: Fn(&T) -> T
        requires
            old(g).wf(),
            port.0.valid(old(g)),
            total_fn::<T, F>(f),
        ensures
            final(g).wf(),
            final(g).sized(old(g)),
            view.node == old(g).nodes@.len(),
            final(g).view_of(port.0.id) == Some(view.node),
            exists|mid: Graph<T, F, P>|
                #[trigger] mid.node_added(
                    old(g),
                    Node::MapIndexItem(MapIndexItem { src_view: None, f, cast: port.0.id }),
                ) && final(g).published(&mid, port.0.id, Some(view.node)),
    {
        let node = g.add_node(Node::MapIndexItem(MapIndexItem { src_view: None, f, cast: port.0.id }));
        let ghost mid = *g;
        g.publish(port.0.id, Some(node));
        proof {
            assert(mid.node_added(old(g), Node::MapIndexItem(MapIndexItem { src_view: None, f, cast: port.0.id })));
        }
        ViewRef { node, shape: Index }
    }
}

impl OuterViewPort<Index> {
    /// The index of `f(x)` for the items `x` of this index, under their keys, on a new port.
    pub fn map_item<T: Copy, F: Fn(&T) -> T, P: Fn(&T) -> bool>(
        &self,
        g: &mut Graph<T, F, P>,
        f: F,
    ) -> (port: OuterViewPort<Index>)
        requires
            old(g).wf(),
            self.0.valid(old(g)),
            old(g).ports@.len() + 1 < usize::MAX,
            total_fn::<T, F>(f),
        ensures
            final(g).wf(),
            port.0.id == old(g).ports@.len(),
            final(g).ports@.len() == old(g).ports@.len() + 1,
            final(g).nodes@.len() > old(g).nodes@.len(),
            final(g).view_of(port.0.id) == Some(old(g).nodes@.len() as usize),
            final(g).projected(
                old(g),
                self.0.id,
                Node::MapIndexItem(MapIndexItem { src_view: None, f, cast: old(g).ports@.len() as usize }),
                false,
            ),
    {
        let cast = g.ports.len();
        let (port, _) = g.project(self.0.id, Node::MapIndexItem(MapIndexItem { src_view: None, f, cast: cast }), false);
        OuterViewPort(ViewPort { id: port, shape: Index })
    }
}

} // verus!
