//! Mapping of the keys of an index.
use vstd::prelude::*;
use crate::graph::{Graph, Node};
use crate::view::ViewRef;
use crate::view::index::Index;
use crate::view::port::{InnerViewPort, OuterViewPort, ViewPort};
use crate::view::index::KeyMap;

verus! {

/// The index of the items of the source, each under the key that its key is
/// mapped to.
pub struct MapIndexKey {
    pub src_view: Option<usize>,
    pub map: KeyMap,
    pub cast: usize,
}


impl MapIndexKey {
    /// A key mapping without source, published on `port`.
    pub fn new<T: Copy, F: Fn(&T) -> T, P: Fn(&T) -> bool>(
        g: &mut Graph<T, F, P>,
        port: InnerViewPort<Index>,
        map: KeyMap,
    ) -> (view: ViewRef<Index>)
        requires
            old(g).wf(),
            port.0.valid(old(g)),
        ensures
            final(g).wf(),
            final(g).sized(old(g)),
            view.node == old(g).nodes@.len(),
            final(g).view_of(port.0.id) == Some(view.node),
            exists|mid: Graph<T, F, P>|
                #[trigger] mid.node_added(
                    old(g),
                    Node::MapIndexKey(MapIndexKey { src_view: None, map, cast: port.0.id }),
                ) && final(g).published(&mid, port.0.id, Some(view.node)),
    {
        let node = g.add_node(Node::MapIndexKey(MapIndexKey { src_view: None, map, cast: port.0.id }));
        let ghost mid = *g;
        g.publish(port.0.id, Some(node));
        proof {
            assert(mid.node_added(old(g), Node::MapIndexKey(MapIndexKey { src_view: None, map, cast: port.0.id })));
        }
        ViewRef { node, shape: Index }
    }
}

impl OuterViewPort<Index> {
    /// The items of this index, each under the key that `map` maps its key to, on a new port.
    pub fn map_key<T: Copy, F: Fn(&T) -> T, P: Fn(&T) -> bool>(
        &self,
        g: &mut Graph<T, F, P>,
        map: KeyMap,
    ) -> (port: OuterViewPort<Index>)
        requires
            old(g).wf(),
            self.0.valid(old(g)),
            old(g).ports@.len() + 1 < usize::MAX,
        ensures
            final(g).wf(),
            port.0.id == old(g).ports@.len(),
            final(g).ports@.len() == old(g).ports@.len() + 1,
            final(g).nodes@.len() > old(g).nodes@.len(),
            final(g).view_of(port.0.id) == Some(old(g).nodes@.len() as usize),
            final(g).projected(
                old(g),
                self.0.id,
                Node::MapIndexKey(MapIndexKey { src_view: None, map, cast: old(g).ports@.len() as usize }),
                false,
            ),
    {
        let cast = g.ports.len();
        let (port, _) = g.project(self.0.id, Node::MapIndexKey(MapIndexKey { src_view: None, map, cast: cast }), false);
        OuterViewPort(ViewPort { id: port, shape: Index })
    }
}

impl OuterViewPort<Index> {
    /// The items of this index of positions as the row zero of a grid, on a new port.
    pub fn to_grid_horizontal<T: Copy, F: Fn(&T) -> T, P: Fn(&T) -> bool>(
        &self,
        g: &mut Graph<T, F, P>,
    ) -> (port: OuterViewPort<Index>)
        requires
            old(g).wf(),
            self.0.valid(old(g)),
            old(g).ports@.len() + 1 < usize::MAX,
        ensures
            final(g).wf(),
            port.0.id == old(g).ports@.len(),
            final(g).ports@.len() == old(g).ports@.len() + 1,
            final(g).nodes@.len() > old(g).nodes@.len(),
            final(g).view_of(port.0.id) == Some(old(g).nodes@.len() as usize),
            final(g).projected(
                old(g),
                self.0.id,
                Node::MapIndexKey(MapIndexKey { src_view: None, map: KeyMap::Horizontal, cast: old(g).ports@.len() as usize }),
                false,
            ),
    {
        let cast = g.ports.len();
        let (port, _) = g.project(self.0.id, Node::MapIndexKey(MapIndexKey { src_view: None, map: KeyMap::Horizontal, cast: cast }), false);
        OuterViewPort(ViewPort { id: port, shape: Index })
    }
}

impl OuterViewPort<Index> {
    /// The items of this index of positions as the column zero of a grid, on a new port.
    pub fn to_grid_vertical<T: Copy, F: Fn(&T) -> T, P: Fn(&T) -> bool>(
        &self,
        g: &mut Graph<T, F, P>,
    ) -> (port: OuterViewPort<Index>)
        requires
            old(g).wf(),
            self.0.valid(old(g)),
            old(g).ports@.len() + 1 < usize::MAX,
        ensures
            final(g).wf(),
            port.0.id == old(g).ports@.len(),
            final(g).ports@.len() == old(g).ports@.len() + 1,
            final(g).nodes@.len() > old(g).nodes@.len(),
            final(g).view_of(port.0.id) == Some(old(g).nodes@.len() as usize),
            final(g).projected(
                old(g),
                self.0.id,
                Node::MapIndexKey(MapIndexKey { src_view: None, map: KeyMap::Vertical, cast: old(g).ports@.len() as usize }),
                false,
            ),
    {
        let cast = g.ports.len();
        let (port, _) = g.project(self.0.id, Node::MapIndexKey(MapIndexKey { src_view: None, map: KeyMap::Vertical, cast: cast }), false);
        OuterViewPort(ViewPort { id: port, shape: Index })
    }
}

} // verus!
