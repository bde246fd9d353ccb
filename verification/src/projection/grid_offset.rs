//! Grids moved by a displacement.
use vstd::prelude::*;
use crate::graph::{Graph, Node};
use crate::projection::map_index_key::MapIndexKey;
use crate::view::grid::Vector2;
use crate::view::index::{Index, KeyMap};
use crate::view::port::OuterViewPort;

verus! {

impl OuterViewPort<Index> {
    /// The items of this grid, each moved by `offset`, on a new port.
    pub fn offset<T: Copy, F: Fn(&T) -> T, P: Fn(&T) -> bool>(
        &self,
        g: &mut Graph<T, F, P>,
        offset: Vector2,
    ) -> (port: OuterViewPort<Index>)
        requires
            old(g).wf(),
            self.0.valid(old(g)),
            old(g).ports@.len() + 1 < usize::MAX,
        ensures
            final(g).wf(),
            port.0.id == old(g).ports@.len(),
            final(g).ports@.len() == old(g).ports@.len() + 1,
            final(g).nodes@.len() > old(g).nodes@.len(),
            final(g).view_of(port.0.id) == Some(old(g).nodes@.len() as usize),
            final(g).projected(
                old(g),
                self.0.id,
                Node::MapIndexKey(
                    MapIndexKey {
                        src_view: None,
                        map: KeyMap::Offset(offset),
                        cast: old(g).ports@.len() as usize,
                    },
                ),
                false,
            ),
    {
        self.map_key(g, KeyMap::Offset(offset))
    }
}

} // verus!
