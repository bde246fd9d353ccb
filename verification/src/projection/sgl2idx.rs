//! A singleton seen as an index of one key.
use vstd::prelude::*;
use crate::graph::{Graph, Node};
use crate::projection::map_index_key::MapIndexKey;
use crate::view::index::{Index, KeyMap};
use crate::view::port::{OuterViewPort, ViewPort};
use crate::view::singleton::Singleton;

verus! {

/// The index that holds the value of a singleton under the one key.
pub struct Singleton2Index {
    pub src_view: Option<usize>,
    pub cast: usize,
}


impl OuterViewPort<Singleton> {
    /// The singleton seen as an index of one key, on a new port.
    pub fn to_index<T: Copy, F: Fn(&T) -> T, P: Fn(&T) -> bool>(
        &self,
        g: &mut Graph<T, F, P>,
    ) -> (port: OuterViewPort<Index>)
        requires
            old(g).wf(),
            self.0.valid(old(g)),
            old(g).ports@.len() + 1 < usize::MAX,
        ensures
            final(g).wf(),
            port.0.id == old(g).ports@.len(),
            final(g).ports@.len() == old(g).ports@.len() + 1,
            final(g).nodes@.len() > old(g).nodes@.len(),
            final(g).view_of(port.0.id) == Some(old(g).nodes@.len() as usize),
            final(g).projected(
                old(g),
                self.0.id,
                Node::Singleton2Index(Singleton2Index { src_view: None, cast: old(g).ports@.len() as usize }),
                true,
            ),
    {
        let cast = g.ports.len();
        let (port, _) = g.project(self.0.id, Node::Singleton2Index(Singleton2Index { src_view: None, cast: cast }), true);
        OuterViewPort(ViewPort { id: port, shape: Index })
    }
}

impl OuterViewPort<Singleton> {
    /// The singleton at the origin of a grid, on a new port.
    pub fn to_grid<T: Copy, F: Fn(&T) -> T, P: Fn(&T) -> bool>(
        &self,
        g: &mut Graph<T, F, P>,
    ) -> (port: OuterViewPort<Index>)
        requires
            old(g).wf(),
            self.0.valid(old(g)),
            old(g).ports@.len() + 2 < usize::MAX,
        ensures
            final(g).wf(),
            port.0.id == old(g).ports@.len() + 1,
            final(g).ports@.len() == old(g).ports@.len() + 2,
            final(g).nodes@.len() > old(g).nodes@.len() + 1,
            final(g).view_of(port.0.id).is_some(),
            exists|mid: Graph<T, F, P>|
                #[trigger] mid.projected(
                    old(g),
                    self.0.id,
                    Node::Singleton2Index(
                        Singleton2Index { src_view: None, cast: old(g).ports@.len() as usize },
                    ),
                    true,
                ) && final(g).projected(
                    &mid,
                    old(g).ports@.len() as usize,
                    Node::MapIndexKey(
                        MapIndexKey {
                            src_view: None,
                            map: KeyMap::Origin,
                            cast: (old(g).ports@.len() + 1) as usize,
                        },
                    ),
                    false,
                ),
    {
        let index = self.to_index(g);
        let ghost mid = *g;
        let port = index.map_key(g, KeyMap::Origin);
        proof {
            assert(mid.projected(
                old(g),
                self.0.id,
                Node::Singleton2Index(Singleton2Index { src_view: None, cast: old(g).ports@.len() as usize }),
                true,
            ));
        }
        port
    }
}

} // verus!
