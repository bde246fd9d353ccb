//! A sequence seen as an index of its positions.
use vstd::prelude::*;
use crate::graph::{Graph, Node};
use crate::projection::map_index_key::MapIndexKey;
use crate::view::ViewRef;
use crate::view::index::{Index, KeyMap};
use crate::view::port::{InnerViewPort, OuterViewPort, ViewPort};
use crate::view::sequence::Sequence;

verus! {

/// The index that holds the items of a sequence under their positions.
pub struct Sequence2Index {
    pub src_view: Option<usize>,
    pub cast: usize,
}


impl Sequence2Index {
    /// An index adapter without source, published on `port`.
    pub fn new<T: Copy, F: Fn(&T) -> T, P: Fn(&T) -> bool>(
        g: &mut Graph<T, F, P>,
        port: InnerViewPort<Index>,
    ) -> (view: ViewRef<Index>)
        requires
            old(g).wf(),
            port.0.valid(old(g)),
        ensures
            final(g).wf(),
            final(g).sized(old(g)),
            view.node == old(g).nodes@.len(),
            final(g).view_of(port.0.id) == Some(view.node),
            exists|mid: Graph<T, F, P>|
                #[trigger] mid.node_added(
                    old(g),
                    Node::Sequence2Index(Sequence2Index { src_view: None, cast: port.0.id }),
                ) && final(g).published(&mid, port.0.id, Some(view.node)),
    {
        let node = g.add_node(Node::Sequence2Index(Sequence2Index { src_view: None, cast: port.0.id }));
        let ghost mid = *g;
        g.publish(port.0.id, Some(node));
        proof {
            assert(mid.node_added(old(g), Node::Sequence2Index(Sequence2Index { src_view: None, cast: port.0.id })));
        }
        ViewRef { node, shape: Index }
    }
}

impl OuterViewPort<Sequence> {
    /// The sequence seen as an index of its positions, on a new port.
    pub fn to_index<T: Copy, F: Fn(&T) -> T, P: Fn(&T) -> bool>(
        &self,
        g: &mut Graph<T, F, P>,
    ) -> (port: OuterViewPort<Index>)
        requires
            old(g).wf(),
            self.0.valid(old(g)),
            old(g).ports@.len() + 1 < usize::MAX,
        ensures
            final(g).wf(),
            port.0.id == old(g).ports@.len(),
            final(g).ports@.len() == old(g).ports@.len() + 1,
            final(g).nodes@.len() > old(g).nodes@.len(),
            final(g).view_of(port.0.id) == Some(old(g).nodes@.len() as usize),
            final(g).projected(
                old(g),
                self.0.id,
                Node::Sequence2Index(Sequence2Index { src_view: None, cast: old(g).ports@.len() as usize }),
                false,
            ),
    {
        let cast = g.ports.len();
        let (port, _) = g.project(self.0.id, Node::Sequence2Index(Sequence2Index { src_view: None, cast: cast }), false);
        OuterViewPort(ViewPort { id: port, shape: Index })
    }
}

impl OuterViewPort<Sequence> {
    /// The sequence as the row zero of a grid, on a new port.
    pub fn to_grid_horizontal<T: Copy, F: Fn(&T) -> T, P: Fn(&T) -> bool>(
        &self,
        g: &mut Graph<T, F, P>,
    ) -> (port: OuterViewPort<Index>)
        requires
            old(g).wf(),
            self.0.valid(old(g)),
            old(g).ports@.len() + 2 < usize::MAX,
        ensures
            final(g).wf(),
            port.0.id == old(g).ports@.len() + 1,
            final(g).ports@.len() == old(g).ports@.len() + 2,
            final(g).nodes@.len() > old(g).nodes@.len() + 1,
            final(g).view_of(port.0.id).is_some(),
            exists|mid: Graph<T, F, P>|
                #[trigger] mid.projected(
                    old(g),
                    self.0.id,
                    Node::Sequence2Index(
                        Sequence2Index { src_view: None, cast: old(g).ports@.len() as usize },
                    ),
                    false,
                ) && final(g).projected(
                    &mid,
                    old(g).ports@.len() as usize,
                    Node::MapIndexKey(
                        MapIndexKey {
                            src_view: None,
                            map: KeyMap::Horizontal,
                            cast: (old(g).ports@.len() + 1) as usize,
                        },
                    ),
                    false,
                ),
    {
        let index = self.to_index(g);
        let ghost mid = *g;
        let port = index.map_key(g, KeyMap::Horizontal);
        proof {
            assert(mid.projected(
                old(g),
                self.0.id,
                Node::Sequence2Index(Sequence2Index { src_view: None, cast: old(g).ports@.len() as usize }),
                false,
            ));
        }
        port
    }
}

impl OuterViewPort<Sequence> {
    /// The sequence as the column zero of a grid, on a new port.
    pub fn to_grid_vertical<T: Copy, F: Fn(&T) -> T, P: Fn(&T) -> bool>(
        &self,
        g: &mut Graph<T, F, P>,
    ) -> (port: OuterViewPort<Index>)
        requires
            old(g).wf(),
            self.0.valid(old(g)),
            old(g).ports@.len() + 2 < usize::MAX,
        ensures
            final(g).wf(),
            port.0.id == old(g).ports@.len() + 1,
            final(g).ports@.len() == old(g).ports@.len() + 2,
            final(g).nodes@.len() > old(g).nodes@.len() + 1,
            final(g).view_of(port.0.id).is_some(),
            exists|mid: Graph<T, F, P>|
                #[trigger] mid.projected(
                    old(g),
                    self.0.id,
                    Node::Sequence2Index(
                        Sequence2Index { src_view: None, cast: old(g).ports@.len() as usize },
                    ),
                    false,
                ) && final(g).projected(
                    &mid,
                    old(g).ports@.len() as usize,
                    Node::MapIndexKey(
                        MapIndexKey {
                            src_view: None,
                            map: KeyMap::Vertical,
                            cast: (old(g).ports@.len() + 1) as usize,
                        },
                    ),
                    false,
                ),
    {
        let index = self.to_index(g);
        let ghost mid = *g;
        let port = index.map_key(g, KeyMap::Vertical);
        proof {
            assert(mid.projected(
                old(g),
                self.0.id,
                Node::Sequence2Index(Sequence2Index { src_view: None, cast: old(g).ports@.len() as usize }),
                false,
            ));
        }
        port
    }
}

} // verus!
