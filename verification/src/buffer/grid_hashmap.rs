//! A buffer of the items at the points of a grid.
use vstd::prelude::*;
use crate::buffer::index_hashmap::IndexBuffer;
use crate::graph::Graph;
use crate::view::grid::Point2;
use crate::view::index::{Index, Key};
use crate::view::port::InnerViewPort;

verus! {

/// A grid buffer: an index buffer whose keys are points.
#[derive(Clone, Copy)]
pub struct GridBuffer {
    pub index: IndexBuffer,
}

impl GridBuffer {
    /// The item at `at`, as the graph `g` has it.
    pub open spec fn item_at<T: Copy, F: Fn(&T) -> T, P: Fn(&T) -> bool>(
        &self,
        g: &Graph<T, F, P>,
        at: Point2,
    ) -> Option<T> {
        self.index.item_at(g, Key::Point(at))
    }

    /// An empty grid that announces on `port`.
    pub fn new<T: Copy, F: Fn(&T) -> T, P: Fn(&T) -> bool>(
        g: &mut Graph<T, F, P>,
        port: InnerViewPort<Index>,
    ) -> (grid: Self)
        requires
            old(g).wf(),
            port.0.valid(old(g)),
        ensures
            final(g).wf(),
            final(g).sized(old(g)),
            grid.index.valid(final(g)),
            grid.index.port == port,
            forall|at: Point2| grid.item_at(final(g), at).is_none(),
            final(g).view_of(port.0.id) == Some(grid.index.data),
    {
        GridBuffer { index: IndexBuffer::with_port(g, port) }
    }

    /// Puts `item` at `key` and announces the point.
    pub fn insert<T: Copy, F: Fn(&T) -> T, P: Fn(&T) -> bool>(
        &mut self,
        g: &mut Graph<T, F, P>,
        key: Point2,
        item: T,
    )
        requires
            old(g).wf(),
        ensures
            *final(self) == *old(self),
            final(g).wf(),
            final(g).extends(old(g)),
            final(g).index_updated(old(g), old(self).index.data, Key::Point(key), Some(item)),
    {
        g.index_put(self.index.data, Key::Point(key), Some(item));
    }

    /// What it means that the pairs `pairs` were put into the grid at `buf`
    /// of `pre`, one after the other, and `post` is the outcome.
    pub open spec fn inserted_all<T: Copy, F: Fn(&T) -> T, P: Fn(&T) -> bool>(
        post: &Graph<T, F, P>,
        pre: &Graph<T, F, P>,
        buf: usize,
        pairs: Seq<(Point2, T)>,
    ) -> bool
        decreases pairs.len(),
    {
        if pairs.len() == 0 {
            post.same(pre)
        } else {
            exists|mid: Graph<T, F, P>|
                Self::inserted_all(&mid, pre, buf, pairs.drop_last()) && #[trigger] post.index_updated(
                    &mid,
                    buf,
                    Key::Point(pairs.last().0),
                    Some(pairs.last().1),
                )
        }
    }

    /// Puts each pair of `iter` into the grid, in their order.
    pub fn insert_iter<T: Copy, F: Fn(&T) -> T, P: Fn(&T) -> bool>(
        &mut self,
        g: &mut Graph<T, F, P>,
        iter: Vec<(Point2, T)>,
    )
        requires
            old(g).wf(),
        ensures
            *final(self) == *old(self),
            final(g).wf(),
            final(g).extends(old(g)),
            Self::inserted_all(final(g), old(g), old(self).index.data, iter@),
    {
        let mut i: usize = 0;
        while i < iter.len()
            invariant
                i <= iter@.len(),
                *self == *old(self),
                g.wf(),
                g.extends(old(g)),
                Self::inserted_all(g, old(g), self.index.data, iter@.subrange(0, i as int)),
            decreases iter@.len() - i,
        {
            let ghost mid = *g;
            let (key, item) = iter[i];
            self.insert(g, key, item);
            proof {
                let now = iter@.subrange(0, i as int + 1);
                assert(now.drop_last() =~= iter@.subrange(0, i as int));
                assert(now.last() == iter@[i as int]);
                assert(Self::inserted_all(&mid, old(g), self.index.data, now.drop_last()));
                assert(g.index_updated(
                    &mid,
                    self.index.data,
                    Key::Point(now.last().0),
                    Some(now.last().1),
                ));
            }
            i += 1;
        }
        proof {
            assert(iter@.subrange(0, i as int) =~= iter@);
        }
    }

    /// Takes the item at `key` out and announces the point.
    pub fn remove<T: Copy, F: Fn(&T) -> T, P: Fn(&T) -> bool>(
        &mut self,
        g: &mut Graph<T, F, P>,
        key: Point2,
    )
        requires
            old(g).wf(),
        ensures
            *final(self) == *old(self),
            final(g).wf(),
            final(g).extends(old(g)),
            final(g).index_updated(old(g), old(self).index.data, Key::Point(key), None),
    {
        g.index_put(self.index.data, Key::Point(key), None);
    }
}

} // verus!
