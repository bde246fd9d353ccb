//! Keeping and mapping the items of a sequence in one step.
use vstd::prelude::*;
use crate::graph::{total_fn, total_pred, Graph};
use crate::projection::filter_sequence::Filter;
use crate::projection::map_sequence::MapSequenceItem;
use crate::graph::Node;
use crate::view::port::OuterViewPort;
use crate::view::sequence::Sequence;

verus! {

/// `post` is `mid` with the mapping by `f` of the sequence on the port
/// `src`, set up on the port behind `src`.
pub open spec fn mapped_behind<T: Copy, F: Fn(&T) -> T, P: Fn(&T) -> bool>(
    post: &Graph<T, F, P>,
    mid: &Graph<T, F, P>,
    src: usize,
    f: F,
) -> bool {
    post.projected(
        mid,
        src,
        Node::MapSequenceItem(MapSequenceItem { src_view: None, f, cast: (src + 1) as usize }),
        true,
    )
}

impl OuterViewPort<Sequence> {
    /// The sequence of `f(x)` for the items `x` of this sequence that pass
    /// `pred`, on a new port behind the port of the filter.
    pub fn filter_map<T: Copy, F: Fn(&T) -> T, P: Fn(&T) -> bool>(
        &self,
        g: &mut Graph<T, F, P>,
        pred: P,
        f: F,
    ) -> (port: OuterViewPort<Sequence>)
        requires
            old(g).wf(),
            self.0.valid(old(g)),
            old(g).ports@.len() + 2 < usize::MAX,
            total_pred::<T, P>(pred),
            total_fn::<T, F>(f),
        ensures
            final(g).wf(),
            port.0.id == old(g).ports@.len() + 1,
            final(g).ports@.len() == old(g).ports@.len() + 2,
            final(g).view_of(port.0.id).is_some(),
            exists|mid: Graph<T, F, P>, filter: Filter<P>|
                #[trigger] mid.projected(old(g), self.0.id, Node::Filter(filter), true)
                    && filter.src_view.is_none() && filter.pred == pred && filter.old_preds@
                    == Seq::<bool>::empty() && filter.cast == old(g).ports@.len() && mapped_behind(
                    final(g),
                    &mid,
                    old(g).ports@.len() as usize,
                    f,
                ),
    {
        let kept = self.filter(g, pred);
        kept.map(g, f)
    }
}

} // verus!
