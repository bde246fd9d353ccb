//! Item-wise mapping of a list.
use vstd::prelude::*;
use crate::graph::{Graph, Node};
use crate::view::list::List;
use crate::view::port::{OuterViewPort, ViewPort};
use crate::graph::{apply_fn, total_fn};
use crate::projection::vec2seq::one_msg;
use crate::view::Msg;
use crate::view::list::ListDiff;

verus! {

/// The list of `f(x)` for the items `x` of the source.
pub struct MapListItem<F> {
    pub src_view: Option<usize>,
    pub f: F,
    pub cast: usize,
}

/// `diff` with `f` applied to the item it carries.
pub open spec fn map_list_diff<T, F: Fn(&T) -> T>(f: F, diff: ListDiff<T>) -> ListDiff<T> {
    match diff {
        ListDiff::Clear => ListDiff::Clear,
        ListDiff::Remove(idx) => ListDiff::Remove(idx),
        ListDiff::Insert { idx, val } => ListDiff::Insert { idx, val: apply_fn::<T, F>(f, val) },
        ListDiff::Update { idx, val } => ListDiff::Update { idx, val: apply_fn::<T, F>(f, val) },
    }
}

impl<F> MapListItem<F> {
    /// Rebinds to the source `view`.  Nothing is announced.
    pub fn reset(&mut self, view: Option<usize>)
        ensures
            final(self).src_view == view,
            final(self).f == old(self).f,
            final(self).cast == old(self).cast,
    {
        self.src_view = view;
    }

    /// Forwards `diff` with the mapped item.
    pub fn notify<T: Copy>(&self, diff: &ListDiff<T>) -> (out: Vec<Msg<T>>) where F: Fn(&T) -> T
        requires
            total_fn::<T, F>(self.f),
        ensures
            out@ == seq![Msg::List(map_list_diff::<T, F>(self.f, *diff))],
    {
        let f = &self.f;
        let mapped = match *diff {
            ListDiff::Clear => ListDiff::Clear,
            ListDiff::Remove(idx) => ListDiff::Remove(idx),
            ListDiff::Insert { idx, val } => ListDiff::Insert { idx, val: f(&val) },
            ListDiff::Update { idx, val } => ListDiff::Update { idx, val: f(&val) },
        };
        one_msg(Msg::List(mapped))
    }
}


impl OuterViewPort<List> {
    /// The list of `f(x)` for the items `x` of this list, on a new port.
    pub fn map<T: Copy, F: Fn(&T) -> T, P: Fn(&T) -> bool>(
        &self,
        g: &mut Graph<T, F, P>,
        f: F,
    ) -> (port: OuterViewPort<List>)
        requires
            old(g).wf(),
            self.0.valid(old(g)),
            old(g).ports@.len() + 1 < usize::MAX,
            total_fn::<T, F>(f),
        ensures
            final(g).wf(),
            port.0.id == old(g).ports@.len(),
            final(g).ports@.len() == old(g).ports@.len() + 1,
            final(g).nodes@.len() > old(g).nodes@.len(),
            final(g).view_of(port.0.id) == Some(old(g).nodes@.len() as usize),
            final(g).projected(
                old(g),
                self.0.id,
                Node::MapListItem(MapListItem { src_view: None, f, cast: old(g).ports@.len() as usize }),
                true,
            ),
    {
        let cast = g.ports.len();
        let (port, _) = g.project(self.0.id, Node::MapListItem(MapListItem { src_view: None, f, cast: cast }), true);
        OuterViewPort(ViewPort { id: port, shape: List })
    }
}

} // verus!
