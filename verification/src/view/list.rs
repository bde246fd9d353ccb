//! Lists: sequences that announce each change as a positional diff.
use vstd::prelude::*;
use crate::graph::Graph;
use crate::view::{Msg, Shape, ViewRef, ViewShape};

verus! {

/// One mutation of a list.
#[derive(Clone, Copy)]
pub enum ListDiff<T> {
    Clear,
    Remove(usize),
    Insert { idx: usize, val: T },
    Update { idx: usize, val: T },
}

/// The shape of list views.
#[derive(Clone, Copy)]
pub struct List;

/// The contents of a list after `diff`.  A diff that names a position outside
/// the list leaves it as it is.
pub open spec fn apply_list_diff<T>(items: Seq<T>, diff: ListDiff<T>) -> Seq<T> {
    match diff {
        ListDiff::Clear => Seq::empty(),
        ListDiff::Remove(idx) => if idx < items.len() {
            items.remove(idx as int)
        } else {
            items
        },
        ListDiff::Insert { idx, val } => if idx <= items.len() {
            items.insert(idx as int, val)
        } else {
            items
        },
        ListDiff::Update { idx, val } => if idx < items.len() {
            items.update(idx as int, val)
        } else {
            items
        },
    }
}


impl<T> ViewShape<T> for List {
    type Msg = ListDiff<T>;

    open spec fn message(msg: ListDiff<T>) -> Msg<T> {
        Msg::List(msg)
    }

    open spec fn shape() -> Shape {
        Shape::List
    }

    fn wrap(msg: ListDiff<T>) -> (m: Msg<T>) {
        Msg::List(msg)
    }

    fn marker() -> (r: (Self, Shape)) {
        (List, Shape::List)
    }
}

/// Read access to a list in a graph.
pub trait ListView<T, F, P>: Sized {
    /// The item at `idx`, as the graph `g` has it.
    spec fn item_at(&self, g: &Graph<T, F, P>, idx: usize) -> Option<T>;

    /// The length, as the graph `g` has it; none where it is not known.
    spec fn length(&self, g: &Graph<T, F, P>) -> Option<usize>;

    spec fn readable(g: &Graph<T, F, P>) -> bool;

    fn len(&self, g: &Graph<T, F, P>) -> (r: Option<usize>)
        requires
            Self::readable(g),
        ensures
            r == self.length(g),
    ;

    fn get(&self, g: &Graph<T, F, P>, idx: &usize) -> (r: Option<T>)
        requires
            Self::readable(g),
        ensures
            r == self.item_at(g, *idx),
    ;
}

impl<T: Copy, F: Fn(&T) -> T, P: Fn(&T) -> bool> ListView<T, F, P> for ViewRef<List> {
    open spec fn item_at(&self, g: &Graph<T, F, P>, idx: usize) -> Option<T> {
        g.list_get_at(self.node, idx, g.depth())
    }

    open spec fn length(&self, g: &Graph<T, F, P>) -> Option<usize> {
        g.list_len_at(self.node, g.depth())
    }

    open spec fn readable(g: &Graph<T, F, P>) -> bool {
        g.wf()
    }

    fn len(&self, g: &Graph<T, F, P>) -> (r: Option<usize>) {
        g.list_len(self.node, g.nodes.len())
    }

    fn get(&self, g: &Graph<T, F, P>, idx: &usize) -> (r: Option<T>) {
        g.list_get(self.node, *idx, g.nodes.len())
    }
}

/// A list that may be missing: without a view there is no item, and the
/// length is not known.
impl<T: Copy, F: Fn(&T) -> T, P: Fn(&T) -> bool> ListView<T, F, P> for Option<ViewRef<List>> {
    open spec fn item_at(&self, g: &Graph<T, F, P>, idx: usize) -> Option<T> {
        match *self {
            Some(view) => g.list_get_at(view.node, idx, g.depth()),
            None => None,
        }
    }

    open spec fn length(&self, g: &Graph<T, F, P>) -> Option<usize> {
        match *self {
            Some(view) => g.list_len_at(view.node, g.depth()),
            None => None,
        }
    }

    open spec fn readable(g: &Graph<T, F, P>) -> bool {
        g.wf()
    }

    fn len(&self, g: &Graph<T, F, P>) -> (r: Option<usize>) {
        match self {
            Some(view) => g.list_len(view.node, g.nodes.len()),
            None => None,
        }
    }

    fn get(&self, g: &Graph<T, F, P>, idx: &usize) -> (r: Option<T>) {
        match self {
            Some(view) => g.list_get(view.node, *idx, g.nodes.len()),
            None => None,
        }
    }
}

/// A walk along a list from its start.
pub struct ListViewIter<V> {
    pub view: V,
    pub cur: usize,
}

impl<V> ListViewIter<V> {
    /// The item at the place of the walk, which moves on by one.  The walk
    /// stays at the largest index.
    pub fn next<T, F, P>(&mut self, g: &Graph<T, F, P>) -> (r: Option<T>) where V: ListView<T, F, P>
        requires
            V::readable(g),
        ensures
            r == old(self).view.item_at(g, old(self).cur),
            final(self).view == old(self).view,
            final(self).cur == if old(self).cur < usize::MAX {
                old(self).cur + 1
            } else {
                usize::MAX as int
            },
    {
        let i = self.cur;
        if self.cur < usize::MAX {
            self.cur = self.cur + 1;
        }
        self.view.get(g, &i)
    }
}

/// Walks along lists.
pub trait ListViewExt: Copy + Sized {
    /// A walk from the start of the list.
    fn iter(&self) -> (it: ListViewIter<Self>)
        ensures
            it.view == *self,
            it.cur == 0,
    ;
}

impl ListViewExt for ViewRef<List> {
    fn iter(&self) -> (it: ListViewIter<Self>) {
        ListViewIter { view: *self, cur: 0 }
    }
}

} // verus!
