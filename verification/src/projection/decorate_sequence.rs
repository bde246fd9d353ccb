//! Sequences with brackets around them, or a delimiter between their items.
use vstd::prelude::*;
use crate::graph::{sat_add, Graph, Node};
use crate::projection::projection_helper::ArgHandler;
use crate::view::port::{OuterViewPort, ViewPort};
use crate::view::sequence::Sequence;
use crate::projection::projection_helper::ProjectionHelper;
use crate::projection::vec2seq::one_msg;
use crate::view::Msg;

verus! {

/// The items of a sequence between an opening and a closing item.
pub struct Wrapped<T> {
    pub opening: T,
    pub closing: T,
    pub items: usize,
    pub cast: usize,
    pub proj_helper: ProjectionHelper,
}

/// The items of a sequence with a delimiter between each two of them.
pub struct Separated<T> {
    pub delimiter: T,
    pub items: usize,
    pub cast: usize,
    pub proj_helper: ProjectionHelper,
}

/// The messages of a wrapped sequence whose source changed at `idx`: the
/// index behind the opening item, and the one after it.  An index that is
/// too large for a number is left out.
pub open spec fn wrap_msgs<T>(idx: usize) -> Seq<Msg<T>> {
    (if idx + 1 <= usize::MAX {
        seq![Msg::<T>::Index((idx + 1) as usize)]
    } else {
        Seq::empty()
    }) + (if idx + 2 <= usize::MAX {
        seq![Msg::<T>::Index((idx + 2) as usize)]
    } else {
        Seq::empty()
    })
}

/// The messages of a separated sequence whose source changed at `idx`: the
/// place of the item, and the place of the delimiter before it if there is
/// one.  An index that is too large for a number is left out.
pub open spec fn separate_msgs<T>(idx: usize) -> Seq<Msg<T>> {
    if idx * 2 <= usize::MAX {
        seq![Msg::<T>::Index((idx * 2) as usize)] + (if idx > 0 {
            seq![Msg::<T>::Index((idx * 2 - 1) as usize)]
        } else {
            Seq::empty()
        })
    } else {
        Seq::empty()
    }
}

/// The messages of [`wrap_msgs`].
pub fn wrap_dirty<T>(idx: usize) -> (out: Vec<Msg<T>>)
    ensures
        out@ == wrap_msgs::<T>(idx),
{
    let mut out: Vec<Msg<T>> = Vec::new();
    if idx < usize::MAX {
        out.push(Msg::Index(idx + 1));
        if idx + 1 < usize::MAX {
            out.push(Msg::Index(idx + 2));
        }
    }
    proof {
        assert(out@ =~= wrap_msgs::<T>(idx));
    }
    out
}

/// The messages of [`separate_msgs`].
pub fn separate_dirty<T>(idx: usize) -> (out: Vec<Msg<T>>)
    ensures
        out@ == separate_msgs::<T>(idx),
{
    let mut out: Vec<Msg<T>> = Vec::new();
    if idx <= usize::MAX / 2 {
        out.push(Msg::Index(idx * 2));
        if idx > 0 {
            out.push(Msg::Index(idx * 2 - 1));
        }
    }
    proof {
        assert(out@ =~= separate_msgs::<T>(idx));
    }
    out
}

/// The length of a sequence of `len` items between two brackets.
pub open spec fn wrapped_len(len: Option<usize>) -> Option<usize> {
    match len {
        Some(len) => Some(sat_add(len, 2)),
        None => None,
    }
}

/// The length of a sequence of `len` items with a delimiter between each
/// two.
pub open spec fn separated_len(len: Option<usize>) -> Option<usize> {
    match len {
        Some(len) => Some(
            if len == 0 {
                0usize
            } else if len * 2 - 1 <= usize::MAX {
                (len * 2 - 1) as usize
            } else {
                usize::MAX
            },
        ),
        None => None,
    }
}

/// What stands at an index of a decorated sequence.
pub enum Place<T> {
    /// An item of the decoration itself.
    Fixed(T),
    /// The item of the source at this index.
    Source(usize),
    /// Nothing.
    Outside,
}

/// What stands at `idx` of a sequence of `len` items between `opening` and
/// `closing`.  Where the length is not known, nothing stands anywhere.
pub open spec fn wrapped_place<T>(opening: T, closing: T, len: Option<usize>, idx: usize) -> Place<
    T,
> {
    match len {
        Some(len) => if idx < sat_add(len, 2) {
            if idx == 0 {
                Place::Fixed(opening)
            } else if idx < sat_add(len, 1) {
                Place::Source((idx - 1) as usize)
            } else {
                Place::Fixed(closing)
            }
        } else {
            Place::Outside
        },
        None => Place::Outside,
    }
}

/// What stands at `idx` of a sequence of `len` items with `delimiter`
/// between each two.  Where the length is not known, it counts as the
/// largest number.
pub open spec fn separated_place<T>(delimiter: T, len: Option<usize>, idx: usize) -> Place<T> {
    let len = match len {
        Some(len) => len,
        None => usize::MAX,
    };
    if idx + 1 < len * 2 {
        if idx % 2 == 0 {
            Place::Source(idx / 2)
        } else {
            Place::Fixed(delimiter)
        }
    } else {
        Place::Outside
    }
}

impl<T: Copy> Wrapped<T> {
    /// The length, given the length `len` of the source.
    pub fn len(&self, len: Option<usize>) -> (r: Option<usize>)
        ensures
            r == wrapped_len(len),
    {
        match len {
            Some(len) => Some(
                if len <= usize::MAX - 2 {
                    len + 2
                } else {
                    usize::MAX
                },
            ),
            None => None,
        }
    }

    /// What stands at `idx`, given the length `len` of the source.
    pub fn get(&self, len: Option<usize>, idx: usize) -> (r: Place<T>)
        ensures
            r == wrapped_place(self.opening, self.closing, len, idx),
    {
        match len {
            Some(len) => {
                let end = if len <= usize::MAX - 2 {
                    len + 2
                } else {
                    usize::MAX
                };
                let last = if len <= usize::MAX - 1 {
                    len + 1
                } else {
                    usize::MAX
                };
                if idx < end {
                    if idx == 0 {
                        Place::Fixed(self.opening)
                    } else if idx < last {
                        Place::Source(idx - 1)
                    } else {
                        Place::Fixed(self.closing)
                    }
                } else {
                    Place::Outside
                }
            },
            None => Place::Outside,
        }
    }
}

impl<T: Copy> Separated<T> {
    /// The length, given the length `len` of the source.
    pub fn len(&self, len: Option<usize>) -> (r: Option<usize>)
        ensures
            r == separated_len(len),
    {
        match len {
            Some(len) => Some(
                if len == 0 {
                    0
                } else if len <= usize::MAX / 2 {
                    len * 2 - 1
                } else {
                    usize::MAX
                },
            ),
            None => None,
        }
    }

    /// What stands at `idx`, given the length `len` of the source.
    pub fn get(&self, len: Option<usize>, idx: usize) -> (r: Place<T>)
        ensures
            r == separated_place(self.delimiter, len, idx),
    {
        let len = match len {
            Some(len) => len,
            None => usize::MAX,
        };
        let half = usize::MAX / 2;
        let inside = if len <= half {
            idx < usize::MAX && idx + 1 < len * 2
        } else {
            idx < usize::MAX || len > half + 1
        };
        if inside {
            if idx % 2 == 0 {
                Place::Source(idx / 2)
            } else {
                Place::Fixed(self.delimiter)
            }
        } else {
            Place::Outside
        }
    }
}


/// Sequences that can be put between brackets.
pub trait Wrap<T, F, P> {
    spec fn wrappable(&self, g: &Graph<T, F, P>) -> bool;

    /// What it means that this sequence of `pre` was wrapped and `post` is
    /// the outcome.
    spec fn wrapped(
        &self,
        pre: &Graph<T, F, P>,
        post: &Graph<T, F, P>,
        opening: T,
        closing: T,
    ) -> bool;

    /// The items of this sequence between `opening` and `closing`, on a new
    /// port.
    fn wrap(&self, g: &mut Graph<T, F, P>, opening: T, closing: T) -> (port: OuterViewPort<
        Sequence,
    >)
        requires
            self.wrappable(old(g)),
        ensures
            self.wrapped(old(g), final(g), opening, closing),
    ;
}

/// Sequences that can be interleaved with a delimiter.
pub trait Separate<T, F, P> {
    spec fn separable(&self, g: &Graph<T, F, P>) -> bool;

    /// What it means that this sequence of `pre` was separated and `post`
    /// is the outcome.
    spec fn separated(&self, pre: &Graph<T, F, P>, post: &Graph<T, F, P>, delimiter: T) -> bool;

    /// The items of this sequence with `delimiter` between each two, on a
    /// new port.
    fn separate(&self, g: &mut Graph<T, F, P>, delimiter: T) -> (port: OuterViewPort<Sequence>)
        requires
            self.separable(old(g)),
        ensures
            self.separated(old(g), final(g), delimiter),
    ;
}

impl<T: Copy, F: Fn(&T) -> T, P: Fn(&T) -> bool> Wrap<T, F, P> for OuterViewPort<Sequence> {
    open spec fn wrappable(&self, g: &Graph<T, F, P>) -> bool {
        &&& g.wf()
        &&& self.0.valid(g)
        &&& g.ports@.len() + 1 < usize::MAX
    }

    open spec fn wrapped(
        &self,
        pre: &Graph<T, F, P>,
        post: &Graph<T, F, P>,
        opening: T,
        closing: T,
    ) -> bool {
        let out = pre.ports@.len() as usize;
        &&& post.wf()
        &&& post.ports@.len() == out + 1
        &&& post.view_of(out) == Some(pre.nodes@.len() as usize)
        &&& exists|mid: Graph<T, F, P>, w: Wrapped<T>|
            #[trigger] post.installed(&mid, self.0.id, out, Node::Wrapped(w), 0, ArgHandler::Wrap)
                && mid.nodes@ == pre.nodes@ && mid.alive@ == pre.alive@ && mid.ports@.len() == out
                + 1 && w.opening == opening && w.closing == closing && w.items == self.0.id
                && w.cast == out
    }

    fn wrap(&self, g: &mut Graph<T, F, P>, opening: T, closing: T) -> (port: OuterViewPort<
        Sequence,
    >) {
        let port = ViewPort::<Sequence>::new(g);
        let ghost mid = *g;
        let w = Wrapped {
            opening,
            closing,
            items: self.0.id,
            cast: port.id,
            proj_helper: ProjectionHelper::new(port.id),
        };
        let ghost made = w;
        g.install(self.0.id, port.id, Node::Wrapped(w), 0, ArgHandler::Wrap);
        proof {
            assert(g.installed(
                &mid,
                self.0.id,
                port.id,
                Node::Wrapped(made),
                0,
                ArgHandler::Wrap,
            ));
        }
        port.into_outer()
    }
}

impl<T: Copy, F: Fn(&T) -> T, P: Fn(&T) -> bool> Separate<T, F, P> for OuterViewPort<Sequence> {
    open spec fn separable(&self, g: &Graph<T, F, P>) -> bool {
        &&& g.wf()
        &&& self.0.valid(g)
        &&& g.ports@.len() + 1 < usize::MAX
    }

    open spec fn separated(&self, pre: &Graph<T, F, P>, post: &Graph<T, F, P>, delimiter: T) -> bool {
        let out = pre.ports@.len() as usize;
        &&& post.wf()
        &&& post.ports@.len() == out + 1
        &&& post.view_of(out) == Some(pre.nodes@.len() as usize)
        &&& exists|mid: Graph<T, F, P>, s: Separated<T>|
            #[trigger] post.installed(
                &mid,
                self.0.id,
                out,
                Node::Separated(s),
                0,
                ArgHandler::Separate,
            ) && mid.nodes@ == pre.nodes@ && mid.alive@ == pre.alive@ && mid.ports@.len() == out + 1
                && s.delimiter == delimiter && s.items == self.0.id && s.cast == out
    }

    fn separate(&self, g: &mut Graph<T, F, P>, delimiter: T) -> (port: OuterViewPort<Sequence>) {
        let port = ViewPort::<Sequence>::new(g);
        let ghost mid = *g;
        let s = Separated {
            delimiter,
            items: self.0.id,
            cast: port.id,
            proj_helper: ProjectionHelper::new(port.id),
        };
        let ghost made = s;
        g.install(self.0.id, port.id, Node::Separated(s), 0, ArgHandler::Separate);
        proof {
            assert(g.installed(
                &mid,
                self.0.id,
                port.id,
                Node::Separated(made),
                0,
                ArgHandler::Separate,
            ));
        }
        port.into_outer()
    }
}

} // verus!
