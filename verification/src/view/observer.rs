//! Observers and the broadcast that fans messages out to them.
use vstd::prelude::*;
use crate::graph::{opt_ok, Graph};
use crate::view::Msg;
use crate::view::channel::{channel, ChannelData, ChannelReceiver, ChannelSender};

verus! {

/// A registered observer: the node that is told of resets and changes.  The
/// reference is weak: it does not keep the node alive.
#[derive(Clone, Copy)]
pub struct ObserverRef {
    pub node: usize,
}

/// For each node, whether `alive` still has it.  A node that the table does
/// not know is not alive.
pub open spec fn is_live(alive: Seq<bool>, node: usize) -> bool {
    node < alive.len() && alive[node as int]
}

/// Fans messages out to a list of observers.  Messages are queued by
/// `notify` and delivered when the port that owns the broadcast is updated.
pub struct ObserverBroadcast<T> {
    pub rx: ChannelReceiver<Vec<Msg<T>>>,
    pub tx: ChannelSender,
    pub observers: Vec<usize>,
}

impl<T: Copy> ObserverBroadcast<T> {
    /// The messages that wait for the next update, oldest first.
    pub open spec fn pending(&self) -> Seq<Msg<T>> {
        self.rx.pending()
    }

    /// The registered observers that are still alive, in the order of their
    /// registration.
    pub open spec fn live(&self, alive: Seq<bool>) -> Seq<usize> {
        self.observers@.filter(|o: usize| is_live(alive, o))
    }

    /// A broadcast without subscribers and with nothing pending.
    pub fn new() -> (cast: Self)
        ensures
            cast.pending() == Seq::<Msg<T>>::empty(),
            cast.rx.send_buf.is_none(),
            cast.rx.num_senders == 1,
            cast.observers@ == Seq::<usize>::empty(),
    {
        let (tx, rx) = channel::<Vec<Msg<T>>>();
        ObserverBroadcast { rx, tx, observers: Vec::new() }
    }

    /// Drops the registrations of observers that are no longer alive.
    pub fn cleanup(&mut self, alive: &Vec<bool>)
        ensures
            final(self).observers@ == old(self).live(alive@),
            final(self).rx == old(self).rx,
            final(self).tx == old(self).tx,
    {
        let mut kept: Vec<usize> = Vec::new();
        let mut i: usize = 0;
        while i < self.observers.len()
            invariant
                i <= self.observers@.len(),
                kept@ == self.observers@.subrange(0, i as int).filter(
                    |o: usize| is_live(alive@, o),
                ),
            decreases self.observers@.len() - i,
        {
            let o = self.observers[i];
            proof {
                let pre = self.observers@.subrange(0, i as int);
                let cur = self.observers@.subrange(0, i as int + 1);
                assert(cur.drop_last() =~= pre);
                assert(cur.last() == o);
                reveal(Seq::filter);
            }
            if o < alive.len() && alive[o] {
                kept.push(o);
            }
            i += 1;
        }
        proof {
            assert(self.observers@.subrange(0, i as int) =~= self.observers@);
        }
        self.observers = kept;
    }

    /// Registers `obs`, after dropping the registrations that are dead.
    pub fn add_observer(&mut self, obs: ObserverRef, alive: &Vec<bool>)
        ensures
            final(self).observers@ == old(self).live(alive@).push(obs.node),
            final(self).rx == old(self).rx,
            final(self).tx == old(self).tx,
    {
        self.cleanup(alive);
        self.observers.push(obs.node);
    }

    /// The observers that a message goes to now: the registered ones that are
    /// alive.
    pub fn iter(&self, alive: &Vec<bool>) -> (live: Vec<usize>)
        ensures
            live@ == self.live(alive@),
    {
        let mut live: Vec<usize> = Vec::new();
        let mut i: usize = 0;
        while i < self.observers.len()
            invariant
                i <= self.observers@.len(),
                live@ == self.observers@.subrange(0, i as int).filter(
                    |o: usize| is_live(alive@, o),
                ),
            decreases self.observers@.len() - i,
        {
            let o = self.observers[i];
            proof {
                let pre = self.observers@.subrange(0, i as int);
                let cur = self.observers@.subrange(0, i as int + 1);
                assert(cur.drop_last() =~= pre);
                assert(cur.last() == o);
                reveal(Seq::filter);
            }
            if o < alive.len() && alive[o] {
                live.push(o);
            }
            i += 1;
        }
        proof {
            assert(self.observers@.subrange(0, i as int) =~= self.observers@);
        }
        live
    }

    /// Queues `msg` for the next update.
    pub fn notify(&mut self, msg: Msg<T>)
        ensures
            final(self).pending() == old(self).pending().push(msg),
            final(self).rx.num_senders == old(self).rx.num_senders,
            final(self).tx == old(self).tx,
            final(self).observers == old(self).observers,
    {
        self.tx.send(&mut self.rx, msg);
    }

    /// Queues one index message for each index below `end`, from `start` on.
    pub fn notify_each(&mut self, start: usize, end: usize)
        ensures
            final(self).pending() == old(self).pending() + index_msgs::<T>(start, end),
            final(self).rx.num_senders == old(self).rx.num_senders,
            final(self).tx == old(self).tx,
            final(self).observers == old(self).observers,
    {
        let mut i: usize = start;
        proof {
            assert(index_msgs::<T>(start, start) =~= Seq::<Msg<T>>::empty());
            assert(self.pending() + Seq::<Msg<T>>::empty() =~= self.pending());
        }
        while i < end
            invariant
                start <= i,
                i <= end || i == start,
                self.pending() == old(self).pending() + index_msgs::<T>(start, i),
                self.rx.num_senders == old(self).rx.num_senders,
                self.tx == old(self).tx,
                self.observers == old(self).observers,
            decreases end - i,
        {
            self.notify(Msg::Index(i));
            proof {
                assert(index_msgs::<T>(start, (i + 1) as usize) =~= index_msgs::<T>(
                    start,
                    i,
                ).push(Msg::Index(i)));
                assert((old(self).pending() + index_msgs::<T>(start, i)).push(Msg::Index(i))
                    =~= old(self).pending() + index_msgs::<T>(start, (i + 1) as usize));
            }
            i += 1;
        }
        proof {
            if start >= end {
                assert(index_msgs::<T>(start, i) =~= index_msgs::<T>(start, end));
            }
        }
    }

    /// Takes the queued messages out, oldest first.
    pub fn drain(&mut self) -> (msgs: Vec<Msg<T>>)
        ensures
            msgs@ == old(self).pending(),
            final(self).pending() == Seq::<Msg<T>>::empty(),
            final(self).rx.send_buf.is_none(),
            final(self).rx.num_senders == old(self).rx.num_senders,
            final(self).tx == old(self).tx,
            final(self).observers == old(self).observers,
    {
        match self.rx.try_recv() {
            Some(buf) => buf.into_items(),
            None => Vec::new(),
        }
    }
}

/// The index messages for `start`, `start + 1` and so on below `end`.
pub open spec fn index_msgs<T>(start: usize, end: usize) -> Seq<Msg<T>> {
    Seq::new(
        if end >= start {
            (end - start) as nat
        } else {
            0
        },
        |k: int| Msg::Index((start + k) as usize),
    )
}


/// An observer that keeps every message it is told of, for its owner to
/// read.  A reset leaves it as it is.
pub struct NotifyFnObserver<T> {
    pub received: Vec<Msg<T>>,
}

impl<T> NotifyFnObserver<T> {
    /// An observer that has been told of nothing.
    pub fn new() -> (obs: Self)
        ensures
            obs.received@ == Seq::<Msg<T>>::empty(),
    {
        NotifyFnObserver { received: Vec::new() }
    }

    /// Keeps `msg`.
    pub fn notify(&mut self, msg: Msg<T>)
        ensures
            final(self).received@ == old(self).received@.push(msg),
    {
        self.received.push(msg);
    }
}

/// An observer that keeps every view it is rebound to, for its owner to
/// read.  A message leaves it as it is.
pub struct ResetFnObserver {
    pub views: Vec<Option<usize>>,
}

impl ResetFnObserver {
    /// An observer that has been rebound to nothing.
    pub fn new() -> (obs: Self)
        ensures
            obs.views@ == Seq::<Option<usize>>::empty(),
    {
        ResetFnObserver { views: Vec::new() }
    }

    /// Keeps `view`.
    pub fn reset(&mut self, view: Option<usize>)
        ensures
            final(self).views@ == old(self).views@.push(view),
    {
        self.views.push(view);
    }
}


/// A message goes to no observer that is dropped: an observer that is not
/// alive is not among those that a broadcast delivers to, and every observer
/// that it delivers to is registered and alive.
pub proof fn lemma_dropped_gets_nothing<T: Copy>(
    cast: ObserverBroadcast<T>,
    alive: Seq<bool>,
    obs: usize,
)
    ensures
        !is_live(alive, obs) ==> !cast.live(alive).contains(obs),
        cast.live(alive).contains(obs) ==> cast.observers@.contains(obs) && is_live(alive, obs),
{
    if cast.live(alive).contains(obs) {
        cast.observers@.lemma_filter_contains_rev(|o: usize| is_live(alive, o), obs);
    }
}


/// The contract of a subscriber: a reset when the upstream view is replaced,
/// a notification for each change.
pub trait Observer<T: Copy, F: Fn(&T) -> T, P: Fn(&T) -> bool>: Sized {
    /// What it means that this observer in `pre` was rebound to `view` and
    /// `post` is the outcome.
    spec fn rebound(&self, pre: &Graph<T, F, P>, post: &Graph<T, F, P>, view: Option<usize>) -> bool;

    /// What it means that this observer in `pre` was told of `msg` and
    /// `post` is the outcome.
    spec fn told(&self, pre: &Graph<T, F, P>, post: &Graph<T, F, P>, msg: Msg<T>) -> bool;

    /// The upstream view was replaced by `view`, or by none: what the
    /// observer keeps of it is brought up to date at once.
    fn reset(&mut self, g: &mut Graph<T, F, P>, view: Option<usize>)
        requires
            old(g).wf(),
            opt_ok(view, old(g).nodes@.len()),
        ensures
            *final(self) == *old(self),
            final(g).wf(),
            final(g).extends(old(g)),
            old(self).rebound(old(g), final(g), view),
    ;

    /// The upstream view changed as `msg` says.
    fn notify(&mut self, g: &mut Graph<T, F, P>, msg: &Msg<T>)
        requires
            old(g).wf(),
        ensures
            *final(self) == *old(self),
            final(g).wf(),
            final(g).extends(old(g)),
            old(self).told(old(g), final(g), *msg),
    ;
}

impl<T: Copy, F: Fn(&T) -> T, P: Fn(&T) -> bool> Observer<T, F, P> for ObserverRef {
    open spec fn rebound(&self, pre: &Graph<T, F, P>, post: &Graph<T, F, P>, view: Option<usize>) -> bool {
        post.was_reset(pre, self.node, view)
    }

    open spec fn told(&self, pre: &Graph<T, F, P>, post: &Graph<T, F, P>, msg: Msg<T>) -> bool {
        post.notified(pre, self.node, msg)
    }

    fn reset(&mut self, g: &mut Graph<T, F, P>, view: Option<usize>) {
        g.reset_node(self.node, view);
    }

    fn notify(&mut self, g: &mut Graph<T, F, P>, msg: &Msg<T>) {
        g.notify_node(self.node, *msg);
    }
}

/// Runs of notifications.
pub trait ObserverExt<T: Copy, F: Fn(&T) -> T, P: Fn(&T) -> bool>: Observer<T, F, P> {
    /// What it means that this observer in `pre` was told of each of `msgs`,
    /// in their order, and `post` is the outcome.
    spec fn told_each(&self, pre: &Graph<T, F, P>, post: &Graph<T, F, P>, msgs: Seq<Msg<T>>) -> bool;

    /// Tells the observer of each of `it`, in their order.
    fn notify_each(&mut self, g: &mut Graph<T, F, P>, it: Vec<Msg<T>>)
        requires
            old(g).wf(),
        ensures
            *final(self) == *old(self),
            final(g).wf(),
            final(g).extends(old(g)),
            old(self).told_each(old(g), final(g), it@),
    ;
}

/// What it means that the node `obs` of `pre` was told of each of `msgs`, in
/// their order, and `post` is the outcome.
pub open spec fn notified_each<T: Copy, F: Fn(&T) -> T, P: Fn(&T) -> bool>(
    post: &Graph<T, F, P>,
    pre: &Graph<T, F, P>,
    obs: usize,
    msgs: Seq<Msg<T>>,
) -> bool
    decreases msgs.len(),
{
    if msgs.len() == 0 {
        post.same(pre)
    } else {
        exists|mid: Graph<T, F, P>|
            notified_each(&mid, pre, obs, msgs.drop_last()) && #[trigger] post.notified(
                &mid,
                obs,
                msgs.last(),
            )
    }
}

impl<T: Copy, F: Fn(&T) -> T, P: Fn(&T) -> bool> ObserverExt<T, F, P> for ObserverRef {
    open spec fn told_each(&self, pre: &Graph<T, F, P>, post: &Graph<T, F, P>, msgs: Seq<Msg<T>>) -> bool {
        notified_each(post, pre, self.node, msgs)
    }

    fn notify_each(&mut self, g: &mut Graph<T, F, P>, it: Vec<Msg<T>>) {
        let mut i: usize = 0;
        while i < it.len()
            invariant
                i <= it@.len(),
                *self == *old(self),
                g.wf(),
                g.extends(old(g)),
                notified_each(g, old(g), self.node, it@.subrange(0, i as int)),
            decreases it@.len() - i,
        {
            let ghost mid = *g;
            g.notify_node(self.node, it[i]);
            proof {
                let now = it@.subrange(0, i as int + 1);
                assert(now.drop_last() =~= it@.subrange(0, i as int));
                assert(now.last() == it@[i as int]);
                assert(notified_each(&mid, old(g), self.node, now.drop_last()));
                assert(g.notified(&mid, self.node, now.last()));
            }
            i += 1;
        }
        proof {
            assert(it@.subrange(0, i as int) =~= it@);
        }
    }
}

} // verus!
