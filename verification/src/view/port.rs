//! Ports: the cell between the owner of a view and its consumers.
use vstd::prelude::*;
use crate::graph::{lemma_node_wf_grows, opt_ok, Graph, Node};
use crate::projection::projection_helper::ProjectionArg;
use crate::projection::vec2seq::one_msg;
use crate::view::{Msg, Shape, ViewCell, ViewRef, ViewShape};
use crate::view::observer::{
    is_live, NotifyFnObserver, ObserverBroadcast, ObserverRef, ResetFnObserver,
};

verus! {

/// A task that a port runs before its own pending messages count as current.
#[derive(Clone, Copy)]
pub enum Hook {
    /// Pull this port.
    Port(usize),
    /// Drain the channel of this projection argument into its projection.
    Arg(usize),
}

/// The shared cell of a port: the view that is published now, the broadcast
/// to the subscribers, and the tasks to run before an update.
pub struct PortState<T> {
    pub view: Option<usize>,
    pub cast: ObserverBroadcast<T>,
    pub update_hooks: Vec<Hook>,
}

/// A port of view shape `V`.
#[derive(Clone, Copy)]
pub struct ViewPort<V> {
    pub id: usize,
    pub shape: V,
}

/// The owner's facet of a port: publish a view, emit diffs.
#[derive(Clone, Copy)]
pub struct InnerViewPort<V>(pub ViewPort<V>);

/// The consumers' facet of a port: read the view, subscribe.
#[derive(Clone, Copy)]
pub struct OuterViewPort<V>(pub ViewPort<V>);


impl<T: Copy, F: Fn(&T) -> T, P: Fn(&T) -> bool> Graph<T, F, P> {
    /// `self` has as many ports as `pre` and at least as many nodes, and
    /// every node of `pre` is of the same kind in `self`.
    pub open spec fn sized(&self, pre: &Self) -> bool {
        &&& self.ports@.len() == pre.ports@.len()
        &&& self.nodes@.len() >= pre.nodes@.len()
        &&& forall|n: int|
            0 <= n < pre.nodes@.len() ==> (#[trigger] self.nodes@[n]).kind() == pre.nodes@[n].kind()
    }

    /// `self` has as many ports as `pre`, each with the view it publishes in
    /// `pre`, and at least as many nodes.
    pub open spec fn extends(&self, pre: &Self) -> bool {
        &&& self.sized(pre)
        &&& forall|q: int|
            0 <= q < self.ports@.len() ==> (#[trigger] self.ports@[q]).view == pre.ports@[q].view
    }

    /// What it means that the nodes `observers` of `pre` were rebound to
    /// `view`, one after the other, and `self` is the outcome.
    pub open spec fn reset_all(&self, pre: &Self, observers: Seq<usize>, view: Option<usize>) -> bool
        decreases observers.len(),
    {
        if observers.len() == 0 {
            self.same(pre)
        } else {
            exists|mid: Self|
                mid.reset_all(pre, observers.drop_last(), view) && #[trigger] self.was_reset(
                    &mid,
                    observers.last(),
                    view,
                )
        }
    }

    /// Rebinds every live subscriber of `port` to `view`, in the order of
    /// their registration.
    pub fn broadcast_reset(&mut self, port: usize, view: Option<usize>)
        requires
            old(self).wf(),
            opt_ok(view, old(self).nodes@.len()),
        ensures
            final(self).wf(),
            final(self).extends(old(self)),
            final(self).nodes@.len() == old(self).nodes@.len(),
            port < old(self).ports@.len() ==> final(self).reset_all(
                old(self),
                old(self).ports@[port as int].cast.live(old(self).alive@),
                view,
            ),
            port >= old(self).ports@.len() ==> final(self).same(old(self)),
            forall|k: int|
                0 <= k < old(self).nodes@.len() && old(self).is_leaf(k) && k + 1 == old(
                    self,
                ).nodes@.len() ==> final(self).nodes@[k] == old(self).nodes@[k],
    {
        if port >= self.ports.len() {
            return ;
        }
        let live = self.ports[port].cast.iter(&self.alive);
        proof {
            assert forall|j: int| 0 <= j < live@.len() implies #[trigger] live@[j]
                < self.nodes@.len() by {
                let all = self.ports@[port as int].cast.observers@;
                all.lemma_filter_contains_rev(|o: usize| is_live(self.alive@, o), live@[j]);
                let i = choose|i: int| 0 <= i < all.len() && all[i] == live@[j];
                assert(all[i] < self.nodes@.len());
            }
        }
        let mut i: usize = 0;
        while i < live.len()
            invariant
                i <= live@.len(),
                self.wf(),
                self.extends(old(self)),
                self.nodes@.len() == old(self).nodes@.len(),
                opt_ok(view, self.nodes@.len()),
                self.reset_all(old(self), live@.subrange(0, i as int), view),
                forall|j: int| 0 <= j < live@.len() ==> #[trigger] live@[j] < self.nodes@.len(),
                forall|k: int|
                    0 <= k < old(self).nodes@.len() && old(self).is_leaf(k) && k + 1 == old(
                        self,
                    ).nodes@.len() ==> self.nodes@[k] == old(self).nodes@[k],
            decreases live@.len() - i,
        {
            let ghost mid = *self;
            self.reset_node(live[i], view);
            proof {
                let now = live@.subrange(0, i as int + 1);
                assert(now.drop_last() =~= live@.subrange(0, i as int));
                assert(now.last() == live@[i as int]);
                assert(mid.reset_all(old(self), now.drop_last(), view));
                assert(self.was_reset(&mid, now.last(), view));
                assert(self.reset_all(old(self), now, view));
                self.lemma_reset_keeps_sizes(&mid, live@[i as int], view);
            }
            i += 1;
        }
        proof {
            assert(live@.subrange(0, i as int) =~= live@);
        }
    }

    /// A reset adds no port and no node.
    pub proof fn lemma_reset_keeps_sizes(&self, pre: &Self, obs: usize, view: Option<usize>)
        requires
            self.was_reset(pre, obs, view),
        ensures
            self.ports@.len() == pre.ports@.len(),
            self.nodes@.len() == pre.nodes@.len(),
            self.alive@ == pre.alive@,
    {
    }

    /// A notification adds no port and no node.
    pub proof fn lemma_notify_keeps_sizes(&self, pre: &Self, obs: usize, msg: Msg<T>)
        requires
            self.notified(pre, obs, msg),
        ensures
            self.ports@.len() == pre.ports@.len(),
            self.nodes@.len() == pre.nodes@.len(),
            self.alive@ == pre.alive@,
    {
    }

    /// What it means that the nodes `observers` of `pre` were told of `msg`,
    /// one after the other, and `self` is the outcome.
    pub open spec fn delivered(&self, pre: &Self, msg: Msg<T>, observers: Seq<usize>) -> bool
        decreases observers.len(),
    {
        if observers.len() == 0 {
            self.same(pre)
        } else {
            exists|mid: Self|
                mid.delivered(pre, msg, observers.drop_last()) && #[trigger] self.notified(
                    &mid,
                    observers.last(),
                    msg,
                )
        }
    }

    /// What it means that the nodes `observers` of `pre` were told of each of
    /// `msgs`, message by message, and `self` is the outcome.
    pub open spec fn delivered_all(&self, pre: &Self, msgs: Seq<Msg<T>>, observers: Seq<usize>) -> bool
        decreases msgs.len(),
    {
        if msgs.len() == 0 {
            self.same(pre)
        } else {
            exists|mid: Self|
                mid.delivered_all(pre, msgs.drop_last(), observers) && #[trigger] self.delivered(
                    &mid,
                    msgs.last(),
                    observers,
                )
        }
    }

    /// `self` is `pre`, but nothing is pending on `port`.
    pub open spec fn queue_taken(&self, pre: &Self, port: usize) -> bool {
        &&& self.nodes@ == pre.nodes@
        &&& self.alive@ == pre.alive@
        &&& self.ports@.len() == pre.ports@.len()
        &&& forall|q: int|
            0 <= q < self.ports@.len() && q != port ==> self.ports@[q] == pre.ports@[q]
        &&& port < self.ports@.len() ==> {
            let a = pre.ports@[port as int];
            let b = self.ports@[port as int];
            &&& b.view == a.view
            &&& b.update_hooks == a.update_hooks
            &&& b.cast.observers == a.cast.observers
            &&& b.cast.tx == a.cast.tx
            &&& b.cast.rx.num_senders == a.cast.rx.num_senders
            &&& b.cast.rx.send_buf.is_none()
        }
    }

    /// What it means that the pending messages of `port` were taken out and
    /// delivered, oldest first, each to every live subscriber in the order
    /// of registration, and `self` is the outcome.
    pub open spec fn drained(&self, pre: &Self, port: usize) -> bool {
        if port < pre.ports@.len() {
            exists|mid: Self|
                #[trigger] mid.queue_taken(pre, port) && self.delivered_all(
                    &mid,
                    pre.ports@[port as int].cast.pending(),
                    pre.ports@[port as int].cast.live(pre.alive@),
                )
        } else {
            self.same(pre)
        }
    }

    /// Tells each of `observers` of `msg`.
    pub fn deliver(&mut self, msg: Msg<T>, observers: &Vec<usize>)
        requires
            old(self).wf(),
        ensures
            final(self).wf(),
            final(self).nodes@.len() == old(self).nodes@.len(),
            final(self).ports@.len() == old(self).ports@.len(),
            final(self).alive@ == old(self).alive@,
            final(self).extends(old(self)),
            final(self).delivered(old(self), msg, observers@),
    {
        let mut i: usize = 0;
        while i < observers.len()
            invariant
                i <= observers@.len(),
                self.wf(),
                self.nodes@.len() == old(self).nodes@.len(),
                self.ports@.len() == old(self).ports@.len(),
                self.alive@ == old(self).alive@,
                self.extends(old(self)),
                self.delivered(old(self), msg, observers@.subrange(0, i as int)),
            decreases observers@.len() - i,
        {
            let ghost mid = *self;
            self.notify_node(observers[i], msg);
            proof {
                let now = observers@.subrange(0, i as int + 1);
                assert(now.drop_last() =~= observers@.subrange(0, i as int));
                assert(now.last() == observers@[i as int]);
                assert(mid.delivered(old(self), msg, now.drop_last()));
                assert(self.notified(&mid, now.last(), msg));
                assert(self.delivered(old(self), msg, now));
                self.lemma_notify_keeps_sizes(&mid, observers@[i as int], msg);
            }
            i += 1;
        }
        proof {
            assert(observers@.subrange(0, i as int) =~= observers@);
        }
    }

}


impl<T: Copy, F: Fn(&T) -> T, P: Fn(&T) -> bool> Graph<T, F, P> {
    /// What it means that `port` of `pre` was updated to the depth `fuel` and
    /// `self` is the outcome: its hooks ran in the order of registration,
    /// each one level less deep, then its pending messages were delivered.
    /// At depth zero nothing happens.
    pub open spec fn updated(&self, pre: &Self, port: usize, fuel: nat) -> bool
        decreases fuel, 6nat, 0nat,
    {
        if fuel == 0 || port >= pre.ports@.len() {
            self.same(pre)
        } else {
            exists|mid: Self|
                #[trigger] mid.extends(pre) && mid.hooks_ran(
                    pre,
                    pre.ports@[port as int].update_hooks@,
                    (fuel - 1) as nat,
                ) && self.drained(&mid, port)
        }
    }

    /// What it means that the tasks `hooks` ran on `pre`, one after the
    /// other, each to the depth `fuel`, and `self` is the outcome.
    pub open spec fn hooks_ran(&self, pre: &Self, hooks: Seq<Hook>, fuel: nat) -> bool
        decreases fuel, 7nat, hooks.len(),
    {
        if hooks.len() == 0 {
            self.same(pre)
        } else {
            exists|mid: Self|
                #[trigger] mid.extends(pre) && mid.hooks_ran(pre, hooks.drop_last(), fuel)
                    && match hooks.last() {
                    Hook::Port(q) => self.updated(&mid, q, fuel),
                    Hook::Arg(a) => self.arg_ran(&mid, a, fuel),
                }
        }
    }

    /// `self` is `pre`, but `obs` is registered on `port` behind the
    /// subscribers that are alive.
    pub open spec fn registered(&self, pre: &Self, port: usize, obs: usize) -> bool {
        &&& self.nodes@ == pre.nodes@
        &&& self.alive@ == pre.alive@
        &&& self.ports@.len() == pre.ports@.len()
        &&& forall|q: int|
            0 <= q < self.ports@.len() && q != port ==> self.ports@[q] == pre.ports@[q]
        &&& port < self.ports@.len() ==> {
            let a = pre.ports@[port as int];
            let b = self.ports@[port as int];
            &&& b.view == a.view
            &&& b.update_hooks == a.update_hooks
            &&& b.cast.rx == a.cast.rx
            &&& b.cast.tx == a.cast.tx
            &&& b.cast.observers@ == a.cast.live(pre.alive@).push(obs)
        }
    }

    /// What it means that the node `obs` subscribed to `port` of `pre` and
    /// `self` is the outcome: the port was updated one level less deep than
    /// `fuel`, then `obs` was rebound to the view that the port publishes,
    /// so that it starts up to date, then `obs` was registered.
    pub open spec fn observed(&self, pre: &Self, port: usize, obs: usize, fuel: nat) -> bool
        decreases fuel, 1nat, 0nat,
    {
        exists|m1: Self, m2: Self|
            #[trigger] m2.was_reset(&m1, obs, m1.view_of(port)) && (if fuel > 0 {
                m1.updated(pre, port, (fuel - 1) as nat)
            } else {
                m1.same(pre)
            }) && self.registered(&m2, port, obs)
    }

    /// Pulls `port` to the depth `fuel`.
    pub fn update_port(&mut self, port: usize, fuel: usize)
        requires
            old(self).wf(),
        ensures
            final(self).wf(),
            final(self).extends(old(self)),
            final(self).updated(old(self), port, fuel as nat),
        decreases fuel, 8nat,
    {
        if fuel == 0 || port >= self.ports.len() {
            return ;
        }
        let mut hooks: Vec<Hook> = Vec::new();
        let mut k: usize = 0;
        while k < self.ports[port].update_hooks.len()
            invariant
                port < self.ports@.len(),
                k <= self.ports@[port as int].update_hooks@.len(),
                hooks@ == self.ports@[port as int].update_hooks@.subrange(0, k as int),
            decreases self.ports@[port as int].update_hooks@.len() - k,
        {
            hooks.push(self.ports[port].update_hooks[k]);
            proof {
                let all = self.ports@[port as int].update_hooks@;
                assert(all.subrange(0, k as int).push(all[k as int]) =~= all.subrange(
                    0,
                    k as int + 1,
                ));
            }
            k += 1;
        }
        proof {
            let all = self.ports@[port as int].update_hooks@;
            assert(all.subrange(0, k as int) =~= all);
        }
        let mut i: usize = 0;
        while i < hooks.len()
            invariant
                fuel > 0,
                i <= hooks@.len(),
                self.wf(),
                self.extends(old(self)),
                self.hooks_ran(old(self), hooks@.subrange(0, i as int), (fuel - 1) as nat),
            decreases hooks@.len() - i,
        {
            let ghost mid = *self;
            match hooks[i] {
                Hook::Port(q) => {
                    self.update_port(q, fuel - 1);
                },
                Hook::Arg(a) => {
                    ProjectionArg::update(self, a, fuel - 1);
                },
            }
            proof {
                let now = hooks@.subrange(0, i as int + 1);
                assert(now.drop_last() =~= hooks@.subrange(0, i as int));
                assert(now.last() == hooks@[i as int]);
                assert(mid.extends(old(self)));
                assert(self.hooks_ran(old(self), now, (fuel - 1) as nat));
            }
            i += 1;
        }
        proof {
            assert(hooks@.subrange(0, i as int) =~= hooks@);
        }
        let ghost mid = *self;
        ObserverBroadcast::update(self, port);
        proof {
            assert(mid.extends(old(self)));
        }
    }

    /// Registers `obs` on `port`, behind the subscribers that are alive.
    pub fn register(&mut self, port: usize, obs: usize)
        requires
            old(self).wf(),
            obs < old(self).nodes@.len(),
        ensures
            final(self).wf(),
            final(self).extends(old(self)),
            final(self).registered(old(self), port, obs),
    {
        if port >= self.ports.len() {
            return ;
        }
        self.ports[port].cast.add_observer(ObserverRef { node: obs }, &self.alive);
        proof {
            let live = old(self).ports@[port as int].cast.live(old(self).alive@);
            let all = old(self).ports@[port as int].cast.observers@;
            assert forall|k: int| 0 <= k < live.len() implies #[trigger] live[k]
                < self.nodes@.len() by {
                all.lemma_filter_contains_rev(|o: usize| is_live(old(self).alive@, o), live[k]);
                let j = choose|j: int| 0 <= j < all.len() && all[j] == live[k];
                assert(all[j] < self.nodes@.len());
            }
            assert forall|p: int| 0 <= p < self.ports@.len() implies (#[trigger] self.ports@[p]).wf(
                self.ports@.len(),
                self.nodes@.len(),
            ) by {
                if p != port {
                    assert(self.ports@[p] == old(self).ports@[p]);
                }
            }
        }
    }

    /// Subscribes the node `obs` to `port`: the port is updated one level
    /// less deep than `fuel`, `obs` is rebound to the view that the port
    /// publishes, and `obs` is registered.
    pub fn observe(&mut self, port: usize, obs: usize, fuel: usize)
        requires
            old(self).wf(),
            obs < old(self).nodes@.len(),
        ensures
            final(self).wf(),
            final(self).extends(old(self)),
            final(self).observed(old(self), port, obs, fuel as nat),
        decreases fuel, 1nat,
    {
        if fuel > 0 {
            self.update_port(port, fuel - 1);
        }
        let ghost m1 = *self;
        let view = self.port_view(port);
        self.reset_node(obs, view);
        let ghost m2 = *self;
        self.register(port, obs);
        proof {
            assert(m2.was_reset(&m1, obs, m1.view_of(port)));
        }
    }
}


/// A task that brings part of a graph up to date.
pub trait UpdateTask<T: Copy, F: Fn(&T) -> T, P: Fn(&T) -> bool> {
    /// What it means that the task ran on `pre` and `post` is the outcome.
    spec fn ran(&self, pre: &Graph<T, F, P>, post: &Graph<T, F, P>) -> bool;

    fn update(&self, g: &mut Graph<T, F, P>)
        requires
            old(g).wf(),
        ensures
            final(g).wf(),
            final(g).extends(old(g)),
            self.ran(old(g), final(g)),
    ;
}

impl<T: Copy, F: Fn(&T) -> T, P: Fn(&T) -> bool> Graph<T, F, P> {
    /// The depth to which a port is pulled: enough for any chain of hooks
    /// that does not run in a circle.
    pub open spec fn reach(&self) -> nat {
        self.ports@.len()
    }

    /// `self` is `pre`, but `port` publishes `view`.
    pub open spec fn view_set(&self, pre: &Self, port: usize, view: Option<usize>) -> bool {
        &&& self.nodes@ == pre.nodes@
        &&& self.alive@ == pre.alive@
        &&& self.ports@.len() == pre.ports@.len()
        &&& forall|q: int|
            0 <= q < self.ports@.len() && q != port ==> self.ports@[q] == pre.ports@[q]
        &&& port < self.ports@.len() ==> {
            let a = pre.ports@[port as int];
            let b = self.ports@[port as int];
            &&& b.view == view
            &&& b.update_hooks == a.update_hooks
            &&& b.cast == a.cast
        }
    }

    /// What it means that `port` of `pre` published `view` and `self` is the
    /// outcome: the port was updated, the view was stored, and every live
    /// subscriber was rebound to it.
    pub open spec fn published(&self, pre: &Self, port: usize, view: Option<usize>) -> bool {
        exists|m1: Self, m2: Self|
            #[trigger] m2.view_set(&m1, port, view) && m1.updated(pre, port, pre.reach())
                && self.reset_all(&m2, m2.ports@[port as int].cast.live(m2.alive@), view)
    }

    /// `self` is `pre`, but `hook` closes the hook chain of `port`.
    pub open spec fn hooked(&self, pre: &Self, port: usize, hook: Hook) -> bool {
        &&& self.nodes@ == pre.nodes@
        &&& self.alive@ == pre.alive@
        &&& self.ports@.len() == pre.ports@.len()
        &&& forall|q: int|
            0 <= q < self.ports@.len() && q != port ==> self.ports@[q] == pre.ports@[q]
        &&& port < self.ports@.len() ==> {
            let a = pre.ports@[port as int];
            let b = self.ports@[port as int];
            &&& b.view == a.view
            &&& b.cast == a.cast
            &&& b.update_hooks@ == a.update_hooks@.push(hook)
        }
    }

    /// Publishes `view` on `port`.
    pub fn publish(&mut self, port: usize, view: Option<usize>)
        requires
            old(self).wf(),
            port < old(self).ports@.len(),
            opt_ok(view, old(self).nodes@.len()),
        ensures
            final(self).wf(),
            final(self).sized(old(self)),
            final(self).published(old(self), port, view),
            final(self).view_of(port) == view,
    {
        let fuel = self.ports.len();
        self.update_port(port, fuel);
        let ghost m1 = *self;
        self.ports[port].view = view;
        let ghost m2 = *self;
        proof {
            assert forall|p: int| 0 <= p < self.ports@.len() implies (#[trigger] self.ports@[p]).wf(
                self.ports@.len(),
                self.nodes@.len(),
            ) by {
                if p != port {
                    assert(self.ports@[p] == m1.ports@[p]);
                }
            }
            assert(m2.view_set(&m1, port, view));
        }
        self.broadcast_reset(port, view);
        proof {
            self.lemma_reset_all_keeps_ports(
                &m2,
                m2.ports@[port as int].cast.live(m2.alive@),
                view,
                port,
            );
        }
    }

    /// A run of resets leaves the view of every port as it is.
    pub proof fn lemma_reset_all_keeps_ports(
        &self,
        pre: &Self,
        observers: Seq<usize>,
        view: Option<usize>,
        port: usize,
    )
        requires
            self.reset_all(pre, observers, view),
        ensures
            self.view_of(port) == pre.view_of(port),
            self.ports@.len() == pre.ports@.len(),
        decreases observers.len(),
    {
        if observers.len() > 0 {
            let mid = choose|mid: Self|
                mid.reset_all(pre, observers.drop_last(), view) && #[trigger] self.was_reset(
                    &mid,
                    observers.last(),
                    view,
                );
            mid.lemma_reset_all_keeps_ports(pre, observers.drop_last(), view, port);
            self.lemma_reset_keeps_views(&mid, observers.last(), view, port);
        }
    }

    /// A reset leaves the view of every port as it is.
    pub proof fn lemma_reset_keeps_views(
        &self,
        pre: &Self,
        obs: usize,
        view: Option<usize>,
        port: usize,
    )
        requires
            self.was_reset(pre, obs, view),
        ensures
            self.view_of(port) == pre.view_of(port),
            self.ports@.len() == pre.ports@.len(),
    {
    }

    /// Closes the hook chain of `port` with `hook`.
    pub fn add_hook(&mut self, port: usize, hook: Hook)
        requires
            old(self).wf(),
            match hook {
                Hook::Port(p) => p < old(self).ports@.len(),
                Hook::Arg(a) => a < old(self).nodes@.len(),
            },
        ensures
            final(self).wf(),
            final(self).hooked(old(self), port, hook),
    {
        if port >= self.ports.len() {
            return ;
        }
        self.ports[port].update_hooks.push(hook);
        proof {
            assert forall|p: int| 0 <= p < self.ports@.len() implies (#[trigger] self.ports@[p]).wf(
                self.ports@.len(),
                self.nodes@.len(),
            ) by {
                if p != port {
                    assert(self.ports@[p] == old(self).ports@[p]);
                }
            }
        }
    }

    /// Takes life from the node `obs`: it is told of nothing from now on.
    pub fn release(&mut self, obs: usize)
        requires
            old(self).wf(),
        ensures
            final(self).wf(),
            final(self).nodes@ == old(self).nodes@,
            final(self).ports@ == old(self).ports@,
            final(self).alive@ == if obs < old(self).alive@.len() {
                old(self).alive@.update(obs as int, false)
            } else {
                old(self).alive@
            },
            !is_live(final(self).alive@, obs),
    {
        if obs < self.alive.len() {
            self.alive[obs] = false;
        }
    }
}

impl<V> ViewPort<V> {
    /// Whether `g` has this port.
    pub open spec fn valid<T, F, P>(&self, g: &Graph<T, F, P>) -> bool {
        self.id < g.ports@.len()
    }

    /// A new port of `g` that publishes no view.
    pub fn new<T: Copy, F: Fn(&T) -> T, P: Fn(&T) -> bool>(g: &mut Graph<T, F, P>) -> (port:
        Self) where V: ViewShape<T>
        requires
            old(g).wf(),
        ensures
            final(g).wf(),
            port.valid(final(g)),
            port.id == old(g).ports@.len(),
            final(g).port_added(old(g)),
    {
        let id = g.add_port();
        ViewPort { id, shape: V::marker().0 }
    }

    /// A new port of `g` that publishes `view`.
    pub fn with_view<T: Copy, F: Fn(&T) -> T, P: Fn(&T) -> bool>(
        g: &mut Graph<T, F, P>,
        view: ViewRef<V>,
    ) -> (port: Self) where V: ViewShape<T>
        requires
            old(g).wf(),
            view.node < old(g).nodes@.len(),
        ensures
            final(g).wf(),
            port.valid(final(g)),
            port.id == old(g).ports@.len(),
            final(g).ports@.len() == port.id + 1,
            final(g).view_of(port.id) == Some(view.node),
            exists|mid: Graph<T, F, P>|
                #[trigger] mid.port_added(old(g)) && final(g).published(
                    &mid,
                    port.id,
                    Some(view.node),
                ),
    {
        let port = ViewPort::<V>::new(g);
        let ghost mid = *g;
        port.set_view(g, Some(view));
        proof {
            assert(mid.port_added(old(g)));
        }
        port
    }

    /// Publishes `view`, or the absence of a view: pending messages are
    /// delivered first, then every live subscriber is rebound.
    pub fn set_view<T: Copy, F: Fn(&T) -> T, P: Fn(&T) -> bool>(
        &self,
        g: &mut Graph<T, F, P>,
        view: Option<ViewRef<V>>,
    )
        requires
            old(g).wf(),
            self.valid(old(g)),
            match view {
                Some(v) => v.node < old(g).nodes@.len(),
                None => true,
            },
        ensures
            final(g).wf(),
            final(g).sized(old(g)),
            final(g).published(old(g), self.id, node_of(view)),
            final(g).view_of(self.id) == node_of(view),
    {
        let node = match view {
            Some(v) => Some(v.node),
            None => None,
        };
        g.publish(self.id, node);
    }

    /// The port whose broadcast this is.
    pub fn get_cast(&self) -> (port: usize)
        ensures
            port == self.id,
    {
        self.id
    }

    /// Subscribes `observer`: pending messages are delivered first, then the
    /// observer is rebound to the view that is published, so that it starts
    /// up to date, and registered.
    pub fn add_observer<T: Copy, F: Fn(&T) -> T, P: Fn(&T) -> bool>(
        &self,
        g: &mut Graph<T, F, P>,
        observer: ObserverRef,
    )
        requires
            old(g).wf(),
            self.valid(old(g)),
            observer.node < old(g).nodes@.len(),
            old(g).ports@.len() < usize::MAX,
        ensures
            final(g).wf(),
            final(g).extends(old(g)),
            final(g).observed(old(g), self.id, observer.node, old(g).reach() + 1),
    {
        let fuel = g.ports.len() + 1;
        g.observe(self.id, observer.node, fuel);
    }

    /// Registers a task that runs before this port delivers its own pending
    /// messages.
    pub fn add_update_hook<T: Copy, F: Fn(&T) -> T, P: Fn(&T) -> bool>(
        &self,
        g: &mut Graph<T, F, P>,
        hook: Hook,
    )
        requires
            old(g).wf(),
            match hook {
                Hook::Port(p) => p < old(g).ports@.len(),
                Hook::Arg(a) => a < old(g).nodes@.len(),
            },
        ensures
            final(g).wf(),
            final(g).hooked(old(g), self.id, hook),
    {
        g.add_hook(self.id, hook);
    }

    /// The owner's facet of this port.
    pub fn inner(&self) -> (facet: InnerViewPort<V>) where V: Copy
        ensures
            facet.0 == *self,
    {
        InnerViewPort(*self)
    }

    /// The consumers' facet of this port.
    pub fn outer(&self) -> (facet: OuterViewPort<V>) where V: Copy
        ensures
            facet.0 == *self,
    {
        OuterViewPort(*self)
    }

    /// The owner's facet of this port.
    pub fn into_inner(self) -> (facet: InnerViewPort<V>)
        ensures
            facet.0 == self,
    {
        InnerViewPort(self)
    }

    /// The consumers' facet of this port.
    pub fn into_outer(self) -> (facet: OuterViewPort<V>)
        ensures
            facet.0 == self,
    {
        OuterViewPort(self)
    }
}

/// The node of a view that may be missing.
pub open spec fn node_of<V>(view: Option<ViewRef<V>>) -> Option<usize> {
    match view {
        Some(v) => Some(v.node),
        None => None,
    }
}

impl<V, T: Copy, F: Fn(&T) -> T, P: Fn(&T) -> bool> UpdateTask<T, F, P> for ViewPort<V> {
    open spec fn ran(&self, pre: &Graph<T, F, P>, post: &Graph<T, F, P>) -> bool {
        post.updated(pre, self.id, pre.reach())
    }

    /// Pulls this port: every upstream hook runs in the order of
    /// registration, then the pending messages are delivered.
    fn update(&self, g: &mut Graph<T, F, P>) {
        let fuel = g.ports.len();
        g.update_port(self.id, fuel);
    }
}

impl<T: Copy, F: Fn(&T) -> T, P: Fn(&T) -> bool> UpdateTask<T, F, P> for Hook {
    open spec fn ran(&self, pre: &Graph<T, F, P>, post: &Graph<T, F, P>) -> bool {
        match *self {
            Hook::Port(q) => post.updated(pre, q, pre.reach()),
            Hook::Arg(a) => post.arg_ran(pre, a, pre.reach()),
        }
    }

    fn update(&self, g: &mut Graph<T, F, P>) {
        let fuel = g.ports.len();
        match *self {
            Hook::Port(q) => g.update_port(q, fuel),
            Hook::Arg(a) => ProjectionArg::update(g, a, fuel),
        }
    }
}

impl<V: Copy> InnerViewPort<V> {
    /// The port whose broadcast this is.
    pub fn get_broadcast(&self) -> (port: usize)
        ensures
            port == self.0.id,
    {
        self.0.id
    }

    /// Publishes `view` and hands out the port whose broadcast announces it.
    pub fn set_view<T: Copy, F: Fn(&T) -> T, P: Fn(&T) -> bool>(
        &self,
        g: &mut Graph<T, F, P>,
        view: Option<ViewRef<V>>,
    ) -> (port: usize)
        requires
            old(g).wf(),
            self.0.valid(old(g)),
            match view {
                Some(v) => v.node < old(g).nodes@.len(),
                None => true,
            },
        ensures
            final(g).wf(),
            final(g).sized(old(g)),
            final(g).published(old(g), self.0.id, node_of(view)),
            final(g).view_of(self.0.id) == node_of(view),
            port == self.0.id,
    {
        self.0.set_view(g, view);
        self.get_broadcast()
    }

    /// The view that is published now.
    pub fn get_view<T: Copy, F: Fn(&T) -> T, P: Fn(&T) -> bool>(&self, g: &Graph<T, F, P>) -> (view:
        Option<ViewRef<V>>)
        ensures
            node_of(view) == g.view_of(self.0.id),
    {
        match g.port_view(self.0.id) {
            Some(node) => Some(ViewRef { node, shape: self.0.shape }),
            None => None,
        }
    }

    /// Queues `msg` for the subscribers.  The view that is published is not
    /// touched.
    pub fn notify<T: Copy, F: Fn(&T) -> T, P: Fn(&T) -> bool>(
        &self,
        g: &mut Graph<T, F, P>,
        msg: V::Msg,
    ) where V: ViewShape<T>
        requires
            old(g).wf(),
        ensures
            final(g).wf(),
            final(g).emitted(old(g), self.0.id, seq![V::message(msg)]),
    {
        let m = V::wrap(msg);
        g.emit(self.0.id, one_msg(m));
    }
}

impl<V: Copy> OuterViewPort<V> {
    /// The view that is published now.
    pub fn get_view<T: Copy, F: Fn(&T) -> T, P: Fn(&T) -> bool>(&self, g: &Graph<T, F, P>) -> (view:
        Option<ViewRef<V>>)
        ensures
            node_of(view) == g.view_of(self.0.id),
    {
        match g.port_view(self.0.id) {
            Some(node) => Some(ViewRef { node, shape: self.0.shape }),
            None => None,
        }
    }

    /// The cell in which the port keeps its view.
    pub fn get_view_arc(&self) -> (cell: ViewCell<V>)
        ensures
            cell.port == self.0.id,
    {
        ViewCell { port: self.0.id, shape: self.0.shape }
    }

    /// Subscribes `observer` and hands out the cell of the view.
    pub fn add_observer<T: Copy, F: Fn(&T) -> T, P: Fn(&T) -> bool>(
        &self,
        g: &mut Graph<T, F, P>,
        observer: ObserverRef,
    ) -> (cell: ViewCell<V>)
        requires
            old(g).wf(),
            self.0.valid(old(g)),
            observer.node < old(g).nodes@.len(),
            old(g).ports@.len() < usize::MAX,
        ensures
            final(g).wf(),
            final(g).extends(old(g)),
            final(g).observed(old(g), self.0.id, observer.node, old(g).reach() + 1),
            cell.port == self.0.id,
    {
        self.0.add_observer(g, observer);
        self.get_view_arc()
    }

    /// Subscribes a new observer that keeps every view it is rebound to.
    pub fn add_reset_fn<T: Copy, F: Fn(&T) -> T, P: Fn(&T) -> bool>(
        &self,
        g: &mut Graph<T, F, P>,
    ) -> (obs: ObserverRef)
        requires
            old(g).wf(),
            self.0.valid(old(g)),
            old(g).ports@.len() < usize::MAX,
        ensures
            final(g).wf(),
            final(g).extends(old(g)),
            obs.node == old(g).nodes@.len(),
            exists|mid: Graph<T, F, P>|
                #[trigger] final(g).observed(&mid, self.0.id, obs.node, old(g).reach() + 1)
                    && mid.ports@ == old(g).ports@ && mid.alive@ == old(g).alive@.push(true)
                    && mid.nodes@.len() == old(g).nodes@.len() + 1,
    {
        let node = g.add_node(Node::ResetFnObserver(ResetFnObserver::new()));
        let obs = ObserverRef { node };
        let ghost mid = *g;
        self.0.add_observer(g, obs);
        proof {
            assert(g.observed(&mid, self.0.id, obs.node, old(g).reach() + 1));
        }
        obs
    }

    /// Subscribes a new observer that keeps every message it is told of.
    pub fn add_notify_fn<T: Copy, F: Fn(&T) -> T, P: Fn(&T) -> bool>(
        &self,
        g: &mut Graph<T, F, P>,
    ) -> (obs: ObserverRef)
        requires
            old(g).wf(),
            self.0.valid(old(g)),
            old(g).ports@.len() < usize::MAX,
        ensures
            final(g).wf(),
            final(g).extends(old(g)),
            obs.node == old(g).nodes@.len(),
            exists|mid: Graph<T, F, P>|
                #[trigger] final(g).observed(&mid, self.0.id, obs.node, old(g).reach() + 1)
                    && mid.ports@ == old(g).ports@ && mid.alive@ == old(g).alive@.push(true)
                    && mid.nodes@.len() == old(g).nodes@.len() + 1,
    {
        let node = g.add_node(Node::NotifyFnObserver(NotifyFnObserver::new()));
        let obs = ObserverRef { node };
        let ghost mid = *g;
        self.0.add_observer(g, obs);
        proof {
            assert(g.observed(&mid, self.0.id, obs.node, old(g).reach() + 1));
        }
        obs
    }
}

/// A port of any shape.
#[derive(Clone, Copy)]
pub struct AnyViewPort {
    pub id: usize,
    pub shape: Shape,
}

/// The consumers' facet of a port of any shape.
#[derive(Clone, Copy)]
pub struct AnyOuterViewPort(pub AnyViewPort);

/// The owner's facet of a port of any shape.
#[derive(Clone, Copy)]
pub struct AnyInnerViewPort(pub AnyViewPort);

impl AnyViewPort {
    /// The port with its shape forgotten.
    pub fn erase<T, V: ViewShape<T>>(port: ViewPort<V>) -> (any: Self)
        ensures
            any.id == port.id,
            any.shape == V::shape(),
    {
        AnyViewPort { id: port.id, shape: V::marker().1 }
    }

    /// The port as one of shape `V`, if that is its shape; else the port
    /// comes back as it is.
    pub fn downcast<T, V: ViewShape<T>>(self) -> (r: Result<ViewPort<V>, AnyViewPort>)
        ensures
            match r {
                Ok(port) => self.shape == V::shape() && port.id == self.id,
                Err(any) => self.shape != V::shape() && any == self,
            },
    {
        let (shape, tag) = V::marker();
        if tag == self.shape {
            Ok(ViewPort { id: self.id, shape })
        } else {
            Err(self)
        }
    }
}

impl AnyOuterViewPort {
    /// The facet with its shape forgotten.
    pub fn erase<T, V: ViewShape<T>>(port: OuterViewPort<V>) -> (any: Self)
        ensures
            any.0.id == port.0.id,
            any.0.shape == V::shape(),
    {
        AnyOuterViewPort(AnyViewPort::erase::<T, V>(port.0))
    }

    /// The facet as one of shape `V`, if that is its shape.
    pub fn downcast<T, V: ViewShape<T>>(self) -> (r: Result<OuterViewPort<V>, AnyViewPort>)
        ensures
            match r {
                Ok(port) => self.0.shape == V::shape() && port.0.id == self.0.id,
                Err(any) => self.0.shape != V::shape() && any == self.0,
            },
    {
        match self.0.downcast::<T, V>() {
            Ok(port) => Ok(OuterViewPort(port)),
            Err(any) => Err(any),
        }
    }
}

impl AnyInnerViewPort {
    /// The facet with its shape forgotten.
    pub fn erase<T, V: ViewShape<T>>(port: InnerViewPort<V>) -> (any: Self)
        ensures
            any.0.id == port.0.id,
            any.0.shape == V::shape(),
    {
        AnyInnerViewPort(AnyViewPort::erase::<T, V>(port.0))
    }

    /// The facet as one of shape `V`, if that is its shape.
    pub fn downcast<T, V: ViewShape<T>>(self) -> (r: Result<InnerViewPort<V>, AnyViewPort>)
        ensures
            match r {
                Ok(port) => self.0.shape == V::shape() && port.0.id == self.0.id,
                Err(any) => self.0.shape != V::shape() && any == self.0,
            },
    {
        match self.0.downcast::<T, V>() {
            Ok(port) => Ok(InnerViewPort(port)),
            Err(any) => Err(any),
        }
    }
}


impl<T: Copy, F: Fn(&T) -> T, P: Fn(&T) -> bool> Graph<T, F, P> {
    /// `self` is `pre` with one more port, whose hook chain is the pull of
    /// `src`, and one more node, `node`, alive.
    pub open spec fn grown(&self, pre: &Self, src: usize, node: Node<T, F, P>) -> bool {
        let port = pre.ports@.len() as int;
        &&& self.nodes@ == pre.nodes@.push(node)
        &&& self.alive@ == pre.alive@.push(true)
        &&& self.ports@.len() == port + 1
        &&& forall|q: int| 0 <= q < port ==> self.ports@[q] == pre.ports@[q]
        &&& self.ports@[port].view.is_none()
        &&& self.ports@[port].update_hooks@ == seq![Hook::Port(src)]
        &&& self.ports@[port].cast.observers@ == Seq::<usize>::empty()
        &&& self.ports@[port].cast.pending() == Seq::<Msg<T>>::empty()
    }

    /// What it means that a projection `node` of the view on the port `src`
    /// was set up in `pre` and `self` is the outcome: a new port pulls `src`
    /// before it updates, the new node is published on the new port and
    /// subscribes to `src`.  With `observe_first` it subscribes before it is
    /// published, else after.
    pub open spec fn projected(
        &self,
        pre: &Self,
        src: usize,
        node: Node<T, F, P>,
        observe_first: bool,
    ) -> bool {
        let port = pre.ports@.len() as usize;
        let id = pre.nodes@.len() as usize;
        exists|m1: Self, m2: Self|
            m1.grown(pre, src, node) && #[trigger] m2.sized(&m1) && if observe_first {
                m2.observed(&m1, src, id, m1.reach() + 1) && self.published(&m2, port, Some(id))
            } else {
                m2.published(&m1, port, Some(id)) && self.observed(&m2, src, id, m2.reach() + 1)
            }
    }

    /// Sets up the projection `node` of the view on the port `src`; hands out
    /// the new port and the new node.
    pub fn project(&mut self, src: usize, node: Node<T, F, P>, observe_first: bool) -> (ids: (
        usize,
        usize,
    ))
        requires
            old(self).wf(),
            src < old(self).ports@.len(),
            old(self).ports@.len() + 1 < usize::MAX,
            node.wf(old(self).ports@.len() + 1, old(self).nodes@.len() + 1),
            node.fills_below(old(self).nodes@.len() as int),
        ensures
            final(self).wf(),
            ids.0 == old(self).ports@.len(),
            ids.1 == old(self).nodes@.len(),
            final(self).ports@.len() == old(self).ports@.len() + 1,
            final(self).nodes@.len() > old(self).nodes@.len(),
            final(self).view_of(ids.0) == Some(ids.1),
            final(self).projected(old(self), src, node, observe_first),
    {
        let port = self.add_port();
        self.add_hook(port, Hook::Port(src));
        let id = self.add_node(node);
        let ghost m1 = *self;
        proof {
            assert(m1.ports@[port as int].update_hooks@ =~= seq![Hook::Port(src)]);
            assert(m1.grown(old(self), src, node));
        }
        if observe_first {
            let fuel = self.ports.len() + 1;
            self.observe(src, id, fuel);
            let ghost m2 = *self;
            self.publish(port, Some(id));
            proof {
                assert(m2.sized(&m1));
            }
        } else {
            self.publish(port, Some(id));
            let ghost m2 = *self;
            let fuel = self.ports.len() + 1;
            self.observe(src, id, fuel);
            proof {
                assert(m2.sized(&m1));
            }
        }
        (port, id)
    }
}


impl<T: Copy, F: Fn(&T) -> T, P: Fn(&T) -> bool> Graph<T, F, P> {
    /// `self` is `pre` with one more node, `node`, alive.
    pub open spec fn node_added(&self, pre: &Self, node: Node<T, F, P>) -> bool {
        &&& self.ports@ == pre.ports@
        &&& self.nodes@ == pre.nodes@.push(node)
        &&& self.alive@ == pre.alive@.push(true)
    }

    /// Three states that follow one another.
    pub open spec fn chain(m1: Self, m2: Self, m3: Self) -> bool {
        m2.sized(&m1) && m3.sized(&m2)
    }

    /// What it means that `port` of `pre` took the new buffer `node` as its
    /// view and `self` is the outcome: the port was updated, the buffer was
    /// added and stored as the view, and every live subscriber was rebound
    /// to it.
    pub open spec fn adopted(&self, pre: &Self, port: usize, node: Node<T, F, P>) -> bool {
        exists|m1: Self, m2: Self, m3: Self|
            #[trigger] Self::chain(m1, m2, m3) && m1.updated(pre, port, pre.reach())
                && m2.node_added(&m1, node) && m3.view_set(
                &m2,
                port,
                Some(m1.nodes@.len() as usize),
            ) && self.reset_all(
                &m3,
                m3.ports@[port as int].cast.live(m3.alive@),
                Some(m1.nodes@.len() as usize),
            )
    }

    /// Adds the buffer `node` and publishes it on `port`.
    pub fn adopt(&mut self, port: usize, node: Node<T, F, P>) -> (id: usize)
        requires
            old(self).wf(),
            port < old(self).ports@.len(),
            node.is_leaf(),
            node.wf(old(self).ports@.len(), old(self).nodes@.len() + 1),
        ensures
            final(self).wf(),
            final(self).sized(old(self)),
            final(self).adopted(old(self), port, node),
            final(self).view_of(port) == Some(id),
            old(self).nodes@.len() <= id < final(self).nodes@.len(),
            id + 1 == final(self).nodes@.len(),
            final(self).nodes@[id as int] == node,
    {
        let fuel = self.ports.len();
        self.update_port(port, fuel);
        let ghost m1 = *self;
        proof {
            lemma_node_wf_grows(
                node,
                old(self).ports@.len(),
                old(self).nodes@.len() + 1,
                self.ports@.len(),
                self.nodes@.len() + 1,
            );
        }
        let id = self.add_node(node);
        let ghost m2 = *self;
        self.ports[port].view = Some(id);
        let ghost m3 = *self;
        proof {
            assert forall|p: int| 0 <= p < self.ports@.len() implies (#[trigger] self.ports@[p]).wf(
                self.ports@.len(),
                self.nodes@.len(),
            ) by {
                if p != port {
                    assert(self.ports@[p] == m2.ports@[p]);
                }
            }
            assert(m3.view_set(&m2, port, Some(id)));
            assert(m2.node_added(&m1, node));
        }
        proof {
            assert(m3.is_leaf(id as int));
            assert(m3.nodes@[id as int] == node);
        }
        self.broadcast_reset(port, Some(id));
        proof {
            assert(self.nodes@[id as int] == m3.nodes@[id as int]);
            assert(Self::chain(m1, m2, m3));
            self.lemma_reset_all_keeps_ports(
                &m3,
                m3.ports@[port as int].cast.live(m3.alive@),
                Some(id),
                port,
            );
        }
        id
    }
}


impl<T: Copy> ObserverBroadcast<T> {
    /// Takes the pending messages of `port` out and delivers them, oldest
    /// first, each to every live subscriber.
    pub fn update<F: Fn(&T) -> T, P: Fn(&T) -> bool>(g: &mut Graph<T, F, P>, port: usize)
        requires
            old(g).wf(),
        ensures
            final(g).wf(),
            final(g).nodes@.len() == old(g).nodes@.len(),
            final(g).ports@.len() == old(g).ports@.len(),
            final(g).alive@ == old(g).alive@,
            final(g).extends(old(g)),
            final(g).drained(old(g), port),
    {
        if port >= g.ports.len() {
            return ;
        }
        let msgs = g.ports[port].cast.drain();
        let live = g.ports[port].cast.iter(&g.alive);
        let ghost taken = *g;
        proof {
            assert forall|p: int| 0 <= p < g.ports@.len() implies (#[trigger] g.ports@[p]).wf(
                g.ports@.len(),
                g.nodes@.len(),
            ) by {
                if p != port {
                    assert(g.ports@[p] == old(g).ports@[p]);
                }
            }
            assert(taken.queue_taken(old(g), port));
        }
        let mut i: usize = 0;
        while i < msgs.len()
            invariant
                i <= msgs@.len(),
                g.wf(),
                g.nodes@.len() == old(g).nodes@.len(),
                g.ports@.len() == old(g).ports@.len(),
                g.alive@ == old(g).alive@,
                g.extends(old(g)),
                g.delivered_all(&taken, msgs@.subrange(0, i as int), live@),
            decreases msgs@.len() - i,
        {
            let ghost mid = *g;
            g.deliver(msgs[i], &live);
            proof {
                let now = msgs@.subrange(0, i as int + 1);
                assert(now.drop_last() =~= msgs@.subrange(0, i as int));
                assert(now.last() == msgs@[i as int]);
                assert(mid.delivered_all(&taken, now.drop_last(), live@));
                assert(g.delivered(&mid, now.last(), live@));
                assert(g.delivered_all(&taken, now, live@));
            }
            i += 1;
        }
        proof {
            assert(msgs@.subrange(0, i as int) =~= msgs@);
        }
    }
}

} // verus!
