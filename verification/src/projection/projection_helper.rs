//! Bookkeeping of the upstream dependencies of a projection.
use vstd::prelude::*;
use crate::graph::{opt_ok, Graph, Node};
use crate::projection::flatten_sequence::Flatten;
use crate::projection::decorate_sequence::{separate_dirty, separate_msgs, wrap_dirty, wrap_msgs};
use crate::projection::vec2seq::{larger, max_len};
use crate::view::channel::{
    lemma_set_merged_no_duplicates, set_channel, set_merged, ChannelData, ChannelReceiver,
    ChannelSender, IndexSet,
};
use crate::view::observer::is_live;
use crate::projection::vec2seq::one_msg;
use crate::view::Msg;
use crate::view::ViewCell;
use crate::view::grid::Point2;
use crate::view::index::Index;
use crate::view::port::OuterViewPort;
use crate::view::sequence::Sequence;
use crate::view::singleton::Singleton;
use crate::view::port::Hook;

verus! {

/// One registered dependency: its key, the position of its pair of hooks in
/// the hook chain, and the observer that receives for it.
#[derive(Clone, Copy)]
pub struct Keepalive {
    pub key: usize,
    pub idx: usize,
    pub arg: usize,
}

/// Keeps the dependencies of one projection: for each key the observer that
/// is subscribed upstream and the place of its hooks in the hook chain of the
/// projection's port.
pub struct ProjectionHelper {
    pub keepalive: Vec<Keepalive>,
    pub proj: Option<usize>,
    pub update_hooks: usize,
}

/// What a projection does with a message of one of its dependencies.
#[derive(Clone, Copy)]
pub enum ArgHandler {
    /// The outer sequence of a flattening changed at the index of the message.
    FlattenTop,
    /// The nested sequence with this key changed at the index of the message.
    FlattenChunk(usize),
    /// The source of a wrapped sequence changed at the index of the message.
    Wrap,
    /// The source of a separated sequence changed at the index of the
    /// message.
    Separate,
    /// The outer grid of a flattening changed in the area of the message.
    GridTop,
    /// The nested grid at this point changed in the area of the message.
    GridChunk(Point2),
    /// The outer singleton of a flattening changed.
    FlattenOuter,
    /// The nested singleton of a flattening changed.
    FlattenInner,
}

impl ArgHandler {
    /// Whether the handler is one for the areas of an index, not for the
    /// indices of a sequence.
    pub open spec fn on_index(self) -> bool {
        match self {
            ArgHandler::GridTop => true,
            ArgHandler::GridChunk(_) => true,
            _ => false,
        }
    }

    /// Whether the handler is one for the changes of a singleton.
    pub open spec fn on_singleton(self) -> bool {
        match self {
            ArgHandler::FlattenOuter => true,
            ArgHandler::FlattenInner => true,
            _ => false,
        }
    }

    /// Whether the handler is one for the changes of a singleton.
    pub fn observes_singleton(&self) -> (r: bool)
        ensures
            r == self.on_singleton(),
    {
        match self {
            ArgHandler::FlattenOuter => true,
            ArgHandler::FlattenInner => true,
            _ => false,
        }
    }

    /// Whether the handler is one for the areas of an index.
    pub fn observes_index(&self) -> (r: bool)
        ensures
            r == self.on_index(),
    {
        match self {
            ArgHandler::GridTop => true,
            ArgHandler::GridChunk(_) => true,
            _ => false,
        }
    }
}

/// The observer of one dependency.  It collects the messages of the upstream
/// view in a channel; they reach the projection when the argument is updated.
pub struct ProjectionArg {
    pub src: Option<usize>,
    pub notify: ArgHandler,
    pub owner: usize,
    /// Whether the upstream view is a singleton: its one message counts as
    /// the index zero.
    pub unit: bool,
    pub rx: ChannelReceiver<IndexSet>,
    pub tx: ChannelSender,
}


/// The pending indices of a set channel after the indices from `start` up to
/// `end` came in, in rising order.
pub open spec fn set_merged_range(pending: Seq<usize>, start: usize, end: usize) -> Seq<usize>
    decreases end - start,
{
    if start >= end {
        pending
    } else {
        set_merged(set_merged_range(pending, start, (end - 1) as usize), (end - 1) as usize)
    }
}

/// A run of indices keeps a mailbox free of duplicates.
pub proof fn lemma_set_merged_range_no_duplicates(pending: Seq<usize>, start: usize, end: usize)
    requires
        pending.no_duplicates(),
    ensures
        set_merged_range(pending, start, end).no_duplicates(),
    decreases end - start,
{
    if start < end {
        lemma_set_merged_range_no_duplicates(pending, start, (end - 1) as usize);
        lemma_set_merged_no_duplicates(
            set_merged_range(pending, start, (end - 1) as usize),
            (end - 1) as usize,
        );
    }
}

impl ProjectionArg {
    /// The indices that wait for the projection, in the order in which it
    /// will be told of them.
    pub open spec fn pending(&self) -> Seq<usize> {
        self.rx.pending()
    }

    /// The upstream view changed at `idx`: the index waits for the next
    /// update, once however often it comes in.
    pub fn notify(&mut self, idx: usize)
        ensures
            final(self).pending() == set_merged(old(self).pending(), idx),
            old(self).pending().no_duplicates() ==> final(self).pending().no_duplicates(),
            final(self).src == old(self).src,
            final(self).notify == old(self).notify,
            final(self).owner == old(self).owner,
            final(self).unit == old(self).unit,
            final(self).tx == old(self).tx,
            final(self).rx.num_senders == old(self).rx.num_senders,
    {
        self.tx.send(&mut self.rx, idx);
        proof {
            if old(self).pending().no_duplicates() {
                lemma_set_merged_no_duplicates(old(self).pending(), idx);
            }
        }
    }

    /// Rebinds to the upstream view `new_src`.  Of a sequence, every index
    /// below the length of the old or of the new view waits for the next
    /// update; of a singleton, the index zero does.
    pub fn reset(&mut self, new_src: Option<usize>, old_len: usize, new_len: usize)
        ensures
            final(self).pending() == set_merged_range(
                old(self).pending(),
                0,
                if old(self).unit {
                    1
                } else {
                    max_len(old_len, new_len)
                },
            ),
            old(self).pending().no_duplicates() ==> final(self).pending().no_duplicates(),
            final(self).src == new_src,
            final(self).notify == old(self).notify,
            final(self).owner == old(self).owner,
            final(self).unit == old(self).unit,
            final(self).tx == old(self).tx,
            final(self).rx.num_senders == old(self).rx.num_senders,
    {
        self.src = new_src;
        let end = if self.unit {
            1
        } else {
            larger(old_len, new_len)
        };
        let mut i: usize = 0;
        while i < end
            invariant
                i <= end,
                self.pending() == set_merged_range(old(self).pending(), 0, i),
                self.src == new_src,
                self.notify == old(self).notify,
                self.owner == old(self).owner,
                self.unit == old(self).unit,
                self.tx == old(self).tx,
                self.rx.num_senders == old(self).rx.num_senders,
            decreases end - i,
        {
            self.notify(i);
            i += 1;
        }
        proof {
            if old(self).pending().no_duplicates() {
                lemma_set_merged_range_no_duplicates(old(self).pending(), 0, end);
            }
        }
    }
}


/// The position in `entries` of the first entry with the key `key`.
pub open spec fn position_of(entries: Seq<Keepalive>, key: usize) -> Option<int>
    decreases entries.len(),
{
    if entries.len() == 0 {
        None
    } else {
        match position_of(entries.drop_last(), key) {
            Some(k) => Some(k),
            None => if entries.last().key == key {
                Some(entries.len() - 1)
            } else {
                None
            },
        }
    }
}

/// `entry` after the pair of hooks at `idx` left the hook chain: an entry
/// behind the pair moves up by two.
pub open spec fn moved_up(entry: Keepalive, idx: usize) -> Keepalive {
    if entry.idx > idx && entry.idx >= 2 {
        Keepalive { key: entry.key, idx: (entry.idx - 2) as usize, arg: entry.arg }
    } else {
        entry
    }
}

/// The entries after the pair of hooks at `idx` left the hook chain.
pub open spec fn reindexed(entries: Seq<Keepalive>, idx: usize) -> Seq<Keepalive> {
    Seq::new(entries.len(), |k: int| moved_up(entries[k], idx))
}

/// The hook chain without the pair of hooks at `idx`; unchanged if it has no
/// such pair.
pub open spec fn without_pair(hooks: Seq<Hook>, idx: usize) -> Seq<Hook> {
    if idx + 1 < hooks.len() {
        hooks.remove(idx as int).remove(idx as int)
    } else {
        hooks
    }
}

/// The entries name their hooks: each has its pair of hooks in the chain, the
/// second of which runs its observer, no two have the same key, and no two
/// pairs overlap.
pub open spec fn consistent(entries: Seq<Keepalive>, hooks: Seq<Hook>) -> bool {
    &&& forall|k: int|
        0 <= k < entries.len() ==> (#[trigger] entries[k]).idx + 1 < hooks.len() && hooks[entries[k].idx
            + 1] == Hook::Arg(entries[k].arg)
    &&& forall|j: int, k: int|
        0 <= j < k < entries.len() ==> (#[trigger] entries[j]).key != (#[trigger] entries[k]).key
    &&& forall|j: int, k: int|
        0 <= j < k < entries.len() ==> (#[trigger] entries[j]).idx + 2 <= (#[trigger] entries[k]).idx
            || entries[k].idx + 2 <= entries[j].idx
}

impl ProjectionHelper {
    /// Every port and node that the helper names exists.
    pub open spec fn wf(&self, n_ports: nat, n_nodes: nat) -> bool {
        &&& self.update_hooks < n_ports
        &&& opt_ok(self.proj, n_nodes)
        &&& forall|k: int|
            0 <= k < self.keepalive@.len() ==> (#[trigger] self.keepalive@[k]).arg < n_nodes
    }

    /// A helper without dependencies for the projection whose port has the
    /// hook chain `update_hooks`.
    pub fn new(update_hooks: usize) -> (helper: Self)
        ensures
            helper.keepalive@ == Seq::<Keepalive>::empty(),
            helper.proj.is_none(),
            helper.update_hooks == update_hooks,
    {
        ProjectionHelper { keepalive: Vec::new(), proj: None, update_hooks }
    }

    /// Names the projection that the handlers of the dependencies work on.
    pub fn set_proj(&mut self, proj: usize)
        ensures
            final(self).proj == Some(proj),
            final(self).keepalive == old(self).keepalive,
            final(self).update_hooks == old(self).update_hooks,
    {
        self.proj = Some(proj);
    }

    /// The position of the entry with the key `key`.
    pub fn find(&self, key: usize) -> (pos: Option<usize>)
        ensures
            match pos {
                Some(k) => position_of(self.keepalive@, key) == Some(k as int) && k
                    < self.keepalive@.len() && self.keepalive@[k as int].key == key,
                None => position_of(self.keepalive@, key).is_none(),
            },
    {
        let mut k: usize = 0;
        while k < self.keepalive.len()
            invariant
                k <= self.keepalive@.len(),
                position_of(self.keepalive@.subrange(0, k as int), key).is_none(),
            decreases self.keepalive@.len() - k,
        {
            proof {
                assert(self.keepalive@.subrange(0, k as int + 1).drop_last()
                    =~= self.keepalive@.subrange(0, k as int));
                lemma_position_prefix(self.keepalive@, key, k as int + 1);
            }
            if self.keepalive[k].key == key {
                proof {
                    lemma_position_stable(
                        self.keepalive@,
                        key,
                        k as int + 1,
                        self.keepalive@.len() as int,
                    );
                    assert(self.keepalive@.subrange(0, self.keepalive@.len() as int)
                        =~= self.keepalive@);
                }
                return Some(k);
            }
            k += 1;
        }
        proof {
            assert(self.keepalive@.subrange(0, k as int) =~= self.keepalive@);
        }
        None
    }

    /// Registers the observer `arg` under `key`: its pair of hooks, the pull
    /// of the upstream port `src` and the run of `arg`, goes to the end of
    /// the hook chain.
    pub fn insert_arg(&mut self, hooks: &mut Vec<Hook>, key: usize, src: usize, arg: usize)
        ensures
            final(hooks)@ == old(hooks)@.push(Hook::Port(src)).push(Hook::Arg(arg)),
            final(self).keepalive@ == old(self).keepalive@.push(
                Keepalive { key, idx: old(hooks)@.len() as usize, arg },
            ),
            final(self).proj == old(self).proj,
            final(self).update_hooks == old(self).update_hooks,
    {
        let idx = hooks.len();
        hooks.push(Hook::Port(src));
        hooks.push(Hook::Arg(arg));
        self.keepalive.push(Keepalive { key, idx, arg });
    }

    /// Drops the dependency `key`: its pair of hooks leaves the hook chain,
    /// and every entry behind the pair moves up by two.  The observer that
    /// was registered is handed out; a key that is not registered changes
    /// nothing.
    pub fn remove_arg(&mut self, hooks: &mut Vec<Hook>, key: usize) -> (removed: Option<usize>)
        ensures
            after_removal(*old(self), *final(self), old(hooks)@, final(hooks)@, key, removed),
    {
        match self.find(key) {
            Some(pos) => {
                let entry = self.keepalive.remove(pos);
                if entry.idx < hooks.len() && entry.idx + 1 < hooks.len() {
                    hooks.remove(entry.idx);
                    hooks.remove(entry.idx);
                    let ghost rest = self.keepalive@;
                    let mut k: usize = 0;
                    while k < self.keepalive.len()
                        invariant
                            k <= self.keepalive@.len(),
                            self.keepalive@.len() == rest.len(),
                            self.proj == old(self).proj,
                            self.update_hooks == old(self).update_hooks,
                            forall|j: int|
                                0 <= j < k ==> self.keepalive@[j] == moved_up(rest[j], entry.idx),
                            forall|j: int| k <= j < rest.len() ==> self.keepalive@[j] == rest[j],
                        decreases self.keepalive@.len() - k,
                    {
                        let e = self.keepalive[k];
                        if e.idx > entry.idx && e.idx >= 2 {
                            self.keepalive[k] = Keepalive { key: e.key, idx: e.idx - 2, arg: e.arg };
                        }
                        k += 1;
                    }
                    proof {
                        assert(self.keepalive@ =~= reindexed(rest, entry.idx));
                    }
                }
                Some(entry.arg)
            },
            None => None,
        }
    }
}

/// The position of a key in a prefix, seen from one element further.
pub proof fn lemma_position_prefix(entries: Seq<Keepalive>, key: usize, n: int)
    requires
        0 < n <= entries.len(),
    ensures
        position_of(entries.subrange(0, n), key) == match position_of(
            entries.subrange(0, n - 1),
            key,
        ) {
            Some(k) => Some(k),
            None => if entries[n - 1].key == key {
                Some(n - 1)
            } else {
                None
            },
        },
{
    assert(entries.subrange(0, n).drop_last() =~= entries.subrange(0, n - 1));
    assert(entries.subrange(0, n).last() == entries[n - 1]);
}

/// A key is found at a position of the list, where an entry with the key
/// stands.
pub proof fn lemma_position_bounds(entries: Seq<Keepalive>, key: usize)
    ensures
        match position_of(entries, key) {
            Some(k) => 0 <= k < entries.len() && entries[k].key == key,
            None => true,
        },
    decreases entries.len(),
{
    if entries.len() > 0 {
        lemma_position_bounds(entries.drop_last(), key);
    }
}

/// A key that is found in a prefix is found at the same position in any
/// longer prefix.
pub proof fn lemma_position_stable(entries: Seq<Keepalive>, key: usize, n: int, m: int)
    requires
        0 <= n <= m <= entries.len(),
        position_of(entries.subrange(0, n), key).is_some(),
    ensures
        position_of(entries.subrange(0, m), key) == position_of(entries.subrange(0, n), key),
    decreases m - n,
{
    if n < m {
        lemma_position_stable(entries, key, n, m - 1);
        lemma_position_prefix(entries, key, m);
    }
}

/// Registering a dependency under a key that is not taken keeps the
/// bookkeeping right: every entry names its hooks as before, and the new
/// entry names the pair of hooks that closes the chain.
pub proof fn lemma_insert_keeps_consistent(
    entries: Seq<Keepalive>,
    hooks: Seq<Hook>,
    key: usize,
    src: usize,
    arg: usize,
)
    requires
        consistent(entries, hooks),
        position_of(entries, key).is_none(),
        hooks.len() < usize::MAX,
    ensures
        consistent(
            entries.push(Keepalive { key, idx: hooks.len() as usize, arg }),
            hooks.push(Hook::Port(src)).push(Hook::Arg(arg)),
        ),
{
    let more = entries.push(Keepalive { key, idx: hooks.len() as usize, arg });
    let chain = hooks.push(Hook::Port(src)).push(Hook::Arg(arg));
    lemma_position_absent(entries, key);
    assert forall|k: int| 0 <= k < more.len() implies (#[trigger] more[k]).idx + 1 < chain.len()
        && chain[more[k].idx + 1] == Hook::Arg(more[k].arg) by {
        if k < entries.len() {
            assert(more[k] == entries[k]);
            assert(chain[entries[k].idx + 1] == hooks[entries[k].idx + 1]);
        }
    }
    assert forall|j: int, k: int| 0 <= j < k < more.len() implies (#[trigger] more[j]).key != (
    #[trigger] more[k]).key by {
        assert(more[j] == entries[j]);
        if k < entries.len() {
            assert(more[k] == entries[k]);
        }
    }
    assert forall|j: int, k: int| 0 <= j < k < more.len() implies (#[trigger] more[j]).idx + 2 <= (
    #[trigger] more[k]).idx || more[k].idx + 2 <= more[j].idx by {
        assert(more[j] == entries[j]);
        if k < entries.len() {
            assert(more[k] == entries[k]);
        }
    }
}

/// A key that is not found stands at no position.
pub proof fn lemma_position_absent(entries: Seq<Keepalive>, key: usize)
    requires
        position_of(entries, key).is_none(),
    ensures
        forall|k: int| 0 <= k < entries.len() ==> (#[trigger] entries[k]).key != key,
    decreases entries.len(),
{
    if entries.len() > 0 {
        lemma_position_absent(entries.drop_last(), key);
        assert forall|k: int| 0 <= k < entries.len() implies (#[trigger] entries[k]).key != key by {
            if k < entries.len() - 1 {
                assert(entries.drop_last()[k] == entries[k]);
            }
        }
    }
}

/// Removing a dependency keeps the bookkeeping right: if every entry named
/// its hooks before, every entry that is left names its hooks after, under
/// the same key and with the same observer.
pub proof fn lemma_remove_keeps_consistent(entries: Seq<Keepalive>, hooks: Seq<Hook>, pos: int)
    requires
        consistent(entries, hooks),
        0 <= pos < entries.len(),
    ensures
        consistent(
            reindexed(entries.remove(pos), entries[pos].idx),
            without_pair(hooks, entries[pos].idx),
        ),
        forall|k: int|
            0 <= k < entries.len() - 1 ==> {
                let before = #[trigger] entries.remove(pos)[k];
                let after = reindexed(entries.remove(pos), entries[pos].idx)[k];
                &&& after.key == before.key
                &&& after.arg == before.arg
                &&& without_pair(hooks, entries[pos].idx)[after.idx as int] == hooks[before.idx as int]
                &&& without_pair(hooks, entries[pos].idx)[after.idx + 1] == hooks[before.idx + 1]
            },
{
    let idx = entries[pos].idx;
    let rest = entries.remove(pos);
    let after = reindexed(rest, idx);
    let left = without_pair(hooks, idx);
    assert(idx + 1 < hooks.len());
    assert forall|k: int| 0 <= k < rest.len() implies {
        &&& (#[trigger] after[k]).idx + 1 < left.len()
        &&& left[after[k].idx + 1] == Hook::Arg(after[k].arg)
        &&& after[k].key == rest[k].key
        &&& after[k].arg == rest[k].arg
        &&& left[after[k].idx as int] == hooks[rest[k].idx as int]
        &&& left[after[k].idx + 1] == hooks[rest[k].idx + 1]
        &&& (rest[k].idx > idx ==> after[k].idx + 2 == rest[k].idx)
        &&& (rest[k].idx < idx ==> after[k].idx == rest[k].idx)
        &&& rest[k].idx != idx
    } by {
        let orig = if k < pos {
            k
        } else {
            k + 1
        };
        assert(rest[k] == entries[orig]);
        if orig < pos {
            assert(entries[orig].idx + 2 <= entries[pos].idx || entries[pos].idx + 2
                <= entries[orig].idx);
        } else {
            assert(entries[pos].idx + 2 <= entries[orig].idx || entries[orig].idx + 2
                <= entries[pos].idx);
        }
    }
    assert forall|j: int, k: int| 0 <= j < k < after.len() implies (#[trigger] after[j]).key != (
    #[trigger] after[k]).key by {
        let oj = if j < pos {
            j
        } else {
            j + 1
        };
        let ok = if k < pos {
            k
        } else {
            k + 1
        };
        assert(rest[j] == entries[oj]);
        assert(rest[k] == entries[ok]);
    }
    assert forall|j: int, k: int| 0 <= j < k < after.len() implies (#[trigger] after[j]).idx + 2 <= (
    #[trigger] after[k]).idx || after[k].idx + 2 <= after[j].idx by {
        let oj = if j < pos {
            j
        } else {
            j + 1
        };
        let ok = if k < pos {
            k
        } else {
            k + 1
        };
        assert(rest[j] == entries[oj]);
        assert(rest[k] == entries[ok]);
        assert(entries[oj].idx + 2 <= entries[ok].idx || entries[ok].idx + 2 <= entries[oj].idx);
    }
}


impl<T, F: Fn(&T) -> T, P: Fn(&T) -> bool> Node<T, F, P> {
    /// The helper of this projection, if it has one.
    pub open spec fn helper(&self) -> Option<ProjectionHelper> {
        match *self {
            Node::Flatten(f) => Some(f.proj_helper),
            Node::Wrapped(w) => Some(w.proj_helper),
            Node::Separated(s) => Some(s.proj_helper),
            Node::FlattenGrid(f) => Some(f.proj_helper),
            Node::FlattenSingleton(f) => Some(f.proj),
            _ => None,
        }
    }

    /// This projection is `other` but for its helper.
    pub open spec fn same_but_helper(&self, other: Self) -> bool {
        match (other, *self) {
            (Node::Flatten(f), Node::Flatten(g)) => {
                &&& g.length == f.length
                &&& g.top == f.top
                &&& g.chunks == f.chunks
                &&& g.cast == f.cast
            },
            (Node::Wrapped(v), Node::Wrapped(w)) => {
                &&& w.opening == v.opening
                &&& w.closing == v.closing
                &&& w.items == v.items
                &&& w.cast == v.cast
            },
            (Node::Separated(v), Node::Separated(w)) => {
                &&& w.delimiter == v.delimiter
                &&& w.items == v.items
                &&& w.cast == v.cast
            },
            (Node::FlattenGrid(f), Node::FlattenGrid(g)) => {
                &&& g.limit == f.limit
                &&& g.top == f.top
                &&& g.chunks == f.chunks
                &&& g.cast == f.cast
            },
            (Node::FlattenSingleton(f), Node::FlattenSingleton(g)) => {
                &&& g.outer == f.outer
                &&& g.inner == f.inner
                &&& g.cast == f.cast
            },
            _ => false,
        }
    }

    /// The port of the hook chain and the projection that the helper names.
    pub fn helper_links(&self) -> (links: Option<(usize, Option<usize>)>)
        ensures
            links == match self.helper() {
                Some(h) => Some((h.update_hooks, h.proj)),
                None => None,
            },
    {
        match self {
            Node::Flatten(f) => Some((f.proj_helper.update_hooks, f.proj_helper.proj)),
            Node::Wrapped(w) => Some((w.proj_helper.update_hooks, w.proj_helper.proj)),
            Node::Separated(s) => Some((s.proj_helper.update_hooks, s.proj_helper.proj)),
            Node::FlattenGrid(f) => Some((f.proj_helper.update_hooks, f.proj_helper.proj)),
            Node::FlattenSingleton(f) => Some((f.proj.update_hooks, f.proj.proj)),
            _ => None,
        }
    }

    /// Whether the helper has a dependency under `key`.
    pub fn has_arg(&self, key: usize) -> (found: bool)
        ensures
            found == match self.helper() {
                Some(h) => position_of(h.keepalive@, key).is_some(),
                None => false,
            },
    {
        match self {
            Node::Flatten(f) => f.proj_helper.find(key).is_some(),
            Node::Wrapped(w) => w.proj_helper.find(key).is_some(),
            Node::Separated(s) => s.proj_helper.find(key).is_some(),
            Node::FlattenGrid(f) => f.proj_helper.find(key).is_some(),
            Node::FlattenSingleton(f) => f.proj.find(key).is_some(),
            _ => false,
        }
    }

    /// Drops the dependency `key` of the helper, as
    /// [`ProjectionHelper::remove_arg`] does.
    pub fn remove_arg(&mut self, hooks: &mut Vec<Hook>, key: usize) -> (removed: Option<usize>)
        requires
            old(self).helper().is_some(),
        ensures
            final(self).same_but_helper(*old(self)),
            match (old(self).helper(), final(self).helper()) {
                (Some(h), Some(g)) => after_removal(h, g, old(hooks)@, final(hooks)@, key, removed),
                _ => false,
            },
    {
        match self {
            Node::Flatten(f) => f.proj_helper.remove_arg(hooks, key),
            Node::Wrapped(w) => w.proj_helper.remove_arg(hooks, key),
            Node::Separated(s) => s.proj_helper.remove_arg(hooks, key),
            Node::FlattenGrid(f) => f.proj_helper.remove_arg(hooks, key),
            Node::FlattenSingleton(f) => f.proj.remove_arg(hooks, key),
            _ => None,
        }
    }

    /// Registers the observer `arg` under `key` with the helper, as
    /// [`ProjectionHelper::insert_arg`] does.
    pub fn insert_arg(&mut self, hooks: &mut Vec<Hook>, key: usize, src: usize, arg: usize)
        requires
            old(self).helper().is_some(),
        ensures
            final(self).same_but_helper(*old(self)),
            final(hooks)@ == old(hooks)@.push(Hook::Port(src)).push(Hook::Arg(arg)),
            match (old(self).helper(), final(self).helper()) {
                (Some(h), Some(g)) => {
                    &&& g.proj == h.proj
                    &&& g.update_hooks == h.update_hooks
                    &&& g.keepalive@ == h.keepalive@.push(
                        Keepalive { key, idx: old(hooks)@.len() as usize, arg },
                    )
                },
                _ => false,
            },
    {
        match self {
            Node::Flatten(f) => f.proj_helper.insert_arg(hooks, key, src, arg),
            Node::Wrapped(w) => w.proj_helper.insert_arg(hooks, key, src, arg),
            Node::Separated(s) => s.proj_helper.insert_arg(hooks, key, src, arg),
            Node::FlattenGrid(f) => f.proj_helper.insert_arg(hooks, key, src, arg),
            Node::FlattenSingleton(f) => f.proj.insert_arg(hooks, key, src, arg),
            _ => {},
        }
    }

    /// Names `proj` as the projection of the helper.
    pub fn set_proj(&mut self, proj: usize)
        requires
            old(self).helper().is_some(),
        ensures
            final(self).same_but_helper(*old(self)),
            match (old(self).helper(), final(self).helper()) {
                (Some(h), Some(g)) => {
                    &&& g.proj == Some(proj)
                    &&& g.update_hooks == h.update_hooks
                    &&& g.keepalive == h.keepalive
                },
                _ => false,
            },
    {
        match self {
            Node::Flatten(f) => f.proj_helper.set_proj(proj),
            Node::Wrapped(w) => w.proj_helper.set_proj(proj),
            Node::Separated(s) => s.proj_helper.set_proj(proj),
            Node::FlattenGrid(f) => f.proj_helper.set_proj(proj),
            Node::FlattenSingleton(f) => f.proj.set_proj(proj),
            _ => {},
        }
    }
}

/// What the removal of the dependency `key` does to a helper and to the hook
/// chain: `h` and `hooks` before, `g` and `left` after, `removed` the
/// observer that was registered.
pub open spec fn after_removal(
    h: ProjectionHelper,
    g: ProjectionHelper,
    hooks: Seq<Hook>,
    left: Seq<Hook>,
    key: usize,
    removed: Option<usize>,
) -> bool {
    &&& g.proj == h.proj
    &&& g.update_hooks == h.update_hooks
    &&& match position_of(h.keepalive@, key) {
        Some(pos) => {
            let entry = h.keepalive@[pos];
            &&& removed == Some(entry.arg)
            &&& left == without_pair(hooks, entry.idx)
            &&& g.keepalive@ == if entry.idx + 1 < hooks.len() {
                reindexed(h.keepalive@.remove(pos), entry.idx)
            } else {
                h.keepalive@.remove(pos)
            }
        },
        None => {
            &&& removed.is_none()
            &&& left == hooks
            &&& g.keepalive@ == h.keepalive@
        },
    }
}

impl<T: Copy, F: Fn(&T) -> T, P: Fn(&T) -> bool> Graph<T, F, P> {
    /// The helper of the projection at `node`.
    pub open spec fn helper_at(&self, node: usize) -> Option<ProjectionHelper> {
        if node < self.nodes@.len() {
            self.nodes@[node as int].helper()
        } else {
            None
        }
    }

    /// The projection `b` is the projection `a` but for its helper.
    pub open spec fn same_projection(a: Node<T, F, P>, b: Node<T, F, P>) -> bool {
        b.same_but_helper(a)
    }

    /// What it means that the dependency `key` of the projection at `owner`
    /// of `pre` was dropped and `self` is the outcome: the pair of hooks is
    /// gone from the hook chain, the entries behind it moved up, and the
    /// observer is no longer alive.  A key that is not registered, or a node
    /// without helper, changes nothing.
    pub open spec fn arg_dropped(&self, pre: &Self, owner: usize, key: usize) -> bool {
        match pre.helper_at(owner) {
            Some(h) => match position_of(h.keepalive@, key) {
                Some(pos) => {
                    let entry = h.keepalive@[pos];
                    let port = h.update_hooks;
                    &&& self.nodes@.len() == pre.nodes@.len()
                    &&& self.ports@.len() == pre.ports@.len()
                    &&& forall|n: int|
                        0 <= n < self.nodes@.len() && n != owner ==> self.nodes@[n]
                            == pre.nodes@[n]
                    &&& forall|q: int|
                        0 <= q < self.ports@.len() && q != port ==> self.ports@[q]
                            == pre.ports@[q]
                    &&& self.alive@ == pre.alive@.update(entry.arg as int, false)
                    &&& Self::same_projection(pre.nodes@[owner as int], self.nodes@[owner as int])
                    &&& match self.helper_at(owner) {
                        Some(g) => {
                            &&& g.proj == h.proj
                            &&& g.update_hooks == h.update_hooks
                            &&& g.keepalive@ == if entry.idx + 1
                                < pre.ports@[port as int].update_hooks@.len() {
                                reindexed(h.keepalive@.remove(pos), entry.idx)
                            } else {
                                h.keepalive@.remove(pos)
                            }
                        },
                        None => false,
                    }
                    &&& self.ports@[port as int].view == pre.ports@[port as int].view
                    &&& self.ports@[port as int].cast == pre.ports@[port as int].cast
                    &&& self.ports@[port as int].update_hooks@ == without_pair(
                        pre.ports@[port as int].update_hooks@,
                        entry.idx,
                    )
                },
                None => self.same(pre),
            },
            None => self.same(pre),
        }
    }

    /// Drops the dependency `key` of the projection at `owner`.
    pub fn remove_arg(&mut self, owner: usize, key: usize)
        requires
            old(self).wf(),
        ensures
            final(self).wf(),
            final(self).extends(old(self)),
            final(self).nodes@.len() == old(self).nodes@.len(),
            final(self).arg_dropped(old(self), owner, key),
    {
        if owner >= self.nodes.len() {
            return ;
        }
        let port = match self.nodes[owner].helper_links() {
            Some((port, _)) => port,
            None => {
                return ;
            },
        };
        if !self.nodes[owner].has_arg(key) {
            return ;
        }
        let removed = self.nodes[owner].remove_arg(&mut self.ports[port].update_hooks, key);
        proof {
            let h = old(self).helper_at(owner).unwrap();
            lemma_position_bounds(h.keepalive@, key);
            let at = position_of(h.keepalive@, key).unwrap();
            let entry = h.keepalive@[at];
            let hooks = old(self).ports@[port as int].update_hooks@;
            let g = self.helper_at(owner).unwrap();
            assert(old(self).nodes@[owner as int].wf(self.ports@.len(), self.nodes@.len()));
            assert(old(self).ports@[port as int].wf(self.ports@.len(), self.nodes@.len()));
            assert forall|k: int| 0 <= k < g.keepalive@.len() implies (#[trigger] g.keepalive@[k]).arg
                < self.nodes@.len() by {
                let orig = if k < at {
                    k
                } else {
                    k + 1
                };
                assert(h.keepalive@.remove(at)[k] == h.keepalive@[orig]);
            }
            let left = self.ports@[port as int].update_hooks@;
            assert forall|k: int| 0 <= k < left.len() implies match #[trigger] left[k] {
                Hook::Port(p) => p < self.ports@.len(),
                Hook::Arg(a) => a < self.nodes@.len(),
            } by {
                if entry.idx + 1 < hooks.len() {
                    let orig = if k < entry.idx {
                        k
                    } else {
                        k + 2
                    };
                    assert(left[k] == hooks[orig]);
                }
            }
            assert forall|p: int| 0 <= p < self.ports@.len() implies (#[trigger] self.ports@[p]).wf(
                self.ports@.len(),
                self.nodes@.len(),
            ) by {
                if p != port {
                    assert(self.ports@[p] == old(self).ports@[p]);
                }
            }
            assert forall|n: int| 0 <= n < self.nodes@.len() implies (#[trigger] self.nodes@[n]).wf(
                self.ports@.len(),
                self.nodes@.len(),
            ) by {
                if n != owner {
                    assert(self.nodes@[n] == old(self).nodes@[n]);
                }
            }
        }
        match removed {
            Some(arg) => {
                self.alive[arg] = false;
            },
            None => {},
        }
    }
}


impl<T: Copy, F: Fn(&T) -> T, P: Fn(&T) -> bool> Graph<T, F, P> {
    /// The projection and the handler that the argument at `arg` runs for:
    /// none unless the argument is alive, its owner names a projection, and
    /// the projection is alive.
    pub open spec fn runnable(&self, arg: usize) -> Option<(usize, ArgHandler)> {
        if is_live(self.alive@, arg) && arg < self.nodes@.len() {
            match self.nodes@[arg as int] {
                Node::ProjectionArg(a) => match self.helper_at(a.owner) {
                    Some(h) => match h.proj {
                        Some(p) => if is_live(self.alive@, p) && p < self.nodes@.len() {
                            Some((p, a.notify))
                        } else {
                            None
                        },
                        None => None,
                    },
                    None => None,
                },
                _ => None,
            }
        } else {
            None
        }
    }

    /// The indices that wait in the channel of the argument at `arg`.
    pub open spec fn arg_pending(&self, arg: usize) -> Seq<usize> {
        if arg < self.nodes@.len() {
            match self.nodes@[arg as int] {
                Node::ProjectionArg(a) => a.rx.pending(),
                _ => Seq::empty(),
            }
        } else {
            Seq::empty()
        }
    }

    /// The upstream view of the argument at `arg`.
    pub open spec fn arg_src(&self, arg: usize) -> Option<usize> {
        if arg < self.nodes@.len() {
            match self.nodes@[arg as int] {
                Node::ProjectionArg(a) => a.src,
                _ => None,
            }
        } else {
            None
        }
    }

    /// What it means that the argument at `arg` of `pre` ran to the depth
    /// `fuel` and `self` is the outcome: its channel was drained and its
    /// projection handled each index, in the order in which they came in.
    /// An argument that cannot run changes nothing.
    pub open spec fn arg_ran(&self, pre: &Self, arg: usize, fuel: nat) -> bool
        decreases fuel, 5nat, 0nat,
    {
        match pre.runnable(arg) {
            Some((proj, handler)) => exists|mid: Self|
                #[trigger] mid.arg_received(pre, arg, pre.arg_src(arg), Seq::empty())
                    && self.handled_all(&mid, proj, handler, pre.arg_pending(arg), fuel),
            None => match pre.runnable_index(arg) {
                Some((proj, handler)) => exists|mid: Self|
                    #[trigger] mid.index_arg_received(
                        pre,
                        arg,
                        pre.index_arg_src(arg),
                        Seq::empty(),
                    ) && self.areas_handled(
                        &mid,
                        proj,
                        handler,
                        pre.index_arg_pending(arg),
                        fuel,
                    ),
                None => self.same(pre),
            },
        }
    }

    /// What it means that the projection at `proj` handled each of `idxs`
    /// with `handler`, one after the other, and `self` is the outcome.
    pub open spec fn handled_all(
        &self,
        pre: &Self,
        proj: usize,
        handler: ArgHandler,
        idxs: Seq<usize>,
        fuel: nat,
    ) -> bool
        decreases fuel, 4nat, idxs.len(),
    {
        if idxs.len() == 0 {
            self.same(pre)
        } else {
            exists|mid: Self|
                #[trigger] mid.extends(pre) && mid.handled_all(
                    pre,
                    proj,
                    handler,
                    idxs.drop_last(),
                    fuel,
                ) && self.handled(&mid, proj, handler, idxs.last(), fuel)
        }
    }

    /// What it means that the projection at `proj` handled the index `idx`
    /// with `handler` and `self` is the outcome.
    pub open spec fn handled(
        &self,
        pre: &Self,
        proj: usize,
        handler: ArgHandler,
        idx: usize,
        fuel: nat,
    ) -> bool
        decreases fuel, 3nat, 0nat,
    {
        match handler {
            ArgHandler::FlattenTop => self.top_changed(pre, proj, idx, fuel),
            ArgHandler::FlattenChunk(key) => self.chunk_changed(pre, proj, key, idx),
            ArgHandler::Wrap => match pre.wrapped_cast(proj) {
                Some(cast) => self.emitted(pre, cast, wrap_msgs(idx)),
                None => self.same(pre),
            },
            ArgHandler::Separate => match pre.separated_cast(proj) {
                Some(cast) => self.emitted(pre, cast, separate_msgs(idx)),
                None => self.same(pre),
            },
            ArgHandler::GridTop => self.same(pre),
            ArgHandler::GridChunk(_) => self.same(pre),
            ArgHandler::FlattenOuter => self.outer_changed(pre, proj, fuel),
            ArgHandler::FlattenInner => match pre.unfolded_at(proj) {
                Some(f) => self.emitted(pre, f.cast, seq![Msg::Unit]),
                None => self.same(pre),
            },
        }
    }

    /// The port on which the wrapped sequence at `node` announces.
    pub open spec fn wrapped_cast(&self, node: usize) -> Option<usize> {
        if node < self.nodes@.len() {
            match self.nodes@[node as int] {
                Node::Wrapped(w) => Some(w.cast),
                _ => None,
            }
        } else {
            None
        }
    }

    /// The port on which the separated sequence at `node` announces.
    pub open spec fn separated_cast(&self, node: usize) -> Option<usize> {
        if node < self.nodes@.len() {
            match self.nodes@[node as int] {
                Node::Separated(s) => Some(s.cast),
                _ => None,
            }
        } else {
            None
        }
    }

    /// `self` is `pre`, but the helper of the projection at `node` names the
    /// node itself as its projection.
    pub open spec fn proj_set(&self, pre: &Self, node: usize) -> bool {
        &&& self.ports@ == pre.ports@
        &&& self.alive@ == pre.alive@
        &&& self.nodes@.len() == pre.nodes@.len()
        &&& forall|n: int|
            0 <= n < self.nodes@.len() && n != node ==> self.nodes@[n] == pre.nodes@[n]
        &&& match (pre.helper_at(node), self.helper_at(node)) {
            (Some(h), Some(g)) => {
                &&& self.nodes@[node as int].same_but_helper(pre.nodes@[node as int])
                &&& g.keepalive == h.keepalive
                &&& g.update_hooks == h.update_hooks
                &&& g.proj == Some(node)
            },
            _ => false,
        }
    }

    /// What it means that the projection `node` of the sequence on `src` was
    /// set up on the port `out` of `pre` and `self` is the outcome: the node
    /// is added, takes the sequence as its dependency `key`, is named as the
    /// projection of its helper, and is published on `out`.
    pub open spec fn installed(
        &self,
        pre: &Self,
        src: usize,
        out: usize,
        node: Node<T, F, P>,
        key: usize,
        handler: ArgHandler,
    ) -> bool {
        let id = pre.nodes@.len() as usize;
        exists|m1: Self, m2: Self, m3: Self|
            #[trigger] Self::chain(m1, m2, m3) && m1.node_added(pre, node) && (if handler.on_index() {
                m2.index_arg_renewed(&m1, id, key, src, handler, m1.reach() + 1)
            } else {
                m2.sequence_arg_renewed(&m1, id, key, src, handler, m1.reach() + 1)
            }) && m3.proj_set(&m2, id) && self.published(&m3, out, Some(id))
    }

    /// Sets up the projection `node` of the sequence on `src` on the port
    /// `out`.
    pub fn install(
        &mut self,
        src: usize,
        out: usize,
        node: Node<T, F, P>,
        key: usize,
        handler: ArgHandler,
    ) -> (id: usize)
        requires
            old(self).wf(),
            src < old(self).ports@.len(),
            out < old(self).ports@.len(),
            old(self).ports@.len() < usize::MAX,
            node.wf(old(self).ports@.len(), old(self).nodes@.len() + 1),
            node.fills_below(old(self).nodes@.len() as int),
            node.helper().is_some(),
        ensures
            final(self).wf(),
            final(self).sized(old(self)),
            id == old(self).nodes@.len(),
            final(self).view_of(out) == Some(id),
            final(self).installed(old(self), src, out, node, key, handler),
    {
        let id = self.add_node(node);
        let ghost m1 = *self;
        let fuel = self.ports.len() + 1;
        if handler.observes_index() {
            self.new_index_arg(id, key, src, handler, fuel);
        } else {
            self.new_sequence_arg(id, key, src, handler, fuel);
        }
        let ghost m2 = *self;
        proof {
            assert(m2.nodes@[id as int].kind() == m1.nodes@[id as int].kind());
        }
        self.nodes[id].set_proj(id);
        let ghost m3 = *self;
        proof {
            assert(self.ports@ =~= m2.ports@);
            assert(m2.nodes@[id as int].wf(self.ports@.len(), self.nodes@.len()));
            self.lemma_wf_after_step(&m2, id);
            assert(m3.proj_set(&m2, id));
            assert(m1.node_added(old(self), node));
        }
        self.publish(out, Some(id));
        proof {
            assert(Self::chain(m1, m2, m3));
        }
        id
    }

    /// `self` is `pre`, but the observer `arg_node` is registered under
    /// `key` with the helper of the projection at `owner`: it is a new node,
    /// alive, and its pair of hooks, the pull of `src` and the run of the
    /// new node, closes the hook chain.
    pub open spec fn arg_added(
        &self,
        pre: &Self,
        owner: usize,
        key: usize,
        src: usize,
        arg_node: Node<T, F, P>,
    ) -> bool {
        match pre.helper_at(owner) {
            Some(h) => {
                let arg = pre.nodes@.len() as usize;
                let port = h.update_hooks;
                &&& self.nodes@.len() == pre.nodes@.len() + 1
                &&& self.ports@.len() == pre.ports@.len()
                &&& self.alive@ == pre.alive@.push(true)
                &&& forall|n: int|
                    0 <= n < pre.nodes@.len() && n != owner ==> self.nodes@[n] == pre.nodes@[n]
                &&& forall|q: int|
                    0 <= q < self.ports@.len() && q != port ==> self.ports@[q] == pre.ports@[q]
                &&& self.nodes@[arg as int] == arg_node
                &&& Self::same_projection(pre.nodes@[owner as int], self.nodes@[owner as int])
                &&& match self.helper_at(owner) {
                    Some(g) => {
                        &&& g.proj == h.proj
                        &&& g.update_hooks == h.update_hooks
                        &&& g.keepalive@ == h.keepalive@.push(
                            Keepalive {
                                key,
                                idx: pre.ports@[port as int].update_hooks@.len() as usize,
                                arg,
                            },
                        )
                    },
                    None => false,
                }
                &&& self.ports@[port as int].view == pre.ports@[port as int].view
                &&& self.ports@[port as int].cast == pre.ports@[port as int].cast
                &&& self.ports@[port as int].update_hooks@ == pre.ports@[port as int].update_hooks@.push(
                    Hook::Port(src),
                ).push(Hook::Arg(arg))
            },
            None => self.same(pre),
        }
    }

    /// What it means that the projection at `owner` of `pre` took the view
    /// on `port` as its dependency `key`, with the observer `arg_node`, and
    /// `self` is the outcome: the dependency that was under the key is
    /// dropped, the new observer is registered with the helper, and it
    /// subscribes to `port`.
    pub open spec fn arg_renewed(
        &self,
        pre: &Self,
        owner: usize,
        key: usize,
        port: usize,
        arg_node: Node<T, F, P>,
        fuel: nat,
    ) -> bool
        decreases fuel, 2nat, 0nat,
    {
        if pre.helper_at(owner).is_some() {
            exists|m1: Self, m2: Self|
                #[trigger] m2.arg_added(&m1, owner, key, port, arg_node) && m1.arg_dropped(
                    pre,
                    owner,
                    key,
                ) && self.observed(&m2, port, m1.nodes@.len() as usize, fuel)
        } else {
            self.same(pre)
        }
    }

    /// An observer of a sequence for the projection at `owner`, with nothing
    /// in its channel.
    pub open spec fn fresh_arg(node: Node<T, F, P>, owner: usize, handler: ArgHandler) -> bool {
        match node {
            Node::ProjectionArg(a) => {
                &&& a.src.is_none()
                &&& a.notify == handler
                &&& a.owner == owner
                &&& a.unit == handler.on_singleton()
                &&& a.rx.send_buf.is_none()
                &&& a.rx.num_senders == 1
            },
            _ => false,
        }
    }

    /// What it means that the projection at `owner` of `pre` took the
    /// sequence, or the singleton, on `port` as its dependency `key` and
    /// `self` is the outcome.
    pub open spec fn sequence_arg_renewed(
        &self,
        pre: &Self,
        owner: usize,
        key: usize,
        port: usize,
        handler: ArgHandler,
        fuel: nat,
    ) -> bool
        decreases fuel, 2nat, 1nat,
    {
        exists|arg_node: Node<T, F, P>|
            self.arg_renewed(pre, owner, key, port, arg_node, fuel) && #[trigger] Self::fresh_arg(
                arg_node,
                owner,
                handler,
            )
    }


    /// Lets the projection at `proj` handle the index `idx` with `handler`.
    pub fn run_handler(&mut self, proj: usize, handler: ArgHandler, idx: usize, fuel: usize)
        requires
            old(self).wf(),
        ensures
            final(self).wf(),
            final(self).extends(old(self)),
            final(self).handled(old(self), proj, handler, idx, fuel as nat),
        decreases fuel, 5nat,
    {
        match handler {
            ArgHandler::FlattenTop => Flatten::update_chunk(self, proj, idx, fuel),
            ArgHandler::FlattenChunk(key) => self.chunk_notified(proj, key, idx),
            ArgHandler::Wrap => {
                if proj < self.nodes.len() {
                    match &self.nodes[proj] {
                        Node::Wrapped(w) => {
                            let cast = w.cast;
                            self.emit(cast, wrap_dirty(idx));
                        },
                        _ => {},
                    }
                }
            },
            ArgHandler::Separate => {
                if proj < self.nodes.len() {
                    match &self.nodes[proj] {
                        Node::Separated(s) => {
                            let cast = s.cast;
                            self.emit(cast, separate_dirty(idx));
                        },
                        _ => {},
                    }
                }
            },
            ArgHandler::GridTop => {},
            ArgHandler::GridChunk(_) => {},
            ArgHandler::FlattenOuter => self.unfold_outer(proj, fuel),
            ArgHandler::FlattenInner => {
                if proj < self.nodes.len() {
                    match &self.nodes[proj] {
                        Node::FlattenSingleton(f) => {
                            let cast = f.cast;
                            self.emit(cast, one_msg(Msg::Unit));
                        },
                        _ => {},
                    }
                }
            },
        }
    }

    /// Registers the new observer `arg_node` under `key` with the helper of
    /// the projection at `owner`.
    pub fn add_arg(&mut self, owner: usize, key: usize, src: usize, arg_node: Node<T, F, P>) -> (arg:
        usize)
        requires
            old(self).wf(),
            src < old(self).ports@.len(),
            arg_node.wf(old(self).ports@.len(), old(self).nodes@.len() + 1),
            arg_node.fills_below(old(self).nodes@.len() as int),
        ensures
            final(self).wf(),
            final(self).extends(old(self)),
            final(self).arg_added(old(self), owner, key, src, arg_node),
            old(self).helper_at(owner).is_some() ==> arg == old(self).nodes@.len(),
    {
        if owner >= self.nodes.len() {
            return 0;
        }
        let port = match self.nodes[owner].helper_links() {
            Some((port, _)) => port,
            None => {
                return owner;
            },
        };
        let arg = self.add_node(arg_node);
        let ghost added = *self;
        self.nodes[owner].insert_arg(&mut self.ports[port].update_hooks, key, src, arg);
        proof {
            let h = old(self).helper_at(owner).unwrap();
            assert(added.nodes@[owner as int].wf(self.ports@.len(), self.nodes@.len()));
            assert(added.ports@[port as int].wf(self.ports@.len(), self.nodes@.len()));
            assert forall|p: int| 0 <= p < self.ports@.len() implies (#[trigger] self.ports@[p]).wf(
                self.ports@.len(),
                self.nodes@.len(),
            ) by {
                if p != port {
                    assert(self.ports@[p] == added.ports@[p]);
                }
            }
            assert forall|n: int| 0 <= n < self.nodes@.len() implies (#[trigger] self.nodes@[n]).wf(
                self.ports@.len(),
                self.nodes@.len(),
            ) && self.nodes@[n].fills_below(n) by {
                if n != owner {
                    assert(self.nodes@[n] == added.nodes@[n]);
                }
            }
        }
        arg
    }

    /// Takes the view on `port` as the dependency `key` of the projection at
    /// `owner`, with the new observer `arg_node`, in place of the dependency
    /// that was under the key.
    pub fn new_arg(
        &mut self,
        owner: usize,
        key: usize,
        port: usize,
        arg_node: Node<T, F, P>,
        fuel: usize,
    )
        requires
            old(self).wf(),
            port < old(self).ports@.len(),
            arg_node.wf(old(self).ports@.len(), old(self).nodes@.len() + 1),
            arg_node.fills_below(old(self).nodes@.len() as int),
            arg_node is ProjectionArg || arg_node is IndexArg,
        ensures
            final(self).wf(),
            final(self).extends(old(self)),
            final(self).arg_renewed(old(self), owner, key, port, arg_node, fuel as nat),
        decreases fuel, 2nat,
    {
        if owner >= self.nodes.len() {
            return ;
        }
        if self.nodes[owner].helper_links().is_none() {
            return ;
        }
        self.remove_arg(owner, key);
        let ghost m1 = *self;
        proof {
            assert(m1.helper_at(owner).is_some()) by {
                if position_of(old(self).helper_at(owner).unwrap().keepalive@, key).is_none() {
                    assert(m1.nodes@ == old(self).nodes@);
                }
            }
        }
        let arg = self.add_arg(owner, key, port, arg_node);
        let ghost m2 = *self;
        self.observe(port, arg, fuel);
        proof {
            assert(m2.arg_added(&m1, owner, key, port, arg_node));
        }
    }

    /// Takes the sequence on `port` as the dependency `key` of the
    /// projection at `owner`, in place of the one that was under the key.
    pub fn new_sequence_arg(
        &mut self,
        owner: usize,
        key: usize,
        port: usize,
        handler: ArgHandler,
        fuel: usize,
    )
        requires
            old(self).wf(),
            port < old(self).ports@.len(),
            owner < old(self).nodes@.len(),
        ensures
            final(self).wf(),
            final(self).extends(old(self)),
            final(self).sequence_arg_renewed(old(self), owner, key, port, handler, fuel as nat),
        decreases fuel, 3nat,
    {
        let (tx, rx) = set_channel();
        let arg = ProjectionArg {
            src: None,
            notify: handler,
            owner,
            unit: handler.observes_singleton(),
            rx,
            tx,
        };
        let ghost made = Node::<T, F, P>::ProjectionArg(arg);
        self.new_arg(owner, key, port, Node::ProjectionArg(arg), fuel);
        proof {
            assert(Self::fresh_arg(made, owner, handler));
        }
    }
}


impl ProjectionArg {
    /// Drains the channel of the argument at `arg` and lets its projection
    /// handle each index.
    pub fn update<T: Copy, F: Fn(&T) -> T, P: Fn(&T) -> bool>(g: &mut Graph<T, F, P>, arg: usize, fuel: usize)
        requires
            old(g).wf(),
        ensures
            final(g).wf(),
            final(g).extends(old(g)),
            final(g).arg_ran(old(g), arg, fuel as nat),
        decreases fuel, 7nat,
    {
        if arg >= g.nodes.len() || !g.alive[arg] {
            return ;
        }
        let (owner, handler) = match &g.nodes[arg] {
            Node::ProjectionArg(a) => (a.owner, a.notify),
            Node::IndexArg(_) => {
                g.update_index_arg(arg, fuel);
                return ;
            },
            _ => {
                return ;
            },
        };
        let proj = match g.nodes[owner].helper_links() {
            Some((_, proj)) => proj,
            None => None,
        };
        let proj = match proj {
            Some(p) => {
                if p < g.nodes.len() && g.alive[p] {
                    p
                } else {
                    return ;
                }
            },
            None => {
                return ;
            },
        };
        let idxs: Vec<usize> = match &mut g.nodes[arg] {
            Node::ProjectionArg(a) => match a.rx.try_recv() {
                Some(buf) => buf.into_items(),
                None => Vec::new(),
            },
            _ => Vec::new(),
        };
        let ghost taken = *g;
        proof {
            assert(g.ports@ =~= old(g).ports@);
            g.lemma_wf_after_step(old(g), arg);
            assert(taken.arg_received(old(g), arg, old(g).arg_src(arg), Seq::empty()));
            assert(idxs@ == old(g).arg_pending(arg));
        }
        let mut i: usize = 0;
        while i < idxs.len()
            invariant
                i <= idxs@.len(),
                g.wf(),
                g.extends(&taken),
                proj < taken.nodes@.len(),
                g.handled_all(&taken, proj, handler, idxs@.subrange(0, i as int), fuel as nat),
            decreases idxs@.len() - i,
        {
            let ghost mid = *g;
            g.run_handler(proj, handler, idxs[i], fuel);
            proof {
                let now = idxs@.subrange(0, i as int + 1);
                assert(now.drop_last() =~= idxs@.subrange(0, i as int));
                assert(now.last() == idxs@[i as int]);
                assert(mid.extends(&taken));
                assert(g.handled_all(&taken, proj, handler, now, fuel as nat));
            }
            i += 1;
        }
        proof {
            assert(idxs@.subrange(0, i as int) =~= idxs@);
        }
    }
}


impl ProjectionHelper {
    /// Takes the view on `port` as the dependency `arg_key` of the
    /// projection at `owner`, with the new observer `arg_node`, in place of
    /// the dependency that was under the key.
    pub fn new_arg<T: Copy, F: Fn(&T) -> T, P: Fn(&T) -> bool>(
        g: &mut Graph<T, F, P>,
        owner: usize,
        arg_key: usize,
        port: usize,
        arg_node: Node<T, F, P>,
    )
        requires
            old(g).wf(),
            port < old(g).ports@.len(),
            old(g).ports@.len() < usize::MAX,
            arg_node.wf(old(g).ports@.len(), old(g).nodes@.len() + 1),
            arg_node.fills_below(old(g).nodes@.len() as int),
            arg_node is ProjectionArg || arg_node is IndexArg,
        ensures
            final(g).wf(),
            final(g).extends(old(g)),
            final(g).arg_renewed(old(g), owner, arg_key, port, arg_node, old(g).reach() + 1),
    {
        let fuel = g.ports.len() + 1;
        g.new_arg(owner, arg_key, port, arg_node, fuel);
    }

    /// Takes the singleton on `port` as the dependency `arg_key` of the
    /// projection at `owner`; hands out the cell of the view.
    pub fn new_singleton_arg<T: Copy, F: Fn(&T) -> T, P: Fn(&T) -> bool>(
        g: &mut Graph<T, F, P>,
        owner: usize,
        arg_key: usize,
        port: OuterViewPort<Singleton>,
        notify: ArgHandler,
    ) -> (cell: ViewCell<Singleton>)
        requires
            old(g).wf(),
            port.0.valid(old(g)),
            owner < old(g).nodes@.len(),
            old(g).ports@.len() < usize::MAX,
            notify.on_singleton(),
        ensures
            final(g).wf(),
            final(g).extends(old(g)),
            cell.port == port.0.id,
            final(g).sequence_arg_renewed(
                old(g),
                owner,
                arg_key,
                port.0.id,
                notify,
                old(g).reach() + 1,
            ),
    {
        let fuel = g.ports.len() + 1;
        g.new_sequence_arg(owner, arg_key, port.0.id, notify, fuel);
        port.get_view_arc()
    }

    /// Takes the sequence on `port` as the dependency `arg_key` of the
    /// projection at `owner`; hands out the cell of the view.
    pub fn new_sequence_arg<T: Copy, F: Fn(&T) -> T, P: Fn(&T) -> bool>(
        g: &mut Graph<T, F, P>,
        owner: usize,
        arg_key: usize,
        port: OuterViewPort<Sequence>,
        notify: ArgHandler,
    ) -> (cell: ViewCell<Sequence>)
        requires
            old(g).wf(),
            port.0.valid(old(g)),
            owner < old(g).nodes@.len(),
            old(g).ports@.len() < usize::MAX,
            !notify.on_singleton(),
        ensures
            final(g).wf(),
            final(g).extends(old(g)),
            cell.port == port.0.id,
            final(g).sequence_arg_renewed(
                old(g),
                owner,
                arg_key,
                port.0.id,
                notify,
                old(g).reach() + 1,
            ),
    {
        let fuel = g.ports.len() + 1;
        g.new_sequence_arg(owner, arg_key, port.0.id, notify, fuel);
        port.get_view_arc()
    }

    /// Takes the index on `port` as the dependency `arg_key` of the
    /// projection at `owner`; hands out the cell of the view.
    pub fn new_index_arg<T: Copy, F: Fn(&T) -> T, P: Fn(&T) -> bool>(
        g: &mut Graph<T, F, P>,
        owner: usize,
        arg_key: usize,
        port: OuterViewPort<Index>,
        notify: ArgHandler,
    ) -> (cell: ViewCell<Index>)
        requires
            old(g).wf(),
            port.0.valid(old(g)),
            owner < old(g).nodes@.len(),
            old(g).ports@.len() < usize::MAX,
        ensures
            final(g).wf(),
            final(g).extends(old(g)),
            cell.port == port.0.id,
            final(g).index_arg_renewed(
                old(g),
                owner,
                arg_key,
                port.0.id,
                notify,
                old(g).reach() + 1,
            ),
    {
        let fuel = g.ports.len() + 1;
        g.new_index_arg(owner, arg_key, port.0.id, notify, fuel);
        port.get_view_arc()
    }
}

} // verus!
