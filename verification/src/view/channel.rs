//! Mailboxes between producers and one consumer.
//!
//! Messages sent into a channel are merged into one pending aggregate under
//! the policy of the aggregate's type: a queue keeps every message in order,
//! a set keeps the first of equal messages, a slot keeps the latest message.
use vstd::prelude::*;

verus! {

/// An aggregate of pending messages with a merge policy.
pub trait ChannelData: Sized {
    type Item;

    /// The pending messages, in the order in which they are handed out.
    spec fn items(&self) -> Seq<Self::Item>;

    /// The merge policy: the pending messages after `x` came in.
    spec fn merged(pending: Seq<Self::Item>, x: Self::Item) -> Seq<Self::Item>;

    /// An aggregate that holds nothing.
    fn empty() -> (data: Self)
        ensures
            data.items() == Seq::<Self::Item>::empty(),
    ;

    fn channel_insert(&mut self, x: Self::Item)
        ensures
            final(self).items() == Self::merged(old(self).items(), x),
    ;

    /// Hands the pending messages out.
    fn into_items(self) -> (out: Vec<Self::Item>)
        ensures
            out@ == self.items(),
    ;
}

/// Queue policy: every message is kept, in the order of arrival.
impl<T> ChannelData for Vec<T> {
    type Item = T;

    open spec fn items(&self) -> Seq<T> {
        self@
    }

    open spec fn merged(pending: Seq<T>, x: T) -> Seq<T> {
        pending.push(x)
    }

    fn empty() -> (data: Self) {
        Vec::new()
    }

    fn channel_insert(&mut self, x: T) {
        self.push(x);
    }

    fn into_items(self) -> (out: Vec<T>) {
        self
    }
}

/// Slot policy: only the latest message is kept.
impl<T> ChannelData for Option<T> {
    type Item = T;

    open spec fn items(&self) -> Seq<T> {
        match *self {
            Some(x) => seq![x],
            None => Seq::empty(),
        }
    }

    open spec fn merged(pending: Seq<T>, x: T) -> Seq<T> {
        seq![x]
    }

    fn empty() -> (data: Self) {
        None
    }

    fn channel_insert(&mut self, x: T) {
        *self = Some(x);
    }

    fn into_items(self) -> (out: Vec<T>) {
        let mut out = Vec::new();
        match self {
            Some(x) => {
                out.push(x);
            },
            None => {},
        }
        out
    }
}

/// A set of indices that remembers the order in which they first came in.
pub struct IndexSet {
    pub keys: Vec<usize>,
}

impl IndexSet {
    /// No index occurs twice.
    pub open spec fn wf(&self) -> bool {
        self.keys@.no_duplicates()
    }

    /// A set without indices.
    pub fn new() -> (set: Self)
        ensures
            set.keys@ == Seq::<usize>::empty(),
            set.wf(),
    {
        IndexSet { keys: Vec::new() }
    }

    /// Whether `x` is in the set.
    pub fn contains(&self, x: usize) -> (found: bool)
        ensures
            found == self.keys@.contains(x),
    {
        let mut i: usize = 0;
        while i < self.keys.len()
            invariant
                i <= self.keys@.len(),
                forall|k: int| 0 <= k < i ==> self.keys@[k] != x,
            decreases self.keys@.len() - i,
        {
            if self.keys[i] == x {
                return true;
            }
            i += 1;
        }
        false
    }

    /// Adds `x` unless it is there; says whether it was added.
    pub fn insert(&mut self, x: usize) -> (added: bool)
        ensures
            added == !old(self).keys@.contains(x),
            final(self).keys@ == set_merged(old(self).keys@, x),
            old(self).wf() ==> final(self).wf(),
    {
        if self.contains(x) {
            false
        } else {
            self.keys.push(x);
            true
        }
    }
}

/// Set policy on sequences: `x` is appended unless it is pending already.
pub open spec fn set_merged(pending: Seq<usize>, x: usize) -> Seq<usize> {
    if pending.contains(x) {
        pending
    } else {
        pending.push(x)
    }
}

/// The set policy keeps a mailbox free of duplicates.
pub proof fn lemma_set_merged_no_duplicates(pending: Seq<usize>, x: usize)
    requires
        pending.no_duplicates(),
    ensures
        set_merged(pending, x).no_duplicates(),
{
    if !pending.contains(x) {
        let merged = pending.push(x);
        assert forall|i: int, j: int| 0 <= i < merged.len() && 0 <= j < merged.len() && i
            != j implies merged[i] != merged[j] by {
            if i == pending.len() {
                assert(pending[j] != x);
            } else if j == pending.len() {
                assert(pending[i] != x);
            }
        }
    }
}

/// Set policy: of equal messages only the first is kept.
impl ChannelData for IndexSet {
    type Item = usize;

    open spec fn items(&self) -> Seq<usize> {
        self.keys@
    }

    open spec fn merged(pending: Seq<usize>, x: usize) -> Seq<usize> {
        set_merged(pending, x)
    }

    fn empty() -> (data: Self) {
        IndexSet::new()
    }

    fn channel_insert(&mut self, x: usize) {
        self.insert(x);
    }

    fn into_items(self) -> (out: Vec<usize>) {
        self.keys
    }
}

/// What a read of a channel finds.
pub enum Received<Data> {
    /// The pending aggregate.
    Ready(Data),
    /// Nothing is pending and a sender is left: a reader has to wait.
    Pending,
    /// Nothing is pending and no sender is left: no more data.
    Closed,
}

/// The capability to send into a channel.  The count of these capabilities is
/// kept by the receiver; one is made by [`channel`], more by
/// [`ChannelSender::duplicate`], and [`ChannelSender::dispose`] gives one back.
pub struct ChannelSender {
    pub serial: usize,
}

/// The consuming end of a channel; it holds the mailbox.
pub struct ChannelReceiver<Data> {
    pub send_buf: Option<Data>,
    pub num_senders: usize,
}

impl<Data: ChannelData> ChannelReceiver<Data> {
    /// The pending messages, in the order in which they will be handed out.
    pub open spec fn pending(&self) -> Seq<Data::Item> {
        match self.send_buf {
            Some(buf) => buf.items(),
            None => Seq::empty(),
        }
    }

    /// Drains the mailbox without waiting: the pending aggregate, or nothing
    /// if no message came in since the last read.
    pub fn try_recv(&mut self) -> (got: Option<Data>)
        ensures
            got == old(self).send_buf,
            final(self).send_buf.is_none(),
            final(self).num_senders == old(self).num_senders,
    {
        self.send_buf.take()
    }

    /// One step of a waiting read: drains the mailbox if anything is pending,
    /// reports the end of the stream if no sender is left, and otherwise asks
    /// the reader to wait.
    pub fn poll(&mut self) -> (got: Received<Data>)
        ensures
            got == old(self).outcome(),
            final(self).send_buf.is_none(),
            final(self).num_senders == old(self).num_senders,
    {
        match self.send_buf.take() {
            Some(buf) => Received::Ready(buf),
            None => if self.num_senders == 0 {
                Received::Closed
            } else {
                Received::Pending
            },
        }
    }
}

impl ChannelSender {
    /// Merges `msg` into the mailbox of `rx`.
    pub fn send<Data: ChannelData>(&self, rx: &mut ChannelReceiver<Data>, msg: Data::Item)
        ensures
            final(rx).send_buf.is_some(),
            final(rx).pending() == Data::merged(old(rx).pending(), msg),
            final(rx).num_senders == old(rx).num_senders,
    {
        let mut buf = match rx.send_buf.take() {
            Some(buf) => buf,
            None => Data::empty(),
        };
        buf.channel_insert(msg);
        rx.send_buf = Some(buf);
    }

    /// Makes one more sender of `rx`.  The count saturates.
    pub fn duplicate<Data: ChannelData>(&self, rx: &mut ChannelReceiver<Data>) -> (other: Self)
        ensures
            final(rx).send_buf == old(rx).send_buf,
            final(rx).num_senders == if old(rx).num_senders < usize::MAX {
                old(rx).num_senders + 1
            } else {
                usize::MAX as int
            },
            other.serial == final(rx).num_senders,
    {
        if rx.num_senders < usize::MAX {
            rx.num_senders = rx.num_senders + 1;
        }
        ChannelSender { serial: rx.num_senders }
    }

    /// Gives this sender back.  When the last one is gone, a reader finds the
    /// stream closed as soon as the mailbox is empty.
    pub fn dispose<Data: ChannelData>(self, rx: &mut ChannelReceiver<Data>)
        ensures
            final(rx).send_buf == old(rx).send_buf,
            final(rx).num_senders == after_dispose(old(rx).num_senders),
    {
        if rx.num_senders > 0 {
            rx.num_senders = rx.num_senders - 1;
        }
    }
}

/// A fresh channel with one sender and an empty mailbox.
pub fn channel<Data: ChannelData>() -> (ends: (ChannelSender, ChannelReceiver<Data>))
    ensures
        ends.0.serial == 1,
        ends.1.send_buf.is_none(),
        ends.1.num_senders == 1,
{
    (ChannelSender { serial: 1 }, ChannelReceiver { send_buf: None, num_senders: 1 })
}

/// A channel that keeps of equal indices only the first.
pub fn set_channel() -> (ends: (ChannelSender, ChannelReceiver<IndexSet>))
    ensures
        ends.0.serial == 1,
        ends.1.send_buf.is_none(),
        ends.1.num_senders == 1,
{
    channel::<IndexSet>()
}

/// A channel that keeps every message in order.
pub fn queue_channel<T>() -> (ends: (ChannelSender, ChannelReceiver<Vec<T>>))
    ensures
        ends.0.serial == 1,
        ends.1.send_buf.is_none(),
        ends.1.num_senders == 1,
{
    channel::<Vec<T>>()
}

/// A channel that keeps only the latest message.
pub fn singleton_channel<T>() -> (ends: (ChannelSender, ChannelReceiver<Option<T>>))
    ensures
        ends.0.serial == 1,
        ends.1.send_buf.is_none(),
        ends.1.num_senders == 1,
{
    channel::<Option<T>>()
}


impl<Data: ChannelData> ChannelReceiver<Data> {
    /// What a read of this mailbox finds: the pending aggregate; else the
    /// end of the stream if no sender is left; else nothing yet.
    pub open spec fn outcome(&self) -> Received<Data> {
        match self.send_buf {
            Some(buf) => Received::Ready(buf),
            None => if self.num_senders == 0 {
                Received::Closed
            } else {
                Received::Pending
            },
        }
    }
}

/// The number of senders after one of `n` is disposed of.
pub open spec fn after_dispose(n: usize) -> usize {
    if n > 0 {
        (n - 1) as usize
    } else {
        0
    }
}

/// The number of senders after `k` of `n` are disposed of, one by one.
pub open spec fn after_disposals(n: usize, k: nat) -> usize
    decreases k,
{
    if k == 0 {
        n
    } else {
        after_dispose(after_disposals(n, (k - 1) as nat))
    }
}

/// Once every sender is disposed of, a reader of an empty mailbox finds the
/// end of the stream, whether anything was ever sent or not: a mailbox with
/// `n` senders in which nothing is pending reads as closed after `n`
/// disposals, and as pending after fewer.
pub proof fn lemma_end_of_stream<Data: ChannelData>(rx: ChannelReceiver<Data>, n: usize, k: nat)
    requires
        rx.send_buf.is_none(),
        rx.num_senders == after_disposals(n, k),
        k <= n,
    ensures
        after_disposals(n, k) == n - k,
        k == n ==> rx.outcome() == Received::<Data>::Closed,
        k < n ==> rx.outcome() == Received::<Data>::Pending,
    decreases k,
{
    if k > 0 {
        let before = ChannelReceiver::<Data> {
            send_buf: None,
            num_senders: after_disposals(n, (k - 1) as nat),
        };
        lemma_end_of_stream::<Data>(before, n, (k - 1) as nat);
    }
}

} // verus!
