//! A keyed buffer that announces each change.
use vstd::prelude::*;
use crate::graph::{Graph, Node};
use crate::projection::vec2seq::one_msg;
use crate::view::Msg;
use crate::view::index::{AreaMsg, Index, Key};
use crate::view::port::{InnerViewPort, OuterViewPort, ViewPort};

verus! {

/// What the graph keeps of an index buffer: the keys in the order in which
/// they came in, the item of each, and the port on which each change is
/// announced.
pub struct IndexBufferView<T> {
    pub keys: Vec<Key>,
    pub items: Vec<T>,
    pub port: usize,
}

/// What the graph keeps of an index buffer whose items are views: the keys,
/// the port of the nested view of each, and the port on which each change is
/// announced.
pub struct IndexViews {
    pub keys: Vec<Key>,
    pub views: Vec<usize>,
    pub port: usize,
}

/// An index buffer: the handle of its owner.
#[derive(Clone, Copy)]
pub struct IndexBuffer {
    pub data: usize,
    pub port: InnerViewPort<Index>,
}

/// The position of `key` in `keys`.
pub open spec fn key_slot(keys: Seq<Key>, key: Key) -> Option<int>
    decreases keys.len(),
{
    if keys.len() == 0 {
        None
    } else {
        match key_slot(keys.drop_last(), key) {
            Some(k) => Some(k),
            None => if keys.last() == key {
                Some(keys.len() - 1)
            } else {
                None
            },
        }
    }
}

/// The position of a key is a position of the list, where the key stands.
pub proof fn lemma_key_slot_bounds(keys: Seq<Key>, key: Key)
    ensures
        match key_slot(keys, key) {
            Some(k) => 0 <= k < keys.len() && keys[k] == key,
            None => !keys.contains(key),
        },
    decreases keys.len(),
{
    if keys.len() > 0 {
        lemma_key_slot_bounds(keys.drop_last(), key);
        if key_slot(keys.drop_last(), key).is_none() && keys.last() != key {
            assert forall|i: int| 0 <= i < keys.len() implies keys[i] != key by {
                if i < keys.len() - 1 {
                    assert(keys.drop_last()[i] == keys[i]);
                }
            }
        }
    }
}

/// A key that does not stand in a list without duplicates can be added.
pub proof fn lemma_put_no_duplicates(keys: Seq<Key>, key: Key)
    requires
        keys.no_duplicates(),
        !keys.contains(key),
    ensures
        keys.push(key).no_duplicates(),
{
    let more = keys.push(key);
    assert forall|i: int, j: int| 0 <= i < more.len() && 0 <= j < more.len() && i
        != j implies more[i] != more[j] by {
        if i == keys.len() {
            assert(keys[j] != key);
        } else if j == keys.len() {
            assert(keys[i] != key);
        }
    }
}

/// Taking a key out of a list without duplicates leaves none.
pub proof fn lemma_remove_no_duplicates(keys: Seq<Key>, k: int)
    requires
        keys.no_duplicates(),
        0 <= k < keys.len(),
    ensures
        keys.remove(k).no_duplicates(),
{
    let less = keys.remove(k);
    assert forall|i: int, j: int| 0 <= i < less.len() && 0 <= j < less.len() && i
        != j implies less[i] != less[j] by {
        let oi = if i < k {
            i
        } else {
            i + 1
        };
        let oj = if j < k {
            j
        } else {
            j + 1
        };
        assert(less[i] == keys[oi]);
        assert(less[j] == keys[oj]);
    }
}

/// The position of `key` in `keys`.
pub fn find_key(keys: &Vec<Key>, key: Key) -> (pos: Option<usize>)
    ensures
        match pos {
            Some(k) => key_slot(keys@, key) == Some(k as int) && k < keys@.len() && keys@[k as int]
                == key,
            None => key_slot(keys@, key).is_none(),
        },
{
    let mut k: usize = 0;
    let mut found: Option<usize> = None;
    while k < keys.len()
        invariant
            k <= keys@.len(),
            match found {
                Some(j) => key_slot(keys@.subrange(0, k as int), key) == Some(j as int) && j < k
                    && keys@[j as int] == key,
                None => key_slot(keys@.subrange(0, k as int), key).is_none(),
            },
        decreases keys@.len() - k,
    {
        proof {
            assert(keys@.subrange(0, k as int + 1).drop_last() =~= keys@.subrange(0, k as int));
        }
        if found.is_none() && keys[k] == key {
            found = Some(k);
        }
        k += 1;
    }
    proof {
        assert(keys@.subrange(0, k as int) =~= keys@);
    }
    found
}

impl<T: Copy> IndexBufferView<T> {
    /// Each key has its item, and no key stands twice.
    pub open spec fn wf(&self) -> bool {
        self.keys@.len() == self.items@.len() && self.keys@.no_duplicates()
    }

    /// The item under `key`.
    pub open spec fn item_at(&self, key: Key) -> Option<T> {
        match key_slot(self.keys@, key) {
            Some(k) => if k < self.items@.len() {
                Some(self.items@[k])
            } else {
                None
            },
            None => None,
        }
    }

    /// The item under `key`.
    pub fn get(&self, key: Key) -> (item: Option<T>)
        ensures
            item == self.item_at(key),
    {
        match find_key(&self.keys, key) {
            Some(k) => if k < self.items.len() {
                Some(self.items[k])
            } else {
                None
            },
            None => None,
        }
    }

    /// Puts `item` under `key`, in place of the item that was there.
    pub fn insert(&mut self, key: Key, item: T)
        requires
            old(self).wf(),
        ensures
            final(self).wf(),
            final(self).port == old(self).port,
            final(self).item_at(key) == Some(item),
            forall|other: Key| other != key ==> final(self).item_at(other) == old(self).item_at(other),
            match key_slot(old(self).keys@, key) {
                Some(k) => final(self).keys@ == old(self).keys@ && final(self).items@ == old(
                    self,
                ).items@.update(k, item),
                None => final(self).keys@ == old(self).keys@.push(key) && final(self).items@ == old(
                    self,
                ).items@.push(item),
            },
    {
        match find_key(&self.keys, key) {
            Some(k) => {
                self.items[k] = item;
                proof {
                    assert forall|other: Key| other != key implies self.item_at(other) == old(
                        self,
                    ).item_at(other) by {
                        lemma_key_slot_bounds(old(self).keys@, other);
                    }
                }
            },
            None => {
                self.keys.push(key);
                self.items.push(item);
                proof {
                    lemma_key_slot_bounds(old(self).keys@, key);
                    lemma_put_no_duplicates(old(self).keys@, key);
                    assert(self.keys@.drop_last() =~= old(self).keys@);
                    assert forall|other: Key| other != key implies self.item_at(other) == old(
                        self,
                    ).item_at(other) by {
                        lemma_key_slot_bounds(old(self).keys@, other);
                    }
                }
            },
        }
    }

    /// Takes the item under `key` out; says whether there was one.
    pub fn remove(&mut self, key: Key) -> (found: bool)
        requires
            old(self).wf(),
        ensures
            final(self).wf(),
            final(self).port == old(self).port,
            found == key_slot(old(self).keys@, key).is_some(),
            match key_slot(old(self).keys@, key) {
                Some(k) => final(self).keys@ == old(self).keys@.remove(k) && final(self).items@
                    == old(self).items@.remove(k),
                None => final(self).keys@ == old(self).keys@ && final(self).items@ == old(
                    self,
                ).items@,
            },
    {
        match find_key(&self.keys, key) {
            Some(k) => {
                self.keys.remove(k);
                self.items.remove(k);
                proof {
                    lemma_remove_no_duplicates(old(self).keys@, k as int);
                }
                true
            },
            None => false,
        }
    }
}


/// The keys and the items of an index buffer after `item` was put under
/// `key`, or after the item under `key` was taken out where `item` is none.
pub open spec fn after_put<T>(keys: Seq<Key>, items: Seq<T>, key: Key, item: Option<T>) -> (
    Seq<Key>,
    Seq<T>,
) {
    match (key_slot(keys, key), item) {
        (Some(k), Some(x)) => (keys, items.update(k, x)),
        (None, Some(x)) => (keys.push(key), items.push(x)),
        (Some(k), None) => (keys.remove(k), items.remove(k)),
        (None, None) => (keys, items),
    }
}

impl<T: Copy, F: Fn(&T) -> T, P: Fn(&T) -> bool> Graph<T, F, P> {
    /// The index buffer at `node`.
    pub open spec fn index_at(&self, node: usize) -> Option<IndexBufferView<T>> {
        if node < self.nodes@.len() {
            match self.nodes@[node as int] {
                Node::IndexBufferView(d) => Some(d),
                _ => None,
            }
        } else {
            None
        }
    }

    /// What it means that `item` was put under `key` of the index buffer at
    /// `buf` of `pre`, or that the item under `key` was taken out where
    /// `item` is none, and `self` is the outcome: the buffer is changed and
    /// the key is announced on its port.
    pub open spec fn index_updated(&self, pre: &Self, buf: usize, key: Key, item: Option<T>) -> bool {
        match (pre.index_at(buf), self.index_at(buf)) {
            (Some(d), Some(e)) => {
                &&& self.stepped(pre, buf, d.port, seq![Msg::Area(AreaMsg::Key(key))])
                &&& e.port == d.port
                &&& (e.keys@, e.items@) == after_put(d.keys@, d.items@, key, item)
            },
            (Some(_), None) => false,
            (None, _) => self.same(pre),
        }
    }

    /// Puts `item` under `key` of the index buffer at `buf`, or takes the
    /// item under `key` out where `item` is none, and announces the key.
    pub fn index_put(&mut self, buf: usize, key: Key, item: Option<T>)
        requires
            old(self).wf(),
        ensures
            final(self).wf(),
            final(self).extends(old(self)),
            final(self).index_updated(old(self), buf, key, item),
    {
        if buf >= self.nodes.len() {
            return ;
        }
        let port = match &self.nodes[buf] {
            Node::IndexBufferView(d) => d.port,
            _ => {
                return ;
            },
        };
        match &mut self.nodes[buf] {
            Node::IndexBufferView(d) => match item {
                Some(x) => {
                    d.insert(key, x);
                },
                None => {
                    d.remove(key);
                },
            },
            _ => {},
        }
        proof {
            assert(self.ports@ =~= old(self).ports@);
            assert(old(self).nodes@[buf as int].wf(self.ports@.len(), self.nodes@.len()));
            self.lemma_wf_after_step(old(self), buf);
        }
        self.emit(port, one_msg(Msg::Area(AreaMsg::Key(key))));
    }
}

impl IndexBuffer {
    /// The item under `key`, as the graph `g` has it.
    pub open spec fn item_at<T: Copy, F: Fn(&T) -> T, P: Fn(&T) -> bool>(
        &self,
        g: &Graph<T, F, P>,
        key: Key,
    ) -> Option<T> {
        match g.index_at(self.data) {
            Some(d) => d.item_at(key),
            None => None,
        }
    }

    /// Whether this is an index buffer of `g`, with its port.
    pub open spec fn valid<T: Copy, F: Fn(&T) -> T, P: Fn(&T) -> bool>(
        &self,
        g: &Graph<T, F, P>,
    ) -> bool {
        match g.index_at(self.data) {
            Some(d) => d.port == self.port.0.id && self.port.0.id < g.ports@.len(),
            None => false,
        }
    }

    /// An empty buffer that announces on `port`.
    pub fn with_port<T: Copy, F: Fn(&T) -> T, P: Fn(&T) -> bool>(
        g: &mut Graph<T, F, P>,
        port: InnerViewPort<Index>,
    ) -> (buf: Self)
        requires
            old(g).wf(),
            port.0.valid(old(g)),
        ensures
            final(g).wf(),
            final(g).sized(old(g)),
            buf.valid(final(g)),
            buf.port == port,
            buf.data + 1 == final(g).nodes@.len(),
            buf.data >= old(g).nodes@.len(),
            forall|key: Key| buf.item_at(final(g), key).is_none(),
            final(g).view_of(port.0.id) == Some(buf.data),
            exists|d: IndexBufferView<T>|
                #[trigger] final(g).adopted(old(g), port.0.id, Node::IndexBufferView(d)) && d.keys@
                    == Seq::<Key>::empty() && d.items@ == Seq::<T>::empty() && d.port == port.0.id,
    {
        let d = IndexBufferView { keys: Vec::new(), items: Vec::new(), port: port.0.id };
        let ghost made = d;
        let node = g.adopt(port.0.id, Node::IndexBufferView(d));
        proof {
            assert(g.adopted(old(g), port.0.id, Node::IndexBufferView(made)));
        }
        IndexBuffer { data: node, port }
    }

    /// An empty buffer on a new port.
    pub fn new<T: Copy, F: Fn(&T) -> T, P: Fn(&T) -> bool>(g: &mut Graph<T, F, P>) -> (buf: Self)
        requires
            old(g).wf(),
        ensures
            final(g).wf(),
            buf.valid(final(g)),
            buf.port.0.id == old(g).ports@.len(),
            buf.data + 1 == final(g).nodes@.len(),
            buf.data >= old(g).nodes@.len(),
            forall|key: Key| buf.item_at(final(g), key).is_none(),
            final(g).view_of(buf.port.0.id) == Some(buf.data),
            final(g).ports@.len() == old(g).ports@.len() + 1,
            exists|mid: Graph<T, F, P>, d: IndexBufferView<T>|
                #[trigger] final(g).adopted(&mid, buf.port.0.id, Node::IndexBufferView(d)) && d.keys@
                    == Seq::<Key>::empty() && d.items@ == Seq::<T>::empty() && d.port
                    == buf.port.0.id && mid.port_added(old(g)),
    {
        let port = ViewPort::<Index>::new(g).into_inner();
        let ghost mid = *g;
        let buf = IndexBuffer::with_port(g, port);
        proof {
            assert(mid.port_added(old(g)));
        }
        buf
    }

    /// The consumers' facet of the port of this buffer.
    pub fn get_port(&self) -> (port: OuterViewPort<Index>)
        ensures
            port.0 == self.port.0,
    {
        self.port.0.outer()
    }

    /// The item under `key`.
    pub fn get<T: Copy, F: Fn(&T) -> T, P: Fn(&T) -> bool>(&self, g: &Graph<T, F, P>, key: &Key) -> (item:
        Option<T>)
        ensures
            item == self.item_at(g, *key),
    {
        if self.data >= g.nodes.len() {
            return None;
        }
        match &g.nodes[self.data] {
            Node::IndexBufferView(d) => d.get(*key),
            _ => None,
        }
    }

    /// A copy of the item under `key` to work on; it goes back into the
    /// buffer when it is committed.
    pub fn get_mut<T: Copy, F: Fn(&T) -> T, P: Fn(&T) -> bool>(
        &mut self,
        g: &Graph<T, F, P>,
        key: &Key,
    ) -> (access: MutableIndexAccess<T>)
        ensures
            *final(self) == *old(self),
            access.buf == *old(self),
            access.key == *key,
            access.val == old(self).item_at(g, *key),
    {
        MutableIndexAccess { buf: *self, key: *key, val: self.get(g, key) }
    }

    /// Puts `item` under `key`, or takes the item under `key` out where
    /// `item` is none; either way the key is announced.
    pub fn update<T: Copy, F: Fn(&T) -> T, P: Fn(&T) -> bool>(
        &mut self,
        g: &mut Graph<T, F, P>,
        key: Key,
        item: Option<T>,
    )
        requires
            old(g).wf(),
        ensures
            *final(self) == *old(self),
            final(g).wf(),
            final(g).extends(old(g)),
            final(g).index_updated(old(g), old(self).data, key, item),
    {
        g.index_put(self.data, key, item);
    }

    /// Puts `item` under `key` and announces the key.
    pub fn insert<T: Copy, F: Fn(&T) -> T, P: Fn(&T) -> bool>(
        &mut self,
        g: &mut Graph<T, F, P>,
        key: Key,
        item: T,
    )
        requires
            old(g).wf(),
        ensures
            *final(self) == *old(self),
            final(g).wf(),
            final(g).extends(old(g)),
            final(g).index_updated(old(g), old(self).data, key, Some(item)),
    {
        g.index_put(self.data, key, Some(item));
    }

    /// What it means that the pairs `pairs` were put into the index buffer
    /// at `buf` of `pre`, one after the other, and `post` is the outcome.
    pub open spec fn inserted_all<T: Copy, F: Fn(&T) -> T, P: Fn(&T) -> bool>(
        post: &Graph<T, F, P>,
        pre: &Graph<T, F, P>,
        buf: usize,
        pairs: Seq<(Key, T)>,
    ) -> bool
        decreases pairs.len(),
    {
        if pairs.len() == 0 {
            post.same(pre)
        } else {
            exists|mid: Graph<T, F, P>|
                Self::inserted_all(&mid, pre, buf, pairs.drop_last()) && #[trigger] post.index_updated(
                    &mid,
                    buf,
                    pairs.last().0,
                    Some(pairs.last().1),
                )
        }
    }

    /// Puts each pair of `iter` into the buffer, in their order.
    pub fn insert_iter<T: Copy, F: Fn(&T) -> T, P: Fn(&T) -> bool>(
        &mut self,
        g: &mut Graph<T, F, P>,
        iter: Vec<(Key, T)>,
    )
        requires
            old(g).wf(),
        ensures
            *final(self) == *old(self),
            final(g).wf(),
            final(g).extends(old(g)),
            Self::inserted_all(final(g), old(g), old(self).data, iter@),
    {
        let mut i: usize = 0;
        while i < iter.len()
            invariant
                i <= iter@.len(),
                *self == *old(self),
                g.wf(),
                g.extends(old(g)),
                Self::inserted_all(g, old(g), self.data, iter@.subrange(0, i as int)),
            decreases iter@.len() - i,
        {
            let ghost mid = *g;
            let (key, item) = iter[i];
            self.insert(g, key, item);
            proof {
                let now = iter@.subrange(0, i as int + 1);
                assert(now.drop_last() =~= iter@.subrange(0, i as int));
                assert(now.last() == iter@[i as int]);
                assert(Self::inserted_all(&mid, old(g), self.data, now.drop_last()));
                assert(g.index_updated(&mid, self.data, now.last().0, Some(now.last().1)));
            }
            i += 1;
        }
        proof {
            assert(iter@.subrange(0, i as int) =~= iter@);
        }
    }

    /// Takes the item under `key` out and announces the key.
    pub fn remove<T: Copy, F: Fn(&T) -> T, P: Fn(&T) -> bool>(
        &mut self,
        g: &mut Graph<T, F, P>,
        key: Key,
    )
        requires
            old(g).wf(),
        ensures
            *final(self) == *old(self),
            final(g).wf(),
            final(g).extends(old(g)),
            final(g).index_updated(old(g), old(self).data, key, None),
    {
        g.index_put(self.data, key, None);
    }
}

/// A copy of one item of an index buffer to work on.
pub struct MutableIndexAccess<T> {
    pub buf: IndexBuffer,
    pub key: Key,
    pub val: Option<T>,
}

impl<T: Copy> MutableIndexAccess<T> {
    /// The copy.
    pub fn deref(&self) -> (val: &Option<T>)
        ensures
            *val == self.val,
    {
        &self.val
    }

    /// Changes the copy.
    pub fn set(&mut self, val: Option<T>)
        ensures
            final(self).val == val,
            final(self).buf == old(self).buf,
            final(self).key == old(self).key,
    {
        self.val = val;
    }

    /// Puts the copy back into the buffer, under the key it was taken from.
    pub fn commit<F: Fn(&T) -> T, P: Fn(&T) -> bool>(self, g: &mut Graph<T, F, P>)
        requires
            old(g).wf(),
        ensures
            final(g).wf(),
            final(g).extends(old(g)),
            final(g).index_updated(old(g), self.buf.data, self.key, self.val),
    {
        let mut buf = self.buf;
        buf.update(g, self.key, self.val);
    }
}


impl<T: Copy, F: Fn(&T) -> T, P: Fn(&T) -> bool> Graph<T, F, P> {
    /// The index buffer of views at `node`.
    pub open spec fn index_views_at(&self, node: usize) -> Option<IndexViews> {
        if node < self.nodes@.len() {
            match self.nodes@[node as int] {
                Node::IndexViews(d) => Some(d),
                _ => None,
            }
        } else {
            None
        }
    }

    /// What it means that the nested view on `view` was put under `key` of
    /// the index buffer of views at `buf` of `pre`, or that the view under
    /// `key` was taken out where `view` is none, and `self` is the outcome:
    /// the buffer is changed and the key is announced on its port.
    pub open spec fn index_view_updated(
        &self,
        pre: &Self,
        buf: usize,
        key: Key,
        view: Option<usize>,
    ) -> bool {
        match (pre.index_views_at(buf), self.index_views_at(buf)) {
            (Some(d), Some(e)) => {
                &&& self.stepped(pre, buf, d.port, seq![Msg::Area(AreaMsg::Key(key))])
                &&& e.port == d.port
                &&& (e.keys@, e.views@) == after_put(d.keys@, d.views@, key, view)
            },
            (Some(_), None) => false,
            (None, _) => self.same(pre),
        }
    }
}

impl IndexBuffer {
    /// An empty buffer whose items are nested views, on a new port.
    pub fn with_views<T: Copy, F: Fn(&T) -> T, P: Fn(&T) -> bool>(g: &mut Graph<T, F, P>) -> (buf:
        Self)
        requires
            old(g).wf(),
        ensures
            final(g).wf(),
            buf.port.0.id == old(g).ports@.len(),
            buf.data + 1 == final(g).nodes@.len(),
            buf.data >= old(g).nodes@.len(),
            final(g).view_of(buf.port.0.id) == Some(buf.data),
            final(g).ports@.len() == old(g).ports@.len() + 1,
            match final(g).index_views_at(buf.data) {
                Some(d) => d.keys@ == Seq::<Key>::empty() && d.views@ == Seq::<usize>::empty()
                    && d.port == buf.port.0.id,
                None => false,
            },
            exists|mid: Graph<T, F, P>, d: IndexViews|
                #[trigger] final(g).adopted(&mid, buf.port.0.id, Node::IndexViews(d)) && d.keys@
                    == Seq::<Key>::empty() && d.views@ == Seq::<usize>::empty() && d.port
                    == buf.port.0.id && mid.port_added(old(g)),
    {
        let port = ViewPort::<Index>::new(g).into_inner();
        let ghost mid = *g;
        let d = IndexViews { keys: Vec::new(), views: Vec::new(), port: port.0.id };
        let ghost made = d;
        let node = g.adopt(port.0.id, Node::IndexViews(d));
        proof {
            assert(g.adopted(&mid, port.0.id, Node::IndexViews(made)));
        }
        IndexBuffer { data: node, port }
    }

    /// Puts the nested view on `port` under `key` of a buffer of views and
    /// announces the key.
    pub fn insert_view<T: Copy, F: Fn(&T) -> T, P: Fn(&T) -> bool>(
        &mut self,
        g: &mut Graph<T, F, P>,
        key: Key,
        port: OuterViewPort<Index>,
    )
        requires
            old(g).wf(),
            port.0.valid(old(g)),
        ensures
            *final(self) == *old(self),
            final(g).wf(),
            final(g).extends(old(g)),
            final(g).index_view_updated(old(g), old(self).data, key, Some(port.0.id)),
    {
        if self.data >= g.nodes.len() {
            return ;
        }
        let out = match &g.nodes[self.data] {
            Node::IndexViews(d) => d.port,
            _ => {
                return ;
            },
        };
        match &mut g.nodes[self.data] {
            Node::IndexViews(d) => match find_key(&d.keys, key) {
                Some(k) => {
                    d.views[k] = port.0.id;
                },
                None => {
                    d.keys.push(key);
                    d.views.push(port.0.id);
                },
            },
            _ => {},
        }
        proof {
            assert(g.ports@ =~= old(g).ports@);
            assert(old(g).nodes@[self.data as int].wf(g.ports@.len(), g.nodes@.len()));
            let d = old(g).index_views_at(self.data).unwrap();
            lemma_key_slot_bounds(d.keys@, key);
            if key_slot(d.keys@, key).is_none() {
                lemma_put_no_duplicates(d.keys@, key);
            }
            g.lemma_wf_after_step(old(g), self.data);
        }
        g.emit(out, one_msg(Msg::Area(AreaMsg::Key(key))));
    }

    /// Takes the nested view under `key` out of a buffer of views and
    /// announces the key.
    pub fn remove_view<T: Copy, F: Fn(&T) -> T, P: Fn(&T) -> bool>(
        &mut self,
        g: &mut Graph<T, F, P>,
        key: Key,
    )
        requires
            old(g).wf(),
        ensures
            *final(self) == *old(self),
            final(g).wf(),
            final(g).extends(old(g)),
            final(g).index_view_updated(old(g), old(self).data, key, None),
    {
        if self.data >= g.nodes.len() {
            return ;
        }
        let out = match &g.nodes[self.data] {
            Node::IndexViews(d) => d.port,
            _ => {
                return ;
            },
        };
        match &mut g.nodes[self.data] {
            Node::IndexViews(d) => match find_key(&d.keys, key) {
                Some(k) => {
                    d.keys.remove(k);
                    d.views.remove(k);
                },
                None => {},
            },
            _ => {},
        }
        proof {
            assert(g.ports@ =~= old(g).ports@);
            assert(old(g).nodes@[self.data as int].wf(g.ports@.len(), g.nodes@.len()));
            let d = old(g).index_views_at(self.data).unwrap();
            lemma_key_slot_bounds(d.keys@, key);
            match key_slot(d.keys@, key) {
                Some(k) => {
                    lemma_remove_no_duplicates(d.keys@, k);
                },
                None => {},
            }
            g.lemma_wf_after_step(old(g), self.data);
        }
        g.emit(out, one_msg(Msg::Area(AreaMsg::Key(key))));
    }
}

} // verus!
