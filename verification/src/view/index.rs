//! Indexes: views of items under keys.
use vstd::prelude::*;
use crate::buffer::index_hashmap::{find_key, key_slot};
use crate::graph::{apply_fn, Graph, Node};
use crate::projection::flatten_grid::{chunk_for, key_bounds, window_of};
use crate::view::{Msg, Shape, ViewRef, ViewShape};
use crate::view::port::node_of;
use crate::view::grid::{clamp, Point2, Vector2};

verus! {

/// A set of keys of an index, as it is named in a change notification or as
/// the extent of a view.
pub enum IndexArea<Key> {
    /// No key.
    Empty,
    /// Every key.
    Full,
    /// These keys.
    Keys(Vec<Key>),
    /// The keys from `start` up to and with `end`.
    Range { start: Key, end: Key },
}

/// An area as a value of the logic.
pub ghost enum Area<Key> {
    Empty,
    Full,
    Keys(Seq<Key>),
    Range { start: Key, end: Key },
}

impl<Key> View for IndexArea<Key> {
    type V = Area<Key>;

    open spec fn view(&self) -> Area<Key> {
        match *self {
            IndexArea::Empty => Area::Empty,
            IndexArea::Full => Area::Full,
            IndexArea::Keys(keys) => Area::Keys(keys@),
            IndexArea::Range { start, end } => Area::Range { start, end },
        }
    }
}

/// Whether `to` is what mapping each key of `from` with `f` can give: an
/// area of the same form, each key of which is a result of `f` on the key in
/// its place.
pub open spec fn mapped_area<Key, T, F: Fn(&Key) -> T>(f: F, from: Area<Key>, to: Area<T>) -> bool {
    match (from, to) {
        (Area::Empty, Area::Empty) => true,
        (Area::Full, Area::Full) => true,
        (Area::Keys(keys), Area::Keys(mapped)) => {
            &&& mapped.len() == keys.len()
            &&& forall|i: int|
                0 <= i < keys.len() ==> call_ensures(f, (&keys[i],), #[trigger] mapped[i])
        },
        (Area::Range { start, end }, Area::Range { start: s, end: e }) => {
            &&& call_ensures(f, (&start,), s)
            &&& call_ensures(f, (&end,), e)
        },
        _ => false,
    }
}

impl<Key> IndexArea<Key> {
    /// The area of the results of `f` on the keys of this area.  A range is
    /// mapped by its two ends.
    pub fn map<T, F: Fn(&Key) -> T>(&self, f: F) -> (area: IndexArea<T>)
        requires
            forall|k: Key| call_requires(f, (&k,)),
        ensures
            mapped_area(f, self@, area@),
    {
        match self {
            IndexArea::Empty => IndexArea::Empty,
            IndexArea::Full => IndexArea::Full,
            IndexArea::Keys(keys) => {
                let mut mapped: Vec<T> = Vec::new();
                let mut i: usize = 0;
                while i < keys.len()
                    invariant
                        i <= keys@.len(),
                        mapped@.len() == i,
                        forall|k: Key| call_requires(f, (&k,)),
                        forall|j: int|
                            0 <= j < i ==> call_ensures(f, (&keys@[j],), #[trigger] mapped@[j]),
                    decreases keys@.len() - i,
                {
                    mapped.push(f(&keys[i]));
                    i += 1;
                }
                IndexArea::Keys(mapped)
            },
            IndexArea::Range { start, end } => IndexArea::Range { start: f(start), end: f(end) },
        }
    }
}


/// A key of an index in a graph: the one key of a singleton, a position of
/// a sequence, or a point of a grid.
#[derive(Clone, Copy, PartialEq, Eq, Structural)]
pub enum Key {
    Unit,
    Index(usize),
    Point(Point2),
}

/// An area as it travels through the graph in a message: no key, every key,
/// one key, or the keys from one up to and with another.  A set of keys
/// travels as one message for each key.
#[derive(Clone, Copy, PartialEq, Eq, Structural)]
pub enum AreaMsg {
    Empty,
    Full,
    Key(Key),
    Range(Key, Key),
}

/// The shape of index views.
#[derive(Clone, Copy)]
pub struct Index;

/// A transform of the keys of an index, with its inverse where it has one.
#[derive(Clone, Copy, PartialEq, Eq, Structural)]
pub enum KeyMap {
    /// The positions of a sequence as the points of the row zero.
    Horizontal,
    /// The positions of a sequence as the points of the column zero.
    Vertical,
    /// The one key of a singleton as the origin of the grid.
    Origin,
    /// The points of a grid moved by a displacement.
    Offset(Vector2),
}

impl KeyMap {
    /// The key that `key` is mapped to.  A key that the transform is not
    /// made for stays as it is; a position beyond the columns or rows of the
    /// grid goes to the last one.
    pub open spec fn forward(self, key: Key) -> Key {
        match (self, key) {
            (KeyMap::Horizontal, Key::Index(i)) => Key::Point(Point2 { x: clamp(i as int), y: 0 }),
            (KeyMap::Vertical, Key::Index(i)) => Key::Point(Point2 { x: 0, y: clamp(i as int) }),
            (KeyMap::Origin, Key::Unit) => Key::Point(Point2 { x: 0, y: 0 }),
            (KeyMap::Offset(v), Key::Point(p)) => Key::Point(p.moved(v)),
            _ => key,
        }
    }

    /// The key that is mapped to `key`, if there is one.
    pub open spec fn inverse(self, key: Key) -> Option<Key> {
        match (self, key) {
            (KeyMap::Horizontal, Key::Point(p)) => if p.y == 0 && p.x >= 0 {
                Some(Key::Index(p.x as usize))
            } else {
                None
            },
            (KeyMap::Vertical, Key::Point(p)) => if p.x == 0 && p.y >= 0 {
                Some(Key::Index(p.y as usize))
            } else {
                None
            },
            (KeyMap::Origin, Key::Point(p)) => if p.x == 0 && p.y == 0 {
                Some(Key::Unit)
            } else {
                None
            },
            (KeyMap::Offset(v), Key::Point(p)) => Some(Key::Point(p.moved_back(v))),
            _ => None,
        }
    }

    /// The key that `key` is mapped to.
    pub fn apply(&self, key: Key) -> (r: Key)
        ensures
            r == self.forward(key),
    {
        match (*self, key) {
            (KeyMap::Horizontal, Key::Index(i)) => Key::Point(
                Point2 {
                    x: if i > 32767 {
                        32767
                    } else {
                        i as i16
                    },
                    y: 0,
                },
            ),
            (KeyMap::Vertical, Key::Index(i)) => Key::Point(
                Point2 {
                    x: 0,
                    y: if i > 32767 {
                        32767
                    } else {
                        i as i16
                    },
                },
            ),
            (KeyMap::Origin, Key::Unit) => Key::Point(Point2 { x: 0, y: 0 }),
            (KeyMap::Offset(v), Key::Point(p)) => Key::Point(p.offset(v)),
            _ => key,
        }
    }

    /// The key that is mapped to `key`, if there is one.
    pub fn invert(&self, key: Key) -> (r: Option<Key>)
        ensures
            r == self.inverse(key),
    {
        match (*self, key) {
            (KeyMap::Horizontal, Key::Point(p)) => if p.y == 0 && p.x >= 0 {
                Some(Key::Index(p.x as usize))
            } else {
                None
            },
            (KeyMap::Vertical, Key::Point(p)) => if p.x == 0 && p.y >= 0 {
                Some(Key::Index(p.y as usize))
            } else {
                None
            },
            (KeyMap::Origin, Key::Point(p)) => if p.x == 0 && p.y == 0 {
                Some(Key::Unit)
            } else {
                None
            },
            (KeyMap::Offset(v), Key::Point(p)) => Some(Key::Point(p.offset_back(v))),
            _ => None,
        }
    }
}

/// The area of the keys that `map` maps the keys of `area` to.  A range is
/// mapped by its two ends.
pub open spec fn map_area(map: KeyMap, area: Area<Key>) -> Area<Key> {
    match area {
        Area::Empty => Area::Empty,
        Area::Full => Area::Full,
        Area::Keys(keys) => Area::Keys(Seq::new(keys.len(), |i: int| map.forward(keys[i]))),
        Area::Range { start, end } => Area::Range {
            start: map.forward(start),
            end: map.forward(end),
        },
    }
}

/// The message of an area after the keys were mapped with `map`.
pub open spec fn map_msg(map: KeyMap, msg: AreaMsg) -> AreaMsg {
    match msg {
        AreaMsg::Empty => AreaMsg::Empty,
        AreaMsg::Full => AreaMsg::Full,
        AreaMsg::Key(key) => AreaMsg::Key(map.forward(key)),
        AreaMsg::Range(start, end) => AreaMsg::Range(map.forward(start), map.forward(end)),
    }
}

/// The messages in which `area` travels: one for each key of a set of keys,
/// one for any other area.
pub open spec fn area_msgs<T>(area: Area<Key>) -> Seq<Msg<T>> {
    match area {
        Area::Empty => seq![Msg::Area(AreaMsg::Empty)],
        Area::Full => seq![Msg::Area(AreaMsg::Full)],
        Area::Keys(keys) => Seq::new(keys.len(), |i: int| Msg::Area(AreaMsg::Key(keys[i]))),
        Area::Range { start, end } => seq![Msg::Area(AreaMsg::Range(start, end))],
    }
}

/// The messages in which `area` travels.
pub fn messages_of<T>(area: &IndexArea<Key>) -> (out: Vec<Msg<T>>)
    ensures
        out@ == area_msgs::<T>(area@),
{
    let mut out: Vec<Msg<T>> = Vec::new();
    match area {
        IndexArea::Empty => {
            out.push(Msg::Area(AreaMsg::Empty));
        },
        IndexArea::Full => {
            out.push(Msg::Area(AreaMsg::Full));
        },
        IndexArea::Keys(keys) => {
            let mut i: usize = 0;
            while i < keys.len()
                invariant
                    i <= keys@.len(),
                    out@.len() == i,
                    forall|j: int| 0 <= j < i ==> out@[j] == Msg::<T>::Area(AreaMsg::Key(keys@[j])),
                decreases keys@.len() - i,
            {
                out.push(Msg::Area(AreaMsg::Key(keys[i])));
                i += 1;
            }
        },
        IndexArea::Range { start, end } => {
            out.push(Msg::Area(AreaMsg::Range(*start, *end)));
        },
    }
    proof {
        assert(out@ =~= area_msgs::<T>(area@));
    }
    out
}

impl IndexArea<Key> {
    /// The area of the keys that `map` maps the keys of this area to.
    pub fn map_keys(&self, map: KeyMap) -> (area: IndexArea<Key>)
        ensures
            area@ == map_area(map, self@),
    {
        match self {
            IndexArea::Empty => IndexArea::Empty,
            IndexArea::Full => IndexArea::Full,
            IndexArea::Keys(keys) => {
                let mut mapped: Vec<Key> = Vec::new();
                let mut i: usize = 0;
                while i < keys.len()
                    invariant
                        i <= keys@.len(),
                        mapped@.len() == i,
                        forall|j: int| 0 <= j < i ==> mapped@[j] == map.forward(keys@[j]),
                    decreases keys@.len() - i,
                {
                    mapped.push(map.apply(keys[i]));
                    i += 1;
                }
                proof {
                    assert(mapped@ =~= Seq::new(keys@.len(), |i: int| map.forward(keys@[i])));
                }
                IndexArea::Keys(mapped)
            },
            IndexArea::Range { start, end } => IndexArea::Range {
                start: map.apply(*start),
                end: map.apply(*end),
            },
        }
    }
}

impl<T> ViewShape<T> for Index {
    type Msg = AreaMsg;

    open spec fn message(msg: AreaMsg) -> Msg<T> {
        Msg::Area(msg)
    }

    open spec fn shape() -> Shape {
        Shape::Index
    }

    fn wrap(msg: AreaMsg) -> (m: Msg<T>) {
        Msg::Area(msg)
    }

    fn marker() -> (r: (Self, Shape)) {
        (Index, Shape::Index)
    }
}


/// The area of the positions of a sequence of the length `len`: every key
/// where the length is not known.
pub open spec fn seq_area(len: Option<usize>) -> Area<Key> {
    match len {
        Some(len) => if len > 0 {
            Area::Range { start: Key::Index(0), end: Key::Index((len - 1) as usize) }
        } else {
            Area::Empty
        },
        None => Area::Full,
    }
}

/// The area of the positions of a sequence of the length `len`.
pub fn area_of_len(len: Option<usize>) -> (area: IndexArea<Key>)
    ensures
        area@ == seq_area(len),
{
    match len {
        Some(len) => if len > 0 {
            IndexArea::Range { start: Key::Index(0), end: Key::Index(len - 1) }
        } else {
            IndexArea::Empty
        },
        None => IndexArea::Full,
    }
}

impl<T: Copy, F: Fn(&T) -> T, P: Fn(&T) -> bool> Graph<T, F, P> {
    /// The item under `key` of the index view `view`, read to depth `fuel`.
    pub open spec fn opt_idx_get_at(&self, view: Option<usize>, key: Key, fuel: nat) -> Option<T>
        decreases fuel, 1nat,
    {
        match view {
            Some(n) => self.idx_get_at(n, key, fuel),
            None => None,
        }
    }

    /// The item under `key` of the index view at `node`, read to depth
    /// `fuel`.
    pub open spec fn idx_get_at(&self, node: usize, key: Key, fuel: nat) -> Option<T>
        decreases fuel, 0nat,
    {
        if fuel == 0 || node >= self.nodes@.len() {
            None
        } else {
            let rest = (fuel - 1) as nat;
            match self.nodes@[node as int] {
                Node::IndexBufferView(d) => d.item_at(key),
                Node::Sequence2Index(s) => match key {
                    Key::Index(i) => self.opt_seq_get_at(s.src_view, i, rest),
                    _ => None,
                },
                Node::Singleton2Index(s) => match (key, s.src_view) {
                    (Key::Unit, Some(src)) => self.sgl_get_at(src, rest),
                    _ => None,
                },
                Node::MapIndexItem(m) => match self.opt_idx_get_at(m.src_view, key, rest) {
                    Some(x) => Some(apply_fn::<T, F>(m.f, x)),
                    None => None,
                },
                Node::MapIndexKey(m) => match m.map.inverse(key) {
                    Some(k) => self.opt_idx_get_at(m.src_view, k, rest),
                    None => None,
                },
                Node::FlattenGrid(f) => match key {
                    Key::Point(p) => {
                        let w = key_bounds(self.opt_idx_area_at(self.view_of(f.top), rest));
                        match chunk_for(f.chunks@, p, w.0, w.1, 0) {
                            Some(k) => self.opt_idx_get_at(
                                self.view_of(f.chunks@[k].view),
                                Key::Point(p.moved_back(f.chunks@[k].offset)),
                                rest,
                            ),
                            None => None,
                        }
                    },
                    _ => None,
                },
                _ => None,
            }
        }
    }

    /// The extent of the index view `view`, read to depth `fuel`: every key
    /// where it is not known, as it is where there is no view.
    pub open spec fn opt_idx_area_at(&self, view: Option<usize>, fuel: nat) -> Area<Key>
        decreases fuel, 1nat,
    {
        match view {
            Some(n) => self.idx_area_at(n, fuel),
            None => Area::Full,
        }
    }

    /// The extent of the index view at `node`, read to depth `fuel`: every
    /// key where it is not known.
    pub open spec fn idx_area_at(&self, node: usize, fuel: nat) -> Area<Key>
        decreases fuel, 0nat,
    {
        if fuel == 0 || node >= self.nodes@.len() {
            Area::Full
        } else {
            let rest = (fuel - 1) as nat;
            match self.nodes@[node as int] {
                Node::IndexBufferView(d) => Area::Keys(d.keys@),
                Node::IndexViews(d) => Area::Keys(d.keys@),
                Node::Sequence2Index(s) => seq_area(self.opt_seq_len_at(s.src_view, rest)),
                Node::Singleton2Index(_) => Area::Keys(seq![Key::Unit]),
                Node::MapIndexItem(m) => self.opt_idx_area_at(m.src_view, rest),
                Node::MapIndexKey(m) => map_area(m.map, self.opt_idx_area_at(m.src_view, rest)),
                Node::FlattenGrid(f) => Area::Range {
                    start: Key::Point(Point2 { x: 0, y: 0 }),
                    end: Key::Point(f.limit),
                },
                _ => Area::Full,
            }
        }
    }

    /// The port of the nested view under `key` of the index view at `node`.
    /// Only a buffer of views has nested views.
    pub open spec fn idx_view_at(&self, node: usize, key: Key) -> Option<usize> {
        if node < self.nodes@.len() {
            match self.nodes@[node as int] {
                Node::IndexViews(d) => match key_slot(d.keys@, key) {
                    Some(k) => if k < d.views@.len() {
                        Some(d.views@[k])
                    } else {
                        None
                    },
                    None => None,
                },
                _ => None,
            }
        } else {
            None
        }
    }

    /// The item under `key` of the index view `view`, read to depth `fuel`.
    pub fn opt_idx_get(&self, view: Option<usize>, key: Key, fuel: usize) -> (r: Option<T>)
        requires
            self.wf(),
        ensures
            r == self.opt_idx_get_at(view, key, fuel as nat),
        decreases fuel, 1nat,
    {
        match view {
            Some(n) => self.idx_get(n, key, fuel),
            None => None,
        }
    }

    /// The item under `key` of the index view at `node`, read to depth `fuel`.
    pub fn idx_get(&self, node: usize, key: Key, fuel: usize) -> (r: Option<T>)
        requires
            self.wf(),
        ensures
            r == self.idx_get_at(node, key, fuel as nat),
        decreases fuel, 0nat,
    {
        if fuel == 0 || node >= self.nodes.len() {
            return None;
        }
        match &self.nodes[node] {
            Node::IndexBufferView(d) => d.get(key),
            Node::Sequence2Index(s) => match key {
                Key::Index(i) => self.opt_seq_get(s.src_view, i, fuel - 1),
                _ => None,
            },
            Node::Singleton2Index(s) => match (key, s.src_view) {
                (Key::Unit, Some(src)) => self.sgl_get(src, fuel - 1),
                _ => None,
            },
            Node::MapIndexItem(m) => match self.opt_idx_get(m.src_view, key, fuel - 1) {
                Some(x) => Some(Self::call_fn(&m.f, x)),
                None => None,
            },
            Node::MapIndexKey(m) => match m.map.invert(key) {
                Some(k) => self.opt_idx_get(m.src_view, k, fuel - 1),
                None => None,
            },
            Node::FlattenGrid(f) => match key {
                Key::Point(p) => {
                    let area = self.opt_idx_area(self.port_view(f.top), fuel - 1);
                    let (start, end) = window_of(&area);
                    match f.get_chunk_idx(p, start, end) {
                        Some(k) => {
                            let chunk = f.chunks[k];
                            self.opt_idx_get(
                                self.port_view(chunk.view),
                                Key::Point(p.offset_back(chunk.offset)),
                                fuel - 1,
                            )
                        },
                        None => None,
                    }
                },
                _ => None,
            },
            _ => None,
        }
    }

    /// The extent of the index view `view`, read to depth `fuel`.
    pub fn opt_idx_area(&self, view: Option<usize>, fuel: usize) -> (r: IndexArea<Key>)
        requires
            self.wf(),
        ensures
            r@ == self.opt_idx_area_at(view, fuel as nat),
        decreases fuel, 1nat,
    {
        match view {
            Some(n) => self.idx_area(n, fuel),
            None => IndexArea::Full,
        }
    }

    /// The extent of the index view at `node`, read to depth `fuel`.
    pub fn idx_area(&self, node: usize, fuel: usize) -> (r: IndexArea<Key>)
        requires
            self.wf(),
        ensures
            r@ == self.idx_area_at(node, fuel as nat),
        decreases fuel, 0nat,
    {
        if fuel == 0 || node >= self.nodes.len() {
            return IndexArea::Full;
        }
        match &self.nodes[node] {
            Node::IndexBufferView(d) => IndexArea::Keys(copy_keys(&d.keys)),
            Node::IndexViews(d) => IndexArea::Keys(copy_keys(&d.keys)),
            Node::Sequence2Index(s) => area_of_len(self.opt_seq_len(s.src_view, fuel - 1)),
            Node::Singleton2Index(_) => {
                let mut keys: Vec<Key> = Vec::new();
                keys.push(Key::Unit);
                IndexArea::Keys(keys)
            },
            Node::MapIndexItem(m) => self.opt_idx_area(m.src_view, fuel - 1),
            Node::MapIndexKey(m) => self.opt_idx_area(m.src_view, fuel - 1).map_keys(m.map),
            Node::FlattenGrid(f) => IndexArea::Range {
                start: Key::Point(Point2 { x: 0, y: 0 }),
                end: Key::Point(f.limit),
            },
            _ => IndexArea::Full,
        }
    }

    /// The port of the nested view under `key` of the index view at `node`.
    pub fn idx_view(&self, node: usize, key: Key) -> (r: Option<usize>)
        requires
            self.wf(),
        ensures
            r == self.idx_view_at(node, key),
            match r {
                Some(port) => port < self.ports@.len(),
                None => true,
            },
    {
        if node >= self.nodes.len() {
            return None;
        }
        match &self.nodes[node] {
            Node::IndexViews(d) => match find_key(&d.keys, key) {
                Some(k) => if k < d.views.len() {
                    Some(d.views[k])
                } else {
                    None
                },
                None => None,
            },
            _ => None,
        }
    }
}

/// A copy of `keys`.
pub fn copy_keys(keys: &Vec<Key>) -> (out: Vec<Key>)
    ensures
        out@ == keys@,
{
    let mut out: Vec<Key> = Vec::new();
    let mut i: usize = 0;
    while i < keys.len()
        invariant
            i <= keys@.len(),
            out@ == keys@.subrange(0, i as int),
        decreases keys@.len() - i,
    {
        out.push(keys[i]);
        proof {
            assert(keys@.subrange(0, i as int).push(keys@[i as int]) =~= keys@.subrange(
                0,
                i as int + 1,
            ));
        }
        i += 1;
    }
    proof {
        assert(keys@.subrange(0, i as int) =~= keys@);
    }
    out
}


/// The messages of an index whose source was replaced: the area it had,
/// then the area it has.
pub fn rebind_areas<T>(old_area: &IndexArea<Key>, new_area: &IndexArea<Key>) -> (out: Vec<Msg<T>>)
    ensures
        out@ == area_msgs::<T>(old_area@) + area_msgs::<T>(new_area@),
{
    let mut out = messages_of::<T>(old_area);
    let mut more = messages_of::<T>(new_area);
    out.append(&mut more);
    out
}

impl AreaMsg {
    /// The message of this area after the keys were mapped with `map`.
    pub fn map_keys(&self, map: KeyMap) -> (msg: AreaMsg)
        ensures
            msg == map_msg(map, *self),
    {
        match *self {
            AreaMsg::Empty => AreaMsg::Empty,
            AreaMsg::Full => AreaMsg::Full,
            AreaMsg::Key(key) => AreaMsg::Key(map.apply(key)),
            AreaMsg::Range(start, end) => AreaMsg::Range(map.apply(start), map.apply(end)),
        }
    }
}


/// Read access to an index in a graph.
pub trait IndexView<T, F, P>: Sized {
    /// The item under `key`, as the graph `g` has it.
    spec fn item_at(&self, g: &Graph<T, F, P>, key: Key) -> Option<T>;

    /// The extent, as the graph `g` has it.
    spec fn extent(&self, g: &Graph<T, F, P>) -> Area<Key>;

    spec fn readable(g: &Graph<T, F, P>) -> bool;

    fn get(&self, g: &Graph<T, F, P>, key: &Key) -> (r: Option<T>)
        requires
            Self::readable(g),
        ensures
            r == self.item_at(g, *key),
    ;

    fn area(&self, g: &Graph<T, F, P>) -> (r: IndexArea<Key>)
        requires
            Self::readable(g),
        ensures
            r@ == self.extent(g),
    ;
}

impl<T: Copy, F: Fn(&T) -> T, P: Fn(&T) -> bool> IndexView<T, F, P> for ViewRef<Index> {
    open spec fn item_at(&self, g: &Graph<T, F, P>, key: Key) -> Option<T> {
        g.idx_get_at(self.node, key, g.depth())
    }

    open spec fn extent(&self, g: &Graph<T, F, P>) -> Area<Key> {
        g.idx_area_at(self.node, g.depth())
    }

    open spec fn readable(g: &Graph<T, F, P>) -> bool {
        g.wf()
    }

    fn get(&self, g: &Graph<T, F, P>, key: &Key) -> (r: Option<T>) {
        g.idx_get(self.node, *key, g.nodes.len())
    }

    fn area(&self, g: &Graph<T, F, P>) -> (r: IndexArea<Key>) {
        g.idx_area(self.node, g.nodes.len())
    }
}

/// An index that may be missing: without a view there is no item, and the
/// extent is not known.
impl<T: Copy, F: Fn(&T) -> T, P: Fn(&T) -> bool> IndexView<T, F, P> for Option<ViewRef<Index>> {
    open spec fn item_at(&self, g: &Graph<T, F, P>, key: Key) -> Option<T> {
        g.opt_idx_get_at(node_of(*self), key, g.depth())
    }

    open spec fn extent(&self, g: &Graph<T, F, P>) -> Area<Key> {
        g.opt_idx_area_at(node_of(*self), g.depth())
    }

    open spec fn readable(g: &Graph<T, F, P>) -> bool {
        g.wf()
    }

    fn get(&self, g: &Graph<T, F, P>, key: &Key) -> (r: Option<T>) {
        match self {
            Some(view) => g.idx_get(view.node, *key, g.nodes.len()),
            None => None,
        }
    }

    fn area(&self, g: &Graph<T, F, P>) -> (r: IndexArea<Key>) {
        match self {
            Some(view) => g.idx_area(view.node, g.nodes.len()),
            None => IndexArea::Full,
        }
    }
}

} // verus!
