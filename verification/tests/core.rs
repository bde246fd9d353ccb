use r3vi::buffer::index_hashmap::IndexBuffer;
use r3vi::buffer::singleton::SingletonBuffer;
use r3vi::buffer::vec::{VecBuffer, VecDiff};
use r3vi::graph::{Graph, Node};
use r3vi::projection::decorate_sequence::{Separate, Wrap};
use r3vi::projection::projection_helper::{Keepalive, ProjectionHelper};
use r3vi::view::channel::{
    channel, queue_channel, set_channel, singleton_channel, IndexSet, Received,
};
use r3vi::view::grid::{GridWindowIterator, Point2, Vector2};
use r3vi::view::index::{IndexArea, IndexView, Key};
use r3vi::view::list::ListView;
use r3vi::view::port::{AnyOuterViewPort, Hook, UpdateTask};
use r3vi::view::sequence::{Sequence, SequenceView, SequenceViewExt};
use r3vi::view::singleton::{Singleton, SingletonView};
use r3vi::view::observer::Observer;
use r3vi::view::Msg;

type CharGraph = Graph<char, fn(&char) -> char, fn(&char) -> bool>;
type IntGraph = Graph<i32, fn(&i32) -> i32, fn(&i32) -> bool>;

fn received(g: &CharGraph, node: usize) -> usize {
    match &g.nodes[node] {
        Node::NotifyFnObserver(o) => o.received.len(),
        _ => panic!("no recording observer"),
    }
}

#[test]
fn queue_channel_keeps_every_message_in_order() {
    let (tx, mut rx) = queue_channel::<i32>();
    assert_eq!(rx.try_recv(), None);
    tx.send(&mut rx, 3);
    tx.send(&mut rx, 3);
    tx.send(&mut rx, 1);
    assert_eq!(rx.try_recv(), Some(vec![3, 3, 1]));
    assert_eq!(rx.try_recv(), None);
}

#[test]
fn set_channel_keeps_the_first_of_equal_indices() {
    let (tx, mut rx) = set_channel();
    tx.send(&mut rx, 4);
    tx.send(&mut rx, 2);
    tx.send(&mut rx, 4);
    let got: IndexSet = rx.try_recv().unwrap();
    assert_eq!(got.keys, vec![4, 2]);
}

#[test]
fn singleton_channel_keeps_the_latest_message() {
    let (tx, mut rx) = singleton_channel::<char>();
    tx.send(&mut rx, 'a');
    tx.send(&mut rx, 'b');
    assert_eq!(rx.try_recv(), Some(Some('b')));
    assert_eq!(rx.try_recv(), None);
}

#[test]
fn channel_closes_when_the_last_sender_is_gone() {
    let (tx, mut rx) = channel::<Vec<u8>>();
    assert!(matches!(rx.poll(), Received::Pending));
    let other = tx.duplicate(&mut rx);
    tx.dispose(&mut rx);
    assert!(matches!(rx.poll(), Received::Pending));
    other.dispose(&mut rx);
    assert!(matches!(rx.poll(), Received::Closed));
}

#[test]
fn channel_hands_out_pending_data_before_it_closes() {
    let (tx, mut rx) = channel::<Vec<u8>>();
    tx.send(&mut rx, 7);
    tx.dispose(&mut rx);
    match rx.poll() {
        Received::Ready(data) => assert_eq!(data, vec![7]),
        _ => panic!("data expected"),
    }
    assert!(matches!(rx.poll(), Received::Closed));
}

#[test]
fn dropped_observer_receives_nothing_more() {
    let mut g = CharGraph::new();
    let mut buffer = VecBuffer::new(&mut g);
    let port = buffer.get_port();
    let kept = port.add_notify_fn(&mut g);
    let dropped = port.add_notify_fn(&mut g);

    buffer.push(&mut g, 'a');
    port.0.update(&mut g);
    assert_eq!(received(&g, kept.node), 1);
    assert_eq!(received(&g, dropped.node), 1);

    g.release(dropped.node);
    buffer.push(&mut g, 'b');
    port.0.update(&mut g);
    assert_eq!(received(&g, kept.node), 2);
    assert_eq!(received(&g, dropped.node), 1);

    // the next registration prunes the dead one
    let _late = port.add_notify_fn(&mut g);
    assert_eq!(g.ports[port.0.id].cast.observers, vec![kept.node, kept.node + 2]);
}

#[test]
fn reset_brings_a_new_observer_up_to_date() {
    let mut g = CharGraph::new();
    let mut buffer = VecBuffer::new(&mut g);
    buffer.push(&mut g, 'x');
    buffer.push(&mut g, 'y');
    // subscribed after the pushes, never told of them
    let seq = buffer.get_port().to_sequence(&mut g);
    let view = seq.get_view(&g);
    assert_eq!(view.len(&g), Some(2));
    assert_eq!(view.get(&g, &1), Some('y'));
}

#[test]
fn set_view_rebinds_the_subscribers() {
    let mut g = CharGraph::new();
    let first = VecBuffer::with_data(&mut g, vec!['a']);
    let second = VecBuffer::with_data(&mut g, vec!['p', 'q', 'r']);
    let seq = first.get_port().to_sequence(&mut g);
    assert_eq!(seq.get_view(&g).len(&g), Some(1));
    first.port.set_view(&mut g, Some(second.into_inner()));
    assert_eq!(seq.get_view(&g).len(&g), Some(3));
    assert_eq!(seq.get_view(&g).get(&g, &2), Some('r'));
    first.port.set_view(&mut g, None);
    assert_eq!(seq.get_view(&g).len(&g), Some(0));
    assert_eq!(seq.get_view(&g).get(&g, &0), None);
}

#[test]
fn length_of_an_unbound_view_is_unknown_not_zero() {
    let mut g = CharGraph::new();
    let none: Option<r3vi::view::ViewRef<Sequence>> = None;
    assert_eq!(none.len(&g), None);
    assert_eq!(none.get(&g, &0), None);
    // a port that has published nothing yet
    let port = r3vi::view::port::ViewPort::<Sequence>::new(&mut g).into_outer();
    assert_eq!(port.get_view(&g).len(&g), None);
    assert_eq!(port.get_view_arc().len(&g), None);
    // an empty buffer reads as empty, not as unknown
    let empty = VecBuffer::new(&mut g);
    assert_eq!(empty.get_port().to_sequence(&mut g).get_view(&g).len(&g), Some(0));
    let dangling = r3vi::view::ViewRef { node: 7, shape: Sequence };
    assert_eq!(dangling.len(&g), None);
    assert_eq!(dangling.get(&g, &0), None);
}

#[test]
fn stale_length_until_update() {
    let mut g = IntGraph::new();
    let mut buffer = VecBuffer::new(&mut g);
    let seq = buffer.get_port().to_sequence(&mut g);
    let view = seq.get_view(&g);
    buffer.push(&mut g, 5);
    // the item is there, the length follows with the update
    assert_eq!(view.get(&g, &0), Some(5));
    assert_eq!(view.len(&g), Some(0));
    seq.0.update(&mut g);
    assert_eq!(view.len(&g), Some(1));
}

#[test]
fn vec_diffs_are_applied_and_announced() {
    let mut g = IntGraph::new();
    let mut buffer = VecBuffer::with_data(&mut g, vec![1, 2, 3]);
    let seq = buffer.get_port().to_sequence(&mut g);
    buffer.insert(&mut g, 1, 9);
    buffer.update(&mut g, 0, 7);
    buffer.remove(&mut g, 3);
    buffer.apply_diff(&mut g, VecDiff::Push(4));
    assert_eq!(buffer.len(&g), 4);
    assert_eq!(
        (0..4).map(|i| buffer.get(&g, i)).collect::<Vec<_>>(),
        vec![7, 9, 2, 4]
    );
    seq.0.update(&mut g);
    assert_eq!(seq.get_view(&g).len(&g), Some(4));
    buffer.clear(&mut g);
    seq.0.update(&mut g);
    assert_eq!(seq.get_view(&g).len(&g), Some(0));

    buffer.push(&mut g, 7);
    let access = buffer.get_mut(&g, 0);
    assert_eq!(*access.deref(), 7);
}

#[test]
fn mutable_access_writes_back() {
    let mut g = IntGraph::new();
    let mut buffer = VecBuffer::with_data(&mut g, vec![1, 2, 3]);
    let mut access = buffer.get_mut(&g, 1);
    assert_eq!(*access.deref(), 2);
    access.set(20);
    access.commit(&mut g);
    assert_eq!(buffer.get(&g, 1), 20);
}

#[test]
fn filter_flips_invalidate_the_tail() {
    let mut g = Graph::<i32, fn(&i32) -> i32, _>::new();
    let mut buffer = VecBuffer::with_data(&mut g, vec![11, 3, 12]);
    let filtered = buffer.get_port().to_sequence(&mut g).filter(&mut g, |x: &i32| *x > 10);
    let log = filtered.add_notify_fn(&mut g);
    filtered.0.update(&mut g);
    let before = match &g.nodes[log.node] {
        Node::NotifyFnObserver(o) => o.received.len(),
        _ => 0,
    };
    // 3 -> 30 flips the outcome at source index 1: destination 1 up to the end
    buffer.update(&mut g, 1, 30);
    filtered.0.update(&mut g);
    let msgs: Vec<usize> = match &g.nodes[log.node] {
        Node::NotifyFnObserver(o) => o.received[before..]
            .iter()
            .map(|m| match m {
                Msg::Index(i) => *i,
                _ => usize::MAX,
            })
            .collect(),
        _ => vec![],
    };
    assert_eq!(msgs, vec![1, 2, 3]);
    assert_eq!(filtered.get_view(&g).len(&g), Some(3));
    // 30 -> 31 keeps the outcome: only destination 1
    let before = before + msgs.len();
    buffer.update(&mut g, 1, 31);
    filtered.0.update(&mut g);
    let msgs: usize = match &g.nodes[log.node] {
        Node::NotifyFnObserver(o) => o.received.len() - before,
        _ => 0,
    };
    assert_eq!(msgs, 1);
    assert_eq!(filtered.get_view(&g).get(&g, &1), Some(31));
}

#[test]
fn filter_map_keeps_and_maps() {
    let mut g = Graph::<i32, _, _>::new();
    let mut buffer = VecBuffer::with_data(&mut g, vec![1, 12, 5, 40]);
    let port = buffer
        .get_port()
        .to_sequence(&mut g)
        .filter_map(&mut g, |x: &i32| *x > 10, |x: &i32| x * 2);
    buffer.push(&mut g, 11);
    port.0.update(&mut g);
    let view = port.get_view(&g);
    assert_eq!(view.len(&g), Some(3));
    assert_eq!(view.get(&g, &0), Some(24));
    assert_eq!(view.get(&g, &1), Some(80));
    assert_eq!(view.get(&g, &2), Some(22));
    assert_eq!(view.get(&g, &3), None);
}

#[test]
fn flatten_follows_its_chunks() {
    let mut g = CharGraph::new();
    let mut top = VecBuffer::with_views(&mut g);
    let flat = top.get_port().to_sequence(&mut g).flatten(&mut g);
    let view = flat.get_view(&g);
    assert_eq!(view.len(&g), Some(0));
    assert_eq!(view.get(&g, &0), None);

    let mut b1 = VecBuffer::with_data(&mut g, vec!['a', 'b']);
    let mut b2 = VecBuffer::with_data(&mut g, vec!['c']);
    let s1 = b1.get_port().to_sequence(&mut g);
    let s2 = b2.get_port().to_sequence(&mut g);
    top.push_view(&mut g, s1);
    top.push_view(&mut g, s2);
    flat.0.update(&mut g);
    assert_eq!(view.len(&g), Some(3));

    // a chunk grows: the offsets behind it move
    b1.push(&mut g, 'x');
    flat.0.update(&mut g);
    flat.0.update(&mut g);
    assert_eq!(view.len(&g), Some(4));
    assert_eq!(view.get(&g, &2), Some('x'));
    assert_eq!(view.get(&g, &3), Some('c'));

    // a chunk is emptied
    b2.clear(&mut g);
    flat.0.update(&mut g);
    flat.0.update(&mut g);
    assert_eq!(view.len(&g), Some(3));
    assert_eq!(view.get(&g, &3), None);

    // a chunk leaves the outer sequence
    top.remove_view(&mut g, 0);
    flat.0.update(&mut g);
    flat.0.update(&mut g);
    assert_eq!(view.len(&g), Some(0));
}

#[test]
fn wrap_and_separate() {
    let mut g = CharGraph::new();
    let mut buffer = VecBuffer::with_data(&mut g, vec!['a', 'b', 'c']);
    let seq = buffer.get_port().to_sequence(&mut g);
    let wrapped = seq.wrap(&mut g, '[', ']');
    let separated = seq.separate(&mut g, ',');
    let w = wrapped.get_view(&g);
    let s = separated.get_view(&g);
    let read = |g: &CharGraph, v: &Option<r3vi::view::ViewRef<Sequence>>| -> String {
        let mut out = String::new();
        let mut i = 0;
        while let Some(c) = v.get(g, &i) {
            out.push(c);
            i += 1;
        }
        out
    };
    assert_eq!(w.len(&g), Some(5));
    assert_eq!(read(&g, &w), "[abc]");
    assert_eq!(s.len(&g), Some(5));
    assert_eq!(read(&g, &s), "a,b,c");

    buffer.push(&mut g, 'd');
    wrapped.0.update(&mut g);
    separated.0.update(&mut g);
    assert_eq!(read(&g, &w), "[abcd]");
    assert_eq!(read(&g, &s), "a,b,c,d");
    assert_eq!(s.len(&g), Some(7));

    buffer.clear(&mut g);
    wrapped.0.update(&mut g);
    separated.0.update(&mut g);
    assert_eq!(read(&g, &w), "[]");
    assert_eq!(s.len(&g), Some(0));
    assert_eq!(s.get(&g, &0), None);
}

#[test]
fn list_round_trip_matches_direct_mutation() {
    let mut g = CharGraph::new();
    let mut buf = VecBuffer::new(&mut g);
    let list = buf.get_port().to_list(&mut g);
    let copy = VecBuffer::new(&mut g);
    let _keepalive = copy.attach_to(&mut g, list);
    let steps: Vec<VecDiff<char>> = vec![
        VecDiff::Push('a'),
        VecDiff::Push('b'),
        VecDiff::Insert { idx: 1, val: 'c' },
        VecDiff::Remove(0),
        VecDiff::Update { idx: 1, val: 'z' },
        VecDiff::Push('q'),
        VecDiff::Clear,
        VecDiff::Push('r'),
    ];
    for step in steps {
        buf.apply_diff(&mut g, step);
        copy.get_port().0.update(&mut g);
        let direct: Vec<char> = (0..buf.len(&g)).map(|i| buf.get(&g, i)).collect();
        let mirrored: Vec<char> = (0..copy.len(&g)).map(|i| copy.get(&g, i)).collect();
        assert_eq!(direct, mirrored);
    }
}

#[test]
fn singleton_follows_and_converts() {
    let mut g = IntGraph::new();
    let mut source = SingletonBuffer::new(&mut g, 1);
    let follower = SingletonBuffer::new(&mut g, 0);
    let _keepalive = follower.attach_to(&mut g, source.get_port());
    assert_eq!(follower.get(&g), 1);
    source.set(&mut g, 8);
    follower.get_port().0.update(&mut g);
    assert_eq!(follower.get(&g), 8);

    let seq = source.get_port().to_sequence(&mut g);
    assert_eq!(seq.get_view(&g).len(&g), Some(1));
    assert_eq!(seq.get_view(&g).get(&g, &0), Some(8));
    assert_eq!(seq.get_view(&g).get(&g, &1), None);

    let none: Option<r3vi::view::ViewRef<Singleton>> = None;
    assert_eq!(none.get(&g), None);
}

#[test]
fn index_buffer_and_key_maps() {
    let mut g = IntGraph::new();
    let mut index = IndexBuffer::new(&mut g);
    index.insert(&mut g, Key::Index(2), 20);
    index.insert_iter(&mut g, vec![(Key::Index(0), 1), (Key::Index(2), 21)]);
    assert_eq!(index.get(&g, &Key::Index(2)), Some(21));
    assert_eq!(index.get(&g, &Key::Index(1)), None);
    index.update(&mut g, Key::Index(0), None);
    assert_eq!(index.get(&g, &Key::Index(0)), None);
    index.remove(&mut g, Key::Index(5));

    let grid = index.get_port().to_grid_vertical(&mut g);
    let moved = grid.offset(&mut g, Vector2::new(3, 1));
    let view = moved.get_view(&g);
    assert_eq!(view.get(&g, &Key::Point(Point2::new(3, 3))), Some(21));
    assert_eq!(view.get(&g, &Key::Point(Point2::new(3, 1))), None);
    assert_eq!(view.get(&g, &Key::Point(Point2::new(4, 3))), None);
    match view.area(&g) {
        IndexArea::Keys(keys) => assert_eq!(keys.len(), 1),
        _ => panic!("keys expected"),
    }
}

#[test]
fn sequence_to_index_reports_its_area() {
    let mut g = CharGraph::new();
    let mut buffer = VecBuffer::new(&mut g);
    let index = buffer.get_port().to_sequence(&mut g).to_index(&mut g);
    let view = index.get_view(&g);
    assert!(matches!(view.area(&g), IndexArea::Empty));
    buffer.push(&mut g, 'a');
    buffer.push(&mut g, 'b');
    index.0.update(&mut g);
    match view.area(&g) {
        IndexArea::Range { start, end } => {
            assert!(start == Key::Index(0));
            assert!(end == Key::Index(1));
        }
        _ => panic!("range expected"),
    }
    assert_eq!(view.get(&g, &Key::Index(1)), Some('b'));
    assert_eq!(view.get(&g, &Key::Unit), None);
}

#[test]
fn grid_flatten_lays_out_columns() {
    let mut g = CharGraph::new();
    let mut top = IndexBuffer::with_views(&mut g);
    let flat = top.get_port().flatten(&mut g);
    let view = flat.get_view(&g);

    let b1 = VecBuffer::with_data(&mut g, vec!['a', 'b']);
    let mut b2 = VecBuffer::with_data(&mut g, vec!['x', 'y', 'z']);
    let g1 = b1.get_port().to_sequence(&mut g).to_grid_horizontal(&mut g);
    let g2 = b2.get_port().to_sequence(&mut g).to_grid_horizontal(&mut g);
    top.insert_view(&mut g, Key::Point(Point2::new(0, 0)), g1);
    top.insert_view(&mut g, Key::Point(Point2::new(1, 0)), g2);
    flat.0.update(&mut g);

    match view.area(&g) {
        IndexArea::Range { start, end } => {
            assert!(start == Key::Point(Point2::new(0, 0)));
            assert!(end == Key::Point(Point2::new(4, 0)));
        }
        _ => panic!("range expected"),
    }
    let at = |g: &CharGraph, x: i16, y: i16| view.get(g, &Key::Point(Point2::new(x, y)));
    assert_eq!(at(&g, 0, 0), Some('a'));
    assert_eq!(at(&g, 1, 0), Some('b'));
    assert_eq!(at(&g, 2, 0), Some('x'));
    assert_eq!(at(&g, 4, 0), Some('z'));
    assert_eq!(at(&g, 5, 0), None);
    assert_eq!(at(&g, 0, 1), None);

    // the second grid grows: the flat grid grows with it
    b2.push(&mut g, 'w');
    flat.0.update(&mut g);
    flat.0.update(&mut g);
    assert_eq!(at(&g, 5, 0), Some('w'));

    // the first grid leaves: the second moves to the left edge
    top.remove_view(&mut g, Key::Point(Point2::new(0, 0)));
    flat.0.update(&mut g);
    assert_eq!(at(&g, 0, 0), Some('x'));
    assert_eq!(at(&g, 3, 0), Some('w'));
    assert_eq!(at(&g, 4, 0), None);
}

#[test]
fn grid_window_walks_row_by_row() {
    let mut it = GridWindowIterator::from_inclusive(Point2::new(1, 2), Point2::new(2, 3));
    let mut seen = Vec::new();
    while let Some(p) = it.next() {
        seen.push((p.x, p.y));
    }
    assert_eq!(seen, vec![(1, 2), (2, 2), (1, 3), (2, 3)]);
    let mut empty = GridWindowIterator::from_range(Point2::new(0, 0), Point2::new(0, 5));
    assert!(empty.next().is_none());
}

#[test]
fn area_range_and_union() {
    let set = IndexArea::Keys(vec![Point2::new(3, -1), Point2::new(-2, 4)]);
    let (lo, hi) = set.range();
    assert!(lo == Point2::new(-2, -1) && hi == Point2::new(3, 4));
    let (lo, hi) = IndexArea::<Point2>::Empty.range();
    assert!(lo == Point2::new(0, 0) && hi == Point2::new(-1, -1));
    let (lo, hi) = IndexArea::Keys(Vec::<Point2>::new()).range();
    assert!(lo == Point2::new(i16::MAX, i16::MAX) && hi == Point2::new(i16::MIN, i16::MIN));

    let a = IndexArea::Range { start: Point2::new(0, 0), end: Point2::new(1, 1) };
    let b = IndexArea::Range { start: Point2::new(-1, 1), end: Point2::new(0, 3) };
    match a.union(b) {
        IndexArea::Range { start, end } => {
            assert!(start == Point2::new(-1, 0) && end == Point2::new(1, 3));
        }
        _ => panic!("range expected"),
    }
    let a = IndexArea::Range { start: Point2::new(0, 0), end: Point2::new(1, 0) };
    match IndexArea::Keys(vec![Point2::new(9, 9)]).union(a) {
        IndexArea::Keys(keys) => {
            let got: Vec<(i16, i16)> = keys.iter().map(|p| (p.x, p.y)).collect();
            assert_eq!(got, vec![(9, 9), (0, 0), (1, 0)]);
        }
        _ => panic!("keys expected"),
    }
    assert!(matches!(IndexArea::<Point2>::Empty.union(IndexArea::Full), IndexArea::Full));
    assert!(matches!(
        IndexArea::Keys(vec![Point2::new(0, 0)]).union(IndexArea::Full),
        IndexArea::Full
    ));
    let mapped = IndexArea::Keys(vec![1u8, 2]).map(|k: &u8| *k as u32 * 10);
    match mapped {
        IndexArea::Keys(keys) => assert_eq!(keys, vec![10, 20]),
        _ => panic!("keys expected"),
    }
}

#[test]
fn helper_reindexes_on_removal() {
    let mut helper = ProjectionHelper::new(0);
    let mut hooks: Vec<Hook> = vec![Hook::Port(9)];
    helper.insert_arg(&mut hooks, 10, 1, 100);
    helper.insert_arg(&mut hooks, 20, 2, 200);
    helper.insert_arg(&mut hooks, 30, 3, 300);
    assert_eq!(hooks.len(), 7);
    assert_eq!(helper.remove_arg(&mut hooks, 20), Some(200));
    assert_eq!(hooks.len(), 5);
    let entries: Vec<(usize, usize, usize)> =
        helper.keepalive.iter().map(|e: &Keepalive| (e.key, e.idx, e.arg)).collect();
    assert_eq!(entries, vec![(10, 1, 100), (30, 3, 300)]);
    assert!(matches!(hooks[3], Hook::Port(3)));
    assert!(matches!(hooks[4], Hook::Arg(300)));
    assert_eq!(helper.remove_arg(&mut hooks, 20), None);
    assert_eq!(hooks.len(), 5);
}

#[test]
fn any_port_downcasts_to_its_shape_only() {
    let mut g = CharGraph::new();
    let buffer = SingletonBuffer::new(&mut g, 'a');
    let any = AnyOuterViewPort::erase::<char, Singleton>(buffer.get_port());
    assert!(any.downcast::<char, Sequence>().is_err());
    let port = any.downcast::<char, Singleton>().ok().unwrap();
    assert_eq!(port.get_view(&g).get(&g), Some('a'));
}

#[test]
fn walks_along_views() {
    let mut g = CharGraph::new();
    let buffer = VecBuffer::with_data(&mut g, vec!['a', 'b']);
    let seq = buffer.get_port().to_sequence(&mut g);
    let mut it = seq.get_view(&g).unwrap().iter();
    assert_eq!(it.next(&g), Some('a'));
    assert_eq!(it.next(&g), Some('b'));
    assert_eq!(it.next(&g), None);
    let list = buffer.get_port().to_list(&mut g);
    assert_eq!(list.get_view(&g).get(&g, &1), Some('b'));
}

#[test]
fn filter_length_does_not_underflow_over_a_stale_source() {
    let mut g = Graph::<i32, fn(&i32) -> i32, _>::new();
    let mut buffer = VecBuffer::new(&mut g);
    let filtered = buffer.get_port().to_sequence(&mut g).filter(&mut g, |x: &i32| *x > 10);
    buffer.push(&mut g, 0);
    buffer.push(&mut g, 7);
    buffer.push(&mut g, 9);
    // the source still reports the length zero, with three failing items
    assert_eq!(filtered.get_view(&g).len(&g), Some(0));
    filtered.0.update(&mut g);
    assert_eq!(filtered.get_view(&g).len(&g), Some(0));
}

#[test]
fn target_ignores_a_diff_that_does_not_fit() {
    let mut g = CharGraph::new();
    let buf = VecBuffer::with_data(&mut g, vec!['a']);
    let list = buf.get_port().to_list(&mut g);
    let copy = VecBuffer::new(&mut g);
    let target = copy.attach_to(&mut g, list);
    assert_eq!(copy.len(&g), 1);
    let mut obs = target;
    obs.notify(&mut g, &Msg::List(r3vi::view::list::ListDiff::Remove(5)));
    obs.notify(&mut g, &Msg::List(r3vi::view::list::ListDiff::Insert { idx: 3, val: 'x' }));
    assert_eq!(copy.len(&g), 1);
    obs.notify(&mut g, &Msg::List(r3vi::view::list::ListDiff::Insert { idx: 1, val: 'x' }));
    assert_eq!(copy.len(&g), 2);
    assert_eq!(copy.get(&g, 1), 'x');
}

#[test]
fn update_stops_in_a_circle_of_hooks() {
    let mut g = CharGraph::new();
    let a = VecBuffer::new(&mut g);
    let b = VecBuffer::new(&mut g);
    a.port.0.add_update_hook(&mut g, Hook::Port(b.port.0.id));
    b.port.0.add_update_hook(&mut g, Hook::Port(a.port.0.id));
    a.get_port().0.update(&mut g);
    Hook::Port(b.port.0.id).update(&mut g);
    assert_eq!(a.len(&g), 0);
}

#[test]
fn hooks_run_in_the_order_of_registration() {
    let mut g = IntGraph::new();
    let mut first = VecBuffer::new(&mut g);
    let mut second = VecBuffer::new(&mut g);
    let sink = VecBuffer::new(&mut g);
    let l1 = first.get_port().to_list(&mut g);
    let l2 = second.get_port().to_list(&mut g);
    // the sink replays both lists; the one attached first is pulled first.
    // Each list inserts its item at the front, so the item of the list that
    // is pulled last stands first.
    let _k1 = sink.attach_to(&mut g, l1);
    let _k2 = sink.attach_to(&mut g, l2);
    second.push(&mut g, 2);
    first.push(&mut g, 1);
    sink.get_port().0.update(&mut g);
    let got: Vec<i32> = (0..sink.len(&g)).map(|i| sink.get(&g, i)).collect();
    assert_eq!(got, vec![2, 1]);
}

#[test]
fn a_graph_built_by_the_library_is_sound() {
    let mut g = IntGraph::new();
    assert!(g.is_sound());
    let mut outer = VecBuffer::new(&mut g);
    let flat = outer.get_port().to_sequence(&mut g).filter(&mut g, |x: &i32| *x > 1);
    outer.push(&mut g, 1);
    outer.push(&mut g, 2);
    flat.0.update(&mut g);
    assert!(g.is_sound());
}

#[test]
fn a_dangling_reference_makes_a_graph_unsound() {
    let mut g = IntGraph::new();
    let buffer = VecBuffer::with_data(&mut g, vec![1, 2]);
    let _seq = buffer.get_port().to_sequence(&mut g);
    assert!(g.is_sound());
    let ports = g.ports.len();
    g.ports[0].cast.observers.push(g.nodes.len());
    assert!(!g.is_sound());
    g.ports[0].cast.observers.pop();
    assert!(g.is_sound());
    g.ports[0].update_hooks.push(Hook::Port(ports));
    assert!(!g.is_sound());
    g.ports[0].update_hooks.pop();
    g.alive.push(true);
    assert!(!g.is_sound());
}

#[test]
fn a_key_that_stands_twice_makes_a_graph_unsound() {
    let mut g = IntGraph::new();
    let mut index = IndexBuffer::new(&mut g);
    index.insert(&mut g, Key::Index(3), 7);
    index.insert(&mut g, Key::Index(4), 8);
    assert!(g.is_sound());
    for node in g.nodes.iter_mut() {
        if let Node::IndexBufferView(d) = node {
            d.keys[1] = Key::Index(3);
        }
    }
    assert!(!g.is_sound());
}
