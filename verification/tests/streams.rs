use r3vi::buffer::grid_hashmap::GridBuffer;
use r3vi::buffer::singleton::SingletonBuffer;
use r3vi::buffer::vec::{VecBuffer, VecDiff};
use r3vi::graph::{Graph, Node};
use r3vi::projection::vec2bin::VecBinWriter;
use r3vi::projection::vec2json::{LineReader, VecJsonWriter};
use r3vi::view::grid::Point2;
use r3vi::view::index::{AreaMsg, Index, IndexView, Key};
use r3vi::view::observer::{Observer, ObserverExt, ObserverRef};
use r3vi::view::port::{UpdateTask, ViewPort};
use r3vi::view::sequence::SequenceView;
use r3vi::view::singleton::SingletonView;
use r3vi::view::Msg;

type CharGraph = Graph<char, fn(&char) -> char, fn(&char) -> bool>;
type IntGraph = Graph<i32, fn(&i32) -> i32, fn(&i32) -> bool>;

fn tags(diffs: &[VecDiff<i32>]) -> Vec<String> {
    diffs
        .iter()
        .map(|d| match d {
            VecDiff::Clear => "clear".to_string(),
            VecDiff::Push(x) => format!("push {}", x),
            VecDiff::Remove(i) => format!("remove {}", i),
            VecDiff::Insert { idx, val } => format!("insert {} {}", idx, val),
            VecDiff::Update { idx, val } => format!("update {} {}", idx, val),
        })
        .collect()
}

#[test]
fn writer_records_a_rebuild_then_each_diff() {
    let mut g = IntGraph::new();
    let mut buffer = VecBuffer::with_data(&mut g, vec![4, 5]);
    let port = buffer.get_port();
    let bin = port.serialize_bin(&mut g);
    let json = port.serialize_json(&mut g);
    assert_eq!(tags(&g.take_records(bin.node)), vec!["clear", "push 4", "push 5"]);
    assert_eq!(tags(&g.take_records(bin.node)), Vec::<String>::new());

    buffer.push(&mut g, 6);
    buffer.remove(&mut g, 0);
    port.0.update(&mut g);
    assert_eq!(tags(&g.take_records(bin.node)), vec!["push 6", "remove 0"]);
    assert_eq!(
        tags(&g.take_records(json.node)),
        vec!["clear", "push 4", "push 5", "push 6", "remove 0"]
    );
}

#[test]
fn binary_records_carry_a_four_byte_length() {
    assert_eq!(VecBinWriter::<u8>::frame(&vec![]), vec![0, 0, 0, 0]);
    assert_eq!(VecBinWriter::<u8>::frame(&vec![9, 8, 7]), vec![3, 0, 0, 0, 9, 8, 7]);
    let long = vec![1u8; 0x0102];
    let record = VecBinWriter::<u8>::frame(&long);
    assert_eq!(&record[..4], &[0x02, 0x01, 0, 0]);
    assert_eq!(record.len(), 0x0102 + 4);
}

#[test]
fn text_records_end_with_a_line_feed() {
    assert_eq!(VecJsonWriter::<u8>::frame(&b"\"Clear\"".to_vec()), b"\"Clear\"\n".to_vec());
    assert_eq!(VecJsonWriter::<u8>::frame(&vec![]), vec![b'\n']);
}

#[test]
fn line_reader_splits_across_feeds() {
    let mut reader = LineReader::new();
    assert_eq!(reader.feed(&b"ab\n\ncd".to_vec()), vec![b"ab".to_vec()]);
    assert_eq!(reader.line, b"cd".to_vec());
    assert_eq!(reader.feed(&b"e\nf\n".to_vec()), vec![b"cde".to_vec(), b"f".to_vec()]);
    assert_eq!(reader.feed(&b"\n\n".to_vec()), Vec::<Vec<u8>>::new());
    assert_eq!(reader.line, Vec::<u8>::new());
}

#[test]
fn singleton_of_singleton_flattens() {
    let mut g = CharGraph::new();
    let mut a = SingletonBuffer::new(&mut g, 'a');
    let b = SingletonBuffer::new(&mut g, 'b');
    let mut outer = SingletonBuffer::with_view(&mut g, a.get_port());
    let flat = outer.get_port().flatten(&mut g);
    let view = flat.get_view(&g);
    flat.0.update(&mut g);
    assert_eq!(view.get(&g), Some('a'));
    a.set(&mut g, 'x');
    assert_eq!(view.get(&g), Some('x'));
    outer.set_view(&mut g, b.get_port());
    flat.0.update(&mut g);
    assert_eq!(view.get(&g), Some('b'));
}

#[test]
fn grid_buffer_holds_points() {
    let mut g = CharGraph::new();
    let port = ViewPort::<Index>::new(&mut g);
    let mut grid = GridBuffer::new(&mut g, port.inner());
    grid.insert(&mut g, Point2::new(1, 2), 'a');
    grid.insert_iter(&mut g, vec![(Point2::new(0, 0), 'b'), (Point2::new(1, 2), 'c')]);
    grid.remove(&mut g, Point2::new(0, 0));
    let view = port.outer().get_view(&g);
    assert_eq!(view.get(&g, &Key::Point(Point2::new(1, 2))), Some('c'));
    assert_eq!(view.get(&g, &Key::Point(Point2::new(0, 0))), None);
    // four changes were announced
    assert_eq!(g.ports[port.id].cast.rx.send_buf.as_ref().map(|q| q.len()), Some(4));
    assert!(matches!(
        g.ports[port.id].cast.rx.send_buf.as_ref().unwrap()[0],
        Msg::Area(AreaMsg::Key(Key::Point(_)))
    ));
}

#[test]
fn observers_can_be_driven_by_hand() {
    let mut g = IntGraph::new();
    let buffer = VecBuffer::with_data(&mut g, vec![1, 2, 3]);
    let seq = buffer.get_port().to_sequence(&mut g);
    let mut obs = ObserverRef { node: seq.get_view(&g).unwrap().node };
    obs.notify_each(&mut g, vec![Msg::Vec(VecDiff::Push(4)), Msg::Vec(VecDiff::Push(5))]);
    assert_eq!(seq.get_view(&g).len(&g), Some(5));
    obs.notify(&mut g, &Msg::Vec(VecDiff::Remove(0)));
    assert_eq!(seq.get_view(&g).len(&g), Some(4));
    obs.reset(&mut g, None);
    assert_eq!(seq.get_view(&g).len(&g), Some(0));
    // a message of another shape changes nothing
    obs.notify(&mut g, &Msg::Unit);
    assert_eq!(seq.get_view(&g).len(&g), Some(0));
    match &g.nodes[obs.node] {
        Node::VecSequence(s) => assert_eq!(s.data, None),
        _ => panic!("adapter expected"),
    }
}

#[test]
fn inner_port_announces_typed_messages() {
    let mut g = CharGraph::new();
    let buffer = VecBuffer::new(&mut g);
    let seq = buffer.get_port().to_sequence(&mut g);
    let log = seq.add_notify_fn(&mut g);
    // the owner of the sequence port announces an index by hand
    seq.0.inner().notify(&mut g, 7usize);
    seq.0.update(&mut g);
    match &g.nodes[log.node] {
        Node::NotifyFnObserver(o) => assert!(matches!(o.received.last(), Some(Msg::Index(7)))),
        _ => panic!("observer expected"),
    }
    let reset_log = seq.add_reset_fn(&mut g);
    match &g.nodes[reset_log.node] {
        Node::ResetFnObserver(o) => assert_eq!(o.views, vec![seq.get_view(&g).map(|v| v.node)]),
        _ => panic!("observer expected"),
    }
}
