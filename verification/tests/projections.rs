use r3vi::buffer::singleton::SingletonBuffer;
use r3vi::buffer::vec::VecBuffer;
use r3vi::graph::Graph;
use r3vi::view::list::ListView;
use r3vi::view::port::UpdateTask;
use r3vi::view::sequence::SequenceView;
use r3vi::view::singleton::SingletonView;

type CharGraph = Graph<char, fn(&char) -> char, fn(&char) -> bool>;

#[test]
fn enumerate_sequence_map_seq1() {
    let mut g = Graph::<i32, fn(&i32) -> i32, fn(&i32) -> bool>::new();
    let mut buffer = VecBuffer::new(&mut g);

    let target_port = buffer.get_port().to_sequence(&mut g).enumerate(&mut g);
    let target_view = target_port.get_view(&g);

    buffer.push(&mut g, 0);
    buffer.push(&mut g, 7);
    buffer.push(&mut g, 9);

    target_port.0.update(&mut g);

    assert_eq!(target_view.len(&g), Some(3));

    assert_eq!(target_view.get(&g, &0), Some((0, 0)));
    assert_eq!(target_view.get(&g, &1), Some((1, 7)));
    assert_eq!(target_view.get(&g, &2), Some((2, 9)));
    assert_eq!(target_view.get(&g, &3), None);
}

#[test]
fn filter_seq1() {
    let mut g = Graph::<i32, fn(&i32) -> i32, _>::new();
    let mut buffer = VecBuffer::new(&mut g);

    let target_port = buffer.get_port().to_sequence(&mut g).filter(&mut g, |x: &i32| *x > 10);

    let target_view = target_port.get_view(&g);

    buffer.push(&mut g, 0);
    buffer.push(&mut g, 7);
    buffer.push(&mut g, 9);

    target_port.0.update(&mut g);
    assert_eq!(target_view.len(&g), Some(0));
    assert_eq!(target_view.get(&g, &0), None);

    buffer.push(&mut g, 11);

    target_port.0.update(&mut g);
    assert_eq!(target_view.len(&g), Some(1));
    assert_eq!(target_view.get(&g, &0), Some(11));
    assert_eq!(target_view.get(&g, &1), None);

    buffer.push(&mut g, 13);
    buffer.push(&mut g, 1);
    buffer.push(&mut g, 5);
    buffer.push(&mut g, 19);

    target_port.0.update(&mut g);
    assert_eq!(target_view.len(&g), Some(3));
    assert_eq!(target_view.get(&g, &0), Some(11));
    assert_eq!(target_view.get(&g, &1), Some(13));
    assert_eq!(target_view.get(&g, &2), Some(19));
}

#[test]
fn flatten1() {
    let mut g = CharGraph::new();
    let mut buffer = VecBuffer::with_views(&mut g);

    let target_port = buffer.get_port().to_sequence(&mut g).flatten(&mut g);
    let target_view = target_port.get_view(&g);

    let b1 = VecBuffer::with_data(&mut g, vec!['h', 'a', 'l', 'l', 'o']);
    let b2 = VecBuffer::with_data(&mut g, vec!['w', 'e', 'l', 't']);
    let b3 = VecBuffer::with_data(&mut g, vec!['!']);

    let s1 = b1.get_port().to_sequence(&mut g);
    buffer.push_view(&mut g, s1);
    let s2 = b2.get_port().to_sequence(&mut g);
    buffer.push_view(&mut g, s2);
    let s3 = b3.get_port().to_sequence(&mut g);
    buffer.push_view(&mut g, s3);

    target_port.0.update(&mut g);

    assert_eq!(target_view.len(&g), Some(10));

    assert_eq!(target_view.get(&g, &0), Some('h'));
    assert_eq!(target_view.get(&g, &5), Some('w'));
    assert_eq!(target_view.get(&g, &6), Some('e'));
    assert_eq!(target_view.get(&g, &9), Some('!'));
    assert_eq!(target_view.get(&g, &10), None);
}

#[test]
fn list_to_seq() {
    let mut g = CharGraph::new();
    let mut buf = VecBuffer::new(&mut g);
    let seq_view = buf.get_port().to_list(&mut g).to_sequence(&mut g);

    assert_eq!(seq_view.get_view(&g).unwrap().len(&g), Some(0));

    buf.push(&mut g, 'a');

    seq_view.0.update(&mut g);
    assert_eq!(seq_view.get_view(&g).unwrap().len(&g), Some(1));
    assert_eq!(seq_view.get_view(&g).unwrap().get(&g, &0), Some('a'));
    assert_eq!(seq_view.get_view(&g).unwrap().get(&g, &1), None);

    buf.push(&mut g, 'b');

    seq_view.0.update(&mut g);
    assert_eq!(seq_view.get_view(&g).unwrap().len(&g), Some(2));
    assert_eq!(seq_view.get_view(&g).unwrap().get(&g, &0), Some('a'));
    assert_eq!(seq_view.get_view(&g).unwrap().get(&g, &1), Some('b'));
    assert_eq!(seq_view.get_view(&g).unwrap().get(&g, &2), None);

    buf.push(&mut g, 'c');
    buf.remove(&mut g, 0);

    seq_view.0.update(&mut g);
    assert_eq!(seq_view.get_view(&g).unwrap().len(&g), Some(2));
    assert_eq!(seq_view.get_view(&g).unwrap().get(&g, &0), Some('b'));
    assert_eq!(seq_view.get_view(&g).unwrap().get(&g, &1), Some('c'));
    assert_eq!(seq_view.get_view(&g).unwrap().get(&g, &2), None);
}

#[test]
fn map_list1() {
    let mut g = Graph::<i32, _, fn(&i32) -> bool>::new();
    let mut buffer = VecBuffer::new(&mut g);

    let target_port = buffer.get_port().to_list(&mut g).map(&mut g, |x: &i32| x + 10);

    let target_view = target_port.get_view(&g);

    buffer.push(&mut g, 0);
    buffer.push(&mut g, 7);
    buffer.push(&mut g, 9);

    target_port.0.update(&mut g);

    assert_eq!(target_view.len(&g), Some(3));

    assert_eq!(target_view.get(&g, &0), Some(10));
    assert_eq!(target_view.get(&g, &1), Some(17));
    assert_eq!(target_view.get(&g, &2), Some(19));
    assert_eq!(target_view.get(&g, &3), None);
}

#[test]
fn map_sequence_map_seq1() {
    let mut g = Graph::<i32, _, fn(&i32) -> bool>::new();
    let mut buffer = VecBuffer::new(&mut g);

    let target_port = buffer.get_port().to_sequence(&mut g).map(&mut g, |x: &i32| x + 10);
    let target_view = target_port.get_view(&g);

    buffer.push(&mut g, 0);
    buffer.push(&mut g, 7);
    buffer.push(&mut g, 9);

    target_port.0.update(&mut g);

    assert_eq!(target_view.len(&g), Some(3));

    assert_eq!(target_view.get(&g, &0), Some(10));
    assert_eq!(target_view.get(&g, &1), Some(17));
    assert_eq!(target_view.get(&g, &2), Some(19));
    assert_eq!(target_view.get(&g, &3), None);
}

#[test]
fn singleton_map1() {
    let mut g = Graph::<i32, _, fn(&i32) -> bool>::new();
    let mut buffer = SingletonBuffer::new(&mut g, 0);

    let src_port = buffer.get_port();
    let dst_port = src_port.map(&mut g, |x: &i32| x + 10);

    let dst_view = dst_port.get_view(&g);

    assert_eq!(dst_view.get(&g), Some(10));
    buffer.set(&mut g, 5);
    assert_eq!(dst_view.get(&g), Some(15));
}

#[test]
fn vec_to_list() {
    let mut g = CharGraph::new();
    let mut buf = VecBuffer::new(&mut g);
    let list_view = buf.get_port().to_list(&mut g);

    assert_eq!(list_view.get_view(&g).len(&g), Some(0));

    buf.push(&mut g, 'a');

    list_view.0.update(&mut g);
    assert_eq!(list_view.get_view(&g).len(&g), Some(1));
    assert_eq!(list_view.get_view(&g).get(&g, &0), Some('a'));
    assert_eq!(list_view.get_view(&g).get(&g, &1), None);

    buf.push(&mut g, 'b');

    list_view.0.update(&mut g);
    assert_eq!(list_view.get_view(&g).len(&g), Some(2));
    assert_eq!(list_view.get_view(&g).get(&g, &0), Some('a'));
    assert_eq!(list_view.get_view(&g).get(&g, &1), Some('b'));
    assert_eq!(list_view.get_view(&g).get(&g, &2), None);

    buf.push(&mut g, 'c');
    buf.remove(&mut g, 0);

    list_view.0.update(&mut g);
    assert_eq!(list_view.get_view(&g).len(&g), Some(2));
    assert_eq!(list_view.get_view(&g).get(&g, &0), Some('b'));
    assert_eq!(list_view.get_view(&g).get(&g, &1), Some('c'));
    assert_eq!(list_view.get_view(&g).get(&g, &2), None);
}
