use r3vi::buffer::singleton::SingletonBuffer;
use r3vi::buffer::vec::VecBuffer;
use r3vi::graph::Graph;
use r3vi::view::port::UpdateTask;
use r3vi::view::singleton::SingletonView;

type CharGraph = Graph<char, fn(&char) -> char, fn(&char) -> bool>;

#[test]
fn singleton_buffer1() {
    let mut g = CharGraph::new();
    let buffer = SingletonBuffer::new(&mut g, 'a');
    let port = buffer.get_port();

    assert_eq!(buffer.get(&g), 'a');
    assert_eq!(port.get_view(&g).get(&g), Some('a'));

    let mut access = buffer.get_mut(&g);
    access.set('b');
    access.commit(&mut g);
    assert_eq!(buffer.get(&g), 'b');
    assert_eq!(port.get_view(&g).get(&g), Some('b'));
}

#[test]
fn vec_buffer1() {
    let mut g = CharGraph::new();
    let mut buffer = VecBuffer::new(&mut g);

    buffer.push(&mut g, 'a');
    buffer.push(&mut g, 'b');
    buffer.push(&mut g, 'c');
}

#[test]
fn list_to_vec() {
    let mut g = CharGraph::new();
    let mut buf = VecBuffer::new(&mut g);
    let list_view = buf.get_port().to_list(&mut g);

    let buf2 = VecBuffer::new(&mut g);
    let _keepalive = buf2.attach_to(&mut g, list_view);

    assert_eq!(buf2.len(&g), 0);

    buf.push(&mut g, 'a');

    buf2.get_port().0.update(&mut g);
    assert_eq!(buf2.len(&g), 1);
    assert_eq!(buf2.get(&g, 0), 'a');

    buf.push(&mut g, 'b');

    list_view.0.update(&mut g);
    assert_eq!(buf2.len(&g), 2);
    assert_eq!(buf2.get(&g, 0), 'a');
    assert_eq!(buf2.get(&g, 1), 'b');

    buf.push(&mut g, 'c');
    buf.remove(&mut g, 0);

    list_view.0.update(&mut g);
    assert_eq!(buf2.len(&g), 2);
    assert_eq!(buf2.get(&g, 0), 'b');
    assert_eq!(buf2.get(&g, 1), 'c');
}
