//! Externalising a vector as a stream of lines, and reading such a stream.
use vstd::prelude::*;
use crate::buffer::vec::{VecDiff, Vector};
use crate::graph::{Graph, Node};
use crate::projection::vec2bin::{record_rebuild, rebuild_diffs};
use crate::view::observer::ObserverRef;
use crate::view::port::OuterViewPort;

verus! {

/// A record of the text stream: the payload, then a line feed.
pub open spec fn json_record(payload: Seq<u8>) -> Seq<u8> {
    payload.push(10u8)
}

/// An observer of a vector that keeps, in their order, the diffs that a
/// reader needs to follow the vector: a rebuild at each reset, then each
/// diff as it is announced.  Its owner takes them out, encodes each, and
/// writes the lines that [`VecJsonWriter::frame`] makes of the payloads.
pub struct VecJsonWriter<T> {
    pub data: Option<usize>,
    pub records: Vec<VecDiff<T>>,
}

impl<T: Copy> VecJsonWriter<T> {
    /// Rebinds to the vector view `view`, which holds `items` now: a
    /// rebuild of what a reader has is recorded, with the items of the view
    /// if there is one.
    pub fn reset(&mut self, view: Option<usize>, items: &Vec<T>)
        ensures
            final(self).data == view,
            final(self).records@ == old(self).records@ + rebuild_diffs(items@),
    {
        self.data = view;
        record_rebuild(&mut self.records, items);
    }

    /// Records `diff`.
    pub fn notify(&mut self, diff: &VecDiff<T>)
        ensures
            final(self).data == old(self).data,
            final(self).records@ == old(self).records@.push(*diff),
    {
        self.records.push(*diff);
    }

    /// The line of one payload: the payload, then a line feed.
    pub fn frame(payload: &Vec<u8>) -> (record: Vec<u8>)
        ensures
            record@ == json_record(payload@),
    {
        let mut record: Vec<u8> = Vec::new();
        let mut i: usize = 0;
        while i < payload.len()
            invariant
                i <= payload@.len(),
                record@ == payload@.subrange(0, i as int),
            decreases payload@.len() - i,
        {
            record.push(payload[i]);
            proof {
                assert(payload@.subrange(0, i as int).push(payload@[i as int]) =~= payload@.subrange(
                    0,
                    i as int + 1,
                ));
            }
            i += 1;
        }
        proof {
            assert(payload@.subrange(0, i as int) =~= payload@);
        }
        record.push(10);
        record
    }
}

/// The lines of a stream of bytes that are complete and not empty, in their
/// order, when `line` is what was read of the line at the start of `bytes`.
pub open spec fn lines_of(line: Seq<u8>, bytes: Seq<u8>) -> Seq<Seq<u8>>
    decreases bytes.len(),
{
    if bytes.len() == 0 {
        Seq::empty()
    } else if bytes[0] == 10 {
        if line.len() > 0 {
            seq![line] + lines_of(Seq::empty(), bytes.drop_first())
        } else {
            lines_of(Seq::empty(), bytes.drop_first())
        }
    } else {
        lines_of(line.push(bytes[0]), bytes.drop_first())
    }
}

/// What is left of the last line of a stream of bytes, which no line feed
/// has closed yet.
pub open spec fn rest_of(line: Seq<u8>, bytes: Seq<u8>) -> Seq<u8>
    decreases bytes.len(),
{
    if bytes.len() == 0 {
        line
    } else if bytes[0] == 10 {
        rest_of(Seq::empty(), bytes.drop_first())
    } else {
        rest_of(line.push(bytes[0]), bytes.drop_first())
    }
}

/// Splits a stream of bytes into its lines, as the bytes come in.
pub struct LineReader {
    pub line: Vec<u8>,
}

impl LineReader {
    /// A reader at the start of a line.
    pub fn new() -> (reader: Self)
        ensures
            reader.line@ == Seq::<u8>::empty(),
    {
        LineReader { line: Vec::new() }
    }

    /// Takes the next bytes of the stream; hands out the lines that they
    /// complete, but for the empty ones.
    pub fn feed(&mut self, bytes: &Vec<u8>) -> (lines: Vec<Vec<u8>>)
        ensures
            lines@.len() == lines_of(old(self).line@, bytes@).len(),
            forall|k: int|
                0 <= k < lines@.len() ==> (#[trigger] lines@[k])@ == lines_of(
                    old(self).line@,
                    bytes@,
                )[k],
            final(self).line@ == rest_of(old(self).line@, bytes@),
    {
        let mut lines: Vec<Vec<u8>> = Vec::new();
        let ghost mut done: Seq<Seq<u8>> = Seq::empty();
        let mut i: usize = 0;
        proof {
            assert(bytes@.subrange(0, bytes@.len() as int) =~= bytes@);
        }
        while i < bytes.len()
            invariant
                i <= bytes@.len(),
                lines@.len() == done.len(),
                forall|k: int| 0 <= k < lines@.len() ==> (#[trigger] lines@[k])@ == done[k],
                done + lines_of(self.line@, bytes@.subrange(i as int, bytes@.len() as int))
                    == lines_of(old(self).line@, bytes@),
                rest_of(self.line@, bytes@.subrange(i as int, bytes@.len() as int)) == rest_of(
                    old(self).line@,
                    bytes@,
                ),
            decreases bytes@.len() - i,
        {
            let b = bytes[i];
            let ghost line0 = self.line@;
            let ghost tail = bytes@.subrange(i as int, bytes@.len() as int);
            let ghost next = bytes@.subrange(i as int + 1, bytes@.len() as int);
            proof {
                assert(tail.drop_first() =~= next);
                assert(tail[0] == b);
                assert(tail.len() > 0);
            }
            if b == 10 {
                if self.line.len() > 0 {
                    let mut line: Vec<u8> = Vec::new();
                    line.append(&mut self.line);
                    proof {
                        assert(line@ =~= line0);
                        assert(lines_of(line0, tail) == seq![line0] + lines_of(Seq::empty(), next));
                        assert(rest_of(line0, tail) == rest_of(Seq::empty(), next));
                        assert(done.push(line@) + lines_of(Seq::empty(), next) =~= done + (
                        seq![line@] + lines_of(Seq::empty(), next)));
                        done = done.push(line@);
                    }
                    lines.push(line);
                } else {
                    proof {
                        assert(line0 =~= Seq::<u8>::empty());
                        assert(lines_of(line0, tail) == lines_of(Seq::empty(), next));
                        assert(rest_of(line0, tail) == rest_of(Seq::empty(), next));
                    }
                }
            } else {
                self.line.push(b);
                proof {
                    assert(lines_of(line0, tail) == lines_of(line0.push(b), next));
                    assert(rest_of(line0, tail) == rest_of(line0.push(b), next));
                }
            }
            i += 1;
        }
        proof {
            assert(bytes@.subrange(i as int, bytes@.len() as int) =~= Seq::<u8>::empty());
            assert(done + Seq::<Seq<u8>>::empty() =~= done);
        }
        lines
    }
}

impl OuterViewPort<Vector> {
    /// Subscribes a new writer of the text stream; the writer is handed out,
    /// and records as long as it is alive.
    pub fn serialize_json<T: Copy, F: Fn(&T) -> T, P: Fn(&T) -> bool>(
        &self,
        g: &mut Graph<T, F, P>,
    ) -> (writer: ObserverRef)
        requires
            old(g).wf(),
            self.0.valid(old(g)),
            old(g).ports@.len() < usize::MAX,
        ensures
            final(g).wf(),
            final(g).extends(old(g)),
            writer.node == old(g).nodes@.len(),
            exists|mid: Graph<T, F, P>, w: VecJsonWriter<T>|
                #[trigger] mid.node_added(old(g), Node::VecJsonWriter(w)) && w.data.is_none()
                    && w.records@ == Seq::<VecDiff<T>>::empty() && final(g).observed(
                    &mid,
                    self.0.id,
                    writer.node,
                    old(g).reach() + 1,
                ),
    {
        let w = VecJsonWriter { data: None, records: Vec::new() };
        let ghost made = w;
        let node = g.add_node(Node::VecJsonWriter(w));
        let ghost mid = *g;
        let writer = ObserverRef { node };
        self.0.add_observer(g, writer);
        proof {
            assert(mid.node_added(old(g), Node::VecJsonWriter(made)));
        }
        writer
    }
}

} // verus!
