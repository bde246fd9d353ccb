//! Externalising a vector as a stream of length-prefixed records.
use vstd::prelude::*;
use crate::buffer::vec::{VecDiff, Vector};
use crate::graph::{Graph, Node};
use crate::view::observer::ObserverRef;
use crate::view::port::OuterViewPort;

verus! {

/// The diffs that let a reader rebuild `items` from scratch: a clear, then
/// one push for each item.
pub open spec fn rebuild_diffs<T>(items: Seq<T>) -> Seq<VecDiff<T>> {
    Seq::new(
        items.len() + 1,
        |k: int|
            if k == 0 {
                VecDiff::Clear
            } else {
                VecDiff::Push(items[k - 1])
            },
    )
}

/// Appends the diffs of [`rebuild_diffs`] to `records`.
pub fn record_rebuild<T: Copy>(records: &mut Vec<VecDiff<T>>, items: &Vec<T>)
    ensures
        final(records)@ == old(records)@ + rebuild_diffs(items@),
{
    records.push(VecDiff::Clear);
    let mut i: usize = 0;
    proof {
        assert(records@ =~= old(records)@ + rebuild_diffs(items@).subrange(0, 1));
    }
    while i < items.len()
        invariant
            i <= items@.len(),
            records@ == old(records)@ + rebuild_diffs(items@).subrange(0, i as int + 1),
        decreases items@.len() - i,
    {
        records.push(VecDiff::Push(items[i]));
        proof {
            let all = rebuild_diffs(items@);
            assert(all.subrange(0, i as int + 1).push(all[i as int + 1]) =~= all.subrange(
                0,
                i as int + 2,
            ));
            assert((old(records)@ + all.subrange(0, i as int + 1)).push(all[i as int + 1]) =~= old(
                records,
            )@ + all.subrange(0, i as int + 2));
        }
        i += 1;
    }
    proof {
        let all = rebuild_diffs(items@);
        assert(all.subrange(0, i as int + 1) =~= all);
    }
}

/// The four bytes of `n`, lowest first.
pub open spec fn le_bytes(n: u32) -> Seq<u8> {
    seq![
        (n % 256) as u8,
        ((n / 256) % 256) as u8,
        ((n / 65536) % 256) as u8,
        ((n / 16777216) % 256) as u8,
    ]
}

/// The number that four bytes stand for, lowest first.
pub open spec fn le_value(bytes: Seq<u8>) -> int {
    bytes[0] + bytes[1] * 256 + bytes[2] * 65536 + bytes[3] * 16777216
}

/// A record of the binary stream: the length of the payload in four bytes,
/// lowest first, then the payload.
pub open spec fn bin_record(payload: Seq<u8>) -> Seq<u8> {
    le_bytes(payload.len() as u32) + payload
}

/// An observer of a vector that keeps, in their order, the diffs that a
/// reader needs to follow the vector: a rebuild at each reset, then each
/// diff as it is announced.  Its owner takes them out, encodes each, and
/// writes the records that [`VecBinWriter::frame`] makes of the payloads.
pub struct VecBinWriter<T> {
    pub data: Option<usize>,
    pub records: Vec<VecDiff<T>>,
}

impl<T: Copy> VecBinWriter<T> {
    /// Rebinds to the vector view `view`, which holds `items` now: a
    /// rebuild of what a reader has is recorded, with the items of the view
    /// if there is one.
    pub fn reset(&mut self, view: Option<usize>, items: &Vec<T>)
        ensures
            final(self).data == view,
            final(self).records@ == old(self).records@ + rebuild_diffs(items@),
    {
        self.data = view;
        record_rebuild(&mut self.records, items);
    }

    /// Records `diff`.
    pub fn notify(&mut self, diff: &VecDiff<T>)
        ensures
            final(self).data == old(self).data,
            final(self).records@ == old(self).records@.push(*diff),
    {
        self.records.push(*diff);
    }

    /// The record of one payload: its length in four bytes, lowest first,
    /// then the payload.
    pub fn frame(payload: &Vec<u8>) -> (record: Vec<u8>)
        requires
            payload@.len() <= u32::MAX,
        ensures
            record@ == bin_record(payload@),
    {
        let n: u32 = payload.len() as u32;
        let mut record: Vec<u8> = Vec::new();
        record.push((n % 256) as u8);
        record.push(((n / 256) % 256) as u8);
        record.push(((n / 65536) % 256) as u8);
        record.push(((n / 16777216) % 256) as u8);
        let mut i: usize = 0;
        while i < payload.len()
            invariant
                i <= payload@.len(),
                record@ == le_bytes(n) + payload@.subrange(0, i as int),
            decreases payload@.len() - i,
        {
            record.push(payload[i]);
            proof {
                assert(payload@.subrange(0, i as int).push(payload@[i as int]) =~= payload@.subrange(
                    0,
                    i as int + 1,
                ));
                assert((le_bytes(n) + payload@.subrange(0, i as int)).push(payload@[i as int])
                    =~= le_bytes(n) + payload@.subrange(0, i as int + 1));
            }
            i += 1;
        }
        proof {
            assert(payload@.subrange(0, i as int) =~= payload@);
        }
        record
    }
}

/// A reader finds the payload again: the first four bytes of a record give
/// the length of the payload, which follows them.
pub proof fn lemma_bin_record_reads_back(payload: Seq<u8>)
    requires
        payload.len() <= u32::MAX,
    ensures
        bin_record(payload).len() == payload.len() + 4,
        le_value(bin_record(payload).subrange(0, 4)) == payload.len(),
        bin_record(payload).subrange(4, bin_record(payload).len() as int) == payload,
{
    let n = payload.len() as u32;
    let record = bin_record(payload);
    assert(record.subrange(0, 4) =~= le_bytes(n));
    assert(record.subrange(4, record.len() as int) =~= payload);
    assert(le_value(le_bytes(n)) == n) by {
        assert(n == n % 256 + ((n / 256) % 256) * 256 + ((n / 65536) % 256) * 65536 + ((n
            / 16777216) % 256) * 16777216) by (bit_vector);
    }
}

impl<T: Copy, F: Fn(&T) -> T, P: Fn(&T) -> bool> Graph<T, F, P> {
    /// The diffs that the writer at `node` has recorded.
    pub open spec fn recorded(&self, node: usize) -> Seq<VecDiff<T>> {
        if node < self.nodes@.len() {
            match self.nodes@[node as int] {
                Node::VecBinWriter(w) => w.records@,
                Node::VecJsonWriter(w) => w.records@,
                _ => Seq::empty(),
            }
        } else {
            Seq::empty()
        }
    }

    /// Takes the recorded diffs out of the writer at `node`, oldest first.
    pub fn take_records(&mut self, node: usize) -> (records: Vec<VecDiff<T>>)
        requires
            old(self).wf(),
        ensures
            final(self).wf(),
            final(self).extends(old(self)),
            records@ == old(self).recorded(node),
            final(self).recorded(node) == Seq::<VecDiff<T>>::empty(),
            final(self).ports@ == old(self).ports@,
            final(self).alive@ == old(self).alive@,
            final(self).nodes@.len() == old(self).nodes@.len(),
            forall|n: int|
                0 <= n < final(self).nodes@.len() && n != node ==> final(self).nodes@[n] == old(
                    self,
                ).nodes@[n],
    {
        if node >= self.nodes.len() {
            return Vec::new();
        }
        match &self.nodes[node] {
            Node::VecBinWriter(_) => {},
            Node::VecJsonWriter(_) => {},
            _ => {
                return Vec::new();
            },
        }
        let mut records: Vec<VecDiff<T>> = Vec::new();
        match &mut self.nodes[node] {
            Node::VecBinWriter(w) => {
                records.append(&mut w.records);
            },
            Node::VecJsonWriter(w) => {
                records.append(&mut w.records);
            },
            _ => {},
        }
        proof {
            assert(self.ports@ =~= old(self).ports@);
            self.lemma_wf_after_step(old(self), node);
        }
        records
    }
}

impl OuterViewPort<Vector> {
    /// Subscribes a new writer of the binary stream; the writer is handed
    /// out, and records as long as it is alive.
    pub fn serialize_bin<T: Copy, F: Fn(&T) -> T, P: Fn(&T) -> bool>(
        &self,
        g: &mut Graph<T, F, P>,
    ) -> (writer: ObserverRef)
        requires
            old(g).wf(),
            self.0.valid(old(g)),
            old(g).ports@.len() < usize::MAX,
        ensures
            final(g).wf(),
            final(g).extends(old(g)),
            writer.node == old(g).nodes@.len(),
            exists|mid: Graph<T, F, P>, w: VecBinWriter<T>|
                #[trigger] mid.node_added(old(g), Node::VecBinWriter(w)) && w.data.is_none()
                    && w.records@ == Seq::<VecDiff<T>>::empty() && final(g).observed(
                    &mid,
                    self.0.id,
                    writer.node,
                    old(g).reach() + 1,
                ),
    {
        let w = VecBinWriter { data: None, records: Vec::new() };
        let ghost made = w;
        let node = g.add_node(Node::VecBinWriter(w));
        let ghost mid = *g;
        let writer = ObserverRef { node };
        self.0.add_observer(g, writer);
        proof {
            assert(mid.node_added(old(g), Node::VecBinWriter(made)));
        }
        writer
    }
}

} // verus!
