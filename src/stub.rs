//! An in-memory stand-in for an SPI device, for use on a host machine.

use vstd::prelude::*;

use crate::bus::{min_len, op_fill, op_tx, views, OpView, Operation};

verus! {

/// The error type of [`StubSpiDevice`]; it is never produced.
#[derive(Debug, Clone, Copy, PartialEq, Eq, Structural)]
pub struct StubError;

/// A device with no protocol: reads fill with `0xAB`, full-duplex
/// exchanges hand the sent bytes straight back, writes and pauses do
/// nothing.
#[derive(Debug, Clone, Copy, PartialEq, Eq, Structural)]
pub struct StubSpiDevice;

/// The byte a read from the stub yields in every slot.
pub const STUB_READ_BYTE: u8 = 0xAB;

/// An operation after the stub has run it.
pub open spec fn stub_result(op: OpView) -> OpView {
    match op {
        OpView::Read(b) => OpView::Read(Seq::new(b.len(), |i: int| STUB_READ_BYTE)),
        _ => op_fill(op, op_tx(op)),
    }
}

fn stub_op(op: &Operation) -> (r: Operation)
    ensures
        r@ == stub_result(op@),
{
    match op {
        Operation::Read(b) => {
            let mut out: Vec<u8> = Vec::new();
            let mut k: usize = 0;
            while k < b.len()
                invariant
                    k <= b.len(),
                    out@ =~= Seq::new(k as nat, |i: int| STUB_READ_BYTE),
                decreases b.len() - k,
            {
                out.push(STUB_READ_BYTE);
                k = k + 1;
            }
            Operation::Read(out)
        },
        Operation::Transfer(rb, tb) => {
            let n: usize = if rb.len() <= tb.len() { rb.len() } else { tb.len() };
            let mut out: Vec<u8> = Vec::new();
            let mut k: usize = 0;
            while k < rb.len()
                invariant
                    n == min_len(rb@.len(), tb@.len()),
                    k <= rb.len(),
                    out@.len() == k,
                    forall|m: int| 0 <= m < k ==> #[trigger] out@[m] == if m < n { tb@[m] } else { rb@[m] },
                decreases rb.len() - k,
            {
                if k < n {
                    out.push(tb[k]);
                } else {
                    out.push(rb[k]);
                }
                k = k + 1;
            }
            assert(out@ =~= tb@.take(n as int) + rb@.skip(n as int));
            Operation::Transfer(out, tb.clone())
        },
        Operation::Write(b) => Operation::Write(b.clone()),
        Operation::TransferInPlace(b) => Operation::TransferInPlace(b.clone()),
        Operation::DelayNs(d) => Operation::DelayNs(*d),
    }
}

impl StubSpiDevice {
    /// Runs `ops` in order without any hardware.
    pub fn transaction(&mut self, ops: &mut Vec<Operation>) -> (r: Result<(), StubError>)
        ensures
            r is Ok,
            views(final(ops)@) == views(old(ops)@).map_values(|o: OpView| stub_result(o)),
    {
        let mut out: Vec<Operation> = Vec::new();
        let mut i: usize = 0;
        while i < ops.len()
            invariant
                ops@ == old(ops)@,
                i <= ops.len(),
                out@.len() == i,
                forall|j: int| 0 <= j < i ==> (#[trigger] out@[j])@ == stub_result(ops@[j]@),
            decreases ops.len() - i,
        {
            let o = stub_op(&ops[i]);
            out.push(o);
            i = i + 1;
        }
        *ops = out;
        assert(views(ops@) =~= views(old(ops)@).map_values(|o: OpView| stub_result(o)));
        Ok(())
    }
}

} // verus!
