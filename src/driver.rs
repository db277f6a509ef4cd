//! The command framing layer: three commands encoded as wire frames and
//! sent as single transactions.

use vstd::prelude::*;

use crate::bus::{
    last_received, lemma_single_op, lemma_single_tx, op_tx, transaction, transaction_events, views,
    BusEvent, OpView, Operation, SpiBus, Wire,
};

verus! {

/// The command codes understood by the remote peripheral.
#[derive(Debug, Clone, Copy, PartialEq, Eq, Structural)]
pub enum Command {
    Echo,
    WriteReg,
    ReadReg,
}

/// The byte that stands for a command at the start of a frame.
pub open spec fn code_of(c: Command) -> u8 {
    match c {
        Command::Echo => 1,
        Command::WriteReg => 2,
        Command::ReadReg => 3,
    }
}

impl Command {
    /// The byte that stands for this command at the start of a frame.
    pub fn code(&self) -> (r: u8)
        ensures
            r == code_of(*self),
    {
        match self {
            Command::Echo => 1,
            Command::WriteReg => 2,
            Command::ReadReg => 3,
        }
    }
}

/// Failures of the framing layer.
#[derive(Debug, Clone, Copy, PartialEq, Eq, Structural)]
pub enum Error {
    /// The transport failed.
    Spi,
    /// An echo payload does not fit the frame buffer.
    PayloadTooLarge,
}

/// Size of the frame buffer an echo is built in.
pub const ECHO_FRAME_CAPACITY: usize = 257;

/// The largest echo payload: the frame also holds the command byte and one
/// byte of decode latency.
pub const MAX_ECHO_PAYLOAD: usize = 255;

/// The frame sent for an echo: the command byte, the payload, one filler byte.
pub open spec fn echo_frame(payload: Seq<u8>) -> Seq<u8> {
    seq![code_of(Command::Echo)] + payload + seq![0u8]
}

/// The echoed payload inside the bytes received for an echo frame: they
/// arrive two byte times after the start of the frame.
pub open spec fn echo_reply(rx: Seq<u8>) -> Seq<u8> {
    rx.subrange(2, rx.len() as int)
}

/// The frame sent to write `value` to register `addr`.
pub open spec fn write_frame(addr: u8, value: u8) -> Seq<u8> {
    seq![code_of(Command::WriteReg), addr, value]
}

/// The frame sent to read register `addr`.
pub open spec fn read_frame(addr: u8) -> Seq<u8> {
    seq![code_of(Command::ReadReg), addr, 0u8]
}

/// The register value inside the bytes received for a read frame: the
/// first byte.
pub open spec fn read_value(rx: Seq<u8>) -> u8 {
    rx[0]
}

/// The bytes `rx` are those of a peripheral that answers every byte time
/// with the byte it was sent one byte time earlier.
pub open spec fn answers_one_late(tx: Seq<u8>, rx: Seq<u8>) -> bool {
    &&& rx.len() == tx.len()
    &&& forall|k: int| 1 <= k < tx.len() ==> #[trigger] rx[k] == tx[k - 1]
}

/// Echo round trip: over a peripheral that hands every byte back one byte
/// time late, the echoed bytes of any payload of 1 to 255 bytes are the
/// payload itself.
pub proof fn echo_round_trip(payload: Seq<u8>, rx: Seq<u8>)
    requires
        1 <= payload.len() <= MAX_ECHO_PAYLOAD,
        answers_one_late(echo_frame(payload), rx),
    ensures
        echo_reply(rx) == payload,
{
    let f = echo_frame(payload);
    assert forall|m: int| 0 <= m < payload.len() implies #[trigger] echo_reply(rx)[m] == payload[m] by {
        assert(rx[m + 2] == f[m + 1]);
    }
    assert(echo_reply(rx) =~= payload);
}

/// The register file of the remote peripheral (256 registers) after it has
/// taken in `frame`: a write frame stores its value, anything else leaves
/// the registers as they are.
pub open spec fn registers_after(regs: Seq<u8>, frame: Seq<u8>) -> Seq<u8> {
    if frame.len() == 3 && frame[0] == code_of(Command::WriteReg) {
        regs.update(frame[1] as int, frame[2])
    } else {
        regs
    }
}

/// What the remote peripheral sends back during `frame`: for a read frame,
/// the addressed register in the first byte time; zeros otherwise.
pub open spec fn peripheral_reply(regs: Seq<u8>, frame: Seq<u8>) -> Seq<u8> {
    if frame.len() == 3 && frame[0] == code_of(Command::ReadReg) {
        seq![regs[frame[1] as int], 0u8, 0u8]
    } else {
        Seq::new(frame.len(), |i: int| 0u8)
    }
}

/// Write then read: a register read right after a write of `value` to the
/// same address gives `value`, whatever the registers held before.
pub proof fn write_then_read(regs: Seq<u8>, addr: u8, value: u8)
    requires
        regs.len() == 256,
    ensures
        read_value(peripheral_reply(registers_after(regs, write_frame(addr, value)), read_frame(addr)))
            == value,
{
}

/// A driver for the remote peripheral over a byte-level bus.
pub struct MockSpiDriver<SPI> {
    spi: Wire<SPI>,
}

impl<SPI: SpiBus> MockSpiDriver<SPI> {
    /// Everything the driver has done on its bus, oldest first.
    pub closed spec fn log(&self) -> Seq<BusEvent> {
        self.spi.log()
    }

    /// A driver over `spi`, which nothing has been done on yet.
    pub fn new(spi: SPI) -> (r: Self)
        ensures
            r.log() == Seq::<BusEvent>::empty(),
    {
        MockSpiDriver { spi: Wire::new(spi) }
    }

    /// Gives the bus back.
    pub fn into_inner(self) -> SPI {
        self.spi.into_inner()
    }

    /// Sends `buf` in an echo frame and replaces it with the echoed bytes.
    ///
    /// An empty payload touches nothing; a payload over
    /// [`MAX_ECHO_PAYLOAD`] bytes is refused before anything is sent.
    pub fn echo(&mut self, buf: &mut Vec<u8>) -> (r: Result<(), Error>)
        ensures
            old(buf)@.len() == 0 ==> {
                &&& r is Ok
                &&& *final(self) == *old(self)
                &&& final(buf)@ == old(buf)@
            },
            old(buf)@.len() > MAX_ECHO_PAYLOAD ==> {
                &&& r == Err::<(), Error>(Error::PayloadTooLarge)
                &&& *final(self) == *old(self)
                &&& final(buf)@ == old(buf)@
            },
            1 <= old(buf)@.len() <= MAX_ECHO_PAYLOAD ==> {
                let rx = last_received(old(self).log(), final(self).log());
                &&& r is Ok
                &&& final(self).log() == old(self).log() + transaction_events(
                    echo_frame(old(buf)@),
                    rx,
                )
                &&& final(buf)@ == echo_reply(rx)
            },
    {
        let len = buf.len();
        if len == 0 {
            return Ok(());
        }
        if len > MAX_ECHO_PAYLOAD {
            return Err(Error::PayloadTooLarge);
        }
        let mut wire: Vec<u8> = Vec::new();
        wire.push(Command::Echo.code());
        let mut k: usize = 0;
        while k < len
            invariant
                len == buf.len(),
                wire@ =~= seq![code_of(Command::Echo)] + buf@.take(k as int),
                k <= len,
            decreases len - k,
        {
            wire.push(buf[k]);
            k = k + 1;
        }
        wire.push(0u8);
        assert(len + 2 <= ECHO_FRAME_CAPACITY);
        assert(buf@.take(len as int) =~= buf@);
        assert(wire@ =~= echo_frame(buf@));
        let ghost frame = wire@;
        let ghost before = self.spi.log();
        let mut ops: Vec<Operation> = vec![Operation::TransferInPlace(wire)];
        assert(views(ops@) =~= seq![OpView::TransferInPlace(frame)]);
        proof {
            lemma_single_tx(views(ops@)[0]);
        }
        match transaction(&mut self.spi, &mut ops) {
            Ok(()) => {},
            Err(_) => {
                return Err(Error::Spi);
            },
        }
        let ghost rx = last_received(before, self.spi.log());
        proof {
            lemma_single_op(OpView::TransferInPlace(frame), rx);
            assert(views(ops@)[0] == OpView::TransferInPlace(rx));
        }
        match &ops[0] {
            Operation::TransferInPlace(w) => {
                assert(w@ == rx);
                let mut j: usize = 0;
                while j < len
                    invariant
                        w@ == rx,
                        rx.len() == len + 2,
                        len <= MAX_ECHO_PAYLOAD,
                        buf@.len() == len,
                        j <= len,
                        forall|m: int| 0 <= m < j ==> buf@[m] == rx[m + 2],
                    decreases len - j,
                {
                    buf.set(j, w[j + 2]);
                    j = j + 1;
                }
                assert(buf@ =~= echo_reply(rx));
            },
            _ => {
                assert(false);
            },
        }
        Ok(())
    }

    /// Writes `value` to register `addr` of the peripheral; nothing is read
    /// back.
    pub fn write_reg(&mut self, addr: u8, value: u8) -> (r: Result<(), Error>)
        ensures
            r is Ok,
            final(self).log() == old(self).log() + transaction_events(
                write_frame(addr, value),
                last_received(old(self).log(), final(self).log()),
            ),
    {
        let frame: Vec<u8> = vec![Command::WriteReg.code(), addr, value];
        let ghost f = frame@;
        assert(f =~= write_frame(addr, value));
        let ghost before = self.spi.log();
        let mut ops: Vec<Operation> = vec![Operation::Write(frame)];
        assert(views(ops@) =~= seq![OpView::Write(f)]);
        proof {
            lemma_single_tx(views(ops@)[0]);
        }
        match transaction(&mut self.spi, &mut ops) {
            Ok(()) => {},
            Err(_) => {
                return Err(Error::Spi);
            },
        }
        proof {
            let rx = last_received(before, self.spi.log());
            lemma_single_op(OpView::Write(f), rx);
        }
        Ok(())
    }

    /// Reads register `addr` of the peripheral: the value is the first byte
    /// that comes back for the read frame.
    pub fn read_reg(&mut self, addr: u8) -> (r: Result<u8, Error>)
        ensures
            r == Ok::<u8, Error>(
                read_value(last_received(old(self).log(), final(self).log())),
            ),
            final(self).log() == old(self).log() + transaction_events(
                read_frame(addr),
                last_received(old(self).log(), final(self).log()),
            ),
    {
        let rx_buf: Vec<u8> = vec![0u8, 0u8, 0u8];
        let frame: Vec<u8> = vec![Command::ReadReg.code(), addr, 0u8];
        let ghost f = frame@;
        let ghost z = rx_buf@;
        assert(f =~= read_frame(addr));
        let ghost before = self.spi.log();
        let mut ops: Vec<Operation> = vec![Operation::Transfer(rx_buf, frame)];
        assert(views(ops@) =~= seq![OpView::Transfer(z, f)]);
        assert(op_tx(OpView::Transfer(z, f)) =~= f);
        proof {
            lemma_single_tx(views(ops@)[0]);
        }
        match transaction(&mut self.spi, &mut ops) {
            Ok(()) => {},
            Err(_) => {
                return Err(Error::Spi);
            },
        }
        let ghost rx = last_received(before, self.spi.log());
        proof {
            lemma_single_op(OpView::Transfer(z, f), rx);
            assert(z.skip(3) =~= Seq::<u8>::empty());
            assert(rx + z.skip(3) =~= rx);
            assert(views(ops@)[0] == OpView::Transfer(rx, f));
        }
        match &ops[0] {
            Operation::Transfer(r, _) => {
                assert(r@ == rx);
                Ok(r[0])
            },
            _ => {
                assert(false);
                Err(Error::Spi)
            },
        }
    }
}

} // verus!
