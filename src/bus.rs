//! The transaction engine: runs a list of operations as one chip-select
//! bracketed transaction over a byte-level SPI bus.

use vstd::prelude::*;

verus! {

/// One thing that happens on the bus, as seen from the controller.
pub enum BusEvent {
    /// Chip-select driven low: the peripheral is addressed.
    Select,
    /// Chip-select driven high: the peripheral is released.
    Deselect,
    /// One full-duplex byte time: `tx` went out while `rx` came in.
    Byte { tx: u8, rx: u8 },
}

/// Byte-level access to an SPI controller and its single chip-select line.
///
/// The exchange primitive blocks until the hardware is ready and cannot fail.
pub trait SpiBus {
    /// Drive chip-select low.
    fn cs_low(&mut self);

    /// Drive chip-select high.
    fn cs_high(&mut self);

    /// Send `tx` and return the byte clocked in at the same time.
    fn transfer_byte(&mut self, tx: u8) -> u8;
}

/// A bus together with the record of everything done on it through this
/// handle.
pub struct Wire<B> {
    dev: B,
    log: Ghost<Seq<BusEvent>>,
}

impl<B: SpiBus> Wire<B> {
    /// Everything that has happened on the bus so far, oldest first.
    pub closed spec fn log(&self) -> Seq<BusEvent> {
        self.log@
    }

    /// Takes over a bus, with an empty record.
    pub fn new(dev: B) -> (r: Self)
        ensures
            r.log() == Seq::<BusEvent>::empty(),
    {
        Wire { dev, log: Ghost(Seq::empty()) }
    }

    /// Gives the bus back.
    pub fn into_inner(self) -> B {
        self.dev
    }

    fn cs_low(&mut self)
        ensures
            final(self).log() == old(self).log().push(BusEvent::Select),
    {
        self.dev.cs_low();
        self.log = Ghost(self.log@.push(BusEvent::Select));
    }

    fn cs_high(&mut self)
        ensures
            final(self).log() == old(self).log().push(BusEvent::Deselect),
    {
        self.dev.cs_high();
        self.log = Ghost(self.log@.push(BusEvent::Deselect));
    }

    fn transfer_byte(&mut self, tx: u8) -> (rx: u8)
        ensures
            final(self).log() == old(self).log().push(BusEvent::Byte { tx, rx }),
    {
        let rx = self.dev.transfer_byte(tx);
        self.log = Ghost(self.log@.push(BusEvent::Byte { tx, rx }));
        rx
    }
}

/// The transport failure of the transaction engine.
#[derive(Debug, Clone, Copy, PartialEq, Eq, Structural)]
pub struct Stm32SpiError;

/// One step of a transaction.
pub enum Operation {
    /// Send the bytes; what comes back is dropped.
    Write(Vec<u8>),
    /// Fill the buffer, sending a zero byte for each slot.
    Read(Vec<u8>),
    /// Full duplex with separate buffers: `(rx, tx)`. Only the first
    /// `min(rx.len(), tx.len())` positions take part.
    Transfer(Vec<u8>, Vec<u8>),
    /// Full duplex in one buffer: each byte is sent and replaced by the reply.
    TransferInPlace(Vec<u8>),
    /// A pause; it has no effect on the bus here.
    DelayNs(u32),
}

/// The contents of an [`Operation`].
pub enum OpView {
    Write(Seq<u8>),
    Read(Seq<u8>),
    Transfer(Seq<u8>, Seq<u8>),
    TransferInPlace(Seq<u8>),
    DelayNs(u32),
}

impl View for Operation {
    type V = OpView;

    open spec fn view(&self) -> OpView {
        match self {
            Operation::Write(b) => OpView::Write(b@),
            Operation::Read(b) => OpView::Read(b@),
            Operation::Transfer(r, t) => OpView::Transfer(r@, t@),
            Operation::TransferInPlace(b) => OpView::TransferInPlace(b@),
            Operation::DelayNs(n) => OpView::DelayNs(*n),
        }
    }
}

/// The contents of a list of operations.
pub open spec fn views(ops: Seq<Operation>) -> Seq<OpView> {
    ops.map_values(|o: Operation| o@)
}

pub open spec fn min_len(a: nat, b: nat) -> nat {
    if a <= b { a } else { b }
}

/// `n` zero bytes.
pub open spec fn zeros(n: nat) -> Seq<u8> {
    Seq::new(n, |i: int| 0u8)
}

/// The bytes an operation puts on the wire, in order.
pub open spec fn op_tx(op: OpView) -> Seq<u8> {
    match op {
        OpView::Write(b) => b,
        OpView::Read(b) => zeros(b.len()),
        OpView::Transfer(r, t) => t.take(min_len(r.len(), t.len()) as int),
        OpView::TransferInPlace(b) => b,
        OpView::DelayNs(_) => Seq::empty(),
    }
}

/// The operation after the bytes `rx` (one per byte it sent) came back.
pub open spec fn op_fill(op: OpView, rx: Seq<u8>) -> OpView {
    match op {
        OpView::Write(b) => OpView::Write(b),
        OpView::Read(b) => OpView::Read(rx),
        OpView::Transfer(r, t) => {
            let n = min_len(r.len(), t.len()) as int;
            OpView::Transfer(rx + r.skip(n), t)
        },
        OpView::TransferInPlace(b) => OpView::TransferInPlace(rx),
        OpView::DelayNs(d) => OpView::DelayNs(d),
    }
}

/// The bytes a list of operations puts on the wire, in order.
pub open spec fn all_tx(ops: Seq<OpView>) -> Seq<u8>
    decreases ops.len(),
{
    if ops.len() == 0 {
        Seq::empty()
    } else {
        all_tx(ops.drop_last()) + op_tx(ops.last())
    }
}

/// Where the bytes of operation `i` start in the whole transaction.
pub open spec fn op_start(ops: Seq<OpView>, i: int) -> int {
    all_tx(ops.take(i)).len() as int
}

/// The operations after the whole transaction received `rx`.
pub open spec fn fill_all(ops: Seq<OpView>, rx: Seq<u8>) -> Seq<OpView> {
    Seq::new(
        ops.len(),
        |i: int| op_fill(ops[i], rx.subrange(op_start(ops, i), op_start(ops, i + 1))),
    )
}

/// One byte event for each position of `tx` and `rx`.
pub open spec fn exchanges(tx: Seq<u8>, rx: Seq<u8>) -> Seq<BusEvent> {
    Seq::new(tx.len(), |i: int| BusEvent::Byte { tx: tx[i], rx: rx[i] })
}

/// What the bus sees for one transaction that sent `tx` and received `rx`:
/// chip-select low, the byte exchanges in order, chip-select high.
pub open spec fn transaction_events(tx: Seq<u8>, rx: Seq<u8>) -> Seq<BusEvent> {
    seq![BusEvent::Select] + exchanges(tx, rx) + seq![BusEvent::Deselect]
}

/// The bytes received during a transaction, read from its events.
pub open spec fn received(events: Seq<BusEvent>) -> Seq<u8> {
    Seq::new((events.len() - 2) as nat, |i: int| events[i + 1]->rx)
}

/// The bytes received by the last transaction that took the log from
/// `before` to `after`.
pub open spec fn last_received(before: Seq<BusEvent>, after: Seq<BusEvent>) -> Seq<u8> {
    received(after.skip(before.len() as int))
}

proof fn lemma_all_tx_step(ops: Seq<OpView>, i: int)
    requires
        0 <= i < ops.len(),
    ensures
        all_tx(ops.take(i + 1)) == all_tx(ops.take(i)) + op_tx(ops[i]),
{
    assert(ops.take(i + 1).drop_last() =~= ops.take(i));
}

proof fn lemma_exchanges_push(tx: Seq<u8>, rx: Seq<u8>, t: u8, r: u8)
    requires
        tx.len() == rx.len(),
    ensures
        exchanges(tx.push(t), rx.push(r)) == exchanges(tx, rx).push(BusEvent::Byte { tx: t, rx: r }),
{
    assert(exchanges(tx.push(t), rx.push(r)) =~= exchanges(tx, rx).push(BusEvent::Byte { tx: t, rx: r }));
}

proof fn lemma_exchanges_append(tx1: Seq<u8>, rx1: Seq<u8>, tx2: Seq<u8>, rx2: Seq<u8>)
    requires
        tx1.len() == rx1.len(),
        tx2.len() == rx2.len(),
    ensures
        exchanges(tx1 + tx2, rx1 + rx2) == exchanges(tx1, rx1) + exchanges(tx2, rx2),
{
    assert(exchanges(tx1 + tx2, rx1 + rx2) =~= exchanges(tx1, rx1) + exchanges(tx2, rx2));
}

/// Exchanges the first `n` bytes of `tx`, in order, and returns what came back.
fn exchange_prefix<B: SpiBus>(bus: &mut Wire<B>, tx: &Vec<u8>, n: usize) -> (rx: Vec<u8>)
    requires
        n <= tx.len(),
    ensures
        rx@.len() == n,
        final(bus).log() == old(bus).log() + exchanges(tx@.take(n as int), rx@),
{
    let mut rx: Vec<u8> = Vec::new();
    let mut k: usize = 0;
    while k < n
        invariant
            n <= tx.len(),
            k <= n,
            rx@.len() == k,
            bus.log() == old(bus).log() + exchanges(tx@.take(k as int), rx@),
        decreases n - k,
    {
        let t = tx[k];
        let r = bus.transfer_byte(t);
        proof {
            lemma_exchanges_push(tx@.take(k as int), rx@, t, r);
            assert(tx@.take(k as int).push(t) =~= tx@.take(k + 1));
        }
        rx.push(r);
        k = k + 1;
    }
    rx
}

/// `n` zero bytes.
fn zero_bytes(n: usize) -> (r: Vec<u8>)
    ensures
        r@ == zeros(n as nat),
{
    let mut r: Vec<u8> = Vec::new();
    let mut k: usize = 0;
    while k < n
        invariant
            k <= n,
            r@ =~= zeros(k as nat),
        decreases n - k,
    {
        r.push(0u8);
        k = k + 1;
    }
    r
}

/// Runs one operation on the bus (no chip-select changes) and returns the
/// operation with its receive buffer filled, and the bytes that came back.
fn run_op<B: SpiBus>(bus: &mut Wire<B>, op: &Operation) -> (r: (Operation, Ghost<Seq<u8>>))
    ensures
        r.1@.len() == op_tx(op@).len(),
        final(bus).log() == old(bus).log() + exchanges(op_tx(op@), r.1@),
        r.0@ == op_fill(op@, r.1@),
{
    match op {
        Operation::Write(b) => {
            let rx = exchange_prefix(bus, b, b.len());
            assert(b@.take(b.len() as int) =~= b@);
            (Operation::Write(b.clone()), Ghost(rx@))
        },
        Operation::Read(b) => {
            let tx = zero_bytes(b.len());
            let rx = exchange_prefix(bus, &tx, tx.len());
            assert(tx@.take(tx.len() as int) =~= tx@);
            let ghost g = rx@;
            (Operation::Read(rx), Ghost(g))
        },
        Operation::Transfer(rb, tb) => {
            let n: usize = if rb.len() <= tb.len() { rb.len() } else { tb.len() };
            let rx = exchange_prefix(bus, tb, n);
            let ghost g = rx@;
            let mut out = rx;
            let mut k: usize = n;
            while k < rb.len()
                invariant
                    n <= k <= rb.len(),
                    out@ =~= g + rb@.subrange(n as int, k as int),
                decreases rb.len() - k,
            {
                out.push(rb[k]);
                k = k + 1;
            }
            assert(rb@.subrange(n as int, rb.len() as int) =~= rb@.skip(n as int));
            (Operation::Transfer(out, tb.clone()), Ghost(g))
        },
        Operation::TransferInPlace(b) => {
            let rx = exchange_prefix(bus, b, b.len());
            assert(b@.take(b.len() as int) =~= b@);
            let ghost g = rx@;
            (Operation::TransferInPlace(rx), Ghost(g))
        },
        Operation::DelayNs(d) => {
            assert(exchanges(Seq::empty(), Seq::empty()) =~= Seq::empty());
            assert(old(bus).log() + Seq::<BusEvent>::empty() =~= old(bus).log());
            (Operation::DelayNs(*d), Ghost(Seq::empty()))
        },
    }
}

proof fn lemma_start_mono(ops: Seq<OpView>, j: int, i: int)
    requires
        0 <= j <= i <= ops.len(),
    ensures
        op_start(ops, j) <= op_start(ops, i),
    decreases i - j,
{
    if j < i {
        lemma_start_mono(ops, j, i - 1);
        lemma_all_tx_step(ops, i - 1);
    }
}

/// Runs `ops` as one transaction: chip-select goes low, every operation runs
/// in list order with its bytes in index order, and chip-select goes high.
/// Each receive buffer is filled with the bytes that came back for it.
pub fn transaction<B: SpiBus>(bus: &mut Wire<B>, ops: &mut Vec<Operation>) -> (r: Result<(), Stm32SpiError>)
    ensures
        r is Ok,
        last_received(old(bus).log(), final(bus).log()).len() == all_tx(views(old(ops)@)).len(),
        final(ops)@.len() == old(ops)@.len(),
        final(bus).log() == old(bus).log() + transaction_events(
            all_tx(views(old(ops)@)),
            last_received(old(bus).log(), final(bus).log()),
        ),
        views(final(ops)@) == fill_all(
            views(old(ops)@),
            last_received(old(bus).log(), final(bus).log()),
        ),
{
    let ghost ov = views(ops@);
    let ghost base = bus.log();
    bus.cs_low();
    let mut out: Vec<Operation> = Vec::new();
    let ghost mut rx: Seq<u8> = Seq::empty();
    proof {
        assert(ov.take(0) =~= Seq::<OpView>::empty());
        assert(exchanges(Seq::empty(), rx) =~= Seq::empty());
        assert(base.push(BusEvent::Select) + Seq::<BusEvent>::empty() =~= base.push(BusEvent::Select));
    }
    let mut i: usize = 0;
    while i < ops.len()
        invariant
            ops@ == old(ops)@,
            ov == views(ops@),
            i <= ops.len(),
            rx.len() == all_tx(ov.take(i as int)).len(),
            bus.log() == base.push(BusEvent::Select) + exchanges(all_tx(ov.take(i as int)), rx),
            out@.len() == i,
            forall|j: int|
                0 <= j < i ==> (#[trigger] out@[j])@ == op_fill(
                    ov[j],
                    rx.subrange(op_start(ov, j), op_start(ov, j + 1)),
                ),
        decreases ops.len() - i,
    {
        let (o, g) = run_op(bus, &ops[i]);
        proof {
            let ii = i as int;
            lemma_all_tx_step(ov, ii);
            lemma_exchanges_append(all_tx(ov.take(ii)), rx, op_tx(ov[ii]), g@);
            let rx2 = rx + g@;
            assert forall|j: int| 0 <= j < ii implies #[trigger] rx2.subrange(op_start(ov, j), op_start(ov, j + 1))
                == rx.subrange(op_start(ov, j), op_start(ov, j + 1)) by {
                lemma_start_mono(ov, j, j + 1);
                lemma_start_mono(ov, j + 1, ii);
                lemma_start_mono(ov, 0, j);
                assert(rx2.subrange(op_start(ov, j), op_start(ov, j + 1))
                    =~= rx.subrange(op_start(ov, j), op_start(ov, j + 1)));
            }
            assert(rx2.subrange(op_start(ov, ii), op_start(ov, ii + 1)) =~= g@);
            rx = rx2;
        }
        out.push(o);
        i = i + 1;
    }
    bus.cs_high();
    *ops = out;
    proof {
        let n = ov.len() as int;
        assert(ov.take(n) =~= ov);
        let events = transaction_events(all_tx(ov), rx);
        assert(bus.log() =~= base + events);
        assert(bus.log().skip(base.len() as int) =~= events);
        assert(received(events) =~= rx);
        assert(views(ops@) =~= fill_all(ov, rx));
    }
    Ok(())
}

/// A list of one operation sends what that operation sends.
pub proof fn lemma_single_tx(op: OpView)
    ensures
        all_tx(seq![op]) == op_tx(op),
{
    let a = seq![op];
    lemma_all_tx_step(a, 0);
    assert(a.take(1) =~= a);
    assert(a.take(0) =~= Seq::<OpView>::empty());
    assert(Seq::<u8>::empty() + op_tx(op) =~= op_tx(op));
}

/// A list of one operation is filled as that operation is.
pub proof fn lemma_single_op(op: OpView, rx: Seq<u8>)
    requires
        rx.len() == op_tx(op).len(),
    ensures
        fill_all(seq![op], rx) == seq![op_fill(op, rx)],
{
    let a = seq![op];
    lemma_single_tx(op);
    assert(a.take(1) =~= a);
    assert(a.take(0) =~= Seq::<OpView>::empty());
    assert(rx.subrange(0, rx.len() as int) =~= rx);
    assert(fill_all(a, rx) =~= seq![op_fill(op, rx)]);
}

/// A transaction of one full-duplex exchange with separate buffers and one
/// of a full-duplex exchange in place are the same thing on the wire: with
/// the same bytes to send and a receive buffer as long, both send the same
/// bytes, and for the same replies both end with the same received bytes.
pub proof fn transfer_matches_in_place(rx_buf: Seq<u8>, buf: Seq<u8>, reply: Seq<u8>)
    requires
        rx_buf.len() == buf.len(),
        reply.len() == buf.len(),
    ensures
        all_tx(seq![OpView::Transfer(rx_buf, buf)]) == all_tx(seq![OpView::TransferInPlace(buf)]),
        fill_all(seq![OpView::Transfer(rx_buf, buf)], reply)[0]->Transfer_0
            == fill_all(seq![OpView::TransferInPlace(buf)], reply)[0]->TransferInPlace_0,
        fill_all(seq![OpView::Transfer(rx_buf, buf)], reply)[0]->Transfer_0 == reply,
{
    let a = seq![OpView::Transfer(rx_buf, buf)];
    let b = seq![OpView::TransferInPlace(buf)];
    lemma_all_tx_step(a, 0);
    lemma_all_tx_step(b, 0);
    assert(a.take(1) =~= a);
    assert(b.take(1) =~= b);
    assert(a.take(0) =~= Seq::<OpView>::empty());
    assert(b.take(0) =~= Seq::<OpView>::empty());
    assert(buf.take(buf.len() as int) =~= buf);
    assert(all_tx(a) =~= buf);
    assert(all_tx(b) =~= buf);
    assert(reply.subrange(0, buf.len() as int) =~= reply);
    assert(rx_buf.skip(buf.len() as int) =~= Seq::<u8>::empty());
    assert(reply + Seq::<u8>::empty() =~= reply);
}

} // verus!
