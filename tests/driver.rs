use mock_spi::bus::{transaction, Operation, SpiBus, Stm32SpiError, Wire};
use mock_spi::driver::{Command, Error, MockSpiDriver, MAX_ECHO_PAYLOAD};
use mock_spi::model::{DelayLine, RegisterPeripheral};

#[derive(Debug, Clone, Copy, PartialEq, Eq)]
enum Seen {
    Low,
    High,
    Byte(u8, u8),
}

/// Answers each byte with its bitwise complement and records the bus.
struct Recorder {
    seen: Vec<Seen>,
}

impl SpiBus for Recorder {
    fn cs_low(&mut self) {
        self.seen.push(Seen::Low);
    }

    fn cs_high(&mut self) {
        self.seen.push(Seen::High);
    }

    fn transfer_byte(&mut self, tx: u8) -> u8 {
        let rx = !tx;
        self.seen.push(Seen::Byte(tx, rx));
        rx
    }
}

fn recorder() -> Recorder {
    Recorder { seen: Vec::new() }
}

fn wire() -> Wire<Recorder> {
    Wire::new(recorder())
}

#[test]
fn write_register_then_read_register() {
    let mut dev = MockSpiDriver::new(RegisterPeripheral::new());
    assert_eq!(dev.write_reg(0x03, 0xAB), Ok(()));
    assert_eq!(dev.read_reg(0x03), Ok(0xAB));
    let periph = dev.into_inner();
    assert_eq!(periph.register(0x03), 0xAB);
}

#[test]
fn write_then_read_every_address_and_value() {
    let mut dev = MockSpiDriver::new(RegisterPeripheral::new());
    for addr in 0..=255u8 {
        for v in 0..=255u8 {
            assert_eq!(dev.write_reg(addr, v), Ok(()));
            assert_eq!(dev.read_reg(addr), Ok(v));
        }
    }
}

#[test]
fn echo_three_bytes() {
    let mut dev = MockSpiDriver::new(DelayLine::new());
    let mut buf = vec![0x11u8, 0x22, 0x33];
    assert_eq!(dev.echo(&mut buf), Ok(()));
    assert_eq!(buf, vec![0x11u8, 0x22, 0x33]);
}

#[test]
fn echo_every_length_round_trips() {
    let mut dev = MockSpiDriver::new(DelayLine::new());
    for len in 1..=255usize {
        let payload: Vec<u8> = (0..len).map(|i| (i * 37 + len) as u8).collect();
        let mut buf = payload.clone();
        assert_eq!(dev.echo(&mut buf), Ok(()));
        assert_eq!(buf, payload);
    }
}

#[test]
fn echo_largest_payload() {
    let mut dev = MockSpiDriver::new(DelayLine::new());
    let payload: Vec<u8> = (0..MAX_ECHO_PAYLOAD).map(|i| (255 - i) as u8).collect();
    let mut buf = payload.clone();
    assert_eq!(dev.echo(&mut buf), Ok(()));
    assert_eq!(buf, payload);
}

#[test]
fn echo_too_large_is_refused() {
    let mut dev = MockSpiDriver::new(recorder());
    let mut buf = vec![7u8; 256];
    assert_eq!(dev.echo(&mut buf), Err(Error::PayloadTooLarge));
    assert_eq!(buf, vec![7u8; 256]);
    assert!(dev.into_inner().seen.is_empty());
}

#[test]
fn echo_empty_does_nothing() {
    let mut dev = MockSpiDriver::new(recorder());
    let mut buf: Vec<u8> = Vec::new();
    assert_eq!(dev.echo(&mut buf), Ok(()));
    assert!(buf.is_empty());
    assert!(dev.into_inner().seen.is_empty());
}

#[test]
fn echo_frame_and_offset() {
    let mut dev = MockSpiDriver::new(recorder());
    let mut buf = vec![0x10u8, 0x20];
    assert_eq!(dev.echo(&mut buf), Ok(()));
    // Replies are complements of the frame [1, 0x10, 0x20, 0]; the result
    // starts two bytes in.
    assert_eq!(buf, vec![!0x20u8, !0x00u8]);
    let seen = dev.into_inner().seen;
    assert_eq!(
        seen,
        vec![
            Seen::Low,
            Seen::Byte(1, !1),
            Seen::Byte(0x10, !0x10),
            Seen::Byte(0x20, !0x20),
            Seen::Byte(0, 0xFF),
            Seen::High,
        ]
    );
}

#[test]
fn write_reg_frame() {
    let mut dev = MockSpiDriver::new(recorder());
    assert_eq!(dev.write_reg(0x42, 0x99), Ok(()));
    let seen = dev.into_inner().seen;
    assert_eq!(
        seen,
        vec![
            Seen::Low,
            Seen::Byte(2, !2),
            Seen::Byte(0x42, !0x42),
            Seen::Byte(0x99, !0x99),
            Seen::High,
        ]
    );
}

#[test]
fn read_reg_takes_first_reply_byte() {
    let mut dev = MockSpiDriver::new(recorder());
    assert_eq!(dev.read_reg(0x05), Ok(!3u8));
    let seen = dev.into_inner().seen;
    assert_eq!(
        seen,
        vec![
            Seen::Low,
            Seen::Byte(3, !3),
            Seen::Byte(0x05, !0x05),
            Seen::Byte(0, 0xFF),
            Seen::High,
        ]
    );
}

#[test]
fn chip_select_brackets_whole_transaction() {
    let mut bus = wire();
    let mut ops = vec![
        Operation::Write(vec![1, 2]),
        Operation::DelayNs(100),
        Operation::Read(vec![0; 2]),
        Operation::TransferInPlace(vec![9]),
    ];
    assert_eq!(transaction(&mut bus, &mut ops), Ok::<(), Stm32SpiError>(()));
    let bus = bus.into_inner();
    let seen = &bus.seen;
    assert_eq!(seen.len(), 2 + 5);
    assert_eq!(seen[0], Seen::Low);
    assert_eq!(seen[seen.len() - 1], Seen::High);
    for s in &seen[1..seen.len() - 1] {
        assert!(matches!(s, Seen::Byte(_, _)));
    }
    let sent: Vec<u8> = seen[1..6]
        .iter()
        .map(|s| match s {
            Seen::Byte(t, _) => *t,
            _ => unreachable!(),
        })
        .collect();
    assert_eq!(sent, vec![1, 2, 0, 0, 9]);
    match &ops[2] {
        Operation::Read(b) => assert_eq!(b, &vec![0xFFu8, 0xFF]),
        _ => panic!("operation kind changed"),
    }
    match &ops[3] {
        Operation::TransferInPlace(b) => assert_eq!(b, &vec![!9u8]),
        _ => panic!("operation kind changed"),
    }
}

#[test]
fn two_transactions_each_bracketed() {
    let mut bus = wire();
    let mut a = vec![Operation::Write(vec![5])];
    let mut b = vec![Operation::Write(vec![6])];
    transaction(&mut bus, &mut a).unwrap();
    transaction(&mut bus, &mut b).unwrap();
    assert_eq!(
        bus.into_inner().seen,
        vec![Seen::Low, Seen::Byte(5, !5), Seen::High, Seen::Low, Seen::Byte(6, !6), Seen::High]
    );
}

#[test]
fn transfer_equals_transfer_in_place() {
    let data = vec![0x01u8, 0x80, 0xFE, 0x33];
    let mut bus1 = wire();
    let mut ops1 = vec![Operation::Transfer(vec![0; 4], data.clone())];
    transaction(&mut bus1, &mut ops1).unwrap();
    let mut bus2 = wire();
    let mut ops2 = vec![Operation::TransferInPlace(data.clone())];
    transaction(&mut bus2, &mut ops2).unwrap();
    assert_eq!(bus1.into_inner().seen, bus2.into_inner().seen);
    let r1 = match &ops1[0] {
        Operation::Transfer(r, _) => r.clone(),
        _ => panic!("operation kind changed"),
    };
    let r2 = match &ops2[0] {
        Operation::TransferInPlace(b) => b.clone(),
        _ => panic!("operation kind changed"),
    };
    assert_eq!(r1, r2);
    assert_eq!(r1, vec![0xFEu8, 0x7F, 0x01, 0xCC]);
}

#[test]
fn transfer_with_unequal_buffers() {
    let mut bus = wire();
    let mut ops = vec![Operation::Transfer(vec![0xAA; 4], vec![0x0F, 0xF0])];
    transaction(&mut bus, &mut ops).unwrap();
    assert_eq!(bus.into_inner().seen.len(), 4);
    match &ops[0] {
        Operation::Transfer(r, t) => {
            assert_eq!(r, &vec![0xF0u8, 0x0F, 0xAA, 0xAA]);
            assert_eq!(t, &vec![0x0Fu8, 0xF0]);
        }
        _ => panic!("operation kind changed"),
    }
    let mut bus = wire();
    let mut ops = vec![Operation::Transfer(vec![0; 1], vec![1, 2, 3])];
    transaction(&mut bus, &mut ops).unwrap();
    assert_eq!(bus.into_inner().seen, vec![Seen::Low, Seen::Byte(1, !1), Seen::High]);
}

#[test]
fn empty_transaction_still_toggles_chip_select() {
    let mut bus = wire();
    let mut ops: Vec<Operation> = Vec::new();
    transaction(&mut bus, &mut ops).unwrap();
    assert_eq!(bus.into_inner().seen, vec![Seen::Low, Seen::High]);
}

#[test]
fn command_codes() {
    assert_eq!(Command::Echo.code(), 1);
    assert_eq!(Command::WriteReg.code(), 2);
    assert_eq!(Command::ReadReg.code(), 3);
}

#[test]
fn error_variants() {
    assert_ne!(Error::Spi, Error::PayloadTooLarge);
}
