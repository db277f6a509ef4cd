use mock_spi::bus::Operation;
use mock_spi::diag::{hex_byte, hex_slice};
use mock_spi::stm32::{
    cs_high_write, cs_low_write, init_writes, rx_not_empty, tx_empty, RegWrite, GPIOA_BSRR,
    SPI1_CR1, SPI1_CR2,
};
use mock_spi::stub::{StubError, StubSpiDevice};

#[test]
fn stub_runs_each_operation() {
    let mut dev = StubSpiDevice;
    let mut ops = vec![
        Operation::Read(vec![0; 3]),
        Operation::Write(vec![1, 2]),
        Operation::Transfer(vec![0; 3], vec![4, 5]),
        Operation::TransferInPlace(vec![6, 7]),
        Operation::DelayNs(10),
    ];
    assert_eq!(dev.transaction(&mut ops), Ok::<(), StubError>(()));
    match &ops[0] {
        Operation::Read(b) => assert_eq!(b, &vec![0xABu8; 3]),
        _ => panic!("operation kind changed"),
    }
    match &ops[1] {
        Operation::Write(b) => assert_eq!(b, &vec![1u8, 2]),
        _ => panic!("operation kind changed"),
    }
    match &ops[2] {
        Operation::Transfer(r, t) => {
            assert_eq!(r, &vec![4u8, 5, 0]);
            assert_eq!(t, &vec![4u8, 5]);
        }
        _ => panic!("operation kind changed"),
    }
    match &ops[3] {
        Operation::TransferInPlace(b) => assert_eq!(b, &vec![6u8, 7]),
        _ => panic!("operation kind changed"),
    }
    assert!(matches!(ops[4], Operation::DelayNs(10)));
}

#[test]
fn hex_of_one_byte() {
    assert_eq!(hex_byte(0xAB), (b'A', b'B'));
    assert_eq!(hex_byte(0x09), (b'0', b'9'));
    assert_eq!(hex_byte(0xF0), (b'F', b'0'));
}

#[test]
fn hex_of_slices() {
    assert_eq!(hex_slice(&vec![0x11, 0x22, 0x33]), b"[11 22 33]".to_vec());
    assert_eq!(hex_slice(&vec![0xAB]), b"[AB]".to_vec());
    assert_eq!(hex_slice(&Vec::new()), b"[]".to_vec());
}

#[test]
fn controller_setup_words() {
    let w = init_writes();
    assert_eq!(
        w,
        vec![
            RegWrite { addr: SPI1_CR1, value: 0x33C },
            RegWrite { addr: SPI1_CR2, value: 0x40 },
            RegWrite { addr: SPI1_CR1, value: 0x37C },
            RegWrite { addr: GPIOA_BSRR, value: 0x10 },
        ]
    );
    assert_eq!(SPI1_CR1, 0x4001_3000);
    assert_eq!(GPIOA_BSRR, 0x4000_8018);
}

#[test]
fn chip_select_words() {
    assert_eq!(cs_low_write(), RegWrite { addr: 0x4000_8018, value: 1 << 20 });
    assert_eq!(cs_high_write(), RegWrite { addr: 0x4000_8018, value: 1 << 4 });
}

#[test]
fn status_flags() {
    assert!(tx_empty(0b10));
    assert!(!tx_empty(0b01));
    assert!(rx_not_empty(0b01));
    assert!(!rx_not_empty(0b1000_0010));
}
