//! Register-level protocol of the STM32F4 SPI1 controller and the GPIOA
//! chip-select pin: which words go to which registers, and how the status
//! word is read. The memory-mapped accesses themselves are made by the
//! caller.

use vstd::prelude::*;

verus! {

pub const SPI1_BASE: u32 = 0x4001_3000;
pub const SPI1_CR1: u32 = SPI1_BASE + 0x00;
pub const SPI1_CR2: u32 = SPI1_BASE + 0x04;
pub const SPI1_SR: u32 = SPI1_BASE + 0x08;
pub const SPI1_DR: u32 = SPI1_BASE + 0x0C;

pub const GPIOA_BASE: u32 = 0x4000_8000;
pub const GPIOA_BSRR: u32 = GPIOA_BASE + 0x18;

/// Chip-select is pin 4 of GPIOA.
pub const CS_PIN: u32 = 4;

/// Master mode.
pub const CR1_MSTR: u32 = 1 << 2;
/// Peripheral enable.
pub const CR1_SPE: u32 = 1 << 6;
/// Internal slave select, needed in master mode with software management.
pub const CR1_SSI: u32 = 1 << 8;
/// Software slave management.
pub const CR1_SSM: u32 = 1 << 9;
/// Baud-rate divisor 256, the slowest.
pub const CR1_BR_SLOWEST: u32 = 0b111 << 3;
/// The control word before the peripheral is enabled.
pub const CR1_CONFIG: u32 = CR1_MSTR | CR1_SSM | CR1_SSI | CR1_BR_SLOWEST;

/// Receive threshold of one byte, for byte-wide reads of the data register.
pub const CR2_FRXTH: u32 = 1 << 6;

/// Status: receive buffer not empty.
pub const SR_RXNE: u32 = 1 << 0;
/// Status: transmit buffer empty.
pub const SR_TXE: u32 = 1 << 1;
/// Status: busy.
pub const SR_BSY: u32 = 1 << 7;

/// A word to store in a memory-mapped register.
#[derive(Debug, Clone, Copy, PartialEq, Eq, Structural)]
pub struct RegWrite {
    pub addr: u32,
    pub value: u32,
}

/// The BSRR word that drives chip-select low (the reset half of the register).
pub open spec fn cs_low_word() -> u32 {
    1u32 << (16 + CS_PIN)
}

/// The BSRR word that drives chip-select high (the set half of the register).
pub open spec fn cs_high_word() -> u32 {
    1u32 << CS_PIN
}

/// Drives chip-select low.
pub fn cs_low_write() -> (r: RegWrite)
    ensures
        r == (RegWrite { addr: GPIOA_BSRR, value: cs_low_word() }),
{
    RegWrite { addr: GPIOA_BSRR, value: 1u32 << (16 + CS_PIN) }
}

/// Drives chip-select high.
pub fn cs_high_write() -> (r: RegWrite)
    ensures
        r == (RegWrite { addr: GPIOA_BSRR, value: cs_high_word() }),
{
    RegWrite { addr: GPIOA_BSRR, value: 1u32 << CS_PIN }
}

/// The register writes that set up the controller, in order: configure
/// with the peripheral disabled (master, software slave select, slowest
/// clock), set byte-wide receive, enable, and release chip-select.
pub fn init_writes() -> (r: Vec<RegWrite>)
    ensures
        r@ == seq![
            RegWrite { addr: SPI1_CR1, value: CR1_CONFIG },
            RegWrite { addr: SPI1_CR2, value: CR2_FRXTH },
            RegWrite { addr: SPI1_CR1, value: CR1_CONFIG | CR1_SPE },
            RegWrite { addr: GPIOA_BSRR, value: cs_high_word() },
        ],
{
    let cr1 = CR1_MSTR | CR1_SSM | CR1_SSI | CR1_BR_SLOWEST;
    let r = vec![
        RegWrite { addr: SPI1_CR1, value: cr1 },
        RegWrite { addr: SPI1_CR2, value: CR2_FRXTH },
        RegWrite { addr: SPI1_CR1, value: cr1 | CR1_SPE },
        cs_high_write(),
    ];
    assert(r@ =~= seq![
        RegWrite { addr: SPI1_CR1, value: CR1_CONFIG },
        RegWrite { addr: SPI1_CR2, value: CR2_FRXTH },
        RegWrite { addr: SPI1_CR1, value: CR1_CONFIG | CR1_SPE },
        RegWrite { addr: GPIOA_BSRR, value: cs_high_word() },
    ]);
    r
}

/// Whether the status word says a byte may be written to the data register.
pub fn tx_empty(sr: u32) -> (r: bool)
    ensures
        r == (sr & SR_TXE != 0),
{
    sr & SR_TXE != 0
}

/// Whether the status word says a received byte is waiting.
pub fn rx_not_empty(sr: u32) -> (r: bool)
    ensures
        r == (sr & SR_RXNE != 0),
{
    sr & SR_RXNE != 0
}

} // verus!
