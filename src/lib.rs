//! A small SPI driver stack: a transaction engine that brackets byte
//! exchanges with chip-select, and a command framing layer on top of it.

pub mod bus;
pub mod diag;
pub mod driver;
pub mod model;
pub mod stm32;
pub mod stub;
