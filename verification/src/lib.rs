//! Adapter between Candle-compatible USB-CAN interfaces and the zencan message types.
//!
//! The library holds every decision of the adapter and performs no I/O. An operation on a
//! device is a small state machine ([`usb::Operation`]): it names the next call to make as a
//! [`usb::Request`] and is advanced with the [`usb::Reply`] that came back.

pub mod can;
pub mod control;
pub mod device;
pub mod endpoint;
pub mod error;
pub mod frame;
pub mod lifecycle;
pub mod open;
pub mod scan;
pub mod session;
pub mod transfer;
pub mod usb;
pub mod wire;
pub mod worker;
