//! Verified core of a driver for Sensirion SHDLC devices: frame encoding and
//! decoding, command encoding and response interpretation, Intel-Hex firmware
//! image handling and the decisions of the connection and firmware update logic.

pub mod connection;
pub mod device;
pub mod firmware;
pub mod protocol;
pub mod transport;
