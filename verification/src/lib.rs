//! Verified device-protocol drivers for a water-tank monitoring appliance.
//!
//! Two independent bit-level drivers make up the crate:
//! - a Modbus-RTU register client for a radar liquid-level sensor, with
//!   CRC-protected framing and a taxonomy of transport and protocol errors
//!   ([`sen0676`], [`modbus`], [`crc`]);
//! - a dirty-line framebuffer engine for a Sharp memory LCD, with a packed
//!   1-bit framebuffer, per-line change tracking and a strictly alternating
//!   polarity signal ([`ls027b7dh01`]).
//!
//! Both drivers are generic over a capability trait ([`transport::Transport`]
//! for the byte-stream serial link, [`bus::DisplayBus`] for the synchronous
//! display bus), so the protocol logic is verified once and can be exercised
//! against the in-memory implementations provided here.

pub mod bus;
pub mod crc;
pub mod ls027b7dh01;
pub mod modbus;
pub mod sen0676;
pub mod transport;
pub mod web;
