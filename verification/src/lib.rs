//! Core of a cross-chain name-token transfer protocol.
//!
//! A name token registered on its home chain can be sent to a remote chain,
//! where it is represented by a voucher, and later returned, burning the
//! voucher and releasing the original. This crate holds the verified core:
//! channel handshake validation, the wire codec, voucher id derivation,
//! packet receive handling, and acknowledgement / timeout reconciliation.
//! The core performs no I/O: every entry point is a pure function from a
//! state snapshot and an input to instructions for the host to execute.

pub mod channel;
pub mod codec;
pub mod error;
pub mod msg;
pub mod packet;
pub mod state;
