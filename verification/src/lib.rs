//! Building one Open Sound Control message and planning how often it is sent.
//!
//! The library checks the destination address, picks the single argument of
//! the message, encodes the message to its wire bytes, and drives the
//! sequence of bind, send and pause steps that a sender performs on the
//! loopback interface.

pub mod error;
pub mod address;
pub mod payload;
pub mod wire;
pub mod decode;
pub mod sender;
pub mod plan;
