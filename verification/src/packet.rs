//! Decoded Open Sound Control packets, as far as the router reads them.

use crate::level::Level;
use vstd::prelude::*;

verus! {

/// One argument of a message.
#[derive(Clone, Debug, PartialEq)]
pub enum OscType {
    Int(i32),
    /// A single-precision number, by its IEEE-754 bit pattern.
    Float(Level),
    String(String),
    Blob(Vec<u8>),
    Long(i64),
    /// A double-precision number, by its IEEE-754 bit pattern.
    Double(u64),
    Char(char),
    Bool(bool),
    Nil,
    Inf,
    /// A time tag, a colour, a MIDI message or an array.
    Other,
}

/// An address and its arguments.
#[derive(Clone, Debug, PartialEq)]
pub struct OscMessage {
    pub addr: String,
    pub args: Vec<OscType>,
}

/// Packets that travel together, in order.
#[derive(Debug, PartialEq)]
pub struct OscBundle {
    pub content: Vec<OscPacket>,
}

/// A message, or a bundle of packets.
#[derive(Debug, PartialEq)]
pub enum OscPacket {
    Message(OscMessage),
    Bundle(OscBundle),
}

} // verus!
