//! The closed set of message variants that travel on the wire.
//!
//! There is no discriminant byte and no framing: a receiver tells the
//! variants apart only by which decode succeeds.

use vstd::prelude::*;

verus! {

/// A request to echo text back unchanged; `content` holds the text bytes of
/// its single field.
#[derive(Clone, Debug)]
pub struct EchoMessage {
    pub content: Vec<u8>,
}

/// A request to add two 32-bit integers.
#[derive(Clone, Copy, Debug)]
pub struct AddRequest {
    pub a: i32,
    pub b: i32,
}

/// The answer to an `AddRequest`.
#[derive(Clone, Copy, Debug)]
pub struct AddResponse {
    pub result: i32,
}

/// Everything a client may send.
#[derive(Clone, Debug)]
pub enum ClientMessage {
    Echo(EchoMessage),
    Add(AddRequest),
}

/// Everything the server may answer.
#[derive(Clone, Debug)]
pub enum ServerMessage {
    Echo(EchoMessage),
    Add(AddResponse),
}

} // verus!
