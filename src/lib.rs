//! A framed message channel: length-delimited frames over an ordered byte
//! stream, with a MessagePack codec for the frame payloads.

pub mod channel;
pub mod codec;
pub mod frame;
