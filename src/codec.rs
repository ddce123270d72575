//! The MessagePack codec of frame payloads. A payload is the MessagePack
//! encoding of one application value. Decoding takes exactly the bytes of the
//! value at the front of a buffer; encoding appends a value's bytes.

use crate::frame::append_bytes;
use serde::Deserialize;
use vstd::prelude::*;

verus! {

/// rmp_serde reads a MessagePack value from the front of `b`. It accepts
/// strings that are not valid UTF-8 and refuses nesting deeper than 1024.
pub uninterp spec fn msgpack_value(b: Seq<u8>) -> bool;

/// The number of bytes rmp_serde reads for the value at the front of `b`.
pub uninterp spec fn msgpack_value_len(b: Seq<u8>) -> nat;

/// Reading a value from the front of `b` failed because the bytes ran out.
pub uninterp spec fn msgpack_incomplete(b: Seq<u8>) -> bool;

/// `b` holds exactly one MessagePack value and nothing after it.
pub open spec fn single_msgpack_value(b: Seq<u8>) -> bool {
    b.len() > 0 && msgpack_value(b) && msgpack_value_len(b) == b.len()
}

/// What reading the value at the front of a buffer gave.
#[derive(Debug, Clone, Copy, PartialEq, Eq, Structural)]
pub enum ValueRead {
    /// A value was read; it took this many bytes.
    Value(usize),
    /// The bytes ran out before the value was complete.
    Incomplete,
    /// The bytes do not form a value.
    Malformed,
}

/// Relies on rmp_serde's `Deserializer` over a `Cursor`, read into serde's
/// `IgnoredAny`, and on `Deserializer::position` for the bytes consumed.
/// A read that fails on an I/O error of kind `UnexpectedEof` (marker or data)
/// ran out of bytes; an empty input fails at the first marker that way.
#[verifier::external_body]
fn read_msgpack_value(b: &[u8]) -> (r: ValueRead)
    ensures
        r is Value <==> msgpack_value(b@),
        r is Value ==> r->Value_0 == msgpack_value_len(b@) && 0 < r->Value_0 <= b@.len(),
        r is Incomplete <==> msgpack_incomplete(b@),
        b@.len() == 0 ==> r is Incomplete,
{
    let mut de = rmp_serde::Deserializer::new(std::io::Cursor::new(b));
    match serde::de::IgnoredAny::deserialize(&mut de) {
        Ok(_) => ValueRead::Value(de.position() as usize),
        Err(rmp_serde::decode::Error::InvalidMarkerRead(e)) if e.kind()
            == std::io::ErrorKind::UnexpectedEof => ValueRead::Incomplete,
        Err(rmp_serde::decode::Error::InvalidDataRead(e)) if e.kind()
            == std::io::ErrorKind::UnexpectedEof => ValueRead::Incomplete,
        Err(_) => ValueRead::Malformed,
    }
}

/// Errors of the codec.
#[derive(Debug, Clone, Copy, PartialEq, Eq, Structural)]
pub enum CodecError {
    /// The bytes are not a MessagePack value.
    Decode,
    /// The item handed in for sending is not exactly one MessagePack value.
    Encode,
}

/// Acts on what reading the front of `src` gave: a value of `n` bytes is
/// taken off the front and returned; an incomplete one is "not yet a full
/// item" (`Ok(None)`); malformed bytes are `CodecError::Decode`. Only a value
/// changes `src`.
pub fn take_value(src: &mut Vec<u8>, read: ValueRead) -> (r: Result<Option<Vec<u8>>, CodecError>)
    requires
        read matches ValueRead::Value(n) ==> n <= old(src)@.len(),
    ensures
        read matches ValueRead::Value(n) ==> r is Ok && r->Ok_0 is Some && r->Ok_0->Some_0@
            == old(src)@.subrange(0, n as int) && final(src)@ == old(src)@.subrange(
            n as int,
            old(src)@.len() as int,
        ),
        read is Incomplete ==> r == Ok::<Option<Vec<u8>>, CodecError>(None) && final(src)@ == old(
            src,
        )@,
        read is Malformed ==> r == Err::<Option<Vec<u8>>, CodecError>(CodecError::Decode)
            && final(src)@ == old(src)@,
{
    match read {
        ValueRead::Value(n) => {
            let mut item: Vec<u8> = Vec::new();
            let mut rest: Vec<u8> = Vec::new();
            let mut i: usize = 0;
            while i < src.len()
                invariant
                    n <= src@.len(),
                    i <= src@.len(),
                    i <= n ==> item@ == src@.subrange(0, i as int) && rest@.len() == 0,
                    i > n ==> item@ == src@.subrange(0, n as int) && rest@ == src@.subrange(
                        n as int,
                        i as int,
                    ),
                decreases src@.len() - i,
            {
                if i < n {
                    item.push(src[i]);
                } else {
                    rest.push(src[i]);
                }
                i = i + 1;
                assert(i <= n ==> item@ =~= src@.subrange(0, i as int));
                assert(i > n ==> rest@ =~= src@.subrange(n as int, i as int));
            }
            if src.len() == n {
                assert(rest@ =~= src@.subrange(n as int, n as int));
            }
            *src = rest;
            Ok(Some(item))
        },
        ValueRead::Incomplete => Ok(None),
        ValueRead::Malformed => Err(CodecError::Decode),
    }
}

/// A codec of frame payloads, injected into a channel.
pub trait Codec: Sized {
    /// The length of the whole item at the front of `b`, if one is there.
    spec fn front_item(&self, b: Seq<u8>) -> Option<nat>;

    /// The bytes `b` start an item but run out before it is complete.
    spec fn incomplete(&self, b: Seq<u8>) -> bool;

    /// `item` is accepted for sending.
    spec fn accepts(&self, item: Seq<u8>) -> bool;

    /// An accepted item reads back whole: decoding what was encoded gives it.
    proof fn lemma_accepted_reads_back(&self, item: Seq<u8>)
        requires
            self.accepts(item),
        ensures
            item.len() > 0,
            self.front_item(item) == Some(item.len()),
            !self.incomplete(item),
    ;

    /// Takes the item at the front of `src` off it. When the bytes run out
    /// first (an empty buffer included) the result is `Ok(None)`; bytes that
    /// are no item give `CodecError::Decode`. Either way `src` is untouched.
    fn decode(&mut self, src: &mut Vec<u8>) -> (r: Result<Option<Vec<u8>>, CodecError>)
        ensures
            *final(self) == *old(self),
            old(src)@.len() == 0 ==> r == Ok::<Option<Vec<u8>>, CodecError>(None)
                && final(src)@ == old(src)@,
            old(self).front_item(old(src)@) is Some ==> ({
                let n = old(self).front_item(old(src)@)->Some_0;
                &&& 0 < n <= old(src)@.len()
                &&& r is Ok && r->Ok_0 is Some
                &&& r->Ok_0->Some_0@ == old(src)@.subrange(0, n as int)
                &&& final(src)@ == old(src)@.subrange(n as int, old(src)@.len() as int)
            }),
            old(self).incomplete(old(src)@) ==> r == Ok::<Option<Vec<u8>>, CodecError>(None)
                && final(src)@ == old(src)@,
            old(self).front_item(old(src)@) is None && !old(self).incomplete(old(src)@) ==> r
                == Err::<Option<Vec<u8>>, CodecError>(CodecError::Decode) && final(src)@ == old(
                src,
            )@,
    ;

    /// Appends `item` to `dst` when it is accepted; otherwise
    /// `CodecError::Encode` is returned and `dst` stays as it was.
    fn encode(&mut self, item: &[u8], dst: &mut Vec<u8>) -> (r: Result<(), CodecError>)
        ensures
            *final(self) == *old(self),
            old(self).accepts(item@) ==> r == Ok::<(), CodecError>(()) && final(dst)@ == old(
                dst,
            )@ + item@,
            !old(self).accepts(item@) ==> r == Err::<(), CodecError>(CodecError::Encode)
                && final(dst)@ == old(dst)@,
    ;
}

/// The MessagePack codec. It holds no state: one per channel.
#[derive(Debug, Clone, Copy, PartialEq, Eq, Structural)]
pub struct MessagePack {}

impl Default for MessagePack {
    fn default() -> (r: Self)
        ensures
            r == (MessagePack {}),
    {
        MessagePack {}
    }
}

impl MessagePack {
    /// A new codec.
    pub fn new() -> (r: Self)
        ensures
            r == (MessagePack {}),
    {
        MessagePack {}
    }

    /// Decodes the value at the front of `src`: its bytes are taken off the
    /// front and the rest stays. When the bytes run out first (an empty buffer
    /// included) the result is "not yet a full item" (`Ok(None)`); bytes that
    /// are no value give `CodecError::Decode`. Either way `src` is untouched.
    pub fn decode(&mut self, src: &mut Vec<u8>) -> (r: Result<Option<Vec<u8>>, CodecError>)
        ensures
            *final(self) == *old(self),
            old(src)@.len() == 0 ==> r == Ok::<Option<Vec<u8>>, CodecError>(None)
                && final(src)@ == old(src)@,
            msgpack_value(old(src)@) ==> ({
                let n = msgpack_value_len(old(src)@);
                &&& 0 < n <= old(src)@.len()
                &&& r is Ok && r->Ok_0 is Some
                &&& r->Ok_0->Some_0@ == old(src)@.subrange(0, n as int)
                &&& final(src)@ == old(src)@.subrange(n as int, old(src)@.len() as int)
            }),
            msgpack_incomplete(old(src)@) ==> r == Ok::<Option<Vec<u8>>, CodecError>(None)
                && final(src)@ == old(src)@,
            !msgpack_value(old(src)@) && !msgpack_incomplete(old(src)@) ==> r == Err::<
                Option<Vec<u8>>,
                CodecError,
            >(CodecError::Decode) && final(src)@ == old(src)@,
    {
        let read = read_msgpack_value(src.as_slice());
        take_value(src, read)
    }

    /// Appends `item` to `dst` when it is exactly one MessagePack value;
    /// otherwise `CodecError::Encode` is returned and `dst` stays as it was.
    pub fn encode(&mut self, item: &[u8], dst: &mut Vec<u8>) -> (r: Result<(), CodecError>)
        ensures
            *final(self) == *old(self),
            single_msgpack_value(item@) ==> r == Ok::<(), CodecError>(()) && final(dst)@ == old(
                dst,
            )@ + item@,
            !single_msgpack_value(item@) ==> r == Err::<(), CodecError>(CodecError::Encode)
                && final(dst)@ == old(dst)@,
            r is Ok ==> item@.len() > 0,
    {
        match read_msgpack_value(item) {
            ValueRead::Value(n) => {
                if n != item.len() {
                    return Err(CodecError::Encode);
                }
            },
            _ => {
                return Err(CodecError::Encode);
            },
        }
        append_bytes(dst, item);
        Ok(())
    }
}

impl Codec for MessagePack {
    open spec fn front_item(&self, b: Seq<u8>) -> Option<nat> {
        if msgpack_value(b) {
            Some(msgpack_value_len(b))
        } else {
            None
        }
    }

    open spec fn incomplete(&self, b: Seq<u8>) -> bool {
        msgpack_incomplete(b) && !msgpack_value(b)
    }

    open spec fn accepts(&self, item: Seq<u8>) -> bool {
        single_msgpack_value(item)
    }

    proof fn lemma_accepted_reads_back(&self, item: Seq<u8>) {
    }

    fn decode(&mut self, src: &mut Vec<u8>) -> (r: Result<Option<Vec<u8>>, CodecError>) {
        MessagePack::decode(self, src)
    }

    fn encode(&mut self, item: &[u8], dst: &mut Vec<u8>) -> (r: Result<(), CodecError>) {
        MessagePack::encode(self, item, dst)
    }
}

} // verus!
