//! The wire format of an OSC message with one argument, and its encoder.

use vstd::prelude::*;
use vstd::utf8::encode_utf8;
use rosc::OscError;
use rosc::{OscMessage, OscPacket, OscType};
use crate::error::SendError;
use crate::payload::{Payload, PayloadValue};

verus! {

/// `n` zero bytes.
pub open spec fn zeros(n: nat) -> Seq<u8> {
    Seq::new(n, |i: int| 0u8)
}

/// The number of zero bytes that follow a string of `len` bytes: at least
/// one, and as many as bring the whole to a multiple of four.
pub open spec fn padding(len: nat) -> nat {
    (4 - len % 4) as nat
}

/// An OSC string: the content, then its padding.
pub open spec fn osc_string(content: Seq<u8>) -> Seq<u8> {
    content + zeros(padding(content.len()))
}

/// The four bytes of a 32-bit value, most significant first.
pub open spec fn big_endian(v: u32) -> Seq<u8> {
    seq![(v >> 24) as u8, (v >> 16) as u8, (v >> 8) as u8, v as u8]
}

/// The type tag of an argument: `i`, `f`, `T` or `F`, `s`.
pub open spec fn type_tag(p: Payload) -> u8 {
    match p {
        Payload::Int(_) => 0x69,
        Payload::Float(_) => 0x66,
        Payload::Bool(b) => if b {
            0x54
        } else {
            0x46
        },
        Payload::Text(_) => 0x73,
    }
}

/// The bytes of an argument after the type tags. A boolean has none: its tag
/// says it all.
pub open spec fn argument_bytes(p: Payload) -> Seq<u8> {
    match p {
        Payload::Int(v) => big_endian(v as u32),
        Payload::Float(bits) => big_endian(bits),
        Payload::Bool(_) => Seq::empty(),
        Payload::Text(s) => osc_string(encode_utf8(s)),
    }
}

/// The bytes of a message with one argument: the address as an OSC string,
/// the type tag string (a comma and the tag), and the argument.
pub open spec fn message_bytes(address: Seq<char>, p: Payload) -> Seq<u8> {
    osc_string(encode_utf8(address)) + osc_string(seq![0x2cu8, type_tag(p)]) + argument_bytes(p)
}

/// An argument in the forms that the encoder is called with.
pub enum EncoderArg {
    /// A signed 32-bit integer.
    Int(i32),
    /// A truth value.
    Bool(bool),
    /// A text.
    Text(String),
}

impl View for EncoderArg {
    type V = Payload;

    open spec fn view(&self) -> Payload {
        match *self {
            EncoderArg::Int(v) => Payload::Int(v),
            EncoderArg::Bool(b) => Payload::Bool(b),
            EncoderArg::Text(s) => Payload::Text(s@),
        }
    }
}

/// `rosc::encoder::encode` on a message packet with the given address and
/// the one argument. The bytes are the address as an OSC string, the tag
/// string, and the argument's data. The call succeeds: the encoder fails
/// only where its output fails, and it writes to a byte vector, which takes
/// whatever is written.
#[verifier::external_body]
fn rosc_encode(address: &str, arg: EncoderArg) -> (r: Result<Vec<u8>, OscError>)
    ensures
        r is Ok,
        r matches Ok(bytes) ==> bytes@ == message_bytes(address@, arg@),
{
    let value = match arg {
        EncoderArg::Int(v) => OscType::Int(v),
        EncoderArg::Bool(b) => OscType::Bool(b),
        EncoderArg::Text(s) => OscType::String(s),
    };
    rosc::encoder::encode(&OscPacket::Message(OscMessage { addr: address.to_string(), args: vec![value] }))
}

/// The argument in whose place the encoder is handed another: a float goes
/// as the integer of the same 32 bits, every other argument as itself.
pub open spec fn carrier(p: Payload) -> Payload {
    match p {
        Payload::Float(bits) => Payload::Int(bits as i32),
        _ => p,
    }
}

/// The argument that the encoder is called with for a payload.
fn encoder_arg(value: &PayloadValue) -> (arg: EncoderArg)
    ensures
        arg@ == carrier(value@),
{
    match value {
        PayloadValue::Int(v) => EncoderArg::Int(*v),
        PayloadValue::Float(bits) => EncoderArg::Int(#[verifier::truncate] (*bits as i32)),
        PayloadValue::Bool(b) => EncoderArg::Bool(*b),
        PayloadValue::Text(s) => EncoderArg::Text(s.clone()),
    }
}

/// A float and the integer of the same bits differ on the wire in their type
/// tag alone, which stands one byte after the padded address and seven bytes
/// before the end.
pub proof fn lemma_float_differs_by_tag(address: Seq<char>, bits: u32)
    ensures
        message_bytes(address, Payload::Float(bits)) == message_bytes(
            address,
            carrier(Payload::Float(bits)),
        ).update(osc_string(encode_utf8(address)).len() as int + 1, 0x66u8),
        message_bytes(address, Payload::Float(bits)).len() == osc_string(
            encode_utf8(address),
        ).len() + 8,
{
    assert((bits as i32) as u32 == bits) by (bit_vector);
    let head = osc_string(encode_utf8(address));
    let as_float = message_bytes(address, Payload::Float(bits));
    let as_int = message_bytes(address, Payload::Int(bits as i32));
    assert(as_float =~= as_int.update(head.len() as int + 1, 0x66u8));
}

/// Encodes a message with the given address and the one argument. Every
/// message can be encoded.
///
/// The encoder sees a float as the integer of the same bits; the type tag is
/// then set to that of a float.
pub fn encode_message(address: &str, value: &PayloadValue) -> (r: Result<Vec<u8>, SendError>)
    ensures
        r is Ok,
        r matches Ok(bytes) ==> bytes@ == message_bytes(address@, value@),
{
    let answer = rosc_encode(address, encoder_arg(value));
    match encoded_or_error(answer) {
        Err(e) => Err(e),
        Ok(mut bytes) => {
            if let PayloadValue::Float(bits) = value {
                proof {
                    lemma_float_differs_by_tag(address@, *bits);
                }
                let tag_at: usize = bytes.len() - 7;
                bytes.set(tag_at, 0x66u8);
            }
            Ok(bytes)
        },
    }
}

/// What becomes of the encoder's answer: its bytes, or the encoding error.
pub fn encoded_or_error(answer: Result<Vec<u8>, OscError>) -> (r: Result<Vec<u8>, SendError>)
    ensures
        answer matches Ok(bytes) ==> r == Ok::<Vec<u8>, SendError>(bytes),
        answer is Err ==> r == Err::<Vec<u8>, SendError>(SendError::Encoding),
{
    match answer {
        Ok(bytes) => Ok(bytes),
        Err(_) => Err(SendError::Encoding),
    }
}

} // verus!
