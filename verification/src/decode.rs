//! Reading a message back from its bytes, as a mathematical function, and
//! the law that it undoes the encoding.

use vstd::prelude::*;
use vstd::utf8::{decode_utf8, encode_scalar, encode_utf8, valid_utf8};
use vstd::utf8::{char_u32_cast, encode_utf8_decode_utf8, encode_utf8_valid_utf8};
use crate::address::valid_address;
use crate::payload::{selected_payload, Config, Payload, DEFAULT_TEXT};
use crate::wire::{argument_bytes, big_endian, message_bytes, osc_string, padding, type_tag, zeros};

verus! {

/// The place of the first zero byte at or after `from`; the length where
/// there is none.
pub open spec fn first_zero(bytes: Seq<u8>, from: int) -> int
    decreases bytes.len() - from,
{
    if from < 0 || from >= bytes.len() {
        bytes.len() as int
    } else if bytes[from] == 0 {
        from
    } else {
        first_zero(bytes, from + 1)
    }
}

/// Reads the OSC string that the bytes begin with: its content, which ends
/// before the first zero byte, and the bytes that follow its padding.
pub open spec fn read_string(bytes: Seq<u8>) -> Option<(Seq<u8>, Seq<u8>)> {
    let n = first_zero(bytes, 0);
    let end = n + padding(n as nat);
    if end <= bytes.len() {
        Some((bytes.subrange(0, n), bytes.subrange(end, bytes.len() as int)))
    } else {
        None
    }
}

/// The 32-bit value of four bytes, most significant first.
pub open spec fn from_big_endian(b: Seq<u8>) -> u32 {
    (b[0] as u32) << 24 | (b[1] as u32) << 16 | (b[2] as u32) << 8 | (b[3] as u32)
}

/// Reads the one argument that a type tag announces from the bytes after
/// the tag string, which it must use up.
pub open spec fn read_argument(tag: u8, data: Seq<u8>) -> Option<Payload> {
    if tag == 0x69 && data.len() == 4 {
        Some(Payload::Int(from_big_endian(data) as i32))
    } else if tag == 0x66 && data.len() == 4 {
        Some(Payload::Float(from_big_endian(data)))
    } else if tag == 0x54 && data.len() == 0 {
        Some(Payload::Bool(true))
    } else if tag == 0x46 && data.len() == 0 {
        Some(Payload::Bool(false))
    } else if tag == 0x73 {
        match read_string(data) {
            Some((content, rest)) => if rest.len() == 0 && valid_utf8(content) {
                Some(Payload::Text(decode_utf8(content)))
            } else {
                None
            },
            None => None,
        }
    } else {
        None
    }
}

/// Reads a message with one argument: its address and the argument.
pub open spec fn decode_message(bytes: Seq<u8>) -> Option<(Seq<char>, Payload)> {
    match read_string(bytes) {
        Some((address, rest)) => match read_string(rest) {
            Some((tags, data)) => if valid_utf8(address) && tags.len() == 2 && tags[0] == 0x2c {
                match read_argument(tags[1], data) {
                    Some(p) => Some((decode_utf8(address), p)),
                    None => None,
                }
            } else {
                None
            },
            None => None,
        },
        None => None,
    }
}

/// A text without the character of code zero, which would end it on the wire.
pub open spec fn no_nul(s: Seq<char>) -> bool {
    forall|i: int| 0 <= i < s.len() ==> #[trigger] s[i] != '\0'
}

/// A sequence of bytes without a zero byte.
pub open spec fn no_zero(bytes: Seq<u8>) -> bool {
    forall|i: int| 0 <= i < bytes.len() ==> #[trigger] bytes[i] != 0
}

proof fn lemma_scalar_no_zero(c: u32)
    requires
        c != 0,
    ensures
        no_zero(encode_scalar(c)),
{
    assert(c != 0 && c <= 0x7F ==> (c & 0x7F) as u8 != 0) by (bit_vector);
    assert(0xC0u8 | ((c >> 6) & 0x1F) as u8 != 0) by (bit_vector);
    assert(0xE0u8 | ((c >> 12) & 0x0F) as u8 != 0) by (bit_vector);
    assert(0xF0u8 | ((c >> 18) & 0x7) as u8 != 0) by (bit_vector);
    assert(0x80u8 | (c & 0x3F) as u8 != 0) by (bit_vector);
    assert(0x80u8 | ((c >> 6) & 0x3F) as u8 != 0) by (bit_vector);
    assert(0x80u8 | ((c >> 12) & 0x3F) as u8 != 0) by (bit_vector);
}

/// The UTF-8 bytes of a text without the character of code zero hold no
/// zero byte.
pub proof fn lemma_utf8_no_zero(s: Seq<char>)
    requires
        no_nul(s),
    ensures
        no_zero(encode_utf8(s)),
    decreases s.len(),
{
    if s.len() > 0 {
        let c = s[0] as u32;
        assert(s[0] != '\0');
        assert(c != 0) by {
            char_u32_cast(s[0], c);
            char_u32_cast('\0', 0u32);
        }
        lemma_scalar_no_zero(c);
        let rest = s.drop_first();
        assert forall|i: int| 0 <= i < rest.len() implies #[trigger] rest[i] != '\0' by {
            assert(rest[i] == s[i + 1]);
        }
        lemma_utf8_no_zero(rest);
        let head = encode_scalar(c);
        let tail = encode_utf8(rest);
        assert forall|i: int| 0 <= i < (head + tail).len() implies #[trigger] (head + tail)[i]
            != 0 by {
            if i < head.len() {
                assert((head + tail)[i] == head[i]);
            } else {
                assert((head + tail)[i] == tail[i - head.len()]);
            }
        }
    }
}

proof fn lemma_first_zero(content: Seq<u8>, rest: Seq<u8>, from: int)
    requires
        no_zero(content),
        0 <= from <= content.len(),
        rest.len() > 0,
        rest[0] == 0,
    ensures
        first_zero(content + rest, from) == content.len(),
    decreases content.len() - from,
{
    let all = content + rest;
    if from < content.len() {
        assert(all[from] == content[from]);
        lemma_first_zero(content, rest, from + 1);
    } else {
        assert(all[from] == rest[0]);
    }
}

/// An OSC string without a zero byte in its content is read back whole, and
/// what followed it is what is left.
pub proof fn lemma_read_string(content: Seq<u8>, rest: Seq<u8>)
    requires
        no_zero(content),
    ensures
        read_string(osc_string(content) + rest) == Some((content, rest)),
{
    let pad = zeros(padding(content.len()));
    let all = osc_string(content) + rest;
    assert(all =~= content + (pad + rest));
    assert((pad + rest)[0] == pad[0]);
    lemma_first_zero(content, pad + rest, 0);
    let n = content.len() as int;
    let end = n + padding(n as nat);
    assert(all.subrange(0, n) =~= content);
    assert(all.subrange(end, all.len() as int) =~= rest);
}

/// Four bytes written most significant first are read back as the value.
pub proof fn lemma_big_endian(v: u32)
    ensures
        big_endian(v).len() == 4,
        from_big_endian(big_endian(v)) == v,
{
    assert(((v >> 24) as u8 as u32) << 24 | ((v >> 16) as u8 as u32) << 16 | ((v >> 8) as u8
        as u32) << 8 | (v as u8 as u32) == v) by (bit_vector);
}

/// A well-formed address holds no character of code zero.
pub proof fn lemma_address_no_nul(s: Seq<char>)
    requires
        valid_address(s),
    ensures
        no_nul(s),
{
}

/// Decoding undoes encoding: a message read back from its bytes has the
/// address and the argument that it was made of, bit for bit. Left out are
/// the texts that hold the character of code zero, which ends a string on
/// the wire.
pub proof fn lemma_round_trip(address: Seq<char>, p: Payload)
    requires
        no_nul(address),
        p matches Payload::Text(s) ==> no_nul(s),
    ensures
        decode_message(message_bytes(address, p)) == Some((address, p)),
{
    let head = encode_utf8(address);
    let tags = seq![0x2cu8, type_tag(p)];
    let data = argument_bytes(p);
    let bytes = message_bytes(address, p);
    lemma_utf8_no_zero(address);
    assert(bytes =~= osc_string(head) + (osc_string(tags) + data));
    lemma_read_string(head, osc_string(tags) + data);
    assert(no_zero(tags));
    lemma_read_string(tags, data);
    encode_utf8_valid_utf8(address);
    encode_utf8_decode_utf8(address);
    match p {
        Payload::Int(v) => {
            lemma_big_endian(v as u32);
            assert((v as u32) as i32 == v) by (bit_vector);
        },
        Payload::Float(bits) => {
            lemma_big_endian(bits);
        },
        Payload::Bool(_) => {},
        Payload::Text(s) => {
            lemma_utf8_no_zero(s);
            let content = encode_utf8(s);
            assert(data =~= osc_string(content) + Seq::<u8>::empty());
            lemma_read_string(content, Seq::<u8>::empty());
            encode_utf8_valid_utf8(s);
            encode_utf8_decode_utf8(s);
        },
    }
}

/// The message of a configuration with a well-formed address carries that
/// address and the selected payload, and nothing else. Left out are the
/// text payloads that hold the character of code zero.
pub proof fn lemma_message_carries_selected_payload(config: &Config)
    requires
        valid_address(config.address@),
        selected_payload(config) matches Payload::Text(s) ==> no_nul(s),
    ensures
        decode_message(message_bytes(config.address@, selected_payload(config))) == Some(
            (config.address@, selected_payload(config)),
        ),
{
    lemma_address_no_nul(config.address@);
    lemma_round_trip(config.address@, selected_payload(config));
}

/// With no payload asked for, the one argument of the message is the
/// default text.
pub proof fn lemma_default_message(config: &Config)
    requires
        valid_address(config.address@),
        config.int_value is None,
        config.float_bits is None,
        config.bool_value is None,
        config.text is None,
    ensures
        decode_message(message_bytes(config.address@, selected_payload(config))) == Some(
            (config.address@, Payload::Text(DEFAULT_TEXT@)),
        ),
{
    reveal_strlit("Hello world!");
    lemma_message_carries_selected_payload(config);
}

} // verus!
