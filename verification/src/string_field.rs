//! Strings on the wire: a `VarInt` byte count, then the UTF-8 bytes.
use crate::packet_field::EncodePacketField;
use crate::text::string_from_utf8;
use crate::var_int::{
    lemma_var_int_roundtrip, spec_decode_var_int, spec_var_int_bytes, VarInt, VarIntParseError,
};
use vstd::prelude::*;
use vstd::utf8::{decode_utf8, encode_utf8, valid_utf8};

verus! {

broadcast use {vstd::utf8::encode_utf8_valid_utf8, vstd::utf8::encode_utf8_decode_utf8};

/// The most bytes that a string read from the wire may have.
pub const MAX_STRING_SIZE: usize = 32767;

/// Why a string could not be read.
#[derive(Debug, PartialEq, Eq, Structural)]
pub enum StringDecodingError {
    /// The announced byte count is negative or above `MAX_STRING_SIZE`.
    StringTooLarge,
    /// The bytes are not valid UTF-8.
    InvalidUtf8String,
    /// The byte count could not be read.
    VarIntParseError(VarIntParseError),
    /// The input ended before the announced bytes (the read failed).
    Io,
}

/// The wire bytes of a string with characters `chars`.
pub open spec fn spec_string_bytes(chars: Seq<char>) -> Seq<u8> {
    spec_var_int_bytes((encode_utf8(chars).len() as usize) as i32) + encode_utf8(chars)
}

/// What reading a string from the start of `s` gives: its characters and the
/// number of bytes read, or the error.
pub open spec fn spec_decode_string(s: Seq<u8>) -> Result<(Seq<char>, nat), StringDecodingError> {
    match spec_decode_var_int(s) {
        Err(e) => Err(StringDecodingError::VarIntParseError(e)),
        Ok((length, n)) => {
            if length < 0 || length > MAX_STRING_SIZE {
                Err(StringDecodingError::StringTooLarge)
            } else if length == 0 {
                Ok((Seq::<char>::empty(), n))
            } else if n + length > s.len() {
                Err(StringDecodingError::Io)
            } else {
                let body = s.subrange(n as int, n + length);
                if valid_utf8(body) {
                    Ok((decode_utf8(body), n + length as nat))
                } else {
                    Err(StringDecodingError::InvalidUtf8String)
                }
            }
        },
    }
}

impl EncodePacketField for String {
    type Error = core::convert::Infallible;

    open spec fn spec_encoding(&self) -> Seq<u8> {
        spec_string_bytes(self@)
    }

    fn encode(&self, bytes: &mut Vec<u8>) -> (r: Result<(), Self::Error>) {
        let text = self.as_str();
        let _ = VarInt::new(text.len() as i32).encode(bytes);
        bytes.extend_from_slice(text.as_bytes());
        Ok(())
    }
}

/// Reads a string from the start of `bytes`; gives the string and how many
/// bytes it took.
pub fn decode_string(bytes: &[u8]) -> (r: Result<(String, usize), StringDecodingError>)
    ensures
        match r {
            Ok((s, n)) => spec_decode_string(bytes@) == Ok::<(Seq<char>, nat), StringDecodingError>(
                (s@, n as nat),
            ),
            Err(e) => spec_decode_string(bytes@) == Err::<(Seq<char>, nat), StringDecodingError>(e),
        },
        r matches Ok((_, n)) ==> n <= bytes@.len(),
{
    let (varint, n) = match VarInt::decode(bytes) {
        Ok(p) => p,
        Err(e) => return Err(StringDecodingError::VarIntParseError(e)),
    };
    let value = varint.value();
    let length = value as usize;
    assert(value < 0 ==> value as usize > 32767) by (bit_vector);
    if length > MAX_STRING_SIZE {
        return Err(StringDecodingError::StringTooLarge);
    }
    if length == 0 {
        return Ok((String::new(), n));
    }
    if length > bytes.len() - n {
        return Err(StringDecodingError::Io);
    }
    let body = vstd::slice::slice_to_vec(&bytes[n..n + length]);
    match string_from_utf8(body) {
        Some(s) => Ok((s, n + length)),
        None => Err(StringDecodingError::InvalidUtf8String),
    }
}

/// Reading back a written string gives the same characters and takes exactly
/// the written bytes, when the string has at most `MAX_STRING_SIZE` bytes.
pub proof fn lemma_string_roundtrip(chars: Seq<char>, rest: Seq<u8>)
    requires
        encode_utf8(chars).len() <= MAX_STRING_SIZE,
    ensures
        spec_decode_string(spec_string_bytes(chars) + rest) == Ok::<
            (Seq<char>, nat),
            StringDecodingError,
        >((chars, spec_string_bytes(chars).len())),
{
    let body = encode_utf8(chars);
    let len = (body.len() as usize) as i32;
    let header = spec_var_int_bytes(len);
    let s = spec_string_bytes(chars) + rest;
    lemma_var_int_roundtrip(len, body + rest);
    assert(s == header + (body + rest));
    if body.len() == 0 {
        assert(chars.len() == 0) by {
            if chars.len() > 0 {
                vstd::utf8::encode_utf8_first_scalar(chars);
            }
        }
        assert(chars =~= Seq::<char>::empty());
    } else {
        assert(s.subrange(header.len() as int, (header.len() + body.len()) as int) =~= body);
    }
}

} // verus!
