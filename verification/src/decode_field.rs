//! Reading a value of the protocol from the start of a byte slice.
use crate::identifier::{spec_decode_identifier, Identifier};
use crate::nbt::reader::{be_value, read_be};
use crate::string_field::{decode_string, spec_decode_string, StringDecodingError};
use crate::var_int::{spec_decode_var_int, VarInt, VarIntParseError};
use vstd::prelude::*;

verus! {

/// A value of the protocol that is read from bytes.
pub trait DecodePacketField: Sized + View {
    /// Why a value could not be read.
    type Error;

    /// What reading a value from the start of `bytes` gives: the value's
    /// view and the number of bytes taken, or `None` when reading fails.
    spec fn spec_decode(bytes: Seq<u8>) -> Option<(Self::V, nat)>;

    /// The error that reading from the start of `bytes` fails with, where
    /// it fails.
    spec fn spec_decode_error(bytes: Seq<u8>) -> Self::Error;

    /// Reads a value from the start of `bytes`; gives it and how many bytes
    /// it took.
    fn decode(bytes: &[u8]) -> (r: Result<(Self, usize), Self::Error>)
        ensures
            match r {
                Ok((v, n)) => Self::spec_decode(bytes@) == Some((v@, n as nat)) && n
                    <= bytes@.len(),
                Err(e) => Self::spec_decode(bytes@) is None && e == Self::spec_decode_error(
                    bytes@,
                ),
            },
    ;
}

/// Why a number could not be read: the input ended first.
#[derive(Debug, PartialEq, Eq, Structural)]
pub enum DeserializeNumberError {
    Io,
}

impl View for VarInt {
    type V = i32;

    open spec fn view(&self) -> i32 {
        self.spec_value()
    }
}

impl DecodePacketField for VarInt {
    type Error = VarIntParseError;

    open spec fn spec_decode(bytes: Seq<u8>) -> Option<(i32, nat)> {
        match spec_decode_var_int(bytes) {
            Ok((v, n)) => Some((v, n)),
            Err(_) => None,
        }
    }

    open spec fn spec_decode_error(bytes: Seq<u8>) -> VarIntParseError {
        match spec_decode_var_int(bytes) {
            Err(e) => e,
            Ok(_) => VarIntParseError::Io,
        }
    }

    fn decode(bytes: &[u8]) -> (r: Result<(Self, usize), Self::Error>) {
        VarInt::decode(bytes)
    }
}

impl DecodePacketField for String {
    type Error = StringDecodingError;

    open spec fn spec_decode(bytes: Seq<u8>) -> Option<(Seq<char>, nat)> {
        match spec_decode_string(bytes) {
            Ok((cs, n)) => Some((cs, n)),
            Err(_) => None,
        }
    }

    open spec fn spec_decode_error(bytes: Seq<u8>) -> StringDecodingError {
        match spec_decode_string(bytes) {
            Err(e) => e,
            Ok(_) => StringDecodingError::Io,
        }
    }

    fn decode(bytes: &[u8]) -> (r: Result<(Self, usize), Self::Error>) {
        decode_string(bytes)
    }
}

impl View for Identifier {
    type V = (Seq<char>, Seq<char>);

    open spec fn view(&self) -> (Seq<char>, Seq<char>) {
        (self.namespace@, self.thing@)
    }
}

impl DecodePacketField for Identifier {
    type Error = StringDecodingError;

    open spec fn spec_decode(bytes: Seq<u8>) -> Option<((Seq<char>, Seq<char>), nat)> {
        match spec_decode_identifier(bytes) {
            Ok((ns, thing, n)) => Some(((ns, thing), n)),
            Err(_) => None,
        }
    }

    open spec fn spec_decode_error(bytes: Seq<u8>) -> StringDecodingError {
        match spec_decode_identifier(bytes) {
            Err(e) => e,
            Ok(_) => StringDecodingError::Io,
        }
    }

    fn decode(bytes: &[u8]) -> (r: Result<(Self, usize), Self::Error>) {
        Identifier::decode(bytes)
    }
}

/// The big-endian number in the first `n` bytes, if there are `n`.
pub open spec fn spec_be_prefix(bytes: Seq<u8>, n: nat) -> Option<nat> {
    if bytes.len() < n {
        None
    } else {
        Some(be_value(bytes, 0, n))
    }
}

impl DecodePacketField for i64 {
    type Error = DeserializeNumberError;

    open spec fn spec_decode(bytes: Seq<u8>) -> Option<(i64, nat)> {
        match spec_be_prefix(bytes, 8) {
            Some(x) => Some(((x as u64) as i64, 8)),
            None => None,
        }
    }

    open spec fn spec_decode_error(bytes: Seq<u8>) -> DeserializeNumberError {
        DeserializeNumberError::Io
    }

    fn decode(bytes: &[u8]) -> (r: Result<(Self, usize), Self::Error>) {
        match read_be(bytes, 0, 8) {
            Some(x) => Ok((x as i64, 8)),
            None => Err(DeserializeNumberError::Io),
        }
    }
}

impl DecodePacketField for i32 {
    type Error = DeserializeNumberError;

    open spec fn spec_decode(bytes: Seq<u8>) -> Option<(i32, nat)> {
        match spec_be_prefix(bytes, 4) {
            Some(x) => Some(((x as u32) as i32, 4)),
            None => None,
        }
    }

    open spec fn spec_decode_error(bytes: Seq<u8>) -> DeserializeNumberError {
        DeserializeNumberError::Io
    }

    fn decode(bytes: &[u8]) -> (r: Result<(Self, usize), Self::Error>) {
        match read_be(bytes, 0, 4) {
            Some(x) => Ok(((x as u32) as i32, 4)),
            None => Err(DeserializeNumberError::Io),
        }
    }
}

impl DecodePacketField for u16 {
    type Error = DeserializeNumberError;

    open spec fn spec_decode(bytes: Seq<u8>) -> Option<(u16, nat)> {
        match spec_be_prefix(bytes, 2) {
            Some(x) => Some((x as u16, 2)),
            None => None,
        }
    }

    open spec fn spec_decode_error(bytes: Seq<u8>) -> DeserializeNumberError {
        DeserializeNumberError::Io
    }

    fn decode(bytes: &[u8]) -> (r: Result<(Self, usize), Self::Error>) {
        match read_be(bytes, 0, 2) {
            Some(x) => Ok((x as u16, 2)),
            None => Err(DeserializeNumberError::Io),
        }
    }
}

impl DecodePacketField for u8 {
    type Error = DeserializeNumberError;

    open spec fn spec_decode(bytes: Seq<u8>) -> Option<(u8, nat)> {
        if bytes.len() < 1 {
            None
        } else {
            Some((bytes[0], 1))
        }
    }

    open spec fn spec_decode_error(bytes: Seq<u8>) -> DeserializeNumberError {
        DeserializeNumberError::Io
    }

    fn decode(bytes: &[u8]) -> (r: Result<(Self, usize), Self::Error>) {
        if bytes.len() < 1 {
            Err(DeserializeNumberError::Io)
        } else {
            Ok((bytes[0], 1))
        }
    }
}

impl DecodePacketField for i8 {
    type Error = DeserializeNumberError;

    open spec fn spec_decode(bytes: Seq<u8>) -> Option<(i8, nat)> {
        if bytes.len() < 1 {
            None
        } else {
            Some((bytes[0] as i8, 1))
        }
    }

    open spec fn spec_decode_error(bytes: Seq<u8>) -> DeserializeNumberError {
        DeserializeNumberError::Io
    }

    fn decode(bytes: &[u8]) -> (r: Result<(Self, usize), Self::Error>) {
        if bytes.len() < 1 {
            Err(DeserializeNumberError::Io)
        } else {
            Ok((bytes[0] as i8, 1))
        }
    }
}

/// A boolean is one byte, true exactly when it is `0x01`.
impl DecodePacketField for bool {
    type Error = DeserializeNumberError;

    open spec fn spec_decode(bytes: Seq<u8>) -> Option<(bool, nat)> {
        if bytes.len() < 1 {
            None
        } else {
            Some((bytes[0] == 1, 1))
        }
    }

    open spec fn spec_decode_error(bytes: Seq<u8>) -> DeserializeNumberError {
        DeserializeNumberError::Io
    }

    fn decode(bytes: &[u8]) -> (r: Result<(Self, usize), Self::Error>) {
        if bytes.len() < 1 {
            Err(DeserializeNumberError::Io)
        } else {
            Ok((bytes[0] == 1, 1))
        }
    }
}

} // verus!
