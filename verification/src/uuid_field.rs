//! Player ids on the wire: the 16 bytes of the UUID, most significant
//! first. An id is held as its 128-bit number.
use crate::decode_field::DecodePacketField;
use crate::nbt::reader::{be_value, pow256};
use crate::nbt::writer::be_bytes;
use crate::packet_field::EncodePacketField;
use vstd::prelude::*;

verus! {

proof fn lemma_pow256_step(k: nat)
    requires
        k <= 15,
    ensures
        pow256(k + 1) == 256 * pow256(k),
        pow256(k + 1) <= 0x1_0000_0000_0000_0000_0000_0000_0000_0000,
{
    reveal_with_fuel(pow256, 17);
}

/// Appends the low `n` bytes of `x`, most significant first.
fn write_be128(out: &mut Vec<u8>, x: u128, n: usize)
    ensures
        final(out)@ == old(out)@ + be_bytes(x as nat, n as nat),
    decreases n,
{
    if n > 0 {
        write_be128(out, x / 256, n - 1);
        out.push((x % 256) as u8);
        assert(final(out)@ =~= old(out)@ + be_bytes(x as nat, n as nat));
    }
}

impl EncodePacketField for u128 {
    type Error = core::convert::Infallible;

    open spec fn spec_encoding(&self) -> Seq<u8> {
        be_bytes(*self as nat, 16)
    }

    fn encode(&self, bytes: &mut Vec<u8>) -> (r: Result<(), Self::Error>) {
        write_be128(bytes, *self, 16);
        Ok(())
    }
}

/// Why an id could not be read: the input ended first.
#[derive(Debug, PartialEq, Eq, Structural)]
pub enum UuidDecodeError {
    Io,
}

impl DecodePacketField for u128 {
    type Error = UuidDecodeError;

    open spec fn spec_decode(bytes: Seq<u8>) -> Option<(u128, nat)> {
        if bytes.len() < 16 {
            None
        } else {
            Some((be_value(bytes, 0, 16) as u128, 16))
        }
    }

    open spec fn spec_decode_error(bytes: Seq<u8>) -> UuidDecodeError {
        UuidDecodeError::Io
    }

    fn decode(bytes: &[u8]) -> (r: Result<(Self, usize), Self::Error>) {
        if bytes.len() < 16 {
            return Err(UuidDecodeError::Io);
        }
        let mut acc: u128 = 0;
        let mut j: usize = 0;
        while j < 16
            invariant
                j <= 16,
                bytes@.len() >= 16,
                acc == be_value(bytes@, 0, j as nat),
                acc < pow256(j as nat),
            decreases 16 - j,
        {
            proof {
                lemma_pow256_step(j as nat);
            }
            assert(acc * 256 + bytes@[j as int] < pow256((j + 1) as nat)) by (nonlinear_arith)
                requires
                    acc < pow256(j as nat),
                    bytes@[j as int] < 256,
                    pow256((j + 1) as nat) == 256 * pow256(j as nat),
            ;
            acc = acc * 256 + bytes[j] as u128;
            j = j + 1;
        }
        Ok((acc, 16))
    }
}

} // verus!
