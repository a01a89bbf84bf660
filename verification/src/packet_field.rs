//! Writing a value of the protocol as bytes.
use vstd::prelude::*;

verus! {

/// A value that the protocol writes as bytes.
pub trait EncodePacketField {
    /// What can keep a value from being written.
    type Error;

    /// The bytes that stand for this value on the wire.
    spec fn spec_encoding(&self) -> Seq<u8>;

    /// Appends the bytes of this value to `bytes`.
    fn encode(&self, bytes: &mut Vec<u8>) -> (r: Result<(), Self::Error>)
        ensures
            r is Ok,
            final(bytes)@ == old(bytes)@ + self.spec_encoding(),
    ;
}

} // verus!
