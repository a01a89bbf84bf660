//! Why NBT could not be read or built.
use vstd::prelude::*;

verus! {

/// Why NBT could not be read, or JSON not turned into NBT.
#[derive(Debug, PartialEq, Eq, Structural)]
pub enum NbtError {
    /// JSON `null` has no NBT counterpart.
    NullNotSupported,
    /// A JSON number that is neither an integer nor a float.
    InvalidNumber,
    /// The input ended before the value did (the read failed).
    Io,
    /// A tag id that NBT does not define.
    InvalidTagId(u8),
    /// A negative length for an array or a list.
    InvalidLength,
    /// A name or a string that is not valid UTF-8.
    InvalidUtf8,
    /// A string, array or list too long for its length prefix.
    TooLong,
    /// A list whose elements are not all of one tag.
    MixedList,
}

} // verus!
