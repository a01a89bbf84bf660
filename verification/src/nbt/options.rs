//! Options for NBT decoding, encoding and JSON conversion.
use vstd::prelude::*;

verus! {

pub const NAMELESS_ROOT: u8 = 1;

pub const DYNAMIC_LISTS: u8 = 2;

pub const NUMERIC_WIDENING: u8 = 4;

/// Options for NBT decoding and encoding, kept as bit flags.
#[derive(Debug, Clone, Copy)]
pub struct NbtOptions {
    flags: u8,
}

impl NbtOptions {
    /// The bit flags of these options.
    pub closed spec fn spec_flags(&self) -> u8 {
        self.flags
    }

    /// Whether the root tag is read and written without a name.
    pub open spec fn spec_nameless_root(&self) -> bool {
        self.spec_flags() & NAMELESS_ROOT != 0
    }

    /// Whether lists of mixed element types are written as lists of compounds.
    pub open spec fn spec_dynamic_lists(&self) -> bool {
        self.spec_flags() & DYNAMIC_LISTS != 0
    }

    /// Whether JSON numbers are widened to the canonical tags.
    pub open spec fn spec_numeric_widening(&self) -> bool {
        self.spec_flags() & NUMERIC_WIDENING != 0
    }

    /// Options with every flag off.
    pub fn new() -> (r: Self)
        ensures
            r.spec_flags() == 0,
            !r.spec_nameless_root(),
            !r.spec_dynamic_lists(),
            !r.spec_numeric_widening(),
    {
        assert(0u8 & 1 == 0 && 0u8 & 2 == 0 && 0u8 & 4 == 0) by (bit_vector);
        Self { flags: 0 }
    }

    /// Sets whether the root tag has no name.
    ///
    /// Since Minecraft 1.20.2, NBT sent over the network does not have a name
    /// for the root tag.
    pub fn nameless_root(self, enabled: bool) -> (r: Self)
        ensures
            r.spec_flags() == if enabled {
                self.spec_flags() | NAMELESS_ROOT
            } else {
                self.spec_flags() & !NAMELESS_ROOT
            },
            r.spec_nameless_root() == enabled,
            r.spec_dynamic_lists() == self.spec_dynamic_lists(),
            r.spec_numeric_widening() == self.spec_numeric_widening(),
    {
        let mut s = self;
        let f = s.flags;
        if enabled {
            s.flags = s.flags | NAMELESS_ROOT;
            assert((f | 1) & 1 != 0 && ((f | 1) & 2 != 0) == (f & 2 != 0) && ((f | 1) & 4 != 0)
                == (f & 4 != 0)) by (bit_vector);
        } else {
            s.flags = s.flags & !NAMELESS_ROOT;
            assert((f & !1u8) & 1 == 0 && ((f & !1u8) & 2 != 0) == (f & 2 != 0) && ((f & !1u8) & 4
                != 0) == (f & 4 != 0)) by (bit_vector);
        }
        s
    }

    /// Sets whether heterogeneous lists are supported.
    ///
    /// Since Minecraft 1.21.5, lists can hold elements of different types;
    /// they are then written as lists of compounds whose single empty key
    /// holds the element.
    pub fn dynamic_lists(self, enabled: bool) -> (r: Self)
        ensures
            r.spec_flags() == if enabled {
                self.spec_flags() | DYNAMIC_LISTS
            } else {
                self.spec_flags() & !DYNAMIC_LISTS
            },
            r.spec_dynamic_lists() == enabled,
            r.spec_nameless_root() == self.spec_nameless_root(),
            r.spec_numeric_widening() == self.spec_numeric_widening(),
    {
        let mut s = self;
        let f = s.flags;
        if enabled {
            s.flags = s.flags | DYNAMIC_LISTS;
            assert((f | 2) & 2 != 0 && ((f | 2) & 1 != 0) == (f & 1 != 0) && ((f | 2) & 4 != 0)
                == (f & 4 != 0)) by (bit_vector);
        } else {
            s.flags = s.flags & !DYNAMIC_LISTS;
            assert((f & !2u8) & 2 == 0 && ((f & !2u8) & 1 != 0) == (f & 1 != 0) && ((f & !2u8) & 4
                != 0) == (f & 4 != 0)) by (bit_vector);
        }
        s
    }

    /// Sets whether JSON numbers are widened to the canonical Mojang tags
    /// during JSON to NBT conversion: integers become `Int` (or `Long` when
    /// they do not fit), floats become `Float`, integer arrays become
    /// `IntArray` or `LongArray`, booleans stay `Byte`.
    pub fn numeric_widening(self, enabled: bool) -> (r: Self)
        ensures
            r.spec_flags() == if enabled {
                self.spec_flags() | NUMERIC_WIDENING
            } else {
                self.spec_flags() & !NUMERIC_WIDENING
            },
            r.spec_numeric_widening() == enabled,
            r.spec_nameless_root() == self.spec_nameless_root(),
            r.spec_dynamic_lists() == self.spec_dynamic_lists(),
    {
        let mut s = self;
        let f = s.flags;
        if enabled {
            s.flags = s.flags | NUMERIC_WIDENING;
            assert((f | 4) & 4 != 0 && ((f | 4) & 1 != 0) == (f & 1 != 0) && ((f | 4) & 2 != 0)
                == (f & 2 != 0)) by (bit_vector);
        } else {
            s.flags = s.flags & !NUMERIC_WIDENING;
            assert((f & !4u8) & 4 == 0 && ((f & !4u8) & 1 != 0) == (f & 1 != 0) && ((f & !4u8) & 2
                != 0) == (f & 2 != 0)) by (bit_vector);
        }
        s
    }

    /// Checks if nameless root is enabled.
    pub fn is_nameless_root(&self) -> (r: bool)
        ensures
            r == self.spec_nameless_root(),
    {
        (self.flags & NAMELESS_ROOT) != 0
    }

    /// Checks if dynamic lists are enabled.
    pub fn is_dynamic_lists(&self) -> (r: bool)
        ensures
            r == self.spec_dynamic_lists(),
    {
        (self.flags & DYNAMIC_LISTS) != 0
    }

    /// Checks if numeric widening is enabled.
    pub fn is_numeric_widening(&self) -> (r: bool)
        ensures
            r == self.spec_numeric_widening(),
    {
        (self.flags & NUMERIC_WIDENING) != 0
    }
}

impl Default for NbtOptions {
    fn default() -> (r: Self)
        ensures
            r.spec_flags() == 0,
    {
        Self { flags: 0 }
    }
}

} // verus!
