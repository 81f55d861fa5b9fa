use vstd::prelude::*;

verus! {

/// The bits of every input kind that has a name.
pub const ALL_INPUT_BITS: u8 = 0b111;

/// A set of input kinds, kept as the bits of one byte.
///
/// Bits that name no input kind are kept as they are by
/// [`InputFlags::from_bits_retain`] and [`InputFlags::union`], and dropped by
/// [`InputFlags::complement`].
#[derive(Clone, Copy, Debug, PartialEq, Eq, Structural, Hash)]
pub struct InputFlags {
    bits: u8,
}

impl View for InputFlags {
    type V = u8;

    open spec fn view(&self) -> u8 {
        self.spec_bits()
    }
}

impl InputFlags {
    pub closed spec fn spec_bits(&self) -> u8 {
        self.bits
    }

    /// Gamepad input.
    pub fn game_pad() -> (r: InputFlags)
        ensures
            r@ == 0b001,
    {
        InputFlags { bits: 0b001 }
    }

    /// Keyboard input.
    pub fn keyboard() -> (r: InputFlags)
        ensures
            r@ == 0b010,
    {
        InputFlags { bits: 0b010 }
    }

    /// Mouse input.
    pub fn mouse() -> (r: InputFlags)
        ensures
            r@ == 0b100,
    {
        InputFlags { bits: 0b100 }
    }

    /// The set of no input kind.
    pub fn empty() -> (r: InputFlags)
        ensures
            r@ == 0,
    {
        InputFlags { bits: 0 }
    }

    /// The set of every named input kind.
    pub fn all() -> (r: InputFlags)
        ensures
            r@ == ALL_INPUT_BITS,
    {
        InputFlags { bits: ALL_INPUT_BITS }
    }

    /// The raw bits of the set.
    pub fn bits(&self) -> (r: u8)
        ensures
            r == self@,
    {
        self.bits
    }

    /// The set whose bits are exactly `bits`, named or not.
    pub fn from_bits_retain(bits: u8) -> (r: InputFlags)
        ensures
            r@ == bits,
    {
        InputFlags { bits }
    }

    /// Every named input kind that is not in the set; unnamed bits are dropped.
    pub fn complement(&self) -> (r: InputFlags)
        ensures
            r@ == (!self@) & ALL_INPUT_BITS,
    {
        InputFlags { bits: (!self.bits) & ALL_INPUT_BITS }
    }

    /// The bits of both sets.
    pub fn union(&self, other: InputFlags) -> (r: InputFlags)
        ensures
            r@ == self@ | other@,
    {
        InputFlags { bits: self.bits | other.bits }
    }

    /// Adds the bits of `other` to the set.
    pub fn insert(&mut self, other: InputFlags)
        ensures
            final(self)@ == old(self)@ | other@,
    {
        self.bits = self.bits | other.bits;
    }

    /// Whether the two sets share a bit.
    pub fn intersects(&self, other: InputFlags) -> (r: bool)
        ensures
            r == (self@ & other@ != 0),
    {
        self.bits & other.bits != 0
    }

    /// The bits that are in both sets.
    pub fn intersection(&self, other: InputFlags) -> (r: InputFlags)
        ensures
            r@ == self@ & other@,
    {
        InputFlags { bits: self.bits & other.bits }
    }

    /// The bits of the set that are not in `other`.
    pub fn difference(&self, other: InputFlags) -> (r: InputFlags)
        ensures
            r@ == self@ & !other@,
    {
        InputFlags { bits: self.bits & !other.bits }
    }

    /// Removes the bits of `other` from the set.
    pub fn remove(&mut self, other: InputFlags)
        ensures
            final(self)@ == old(self)@ & !other@,
    {
        self.bits = self.bits & !other.bits;
    }

    /// Whether every bit of `other` is in the set.
    pub fn contains(&self, other: InputFlags) -> (r: bool)
        ensures
            r == (self@ & other@ == other@),
    {
        self.bits & other.bits == other.bits
    }

    /// Whether the set has no bit.
    pub fn is_empty(&self) -> (r: bool)
        ensures
            r == (self@ == 0),
    {
        self.bits == 0
    }

    /// Whether the set holds every named input kind.
    pub fn is_all(&self) -> (r: bool)
        ensures
            r == (self@ & ALL_INPUT_BITS == ALL_INPUT_BITS),
    {
        self.bits & ALL_INPUT_BITS == ALL_INPUT_BITS
    }
}

impl core::ops::BitOr for InputFlags {
    type Output = InputFlags;

    fn bitor(self, rhs: InputFlags) -> (r: InputFlags)
        ensures
            r@ == self@ | rhs@,
    {
        InputFlags { bits: self.bits | rhs.bits }
    }
}

impl vstd::std_specs::ops::BitOrSpecImpl for InputFlags {
    open spec fn obeys_bitor_spec() -> bool {
        true
    }

    open spec fn bitor_req(self, rhs: InputFlags) -> bool {
        true
    }

    closed spec fn bitor_spec(self, rhs: InputFlags) -> InputFlags {
        InputFlags { bits: self.bits | rhs.bits }
    }
}

impl core::ops::BitAnd for InputFlags {
    type Output = InputFlags;

    fn bitand(self, rhs: InputFlags) -> (r: InputFlags)
        ensures
            r@ == self@ & rhs@,
    {
        InputFlags { bits: self.bits & rhs.bits }
    }
}

impl vstd::std_specs::ops::BitAndSpecImpl for InputFlags {
    open spec fn obeys_bitand_spec() -> bool {
        true
    }

    open spec fn bitand_req(self, rhs: InputFlags) -> bool {
        true
    }

    closed spec fn bitand_spec(self, rhs: InputFlags) -> InputFlags {
        InputFlags { bits: self.bits & rhs.bits }
    }
}

impl core::ops::Not for InputFlags {
    type Output = InputFlags;

    fn not(self) -> (r: InputFlags)
        ensures
            r@ == (!self@) & ALL_INPUT_BITS,
    {
        InputFlags { bits: (!self.bits) & ALL_INPUT_BITS }
    }
}

impl vstd::std_specs::ops::NotSpecImpl for InputFlags {
    open spec fn obeys_not_spec() -> bool {
        true
    }

    open spec fn not_req(self) -> bool {
        true
    }

    closed spec fn not_spec(self) -> InputFlags {
        InputFlags { bits: (!self.bits) & ALL_INPUT_BITS }
    }
}

} // verus!
