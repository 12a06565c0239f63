//! The record of a field and its access flags.

use crate::attribute_info::{AttributeInfo, AttributeInfoView};
use vstd::prelude::*;

verus! {

/// The access flags of a field: a set of flags, held as the bits that
/// stand for them in the class file. Each constant is the bit of one flag.
/// A set holds no bit that stands for no flag.
#[derive(Clone, Copy, Debug, PartialEq, Eq, PartialOrd, Ord, Hash)]
pub struct FieldAccessFlags {
    bits: u16,
}

impl View for FieldAccessFlags {
    type V = u16;

    /// The bits of the flags in the set.
    closed spec fn view(&self) -> u16 {
        self.bits
    }
}

impl FieldAccessFlags {
    /// Declared public; may be accessed from outside its package.
    pub const PUBLIC: u16 = 0x0001;

    /// Declared private; usable only within the defining class.
    pub const PRIVATE: u16 = 0x0002;

    /// Declared protected; may be accessed within subclasses.
    pub const PROTECTED: u16 = 0x0004;

    /// Declared static.
    pub const STATIC: u16 = 0x0008;

    /// Declared final; never directly assigned to after object construction.
    pub const FINAL: u16 = 0x0010;

    /// Declared volatile; cannot be cached.
    pub const VOLATILE: u16 = 0x0040;

    /// Declared transient; not written or read by a persistent object manager.
    pub const TRANSIENT: u16 = 0x0080;

    /// Declared synthetic; not present in the source code.
    pub const SYNTHETIC: u16 = 0x1000;

    /// Declared as an annotation type.
    pub const ANNOTATION: u16 = 0x2000;

    /// Declared as an element of an enum.
    pub const ENUM: u16 = 0x4000;

    /// The bits of all the flags together.
    pub const ALL_BITS: u16 = 0x70df;

    /// `ALL_BITS` holds the bit of every flag and no other bit.
    pub proof fn lemma_all_bits_are_the_flags()
        ensures
            Self::ALL_BITS == Self::PUBLIC | Self::PRIVATE | Self::PROTECTED | Self::STATIC
                | Self::FINAL | Self::VOLATILE | Self::TRANSIENT | Self::SYNTHETIC
                | Self::ANNOTATION | Self::ENUM,
    {
        assert(Self::ALL_BITS == Self::PUBLIC | Self::PRIVATE | Self::PROTECTED
            | Self::STATIC | Self::FINAL | Self::VOLATILE | Self::TRANSIENT
            | Self::SYNTHETIC | Self::ANNOTATION | Self::ENUM) by (bit_vector);
    }

    #[verifier::type_invariant]
    spec fn known_bits_only(&self) -> bool {
        self.bits & Self::ALL_BITS == self.bits
    }

    /// The set without a flag.
    pub fn empty() -> (flags: FieldAccessFlags)
        ensures
            flags@ == 0,
    {
        assert(0u16 & Self::ALL_BITS == 0u16) by (bit_vector);
        FieldAccessFlags { bits: 0 }
    }

    /// The set of all the flags.
    pub fn all() -> (flags: FieldAccessFlags)
        ensures
            flags@ == Self::ALL_BITS,
    {
        assert(Self::ALL_BITS & Self::ALL_BITS == Self::ALL_BITS) by (bit_vector);
        FieldAccessFlags { bits: Self::ALL_BITS }
    }

    /// The set of the flags whose bits are set in `bits`, and `None` where
    /// `bits` holds a bit that stands for no flag.
    pub fn from_bits(bits: u16) -> (flags: Option<FieldAccessFlags>)
        ensures
            match flags {
                Some(flags) => flags@ == bits && bits & Self::ALL_BITS == bits,
                None => bits & Self::ALL_BITS != bits,
            },
    {
        if bits & Self::ALL_BITS == bits {
            Some(FieldAccessFlags { bits })
        } else {
            None
        }
    }

    /// The set of the flags whose bits are set in `bits`. Bits that stand
    /// for no flag are dropped.
    pub fn from_bits_truncate(bits: u16) -> (flags: FieldAccessFlags)
        ensures
            flags@ == bits & Self::ALL_BITS,
    {
        assert((bits & Self::ALL_BITS) & Self::ALL_BITS == bits & Self::ALL_BITS) by (bit_vector);
        FieldAccessFlags { bits: bits & Self::ALL_BITS }
    }

    /// The bits of the flags in the set.
    pub fn bits(&self) -> (bits: u16)
        ensures
            bits == self@,
            bits & Self::ALL_BITS == bits,
    {
        proof {
            use_type_invariant(self);
        }
        self.bits
    }

    /// Whether the set holds no flag.
    pub fn is_empty(&self) -> (r: bool)
        ensures
            r == (self@ == 0),
    {
        self.bits == 0
    }

    /// Whether every flag whose bit is set in `flags` is in the set.
    pub fn contains(&self, flags: u16) -> (r: bool)
        ensures
            r == (self@ & flags == flags),
    {
        self.bits & flags == flags
    }
}

/// A field of a class: its flags, the indices of its name and descriptor in
/// the constant pool, and its attributes, undecoded.
#[derive(Clone, Debug, PartialEq, Eq)]
pub struct FieldInfo {
    pub access_flags: FieldAccessFlags,
    pub name_index: u16,
    pub descriptor_index: u16,
    pub attributes_count: u16,
    pub attributes: Vec<AttributeInfo>,
}

/// The model of a [`FieldInfo`]. The flags are modelled by their bits.
pub ghost struct FieldInfoView {
    pub access_flags: u16,
    pub name_index: u16,
    pub descriptor_index: u16,
    pub attributes_count: u16,
    pub attributes: Seq<AttributeInfoView>,
}

impl View for FieldInfo {
    type V = FieldInfoView;

    open spec fn view(&self) -> FieldInfoView {
        FieldInfoView {
            access_flags: self.access_flags@,
            name_index: self.name_index,
            descriptor_index: self.descriptor_index,
            attributes_count: self.attributes_count,
            attributes: self.attributes.deep_view(),
        }
    }
}

impl DeepView for FieldInfo {
    type V = FieldInfoView;

    open spec fn deep_view(&self) -> FieldInfoView {
        self@
    }
}

impl FieldInfoView {
    /// The flags hold no bit that stands for no flag, and there are as
    /// many attributes as the count says, each well-formed.
    pub open spec fn well_formed(self) -> bool {
        &&& self.access_flags & FieldAccessFlags::ALL_BITS == self.access_flags
        &&& self.attributes.len() == self.attributes_count
        &&& forall|i: int|
            0 <= i < self.attributes.len() ==> (#[trigger] self.attributes[i]).well_formed()
    }
}

} // verus!
