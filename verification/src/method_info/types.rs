//! The record of a method and its access flags.

use crate::attribute_info::{AttributeInfo, AttributeInfoView};
use vstd::prelude::*;

verus! {

/// The access flags of a method: a set of flags, held as the bits that
/// stand for them in the class file. Each constant is the bit of one flag.
/// A set holds no bit that stands for no flag.
#[derive(Clone, Copy, Debug, PartialEq, Eq, PartialOrd, Ord, Hash)]
pub struct MethodAccessFlags {
    bits: u16,
}

impl View for MethodAccessFlags {
    type V = u16;

    /// The bits of the flags in the set.
    closed spec fn view(&self) -> u16 {
        self.bits
    }
}

impl MethodAccessFlags {
    /// Declared public; may be accessed from outside its package.
    pub const PUBLIC: u16 = 0x0001;

    /// Declared private; accessible only within the defining class.
    pub const PRIVATE: u16 = 0x0002;

    /// Declared protected; may be accessed within subclasses.
    pub const PROTECTED: u16 = 0x0004;

    /// Declared static.
    pub const STATIC: u16 = 0x0008;

    /// Declared final; must not be overridden.
    pub const FINAL: u16 = 0x0010;

    /// Declared synchronized; invocation is wrapped by a monitor use.
    pub const SYNCHRONIZED: u16 = 0x0020;

    /// A bridge method, generated by the compiler.
    pub const BRIDGE: u16 = 0x0040;

    /// Declared with variable number of arguments.
    pub const VARARGS: u16 = 0x0080;

    /// Declared native; implemented in a language other than Java.
    pub const NATIVE: u16 = 0x0100;

    /// Declared abstract; no implementation is provided.
    pub const ABSTRACT: u16 = 0x0400;

    /// Declared strictfp; floating-point mode is FP-strict.
    pub const STRICT: u16 = 0x0800;

    /// Declared synthetic; not present in the source code.
    pub const SYNTHETIC: u16 = 0x1000;

    /// The bits of all the flags together.
    pub const ALL_BITS: u16 = 0x1dff;

    /// `ALL_BITS` holds the bit of every flag and no other bit.
    pub proof fn lemma_all_bits_are_the_flags()
        ensures
            Self::ALL_BITS == Self::PUBLIC | Self::PRIVATE | Self::PROTECTED | Self::STATIC
                | Self::FINAL | Self::SYNCHRONIZED | Self::BRIDGE | Self::VARARGS | Self::NATIVE
                | Self::ABSTRACT | Self::STRICT | Self::SYNTHETIC,
    {
        assert(Self::ALL_BITS == Self::PUBLIC | Self::PRIVATE | Self::PROTECTED
            | Self::STATIC | Self::FINAL | Self::SYNCHRONIZED | Self::BRIDGE
            | Self::VARARGS | Self::NATIVE | Self::ABSTRACT | Self::STRICT
            | Self::SYNTHETIC) by (bit_vector);
    }

    #[verifier::type_invariant]
    spec fn known_bits_only(&self) -> bool {
        self.bits & Self::ALL_BITS == self.bits
    }

    /// The set without a flag.
    pub fn empty() -> (flags: MethodAccessFlags)
        ensures
            flags@ == 0,
    {
        assert(0u16 & Self::ALL_BITS == 0u16) by (bit_vector);
        MethodAccessFlags { bits: 0 }
    }

    /// The set of all the flags.
    pub fn all() -> (flags: MethodAccessFlags)
        ensures
            flags@ == Self::ALL_BITS,
    {
        assert(Self::ALL_BITS & Self::ALL_BITS == Self::ALL_BITS) by (bit_vector);
        MethodAccessFlags { bits: Self::ALL_BITS }
    }

    /// The set of the flags whose bits are set in `bits`, and `None` where
    /// `bits` holds a bit that stands for no flag.
    pub fn from_bits(bits: u16) -> (flags: Option<MethodAccessFlags>)
        ensures
            match flags {
                Some(flags) => flags@ == bits && bits & Self::ALL_BITS == bits,
                None => bits & Self::ALL_BITS != bits,
            },
    {
        if bits & Self::ALL_BITS == bits {
            Some(MethodAccessFlags { bits })
        } else {
            None
        }
    }

    /// The set of the flags whose bits are set in `bits`. Bits that stand
    /// for no flag are dropped.
    pub fn from_bits_truncate(bits: u16) -> (flags: MethodAccessFlags)
        ensures
            flags@ == bits & Self::ALL_BITS,
    {
        assert((bits & Self::ALL_BITS) & Self::ALL_BITS == bits & Self::ALL_BITS) by (bit_vector);
        MethodAccessFlags { bits: bits & Self::ALL_BITS }
    }

    /// The bits of the flags in the set.
    pub fn bits(&self) -> (bits: u16)
        ensures
            bits == self@,
            bits & Self::ALL_BITS == bits,
    {
        proof {
            use_type_invariant(self);
        }
        self.bits
    }

    /// Whether the set holds no flag.
    pub fn is_empty(&self) -> (r: bool)
        ensures
            r == (self@ == 0),
    {
        self.bits == 0
    }

    /// Whether every flag whose bit is set in `flags` is in the set.
    pub fn contains(&self, flags: u16) -> (r: bool)
        ensures
            r == (self@ & flags == flags),
    {
        self.bits & flags == flags
    }
}

/// A method of a class: its flags, the indices of its name and descriptor in
/// the constant pool, and its attributes, undecoded.
#[derive(Clone, Debug, PartialEq, Eq)]
pub struct MethodInfo {
    pub access_flags: MethodAccessFlags,
    pub name_index: u16,
    pub descriptor_index: u16,
    pub attributes_count: u16,
    pub attributes: Vec<AttributeInfo>,
}

/// The model of a [`MethodInfo`]. The flags are modelled by their bits.
pub ghost struct MethodInfoView {
    pub access_flags: u16,
    pub name_index: u16,
    pub descriptor_index: u16,
    pub attributes_count: u16,
    pub attributes: Seq<AttributeInfoView>,
}

impl View for MethodInfo {
    type V = MethodInfoView;

    open spec fn view(&self) -> MethodInfoView {
        MethodInfoView {
            access_flags: self.access_flags@,
            name_index: self.name_index,
            descriptor_index: self.descriptor_index,
            attributes_count: self.attributes_count,
            attributes: self.attributes.deep_view(),
        }
    }
}

impl DeepView for MethodInfo {
    type V = MethodInfoView;

    open spec fn deep_view(&self) -> MethodInfoView {
        self@
    }
}

impl MethodInfoView {
    /// The flags hold no bit that stands for no flag, and there are as
    /// many attributes as the count says, each well-formed.
    pub open spec fn well_formed(self) -> bool {
        &&& self.access_flags & MethodAccessFlags::ALL_BITS == self.access_flags
        &&& self.attributes.len() == self.attributes_count
        &&& forall|i: int|
            0 <= i < self.attributes.len() ==> (#[trigger] self.attributes[i]).well_formed()
    }
}

} // verus!
