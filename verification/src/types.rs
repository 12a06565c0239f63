//! The record of a class.

use crate::attribute_info::{AttributeInfo, AttributeInfoView};
use crate::constant_info::parser::wide_entries_padded;
use crate::constant_info::{ConstantInfo, ConstantInfoView};
use crate::field_info::{FieldInfo, FieldInfoView};
use crate::method_info::{MethodInfo, MethodInfoView};
use vstd::prelude::*;

verus! {

/// A decoded class file.
///
/// The indices it holds point into `const_pool` and count from one: the
/// entry of index `i` is `const_pool[i - 1]`. Nothing is resolved or
/// checked: an index may point nowhere.
#[derive(Clone, Debug, PartialEq, Eq)]
pub struct ClassFile {
    pub minor_version: u16,
    pub major_version: u16,
    pub const_pool_size: u16,
    pub const_pool: Vec<ConstantInfo>,
    pub access_flags: ClassAccessFlags,
    pub this_class: u16,
    pub super_class: u16,
    pub interfaces_count: u16,
    pub interfaces: Vec<u16>,
    pub fields_count: u16,
    pub fields: Vec<FieldInfo>,
    pub methods_count: u16,
    pub methods: Vec<MethodInfo>,
    pub attributes_count: u16,
    pub attributes: Vec<AttributeInfo>,
}

/// The model of a [`ClassFile`]. The flags are modelled by their bits.
pub ghost struct ClassFileView {
    pub minor_version: u16,
    pub major_version: u16,
    pub const_pool_size: u16,
    pub const_pool: Seq<ConstantInfoView>,
    pub access_flags: u16,
    pub this_class: u16,
    pub super_class: u16,
    pub interfaces_count: u16,
    pub interfaces: Seq<u16>,
    pub fields_count: u16,
    pub fields: Seq<FieldInfoView>,
    pub methods_count: u16,
    pub methods: Seq<MethodInfoView>,
    pub attributes_count: u16,
    pub attributes: Seq<AttributeInfoView>,
}

impl View for ClassFile {
    type V = ClassFileView;

    open spec fn view(&self) -> ClassFileView {
        ClassFileView {
            minor_version: self.minor_version,
            major_version: self.major_version,
            const_pool_size: self.const_pool_size,
            const_pool: self.const_pool.deep_view(),
            access_flags: self.access_flags@,
            this_class: self.this_class,
            super_class: self.super_class,
            interfaces_count: self.interfaces_count,
            interfaces: self.interfaces@,
            fields_count: self.fields_count,
            fields: self.fields.deep_view(),
            methods_count: self.methods_count,
            methods: self.methods.deep_view(),
            attributes_count: self.attributes_count,
            attributes: self.attributes.deep_view(),
        }
    }
}

impl ClassFileView {
    /// What holds of every decoded class.
    ///
    /// The declared size of the pool is at least one. The pool has one
    /// slot less than its declared size, or as many where its last entry is
    /// wide, and behind every wide entry, and nowhere else, an unusable slot. The flags hold no bit that stands for no
    /// flag. Every list is as long as the count beside it says, and the
    /// fields, methods and attributes are well-formed.
    pub open spec fn well_formed(self) -> bool {
        &&& self.const_pool_size >= 1
        &&& self.const_pool_size - 1 <= self.const_pool.len() <= self.const_pool_size
        &&& wide_entries_padded(self.const_pool)
        &&& self.access_flags & ClassAccessFlags::ALL_BITS == self.access_flags
        &&& self.interfaces.len() == self.interfaces_count
        &&& self.fields.len() == self.fields_count
        &&& forall|i: int| 0 <= i < self.fields.len() ==> (#[trigger] self.fields[i]).well_formed()
        &&& self.methods.len() == self.methods_count
        &&& forall|i: int|
            0 <= i < self.methods.len() ==> (#[trigger] self.methods[i]).well_formed()
        &&& self.attributes.len() == self.attributes_count
        &&& forall|i: int|
            0 <= i < self.attributes.len() ==> (#[trigger] self.attributes[i]).well_formed()
    }
}

/// The access flags of a class: a set of flags, held as the bits that
/// stand for them in the class file. Each constant is the bit of one flag.
/// A set holds no bit that stands for no flag.
#[derive(Clone, Copy, Debug, PartialEq, Eq, PartialOrd, Ord, Hash)]
pub struct ClassAccessFlags {
    bits: u16,
}

impl View for ClassAccessFlags {
    type V = u16;

    /// The bits of the flags in the set.
    closed spec fn view(&self) -> u16 {
        self.bits
    }
}

impl ClassAccessFlags {
    /// Declared public; may be accessed from outside its package.
    pub const PUBLIC: u16 = 0x0001;

    /// Declared final; no subclasses allowed.
    pub const FINAL: u16 = 0x0010;

    /// Treat superclass methods specially when invoked by the invokespecial instruction.
    pub const SUPER: u16 = 0x0020;

    /// Is an interface, not a class.
    pub const INTERFACE: u16 = 0x0200;

    /// Declared abstract; must not be instantiated.
    pub const ABSTRACT: u16 = 0x0400;

    /// Declared synthetic; not present in the source code.
    pub const SYNTHETIC: u16 = 0x1000;

    /// Declared as an annotation type.
    pub const ANNOTATION: u16 = 0x2000;

    /// Declared as an enum type.
    pub const ENUM: u16 = 0x4000;

    /// The bits of all the flags together.
    pub const ALL_BITS: u16 = 0x7631;

    /// `ALL_BITS` holds the bit of every flag and no other bit.
    pub proof fn lemma_all_bits_are_the_flags()
        ensures
            Self::ALL_BITS == Self::PUBLIC | Self::FINAL | Self::SUPER | Self::INTERFACE
                | Self::ABSTRACT | Self::SYNTHETIC | Self::ANNOTATION | Self::ENUM,
    {
        assert(Self::ALL_BITS == Self::PUBLIC | Self::FINAL | Self::SUPER
            | Self::INTERFACE | Self::ABSTRACT | Self::SYNTHETIC
            | Self::ANNOTATION | Self::ENUM) by (bit_vector);
    }

    #[verifier::type_invariant]
    spec fn known_bits_only(&self) -> bool {
        self.bits & Self::ALL_BITS == self.bits
    }

    /// The set without a flag.
    pub fn empty() -> (flags: ClassAccessFlags)
        ensures
            flags@ == 0,
    {
        assert(0u16 & Self::ALL_BITS == 0u16) by (bit_vector);
        ClassAccessFlags { bits: 0 }
    }

    /// The set of all the flags.
    pub fn all() -> (flags: ClassAccessFlags)
        ensures
            flags@ == Self::ALL_BITS,
    {
        assert(Self::ALL_BITS & Self::ALL_BITS == Self::ALL_BITS) by (bit_vector);
        ClassAccessFlags { bits: Self::ALL_BITS }
    }

    /// The set of the flags whose bits are set in `bits`, and `None` where
    /// `bits` holds a bit that stands for no flag.
    pub fn from_bits(bits: u16) -> (flags: Option<ClassAccessFlags>)
        ensures
            match flags {
                Some(flags) => flags@ == bits && bits & Self::ALL_BITS == bits,
                None => bits & Self::ALL_BITS != bits,
            },
    {
        if bits & Self::ALL_BITS == bits {
            Some(ClassAccessFlags { bits })
        } else {
            None
        }
    }

    /// The set of the flags whose bits are set in `bits`. Bits that stand
    /// for no flag are dropped.
    pub fn from_bits_truncate(bits: u16) -> (flags: ClassAccessFlags)
        ensures
            flags@ == bits & Self::ALL_BITS,
    {
        assert((bits & Self::ALL_BITS) & Self::ALL_BITS == bits & Self::ALL_BITS) by (bit_vector);
        ClassAccessFlags { bits: bits & Self::ALL_BITS }
    }

    /// The bits of the flags in the set.
    pub fn bits(&self) -> (bits: u16)
        ensures
            bits == self@,
            bits & Self::ALL_BITS == bits,
    {
        proof {
            use_type_invariant(self);
        }
        self.bits
    }

    /// Whether the set holds no flag.
    pub fn is_empty(&self) -> (r: bool)
        ensures
            r == (self@ == 0),
    {
        self.bits == 0
    }

    /// Whether every flag whose bit is set in `flags` is in the set.
    pub fn contains(&self, flags: u16) -> (r: bool)
        ensures
            r == (self@ & flags == flags),
    {
        self.bits & flags == flags
    }
}

} // verus!
