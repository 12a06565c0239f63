//! The entries of the constant pool.

use vstd::prelude::*;

verus! {

/// One slot of the constant pool.
///
/// A `Long` or `Double` entry takes up two indices of the pool; the slot
/// behind it holds `Unusable`, which stands for no entry of the class file.
#[derive(Clone, Debug, PartialEq, Eq)]
pub enum ConstantInfo {
    Utf8(Utf8Constant),
    Integer(IntegerConstant),
    Float(FloatConstant),
    Long(LongConstant),
    Double(DoubleConstant),
    Class(ClassConstant),
    String(StringConstant),
    FieldRef(FieldRefConstant),
    MethodRef(MethodRefConstant),
    InterfaceMethodRef(InterfaceMethodRefConstant),
    NameAndType(NameAndTypeConstant),
    MethodHandle(MethodHandleConstant),
    MethodType(MethodTypeConstant),
    InvokeDynamic(InvokeDynamicConstant),
    Unusable,
}

/// The model of a [`ConstantInfo`].
pub ghost enum ConstantInfoView {
    Utf8(Utf8ConstantView),
    Integer(IntegerConstant),
    Float(FloatConstant),
    Long(LongConstant),
    Double(DoubleConstant),
    Class(ClassConstant),
    String(StringConstant),
    FieldRef(FieldRefConstant),
    MethodRef(MethodRefConstant),
    InterfaceMethodRef(InterfaceMethodRefConstant),
    NameAndType(NameAndTypeConstant),
    MethodHandle(MethodHandleConstant),
    MethodType(MethodTypeConstant),
    InvokeDynamic(InvokeDynamicConstant),
    Unusable,
}

impl View for ConstantInfo {
    type V = ConstantInfoView;

    open spec fn view(&self) -> ConstantInfoView {
        match *self {
            ConstantInfo::Utf8(c) => ConstantInfoView::Utf8(c@),
            ConstantInfo::Integer(c) => ConstantInfoView::Integer(c),
            ConstantInfo::Float(c) => ConstantInfoView::Float(c),
            ConstantInfo::Long(c) => ConstantInfoView::Long(c),
            ConstantInfo::Double(c) => ConstantInfoView::Double(c),
            ConstantInfo::Class(c) => ConstantInfoView::Class(c),
            ConstantInfo::String(c) => ConstantInfoView::String(c),
            ConstantInfo::FieldRef(c) => ConstantInfoView::FieldRef(c),
            ConstantInfo::MethodRef(c) => ConstantInfoView::MethodRef(c),
            ConstantInfo::InterfaceMethodRef(c) => ConstantInfoView::InterfaceMethodRef(c),
            ConstantInfo::NameAndType(c) => ConstantInfoView::NameAndType(c),
            ConstantInfo::MethodHandle(c) => ConstantInfoView::MethodHandle(c),
            ConstantInfo::MethodType(c) => ConstantInfoView::MethodType(c),
            ConstantInfo::InvokeDynamic(c) => ConstantInfoView::InvokeDynamic(c),
            ConstantInfo::Unusable => ConstantInfoView::Unusable,
        }
    }
}

impl DeepView for ConstantInfo {
    type V = ConstantInfoView;

    open spec fn deep_view(&self) -> ConstantInfoView {
        self@
    }
}

/// Why an index yields no entry of the pool.
#[derive(Clone, Copy, Debug, PartialEq, Eq)]
pub enum LookupError {
    /// The index is zero or lies behind the last slot of the pool.
    NoSuchIndex,
    /// The index is that of the slot behind a `Long` or `Double` entry,
    /// which holds no entry.
    UnusableSlot,
}

/// A piece of text: the decoded string, and the bytes that it was decoded
/// from. Where the bytes are not well-formed, the string holds replacement
/// characters and only the bytes tell what the class file held.
#[derive(Clone, Debug, PartialEq, Eq)]
pub struct Utf8Constant {
    pub utf8_string: String,
    pub bytes: Vec<u8>,
}

/// The model of a [`Utf8Constant`].
pub ghost struct Utf8ConstantView {
    pub utf8_string: Seq<char>,
    pub bytes: Seq<u8>,
}

impl View for Utf8Constant {
    type V = Utf8ConstantView;

    open spec fn view(&self) -> Utf8ConstantView {
        Utf8ConstantView { utf8_string: self.utf8_string@, bytes: self.bytes@ }
    }
}

/// A 32-bit integer constant.
#[derive(Clone, Copy, Debug, PartialEq, Eq)]
pub struct IntegerConstant {
    pub value: i32,
}

/// A single-precision constant, held as the 32 bits of its IEEE 754
/// encoding.
#[derive(Clone, Copy, Debug, PartialEq, Eq)]
pub struct FloatConstant {
    pub bits: u32,
}

/// A 64-bit integer constant. It takes up two indices of the pool.
#[derive(Clone, Copy, Debug, PartialEq, Eq)]
pub struct LongConstant {
    pub value: i64,
}

/// A double-precision constant, held as the 64 bits of its IEEE 754
/// encoding. It takes up two indices of the pool.
#[derive(Clone, Copy, Debug, PartialEq, Eq)]
pub struct DoubleConstant {
    pub bits: u64,
}

/// A class or interface, by the index of its name.
#[derive(Clone, Copy, Debug, PartialEq, Eq)]
pub struct ClassConstant {
    pub name_index: u16,
}

/// A string literal, by the index of its text.
#[derive(Clone, Copy, Debug, PartialEq, Eq)]
pub struct StringConstant {
    pub string_index: u16,
}

/// A field, by the indices of its class and of its name and type.
#[derive(Clone, Copy, Debug, PartialEq, Eq)]
pub struct FieldRefConstant {
    pub class_index: u16,
    pub name_and_type_index: u16,
}

/// A method of a class, by the indices of its class and of its name and type.
#[derive(Clone, Copy, Debug, PartialEq, Eq)]
pub struct MethodRefConstant {
    pub class_index: u16,
    pub name_and_type_index: u16,
}

/// A method of an interface, by the indices of its interface and of its name
/// and type.
#[derive(Clone, Copy, Debug, PartialEq, Eq)]
pub struct InterfaceMethodRefConstant {
    pub class_index: u16,
    pub name_and_type_index: u16,
}

/// A name and a descriptor, by their indices.
#[derive(Clone, Copy, Debug, PartialEq, Eq)]
pub struct NameAndTypeConstant {
    pub name_index: u16,
    pub descriptor_index: u16,
}

/// A method handle: the kind of the reference and the index of the field or
/// method that it refers to.
#[derive(Clone, Copy, Debug, PartialEq, Eq)]
pub struct MethodHandleConstant {
    pub reference_kind: u8,
    pub reference_index: u16,
}

/// A method type, by the index of its descriptor.
#[derive(Clone, Copy, Debug, PartialEq, Eq)]
pub struct MethodTypeConstant {
    pub descriptor_index: u16,
}

/// A dynamic call site: the index of its bootstrap method in the
/// `BootstrapMethods` attribute, and the index of its name and type.
#[derive(Clone, Copy, Debug, PartialEq, Eq)]
pub struct InvokeDynamicConstant {
    pub bootstrap_method_attr_index: u16,
    pub name_and_type_index: u16,
}

} // verus!
