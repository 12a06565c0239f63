//! The constant pool: the table of literals and symbolic references that
//! the rest of a class file points into.

pub mod parser;
pub mod types;

pub use self::parser::{
    const_block_parser, constant_at, constant_parser, single_constant_parser, utf8_constant,
    utf8_constant_from,
};
pub use self::types::{
    ClassConstant, ConstantInfo, ConstantInfoView, DoubleConstant, FieldRefConstant, FloatConstant,
    IntegerConstant, InterfaceMethodRefConstant, InvokeDynamicConstant, LongConstant, LookupError,
    MethodHandleConstant, MethodRefConstant, MethodTypeConstant, NameAndTypeConstant,
    StringConstant, Utf8Constant, Utf8ConstantView,
};
