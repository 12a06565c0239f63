//! Decoding of bytecode and of the attributes that go with it.

pub mod laws;
pub mod opcodes;
pub mod parser;
pub mod types;

pub use self::parser::{
    code_parser, instruction_parser, local_variable_table_parser, variable_table_item_parser,
};
pub use self::types::{
    Instruction, InstructionView, LocalVariableTableAttribute, LocalVariableTableAttributeView,
    LocalVariableTableItem,
};
