//! Fields.

pub mod parser;
pub mod types;

pub use self::parser::field_parser;
pub use self::types::{FieldAccessFlags, FieldInfo, FieldInfoView};
