//! Methods.

pub mod parser;
pub mod types;

pub use self::parser::method_parser;
pub use self::types::{MethodAccessFlags, MethodInfo, MethodInfoView};
