//! A decoder for Java class files.
//!
//! [`class_parser`] decodes a byte buffer to a [`ClassFile`]: the constant
//! pool, the access flags, the class indices, and the interfaces, fields,
//! methods and attributes of the class. Attributes are kept as bytes; the
//! decoders of [`attribute_info`] and [`code_attribute`] read the payloads
//! of the attributes that they know, and [`code_attribute::code_parser`]
//! reads the bytecode of a method. Nothing is resolved, checked against the
//! pool or executed, and nothing is ever encoded.
//!
//! Every decoder is a function of its input alone. It takes the bytes that
//! remain and returns the bytes that remain behind what it has read together
//! with the value, or a [`ParseError`]: the first read that runs out of
//! input, or the first byte that the format does not allow at its place,
//! ends the decoding. The one thing that is mended rather than refused is
//! text that is not well-formed, which is decoded lossily beside its bytes.
//!
//! Every decoder has a specification function over `Seq<u8>` that says what
//! it returns on every input, and is proved to return exactly that. The
//! read primitives are in [`cursor`], the decoders of lists in [`list`].

pub mod attribute_info;
pub mod code_attribute;
pub mod constant_info;
pub mod cursor;
pub mod field_info;
pub mod list;
pub mod method_info;
pub mod parser;
pub mod types;

pub use cursor::ParseError;
pub use parser::class_parser;
pub use types::{ClassAccessFlags, ClassFile, ClassFileView};
