//! Attributes: the generic container and the payloads with a known shape.

pub mod parser;
pub mod types;

pub use self::parser::{
    attribute_parser, bootstrap_method_parser, bootstrap_methods_attribute_parser,
    code_attribute_parser, constant_value_attribute_parser, exception_entry_parser,
    exceptions_attribute_parser, method_parameters_attribute_parser, parameters_parser,
    same_locals_1_stack_item_frame_parser, sourcefile_attribute_parser, stack_frame_parser,
    stack_map_frame_entry_parser, stack_map_table_attribute_parser, verification_type_parser,
};
pub use self::types::{
    AttributeInfo, AttributeInfoView, BootstrapMethod, BootstrapMethodView,
    BootstrapMethodsAttribute, BootstrapMethodsAttributeView, CodeAttribute, CodeAttributeView,
    ConstantValueAttribute, ExceptionEntry, ExceptionsAttribute, ExceptionsAttributeView,
    MethodParametersAttribute, MethodParametersAttributeView, ParameterAttribute,
    SourceFileAttribute, StackMapFrame, StackMapFrameView, StackMapTableAttribute,
    StackMapTableAttributeView, VerificationTypeInfo,
};
