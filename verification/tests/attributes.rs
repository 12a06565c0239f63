//! The decoders of attributes and of their payloads.

use classfile_parser::attribute_info::{
    attribute_parser, bootstrap_method_parser, bootstrap_methods_attribute_parser,
    code_attribute_parser, constant_value_attribute_parser, exception_entry_parser,
    exceptions_attribute_parser, method_parameters_attribute_parser, parameters_parser,
    sourcefile_attribute_parser, AttributeInfo, BootstrapMethod, BootstrapMethodsAttribute,
    CodeAttribute, ConstantValueAttribute, ExceptionEntry, ExceptionsAttribute,
    MethodParametersAttribute, ParameterAttribute, SourceFileAttribute,
};
use classfile_parser::code_attribute::{
    local_variable_table_parser, variable_table_item_parser, LocalVariableTableAttribute,
    LocalVariableTableItem,
};
use classfile_parser::ParseError;

#[test]
fn an_attribute_keeps_its_payload_whatever_its_name() {
    let input = [0x12, 0x34, 0, 0, 0, 3, 0xa, 0xb, 0xc, 0xd];
    assert_eq!(
        attribute_parser(&input),
        Ok((
            &[0xdu8][..],
            AttributeInfo {
                attribute_name_index: 0x1234,
                attribute_length: 3,
                info: vec![0xa, 0xb, 0xc]
            }
        ))
    );
    assert_eq!(
        attribute_parser(&[0, 0, 0, 0, 0, 0]),
        Ok((&[][..], AttributeInfo { attribute_name_index: 0, attribute_length: 0, info: vec![] }))
    );
}

#[test]
fn an_attribute_that_ends_early_is_insufficient() {
    assert_eq!(attribute_parser(&[]), Err(ParseError::InsufficientInput));
    assert_eq!(attribute_parser(&[0, 1]), Err(ParseError::InsufficientInput));
    assert_eq!(attribute_parser(&[0, 1, 0, 0, 0]), Err(ParseError::InsufficientInput));
    assert_eq!(attribute_parser(&[0, 1, 0, 0, 0, 2, 9]), Err(ParseError::InsufficientInput));
    assert_eq!(
        attribute_parser(&[0, 1, 0xff, 0xff, 0xff, 0xff, 9]),
        Err(ParseError::InsufficientInput)
    );
}

#[test]
fn a_code_attribute_holds_code_handlers_and_attributes() {
    let input = [
        vec![0, 2, 0, 3],
        vec![0, 0, 0, 4, 0x2a, 0xb7, 0x00, 0x01],
        vec![0, 2],
        vec![0, 0, 0, 4, 0, 4, 0, 5],
        vec![0, 1, 0, 3, 0, 2, 0, 0],
        vec![0, 1],
        vec![0, 9, 0, 0, 0, 2, 0xaa, 0xbb],
        vec![0x77],
    ]
    .concat();
    assert_eq!(
        code_attribute_parser(&input),
        Ok((
            &[0x77u8][..],
            CodeAttribute {
                max_stack: 2,
                max_locals: 3,
                code_length: 4,
                code: vec![0x2a, 0xb7, 0x00, 0x01],
                exception_table_length: 2,
                exception_table: vec![
                    ExceptionEntry { start_pc: 0, end_pc: 4, handler_pc: 4, catch_type: 5 },
                    ExceptionEntry { start_pc: 1, end_pc: 3, handler_pc: 2, catch_type: 0 },
                ],
                attributes_count: 1,
                attributes: vec![AttributeInfo {
                    attribute_name_index: 9,
                    attribute_length: 2,
                    info: vec![0xaa, 0xbb]
                }],
            }
        ))
    );
    // every proper prefix of it ends early
    for len in 0..input.len() - 1 {
        assert_eq!(code_attribute_parser(&input[..len]), Err(ParseError::InsufficientInput));
    }
}

#[test]
fn an_empty_code_attribute_decodes() {
    assert_eq!(
        code_attribute_parser(&[0, 0, 0, 0, 0, 0, 0, 0, 0, 0, 0, 0]),
        Ok((
            &[][..],
            CodeAttribute {
                max_stack: 0,
                max_locals: 0,
                code_length: 0,
                code: vec![],
                exception_table_length: 0,
                exception_table: vec![],
                attributes_count: 0,
                attributes: vec![],
            }
        ))
    );
}

#[test]
fn fixed_records_are_read_field_by_field() {
    assert_eq!(
        exception_entry_parser(&[0, 1, 0, 2, 0, 3, 0, 4, 5]),
        Ok((&[5u8][..], ExceptionEntry { start_pc: 1, end_pc: 2, handler_pc: 3, catch_type: 4 }))
    );
    assert_eq!(exception_entry_parser(&[0, 1, 0, 2, 0, 3, 0]), Err(ParseError::InsufficientInput));
    assert_eq!(
        parameters_parser(&[0, 7, 0x80, 0x10]),
        Ok((&[][..], ParameterAttribute { name_index: 7, access_flags: 0x8010 }))
    );
    assert_eq!(parameters_parser(&[0, 7, 0x80]), Err(ParseError::InsufficientInput));
    assert_eq!(
        variable_table_item_parser(&[0, 1, 0, 2, 0, 3, 0, 4, 0, 5]),
        Ok((
            &[][..],
            LocalVariableTableItem {
                start_pc: 1,
                length: 2,
                name_index: 3,
                descriptor_index: 4,
                index: 5
            }
        ))
    );
    assert_eq!(
        variable_table_item_parser(&[0, 1, 0, 2, 0, 3, 0, 4, 0]),
        Err(ParseError::InsufficientInput)
    );
    assert_eq!(
        constant_value_attribute_parser(&[0x01, 0x00]),
        Ok((&[][..], ConstantValueAttribute { constant_value_index: 256 }))
    );
    assert_eq!(constant_value_attribute_parser(&[1]), Err(ParseError::InsufficientInput));
    assert_eq!(
        sourcefile_attribute_parser(&[0x00, 0x11, 3]),
        Ok((&[3u8][..], SourceFileAttribute { sourcefile_index: 17 }))
    );
    assert_eq!(sourcefile_attribute_parser(&[]), Err(ParseError::InsufficientInput));
}

#[test]
fn method_parameters_are_counted_by_one_byte() {
    assert_eq!(
        method_parameters_attribute_parser(&[2, 0, 1, 0, 0x10, 0, 2, 0, 0, 9]),
        Ok((
            &[9u8][..],
            MethodParametersAttribute {
                parameters_count: 2,
                parameters: vec![
                    ParameterAttribute { name_index: 1, access_flags: 0x10 },
                    ParameterAttribute { name_index: 2, access_flags: 0 },
                ]
            }
        ))
    );
    assert_eq!(
        method_parameters_attribute_parser(&[0]),
        Ok((&[][..], MethodParametersAttribute { parameters_count: 0, parameters: vec![] }))
    );
    assert_eq!(method_parameters_attribute_parser(&[]), Err(ParseError::InsufficientInput));
    assert_eq!(
        method_parameters_attribute_parser(&[2, 0, 1, 0, 0]),
        Err(ParseError::InsufficientInput)
    );
    let mut many = vec![255u8];
    many.extend(std::iter::repeat(0).take(255 * 4));
    let (rest, parameters) = method_parameters_attribute_parser(&many).unwrap();
    assert!(rest.is_empty());
    assert_eq!(parameters.parameters.len(), 255);
}

#[test]
fn declared_exceptions_are_counted_indices() {
    assert_eq!(
        exceptions_attribute_parser(&[0, 2, 0, 5, 0x01, 0x00]),
        Ok((
            &[][..],
            ExceptionsAttribute { exception_table_length: 2, exception_table: vec![5, 256] }
        ))
    );
    assert_eq!(exceptions_attribute_parser(&[0, 2, 0, 5, 1]), Err(ParseError::InsufficientInput));
    assert_eq!(exceptions_attribute_parser(&[0]), Err(ParseError::InsufficientInput));
}

#[test]
fn bootstrap_methods_hold_their_counted_arguments() {
    assert_eq!(
        bootstrap_method_parser(&[0, 9, 0, 3, 0, 1, 0, 2, 0, 3, 7]),
        Ok((
            &[7u8][..],
            BootstrapMethod {
                bootstrap_method_ref: 9,
                num_bootstrap_arguments: 3,
                bootstrap_arguments: vec![1, 2, 3]
            }
        ))
    );
    assert_eq!(
        bootstrap_methods_attribute_parser(&[0, 2, 0, 9, 0, 1, 0, 5, 0, 8, 0, 0]),
        Ok((
            &[][..],
            BootstrapMethodsAttribute {
                num_bootstrap_methods: 2,
                bootstrap_methods: vec![
                    BootstrapMethod {
                        bootstrap_method_ref: 9,
                        num_bootstrap_arguments: 1,
                        bootstrap_arguments: vec![5]
                    },
                    BootstrapMethod {
                        bootstrap_method_ref: 8,
                        num_bootstrap_arguments: 0,
                        bootstrap_arguments: vec![]
                    },
                ]
            }
        ))
    );
    assert_eq!(bootstrap_method_parser(&[0, 9, 0, 2, 0, 1]), Err(ParseError::InsufficientInput));
    assert_eq!(
        bootstrap_methods_attribute_parser(&[0, 2, 0, 9, 0, 0]),
        Err(ParseError::InsufficientInput)
    );
}

#[test]
fn a_local_variable_table_is_its_counted_entries() {
    let input = [0, 1, 0, 0, 0, 9, 0, 4, 0, 5, 0, 1];
    assert_eq!(
        local_variable_table_parser(&input),
        Ok((
            &[][..],
            LocalVariableTableAttribute {
                local_variable_table_length: 1,
                items: vec![LocalVariableTableItem {
                    start_pc: 0,
                    length: 9,
                    name_index: 4,
                    descriptor_index: 5,
                    index: 1
                }]
            }
        ))
    );
    assert_eq!(local_variable_table_parser(&input[..11]), Err(ParseError::InsufficientInput));
    assert_eq!(
        local_variable_table_parser(&[0, 0, 1]),
        Ok((
            &[1u8][..],
            LocalVariableTableAttribute { local_variable_table_length: 0, items: vec![] }
        ))
    );
}
