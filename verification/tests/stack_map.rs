//! The decoder of stack map frames.

use classfile_parser::attribute_info::{
    same_locals_1_stack_item_frame_parser, stack_frame_parser, stack_map_frame_entry_parser,
    stack_map_table_attribute_parser, verification_type_parser, StackMapFrame,
    StackMapTableAttribute, VerificationTypeInfo,
};
use classfile_parser::ParseError;

#[test]
fn the_type_byte_decides_the_shape() {
    assert_eq!(
        stack_map_frame_entry_parser(&[5, 0xaa]),
        Ok((&[0xaau8][..], StackMapFrame::SameFrame { frame_type: 5 }))
    );
    // one verification type, here that of an object, and no more
    assert_eq!(
        stack_map_frame_entry_parser(&[70, 7, 0x00, 0x09, 1, 1]),
        Ok((
            &[1u8, 1][..],
            StackMapFrame::SameLocals1StackItemFrame {
                frame_type: 70,
                stack: VerificationTypeInfo::Object { class: 9 }
            }
        ))
    );
    assert_eq!(
        stack_map_frame_entry_parser(&[200, 0, 0, 0, 0]),
        Err(ParseError::InvalidDiscriminant)
    );
}

#[test]
fn every_type_byte_has_its_shape() {
    // an input that is enough for every shape: an offset, then two counts
    // of one with the type of an int after each
    let operands = [0x01, 0x02, 0x00, 0x01, 0x01, 0x00, 0x01, 0x01, 0x01];
    for frame_type in 0..=255u8 {
        let result = stack_frame_parser(&operands, frame_type);
        match frame_type {
            0..=63 => assert_eq!(
                result,
                Ok((&operands[..], StackMapFrame::SameFrame { frame_type }))
            ),
            64..=127 => assert_eq!(
                result,
                Ok((
                    &operands[1..],
                    StackMapFrame::SameLocals1StackItemFrame {
                        frame_type,
                        stack: VerificationTypeInfo::Integer
                    }
                ))
            ),
            128..=246 => assert_eq!(result, Err(ParseError::InvalidDiscriminant)),
            247 => assert_eq!(
                result,
                Ok((
                    &operands[3..],
                    StackMapFrame::SameLocals1StackItemFrameExtended {
                        frame_type,
                        offset_delta: 0x0102,
                        stack: VerificationTypeInfo::Top
                    }
                ))
            ),
            248..=250 => assert_eq!(
                result,
                Ok((&operands[2..], StackMapFrame::ChopFrame { frame_type, offset_delta: 0x0102 }))
            ),
            251 => assert_eq!(
                result,
                Ok((
                    &operands[2..],
                    StackMapFrame::SameFrameExtended { frame_type, offset_delta: 0x0102 }
                ))
            ),
            252..=254 => {
                let all = [
                    VerificationTypeInfo::Top,
                    VerificationTypeInfo::Integer,
                    VerificationTypeInfo::Integer,
                ];
                let count = (frame_type - 251) as usize;
                assert_eq!(
                    result,
                    Ok((
                        &operands[2 + count..],
                        StackMapFrame::AppendFrame {
                            frame_type,
                            offset_delta: 0x0102,
                            locals: all[..count].to_vec()
                        }
                    ))
                );
            }
            255 => assert_eq!(
                result,
                Ok((
                    &operands[8..],
                    StackMapFrame::FullFrame {
                        frame_type,
                        offset_delta: 0x0102,
                        number_of_locals: 1,
                        locals: vec![VerificationTypeInfo::Integer],
                        number_of_stack_items: 1,
                        stack: vec![VerificationTypeInfo::Integer],
                    }
                ))
            ),
        }
    }
}

#[test]
fn reserved_types_fail_whatever_follows() {
    for frame_type in 128..=246u8 {
        assert_eq!(stack_frame_parser(&[], frame_type), Err(ParseError::InvalidDiscriminant));
        assert_eq!(
            stack_map_frame_entry_parser(&[frame_type, 1, 2, 3]),
            Err(ParseError::InvalidDiscriminant)
        );
    }
}

#[test]
fn frames_that_end_early_are_insufficient() {
    assert_eq!(stack_map_frame_entry_parser(&[]), Err(ParseError::InsufficientInput));
    assert_eq!(stack_map_frame_entry_parser(&[64]), Err(ParseError::InsufficientInput));
    assert_eq!(stack_map_frame_entry_parser(&[64, 7, 0]), Err(ParseError::InsufficientInput));
    assert_eq!(stack_map_frame_entry_parser(&[247, 0]), Err(ParseError::InsufficientInput));
    assert_eq!(stack_map_frame_entry_parser(&[247, 0, 1]), Err(ParseError::InsufficientInput));
    assert_eq!(stack_map_frame_entry_parser(&[248, 0]), Err(ParseError::InsufficientInput));
    assert_eq!(stack_map_frame_entry_parser(&[251]), Err(ParseError::InsufficientInput));
    assert_eq!(stack_map_frame_entry_parser(&[253, 0, 1, 1]), Err(ParseError::InsufficientInput));
    assert_eq!(
        stack_map_frame_entry_parser(&[255, 0, 1, 0, 1, 1, 0, 2, 1]),
        Err(ParseError::InsufficientInput)
    );
    // a wrong verification type within a frame
    assert_eq!(stack_map_frame_entry_parser(&[64, 9]), Err(ParseError::InvalidDiscriminant));
    assert_eq!(
        stack_map_frame_entry_parser(&[254, 0, 1, 1, 2, 0x10]),
        Err(ParseError::InvalidDiscriminant)
    );
}

#[test]
fn verification_types_are_told_apart_by_their_tag() {
    let plain = [
        VerificationTypeInfo::Top,
        VerificationTypeInfo::Integer,
        VerificationTypeInfo::Float,
        VerificationTypeInfo::Double,
        VerificationTypeInfo::Long,
        VerificationTypeInfo::Null,
        VerificationTypeInfo::UninitializedThis,
    ];
    for (tag, expected) in plain.iter().enumerate() {
        assert_eq!(
            verification_type_parser(&[tag as u8, 0xbb]),
            Ok((&[0xbbu8][..], *expected))
        );
    }
    assert_eq!(
        verification_type_parser(&[7, 0x12, 0x34, 0xbb]),
        Ok((&[0xbbu8][..], VerificationTypeInfo::Object { class: 0x1234 }))
    );
    assert_eq!(
        verification_type_parser(&[8, 0xff, 0xff]),
        Ok((&[][..], VerificationTypeInfo::Uninitialized { offset: 0xffff }))
    );
    for tag in 9..=255u8 {
        assert_eq!(verification_type_parser(&[tag, 0, 0]), Err(ParseError::InvalidDiscriminant));
    }
    assert_eq!(verification_type_parser(&[]), Err(ParseError::InsufficientInput));
    assert_eq!(verification_type_parser(&[7]), Err(ParseError::InsufficientInput));
    assert_eq!(verification_type_parser(&[8, 0]), Err(ParseError::InsufficientInput));
}

#[test]
fn the_frame_takes_the_type_that_it_is_given() {
    assert_eq!(
        same_locals_1_stack_item_frame_parser(&[4, 0xcc], 64),
        Ok((
            &[0xccu8][..],
            StackMapFrame::SameLocals1StackItemFrame {
                frame_type: 64,
                stack: VerificationTypeInfo::Long
            }
        ))
    );
    assert_eq!(
        same_locals_1_stack_item_frame_parser(&[8, 0, 3], 127),
        Ok((
            &[][..],
            StackMapFrame::SameLocals1StackItemFrame {
                frame_type: 127,
                stack: VerificationTypeInfo::Uninitialized { offset: 3 }
            }
        ))
    );
    assert_eq!(same_locals_1_stack_item_frame_parser(&[], 64), Err(ParseError::InsufficientInput));
    assert_eq!(
        same_locals_1_stack_item_frame_parser(&[9], 64),
        Err(ParseError::InvalidDiscriminant)
    );
}

#[test]
fn a_table_is_its_counted_frames() {
    let input = [0, 3, 10, 251, 0, 20, 252, 0, 1, 7, 0, 2, 0xdd];
    assert_eq!(
        stack_map_table_attribute_parser(&input),
        Ok((
            &[0xddu8][..],
            StackMapTableAttribute {
                number_of_entries: 3,
                entries: vec![
                    StackMapFrame::SameFrame { frame_type: 10 },
                    StackMapFrame::SameFrameExtended { frame_type: 251, offset_delta: 20 },
                    StackMapFrame::AppendFrame {
                        frame_type: 252,
                        offset_delta: 1,
                        locals: vec![VerificationTypeInfo::Object { class: 2 }]
                    },
                ]
            }
        ))
    );
    assert_eq!(
        stack_map_table_attribute_parser(&[0, 0]),
        Ok((&[][..], StackMapTableAttribute { number_of_entries: 0, entries: vec![] }))
    );
    assert_eq!(stack_map_table_attribute_parser(&[0, 2, 10]), Err(ParseError::InsufficientInput));
    assert_eq!(
        stack_map_table_attribute_parser(&[0, 2, 10, 130]),
        Err(ParseError::InvalidDiscriminant)
    );
    assert_eq!(stack_map_table_attribute_parser(&[0]), Err(ParseError::InsufficientInput));
}
