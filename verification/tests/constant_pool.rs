//! The decoder of the constant pool.

use classfile_parser::constant_info::{
    const_block_parser, constant_at, constant_parser, single_constant_parser, utf8_constant,
    utf8_constant_from, ClassConstant, ConstantInfo, DoubleConstant, FieldRefConstant,
    FloatConstant, IntegerConstant, InterfaceMethodRefConstant, InvokeDynamicConstant,
    LongConstant, LookupError, MethodHandleConstant, MethodRefConstant, MethodTypeConstant,
    NameAndTypeConstant, StringConstant, Utf8Constant,
};
use classfile_parser::ParseError;

fn text(string: &str, bytes: &[u8]) -> ConstantInfo {
    ConstantInfo::Utf8(Utf8Constant { utf8_string: string.to_string(), bytes: bytes.to_vec() })
}

#[test]
fn every_tag_decodes_to_its_entry() {
    let cases: Vec<(Vec<u8>, ConstantInfo)> = vec![
        (vec![1, 0, 2, b'h', b'i'], text("hi", b"hi")),
        (vec![1, 0, 0], text("", b"")),
        (vec![3, 0xff, 0xff, 0xff, 0xfe], ConstantInfo::Integer(IntegerConstant { value: -2 })),
        (vec![4, 0x3f, 0xc0, 0x00, 0x00], ConstantInfo::Float(FloatConstant { bits: 0x3fc0_0000 })),
        (
            vec![5, 0x80, 0, 0, 0, 0, 0, 0, 1],
            ConstantInfo::Long(LongConstant { value: i64::MIN + 1 }),
        ),
        (
            vec![6, 0x40, 0x09, 0x21, 0xfb, 0x54, 0x44, 0x2d, 0x18],
            ConstantInfo::Double(DoubleConstant { bits: 0x4009_21fb_5444_2d18 }),
        ),
        (vec![7, 0x01, 0x02], ConstantInfo::Class(ClassConstant { name_index: 0x0102 })),
        (vec![8, 0x00, 0x03], ConstantInfo::String(StringConstant { string_index: 3 })),
        (
            vec![9, 0, 1, 0, 2],
            ConstantInfo::FieldRef(FieldRefConstant { class_index: 1, name_and_type_index: 2 }),
        ),
        (
            vec![10, 0, 3, 0, 4],
            ConstantInfo::MethodRef(MethodRefConstant { class_index: 3, name_and_type_index: 4 }),
        ),
        (
            vec![11, 0, 5, 0, 6],
            ConstantInfo::InterfaceMethodRef(InterfaceMethodRefConstant {
                class_index: 5,
                name_and_type_index: 6,
            }),
        ),
        (
            vec![12, 0, 7, 0, 8],
            ConstantInfo::NameAndType(NameAndTypeConstant { name_index: 7, descriptor_index: 8 }),
        ),
        (
            vec![15, 6, 0, 9],
            ConstantInfo::MethodHandle(MethodHandleConstant {
                reference_kind: 6,
                reference_index: 9,
            }),
        ),
        (vec![16, 0, 10], ConstantInfo::MethodType(MethodTypeConstant { descriptor_index: 10 })),
        (
            vec![18, 0, 11, 0, 12],
            ConstantInfo::InvokeDynamic(InvokeDynamicConstant {
                bootstrap_method_attr_index: 11,
                name_and_type_index: 12,
            }),
        ),
    ];
    for (bytes, entry) in cases {
        let mut input = bytes.clone();
        input.push(0xee);
        assert_eq!(single_constant_parser(&input), Ok((&[0xeeu8][..], entry.clone())));
        assert_eq!(const_block_parser(&input[1..], input[0]), Ok((&[0xeeu8][..], entry)));
        // without its last byte the entry is not there in full
        let short = &bytes[..bytes.len() - 1];
        assert_eq!(single_constant_parser(short), Err(ParseError::InsufficientInput));
    }
}

#[test]
fn floats_are_kept_as_their_bits() {
    let (_, single) = single_constant_parser(&[4, 0x3f, 0xc0, 0x00, 0x00]).unwrap();
    match single {
        ConstantInfo::Float(c) => assert_eq!(f32::from_bits(c.bits), 1.5),
        other => panic!("not a float: {:?}", other),
    }
    let (_, double) = single_constant_parser(&[6, 0xc0, 0x04, 0, 0, 0, 0, 0, 0]).unwrap();
    match double {
        ConstantInfo::Double(c) => assert_eq!(f64::from_bits(c.bits), -2.5),
        other => panic!("not a double: {:?}", other),
    }
    // a NaN keeps its payload
    let (_, nan) = single_constant_parser(&[4, 0x7f, 0xc0, 0x12, 0x34]).unwrap();
    assert_eq!(nan, ConstantInfo::Float(FloatConstant { bits: 0x7fc0_1234 }));
}

#[test]
fn unknown_tags_are_invalid() {
    for tag in 0..=255u8 {
        let known = matches!(tag, 1 | 3..=12 | 15 | 16 | 18);
        let input = [tag, 0, 0, 0, 0, 0, 0, 0, 0];
        assert_eq!(single_constant_parser(&input).is_ok(), known, "tag {}", tag);
        if !known {
            assert_eq!(single_constant_parser(&input), Err(ParseError::InvalidDiscriminant));
            assert_eq!(single_constant_parser(&[tag]), Err(ParseError::InvalidDiscriminant));
            assert_eq!(const_block_parser(&[], tag), Err(ParseError::InvalidDiscriminant));
        }
    }
    assert_eq!(single_constant_parser(&[]), Err(ParseError::InsufficientInput));
}

#[test]
fn a_wide_entry_is_followed_by_an_unusable_slot() {
    let input = [
        vec![5, 0, 0, 0, 0, 0, 0, 0, 9],
        vec![3, 0, 0, 0, 7],
        vec![6, 0, 0, 0, 0, 0, 0, 0, 0],
        vec![7, 0, 1],
        vec![0xca],
    ]
    .concat();
    let (rest, pool) = constant_parser(&input, 6).unwrap();
    assert_eq!(rest, &[0xca]);
    assert_eq!(
        pool,
        vec![
            ConstantInfo::Long(LongConstant { value: 9 }),
            ConstantInfo::Unusable,
            ConstantInfo::Integer(IntegerConstant { value: 7 }),
            ConstantInfo::Double(DoubleConstant { bits: 0 }),
            ConstantInfo::Unusable,
            ConstantInfo::Class(ClassConstant { name_index: 1 }),
        ]
    );
}

#[test]
fn a_pool_of_one_long_has_two_slots() {
    let input = [5, 0, 0, 0, 0, 0, 0, 0, 1, 3, 0, 0, 0, 2];
    let long = ConstantInfo::Long(LongConstant { value: 1 });
    assert_eq!(
        constant_parser(&input, 2),
        Ok((&[3u8, 0, 0, 0, 2][..], vec![long.clone(), ConstantInfo::Unusable]))
    );
    // where one index is asked for and the entry is wide, it still fills two
    assert_eq!(
        constant_parser(&input, 1),
        Ok((&[3u8, 0, 0, 0, 2][..], vec![long.clone(), ConstantInfo::Unusable]))
    );
    assert_eq!(
        constant_parser(&input, 3),
        Ok((
            &[][..],
            vec![long, ConstantInfo::Unusable, ConstantInfo::Integer(IntegerConstant { value: 2 })]
        ))
    );
    assert_eq!(constant_parser(&input, 4), Err(ParseError::InsufficientInput));
}

#[test]
fn an_empty_pool_takes_no_input() {
    assert_eq!(constant_parser(&[1, 2, 3], 0), Ok((&[1u8, 2, 3][..], vec![])));
    assert_eq!(constant_parser(&[], 0), Ok((&[][..], vec![])));
    assert_eq!(constant_parser(&[], 1), Err(ParseError::InsufficientInput));
}

#[test]
fn a_failure_at_any_entry_fails_the_pool() {
    let input = [vec![3, 0, 0, 0, 7], vec![2, 0, 0], vec![3, 0, 0, 0, 8]].concat();
    assert_eq!(constant_parser(&input, 3), Err(ParseError::InvalidDiscriminant));
    assert_eq!(constant_parser(&input, 2), Err(ParseError::InvalidDiscriminant));
    assert_eq!(
        constant_parser(&input, 1),
        Ok((&input[5..], vec![ConstantInfo::Integer(IntegerConstant { value: 7 })]))
    );
    assert_eq!(constant_parser(&[3, 0, 0, 0, 7, 3, 0], 2), Err(ParseError::InsufficientInput));
    assert_eq!(constant_parser(&[1, 0, 4, b'a'], usize::MAX), Err(ParseError::InsufficientInput));
}

#[test]
fn text_is_decoded_from_the_modified_encoding() {
    // U+0000 as C0 80, and U+10401 as a pair of surrogates
    assert_eq!(
        utf8_constant(&[0x61, 0xC0, 0x80, 0x62]),
        Utf8Constant { utf8_string: "a\0b".to_string(), bytes: vec![0x61, 0xC0, 0x80, 0x62] }
    );
    assert_eq!(
        utf8_constant(&[0xED, 0xA0, 0x81, 0xED, 0xB0, 0x81]),
        Utf8Constant {
            utf8_string: "\u{10401}".to_string(),
            bytes: vec![0xED, 0xA0, 0x81, 0xED, 0xB0, 0x81]
        }
    );
    assert_eq!(
        utf8_constant("aé日".as_bytes()),
        Utf8Constant { utf8_string: "aé日".to_string(), bytes: "aé日".as_bytes().to_vec() }
    );
    assert_eq!(utf8_constant(&[]), Utf8Constant { utf8_string: String::new(), bytes: vec![] });
}

#[test]
fn malformed_text_is_decoded_lossily_and_keeps_its_bytes() {
    let unpaired = [0x58, 0xED, 0xA0, 0x80, 0x58];
    let entry = [vec![1, 0, 5], unpaired.to_vec(), vec![0x07]].concat();
    let (rest, constant) = single_constant_parser(&entry).unwrap();
    assert_eq!(rest, &[0x07]);
    match constant {
        ConstantInfo::Utf8(c) => {
            assert_eq!(c.utf8_string, "X\u{fffd}\u{fffd}\u{fffd}X");
            assert_eq!(c.bytes, unpaired);
        }
        other => panic!("not text: {:?}", other),
    }
    // a continuation byte that continues nothing, and a sequence cut short
    assert_eq!(utf8_constant(&[0x80]).utf8_string, "\u{fffd}");
    assert_eq!(utf8_constant(&[0x80]).bytes, vec![0x80]);
    assert_eq!(utf8_constant(&[0x41, 0xE6, 0x97]).utf8_string, "A\u{fffd}");
    assert_eq!(utf8_constant(&[0x41, 0xE6, 0x97]).bytes, vec![0x41, 0xE6, 0x97]);
    // four-byte sequences are no modified UTF-8, but they are UTF-8
    assert_eq!(utf8_constant("\u{10401}".as_bytes()).utf8_string, "\u{10401}");
}

#[test]
fn a_constant_is_built_from_what_the_strict_decoder_made() {
    assert_eq!(
        utf8_constant_from(Some("given".to_string()), &[1, 2, 3]),
        Utf8Constant { utf8_string: "given".to_string(), bytes: vec![1, 2, 3] }
    );
    assert_eq!(
        utf8_constant_from(None, &[0x41, 0xff]),
        Utf8Constant { utf8_string: "A\u{fffd}".to_string(), bytes: vec![0x41, 0xff] }
    );
    assert_eq!(
        utf8_constant_from(None, b"plain"),
        Utf8Constant { utf8_string: "plain".to_string(), bytes: b"plain".to_vec() }
    );
}

#[test]
fn text_of_the_greatest_length_decodes() {
    let mut entry = vec![1, 0xff, 0xff];
    entry.extend(std::iter::repeat(b'x').take(0xffff));
    let (rest, constant) = single_constant_parser(&entry).unwrap();
    assert!(rest.is_empty());
    match constant {
        ConstantInfo::Utf8(c) => {
            assert_eq!(c.bytes.len(), 0xffff);
            assert_eq!(c.utf8_string.len(), 0xffff);
        }
        other => panic!("not text: {:?}", other),
    }
    entry.pop();
    assert_eq!(single_constant_parser(&entry), Err(ParseError::InsufficientInput));
}

#[test]
fn indices_count_from_one_and_skip_unusable_slots() {
    let pool = vec![
        ConstantInfo::Long(LongConstant { value: 1 }),
        ConstantInfo::Unusable,
        ConstantInfo::Integer(IntegerConstant { value: 2 }),
    ];
    assert_eq!(constant_at(&pool, 0), Err(LookupError::NoSuchIndex));
    assert_eq!(constant_at(&pool, 1), Ok(&pool[0]));
    assert_eq!(constant_at(&pool, 2), Err(LookupError::UnusableSlot));
    assert_eq!(constant_at(&pool, 3), Ok(&pool[2]));
    assert_eq!(constant_at(&pool, 4), Err(LookupError::NoSuchIndex));
    assert_eq!(constant_at(&pool, u16::MAX), Err(LookupError::NoSuchIndex));
    assert_eq!(constant_at(&vec![], 1), Err(LookupError::NoSuchIndex));
}
