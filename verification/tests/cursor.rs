//! The byte readers and the list decoders, on chosen inputs and against
//! the readers of `nom`.

use classfile_parser::cursor::{
    be_i16, be_i32, be_i64, be_i8, be_u16, be_u32, be_u64, be_u8, tag, take,
};
use classfile_parser::list::{count, counted};
use classfile_parser::ParseError;

type NomError<'a> = nom::error::Error<&'a [u8]>;

const SAMPLES: [&[u8]; 12] = [
    &[],
    &[0x00],
    &[0x7f],
    &[0x80],
    &[0xff, 0xfe],
    &[0x80, 0x00, 0x01],
    &[0x12, 0x34, 0x56, 0x78],
    &[0xff, 0xff, 0xff, 0xff, 0x00],
    &[0x80, 0x00, 0x00, 0x00, 0x00, 0x00, 0x00],
    &[0x80, 0x00, 0x00, 0x00, 0x00, 0x00, 0x00, 0x00],
    &[0xff, 0xff, 0xff, 0xff, 0xff, 0xff, 0xff, 0xff, 0xaa],
    &[0x01, 0x23, 0x45, 0x67, 0x89, 0xab, 0xcd, 0xef, 0x10, 0x32],
];

#[test]
fn reads_exact_values() {
    assert_eq!(be_u8(&[0xab, 1]), Ok((&[1u8][..], 0xab)));
    assert_eq!(be_i8(&[0xff]), Ok((&[][..], -1)));
    assert_eq!(be_i8(&[0x80]), Ok((&[][..], i8::MIN)));
    assert_eq!(be_u16(&[0x12, 0x34, 9]), Ok((&[9u8][..], 0x1234)));
    assert_eq!(be_i16(&[0xff, 0xfe]), Ok((&[][..], -2)));
    assert_eq!(be_i16(&[0x80, 0x00]), Ok((&[][..], i16::MIN)));
    assert_eq!(be_u32(&[0x12, 0x34, 0x56, 0x78]), Ok((&[][..], 0x1234_5678)));
    assert_eq!(be_i32(&[0xff, 0xff, 0xff, 0xfd]), Ok((&[][..], -3)));
    assert_eq!(be_i32(&[0x80, 0, 0, 0]), Ok((&[][..], i32::MIN)));
    assert_eq!(
        be_u64(&[0x01, 0x23, 0x45, 0x67, 0x89, 0xab, 0xcd, 0xef]),
        Ok((&[][..], 0x0123_4567_89ab_cdef))
    );
    assert_eq!(be_i64(&[0xff; 8]), Ok((&[][..], -1)));
    assert_eq!(be_i64(&[0x80, 0, 0, 0, 0, 0, 0, 0]), Ok((&[][..], i64::MIN)));
    assert_eq!(be_i64(&[0x7f, 0xff, 0xff, 0xff, 0xff, 0xff, 0xff, 0xff]), Ok((&[][..], i64::MAX)));
}

#[test]
fn short_input_is_insufficient() {
    assert_eq!(be_u8(&[]), Err(ParseError::InsufficientInput));
    assert_eq!(be_i8(&[]), Err(ParseError::InsufficientInput));
    assert_eq!(be_u16(&[1]), Err(ParseError::InsufficientInput));
    assert_eq!(be_i16(&[1]), Err(ParseError::InsufficientInput));
    assert_eq!(be_u32(&[1, 2, 3]), Err(ParseError::InsufficientInput));
    assert_eq!(be_i32(&[1, 2, 3]), Err(ParseError::InsufficientInput));
    assert_eq!(be_u64(&[1, 2, 3, 4, 5, 6, 7]), Err(ParseError::InsufficientInput));
    assert_eq!(be_i64(&[1, 2, 3, 4, 5, 6, 7]), Err(ParseError::InsufficientInput));
    assert_eq!(take(&[1, 2], 3), Err(ParseError::InsufficientInput));
}

#[test]
fn take_splits_the_input() {
    assert_eq!(take(&[1, 2, 3], 2), Ok((&[3u8][..], &[1u8, 2][..])));
    assert_eq!(take(&[1, 2, 3], 0), Ok((&[1u8, 2, 3][..], &[][..])));
    assert_eq!(take(&[1, 2, 3], 3), Ok((&[][..], &[1u8, 2, 3][..])));
    assert_eq!(take(&[], 0), Ok((&[][..], &[][..])));
}

#[test]
fn tag_tells_a_wrong_byte_from_a_missing_one() {
    let magic = [0xCA, 0xFE, 0xBA, 0xBE];
    assert_eq!(tag(&[0xCA, 0xFE, 0xBA, 0xBE, 7], &magic), Ok((&[7u8][..], ())));
    assert_eq!(tag(&[0xCA, 0xFE, 0xBA], &magic), Err(ParseError::InsufficientInput));
    assert_eq!(tag(&[], &magic), Err(ParseError::InsufficientInput));
    assert_eq!(tag(&[0xCA, 0xFE, 0xBA, 0xBF], &magic), Err(ParseError::InvalidDiscriminant));
    assert_eq!(tag(&[0xCB], &magic), Err(ParseError::InvalidDiscriminant));
    assert_eq!(tag(&[0xCA, 0x00], &magic), Err(ParseError::InvalidDiscriminant));
    assert_eq!(tag(&[1, 2], &[]), Ok((&[1u8, 2][..], ())));
}

#[test]
fn count_reads_values_in_order() {
    assert_eq!(count::<u16>(&[0, 1, 0, 2, 0], 2), Ok((&[0u8][..], vec![1, 2])));
    assert_eq!(count::<u16>(&[9], 0), Ok((&[9u8][..], vec![])));
    assert_eq!(count::<u16>(&[0, 1, 0], 2), Err(ParseError::InsufficientInput));
    assert_eq!(count::<i32>(&[0xff, 0xff, 0xff, 0xff, 0, 0, 0, 5], 2), Ok((&[][..], vec![-1, 5])));
    assert_eq!(
        count::<(i32, i32)>(&[0, 0, 0, 1, 0xff, 0xff, 0xff, 0xfe], 1),
        Ok((&[][..], vec![(1, -2)]))
    );
    assert_eq!(counted::<u16>(&[0, 2, 0, 7, 0, 8, 1]), Ok((&[1u8][..], (2, vec![7, 8]))));
    assert_eq!(counted::<u16>(&[0, 0]), Ok((&[][..], (0, vec![]))));
    assert_eq!(counted::<u16>(&[0]), Err(ParseError::InsufficientInput));
    assert_eq!(counted::<u16>(&[0, 2, 0, 7]), Err(ParseError::InsufficientInput));
}

#[test]
fn unsigned_readers_agree_with_nom() {
    for input in SAMPLES {
        assert_eq!(be_u8(input).ok(), nom::number::complete::be_u8::<_, NomError>(input).ok());
        assert_eq!(be_u16(input).ok(), nom::number::complete::be_u16::<_, NomError>(input).ok());
        assert_eq!(be_u32(input).ok(), nom::number::complete::be_u32::<_, NomError>(input).ok());
        assert_eq!(be_u64(input).ok(), nom::number::complete::be_u64::<_, NomError>(input).ok());
    }
}

#[test]
fn signed_readers_agree_with_nom() {
    for input in SAMPLES {
        assert_eq!(be_i8(input).ok(), nom::number::complete::be_i8::<_, NomError>(input).ok());
        assert_eq!(be_i16(input).ok(), nom::number::complete::be_i16::<_, NomError>(input).ok());
        assert_eq!(be_i32(input).ok(), nom::number::complete::be_i32::<_, NomError>(input).ok());
        assert_eq!(be_i64(input).ok(), nom::number::complete::be_i64::<_, NomError>(input).ok());
    }
}

#[test]
fn bit_patterns_agree_with_the_floats_of_nom() {
    for input in SAMPLES {
        let single = nom::number::complete::be_f32::<_, NomError>(input).ok();
        assert_eq!(be_u32(input).ok(), single.map(|(rest, v)| (rest, v.to_bits())));
        let double = nom::number::complete::be_f64::<_, NomError>(input).ok();
        assert_eq!(be_u64(input).ok(), double.map(|(rest, v)| (rest, v.to_bits())));
    }
}

#[test]
fn take_and_tag_agree_with_nom() {
    for input in SAMPLES {
        for n in 0..12usize {
            let theirs = nom::bytes::complete::take::<_, _, NomError>(n)(input).ok();
            assert_eq!(take(input, n).ok(), theirs);
        }
        for expected in [&[0x80u8][..], &[0xff, 0xff], &[0x12, 0x34, 0x56], &[]] {
            let theirs = nom::bytes::complete::tag::<_, _, NomError>(expected)(input).ok();
            assert_eq!(tag(input, expected).ok(), theirs.map(|(rest, _)| (rest, ())));
        }
    }
}

#[test]
fn count_agrees_with_nom() {
    for input in SAMPLES {
        for n in 0..6usize {
            let reader = nom::number::complete::be_u16::<_, NomError>;
            let theirs = nom::multi::count(reader, n)(input).ok();
            assert_eq!(count::<u16>(input, n).ok(), theirs);
        }
    }
}
