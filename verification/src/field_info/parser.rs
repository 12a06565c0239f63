//! The decoder of a field.

use super::types::{FieldAccessFlags, FieldInfo, FieldInfoView};
use crate::attribute_info::AttributeInfo;
use crate::attribute_info::parser::lemma_attributes_well_formed;
use crate::cursor::{
    be_u16, lemma_remains_of_remains, lemma_skip_remains, u16_at, viewed, Decoded, ParseError,
    ParseResult,
};
use crate::list::{counted, lemma_counted_advances, spec_counted, Decode};
use vstd::prelude::*;

verus! {

/// A field: its access flags, of which the bits that stand for no flag are
/// dropped, the indices of its name and descriptor, and its counted
/// attributes.
pub open spec fn spec_field(s: Seq<u8>) -> Decoded<FieldInfoView> {
    if s.len() < 6 {
        Err(ParseError::InsufficientInput)
    } else {
        match spec_counted::<AttributeInfo>(s.skip(6)) {
            Err(e) => Err(e),
            Ok((rest, (attributes_count, attributes))) => Ok(
                (
                    rest,
                    FieldInfoView {
                        access_flags: u16_at(s, 0) & FieldAccessFlags::ALL_BITS,
                        name_index: u16_at(s, 2),
                        descriptor_index: u16_at(s, 4),
                        attributes_count,
                        attributes,
                    },
                ),
            ),
        }
    }
}

/// Every decoded field is well-formed.
pub proof fn lemma_field_well_formed(s: Seq<u8>)
    ensures
        spec_field(s) matches Ok((rest, field)) ==> field.well_formed(),
{
    if s.len() >= 6 {
        lemma_attributes_well_formed(s.skip(6));
        let flags = u16_at(s, 0);
        let all = FieldAccessFlags::ALL_BITS;
        assert((flags & all) & all == flags & all) by (bit_vector);
    }
}

/// Decodes one field. Its attributes are kept undecoded.
pub fn field_parser(input: &[u8]) -> (r: ParseResult<'_, FieldInfo>)
    ensures
        viewed(r) == spec_field(input@),
        r matches Ok((rest, field)) ==> field@.well_formed(),
{
    proof {
        lemma_field_well_formed(input@);
    }
    let (rest, access_flags) = be_u16(input)?;
    let (rest, name_index) = be_u16(rest)?;
    let (rest, descriptor_index) = be_u16(rest)?;
    assert(rest@ == input@.skip(6));
    let (rest, (attributes_count, attributes)) = counted::<AttributeInfo>(rest)?;
    Ok(
        (
            rest,
            FieldInfo {
                access_flags: FieldAccessFlags::from_bits_truncate(access_flags),
                name_index,
                descriptor_index,
                attributes_count,
                attributes,
            },
        ),
    )
}

impl Decode for FieldInfo {
    open spec fn spec_decode(s: Seq<u8>) -> Decoded<FieldInfoView> {
        spec_field(s)
    }

    fn decode(input: &[u8]) -> (r: ParseResult<'_, FieldInfo>) {
        field_parser(input)
    }

    proof fn lemma_decode_advances(s: Seq<u8>) {
        if s.len() >= 6 {
            lemma_skip_remains(s, 6);
            lemma_counted_advances::<AttributeInfo>(s.skip(6));
            match spec_counted::<AttributeInfo>(s.skip(6)) {
                Ok((rest, attributes)) => {
                    lemma_remains_of_remains(rest, s.skip(6), s);
                },
                Err(e) => {},
            }
        }
    }
}

} // verus!
