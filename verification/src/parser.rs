//! The decoder of a whole class file.

use crate::attribute_info::parser::lemma_attributes_well_formed;
use crate::attribute_info::{AttributeInfo, AttributeInfoView};
use crate::constant_info::constant_parser;
use crate::constant_info::parser::{
    lemma_pool_advances, lemma_pool_size, lemma_pool_slots, spec_constant_pool,
};
use crate::cursor::{
    be_u16, lemma_remains_of_remains, lemma_skip_remains, lemma_tag_advances, plain, remains_of,
    spec_tag, tag, u16_at, viewed, Decoded, ParseError, ParseResult,
};
use crate::field_info::parser::lemma_field_well_formed;
use crate::field_info::{FieldInfo, FieldInfoView};
use crate::list::{
    counted, lemma_counted, lemma_counted_advances, spec_count, spec_counted, Decode,
};
use crate::method_info::parser::lemma_method_well_formed;
use crate::method_info::{MethodInfo, MethodInfoView};
use crate::types::{ClassAccessFlags, ClassFile, ClassFileView};
use vstd::prelude::*;

verus! {

/// The four bytes that every class file starts with.
pub open spec fn magic() -> Seq<u8> {
    seq![0xCAu8, 0xFEu8, 0xBAu8, 0xBEu8]
}

/// Drops the magic number from the front of the input.
fn magic_parser(input: &[u8]) -> (r: ParseResult<'_, ()>)
    ensures
        plain(r) == spec_tag(input@, magic()),
{
    let expected: [u8; 4] = [0xCA, 0xFE, 0xBA, 0xBE];
    assert(expected@ =~= magic());
    tag(input, &expected)
}

/// What a class file ends with: the interfaces, fields, methods and
/// attributes of the class, each list with its count before it.
pub ghost struct Members {
    pub interfaces_count: u16,
    pub interfaces: Seq<u16>,
    pub fields_count: u16,
    pub fields: Seq<FieldInfoView>,
    pub methods_count: u16,
    pub methods: Seq<MethodInfoView>,
    pub attributes_count: u16,
    pub attributes: Seq<AttributeInfoView>,
}

impl Members {
    /// Every list is as long as the count beside it says, and the fields,
    /// methods and attributes are well-formed.
    pub open spec fn well_formed(self) -> bool {
        &&& self.interfaces.len() == self.interfaces_count
        &&& self.fields.len() == self.fields_count
        &&& forall|i: int| 0 <= i < self.fields.len() ==> (#[trigger] self.fields[i]).well_formed()
        &&& self.methods.len() == self.methods_count
        &&& forall|i: int|
            0 <= i < self.methods.len() ==> (#[trigger] self.methods[i]).well_formed()
        &&& self.attributes.len() == self.attributes_count
        &&& forall|i: int|
            0 <= i < self.attributes.len() ==> (#[trigger] self.attributes[i]).well_formed()
    }
}

/// The four counted lists that a class file ends with.
pub open spec fn spec_members(s: Seq<u8>) -> Decoded<Members> {
    match spec_counted::<u16>(s) {
        Err(e) => Err(e),
        Ok((s_fields, (interfaces_count, interfaces))) => match spec_counted::<FieldInfo>(
            s_fields,
        ) {
            Err(e) => Err(e),
            Ok((s_methods, (fields_count, fields))) => match spec_counted::<MethodInfo>(
                s_methods,
            ) {
                Err(e) => Err(e),
                Ok((s_attributes, (methods_count, methods))) => match spec_counted::<
                    AttributeInfo,
                >(s_attributes) {
                    Err(e) => Err(e),
                    Ok((rest, (attributes_count, attributes))) => Ok(
                        (
                            rest,
                            Members {
                                interfaces_count,
                                interfaces,
                                fields_count,
                                fields,
                                methods_count,
                                methods,
                                attributes_count,
                                attributes,
                            },
                        ),
                    ),
                },
            },
        },
    }
}

/// A class file: the magic number; the two versions and the declared size
/// of the constant pool; the pool, of one index less than declared; the
/// access flags, of which the bits that stand for no flag are dropped, and
/// the indices of the class and of its superclass; and then the
/// interfaces, the fields, the methods and the attributes of the class.
///
/// The declared size counts one more than the indices of the pool, so it
/// is at least one: a declared size of zero is no size of any pool, and
/// the class file is refused before its pool is read.
pub open spec fn spec_class(s: Seq<u8>) -> Decoded<ClassFileView> {
    match spec_tag(s, magic()) {
        Err(e) => Err(e),
        Ok((versions, _)) => if versions.len() < 6 {
            Err(ParseError::InsufficientInput)
        } else if u16_at(versions, 4) == 0 {
            Err(ParseError::InvalidDiscriminant)
        } else {
            match spec_constant_pool(versions.skip(6), u16_at(versions, 4) - 1) {
                Err(e) => Err(e),
                Ok((this, const_pool)) => if this.len() < 6 {
                    Err(ParseError::InsufficientInput)
                } else {
                    match spec_members(this.skip(6)) {
                        Err(e) => Err(e),
                        Ok((rest, members)) => Ok(
                            (
                                rest,
                                ClassFileView {
                                    minor_version: u16_at(versions, 0),
                                    major_version: u16_at(versions, 2),
                                    const_pool_size: u16_at(versions, 4),
                                    const_pool,
                                    access_flags: u16_at(this, 0) & ClassAccessFlags::ALL_BITS,
                                    this_class: u16_at(this, 2),
                                    super_class: u16_at(this, 4),
                                    interfaces_count: members.interfaces_count,
                                    interfaces: members.interfaces,
                                    fields_count: members.fields_count,
                                    fields: members.fields,
                                    methods_count: members.methods_count,
                                    methods: members.methods,
                                    attributes_count: members.attributes_count,
                                    attributes: members.attributes,
                                },
                            ),
                        ),
                    }
                },
            }
        },
    }
}

/// What is left behind the lists that a class file ends with is what
/// remains of the input, and the lists hold no more values than they take
/// up bytes.
pub proof fn lemma_members_advance(s: Seq<u8>)
    ensures
        spec_members(s) matches Ok((rest, members)) ==> remains_of(rest, s) && rest.len() + 8
            + members.interfaces.len() + members.fields.len() + members.methods.len()
            + members.attributes.len() <= s.len(),
{
    lemma_counted_advances::<u16>(s);
    match spec_counted::<u16>(s) {
        Err(e) => {},
        Ok((s_fields, interfaces)) => {
            lemma_counted_advances::<FieldInfo>(s_fields);
            match spec_counted::<FieldInfo>(s_fields) {
                Err(e) => {},
                Ok((s_methods, fields)) => {
                    lemma_counted_advances::<MethodInfo>(s_methods);
                    lemma_remains_of_remains(s_methods, s_fields, s);
                    match spec_counted::<MethodInfo>(s_methods) {
                        Err(e) => {},
                        Ok((s_attributes, methods)) => {
                            lemma_counted_advances::<AttributeInfo>(s_attributes);
                            lemma_remains_of_remains(s_attributes, s_methods, s);
                            match spec_counted::<AttributeInfo>(s_attributes) {
                                Err(e) => {},
                                Ok((rest, attributes)) => {
                                    lemma_remains_of_remains(rest, s_attributes, s);
                                },
                            }
                        },
                    }
                },
            }
        },
    }
}

/// What is left behind a decoded class is what remains of the input, and
/// the class holds no more pool slots, interfaces, fields, methods and
/// attributes than it takes up bytes: the size of what is decoded is
/// bounded by the size of the input, whatever counts the input declares.
pub proof fn lemma_class_advances(s: Seq<u8>)
    ensures
        spec_class(s) matches Ok((rest, class)) ==> remains_of(rest, s) && rest.len() + 24
            + class.const_pool.len() + class.interfaces.len() + class.fields.len()
            + class.methods.len() + class.attributes.len() <= s.len(),
{
    lemma_tag_advances(s, magic());
    match spec_tag(s, magic()) {
        Err(e) => {},
        Ok((versions, _)) => {
            if versions.len() >= 6 && u16_at(versions, 4) > 0 {
                let pool = versions.skip(6);
                lemma_skip_remains(versions, 6);
                lemma_remains_of_remains(pool, versions, s);
                lemma_pool_advances(pool, u16_at(versions, 4) - 1);
                match spec_constant_pool(pool, u16_at(versions, 4) - 1) {
                    Err(e) => {},
                    Ok((this, const_pool)) => {
                        lemma_remains_of_remains(this, pool, s);
                        if this.len() >= 6 {
                            let members = this.skip(6);
                            lemma_skip_remains(this, 6);
                            lemma_remains_of_remains(members, this, s);
                            lemma_members_advance(members);
                            match spec_members(members) {
                                Err(e) => {},
                                Ok((rest, lists)) => {
                                    lemma_remains_of_remains(rest, members, s);
                                },
                            }
                        }
                    },
                }
            }
        },
    }
}

/// Every decoded class is well-formed.
pub proof fn lemma_class_well_formed(s: Seq<u8>)
    ensures
        spec_class(s) matches Ok((rest, class)) ==> class.well_formed(),
{
    match spec_tag(s, magic()) {
        Err(e) => {},
        Ok((versions, _)) => {
            if versions.len() >= 6 && u16_at(versions, 4) > 0 {
                let size = u16_at(versions, 4);
                lemma_pool_slots(versions.skip(6), size - 1);
                lemma_pool_size(versions.skip(6), size - 1);
                match spec_constant_pool(versions.skip(6), size - 1) {
                    Err(e) => {},
                    Ok((this, const_pool)) => {
                        if this.len() >= 6 {
                            let flags = u16_at(this, 0);
                            let all = ClassAccessFlags::ALL_BITS;
                            assert((flags & all) & all == flags & all) by (bit_vector);
                            lemma_members_well_formed(this.skip(6));
                        }
                    },
                }
            }
        },
    }
}

/// The lists that a decoded class file ends with are well-formed.
pub proof fn lemma_members_well_formed(s: Seq<u8>)
    ensures
        spec_members(s) matches Ok((rest, members)) ==> members.well_formed(),
{
    lemma_counted::<u16>(s, |v: u16| true);
    match spec_counted::<u16>(s) {
        Err(e) => {},
        Ok((s_fields, interfaces)) => {
            assert forall|t: Seq<u8>| (#[trigger] FieldInfo::spec_decode(t)) matches Ok((rest, v))
                ==> v.well_formed() by {
                lemma_field_well_formed(t);
            }
            lemma_counted::<FieldInfo>(s_fields, |f: FieldInfoView| f.well_formed());
            match spec_counted::<FieldInfo>(s_fields) {
                Err(e) => {},
                Ok((s_methods, fields)) => {
                    assert forall|t: Seq<u8>| (#[trigger] MethodInfo::spec_decode(t)) matches Ok(
                        (rest, v),
                    ) ==> v.well_formed() by {
                        lemma_method_well_formed(t);
                    }
                    lemma_counted::<MethodInfo>(s_methods, |m: MethodInfoView| m.well_formed());
                    match spec_counted::<MethodInfo>(s_methods) {
                        Err(e) => {},
                        Ok((s_attributes, methods)) => {
                            lemma_attributes_well_formed(s_attributes);
                        },
                    }
                },
            }
        },
    }
}

/// Decodes a class file from the front of the input and hands back what
/// is left behind it.
///
/// The first read that runs out of input and the first value that the
/// format does not allow at its place end the decoding: there is no partial
/// result. A declared pool size of zero is such a value. Attributes are
/// kept undecoded, for the decoders of [`crate::attribute_info`] to read
/// their payloads.
pub fn class_parser(input: &[u8]) -> (r: ParseResult<'_, ClassFile>)
    ensures
        viewed(r) == spec_class(input@),
        r matches Ok((rest, class)) ==> class@.well_formed() && remains_of(rest@, input@),
{
    proof {
        lemma_class_well_formed(input@);
        lemma_class_advances(input@);
    }
    let (versions, _) = magic_parser(input)?;
    let (rest, minor_version) = be_u16(versions)?;
    let (rest, major_version) = be_u16(rest)?;
    let (rest, const_pool_size) = be_u16(rest)?;
    assert(rest@ == versions@.skip(6));
    if const_pool_size == 0 {
        return Err(ParseError::InvalidDiscriminant);
    }
    let (this, const_pool) = constant_parser(rest, (const_pool_size - 1) as usize)?;
    let (rest, access_flags) = be_u16(this)?;
    let (rest, this_class) = be_u16(rest)?;
    let (rest, super_class) = be_u16(rest)?;
    assert(rest@ == this@.skip(6));
    let (rest, (interfaces_count, interfaces)) = counted::<u16>(rest)?;
    let (rest, (fields_count, fields)) = counted::<FieldInfo>(rest)?;
    let (rest, (methods_count, methods)) = counted::<MethodInfo>(rest)?;
    let (rest, (attributes_count, attributes)) = counted::<AttributeInfo>(rest)?;
    assert(interfaces.deep_view() == interfaces@);
    Ok(
        (
            rest,
            ClassFile {
                minor_version,
                major_version,
                const_pool_size,
                const_pool,
                access_flags: ClassAccessFlags::from_bits_truncate(access_flags),
                this_class,
                super_class,
                interfaces_count,
                interfaces,
                fields_count,
                fields,
                methods_count,
                methods,
                attributes_count,
                attributes,
            },
        ),
    )
}

/// A class file that declares a constant pool of size zero is refused,
/// whatever stands behind the size: no pool has one index less than zero.
pub proof fn lemma_pool_size_zero_is_refused(s: Seq<u8>)
    requires
        s.len() >= 10,
        s.take(4) == magic(),
        u16_at(s, 8) == 0,
    ensures
        spec_class(s) == Err::<(Seq<u8>, ClassFileView), _>(ParseError::InvalidDiscriminant),
{
    assert(magic().take(4) == magic());
    let versions = s.skip(4);
    assert(spec_tag(s, magic()) == Ok::<_, ParseError>((versions, ())));
    assert(u16_at(versions, 4) == u16_at(s, 8));
}

/// A class file that declares an empty constant pool and no interfaces,
/// fields, methods or attributes decodes, whatever its versions, flags and
/// class indices are and whatever follows it, and all five lists of the
/// result are empty.
///
/// Such a file is 24 bytes long: the magic number, the versions at the
/// offsets 4 and 6, the pool size 1 at offset 8, the flags and the two
/// class indices at the offsets 10, 12 and 14, and four counts of zero.
pub proof fn lemma_empty_class_decodes(s: Seq<u8>)
    requires
        s.len() >= 24,
        s.take(4) == magic(),
        u16_at(s, 8) == 1,
        u16_at(s, 16) == 0,
        u16_at(s, 18) == 0,
        u16_at(s, 20) == 0,
        u16_at(s, 22) == 0,
    ensures
        spec_class(s) == Ok::<_, ParseError>(
            (
                s.skip(24),
                ClassFileView {
                    minor_version: u16_at(s, 4),
                    major_version: u16_at(s, 6),
                    const_pool_size: 1,
                    const_pool: Seq::empty(),
                    access_flags: u16_at(s, 10) & ClassAccessFlags::ALL_BITS,
                    this_class: u16_at(s, 12),
                    super_class: u16_at(s, 14),
                    interfaces_count: 0,
                    interfaces: Seq::empty(),
                    fields_count: 0,
                    fields: Seq::empty(),
                    methods_count: 0,
                    methods: Seq::empty(),
                    attributes_count: 0,
                    attributes: Seq::empty(),
                },
            ),
        ),
{
    assert(magic().take(4) == magic());
    let versions = s.skip(4);
    assert(spec_tag(s, magic()) == Ok::<_, ParseError>((versions, ())));
    let this = versions.skip(6);
    assert(this == s.skip(10));
    assert(spec_constant_pool(this, 0) is Ok);
    let s_interfaces = this.skip(6);
    assert(s_interfaces == s.skip(16));
    let s_fields = s_interfaces.skip(2);
    assert(s_fields == s.skip(18));
    assert(spec_count::<u16>(0, s_fields) is Ok);
    let s_methods = s_fields.skip(2);
    assert(s_methods == s.skip(20));
    assert(spec_count::<FieldInfo>(0, s_methods) is Ok);
    let s_attributes = s_methods.skip(2);
    assert(s_attributes == s.skip(22));
    assert(spec_count::<MethodInfo>(0, s_attributes) is Ok);
    let rest = s_attributes.skip(2);
    assert(rest == s.skip(24));
    assert(spec_count::<AttributeInfo>(0, rest) is Ok);
}

} // verus!
