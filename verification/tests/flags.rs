//! The three sets of access flags.

use classfile_parser::field_info::FieldAccessFlags;
use classfile_parser::method_info::MethodAccessFlags;
use classfile_parser::ClassAccessFlags;

#[test]
fn truncation_drops_the_bits_of_no_flag() {
    assert_eq!(ClassAccessFlags::from_bits_truncate(0xffff).bits(), 0x7631);
    assert_eq!(FieldAccessFlags::from_bits_truncate(0xffff).bits(), 0x70df);
    assert_eq!(MethodAccessFlags::from_bits_truncate(0xffff).bits(), 0x1dff);
    assert_eq!(ClassAccessFlags::from_bits_truncate(0x0021).bits(), 0x0021);
    assert_eq!(ClassAccessFlags::from_bits_truncate(0x8003).bits(), 0x0001);
    assert_eq!(FieldAccessFlags::from_bits_truncate(0x0120).bits(), 0x0000);
    assert_eq!(MethodAccessFlags::from_bits_truncate(0x0209).bits(), 0x0009);
}

#[test]
fn all_is_the_union_of_the_flags() {
    let class = ClassAccessFlags::PUBLIC
        | ClassAccessFlags::FINAL
        | ClassAccessFlags::SUPER
        | ClassAccessFlags::INTERFACE
        | ClassAccessFlags::ABSTRACT
        | ClassAccessFlags::SYNTHETIC
        | ClassAccessFlags::ANNOTATION
        | ClassAccessFlags::ENUM;
    assert_eq!(class, ClassAccessFlags::ALL_BITS);
    assert_eq!(ClassAccessFlags::all().bits(), class);
    let field = FieldAccessFlags::PUBLIC
        | FieldAccessFlags::PRIVATE
        | FieldAccessFlags::PROTECTED
        | FieldAccessFlags::STATIC
        | FieldAccessFlags::FINAL
        | FieldAccessFlags::VOLATILE
        | FieldAccessFlags::TRANSIENT
        | FieldAccessFlags::SYNTHETIC
        | FieldAccessFlags::ANNOTATION
        | FieldAccessFlags::ENUM;
    assert_eq!(field, FieldAccessFlags::ALL_BITS);
    assert_eq!(FieldAccessFlags::all().bits(), field);
    let method = MethodAccessFlags::PUBLIC
        | MethodAccessFlags::PRIVATE
        | MethodAccessFlags::PROTECTED
        | MethodAccessFlags::STATIC
        | MethodAccessFlags::FINAL
        | MethodAccessFlags::SYNCHRONIZED
        | MethodAccessFlags::BRIDGE
        | MethodAccessFlags::VARARGS
        | MethodAccessFlags::NATIVE
        | MethodAccessFlags::ABSTRACT
        | MethodAccessFlags::STRICT
        | MethodAccessFlags::SYNTHETIC;
    assert_eq!(method, MethodAccessFlags::ALL_BITS);
    assert_eq!(MethodAccessFlags::all().bits(), method);
}

#[test]
fn the_bits_of_the_flags_are_those_of_the_format() {
    assert_eq!(
        (ClassAccessFlags::PUBLIC, ClassAccessFlags::FINAL, ClassAccessFlags::SUPER),
        (0x0001, 0x0010, 0x0020)
    );
    assert_eq!(
        (ClassAccessFlags::INTERFACE, ClassAccessFlags::ABSTRACT, ClassAccessFlags::SYNTHETIC),
        (0x0200, 0x0400, 0x1000)
    );
    assert_eq!((ClassAccessFlags::ANNOTATION, ClassAccessFlags::ENUM), (0x2000, 0x4000));
    assert_eq!(
        (FieldAccessFlags::PRIVATE, FieldAccessFlags::PROTECTED, FieldAccessFlags::STATIC),
        (0x0002, 0x0004, 0x0008)
    );
    assert_eq!((FieldAccessFlags::VOLATILE, FieldAccessFlags::TRANSIENT), (0x0040, 0x0080));
    assert_eq!(
        (MethodAccessFlags::SYNCHRONIZED, MethodAccessFlags::BRIDGE, MethodAccessFlags::VARARGS),
        (0x0020, 0x0040, 0x0080)
    );
    assert_eq!(
        (MethodAccessFlags::NATIVE, MethodAccessFlags::ABSTRACT, MethodAccessFlags::STRICT),
        (0x0100, 0x0400, 0x0800)
    );
}

#[test]
fn from_bits_refuses_unknown_bits() {
    assert_eq!(ClassAccessFlags::from_bits(0x0021).map(|f| f.bits()), Some(0x0021));
    assert_eq!(ClassAccessFlags::from_bits(0x0002), None);
    assert_eq!(ClassAccessFlags::from_bits(0), Some(ClassAccessFlags::empty()));
    assert_eq!(FieldAccessFlags::from_bits(0x0020), None);
    assert_eq!(FieldAccessFlags::from_bits(0x70df), Some(FieldAccessFlags::all()));
    assert_eq!(MethodAccessFlags::from_bits(0x0200), None);
    assert_eq!(MethodAccessFlags::from_bits(0x0009).map(|f| f.bits()), Some(0x0009));
}

#[test]
fn contains_asks_for_every_flag() {
    let flags = MethodAccessFlags::from_bits_truncate(0x0009);
    assert!(flags.contains(MethodAccessFlags::STATIC));
    assert!(flags.contains(MethodAccessFlags::PUBLIC));
    assert!(flags.contains(MethodAccessFlags::PUBLIC | MethodAccessFlags::STATIC));
    assert!(!flags.contains(MethodAccessFlags::FINAL));
    assert!(!flags.contains(MethodAccessFlags::PUBLIC | MethodAccessFlags::FINAL));
    assert!(flags.contains(0));
    assert!(!flags.is_empty());
    assert!(MethodAccessFlags::empty().is_empty());
    assert!(!MethodAccessFlags::empty().contains(MethodAccessFlags::PUBLIC));
    assert!(FieldAccessFlags::all().contains(FieldAccessFlags::ENUM));
    assert!(ClassAccessFlags::from_bits_truncate(0x0600).contains(ClassAccessFlags::INTERFACE));
}

#[test]
fn method_flags_have_the_traits_of_a_plain_value() {
    fn plain<T: Copy + Clone + PartialEq + Eq + PartialOrd + Ord + std::hash::Hash + std::fmt::Debug>(
        _: T,
    ) {
    }
    plain(MethodAccessFlags::empty());
    plain(FieldAccessFlags::empty());
    plain(ClassAccessFlags::empty());
    assert!(MethodAccessFlags::empty() < MethodAccessFlags::all());
}
