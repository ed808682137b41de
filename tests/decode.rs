use class_file_parser::attribute_info::{attribute_info_parser, attributes_parser, AttributeInfo};
use class_file_parser::class_file::class_file_parser;
use class_file_parser::cp_info::{
    cp_info_parser, CPInfo, Class, Double, Dynamic, Fieldref, Float, Integer, InterfaceMethodref, Long,
    MethodHandle, MethodType, Methodref, Module, NameAndType, Package, Utf8,
};
use class_file_parser::cp_info::String as StringEntry;
use class_file_parser::cursor::{read_bytes, read_u16, read_u32, read_u8};
use class_file_parser::field_info::{field_info_parser, method_info_parser};
use class_file_parser::DecodeError;

fn minimal() -> Vec<u8> {
    vec![
        0xCA, 0xFE, 0xBA, 0xBE, 0x00, 0x00, 0x00, 0x34, 0x00, 0x02, 0x01, 0x00, 0x03, 0x66, 0x6F, 0x6F, 0x00, 0x00,
        0x00, 0x00, 0x00, 0x00, 0x00, 0x00, 0x00, 0x00, 0x00, 0x00, 0x00, 0x00,
    ]
}

/// A class file with two pool entries, an interface, a field with an
/// attribute, a method without attributes and a top-level attribute.
fn richer() -> Vec<u8> {
    vec![
        0xCA, 0xFE, 0xBA, 0xBE, // magic
        0x00, 0x03, 0x00, 0x2D, // minor 3, major 45
        0x00, 0x03, // pool count 3: two entries
        0x07, 0x00, 0x02, // Class(name 2)
        0x01, 0x00, 0x01, 0x41, // Utf8("A")
        0x00, 0x21, 0x00, 0x01, 0x00, 0x00, // flags, this, super
        0x00, 0x01, 0x00, 0x05, // one interface: 5
        0x00, 0x01, // one field
        0x00, 0x02, 0x00, 0x03, 0x00, 0x04, 0x00, 0x01, // flags, name, descriptor, one attribute
        0x00, 0x09, 0x00, 0x00, 0x00, 0x02, 0xAB, 0xCD, // attribute 9, two bytes
        0x00, 0x01, // one method
        0x00, 0x01, 0x00, 0x06, 0x00, 0x07, 0x00, 0x00, // no attributes
        0x00, 0x01, // one top-level attribute
        0x00, 0x08, 0x00, 0x00, 0x00, 0x00, // attribute 8, empty
    ]
}

#[test]
fn minimal_class_file_decodes() {
    let bytes = minimal();
    let (rest, cf) = class_file_parser(&bytes).unwrap();
    assert!(rest.is_empty());
    assert_eq!(cf.magic, 0xCAFEBABE);
    assert_eq!(cf.minor_version, 0);
    assert_eq!(cf.major_version, 52);
    assert_eq!(cf.constant_pool_count, 1);
    assert_eq!(cf.constant_pool, vec![CPInfo::Utf8(Utf8 { tag: 1, length: 3, bytes: vec![0x66, 0x6F, 0x6F] })]);
    assert_eq!(cf.access_flags, 0);
    assert_eq!(cf.this_class, 0);
    assert_eq!(cf.super_class, 0);
    assert_eq!(cf.interfaces_count, 0);
    assert!(cf.interfaces.is_empty());
    assert_eq!(cf.fields_count, 0);
    assert!(cf.fields.is_empty());
    assert_eq!(cf.methods_count, 0);
    assert!(cf.methods.is_empty());
    assert_eq!(cf.attributes_count, 0);
    assert!(cf.attributes.is_empty());
}

#[test]
fn ten_zero_bytes_stop_at_methods_count() {
    let mut bytes = minimal();
    bytes.truncate(26);
    assert_eq!(class_file_parser(&bytes).unwrap_err(), DecodeError::TruncatedInput(26));
}

#[test]
fn missing_attributes_count_is_truncated() {
    let mut bytes = minimal();
    bytes.truncate(bytes.len() - 2);
    assert_eq!(class_file_parser(&bytes).unwrap_err(), DecodeError::TruncatedInput(28));
}

#[test]
fn unassigned_pool_tag_is_rejected() {
    let mut bytes = minimal();
    bytes[10] = 0xFF;
    assert_eq!(class_file_parser(&bytes).unwrap_err(), DecodeError::UnknownConstantTag(0xFF));
}

#[test]
fn every_unassigned_tag_is_rejected() {
    for tag in 0u8..=255 {
        let assigned = matches!(tag, 1 | 3 | 4 | 5 | 6 | 7 | 8 | 9 | 10 | 11 | 12 | 15 | 16 | 17 | 19 | 20);
        let bytes = vec![tag, 0, 0, 0, 0, 0, 0, 0, 0];
        let r = cp_info_parser(&bytes, 0);
        if assigned {
            assert!(r.is_ok(), "tag {}", tag);
        } else {
            assert_eq!(r.unwrap_err(), DecodeError::UnknownConstantTag(tag));
        }
    }
}

#[test]
fn decoding_twice_gives_equal_trees() {
    let bytes = richer();
    let first = class_file_parser(&bytes).unwrap();
    let second = class_file_parser(&bytes).unwrap();
    assert_eq!(first, second);
    let bad = &bytes[..20];
    assert_eq!(class_file_parser(bad), class_file_parser(bad));
}

#[test]
fn richer_class_file_decodes() {
    let bytes = richer();
    let (rest, cf) = class_file_parser(&bytes).unwrap();
    assert!(rest.is_empty());
    assert_eq!(cf.minor_version, 3);
    assert_eq!(cf.major_version, 45);
    assert_eq!(cf.constant_pool_count, 2);
    assert_eq!(
        cf.constant_pool,
        vec![
            CPInfo::Class(Class { tag: 7, name_index: 2 }),
            CPInfo::Utf8(Utf8 { tag: 1, length: 1, bytes: vec![0x41] }),
        ]
    );
    assert_eq!(cf.access_flags, 0x21);
    assert_eq!(cf.this_class, 1);
    assert_eq!(cf.super_class, 0);
    assert_eq!(cf.interfaces_count, 1);
    assert_eq!(cf.interfaces, vec![5]);
    assert_eq!(cf.fields_count, 1);
    let field = &cf.fields[0];
    assert_eq!((field.access_flags, field.name_index, field.descriptor_index), (2, 3, 4));
    assert_eq!(field.attributes_count, 1);
    assert_eq!(
        field.attributes,
        vec![AttributeInfo { attribute_name_index: 9, attribute_length: 2, info: vec![0xAB, 0xCD] }]
    );
    assert_eq!(cf.methods_count, 1);
    let method = &cf.methods[0];
    assert_eq!((method.access_flags, method.name_index, method.descriptor_index), (1, 6, 7));
    assert_eq!(method.attributes_count, 0);
    assert!(method.attributes.is_empty());
    assert_eq!(cf.attributes_count, 1);
    assert_eq!(cf.attributes, vec![AttributeInfo { attribute_name_index: 8, attribute_length: 0, info: vec![] }]);
}

#[test]
fn every_strict_prefix_is_truncated() {
    for bytes in [minimal(), richer()] {
        for k in 0..bytes.len() {
            match class_file_parser(&bytes[..k]) {
                Err(DecodeError::TruncatedInput(offset)) => assert!(offset <= k),
                other => panic!("prefix of {} bytes gave {:?}", k, other),
            }
        }
    }
}

#[test]
fn trailing_bytes_are_handed_back() {
    let mut bytes = minimal();
    bytes.extend_from_slice(&[0xDE, 0xAD]);
    let (rest, cf) = class_file_parser(&bytes).unwrap();
    assert_eq!(rest, &[0xDE, 0xAD]);
    assert_eq!(cf.major_version, 52);
}

#[test]
fn zero_pool_count_stores_no_entries() {
    let mut bytes = vec![0xCA, 0xFE, 0xBA, 0xBE, 0, 0, 0, 0x34, 0, 0];
    bytes.extend_from_slice(&[0; 14]);
    let (_, cf) = class_file_parser(&bytes).unwrap();
    assert!(cf.constant_pool.is_empty());
    assert_eq!(cf.constant_pool_count, 0);
}

#[test]
fn long_entries_take_one_stored_slot() {
    let mut bytes = vec![0xCA, 0xFE, 0xBA, 0xBE, 0, 0, 0, 0x34, 0, 3];
    bytes.extend_from_slice(&[5, 0, 0, 0, 1, 0, 0, 0, 2]);
    bytes.extend_from_slice(&[7, 0, 1]);
    bytes.extend_from_slice(&[0; 14]);
    let (_, cf) = class_file_parser(&bytes).unwrap();
    assert_eq!(
        cf.constant_pool,
        vec![
            CPInfo::Long(Long { tag: 5, high_bytes: 1, low_bytes: 2 }),
            CPInfo::Class(Class { tag: 7, name_index: 1 }),
        ]
    );
}

#[test]
fn each_entry_kind_decodes() {
    let cases: Vec<(Vec<u8>, CPInfo)> = vec![
        (vec![1, 0, 2, b'h', b'i'], CPInfo::Utf8(Utf8 { tag: 1, length: 2, bytes: vec![b'h', b'i'] })),
        (vec![3, 0xFF, 0xFF, 0xFF, 0xFE], CPInfo::Integer(Integer { tag: 3, bytes: 0xFFFF_FFFE })),
        (vec![4, 0x3F, 0x80, 0, 0], CPInfo::Float(Float { tag: 4, bytes: 0x3F80_0000 })),
        (vec![5, 0, 0, 0, 1, 0x80, 0, 0, 0], CPInfo::Long(Long { tag: 5, high_bytes: 1, low_bytes: 0x8000_0000 })),
        (vec![6, 0x40, 0, 0, 0, 0, 0, 0, 9], CPInfo::Double(Double { tag: 6, high_bytes: 0x4000_0000, low_bytes: 9 })),
        (vec![7, 0x01, 0x02], CPInfo::Class(Class { tag: 7, name_index: 0x0102 })),
        (vec![8, 0, 4], CPInfo::String(StringEntry { tag: 8, string_index: 4 })),
        (vec![9, 0, 1, 0, 2], CPInfo::Fieldref(Fieldref { tag: 9, class_index: 1, name_and_type_index: 2 })),
        (vec![10, 0, 3, 0, 4], CPInfo::Methodref(Methodref { tag: 10, class_index: 3, name_and_type_index: 4 })),
        (
            vec![11, 0, 5, 0, 6],
            CPInfo::InterfaceMethodref(InterfaceMethodref { tag: 11, class_index: 5, name_and_type_index: 6 }),
        ),
        (vec![12, 0, 7, 0, 8], CPInfo::NameAndType(NameAndType { tag: 12, name_index: 7, descriptor_index: 8 })),
        (vec![15, 6, 0x12, 0x34], CPInfo::MethodHandle(MethodHandle { tag: 15, reference_kind: 6, reference_index: 0x1234 })),
        (vec![16, 0, 9], CPInfo::MethodType(MethodType { tag: 16, descriptor_index: 9 })),
        (
            vec![17, 0, 1, 0, 10],
            CPInfo::Dynamic(Dynamic { tag: 17, bootstrap_method_attr_index: 1, name_and_type_index: 10 }),
        ),
        (vec![19, 0, 11], CPInfo::Module(Module { tag: 19, name_index: 11 })),
        (vec![20, 0, 12], CPInfo::Package(Package { tag: 20, name_index: 12 })),
    ];
    for (bytes, expected) in cases {
        assert_eq!(cp_info_parser(&bytes, 0), Ok((bytes.len(), expected.clone())));
        for k in 0..bytes.len() {
            assert!(matches!(cp_info_parser(&bytes[..k], 0), Err(DecodeError::TruncatedInput(_))));
        }
    }
}

#[test]
fn cursor_reads_big_endian() {
    let bytes = [0x12, 0x34, 0x56, 0x78, 0x9A];
    assert_eq!(read_u8(&bytes, 4), Ok((5, 0x9A)));
    assert_eq!(read_u16(&bytes, 1), Ok((3, 0x3456)));
    assert_eq!(read_u32(&bytes, 0), Ok((4, 0x1234_5678)));
    assert_eq!(read_u32(&bytes, 2), Err(DecodeError::TruncatedInput(2)));
    assert_eq!(read_u8(&bytes, 5), Err(DecodeError::TruncatedInput(5)));
    assert_eq!(read_u16(&bytes, 9), Err(DecodeError::TruncatedInput(9)));
    assert_eq!(read_bytes(&bytes, 1, 3), Ok((4, vec![0x34, 0x56, 0x78])));
    assert_eq!(read_bytes(&bytes, 3, 3), Err(DecodeError::TruncatedInput(3)));
}

#[test]
fn attribute_payload_is_kept_verbatim() {
    let bytes = [0, 1, 0, 0, 0, 3, 7, 8, 9, 0xEE];
    let (end, a) = attribute_info_parser(&bytes, 0).unwrap();
    assert_eq!(end, 9);
    assert_eq!(a, AttributeInfo { attribute_name_index: 1, attribute_length: 3, info: vec![7, 8, 9] });
    assert_eq!(attribute_info_parser(&bytes[..8], 0), Err(DecodeError::TruncatedInput(6)));
    let two = [0, 1, 0, 0, 0, 0, 0, 2, 0, 0, 0, 1, 5];
    let (end, list) = attributes_parser(&two, 0, 2).unwrap();
    assert_eq!(end, 13);
    assert_eq!(list.len(), 2);
    assert_eq!(list[1].info, vec![5]);
}

#[test]
fn field_and_method_records_share_a_shape() {
    let bytes = [0, 1, 0, 2, 0, 3, 0, 1, 0, 4, 0, 0, 0, 1, 0x7F];
    let field = field_info_parser(&bytes, 0).unwrap();
    let method = method_info_parser(&bytes, 0).unwrap();
    assert_eq!(field, method);
    assert_eq!(field.0, 15);
    assert_eq!(field.1.attributes_count, 1);
    assert_eq!(field.1.attributes[0].info, vec![0x7F]);
    assert_eq!(field_info_parser(&bytes, 2).unwrap_err(), DecodeError::TruncatedInput(12));
}

#[test]
fn unknown_tag_after_a_good_entry_rejects_the_file() {
    for tag in [0u8, 2, 13, 14, 18, 21, 0xFF] {
        let mut bytes = vec![0xCA, 0xFE, 0xBA, 0xBE, 0, 0, 0, 0x34, 0, 3];
        bytes.extend_from_slice(&[7, 0, 2]);
        bytes.push(tag);
        bytes.extend_from_slice(&[0; 16]);
        assert_eq!(class_file_parser(&bytes).unwrap_err(), DecodeError::UnknownConstantTag(tag));
    }
}

#[test]
fn prefixes_with_zero_pool_count_are_truncated() {
    let mut bytes = vec![0xCA, 0xFE, 0xBA, 0xBE, 0, 0, 0, 0x34, 0, 0];
    bytes.extend_from_slice(&[0; 14]);
    assert!(class_file_parser(&bytes).is_ok());
    for k in 0..bytes.len() {
        assert!(matches!(class_file_parser(&bytes[..k]), Err(DecodeError::TruncatedInput(_))));
    }
}
