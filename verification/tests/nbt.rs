use mcproto_rs::nbt::{read_named_tag, read_tag, NamedTag, Tag};
use mcproto_rs::{DeserializeErr, Deserialized, SerializeErr};

#[test]
fn test_int_array() {
    let original =
        Tag::Compound(vec![Tag::IntArray(vec![1, 2, -5, 123127, -12373, 0, 0, 4, 2])
            .with_name("test ints")])
        .with_name("test");

    let bytes = original.bytes().expect("serialize int array");
    let Deserialized { value: unserialized, data: _ } =
        NamedTag::root_compound_tag_from_bytes(bytes.as_slice()).expect("deserialize int array");
    assert_eq!(original, unserialized);
}

#[test]
fn test_long_array() {
    let original = Tag::Compound(vec![Tag::LongArray(vec![
        1,
        2,
        -5,
        123127999999,
        -1237399999,
        0,
        0,
        4,
        2,
    ])
    .with_name("test ints")])
    .with_name("test");

    let bytes = original.bytes().expect("serialize long array");
    let Deserialized { value: unserialized, data: _ } =
        NamedTag::root_compound_tag_from_bytes(bytes.as_slice()).expect("deserialize int array");
    assert_eq!(original, unserialized);
}

fn byte_array_of_the_big_example() -> Vec<u8> {
    const COUNT: usize = 1000;
    let mut out = Vec::with_capacity(COUNT);
    for i in 0..COUNT {
        out.push((((i * i * 255) + (i * 7)) % 100) as u8);
    }
    out
}

fn big_example() -> NamedTag {
    Tag::Compound(vec![
        Tag::Long(9223372036854775807).with_name("longTest"),
        Tag::Short(32767).with_name("shortTest"),
        Tag::String("HELLO WORLD THIS IS A TEST STRING ÅÄÖ!".into()).with_name("stringTest"),
        Tag::Float(0.49823147f32.to_bits()).with_name("floatTest"),
        Tag::Int(2147483647).with_name("intTest"),
        Tag::Compound(vec![
            Tag::Compound(vec![
                Tag::String("Hampus".into()).with_name("name"),
                Tag::Float(0.75f32.to_bits()).with_name("value"),
            ])
            .with_name("ham"),
            Tag::Compound(vec![
                Tag::String("Eggbert".into()).with_name("name"),
                Tag::Float(0.5f32.to_bits()).with_name("value"),
            ])
            .with_name("egg"),
        ])
        .with_name("nested compound test"),
        Tag::List(vec![Tag::Long(11), Tag::Long(12), Tag::Long(13), Tag::Long(14), Tag::Long(15)])
            .with_name("listTest (long)"),
        Tag::List(vec![
            Tag::Compound(vec![
                Tag::String("Compound tag #0".into()).with_name("name"),
                Tag::Long(1264099775885).with_name("created-on"),
            ]),
            Tag::Compound(vec![
                Tag::String("Compound tag #1".into()).with_name("name"),
                Tag::Long(1264099775885).with_name("created-on"),
            ]),
        ])
        .with_name("listTest (compound)"),
        Tag::Byte(127).with_name("byteTest"),
        Tag::ByteArray(byte_array_of_the_big_example()).with_name(
            "byteArrayTest (the first 1000 values of (n*n*255+n*7)%100, starting with n=0 (0, 62, 34, 16, 8, ...))",
        ),
        Tag::Double(0.4931287132182315f64.to_bits()).with_name("doubleTest"),
    ])
    .with_name("Level")
}

#[test]
fn big_example_round_trips() {
    let original = big_example();
    let bytes = original.bytes().expect("serialize");
    assert_eq!(bytes.len(), 1544);
    let Deserialized { value: unserialized, data: rest } =
        NamedTag::root_compound_tag_from_bytes(bytes.as_slice()).expect("deserialize");
    assert!(rest.is_empty());
    assert_eq!(unserialized, original);
    assert_eq!(unserialized.bytes().expect("serialize again"), bytes);
    assert_eq!(unserialized.clone(), original);
}

#[test]
fn every_kind_round_trips() {
    let original = Tag::Compound(vec![
        Tag::Byte(-128).with_name("b"),
        Tag::Short(-2).with_name("s"),
        Tag::Int(i32::MIN).with_name("i"),
        Tag::Long(i64::MIN).with_name("l"),
        Tag::Float(f32::NAN.to_bits()).with_name("f"),
        Tag::Double((-0.0f64).to_bits()).with_name("d"),
        Tag::ByteArray(vec![]).with_name("ba"),
        Tag::ByteArray(vec![0, 255]).with_name("ba2"),
        Tag::String(String::new()).with_name(""),
        Tag::List(vec![]).with_name("empty list"),
        Tag::List(vec![Tag::List(vec![Tag::Byte(1)]), Tag::List(vec![])]).with_name("lists"),
        Tag::List(vec![Tag::End, Tag::End, Tag::End]).with_name("ends"),
        Tag::Compound(vec![]).with_name("empty compound"),
        Tag::IntArray(vec![]).with_name("ia"),
        Tag::LongArray(vec![i64::MAX]).with_name("la"),
    ])
    .with_name("all");
    let bytes = original.bytes().expect("serialize");
    let Deserialized { value: unserialized, data: rest } =
        NamedTag::root_compound_tag_from_bytes(bytes.as_slice()).expect("deserialize");
    assert!(rest.is_empty());
    assert_eq!(unserialized, original);
}

#[test]
fn tag_bytes_are_exact() {
    assert_eq!(Tag::Byte(-1).bytes().unwrap(), vec![0xFF]);
    assert_eq!(Tag::Short(258).bytes().unwrap(), vec![1, 2]);
    assert_eq!(Tag::Int(-2).bytes().unwrap(), vec![0xFF, 0xFF, 0xFF, 0xFE]);
    assert_eq!(Tag::Long(1).bytes().unwrap(), vec![0, 0, 0, 0, 0, 0, 0, 1]);
    assert_eq!(Tag::Float(1.0f32.to_bits()).bytes().unwrap(), vec![0x3F, 0x80, 0, 0]);
    assert_eq!(
        Tag::Double(1.0f64.to_bits()).bytes().unwrap(),
        vec![0x3F, 0xF0, 0, 0, 0, 0, 0, 0]
    );
    assert_eq!(Tag::ByteArray(vec![7, 8]).bytes().unwrap(), vec![0, 0, 0, 2, 7, 8]);
    assert_eq!(Tag::String("hi".into()).bytes().unwrap(), vec![0, 2, b'h', b'i']);
    assert_eq!(
        Tag::List(vec![Tag::Short(1), Tag::Short(2)]).bytes().unwrap(),
        vec![2, 0, 0, 0, 2, 0, 1, 0, 2]
    );
    assert_eq!(Tag::List(vec![]).bytes().unwrap(), vec![0, 0, 0, 0, 0]);
    assert_eq!(Tag::IntArray(vec![1]).bytes().unwrap(), vec![0, 0, 0, 1, 0, 0, 0, 1]);
    assert_eq!(
        Tag::LongArray(vec![-1]).bytes().unwrap(),
        vec![0, 0, 0, 1, 0xFF, 0xFF, 0xFF, 0xFF, 0xFF, 0xFF, 0xFF, 0xFF]
    );
    assert_eq!(Tag::End.bytes().unwrap(), Vec::<u8>::new());
    assert_eq!(
        Tag::Compound(vec![Tag::Byte(5).with_name("a")]).bytes().unwrap(),
        vec![1, 0, 1, b'a', 5, 0]
    );
    assert_eq!(Tag::Compound(vec![]).bytes().unwrap(), vec![0]);
    assert_eq!(Tag::Byte(5).with_name("ab").bytes().unwrap(), vec![1, 0, 2, b'a', b'b', 5]);
    assert_eq!(Tag::End.with_name("ignored").bytes().unwrap(), vec![0]);
}

#[test]
fn tag_ids_and_names() {
    let tags = [
        (Tag::End, 0x00, "END"),
        (Tag::Byte(0), 0x01, "Byte"),
        (Tag::Short(0), 0x02, "Short"),
        (Tag::Int(0), 0x03, "Int"),
        (Tag::Long(0), 0x04, "Long"),
        (Tag::Float(0), 0x05, "Float"),
        (Tag::Double(0), 0x06, "Double"),
        (Tag::ByteArray(vec![]), 0x07, "Byte_Array"),
        (Tag::String(String::new()), 0x08, "String"),
        (Tag::List(vec![]), 0x09, "List"),
        (Tag::Compound(vec![]), 0x0A, "Compound"),
        (Tag::IntArray(vec![]), 0x0B, "Int_Array"),
        (Tag::LongArray(vec![]), 0x0C, "Long_Array"),
    ];
    for (tag, id, name) in tags {
        assert_eq!(tag.id(), id);
        assert_eq!(tag.tag_type_name(), name);
    }
    assert!(Tag::End.with_name("").is_end());
    assert!(!Tag::Byte(0).with_name("").is_end());
}

#[test]
fn list_of_mixed_kinds_cannot_be_written() {
    let mixed = Tag::List(vec![Tag::Byte(1), Tag::Short(2)]);
    assert!(matches!(mixed.bytes(), Err(SerializeErr::CannotSerialize(_))));
    let nested = Tag::Compound(vec![Tag::List(vec![Tag::List(vec![
        Tag::Int(1),
        Tag::Int(2),
        Tag::Long(3),
    ])])
    .with_name("deep")])
    .with_name("root");
    assert!(matches!(nested.bytes(), Err(SerializeErr::CannotSerialize(_))));
}

#[test]
fn root_has_to_be_a_compound() {
    assert!(matches!(
        NamedTag::root_compound_tag_from_bytes(&[0x01, 0, 0, 5]),
        Err(DeserializeErr::NbtInvalidStartTag(0x01))
    ));
    assert!(matches!(
        NamedTag::root_compound_tag_from_bytes(&[0x00]),
        Err(DeserializeErr::NbtInvalidStartTag(0x00))
    ));
    assert!(matches!(NamedTag::root_compound_tag_from_bytes(&[]), Err(DeserializeErr::Eof)));
}

#[test]
fn unknown_kind_is_refused() {
    assert!(matches!(read_tag(0x0D, &[1, 2, 3]), Err(DeserializeErr::NbtUnknownTagType(0x0D))));
    assert!(matches!(
        read_named_tag(&[0xFF, 0, 0, 1]),
        Err(DeserializeErr::NbtUnknownTagType(0xFF))
    ));
}

#[test]
fn bad_lengths_are_refused() {
    // a list of bytes with no items
    assert!(matches!(
        read_tag(0x09, &[0x01, 0, 0, 0, 0]),
        Err(DeserializeErr::NbtBadLength(0))
    ));
    // a list of bytes with a count below zero
    assert!(matches!(
        read_tag(0x09, &[0x01, 0xFF, 0xFF, 0xFF, 0xFF]),
        Err(DeserializeErr::NbtBadLength(-1))
    ));
    // arrays with a count below zero
    assert!(matches!(
        read_tag(0x07, &[0xFF, 0xFF, 0xFF, 0xFE, 1, 2]),
        Err(DeserializeErr::NbtBadLength(-2))
    ));
    assert!(matches!(
        read_tag(0x0B, &[0x80, 0, 0, 0]),
        Err(DeserializeErr::NbtBadLength(-2147483648))
    ));
    assert!(matches!(
        read_tag(0x0C, &[0xFF, 0xFF, 0xFF, 0xFF]),
        Err(DeserializeErr::NbtBadLength(-1))
    ));
}

#[test]
fn empty_list_of_no_kind_reads_whatever_its_count() {
    let back = read_tag(0x09, &[0x00, 0xFF, 0xFF, 0xFF, 0xFF, 9]).expect("reads");
    assert_eq!(back.value, Tag::List(vec![]));
    assert_eq!(back.data, &[9]);
}

#[test]
fn truncated_input_is_eof() {
    let bytes = big_example().bytes().expect("serialize");
    for cut in [0usize, 1, 2, 3, 8, 20, 100, bytes.len() - 1] {
        assert!(
            matches!(
                NamedTag::root_compound_tag_from_bytes(&bytes[..cut]),
                Err(DeserializeErr::Eof)
            ),
            "cut at {}",
            cut
        );
    }
    assert!(matches!(read_tag(0x07, &[0, 0, 0, 3, 1, 2]), Err(DeserializeErr::Eof)));
    assert!(matches!(read_tag(0x0B, &[0, 0, 0, 1, 1, 2]), Err(DeserializeErr::Eof)));
}

#[test]
fn compound_ends_at_its_end_tag() {
    // two children, the end tag, then what follows the compound
    let data = [1, 0, 1, b'a', 5, 3, 0, 1, b'b', 0, 0, 0, 9, 0, 0xAA, 0xBB];
    let back = read_tag(0x0A, &data).expect("reads");
    assert_eq!(
        back.value,
        Tag::Compound(vec![Tag::Byte(5).with_name("a"), Tag::Int(9).with_name("b")])
    );
    assert_eq!(back.data, &[0xAA, 0xBB]);
    if let Tag::Compound(children) = back.value {
        assert!(children.iter().all(|child| !child.is_end()));
    }
}

#[test]
fn name_that_is_not_utf8_is_refused() {
    assert!(matches!(
        read_named_tag(&[1, 0, 2, 0xC3, 0x28, 5]),
        Err(DeserializeErr::BadStringEncoding(_))
    ));
}

#[test]
fn with_name_keeps_the_tag() {
    let named = Tag::Int(7).with_name("seven");
    assert_eq!(named.name, "seven");
    assert_eq!(named.payload, Tag::Int(7));
}
