use mcproto_rs::nbt::Tag;
use mcproto_rs::types::{
    Angle, BytesSerializer, CountedArray, IntPosition, ItemStack, NamedNbtTag, RemainingBytes,
    VarInt, VarLong,
};
use mcproto_rs::uuid::UUID4;
use mcproto_rs::{Deserialize, DeserializeErr, Serialize};
use std::fmt::Debug;

fn to_bytes<S: Serialize>(value: &S) -> Vec<u8> {
    let mut test = BytesSerializer::default();
    value.mc_serialize(&mut test).expect("serialization should succeed");
    test.into_bytes()
}

fn test_type<S: Serialize + Deserialize + PartialEq + Debug>(value: S) {
    let bytes = to_bytes(&value);
    let deserialized = S::mc_deserialize(bytes.as_slice()).expect("deserialization should succeed");
    assert!(deserialized.data.is_empty());
    assert_eq!(deserialized.value, value, "deserialized value == serialized value");
    let re_serialized = to_bytes(&deserialized.value);
    assert_eq!(re_serialized, bytes, "serialized value == original serialized bytes");
}

#[test]
fn test_bool() {
    test_type(true);
    test_type(false);
}

#[test]
fn test_signed_byte() {
    test_type(0i8);
    test_type(127i8);
    test_type(-15i8);
}

#[test]
fn test_unsigned_byte() {
    test_type(0u8);
    test_type(128u8);
    test_type(255u8);
}

#[test]
fn test_signed_short() {
    test_type(0i16);
    test_type(-88i16);
    test_type(25521i16);
}

#[test]
fn test_unsigned_short() {
    test_type(0u16);
    test_type(1723u16);
    test_type(65534u16);
}

#[test]
fn test_signed_int() {
    test_type(0i32);
    test_type(123127i32);
    test_type(-171238i32);
    test_type(2147483647i32);
}

#[test]
fn test_signed_long() {
    test_type(0i64);
    test_type(123127i64);
    test_type(-12123127i64);
    test_type(2147483647i64);
    test_type(-10170482028482i64);
}

#[test]
fn test_float() {
    test_type(0.2313f32.to_bits());
    test_type(0f32.to_bits());
    test_type(123123213f32.to_bits());
    test_type((-123123f32).to_bits());
    assert_eq!(to_bytes(&0.2313f32.to_bits()), 0.2313f32.to_be_bytes().to_vec());
    assert_eq!(to_bytes(&(-123123f32).to_bits()), (-123123f32).to_be_bytes().to_vec());
}

#[test]
fn test_double() {
    test_type(0.2313f64.to_bits());
    test_type(0f64.to_bits());
    test_type(123123213f64.to_bits());
    test_type((-123123f64).to_bits());
    assert_eq!(to_bytes(&0.2313f64.to_bits()), 0.2313f64.to_be_bytes().to_vec());
    assert_eq!(to_bytes(&(-123123f64).to_bits()), (-123123f64).to_be_bytes().to_vec());
}

#[test]
fn test_var_int() {
    test_type(VarInt(0));
    test_type(VarInt(1231231));
    test_type(VarInt(2147483647));
    test_type(VarInt(-2147483648));
    test_type(VarInt(-1));
    test_type(VarInt(-1001237));
}

#[test]
fn test_var_long() {
    test_type(VarLong(0));
    test_type(VarLong(1231231));
    test_type(VarLong(12312319123));
    test_type(VarLong(9223372036854775807));
    test_type(VarLong(-1));
    test_type(VarLong(-12312319123));
    test_type(VarLong(-9223372036854775808));
    test_type(VarLong(-1001237));
}

#[test]
fn test_string() {
    test_type(String::from("hello my name is joey 123"));
    test_type(String::from(""));
    test_type(String::from("AAAA"));
    test_type(String::from("hello my name is joey 123").repeat(1000));
}

#[test]
fn test_nbt() {
    test_type(NamedNbtTag {
        root: Tag::Compound(vec![Tag::String("test 123".to_owned()).with_name("abc 123")])
            .with_name("root"),
    })
}

#[test]
fn test_int_position() {
    test_type(IntPosition { x: 12312, y: -32, z: 321312 });
    test_type(IntPosition { x: 12312, y: -32, z: -321312 });
    test_type(IntPosition { x: -12312, y: -32, z: -321312 });
    test_type(IntPosition { x: -12312, y: 32, z: 321312 });
    test_type(IntPosition { x: 0, y: 0, z: 0 });
    test_type(IntPosition { x: 48, y: 232, z: 12 });
    test_type(IntPosition { x: 33554431, y: 2047, z: 33554431 });
    test_type(IntPosition { x: -33554432, y: -2048, z: -33554432 });
    test_type(IntPosition { x: 3, y: 0, z: 110655 });
}

#[test]
fn test_uuid() {
    for _ in 0..5 {
        test_type(UUID4::random());
    }
}

#[test]
fn test_angle() {
    test_type(Angle { value: 0 });
    test_type(Angle { value: 24 });
    test_type(Angle { value: 255 });
    test_type(Angle { value: 8 });
}

#[test]
fn unsigned_and_wide_integers_round_trip() {
    test_type(0u32);
    test_type(4294967295u32);
    test_type(18446744073709551615u64);
    test_type(340282366920938463463374607431768211455u128);
    test_type(-170141183460469231731687303715884105728i128);
    test_type(170141183460469231731687303715884105727i128);
}

#[test]
fn integers_are_big_endian() {
    assert_eq!(to_bytes(&0x1234u16), vec![0x12, 0x34]);
    assert_eq!(to_bytes(&0x12345678i32), vec![0x12, 0x34, 0x56, 0x78]);
    assert_eq!(to_bytes(&-2i16), vec![0xFF, 0xFE]);
    assert_eq!(to_bytes(&-1i64), vec![0xFF; 8]);
    assert_eq!(
        to_bytes(&0x0102030405060708090A0B0C0D0E0F10u128),
        vec![1, 2, 3, 4, 5, 6, 7, 8, 9, 10, 11, 12, 13, 14, 15, 16]
    );
}

#[test]
fn var_int_300_is_two_bytes() {
    let bytes = to_bytes(&VarInt(300));
    assert_eq!(bytes, vec![0xAC, 0x02]);
    let back = VarInt::mc_deserialize(bytes.as_slice()).expect("deserialization should succeed");
    assert_eq!(back.value, VarInt(300));
    assert!(back.data.is_empty());
}

#[test]
fn var_int_known_encodings() {
    assert_eq!(to_bytes(&VarInt(0)), vec![0x00]);
    assert_eq!(to_bytes(&VarInt(1)), vec![0x01]);
    assert_eq!(to_bytes(&VarInt(127)), vec![0x7F]);
    assert_eq!(to_bytes(&VarInt(128)), vec![0x80, 0x01]);
    assert_eq!(to_bytes(&VarInt(2147483647)), vec![0xFF, 0xFF, 0xFF, 0xFF, 0x07]);
    assert_eq!(to_bytes(&VarInt(-1)), vec![0xFF, 0xFF, 0xFF, 0xFF, 0x0F]);
    assert_eq!(to_bytes(&VarInt(-2147483648)), vec![0x80, 0x80, 0x80, 0x80, 0x08]);
    assert_eq!(
        to_bytes(&VarLong(-1)),
        vec![0xFF, 0xFF, 0xFF, 0xFF, 0xFF, 0xFF, 0xFF, 0xFF, 0xFF, 0x01]
    );
    assert_eq!(
        to_bytes(&VarLong(9223372036854775807)),
        vec![0xFF, 0xFF, 0xFF, 0xFF, 0xFF, 0xFF, 0xFF, 0xFF, 0x7F]
    );
}

#[test]
fn var_int_length_grows_with_the_pattern() {
    let samples: [u32; 12] =
        [0, 1, 127, 128, 16383, 16384, 2097151, 2097152, 268435455, 268435456, 2147483648, 4294967295];
    let mut last = 0;
    for v in samples {
        let n = to_bytes(&VarInt(v as i32)).len();
        assert!(n >= last);
        assert!(n >= 1 && n <= 5);
        last = n;
    }
    assert_eq!(to_bytes(&VarLong(i64::MIN)).len(), 10);
    assert_eq!(to_bytes(&VarLong(i64::MAX)).len(), 9);
}

#[test]
fn var_int_stops_at_the_first_clear_top_bit() {
    let data = [0xAC, 0x02, 0xFF, 0x01];
    let back = VarInt::mc_deserialize(&data).expect("deserialization should succeed");
    assert_eq!(back.value, VarInt(300));
    assert_eq!(back.data, &[0xFF, 0x01]);
}

#[test]
fn var_int_that_never_ends_is_too_long() {
    let data = [0x80, 0x80, 0x80, 0x80, 0x80, 0x01];
    match VarInt::mc_deserialize(&data) {
        Err(DeserializeErr::VarNumTooLong(seen)) => assert_eq!(seen, vec![0x80; 5]),
        other => panic!("expected VarNumTooLong, got {:?}", other.map(|d| d.value)),
    }
    let data = [0xFF; 11];
    assert!(matches!(VarLong::mc_deserialize(&data), Err(DeserializeErr::VarNumTooLong(_))));
}

#[test]
fn var_int_cut_short_is_eof() {
    assert!(matches!(VarInt::mc_deserialize(&[]), Err(DeserializeErr::Eof)));
    assert!(matches!(VarInt::mc_deserialize(&[0x80, 0x80]), Err(DeserializeErr::Eof)));
    assert!(matches!(VarLong::mc_deserialize(&[0xFF; 9]), Err(DeserializeErr::Eof)));
}

#[test]
fn var_int_drops_bits_beyond_its_width() {
    // the fifth byte carries four bits that do not fit
    let back = VarInt::mc_deserialize(&[0xFF, 0xFF, 0xFF, 0xFF, 0x7F]).expect("decodes");
    assert_eq!(back.value, VarInt(-1));
}

#[test]
fn fixed_width_reads_fail_on_short_input() {
    assert!(matches!(u8::mc_deserialize(&[]), Err(DeserializeErr::Eof)));
    assert!(matches!(i16::mc_deserialize(&[1]), Err(DeserializeErr::Eof)));
    assert!(matches!(u32::mc_deserialize(&[]), Err(DeserializeErr::Eof)));
    assert!(matches!(i64::mc_deserialize(&[0; 7]), Err(DeserializeErr::Eof)));
    assert!(matches!(u128::mc_deserialize(&[0; 15]), Err(DeserializeErr::Eof)));
    assert!(matches!(IntPosition::mc_deserialize(&[0; 7]), Err(DeserializeErr::Eof)));
    assert!(matches!(bool::mc_deserialize(&[]), Err(DeserializeErr::Eof)));
}

#[test]
fn fixed_width_reads_leave_the_rest() {
    let back = u16::mc_deserialize(&[0x01, 0x02, 0x03]).expect("decodes");
    assert_eq!(back.value, 0x0102);
    assert_eq!(back.data, &[0x03]);
}

#[test]
fn bool_takes_only_zero_and_one() {
    assert_eq!(to_bytes(&true), vec![1]);
    assert_eq!(to_bytes(&false), vec![0]);
    assert!(matches!(bool::mc_deserialize(&[2]), Err(DeserializeErr::InvalidBool(2))));
    assert!(matches!(bool::mc_deserialize(&[0xFF]), Err(DeserializeErr::InvalidBool(0xFF))));
}

#[test]
fn string_is_length_then_utf8() {
    assert_eq!(to_bytes(&String::from("héllo")), vec![6, b'h', 0xC3, 0xA9, b'l', b'l', b'o']);
    assert_eq!(to_bytes(&String::new()), vec![0]);
}

#[test]
fn string_with_negative_length_is_refused() {
    // VarInt(-1), then anything
    let data = [0xFF, 0xFF, 0xFF, 0xFF, 0x0F, b'a'];
    assert!(matches!(String::mc_deserialize(&data), Err(DeserializeErr::NegativeLength(-1))));
}

#[test]
fn string_that_is_not_utf8_is_refused() {
    let data = [2, 0xC3, 0x28];
    assert!(matches!(String::mc_deserialize(&data), Err(DeserializeErr::BadStringEncoding(_))));
}

#[test]
fn string_cut_short_is_eof() {
    let data = [5, b'a', b'b'];
    assert!(matches!(String::mc_deserialize(&data), Err(DeserializeErr::Eof)));
}

#[test]
fn int_position_packs_x_z_y() {
    // x in the top 26 bits, z in the next 26, y in the low 12
    assert_eq!(
        to_bytes(&IntPosition { x: 1, y: 2, z: 3 }),
        ((1u64 << 38) | (3u64 << 12) | 2u64).to_be_bytes().to_vec()
    );
    assert_eq!(to_bytes(&IntPosition { x: -1, y: -1, z: -1 }), vec![0xFF; 8]);
}

#[test]
fn option_is_flag_then_value() {
    assert_eq!(to_bytes(&Some(VarInt(300))), vec![1, 0xAC, 0x02]);
    assert_eq!(to_bytes(&None::<VarInt>), vec![0]);
    test_type(Some(String::from("present")));
    test_type(None::<String>);
    assert!(matches!(
        <Option<u8>>::mc_deserialize(&[7, 1]),
        Err(DeserializeErr::InvalidBool(7))
    ));
    assert!(matches!(<Option<u16>>::mc_deserialize(&[1, 1]), Err(DeserializeErr::Eof)));
}

#[test]
fn counted_array_is_count_then_items() {
    let array: CountedArray<u16, VarInt> = vec![1u16, 2, 515].into();
    assert_eq!(to_bytes(&array), vec![3, 0, 1, 0, 2, 2, 3]);
    test_type(array);
    let array: CountedArray<String, i16> = vec![String::from("a"), String::from("bc")].into();
    assert_eq!(to_bytes(&array), vec![0, 2, 1, b'a', 2, b'b', b'c']);
    test_type(array);
    let empty: CountedArray<i64, i8> = Vec::new().into();
    assert_eq!(to_bytes(&empty), vec![0]);
    test_type(empty);
    let array: CountedArray<u8, i32> = vec![9u8].into();
    assert_eq!(to_bytes(&array), vec![0, 0, 0, 1, 9]);
    test_type(array);
}

#[test]
fn counted_array_with_too_few_items_is_eof() {
    let data = [3, 0, 1, 0, 2];
    assert!(matches!(
        <CountedArray<u16, VarInt>>::mc_deserialize(&data),
        Err(DeserializeErr::Eof)
    ));
    // a count below zero announces more items than any input holds
    let data = [0xFF, 1, 2, 3];
    assert!(matches!(<CountedArray<u8, i8>>::mc_deserialize(&data), Err(DeserializeErr::Eof)));
}

#[test]
fn remaining_bytes_take_everything() {
    let back = RemainingBytes::mc_deserialize(&[1, 2, 3]).expect("decodes");
    assert_eq!(back.value, RemainingBytes { data: vec![1, 2, 3] });
    assert!(back.data.is_empty());
    test_type(RemainingBytes { data: vec![] });
    test_type(RemainingBytes::from(vec![0, 255, 7]));
}

#[test]
fn item_stack_round_trips() {
    test_type(ItemStack { item_id: VarInt(5), item_count: 64, nbt: None });
    assert_eq!(
        to_bytes(&ItemStack { item_id: VarInt(5), item_count: 64, nbt: None }),
        vec![5, 64, 0]
    );
    test_type(ItemStack {
        item_id: VarInt(700),
        item_count: -1,
        nbt: Some(Tag::Compound(vec![Tag::Int(3).with_name("Damage")]).with_name("")),
    });
    test_type(Some(ItemStack { item_id: VarInt(1), item_count: 1, nbt: None }));
}

#[test]
fn item_stack_cut_short_is_eof() {
    assert!(matches!(ItemStack::mc_deserialize(&[5, 64]), Err(DeserializeErr::Eof)));
}

#[test]
fn uuid_is_sixteen_bytes() {
    let id = UUID4::from(0x0102030405060708090A0B0C0D0E0F10u128);
    assert_eq!(to_bytes(&id), vec![1, 2, 3, 4, 5, 6, 7, 8, 9, 10, 11, 12, 13, 14, 15, 16]);
    test_type(id);
}

#[test]
fn angle_covers_the_whole_byte_range() {
    for value in 0..=255u8 {
        test_type(Angle { value });
    }
}

#[test]
fn vectors_are_their_parts_in_order() {
    let v = mcproto_rs::types::Vec3 { x: 1i16, y: 2, z: 3 };
    assert_eq!(to_bytes(&v), vec![0, 1, 0, 2, 0, 3]);
    test_type(v);
    let from: mcproto_rs::types::Vec3<i16> = (1i16, 2i16, 3i16).into();
    assert_eq!(from, v);
    let parts: (i16, i16, i16) = v.into();
    assert_eq!(parts, (1, 2, 3));
    test_type(mcproto_rs::types::Vec2 { x: VarInt(300), y: VarInt(-1) });
    test_type(mcproto_rs::types::ChunkPosition { x: -5i32, z: 9 });
    test_type(mcproto_rs::types::EntityRotation { yaw: Angle { value: 1 }, pitch: Angle { value: 2 } });
    test_type(mcproto_rs::types::EntityLocation {
        position: mcproto_rs::types::Vec3 { x: 1i64, y: -2, z: 3 },
        rotation: mcproto_rs::types::EntityRotation { yaw: 7i8, pitch: -7 },
    });
    assert!(matches!(
        <mcproto_rs::types::Vec3<u16>>::mc_deserialize(&[0, 1, 0, 2, 0]),
        Err(DeserializeErr::Eof)
    ));
}
