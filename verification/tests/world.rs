use mcproto_rs::nbt::Tag;
use mcproto_rs::types::{BytesSerializer, ChunkPosition, NamedNbtTag, VarInt, Vec3};
use mcproto_rs::v1_16_3::{
    ChunkData, LightingData, LightingUpdateSpec, MultiBlockChangeRecord, LIGHT_DATA_LENGTH,
    LIGHT_DATA_SECTIONS,
};
use mcproto_rs::{Deserialize, DeserializeErr, Serialize};
use std::fmt::Debug;

fn to_bytes<S: Serialize>(value: &S) -> Vec<u8> {
    let mut test = BytesSerializer::default();
    value.mc_serialize(&mut test).expect("serialization should succeed");
    test.into_bytes()
}

fn test_type<S: Serialize + Deserialize + PartialEq + Debug>(value: S) {
    let bytes = to_bytes(&value);
    let deserialized = S::mc_deserialize(bytes.as_slice()).expect("deserialization should succeed");
    assert!(deserialized.data.is_empty());
    assert_eq!(deserialized.value, value, "deserialized value == serialized value");
    assert_eq!(to_bytes(&deserialized.value), bytes);
}

fn record(block_id: u64, x: i8, y: i8, z: i8) -> MultiBlockChangeRecord {
    MultiBlockChangeRecord { block_id, rel_position: Vec3 { x, y, z } }
}

#[test]
fn block_change_record_is_one_var_long() {
    // 5 << 12 | 1 << 8 | 2 << 4 | 3 = 0x5123
    assert_eq!(to_bytes(&record(5, 1, 2, 3)), vec![0xA3, 0xA2, 0x01]);
    assert_eq!(to_bytes(&record(0, 0, 0, 0)), vec![0x00]);
    assert_eq!(to_bytes(&record(0, 0, 0, 15)), vec![0x0F]);
    test_type(record(5, 1, 2, 3));
    test_type(record(0, 0, 0, 0));
    test_type(record((1 << 52) - 1, 15, 15, 15));
    for x in 0..16 {
        test_type(record(77, x, 15 - x, x / 2));
    }
}

#[test]
fn block_change_record_keeps_four_bits_of_each_coordinate() {
    let bytes = to_bytes(&record(1, -1, 16, 0x21));
    let back = MultiBlockChangeRecord::mc_deserialize(&bytes).expect("decodes").value;
    assert_eq!(back, record(1, 15, 0, 1));
    // a state beyond 52 bits loses what does not fit
    let bytes = to_bytes(&record(1 << 52, 0, 0, 0));
    let back = MultiBlockChangeRecord::mc_deserialize(&bytes).expect("decodes").value;
    assert_eq!(back, record(0, 0, 0, 0));
    assert!(matches!(MultiBlockChangeRecord::mc_deserialize(&[]), Err(DeserializeErr::Eof)));
    assert!(matches!(MultiBlockChangeRecord::mc_deserialize(&[0x80]), Err(DeserializeErr::Eof)));
}

fn no_heightmaps() -> NamedNbtTag {
    NamedNbtTag { root: Tag::Compound(Vec::new()).with_name("") }
}

#[test]
fn chunk_data_says_whether_biomes_follow() {
    let partial = ChunkData {
        position: ChunkPosition { x: 1, z: -2 },
        primary_bit_mask: VarInt(3),
        heightmaps: no_heightmaps(),
        biomes: None,
        data: vec![7u8, 8].into(),
        block_entities: Vec::new(),
    };
    assert_eq!(
        to_bytes(&partial),
        vec![
            0, 0, 0, 1, 0xFF, 0xFF, 0xFF, 0xFE, // position
            0x00, // no biomes
            0x03, // bit mask
            0x0A, 0x00, 0x00, 0x00, // height maps
            0x02, 7, 8, // data
            0x00, // no block entities
        ]
    );
    test_type(partial);
    let whole = ChunkData {
        position: ChunkPosition { x: 0, z: 0 },
        primary_bit_mask: VarInt(1),
        heightmaps: no_heightmaps(),
        biomes: Some(vec![VarInt(1), VarInt(300)].into()),
        data: Vec::new().into(),
        block_entities: vec![
            NamedNbtTag { root: Tag::Compound(vec![Tag::Byte(4).with_name("a")]).with_name("e") },
            no_heightmaps(),
        ],
    };
    assert_eq!(
        to_bytes(&whole),
        vec![
            0, 0, 0, 0, 0, 0, 0, 0, // position
            0x01, // biomes follow
            0x01, // bit mask
            0x0A, 0x00, 0x00, 0x00, // height maps
            0x02, 0x01, 0xAC, 0x02, // biomes
            0x00, // data
            0x02, // two block entities
            0x0A, 0x00, 0x01, b'e', 0x01, 0x00, 0x01, b'a', 0x04, 0x00, // the first
            0x0A, 0x00, 0x00, 0x00, // the second
        ]
    );
    test_type(whole);
}

#[test]
fn chunk_data_that_breaks_off_is_refused() {
    let bytes = vec![
        0, 0, 0, 0, 0, 0, 0, 0, 0x00, 0x01, 0x0A, 0x00, 0x00, 0x00, 0x00, 0x02, 0x0A, 0x00, 0x00,
        0x00,
    ];
    assert!(matches!(ChunkData::mc_deserialize(&bytes), Err(DeserializeErr::Eof)));
    assert!(matches!(ChunkData::mc_deserialize(&bytes[..5]), Err(DeserializeErr::Eof)));
    // a block entity has to be a compound
    let mut wrong = bytes.clone();
    wrong.extend_from_slice(&[0x01, 0x00, 0x00, 0x00]);
    assert!(matches!(
        ChunkData::mc_deserialize(&wrong),
        Err(DeserializeErr::NbtInvalidStartTag(0x01))
    ));
}

fn light(sections: &[usize]) -> LightingData {
    let mut data: Box<[Option<[u8; LIGHT_DATA_LENGTH]>; LIGHT_DATA_SECTIONS]> =
        Box::new([None; LIGHT_DATA_SECTIONS]);
    for &section in sections {
        let mut bytes = [0u8; LIGHT_DATA_LENGTH];
        for (at, byte) in bytes.iter_mut().enumerate() {
            *byte = (at + section) as u8;
        }
        data[section] = Some(bytes);
    }
    LightingData { data }
}

#[test]
fn light_masks_have_a_bit_for_each_section() {
    assert_eq!(light(&[]).update_mask(), VarInt(0));
    assert_eq!(light(&[]).reset_mask(), VarInt(0x3FFFF));
    assert_eq!(light(&[0]).update_mask(), VarInt(1));
    assert_eq!(light(&[0, 17]).update_mask(), VarInt(0x20001));
    assert_eq!(light(&[0, 17]).reset_mask(), VarInt(0x1FFFE));
    assert_eq!(light(&[3, 4, 9]).update_mask(), VarInt(0x218));
    let all: Vec<usize> = (0..LIGHT_DATA_SECTIONS).collect();
    assert_eq!(light(&all).update_mask(), VarInt(0x3FFFF));
    assert_eq!(light(&all).reset_mask(), VarInt(0));
    let update = LightingUpdateSpec { skylight_data: light(&[1]), blocklight_data: light(&[2]) };
    assert_eq!(
        update.get_masks(),
        ((VarInt(2), VarInt(0x3FFFD)), (VarInt(4), VarInt(0x3FFFB)))
    );
}

#[test]
fn light_update_round_trips() {
    let update =
        LightingUpdateSpec { skylight_data: light(&[0, 17]), blocklight_data: light(&[]) };
    let bytes = to_bytes(&update);
    // masks: 0x20001, 0, 0x1FFFE, 0x3FFFF; then two sections behind their length
    assert_eq!(bytes.len(), 3 + 1 + 3 + 3 + 2 * (2 + LIGHT_DATA_LENGTH));
    assert_eq!(&bytes[..3], &[0x81, 0x80, 0x08]);
    assert_eq!(bytes[3], 0x00);
    assert_eq!(&bytes[4..7], &[0xFE, 0xFF, 0x07]);
    assert_eq!(&bytes[7..10], &[0xFF, 0xFF, 0x0F]);
    assert_eq!(&bytes[10..12], &[0x80, 0x10]);
    assert_eq!(bytes[12], 0);
    assert_eq!(bytes[13], 1);
    test_type(update);
    test_type(LightingUpdateSpec { skylight_data: light(&[]), blocklight_data: light(&[]) });
    test_type(LightingUpdateSpec { skylight_data: light(&[5]), blocklight_data: light(&[5, 6]) });
    let all: Vec<usize> = (0..LIGHT_DATA_SECTIONS).collect();
    test_type(LightingUpdateSpec { skylight_data: light(&all), blocklight_data: light(&[16]) });
}

#[test]
fn light_sections_are_read_by_the_update_mask() {
    let mut bytes = vec![0x80, 0x10];
    bytes.extend(std::iter::repeat(9u8).take(LIGHT_DATA_LENGTH));
    bytes.push(0x55);
    let read = LightingData::deserialize(VarInt(1 << 4), &bytes).expect("decodes");
    assert_eq!(read.data, &[0x55]);
    for (section, content) in read.value.data.iter().enumerate() {
        if section == 4 {
            assert_eq!(*content, Some([9u8; LIGHT_DATA_LENGTH]));
        } else {
            assert_eq!(*content, None);
        }
    }
    // bits beyond the eighteenth section are passed over
    let read = LightingData::deserialize(VarInt(1 << 18), &bytes).expect("decodes");
    assert_eq!(read.data.len(), bytes.len());
    assert_eq!(read.value, light(&[]));
    let read = LightingData::deserialize(VarInt(0), &[]).expect("decodes");
    assert_eq!(read.value, light(&[]));
}

#[test]
fn light_sections_of_another_length_are_refused() {
    match LightingData::deserialize(VarInt(1), &[0x05, 1, 2, 3, 4, 5]) {
        Err(DeserializeErr::CannotUnderstandValue(message)) => {
            assert_eq!(message, "bad data length in light update 5")
        }
        other => panic!("expected CannotUnderstandValue, got {:?}", other.map(|d| d.value)),
    }
    match LightingData::deserialize(VarInt(2), &[0xFF, 0xFF, 0xFF, 0xFF, 0x0F]) {
        Err(DeserializeErr::CannotUnderstandValue(message)) => {
            assert_eq!(message, "bad data length in light update -1")
        }
        other => panic!("expected CannotUnderstandValue, got {:?}", other.map(|d| d.value)),
    }
    let mut short = vec![0x80, 0x10];
    short.extend(std::iter::repeat(0u8).take(LIGHT_DATA_LENGTH - 1));
    assert!(matches!(LightingData::deserialize(VarInt(1), &short), Err(DeserializeErr::Eof)));
    assert!(matches!(LightingData::deserialize(VarInt(1), &[]), Err(DeserializeErr::Eof)));
    assert!(matches!(
        LightingUpdateSpec::mc_deserialize(&[0x01, 0x00, 0x00]),
        Err(DeserializeErr::Eof)
    ));
}
