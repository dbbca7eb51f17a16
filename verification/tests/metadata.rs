use mcproto_rs::nbt::Tag;
use mcproto_rs::types::{BytesSerializer, IntPosition, ItemStack, NamedNbtTag, VarInt, Vec3};
use mcproto_rs::uuid::UUID4;
use mcproto_rs::v1_16_3::{
    BlockParticleData, DustParticleData, EntityDirection, EntityMetadata, EntityMetadataField,
    EntityMetadataFieldData, EntityPose, EntityVillagerData, ParticleSpec, VillagerProfession,
    VillagerType,
};
use mcproto_rs::{Deserialize, DeserializeErr, Serialize};
use std::fmt::Debug;

fn to_bytes<S: Serialize>(value: &S) -> Vec<u8> {
    let mut test = BytesSerializer::default();
    value.mc_serialize(&mut test).expect("serialization should succeed");
    test.into_bytes()
}

fn test_type<S: Serialize + Deserialize + PartialEq + Debug>(value: S) {
    let bytes = to_bytes(&value);
    let deserialized = S::mc_deserialize(bytes.as_slice()).expect("deserialization should succeed");
    assert!(deserialized.data.is_empty());
    assert_eq!(deserialized.value, value, "deserialized value == serialized value");
    assert_eq!(to_bytes(&deserialized.value), bytes);
}

fn every_kind_of_value() -> Vec<EntityMetadataFieldData> {
    vec![
        EntityMetadataFieldData::Byte(-3),
        EntityMetadataFieldData::VarInt(VarInt(300)),
        EntityMetadataFieldData::Float(1.5f32.to_bits()),
        EntityMetadataFieldData::String("name".to_owned()),
        EntityMetadataFieldData::Chat("{\"text\":\"hi\"}".to_owned()),
        EntityMetadataFieldData::OptChat(None),
        EntityMetadataFieldData::OptChat(Some("{\"text\":\"hi\"}".to_owned())),
        EntityMetadataFieldData::Slot(None),
        EntityMetadataFieldData::Slot(Some(ItemStack {
            item_id: VarInt(1),
            item_count: 2,
            nbt: None,
        })),
        EntityMetadataFieldData::Boolean(true),
        EntityMetadataFieldData::Rotation(Vec3 {
            x: 0.0f32.to_bits(),
            y: 90.0f32.to_bits(),
            z: (-1.0f32).to_bits(),
        }),
        EntityMetadataFieldData::Position(IntPosition { x: 1, y: 2, z: -3 }),
        EntityMetadataFieldData::OptPosition(Some(IntPosition { x: -1, y: 0, z: 3 })),
        EntityMetadataFieldData::Direction(EntityDirection::West),
        EntityMetadataFieldData::OptUUID(Some(UUID4::from(77u128))),
        EntityMetadataFieldData::OptBlockId(VarInt(0)),
        EntityMetadataFieldData::NBT(NamedNbtTag {
            root: Tag::Compound(vec![Tag::Byte(1).with_name("a")]).with_name(""),
        }),
        EntityMetadataFieldData::Particle(ParticleSpec::Heart),
        EntityMetadataFieldData::Particle(ParticleSpec::Block(BlockParticleData {
            block_state: VarInt(9),
        })),
        EntityMetadataFieldData::Particle(ParticleSpec::Dust(DustParticleData {
            red: 1.0f32.to_bits(),
            green: 0.5f32.to_bits(),
            blue: 0.0f32.to_bits(),
            scale: 2.0f32.to_bits(),
        })),
        EntityMetadataFieldData::Particle(ParticleSpec::Item(None)),
        EntityMetadataFieldData::VillagerData(EntityVillagerData {
            villager_type: VillagerType::Taiga,
            villager_profession: VillagerProfession::NoProfession,
            level: VarInt(5),
        }),
        EntityMetadataFieldData::OptVarInt(VarInt(1)),
        EntityMetadataFieldData::Pose(EntityPose::Sleeping),
    ]
}

#[test]
fn every_kind_of_value_round_trips() {
    for value in every_kind_of_value() {
        test_type(value);
    }
}

#[test]
fn values_are_numbered() {
    assert_eq!(EntityMetadataFieldData::variant_count(), 19);
    assert_eq!(EntityMetadataFieldData::Byte(0).id(), VarInt(0));
    assert_eq!(EntityMetadataFieldData::Pose(EntityPose::Dying).id(), VarInt(0x12));
    assert_eq!(EntityMetadataFieldData::Pose(EntityPose::Dying).name(), "Pose");
    assert_eq!(to_bytes(&EntityMetadataFieldData::Pose(EntityPose::Dying)), vec![0x12, 6]);
    assert_eq!(to_bytes(&EntityMetadataFieldData::Float(1.0f32.to_bits())), vec![2, 0x3F, 0x80, 0, 0]);
    assert_eq!(ParticleSpec::variant_count(), 62);
    assert_eq!(ParticleSpec::FallingNectar.id(), VarInt(0x3D));
    assert_eq!(ParticleSpec::ExposionEmitter.name(), "ExposionEmitter");
    assert_eq!(VillagerProfession::NoProfession.name(), "None");
    assert_eq!(VillagerProfession::Weaponsmith.id(), VarInt(0x0E));
    assert!(matches!(
        ParticleSpec::mc_deserialize(&[0x3E]),
        Err(DeserializeErr::CannotUnderstandValue(_))
    ));
    match EntityMetadataFieldData::mc_deserialize(&[0x13]) {
        Err(DeserializeErr::CannotUnderstandValue(message)) => {
            assert_eq!(message, "invalid EntityMetadataFieldData 19")
        }
        other => panic!("expected CannotUnderstandValue, got {:?}", other.map(|d| d.value)),
    }
}

#[test]
fn metadata_is_closed_by_ff() {
    let mut metadata = EntityMetadata::default();
    assert_eq!(to_bytes(&metadata), vec![0xFF]);
    test_type(metadata.clone());
    metadata.set(0, EntityMetadataFieldData::Byte(1));
    metadata.set(6, EntityMetadataFieldData::Pose(EntityPose::Sneaking));
    assert_eq!(to_bytes(&metadata), vec![0, 0, 1, 6, 0x12, 5, 0xFF]);
    test_type(metadata);
    let mut all = EntityMetadata::default();
    for (i, value) in every_kind_of_value().into_iter().enumerate() {
        all.set(i as u8, value);
    }
    assert_eq!(all.fields.len(), every_kind_of_value().len());
    test_type(all);
}

#[test]
fn metadata_that_breaks_off_is_refused() {
    assert!(matches!(EntityMetadata::mc_deserialize(&[]), Err(DeserializeErr::Eof)));
    assert!(matches!(EntityMetadata::mc_deserialize(&[0, 0, 1]), Err(DeserializeErr::Eof)));
    assert!(matches!(EntityMetadata::mc_deserialize(&[0, 0]), Err(DeserializeErr::Eof)));
    let back = EntityMetadata::mc_deserialize(&[0xFF, 1, 2]).expect("decodes");
    assert_eq!(back.value, EntityMetadata::default());
    assert_eq!(back.data, &[1, 2]);
}

#[test]
fn set_replaces_or_appends() {
    let mut metadata = EntityMetadata::default();
    metadata.set(3, EntityMetadataFieldData::Byte(1));
    metadata.set(1, EntityMetadataFieldData::Byte(2));
    metadata.set(3, EntityMetadataFieldData::Boolean(false));
    assert_eq!(
        metadata.fields,
        vec![
            EntityMetadataField { index: 3, data: EntityMetadataFieldData::Boolean(false) },
            EntityMetadataField { index: 1, data: EntityMetadataFieldData::Byte(2) },
        ]
    );
}

#[test]
fn get_finds_the_first_entry() {
    let metadata = EntityMetadata {
        fields: vec![
            EntityMetadataField { index: 3, data: EntityMetadataFieldData::Byte(1) },
            EntityMetadataField { index: 1, data: EntityMetadataFieldData::Byte(2) },
            EntityMetadataField { index: 3, data: EntityMetadataFieldData::Byte(3) },
        ],
    };
    assert_eq!(metadata.get(3), Some(&EntityMetadataFieldData::Byte(1)));
    assert_eq!(metadata.get(1), Some(&EntityMetadataFieldData::Byte(2)));
    assert_eq!(metadata.get(0), None);
}

#[test]
fn get_mut_changes_in_place() {
    let mut metadata = EntityMetadata::default();
    metadata.set(3, EntityMetadataFieldData::Byte(1));
    metadata.set(1, EntityMetadataFieldData::Byte(2));
    *metadata.get_mut(1).expect("is set") = EntityMetadataFieldData::VarInt(VarInt(9));
    assert_eq!(metadata.get(1), Some(&EntityMetadataFieldData::VarInt(VarInt(9))));
    assert_eq!(metadata.get(3), Some(&EntityMetadataFieldData::Byte(1)));
    assert!(metadata.get_mut(2).is_none());
}

#[test]
fn remove_takes_the_first_entry_away() {
    let mut metadata = EntityMetadata {
        fields: vec![
            EntityMetadataField { index: 3, data: EntityMetadataFieldData::Byte(1) },
            EntityMetadataField { index: 1, data: EntityMetadataFieldData::Byte(2) },
            EntityMetadataField { index: 3, data: EntityMetadataFieldData::Byte(3) },
        ],
    };
    assert!(metadata.remove(3));
    assert_eq!(
        metadata.fields,
        vec![
            EntityMetadataField { index: 1, data: EntityMetadataFieldData::Byte(2) },
            EntityMetadataField { index: 3, data: EntityMetadataFieldData::Byte(3) },
        ]
    );
    assert!(!metadata.remove(7));
    assert!(metadata.remove(3));
    assert!(metadata.remove(1));
    assert!(!metadata.remove(1));
    assert!(metadata.fields.is_empty());
}
