use mcproto_rs::types::{BytesSerializer, ChunkPosition, ItemStack, VarInt};
use mcproto_rs::v1_16_3::{
    AdvancementDisplayFlags, BlockChangeHorizontalPosition, ChunkSectionPosition,
    EntityEquipmentArray, EntityEquipmentEntry, EquipmentSlot, GameMode, MapColumns,
    MapColumnsSpec, PreviousGameMode, ScoreboardPosition, SoundCategory, StopSoundSpec,
    TeamMember, UpdateScoreAction, UpdateScoreSpec,
};
use mcproto_rs::uuid::UUID4;
use mcproto_rs::{Deserialize, DeserializeErr, Serialize, SerializeErr};
use std::fmt::Debug;

fn to_bytes<S: Serialize>(value: &S) -> Vec<u8> {
    let mut test = BytesSerializer::default();
    value.mc_serialize(&mut test).expect("serialization should succeed");
    test.into_bytes()
}

fn test_type<S: Serialize + Deserialize + PartialEq + Debug>(value: S) {
    let bytes = to_bytes(&value);
    let deserialized = S::mc_deserialize(bytes.as_slice()).expect("deserialization should succeed");
    assert!(deserialized.data.is_empty());
    assert_eq!(deserialized.value, value, "deserialized value == serialized value");
    assert_eq!(to_bytes(&deserialized.value), bytes);
}

#[test]
fn block_change_position_is_one_byte() {
    assert_eq!(to_bytes(&BlockChangeHorizontalPosition { rel_x: 0xA, rel_z: 0x5 }), vec![0xA5]);
    assert_eq!(to_bytes(&BlockChangeHorizontalPosition { rel_x: 0x1F, rel_z: 0xF3 }), vec![0xF3]);
    for rel_x in 0..16 {
        for rel_z in 0..16 {
            test_type(BlockChangeHorizontalPosition { rel_x, rel_z });
        }
    }
}

#[test]
fn chunk_section_position_packs_x_z_y() {
    assert_eq!(
        to_bytes(&ChunkSectionPosition { x: 1, y: 2, z: 3 }),
        ((1u64 << 42) | (3u64 << 20) | 2u64).to_be_bytes().to_vec()
    );
    test_type(ChunkSectionPosition { x: 0, y: 0, z: 0 });
    test_type(ChunkSectionPosition { x: 0x3FFFFF, y: 0xFFFFF, z: 0x3FFFFF });
    test_type(ChunkSectionPosition { x: 1234, y: 15, z: 98765 });
    // the fields carry no sign: a coordinate below zero comes back as its low bits
    let bytes = to_bytes(&ChunkSectionPosition { x: -1, y: -1, z: -1 });
    assert_eq!(bytes, vec![0xFF; 8]);
    let back = ChunkSectionPosition::mc_deserialize(&bytes).expect("decodes").value;
    assert_eq!(back, ChunkSectionPosition { x: 0x3FFFFF, y: 0xFFFFF, z: 0x3FFFFF });
}

#[test]
fn game_modes_round_trip() {
    for (mode, id, name) in [
        (GameMode::Survival, 0u8, "Survival"),
        (GameMode::Creative, 1, "Creative"),
        (GameMode::Adventure, 2, "Adventure"),
        (GameMode::Spectator, 3, "Spectator"),
    ] {
        assert_eq!(mode.id(), id);
        assert_eq!(mode.name(), name);
        assert_eq!(to_bytes(&mode), vec![id]);
        test_type(mode);
        assert_eq!(PreviousGameMode::Previous(mode).id(), id as i8);
        test_type(PreviousGameMode::Previous(mode));
        assert_eq!(PreviousGameMode::Previous(mode).into_option(), Some(mode));
    }
    assert_eq!(GameMode::variant_count(), 4);
    assert_eq!(PreviousGameMode::NoPrevious.id(), -1);
    assert_eq!(to_bytes(&PreviousGameMode::NoPrevious), vec![0xFF]);
    test_type(PreviousGameMode::NoPrevious);
    assert_eq!(PreviousGameMode::NoPrevious.into_option(), None);
    match GameMode::mc_deserialize(&[4]) {
        Err(DeserializeErr::CannotUnderstandValue(message)) => {
            assert_eq!(message, "invalid GameMode 4")
        }
        other => panic!("expected CannotUnderstandValue, got {:?}", other.map(|d| d.value)),
    }
    assert!(matches!(
        PreviousGameMode::mc_deserialize(&[0xFE]),
        Err(DeserializeErr::CannotUnderstandValue(_))
    ));
}

#[test]
fn score_updates_round_trip() {
    let upsert = UpdateScoreSpec {
        objective_name: "kills".to_owned(),
        action: UpdateScoreAction::Upsert(VarInt(300)),
    };
    assert_eq!(to_bytes(&upsert), vec![0, 5, b'k', b'i', b'l', b'l', b's', 0xAC, 0x02]);
    test_type(upsert);
    let remove =
        UpdateScoreSpec { objective_name: "kills".to_owned(), action: UpdateScoreAction::Remove };
    assert_eq!(to_bytes(&remove), vec![1, 5, b'k', b'i', b'l', b'l', b's']);
    test_type(remove);
    test_type(UpdateScoreAction::Upsert(VarInt(-1)));
    assert_eq!(to_bytes(&UpdateScoreAction::Upsert(VarInt(1))), vec![0, 1]);
    assert!(matches!(
        UpdateScoreSpec::mc_deserialize(&[2, 0]),
        Err(DeserializeErr::CannotUnderstandValue(_))
    ));
}

#[test]
fn scoreboard_positions_round_trip() {
    test_type(ScoreboardPosition::List);
    test_type(ScoreboardPosition::Sidebar);
    test_type(ScoreboardPosition::BelowName);
    test_type(ScoreboardPosition::TeamSpecific(-3));
    assert_eq!(to_bytes(&ScoreboardPosition::TeamSpecific(7)), vec![3, 7]);
    assert_eq!(ScoreboardPosition::TeamSpecific(7).id(), 3);
    assert_eq!(ScoreboardPosition::Sidebar.id(), 1);
    assert!(matches!(ScoreboardPosition::mc_deserialize(&[3]), Err(DeserializeErr::Eof)));
}

#[test]
fn sound_categories_are_numbered_as_var_ints() {
    assert_eq!(SoundCategory::Voice.id(), VarInt(9));
    assert_eq!(to_bytes(&SoundCategory::Ambient), vec![8]);
    test_type(SoundCategory::Master);
    match SoundCategory::mc_deserialize(&[0xFF, 0xFF, 0xFF, 0xFF, 0x0F]) {
        Err(DeserializeErr::CannotUnderstandValue(message)) => {
            assert_eq!(message, "invalid SoundCategory -1")
        }
        other => panic!("expected CannotUnderstandValue, got {:?}", other.map(|d| d.value)),
    }
}

#[test]
fn stop_sound_flags_say_what_follows() {
    let all = StopSoundSpec { source: None, sound: None };
    assert_eq!(to_bytes(&all), vec![0]);
    test_type(all);
    let by_source = StopSoundSpec { source: Some(SoundCategory::Music), sound: None };
    assert_eq!(to_bytes(&by_source), vec![1, 1]);
    test_type(by_source);
    let by_name = StopSoundSpec { source: None, sound: Some("a".to_owned()) };
    assert_eq!(to_bytes(&by_name), vec![2, 1, b'a']);
    test_type(by_name);
    let both = StopSoundSpec { source: Some(SoundCategory::Block), sound: Some("a".to_owned()) };
    assert_eq!(to_bytes(&both), vec![3, 4, 1, b'a']);
    test_type(both);
    // bits that stand for nothing are passed over
    let back = StopSoundSpec::mc_deserialize(&[0xFC, 9]).expect("decodes");
    assert_eq!(back.value, StopSoundSpec { source: None, sound: None });
    assert_eq!(back.data, &[9]);
}

#[test]
fn advancement_flags_round_trip() {
    for background_texture in [None, Some("minecraft:textures/gui/a.png".to_owned())] {
        for show_toast in [false, true] {
            for hidden in [false, true] {
                test_type(AdvancementDisplayFlags {
                    background_texture: background_texture.clone(),
                    show_toast,
                    hidden,
                });
            }
        }
    }
    assert_eq!(
        to_bytes(&AdvancementDisplayFlags {
            background_texture: Some("x".to_owned()),
            show_toast: false,
            hidden: true
        }),
        vec![0, 0, 0, 5, 1, b'x']
    );
    let back = AdvancementDisplayFlags::mc_deserialize(&[0xFF, 0xFF, 0xFF, 0xFE]).expect("decodes");
    assert_eq!(
        back.value,
        AdvancementDisplayFlags { background_texture: None, show_toast: true, hidden: true }
    );
}

#[test]
fn map_columns_round_trip() {
    assert_eq!(to_bytes(&MapColumns::NoUpdates), vec![0]);
    test_type(MapColumns::NoUpdates);
    let spec = MapColumnsSpec {
        columns: 2,
        rows: 1,
        position: ChunkPosition { x: 3, z: 4 },
        data: vec![9u8, 8].into(),
    };
    assert_eq!(to_bytes(&MapColumns::Updated(spec.clone())), vec![2, 1, 3, 4, 2, 9, 8]);
    test_type(MapColumns::Updated(spec.clone()));
    assert_eq!(MapColumns::from(Some(spec.clone())), MapColumns::Updated(spec.clone()));
    assert_eq!(MapColumns::from(None), MapColumns::NoUpdates);
    let none = MapColumnsSpec { columns: 0, ..spec.clone() };
    assert_eq!(MapColumns::from(Some(none)), MapColumns::NoUpdates);
    assert_eq!(MapColumns::Updated(spec.clone()).into_option(), Some(spec));
    assert_eq!(MapColumns::NoUpdates.into_option(), None);
}

#[test]
fn equipment_marks_every_piece_but_the_last() {
    let array: EntityEquipmentArray = vec![
        EntityEquipmentEntry { slot: EquipmentSlot::MainHand, item: None },
        EntityEquipmentEntry {
            slot: EquipmentSlot::ArmorHelmet,
            item: Some(ItemStack { item_id: VarInt(7), item_count: 1, nbt: None }),
        },
        EntityEquipmentEntry { slot: EquipmentSlot::OffHand, item: None },
    ]
    .into();
    assert_eq!(to_bytes(&array), vec![0x80, 0, 0x85, 1, 7, 1, 0, 0x01, 0]);
    test_type(array);
    let one: EntityEquipmentArray =
        vec![EntityEquipmentEntry { slot: EquipmentSlot::ArmorBoots, item: None }].into();
    assert_eq!(to_bytes(&one), vec![2, 0]);
    test_type(one);
}

#[test]
fn equipment_with_nothing_in_it_cannot_be_written() {
    let empty: EntityEquipmentArray = Vec::new().into();
    let mut out = BytesSerializer::default();
    match empty.mc_serialize(&mut out) {
        Err(SerializeErr::CannotSerialize(message)) => {
            assert_eq!(message, "entity equipment must be non-empty to send!")
        }
        other => panic!("expected CannotSerialize, got {:?}", other),
    }
    assert!(out.into_bytes().is_empty());
}

#[test]
fn equipment_that_breaks_off_is_refused() {
    assert!(matches!(EntityEquipmentArray::mc_deserialize(&[]), Err(DeserializeErr::Eof)));
    assert!(matches!(EntityEquipmentArray::mc_deserialize(&[0x80, 0]), Err(DeserializeErr::Eof)));
    assert!(matches!(
        EntityEquipmentArray::mc_deserialize(&[0x06, 0]),
        Err(DeserializeErr::CannotUnderstandValue(_))
    ));
}

#[test]
fn team_members_are_names_or_identifiers() {
    let id = UUID4::parse("e1cde35a-0758-47f6-adf8-9dcb44884e5d").expect("should parse");
    test_type(TeamMember::Player("steve".to_owned()));
    test_type(TeamMember::Player(String::new()));
    test_type(TeamMember::Entity(id));
    let mut expected = vec![36u8];
    expected.extend_from_slice(b"e1cde35a-0758-47f6-adf8-9dcb44884e5d");
    assert_eq!(to_bytes(&TeamMember::Entity(id)), expected);
    assert_eq!(to_bytes(&TeamMember::Player("ab".to_owned())), vec![2, b'a', b'b']);
    // a name in the form of an identifier is read as one
    let named = TeamMember::Player("e1cde35a-0758-47f6-adf8-9dcb44884e5d".to_owned());
    let back = TeamMember::mc_deserialize(&to_bytes(&named)).expect("decodes").value;
    assert_eq!(back, TeamMember::Entity(id));
}
