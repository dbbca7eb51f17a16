use mcproto_rs::types::BytesSerializer;
use mcproto_rs::v1_16_3::{
    byte_to_float, float_to_byte, DemoEvent, GameChangeReason, GameMode, RespawnRequestType,
    WinGameAction,
};
use mcproto_rs::{Deserialize, DeserializeErr, Serialize};
use std::fmt::Debug;

fn to_bytes<S: Serialize>(value: &S) -> Vec<u8> {
    let mut test = BytesSerializer::default();
    value.mc_serialize(&mut test).expect("serialization should succeed");
    test.into_bytes()
}

fn test_type<S: Serialize + Deserialize + PartialEq + Debug>(value: S) {
    let bytes = to_bytes(&value);
    let deserialized = S::mc_deserialize(bytes.as_slice()).expect("deserialization should succeed");
    assert!(deserialized.data.is_empty());
    assert_eq!(deserialized.value, value, "deserialized value == serialized value");
    assert_eq!(to_bytes(&deserialized.value), bytes);
}

#[test]
fn bytes_become_floats_as_a_cast_makes_them() {
    for n in 0..=255u8 {
        assert_eq!(byte_to_float(n), (n as f32).to_bits(), "{}", n);
        assert_eq!(float_to_byte((n as f32).to_bits()), n);
    }
}

#[test]
fn floats_become_bytes_as_a_cast_makes_them() {
    let notable = [
        0.0f32,
        -0.0,
        0.5,
        0.999_999_9,
        1.0,
        1.5,
        1.999_999_9,
        2.0,
        3.7,
        100.99,
        254.5,
        255.0,
        255.5,
        256.0,
        1.0e9,
        -0.5,
        -1.0,
        -300.0,
        f32::MAX,
        f32::MIN,
        f32::MIN_POSITIVE,
        f32::EPSILON,
        f32::INFINITY,
        f32::NEG_INFINITY,
        f32::NAN,
    ];
    for value in notable {
        assert_eq!(float_to_byte(value.to_bits()), value as u8, "{}", value);
    }
    assert_eq!(float_to_byte(0x7FC0_0001), 0);
    assert_eq!(float_to_byte(0xFFC0_0000), 0);
    assert_eq!(float_to_byte(0x0000_0001), 0);
    // every exponent, with some fractions
    for exponent in 0..=255u32 {
        for fraction in [0u32, 1, 0x7F_FFFF, 0x40_0000, 0x12_3456, 0x7F_0000, 0x00_FFFF] {
            for sign in [0u32, 0x8000_0000] {
                let bits = sign | (exponent << 23) | fraction;
                assert_eq!(float_to_byte(bits), f32::from_bits(bits) as u8, "{:#x}", bits);
            }
        }
    }
    let mut bits: u32 = 0;
    for _ in 0..200_000 {
        assert_eq!(float_to_byte(bits), f32::from_bits(bits) as u8, "{:#x}", bits);
        bits = bits.wrapping_mul(1_664_525).wrapping_add(1_013_904_223);
    }
}

#[test]
fn game_change_is_a_byte_and_a_float() {
    assert_eq!(to_bytes(&GameChangeReason::NoRespawnAvailable), vec![0x00, 0, 0, 0, 0]);
    assert_eq!(
        to_bytes(&GameChangeReason::ChangeGameMode(GameMode::Creative)),
        vec![0x03, 0x3F, 0x80, 0, 0]
    );
    assert_eq!(
        to_bytes(&GameChangeReason::ChangeGameMode(GameMode::Spectator)),
        vec![0x03, 0x40, 0x40, 0, 0]
    );
    assert_eq!(
        to_bytes(&GameChangeReason::Demo(DemoEvent::TellMovementControls)),
        vec![0x05, 0x42, 0xCA, 0, 0]
    );
    assert_eq!(
        to_bytes(&GameChangeReason::RainLevelChange(0.5f32.to_bits())),
        vec![0x07, 0x3F, 0, 0, 0]
    );
    assert_eq!(to_bytes(&GameChangeReason::PufferfishSting), vec![0x09, 0, 0, 0, 0]);
    let all = [
        GameChangeReason::NoRespawnAvailable,
        GameChangeReason::EndRaining,
        GameChangeReason::BeginRaining,
        GameChangeReason::ChangeGameMode(GameMode::Survival),
        GameChangeReason::ChangeGameMode(GameMode::Adventure),
        GameChangeReason::WinGame(WinGameAction::Respawn),
        GameChangeReason::WinGame(WinGameAction::RollCreditsAndRespawn),
        GameChangeReason::Demo(DemoEvent::ShowWelcomeScreen),
        GameChangeReason::Demo(DemoEvent::TellJumpControl),
        GameChangeReason::Demo(DemoEvent::TellInventoryControl),
        GameChangeReason::Demo(DemoEvent::EndDemo),
        GameChangeReason::ArrowHitPlayer,
        GameChangeReason::RainLevelChange(0),
        GameChangeReason::RainLevelChange(f32::NAN.to_bits()),
        GameChangeReason::ThunderLevelChange(0.25f32.to_bits()),
        GameChangeReason::ThunderLevelChange(u32::MAX),
        GameChangeReason::PufferfishSting,
        GameChangeReason::ElderGuardianMobAppearance,
        GameChangeReason::Respawn(RespawnRequestType::Screen),
        GameChangeReason::Respawn(RespawnRequestType::Immediate),
    ];
    for (at, reason) in all.into_iter().enumerate() {
        assert_eq!(to_bytes(&reason).len(), 5, "{}", at);
        test_type(reason);
    }
}

#[test]
fn game_change_reads_the_whole_part_of_the_float() {
    let mut bytes = vec![0x03];
    bytes.extend(1.9f32.to_be_bytes());
    bytes.push(0x77);
    let read = GameChangeReason::mc_deserialize(&bytes).expect("decodes");
    assert_eq!(read.value, GameChangeReason::ChangeGameMode(GameMode::Creative));
    assert_eq!(read.data, &[0x77]);
    // the float that comes with a reason that needs none is passed over
    let mut bytes = vec![0x06];
    bytes.extend(12.5f32.to_be_bytes());
    let read = GameChangeReason::mc_deserialize(&bytes).expect("decodes");
    assert_eq!(read.value, GameChangeReason::ArrowHitPlayer);
    let mut bytes = vec![0x03];
    bytes.extend(4.0f32.to_be_bytes());
    match GameChangeReason::mc_deserialize(&bytes) {
        Err(DeserializeErr::CannotUnderstandValue(message)) => {
            assert_eq!(message, "invalid GameMode 4")
        }
        other => panic!("expected CannotUnderstandValue, got {:?}", other.map(|d| d.value)),
    }
    let mut bytes = vec![0x05];
    bytes.extend((-3.0f32).to_be_bytes());
    let read = GameChangeReason::mc_deserialize(&bytes).expect("decodes");
    assert_eq!(read.value, GameChangeReason::Demo(DemoEvent::ShowWelcomeScreen));
    match GameChangeReason::mc_deserialize(&[0x0C, 0, 0, 0, 0]) {
        Err(DeserializeErr::CannotUnderstandValue(message)) => {
            assert_eq!(message, "invalid game change reason id 12")
        }
        other => panic!("expected CannotUnderstandValue, got {:?}", other.map(|d| d.value)),
    }
    assert!(matches!(GameChangeReason::mc_deserialize(&[0x00, 0, 0, 0]), Err(DeserializeErr::Eof)));
    assert!(matches!(GameChangeReason::mc_deserialize(&[]), Err(DeserializeErr::Eof)));
}
