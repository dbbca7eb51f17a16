use mcproto_rs::protocol::{deserialize_body, Id, PacketDirection, PacketErr, State};
use mcproto_rs::types::{BytesSerializer, VarInt};
use mcproto_rs::{DeserializeErr, Serialize};

#[test]
fn direction_turns_round() {
    assert_eq!(PacketDirection::ClientBound.opposite(), PacketDirection::ServerBound);
    assert_eq!(PacketDirection::ServerBound.opposite(), PacketDirection::ClientBound);
    assert_eq!(PacketDirection::ServerBound.opposite().opposite(), PacketDirection::ServerBound);
}

#[test]
fn states_and_directions_have_names() {
    assert_eq!(State::Handshaking.name(), "Handshaking");
    assert_eq!(State::Status.name(), "Status");
    assert_eq!(State::Login.name(), "Login");
    assert_eq!(State::Play.name(), "Play");
    assert_eq!(PacketDirection::ClientBound.name(), "ClientBound");
    assert_eq!(PacketDirection::ServerBound.name(), "ServerBound");
}

#[test]
fn id_converts_to_and_from_its_parts() {
    let id: Id = (7, State::Play, PacketDirection::ClientBound).into();
    assert_eq!(id, Id { id: 7, state: State::Play, direction: PacketDirection::ClientBound });
    let parts: (i32, State, PacketDirection) = id.into();
    assert_eq!(parts, (7, State::Play, PacketDirection::ClientBound));
}

#[test]
fn id_writes_its_number_alone() {
    let id = Id { id: 0x0102, state: State::Login, direction: PacketDirection::ServerBound };
    let mut out = BytesSerializer::default();
    id.mc_serialize(&mut out).expect("serialization should succeed");
    assert_eq!(out.into_bytes(), vec![0, 0, 1, 2]);
}

#[test]
fn whole_body_decodes() {
    let body: VarInt = deserialize_body(&[0xAC, 0x02]).expect("decodes");
    assert_eq!(body, VarInt(300));
}

#[test]
fn body_with_bytes_left_over_is_refused() {
    match deserialize_body::<VarInt>(&[0xAC, 0x02, 7, 8]) {
        Err(PacketErr::ExtraData(rest)) => assert_eq!(rest, vec![7, 8]),
        other => panic!("expected ExtraData, got {:?}", other),
    }
}

#[test]
fn body_that_does_not_decode_is_refused() {
    assert!(matches!(
        deserialize_body::<u32>(&[1, 2]),
        Err(PacketErr::DeserializeFailed(DeserializeErr::Eof))
    ));
    assert!(matches!(
        deserialize_body::<bool>(&[9]),
        Err(PacketErr::DeserializeFailed(DeserializeErr::InvalidBool(9)))
    ));
}
