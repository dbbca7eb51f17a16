use mcproto_rs::protocol::{Id, Packet, PacketDirection, PacketErr, RawPacket, State};
use mcproto_rs::types::{BytesSerializer, RemainingBytes, VarInt};
use mcproto_rs::uuid::UUID4;
use mcproto_rs::v1_15_2::Packet578;
use mcproto_rs::v1_16_3::{
    HandshakeNextState, HandshakeSpec, LoginDisconnectSpec, LoginEncryptionRequestSpec,
    LoginEncryptionResponseSpec, LoginPluginRequestSpec, LoginPluginResponseSpec,
    LoginSetCompressionSpec, LoginStartSpec, LoginSuccessSpec, Packet753, RawPacket753,
    StatusPingSpec, StatusPongSpec, StatusRequestSpec, StatusResponseSpec,
};
use mcproto_rs::{Deserialize, DeserializeErr, Serialize};

fn body_bytes(packet: &Packet753) -> Vec<u8> {
    let mut out = BytesSerializer::default();
    packet.mc_serialize_body(&mut out).expect("serialize succeeds");
    out.into_bytes()
}

fn every_packet() -> Vec<Packet753> {
    vec![
        Packet753::Handshake(HandshakeSpec {
            version: VarInt(753),
            server_address: "play.example.org".to_owned(),
            server_port: 25565,
            next_state: HandshakeNextState::Login,
        }),
        Packet753::StatusRequest(StatusRequestSpec),
        Packet753::StatusPing(StatusPingSpec { payload: -77 }),
        Packet753::StatusResponse(StatusResponseSpec {
            response: "{\"description\":{\"text\":\"hi\"}}".to_owned(),
        }),
        Packet753::StatusPong(StatusPongSpec { payload: i64::MAX }),
        Packet753::LoginDisconnect(LoginDisconnectSpec { message: "{\"text\":\"no\"}".to_owned() }),
        Packet753::LoginEncryptionRequest(LoginEncryptionRequestSpec {
            server_id: String::new(),
            public_key: vec![1u8, 2, 3].into(),
            verify_token: vec![4u8, 5, 6, 7].into(),
        }),
        Packet753::LoginSuccess(LoginSuccessSpec {
            uuid: UUID4::from(0x0102030405060708090A0B0C0D0E0F10u128),
            username: "steve".to_owned(),
        }),
        Packet753::LoginSetCompression(LoginSetCompressionSpec { threshold: VarInt(256) }),
        Packet753::LoginPluginRequest(LoginPluginRequestSpec {
            message_id: VarInt(1),
            channel: "a:b".to_owned(),
            data: RemainingBytes { data: vec![9, 8, 7] },
        }),
        Packet753::LoginStart(LoginStartSpec { name: "alex".to_owned() }),
        Packet753::LoginEncryptionResponse(LoginEncryptionResponseSpec {
            shared_secret: vec![0u8; 16].into(),
            verify_token: Vec::<u8>::new().into(),
        }),
        Packet753::LoginPluginResponse(LoginPluginResponseSpec {
            message_id: VarInt(-1),
            successful: true,
            data: RemainingBytes { data: vec![] },
        }),
    ]
}

#[test]
fn every_packet_round_trips() {
    for packet in every_packet() {
        let bytes = body_bytes(&packet);
        let raw = RawPacket { id: packet.id(), data: bytes.as_slice() };
        let sorted = RawPacket753::create(raw.clone()).expect("valid id");
        assert_eq!(sorted.id(), packet.id());
        assert_eq!(sorted.bytes(), bytes.as_slice());
        assert_eq!(sorted.deserialize().expect("deserialize succeeds"), packet);
        assert_eq!(Packet753::mc_deserialize(raw).expect("deserialize succeeds"), packet);
    }
}

#[test]
fn packets_have_their_identities() {
    let ids: Vec<(i32, State, PacketDirection)> =
        every_packet().iter().map(|packet| packet.id().into()).collect();
    assert_eq!(
        ids,
        vec![
            (0x00, State::Handshaking, PacketDirection::ServerBound),
            (0x00, State::Status, PacketDirection::ServerBound),
            (0x01, State::Status, PacketDirection::ServerBound),
            (0x00, State::Status, PacketDirection::ClientBound),
            (0x01, State::Status, PacketDirection::ClientBound),
            (0x00, State::Login, PacketDirection::ClientBound),
            (0x01, State::Login, PacketDirection::ClientBound),
            (0x02, State::Login, PacketDirection::ClientBound),
            (0x03, State::Login, PacketDirection::ClientBound),
            (0x04, State::Login, PacketDirection::ClientBound),
            (0x00, State::Login, PacketDirection::ServerBound),
            (0x01, State::Login, PacketDirection::ServerBound),
            (0x02, State::Login, PacketDirection::ServerBound),
        ]
    );
    for (i, a) in ids.iter().enumerate() {
        for b in &ids[i + 1..] {
            assert_ne!(a, b);
        }
    }
}

#[test]
fn handshake_bytes_are_exact() {
    let packet = Packet753::Handshake(HandshakeSpec {
        version: VarInt(753),
        server_address: "ab".to_owned(),
        server_port: 25565,
        next_state: HandshakeNextState::Status,
    });
    assert_eq!(body_bytes(&packet), vec![0xF1, 0x05, 2, b'a', b'b', 0x63, 0xDD, 0x01]);
}

#[test]
fn unknown_identity_is_refused() {
    let id = Id { id: 0x7F, state: State::Login, direction: PacketDirection::ServerBound };
    match Packet753::mc_deserialize(RawPacket { id, data: &[] }) {
        Err(PacketErr::UnknownId(unknown)) => assert_eq!(unknown, id),
        other => panic!("expected UnknownId, got {:?}", other),
    }
    let id = Id { id: 0x00, state: State::Play, direction: PacketDirection::ClientBound };
    assert!(matches!(
        RawPacket753::create(RawPacket { id, data: &[1, 2] }),
        Err(PacketErr::UnknownId(_))
    ));
    let id = Id { id: 0x01, state: State::Handshaking, direction: PacketDirection::ServerBound };
    assert!(matches!(
        Packet578::mc_deserialize(RawPacket { id, data: &[] }),
        Err(PacketErr::UnknownId(_))
    ));
}

#[test]
fn body_with_bytes_left_over_is_extra_data() {
    let id = Id { id: 0x01, state: State::Status, direction: PacketDirection::ServerBound };
    let data = [0, 0, 0, 0, 0, 0, 0, 5, 0xAA];
    match Packet753::mc_deserialize(RawPacket { id, data: &data }) {
        Err(PacketErr::ExtraData(rest)) => assert_eq!(rest, vec![0xAA]),
        other => panic!("expected ExtraData, got {:?}", other),
    }
    let id = Id { id: 0x00, state: State::Status, direction: PacketDirection::ServerBound };
    assert!(matches!(
        Packet753::mc_deserialize(RawPacket { id, data: &[0] }),
        Err(PacketErr::ExtraData(_))
    ));
}

#[test]
fn body_that_does_not_decode_is_wrapped() {
    let id = Id { id: 0x01, state: State::Status, direction: PacketDirection::ServerBound };
    assert!(matches!(
        Packet753::mc_deserialize(RawPacket { id, data: &[1, 2, 3] }),
        Err(PacketErr::DeserializeFailed(DeserializeErr::Eof))
    ));
    let id = Id { id: 0x00, state: State::Handshaking, direction: PacketDirection::ServerBound };
    let data = [1, 0, 0, 0, 9];
    match Packet753::mc_deserialize(RawPacket { id, data: &data }) {
        Err(PacketErr::DeserializeFailed(DeserializeErr::CannotUnderstandValue(message))) => {
            assert_eq!(message, "invalid HandshakeNextState 9")
        }
        other => panic!("expected CannotUnderstandValue, got {:?}", other),
    }
}

#[test]
fn versions_are_numbered() {
    assert_eq!(Packet753::version(), VarInt(753));
    assert_eq!(Packet578::version(), VarInt(578));
}

#[test]
fn description_lists_the_table() {
    let spec = Packet753::describe();
    assert_eq!(spec.name, "Packet753");
    assert_eq!(spec.packets.len(), 13);
    let handshake = &spec.packets[0];
    assert_eq!(handshake.name, "Handshake");
    assert_eq!(handshake.state, "Handshaking");
    assert_eq!(handshake.direction, "ServerBound");
    assert_eq!(handshake.id, 0);
    assert_eq!(handshake.body_struct, "HandshakeSpec");
    let fields: Vec<(&str, &str)> =
        handshake.fields.iter().map(|f| (f.name.as_str(), f.kind.as_str())).collect();
    assert_eq!(
        fields,
        vec![
            ("version", "VarInt"),
            ("server_address", "String"),
            ("server_port", "u16"),
            ("next_state", "HandshakeNextState"),
        ]
    );
    assert!(spec.packets[1].fields.is_empty());
    let names: Vec<&str> = spec.packets.iter().map(|p| p.name.as_str()).collect();
    for (packet, name) in every_packet().iter().zip(names) {
        let described = spec.packets.iter().find(|p| p.name == name).expect("described");
        assert_eq!(described.id, packet.id().id);
        assert_eq!(described.state, packet.id().state.name());
        assert_eq!(described.direction, packet.id().direction.name());
    }
    assert_eq!(Packet578::describe().name, "Packet578");
}

#[test]
fn handshake_next_state_has_two_values() {
    assert_eq!(HandshakeNextState::variant_count(), 2);
    assert_eq!(HandshakeNextState::Status.id(), 1);
    assert_eq!(HandshakeNextState::Login.id(), 2);
    assert_eq!(HandshakeNextState::Status.name(), "Status");
    assert_eq!(HandshakeNextState::Login.name(), "Login");
    let back = HandshakeNextState::mc_deserialize(&[2, 7]).expect("decodes");
    assert_eq!(back.value, HandshakeNextState::Login);
    assert_eq!(back.data, &[7]);
    assert!(matches!(
        HandshakeNextState::mc_deserialize(&[0]),
        Err(DeserializeErr::CannotUnderstandValue(_))
    ));
    assert!(matches!(HandshakeNextState::mc_deserialize(&[]), Err(DeserializeErr::Eof)));
    let mut out = BytesSerializer::default();
    HandshakeNextState::Status.mc_serialize(&mut out).expect("serialize succeeds");
    assert_eq!(out.into_bytes(), vec![1]);
}
