use crate::deserialize::{
    agrees, DecodeFailure, Decoded, Deserialize, DeserializeErr, DeserializeResult, Deserialized,
};
use crate::protocol::{
    deserialize_body, described_id, invalid_int_message, invalid_int_text, invalid_message,
    invalid_value_message, lemma_described_id,
    lemma_whole_body_round_trip, packet_id, whole_body, yields, Id, Packet, PacketErr,
    PacketFailure, PacketRow, ProtocolPacketField, ProtocolPacketSpec, ProtocolSpec, RawPacket,
    row_of,
};
pub use crate::protocol::{PacketDirection, State};
use crate::serialize::{Serialize, SerializeErr, SerializeResult, Serializer};
use crate::types::{
    lemma_concat_assoc, lemma_skip_concat, lemma_skip_more, lemma_skip_skip, CountedArray,
    ProtocolType, VarInt,
};
pub use crate::types::RemainingBytes;
use crate::uuid::UUID4;
use vstd::prelude::*;

verus! {

/// The packets of protocol version 578, for the stages before play.
#[derive(Debug, PartialEq, Clone)]
pub enum Packet578 {
    Handshake(HandshakeSpec),
    StatusRequest(StatusRequestSpec),
    StatusPing(StatusPingSpec),
    StatusResponse(StatusResponseSpec),
    StatusPong(StatusPongSpec),
    LoginDisconnect(LoginDisconnectSpec),
    LoginEncryptionRequest(LoginEncryptionRequestSpec),
    LoginSuccess(LoginSuccessSpec),
    LoginSetCompression(LoginSetCompressionSpec),
    LoginPluginRequest(LoginPluginRequestSpec),
    LoginStart(LoginStartSpec),
    LoginEncryptionResponse(LoginEncryptionResponseSpec),
    LoginPluginResponse(LoginPluginResponseSpec),
}

/// The mathematical content of a [`Packet578`].
pub enum Packet578View {
    Handshake(<HandshakeSpec as DeepView>::V),
    StatusRequest(<StatusRequestSpec as DeepView>::V),
    StatusPing(<StatusPingSpec as DeepView>::V),
    StatusResponse(<StatusResponseSpec as DeepView>::V),
    StatusPong(<StatusPongSpec as DeepView>::V),
    LoginDisconnect(<LoginDisconnectSpec as DeepView>::V),
    LoginEncryptionRequest(<LoginEncryptionRequestSpec as DeepView>::V),
    LoginSuccess(<LoginSuccessSpec as DeepView>::V),
    LoginSetCompression(<LoginSetCompressionSpec as DeepView>::V),
    LoginPluginRequest(<LoginPluginRequestSpec as DeepView>::V),
    LoginStart(<LoginStartSpec as DeepView>::V),
    LoginEncryptionResponse(<LoginEncryptionResponseSpec as DeepView>::V),
    LoginPluginResponse(<LoginPluginResponseSpec as DeepView>::V),
}

impl DeepView for Packet578 {
    type V = Packet578View;

    open spec fn deep_view(&self) -> Packet578View {
        match self {
            Packet578::Handshake(body) => Packet578View::Handshake(body.deep_view()),
            Packet578::StatusRequest(body) => Packet578View::StatusRequest(body.deep_view()),
            Packet578::StatusPing(body) => Packet578View::StatusPing(body.deep_view()),
            Packet578::StatusResponse(body) => Packet578View::StatusResponse(body.deep_view()),
            Packet578::StatusPong(body) => Packet578View::StatusPong(body.deep_view()),
            Packet578::LoginDisconnect(body) => Packet578View::LoginDisconnect(body.deep_view()),
            Packet578::LoginEncryptionRequest(body) => Packet578View::LoginEncryptionRequest(body.deep_view()),
            Packet578::LoginSuccess(body) => Packet578View::LoginSuccess(body.deep_view()),
            Packet578::LoginSetCompression(body) => Packet578View::LoginSetCompression(body.deep_view()),
            Packet578::LoginPluginRequest(body) => Packet578View::LoginPluginRequest(body.deep_view()),
            Packet578::LoginStart(body) => Packet578View::LoginStart(body.deep_view()),
            Packet578::LoginEncryptionResponse(body) => Packet578View::LoginEncryptionResponse(body.deep_view()),
            Packet578::LoginPluginResponse(body) => Packet578View::LoginPluginResponse(body.deep_view()),
        }
    }
}

impl Packet for Packet578 {
    open spec fn id_of(v: Packet578View) -> Id {
        match v {
            Packet578View::Handshake(_) => packet_id(0x00, State::Handshaking, PacketDirection::ServerBound),
            Packet578View::StatusRequest(_) => packet_id(0x00, State::Status, PacketDirection::ServerBound),
            Packet578View::StatusPing(_) => packet_id(0x01, State::Status, PacketDirection::ServerBound),
            Packet578View::StatusResponse(_) => packet_id(0x00, State::Status, PacketDirection::ClientBound),
            Packet578View::StatusPong(_) => packet_id(0x01, State::Status, PacketDirection::ClientBound),
            Packet578View::LoginDisconnect(_) => packet_id(0x00, State::Login, PacketDirection::ClientBound),
            Packet578View::LoginEncryptionRequest(_) => packet_id(0x01, State::Login, PacketDirection::ClientBound),
            Packet578View::LoginSuccess(_) => packet_id(0x02, State::Login, PacketDirection::ClientBound),
            Packet578View::LoginSetCompression(_) => packet_id(0x03, State::Login, PacketDirection::ClientBound),
            Packet578View::LoginPluginRequest(_) => packet_id(0x04, State::Login, PacketDirection::ClientBound),
            Packet578View::LoginStart(_) => packet_id(0x00, State::Login, PacketDirection::ServerBound),
            Packet578View::LoginEncryptionResponse(_) => packet_id(0x01, State::Login, PacketDirection::ServerBound),
            Packet578View::LoginPluginResponse(_) => packet_id(0x02, State::Login, PacketDirection::ServerBound),
        }
    }

    open spec fn body_of(v: Packet578View) -> Seq<u8> {
        match v {
            Packet578View::Handshake(body) => HandshakeSpec::encode(body),
            Packet578View::StatusRequest(body) => StatusRequestSpec::encode(body),
            Packet578View::StatusPing(body) => StatusPingSpec::encode(body),
            Packet578View::StatusResponse(body) => StatusResponseSpec::encode(body),
            Packet578View::StatusPong(body) => StatusPongSpec::encode(body),
            Packet578View::LoginDisconnect(body) => LoginDisconnectSpec::encode(body),
            Packet578View::LoginEncryptionRequest(body) => LoginEncryptionRequestSpec::encode(body),
            Packet578View::LoginSuccess(body) => LoginSuccessSpec::encode(body),
            Packet578View::LoginSetCompression(body) => LoginSetCompressionSpec::encode(body),
            Packet578View::LoginPluginRequest(body) => LoginPluginRequestSpec::encode(body),
            Packet578View::LoginStart(body) => LoginStartSpec::encode(body),
            Packet578View::LoginEncryptionResponse(body) => LoginEncryptionResponseSpec::encode(body),
            Packet578View::LoginPluginResponse(body) => LoginPluginResponseSpec::encode(body),
        }
    }

    open spec fn writable(v: Packet578View) -> bool {
        match v {
            Packet578View::Handshake(body) => HandshakeSpec::serializable(body),
            Packet578View::StatusRequest(body) => StatusRequestSpec::serializable(body),
            Packet578View::StatusPing(body) => StatusPingSpec::serializable(body),
            Packet578View::StatusResponse(body) => StatusResponseSpec::serializable(body),
            Packet578View::StatusPong(body) => StatusPongSpec::serializable(body),
            Packet578View::LoginDisconnect(body) => LoginDisconnectSpec::serializable(body),
            Packet578View::LoginEncryptionRequest(body) => LoginEncryptionRequestSpec::serializable(body),
            Packet578View::LoginSuccess(body) => LoginSuccessSpec::serializable(body),
            Packet578View::LoginSetCompression(body) => LoginSetCompressionSpec::serializable(body),
            Packet578View::LoginPluginRequest(body) => LoginPluginRequestSpec::serializable(body),
            Packet578View::LoginStart(body) => LoginStartSpec::serializable(body),
            Packet578View::LoginEncryptionResponse(body) => LoginEncryptionResponseSpec::serializable(body),
            Packet578View::LoginPluginResponse(body) => LoginPluginResponseSpec::serializable(body),
        }
    }

    open spec fn known(id: Id) -> bool {
        id == packet_id(0x00, State::Handshaking, PacketDirection::ServerBound)
            || id == packet_id(0x00, State::Status, PacketDirection::ServerBound)
            || id == packet_id(0x01, State::Status, PacketDirection::ServerBound)
            || id == packet_id(0x00, State::Status, PacketDirection::ClientBound)
            || id == packet_id(0x01, State::Status, PacketDirection::ClientBound)
            || id == packet_id(0x00, State::Login, PacketDirection::ClientBound)
            || id == packet_id(0x01, State::Login, PacketDirection::ClientBound)
            || id == packet_id(0x02, State::Login, PacketDirection::ClientBound)
            || id == packet_id(0x03, State::Login, PacketDirection::ClientBound)
            || id == packet_id(0x04, State::Login, PacketDirection::ClientBound)
            || id == packet_id(0x00, State::Login, PacketDirection::ServerBound)
            || id == packet_id(0x01, State::Login, PacketDirection::ServerBound)
            || id == packet_id(0x02, State::Login, PacketDirection::ServerBound)
    }

    open spec fn layout(id: Id, data: Seq<u8>) -> Result<Packet578View, PacketFailure> {
        if id == packet_id(0x00, State::Handshaking, PacketDirection::ServerBound) {
            match whole_body::<HandshakeSpec>(data) {
                Ok(body) => Ok(Packet578View::Handshake(body)),
                Err(e) => Err(e),
            }
        } else if id == packet_id(0x00, State::Status, PacketDirection::ServerBound) {
            match whole_body::<StatusRequestSpec>(data) {
                Ok(body) => Ok(Packet578View::StatusRequest(body)),
                Err(e) => Err(e),
            }
        } else if id == packet_id(0x01, State::Status, PacketDirection::ServerBound) {
            match whole_body::<StatusPingSpec>(data) {
                Ok(body) => Ok(Packet578View::StatusPing(body)),
                Err(e) => Err(e),
            }
        } else if id == packet_id(0x00, State::Status, PacketDirection::ClientBound) {
            match whole_body::<StatusResponseSpec>(data) {
                Ok(body) => Ok(Packet578View::StatusResponse(body)),
                Err(e) => Err(e),
            }
        } else if id == packet_id(0x01, State::Status, PacketDirection::ClientBound) {
            match whole_body::<StatusPongSpec>(data) {
                Ok(body) => Ok(Packet578View::StatusPong(body)),
                Err(e) => Err(e),
            }
        } else if id == packet_id(0x00, State::Login, PacketDirection::ClientBound) {
            match whole_body::<LoginDisconnectSpec>(data) {
                Ok(body) => Ok(Packet578View::LoginDisconnect(body)),
                Err(e) => Err(e),
            }
        } else if id == packet_id(0x01, State::Login, PacketDirection::ClientBound) {
            match whole_body::<LoginEncryptionRequestSpec>(data) {
                Ok(body) => Ok(Packet578View::LoginEncryptionRequest(body)),
                Err(e) => Err(e),
            }
        } else if id == packet_id(0x02, State::Login, PacketDirection::ClientBound) {
            match whole_body::<LoginSuccessSpec>(data) {
                Ok(body) => Ok(Packet578View::LoginSuccess(body)),
                Err(e) => Err(e),
            }
        } else if id == packet_id(0x03, State::Login, PacketDirection::ClientBound) {
            match whole_body::<LoginSetCompressionSpec>(data) {
                Ok(body) => Ok(Packet578View::LoginSetCompression(body)),
                Err(e) => Err(e),
            }
        } else if id == packet_id(0x04, State::Login, PacketDirection::ClientBound) {
            match whole_body::<LoginPluginRequestSpec>(data) {
                Ok(body) => Ok(Packet578View::LoginPluginRequest(body)),
                Err(e) => Err(e),
            }
        } else if id == packet_id(0x00, State::Login, PacketDirection::ServerBound) {
            match whole_body::<LoginStartSpec>(data) {
                Ok(body) => Ok(Packet578View::LoginStart(body)),
                Err(e) => Err(e),
            }
        } else if id == packet_id(0x01, State::Login, PacketDirection::ServerBound) {
            match whole_body::<LoginEncryptionResponseSpec>(data) {
                Ok(body) => Ok(Packet578View::LoginEncryptionResponse(body)),
                Err(e) => Err(e),
            }
        } else {
            match whole_body::<LoginPluginResponseSpec>(data) {
                Ok(body) => Ok(Packet578View::LoginPluginResponse(body)),
                Err(e) => Err(e),
            }
        }
    }

    fn id(&self) -> (r: Id) {
        match self {
            Packet578::Handshake(_) => Id { id: 0x00, state: State::Handshaking, direction: PacketDirection::ServerBound },
            Packet578::StatusRequest(_) => Id { id: 0x00, state: State::Status, direction: PacketDirection::ServerBound },
            Packet578::StatusPing(_) => Id { id: 0x01, state: State::Status, direction: PacketDirection::ServerBound },
            Packet578::StatusResponse(_) => Id { id: 0x00, state: State::Status, direction: PacketDirection::ClientBound },
            Packet578::StatusPong(_) => Id { id: 0x01, state: State::Status, direction: PacketDirection::ClientBound },
            Packet578::LoginDisconnect(_) => Id { id: 0x00, state: State::Login, direction: PacketDirection::ClientBound },
            Packet578::LoginEncryptionRequest(_) => Id { id: 0x01, state: State::Login, direction: PacketDirection::ClientBound },
            Packet578::LoginSuccess(_) => Id { id: 0x02, state: State::Login, direction: PacketDirection::ClientBound },
            Packet578::LoginSetCompression(_) => Id { id: 0x03, state: State::Login, direction: PacketDirection::ClientBound },
            Packet578::LoginPluginRequest(_) => Id { id: 0x04, state: State::Login, direction: PacketDirection::ClientBound },
            Packet578::LoginStart(_) => Id { id: 0x00, state: State::Login, direction: PacketDirection::ServerBound },
            Packet578::LoginEncryptionResponse(_) => Id { id: 0x01, state: State::Login, direction: PacketDirection::ServerBound },
            Packet578::LoginPluginResponse(_) => Id { id: 0x02, state: State::Login, direction: PacketDirection::ServerBound },
        }
    }

    fn version() -> (r: VarInt)
        ensures
            r == VarInt(578),
    {
        VarInt(578)
    }

    fn mc_deserialize(raw: RawPacket<'_>) -> (r: Result<Self, PacketErr>) {
        let id = raw.id;
        let data = raw.data;
        match (id.id, id.state, id.direction) {
            (0x00, State::Handshaking, PacketDirection::ServerBound) => match deserialize_body::<HandshakeSpec>(data) {
                Ok(body) => Ok(Packet578::Handshake(body)),
                Err(e) => Err(e),
            },
            (0x00, State::Status, PacketDirection::ServerBound) => match deserialize_body::<StatusRequestSpec>(data) {
                Ok(body) => Ok(Packet578::StatusRequest(body)),
                Err(e) => Err(e),
            },
            (0x01, State::Status, PacketDirection::ServerBound) => match deserialize_body::<StatusPingSpec>(data) {
                Ok(body) => Ok(Packet578::StatusPing(body)),
                Err(e) => Err(e),
            },
            (0x00, State::Status, PacketDirection::ClientBound) => match deserialize_body::<StatusResponseSpec>(data) {
                Ok(body) => Ok(Packet578::StatusResponse(body)),
                Err(e) => Err(e),
            },
            (0x01, State::Status, PacketDirection::ClientBound) => match deserialize_body::<StatusPongSpec>(data) {
                Ok(body) => Ok(Packet578::StatusPong(body)),
                Err(e) => Err(e),
            },
            (0x00, State::Login, PacketDirection::ClientBound) => match deserialize_body::<LoginDisconnectSpec>(data) {
                Ok(body) => Ok(Packet578::LoginDisconnect(body)),
                Err(e) => Err(e),
            },
            (0x01, State::Login, PacketDirection::ClientBound) => match deserialize_body::<LoginEncryptionRequestSpec>(data) {
                Ok(body) => Ok(Packet578::LoginEncryptionRequest(body)),
                Err(e) => Err(e),
            },
            (0x02, State::Login, PacketDirection::ClientBound) => match deserialize_body::<LoginSuccessSpec>(data) {
                Ok(body) => Ok(Packet578::LoginSuccess(body)),
                Err(e) => Err(e),
            },
            (0x03, State::Login, PacketDirection::ClientBound) => match deserialize_body::<LoginSetCompressionSpec>(data) {
                Ok(body) => Ok(Packet578::LoginSetCompression(body)),
                Err(e) => Err(e),
            },
            (0x04, State::Login, PacketDirection::ClientBound) => match deserialize_body::<LoginPluginRequestSpec>(data) {
                Ok(body) => Ok(Packet578::LoginPluginRequest(body)),
                Err(e) => Err(e),
            },
            (0x00, State::Login, PacketDirection::ServerBound) => match deserialize_body::<LoginStartSpec>(data) {
                Ok(body) => Ok(Packet578::LoginStart(body)),
                Err(e) => Err(e),
            },
            (0x01, State::Login, PacketDirection::ServerBound) => match deserialize_body::<LoginEncryptionResponseSpec>(data) {
                Ok(body) => Ok(Packet578::LoginEncryptionResponse(body)),
                Err(e) => Err(e),
            },
            (0x02, State::Login, PacketDirection::ServerBound) => match deserialize_body::<LoginPluginResponseSpec>(data) {
                Ok(body) => Ok(Packet578::LoginPluginResponse(body)),
                Err(e) => Err(e),
            },
            _ => Err(PacketErr::UnknownId(id)),
        }
    }

    fn mc_serialize_body<S: Serializer>(&self, to: &mut S) -> (r: SerializeResult) {
        match self {
            Packet578::Handshake(body) => body.mc_serialize(to),
            Packet578::StatusRequest(body) => body.mc_serialize(to),
            Packet578::StatusPing(body) => body.mc_serialize(to),
            Packet578::StatusResponse(body) => body.mc_serialize(to),
            Packet578::StatusPong(body) => body.mc_serialize(to),
            Packet578::LoginDisconnect(body) => body.mc_serialize(to),
            Packet578::LoginEncryptionRequest(body) => body.mc_serialize(to),
            Packet578::LoginSuccess(body) => body.mc_serialize(to),
            Packet578::LoginSetCompression(body) => body.mc_serialize(to),
            Packet578::LoginPluginRequest(body) => body.mc_serialize(to),
            Packet578::LoginStart(body) => body.mc_serialize(to),
            Packet578::LoginEncryptionResponse(body) => body.mc_serialize(to),
            Packet578::LoginPluginResponse(body) => body.mc_serialize(to),
        }
    }
}

impl Packet578 {
    /// The table of this version: its packets in order, as the description
    /// lists them.
    pub open spec fn table() -> Seq<PacketRow> {
        seq![
            PacketRow {
                id: packet_id(0x00, State::Handshaking, PacketDirection::ServerBound),
                name: "Handshake"@,
                body_struct: "HandshakeSpec"@,
                fields: seq![("version"@, "VarInt"@), ("server_address"@, "String"@), ("server_port"@, "u16"@), ("next_state"@, "HandshakeNextState"@)],
            },
            PacketRow {
                id: packet_id(0x00, State::Status, PacketDirection::ServerBound),
                name: "StatusRequest"@,
                body_struct: "StatusRequestSpec"@,
                fields: Seq::empty(),
            },
            PacketRow {
                id: packet_id(0x01, State::Status, PacketDirection::ServerBound),
                name: "StatusPing"@,
                body_struct: "StatusPingSpec"@,
                fields: seq![("payload"@, "i64"@)],
            },
            PacketRow {
                id: packet_id(0x00, State::Status, PacketDirection::ClientBound),
                name: "StatusResponse"@,
                body_struct: "StatusResponseSpec"@,
                fields: seq![("response"@, "String"@)],
            },
            PacketRow {
                id: packet_id(0x01, State::Status, PacketDirection::ClientBound),
                name: "StatusPong"@,
                body_struct: "StatusPongSpec"@,
                fields: seq![("payload"@, "i64"@)],
            },
            PacketRow {
                id: packet_id(0x00, State::Login, PacketDirection::ClientBound),
                name: "LoginDisconnect"@,
                body_struct: "LoginDisconnectSpec"@,
                fields: seq![("message"@, "String"@)],
            },
            PacketRow {
                id: packet_id(0x01, State::Login, PacketDirection::ClientBound),
                name: "LoginEncryptionRequest"@,
                body_struct: "LoginEncryptionRequestSpec"@,
                fields: seq![("server_id"@, "String"@), ("public_key"@, "CountedArray<u8, VarInt>"@), ("verify_token"@, "CountedArray<u8, VarInt>"@)],
            },
            PacketRow {
                id: packet_id(0x02, State::Login, PacketDirection::ClientBound),
                name: "LoginSuccess"@,
                body_struct: "LoginSuccessSpec"@,
                fields: seq![("uuid_string"@, "String"@), ("username"@, "String"@)],
            },
            PacketRow {
                id: packet_id(0x03, State::Login, PacketDirection::ClientBound),
                name: "LoginSetCompression"@,
                body_struct: "LoginSetCompressionSpec"@,
                fields: seq![("threshold"@, "VarInt"@)],
            },
            PacketRow {
                id: packet_id(0x04, State::Login, PacketDirection::ClientBound),
                name: "LoginPluginRequest"@,
                body_struct: "LoginPluginRequestSpec"@,
                fields: seq![("message_id"@, "VarInt"@), ("channel"@, "String"@), ("data"@, "RemainingBytes"@)],
            },
            PacketRow {
                id: packet_id(0x00, State::Login, PacketDirection::ServerBound),
                name: "LoginStart"@,
                body_struct: "LoginStartSpec"@,
                fields: seq![("name"@, "String"@)],
            },
            PacketRow {
                id: packet_id(0x01, State::Login, PacketDirection::ServerBound),
                name: "LoginEncryptionResponse"@,
                body_struct: "LoginEncryptionResponseSpec"@,
                fields: seq![("shared_secret"@, "CountedArray<u8, VarInt>"@), ("verify_token"@, "CountedArray<u8, VarInt>"@)],
            },
            PacketRow {
                id: packet_id(0x02, State::Login, PacketDirection::ServerBound),
                name: "LoginPluginResponse"@,
                body_struct: "LoginPluginResponseSpec"@,
                fields: seq![("message_id"@, "VarInt"@), ("successful"@, "bool"@), ("data"@, "RemainingBytes"@)],
            },
        ]
    }

    /// The packets of this version as plain data.
    pub fn describe() -> (r: ProtocolSpec)
        ensures
            r.name@ == "Packet578"@,
            r.packets@.len() == Self::table().len(),
            forall|i: int|
                0 <= i < r.packets@.len() ==> row_of(#[trigger] r.packets@[i]) == Self::table()[i],
    {
        let mut packets: Vec<ProtocolPacketSpec> = Vec::new();
        let mut fields: Vec<ProtocolPacketField> = Vec::new();
        fields.push(ProtocolPacketField { name: "version".to_owned(), kind: "VarInt".to_owned() });
        fields.push(ProtocolPacketField { name: "server_address".to_owned(), kind: "String".to_owned() });
        fields.push(ProtocolPacketField { name: "server_port".to_owned(), kind: "u16".to_owned() });
        fields.push(ProtocolPacketField { name: "next_state".to_owned(), kind: "HandshakeNextState".to_owned() });
        packets.push(
            ProtocolPacketSpec {
                state: State::Handshaking.name(),
                direction: PacketDirection::ServerBound.name(),
                id: 0x00,
                name: "Handshake".to_owned(),
                body_struct: "HandshakeSpec".to_owned(),
                fields,
            },
        );
        proof {
            lemma_described_id(packets@[0], 0x00, State::Handshaking, PacketDirection::ServerBound);
            assert(row_of(packets@[0]).fields =~= Self::table()[0].fields);
        }
        let mut fields: Vec<ProtocolPacketField> = Vec::new();
        packets.push(
            ProtocolPacketSpec {
                state: State::Status.name(),
                direction: PacketDirection::ServerBound.name(),
                id: 0x00,
                name: "StatusRequest".to_owned(),
                body_struct: "StatusRequestSpec".to_owned(),
                fields,
            },
        );
        proof {
            lemma_described_id(packets@[1], 0x00, State::Status, PacketDirection::ServerBound);
            assert(row_of(packets@[1]).fields =~= Self::table()[1].fields);
        }
        let mut fields: Vec<ProtocolPacketField> = Vec::new();
        fields.push(ProtocolPacketField { name: "payload".to_owned(), kind: "i64".to_owned() });
        packets.push(
            ProtocolPacketSpec {
                state: State::Status.name(),
                direction: PacketDirection::ServerBound.name(),
                id: 0x01,
                name: "StatusPing".to_owned(),
                body_struct: "StatusPingSpec".to_owned(),
                fields,
            },
        );
        proof {
            lemma_described_id(packets@[2], 0x01, State::Status, PacketDirection::ServerBound);
            assert(row_of(packets@[2]).fields =~= Self::table()[2].fields);
        }
        let mut fields: Vec<ProtocolPacketField> = Vec::new();
        fields.push(ProtocolPacketField { name: "response".to_owned(), kind: "String".to_owned() });
        packets.push(
            ProtocolPacketSpec {
                state: State::Status.name(),
                direction: PacketDirection::ClientBound.name(),
                id: 0x00,
                name: "StatusResponse".to_owned(),
                body_struct: "StatusResponseSpec".to_owned(),
                fields,
            },
        );
        proof {
            lemma_described_id(packets@[3], 0x00, State::Status, PacketDirection::ClientBound);
            assert(row_of(packets@[3]).fields =~= Self::table()[3].fields);
        }
        let mut fields: Vec<ProtocolPacketField> = Vec::new();
        fields.push(ProtocolPacketField { name: "payload".to_owned(), kind: "i64".to_owned() });
        packets.push(
            ProtocolPacketSpec {
                state: State::Status.name(),
                direction: PacketDirection::ClientBound.name(),
                id: 0x01,
                name: "StatusPong".to_owned(),
                body_struct: "StatusPongSpec".to_owned(),
                fields,
            },
        );
        proof {
            lemma_described_id(packets@[4], 0x01, State::Status, PacketDirection::ClientBound);
            assert(row_of(packets@[4]).fields =~= Self::table()[4].fields);
        }
        let mut fields: Vec<ProtocolPacketField> = Vec::new();
        fields.push(ProtocolPacketField { name: "message".to_owned(), kind: "String".to_owned() });
        packets.push(
            ProtocolPacketSpec {
                state: State::Login.name(),
                direction: PacketDirection::ClientBound.name(),
                id: 0x00,
                name: "LoginDisconnect".to_owned(),
                body_struct: "LoginDisconnectSpec".to_owned(),
                fields,
            },
        );
        proof {
            lemma_described_id(packets@[5], 0x00, State::Login, PacketDirection::ClientBound);
            assert(row_of(packets@[5]).fields =~= Self::table()[5].fields);
        }
        let mut fields: Vec<ProtocolPacketField> = Vec::new();
        fields.push(ProtocolPacketField { name: "server_id".to_owned(), kind: "String".to_owned() });
        fields.push(ProtocolPacketField { name: "public_key".to_owned(), kind: "CountedArray<u8, VarInt>".to_owned() });
        fields.push(ProtocolPacketField { name: "verify_token".to_owned(), kind: "CountedArray<u8, VarInt>".to_owned() });
        packets.push(
            ProtocolPacketSpec {
                state: State::Login.name(),
                direction: PacketDirection::ClientBound.name(),
                id: 0x01,
                name: "LoginEncryptionRequest".to_owned(),
                body_struct: "LoginEncryptionRequestSpec".to_owned(),
                fields,
            },
        );
        proof {
            lemma_described_id(packets@[6], 0x01, State::Login, PacketDirection::ClientBound);
            assert(row_of(packets@[6]).fields =~= Self::table()[6].fields);
        }
        let mut fields: Vec<ProtocolPacketField> = Vec::new();
        fields.push(ProtocolPacketField { name: "uuid_string".to_owned(), kind: "String".to_owned() });
        fields.push(ProtocolPacketField { name: "username".to_owned(), kind: "String".to_owned() });
        packets.push(
            ProtocolPacketSpec {
                state: State::Login.name(),
                direction: PacketDirection::ClientBound.name(),
                id: 0x02,
                name: "LoginSuccess".to_owned(),
                body_struct: "LoginSuccessSpec".to_owned(),
                fields,
            },
        );
        proof {
            lemma_described_id(packets@[7], 0x02, State::Login, PacketDirection::ClientBound);
            assert(row_of(packets@[7]).fields =~= Self::table()[7].fields);
        }
        let mut fields: Vec<ProtocolPacketField> = Vec::new();
        fields.push(ProtocolPacketField { name: "threshold".to_owned(), kind: "VarInt".to_owned() });
        packets.push(
            ProtocolPacketSpec {
                state: State::Login.name(),
                direction: PacketDirection::ClientBound.name(),
                id: 0x03,
                name: "LoginSetCompression".to_owned(),
                body_struct: "LoginSetCompressionSpec".to_owned(),
                fields,
            },
        );
        proof {
            lemma_described_id(packets@[8], 0x03, State::Login, PacketDirection::ClientBound);
            assert(row_of(packets@[8]).fields =~= Self::table()[8].fields);
        }
        let mut fields: Vec<ProtocolPacketField> = Vec::new();
        fields.push(ProtocolPacketField { name: "message_id".to_owned(), kind: "VarInt".to_owned() });
        fields.push(ProtocolPacketField { name: "channel".to_owned(), kind: "String".to_owned() });
        fields.push(ProtocolPacketField { name: "data".to_owned(), kind: "RemainingBytes".to_owned() });
        packets.push(
            ProtocolPacketSpec {
                state: State::Login.name(),
                direction: PacketDirection::ClientBound.name(),
                id: 0x04,
                name: "LoginPluginRequest".to_owned(),
                body_struct: "LoginPluginRequestSpec".to_owned(),
                fields,
            },
        );
        proof {
            lemma_described_id(packets@[9], 0x04, State::Login, PacketDirection::ClientBound);
            assert(row_of(packets@[9]).fields =~= Self::table()[9].fields);
        }
        let mut fields: Vec<ProtocolPacketField> = Vec::new();
        fields.push(ProtocolPacketField { name: "name".to_owned(), kind: "String".to_owned() });
        packets.push(
            ProtocolPacketSpec {
                state: State::Login.name(),
                direction: PacketDirection::ServerBound.name(),
                id: 0x00,
                name: "LoginStart".to_owned(),
                body_struct: "LoginStartSpec".to_owned(),
                fields,
            },
        );
        proof {
            lemma_described_id(packets@[10], 0x00, State::Login, PacketDirection::ServerBound);
            assert(row_of(packets@[10]).fields =~= Self::table()[10].fields);
        }
        let mut fields: Vec<ProtocolPacketField> = Vec::new();
        fields.push(ProtocolPacketField { name: "shared_secret".to_owned(), kind: "CountedArray<u8, VarInt>".to_owned() });
        fields.push(ProtocolPacketField { name: "verify_token".to_owned(), kind: "CountedArray<u8, VarInt>".to_owned() });
        packets.push(
            ProtocolPacketSpec {
                state: State::Login.name(),
                direction: PacketDirection::ServerBound.name(),
                id: 0x01,
                name: "LoginEncryptionResponse".to_owned(),
                body_struct: "LoginEncryptionResponseSpec".to_owned(),
                fields,
            },
        );
        proof {
            lemma_described_id(packets@[11], 0x01, State::Login, PacketDirection::ServerBound);
            assert(row_of(packets@[11]).fields =~= Self::table()[11].fields);
        }
        let mut fields: Vec<ProtocolPacketField> = Vec::new();
        fields.push(ProtocolPacketField { name: "message_id".to_owned(), kind: "VarInt".to_owned() });
        fields.push(ProtocolPacketField { name: "successful".to_owned(), kind: "bool".to_owned() });
        fields.push(ProtocolPacketField { name: "data".to_owned(), kind: "RemainingBytes".to_owned() });
        packets.push(
            ProtocolPacketSpec {
                state: State::Login.name(),
                direction: PacketDirection::ServerBound.name(),
                id: 0x02,
                name: "LoginPluginResponse".to_owned(),
                body_struct: "LoginPluginResponseSpec".to_owned(),
                fields,
            },
        );
        proof {
            lemma_described_id(packets@[12], 0x02, State::Login, PacketDirection::ServerBound);
            assert(row_of(packets@[12]).fields =~= Self::table()[12].fields);
        }
        ProtocolSpec { name: "Packet578".to_owned(), packets }
    }
}

/// The table lists the packets that the version knows, each once.
pub proof fn lemma_packet578_table(id: Id)
    ensures
        Packet578::known(id) <==> exists|i: int|
            0 <= i < Packet578::table().len() && (#[trigger] Packet578::table()[i]).id == id,
        forall|i: int, j: int|
            0 <= i < j < Packet578::table().len() ==> (#[trigger] Packet578::table()[i]).id != (
            #[trigger] Packet578::table()[j]).id,
{
    let t = Packet578::table();
    assert(t[0].id == packet_id(0x00, State::Handshaking, PacketDirection::ServerBound));
    assert(t[1].id == packet_id(0x00, State::Status, PacketDirection::ServerBound));
    assert(t[2].id == packet_id(0x01, State::Status, PacketDirection::ServerBound));
    assert(t[3].id == packet_id(0x00, State::Status, PacketDirection::ClientBound));
    assert(t[4].id == packet_id(0x01, State::Status, PacketDirection::ClientBound));
    assert(t[5].id == packet_id(0x00, State::Login, PacketDirection::ClientBound));
    assert(t[6].id == packet_id(0x01, State::Login, PacketDirection::ClientBound));
    assert(t[7].id == packet_id(0x02, State::Login, PacketDirection::ClientBound));
    assert(t[8].id == packet_id(0x03, State::Login, PacketDirection::ClientBound));
    assert(t[9].id == packet_id(0x04, State::Login, PacketDirection::ClientBound));
    assert(t[10].id == packet_id(0x00, State::Login, PacketDirection::ServerBound));
    assert(t[11].id == packet_id(0x01, State::Login, PacketDirection::ServerBound));
    assert(t[12].id == packet_id(0x02, State::Login, PacketDirection::ServerBound));
}

/// The undecoded body of a packet whose kind is known: it holds a `T`.
#[derive(PartialEq, Debug)]
pub struct RawPacket578Body<'a, T> {
    pub data: &'a [u8],
    pub _typ: core::marker::PhantomData<T>,
}

impl<'a, T: Deserialize> RawPacket578Body<'a, T> {
    /// Decodes the body, all of it.
    pub fn deserialize(&self) -> (r: Result<T, PacketErr>)
        ensures
            yields(r, whole_body::<T>(self.data@)),
    {
        deserialize_body::<T>(self.data)
    }
}

/// A packet sorted under its kind, with its body still in bytes.
#[derive(Debug, PartialEq)]
pub enum RawPacket578<'a> {
    Handshake(RawPacket578Body<'a, HandshakeSpec>),
    StatusRequest(RawPacket578Body<'a, StatusRequestSpec>),
    StatusPing(RawPacket578Body<'a, StatusPingSpec>),
    StatusResponse(RawPacket578Body<'a, StatusResponseSpec>),
    StatusPong(RawPacket578Body<'a, StatusPongSpec>),
    LoginDisconnect(RawPacket578Body<'a, LoginDisconnectSpec>),
    LoginEncryptionRequest(RawPacket578Body<'a, LoginEncryptionRequestSpec>),
    LoginSuccess(RawPacket578Body<'a, LoginSuccessSpec>),
    LoginSetCompression(RawPacket578Body<'a, LoginSetCompressionSpec>),
    LoginPluginRequest(RawPacket578Body<'a, LoginPluginRequestSpec>),
    LoginStart(RawPacket578Body<'a, LoginStartSpec>),
    LoginEncryptionResponse(RawPacket578Body<'a, LoginEncryptionResponseSpec>),
    LoginPluginResponse(RawPacket578Body<'a, LoginPluginResponseSpec>),
}

impl<'a> RawPacket578<'a> {
    pub open spec fn spec_id(&self) -> Id {
        match self {
            RawPacket578::Handshake(_) => packet_id(0x00, State::Handshaking, PacketDirection::ServerBound),
            RawPacket578::StatusRequest(_) => packet_id(0x00, State::Status, PacketDirection::ServerBound),
            RawPacket578::StatusPing(_) => packet_id(0x01, State::Status, PacketDirection::ServerBound),
            RawPacket578::StatusResponse(_) => packet_id(0x00, State::Status, PacketDirection::ClientBound),
            RawPacket578::StatusPong(_) => packet_id(0x01, State::Status, PacketDirection::ClientBound),
            RawPacket578::LoginDisconnect(_) => packet_id(0x00, State::Login, PacketDirection::ClientBound),
            RawPacket578::LoginEncryptionRequest(_) => packet_id(0x01, State::Login, PacketDirection::ClientBound),
            RawPacket578::LoginSuccess(_) => packet_id(0x02, State::Login, PacketDirection::ClientBound),
            RawPacket578::LoginSetCompression(_) => packet_id(0x03, State::Login, PacketDirection::ClientBound),
            RawPacket578::LoginPluginRequest(_) => packet_id(0x04, State::Login, PacketDirection::ClientBound),
            RawPacket578::LoginStart(_) => packet_id(0x00, State::Login, PacketDirection::ServerBound),
            RawPacket578::LoginEncryptionResponse(_) => packet_id(0x01, State::Login, PacketDirection::ServerBound),
            RawPacket578::LoginPluginResponse(_) => packet_id(0x02, State::Login, PacketDirection::ServerBound),
        }
    }

    pub open spec fn spec_bytes(&self) -> Seq<u8> {
        match self {
            RawPacket578::Handshake(body) => body.data@,
            RawPacket578::StatusRequest(body) => body.data@,
            RawPacket578::StatusPing(body) => body.data@,
            RawPacket578::StatusResponse(body) => body.data@,
            RawPacket578::StatusPong(body) => body.data@,
            RawPacket578::LoginDisconnect(body) => body.data@,
            RawPacket578::LoginEncryptionRequest(body) => body.data@,
            RawPacket578::LoginSuccess(body) => body.data@,
            RawPacket578::LoginSetCompression(body) => body.data@,
            RawPacket578::LoginPluginRequest(body) => body.data@,
            RawPacket578::LoginStart(body) => body.data@,
            RawPacket578::LoginEncryptionResponse(body) => body.data@,
            RawPacket578::LoginPluginResponse(body) => body.data@,
        }
    }

    /// Sorts a raw packet under its kind without decoding the body.
    pub fn create(raw: RawPacket<'a>) -> (r: Result<Self, PacketErr>)
        ensures
            match r {
                Ok(p) => Packet578::known(raw.id) && p.spec_id() == raw.id && p.spec_bytes()
                    == raw.data@,
                Err(e) => !Packet578::known(raw.id) && e@ == PacketFailure::UnknownId(raw.id),
            },
    {
        let id = raw.id;
        let data = raw.data;
        match (id.id, id.state, id.direction) {
            (0x00, State::Handshaking, PacketDirection::ServerBound) => Ok(
                RawPacket578::Handshake(RawPacket578Body { data, _typ: core::marker::PhantomData }),
            ),
            (0x00, State::Status, PacketDirection::ServerBound) => Ok(
                RawPacket578::StatusRequest(RawPacket578Body { data, _typ: core::marker::PhantomData }),
            ),
            (0x01, State::Status, PacketDirection::ServerBound) => Ok(
                RawPacket578::StatusPing(RawPacket578Body { data, _typ: core::marker::PhantomData }),
            ),
            (0x00, State::Status, PacketDirection::ClientBound) => Ok(
                RawPacket578::StatusResponse(RawPacket578Body { data, _typ: core::marker::PhantomData }),
            ),
            (0x01, State::Status, PacketDirection::ClientBound) => Ok(
                RawPacket578::StatusPong(RawPacket578Body { data, _typ: core::marker::PhantomData }),
            ),
            (0x00, State::Login, PacketDirection::ClientBound) => Ok(
                RawPacket578::LoginDisconnect(RawPacket578Body { data, _typ: core::marker::PhantomData }),
            ),
            (0x01, State::Login, PacketDirection::ClientBound) => Ok(
                RawPacket578::LoginEncryptionRequest(RawPacket578Body { data, _typ: core::marker::PhantomData }),
            ),
            (0x02, State::Login, PacketDirection::ClientBound) => Ok(
                RawPacket578::LoginSuccess(RawPacket578Body { data, _typ: core::marker::PhantomData }),
            ),
            (0x03, State::Login, PacketDirection::ClientBound) => Ok(
                RawPacket578::LoginSetCompression(RawPacket578Body { data, _typ: core::marker::PhantomData }),
            ),
            (0x04, State::Login, PacketDirection::ClientBound) => Ok(
                RawPacket578::LoginPluginRequest(RawPacket578Body { data, _typ: core::marker::PhantomData }),
            ),
            (0x00, State::Login, PacketDirection::ServerBound) => Ok(
                RawPacket578::LoginStart(RawPacket578Body { data, _typ: core::marker::PhantomData }),
            ),
            (0x01, State::Login, PacketDirection::ServerBound) => Ok(
                RawPacket578::LoginEncryptionResponse(RawPacket578Body { data, _typ: core::marker::PhantomData }),
            ),
            (0x02, State::Login, PacketDirection::ServerBound) => Ok(
                RawPacket578::LoginPluginResponse(RawPacket578Body { data, _typ: core::marker::PhantomData }),
            ),
            _ => Err(PacketErr::UnknownId(id)),
        }
    }

    pub fn id(&self) -> (r: Id)
        ensures
            r == self.spec_id(),
    {
        match self {
            RawPacket578::Handshake(_) => Id { id: 0x00, state: State::Handshaking, direction: PacketDirection::ServerBound },
            RawPacket578::StatusRequest(_) => Id { id: 0x00, state: State::Status, direction: PacketDirection::ServerBound },
            RawPacket578::StatusPing(_) => Id { id: 0x01, state: State::Status, direction: PacketDirection::ServerBound },
            RawPacket578::StatusResponse(_) => Id { id: 0x00, state: State::Status, direction: PacketDirection::ClientBound },
            RawPacket578::StatusPong(_) => Id { id: 0x01, state: State::Status, direction: PacketDirection::ClientBound },
            RawPacket578::LoginDisconnect(_) => Id { id: 0x00, state: State::Login, direction: PacketDirection::ClientBound },
            RawPacket578::LoginEncryptionRequest(_) => Id { id: 0x01, state: State::Login, direction: PacketDirection::ClientBound },
            RawPacket578::LoginSuccess(_) => Id { id: 0x02, state: State::Login, direction: PacketDirection::ClientBound },
            RawPacket578::LoginSetCompression(_) => Id { id: 0x03, state: State::Login, direction: PacketDirection::ClientBound },
            RawPacket578::LoginPluginRequest(_) => Id { id: 0x04, state: State::Login, direction: PacketDirection::ClientBound },
            RawPacket578::LoginStart(_) => Id { id: 0x00, state: State::Login, direction: PacketDirection::ServerBound },
            RawPacket578::LoginEncryptionResponse(_) => Id { id: 0x01, state: State::Login, direction: PacketDirection::ServerBound },
            RawPacket578::LoginPluginResponse(_) => Id { id: 0x02, state: State::Login, direction: PacketDirection::ServerBound },
        }
    }

    pub fn bytes(&self) -> (r: &'a [u8])
        ensures
            r@ == self.spec_bytes(),
    {
        match self {
            RawPacket578::Handshake(bod) => bod.data,
            RawPacket578::StatusRequest(bod) => bod.data,
            RawPacket578::StatusPing(bod) => bod.data,
            RawPacket578::StatusResponse(bod) => bod.data,
            RawPacket578::StatusPong(bod) => bod.data,
            RawPacket578::LoginDisconnect(bod) => bod.data,
            RawPacket578::LoginEncryptionRequest(bod) => bod.data,
            RawPacket578::LoginSuccess(bod) => bod.data,
            RawPacket578::LoginSetCompression(bod) => bod.data,
            RawPacket578::LoginPluginRequest(bod) => bod.data,
            RawPacket578::LoginStart(bod) => bod.data,
            RawPacket578::LoginEncryptionResponse(bod) => bod.data,
            RawPacket578::LoginPluginResponse(bod) => bod.data,
        }
    }

    pub fn into_raw_packet(self) -> (r: RawPacket<'a>)
        ensures
            r.id == self.spec_id(),
            r.data@ == self.spec_bytes(),
    {
        RawPacket { id: self.id(), data: self.bytes() }
    }

    /// Decodes the body into the packet of this kind.
    pub fn deserialize(self) -> (r: Result<Packet578, PacketErr>)
        ensures
            yields(r, Packet578::layout(self.spec_id(), self.spec_bytes())),
    {
        Packet578::mc_deserialize(self.into_raw_packet())
    }
}

/// A packet of a known identity, written from a faithful body, is read back
/// from its identity and its bytes.
pub proof fn lemma_packet578_round_trip(p: Packet578View)
    requires
        packet578_faithful(p),
    ensures
        Packet578::known(Packet578::id_of(p)),
        Packet578::layout(Packet578::id_of(p), Packet578::body_of(p)) == Ok::<Packet578View, PacketFailure>(p),
{
    match p {
        Packet578View::Handshake(body) => {
            lemma_whole_body_round_trip::<HandshakeSpec>(body);
            assert(Packet578::id_of(p) == packet_id(0x00, State::Handshaking, PacketDirection::ServerBound));
        },
        Packet578View::StatusRequest(body) => {
            lemma_whole_body_round_trip::<StatusRequestSpec>(body);
            assert(Packet578::id_of(p) == packet_id(0x00, State::Status, PacketDirection::ServerBound));
        },
        Packet578View::StatusPing(body) => {
            lemma_whole_body_round_trip::<StatusPingSpec>(body);
            assert(Packet578::id_of(p) == packet_id(0x01, State::Status, PacketDirection::ServerBound));
        },
        Packet578View::StatusResponse(body) => {
            lemma_whole_body_round_trip::<StatusResponseSpec>(body);
            assert(Packet578::id_of(p) == packet_id(0x00, State::Status, PacketDirection::ClientBound));
        },
        Packet578View::StatusPong(body) => {
            lemma_whole_body_round_trip::<StatusPongSpec>(body);
            assert(Packet578::id_of(p) == packet_id(0x01, State::Status, PacketDirection::ClientBound));
        },
        Packet578View::LoginDisconnect(body) => {
            lemma_whole_body_round_trip::<LoginDisconnectSpec>(body);
            assert(Packet578::id_of(p) == packet_id(0x00, State::Login, PacketDirection::ClientBound));
        },
        Packet578View::LoginEncryptionRequest(body) => {
            lemma_whole_body_round_trip::<LoginEncryptionRequestSpec>(body);
            assert(Packet578::id_of(p) == packet_id(0x01, State::Login, PacketDirection::ClientBound));
        },
        Packet578View::LoginSuccess(body) => {
            lemma_whole_body_round_trip::<LoginSuccessSpec>(body);
            assert(Packet578::id_of(p) == packet_id(0x02, State::Login, PacketDirection::ClientBound));
        },
        Packet578View::LoginSetCompression(body) => {
            lemma_whole_body_round_trip::<LoginSetCompressionSpec>(body);
            assert(Packet578::id_of(p) == packet_id(0x03, State::Login, PacketDirection::ClientBound));
        },
        Packet578View::LoginPluginRequest(body) => {
            lemma_whole_body_round_trip::<LoginPluginRequestSpec>(body);
            assert(Packet578::id_of(p) == packet_id(0x04, State::Login, PacketDirection::ClientBound));
        },
        Packet578View::LoginStart(body) => {
            lemma_whole_body_round_trip::<LoginStartSpec>(body);
            assert(Packet578::id_of(p) == packet_id(0x00, State::Login, PacketDirection::ServerBound));
        },
        Packet578View::LoginEncryptionResponse(body) => {
            lemma_whole_body_round_trip::<LoginEncryptionResponseSpec>(body);
            assert(Packet578::id_of(p) == packet_id(0x01, State::Login, PacketDirection::ServerBound));
        },
        Packet578View::LoginPluginResponse(body) => {
            lemma_whole_body_round_trip::<LoginPluginResponseSpec>(body);
            assert(Packet578::id_of(p) == packet_id(0x02, State::Login, PacketDirection::ServerBound));
        },
    }
}

/// The packets whose body comes back from its own bytes.
pub open spec fn packet578_faithful(p: Packet578View) -> bool {
    match p {
        Packet578View::Handshake(body) => HandshakeSpec::faithful(body),
        Packet578View::StatusRequest(body) => StatusRequestSpec::faithful(body),
        Packet578View::StatusPing(body) => StatusPingSpec::faithful(body),
        Packet578View::StatusResponse(body) => StatusResponseSpec::faithful(body),
        Packet578View::StatusPong(body) => StatusPongSpec::faithful(body),
        Packet578View::LoginDisconnect(body) => LoginDisconnectSpec::faithful(body),
        Packet578View::LoginEncryptionRequest(body) => LoginEncryptionRequestSpec::faithful(body),
        Packet578View::LoginSuccess(body) => LoginSuccessSpec::faithful(body),
        Packet578View::LoginSetCompression(body) => LoginSetCompressionSpec::faithful(body),
        Packet578View::LoginPluginRequest(body) => LoginPluginRequestSpec::faithful(body),
        Packet578View::LoginStart(body) => LoginStartSpec::faithful(body),
        Packet578View::LoginEncryptionResponse(body) => LoginEncryptionResponseSpec::faithful(body),
        Packet578View::LoginPluginResponse(body) => LoginPluginResponseSpec::faithful(body),
    }
}

/// What is read under an identity is a packet of that identity: no two
/// kinds of packet share one.
pub proof fn lemma_packet578_identity(id: Id, data: Seq<u8>)
    requires
        Packet578::known(id),
    ensures
        Packet578::layout(id, data) matches Ok(p) ==> Packet578::id_of(p) == id,
{
}

/// The first packet of a connection: it names the stage that follows.
#[derive(Debug, Clone, PartialEq)]
pub struct HandshakeSpec {
    /// The protocol version that the client speaks.
    pub version: VarInt,
    pub server_address: String,
    pub server_port: u16,
    /// The stage that the client asks for.
    pub next_state: HandshakeNextState,
}

/// The mathematical content of a [`HandshakeSpec`].
pub struct HandshakeSpecView {
    pub version: VarInt,
    pub server_address: Seq<char>,
    pub server_port: u16,
    pub next_state: HandshakeNextState,
}

impl DeepView for HandshakeSpec {
    type V = HandshakeSpecView;

    open spec fn deep_view(&self) -> HandshakeSpecView {
        HandshakeSpecView {
            version: self.version.deep_view(),
            server_address: self.server_address.deep_view(),
            server_port: self.server_port.deep_view(),
            next_state: self.next_state.deep_view(),
        }
    }
}

impl Serialize for HandshakeSpec {
    open spec fn serializable(v: HandshakeSpecView) -> bool {
        VarInt::serializable(v.version) && String::serializable(v.server_address) && u16::serializable(v.server_port) && HandshakeNextState::serializable(v.next_state)
    }

    #[verifier::opaque]
    open spec fn encode(v: HandshakeSpecView) -> Seq<u8> {
        VarInt::encode(v.version) + String::encode(v.server_address) + u16::encode(v.server_port) + HandshakeNextState::encode(v.next_state)
    }

    fn mc_serialize<S: Serializer>(&self, to: &mut S) -> (r: SerializeResult) {
        proof {
            reveal(<HandshakeSpec as Serialize>::encode);
        }
        self.version.mc_serialize(to)?;
        self.server_address.mc_serialize(to)?;
        self.server_port.mc_serialize(to)?;
        self.next_state.mc_serialize(to)?;
        proof {
            let v = self.deep_view();
            let w = old(to).written();
            let e0 = VarInt::encode(v.version);
            let e1 = String::encode(v.server_address);
            let e2 = u16::encode(v.server_port);
            let e3 = HandshakeNextState::encode(v.next_state);
            let l0 = e0;
            let l1 = l0 + e1;
            let l2 = l1 + e2;
            let l3 = l2 + e3;
            lemma_concat_assoc(w, l0, e1);
            lemma_concat_assoc(w, l1, e2);
            lemma_concat_assoc(w, l2, e3);
        }
        Ok(())
    }
}

impl Deserialize for HandshakeSpec {
    #[verifier::opaque]
    open spec fn decode(data: Seq<u8>) -> Decoded<HandshakeSpecView> {
        match VarInt::decode(data) {
            Err(e) => Err(e),
            Ok((version, n0)) => {
                match String::decode(data.skip((n0) as int)) {
                    Err(e) => Err(e),
                    Ok((server_address, n1)) => {
                        match u16::decode(data.skip((n0 + n1) as int)) {
                            Err(e) => Err(e),
                            Ok((server_port, n2)) => {
                                match HandshakeNextState::decode(data.skip((n0 + n1 + n2) as int)) {
                                    Err(e) => Err(e),
                                    Ok((next_state, n3)) => Ok((HandshakeSpecView { version, server_address, server_port, next_state }, n0 + n1 + n2 + n3)),
                                }
                            },
                        }
                    },
                }
            },
        }
    }

    fn mc_deserialize(data: &[u8]) -> (r: DeserializeResult<'_, HandshakeSpec>) {
        proof {
            reveal(<HandshakeSpec as Deserialize>::decode);
        }
        let ghost whole = data@;
        let Deserialized { value: version, data: rest0 } = VarInt::mc_deserialize(data)?;
        let Deserialized { value: server_address, data: rest1 } = String::mc_deserialize(rest0)?;
        proof {
            lemma_skip_skip(
                whole,
                whole.len() - rest0@.len(),
                rest0@.len() - rest1@.len(),
            );
        }
        let Deserialized { value: server_port, data: rest2 } = u16::mc_deserialize(rest1)?;
        proof {
            lemma_skip_skip(
                whole,
                whole.len() - rest1@.len(),
                rest1@.len() - rest2@.len(),
            );
        }
        let Deserialized { value: next_state, data: rest3 } = HandshakeNextState::mc_deserialize(rest2)?;
        proof {
            lemma_skip_skip(
                whole,
                whole.len() - rest2@.len(),
                rest2@.len() - rest3@.len(),
            );
        }
        Ok(Deserialized { value: HandshakeSpec { version, server_address, server_port, next_state }, data: rest3 })
    }
}

impl ProtocolType for HandshakeSpec {
    open spec fn faithful(v: HandshakeSpecView) -> bool {
        VarInt::faithful(v.version) && String::faithful(v.server_address) && u16::faithful(v.server_port) && HandshakeNextState::faithful(v.next_state)
    }

    open spec fn delimited() -> bool {
        HandshakeNextState::delimited()
    }

    proof fn lemma_round_trip(v: HandshakeSpecView, rest: Seq<u8>) {
        reveal(<HandshakeSpec as Serialize>::encode);
        reveal(<HandshakeSpec as Deserialize>::decode);
        let e0 = VarInt::encode(v.version);
        let e1 = String::encode(v.server_address);
        let e2 = u16::encode(v.server_port);
        let e3 = HandshakeNextState::encode(v.next_state);
        let data = Self::encode(v) + rest;
        let t4 = rest;
        let t3 = e3 + t4;
        let t2 = e2 + t3;
        let t1 = e1 + t2;
        let t0 = e0 + t1;
        let l0 = e0;
        let l1 = l0 + e1;
        let l2 = l1 + e2;
        let l3 = l2 + e3;
        lemma_concat_assoc(l2, e3, t4);
        lemma_concat_assoc(l1, e2, t3);
        lemma_concat_assoc(l0, e1, t2);
        assert(data == t0);
        VarInt::lemma_round_trip(v.version, t1);
        lemma_skip_concat(e0, t1);
        String::lemma_round_trip(v.server_address, t2);
        lemma_skip_more(data, (e0.len()) as int, e1, t2);
        u16::lemma_round_trip(v.server_port, t3);
        lemma_skip_more(data, (e0.len() + e1.len()) as int, e2, t3);
        HandshakeNextState::lemma_round_trip(v.next_state, t4);
        lemma_skip_more(data, (e0.len() + e1.len() + e2.len()) as int, e3, t4);
    }
}

/// Asks the server for its status.
#[derive(Debug, Clone, PartialEq, Default)]
pub struct StatusRequestSpec;

impl View for StatusRequestSpec {
    type V = StatusRequestSpec;

    open spec fn view(&self) -> StatusRequestSpec {
        *self
    }
}

impl DeepView for StatusRequestSpec {
    type V = StatusRequestSpec;

    open spec fn deep_view(&self) -> StatusRequestSpec {
        *self
    }
}

impl Serialize for StatusRequestSpec {
    open spec fn serializable(v: StatusRequestSpec) -> bool {
        true
    }

    open spec fn encode(v: StatusRequestSpec) -> Seq<u8> {
        Seq::empty()
    }

    fn mc_serialize<S: Serializer>(&self, to: &mut S) -> (r: SerializeResult) {
        proof {
            assert(old(to).written() + Seq::<u8>::empty() =~= old(to).written());
        }
        Ok(())
    }
}

impl Deserialize for StatusRequestSpec {
    open spec fn decode(data: Seq<u8>) -> Decoded<StatusRequestSpec> {
        Ok((StatusRequestSpec, 0))
    }

    fn mc_deserialize(data: &[u8]) -> (r: DeserializeResult<'_, StatusRequestSpec>) {
        proof {
            assert(data@.skip(0) =~= data@);
        }
        Ok(Deserialized { value: StatusRequestSpec, data })
    }
}

impl ProtocolType for StatusRequestSpec {
    open spec fn faithful(v: StatusRequestSpec) -> bool {
        true
    }

    open spec fn delimited() -> bool {
        true
    }

    proof fn lemma_round_trip(v: StatusRequestSpec, rest: Seq<u8>) {
        assert(Seq::<u8>::empty() + rest =~= rest);
    }
}

/// A number for the server to send back.
#[derive(Debug, Clone, PartialEq)]
pub struct StatusPingSpec {
    pub payload: i64,
}

/// The mathematical content of a [`StatusPingSpec`].
pub struct StatusPingSpecView {
    pub payload: i64,
}

impl DeepView for StatusPingSpec {
    type V = StatusPingSpecView;

    open spec fn deep_view(&self) -> StatusPingSpecView {
        StatusPingSpecView {
            payload: self.payload.deep_view(),
        }
    }
}

impl Serialize for StatusPingSpec {
    open spec fn serializable(v: StatusPingSpecView) -> bool {
        i64::serializable(v.payload)
    }

    #[verifier::opaque]
    open spec fn encode(v: StatusPingSpecView) -> Seq<u8> {
        i64::encode(v.payload)
    }

    fn mc_serialize<S: Serializer>(&self, to: &mut S) -> (r: SerializeResult) {
        proof {
            reveal(<StatusPingSpec as Serialize>::encode);
        }
        self.payload.mc_serialize(to)?;
        proof {
            assert(to.written() =~= old(to).written() + Self::encode(self.deep_view()));
        }
        Ok(())
    }
}

impl Deserialize for StatusPingSpec {
    #[verifier::opaque]
    open spec fn decode(data: Seq<u8>) -> Decoded<StatusPingSpecView> {
        match i64::decode(data) {
            Err(e) => Err(e),
            Ok((payload, n0)) => Ok((StatusPingSpecView { payload }, n0)),
        }
    }

    fn mc_deserialize(data: &[u8]) -> (r: DeserializeResult<'_, StatusPingSpec>) {
        proof {
            reveal(<StatusPingSpec as Deserialize>::decode);
        }
        let Deserialized { value: payload, data: rest0 } = i64::mc_deserialize(data)?;
        Ok(Deserialized { value: StatusPingSpec { payload }, data: rest0 })
    }
}

impl ProtocolType for StatusPingSpec {
    open spec fn faithful(v: StatusPingSpecView) -> bool {
        i64::faithful(v.payload)
    }

    open spec fn delimited() -> bool {
        i64::delimited()
    }

    proof fn lemma_round_trip(v: StatusPingSpecView, rest: Seq<u8>) {
        reveal(<StatusPingSpec as Serialize>::encode);
        reveal(<StatusPingSpec as Deserialize>::decode);
        let e0 = i64::encode(v.payload);
        let data = Self::encode(v) + rest;
        let t1 = rest;
        let t0 = e0 + t1;
        i64::lemma_round_trip(v.payload, t1);
        lemma_skip_concat(e0, t1);
    }
}

/// The server's status.
#[derive(Debug, Clone, PartialEq)]
pub struct StatusResponseSpec {
    /// The status document, as JSON text.
    pub response: String,
}

/// The mathematical content of a [`StatusResponseSpec`].
pub struct StatusResponseSpecView {
    pub response: Seq<char>,
}

impl DeepView for StatusResponseSpec {
    type V = StatusResponseSpecView;

    open spec fn deep_view(&self) -> StatusResponseSpecView {
        StatusResponseSpecView {
            response: self.response.deep_view(),
        }
    }
}

impl Serialize for StatusResponseSpec {
    open spec fn serializable(v: StatusResponseSpecView) -> bool {
        String::serializable(v.response)
    }

    #[verifier::opaque]
    open spec fn encode(v: StatusResponseSpecView) -> Seq<u8> {
        String::encode(v.response)
    }

    fn mc_serialize<S: Serializer>(&self, to: &mut S) -> (r: SerializeResult) {
        proof {
            reveal(<StatusResponseSpec as Serialize>::encode);
        }
        self.response.mc_serialize(to)?;
        proof {
            assert(to.written() =~= old(to).written() + Self::encode(self.deep_view()));
        }
        Ok(())
    }
}

impl Deserialize for StatusResponseSpec {
    #[verifier::opaque]
    open spec fn decode(data: Seq<u8>) -> Decoded<StatusResponseSpecView> {
        match String::decode(data) {
            Err(e) => Err(e),
            Ok((response, n0)) => Ok((StatusResponseSpecView { response }, n0)),
        }
    }

    fn mc_deserialize(data: &[u8]) -> (r: DeserializeResult<'_, StatusResponseSpec>) {
        proof {
            reveal(<StatusResponseSpec as Deserialize>::decode);
        }
        let Deserialized { value: response, data: rest0 } = String::mc_deserialize(data)?;
        Ok(Deserialized { value: StatusResponseSpec { response }, data: rest0 })
    }
}

impl ProtocolType for StatusResponseSpec {
    open spec fn faithful(v: StatusResponseSpecView) -> bool {
        String::faithful(v.response)
    }

    open spec fn delimited() -> bool {
        String::delimited()
    }

    proof fn lemma_round_trip(v: StatusResponseSpecView, rest: Seq<u8>) {
        reveal(<StatusResponseSpec as Serialize>::encode);
        reveal(<StatusResponseSpec as Deserialize>::decode);
        let e0 = String::encode(v.response);
        let data = Self::encode(v) + rest;
        let t1 = rest;
        let t0 = e0 + t1;
        String::lemma_round_trip(v.response, t1);
        lemma_skip_concat(e0, t1);
    }
}

/// The number of the ping, sent back.
#[derive(Debug, Clone, PartialEq)]
pub struct StatusPongSpec {
    pub payload: i64,
}

/// The mathematical content of a [`StatusPongSpec`].
pub struct StatusPongSpecView {
    pub payload: i64,
}

impl DeepView for StatusPongSpec {
    type V = StatusPongSpecView;

    open spec fn deep_view(&self) -> StatusPongSpecView {
        StatusPongSpecView {
            payload: self.payload.deep_view(),
        }
    }
}

impl Serialize for StatusPongSpec {
    open spec fn serializable(v: StatusPongSpecView) -> bool {
        i64::serializable(v.payload)
    }

    #[verifier::opaque]
    open spec fn encode(v: StatusPongSpecView) -> Seq<u8> {
        i64::encode(v.payload)
    }

    fn mc_serialize<S: Serializer>(&self, to: &mut S) -> (r: SerializeResult) {
        proof {
            reveal(<StatusPongSpec as Serialize>::encode);
        }
        self.payload.mc_serialize(to)?;
        proof {
            assert(to.written() =~= old(to).written() + Self::encode(self.deep_view()));
        }
        Ok(())
    }
}

impl Deserialize for StatusPongSpec {
    #[verifier::opaque]
    open spec fn decode(data: Seq<u8>) -> Decoded<StatusPongSpecView> {
        match i64::decode(data) {
            Err(e) => Err(e),
            Ok((payload, n0)) => Ok((StatusPongSpecView { payload }, n0)),
        }
    }

    fn mc_deserialize(data: &[u8]) -> (r: DeserializeResult<'_, StatusPongSpec>) {
        proof {
            reveal(<StatusPongSpec as Deserialize>::decode);
        }
        let Deserialized { value: payload, data: rest0 } = i64::mc_deserialize(data)?;
        Ok(Deserialized { value: StatusPongSpec { payload }, data: rest0 })
    }
}

impl ProtocolType for StatusPongSpec {
    open spec fn faithful(v: StatusPongSpecView) -> bool {
        i64::faithful(v.payload)
    }

    open spec fn delimited() -> bool {
        i64::delimited()
    }

    proof fn lemma_round_trip(v: StatusPongSpecView, rest: Seq<u8>) {
        reveal(<StatusPongSpec as Serialize>::encode);
        reveal(<StatusPongSpec as Deserialize>::decode);
        let e0 = i64::encode(v.payload);
        let data = Self::encode(v) + rest;
        let t1 = rest;
        let t0 = e0 + t1;
        i64::lemma_round_trip(v.payload, t1);
        lemma_skip_concat(e0, t1);
    }
}

/// The server refuses the login.
#[derive(Debug, Clone, PartialEq)]
pub struct LoginDisconnectSpec {
    /// The reason as a chat component, as JSON text.
    pub message: String,
}

/// The mathematical content of a [`LoginDisconnectSpec`].
pub struct LoginDisconnectSpecView {
    pub message: Seq<char>,
}

impl DeepView for LoginDisconnectSpec {
    type V = LoginDisconnectSpecView;

    open spec fn deep_view(&self) -> LoginDisconnectSpecView {
        LoginDisconnectSpecView {
            message: self.message.deep_view(),
        }
    }
}

impl Serialize for LoginDisconnectSpec {
    open spec fn serializable(v: LoginDisconnectSpecView) -> bool {
        String::serializable(v.message)
    }

    #[verifier::opaque]
    open spec fn encode(v: LoginDisconnectSpecView) -> Seq<u8> {
        String::encode(v.message)
    }

    fn mc_serialize<S: Serializer>(&self, to: &mut S) -> (r: SerializeResult) {
        proof {
            reveal(<LoginDisconnectSpec as Serialize>::encode);
        }
        self.message.mc_serialize(to)?;
        proof {
            assert(to.written() =~= old(to).written() + Self::encode(self.deep_view()));
        }
        Ok(())
    }
}

impl Deserialize for LoginDisconnectSpec {
    #[verifier::opaque]
    open spec fn decode(data: Seq<u8>) -> Decoded<LoginDisconnectSpecView> {
        match String::decode(data) {
            Err(e) => Err(e),
            Ok((message, n0)) => Ok((LoginDisconnectSpecView { message }, n0)),
        }
    }

    fn mc_deserialize(data: &[u8]) -> (r: DeserializeResult<'_, LoginDisconnectSpec>) {
        proof {
            reveal(<LoginDisconnectSpec as Deserialize>::decode);
        }
        let Deserialized { value: message, data: rest0 } = String::mc_deserialize(data)?;
        Ok(Deserialized { value: LoginDisconnectSpec { message }, data: rest0 })
    }
}

impl ProtocolType for LoginDisconnectSpec {
    open spec fn faithful(v: LoginDisconnectSpecView) -> bool {
        String::faithful(v.message)
    }

    open spec fn delimited() -> bool {
        String::delimited()
    }

    proof fn lemma_round_trip(v: LoginDisconnectSpecView, rest: Seq<u8>) {
        reveal(<LoginDisconnectSpec as Serialize>::encode);
        reveal(<LoginDisconnectSpec as Deserialize>::decode);
        let e0 = String::encode(v.message);
        let data = Self::encode(v) + rest;
        let t1 = rest;
        let t0 = e0 + t1;
        String::lemma_round_trip(v.message, t1);
        lemma_skip_concat(e0, t1);
    }
}

/// The server asks to encrypt the connection.
#[derive(Debug, Clone, PartialEq)]
pub struct LoginEncryptionRequestSpec {
    pub server_id: String,
    pub public_key: CountedArray<u8, VarInt>,
    pub verify_token: CountedArray<u8, VarInt>,
}

/// The mathematical content of a [`LoginEncryptionRequestSpec`].
pub struct LoginEncryptionRequestSpecView {
    pub server_id: Seq<char>,
    pub public_key: Seq<u8>,
    pub verify_token: Seq<u8>,
}

impl DeepView for LoginEncryptionRequestSpec {
    type V = LoginEncryptionRequestSpecView;

    open spec fn deep_view(&self) -> LoginEncryptionRequestSpecView {
        LoginEncryptionRequestSpecView {
            server_id: self.server_id.deep_view(),
            public_key: self.public_key.deep_view(),
            verify_token: self.verify_token.deep_view(),
        }
    }
}

impl Serialize for LoginEncryptionRequestSpec {
    open spec fn serializable(v: LoginEncryptionRequestSpecView) -> bool {
        String::serializable(v.server_id) && <CountedArray<u8, VarInt>>::serializable(v.public_key) && <CountedArray<u8, VarInt>>::serializable(v.verify_token)
    }

    #[verifier::opaque]
    open spec fn encode(v: LoginEncryptionRequestSpecView) -> Seq<u8> {
        String::encode(v.server_id) + <CountedArray<u8, VarInt>>::encode(v.public_key) + <CountedArray<u8, VarInt>>::encode(v.verify_token)
    }

    fn mc_serialize<S: Serializer>(&self, to: &mut S) -> (r: SerializeResult) {
        proof {
            reveal(<LoginEncryptionRequestSpec as Serialize>::encode);
        }
        self.server_id.mc_serialize(to)?;
        self.public_key.mc_serialize(to)?;
        self.verify_token.mc_serialize(to)?;
        proof {
            let v = self.deep_view();
            let w = old(to).written();
            let e0 = String::encode(v.server_id);
            let e1 = <CountedArray<u8, VarInt>>::encode(v.public_key);
            let e2 = <CountedArray<u8, VarInt>>::encode(v.verify_token);
            let l0 = e0;
            let l1 = l0 + e1;
            let l2 = l1 + e2;
            lemma_concat_assoc(w, l0, e1);
            lemma_concat_assoc(w, l1, e2);
        }
        Ok(())
    }
}

impl Deserialize for LoginEncryptionRequestSpec {
    #[verifier::opaque]
    open spec fn decode(data: Seq<u8>) -> Decoded<LoginEncryptionRequestSpecView> {
        match String::decode(data) {
            Err(e) => Err(e),
            Ok((server_id, n0)) => {
                match <CountedArray<u8, VarInt>>::decode(data.skip((n0) as int)) {
                    Err(e) => Err(e),
                    Ok((public_key, n1)) => {
                        match <CountedArray<u8, VarInt>>::decode(data.skip((n0 + n1) as int)) {
                            Err(e) => Err(e),
                            Ok((verify_token, n2)) => Ok((LoginEncryptionRequestSpecView { server_id, public_key, verify_token }, n0 + n1 + n2)),
                        }
                    },
                }
            },
        }
    }

    fn mc_deserialize(data: &[u8]) -> (r: DeserializeResult<'_, LoginEncryptionRequestSpec>) {
        proof {
            reveal(<LoginEncryptionRequestSpec as Deserialize>::decode);
        }
        let ghost whole = data@;
        let Deserialized { value: server_id, data: rest0 } = String::mc_deserialize(data)?;
        let Deserialized { value: public_key, data: rest1 } = <CountedArray<u8, VarInt>>::mc_deserialize(rest0)?;
        proof {
            lemma_skip_skip(
                whole,
                whole.len() - rest0@.len(),
                rest0@.len() - rest1@.len(),
            );
        }
        let Deserialized { value: verify_token, data: rest2 } = <CountedArray<u8, VarInt>>::mc_deserialize(rest1)?;
        proof {
            lemma_skip_skip(
                whole,
                whole.len() - rest1@.len(),
                rest1@.len() - rest2@.len(),
            );
        }
        Ok(Deserialized { value: LoginEncryptionRequestSpec { server_id, public_key, verify_token }, data: rest2 })
    }
}

impl ProtocolType for LoginEncryptionRequestSpec {
    open spec fn faithful(v: LoginEncryptionRequestSpecView) -> bool {
        String::faithful(v.server_id) && <CountedArray<u8, VarInt>>::faithful(v.public_key) && <CountedArray<u8, VarInt>>::faithful(v.verify_token)
    }

    open spec fn delimited() -> bool {
        <CountedArray<u8, VarInt>>::delimited()
    }

    proof fn lemma_round_trip(v: LoginEncryptionRequestSpecView, rest: Seq<u8>) {
        reveal(<LoginEncryptionRequestSpec as Serialize>::encode);
        reveal(<LoginEncryptionRequestSpec as Deserialize>::decode);
        let e0 = String::encode(v.server_id);
        let e1 = <CountedArray<u8, VarInt>>::encode(v.public_key);
        let e2 = <CountedArray<u8, VarInt>>::encode(v.verify_token);
        let data = Self::encode(v) + rest;
        let t3 = rest;
        let t2 = e2 + t3;
        let t1 = e1 + t2;
        let t0 = e0 + t1;
        let l0 = e0;
        let l1 = l0 + e1;
        let l2 = l1 + e2;
        lemma_concat_assoc(l1, e2, t3);
        lemma_concat_assoc(l0, e1, t2);
        assert(data == t0);
        String::lemma_round_trip(v.server_id, t1);
        lemma_skip_concat(e0, t1);
        <CountedArray<u8, VarInt>>::lemma_round_trip(v.public_key, t2);
        lemma_skip_more(data, (e0.len()) as int, e1, t2);
        <CountedArray<u8, VarInt>>::lemma_round_trip(v.verify_token, t3);
        lemma_skip_more(data, (e0.len() + e1.len()) as int, e2, t3);
    }
}

/// The login is done; the play stage follows.
#[derive(Debug, Clone, PartialEq)]
pub struct LoginSuccessSpec {
    /// The player's identifier, as text.
    pub uuid_string: String,
    pub username: String,
}

/// The mathematical content of a [`LoginSuccessSpec`].
pub struct LoginSuccessSpecView {
    pub uuid_string: Seq<char>,
    pub username: Seq<char>,
}

impl DeepView for LoginSuccessSpec {
    type V = LoginSuccessSpecView;

    open spec fn deep_view(&self) -> LoginSuccessSpecView {
        LoginSuccessSpecView {
            uuid_string: self.uuid_string.deep_view(),
            username: self.username.deep_view(),
        }
    }
}

impl Serialize for LoginSuccessSpec {
    open spec fn serializable(v: LoginSuccessSpecView) -> bool {
        String::serializable(v.uuid_string) && String::serializable(v.username)
    }

    #[verifier::opaque]
    open spec fn encode(v: LoginSuccessSpecView) -> Seq<u8> {
        String::encode(v.uuid_string) + String::encode(v.username)
    }

    fn mc_serialize<S: Serializer>(&self, to: &mut S) -> (r: SerializeResult) {
        proof {
            reveal(<LoginSuccessSpec as Serialize>::encode);
        }
        self.uuid_string.mc_serialize(to)?;
        self.username.mc_serialize(to)?;
        proof {
            assert(to.written() =~= old(to).written() + Self::encode(self.deep_view()));
        }
        Ok(())
    }
}

impl Deserialize for LoginSuccessSpec {
    #[verifier::opaque]
    open spec fn decode(data: Seq<u8>) -> Decoded<LoginSuccessSpecView> {
        match String::decode(data) {
            Err(e) => Err(e),
            Ok((uuid_string, n0)) => {
                match String::decode(data.skip((n0) as int)) {
                    Err(e) => Err(e),
                    Ok((username, n1)) => Ok((LoginSuccessSpecView { uuid_string, username }, n0 + n1)),
                }
            },
        }
    }

    fn mc_deserialize(data: &[u8]) -> (r: DeserializeResult<'_, LoginSuccessSpec>) {
        proof {
            reveal(<LoginSuccessSpec as Deserialize>::decode);
        }
        let ghost whole = data@;
        let Deserialized { value: uuid_string, data: rest0 } = String::mc_deserialize(data)?;
        let Deserialized { value: username, data: rest1 } = String::mc_deserialize(rest0)?;
        proof {
            lemma_skip_skip(
                whole,
                whole.len() - rest0@.len(),
                rest0@.len() - rest1@.len(),
            );
        }
        Ok(Deserialized { value: LoginSuccessSpec { uuid_string, username }, data: rest1 })
    }
}

impl ProtocolType for LoginSuccessSpec {
    open spec fn faithful(v: LoginSuccessSpecView) -> bool {
        String::faithful(v.uuid_string) && String::faithful(v.username)
    }

    open spec fn delimited() -> bool {
        String::delimited()
    }

    proof fn lemma_round_trip(v: LoginSuccessSpecView, rest: Seq<u8>) {
        reveal(<LoginSuccessSpec as Serialize>::encode);
        reveal(<LoginSuccessSpec as Deserialize>::decode);
        let e0 = String::encode(v.uuid_string);
        let e1 = String::encode(v.username);
        let data = Self::encode(v) + rest;
        let t2 = rest;
        let t1 = e1 + t2;
        let t0 = e0 + t1;
        let l0 = e0;
        let l1 = l0 + e1;
        lemma_concat_assoc(l0, e1, t2);
        assert(data == t0);
        String::lemma_round_trip(v.uuid_string, t1);
        lemma_skip_concat(e0, t1);
        String::lemma_round_trip(v.username, t2);
        lemma_skip_more(data, (e0.len()) as int, e1, t2);
    }
}

/// Packets of this size and more are compressed from now on.
#[derive(Debug, Clone, PartialEq)]
pub struct LoginSetCompressionSpec {
    pub threshold: VarInt,
}

/// The mathematical content of a [`LoginSetCompressionSpec`].
pub struct LoginSetCompressionSpecView {
    pub threshold: VarInt,
}

impl DeepView for LoginSetCompressionSpec {
    type V = LoginSetCompressionSpecView;

    open spec fn deep_view(&self) -> LoginSetCompressionSpecView {
        LoginSetCompressionSpecView {
            threshold: self.threshold.deep_view(),
        }
    }
}

impl Serialize for LoginSetCompressionSpec {
    open spec fn serializable(v: LoginSetCompressionSpecView) -> bool {
        VarInt::serializable(v.threshold)
    }

    #[verifier::opaque]
    open spec fn encode(v: LoginSetCompressionSpecView) -> Seq<u8> {
        VarInt::encode(v.threshold)
    }

    fn mc_serialize<S: Serializer>(&self, to: &mut S) -> (r: SerializeResult) {
        proof {
            reveal(<LoginSetCompressionSpec as Serialize>::encode);
        }
        self.threshold.mc_serialize(to)?;
        proof {
            assert(to.written() =~= old(to).written() + Self::encode(self.deep_view()));
        }
        Ok(())
    }
}

impl Deserialize for LoginSetCompressionSpec {
    #[verifier::opaque]
    open spec fn decode(data: Seq<u8>) -> Decoded<LoginSetCompressionSpecView> {
        match VarInt::decode(data) {
            Err(e) => Err(e),
            Ok((threshold, n0)) => Ok((LoginSetCompressionSpecView { threshold }, n0)),
        }
    }

    fn mc_deserialize(data: &[u8]) -> (r: DeserializeResult<'_, LoginSetCompressionSpec>) {
        proof {
            reveal(<LoginSetCompressionSpec as Deserialize>::decode);
        }
        let Deserialized { value: threshold, data: rest0 } = VarInt::mc_deserialize(data)?;
        Ok(Deserialized { value: LoginSetCompressionSpec { threshold }, data: rest0 })
    }
}

impl ProtocolType for LoginSetCompressionSpec {
    open spec fn faithful(v: LoginSetCompressionSpecView) -> bool {
        VarInt::faithful(v.threshold)
    }

    open spec fn delimited() -> bool {
        VarInt::delimited()
    }

    proof fn lemma_round_trip(v: LoginSetCompressionSpecView, rest: Seq<u8>) {
        reveal(<LoginSetCompressionSpec as Serialize>::encode);
        reveal(<LoginSetCompressionSpec as Deserialize>::decode);
        let e0 = VarInt::encode(v.threshold);
        let data = Self::encode(v) + rest;
        let t1 = rest;
        let t0 = e0 + t1;
        VarInt::lemma_round_trip(v.threshold, t1);
        lemma_skip_concat(e0, t1);
    }
}

/// A question to the client on a named channel.
#[derive(Debug, Clone, PartialEq)]
pub struct LoginPluginRequestSpec {
    pub message_id: VarInt,
    pub channel: String,
    pub data: RemainingBytes,
}

/// The mathematical content of a [`LoginPluginRequestSpec`].
pub struct LoginPluginRequestSpecView {
    pub message_id: VarInt,
    pub channel: Seq<char>,
    pub data: Seq<u8>,
}

impl DeepView for LoginPluginRequestSpec {
    type V = LoginPluginRequestSpecView;

    open spec fn deep_view(&self) -> LoginPluginRequestSpecView {
        LoginPluginRequestSpecView {
            message_id: self.message_id.deep_view(),
            channel: self.channel.deep_view(),
            data: self.data.deep_view(),
        }
    }
}

impl Serialize for LoginPluginRequestSpec {
    open spec fn serializable(v: LoginPluginRequestSpecView) -> bool {
        VarInt::serializable(v.message_id) && String::serializable(v.channel) && RemainingBytes::serializable(v.data)
    }

    #[verifier::opaque]
    open spec fn encode(v: LoginPluginRequestSpecView) -> Seq<u8> {
        VarInt::encode(v.message_id) + String::encode(v.channel) + RemainingBytes::encode(v.data)
    }

    fn mc_serialize<S: Serializer>(&self, to: &mut S) -> (r: SerializeResult) {
        proof {
            reveal(<LoginPluginRequestSpec as Serialize>::encode);
        }
        self.message_id.mc_serialize(to)?;
        self.channel.mc_serialize(to)?;
        self.data.mc_serialize(to)?;
        proof {
            let v = self.deep_view();
            let w = old(to).written();
            let e0 = VarInt::encode(v.message_id);
            let e1 = String::encode(v.channel);
            let e2 = RemainingBytes::encode(v.data);
            let l0 = e0;
            let l1 = l0 + e1;
            let l2 = l1 + e2;
            lemma_concat_assoc(w, l0, e1);
            lemma_concat_assoc(w, l1, e2);
        }
        Ok(())
    }
}

impl Deserialize for LoginPluginRequestSpec {
    #[verifier::opaque]
    open spec fn decode(data: Seq<u8>) -> Decoded<LoginPluginRequestSpecView> {
        match VarInt::decode(data) {
            Err(e) => Err(e),
            Ok((message_id, n0)) => {
                match String::decode(data.skip((n0) as int)) {
                    Err(e) => Err(e),
                    Ok((channel, n1)) => {
                        match RemainingBytes::decode(data.skip((n0 + n1) as int)) {
                            Err(e) => Err(e),
                            Ok((data, n2)) => Ok((LoginPluginRequestSpecView { message_id, channel, data }, n0 + n1 + n2)),
                        }
                    },
                }
            },
        }
    }

    fn mc_deserialize(data: &[u8]) -> (r: DeserializeResult<'_, LoginPluginRequestSpec>) {
        proof {
            reveal(<LoginPluginRequestSpec as Deserialize>::decode);
        }
        let ghost whole = data@;
        let Deserialized { value: message_id, data: rest0 } = VarInt::mc_deserialize(data)?;
        let Deserialized { value: channel, data: rest1 } = String::mc_deserialize(rest0)?;
        proof {
            lemma_skip_skip(
                whole,
                whole.len() - rest0@.len(),
                rest0@.len() - rest1@.len(),
            );
        }
        let Deserialized { value: data, data: rest2 } = RemainingBytes::mc_deserialize(rest1)?;
        proof {
            lemma_skip_skip(
                whole,
                whole.len() - rest1@.len(),
                rest1@.len() - rest2@.len(),
            );
        }
        Ok(Deserialized { value: LoginPluginRequestSpec { message_id, channel, data }, data: rest2 })
    }
}

impl ProtocolType for LoginPluginRequestSpec {
    open spec fn faithful(v: LoginPluginRequestSpecView) -> bool {
        VarInt::faithful(v.message_id) && String::faithful(v.channel) && RemainingBytes::faithful(v.data)
    }

    open spec fn delimited() -> bool {
        RemainingBytes::delimited()
    }

    proof fn lemma_round_trip(v: LoginPluginRequestSpecView, rest: Seq<u8>) {
        reveal(<LoginPluginRequestSpec as Serialize>::encode);
        reveal(<LoginPluginRequestSpec as Deserialize>::decode);
        let e0 = VarInt::encode(v.message_id);
        let e1 = String::encode(v.channel);
        let e2 = RemainingBytes::encode(v.data);
        let data = Self::encode(v) + rest;
        let t3 = rest;
        let t2 = e2 + t3;
        let t1 = e1 + t2;
        let t0 = e0 + t1;
        let l0 = e0;
        let l1 = l0 + e1;
        let l2 = l1 + e2;
        lemma_concat_assoc(l1, e2, t3);
        lemma_concat_assoc(l0, e1, t2);
        assert(data == t0);
        VarInt::lemma_round_trip(v.message_id, t1);
        lemma_skip_concat(e0, t1);
        String::lemma_round_trip(v.channel, t2);
        lemma_skip_more(data, (e0.len()) as int, e1, t2);
        RemainingBytes::lemma_round_trip(v.data, t3);
        lemma_skip_more(data, (e0.len() + e1.len()) as int, e2, t3);
    }
}

/// The client starts the login under a name.
#[derive(Debug, Clone, PartialEq)]
pub struct LoginStartSpec {
    pub name: String,
}

/// The mathematical content of a [`LoginStartSpec`].
pub struct LoginStartSpecView {
    pub name: Seq<char>,
}

impl DeepView for LoginStartSpec {
    type V = LoginStartSpecView;

    open spec fn deep_view(&self) -> LoginStartSpecView {
        LoginStartSpecView {
            name: self.name.deep_view(),
        }
    }
}

impl Serialize for LoginStartSpec {
    open spec fn serializable(v: LoginStartSpecView) -> bool {
        String::serializable(v.name)
    }

    #[verifier::opaque]
    open spec fn encode(v: LoginStartSpecView) -> Seq<u8> {
        String::encode(v.name)
    }

    fn mc_serialize<S: Serializer>(&self, to: &mut S) -> (r: SerializeResult) {
        proof {
            reveal(<LoginStartSpec as Serialize>::encode);
        }
        self.name.mc_serialize(to)?;
        proof {
            assert(to.written() =~= old(to).written() + Self::encode(self.deep_view()));
        }
        Ok(())
    }
}

impl Deserialize for LoginStartSpec {
    #[verifier::opaque]
    open spec fn decode(data: Seq<u8>) -> Decoded<LoginStartSpecView> {
        match String::decode(data) {
            Err(e) => Err(e),
            Ok((name, n0)) => Ok((LoginStartSpecView { name }, n0)),
        }
    }

    fn mc_deserialize(data: &[u8]) -> (r: DeserializeResult<'_, LoginStartSpec>) {
        proof {
            reveal(<LoginStartSpec as Deserialize>::decode);
        }
        let Deserialized { value: name, data: rest0 } = String::mc_deserialize(data)?;
        Ok(Deserialized { value: LoginStartSpec { name }, data: rest0 })
    }
}

impl ProtocolType for LoginStartSpec {
    open spec fn faithful(v: LoginStartSpecView) -> bool {
        String::faithful(v.name)
    }

    open spec fn delimited() -> bool {
        String::delimited()
    }

    proof fn lemma_round_trip(v: LoginStartSpecView, rest: Seq<u8>) {
        reveal(<LoginStartSpec as Serialize>::encode);
        reveal(<LoginStartSpec as Deserialize>::decode);
        let e0 = String::encode(v.name);
        let data = Self::encode(v) + rest;
        let t1 = rest;
        let t0 = e0 + t1;
        String::lemma_round_trip(v.name, t1);
        lemma_skip_concat(e0, t1);
    }
}

/// The client's answer to the encryption request.
#[derive(Debug, Clone, PartialEq)]
pub struct LoginEncryptionResponseSpec {
    pub shared_secret: CountedArray<u8, VarInt>,
    pub verify_token: CountedArray<u8, VarInt>,
}

/// The mathematical content of a [`LoginEncryptionResponseSpec`].
pub struct LoginEncryptionResponseSpecView {
    pub shared_secret: Seq<u8>,
    pub verify_token: Seq<u8>,
}

impl DeepView for LoginEncryptionResponseSpec {
    type V = LoginEncryptionResponseSpecView;

    open spec fn deep_view(&self) -> LoginEncryptionResponseSpecView {
        LoginEncryptionResponseSpecView {
            shared_secret: self.shared_secret.deep_view(),
            verify_token: self.verify_token.deep_view(),
        }
    }
}

impl Serialize for LoginEncryptionResponseSpec {
    open spec fn serializable(v: LoginEncryptionResponseSpecView) -> bool {
        <CountedArray<u8, VarInt>>::serializable(v.shared_secret) && <CountedArray<u8, VarInt>>::serializable(v.verify_token)
    }

    #[verifier::opaque]
    open spec fn encode(v: LoginEncryptionResponseSpecView) -> Seq<u8> {
        <CountedArray<u8, VarInt>>::encode(v.shared_secret) + <CountedArray<u8, VarInt>>::encode(v.verify_token)
    }

    fn mc_serialize<S: Serializer>(&self, to: &mut S) -> (r: SerializeResult) {
        proof {
            reveal(<LoginEncryptionResponseSpec as Serialize>::encode);
        }
        self.shared_secret.mc_serialize(to)?;
        self.verify_token.mc_serialize(to)?;
        proof {
            assert(to.written() =~= old(to).written() + Self::encode(self.deep_view()));
        }
        Ok(())
    }
}

impl Deserialize for LoginEncryptionResponseSpec {
    #[verifier::opaque]
    open spec fn decode(data: Seq<u8>) -> Decoded<LoginEncryptionResponseSpecView> {
        match <CountedArray<u8, VarInt>>::decode(data) {
            Err(e) => Err(e),
            Ok((shared_secret, n0)) => {
                match <CountedArray<u8, VarInt>>::decode(data.skip((n0) as int)) {
                    Err(e) => Err(e),
                    Ok((verify_token, n1)) => Ok((LoginEncryptionResponseSpecView { shared_secret, verify_token }, n0 + n1)),
                }
            },
        }
    }

    fn mc_deserialize(data: &[u8]) -> (r: DeserializeResult<'_, LoginEncryptionResponseSpec>) {
        proof {
            reveal(<LoginEncryptionResponseSpec as Deserialize>::decode);
        }
        let ghost whole = data@;
        let Deserialized { value: shared_secret, data: rest0 } = <CountedArray<u8, VarInt>>::mc_deserialize(data)?;
        let Deserialized { value: verify_token, data: rest1 } = <CountedArray<u8, VarInt>>::mc_deserialize(rest0)?;
        proof {
            lemma_skip_skip(
                whole,
                whole.len() - rest0@.len(),
                rest0@.len() - rest1@.len(),
            );
        }
        Ok(Deserialized { value: LoginEncryptionResponseSpec { shared_secret, verify_token }, data: rest1 })
    }
}

impl ProtocolType for LoginEncryptionResponseSpec {
    open spec fn faithful(v: LoginEncryptionResponseSpecView) -> bool {
        <CountedArray<u8, VarInt>>::faithful(v.shared_secret) && <CountedArray<u8, VarInt>>::faithful(v.verify_token)
    }

    open spec fn delimited() -> bool {
        <CountedArray<u8, VarInt>>::delimited()
    }

    proof fn lemma_round_trip(v: LoginEncryptionResponseSpecView, rest: Seq<u8>) {
        reveal(<LoginEncryptionResponseSpec as Serialize>::encode);
        reveal(<LoginEncryptionResponseSpec as Deserialize>::decode);
        let e0 = <CountedArray<u8, VarInt>>::encode(v.shared_secret);
        let e1 = <CountedArray<u8, VarInt>>::encode(v.verify_token);
        let data = Self::encode(v) + rest;
        let t2 = rest;
        let t1 = e1 + t2;
        let t0 = e0 + t1;
        let l0 = e0;
        let l1 = l0 + e1;
        lemma_concat_assoc(l0, e1, t2);
        assert(data == t0);
        <CountedArray<u8, VarInt>>::lemma_round_trip(v.shared_secret, t1);
        lemma_skip_concat(e0, t1);
        <CountedArray<u8, VarInt>>::lemma_round_trip(v.verify_token, t2);
        lemma_skip_more(data, (e0.len()) as int, e1, t2);
    }
}

/// The client's answer on a named channel.
#[derive(Debug, Clone, PartialEq)]
pub struct LoginPluginResponseSpec {
    pub message_id: VarInt,
    pub successful: bool,
    pub data: RemainingBytes,
}

/// The mathematical content of a [`LoginPluginResponseSpec`].
pub struct LoginPluginResponseSpecView {
    pub message_id: VarInt,
    pub successful: bool,
    pub data: Seq<u8>,
}

impl DeepView for LoginPluginResponseSpec {
    type V = LoginPluginResponseSpecView;

    open spec fn deep_view(&self) -> LoginPluginResponseSpecView {
        LoginPluginResponseSpecView {
            message_id: self.message_id.deep_view(),
            successful: self.successful.deep_view(),
            data: self.data.deep_view(),
        }
    }
}

impl Serialize for LoginPluginResponseSpec {
    open spec fn serializable(v: LoginPluginResponseSpecView) -> bool {
        VarInt::serializable(v.message_id) && bool::serializable(v.successful) && RemainingBytes::serializable(v.data)
    }

    #[verifier::opaque]
    open spec fn encode(v: LoginPluginResponseSpecView) -> Seq<u8> {
        VarInt::encode(v.message_id) + bool::encode(v.successful) + RemainingBytes::encode(v.data)
    }

    fn mc_serialize<S: Serializer>(&self, to: &mut S) -> (r: SerializeResult) {
        proof {
            reveal(<LoginPluginResponseSpec as Serialize>::encode);
        }
        self.message_id.mc_serialize(to)?;
        self.successful.mc_serialize(to)?;
        self.data.mc_serialize(to)?;
        proof {
            let v = self.deep_view();
            let w = old(to).written();
            let e0 = VarInt::encode(v.message_id);
            let e1 = bool::encode(v.successful);
            let e2 = RemainingBytes::encode(v.data);
            let l0 = e0;
            let l1 = l0 + e1;
            let l2 = l1 + e2;
            lemma_concat_assoc(w, l0, e1);
            lemma_concat_assoc(w, l1, e2);
        }
        Ok(())
    }
}

impl Deserialize for LoginPluginResponseSpec {
    #[verifier::opaque]
    open spec fn decode(data: Seq<u8>) -> Decoded<LoginPluginResponseSpecView> {
        match VarInt::decode(data) {
            Err(e) => Err(e),
            Ok((message_id, n0)) => {
                match bool::decode(data.skip((n0) as int)) {
                    Err(e) => Err(e),
                    Ok((successful, n1)) => {
                        match RemainingBytes::decode(data.skip((n0 + n1) as int)) {
                            Err(e) => Err(e),
                            Ok((data, n2)) => Ok((LoginPluginResponseSpecView { message_id, successful, data }, n0 + n1 + n2)),
                        }
                    },
                }
            },
        }
    }

    fn mc_deserialize(data: &[u8]) -> (r: DeserializeResult<'_, LoginPluginResponseSpec>) {
        proof {
            reveal(<LoginPluginResponseSpec as Deserialize>::decode);
        }
        let ghost whole = data@;
        let Deserialized { value: message_id, data: rest0 } = VarInt::mc_deserialize(data)?;
        let Deserialized { value: successful, data: rest1 } = bool::mc_deserialize(rest0)?;
        proof {
            lemma_skip_skip(
                whole,
                whole.len() - rest0@.len(),
                rest0@.len() - rest1@.len(),
            );
        }
        let Deserialized { value: data, data: rest2 } = RemainingBytes::mc_deserialize(rest1)?;
        proof {
            lemma_skip_skip(
                whole,
                whole.len() - rest1@.len(),
                rest1@.len() - rest2@.len(),
            );
        }
        Ok(Deserialized { value: LoginPluginResponseSpec { message_id, successful, data }, data: rest2 })
    }
}

impl ProtocolType for LoginPluginResponseSpec {
    open spec fn faithful(v: LoginPluginResponseSpecView) -> bool {
        VarInt::faithful(v.message_id) && bool::faithful(v.successful) && RemainingBytes::faithful(v.data)
    }

    open spec fn delimited() -> bool {
        RemainingBytes::delimited()
    }

    proof fn lemma_round_trip(v: LoginPluginResponseSpecView, rest: Seq<u8>) {
        reveal(<LoginPluginResponseSpec as Serialize>::encode);
        reveal(<LoginPluginResponseSpec as Deserialize>::decode);
        let e0 = VarInt::encode(v.message_id);
        let e1 = bool::encode(v.successful);
        let e2 = RemainingBytes::encode(v.data);
        let data = Self::encode(v) + rest;
        let t3 = rest;
        let t2 = e2 + t3;
        let t1 = e1 + t2;
        let t0 = e0 + t1;
        let l0 = e0;
        let l1 = l0 + e1;
        let l2 = l1 + e2;
        lemma_concat_assoc(l1, e2, t3);
        lemma_concat_assoc(l0, e1, t2);
        assert(data == t0);
        VarInt::lemma_round_trip(v.message_id, t1);
        lemma_skip_concat(e0, t1);
        bool::lemma_round_trip(v.successful, t2);
        lemma_skip_more(data, (e0.len()) as int, e1, t2);
        RemainingBytes::lemma_round_trip(v.data, t3);
        lemma_skip_more(data, (e0.len() + e1.len()) as int, e2, t3);
    }
}

/// The stage that a handshake asks for.
#[derive(PartialEq, Eq, Structural, Clone, Copy, Debug)]
pub enum HandshakeNextState {
    Status,
    Login,
}

impl View for HandshakeNextState {
    type V = HandshakeNextState;

    open spec fn view(&self) -> HandshakeNextState {
        *self
    }
}

impl DeepView for HandshakeNextState {
    type V = HandshakeNextState;

    open spec fn deep_view(&self) -> HandshakeNextState {
        *self
    }
}

impl HandshakeNextState {
    pub fn variant_count() -> (r: usize)
        ensures
            r == 2,
    {
        2
    }

    /// The number that stands for the variant on the wire.
    pub open spec fn id_of(v: HandshakeNextState) -> u8 {
        match v {
            HandshakeNextState::Status => 0x01,
            HandshakeNextState::Login => 0x02,
        }
    }

    pub fn id(&self) -> (r: u8)
        ensures
            r == Self::id_of(self.deep_view()),
    {
        match self {
            HandshakeNextState::Status => 0x01,
            HandshakeNextState::Login => 0x02,
        }
    }

    pub open spec fn name_of(v: HandshakeNextState) -> Seq<char> {
        match v {
            HandshakeNextState::Status => "Status"@,
            HandshakeNextState::Login => "Login"@,
        }
    }

    pub fn name(&self) -> (r: &'static str)
        ensures
            r@ == Self::name_of(self.deep_view()),
    {
        match self {
            HandshakeNextState::Status => "Status",
            HandshakeNextState::Login => "Login",
        }
    }

    /// The bytes that follow the number.
    pub open spec fn body_of(v: HandshakeNextState) -> Seq<u8> {
        match v {
            HandshakeNextState::Status => Seq::empty(),
            HandshakeNextState::Login => Seq::empty(),
        }
    }

    /// Whether what follows the number can be written.
    pub open spec fn body_writable(v: HandshakeNextState) -> bool {
        match v {
            HandshakeNextState::Status => true,
            HandshakeNextState::Login => true,
        }
    }

    /// The variant that `id` stands for, with its body read from `data`.
    pub open spec fn decode_with_id(id: u8, data: Seq<u8>) -> Decoded<HandshakeNextState> {
        if id == 0x01 {
            Ok((HandshakeNextState::Status, 0))
        } else if id == 0x02 {
            Ok((HandshakeNextState::Login, 0))
        } else {
            Err(DecodeFailure::CannotUnderstandValue)
        }
    }

    /// Whether `id` stands for a variant.
    pub open spec fn has_id(id: u8) -> bool {
        id == 0x01
            || id == 0x02
    }

    /// Picks the variant for `id` and reads its body from `data`. A number
    /// that stands for no variant is refused, and the error says which.
    pub fn deserialize_with_id<'a>(id: u8, data: &'a [u8]) -> (r: DeserializeResult<'a, Self>)
        ensures
            agrees(r, data@, Self::decode_with_id(id, data@)),
            !Self::has_id(id) ==> (r matches Err(DeserializeErr::CannotUnderstandValue(m))
                && m@ == invalid_message("HandshakeNextState"@, id as nat)),
    {
        proof {
            assert(data@.skip(0) =~= data@);
        }
        match id {
            0x01 => Ok(Deserialized { value: HandshakeNextState::Status, data }),
            0x02 => Ok(Deserialized { value: HandshakeNextState::Login, data }),
            other => Err(DeserializeErr::CannotUnderstandValue(invalid_value_message("HandshakeNextState", other as u64))),
        }
    }

    /// Writes what follows the number.
    pub fn serialize_body<S: Serializer>(&self, to: &mut S) -> (r: SerializeResult)
        ensures
            r is Ok ==> Self::body_writable(self.deep_view()) && final(to).written() == old(
                to,
            ).written() + Self::body_of(self.deep_view()),
            old(to).infallible() ==> final(to).infallible(),
            old(to).infallible() ==> (r is Ok <==> Self::body_writable(self.deep_view())),
            old(to).infallible() && r is Err ==> (r matches Err(SerializeErr::CannotSerialize(_))),
    {
        match self {
            HandshakeNextState::Status => {
                proof {
                    assert(old(to).written() + Seq::<u8>::empty() =~= old(to).written());
                }
                Ok(())
            },
            HandshakeNextState::Login => {
                proof {
                    assert(old(to).written() + Seq::<u8>::empty() =~= old(to).written());
                }
                Ok(())
            },
        }
    }
}

impl Serialize for HandshakeNextState {
    open spec fn serializable(v: HandshakeNextState) -> bool {
        Self::body_writable(v)
    }

    #[verifier::opaque]
    open spec fn encode(v: HandshakeNextState) -> Seq<u8> {
        <u8>::encode(Self::id_of(v)) + Self::body_of(v)
    }

    fn mc_serialize<S: Serializer>(&self, to: &mut S) -> (r: SerializeResult) {
        proof {
            reveal(<HandshakeNextState as Serialize>::encode);
        }
        let id_to_serialize: u8 = self.id();
        id_to_serialize.mc_serialize(to)?;
        let r = self.serialize_body(to);
        proof {
            let head = <u8>::encode(Self::id_of(self.deep_view()));
            let body = Self::body_of(self.deep_view());
            lemma_concat_assoc(old(to).written(), head, body);
        }
        r
    }
}

impl Deserialize for HandshakeNextState {
    #[verifier::opaque]
    open spec fn decode(data: Seq<u8>) -> Decoded<HandshakeNextState> {
        match <u8>::decode(data) {
            Err(e) => Err(e),
            Ok((id, n)) => match Self::decode_with_id(id, data.skip(n as int)) {
                Ok((v, m)) => Ok((v, n + m)),
                Err(e) => Err(e),
            },
        }
    }

    fn mc_deserialize(data: &[u8]) -> (r: DeserializeResult<'_, HandshakeNextState>) {
        proof {
            reveal(<HandshakeNextState as Deserialize>::decode);
        }
        let Deserialized { value: id, data: rest } = <u8>::mc_deserialize(data)?;
        let Deserialized { value, data: after } = Self::deserialize_with_id(id, rest)?;
        proof {
            lemma_skip_skip(data@, data@.len() - rest@.len(), rest@.len() - after@.len());
        }
        Ok(Deserialized { value, data: after })
    }
}

impl ProtocolType for HandshakeNextState {
    open spec fn faithful(v: HandshakeNextState) -> bool {
        match v {
            HandshakeNextState::Status => true,
            HandshakeNextState::Login => true,
        }
    }

    open spec fn delimited() -> bool {
        true
    }

    proof fn lemma_round_trip(v: HandshakeNextState, rest: Seq<u8>) {
        reveal(<HandshakeNextState as Serialize>::encode);
        reveal(<HandshakeNextState as Deserialize>::decode);
        let head = <u8>::encode(Self::id_of(v));
        let body = Self::body_of(v);
        <u8>::lemma_round_trip(Self::id_of(v), body + rest);
        Self::lemma_body_round_trip(v, rest);
        lemma_concat_assoc(head, body, rest);
        lemma_skip_concat(head, body + rest);
    }
}

impl HandshakeNextState {
    /// What follows the number, written out and followed by anything, reads
    /// back under that number.
    pub proof fn lemma_body_round_trip(v: HandshakeNextState, rest: Seq<u8>)
        requires
            <Self as ProtocolType>::faithful(v),
            <Self as ProtocolType>::delimited() || rest.len() == 0,
        ensures
            Self::body_writable(v),
            Self::decode_with_id(Self::id_of(v), Self::body_of(v) + rest) == Ok::<_, DecodeFailure>(
                (v, Self::body_of(v).len()),
            ),
    {
        match v {
            HandshakeNextState::Status => {
                assert(Seq::<u8>::empty() + rest =~= rest);
            },
            HandshakeNextState::Login => {
                assert(Seq::<u8>::empty() + rest =~= rest);
            },
        }
    }
}

pub use crate::v1_16_3::BlockChangeHorizontalPosition;

} // verus!
