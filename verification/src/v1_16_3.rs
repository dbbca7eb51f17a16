use crate::deserialize::{
    agrees, DecodeFailure, Decoded, Deserialize, DeserializeErr, DeserializeResult, Deserialized,
};
use crate::protocol::{
    deserialize_body, described_id, invalid_int_message, invalid_int_text, invalid_message,
    invalid_value_message, lemma_described_id,
    lemma_whole_body_round_trip, packet_id, whole_body, yields, Id, Packet, PacketErr,
    PacketFailure, PacketRow, ProtocolPacketField, ProtocolPacketSpec, ProtocolSpec, RawPacket,
    row_of,
};
pub use crate::protocol::{PacketDirection, State};
use crate::serialize::{Serialize, SerializeErr, SerializeResult, Serializer};
use crate::types::{
    lemma_concat_assoc, lemma_skip_concat, lemma_skip_more, lemma_skip_skip, CountedArray,
    ProtocolType, VarInt,
};
pub use crate::types::RemainingBytes;
use crate::uuid::UUID4;
use crate::byte_order::{be_bytes, be_value, lemma_pattern_i32, lemma_radix_values};
use crate::protocol::{invalid_ident_message, invalid_ident_text};
use crate::byte_order::{lemma_pattern_i64, lemma_signed_unsigned, to_signed, to_unsigned};
use crate::types::{
    all_faithful, all_serializable, decode_n, deserialize_vec_directly, encode_all,
    lemma_all_serializable, lemma_decode_n_encode_all, serialize_vec_directly, ArrayCounter,
    VarLong,
};
use crate::utils::{decimal, decimal_text, same_text, signed_decimal, signed_decimal_text};
use crate::uuid::{uuid_of_text, uuid_text};
use vstd::utf8::encode_utf8;
use crate::types::{
    after, lemma_fixed_round_trip, ChunkPosition, IntPosition, ItemStack, ItemStackView,
    Angle, EntityLocation, EntityRotation, FixedInt, NamedNbtTag, Slot, TopDownPosition, Vec2,
    Vec3,
};
use vstd::prelude::*;

verus! {

/// The packets of protocol version 753, for the stages before play.
#[derive(Debug, PartialEq, Clone)]
pub enum Packet753 {
    Handshake(HandshakeSpec),
    StatusRequest(StatusRequestSpec),
    StatusPing(StatusPingSpec),
    StatusResponse(StatusResponseSpec),
    StatusPong(StatusPongSpec),
    LoginDisconnect(LoginDisconnectSpec),
    LoginEncryptionRequest(LoginEncryptionRequestSpec),
    LoginSuccess(LoginSuccessSpec),
    LoginSetCompression(LoginSetCompressionSpec),
    LoginPluginRequest(LoginPluginRequestSpec),
    LoginStart(LoginStartSpec),
    LoginEncryptionResponse(LoginEncryptionResponseSpec),
    LoginPluginResponse(LoginPluginResponseSpec),
}

/// The mathematical content of a [`Packet753`].
pub enum Packet753View {
    Handshake(<HandshakeSpec as DeepView>::V),
    StatusRequest(<StatusRequestSpec as DeepView>::V),
    StatusPing(<StatusPingSpec as DeepView>::V),
    StatusResponse(<StatusResponseSpec as DeepView>::V),
    StatusPong(<StatusPongSpec as DeepView>::V),
    LoginDisconnect(<LoginDisconnectSpec as DeepView>::V),
    LoginEncryptionRequest(<LoginEncryptionRequestSpec as DeepView>::V),
    LoginSuccess(<LoginSuccessSpec as DeepView>::V),
    LoginSetCompression(<LoginSetCompressionSpec as DeepView>::V),
    LoginPluginRequest(<LoginPluginRequestSpec as DeepView>::V),
    LoginStart(<LoginStartSpec as DeepView>::V),
    LoginEncryptionResponse(<LoginEncryptionResponseSpec as DeepView>::V),
    LoginPluginResponse(<LoginPluginResponseSpec as DeepView>::V),
}

impl DeepView for Packet753 {
    type V = Packet753View;

    open spec fn deep_view(&self) -> Packet753View {
        match self {
            Packet753::Handshake(body) => Packet753View::Handshake(body.deep_view()),
            Packet753::StatusRequest(body) => Packet753View::StatusRequest(body.deep_view()),
            Packet753::StatusPing(body) => Packet753View::StatusPing(body.deep_view()),
            Packet753::StatusResponse(body) => Packet753View::StatusResponse(body.deep_view()),
            Packet753::StatusPong(body) => Packet753View::StatusPong(body.deep_view()),
            Packet753::LoginDisconnect(body) => Packet753View::LoginDisconnect(body.deep_view()),
            Packet753::LoginEncryptionRequest(body) => Packet753View::LoginEncryptionRequest(body.deep_view()),
            Packet753::LoginSuccess(body) => Packet753View::LoginSuccess(body.deep_view()),
            Packet753::LoginSetCompression(body) => Packet753View::LoginSetCompression(body.deep_view()),
            Packet753::LoginPluginRequest(body) => Packet753View::LoginPluginRequest(body.deep_view()),
            Packet753::LoginStart(body) => Packet753View::LoginStart(body.deep_view()),
            Packet753::LoginEncryptionResponse(body) => Packet753View::LoginEncryptionResponse(body.deep_view()),
            Packet753::LoginPluginResponse(body) => Packet753View::LoginPluginResponse(body.deep_view()),
        }
    }
}

impl Packet for Packet753 {
    open spec fn id_of(v: Packet753View) -> Id {
        match v {
            Packet753View::Handshake(_) => packet_id(0x00, State::Handshaking, PacketDirection::ServerBound),
            Packet753View::StatusRequest(_) => packet_id(0x00, State::Status, PacketDirection::ServerBound),
            Packet753View::StatusPing(_) => packet_id(0x01, State::Status, PacketDirection::ServerBound),
            Packet753View::StatusResponse(_) => packet_id(0x00, State::Status, PacketDirection::ClientBound),
            Packet753View::StatusPong(_) => packet_id(0x01, State::Status, PacketDirection::ClientBound),
            Packet753View::LoginDisconnect(_) => packet_id(0x00, State::Login, PacketDirection::ClientBound),
            Packet753View::LoginEncryptionRequest(_) => packet_id(0x01, State::Login, PacketDirection::ClientBound),
            Packet753View::LoginSuccess(_) => packet_id(0x02, State::Login, PacketDirection::ClientBound),
            Packet753View::LoginSetCompression(_) => packet_id(0x03, State::Login, PacketDirection::ClientBound),
            Packet753View::LoginPluginRequest(_) => packet_id(0x04, State::Login, PacketDirection::ClientBound),
            Packet753View::LoginStart(_) => packet_id(0x00, State::Login, PacketDirection::ServerBound),
            Packet753View::LoginEncryptionResponse(_) => packet_id(0x01, State::Login, PacketDirection::ServerBound),
            Packet753View::LoginPluginResponse(_) => packet_id(0x02, State::Login, PacketDirection::ServerBound),
        }
    }

    open spec fn body_of(v: Packet753View) -> Seq<u8> {
        match v {
            Packet753View::Handshake(body) => HandshakeSpec::encode(body),
            Packet753View::StatusRequest(body) => StatusRequestSpec::encode(body),
            Packet753View::StatusPing(body) => StatusPingSpec::encode(body),
            Packet753View::StatusResponse(body) => StatusResponseSpec::encode(body),
            Packet753View::StatusPong(body) => StatusPongSpec::encode(body),
            Packet753View::LoginDisconnect(body) => LoginDisconnectSpec::encode(body),
            Packet753View::LoginEncryptionRequest(body) => LoginEncryptionRequestSpec::encode(body),
            Packet753View::LoginSuccess(body) => LoginSuccessSpec::encode(body),
            Packet753View::LoginSetCompression(body) => LoginSetCompressionSpec::encode(body),
            Packet753View::LoginPluginRequest(body) => LoginPluginRequestSpec::encode(body),
            Packet753View::LoginStart(body) => LoginStartSpec::encode(body),
            Packet753View::LoginEncryptionResponse(body) => LoginEncryptionResponseSpec::encode(body),
            Packet753View::LoginPluginResponse(body) => LoginPluginResponseSpec::encode(body),
        }
    }

    open spec fn writable(v: Packet753View) -> bool {
        match v {
            Packet753View::Handshake(body) => HandshakeSpec::serializable(body),
            Packet753View::StatusRequest(body) => StatusRequestSpec::serializable(body),
            Packet753View::StatusPing(body) => StatusPingSpec::serializable(body),
            Packet753View::StatusResponse(body) => StatusResponseSpec::serializable(body),
            Packet753View::StatusPong(body) => StatusPongSpec::serializable(body),
            Packet753View::LoginDisconnect(body) => LoginDisconnectSpec::serializable(body),
            Packet753View::LoginEncryptionRequest(body) => LoginEncryptionRequestSpec::serializable(body),
            Packet753View::LoginSuccess(body) => LoginSuccessSpec::serializable(body),
            Packet753View::LoginSetCompression(body) => LoginSetCompressionSpec::serializable(body),
            Packet753View::LoginPluginRequest(body) => LoginPluginRequestSpec::serializable(body),
            Packet753View::LoginStart(body) => LoginStartSpec::serializable(body),
            Packet753View::LoginEncryptionResponse(body) => LoginEncryptionResponseSpec::serializable(body),
            Packet753View::LoginPluginResponse(body) => LoginPluginResponseSpec::serializable(body),
        }
    }

    open spec fn known(id: Id) -> bool {
        id == packet_id(0x00, State::Handshaking, PacketDirection::ServerBound)
            || id == packet_id(0x00, State::Status, PacketDirection::ServerBound)
            || id == packet_id(0x01, State::Status, PacketDirection::ServerBound)
            || id == packet_id(0x00, State::Status, PacketDirection::ClientBound)
            || id == packet_id(0x01, State::Status, PacketDirection::ClientBound)
            || id == packet_id(0x00, State::Login, PacketDirection::ClientBound)
            || id == packet_id(0x01, State::Login, PacketDirection::ClientBound)
            || id == packet_id(0x02, State::Login, PacketDirection::ClientBound)
            || id == packet_id(0x03, State::Login, PacketDirection::ClientBound)
            || id == packet_id(0x04, State::Login, PacketDirection::ClientBound)
            || id == packet_id(0x00, State::Login, PacketDirection::ServerBound)
            || id == packet_id(0x01, State::Login, PacketDirection::ServerBound)
            || id == packet_id(0x02, State::Login, PacketDirection::ServerBound)
    }

    open spec fn layout(id: Id, data: Seq<u8>) -> Result<Packet753View, PacketFailure> {
        if id == packet_id(0x00, State::Handshaking, PacketDirection::ServerBound) {
            match whole_body::<HandshakeSpec>(data) {
                Ok(body) => Ok(Packet753View::Handshake(body)),
                Err(e) => Err(e),
            }
        } else if id == packet_id(0x00, State::Status, PacketDirection::ServerBound) {
            match whole_body::<StatusRequestSpec>(data) {
                Ok(body) => Ok(Packet753View::StatusRequest(body)),
                Err(e) => Err(e),
            }
        } else if id == packet_id(0x01, State::Status, PacketDirection::ServerBound) {
            match whole_body::<StatusPingSpec>(data) {
                Ok(body) => Ok(Packet753View::StatusPing(body)),
                Err(e) => Err(e),
            }
        } else if id == packet_id(0x00, State::Status, PacketDirection::ClientBound) {
            match whole_body::<StatusResponseSpec>(data) {
                Ok(body) => Ok(Packet753View::StatusResponse(body)),
                Err(e) => Err(e),
            }
        } else if id == packet_id(0x01, State::Status, PacketDirection::ClientBound) {
            match whole_body::<StatusPongSpec>(data) {
                Ok(body) => Ok(Packet753View::StatusPong(body)),
                Err(e) => Err(e),
            }
        } else if id == packet_id(0x00, State::Login, PacketDirection::ClientBound) {
            match whole_body::<LoginDisconnectSpec>(data) {
                Ok(body) => Ok(Packet753View::LoginDisconnect(body)),
                Err(e) => Err(e),
            }
        } else if id == packet_id(0x01, State::Login, PacketDirection::ClientBound) {
            match whole_body::<LoginEncryptionRequestSpec>(data) {
                Ok(body) => Ok(Packet753View::LoginEncryptionRequest(body)),
                Err(e) => Err(e),
            }
        } else if id == packet_id(0x02, State::Login, PacketDirection::ClientBound) {
            match whole_body::<LoginSuccessSpec>(data) {
                Ok(body) => Ok(Packet753View::LoginSuccess(body)),
                Err(e) => Err(e),
            }
        } else if id == packet_id(0x03, State::Login, PacketDirection::ClientBound) {
            match whole_body::<LoginSetCompressionSpec>(data) {
                Ok(body) => Ok(Packet753View::LoginSetCompression(body)),
                Err(e) => Err(e),
            }
        } else if id == packet_id(0x04, State::Login, PacketDirection::ClientBound) {
            match whole_body::<LoginPluginRequestSpec>(data) {
                Ok(body) => Ok(Packet753View::LoginPluginRequest(body)),
                Err(e) => Err(e),
            }
        } else if id == packet_id(0x00, State::Login, PacketDirection::ServerBound) {
            match whole_body::<LoginStartSpec>(data) {
                Ok(body) => Ok(Packet753View::LoginStart(body)),
                Err(e) => Err(e),
            }
        } else if id == packet_id(0x01, State::Login, PacketDirection::ServerBound) {
            match whole_body::<LoginEncryptionResponseSpec>(data) {
                Ok(body) => Ok(Packet753View::LoginEncryptionResponse(body)),
                Err(e) => Err(e),
            }
        } else {
            match whole_body::<LoginPluginResponseSpec>(data) {
                Ok(body) => Ok(Packet753View::LoginPluginResponse(body)),
                Err(e) => Err(e),
            }
        }
    }

    fn id(&self) -> (r: Id) {
        match self {
            Packet753::Handshake(_) => Id { id: 0x00, state: State::Handshaking, direction: PacketDirection::ServerBound },
            Packet753::StatusRequest(_) => Id { id: 0x00, state: State::Status, direction: PacketDirection::ServerBound },
            Packet753::StatusPing(_) => Id { id: 0x01, state: State::Status, direction: PacketDirection::ServerBound },
            Packet753::StatusResponse(_) => Id { id: 0x00, state: State::Status, direction: PacketDirection::ClientBound },
            Packet753::StatusPong(_) => Id { id: 0x01, state: State::Status, direction: PacketDirection::ClientBound },
            Packet753::LoginDisconnect(_) => Id { id: 0x00, state: State::Login, direction: PacketDirection::ClientBound },
            Packet753::LoginEncryptionRequest(_) => Id { id: 0x01, state: State::Login, direction: PacketDirection::ClientBound },
            Packet753::LoginSuccess(_) => Id { id: 0x02, state: State::Login, direction: PacketDirection::ClientBound },
            Packet753::LoginSetCompression(_) => Id { id: 0x03, state: State::Login, direction: PacketDirection::ClientBound },
            Packet753::LoginPluginRequest(_) => Id { id: 0x04, state: State::Login, direction: PacketDirection::ClientBound },
            Packet753::LoginStart(_) => Id { id: 0x00, state: State::Login, direction: PacketDirection::ServerBound },
            Packet753::LoginEncryptionResponse(_) => Id { id: 0x01, state: State::Login, direction: PacketDirection::ServerBound },
            Packet753::LoginPluginResponse(_) => Id { id: 0x02, state: State::Login, direction: PacketDirection::ServerBound },
        }
    }

    fn version() -> (r: VarInt)
        ensures
            r == VarInt(753),
    {
        VarInt(753)
    }

    fn mc_deserialize(raw: RawPacket<'_>) -> (r: Result<Self, PacketErr>) {
        let id = raw.id;
        let data = raw.data;
        match (id.id, id.state, id.direction) {
            (0x00, State::Handshaking, PacketDirection::ServerBound) => match deserialize_body::<HandshakeSpec>(data) {
                Ok(body) => Ok(Packet753::Handshake(body)),
                Err(e) => Err(e),
            },
            (0x00, State::Status, PacketDirection::ServerBound) => match deserialize_body::<StatusRequestSpec>(data) {
                Ok(body) => Ok(Packet753::StatusRequest(body)),
                Err(e) => Err(e),
            },
            (0x01, State::Status, PacketDirection::ServerBound) => match deserialize_body::<StatusPingSpec>(data) {
                Ok(body) => Ok(Packet753::StatusPing(body)),
                Err(e) => Err(e),
            },
            (0x00, State::Status, PacketDirection::ClientBound) => match deserialize_body::<StatusResponseSpec>(data) {
                Ok(body) => Ok(Packet753::StatusResponse(body)),
                Err(e) => Err(e),
            },
            (0x01, State::Status, PacketDirection::ClientBound) => match deserialize_body::<StatusPongSpec>(data) {
                Ok(body) => Ok(Packet753::StatusPong(body)),
                Err(e) => Err(e),
            },
            (0x00, State::Login, PacketDirection::ClientBound) => match deserialize_body::<LoginDisconnectSpec>(data) {
                Ok(body) => Ok(Packet753::LoginDisconnect(body)),
                Err(e) => Err(e),
            },
            (0x01, State::Login, PacketDirection::ClientBound) => match deserialize_body::<LoginEncryptionRequestSpec>(data) {
                Ok(body) => Ok(Packet753::LoginEncryptionRequest(body)),
                Err(e) => Err(e),
            },
            (0x02, State::Login, PacketDirection::ClientBound) => match deserialize_body::<LoginSuccessSpec>(data) {
                Ok(body) => Ok(Packet753::LoginSuccess(body)),
                Err(e) => Err(e),
            },
            (0x03, State::Login, PacketDirection::ClientBound) => match deserialize_body::<LoginSetCompressionSpec>(data) {
                Ok(body) => Ok(Packet753::LoginSetCompression(body)),
                Err(e) => Err(e),
            },
            (0x04, State::Login, PacketDirection::ClientBound) => match deserialize_body::<LoginPluginRequestSpec>(data) {
                Ok(body) => Ok(Packet753::LoginPluginRequest(body)),
                Err(e) => Err(e),
            },
            (0x00, State::Login, PacketDirection::ServerBound) => match deserialize_body::<LoginStartSpec>(data) {
                Ok(body) => Ok(Packet753::LoginStart(body)),
                Err(e) => Err(e),
            },
            (0x01, State::Login, PacketDirection::ServerBound) => match deserialize_body::<LoginEncryptionResponseSpec>(data) {
                Ok(body) => Ok(Packet753::LoginEncryptionResponse(body)),
                Err(e) => Err(e),
            },
            (0x02, State::Login, PacketDirection::ServerBound) => match deserialize_body::<LoginPluginResponseSpec>(data) {
                Ok(body) => Ok(Packet753::LoginPluginResponse(body)),
                Err(e) => Err(e),
            },
            _ => Err(PacketErr::UnknownId(id)),
        }
    }

    fn mc_serialize_body<S: Serializer>(&self, to: &mut S) -> (r: SerializeResult) {
        match self {
            Packet753::Handshake(body) => body.mc_serialize(to),
            Packet753::StatusRequest(body) => body.mc_serialize(to),
            Packet753::StatusPing(body) => body.mc_serialize(to),
            Packet753::StatusResponse(body) => body.mc_serialize(to),
            Packet753::StatusPong(body) => body.mc_serialize(to),
            Packet753::LoginDisconnect(body) => body.mc_serialize(to),
            Packet753::LoginEncryptionRequest(body) => body.mc_serialize(to),
            Packet753::LoginSuccess(body) => body.mc_serialize(to),
            Packet753::LoginSetCompression(body) => body.mc_serialize(to),
            Packet753::LoginPluginRequest(body) => body.mc_serialize(to),
            Packet753::LoginStart(body) => body.mc_serialize(to),
            Packet753::LoginEncryptionResponse(body) => body.mc_serialize(to),
            Packet753::LoginPluginResponse(body) => body.mc_serialize(to),
        }
    }
}

impl Packet753 {
    /// The table of this version: its packets in order, as the description
    /// lists them.
    pub open spec fn table() -> Seq<PacketRow> {
        seq![
            PacketRow {
                id: packet_id(0x00, State::Handshaking, PacketDirection::ServerBound),
                name: "Handshake"@,
                body_struct: "HandshakeSpec"@,
                fields: seq![("version"@, "VarInt"@), ("server_address"@, "String"@), ("server_port"@, "u16"@), ("next_state"@, "HandshakeNextState"@)],
            },
            PacketRow {
                id: packet_id(0x00, State::Status, PacketDirection::ServerBound),
                name: "StatusRequest"@,
                body_struct: "StatusRequestSpec"@,
                fields: Seq::empty(),
            },
            PacketRow {
                id: packet_id(0x01, State::Status, PacketDirection::ServerBound),
                name: "StatusPing"@,
                body_struct: "StatusPingSpec"@,
                fields: seq![("payload"@, "i64"@)],
            },
            PacketRow {
                id: packet_id(0x00, State::Status, PacketDirection::ClientBound),
                name: "StatusResponse"@,
                body_struct: "StatusResponseSpec"@,
                fields: seq![("response"@, "String"@)],
            },
            PacketRow {
                id: packet_id(0x01, State::Status, PacketDirection::ClientBound),
                name: "StatusPong"@,
                body_struct: "StatusPongSpec"@,
                fields: seq![("payload"@, "i64"@)],
            },
            PacketRow {
                id: packet_id(0x00, State::Login, PacketDirection::ClientBound),
                name: "LoginDisconnect"@,
                body_struct: "LoginDisconnectSpec"@,
                fields: seq![("message"@, "String"@)],
            },
            PacketRow {
                id: packet_id(0x01, State::Login, PacketDirection::ClientBound),
                name: "LoginEncryptionRequest"@,
                body_struct: "LoginEncryptionRequestSpec"@,
                fields: seq![("server_id"@, "String"@), ("public_key"@, "CountedArray<u8, VarInt>"@), ("verify_token"@, "CountedArray<u8, VarInt>"@)],
            },
            PacketRow {
                id: packet_id(0x02, State::Login, PacketDirection::ClientBound),
                name: "LoginSuccess"@,
                body_struct: "LoginSuccessSpec"@,
                fields: seq![("uuid"@, "UUID4"@), ("username"@, "String"@)],
            },
            PacketRow {
                id: packet_id(0x03, State::Login, PacketDirection::ClientBound),
                name: "LoginSetCompression"@,
                body_struct: "LoginSetCompressionSpec"@,
                fields: seq![("threshold"@, "VarInt"@)],
            },
            PacketRow {
                id: packet_id(0x04, State::Login, PacketDirection::ClientBound),
                name: "LoginPluginRequest"@,
                body_struct: "LoginPluginRequestSpec"@,
                fields: seq![("message_id"@, "VarInt"@), ("channel"@, "String"@), ("data"@, "RemainingBytes"@)],
            },
            PacketRow {
                id: packet_id(0x00, State::Login, PacketDirection::ServerBound),
                name: "LoginStart"@,
                body_struct: "LoginStartSpec"@,
                fields: seq![("name"@, "String"@)],
            },
            PacketRow {
                id: packet_id(0x01, State::Login, PacketDirection::ServerBound),
                name: "LoginEncryptionResponse"@,
                body_struct: "LoginEncryptionResponseSpec"@,
                fields: seq![("shared_secret"@, "CountedArray<u8, VarInt>"@), ("verify_token"@, "CountedArray<u8, VarInt>"@)],
            },
            PacketRow {
                id: packet_id(0x02, State::Login, PacketDirection::ServerBound),
                name: "LoginPluginResponse"@,
                body_struct: "LoginPluginResponseSpec"@,
                fields: seq![("message_id"@, "VarInt"@), ("successful"@, "bool"@), ("data"@, "RemainingBytes"@)],
            },
        ]
    }

    /// The packets of this version as plain data.
    pub fn describe() -> (r: ProtocolSpec)
        ensures
            r.name@ == "Packet753"@,
            r.packets@.len() == Self::table().len(),
            forall|i: int|
                0 <= i < r.packets@.len() ==> row_of(#[trigger] r.packets@[i]) == Self::table()[i],
    {
        let mut packets: Vec<ProtocolPacketSpec> = Vec::new();
        let mut fields: Vec<ProtocolPacketField> = Vec::new();
        fields.push(ProtocolPacketField { name: "version".to_owned(), kind: "VarInt".to_owned() });
        fields.push(ProtocolPacketField { name: "server_address".to_owned(), kind: "String".to_owned() });
        fields.push(ProtocolPacketField { name: "server_port".to_owned(), kind: "u16".to_owned() });
        fields.push(ProtocolPacketField { name: "next_state".to_owned(), kind: "HandshakeNextState".to_owned() });
        packets.push(
            ProtocolPacketSpec {
                state: State::Handshaking.name(),
                direction: PacketDirection::ServerBound.name(),
                id: 0x00,
                name: "Handshake".to_owned(),
                body_struct: "HandshakeSpec".to_owned(),
                fields,
            },
        );
        proof {
            lemma_described_id(packets@[0], 0x00, State::Handshaking, PacketDirection::ServerBound);
            assert(row_of(packets@[0]).fields =~= Self::table()[0].fields);
        }
        let mut fields: Vec<ProtocolPacketField> = Vec::new();
        packets.push(
            ProtocolPacketSpec {
                state: State::Status.name(),
                direction: PacketDirection::ServerBound.name(),
                id: 0x00,
                name: "StatusRequest".to_owned(),
                body_struct: "StatusRequestSpec".to_owned(),
                fields,
            },
        );
        proof {
            lemma_described_id(packets@[1], 0x00, State::Status, PacketDirection::ServerBound);
            assert(row_of(packets@[1]).fields =~= Self::table()[1].fields);
        }
        let mut fields: Vec<ProtocolPacketField> = Vec::new();
        fields.push(ProtocolPacketField { name: "payload".to_owned(), kind: "i64".to_owned() });
        packets.push(
            ProtocolPacketSpec {
                state: State::Status.name(),
                direction: PacketDirection::ServerBound.name(),
                id: 0x01,
                name: "StatusPing".to_owned(),
                body_struct: "StatusPingSpec".to_owned(),
                fields,
            },
        );
        proof {
            lemma_described_id(packets@[2], 0x01, State::Status, PacketDirection::ServerBound);
            assert(row_of(packets@[2]).fields =~= Self::table()[2].fields);
        }
        let mut fields: Vec<ProtocolPacketField> = Vec::new();
        fields.push(ProtocolPacketField { name: "response".to_owned(), kind: "String".to_owned() });
        packets.push(
            ProtocolPacketSpec {
                state: State::Status.name(),
                direction: PacketDirection::ClientBound.name(),
                id: 0x00,
                name: "StatusResponse".to_owned(),
                body_struct: "StatusResponseSpec".to_owned(),
                fields,
            },
        );
        proof {
            lemma_described_id(packets@[3], 0x00, State::Status, PacketDirection::ClientBound);
            assert(row_of(packets@[3]).fields =~= Self::table()[3].fields);
        }
        let mut fields: Vec<ProtocolPacketField> = Vec::new();
        fields.push(ProtocolPacketField { name: "payload".to_owned(), kind: "i64".to_owned() });
        packets.push(
            ProtocolPacketSpec {
                state: State::Status.name(),
                direction: PacketDirection::ClientBound.name(),
                id: 0x01,
                name: "StatusPong".to_owned(),
                body_struct: "StatusPongSpec".to_owned(),
                fields,
            },
        );
        proof {
            lemma_described_id(packets@[4], 0x01, State::Status, PacketDirection::ClientBound);
            assert(row_of(packets@[4]).fields =~= Self::table()[4].fields);
        }
        let mut fields: Vec<ProtocolPacketField> = Vec::new();
        fields.push(ProtocolPacketField { name: "message".to_owned(), kind: "String".to_owned() });
        packets.push(
            ProtocolPacketSpec {
                state: State::Login.name(),
                direction: PacketDirection::ClientBound.name(),
                id: 0x00,
                name: "LoginDisconnect".to_owned(),
                body_struct: "LoginDisconnectSpec".to_owned(),
                fields,
            },
        );
        proof {
            lemma_described_id(packets@[5], 0x00, State::Login, PacketDirection::ClientBound);
            assert(row_of(packets@[5]).fields =~= Self::table()[5].fields);
        }
        let mut fields: Vec<ProtocolPacketField> = Vec::new();
        fields.push(ProtocolPacketField { name: "server_id".to_owned(), kind: "String".to_owned() });
        fields.push(ProtocolPacketField { name: "public_key".to_owned(), kind: "CountedArray<u8, VarInt>".to_owned() });
        fields.push(ProtocolPacketField { name: "verify_token".to_owned(), kind: "CountedArray<u8, VarInt>".to_owned() });
        packets.push(
            ProtocolPacketSpec {
                state: State::Login.name(),
                direction: PacketDirection::ClientBound.name(),
                id: 0x01,
                name: "LoginEncryptionRequest".to_owned(),
                body_struct: "LoginEncryptionRequestSpec".to_owned(),
                fields,
            },
        );
        proof {
            lemma_described_id(packets@[6], 0x01, State::Login, PacketDirection::ClientBound);
            assert(row_of(packets@[6]).fields =~= Self::table()[6].fields);
        }
        let mut fields: Vec<ProtocolPacketField> = Vec::new();
        fields.push(ProtocolPacketField { name: "uuid".to_owned(), kind: "UUID4".to_owned() });
        fields.push(ProtocolPacketField { name: "username".to_owned(), kind: "String".to_owned() });
        packets.push(
            ProtocolPacketSpec {
                state: State::Login.name(),
                direction: PacketDirection::ClientBound.name(),
                id: 0x02,
                name: "LoginSuccess".to_owned(),
                body_struct: "LoginSuccessSpec".to_owned(),
                fields,
            },
        );
        proof {
            lemma_described_id(packets@[7], 0x02, State::Login, PacketDirection::ClientBound);
            assert(row_of(packets@[7]).fields =~= Self::table()[7].fields);
        }
        let mut fields: Vec<ProtocolPacketField> = Vec::new();
        fields.push(ProtocolPacketField { name: "threshold".to_owned(), kind: "VarInt".to_owned() });
        packets.push(
            ProtocolPacketSpec {
                state: State::Login.name(),
                direction: PacketDirection::ClientBound.name(),
                id: 0x03,
                name: "LoginSetCompression".to_owned(),
                body_struct: "LoginSetCompressionSpec".to_owned(),
                fields,
            },
        );
        proof {
            lemma_described_id(packets@[8], 0x03, State::Login, PacketDirection::ClientBound);
            assert(row_of(packets@[8]).fields =~= Self::table()[8].fields);
        }
        let mut fields: Vec<ProtocolPacketField> = Vec::new();
        fields.push(ProtocolPacketField { name: "message_id".to_owned(), kind: "VarInt".to_owned() });
        fields.push(ProtocolPacketField { name: "channel".to_owned(), kind: "String".to_owned() });
        fields.push(ProtocolPacketField { name: "data".to_owned(), kind: "RemainingBytes".to_owned() });
        packets.push(
            ProtocolPacketSpec {
                state: State::Login.name(),
                direction: PacketDirection::ClientBound.name(),
                id: 0x04,
                name: "LoginPluginRequest".to_owned(),
                body_struct: "LoginPluginRequestSpec".to_owned(),
                fields,
            },
        );
        proof {
            lemma_described_id(packets@[9], 0x04, State::Login, PacketDirection::ClientBound);
            assert(row_of(packets@[9]).fields =~= Self::table()[9].fields);
        }
        let mut fields: Vec<ProtocolPacketField> = Vec::new();
        fields.push(ProtocolPacketField { name: "name".to_owned(), kind: "String".to_owned() });
        packets.push(
            ProtocolPacketSpec {
                state: State::Login.name(),
                direction: PacketDirection::ServerBound.name(),
                id: 0x00,
                name: "LoginStart".to_owned(),
                body_struct: "LoginStartSpec".to_owned(),
                fields,
            },
        );
        proof {
            lemma_described_id(packets@[10], 0x00, State::Login, PacketDirection::ServerBound);
            assert(row_of(packets@[10]).fields =~= Self::table()[10].fields);
        }
        let mut fields: Vec<ProtocolPacketField> = Vec::new();
        fields.push(ProtocolPacketField { name: "shared_secret".to_owned(), kind: "CountedArray<u8, VarInt>".to_owned() });
        fields.push(ProtocolPacketField { name: "verify_token".to_owned(), kind: "CountedArray<u8, VarInt>".to_owned() });
        packets.push(
            ProtocolPacketSpec {
                state: State::Login.name(),
                direction: PacketDirection::ServerBound.name(),
                id: 0x01,
                name: "LoginEncryptionResponse".to_owned(),
                body_struct: "LoginEncryptionResponseSpec".to_owned(),
                fields,
            },
        );
        proof {
            lemma_described_id(packets@[11], 0x01, State::Login, PacketDirection::ServerBound);
            assert(row_of(packets@[11]).fields =~= Self::table()[11].fields);
        }
        let mut fields: Vec<ProtocolPacketField> = Vec::new();
        fields.push(ProtocolPacketField { name: "message_id".to_owned(), kind: "VarInt".to_owned() });
        fields.push(ProtocolPacketField { name: "successful".to_owned(), kind: "bool".to_owned() });
        fields.push(ProtocolPacketField { name: "data".to_owned(), kind: "RemainingBytes".to_owned() });
        packets.push(
            ProtocolPacketSpec {
                state: State::Login.name(),
                direction: PacketDirection::ServerBound.name(),
                id: 0x02,
                name: "LoginPluginResponse".to_owned(),
                body_struct: "LoginPluginResponseSpec".to_owned(),
                fields,
            },
        );
        proof {
            lemma_described_id(packets@[12], 0x02, State::Login, PacketDirection::ServerBound);
            assert(row_of(packets@[12]).fields =~= Self::table()[12].fields);
        }
        ProtocolSpec { name: "Packet753".to_owned(), packets }
    }
}

/// The table lists the packets that the version knows, each once.
pub proof fn lemma_packet753_table(id: Id)
    ensures
        Packet753::known(id) <==> exists|i: int|
            0 <= i < Packet753::table().len() && (#[trigger] Packet753::table()[i]).id == id,
        forall|i: int, j: int|
            0 <= i < j < Packet753::table().len() ==> (#[trigger] Packet753::table()[i]).id != (
            #[trigger] Packet753::table()[j]).id,
{
    let t = Packet753::table();
    assert(t[0].id == packet_id(0x00, State::Handshaking, PacketDirection::ServerBound));
    assert(t[1].id == packet_id(0x00, State::Status, PacketDirection::ServerBound));
    assert(t[2].id == packet_id(0x01, State::Status, PacketDirection::ServerBound));
    assert(t[3].id == packet_id(0x00, State::Status, PacketDirection::ClientBound));
    assert(t[4].id == packet_id(0x01, State::Status, PacketDirection::ClientBound));
    assert(t[5].id == packet_id(0x00, State::Login, PacketDirection::ClientBound));
    assert(t[6].id == packet_id(0x01, State::Login, PacketDirection::ClientBound));
    assert(t[7].id == packet_id(0x02, State::Login, PacketDirection::ClientBound));
    assert(t[8].id == packet_id(0x03, State::Login, PacketDirection::ClientBound));
    assert(t[9].id == packet_id(0x04, State::Login, PacketDirection::ClientBound));
    assert(t[10].id == packet_id(0x00, State::Login, PacketDirection::ServerBound));
    assert(t[11].id == packet_id(0x01, State::Login, PacketDirection::ServerBound));
    assert(t[12].id == packet_id(0x02, State::Login, PacketDirection::ServerBound));
}

/// The undecoded body of a packet whose kind is known: it holds a `T`.
#[derive(PartialEq, Debug)]
pub struct RawPacket753Body<'a, T> {
    pub data: &'a [u8],
    pub _typ: core::marker::PhantomData<T>,
}

impl<'a, T: Deserialize> RawPacket753Body<'a, T> {
    /// Decodes the body, all of it.
    pub fn deserialize(&self) -> (r: Result<T, PacketErr>)
        ensures
            yields(r, whole_body::<T>(self.data@)),
    {
        deserialize_body::<T>(self.data)
    }
}

/// A packet sorted under its kind, with its body still in bytes.
#[derive(Debug, PartialEq)]
pub enum RawPacket753<'a> {
    Handshake(RawPacket753Body<'a, HandshakeSpec>),
    StatusRequest(RawPacket753Body<'a, StatusRequestSpec>),
    StatusPing(RawPacket753Body<'a, StatusPingSpec>),
    StatusResponse(RawPacket753Body<'a, StatusResponseSpec>),
    StatusPong(RawPacket753Body<'a, StatusPongSpec>),
    LoginDisconnect(RawPacket753Body<'a, LoginDisconnectSpec>),
    LoginEncryptionRequest(RawPacket753Body<'a, LoginEncryptionRequestSpec>),
    LoginSuccess(RawPacket753Body<'a, LoginSuccessSpec>),
    LoginSetCompression(RawPacket753Body<'a, LoginSetCompressionSpec>),
    LoginPluginRequest(RawPacket753Body<'a, LoginPluginRequestSpec>),
    LoginStart(RawPacket753Body<'a, LoginStartSpec>),
    LoginEncryptionResponse(RawPacket753Body<'a, LoginEncryptionResponseSpec>),
    LoginPluginResponse(RawPacket753Body<'a, LoginPluginResponseSpec>),
}

impl<'a> RawPacket753<'a> {
    pub open spec fn spec_id(&self) -> Id {
        match self {
            RawPacket753::Handshake(_) => packet_id(0x00, State::Handshaking, PacketDirection::ServerBound),
            RawPacket753::StatusRequest(_) => packet_id(0x00, State::Status, PacketDirection::ServerBound),
            RawPacket753::StatusPing(_) => packet_id(0x01, State::Status, PacketDirection::ServerBound),
            RawPacket753::StatusResponse(_) => packet_id(0x00, State::Status, PacketDirection::ClientBound),
            RawPacket753::StatusPong(_) => packet_id(0x01, State::Status, PacketDirection::ClientBound),
            RawPacket753::LoginDisconnect(_) => packet_id(0x00, State::Login, PacketDirection::ClientBound),
            RawPacket753::LoginEncryptionRequest(_) => packet_id(0x01, State::Login, PacketDirection::ClientBound),
            RawPacket753::LoginSuccess(_) => packet_id(0x02, State::Login, PacketDirection::ClientBound),
            RawPacket753::LoginSetCompression(_) => packet_id(0x03, State::Login, PacketDirection::ClientBound),
            RawPacket753::LoginPluginRequest(_) => packet_id(0x04, State::Login, PacketDirection::ClientBound),
            RawPacket753::LoginStart(_) => packet_id(0x00, State::Login, PacketDirection::ServerBound),
            RawPacket753::LoginEncryptionResponse(_) => packet_id(0x01, State::Login, PacketDirection::ServerBound),
            RawPacket753::LoginPluginResponse(_) => packet_id(0x02, State::Login, PacketDirection::ServerBound),
        }
    }

    pub open spec fn spec_bytes(&self) -> Seq<u8> {
        match self {
            RawPacket753::Handshake(body) => body.data@,
            RawPacket753::StatusRequest(body) => body.data@,
            RawPacket753::StatusPing(body) => body.data@,
            RawPacket753::StatusResponse(body) => body.data@,
            RawPacket753::StatusPong(body) => body.data@,
            RawPacket753::LoginDisconnect(body) => body.data@,
            RawPacket753::LoginEncryptionRequest(body) => body.data@,
            RawPacket753::LoginSuccess(body) => body.data@,
            RawPacket753::LoginSetCompression(body) => body.data@,
            RawPacket753::LoginPluginRequest(body) => body.data@,
            RawPacket753::LoginStart(body) => body.data@,
            RawPacket753::LoginEncryptionResponse(body) => body.data@,
            RawPacket753::LoginPluginResponse(body) => body.data@,
        }
    }

    /// Sorts a raw packet under its kind without decoding the body.
    pub fn create(raw: RawPacket<'a>) -> (r: Result<Self, PacketErr>)
        ensures
            match r {
                Ok(p) => Packet753::known(raw.id) && p.spec_id() == raw.id && p.spec_bytes()
                    == raw.data@,
                Err(e) => !Packet753::known(raw.id) && e@ == PacketFailure::UnknownId(raw.id),
            },
    {
        let id = raw.id;
        let data = raw.data;
        match (id.id, id.state, id.direction) {
            (0x00, State::Handshaking, PacketDirection::ServerBound) => Ok(
                RawPacket753::Handshake(RawPacket753Body { data, _typ: core::marker::PhantomData }),
            ),
            (0x00, State::Status, PacketDirection::ServerBound) => Ok(
                RawPacket753::StatusRequest(RawPacket753Body { data, _typ: core::marker::PhantomData }),
            ),
            (0x01, State::Status, PacketDirection::ServerBound) => Ok(
                RawPacket753::StatusPing(RawPacket753Body { data, _typ: core::marker::PhantomData }),
            ),
            (0x00, State::Status, PacketDirection::ClientBound) => Ok(
                RawPacket753::StatusResponse(RawPacket753Body { data, _typ: core::marker::PhantomData }),
            ),
            (0x01, State::Status, PacketDirection::ClientBound) => Ok(
                RawPacket753::StatusPong(RawPacket753Body { data, _typ: core::marker::PhantomData }),
            ),
            (0x00, State::Login, PacketDirection::ClientBound) => Ok(
                RawPacket753::LoginDisconnect(RawPacket753Body { data, _typ: core::marker::PhantomData }),
            ),
            (0x01, State::Login, PacketDirection::ClientBound) => Ok(
                RawPacket753::LoginEncryptionRequest(RawPacket753Body { data, _typ: core::marker::PhantomData }),
            ),
            (0x02, State::Login, PacketDirection::ClientBound) => Ok(
                RawPacket753::LoginSuccess(RawPacket753Body { data, _typ: core::marker::PhantomData }),
            ),
            (0x03, State::Login, PacketDirection::ClientBound) => Ok(
                RawPacket753::LoginSetCompression(RawPacket753Body { data, _typ: core::marker::PhantomData }),
            ),
            (0x04, State::Login, PacketDirection::ClientBound) => Ok(
                RawPacket753::LoginPluginRequest(RawPacket753Body { data, _typ: core::marker::PhantomData }),
            ),
            (0x00, State::Login, PacketDirection::ServerBound) => Ok(
                RawPacket753::LoginStart(RawPacket753Body { data, _typ: core::marker::PhantomData }),
            ),
            (0x01, State::Login, PacketDirection::ServerBound) => Ok(
                RawPacket753::LoginEncryptionResponse(RawPacket753Body { data, _typ: core::marker::PhantomData }),
            ),
            (0x02, State::Login, PacketDirection::ServerBound) => Ok(
                RawPacket753::LoginPluginResponse(RawPacket753Body { data, _typ: core::marker::PhantomData }),
            ),
            _ => Err(PacketErr::UnknownId(id)),
        }
    }

    pub fn id(&self) -> (r: Id)
        ensures
            r == self.spec_id(),
    {
        match self {
            RawPacket753::Handshake(_) => Id { id: 0x00, state: State::Handshaking, direction: PacketDirection::ServerBound },
            RawPacket753::StatusRequest(_) => Id { id: 0x00, state: State::Status, direction: PacketDirection::ServerBound },
            RawPacket753::StatusPing(_) => Id { id: 0x01, state: State::Status, direction: PacketDirection::ServerBound },
            RawPacket753::StatusResponse(_) => Id { id: 0x00, state: State::Status, direction: PacketDirection::ClientBound },
            RawPacket753::StatusPong(_) => Id { id: 0x01, state: State::Status, direction: PacketDirection::ClientBound },
            RawPacket753::LoginDisconnect(_) => Id { id: 0x00, state: State::Login, direction: PacketDirection::ClientBound },
            RawPacket753::LoginEncryptionRequest(_) => Id { id: 0x01, state: State::Login, direction: PacketDirection::ClientBound },
            RawPacket753::LoginSuccess(_) => Id { id: 0x02, state: State::Login, direction: PacketDirection::ClientBound },
            RawPacket753::LoginSetCompression(_) => Id { id: 0x03, state: State::Login, direction: PacketDirection::ClientBound },
            RawPacket753::LoginPluginRequest(_) => Id { id: 0x04, state: State::Login, direction: PacketDirection::ClientBound },
            RawPacket753::LoginStart(_) => Id { id: 0x00, state: State::Login, direction: PacketDirection::ServerBound },
            RawPacket753::LoginEncryptionResponse(_) => Id { id: 0x01, state: State::Login, direction: PacketDirection::ServerBound },
            RawPacket753::LoginPluginResponse(_) => Id { id: 0x02, state: State::Login, direction: PacketDirection::ServerBound },
        }
    }

    pub fn bytes(&self) -> (r: &'a [u8])
        ensures
            r@ == self.spec_bytes(),
    {
        match self {
            RawPacket753::Handshake(bod) => bod.data,
            RawPacket753::StatusRequest(bod) => bod.data,
            RawPacket753::StatusPing(bod) => bod.data,
            RawPacket753::StatusResponse(bod) => bod.data,
            RawPacket753::StatusPong(bod) => bod.data,
            RawPacket753::LoginDisconnect(bod) => bod.data,
            RawPacket753::LoginEncryptionRequest(bod) => bod.data,
            RawPacket753::LoginSuccess(bod) => bod.data,
            RawPacket753::LoginSetCompression(bod) => bod.data,
            RawPacket753::LoginPluginRequest(bod) => bod.data,
            RawPacket753::LoginStart(bod) => bod.data,
            RawPacket753::LoginEncryptionResponse(bod) => bod.data,
            RawPacket753::LoginPluginResponse(bod) => bod.data,
        }
    }

    pub fn into_raw_packet(self) -> (r: RawPacket<'a>)
        ensures
            r.id == self.spec_id(),
            r.data@ == self.spec_bytes(),
    {
        RawPacket { id: self.id(), data: self.bytes() }
    }

    /// Decodes the body into the packet of this kind.
    pub fn deserialize(self) -> (r: Result<Packet753, PacketErr>)
        ensures
            yields(r, Packet753::layout(self.spec_id(), self.spec_bytes())),
    {
        Packet753::mc_deserialize(self.into_raw_packet())
    }
}

/// A packet of a known identity, written from a faithful body, is read back
/// from its identity and its bytes.
pub proof fn lemma_packet753_round_trip(p: Packet753View)
    requires
        packet753_faithful(p),
    ensures
        Packet753::known(Packet753::id_of(p)),
        Packet753::layout(Packet753::id_of(p), Packet753::body_of(p)) == Ok::<Packet753View, PacketFailure>(p),
{
    match p {
        Packet753View::Handshake(body) => {
            lemma_whole_body_round_trip::<HandshakeSpec>(body);
            assert(Packet753::id_of(p) == packet_id(0x00, State::Handshaking, PacketDirection::ServerBound));
        },
        Packet753View::StatusRequest(body) => {
            lemma_whole_body_round_trip::<StatusRequestSpec>(body);
            assert(Packet753::id_of(p) == packet_id(0x00, State::Status, PacketDirection::ServerBound));
        },
        Packet753View::StatusPing(body) => {
            lemma_whole_body_round_trip::<StatusPingSpec>(body);
            assert(Packet753::id_of(p) == packet_id(0x01, State::Status, PacketDirection::ServerBound));
        },
        Packet753View::StatusResponse(body) => {
            lemma_whole_body_round_trip::<StatusResponseSpec>(body);
            assert(Packet753::id_of(p) == packet_id(0x00, State::Status, PacketDirection::ClientBound));
        },
        Packet753View::StatusPong(body) => {
            lemma_whole_body_round_trip::<StatusPongSpec>(body);
            assert(Packet753::id_of(p) == packet_id(0x01, State::Status, PacketDirection::ClientBound));
        },
        Packet753View::LoginDisconnect(body) => {
            lemma_whole_body_round_trip::<LoginDisconnectSpec>(body);
            assert(Packet753::id_of(p) == packet_id(0x00, State::Login, PacketDirection::ClientBound));
        },
        Packet753View::LoginEncryptionRequest(body) => {
            lemma_whole_body_round_trip::<LoginEncryptionRequestSpec>(body);
            assert(Packet753::id_of(p) == packet_id(0x01, State::Login, PacketDirection::ClientBound));
        },
        Packet753View::LoginSuccess(body) => {
            lemma_whole_body_round_trip::<LoginSuccessSpec>(body);
            assert(Packet753::id_of(p) == packet_id(0x02, State::Login, PacketDirection::ClientBound));
        },
        Packet753View::LoginSetCompression(body) => {
            lemma_whole_body_round_trip::<LoginSetCompressionSpec>(body);
            assert(Packet753::id_of(p) == packet_id(0x03, State::Login, PacketDirection::ClientBound));
        },
        Packet753View::LoginPluginRequest(body) => {
            lemma_whole_body_round_trip::<LoginPluginRequestSpec>(body);
            assert(Packet753::id_of(p) == packet_id(0x04, State::Login, PacketDirection::ClientBound));
        },
        Packet753View::LoginStart(body) => {
            lemma_whole_body_round_trip::<LoginStartSpec>(body);
            assert(Packet753::id_of(p) == packet_id(0x00, State::Login, PacketDirection::ServerBound));
        },
        Packet753View::LoginEncryptionResponse(body) => {
            lemma_whole_body_round_trip::<LoginEncryptionResponseSpec>(body);
            assert(Packet753::id_of(p) == packet_id(0x01, State::Login, PacketDirection::ServerBound));
        },
        Packet753View::LoginPluginResponse(body) => {
            lemma_whole_body_round_trip::<LoginPluginResponseSpec>(body);
            assert(Packet753::id_of(p) == packet_id(0x02, State::Login, PacketDirection::ServerBound));
        },
    }
}

/// The packets whose body comes back from its own bytes.
pub open spec fn packet753_faithful(p: Packet753View) -> bool {
    match p {
        Packet753View::Handshake(body) => HandshakeSpec::faithful(body),
        Packet753View::StatusRequest(body) => StatusRequestSpec::faithful(body),
        Packet753View::StatusPing(body) => StatusPingSpec::faithful(body),
        Packet753View::StatusResponse(body) => StatusResponseSpec::faithful(body),
        Packet753View::StatusPong(body) => StatusPongSpec::faithful(body),
        Packet753View::LoginDisconnect(body) => LoginDisconnectSpec::faithful(body),
        Packet753View::LoginEncryptionRequest(body) => LoginEncryptionRequestSpec::faithful(body),
        Packet753View::LoginSuccess(body) => LoginSuccessSpec::faithful(body),
        Packet753View::LoginSetCompression(body) => LoginSetCompressionSpec::faithful(body),
        Packet753View::LoginPluginRequest(body) => LoginPluginRequestSpec::faithful(body),
        Packet753View::LoginStart(body) => LoginStartSpec::faithful(body),
        Packet753View::LoginEncryptionResponse(body) => LoginEncryptionResponseSpec::faithful(body),
        Packet753View::LoginPluginResponse(body) => LoginPluginResponseSpec::faithful(body),
    }
}

/// What is read under an identity is a packet of that identity: no two
/// kinds of packet share one.
pub proof fn lemma_packet753_identity(id: Id, data: Seq<u8>)
    requires
        Packet753::known(id),
    ensures
        Packet753::layout(id, data) matches Ok(p) ==> Packet753::id_of(p) == id,
{
}

/// The first packet of a connection: it names the stage that follows.
#[derive(Debug, Clone, PartialEq)]
pub struct HandshakeSpec {
    /// The protocol version that the client speaks.
    pub version: VarInt,
    pub server_address: String,
    pub server_port: u16,
    /// The stage that the client asks for.
    pub next_state: HandshakeNextState,
}

/// The mathematical content of a [`HandshakeSpec`].
pub struct HandshakeSpecView {
    pub version: VarInt,
    pub server_address: Seq<char>,
    pub server_port: u16,
    pub next_state: HandshakeNextState,
}

impl DeepView for HandshakeSpec {
    type V = HandshakeSpecView;

    open spec fn deep_view(&self) -> HandshakeSpecView {
        HandshakeSpecView {
            version: self.version.deep_view(),
            server_address: self.server_address.deep_view(),
            server_port: self.server_port.deep_view(),
            next_state: self.next_state.deep_view(),
        }
    }
}

impl Serialize for HandshakeSpec {
    open spec fn serializable(v: HandshakeSpecView) -> bool {
        VarInt::serializable(v.version) && String::serializable(v.server_address) && u16::serializable(v.server_port) && HandshakeNextState::serializable(v.next_state)
    }

    #[verifier::opaque]
    open spec fn encode(v: HandshakeSpecView) -> Seq<u8> {
        VarInt::encode(v.version) + String::encode(v.server_address) + u16::encode(v.server_port) + HandshakeNextState::encode(v.next_state)
    }

    fn mc_serialize<S: Serializer>(&self, to: &mut S) -> (r: SerializeResult) {
        proof {
            reveal(<HandshakeSpec as Serialize>::encode);
        }
        self.version.mc_serialize(to)?;
        self.server_address.mc_serialize(to)?;
        self.server_port.mc_serialize(to)?;
        self.next_state.mc_serialize(to)?;
        proof {
            let v = self.deep_view();
            let w = old(to).written();
            let e0 = VarInt::encode(v.version);
            let e1 = String::encode(v.server_address);
            let e2 = u16::encode(v.server_port);
            let e3 = HandshakeNextState::encode(v.next_state);
            let l0 = e0;
            let l1 = l0 + e1;
            let l2 = l1 + e2;
            let l3 = l2 + e3;
            lemma_concat_assoc(w, l0, e1);
            lemma_concat_assoc(w, l1, e2);
            lemma_concat_assoc(w, l2, e3);
        }
        Ok(())
    }
}

impl Deserialize for HandshakeSpec {
    #[verifier::opaque]
    open spec fn decode(data: Seq<u8>) -> Decoded<HandshakeSpecView> {
        match VarInt::decode(data) {
            Err(e) => Err(e),
            Ok((version, n0)) => {
                match String::decode(data.skip((n0) as int)) {
                    Err(e) => Err(e),
                    Ok((server_address, n1)) => {
                        match u16::decode(data.skip((n0 + n1) as int)) {
                            Err(e) => Err(e),
                            Ok((server_port, n2)) => {
                                match HandshakeNextState::decode(data.skip((n0 + n1 + n2) as int)) {
                                    Err(e) => Err(e),
                                    Ok((next_state, n3)) => Ok((HandshakeSpecView { version, server_address, server_port, next_state }, n0 + n1 + n2 + n3)),
                                }
                            },
                        }
                    },
                }
            },
        }
    }

    fn mc_deserialize(data: &[u8]) -> (r: DeserializeResult<'_, HandshakeSpec>) {
        proof {
            reveal(<HandshakeSpec as Deserialize>::decode);
        }
        let ghost whole = data@;
        let Deserialized { value: version, data: rest0 } = VarInt::mc_deserialize(data)?;
        let Deserialized { value: server_address, data: rest1 } = String::mc_deserialize(rest0)?;
        proof {
            lemma_skip_skip(
                whole,
                whole.len() - rest0@.len(),
                rest0@.len() - rest1@.len(),
            );
        }
        let Deserialized { value: server_port, data: rest2 } = u16::mc_deserialize(rest1)?;
        proof {
            lemma_skip_skip(
                whole,
                whole.len() - rest1@.len(),
                rest1@.len() - rest2@.len(),
            );
        }
        let Deserialized { value: next_state, data: rest3 } = HandshakeNextState::mc_deserialize(rest2)?;
        proof {
            lemma_skip_skip(
                whole,
                whole.len() - rest2@.len(),
                rest2@.len() - rest3@.len(),
            );
        }
        Ok(Deserialized { value: HandshakeSpec { version, server_address, server_port, next_state }, data: rest3 })
    }
}

impl ProtocolType for HandshakeSpec {
    open spec fn faithful(v: HandshakeSpecView) -> bool {
        VarInt::faithful(v.version) && String::faithful(v.server_address) && u16::faithful(v.server_port) && HandshakeNextState::faithful(v.next_state)
    }

    open spec fn delimited() -> bool {
        HandshakeNextState::delimited()
    }

    proof fn lemma_round_trip(v: HandshakeSpecView, rest: Seq<u8>) {
        reveal(<HandshakeSpec as Serialize>::encode);
        reveal(<HandshakeSpec as Deserialize>::decode);
        let e0 = VarInt::encode(v.version);
        let e1 = String::encode(v.server_address);
        let e2 = u16::encode(v.server_port);
        let e3 = HandshakeNextState::encode(v.next_state);
        let data = Self::encode(v) + rest;
        let t4 = rest;
        let t3 = e3 + t4;
        let t2 = e2 + t3;
        let t1 = e1 + t2;
        let t0 = e0 + t1;
        let l0 = e0;
        let l1 = l0 + e1;
        let l2 = l1 + e2;
        let l3 = l2 + e3;
        lemma_concat_assoc(l2, e3, t4);
        lemma_concat_assoc(l1, e2, t3);
        lemma_concat_assoc(l0, e1, t2);
        assert(data == t0);
        VarInt::lemma_round_trip(v.version, t1);
        lemma_skip_concat(e0, t1);
        String::lemma_round_trip(v.server_address, t2);
        lemma_skip_more(data, (e0.len()) as int, e1, t2);
        u16::lemma_round_trip(v.server_port, t3);
        lemma_skip_more(data, (e0.len() + e1.len()) as int, e2, t3);
        HandshakeNextState::lemma_round_trip(v.next_state, t4);
        lemma_skip_more(data, (e0.len() + e1.len() + e2.len()) as int, e3, t4);
    }
}

/// Asks the server for its status.
#[derive(Debug, Clone, PartialEq, Default)]
pub struct StatusRequestSpec;

impl View for StatusRequestSpec {
    type V = StatusRequestSpec;

    open spec fn view(&self) -> StatusRequestSpec {
        *self
    }
}

impl DeepView for StatusRequestSpec {
    type V = StatusRequestSpec;

    open spec fn deep_view(&self) -> StatusRequestSpec {
        *self
    }
}

impl Serialize for StatusRequestSpec {
    open spec fn serializable(v: StatusRequestSpec) -> bool {
        true
    }

    open spec fn encode(v: StatusRequestSpec) -> Seq<u8> {
        Seq::empty()
    }

    fn mc_serialize<S: Serializer>(&self, to: &mut S) -> (r: SerializeResult) {
        proof {
            assert(old(to).written() + Seq::<u8>::empty() =~= old(to).written());
        }
        Ok(())
    }
}

impl Deserialize for StatusRequestSpec {
    open spec fn decode(data: Seq<u8>) -> Decoded<StatusRequestSpec> {
        Ok((StatusRequestSpec, 0))
    }

    fn mc_deserialize(data: &[u8]) -> (r: DeserializeResult<'_, StatusRequestSpec>) {
        proof {
            assert(data@.skip(0) =~= data@);
        }
        Ok(Deserialized { value: StatusRequestSpec, data })
    }
}

impl ProtocolType for StatusRequestSpec {
    open spec fn faithful(v: StatusRequestSpec) -> bool {
        true
    }

    open spec fn delimited() -> bool {
        true
    }

    proof fn lemma_round_trip(v: StatusRequestSpec, rest: Seq<u8>) {
        assert(Seq::<u8>::empty() + rest =~= rest);
    }
}

/// A number for the server to send back.
#[derive(Debug, Clone, PartialEq)]
pub struct StatusPingSpec {
    pub payload: i64,
}

/// The mathematical content of a [`StatusPingSpec`].
pub struct StatusPingSpecView {
    pub payload: i64,
}

impl DeepView for StatusPingSpec {
    type V = StatusPingSpecView;

    open spec fn deep_view(&self) -> StatusPingSpecView {
        StatusPingSpecView {
            payload: self.payload.deep_view(),
        }
    }
}

impl Serialize for StatusPingSpec {
    open spec fn serializable(v: StatusPingSpecView) -> bool {
        i64::serializable(v.payload)
    }

    #[verifier::opaque]
    open spec fn encode(v: StatusPingSpecView) -> Seq<u8> {
        i64::encode(v.payload)
    }

    fn mc_serialize<S: Serializer>(&self, to: &mut S) -> (r: SerializeResult) {
        proof {
            reveal(<StatusPingSpec as Serialize>::encode);
        }
        self.payload.mc_serialize(to)?;
        proof {
            assert(to.written() =~= old(to).written() + Self::encode(self.deep_view()));
        }
        Ok(())
    }
}

impl Deserialize for StatusPingSpec {
    #[verifier::opaque]
    open spec fn decode(data: Seq<u8>) -> Decoded<StatusPingSpecView> {
        match i64::decode(data) {
            Err(e) => Err(e),
            Ok((payload, n0)) => Ok((StatusPingSpecView { payload }, n0)),
        }
    }

    fn mc_deserialize(data: &[u8]) -> (r: DeserializeResult<'_, StatusPingSpec>) {
        proof {
            reveal(<StatusPingSpec as Deserialize>::decode);
        }
        let Deserialized { value: payload, data: rest0 } = i64::mc_deserialize(data)?;
        Ok(Deserialized { value: StatusPingSpec { payload }, data: rest0 })
    }
}

impl ProtocolType for StatusPingSpec {
    open spec fn faithful(v: StatusPingSpecView) -> bool {
        i64::faithful(v.payload)
    }

    open spec fn delimited() -> bool {
        i64::delimited()
    }

    proof fn lemma_round_trip(v: StatusPingSpecView, rest: Seq<u8>) {
        reveal(<StatusPingSpec as Serialize>::encode);
        reveal(<StatusPingSpec as Deserialize>::decode);
        let e0 = i64::encode(v.payload);
        let data = Self::encode(v) + rest;
        let t1 = rest;
        let t0 = e0 + t1;
        i64::lemma_round_trip(v.payload, t1);
        lemma_skip_concat(e0, t1);
    }
}

/// The server's status.
#[derive(Debug, Clone, PartialEq)]
pub struct StatusResponseSpec {
    /// The status document, as JSON text.
    pub response: String,
}

/// The mathematical content of a [`StatusResponseSpec`].
pub struct StatusResponseSpecView {
    pub response: Seq<char>,
}

impl DeepView for StatusResponseSpec {
    type V = StatusResponseSpecView;

    open spec fn deep_view(&self) -> StatusResponseSpecView {
        StatusResponseSpecView {
            response: self.response.deep_view(),
        }
    }
}

impl Serialize for StatusResponseSpec {
    open spec fn serializable(v: StatusResponseSpecView) -> bool {
        String::serializable(v.response)
    }

    #[verifier::opaque]
    open spec fn encode(v: StatusResponseSpecView) -> Seq<u8> {
        String::encode(v.response)
    }

    fn mc_serialize<S: Serializer>(&self, to: &mut S) -> (r: SerializeResult) {
        proof {
            reveal(<StatusResponseSpec as Serialize>::encode);
        }
        self.response.mc_serialize(to)?;
        proof {
            assert(to.written() =~= old(to).written() + Self::encode(self.deep_view()));
        }
        Ok(())
    }
}

impl Deserialize for StatusResponseSpec {
    #[verifier::opaque]
    open spec fn decode(data: Seq<u8>) -> Decoded<StatusResponseSpecView> {
        match String::decode(data) {
            Err(e) => Err(e),
            Ok((response, n0)) => Ok((StatusResponseSpecView { response }, n0)),
        }
    }

    fn mc_deserialize(data: &[u8]) -> (r: DeserializeResult<'_, StatusResponseSpec>) {
        proof {
            reveal(<StatusResponseSpec as Deserialize>::decode);
        }
        let Deserialized { value: response, data: rest0 } = String::mc_deserialize(data)?;
        Ok(Deserialized { value: StatusResponseSpec { response }, data: rest0 })
    }
}

impl ProtocolType for StatusResponseSpec {
    open spec fn faithful(v: StatusResponseSpecView) -> bool {
        String::faithful(v.response)
    }

    open spec fn delimited() -> bool {
        String::delimited()
    }

    proof fn lemma_round_trip(v: StatusResponseSpecView, rest: Seq<u8>) {
        reveal(<StatusResponseSpec as Serialize>::encode);
        reveal(<StatusResponseSpec as Deserialize>::decode);
        let e0 = String::encode(v.response);
        let data = Self::encode(v) + rest;
        let t1 = rest;
        let t0 = e0 + t1;
        String::lemma_round_trip(v.response, t1);
        lemma_skip_concat(e0, t1);
    }
}

/// The number of the ping, sent back.
#[derive(Debug, Clone, PartialEq)]
pub struct StatusPongSpec {
    pub payload: i64,
}

/// The mathematical content of a [`StatusPongSpec`].
pub struct StatusPongSpecView {
    pub payload: i64,
}

impl DeepView for StatusPongSpec {
    type V = StatusPongSpecView;

    open spec fn deep_view(&self) -> StatusPongSpecView {
        StatusPongSpecView {
            payload: self.payload.deep_view(),
        }
    }
}

impl Serialize for StatusPongSpec {
    open spec fn serializable(v: StatusPongSpecView) -> bool {
        i64::serializable(v.payload)
    }

    #[verifier::opaque]
    open spec fn encode(v: StatusPongSpecView) -> Seq<u8> {
        i64::encode(v.payload)
    }

    fn mc_serialize<S: Serializer>(&self, to: &mut S) -> (r: SerializeResult) {
        proof {
            reveal(<StatusPongSpec as Serialize>::encode);
        }
        self.payload.mc_serialize(to)?;
        proof {
            assert(to.written() =~= old(to).written() + Self::encode(self.deep_view()));
        }
        Ok(())
    }
}

impl Deserialize for StatusPongSpec {
    #[verifier::opaque]
    open spec fn decode(data: Seq<u8>) -> Decoded<StatusPongSpecView> {
        match i64::decode(data) {
            Err(e) => Err(e),
            Ok((payload, n0)) => Ok((StatusPongSpecView { payload }, n0)),
        }
    }

    fn mc_deserialize(data: &[u8]) -> (r: DeserializeResult<'_, StatusPongSpec>) {
        proof {
            reveal(<StatusPongSpec as Deserialize>::decode);
        }
        let Deserialized { value: payload, data: rest0 } = i64::mc_deserialize(data)?;
        Ok(Deserialized { value: StatusPongSpec { payload }, data: rest0 })
    }
}

impl ProtocolType for StatusPongSpec {
    open spec fn faithful(v: StatusPongSpecView) -> bool {
        i64::faithful(v.payload)
    }

    open spec fn delimited() -> bool {
        i64::delimited()
    }

    proof fn lemma_round_trip(v: StatusPongSpecView, rest: Seq<u8>) {
        reveal(<StatusPongSpec as Serialize>::encode);
        reveal(<StatusPongSpec as Deserialize>::decode);
        let e0 = i64::encode(v.payload);
        let data = Self::encode(v) + rest;
        let t1 = rest;
        let t0 = e0 + t1;
        i64::lemma_round_trip(v.payload, t1);
        lemma_skip_concat(e0, t1);
    }
}

/// The server refuses the login.
#[derive(Debug, Clone, PartialEq)]
pub struct LoginDisconnectSpec {
    /// The reason as a chat component, as JSON text.
    pub message: String,
}

/// The mathematical content of a [`LoginDisconnectSpec`].
pub struct LoginDisconnectSpecView {
    pub message: Seq<char>,
}

impl DeepView for LoginDisconnectSpec {
    type V = LoginDisconnectSpecView;

    open spec fn deep_view(&self) -> LoginDisconnectSpecView {
        LoginDisconnectSpecView {
            message: self.message.deep_view(),
        }
    }
}

impl Serialize for LoginDisconnectSpec {
    open spec fn serializable(v: LoginDisconnectSpecView) -> bool {
        String::serializable(v.message)
    }

    #[verifier::opaque]
    open spec fn encode(v: LoginDisconnectSpecView) -> Seq<u8> {
        String::encode(v.message)
    }

    fn mc_serialize<S: Serializer>(&self, to: &mut S) -> (r: SerializeResult) {
        proof {
            reveal(<LoginDisconnectSpec as Serialize>::encode);
        }
        self.message.mc_serialize(to)?;
        proof {
            assert(to.written() =~= old(to).written() + Self::encode(self.deep_view()));
        }
        Ok(())
    }
}

impl Deserialize for LoginDisconnectSpec {
    #[verifier::opaque]
    open spec fn decode(data: Seq<u8>) -> Decoded<LoginDisconnectSpecView> {
        match String::decode(data) {
            Err(e) => Err(e),
            Ok((message, n0)) => Ok((LoginDisconnectSpecView { message }, n0)),
        }
    }

    fn mc_deserialize(data: &[u8]) -> (r: DeserializeResult<'_, LoginDisconnectSpec>) {
        proof {
            reveal(<LoginDisconnectSpec as Deserialize>::decode);
        }
        let Deserialized { value: message, data: rest0 } = String::mc_deserialize(data)?;
        Ok(Deserialized { value: LoginDisconnectSpec { message }, data: rest0 })
    }
}

impl ProtocolType for LoginDisconnectSpec {
    open spec fn faithful(v: LoginDisconnectSpecView) -> bool {
        String::faithful(v.message)
    }

    open spec fn delimited() -> bool {
        String::delimited()
    }

    proof fn lemma_round_trip(v: LoginDisconnectSpecView, rest: Seq<u8>) {
        reveal(<LoginDisconnectSpec as Serialize>::encode);
        reveal(<LoginDisconnectSpec as Deserialize>::decode);
        let e0 = String::encode(v.message);
        let data = Self::encode(v) + rest;
        let t1 = rest;
        let t0 = e0 + t1;
        String::lemma_round_trip(v.message, t1);
        lemma_skip_concat(e0, t1);
    }
}

/// The server asks to encrypt the connection.
#[derive(Debug, Clone, PartialEq)]
pub struct LoginEncryptionRequestSpec {
    pub server_id: String,
    pub public_key: CountedArray<u8, VarInt>,
    pub verify_token: CountedArray<u8, VarInt>,
}

/// The mathematical content of a [`LoginEncryptionRequestSpec`].
pub struct LoginEncryptionRequestSpecView {
    pub server_id: Seq<char>,
    pub public_key: Seq<u8>,
    pub verify_token: Seq<u8>,
}

impl DeepView for LoginEncryptionRequestSpec {
    type V = LoginEncryptionRequestSpecView;

    open spec fn deep_view(&self) -> LoginEncryptionRequestSpecView {
        LoginEncryptionRequestSpecView {
            server_id: self.server_id.deep_view(),
            public_key: self.public_key.deep_view(),
            verify_token: self.verify_token.deep_view(),
        }
    }
}

impl Serialize for LoginEncryptionRequestSpec {
    open spec fn serializable(v: LoginEncryptionRequestSpecView) -> bool {
        String::serializable(v.server_id) && <CountedArray<u8, VarInt>>::serializable(v.public_key) && <CountedArray<u8, VarInt>>::serializable(v.verify_token)
    }

    #[verifier::opaque]
    open spec fn encode(v: LoginEncryptionRequestSpecView) -> Seq<u8> {
        String::encode(v.server_id) + <CountedArray<u8, VarInt>>::encode(v.public_key) + <CountedArray<u8, VarInt>>::encode(v.verify_token)
    }

    fn mc_serialize<S: Serializer>(&self, to: &mut S) -> (r: SerializeResult) {
        proof {
            reveal(<LoginEncryptionRequestSpec as Serialize>::encode);
        }
        self.server_id.mc_serialize(to)?;
        self.public_key.mc_serialize(to)?;
        self.verify_token.mc_serialize(to)?;
        proof {
            let v = self.deep_view();
            let w = old(to).written();
            let e0 = String::encode(v.server_id);
            let e1 = <CountedArray<u8, VarInt>>::encode(v.public_key);
            let e2 = <CountedArray<u8, VarInt>>::encode(v.verify_token);
            let l0 = e0;
            let l1 = l0 + e1;
            let l2 = l1 + e2;
            lemma_concat_assoc(w, l0, e1);
            lemma_concat_assoc(w, l1, e2);
        }
        Ok(())
    }
}

impl Deserialize for LoginEncryptionRequestSpec {
    #[verifier::opaque]
    open spec fn decode(data: Seq<u8>) -> Decoded<LoginEncryptionRequestSpecView> {
        match String::decode(data) {
            Err(e) => Err(e),
            Ok((server_id, n0)) => {
                match <CountedArray<u8, VarInt>>::decode(data.skip((n0) as int)) {
                    Err(e) => Err(e),
                    Ok((public_key, n1)) => {
                        match <CountedArray<u8, VarInt>>::decode(data.skip((n0 + n1) as int)) {
                            Err(e) => Err(e),
                            Ok((verify_token, n2)) => Ok((LoginEncryptionRequestSpecView { server_id, public_key, verify_token }, n0 + n1 + n2)),
                        }
                    },
                }
            },
        }
    }

    fn mc_deserialize(data: &[u8]) -> (r: DeserializeResult<'_, LoginEncryptionRequestSpec>) {
        proof {
            reveal(<LoginEncryptionRequestSpec as Deserialize>::decode);
        }
        let ghost whole = data@;
        let Deserialized { value: server_id, data: rest0 } = String::mc_deserialize(data)?;
        let Deserialized { value: public_key, data: rest1 } = <CountedArray<u8, VarInt>>::mc_deserialize(rest0)?;
        proof {
            lemma_skip_skip(
                whole,
                whole.len() - rest0@.len(),
                rest0@.len() - rest1@.len(),
            );
        }
        let Deserialized { value: verify_token, data: rest2 } = <CountedArray<u8, VarInt>>::mc_deserialize(rest1)?;
        proof {
            lemma_skip_skip(
                whole,
                whole.len() - rest1@.len(),
                rest1@.len() - rest2@.len(),
            );
        }
        Ok(Deserialized { value: LoginEncryptionRequestSpec { server_id, public_key, verify_token }, data: rest2 })
    }
}

impl ProtocolType for LoginEncryptionRequestSpec {
    open spec fn faithful(v: LoginEncryptionRequestSpecView) -> bool {
        String::faithful(v.server_id) && <CountedArray<u8, VarInt>>::faithful(v.public_key) && <CountedArray<u8, VarInt>>::faithful(v.verify_token)
    }

    open spec fn delimited() -> bool {
        <CountedArray<u8, VarInt>>::delimited()
    }

    proof fn lemma_round_trip(v: LoginEncryptionRequestSpecView, rest: Seq<u8>) {
        reveal(<LoginEncryptionRequestSpec as Serialize>::encode);
        reveal(<LoginEncryptionRequestSpec as Deserialize>::decode);
        let e0 = String::encode(v.server_id);
        let e1 = <CountedArray<u8, VarInt>>::encode(v.public_key);
        let e2 = <CountedArray<u8, VarInt>>::encode(v.verify_token);
        let data = Self::encode(v) + rest;
        let t3 = rest;
        let t2 = e2 + t3;
        let t1 = e1 + t2;
        let t0 = e0 + t1;
        let l0 = e0;
        let l1 = l0 + e1;
        let l2 = l1 + e2;
        lemma_concat_assoc(l1, e2, t3);
        lemma_concat_assoc(l0, e1, t2);
        assert(data == t0);
        String::lemma_round_trip(v.server_id, t1);
        lemma_skip_concat(e0, t1);
        <CountedArray<u8, VarInt>>::lemma_round_trip(v.public_key, t2);
        lemma_skip_more(data, (e0.len()) as int, e1, t2);
        <CountedArray<u8, VarInt>>::lemma_round_trip(v.verify_token, t3);
        lemma_skip_more(data, (e0.len() + e1.len()) as int, e2, t3);
    }
}

/// The login is done; the play stage follows.
#[derive(Debug, Clone, PartialEq)]
pub struct LoginSuccessSpec {
    pub uuid: UUID4,
    pub username: String,
}

/// The mathematical content of a [`LoginSuccessSpec`].
pub struct LoginSuccessSpecView {
    pub uuid: u128,
    pub username: Seq<char>,
}

impl DeepView for LoginSuccessSpec {
    type V = LoginSuccessSpecView;

    open spec fn deep_view(&self) -> LoginSuccessSpecView {
        LoginSuccessSpecView {
            uuid: self.uuid.deep_view(),
            username: self.username.deep_view(),
        }
    }
}

impl Serialize for LoginSuccessSpec {
    open spec fn serializable(v: LoginSuccessSpecView) -> bool {
        UUID4::serializable(v.uuid) && String::serializable(v.username)
    }

    #[verifier::opaque]
    open spec fn encode(v: LoginSuccessSpecView) -> Seq<u8> {
        UUID4::encode(v.uuid) + String::encode(v.username)
    }

    fn mc_serialize<S: Serializer>(&self, to: &mut S) -> (r: SerializeResult) {
        proof {
            reveal(<LoginSuccessSpec as Serialize>::encode);
        }
        self.uuid.mc_serialize(to)?;
        self.username.mc_serialize(to)?;
        proof {
            assert(to.written() =~= old(to).written() + Self::encode(self.deep_view()));
        }
        Ok(())
    }
}

impl Deserialize for LoginSuccessSpec {
    #[verifier::opaque]
    open spec fn decode(data: Seq<u8>) -> Decoded<LoginSuccessSpecView> {
        match UUID4::decode(data) {
            Err(e) => Err(e),
            Ok((uuid, n0)) => {
                match String::decode(data.skip((n0) as int)) {
                    Err(e) => Err(e),
                    Ok((username, n1)) => Ok((LoginSuccessSpecView { uuid, username }, n0 + n1)),
                }
            },
        }
    }

    fn mc_deserialize(data: &[u8]) -> (r: DeserializeResult<'_, LoginSuccessSpec>) {
        proof {
            reveal(<LoginSuccessSpec as Deserialize>::decode);
        }
        let ghost whole = data@;
        let Deserialized { value: uuid, data: rest0 } = UUID4::mc_deserialize(data)?;
        let Deserialized { value: username, data: rest1 } = String::mc_deserialize(rest0)?;
        proof {
            lemma_skip_skip(
                whole,
                whole.len() - rest0@.len(),
                rest0@.len() - rest1@.len(),
            );
        }
        Ok(Deserialized { value: LoginSuccessSpec { uuid, username }, data: rest1 })
    }
}

impl ProtocolType for LoginSuccessSpec {
    open spec fn faithful(v: LoginSuccessSpecView) -> bool {
        UUID4::faithful(v.uuid) && String::faithful(v.username)
    }

    open spec fn delimited() -> bool {
        String::delimited()
    }

    proof fn lemma_round_trip(v: LoginSuccessSpecView, rest: Seq<u8>) {
        reveal(<LoginSuccessSpec as Serialize>::encode);
        reveal(<LoginSuccessSpec as Deserialize>::decode);
        let e0 = UUID4::encode(v.uuid);
        let e1 = String::encode(v.username);
        let data = Self::encode(v) + rest;
        let t2 = rest;
        let t1 = e1 + t2;
        let t0 = e0 + t1;
        let l0 = e0;
        let l1 = l0 + e1;
        lemma_concat_assoc(l0, e1, t2);
        assert(data == t0);
        UUID4::lemma_round_trip(v.uuid, t1);
        lemma_skip_concat(e0, t1);
        String::lemma_round_trip(v.username, t2);
        lemma_skip_more(data, (e0.len()) as int, e1, t2);
    }
}

/// Packets of this size and more are compressed from now on.
#[derive(Debug, Clone, PartialEq)]
pub struct LoginSetCompressionSpec {
    pub threshold: VarInt,
}

/// The mathematical content of a [`LoginSetCompressionSpec`].
pub struct LoginSetCompressionSpecView {
    pub threshold: VarInt,
}

impl DeepView for LoginSetCompressionSpec {
    type V = LoginSetCompressionSpecView;

    open spec fn deep_view(&self) -> LoginSetCompressionSpecView {
        LoginSetCompressionSpecView {
            threshold: self.threshold.deep_view(),
        }
    }
}

impl Serialize for LoginSetCompressionSpec {
    open spec fn serializable(v: LoginSetCompressionSpecView) -> bool {
        VarInt::serializable(v.threshold)
    }

    #[verifier::opaque]
    open spec fn encode(v: LoginSetCompressionSpecView) -> Seq<u8> {
        VarInt::encode(v.threshold)
    }

    fn mc_serialize<S: Serializer>(&self, to: &mut S) -> (r: SerializeResult) {
        proof {
            reveal(<LoginSetCompressionSpec as Serialize>::encode);
        }
        self.threshold.mc_serialize(to)?;
        proof {
            assert(to.written() =~= old(to).written() + Self::encode(self.deep_view()));
        }
        Ok(())
    }
}

impl Deserialize for LoginSetCompressionSpec {
    #[verifier::opaque]
    open spec fn decode(data: Seq<u8>) -> Decoded<LoginSetCompressionSpecView> {
        match VarInt::decode(data) {
            Err(e) => Err(e),
            Ok((threshold, n0)) => Ok((LoginSetCompressionSpecView { threshold }, n0)),
        }
    }

    fn mc_deserialize(data: &[u8]) -> (r: DeserializeResult<'_, LoginSetCompressionSpec>) {
        proof {
            reveal(<LoginSetCompressionSpec as Deserialize>::decode);
        }
        let Deserialized { value: threshold, data: rest0 } = VarInt::mc_deserialize(data)?;
        Ok(Deserialized { value: LoginSetCompressionSpec { threshold }, data: rest0 })
    }
}

impl ProtocolType for LoginSetCompressionSpec {
    open spec fn faithful(v: LoginSetCompressionSpecView) -> bool {
        VarInt::faithful(v.threshold)
    }

    open spec fn delimited() -> bool {
        VarInt::delimited()
    }

    proof fn lemma_round_trip(v: LoginSetCompressionSpecView, rest: Seq<u8>) {
        reveal(<LoginSetCompressionSpec as Serialize>::encode);
        reveal(<LoginSetCompressionSpec as Deserialize>::decode);
        let e0 = VarInt::encode(v.threshold);
        let data = Self::encode(v) + rest;
        let t1 = rest;
        let t0 = e0 + t1;
        VarInt::lemma_round_trip(v.threshold, t1);
        lemma_skip_concat(e0, t1);
    }
}

/// A question to the client on a named channel.
#[derive(Debug, Clone, PartialEq)]
pub struct LoginPluginRequestSpec {
    pub message_id: VarInt,
    pub channel: String,
    pub data: RemainingBytes,
}

/// The mathematical content of a [`LoginPluginRequestSpec`].
pub struct LoginPluginRequestSpecView {
    pub message_id: VarInt,
    pub channel: Seq<char>,
    pub data: Seq<u8>,
}

impl DeepView for LoginPluginRequestSpec {
    type V = LoginPluginRequestSpecView;

    open spec fn deep_view(&self) -> LoginPluginRequestSpecView {
        LoginPluginRequestSpecView {
            message_id: self.message_id.deep_view(),
            channel: self.channel.deep_view(),
            data: self.data.deep_view(),
        }
    }
}

impl Serialize for LoginPluginRequestSpec {
    open spec fn serializable(v: LoginPluginRequestSpecView) -> bool {
        VarInt::serializable(v.message_id) && String::serializable(v.channel) && RemainingBytes::serializable(v.data)
    }

    #[verifier::opaque]
    open spec fn encode(v: LoginPluginRequestSpecView) -> Seq<u8> {
        VarInt::encode(v.message_id) + String::encode(v.channel) + RemainingBytes::encode(v.data)
    }

    fn mc_serialize<S: Serializer>(&self, to: &mut S) -> (r: SerializeResult) {
        proof {
            reveal(<LoginPluginRequestSpec as Serialize>::encode);
        }
        self.message_id.mc_serialize(to)?;
        self.channel.mc_serialize(to)?;
        self.data.mc_serialize(to)?;
        proof {
            let v = self.deep_view();
            let w = old(to).written();
            let e0 = VarInt::encode(v.message_id);
            let e1 = String::encode(v.channel);
            let e2 = RemainingBytes::encode(v.data);
            let l0 = e0;
            let l1 = l0 + e1;
            let l2 = l1 + e2;
            lemma_concat_assoc(w, l0, e1);
            lemma_concat_assoc(w, l1, e2);
        }
        Ok(())
    }
}

impl Deserialize for LoginPluginRequestSpec {
    #[verifier::opaque]
    open spec fn decode(data: Seq<u8>) -> Decoded<LoginPluginRequestSpecView> {
        match VarInt::decode(data) {
            Err(e) => Err(e),
            Ok((message_id, n0)) => {
                match String::decode(data.skip((n0) as int)) {
                    Err(e) => Err(e),
                    Ok((channel, n1)) => {
                        match RemainingBytes::decode(data.skip((n0 + n1) as int)) {
                            Err(e) => Err(e),
                            Ok((data, n2)) => Ok((LoginPluginRequestSpecView { message_id, channel, data }, n0 + n1 + n2)),
                        }
                    },
                }
            },
        }
    }

    fn mc_deserialize(data: &[u8]) -> (r: DeserializeResult<'_, LoginPluginRequestSpec>) {
        proof {
            reveal(<LoginPluginRequestSpec as Deserialize>::decode);
        }
        let ghost whole = data@;
        let Deserialized { value: message_id, data: rest0 } = VarInt::mc_deserialize(data)?;
        let Deserialized { value: channel, data: rest1 } = String::mc_deserialize(rest0)?;
        proof {
            lemma_skip_skip(
                whole,
                whole.len() - rest0@.len(),
                rest0@.len() - rest1@.len(),
            );
        }
        let Deserialized { value: data, data: rest2 } = RemainingBytes::mc_deserialize(rest1)?;
        proof {
            lemma_skip_skip(
                whole,
                whole.len() - rest1@.len(),
                rest1@.len() - rest2@.len(),
            );
        }
        Ok(Deserialized { value: LoginPluginRequestSpec { message_id, channel, data }, data: rest2 })
    }
}

impl ProtocolType for LoginPluginRequestSpec {
    open spec fn faithful(v: LoginPluginRequestSpecView) -> bool {
        VarInt::faithful(v.message_id) && String::faithful(v.channel) && RemainingBytes::faithful(v.data)
    }

    open spec fn delimited() -> bool {
        RemainingBytes::delimited()
    }

    proof fn lemma_round_trip(v: LoginPluginRequestSpecView, rest: Seq<u8>) {
        reveal(<LoginPluginRequestSpec as Serialize>::encode);
        reveal(<LoginPluginRequestSpec as Deserialize>::decode);
        let e0 = VarInt::encode(v.message_id);
        let e1 = String::encode(v.channel);
        let e2 = RemainingBytes::encode(v.data);
        let data = Self::encode(v) + rest;
        let t3 = rest;
        let t2 = e2 + t3;
        let t1 = e1 + t2;
        let t0 = e0 + t1;
        let l0 = e0;
        let l1 = l0 + e1;
        let l2 = l1 + e2;
        lemma_concat_assoc(l1, e2, t3);
        lemma_concat_assoc(l0, e1, t2);
        assert(data == t0);
        VarInt::lemma_round_trip(v.message_id, t1);
        lemma_skip_concat(e0, t1);
        String::lemma_round_trip(v.channel, t2);
        lemma_skip_more(data, (e0.len()) as int, e1, t2);
        RemainingBytes::lemma_round_trip(v.data, t3);
        lemma_skip_more(data, (e0.len() + e1.len()) as int, e2, t3);
    }
}

/// The client starts the login under a name.
#[derive(Debug, Clone, PartialEq)]
pub struct LoginStartSpec {
    pub name: String,
}

/// The mathematical content of a [`LoginStartSpec`].
pub struct LoginStartSpecView {
    pub name: Seq<char>,
}

impl DeepView for LoginStartSpec {
    type V = LoginStartSpecView;

    open spec fn deep_view(&self) -> LoginStartSpecView {
        LoginStartSpecView {
            name: self.name.deep_view(),
        }
    }
}

impl Serialize for LoginStartSpec {
    open spec fn serializable(v: LoginStartSpecView) -> bool {
        String::serializable(v.name)
    }

    #[verifier::opaque]
    open spec fn encode(v: LoginStartSpecView) -> Seq<u8> {
        String::encode(v.name)
    }

    fn mc_serialize<S: Serializer>(&self, to: &mut S) -> (r: SerializeResult) {
        proof {
            reveal(<LoginStartSpec as Serialize>::encode);
        }
        self.name.mc_serialize(to)?;
        proof {
            assert(to.written() =~= old(to).written() + Self::encode(self.deep_view()));
        }
        Ok(())
    }
}

impl Deserialize for LoginStartSpec {
    #[verifier::opaque]
    open spec fn decode(data: Seq<u8>) -> Decoded<LoginStartSpecView> {
        match String::decode(data) {
            Err(e) => Err(e),
            Ok((name, n0)) => Ok((LoginStartSpecView { name }, n0)),
        }
    }

    fn mc_deserialize(data: &[u8]) -> (r: DeserializeResult<'_, LoginStartSpec>) {
        proof {
            reveal(<LoginStartSpec as Deserialize>::decode);
        }
        let Deserialized { value: name, data: rest0 } = String::mc_deserialize(data)?;
        Ok(Deserialized { value: LoginStartSpec { name }, data: rest0 })
    }
}

impl ProtocolType for LoginStartSpec {
    open spec fn faithful(v: LoginStartSpecView) -> bool {
        String::faithful(v.name)
    }

    open spec fn delimited() -> bool {
        String::delimited()
    }

    proof fn lemma_round_trip(v: LoginStartSpecView, rest: Seq<u8>) {
        reveal(<LoginStartSpec as Serialize>::encode);
        reveal(<LoginStartSpec as Deserialize>::decode);
        let e0 = String::encode(v.name);
        let data = Self::encode(v) + rest;
        let t1 = rest;
        let t0 = e0 + t1;
        String::lemma_round_trip(v.name, t1);
        lemma_skip_concat(e0, t1);
    }
}

/// The client's answer to the encryption request.
#[derive(Debug, Clone, PartialEq)]
pub struct LoginEncryptionResponseSpec {
    pub shared_secret: CountedArray<u8, VarInt>,
    pub verify_token: CountedArray<u8, VarInt>,
}

/// The mathematical content of a [`LoginEncryptionResponseSpec`].
pub struct LoginEncryptionResponseSpecView {
    pub shared_secret: Seq<u8>,
    pub verify_token: Seq<u8>,
}

impl DeepView for LoginEncryptionResponseSpec {
    type V = LoginEncryptionResponseSpecView;

    open spec fn deep_view(&self) -> LoginEncryptionResponseSpecView {
        LoginEncryptionResponseSpecView {
            shared_secret: self.shared_secret.deep_view(),
            verify_token: self.verify_token.deep_view(),
        }
    }
}

impl Serialize for LoginEncryptionResponseSpec {
    open spec fn serializable(v: LoginEncryptionResponseSpecView) -> bool {
        <CountedArray<u8, VarInt>>::serializable(v.shared_secret) && <CountedArray<u8, VarInt>>::serializable(v.verify_token)
    }

    #[verifier::opaque]
    open spec fn encode(v: LoginEncryptionResponseSpecView) -> Seq<u8> {
        <CountedArray<u8, VarInt>>::encode(v.shared_secret) + <CountedArray<u8, VarInt>>::encode(v.verify_token)
    }

    fn mc_serialize<S: Serializer>(&self, to: &mut S) -> (r: SerializeResult) {
        proof {
            reveal(<LoginEncryptionResponseSpec as Serialize>::encode);
        }
        self.shared_secret.mc_serialize(to)?;
        self.verify_token.mc_serialize(to)?;
        proof {
            assert(to.written() =~= old(to).written() + Self::encode(self.deep_view()));
        }
        Ok(())
    }
}

impl Deserialize for LoginEncryptionResponseSpec {
    #[verifier::opaque]
    open spec fn decode(data: Seq<u8>) -> Decoded<LoginEncryptionResponseSpecView> {
        match <CountedArray<u8, VarInt>>::decode(data) {
            Err(e) => Err(e),
            Ok((shared_secret, n0)) => {
                match <CountedArray<u8, VarInt>>::decode(data.skip((n0) as int)) {
                    Err(e) => Err(e),
                    Ok((verify_token, n1)) => Ok((LoginEncryptionResponseSpecView { shared_secret, verify_token }, n0 + n1)),
                }
            },
        }
    }

    fn mc_deserialize(data: &[u8]) -> (r: DeserializeResult<'_, LoginEncryptionResponseSpec>) {
        proof {
            reveal(<LoginEncryptionResponseSpec as Deserialize>::decode);
        }
        let ghost whole = data@;
        let Deserialized { value: shared_secret, data: rest0 } = <CountedArray<u8, VarInt>>::mc_deserialize(data)?;
        let Deserialized { value: verify_token, data: rest1 } = <CountedArray<u8, VarInt>>::mc_deserialize(rest0)?;
        proof {
            lemma_skip_skip(
                whole,
                whole.len() - rest0@.len(),
                rest0@.len() - rest1@.len(),
            );
        }
        Ok(Deserialized { value: LoginEncryptionResponseSpec { shared_secret, verify_token }, data: rest1 })
    }
}

impl ProtocolType for LoginEncryptionResponseSpec {
    open spec fn faithful(v: LoginEncryptionResponseSpecView) -> bool {
        <CountedArray<u8, VarInt>>::faithful(v.shared_secret) && <CountedArray<u8, VarInt>>::faithful(v.verify_token)
    }

    open spec fn delimited() -> bool {
        <CountedArray<u8, VarInt>>::delimited()
    }

    proof fn lemma_round_trip(v: LoginEncryptionResponseSpecView, rest: Seq<u8>) {
        reveal(<LoginEncryptionResponseSpec as Serialize>::encode);
        reveal(<LoginEncryptionResponseSpec as Deserialize>::decode);
        let e0 = <CountedArray<u8, VarInt>>::encode(v.shared_secret);
        let e1 = <CountedArray<u8, VarInt>>::encode(v.verify_token);
        let data = Self::encode(v) + rest;
        let t2 = rest;
        let t1 = e1 + t2;
        let t0 = e0 + t1;
        let l0 = e0;
        let l1 = l0 + e1;
        lemma_concat_assoc(l0, e1, t2);
        assert(data == t0);
        <CountedArray<u8, VarInt>>::lemma_round_trip(v.shared_secret, t1);
        lemma_skip_concat(e0, t1);
        <CountedArray<u8, VarInt>>::lemma_round_trip(v.verify_token, t2);
        lemma_skip_more(data, (e0.len()) as int, e1, t2);
    }
}

/// The client's answer on a named channel.
#[derive(Debug, Clone, PartialEq)]
pub struct LoginPluginResponseSpec {
    pub message_id: VarInt,
    pub successful: bool,
    pub data: RemainingBytes,
}

/// The mathematical content of a [`LoginPluginResponseSpec`].
pub struct LoginPluginResponseSpecView {
    pub message_id: VarInt,
    pub successful: bool,
    pub data: Seq<u8>,
}

impl DeepView for LoginPluginResponseSpec {
    type V = LoginPluginResponseSpecView;

    open spec fn deep_view(&self) -> LoginPluginResponseSpecView {
        LoginPluginResponseSpecView {
            message_id: self.message_id.deep_view(),
            successful: self.successful.deep_view(),
            data: self.data.deep_view(),
        }
    }
}

impl Serialize for LoginPluginResponseSpec {
    open spec fn serializable(v: LoginPluginResponseSpecView) -> bool {
        VarInt::serializable(v.message_id) && bool::serializable(v.successful) && RemainingBytes::serializable(v.data)
    }

    #[verifier::opaque]
    open spec fn encode(v: LoginPluginResponseSpecView) -> Seq<u8> {
        VarInt::encode(v.message_id) + bool::encode(v.successful) + RemainingBytes::encode(v.data)
    }

    fn mc_serialize<S: Serializer>(&self, to: &mut S) -> (r: SerializeResult) {
        proof {
            reveal(<LoginPluginResponseSpec as Serialize>::encode);
        }
        self.message_id.mc_serialize(to)?;
        self.successful.mc_serialize(to)?;
        self.data.mc_serialize(to)?;
        proof {
            let v = self.deep_view();
            let w = old(to).written();
            let e0 = VarInt::encode(v.message_id);
            let e1 = bool::encode(v.successful);
            let e2 = RemainingBytes::encode(v.data);
            let l0 = e0;
            let l1 = l0 + e1;
            let l2 = l1 + e2;
            lemma_concat_assoc(w, l0, e1);
            lemma_concat_assoc(w, l1, e2);
        }
        Ok(())
    }
}

impl Deserialize for LoginPluginResponseSpec {
    #[verifier::opaque]
    open spec fn decode(data: Seq<u8>) -> Decoded<LoginPluginResponseSpecView> {
        match VarInt::decode(data) {
            Err(e) => Err(e),
            Ok((message_id, n0)) => {
                match bool::decode(data.skip((n0) as int)) {
                    Err(e) => Err(e),
                    Ok((successful, n1)) => {
                        match RemainingBytes::decode(data.skip((n0 + n1) as int)) {
                            Err(e) => Err(e),
                            Ok((data, n2)) => Ok((LoginPluginResponseSpecView { message_id, successful, data }, n0 + n1 + n2)),
                        }
                    },
                }
            },
        }
    }

    fn mc_deserialize(data: &[u8]) -> (r: DeserializeResult<'_, LoginPluginResponseSpec>) {
        proof {
            reveal(<LoginPluginResponseSpec as Deserialize>::decode);
        }
        let ghost whole = data@;
        let Deserialized { value: message_id, data: rest0 } = VarInt::mc_deserialize(data)?;
        let Deserialized { value: successful, data: rest1 } = bool::mc_deserialize(rest0)?;
        proof {
            lemma_skip_skip(
                whole,
                whole.len() - rest0@.len(),
                rest0@.len() - rest1@.len(),
            );
        }
        let Deserialized { value: data, data: rest2 } = RemainingBytes::mc_deserialize(rest1)?;
        proof {
            lemma_skip_skip(
                whole,
                whole.len() - rest1@.len(),
                rest1@.len() - rest2@.len(),
            );
        }
        Ok(Deserialized { value: LoginPluginResponseSpec { message_id, successful, data }, data: rest2 })
    }
}

impl ProtocolType for LoginPluginResponseSpec {
    open spec fn faithful(v: LoginPluginResponseSpecView) -> bool {
        VarInt::faithful(v.message_id) && bool::faithful(v.successful) && RemainingBytes::faithful(v.data)
    }

    open spec fn delimited() -> bool {
        RemainingBytes::delimited()
    }

    proof fn lemma_round_trip(v: LoginPluginResponseSpecView, rest: Seq<u8>) {
        reveal(<LoginPluginResponseSpec as Serialize>::encode);
        reveal(<LoginPluginResponseSpec as Deserialize>::decode);
        let e0 = VarInt::encode(v.message_id);
        let e1 = bool::encode(v.successful);
        let e2 = RemainingBytes::encode(v.data);
        let data = Self::encode(v) + rest;
        let t3 = rest;
        let t2 = e2 + t3;
        let t1 = e1 + t2;
        let t0 = e0 + t1;
        let l0 = e0;
        let l1 = l0 + e1;
        let l2 = l1 + e2;
        lemma_concat_assoc(l1, e2, t3);
        lemma_concat_assoc(l0, e1, t2);
        assert(data == t0);
        VarInt::lemma_round_trip(v.message_id, t1);
        lemma_skip_concat(e0, t1);
        bool::lemma_round_trip(v.successful, t2);
        lemma_skip_more(data, (e0.len()) as int, e1, t2);
        RemainingBytes::lemma_round_trip(v.data, t3);
        lemma_skip_more(data, (e0.len() + e1.len()) as int, e2, t3);
    }
}

/// The stage that a handshake asks for.
#[derive(PartialEq, Eq, Structural, Clone, Copy, Debug)]
pub enum HandshakeNextState {
    Status,
    Login,
}

impl View for HandshakeNextState {
    type V = HandshakeNextState;

    open spec fn view(&self) -> HandshakeNextState {
        *self
    }
}

impl DeepView for HandshakeNextState {
    type V = HandshakeNextState;

    open spec fn deep_view(&self) -> HandshakeNextState {
        *self
    }
}

impl HandshakeNextState {
    pub fn variant_count() -> (r: usize)
        ensures
            r == 2,
    {
        2
    }

    /// The number that stands for the variant on the wire.
    pub open spec fn id_of(v: HandshakeNextState) -> u8 {
        match v {
            HandshakeNextState::Status => 0x01,
            HandshakeNextState::Login => 0x02,
        }
    }

    pub fn id(&self) -> (r: u8)
        ensures
            r == Self::id_of(self.deep_view()),
    {
        match self {
            HandshakeNextState::Status => 0x01,
            HandshakeNextState::Login => 0x02,
        }
    }

    pub open spec fn name_of(v: HandshakeNextState) -> Seq<char> {
        match v {
            HandshakeNextState::Status => "Status"@,
            HandshakeNextState::Login => "Login"@,
        }
    }

    pub fn name(&self) -> (r: &'static str)
        ensures
            r@ == Self::name_of(self.deep_view()),
    {
        match self {
            HandshakeNextState::Status => "Status",
            HandshakeNextState::Login => "Login",
        }
    }

    /// The bytes that follow the number.
    pub open spec fn body_of(v: HandshakeNextState) -> Seq<u8> {
        match v {
            HandshakeNextState::Status => Seq::empty(),
            HandshakeNextState::Login => Seq::empty(),
        }
    }

    /// Whether what follows the number can be written.
    pub open spec fn body_writable(v: HandshakeNextState) -> bool {
        match v {
            HandshakeNextState::Status => true,
            HandshakeNextState::Login => true,
        }
    }

    /// The variant that `id` stands for, with its body read from `data`.
    pub open spec fn decode_with_id(id: u8, data: Seq<u8>) -> Decoded<HandshakeNextState> {
        if id == 0x01 {
            Ok((HandshakeNextState::Status, 0))
        } else if id == 0x02 {
            Ok((HandshakeNextState::Login, 0))
        } else {
            Err(DecodeFailure::CannotUnderstandValue)
        }
    }

    /// Whether `id` stands for a variant.
    pub open spec fn has_id(id: u8) -> bool {
        id == 0x01
            || id == 0x02
    }

    /// Picks the variant for `id` and reads its body from `data`. A number
    /// that stands for no variant is refused, and the error says which.
    pub fn deserialize_with_id<'a>(id: u8, data: &'a [u8]) -> (r: DeserializeResult<'a, Self>)
        ensures
            agrees(r, data@, Self::decode_with_id(id, data@)),
            !Self::has_id(id) ==> (r matches Err(DeserializeErr::CannotUnderstandValue(m))
                && m@ == invalid_message("HandshakeNextState"@, id as nat)),
    {
        proof {
            assert(data@.skip(0) =~= data@);
        }
        match id {
            0x01 => Ok(Deserialized { value: HandshakeNextState::Status, data }),
            0x02 => Ok(Deserialized { value: HandshakeNextState::Login, data }),
            other => Err(DeserializeErr::CannotUnderstandValue(invalid_value_message("HandshakeNextState", other as u64))),
        }
    }

    /// Writes what follows the number.
    pub fn serialize_body<S: Serializer>(&self, to: &mut S) -> (r: SerializeResult)
        ensures
            r is Ok ==> Self::body_writable(self.deep_view()) && final(to).written() == old(
                to,
            ).written() + Self::body_of(self.deep_view()),
            old(to).infallible() ==> final(to).infallible(),
            old(to).infallible() ==> (r is Ok <==> Self::body_writable(self.deep_view())),
            old(to).infallible() && r is Err ==> (r matches Err(SerializeErr::CannotSerialize(_))),
    {
        match self {
            HandshakeNextState::Status => {
                proof {
                    assert(old(to).written() + Seq::<u8>::empty() =~= old(to).written());
                }
                Ok(())
            },
            HandshakeNextState::Login => {
                proof {
                    assert(old(to).written() + Seq::<u8>::empty() =~= old(to).written());
                }
                Ok(())
            },
        }
    }
}

impl Serialize for HandshakeNextState {
    open spec fn serializable(v: HandshakeNextState) -> bool {
        Self::body_writable(v)
    }

    #[verifier::opaque]
    open spec fn encode(v: HandshakeNextState) -> Seq<u8> {
        <u8>::encode(Self::id_of(v)) + Self::body_of(v)
    }

    fn mc_serialize<S: Serializer>(&self, to: &mut S) -> (r: SerializeResult) {
        proof {
            reveal(<HandshakeNextState as Serialize>::encode);
        }
        let id_to_serialize: u8 = self.id();
        id_to_serialize.mc_serialize(to)?;
        let r = self.serialize_body(to);
        proof {
            let head = <u8>::encode(Self::id_of(self.deep_view()));
            let body = Self::body_of(self.deep_view());
            lemma_concat_assoc(old(to).written(), head, body);
        }
        r
    }
}

impl Deserialize for HandshakeNextState {
    #[verifier::opaque]
    open spec fn decode(data: Seq<u8>) -> Decoded<HandshakeNextState> {
        match <u8>::decode(data) {
            Err(e) => Err(e),
            Ok((id, n)) => match Self::decode_with_id(id, data.skip(n as int)) {
                Ok((v, m)) => Ok((v, n + m)),
                Err(e) => Err(e),
            },
        }
    }

    fn mc_deserialize(data: &[u8]) -> (r: DeserializeResult<'_, HandshakeNextState>) {
        proof {
            reveal(<HandshakeNextState as Deserialize>::decode);
        }
        let Deserialized { value: id, data: rest } = <u8>::mc_deserialize(data)?;
        let Deserialized { value, data: after } = Self::deserialize_with_id(id, rest)?;
        proof {
            lemma_skip_skip(data@, data@.len() - rest@.len(), rest@.len() - after@.len());
        }
        Ok(Deserialized { value, data: after })
    }
}

impl ProtocolType for HandshakeNextState {
    open spec fn faithful(v: HandshakeNextState) -> bool {
        match v {
            HandshakeNextState::Status => true,
            HandshakeNextState::Login => true,
        }
    }

    open spec fn delimited() -> bool {
        true
    }

    proof fn lemma_round_trip(v: HandshakeNextState, rest: Seq<u8>) {
        reveal(<HandshakeNextState as Serialize>::encode);
        reveal(<HandshakeNextState as Deserialize>::decode);
        let head = <u8>::encode(Self::id_of(v));
        let body = Self::body_of(v);
        <u8>::lemma_round_trip(Self::id_of(v), body + rest);
        Self::lemma_body_round_trip(v, rest);
        lemma_concat_assoc(head, body, rest);
        lemma_skip_concat(head, body + rest);
    }
}

impl HandshakeNextState {
    /// What follows the number, written out and followed by anything, reads
    /// back under that number.
    pub proof fn lemma_body_round_trip(v: HandshakeNextState, rest: Seq<u8>)
        requires
            <Self as ProtocolType>::faithful(v),
            <Self as ProtocolType>::delimited() || rest.len() == 0,
        ensures
            Self::body_writable(v),
            Self::decode_with_id(Self::id_of(v), Self::body_of(v) + rest) == Ok::<_, DecodeFailure>(
                (v, Self::body_of(v).len()),
            ),
    {
        match v {
            HandshakeNextState::Status => {
                assert(Seq::<u8>::empty() + rest =~= rest);
            },
            HandshakeNextState::Login => {
                assert(Seq::<u8>::empty() + rest =~= rest);
            },
        }
    }
}

/// Where a block sits in its chunk column, seen from above: two numbers
/// below 16, packed into one byte.
#[derive(Copy, Clone, PartialEq, Debug)]
pub struct BlockChangeHorizontalPosition {
    pub rel_x: u8,
    pub rel_z: u8,
}

impl View for BlockChangeHorizontalPosition {
    type V = BlockChangeHorizontalPosition;

    open spec fn view(&self) -> BlockChangeHorizontalPosition {
        *self
    }
}

impl DeepView for BlockChangeHorizontalPosition {
    type V = BlockChangeHorizontalPosition;

    open spec fn deep_view(&self) -> BlockChangeHorizontalPosition {
        *self
    }
}

proof fn lemma_nibble_pair(x: u8, z: u8, b: u8)
    by (bit_vector)
    ensures
        (x & 0xF) << 4 | (z & 0xF) == (x % 16) * 16 + z % 16,
        (b >> 4) & 0xF == b / 16,
        b & 0xF == b % 16,
{
}

impl Serialize for BlockChangeHorizontalPosition {
    open spec fn serializable(v: BlockChangeHorizontalPosition) -> bool {
        true
    }

    /// One byte: the low four bits of `rel_x` above the low four of `rel_z`.
    open spec fn encode(v: BlockChangeHorizontalPosition) -> Seq<u8> {
        seq![((v.rel_x % 16) * 16 + v.rel_z % 16) as u8]
    }

    fn mc_serialize<S: Serializer>(&self, to: &mut S) -> (r: SerializeResult) {
        proof {
            reveal(<u8 as Serialize>::encode);
            lemma_nibble_pair(self.rel_x, self.rel_z, 0);
        }
        let r = to.serialize_byte((self.rel_x & 0xF) << 4 | (self.rel_z & 0xF));
        proof {
            assert(old(to).written().push(((self.rel_x % 16) * 16 + self.rel_z % 16) as u8)
                =~= old(to).written() + Self::encode(*self));
        }
        r
    }
}

impl Deserialize for BlockChangeHorizontalPosition {
    open spec fn decode(data: Seq<u8>) -> Decoded<BlockChangeHorizontalPosition> {
        if data.len() < 1 {
            Err(DecodeFailure::Eof)
        } else {
            Ok((BlockChangeHorizontalPosition { rel_x: data[0] / 16, rel_z: data[0] % 16 }, 1))
        }
    }

    fn mc_deserialize(data: &[u8]) -> (r: DeserializeResult<'_, BlockChangeHorizontalPosition>) {
        proof {
            reveal(<u8 as Deserialize>::decode);
        }
        let Deserialized { value: b, data: rest } = u8::mc_deserialize(data)?;
        proof {
            lemma_nibble_pair(0, 0, b);
        }
        Ok(
            Deserialized {
                value: BlockChangeHorizontalPosition { rel_x: (b >> 4) & 0xF, rel_z: b & 0xF },
                data: rest,
            },
        )
    }
}

impl ProtocolType for BlockChangeHorizontalPosition {
    /// Both numbers have to fit four bits.
    open spec fn faithful(v: BlockChangeHorizontalPosition) -> bool {
        v.rel_x < 16 && v.rel_z < 16
    }

    open spec fn delimited() -> bool {
        true
    }

    proof fn lemma_round_trip(v: BlockChangeHorizontalPosition, rest: Seq<u8>) {
        reveal(<u8 as Serialize>::encode);
        reveal(<u8 as Deserialize>::decode);
    }
}

/// The position of a chunk section: `x` and `z` in 22 bits each and `y` in
/// 20, packed into one 64-bit number. The fields carry no sign.
#[derive(Debug, Clone, PartialEq, Copy)]
pub struct ChunkSectionPosition {
    pub x: i32,
    pub y: i32,
    pub z: i32,
}

impl View for ChunkSectionPosition {
    type V = ChunkSectionPosition;

    open spec fn view(&self) -> ChunkSectionPosition {
        *self
    }
}

impl DeepView for ChunkSectionPosition {
    type V = ChunkSectionPosition;

    open spec fn deep_view(&self) -> ChunkSectionPosition {
        *self
    }
}

/// The 64-bit number that carries a section position: the low 22 bits of
/// `x` on top, then those of `z`, then the low 20 bits of `y`.
pub open spec fn packed_section(p: ChunkSectionPosition) -> nat {
    ((p.x as int % 0x40_0000) * 0x400_0000_0000 + (p.z as int % 0x40_0000) * 0x10_0000 + (p.y as int
        % 0x10_0000)) as nat
}

/// The section position that a 64-bit number carries.
pub open spec fn unpacked_section(raw: nat) -> ChunkSectionPosition {
    ChunkSectionPosition {
        x: (raw / 0x400_0000_0000) as i32,
        y: (raw % 0x10_0000) as i32,
        z: ((raw / 0x10_0000) % 0x40_0000) as i32,
    }
}

proof fn lemma_section_fields(x: i32, y: i32, z: i32)
    by (bit_vector)
    ensures
        (((x as u64) & 0x3FFFFF) << 42) | (((z as u64) & 0x3FFFFF) << 20) | ((y as u64) & 0xFFFFF)
            == ((x as u32) % 0x40_0000) * 0x400_0000_0000 + ((z as u32) % 0x40_0000) * 0x10_0000 + (
        y as u32) % 0x10_0000,
{
}

/// The low bits of a number are those of its two's complement pattern.
proof fn lemma_low_bits(c: i32)
    ensures
        (c as u32) % 0x40_0000 == c as int % 0x40_0000,
        (c as u32) % 0x10_0000 == c as int % 0x10_0000,
{
    lemma_pattern_i32(c, 0);
    if c < 0 {
        vstd::arithmetic::div_mod::lemma_mod_multiples_vanish(1024, c as int, 0x40_0000);
        vstd::arithmetic::div_mod::lemma_mod_multiples_vanish(4096, c as int, 0x10_0000);
    }
}

proof fn lemma_section_unpack(raw: u64)
    by (bit_vector)
    ensures
        (raw & 0xFFFFF) as i32 == raw % 0x10_0000,
        ((raw >> 20) & 0x3FFFFF) as i32 == (raw / 0x10_0000) % 0x40_0000,
        ((raw >> 42) & 0x3FFFFF) as i32 == raw / 0x400_0000_0000,
{
}

impl Serialize for ChunkSectionPosition {
    open spec fn serializable(v: ChunkSectionPosition) -> bool {
        true
    }

    open spec fn encode(v: ChunkSectionPosition) -> Seq<u8> {
        be_bytes(packed_section(v), 8)
    }

    fn mc_serialize<S: Serializer>(&self, to: &mut S) -> (r: SerializeResult) {
        proof {
            reveal(<u64 as Serialize>::encode);
            lemma_section_fields(self.x, self.y, self.z);
            lemma_low_bits(self.x);
            lemma_low_bits(self.y);
            lemma_low_bits(self.z);
        }
        let num = (((self.x as u64) & 0x3FFFFF) << 42) | (((self.z as u64) & 0x3FFFFF) << 20) | ((
        self.y as u64) & 0xFFFFF);
        num.mc_serialize(to)
    }
}

impl Deserialize for ChunkSectionPosition {
    open spec fn decode(data: Seq<u8>) -> Decoded<ChunkSectionPosition> {
        if data.len() < 8 {
            Err(DecodeFailure::Eof)
        } else {
            Ok((unpacked_section(be_value(data.take(8))), 8))
        }
    }

    fn mc_deserialize(data: &[u8]) -> (r: DeserializeResult<'_, ChunkSectionPosition>) {
        proof {
            reveal(<u64 as Deserialize>::decode);
        }
        let Deserialized { value: raw, data: rest } = u64::mc_deserialize(data)?;
        proof {
            lemma_section_unpack(raw);
            crate::byte_order::lemma_be_value_bound(data@.take(8));
            lemma_radix_values();
        }
        let y = #[verifier::truncate] ((raw & 0xFFFFF) as i32);
        let z = #[verifier::truncate] (((raw >> 20) & 0x3FFFFF) as i32);
        let x = #[verifier::truncate] (((raw >> 42) & 0x3FFFFF) as i32);
        Ok(Deserialized { value: ChunkSectionPosition { x, y, z }, data: rest })
    }
}

impl ProtocolType for ChunkSectionPosition {
    /// Each coordinate has to fit its field, which has no sign.
    open spec fn faithful(v: ChunkSectionPosition) -> bool {
        &&& 0 <= v.x < 0x40_0000
        &&& 0 <= v.z < 0x40_0000
        &&& 0 <= v.y < 0x10_0000
    }

    open spec fn delimited() -> bool {
        true
    }

    proof fn lemma_round_trip(v: ChunkSectionPosition, rest: Seq<u8>) {
        reveal(<u64 as Serialize>::encode);
        reveal(<u64 as Deserialize>::decode);
        let raw = packed_section(v) as int;
        vstd::arithmetic::div_mod::lemma_fundamental_div_mod_converse(
            raw,
            0x400_0000_0000,
            v.x as int,
            v.z * 0x10_0000 + v.y,
        );
        vstd::arithmetic::div_mod::lemma_fundamental_div_mod_converse(
            raw,
            0x10_0000,
            v.x * 0x40_0000 + v.z,
            v.y as int,
        );
        vstd::arithmetic::div_mod::lemma_fundamental_div_mod_converse(
            v.x * 0x40_0000 + v.z,
            0x40_0000,
            v.x as int,
            v.z as int,
        );
        lemma_radix_values();
        lemma_fixed_round_trip(packed_section(v), 8, rest);
    }
}

/// How a player takes part in the world.
#[derive(PartialEq, Eq, Structural, Clone, Copy, Debug)]
pub enum GameMode {
    Survival,
    Creative,
    Adventure,
    Spectator,
}

impl View for GameMode {
    type V = GameMode;

    open spec fn view(&self) -> GameMode {
        *self
    }
}

impl DeepView for GameMode {
    type V = GameMode;

    open spec fn deep_view(&self) -> GameMode {
        *self
    }
}

impl GameMode {
    pub fn variant_count() -> (r: usize)
        ensures
            r == 4,
    {
        4
    }

    /// The number that stands for the variant on the wire.
    pub open spec fn id_of(v: GameMode) -> u8 {
        match v {
            GameMode::Survival => 0x00,
            GameMode::Creative => 0x01,
            GameMode::Adventure => 0x02,
            GameMode::Spectator => 0x03,
        }
    }

    pub fn id(&self) -> (r: u8)
        ensures
            r == Self::id_of(self.deep_view()),
    {
        match self {
            GameMode::Survival => 0x00,
            GameMode::Creative => 0x01,
            GameMode::Adventure => 0x02,
            GameMode::Spectator => 0x03,
        }
    }

    pub open spec fn name_of(v: GameMode) -> Seq<char> {
        match v {
            GameMode::Survival => "Survival"@,
            GameMode::Creative => "Creative"@,
            GameMode::Adventure => "Adventure"@,
            GameMode::Spectator => "Spectator"@,
        }
    }

    pub fn name(&self) -> (r: &'static str)
        ensures
            r@ == Self::name_of(self.deep_view()),
    {
        match self {
            GameMode::Survival => "Survival",
            GameMode::Creative => "Creative",
            GameMode::Adventure => "Adventure",
            GameMode::Spectator => "Spectator",
        }
    }

    /// The bytes that follow the number.
    pub open spec fn body_of(v: GameMode) -> Seq<u8> {
        match v {
            GameMode::Survival => Seq::empty(),
            GameMode::Creative => Seq::empty(),
            GameMode::Adventure => Seq::empty(),
            GameMode::Spectator => Seq::empty(),
        }
    }

    /// Whether what follows the number can be written.
    pub open spec fn body_writable(v: GameMode) -> bool {
        match v {
            GameMode::Survival => true,
            GameMode::Creative => true,
            GameMode::Adventure => true,
            GameMode::Spectator => true,
        }
    }

    /// The variant that `id` stands for, with its body read from `data`.
    pub open spec fn decode_with_id(id: u8, data: Seq<u8>) -> Decoded<GameMode> {
        if id == 0x00 {
            Ok((GameMode::Survival, 0))
        } else if id == 0x01 {
            Ok((GameMode::Creative, 0))
        } else if id == 0x02 {
            Ok((GameMode::Adventure, 0))
        } else if id == 0x03 {
            Ok((GameMode::Spectator, 0))
        } else {
            Err(DecodeFailure::CannotUnderstandValue)
        }
    }

    /// Whether `id` stands for a variant.
    pub open spec fn has_id(id: u8) -> bool {
        id == 0x00
            || id == 0x01
            || id == 0x02
            || id == 0x03
    }

    /// Picks the variant for `id` and reads its body from `data`. A number
    /// that stands for no variant is refused, and the error says which.
    pub fn deserialize_with_id<'a>(id: u8, data: &'a [u8]) -> (r: DeserializeResult<'a, Self>)
        ensures
            agrees(r, data@, Self::decode_with_id(id, data@)),
            !Self::has_id(id) ==> (r matches Err(DeserializeErr::CannotUnderstandValue(m))
                && m@ == invalid_message("GameMode"@, id as nat)),
    {
        proof {
            assert(data@.skip(0) =~= data@);
        }
        match id {
            0x00 => Ok(Deserialized { value: GameMode::Survival, data }),
            0x01 => Ok(Deserialized { value: GameMode::Creative, data }),
            0x02 => Ok(Deserialized { value: GameMode::Adventure, data }),
            0x03 => Ok(Deserialized { value: GameMode::Spectator, data }),
            other => Err(DeserializeErr::CannotUnderstandValue(invalid_value_message("GameMode", other as u64))),
        }
    }

    /// Writes what follows the number.
    pub fn serialize_body<S: Serializer>(&self, to: &mut S) -> (r: SerializeResult)
        ensures
            r is Ok ==> Self::body_writable(self.deep_view()) && final(to).written() == old(
                to,
            ).written() + Self::body_of(self.deep_view()),
            old(to).infallible() ==> final(to).infallible(),
            old(to).infallible() ==> (r is Ok <==> Self::body_writable(self.deep_view())),
            old(to).infallible() && r is Err ==> (r matches Err(SerializeErr::CannotSerialize(_))),
    {
        match self {
            GameMode::Survival => {
                proof {
                    assert(old(to).written() + Seq::<u8>::empty() =~= old(to).written());
                }
                Ok(())
            },
            GameMode::Creative => {
                proof {
                    assert(old(to).written() + Seq::<u8>::empty() =~= old(to).written());
                }
                Ok(())
            },
            GameMode::Adventure => {
                proof {
                    assert(old(to).written() + Seq::<u8>::empty() =~= old(to).written());
                }
                Ok(())
            },
            GameMode::Spectator => {
                proof {
                    assert(old(to).written() + Seq::<u8>::empty() =~= old(to).written());
                }
                Ok(())
            },
        }
    }
}

impl Serialize for GameMode {
    open spec fn serializable(v: GameMode) -> bool {
        Self::body_writable(v)
    }

    #[verifier::opaque]
    open spec fn encode(v: GameMode) -> Seq<u8> {
        <u8>::encode(Self::id_of(v)) + Self::body_of(v)
    }

    fn mc_serialize<S: Serializer>(&self, to: &mut S) -> (r: SerializeResult) {
        proof {
            reveal(<GameMode as Serialize>::encode);
        }
        let id_to_serialize: u8 = self.id();
        id_to_serialize.mc_serialize(to)?;
        let r = self.serialize_body(to);
        proof {
            let head = <u8>::encode(Self::id_of(self.deep_view()));
            let body = Self::body_of(self.deep_view());
            lemma_concat_assoc(old(to).written(), head, body);
        }
        r
    }
}

impl Deserialize for GameMode {
    #[verifier::opaque]
    open spec fn decode(data: Seq<u8>) -> Decoded<GameMode> {
        match <u8>::decode(data) {
            Err(e) => Err(e),
            Ok((id, n)) => match Self::decode_with_id(id, data.skip(n as int)) {
                Ok((v, m)) => Ok((v, n + m)),
                Err(e) => Err(e),
            },
        }
    }

    fn mc_deserialize(data: &[u8]) -> (r: DeserializeResult<'_, GameMode>) {
        proof {
            reveal(<GameMode as Deserialize>::decode);
        }
        let Deserialized { value: id, data: rest } = <u8>::mc_deserialize(data)?;
        let Deserialized { value, data: after } = Self::deserialize_with_id(id, rest)?;
        proof {
            lemma_skip_skip(data@, data@.len() - rest@.len(), rest@.len() - after@.len());
        }
        Ok(Deserialized { value, data: after })
    }
}

impl ProtocolType for GameMode {
    open spec fn faithful(v: GameMode) -> bool {
        match v {
            GameMode::Survival => true,
            GameMode::Creative => true,
            GameMode::Adventure => true,
            GameMode::Spectator => true,
        }
    }

    open spec fn delimited() -> bool {
        true
    }

    proof fn lemma_round_trip(v: GameMode, rest: Seq<u8>) {
        reveal(<GameMode as Serialize>::encode);
        reveal(<GameMode as Deserialize>::decode);
        let head = <u8>::encode(Self::id_of(v));
        let body = Self::body_of(v);
        <u8>::lemma_round_trip(Self::id_of(v), body + rest);
        Self::lemma_body_round_trip(v, rest);
        lemma_concat_assoc(head, body, rest);
        lemma_skip_concat(head, body + rest);
    }
}

impl GameMode {
    /// What follows the number, written out and followed by anything, reads
    /// back under that number.
    pub proof fn lemma_body_round_trip(v: GameMode, rest: Seq<u8>)
        requires
            <Self as ProtocolType>::faithful(v),
            <Self as ProtocolType>::delimited() || rest.len() == 0,
        ensures
            Self::body_writable(v),
            Self::decode_with_id(Self::id_of(v), Self::body_of(v) + rest) == Ok::<_, DecodeFailure>(
                (v, Self::body_of(v).len()),
            ),
    {
        match v {
            GameMode::Survival => {
                assert(Seq::<u8>::empty() + rest =~= rest);
            },
            GameMode::Creative => {
                assert(Seq::<u8>::empty() + rest =~= rest);
            },
            GameMode::Adventure => {
                assert(Seq::<u8>::empty() + rest =~= rest);
            },
            GameMode::Spectator => {
                assert(Seq::<u8>::empty() + rest =~= rest);
            },
        }
    }
}

/// The game mode that a player had before the present one, if any.
#[derive(Clone, Debug, PartialEq)]
pub enum PreviousGameMode {
    NoPrevious,
    Previous(GameMode),
}

impl View for PreviousGameMode {
    type V = PreviousGameMode;

    open spec fn view(&self) -> PreviousGameMode {
        *self
    }
}

impl DeepView for PreviousGameMode {
    type V = PreviousGameMode;

    open spec fn deep_view(&self) -> PreviousGameMode {
        *self
    }
}

impl PreviousGameMode {
    /// The number on the wire: that of the game mode, or -1 for none.
    pub open spec fn spec_id(&self) -> i8 {
        match self {
            PreviousGameMode::NoPrevious => -1i8,
            PreviousGameMode::Previous(mode) => GameMode::id_of(*mode) as i8,
        }
    }

    #[verifier::when_used_as_spec(spec_id)]
    pub fn id(&self) -> (r: i8)
        ensures
            r == self.spec_id(),
    {
        match self {
            PreviousGameMode::NoPrevious => -1,
            PreviousGameMode::Previous(mode) => mode.id() as i8,
        }
    }

    /// The game mode, if there was one.
    pub fn into_option(self) -> (r: Option<GameMode>)
        ensures
            r == match self {
                PreviousGameMode::NoPrevious => None,
                PreviousGameMode::Previous(mode) => Some(mode),
            },
    {
        match self {
            PreviousGameMode::NoPrevious => None,
            PreviousGameMode::Previous(mode) => Some(mode),
        }
    }
}

impl Serialize for PreviousGameMode {
    open spec fn serializable(v: PreviousGameMode) -> bool {
        true
    }

    open spec fn encode(v: PreviousGameMode) -> Seq<u8> {
        i8::encode(v.spec_id())
    }

    fn mc_serialize<S: Serializer>(&self, to: &mut S) -> (r: SerializeResult) {
        proof {
            reveal(<i8 as Serialize>::encode);
            reveal(<u8 as Serialize>::encode);
        }
        self.id().mc_serialize(to)
    }
}

impl Deserialize for PreviousGameMode {
    open spec fn decode(data: Seq<u8>) -> Decoded<PreviousGameMode> {
        match i8::decode(data) {
            Err(e) => Err(e),
            Ok((id, n)) => if id == -1i8 {
                Ok((PreviousGameMode::NoPrevious, n))
            } else {
                match GameMode::decode_with_id(data[0], data.skip(n as int)) {
                    Ok((mode, m)) => Ok((PreviousGameMode::Previous(mode), n + m)),
                    Err(e) => Err(e),
                }
            },
        }
    }

    fn mc_deserialize(data: &[u8]) -> (r: DeserializeResult<'_, PreviousGameMode>) {
        proof {
            reveal(<i8 as Deserialize>::decode);
            reveal(<u8 as Deserialize>::decode);
        }
        let Deserialized { value: id, data: rest } = i8::mc_deserialize(data)?;
        match id {
            -1 => Ok(Deserialized { value: PreviousGameMode::NoPrevious, data: rest }),
            other => {
                proof {
                    crate::byte_order::lemma_pattern_i8(other, data@[0]);
                    lemma_radix_values();
                }
                let Deserialized { value: gm, data: after } = GameMode::deserialize_with_id(
                    other as u8,
                    rest,
                )?;
                proof {
                    assert(after@ =~= data@.skip(data@.len() - after@.len()));
                }
                Ok(Deserialized { value: PreviousGameMode::Previous(gm), data: after })
            },
        }
    }
}

impl ProtocolType for PreviousGameMode {
    open spec fn faithful(v: PreviousGameMode) -> bool {
        true
    }

    open spec fn delimited() -> bool {
        true
    }

    proof fn lemma_round_trip(v: PreviousGameMode, rest: Seq<u8>) {
        reveal(<i8 as Serialize>::encode);
        reveal(<u8 as Serialize>::encode);
        reveal(<i8 as Deserialize>::decode);
        reveal(<u8 as Deserialize>::decode);
        lemma_radix_values();
        i8::lemma_round_trip(v.spec_id(), rest);
        assert((i8::encode(v.spec_id()) + rest).skip(1) =~= rest);
    }
}

/// Where on an entity a piece of equipment sits.
#[derive(PartialEq, Eq, Structural, Clone, Copy, Debug)]
pub enum EquipmentSlot {
    MainHand,
    OffHand,
    ArmorBoots,
    ArmorLeggings,
    ArmorChestplate,
    ArmorHelmet,
}

impl View for EquipmentSlot {
    type V = EquipmentSlot;

    open spec fn view(&self) -> EquipmentSlot {
        *self
    }
}

impl DeepView for EquipmentSlot {
    type V = EquipmentSlot;

    open spec fn deep_view(&self) -> EquipmentSlot {
        *self
    }
}

impl EquipmentSlot {
    pub fn variant_count() -> (r: usize)
        ensures
            r == 6,
    {
        6
    }

    /// The number that stands for the variant on the wire.
    pub open spec fn id_of(v: EquipmentSlot) -> u8 {
        match v {
            EquipmentSlot::MainHand => 0x00,
            EquipmentSlot::OffHand => 0x01,
            EquipmentSlot::ArmorBoots => 0x02,
            EquipmentSlot::ArmorLeggings => 0x03,
            EquipmentSlot::ArmorChestplate => 0x04,
            EquipmentSlot::ArmorHelmet => 0x05,
        }
    }

    pub fn id(&self) -> (r: u8)
        ensures
            r == Self::id_of(self.deep_view()),
    {
        match self {
            EquipmentSlot::MainHand => 0x00,
            EquipmentSlot::OffHand => 0x01,
            EquipmentSlot::ArmorBoots => 0x02,
            EquipmentSlot::ArmorLeggings => 0x03,
            EquipmentSlot::ArmorChestplate => 0x04,
            EquipmentSlot::ArmorHelmet => 0x05,
        }
    }

    pub open spec fn name_of(v: EquipmentSlot) -> Seq<char> {
        match v {
            EquipmentSlot::MainHand => "MainHand"@,
            EquipmentSlot::OffHand => "OffHand"@,
            EquipmentSlot::ArmorBoots => "ArmorBoots"@,
            EquipmentSlot::ArmorLeggings => "ArmorLeggings"@,
            EquipmentSlot::ArmorChestplate => "ArmorChestplate"@,
            EquipmentSlot::ArmorHelmet => "ArmorHelmet"@,
        }
    }

    pub fn name(&self) -> (r: &'static str)
        ensures
            r@ == Self::name_of(self.deep_view()),
    {
        match self {
            EquipmentSlot::MainHand => "MainHand",
            EquipmentSlot::OffHand => "OffHand",
            EquipmentSlot::ArmorBoots => "ArmorBoots",
            EquipmentSlot::ArmorLeggings => "ArmorLeggings",
            EquipmentSlot::ArmorChestplate => "ArmorChestplate",
            EquipmentSlot::ArmorHelmet => "ArmorHelmet",
        }
    }

    /// The bytes that follow the number.
    pub open spec fn body_of(v: EquipmentSlot) -> Seq<u8> {
        match v {
            EquipmentSlot::MainHand => Seq::empty(),
            EquipmentSlot::OffHand => Seq::empty(),
            EquipmentSlot::ArmorBoots => Seq::empty(),
            EquipmentSlot::ArmorLeggings => Seq::empty(),
            EquipmentSlot::ArmorChestplate => Seq::empty(),
            EquipmentSlot::ArmorHelmet => Seq::empty(),
        }
    }

    /// Whether what follows the number can be written.
    pub open spec fn body_writable(v: EquipmentSlot) -> bool {
        match v {
            EquipmentSlot::MainHand => true,
            EquipmentSlot::OffHand => true,
            EquipmentSlot::ArmorBoots => true,
            EquipmentSlot::ArmorLeggings => true,
            EquipmentSlot::ArmorChestplate => true,
            EquipmentSlot::ArmorHelmet => true,
        }
    }

    /// The variant that `id` stands for, with its body read from `data`.
    pub open spec fn decode_with_id(id: u8, data: Seq<u8>) -> Decoded<EquipmentSlot> {
        if id == 0x00 {
            Ok((EquipmentSlot::MainHand, 0))
        } else if id == 0x01 {
            Ok((EquipmentSlot::OffHand, 0))
        } else if id == 0x02 {
            Ok((EquipmentSlot::ArmorBoots, 0))
        } else if id == 0x03 {
            Ok((EquipmentSlot::ArmorLeggings, 0))
        } else if id == 0x04 {
            Ok((EquipmentSlot::ArmorChestplate, 0))
        } else if id == 0x05 {
            Ok((EquipmentSlot::ArmorHelmet, 0))
        } else {
            Err(DecodeFailure::CannotUnderstandValue)
        }
    }

    /// Whether `id` stands for a variant.
    pub open spec fn has_id(id: u8) -> bool {
        id == 0x00
            || id == 0x01
            || id == 0x02
            || id == 0x03
            || id == 0x04
            || id == 0x05
    }

    /// Picks the variant for `id` and reads its body from `data`. A number
    /// that stands for no variant is refused, and the error says which.
    pub fn deserialize_with_id<'a>(id: u8, data: &'a [u8]) -> (r: DeserializeResult<'a, Self>)
        ensures
            agrees(r, data@, Self::decode_with_id(id, data@)),
            !Self::has_id(id) ==> (r matches Err(DeserializeErr::CannotUnderstandValue(m))
                && m@ == invalid_message("EquipmentSlot"@, id as nat)),
    {
        proof {
            assert(data@.skip(0) =~= data@);
        }
        match id {
            0x00 => Ok(Deserialized { value: EquipmentSlot::MainHand, data }),
            0x01 => Ok(Deserialized { value: EquipmentSlot::OffHand, data }),
            0x02 => Ok(Deserialized { value: EquipmentSlot::ArmorBoots, data }),
            0x03 => Ok(Deserialized { value: EquipmentSlot::ArmorLeggings, data }),
            0x04 => Ok(Deserialized { value: EquipmentSlot::ArmorChestplate, data }),
            0x05 => Ok(Deserialized { value: EquipmentSlot::ArmorHelmet, data }),
            other => Err(DeserializeErr::CannotUnderstandValue(invalid_value_message("EquipmentSlot", other as u64))),
        }
    }

    /// Writes what follows the number.
    pub fn serialize_body<S: Serializer>(&self, to: &mut S) -> (r: SerializeResult)
        ensures
            r is Ok ==> Self::body_writable(self.deep_view()) && final(to).written() == old(
                to,
            ).written() + Self::body_of(self.deep_view()),
            old(to).infallible() ==> final(to).infallible(),
            old(to).infallible() ==> (r is Ok <==> Self::body_writable(self.deep_view())),
            old(to).infallible() && r is Err ==> (r matches Err(SerializeErr::CannotSerialize(_))),
    {
        match self {
            EquipmentSlot::MainHand => {
                proof {
                    assert(old(to).written() + Seq::<u8>::empty() =~= old(to).written());
                }
                Ok(())
            },
            EquipmentSlot::OffHand => {
                proof {
                    assert(old(to).written() + Seq::<u8>::empty() =~= old(to).written());
                }
                Ok(())
            },
            EquipmentSlot::ArmorBoots => {
                proof {
                    assert(old(to).written() + Seq::<u8>::empty() =~= old(to).written());
                }
                Ok(())
            },
            EquipmentSlot::ArmorLeggings => {
                proof {
                    assert(old(to).written() + Seq::<u8>::empty() =~= old(to).written());
                }
                Ok(())
            },
            EquipmentSlot::ArmorChestplate => {
                proof {
                    assert(old(to).written() + Seq::<u8>::empty() =~= old(to).written());
                }
                Ok(())
            },
            EquipmentSlot::ArmorHelmet => {
                proof {
                    assert(old(to).written() + Seq::<u8>::empty() =~= old(to).written());
                }
                Ok(())
            },
        }
    }
}

impl Serialize for EquipmentSlot {
    open spec fn serializable(v: EquipmentSlot) -> bool {
        Self::body_writable(v)
    }

    #[verifier::opaque]
    open spec fn encode(v: EquipmentSlot) -> Seq<u8> {
        <u8>::encode(Self::id_of(v)) + Self::body_of(v)
    }

    fn mc_serialize<S: Serializer>(&self, to: &mut S) -> (r: SerializeResult) {
        proof {
            reveal(<EquipmentSlot as Serialize>::encode);
        }
        let id_to_serialize: u8 = self.id();
        id_to_serialize.mc_serialize(to)?;
        let r = self.serialize_body(to);
        proof {
            let head = <u8>::encode(Self::id_of(self.deep_view()));
            let body = Self::body_of(self.deep_view());
            lemma_concat_assoc(old(to).written(), head, body);
        }
        r
    }
}

impl Deserialize for EquipmentSlot {
    #[verifier::opaque]
    open spec fn decode(data: Seq<u8>) -> Decoded<EquipmentSlot> {
        match <u8>::decode(data) {
            Err(e) => Err(e),
            Ok((id, n)) => match Self::decode_with_id(id, data.skip(n as int)) {
                Ok((v, m)) => Ok((v, n + m)),
                Err(e) => Err(e),
            },
        }
    }

    fn mc_deserialize(data: &[u8]) -> (r: DeserializeResult<'_, EquipmentSlot>) {
        proof {
            reveal(<EquipmentSlot as Deserialize>::decode);
        }
        let Deserialized { value: id, data: rest } = <u8>::mc_deserialize(data)?;
        let Deserialized { value, data: after } = Self::deserialize_with_id(id, rest)?;
        proof {
            lemma_skip_skip(data@, data@.len() - rest@.len(), rest@.len() - after@.len());
        }
        Ok(Deserialized { value, data: after })
    }
}

impl ProtocolType for EquipmentSlot {
    open spec fn faithful(v: EquipmentSlot) -> bool {
        match v {
            EquipmentSlot::MainHand => true,
            EquipmentSlot::OffHand => true,
            EquipmentSlot::ArmorBoots => true,
            EquipmentSlot::ArmorLeggings => true,
            EquipmentSlot::ArmorChestplate => true,
            EquipmentSlot::ArmorHelmet => true,
        }
    }

    open spec fn delimited() -> bool {
        true
    }

    proof fn lemma_round_trip(v: EquipmentSlot, rest: Seq<u8>) {
        reveal(<EquipmentSlot as Serialize>::encode);
        reveal(<EquipmentSlot as Deserialize>::decode);
        let head = <u8>::encode(Self::id_of(v));
        let body = Self::body_of(v);
        <u8>::lemma_round_trip(Self::id_of(v), body + rest);
        Self::lemma_body_round_trip(v, rest);
        lemma_concat_assoc(head, body, rest);
        lemma_skip_concat(head, body + rest);
    }
}

impl EquipmentSlot {
    /// What follows the number, written out and followed by anything, reads
    /// back under that number.
    pub proof fn lemma_body_round_trip(v: EquipmentSlot, rest: Seq<u8>)
        requires
            <Self as ProtocolType>::faithful(v),
            <Self as ProtocolType>::delimited() || rest.len() == 0,
        ensures
            Self::body_writable(v),
            Self::decode_with_id(Self::id_of(v), Self::body_of(v) + rest) == Ok::<_, DecodeFailure>(
                (v, Self::body_of(v).len()),
            ),
    {
        match v {
            EquipmentSlot::MainHand => {
                assert(Seq::<u8>::empty() + rest =~= rest);
            },
            EquipmentSlot::OffHand => {
                assert(Seq::<u8>::empty() + rest =~= rest);
            },
            EquipmentSlot::ArmorBoots => {
                assert(Seq::<u8>::empty() + rest =~= rest);
            },
            EquipmentSlot::ArmorLeggings => {
                assert(Seq::<u8>::empty() + rest =~= rest);
            },
            EquipmentSlot::ArmorChestplate => {
                assert(Seq::<u8>::empty() + rest =~= rest);
            },
            EquipmentSlot::ArmorHelmet => {
                assert(Seq::<u8>::empty() + rest =~= rest);
            },
        }
    }
}

/// What to do with a score: set it, or take it away.
#[derive(PartialEq, Clone, Debug)]
pub enum UpdateScoreAction {
    Upsert(VarInt),
    Remove,
}

/// The mathematical content of a [`UpdateScoreAction`].
pub enum UpdateScoreActionView {
    Upsert(<VarInt as DeepView>::V),
    Remove,
}

impl DeepView for UpdateScoreAction {
    type V = UpdateScoreActionView;

    open spec fn deep_view(&self) -> UpdateScoreActionView {
        match self {
            UpdateScoreAction::Upsert(body) => UpdateScoreActionView::Upsert(body.deep_view()),
            UpdateScoreAction::Remove => UpdateScoreActionView::Remove,
        }
    }
}

impl UpdateScoreAction {
    pub fn variant_count() -> (r: usize)
        ensures
            r == 2,
    {
        2
    }

    /// The number that stands for the variant on the wire.
    pub open spec fn id_of(v: UpdateScoreActionView) -> u8 {
        match v {
            UpdateScoreActionView::Upsert(_) => 0x00,
            UpdateScoreActionView::Remove => 0x01,
        }
    }

    pub fn id(&self) -> (r: u8)
        ensures
            r == Self::id_of(self.deep_view()),
    {
        match self {
            UpdateScoreAction::Upsert(_) => 0x00,
            UpdateScoreAction::Remove => 0x01,
        }
    }

    pub open spec fn name_of(v: UpdateScoreActionView) -> Seq<char> {
        match v {
            UpdateScoreActionView::Upsert(_) => "Upsert"@,
            UpdateScoreActionView::Remove => "Remove"@,
        }
    }

    pub fn name(&self) -> (r: &'static str)
        ensures
            r@ == Self::name_of(self.deep_view()),
    {
        match self {
            UpdateScoreAction::Upsert(_) => "Upsert",
            UpdateScoreAction::Remove => "Remove",
        }
    }

    /// The bytes that follow the number.
    pub open spec fn body_of(v: UpdateScoreActionView) -> Seq<u8> {
        match v {
            UpdateScoreActionView::Upsert(body) => <VarInt>::encode(body),
            UpdateScoreActionView::Remove => Seq::empty(),
        }
    }

    /// Whether what follows the number can be written.
    pub open spec fn body_writable(v: UpdateScoreActionView) -> bool {
        match v {
            UpdateScoreActionView::Upsert(body) => <VarInt>::serializable(body),
            UpdateScoreActionView::Remove => true,
        }
    }

    /// The variant that `id` stands for, with its body read from `data`.
    pub open spec fn decode_with_id(id: u8, data: Seq<u8>) -> Decoded<UpdateScoreActionView> {
        if id == 0x00 {
            match <VarInt>::decode(data) {
                Ok((body, n)) => Ok((UpdateScoreActionView::Upsert(body), n)),
                Err(e) => Err(e),
            }
        } else if id == 0x01 {
            Ok((UpdateScoreActionView::Remove, 0))
        } else {
            Err(DecodeFailure::CannotUnderstandValue)
        }
    }

    /// Whether `id` stands for a variant.
    pub open spec fn has_id(id: u8) -> bool {
        id == 0x00
            || id == 0x01
    }

    /// Picks the variant for `id` and reads its body from `data`. A number
    /// that stands for no variant is refused, and the error says which.
    pub fn deserialize_with_id<'a>(id: u8, data: &'a [u8]) -> (r: DeserializeResult<'a, Self>)
        ensures
            agrees(r, data@, Self::decode_with_id(id, data@)),
            !Self::has_id(id) ==> (r matches Err(DeserializeErr::CannotUnderstandValue(m))
                && m@ == invalid_message("UpdateScoreAction"@, id as nat)),
    {
        proof {
            assert(data@.skip(0) =~= data@);
        }
        match id {
            0x00 => {
                let Deserialized { value: body, data: rest } = <VarInt>::mc_deserialize(data)?;
                Ok(Deserialized { value: UpdateScoreAction::Upsert(body), data: rest })
            },
            0x01 => Ok(Deserialized { value: UpdateScoreAction::Remove, data }),
            other => Err(DeserializeErr::CannotUnderstandValue(invalid_value_message("UpdateScoreAction", other as u64))),
        }
    }

    /// Writes what follows the number.
    pub fn serialize_body<S: Serializer>(&self, to: &mut S) -> (r: SerializeResult)
        ensures
            r is Ok ==> Self::body_writable(self.deep_view()) && final(to).written() == old(
                to,
            ).written() + Self::body_of(self.deep_view()),
            old(to).infallible() ==> final(to).infallible(),
            old(to).infallible() ==> (r is Ok <==> Self::body_writable(self.deep_view())),
            old(to).infallible() && r is Err ==> (r matches Err(SerializeErr::CannotSerialize(_))),
    {
        match self {
            UpdateScoreAction::Upsert(bod) => bod.mc_serialize(to),
            UpdateScoreAction::Remove => {
                proof {
                    assert(old(to).written() + Seq::<u8>::empty() =~= old(to).written());
                }
                Ok(())
            },
        }
    }
}

impl Serialize for UpdateScoreAction {
    open spec fn serializable(v: UpdateScoreActionView) -> bool {
        Self::body_writable(v)
    }

    #[verifier::opaque]
    open spec fn encode(v: UpdateScoreActionView) -> Seq<u8> {
        <u8>::encode(Self::id_of(v)) + Self::body_of(v)
    }

    fn mc_serialize<S: Serializer>(&self, to: &mut S) -> (r: SerializeResult) {
        proof {
            reveal(<UpdateScoreAction as Serialize>::encode);
        }
        let id_to_serialize: u8 = self.id();
        id_to_serialize.mc_serialize(to)?;
        let r = self.serialize_body(to);
        proof {
            let head = <u8>::encode(Self::id_of(self.deep_view()));
            let body = Self::body_of(self.deep_view());
            lemma_concat_assoc(old(to).written(), head, body);
        }
        r
    }
}

impl Deserialize for UpdateScoreAction {
    #[verifier::opaque]
    open spec fn decode(data: Seq<u8>) -> Decoded<UpdateScoreActionView> {
        match <u8>::decode(data) {
            Err(e) => Err(e),
            Ok((id, n)) => match Self::decode_with_id(id, data.skip(n as int)) {
                Ok((v, m)) => Ok((v, n + m)),
                Err(e) => Err(e),
            },
        }
    }

    fn mc_deserialize(data: &[u8]) -> (r: DeserializeResult<'_, UpdateScoreAction>) {
        proof {
            reveal(<UpdateScoreAction as Deserialize>::decode);
        }
        let Deserialized { value: id, data: rest } = <u8>::mc_deserialize(data)?;
        let Deserialized { value, data: after } = Self::deserialize_with_id(id, rest)?;
        proof {
            lemma_skip_skip(data@, data@.len() - rest@.len(), rest@.len() - after@.len());
        }
        Ok(Deserialized { value, data: after })
    }
}

impl ProtocolType for UpdateScoreAction {
    open spec fn faithful(v: UpdateScoreActionView) -> bool {
        match v {
            UpdateScoreActionView::Upsert(body) => <VarInt>::faithful(body),
            UpdateScoreActionView::Remove => true,
        }
    }

    open spec fn delimited() -> bool {
        <VarInt>::delimited()
    }

    proof fn lemma_round_trip(v: UpdateScoreActionView, rest: Seq<u8>) {
        reveal(<UpdateScoreAction as Serialize>::encode);
        reveal(<UpdateScoreAction as Deserialize>::decode);
        let head = <u8>::encode(Self::id_of(v));
        let body = Self::body_of(v);
        <u8>::lemma_round_trip(Self::id_of(v), body + rest);
        Self::lemma_body_round_trip(v, rest);
        lemma_concat_assoc(head, body, rest);
        lemma_skip_concat(head, body + rest);
    }
}

impl UpdateScoreAction {
    /// What follows the number, written out and followed by anything, reads
    /// back under that number.
    pub proof fn lemma_body_round_trip(v: UpdateScoreActionView, rest: Seq<u8>)
        requires
            <Self as ProtocolType>::faithful(v),
            <Self as ProtocolType>::delimited() || rest.len() == 0,
        ensures
            Self::body_writable(v),
            Self::decode_with_id(Self::id_of(v), Self::body_of(v) + rest) == Ok::<_, DecodeFailure>(
                (v, Self::body_of(v).len()),
            ),
    {
        match v {
            UpdateScoreActionView::Upsert(body) => {
                <VarInt>::lemma_round_trip(body, rest);
            },
            UpdateScoreActionView::Remove => {
                assert(Seq::<u8>::empty() + rest =~= rest);
            },
        }
    }
}

/// A change to one score of an objective.
#[derive(Clone, Debug, PartialEq)]
pub struct UpdateScoreSpec {
    pub objective_name: String,
    pub action: UpdateScoreAction,
}

/// The mathematical content of an [`UpdateScoreSpec`].
pub struct UpdateScoreSpecView {
    pub objective_name: Seq<char>,
    pub action: UpdateScoreActionView,
}

impl DeepView for UpdateScoreSpec {
    type V = UpdateScoreSpecView;

    open spec fn deep_view(&self) -> UpdateScoreSpecView {
        UpdateScoreSpecView {
            objective_name: self.objective_name.deep_view(),
            action: self.action.deep_view(),
        }
    }
}

// The number of the action, then the name, then what belongs to the action.
impl Serialize for UpdateScoreSpec {
    open spec fn serializable(v: UpdateScoreSpecView) -> bool {
        true
    }

    open spec fn encode(v: UpdateScoreSpecView) -> Seq<u8> {
        seq![UpdateScoreAction::id_of(v.action)] + String::encode(v.objective_name)
            + UpdateScoreAction::body_of(v.action)
    }

    fn mc_serialize<S: Serializer>(&self, to: &mut S) -> (r: SerializeResult) {
        proof {
            reveal(<u8 as Serialize>::encode);
        }
        to.serialize_byte(self.action.id())?;
        self.objective_name.mc_serialize(to)?;
        self.action.serialize_body(to)?;
        proof {
            assert(to.written() =~= old(to).written() + Self::encode(self.deep_view()));
        }
        Ok(())
    }
}

impl Deserialize for UpdateScoreSpec {
    open spec fn decode(data: Seq<u8>) -> Decoded<UpdateScoreSpecView> {
        match u8::decode(data) {
            Err(e) => Err(e),
            Ok((action_id, n0)) => match String::decode(data.skip(n0 as int)) {
                Err(e) => Err(e),
                Ok((objective_name, n1)) => match UpdateScoreAction::decode_with_id(
                    action_id,
                    data.skip((n0 + n1) as int),
                ) {
                    Err(e) => Err(e),
                    Ok((action, n2)) => Ok(
                        (UpdateScoreSpecView { objective_name, action }, n0 + n1 + n2),
                    ),
                },
            },
        }
    }

    fn mc_deserialize(data: &[u8]) -> (r: DeserializeResult<'_, UpdateScoreSpec>) {
        proof {
            reveal(<u8 as Deserialize>::decode);
        }
        let ghost whole = data@;
        let Deserialized { value: action_id, data: rest0 } = u8::mc_deserialize(data)?;
        let Deserialized { value: objective_name, data: rest1 } = String::mc_deserialize(rest0)?;
        proof {
            assert(rest1@ =~= whole.skip(whole.len() - rest1@.len()));
        }
        let Deserialized { value: action, data: rest2 } = UpdateScoreAction::deserialize_with_id(
            action_id,
            rest1,
        )?;
        proof {
            assert(rest2@ =~= whole.skip(whole.len() - rest2@.len()));
        }
        Ok(Deserialized { value: UpdateScoreSpec { objective_name, action }, data: rest2 })
    }
}

impl ProtocolType for UpdateScoreSpec {
    open spec fn faithful(v: UpdateScoreSpecView) -> bool {
        String::faithful(v.objective_name)
    }

    open spec fn delimited() -> bool {
        true
    }

    proof fn lemma_round_trip(v: UpdateScoreSpecView, rest: Seq<u8>) {
        reveal(<u8 as Serialize>::encode);
        reveal(<u8 as Deserialize>::decode);
        let e0 = seq![UpdateScoreAction::id_of(v.action)];
        let e1 = String::encode(v.objective_name);
        let e2 = UpdateScoreAction::body_of(v.action);
        let data = Self::encode(v) + rest;
        String::lemma_round_trip(v.objective_name, e2 + rest);
        assert(data =~= e0 + (e1 + e2 + rest));
        assert(data.skip(1) =~= e1 + (e2 + rest));
        assert(data.skip((1 + e1.len()) as int) =~= e2 + rest);
        match v.action {
            UpdateScoreActionView::Upsert(score) => {
                VarInt::lemma_round_trip(score, rest);
            },
            UpdateScoreActionView::Remove => {
                assert(e2 + rest =~= rest);
            },
        }
    }
}

/// Where on the screen a scoreboard shows.
#[derive(PartialEq, Clone, Debug)]
pub enum ScoreboardPosition {
    List,
    Sidebar,
    BelowName,
    TeamSpecific(i8),
}

/// The mathematical content of a [`ScoreboardPosition`].
pub enum ScoreboardPositionView {
    List,
    Sidebar,
    BelowName,
    TeamSpecific(<i8 as DeepView>::V),
}

impl DeepView for ScoreboardPosition {
    type V = ScoreboardPositionView;

    open spec fn deep_view(&self) -> ScoreboardPositionView {
        match self {
            ScoreboardPosition::List => ScoreboardPositionView::List,
            ScoreboardPosition::Sidebar => ScoreboardPositionView::Sidebar,
            ScoreboardPosition::BelowName => ScoreboardPositionView::BelowName,
            ScoreboardPosition::TeamSpecific(body) => ScoreboardPositionView::TeamSpecific(body.deep_view()),
        }
    }
}

impl ScoreboardPosition {
    pub fn variant_count() -> (r: usize)
        ensures
            r == 4,
    {
        4
    }

    /// The number that stands for the variant on the wire.
    pub open spec fn id_of(v: ScoreboardPositionView) -> u8 {
        match v {
            ScoreboardPositionView::List => 0x00,
            ScoreboardPositionView::Sidebar => 0x01,
            ScoreboardPositionView::BelowName => 0x02,
            ScoreboardPositionView::TeamSpecific(_) => 0x03,
        }
    }

    pub fn id(&self) -> (r: u8)
        ensures
            r == Self::id_of(self.deep_view()),
    {
        match self {
            ScoreboardPosition::List => 0x00,
            ScoreboardPosition::Sidebar => 0x01,
            ScoreboardPosition::BelowName => 0x02,
            ScoreboardPosition::TeamSpecific(_) => 0x03,
        }
    }

    pub open spec fn name_of(v: ScoreboardPositionView) -> Seq<char> {
        match v {
            ScoreboardPositionView::List => "List"@,
            ScoreboardPositionView::Sidebar => "Sidebar"@,
            ScoreboardPositionView::BelowName => "BelowName"@,
            ScoreboardPositionView::TeamSpecific(_) => "TeamSpecific"@,
        }
    }

    pub fn name(&self) -> (r: &'static str)
        ensures
            r@ == Self::name_of(self.deep_view()),
    {
        match self {
            ScoreboardPosition::List => "List",
            ScoreboardPosition::Sidebar => "Sidebar",
            ScoreboardPosition::BelowName => "BelowName",
            ScoreboardPosition::TeamSpecific(_) => "TeamSpecific",
        }
    }

    /// The bytes that follow the number.
    pub open spec fn body_of(v: ScoreboardPositionView) -> Seq<u8> {
        match v {
            ScoreboardPositionView::List => Seq::empty(),
            ScoreboardPositionView::Sidebar => Seq::empty(),
            ScoreboardPositionView::BelowName => Seq::empty(),
            ScoreboardPositionView::TeamSpecific(body) => <i8>::encode(body),
        }
    }

    /// Whether what follows the number can be written.
    pub open spec fn body_writable(v: ScoreboardPositionView) -> bool {
        match v {
            ScoreboardPositionView::List => true,
            ScoreboardPositionView::Sidebar => true,
            ScoreboardPositionView::BelowName => true,
            ScoreboardPositionView::TeamSpecific(body) => <i8>::serializable(body),
        }
    }

    /// The variant that `id` stands for, with its body read from `data`.
    pub open spec fn decode_with_id(id: u8, data: Seq<u8>) -> Decoded<ScoreboardPositionView> {
        if id == 0x00 {
            Ok((ScoreboardPositionView::List, 0))
        } else if id == 0x01 {
            Ok((ScoreboardPositionView::Sidebar, 0))
        } else if id == 0x02 {
            Ok((ScoreboardPositionView::BelowName, 0))
        } else if id == 0x03 {
            match <i8>::decode(data) {
                Ok((body, n)) => Ok((ScoreboardPositionView::TeamSpecific(body), n)),
                Err(e) => Err(e),
            }
        } else {
            Err(DecodeFailure::CannotUnderstandValue)
        }
    }

    /// Whether `id` stands for a variant.
    pub open spec fn has_id(id: u8) -> bool {
        id == 0x00
            || id == 0x01
            || id == 0x02
            || id == 0x03
    }

    /// Picks the variant for `id` and reads its body from `data`. A number
    /// that stands for no variant is refused, and the error says which.
    pub fn deserialize_with_id<'a>(id: u8, data: &'a [u8]) -> (r: DeserializeResult<'a, Self>)
        ensures
            agrees(r, data@, Self::decode_with_id(id, data@)),
            !Self::has_id(id) ==> (r matches Err(DeserializeErr::CannotUnderstandValue(m))
                && m@ == invalid_message("ScoreboardPosition"@, id as nat)),
    {
        proof {
            assert(data@.skip(0) =~= data@);
        }
        match id {
            0x00 => Ok(Deserialized { value: ScoreboardPosition::List, data }),
            0x01 => Ok(Deserialized { value: ScoreboardPosition::Sidebar, data }),
            0x02 => Ok(Deserialized { value: ScoreboardPosition::BelowName, data }),
            0x03 => {
                let Deserialized { value: body, data: rest } = <i8>::mc_deserialize(data)?;
                Ok(Deserialized { value: ScoreboardPosition::TeamSpecific(body), data: rest })
            },
            other => Err(DeserializeErr::CannotUnderstandValue(invalid_value_message("ScoreboardPosition", other as u64))),
        }
    }

    /// Writes what follows the number.
    pub fn serialize_body<S: Serializer>(&self, to: &mut S) -> (r: SerializeResult)
        ensures
            r is Ok ==> Self::body_writable(self.deep_view()) && final(to).written() == old(
                to,
            ).written() + Self::body_of(self.deep_view()),
            old(to).infallible() ==> final(to).infallible(),
            old(to).infallible() ==> (r is Ok <==> Self::body_writable(self.deep_view())),
            old(to).infallible() && r is Err ==> (r matches Err(SerializeErr::CannotSerialize(_))),
    {
        match self {
            ScoreboardPosition::List => {
                proof {
                    assert(old(to).written() + Seq::<u8>::empty() =~= old(to).written());
                }
                Ok(())
            },
            ScoreboardPosition::Sidebar => {
                proof {
                    assert(old(to).written() + Seq::<u8>::empty() =~= old(to).written());
                }
                Ok(())
            },
            ScoreboardPosition::BelowName => {
                proof {
                    assert(old(to).written() + Seq::<u8>::empty() =~= old(to).written());
                }
                Ok(())
            },
            ScoreboardPosition::TeamSpecific(bod) => bod.mc_serialize(to),
        }
    }
}

impl Serialize for ScoreboardPosition {
    open spec fn serializable(v: ScoreboardPositionView) -> bool {
        Self::body_writable(v)
    }

    #[verifier::opaque]
    open spec fn encode(v: ScoreboardPositionView) -> Seq<u8> {
        <u8>::encode(Self::id_of(v)) + Self::body_of(v)
    }

    fn mc_serialize<S: Serializer>(&self, to: &mut S) -> (r: SerializeResult) {
        proof {
            reveal(<ScoreboardPosition as Serialize>::encode);
        }
        let id_to_serialize: u8 = self.id();
        id_to_serialize.mc_serialize(to)?;
        let r = self.serialize_body(to);
        proof {
            let head = <u8>::encode(Self::id_of(self.deep_view()));
            let body = Self::body_of(self.deep_view());
            lemma_concat_assoc(old(to).written(), head, body);
        }
        r
    }
}

impl Deserialize for ScoreboardPosition {
    #[verifier::opaque]
    open spec fn decode(data: Seq<u8>) -> Decoded<ScoreboardPositionView> {
        match <u8>::decode(data) {
            Err(e) => Err(e),
            Ok((id, n)) => match Self::decode_with_id(id, data.skip(n as int)) {
                Ok((v, m)) => Ok((v, n + m)),
                Err(e) => Err(e),
            },
        }
    }

    fn mc_deserialize(data: &[u8]) -> (r: DeserializeResult<'_, ScoreboardPosition>) {
        proof {
            reveal(<ScoreboardPosition as Deserialize>::decode);
        }
        let Deserialized { value: id, data: rest } = <u8>::mc_deserialize(data)?;
        let Deserialized { value, data: after } = Self::deserialize_with_id(id, rest)?;
        proof {
            lemma_skip_skip(data@, data@.len() - rest@.len(), rest@.len() - after@.len());
        }
        Ok(Deserialized { value, data: after })
    }
}

impl ProtocolType for ScoreboardPosition {
    open spec fn faithful(v: ScoreboardPositionView) -> bool {
        match v {
            ScoreboardPositionView::List => true,
            ScoreboardPositionView::Sidebar => true,
            ScoreboardPositionView::BelowName => true,
            ScoreboardPositionView::TeamSpecific(body) => <i8>::faithful(body),
        }
    }

    open spec fn delimited() -> bool {
        <i8>::delimited()
    }

    proof fn lemma_round_trip(v: ScoreboardPositionView, rest: Seq<u8>) {
        reveal(<ScoreboardPosition as Serialize>::encode);
        reveal(<ScoreboardPosition as Deserialize>::decode);
        let head = <u8>::encode(Self::id_of(v));
        let body = Self::body_of(v);
        <u8>::lemma_round_trip(Self::id_of(v), body + rest);
        Self::lemma_body_round_trip(v, rest);
        lemma_concat_assoc(head, body, rest);
        lemma_skip_concat(head, body + rest);
    }
}

impl ScoreboardPosition {
    /// What follows the number, written out and followed by anything, reads
    /// back under that number.
    pub proof fn lemma_body_round_trip(v: ScoreboardPositionView, rest: Seq<u8>)
        requires
            <Self as ProtocolType>::faithful(v),
            <Self as ProtocolType>::delimited() || rest.len() == 0,
        ensures
            Self::body_writable(v),
            Self::decode_with_id(Self::id_of(v), Self::body_of(v) + rest) == Ok::<_, DecodeFailure>(
                (v, Self::body_of(v).len()),
            ),
    {
        match v {
            ScoreboardPositionView::List => {
                assert(Seq::<u8>::empty() + rest =~= rest);
            },
            ScoreboardPositionView::Sidebar => {
                assert(Seq::<u8>::empty() + rest =~= rest);
            },
            ScoreboardPositionView::BelowName => {
                assert(Seq::<u8>::empty() + rest =~= rest);
            },
            ScoreboardPositionView::TeamSpecific(body) => {
                <i8>::lemma_round_trip(body, rest);
            },
        }
    }
}

/// The volume slider that a sound belongs to.
#[derive(PartialEq, Eq, Structural, Clone, Copy, Debug)]
pub enum SoundCategory {
    Master,
    Music,
    Records,
    Weather,
    Block,
    Hostile,
    Neutral,
    Player,
    Ambient,
    Voice,
}

impl View for SoundCategory {
    type V = SoundCategory;

    open spec fn view(&self) -> SoundCategory {
        *self
    }
}

impl DeepView for SoundCategory {
    type V = SoundCategory;

    open spec fn deep_view(&self) -> SoundCategory {
        *self
    }
}

impl SoundCategory {
    pub fn variant_count() -> (r: usize)
        ensures
            r == 10,
    {
        10
    }

    /// The number that stands for the variant on the wire.
    pub open spec fn id_of(v: SoundCategory) -> i32 {
        match v {
            SoundCategory::Master => 0x00,
            SoundCategory::Music => 0x01,
            SoundCategory::Records => 0x02,
            SoundCategory::Weather => 0x03,
            SoundCategory::Block => 0x04,
            SoundCategory::Hostile => 0x05,
            SoundCategory::Neutral => 0x06,
            SoundCategory::Player => 0x07,
            SoundCategory::Ambient => 0x08,
            SoundCategory::Voice => 0x09,
        }
    }

    pub fn id(&self) -> (r: VarInt)
        ensures
            r == VarInt(Self::id_of(self.deep_view())),
    {
        match self {
            SoundCategory::Master => VarInt(0x00),
            SoundCategory::Music => VarInt(0x01),
            SoundCategory::Records => VarInt(0x02),
            SoundCategory::Weather => VarInt(0x03),
            SoundCategory::Block => VarInt(0x04),
            SoundCategory::Hostile => VarInt(0x05),
            SoundCategory::Neutral => VarInt(0x06),
            SoundCategory::Player => VarInt(0x07),
            SoundCategory::Ambient => VarInt(0x08),
            SoundCategory::Voice => VarInt(0x09),
        }
    }

    pub open spec fn name_of(v: SoundCategory) -> Seq<char> {
        match v {
            SoundCategory::Master => "Master"@,
            SoundCategory::Music => "Music"@,
            SoundCategory::Records => "Records"@,
            SoundCategory::Weather => "Weather"@,
            SoundCategory::Block => "Block"@,
            SoundCategory::Hostile => "Hostile"@,
            SoundCategory::Neutral => "Neutral"@,
            SoundCategory::Player => "Player"@,
            SoundCategory::Ambient => "Ambient"@,
            SoundCategory::Voice => "Voice"@,
        }
    }

    pub fn name(&self) -> (r: &'static str)
        ensures
            r@ == Self::name_of(self.deep_view()),
    {
        match self {
            SoundCategory::Master => "Master",
            SoundCategory::Music => "Music",
            SoundCategory::Records => "Records",
            SoundCategory::Weather => "Weather",
            SoundCategory::Block => "Block",
            SoundCategory::Hostile => "Hostile",
            SoundCategory::Neutral => "Neutral",
            SoundCategory::Player => "Player",
            SoundCategory::Ambient => "Ambient",
            SoundCategory::Voice => "Voice",
        }
    }

    /// The bytes that follow the number.
    pub open spec fn body_of(v: SoundCategory) -> Seq<u8> {
        match v {
            SoundCategory::Master => Seq::empty(),
            SoundCategory::Music => Seq::empty(),
            SoundCategory::Records => Seq::empty(),
            SoundCategory::Weather => Seq::empty(),
            SoundCategory::Block => Seq::empty(),
            SoundCategory::Hostile => Seq::empty(),
            SoundCategory::Neutral => Seq::empty(),
            SoundCategory::Player => Seq::empty(),
            SoundCategory::Ambient => Seq::empty(),
            SoundCategory::Voice => Seq::empty(),
        }
    }

    /// Whether what follows the number can be written.
    pub open spec fn body_writable(v: SoundCategory) -> bool {
        match v {
            SoundCategory::Master => true,
            SoundCategory::Music => true,
            SoundCategory::Records => true,
            SoundCategory::Weather => true,
            SoundCategory::Block => true,
            SoundCategory::Hostile => true,
            SoundCategory::Neutral => true,
            SoundCategory::Player => true,
            SoundCategory::Ambient => true,
            SoundCategory::Voice => true,
        }
    }

    /// The variant that `id` stands for, with its body read from `data`.
    pub open spec fn decode_with_id(id: i32, data: Seq<u8>) -> Decoded<SoundCategory> {
        if id == 0x00 {
            Ok((SoundCategory::Master, 0))
        } else if id == 0x01 {
            Ok((SoundCategory::Music, 0))
        } else if id == 0x02 {
            Ok((SoundCategory::Records, 0))
        } else if id == 0x03 {
            Ok((SoundCategory::Weather, 0))
        } else if id == 0x04 {
            Ok((SoundCategory::Block, 0))
        } else if id == 0x05 {
            Ok((SoundCategory::Hostile, 0))
        } else if id == 0x06 {
            Ok((SoundCategory::Neutral, 0))
        } else if id == 0x07 {
            Ok((SoundCategory::Player, 0))
        } else if id == 0x08 {
            Ok((SoundCategory::Ambient, 0))
        } else if id == 0x09 {
            Ok((SoundCategory::Voice, 0))
        } else {
            Err(DecodeFailure::CannotUnderstandValue)
        }
    }

    /// Whether `id` stands for a variant.
    pub open spec fn has_id(id: i32) -> bool {
        id == 0x00
            || id == 0x01
            || id == 0x02
            || id == 0x03
            || id == 0x04
            || id == 0x05
            || id == 0x06
            || id == 0x07
            || id == 0x08
            || id == 0x09
    }

    /// Picks the variant for `id` and reads its body from `data`. A number
    /// that stands for no variant is refused, and the error says which.
    pub fn deserialize_with_id<'a>(id: VarInt, data: &'a [u8]) -> (r: DeserializeResult<'a, Self>)
        ensures
            agrees(r, data@, Self::decode_with_id(id.0, data@)),
            !Self::has_id(id.0) ==> (r matches Err(DeserializeErr::CannotUnderstandValue(m))
                && m@ == invalid_int_text("SoundCategory"@, id.0 as int)),
    {
        proof {
            assert(data@.skip(0) =~= data@);
        }
        match id.0 {
            0x00 => Ok(Deserialized { value: SoundCategory::Master, data }),
            0x01 => Ok(Deserialized { value: SoundCategory::Music, data }),
            0x02 => Ok(Deserialized { value: SoundCategory::Records, data }),
            0x03 => Ok(Deserialized { value: SoundCategory::Weather, data }),
            0x04 => Ok(Deserialized { value: SoundCategory::Block, data }),
            0x05 => Ok(Deserialized { value: SoundCategory::Hostile, data }),
            0x06 => Ok(Deserialized { value: SoundCategory::Neutral, data }),
            0x07 => Ok(Deserialized { value: SoundCategory::Player, data }),
            0x08 => Ok(Deserialized { value: SoundCategory::Ambient, data }),
            0x09 => Ok(Deserialized { value: SoundCategory::Voice, data }),
            other => Err(DeserializeErr::CannotUnderstandValue(invalid_int_message("SoundCategory", other))),
        }
    }

    /// Writes what follows the number.
    pub fn serialize_body<S: Serializer>(&self, to: &mut S) -> (r: SerializeResult)
        ensures
            r is Ok ==> Self::body_writable(self.deep_view()) && final(to).written() == old(
                to,
            ).written() + Self::body_of(self.deep_view()),
            old(to).infallible() ==> final(to).infallible(),
            old(to).infallible() ==> (r is Ok <==> Self::body_writable(self.deep_view())),
            old(to).infallible() && r is Err ==> (r matches Err(SerializeErr::CannotSerialize(_))),
    {
        match self {
            SoundCategory::Master => {
                proof {
                    assert(old(to).written() + Seq::<u8>::empty() =~= old(to).written());
                }
                Ok(())
            },
            SoundCategory::Music => {
                proof {
                    assert(old(to).written() + Seq::<u8>::empty() =~= old(to).written());
                }
                Ok(())
            },
            SoundCategory::Records => {
                proof {
                    assert(old(to).written() + Seq::<u8>::empty() =~= old(to).written());
                }
                Ok(())
            },
            SoundCategory::Weather => {
                proof {
                    assert(old(to).written() + Seq::<u8>::empty() =~= old(to).written());
                }
                Ok(())
            },
            SoundCategory::Block => {
                proof {
                    assert(old(to).written() + Seq::<u8>::empty() =~= old(to).written());
                }
                Ok(())
            },
            SoundCategory::Hostile => {
                proof {
                    assert(old(to).written() + Seq::<u8>::empty() =~= old(to).written());
                }
                Ok(())
            },
            SoundCategory::Neutral => {
                proof {
                    assert(old(to).written() + Seq::<u8>::empty() =~= old(to).written());
                }
                Ok(())
            },
            SoundCategory::Player => {
                proof {
                    assert(old(to).written() + Seq::<u8>::empty() =~= old(to).written());
                }
                Ok(())
            },
            SoundCategory::Ambient => {
                proof {
                    assert(old(to).written() + Seq::<u8>::empty() =~= old(to).written());
                }
                Ok(())
            },
            SoundCategory::Voice => {
                proof {
                    assert(old(to).written() + Seq::<u8>::empty() =~= old(to).written());
                }
                Ok(())
            },
        }
    }
}

impl Serialize for SoundCategory {
    open spec fn serializable(v: SoundCategory) -> bool {
        Self::body_writable(v)
    }

    #[verifier::opaque]
    open spec fn encode(v: SoundCategory) -> Seq<u8> {
        <VarInt>::encode(VarInt(Self::id_of(v))) + Self::body_of(v)
    }

    fn mc_serialize<S: Serializer>(&self, to: &mut S) -> (r: SerializeResult) {
        proof {
            reveal(<SoundCategory as Serialize>::encode);
        }
        let id_to_serialize: VarInt = self.id();
        id_to_serialize.mc_serialize(to)?;
        let r = self.serialize_body(to);
        proof {
            let head = <VarInt>::encode(VarInt(Self::id_of(self.deep_view())));
            let body = Self::body_of(self.deep_view());
            lemma_concat_assoc(old(to).written(), head, body);
        }
        r
    }
}

impl Deserialize for SoundCategory {
    #[verifier::opaque]
    open spec fn decode(data: Seq<u8>) -> Decoded<SoundCategory> {
        match <VarInt>::decode(data) {
            Err(e) => Err(e),
            Ok((id, n)) => match Self::decode_with_id(id.0, data.skip(n as int)) {
                Ok((v, m)) => Ok((v, n + m)),
                Err(e) => Err(e),
            },
        }
    }

    fn mc_deserialize(data: &[u8]) -> (r: DeserializeResult<'_, SoundCategory>) {
        proof {
            reveal(<SoundCategory as Deserialize>::decode);
        }
        let Deserialized { value: id, data: rest } = <VarInt>::mc_deserialize(data)?;
        let Deserialized { value, data: after } = Self::deserialize_with_id(id, rest)?;
        proof {
            lemma_skip_skip(data@, data@.len() - rest@.len(), rest@.len() - after@.len());
        }
        Ok(Deserialized { value, data: after })
    }
}

impl ProtocolType for SoundCategory {
    open spec fn faithful(v: SoundCategory) -> bool {
        match v {
            SoundCategory::Master => true,
            SoundCategory::Music => true,
            SoundCategory::Records => true,
            SoundCategory::Weather => true,
            SoundCategory::Block => true,
            SoundCategory::Hostile => true,
            SoundCategory::Neutral => true,
            SoundCategory::Player => true,
            SoundCategory::Ambient => true,
            SoundCategory::Voice => true,
        }
    }

    open spec fn delimited() -> bool {
        true
    }

    proof fn lemma_round_trip(v: SoundCategory, rest: Seq<u8>) {
        reveal(<SoundCategory as Serialize>::encode);
        reveal(<SoundCategory as Deserialize>::decode);
        let head = <VarInt>::encode(VarInt(Self::id_of(v)));
        let body = Self::body_of(v);
        <VarInt>::lemma_round_trip(VarInt(Self::id_of(v)), body + rest);
        Self::lemma_body_round_trip(v, rest);
        lemma_concat_assoc(head, body, rest);
        lemma_skip_concat(head, body + rest);
    }
}

impl SoundCategory {
    /// What follows the number, written out and followed by anything, reads
    /// back under that number.
    pub proof fn lemma_body_round_trip(v: SoundCategory, rest: Seq<u8>)
        requires
            <Self as ProtocolType>::faithful(v),
            <Self as ProtocolType>::delimited() || rest.len() == 0,
        ensures
            Self::body_writable(v),
            Self::decode_with_id(Self::id_of(v), Self::body_of(v) + rest) == Ok::<_, DecodeFailure>(
                (v, Self::body_of(v).len()),
            ),
    {
        match v {
            SoundCategory::Master => {
                assert(Seq::<u8>::empty() + rest =~= rest);
            },
            SoundCategory::Music => {
                assert(Seq::<u8>::empty() + rest =~= rest);
            },
            SoundCategory::Records => {
                assert(Seq::<u8>::empty() + rest =~= rest);
            },
            SoundCategory::Weather => {
                assert(Seq::<u8>::empty() + rest =~= rest);
            },
            SoundCategory::Block => {
                assert(Seq::<u8>::empty() + rest =~= rest);
            },
            SoundCategory::Hostile => {
                assert(Seq::<u8>::empty() + rest =~= rest);
            },
            SoundCategory::Neutral => {
                assert(Seq::<u8>::empty() + rest =~= rest);
            },
            SoundCategory::Player => {
                assert(Seq::<u8>::empty() + rest =~= rest);
            },
            SoundCategory::Ambient => {
                assert(Seq::<u8>::empty() + rest =~= rest);
            },
            SoundCategory::Voice => {
                assert(Seq::<u8>::empty() + rest =~= rest);
            },
        }
    }
}

/// A rectangle of a map that changed, with its new content.
#[derive(Debug, Clone, PartialEq)]
pub struct MapColumnsSpec {
    pub columns: u8,
    pub rows: u8,
    pub position: TopDownPosition<u8>,
    pub data: CountedArray<u8, VarInt>,
}

/// The mathematical content of a [`MapColumnsSpec`].
pub struct MapColumnsSpecView {
    pub columns: u8,
    pub rows: u8,
    pub position: ChunkPosition<u8>,
    pub data: Seq<u8>,
}

impl DeepView for MapColumnsSpec {
    type V = MapColumnsSpecView;

    open spec fn deep_view(&self) -> MapColumnsSpecView {
        MapColumnsSpecView {
            columns: self.columns.deep_view(),
            rows: self.rows.deep_view(),
            position: self.position.deep_view(),
            data: self.data.deep_view(),
        }
    }
}

impl Serialize for MapColumnsSpec {
    open spec fn serializable(v: MapColumnsSpecView) -> bool {
        u8::serializable(v.columns) && u8::serializable(v.rows) && <TopDownPosition<u8>>::serializable(v.position) && <CountedArray<u8, VarInt>>::serializable(v.data)
    }

    #[verifier::opaque]
    open spec fn encode(v: MapColumnsSpecView) -> Seq<u8> {
        u8::encode(v.columns) + u8::encode(v.rows) + <TopDownPosition<u8>>::encode(v.position) + <CountedArray<u8, VarInt>>::encode(v.data)
    }

    fn mc_serialize<S: Serializer>(&self, to: &mut S) -> (r: SerializeResult) {
        proof {
            reveal(<MapColumnsSpec as Serialize>::encode);
        }
        self.columns.mc_serialize(to)?;
        self.rows.mc_serialize(to)?;
        self.position.mc_serialize(to)?;
        self.data.mc_serialize(to)?;
        proof {
            let v = self.deep_view();
            let w = old(to).written();
            let e0 = u8::encode(v.columns);
            let e1 = u8::encode(v.rows);
            let e2 = <TopDownPosition<u8>>::encode(v.position);
            let e3 = <CountedArray<u8, VarInt>>::encode(v.data);
            let l0 = e0;
            let l1 = l0 + e1;
            let l2 = l1 + e2;
            let l3 = l2 + e3;
            lemma_concat_assoc(w, l0, e1);
            lemma_concat_assoc(w, l1, e2);
            lemma_concat_assoc(w, l2, e3);
        }
        Ok(())
    }
}

impl Deserialize for MapColumnsSpec {
    #[verifier::opaque]
    open spec fn decode(data: Seq<u8>) -> Decoded<MapColumnsSpecView> {
        match u8::decode(data) {
            Err(e) => Err(e),
            Ok((columns, n0)) => {
                match u8::decode(data.skip((n0) as int)) {
                    Err(e) => Err(e),
                    Ok((rows, n1)) => {
                        match <TopDownPosition<u8>>::decode(data.skip((n0 + n1) as int)) {
                            Err(e) => Err(e),
                            Ok((position, n2)) => {
                                match <CountedArray<u8, VarInt>>::decode(data.skip((n0 + n1 + n2) as int)) {
                                    Err(e) => Err(e),
                                    Ok((data, n3)) => Ok((MapColumnsSpecView { columns, rows, position, data }, n0 + n1 + n2 + n3)),
                                }
                            },
                        }
                    },
                }
            },
        }
    }

    fn mc_deserialize(data: &[u8]) -> (r: DeserializeResult<'_, MapColumnsSpec>) {
        proof {
            reveal(<MapColumnsSpec as Deserialize>::decode);
        }
        let ghost whole = data@;
        let Deserialized { value: columns, data: rest0 } = u8::mc_deserialize(data)?;
        let Deserialized { value: rows, data: rest1 } = u8::mc_deserialize(rest0)?;
        proof {
            lemma_skip_skip(
                whole,
                whole.len() - rest0@.len(),
                rest0@.len() - rest1@.len(),
            );
        }
        let Deserialized { value: position, data: rest2 } = <TopDownPosition<u8>>::mc_deserialize(rest1)?;
        proof {
            lemma_skip_skip(
                whole,
                whole.len() - rest1@.len(),
                rest1@.len() - rest2@.len(),
            );
        }
        let Deserialized { value: data, data: rest3 } = <CountedArray<u8, VarInt>>::mc_deserialize(rest2)?;
        proof {
            lemma_skip_skip(
                whole,
                whole.len() - rest2@.len(),
                rest2@.len() - rest3@.len(),
            );
        }
        Ok(Deserialized { value: MapColumnsSpec { columns, rows, position, data }, data: rest3 })
    }
}

impl ProtocolType for MapColumnsSpec {
    open spec fn faithful(v: MapColumnsSpecView) -> bool {
        u8::faithful(v.columns) && u8::faithful(v.rows) && <TopDownPosition<u8>>::faithful(v.position) && <CountedArray<u8, VarInt>>::faithful(v.data)
    }

    open spec fn delimited() -> bool {
        <CountedArray<u8, VarInt>>::delimited()
    }

    proof fn lemma_round_trip(v: MapColumnsSpecView, rest: Seq<u8>) {
        reveal(<MapColumnsSpec as Serialize>::encode);
        reveal(<MapColumnsSpec as Deserialize>::decode);
        let e0 = u8::encode(v.columns);
        let e1 = u8::encode(v.rows);
        let e2 = <TopDownPosition<u8>>::encode(v.position);
        let e3 = <CountedArray<u8, VarInt>>::encode(v.data);
        let data = Self::encode(v) + rest;
        let t4 = rest;
        let t3 = e3 + t4;
        let t2 = e2 + t3;
        let t1 = e1 + t2;
        let t0 = e0 + t1;
        let l0 = e0;
        let l1 = l0 + e1;
        let l2 = l1 + e2;
        let l3 = l2 + e3;
        lemma_concat_assoc(l2, e3, t4);
        lemma_concat_assoc(l1, e2, t3);
        lemma_concat_assoc(l0, e1, t2);
        assert(data == t0);
        u8::lemma_round_trip(v.columns, t1);
        lemma_skip_concat(e0, t1);
        u8::lemma_round_trip(v.rows, t2);
        lemma_skip_more(data, (e0.len()) as int, e1, t2);
        <TopDownPosition<u8>>::lemma_round_trip(v.position, t3);
        lemma_skip_more(data, (e0.len() + e1.len()) as int, e2, t3);
        <CountedArray<u8, VarInt>>::lemma_round_trip(v.data, t4);
        lemma_skip_more(data, (e0.len() + e1.len() + e2.len()) as int, e3, t4);
    }
}

/// One piece of equipment: where it sits and what it is.
#[derive(Clone, Debug, PartialEq)]
pub struct EntityEquipmentEntry {
    pub slot: EquipmentSlot,
    pub item: Slot,
}

/// The mathematical content of an [`EntityEquipmentEntry`].
pub struct EntityEquipmentEntryView {
    pub slot: EquipmentSlot,
    pub item: Option<ItemStackView>,
}

impl DeepView for EntityEquipmentEntry {
    type V = EntityEquipmentEntryView;

    open spec fn deep_view(&self) -> EntityEquipmentEntryView {
        EntityEquipmentEntryView { slot: self.slot, item: self.item.deep_view() }
    }
}

/// The equipment of an entity: at least one piece. On the wire each piece
/// but the last has the top bit of its slot byte set.
#[derive(Clone, Debug, PartialEq)]
pub struct EntityEquipmentArray {
    pub data: Vec<EntityEquipmentEntry>,
}

impl DeepView for EntityEquipmentArray {
    type V = Seq<EntityEquipmentEntryView>;

    open spec fn deep_view(&self) -> Seq<EntityEquipmentEntryView> {
        self.data.deep_view()
    }
}

/// One piece on the wire: its slot, marked where more follow, and its item.
pub open spec fn equipment_entry_bytes(entry: EntityEquipmentEntryView, more: bool) -> Seq<u8> {
    seq![(EquipmentSlot::id_of(entry.slot) + if more { 128int } else { 0int }) as u8]
        + <Slot>::encode(entry.item)
}

/// The first `k` of `entries` on the wire.
pub open spec fn equipment_upto(entries: Seq<EntityEquipmentEntryView>, k: nat) -> Seq<u8>
    decreases k,
{
    if k == 0 {
        Seq::empty()
    } else {
        equipment_upto(entries, (k - 1) as nat) + equipment_entry_bytes(
            entries[k - 1],
            k < entries.len(),
        )
    }
}

/// The text of the error for an equipment list with nothing in it.
pub open spec fn empty_equipment_message() -> Seq<char> {
    "entity equipment must be non-empty to send!"@
}

proof fn lemma_slot_byte(raw: u8)
    by (bit_vector)
    ensures
        raw & 0x80 != 0 <==> raw >= 128,
        raw & 0x7F == raw % 128,
        raw < 128 ==> raw | 0x80 == raw + 128,
{
}

impl Serialize for EntityEquipmentArray {
    open spec fn serializable(v: Seq<EntityEquipmentEntryView>) -> bool {
        v.len() > 0 && forall|i: int| 0 <= i < v.len() ==> <Slot>::serializable((#[trigger] v[i]).item)
    }

    open spec fn encode(v: Seq<EntityEquipmentEntryView>) -> Seq<u8> {
        equipment_upto(v, v.len())
    }

    fn mc_serialize<S: Serializer>(&self, to: &mut S) -> (r: SerializeResult) {
        proof {
            reveal(<u8 as Serialize>::encode);
        }
        if self.data.is_empty() {
            return Err(
                SerializeErr::CannotSerialize(
                    "entity equipment must be non-empty to send!".to_owned(),
                ),
            );
        }
        let n = self.data.len();
        let ghost all = self.data.deep_view();
        let mut i: usize = 0;
        proof {
            assert(old(to).written() + Seq::<u8>::empty() =~= old(to).written());
        }
        while i < n
            invariant
                i <= n,
                n == self.data@.len(),
                n > 0,
                all == self.data.deep_view(),
                to.written() == old(to).written() + equipment_upto(all, i as nat),
                old(to).infallible() ==> to.infallible(),
                forall|j: int| 0 <= j < i ==> <Slot>::serializable((#[trigger] all[j]).item),
            decreases n - i,
        {
            let is_last = i == n - 1;
            let entry = &self.data[i];
            let mut slot_raw = entry.slot.id();
            proof {
                lemma_slot_byte(slot_raw);
                assert(all[i as int] == entry.deep_view());
            }
            if !is_last {
                slot_raw |= 0x80;
            }
            let ghost before = to.written();
            to.serialize_byte(slot_raw)?;
            match entry.item.mc_serialize(to) {
                Err(e) => {
                    proof {
                        assert(!<Slot>::serializable(all[i as int].item) || !old(to).infallible());
                    }
                    return Err(e);
                },
                Ok(_) => {},
            }
            proof {
                lemma_push_then_add(
                    old(to).written(),
                    equipment_upto(all, i as nat),
                    slot_raw,
                    <Slot>::encode(all[i as int].item),
                );
                assert(seq![slot_raw] + <Slot>::encode(all[i as int].item)
                    == equipment_entry_bytes(all[i as int], !is_last));
            }
            i += 1;
        }
        Ok(())
    }
}

/// The equipment read off the front of `data`: pieces up to and including
/// the first whose slot byte has a clear top bit.
///
/// The test on the length that a piece took is there to show that the
/// recursion ends; no piece takes more than there is.
#[verifier::opaque]
pub open spec fn parse_equipment(data: Seq<u8>) -> Decoded<Seq<EntityEquipmentEntryView>>
    decreases data.len(),
{
    if data.len() < 1 {
        Err(DecodeFailure::Eof)
    } else {
        match EquipmentSlot::decode_with_id(data[0] % 128, data.skip(1)) {
            Err(e) => Err(e),
            Ok((slot, _)) => match <Slot>::decode(data.skip(1)) {
                Err(e) => Err(e),
                Ok((item, n)) => {
                    let entry = EntityEquipmentEntryView { slot, item };
                    if data[0] < 128 {
                        Ok((seq![entry], 1 + n))
                    } else if 1 + n <= data.len() {
                        after(seq![entry], 1 + n, parse_equipment(data.skip((1 + n) as int)))
                    } else {
                        Err(DecodeFailure::Eof)
                    }
                },
            },
        }
    }
}

/// One step of reading equipment: a piece, and the rest where its slot byte
/// says that more follow.
pub proof fn lemma_equipment_step(here: Seq<u8>)
    ensures
        here.len() < 1 ==> parse_equipment(here) == Err::<(Seq<EntityEquipmentEntryView>, nat), _>(
            DecodeFailure::Eof,
        ),
        here.len() >= 1 ==> match EquipmentSlot::decode_with_id(here[0] % 128, here.skip(1)) {
            Err(e) => parse_equipment(here) == Err::<(Seq<EntityEquipmentEntryView>, nat), _>(e),
            Ok((slot, _)) => match <Slot>::decode(here.skip(1)) {
                Err(e) => parse_equipment(here) == Err::<
                    (Seq<EntityEquipmentEntryView>, nat),
                    _,
                >(e),
                Ok((item, n)) => if here[0] < 128 {
                    parse_equipment(here) == Ok::<_, DecodeFailure>(
                        (seq![EntityEquipmentEntryView { slot, item }], 1 + n),
                    )
                } else {
                    1 + n <= here.len() ==> parse_equipment(here) == after(
                        seq![EntityEquipmentEntryView { slot, item }],
                        1 + n,
                        parse_equipment(here.skip((1 + n) as int)),
                    )
                },
            },
        },
{
    reveal(parse_equipment);
}

/// Bytes pushed and added at the end of two runs are added to the second.
proof fn lemma_push_then_add(a: Seq<u8>, b: Seq<u8>, x: u8, c: Seq<u8>)
    ensures
        (a + b).push(x) + c == a + (b + (seq![x] + c)),
{
    assert((a + b).push(x) + c =~= a + (b + (seq![x] + c)));
}

/// A piece put behind the pieces seen, in front of an outcome.
proof fn lemma_after_push(
    seen: Seq<EntityEquipmentEntryView>,
    taken: nat,
    first: EntityEquipmentEntryView,
    n: nat,
    tail: Decoded<Seq<EntityEquipmentEntryView>>,
)
    ensures
        after(seen, taken, after(seq![first], n, tail)) == after(seen.push(first), taken + n, tail),
        after(seen, taken, Ok::<_, DecodeFailure>((seq![first], n))) == Ok::<_, DecodeFailure>(
            (seen.push(first), taken + n),
        ),
{
    assert(seen + seq![first] =~= seen.push(first));
    match tail {
        Ok((items, m)) => {
            assert(seen + (seq![first] + items) =~= seen.push(first) + items);
        },
        Err(_) => {},
    }
}

impl Deserialize for EntityEquipmentArray {
    open spec fn decode(data: Seq<u8>) -> Decoded<Seq<EntityEquipmentEntryView>> {
        parse_equipment(data)
    }

    fn mc_deserialize(data: &[u8]) -> (r: DeserializeResult<'_, EntityEquipmentArray>) {
        proof {
            reveal(<u8 as Deserialize>::decode);
            lemma_equipment_step(data@);
        }
        if data.is_empty() {
            return Err(DeserializeErr::Eof);
        }
        let mut out: Vec<EntityEquipmentEntry> = Vec::new();
        let mut remaining = data;
        let ghost whole = parse_equipment(data@);
        proof {
            assert(data@.skip(0) =~= data@);
            assert(out.deep_view() =~= Seq::<EntityEquipmentEntryView>::empty());
            match whole {
                Ok((items, m)) => {
                    assert(Seq::<EntityEquipmentEntryView>::empty() + items =~= items);
                },
                Err(_) => {},
            }
            assert(whole == after(out.deep_view(), 0, parse_equipment(data@)));
        }
        loop
            invariant_except_break
                whole == after(
                    out.deep_view(),
                    (data@.len() - remaining@.len()) as nat,
                    parse_equipment(remaining@),
                ),
            invariant
                remaining@.len() <= data@.len(),
                remaining@ == data@.skip(data@.len() - remaining@.len()),
                whole == parse_equipment(data@),
            ensures
                whole matches Ok((entries, n)) && entries == out.deep_view() && n <= data@.len()
                    && remaining@ == data@.skip(n as int),
            decreases remaining@.len(),
        {
            let ghost seen = out.deep_view();
            let ghost taken = (data@.len() - remaining@.len()) as nat;
            let ghost here = remaining@;
            proof {
                lemma_equipment_step(here);
            }
            proof {
                reveal(<u8 as Deserialize>::decode);
            }
            let Deserialized { value: raw_slot_id, data: rest } = u8::mc_deserialize(remaining)?;
            proof {
                lemma_slot_byte(raw_slot_id);
            }
            let has_next = raw_slot_id & 0x80 != 0;
            let slot_id = raw_slot_id & 0x7F;
            let Deserialized { value: slot, data: rest } = EquipmentSlot::deserialize_with_id(
                slot_id,
                rest,
            )?;
            proof {
                assert(rest@ =~= here.skip(1));
            }
            let Deserialized { value: item, data: rest } = <Slot>::mc_deserialize(rest)?;
            let ghost n = (here.len() - 1 - rest@.len()) as nat;
            let entry = EntityEquipmentEntry { slot, item };
            let ghost first = entry.deep_view();
            proof {
                assert(rest@ =~= here.skip((1 + n) as int));
                assert(rest@ =~= data@.skip((taken + 1 + n) as int));
            }
            out.push(entry);
            proof {
                assert(out.deep_view() =~= seen.push(first));
                lemma_after_push(seen, taken, first, 1 + n, parse_equipment(rest@));
            }
            remaining = rest;
            if !has_next {
                break ;
            }
        }
        Ok(Deserialized { value: EntityEquipmentArray { data: out }, data: remaining })
    }
}

/// The pieces on the wire are the first piece, then the others.
pub proof fn lemma_equipment_front(entries: Seq<EntityEquipmentEntryView>, k: nat)
    requires
        1 <= k <= entries.len(),
    ensures
        equipment_upto(entries, k) == equipment_entry_bytes(entries[0], 1 < entries.len())
            + equipment_upto(entries.skip(1), (k - 1) as nat),
    decreases k,
{
    let tail = entries.skip(1);
    if k == 1 {
        assert(equipment_upto(entries, 0) =~= Seq::<u8>::empty());
        assert(equipment_upto(tail, 0) =~= Seq::<u8>::empty());
        assert(equipment_upto(entries, 1) =~= equipment_entry_bytes(entries[0], 1 < entries.len()));
        assert(equipment_entry_bytes(entries[0], 1 < entries.len()) + Seq::<u8>::empty()
            =~= equipment_entry_bytes(entries[0], 1 < entries.len()));
    } else {
        lemma_equipment_front(entries, (k - 1) as nat);
        assert(tail[k - 2] == entries[k - 1]);
        let head = equipment_entry_bytes(entries[0], 1 < entries.len());
        let mid = equipment_upto(tail, (k - 2) as nat);
        let last = equipment_entry_bytes(entries[k - 1], k < entries.len());
        assert((head + mid) + last =~= head + (mid + last));
    }
}

impl ProtocolType for EntityEquipmentArray {
    /// There has to be a piece, and every item has to come back.
    open spec fn faithful(v: Seq<EntityEquipmentEntryView>) -> bool {
        v.len() > 0 && forall|i: int| 0 <= i < v.len() ==> <Slot>::faithful((#[trigger] v[i]).item)
    }

    open spec fn delimited() -> bool {
        true
    }

    proof fn lemma_round_trip(v: Seq<EntityEquipmentEntryView>, rest: Seq<u8>)
        decreases v.len(),
    {
        reveal(<u8 as Serialize>::encode);
        reveal(<u8 as Deserialize>::decode);
        let first = v[0];
        let tail = v.skip(1);
        let more = 1 < v.len();
        let head = equipment_entry_bytes(first, more);
        let others = equipment_upto(tail, tail.len());
        lemma_equipment_front(v, v.len());
        lemma_equipment_first(first, more, others + rest);
        lemma_equipment_writable(v);
        assert(Self::encode(v) + rest =~= head + (others + rest));
        if more {
            assert forall|i: int| 0 <= i < tail.len() implies <Slot>::faithful(
                (#[trigger] tail[i]).item,
            ) by {
                assert(tail[i] == v[i + 1]);
            }
            Self::lemma_round_trip(tail, rest);
            assert(seq![first] + tail =~= v);
        } else {
            assert(others =~= Seq::<u8>::empty());
            assert(seq![first] =~= v);
            assert(Self::encode(v) =~= head);
        }
    }
}

/// One piece, written out and followed by anything, reads back; where the
/// piece is marked, what follows is read as more pieces.
proof fn lemma_equipment_first(first: EntityEquipmentEntryView, more: bool, rest: Seq<u8>)
    requires
        <Slot>::faithful(first.item),
    ensures
        parse_equipment(equipment_entry_bytes(first, more) + rest) == if more {
            after(seq![first], equipment_entry_bytes(first, more).len(), parse_equipment(rest))
        } else {
            Ok::<_, DecodeFailure>((seq![first], equipment_entry_bytes(first, more).len()))
        },
{
    let slot_byte = (EquipmentSlot::id_of(first.slot) + if more { 128int } else { 0int }) as u8;
    let item = <Slot>::encode(first.item);
    let data = equipment_entry_bytes(first, more) + rest;
    <Slot>::lemma_round_trip(first.item, rest);
    lemma_equipment_layout(slot_byte, item, Seq::empty(), rest);
    assert(Seq::<u8>::empty() + rest =~= rest);
    assert(data =~= seq![slot_byte] + item + Seq::<u8>::empty() + rest);
    lemma_equipment_step(data);
}

/// How the bytes of some equipment lie: the slot byte, the item, the rest.
proof fn lemma_equipment_layout(slot_byte: u8, item: Seq<u8>, others: Seq<u8>, rest: Seq<u8>)
    ensures
        (seq![slot_byte] + item + others + rest).len() >= 1,
        (seq![slot_byte] + item + others + rest)[0] == slot_byte,
        (seq![slot_byte] + item + others + rest).skip(1) == item + (others + rest),
        (seq![slot_byte] + item + others + rest).skip((1 + item.len()) as int) == others + rest,
{
    let data = seq![slot_byte] + item + others + rest;
    assert(data.skip(1) =~= item + (others + rest));
    assert(data.skip((1 + item.len()) as int) =~= others + rest);
}

/// Equipment whose items come back can be written.
proof fn lemma_equipment_writable(v: Seq<EntityEquipmentEntryView>)
    requires
        forall|i: int| 0 <= i < v.len() ==> <Slot>::faithful((#[trigger] v[i]).item),
    ensures
        forall|i: int| 0 <= i < v.len() ==> <Slot>::serializable((#[trigger] v[i]).item),
{
    assert forall|i: int| 0 <= i < v.len() implies <Slot>::serializable((#[trigger] v[i]).item) by {
        <Slot>::lemma_round_trip(v[i].item, Seq::empty());
    }
}

impl From<Vec<EntityEquipmentEntry>> for EntityEquipmentArray {
    fn from(data: Vec<EntityEquipmentEntry>) -> (r: Self) {
        Self { data }
    }
}

impl vstd::std_specs::convert::FromSpecImpl<Vec<EntityEquipmentEntry>> for EntityEquipmentArray {
    open spec fn obeys_from_spec() -> bool {
        true
    }

    open spec fn from_spec(v: Vec<EntityEquipmentEntry>) -> Self {
        EntityEquipmentArray { data: v }
    }
}

impl From<EntityEquipmentArray> for Vec<EntityEquipmentEntry> {
    fn from(other: EntityEquipmentArray) -> (r: Self) {
        other.data
    }
}

impl vstd::std_specs::convert::FromSpecImpl<EntityEquipmentArray> for Vec<EntityEquipmentEntry> {
    open spec fn obeys_from_spec() -> bool {
        true
    }

    open spec fn from_spec(v: EntityEquipmentArray) -> Self {
        v.data
    }
}

/// Which sounds to stop: those of one category, one sound by name, both
/// narrowed together, or, with neither given, all.
#[derive(Clone, Debug, PartialEq)]
pub struct StopSoundSpec {
    pub source: Option<SoundCategory>,
    pub sound: Option<String>,
}

/// The mathematical content of a [`StopSoundSpec`].
pub struct StopSoundSpecView {
    pub source: Option<SoundCategory>,
    pub sound: Option<Seq<char>>,
}

impl DeepView for StopSoundSpec {
    type V = StopSoundSpecView;

    open spec fn deep_view(&self) -> StopSoundSpecView {
        StopSoundSpecView { source: self.source, sound: self.sound.deep_view() }
    }
}

/// The flag byte in front: 1 for a category, 2 for a name.
pub open spec fn stop_sound_flags(v: StopSoundSpecView) -> u8 {
    ((if v.source is Some { 1int } else { 0int }) + (if v.sound is Some { 2int } else { 0int })) as u8
}

/// The bytes of a part that is only there if it is given.
pub open spec fn if_given<T: Serialize>(part: Option<T::V>) -> Seq<u8> {
    match part {
        Some(v) => T::encode(v),
        None => Seq::empty(),
    }
}

proof fn lemma_two_flags(flags: u8)
    by (bit_vector)
    ensures
        flags & 0x01 != 0 <==> flags % 2 == 1,
        flags & 0x02 != 0 <==> (flags / 2) % 2 == 1,
        0u8 | 0x02 == 2,
        0u8 | 0x01 == 1,
        2u8 | 0x01 == 3,
{
}

impl Serialize for StopSoundSpec {
    open spec fn serializable(v: StopSoundSpecView) -> bool {
        true
    }

    open spec fn encode(v: StopSoundSpecView) -> Seq<u8> {
        seq![stop_sound_flags(v)] + if_given::<SoundCategory>(v.source) + if_given::<String>(
            v.sound,
        )
    }

    fn mc_serialize<S: Serializer>(&self, to: &mut S) -> (r: SerializeResult) {
        proof {
            reveal(<u8 as Serialize>::encode);
        }
        let has_sound = self.sound.is_some();
        let has_source = self.source.is_some();
        let mut flags: u8 = 0;
        proof {
            lemma_two_flags(0);
        }
        if has_sound {
            flags |= 0x02;
        }
        if has_source {
            flags |= 0x01;
        }
        to.serialize_byte(flags)?;
        if let Some(source) = &self.source {
            source.mc_serialize(to)?;
        }
        if let Some(sound) = &self.sound {
            sound.mc_serialize(to)?;
        }
        proof {
            assert(to.written() =~= old(to).written() + Self::encode(self.deep_view()));
        }
        Ok(())
    }
}

/// A part that is only there if `given`: read off the front of `data`, or
/// nothing, from no bytes.
pub open spec fn decode_if_given<T: Deserialize>(given: bool, data: Seq<u8>) -> Decoded<
    Option<T::V>,
> {
    if given {
        match T::decode(data) {
            Ok((v, n)) => Ok((Some(v), n)),
            Err(e) => Err(e),
        }
    } else {
        Ok((None, 0))
    }
}

impl Deserialize for StopSoundSpec {
    open spec fn decode(data: Seq<u8>) -> Decoded<StopSoundSpecView> {
        if data.len() < 1 {
            Err(DecodeFailure::Eof)
        } else {
            match decode_if_given::<SoundCategory>(data[0] % 2 == 1, data.skip(1)) {
                Err(e) => Err(e),
                Ok((source, n0)) => match decode_if_given::<String>(
                    (data[0] / 2) % 2 == 1,
                    data.skip((1 + n0) as int),
                ) {
                    Err(e) => Err(e),
                    Ok((sound, n1)) => Ok((StopSoundSpecView { source, sound }, 1 + n0 + n1)),
                },
            }
        }
    }

    fn mc_deserialize(data: &[u8]) -> (r: DeserializeResult<'_, StopSoundSpec>) {
        proof {
            reveal(<u8 as Deserialize>::decode);
        }
        let ghost whole = data@;
        let Deserialized { value: flags, data: rest0 } = u8::mc_deserialize(data)?;
        proof {
            lemma_two_flags(flags);
        }
        let is_source_present = flags & 0x01 != 0;
        let is_sound_present = flags & 0x02 != 0;

        let (source, rest1) = if is_source_present {
            let Deserialized { value: source, data: rest } = SoundCategory::mc_deserialize(rest0)?;
            (Some(source), rest)
        } else {
            (None, rest0)
        };
        proof {
            assert(rest1@ =~= whole.skip(whole.len() - rest1@.len()));
        }
        let (sound, rest2) = if is_sound_present {
            let Deserialized { value: sound, data: rest } = String::mc_deserialize(rest1)?;
            (Some(sound), rest)
        } else {
            (None, rest1)
        };
        proof {
            assert(rest2@ =~= whole.skip(whole.len() - rest2@.len()));
        }
        Ok(Deserialized { value: StopSoundSpec { source, sound }, data: rest2 })
    }
}

impl ProtocolType for StopSoundSpec {
    open spec fn faithful(v: StopSoundSpecView) -> bool {
        match v.sound {
            Some(name) => String::faithful(name),
            None => true,
        }
    }

    open spec fn delimited() -> bool {
        true
    }

    proof fn lemma_round_trip(v: StopSoundSpecView, rest: Seq<u8>) {
        reveal(<u8 as Serialize>::encode);
        reveal(<u8 as Deserialize>::decode);
        let e1 = if_given::<SoundCategory>(v.source);
        let e2 = if_given::<String>(v.sound);
        let data = Self::encode(v) + rest;
        assert(data =~= seq![stop_sound_flags(v)] + (e1 + (e2 + rest)));
        assert(data.skip(1) =~= e1 + (e2 + rest));
        assert(data.skip((1 + e1.len()) as int) =~= e2 + rest);
        match v.source {
            Some(s) => {
                SoundCategory::lemma_round_trip(s, e2 + rest);
            },
            None => {},
        }
        match v.sound {
            Some(s) => {
                String::lemma_round_trip(s, rest);
            },
            None => {},
        }
    }
}

/// How an advancement shows: with a background of its own or none, with
/// or without a toast, hidden or not. On the wire a 32-bit number holds a
/// bit for each; the name of the background follows where there is one.
#[derive(Clone, Debug, PartialEq)]
pub struct AdvancementDisplayFlags {
    pub background_texture: Option<String>,
    pub show_toast: bool,
    pub hidden: bool,
}

/// The mathematical content of an [`AdvancementDisplayFlags`].
pub struct AdvancementDisplayFlagsView {
    pub background_texture: Option<Seq<char>>,
    pub show_toast: bool,
    pub hidden: bool,
}

impl DeepView for AdvancementDisplayFlags {
    type V = AdvancementDisplayFlagsView;

    open spec fn deep_view(&self) -> AdvancementDisplayFlagsView {
        AdvancementDisplayFlagsView {
            background_texture: self.background_texture.deep_view(),
            show_toast: self.show_toast,
            hidden: self.hidden,
        }
    }
}

/// The number in front: 1 for a background, 2 for a toast, 4 for hidden.
pub open spec fn display_flags(v: AdvancementDisplayFlagsView) -> i32 {
    ((if v.background_texture is Some { 1int } else { 0int }) + (if v.show_toast {
        2int
    } else {
        0int
    }) + (if v.hidden { 4int } else { 0int })) as i32
}

proof fn lemma_three_flags(flags: i32, built: i32)
    by (bit_vector)
    requires
        0 <= built < 4,
    ensures
        flags & 0x01 != 0 <==> (flags as u32) % 2 == 1,
        flags & 0x02 != 0 <==> ((flags as u32) / 2) % 2 == 1,
        flags & 0x04 != 0 <==> ((flags as u32) / 4) % 2 == 1,
        0i32 | 0x01 == 1,
        built < 2 ==> built | 0x02 == built + 2,
        built | 0x04 == built + 4,
{
}

impl Serialize for AdvancementDisplayFlags {
    open spec fn serializable(v: AdvancementDisplayFlagsView) -> bool {
        true
    }

    open spec fn encode(v: AdvancementDisplayFlagsView) -> Seq<u8> {
        i32::encode(display_flags(v)) + if_given::<String>(v.background_texture)
    }

    fn mc_serialize<S: Serializer>(&self, to: &mut S) -> (r: SerializeResult) {
        proof {
            reveal(<i32 as Serialize>::encode);
        }
        let mut raw_flags: i32 = 0;
        if self.background_texture.is_some() {
            proof {
                lemma_three_flags(0, 0);
            }
            raw_flags |= 0x01;
        }
        if self.show_toast {
            proof {
                lemma_three_flags(0, raw_flags);
            }
            raw_flags |= 0x02;
        }
        if self.hidden {
            proof {
                lemma_three_flags(0, raw_flags);
            }
            raw_flags |= 0x04;
        }
        raw_flags.mc_serialize(to)?;
        if let Some(texture) = &self.background_texture {
            texture.mc_serialize(to)?;
        }
        proof {
            assert(to.written() =~= old(to).written() + Self::encode(self.deep_view()));
        }
        Ok(())
    }
}

impl Deserialize for AdvancementDisplayFlags {
    open spec fn decode(data: Seq<u8>) -> Decoded<AdvancementDisplayFlagsView> {
        if data.len() < 4 {
            Err(DecodeFailure::Eof)
        } else {
            let flags = be_value(data.take(4));
            match decode_if_given::<String>(flags % 2 == 1, data.skip(4)) {
                Err(e) => Err(e),
                Ok((background_texture, n)) => Ok(
                    (
                        AdvancementDisplayFlagsView {
                            background_texture,
                            show_toast: (flags / 2) % 2 == 1,
                            hidden: (flags / 4) % 2 == 1,
                        },
                        4 + n,
                    ),
                ),
            }
        }
    }

    fn mc_deserialize(data: &[u8]) -> (r: DeserializeResult<'_, AdvancementDisplayFlags>) {
        proof {
            reveal(<i32 as Deserialize>::decode);
        }
        let ghost whole = data@;
        let Deserialized { value: raw_flags, data: rest0 } = i32::mc_deserialize(data)?;
        proof {
            lemma_three_flags(raw_flags, 0);
            lemma_pattern_i32(raw_flags, 0);
            lemma_radix_values();
            crate::byte_order::lemma_be_value_bound(whole.take(4));
            let u = be_value(whole.take(4));
            assert(u == (raw_flags as u32) as nat);
        }
        let has_background_texture = raw_flags & 0x01 != 0;
        let show_toast = raw_flags & 0x02 != 0;
        let hidden = raw_flags & 0x04 != 0;
        let (background_texture, rest1) = if has_background_texture {
            let Deserialized { value: id, data: rest } = String::mc_deserialize(rest0)?;
            (Some(id), rest)
        } else {
            (None, rest0)
        };
        proof {
            assert(rest1@ =~= whole.skip(whole.len() - rest1@.len()));
        }
        Ok(
            Deserialized {
                value: AdvancementDisplayFlags { background_texture, show_toast, hidden },
                data: rest1,
            },
        )
    }
}

impl ProtocolType for AdvancementDisplayFlags {
    open spec fn faithful(v: AdvancementDisplayFlagsView) -> bool {
        match v.background_texture {
            Some(name) => String::faithful(name),
            None => true,
        }
    }

    open spec fn delimited() -> bool {
        true
    }

    proof fn lemma_round_trip(v: AdvancementDisplayFlagsView, rest: Seq<u8>) {
        reveal(<i32 as Serialize>::encode);
        reveal(<i32 as Deserialize>::decode);
        let e0 = i32::encode(display_flags(v));
        let e1 = if_given::<String>(v.background_texture);
        let data = Self::encode(v) + rest;
        lemma_radix_values();
        lemma_fixed_round_trip(display_flags(v) as nat, 4, e1 + rest);
        assert(data =~= e0 + (e1 + rest));
        assert(data.skip(4) =~= e1 + rest);
        match v.background_texture {
            Some(s) => {
                String::lemma_round_trip(s, rest);
            },
            None => {},
        }
    }
}

/// What changed on a map: nothing, or a rectangle of it.
#[derive(Clone, PartialEq, Debug)]
pub enum MapColumns {
    NoUpdates,
    Updated(MapColumnsSpec),
}

/// The mathematical content of a [`MapColumns`].
pub enum MapColumnsView {
    NoUpdates,
    Updated(MapColumnsSpecView),
}

impl DeepView for MapColumns {
    type V = MapColumnsView;

    open spec fn deep_view(&self) -> MapColumnsView {
        match self {
            MapColumns::NoUpdates => MapColumnsView::NoUpdates,
            MapColumns::Updated(body) => MapColumnsView::Updated(body.deep_view()),
        }
    }
}

// No change is a lone zero byte: a rectangle with no columns.
impl Serialize for MapColumns {
    open spec fn serializable(v: MapColumnsView) -> bool {
        match v {
            MapColumnsView::NoUpdates => true,
            MapColumnsView::Updated(body) => MapColumnsSpec::serializable(body),
        }
    }

    open spec fn encode(v: MapColumnsView) -> Seq<u8> {
        match v {
            MapColumnsView::NoUpdates => seq![0u8],
            MapColumnsView::Updated(body) => MapColumnsSpec::encode(body),
        }
    }

    fn mc_serialize<S: Serializer>(&self, to: &mut S) -> (r: SerializeResult) {
        proof {
            reveal(<u8 as Serialize>::encode);
        }
        match self {
            MapColumns::NoUpdates => 0u8.mc_serialize(to),
            MapColumns::Updated(body) => body.mc_serialize(to),
        }
    }
}

impl Deserialize for MapColumns {
    open spec fn decode(data: Seq<u8>) -> Decoded<MapColumnsView> {
        if data.len() < 1 {
            Err(DecodeFailure::Eof)
        } else if data[0] == 0x00 {
            Ok((MapColumnsView::NoUpdates, 1))
        } else {
            match MapColumnsSpec::decode(data) {
                Ok((body, n)) => Ok((MapColumnsView::Updated(body), n)),
                Err(e) => Err(e),
            }
        }
    }

    fn mc_deserialize(data: &[u8]) -> (r: DeserializeResult<'_, MapColumns>) {
        proof {
            reveal(<u8 as Deserialize>::decode);
        }
        let Deserialized { value: columns, data: rest } = u8::mc_deserialize(data)?;
        match columns {
            0x00 => Ok(Deserialized { value: MapColumns::NoUpdates, data: rest }),
            _ => {
                let Deserialized { value: body, data: after } = MapColumnsSpec::mc_deserialize(
                    data,
                )?;
                Ok(Deserialized { value: MapColumns::Updated(body), data: after })
            },
        }
    }
}

impl ProtocolType for MapColumns {
    /// A rectangle has to have columns: one with none stands for no change.
    open spec fn faithful(v: MapColumnsView) -> bool {
        match v {
            MapColumnsView::NoUpdates => true,
            MapColumnsView::Updated(body) => body.columns != 0 && MapColumnsSpec::faithful(body),
        }
    }

    open spec fn delimited() -> bool {
        true
    }

    proof fn lemma_round_trip(v: MapColumnsView, rest: Seq<u8>) {
        reveal(<u8 as Serialize>::encode);
        reveal(<u8 as Deserialize>::decode);
        match v {
            MapColumnsView::NoUpdates => {},
            MapColumnsView::Updated(body) => {
                reveal(<MapColumnsSpec as Serialize>::encode);
                MapColumnsSpec::lemma_round_trip(body, rest);
                let data = MapColumnsSpec::encode(body) + rest;
                assert(data[0] == body.columns);
            },
        }
    }
}

impl MapColumns {
    /// The rectangle, if there is one.
    pub fn into_option(self) -> (r: Option<MapColumnsSpec>)
        ensures
            r == match self {
                MapColumns::NoUpdates => None,
                MapColumns::Updated(body) => Some(body),
            },
    {
        match self {
            MapColumns::NoUpdates => None,
            MapColumns::Updated(body) => Some(body),
        }
    }
}

impl From<Option<MapColumnsSpec>> for MapColumns {
    fn from(other: Option<MapColumnsSpec>) -> (r: Self) {
        match other {
            Some(body) => {
                if body.columns == 0 {
                    MapColumns::NoUpdates
                } else {
                    MapColumns::Updated(body)
                }
            },
            None => MapColumns::NoUpdates,
        }
    }
}

impl vstd::std_specs::convert::FromSpecImpl<Option<MapColumnsSpec>> for MapColumns {
    open spec fn obeys_from_spec() -> bool {
        true
    }

    open spec fn from_spec(v: Option<MapColumnsSpec>) -> Self {
        match v {
            Some(body) => if body.columns == 0 {
                MapColumns::NoUpdates
            } else {
                MapColumns::Updated(body)
            },
            None => MapColumns::NoUpdates,
        }
    }
}

/// One of the six directions along an axis.
#[derive(PartialEq, Eq, Structural, Clone, Copy, Debug)]
pub enum EntityDirection {
    Down,
    Up,
    North,
    South,
    West,
    East,
}

impl View for EntityDirection {
    type V = EntityDirection;

    open spec fn view(&self) -> EntityDirection {
        *self
    }
}

impl DeepView for EntityDirection {
    type V = EntityDirection;

    open spec fn deep_view(&self) -> EntityDirection {
        *self
    }
}

impl EntityDirection {
    pub fn variant_count() -> (r: usize)
        ensures
            r == 6,
    {
        6
    }

    /// The number that stands for the variant on the wire.
    pub open spec fn id_of(v: EntityDirection) -> i32 {
        match v {
            EntityDirection::Down => 0x00,
            EntityDirection::Up => 0x01,
            EntityDirection::North => 0x02,
            EntityDirection::South => 0x03,
            EntityDirection::West => 0x04,
            EntityDirection::East => 0x05,
        }
    }

    pub fn id(&self) -> (r: VarInt)
        ensures
            r == VarInt(Self::id_of(self.deep_view())),
    {
        match self {
            EntityDirection::Down => VarInt(0x00),
            EntityDirection::Up => VarInt(0x01),
            EntityDirection::North => VarInt(0x02),
            EntityDirection::South => VarInt(0x03),
            EntityDirection::West => VarInt(0x04),
            EntityDirection::East => VarInt(0x05),
        }
    }

    pub open spec fn name_of(v: EntityDirection) -> Seq<char> {
        match v {
            EntityDirection::Down => "Down"@,
            EntityDirection::Up => "Up"@,
            EntityDirection::North => "North"@,
            EntityDirection::South => "South"@,
            EntityDirection::West => "West"@,
            EntityDirection::East => "East"@,
        }
    }

    pub fn name(&self) -> (r: &'static str)
        ensures
            r@ == Self::name_of(self.deep_view()),
    {
        match self {
            EntityDirection::Down => "Down",
            EntityDirection::Up => "Up",
            EntityDirection::North => "North",
            EntityDirection::South => "South",
            EntityDirection::West => "West",
            EntityDirection::East => "East",
        }
    }

    /// The bytes that follow the number.
    pub open spec fn body_of(v: EntityDirection) -> Seq<u8> {
        match v {
            EntityDirection::Down => Seq::empty(),
            EntityDirection::Up => Seq::empty(),
            EntityDirection::North => Seq::empty(),
            EntityDirection::South => Seq::empty(),
            EntityDirection::West => Seq::empty(),
            EntityDirection::East => Seq::empty(),
        }
    }

    /// Whether what follows the number can be written.
    pub open spec fn body_writable(v: EntityDirection) -> bool {
        match v {
            EntityDirection::Down => true,
            EntityDirection::Up => true,
            EntityDirection::North => true,
            EntityDirection::South => true,
            EntityDirection::West => true,
            EntityDirection::East => true,
        }
    }

    /// The variant that `id` stands for, with its body read from `data`.
    pub open spec fn decode_with_id(id: i32, data: Seq<u8>) -> Decoded<EntityDirection> {
        if id == 0x00 {
            Ok((EntityDirection::Down, 0))
        } else if id == 0x01 {
            Ok((EntityDirection::Up, 0))
        } else if id == 0x02 {
            Ok((EntityDirection::North, 0))
        } else if id == 0x03 {
            Ok((EntityDirection::South, 0))
        } else if id == 0x04 {
            Ok((EntityDirection::West, 0))
        } else if id == 0x05 {
            Ok((EntityDirection::East, 0))
        } else {
            Err(DecodeFailure::CannotUnderstandValue)
        }
    }

    /// Whether `id` stands for a variant.
    pub open spec fn has_id(id: i32) -> bool {
        id == 0x00
            || id == 0x01
            || id == 0x02
            || id == 0x03
            || id == 0x04
            || id == 0x05
    }

    /// Picks the variant for `id` and reads its body from `data`. A number
    /// that stands for no variant is refused, and the error says which.
    pub fn deserialize_with_id<'a>(id: VarInt, data: &'a [u8]) -> (r: DeserializeResult<'a, Self>)
        ensures
            agrees(r, data@, Self::decode_with_id(id.0, data@)),
            !Self::has_id(id.0) ==> (r matches Err(DeserializeErr::CannotUnderstandValue(m))
                && m@ == invalid_int_text("EntityDirection"@, id.0 as int)),
    {
        proof {
            assert(data@.skip(0) =~= data@);
        }
        match id.0 {
            0x00 => Ok(Deserialized { value: EntityDirection::Down, data }),
            0x01 => Ok(Deserialized { value: EntityDirection::Up, data }),
            0x02 => Ok(Deserialized { value: EntityDirection::North, data }),
            0x03 => Ok(Deserialized { value: EntityDirection::South, data }),
            0x04 => Ok(Deserialized { value: EntityDirection::West, data }),
            0x05 => Ok(Deserialized { value: EntityDirection::East, data }),
            other => Err(DeserializeErr::CannotUnderstandValue(invalid_int_message("EntityDirection", other))),
        }
    }

    /// Writes what follows the number.
    pub fn serialize_body<S: Serializer>(&self, to: &mut S) -> (r: SerializeResult)
        ensures
            r is Ok ==> Self::body_writable(self.deep_view()) && final(to).written() == old(
                to,
            ).written() + Self::body_of(self.deep_view()),
            old(to).infallible() ==> final(to).infallible(),
            old(to).infallible() ==> (r is Ok <==> Self::body_writable(self.deep_view())),
            old(to).infallible() && r is Err ==> (r matches Err(SerializeErr::CannotSerialize(_))),
    {
        match self {
            EntityDirection::Down => {
                proof {
                    assert(old(to).written() + Seq::<u8>::empty() =~= old(to).written());
                }
                Ok(())
            },
            EntityDirection::Up => {
                proof {
                    assert(old(to).written() + Seq::<u8>::empty() =~= old(to).written());
                }
                Ok(())
            },
            EntityDirection::North => {
                proof {
                    assert(old(to).written() + Seq::<u8>::empty() =~= old(to).written());
                }
                Ok(())
            },
            EntityDirection::South => {
                proof {
                    assert(old(to).written() + Seq::<u8>::empty() =~= old(to).written());
                }
                Ok(())
            },
            EntityDirection::West => {
                proof {
                    assert(old(to).written() + Seq::<u8>::empty() =~= old(to).written());
                }
                Ok(())
            },
            EntityDirection::East => {
                proof {
                    assert(old(to).written() + Seq::<u8>::empty() =~= old(to).written());
                }
                Ok(())
            },
        }
    }
}

impl Serialize for EntityDirection {
    open spec fn serializable(v: EntityDirection) -> bool {
        Self::body_writable(v)
    }

    #[verifier::opaque]
    open spec fn encode(v: EntityDirection) -> Seq<u8> {
        <VarInt>::encode(VarInt(Self::id_of(v))) + Self::body_of(v)
    }

    fn mc_serialize<S: Serializer>(&self, to: &mut S) -> (r: SerializeResult) {
        proof {
            reveal(<EntityDirection as Serialize>::encode);
        }
        let id_to_serialize: VarInt = self.id();
        id_to_serialize.mc_serialize(to)?;
        let r = self.serialize_body(to);
        proof {
            let head = <VarInt>::encode(VarInt(Self::id_of(self.deep_view())));
            let body = Self::body_of(self.deep_view());
            lemma_concat_assoc(old(to).written(), head, body);
        }
        r
    }
}

impl Deserialize for EntityDirection {
    #[verifier::opaque]
    open spec fn decode(data: Seq<u8>) -> Decoded<EntityDirection> {
        match <VarInt>::decode(data) {
            Err(e) => Err(e),
            Ok((id, n)) => match Self::decode_with_id(id.0, data.skip(n as int)) {
                Ok((v, m)) => Ok((v, n + m)),
                Err(e) => Err(e),
            },
        }
    }

    fn mc_deserialize(data: &[u8]) -> (r: DeserializeResult<'_, EntityDirection>) {
        proof {
            reveal(<EntityDirection as Deserialize>::decode);
        }
        let Deserialized { value: id, data: rest } = <VarInt>::mc_deserialize(data)?;
        let Deserialized { value, data: after } = Self::deserialize_with_id(id, rest)?;
        proof {
            lemma_skip_skip(data@, data@.len() - rest@.len(), rest@.len() - after@.len());
        }
        Ok(Deserialized { value, data: after })
    }
}

impl ProtocolType for EntityDirection {
    open spec fn faithful(v: EntityDirection) -> bool {
        match v {
            EntityDirection::Down => true,
            EntityDirection::Up => true,
            EntityDirection::North => true,
            EntityDirection::South => true,
            EntityDirection::West => true,
            EntityDirection::East => true,
        }
    }

    open spec fn delimited() -> bool {
        true
    }

    proof fn lemma_round_trip(v: EntityDirection, rest: Seq<u8>) {
        reveal(<EntityDirection as Serialize>::encode);
        reveal(<EntityDirection as Deserialize>::decode);
        let head = <VarInt>::encode(VarInt(Self::id_of(v)));
        let body = Self::body_of(v);
        <VarInt>::lemma_round_trip(VarInt(Self::id_of(v)), body + rest);
        Self::lemma_body_round_trip(v, rest);
        lemma_concat_assoc(head, body, rest);
        lemma_skip_concat(head, body + rest);
    }
}

impl EntityDirection {
    /// What follows the number, written out and followed by anything, reads
    /// back under that number.
    pub proof fn lemma_body_round_trip(v: EntityDirection, rest: Seq<u8>)
        requires
            <Self as ProtocolType>::faithful(v),
            <Self as ProtocolType>::delimited() || rest.len() == 0,
        ensures
            Self::body_writable(v),
            Self::decode_with_id(Self::id_of(v), Self::body_of(v) + rest) == Ok::<_, DecodeFailure>(
                (v, Self::body_of(v).len()),
            ),
    {
        match v {
            EntityDirection::Down => {
                assert(Seq::<u8>::empty() + rest =~= rest);
            },
            EntityDirection::Up => {
                assert(Seq::<u8>::empty() + rest =~= rest);
            },
            EntityDirection::North => {
                assert(Seq::<u8>::empty() + rest =~= rest);
            },
            EntityDirection::South => {
                assert(Seq::<u8>::empty() + rest =~= rest);
            },
            EntityDirection::West => {
                assert(Seq::<u8>::empty() + rest =~= rest);
            },
            EntityDirection::East => {
                assert(Seq::<u8>::empty() + rest =~= rest);
            },
        }
    }
}

/// The biome that a villager is dressed for.
#[derive(PartialEq, Eq, Structural, Clone, Copy, Debug)]
pub enum VillagerType {
    Desert,
    Jungle,
    Plains,
    Savanna,
    Snow,
    Swamp,
    Taiga,
}

impl View for VillagerType {
    type V = VillagerType;

    open spec fn view(&self) -> VillagerType {
        *self
    }
}

impl DeepView for VillagerType {
    type V = VillagerType;

    open spec fn deep_view(&self) -> VillagerType {
        *self
    }
}

impl VillagerType {
    pub fn variant_count() -> (r: usize)
        ensures
            r == 7,
    {
        7
    }

    /// The number that stands for the variant on the wire.
    pub open spec fn id_of(v: VillagerType) -> i32 {
        match v {
            VillagerType::Desert => 0x00,
            VillagerType::Jungle => 0x01,
            VillagerType::Plains => 0x02,
            VillagerType::Savanna => 0x03,
            VillagerType::Snow => 0x04,
            VillagerType::Swamp => 0x05,
            VillagerType::Taiga => 0x06,
        }
    }

    pub fn id(&self) -> (r: VarInt)
        ensures
            r == VarInt(Self::id_of(self.deep_view())),
    {
        match self {
            VillagerType::Desert => VarInt(0x00),
            VillagerType::Jungle => VarInt(0x01),
            VillagerType::Plains => VarInt(0x02),
            VillagerType::Savanna => VarInt(0x03),
            VillagerType::Snow => VarInt(0x04),
            VillagerType::Swamp => VarInt(0x05),
            VillagerType::Taiga => VarInt(0x06),
        }
    }

    pub open spec fn name_of(v: VillagerType) -> Seq<char> {
        match v {
            VillagerType::Desert => "Desert"@,
            VillagerType::Jungle => "Jungle"@,
            VillagerType::Plains => "Plains"@,
            VillagerType::Savanna => "Savanna"@,
            VillagerType::Snow => "Snow"@,
            VillagerType::Swamp => "Swamp"@,
            VillagerType::Taiga => "Taiga"@,
        }
    }

    pub fn name(&self) -> (r: &'static str)
        ensures
            r@ == Self::name_of(self.deep_view()),
    {
        match self {
            VillagerType::Desert => "Desert",
            VillagerType::Jungle => "Jungle",
            VillagerType::Plains => "Plains",
            VillagerType::Savanna => "Savanna",
            VillagerType::Snow => "Snow",
            VillagerType::Swamp => "Swamp",
            VillagerType::Taiga => "Taiga",
        }
    }

    /// The bytes that follow the number.
    pub open spec fn body_of(v: VillagerType) -> Seq<u8> {
        match v {
            VillagerType::Desert => Seq::empty(),
            VillagerType::Jungle => Seq::empty(),
            VillagerType::Plains => Seq::empty(),
            VillagerType::Savanna => Seq::empty(),
            VillagerType::Snow => Seq::empty(),
            VillagerType::Swamp => Seq::empty(),
            VillagerType::Taiga => Seq::empty(),
        }
    }

    /// Whether what follows the number can be written.
    pub open spec fn body_writable(v: VillagerType) -> bool {
        match v {
            VillagerType::Desert => true,
            VillagerType::Jungle => true,
            VillagerType::Plains => true,
            VillagerType::Savanna => true,
            VillagerType::Snow => true,
            VillagerType::Swamp => true,
            VillagerType::Taiga => true,
        }
    }

    /// The variant that `id` stands for, with its body read from `data`.
    pub open spec fn decode_with_id(id: i32, data: Seq<u8>) -> Decoded<VillagerType> {
        if id == 0x00 {
            Ok((VillagerType::Desert, 0))
        } else if id == 0x01 {
            Ok((VillagerType::Jungle, 0))
        } else if id == 0x02 {
            Ok((VillagerType::Plains, 0))
        } else if id == 0x03 {
            Ok((VillagerType::Savanna, 0))
        } else if id == 0x04 {
            Ok((VillagerType::Snow, 0))
        } else if id == 0x05 {
            Ok((VillagerType::Swamp, 0))
        } else if id == 0x06 {
            Ok((VillagerType::Taiga, 0))
        } else {
            Err(DecodeFailure::CannotUnderstandValue)
        }
    }

    /// Whether `id` stands for a variant.
    pub open spec fn has_id(id: i32) -> bool {
        id == 0x00
            || id == 0x01
            || id == 0x02
            || id == 0x03
            || id == 0x04
            || id == 0x05
            || id == 0x06
    }

    /// Picks the variant for `id` and reads its body from `data`. A number
    /// that stands for no variant is refused, and the error says which.
    pub fn deserialize_with_id<'a>(id: VarInt, data: &'a [u8]) -> (r: DeserializeResult<'a, Self>)
        ensures
            agrees(r, data@, Self::decode_with_id(id.0, data@)),
            !Self::has_id(id.0) ==> (r matches Err(DeserializeErr::CannotUnderstandValue(m))
                && m@ == invalid_int_text("VillagerType"@, id.0 as int)),
    {
        proof {
            assert(data@.skip(0) =~= data@);
        }
        match id.0 {
            0x00 => Ok(Deserialized { value: VillagerType::Desert, data }),
            0x01 => Ok(Deserialized { value: VillagerType::Jungle, data }),
            0x02 => Ok(Deserialized { value: VillagerType::Plains, data }),
            0x03 => Ok(Deserialized { value: VillagerType::Savanna, data }),
            0x04 => Ok(Deserialized { value: VillagerType::Snow, data }),
            0x05 => Ok(Deserialized { value: VillagerType::Swamp, data }),
            0x06 => Ok(Deserialized { value: VillagerType::Taiga, data }),
            other => Err(DeserializeErr::CannotUnderstandValue(invalid_int_message("VillagerType", other))),
        }
    }

    /// Writes what follows the number.
    pub fn serialize_body<S: Serializer>(&self, to: &mut S) -> (r: SerializeResult)
        ensures
            r is Ok ==> Self::body_writable(self.deep_view()) && final(to).written() == old(
                to,
            ).written() + Self::body_of(self.deep_view()),
            old(to).infallible() ==> final(to).infallible(),
            old(to).infallible() ==> (r is Ok <==> Self::body_writable(self.deep_view())),
            old(to).infallible() && r is Err ==> (r matches Err(SerializeErr::CannotSerialize(_))),
    {
        match self {
            VillagerType::Desert => {
                proof {
                    assert(old(to).written() + Seq::<u8>::empty() =~= old(to).written());
                }
                Ok(())
            },
            VillagerType::Jungle => {
                proof {
                    assert(old(to).written() + Seq::<u8>::empty() =~= old(to).written());
                }
                Ok(())
            },
            VillagerType::Plains => {
                proof {
                    assert(old(to).written() + Seq::<u8>::empty() =~= old(to).written());
                }
                Ok(())
            },
            VillagerType::Savanna => {
                proof {
                    assert(old(to).written() + Seq::<u8>::empty() =~= old(to).written());
                }
                Ok(())
            },
            VillagerType::Snow => {
                proof {
                    assert(old(to).written() + Seq::<u8>::empty() =~= old(to).written());
                }
                Ok(())
            },
            VillagerType::Swamp => {
                proof {
                    assert(old(to).written() + Seq::<u8>::empty() =~= old(to).written());
                }
                Ok(())
            },
            VillagerType::Taiga => {
                proof {
                    assert(old(to).written() + Seq::<u8>::empty() =~= old(to).written());
                }
                Ok(())
            },
        }
    }
}

impl Serialize for VillagerType {
    open spec fn serializable(v: VillagerType) -> bool {
        Self::body_writable(v)
    }

    #[verifier::opaque]
    open spec fn encode(v: VillagerType) -> Seq<u8> {
        <VarInt>::encode(VarInt(Self::id_of(v))) + Self::body_of(v)
    }

    fn mc_serialize<S: Serializer>(&self, to: &mut S) -> (r: SerializeResult) {
        proof {
            reveal(<VillagerType as Serialize>::encode);
        }
        let id_to_serialize: VarInt = self.id();
        id_to_serialize.mc_serialize(to)?;
        let r = self.serialize_body(to);
        proof {
            let head = <VarInt>::encode(VarInt(Self::id_of(self.deep_view())));
            let body = Self::body_of(self.deep_view());
            lemma_concat_assoc(old(to).written(), head, body);
        }
        r
    }
}

impl Deserialize for VillagerType {
    #[verifier::opaque]
    open spec fn decode(data: Seq<u8>) -> Decoded<VillagerType> {
        match <VarInt>::decode(data) {
            Err(e) => Err(e),
            Ok((id, n)) => match Self::decode_with_id(id.0, data.skip(n as int)) {
                Ok((v, m)) => Ok((v, n + m)),
                Err(e) => Err(e),
            },
        }
    }

    fn mc_deserialize(data: &[u8]) -> (r: DeserializeResult<'_, VillagerType>) {
        proof {
            reveal(<VillagerType as Deserialize>::decode);
        }
        let Deserialized { value: id, data: rest } = <VarInt>::mc_deserialize(data)?;
        let Deserialized { value, data: after } = Self::deserialize_with_id(id, rest)?;
        proof {
            lemma_skip_skip(data@, data@.len() - rest@.len(), rest@.len() - after@.len());
        }
        Ok(Deserialized { value, data: after })
    }
}

impl ProtocolType for VillagerType {
    open spec fn faithful(v: VillagerType) -> bool {
        match v {
            VillagerType::Desert => true,
            VillagerType::Jungle => true,
            VillagerType::Plains => true,
            VillagerType::Savanna => true,
            VillagerType::Snow => true,
            VillagerType::Swamp => true,
            VillagerType::Taiga => true,
        }
    }

    open spec fn delimited() -> bool {
        true
    }

    proof fn lemma_round_trip(v: VillagerType, rest: Seq<u8>) {
        reveal(<VillagerType as Serialize>::encode);
        reveal(<VillagerType as Deserialize>::decode);
        let head = <VarInt>::encode(VarInt(Self::id_of(v)));
        let body = Self::body_of(v);
        <VarInt>::lemma_round_trip(VarInt(Self::id_of(v)), body + rest);
        Self::lemma_body_round_trip(v, rest);
        lemma_concat_assoc(head, body, rest);
        lemma_skip_concat(head, body + rest);
    }
}

impl VillagerType {
    /// What follows the number, written out and followed by anything, reads
    /// back under that number.
    pub proof fn lemma_body_round_trip(v: VillagerType, rest: Seq<u8>)
        requires
            <Self as ProtocolType>::faithful(v),
            <Self as ProtocolType>::delimited() || rest.len() == 0,
        ensures
            Self::body_writable(v),
            Self::decode_with_id(Self::id_of(v), Self::body_of(v) + rest) == Ok::<_, DecodeFailure>(
                (v, Self::body_of(v).len()),
            ),
    {
        match v {
            VillagerType::Desert => {
                assert(Seq::<u8>::empty() + rest =~= rest);
            },
            VillagerType::Jungle => {
                assert(Seq::<u8>::empty() + rest =~= rest);
            },
            VillagerType::Plains => {
                assert(Seq::<u8>::empty() + rest =~= rest);
            },
            VillagerType::Savanna => {
                assert(Seq::<u8>::empty() + rest =~= rest);
            },
            VillagerType::Snow => {
                assert(Seq::<u8>::empty() + rest =~= rest);
            },
            VillagerType::Swamp => {
                assert(Seq::<u8>::empty() + rest =~= rest);
            },
            VillagerType::Taiga => {
                assert(Seq::<u8>::empty() + rest =~= rest);
            },
        }
    }
}

/// The trade of a villager.
#[derive(PartialEq, Eq, Structural, Clone, Copy, Debug)]
pub enum VillagerProfession {
    NoProfession,
    Armorer,
    Butcher,
    Cartographer,
    Cleric,
    Farmer,
    Fisherman,
    Fletcher,
    LeatherWorker,
    Librarian,
    Mason,
    Nitwit,
    Shepherd,
    Toolsmith,
    Weaponsmith,
}

impl View for VillagerProfession {
    type V = VillagerProfession;

    open spec fn view(&self) -> VillagerProfession {
        *self
    }
}

impl DeepView for VillagerProfession {
    type V = VillagerProfession;

    open spec fn deep_view(&self) -> VillagerProfession {
        *self
    }
}

impl VillagerProfession {
    pub fn variant_count() -> (r: usize)
        ensures
            r == 15,
    {
        15
    }

    /// The number that stands for the variant on the wire.
    pub open spec fn id_of(v: VillagerProfession) -> i32 {
        match v {
            VillagerProfession::NoProfession => 0x00,
            VillagerProfession::Armorer => 0x01,
            VillagerProfession::Butcher => 0x02,
            VillagerProfession::Cartographer => 0x03,
            VillagerProfession::Cleric => 0x04,
            VillagerProfession::Farmer => 0x05,
            VillagerProfession::Fisherman => 0x06,
            VillagerProfession::Fletcher => 0x07,
            VillagerProfession::LeatherWorker => 0x08,
            VillagerProfession::Librarian => 0x09,
            VillagerProfession::Mason => 0x0A,
            VillagerProfession::Nitwit => 0x0B,
            VillagerProfession::Shepherd => 0x0C,
            VillagerProfession::Toolsmith => 0x0D,
            VillagerProfession::Weaponsmith => 0x0E,
        }
    }

    pub fn id(&self) -> (r: VarInt)
        ensures
            r == VarInt(Self::id_of(self.deep_view())),
    {
        match self {
            VillagerProfession::NoProfession => VarInt(0x00),
            VillagerProfession::Armorer => VarInt(0x01),
            VillagerProfession::Butcher => VarInt(0x02),
            VillagerProfession::Cartographer => VarInt(0x03),
            VillagerProfession::Cleric => VarInt(0x04),
            VillagerProfession::Farmer => VarInt(0x05),
            VillagerProfession::Fisherman => VarInt(0x06),
            VillagerProfession::Fletcher => VarInt(0x07),
            VillagerProfession::LeatherWorker => VarInt(0x08),
            VillagerProfession::Librarian => VarInt(0x09),
            VillagerProfession::Mason => VarInt(0x0A),
            VillagerProfession::Nitwit => VarInt(0x0B),
            VillagerProfession::Shepherd => VarInt(0x0C),
            VillagerProfession::Toolsmith => VarInt(0x0D),
            VillagerProfession::Weaponsmith => VarInt(0x0E),
        }
    }

    pub open spec fn name_of(v: VillagerProfession) -> Seq<char> {
        match v {
            VillagerProfession::NoProfession => "None"@,
            VillagerProfession::Armorer => "Armorer"@,
            VillagerProfession::Butcher => "Butcher"@,
            VillagerProfession::Cartographer => "Cartographer"@,
            VillagerProfession::Cleric => "Cleric"@,
            VillagerProfession::Farmer => "Farmer"@,
            VillagerProfession::Fisherman => "Fisherman"@,
            VillagerProfession::Fletcher => "Fletcher"@,
            VillagerProfession::LeatherWorker => "LeatherWorker"@,
            VillagerProfession::Librarian => "Librarian"@,
            VillagerProfession::Mason => "Mason"@,
            VillagerProfession::Nitwit => "Nitwit"@,
            VillagerProfession::Shepherd => "Shepherd"@,
            VillagerProfession::Toolsmith => "Toolsmith"@,
            VillagerProfession::Weaponsmith => "Weaponsmith"@,
        }
    }

    pub fn name(&self) -> (r: &'static str)
        ensures
            r@ == Self::name_of(self.deep_view()),
    {
        match self {
            VillagerProfession::NoProfession => "None",
            VillagerProfession::Armorer => "Armorer",
            VillagerProfession::Butcher => "Butcher",
            VillagerProfession::Cartographer => "Cartographer",
            VillagerProfession::Cleric => "Cleric",
            VillagerProfession::Farmer => "Farmer",
            VillagerProfession::Fisherman => "Fisherman",
            VillagerProfession::Fletcher => "Fletcher",
            VillagerProfession::LeatherWorker => "LeatherWorker",
            VillagerProfession::Librarian => "Librarian",
            VillagerProfession::Mason => "Mason",
            VillagerProfession::Nitwit => "Nitwit",
            VillagerProfession::Shepherd => "Shepherd",
            VillagerProfession::Toolsmith => "Toolsmith",
            VillagerProfession::Weaponsmith => "Weaponsmith",
        }
    }

    /// The bytes that follow the number.
    pub open spec fn body_of(v: VillagerProfession) -> Seq<u8> {
        match v {
            VillagerProfession::NoProfession => Seq::empty(),
            VillagerProfession::Armorer => Seq::empty(),
            VillagerProfession::Butcher => Seq::empty(),
            VillagerProfession::Cartographer => Seq::empty(),
            VillagerProfession::Cleric => Seq::empty(),
            VillagerProfession::Farmer => Seq::empty(),
            VillagerProfession::Fisherman => Seq::empty(),
            VillagerProfession::Fletcher => Seq::empty(),
            VillagerProfession::LeatherWorker => Seq::empty(),
            VillagerProfession::Librarian => Seq::empty(),
            VillagerProfession::Mason => Seq::empty(),
            VillagerProfession::Nitwit => Seq::empty(),
            VillagerProfession::Shepherd => Seq::empty(),
            VillagerProfession::Toolsmith => Seq::empty(),
            VillagerProfession::Weaponsmith => Seq::empty(),
        }
    }

    /// Whether what follows the number can be written.
    pub open spec fn body_writable(v: VillagerProfession) -> bool {
        match v {
            VillagerProfession::NoProfession => true,
            VillagerProfession::Armorer => true,
            VillagerProfession::Butcher => true,
            VillagerProfession::Cartographer => true,
            VillagerProfession::Cleric => true,
            VillagerProfession::Farmer => true,
            VillagerProfession::Fisherman => true,
            VillagerProfession::Fletcher => true,
            VillagerProfession::LeatherWorker => true,
            VillagerProfession::Librarian => true,
            VillagerProfession::Mason => true,
            VillagerProfession::Nitwit => true,
            VillagerProfession::Shepherd => true,
            VillagerProfession::Toolsmith => true,
            VillagerProfession::Weaponsmith => true,
        }
    }

    /// The variant that `id` stands for, with its body read from `data`.
    pub open spec fn decode_with_id(id: i32, data: Seq<u8>) -> Decoded<VillagerProfession> {
        if id == 0x00 {
            Ok((VillagerProfession::NoProfession, 0))
        } else if id == 0x01 {
            Ok((VillagerProfession::Armorer, 0))
        } else if id == 0x02 {
            Ok((VillagerProfession::Butcher, 0))
        } else if id == 0x03 {
            Ok((VillagerProfession::Cartographer, 0))
        } else if id == 0x04 {
            Ok((VillagerProfession::Cleric, 0))
        } else if id == 0x05 {
            Ok((VillagerProfession::Farmer, 0))
        } else if id == 0x06 {
            Ok((VillagerProfession::Fisherman, 0))
        } else if id == 0x07 {
            Ok((VillagerProfession::Fletcher, 0))
        } else if id == 0x08 {
            Ok((VillagerProfession::LeatherWorker, 0))
        } else if id == 0x09 {
            Ok((VillagerProfession::Librarian, 0))
        } else if id == 0x0A {
            Ok((VillagerProfession::Mason, 0))
        } else if id == 0x0B {
            Ok((VillagerProfession::Nitwit, 0))
        } else if id == 0x0C {
            Ok((VillagerProfession::Shepherd, 0))
        } else if id == 0x0D {
            Ok((VillagerProfession::Toolsmith, 0))
        } else if id == 0x0E {
            Ok((VillagerProfession::Weaponsmith, 0))
        } else {
            Err(DecodeFailure::CannotUnderstandValue)
        }
    }

    /// Whether `id` stands for a variant.
    pub open spec fn has_id(id: i32) -> bool {
        id == 0x00
            || id == 0x01
            || id == 0x02
            || id == 0x03
            || id == 0x04
            || id == 0x05
            || id == 0x06
            || id == 0x07
            || id == 0x08
            || id == 0x09
            || id == 0x0A
            || id == 0x0B
            || id == 0x0C
            || id == 0x0D
            || id == 0x0E
    }

    /// Picks the variant for `id` and reads its body from `data`. A number
    /// that stands for no variant is refused, and the error says which.
    pub fn deserialize_with_id<'a>(id: VarInt, data: &'a [u8]) -> (r: DeserializeResult<'a, Self>)
        ensures
            agrees(r, data@, Self::decode_with_id(id.0, data@)),
            !Self::has_id(id.0) ==> (r matches Err(DeserializeErr::CannotUnderstandValue(m))
                && m@ == invalid_int_text("VillagerProfession"@, id.0 as int)),
    {
        proof {
            assert(data@.skip(0) =~= data@);
        }
        match id.0 {
            0x00 => Ok(Deserialized { value: VillagerProfession::NoProfession, data }),
            0x01 => Ok(Deserialized { value: VillagerProfession::Armorer, data }),
            0x02 => Ok(Deserialized { value: VillagerProfession::Butcher, data }),
            0x03 => Ok(Deserialized { value: VillagerProfession::Cartographer, data }),
            0x04 => Ok(Deserialized { value: VillagerProfession::Cleric, data }),
            0x05 => Ok(Deserialized { value: VillagerProfession::Farmer, data }),
            0x06 => Ok(Deserialized { value: VillagerProfession::Fisherman, data }),
            0x07 => Ok(Deserialized { value: VillagerProfession::Fletcher, data }),
            0x08 => Ok(Deserialized { value: VillagerProfession::LeatherWorker, data }),
            0x09 => Ok(Deserialized { value: VillagerProfession::Librarian, data }),
            0x0A => Ok(Deserialized { value: VillagerProfession::Mason, data }),
            0x0B => Ok(Deserialized { value: VillagerProfession::Nitwit, data }),
            0x0C => Ok(Deserialized { value: VillagerProfession::Shepherd, data }),
            0x0D => Ok(Deserialized { value: VillagerProfession::Toolsmith, data }),
            0x0E => Ok(Deserialized { value: VillagerProfession::Weaponsmith, data }),
            other => Err(DeserializeErr::CannotUnderstandValue(invalid_int_message("VillagerProfession", other))),
        }
    }

    /// Writes what follows the number.
    pub fn serialize_body<S: Serializer>(&self, to: &mut S) -> (r: SerializeResult)
        ensures
            r is Ok ==> Self::body_writable(self.deep_view()) && final(to).written() == old(
                to,
            ).written() + Self::body_of(self.deep_view()),
            old(to).infallible() ==> final(to).infallible(),
            old(to).infallible() ==> (r is Ok <==> Self::body_writable(self.deep_view())),
            old(to).infallible() && r is Err ==> (r matches Err(SerializeErr::CannotSerialize(_))),
    {
        match self {
            VillagerProfession::NoProfession => {
                proof {
                    assert(old(to).written() + Seq::<u8>::empty() =~= old(to).written());
                }
                Ok(())
            },
            VillagerProfession::Armorer => {
                proof {
                    assert(old(to).written() + Seq::<u8>::empty() =~= old(to).written());
                }
                Ok(())
            },
            VillagerProfession::Butcher => {
                proof {
                    assert(old(to).written() + Seq::<u8>::empty() =~= old(to).written());
                }
                Ok(())
            },
            VillagerProfession::Cartographer => {
                proof {
                    assert(old(to).written() + Seq::<u8>::empty() =~= old(to).written());
                }
                Ok(())
            },
            VillagerProfession::Cleric => {
                proof {
                    assert(old(to).written() + Seq::<u8>::empty() =~= old(to).written());
                }
                Ok(())
            },
            VillagerProfession::Farmer => {
                proof {
                    assert(old(to).written() + Seq::<u8>::empty() =~= old(to).written());
                }
                Ok(())
            },
            VillagerProfession::Fisherman => {
                proof {
                    assert(old(to).written() + Seq::<u8>::empty() =~= old(to).written());
                }
                Ok(())
            },
            VillagerProfession::Fletcher => {
                proof {
                    assert(old(to).written() + Seq::<u8>::empty() =~= old(to).written());
                }
                Ok(())
            },
            VillagerProfession::LeatherWorker => {
                proof {
                    assert(old(to).written() + Seq::<u8>::empty() =~= old(to).written());
                }
                Ok(())
            },
            VillagerProfession::Librarian => {
                proof {
                    assert(old(to).written() + Seq::<u8>::empty() =~= old(to).written());
                }
                Ok(())
            },
            VillagerProfession::Mason => {
                proof {
                    assert(old(to).written() + Seq::<u8>::empty() =~= old(to).written());
                }
                Ok(())
            },
            VillagerProfession::Nitwit => {
                proof {
                    assert(old(to).written() + Seq::<u8>::empty() =~= old(to).written());
                }
                Ok(())
            },
            VillagerProfession::Shepherd => {
                proof {
                    assert(old(to).written() + Seq::<u8>::empty() =~= old(to).written());
                }
                Ok(())
            },
            VillagerProfession::Toolsmith => {
                proof {
                    assert(old(to).written() + Seq::<u8>::empty() =~= old(to).written());
                }
                Ok(())
            },
            VillagerProfession::Weaponsmith => {
                proof {
                    assert(old(to).written() + Seq::<u8>::empty() =~= old(to).written());
                }
                Ok(())
            },
        }
    }
}

impl Serialize for VillagerProfession {
    open spec fn serializable(v: VillagerProfession) -> bool {
        Self::body_writable(v)
    }

    #[verifier::opaque]
    open spec fn encode(v: VillagerProfession) -> Seq<u8> {
        <VarInt>::encode(VarInt(Self::id_of(v))) + Self::body_of(v)
    }

    fn mc_serialize<S: Serializer>(&self, to: &mut S) -> (r: SerializeResult) {
        proof {
            reveal(<VillagerProfession as Serialize>::encode);
        }
        let id_to_serialize: VarInt = self.id();
        id_to_serialize.mc_serialize(to)?;
        let r = self.serialize_body(to);
        proof {
            let head = <VarInt>::encode(VarInt(Self::id_of(self.deep_view())));
            let body = Self::body_of(self.deep_view());
            lemma_concat_assoc(old(to).written(), head, body);
        }
        r
    }
}

impl Deserialize for VillagerProfession {
    #[verifier::opaque]
    open spec fn decode(data: Seq<u8>) -> Decoded<VillagerProfession> {
        match <VarInt>::decode(data) {
            Err(e) => Err(e),
            Ok((id, n)) => match Self::decode_with_id(id.0, data.skip(n as int)) {
                Ok((v, m)) => Ok((v, n + m)),
                Err(e) => Err(e),
            },
        }
    }

    fn mc_deserialize(data: &[u8]) -> (r: DeserializeResult<'_, VillagerProfession>) {
        proof {
            reveal(<VillagerProfession as Deserialize>::decode);
        }
        let Deserialized { value: id, data: rest } = <VarInt>::mc_deserialize(data)?;
        let Deserialized { value, data: after } = Self::deserialize_with_id(id, rest)?;
        proof {
            lemma_skip_skip(data@, data@.len() - rest@.len(), rest@.len() - after@.len());
        }
        Ok(Deserialized { value, data: after })
    }
}

impl ProtocolType for VillagerProfession {
    open spec fn faithful(v: VillagerProfession) -> bool {
        match v {
            VillagerProfession::NoProfession => true,
            VillagerProfession::Armorer => true,
            VillagerProfession::Butcher => true,
            VillagerProfession::Cartographer => true,
            VillagerProfession::Cleric => true,
            VillagerProfession::Farmer => true,
            VillagerProfession::Fisherman => true,
            VillagerProfession::Fletcher => true,
            VillagerProfession::LeatherWorker => true,
            VillagerProfession::Librarian => true,
            VillagerProfession::Mason => true,
            VillagerProfession::Nitwit => true,
            VillagerProfession::Shepherd => true,
            VillagerProfession::Toolsmith => true,
            VillagerProfession::Weaponsmith => true,
        }
    }

    open spec fn delimited() -> bool {
        true
    }

    proof fn lemma_round_trip(v: VillagerProfession, rest: Seq<u8>) {
        reveal(<VillagerProfession as Serialize>::encode);
        reveal(<VillagerProfession as Deserialize>::decode);
        let head = <VarInt>::encode(VarInt(Self::id_of(v)));
        let body = Self::body_of(v);
        <VarInt>::lemma_round_trip(VarInt(Self::id_of(v)), body + rest);
        Self::lemma_body_round_trip(v, rest);
        lemma_concat_assoc(head, body, rest);
        lemma_skip_concat(head, body + rest);
    }
}

impl VillagerProfession {
    /// What follows the number, written out and followed by anything, reads
    /// back under that number.
    pub proof fn lemma_body_round_trip(v: VillagerProfession, rest: Seq<u8>)
        requires
            <Self as ProtocolType>::faithful(v),
            <Self as ProtocolType>::delimited() || rest.len() == 0,
        ensures
            Self::body_writable(v),
            Self::decode_with_id(Self::id_of(v), Self::body_of(v) + rest) == Ok::<_, DecodeFailure>(
                (v, Self::body_of(v).len()),
            ),
    {
        match v {
            VillagerProfession::NoProfession => {
                assert(Seq::<u8>::empty() + rest =~= rest);
            },
            VillagerProfession::Armorer => {
                assert(Seq::<u8>::empty() + rest =~= rest);
            },
            VillagerProfession::Butcher => {
                assert(Seq::<u8>::empty() + rest =~= rest);
            },
            VillagerProfession::Cartographer => {
                assert(Seq::<u8>::empty() + rest =~= rest);
            },
            VillagerProfession::Cleric => {
                assert(Seq::<u8>::empty() + rest =~= rest);
            },
            VillagerProfession::Farmer => {
                assert(Seq::<u8>::empty() + rest =~= rest);
            },
            VillagerProfession::Fisherman => {
                assert(Seq::<u8>::empty() + rest =~= rest);
            },
            VillagerProfession::Fletcher => {
                assert(Seq::<u8>::empty() + rest =~= rest);
            },
            VillagerProfession::LeatherWorker => {
                assert(Seq::<u8>::empty() + rest =~= rest);
            },
            VillagerProfession::Librarian => {
                assert(Seq::<u8>::empty() + rest =~= rest);
            },
            VillagerProfession::Mason => {
                assert(Seq::<u8>::empty() + rest =~= rest);
            },
            VillagerProfession::Nitwit => {
                assert(Seq::<u8>::empty() + rest =~= rest);
            },
            VillagerProfession::Shepherd => {
                assert(Seq::<u8>::empty() + rest =~= rest);
            },
            VillagerProfession::Toolsmith => {
                assert(Seq::<u8>::empty() + rest =~= rest);
            },
            VillagerProfession::Weaponsmith => {
                assert(Seq::<u8>::empty() + rest =~= rest);
            },
        }
    }
}

/// What kind of villager an entity is.
#[derive(Debug, Clone, PartialEq)]
pub struct EntityVillagerData {
    pub villager_type: VillagerType,
    pub villager_profession: VillagerProfession,
    pub level: VarInt,
}

/// The mathematical content of a [`EntityVillagerData`].
pub struct EntityVillagerDataView {
    pub villager_type: VillagerType,
    pub villager_profession: VillagerProfession,
    pub level: VarInt,
}

impl DeepView for EntityVillagerData {
    type V = EntityVillagerDataView;

    open spec fn deep_view(&self) -> EntityVillagerDataView {
        EntityVillagerDataView {
            villager_type: self.villager_type.deep_view(),
            villager_profession: self.villager_profession.deep_view(),
            level: self.level.deep_view(),
        }
    }
}

impl Serialize for EntityVillagerData {
    open spec fn serializable(v: EntityVillagerDataView) -> bool {
        VillagerType::serializable(v.villager_type) && VillagerProfession::serializable(v.villager_profession) && VarInt::serializable(v.level)
    }

    #[verifier::opaque]
    open spec fn encode(v: EntityVillagerDataView) -> Seq<u8> {
        VillagerType::encode(v.villager_type) + VillagerProfession::encode(v.villager_profession) + VarInt::encode(v.level)
    }

    fn mc_serialize<S: Serializer>(&self, to: &mut S) -> (r: SerializeResult) {
        proof {
            reveal(<EntityVillagerData as Serialize>::encode);
        }
        self.villager_type.mc_serialize(to)?;
        self.villager_profession.mc_serialize(to)?;
        self.level.mc_serialize(to)?;
        proof {
            let v = self.deep_view();
            let w = old(to).written();
            let e0 = VillagerType::encode(v.villager_type);
            let e1 = VillagerProfession::encode(v.villager_profession);
            let e2 = VarInt::encode(v.level);
            let l0 = e0;
            let l1 = l0 + e1;
            let l2 = l1 + e2;
            lemma_concat_assoc(w, l0, e1);
            lemma_concat_assoc(w, l1, e2);
        }
        Ok(())
    }
}

impl Deserialize for EntityVillagerData {
    #[verifier::opaque]
    open spec fn decode(data: Seq<u8>) -> Decoded<EntityVillagerDataView> {
        match VillagerType::decode(data) {
            Err(e) => Err(e),
            Ok((villager_type, n0)) => {
                match VillagerProfession::decode(data.skip((n0) as int)) {
                    Err(e) => Err(e),
                    Ok((villager_profession, n1)) => {
                        match VarInt::decode(data.skip((n0 + n1) as int)) {
                            Err(e) => Err(e),
                            Ok((level, n2)) => Ok((EntityVillagerDataView { villager_type, villager_profession, level }, n0 + n1 + n2)),
                        }
                    },
                }
            },
        }
    }

    fn mc_deserialize(data: &[u8]) -> (r: DeserializeResult<'_, EntityVillagerData>) {
        proof {
            reveal(<EntityVillagerData as Deserialize>::decode);
        }
        let ghost whole = data@;
        let Deserialized { value: villager_type, data: rest0 } = VillagerType::mc_deserialize(data)?;
        let Deserialized { value: villager_profession, data: rest1 } = VillagerProfession::mc_deserialize(rest0)?;
        proof {
            lemma_skip_skip(
                whole,
                whole.len() - rest0@.len(),
                rest0@.len() - rest1@.len(),
            );
        }
        let Deserialized { value: level, data: rest2 } = VarInt::mc_deserialize(rest1)?;
        proof {
            lemma_skip_skip(
                whole,
                whole.len() - rest1@.len(),
                rest1@.len() - rest2@.len(),
            );
        }
        Ok(Deserialized { value: EntityVillagerData { villager_type, villager_profession, level }, data: rest2 })
    }
}

impl ProtocolType for EntityVillagerData {
    open spec fn faithful(v: EntityVillagerDataView) -> bool {
        VillagerType::faithful(v.villager_type) && VillagerProfession::faithful(v.villager_profession) && VarInt::faithful(v.level)
    }

    open spec fn delimited() -> bool {
        VarInt::delimited()
    }

    proof fn lemma_round_trip(v: EntityVillagerDataView, rest: Seq<u8>) {
        reveal(<EntityVillagerData as Serialize>::encode);
        reveal(<EntityVillagerData as Deserialize>::decode);
        let e0 = VillagerType::encode(v.villager_type);
        let e1 = VillagerProfession::encode(v.villager_profession);
        let e2 = VarInt::encode(v.level);
        let data = Self::encode(v) + rest;
        let t3 = rest;
        let t2 = e2 + t3;
        let t1 = e1 + t2;
        let t0 = e0 + t1;
        let l0 = e0;
        let l1 = l0 + e1;
        let l2 = l1 + e2;
        lemma_concat_assoc(l1, e2, t3);
        lemma_concat_assoc(l0, e1, t2);
        assert(data == t0);
        VillagerType::lemma_round_trip(v.villager_type, t1);
        lemma_skip_concat(e0, t1);
        VillagerProfession::lemma_round_trip(v.villager_profession, t2);
        lemma_skip_more(data, (e0.len()) as int, e1, t2);
        VarInt::lemma_round_trip(v.level, t3);
        lemma_skip_more(data, (e0.len() + e1.len()) as int, e2, t3);
    }
}

/// The posture of an entity.
#[derive(PartialEq, Eq, Structural, Clone, Copy, Debug)]
pub enum EntityPose {
    Standing,
    FallFlying,
    Sleeping,
    Swimming,
    SpinAttack,
    Sneaking,
    Dying,
}

impl View for EntityPose {
    type V = EntityPose;

    open spec fn view(&self) -> EntityPose {
        *self
    }
}

impl DeepView for EntityPose {
    type V = EntityPose;

    open spec fn deep_view(&self) -> EntityPose {
        *self
    }
}

impl EntityPose {
    pub fn variant_count() -> (r: usize)
        ensures
            r == 7,
    {
        7
    }

    /// The number that stands for the variant on the wire.
    pub open spec fn id_of(v: EntityPose) -> i32 {
        match v {
            EntityPose::Standing => 0x00,
            EntityPose::FallFlying => 0x01,
            EntityPose::Sleeping => 0x02,
            EntityPose::Swimming => 0x03,
            EntityPose::SpinAttack => 0x04,
            EntityPose::Sneaking => 0x05,
            EntityPose::Dying => 0x06,
        }
    }

    pub fn id(&self) -> (r: VarInt)
        ensures
            r == VarInt(Self::id_of(self.deep_view())),
    {
        match self {
            EntityPose::Standing => VarInt(0x00),
            EntityPose::FallFlying => VarInt(0x01),
            EntityPose::Sleeping => VarInt(0x02),
            EntityPose::Swimming => VarInt(0x03),
            EntityPose::SpinAttack => VarInt(0x04),
            EntityPose::Sneaking => VarInt(0x05),
            EntityPose::Dying => VarInt(0x06),
        }
    }

    pub open spec fn name_of(v: EntityPose) -> Seq<char> {
        match v {
            EntityPose::Standing => "Standing"@,
            EntityPose::FallFlying => "FallFlying"@,
            EntityPose::Sleeping => "Sleeping"@,
            EntityPose::Swimming => "Swimming"@,
            EntityPose::SpinAttack => "SpinAttack"@,
            EntityPose::Sneaking => "Sneaking"@,
            EntityPose::Dying => "Dying"@,
        }
    }

    pub fn name(&self) -> (r: &'static str)
        ensures
            r@ == Self::name_of(self.deep_view()),
    {
        match self {
            EntityPose::Standing => "Standing",
            EntityPose::FallFlying => "FallFlying",
            EntityPose::Sleeping => "Sleeping",
            EntityPose::Swimming => "Swimming",
            EntityPose::SpinAttack => "SpinAttack",
            EntityPose::Sneaking => "Sneaking",
            EntityPose::Dying => "Dying",
        }
    }

    /// The bytes that follow the number.
    pub open spec fn body_of(v: EntityPose) -> Seq<u8> {
        match v {
            EntityPose::Standing => Seq::empty(),
            EntityPose::FallFlying => Seq::empty(),
            EntityPose::Sleeping => Seq::empty(),
            EntityPose::Swimming => Seq::empty(),
            EntityPose::SpinAttack => Seq::empty(),
            EntityPose::Sneaking => Seq::empty(),
            EntityPose::Dying => Seq::empty(),
        }
    }

    /// Whether what follows the number can be written.
    pub open spec fn body_writable(v: EntityPose) -> bool {
        match v {
            EntityPose::Standing => true,
            EntityPose::FallFlying => true,
            EntityPose::Sleeping => true,
            EntityPose::Swimming => true,
            EntityPose::SpinAttack => true,
            EntityPose::Sneaking => true,
            EntityPose::Dying => true,
        }
    }

    /// The variant that `id` stands for, with its body read from `data`.
    pub open spec fn decode_with_id(id: i32, data: Seq<u8>) -> Decoded<EntityPose> {
        if id == 0x00 {
            Ok((EntityPose::Standing, 0))
        } else if id == 0x01 {
            Ok((EntityPose::FallFlying, 0))
        } else if id == 0x02 {
            Ok((EntityPose::Sleeping, 0))
        } else if id == 0x03 {
            Ok((EntityPose::Swimming, 0))
        } else if id == 0x04 {
            Ok((EntityPose::SpinAttack, 0))
        } else if id == 0x05 {
            Ok((EntityPose::Sneaking, 0))
        } else if id == 0x06 {
            Ok((EntityPose::Dying, 0))
        } else {
            Err(DecodeFailure::CannotUnderstandValue)
        }
    }

    /// Whether `id` stands for a variant.
    pub open spec fn has_id(id: i32) -> bool {
        id == 0x00
            || id == 0x01
            || id == 0x02
            || id == 0x03
            || id == 0x04
            || id == 0x05
            || id == 0x06
    }

    /// Picks the variant for `id` and reads its body from `data`. A number
    /// that stands for no variant is refused, and the error says which.
    pub fn deserialize_with_id<'a>(id: VarInt, data: &'a [u8]) -> (r: DeserializeResult<'a, Self>)
        ensures
            agrees(r, data@, Self::decode_with_id(id.0, data@)),
            !Self::has_id(id.0) ==> (r matches Err(DeserializeErr::CannotUnderstandValue(m))
                && m@ == invalid_int_text("EntityPose"@, id.0 as int)),
    {
        proof {
            assert(data@.skip(0) =~= data@);
        }
        match id.0 {
            0x00 => Ok(Deserialized { value: EntityPose::Standing, data }),
            0x01 => Ok(Deserialized { value: EntityPose::FallFlying, data }),
            0x02 => Ok(Deserialized { value: EntityPose::Sleeping, data }),
            0x03 => Ok(Deserialized { value: EntityPose::Swimming, data }),
            0x04 => Ok(Deserialized { value: EntityPose::SpinAttack, data }),
            0x05 => Ok(Deserialized { value: EntityPose::Sneaking, data }),
            0x06 => Ok(Deserialized { value: EntityPose::Dying, data }),
            other => Err(DeserializeErr::CannotUnderstandValue(invalid_int_message("EntityPose", other))),
        }
    }

    /// Writes what follows the number.
    pub fn serialize_body<S: Serializer>(&self, to: &mut S) -> (r: SerializeResult)
        ensures
            r is Ok ==> Self::body_writable(self.deep_view()) && final(to).written() == old(
                to,
            ).written() + Self::body_of(self.deep_view()),
            old(to).infallible() ==> final(to).infallible(),
            old(to).infallible() ==> (r is Ok <==> Self::body_writable(self.deep_view())),
            old(to).infallible() && r is Err ==> (r matches Err(SerializeErr::CannotSerialize(_))),
    {
        match self {
            EntityPose::Standing => {
                proof {
                    assert(old(to).written() + Seq::<u8>::empty() =~= old(to).written());
                }
                Ok(())
            },
            EntityPose::FallFlying => {
                proof {
                    assert(old(to).written() + Seq::<u8>::empty() =~= old(to).written());
                }
                Ok(())
            },
            EntityPose::Sleeping => {
                proof {
                    assert(old(to).written() + Seq::<u8>::empty() =~= old(to).written());
                }
                Ok(())
            },
            EntityPose::Swimming => {
                proof {
                    assert(old(to).written() + Seq::<u8>::empty() =~= old(to).written());
                }
                Ok(())
            },
            EntityPose::SpinAttack => {
                proof {
                    assert(old(to).written() + Seq::<u8>::empty() =~= old(to).written());
                }
                Ok(())
            },
            EntityPose::Sneaking => {
                proof {
                    assert(old(to).written() + Seq::<u8>::empty() =~= old(to).written());
                }
                Ok(())
            },
            EntityPose::Dying => {
                proof {
                    assert(old(to).written() + Seq::<u8>::empty() =~= old(to).written());
                }
                Ok(())
            },
        }
    }
}

impl Serialize for EntityPose {
    open spec fn serializable(v: EntityPose) -> bool {
        Self::body_writable(v)
    }

    #[verifier::opaque]
    open spec fn encode(v: EntityPose) -> Seq<u8> {
        <VarInt>::encode(VarInt(Self::id_of(v))) + Self::body_of(v)
    }

    fn mc_serialize<S: Serializer>(&self, to: &mut S) -> (r: SerializeResult) {
        proof {
            reveal(<EntityPose as Serialize>::encode);
        }
        let id_to_serialize: VarInt = self.id();
        id_to_serialize.mc_serialize(to)?;
        let r = self.serialize_body(to);
        proof {
            let head = <VarInt>::encode(VarInt(Self::id_of(self.deep_view())));
            let body = Self::body_of(self.deep_view());
            lemma_concat_assoc(old(to).written(), head, body);
        }
        r
    }
}

impl Deserialize for EntityPose {
    #[verifier::opaque]
    open spec fn decode(data: Seq<u8>) -> Decoded<EntityPose> {
        match <VarInt>::decode(data) {
            Err(e) => Err(e),
            Ok((id, n)) => match Self::decode_with_id(id.0, data.skip(n as int)) {
                Ok((v, m)) => Ok((v, n + m)),
                Err(e) => Err(e),
            },
        }
    }

    fn mc_deserialize(data: &[u8]) -> (r: DeserializeResult<'_, EntityPose>) {
        proof {
            reveal(<EntityPose as Deserialize>::decode);
        }
        let Deserialized { value: id, data: rest } = <VarInt>::mc_deserialize(data)?;
        let Deserialized { value, data: after } = Self::deserialize_with_id(id, rest)?;
        proof {
            lemma_skip_skip(data@, data@.len() - rest@.len(), rest@.len() - after@.len());
        }
        Ok(Deserialized { value, data: after })
    }
}

impl ProtocolType for EntityPose {
    open spec fn faithful(v: EntityPose) -> bool {
        match v {
            EntityPose::Standing => true,
            EntityPose::FallFlying => true,
            EntityPose::Sleeping => true,
            EntityPose::Swimming => true,
            EntityPose::SpinAttack => true,
            EntityPose::Sneaking => true,
            EntityPose::Dying => true,
        }
    }

    open spec fn delimited() -> bool {
        true
    }

    proof fn lemma_round_trip(v: EntityPose, rest: Seq<u8>) {
        reveal(<EntityPose as Serialize>::encode);
        reveal(<EntityPose as Deserialize>::decode);
        let head = <VarInt>::encode(VarInt(Self::id_of(v)));
        let body = Self::body_of(v);
        <VarInt>::lemma_round_trip(VarInt(Self::id_of(v)), body + rest);
        Self::lemma_body_round_trip(v, rest);
        lemma_concat_assoc(head, body, rest);
        lemma_skip_concat(head, body + rest);
    }
}

impl EntityPose {
    /// What follows the number, written out and followed by anything, reads
    /// back under that number.
    pub proof fn lemma_body_round_trip(v: EntityPose, rest: Seq<u8>)
        requires
            <Self as ProtocolType>::faithful(v),
            <Self as ProtocolType>::delimited() || rest.len() == 0,
        ensures
            Self::body_writable(v),
            Self::decode_with_id(Self::id_of(v), Self::body_of(v) + rest) == Ok::<_, DecodeFailure>(
                (v, Self::body_of(v).len()),
            ),
    {
        match v {
            EntityPose::Standing => {
                assert(Seq::<u8>::empty() + rest =~= rest);
            },
            EntityPose::FallFlying => {
                assert(Seq::<u8>::empty() + rest =~= rest);
            },
            EntityPose::Sleeping => {
                assert(Seq::<u8>::empty() + rest =~= rest);
            },
            EntityPose::Swimming => {
                assert(Seq::<u8>::empty() + rest =~= rest);
            },
            EntityPose::SpinAttack => {
                assert(Seq::<u8>::empty() + rest =~= rest);
            },
            EntityPose::Sneaking => {
                assert(Seq::<u8>::empty() + rest =~= rest);
            },
            EntityPose::Dying => {
                assert(Seq::<u8>::empty() + rest =~= rest);
            },
        }
    }
}

/// The block that a particle is a piece of.
#[derive(Debug, Clone, PartialEq)]
pub struct BlockParticleData {
    pub block_state: VarInt,
}

/// The mathematical content of a [`BlockParticleData`].
pub struct BlockParticleDataView {
    pub block_state: VarInt,
}

impl DeepView for BlockParticleData {
    type V = BlockParticleDataView;

    open spec fn deep_view(&self) -> BlockParticleDataView {
        BlockParticleDataView {
            block_state: self.block_state.deep_view(),
        }
    }
}

impl Serialize for BlockParticleData {
    open spec fn serializable(v: BlockParticleDataView) -> bool {
        VarInt::serializable(v.block_state)
    }

    #[verifier::opaque]
    open spec fn encode(v: BlockParticleDataView) -> Seq<u8> {
        VarInt::encode(v.block_state)
    }

    fn mc_serialize<S: Serializer>(&self, to: &mut S) -> (r: SerializeResult) {
        proof {
            reveal(<BlockParticleData as Serialize>::encode);
        }
        self.block_state.mc_serialize(to)?;
        proof {
            assert(to.written() =~= old(to).written() + Self::encode(self.deep_view()));
        }
        Ok(())
    }
}

impl Deserialize for BlockParticleData {
    #[verifier::opaque]
    open spec fn decode(data: Seq<u8>) -> Decoded<BlockParticleDataView> {
        match VarInt::decode(data) {
            Err(e) => Err(e),
            Ok((block_state, n0)) => Ok((BlockParticleDataView { block_state }, n0)),
        }
    }

    fn mc_deserialize(data: &[u8]) -> (r: DeserializeResult<'_, BlockParticleData>) {
        proof {
            reveal(<BlockParticleData as Deserialize>::decode);
        }
        let Deserialized { value: block_state, data: rest0 } = VarInt::mc_deserialize(data)?;
        Ok(Deserialized { value: BlockParticleData { block_state }, data: rest0 })
    }
}

impl ProtocolType for BlockParticleData {
    open spec fn faithful(v: BlockParticleDataView) -> bool {
        VarInt::faithful(v.block_state)
    }

    open spec fn delimited() -> bool {
        VarInt::delimited()
    }

    proof fn lemma_round_trip(v: BlockParticleDataView, rest: Seq<u8>) {
        reveal(<BlockParticleData as Serialize>::encode);
        reveal(<BlockParticleData as Deserialize>::decode);
        let e0 = VarInt::encode(v.block_state);
        let data = Self::encode(v) + rest;
        let t1 = rest;
        let t0 = e0 + t1;
        VarInt::lemma_round_trip(v.block_state, t1);
        lemma_skip_concat(e0, t1);
    }
}

/// The colour and size of a dust particle. The four numbers are 32-bit floats; they are held as their bit patterns, which is what the wire carries.
#[derive(Debug, Clone, PartialEq)]
pub struct DustParticleData {
    /// The red part, as the bit pattern of a 32-bit float.
    pub red: u32,
    /// The green part, as the bit pattern of a 32-bit float.
    pub green: u32,
    /// The blue part, as the bit pattern of a 32-bit float.
    pub blue: u32,
    /// The size, as the bit pattern of a 32-bit float.
    pub scale: u32,
}

/// The mathematical content of a [`DustParticleData`].
pub struct DustParticleDataView {
    pub red: u32,
    pub green: u32,
    pub blue: u32,
    pub scale: u32,
}

impl DeepView for DustParticleData {
    type V = DustParticleDataView;

    open spec fn deep_view(&self) -> DustParticleDataView {
        DustParticleDataView {
            red: self.red.deep_view(),
            green: self.green.deep_view(),
            blue: self.blue.deep_view(),
            scale: self.scale.deep_view(),
        }
    }
}

impl Serialize for DustParticleData {
    open spec fn serializable(v: DustParticleDataView) -> bool {
        u32::serializable(v.red) && u32::serializable(v.green) && u32::serializable(v.blue) && u32::serializable(v.scale)
    }

    #[verifier::opaque]
    open spec fn encode(v: DustParticleDataView) -> Seq<u8> {
        u32::encode(v.red) + u32::encode(v.green) + u32::encode(v.blue) + u32::encode(v.scale)
    }

    fn mc_serialize<S: Serializer>(&self, to: &mut S) -> (r: SerializeResult) {
        proof {
            reveal(<DustParticleData as Serialize>::encode);
        }
        self.red.mc_serialize(to)?;
        self.green.mc_serialize(to)?;
        self.blue.mc_serialize(to)?;
        self.scale.mc_serialize(to)?;
        proof {
            let v = self.deep_view();
            let w = old(to).written();
            let e0 = u32::encode(v.red);
            let e1 = u32::encode(v.green);
            let e2 = u32::encode(v.blue);
            let e3 = u32::encode(v.scale);
            let l0 = e0;
            let l1 = l0 + e1;
            let l2 = l1 + e2;
            let l3 = l2 + e3;
            lemma_concat_assoc(w, l0, e1);
            lemma_concat_assoc(w, l1, e2);
            lemma_concat_assoc(w, l2, e3);
        }
        Ok(())
    }
}

impl Deserialize for DustParticleData {
    #[verifier::opaque]
    open spec fn decode(data: Seq<u8>) -> Decoded<DustParticleDataView> {
        match u32::decode(data) {
            Err(e) => Err(e),
            Ok((red, n0)) => {
                match u32::decode(data.skip((n0) as int)) {
                    Err(e) => Err(e),
                    Ok((green, n1)) => {
                        match u32::decode(data.skip((n0 + n1) as int)) {
                            Err(e) => Err(e),
                            Ok((blue, n2)) => {
                                match u32::decode(data.skip((n0 + n1 + n2) as int)) {
                                    Err(e) => Err(e),
                                    Ok((scale, n3)) => Ok((DustParticleDataView { red, green, blue, scale }, n0 + n1 + n2 + n3)),
                                }
                            },
                        }
                    },
                }
            },
        }
    }

    fn mc_deserialize(data: &[u8]) -> (r: DeserializeResult<'_, DustParticleData>) {
        proof {
            reveal(<DustParticleData as Deserialize>::decode);
        }
        let ghost whole = data@;
        let Deserialized { value: red, data: rest0 } = u32::mc_deserialize(data)?;
        let Deserialized { value: green, data: rest1 } = u32::mc_deserialize(rest0)?;
        proof {
            lemma_skip_skip(
                whole,
                whole.len() - rest0@.len(),
                rest0@.len() - rest1@.len(),
            );
        }
        let Deserialized { value: blue, data: rest2 } = u32::mc_deserialize(rest1)?;
        proof {
            lemma_skip_skip(
                whole,
                whole.len() - rest1@.len(),
                rest1@.len() - rest2@.len(),
            );
        }
        let Deserialized { value: scale, data: rest3 } = u32::mc_deserialize(rest2)?;
        proof {
            lemma_skip_skip(
                whole,
                whole.len() - rest2@.len(),
                rest2@.len() - rest3@.len(),
            );
        }
        Ok(Deserialized { value: DustParticleData { red, green, blue, scale }, data: rest3 })
    }
}

impl ProtocolType for DustParticleData {
    open spec fn faithful(v: DustParticleDataView) -> bool {
        u32::faithful(v.red) && u32::faithful(v.green) && u32::faithful(v.blue) && u32::faithful(v.scale)
    }

    open spec fn delimited() -> bool {
        u32::delimited()
    }

    proof fn lemma_round_trip(v: DustParticleDataView, rest: Seq<u8>) {
        reveal(<DustParticleData as Serialize>::encode);
        reveal(<DustParticleData as Deserialize>::decode);
        let e0 = u32::encode(v.red);
        let e1 = u32::encode(v.green);
        let e2 = u32::encode(v.blue);
        let e3 = u32::encode(v.scale);
        let data = Self::encode(v) + rest;
        let t4 = rest;
        let t3 = e3 + t4;
        let t2 = e2 + t3;
        let t1 = e1 + t2;
        let t0 = e0 + t1;
        let l0 = e0;
        let l1 = l0 + e1;
        let l2 = l1 + e2;
        let l3 = l2 + e3;
        lemma_concat_assoc(l2, e3, t4);
        lemma_concat_assoc(l1, e2, t3);
        lemma_concat_assoc(l0, e1, t2);
        assert(data == t0);
        u32::lemma_round_trip(v.red, t1);
        lemma_skip_concat(e0, t1);
        u32::lemma_round_trip(v.green, t2);
        lemma_skip_more(data, (e0.len()) as int, e1, t2);
        u32::lemma_round_trip(v.blue, t3);
        lemma_skip_more(data, (e0.len() + e1.len()) as int, e2, t3);
        u32::lemma_round_trip(v.scale, t4);
        lemma_skip_more(data, (e0.len() + e1.len() + e2.len()) as int, e3, t4);
    }
}

/// A kind of particle, with what belongs to it.
#[derive(PartialEq, Clone, Debug)]
pub enum ParticleSpec {
    AmbientEntityEffect,
    AngryVillager,
    Barrier,
    Block(BlockParticleData),
    Bubble,
    Cloud,
    Crit,
    DamageIndicator,
    DragonBreath,
    DrippingLava,
    FallingLava,
    LandingLava,
    DrippingWater,
    FallingWater,
    Dust(DustParticleData),
    Effect,
    ElderGuardian,
    EnchantedHit,
    Enchant,
    EndRod,
    EntityEffect,
    ExposionEmitter,
    Explosion,
    FallingDust(DustParticleData),
    Firework,
    Fishing,
    Flame,
    Flash,
    HappyVillager,
    Composter,
    Heart,
    InstantEffect,
    Item(Slot),
    ItemSlime,
    ItemSnowball,
    LargeSmoke,
    Lava,
    Mycelium,
    Note,
    Poof,
    Portal,
    Rain,
    Smoke,
    Sneeze,
    Spit,
    SquidInk,
    SweepAttack,
    TotemOfUndying,
    Underwater,
    Splash,
    Witch,
    BubblePop,
    CurrentDown,
    BubbleColumnUp,
    Nautilus,
    Dolphin,
    CampfireCosySmoke,
    CampfireSignalSmoke,
    DrippingHoney,
    FallingHoney,
    LandingHoney,
    FallingNectar,
}

/// The mathematical content of a [`ParticleSpec`].
pub enum ParticleSpecView {
    AmbientEntityEffect,
    AngryVillager,
    Barrier,
    Block(<BlockParticleData as DeepView>::V),
    Bubble,
    Cloud,
    Crit,
    DamageIndicator,
    DragonBreath,
    DrippingLava,
    FallingLava,
    LandingLava,
    DrippingWater,
    FallingWater,
    Dust(<DustParticleData as DeepView>::V),
    Effect,
    ElderGuardian,
    EnchantedHit,
    Enchant,
    EndRod,
    EntityEffect,
    ExposionEmitter,
    Explosion,
    FallingDust(<DustParticleData as DeepView>::V),
    Firework,
    Fishing,
    Flame,
    Flash,
    HappyVillager,
    Composter,
    Heart,
    InstantEffect,
    Item(<Slot as DeepView>::V),
    ItemSlime,
    ItemSnowball,
    LargeSmoke,
    Lava,
    Mycelium,
    Note,
    Poof,
    Portal,
    Rain,
    Smoke,
    Sneeze,
    Spit,
    SquidInk,
    SweepAttack,
    TotemOfUndying,
    Underwater,
    Splash,
    Witch,
    BubblePop,
    CurrentDown,
    BubbleColumnUp,
    Nautilus,
    Dolphin,
    CampfireCosySmoke,
    CampfireSignalSmoke,
    DrippingHoney,
    FallingHoney,
    LandingHoney,
    FallingNectar,
}

impl DeepView for ParticleSpec {
    type V = ParticleSpecView;

    open spec fn deep_view(&self) -> ParticleSpecView {
        match self {
            ParticleSpec::AmbientEntityEffect => ParticleSpecView::AmbientEntityEffect,
            ParticleSpec::AngryVillager => ParticleSpecView::AngryVillager,
            ParticleSpec::Barrier => ParticleSpecView::Barrier,
            ParticleSpec::Block(body) => ParticleSpecView::Block(body.deep_view()),
            ParticleSpec::Bubble => ParticleSpecView::Bubble,
            ParticleSpec::Cloud => ParticleSpecView::Cloud,
            ParticleSpec::Crit => ParticleSpecView::Crit,
            ParticleSpec::DamageIndicator => ParticleSpecView::DamageIndicator,
            ParticleSpec::DragonBreath => ParticleSpecView::DragonBreath,
            ParticleSpec::DrippingLava => ParticleSpecView::DrippingLava,
            ParticleSpec::FallingLava => ParticleSpecView::FallingLava,
            ParticleSpec::LandingLava => ParticleSpecView::LandingLava,
            ParticleSpec::DrippingWater => ParticleSpecView::DrippingWater,
            ParticleSpec::FallingWater => ParticleSpecView::FallingWater,
            ParticleSpec::Dust(body) => ParticleSpecView::Dust(body.deep_view()),
            ParticleSpec::Effect => ParticleSpecView::Effect,
            ParticleSpec::ElderGuardian => ParticleSpecView::ElderGuardian,
            ParticleSpec::EnchantedHit => ParticleSpecView::EnchantedHit,
            ParticleSpec::Enchant => ParticleSpecView::Enchant,
            ParticleSpec::EndRod => ParticleSpecView::EndRod,
            ParticleSpec::EntityEffect => ParticleSpecView::EntityEffect,
            ParticleSpec::ExposionEmitter => ParticleSpecView::ExposionEmitter,
            ParticleSpec::Explosion => ParticleSpecView::Explosion,
            ParticleSpec::FallingDust(body) => ParticleSpecView::FallingDust(body.deep_view()),
            ParticleSpec::Firework => ParticleSpecView::Firework,
            ParticleSpec::Fishing => ParticleSpecView::Fishing,
            ParticleSpec::Flame => ParticleSpecView::Flame,
            ParticleSpec::Flash => ParticleSpecView::Flash,
            ParticleSpec::HappyVillager => ParticleSpecView::HappyVillager,
            ParticleSpec::Composter => ParticleSpecView::Composter,
            ParticleSpec::Heart => ParticleSpecView::Heart,
            ParticleSpec::InstantEffect => ParticleSpecView::InstantEffect,
            ParticleSpec::Item(body) => ParticleSpecView::Item(body.deep_view()),
            ParticleSpec::ItemSlime => ParticleSpecView::ItemSlime,
            ParticleSpec::ItemSnowball => ParticleSpecView::ItemSnowball,
            ParticleSpec::LargeSmoke => ParticleSpecView::LargeSmoke,
            ParticleSpec::Lava => ParticleSpecView::Lava,
            ParticleSpec::Mycelium => ParticleSpecView::Mycelium,
            ParticleSpec::Note => ParticleSpecView::Note,
            ParticleSpec::Poof => ParticleSpecView::Poof,
            ParticleSpec::Portal => ParticleSpecView::Portal,
            ParticleSpec::Rain => ParticleSpecView::Rain,
            ParticleSpec::Smoke => ParticleSpecView::Smoke,
            ParticleSpec::Sneeze => ParticleSpecView::Sneeze,
            ParticleSpec::Spit => ParticleSpecView::Spit,
            ParticleSpec::SquidInk => ParticleSpecView::SquidInk,
            ParticleSpec::SweepAttack => ParticleSpecView::SweepAttack,
            ParticleSpec::TotemOfUndying => ParticleSpecView::TotemOfUndying,
            ParticleSpec::Underwater => ParticleSpecView::Underwater,
            ParticleSpec::Splash => ParticleSpecView::Splash,
            ParticleSpec::Witch => ParticleSpecView::Witch,
            ParticleSpec::BubblePop => ParticleSpecView::BubblePop,
            ParticleSpec::CurrentDown => ParticleSpecView::CurrentDown,
            ParticleSpec::BubbleColumnUp => ParticleSpecView::BubbleColumnUp,
            ParticleSpec::Nautilus => ParticleSpecView::Nautilus,
            ParticleSpec::Dolphin => ParticleSpecView::Dolphin,
            ParticleSpec::CampfireCosySmoke => ParticleSpecView::CampfireCosySmoke,
            ParticleSpec::CampfireSignalSmoke => ParticleSpecView::CampfireSignalSmoke,
            ParticleSpec::DrippingHoney => ParticleSpecView::DrippingHoney,
            ParticleSpec::FallingHoney => ParticleSpecView::FallingHoney,
            ParticleSpec::LandingHoney => ParticleSpecView::LandingHoney,
            ParticleSpec::FallingNectar => ParticleSpecView::FallingNectar,
        }
    }
}

impl ParticleSpec {
    pub fn variant_count() -> (r: usize)
        ensures
            r == 62,
    {
        62
    }

    /// The number that stands for the variant on the wire.
    pub open spec fn id_of(v: ParticleSpecView) -> i32 {
        match v {
            ParticleSpecView::AmbientEntityEffect => 0x00,
            ParticleSpecView::AngryVillager => 0x01,
            ParticleSpecView::Barrier => 0x02,
            ParticleSpecView::Block(_) => 0x03,
            ParticleSpecView::Bubble => 0x04,
            ParticleSpecView::Cloud => 0x05,
            ParticleSpecView::Crit => 0x06,
            ParticleSpecView::DamageIndicator => 0x07,
            ParticleSpecView::DragonBreath => 0x08,
            ParticleSpecView::DrippingLava => 0x09,
            ParticleSpecView::FallingLava => 0x0A,
            ParticleSpecView::LandingLava => 0x0B,
            ParticleSpecView::DrippingWater => 0x0C,
            ParticleSpecView::FallingWater => 0x0D,
            ParticleSpecView::Dust(_) => 0x0E,
            ParticleSpecView::Effect => 0x0F,
            ParticleSpecView::ElderGuardian => 0x10,
            ParticleSpecView::EnchantedHit => 0x11,
            ParticleSpecView::Enchant => 0x12,
            ParticleSpecView::EndRod => 0x13,
            ParticleSpecView::EntityEffect => 0x14,
            ParticleSpecView::ExposionEmitter => 0x15,
            ParticleSpecView::Explosion => 0x16,
            ParticleSpecView::FallingDust(_) => 0x17,
            ParticleSpecView::Firework => 0x18,
            ParticleSpecView::Fishing => 0x19,
            ParticleSpecView::Flame => 0x1A,
            ParticleSpecView::Flash => 0x1B,
            ParticleSpecView::HappyVillager => 0x1C,
            ParticleSpecView::Composter => 0x1D,
            ParticleSpecView::Heart => 0x1E,
            ParticleSpecView::InstantEffect => 0x1F,
            ParticleSpecView::Item(_) => 0x20,
            ParticleSpecView::ItemSlime => 0x21,
            ParticleSpecView::ItemSnowball => 0x22,
            ParticleSpecView::LargeSmoke => 0x23,
            ParticleSpecView::Lava => 0x24,
            ParticleSpecView::Mycelium => 0x25,
            ParticleSpecView::Note => 0x26,
            ParticleSpecView::Poof => 0x27,
            ParticleSpecView::Portal => 0x28,
            ParticleSpecView::Rain => 0x29,
            ParticleSpecView::Smoke => 0x2A,
            ParticleSpecView::Sneeze => 0x2B,
            ParticleSpecView::Spit => 0x2C,
            ParticleSpecView::SquidInk => 0x2D,
            ParticleSpecView::SweepAttack => 0x2E,
            ParticleSpecView::TotemOfUndying => 0x2F,
            ParticleSpecView::Underwater => 0x30,
            ParticleSpecView::Splash => 0x31,
            ParticleSpecView::Witch => 0x32,
            ParticleSpecView::BubblePop => 0x33,
            ParticleSpecView::CurrentDown => 0x34,
            ParticleSpecView::BubbleColumnUp => 0x35,
            ParticleSpecView::Nautilus => 0x36,
            ParticleSpecView::Dolphin => 0x37,
            ParticleSpecView::CampfireCosySmoke => 0x38,
            ParticleSpecView::CampfireSignalSmoke => 0x39,
            ParticleSpecView::DrippingHoney => 0x3A,
            ParticleSpecView::FallingHoney => 0x3B,
            ParticleSpecView::LandingHoney => 0x3C,
            ParticleSpecView::FallingNectar => 0x3D,
        }
    }

    pub fn id(&self) -> (r: VarInt)
        ensures
            r == VarInt(Self::id_of(self.deep_view())),
    {
        match self {
            ParticleSpec::AmbientEntityEffect => VarInt(0x00),
            ParticleSpec::AngryVillager => VarInt(0x01),
            ParticleSpec::Barrier => VarInt(0x02),
            ParticleSpec::Block(_) => VarInt(0x03),
            ParticleSpec::Bubble => VarInt(0x04),
            ParticleSpec::Cloud => VarInt(0x05),
            ParticleSpec::Crit => VarInt(0x06),
            ParticleSpec::DamageIndicator => VarInt(0x07),
            ParticleSpec::DragonBreath => VarInt(0x08),
            ParticleSpec::DrippingLava => VarInt(0x09),
            ParticleSpec::FallingLava => VarInt(0x0A),
            ParticleSpec::LandingLava => VarInt(0x0B),
            ParticleSpec::DrippingWater => VarInt(0x0C),
            ParticleSpec::FallingWater => VarInt(0x0D),
            ParticleSpec::Dust(_) => VarInt(0x0E),
            ParticleSpec::Effect => VarInt(0x0F),
            ParticleSpec::ElderGuardian => VarInt(0x10),
            ParticleSpec::EnchantedHit => VarInt(0x11),
            ParticleSpec::Enchant => VarInt(0x12),
            ParticleSpec::EndRod => VarInt(0x13),
            ParticleSpec::EntityEffect => VarInt(0x14),
            ParticleSpec::ExposionEmitter => VarInt(0x15),
            ParticleSpec::Explosion => VarInt(0x16),
            ParticleSpec::FallingDust(_) => VarInt(0x17),
            ParticleSpec::Firework => VarInt(0x18),
            ParticleSpec::Fishing => VarInt(0x19),
            ParticleSpec::Flame => VarInt(0x1A),
            ParticleSpec::Flash => VarInt(0x1B),
            ParticleSpec::HappyVillager => VarInt(0x1C),
            ParticleSpec::Composter => VarInt(0x1D),
            ParticleSpec::Heart => VarInt(0x1E),
            ParticleSpec::InstantEffect => VarInt(0x1F),
            ParticleSpec::Item(_) => VarInt(0x20),
            ParticleSpec::ItemSlime => VarInt(0x21),
            ParticleSpec::ItemSnowball => VarInt(0x22),
            ParticleSpec::LargeSmoke => VarInt(0x23),
            ParticleSpec::Lava => VarInt(0x24),
            ParticleSpec::Mycelium => VarInt(0x25),
            ParticleSpec::Note => VarInt(0x26),
            ParticleSpec::Poof => VarInt(0x27),
            ParticleSpec::Portal => VarInt(0x28),
            ParticleSpec::Rain => VarInt(0x29),
            ParticleSpec::Smoke => VarInt(0x2A),
            ParticleSpec::Sneeze => VarInt(0x2B),
            ParticleSpec::Spit => VarInt(0x2C),
            ParticleSpec::SquidInk => VarInt(0x2D),
            ParticleSpec::SweepAttack => VarInt(0x2E),
            ParticleSpec::TotemOfUndying => VarInt(0x2F),
            ParticleSpec::Underwater => VarInt(0x30),
            ParticleSpec::Splash => VarInt(0x31),
            ParticleSpec::Witch => VarInt(0x32),
            ParticleSpec::BubblePop => VarInt(0x33),
            ParticleSpec::CurrentDown => VarInt(0x34),
            ParticleSpec::BubbleColumnUp => VarInt(0x35),
            ParticleSpec::Nautilus => VarInt(0x36),
            ParticleSpec::Dolphin => VarInt(0x37),
            ParticleSpec::CampfireCosySmoke => VarInt(0x38),
            ParticleSpec::CampfireSignalSmoke => VarInt(0x39),
            ParticleSpec::DrippingHoney => VarInt(0x3A),
            ParticleSpec::FallingHoney => VarInt(0x3B),
            ParticleSpec::LandingHoney => VarInt(0x3C),
            ParticleSpec::FallingNectar => VarInt(0x3D),
        }
    }

    pub open spec fn name_of(v: ParticleSpecView) -> Seq<char> {
        match v {
            ParticleSpecView::AmbientEntityEffect => "AmbientEntityEffect"@,
            ParticleSpecView::AngryVillager => "AngryVillager"@,
            ParticleSpecView::Barrier => "Barrier"@,
            ParticleSpecView::Block(_) => "Block"@,
            ParticleSpecView::Bubble => "Bubble"@,
            ParticleSpecView::Cloud => "Cloud"@,
            ParticleSpecView::Crit => "Crit"@,
            ParticleSpecView::DamageIndicator => "DamageIndicator"@,
            ParticleSpecView::DragonBreath => "DragonBreath"@,
            ParticleSpecView::DrippingLava => "DrippingLava"@,
            ParticleSpecView::FallingLava => "FallingLava"@,
            ParticleSpecView::LandingLava => "LandingLava"@,
            ParticleSpecView::DrippingWater => "DrippingWater"@,
            ParticleSpecView::FallingWater => "FallingWater"@,
            ParticleSpecView::Dust(_) => "Dust"@,
            ParticleSpecView::Effect => "Effect"@,
            ParticleSpecView::ElderGuardian => "ElderGuardian"@,
            ParticleSpecView::EnchantedHit => "EnchantedHit"@,
            ParticleSpecView::Enchant => "Enchant"@,
            ParticleSpecView::EndRod => "EndRod"@,
            ParticleSpecView::EntityEffect => "EntityEffect"@,
            ParticleSpecView::ExposionEmitter => "ExposionEmitter"@,
            ParticleSpecView::Explosion => "Explosion"@,
            ParticleSpecView::FallingDust(_) => "FallingDust"@,
            ParticleSpecView::Firework => "Firework"@,
            ParticleSpecView::Fishing => "Fishing"@,
            ParticleSpecView::Flame => "Flame"@,
            ParticleSpecView::Flash => "Flash"@,
            ParticleSpecView::HappyVillager => "HappyVillager"@,
            ParticleSpecView::Composter => "Composter"@,
            ParticleSpecView::Heart => "Heart"@,
            ParticleSpecView::InstantEffect => "InstantEffect"@,
            ParticleSpecView::Item(_) => "Item"@,
            ParticleSpecView::ItemSlime => "ItemSlime"@,
            ParticleSpecView::ItemSnowball => "ItemSnowball"@,
            ParticleSpecView::LargeSmoke => "LargeSmoke"@,
            ParticleSpecView::Lava => "Lava"@,
            ParticleSpecView::Mycelium => "Mycelium"@,
            ParticleSpecView::Note => "Note"@,
            ParticleSpecView::Poof => "Poof"@,
            ParticleSpecView::Portal => "Portal"@,
            ParticleSpecView::Rain => "Rain"@,
            ParticleSpecView::Smoke => "Smoke"@,
            ParticleSpecView::Sneeze => "Sneeze"@,
            ParticleSpecView::Spit => "Spit"@,
            ParticleSpecView::SquidInk => "SquidInk"@,
            ParticleSpecView::SweepAttack => "SweepAttack"@,
            ParticleSpecView::TotemOfUndying => "TotemOfUndying"@,
            ParticleSpecView::Underwater => "Underwater"@,
            ParticleSpecView::Splash => "Splash"@,
            ParticleSpecView::Witch => "Witch"@,
            ParticleSpecView::BubblePop => "BubblePop"@,
            ParticleSpecView::CurrentDown => "CurrentDown"@,
            ParticleSpecView::BubbleColumnUp => "BubbleColumnUp"@,
            ParticleSpecView::Nautilus => "Nautilus"@,
            ParticleSpecView::Dolphin => "Dolphin"@,
            ParticleSpecView::CampfireCosySmoke => "CampfireCosySmoke"@,
            ParticleSpecView::CampfireSignalSmoke => "CampfireSignalSmoke"@,
            ParticleSpecView::DrippingHoney => "DrippingHoney"@,
            ParticleSpecView::FallingHoney => "FallingHoney"@,
            ParticleSpecView::LandingHoney => "LandingHoney"@,
            ParticleSpecView::FallingNectar => "FallingNectar"@,
        }
    }

    pub fn name(&self) -> (r: &'static str)
        ensures
            r@ == Self::name_of(self.deep_view()),
    {
        match self {
            ParticleSpec::AmbientEntityEffect => "AmbientEntityEffect",
            ParticleSpec::AngryVillager => "AngryVillager",
            ParticleSpec::Barrier => "Barrier",
            ParticleSpec::Block(_) => "Block",
            ParticleSpec::Bubble => "Bubble",
            ParticleSpec::Cloud => "Cloud",
            ParticleSpec::Crit => "Crit",
            ParticleSpec::DamageIndicator => "DamageIndicator",
            ParticleSpec::DragonBreath => "DragonBreath",
            ParticleSpec::DrippingLava => "DrippingLava",
            ParticleSpec::FallingLava => "FallingLava",
            ParticleSpec::LandingLava => "LandingLava",
            ParticleSpec::DrippingWater => "DrippingWater",
            ParticleSpec::FallingWater => "FallingWater",
            ParticleSpec::Dust(_) => "Dust",
            ParticleSpec::Effect => "Effect",
            ParticleSpec::ElderGuardian => "ElderGuardian",
            ParticleSpec::EnchantedHit => "EnchantedHit",
            ParticleSpec::Enchant => "Enchant",
            ParticleSpec::EndRod => "EndRod",
            ParticleSpec::EntityEffect => "EntityEffect",
            ParticleSpec::ExposionEmitter => "ExposionEmitter",
            ParticleSpec::Explosion => "Explosion",
            ParticleSpec::FallingDust(_) => "FallingDust",
            ParticleSpec::Firework => "Firework",
            ParticleSpec::Fishing => "Fishing",
            ParticleSpec::Flame => "Flame",
            ParticleSpec::Flash => "Flash",
            ParticleSpec::HappyVillager => "HappyVillager",
            ParticleSpec::Composter => "Composter",
            ParticleSpec::Heart => "Heart",
            ParticleSpec::InstantEffect => "InstantEffect",
            ParticleSpec::Item(_) => "Item",
            ParticleSpec::ItemSlime => "ItemSlime",
            ParticleSpec::ItemSnowball => "ItemSnowball",
            ParticleSpec::LargeSmoke => "LargeSmoke",
            ParticleSpec::Lava => "Lava",
            ParticleSpec::Mycelium => "Mycelium",
            ParticleSpec::Note => "Note",
            ParticleSpec::Poof => "Poof",
            ParticleSpec::Portal => "Portal",
            ParticleSpec::Rain => "Rain",
            ParticleSpec::Smoke => "Smoke",
            ParticleSpec::Sneeze => "Sneeze",
            ParticleSpec::Spit => "Spit",
            ParticleSpec::SquidInk => "SquidInk",
            ParticleSpec::SweepAttack => "SweepAttack",
            ParticleSpec::TotemOfUndying => "TotemOfUndying",
            ParticleSpec::Underwater => "Underwater",
            ParticleSpec::Splash => "Splash",
            ParticleSpec::Witch => "Witch",
            ParticleSpec::BubblePop => "BubblePop",
            ParticleSpec::CurrentDown => "CurrentDown",
            ParticleSpec::BubbleColumnUp => "BubbleColumnUp",
            ParticleSpec::Nautilus => "Nautilus",
            ParticleSpec::Dolphin => "Dolphin",
            ParticleSpec::CampfireCosySmoke => "CampfireCosySmoke",
            ParticleSpec::CampfireSignalSmoke => "CampfireSignalSmoke",
            ParticleSpec::DrippingHoney => "DrippingHoney",
            ParticleSpec::FallingHoney => "FallingHoney",
            ParticleSpec::LandingHoney => "LandingHoney",
            ParticleSpec::FallingNectar => "FallingNectar",
        }
    }

    /// The bytes that follow the number.
    pub open spec fn body_of(v: ParticleSpecView) -> Seq<u8> {
        match v {
            ParticleSpecView::AmbientEntityEffect => Seq::empty(),
            ParticleSpecView::AngryVillager => Seq::empty(),
            ParticleSpecView::Barrier => Seq::empty(),
            ParticleSpecView::Block(body) => <BlockParticleData>::encode(body),
            ParticleSpecView::Bubble => Seq::empty(),
            ParticleSpecView::Cloud => Seq::empty(),
            ParticleSpecView::Crit => Seq::empty(),
            ParticleSpecView::DamageIndicator => Seq::empty(),
            ParticleSpecView::DragonBreath => Seq::empty(),
            ParticleSpecView::DrippingLava => Seq::empty(),
            ParticleSpecView::FallingLava => Seq::empty(),
            ParticleSpecView::LandingLava => Seq::empty(),
            ParticleSpecView::DrippingWater => Seq::empty(),
            ParticleSpecView::FallingWater => Seq::empty(),
            ParticleSpecView::Dust(body) => <DustParticleData>::encode(body),
            ParticleSpecView::Effect => Seq::empty(),
            ParticleSpecView::ElderGuardian => Seq::empty(),
            ParticleSpecView::EnchantedHit => Seq::empty(),
            ParticleSpecView::Enchant => Seq::empty(),
            ParticleSpecView::EndRod => Seq::empty(),
            ParticleSpecView::EntityEffect => Seq::empty(),
            ParticleSpecView::ExposionEmitter => Seq::empty(),
            ParticleSpecView::Explosion => Seq::empty(),
            ParticleSpecView::FallingDust(body) => <DustParticleData>::encode(body),
            ParticleSpecView::Firework => Seq::empty(),
            ParticleSpecView::Fishing => Seq::empty(),
            ParticleSpecView::Flame => Seq::empty(),
            ParticleSpecView::Flash => Seq::empty(),
            ParticleSpecView::HappyVillager => Seq::empty(),
            ParticleSpecView::Composter => Seq::empty(),
            ParticleSpecView::Heart => Seq::empty(),
            ParticleSpecView::InstantEffect => Seq::empty(),
            ParticleSpecView::Item(body) => <Slot>::encode(body),
            ParticleSpecView::ItemSlime => Seq::empty(),
            ParticleSpecView::ItemSnowball => Seq::empty(),
            ParticleSpecView::LargeSmoke => Seq::empty(),
            ParticleSpecView::Lava => Seq::empty(),
            ParticleSpecView::Mycelium => Seq::empty(),
            ParticleSpecView::Note => Seq::empty(),
            ParticleSpecView::Poof => Seq::empty(),
            ParticleSpecView::Portal => Seq::empty(),
            ParticleSpecView::Rain => Seq::empty(),
            ParticleSpecView::Smoke => Seq::empty(),
            ParticleSpecView::Sneeze => Seq::empty(),
            ParticleSpecView::Spit => Seq::empty(),
            ParticleSpecView::SquidInk => Seq::empty(),
            ParticleSpecView::SweepAttack => Seq::empty(),
            ParticleSpecView::TotemOfUndying => Seq::empty(),
            ParticleSpecView::Underwater => Seq::empty(),
            ParticleSpecView::Splash => Seq::empty(),
            ParticleSpecView::Witch => Seq::empty(),
            ParticleSpecView::BubblePop => Seq::empty(),
            ParticleSpecView::CurrentDown => Seq::empty(),
            ParticleSpecView::BubbleColumnUp => Seq::empty(),
            ParticleSpecView::Nautilus => Seq::empty(),
            ParticleSpecView::Dolphin => Seq::empty(),
            ParticleSpecView::CampfireCosySmoke => Seq::empty(),
            ParticleSpecView::CampfireSignalSmoke => Seq::empty(),
            ParticleSpecView::DrippingHoney => Seq::empty(),
            ParticleSpecView::FallingHoney => Seq::empty(),
            ParticleSpecView::LandingHoney => Seq::empty(),
            ParticleSpecView::FallingNectar => Seq::empty(),
        }
    }

    /// Whether what follows the number can be written.
    pub open spec fn body_writable(v: ParticleSpecView) -> bool {
        match v {
            ParticleSpecView::AmbientEntityEffect => true,
            ParticleSpecView::AngryVillager => true,
            ParticleSpecView::Barrier => true,
            ParticleSpecView::Block(body) => <BlockParticleData>::serializable(body),
            ParticleSpecView::Bubble => true,
            ParticleSpecView::Cloud => true,
            ParticleSpecView::Crit => true,
            ParticleSpecView::DamageIndicator => true,
            ParticleSpecView::DragonBreath => true,
            ParticleSpecView::DrippingLava => true,
            ParticleSpecView::FallingLava => true,
            ParticleSpecView::LandingLava => true,
            ParticleSpecView::DrippingWater => true,
            ParticleSpecView::FallingWater => true,
            ParticleSpecView::Dust(body) => <DustParticleData>::serializable(body),
            ParticleSpecView::Effect => true,
            ParticleSpecView::ElderGuardian => true,
            ParticleSpecView::EnchantedHit => true,
            ParticleSpecView::Enchant => true,
            ParticleSpecView::EndRod => true,
            ParticleSpecView::EntityEffect => true,
            ParticleSpecView::ExposionEmitter => true,
            ParticleSpecView::Explosion => true,
            ParticleSpecView::FallingDust(body) => <DustParticleData>::serializable(body),
            ParticleSpecView::Firework => true,
            ParticleSpecView::Fishing => true,
            ParticleSpecView::Flame => true,
            ParticleSpecView::Flash => true,
            ParticleSpecView::HappyVillager => true,
            ParticleSpecView::Composter => true,
            ParticleSpecView::Heart => true,
            ParticleSpecView::InstantEffect => true,
            ParticleSpecView::Item(body) => <Slot>::serializable(body),
            ParticleSpecView::ItemSlime => true,
            ParticleSpecView::ItemSnowball => true,
            ParticleSpecView::LargeSmoke => true,
            ParticleSpecView::Lava => true,
            ParticleSpecView::Mycelium => true,
            ParticleSpecView::Note => true,
            ParticleSpecView::Poof => true,
            ParticleSpecView::Portal => true,
            ParticleSpecView::Rain => true,
            ParticleSpecView::Smoke => true,
            ParticleSpecView::Sneeze => true,
            ParticleSpecView::Spit => true,
            ParticleSpecView::SquidInk => true,
            ParticleSpecView::SweepAttack => true,
            ParticleSpecView::TotemOfUndying => true,
            ParticleSpecView::Underwater => true,
            ParticleSpecView::Splash => true,
            ParticleSpecView::Witch => true,
            ParticleSpecView::BubblePop => true,
            ParticleSpecView::CurrentDown => true,
            ParticleSpecView::BubbleColumnUp => true,
            ParticleSpecView::Nautilus => true,
            ParticleSpecView::Dolphin => true,
            ParticleSpecView::CampfireCosySmoke => true,
            ParticleSpecView::CampfireSignalSmoke => true,
            ParticleSpecView::DrippingHoney => true,
            ParticleSpecView::FallingHoney => true,
            ParticleSpecView::LandingHoney => true,
            ParticleSpecView::FallingNectar => true,
        }
    }

    /// The variant that `id` stands for, with its body read from `data`.
    pub open spec fn decode_with_id(id: i32, data: Seq<u8>) -> Decoded<ParticleSpecView> {
        if id == 0x00 {
            Ok((ParticleSpecView::AmbientEntityEffect, 0))
        } else if id == 0x01 {
            Ok((ParticleSpecView::AngryVillager, 0))
        } else if id == 0x02 {
            Ok((ParticleSpecView::Barrier, 0))
        } else if id == 0x03 {
            match <BlockParticleData>::decode(data) {
                Ok((body, n)) => Ok((ParticleSpecView::Block(body), n)),
                Err(e) => Err(e),
            }
        } else if id == 0x04 {
            Ok((ParticleSpecView::Bubble, 0))
        } else if id == 0x05 {
            Ok((ParticleSpecView::Cloud, 0))
        } else if id == 0x06 {
            Ok((ParticleSpecView::Crit, 0))
        } else if id == 0x07 {
            Ok((ParticleSpecView::DamageIndicator, 0))
        } else if id == 0x08 {
            Ok((ParticleSpecView::DragonBreath, 0))
        } else if id == 0x09 {
            Ok((ParticleSpecView::DrippingLava, 0))
        } else if id == 0x0A {
            Ok((ParticleSpecView::FallingLava, 0))
        } else if id == 0x0B {
            Ok((ParticleSpecView::LandingLava, 0))
        } else if id == 0x0C {
            Ok((ParticleSpecView::DrippingWater, 0))
        } else if id == 0x0D {
            Ok((ParticleSpecView::FallingWater, 0))
        } else if id == 0x0E {
            match <DustParticleData>::decode(data) {
                Ok((body, n)) => Ok((ParticleSpecView::Dust(body), n)),
                Err(e) => Err(e),
            }
        } else if id == 0x0F {
            Ok((ParticleSpecView::Effect, 0))
        } else if id == 0x10 {
            Ok((ParticleSpecView::ElderGuardian, 0))
        } else if id == 0x11 {
            Ok((ParticleSpecView::EnchantedHit, 0))
        } else if id == 0x12 {
            Ok((ParticleSpecView::Enchant, 0))
        } else if id == 0x13 {
            Ok((ParticleSpecView::EndRod, 0))
        } else if id == 0x14 {
            Ok((ParticleSpecView::EntityEffect, 0))
        } else if id == 0x15 {
            Ok((ParticleSpecView::ExposionEmitter, 0))
        } else if id == 0x16 {
            Ok((ParticleSpecView::Explosion, 0))
        } else if id == 0x17 {
            match <DustParticleData>::decode(data) {
                Ok((body, n)) => Ok((ParticleSpecView::FallingDust(body), n)),
                Err(e) => Err(e),
            }
        } else if id == 0x18 {
            Ok((ParticleSpecView::Firework, 0))
        } else if id == 0x19 {
            Ok((ParticleSpecView::Fishing, 0))
        } else if id == 0x1A {
            Ok((ParticleSpecView::Flame, 0))
        } else if id == 0x1B {
            Ok((ParticleSpecView::Flash, 0))
        } else if id == 0x1C {
            Ok((ParticleSpecView::HappyVillager, 0))
        } else if id == 0x1D {
            Ok((ParticleSpecView::Composter, 0))
        } else if id == 0x1E {
            Ok((ParticleSpecView::Heart, 0))
        } else if id == 0x1F {
            Ok((ParticleSpecView::InstantEffect, 0))
        } else if id == 0x20 {
            match <Slot>::decode(data) {
                Ok((body, n)) => Ok((ParticleSpecView::Item(body), n)),
                Err(e) => Err(e),
            }
        } else if id == 0x21 {
            Ok((ParticleSpecView::ItemSlime, 0))
        } else if id == 0x22 {
            Ok((ParticleSpecView::ItemSnowball, 0))
        } else if id == 0x23 {
            Ok((ParticleSpecView::LargeSmoke, 0))
        } else if id == 0x24 {
            Ok((ParticleSpecView::Lava, 0))
        } else if id == 0x25 {
            Ok((ParticleSpecView::Mycelium, 0))
        } else if id == 0x26 {
            Ok((ParticleSpecView::Note, 0))
        } else if id == 0x27 {
            Ok((ParticleSpecView::Poof, 0))
        } else if id == 0x28 {
            Ok((ParticleSpecView::Portal, 0))
        } else if id == 0x29 {
            Ok((ParticleSpecView::Rain, 0))
        } else if id == 0x2A {
            Ok((ParticleSpecView::Smoke, 0))
        } else if id == 0x2B {
            Ok((ParticleSpecView::Sneeze, 0))
        } else if id == 0x2C {
            Ok((ParticleSpecView::Spit, 0))
        } else if id == 0x2D {
            Ok((ParticleSpecView::SquidInk, 0))
        } else if id == 0x2E {
            Ok((ParticleSpecView::SweepAttack, 0))
        } else if id == 0x2F {
            Ok((ParticleSpecView::TotemOfUndying, 0))
        } else if id == 0x30 {
            Ok((ParticleSpecView::Underwater, 0))
        } else if id == 0x31 {
            Ok((ParticleSpecView::Splash, 0))
        } else if id == 0x32 {
            Ok((ParticleSpecView::Witch, 0))
        } else if id == 0x33 {
            Ok((ParticleSpecView::BubblePop, 0))
        } else if id == 0x34 {
            Ok((ParticleSpecView::CurrentDown, 0))
        } else if id == 0x35 {
            Ok((ParticleSpecView::BubbleColumnUp, 0))
        } else if id == 0x36 {
            Ok((ParticleSpecView::Nautilus, 0))
        } else if id == 0x37 {
            Ok((ParticleSpecView::Dolphin, 0))
        } else if id == 0x38 {
            Ok((ParticleSpecView::CampfireCosySmoke, 0))
        } else if id == 0x39 {
            Ok((ParticleSpecView::CampfireSignalSmoke, 0))
        } else if id == 0x3A {
            Ok((ParticleSpecView::DrippingHoney, 0))
        } else if id == 0x3B {
            Ok((ParticleSpecView::FallingHoney, 0))
        } else if id == 0x3C {
            Ok((ParticleSpecView::LandingHoney, 0))
        } else if id == 0x3D {
            Ok((ParticleSpecView::FallingNectar, 0))
        } else {
            Err(DecodeFailure::CannotUnderstandValue)
        }
    }

    /// Whether `id` stands for a variant.
    pub open spec fn has_id(id: i32) -> bool {
        id == 0x00
            || id == 0x01
            || id == 0x02
            || id == 0x03
            || id == 0x04
            || id == 0x05
            || id == 0x06
            || id == 0x07
            || id == 0x08
            || id == 0x09
            || id == 0x0A
            || id == 0x0B
            || id == 0x0C
            || id == 0x0D
            || id == 0x0E
            || id == 0x0F
            || id == 0x10
            || id == 0x11
            || id == 0x12
            || id == 0x13
            || id == 0x14
            || id == 0x15
            || id == 0x16
            || id == 0x17
            || id == 0x18
            || id == 0x19
            || id == 0x1A
            || id == 0x1B
            || id == 0x1C
            || id == 0x1D
            || id == 0x1E
            || id == 0x1F
            || id == 0x20
            || id == 0x21
            || id == 0x22
            || id == 0x23
            || id == 0x24
            || id == 0x25
            || id == 0x26
            || id == 0x27
            || id == 0x28
            || id == 0x29
            || id == 0x2A
            || id == 0x2B
            || id == 0x2C
            || id == 0x2D
            || id == 0x2E
            || id == 0x2F
            || id == 0x30
            || id == 0x31
            || id == 0x32
            || id == 0x33
            || id == 0x34
            || id == 0x35
            || id == 0x36
            || id == 0x37
            || id == 0x38
            || id == 0x39
            || id == 0x3A
            || id == 0x3B
            || id == 0x3C
            || id == 0x3D
    }

    /// Picks the variant for `id` and reads its body from `data`. A number
    /// that stands for no variant is refused, and the error says which.
    pub fn deserialize_with_id<'a>(id: VarInt, data: &'a [u8]) -> (r: DeserializeResult<'a, Self>)
        ensures
            agrees(r, data@, Self::decode_with_id(id.0, data@)),
            !Self::has_id(id.0) ==> (r matches Err(DeserializeErr::CannotUnderstandValue(m))
                && m@ == invalid_int_text("ParticleSpec"@, id.0 as int)),
    {
        proof {
            assert(data@.skip(0) =~= data@);
        }
        match id.0 {
            0x00 => Ok(Deserialized { value: ParticleSpec::AmbientEntityEffect, data }),
            0x01 => Ok(Deserialized { value: ParticleSpec::AngryVillager, data }),
            0x02 => Ok(Deserialized { value: ParticleSpec::Barrier, data }),
            0x03 => {
                let Deserialized { value: body, data: rest } = <BlockParticleData>::mc_deserialize(data)?;
                Ok(Deserialized { value: ParticleSpec::Block(body), data: rest })
            },
            0x04 => Ok(Deserialized { value: ParticleSpec::Bubble, data }),
            0x05 => Ok(Deserialized { value: ParticleSpec::Cloud, data }),
            0x06 => Ok(Deserialized { value: ParticleSpec::Crit, data }),
            0x07 => Ok(Deserialized { value: ParticleSpec::DamageIndicator, data }),
            0x08 => Ok(Deserialized { value: ParticleSpec::DragonBreath, data }),
            0x09 => Ok(Deserialized { value: ParticleSpec::DrippingLava, data }),
            0x0A => Ok(Deserialized { value: ParticleSpec::FallingLava, data }),
            0x0B => Ok(Deserialized { value: ParticleSpec::LandingLava, data }),
            0x0C => Ok(Deserialized { value: ParticleSpec::DrippingWater, data }),
            0x0D => Ok(Deserialized { value: ParticleSpec::FallingWater, data }),
            0x0E => {
                let Deserialized { value: body, data: rest } = <DustParticleData>::mc_deserialize(data)?;
                Ok(Deserialized { value: ParticleSpec::Dust(body), data: rest })
            },
            0x0F => Ok(Deserialized { value: ParticleSpec::Effect, data }),
            0x10 => Ok(Deserialized { value: ParticleSpec::ElderGuardian, data }),
            0x11 => Ok(Deserialized { value: ParticleSpec::EnchantedHit, data }),
            0x12 => Ok(Deserialized { value: ParticleSpec::Enchant, data }),
            0x13 => Ok(Deserialized { value: ParticleSpec::EndRod, data }),
            0x14 => Ok(Deserialized { value: ParticleSpec::EntityEffect, data }),
            0x15 => Ok(Deserialized { value: ParticleSpec::ExposionEmitter, data }),
            0x16 => Ok(Deserialized { value: ParticleSpec::Explosion, data }),
            0x17 => {
                let Deserialized { value: body, data: rest } = <DustParticleData>::mc_deserialize(data)?;
                Ok(Deserialized { value: ParticleSpec::FallingDust(body), data: rest })
            },
            0x18 => Ok(Deserialized { value: ParticleSpec::Firework, data }),
            0x19 => Ok(Deserialized { value: ParticleSpec::Fishing, data }),
            0x1A => Ok(Deserialized { value: ParticleSpec::Flame, data }),
            0x1B => Ok(Deserialized { value: ParticleSpec::Flash, data }),
            0x1C => Ok(Deserialized { value: ParticleSpec::HappyVillager, data }),
            0x1D => Ok(Deserialized { value: ParticleSpec::Composter, data }),
            0x1E => Ok(Deserialized { value: ParticleSpec::Heart, data }),
            0x1F => Ok(Deserialized { value: ParticleSpec::InstantEffect, data }),
            0x20 => {
                let Deserialized { value: body, data: rest } = <Slot>::mc_deserialize(data)?;
                Ok(Deserialized { value: ParticleSpec::Item(body), data: rest })
            },
            0x21 => Ok(Deserialized { value: ParticleSpec::ItemSlime, data }),
            0x22 => Ok(Deserialized { value: ParticleSpec::ItemSnowball, data }),
            0x23 => Ok(Deserialized { value: ParticleSpec::LargeSmoke, data }),
            0x24 => Ok(Deserialized { value: ParticleSpec::Lava, data }),
            0x25 => Ok(Deserialized { value: ParticleSpec::Mycelium, data }),
            0x26 => Ok(Deserialized { value: ParticleSpec::Note, data }),
            0x27 => Ok(Deserialized { value: ParticleSpec::Poof, data }),
            0x28 => Ok(Deserialized { value: ParticleSpec::Portal, data }),
            0x29 => Ok(Deserialized { value: ParticleSpec::Rain, data }),
            0x2A => Ok(Deserialized { value: ParticleSpec::Smoke, data }),
            0x2B => Ok(Deserialized { value: ParticleSpec::Sneeze, data }),
            0x2C => Ok(Deserialized { value: ParticleSpec::Spit, data }),
            0x2D => Ok(Deserialized { value: ParticleSpec::SquidInk, data }),
            0x2E => Ok(Deserialized { value: ParticleSpec::SweepAttack, data }),
            0x2F => Ok(Deserialized { value: ParticleSpec::TotemOfUndying, data }),
            0x30 => Ok(Deserialized { value: ParticleSpec::Underwater, data }),
            0x31 => Ok(Deserialized { value: ParticleSpec::Splash, data }),
            0x32 => Ok(Deserialized { value: ParticleSpec::Witch, data }),
            0x33 => Ok(Deserialized { value: ParticleSpec::BubblePop, data }),
            0x34 => Ok(Deserialized { value: ParticleSpec::CurrentDown, data }),
            0x35 => Ok(Deserialized { value: ParticleSpec::BubbleColumnUp, data }),
            0x36 => Ok(Deserialized { value: ParticleSpec::Nautilus, data }),
            0x37 => Ok(Deserialized { value: ParticleSpec::Dolphin, data }),
            0x38 => Ok(Deserialized { value: ParticleSpec::CampfireCosySmoke, data }),
            0x39 => Ok(Deserialized { value: ParticleSpec::CampfireSignalSmoke, data }),
            0x3A => Ok(Deserialized { value: ParticleSpec::DrippingHoney, data }),
            0x3B => Ok(Deserialized { value: ParticleSpec::FallingHoney, data }),
            0x3C => Ok(Deserialized { value: ParticleSpec::LandingHoney, data }),
            0x3D => Ok(Deserialized { value: ParticleSpec::FallingNectar, data }),
            other => Err(DeserializeErr::CannotUnderstandValue(invalid_int_message("ParticleSpec", other))),
        }
    }

    /// Writes what follows the number.
    pub fn serialize_body<S: Serializer>(&self, to: &mut S) -> (r: SerializeResult)
        ensures
            r is Ok ==> Self::body_writable(self.deep_view()) && final(to).written() == old(
                to,
            ).written() + Self::body_of(self.deep_view()),
            old(to).infallible() ==> final(to).infallible(),
            old(to).infallible() ==> (r is Ok <==> Self::body_writable(self.deep_view())),
            old(to).infallible() && r is Err ==> (r matches Err(SerializeErr::CannotSerialize(_))),
    {
        match self {
            ParticleSpec::AmbientEntityEffect => {
                proof {
                    assert(old(to).written() + Seq::<u8>::empty() =~= old(to).written());
                }
                Ok(())
            },
            ParticleSpec::AngryVillager => {
                proof {
                    assert(old(to).written() + Seq::<u8>::empty() =~= old(to).written());
                }
                Ok(())
            },
            ParticleSpec::Barrier => {
                proof {
                    assert(old(to).written() + Seq::<u8>::empty() =~= old(to).written());
                }
                Ok(())
            },
            ParticleSpec::Block(bod) => bod.mc_serialize(to),
            ParticleSpec::Bubble => {
                proof {
                    assert(old(to).written() + Seq::<u8>::empty() =~= old(to).written());
                }
                Ok(())
            },
            ParticleSpec::Cloud => {
                proof {
                    assert(old(to).written() + Seq::<u8>::empty() =~= old(to).written());
                }
                Ok(())
            },
            ParticleSpec::Crit => {
                proof {
                    assert(old(to).written() + Seq::<u8>::empty() =~= old(to).written());
                }
                Ok(())
            },
            ParticleSpec::DamageIndicator => {
                proof {
                    assert(old(to).written() + Seq::<u8>::empty() =~= old(to).written());
                }
                Ok(())
            },
            ParticleSpec::DragonBreath => {
                proof {
                    assert(old(to).written() + Seq::<u8>::empty() =~= old(to).written());
                }
                Ok(())
            },
            ParticleSpec::DrippingLava => {
                proof {
                    assert(old(to).written() + Seq::<u8>::empty() =~= old(to).written());
                }
                Ok(())
            },
            ParticleSpec::FallingLava => {
                proof {
                    assert(old(to).written() + Seq::<u8>::empty() =~= old(to).written());
                }
                Ok(())
            },
            ParticleSpec::LandingLava => {
                proof {
                    assert(old(to).written() + Seq::<u8>::empty() =~= old(to).written());
                }
                Ok(())
            },
            ParticleSpec::DrippingWater => {
                proof {
                    assert(old(to).written() + Seq::<u8>::empty() =~= old(to).written());
                }
                Ok(())
            },
            ParticleSpec::FallingWater => {
                proof {
                    assert(old(to).written() + Seq::<u8>::empty() =~= old(to).written());
                }
                Ok(())
            },
            ParticleSpec::Dust(bod) => bod.mc_serialize(to),
            ParticleSpec::Effect => {
                proof {
                    assert(old(to).written() + Seq::<u8>::empty() =~= old(to).written());
                }
                Ok(())
            },
            ParticleSpec::ElderGuardian => {
                proof {
                    assert(old(to).written() + Seq::<u8>::empty() =~= old(to).written());
                }
                Ok(())
            },
            ParticleSpec::EnchantedHit => {
                proof {
                    assert(old(to).written() + Seq::<u8>::empty() =~= old(to).written());
                }
                Ok(())
            },
            ParticleSpec::Enchant => {
                proof {
                    assert(old(to).written() + Seq::<u8>::empty() =~= old(to).written());
                }
                Ok(())
            },
            ParticleSpec::EndRod => {
                proof {
                    assert(old(to).written() + Seq::<u8>::empty() =~= old(to).written());
                }
                Ok(())
            },
            ParticleSpec::EntityEffect => {
                proof {
                    assert(old(to).written() + Seq::<u8>::empty() =~= old(to).written());
                }
                Ok(())
            },
            ParticleSpec::ExposionEmitter => {
                proof {
                    assert(old(to).written() + Seq::<u8>::empty() =~= old(to).written());
                }
                Ok(())
            },
            ParticleSpec::Explosion => {
                proof {
                    assert(old(to).written() + Seq::<u8>::empty() =~= old(to).written());
                }
                Ok(())
            },
            ParticleSpec::FallingDust(bod) => bod.mc_serialize(to),
            ParticleSpec::Firework => {
                proof {
                    assert(old(to).written() + Seq::<u8>::empty() =~= old(to).written());
                }
                Ok(())
            },
            ParticleSpec::Fishing => {
                proof {
                    assert(old(to).written() + Seq::<u8>::empty() =~= old(to).written());
                }
                Ok(())
            },
            ParticleSpec::Flame => {
                proof {
                    assert(old(to).written() + Seq::<u8>::empty() =~= old(to).written());
                }
                Ok(())
            },
            ParticleSpec::Flash => {
                proof {
                    assert(old(to).written() + Seq::<u8>::empty() =~= old(to).written());
                }
                Ok(())
            },
            ParticleSpec::HappyVillager => {
                proof {
                    assert(old(to).written() + Seq::<u8>::empty() =~= old(to).written());
                }
                Ok(())
            },
            ParticleSpec::Composter => {
                proof {
                    assert(old(to).written() + Seq::<u8>::empty() =~= old(to).written());
                }
                Ok(())
            },
            ParticleSpec::Heart => {
                proof {
                    assert(old(to).written() + Seq::<u8>::empty() =~= old(to).written());
                }
                Ok(())
            },
            ParticleSpec::InstantEffect => {
                proof {
                    assert(old(to).written() + Seq::<u8>::empty() =~= old(to).written());
                }
                Ok(())
            },
            ParticleSpec::Item(bod) => bod.mc_serialize(to),
            ParticleSpec::ItemSlime => {
                proof {
                    assert(old(to).written() + Seq::<u8>::empty() =~= old(to).written());
                }
                Ok(())
            },
            ParticleSpec::ItemSnowball => {
                proof {
                    assert(old(to).written() + Seq::<u8>::empty() =~= old(to).written());
                }
                Ok(())
            },
            ParticleSpec::LargeSmoke => {
                proof {
                    assert(old(to).written() + Seq::<u8>::empty() =~= old(to).written());
                }
                Ok(())
            },
            ParticleSpec::Lava => {
                proof {
                    assert(old(to).written() + Seq::<u8>::empty() =~= old(to).written());
                }
                Ok(())
            },
            ParticleSpec::Mycelium => {
                proof {
                    assert(old(to).written() + Seq::<u8>::empty() =~= old(to).written());
                }
                Ok(())
            },
            ParticleSpec::Note => {
                proof {
                    assert(old(to).written() + Seq::<u8>::empty() =~= old(to).written());
                }
                Ok(())
            },
            ParticleSpec::Poof => {
                proof {
                    assert(old(to).written() + Seq::<u8>::empty() =~= old(to).written());
                }
                Ok(())
            },
            ParticleSpec::Portal => {
                proof {
                    assert(old(to).written() + Seq::<u8>::empty() =~= old(to).written());
                }
                Ok(())
            },
            ParticleSpec::Rain => {
                proof {
                    assert(old(to).written() + Seq::<u8>::empty() =~= old(to).written());
                }
                Ok(())
            },
            ParticleSpec::Smoke => {
                proof {
                    assert(old(to).written() + Seq::<u8>::empty() =~= old(to).written());
                }
                Ok(())
            },
            ParticleSpec::Sneeze => {
                proof {
                    assert(old(to).written() + Seq::<u8>::empty() =~= old(to).written());
                }
                Ok(())
            },
            ParticleSpec::Spit => {
                proof {
                    assert(old(to).written() + Seq::<u8>::empty() =~= old(to).written());
                }
                Ok(())
            },
            ParticleSpec::SquidInk => {
                proof {
                    assert(old(to).written() + Seq::<u8>::empty() =~= old(to).written());
                }
                Ok(())
            },
            ParticleSpec::SweepAttack => {
                proof {
                    assert(old(to).written() + Seq::<u8>::empty() =~= old(to).written());
                }
                Ok(())
            },
            ParticleSpec::TotemOfUndying => {
                proof {
                    assert(old(to).written() + Seq::<u8>::empty() =~= old(to).written());
                }
                Ok(())
            },
            ParticleSpec::Underwater => {
                proof {
                    assert(old(to).written() + Seq::<u8>::empty() =~= old(to).written());
                }
                Ok(())
            },
            ParticleSpec::Splash => {
                proof {
                    assert(old(to).written() + Seq::<u8>::empty() =~= old(to).written());
                }
                Ok(())
            },
            ParticleSpec::Witch => {
                proof {
                    assert(old(to).written() + Seq::<u8>::empty() =~= old(to).written());
                }
                Ok(())
            },
            ParticleSpec::BubblePop => {
                proof {
                    assert(old(to).written() + Seq::<u8>::empty() =~= old(to).written());
                }
                Ok(())
            },
            ParticleSpec::CurrentDown => {
                proof {
                    assert(old(to).written() + Seq::<u8>::empty() =~= old(to).written());
                }
                Ok(())
            },
            ParticleSpec::BubbleColumnUp => {
                proof {
                    assert(old(to).written() + Seq::<u8>::empty() =~= old(to).written());
                }
                Ok(())
            },
            ParticleSpec::Nautilus => {
                proof {
                    assert(old(to).written() + Seq::<u8>::empty() =~= old(to).written());
                }
                Ok(())
            },
            ParticleSpec::Dolphin => {
                proof {
                    assert(old(to).written() + Seq::<u8>::empty() =~= old(to).written());
                }
                Ok(())
            },
            ParticleSpec::CampfireCosySmoke => {
                proof {
                    assert(old(to).written() + Seq::<u8>::empty() =~= old(to).written());
                }
                Ok(())
            },
            ParticleSpec::CampfireSignalSmoke => {
                proof {
                    assert(old(to).written() + Seq::<u8>::empty() =~= old(to).written());
                }
                Ok(())
            },
            ParticleSpec::DrippingHoney => {
                proof {
                    assert(old(to).written() + Seq::<u8>::empty() =~= old(to).written());
                }
                Ok(())
            },
            ParticleSpec::FallingHoney => {
                proof {
                    assert(old(to).written() + Seq::<u8>::empty() =~= old(to).written());
                }
                Ok(())
            },
            ParticleSpec::LandingHoney => {
                proof {
                    assert(old(to).written() + Seq::<u8>::empty() =~= old(to).written());
                }
                Ok(())
            },
            ParticleSpec::FallingNectar => {
                proof {
                    assert(old(to).written() + Seq::<u8>::empty() =~= old(to).written());
                }
                Ok(())
            },
        }
    }
}

impl Serialize for ParticleSpec {
    open spec fn serializable(v: ParticleSpecView) -> bool {
        Self::body_writable(v)
    }

    #[verifier::opaque]
    open spec fn encode(v: ParticleSpecView) -> Seq<u8> {
        <VarInt>::encode(VarInt(Self::id_of(v))) + Self::body_of(v)
    }

    fn mc_serialize<S: Serializer>(&self, to: &mut S) -> (r: SerializeResult) {
        proof {
            reveal(<ParticleSpec as Serialize>::encode);
        }
        let id_to_serialize: VarInt = self.id();
        id_to_serialize.mc_serialize(to)?;
        let r = self.serialize_body(to);
        proof {
            let head = <VarInt>::encode(VarInt(Self::id_of(self.deep_view())));
            let body = Self::body_of(self.deep_view());
            lemma_concat_assoc(old(to).written(), head, body);
        }
        r
    }
}

impl Deserialize for ParticleSpec {
    #[verifier::opaque]
    open spec fn decode(data: Seq<u8>) -> Decoded<ParticleSpecView> {
        match <VarInt>::decode(data) {
            Err(e) => Err(e),
            Ok((id, n)) => match Self::decode_with_id(id.0, data.skip(n as int)) {
                Ok((v, m)) => Ok((v, n + m)),
                Err(e) => Err(e),
            },
        }
    }

    fn mc_deserialize(data: &[u8]) -> (r: DeserializeResult<'_, ParticleSpec>) {
        proof {
            reveal(<ParticleSpec as Deserialize>::decode);
        }
        let Deserialized { value: id, data: rest } = <VarInt>::mc_deserialize(data)?;
        let Deserialized { value, data: after } = Self::deserialize_with_id(id, rest)?;
        proof {
            lemma_skip_skip(data@, data@.len() - rest@.len(), rest@.len() - after@.len());
        }
        Ok(Deserialized { value, data: after })
    }
}

impl ProtocolType for ParticleSpec {
    open spec fn faithful(v: ParticleSpecView) -> bool {
        match v {
            ParticleSpecView::AmbientEntityEffect => true,
            ParticleSpecView::AngryVillager => true,
            ParticleSpecView::Barrier => true,
            ParticleSpecView::Block(body) => <BlockParticleData>::faithful(body),
            ParticleSpecView::Bubble => true,
            ParticleSpecView::Cloud => true,
            ParticleSpecView::Crit => true,
            ParticleSpecView::DamageIndicator => true,
            ParticleSpecView::DragonBreath => true,
            ParticleSpecView::DrippingLava => true,
            ParticleSpecView::FallingLava => true,
            ParticleSpecView::LandingLava => true,
            ParticleSpecView::DrippingWater => true,
            ParticleSpecView::FallingWater => true,
            ParticleSpecView::Dust(body) => <DustParticleData>::faithful(body),
            ParticleSpecView::Effect => true,
            ParticleSpecView::ElderGuardian => true,
            ParticleSpecView::EnchantedHit => true,
            ParticleSpecView::Enchant => true,
            ParticleSpecView::EndRod => true,
            ParticleSpecView::EntityEffect => true,
            ParticleSpecView::ExposionEmitter => true,
            ParticleSpecView::Explosion => true,
            ParticleSpecView::FallingDust(body) => <DustParticleData>::faithful(body),
            ParticleSpecView::Firework => true,
            ParticleSpecView::Fishing => true,
            ParticleSpecView::Flame => true,
            ParticleSpecView::Flash => true,
            ParticleSpecView::HappyVillager => true,
            ParticleSpecView::Composter => true,
            ParticleSpecView::Heart => true,
            ParticleSpecView::InstantEffect => true,
            ParticleSpecView::Item(body) => <Slot>::faithful(body),
            ParticleSpecView::ItemSlime => true,
            ParticleSpecView::ItemSnowball => true,
            ParticleSpecView::LargeSmoke => true,
            ParticleSpecView::Lava => true,
            ParticleSpecView::Mycelium => true,
            ParticleSpecView::Note => true,
            ParticleSpecView::Poof => true,
            ParticleSpecView::Portal => true,
            ParticleSpecView::Rain => true,
            ParticleSpecView::Smoke => true,
            ParticleSpecView::Sneeze => true,
            ParticleSpecView::Spit => true,
            ParticleSpecView::SquidInk => true,
            ParticleSpecView::SweepAttack => true,
            ParticleSpecView::TotemOfUndying => true,
            ParticleSpecView::Underwater => true,
            ParticleSpecView::Splash => true,
            ParticleSpecView::Witch => true,
            ParticleSpecView::BubblePop => true,
            ParticleSpecView::CurrentDown => true,
            ParticleSpecView::BubbleColumnUp => true,
            ParticleSpecView::Nautilus => true,
            ParticleSpecView::Dolphin => true,
            ParticleSpecView::CampfireCosySmoke => true,
            ParticleSpecView::CampfireSignalSmoke => true,
            ParticleSpecView::DrippingHoney => true,
            ParticleSpecView::FallingHoney => true,
            ParticleSpecView::LandingHoney => true,
            ParticleSpecView::FallingNectar => true,
        }
    }

    open spec fn delimited() -> bool {
        <BlockParticleData>::delimited() && <DustParticleData>::delimited() && <Slot>::delimited()
    }

    proof fn lemma_round_trip(v: ParticleSpecView, rest: Seq<u8>) {
        reveal(<ParticleSpec as Serialize>::encode);
        reveal(<ParticleSpec as Deserialize>::decode);
        let head = <VarInt>::encode(VarInt(Self::id_of(v)));
        let body = Self::body_of(v);
        <VarInt>::lemma_round_trip(VarInt(Self::id_of(v)), body + rest);
        Self::lemma_body_round_trip(v, rest);
        lemma_concat_assoc(head, body, rest);
        lemma_skip_concat(head, body + rest);
    }
}

impl ParticleSpec {
    /// What follows the number, written out and followed by anything, reads
    /// back under that number.
    pub proof fn lemma_body_round_trip(v: ParticleSpecView, rest: Seq<u8>)
        requires
            <Self as ProtocolType>::faithful(v),
            <Self as ProtocolType>::delimited() || rest.len() == 0,
        ensures
            Self::body_writable(v),
            Self::decode_with_id(Self::id_of(v), Self::body_of(v) + rest) == Ok::<_, DecodeFailure>(
                (v, Self::body_of(v).len()),
            ),
    {
        match v {
            ParticleSpecView::AmbientEntityEffect => {
                assert(Seq::<u8>::empty() + rest =~= rest);
            },
            ParticleSpecView::AngryVillager => {
                assert(Seq::<u8>::empty() + rest =~= rest);
            },
            ParticleSpecView::Barrier => {
                assert(Seq::<u8>::empty() + rest =~= rest);
            },
            ParticleSpecView::Block(body) => {
                <BlockParticleData>::lemma_round_trip(body, rest);
            },
            ParticleSpecView::Bubble => {
                assert(Seq::<u8>::empty() + rest =~= rest);
            },
            ParticleSpecView::Cloud => {
                assert(Seq::<u8>::empty() + rest =~= rest);
            },
            ParticleSpecView::Crit => {
                assert(Seq::<u8>::empty() + rest =~= rest);
            },
            ParticleSpecView::DamageIndicator => {
                assert(Seq::<u8>::empty() + rest =~= rest);
            },
            ParticleSpecView::DragonBreath => {
                assert(Seq::<u8>::empty() + rest =~= rest);
            },
            ParticleSpecView::DrippingLava => {
                assert(Seq::<u8>::empty() + rest =~= rest);
            },
            ParticleSpecView::FallingLava => {
                assert(Seq::<u8>::empty() + rest =~= rest);
            },
            ParticleSpecView::LandingLava => {
                assert(Seq::<u8>::empty() + rest =~= rest);
            },
            ParticleSpecView::DrippingWater => {
                assert(Seq::<u8>::empty() + rest =~= rest);
            },
            ParticleSpecView::FallingWater => {
                assert(Seq::<u8>::empty() + rest =~= rest);
            },
            ParticleSpecView::Dust(body) => {
                <DustParticleData>::lemma_round_trip(body, rest);
            },
            ParticleSpecView::Effect => {
                assert(Seq::<u8>::empty() + rest =~= rest);
            },
            ParticleSpecView::ElderGuardian => {
                assert(Seq::<u8>::empty() + rest =~= rest);
            },
            ParticleSpecView::EnchantedHit => {
                assert(Seq::<u8>::empty() + rest =~= rest);
            },
            ParticleSpecView::Enchant => {
                assert(Seq::<u8>::empty() + rest =~= rest);
            },
            ParticleSpecView::EndRod => {
                assert(Seq::<u8>::empty() + rest =~= rest);
            },
            ParticleSpecView::EntityEffect => {
                assert(Seq::<u8>::empty() + rest =~= rest);
            },
            ParticleSpecView::ExposionEmitter => {
                assert(Seq::<u8>::empty() + rest =~= rest);
            },
            ParticleSpecView::Explosion => {
                assert(Seq::<u8>::empty() + rest =~= rest);
            },
            ParticleSpecView::FallingDust(body) => {
                <DustParticleData>::lemma_round_trip(body, rest);
            },
            ParticleSpecView::Firework => {
                assert(Seq::<u8>::empty() + rest =~= rest);
            },
            ParticleSpecView::Fishing => {
                assert(Seq::<u8>::empty() + rest =~= rest);
            },
            ParticleSpecView::Flame => {
                assert(Seq::<u8>::empty() + rest =~= rest);
            },
            ParticleSpecView::Flash => {
                assert(Seq::<u8>::empty() + rest =~= rest);
            },
            ParticleSpecView::HappyVillager => {
                assert(Seq::<u8>::empty() + rest =~= rest);
            },
            ParticleSpecView::Composter => {
                assert(Seq::<u8>::empty() + rest =~= rest);
            },
            ParticleSpecView::Heart => {
                assert(Seq::<u8>::empty() + rest =~= rest);
            },
            ParticleSpecView::InstantEffect => {
                assert(Seq::<u8>::empty() + rest =~= rest);
            },
            ParticleSpecView::Item(body) => {
                <Slot>::lemma_round_trip(body, rest);
            },
            ParticleSpecView::ItemSlime => {
                assert(Seq::<u8>::empty() + rest =~= rest);
            },
            ParticleSpecView::ItemSnowball => {
                assert(Seq::<u8>::empty() + rest =~= rest);
            },
            ParticleSpecView::LargeSmoke => {
                assert(Seq::<u8>::empty() + rest =~= rest);
            },
            ParticleSpecView::Lava => {
                assert(Seq::<u8>::empty() + rest =~= rest);
            },
            ParticleSpecView::Mycelium => {
                assert(Seq::<u8>::empty() + rest =~= rest);
            },
            ParticleSpecView::Note => {
                assert(Seq::<u8>::empty() + rest =~= rest);
            },
            ParticleSpecView::Poof => {
                assert(Seq::<u8>::empty() + rest =~= rest);
            },
            ParticleSpecView::Portal => {
                assert(Seq::<u8>::empty() + rest =~= rest);
            },
            ParticleSpecView::Rain => {
                assert(Seq::<u8>::empty() + rest =~= rest);
            },
            ParticleSpecView::Smoke => {
                assert(Seq::<u8>::empty() + rest =~= rest);
            },
            ParticleSpecView::Sneeze => {
                assert(Seq::<u8>::empty() + rest =~= rest);
            },
            ParticleSpecView::Spit => {
                assert(Seq::<u8>::empty() + rest =~= rest);
            },
            ParticleSpecView::SquidInk => {
                assert(Seq::<u8>::empty() + rest =~= rest);
            },
            ParticleSpecView::SweepAttack => {
                assert(Seq::<u8>::empty() + rest =~= rest);
            },
            ParticleSpecView::TotemOfUndying => {
                assert(Seq::<u8>::empty() + rest =~= rest);
            },
            ParticleSpecView::Underwater => {
                assert(Seq::<u8>::empty() + rest =~= rest);
            },
            ParticleSpecView::Splash => {
                assert(Seq::<u8>::empty() + rest =~= rest);
            },
            ParticleSpecView::Witch => {
                assert(Seq::<u8>::empty() + rest =~= rest);
            },
            ParticleSpecView::BubblePop => {
                assert(Seq::<u8>::empty() + rest =~= rest);
            },
            ParticleSpecView::CurrentDown => {
                assert(Seq::<u8>::empty() + rest =~= rest);
            },
            ParticleSpecView::BubbleColumnUp => {
                assert(Seq::<u8>::empty() + rest =~= rest);
            },
            ParticleSpecView::Nautilus => {
                assert(Seq::<u8>::empty() + rest =~= rest);
            },
            ParticleSpecView::Dolphin => {
                assert(Seq::<u8>::empty() + rest =~= rest);
            },
            ParticleSpecView::CampfireCosySmoke => {
                assert(Seq::<u8>::empty() + rest =~= rest);
            },
            ParticleSpecView::CampfireSignalSmoke => {
                assert(Seq::<u8>::empty() + rest =~= rest);
            },
            ParticleSpecView::DrippingHoney => {
                assert(Seq::<u8>::empty() + rest =~= rest);
            },
            ParticleSpecView::FallingHoney => {
                assert(Seq::<u8>::empty() + rest =~= rest);
            },
            ParticleSpecView::LandingHoney => {
                assert(Seq::<u8>::empty() + rest =~= rest);
            },
            ParticleSpecView::FallingNectar => {
                assert(Seq::<u8>::empty() + rest =~= rest);
            },
        }
    }
}

/// One value of an entity's metadata. A float is held as its bit pattern, a chat component as its JSON text: the wire carries those, and nothing here looks into them.
#[derive(PartialEq, Clone, Debug)]
pub enum EntityMetadataFieldData {
    Byte(i8),
    VarInt(VarInt),
    Float(u32),
    String(String),
    Chat(String),
    OptChat(Option<String>),
    Slot(Slot),
    Boolean(bool),
    Rotation(Vec3<u32>),
    Position(IntPosition),
    OptPosition(Option<IntPosition>),
    Direction(EntityDirection),
    OptUUID(Option<UUID4>),
    OptBlockId(VarInt),
    NBT(NamedNbtTag),
    Particle(ParticleSpec),
    VillagerData(EntityVillagerData),
    OptVarInt(VarInt),
    Pose(EntityPose),
}

/// The mathematical content of a [`EntityMetadataFieldData`].
pub enum EntityMetadataFieldDataView {
    Byte(<i8 as DeepView>::V),
    VarInt(<VarInt as DeepView>::V),
    Float(<u32 as DeepView>::V),
    String(<String as DeepView>::V),
    Chat(<String as DeepView>::V),
    OptChat(<Option<String> as DeepView>::V),
    Slot(<Slot as DeepView>::V),
    Boolean(<bool as DeepView>::V),
    Rotation(<Vec3<u32> as DeepView>::V),
    Position(<IntPosition as DeepView>::V),
    OptPosition(<Option<IntPosition> as DeepView>::V),
    Direction(<EntityDirection as DeepView>::V),
    OptUUID(<Option<UUID4> as DeepView>::V),
    OptBlockId(<VarInt as DeepView>::V),
    NBT(<NamedNbtTag as DeepView>::V),
    Particle(<ParticleSpec as DeepView>::V),
    VillagerData(<EntityVillagerData as DeepView>::V),
    OptVarInt(<VarInt as DeepView>::V),
    Pose(<EntityPose as DeepView>::V),
}

impl DeepView for EntityMetadataFieldData {
    type V = EntityMetadataFieldDataView;

    open spec fn deep_view(&self) -> EntityMetadataFieldDataView {
        match self {
            EntityMetadataFieldData::Byte(body) => EntityMetadataFieldDataView::Byte(body.deep_view()),
            EntityMetadataFieldData::VarInt(body) => EntityMetadataFieldDataView::VarInt(body.deep_view()),
            EntityMetadataFieldData::Float(body) => EntityMetadataFieldDataView::Float(body.deep_view()),
            EntityMetadataFieldData::String(body) => EntityMetadataFieldDataView::String(body.deep_view()),
            EntityMetadataFieldData::Chat(body) => EntityMetadataFieldDataView::Chat(body.deep_view()),
            EntityMetadataFieldData::OptChat(body) => EntityMetadataFieldDataView::OptChat(body.deep_view()),
            EntityMetadataFieldData::Slot(body) => EntityMetadataFieldDataView::Slot(body.deep_view()),
            EntityMetadataFieldData::Boolean(body) => EntityMetadataFieldDataView::Boolean(body.deep_view()),
            EntityMetadataFieldData::Rotation(body) => EntityMetadataFieldDataView::Rotation(body.deep_view()),
            EntityMetadataFieldData::Position(body) => EntityMetadataFieldDataView::Position(body.deep_view()),
            EntityMetadataFieldData::OptPosition(body) => EntityMetadataFieldDataView::OptPosition(body.deep_view()),
            EntityMetadataFieldData::Direction(body) => EntityMetadataFieldDataView::Direction(body.deep_view()),
            EntityMetadataFieldData::OptUUID(body) => EntityMetadataFieldDataView::OptUUID(body.deep_view()),
            EntityMetadataFieldData::OptBlockId(body) => EntityMetadataFieldDataView::OptBlockId(body.deep_view()),
            EntityMetadataFieldData::NBT(body) => EntityMetadataFieldDataView::NBT(body.deep_view()),
            EntityMetadataFieldData::Particle(body) => EntityMetadataFieldDataView::Particle(body.deep_view()),
            EntityMetadataFieldData::VillagerData(body) => EntityMetadataFieldDataView::VillagerData(body.deep_view()),
            EntityMetadataFieldData::OptVarInt(body) => EntityMetadataFieldDataView::OptVarInt(body.deep_view()),
            EntityMetadataFieldData::Pose(body) => EntityMetadataFieldDataView::Pose(body.deep_view()),
        }
    }
}

impl EntityMetadataFieldData {
    pub fn variant_count() -> (r: usize)
        ensures
            r == 19,
    {
        19
    }

    /// The number that stands for the variant on the wire.
    pub open spec fn id_of(v: EntityMetadataFieldDataView) -> i32 {
        match v {
            EntityMetadataFieldDataView::Byte(_) => 0x00,
            EntityMetadataFieldDataView::VarInt(_) => 0x01,
            EntityMetadataFieldDataView::Float(_) => 0x02,
            EntityMetadataFieldDataView::String(_) => 0x03,
            EntityMetadataFieldDataView::Chat(_) => 0x04,
            EntityMetadataFieldDataView::OptChat(_) => 0x05,
            EntityMetadataFieldDataView::Slot(_) => 0x06,
            EntityMetadataFieldDataView::Boolean(_) => 0x07,
            EntityMetadataFieldDataView::Rotation(_) => 0x08,
            EntityMetadataFieldDataView::Position(_) => 0x09,
            EntityMetadataFieldDataView::OptPosition(_) => 0x0A,
            EntityMetadataFieldDataView::Direction(_) => 0x0B,
            EntityMetadataFieldDataView::OptUUID(_) => 0x0C,
            EntityMetadataFieldDataView::OptBlockId(_) => 0x0D,
            EntityMetadataFieldDataView::NBT(_) => 0x0E,
            EntityMetadataFieldDataView::Particle(_) => 0x0F,
            EntityMetadataFieldDataView::VillagerData(_) => 0x10,
            EntityMetadataFieldDataView::OptVarInt(_) => 0x11,
            EntityMetadataFieldDataView::Pose(_) => 0x12,
        }
    }

    pub fn id(&self) -> (r: VarInt)
        ensures
            r == VarInt(Self::id_of(self.deep_view())),
    {
        match self {
            EntityMetadataFieldData::Byte(_) => VarInt(0x00),
            EntityMetadataFieldData::VarInt(_) => VarInt(0x01),
            EntityMetadataFieldData::Float(_) => VarInt(0x02),
            EntityMetadataFieldData::String(_) => VarInt(0x03),
            EntityMetadataFieldData::Chat(_) => VarInt(0x04),
            EntityMetadataFieldData::OptChat(_) => VarInt(0x05),
            EntityMetadataFieldData::Slot(_) => VarInt(0x06),
            EntityMetadataFieldData::Boolean(_) => VarInt(0x07),
            EntityMetadataFieldData::Rotation(_) => VarInt(0x08),
            EntityMetadataFieldData::Position(_) => VarInt(0x09),
            EntityMetadataFieldData::OptPosition(_) => VarInt(0x0A),
            EntityMetadataFieldData::Direction(_) => VarInt(0x0B),
            EntityMetadataFieldData::OptUUID(_) => VarInt(0x0C),
            EntityMetadataFieldData::OptBlockId(_) => VarInt(0x0D),
            EntityMetadataFieldData::NBT(_) => VarInt(0x0E),
            EntityMetadataFieldData::Particle(_) => VarInt(0x0F),
            EntityMetadataFieldData::VillagerData(_) => VarInt(0x10),
            EntityMetadataFieldData::OptVarInt(_) => VarInt(0x11),
            EntityMetadataFieldData::Pose(_) => VarInt(0x12),
        }
    }

    pub open spec fn name_of(v: EntityMetadataFieldDataView) -> Seq<char> {
        match v {
            EntityMetadataFieldDataView::Byte(_) => "Byte"@,
            EntityMetadataFieldDataView::VarInt(_) => "VarInt"@,
            EntityMetadataFieldDataView::Float(_) => "Float"@,
            EntityMetadataFieldDataView::String(_) => "String"@,
            EntityMetadataFieldDataView::Chat(_) => "Chat"@,
            EntityMetadataFieldDataView::OptChat(_) => "OptChat"@,
            EntityMetadataFieldDataView::Slot(_) => "Slot"@,
            EntityMetadataFieldDataView::Boolean(_) => "Boolean"@,
            EntityMetadataFieldDataView::Rotation(_) => "Rotation"@,
            EntityMetadataFieldDataView::Position(_) => "Position"@,
            EntityMetadataFieldDataView::OptPosition(_) => "OptPosition"@,
            EntityMetadataFieldDataView::Direction(_) => "Direction"@,
            EntityMetadataFieldDataView::OptUUID(_) => "OptUUID"@,
            EntityMetadataFieldDataView::OptBlockId(_) => "OptBlockId"@,
            EntityMetadataFieldDataView::NBT(_) => "NBT"@,
            EntityMetadataFieldDataView::Particle(_) => "Particle"@,
            EntityMetadataFieldDataView::VillagerData(_) => "VillagerData"@,
            EntityMetadataFieldDataView::OptVarInt(_) => "OptVarInt"@,
            EntityMetadataFieldDataView::Pose(_) => "Pose"@,
        }
    }

    pub fn name(&self) -> (r: &'static str)
        ensures
            r@ == Self::name_of(self.deep_view()),
    {
        match self {
            EntityMetadataFieldData::Byte(_) => "Byte",
            EntityMetadataFieldData::VarInt(_) => "VarInt",
            EntityMetadataFieldData::Float(_) => "Float",
            EntityMetadataFieldData::String(_) => "String",
            EntityMetadataFieldData::Chat(_) => "Chat",
            EntityMetadataFieldData::OptChat(_) => "OptChat",
            EntityMetadataFieldData::Slot(_) => "Slot",
            EntityMetadataFieldData::Boolean(_) => "Boolean",
            EntityMetadataFieldData::Rotation(_) => "Rotation",
            EntityMetadataFieldData::Position(_) => "Position",
            EntityMetadataFieldData::OptPosition(_) => "OptPosition",
            EntityMetadataFieldData::Direction(_) => "Direction",
            EntityMetadataFieldData::OptUUID(_) => "OptUUID",
            EntityMetadataFieldData::OptBlockId(_) => "OptBlockId",
            EntityMetadataFieldData::NBT(_) => "NBT",
            EntityMetadataFieldData::Particle(_) => "Particle",
            EntityMetadataFieldData::VillagerData(_) => "VillagerData",
            EntityMetadataFieldData::OptVarInt(_) => "OptVarInt",
            EntityMetadataFieldData::Pose(_) => "Pose",
        }
    }

    /// The bytes that follow the number.
    pub open spec fn body_of(v: EntityMetadataFieldDataView) -> Seq<u8> {
        match v {
            EntityMetadataFieldDataView::Byte(body) => <i8>::encode(body),
            EntityMetadataFieldDataView::VarInt(body) => <VarInt>::encode(body),
            EntityMetadataFieldDataView::Float(body) => <u32>::encode(body),
            EntityMetadataFieldDataView::String(body) => <String>::encode(body),
            EntityMetadataFieldDataView::Chat(body) => <String>::encode(body),
            EntityMetadataFieldDataView::OptChat(body) => <Option<String>>::encode(body),
            EntityMetadataFieldDataView::Slot(body) => <Slot>::encode(body),
            EntityMetadataFieldDataView::Boolean(body) => <bool>::encode(body),
            EntityMetadataFieldDataView::Rotation(body) => <Vec3<u32>>::encode(body),
            EntityMetadataFieldDataView::Position(body) => <IntPosition>::encode(body),
            EntityMetadataFieldDataView::OptPosition(body) => <Option<IntPosition>>::encode(body),
            EntityMetadataFieldDataView::Direction(body) => <EntityDirection>::encode(body),
            EntityMetadataFieldDataView::OptUUID(body) => <Option<UUID4>>::encode(body),
            EntityMetadataFieldDataView::OptBlockId(body) => <VarInt>::encode(body),
            EntityMetadataFieldDataView::NBT(body) => <NamedNbtTag>::encode(body),
            EntityMetadataFieldDataView::Particle(body) => <ParticleSpec>::encode(body),
            EntityMetadataFieldDataView::VillagerData(body) => <EntityVillagerData>::encode(body),
            EntityMetadataFieldDataView::OptVarInt(body) => <VarInt>::encode(body),
            EntityMetadataFieldDataView::Pose(body) => <EntityPose>::encode(body),
        }
    }

    /// Whether what follows the number can be written.
    pub open spec fn body_writable(v: EntityMetadataFieldDataView) -> bool {
        match v {
            EntityMetadataFieldDataView::Byte(body) => <i8>::serializable(body),
            EntityMetadataFieldDataView::VarInt(body) => <VarInt>::serializable(body),
            EntityMetadataFieldDataView::Float(body) => <u32>::serializable(body),
            EntityMetadataFieldDataView::String(body) => <String>::serializable(body),
            EntityMetadataFieldDataView::Chat(body) => <String>::serializable(body),
            EntityMetadataFieldDataView::OptChat(body) => <Option<String>>::serializable(body),
            EntityMetadataFieldDataView::Slot(body) => <Slot>::serializable(body),
            EntityMetadataFieldDataView::Boolean(body) => <bool>::serializable(body),
            EntityMetadataFieldDataView::Rotation(body) => <Vec3<u32>>::serializable(body),
            EntityMetadataFieldDataView::Position(body) => <IntPosition>::serializable(body),
            EntityMetadataFieldDataView::OptPosition(body) => <Option<IntPosition>>::serializable(body),
            EntityMetadataFieldDataView::Direction(body) => <EntityDirection>::serializable(body),
            EntityMetadataFieldDataView::OptUUID(body) => <Option<UUID4>>::serializable(body),
            EntityMetadataFieldDataView::OptBlockId(body) => <VarInt>::serializable(body),
            EntityMetadataFieldDataView::NBT(body) => <NamedNbtTag>::serializable(body),
            EntityMetadataFieldDataView::Particle(body) => <ParticleSpec>::serializable(body),
            EntityMetadataFieldDataView::VillagerData(body) => <EntityVillagerData>::serializable(body),
            EntityMetadataFieldDataView::OptVarInt(body) => <VarInt>::serializable(body),
            EntityMetadataFieldDataView::Pose(body) => <EntityPose>::serializable(body),
        }
    }

    /// The variant that `id` stands for, with its body read from `data`.
    pub open spec fn decode_with_id(id: i32, data: Seq<u8>) -> Decoded<EntityMetadataFieldDataView> {
        if id == 0x00 {
            match <i8>::decode(data) {
                Ok((body, n)) => Ok((EntityMetadataFieldDataView::Byte(body), n)),
                Err(e) => Err(e),
            }
        } else if id == 0x01 {
            match <VarInt>::decode(data) {
                Ok((body, n)) => Ok((EntityMetadataFieldDataView::VarInt(body), n)),
                Err(e) => Err(e),
            }
        } else if id == 0x02 {
            match <u32>::decode(data) {
                Ok((body, n)) => Ok((EntityMetadataFieldDataView::Float(body), n)),
                Err(e) => Err(e),
            }
        } else if id == 0x03 {
            match <String>::decode(data) {
                Ok((body, n)) => Ok((EntityMetadataFieldDataView::String(body), n)),
                Err(e) => Err(e),
            }
        } else if id == 0x04 {
            match <String>::decode(data) {
                Ok((body, n)) => Ok((EntityMetadataFieldDataView::Chat(body), n)),
                Err(e) => Err(e),
            }
        } else if id == 0x05 {
            match <Option<String>>::decode(data) {
                Ok((body, n)) => Ok((EntityMetadataFieldDataView::OptChat(body), n)),
                Err(e) => Err(e),
            }
        } else if id == 0x06 {
            match <Slot>::decode(data) {
                Ok((body, n)) => Ok((EntityMetadataFieldDataView::Slot(body), n)),
                Err(e) => Err(e),
            }
        } else if id == 0x07 {
            match <bool>::decode(data) {
                Ok((body, n)) => Ok((EntityMetadataFieldDataView::Boolean(body), n)),
                Err(e) => Err(e),
            }
        } else if id == 0x08 {
            match <Vec3<u32>>::decode(data) {
                Ok((body, n)) => Ok((EntityMetadataFieldDataView::Rotation(body), n)),
                Err(e) => Err(e),
            }
        } else if id == 0x09 {
            match <IntPosition>::decode(data) {
                Ok((body, n)) => Ok((EntityMetadataFieldDataView::Position(body), n)),
                Err(e) => Err(e),
            }
        } else if id == 0x0A {
            match <Option<IntPosition>>::decode(data) {
                Ok((body, n)) => Ok((EntityMetadataFieldDataView::OptPosition(body), n)),
                Err(e) => Err(e),
            }
        } else if id == 0x0B {
            match <EntityDirection>::decode(data) {
                Ok((body, n)) => Ok((EntityMetadataFieldDataView::Direction(body), n)),
                Err(e) => Err(e),
            }
        } else if id == 0x0C {
            match <Option<UUID4>>::decode(data) {
                Ok((body, n)) => Ok((EntityMetadataFieldDataView::OptUUID(body), n)),
                Err(e) => Err(e),
            }
        } else if id == 0x0D {
            match <VarInt>::decode(data) {
                Ok((body, n)) => Ok((EntityMetadataFieldDataView::OptBlockId(body), n)),
                Err(e) => Err(e),
            }
        } else if id == 0x0E {
            match <NamedNbtTag>::decode(data) {
                Ok((body, n)) => Ok((EntityMetadataFieldDataView::NBT(body), n)),
                Err(e) => Err(e),
            }
        } else if id == 0x0F {
            match <ParticleSpec>::decode(data) {
                Ok((body, n)) => Ok((EntityMetadataFieldDataView::Particle(body), n)),
                Err(e) => Err(e),
            }
        } else if id == 0x10 {
            match <EntityVillagerData>::decode(data) {
                Ok((body, n)) => Ok((EntityMetadataFieldDataView::VillagerData(body), n)),
                Err(e) => Err(e),
            }
        } else if id == 0x11 {
            match <VarInt>::decode(data) {
                Ok((body, n)) => Ok((EntityMetadataFieldDataView::OptVarInt(body), n)),
                Err(e) => Err(e),
            }
        } else if id == 0x12 {
            match <EntityPose>::decode(data) {
                Ok((body, n)) => Ok((EntityMetadataFieldDataView::Pose(body), n)),
                Err(e) => Err(e),
            }
        } else {
            Err(DecodeFailure::CannotUnderstandValue)
        }
    }

    /// Whether `id` stands for a variant.
    pub open spec fn has_id(id: i32) -> bool {
        id == 0x00
            || id == 0x01
            || id == 0x02
            || id == 0x03
            || id == 0x04
            || id == 0x05
            || id == 0x06
            || id == 0x07
            || id == 0x08
            || id == 0x09
            || id == 0x0A
            || id == 0x0B
            || id == 0x0C
            || id == 0x0D
            || id == 0x0E
            || id == 0x0F
            || id == 0x10
            || id == 0x11
            || id == 0x12
    }

    /// Picks the variant for `id` and reads its body from `data`. A number
    /// that stands for no variant is refused, and the error says which.
    pub fn deserialize_with_id<'a>(id: VarInt, data: &'a [u8]) -> (r: DeserializeResult<'a, Self>)
        ensures
            agrees(r, data@, Self::decode_with_id(id.0, data@)),
            !Self::has_id(id.0) ==> (r matches Err(DeserializeErr::CannotUnderstandValue(m))
                && m@ == invalid_int_text("EntityMetadataFieldData"@, id.0 as int)),
    {
        proof {
            assert(data@.skip(0) =~= data@);
        }
        match id.0 {
            0x00 => {
                let Deserialized { value: body, data: rest } = <i8>::mc_deserialize(data)?;
                Ok(Deserialized { value: EntityMetadataFieldData::Byte(body), data: rest })
            },
            0x01 => {
                let Deserialized { value: body, data: rest } = <VarInt>::mc_deserialize(data)?;
                Ok(Deserialized { value: EntityMetadataFieldData::VarInt(body), data: rest })
            },
            0x02 => {
                let Deserialized { value: body, data: rest } = <u32>::mc_deserialize(data)?;
                Ok(Deserialized { value: EntityMetadataFieldData::Float(body), data: rest })
            },
            0x03 => {
                let Deserialized { value: body, data: rest } = <String>::mc_deserialize(data)?;
                Ok(Deserialized { value: EntityMetadataFieldData::String(body), data: rest })
            },
            0x04 => {
                let Deserialized { value: body, data: rest } = <String>::mc_deserialize(data)?;
                Ok(Deserialized { value: EntityMetadataFieldData::Chat(body), data: rest })
            },
            0x05 => {
                let Deserialized { value: body, data: rest } = <Option<String>>::mc_deserialize(data)?;
                Ok(Deserialized { value: EntityMetadataFieldData::OptChat(body), data: rest })
            },
            0x06 => {
                let Deserialized { value: body, data: rest } = <Slot>::mc_deserialize(data)?;
                Ok(Deserialized { value: EntityMetadataFieldData::Slot(body), data: rest })
            },
            0x07 => {
                let Deserialized { value: body, data: rest } = <bool>::mc_deserialize(data)?;
                Ok(Deserialized { value: EntityMetadataFieldData::Boolean(body), data: rest })
            },
            0x08 => {
                let Deserialized { value: body, data: rest } = <Vec3<u32>>::mc_deserialize(data)?;
                Ok(Deserialized { value: EntityMetadataFieldData::Rotation(body), data: rest })
            },
            0x09 => {
                let Deserialized { value: body, data: rest } = <IntPosition>::mc_deserialize(data)?;
                Ok(Deserialized { value: EntityMetadataFieldData::Position(body), data: rest })
            },
            0x0A => {
                let Deserialized { value: body, data: rest } = <Option<IntPosition>>::mc_deserialize(data)?;
                Ok(Deserialized { value: EntityMetadataFieldData::OptPosition(body), data: rest })
            },
            0x0B => {
                let Deserialized { value: body, data: rest } = <EntityDirection>::mc_deserialize(data)?;
                Ok(Deserialized { value: EntityMetadataFieldData::Direction(body), data: rest })
            },
            0x0C => {
                let Deserialized { value: body, data: rest } = <Option<UUID4>>::mc_deserialize(data)?;
                Ok(Deserialized { value: EntityMetadataFieldData::OptUUID(body), data: rest })
            },
            0x0D => {
                let Deserialized { value: body, data: rest } = <VarInt>::mc_deserialize(data)?;
                Ok(Deserialized { value: EntityMetadataFieldData::OptBlockId(body), data: rest })
            },
            0x0E => {
                let Deserialized { value: body, data: rest } = <NamedNbtTag>::mc_deserialize(data)?;
                Ok(Deserialized { value: EntityMetadataFieldData::NBT(body), data: rest })
            },
            0x0F => {
                let Deserialized { value: body, data: rest } = <ParticleSpec>::mc_deserialize(data)?;
                Ok(Deserialized { value: EntityMetadataFieldData::Particle(body), data: rest })
            },
            0x10 => {
                let Deserialized { value: body, data: rest } = <EntityVillagerData>::mc_deserialize(data)?;
                Ok(Deserialized { value: EntityMetadataFieldData::VillagerData(body), data: rest })
            },
            0x11 => {
                let Deserialized { value: body, data: rest } = <VarInt>::mc_deserialize(data)?;
                Ok(Deserialized { value: EntityMetadataFieldData::OptVarInt(body), data: rest })
            },
            0x12 => {
                let Deserialized { value: body, data: rest } = <EntityPose>::mc_deserialize(data)?;
                Ok(Deserialized { value: EntityMetadataFieldData::Pose(body), data: rest })
            },
            other => Err(DeserializeErr::CannotUnderstandValue(invalid_int_message("EntityMetadataFieldData", other))),
        }
    }

    /// Writes what follows the number.
    pub fn serialize_body<S: Serializer>(&self, to: &mut S) -> (r: SerializeResult)
        ensures
            r is Ok ==> Self::body_writable(self.deep_view()) && final(to).written() == old(
                to,
            ).written() + Self::body_of(self.deep_view()),
            old(to).infallible() ==> final(to).infallible(),
            old(to).infallible() ==> (r is Ok <==> Self::body_writable(self.deep_view())),
            old(to).infallible() && r is Err ==> (r matches Err(SerializeErr::CannotSerialize(_))),
    {
        match self {
            EntityMetadataFieldData::Byte(bod) => bod.mc_serialize(to),
            EntityMetadataFieldData::VarInt(bod) => bod.mc_serialize(to),
            EntityMetadataFieldData::Float(bod) => bod.mc_serialize(to),
            EntityMetadataFieldData::String(bod) => bod.mc_serialize(to),
            EntityMetadataFieldData::Chat(bod) => bod.mc_serialize(to),
            EntityMetadataFieldData::OptChat(bod) => bod.mc_serialize(to),
            EntityMetadataFieldData::Slot(bod) => bod.mc_serialize(to),
            EntityMetadataFieldData::Boolean(bod) => bod.mc_serialize(to),
            EntityMetadataFieldData::Rotation(bod) => bod.mc_serialize(to),
            EntityMetadataFieldData::Position(bod) => bod.mc_serialize(to),
            EntityMetadataFieldData::OptPosition(bod) => bod.mc_serialize(to),
            EntityMetadataFieldData::Direction(bod) => bod.mc_serialize(to),
            EntityMetadataFieldData::OptUUID(bod) => bod.mc_serialize(to),
            EntityMetadataFieldData::OptBlockId(bod) => bod.mc_serialize(to),
            EntityMetadataFieldData::NBT(bod) => bod.mc_serialize(to),
            EntityMetadataFieldData::Particle(bod) => bod.mc_serialize(to),
            EntityMetadataFieldData::VillagerData(bod) => bod.mc_serialize(to),
            EntityMetadataFieldData::OptVarInt(bod) => bod.mc_serialize(to),
            EntityMetadataFieldData::Pose(bod) => bod.mc_serialize(to),
        }
    }
}

impl Serialize for EntityMetadataFieldData {
    open spec fn serializable(v: EntityMetadataFieldDataView) -> bool {
        Self::body_writable(v)
    }

    #[verifier::opaque]
    open spec fn encode(v: EntityMetadataFieldDataView) -> Seq<u8> {
        <VarInt>::encode(VarInt(Self::id_of(v))) + Self::body_of(v)
    }

    fn mc_serialize<S: Serializer>(&self, to: &mut S) -> (r: SerializeResult) {
        proof {
            reveal(<EntityMetadataFieldData as Serialize>::encode);
        }
        let id_to_serialize: VarInt = self.id();
        id_to_serialize.mc_serialize(to)?;
        let r = self.serialize_body(to);
        proof {
            let head = <VarInt>::encode(VarInt(Self::id_of(self.deep_view())));
            let body = Self::body_of(self.deep_view());
            lemma_concat_assoc(old(to).written(), head, body);
        }
        r
    }
}

impl Deserialize for EntityMetadataFieldData {
    #[verifier::opaque]
    open spec fn decode(data: Seq<u8>) -> Decoded<EntityMetadataFieldDataView> {
        match <VarInt>::decode(data) {
            Err(e) => Err(e),
            Ok((id, n)) => match Self::decode_with_id(id.0, data.skip(n as int)) {
                Ok((v, m)) => Ok((v, n + m)),
                Err(e) => Err(e),
            },
        }
    }

    fn mc_deserialize(data: &[u8]) -> (r: DeserializeResult<'_, EntityMetadataFieldData>) {
        proof {
            reveal(<EntityMetadataFieldData as Deserialize>::decode);
        }
        let Deserialized { value: id, data: rest } = <VarInt>::mc_deserialize(data)?;
        let Deserialized { value, data: after } = Self::deserialize_with_id(id, rest)?;
        proof {
            lemma_skip_skip(data@, data@.len() - rest@.len(), rest@.len() - after@.len());
        }
        Ok(Deserialized { value, data: after })
    }
}

impl ProtocolType for EntityMetadataFieldData {
    open spec fn faithful(v: EntityMetadataFieldDataView) -> bool {
        match v {
            EntityMetadataFieldDataView::Byte(body) => <i8>::faithful(body),
            EntityMetadataFieldDataView::VarInt(body) => <VarInt>::faithful(body),
            EntityMetadataFieldDataView::Float(body) => <u32>::faithful(body),
            EntityMetadataFieldDataView::String(body) => <String>::faithful(body),
            EntityMetadataFieldDataView::Chat(body) => <String>::faithful(body),
            EntityMetadataFieldDataView::OptChat(body) => <Option<String>>::faithful(body),
            EntityMetadataFieldDataView::Slot(body) => <Slot>::faithful(body),
            EntityMetadataFieldDataView::Boolean(body) => <bool>::faithful(body),
            EntityMetadataFieldDataView::Rotation(body) => <Vec3<u32>>::faithful(body),
            EntityMetadataFieldDataView::Position(body) => <IntPosition>::faithful(body),
            EntityMetadataFieldDataView::OptPosition(body) => <Option<IntPosition>>::faithful(body),
            EntityMetadataFieldDataView::Direction(body) => <EntityDirection>::faithful(body),
            EntityMetadataFieldDataView::OptUUID(body) => <Option<UUID4>>::faithful(body),
            EntityMetadataFieldDataView::OptBlockId(body) => <VarInt>::faithful(body),
            EntityMetadataFieldDataView::NBT(body) => <NamedNbtTag>::faithful(body),
            EntityMetadataFieldDataView::Particle(body) => <ParticleSpec>::faithful(body),
            EntityMetadataFieldDataView::VillagerData(body) => <EntityVillagerData>::faithful(body),
            EntityMetadataFieldDataView::OptVarInt(body) => <VarInt>::faithful(body),
            EntityMetadataFieldDataView::Pose(body) => <EntityPose>::faithful(body),
        }
    }

    open spec fn delimited() -> bool {
        <EntityDirection>::delimited() && <EntityPose>::delimited() && <EntityVillagerData>::delimited() && <IntPosition>::delimited() && <NamedNbtTag>::delimited() && <Option<IntPosition>>::delimited() && <Option<String>>::delimited() && <Option<UUID4>>::delimited() && <ParticleSpec>::delimited() && <Slot>::delimited() && <String>::delimited() && <VarInt>::delimited() && <Vec3<u32>>::delimited() && <bool>::delimited() && <i8>::delimited() && <u32>::delimited()
    }

    proof fn lemma_round_trip(v: EntityMetadataFieldDataView, rest: Seq<u8>) {
        reveal(<EntityMetadataFieldData as Serialize>::encode);
        reveal(<EntityMetadataFieldData as Deserialize>::decode);
        let head = <VarInt>::encode(VarInt(Self::id_of(v)));
        let body = Self::body_of(v);
        <VarInt>::lemma_round_trip(VarInt(Self::id_of(v)), body + rest);
        Self::lemma_body_round_trip(v, rest);
        lemma_concat_assoc(head, body, rest);
        lemma_skip_concat(head, body + rest);
    }
}

impl EntityMetadataFieldData {
    /// What follows the number, written out and followed by anything, reads
    /// back under that number.
    pub proof fn lemma_body_round_trip(v: EntityMetadataFieldDataView, rest: Seq<u8>)
        requires
            <Self as ProtocolType>::faithful(v),
            <Self as ProtocolType>::delimited() || rest.len() == 0,
        ensures
            Self::body_writable(v),
            Self::decode_with_id(Self::id_of(v), Self::body_of(v) + rest) == Ok::<_, DecodeFailure>(
                (v, Self::body_of(v).len()),
            ),
    {
        match v {
            EntityMetadataFieldDataView::Byte(body) => {
                <i8>::lemma_round_trip(body, rest);
            },
            EntityMetadataFieldDataView::VarInt(body) => {
                <VarInt>::lemma_round_trip(body, rest);
            },
            EntityMetadataFieldDataView::Float(body) => {
                <u32>::lemma_round_trip(body, rest);
            },
            EntityMetadataFieldDataView::String(body) => {
                <String>::lemma_round_trip(body, rest);
            },
            EntityMetadataFieldDataView::Chat(body) => {
                <String>::lemma_round_trip(body, rest);
            },
            EntityMetadataFieldDataView::OptChat(body) => {
                <Option<String>>::lemma_round_trip(body, rest);
            },
            EntityMetadataFieldDataView::Slot(body) => {
                <Slot>::lemma_round_trip(body, rest);
            },
            EntityMetadataFieldDataView::Boolean(body) => {
                <bool>::lemma_round_trip(body, rest);
            },
            EntityMetadataFieldDataView::Rotation(body) => {
                <Vec3<u32>>::lemma_round_trip(body, rest);
            },
            EntityMetadataFieldDataView::Position(body) => {
                <IntPosition>::lemma_round_trip(body, rest);
            },
            EntityMetadataFieldDataView::OptPosition(body) => {
                <Option<IntPosition>>::lemma_round_trip(body, rest);
            },
            EntityMetadataFieldDataView::Direction(body) => {
                <EntityDirection>::lemma_round_trip(body, rest);
            },
            EntityMetadataFieldDataView::OptUUID(body) => {
                <Option<UUID4>>::lemma_round_trip(body, rest);
            },
            EntityMetadataFieldDataView::OptBlockId(body) => {
                <VarInt>::lemma_round_trip(body, rest);
            },
            EntityMetadataFieldDataView::NBT(body) => {
                <NamedNbtTag>::lemma_round_trip(body, rest);
            },
            EntityMetadataFieldDataView::Particle(body) => {
                <ParticleSpec>::lemma_round_trip(body, rest);
            },
            EntityMetadataFieldDataView::VillagerData(body) => {
                <EntityVillagerData>::lemma_round_trip(body, rest);
            },
            EntityMetadataFieldDataView::OptVarInt(body) => {
                <VarInt>::lemma_round_trip(body, rest);
            },
            EntityMetadataFieldDataView::Pose(body) => {
                <EntityPose>::lemma_round_trip(body, rest);
            },
        }
    }
}

/// One entry of an entity's metadata: a value under its index.
#[derive(Clone, Debug, PartialEq)]
pub struct EntityMetadataField {
    pub index: u8,
    pub data: EntityMetadataFieldData,
}

/// The mathematical content of an [`EntityMetadataField`].
pub struct EntityMetadataFieldView {
    pub index: u8,
    pub data: EntityMetadataFieldDataView,
}

impl DeepView for EntityMetadataField {
    type V = EntityMetadataFieldView;

    open spec fn deep_view(&self) -> EntityMetadataFieldView {
        EntityMetadataFieldView { index: self.index, data: self.data.deep_view() }
    }
}

/// The metadata of an entity: values under indices, in the order in which
/// they were set. On the wire the byte 0xFF closes the list, so no entry
/// can have that index.
#[derive(Clone, Debug, PartialEq, Default)]
pub struct EntityMetadata {
    pub fields: Vec<EntityMetadataField>,
}

impl DeepView for EntityMetadata {
    type V = Seq<EntityMetadataFieldView>;

    open spec fn deep_view(&self) -> Seq<EntityMetadataFieldView> {
        self.fields.deep_view()
    }
}

/// One entry on the wire: its index, then its value.
pub open spec fn metadata_field_bytes(field: EntityMetadataFieldView) -> Seq<u8> {
    seq![field.index] + EntityMetadataFieldData::encode(field.data)
}

/// The first `k` of `fields` on the wire.
pub open spec fn metadata_upto(fields: Seq<EntityMetadataFieldView>, k: nat) -> Seq<u8>
    decreases k,
{
    if k == 0 {
        Seq::empty()
    } else {
        metadata_upto(fields, (k - 1) as nat) + metadata_field_bytes(fields[k - 1])
    }
}

impl Serialize for EntityMetadata {
    open spec fn serializable(v: Seq<EntityMetadataFieldView>) -> bool {
        forall|i: int|
            0 <= i < v.len() ==> EntityMetadataFieldData::serializable((#[trigger] v[i]).data)
    }

    open spec fn encode(v: Seq<EntityMetadataFieldView>) -> Seq<u8> {
        metadata_upto(v, v.len()) + seq![0xFFu8]
    }

    fn mc_serialize<S: Serializer>(&self, to: &mut S) -> (r: SerializeResult) {
        proof {
            reveal(<u8 as Serialize>::encode);
        }
        let ghost all = self.fields.deep_view();
        let mut i: usize = 0;
        proof {
            assert(old(to).written() + Seq::<u8>::empty() =~= old(to).written());
        }
        while i < self.fields.len()
            invariant
                i <= self.fields@.len(),
                all == self.fields.deep_view(),
                to.written() == old(to).written() + metadata_upto(all, i as nat),
                old(to).infallible() ==> to.infallible(),
                forall|j: int|
                    0 <= j < i ==> EntityMetadataFieldData::serializable((#[trigger] all[j]).data),
            decreases self.fields@.len() - i,
        {
            let field = &self.fields[i];
            proof {
                assert(all[i as int] == field.deep_view());
            }
            to.serialize_byte(field.index)?;
            match field.data.mc_serialize(to) {
                Err(e) => {
                    proof {
                        assert(!EntityMetadataFieldData::serializable(all[i as int].data) || !old(
                            to,
                        ).infallible());
                    }
                    return Err(e);
                },
                Ok(_) => {},
            }
            proof {
                lemma_push_then_add(
                    old(to).written(),
                    metadata_upto(all, i as nat),
                    field.index,
                    EntityMetadataFieldData::encode(all[i as int].data),
                );
            }
            i += 1;
        }
        let r = to.serialize_byte(0xFF);
        proof {
            assert((old(to).written() + metadata_upto(all, all.len())).push(0xFFu8) =~= old(
                to,
            ).written() + (metadata_upto(all, all.len()) + seq![0xFFu8]));
        }
        r
    }
}

/// Metadata read off the front of `data`: entries up to the byte 0xFF, which
/// is taken and left out.
///
/// The test on the length that an entry took is there to show that the
/// recursion ends; no entry takes more than there is.
#[verifier::opaque]
pub open spec fn parse_metadata(data: Seq<u8>) -> Decoded<Seq<EntityMetadataFieldView>>
    decreases data.len(),
{
    if data.len() < 1 {
        Err(DecodeFailure::Eof)
    } else if data[0] == 0xFF {
        Ok((Seq::empty(), 1))
    } else {
        match EntityMetadataFieldData::decode(data.skip(1)) {
            Err(e) => Err(e),
            Ok((value, n)) => if 1 + n <= data.len() {
                after(
                    seq![EntityMetadataFieldView { index: data[0], data: value }],
                    1 + n,
                    parse_metadata(data.skip((1 + n) as int)),
                )
            } else {
                Err(DecodeFailure::Eof)
            },
        }
    }
}

/// One step of reading metadata: the closing byte, or an entry and the rest.
pub proof fn lemma_metadata_step(here: Seq<u8>)
    ensures
        here.len() < 1 ==> parse_metadata(here) == Err::<(Seq<EntityMetadataFieldView>, nat), _>(
            DecodeFailure::Eof,
        ),
        here.len() >= 1 && here[0] == 0xFF ==> parse_metadata(here) == Ok::<_, DecodeFailure>(
            (Seq::<EntityMetadataFieldView>::empty(), 1nat),
        ),
        here.len() >= 1 && here[0] != 0xFF ==> match EntityMetadataFieldData::decode(here.skip(1)) {
            Err(e) => parse_metadata(here) == Err::<(Seq<EntityMetadataFieldView>, nat), _>(e),
            Ok((value, n)) => 1 + n <= here.len() ==> parse_metadata(here) == after(
                seq![EntityMetadataFieldView { index: here[0], data: value }],
                1 + n,
                parse_metadata(here.skip((1 + n) as int)),
            ),
        },
{
    reveal(parse_metadata);
}

/// An entry put behind the entries seen, in front of an outcome.
proof fn lemma_after_field(
    seen: Seq<EntityMetadataFieldView>,
    taken: nat,
    first: EntityMetadataFieldView,
    n: nat,
    tail: Decoded<Seq<EntityMetadataFieldView>>,
)
    ensures
        after(seen, taken, after(seq![first], n, tail)) == after(seen.push(first), taken + n, tail),
        after(seen, taken, Ok::<_, DecodeFailure>((Seq::<EntityMetadataFieldView>::empty(), n)))
            == Ok::<_, DecodeFailure>((seen, taken + n)),
{
    assert(seen + Seq::<EntityMetadataFieldView>::empty() =~= seen);
    match tail {
        Ok((items, m)) => {
            assert(seen + (seq![first] + items) =~= seen.push(first) + items);
        },
        Err(_) => {},
    }
}

impl Deserialize for EntityMetadata {
    open spec fn decode(data: Seq<u8>) -> Decoded<Seq<EntityMetadataFieldView>> {
        parse_metadata(data)
    }

    fn mc_deserialize(data: &[u8]) -> (r: DeserializeResult<'_, EntityMetadata>) {
        proof {
            reveal(<u8 as Deserialize>::decode);
        }
        let mut fields: Vec<EntityMetadataField> = Vec::new();
        let mut remaining = data;
        let ghost whole = parse_metadata(data@);
        proof {
            assert(data@.skip(0) =~= data@);
            assert(fields.deep_view() =~= Seq::<EntityMetadataFieldView>::empty());
            match whole {
                Ok((items, m)) => {
                    assert(Seq::<EntityMetadataFieldView>::empty() + items =~= items);
                },
                Err(_) => {},
            }
            assert(whole == after(fields.deep_view(), 0, parse_metadata(data@)));
        }
        loop
            invariant_except_break
                whole == after(
                    fields.deep_view(),
                    (data@.len() - remaining@.len()) as nat,
                    parse_metadata(remaining@),
                ),
            invariant
                remaining@.len() <= data@.len(),
                remaining@ == data@.skip(data@.len() - remaining@.len()),
                whole == parse_metadata(data@),
            ensures
                whole matches Ok((entries, n)) && entries == fields.deep_view() && n <= data@.len()
                    && remaining@ == data@.skip(n as int),
            decreases remaining@.len(),
        {
            let ghost seen = fields.deep_view();
            let ghost taken = (data@.len() - remaining@.len()) as nat;
            let ghost here = remaining@;
            proof {
                lemma_metadata_step(here);
            }
            proof {
                reveal(<u8 as Deserialize>::decode);
            }
            let Deserialized { value: index, data: rest } = u8::mc_deserialize(remaining)?;
            proof {
                assert(rest@ =~= data@.skip((taken + 1) as int));
            }
            remaining = rest;
            if index == 0xFF {
                proof {
                    lemma_after_field(
                        seen,
                        taken,
                        EntityMetadataFieldView { index, data: arbitrary() },
                        1,
                        Err(DecodeFailure::Eof),
                    );
                }
                break ;
            }
            let Deserialized { value: field, data: rest } = EntityMetadataFieldData::mc_deserialize(
                remaining,
            )?;
            let ghost n = (here.len() - 1 - rest@.len()) as nat;
            let entry = EntityMetadataField { index, data: field };
            let ghost first = entry.deep_view();
            proof {
                assert(rest@ =~= here.skip((1 + n) as int));
                assert(rest@ =~= data@.skip((taken + 1 + n) as int));
            }
            remaining = rest;
            fields.push(entry);
            proof {
                assert(fields.deep_view() =~= seen.push(first));
                lemma_after_field(seen, taken, first, 1 + n, parse_metadata(rest@));
            }
        }
        Ok(Deserialized { value: EntityMetadata { fields }, data: remaining })
    }
}

/// The entries on the wire are the first entry, then the others.
pub proof fn lemma_metadata_front(fields: Seq<EntityMetadataFieldView>, k: nat)
    requires
        1 <= k <= fields.len(),
    ensures
        metadata_upto(fields, k) == metadata_field_bytes(fields[0]) + metadata_upto(
            fields.skip(1),
            (k - 1) as nat,
        ),
    decreases k,
{
    let tail = fields.skip(1);
    let head = metadata_field_bytes(fields[0]);
    if k == 1 {
        assert(metadata_upto(fields, 0) =~= Seq::<u8>::empty());
        assert(metadata_upto(tail, 0) =~= Seq::<u8>::empty());
        assert(metadata_upto(fields, 1) =~= head);
        assert(head + Seq::<u8>::empty() =~= head);
    } else {
        lemma_metadata_front(fields, (k - 1) as nat);
        assert(tail[k - 2] == fields[k - 1]);
        let mid = metadata_upto(tail, (k - 2) as nat);
        let last = metadata_field_bytes(fields[k - 1]);
        assert((head + mid) + last =~= head + (mid + last));
    }
}

/// One entry, written out and followed by anything, reads back, and what
/// follows is read as more entries.
proof fn lemma_metadata_first(first: EntityMetadataFieldView, rest: Seq<u8>)
    requires
        first.index != 0xFF,
        EntityMetadataFieldData::faithful(first.data),
    ensures
        parse_metadata(metadata_field_bytes(first) + rest) == after(
            seq![first],
            metadata_field_bytes(first).len(),
            parse_metadata(rest),
        ),
{
    let value = EntityMetadataFieldData::encode(first.data);
    let data = metadata_field_bytes(first) + rest;
    EntityMetadataFieldData::lemma_round_trip(first.data, rest);
    assert(data.skip(1) =~= value + rest);
    assert(data.skip((1 + value.len()) as int) =~= rest);
    lemma_metadata_step(data);
}

/// Metadata whose values come back can be written.
proof fn lemma_metadata_writable(v: Seq<EntityMetadataFieldView>)
    requires
        forall|i: int|
            0 <= i < v.len() ==> EntityMetadataFieldData::faithful((#[trigger] v[i]).data),
    ensures
        forall|i: int|
            0 <= i < v.len() ==> EntityMetadataFieldData::serializable((#[trigger] v[i]).data),
{
    assert forall|i: int| 0 <= i < v.len() implies EntityMetadataFieldData::serializable(
        (#[trigger] v[i]).data,
    ) by {
        EntityMetadataFieldData::lemma_round_trip(v[i].data, Seq::empty());
    }
}

impl ProtocolType for EntityMetadata {
    /// No entry can have the index 0xFF, and every value has to come back.
    open spec fn faithful(v: Seq<EntityMetadataFieldView>) -> bool {
        forall|i: int|
            0 <= i < v.len() ==> (#[trigger] v[i]).index != 0xFF
                && EntityMetadataFieldData::faithful(v[i].data)
    }

    open spec fn delimited() -> bool {
        true
    }

    proof fn lemma_round_trip(v: Seq<EntityMetadataFieldView>, rest: Seq<u8>)
        decreases v.len(),
    {
        reveal(<u8 as Serialize>::encode);
        reveal(<u8 as Deserialize>::decode);
        lemma_metadata_writable(v);
        if v.len() == 0 {
            assert(metadata_upto(v, 0) =~= Seq::<u8>::empty());
            assert(Self::encode(v) + rest =~= seq![0xFFu8] + rest);
            lemma_metadata_step(Self::encode(v) + rest);
            assert(v =~= Seq::<EntityMetadataFieldView>::empty());
        } else {
            let first = v[0];
            let tail = v.skip(1);
            let head = metadata_field_bytes(first);
            let others = Self::encode(tail);
            lemma_metadata_front(v, v.len());
            assert(Self::encode(v) + rest =~= head + (others + rest));
            lemma_metadata_first(first, others + rest);
            assert forall|i: int| 0 <= i < tail.len() implies (#[trigger] tail[i]).index != 0xFF
                && EntityMetadataFieldData::faithful(tail[i].data) by {
                assert(tail[i] == v[i + 1]);
            }
            Self::lemma_round_trip(tail, rest);
            assert(seq![first] + tail =~= v);
        }
    }
}

/// The place of the first entry under `index`, if there is one.
pub open spec fn field_position(fields: Seq<EntityMetadataField>, index: u8) -> Option<int> {
    if exists|i: int| 0 <= i < fields.len() && fields[i].index == index {
        Some(first_under(fields, index, 0))
    } else {
        None
    }
}

/// The place of the first entry under `index` at or behind `from`; the
/// length where there is none.
pub open spec fn first_under(fields: Seq<EntityMetadataField>, index: u8, from: int) -> int
    decreases fields.len() - from,
{
    if from < 0 || from >= fields.len() {
        fields.len() as int
    } else if fields[from].index == index {
        from
    } else {
        first_under(fields, index, from + 1)
    }
}

/// What the search for an index finds: the first entry under it, with no
/// entry under it in front.
pub proof fn lemma_first_under(fields: Seq<EntityMetadataField>, index: u8, from: int)
    requires
        0 <= from <= fields.len(),
    ensures
        from <= first_under(fields, index, from) <= fields.len(),
        first_under(fields, index, from) < fields.len() ==> fields[first_under(
            fields,
            index,
            from,
        )].index == index,
        forall|j: int| from <= j < first_under(fields, index, from) ==> fields[j].index != index,
    decreases fields.len() - from,
{
    if from < fields.len() && fields[from].index != index {
        lemma_first_under(fields, index, from + 1);
    }
}

impl EntityMetadata {
    /// Puts `data` under `index`: in the place of the first entry under that
    /// index, or, where there is none, at the end.
    pub fn set(&mut self, index: u8, data: EntityMetadataFieldData)
        ensures
            match field_position(old(self).fields@, index) {
                Some(i) => final(self).fields@ == old(self).fields@.update(
                    i,
                    EntityMetadataField { index, data },
                ),
                None => final(self).fields@ == old(self).fields@.push(
                    EntityMetadataField { index, data },
                ),
            },
    {
        proof {
            lemma_first_under(self.fields@, index, 0);
        }
        let mut i: usize = 0;
        while i < self.fields.len()
            invariant
                i <= self.fields@.len(),
                self.fields@ == old(self).fields@,
                forall|j: int| 0 <= j < i ==> self.fields@[j].index != index,
            decreases self.fields@.len() - i,
        {
            if self.fields[i].index == index {
                proof {
                    lemma_first_under(self.fields@, index, 0);
                    assert(old(self).fields@[i as int].index == index);
                }
                self.fields[i] = EntityMetadataField { index, data };
                return ;
            }
            i += 1;
        }
        self.fields.push(EntityMetadataField { index, data })
    }

    /// Takes the first entry under `index` away, and says whether there was
    /// one.
    pub fn remove(&mut self, index: u8) -> (r: bool)
        ensures
            match field_position(old(self).fields@, index) {
                Some(i) => r && final(self).fields@ == old(self).fields@.remove(i),
                None => !r && final(self).fields@ == old(self).fields@,
            },
    {
        proof {
            lemma_first_under(self.fields@, index, 0);
        }
        let mut i: usize = 0;
        while i < self.fields.len()
            invariant
                i <= self.fields@.len(),
                self.fields@ == old(self).fields@,
                forall|j: int| 0 <= j < i ==> self.fields@[j].index != index,
            decreases self.fields@.len() - i,
        {
            if self.fields[i].index == index {
                proof {
                    lemma_first_under(self.fields@, index, 0);
                    assert(old(self).fields@[i as int].index == index);
                }
                self.fields.remove(i);
                return true;
            }
            i += 1;
        }
        false
    }

    /// The value of the first entry under `index`, to be changed in place.
    pub fn get_mut(&mut self, index: u8) -> (r: Option<&mut EntityMetadataFieldData>)
        ensures
            match field_position(old(self).fields@, index) {
                Some(i) => r matches Some(d) && *d == old(self).fields@[i].data
                    && final(self).fields@ == old(self).fields@.update(
                    i,
                    EntityMetadataField { index, data: *final(d) },
                ),
                None => r is None && final(self).fields@ == old(self).fields@,
            },
    {
        proof {
            lemma_first_under(self.fields@, index, 0);
        }
        let mut i: usize = 0;
        while i < self.fields.len()
            invariant
                i <= self.fields@.len(),
                self.fields@ == old(self).fields@,
                forall|j: int| 0 <= j < i ==> self.fields@[j].index != index,
            decreases self.fields@.len() - i,
        {
            if self.fields[i].index == index {
                proof {
                    lemma_first_under(self.fields@, index, 0);
                    assert(old(self).fields@[i as int].index == index);
                }
                return Some(&mut self.fields[i].data);
            }
            i += 1;
        }
        None
    }

    /// The value of the first entry under `index`.
    pub fn get(&self, index: u8) -> (r: Option<&EntityMetadataFieldData>)
        ensures
            match field_position(self.fields@, index) {
                Some(i) => r == Some(&self.fields@[i].data),
                None => r is None,
            },
    {
        proof {
            lemma_first_under(self.fields@, index, 0);
        }
        let mut i: usize = 0;
        while i < self.fields.len()
            invariant
                i <= self.fields@.len(),
                forall|j: int| 0 <= j < i ==> self.fields@[j].index != index,
            decreases self.fields@.len() - i,
        {
            if self.fields[i].index == index {
                proof {
                    lemma_first_under(self.fields@, index, 0);
                    assert(self.fields@[i as int].index == index);
                }
                return Some(&self.fields[i].data);
            }
            i += 1;
        }
        None
    }
}

/// A member of a team: a player by name, or any other entity by its
/// identifier. On the wire both are a text; a text that has the form of an
/// identifier is read as one.
#[derive(Clone, Debug, PartialEq)]
pub enum TeamMember {
    Player(String),
    Entity(UUID4),
}

/// The mathematical content of a [`TeamMember`].
pub enum TeamMemberView {
    Player(Seq<char>),
    Entity(u128),
}

impl DeepView for TeamMember {
    type V = TeamMemberView;

    open spec fn deep_view(&self) -> TeamMemberView {
        match self {
            TeamMember::Player(name) => TeamMemberView::Player(name@),
            TeamMember::Entity(id) => TeamMemberView::Entity(id@),
        }
    }
}

/// The text that names a member on the wire.
pub open spec fn team_member_text(v: TeamMemberView) -> Seq<char> {
    match v {
        TeamMemberView::Player(name) => name,
        TeamMemberView::Entity(id) => uuid_text(id),
    }
}

/// The member that a text names.
pub open spec fn team_member_of(text: Seq<char>) -> TeamMemberView {
    match uuid_of_text(encode_utf8(text)) {
        Some(id) => TeamMemberView::Entity(id),
        None => TeamMemberView::Player(text),
    }
}

impl Serialize for TeamMember {
    open spec fn serializable(v: TeamMemberView) -> bool {
        true
    }

    open spec fn encode(v: TeamMemberView) -> Seq<u8> {
        String::encode(team_member_text(v))
    }

    fn mc_serialize<S: Serializer>(&self, to: &mut S) -> (r: SerializeResult) {
        match self {
            TeamMember::Player(username) => username.mc_serialize(to),
            TeamMember::Entity(entity_id) => entity_id.hex().mc_serialize(to),
        }
    }
}

impl Deserialize for TeamMember {
    open spec fn decode(data: Seq<u8>) -> Decoded<TeamMemberView> {
        match String::decode(data) {
            Ok((text, n)) => Ok((team_member_of(text), n)),
            Err(e) => Err(e),
        }
    }

    fn mc_deserialize(data: &[u8]) -> (r: DeserializeResult<'_, TeamMember>) {
        let Deserialized { value: raw, data: rest } = String::mc_deserialize(data)?;
        let member = match UUID4::parse(raw.as_str()) {
            Some(entity_id) => TeamMember::Entity(entity_id),
            None => TeamMember::Player(raw),
        };
        Ok(Deserialized { value: member, data: rest })
    }
}

impl ProtocolType for TeamMember {
    /// The name of a player has to fit its length prefix, and cannot have
    /// the form of an identifier: it would be read as one.
    open spec fn faithful(v: TeamMemberView) -> bool {
        match v {
            TeamMemberView::Player(name) => String::faithful(name) && uuid_of_text(
                encode_utf8(name),
            ) is None,
            TeamMemberView::Entity(_) => true,
        }
    }

    open spec fn delimited() -> bool {
        true
    }

    proof fn lemma_round_trip(v: TeamMemberView, rest: Seq<u8>) {
        match v {
            TeamMemberView::Player(name) => {
                String::lemma_round_trip(name, rest);
            },
            TeamMemberView::Entity(id) => {
                crate::uuid::lemma_uuid_text_round_trip(id);
                vstd::utf8::is_ascii_chars_encode_utf8(uuid_text(id));
                String::lemma_round_trip(uuid_text(id), rest);
            },
        }
    }
}

/// Whether the flag `mask`, a single bit, is set in `bits`.
pub open spec fn flag_is_set(bits: u8, mask: u8) -> bool {
    (bits / mask) % 2 == 1
}

/// `bits` with the flag `mask` set.
pub open spec fn with_flag(bits: u8, mask: u8) -> u8 {
    if flag_is_set(bits, mask) {
        bits
    } else {
        (bits + mask) as u8
    }
}

/// `bits` with the flag `mask` cleared.
pub open spec fn without_flag(bits: u8, mask: u8) -> u8 {
    if flag_is_set(bits, mask) {
        (bits - mask) as u8
    } else {
        bits
    }
}

proof fn lemma_flag(bits: u8, mask: u8)
    by (bit_vector)
    requires
        mask == 0x01 || mask == 0x02 || mask == 0x04 || mask == 0x08 || mask == 0x10 || mask == 0x20
            || mask == 0x40 || mask == 0x80,
    ensures
        bits & mask != 0 <==> (bits / mask) % 2 == 1,
        bits & mask != 0 ==> bits | mask == bits && bits ^ mask == bits - mask,
        bits & mask == 0 ==> bits | mask == bits + mask && bits ^ mask == bits + mask,
{
}

/// The colour of a boss bar.
#[derive(PartialEq, Eq, Structural, Clone, Copy, Debug)]
pub enum BossBarColor {
    Pink,
    Blue,
    Red,
    Green,
    Yellow,
    Purple,
    White,
}

impl View for BossBarColor {
    type V = BossBarColor;

    open spec fn view(&self) -> BossBarColor {
        *self
    }
}

impl DeepView for BossBarColor {
    type V = BossBarColor;

    open spec fn deep_view(&self) -> BossBarColor {
        *self
    }
}

impl BossBarColor {
    pub fn variant_count() -> (r: usize)
        ensures
            r == 7,
    {
        7
    }

    /// The number that stands for the variant on the wire.
    pub open spec fn id_of(v: BossBarColor) -> i32 {
        match v {
            BossBarColor::Pink => 0x00,
            BossBarColor::Blue => 0x01,
            BossBarColor::Red => 0x02,
            BossBarColor::Green => 0x03,
            BossBarColor::Yellow => 0x04,
            BossBarColor::Purple => 0x05,
            BossBarColor::White => 0x06,
        }
    }

    pub fn id(&self) -> (r: VarInt)
        ensures
            r == VarInt(Self::id_of(self.deep_view())),
    {
        match self {
            BossBarColor::Pink => VarInt(0x00),
            BossBarColor::Blue => VarInt(0x01),
            BossBarColor::Red => VarInt(0x02),
            BossBarColor::Green => VarInt(0x03),
            BossBarColor::Yellow => VarInt(0x04),
            BossBarColor::Purple => VarInt(0x05),
            BossBarColor::White => VarInt(0x06),
        }
    }

    pub open spec fn name_of(v: BossBarColor) -> Seq<char> {
        match v {
            BossBarColor::Pink => "Pink"@,
            BossBarColor::Blue => "Blue"@,
            BossBarColor::Red => "Red"@,
            BossBarColor::Green => "Green"@,
            BossBarColor::Yellow => "Yellow"@,
            BossBarColor::Purple => "Purple"@,
            BossBarColor::White => "White"@,
        }
    }

    pub fn name(&self) -> (r: &'static str)
        ensures
            r@ == Self::name_of(self.deep_view()),
    {
        match self {
            BossBarColor::Pink => "Pink",
            BossBarColor::Blue => "Blue",
            BossBarColor::Red => "Red",
            BossBarColor::Green => "Green",
            BossBarColor::Yellow => "Yellow",
            BossBarColor::Purple => "Purple",
            BossBarColor::White => "White",
        }
    }

    /// The bytes that follow the number.
    pub open spec fn body_of(v: BossBarColor) -> Seq<u8> {
        match v {
            BossBarColor::Pink => Seq::empty(),
            BossBarColor::Blue => Seq::empty(),
            BossBarColor::Red => Seq::empty(),
            BossBarColor::Green => Seq::empty(),
            BossBarColor::Yellow => Seq::empty(),
            BossBarColor::Purple => Seq::empty(),
            BossBarColor::White => Seq::empty(),
        }
    }

    /// Whether what follows the number can be written.
    pub open spec fn body_writable(v: BossBarColor) -> bool {
        match v {
            BossBarColor::Pink => true,
            BossBarColor::Blue => true,
            BossBarColor::Red => true,
            BossBarColor::Green => true,
            BossBarColor::Yellow => true,
            BossBarColor::Purple => true,
            BossBarColor::White => true,
        }
    }

    /// The variant that `id` stands for, with its body read from `data`.
    pub open spec fn decode_with_id(id: i32, data: Seq<u8>) -> Decoded<BossBarColor> {
        if id == 0x00 {
            Ok((BossBarColor::Pink, 0))
        } else if id == 0x01 {
            Ok((BossBarColor::Blue, 0))
        } else if id == 0x02 {
            Ok((BossBarColor::Red, 0))
        } else if id == 0x03 {
            Ok((BossBarColor::Green, 0))
        } else if id == 0x04 {
            Ok((BossBarColor::Yellow, 0))
        } else if id == 0x05 {
            Ok((BossBarColor::Purple, 0))
        } else if id == 0x06 {
            Ok((BossBarColor::White, 0))
        } else {
            Err(DecodeFailure::CannotUnderstandValue)
        }
    }

    /// Whether `id` stands for a variant.
    pub open spec fn has_id(id: i32) -> bool {
        id == 0x00
            || id == 0x01
            || id == 0x02
            || id == 0x03
            || id == 0x04
            || id == 0x05
            || id == 0x06
    }

    /// Picks the variant for `id` and reads its body from `data`. A number
    /// that stands for no variant is refused, and the error says which.
    pub fn deserialize_with_id<'a>(id: VarInt, data: &'a [u8]) -> (r: DeserializeResult<'a, Self>)
        ensures
            agrees(r, data@, Self::decode_with_id(id.0, data@)),
            !Self::has_id(id.0) ==> (r matches Err(DeserializeErr::CannotUnderstandValue(m))
                && m@ == invalid_int_text("BossBarColor"@, id.0 as int)),
    {
        proof {
            assert(data@.skip(0) =~= data@);
        }
        match id.0 {
            0x00 => Ok(Deserialized { value: BossBarColor::Pink, data }),
            0x01 => Ok(Deserialized { value: BossBarColor::Blue, data }),
            0x02 => Ok(Deserialized { value: BossBarColor::Red, data }),
            0x03 => Ok(Deserialized { value: BossBarColor::Green, data }),
            0x04 => Ok(Deserialized { value: BossBarColor::Yellow, data }),
            0x05 => Ok(Deserialized { value: BossBarColor::Purple, data }),
            0x06 => Ok(Deserialized { value: BossBarColor::White, data }),
            other => Err(DeserializeErr::CannotUnderstandValue(invalid_int_message("BossBarColor", other))),
        }
    }

    /// Writes what follows the number.
    pub fn serialize_body<S: Serializer>(&self, to: &mut S) -> (r: SerializeResult)
        ensures
            r is Ok ==> Self::body_writable(self.deep_view()) && final(to).written() == old(
                to,
            ).written() + Self::body_of(self.deep_view()),
            old(to).infallible() ==> final(to).infallible(),
            old(to).infallible() ==> (r is Ok <==> Self::body_writable(self.deep_view())),
            old(to).infallible() && r is Err ==> (r matches Err(SerializeErr::CannotSerialize(_))),
    {
        match self {
            BossBarColor::Pink => {
                proof {
                    assert(old(to).written() + Seq::<u8>::empty() =~= old(to).written());
                }
                Ok(())
            },
            BossBarColor::Blue => {
                proof {
                    assert(old(to).written() + Seq::<u8>::empty() =~= old(to).written());
                }
                Ok(())
            },
            BossBarColor::Red => {
                proof {
                    assert(old(to).written() + Seq::<u8>::empty() =~= old(to).written());
                }
                Ok(())
            },
            BossBarColor::Green => {
                proof {
                    assert(old(to).written() + Seq::<u8>::empty() =~= old(to).written());
                }
                Ok(())
            },
            BossBarColor::Yellow => {
                proof {
                    assert(old(to).written() + Seq::<u8>::empty() =~= old(to).written());
                }
                Ok(())
            },
            BossBarColor::Purple => {
                proof {
                    assert(old(to).written() + Seq::<u8>::empty() =~= old(to).written());
                }
                Ok(())
            },
            BossBarColor::White => {
                proof {
                    assert(old(to).written() + Seq::<u8>::empty() =~= old(to).written());
                }
                Ok(())
            },
        }
    }
}

impl Serialize for BossBarColor {
    open spec fn serializable(v: BossBarColor) -> bool {
        Self::body_writable(v)
    }

    #[verifier::opaque]
    open spec fn encode(v: BossBarColor) -> Seq<u8> {
        <VarInt>::encode(VarInt(Self::id_of(v))) + Self::body_of(v)
    }

    fn mc_serialize<S: Serializer>(&self, to: &mut S) -> (r: SerializeResult) {
        proof {
            reveal(<BossBarColor as Serialize>::encode);
        }
        let id_to_serialize: VarInt = self.id();
        id_to_serialize.mc_serialize(to)?;
        let r = self.serialize_body(to);
        proof {
            let head = <VarInt>::encode(VarInt(Self::id_of(self.deep_view())));
            let body = Self::body_of(self.deep_view());
            lemma_concat_assoc(old(to).written(), head, body);
        }
        r
    }
}

impl Deserialize for BossBarColor {
    #[verifier::opaque]
    open spec fn decode(data: Seq<u8>) -> Decoded<BossBarColor> {
        match <VarInt>::decode(data) {
            Err(e) => Err(e),
            Ok((id, n)) => match Self::decode_with_id(id.0, data.skip(n as int)) {
                Ok((v, m)) => Ok((v, n + m)),
                Err(e) => Err(e),
            },
        }
    }

    fn mc_deserialize(data: &[u8]) -> (r: DeserializeResult<'_, BossBarColor>) {
        proof {
            reveal(<BossBarColor as Deserialize>::decode);
        }
        let Deserialized { value: id, data: rest } = <VarInt>::mc_deserialize(data)?;
        let Deserialized { value, data: after } = Self::deserialize_with_id(id, rest)?;
        proof {
            lemma_skip_skip(data@, data@.len() - rest@.len(), rest@.len() - after@.len());
        }
        Ok(Deserialized { value, data: after })
    }
}

impl ProtocolType for BossBarColor {
    open spec fn faithful(v: BossBarColor) -> bool {
        match v {
            BossBarColor::Pink => true,
            BossBarColor::Blue => true,
            BossBarColor::Red => true,
            BossBarColor::Green => true,
            BossBarColor::Yellow => true,
            BossBarColor::Purple => true,
            BossBarColor::White => true,
        }
    }

    open spec fn delimited() -> bool {
        true
    }

    proof fn lemma_round_trip(v: BossBarColor, rest: Seq<u8>) {
        reveal(<BossBarColor as Serialize>::encode);
        reveal(<BossBarColor as Deserialize>::decode);
        let head = <VarInt>::encode(VarInt(Self::id_of(v)));
        let body = Self::body_of(v);
        <VarInt>::lemma_round_trip(VarInt(Self::id_of(v)), body + rest);
        Self::lemma_body_round_trip(v, rest);
        lemma_concat_assoc(head, body, rest);
        lemma_skip_concat(head, body + rest);
    }
}

impl BossBarColor {
    /// What follows the number, written out and followed by anything, reads
    /// back under that number.
    pub proof fn lemma_body_round_trip(v: BossBarColor, rest: Seq<u8>)
        requires
            <Self as ProtocolType>::faithful(v),
            <Self as ProtocolType>::delimited() || rest.len() == 0,
        ensures
            Self::body_writable(v),
            Self::decode_with_id(Self::id_of(v), Self::body_of(v) + rest) == Ok::<_, DecodeFailure>(
                (v, Self::body_of(v).len()),
            ),
    {
        match v {
            BossBarColor::Pink => {
                assert(Seq::<u8>::empty() + rest =~= rest);
            },
            BossBarColor::Blue => {
                assert(Seq::<u8>::empty() + rest =~= rest);
            },
            BossBarColor::Red => {
                assert(Seq::<u8>::empty() + rest =~= rest);
            },
            BossBarColor::Green => {
                assert(Seq::<u8>::empty() + rest =~= rest);
            },
            BossBarColor::Yellow => {
                assert(Seq::<u8>::empty() + rest =~= rest);
            },
            BossBarColor::Purple => {
                assert(Seq::<u8>::empty() + rest =~= rest);
            },
            BossBarColor::White => {
                assert(Seq::<u8>::empty() + rest =~= rest);
            },
        }
    }
}

/// How a boss bar is divided.
#[derive(PartialEq, Eq, Structural, Clone, Copy, Debug)]
pub enum BossBarDivision {
    NoDivision,
    SixNotches,
    TenNotches,
    TwelveNotches,
    TwentyNotches,
}

impl View for BossBarDivision {
    type V = BossBarDivision;

    open spec fn view(&self) -> BossBarDivision {
        *self
    }
}

impl DeepView for BossBarDivision {
    type V = BossBarDivision;

    open spec fn deep_view(&self) -> BossBarDivision {
        *self
    }
}

impl BossBarDivision {
    pub fn variant_count() -> (r: usize)
        ensures
            r == 5,
    {
        5
    }

    /// The number that stands for the variant on the wire.
    pub open spec fn id_of(v: BossBarDivision) -> i32 {
        match v {
            BossBarDivision::NoDivision => 0x00,
            BossBarDivision::SixNotches => 0x01,
            BossBarDivision::TenNotches => 0x02,
            BossBarDivision::TwelveNotches => 0x03,
            BossBarDivision::TwentyNotches => 0x04,
        }
    }

    pub fn id(&self) -> (r: VarInt)
        ensures
            r == VarInt(Self::id_of(self.deep_view())),
    {
        match self {
            BossBarDivision::NoDivision => VarInt(0x00),
            BossBarDivision::SixNotches => VarInt(0x01),
            BossBarDivision::TenNotches => VarInt(0x02),
            BossBarDivision::TwelveNotches => VarInt(0x03),
            BossBarDivision::TwentyNotches => VarInt(0x04),
        }
    }

    pub open spec fn name_of(v: BossBarDivision) -> Seq<char> {
        match v {
            BossBarDivision::NoDivision => "NoDivision"@,
            BossBarDivision::SixNotches => "SixNotches"@,
            BossBarDivision::TenNotches => "TenNotches"@,
            BossBarDivision::TwelveNotches => "TwelveNotches"@,
            BossBarDivision::TwentyNotches => "TwentyNotches"@,
        }
    }

    pub fn name(&self) -> (r: &'static str)
        ensures
            r@ == Self::name_of(self.deep_view()),
    {
        match self {
            BossBarDivision::NoDivision => "NoDivision",
            BossBarDivision::SixNotches => "SixNotches",
            BossBarDivision::TenNotches => "TenNotches",
            BossBarDivision::TwelveNotches => "TwelveNotches",
            BossBarDivision::TwentyNotches => "TwentyNotches",
        }
    }

    /// The bytes that follow the number.
    pub open spec fn body_of(v: BossBarDivision) -> Seq<u8> {
        match v {
            BossBarDivision::NoDivision => Seq::empty(),
            BossBarDivision::SixNotches => Seq::empty(),
            BossBarDivision::TenNotches => Seq::empty(),
            BossBarDivision::TwelveNotches => Seq::empty(),
            BossBarDivision::TwentyNotches => Seq::empty(),
        }
    }

    /// Whether what follows the number can be written.
    pub open spec fn body_writable(v: BossBarDivision) -> bool {
        match v {
            BossBarDivision::NoDivision => true,
            BossBarDivision::SixNotches => true,
            BossBarDivision::TenNotches => true,
            BossBarDivision::TwelveNotches => true,
            BossBarDivision::TwentyNotches => true,
        }
    }

    /// The variant that `id` stands for, with its body read from `data`.
    pub open spec fn decode_with_id(id: i32, data: Seq<u8>) -> Decoded<BossBarDivision> {
        if id == 0x00 {
            Ok((BossBarDivision::NoDivision, 0))
        } else if id == 0x01 {
            Ok((BossBarDivision::SixNotches, 0))
        } else if id == 0x02 {
            Ok((BossBarDivision::TenNotches, 0))
        } else if id == 0x03 {
            Ok((BossBarDivision::TwelveNotches, 0))
        } else if id == 0x04 {
            Ok((BossBarDivision::TwentyNotches, 0))
        } else {
            Err(DecodeFailure::CannotUnderstandValue)
        }
    }

    /// Whether `id` stands for a variant.
    pub open spec fn has_id(id: i32) -> bool {
        id == 0x00
            || id == 0x01
            || id == 0x02
            || id == 0x03
            || id == 0x04
    }

    /// Picks the variant for `id` and reads its body from `data`. A number
    /// that stands for no variant is refused, and the error says which.
    pub fn deserialize_with_id<'a>(id: VarInt, data: &'a [u8]) -> (r: DeserializeResult<'a, Self>)
        ensures
            agrees(r, data@, Self::decode_with_id(id.0, data@)),
            !Self::has_id(id.0) ==> (r matches Err(DeserializeErr::CannotUnderstandValue(m))
                && m@ == invalid_int_text("BossBarDivision"@, id.0 as int)),
    {
        proof {
            assert(data@.skip(0) =~= data@);
        }
        match id.0 {
            0x00 => Ok(Deserialized { value: BossBarDivision::NoDivision, data }),
            0x01 => Ok(Deserialized { value: BossBarDivision::SixNotches, data }),
            0x02 => Ok(Deserialized { value: BossBarDivision::TenNotches, data }),
            0x03 => Ok(Deserialized { value: BossBarDivision::TwelveNotches, data }),
            0x04 => Ok(Deserialized { value: BossBarDivision::TwentyNotches, data }),
            other => Err(DeserializeErr::CannotUnderstandValue(invalid_int_message("BossBarDivision", other))),
        }
    }

    /// Writes what follows the number.
    pub fn serialize_body<S: Serializer>(&self, to: &mut S) -> (r: SerializeResult)
        ensures
            r is Ok ==> Self::body_writable(self.deep_view()) && final(to).written() == old(
                to,
            ).written() + Self::body_of(self.deep_view()),
            old(to).infallible() ==> final(to).infallible(),
            old(to).infallible() ==> (r is Ok <==> Self::body_writable(self.deep_view())),
            old(to).infallible() && r is Err ==> (r matches Err(SerializeErr::CannotSerialize(_))),
    {
        match self {
            BossBarDivision::NoDivision => {
                proof {
                    assert(old(to).written() + Seq::<u8>::empty() =~= old(to).written());
                }
                Ok(())
            },
            BossBarDivision::SixNotches => {
                proof {
                    assert(old(to).written() + Seq::<u8>::empty() =~= old(to).written());
                }
                Ok(())
            },
            BossBarDivision::TenNotches => {
                proof {
                    assert(old(to).written() + Seq::<u8>::empty() =~= old(to).written());
                }
                Ok(())
            },
            BossBarDivision::TwelveNotches => {
                proof {
                    assert(old(to).written() + Seq::<u8>::empty() =~= old(to).written());
                }
                Ok(())
            },
            BossBarDivision::TwentyNotches => {
                proof {
                    assert(old(to).written() + Seq::<u8>::empty() =~= old(to).written());
                }
                Ok(())
            },
        }
    }
}

impl Serialize for BossBarDivision {
    open spec fn serializable(v: BossBarDivision) -> bool {
        Self::body_writable(v)
    }

    #[verifier::opaque]
    open spec fn encode(v: BossBarDivision) -> Seq<u8> {
        <VarInt>::encode(VarInt(Self::id_of(v))) + Self::body_of(v)
    }

    fn mc_serialize<S: Serializer>(&self, to: &mut S) -> (r: SerializeResult) {
        proof {
            reveal(<BossBarDivision as Serialize>::encode);
        }
        let id_to_serialize: VarInt = self.id();
        id_to_serialize.mc_serialize(to)?;
        let r = self.serialize_body(to);
        proof {
            let head = <VarInt>::encode(VarInt(Self::id_of(self.deep_view())));
            let body = Self::body_of(self.deep_view());
            lemma_concat_assoc(old(to).written(), head, body);
        }
        r
    }
}

impl Deserialize for BossBarDivision {
    #[verifier::opaque]
    open spec fn decode(data: Seq<u8>) -> Decoded<BossBarDivision> {
        match <VarInt>::decode(data) {
            Err(e) => Err(e),
            Ok((id, n)) => match Self::decode_with_id(id.0, data.skip(n as int)) {
                Ok((v, m)) => Ok((v, n + m)),
                Err(e) => Err(e),
            },
        }
    }

    fn mc_deserialize(data: &[u8]) -> (r: DeserializeResult<'_, BossBarDivision>) {
        proof {
            reveal(<BossBarDivision as Deserialize>::decode);
        }
        let Deserialized { value: id, data: rest } = <VarInt>::mc_deserialize(data)?;
        let Deserialized { value, data: after } = Self::deserialize_with_id(id, rest)?;
        proof {
            lemma_skip_skip(data@, data@.len() - rest@.len(), rest@.len() - after@.len());
        }
        Ok(Deserialized { value, data: after })
    }
}

impl ProtocolType for BossBarDivision {
    open spec fn faithful(v: BossBarDivision) -> bool {
        match v {
            BossBarDivision::NoDivision => true,
            BossBarDivision::SixNotches => true,
            BossBarDivision::TenNotches => true,
            BossBarDivision::TwelveNotches => true,
            BossBarDivision::TwentyNotches => true,
        }
    }

    open spec fn delimited() -> bool {
        true
    }

    proof fn lemma_round_trip(v: BossBarDivision, rest: Seq<u8>) {
        reveal(<BossBarDivision as Serialize>::encode);
        reveal(<BossBarDivision as Deserialize>::decode);
        let head = <VarInt>::encode(VarInt(Self::id_of(v)));
        let body = Self::body_of(v);
        <VarInt>::lemma_round_trip(VarInt(Self::id_of(v)), body + rest);
        Self::lemma_body_round_trip(v, rest);
        lemma_concat_assoc(head, body, rest);
        lemma_skip_concat(head, body + rest);
    }
}

impl BossBarDivision {
    /// What follows the number, written out and followed by anything, reads
    /// back under that number.
    pub proof fn lemma_body_round_trip(v: BossBarDivision, rest: Seq<u8>)
        requires
            <Self as ProtocolType>::faithful(v),
            <Self as ProtocolType>::delimited() || rest.len() == 0,
        ensures
            Self::body_writable(v),
            Self::decode_with_id(Self::id_of(v), Self::body_of(v) + rest) == Ok::<_, DecodeFailure>(
                (v, Self::body_of(v).len()),
            ),
    {
        match v {
            BossBarDivision::NoDivision => {
                assert(Seq::<u8>::empty() + rest =~= rest);
            },
            BossBarDivision::SixNotches => {
                assert(Seq::<u8>::empty() + rest =~= rest);
            },
            BossBarDivision::TenNotches => {
                assert(Seq::<u8>::empty() + rest =~= rest);
            },
            BossBarDivision::TwelveNotches => {
                assert(Seq::<u8>::empty() + rest =~= rest);
            },
            BossBarDivision::TwentyNotches => {
                assert(Seq::<u8>::empty() + rest =~= rest);
            },
        }
    }
}

/// What else a boss bar does to the screen, one bit for each.
#[derive(Clone, Copy, PartialEq, Eq, Debug, Default)]
pub struct BossBarFlags(pub u8);

impl View for BossBarFlags {
    type V = BossBarFlags;

    open spec fn view(&self) -> BossBarFlags {
        *self
    }
}

impl DeepView for BossBarFlags {
    type V = BossBarFlags;

    open spec fn deep_view(&self) -> BossBarFlags {
        *self
    }
}

impl BossBarFlags {
    /// Whether the sky darkens.
    pub fn is_darken_sky(&self) -> (r: bool)
        ensures
            r == flag_is_set(self.0, 0x01),
    {
        proof {
            lemma_flag(self.0, 0x01);
        }
        self.0 & 0x01 != 0
    }

    /// Sets the flag where `value` is true. Where it is false the flag is
    /// turned over: a flag that is set is cleared, and one that is clear is
    /// set.
    pub fn set_darken_sky(&mut self, value: bool)
        ensures
            final(self).0 == if value {
                with_flag(old(self).0, 0x01)
            } else if flag_is_set(old(self).0, 0x01) {
                without_flag(old(self).0, 0x01)
            } else {
                with_flag(old(self).0, 0x01)
            },
    {
        proof {
            lemma_flag(self.0, 0x01);
        }
        if value {
            self.0 |= 0x01;
        } else {
            self.0 ^= 0x01;
        }
    }

    /// Whether this is the bar of the dragon.
    pub fn is_dragon_bar(&self) -> (r: bool)
        ensures
            r == flag_is_set(self.0, 0x02),
    {
        proof {
            lemma_flag(self.0, 0x02);
        }
        self.0 & 0x02 != 0
    }

    /// Sets the flag where `value` is true. Where it is false the flag is
    /// turned over: a flag that is set is cleared, and one that is clear is
    /// set.
    pub fn set_dragon_bar(&mut self, value: bool)
        ensures
            final(self).0 == if value {
                with_flag(old(self).0, 0x02)
            } else if flag_is_set(old(self).0, 0x02) {
                without_flag(old(self).0, 0x02)
            } else {
                with_flag(old(self).0, 0x02)
            },
    {
        proof {
            lemma_flag(self.0, 0x02);
        }
        if value {
            self.0 |= 0x02;
        } else {
            self.0 ^= 0x02;
        }
    }

    /// Whether fog comes up.
    pub fn is_create_fog(&self) -> (r: bool)
        ensures
            r == flag_is_set(self.0, 0x04),
    {
        proof {
            lemma_flag(self.0, 0x04);
        }
        self.0 & 0x04 != 0
    }

    /// Sets the flag where `value` is true. Where it is false the flag is
    /// turned over: a flag that is set is cleared, and one that is clear is
    /// set.
    pub fn set_create_fog(&mut self, value: bool)
        ensures
            final(self).0 == if value {
                with_flag(old(self).0, 0x04)
            } else if flag_is_set(old(self).0, 0x04) {
                without_flag(old(self).0, 0x04)
            } else {
                with_flag(old(self).0, 0x04)
            },
    {
        proof {
            lemma_flag(self.0, 0x04);
        }
        if value {
            self.0 |= 0x04;
        } else {
            self.0 ^= 0x04;
        }
    }

}

impl Serialize for BossBarFlags {
    open spec fn serializable(v: BossBarFlags) -> bool {
        true
    }

    #[verifier::opaque]
    open spec fn encode(v: BossBarFlags) -> Seq<u8> {
        seq![v.0]
    }

    fn mc_serialize<S: Serializer>(&self, to: &mut S) -> (r: SerializeResult) {
        proof {
            reveal(<BossBarFlags as Serialize>::encode);
        }
        let r = to.serialize_byte(self.0);
        proof {
            assert(old(to).written().push(self.0) =~= old(to).written() + seq![self.0]);
        }
        r
    }
}

impl Deserialize for BossBarFlags {
    #[verifier::opaque]
    open spec fn decode(data: Seq<u8>) -> Decoded<BossBarFlags> {
        if data.len() < 1 {
            Err(DecodeFailure::Eof)
        } else {
            Ok((BossBarFlags(data[0]), 1))
        }
    }

    fn mc_deserialize(data: &[u8]) -> (r: DeserializeResult<'_, BossBarFlags>) {
        proof {
            reveal(<BossBarFlags as Deserialize>::decode);
        }
        proof {
            reveal(<u8 as Deserialize>::decode);
        }
        let Deserialized { value: b, data: rest } = u8::mc_deserialize(data)?;
        Ok(Deserialized { value: BossBarFlags(b), data: rest })
    }
}

impl ProtocolType for BossBarFlags {
    open spec fn faithful(v: BossBarFlags) -> bool {
        true
    }

    open spec fn delimited() -> bool {
        true
    }

    proof fn lemma_round_trip(v: BossBarFlags, rest: Seq<u8>) {
        reveal(<BossBarFlags as Serialize>::encode);
        reveal(<BossBarFlags as Deserialize>::decode);
    }
}

/// A new boss bar.
#[derive(Debug, Clone, PartialEq)]
pub struct BossBarAddSpec {
    /// The title, as the JSON text of a chat component.
    pub title: String,
    /// How full the bar is, as the bit pattern of a 32-bit float.
    pub health: u32,
    pub color: BossBarColor,
    pub division: BossBarDivision,
    pub flags: BossBarFlags,
}

/// The mathematical content of a [`BossBarAddSpec`].
pub struct BossBarAddSpecView {
    pub title: Seq<char>,
    pub health: u32,
    pub color: <BossBarColor as DeepView>::V,
    pub division: <BossBarDivision as DeepView>::V,
    pub flags: <BossBarFlags as DeepView>::V,
}

impl DeepView for BossBarAddSpec {
    type V = BossBarAddSpecView;

    open spec fn deep_view(&self) -> BossBarAddSpecView {
        BossBarAddSpecView {
            title: self.title.deep_view(),
            health: self.health.deep_view(),
            color: self.color.deep_view(),
            division: self.division.deep_view(),
            flags: self.flags.deep_view(),
        }
    }
}

impl Serialize for BossBarAddSpec {
    open spec fn serializable(v: BossBarAddSpecView) -> bool {
        String::serializable(v.title) && u32::serializable(v.health) && BossBarColor::serializable(v.color) && BossBarDivision::serializable(v.division) && BossBarFlags::serializable(v.flags)
    }

    #[verifier::opaque]
    open spec fn encode(v: BossBarAddSpecView) -> Seq<u8> {
        String::encode(v.title) + u32::encode(v.health) + BossBarColor::encode(v.color) + BossBarDivision::encode(v.division) + BossBarFlags::encode(v.flags)
    }

    fn mc_serialize<S: Serializer>(&self, to: &mut S) -> (r: SerializeResult) {
        proof {
            reveal(<BossBarAddSpec as Serialize>::encode);
        }
        self.title.mc_serialize(to)?;
        self.health.mc_serialize(to)?;
        self.color.mc_serialize(to)?;
        self.division.mc_serialize(to)?;
        self.flags.mc_serialize(to)?;
        proof {
            let v = self.deep_view();
            let w = old(to).written();
            let e0 = String::encode(v.title);
            let e1 = u32::encode(v.health);
            let e2 = BossBarColor::encode(v.color);
            let e3 = BossBarDivision::encode(v.division);
            let e4 = BossBarFlags::encode(v.flags);
            let l0 = e0;
            let l1 = l0 + e1;
            let l2 = l1 + e2;
            let l3 = l2 + e3;
            let l4 = l3 + e4;
            lemma_concat_assoc(w, l0, e1);
            lemma_concat_assoc(w, l1, e2);
            lemma_concat_assoc(w, l2, e3);
            lemma_concat_assoc(w, l3, e4);
        }
        Ok(())
    }
}

impl Deserialize for BossBarAddSpec {
    #[verifier::opaque]
    open spec fn decode(data: Seq<u8>) -> Decoded<BossBarAddSpecView> {
        match String::decode(data) {
            Err(e) => Err(e),
            Ok((title, n0)) => {
                match u32::decode(data.skip((n0) as int)) {
                    Err(e) => Err(e),
                    Ok((health, n1)) => {
                        match BossBarColor::decode(data.skip((n0 + n1) as int)) {
                            Err(e) => Err(e),
                            Ok((color, n2)) => {
                                match BossBarDivision::decode(data.skip((n0 + n1 + n2) as int)) {
                                    Err(e) => Err(e),
                                    Ok((division, n3)) => {
                                        match BossBarFlags::decode(data.skip((n0 + n1 + n2 + n3) as int)) {
                                            Err(e) => Err(e),
                                            Ok((flags, n4)) => Ok((BossBarAddSpecView { title, health, color, division, flags }, n0 + n1 + n2 + n3 + n4)),
                                        }
                                    },
                                }
                            },
                        }
                    },
                }
            },
        }
    }

    fn mc_deserialize(data: &[u8]) -> (r: DeserializeResult<'_, BossBarAddSpec>) {
        proof {
            reveal(<BossBarAddSpec as Deserialize>::decode);
        }
        let ghost whole = data@;
        let Deserialized { value: title, data: rest0 } = String::mc_deserialize(data)?;
        let Deserialized { value: health, data: rest1 } = u32::mc_deserialize(rest0)?;
        proof {
            lemma_skip_skip(
                whole,
                whole.len() - rest0@.len(),
                rest0@.len() - rest1@.len(),
            );
        }
        let Deserialized { value: color, data: rest2 } = BossBarColor::mc_deserialize(rest1)?;
        proof {
            lemma_skip_skip(
                whole,
                whole.len() - rest1@.len(),
                rest1@.len() - rest2@.len(),
            );
        }
        let Deserialized { value: division, data: rest3 } = BossBarDivision::mc_deserialize(rest2)?;
        proof {
            lemma_skip_skip(
                whole,
                whole.len() - rest2@.len(),
                rest2@.len() - rest3@.len(),
            );
        }
        let Deserialized { value: flags, data: rest4 } = BossBarFlags::mc_deserialize(rest3)?;
        proof {
            lemma_skip_skip(
                whole,
                whole.len() - rest3@.len(),
                rest3@.len() - rest4@.len(),
            );
        }
        Ok(Deserialized { value: BossBarAddSpec { title, health, color, division, flags }, data: rest4 })
    }
}

impl ProtocolType for BossBarAddSpec {
    open spec fn faithful(v: BossBarAddSpecView) -> bool {
        String::faithful(v.title) && u32::faithful(v.health) && BossBarColor::faithful(v.color) && BossBarDivision::faithful(v.division) && BossBarFlags::faithful(v.flags)
    }

    open spec fn delimited() -> bool {
        BossBarFlags::delimited()
    }

    proof fn lemma_round_trip(v: BossBarAddSpecView, rest: Seq<u8>) {
        reveal(<BossBarAddSpec as Serialize>::encode);
        reveal(<BossBarAddSpec as Deserialize>::decode);
        let e0 = String::encode(v.title);
        let e1 = u32::encode(v.health);
        let e2 = BossBarColor::encode(v.color);
        let e3 = BossBarDivision::encode(v.division);
        let e4 = BossBarFlags::encode(v.flags);
        let data = Self::encode(v) + rest;
        let t5 = rest;
        let t4 = e4 + t5;
        let t3 = e3 + t4;
        let t2 = e2 + t3;
        let t1 = e1 + t2;
        let t0 = e0 + t1;
        let l0 = e0;
        let l1 = l0 + e1;
        let l2 = l1 + e2;
        let l3 = l2 + e3;
        let l4 = l3 + e4;
        lemma_concat_assoc(l3, e4, t5);
        lemma_concat_assoc(l2, e3, t4);
        lemma_concat_assoc(l1, e2, t3);
        lemma_concat_assoc(l0, e1, t2);
        assert(data == t0);
        String::lemma_round_trip(v.title, t1);
        lemma_skip_concat(e0, t1);
        u32::lemma_round_trip(v.health, t2);
        lemma_skip_more(data, (e0.len()) as int, e1, t2);
        BossBarColor::lemma_round_trip(v.color, t3);
        lemma_skip_more(data, (e0.len() + e1.len()) as int, e2, t3);
        BossBarDivision::lemma_round_trip(v.division, t4);
        lemma_skip_more(data, (e0.len() + e1.len() + e2.len()) as int, e3, t4);
        BossBarFlags::lemma_round_trip(v.flags, t5);
        lemma_skip_more(data, (e0.len() + e1.len() + e2.len() + e3.len()) as int, e4, t5);
    }
}

/// How full a boss bar is now.
#[derive(Debug, Clone, PartialEq)]
pub struct BossBarUpdateHealthSpec {
    /// How full the bar is, as the bit pattern of a 32-bit float.
    pub health: u32,
}

/// The mathematical content of a [`BossBarUpdateHealthSpec`].
pub struct BossBarUpdateHealthSpecView {
    pub health: u32,
}

impl DeepView for BossBarUpdateHealthSpec {
    type V = BossBarUpdateHealthSpecView;

    open spec fn deep_view(&self) -> BossBarUpdateHealthSpecView {
        BossBarUpdateHealthSpecView {
            health: self.health.deep_view(),
        }
    }
}

impl Serialize for BossBarUpdateHealthSpec {
    open spec fn serializable(v: BossBarUpdateHealthSpecView) -> bool {
        u32::serializable(v.health)
    }

    #[verifier::opaque]
    open spec fn encode(v: BossBarUpdateHealthSpecView) -> Seq<u8> {
        u32::encode(v.health)
    }

    fn mc_serialize<S: Serializer>(&self, to: &mut S) -> (r: SerializeResult) {
        proof {
            reveal(<BossBarUpdateHealthSpec as Serialize>::encode);
        }
        self.health.mc_serialize(to)?;
        proof {
            assert(to.written() =~= old(to).written() + Self::encode(self.deep_view()));
        }
        Ok(())
    }
}

impl Deserialize for BossBarUpdateHealthSpec {
    #[verifier::opaque]
    open spec fn decode(data: Seq<u8>) -> Decoded<BossBarUpdateHealthSpecView> {
        match u32::decode(data) {
            Err(e) => Err(e),
            Ok((health, n0)) => Ok((BossBarUpdateHealthSpecView { health }, n0)),
        }
    }

    fn mc_deserialize(data: &[u8]) -> (r: DeserializeResult<'_, BossBarUpdateHealthSpec>) {
        proof {
            reveal(<BossBarUpdateHealthSpec as Deserialize>::decode);
        }
        let Deserialized { value: health, data: rest0 } = u32::mc_deserialize(data)?;
        Ok(Deserialized { value: BossBarUpdateHealthSpec { health }, data: rest0 })
    }
}

impl ProtocolType for BossBarUpdateHealthSpec {
    open spec fn faithful(v: BossBarUpdateHealthSpecView) -> bool {
        u32::faithful(v.health)
    }

    open spec fn delimited() -> bool {
        u32::delimited()
    }

    proof fn lemma_round_trip(v: BossBarUpdateHealthSpecView, rest: Seq<u8>) {
        reveal(<BossBarUpdateHealthSpec as Serialize>::encode);
        reveal(<BossBarUpdateHealthSpec as Deserialize>::decode);
        let e0 = u32::encode(v.health);
        let data = Self::encode(v) + rest;
        let t1 = rest;
        let t0 = e0 + t1;
        u32::lemma_round_trip(v.health, t1);
        lemma_skip_concat(e0, t1);
    }
}

/// The new title of a boss bar.
#[derive(Debug, Clone, PartialEq)]
pub struct BossBarUpdateTitleSpec {
    pub title: String,
}

/// The mathematical content of a [`BossBarUpdateTitleSpec`].
pub struct BossBarUpdateTitleSpecView {
    pub title: Seq<char>,
}

impl DeepView for BossBarUpdateTitleSpec {
    type V = BossBarUpdateTitleSpecView;

    open spec fn deep_view(&self) -> BossBarUpdateTitleSpecView {
        BossBarUpdateTitleSpecView {
            title: self.title.deep_view(),
        }
    }
}

impl Serialize for BossBarUpdateTitleSpec {
    open spec fn serializable(v: BossBarUpdateTitleSpecView) -> bool {
        String::serializable(v.title)
    }

    #[verifier::opaque]
    open spec fn encode(v: BossBarUpdateTitleSpecView) -> Seq<u8> {
        String::encode(v.title)
    }

    fn mc_serialize<S: Serializer>(&self, to: &mut S) -> (r: SerializeResult) {
        proof {
            reveal(<BossBarUpdateTitleSpec as Serialize>::encode);
        }
        self.title.mc_serialize(to)?;
        proof {
            assert(to.written() =~= old(to).written() + Self::encode(self.deep_view()));
        }
        Ok(())
    }
}

impl Deserialize for BossBarUpdateTitleSpec {
    #[verifier::opaque]
    open spec fn decode(data: Seq<u8>) -> Decoded<BossBarUpdateTitleSpecView> {
        match String::decode(data) {
            Err(e) => Err(e),
            Ok((title, n0)) => Ok((BossBarUpdateTitleSpecView { title }, n0)),
        }
    }

    fn mc_deserialize(data: &[u8]) -> (r: DeserializeResult<'_, BossBarUpdateTitleSpec>) {
        proof {
            reveal(<BossBarUpdateTitleSpec as Deserialize>::decode);
        }
        let Deserialized { value: title, data: rest0 } = String::mc_deserialize(data)?;
        Ok(Deserialized { value: BossBarUpdateTitleSpec { title }, data: rest0 })
    }
}

impl ProtocolType for BossBarUpdateTitleSpec {
    open spec fn faithful(v: BossBarUpdateTitleSpecView) -> bool {
        String::faithful(v.title)
    }

    open spec fn delimited() -> bool {
        String::delimited()
    }

    proof fn lemma_round_trip(v: BossBarUpdateTitleSpecView, rest: Seq<u8>) {
        reveal(<BossBarUpdateTitleSpec as Serialize>::encode);
        reveal(<BossBarUpdateTitleSpec as Deserialize>::decode);
        let e0 = String::encode(v.title);
        let data = Self::encode(v) + rest;
        let t1 = rest;
        let t0 = e0 + t1;
        String::lemma_round_trip(v.title, t1);
        lemma_skip_concat(e0, t1);
    }
}

/// The new look of a boss bar.
#[derive(Debug, Clone, PartialEq)]
pub struct BossBarUpdateStyleSpec {
    pub color: BossBarColor,
    pub dividers: BossBarDivision,
}

/// The mathematical content of a [`BossBarUpdateStyleSpec`].
pub struct BossBarUpdateStyleSpecView {
    pub color: <BossBarColor as DeepView>::V,
    pub dividers: <BossBarDivision as DeepView>::V,
}

impl DeepView for BossBarUpdateStyleSpec {
    type V = BossBarUpdateStyleSpecView;

    open spec fn deep_view(&self) -> BossBarUpdateStyleSpecView {
        BossBarUpdateStyleSpecView {
            color: self.color.deep_view(),
            dividers: self.dividers.deep_view(),
        }
    }
}

impl Serialize for BossBarUpdateStyleSpec {
    open spec fn serializable(v: BossBarUpdateStyleSpecView) -> bool {
        BossBarColor::serializable(v.color) && BossBarDivision::serializable(v.dividers)
    }

    #[verifier::opaque]
    open spec fn encode(v: BossBarUpdateStyleSpecView) -> Seq<u8> {
        BossBarColor::encode(v.color) + BossBarDivision::encode(v.dividers)
    }

    fn mc_serialize<S: Serializer>(&self, to: &mut S) -> (r: SerializeResult) {
        proof {
            reveal(<BossBarUpdateStyleSpec as Serialize>::encode);
        }
        self.color.mc_serialize(to)?;
        self.dividers.mc_serialize(to)?;
        proof {
            assert(to.written() =~= old(to).written() + Self::encode(self.deep_view()));
        }
        Ok(())
    }
}

impl Deserialize for BossBarUpdateStyleSpec {
    #[verifier::opaque]
    open spec fn decode(data: Seq<u8>) -> Decoded<BossBarUpdateStyleSpecView> {
        match BossBarColor::decode(data) {
            Err(e) => Err(e),
            Ok((color, n0)) => {
                match BossBarDivision::decode(data.skip((n0) as int)) {
                    Err(e) => Err(e),
                    Ok((dividers, n1)) => Ok((BossBarUpdateStyleSpecView { color, dividers }, n0 + n1)),
                }
            },
        }
    }

    fn mc_deserialize(data: &[u8]) -> (r: DeserializeResult<'_, BossBarUpdateStyleSpec>) {
        proof {
            reveal(<BossBarUpdateStyleSpec as Deserialize>::decode);
        }
        let ghost whole = data@;
        let Deserialized { value: color, data: rest0 } = BossBarColor::mc_deserialize(data)?;
        let Deserialized { value: dividers, data: rest1 } = BossBarDivision::mc_deserialize(rest0)?;
        proof {
            lemma_skip_skip(
                whole,
                whole.len() - rest0@.len(),
                rest0@.len() - rest1@.len(),
            );
        }
        Ok(Deserialized { value: BossBarUpdateStyleSpec { color, dividers }, data: rest1 })
    }
}

impl ProtocolType for BossBarUpdateStyleSpec {
    open spec fn faithful(v: BossBarUpdateStyleSpecView) -> bool {
        BossBarColor::faithful(v.color) && BossBarDivision::faithful(v.dividers)
    }

    open spec fn delimited() -> bool {
        BossBarDivision::delimited()
    }

    proof fn lemma_round_trip(v: BossBarUpdateStyleSpecView, rest: Seq<u8>) {
        reveal(<BossBarUpdateStyleSpec as Serialize>::encode);
        reveal(<BossBarUpdateStyleSpec as Deserialize>::decode);
        let e0 = BossBarColor::encode(v.color);
        let e1 = BossBarDivision::encode(v.dividers);
        let data = Self::encode(v) + rest;
        let t2 = rest;
        let t1 = e1 + t2;
        let t0 = e0 + t1;
        let l0 = e0;
        let l1 = l0 + e1;
        lemma_concat_assoc(l0, e1, t2);
        assert(data == t0);
        BossBarColor::lemma_round_trip(v.color, t1);
        lemma_skip_concat(e0, t1);
        BossBarDivision::lemma_round_trip(v.dividers, t2);
        lemma_skip_more(data, (e0.len()) as int, e1, t2);
    }
}

/// The new flags of a boss bar.
#[derive(Debug, Clone, PartialEq)]
pub struct BossBarUpdateFlagsSpec {
    pub flags: BossBarFlags,
}

/// The mathematical content of a [`BossBarUpdateFlagsSpec`].
pub struct BossBarUpdateFlagsSpecView {
    pub flags: <BossBarFlags as DeepView>::V,
}

impl DeepView for BossBarUpdateFlagsSpec {
    type V = BossBarUpdateFlagsSpecView;

    open spec fn deep_view(&self) -> BossBarUpdateFlagsSpecView {
        BossBarUpdateFlagsSpecView {
            flags: self.flags.deep_view(),
        }
    }
}

impl Serialize for BossBarUpdateFlagsSpec {
    open spec fn serializable(v: BossBarUpdateFlagsSpecView) -> bool {
        BossBarFlags::serializable(v.flags)
    }

    #[verifier::opaque]
    open spec fn encode(v: BossBarUpdateFlagsSpecView) -> Seq<u8> {
        BossBarFlags::encode(v.flags)
    }

    fn mc_serialize<S: Serializer>(&self, to: &mut S) -> (r: SerializeResult) {
        proof {
            reveal(<BossBarUpdateFlagsSpec as Serialize>::encode);
        }
        self.flags.mc_serialize(to)?;
        proof {
            assert(to.written() =~= old(to).written() + Self::encode(self.deep_view()));
        }
        Ok(())
    }
}

impl Deserialize for BossBarUpdateFlagsSpec {
    #[verifier::opaque]
    open spec fn decode(data: Seq<u8>) -> Decoded<BossBarUpdateFlagsSpecView> {
        match BossBarFlags::decode(data) {
            Err(e) => Err(e),
            Ok((flags, n0)) => Ok((BossBarUpdateFlagsSpecView { flags }, n0)),
        }
    }

    fn mc_deserialize(data: &[u8]) -> (r: DeserializeResult<'_, BossBarUpdateFlagsSpec>) {
        proof {
            reveal(<BossBarUpdateFlagsSpec as Deserialize>::decode);
        }
        let Deserialized { value: flags, data: rest0 } = BossBarFlags::mc_deserialize(data)?;
        Ok(Deserialized { value: BossBarUpdateFlagsSpec { flags }, data: rest0 })
    }
}

impl ProtocolType for BossBarUpdateFlagsSpec {
    open spec fn faithful(v: BossBarUpdateFlagsSpecView) -> bool {
        BossBarFlags::faithful(v.flags)
    }

    open spec fn delimited() -> bool {
        BossBarFlags::delimited()
    }

    proof fn lemma_round_trip(v: BossBarUpdateFlagsSpecView, rest: Seq<u8>) {
        reveal(<BossBarUpdateFlagsSpec as Serialize>::encode);
        reveal(<BossBarUpdateFlagsSpec as Deserialize>::decode);
        let e0 = BossBarFlags::encode(v.flags);
        let data = Self::encode(v) + rest;
        let t1 = rest;
        let t0 = e0 + t1;
        BossBarFlags::lemma_round_trip(v.flags, t1);
        lemma_skip_concat(e0, t1);
    }
}

/// What happens to a boss bar.
#[derive(PartialEq, Clone, Debug)]
pub enum BossBarAction {
    Add(BossBarAddSpec),
    Remove,
    UpdateHealth(BossBarUpdateHealthSpec),
    UpdateTitle(BossBarUpdateTitleSpec),
    UpdateStyle(BossBarUpdateStyleSpec),
    UpdateFlags(BossBarUpdateFlagsSpec),
}

/// The mathematical content of a [`BossBarAction`].
pub enum BossBarActionView {
    Add(<BossBarAddSpec as DeepView>::V),
    Remove,
    UpdateHealth(<BossBarUpdateHealthSpec as DeepView>::V),
    UpdateTitle(<BossBarUpdateTitleSpec as DeepView>::V),
    UpdateStyle(<BossBarUpdateStyleSpec as DeepView>::V),
    UpdateFlags(<BossBarUpdateFlagsSpec as DeepView>::V),
}

impl DeepView for BossBarAction {
    type V = BossBarActionView;

    open spec fn deep_view(&self) -> BossBarActionView {
        match self {
            BossBarAction::Add(body) => BossBarActionView::Add(body.deep_view()),
            BossBarAction::Remove => BossBarActionView::Remove,
            BossBarAction::UpdateHealth(body) => BossBarActionView::UpdateHealth(body.deep_view()),
            BossBarAction::UpdateTitle(body) => BossBarActionView::UpdateTitle(body.deep_view()),
            BossBarAction::UpdateStyle(body) => BossBarActionView::UpdateStyle(body.deep_view()),
            BossBarAction::UpdateFlags(body) => BossBarActionView::UpdateFlags(body.deep_view()),
        }
    }
}

impl BossBarAction {
    pub fn variant_count() -> (r: usize)
        ensures
            r == 6,
    {
        6
    }

    /// The number that stands for the variant on the wire.
    pub open spec fn id_of(v: BossBarActionView) -> i32 {
        match v {
            BossBarActionView::Add(_) => 0x00,
            BossBarActionView::Remove => 0x01,
            BossBarActionView::UpdateHealth(_) => 0x02,
            BossBarActionView::UpdateTitle(_) => 0x03,
            BossBarActionView::UpdateStyle(_) => 0x04,
            BossBarActionView::UpdateFlags(_) => 0x05,
        }
    }

    pub fn id(&self) -> (r: VarInt)
        ensures
            r == VarInt(Self::id_of(self.deep_view())),
    {
        match self {
            BossBarAction::Add(_) => VarInt(0x00),
            BossBarAction::Remove => VarInt(0x01),
            BossBarAction::UpdateHealth(_) => VarInt(0x02),
            BossBarAction::UpdateTitle(_) => VarInt(0x03),
            BossBarAction::UpdateStyle(_) => VarInt(0x04),
            BossBarAction::UpdateFlags(_) => VarInt(0x05),
        }
    }

    pub open spec fn name_of(v: BossBarActionView) -> Seq<char> {
        match v {
            BossBarActionView::Add(_) => "Add"@,
            BossBarActionView::Remove => "Remove"@,
            BossBarActionView::UpdateHealth(_) => "UpdateHealth"@,
            BossBarActionView::UpdateTitle(_) => "UpdateTitle"@,
            BossBarActionView::UpdateStyle(_) => "UpdateStyle"@,
            BossBarActionView::UpdateFlags(_) => "UpdateFlags"@,
        }
    }

    pub fn name(&self) -> (r: &'static str)
        ensures
            r@ == Self::name_of(self.deep_view()),
    {
        match self {
            BossBarAction::Add(_) => "Add",
            BossBarAction::Remove => "Remove",
            BossBarAction::UpdateHealth(_) => "UpdateHealth",
            BossBarAction::UpdateTitle(_) => "UpdateTitle",
            BossBarAction::UpdateStyle(_) => "UpdateStyle",
            BossBarAction::UpdateFlags(_) => "UpdateFlags",
        }
    }

    /// The bytes that follow the number.
    pub open spec fn body_of(v: BossBarActionView) -> Seq<u8> {
        match v {
            BossBarActionView::Add(body) => <BossBarAddSpec>::encode(body),
            BossBarActionView::Remove => Seq::empty(),
            BossBarActionView::UpdateHealth(body) => <BossBarUpdateHealthSpec>::encode(body),
            BossBarActionView::UpdateTitle(body) => <BossBarUpdateTitleSpec>::encode(body),
            BossBarActionView::UpdateStyle(body) => <BossBarUpdateStyleSpec>::encode(body),
            BossBarActionView::UpdateFlags(body) => <BossBarUpdateFlagsSpec>::encode(body),
        }
    }

    /// Whether what follows the number can be written.
    pub open spec fn body_writable(v: BossBarActionView) -> bool {
        match v {
            BossBarActionView::Add(body) => <BossBarAddSpec>::serializable(body),
            BossBarActionView::Remove => true,
            BossBarActionView::UpdateHealth(body) => <BossBarUpdateHealthSpec>::serializable(body),
            BossBarActionView::UpdateTitle(body) => <BossBarUpdateTitleSpec>::serializable(body),
            BossBarActionView::UpdateStyle(body) => <BossBarUpdateStyleSpec>::serializable(body),
            BossBarActionView::UpdateFlags(body) => <BossBarUpdateFlagsSpec>::serializable(body),
        }
    }

    /// The variant that `id` stands for, with its body read from `data`.
    pub open spec fn decode_with_id(id: i32, data: Seq<u8>) -> Decoded<BossBarActionView> {
        if id == 0x00 {
            match <BossBarAddSpec>::decode(data) {
                Ok((body, n)) => Ok((BossBarActionView::Add(body), n)),
                Err(e) => Err(e),
            }
        } else if id == 0x01 {
            Ok((BossBarActionView::Remove, 0))
        } else if id == 0x02 {
            match <BossBarUpdateHealthSpec>::decode(data) {
                Ok((body, n)) => Ok((BossBarActionView::UpdateHealth(body), n)),
                Err(e) => Err(e),
            }
        } else if id == 0x03 {
            match <BossBarUpdateTitleSpec>::decode(data) {
                Ok((body, n)) => Ok((BossBarActionView::UpdateTitle(body), n)),
                Err(e) => Err(e),
            }
        } else if id == 0x04 {
            match <BossBarUpdateStyleSpec>::decode(data) {
                Ok((body, n)) => Ok((BossBarActionView::UpdateStyle(body), n)),
                Err(e) => Err(e),
            }
        } else if id == 0x05 {
            match <BossBarUpdateFlagsSpec>::decode(data) {
                Ok((body, n)) => Ok((BossBarActionView::UpdateFlags(body), n)),
                Err(e) => Err(e),
            }
        } else {
            Err(DecodeFailure::CannotUnderstandValue)
        }
    }

    /// Whether `id` stands for a variant.
    pub open spec fn has_id(id: i32) -> bool {
        id == 0x00
            || id == 0x01
            || id == 0x02
            || id == 0x03
            || id == 0x04
            || id == 0x05
    }

    /// Picks the variant for `id` and reads its body from `data`. A number
    /// that stands for no variant is refused, and the error says which.
    pub fn deserialize_with_id<'a>(id: VarInt, data: &'a [u8]) -> (r: DeserializeResult<'a, Self>)
        ensures
            agrees(r, data@, Self::decode_with_id(id.0, data@)),
            !Self::has_id(id.0) ==> (r matches Err(DeserializeErr::CannotUnderstandValue(m))
                && m@ == invalid_int_text("BossBarAction"@, id.0 as int)),
    {
        proof {
            assert(data@.skip(0) =~= data@);
        }
        match id.0 {
            0x00 => {
                let Deserialized { value: body, data: rest } = <BossBarAddSpec>::mc_deserialize(data)?;
                Ok(Deserialized { value: BossBarAction::Add(body), data: rest })
            },
            0x01 => Ok(Deserialized { value: BossBarAction::Remove, data }),
            0x02 => {
                let Deserialized { value: body, data: rest } = <BossBarUpdateHealthSpec>::mc_deserialize(data)?;
                Ok(Deserialized { value: BossBarAction::UpdateHealth(body), data: rest })
            },
            0x03 => {
                let Deserialized { value: body, data: rest } = <BossBarUpdateTitleSpec>::mc_deserialize(data)?;
                Ok(Deserialized { value: BossBarAction::UpdateTitle(body), data: rest })
            },
            0x04 => {
                let Deserialized { value: body, data: rest } = <BossBarUpdateStyleSpec>::mc_deserialize(data)?;
                Ok(Deserialized { value: BossBarAction::UpdateStyle(body), data: rest })
            },
            0x05 => {
                let Deserialized { value: body, data: rest } = <BossBarUpdateFlagsSpec>::mc_deserialize(data)?;
                Ok(Deserialized { value: BossBarAction::UpdateFlags(body), data: rest })
            },
            other => Err(DeserializeErr::CannotUnderstandValue(invalid_int_message("BossBarAction", other))),
        }
    }

    /// Writes what follows the number.
    pub fn serialize_body<S: Serializer>(&self, to: &mut S) -> (r: SerializeResult)
        ensures
            r is Ok ==> Self::body_writable(self.deep_view()) && final(to).written() == old(
                to,
            ).written() + Self::body_of(self.deep_view()),
            old(to).infallible() ==> final(to).infallible(),
            old(to).infallible() ==> (r is Ok <==> Self::body_writable(self.deep_view())),
            old(to).infallible() && r is Err ==> (r matches Err(SerializeErr::CannotSerialize(_))),
    {
        match self {
            BossBarAction::Add(bod) => bod.mc_serialize(to),
            BossBarAction::Remove => {
                proof {
                    assert(old(to).written() + Seq::<u8>::empty() =~= old(to).written());
                }
                Ok(())
            },
            BossBarAction::UpdateHealth(bod) => bod.mc_serialize(to),
            BossBarAction::UpdateTitle(bod) => bod.mc_serialize(to),
            BossBarAction::UpdateStyle(bod) => bod.mc_serialize(to),
            BossBarAction::UpdateFlags(bod) => bod.mc_serialize(to),
        }
    }
}

impl Serialize for BossBarAction {
    open spec fn serializable(v: BossBarActionView) -> bool {
        Self::body_writable(v)
    }

    #[verifier::opaque]
    open spec fn encode(v: BossBarActionView) -> Seq<u8> {
        <VarInt>::encode(VarInt(Self::id_of(v))) + Self::body_of(v)
    }

    fn mc_serialize<S: Serializer>(&self, to: &mut S) -> (r: SerializeResult) {
        proof {
            reveal(<BossBarAction as Serialize>::encode);
        }
        let id_to_serialize: VarInt = self.id();
        id_to_serialize.mc_serialize(to)?;
        let r = self.serialize_body(to);
        proof {
            let head = <VarInt>::encode(VarInt(Self::id_of(self.deep_view())));
            let body = Self::body_of(self.deep_view());
            lemma_concat_assoc(old(to).written(), head, body);
        }
        r
    }
}

impl Deserialize for BossBarAction {
    #[verifier::opaque]
    open spec fn decode(data: Seq<u8>) -> Decoded<BossBarActionView> {
        match <VarInt>::decode(data) {
            Err(e) => Err(e),
            Ok((id, n)) => match Self::decode_with_id(id.0, data.skip(n as int)) {
                Ok((v, m)) => Ok((v, n + m)),
                Err(e) => Err(e),
            },
        }
    }

    fn mc_deserialize(data: &[u8]) -> (r: DeserializeResult<'_, BossBarAction>) {
        proof {
            reveal(<BossBarAction as Deserialize>::decode);
        }
        let Deserialized { value: id, data: rest } = <VarInt>::mc_deserialize(data)?;
        let Deserialized { value, data: after } = Self::deserialize_with_id(id, rest)?;
        proof {
            lemma_skip_skip(data@, data@.len() - rest@.len(), rest@.len() - after@.len());
        }
        Ok(Deserialized { value, data: after })
    }
}

impl ProtocolType for BossBarAction {
    open spec fn faithful(v: BossBarActionView) -> bool {
        match v {
            BossBarActionView::Add(body) => <BossBarAddSpec>::faithful(body),
            BossBarActionView::Remove => true,
            BossBarActionView::UpdateHealth(body) => <BossBarUpdateHealthSpec>::faithful(body),
            BossBarActionView::UpdateTitle(body) => <BossBarUpdateTitleSpec>::faithful(body),
            BossBarActionView::UpdateStyle(body) => <BossBarUpdateStyleSpec>::faithful(body),
            BossBarActionView::UpdateFlags(body) => <BossBarUpdateFlagsSpec>::faithful(body),
        }
    }

    open spec fn delimited() -> bool {
        <BossBarAddSpec>::delimited() && <BossBarUpdateFlagsSpec>::delimited() && <BossBarUpdateHealthSpec>::delimited() && <BossBarUpdateStyleSpec>::delimited() && <BossBarUpdateTitleSpec>::delimited()
    }

    proof fn lemma_round_trip(v: BossBarActionView, rest: Seq<u8>) {
        reveal(<BossBarAction as Serialize>::encode);
        reveal(<BossBarAction as Deserialize>::decode);
        let head = <VarInt>::encode(VarInt(Self::id_of(v)));
        let body = Self::body_of(v);
        <VarInt>::lemma_round_trip(VarInt(Self::id_of(v)), body + rest);
        Self::lemma_body_round_trip(v, rest);
        lemma_concat_assoc(head, body, rest);
        lemma_skip_concat(head, body + rest);
    }
}

impl BossBarAction {
    /// What follows the number, written out and followed by anything, reads
    /// back under that number.
    pub proof fn lemma_body_round_trip(v: BossBarActionView, rest: Seq<u8>)
        requires
            <Self as ProtocolType>::faithful(v),
            <Self as ProtocolType>::delimited() || rest.len() == 0,
        ensures
            Self::body_writable(v),
            Self::decode_with_id(Self::id_of(v), Self::body_of(v) + rest) == Ok::<_, DecodeFailure>(
                (v, Self::body_of(v).len()),
            ),
    {
        match v {
            BossBarActionView::Add(body) => {
                <BossBarAddSpec>::lemma_round_trip(body, rest);
            },
            BossBarActionView::Remove => {
                assert(Seq::<u8>::empty() + rest =~= rest);
            },
            BossBarActionView::UpdateHealth(body) => {
                <BossBarUpdateHealthSpec>::lemma_round_trip(body, rest);
            },
            BossBarActionView::UpdateTitle(body) => {
                <BossBarUpdateTitleSpec>::lemma_round_trip(body, rest);
            },
            BossBarActionView::UpdateStyle(body) => {
                <BossBarUpdateStyleSpec>::lemma_round_trip(body, rest);
            },
            BossBarActionView::UpdateFlags(body) => {
                <BossBarUpdateFlagsSpec>::lemma_round_trip(body, rest);
            },
        }
    }
}

/// Who sees the name tags of a team.
#[derive(PartialEq, Eq, Structural, Clone, Copy, Debug)]
pub enum TeamTagNameVisibility {
    Always,
    HideForOtherTeams,
    HideForOwnTeam,
    Never,
}

impl View for TeamTagNameVisibility {
    type V = TeamTagNameVisibility;

    open spec fn view(&self) -> TeamTagNameVisibility {
        *self
    }
}

impl DeepView for TeamTagNameVisibility {
    type V = TeamTagNameVisibility;

    open spec fn deep_view(&self) -> TeamTagNameVisibility {
        *self
    }
}

impl TeamTagNameVisibility {
    pub fn variant_count() -> (r: usize)
        ensures
            r == 4,
    {
        4
    }

    /// The text that stands for the variant on the wire.
    pub open spec fn spec_name(&self) -> Seq<char> {
        match self {
            TeamTagNameVisibility::Always => "always"@,
            TeamTagNameVisibility::HideForOtherTeams => "hideForOtherTeams"@,
            TeamTagNameVisibility::HideForOwnTeam => "hideForOwnTeam"@,
            TeamTagNameVisibility::Never => "never"@,
        }
    }

    pub fn name(&self) -> (r: &'static str)
        ensures
            r@ == self.spec_name(),
    {
        match self {
            TeamTagNameVisibility::Always => "always",
            TeamTagNameVisibility::HideForOtherTeams => "hideForOtherTeams",
            TeamTagNameVisibility::HideForOwnTeam => "hideForOwnTeam",
            TeamTagNameVisibility::Never => "never",
        }
    }

    pub fn id(&self) -> (r: String)
        ensures
            r@ == self.spec_name(),
    {
        self.name().to_owned()
    }

    /// The variant that a text stands for.
    pub open spec fn of_name(name: Seq<char>) -> Option<Self> {
        if name == "always"@ {
            Some(TeamTagNameVisibility::Always)
        } else if name == "hideForOtherTeams"@ {
            Some(TeamTagNameVisibility::HideForOtherTeams)
        } else if name == "hideForOwnTeam"@ {
            Some(TeamTagNameVisibility::HideForOwnTeam)
        } else if name == "never"@ {
            Some(TeamTagNameVisibility::Never)
        } else {
            None
        }
    }

    /// Picks the variant for `name`; `data` is what follows the name on the
    /// wire. A text that stands for no variant is refused, and the error
    /// says which.
    pub fn deserialize_with_id<'a>(name: &str, data: &'a [u8]) -> (r: DeserializeResult<'a, Self>)
        ensures
            match r {
                Ok(d) => Self::of_name(name@) == Some(d.value) && d.data@ == data@,
                Err(e) => Self::of_name(name@) is None && (e
                    matches DeserializeErr::CannotUnderstandValue(m) && m@ == invalid_ident_text(
                    "TeamTagNameVisibility"@,
                    name@,
                )),
            },
    {
        if same_text(name, "always") {
            Ok(Deserialized { value: TeamTagNameVisibility::Always, data })
        } else if same_text(name, "hideForOtherTeams") {
            Ok(Deserialized { value: TeamTagNameVisibility::HideForOtherTeams, data })
        } else if same_text(name, "hideForOwnTeam") {
            Ok(Deserialized { value: TeamTagNameVisibility::HideForOwnTeam, data })
        } else if same_text(name, "never") {
            Ok(Deserialized { value: TeamTagNameVisibility::Never, data })
        } else {
            Err(DeserializeErr::CannotUnderstandValue(invalid_ident_message("TeamTagNameVisibility", name)))
        }
    }

    /// Writes what follows the name: nothing, for every variant.
    pub fn serialize_body<S: Serializer>(&self, to: &mut S) -> (r: SerializeResult)
        ensures
            r is Ok,
            final(to).written() == old(to).written(),
            final(to).infallible() == old(to).infallible(),
    {
        Ok(())
    }

    /// The names are in ASCII and all different.
    pub proof fn lemma_names(v: TeamTagNameVisibility)
        ensures
            Self::of_name(v.spec_name()) == Some(v),
            vstd::utf8::is_ascii_chars(v.spec_name()),
            v.spec_name().len() < 128,
    {
        reveal_strlit("always");
        reveal_strlit("hideForOtherTeams");
        reveal_strlit("hideForOwnTeam");
        reveal_strlit("never");
        assert("always"@.len() == 6);
        assert("hideForOtherTeams"@.len() == 17);
        assert("hideForOwnTeam"@.len() == 14);
        assert("never"@.len() == 5);
        let text = v.spec_name();
        assert forall|i: int| 0 <= i < text.len() implies '\0' <= #[trigger] text[i] <= '\u{7f}' by {
            match v {
                TeamTagNameVisibility::Always => {
                    if i == 0 {
                        assert(text[0] == 'a');
                    }
                    if i == 1 {
                        assert(text[1] == 'l');
                    }
                    if i == 2 {
                        assert(text[2] == 'w');
                    }
                    if i == 3 {
                        assert(text[3] == 'a');
                    }
                    if i == 4 {
                        assert(text[4] == 'y');
                    }
                    if i == 5 {
                        assert(text[5] == 's');
                    }
                },
                TeamTagNameVisibility::HideForOtherTeams => {
                    if i == 0 {
                        assert(text[0] == 'h');
                    }
                    if i == 1 {
                        assert(text[1] == 'i');
                    }
                    if i == 2 {
                        assert(text[2] == 'd');
                    }
                    if i == 3 {
                        assert(text[3] == 'e');
                    }
                    if i == 4 {
                        assert(text[4] == 'F');
                    }
                    if i == 5 {
                        assert(text[5] == 'o');
                    }
                    if i == 6 {
                        assert(text[6] == 'r');
                    }
                    if i == 7 {
                        assert(text[7] == 'O');
                    }
                    if i == 8 {
                        assert(text[8] == 't');
                    }
                    if i == 9 {
                        assert(text[9] == 'h');
                    }
                    if i == 10 {
                        assert(text[10] == 'e');
                    }
                    if i == 11 {
                        assert(text[11] == 'r');
                    }
                    if i == 12 {
                        assert(text[12] == 'T');
                    }
                    if i == 13 {
                        assert(text[13] == 'e');
                    }
                    if i == 14 {
                        assert(text[14] == 'a');
                    }
                    if i == 15 {
                        assert(text[15] == 'm');
                    }
                    if i == 16 {
                        assert(text[16] == 's');
                    }
                },
                TeamTagNameVisibility::HideForOwnTeam => {
                    if i == 0 {
                        assert(text[0] == 'h');
                    }
                    if i == 1 {
                        assert(text[1] == 'i');
                    }
                    if i == 2 {
                        assert(text[2] == 'd');
                    }
                    if i == 3 {
                        assert(text[3] == 'e');
                    }
                    if i == 4 {
                        assert(text[4] == 'F');
                    }
                    if i == 5 {
                        assert(text[5] == 'o');
                    }
                    if i == 6 {
                        assert(text[6] == 'r');
                    }
                    if i == 7 {
                        assert(text[7] == 'O');
                    }
                    if i == 8 {
                        assert(text[8] == 'w');
                    }
                    if i == 9 {
                        assert(text[9] == 'n');
                    }
                    if i == 10 {
                        assert(text[10] == 'T');
                    }
                    if i == 11 {
                        assert(text[11] == 'e');
                    }
                    if i == 12 {
                        assert(text[12] == 'a');
                    }
                    if i == 13 {
                        assert(text[13] == 'm');
                    }
                },
                TeamTagNameVisibility::Never => {
                    if i == 0 {
                        assert(text[0] == 'n');
                    }
                    if i == 1 {
                        assert(text[1] == 'e');
                    }
                    if i == 2 {
                        assert(text[2] == 'v');
                    }
                    if i == 3 {
                        assert(text[3] == 'e');
                    }
                    if i == 4 {
                        assert(text[4] == 'r');
                    }
                },
            }
        }
    }
}

impl Serialize for TeamTagNameVisibility {
    open spec fn serializable(v: TeamTagNameVisibility) -> bool {
        true
    }

    #[verifier::opaque]
    open spec fn encode(v: TeamTagNameVisibility) -> Seq<u8> {
        String::encode(v.spec_name())
    }

    fn mc_serialize<S: Serializer>(&self, to: &mut S) -> (r: SerializeResult) {
        proof {
            reveal(<TeamTagNameVisibility as Serialize>::encode);
        }
        let name = self.name().to_owned();
        name.mc_serialize(to)?;
        self.serialize_body(to)
    }
}

impl Deserialize for TeamTagNameVisibility {
    #[verifier::opaque]
    open spec fn decode(data: Seq<u8>) -> Decoded<TeamTagNameVisibility> {
        match String::decode(data) {
            Err(e) => Err(e),
            Ok((name, n)) => match Self::of_name(name) {
                Some(v) => Ok((v, n)),
                None => Err(DecodeFailure::CannotUnderstandValue),
            },
        }
    }

    fn mc_deserialize(data: &[u8]) -> (r: DeserializeResult<'_, TeamTagNameVisibility>) {
        proof {
            reveal(<TeamTagNameVisibility as Deserialize>::decode);
        }
        let Deserialized { value: name, data: rest } = String::mc_deserialize(data)?;
        Self::deserialize_with_id(name.as_str(), rest)
    }
}

impl ProtocolType for TeamTagNameVisibility {
    open spec fn faithful(v: TeamTagNameVisibility) -> bool {
        true
    }

    open spec fn delimited() -> bool {
        true
    }

    proof fn lemma_round_trip(v: TeamTagNameVisibility, rest: Seq<u8>) {
        reveal(<TeamTagNameVisibility as Serialize>::encode);
        reveal(<TeamTagNameVisibility as Deserialize>::decode);
        Self::lemma_names(v);
        vstd::utf8::is_ascii_chars_encode_utf8(v.spec_name());
        String::lemma_round_trip(v.spec_name(), rest);
    }
}

/// Whom the members of a team push.
#[derive(PartialEq, Eq, Structural, Clone, Copy, Debug)]
pub enum TeamCollisionRule {
    Always,
    PushForOtherTeams,
    PushOwnTeam,
    Never,
}

impl View for TeamCollisionRule {
    type V = TeamCollisionRule;

    open spec fn view(&self) -> TeamCollisionRule {
        *self
    }
}

impl DeepView for TeamCollisionRule {
    type V = TeamCollisionRule;

    open spec fn deep_view(&self) -> TeamCollisionRule {
        *self
    }
}

impl TeamCollisionRule {
    pub fn variant_count() -> (r: usize)
        ensures
            r == 4,
    {
        4
    }

    /// The text that stands for the variant on the wire.
    pub open spec fn spec_name(&self) -> Seq<char> {
        match self {
            TeamCollisionRule::Always => "always"@,
            TeamCollisionRule::PushForOtherTeams => "pushForOtherTeams"@,
            TeamCollisionRule::PushOwnTeam => "pushOwnTeam"@,
            TeamCollisionRule::Never => "never"@,
        }
    }

    pub fn name(&self) -> (r: &'static str)
        ensures
            r@ == self.spec_name(),
    {
        match self {
            TeamCollisionRule::Always => "always",
            TeamCollisionRule::PushForOtherTeams => "pushForOtherTeams",
            TeamCollisionRule::PushOwnTeam => "pushOwnTeam",
            TeamCollisionRule::Never => "never",
        }
    }

    pub fn id(&self) -> (r: String)
        ensures
            r@ == self.spec_name(),
    {
        self.name().to_owned()
    }

    /// The variant that a text stands for.
    pub open spec fn of_name(name: Seq<char>) -> Option<Self> {
        if name == "always"@ {
            Some(TeamCollisionRule::Always)
        } else if name == "pushForOtherTeams"@ {
            Some(TeamCollisionRule::PushForOtherTeams)
        } else if name == "pushOwnTeam"@ {
            Some(TeamCollisionRule::PushOwnTeam)
        } else if name == "never"@ {
            Some(TeamCollisionRule::Never)
        } else {
            None
        }
    }

    /// Picks the variant for `name`; `data` is what follows the name on the
    /// wire. A text that stands for no variant is refused, and the error
    /// says which.
    pub fn deserialize_with_id<'a>(name: &str, data: &'a [u8]) -> (r: DeserializeResult<'a, Self>)
        ensures
            match r {
                Ok(d) => Self::of_name(name@) == Some(d.value) && d.data@ == data@,
                Err(e) => Self::of_name(name@) is None && (e
                    matches DeserializeErr::CannotUnderstandValue(m) && m@ == invalid_ident_text(
                    "TeamCollisionRule"@,
                    name@,
                )),
            },
    {
        if same_text(name, "always") {
            Ok(Deserialized { value: TeamCollisionRule::Always, data })
        } else if same_text(name, "pushForOtherTeams") {
            Ok(Deserialized { value: TeamCollisionRule::PushForOtherTeams, data })
        } else if same_text(name, "pushOwnTeam") {
            Ok(Deserialized { value: TeamCollisionRule::PushOwnTeam, data })
        } else if same_text(name, "never") {
            Ok(Deserialized { value: TeamCollisionRule::Never, data })
        } else {
            Err(DeserializeErr::CannotUnderstandValue(invalid_ident_message("TeamCollisionRule", name)))
        }
    }

    /// Writes what follows the name: nothing, for every variant.
    pub fn serialize_body<S: Serializer>(&self, to: &mut S) -> (r: SerializeResult)
        ensures
            r is Ok,
            final(to).written() == old(to).written(),
            final(to).infallible() == old(to).infallible(),
    {
        Ok(())
    }

    /// The names are in ASCII and all different.
    pub proof fn lemma_names(v: TeamCollisionRule)
        ensures
            Self::of_name(v.spec_name()) == Some(v),
            vstd::utf8::is_ascii_chars(v.spec_name()),
            v.spec_name().len() < 128,
    {
        reveal_strlit("always");
        reveal_strlit("pushForOtherTeams");
        reveal_strlit("pushOwnTeam");
        reveal_strlit("never");
        assert("always"@.len() == 6);
        assert("pushForOtherTeams"@.len() == 17);
        assert("pushOwnTeam"@.len() == 11);
        assert("never"@.len() == 5);
        let text = v.spec_name();
        assert forall|i: int| 0 <= i < text.len() implies '\0' <= #[trigger] text[i] <= '\u{7f}' by {
            match v {
                TeamCollisionRule::Always => {
                    if i == 0 {
                        assert(text[0] == 'a');
                    }
                    if i == 1 {
                        assert(text[1] == 'l');
                    }
                    if i == 2 {
                        assert(text[2] == 'w');
                    }
                    if i == 3 {
                        assert(text[3] == 'a');
                    }
                    if i == 4 {
                        assert(text[4] == 'y');
                    }
                    if i == 5 {
                        assert(text[5] == 's');
                    }
                },
                TeamCollisionRule::PushForOtherTeams => {
                    if i == 0 {
                        assert(text[0] == 'p');
                    }
                    if i == 1 {
                        assert(text[1] == 'u');
                    }
                    if i == 2 {
                        assert(text[2] == 's');
                    }
                    if i == 3 {
                        assert(text[3] == 'h');
                    }
                    if i == 4 {
                        assert(text[4] == 'F');
                    }
                    if i == 5 {
                        assert(text[5] == 'o');
                    }
                    if i == 6 {
                        assert(text[6] == 'r');
                    }
                    if i == 7 {
                        assert(text[7] == 'O');
                    }
                    if i == 8 {
                        assert(text[8] == 't');
                    }
                    if i == 9 {
                        assert(text[9] == 'h');
                    }
                    if i == 10 {
                        assert(text[10] == 'e');
                    }
                    if i == 11 {
                        assert(text[11] == 'r');
                    }
                    if i == 12 {
                        assert(text[12] == 'T');
                    }
                    if i == 13 {
                        assert(text[13] == 'e');
                    }
                    if i == 14 {
                        assert(text[14] == 'a');
                    }
                    if i == 15 {
                        assert(text[15] == 'm');
                    }
                    if i == 16 {
                        assert(text[16] == 's');
                    }
                },
                TeamCollisionRule::PushOwnTeam => {
                    if i == 0 {
                        assert(text[0] == 'p');
                    }
                    if i == 1 {
                        assert(text[1] == 'u');
                    }
                    if i == 2 {
                        assert(text[2] == 's');
                    }
                    if i == 3 {
                        assert(text[3] == 'h');
                    }
                    if i == 4 {
                        assert(text[4] == 'O');
                    }
                    if i == 5 {
                        assert(text[5] == 'w');
                    }
                    if i == 6 {
                        assert(text[6] == 'n');
                    }
                    if i == 7 {
                        assert(text[7] == 'T');
                    }
                    if i == 8 {
                        assert(text[8] == 'e');
                    }
                    if i == 9 {
                        assert(text[9] == 'a');
                    }
                    if i == 10 {
                        assert(text[10] == 'm');
                    }
                },
                TeamCollisionRule::Never => {
                    if i == 0 {
                        assert(text[0] == 'n');
                    }
                    if i == 1 {
                        assert(text[1] == 'e');
                    }
                    if i == 2 {
                        assert(text[2] == 'v');
                    }
                    if i == 3 {
                        assert(text[3] == 'e');
                    }
                    if i == 4 {
                        assert(text[4] == 'r');
                    }
                },
            }
        }
    }
}

impl Serialize for TeamCollisionRule {
    open spec fn serializable(v: TeamCollisionRule) -> bool {
        true
    }

    #[verifier::opaque]
    open spec fn encode(v: TeamCollisionRule) -> Seq<u8> {
        String::encode(v.spec_name())
    }

    fn mc_serialize<S: Serializer>(&self, to: &mut S) -> (r: SerializeResult) {
        proof {
            reveal(<TeamCollisionRule as Serialize>::encode);
        }
        let name = self.name().to_owned();
        name.mc_serialize(to)?;
        self.serialize_body(to)
    }
}

impl Deserialize for TeamCollisionRule {
    #[verifier::opaque]
    open spec fn decode(data: Seq<u8>) -> Decoded<TeamCollisionRule> {
        match String::decode(data) {
            Err(e) => Err(e),
            Ok((name, n)) => match Self::of_name(name) {
                Some(v) => Ok((v, n)),
                None => Err(DecodeFailure::CannotUnderstandValue),
            },
        }
    }

    fn mc_deserialize(data: &[u8]) -> (r: DeserializeResult<'_, TeamCollisionRule>) {
        proof {
            reveal(<TeamCollisionRule as Deserialize>::decode);
        }
        let Deserialized { value: name, data: rest } = String::mc_deserialize(data)?;
        Self::deserialize_with_id(name.as_str(), rest)
    }
}

impl ProtocolType for TeamCollisionRule {
    open spec fn faithful(v: TeamCollisionRule) -> bool {
        true
    }

    open spec fn delimited() -> bool {
        true
    }

    proof fn lemma_round_trip(v: TeamCollisionRule, rest: Seq<u8>) {
        reveal(<TeamCollisionRule as Serialize>::encode);
        reveal(<TeamCollisionRule as Deserialize>::decode);
        Self::lemma_names(v);
        vstd::utf8::is_ascii_chars_encode_utf8(v.spec_name());
        String::lemma_round_trip(v.spec_name(), rest);
    }
}

/// How the members of a team stand to each other, one bit for each.
#[derive(Clone, Copy, PartialEq, Eq, Debug, Default)]
pub struct TeamFriendlyFlags(pub u8);

impl View for TeamFriendlyFlags {
    type V = TeamFriendlyFlags;

    open spec fn view(&self) -> TeamFriendlyFlags {
        *self
    }
}

impl DeepView for TeamFriendlyFlags {
    type V = TeamFriendlyFlags;

    open spec fn deep_view(&self) -> TeamFriendlyFlags {
        *self
    }
}

impl TeamFriendlyFlags {
    /// Whether members can hurt each other.
    pub fn allow_friendly_fire(&self) -> (r: bool)
        ensures
            r == flag_is_set(self.0, 0x01),
    {
        proof {
            lemma_flag(self.0, 0x01);
        }
        self.0 & 0x01 != 0
    }

    /// Sets the flag where `value` is true. Where it is false the flag is
    /// turned over: a flag that is set is cleared, and one that is clear is
    /// set.
    pub fn set_friendly_fire(&mut self, value: bool)
        ensures
            final(self).0 == if value {
                with_flag(old(self).0, 0x01)
            } else if flag_is_set(old(self).0, 0x01) {
                without_flag(old(self).0, 0x01)
            } else {
                with_flag(old(self).0, 0x01)
            },
    {
        proof {
            lemma_flag(self.0, 0x01);
        }
        if value {
            self.0 |= 0x01;
        } else {
            self.0 ^= 0x01;
        }
    }

    /// Whether members see each other when invisible.
    pub fn show_invisible_teammates(&self) -> (r: bool)
        ensures
            r == flag_is_set(self.0, 0x02),
    {
        proof {
            lemma_flag(self.0, 0x02);
        }
        self.0 & 0x02 != 0
    }

    /// Sets the flag where `value` is true. Where it is false the flag is
    /// turned over: a flag that is set is cleared, and one that is clear is
    /// set.
    pub fn set_show_invisible_teammates(&mut self, value: bool)
        ensures
            final(self).0 == if value {
                with_flag(old(self).0, 0x02)
            } else if flag_is_set(old(self).0, 0x02) {
                without_flag(old(self).0, 0x02)
            } else {
                with_flag(old(self).0, 0x02)
            },
    {
        proof {
            lemma_flag(self.0, 0x02);
        }
        if value {
            self.0 |= 0x02;
        } else {
            self.0 ^= 0x02;
        }
    }

}

impl Serialize for TeamFriendlyFlags {
    open spec fn serializable(v: TeamFriendlyFlags) -> bool {
        true
    }

    #[verifier::opaque]
    open spec fn encode(v: TeamFriendlyFlags) -> Seq<u8> {
        seq![v.0]
    }

    fn mc_serialize<S: Serializer>(&self, to: &mut S) -> (r: SerializeResult) {
        proof {
            reveal(<TeamFriendlyFlags as Serialize>::encode);
        }
        let r = to.serialize_byte(self.0);
        proof {
            assert(old(to).written().push(self.0) =~= old(to).written() + seq![self.0]);
        }
        r
    }
}

impl Deserialize for TeamFriendlyFlags {
    #[verifier::opaque]
    open spec fn decode(data: Seq<u8>) -> Decoded<TeamFriendlyFlags> {
        if data.len() < 1 {
            Err(DecodeFailure::Eof)
        } else {
            Ok((TeamFriendlyFlags(data[0]), 1))
        }
    }

    fn mc_deserialize(data: &[u8]) -> (r: DeserializeResult<'_, TeamFriendlyFlags>) {
        proof {
            reveal(<TeamFriendlyFlags as Deserialize>::decode);
        }
        proof {
            reveal(<u8 as Deserialize>::decode);
        }
        let Deserialized { value: b, data: rest } = u8::mc_deserialize(data)?;
        Ok(Deserialized { value: TeamFriendlyFlags(b), data: rest })
    }
}

impl ProtocolType for TeamFriendlyFlags {
    open spec fn faithful(v: TeamFriendlyFlags) -> bool {
        true
    }

    open spec fn delimited() -> bool {
        true
    }

    proof fn lemma_round_trip(v: TeamFriendlyFlags, rest: Seq<u8>) {
        reveal(<TeamFriendlyFlags as Serialize>::encode);
        reveal(<TeamFriendlyFlags as Deserialize>::decode);
    }
}

/// Members that join or leave a team.
#[derive(Debug, Clone, PartialEq)]
pub struct TeamActionPlayerList {
    pub entities: CountedArray<TeamMember, VarInt>,
}

/// The mathematical content of a [`TeamActionPlayerList`].
pub struct TeamActionPlayerListView {
    pub entities: <CountedArray<TeamMember, VarInt> as DeepView>::V,
}

impl DeepView for TeamActionPlayerList {
    type V = TeamActionPlayerListView;

    open spec fn deep_view(&self) -> TeamActionPlayerListView {
        TeamActionPlayerListView {
            entities: self.entities.deep_view(),
        }
    }
}

impl Serialize for TeamActionPlayerList {
    open spec fn serializable(v: TeamActionPlayerListView) -> bool {
        <CountedArray<TeamMember, VarInt>>::serializable(v.entities)
    }

    #[verifier::opaque]
    open spec fn encode(v: TeamActionPlayerListView) -> Seq<u8> {
        <CountedArray<TeamMember, VarInt>>::encode(v.entities)
    }

    fn mc_serialize<S: Serializer>(&self, to: &mut S) -> (r: SerializeResult) {
        proof {
            reveal(<TeamActionPlayerList as Serialize>::encode);
        }
        self.entities.mc_serialize(to)?;
        proof {
            assert(to.written() =~= old(to).written() + Self::encode(self.deep_view()));
        }
        Ok(())
    }
}

impl Deserialize for TeamActionPlayerList {
    #[verifier::opaque]
    open spec fn decode(data: Seq<u8>) -> Decoded<TeamActionPlayerListView> {
        match <CountedArray<TeamMember, VarInt>>::decode(data) {
            Err(e) => Err(e),
            Ok((entities, n0)) => Ok((TeamActionPlayerListView { entities }, n0)),
        }
    }

    fn mc_deserialize(data: &[u8]) -> (r: DeserializeResult<'_, TeamActionPlayerList>) {
        proof {
            reveal(<TeamActionPlayerList as Deserialize>::decode);
        }
        let Deserialized { value: entities, data: rest0 } = <CountedArray<TeamMember, VarInt>>::mc_deserialize(data)?;
        Ok(Deserialized { value: TeamActionPlayerList { entities }, data: rest0 })
    }
}

impl ProtocolType for TeamActionPlayerList {
    open spec fn faithful(v: TeamActionPlayerListView) -> bool {
        <CountedArray<TeamMember, VarInt>>::faithful(v.entities)
    }

    open spec fn delimited() -> bool {
        <CountedArray<TeamMember, VarInt>>::delimited()
    }

    proof fn lemma_round_trip(v: TeamActionPlayerListView, rest: Seq<u8>) {
        reveal(<TeamActionPlayerList as Serialize>::encode);
        reveal(<TeamActionPlayerList as Deserialize>::decode);
        let e0 = <CountedArray<TeamMember, VarInt>>::encode(v.entities);
        let data = Self::encode(v) + rest;
        let t1 = rest;
        let t0 = e0 + t1;
        <CountedArray<TeamMember, VarInt>>::lemma_round_trip(v.entities, t1);
        lemma_skip_concat(e0, t1);
    }
}

/// A new team and its first members.
#[derive(Debug, Clone, PartialEq)]
pub struct TeamActionCreateSpec {
    /// The name of the team, as the JSON text of a chat component.
    pub display_name: String,
    pub friendly_flags: TeamFriendlyFlags,
    pub tag_name_visibility: TeamTagNameVisibility,
    pub collision_rule: TeamCollisionRule,
    pub color: VarInt,
    /// What stands in front of a member's name, as the JSON text of a chat component.
    pub prefix: String,
    /// What stands behind a member's name, as the JSON text of a chat component.
    pub suffix: String,
    pub entities: CountedArray<TeamMember, VarInt>,
}

/// The mathematical content of a [`TeamActionCreateSpec`].
pub struct TeamActionCreateSpecView {
    pub display_name: Seq<char>,
    pub friendly_flags: <TeamFriendlyFlags as DeepView>::V,
    pub tag_name_visibility: <TeamTagNameVisibility as DeepView>::V,
    pub collision_rule: <TeamCollisionRule as DeepView>::V,
    pub color: VarInt,
    pub prefix: Seq<char>,
    pub suffix: Seq<char>,
    pub entities: <CountedArray<TeamMember, VarInt> as DeepView>::V,
}

impl DeepView for TeamActionCreateSpec {
    type V = TeamActionCreateSpecView;

    open spec fn deep_view(&self) -> TeamActionCreateSpecView {
        TeamActionCreateSpecView {
            display_name: self.display_name.deep_view(),
            friendly_flags: self.friendly_flags.deep_view(),
            tag_name_visibility: self.tag_name_visibility.deep_view(),
            collision_rule: self.collision_rule.deep_view(),
            color: self.color.deep_view(),
            prefix: self.prefix.deep_view(),
            suffix: self.suffix.deep_view(),
            entities: self.entities.deep_view(),
        }
    }
}

impl Serialize for TeamActionCreateSpec {
    open spec fn serializable(v: TeamActionCreateSpecView) -> bool {
        String::serializable(v.display_name) && TeamFriendlyFlags::serializable(v.friendly_flags) && TeamTagNameVisibility::serializable(v.tag_name_visibility) && TeamCollisionRule::serializable(v.collision_rule) && VarInt::serializable(v.color) && String::serializable(v.prefix) && String::serializable(v.suffix) && <CountedArray<TeamMember, VarInt>>::serializable(v.entities)
    }

    #[verifier::opaque]
    open spec fn encode(v: TeamActionCreateSpecView) -> Seq<u8> {
        String::encode(v.display_name) + TeamFriendlyFlags::encode(v.friendly_flags) + TeamTagNameVisibility::encode(v.tag_name_visibility) + TeamCollisionRule::encode(v.collision_rule) + VarInt::encode(v.color) + String::encode(v.prefix) + String::encode(v.suffix) + <CountedArray<TeamMember, VarInt>>::encode(v.entities)
    }

    fn mc_serialize<S: Serializer>(&self, to: &mut S) -> (r: SerializeResult) {
        proof {
            reveal(<TeamActionCreateSpec as Serialize>::encode);
        }
        self.display_name.mc_serialize(to)?;
        self.friendly_flags.mc_serialize(to)?;
        self.tag_name_visibility.mc_serialize(to)?;
        self.collision_rule.mc_serialize(to)?;
        self.color.mc_serialize(to)?;
        self.prefix.mc_serialize(to)?;
        self.suffix.mc_serialize(to)?;
        self.entities.mc_serialize(to)?;
        proof {
            let v = self.deep_view();
            let w = old(to).written();
            let e0 = String::encode(v.display_name);
            let e1 = TeamFriendlyFlags::encode(v.friendly_flags);
            let e2 = TeamTagNameVisibility::encode(v.tag_name_visibility);
            let e3 = TeamCollisionRule::encode(v.collision_rule);
            let e4 = VarInt::encode(v.color);
            let e5 = String::encode(v.prefix);
            let e6 = String::encode(v.suffix);
            let e7 = <CountedArray<TeamMember, VarInt>>::encode(v.entities);
            let l0 = e0;
            let l1 = l0 + e1;
            let l2 = l1 + e2;
            let l3 = l2 + e3;
            let l4 = l3 + e4;
            let l5 = l4 + e5;
            let l6 = l5 + e6;
            let l7 = l6 + e7;
            lemma_concat_assoc(w, l0, e1);
            lemma_concat_assoc(w, l1, e2);
            lemma_concat_assoc(w, l2, e3);
            lemma_concat_assoc(w, l3, e4);
            lemma_concat_assoc(w, l4, e5);
            lemma_concat_assoc(w, l5, e6);
            lemma_concat_assoc(w, l6, e7);
        }
        Ok(())
    }
}

impl Deserialize for TeamActionCreateSpec {
    #[verifier::opaque]
    open spec fn decode(data: Seq<u8>) -> Decoded<TeamActionCreateSpecView> {
        match String::decode(data) {
            Err(e) => Err(e),
            Ok((display_name, n0)) => {
                match TeamFriendlyFlags::decode(data.skip((n0) as int)) {
                    Err(e) => Err(e),
                    Ok((friendly_flags, n1)) => {
                        match TeamTagNameVisibility::decode(data.skip((n0 + n1) as int)) {
                            Err(e) => Err(e),
                            Ok((tag_name_visibility, n2)) => {
                                match TeamCollisionRule::decode(data.skip((n0 + n1 + n2) as int)) {
                                    Err(e) => Err(e),
                                    Ok((collision_rule, n3)) => {
                                        match VarInt::decode(data.skip((n0 + n1 + n2 + n3) as int)) {
                                            Err(e) => Err(e),
                                            Ok((color, n4)) => {
                                                match String::decode(data.skip((n0 + n1 + n2 + n3 + n4) as int)) {
                                                    Err(e) => Err(e),
                                                    Ok((prefix, n5)) => {
                                                        match String::decode(data.skip((n0 + n1 + n2 + n3 + n4 + n5) as int)) {
                                                            Err(e) => Err(e),
                                                            Ok((suffix, n6)) => {
                                                                match <CountedArray<TeamMember, VarInt>>::decode(data.skip((n0 + n1 + n2 + n3 + n4 + n5 + n6) as int)) {
                                                                    Err(e) => Err(e),
                                                                    Ok((entities, n7)) => Ok((TeamActionCreateSpecView { display_name, friendly_flags, tag_name_visibility, collision_rule, color, prefix, suffix, entities }, n0 + n1 + n2 + n3 + n4 + n5 + n6 + n7)),
                                                                }
                                                            },
                                                        }
                                                    },
                                                }
                                            },
                                        }
                                    },
                                }
                            },
                        }
                    },
                }
            },
        }
    }

    fn mc_deserialize(data: &[u8]) -> (r: DeserializeResult<'_, TeamActionCreateSpec>) {
        proof {
            reveal(<TeamActionCreateSpec as Deserialize>::decode);
        }
        let ghost whole = data@;
        let Deserialized { value: display_name, data: rest0 } = String::mc_deserialize(data)?;
        let Deserialized { value: friendly_flags, data: rest1 } = TeamFriendlyFlags::mc_deserialize(rest0)?;
        proof {
            lemma_skip_skip(
                whole,
                whole.len() - rest0@.len(),
                rest0@.len() - rest1@.len(),
            );
        }
        let Deserialized { value: tag_name_visibility, data: rest2 } = TeamTagNameVisibility::mc_deserialize(rest1)?;
        proof {
            lemma_skip_skip(
                whole,
                whole.len() - rest1@.len(),
                rest1@.len() - rest2@.len(),
            );
        }
        let Deserialized { value: collision_rule, data: rest3 } = TeamCollisionRule::mc_deserialize(rest2)?;
        proof {
            lemma_skip_skip(
                whole,
                whole.len() - rest2@.len(),
                rest2@.len() - rest3@.len(),
            );
        }
        let Deserialized { value: color, data: rest4 } = VarInt::mc_deserialize(rest3)?;
        proof {
            lemma_skip_skip(
                whole,
                whole.len() - rest3@.len(),
                rest3@.len() - rest4@.len(),
            );
        }
        let Deserialized { value: prefix, data: rest5 } = String::mc_deserialize(rest4)?;
        proof {
            lemma_skip_skip(
                whole,
                whole.len() - rest4@.len(),
                rest4@.len() - rest5@.len(),
            );
        }
        let Deserialized { value: suffix, data: rest6 } = String::mc_deserialize(rest5)?;
        proof {
            lemma_skip_skip(
                whole,
                whole.len() - rest5@.len(),
                rest5@.len() - rest6@.len(),
            );
        }
        let Deserialized { value: entities, data: rest7 } = <CountedArray<TeamMember, VarInt>>::mc_deserialize(rest6)?;
        proof {
            lemma_skip_skip(
                whole,
                whole.len() - rest6@.len(),
                rest6@.len() - rest7@.len(),
            );
        }
        Ok(Deserialized { value: TeamActionCreateSpec { display_name, friendly_flags, tag_name_visibility, collision_rule, color, prefix, suffix, entities }, data: rest7 })
    }
}

impl ProtocolType for TeamActionCreateSpec {
    open spec fn faithful(v: TeamActionCreateSpecView) -> bool {
        String::faithful(v.display_name) && TeamFriendlyFlags::faithful(v.friendly_flags) && TeamTagNameVisibility::faithful(v.tag_name_visibility) && TeamCollisionRule::faithful(v.collision_rule) && VarInt::faithful(v.color) && String::faithful(v.prefix) && String::faithful(v.suffix) && <CountedArray<TeamMember, VarInt>>::faithful(v.entities)
    }

    open spec fn delimited() -> bool {
        <CountedArray<TeamMember, VarInt>>::delimited()
    }

    proof fn lemma_round_trip(v: TeamActionCreateSpecView, rest: Seq<u8>) {
        reveal(<TeamActionCreateSpec as Serialize>::encode);
        reveal(<TeamActionCreateSpec as Deserialize>::decode);
        let e0 = String::encode(v.display_name);
        let e1 = TeamFriendlyFlags::encode(v.friendly_flags);
        let e2 = TeamTagNameVisibility::encode(v.tag_name_visibility);
        let e3 = TeamCollisionRule::encode(v.collision_rule);
        let e4 = VarInt::encode(v.color);
        let e5 = String::encode(v.prefix);
        let e6 = String::encode(v.suffix);
        let e7 = <CountedArray<TeamMember, VarInt>>::encode(v.entities);
        let data = Self::encode(v) + rest;
        let t8 = rest;
        let t7 = e7 + t8;
        let t6 = e6 + t7;
        let t5 = e5 + t6;
        let t4 = e4 + t5;
        let t3 = e3 + t4;
        let t2 = e2 + t3;
        let t1 = e1 + t2;
        let t0 = e0 + t1;
        let l0 = e0;
        let l1 = l0 + e1;
        let l2 = l1 + e2;
        let l3 = l2 + e3;
        let l4 = l3 + e4;
        let l5 = l4 + e5;
        let l6 = l5 + e6;
        let l7 = l6 + e7;
        lemma_concat_assoc(l6, e7, t8);
        lemma_concat_assoc(l5, e6, t7);
        lemma_concat_assoc(l4, e5, t6);
        lemma_concat_assoc(l3, e4, t5);
        lemma_concat_assoc(l2, e3, t4);
        lemma_concat_assoc(l1, e2, t3);
        lemma_concat_assoc(l0, e1, t2);
        assert(data == t0);
        String::lemma_round_trip(v.display_name, t1);
        lemma_skip_concat(e0, t1);
        TeamFriendlyFlags::lemma_round_trip(v.friendly_flags, t2);
        lemma_skip_more(data, (e0.len()) as int, e1, t2);
        TeamTagNameVisibility::lemma_round_trip(v.tag_name_visibility, t3);
        lemma_skip_more(data, (e0.len() + e1.len()) as int, e2, t3);
        TeamCollisionRule::lemma_round_trip(v.collision_rule, t4);
        lemma_skip_more(data, (e0.len() + e1.len() + e2.len()) as int, e3, t4);
        VarInt::lemma_round_trip(v.color, t5);
        lemma_skip_more(data, (e0.len() + e1.len() + e2.len() + e3.len()) as int, e4, t5);
        String::lemma_round_trip(v.prefix, t6);
        lemma_skip_more(data, (e0.len() + e1.len() + e2.len() + e3.len() + e4.len()) as int, e5, t6);
        String::lemma_round_trip(v.suffix, t7);
        lemma_skip_more(data, (e0.len() + e1.len() + e2.len() + e3.len() + e4.len() + e5.len()) as int, e6, t7);
        <CountedArray<TeamMember, VarInt>>::lemma_round_trip(v.entities, t8);
        lemma_skip_more(data, (e0.len() + e1.len() + e2.len() + e3.len() + e4.len() + e5.len() + e6.len()) as int, e7, t8);
    }
}

/// What is new about a team.
#[derive(Debug, Clone, PartialEq)]
pub struct TeamActionUpdateInfoSpec {
    /// The name of the team, as the JSON text of a chat component.
    pub display_name: String,
    pub friendly_flags: TeamFriendlyFlags,
    pub tag_name_visibility: TeamTagNameVisibility,
    pub collision_rule: TeamCollisionRule,
    pub color: VarInt,
    /// What stands in front of a member's name, as the JSON text of a chat component.
    pub prefix: String,
    /// What stands behind a member's name, as the JSON text of a chat component.
    pub suffix: String,
}

/// The mathematical content of a [`TeamActionUpdateInfoSpec`].
pub struct TeamActionUpdateInfoSpecView {
    pub display_name: Seq<char>,
    pub friendly_flags: <TeamFriendlyFlags as DeepView>::V,
    pub tag_name_visibility: <TeamTagNameVisibility as DeepView>::V,
    pub collision_rule: <TeamCollisionRule as DeepView>::V,
    pub color: VarInt,
    pub prefix: Seq<char>,
    pub suffix: Seq<char>,
}

impl DeepView for TeamActionUpdateInfoSpec {
    type V = TeamActionUpdateInfoSpecView;

    open spec fn deep_view(&self) -> TeamActionUpdateInfoSpecView {
        TeamActionUpdateInfoSpecView {
            display_name: self.display_name.deep_view(),
            friendly_flags: self.friendly_flags.deep_view(),
            tag_name_visibility: self.tag_name_visibility.deep_view(),
            collision_rule: self.collision_rule.deep_view(),
            color: self.color.deep_view(),
            prefix: self.prefix.deep_view(),
            suffix: self.suffix.deep_view(),
        }
    }
}

impl Serialize for TeamActionUpdateInfoSpec {
    open spec fn serializable(v: TeamActionUpdateInfoSpecView) -> bool {
        String::serializable(v.display_name) && TeamFriendlyFlags::serializable(v.friendly_flags) && TeamTagNameVisibility::serializable(v.tag_name_visibility) && TeamCollisionRule::serializable(v.collision_rule) && VarInt::serializable(v.color) && String::serializable(v.prefix) && String::serializable(v.suffix)
    }

    #[verifier::opaque]
    open spec fn encode(v: TeamActionUpdateInfoSpecView) -> Seq<u8> {
        String::encode(v.display_name) + TeamFriendlyFlags::encode(v.friendly_flags) + TeamTagNameVisibility::encode(v.tag_name_visibility) + TeamCollisionRule::encode(v.collision_rule) + VarInt::encode(v.color) + String::encode(v.prefix) + String::encode(v.suffix)
    }

    fn mc_serialize<S: Serializer>(&self, to: &mut S) -> (r: SerializeResult) {
        proof {
            reveal(<TeamActionUpdateInfoSpec as Serialize>::encode);
        }
        self.display_name.mc_serialize(to)?;
        self.friendly_flags.mc_serialize(to)?;
        self.tag_name_visibility.mc_serialize(to)?;
        self.collision_rule.mc_serialize(to)?;
        self.color.mc_serialize(to)?;
        self.prefix.mc_serialize(to)?;
        self.suffix.mc_serialize(to)?;
        proof {
            let v = self.deep_view();
            let w = old(to).written();
            let e0 = String::encode(v.display_name);
            let e1 = TeamFriendlyFlags::encode(v.friendly_flags);
            let e2 = TeamTagNameVisibility::encode(v.tag_name_visibility);
            let e3 = TeamCollisionRule::encode(v.collision_rule);
            let e4 = VarInt::encode(v.color);
            let e5 = String::encode(v.prefix);
            let e6 = String::encode(v.suffix);
            let l0 = e0;
            let l1 = l0 + e1;
            let l2 = l1 + e2;
            let l3 = l2 + e3;
            let l4 = l3 + e4;
            let l5 = l4 + e5;
            let l6 = l5 + e6;
            lemma_concat_assoc(w, l0, e1);
            lemma_concat_assoc(w, l1, e2);
            lemma_concat_assoc(w, l2, e3);
            lemma_concat_assoc(w, l3, e4);
            lemma_concat_assoc(w, l4, e5);
            lemma_concat_assoc(w, l5, e6);
        }
        Ok(())
    }
}

impl Deserialize for TeamActionUpdateInfoSpec {
    #[verifier::opaque]
    open spec fn decode(data: Seq<u8>) -> Decoded<TeamActionUpdateInfoSpecView> {
        match String::decode(data) {
            Err(e) => Err(e),
            Ok((display_name, n0)) => {
                match TeamFriendlyFlags::decode(data.skip((n0) as int)) {
                    Err(e) => Err(e),
                    Ok((friendly_flags, n1)) => {
                        match TeamTagNameVisibility::decode(data.skip((n0 + n1) as int)) {
                            Err(e) => Err(e),
                            Ok((tag_name_visibility, n2)) => {
                                match TeamCollisionRule::decode(data.skip((n0 + n1 + n2) as int)) {
                                    Err(e) => Err(e),
                                    Ok((collision_rule, n3)) => {
                                        match VarInt::decode(data.skip((n0 + n1 + n2 + n3) as int)) {
                                            Err(e) => Err(e),
                                            Ok((color, n4)) => {
                                                match String::decode(data.skip((n0 + n1 + n2 + n3 + n4) as int)) {
                                                    Err(e) => Err(e),
                                                    Ok((prefix, n5)) => {
                                                        match String::decode(data.skip((n0 + n1 + n2 + n3 + n4 + n5) as int)) {
                                                            Err(e) => Err(e),
                                                            Ok((suffix, n6)) => Ok((TeamActionUpdateInfoSpecView { display_name, friendly_flags, tag_name_visibility, collision_rule, color, prefix, suffix }, n0 + n1 + n2 + n3 + n4 + n5 + n6)),
                                                        }
                                                    },
                                                }
                                            },
                                        }
                                    },
                                }
                            },
                        }
                    },
                }
            },
        }
    }

    fn mc_deserialize(data: &[u8]) -> (r: DeserializeResult<'_, TeamActionUpdateInfoSpec>) {
        proof {
            reveal(<TeamActionUpdateInfoSpec as Deserialize>::decode);
        }
        let ghost whole = data@;
        let Deserialized { value: display_name, data: rest0 } = String::mc_deserialize(data)?;
        let Deserialized { value: friendly_flags, data: rest1 } = TeamFriendlyFlags::mc_deserialize(rest0)?;
        proof {
            lemma_skip_skip(
                whole,
                whole.len() - rest0@.len(),
                rest0@.len() - rest1@.len(),
            );
        }
        let Deserialized { value: tag_name_visibility, data: rest2 } = TeamTagNameVisibility::mc_deserialize(rest1)?;
        proof {
            lemma_skip_skip(
                whole,
                whole.len() - rest1@.len(),
                rest1@.len() - rest2@.len(),
            );
        }
        let Deserialized { value: collision_rule, data: rest3 } = TeamCollisionRule::mc_deserialize(rest2)?;
        proof {
            lemma_skip_skip(
                whole,
                whole.len() - rest2@.len(),
                rest2@.len() - rest3@.len(),
            );
        }
        let Deserialized { value: color, data: rest4 } = VarInt::mc_deserialize(rest3)?;
        proof {
            lemma_skip_skip(
                whole,
                whole.len() - rest3@.len(),
                rest3@.len() - rest4@.len(),
            );
        }
        let Deserialized { value: prefix, data: rest5 } = String::mc_deserialize(rest4)?;
        proof {
            lemma_skip_skip(
                whole,
                whole.len() - rest4@.len(),
                rest4@.len() - rest5@.len(),
            );
        }
        let Deserialized { value: suffix, data: rest6 } = String::mc_deserialize(rest5)?;
        proof {
            lemma_skip_skip(
                whole,
                whole.len() - rest5@.len(),
                rest5@.len() - rest6@.len(),
            );
        }
        Ok(Deserialized { value: TeamActionUpdateInfoSpec { display_name, friendly_flags, tag_name_visibility, collision_rule, color, prefix, suffix }, data: rest6 })
    }
}

impl ProtocolType for TeamActionUpdateInfoSpec {
    open spec fn faithful(v: TeamActionUpdateInfoSpecView) -> bool {
        String::faithful(v.display_name) && TeamFriendlyFlags::faithful(v.friendly_flags) && TeamTagNameVisibility::faithful(v.tag_name_visibility) && TeamCollisionRule::faithful(v.collision_rule) && VarInt::faithful(v.color) && String::faithful(v.prefix) && String::faithful(v.suffix)
    }

    open spec fn delimited() -> bool {
        String::delimited()
    }

    proof fn lemma_round_trip(v: TeamActionUpdateInfoSpecView, rest: Seq<u8>) {
        reveal(<TeamActionUpdateInfoSpec as Serialize>::encode);
        reveal(<TeamActionUpdateInfoSpec as Deserialize>::decode);
        let e0 = String::encode(v.display_name);
        let e1 = TeamFriendlyFlags::encode(v.friendly_flags);
        let e2 = TeamTagNameVisibility::encode(v.tag_name_visibility);
        let e3 = TeamCollisionRule::encode(v.collision_rule);
        let e4 = VarInt::encode(v.color);
        let e5 = String::encode(v.prefix);
        let e6 = String::encode(v.suffix);
        let data = Self::encode(v) + rest;
        let t7 = rest;
        let t6 = e6 + t7;
        let t5 = e5 + t6;
        let t4 = e4 + t5;
        let t3 = e3 + t4;
        let t2 = e2 + t3;
        let t1 = e1 + t2;
        let t0 = e0 + t1;
        let l0 = e0;
        let l1 = l0 + e1;
        let l2 = l1 + e2;
        let l3 = l2 + e3;
        let l4 = l3 + e4;
        let l5 = l4 + e5;
        let l6 = l5 + e6;
        lemma_concat_assoc(l5, e6, t7);
        lemma_concat_assoc(l4, e5, t6);
        lemma_concat_assoc(l3, e4, t5);
        lemma_concat_assoc(l2, e3, t4);
        lemma_concat_assoc(l1, e2, t3);
        lemma_concat_assoc(l0, e1, t2);
        assert(data == t0);
        String::lemma_round_trip(v.display_name, t1);
        lemma_skip_concat(e0, t1);
        TeamFriendlyFlags::lemma_round_trip(v.friendly_flags, t2);
        lemma_skip_more(data, (e0.len()) as int, e1, t2);
        TeamTagNameVisibility::lemma_round_trip(v.tag_name_visibility, t3);
        lemma_skip_more(data, (e0.len() + e1.len()) as int, e2, t3);
        TeamCollisionRule::lemma_round_trip(v.collision_rule, t4);
        lemma_skip_more(data, (e0.len() + e1.len() + e2.len()) as int, e3, t4);
        VarInt::lemma_round_trip(v.color, t5);
        lemma_skip_more(data, (e0.len() + e1.len() + e2.len() + e3.len()) as int, e4, t5);
        String::lemma_round_trip(v.prefix, t6);
        lemma_skip_more(data, (e0.len() + e1.len() + e2.len() + e3.len() + e4.len()) as int, e5, t6);
        String::lemma_round_trip(v.suffix, t7);
        lemma_skip_more(data, (e0.len() + e1.len() + e2.len() + e3.len() + e4.len() + e5.len()) as int, e6, t7);
    }
}

/// What happens to a team.
#[derive(PartialEq, Clone, Debug)]
pub enum TeamAction {
    Create(TeamActionCreateSpec),
    Remove,
    UpdateInfo(TeamActionUpdateInfoSpec),
    AddPlayers(TeamActionPlayerList),
    RemovePlayers(TeamActionPlayerList),
}

/// The mathematical content of a [`TeamAction`].
pub enum TeamActionView {
    Create(<TeamActionCreateSpec as DeepView>::V),
    Remove,
    UpdateInfo(<TeamActionUpdateInfoSpec as DeepView>::V),
    AddPlayers(<TeamActionPlayerList as DeepView>::V),
    RemovePlayers(<TeamActionPlayerList as DeepView>::V),
}

impl DeepView for TeamAction {
    type V = TeamActionView;

    open spec fn deep_view(&self) -> TeamActionView {
        match self {
            TeamAction::Create(body) => TeamActionView::Create(body.deep_view()),
            TeamAction::Remove => TeamActionView::Remove,
            TeamAction::UpdateInfo(body) => TeamActionView::UpdateInfo(body.deep_view()),
            TeamAction::AddPlayers(body) => TeamActionView::AddPlayers(body.deep_view()),
            TeamAction::RemovePlayers(body) => TeamActionView::RemovePlayers(body.deep_view()),
        }
    }
}

impl TeamAction {
    pub fn variant_count() -> (r: usize)
        ensures
            r == 5,
    {
        5
    }

    /// The number that stands for the variant on the wire.
    pub open spec fn id_of(v: TeamActionView) -> u8 {
        match v {
            TeamActionView::Create(_) => 0x00,
            TeamActionView::Remove => 0x01,
            TeamActionView::UpdateInfo(_) => 0x02,
            TeamActionView::AddPlayers(_) => 0x03,
            TeamActionView::RemovePlayers(_) => 0x04,
        }
    }

    pub fn id(&self) -> (r: u8)
        ensures
            r == Self::id_of(self.deep_view()),
    {
        match self {
            TeamAction::Create(_) => 0x00,
            TeamAction::Remove => 0x01,
            TeamAction::UpdateInfo(_) => 0x02,
            TeamAction::AddPlayers(_) => 0x03,
            TeamAction::RemovePlayers(_) => 0x04,
        }
    }

    pub open spec fn name_of(v: TeamActionView) -> Seq<char> {
        match v {
            TeamActionView::Create(_) => "Create"@,
            TeamActionView::Remove => "Remove"@,
            TeamActionView::UpdateInfo(_) => "UpdateInfo"@,
            TeamActionView::AddPlayers(_) => "AddPlayers"@,
            TeamActionView::RemovePlayers(_) => "RemovePlayers"@,
        }
    }

    pub fn name(&self) -> (r: &'static str)
        ensures
            r@ == Self::name_of(self.deep_view()),
    {
        match self {
            TeamAction::Create(_) => "Create",
            TeamAction::Remove => "Remove",
            TeamAction::UpdateInfo(_) => "UpdateInfo",
            TeamAction::AddPlayers(_) => "AddPlayers",
            TeamAction::RemovePlayers(_) => "RemovePlayers",
        }
    }

    /// The bytes that follow the number.
    pub open spec fn body_of(v: TeamActionView) -> Seq<u8> {
        match v {
            TeamActionView::Create(body) => <TeamActionCreateSpec>::encode(body),
            TeamActionView::Remove => Seq::empty(),
            TeamActionView::UpdateInfo(body) => <TeamActionUpdateInfoSpec>::encode(body),
            TeamActionView::AddPlayers(body) => <TeamActionPlayerList>::encode(body),
            TeamActionView::RemovePlayers(body) => <TeamActionPlayerList>::encode(body),
        }
    }

    /// Whether what follows the number can be written.
    pub open spec fn body_writable(v: TeamActionView) -> bool {
        match v {
            TeamActionView::Create(body) => <TeamActionCreateSpec>::serializable(body),
            TeamActionView::Remove => true,
            TeamActionView::UpdateInfo(body) => <TeamActionUpdateInfoSpec>::serializable(body),
            TeamActionView::AddPlayers(body) => <TeamActionPlayerList>::serializable(body),
            TeamActionView::RemovePlayers(body) => <TeamActionPlayerList>::serializable(body),
        }
    }

    /// The variant that `id` stands for, with its body read from `data`.
    pub open spec fn decode_with_id(id: u8, data: Seq<u8>) -> Decoded<TeamActionView> {
        if id == 0x00 {
            match <TeamActionCreateSpec>::decode(data) {
                Ok((body, n)) => Ok((TeamActionView::Create(body), n)),
                Err(e) => Err(e),
            }
        } else if id == 0x01 {
            Ok((TeamActionView::Remove, 0))
        } else if id == 0x02 {
            match <TeamActionUpdateInfoSpec>::decode(data) {
                Ok((body, n)) => Ok((TeamActionView::UpdateInfo(body), n)),
                Err(e) => Err(e),
            }
        } else if id == 0x03 {
            match <TeamActionPlayerList>::decode(data) {
                Ok((body, n)) => Ok((TeamActionView::AddPlayers(body), n)),
                Err(e) => Err(e),
            }
        } else if id == 0x04 {
            match <TeamActionPlayerList>::decode(data) {
                Ok((body, n)) => Ok((TeamActionView::RemovePlayers(body), n)),
                Err(e) => Err(e),
            }
        } else {
            Err(DecodeFailure::CannotUnderstandValue)
        }
    }

    /// Whether `id` stands for a variant.
    pub open spec fn has_id(id: u8) -> bool {
        id == 0x00
            || id == 0x01
            || id == 0x02
            || id == 0x03
            || id == 0x04
    }

    /// Picks the variant for `id` and reads its body from `data`. A number
    /// that stands for no variant is refused, and the error says which.
    pub fn deserialize_with_id<'a>(id: u8, data: &'a [u8]) -> (r: DeserializeResult<'a, Self>)
        ensures
            agrees(r, data@, Self::decode_with_id(id, data@)),
            !Self::has_id(id) ==> (r matches Err(DeserializeErr::CannotUnderstandValue(m))
                && m@ == invalid_message("TeamAction"@, id as nat)),
    {
        proof {
            assert(data@.skip(0) =~= data@);
        }
        match id {
            0x00 => {
                let Deserialized { value: body, data: rest } = <TeamActionCreateSpec>::mc_deserialize(data)?;
                Ok(Deserialized { value: TeamAction::Create(body), data: rest })
            },
            0x01 => Ok(Deserialized { value: TeamAction::Remove, data }),
            0x02 => {
                let Deserialized { value: body, data: rest } = <TeamActionUpdateInfoSpec>::mc_deserialize(data)?;
                Ok(Deserialized { value: TeamAction::UpdateInfo(body), data: rest })
            },
            0x03 => {
                let Deserialized { value: body, data: rest } = <TeamActionPlayerList>::mc_deserialize(data)?;
                Ok(Deserialized { value: TeamAction::AddPlayers(body), data: rest })
            },
            0x04 => {
                let Deserialized { value: body, data: rest } = <TeamActionPlayerList>::mc_deserialize(data)?;
                Ok(Deserialized { value: TeamAction::RemovePlayers(body), data: rest })
            },
            other => Err(DeserializeErr::CannotUnderstandValue(invalid_value_message("TeamAction", other as u64))),
        }
    }

    /// Writes what follows the number.
    pub fn serialize_body<S: Serializer>(&self, to: &mut S) -> (r: SerializeResult)
        ensures
            r is Ok ==> Self::body_writable(self.deep_view()) && final(to).written() == old(
                to,
            ).written() + Self::body_of(self.deep_view()),
            old(to).infallible() ==> final(to).infallible(),
            old(to).infallible() ==> (r is Ok <==> Self::body_writable(self.deep_view())),
            old(to).infallible() && r is Err ==> (r matches Err(SerializeErr::CannotSerialize(_))),
    {
        match self {
            TeamAction::Create(bod) => bod.mc_serialize(to),
            TeamAction::Remove => {
                proof {
                    assert(old(to).written() + Seq::<u8>::empty() =~= old(to).written());
                }
                Ok(())
            },
            TeamAction::UpdateInfo(bod) => bod.mc_serialize(to),
            TeamAction::AddPlayers(bod) => bod.mc_serialize(to),
            TeamAction::RemovePlayers(bod) => bod.mc_serialize(to),
        }
    }
}

impl Serialize for TeamAction {
    open spec fn serializable(v: TeamActionView) -> bool {
        Self::body_writable(v)
    }

    #[verifier::opaque]
    open spec fn encode(v: TeamActionView) -> Seq<u8> {
        <u8>::encode(Self::id_of(v)) + Self::body_of(v)
    }

    fn mc_serialize<S: Serializer>(&self, to: &mut S) -> (r: SerializeResult) {
        proof {
            reveal(<TeamAction as Serialize>::encode);
        }
        let id_to_serialize: u8 = self.id();
        id_to_serialize.mc_serialize(to)?;
        let r = self.serialize_body(to);
        proof {
            let head = <u8>::encode(Self::id_of(self.deep_view()));
            let body = Self::body_of(self.deep_view());
            lemma_concat_assoc(old(to).written(), head, body);
        }
        r
    }
}

impl Deserialize for TeamAction {
    #[verifier::opaque]
    open spec fn decode(data: Seq<u8>) -> Decoded<TeamActionView> {
        match <u8>::decode(data) {
            Err(e) => Err(e),
            Ok((id, n)) => match Self::decode_with_id(id, data.skip(n as int)) {
                Ok((v, m)) => Ok((v, n + m)),
                Err(e) => Err(e),
            },
        }
    }

    fn mc_deserialize(data: &[u8]) -> (r: DeserializeResult<'_, TeamAction>) {
        proof {
            reveal(<TeamAction as Deserialize>::decode);
        }
        let Deserialized { value: id, data: rest } = <u8>::mc_deserialize(data)?;
        let Deserialized { value, data: after } = Self::deserialize_with_id(id, rest)?;
        proof {
            lemma_skip_skip(data@, data@.len() - rest@.len(), rest@.len() - after@.len());
        }
        Ok(Deserialized { value, data: after })
    }
}

impl ProtocolType for TeamAction {
    open spec fn faithful(v: TeamActionView) -> bool {
        match v {
            TeamActionView::Create(body) => <TeamActionCreateSpec>::faithful(body),
            TeamActionView::Remove => true,
            TeamActionView::UpdateInfo(body) => <TeamActionUpdateInfoSpec>::faithful(body),
            TeamActionView::AddPlayers(body) => <TeamActionPlayerList>::faithful(body),
            TeamActionView::RemovePlayers(body) => <TeamActionPlayerList>::faithful(body),
        }
    }

    open spec fn delimited() -> bool {
        <TeamActionCreateSpec>::delimited() && <TeamActionPlayerList>::delimited() && <TeamActionUpdateInfoSpec>::delimited()
    }

    proof fn lemma_round_trip(v: TeamActionView, rest: Seq<u8>) {
        reveal(<TeamAction as Serialize>::encode);
        reveal(<TeamAction as Deserialize>::decode);
        let head = <u8>::encode(Self::id_of(v));
        let body = Self::body_of(v);
        <u8>::lemma_round_trip(Self::id_of(v), body + rest);
        Self::lemma_body_round_trip(v, rest);
        lemma_concat_assoc(head, body, rest);
        lemma_skip_concat(head, body + rest);
    }
}

impl TeamAction {
    /// What follows the number, written out and followed by anything, reads
    /// back under that number.
    pub proof fn lemma_body_round_trip(v: TeamActionView, rest: Seq<u8>)
        requires
            <Self as ProtocolType>::faithful(v),
            <Self as ProtocolType>::delimited() || rest.len() == 0,
        ensures
            Self::body_writable(v),
            Self::decode_with_id(Self::id_of(v), Self::body_of(v) + rest) == Ok::<_, DecodeFailure>(
                (v, Self::body_of(v).len()),
            ),
    {
        match v {
            TeamActionView::Create(body) => {
                <TeamActionCreateSpec>::lemma_round_trip(body, rest);
            },
            TeamActionView::Remove => {
                assert(Seq::<u8>::empty() + rest =~= rest);
            },
            TeamActionView::UpdateInfo(body) => {
                <TeamActionUpdateInfoSpec>::lemma_round_trip(body, rest);
            },
            TeamActionView::AddPlayers(body) => {
                <TeamActionPlayerList>::lemma_round_trip(body, rest);
            },
            TeamActionView::RemovePlayers(body) => {
                <TeamActionPlayerList>::lemma_round_trip(body, rest);
            },
        }
    }
}

/// The end of a fight.
#[derive(Debug, Clone, PartialEq)]
pub struct CombatEndSpec {
    pub duration_ticks: VarInt,
    pub entity_id: i32,
}

/// The mathematical content of a [`CombatEndSpec`].
pub struct CombatEndSpecView {
    pub duration_ticks: VarInt,
    pub entity_id: i32,
}

impl DeepView for CombatEndSpec {
    type V = CombatEndSpecView;

    open spec fn deep_view(&self) -> CombatEndSpecView {
        CombatEndSpecView {
            duration_ticks: self.duration_ticks.deep_view(),
            entity_id: self.entity_id.deep_view(),
        }
    }
}

impl Serialize for CombatEndSpec {
    open spec fn serializable(v: CombatEndSpecView) -> bool {
        VarInt::serializable(v.duration_ticks) && i32::serializable(v.entity_id)
    }

    #[verifier::opaque]
    open spec fn encode(v: CombatEndSpecView) -> Seq<u8> {
        VarInt::encode(v.duration_ticks) + i32::encode(v.entity_id)
    }

    fn mc_serialize<S: Serializer>(&self, to: &mut S) -> (r: SerializeResult) {
        proof {
            reveal(<CombatEndSpec as Serialize>::encode);
        }
        self.duration_ticks.mc_serialize(to)?;
        self.entity_id.mc_serialize(to)?;
        proof {
            assert(to.written() =~= old(to).written() + Self::encode(self.deep_view()));
        }
        Ok(())
    }
}

impl Deserialize for CombatEndSpec {
    #[verifier::opaque]
    open spec fn decode(data: Seq<u8>) -> Decoded<CombatEndSpecView> {
        match VarInt::decode(data) {
            Err(e) => Err(e),
            Ok((duration_ticks, n0)) => {
                match i32::decode(data.skip((n0) as int)) {
                    Err(e) => Err(e),
                    Ok((entity_id, n1)) => Ok((CombatEndSpecView { duration_ticks, entity_id }, n0 + n1)),
                }
            },
        }
    }

    fn mc_deserialize(data: &[u8]) -> (r: DeserializeResult<'_, CombatEndSpec>) {
        proof {
            reveal(<CombatEndSpec as Deserialize>::decode);
        }
        let ghost whole = data@;
        let Deserialized { value: duration_ticks, data: rest0 } = VarInt::mc_deserialize(data)?;
        let Deserialized { value: entity_id, data: rest1 } = i32::mc_deserialize(rest0)?;
        proof {
            lemma_skip_skip(
                whole,
                whole.len() - rest0@.len(),
                rest0@.len() - rest1@.len(),
            );
        }
        Ok(Deserialized { value: CombatEndSpec { duration_ticks, entity_id }, data: rest1 })
    }
}

impl ProtocolType for CombatEndSpec {
    open spec fn faithful(v: CombatEndSpecView) -> bool {
        VarInt::faithful(v.duration_ticks) && i32::faithful(v.entity_id)
    }

    open spec fn delimited() -> bool {
        i32::delimited()
    }

    proof fn lemma_round_trip(v: CombatEndSpecView, rest: Seq<u8>) {
        reveal(<CombatEndSpec as Serialize>::encode);
        reveal(<CombatEndSpec as Deserialize>::decode);
        let e0 = VarInt::encode(v.duration_ticks);
        let e1 = i32::encode(v.entity_id);
        let data = Self::encode(v) + rest;
        let t2 = rest;
        let t1 = e1 + t2;
        let t0 = e0 + t1;
        let l0 = e0;
        let l1 = l0 + e1;
        lemma_concat_assoc(l0, e1, t2);
        assert(data == t0);
        VarInt::lemma_round_trip(v.duration_ticks, t1);
        lemma_skip_concat(e0, t1);
        i32::lemma_round_trip(v.entity_id, t2);
        lemma_skip_more(data, (e0.len()) as int, e1, t2);
    }
}

/// A death in a fight.
#[derive(Debug, Clone, PartialEq)]
pub struct CombatEntityDeadSpec {
    pub player_id: VarInt,
    pub entity_id: i32,
    /// The death message, as the JSON text of a chat component.
    pub message: String,
}

/// The mathematical content of a [`CombatEntityDeadSpec`].
pub struct CombatEntityDeadSpecView {
    pub player_id: VarInt,
    pub entity_id: i32,
    pub message: Seq<char>,
}

impl DeepView for CombatEntityDeadSpec {
    type V = CombatEntityDeadSpecView;

    open spec fn deep_view(&self) -> CombatEntityDeadSpecView {
        CombatEntityDeadSpecView {
            player_id: self.player_id.deep_view(),
            entity_id: self.entity_id.deep_view(),
            message: self.message.deep_view(),
        }
    }
}

impl Serialize for CombatEntityDeadSpec {
    open spec fn serializable(v: CombatEntityDeadSpecView) -> bool {
        VarInt::serializable(v.player_id) && i32::serializable(v.entity_id) && String::serializable(v.message)
    }

    #[verifier::opaque]
    open spec fn encode(v: CombatEntityDeadSpecView) -> Seq<u8> {
        VarInt::encode(v.player_id) + i32::encode(v.entity_id) + String::encode(v.message)
    }

    fn mc_serialize<S: Serializer>(&self, to: &mut S) -> (r: SerializeResult) {
        proof {
            reveal(<CombatEntityDeadSpec as Serialize>::encode);
        }
        self.player_id.mc_serialize(to)?;
        self.entity_id.mc_serialize(to)?;
        self.message.mc_serialize(to)?;
        proof {
            let v = self.deep_view();
            let w = old(to).written();
            let e0 = VarInt::encode(v.player_id);
            let e1 = i32::encode(v.entity_id);
            let e2 = String::encode(v.message);
            let l0 = e0;
            let l1 = l0 + e1;
            let l2 = l1 + e2;
            lemma_concat_assoc(w, l0, e1);
            lemma_concat_assoc(w, l1, e2);
        }
        Ok(())
    }
}

impl Deserialize for CombatEntityDeadSpec {
    #[verifier::opaque]
    open spec fn decode(data: Seq<u8>) -> Decoded<CombatEntityDeadSpecView> {
        match VarInt::decode(data) {
            Err(e) => Err(e),
            Ok((player_id, n0)) => {
                match i32::decode(data.skip((n0) as int)) {
                    Err(e) => Err(e),
                    Ok((entity_id, n1)) => {
                        match String::decode(data.skip((n0 + n1) as int)) {
                            Err(e) => Err(e),
                            Ok((message, n2)) => Ok((CombatEntityDeadSpecView { player_id, entity_id, message }, n0 + n1 + n2)),
                        }
                    },
                }
            },
        }
    }

    fn mc_deserialize(data: &[u8]) -> (r: DeserializeResult<'_, CombatEntityDeadSpec>) {
        proof {
            reveal(<CombatEntityDeadSpec as Deserialize>::decode);
        }
        let ghost whole = data@;
        let Deserialized { value: player_id, data: rest0 } = VarInt::mc_deserialize(data)?;
        let Deserialized { value: entity_id, data: rest1 } = i32::mc_deserialize(rest0)?;
        proof {
            lemma_skip_skip(
                whole,
                whole.len() - rest0@.len(),
                rest0@.len() - rest1@.len(),
            );
        }
        let Deserialized { value: message, data: rest2 } = String::mc_deserialize(rest1)?;
        proof {
            lemma_skip_skip(
                whole,
                whole.len() - rest1@.len(),
                rest1@.len() - rest2@.len(),
            );
        }
        Ok(Deserialized { value: CombatEntityDeadSpec { player_id, entity_id, message }, data: rest2 })
    }
}

impl ProtocolType for CombatEntityDeadSpec {
    open spec fn faithful(v: CombatEntityDeadSpecView) -> bool {
        VarInt::faithful(v.player_id) && i32::faithful(v.entity_id) && String::faithful(v.message)
    }

    open spec fn delimited() -> bool {
        String::delimited()
    }

    proof fn lemma_round_trip(v: CombatEntityDeadSpecView, rest: Seq<u8>) {
        reveal(<CombatEntityDeadSpec as Serialize>::encode);
        reveal(<CombatEntityDeadSpec as Deserialize>::decode);
        let e0 = VarInt::encode(v.player_id);
        let e1 = i32::encode(v.entity_id);
        let e2 = String::encode(v.message);
        let data = Self::encode(v) + rest;
        let t3 = rest;
        let t2 = e2 + t3;
        let t1 = e1 + t2;
        let t0 = e0 + t1;
        let l0 = e0;
        let l1 = l0 + e1;
        let l2 = l1 + e2;
        lemma_concat_assoc(l1, e2, t3);
        lemma_concat_assoc(l0, e1, t2);
        assert(data == t0);
        VarInt::lemma_round_trip(v.player_id, t1);
        lemma_skip_concat(e0, t1);
        i32::lemma_round_trip(v.entity_id, t2);
        lemma_skip_more(data, (e0.len()) as int, e1, t2);
        String::lemma_round_trip(v.message, t3);
        lemma_skip_more(data, (e0.len() + e1.len()) as int, e2, t3);
    }
}

/// A turn in a fight.
#[derive(PartialEq, Clone, Debug)]
pub enum CombatEvent {
    Enter,
    End(CombatEndSpec),
    EntityDead(CombatEntityDeadSpec),
}

/// The mathematical content of a [`CombatEvent`].
pub enum CombatEventView {
    Enter,
    End(<CombatEndSpec as DeepView>::V),
    EntityDead(<CombatEntityDeadSpec as DeepView>::V),
}

impl DeepView for CombatEvent {
    type V = CombatEventView;

    open spec fn deep_view(&self) -> CombatEventView {
        match self {
            CombatEvent::Enter => CombatEventView::Enter,
            CombatEvent::End(body) => CombatEventView::End(body.deep_view()),
            CombatEvent::EntityDead(body) => CombatEventView::EntityDead(body.deep_view()),
        }
    }
}

impl CombatEvent {
    pub fn variant_count() -> (r: usize)
        ensures
            r == 3,
    {
        3
    }

    /// The number that stands for the variant on the wire.
    pub open spec fn id_of(v: CombatEventView) -> i32 {
        match v {
            CombatEventView::Enter => 0x00,
            CombatEventView::End(_) => 0x01,
            CombatEventView::EntityDead(_) => 0x02,
        }
    }

    pub fn id(&self) -> (r: VarInt)
        ensures
            r == VarInt(Self::id_of(self.deep_view())),
    {
        match self {
            CombatEvent::Enter => VarInt(0x00),
            CombatEvent::End(_) => VarInt(0x01),
            CombatEvent::EntityDead(_) => VarInt(0x02),
        }
    }

    pub open spec fn name_of(v: CombatEventView) -> Seq<char> {
        match v {
            CombatEventView::Enter => "Enter"@,
            CombatEventView::End(_) => "End"@,
            CombatEventView::EntityDead(_) => "EntityDead"@,
        }
    }

    pub fn name(&self) -> (r: &'static str)
        ensures
            r@ == Self::name_of(self.deep_view()),
    {
        match self {
            CombatEvent::Enter => "Enter",
            CombatEvent::End(_) => "End",
            CombatEvent::EntityDead(_) => "EntityDead",
        }
    }

    /// The bytes that follow the number.
    pub open spec fn body_of(v: CombatEventView) -> Seq<u8> {
        match v {
            CombatEventView::Enter => Seq::empty(),
            CombatEventView::End(body) => <CombatEndSpec>::encode(body),
            CombatEventView::EntityDead(body) => <CombatEntityDeadSpec>::encode(body),
        }
    }

    /// Whether what follows the number can be written.
    pub open spec fn body_writable(v: CombatEventView) -> bool {
        match v {
            CombatEventView::Enter => true,
            CombatEventView::End(body) => <CombatEndSpec>::serializable(body),
            CombatEventView::EntityDead(body) => <CombatEntityDeadSpec>::serializable(body),
        }
    }

    /// The variant that `id` stands for, with its body read from `data`.
    pub open spec fn decode_with_id(id: i32, data: Seq<u8>) -> Decoded<CombatEventView> {
        if id == 0x00 {
            Ok((CombatEventView::Enter, 0))
        } else if id == 0x01 {
            match <CombatEndSpec>::decode(data) {
                Ok((body, n)) => Ok((CombatEventView::End(body), n)),
                Err(e) => Err(e),
            }
        } else if id == 0x02 {
            match <CombatEntityDeadSpec>::decode(data) {
                Ok((body, n)) => Ok((CombatEventView::EntityDead(body), n)),
                Err(e) => Err(e),
            }
        } else {
            Err(DecodeFailure::CannotUnderstandValue)
        }
    }

    /// Whether `id` stands for a variant.
    pub open spec fn has_id(id: i32) -> bool {
        id == 0x00
            || id == 0x01
            || id == 0x02
    }

    /// Picks the variant for `id` and reads its body from `data`. A number
    /// that stands for no variant is refused, and the error says which.
    pub fn deserialize_with_id<'a>(id: VarInt, data: &'a [u8]) -> (r: DeserializeResult<'a, Self>)
        ensures
            agrees(r, data@, Self::decode_with_id(id.0, data@)),
            !Self::has_id(id.0) ==> (r matches Err(DeserializeErr::CannotUnderstandValue(m))
                && m@ == invalid_int_text("CombatEvent"@, id.0 as int)),
    {
        proof {
            assert(data@.skip(0) =~= data@);
        }
        match id.0 {
            0x00 => Ok(Deserialized { value: CombatEvent::Enter, data }),
            0x01 => {
                let Deserialized { value: body, data: rest } = <CombatEndSpec>::mc_deserialize(data)?;
                Ok(Deserialized { value: CombatEvent::End(body), data: rest })
            },
            0x02 => {
                let Deserialized { value: body, data: rest } = <CombatEntityDeadSpec>::mc_deserialize(data)?;
                Ok(Deserialized { value: CombatEvent::EntityDead(body), data: rest })
            },
            other => Err(DeserializeErr::CannotUnderstandValue(invalid_int_message("CombatEvent", other))),
        }
    }

    /// Writes what follows the number.
    pub fn serialize_body<S: Serializer>(&self, to: &mut S) -> (r: SerializeResult)
        ensures
            r is Ok ==> Self::body_writable(self.deep_view()) && final(to).written() == old(
                to,
            ).written() + Self::body_of(self.deep_view()),
            old(to).infallible() ==> final(to).infallible(),
            old(to).infallible() ==> (r is Ok <==> Self::body_writable(self.deep_view())),
            old(to).infallible() && r is Err ==> (r matches Err(SerializeErr::CannotSerialize(_))),
    {
        match self {
            CombatEvent::Enter => {
                proof {
                    assert(old(to).written() + Seq::<u8>::empty() =~= old(to).written());
                }
                Ok(())
            },
            CombatEvent::End(bod) => bod.mc_serialize(to),
            CombatEvent::EntityDead(bod) => bod.mc_serialize(to),
        }
    }
}

impl Serialize for CombatEvent {
    open spec fn serializable(v: CombatEventView) -> bool {
        Self::body_writable(v)
    }

    #[verifier::opaque]
    open spec fn encode(v: CombatEventView) -> Seq<u8> {
        <VarInt>::encode(VarInt(Self::id_of(v))) + Self::body_of(v)
    }

    fn mc_serialize<S: Serializer>(&self, to: &mut S) -> (r: SerializeResult) {
        proof {
            reveal(<CombatEvent as Serialize>::encode);
        }
        let id_to_serialize: VarInt = self.id();
        id_to_serialize.mc_serialize(to)?;
        let r = self.serialize_body(to);
        proof {
            let head = <VarInt>::encode(VarInt(Self::id_of(self.deep_view())));
            let body = Self::body_of(self.deep_view());
            lemma_concat_assoc(old(to).written(), head, body);
        }
        r
    }
}

impl Deserialize for CombatEvent {
    #[verifier::opaque]
    open spec fn decode(data: Seq<u8>) -> Decoded<CombatEventView> {
        match <VarInt>::decode(data) {
            Err(e) => Err(e),
            Ok((id, n)) => match Self::decode_with_id(id.0, data.skip(n as int)) {
                Ok((v, m)) => Ok((v, n + m)),
                Err(e) => Err(e),
            },
        }
    }

    fn mc_deserialize(data: &[u8]) -> (r: DeserializeResult<'_, CombatEvent>) {
        proof {
            reveal(<CombatEvent as Deserialize>::decode);
        }
        let Deserialized { value: id, data: rest } = <VarInt>::mc_deserialize(data)?;
        let Deserialized { value, data: after } = Self::deserialize_with_id(id, rest)?;
        proof {
            lemma_skip_skip(data@, data@.len() - rest@.len(), rest@.len() - after@.len());
        }
        Ok(Deserialized { value, data: after })
    }
}

impl ProtocolType for CombatEvent {
    open spec fn faithful(v: CombatEventView) -> bool {
        match v {
            CombatEventView::Enter => true,
            CombatEventView::End(body) => <CombatEndSpec>::faithful(body),
            CombatEventView::EntityDead(body) => <CombatEntityDeadSpec>::faithful(body),
        }
    }

    open spec fn delimited() -> bool {
        <CombatEndSpec>::delimited() && <CombatEntityDeadSpec>::delimited()
    }

    proof fn lemma_round_trip(v: CombatEventView, rest: Seq<u8>) {
        reveal(<CombatEvent as Serialize>::encode);
        reveal(<CombatEvent as Deserialize>::decode);
        let head = <VarInt>::encode(VarInt(Self::id_of(v)));
        let body = Self::body_of(v);
        <VarInt>::lemma_round_trip(VarInt(Self::id_of(v)), body + rest);
        Self::lemma_body_round_trip(v, rest);
        lemma_concat_assoc(head, body, rest);
        lemma_skip_concat(head, body + rest);
    }
}

impl CombatEvent {
    /// What follows the number, written out and followed by anything, reads
    /// back under that number.
    pub proof fn lemma_body_round_trip(v: CombatEventView, rest: Seq<u8>)
        requires
            <Self as ProtocolType>::faithful(v),
            <Self as ProtocolType>::delimited() || rest.len() == 0,
        ensures
            Self::body_writable(v),
            Self::decode_with_id(Self::id_of(v), Self::body_of(v) + rest) == Ok::<_, DecodeFailure>(
                (v, Self::body_of(v).len()),
            ),
    {
        match v {
            CombatEventView::Enter => {
                assert(Seq::<u8>::empty() + rest =~= rest);
            },
            CombatEventView::End(body) => {
                <CombatEndSpec>::lemma_round_trip(body, rest);
            },
            CombatEventView::EntityDead(body) => {
                <CombatEntityDeadSpec>::lemma_round_trip(body, rest);
            },
        }
    }
}

/// The new size of the world border.
#[derive(Debug, Clone, PartialEq)]
pub struct WorldBorderSetSizeSpec {
    /// The width, as the bit pattern of a 64-bit float.
    pub diameter: u64,
}

/// The mathematical content of a [`WorldBorderSetSizeSpec`].
pub struct WorldBorderSetSizeSpecView {
    pub diameter: u64,
}

impl DeepView for WorldBorderSetSizeSpec {
    type V = WorldBorderSetSizeSpecView;

    open spec fn deep_view(&self) -> WorldBorderSetSizeSpecView {
        WorldBorderSetSizeSpecView {
            diameter: self.diameter.deep_view(),
        }
    }
}

impl Serialize for WorldBorderSetSizeSpec {
    open spec fn serializable(v: WorldBorderSetSizeSpecView) -> bool {
        u64::serializable(v.diameter)
    }

    #[verifier::opaque]
    open spec fn encode(v: WorldBorderSetSizeSpecView) -> Seq<u8> {
        u64::encode(v.diameter)
    }

    fn mc_serialize<S: Serializer>(&self, to: &mut S) -> (r: SerializeResult) {
        proof {
            reveal(<WorldBorderSetSizeSpec as Serialize>::encode);
        }
        self.diameter.mc_serialize(to)?;
        proof {
            assert(to.written() =~= old(to).written() + Self::encode(self.deep_view()));
        }
        Ok(())
    }
}

impl Deserialize for WorldBorderSetSizeSpec {
    #[verifier::opaque]
    open spec fn decode(data: Seq<u8>) -> Decoded<WorldBorderSetSizeSpecView> {
        match u64::decode(data) {
            Err(e) => Err(e),
            Ok((diameter, n0)) => Ok((WorldBorderSetSizeSpecView { diameter }, n0)),
        }
    }

    fn mc_deserialize(data: &[u8]) -> (r: DeserializeResult<'_, WorldBorderSetSizeSpec>) {
        proof {
            reveal(<WorldBorderSetSizeSpec as Deserialize>::decode);
        }
        let Deserialized { value: diameter, data: rest0 } = u64::mc_deserialize(data)?;
        Ok(Deserialized { value: WorldBorderSetSizeSpec { diameter }, data: rest0 })
    }
}

impl ProtocolType for WorldBorderSetSizeSpec {
    open spec fn faithful(v: WorldBorderSetSizeSpecView) -> bool {
        u64::faithful(v.diameter)
    }

    open spec fn delimited() -> bool {
        u64::delimited()
    }

    proof fn lemma_round_trip(v: WorldBorderSetSizeSpecView, rest: Seq<u8>) {
        reveal(<WorldBorderSetSizeSpec as Serialize>::encode);
        reveal(<WorldBorderSetSizeSpec as Deserialize>::decode);
        let e0 = u64::encode(v.diameter);
        let data = Self::encode(v) + rest;
        let t1 = rest;
        let t0 = e0 + t1;
        u64::lemma_round_trip(v.diameter, t1);
        lemma_skip_concat(e0, t1);
    }
}

/// A change of the world border's size over time.
#[derive(Debug, Clone, PartialEq)]
pub struct WorldBorderLerpSizeSpec {
    /// The width to start from, as the bit pattern of a 64-bit float.
    pub old_diameter: u64,
    /// The width to arrive at, as the bit pattern of a 64-bit float.
    pub new_diameter: u64,
    pub speed: VarLong,
}

/// The mathematical content of a [`WorldBorderLerpSizeSpec`].
pub struct WorldBorderLerpSizeSpecView {
    pub old_diameter: u64,
    pub new_diameter: u64,
    pub speed: VarLong,
}

impl DeepView for WorldBorderLerpSizeSpec {
    type V = WorldBorderLerpSizeSpecView;

    open spec fn deep_view(&self) -> WorldBorderLerpSizeSpecView {
        WorldBorderLerpSizeSpecView {
            old_diameter: self.old_diameter.deep_view(),
            new_diameter: self.new_diameter.deep_view(),
            speed: self.speed.deep_view(),
        }
    }
}

impl Serialize for WorldBorderLerpSizeSpec {
    open spec fn serializable(v: WorldBorderLerpSizeSpecView) -> bool {
        u64::serializable(v.old_diameter) && u64::serializable(v.new_diameter) && VarLong::serializable(v.speed)
    }

    #[verifier::opaque]
    open spec fn encode(v: WorldBorderLerpSizeSpecView) -> Seq<u8> {
        u64::encode(v.old_diameter) + u64::encode(v.new_diameter) + VarLong::encode(v.speed)
    }

    fn mc_serialize<S: Serializer>(&self, to: &mut S) -> (r: SerializeResult) {
        proof {
            reveal(<WorldBorderLerpSizeSpec as Serialize>::encode);
        }
        self.old_diameter.mc_serialize(to)?;
        self.new_diameter.mc_serialize(to)?;
        self.speed.mc_serialize(to)?;
        proof {
            let v = self.deep_view();
            let w = old(to).written();
            let e0 = u64::encode(v.old_diameter);
            let e1 = u64::encode(v.new_diameter);
            let e2 = VarLong::encode(v.speed);
            let l0 = e0;
            let l1 = l0 + e1;
            let l2 = l1 + e2;
            lemma_concat_assoc(w, l0, e1);
            lemma_concat_assoc(w, l1, e2);
        }
        Ok(())
    }
}

impl Deserialize for WorldBorderLerpSizeSpec {
    #[verifier::opaque]
    open spec fn decode(data: Seq<u8>) -> Decoded<WorldBorderLerpSizeSpecView> {
        match u64::decode(data) {
            Err(e) => Err(e),
            Ok((old_diameter, n0)) => {
                match u64::decode(data.skip((n0) as int)) {
                    Err(e) => Err(e),
                    Ok((new_diameter, n1)) => {
                        match VarLong::decode(data.skip((n0 + n1) as int)) {
                            Err(e) => Err(e),
                            Ok((speed, n2)) => Ok((WorldBorderLerpSizeSpecView { old_diameter, new_diameter, speed }, n0 + n1 + n2)),
                        }
                    },
                }
            },
        }
    }

    fn mc_deserialize(data: &[u8]) -> (r: DeserializeResult<'_, WorldBorderLerpSizeSpec>) {
        proof {
            reveal(<WorldBorderLerpSizeSpec as Deserialize>::decode);
        }
        let ghost whole = data@;
        let Deserialized { value: old_diameter, data: rest0 } = u64::mc_deserialize(data)?;
        let Deserialized { value: new_diameter, data: rest1 } = u64::mc_deserialize(rest0)?;
        proof {
            lemma_skip_skip(
                whole,
                whole.len() - rest0@.len(),
                rest0@.len() - rest1@.len(),
            );
        }
        let Deserialized { value: speed, data: rest2 } = VarLong::mc_deserialize(rest1)?;
        proof {
            lemma_skip_skip(
                whole,
                whole.len() - rest1@.len(),
                rest1@.len() - rest2@.len(),
            );
        }
        Ok(Deserialized { value: WorldBorderLerpSizeSpec { old_diameter, new_diameter, speed }, data: rest2 })
    }
}

impl ProtocolType for WorldBorderLerpSizeSpec {
    open spec fn faithful(v: WorldBorderLerpSizeSpecView) -> bool {
        u64::faithful(v.old_diameter) && u64::faithful(v.new_diameter) && VarLong::faithful(v.speed)
    }

    open spec fn delimited() -> bool {
        VarLong::delimited()
    }

    proof fn lemma_round_trip(v: WorldBorderLerpSizeSpecView, rest: Seq<u8>) {
        reveal(<WorldBorderLerpSizeSpec as Serialize>::encode);
        reveal(<WorldBorderLerpSizeSpec as Deserialize>::decode);
        let e0 = u64::encode(v.old_diameter);
        let e1 = u64::encode(v.new_diameter);
        let e2 = VarLong::encode(v.speed);
        let data = Self::encode(v) + rest;
        let t3 = rest;
        let t2 = e2 + t3;
        let t1 = e1 + t2;
        let t0 = e0 + t1;
        let l0 = e0;
        let l1 = l0 + e1;
        let l2 = l1 + e2;
        lemma_concat_assoc(l1, e2, t3);
        lemma_concat_assoc(l0, e1, t2);
        assert(data == t0);
        u64::lemma_round_trip(v.old_diameter, t1);
        lemma_skip_concat(e0, t1);
        u64::lemma_round_trip(v.new_diameter, t2);
        lemma_skip_more(data, (e0.len()) as int, e1, t2);
        VarLong::lemma_round_trip(v.speed, t3);
        lemma_skip_more(data, (e0.len() + e1.len()) as int, e2, t3);
    }
}

/// Everything about the world border at once.
#[derive(Debug, Clone, PartialEq)]
pub struct WorldBorderInitiaializeSpec {
    /// The centre; each coordinate as the bit pattern of a 64-bit float.
    pub position: TopDownPosition<u64>,
    /// The width to start from, as the bit pattern of a 64-bit float.
    pub old_diameter: u64,
    /// The width to arrive at, as the bit pattern of a 64-bit float.
    pub new_diameter: u64,
    pub speed: VarLong,
    pub portal_teleport_boundary: VarLong,
    pub warning_time: VarInt,
    pub warning_blocks: VarInt,
}

/// The mathematical content of a [`WorldBorderInitiaializeSpec`].
pub struct WorldBorderInitiaializeSpecView {
    pub position: <TopDownPosition<u64> as DeepView>::V,
    pub old_diameter: u64,
    pub new_diameter: u64,
    pub speed: VarLong,
    pub portal_teleport_boundary: VarLong,
    pub warning_time: VarInt,
    pub warning_blocks: VarInt,
}

impl DeepView for WorldBorderInitiaializeSpec {
    type V = WorldBorderInitiaializeSpecView;

    open spec fn deep_view(&self) -> WorldBorderInitiaializeSpecView {
        WorldBorderInitiaializeSpecView {
            position: self.position.deep_view(),
            old_diameter: self.old_diameter.deep_view(),
            new_diameter: self.new_diameter.deep_view(),
            speed: self.speed.deep_view(),
            portal_teleport_boundary: self.portal_teleport_boundary.deep_view(),
            warning_time: self.warning_time.deep_view(),
            warning_blocks: self.warning_blocks.deep_view(),
        }
    }
}

impl Serialize for WorldBorderInitiaializeSpec {
    open spec fn serializable(v: WorldBorderInitiaializeSpecView) -> bool {
        <TopDownPosition<u64>>::serializable(v.position) && u64::serializable(v.old_diameter) && u64::serializable(v.new_diameter) && VarLong::serializable(v.speed) && VarLong::serializable(v.portal_teleport_boundary) && VarInt::serializable(v.warning_time) && VarInt::serializable(v.warning_blocks)
    }

    #[verifier::opaque]
    open spec fn encode(v: WorldBorderInitiaializeSpecView) -> Seq<u8> {
        <TopDownPosition<u64>>::encode(v.position) + u64::encode(v.old_diameter) + u64::encode(v.new_diameter) + VarLong::encode(v.speed) + VarLong::encode(v.portal_teleport_boundary) + VarInt::encode(v.warning_time) + VarInt::encode(v.warning_blocks)
    }

    fn mc_serialize<S: Serializer>(&self, to: &mut S) -> (r: SerializeResult) {
        proof {
            reveal(<WorldBorderInitiaializeSpec as Serialize>::encode);
        }
        self.position.mc_serialize(to)?;
        self.old_diameter.mc_serialize(to)?;
        self.new_diameter.mc_serialize(to)?;
        self.speed.mc_serialize(to)?;
        self.portal_teleport_boundary.mc_serialize(to)?;
        self.warning_time.mc_serialize(to)?;
        self.warning_blocks.mc_serialize(to)?;
        proof {
            let v = self.deep_view();
            let w = old(to).written();
            let e0 = <TopDownPosition<u64>>::encode(v.position);
            let e1 = u64::encode(v.old_diameter);
            let e2 = u64::encode(v.new_diameter);
            let e3 = VarLong::encode(v.speed);
            let e4 = VarLong::encode(v.portal_teleport_boundary);
            let e5 = VarInt::encode(v.warning_time);
            let e6 = VarInt::encode(v.warning_blocks);
            let l0 = e0;
            let l1 = l0 + e1;
            let l2 = l1 + e2;
            let l3 = l2 + e3;
            let l4 = l3 + e4;
            let l5 = l4 + e5;
            let l6 = l5 + e6;
            lemma_concat_assoc(w, l0, e1);
            lemma_concat_assoc(w, l1, e2);
            lemma_concat_assoc(w, l2, e3);
            lemma_concat_assoc(w, l3, e4);
            lemma_concat_assoc(w, l4, e5);
            lemma_concat_assoc(w, l5, e6);
        }
        Ok(())
    }
}

impl Deserialize for WorldBorderInitiaializeSpec {
    #[verifier::opaque]
    open spec fn decode(data: Seq<u8>) -> Decoded<WorldBorderInitiaializeSpecView> {
        match <TopDownPosition<u64>>::decode(data) {
            Err(e) => Err(e),
            Ok((position, n0)) => {
                match u64::decode(data.skip((n0) as int)) {
                    Err(e) => Err(e),
                    Ok((old_diameter, n1)) => {
                        match u64::decode(data.skip((n0 + n1) as int)) {
                            Err(e) => Err(e),
                            Ok((new_diameter, n2)) => {
                                match VarLong::decode(data.skip((n0 + n1 + n2) as int)) {
                                    Err(e) => Err(e),
                                    Ok((speed, n3)) => {
                                        match VarLong::decode(data.skip((n0 + n1 + n2 + n3) as int)) {
                                            Err(e) => Err(e),
                                            Ok((portal_teleport_boundary, n4)) => {
                                                match VarInt::decode(data.skip((n0 + n1 + n2 + n3 + n4) as int)) {
                                                    Err(e) => Err(e),
                                                    Ok((warning_time, n5)) => {
                                                        match VarInt::decode(data.skip((n0 + n1 + n2 + n3 + n4 + n5) as int)) {
                                                            Err(e) => Err(e),
                                                            Ok((warning_blocks, n6)) => Ok((WorldBorderInitiaializeSpecView { position, old_diameter, new_diameter, speed, portal_teleport_boundary, warning_time, warning_blocks }, n0 + n1 + n2 + n3 + n4 + n5 + n6)),
                                                        }
                                                    },
                                                }
                                            },
                                        }
                                    },
                                }
                            },
                        }
                    },
                }
            },
        }
    }

    fn mc_deserialize(data: &[u8]) -> (r: DeserializeResult<'_, WorldBorderInitiaializeSpec>) {
        proof {
            reveal(<WorldBorderInitiaializeSpec as Deserialize>::decode);
        }
        let ghost whole = data@;
        let Deserialized { value: position, data: rest0 } = <TopDownPosition<u64>>::mc_deserialize(data)?;
        let Deserialized { value: old_diameter, data: rest1 } = u64::mc_deserialize(rest0)?;
        proof {
            lemma_skip_skip(
                whole,
                whole.len() - rest0@.len(),
                rest0@.len() - rest1@.len(),
            );
        }
        let Deserialized { value: new_diameter, data: rest2 } = u64::mc_deserialize(rest1)?;
        proof {
            lemma_skip_skip(
                whole,
                whole.len() - rest1@.len(),
                rest1@.len() - rest2@.len(),
            );
        }
        let Deserialized { value: speed, data: rest3 } = VarLong::mc_deserialize(rest2)?;
        proof {
            lemma_skip_skip(
                whole,
                whole.len() - rest2@.len(),
                rest2@.len() - rest3@.len(),
            );
        }
        let Deserialized { value: portal_teleport_boundary, data: rest4 } = VarLong::mc_deserialize(rest3)?;
        proof {
            lemma_skip_skip(
                whole,
                whole.len() - rest3@.len(),
                rest3@.len() - rest4@.len(),
            );
        }
        let Deserialized { value: warning_time, data: rest5 } = VarInt::mc_deserialize(rest4)?;
        proof {
            lemma_skip_skip(
                whole,
                whole.len() - rest4@.len(),
                rest4@.len() - rest5@.len(),
            );
        }
        let Deserialized { value: warning_blocks, data: rest6 } = VarInt::mc_deserialize(rest5)?;
        proof {
            lemma_skip_skip(
                whole,
                whole.len() - rest5@.len(),
                rest5@.len() - rest6@.len(),
            );
        }
        Ok(Deserialized { value: WorldBorderInitiaializeSpec { position, old_diameter, new_diameter, speed, portal_teleport_boundary, warning_time, warning_blocks }, data: rest6 })
    }
}

impl ProtocolType for WorldBorderInitiaializeSpec {
    open spec fn faithful(v: WorldBorderInitiaializeSpecView) -> bool {
        <TopDownPosition<u64>>::faithful(v.position) && u64::faithful(v.old_diameter) && u64::faithful(v.new_diameter) && VarLong::faithful(v.speed) && VarLong::faithful(v.portal_teleport_boundary) && VarInt::faithful(v.warning_time) && VarInt::faithful(v.warning_blocks)
    }

    open spec fn delimited() -> bool {
        VarInt::delimited()
    }

    proof fn lemma_round_trip(v: WorldBorderInitiaializeSpecView, rest: Seq<u8>) {
        reveal(<WorldBorderInitiaializeSpec as Serialize>::encode);
        reveal(<WorldBorderInitiaializeSpec as Deserialize>::decode);
        let e0 = <TopDownPosition<u64>>::encode(v.position);
        let e1 = u64::encode(v.old_diameter);
        let e2 = u64::encode(v.new_diameter);
        let e3 = VarLong::encode(v.speed);
        let e4 = VarLong::encode(v.portal_teleport_boundary);
        let e5 = VarInt::encode(v.warning_time);
        let e6 = VarInt::encode(v.warning_blocks);
        let data = Self::encode(v) + rest;
        let t7 = rest;
        let t6 = e6 + t7;
        let t5 = e5 + t6;
        let t4 = e4 + t5;
        let t3 = e3 + t4;
        let t2 = e2 + t3;
        let t1 = e1 + t2;
        let t0 = e0 + t1;
        let l0 = e0;
        let l1 = l0 + e1;
        let l2 = l1 + e2;
        let l3 = l2 + e3;
        let l4 = l3 + e4;
        let l5 = l4 + e5;
        let l6 = l5 + e6;
        lemma_concat_assoc(l5, e6, t7);
        lemma_concat_assoc(l4, e5, t6);
        lemma_concat_assoc(l3, e4, t5);
        lemma_concat_assoc(l2, e3, t4);
        lemma_concat_assoc(l1, e2, t3);
        lemma_concat_assoc(l0, e1, t2);
        assert(data == t0);
        <TopDownPosition<u64>>::lemma_round_trip(v.position, t1);
        lemma_skip_concat(e0, t1);
        u64::lemma_round_trip(v.old_diameter, t2);
        lemma_skip_more(data, (e0.len()) as int, e1, t2);
        u64::lemma_round_trip(v.new_diameter, t3);
        lemma_skip_more(data, (e0.len() + e1.len()) as int, e2, t3);
        VarLong::lemma_round_trip(v.speed, t4);
        lemma_skip_more(data, (e0.len() + e1.len() + e2.len()) as int, e3, t4);
        VarLong::lemma_round_trip(v.portal_teleport_boundary, t5);
        lemma_skip_more(data, (e0.len() + e1.len() + e2.len() + e3.len()) as int, e4, t5);
        VarInt::lemma_round_trip(v.warning_time, t6);
        lemma_skip_more(data, (e0.len() + e1.len() + e2.len() + e3.len() + e4.len()) as int, e5, t6);
        VarInt::lemma_round_trip(v.warning_blocks, t7);
        lemma_skip_more(data, (e0.len() + e1.len() + e2.len() + e3.len() + e4.len() + e5.len()) as int, e6, t7);
    }
}

/// How long ahead the world border warns.
#[derive(Debug, Clone, PartialEq)]
pub struct WorldBorderWarningTimeSpec {
    pub warning_time: VarInt,
}

/// The mathematical content of a [`WorldBorderWarningTimeSpec`].
pub struct WorldBorderWarningTimeSpecView {
    pub warning_time: VarInt,
}

impl DeepView for WorldBorderWarningTimeSpec {
    type V = WorldBorderWarningTimeSpecView;

    open spec fn deep_view(&self) -> WorldBorderWarningTimeSpecView {
        WorldBorderWarningTimeSpecView {
            warning_time: self.warning_time.deep_view(),
        }
    }
}

impl Serialize for WorldBorderWarningTimeSpec {
    open spec fn serializable(v: WorldBorderWarningTimeSpecView) -> bool {
        VarInt::serializable(v.warning_time)
    }

    #[verifier::opaque]
    open spec fn encode(v: WorldBorderWarningTimeSpecView) -> Seq<u8> {
        VarInt::encode(v.warning_time)
    }

    fn mc_serialize<S: Serializer>(&self, to: &mut S) -> (r: SerializeResult) {
        proof {
            reveal(<WorldBorderWarningTimeSpec as Serialize>::encode);
        }
        self.warning_time.mc_serialize(to)?;
        proof {
            assert(to.written() =~= old(to).written() + Self::encode(self.deep_view()));
        }
        Ok(())
    }
}

impl Deserialize for WorldBorderWarningTimeSpec {
    #[verifier::opaque]
    open spec fn decode(data: Seq<u8>) -> Decoded<WorldBorderWarningTimeSpecView> {
        match VarInt::decode(data) {
            Err(e) => Err(e),
            Ok((warning_time, n0)) => Ok((WorldBorderWarningTimeSpecView { warning_time }, n0)),
        }
    }

    fn mc_deserialize(data: &[u8]) -> (r: DeserializeResult<'_, WorldBorderWarningTimeSpec>) {
        proof {
            reveal(<WorldBorderWarningTimeSpec as Deserialize>::decode);
        }
        let Deserialized { value: warning_time, data: rest0 } = VarInt::mc_deserialize(data)?;
        Ok(Deserialized { value: WorldBorderWarningTimeSpec { warning_time }, data: rest0 })
    }
}

impl ProtocolType for WorldBorderWarningTimeSpec {
    open spec fn faithful(v: WorldBorderWarningTimeSpecView) -> bool {
        VarInt::faithful(v.warning_time)
    }

    open spec fn delimited() -> bool {
        VarInt::delimited()
    }

    proof fn lemma_round_trip(v: WorldBorderWarningTimeSpecView, rest: Seq<u8>) {
        reveal(<WorldBorderWarningTimeSpec as Serialize>::encode);
        reveal(<WorldBorderWarningTimeSpec as Deserialize>::decode);
        let e0 = VarInt::encode(v.warning_time);
        let data = Self::encode(v) + rest;
        let t1 = rest;
        let t0 = e0 + t1;
        VarInt::lemma_round_trip(v.warning_time, t1);
        lemma_skip_concat(e0, t1);
    }
}

/// How far off the world border warns.
#[derive(Debug, Clone, PartialEq)]
pub struct WorldBorderWarningBlocksSpec {
    pub warning_blocks: VarInt,
}

/// The mathematical content of a [`WorldBorderWarningBlocksSpec`].
pub struct WorldBorderWarningBlocksSpecView {
    pub warning_blocks: VarInt,
}

impl DeepView for WorldBorderWarningBlocksSpec {
    type V = WorldBorderWarningBlocksSpecView;

    open spec fn deep_view(&self) -> WorldBorderWarningBlocksSpecView {
        WorldBorderWarningBlocksSpecView {
            warning_blocks: self.warning_blocks.deep_view(),
        }
    }
}

impl Serialize for WorldBorderWarningBlocksSpec {
    open spec fn serializable(v: WorldBorderWarningBlocksSpecView) -> bool {
        VarInt::serializable(v.warning_blocks)
    }

    #[verifier::opaque]
    open spec fn encode(v: WorldBorderWarningBlocksSpecView) -> Seq<u8> {
        VarInt::encode(v.warning_blocks)
    }

    fn mc_serialize<S: Serializer>(&self, to: &mut S) -> (r: SerializeResult) {
        proof {
            reveal(<WorldBorderWarningBlocksSpec as Serialize>::encode);
        }
        self.warning_blocks.mc_serialize(to)?;
        proof {
            assert(to.written() =~= old(to).written() + Self::encode(self.deep_view()));
        }
        Ok(())
    }
}

impl Deserialize for WorldBorderWarningBlocksSpec {
    #[verifier::opaque]
    open spec fn decode(data: Seq<u8>) -> Decoded<WorldBorderWarningBlocksSpecView> {
        match VarInt::decode(data) {
            Err(e) => Err(e),
            Ok((warning_blocks, n0)) => Ok((WorldBorderWarningBlocksSpecView { warning_blocks }, n0)),
        }
    }

    fn mc_deserialize(data: &[u8]) -> (r: DeserializeResult<'_, WorldBorderWarningBlocksSpec>) {
        proof {
            reveal(<WorldBorderWarningBlocksSpec as Deserialize>::decode);
        }
        let Deserialized { value: warning_blocks, data: rest0 } = VarInt::mc_deserialize(data)?;
        Ok(Deserialized { value: WorldBorderWarningBlocksSpec { warning_blocks }, data: rest0 })
    }
}

impl ProtocolType for WorldBorderWarningBlocksSpec {
    open spec fn faithful(v: WorldBorderWarningBlocksSpecView) -> bool {
        VarInt::faithful(v.warning_blocks)
    }

    open spec fn delimited() -> bool {
        VarInt::delimited()
    }

    proof fn lemma_round_trip(v: WorldBorderWarningBlocksSpecView, rest: Seq<u8>) {
        reveal(<WorldBorderWarningBlocksSpec as Serialize>::encode);
        reveal(<WorldBorderWarningBlocksSpec as Deserialize>::decode);
        let e0 = VarInt::encode(v.warning_blocks);
        let data = Self::encode(v) + rest;
        let t1 = rest;
        let t0 = e0 + t1;
        VarInt::lemma_round_trip(v.warning_blocks, t1);
        lemma_skip_concat(e0, t1);
    }
}

/// What happens to the world border. The centre is two 64-bit floats, held as their bit patterns.
#[derive(PartialEq, Clone, Debug)]
pub enum WorldBorderAction {
    SetSize(WorldBorderSetSizeSpec),
    LerpSize(WorldBorderLerpSizeSpec),
    SetCenter(TopDownPosition<u64>),
    Initialize(WorldBorderInitiaializeSpec),
    SetWarningTime(WorldBorderWarningTimeSpec),
    SetWarningBlocks(WorldBorderWarningBlocksSpec),
}

/// The mathematical content of a [`WorldBorderAction`].
pub enum WorldBorderActionView {
    SetSize(<WorldBorderSetSizeSpec as DeepView>::V),
    LerpSize(<WorldBorderLerpSizeSpec as DeepView>::V),
    SetCenter(<TopDownPosition<u64> as DeepView>::V),
    Initialize(<WorldBorderInitiaializeSpec as DeepView>::V),
    SetWarningTime(<WorldBorderWarningTimeSpec as DeepView>::V),
    SetWarningBlocks(<WorldBorderWarningBlocksSpec as DeepView>::V),
}

impl DeepView for WorldBorderAction {
    type V = WorldBorderActionView;

    open spec fn deep_view(&self) -> WorldBorderActionView {
        match self {
            WorldBorderAction::SetSize(body) => WorldBorderActionView::SetSize(body.deep_view()),
            WorldBorderAction::LerpSize(body) => WorldBorderActionView::LerpSize(body.deep_view()),
            WorldBorderAction::SetCenter(body) => WorldBorderActionView::SetCenter(body.deep_view()),
            WorldBorderAction::Initialize(body) => WorldBorderActionView::Initialize(body.deep_view()),
            WorldBorderAction::SetWarningTime(body) => WorldBorderActionView::SetWarningTime(body.deep_view()),
            WorldBorderAction::SetWarningBlocks(body) => WorldBorderActionView::SetWarningBlocks(body.deep_view()),
        }
    }
}

impl WorldBorderAction {
    pub fn variant_count() -> (r: usize)
        ensures
            r == 6,
    {
        6
    }

    /// The number that stands for the variant on the wire.
    pub open spec fn id_of(v: WorldBorderActionView) -> i32 {
        match v {
            WorldBorderActionView::SetSize(_) => 0x00,
            WorldBorderActionView::LerpSize(_) => 0x01,
            WorldBorderActionView::SetCenter(_) => 0x02,
            WorldBorderActionView::Initialize(_) => 0x03,
            WorldBorderActionView::SetWarningTime(_) => 0x04,
            WorldBorderActionView::SetWarningBlocks(_) => 0x05,
        }
    }

    pub fn id(&self) -> (r: VarInt)
        ensures
            r == VarInt(Self::id_of(self.deep_view())),
    {
        match self {
            WorldBorderAction::SetSize(_) => VarInt(0x00),
            WorldBorderAction::LerpSize(_) => VarInt(0x01),
            WorldBorderAction::SetCenter(_) => VarInt(0x02),
            WorldBorderAction::Initialize(_) => VarInt(0x03),
            WorldBorderAction::SetWarningTime(_) => VarInt(0x04),
            WorldBorderAction::SetWarningBlocks(_) => VarInt(0x05),
        }
    }

    pub open spec fn name_of(v: WorldBorderActionView) -> Seq<char> {
        match v {
            WorldBorderActionView::SetSize(_) => "SetSize"@,
            WorldBorderActionView::LerpSize(_) => "LerpSize"@,
            WorldBorderActionView::SetCenter(_) => "SetCenter"@,
            WorldBorderActionView::Initialize(_) => "Initialize"@,
            WorldBorderActionView::SetWarningTime(_) => "SetWarningTime"@,
            WorldBorderActionView::SetWarningBlocks(_) => "SetWarningBlocks"@,
        }
    }

    pub fn name(&self) -> (r: &'static str)
        ensures
            r@ == Self::name_of(self.deep_view()),
    {
        match self {
            WorldBorderAction::SetSize(_) => "SetSize",
            WorldBorderAction::LerpSize(_) => "LerpSize",
            WorldBorderAction::SetCenter(_) => "SetCenter",
            WorldBorderAction::Initialize(_) => "Initialize",
            WorldBorderAction::SetWarningTime(_) => "SetWarningTime",
            WorldBorderAction::SetWarningBlocks(_) => "SetWarningBlocks",
        }
    }

    /// The bytes that follow the number.
    pub open spec fn body_of(v: WorldBorderActionView) -> Seq<u8> {
        match v {
            WorldBorderActionView::SetSize(body) => <WorldBorderSetSizeSpec>::encode(body),
            WorldBorderActionView::LerpSize(body) => <WorldBorderLerpSizeSpec>::encode(body),
            WorldBorderActionView::SetCenter(body) => <TopDownPosition<u64>>::encode(body),
            WorldBorderActionView::Initialize(body) => <WorldBorderInitiaializeSpec>::encode(body),
            WorldBorderActionView::SetWarningTime(body) => <WorldBorderWarningTimeSpec>::encode(body),
            WorldBorderActionView::SetWarningBlocks(body) => <WorldBorderWarningBlocksSpec>::encode(body),
        }
    }

    /// Whether what follows the number can be written.
    pub open spec fn body_writable(v: WorldBorderActionView) -> bool {
        match v {
            WorldBorderActionView::SetSize(body) => <WorldBorderSetSizeSpec>::serializable(body),
            WorldBorderActionView::LerpSize(body) => <WorldBorderLerpSizeSpec>::serializable(body),
            WorldBorderActionView::SetCenter(body) => <TopDownPosition<u64>>::serializable(body),
            WorldBorderActionView::Initialize(body) => <WorldBorderInitiaializeSpec>::serializable(body),
            WorldBorderActionView::SetWarningTime(body) => <WorldBorderWarningTimeSpec>::serializable(body),
            WorldBorderActionView::SetWarningBlocks(body) => <WorldBorderWarningBlocksSpec>::serializable(body),
        }
    }

    /// The variant that `id` stands for, with its body read from `data`.
    pub open spec fn decode_with_id(id: i32, data: Seq<u8>) -> Decoded<WorldBorderActionView> {
        if id == 0x00 {
            match <WorldBorderSetSizeSpec>::decode(data) {
                Ok((body, n)) => Ok((WorldBorderActionView::SetSize(body), n)),
                Err(e) => Err(e),
            }
        } else if id == 0x01 {
            match <WorldBorderLerpSizeSpec>::decode(data) {
                Ok((body, n)) => Ok((WorldBorderActionView::LerpSize(body), n)),
                Err(e) => Err(e),
            }
        } else if id == 0x02 {
            match <TopDownPosition<u64>>::decode(data) {
                Ok((body, n)) => Ok((WorldBorderActionView::SetCenter(body), n)),
                Err(e) => Err(e),
            }
        } else if id == 0x03 {
            match <WorldBorderInitiaializeSpec>::decode(data) {
                Ok((body, n)) => Ok((WorldBorderActionView::Initialize(body), n)),
                Err(e) => Err(e),
            }
        } else if id == 0x04 {
            match <WorldBorderWarningTimeSpec>::decode(data) {
                Ok((body, n)) => Ok((WorldBorderActionView::SetWarningTime(body), n)),
                Err(e) => Err(e),
            }
        } else if id == 0x05 {
            match <WorldBorderWarningBlocksSpec>::decode(data) {
                Ok((body, n)) => Ok((WorldBorderActionView::SetWarningBlocks(body), n)),
                Err(e) => Err(e),
            }
        } else {
            Err(DecodeFailure::CannotUnderstandValue)
        }
    }

    /// Whether `id` stands for a variant.
    pub open spec fn has_id(id: i32) -> bool {
        id == 0x00
            || id == 0x01
            || id == 0x02
            || id == 0x03
            || id == 0x04
            || id == 0x05
    }

    /// Picks the variant for `id` and reads its body from `data`. A number
    /// that stands for no variant is refused, and the error says which.
    pub fn deserialize_with_id<'a>(id: VarInt, data: &'a [u8]) -> (r: DeserializeResult<'a, Self>)
        ensures
            agrees(r, data@, Self::decode_with_id(id.0, data@)),
            !Self::has_id(id.0) ==> (r matches Err(DeserializeErr::CannotUnderstandValue(m))
                && m@ == invalid_int_text("WorldBorderAction"@, id.0 as int)),
    {
        proof {
            assert(data@.skip(0) =~= data@);
        }
        match id.0 {
            0x00 => {
                let Deserialized { value: body, data: rest } = <WorldBorderSetSizeSpec>::mc_deserialize(data)?;
                Ok(Deserialized { value: WorldBorderAction::SetSize(body), data: rest })
            },
            0x01 => {
                let Deserialized { value: body, data: rest } = <WorldBorderLerpSizeSpec>::mc_deserialize(data)?;
                Ok(Deserialized { value: WorldBorderAction::LerpSize(body), data: rest })
            },
            0x02 => {
                let Deserialized { value: body, data: rest } = <TopDownPosition<u64>>::mc_deserialize(data)?;
                Ok(Deserialized { value: WorldBorderAction::SetCenter(body), data: rest })
            },
            0x03 => {
                let Deserialized { value: body, data: rest } = <WorldBorderInitiaializeSpec>::mc_deserialize(data)?;
                Ok(Deserialized { value: WorldBorderAction::Initialize(body), data: rest })
            },
            0x04 => {
                let Deserialized { value: body, data: rest } = <WorldBorderWarningTimeSpec>::mc_deserialize(data)?;
                Ok(Deserialized { value: WorldBorderAction::SetWarningTime(body), data: rest })
            },
            0x05 => {
                let Deserialized { value: body, data: rest } = <WorldBorderWarningBlocksSpec>::mc_deserialize(data)?;
                Ok(Deserialized { value: WorldBorderAction::SetWarningBlocks(body), data: rest })
            },
            other => Err(DeserializeErr::CannotUnderstandValue(invalid_int_message("WorldBorderAction", other))),
        }
    }

    /// Writes what follows the number.
    pub fn serialize_body<S: Serializer>(&self, to: &mut S) -> (r: SerializeResult)
        ensures
            r is Ok ==> Self::body_writable(self.deep_view()) && final(to).written() == old(
                to,
            ).written() + Self::body_of(self.deep_view()),
            old(to).infallible() ==> final(to).infallible(),
            old(to).infallible() ==> (r is Ok <==> Self::body_writable(self.deep_view())),
            old(to).infallible() && r is Err ==> (r matches Err(SerializeErr::CannotSerialize(_))),
    {
        match self {
            WorldBorderAction::SetSize(bod) => bod.mc_serialize(to),
            WorldBorderAction::LerpSize(bod) => bod.mc_serialize(to),
            WorldBorderAction::SetCenter(bod) => bod.mc_serialize(to),
            WorldBorderAction::Initialize(bod) => bod.mc_serialize(to),
            WorldBorderAction::SetWarningTime(bod) => bod.mc_serialize(to),
            WorldBorderAction::SetWarningBlocks(bod) => bod.mc_serialize(to),
        }
    }
}

impl Serialize for WorldBorderAction {
    open spec fn serializable(v: WorldBorderActionView) -> bool {
        Self::body_writable(v)
    }

    #[verifier::opaque]
    open spec fn encode(v: WorldBorderActionView) -> Seq<u8> {
        <VarInt>::encode(VarInt(Self::id_of(v))) + Self::body_of(v)
    }

    fn mc_serialize<S: Serializer>(&self, to: &mut S) -> (r: SerializeResult) {
        proof {
            reveal(<WorldBorderAction as Serialize>::encode);
        }
        let id_to_serialize: VarInt = self.id();
        id_to_serialize.mc_serialize(to)?;
        let r = self.serialize_body(to);
        proof {
            let head = <VarInt>::encode(VarInt(Self::id_of(self.deep_view())));
            let body = Self::body_of(self.deep_view());
            lemma_concat_assoc(old(to).written(), head, body);
        }
        r
    }
}

impl Deserialize for WorldBorderAction {
    #[verifier::opaque]
    open spec fn decode(data: Seq<u8>) -> Decoded<WorldBorderActionView> {
        match <VarInt>::decode(data) {
            Err(e) => Err(e),
            Ok((id, n)) => match Self::decode_with_id(id.0, data.skip(n as int)) {
                Ok((v, m)) => Ok((v, n + m)),
                Err(e) => Err(e),
            },
        }
    }

    fn mc_deserialize(data: &[u8]) -> (r: DeserializeResult<'_, WorldBorderAction>) {
        proof {
            reveal(<WorldBorderAction as Deserialize>::decode);
        }
        let Deserialized { value: id, data: rest } = <VarInt>::mc_deserialize(data)?;
        let Deserialized { value, data: after } = Self::deserialize_with_id(id, rest)?;
        proof {
            lemma_skip_skip(data@, data@.len() - rest@.len(), rest@.len() - after@.len());
        }
        Ok(Deserialized { value, data: after })
    }
}

impl ProtocolType for WorldBorderAction {
    open spec fn faithful(v: WorldBorderActionView) -> bool {
        match v {
            WorldBorderActionView::SetSize(body) => <WorldBorderSetSizeSpec>::faithful(body),
            WorldBorderActionView::LerpSize(body) => <WorldBorderLerpSizeSpec>::faithful(body),
            WorldBorderActionView::SetCenter(body) => <TopDownPosition<u64>>::faithful(body),
            WorldBorderActionView::Initialize(body) => <WorldBorderInitiaializeSpec>::faithful(body),
            WorldBorderActionView::SetWarningTime(body) => <WorldBorderWarningTimeSpec>::faithful(body),
            WorldBorderActionView::SetWarningBlocks(body) => <WorldBorderWarningBlocksSpec>::faithful(body),
        }
    }

    open spec fn delimited() -> bool {
        <TopDownPosition<u64>>::delimited() && <WorldBorderInitiaializeSpec>::delimited() && <WorldBorderLerpSizeSpec>::delimited() && <WorldBorderSetSizeSpec>::delimited() && <WorldBorderWarningBlocksSpec>::delimited() && <WorldBorderWarningTimeSpec>::delimited()
    }

    proof fn lemma_round_trip(v: WorldBorderActionView, rest: Seq<u8>) {
        reveal(<WorldBorderAction as Serialize>::encode);
        reveal(<WorldBorderAction as Deserialize>::decode);
        let head = <VarInt>::encode(VarInt(Self::id_of(v)));
        let body = Self::body_of(v);
        <VarInt>::lemma_round_trip(VarInt(Self::id_of(v)), body + rest);
        Self::lemma_body_round_trip(v, rest);
        lemma_concat_assoc(head, body, rest);
        lemma_skip_concat(head, body + rest);
    }
}

impl WorldBorderAction {
    /// What follows the number, written out and followed by anything, reads
    /// back under that number.
    pub proof fn lemma_body_round_trip(v: WorldBorderActionView, rest: Seq<u8>)
        requires
            <Self as ProtocolType>::faithful(v),
            <Self as ProtocolType>::delimited() || rest.len() == 0,
        ensures
            Self::body_writable(v),
            Self::decode_with_id(Self::id_of(v), Self::body_of(v) + rest) == Ok::<_, DecodeFailure>(
                (v, Self::body_of(v).len()),
            ),
    {
        match v {
            WorldBorderActionView::SetSize(body) => {
                <WorldBorderSetSizeSpec>::lemma_round_trip(body, rest);
            },
            WorldBorderActionView::LerpSize(body) => {
                <WorldBorderLerpSizeSpec>::lemma_round_trip(body, rest);
            },
            WorldBorderActionView::SetCenter(body) => {
                <TopDownPosition<u64>>::lemma_round_trip(body, rest);
            },
            WorldBorderActionView::Initialize(body) => {
                <WorldBorderInitiaializeSpec>::lemma_round_trip(body, rest);
            },
            WorldBorderActionView::SetWarningTime(body) => {
                <WorldBorderWarningTimeSpec>::lemma_round_trip(body, rest);
            },
            WorldBorderActionView::SetWarningBlocks(body) => {
                <WorldBorderWarningBlocksSpec>::lemma_round_trip(body, rest);
            },
        }
    }
}

/// How the scores of an objective show.
#[derive(PartialEq, Eq, Structural, Clone, Copy, Debug)]
pub enum ScoreboardObjectiveKind {
    Integer,
    Hearts,
}

impl View for ScoreboardObjectiveKind {
    type V = ScoreboardObjectiveKind;

    open spec fn view(&self) -> ScoreboardObjectiveKind {
        *self
    }
}

impl DeepView for ScoreboardObjectiveKind {
    type V = ScoreboardObjectiveKind;

    open spec fn deep_view(&self) -> ScoreboardObjectiveKind {
        *self
    }
}

impl ScoreboardObjectiveKind {
    pub fn variant_count() -> (r: usize)
        ensures
            r == 2,
    {
        2
    }

    /// The number that stands for the variant on the wire.
    pub open spec fn id_of(v: ScoreboardObjectiveKind) -> i32 {
        match v {
            ScoreboardObjectiveKind::Integer => 0x00,
            ScoreboardObjectiveKind::Hearts => 0x01,
        }
    }

    pub fn id(&self) -> (r: VarInt)
        ensures
            r == VarInt(Self::id_of(self.deep_view())),
    {
        match self {
            ScoreboardObjectiveKind::Integer => VarInt(0x00),
            ScoreboardObjectiveKind::Hearts => VarInt(0x01),
        }
    }

    pub open spec fn name_of(v: ScoreboardObjectiveKind) -> Seq<char> {
        match v {
            ScoreboardObjectiveKind::Integer => "Integer"@,
            ScoreboardObjectiveKind::Hearts => "Hearts"@,
        }
    }

    pub fn name(&self) -> (r: &'static str)
        ensures
            r@ == Self::name_of(self.deep_view()),
    {
        match self {
            ScoreboardObjectiveKind::Integer => "Integer",
            ScoreboardObjectiveKind::Hearts => "Hearts",
        }
    }

    /// The bytes that follow the number.
    pub open spec fn body_of(v: ScoreboardObjectiveKind) -> Seq<u8> {
        match v {
            ScoreboardObjectiveKind::Integer => Seq::empty(),
            ScoreboardObjectiveKind::Hearts => Seq::empty(),
        }
    }

    /// Whether what follows the number can be written.
    pub open spec fn body_writable(v: ScoreboardObjectiveKind) -> bool {
        match v {
            ScoreboardObjectiveKind::Integer => true,
            ScoreboardObjectiveKind::Hearts => true,
        }
    }

    /// The variant that `id` stands for, with its body read from `data`.
    pub open spec fn decode_with_id(id: i32, data: Seq<u8>) -> Decoded<ScoreboardObjectiveKind> {
        if id == 0x00 {
            Ok((ScoreboardObjectiveKind::Integer, 0))
        } else if id == 0x01 {
            Ok((ScoreboardObjectiveKind::Hearts, 0))
        } else {
            Err(DecodeFailure::CannotUnderstandValue)
        }
    }

    /// Whether `id` stands for a variant.
    pub open spec fn has_id(id: i32) -> bool {
        id == 0x00
            || id == 0x01
    }

    /// Picks the variant for `id` and reads its body from `data`. A number
    /// that stands for no variant is refused, and the error says which.
    pub fn deserialize_with_id<'a>(id: VarInt, data: &'a [u8]) -> (r: DeserializeResult<'a, Self>)
        ensures
            agrees(r, data@, Self::decode_with_id(id.0, data@)),
            !Self::has_id(id.0) ==> (r matches Err(DeserializeErr::CannotUnderstandValue(m))
                && m@ == invalid_int_text("ScoreboardObjectiveKind"@, id.0 as int)),
    {
        proof {
            assert(data@.skip(0) =~= data@);
        }
        match id.0 {
            0x00 => Ok(Deserialized { value: ScoreboardObjectiveKind::Integer, data }),
            0x01 => Ok(Deserialized { value: ScoreboardObjectiveKind::Hearts, data }),
            other => Err(DeserializeErr::CannotUnderstandValue(invalid_int_message("ScoreboardObjectiveKind", other))),
        }
    }

    /// Writes what follows the number.
    pub fn serialize_body<S: Serializer>(&self, to: &mut S) -> (r: SerializeResult)
        ensures
            r is Ok ==> Self::body_writable(self.deep_view()) && final(to).written() == old(
                to,
            ).written() + Self::body_of(self.deep_view()),
            old(to).infallible() ==> final(to).infallible(),
            old(to).infallible() ==> (r is Ok <==> Self::body_writable(self.deep_view())),
            old(to).infallible() && r is Err ==> (r matches Err(SerializeErr::CannotSerialize(_))),
    {
        match self {
            ScoreboardObjectiveKind::Integer => {
                proof {
                    assert(old(to).written() + Seq::<u8>::empty() =~= old(to).written());
                }
                Ok(())
            },
            ScoreboardObjectiveKind::Hearts => {
                proof {
                    assert(old(to).written() + Seq::<u8>::empty() =~= old(to).written());
                }
                Ok(())
            },
        }
    }
}

impl Serialize for ScoreboardObjectiveKind {
    open spec fn serializable(v: ScoreboardObjectiveKind) -> bool {
        Self::body_writable(v)
    }

    #[verifier::opaque]
    open spec fn encode(v: ScoreboardObjectiveKind) -> Seq<u8> {
        <VarInt>::encode(VarInt(Self::id_of(v))) + Self::body_of(v)
    }

    fn mc_serialize<S: Serializer>(&self, to: &mut S) -> (r: SerializeResult) {
        proof {
            reveal(<ScoreboardObjectiveKind as Serialize>::encode);
        }
        let id_to_serialize: VarInt = self.id();
        id_to_serialize.mc_serialize(to)?;
        let r = self.serialize_body(to);
        proof {
            let head = <VarInt>::encode(VarInt(Self::id_of(self.deep_view())));
            let body = Self::body_of(self.deep_view());
            lemma_concat_assoc(old(to).written(), head, body);
        }
        r
    }
}

impl Deserialize for ScoreboardObjectiveKind {
    #[verifier::opaque]
    open spec fn decode(data: Seq<u8>) -> Decoded<ScoreboardObjectiveKind> {
        match <VarInt>::decode(data) {
            Err(e) => Err(e),
            Ok((id, n)) => match Self::decode_with_id(id.0, data.skip(n as int)) {
                Ok((v, m)) => Ok((v, n + m)),
                Err(e) => Err(e),
            },
        }
    }

    fn mc_deserialize(data: &[u8]) -> (r: DeserializeResult<'_, ScoreboardObjectiveKind>) {
        proof {
            reveal(<ScoreboardObjectiveKind as Deserialize>::decode);
        }
        let Deserialized { value: id, data: rest } = <VarInt>::mc_deserialize(data)?;
        let Deserialized { value, data: after } = Self::deserialize_with_id(id, rest)?;
        proof {
            lemma_skip_skip(data@, data@.len() - rest@.len(), rest@.len() - after@.len());
        }
        Ok(Deserialized { value, data: after })
    }
}

impl ProtocolType for ScoreboardObjectiveKind {
    open spec fn faithful(v: ScoreboardObjectiveKind) -> bool {
        match v {
            ScoreboardObjectiveKind::Integer => true,
            ScoreboardObjectiveKind::Hearts => true,
        }
    }

    open spec fn delimited() -> bool {
        true
    }

    proof fn lemma_round_trip(v: ScoreboardObjectiveKind, rest: Seq<u8>) {
        reveal(<ScoreboardObjectiveKind as Serialize>::encode);
        reveal(<ScoreboardObjectiveKind as Deserialize>::decode);
        let head = <VarInt>::encode(VarInt(Self::id_of(v)));
        let body = Self::body_of(v);
        <VarInt>::lemma_round_trip(VarInt(Self::id_of(v)), body + rest);
        Self::lemma_body_round_trip(v, rest);
        lemma_concat_assoc(head, body, rest);
        lemma_skip_concat(head, body + rest);
    }
}

impl ScoreboardObjectiveKind {
    /// What follows the number, written out and followed by anything, reads
    /// back under that number.
    pub proof fn lemma_body_round_trip(v: ScoreboardObjectiveKind, rest: Seq<u8>)
        requires
            <Self as ProtocolType>::faithful(v),
            <Self as ProtocolType>::delimited() || rest.len() == 0,
        ensures
            Self::body_writable(v),
            Self::decode_with_id(Self::id_of(v), Self::body_of(v) + rest) == Ok::<_, DecodeFailure>(
                (v, Self::body_of(v).len()),
            ),
    {
        match v {
            ScoreboardObjectiveKind::Integer => {
                assert(Seq::<u8>::empty() + rest =~= rest);
            },
            ScoreboardObjectiveKind::Hearts => {
                assert(Seq::<u8>::empty() + rest =~= rest);
            },
        }
    }
}

/// The title of an objective and the way its scores show.
#[derive(Debug, Clone, PartialEq)]
pub struct ScoreboardObjectiveSpec {
    /// The title, as the JSON text of a chat component.
    pub text: String,
    pub kind: ScoreboardObjectiveKind,
}

/// The mathematical content of a [`ScoreboardObjectiveSpec`].
pub struct ScoreboardObjectiveSpecView {
    pub text: Seq<char>,
    pub kind: <ScoreboardObjectiveKind as DeepView>::V,
}

impl DeepView for ScoreboardObjectiveSpec {
    type V = ScoreboardObjectiveSpecView;

    open spec fn deep_view(&self) -> ScoreboardObjectiveSpecView {
        ScoreboardObjectiveSpecView {
            text: self.text.deep_view(),
            kind: self.kind.deep_view(),
        }
    }
}

impl Serialize for ScoreboardObjectiveSpec {
    open spec fn serializable(v: ScoreboardObjectiveSpecView) -> bool {
        String::serializable(v.text) && ScoreboardObjectiveKind::serializable(v.kind)
    }

    #[verifier::opaque]
    open spec fn encode(v: ScoreboardObjectiveSpecView) -> Seq<u8> {
        String::encode(v.text) + ScoreboardObjectiveKind::encode(v.kind)
    }

    fn mc_serialize<S: Serializer>(&self, to: &mut S) -> (r: SerializeResult) {
        proof {
            reveal(<ScoreboardObjectiveSpec as Serialize>::encode);
        }
        self.text.mc_serialize(to)?;
        self.kind.mc_serialize(to)?;
        proof {
            assert(to.written() =~= old(to).written() + Self::encode(self.deep_view()));
        }
        Ok(())
    }
}

impl Deserialize for ScoreboardObjectiveSpec {
    #[verifier::opaque]
    open spec fn decode(data: Seq<u8>) -> Decoded<ScoreboardObjectiveSpecView> {
        match String::decode(data) {
            Err(e) => Err(e),
            Ok((text, n0)) => {
                match ScoreboardObjectiveKind::decode(data.skip((n0) as int)) {
                    Err(e) => Err(e),
                    Ok((kind, n1)) => Ok((ScoreboardObjectiveSpecView { text, kind }, n0 + n1)),
                }
            },
        }
    }

    fn mc_deserialize(data: &[u8]) -> (r: DeserializeResult<'_, ScoreboardObjectiveSpec>) {
        proof {
            reveal(<ScoreboardObjectiveSpec as Deserialize>::decode);
        }
        let ghost whole = data@;
        let Deserialized { value: text, data: rest0 } = String::mc_deserialize(data)?;
        let Deserialized { value: kind, data: rest1 } = ScoreboardObjectiveKind::mc_deserialize(rest0)?;
        proof {
            lemma_skip_skip(
                whole,
                whole.len() - rest0@.len(),
                rest0@.len() - rest1@.len(),
            );
        }
        Ok(Deserialized { value: ScoreboardObjectiveSpec { text, kind }, data: rest1 })
    }
}

impl ProtocolType for ScoreboardObjectiveSpec {
    open spec fn faithful(v: ScoreboardObjectiveSpecView) -> bool {
        String::faithful(v.text) && ScoreboardObjectiveKind::faithful(v.kind)
    }

    open spec fn delimited() -> bool {
        ScoreboardObjectiveKind::delimited()
    }

    proof fn lemma_round_trip(v: ScoreboardObjectiveSpecView, rest: Seq<u8>) {
        reveal(<ScoreboardObjectiveSpec as Serialize>::encode);
        reveal(<ScoreboardObjectiveSpec as Deserialize>::decode);
        let e0 = String::encode(v.text);
        let e1 = ScoreboardObjectiveKind::encode(v.kind);
        let data = Self::encode(v) + rest;
        let t2 = rest;
        let t1 = e1 + t2;
        let t0 = e0 + t1;
        let l0 = e0;
        let l1 = l0 + e1;
        lemma_concat_assoc(l0, e1, t2);
        assert(data == t0);
        String::lemma_round_trip(v.text, t1);
        lemma_skip_concat(e0, t1);
        ScoreboardObjectiveKind::lemma_round_trip(v.kind, t2);
        lemma_skip_more(data, (e0.len()) as int, e1, t2);
    }
}

/// What happens to an objective.
#[derive(PartialEq, Clone, Debug)]
pub enum ScoreboardObjectiveAction {
    Create(ScoreboardObjectiveSpec),
    Remove,
    UpdateText(ScoreboardObjectiveSpec),
}

/// The mathematical content of a [`ScoreboardObjectiveAction`].
pub enum ScoreboardObjectiveActionView {
    Create(<ScoreboardObjectiveSpec as DeepView>::V),
    Remove,
    UpdateText(<ScoreboardObjectiveSpec as DeepView>::V),
}

impl DeepView for ScoreboardObjectiveAction {
    type V = ScoreboardObjectiveActionView;

    open spec fn deep_view(&self) -> ScoreboardObjectiveActionView {
        match self {
            ScoreboardObjectiveAction::Create(body) => ScoreboardObjectiveActionView::Create(body.deep_view()),
            ScoreboardObjectiveAction::Remove => ScoreboardObjectiveActionView::Remove,
            ScoreboardObjectiveAction::UpdateText(body) => ScoreboardObjectiveActionView::UpdateText(body.deep_view()),
        }
    }
}

impl ScoreboardObjectiveAction {
    pub fn variant_count() -> (r: usize)
        ensures
            r == 3,
    {
        3
    }

    /// The number that stands for the variant on the wire.
    pub open spec fn id_of(v: ScoreboardObjectiveActionView) -> u8 {
        match v {
            ScoreboardObjectiveActionView::Create(_) => 0x00,
            ScoreboardObjectiveActionView::Remove => 0x01,
            ScoreboardObjectiveActionView::UpdateText(_) => 0x02,
        }
    }

    pub fn id(&self) -> (r: u8)
        ensures
            r == Self::id_of(self.deep_view()),
    {
        match self {
            ScoreboardObjectiveAction::Create(_) => 0x00,
            ScoreboardObjectiveAction::Remove => 0x01,
            ScoreboardObjectiveAction::UpdateText(_) => 0x02,
        }
    }

    pub open spec fn name_of(v: ScoreboardObjectiveActionView) -> Seq<char> {
        match v {
            ScoreboardObjectiveActionView::Create(_) => "Create"@,
            ScoreboardObjectiveActionView::Remove => "Remove"@,
            ScoreboardObjectiveActionView::UpdateText(_) => "UpdateText"@,
        }
    }

    pub fn name(&self) -> (r: &'static str)
        ensures
            r@ == Self::name_of(self.deep_view()),
    {
        match self {
            ScoreboardObjectiveAction::Create(_) => "Create",
            ScoreboardObjectiveAction::Remove => "Remove",
            ScoreboardObjectiveAction::UpdateText(_) => "UpdateText",
        }
    }

    /// The bytes that follow the number.
    pub open spec fn body_of(v: ScoreboardObjectiveActionView) -> Seq<u8> {
        match v {
            ScoreboardObjectiveActionView::Create(body) => <ScoreboardObjectiveSpec>::encode(body),
            ScoreboardObjectiveActionView::Remove => Seq::empty(),
            ScoreboardObjectiveActionView::UpdateText(body) => <ScoreboardObjectiveSpec>::encode(body),
        }
    }

    /// Whether what follows the number can be written.
    pub open spec fn body_writable(v: ScoreboardObjectiveActionView) -> bool {
        match v {
            ScoreboardObjectiveActionView::Create(body) => <ScoreboardObjectiveSpec>::serializable(body),
            ScoreboardObjectiveActionView::Remove => true,
            ScoreboardObjectiveActionView::UpdateText(body) => <ScoreboardObjectiveSpec>::serializable(body),
        }
    }

    /// The variant that `id` stands for, with its body read from `data`.
    pub open spec fn decode_with_id(id: u8, data: Seq<u8>) -> Decoded<ScoreboardObjectiveActionView> {
        if id == 0x00 {
            match <ScoreboardObjectiveSpec>::decode(data) {
                Ok((body, n)) => Ok((ScoreboardObjectiveActionView::Create(body), n)),
                Err(e) => Err(e),
            }
        } else if id == 0x01 {
            Ok((ScoreboardObjectiveActionView::Remove, 0))
        } else if id == 0x02 {
            match <ScoreboardObjectiveSpec>::decode(data) {
                Ok((body, n)) => Ok((ScoreboardObjectiveActionView::UpdateText(body), n)),
                Err(e) => Err(e),
            }
        } else {
            Err(DecodeFailure::CannotUnderstandValue)
        }
    }

    /// Whether `id` stands for a variant.
    pub open spec fn has_id(id: u8) -> bool {
        id == 0x00
            || id == 0x01
            || id == 0x02
    }

    /// Picks the variant for `id` and reads its body from `data`. A number
    /// that stands for no variant is refused, and the error says which.
    pub fn deserialize_with_id<'a>(id: u8, data: &'a [u8]) -> (r: DeserializeResult<'a, Self>)
        ensures
            agrees(r, data@, Self::decode_with_id(id, data@)),
            !Self::has_id(id) ==> (r matches Err(DeserializeErr::CannotUnderstandValue(m))
                && m@ == invalid_message("ScoreboardObjectiveAction"@, id as nat)),
    {
        proof {
            assert(data@.skip(0) =~= data@);
        }
        match id {
            0x00 => {
                let Deserialized { value: body, data: rest } = <ScoreboardObjectiveSpec>::mc_deserialize(data)?;
                Ok(Deserialized { value: ScoreboardObjectiveAction::Create(body), data: rest })
            },
            0x01 => Ok(Deserialized { value: ScoreboardObjectiveAction::Remove, data }),
            0x02 => {
                let Deserialized { value: body, data: rest } = <ScoreboardObjectiveSpec>::mc_deserialize(data)?;
                Ok(Deserialized { value: ScoreboardObjectiveAction::UpdateText(body), data: rest })
            },
            other => Err(DeserializeErr::CannotUnderstandValue(invalid_value_message("ScoreboardObjectiveAction", other as u64))),
        }
    }

    /// Writes what follows the number.
    pub fn serialize_body<S: Serializer>(&self, to: &mut S) -> (r: SerializeResult)
        ensures
            r is Ok ==> Self::body_writable(self.deep_view()) && final(to).written() == old(
                to,
            ).written() + Self::body_of(self.deep_view()),
            old(to).infallible() ==> final(to).infallible(),
            old(to).infallible() ==> (r is Ok <==> Self::body_writable(self.deep_view())),
            old(to).infallible() && r is Err ==> (r matches Err(SerializeErr::CannotSerialize(_))),
    {
        match self {
            ScoreboardObjectiveAction::Create(bod) => bod.mc_serialize(to),
            ScoreboardObjectiveAction::Remove => {
                proof {
                    assert(old(to).written() + Seq::<u8>::empty() =~= old(to).written());
                }
                Ok(())
            },
            ScoreboardObjectiveAction::UpdateText(bod) => bod.mc_serialize(to),
        }
    }
}

impl Serialize for ScoreboardObjectiveAction {
    open spec fn serializable(v: ScoreboardObjectiveActionView) -> bool {
        Self::body_writable(v)
    }

    #[verifier::opaque]
    open spec fn encode(v: ScoreboardObjectiveActionView) -> Seq<u8> {
        <u8>::encode(Self::id_of(v)) + Self::body_of(v)
    }

    fn mc_serialize<S: Serializer>(&self, to: &mut S) -> (r: SerializeResult) {
        proof {
            reveal(<ScoreboardObjectiveAction as Serialize>::encode);
        }
        let id_to_serialize: u8 = self.id();
        id_to_serialize.mc_serialize(to)?;
        let r = self.serialize_body(to);
        proof {
            let head = <u8>::encode(Self::id_of(self.deep_view()));
            let body = Self::body_of(self.deep_view());
            lemma_concat_assoc(old(to).written(), head, body);
        }
        r
    }
}

impl Deserialize for ScoreboardObjectiveAction {
    #[verifier::opaque]
    open spec fn decode(data: Seq<u8>) -> Decoded<ScoreboardObjectiveActionView> {
        match <u8>::decode(data) {
            Err(e) => Err(e),
            Ok((id, n)) => match Self::decode_with_id(id, data.skip(n as int)) {
                Ok((v, m)) => Ok((v, n + m)),
                Err(e) => Err(e),
            },
        }
    }

    fn mc_deserialize(data: &[u8]) -> (r: DeserializeResult<'_, ScoreboardObjectiveAction>) {
        proof {
            reveal(<ScoreboardObjectiveAction as Deserialize>::decode);
        }
        let Deserialized { value: id, data: rest } = <u8>::mc_deserialize(data)?;
        let Deserialized { value, data: after } = Self::deserialize_with_id(id, rest)?;
        proof {
            lemma_skip_skip(data@, data@.len() - rest@.len(), rest@.len() - after@.len());
        }
        Ok(Deserialized { value, data: after })
    }
}

impl ProtocolType for ScoreboardObjectiveAction {
    open spec fn faithful(v: ScoreboardObjectiveActionView) -> bool {
        match v {
            ScoreboardObjectiveActionView::Create(body) => <ScoreboardObjectiveSpec>::faithful(body),
            ScoreboardObjectiveActionView::Remove => true,
            ScoreboardObjectiveActionView::UpdateText(body) => <ScoreboardObjectiveSpec>::faithful(body),
        }
    }

    open spec fn delimited() -> bool {
        <ScoreboardObjectiveSpec>::delimited()
    }

    proof fn lemma_round_trip(v: ScoreboardObjectiveActionView, rest: Seq<u8>) {
        reveal(<ScoreboardObjectiveAction as Serialize>::encode);
        reveal(<ScoreboardObjectiveAction as Deserialize>::decode);
        let head = <u8>::encode(Self::id_of(v));
        let body = Self::body_of(v);
        <u8>::lemma_round_trip(Self::id_of(v), body + rest);
        Self::lemma_body_round_trip(v, rest);
        lemma_concat_assoc(head, body, rest);
        lemma_skip_concat(head, body + rest);
    }
}

impl ScoreboardObjectiveAction {
    /// What follows the number, written out and followed by anything, reads
    /// back under that number.
    pub proof fn lemma_body_round_trip(v: ScoreboardObjectiveActionView, rest: Seq<u8>)
        requires
            <Self as ProtocolType>::faithful(v),
            <Self as ProtocolType>::delimited() || rest.len() == 0,
        ensures
            Self::body_writable(v),
            Self::decode_with_id(Self::id_of(v), Self::body_of(v) + rest) == Ok::<_, DecodeFailure>(
                (v, Self::body_of(v).len()),
            ),
    {
        match v {
            ScoreboardObjectiveActionView::Create(body) => {
                <ScoreboardObjectiveSpec>::lemma_round_trip(body, rest);
            },
            ScoreboardObjectiveActionView::Remove => {
                assert(Seq::<u8>::empty() + rest =~= rest);
            },
            ScoreboardObjectiveActionView::UpdateText(body) => {
                <ScoreboardObjectiveSpec>::lemma_round_trip(body, rest);
            },
        }
    }
}

/// One of a player's two hands.
#[derive(PartialEq, Eq, Structural, Clone, Copy, Debug)]
pub enum Hand {
    MainHand,
    OffHand,
}

impl View for Hand {
    type V = Hand;

    open spec fn view(&self) -> Hand {
        *self
    }
}

impl DeepView for Hand {
    type V = Hand;

    open spec fn deep_view(&self) -> Hand {
        *self
    }
}

impl Hand {
    pub fn variant_count() -> (r: usize)
        ensures
            r == 2,
    {
        2
    }

    /// The number that stands for the variant on the wire.
    pub open spec fn id_of(v: Hand) -> i32 {
        match v {
            Hand::MainHand => 0x00,
            Hand::OffHand => 0x01,
        }
    }

    pub fn id(&self) -> (r: VarInt)
        ensures
            r == VarInt(Self::id_of(self.deep_view())),
    {
        match self {
            Hand::MainHand => VarInt(0x00),
            Hand::OffHand => VarInt(0x01),
        }
    }

    pub open spec fn name_of(v: Hand) -> Seq<char> {
        match v {
            Hand::MainHand => "MainHand"@,
            Hand::OffHand => "OffHand"@,
        }
    }

    pub fn name(&self) -> (r: &'static str)
        ensures
            r@ == Self::name_of(self.deep_view()),
    {
        match self {
            Hand::MainHand => "MainHand",
            Hand::OffHand => "OffHand",
        }
    }

    /// The bytes that follow the number.
    pub open spec fn body_of(v: Hand) -> Seq<u8> {
        match v {
            Hand::MainHand => Seq::empty(),
            Hand::OffHand => Seq::empty(),
        }
    }

    /// Whether what follows the number can be written.
    pub open spec fn body_writable(v: Hand) -> bool {
        match v {
            Hand::MainHand => true,
            Hand::OffHand => true,
        }
    }

    /// The variant that `id` stands for, with its body read from `data`.
    pub open spec fn decode_with_id(id: i32, data: Seq<u8>) -> Decoded<Hand> {
        if id == 0x00 {
            Ok((Hand::MainHand, 0))
        } else if id == 0x01 {
            Ok((Hand::OffHand, 0))
        } else {
            Err(DecodeFailure::CannotUnderstandValue)
        }
    }

    /// Whether `id` stands for a variant.
    pub open spec fn has_id(id: i32) -> bool {
        id == 0x00
            || id == 0x01
    }

    /// Picks the variant for `id` and reads its body from `data`. A number
    /// that stands for no variant is refused, and the error says which.
    pub fn deserialize_with_id<'a>(id: VarInt, data: &'a [u8]) -> (r: DeserializeResult<'a, Self>)
        ensures
            agrees(r, data@, Self::decode_with_id(id.0, data@)),
            !Self::has_id(id.0) ==> (r matches Err(DeserializeErr::CannotUnderstandValue(m))
                && m@ == invalid_int_text("Hand"@, id.0 as int)),
    {
        proof {
            assert(data@.skip(0) =~= data@);
        }
        match id.0 {
            0x00 => Ok(Deserialized { value: Hand::MainHand, data }),
            0x01 => Ok(Deserialized { value: Hand::OffHand, data }),
            other => Err(DeserializeErr::CannotUnderstandValue(invalid_int_message("Hand", other))),
        }
    }

    /// Writes what follows the number.
    pub fn serialize_body<S: Serializer>(&self, to: &mut S) -> (r: SerializeResult)
        ensures
            r is Ok ==> Self::body_writable(self.deep_view()) && final(to).written() == old(
                to,
            ).written() + Self::body_of(self.deep_view()),
            old(to).infallible() ==> final(to).infallible(),
            old(to).infallible() ==> (r is Ok <==> Self::body_writable(self.deep_view())),
            old(to).infallible() && r is Err ==> (r matches Err(SerializeErr::CannotSerialize(_))),
    {
        match self {
            Hand::MainHand => {
                proof {
                    assert(old(to).written() + Seq::<u8>::empty() =~= old(to).written());
                }
                Ok(())
            },
            Hand::OffHand => {
                proof {
                    assert(old(to).written() + Seq::<u8>::empty() =~= old(to).written());
                }
                Ok(())
            },
        }
    }
}

impl Serialize for Hand {
    open spec fn serializable(v: Hand) -> bool {
        Self::body_writable(v)
    }

    #[verifier::opaque]
    open spec fn encode(v: Hand) -> Seq<u8> {
        <VarInt>::encode(VarInt(Self::id_of(v))) + Self::body_of(v)
    }

    fn mc_serialize<S: Serializer>(&self, to: &mut S) -> (r: SerializeResult) {
        proof {
            reveal(<Hand as Serialize>::encode);
        }
        let id_to_serialize: VarInt = self.id();
        id_to_serialize.mc_serialize(to)?;
        let r = self.serialize_body(to);
        proof {
            let head = <VarInt>::encode(VarInt(Self::id_of(self.deep_view())));
            let body = Self::body_of(self.deep_view());
            lemma_concat_assoc(old(to).written(), head, body);
        }
        r
    }
}

impl Deserialize for Hand {
    #[verifier::opaque]
    open spec fn decode(data: Seq<u8>) -> Decoded<Hand> {
        match <VarInt>::decode(data) {
            Err(e) => Err(e),
            Ok((id, n)) => match Self::decode_with_id(id.0, data.skip(n as int)) {
                Ok((v, m)) => Ok((v, n + m)),
                Err(e) => Err(e),
            },
        }
    }

    fn mc_deserialize(data: &[u8]) -> (r: DeserializeResult<'_, Hand>) {
        proof {
            reveal(<Hand as Deserialize>::decode);
        }
        let Deserialized { value: id, data: rest } = <VarInt>::mc_deserialize(data)?;
        let Deserialized { value, data: after } = Self::deserialize_with_id(id, rest)?;
        proof {
            lemma_skip_skip(data@, data@.len() - rest@.len(), rest@.len() - after@.len());
        }
        Ok(Deserialized { value, data: after })
    }
}

impl ProtocolType for Hand {
    open spec fn faithful(v: Hand) -> bool {
        match v {
            Hand::MainHand => true,
            Hand::OffHand => true,
        }
    }

    open spec fn delimited() -> bool {
        true
    }

    proof fn lemma_round_trip(v: Hand, rest: Seq<u8>) {
        reveal(<Hand as Serialize>::encode);
        reveal(<Hand as Deserialize>::decode);
        let head = <VarInt>::encode(VarInt(Self::id_of(v)));
        let body = Self::body_of(v);
        <VarInt>::lemma_round_trip(VarInt(Self::id_of(v)), body + rest);
        Self::lemma_body_round_trip(v, rest);
        lemma_concat_assoc(head, body, rest);
        lemma_skip_concat(head, body + rest);
    }
}

impl Hand {
    /// What follows the number, written out and followed by anything, reads
    /// back under that number.
    pub proof fn lemma_body_round_trip(v: Hand, rest: Seq<u8>)
        requires
            <Self as ProtocolType>::faithful(v),
            <Self as ProtocolType>::delimited() || rest.len() == 0,
        ensures
            Self::body_writable(v),
            Self::decode_with_id(Self::id_of(v), Self::body_of(v) + rest) == Ok::<_, DecodeFailure>(
                (v, Self::body_of(v).len()),
            ),
    {
        match v {
            Hand::MainHand => {
                assert(Seq::<u8>::empty() + rest =~= rest);
            },
            Hand::OffHand => {
                assert(Seq::<u8>::empty() + rest =~= rest);
            },
        }
    }
}

/// A use of an entity at a place on it.
#[derive(Debug, Clone, PartialEq)]
pub struct InteractAtSpec {
    /// The place on the target; each coordinate as the bit pattern of a 32-bit float.
    pub target_position: Vec3<u32>,
    pub hand: Hand,
}

/// The mathematical content of a [`InteractAtSpec`].
pub struct InteractAtSpecView {
    pub target_position: <Vec3<u32> as DeepView>::V,
    pub hand: <Hand as DeepView>::V,
}

impl DeepView for InteractAtSpec {
    type V = InteractAtSpecView;

    open spec fn deep_view(&self) -> InteractAtSpecView {
        InteractAtSpecView {
            target_position: self.target_position.deep_view(),
            hand: self.hand.deep_view(),
        }
    }
}

impl Serialize for InteractAtSpec {
    open spec fn serializable(v: InteractAtSpecView) -> bool {
        <Vec3<u32>>::serializable(v.target_position) && Hand::serializable(v.hand)
    }

    #[verifier::opaque]
    open spec fn encode(v: InteractAtSpecView) -> Seq<u8> {
        <Vec3<u32>>::encode(v.target_position) + Hand::encode(v.hand)
    }

    fn mc_serialize<S: Serializer>(&self, to: &mut S) -> (r: SerializeResult) {
        proof {
            reveal(<InteractAtSpec as Serialize>::encode);
        }
        self.target_position.mc_serialize(to)?;
        self.hand.mc_serialize(to)?;
        proof {
            assert(to.written() =~= old(to).written() + Self::encode(self.deep_view()));
        }
        Ok(())
    }
}

impl Deserialize for InteractAtSpec {
    #[verifier::opaque]
    open spec fn decode(data: Seq<u8>) -> Decoded<InteractAtSpecView> {
        match <Vec3<u32>>::decode(data) {
            Err(e) => Err(e),
            Ok((target_position, n0)) => {
                match Hand::decode(data.skip((n0) as int)) {
                    Err(e) => Err(e),
                    Ok((hand, n1)) => Ok((InteractAtSpecView { target_position, hand }, n0 + n1)),
                }
            },
        }
    }

    fn mc_deserialize(data: &[u8]) -> (r: DeserializeResult<'_, InteractAtSpec>) {
        proof {
            reveal(<InteractAtSpec as Deserialize>::decode);
        }
        let ghost whole = data@;
        let Deserialized { value: target_position, data: rest0 } = <Vec3<u32>>::mc_deserialize(data)?;
        let Deserialized { value: hand, data: rest1 } = Hand::mc_deserialize(rest0)?;
        proof {
            lemma_skip_skip(
                whole,
                whole.len() - rest0@.len(),
                rest0@.len() - rest1@.len(),
            );
        }
        Ok(Deserialized { value: InteractAtSpec { target_position, hand }, data: rest1 })
    }
}

impl ProtocolType for InteractAtSpec {
    open spec fn faithful(v: InteractAtSpecView) -> bool {
        <Vec3<u32>>::faithful(v.target_position) && Hand::faithful(v.hand)
    }

    open spec fn delimited() -> bool {
        Hand::delimited()
    }

    proof fn lemma_round_trip(v: InteractAtSpecView, rest: Seq<u8>) {
        reveal(<InteractAtSpec as Serialize>::encode);
        reveal(<InteractAtSpec as Deserialize>::decode);
        let e0 = <Vec3<u32>>::encode(v.target_position);
        let e1 = Hand::encode(v.hand);
        let data = Self::encode(v) + rest;
        let t2 = rest;
        let t1 = e1 + t2;
        let t0 = e0 + t1;
        let l0 = e0;
        let l1 = l0 + e1;
        lemma_concat_assoc(l0, e1, t2);
        assert(data == t0);
        <Vec3<u32>>::lemma_round_trip(v.target_position, t1);
        lemma_skip_concat(e0, t1);
        Hand::lemma_round_trip(v.hand, t2);
        lemma_skip_more(data, (e0.len()) as int, e1, t2);
    }
}

/// What a player does with an entity.
#[derive(PartialEq, Clone, Debug)]
pub enum InteractKind {
    Interact(Hand),
    Attack,
    InteractAt(InteractAtSpec),
}

/// The mathematical content of a [`InteractKind`].
pub enum InteractKindView {
    Interact(<Hand as DeepView>::V),
    Attack,
    InteractAt(<InteractAtSpec as DeepView>::V),
}

impl DeepView for InteractKind {
    type V = InteractKindView;

    open spec fn deep_view(&self) -> InteractKindView {
        match self {
            InteractKind::Interact(body) => InteractKindView::Interact(body.deep_view()),
            InteractKind::Attack => InteractKindView::Attack,
            InteractKind::InteractAt(body) => InteractKindView::InteractAt(body.deep_view()),
        }
    }
}

impl InteractKind {
    pub fn variant_count() -> (r: usize)
        ensures
            r == 3,
    {
        3
    }

    /// The number that stands for the variant on the wire.
    pub open spec fn id_of(v: InteractKindView) -> i32 {
        match v {
            InteractKindView::Interact(_) => 0x00,
            InteractKindView::Attack => 0x01,
            InteractKindView::InteractAt(_) => 0x02,
        }
    }

    pub fn id(&self) -> (r: VarInt)
        ensures
            r == VarInt(Self::id_of(self.deep_view())),
    {
        match self {
            InteractKind::Interact(_) => VarInt(0x00),
            InteractKind::Attack => VarInt(0x01),
            InteractKind::InteractAt(_) => VarInt(0x02),
        }
    }

    pub open spec fn name_of(v: InteractKindView) -> Seq<char> {
        match v {
            InteractKindView::Interact(_) => "Interact"@,
            InteractKindView::Attack => "Attack"@,
            InteractKindView::InteractAt(_) => "InteractAt"@,
        }
    }

    pub fn name(&self) -> (r: &'static str)
        ensures
            r@ == Self::name_of(self.deep_view()),
    {
        match self {
            InteractKind::Interact(_) => "Interact",
            InteractKind::Attack => "Attack",
            InteractKind::InteractAt(_) => "InteractAt",
        }
    }

    /// The bytes that follow the number.
    pub open spec fn body_of(v: InteractKindView) -> Seq<u8> {
        match v {
            InteractKindView::Interact(body) => <Hand>::encode(body),
            InteractKindView::Attack => Seq::empty(),
            InteractKindView::InteractAt(body) => <InteractAtSpec>::encode(body),
        }
    }

    /// Whether what follows the number can be written.
    pub open spec fn body_writable(v: InteractKindView) -> bool {
        match v {
            InteractKindView::Interact(body) => <Hand>::serializable(body),
            InteractKindView::Attack => true,
            InteractKindView::InteractAt(body) => <InteractAtSpec>::serializable(body),
        }
    }

    /// The variant that `id` stands for, with its body read from `data`.
    pub open spec fn decode_with_id(id: i32, data: Seq<u8>) -> Decoded<InteractKindView> {
        if id == 0x00 {
            match <Hand>::decode(data) {
                Ok((body, n)) => Ok((InteractKindView::Interact(body), n)),
                Err(e) => Err(e),
            }
        } else if id == 0x01 {
            Ok((InteractKindView::Attack, 0))
        } else if id == 0x02 {
            match <InteractAtSpec>::decode(data) {
                Ok((body, n)) => Ok((InteractKindView::InteractAt(body), n)),
                Err(e) => Err(e),
            }
        } else {
            Err(DecodeFailure::CannotUnderstandValue)
        }
    }

    /// Whether `id` stands for a variant.
    pub open spec fn has_id(id: i32) -> bool {
        id == 0x00
            || id == 0x01
            || id == 0x02
    }

    /// Picks the variant for `id` and reads its body from `data`. A number
    /// that stands for no variant is refused, and the error says which.
    pub fn deserialize_with_id<'a>(id: VarInt, data: &'a [u8]) -> (r: DeserializeResult<'a, Self>)
        ensures
            agrees(r, data@, Self::decode_with_id(id.0, data@)),
            !Self::has_id(id.0) ==> (r matches Err(DeserializeErr::CannotUnderstandValue(m))
                && m@ == invalid_int_text("InteractKind"@, id.0 as int)),
    {
        proof {
            assert(data@.skip(0) =~= data@);
        }
        match id.0 {
            0x00 => {
                let Deserialized { value: body, data: rest } = <Hand>::mc_deserialize(data)?;
                Ok(Deserialized { value: InteractKind::Interact(body), data: rest })
            },
            0x01 => Ok(Deserialized { value: InteractKind::Attack, data }),
            0x02 => {
                let Deserialized { value: body, data: rest } = <InteractAtSpec>::mc_deserialize(data)?;
                Ok(Deserialized { value: InteractKind::InteractAt(body), data: rest })
            },
            other => Err(DeserializeErr::CannotUnderstandValue(invalid_int_message("InteractKind", other))),
        }
    }

    /// Writes what follows the number.
    pub fn serialize_body<S: Serializer>(&self, to: &mut S) -> (r: SerializeResult)
        ensures
            r is Ok ==> Self::body_writable(self.deep_view()) && final(to).written() == old(
                to,
            ).written() + Self::body_of(self.deep_view()),
            old(to).infallible() ==> final(to).infallible(),
            old(to).infallible() ==> (r is Ok <==> Self::body_writable(self.deep_view())),
            old(to).infallible() && r is Err ==> (r matches Err(SerializeErr::CannotSerialize(_))),
    {
        match self {
            InteractKind::Interact(bod) => bod.mc_serialize(to),
            InteractKind::Attack => {
                proof {
                    assert(old(to).written() + Seq::<u8>::empty() =~= old(to).written());
                }
                Ok(())
            },
            InteractKind::InteractAt(bod) => bod.mc_serialize(to),
        }
    }
}

impl Serialize for InteractKind {
    open spec fn serializable(v: InteractKindView) -> bool {
        Self::body_writable(v)
    }

    #[verifier::opaque]
    open spec fn encode(v: InteractKindView) -> Seq<u8> {
        <VarInt>::encode(VarInt(Self::id_of(v))) + Self::body_of(v)
    }

    fn mc_serialize<S: Serializer>(&self, to: &mut S) -> (r: SerializeResult) {
        proof {
            reveal(<InteractKind as Serialize>::encode);
        }
        let id_to_serialize: VarInt = self.id();
        id_to_serialize.mc_serialize(to)?;
        let r = self.serialize_body(to);
        proof {
            let head = <VarInt>::encode(VarInt(Self::id_of(self.deep_view())));
            let body = Self::body_of(self.deep_view());
            lemma_concat_assoc(old(to).written(), head, body);
        }
        r
    }
}

impl Deserialize for InteractKind {
    #[verifier::opaque]
    open spec fn decode(data: Seq<u8>) -> Decoded<InteractKindView> {
        match <VarInt>::decode(data) {
            Err(e) => Err(e),
            Ok((id, n)) => match Self::decode_with_id(id.0, data.skip(n as int)) {
                Ok((v, m)) => Ok((v, n + m)),
                Err(e) => Err(e),
            },
        }
    }

    fn mc_deserialize(data: &[u8]) -> (r: DeserializeResult<'_, InteractKind>) {
        proof {
            reveal(<InteractKind as Deserialize>::decode);
        }
        let Deserialized { value: id, data: rest } = <VarInt>::mc_deserialize(data)?;
        let Deserialized { value, data: after } = Self::deserialize_with_id(id, rest)?;
        proof {
            lemma_skip_skip(data@, data@.len() - rest@.len(), rest@.len() - after@.len());
        }
        Ok(Deserialized { value, data: after })
    }
}

impl ProtocolType for InteractKind {
    open spec fn faithful(v: InteractKindView) -> bool {
        match v {
            InteractKindView::Interact(body) => <Hand>::faithful(body),
            InteractKindView::Attack => true,
            InteractKindView::InteractAt(body) => <InteractAtSpec>::faithful(body),
        }
    }

    open spec fn delimited() -> bool {
        <Hand>::delimited() && <InteractAtSpec>::delimited()
    }

    proof fn lemma_round_trip(v: InteractKindView, rest: Seq<u8>) {
        reveal(<InteractKind as Serialize>::encode);
        reveal(<InteractKind as Deserialize>::decode);
        let head = <VarInt>::encode(VarInt(Self::id_of(v)));
        let body = Self::body_of(v);
        <VarInt>::lemma_round_trip(VarInt(Self::id_of(v)), body + rest);
        Self::lemma_body_round_trip(v, rest);
        lemma_concat_assoc(head, body, rest);
        lemma_skip_concat(head, body + rest);
    }
}

impl InteractKind {
    /// What follows the number, written out and followed by anything, reads
    /// back under that number.
    pub proof fn lemma_body_round_trip(v: InteractKindView, rest: Seq<u8>)
        requires
            <Self as ProtocolType>::faithful(v),
            <Self as ProtocolType>::delimited() || rest.len() == 0,
        ensures
            Self::body_writable(v),
            Self::decode_with_id(Self::id_of(v), Self::body_of(v) + rest) == Ok::<_, DecodeFailure>(
                (v, Self::body_of(v).len()),
            ),
    {
        match v {
            InteractKindView::Interact(body) => {
                <Hand>::lemma_round_trip(body, rest);
            },
            InteractKindView::Attack => {
                assert(Seq::<u8>::empty() + rest =~= rest);
            },
            InteractKindView::InteractAt(body) => {
                <InteractAtSpec>::lemma_round_trip(body, rest);
            },
        }
    }
}

/// One way to complete what was typed.
#[derive(Debug, Clone, PartialEq)]
pub struct TabCompleteMatch {
    pub match_: String,
    /// What shows beside the match, as the JSON text of a chat component.
    pub tooltip: Option<String>,
}

/// The mathematical content of a [`TabCompleteMatch`].
pub struct TabCompleteMatchView {
    pub match_: Seq<char>,
    pub tooltip: <Option<String> as DeepView>::V,
}

impl DeepView for TabCompleteMatch {
    type V = TabCompleteMatchView;

    open spec fn deep_view(&self) -> TabCompleteMatchView {
        TabCompleteMatchView {
            match_: self.match_.deep_view(),
            tooltip: self.tooltip.deep_view(),
        }
    }
}

impl Serialize for TabCompleteMatch {
    open spec fn serializable(v: TabCompleteMatchView) -> bool {
        String::serializable(v.match_) && <Option<String>>::serializable(v.tooltip)
    }

    #[verifier::opaque]
    open spec fn encode(v: TabCompleteMatchView) -> Seq<u8> {
        String::encode(v.match_) + <Option<String>>::encode(v.tooltip)
    }

    fn mc_serialize<S: Serializer>(&self, to: &mut S) -> (r: SerializeResult) {
        proof {
            reveal(<TabCompleteMatch as Serialize>::encode);
        }
        self.match_.mc_serialize(to)?;
        self.tooltip.mc_serialize(to)?;
        proof {
            assert(to.written() =~= old(to).written() + Self::encode(self.deep_view()));
        }
        Ok(())
    }
}

impl Deserialize for TabCompleteMatch {
    #[verifier::opaque]
    open spec fn decode(data: Seq<u8>) -> Decoded<TabCompleteMatchView> {
        match String::decode(data) {
            Err(e) => Err(e),
            Ok((match_, n0)) => {
                match <Option<String>>::decode(data.skip((n0) as int)) {
                    Err(e) => Err(e),
                    Ok((tooltip, n1)) => Ok((TabCompleteMatchView { match_, tooltip }, n0 + n1)),
                }
            },
        }
    }

    fn mc_deserialize(data: &[u8]) -> (r: DeserializeResult<'_, TabCompleteMatch>) {
        proof {
            reveal(<TabCompleteMatch as Deserialize>::decode);
        }
        let ghost whole = data@;
        let Deserialized { value: match_, data: rest0 } = String::mc_deserialize(data)?;
        let Deserialized { value: tooltip, data: rest1 } = <Option<String>>::mc_deserialize(rest0)?;
        proof {
            lemma_skip_skip(
                whole,
                whole.len() - rest0@.len(),
                rest0@.len() - rest1@.len(),
            );
        }
        Ok(Deserialized { value: TabCompleteMatch { match_, tooltip }, data: rest1 })
    }
}

impl ProtocolType for TabCompleteMatch {
    open spec fn faithful(v: TabCompleteMatchView) -> bool {
        String::faithful(v.match_) && <Option<String>>::faithful(v.tooltip)
    }

    open spec fn delimited() -> bool {
        <Option<String>>::delimited()
    }

    proof fn lemma_round_trip(v: TabCompleteMatchView, rest: Seq<u8>) {
        reveal(<TabCompleteMatch as Serialize>::encode);
        reveal(<TabCompleteMatch as Deserialize>::decode);
        let e0 = String::encode(v.match_);
        let e1 = <Option<String>>::encode(v.tooltip);
        let data = Self::encode(v) + rest;
        let t2 = rest;
        let t1 = e1 + t2;
        let t0 = e0 + t1;
        let l0 = e0;
        let l1 = l0 + e1;
        lemma_concat_assoc(l0, e1, t2);
        assert(data == t0);
        String::lemma_round_trip(v.match_, t1);
        lemma_skip_concat(e0, t1);
        <Option<String>>::lemma_round_trip(v.tooltip, t2);
        lemma_skip_more(data, (e0.len()) as int, e1, t2);
    }
}

/// A property of a player, signed or not.
#[derive(Debug, Clone, PartialEq)]
pub struct PlayerAddProperty {
    pub name: String,
    pub value: String,
    pub signature: Option<String>,
}

/// The mathematical content of a [`PlayerAddProperty`].
pub struct PlayerAddPropertyView {
    pub name: Seq<char>,
    pub value: Seq<char>,
    pub signature: <Option<String> as DeepView>::V,
}

impl DeepView for PlayerAddProperty {
    type V = PlayerAddPropertyView;

    open spec fn deep_view(&self) -> PlayerAddPropertyView {
        PlayerAddPropertyView {
            name: self.name.deep_view(),
            value: self.value.deep_view(),
            signature: self.signature.deep_view(),
        }
    }
}

impl Serialize for PlayerAddProperty {
    open spec fn serializable(v: PlayerAddPropertyView) -> bool {
        String::serializable(v.name) && String::serializable(v.value) && <Option<String>>::serializable(v.signature)
    }

    #[verifier::opaque]
    open spec fn encode(v: PlayerAddPropertyView) -> Seq<u8> {
        String::encode(v.name) + String::encode(v.value) + <Option<String>>::encode(v.signature)
    }

    fn mc_serialize<S: Serializer>(&self, to: &mut S) -> (r: SerializeResult) {
        proof {
            reveal(<PlayerAddProperty as Serialize>::encode);
        }
        self.name.mc_serialize(to)?;
        self.value.mc_serialize(to)?;
        self.signature.mc_serialize(to)?;
        proof {
            let v = self.deep_view();
            let w = old(to).written();
            let e0 = String::encode(v.name);
            let e1 = String::encode(v.value);
            let e2 = <Option<String>>::encode(v.signature);
            let l0 = e0;
            let l1 = l0 + e1;
            let l2 = l1 + e2;
            lemma_concat_assoc(w, l0, e1);
            lemma_concat_assoc(w, l1, e2);
        }
        Ok(())
    }
}

impl Deserialize for PlayerAddProperty {
    #[verifier::opaque]
    open spec fn decode(data: Seq<u8>) -> Decoded<PlayerAddPropertyView> {
        match String::decode(data) {
            Err(e) => Err(e),
            Ok((name, n0)) => {
                match String::decode(data.skip((n0) as int)) {
                    Err(e) => Err(e),
                    Ok((value, n1)) => {
                        match <Option<String>>::decode(data.skip((n0 + n1) as int)) {
                            Err(e) => Err(e),
                            Ok((signature, n2)) => Ok((PlayerAddPropertyView { name, value, signature }, n0 + n1 + n2)),
                        }
                    },
                }
            },
        }
    }

    fn mc_deserialize(data: &[u8]) -> (r: DeserializeResult<'_, PlayerAddProperty>) {
        proof {
            reveal(<PlayerAddProperty as Deserialize>::decode);
        }
        let ghost whole = data@;
        let Deserialized { value: name, data: rest0 } = String::mc_deserialize(data)?;
        let Deserialized { value: value, data: rest1 } = String::mc_deserialize(rest0)?;
        proof {
            lemma_skip_skip(
                whole,
                whole.len() - rest0@.len(),
                rest0@.len() - rest1@.len(),
            );
        }
        let Deserialized { value: signature, data: rest2 } = <Option<String>>::mc_deserialize(rest1)?;
        proof {
            lemma_skip_skip(
                whole,
                whole.len() - rest1@.len(),
                rest1@.len() - rest2@.len(),
            );
        }
        Ok(Deserialized { value: PlayerAddProperty { name, value, signature }, data: rest2 })
    }
}

impl ProtocolType for PlayerAddProperty {
    open spec fn faithful(v: PlayerAddPropertyView) -> bool {
        String::faithful(v.name) && String::faithful(v.value) && <Option<String>>::faithful(v.signature)
    }

    open spec fn delimited() -> bool {
        <Option<String>>::delimited()
    }

    proof fn lemma_round_trip(v: PlayerAddPropertyView, rest: Seq<u8>) {
        reveal(<PlayerAddProperty as Serialize>::encode);
        reveal(<PlayerAddProperty as Deserialize>::decode);
        let e0 = String::encode(v.name);
        let e1 = String::encode(v.value);
        let e2 = <Option<String>>::encode(v.signature);
        let data = Self::encode(v) + rest;
        let t3 = rest;
        let t2 = e2 + t3;
        let t1 = e1 + t2;
        let t0 = e0 + t1;
        let l0 = e0;
        let l1 = l0 + e1;
        let l2 = l1 + e2;
        lemma_concat_assoc(l1, e2, t3);
        lemma_concat_assoc(l0, e1, t2);
        assert(data == t0);
        String::lemma_round_trip(v.name, t1);
        lemma_skip_concat(e0, t1);
        String::lemma_round_trip(v.value, t2);
        lemma_skip_more(data, (e0.len()) as int, e1, t2);
        <Option<String>>::lemma_round_trip(v.signature, t3);
        lemma_skip_more(data, (e0.len() + e1.len()) as int, e2, t3);
    }
}

/// A player that joins the list.
#[derive(Debug, Clone, PartialEq)]
pub struct PlayerAddActionSpec {
    pub name: String,
    pub properties: CountedArray<PlayerAddProperty, VarInt>,
    pub game_mode: GameMode,
    pub ping_ms: VarInt,
    /// The name to show, as the JSON text of a chat component.
    pub display_name: Option<String>,
}

/// The mathematical content of a [`PlayerAddActionSpec`].
pub struct PlayerAddActionSpecView {
    pub name: Seq<char>,
    pub properties: <CountedArray<PlayerAddProperty, VarInt> as DeepView>::V,
    pub game_mode: GameMode,
    pub ping_ms: VarInt,
    pub display_name: <Option<String> as DeepView>::V,
}

impl DeepView for PlayerAddActionSpec {
    type V = PlayerAddActionSpecView;

    open spec fn deep_view(&self) -> PlayerAddActionSpecView {
        PlayerAddActionSpecView {
            name: self.name.deep_view(),
            properties: self.properties.deep_view(),
            game_mode: self.game_mode.deep_view(),
            ping_ms: self.ping_ms.deep_view(),
            display_name: self.display_name.deep_view(),
        }
    }
}

impl Serialize for PlayerAddActionSpec {
    open spec fn serializable(v: PlayerAddActionSpecView) -> bool {
        String::serializable(v.name) && <CountedArray<PlayerAddProperty, VarInt>>::serializable(v.properties) && GameMode::serializable(v.game_mode) && VarInt::serializable(v.ping_ms) && <Option<String>>::serializable(v.display_name)
    }

    #[verifier::opaque]
    open spec fn encode(v: PlayerAddActionSpecView) -> Seq<u8> {
        String::encode(v.name) + <CountedArray<PlayerAddProperty, VarInt>>::encode(v.properties) + GameMode::encode(v.game_mode) + VarInt::encode(v.ping_ms) + <Option<String>>::encode(v.display_name)
    }

    fn mc_serialize<S: Serializer>(&self, to: &mut S) -> (r: SerializeResult) {
        proof {
            reveal(<PlayerAddActionSpec as Serialize>::encode);
        }
        self.name.mc_serialize(to)?;
        self.properties.mc_serialize(to)?;
        self.game_mode.mc_serialize(to)?;
        self.ping_ms.mc_serialize(to)?;
        self.display_name.mc_serialize(to)?;
        proof {
            let v = self.deep_view();
            let w = old(to).written();
            let e0 = String::encode(v.name);
            let e1 = <CountedArray<PlayerAddProperty, VarInt>>::encode(v.properties);
            let e2 = GameMode::encode(v.game_mode);
            let e3 = VarInt::encode(v.ping_ms);
            let e4 = <Option<String>>::encode(v.display_name);
            let l0 = e0;
            let l1 = l0 + e1;
            let l2 = l1 + e2;
            let l3 = l2 + e3;
            let l4 = l3 + e4;
            lemma_concat_assoc(w, l0, e1);
            lemma_concat_assoc(w, l1, e2);
            lemma_concat_assoc(w, l2, e3);
            lemma_concat_assoc(w, l3, e4);
        }
        Ok(())
    }
}

impl Deserialize for PlayerAddActionSpec {
    #[verifier::opaque]
    open spec fn decode(data: Seq<u8>) -> Decoded<PlayerAddActionSpecView> {
        match String::decode(data) {
            Err(e) => Err(e),
            Ok((name, n0)) => {
                match <CountedArray<PlayerAddProperty, VarInt>>::decode(data.skip((n0) as int)) {
                    Err(e) => Err(e),
                    Ok((properties, n1)) => {
                        match GameMode::decode(data.skip((n0 + n1) as int)) {
                            Err(e) => Err(e),
                            Ok((game_mode, n2)) => {
                                match VarInt::decode(data.skip((n0 + n1 + n2) as int)) {
                                    Err(e) => Err(e),
                                    Ok((ping_ms, n3)) => {
                                        match <Option<String>>::decode(data.skip((n0 + n1 + n2 + n3) as int)) {
                                            Err(e) => Err(e),
                                            Ok((display_name, n4)) => Ok((PlayerAddActionSpecView { name, properties, game_mode, ping_ms, display_name }, n0 + n1 + n2 + n3 + n4)),
                                        }
                                    },
                                }
                            },
                        }
                    },
                }
            },
        }
    }

    fn mc_deserialize(data: &[u8]) -> (r: DeserializeResult<'_, PlayerAddActionSpec>) {
        proof {
            reveal(<PlayerAddActionSpec as Deserialize>::decode);
        }
        let ghost whole = data@;
        let Deserialized { value: name, data: rest0 } = String::mc_deserialize(data)?;
        let Deserialized { value: properties, data: rest1 } = <CountedArray<PlayerAddProperty, VarInt>>::mc_deserialize(rest0)?;
        proof {
            lemma_skip_skip(
                whole,
                whole.len() - rest0@.len(),
                rest0@.len() - rest1@.len(),
            );
        }
        let Deserialized { value: game_mode, data: rest2 } = GameMode::mc_deserialize(rest1)?;
        proof {
            lemma_skip_skip(
                whole,
                whole.len() - rest1@.len(),
                rest1@.len() - rest2@.len(),
            );
        }
        let Deserialized { value: ping_ms, data: rest3 } = VarInt::mc_deserialize(rest2)?;
        proof {
            lemma_skip_skip(
                whole,
                whole.len() - rest2@.len(),
                rest2@.len() - rest3@.len(),
            );
        }
        let Deserialized { value: display_name, data: rest4 } = <Option<String>>::mc_deserialize(rest3)?;
        proof {
            lemma_skip_skip(
                whole,
                whole.len() - rest3@.len(),
                rest3@.len() - rest4@.len(),
            );
        }
        Ok(Deserialized { value: PlayerAddActionSpec { name, properties, game_mode, ping_ms, display_name }, data: rest4 })
    }
}

impl ProtocolType for PlayerAddActionSpec {
    open spec fn faithful(v: PlayerAddActionSpecView) -> bool {
        String::faithful(v.name) && <CountedArray<PlayerAddProperty, VarInt>>::faithful(v.properties) && GameMode::faithful(v.game_mode) && VarInt::faithful(v.ping_ms) && <Option<String>>::faithful(v.display_name)
    }

    open spec fn delimited() -> bool {
        <Option<String>>::delimited()
    }

    proof fn lemma_round_trip(v: PlayerAddActionSpecView, rest: Seq<u8>) {
        reveal(<PlayerAddActionSpec as Serialize>::encode);
        reveal(<PlayerAddActionSpec as Deserialize>::decode);
        let e0 = String::encode(v.name);
        let e1 = <CountedArray<PlayerAddProperty, VarInt>>::encode(v.properties);
        let e2 = GameMode::encode(v.game_mode);
        let e3 = VarInt::encode(v.ping_ms);
        let e4 = <Option<String>>::encode(v.display_name);
        let data = Self::encode(v) + rest;
        let t5 = rest;
        let t4 = e4 + t5;
        let t3 = e3 + t4;
        let t2 = e2 + t3;
        let t1 = e1 + t2;
        let t0 = e0 + t1;
        let l0 = e0;
        let l1 = l0 + e1;
        let l2 = l1 + e2;
        let l3 = l2 + e3;
        let l4 = l3 + e4;
        lemma_concat_assoc(l3, e4, t5);
        lemma_concat_assoc(l2, e3, t4);
        lemma_concat_assoc(l1, e2, t3);
        lemma_concat_assoc(l0, e1, t2);
        assert(data == t0);
        String::lemma_round_trip(v.name, t1);
        lemma_skip_concat(e0, t1);
        <CountedArray<PlayerAddProperty, VarInt>>::lemma_round_trip(v.properties, t2);
        lemma_skip_more(data, (e0.len()) as int, e1, t2);
        GameMode::lemma_round_trip(v.game_mode, t3);
        lemma_skip_more(data, (e0.len() + e1.len()) as int, e2, t3);
        VarInt::lemma_round_trip(v.ping_ms, t4);
        lemma_skip_more(data, (e0.len() + e1.len() + e2.len()) as int, e3, t4);
        <Option<String>>::lemma_round_trip(v.display_name, t5);
        lemma_skip_more(data, (e0.len() + e1.len() + e2.len() + e3.len()) as int, e4, t5);
    }
}

/// Something about one player of the list.
#[derive(Debug, Clone, PartialEq)]
pub struct PlayerInfoAction<A> {
    pub uuid: UUID4,
    pub action: A,
}

impl<A: DeepView> DeepView for PlayerInfoAction<A> {
    type V = (u128, A::V);

    open spec fn deep_view(&self) -> (u128, A::V) {
        (self.uuid@, self.action.deep_view())
    }
}

impl<A: Serialize> Serialize for PlayerInfoAction<A> {
    open spec fn serializable(v: (u128, A::V)) -> bool {
        A::serializable(v.1)
    }

    open spec fn encode(v: (u128, A::V)) -> Seq<u8> {
        UUID4::encode(v.0) + A::encode(v.1)
    }

    fn mc_serialize<S: Serializer>(&self, to: &mut S) -> (r: SerializeResult) {
        self.uuid.mc_serialize(to)?;
        self.action.mc_serialize(to)?;
        proof {
            assert(to.written() =~= old(to).written() + Self::encode(self.deep_view()));
        }
        Ok(())
    }
}

impl<A: Deserialize> Deserialize for PlayerInfoAction<A> {
    open spec fn decode(data: Seq<u8>) -> Decoded<(u128, A::V)> {
        match UUID4::decode(data) {
            Err(e) => Err(e),
            Ok((uuid, n0)) => match A::decode(data.skip(n0 as int)) {
                Err(e) => Err(e),
                Ok((action, n1)) => Ok(((uuid, action), n0 + n1)),
            },
        }
    }

    fn mc_deserialize(data: &[u8]) -> (r: DeserializeResult<'_, PlayerInfoAction<A>>) {
        let ghost whole = data@;
        let Deserialized { value: uuid, data: rest0 } = UUID4::mc_deserialize(data)?;
        let Deserialized { value: action, data: rest1 } = A::mc_deserialize(rest0)?;
        proof {
            assert(rest1@ =~= whole.skip(whole.len() - rest1@.len()));
        }
        Ok(Deserialized { value: PlayerInfoAction { uuid, action }, data: rest1 })
    }
}

impl<A: ProtocolType> ProtocolType for PlayerInfoAction<A> {
    open spec fn faithful(v: (u128, A::V)) -> bool {
        A::faithful(v.1)
    }

    open spec fn delimited() -> bool {
        A::delimited()
    }

    proof fn lemma_round_trip(v: (u128, A::V), rest: Seq<u8>) {
        let e0 = UUID4::encode(v.0);
        let e1 = A::encode(v.1);
        let data = Self::encode(v) + rest;
        UUID4::lemma_round_trip(v.0, e1 + rest);
        A::lemma_round_trip(v.1, rest);
        assert(data =~= e0 + (e1 + rest));
        assert(data.skip(e0.len() as int) =~= e1 + rest);
    }
}

/// A change to the list of players, for several players at once. A name to show is held as the JSON text of a chat component.
#[derive(PartialEq, Clone, Debug)]
pub enum PlayerInfoActionList {
    Add(CountedArray<PlayerInfoAction<PlayerAddActionSpec>, VarInt>),
    UpdateGameMode(CountedArray<PlayerInfoAction<GameMode>, VarInt>),
    UpdateLatency(CountedArray<PlayerInfoAction<VarInt>, VarInt>),
    UpdateDisplayName(CountedArray<PlayerInfoAction<Option<String>>, VarInt>),
    Remove(CountedArray<UUID4, VarInt>),
}

/// The mathematical content of a [`PlayerInfoActionList`].
pub enum PlayerInfoActionListView {
    Add(<CountedArray<PlayerInfoAction<PlayerAddActionSpec>, VarInt> as DeepView>::V),
    UpdateGameMode(<CountedArray<PlayerInfoAction<GameMode>, VarInt> as DeepView>::V),
    UpdateLatency(<CountedArray<PlayerInfoAction<VarInt>, VarInt> as DeepView>::V),
    UpdateDisplayName(<CountedArray<PlayerInfoAction<Option<String>>, VarInt> as DeepView>::V),
    Remove(<CountedArray<UUID4, VarInt> as DeepView>::V),
}

impl DeepView for PlayerInfoActionList {
    type V = PlayerInfoActionListView;

    open spec fn deep_view(&self) -> PlayerInfoActionListView {
        match self {
            PlayerInfoActionList::Add(body) => PlayerInfoActionListView::Add(body.deep_view()),
            PlayerInfoActionList::UpdateGameMode(body) => PlayerInfoActionListView::UpdateGameMode(body.deep_view()),
            PlayerInfoActionList::UpdateLatency(body) => PlayerInfoActionListView::UpdateLatency(body.deep_view()),
            PlayerInfoActionList::UpdateDisplayName(body) => PlayerInfoActionListView::UpdateDisplayName(body.deep_view()),
            PlayerInfoActionList::Remove(body) => PlayerInfoActionListView::Remove(body.deep_view()),
        }
    }
}

impl PlayerInfoActionList {
    pub fn variant_count() -> (r: usize)
        ensures
            r == 5,
    {
        5
    }

    /// The number that stands for the variant on the wire.
    pub open spec fn id_of(v: PlayerInfoActionListView) -> i32 {
        match v {
            PlayerInfoActionListView::Add(_) => 0x00,
            PlayerInfoActionListView::UpdateGameMode(_) => 0x01,
            PlayerInfoActionListView::UpdateLatency(_) => 0x02,
            PlayerInfoActionListView::UpdateDisplayName(_) => 0x03,
            PlayerInfoActionListView::Remove(_) => 0x04,
        }
    }

    pub fn id(&self) -> (r: VarInt)
        ensures
            r == VarInt(Self::id_of(self.deep_view())),
    {
        match self {
            PlayerInfoActionList::Add(_) => VarInt(0x00),
            PlayerInfoActionList::UpdateGameMode(_) => VarInt(0x01),
            PlayerInfoActionList::UpdateLatency(_) => VarInt(0x02),
            PlayerInfoActionList::UpdateDisplayName(_) => VarInt(0x03),
            PlayerInfoActionList::Remove(_) => VarInt(0x04),
        }
    }

    pub open spec fn name_of(v: PlayerInfoActionListView) -> Seq<char> {
        match v {
            PlayerInfoActionListView::Add(_) => "Add"@,
            PlayerInfoActionListView::UpdateGameMode(_) => "UpdateGameMode"@,
            PlayerInfoActionListView::UpdateLatency(_) => "UpdateLatency"@,
            PlayerInfoActionListView::UpdateDisplayName(_) => "UpdateDisplayName"@,
            PlayerInfoActionListView::Remove(_) => "Remove"@,
        }
    }

    pub fn name(&self) -> (r: &'static str)
        ensures
            r@ == Self::name_of(self.deep_view()),
    {
        match self {
            PlayerInfoActionList::Add(_) => "Add",
            PlayerInfoActionList::UpdateGameMode(_) => "UpdateGameMode",
            PlayerInfoActionList::UpdateLatency(_) => "UpdateLatency",
            PlayerInfoActionList::UpdateDisplayName(_) => "UpdateDisplayName",
            PlayerInfoActionList::Remove(_) => "Remove",
        }
    }

    /// The bytes that follow the number.
    pub open spec fn body_of(v: PlayerInfoActionListView) -> Seq<u8> {
        match v {
            PlayerInfoActionListView::Add(body) => <CountedArray<PlayerInfoAction<PlayerAddActionSpec>, VarInt>>::encode(body),
            PlayerInfoActionListView::UpdateGameMode(body) => <CountedArray<PlayerInfoAction<GameMode>, VarInt>>::encode(body),
            PlayerInfoActionListView::UpdateLatency(body) => <CountedArray<PlayerInfoAction<VarInt>, VarInt>>::encode(body),
            PlayerInfoActionListView::UpdateDisplayName(body) => <CountedArray<PlayerInfoAction<Option<String>>, VarInt>>::encode(body),
            PlayerInfoActionListView::Remove(body) => <CountedArray<UUID4, VarInt>>::encode(body),
        }
    }

    /// Whether what follows the number can be written.
    pub open spec fn body_writable(v: PlayerInfoActionListView) -> bool {
        match v {
            PlayerInfoActionListView::Add(body) => <CountedArray<PlayerInfoAction<PlayerAddActionSpec>, VarInt>>::serializable(body),
            PlayerInfoActionListView::UpdateGameMode(body) => <CountedArray<PlayerInfoAction<GameMode>, VarInt>>::serializable(body),
            PlayerInfoActionListView::UpdateLatency(body) => <CountedArray<PlayerInfoAction<VarInt>, VarInt>>::serializable(body),
            PlayerInfoActionListView::UpdateDisplayName(body) => <CountedArray<PlayerInfoAction<Option<String>>, VarInt>>::serializable(body),
            PlayerInfoActionListView::Remove(body) => <CountedArray<UUID4, VarInt>>::serializable(body),
        }
    }

    /// The variant that `id` stands for, with its body read from `data`.
    pub open spec fn decode_with_id(id: i32, data: Seq<u8>) -> Decoded<PlayerInfoActionListView> {
        if id == 0x00 {
            match <CountedArray<PlayerInfoAction<PlayerAddActionSpec>, VarInt>>::decode(data) {
                Ok((body, n)) => Ok((PlayerInfoActionListView::Add(body), n)),
                Err(e) => Err(e),
            }
        } else if id == 0x01 {
            match <CountedArray<PlayerInfoAction<GameMode>, VarInt>>::decode(data) {
                Ok((body, n)) => Ok((PlayerInfoActionListView::UpdateGameMode(body), n)),
                Err(e) => Err(e),
            }
        } else if id == 0x02 {
            match <CountedArray<PlayerInfoAction<VarInt>, VarInt>>::decode(data) {
                Ok((body, n)) => Ok((PlayerInfoActionListView::UpdateLatency(body), n)),
                Err(e) => Err(e),
            }
        } else if id == 0x03 {
            match <CountedArray<PlayerInfoAction<Option<String>>, VarInt>>::decode(data) {
                Ok((body, n)) => Ok((PlayerInfoActionListView::UpdateDisplayName(body), n)),
                Err(e) => Err(e),
            }
        } else if id == 0x04 {
            match <CountedArray<UUID4, VarInt>>::decode(data) {
                Ok((body, n)) => Ok((PlayerInfoActionListView::Remove(body), n)),
                Err(e) => Err(e),
            }
        } else {
            Err(DecodeFailure::CannotUnderstandValue)
        }
    }

    /// Whether `id` stands for a variant.
    pub open spec fn has_id(id: i32) -> bool {
        id == 0x00
            || id == 0x01
            || id == 0x02
            || id == 0x03
            || id == 0x04
    }

    /// Picks the variant for `id` and reads its body from `data`. A number
    /// that stands for no variant is refused, and the error says which.
    pub fn deserialize_with_id<'a>(id: VarInt, data: &'a [u8]) -> (r: DeserializeResult<'a, Self>)
        ensures
            agrees(r, data@, Self::decode_with_id(id.0, data@)),
            !Self::has_id(id.0) ==> (r matches Err(DeserializeErr::CannotUnderstandValue(m))
                && m@ == invalid_int_text("PlayerInfoActionList"@, id.0 as int)),
    {
        proof {
            assert(data@.skip(0) =~= data@);
        }
        match id.0 {
            0x00 => {
                let Deserialized { value: body, data: rest } = <CountedArray<PlayerInfoAction<PlayerAddActionSpec>, VarInt>>::mc_deserialize(data)?;
                Ok(Deserialized { value: PlayerInfoActionList::Add(body), data: rest })
            },
            0x01 => {
                let Deserialized { value: body, data: rest } = <CountedArray<PlayerInfoAction<GameMode>, VarInt>>::mc_deserialize(data)?;
                Ok(Deserialized { value: PlayerInfoActionList::UpdateGameMode(body), data: rest })
            },
            0x02 => {
                let Deserialized { value: body, data: rest } = <CountedArray<PlayerInfoAction<VarInt>, VarInt>>::mc_deserialize(data)?;
                Ok(Deserialized { value: PlayerInfoActionList::UpdateLatency(body), data: rest })
            },
            0x03 => {
                let Deserialized { value: body, data: rest } = <CountedArray<PlayerInfoAction<Option<String>>, VarInt>>::mc_deserialize(data)?;
                Ok(Deserialized { value: PlayerInfoActionList::UpdateDisplayName(body), data: rest })
            },
            0x04 => {
                let Deserialized { value: body, data: rest } = <CountedArray<UUID4, VarInt>>::mc_deserialize(data)?;
                Ok(Deserialized { value: PlayerInfoActionList::Remove(body), data: rest })
            },
            other => Err(DeserializeErr::CannotUnderstandValue(invalid_int_message("PlayerInfoActionList", other))),
        }
    }

    /// Writes what follows the number.
    pub fn serialize_body<S: Serializer>(&self, to: &mut S) -> (r: SerializeResult)
        ensures
            r is Ok ==> Self::body_writable(self.deep_view()) && final(to).written() == old(
                to,
            ).written() + Self::body_of(self.deep_view()),
            old(to).infallible() ==> final(to).infallible(),
            old(to).infallible() ==> (r is Ok <==> Self::body_writable(self.deep_view())),
            old(to).infallible() && r is Err ==> (r matches Err(SerializeErr::CannotSerialize(_))),
    {
        match self {
            PlayerInfoActionList::Add(bod) => bod.mc_serialize(to),
            PlayerInfoActionList::UpdateGameMode(bod) => bod.mc_serialize(to),
            PlayerInfoActionList::UpdateLatency(bod) => bod.mc_serialize(to),
            PlayerInfoActionList::UpdateDisplayName(bod) => bod.mc_serialize(to),
            PlayerInfoActionList::Remove(bod) => bod.mc_serialize(to),
        }
    }
}

impl Serialize for PlayerInfoActionList {
    open spec fn serializable(v: PlayerInfoActionListView) -> bool {
        Self::body_writable(v)
    }

    #[verifier::opaque]
    open spec fn encode(v: PlayerInfoActionListView) -> Seq<u8> {
        <VarInt>::encode(VarInt(Self::id_of(v))) + Self::body_of(v)
    }

    fn mc_serialize<S: Serializer>(&self, to: &mut S) -> (r: SerializeResult) {
        proof {
            reveal(<PlayerInfoActionList as Serialize>::encode);
        }
        let id_to_serialize: VarInt = self.id();
        id_to_serialize.mc_serialize(to)?;
        let r = self.serialize_body(to);
        proof {
            let head = <VarInt>::encode(VarInt(Self::id_of(self.deep_view())));
            let body = Self::body_of(self.deep_view());
            lemma_concat_assoc(old(to).written(), head, body);
        }
        r
    }
}

impl Deserialize for PlayerInfoActionList {
    #[verifier::opaque]
    open spec fn decode(data: Seq<u8>) -> Decoded<PlayerInfoActionListView> {
        match <VarInt>::decode(data) {
            Err(e) => Err(e),
            Ok((id, n)) => match Self::decode_with_id(id.0, data.skip(n as int)) {
                Ok((v, m)) => Ok((v, n + m)),
                Err(e) => Err(e),
            },
        }
    }

    fn mc_deserialize(data: &[u8]) -> (r: DeserializeResult<'_, PlayerInfoActionList>) {
        proof {
            reveal(<PlayerInfoActionList as Deserialize>::decode);
        }
        let Deserialized { value: id, data: rest } = <VarInt>::mc_deserialize(data)?;
        let Deserialized { value, data: after } = Self::deserialize_with_id(id, rest)?;
        proof {
            lemma_skip_skip(data@, data@.len() - rest@.len(), rest@.len() - after@.len());
        }
        Ok(Deserialized { value, data: after })
    }
}

impl ProtocolType for PlayerInfoActionList {
    open spec fn faithful(v: PlayerInfoActionListView) -> bool {
        match v {
            PlayerInfoActionListView::Add(body) => <CountedArray<PlayerInfoAction<PlayerAddActionSpec>, VarInt>>::faithful(body),
            PlayerInfoActionListView::UpdateGameMode(body) => <CountedArray<PlayerInfoAction<GameMode>, VarInt>>::faithful(body),
            PlayerInfoActionListView::UpdateLatency(body) => <CountedArray<PlayerInfoAction<VarInt>, VarInt>>::faithful(body),
            PlayerInfoActionListView::UpdateDisplayName(body) => <CountedArray<PlayerInfoAction<Option<String>>, VarInt>>::faithful(body),
            PlayerInfoActionListView::Remove(body) => <CountedArray<UUID4, VarInt>>::faithful(body),
        }
    }

    open spec fn delimited() -> bool {
        <CountedArray<PlayerInfoAction<GameMode>, VarInt>>::delimited() && <CountedArray<PlayerInfoAction<Option<String>>, VarInt>>::delimited() && <CountedArray<PlayerInfoAction<PlayerAddActionSpec>, VarInt>>::delimited() && <CountedArray<PlayerInfoAction<VarInt>, VarInt>>::delimited() && <CountedArray<UUID4, VarInt>>::delimited()
    }

    proof fn lemma_round_trip(v: PlayerInfoActionListView, rest: Seq<u8>) {
        reveal(<PlayerInfoActionList as Serialize>::encode);
        reveal(<PlayerInfoActionList as Deserialize>::decode);
        let head = <VarInt>::encode(VarInt(Self::id_of(v)));
        let body = Self::body_of(v);
        <VarInt>::lemma_round_trip(VarInt(Self::id_of(v)), body + rest);
        Self::lemma_body_round_trip(v, rest);
        lemma_concat_assoc(head, body, rest);
        lemma_skip_concat(head, body + rest);
    }
}

impl PlayerInfoActionList {
    /// What follows the number, written out and followed by anything, reads
    /// back under that number.
    pub proof fn lemma_body_round_trip(v: PlayerInfoActionListView, rest: Seq<u8>)
        requires
            <Self as ProtocolType>::faithful(v),
            <Self as ProtocolType>::delimited() || rest.len() == 0,
        ensures
            Self::body_writable(v),
            Self::decode_with_id(Self::id_of(v), Self::body_of(v) + rest) == Ok::<_, DecodeFailure>(
                (v, Self::body_of(v).len()),
            ),
    {
        match v {
            PlayerInfoActionListView::Add(body) => {
                <CountedArray<PlayerInfoAction<PlayerAddActionSpec>, VarInt>>::lemma_round_trip(body, rest);
            },
            PlayerInfoActionListView::UpdateGameMode(body) => {
                <CountedArray<PlayerInfoAction<GameMode>, VarInt>>::lemma_round_trip(body, rest);
            },
            PlayerInfoActionListView::UpdateLatency(body) => {
                <CountedArray<PlayerInfoAction<VarInt>, VarInt>>::lemma_round_trip(body, rest);
            },
            PlayerInfoActionListView::UpdateDisplayName(body) => {
                <CountedArray<PlayerInfoAction<Option<String>>, VarInt>>::lemma_round_trip(body, rest);
            },
            PlayerInfoActionListView::Remove(body) => {
                <CountedArray<UUID4, VarInt>>::lemma_round_trip(body, rest);
            },
        }
    }
}

/// One changed block of a chunk section: the new state of the block, and
/// where in the section it sits. On the wire the two are one [`VarLong`]:
/// the state above twelve bits of position, four for each coordinate.
#[derive(Debug, Clone, PartialEq, Copy)]
pub struct MultiBlockChangeRecord {
    pub block_id: u64,
    pub rel_position: Vec3<i8>,
}

impl View for MultiBlockChangeRecord {
    type V = MultiBlockChangeRecord;

    open spec fn view(&self) -> MultiBlockChangeRecord {
        *self
    }
}

impl DeepView for MultiBlockChangeRecord {
    type V = MultiBlockChangeRecord;

    open spec fn deep_view(&self) -> MultiBlockChangeRecord {
        *self
    }
}

/// The 64-bit number that carries a record: the low 52 bits of the state,
/// then the low four bits of `x`, of `y` and of `z`.
pub open spec fn packed_record(v: MultiBlockChangeRecord) -> nat {
    ((v.block_id % 0x10_0000_0000_0000) * 0x1000 + (v.rel_position.x as int % 16) * 0x100 + (
    v.rel_position.y as int % 16) * 0x10 + v.rel_position.z as int % 16) as nat
}

/// The record that a 64-bit number carries.
pub open spec fn unpacked_record(raw: nat) -> MultiBlockChangeRecord {
    MultiBlockChangeRecord {
        block_id: (raw / 0x1000) as u64,
        rel_position: Vec3 {
            x: ((raw / 0x100) % 16) as i8,
            y: ((raw / 0x10) % 16) as i8,
            z: (raw % 16) as i8,
        },
    }
}

proof fn lemma_record_fields(id: u64, x: i8, y: i8, z: i8)
    by (bit_vector)
    ensures
        (id << 12) | (((x as u64) & 0xF) << 8) | (((y as u64) & 0xF) << 4) | ((z as u64) & 0xF) == (
        id % 0x10_0000_0000_0000) * 0x1000 + ((x as u8) % 16) * 0x100 + ((y as u8) % 16) * 0x10 + (
        z as u8) % 16,
{
}

/// The low four bits of a number are those of its two's complement pattern.
proof fn lemma_low_nibble(c: i8)
    ensures
        (c as u8) % 16 == c as int % 16,
{
    crate::byte_order::lemma_pattern_i8(c, 0);
    if c < 0 {
        vstd::arithmetic::div_mod::lemma_mod_multiples_vanish(16, c as int, 16);
    }
}

proof fn lemma_record_parts(id: u64, x: u64, y: u64, z: u64)
    by (bit_vector)
    requires
        id < 0x10_0000_0000_0000,
        x < 16,
        y < 16,
        z < 16,
    ensures
        (id * 0x1000 + x * 0x100 + y * 0x10 + z) / 0x1000 == id,
        ((id * 0x1000 + x * 0x100 + y * 0x10 + z) / 0x100) % 16 == x,
        ((id * 0x1000 + x * 0x100 + y * 0x10 + z) / 0x10) % 16 == y,
        (id * 0x1000 + x * 0x100 + y * 0x10 + z) % 16 == z,
{
}

proof fn lemma_record_unpack(raw: u64)
    by (bit_vector)
    ensures
        raw >> 12 == raw / 0x1000,
        ((raw >> 8) & 0xF) as i8 == (raw / 0x100) % 16,
        ((raw >> 4) & 0xF) as i8 == (raw / 0x10) % 16,
        (raw & 0xF) as i8 == raw % 16,
{
}

impl Serialize for MultiBlockChangeRecord {
    open spec fn serializable(v: MultiBlockChangeRecord) -> bool {
        true
    }

    #[verifier::opaque]
    open spec fn encode(v: MultiBlockChangeRecord) -> Seq<u8> {
        VarLong::encode(VarLong(to_signed(packed_record(v), 8) as i64))
    }

    fn mc_serialize<S: Serializer>(&self, to: &mut S) -> (r: SerializeResult) {
        proof {
            reveal(<MultiBlockChangeRecord as Serialize>::encode);
            lemma_record_fields(
                self.block_id,
                self.rel_position.x,
                self.rel_position.y,
                self.rel_position.z,
            );
            lemma_low_nibble(self.rel_position.x);
            lemma_low_nibble(self.rel_position.y);
            lemma_low_nibble(self.rel_position.z);
            lemma_radix_values();
        }
        let raw = (self.block_id << 12) | (((self.rel_position.x as u64) & 0xF) << 8) | (((
        self.rel_position.y as u64) & 0xF) << 4) | ((self.rel_position.z as u64) & 0xF);
        proof {
            lemma_pattern_i64(0, raw);
        }
        let raw = VarLong(#[verifier::truncate] (raw as i64));
        raw.mc_serialize(to)
    }
}

impl Deserialize for MultiBlockChangeRecord {
    #[verifier::opaque]
    open spec fn decode(data: Seq<u8>) -> Decoded<MultiBlockChangeRecord> {
        match VarLong::decode(data) {
            Err(e) => Err(e),
            Ok((raw, n)) => Ok((unpacked_record(to_unsigned(raw.0 as int, 8)), n)),
        }
    }

    fn mc_deserialize(data: &[u8]) -> (r: DeserializeResult<'_, MultiBlockChangeRecord>) {
        proof {
            reveal(<MultiBlockChangeRecord as Deserialize>::decode);
        }
        let Deserialized { value: raw, data: rest } = VarLong::mc_deserialize(data)?;
        proof {
            lemma_pattern_i64(raw.0, 0);
            lemma_radix_values();
        }
        let raw = #[verifier::truncate] (raw.0 as u64);
        proof {
            lemma_record_unpack(raw);
        }
        let block_id = raw >> 12;
        let x = #[verifier::truncate] (((raw >> 8) & 0xF) as i8);
        let y = #[verifier::truncate] (((raw >> 4) & 0xF) as i8);
        let z = #[verifier::truncate] ((raw & 0xF) as i8);
        Ok(
            Deserialized {
                value: MultiBlockChangeRecord { block_id, rel_position: Vec3 { x, y, z } },
                data: rest,
            },
        )
    }
}

impl ProtocolType for MultiBlockChangeRecord {
    /// The state has to fit 52 bits, and each coordinate four.
    open spec fn faithful(v: MultiBlockChangeRecord) -> bool {
        &&& v.block_id < 0x10_0000_0000_0000
        &&& 0 <= v.rel_position.x < 16
        &&& 0 <= v.rel_position.y < 16
        &&& 0 <= v.rel_position.z < 16
    }

    open spec fn delimited() -> bool {
        true
    }

    proof fn lemma_round_trip(v: MultiBlockChangeRecord, rest: Seq<u8>) {
        reveal(<MultiBlockChangeRecord as Serialize>::encode);
        reveal(<MultiBlockChangeRecord as Deserialize>::decode);
        let p = packed_record(v);
        let x = v.rel_position.x as int;
        let y = v.rel_position.y as int;
        let z = v.rel_position.z as int;
        lemma_radix_values();
        lemma_signed_unsigned(0, p, 8);
        VarLong::lemma_round_trip(VarLong(to_signed(p, 8) as i64), rest);
        lemma_record_parts(v.block_id, x as u64, y as u64, z as u64);
        assert(p == v.block_id * 0x1000 + x * 0x100 + y * 0x10 + z);
        assert(unpacked_record(p) == v);
    }
}

/// Whether a part that is only there if it is given can be written.
pub open spec fn given_writable<T: Serialize>(part: Option<T::V>) -> bool {
    match part {
        Some(v) => T::serializable(v),
        None => true,
    }
}

/// Whether a part that is only there if it is given survives the round trip.
pub open spec fn given_faithful<T: ProtocolType>(part: Option<T::V>) -> bool {
    match part {
        Some(v) => T::faithful(v) && T::delimited(),
        None => true,
    }
}

/// Writes a part that is only there if it is given.
pub fn write_if_given<T: Serialize, S: Serializer>(part: &Option<T>, to: &mut S) -> (r:
    SerializeResult)
    ensures
        r is Ok ==> given_writable::<T>(part.deep_view()) && final(to).written() == old(
            to,
        ).written() + if_given::<T>(part.deep_view()),
        old(to).infallible() ==> final(to).infallible(),
        old(to).infallible() ==> (r is Ok <==> given_writable::<T>(part.deep_view())),
        old(to).infallible() && r is Err ==> (r matches Err(SerializeErr::CannotSerialize(_))),
{
    match part {
        Some(v) => v.mc_serialize(to),
        None => {
            proof {
                assert(old(to).written() + Seq::<u8>::empty() =~= old(to).written());
            }
            Ok(())
        },
    }
}

/// Reads a part that is only there if `given`.
pub fn read_if_given<T: Deserialize>(given: bool, data: &[u8]) -> (r: DeserializeResult<
    '_,
    Option<T>,
>)
    ensures
        agrees(r, data@, decode_if_given::<T>(given, data@)),
{
    if given {
        let Deserialized { value, data: rest } = T::mc_deserialize(data)?;
        Ok(Deserialized { value: Some(value), data: rest })
    } else {
        proof {
            assert(data@.skip(0) =~= data@);
        }
        Ok(Deserialized { value: None, data })
    }
}

/// A part that is only there if it is given reads back as it was, where
/// the reader is told whether it is there.
pub proof fn lemma_if_given_round_trip<T: ProtocolType>(part: Option<T::V>, rest: Seq<u8>)
    requires
        given_faithful::<T>(part),
    ensures
        given_writable::<T>(part),
        decode_if_given::<T>(part is Some, if_given::<T>(part) + rest) == Ok::<_, DecodeFailure>(
            (part, if_given::<T>(part).len()),
        ),
{
    match part {
        Some(v) => {
            T::lemma_round_trip(v, rest);
        },
        None => {
            assert(Seq::<u8>::empty() + rest =~= rest);
        },
    }
}


/// A chunk column as it is sent: where it is, which sections it has, the height maps, the biomes if the column is sent whole, the sections' data, and the block entities.
#[derive(Debug, Clone, PartialEq)]
pub struct ChunkData {
    pub position: ChunkPosition<i32>,
    /// One bit for each section that `data` holds.
    pub primary_bit_mask: VarInt,
    pub heightmaps: NamedNbtTag,
    /// The biomes, if the column is sent whole. On the wire a flag in front of the bit mask says whether they are there.
    pub biomes: Option<CountedArray<VarInt, VarInt>>,
    pub data: CountedArray<u8, VarInt>,
    /// The block entities, behind their count.
    pub block_entities: Vec<NamedNbtTag>,
}

/// The mathematical content of a [`ChunkData`].
pub struct ChunkDataView {
    pub position: <ChunkPosition<i32> as DeepView>::V,
    pub primary_bit_mask: VarInt,
    pub heightmaps: <NamedNbtTag as DeepView>::V,
    pub biomes: <Option<CountedArray<VarInt, VarInt>> as DeepView>::V,
    pub data: Seq<u8>,
    pub block_entities: <Vec<NamedNbtTag> as DeepView>::V,
}

impl DeepView for ChunkData {
    type V = ChunkDataView;

    open spec fn deep_view(&self) -> ChunkDataView {
        ChunkDataView {
            position: self.position.deep_view(),
            primary_bit_mask: self.primary_bit_mask.deep_view(),
            heightmaps: self.heightmaps.deep_view(),
            biomes: self.biomes.deep_view(),
            data: self.data.deep_view(),
            block_entities: self.block_entities.deep_view(),
        }
    }
}

impl Serialize for ChunkData {
    open spec fn serializable(v: ChunkDataView) -> bool {
        &&& <ChunkPosition<i32>>::serializable(v.position)
        &&& bool::serializable(v.biomes is Some)
        &&& VarInt::serializable(v.primary_bit_mask)
        &&& NamedNbtTag::serializable(v.heightmaps)
        &&& given_writable::<CountedArray<VarInt, VarInt>>(v.biomes)
        &&& <CountedArray<u8, VarInt>>::serializable(v.data)
        &&& VarInt::serializable(VarInt::counter_for(v.block_entities.len()))
        &&& all_serializable::<NamedNbtTag>(v.block_entities)
    }

    #[verifier::opaque]
    open spec fn encode(v: ChunkDataView) -> Seq<u8> {
        <ChunkPosition<i32>>::encode(v.position) + bool::encode(v.biomes is Some) + VarInt::encode(v.primary_bit_mask) + NamedNbtTag::encode(v.heightmaps) + if_given::<CountedArray<VarInt, VarInt>>(v.biomes) + <CountedArray<u8, VarInt>>::encode(v.data) + VarInt::encode(VarInt::counter_for(v.block_entities.len())) + encode_all::<NamedNbtTag>(v.block_entities)
    }

    fn mc_serialize<S: Serializer>(&self, to: &mut S) -> (r: SerializeResult) {
        proof {
            reveal(<ChunkData as Serialize>::encode);
        }
        self.position.mc_serialize(to)?;
        let full_chunk = self.biomes.is_some();
        full_chunk.mc_serialize(to)?;
        self.primary_bit_mask.mc_serialize(to)?;
        self.heightmaps.mc_serialize(to)?;
        write_if_given(&self.biomes, to)?;
        self.data.mc_serialize(to)?;
        let n_block_entities = VarInt::from_count(self.block_entities.len());
        n_block_entities.mc_serialize(to)?;
        serialize_vec_directly(&self.block_entities, to)?;
        proof {
            let v = self.deep_view();
            let w = old(to).written();
            let e0 = <ChunkPosition<i32>>::encode(v.position);
            let e1 = bool::encode(v.biomes is Some);
            let e2 = VarInt::encode(v.primary_bit_mask);
            let e3 = NamedNbtTag::encode(v.heightmaps);
            let e4 = if_given::<CountedArray<VarInt, VarInt>>(v.biomes);
            let e5 = <CountedArray<u8, VarInt>>::encode(v.data);
            let e6 = VarInt::encode(VarInt::counter_for(v.block_entities.len()));
            let e7 = encode_all::<NamedNbtTag>(v.block_entities);
            let l0 = e0;
            let l1 = l0 + e1;
            let l2 = l1 + e2;
            let l3 = l2 + e3;
            let l4 = l3 + e4;
            let l5 = l4 + e5;
            let l6 = l5 + e6;
            let l7 = l6 + e7;
            lemma_concat_assoc(w, l0, e1);
            lemma_concat_assoc(w, l1, e2);
            lemma_concat_assoc(w, l2, e3);
            lemma_concat_assoc(w, l3, e4);
            lemma_concat_assoc(w, l4, e5);
            lemma_concat_assoc(w, l5, e6);
            lemma_concat_assoc(w, l6, e7);
        }
        Ok(())
    }
}

impl Deserialize for ChunkData {
    #[verifier::opaque]
    open spec fn decode(data: Seq<u8>) -> Decoded<ChunkDataView> {
        match <ChunkPosition<i32>>::decode(data) {
            Err(e) => Err(e),
            Ok((position, n0)) => {
                match bool::decode(data.skip((n0) as int)) {
                    Err(e) => Err(e),
                    Ok((is_full_chunk, n1)) => {
                        match VarInt::decode(data.skip((n0 + n1) as int)) {
                            Err(e) => Err(e),
                            Ok((primary_bit_mask, n2)) => {
                                match NamedNbtTag::decode(data.skip((n0 + n1 + n2) as int)) {
                                    Err(e) => Err(e),
                                    Ok((heightmaps, n3)) => {
                                        match decode_if_given::<CountedArray<VarInt, VarInt>>(is_full_chunk, data.skip((n0 + n1 + n2 + n3) as int)) {
                                            Err(e) => Err(e),
                                            Ok((biomes, n4)) => {
                                                match <CountedArray<u8, VarInt>>::decode(data.skip((n0 + n1 + n2 + n3 + n4) as int)) {
                                                    Err(e) => Err(e),
                                                    Ok((chunk_data, n5)) => {
                                                        match VarInt::decode(data.skip((n0 + n1 + n2 + n3 + n4 + n5) as int)) {
                                                            Err(e) => Err(e),
                                                            Ok((n_block_entities, n6)) => {
                                                                match decode_n::<NamedNbtTag>(data.skip((n0 + n1 + n2 + n3 + n4 + n5 + n6) as int), VarInt::count_of(n_block_entities)) {
                                                                    Err(e) => Err(e),
                                                                    Ok((block_entities, n7)) => Ok((ChunkDataView { position, primary_bit_mask, heightmaps, biomes, data: chunk_data, block_entities }, n0 + n1 + n2 + n3 + n4 + n5 + n6 + n7)),
                                                                }
                                                            },
                                                        }
                                                    },
                                                }
                                            },
                                        }
                                    },
                                }
                            },
                        }
                    },
                }
            },
        }
    }

    fn mc_deserialize(data: &[u8]) -> (r: DeserializeResult<'_, ChunkData>) {
        proof {
            reveal(<ChunkData as Deserialize>::decode);
        }
        let ghost whole = data@;
        let Deserialized { value: position, data: rest0 } = <ChunkPosition<i32>>::mc_deserialize(data)?;
        let Deserialized { value: is_full_chunk, data: rest1 } = bool::mc_deserialize(rest0)?;
        proof {
            lemma_skip_skip(
                whole,
                whole.len() - rest0@.len(),
                rest0@.len() - rest1@.len(),
            );
        }
        let Deserialized { value: primary_bit_mask, data: rest2 } = VarInt::mc_deserialize(rest1)?;
        proof {
            lemma_skip_skip(
                whole,
                whole.len() - rest1@.len(),
                rest1@.len() - rest2@.len(),
            );
        }
        let Deserialized { value: heightmaps, data: rest3 } = NamedNbtTag::mc_deserialize(rest2)?;
        proof {
            lemma_skip_skip(
                whole,
                whole.len() - rest2@.len(),
                rest2@.len() - rest3@.len(),
            );
        }
        let Deserialized { value: biomes, data: rest4 } = read_if_given::<CountedArray<VarInt, VarInt>>(is_full_chunk, rest3)?;
        proof {
            lemma_skip_skip(
                whole,
                whole.len() - rest3@.len(),
                rest3@.len() - rest4@.len(),
            );
        }
        let Deserialized { value: chunk_data, data: rest5 } = <CountedArray<u8, VarInt>>::mc_deserialize(rest4)?;
        proof {
            lemma_skip_skip(
                whole,
                whole.len() - rest4@.len(),
                rest4@.len() - rest5@.len(),
            );
        }
        let Deserialized { value: n_block_entities, data: rest6 } = VarInt::mc_deserialize(rest5)?;
        proof {
            lemma_skip_skip(
                whole,
                whole.len() - rest5@.len(),
                rest5@.len() - rest6@.len(),
            );
        }
        let Deserialized { value: block_entities, data: rest7 } = deserialize_vec_directly::<NamedNbtTag>(n_block_entities.as_count(), rest6)?;
        proof {
            lemma_skip_skip(
                whole,
                whole.len() - rest6@.len(),
                rest6@.len() - rest7@.len(),
            );
        }
        Ok(Deserialized { value: ChunkData { position, primary_bit_mask, heightmaps, biomes, data: chunk_data, block_entities }, data: rest7 })
    }
}

impl ProtocolType for ChunkData {
    open spec fn faithful(v: ChunkDataView) -> bool {
        &&& <ChunkPosition<i32>>::faithful(v.position)
        &&& bool::faithful(v.biomes is Some)
        &&& VarInt::faithful(v.primary_bit_mask)
        &&& NamedNbtTag::faithful(v.heightmaps)
        &&& given_faithful::<CountedArray<VarInt, VarInt>>(v.biomes)
        &&& <CountedArray<u8, VarInt>>::faithful(v.data)
        &&& VarInt::faithful(VarInt::counter_for(v.block_entities.len()))
        &&& all_faithful::<NamedNbtTag>(v.block_entities) && NamedNbtTag::delimited()
        &&& v.block_entities.len() <= VarInt::max_count()
    }

    open spec fn delimited() -> bool {
        NamedNbtTag::delimited()
    }

    proof fn lemma_round_trip(v: ChunkDataView, rest: Seq<u8>) {
        reveal(<ChunkData as Serialize>::encode);
        reveal(<ChunkData as Deserialize>::decode);
        let e0 = <ChunkPosition<i32>>::encode(v.position);
        let e1 = bool::encode(v.biomes is Some);
        let e2 = VarInt::encode(v.primary_bit_mask);
        let e3 = NamedNbtTag::encode(v.heightmaps);
        let e4 = if_given::<CountedArray<VarInt, VarInt>>(v.biomes);
        let e5 = <CountedArray<u8, VarInt>>::encode(v.data);
        let e6 = VarInt::encode(VarInt::counter_for(v.block_entities.len()));
        let e7 = encode_all::<NamedNbtTag>(v.block_entities);
        let data = Self::encode(v) + rest;
        let t8 = rest;
        let t7 = e7 + t8;
        let t6 = e6 + t7;
        let t5 = e5 + t6;
        let t4 = e4 + t5;
        let t3 = e3 + t4;
        let t2 = e2 + t3;
        let t1 = e1 + t2;
        let t0 = e0 + t1;
        let l0 = e0;
        let l1 = l0 + e1;
        let l2 = l1 + e2;
        let l3 = l2 + e3;
        let l4 = l3 + e4;
        let l5 = l4 + e5;
        let l6 = l5 + e6;
        let l7 = l6 + e7;
        lemma_concat_assoc(l6, e7, t8);
        lemma_concat_assoc(l5, e6, t7);
        lemma_concat_assoc(l4, e5, t6);
        lemma_concat_assoc(l3, e4, t5);
        lemma_concat_assoc(l2, e3, t4);
        lemma_concat_assoc(l1, e2, t3);
        lemma_concat_assoc(l0, e1, t2);
        assert(data == t0);
        <ChunkPosition<i32>>::lemma_round_trip(v.position, t1);
        lemma_skip_concat(e0, t1);
        bool::lemma_round_trip(v.biomes is Some, t2);
        lemma_skip_more(data, (e0.len()) as int, e1, t2);
        VarInt::lemma_round_trip(v.primary_bit_mask, t3);
        lemma_skip_more(data, (e0.len() + e1.len()) as int, e2, t3);
        NamedNbtTag::lemma_round_trip(v.heightmaps, t4);
        lemma_skip_more(data, (e0.len() + e1.len() + e2.len()) as int, e3, t4);
        lemma_if_given_round_trip::<CountedArray<VarInt, VarInt>>(v.biomes, t5);
        lemma_skip_more(data, (e0.len() + e1.len() + e2.len() + e3.len()) as int, e4, t5);
        <CountedArray<u8, VarInt>>::lemma_round_trip(v.data, t6);
        lemma_skip_more(data, (e0.len() + e1.len() + e2.len() + e3.len() + e4.len()) as int, e5, t6);
        VarInt::lemma_count_of_counter(v.block_entities.len());
        VarInt::lemma_round_trip(VarInt::counter_for(v.block_entities.len()), t7);
        lemma_skip_more(data, (e0.len() + e1.len() + e2.len() + e3.len() + e4.len() + e5.len()) as int, e6, t7);
        lemma_decode_n_encode_all::<NamedNbtTag>(v.block_entities, t8);
        lemma_all_serializable::<NamedNbtTag>(v.block_entities);
        lemma_skip_more(data, (e0.len() + e1.len() + e2.len() + e3.len() + e4.len() + e5.len() + e6.len()) as int, e7, t8);
    }
}

/// One ingredient of a recipe.
#[derive(Debug, Clone, PartialEq)]
pub struct RecipeIngredient {
    /// The stacks that each alone will do.
    pub items: CountedArray<Slot, VarInt>,
}

/// The mathematical content of a [`RecipeIngredient`].
pub struct RecipeIngredientView {
    pub items: <CountedArray<Slot, VarInt> as DeepView>::V,
}

impl DeepView for RecipeIngredient {
    type V = RecipeIngredientView;

    open spec fn deep_view(&self) -> RecipeIngredientView {
        RecipeIngredientView {
            items: self.items.deep_view(),
        }
    }
}

impl Serialize for RecipeIngredient {
    open spec fn serializable(v: RecipeIngredientView) -> bool {
        <CountedArray<Slot, VarInt>>::serializable(v.items)
    }

    #[verifier::opaque]
    open spec fn encode(v: RecipeIngredientView) -> Seq<u8> {
        <CountedArray<Slot, VarInt>>::encode(v.items)
    }

    fn mc_serialize<S: Serializer>(&self, to: &mut S) -> (r: SerializeResult) {
        proof {
            reveal(<RecipeIngredient as Serialize>::encode);
        }
        self.items.mc_serialize(to)?;
        proof {
            assert(to.written() =~= old(to).written() + Self::encode(self.deep_view()));
        }
        Ok(())
    }
}

impl Deserialize for RecipeIngredient {
    #[verifier::opaque]
    open spec fn decode(data: Seq<u8>) -> Decoded<RecipeIngredientView> {
        match <CountedArray<Slot, VarInt>>::decode(data) {
            Err(e) => Err(e),
            Ok((items, n0)) => Ok((RecipeIngredientView { items }, n0)),
        }
    }

    fn mc_deserialize(data: &[u8]) -> (r: DeserializeResult<'_, RecipeIngredient>) {
        proof {
            reveal(<RecipeIngredient as Deserialize>::decode);
        }
        let Deserialized { value: items, data: rest0 } = <CountedArray<Slot, VarInt>>::mc_deserialize(data)?;
        Ok(Deserialized { value: RecipeIngredient { items }, data: rest0 })
    }
}

impl ProtocolType for RecipeIngredient {
    open spec fn faithful(v: RecipeIngredientView) -> bool {
        <CountedArray<Slot, VarInt>>::faithful(v.items)
    }

    open spec fn delimited() -> bool {
        <CountedArray<Slot, VarInt>>::delimited()
    }

    proof fn lemma_round_trip(v: RecipeIngredientView, rest: Seq<u8>) {
        reveal(<RecipeIngredient as Serialize>::encode);
        reveal(<RecipeIngredient as Deserialize>::decode);
        let e0 = <CountedArray<Slot, VarInt>>::encode(v.items);
        let data = Self::encode(v) + rest;
        let t1 = rest;
        let t0 = e0 + t1;
        <CountedArray<Slot, VarInt>>::lemma_round_trip(v.items, t1);
        lemma_skip_concat(e0, t1);
    }
}

/// A recipe whose ingredients lie anywhere on the grid.
#[derive(Debug, Clone, PartialEq)]
pub struct RecipeCraftingShapelessSpec {
    pub group: String,
    pub ingredients: CountedArray<RecipeIngredient, VarInt>,
    pub result: Slot,
}

/// The mathematical content of a [`RecipeCraftingShapelessSpec`].
pub struct RecipeCraftingShapelessSpecView {
    pub group: Seq<char>,
    pub ingredients: <CountedArray<RecipeIngredient, VarInt> as DeepView>::V,
    pub result: <Slot as DeepView>::V,
}

impl DeepView for RecipeCraftingShapelessSpec {
    type V = RecipeCraftingShapelessSpecView;

    open spec fn deep_view(&self) -> RecipeCraftingShapelessSpecView {
        RecipeCraftingShapelessSpecView {
            group: self.group.deep_view(),
            ingredients: self.ingredients.deep_view(),
            result: self.result.deep_view(),
        }
    }
}

impl Serialize for RecipeCraftingShapelessSpec {
    open spec fn serializable(v: RecipeCraftingShapelessSpecView) -> bool {
        String::serializable(v.group) && <CountedArray<RecipeIngredient, VarInt>>::serializable(v.ingredients) && <Slot>::serializable(v.result)
    }

    #[verifier::opaque]
    open spec fn encode(v: RecipeCraftingShapelessSpecView) -> Seq<u8> {
        String::encode(v.group) + <CountedArray<RecipeIngredient, VarInt>>::encode(v.ingredients) + <Slot>::encode(v.result)
    }

    fn mc_serialize<S: Serializer>(&self, to: &mut S) -> (r: SerializeResult) {
        proof {
            reveal(<RecipeCraftingShapelessSpec as Serialize>::encode);
        }
        self.group.mc_serialize(to)?;
        self.ingredients.mc_serialize(to)?;
        self.result.mc_serialize(to)?;
        proof {
            let v = self.deep_view();
            let w = old(to).written();
            let e0 = String::encode(v.group);
            let e1 = <CountedArray<RecipeIngredient, VarInt>>::encode(v.ingredients);
            let e2 = <Slot>::encode(v.result);
            let l0 = e0;
            let l1 = l0 + e1;
            let l2 = l1 + e2;
            lemma_concat_assoc(w, l0, e1);
            lemma_concat_assoc(w, l1, e2);
        }
        Ok(())
    }
}

impl Deserialize for RecipeCraftingShapelessSpec {
    #[verifier::opaque]
    open spec fn decode(data: Seq<u8>) -> Decoded<RecipeCraftingShapelessSpecView> {
        match String::decode(data) {
            Err(e) => Err(e),
            Ok((group, n0)) => {
                match <CountedArray<RecipeIngredient, VarInt>>::decode(data.skip((n0) as int)) {
                    Err(e) => Err(e),
                    Ok((ingredients, n1)) => {
                        match <Slot>::decode(data.skip((n0 + n1) as int)) {
                            Err(e) => Err(e),
                            Ok((result, n2)) => Ok((RecipeCraftingShapelessSpecView { group, ingredients, result }, n0 + n1 + n2)),
                        }
                    },
                }
            },
        }
    }

    fn mc_deserialize(data: &[u8]) -> (r: DeserializeResult<'_, RecipeCraftingShapelessSpec>) {
        proof {
            reveal(<RecipeCraftingShapelessSpec as Deserialize>::decode);
        }
        let ghost whole = data@;
        let Deserialized { value: group, data: rest0 } = String::mc_deserialize(data)?;
        let Deserialized { value: ingredients, data: rest1 } = <CountedArray<RecipeIngredient, VarInt>>::mc_deserialize(rest0)?;
        proof {
            lemma_skip_skip(
                whole,
                whole.len() - rest0@.len(),
                rest0@.len() - rest1@.len(),
            );
        }
        let Deserialized { value: result, data: rest2 } = <Slot>::mc_deserialize(rest1)?;
        proof {
            lemma_skip_skip(
                whole,
                whole.len() - rest1@.len(),
                rest1@.len() - rest2@.len(),
            );
        }
        Ok(Deserialized { value: RecipeCraftingShapelessSpec { group, ingredients, result }, data: rest2 })
    }
}

impl ProtocolType for RecipeCraftingShapelessSpec {
    open spec fn faithful(v: RecipeCraftingShapelessSpecView) -> bool {
        String::faithful(v.group) && <CountedArray<RecipeIngredient, VarInt>>::faithful(v.ingredients) && <Slot>::faithful(v.result)
    }

    open spec fn delimited() -> bool {
        <Slot>::delimited()
    }

    proof fn lemma_round_trip(v: RecipeCraftingShapelessSpecView, rest: Seq<u8>) {
        reveal(<RecipeCraftingShapelessSpec as Serialize>::encode);
        reveal(<RecipeCraftingShapelessSpec as Deserialize>::decode);
        let e0 = String::encode(v.group);
        let e1 = <CountedArray<RecipeIngredient, VarInt>>::encode(v.ingredients);
        let e2 = <Slot>::encode(v.result);
        let data = Self::encode(v) + rest;
        let t3 = rest;
        let t2 = e2 + t3;
        let t1 = e1 + t2;
        let t0 = e0 + t1;
        let l0 = e0;
        let l1 = l0 + e1;
        let l2 = l1 + e2;
        lemma_concat_assoc(l1, e2, t3);
        lemma_concat_assoc(l0, e1, t2);
        assert(data == t0);
        String::lemma_round_trip(v.group, t1);
        lemma_skip_concat(e0, t1);
        <CountedArray<RecipeIngredient, VarInt>>::lemma_round_trip(v.ingredients, t2);
        lemma_skip_more(data, (e0.len()) as int, e1, t2);
        <Slot>::lemma_round_trip(v.result, t3);
        lemma_skip_more(data, (e0.len() + e1.len()) as int, e2, t3);
    }
}

/// A recipe for a furnace or a fire.
#[derive(Debug, Clone, PartialEq)]
pub struct RecipeSmeltingSpec {
    pub group: String,
    pub ingredient: RecipeIngredient,
    pub result: Slot,
    /// The experience gained, as the bit pattern of a 32-bit float.
    pub experience: u32,
    pub cooking_time: VarInt,
}

/// The mathematical content of a [`RecipeSmeltingSpec`].
pub struct RecipeSmeltingSpecView {
    pub group: Seq<char>,
    pub ingredient: <RecipeIngredient as DeepView>::V,
    pub result: <Slot as DeepView>::V,
    pub experience: u32,
    pub cooking_time: VarInt,
}

impl DeepView for RecipeSmeltingSpec {
    type V = RecipeSmeltingSpecView;

    open spec fn deep_view(&self) -> RecipeSmeltingSpecView {
        RecipeSmeltingSpecView {
            group: self.group.deep_view(),
            ingredient: self.ingredient.deep_view(),
            result: self.result.deep_view(),
            experience: self.experience.deep_view(),
            cooking_time: self.cooking_time.deep_view(),
        }
    }
}

impl Serialize for RecipeSmeltingSpec {
    open spec fn serializable(v: RecipeSmeltingSpecView) -> bool {
        String::serializable(v.group) && RecipeIngredient::serializable(v.ingredient) && <Slot>::serializable(v.result) && u32::serializable(v.experience) && VarInt::serializable(v.cooking_time)
    }

    #[verifier::opaque]
    open spec fn encode(v: RecipeSmeltingSpecView) -> Seq<u8> {
        String::encode(v.group) + RecipeIngredient::encode(v.ingredient) + <Slot>::encode(v.result) + u32::encode(v.experience) + VarInt::encode(v.cooking_time)
    }

    fn mc_serialize<S: Serializer>(&self, to: &mut S) -> (r: SerializeResult) {
        proof {
            reveal(<RecipeSmeltingSpec as Serialize>::encode);
        }
        self.group.mc_serialize(to)?;
        self.ingredient.mc_serialize(to)?;
        self.result.mc_serialize(to)?;
        self.experience.mc_serialize(to)?;
        self.cooking_time.mc_serialize(to)?;
        proof {
            let v = self.deep_view();
            let w = old(to).written();
            let e0 = String::encode(v.group);
            let e1 = RecipeIngredient::encode(v.ingredient);
            let e2 = <Slot>::encode(v.result);
            let e3 = u32::encode(v.experience);
            let e4 = VarInt::encode(v.cooking_time);
            let l0 = e0;
            let l1 = l0 + e1;
            let l2 = l1 + e2;
            let l3 = l2 + e3;
            let l4 = l3 + e4;
            lemma_concat_assoc(w, l0, e1);
            lemma_concat_assoc(w, l1, e2);
            lemma_concat_assoc(w, l2, e3);
            lemma_concat_assoc(w, l3, e4);
        }
        Ok(())
    }
}

impl Deserialize for RecipeSmeltingSpec {
    #[verifier::opaque]
    open spec fn decode(data: Seq<u8>) -> Decoded<RecipeSmeltingSpecView> {
        match String::decode(data) {
            Err(e) => Err(e),
            Ok((group, n0)) => {
                match RecipeIngredient::decode(data.skip((n0) as int)) {
                    Err(e) => Err(e),
                    Ok((ingredient, n1)) => {
                        match <Slot>::decode(data.skip((n0 + n1) as int)) {
                            Err(e) => Err(e),
                            Ok((result, n2)) => {
                                match u32::decode(data.skip((n0 + n1 + n2) as int)) {
                                    Err(e) => Err(e),
                                    Ok((experience, n3)) => {
                                        match VarInt::decode(data.skip((n0 + n1 + n2 + n3) as int)) {
                                            Err(e) => Err(e),
                                            Ok((cooking_time, n4)) => Ok((RecipeSmeltingSpecView { group, ingredient, result, experience, cooking_time }, n0 + n1 + n2 + n3 + n4)),
                                        }
                                    },
                                }
                            },
                        }
                    },
                }
            },
        }
    }

    fn mc_deserialize(data: &[u8]) -> (r: DeserializeResult<'_, RecipeSmeltingSpec>) {
        proof {
            reveal(<RecipeSmeltingSpec as Deserialize>::decode);
        }
        let ghost whole = data@;
        let Deserialized { value: group, data: rest0 } = String::mc_deserialize(data)?;
        let Deserialized { value: ingredient, data: rest1 } = RecipeIngredient::mc_deserialize(rest0)?;
        proof {
            lemma_skip_skip(
                whole,
                whole.len() - rest0@.len(),
                rest0@.len() - rest1@.len(),
            );
        }
        let Deserialized { value: result, data: rest2 } = <Slot>::mc_deserialize(rest1)?;
        proof {
            lemma_skip_skip(
                whole,
                whole.len() - rest1@.len(),
                rest1@.len() - rest2@.len(),
            );
        }
        let Deserialized { value: experience, data: rest3 } = u32::mc_deserialize(rest2)?;
        proof {
            lemma_skip_skip(
                whole,
                whole.len() - rest2@.len(),
                rest2@.len() - rest3@.len(),
            );
        }
        let Deserialized { value: cooking_time, data: rest4 } = VarInt::mc_deserialize(rest3)?;
        proof {
            lemma_skip_skip(
                whole,
                whole.len() - rest3@.len(),
                rest3@.len() - rest4@.len(),
            );
        }
        Ok(Deserialized { value: RecipeSmeltingSpec { group, ingredient, result, experience, cooking_time }, data: rest4 })
    }
}

impl ProtocolType for RecipeSmeltingSpec {
    open spec fn faithful(v: RecipeSmeltingSpecView) -> bool {
        String::faithful(v.group) && RecipeIngredient::faithful(v.ingredient) && <Slot>::faithful(v.result) && u32::faithful(v.experience) && VarInt::faithful(v.cooking_time)
    }

    open spec fn delimited() -> bool {
        VarInt::delimited()
    }

    proof fn lemma_round_trip(v: RecipeSmeltingSpecView, rest: Seq<u8>) {
        reveal(<RecipeSmeltingSpec as Serialize>::encode);
        reveal(<RecipeSmeltingSpec as Deserialize>::decode);
        let e0 = String::encode(v.group);
        let e1 = RecipeIngredient::encode(v.ingredient);
        let e2 = <Slot>::encode(v.result);
        let e3 = u32::encode(v.experience);
        let e4 = VarInt::encode(v.cooking_time);
        let data = Self::encode(v) + rest;
        let t5 = rest;
        let t4 = e4 + t5;
        let t3 = e3 + t4;
        let t2 = e2 + t3;
        let t1 = e1 + t2;
        let t0 = e0 + t1;
        let l0 = e0;
        let l1 = l0 + e1;
        let l2 = l1 + e2;
        let l3 = l2 + e3;
        let l4 = l3 + e4;
        lemma_concat_assoc(l3, e4, t5);
        lemma_concat_assoc(l2, e3, t4);
        lemma_concat_assoc(l1, e2, t3);
        lemma_concat_assoc(l0, e1, t2);
        assert(data == t0);
        String::lemma_round_trip(v.group, t1);
        lemma_skip_concat(e0, t1);
        RecipeIngredient::lemma_round_trip(v.ingredient, t2);
        lemma_skip_more(data, (e0.len()) as int, e1, t2);
        <Slot>::lemma_round_trip(v.result, t3);
        lemma_skip_more(data, (e0.len() + e1.len()) as int, e2, t3);
        u32::lemma_round_trip(v.experience, t4);
        lemma_skip_more(data, (e0.len() + e1.len() + e2.len()) as int, e3, t4);
        VarInt::lemma_round_trip(v.cooking_time, t5);
        lemma_skip_more(data, (e0.len() + e1.len() + e2.len() + e3.len()) as int, e4, t5);
    }
}

/// A recipe for the stonecutter.
#[derive(Debug, Clone, PartialEq)]
pub struct RecipeStonecuttingSpec {
    pub group: String,
    pub ingredient: RecipeIngredient,
    pub result: Slot,
}

/// The mathematical content of a [`RecipeStonecuttingSpec`].
pub struct RecipeStonecuttingSpecView {
    pub group: Seq<char>,
    pub ingredient: <RecipeIngredient as DeepView>::V,
    pub result: <Slot as DeepView>::V,
}

impl DeepView for RecipeStonecuttingSpec {
    type V = RecipeStonecuttingSpecView;

    open spec fn deep_view(&self) -> RecipeStonecuttingSpecView {
        RecipeStonecuttingSpecView {
            group: self.group.deep_view(),
            ingredient: self.ingredient.deep_view(),
            result: self.result.deep_view(),
        }
    }
}

impl Serialize for RecipeStonecuttingSpec {
    open spec fn serializable(v: RecipeStonecuttingSpecView) -> bool {
        String::serializable(v.group) && RecipeIngredient::serializable(v.ingredient) && <Slot>::serializable(v.result)
    }

    #[verifier::opaque]
    open spec fn encode(v: RecipeStonecuttingSpecView) -> Seq<u8> {
        String::encode(v.group) + RecipeIngredient::encode(v.ingredient) + <Slot>::encode(v.result)
    }

    fn mc_serialize<S: Serializer>(&self, to: &mut S) -> (r: SerializeResult) {
        proof {
            reveal(<RecipeStonecuttingSpec as Serialize>::encode);
        }
        self.group.mc_serialize(to)?;
        self.ingredient.mc_serialize(to)?;
        self.result.mc_serialize(to)?;
        proof {
            let v = self.deep_view();
            let w = old(to).written();
            let e0 = String::encode(v.group);
            let e1 = RecipeIngredient::encode(v.ingredient);
            let e2 = <Slot>::encode(v.result);
            let l0 = e0;
            let l1 = l0 + e1;
            let l2 = l1 + e2;
            lemma_concat_assoc(w, l0, e1);
            lemma_concat_assoc(w, l1, e2);
        }
        Ok(())
    }
}

impl Deserialize for RecipeStonecuttingSpec {
    #[verifier::opaque]
    open spec fn decode(data: Seq<u8>) -> Decoded<RecipeStonecuttingSpecView> {
        match String::decode(data) {
            Err(e) => Err(e),
            Ok((group, n0)) => {
                match RecipeIngredient::decode(data.skip((n0) as int)) {
                    Err(e) => Err(e),
                    Ok((ingredient, n1)) => {
                        match <Slot>::decode(data.skip((n0 + n1) as int)) {
                            Err(e) => Err(e),
                            Ok((result, n2)) => Ok((RecipeStonecuttingSpecView { group, ingredient, result }, n0 + n1 + n2)),
                        }
                    },
                }
            },
        }
    }

    fn mc_deserialize(data: &[u8]) -> (r: DeserializeResult<'_, RecipeStonecuttingSpec>) {
        proof {
            reveal(<RecipeStonecuttingSpec as Deserialize>::decode);
        }
        let ghost whole = data@;
        let Deserialized { value: group, data: rest0 } = String::mc_deserialize(data)?;
        let Deserialized { value: ingredient, data: rest1 } = RecipeIngredient::mc_deserialize(rest0)?;
        proof {
            lemma_skip_skip(
                whole,
                whole.len() - rest0@.len(),
                rest0@.len() - rest1@.len(),
            );
        }
        let Deserialized { value: result, data: rest2 } = <Slot>::mc_deserialize(rest1)?;
        proof {
            lemma_skip_skip(
                whole,
                whole.len() - rest1@.len(),
                rest1@.len() - rest2@.len(),
            );
        }
        Ok(Deserialized { value: RecipeStonecuttingSpec { group, ingredient, result }, data: rest2 })
    }
}

impl ProtocolType for RecipeStonecuttingSpec {
    open spec fn faithful(v: RecipeStonecuttingSpecView) -> bool {
        String::faithful(v.group) && RecipeIngredient::faithful(v.ingredient) && <Slot>::faithful(v.result)
    }

    open spec fn delimited() -> bool {
        <Slot>::delimited()
    }

    proof fn lemma_round_trip(v: RecipeStonecuttingSpecView, rest: Seq<u8>) {
        reveal(<RecipeStonecuttingSpec as Serialize>::encode);
        reveal(<RecipeStonecuttingSpec as Deserialize>::decode);
        let e0 = String::encode(v.group);
        let e1 = RecipeIngredient::encode(v.ingredient);
        let e2 = <Slot>::encode(v.result);
        let data = Self::encode(v) + rest;
        let t3 = rest;
        let t2 = e2 + t3;
        let t1 = e1 + t2;
        let t0 = e0 + t1;
        let l0 = e0;
        let l1 = l0 + e1;
        let l2 = l1 + e2;
        lemma_concat_assoc(l1, e2, t3);
        lemma_concat_assoc(l0, e1, t2);
        assert(data == t0);
        String::lemma_round_trip(v.group, t1);
        lemma_skip_concat(e0, t1);
        RecipeIngredient::lemma_round_trip(v.ingredient, t2);
        lemma_skip_more(data, (e0.len()) as int, e1, t2);
        <Slot>::lemma_round_trip(v.result, t3);
        lemma_skip_more(data, (e0.len() + e1.len()) as int, e2, t3);
    }
}

/// A recipe for the smithing table.
#[derive(Debug, Clone, PartialEq)]
pub struct RecipeSmithingSpec {
    pub base: RecipeIngredient,
    pub addition: RecipeIngredient,
    pub result: Slot,
}

/// The mathematical content of a [`RecipeSmithingSpec`].
pub struct RecipeSmithingSpecView {
    pub base: <RecipeIngredient as DeepView>::V,
    pub addition: <RecipeIngredient as DeepView>::V,
    pub result: <Slot as DeepView>::V,
}

impl DeepView for RecipeSmithingSpec {
    type V = RecipeSmithingSpecView;

    open spec fn deep_view(&self) -> RecipeSmithingSpecView {
        RecipeSmithingSpecView {
            base: self.base.deep_view(),
            addition: self.addition.deep_view(),
            result: self.result.deep_view(),
        }
    }
}

impl Serialize for RecipeSmithingSpec {
    open spec fn serializable(v: RecipeSmithingSpecView) -> bool {
        RecipeIngredient::serializable(v.base) && RecipeIngredient::serializable(v.addition) && <Slot>::serializable(v.result)
    }

    #[verifier::opaque]
    open spec fn encode(v: RecipeSmithingSpecView) -> Seq<u8> {
        RecipeIngredient::encode(v.base) + RecipeIngredient::encode(v.addition) + <Slot>::encode(v.result)
    }

    fn mc_serialize<S: Serializer>(&self, to: &mut S) -> (r: SerializeResult) {
        proof {
            reveal(<RecipeSmithingSpec as Serialize>::encode);
        }
        self.base.mc_serialize(to)?;
        self.addition.mc_serialize(to)?;
        self.result.mc_serialize(to)?;
        proof {
            let v = self.deep_view();
            let w = old(to).written();
            let e0 = RecipeIngredient::encode(v.base);
            let e1 = RecipeIngredient::encode(v.addition);
            let e2 = <Slot>::encode(v.result);
            let l0 = e0;
            let l1 = l0 + e1;
            let l2 = l1 + e2;
            lemma_concat_assoc(w, l0, e1);
            lemma_concat_assoc(w, l1, e2);
        }
        Ok(())
    }
}

impl Deserialize for RecipeSmithingSpec {
    #[verifier::opaque]
    open spec fn decode(data: Seq<u8>) -> Decoded<RecipeSmithingSpecView> {
        match RecipeIngredient::decode(data) {
            Err(e) => Err(e),
            Ok((base, n0)) => {
                match RecipeIngredient::decode(data.skip((n0) as int)) {
                    Err(e) => Err(e),
                    Ok((addition, n1)) => {
                        match <Slot>::decode(data.skip((n0 + n1) as int)) {
                            Err(e) => Err(e),
                            Ok((result, n2)) => Ok((RecipeSmithingSpecView { base, addition, result }, n0 + n1 + n2)),
                        }
                    },
                }
            },
        }
    }

    fn mc_deserialize(data: &[u8]) -> (r: DeserializeResult<'_, RecipeSmithingSpec>) {
        proof {
            reveal(<RecipeSmithingSpec as Deserialize>::decode);
        }
        let ghost whole = data@;
        let Deserialized { value: base, data: rest0 } = RecipeIngredient::mc_deserialize(data)?;
        let Deserialized { value: addition, data: rest1 } = RecipeIngredient::mc_deserialize(rest0)?;
        proof {
            lemma_skip_skip(
                whole,
                whole.len() - rest0@.len(),
                rest0@.len() - rest1@.len(),
            );
        }
        let Deserialized { value: result, data: rest2 } = <Slot>::mc_deserialize(rest1)?;
        proof {
            lemma_skip_skip(
                whole,
                whole.len() - rest1@.len(),
                rest1@.len() - rest2@.len(),
            );
        }
        Ok(Deserialized { value: RecipeSmithingSpec { base, addition, result }, data: rest2 })
    }
}

impl ProtocolType for RecipeSmithingSpec {
    open spec fn faithful(v: RecipeSmithingSpecView) -> bool {
        RecipeIngredient::faithful(v.base) && RecipeIngredient::faithful(v.addition) && <Slot>::faithful(v.result)
    }

    open spec fn delimited() -> bool {
        <Slot>::delimited()
    }

    proof fn lemma_round_trip(v: RecipeSmithingSpecView, rest: Seq<u8>) {
        reveal(<RecipeSmithingSpec as Serialize>::encode);
        reveal(<RecipeSmithingSpec as Deserialize>::decode);
        let e0 = RecipeIngredient::encode(v.base);
        let e1 = RecipeIngredient::encode(v.addition);
        let e2 = <Slot>::encode(v.result);
        let data = Self::encode(v) + rest;
        let t3 = rest;
        let t2 = e2 + t3;
        let t1 = e1 + t2;
        let t0 = e0 + t1;
        let l0 = e0;
        let l1 = l0 + e1;
        let l2 = l1 + e2;
        lemma_concat_assoc(l1, e2, t3);
        lemma_concat_assoc(l0, e1, t2);
        assert(data == t0);
        RecipeIngredient::lemma_round_trip(v.base, t1);
        lemma_skip_concat(e0, t1);
        RecipeIngredient::lemma_round_trip(v.addition, t2);
        lemma_skip_more(data, (e0.len()) as int, e1, t2);
        <Slot>::lemma_round_trip(v.result, t3);
        lemma_skip_more(data, (e0.len() + e1.len()) as int, e2, t3);
    }
}

/// How many ingredients a grid of `width` by `height` holds. The two are
/// counted as a cast to `usize` counts them; a product beyond what the machine
/// can count is taken as the most that it can count.
pub open spec fn shaped_count(width: VarInt, height: VarInt) -> nat {
    let cells = VarInt::count_of(width) * VarInt::count_of(height);
    if cells > usize::MAX {
        usize::MAX as nat
    } else {
        cells
    }
}

fn shaped_cells(width: &VarInt, height: &VarInt) -> (r: usize)
    ensures
        r == shaped_count(*width, *height),
{
    let w = width.as_count() as u128;
    let h = height.as_count() as u128;
    proof {
        assert(w * h <= 0xFFFF_FFFF_FFFF_FFFF * 0xFFFF_FFFF_FFFF_FFFF) by (nonlinear_arith)
            requires
                w <= 0xFFFF_FFFF_FFFF_FFFF,
                h <= 0xFFFF_FFFF_FFFF_FFFF,
        ;
    }
    let cells = w * h;
    if cells > usize::MAX as u128 {
        usize::MAX
    } else {
        cells as usize
    }
}

/// A recipe whose ingredients lie in a grid: as many of them as the grid has cells, row by row, with no count in front.
#[derive(Debug, Clone, PartialEq)]
pub struct RecipeCraftingShapedSpec {
    pub width: VarInt,
    pub height: VarInt,
    pub group: String,
    /// One ingredient for each cell of the grid.
    pub ingredients: Vec<RecipeIngredient>,
    pub result: Slot,
}

/// The mathematical content of a [`RecipeCraftingShapedSpec`].
pub struct RecipeCraftingShapedSpecView {
    pub width: VarInt,
    pub height: VarInt,
    pub group: Seq<char>,
    pub ingredients: <Vec<RecipeIngredient> as DeepView>::V,
    pub result: <Slot as DeepView>::V,
}

impl DeepView for RecipeCraftingShapedSpec {
    type V = RecipeCraftingShapedSpecView;

    open spec fn deep_view(&self) -> RecipeCraftingShapedSpecView {
        RecipeCraftingShapedSpecView {
            width: self.width.deep_view(),
            height: self.height.deep_view(),
            group: self.group.deep_view(),
            ingredients: self.ingredients.deep_view(),
            result: self.result.deep_view(),
        }
    }
}

impl Serialize for RecipeCraftingShapedSpec {
    open spec fn serializable(v: RecipeCraftingShapedSpecView) -> bool {
        &&& VarInt::serializable(v.width)
        &&& VarInt::serializable(v.height)
        &&& String::serializable(v.group)
        &&& all_serializable::<RecipeIngredient>(v.ingredients)
        &&& <Slot>::serializable(v.result)
    }

    #[verifier::opaque]
    open spec fn encode(v: RecipeCraftingShapedSpecView) -> Seq<u8> {
        VarInt::encode(v.width) + VarInt::encode(v.height) + String::encode(v.group) + encode_all::<RecipeIngredient>(v.ingredients) + <Slot>::encode(v.result)
    }

    fn mc_serialize<S: Serializer>(&self, to: &mut S) -> (r: SerializeResult) {
        proof {
            reveal(<RecipeCraftingShapedSpec as Serialize>::encode);
        }
        self.width.mc_serialize(to)?;
        self.height.mc_serialize(to)?;
        self.group.mc_serialize(to)?;
        serialize_vec_directly(&self.ingredients, to)?;
        self.result.mc_serialize(to)?;
        proof {
            let v = self.deep_view();
            let w = old(to).written();
            let e0 = VarInt::encode(v.width);
            let e1 = VarInt::encode(v.height);
            let e2 = String::encode(v.group);
            let e3 = encode_all::<RecipeIngredient>(v.ingredients);
            let e4 = <Slot>::encode(v.result);
            let l0 = e0;
            let l1 = l0 + e1;
            let l2 = l1 + e2;
            let l3 = l2 + e3;
            let l4 = l3 + e4;
            lemma_concat_assoc(w, l0, e1);
            lemma_concat_assoc(w, l1, e2);
            lemma_concat_assoc(w, l2, e3);
            lemma_concat_assoc(w, l3, e4);
        }
        Ok(())
    }
}

impl Deserialize for RecipeCraftingShapedSpec {
    #[verifier::opaque]
    open spec fn decode(data: Seq<u8>) -> Decoded<RecipeCraftingShapedSpecView> {
        match VarInt::decode(data) {
            Err(e) => Err(e),
            Ok((width, n0)) => {
                match VarInt::decode(data.skip((n0) as int)) {
                    Err(e) => Err(e),
                    Ok((height, n1)) => {
                        match String::decode(data.skip((n0 + n1) as int)) {
                            Err(e) => Err(e),
                            Ok((group, n2)) => {
                                match decode_n::<RecipeIngredient>(data.skip((n0 + n1 + n2) as int), shaped_count(width, height)) {
                                    Err(e) => Err(e),
                                    Ok((ingredients, n3)) => {
                                        match <Slot>::decode(data.skip((n0 + n1 + n2 + n3) as int)) {
                                            Err(e) => Err(e),
                                            Ok((result, n4)) => Ok((RecipeCraftingShapedSpecView { width, height, group, ingredients, result }, n0 + n1 + n2 + n3 + n4)),
                                        }
                                    },
                                }
                            },
                        }
                    },
                }
            },
        }
    }

    fn mc_deserialize(data: &[u8]) -> (r: DeserializeResult<'_, RecipeCraftingShapedSpec>) {
        proof {
            reveal(<RecipeCraftingShapedSpec as Deserialize>::decode);
        }
        let ghost whole = data@;
        let Deserialized { value: width, data: rest0 } = VarInt::mc_deserialize(data)?;
        let Deserialized { value: height, data: rest1 } = VarInt::mc_deserialize(rest0)?;
        proof {
            lemma_skip_skip(
                whole,
                whole.len() - rest0@.len(),
                rest0@.len() - rest1@.len(),
            );
        }
        let Deserialized { value: group, data: rest2 } = String::mc_deserialize(rest1)?;
        proof {
            lemma_skip_skip(
                whole,
                whole.len() - rest1@.len(),
                rest1@.len() - rest2@.len(),
            );
        }
        let Deserialized { value: ingredients, data: rest3 } = deserialize_vec_directly::<RecipeIngredient>(shaped_cells(&width, &height), rest2)?;
        proof {
            lemma_skip_skip(
                whole,
                whole.len() - rest2@.len(),
                rest2@.len() - rest3@.len(),
            );
        }
        let Deserialized { value: result, data: rest4 } = <Slot>::mc_deserialize(rest3)?;
        proof {
            lemma_skip_skip(
                whole,
                whole.len() - rest3@.len(),
                rest3@.len() - rest4@.len(),
            );
        }
        Ok(Deserialized { value: RecipeCraftingShapedSpec { width, height, group, ingredients, result }, data: rest4 })
    }
}

impl ProtocolType for RecipeCraftingShapedSpec {
    open spec fn faithful(v: RecipeCraftingShapedSpecView) -> bool {
        &&& VarInt::faithful(v.width)
        &&& VarInt::faithful(v.height)
        &&& String::faithful(v.group)
        &&& all_faithful::<RecipeIngredient>(v.ingredients) && RecipeIngredient::delimited()
        &&& <Slot>::faithful(v.result)
        &&& v.ingredients.len() == shaped_count(v.width, v.height)
    }

    open spec fn delimited() -> bool {
        <Slot>::delimited()
    }

    proof fn lemma_round_trip(v: RecipeCraftingShapedSpecView, rest: Seq<u8>) {
        reveal(<RecipeCraftingShapedSpec as Serialize>::encode);
        reveal(<RecipeCraftingShapedSpec as Deserialize>::decode);
        let e0 = VarInt::encode(v.width);
        let e1 = VarInt::encode(v.height);
        let e2 = String::encode(v.group);
        let e3 = encode_all::<RecipeIngredient>(v.ingredients);
        let e4 = <Slot>::encode(v.result);
        let data = Self::encode(v) + rest;
        let t5 = rest;
        let t4 = e4 + t5;
        let t3 = e3 + t4;
        let t2 = e2 + t3;
        let t1 = e1 + t2;
        let t0 = e0 + t1;
        let l0 = e0;
        let l1 = l0 + e1;
        let l2 = l1 + e2;
        let l3 = l2 + e3;
        let l4 = l3 + e4;
        lemma_concat_assoc(l3, e4, t5);
        lemma_concat_assoc(l2, e3, t4);
        lemma_concat_assoc(l1, e2, t3);
        lemma_concat_assoc(l0, e1, t2);
        assert(data == t0);
        VarInt::lemma_round_trip(v.width, t1);
        lemma_skip_concat(e0, t1);
        VarInt::lemma_round_trip(v.height, t2);
        lemma_skip_more(data, (e0.len()) as int, e1, t2);
        String::lemma_round_trip(v.group, t3);
        lemma_skip_more(data, (e0.len() + e1.len()) as int, e2, t3);
        lemma_decode_n_encode_all::<RecipeIngredient>(v.ingredients, t4);
        lemma_all_serializable::<RecipeIngredient>(v.ingredients);
        lemma_skip_more(data, (e0.len() + e1.len() + e2.len()) as int, e3, t4);
        <Slot>::lemma_round_trip(v.result, t5);
        lemma_skip_more(data, (e0.len() + e1.len() + e2.len() + e3.len()) as int, e4, t5);
    }
}

/// A kind of recipe, with what belongs to it.
#[derive(PartialEq, Clone, Debug)]
pub enum Recipe {
    CraftingShapeless(RecipeCraftingShapelessSpec),
    CraftingShaped(RecipeCraftingShapedSpec),
    CraftingArmorDye,
    CraftingBookCloning,
    CraftingMapCloning,
    CraftingMapExtending,
    CraftingFireworkRocket,
    CraftingFireworkStar,
    CraftingFireworkStarFade,
    CraftingRepairItem,
    CraftingTippedArrow,
    CraftingBannerDuplicate,
    CraftingBannerAddPattern,
    CraftingShieldDecoration,
    CraftingShulkerBoxColoring,
    CraftingSuspiciousStew,
    Smelting(RecipeSmeltingSpec),
    Blasting(RecipeSmeltingSpec),
    Smoking(RecipeSmeltingSpec),
    CampfireCooking(RecipeSmeltingSpec),
    StoneCutting(RecipeStonecuttingSpec),
    Smithing(RecipeSmithingSpec),
}

/// The mathematical content of a [`Recipe`].
pub enum RecipeView {
    CraftingShapeless(<RecipeCraftingShapelessSpec as DeepView>::V),
    CraftingShaped(<RecipeCraftingShapedSpec as DeepView>::V),
    CraftingArmorDye,
    CraftingBookCloning,
    CraftingMapCloning,
    CraftingMapExtending,
    CraftingFireworkRocket,
    CraftingFireworkStar,
    CraftingFireworkStarFade,
    CraftingRepairItem,
    CraftingTippedArrow,
    CraftingBannerDuplicate,
    CraftingBannerAddPattern,
    CraftingShieldDecoration,
    CraftingShulkerBoxColoring,
    CraftingSuspiciousStew,
    Smelting(<RecipeSmeltingSpec as DeepView>::V),
    Blasting(<RecipeSmeltingSpec as DeepView>::V),
    Smoking(<RecipeSmeltingSpec as DeepView>::V),
    CampfireCooking(<RecipeSmeltingSpec as DeepView>::V),
    StoneCutting(<RecipeStonecuttingSpec as DeepView>::V),
    Smithing(<RecipeSmithingSpec as DeepView>::V),
}

impl DeepView for Recipe {
    type V = RecipeView;

    open spec fn deep_view(&self) -> RecipeView {
        match self {
            Recipe::CraftingShapeless(body) => RecipeView::CraftingShapeless(body.deep_view()),
            Recipe::CraftingShaped(body) => RecipeView::CraftingShaped(body.deep_view()),
            Recipe::CraftingArmorDye => RecipeView::CraftingArmorDye,
            Recipe::CraftingBookCloning => RecipeView::CraftingBookCloning,
            Recipe::CraftingMapCloning => RecipeView::CraftingMapCloning,
            Recipe::CraftingMapExtending => RecipeView::CraftingMapExtending,
            Recipe::CraftingFireworkRocket => RecipeView::CraftingFireworkRocket,
            Recipe::CraftingFireworkStar => RecipeView::CraftingFireworkStar,
            Recipe::CraftingFireworkStarFade => RecipeView::CraftingFireworkStarFade,
            Recipe::CraftingRepairItem => RecipeView::CraftingRepairItem,
            Recipe::CraftingTippedArrow => RecipeView::CraftingTippedArrow,
            Recipe::CraftingBannerDuplicate => RecipeView::CraftingBannerDuplicate,
            Recipe::CraftingBannerAddPattern => RecipeView::CraftingBannerAddPattern,
            Recipe::CraftingShieldDecoration => RecipeView::CraftingShieldDecoration,
            Recipe::CraftingShulkerBoxColoring => RecipeView::CraftingShulkerBoxColoring,
            Recipe::CraftingSuspiciousStew => RecipeView::CraftingSuspiciousStew,
            Recipe::Smelting(body) => RecipeView::Smelting(body.deep_view()),
            Recipe::Blasting(body) => RecipeView::Blasting(body.deep_view()),
            Recipe::Smoking(body) => RecipeView::Smoking(body.deep_view()),
            Recipe::CampfireCooking(body) => RecipeView::CampfireCooking(body.deep_view()),
            Recipe::StoneCutting(body) => RecipeView::StoneCutting(body.deep_view()),
            Recipe::Smithing(body) => RecipeView::Smithing(body.deep_view()),
        }
    }
}

impl Recipe {
    pub fn variant_count() -> (r: usize)
        ensures
            r == 22,
    {
        22
    }

    /// The text that stands for the variant on the wire.
    pub open spec fn name_of(v: RecipeView) -> Seq<char> {
        match v {
            RecipeView::CraftingShapeless(_) => "minecraft:crafting_shapeless"@,
            RecipeView::CraftingShaped(_) => "minecraft:crafting_shaped"@,
            RecipeView::CraftingArmorDye => "minecraft:crafting_special_armordye"@,
            RecipeView::CraftingBookCloning => "minecraft:crafting_special_bookcloning"@,
            RecipeView::CraftingMapCloning => "minecraft:crafting_special_mapcloning"@,
            RecipeView::CraftingMapExtending => "minecraft:crafting_special_mapextending"@,
            RecipeView::CraftingFireworkRocket => "minecraft:crafting_special_firework_rocket"@,
            RecipeView::CraftingFireworkStar => "minecraft:crafting_special_firework_star"@,
            RecipeView::CraftingFireworkStarFade => "minecraft:crafting_special_firework_star_fade"@,
            RecipeView::CraftingRepairItem => "minecraft:crafting_special_repairitem"@,
            RecipeView::CraftingTippedArrow => "minecraft:crafting_special_tippedarrow"@,
            RecipeView::CraftingBannerDuplicate => "minecraft:crafting_special_bannerduplicate"@,
            RecipeView::CraftingBannerAddPattern => "minecraft:crafting_special_banneraddpattern"@,
            RecipeView::CraftingShieldDecoration => "minecraft:crafting_special_shielddecoration"@,
            RecipeView::CraftingShulkerBoxColoring => "minecraft:crafting_special_shulkerboxcoloring"@,
            RecipeView::CraftingSuspiciousStew => "minecraft:crafting_special_suspiciousstew"@,
            RecipeView::Smelting(_) => "minecraft:smelting"@,
            RecipeView::Blasting(_) => "minecraft:blasting"@,
            RecipeView::Smoking(_) => "minecraft:smoking"@,
            RecipeView::CampfireCooking(_) => "minecraft:campfire_cooking"@,
            RecipeView::StoneCutting(_) => "minecraft:stonecutting"@,
            RecipeView::Smithing(_) => "minecraft:smithing"@,
        }
    }

    pub fn name(&self) -> (r: &'static str)
        ensures
            r@ == Self::name_of(self.deep_view()),
    {
        match self {
            Recipe::CraftingShapeless(_) => "minecraft:crafting_shapeless",
            Recipe::CraftingShaped(_) => "minecraft:crafting_shaped",
            Recipe::CraftingArmorDye => "minecraft:crafting_special_armordye",
            Recipe::CraftingBookCloning => "minecraft:crafting_special_bookcloning",
            Recipe::CraftingMapCloning => "minecraft:crafting_special_mapcloning",
            Recipe::CraftingMapExtending => "minecraft:crafting_special_mapextending",
            Recipe::CraftingFireworkRocket => "minecraft:crafting_special_firework_rocket",
            Recipe::CraftingFireworkStar => "minecraft:crafting_special_firework_star",
            Recipe::CraftingFireworkStarFade => "minecraft:crafting_special_firework_star_fade",
            Recipe::CraftingRepairItem => "minecraft:crafting_special_repairitem",
            Recipe::CraftingTippedArrow => "minecraft:crafting_special_tippedarrow",
            Recipe::CraftingBannerDuplicate => "minecraft:crafting_special_bannerduplicate",
            Recipe::CraftingBannerAddPattern => "minecraft:crafting_special_banneraddpattern",
            Recipe::CraftingShieldDecoration => "minecraft:crafting_special_shielddecoration",
            Recipe::CraftingShulkerBoxColoring => "minecraft:crafting_special_shulkerboxcoloring",
            Recipe::CraftingSuspiciousStew => "minecraft:crafting_special_suspiciousstew",
            Recipe::Smelting(_) => "minecraft:smelting",
            Recipe::Blasting(_) => "minecraft:blasting",
            Recipe::Smoking(_) => "minecraft:smoking",
            Recipe::CampfireCooking(_) => "minecraft:campfire_cooking",
            Recipe::StoneCutting(_) => "minecraft:stonecutting",
            Recipe::Smithing(_) => "minecraft:smithing",
        }
    }

    pub fn id(&self) -> (r: String)
        ensures
            r@ == Self::name_of(self.deep_view()),
    {
        self.name().to_owned()
    }

    /// The bytes that follow the text.
    pub open spec fn body_of(v: RecipeView) -> Seq<u8> {
        match v {
            RecipeView::CraftingShapeless(body) => <RecipeCraftingShapelessSpec>::encode(body),
            RecipeView::CraftingShaped(body) => <RecipeCraftingShapedSpec>::encode(body),
            RecipeView::CraftingArmorDye => Seq::empty(),
            RecipeView::CraftingBookCloning => Seq::empty(),
            RecipeView::CraftingMapCloning => Seq::empty(),
            RecipeView::CraftingMapExtending => Seq::empty(),
            RecipeView::CraftingFireworkRocket => Seq::empty(),
            RecipeView::CraftingFireworkStar => Seq::empty(),
            RecipeView::CraftingFireworkStarFade => Seq::empty(),
            RecipeView::CraftingRepairItem => Seq::empty(),
            RecipeView::CraftingTippedArrow => Seq::empty(),
            RecipeView::CraftingBannerDuplicate => Seq::empty(),
            RecipeView::CraftingBannerAddPattern => Seq::empty(),
            RecipeView::CraftingShieldDecoration => Seq::empty(),
            RecipeView::CraftingShulkerBoxColoring => Seq::empty(),
            RecipeView::CraftingSuspiciousStew => Seq::empty(),
            RecipeView::Smelting(body) => <RecipeSmeltingSpec>::encode(body),
            RecipeView::Blasting(body) => <RecipeSmeltingSpec>::encode(body),
            RecipeView::Smoking(body) => <RecipeSmeltingSpec>::encode(body),
            RecipeView::CampfireCooking(body) => <RecipeSmeltingSpec>::encode(body),
            RecipeView::StoneCutting(body) => <RecipeStonecuttingSpec>::encode(body),
            RecipeView::Smithing(body) => <RecipeSmithingSpec>::encode(body),
        }
    }

    /// Whether what follows the text can be written.
    pub open spec fn body_writable(v: RecipeView) -> bool {
        match v {
            RecipeView::CraftingShapeless(body) => <RecipeCraftingShapelessSpec>::serializable(body),
            RecipeView::CraftingShaped(body) => <RecipeCraftingShapedSpec>::serializable(body),
            RecipeView::CraftingArmorDye => true,
            RecipeView::CraftingBookCloning => true,
            RecipeView::CraftingMapCloning => true,
            RecipeView::CraftingMapExtending => true,
            RecipeView::CraftingFireworkRocket => true,
            RecipeView::CraftingFireworkStar => true,
            RecipeView::CraftingFireworkStarFade => true,
            RecipeView::CraftingRepairItem => true,
            RecipeView::CraftingTippedArrow => true,
            RecipeView::CraftingBannerDuplicate => true,
            RecipeView::CraftingBannerAddPattern => true,
            RecipeView::CraftingShieldDecoration => true,
            RecipeView::CraftingShulkerBoxColoring => true,
            RecipeView::CraftingSuspiciousStew => true,
            RecipeView::Smelting(body) => <RecipeSmeltingSpec>::serializable(body),
            RecipeView::Blasting(body) => <RecipeSmeltingSpec>::serializable(body),
            RecipeView::Smoking(body) => <RecipeSmeltingSpec>::serializable(body),
            RecipeView::CampfireCooking(body) => <RecipeSmeltingSpec>::serializable(body),
            RecipeView::StoneCutting(body) => <RecipeStonecuttingSpec>::serializable(body),
            RecipeView::Smithing(body) => <RecipeSmithingSpec>::serializable(body),
        }
    }

    /// The variant that `name` stands for, with its body read from `data`.
    pub open spec fn decode_with_id(name: Seq<char>, data: Seq<u8>) -> Decoded<RecipeView> {
        if name == "minecraft:crafting_shapeless"@ {
            match <RecipeCraftingShapelessSpec>::decode(data) {
                Ok((body, n)) => Ok((RecipeView::CraftingShapeless(body), n)),
                Err(e) => Err(e),
            }
        } else if name == "minecraft:crafting_shaped"@ {
            match <RecipeCraftingShapedSpec>::decode(data) {
                Ok((body, n)) => Ok((RecipeView::CraftingShaped(body), n)),
                Err(e) => Err(e),
            }
        } else if name == "minecraft:crafting_special_armordye"@ {
            Ok((RecipeView::CraftingArmorDye, 0))
        } else if name == "minecraft:crafting_special_bookcloning"@ {
            Ok((RecipeView::CraftingBookCloning, 0))
        } else if name == "minecraft:crafting_special_mapcloning"@ {
            Ok((RecipeView::CraftingMapCloning, 0))
        } else if name == "minecraft:crafting_special_mapextending"@ {
            Ok((RecipeView::CraftingMapExtending, 0))
        } else if name == "minecraft:crafting_special_firework_rocket"@ {
            Ok((RecipeView::CraftingFireworkRocket, 0))
        } else if name == "minecraft:crafting_special_firework_star"@ {
            Ok((RecipeView::CraftingFireworkStar, 0))
        } else if name == "minecraft:crafting_special_firework_star_fade"@ {
            Ok((RecipeView::CraftingFireworkStarFade, 0))
        } else if name == "minecraft:crafting_special_repairitem"@ {
            Ok((RecipeView::CraftingRepairItem, 0))
        } else if name == "minecraft:crafting_special_tippedarrow"@ {
            Ok((RecipeView::CraftingTippedArrow, 0))
        } else if name == "minecraft:crafting_special_bannerduplicate"@ {
            Ok((RecipeView::CraftingBannerDuplicate, 0))
        } else if name == "minecraft:crafting_special_banneraddpattern"@ {
            Ok((RecipeView::CraftingBannerAddPattern, 0))
        } else if name == "minecraft:crafting_special_shielddecoration"@ {
            Ok((RecipeView::CraftingShieldDecoration, 0))
        } else if name == "minecraft:crafting_special_shulkerboxcoloring"@ {
            Ok((RecipeView::CraftingShulkerBoxColoring, 0))
        } else if name == "minecraft:crafting_special_suspiciousstew"@ {
            Ok((RecipeView::CraftingSuspiciousStew, 0))
        } else if name == "minecraft:smelting"@ {
            match <RecipeSmeltingSpec>::decode(data) {
                Ok((body, n)) => Ok((RecipeView::Smelting(body), n)),
                Err(e) => Err(e),
            }
        } else if name == "minecraft:blasting"@ {
            match <RecipeSmeltingSpec>::decode(data) {
                Ok((body, n)) => Ok((RecipeView::Blasting(body), n)),
                Err(e) => Err(e),
            }
        } else if name == "minecraft:smoking"@ {
            match <RecipeSmeltingSpec>::decode(data) {
                Ok((body, n)) => Ok((RecipeView::Smoking(body), n)),
                Err(e) => Err(e),
            }
        } else if name == "minecraft:campfire_cooking"@ {
            match <RecipeSmeltingSpec>::decode(data) {
                Ok((body, n)) => Ok((RecipeView::CampfireCooking(body), n)),
                Err(e) => Err(e),
            }
        } else if name == "minecraft:stonecutting"@ {
            match <RecipeStonecuttingSpec>::decode(data) {
                Ok((body, n)) => Ok((RecipeView::StoneCutting(body), n)),
                Err(e) => Err(e),
            }
        } else if name == "minecraft:smithing"@ {
            match <RecipeSmithingSpec>::decode(data) {
                Ok((body, n)) => Ok((RecipeView::Smithing(body), n)),
                Err(e) => Err(e),
            }
        } else {
            Err(DecodeFailure::CannotUnderstandValue)
        }
    }

    /// Whether `name` stands for a variant.
    pub open spec fn has_name(name: Seq<char>) -> bool {
        name == "minecraft:crafting_shapeless"@
            || name == "minecraft:crafting_shaped"@
            || name == "minecraft:crafting_special_armordye"@
            || name == "minecraft:crafting_special_bookcloning"@
            || name == "minecraft:crafting_special_mapcloning"@
            || name == "minecraft:crafting_special_mapextending"@
            || name == "minecraft:crafting_special_firework_rocket"@
            || name == "minecraft:crafting_special_firework_star"@
            || name == "minecraft:crafting_special_firework_star_fade"@
            || name == "minecraft:crafting_special_repairitem"@
            || name == "minecraft:crafting_special_tippedarrow"@
            || name == "minecraft:crafting_special_bannerduplicate"@
            || name == "minecraft:crafting_special_banneraddpattern"@
            || name == "minecraft:crafting_special_shielddecoration"@
            || name == "minecraft:crafting_special_shulkerboxcoloring"@
            || name == "minecraft:crafting_special_suspiciousstew"@
            || name == "minecraft:smelting"@
            || name == "minecraft:blasting"@
            || name == "minecraft:smoking"@
            || name == "minecraft:campfire_cooking"@
            || name == "minecraft:stonecutting"@
            || name == "minecraft:smithing"@
    }

    /// Picks the variant for `name` and reads its body from `data`. A text
    /// that stands for no variant is refused, and the error says which.
    pub fn deserialize_with_id<'a>(name: &str, data: &'a [u8]) -> (r: DeserializeResult<'a, Self>)
        ensures
            agrees(r, data@, Self::decode_with_id(name@, data@)),
            !Self::has_name(name@) ==> (r matches Err(DeserializeErr::CannotUnderstandValue(m))
                && m@ == invalid_ident_text("Recipe"@, name@)),
    {
        proof {
            assert(data@.skip(0) =~= data@);
        }
        if same_text(name, "minecraft:crafting_shapeless") {
            let Deserialized { value: body, data: rest } = <RecipeCraftingShapelessSpec>::mc_deserialize(data)?;
            Ok(Deserialized { value: Recipe::CraftingShapeless(body), data: rest })
        } else if same_text(name, "minecraft:crafting_shaped") {
            let Deserialized { value: body, data: rest } = <RecipeCraftingShapedSpec>::mc_deserialize(data)?;
            Ok(Deserialized { value: Recipe::CraftingShaped(body), data: rest })
        } else if same_text(name, "minecraft:crafting_special_armordye") {
            Ok(Deserialized { value: Recipe::CraftingArmorDye, data })
        } else if same_text(name, "minecraft:crafting_special_bookcloning") {
            Ok(Deserialized { value: Recipe::CraftingBookCloning, data })
        } else if same_text(name, "minecraft:crafting_special_mapcloning") {
            Ok(Deserialized { value: Recipe::CraftingMapCloning, data })
        } else if same_text(name, "minecraft:crafting_special_mapextending") {
            Ok(Deserialized { value: Recipe::CraftingMapExtending, data })
        } else if same_text(name, "minecraft:crafting_special_firework_rocket") {
            Ok(Deserialized { value: Recipe::CraftingFireworkRocket, data })
        } else if same_text(name, "minecraft:crafting_special_firework_star") {
            Ok(Deserialized { value: Recipe::CraftingFireworkStar, data })
        } else if same_text(name, "minecraft:crafting_special_firework_star_fade") {
            Ok(Deserialized { value: Recipe::CraftingFireworkStarFade, data })
        } else if same_text(name, "minecraft:crafting_special_repairitem") {
            Ok(Deserialized { value: Recipe::CraftingRepairItem, data })
        } else if same_text(name, "minecraft:crafting_special_tippedarrow") {
            Ok(Deserialized { value: Recipe::CraftingTippedArrow, data })
        } else if same_text(name, "minecraft:crafting_special_bannerduplicate") {
            Ok(Deserialized { value: Recipe::CraftingBannerDuplicate, data })
        } else if same_text(name, "minecraft:crafting_special_banneraddpattern") {
            Ok(Deserialized { value: Recipe::CraftingBannerAddPattern, data })
        } else if same_text(name, "minecraft:crafting_special_shielddecoration") {
            Ok(Deserialized { value: Recipe::CraftingShieldDecoration, data })
        } else if same_text(name, "minecraft:crafting_special_shulkerboxcoloring") {
            Ok(Deserialized { value: Recipe::CraftingShulkerBoxColoring, data })
        } else if same_text(name, "minecraft:crafting_special_suspiciousstew") {
            Ok(Deserialized { value: Recipe::CraftingSuspiciousStew, data })
        } else if same_text(name, "minecraft:smelting") {
            let Deserialized { value: body, data: rest } = <RecipeSmeltingSpec>::mc_deserialize(data)?;
            Ok(Deserialized { value: Recipe::Smelting(body), data: rest })
        } else if same_text(name, "minecraft:blasting") {
            let Deserialized { value: body, data: rest } = <RecipeSmeltingSpec>::mc_deserialize(data)?;
            Ok(Deserialized { value: Recipe::Blasting(body), data: rest })
        } else if same_text(name, "minecraft:smoking") {
            let Deserialized { value: body, data: rest } = <RecipeSmeltingSpec>::mc_deserialize(data)?;
            Ok(Deserialized { value: Recipe::Smoking(body), data: rest })
        } else if same_text(name, "minecraft:campfire_cooking") {
            let Deserialized { value: body, data: rest } = <RecipeSmeltingSpec>::mc_deserialize(data)?;
            Ok(Deserialized { value: Recipe::CampfireCooking(body), data: rest })
        } else if same_text(name, "minecraft:stonecutting") {
            let Deserialized { value: body, data: rest } = <RecipeStonecuttingSpec>::mc_deserialize(data)?;
            Ok(Deserialized { value: Recipe::StoneCutting(body), data: rest })
        } else if same_text(name, "minecraft:smithing") {
            let Deserialized { value: body, data: rest } = <RecipeSmithingSpec>::mc_deserialize(data)?;
            Ok(Deserialized { value: Recipe::Smithing(body), data: rest })
        } else {
            Err(DeserializeErr::CannotUnderstandValue(invalid_ident_message("Recipe", name)))
        }
    }

    /// Writes what follows the text.
    pub fn serialize_body<S: Serializer>(&self, to: &mut S) -> (r: SerializeResult)
        ensures
            r is Ok ==> Self::body_writable(self.deep_view()) && final(to).written() == old(
                to,
            ).written() + Self::body_of(self.deep_view()),
            old(to).infallible() ==> final(to).infallible(),
            old(to).infallible() ==> (r is Ok <==> Self::body_writable(self.deep_view())),
            old(to).infallible() && r is Err ==> (r matches Err(SerializeErr::CannotSerialize(_))),
    {
        match self {
            Recipe::CraftingShapeless(bod) => bod.mc_serialize(to),
            Recipe::CraftingShaped(bod) => bod.mc_serialize(to),
            Recipe::CraftingArmorDye => {
                proof {
                    assert(old(to).written() + Seq::<u8>::empty() =~= old(to).written());
                }
                Ok(())
            },
            Recipe::CraftingBookCloning => {
                proof {
                    assert(old(to).written() + Seq::<u8>::empty() =~= old(to).written());
                }
                Ok(())
            },
            Recipe::CraftingMapCloning => {
                proof {
                    assert(old(to).written() + Seq::<u8>::empty() =~= old(to).written());
                }
                Ok(())
            },
            Recipe::CraftingMapExtending => {
                proof {
                    assert(old(to).written() + Seq::<u8>::empty() =~= old(to).written());
                }
                Ok(())
            },
            Recipe::CraftingFireworkRocket => {
                proof {
                    assert(old(to).written() + Seq::<u8>::empty() =~= old(to).written());
                }
                Ok(())
            },
            Recipe::CraftingFireworkStar => {
                proof {
                    assert(old(to).written() + Seq::<u8>::empty() =~= old(to).written());
                }
                Ok(())
            },
            Recipe::CraftingFireworkStarFade => {
                proof {
                    assert(old(to).written() + Seq::<u8>::empty() =~= old(to).written());
                }
                Ok(())
            },
            Recipe::CraftingRepairItem => {
                proof {
                    assert(old(to).written() + Seq::<u8>::empty() =~= old(to).written());
                }
                Ok(())
            },
            Recipe::CraftingTippedArrow => {
                proof {
                    assert(old(to).written() + Seq::<u8>::empty() =~= old(to).written());
                }
                Ok(())
            },
            Recipe::CraftingBannerDuplicate => {
                proof {
                    assert(old(to).written() + Seq::<u8>::empty() =~= old(to).written());
                }
                Ok(())
            },
            Recipe::CraftingBannerAddPattern => {
                proof {
                    assert(old(to).written() + Seq::<u8>::empty() =~= old(to).written());
                }
                Ok(())
            },
            Recipe::CraftingShieldDecoration => {
                proof {
                    assert(old(to).written() + Seq::<u8>::empty() =~= old(to).written());
                }
                Ok(())
            },
            Recipe::CraftingShulkerBoxColoring => {
                proof {
                    assert(old(to).written() + Seq::<u8>::empty() =~= old(to).written());
                }
                Ok(())
            },
            Recipe::CraftingSuspiciousStew => {
                proof {
                    assert(old(to).written() + Seq::<u8>::empty() =~= old(to).written());
                }
                Ok(())
            },
            Recipe::Smelting(bod) => bod.mc_serialize(to),
            Recipe::Blasting(bod) => bod.mc_serialize(to),
            Recipe::Smoking(bod) => bod.mc_serialize(to),
            Recipe::CampfireCooking(bod) => bod.mc_serialize(to),
            Recipe::StoneCutting(bod) => bod.mc_serialize(to),
            Recipe::Smithing(bod) => bod.mc_serialize(to),
        }
    }

    /// The texts are in ASCII, short, and all different.
    pub proof fn lemma_names(v: RecipeView)
        ensures
            Self::has_name(Self::name_of(v)),
            vstd::utf8::is_ascii_chars(Self::name_of(v)),
            Self::name_of(v).len() < 128,
            forall|data: Seq<u8>| #[trigger]
                Self::decode_with_id(Self::name_of(v), data) == Self::decode_as(v, data),
    {
        reveal_strlit("minecraft:crafting_shapeless");
        reveal_strlit("minecraft:crafting_shaped");
        reveal_strlit("minecraft:crafting_special_armordye");
        reveal_strlit("minecraft:crafting_special_bookcloning");
        reveal_strlit("minecraft:crafting_special_mapcloning");
        reveal_strlit("minecraft:crafting_special_mapextending");
        reveal_strlit("minecraft:crafting_special_firework_rocket");
        reveal_strlit("minecraft:crafting_special_firework_star");
        reveal_strlit("minecraft:crafting_special_firework_star_fade");
        reveal_strlit("minecraft:crafting_special_repairitem");
        reveal_strlit("minecraft:crafting_special_tippedarrow");
        reveal_strlit("minecraft:crafting_special_bannerduplicate");
        reveal_strlit("minecraft:crafting_special_banneraddpattern");
        reveal_strlit("minecraft:crafting_special_shielddecoration");
        reveal_strlit("minecraft:crafting_special_shulkerboxcoloring");
        reveal_strlit("minecraft:crafting_special_suspiciousstew");
        reveal_strlit("minecraft:smelting");
        reveal_strlit("minecraft:blasting");
        reveal_strlit("minecraft:smoking");
        reveal_strlit("minecraft:campfire_cooking");
        reveal_strlit("minecraft:stonecutting");
        reveal_strlit("minecraft:smithing");
        assert("minecraft:crafting_shapeless"@.len() == 28);
        assert("minecraft:crafting_shaped"@.len() == 25);
        assert("minecraft:crafting_special_armordye"@.len() == 35);
        assert("minecraft:crafting_special_bookcloning"@.len() == 38);
        assert("minecraft:crafting_special_mapcloning"@.len() == 37);
        assert("minecraft:crafting_special_mapextending"@.len() == 39);
        assert("minecraft:crafting_special_firework_rocket"@.len() == 42);
        assert("minecraft:crafting_special_firework_star"@.len() == 40);
        assert("minecraft:crafting_special_firework_star_fade"@.len() == 45);
        assert("minecraft:crafting_special_repairitem"@.len() == 37);
        assert("minecraft:crafting_special_tippedarrow"@.len() == 38);
        assert("minecraft:crafting_special_bannerduplicate"@.len() == 42);
        assert("minecraft:crafting_special_banneraddpattern"@.len() == 43);
        assert("minecraft:crafting_special_shielddecoration"@.len() == 43);
        assert("minecraft:crafting_special_shulkerboxcoloring"@.len() == 45);
        assert("minecraft:crafting_special_suspiciousstew"@.len() == 41);
        assert("minecraft:smelting"@.len() == 18);
        assert("minecraft:blasting"@.len() == 18);
        assert("minecraft:smoking"@.len() == 17);
        assert("minecraft:campfire_cooking"@.len() == 26);
        assert("minecraft:stonecutting"@.len() == 22);
        assert("minecraft:smithing"@.len() == 18);
        assert("minecraft:crafting_special_bookcloning"@[27] != "minecraft:crafting_special_tippedarrow"@[27]);
        assert("minecraft:crafting_special_mapcloning"@[27] != "minecraft:crafting_special_repairitem"@[27]);
        assert("minecraft:crafting_special_firework_rocket"@[27] != "minecraft:crafting_special_bannerduplicate"@[27]);
        assert("minecraft:crafting_special_firework_star_fade"@[27] != "minecraft:crafting_special_shulkerboxcoloring"@[27]);
        assert("minecraft:crafting_special_banneraddpattern"@[27] != "minecraft:crafting_special_shielddecoration"@[27]);
        assert("minecraft:smelting"@[10] != "minecraft:blasting"@[10]);
        assert("minecraft:smelting"@[12] != "minecraft:smithing"@[12]);
        assert("minecraft:blasting"@[10] != "minecraft:smithing"@[10]);
        let text = Self::name_of(v);
        assert forall|i: int| 0 <= i < text.len() implies '\0' <= #[trigger] text[i] <= '\u{7f}' by {
            match v {
                RecipeView::CraftingShapeless(_) => {
                    if i == 0 {
                        assert(text[0] == 'm');
                    }
                    if i == 1 {
                        assert(text[1] == 'i');
                    }
                    if i == 2 {
                        assert(text[2] == 'n');
                    }
                    if i == 3 {
                        assert(text[3] == 'e');
                    }
                    if i == 4 {
                        assert(text[4] == 'c');
                    }
                    if i == 5 {
                        assert(text[5] == 'r');
                    }
                    if i == 6 {
                        assert(text[6] == 'a');
                    }
                    if i == 7 {
                        assert(text[7] == 'f');
                    }
                    if i == 8 {
                        assert(text[8] == 't');
                    }
                    if i == 9 {
                        assert(text[9] == ':');
                    }
                    if i == 10 {
                        assert(text[10] == 'c');
                    }
                    if i == 11 {
                        assert(text[11] == 'r');
                    }
                    if i == 12 {
                        assert(text[12] == 'a');
                    }
                    if i == 13 {
                        assert(text[13] == 'f');
                    }
                    if i == 14 {
                        assert(text[14] == 't');
                    }
                    if i == 15 {
                        assert(text[15] == 'i');
                    }
                    if i == 16 {
                        assert(text[16] == 'n');
                    }
                    if i == 17 {
                        assert(text[17] == 'g');
                    }
                    if i == 18 {
                        assert(text[18] == '_');
                    }
                    if i == 19 {
                        assert(text[19] == 's');
                    }
                    if i == 20 {
                        assert(text[20] == 'h');
                    }
                    if i == 21 {
                        assert(text[21] == 'a');
                    }
                    if i == 22 {
                        assert(text[22] == 'p');
                    }
                    if i == 23 {
                        assert(text[23] == 'e');
                    }
                    if i == 24 {
                        assert(text[24] == 'l');
                    }
                    if i == 25 {
                        assert(text[25] == 'e');
                    }
                    if i == 26 {
                        assert(text[26] == 's');
                    }
                    if i == 27 {
                        assert(text[27] == 's');
                    }
                },
                RecipeView::CraftingShaped(_) => {
                    if i == 0 {
                        assert(text[0] == 'm');
                    }
                    if i == 1 {
                        assert(text[1] == 'i');
                    }
                    if i == 2 {
                        assert(text[2] == 'n');
                    }
                    if i == 3 {
                        assert(text[3] == 'e');
                    }
                    if i == 4 {
                        assert(text[4] == 'c');
                    }
                    if i == 5 {
                        assert(text[5] == 'r');
                    }
                    if i == 6 {
                        assert(text[6] == 'a');
                    }
                    if i == 7 {
                        assert(text[7] == 'f');
                    }
                    if i == 8 {
                        assert(text[8] == 't');
                    }
                    if i == 9 {
                        assert(text[9] == ':');
                    }
                    if i == 10 {
                        assert(text[10] == 'c');
                    }
                    if i == 11 {
                        assert(text[11] == 'r');
                    }
                    if i == 12 {
                        assert(text[12] == 'a');
                    }
                    if i == 13 {
                        assert(text[13] == 'f');
                    }
                    if i == 14 {
                        assert(text[14] == 't');
                    }
                    if i == 15 {
                        assert(text[15] == 'i');
                    }
                    if i == 16 {
                        assert(text[16] == 'n');
                    }
                    if i == 17 {
                        assert(text[17] == 'g');
                    }
                    if i == 18 {
                        assert(text[18] == '_');
                    }
                    if i == 19 {
                        assert(text[19] == 's');
                    }
                    if i == 20 {
                        assert(text[20] == 'h');
                    }
                    if i == 21 {
                        assert(text[21] == 'a');
                    }
                    if i == 22 {
                        assert(text[22] == 'p');
                    }
                    if i == 23 {
                        assert(text[23] == 'e');
                    }
                    if i == 24 {
                        assert(text[24] == 'd');
                    }
                },
                RecipeView::CraftingArmorDye => {
                    if i == 0 {
                        assert(text[0] == 'm');
                    }
                    if i == 1 {
                        assert(text[1] == 'i');
                    }
                    if i == 2 {
                        assert(text[2] == 'n');
                    }
                    if i == 3 {
                        assert(text[3] == 'e');
                    }
                    if i == 4 {
                        assert(text[4] == 'c');
                    }
                    if i == 5 {
                        assert(text[5] == 'r');
                    }
                    if i == 6 {
                        assert(text[6] == 'a');
                    }
                    if i == 7 {
                        assert(text[7] == 'f');
                    }
                    if i == 8 {
                        assert(text[8] == 't');
                    }
                    if i == 9 {
                        assert(text[9] == ':');
                    }
                    if i == 10 {
                        assert(text[10] == 'c');
                    }
                    if i == 11 {
                        assert(text[11] == 'r');
                    }
                    if i == 12 {
                        assert(text[12] == 'a');
                    }
                    if i == 13 {
                        assert(text[13] == 'f');
                    }
                    if i == 14 {
                        assert(text[14] == 't');
                    }
                    if i == 15 {
                        assert(text[15] == 'i');
                    }
                    if i == 16 {
                        assert(text[16] == 'n');
                    }
                    if i == 17 {
                        assert(text[17] == 'g');
                    }
                    if i == 18 {
                        assert(text[18] == '_');
                    }
                    if i == 19 {
                        assert(text[19] == 's');
                    }
                    if i == 20 {
                        assert(text[20] == 'p');
                    }
                    if i == 21 {
                        assert(text[21] == 'e');
                    }
                    if i == 22 {
                        assert(text[22] == 'c');
                    }
                    if i == 23 {
                        assert(text[23] == 'i');
                    }
                    if i == 24 {
                        assert(text[24] == 'a');
                    }
                    if i == 25 {
                        assert(text[25] == 'l');
                    }
                    if i == 26 {
                        assert(text[26] == '_');
                    }
                    if i == 27 {
                        assert(text[27] == 'a');
                    }
                    if i == 28 {
                        assert(text[28] == 'r');
                    }
                    if i == 29 {
                        assert(text[29] == 'm');
                    }
                    if i == 30 {
                        assert(text[30] == 'o');
                    }
                    if i == 31 {
                        assert(text[31] == 'r');
                    }
                    if i == 32 {
                        assert(text[32] == 'd');
                    }
                    if i == 33 {
                        assert(text[33] == 'y');
                    }
                    if i == 34 {
                        assert(text[34] == 'e');
                    }
                },
                RecipeView::CraftingBookCloning => {
                    if i == 0 {
                        assert(text[0] == 'm');
                    }
                    if i == 1 {
                        assert(text[1] == 'i');
                    }
                    if i == 2 {
                        assert(text[2] == 'n');
                    }
                    if i == 3 {
                        assert(text[3] == 'e');
                    }
                    if i == 4 {
                        assert(text[4] == 'c');
                    }
                    if i == 5 {
                        assert(text[5] == 'r');
                    }
                    if i == 6 {
                        assert(text[6] == 'a');
                    }
                    if i == 7 {
                        assert(text[7] == 'f');
                    }
                    if i == 8 {
                        assert(text[8] == 't');
                    }
                    if i == 9 {
                        assert(text[9] == ':');
                    }
                    if i == 10 {
                        assert(text[10] == 'c');
                    }
                    if i == 11 {
                        assert(text[11] == 'r');
                    }
                    if i == 12 {
                        assert(text[12] == 'a');
                    }
                    if i == 13 {
                        assert(text[13] == 'f');
                    }
                    if i == 14 {
                        assert(text[14] == 't');
                    }
                    if i == 15 {
                        assert(text[15] == 'i');
                    }
                    if i == 16 {
                        assert(text[16] == 'n');
                    }
                    if i == 17 {
                        assert(text[17] == 'g');
                    }
                    if i == 18 {
                        assert(text[18] == '_');
                    }
                    if i == 19 {
                        assert(text[19] == 's');
                    }
                    if i == 20 {
                        assert(text[20] == 'p');
                    }
                    if i == 21 {
                        assert(text[21] == 'e');
                    }
                    if i == 22 {
                        assert(text[22] == 'c');
                    }
                    if i == 23 {
                        assert(text[23] == 'i');
                    }
                    if i == 24 {
                        assert(text[24] == 'a');
                    }
                    if i == 25 {
                        assert(text[25] == 'l');
                    }
                    if i == 26 {
                        assert(text[26] == '_');
                    }
                    if i == 27 {
                        assert(text[27] == 'b');
                    }
                    if i == 28 {
                        assert(text[28] == 'o');
                    }
                    if i == 29 {
                        assert(text[29] == 'o');
                    }
                    if i == 30 {
                        assert(text[30] == 'k');
                    }
                    if i == 31 {
                        assert(text[31] == 'c');
                    }
                    if i == 32 {
                        assert(text[32] == 'l');
                    }
                    if i == 33 {
                        assert(text[33] == 'o');
                    }
                    if i == 34 {
                        assert(text[34] == 'n');
                    }
                    if i == 35 {
                        assert(text[35] == 'i');
                    }
                    if i == 36 {
                        assert(text[36] == 'n');
                    }
                    if i == 37 {
                        assert(text[37] == 'g');
                    }
                },
                RecipeView::CraftingMapCloning => {
                    if i == 0 {
                        assert(text[0] == 'm');
                    }
                    if i == 1 {
                        assert(text[1] == 'i');
                    }
                    if i == 2 {
                        assert(text[2] == 'n');
                    }
                    if i == 3 {
                        assert(text[3] == 'e');
                    }
                    if i == 4 {
                        assert(text[4] == 'c');
                    }
                    if i == 5 {
                        assert(text[5] == 'r');
                    }
                    if i == 6 {
                        assert(text[6] == 'a');
                    }
                    if i == 7 {
                        assert(text[7] == 'f');
                    }
                    if i == 8 {
                        assert(text[8] == 't');
                    }
                    if i == 9 {
                        assert(text[9] == ':');
                    }
                    if i == 10 {
                        assert(text[10] == 'c');
                    }
                    if i == 11 {
                        assert(text[11] == 'r');
                    }
                    if i == 12 {
                        assert(text[12] == 'a');
                    }
                    if i == 13 {
                        assert(text[13] == 'f');
                    }
                    if i == 14 {
                        assert(text[14] == 't');
                    }
                    if i == 15 {
                        assert(text[15] == 'i');
                    }
                    if i == 16 {
                        assert(text[16] == 'n');
                    }
                    if i == 17 {
                        assert(text[17] == 'g');
                    }
                    if i == 18 {
                        assert(text[18] == '_');
                    }
                    if i == 19 {
                        assert(text[19] == 's');
                    }
                    if i == 20 {
                        assert(text[20] == 'p');
                    }
                    if i == 21 {
                        assert(text[21] == 'e');
                    }
                    if i == 22 {
                        assert(text[22] == 'c');
                    }
                    if i == 23 {
                        assert(text[23] == 'i');
                    }
                    if i == 24 {
                        assert(text[24] == 'a');
                    }
                    if i == 25 {
                        assert(text[25] == 'l');
                    }
                    if i == 26 {
                        assert(text[26] == '_');
                    }
                    if i == 27 {
                        assert(text[27] == 'm');
                    }
                    if i == 28 {
                        assert(text[28] == 'a');
                    }
                    if i == 29 {
                        assert(text[29] == 'p');
                    }
                    if i == 30 {
                        assert(text[30] == 'c');
                    }
                    if i == 31 {
                        assert(text[31] == 'l');
                    }
                    if i == 32 {
                        assert(text[32] == 'o');
                    }
                    if i == 33 {
                        assert(text[33] == 'n');
                    }
                    if i == 34 {
                        assert(text[34] == 'i');
                    }
                    if i == 35 {
                        assert(text[35] == 'n');
                    }
                    if i == 36 {
                        assert(text[36] == 'g');
                    }
                },
                RecipeView::CraftingMapExtending => {
                    if i == 0 {
                        assert(text[0] == 'm');
                    }
                    if i == 1 {
                        assert(text[1] == 'i');
                    }
                    if i == 2 {
                        assert(text[2] == 'n');
                    }
                    if i == 3 {
                        assert(text[3] == 'e');
                    }
                    if i == 4 {
                        assert(text[4] == 'c');
                    }
                    if i == 5 {
                        assert(text[5] == 'r');
                    }
                    if i == 6 {
                        assert(text[6] == 'a');
                    }
                    if i == 7 {
                        assert(text[7] == 'f');
                    }
                    if i == 8 {
                        assert(text[8] == 't');
                    }
                    if i == 9 {
                        assert(text[9] == ':');
                    }
                    if i == 10 {
                        assert(text[10] == 'c');
                    }
                    if i == 11 {
                        assert(text[11] == 'r');
                    }
                    if i == 12 {
                        assert(text[12] == 'a');
                    }
                    if i == 13 {
                        assert(text[13] == 'f');
                    }
                    if i == 14 {
                        assert(text[14] == 't');
                    }
                    if i == 15 {
                        assert(text[15] == 'i');
                    }
                    if i == 16 {
                        assert(text[16] == 'n');
                    }
                    if i == 17 {
                        assert(text[17] == 'g');
                    }
                    if i == 18 {
                        assert(text[18] == '_');
                    }
                    if i == 19 {
                        assert(text[19] == 's');
                    }
                    if i == 20 {
                        assert(text[20] == 'p');
                    }
                    if i == 21 {
                        assert(text[21] == 'e');
                    }
                    if i == 22 {
                        assert(text[22] == 'c');
                    }
                    if i == 23 {
                        assert(text[23] == 'i');
                    }
                    if i == 24 {
                        assert(text[24] == 'a');
                    }
                    if i == 25 {
                        assert(text[25] == 'l');
                    }
                    if i == 26 {
                        assert(text[26] == '_');
                    }
                    if i == 27 {
                        assert(text[27] == 'm');
                    }
                    if i == 28 {
                        assert(text[28] == 'a');
                    }
                    if i == 29 {
                        assert(text[29] == 'p');
                    }
                    if i == 30 {
                        assert(text[30] == 'e');
                    }
                    if i == 31 {
                        assert(text[31] == 'x');
                    }
                    if i == 32 {
                        assert(text[32] == 't');
                    }
                    if i == 33 {
                        assert(text[33] == 'e');
                    }
                    if i == 34 {
                        assert(text[34] == 'n');
                    }
                    if i == 35 {
                        assert(text[35] == 'd');
                    }
                    if i == 36 {
                        assert(text[36] == 'i');
                    }
                    if i == 37 {
                        assert(text[37] == 'n');
                    }
                    if i == 38 {
                        assert(text[38] == 'g');
                    }
                },
                RecipeView::CraftingFireworkRocket => {
                    if i == 0 {
                        assert(text[0] == 'm');
                    }
                    if i == 1 {
                        assert(text[1] == 'i');
                    }
                    if i == 2 {
                        assert(text[2] == 'n');
                    }
                    if i == 3 {
                        assert(text[3] == 'e');
                    }
                    if i == 4 {
                        assert(text[4] == 'c');
                    }
                    if i == 5 {
                        assert(text[5] == 'r');
                    }
                    if i == 6 {
                        assert(text[6] == 'a');
                    }
                    if i == 7 {
                        assert(text[7] == 'f');
                    }
                    if i == 8 {
                        assert(text[8] == 't');
                    }
                    if i == 9 {
                        assert(text[9] == ':');
                    }
                    if i == 10 {
                        assert(text[10] == 'c');
                    }
                    if i == 11 {
                        assert(text[11] == 'r');
                    }
                    if i == 12 {
                        assert(text[12] == 'a');
                    }
                    if i == 13 {
                        assert(text[13] == 'f');
                    }
                    if i == 14 {
                        assert(text[14] == 't');
                    }
                    if i == 15 {
                        assert(text[15] == 'i');
                    }
                    if i == 16 {
                        assert(text[16] == 'n');
                    }
                    if i == 17 {
                        assert(text[17] == 'g');
                    }
                    if i == 18 {
                        assert(text[18] == '_');
                    }
                    if i == 19 {
                        assert(text[19] == 's');
                    }
                    if i == 20 {
                        assert(text[20] == 'p');
                    }
                    if i == 21 {
                        assert(text[21] == 'e');
                    }
                    if i == 22 {
                        assert(text[22] == 'c');
                    }
                    if i == 23 {
                        assert(text[23] == 'i');
                    }
                    if i == 24 {
                        assert(text[24] == 'a');
                    }
                    if i == 25 {
                        assert(text[25] == 'l');
                    }
                    if i == 26 {
                        assert(text[26] == '_');
                    }
                    if i == 27 {
                        assert(text[27] == 'f');
                    }
                    if i == 28 {
                        assert(text[28] == 'i');
                    }
                    if i == 29 {
                        assert(text[29] == 'r');
                    }
                    if i == 30 {
                        assert(text[30] == 'e');
                    }
                    if i == 31 {
                        assert(text[31] == 'w');
                    }
                    if i == 32 {
                        assert(text[32] == 'o');
                    }
                    if i == 33 {
                        assert(text[33] == 'r');
                    }
                    if i == 34 {
                        assert(text[34] == 'k');
                    }
                    if i == 35 {
                        assert(text[35] == '_');
                    }
                    if i == 36 {
                        assert(text[36] == 'r');
                    }
                    if i == 37 {
                        assert(text[37] == 'o');
                    }
                    if i == 38 {
                        assert(text[38] == 'c');
                    }
                    if i == 39 {
                        assert(text[39] == 'k');
                    }
                    if i == 40 {
                        assert(text[40] == 'e');
                    }
                    if i == 41 {
                        assert(text[41] == 't');
                    }
                },
                RecipeView::CraftingFireworkStar => {
                    if i == 0 {
                        assert(text[0] == 'm');
                    }
                    if i == 1 {
                        assert(text[1] == 'i');
                    }
                    if i == 2 {
                        assert(text[2] == 'n');
                    }
                    if i == 3 {
                        assert(text[3] == 'e');
                    }
                    if i == 4 {
                        assert(text[4] == 'c');
                    }
                    if i == 5 {
                        assert(text[5] == 'r');
                    }
                    if i == 6 {
                        assert(text[6] == 'a');
                    }
                    if i == 7 {
                        assert(text[7] == 'f');
                    }
                    if i == 8 {
                        assert(text[8] == 't');
                    }
                    if i == 9 {
                        assert(text[9] == ':');
                    }
                    if i == 10 {
                        assert(text[10] == 'c');
                    }
                    if i == 11 {
                        assert(text[11] == 'r');
                    }
                    if i == 12 {
                        assert(text[12] == 'a');
                    }
                    if i == 13 {
                        assert(text[13] == 'f');
                    }
                    if i == 14 {
                        assert(text[14] == 't');
                    }
                    if i == 15 {
                        assert(text[15] == 'i');
                    }
                    if i == 16 {
                        assert(text[16] == 'n');
                    }
                    if i == 17 {
                        assert(text[17] == 'g');
                    }
                    if i == 18 {
                        assert(text[18] == '_');
                    }
                    if i == 19 {
                        assert(text[19] == 's');
                    }
                    if i == 20 {
                        assert(text[20] == 'p');
                    }
                    if i == 21 {
                        assert(text[21] == 'e');
                    }
                    if i == 22 {
                        assert(text[22] == 'c');
                    }
                    if i == 23 {
                        assert(text[23] == 'i');
                    }
                    if i == 24 {
                        assert(text[24] == 'a');
                    }
                    if i == 25 {
                        assert(text[25] == 'l');
                    }
                    if i == 26 {
                        assert(text[26] == '_');
                    }
                    if i == 27 {
                        assert(text[27] == 'f');
                    }
                    if i == 28 {
                        assert(text[28] == 'i');
                    }
                    if i == 29 {
                        assert(text[29] == 'r');
                    }
                    if i == 30 {
                        assert(text[30] == 'e');
                    }
                    if i == 31 {
                        assert(text[31] == 'w');
                    }
                    if i == 32 {
                        assert(text[32] == 'o');
                    }
                    if i == 33 {
                        assert(text[33] == 'r');
                    }
                    if i == 34 {
                        assert(text[34] == 'k');
                    }
                    if i == 35 {
                        assert(text[35] == '_');
                    }
                    if i == 36 {
                        assert(text[36] == 's');
                    }
                    if i == 37 {
                        assert(text[37] == 't');
                    }
                    if i == 38 {
                        assert(text[38] == 'a');
                    }
                    if i == 39 {
                        assert(text[39] == 'r');
                    }
                },
                RecipeView::CraftingFireworkStarFade => {
                    if i == 0 {
                        assert(text[0] == 'm');
                    }
                    if i == 1 {
                        assert(text[1] == 'i');
                    }
                    if i == 2 {
                        assert(text[2] == 'n');
                    }
                    if i == 3 {
                        assert(text[3] == 'e');
                    }
                    if i == 4 {
                        assert(text[4] == 'c');
                    }
                    if i == 5 {
                        assert(text[5] == 'r');
                    }
                    if i == 6 {
                        assert(text[6] == 'a');
                    }
                    if i == 7 {
                        assert(text[7] == 'f');
                    }
                    if i == 8 {
                        assert(text[8] == 't');
                    }
                    if i == 9 {
                        assert(text[9] == ':');
                    }
                    if i == 10 {
                        assert(text[10] == 'c');
                    }
                    if i == 11 {
                        assert(text[11] == 'r');
                    }
                    if i == 12 {
                        assert(text[12] == 'a');
                    }
                    if i == 13 {
                        assert(text[13] == 'f');
                    }
                    if i == 14 {
                        assert(text[14] == 't');
                    }
                    if i == 15 {
                        assert(text[15] == 'i');
                    }
                    if i == 16 {
                        assert(text[16] == 'n');
                    }
                    if i == 17 {
                        assert(text[17] == 'g');
                    }
                    if i == 18 {
                        assert(text[18] == '_');
                    }
                    if i == 19 {
                        assert(text[19] == 's');
                    }
                    if i == 20 {
                        assert(text[20] == 'p');
                    }
                    if i == 21 {
                        assert(text[21] == 'e');
                    }
                    if i == 22 {
                        assert(text[22] == 'c');
                    }
                    if i == 23 {
                        assert(text[23] == 'i');
                    }
                    if i == 24 {
                        assert(text[24] == 'a');
                    }
                    if i == 25 {
                        assert(text[25] == 'l');
                    }
                    if i == 26 {
                        assert(text[26] == '_');
                    }
                    if i == 27 {
                        assert(text[27] == 'f');
                    }
                    if i == 28 {
                        assert(text[28] == 'i');
                    }
                    if i == 29 {
                        assert(text[29] == 'r');
                    }
                    if i == 30 {
                        assert(text[30] == 'e');
                    }
                    if i == 31 {
                        assert(text[31] == 'w');
                    }
                    if i == 32 {
                        assert(text[32] == 'o');
                    }
                    if i == 33 {
                        assert(text[33] == 'r');
                    }
                    if i == 34 {
                        assert(text[34] == 'k');
                    }
                    if i == 35 {
                        assert(text[35] == '_');
                    }
                    if i == 36 {
                        assert(text[36] == 's');
                    }
                    if i == 37 {
                        assert(text[37] == 't');
                    }
                    if i == 38 {
                        assert(text[38] == 'a');
                    }
                    if i == 39 {
                        assert(text[39] == 'r');
                    }
                    if i == 40 {
                        assert(text[40] == '_');
                    }
                    if i == 41 {
                        assert(text[41] == 'f');
                    }
                    if i == 42 {
                        assert(text[42] == 'a');
                    }
                    if i == 43 {
                        assert(text[43] == 'd');
                    }
                    if i == 44 {
                        assert(text[44] == 'e');
                    }
                },
                RecipeView::CraftingRepairItem => {
                    if i == 0 {
                        assert(text[0] == 'm');
                    }
                    if i == 1 {
                        assert(text[1] == 'i');
                    }
                    if i == 2 {
                        assert(text[2] == 'n');
                    }
                    if i == 3 {
                        assert(text[3] == 'e');
                    }
                    if i == 4 {
                        assert(text[4] == 'c');
                    }
                    if i == 5 {
                        assert(text[5] == 'r');
                    }
                    if i == 6 {
                        assert(text[6] == 'a');
                    }
                    if i == 7 {
                        assert(text[7] == 'f');
                    }
                    if i == 8 {
                        assert(text[8] == 't');
                    }
                    if i == 9 {
                        assert(text[9] == ':');
                    }
                    if i == 10 {
                        assert(text[10] == 'c');
                    }
                    if i == 11 {
                        assert(text[11] == 'r');
                    }
                    if i == 12 {
                        assert(text[12] == 'a');
                    }
                    if i == 13 {
                        assert(text[13] == 'f');
                    }
                    if i == 14 {
                        assert(text[14] == 't');
                    }
                    if i == 15 {
                        assert(text[15] == 'i');
                    }
                    if i == 16 {
                        assert(text[16] == 'n');
                    }
                    if i == 17 {
                        assert(text[17] == 'g');
                    }
                    if i == 18 {
                        assert(text[18] == '_');
                    }
                    if i == 19 {
                        assert(text[19] == 's');
                    }
                    if i == 20 {
                        assert(text[20] == 'p');
                    }
                    if i == 21 {
                        assert(text[21] == 'e');
                    }
                    if i == 22 {
                        assert(text[22] == 'c');
                    }
                    if i == 23 {
                        assert(text[23] == 'i');
                    }
                    if i == 24 {
                        assert(text[24] == 'a');
                    }
                    if i == 25 {
                        assert(text[25] == 'l');
                    }
                    if i == 26 {
                        assert(text[26] == '_');
                    }
                    if i == 27 {
                        assert(text[27] == 'r');
                    }
                    if i == 28 {
                        assert(text[28] == 'e');
                    }
                    if i == 29 {
                        assert(text[29] == 'p');
                    }
                    if i == 30 {
                        assert(text[30] == 'a');
                    }
                    if i == 31 {
                        assert(text[31] == 'i');
                    }
                    if i == 32 {
                        assert(text[32] == 'r');
                    }
                    if i == 33 {
                        assert(text[33] == 'i');
                    }
                    if i == 34 {
                        assert(text[34] == 't');
                    }
                    if i == 35 {
                        assert(text[35] == 'e');
                    }
                    if i == 36 {
                        assert(text[36] == 'm');
                    }
                },
                RecipeView::CraftingTippedArrow => {
                    if i == 0 {
                        assert(text[0] == 'm');
                    }
                    if i == 1 {
                        assert(text[1] == 'i');
                    }
                    if i == 2 {
                        assert(text[2] == 'n');
                    }
                    if i == 3 {
                        assert(text[3] == 'e');
                    }
                    if i == 4 {
                        assert(text[4] == 'c');
                    }
                    if i == 5 {
                        assert(text[5] == 'r');
                    }
                    if i == 6 {
                        assert(text[6] == 'a');
                    }
                    if i == 7 {
                        assert(text[7] == 'f');
                    }
                    if i == 8 {
                        assert(text[8] == 't');
                    }
                    if i == 9 {
                        assert(text[9] == ':');
                    }
                    if i == 10 {
                        assert(text[10] == 'c');
                    }
                    if i == 11 {
                        assert(text[11] == 'r');
                    }
                    if i == 12 {
                        assert(text[12] == 'a');
                    }
                    if i == 13 {
                        assert(text[13] == 'f');
                    }
                    if i == 14 {
                        assert(text[14] == 't');
                    }
                    if i == 15 {
                        assert(text[15] == 'i');
                    }
                    if i == 16 {
                        assert(text[16] == 'n');
                    }
                    if i == 17 {
                        assert(text[17] == 'g');
                    }
                    if i == 18 {
                        assert(text[18] == '_');
                    }
                    if i == 19 {
                        assert(text[19] == 's');
                    }
                    if i == 20 {
                        assert(text[20] == 'p');
                    }
                    if i == 21 {
                        assert(text[21] == 'e');
                    }
                    if i == 22 {
                        assert(text[22] == 'c');
                    }
                    if i == 23 {
                        assert(text[23] == 'i');
                    }
                    if i == 24 {
                        assert(text[24] == 'a');
                    }
                    if i == 25 {
                        assert(text[25] == 'l');
                    }
                    if i == 26 {
                        assert(text[26] == '_');
                    }
                    if i == 27 {
                        assert(text[27] == 't');
                    }
                    if i == 28 {
                        assert(text[28] == 'i');
                    }
                    if i == 29 {
                        assert(text[29] == 'p');
                    }
                    if i == 30 {
                        assert(text[30] == 'p');
                    }
                    if i == 31 {
                        assert(text[31] == 'e');
                    }
                    if i == 32 {
                        assert(text[32] == 'd');
                    }
                    if i == 33 {
                        assert(text[33] == 'a');
                    }
                    if i == 34 {
                        assert(text[34] == 'r');
                    }
                    if i == 35 {
                        assert(text[35] == 'r');
                    }
                    if i == 36 {
                        assert(text[36] == 'o');
                    }
                    if i == 37 {
                        assert(text[37] == 'w');
                    }
                },
                RecipeView::CraftingBannerDuplicate => {
                    if i == 0 {
                        assert(text[0] == 'm');
                    }
                    if i == 1 {
                        assert(text[1] == 'i');
                    }
                    if i == 2 {
                        assert(text[2] == 'n');
                    }
                    if i == 3 {
                        assert(text[3] == 'e');
                    }
                    if i == 4 {
                        assert(text[4] == 'c');
                    }
                    if i == 5 {
                        assert(text[5] == 'r');
                    }
                    if i == 6 {
                        assert(text[6] == 'a');
                    }
                    if i == 7 {
                        assert(text[7] == 'f');
                    }
                    if i == 8 {
                        assert(text[8] == 't');
                    }
                    if i == 9 {
                        assert(text[9] == ':');
                    }
                    if i == 10 {
                        assert(text[10] == 'c');
                    }
                    if i == 11 {
                        assert(text[11] == 'r');
                    }
                    if i == 12 {
                        assert(text[12] == 'a');
                    }
                    if i == 13 {
                        assert(text[13] == 'f');
                    }
                    if i == 14 {
                        assert(text[14] == 't');
                    }
                    if i == 15 {
                        assert(text[15] == 'i');
                    }
                    if i == 16 {
                        assert(text[16] == 'n');
                    }
                    if i == 17 {
                        assert(text[17] == 'g');
                    }
                    if i == 18 {
                        assert(text[18] == '_');
                    }
                    if i == 19 {
                        assert(text[19] == 's');
                    }
                    if i == 20 {
                        assert(text[20] == 'p');
                    }
                    if i == 21 {
                        assert(text[21] == 'e');
                    }
                    if i == 22 {
                        assert(text[22] == 'c');
                    }
                    if i == 23 {
                        assert(text[23] == 'i');
                    }
                    if i == 24 {
                        assert(text[24] == 'a');
                    }
                    if i == 25 {
                        assert(text[25] == 'l');
                    }
                    if i == 26 {
                        assert(text[26] == '_');
                    }
                    if i == 27 {
                        assert(text[27] == 'b');
                    }
                    if i == 28 {
                        assert(text[28] == 'a');
                    }
                    if i == 29 {
                        assert(text[29] == 'n');
                    }
                    if i == 30 {
                        assert(text[30] == 'n');
                    }
                    if i == 31 {
                        assert(text[31] == 'e');
                    }
                    if i == 32 {
                        assert(text[32] == 'r');
                    }
                    if i == 33 {
                        assert(text[33] == 'd');
                    }
                    if i == 34 {
                        assert(text[34] == 'u');
                    }
                    if i == 35 {
                        assert(text[35] == 'p');
                    }
                    if i == 36 {
                        assert(text[36] == 'l');
                    }
                    if i == 37 {
                        assert(text[37] == 'i');
                    }
                    if i == 38 {
                        assert(text[38] == 'c');
                    }
                    if i == 39 {
                        assert(text[39] == 'a');
                    }
                    if i == 40 {
                        assert(text[40] == 't');
                    }
                    if i == 41 {
                        assert(text[41] == 'e');
                    }
                },
                RecipeView::CraftingBannerAddPattern => {
                    if i == 0 {
                        assert(text[0] == 'm');
                    }
                    if i == 1 {
                        assert(text[1] == 'i');
                    }
                    if i == 2 {
                        assert(text[2] == 'n');
                    }
                    if i == 3 {
                        assert(text[3] == 'e');
                    }
                    if i == 4 {
                        assert(text[4] == 'c');
                    }
                    if i == 5 {
                        assert(text[5] == 'r');
                    }
                    if i == 6 {
                        assert(text[6] == 'a');
                    }
                    if i == 7 {
                        assert(text[7] == 'f');
                    }
                    if i == 8 {
                        assert(text[8] == 't');
                    }
                    if i == 9 {
                        assert(text[9] == ':');
                    }
                    if i == 10 {
                        assert(text[10] == 'c');
                    }
                    if i == 11 {
                        assert(text[11] == 'r');
                    }
                    if i == 12 {
                        assert(text[12] == 'a');
                    }
                    if i == 13 {
                        assert(text[13] == 'f');
                    }
                    if i == 14 {
                        assert(text[14] == 't');
                    }
                    if i == 15 {
                        assert(text[15] == 'i');
                    }
                    if i == 16 {
                        assert(text[16] == 'n');
                    }
                    if i == 17 {
                        assert(text[17] == 'g');
                    }
                    if i == 18 {
                        assert(text[18] == '_');
                    }
                    if i == 19 {
                        assert(text[19] == 's');
                    }
                    if i == 20 {
                        assert(text[20] == 'p');
                    }
                    if i == 21 {
                        assert(text[21] == 'e');
                    }
                    if i == 22 {
                        assert(text[22] == 'c');
                    }
                    if i == 23 {
                        assert(text[23] == 'i');
                    }
                    if i == 24 {
                        assert(text[24] == 'a');
                    }
                    if i == 25 {
                        assert(text[25] == 'l');
                    }
                    if i == 26 {
                        assert(text[26] == '_');
                    }
                    if i == 27 {
                        assert(text[27] == 'b');
                    }
                    if i == 28 {
                        assert(text[28] == 'a');
                    }
                    if i == 29 {
                        assert(text[29] == 'n');
                    }
                    if i == 30 {
                        assert(text[30] == 'n');
                    }
                    if i == 31 {
                        assert(text[31] == 'e');
                    }
                    if i == 32 {
                        assert(text[32] == 'r');
                    }
                    if i == 33 {
                        assert(text[33] == 'a');
                    }
                    if i == 34 {
                        assert(text[34] == 'd');
                    }
                    if i == 35 {
                        assert(text[35] == 'd');
                    }
                    if i == 36 {
                        assert(text[36] == 'p');
                    }
                    if i == 37 {
                        assert(text[37] == 'a');
                    }
                    if i == 38 {
                        assert(text[38] == 't');
                    }
                    if i == 39 {
                        assert(text[39] == 't');
                    }
                    if i == 40 {
                        assert(text[40] == 'e');
                    }
                    if i == 41 {
                        assert(text[41] == 'r');
                    }
                    if i == 42 {
                        assert(text[42] == 'n');
                    }
                },
                RecipeView::CraftingShieldDecoration => {
                    if i == 0 {
                        assert(text[0] == 'm');
                    }
                    if i == 1 {
                        assert(text[1] == 'i');
                    }
                    if i == 2 {
                        assert(text[2] == 'n');
                    }
                    if i == 3 {
                        assert(text[3] == 'e');
                    }
                    if i == 4 {
                        assert(text[4] == 'c');
                    }
                    if i == 5 {
                        assert(text[5] == 'r');
                    }
                    if i == 6 {
                        assert(text[6] == 'a');
                    }
                    if i == 7 {
                        assert(text[7] == 'f');
                    }
                    if i == 8 {
                        assert(text[8] == 't');
                    }
                    if i == 9 {
                        assert(text[9] == ':');
                    }
                    if i == 10 {
                        assert(text[10] == 'c');
                    }
                    if i == 11 {
                        assert(text[11] == 'r');
                    }
                    if i == 12 {
                        assert(text[12] == 'a');
                    }
                    if i == 13 {
                        assert(text[13] == 'f');
                    }
                    if i == 14 {
                        assert(text[14] == 't');
                    }
                    if i == 15 {
                        assert(text[15] == 'i');
                    }
                    if i == 16 {
                        assert(text[16] == 'n');
                    }
                    if i == 17 {
                        assert(text[17] == 'g');
                    }
                    if i == 18 {
                        assert(text[18] == '_');
                    }
                    if i == 19 {
                        assert(text[19] == 's');
                    }
                    if i == 20 {
                        assert(text[20] == 'p');
                    }
                    if i == 21 {
                        assert(text[21] == 'e');
                    }
                    if i == 22 {
                        assert(text[22] == 'c');
                    }
                    if i == 23 {
                        assert(text[23] == 'i');
                    }
                    if i == 24 {
                        assert(text[24] == 'a');
                    }
                    if i == 25 {
                        assert(text[25] == 'l');
                    }
                    if i == 26 {
                        assert(text[26] == '_');
                    }
                    if i == 27 {
                        assert(text[27] == 's');
                    }
                    if i == 28 {
                        assert(text[28] == 'h');
                    }
                    if i == 29 {
                        assert(text[29] == 'i');
                    }
                    if i == 30 {
                        assert(text[30] == 'e');
                    }
                    if i == 31 {
                        assert(text[31] == 'l');
                    }
                    if i == 32 {
                        assert(text[32] == 'd');
                    }
                    if i == 33 {
                        assert(text[33] == 'd');
                    }
                    if i == 34 {
                        assert(text[34] == 'e');
                    }
                    if i == 35 {
                        assert(text[35] == 'c');
                    }
                    if i == 36 {
                        assert(text[36] == 'o');
                    }
                    if i == 37 {
                        assert(text[37] == 'r');
                    }
                    if i == 38 {
                        assert(text[38] == 'a');
                    }
                    if i == 39 {
                        assert(text[39] == 't');
                    }
                    if i == 40 {
                        assert(text[40] == 'i');
                    }
                    if i == 41 {
                        assert(text[41] == 'o');
                    }
                    if i == 42 {
                        assert(text[42] == 'n');
                    }
                },
                RecipeView::CraftingShulkerBoxColoring => {
                    if i == 0 {
                        assert(text[0] == 'm');
                    }
                    if i == 1 {
                        assert(text[1] == 'i');
                    }
                    if i == 2 {
                        assert(text[2] == 'n');
                    }
                    if i == 3 {
                        assert(text[3] == 'e');
                    }
                    if i == 4 {
                        assert(text[4] == 'c');
                    }
                    if i == 5 {
                        assert(text[5] == 'r');
                    }
                    if i == 6 {
                        assert(text[6] == 'a');
                    }
                    if i == 7 {
                        assert(text[7] == 'f');
                    }
                    if i == 8 {
                        assert(text[8] == 't');
                    }
                    if i == 9 {
                        assert(text[9] == ':');
                    }
                    if i == 10 {
                        assert(text[10] == 'c');
                    }
                    if i == 11 {
                        assert(text[11] == 'r');
                    }
                    if i == 12 {
                        assert(text[12] == 'a');
                    }
                    if i == 13 {
                        assert(text[13] == 'f');
                    }
                    if i == 14 {
                        assert(text[14] == 't');
                    }
                    if i == 15 {
                        assert(text[15] == 'i');
                    }
                    if i == 16 {
                        assert(text[16] == 'n');
                    }
                    if i == 17 {
                        assert(text[17] == 'g');
                    }
                    if i == 18 {
                        assert(text[18] == '_');
                    }
                    if i == 19 {
                        assert(text[19] == 's');
                    }
                    if i == 20 {
                        assert(text[20] == 'p');
                    }
                    if i == 21 {
                        assert(text[21] == 'e');
                    }
                    if i == 22 {
                        assert(text[22] == 'c');
                    }
                    if i == 23 {
                        assert(text[23] == 'i');
                    }
                    if i == 24 {
                        assert(text[24] == 'a');
                    }
                    if i == 25 {
                        assert(text[25] == 'l');
                    }
                    if i == 26 {
                        assert(text[26] == '_');
                    }
                    if i == 27 {
                        assert(text[27] == 's');
                    }
                    if i == 28 {
                        assert(text[28] == 'h');
                    }
                    if i == 29 {
                        assert(text[29] == 'u');
                    }
                    if i == 30 {
                        assert(text[30] == 'l');
                    }
                    if i == 31 {
                        assert(text[31] == 'k');
                    }
                    if i == 32 {
                        assert(text[32] == 'e');
                    }
                    if i == 33 {
                        assert(text[33] == 'r');
                    }
                    if i == 34 {
                        assert(text[34] == 'b');
                    }
                    if i == 35 {
                        assert(text[35] == 'o');
                    }
                    if i == 36 {
                        assert(text[36] == 'x');
                    }
                    if i == 37 {
                        assert(text[37] == 'c');
                    }
                    if i == 38 {
                        assert(text[38] == 'o');
                    }
                    if i == 39 {
                        assert(text[39] == 'l');
                    }
                    if i == 40 {
                        assert(text[40] == 'o');
                    }
                    if i == 41 {
                        assert(text[41] == 'r');
                    }
                    if i == 42 {
                        assert(text[42] == 'i');
                    }
                    if i == 43 {
                        assert(text[43] == 'n');
                    }
                    if i == 44 {
                        assert(text[44] == 'g');
                    }
                },
                RecipeView::CraftingSuspiciousStew => {
                    if i == 0 {
                        assert(text[0] == 'm');
                    }
                    if i == 1 {
                        assert(text[1] == 'i');
                    }
                    if i == 2 {
                        assert(text[2] == 'n');
                    }
                    if i == 3 {
                        assert(text[3] == 'e');
                    }
                    if i == 4 {
                        assert(text[4] == 'c');
                    }
                    if i == 5 {
                        assert(text[5] == 'r');
                    }
                    if i == 6 {
                        assert(text[6] == 'a');
                    }
                    if i == 7 {
                        assert(text[7] == 'f');
                    }
                    if i == 8 {
                        assert(text[8] == 't');
                    }
                    if i == 9 {
                        assert(text[9] == ':');
                    }
                    if i == 10 {
                        assert(text[10] == 'c');
                    }
                    if i == 11 {
                        assert(text[11] == 'r');
                    }
                    if i == 12 {
                        assert(text[12] == 'a');
                    }
                    if i == 13 {
                        assert(text[13] == 'f');
                    }
                    if i == 14 {
                        assert(text[14] == 't');
                    }
                    if i == 15 {
                        assert(text[15] == 'i');
                    }
                    if i == 16 {
                        assert(text[16] == 'n');
                    }
                    if i == 17 {
                        assert(text[17] == 'g');
                    }
                    if i == 18 {
                        assert(text[18] == '_');
                    }
                    if i == 19 {
                        assert(text[19] == 's');
                    }
                    if i == 20 {
                        assert(text[20] == 'p');
                    }
                    if i == 21 {
                        assert(text[21] == 'e');
                    }
                    if i == 22 {
                        assert(text[22] == 'c');
                    }
                    if i == 23 {
                        assert(text[23] == 'i');
                    }
                    if i == 24 {
                        assert(text[24] == 'a');
                    }
                    if i == 25 {
                        assert(text[25] == 'l');
                    }
                    if i == 26 {
                        assert(text[26] == '_');
                    }
                    if i == 27 {
                        assert(text[27] == 's');
                    }
                    if i == 28 {
                        assert(text[28] == 'u');
                    }
                    if i == 29 {
                        assert(text[29] == 's');
                    }
                    if i == 30 {
                        assert(text[30] == 'p');
                    }
                    if i == 31 {
                        assert(text[31] == 'i');
                    }
                    if i == 32 {
                        assert(text[32] == 'c');
                    }
                    if i == 33 {
                        assert(text[33] == 'i');
                    }
                    if i == 34 {
                        assert(text[34] == 'o');
                    }
                    if i == 35 {
                        assert(text[35] == 'u');
                    }
                    if i == 36 {
                        assert(text[36] == 's');
                    }
                    if i == 37 {
                        assert(text[37] == 's');
                    }
                    if i == 38 {
                        assert(text[38] == 't');
                    }
                    if i == 39 {
                        assert(text[39] == 'e');
                    }
                    if i == 40 {
                        assert(text[40] == 'w');
                    }
                },
                RecipeView::Smelting(_) => {
                    if i == 0 {
                        assert(text[0] == 'm');
                    }
                    if i == 1 {
                        assert(text[1] == 'i');
                    }
                    if i == 2 {
                        assert(text[2] == 'n');
                    }
                    if i == 3 {
                        assert(text[3] == 'e');
                    }
                    if i == 4 {
                        assert(text[4] == 'c');
                    }
                    if i == 5 {
                        assert(text[5] == 'r');
                    }
                    if i == 6 {
                        assert(text[6] == 'a');
                    }
                    if i == 7 {
                        assert(text[7] == 'f');
                    }
                    if i == 8 {
                        assert(text[8] == 't');
                    }
                    if i == 9 {
                        assert(text[9] == ':');
                    }
                    if i == 10 {
                        assert(text[10] == 's');
                    }
                    if i == 11 {
                        assert(text[11] == 'm');
                    }
                    if i == 12 {
                        assert(text[12] == 'e');
                    }
                    if i == 13 {
                        assert(text[13] == 'l');
                    }
                    if i == 14 {
                        assert(text[14] == 't');
                    }
                    if i == 15 {
                        assert(text[15] == 'i');
                    }
                    if i == 16 {
                        assert(text[16] == 'n');
                    }
                    if i == 17 {
                        assert(text[17] == 'g');
                    }
                },
                RecipeView::Blasting(_) => {
                    if i == 0 {
                        assert(text[0] == 'm');
                    }
                    if i == 1 {
                        assert(text[1] == 'i');
                    }
                    if i == 2 {
                        assert(text[2] == 'n');
                    }
                    if i == 3 {
                        assert(text[3] == 'e');
                    }
                    if i == 4 {
                        assert(text[4] == 'c');
                    }
                    if i == 5 {
                        assert(text[5] == 'r');
                    }
                    if i == 6 {
                        assert(text[6] == 'a');
                    }
                    if i == 7 {
                        assert(text[7] == 'f');
                    }
                    if i == 8 {
                        assert(text[8] == 't');
                    }
                    if i == 9 {
                        assert(text[9] == ':');
                    }
                    if i == 10 {
                        assert(text[10] == 'b');
                    }
                    if i == 11 {
                        assert(text[11] == 'l');
                    }
                    if i == 12 {
                        assert(text[12] == 'a');
                    }
                    if i == 13 {
                        assert(text[13] == 's');
                    }
                    if i == 14 {
                        assert(text[14] == 't');
                    }
                    if i == 15 {
                        assert(text[15] == 'i');
                    }
                    if i == 16 {
                        assert(text[16] == 'n');
                    }
                    if i == 17 {
                        assert(text[17] == 'g');
                    }
                },
                RecipeView::Smoking(_) => {
                    if i == 0 {
                        assert(text[0] == 'm');
                    }
                    if i == 1 {
                        assert(text[1] == 'i');
                    }
                    if i == 2 {
                        assert(text[2] == 'n');
                    }
                    if i == 3 {
                        assert(text[3] == 'e');
                    }
                    if i == 4 {
                        assert(text[4] == 'c');
                    }
                    if i == 5 {
                        assert(text[5] == 'r');
                    }
                    if i == 6 {
                        assert(text[6] == 'a');
                    }
                    if i == 7 {
                        assert(text[7] == 'f');
                    }
                    if i == 8 {
                        assert(text[8] == 't');
                    }
                    if i == 9 {
                        assert(text[9] == ':');
                    }
                    if i == 10 {
                        assert(text[10] == 's');
                    }
                    if i == 11 {
                        assert(text[11] == 'm');
                    }
                    if i == 12 {
                        assert(text[12] == 'o');
                    }
                    if i == 13 {
                        assert(text[13] == 'k');
                    }
                    if i == 14 {
                        assert(text[14] == 'i');
                    }
                    if i == 15 {
                        assert(text[15] == 'n');
                    }
                    if i == 16 {
                        assert(text[16] == 'g');
                    }
                },
                RecipeView::CampfireCooking(_) => {
                    if i == 0 {
                        assert(text[0] == 'm');
                    }
                    if i == 1 {
                        assert(text[1] == 'i');
                    }
                    if i == 2 {
                        assert(text[2] == 'n');
                    }
                    if i == 3 {
                        assert(text[3] == 'e');
                    }
                    if i == 4 {
                        assert(text[4] == 'c');
                    }
                    if i == 5 {
                        assert(text[5] == 'r');
                    }
                    if i == 6 {
                        assert(text[6] == 'a');
                    }
                    if i == 7 {
                        assert(text[7] == 'f');
                    }
                    if i == 8 {
                        assert(text[8] == 't');
                    }
                    if i == 9 {
                        assert(text[9] == ':');
                    }
                    if i == 10 {
                        assert(text[10] == 'c');
                    }
                    if i == 11 {
                        assert(text[11] == 'a');
                    }
                    if i == 12 {
                        assert(text[12] == 'm');
                    }
                    if i == 13 {
                        assert(text[13] == 'p');
                    }
                    if i == 14 {
                        assert(text[14] == 'f');
                    }
                    if i == 15 {
                        assert(text[15] == 'i');
                    }
                    if i == 16 {
                        assert(text[16] == 'r');
                    }
                    if i == 17 {
                        assert(text[17] == 'e');
                    }
                    if i == 18 {
                        assert(text[18] == '_');
                    }
                    if i == 19 {
                        assert(text[19] == 'c');
                    }
                    if i == 20 {
                        assert(text[20] == 'o');
                    }
                    if i == 21 {
                        assert(text[21] == 'o');
                    }
                    if i == 22 {
                        assert(text[22] == 'k');
                    }
                    if i == 23 {
                        assert(text[23] == 'i');
                    }
                    if i == 24 {
                        assert(text[24] == 'n');
                    }
                    if i == 25 {
                        assert(text[25] == 'g');
                    }
                },
                RecipeView::StoneCutting(_) => {
                    if i == 0 {
                        assert(text[0] == 'm');
                    }
                    if i == 1 {
                        assert(text[1] == 'i');
                    }
                    if i == 2 {
                        assert(text[2] == 'n');
                    }
                    if i == 3 {
                        assert(text[3] == 'e');
                    }
                    if i == 4 {
                        assert(text[4] == 'c');
                    }
                    if i == 5 {
                        assert(text[5] == 'r');
                    }
                    if i == 6 {
                        assert(text[6] == 'a');
                    }
                    if i == 7 {
                        assert(text[7] == 'f');
                    }
                    if i == 8 {
                        assert(text[8] == 't');
                    }
                    if i == 9 {
                        assert(text[9] == ':');
                    }
                    if i == 10 {
                        assert(text[10] == 's');
                    }
                    if i == 11 {
                        assert(text[11] == 't');
                    }
                    if i == 12 {
                        assert(text[12] == 'o');
                    }
                    if i == 13 {
                        assert(text[13] == 'n');
                    }
                    if i == 14 {
                        assert(text[14] == 'e');
                    }
                    if i == 15 {
                        assert(text[15] == 'c');
                    }
                    if i == 16 {
                        assert(text[16] == 'u');
                    }
                    if i == 17 {
                        assert(text[17] == 't');
                    }
                    if i == 18 {
                        assert(text[18] == 't');
                    }
                    if i == 19 {
                        assert(text[19] == 'i');
                    }
                    if i == 20 {
                        assert(text[20] == 'n');
                    }
                    if i == 21 {
                        assert(text[21] == 'g');
                    }
                },
                RecipeView::Smithing(_) => {
                    if i == 0 {
                        assert(text[0] == 'm');
                    }
                    if i == 1 {
                        assert(text[1] == 'i');
                    }
                    if i == 2 {
                        assert(text[2] == 'n');
                    }
                    if i == 3 {
                        assert(text[3] == 'e');
                    }
                    if i == 4 {
                        assert(text[4] == 'c');
                    }
                    if i == 5 {
                        assert(text[5] == 'r');
                    }
                    if i == 6 {
                        assert(text[6] == 'a');
                    }
                    if i == 7 {
                        assert(text[7] == 'f');
                    }
                    if i == 8 {
                        assert(text[8] == 't');
                    }
                    if i == 9 {
                        assert(text[9] == ':');
                    }
                    if i == 10 {
                        assert(text[10] == 's');
                    }
                    if i == 11 {
                        assert(text[11] == 'm');
                    }
                    if i == 12 {
                        assert(text[12] == 'i');
                    }
                    if i == 13 {
                        assert(text[13] == 't');
                    }
                    if i == 14 {
                        assert(text[14] == 'h');
                    }
                    if i == 15 {
                        assert(text[15] == 'i');
                    }
                    if i == 16 {
                        assert(text[16] == 'n');
                    }
                    if i == 17 {
                        assert(text[17] == 'g');
                    }
                },
            }
        }
    }

    /// What reading the body of a variant of the kind of `v` gives.
    pub open spec fn decode_as(v: RecipeView, data: Seq<u8>) -> Decoded<RecipeView> {
        match v {
            RecipeView::CraftingShapeless(_) => match <RecipeCraftingShapelessSpec>::decode(data) {
                Ok((body, n)) => Ok((RecipeView::CraftingShapeless(body), n)),
                Err(e) => Err(e),
            },
            RecipeView::CraftingShaped(_) => match <RecipeCraftingShapedSpec>::decode(data) {
                Ok((body, n)) => Ok((RecipeView::CraftingShaped(body), n)),
                Err(e) => Err(e),
            },
            RecipeView::CraftingArmorDye => Ok((RecipeView::CraftingArmorDye, 0)),
            RecipeView::CraftingBookCloning => Ok((RecipeView::CraftingBookCloning, 0)),
            RecipeView::CraftingMapCloning => Ok((RecipeView::CraftingMapCloning, 0)),
            RecipeView::CraftingMapExtending => Ok((RecipeView::CraftingMapExtending, 0)),
            RecipeView::CraftingFireworkRocket => Ok((RecipeView::CraftingFireworkRocket, 0)),
            RecipeView::CraftingFireworkStar => Ok((RecipeView::CraftingFireworkStar, 0)),
            RecipeView::CraftingFireworkStarFade => Ok((RecipeView::CraftingFireworkStarFade, 0)),
            RecipeView::CraftingRepairItem => Ok((RecipeView::CraftingRepairItem, 0)),
            RecipeView::CraftingTippedArrow => Ok((RecipeView::CraftingTippedArrow, 0)),
            RecipeView::CraftingBannerDuplicate => Ok((RecipeView::CraftingBannerDuplicate, 0)),
            RecipeView::CraftingBannerAddPattern => Ok((RecipeView::CraftingBannerAddPattern, 0)),
            RecipeView::CraftingShieldDecoration => Ok((RecipeView::CraftingShieldDecoration, 0)),
            RecipeView::CraftingShulkerBoxColoring => Ok((RecipeView::CraftingShulkerBoxColoring, 0)),
            RecipeView::CraftingSuspiciousStew => Ok((RecipeView::CraftingSuspiciousStew, 0)),
            RecipeView::Smelting(_) => match <RecipeSmeltingSpec>::decode(data) {
                Ok((body, n)) => Ok((RecipeView::Smelting(body), n)),
                Err(e) => Err(e),
            },
            RecipeView::Blasting(_) => match <RecipeSmeltingSpec>::decode(data) {
                Ok((body, n)) => Ok((RecipeView::Blasting(body), n)),
                Err(e) => Err(e),
            },
            RecipeView::Smoking(_) => match <RecipeSmeltingSpec>::decode(data) {
                Ok((body, n)) => Ok((RecipeView::Smoking(body), n)),
                Err(e) => Err(e),
            },
            RecipeView::CampfireCooking(_) => match <RecipeSmeltingSpec>::decode(data) {
                Ok((body, n)) => Ok((RecipeView::CampfireCooking(body), n)),
                Err(e) => Err(e),
            },
            RecipeView::StoneCutting(_) => match <RecipeStonecuttingSpec>::decode(data) {
                Ok((body, n)) => Ok((RecipeView::StoneCutting(body), n)),
                Err(e) => Err(e),
            },
            RecipeView::Smithing(_) => match <RecipeSmithingSpec>::decode(data) {
                Ok((body, n)) => Ok((RecipeView::Smithing(body), n)),
                Err(e) => Err(e),
            },
        }
    }

    /// What follows the text, written out and followed by anything, reads
    /// back under that text.
    pub proof fn lemma_body_round_trip(v: RecipeView, rest: Seq<u8>)
        requires
            <Self as ProtocolType>::faithful(v),
            <Self as ProtocolType>::delimited() || rest.len() == 0,
        ensures
            Self::body_writable(v),
            Self::decode_with_id(Self::name_of(v), Self::body_of(v) + rest) == Ok::<_, DecodeFailure>(
                (v, Self::body_of(v).len()),
            ),
    {
        Self::lemma_names(v);
        assert(Self::decode_with_id(Self::name_of(v), Self::body_of(v) + rest) == Self::decode_as(
            v,
            Self::body_of(v) + rest,
        ));
        match v {
            RecipeView::CraftingShapeless(body) => {
                <RecipeCraftingShapelessSpec>::lemma_round_trip(body, rest);
            },
            RecipeView::CraftingShaped(body) => {
                <RecipeCraftingShapedSpec>::lemma_round_trip(body, rest);
            },
            RecipeView::CraftingArmorDye => {
                assert(Seq::<u8>::empty() + rest =~= rest);
            },
            RecipeView::CraftingBookCloning => {
                assert(Seq::<u8>::empty() + rest =~= rest);
            },
            RecipeView::CraftingMapCloning => {
                assert(Seq::<u8>::empty() + rest =~= rest);
            },
            RecipeView::CraftingMapExtending => {
                assert(Seq::<u8>::empty() + rest =~= rest);
            },
            RecipeView::CraftingFireworkRocket => {
                assert(Seq::<u8>::empty() + rest =~= rest);
            },
            RecipeView::CraftingFireworkStar => {
                assert(Seq::<u8>::empty() + rest =~= rest);
            },
            RecipeView::CraftingFireworkStarFade => {
                assert(Seq::<u8>::empty() + rest =~= rest);
            },
            RecipeView::CraftingRepairItem => {
                assert(Seq::<u8>::empty() + rest =~= rest);
            },
            RecipeView::CraftingTippedArrow => {
                assert(Seq::<u8>::empty() + rest =~= rest);
            },
            RecipeView::CraftingBannerDuplicate => {
                assert(Seq::<u8>::empty() + rest =~= rest);
            },
            RecipeView::CraftingBannerAddPattern => {
                assert(Seq::<u8>::empty() + rest =~= rest);
            },
            RecipeView::CraftingShieldDecoration => {
                assert(Seq::<u8>::empty() + rest =~= rest);
            },
            RecipeView::CraftingShulkerBoxColoring => {
                assert(Seq::<u8>::empty() + rest =~= rest);
            },
            RecipeView::CraftingSuspiciousStew => {
                assert(Seq::<u8>::empty() + rest =~= rest);
            },
            RecipeView::Smelting(body) => {
                <RecipeSmeltingSpec>::lemma_round_trip(body, rest);
            },
            RecipeView::Blasting(body) => {
                <RecipeSmeltingSpec>::lemma_round_trip(body, rest);
            },
            RecipeView::Smoking(body) => {
                <RecipeSmeltingSpec>::lemma_round_trip(body, rest);
            },
            RecipeView::CampfireCooking(body) => {
                <RecipeSmeltingSpec>::lemma_round_trip(body, rest);
            },
            RecipeView::StoneCutting(body) => {
                <RecipeStonecuttingSpec>::lemma_round_trip(body, rest);
            },
            RecipeView::Smithing(body) => {
                <RecipeSmithingSpec>::lemma_round_trip(body, rest);
            },
        }
    }
}

impl Serialize for Recipe {
    open spec fn serializable(v: RecipeView) -> bool {
        Self::body_writable(v)
    }

    #[verifier::opaque]
    open spec fn encode(v: RecipeView) -> Seq<u8> {
        String::encode(Self::name_of(v)) + Self::body_of(v)
    }

    fn mc_serialize<S: Serializer>(&self, to: &mut S) -> (r: SerializeResult) {
        proof {
            reveal(<Recipe as Serialize>::encode);
        }
        let name = self.name().to_owned();
        name.mc_serialize(to)?;
        let r = self.serialize_body(to);
        proof {
            let head = String::encode(Self::name_of(self.deep_view()));
            let body = Self::body_of(self.deep_view());
            lemma_concat_assoc(old(to).written(), head, body);
        }
        r
    }
}

impl Deserialize for Recipe {
    #[verifier::opaque]
    open spec fn decode(data: Seq<u8>) -> Decoded<RecipeView> {
        match String::decode(data) {
            Err(e) => Err(e),
            Ok((name, n)) => match Self::decode_with_id(name, data.skip(n as int)) {
                Ok((v, m)) => Ok((v, n + m)),
                Err(e) => Err(e),
            },
        }
    }

    fn mc_deserialize(data: &[u8]) -> (r: DeserializeResult<'_, Recipe>) {
        proof {
            reveal(<Recipe as Deserialize>::decode);
        }
        let Deserialized { value: name, data: rest } = String::mc_deserialize(data)?;
        let Deserialized { value, data: after } = Self::deserialize_with_id(name.as_str(), rest)?;
        proof {
            lemma_skip_skip(data@, data@.len() - rest@.len(), rest@.len() - after@.len());
        }
        Ok(Deserialized { value, data: after })
    }
}

impl ProtocolType for Recipe {
    open spec fn faithful(v: RecipeView) -> bool {
        match v {
            RecipeView::CraftingShapeless(body) => <RecipeCraftingShapelessSpec>::faithful(body),
            RecipeView::CraftingShaped(body) => <RecipeCraftingShapedSpec>::faithful(body),
            RecipeView::CraftingArmorDye => true,
            RecipeView::CraftingBookCloning => true,
            RecipeView::CraftingMapCloning => true,
            RecipeView::CraftingMapExtending => true,
            RecipeView::CraftingFireworkRocket => true,
            RecipeView::CraftingFireworkStar => true,
            RecipeView::CraftingFireworkStarFade => true,
            RecipeView::CraftingRepairItem => true,
            RecipeView::CraftingTippedArrow => true,
            RecipeView::CraftingBannerDuplicate => true,
            RecipeView::CraftingBannerAddPattern => true,
            RecipeView::CraftingShieldDecoration => true,
            RecipeView::CraftingShulkerBoxColoring => true,
            RecipeView::CraftingSuspiciousStew => true,
            RecipeView::Smelting(body) => <RecipeSmeltingSpec>::faithful(body),
            RecipeView::Blasting(body) => <RecipeSmeltingSpec>::faithful(body),
            RecipeView::Smoking(body) => <RecipeSmeltingSpec>::faithful(body),
            RecipeView::CampfireCooking(body) => <RecipeSmeltingSpec>::faithful(body),
            RecipeView::StoneCutting(body) => <RecipeStonecuttingSpec>::faithful(body),
            RecipeView::Smithing(body) => <RecipeSmithingSpec>::faithful(body),
        }
    }

    open spec fn delimited() -> bool {
        <RecipeCraftingShapedSpec>::delimited() && <RecipeCraftingShapelessSpec>::delimited() && <RecipeSmeltingSpec>::delimited() && <RecipeSmithingSpec>::delimited() && <RecipeStonecuttingSpec>::delimited()
    }

    proof fn lemma_round_trip(v: RecipeView, rest: Seq<u8>) {
        reveal(<Recipe as Serialize>::encode);
        reveal(<Recipe as Deserialize>::decode);
        let head = String::encode(Self::name_of(v));
        let body = Self::body_of(v);
        Self::lemma_names(v);
        vstd::utf8::is_ascii_chars_encode_utf8(Self::name_of(v));
        String::lemma_round_trip(Self::name_of(v), body + rest);
        Self::lemma_body_round_trip(v, rest);
        lemma_concat_assoc(head, body, rest);
        lemma_skip_concat(head, body + rest);
    }
}

/// A recipe under its name. On the wire the text for the kind of recipe comes first, then the name, then what belongs to the kind.
#[derive(Debug, Clone, PartialEq)]
pub struct RecipeSpec {
    pub recipe: Recipe,
    /// The name of the recipe.
    pub id: String,
}

/// The mathematical content of a [`RecipeSpec`].
pub struct RecipeSpecView {
    pub recipe: <Recipe as DeepView>::V,
    pub id: Seq<char>,
}

impl DeepView for RecipeSpec {
    type V = RecipeSpecView;

    open spec fn deep_view(&self) -> RecipeSpecView {
        RecipeSpecView {
            recipe: self.recipe.deep_view(),
            id: self.id.deep_view(),
        }
    }
}

impl Serialize for RecipeSpec {
    open spec fn serializable(v: RecipeSpecView) -> bool {
        &&& String::serializable(Recipe::name_of(v.recipe))
        &&& String::serializable(v.id)
        &&& Recipe::body_writable(v.recipe)
    }

    #[verifier::opaque]
    open spec fn encode(v: RecipeSpecView) -> Seq<u8> {
        String::encode(Recipe::name_of(v.recipe)) + String::encode(v.id) + Recipe::body_of(v.recipe)
    }

    fn mc_serialize<S: Serializer>(&self, to: &mut S) -> (r: SerializeResult) {
        proof {
            reveal(<RecipeSpec as Serialize>::encode);
        }
        self.recipe.id().mc_serialize(to)?;
        self.id.mc_serialize(to)?;
        self.recipe.serialize_body(to)?;
        proof {
            let v = self.deep_view();
            let w = old(to).written();
            let e0 = String::encode(Recipe::name_of(v.recipe));
            let e1 = String::encode(v.id);
            let e2 = Recipe::body_of(v.recipe);
            let l0 = e0;
            let l1 = l0 + e1;
            let l2 = l1 + e2;
            lemma_concat_assoc(w, l0, e1);
            lemma_concat_assoc(w, l1, e2);
        }
        Ok(())
    }
}

impl Deserialize for RecipeSpec {
    #[verifier::opaque]
    open spec fn decode(data: Seq<u8>) -> Decoded<RecipeSpecView> {
        match String::decode(data) {
            Err(e) => Err(e),
            Ok((kind, n0)) => {
                match String::decode(data.skip((n0) as int)) {
                    Err(e) => Err(e),
                    Ok((id, n1)) => {
                        match Recipe::decode_with_id(kind, data.skip((n0 + n1) as int)) {
                            Err(e) => Err(e),
                            Ok((recipe, n2)) => Ok((RecipeSpecView { recipe, id }, n0 + n1 + n2)),
                        }
                    },
                }
            },
        }
    }

    fn mc_deserialize(data: &[u8]) -> (r: DeserializeResult<'_, RecipeSpec>) {
        proof {
            reveal(<RecipeSpec as Deserialize>::decode);
        }
        let ghost whole = data@;
        let Deserialized { value: kind, data: rest0 } = String::mc_deserialize(data)?;
        let Deserialized { value: id, data: rest1 } = String::mc_deserialize(rest0)?;
        proof {
            lemma_skip_skip(
                whole,
                whole.len() - rest0@.len(),
                rest0@.len() - rest1@.len(),
            );
        }
        let Deserialized { value: recipe, data: rest2 } = Recipe::deserialize_with_id(kind.as_str(), rest1)?;
        proof {
            lemma_skip_skip(
                whole,
                whole.len() - rest1@.len(),
                rest1@.len() - rest2@.len(),
            );
        }
        Ok(Deserialized { value: RecipeSpec { recipe, id }, data: rest2 })
    }
}

impl ProtocolType for RecipeSpec {
    open spec fn faithful(v: RecipeSpecView) -> bool {
        &&& String::faithful(Recipe::name_of(v.recipe))
        &&& String::faithful(v.id)
        &&& Recipe::faithful(v.recipe)
    }

    open spec fn delimited() -> bool {
        Recipe::delimited()
    }

    proof fn lemma_round_trip(v: RecipeSpecView, rest: Seq<u8>) {
        reveal(<RecipeSpec as Serialize>::encode);
        reveal(<RecipeSpec as Deserialize>::decode);
        let e0 = String::encode(Recipe::name_of(v.recipe));
        let e1 = String::encode(v.id);
        let e2 = Recipe::body_of(v.recipe);
        let data = Self::encode(v) + rest;
        let t3 = rest;
        let t2 = e2 + t3;
        let t1 = e1 + t2;
        let t0 = e0 + t1;
        let l0 = e0;
        let l1 = l0 + e1;
        let l2 = l1 + e2;
        lemma_concat_assoc(l1, e2, t3);
        lemma_concat_assoc(l0, e1, t2);
        assert(data == t0);
        Recipe::lemma_names(v.recipe);
        vstd::utf8::is_ascii_chars_encode_utf8(Recipe::name_of(v.recipe));
        String::lemma_round_trip(Recipe::name_of(v.recipe), t1);
        lemma_skip_concat(e0, t1);
        String::lemma_round_trip(v.id, t2);
        lemma_skip_more(data, (e0.len()) as int, e1, t2);
        Recipe::lemma_body_round_trip(v.recipe, t3);
        lemma_skip_more(data, (e0.len() + e1.len()) as int, e2, t3);
    }
}

/// Where the suggestions for an argument come from.
#[derive(PartialEq, Eq, Structural, Clone, Copy, Debug)]
pub enum SuggestionsTypeSpec {
    AskServer,
    AllRecipes,
    AvailableSounds,
    SummonableEntities,
    AvailableBiomes,
}

impl View for SuggestionsTypeSpec {
    type V = SuggestionsTypeSpec;

    open spec fn view(&self) -> SuggestionsTypeSpec {
        *self
    }
}

impl DeepView for SuggestionsTypeSpec {
    type V = SuggestionsTypeSpec;

    open spec fn deep_view(&self) -> SuggestionsTypeSpec {
        *self
    }
}

impl SuggestionsTypeSpec {
    pub fn variant_count() -> (r: usize)
        ensures
            r == 5,
    {
        5
    }

    /// The text that stands for the variant on the wire.
    pub open spec fn spec_name(&self) -> Seq<char> {
        match self {
            SuggestionsTypeSpec::AskServer => "minecraft:ask_server"@,
            SuggestionsTypeSpec::AllRecipes => "minecraft:all_recipes"@,
            SuggestionsTypeSpec::AvailableSounds => "minecraft:available_sounds"@,
            SuggestionsTypeSpec::SummonableEntities => "minecraft:summonable_entities"@,
            SuggestionsTypeSpec::AvailableBiomes => "minecraft:available_biomes"@,
        }
    }

    pub fn name(&self) -> (r: &'static str)
        ensures
            r@ == self.spec_name(),
    {
        match self {
            SuggestionsTypeSpec::AskServer => "minecraft:ask_server",
            SuggestionsTypeSpec::AllRecipes => "minecraft:all_recipes",
            SuggestionsTypeSpec::AvailableSounds => "minecraft:available_sounds",
            SuggestionsTypeSpec::SummonableEntities => "minecraft:summonable_entities",
            SuggestionsTypeSpec::AvailableBiomes => "minecraft:available_biomes",
        }
    }

    pub fn id(&self) -> (r: String)
        ensures
            r@ == self.spec_name(),
    {
        self.name().to_owned()
    }

    /// The variant that a text stands for.
    pub open spec fn of_name(name: Seq<char>) -> Option<Self> {
        if name == "minecraft:ask_server"@ {
            Some(SuggestionsTypeSpec::AskServer)
        } else if name == "minecraft:all_recipes"@ {
            Some(SuggestionsTypeSpec::AllRecipes)
        } else if name == "minecraft:available_sounds"@ {
            Some(SuggestionsTypeSpec::AvailableSounds)
        } else if name == "minecraft:summonable_entities"@ {
            Some(SuggestionsTypeSpec::SummonableEntities)
        } else if name == "minecraft:available_biomes"@ {
            Some(SuggestionsTypeSpec::AvailableBiomes)
        } else {
            None
        }
    }

    /// Picks the variant for `name`; `data` is what follows the name on the
    /// wire. A text that stands for no variant is refused, and the error
    /// says which.
    pub fn deserialize_with_id<'a>(name: &str, data: &'a [u8]) -> (r: DeserializeResult<'a, Self>)
        ensures
            match r {
                Ok(d) => Self::of_name(name@) == Some(d.value) && d.data@ == data@,
                Err(e) => Self::of_name(name@) is None && (e
                    matches DeserializeErr::CannotUnderstandValue(m) && m@ == invalid_ident_text(
                    "SuggestionsTypeSpec"@,
                    name@,
                )),
            },
    {
        if same_text(name, "minecraft:ask_server") {
            Ok(Deserialized { value: SuggestionsTypeSpec::AskServer, data })
        } else if same_text(name, "minecraft:all_recipes") {
            Ok(Deserialized { value: SuggestionsTypeSpec::AllRecipes, data })
        } else if same_text(name, "minecraft:available_sounds") {
            Ok(Deserialized { value: SuggestionsTypeSpec::AvailableSounds, data })
        } else if same_text(name, "minecraft:summonable_entities") {
            Ok(Deserialized { value: SuggestionsTypeSpec::SummonableEntities, data })
        } else if same_text(name, "minecraft:available_biomes") {
            Ok(Deserialized { value: SuggestionsTypeSpec::AvailableBiomes, data })
        } else {
            Err(DeserializeErr::CannotUnderstandValue(invalid_ident_message("SuggestionsTypeSpec", name)))
        }
    }

    /// Writes what follows the name: nothing, for every variant.
    pub fn serialize_body<S: Serializer>(&self, to: &mut S) -> (r: SerializeResult)
        ensures
            r is Ok,
            final(to).written() == old(to).written(),
            final(to).infallible() == old(to).infallible(),
    {
        Ok(())
    }

    /// The names are in ASCII and all different.
    pub proof fn lemma_names(v: SuggestionsTypeSpec)
        ensures
            Self::of_name(v.spec_name()) == Some(v),
            vstd::utf8::is_ascii_chars(v.spec_name()),
            v.spec_name().len() < 128,
    {
        reveal_strlit("minecraft:ask_server");
        reveal_strlit("minecraft:all_recipes");
        reveal_strlit("minecraft:available_sounds");
        reveal_strlit("minecraft:summonable_entities");
        reveal_strlit("minecraft:available_biomes");
        assert("minecraft:ask_server"@.len() == 20);
        assert("minecraft:all_recipes"@.len() == 21);
        assert("minecraft:available_sounds"@.len() == 26);
        assert("minecraft:summonable_entities"@.len() == 29);
        assert("minecraft:available_biomes"@.len() == 26);
        assert("minecraft:available_sounds"@[20] != "minecraft:available_biomes"@[20]);
        let text = v.spec_name();
        assert forall|i: int| 0 <= i < text.len() implies '\0' <= #[trigger] text[i] <= '\u{7f}' by {
            match v {
                SuggestionsTypeSpec::AskServer => {
                    if i == 0 {
                        assert(text[0] == 'm');
                    }
                    if i == 1 {
                        assert(text[1] == 'i');
                    }
                    if i == 2 {
                        assert(text[2] == 'n');
                    }
                    if i == 3 {
                        assert(text[3] == 'e');
                    }
                    if i == 4 {
                        assert(text[4] == 'c');
                    }
                    if i == 5 {
                        assert(text[5] == 'r');
                    }
                    if i == 6 {
                        assert(text[6] == 'a');
                    }
                    if i == 7 {
                        assert(text[7] == 'f');
                    }
                    if i == 8 {
                        assert(text[8] == 't');
                    }
                    if i == 9 {
                        assert(text[9] == ':');
                    }
                    if i == 10 {
                        assert(text[10] == 'a');
                    }
                    if i == 11 {
                        assert(text[11] == 's');
                    }
                    if i == 12 {
                        assert(text[12] == 'k');
                    }
                    if i == 13 {
                        assert(text[13] == '_');
                    }
                    if i == 14 {
                        assert(text[14] == 's');
                    }
                    if i == 15 {
                        assert(text[15] == 'e');
                    }
                    if i == 16 {
                        assert(text[16] == 'r');
                    }
                    if i == 17 {
                        assert(text[17] == 'v');
                    }
                    if i == 18 {
                        assert(text[18] == 'e');
                    }
                    if i == 19 {
                        assert(text[19] == 'r');
                    }
                },
                SuggestionsTypeSpec::AllRecipes => {
                    if i == 0 {
                        assert(text[0] == 'm');
                    }
                    if i == 1 {
                        assert(text[1] == 'i');
                    }
                    if i == 2 {
                        assert(text[2] == 'n');
                    }
                    if i == 3 {
                        assert(text[3] == 'e');
                    }
                    if i == 4 {
                        assert(text[4] == 'c');
                    }
                    if i == 5 {
                        assert(text[5] == 'r');
                    }
                    if i == 6 {
                        assert(text[6] == 'a');
                    }
                    if i == 7 {
                        assert(text[7] == 'f');
                    }
                    if i == 8 {
                        assert(text[8] == 't');
                    }
                    if i == 9 {
                        assert(text[9] == ':');
                    }
                    if i == 10 {
                        assert(text[10] == 'a');
                    }
                    if i == 11 {
                        assert(text[11] == 'l');
                    }
                    if i == 12 {
                        assert(text[12] == 'l');
                    }
                    if i == 13 {
                        assert(text[13] == '_');
                    }
                    if i == 14 {
                        assert(text[14] == 'r');
                    }
                    if i == 15 {
                        assert(text[15] == 'e');
                    }
                    if i == 16 {
                        assert(text[16] == 'c');
                    }
                    if i == 17 {
                        assert(text[17] == 'i');
                    }
                    if i == 18 {
                        assert(text[18] == 'p');
                    }
                    if i == 19 {
                        assert(text[19] == 'e');
                    }
                    if i == 20 {
                        assert(text[20] == 's');
                    }
                },
                SuggestionsTypeSpec::AvailableSounds => {
                    if i == 0 {
                        assert(text[0] == 'm');
                    }
                    if i == 1 {
                        assert(text[1] == 'i');
                    }
                    if i == 2 {
                        assert(text[2] == 'n');
                    }
                    if i == 3 {
                        assert(text[3] == 'e');
                    }
                    if i == 4 {
                        assert(text[4] == 'c');
                    }
                    if i == 5 {
                        assert(text[5] == 'r');
                    }
                    if i == 6 {
                        assert(text[6] == 'a');
                    }
                    if i == 7 {
                        assert(text[7] == 'f');
                    }
                    if i == 8 {
                        assert(text[8] == 't');
                    }
                    if i == 9 {
                        assert(text[9] == ':');
                    }
                    if i == 10 {
                        assert(text[10] == 'a');
                    }
                    if i == 11 {
                        assert(text[11] == 'v');
                    }
                    if i == 12 {
                        assert(text[12] == 'a');
                    }
                    if i == 13 {
                        assert(text[13] == 'i');
                    }
                    if i == 14 {
                        assert(text[14] == 'l');
                    }
                    if i == 15 {
                        assert(text[15] == 'a');
                    }
                    if i == 16 {
                        assert(text[16] == 'b');
                    }
                    if i == 17 {
                        assert(text[17] == 'l');
                    }
                    if i == 18 {
                        assert(text[18] == 'e');
                    }
                    if i == 19 {
                        assert(text[19] == '_');
                    }
                    if i == 20 {
                        assert(text[20] == 's');
                    }
                    if i == 21 {
                        assert(text[21] == 'o');
                    }
                    if i == 22 {
                        assert(text[22] == 'u');
                    }
                    if i == 23 {
                        assert(text[23] == 'n');
                    }
                    if i == 24 {
                        assert(text[24] == 'd');
                    }
                    if i == 25 {
                        assert(text[25] == 's');
                    }
                },
                SuggestionsTypeSpec::SummonableEntities => {
                    if i == 0 {
                        assert(text[0] == 'm');
                    }
                    if i == 1 {
                        assert(text[1] == 'i');
                    }
                    if i == 2 {
                        assert(text[2] == 'n');
                    }
                    if i == 3 {
                        assert(text[3] == 'e');
                    }
                    if i == 4 {
                        assert(text[4] == 'c');
                    }
                    if i == 5 {
                        assert(text[5] == 'r');
                    }
                    if i == 6 {
                        assert(text[6] == 'a');
                    }
                    if i == 7 {
                        assert(text[7] == 'f');
                    }
                    if i == 8 {
                        assert(text[8] == 't');
                    }
                    if i == 9 {
                        assert(text[9] == ':');
                    }
                    if i == 10 {
                        assert(text[10] == 's');
                    }
                    if i == 11 {
                        assert(text[11] == 'u');
                    }
                    if i == 12 {
                        assert(text[12] == 'm');
                    }
                    if i == 13 {
                        assert(text[13] == 'm');
                    }
                    if i == 14 {
                        assert(text[14] == 'o');
                    }
                    if i == 15 {
                        assert(text[15] == 'n');
                    }
                    if i == 16 {
                        assert(text[16] == 'a');
                    }
                    if i == 17 {
                        assert(text[17] == 'b');
                    }
                    if i == 18 {
                        assert(text[18] == 'l');
                    }
                    if i == 19 {
                        assert(text[19] == 'e');
                    }
                    if i == 20 {
                        assert(text[20] == '_');
                    }
                    if i == 21 {
                        assert(text[21] == 'e');
                    }
                    if i == 22 {
                        assert(text[22] == 'n');
                    }
                    if i == 23 {
                        assert(text[23] == 't');
                    }
                    if i == 24 {
                        assert(text[24] == 'i');
                    }
                    if i == 25 {
                        assert(text[25] == 't');
                    }
                    if i == 26 {
                        assert(text[26] == 'i');
                    }
                    if i == 27 {
                        assert(text[27] == 'e');
                    }
                    if i == 28 {
                        assert(text[28] == 's');
                    }
                },
                SuggestionsTypeSpec::AvailableBiomes => {
                    if i == 0 {
                        assert(text[0] == 'm');
                    }
                    if i == 1 {
                        assert(text[1] == 'i');
                    }
                    if i == 2 {
                        assert(text[2] == 'n');
                    }
                    if i == 3 {
                        assert(text[3] == 'e');
                    }
                    if i == 4 {
                        assert(text[4] == 'c');
                    }
                    if i == 5 {
                        assert(text[5] == 'r');
                    }
                    if i == 6 {
                        assert(text[6] == 'a');
                    }
                    if i == 7 {
                        assert(text[7] == 'f');
                    }
                    if i == 8 {
                        assert(text[8] == 't');
                    }
                    if i == 9 {
                        assert(text[9] == ':');
                    }
                    if i == 10 {
                        assert(text[10] == 'a');
                    }
                    if i == 11 {
                        assert(text[11] == 'v');
                    }
                    if i == 12 {
                        assert(text[12] == 'a');
                    }
                    if i == 13 {
                        assert(text[13] == 'i');
                    }
                    if i == 14 {
                        assert(text[14] == 'l');
                    }
                    if i == 15 {
                        assert(text[15] == 'a');
                    }
                    if i == 16 {
                        assert(text[16] == 'b');
                    }
                    if i == 17 {
                        assert(text[17] == 'l');
                    }
                    if i == 18 {
                        assert(text[18] == 'e');
                    }
                    if i == 19 {
                        assert(text[19] == '_');
                    }
                    if i == 20 {
                        assert(text[20] == 'b');
                    }
                    if i == 21 {
                        assert(text[21] == 'i');
                    }
                    if i == 22 {
                        assert(text[22] == 'o');
                    }
                    if i == 23 {
                        assert(text[23] == 'm');
                    }
                    if i == 24 {
                        assert(text[24] == 'e');
                    }
                    if i == 25 {
                        assert(text[25] == 's');
                    }
                },
            }
        }
    }
}

impl Serialize for SuggestionsTypeSpec {
    open spec fn serializable(v: SuggestionsTypeSpec) -> bool {
        true
    }

    #[verifier::opaque]
    open spec fn encode(v: SuggestionsTypeSpec) -> Seq<u8> {
        String::encode(v.spec_name())
    }

    fn mc_serialize<S: Serializer>(&self, to: &mut S) -> (r: SerializeResult) {
        proof {
            reveal(<SuggestionsTypeSpec as Serialize>::encode);
        }
        let name = self.name().to_owned();
        name.mc_serialize(to)?;
        self.serialize_body(to)
    }
}

impl Deserialize for SuggestionsTypeSpec {
    #[verifier::opaque]
    open spec fn decode(data: Seq<u8>) -> Decoded<SuggestionsTypeSpec> {
        match String::decode(data) {
            Err(e) => Err(e),
            Ok((name, n)) => match Self::of_name(name) {
                Some(v) => Ok((v, n)),
                None => Err(DecodeFailure::CannotUnderstandValue),
            },
        }
    }

    fn mc_deserialize(data: &[u8]) -> (r: DeserializeResult<'_, SuggestionsTypeSpec>) {
        proof {
            reveal(<SuggestionsTypeSpec as Deserialize>::decode);
        }
        let Deserialized { value: name, data: rest } = String::mc_deserialize(data)?;
        Self::deserialize_with_id(name.as_str(), rest)
    }
}

impl ProtocolType for SuggestionsTypeSpec {
    open spec fn faithful(v: SuggestionsTypeSpec) -> bool {
        true
    }

    open spec fn delimited() -> bool {
        true
    }

    proof fn lemma_round_trip(v: SuggestionsTypeSpec, rest: Seq<u8>) {
        reveal(<SuggestionsTypeSpec as Serialize>::encode);
        reveal(<SuggestionsTypeSpec as Deserialize>::decode);
        Self::lemma_names(v);
        vstd::utf8::is_ascii_chars_encode_utf8(v.spec_name());
        String::lemma_round_trip(v.spec_name(), rest);
    }
}

/// A word of a command that is typed as it is.
#[derive(Debug, Clone, PartialEq)]
pub struct CommandLiteralNodeSpec {
    /// The word.
    pub name: String,
}

/// The mathematical content of a [`CommandLiteralNodeSpec`].
pub struct CommandLiteralNodeSpecView {
    pub name: Seq<char>,
}

impl DeepView for CommandLiteralNodeSpec {
    type V = CommandLiteralNodeSpecView;

    open spec fn deep_view(&self) -> CommandLiteralNodeSpecView {
        CommandLiteralNodeSpecView {
            name: self.name.deep_view(),
        }
    }
}

impl Serialize for CommandLiteralNodeSpec {
    open spec fn serializable(v: CommandLiteralNodeSpecView) -> bool {
        String::serializable(v.name)
    }

    #[verifier::opaque]
    open spec fn encode(v: CommandLiteralNodeSpecView) -> Seq<u8> {
        String::encode(v.name)
    }

    fn mc_serialize<S: Serializer>(&self, to: &mut S) -> (r: SerializeResult) {
        proof {
            reveal(<CommandLiteralNodeSpec as Serialize>::encode);
        }
        self.name.mc_serialize(to)?;
        proof {
            assert(to.written() =~= old(to).written() + Self::encode(self.deep_view()));
        }
        Ok(())
    }
}

impl Deserialize for CommandLiteralNodeSpec {
    #[verifier::opaque]
    open spec fn decode(data: Seq<u8>) -> Decoded<CommandLiteralNodeSpecView> {
        match String::decode(data) {
            Err(e) => Err(e),
            Ok((name, n0)) => Ok((CommandLiteralNodeSpecView { name }, n0)),
        }
    }

    fn mc_deserialize(data: &[u8]) -> (r: DeserializeResult<'_, CommandLiteralNodeSpec>) {
        proof {
            reveal(<CommandLiteralNodeSpec as Deserialize>::decode);
        }
        let Deserialized { value: name, data: rest0 } = String::mc_deserialize(data)?;
        Ok(Deserialized { value: CommandLiteralNodeSpec { name }, data: rest0 })
    }
}

impl ProtocolType for CommandLiteralNodeSpec {
    open spec fn faithful(v: CommandLiteralNodeSpecView) -> bool {
        String::faithful(v.name)
    }

    open spec fn delimited() -> bool {
        String::delimited()
    }

    proof fn lemma_round_trip(v: CommandLiteralNodeSpecView, rest: Seq<u8>) {
        reveal(<CommandLiteralNodeSpec as Serialize>::encode);
        reveal(<CommandLiteralNodeSpec as Deserialize>::decode);
        let e0 = String::encode(v.name);
        let data = Self::encode(v) + rest;
        let t1 = rest;
        let t0 = e0 + t1;
        String::lemma_round_trip(v.name, t1);
        lemma_skip_concat(e0, t1);
    }
}

/// How much of the input a text argument takes.
#[derive(PartialEq, Eq, Structural, Clone, Copy, Debug)]
pub enum StringParserMode {
    SingleWord,
    QuotablePharse,
    GreedyPhrase,
}

impl View for StringParserMode {
    type V = StringParserMode;

    open spec fn view(&self) -> StringParserMode {
        *self
    }
}

impl DeepView for StringParserMode {
    type V = StringParserMode;

    open spec fn deep_view(&self) -> StringParserMode {
        *self
    }
}

impl StringParserMode {
    pub fn variant_count() -> (r: usize)
        ensures
            r == 3,
    {
        3
    }

    /// The number that stands for the variant on the wire.
    pub open spec fn id_of(v: StringParserMode) -> i32 {
        match v {
            StringParserMode::SingleWord => 0x00,
            StringParserMode::QuotablePharse => 0x01,
            StringParserMode::GreedyPhrase => 0x02,
        }
    }

    pub fn id(&self) -> (r: VarInt)
        ensures
            r == VarInt(Self::id_of(self.deep_view())),
    {
        match self {
            StringParserMode::SingleWord => VarInt(0x00),
            StringParserMode::QuotablePharse => VarInt(0x01),
            StringParserMode::GreedyPhrase => VarInt(0x02),
        }
    }

    pub open spec fn name_of(v: StringParserMode) -> Seq<char> {
        match v {
            StringParserMode::SingleWord => "SingleWord"@,
            StringParserMode::QuotablePharse => "QuotablePharse"@,
            StringParserMode::GreedyPhrase => "GreedyPhrase"@,
        }
    }

    pub fn name(&self) -> (r: &'static str)
        ensures
            r@ == Self::name_of(self.deep_view()),
    {
        match self {
            StringParserMode::SingleWord => "SingleWord",
            StringParserMode::QuotablePharse => "QuotablePharse",
            StringParserMode::GreedyPhrase => "GreedyPhrase",
        }
    }

    /// The bytes that follow the number.
    pub open spec fn body_of(v: StringParserMode) -> Seq<u8> {
        match v {
            StringParserMode::SingleWord => Seq::empty(),
            StringParserMode::QuotablePharse => Seq::empty(),
            StringParserMode::GreedyPhrase => Seq::empty(),
        }
    }

    /// Whether what follows the number can be written.
    pub open spec fn body_writable(v: StringParserMode) -> bool {
        match v {
            StringParserMode::SingleWord => true,
            StringParserMode::QuotablePharse => true,
            StringParserMode::GreedyPhrase => true,
        }
    }

    /// The variant that `id` stands for, with its body read from `data`.
    pub open spec fn decode_with_id(id: i32, data: Seq<u8>) -> Decoded<StringParserMode> {
        if id == 0x00 {
            Ok((StringParserMode::SingleWord, 0))
        } else if id == 0x01 {
            Ok((StringParserMode::QuotablePharse, 0))
        } else if id == 0x02 {
            Ok((StringParserMode::GreedyPhrase, 0))
        } else {
            Err(DecodeFailure::CannotUnderstandValue)
        }
    }

    /// Whether `id` stands for a variant.
    pub open spec fn has_id(id: i32) -> bool {
        id == 0x00
            || id == 0x01
            || id == 0x02
    }

    /// Picks the variant for `id` and reads its body from `data`. A number
    /// that stands for no variant is refused, and the error says which.
    pub fn deserialize_with_id<'a>(id: VarInt, data: &'a [u8]) -> (r: DeserializeResult<'a, Self>)
        ensures
            agrees(r, data@, Self::decode_with_id(id.0, data@)),
            !Self::has_id(id.0) ==> (r matches Err(DeserializeErr::CannotUnderstandValue(m))
                && m@ == invalid_int_text("StringParserMode"@, id.0 as int)),
    {
        proof {
            assert(data@.skip(0) =~= data@);
        }
        match id.0 {
            0x00 => Ok(Deserialized { value: StringParserMode::SingleWord, data }),
            0x01 => Ok(Deserialized { value: StringParserMode::QuotablePharse, data }),
            0x02 => Ok(Deserialized { value: StringParserMode::GreedyPhrase, data }),
            other => Err(DeserializeErr::CannotUnderstandValue(invalid_int_message("StringParserMode", other))),
        }
    }

    /// Writes what follows the number.
    pub fn serialize_body<S: Serializer>(&self, to: &mut S) -> (r: SerializeResult)
        ensures
            r is Ok ==> Self::body_writable(self.deep_view()) && final(to).written() == old(
                to,
            ).written() + Self::body_of(self.deep_view()),
            old(to).infallible() ==> final(to).infallible(),
            old(to).infallible() ==> (r is Ok <==> Self::body_writable(self.deep_view())),
            old(to).infallible() && r is Err ==> (r matches Err(SerializeErr::CannotSerialize(_))),
    {
        match self {
            StringParserMode::SingleWord => {
                proof {
                    assert(old(to).written() + Seq::<u8>::empty() =~= old(to).written());
                }
                Ok(())
            },
            StringParserMode::QuotablePharse => {
                proof {
                    assert(old(to).written() + Seq::<u8>::empty() =~= old(to).written());
                }
                Ok(())
            },
            StringParserMode::GreedyPhrase => {
                proof {
                    assert(old(to).written() + Seq::<u8>::empty() =~= old(to).written());
                }
                Ok(())
            },
        }
    }
}

impl Serialize for StringParserMode {
    open spec fn serializable(v: StringParserMode) -> bool {
        Self::body_writable(v)
    }

    #[verifier::opaque]
    open spec fn encode(v: StringParserMode) -> Seq<u8> {
        <VarInt>::encode(VarInt(Self::id_of(v))) + Self::body_of(v)
    }

    fn mc_serialize<S: Serializer>(&self, to: &mut S) -> (r: SerializeResult) {
        proof {
            reveal(<StringParserMode as Serialize>::encode);
        }
        let id_to_serialize: VarInt = self.id();
        id_to_serialize.mc_serialize(to)?;
        let r = self.serialize_body(to);
        proof {
            let head = <VarInt>::encode(VarInt(Self::id_of(self.deep_view())));
            let body = Self::body_of(self.deep_view());
            lemma_concat_assoc(old(to).written(), head, body);
        }
        r
    }
}

impl Deserialize for StringParserMode {
    #[verifier::opaque]
    open spec fn decode(data: Seq<u8>) -> Decoded<StringParserMode> {
        match <VarInt>::decode(data) {
            Err(e) => Err(e),
            Ok((id, n)) => match Self::decode_with_id(id.0, data.skip(n as int)) {
                Ok((v, m)) => Ok((v, n + m)),
                Err(e) => Err(e),
            },
        }
    }

    fn mc_deserialize(data: &[u8]) -> (r: DeserializeResult<'_, StringParserMode>) {
        proof {
            reveal(<StringParserMode as Deserialize>::decode);
        }
        let Deserialized { value: id, data: rest } = <VarInt>::mc_deserialize(data)?;
        let Deserialized { value, data: after } = Self::deserialize_with_id(id, rest)?;
        proof {
            lemma_skip_skip(data@, data@.len() - rest@.len(), rest@.len() - after@.len());
        }
        Ok(Deserialized { value, data: after })
    }
}

impl ProtocolType for StringParserMode {
    open spec fn faithful(v: StringParserMode) -> bool {
        match v {
            StringParserMode::SingleWord => true,
            StringParserMode::QuotablePharse => true,
            StringParserMode::GreedyPhrase => true,
        }
    }

    open spec fn delimited() -> bool {
        true
    }

    proof fn lemma_round_trip(v: StringParserMode, rest: Seq<u8>) {
        reveal(<StringParserMode as Serialize>::encode);
        reveal(<StringParserMode as Deserialize>::decode);
        let head = <VarInt>::encode(VarInt(Self::id_of(v)));
        let body = Self::body_of(v);
        <VarInt>::lemma_round_trip(VarInt(Self::id_of(v)), body + rest);
        Self::lemma_body_round_trip(v, rest);
        lemma_concat_assoc(head, body, rest);
        lemma_skip_concat(head, body + rest);
    }
}

impl StringParserMode {
    /// What follows the number, written out and followed by anything, reads
    /// back under that number.
    pub proof fn lemma_body_round_trip(v: StringParserMode, rest: Seq<u8>)
        requires
            <Self as ProtocolType>::faithful(v),
            <Self as ProtocolType>::delimited() || rest.len() == 0,
        ensures
            Self::body_writable(v),
            Self::decode_with_id(Self::id_of(v), Self::body_of(v) + rest) == Ok::<_, DecodeFailure>(
                (v, Self::body_of(v).len()),
            ),
    {
        match v {
            StringParserMode::SingleWord => {
                assert(Seq::<u8>::empty() + rest =~= rest);
            },
            StringParserMode::QuotablePharse => {
                assert(Seq::<u8>::empty() + rest =~= rest);
            },
            StringParserMode::GreedyPhrase => {
                assert(Seq::<u8>::empty() + rest =~= rest);
            },
        }
    }
}

/// What an entity argument accepts, one bit for each.
#[derive(Clone, Copy, PartialEq, Eq, Debug, Default)]
pub struct EntityParserFlags(pub u8);

impl View for EntityParserFlags {
    type V = EntityParserFlags;

    open spec fn view(&self) -> EntityParserFlags {
        *self
    }
}

impl DeepView for EntityParserFlags {
    type V = EntityParserFlags;

    open spec fn deep_view(&self) -> EntityParserFlags {
        *self
    }
}

impl EntityParserFlags {
    /// Whether only one entity may be named.
    pub fn is_single_target(&self) -> (r: bool)
        ensures
            r == flag_is_set(self.0, 0x01),
    {
        proof {
            lemma_flag(self.0, 0x01);
        }
        self.0 & 0x01 != 0
    }

    /// Sets the flag where `value` is true. Where it is false the flag is
    /// turned over: a flag that is set is cleared, and one that is clear is
    /// set.
    pub fn set_single_target(&mut self, value: bool)
        ensures
            final(self).0 == if value {
                with_flag(old(self).0, 0x01)
            } else if flag_is_set(old(self).0, 0x01) {
                without_flag(old(self).0, 0x01)
            } else {
                with_flag(old(self).0, 0x01)
            },
    {
        proof {
            lemma_flag(self.0, 0x01);
        }
        if value {
            self.0 |= 0x01;
        } else {
            self.0 ^= 0x01;
        }
    }

    /// Whether only players may be named.
    pub fn is_players_only(&self) -> (r: bool)
        ensures
            r == flag_is_set(self.0, 0x02),
    {
        proof {
            lemma_flag(self.0, 0x02);
        }
        self.0 & 0x02 != 0
    }

    /// Sets the flag where `value` is true. Where it is false the flag is
    /// turned over: a flag that is set is cleared, and one that is clear is
    /// set.
    pub fn set_players_only(&mut self, value: bool)
        ensures
            final(self).0 == if value {
                with_flag(old(self).0, 0x02)
            } else if flag_is_set(old(self).0, 0x02) {
                without_flag(old(self).0, 0x02)
            } else {
                with_flag(old(self).0, 0x02)
            },
    {
        proof {
            lemma_flag(self.0, 0x02);
        }
        if value {
            self.0 |= 0x02;
        } else {
            self.0 ^= 0x02;
        }
    }

}

impl Serialize for EntityParserFlags {
    open spec fn serializable(v: EntityParserFlags) -> bool {
        true
    }

    #[verifier::opaque]
    open spec fn encode(v: EntityParserFlags) -> Seq<u8> {
        seq![v.0]
    }

    fn mc_serialize<S: Serializer>(&self, to: &mut S) -> (r: SerializeResult) {
        proof {
            reveal(<EntityParserFlags as Serialize>::encode);
        }
        let r = to.serialize_byte(self.0);
        proof {
            assert(old(to).written().push(self.0) =~= old(to).written() + seq![self.0]);
        }
        r
    }
}

impl Deserialize for EntityParserFlags {
    #[verifier::opaque]
    open spec fn decode(data: Seq<u8>) -> Decoded<EntityParserFlags> {
        if data.len() < 1 {
            Err(DecodeFailure::Eof)
        } else {
            Ok((EntityParserFlags(data[0]), 1))
        }
    }

    fn mc_deserialize(data: &[u8]) -> (r: DeserializeResult<'_, EntityParserFlags>) {
        proof {
            reveal(<EntityParserFlags as Deserialize>::decode);
        }
        proof {
            reveal(<u8 as Deserialize>::decode);
        }
        let Deserialized { value: b, data: rest } = u8::mc_deserialize(data)?;
        Ok(Deserialized { value: EntityParserFlags(b), data: rest })
    }
}

impl ProtocolType for EntityParserFlags {
    open spec fn faithful(v: EntityParserFlags) -> bool {
        true
    }

    open spec fn delimited() -> bool {
        true
    }

    proof fn lemma_round_trip(v: EntityParserFlags, rest: Seq<u8>) {
        reveal(<EntityParserFlags as Serialize>::encode);
        reveal(<EntityParserFlags as Deserialize>::decode);
    }
}

/// What a score holder argument accepts, one bit for each.
#[derive(Clone, Copy, PartialEq, Eq, Debug, Default)]
pub struct ScoreHolderFlags(pub u8);

impl View for ScoreHolderFlags {
    type V = ScoreHolderFlags;

    open spec fn view(&self) -> ScoreHolderFlags {
        *self
    }
}

impl DeepView for ScoreHolderFlags {
    type V = ScoreHolderFlags;

    open spec fn deep_view(&self) -> ScoreHolderFlags {
        *self
    }
}

impl ScoreHolderFlags {
    /// Whether several holders may be named.
    pub fn is_multiple(&self) -> (r: bool)
        ensures
            r == flag_is_set(self.0, 0x01),
    {
        proof {
            lemma_flag(self.0, 0x01);
        }
        self.0 & 0x01 != 0
    }

    /// Sets the flag where `value` is true. Where it is false the flag is
    /// turned over: a flag that is set is cleared, and one that is clear is
    /// set.
    pub fn set_multiple(&mut self, value: bool)
        ensures
            final(self).0 == if value {
                with_flag(old(self).0, 0x01)
            } else if flag_is_set(old(self).0, 0x01) {
                without_flag(old(self).0, 0x01)
            } else {
                with_flag(old(self).0, 0x01)
            },
    {
        proof {
            lemma_flag(self.0, 0x01);
        }
        if value {
            self.0 |= 0x01;
        } else {
            self.0 ^= 0x01;
        }
    }

}

impl Serialize for ScoreHolderFlags {
    open spec fn serializable(v: ScoreHolderFlags) -> bool {
        true
    }

    #[verifier::opaque]
    open spec fn encode(v: ScoreHolderFlags) -> Seq<u8> {
        seq![v.0]
    }

    fn mc_serialize<S: Serializer>(&self, to: &mut S) -> (r: SerializeResult) {
        proof {
            reveal(<ScoreHolderFlags as Serialize>::encode);
        }
        let r = to.serialize_byte(self.0);
        proof {
            assert(old(to).written().push(self.0) =~= old(to).written() + seq![self.0]);
        }
        r
    }
}

impl Deserialize for ScoreHolderFlags {
    #[verifier::opaque]
    open spec fn decode(data: Seq<u8>) -> Decoded<ScoreHolderFlags> {
        if data.len() < 1 {
            Err(DecodeFailure::Eof)
        } else {
            Ok((ScoreHolderFlags(data[0]), 1))
        }
    }

    fn mc_deserialize(data: &[u8]) -> (r: DeserializeResult<'_, ScoreHolderFlags>) {
        proof {
            reveal(<ScoreHolderFlags as Deserialize>::decode);
        }
        proof {
            reveal(<u8 as Deserialize>::decode);
        }
        let Deserialized { value: b, data: rest } = u8::mc_deserialize(data)?;
        Ok(Deserialized { value: ScoreHolderFlags(b), data: rest })
    }
}

impl ProtocolType for ScoreHolderFlags {
    open spec fn faithful(v: ScoreHolderFlags) -> bool {
        true
    }

    open spec fn delimited() -> bool {
        true
    }

    proof fn lemma_round_trip(v: ScoreHolderFlags, rest: Seq<u8>) {
        reveal(<ScoreHolderFlags as Serialize>::encode);
        reveal(<ScoreHolderFlags as Deserialize>::decode);
    }
}

/// What a range argument accepts.
#[derive(Debug, Clone, PartialEq)]
pub struct RangeParserProps {
    /// Whether the bounds may have a fraction.
    pub decimal: bool,
}

/// The mathematical content of a [`RangeParserProps`].
pub struct RangeParserPropsView {
    pub decimal: bool,
}

impl DeepView for RangeParserProps {
    type V = RangeParserPropsView;

    open spec fn deep_view(&self) -> RangeParserPropsView {
        RangeParserPropsView {
            decimal: self.decimal.deep_view(),
        }
    }
}

impl Serialize for RangeParserProps {
    open spec fn serializable(v: RangeParserPropsView) -> bool {
        bool::serializable(v.decimal)
    }

    #[verifier::opaque]
    open spec fn encode(v: RangeParserPropsView) -> Seq<u8> {
        bool::encode(v.decimal)
    }

    fn mc_serialize<S: Serializer>(&self, to: &mut S) -> (r: SerializeResult) {
        proof {
            reveal(<RangeParserProps as Serialize>::encode);
        }
        self.decimal.mc_serialize(to)?;
        proof {
            assert(to.written() =~= old(to).written() + Self::encode(self.deep_view()));
        }
        Ok(())
    }
}

impl Deserialize for RangeParserProps {
    #[verifier::opaque]
    open spec fn decode(data: Seq<u8>) -> Decoded<RangeParserPropsView> {
        match bool::decode(data) {
            Err(e) => Err(e),
            Ok((decimal, n0)) => Ok((RangeParserPropsView { decimal }, n0)),
        }
    }

    fn mc_deserialize(data: &[u8]) -> (r: DeserializeResult<'_, RangeParserProps>) {
        proof {
            reveal(<RangeParserProps as Deserialize>::decode);
        }
        let Deserialized { value: decimal, data: rest0 } = bool::mc_deserialize(data)?;
        Ok(Deserialized { value: RangeParserProps { decimal }, data: rest0 })
    }
}

impl ProtocolType for RangeParserProps {
    open spec fn faithful(v: RangeParserPropsView) -> bool {
        bool::faithful(v.decimal)
    }

    open spec fn delimited() -> bool {
        bool::delimited()
    }

    proof fn lemma_round_trip(v: RangeParserPropsView, rest: Seq<u8>) {
        reveal(<RangeParserProps as Serialize>::encode);
        reveal(<RangeParserProps as Deserialize>::decode);
        let e0 = bool::encode(v.decimal);
        let data = Self::encode(v) + rest;
        let t1 = rest;
        let t0 = e0 + t1;
        bool::lemma_round_trip(v.decimal, t1);
        lemma_skip_concat(e0, t1);
    }
}

/// One byte that says which of two parts are there: 1 for the first, 2 for
/// the second.
pub open spec fn flag_pair(first: bool, second: bool) -> u8 {
    ((if first { 1int } else { 0int }) + (if second { 2int } else { 0int })) as u8
}

proof fn lemma_flag_pair(flags: u8)
    by (bit_vector)
    ensures
        flags & 0x01 != 0 <==> flags % 2 == 1,
        flags & 0x02 != 0 <==> (flags / 2) % 2 == 1,
        0u8 | 0x01 == 1,
        0u8 | 0x02 == 2,
        1u8 | 0x02 == 3,
{
}

/// The bounds of a number argument, each there or not. On the wire a byte in front says which are there.
#[derive(Clone, Copy, Debug, PartialEq)]
pub struct NumParserProps<T> {
    /// The least that is accepted.
    pub min: Option<T>,
    /// The most that is accepted.
    pub max: Option<T>,
}

/// The mathematical content of a [`NumParserProps`].
pub struct NumParserPropsView<T> {
    pub min: Option<T>,
    pub max: Option<T>,
}

impl<T: DeepView> DeepView for NumParserProps<T> {
    type V = NumParserPropsView<T::V>;

    open spec fn deep_view(&self) -> NumParserPropsView<T::V> {
        NumParserPropsView {
            min: self.min.deep_view(),
            max: self.max.deep_view(),
        }
    }
}

impl<T: Serialize> Serialize for NumParserProps<T> {
    open spec fn serializable(v: NumParserPropsView<T::V>) -> bool {
        &&& u8::serializable(flag_pair(v.min is Some, v.max is Some))
        &&& given_writable::<T>(v.min)
        &&& given_writable::<T>(v.max)
    }

    open spec fn encode(v: NumParserPropsView<T::V>) -> Seq<u8> {
        u8::encode(flag_pair(v.min is Some, v.max is Some)) + if_given::<T>(v.min) + if_given::<T>(v.max)
    }

    fn mc_serialize<S: Serializer>(&self, to: &mut S) -> (r: SerializeResult) {
        let mut flags: u8 = 0;
        proof {
            lemma_flag_pair(0);
        }
        if self.min.is_some() {
            flags |= 0x01;
        }
        if self.max.is_some() {
            flags |= 0x02;
        }
        flags.mc_serialize(to)?;
        write_if_given(&self.min, to)?;
        write_if_given(&self.max, to)?;
        proof {
            let v = self.deep_view();
            let w = old(to).written();
            let e0 = u8::encode(flag_pair(v.min is Some, v.max is Some));
            let e1 = if_given::<T>(v.min);
            let e2 = if_given::<T>(v.max);
            let l0 = e0;
            let l1 = l0 + e1;
            let l2 = l1 + e2;
            lemma_concat_assoc(w, l0, e1);
            lemma_concat_assoc(w, l1, e2);
        }
        Ok(())
    }
}

impl<T: Deserialize> Deserialize for NumParserProps<T> {
    open spec fn decode(data: Seq<u8>) -> Decoded<NumParserPropsView<T::V>> {
        match u8::decode(data) {
            Err(e) => Err(e),
            Ok((flags, n0)) => {
                match decode_if_given::<T>(flags % 2 == 1, data.skip((n0) as int)) {
                    Err(e) => Err(e),
                    Ok((min, n1)) => {
                        match decode_if_given::<T>((flags / 2) % 2 == 1, data.skip((n0 + n1) as int)) {
                            Err(e) => Err(e),
                            Ok((max, n2)) => Ok((NumParserPropsView { min, max }, n0 + n1 + n2)),
                        }
                    },
                }
            },
        }
    }

    fn mc_deserialize(data: &[u8]) -> (r: DeserializeResult<'_, NumParserProps<T>>) {
        let ghost whole = data@;
        let Deserialized { value: flags, data: rest0 } = u8::mc_deserialize(data)?;
        let Deserialized { value: min, data: rest1 } = {
            proof {
                lemma_flag_pair(flags);
            }
            read_if_given::<T>(flags & 0x01 != 0, rest0)
        }?;
        proof {
            lemma_skip_skip(
                whole,
                whole.len() - rest0@.len(),
                rest0@.len() - rest1@.len(),
            );
        }
        let Deserialized { value: max, data: rest2 } = {
            proof {
                lemma_flag_pair(flags);
            }
            read_if_given::<T>(flags & 0x02 != 0, rest1)
        }?;
        proof {
            lemma_skip_skip(
                whole,
                whole.len() - rest1@.len(),
                rest1@.len() - rest2@.len(),
            );
        }
        Ok(Deserialized { value: NumParserProps { min, max }, data: rest2 })
    }
}

impl<T: ProtocolType> ProtocolType for NumParserProps<T> {
    open spec fn faithful(v: NumParserPropsView<T::V>) -> bool {
        &&& u8::faithful(flag_pair(v.min is Some, v.max is Some))
        &&& given_faithful::<T>(v.min)
        &&& given_faithful::<T>(v.max)
        &&& T::delimited()
        &&& u8::delimited()
    }

    open spec fn delimited() -> bool {
        T::delimited()
    }

    proof fn lemma_round_trip(v: NumParserPropsView<T::V>, rest: Seq<u8>) {
        let e0 = u8::encode(flag_pair(v.min is Some, v.max is Some));
        let e1 = if_given::<T>(v.min);
        let e2 = if_given::<T>(v.max);
        let data = Self::encode(v) + rest;
        let t3 = rest;
        let t2 = e2 + t3;
        let t1 = e1 + t2;
        let t0 = e0 + t1;
        let l0 = e0;
        let l1 = l0 + e1;
        let l2 = l1 + e2;
        lemma_concat_assoc(l1, e2, t3);
        lemma_concat_assoc(l0, e1, t2);
        assert(data == t0);
        u8::lemma_round_trip(flag_pair(v.min is Some, v.max is Some), t1);
        lemma_skip_concat(e0, t1);
        lemma_if_given_round_trip::<T>(v.min, t2);
        lemma_skip_more(data, (e0.len()) as int, e1, t2);
        lemma_if_given_round_trip::<T>(v.max, t3);
        lemma_skip_more(data, (e0.len() + e1.len()) as int, e2, t3);
    }
}

/// The bounds of a 64-bit float argument, each held as its bit pattern.
pub type DoubleParserProps = NumParserProps<u64>;

/// The bounds of a 32-bit float argument, each held as its bit pattern.
pub type FloatParserProps = NumParserProps<u32>;

/// The bounds of a whole number argument.
pub type IntegerParserProps = NumParserProps<i32>;

/// The kind of an argument of a command, with what the kind needs to know.
#[derive(PartialEq, Clone, Debug)]
pub enum CommandParserSpec {
    Bool,
    Double(DoubleParserProps),
    Float(FloatParserProps),
    Integer(IntegerParserProps),
    StringParser(StringParserMode),
    Entity(EntityParserFlags),
    GameProfile,
    BlockPosition,
    ColumnPosition,
    Vec3,
    Vec2,
    BlockState,
    BlockPredicate,
    ItemStack,
    ItemPredicate,
    Color,
    Component,
    Message,
    Nbt,
    NbtPath,
    Objective,
    ObjectiveCriteria,
    Operation,
    Particle,
    Rotation,
    Angle,
    ScoreboardSlot,
    ScoreHolder(ScoreHolderFlags),
    Swizzle,
    Team,
    ItemSlot,
    ResourceLocation,
    MobEffect,
    Function,
    EntityAnchor,
    Range(RangeParserProps),
    IntRange,
    FloatRange,
    ItemEnchantment,
    EntitySummon,
    Dimension,
    UUID,
    NbtTag,
    NbtCompoundTag,
    Time,
}

/// The mathematical content of a [`CommandParserSpec`].
pub enum CommandParserSpecView {
    Bool,
    Double(<DoubleParserProps as DeepView>::V),
    Float(<FloatParserProps as DeepView>::V),
    Integer(<IntegerParserProps as DeepView>::V),
    StringParser(<StringParserMode as DeepView>::V),
    Entity(<EntityParserFlags as DeepView>::V),
    GameProfile,
    BlockPosition,
    ColumnPosition,
    Vec3,
    Vec2,
    BlockState,
    BlockPredicate,
    ItemStack,
    ItemPredicate,
    Color,
    Component,
    Message,
    Nbt,
    NbtPath,
    Objective,
    ObjectiveCriteria,
    Operation,
    Particle,
    Rotation,
    Angle,
    ScoreboardSlot,
    ScoreHolder(<ScoreHolderFlags as DeepView>::V),
    Swizzle,
    Team,
    ItemSlot,
    ResourceLocation,
    MobEffect,
    Function,
    EntityAnchor,
    Range(<RangeParserProps as DeepView>::V),
    IntRange,
    FloatRange,
    ItemEnchantment,
    EntitySummon,
    Dimension,
    UUID,
    NbtTag,
    NbtCompoundTag,
    Time,
}

impl DeepView for CommandParserSpec {
    type V = CommandParserSpecView;

    open spec fn deep_view(&self) -> CommandParserSpecView {
        match self {
            CommandParserSpec::Bool => CommandParserSpecView::Bool,
            CommandParserSpec::Double(body) => CommandParserSpecView::Double(body.deep_view()),
            CommandParserSpec::Float(body) => CommandParserSpecView::Float(body.deep_view()),
            CommandParserSpec::Integer(body) => CommandParserSpecView::Integer(body.deep_view()),
            CommandParserSpec::StringParser(body) => CommandParserSpecView::StringParser(body.deep_view()),
            CommandParserSpec::Entity(body) => CommandParserSpecView::Entity(body.deep_view()),
            CommandParserSpec::GameProfile => CommandParserSpecView::GameProfile,
            CommandParserSpec::BlockPosition => CommandParserSpecView::BlockPosition,
            CommandParserSpec::ColumnPosition => CommandParserSpecView::ColumnPosition,
            CommandParserSpec::Vec3 => CommandParserSpecView::Vec3,
            CommandParserSpec::Vec2 => CommandParserSpecView::Vec2,
            CommandParserSpec::BlockState => CommandParserSpecView::BlockState,
            CommandParserSpec::BlockPredicate => CommandParserSpecView::BlockPredicate,
            CommandParserSpec::ItemStack => CommandParserSpecView::ItemStack,
            CommandParserSpec::ItemPredicate => CommandParserSpecView::ItemPredicate,
            CommandParserSpec::Color => CommandParserSpecView::Color,
            CommandParserSpec::Component => CommandParserSpecView::Component,
            CommandParserSpec::Message => CommandParserSpecView::Message,
            CommandParserSpec::Nbt => CommandParserSpecView::Nbt,
            CommandParserSpec::NbtPath => CommandParserSpecView::NbtPath,
            CommandParserSpec::Objective => CommandParserSpecView::Objective,
            CommandParserSpec::ObjectiveCriteria => CommandParserSpecView::ObjectiveCriteria,
            CommandParserSpec::Operation => CommandParserSpecView::Operation,
            CommandParserSpec::Particle => CommandParserSpecView::Particle,
            CommandParserSpec::Rotation => CommandParserSpecView::Rotation,
            CommandParserSpec::Angle => CommandParserSpecView::Angle,
            CommandParserSpec::ScoreboardSlot => CommandParserSpecView::ScoreboardSlot,
            CommandParserSpec::ScoreHolder(body) => CommandParserSpecView::ScoreHolder(body.deep_view()),
            CommandParserSpec::Swizzle => CommandParserSpecView::Swizzle,
            CommandParserSpec::Team => CommandParserSpecView::Team,
            CommandParserSpec::ItemSlot => CommandParserSpecView::ItemSlot,
            CommandParserSpec::ResourceLocation => CommandParserSpecView::ResourceLocation,
            CommandParserSpec::MobEffect => CommandParserSpecView::MobEffect,
            CommandParserSpec::Function => CommandParserSpecView::Function,
            CommandParserSpec::EntityAnchor => CommandParserSpecView::EntityAnchor,
            CommandParserSpec::Range(body) => CommandParserSpecView::Range(body.deep_view()),
            CommandParserSpec::IntRange => CommandParserSpecView::IntRange,
            CommandParserSpec::FloatRange => CommandParserSpecView::FloatRange,
            CommandParserSpec::ItemEnchantment => CommandParserSpecView::ItemEnchantment,
            CommandParserSpec::EntitySummon => CommandParserSpecView::EntitySummon,
            CommandParserSpec::Dimension => CommandParserSpecView::Dimension,
            CommandParserSpec::UUID => CommandParserSpecView::UUID,
            CommandParserSpec::NbtTag => CommandParserSpecView::NbtTag,
            CommandParserSpec::NbtCompoundTag => CommandParserSpecView::NbtCompoundTag,
            CommandParserSpec::Time => CommandParserSpecView::Time,
        }
    }
}

impl CommandParserSpec {
    pub fn variant_count() -> (r: usize)
        ensures
            r == 45,
    {
        45
    }

    /// The text that stands for the variant on the wire.
    pub open spec fn name_of(v: CommandParserSpecView) -> Seq<char> {
        match v {
            CommandParserSpecView::Bool => "brigadier:bool"@,
            CommandParserSpecView::Double(_) => "brigadier:double"@,
            CommandParserSpecView::Float(_) => "brigadier:float"@,
            CommandParserSpecView::Integer(_) => "brigadier:integer"@,
            CommandParserSpecView::StringParser(_) => "brigadier:string"@,
            CommandParserSpecView::Entity(_) => "minecraft:entity"@,
            CommandParserSpecView::GameProfile => "minecraft:game_profile"@,
            CommandParserSpecView::BlockPosition => "minecraft:block_pos"@,
            CommandParserSpecView::ColumnPosition => "minecraft:column_pos"@,
            CommandParserSpecView::Vec3 => "minecraft:vec3"@,
            CommandParserSpecView::Vec2 => "minecraft:vec2"@,
            CommandParserSpecView::BlockState => "minecraft:block_state"@,
            CommandParserSpecView::BlockPredicate => "minecraft:block_predicate"@,
            CommandParserSpecView::ItemStack => "minecraft:item_stack"@,
            CommandParserSpecView::ItemPredicate => "minecraft:item_predicate"@,
            CommandParserSpecView::Color => "minecraft:color"@,
            CommandParserSpecView::Component => "minecraft:component"@,
            CommandParserSpecView::Message => "minecraft:message"@,
            CommandParserSpecView::Nbt => "minecraft:nbt"@,
            CommandParserSpecView::NbtPath => "minecraft:nbt_path"@,
            CommandParserSpecView::Objective => "minecraft:objective"@,
            CommandParserSpecView::ObjectiveCriteria => "minecraft:objective_criteria"@,
            CommandParserSpecView::Operation => "minecraft:operation"@,
            CommandParserSpecView::Particle => "minecraft:particle"@,
            CommandParserSpecView::Rotation => "minecraft:rotation"@,
            CommandParserSpecView::Angle => "minecraft:angle"@,
            CommandParserSpecView::ScoreboardSlot => "minecraft:scoreboard_slot"@,
            CommandParserSpecView::ScoreHolder(_) => "minecraft:score_holder"@,
            CommandParserSpecView::Swizzle => "minecraft:swizzle"@,
            CommandParserSpecView::Team => "minecraft:team"@,
            CommandParserSpecView::ItemSlot => "minecraft:item_slot"@,
            CommandParserSpecView::ResourceLocation => "minecraft:resource_location"@,
            CommandParserSpecView::MobEffect => "minecraft:mob_effect"@,
            CommandParserSpecView::Function => "minecraft:function"@,
            CommandParserSpecView::EntityAnchor => "minecraft:entity_anchor"@,
            CommandParserSpecView::Range(_) => "minecraft:range"@,
            CommandParserSpecView::IntRange => "minecraft:int_range"@,
            CommandParserSpecView::FloatRange => "minecraft:float_range"@,
            CommandParserSpecView::ItemEnchantment => "minecraft:item_enchantment"@,
            CommandParserSpecView::EntitySummon => "minecraft:entity_summon"@,
            CommandParserSpecView::Dimension => "minecraft:dimension"@,
            CommandParserSpecView::UUID => "minecraft:uuid"@,
            CommandParserSpecView::NbtTag => "minecraft:nbt_tag"@,
            CommandParserSpecView::NbtCompoundTag => "minecraft:nbt_compound_tag"@,
            CommandParserSpecView::Time => "minecraft:time"@,
        }
    }

    pub fn name(&self) -> (r: &'static str)
        ensures
            r@ == Self::name_of(self.deep_view()),
    {
        match self {
            CommandParserSpec::Bool => "brigadier:bool",
            CommandParserSpec::Double(_) => "brigadier:double",
            CommandParserSpec::Float(_) => "brigadier:float",
            CommandParserSpec::Integer(_) => "brigadier:integer",
            CommandParserSpec::StringParser(_) => "brigadier:string",
            CommandParserSpec::Entity(_) => "minecraft:entity",
            CommandParserSpec::GameProfile => "minecraft:game_profile",
            CommandParserSpec::BlockPosition => "minecraft:block_pos",
            CommandParserSpec::ColumnPosition => "minecraft:column_pos",
            CommandParserSpec::Vec3 => "minecraft:vec3",
            CommandParserSpec::Vec2 => "minecraft:vec2",
            CommandParserSpec::BlockState => "minecraft:block_state",
            CommandParserSpec::BlockPredicate => "minecraft:block_predicate",
            CommandParserSpec::ItemStack => "minecraft:item_stack",
            CommandParserSpec::ItemPredicate => "minecraft:item_predicate",
            CommandParserSpec::Color => "minecraft:color",
            CommandParserSpec::Component => "minecraft:component",
            CommandParserSpec::Message => "minecraft:message",
            CommandParserSpec::Nbt => "minecraft:nbt",
            CommandParserSpec::NbtPath => "minecraft:nbt_path",
            CommandParserSpec::Objective => "minecraft:objective",
            CommandParserSpec::ObjectiveCriteria => "minecraft:objective_criteria",
            CommandParserSpec::Operation => "minecraft:operation",
            CommandParserSpec::Particle => "minecraft:particle",
            CommandParserSpec::Rotation => "minecraft:rotation",
            CommandParserSpec::Angle => "minecraft:angle",
            CommandParserSpec::ScoreboardSlot => "minecraft:scoreboard_slot",
            CommandParserSpec::ScoreHolder(_) => "minecraft:score_holder",
            CommandParserSpec::Swizzle => "minecraft:swizzle",
            CommandParserSpec::Team => "minecraft:team",
            CommandParserSpec::ItemSlot => "minecraft:item_slot",
            CommandParserSpec::ResourceLocation => "minecraft:resource_location",
            CommandParserSpec::MobEffect => "minecraft:mob_effect",
            CommandParserSpec::Function => "minecraft:function",
            CommandParserSpec::EntityAnchor => "minecraft:entity_anchor",
            CommandParserSpec::Range(_) => "minecraft:range",
            CommandParserSpec::IntRange => "minecraft:int_range",
            CommandParserSpec::FloatRange => "minecraft:float_range",
            CommandParserSpec::ItemEnchantment => "minecraft:item_enchantment",
            CommandParserSpec::EntitySummon => "minecraft:entity_summon",
            CommandParserSpec::Dimension => "minecraft:dimension",
            CommandParserSpec::UUID => "minecraft:uuid",
            CommandParserSpec::NbtTag => "minecraft:nbt_tag",
            CommandParserSpec::NbtCompoundTag => "minecraft:nbt_compound_tag",
            CommandParserSpec::Time => "minecraft:time",
        }
    }

    pub fn id(&self) -> (r: String)
        ensures
            r@ == Self::name_of(self.deep_view()),
    {
        self.name().to_owned()
    }

    /// The bytes that follow the text.
    pub open spec fn body_of(v: CommandParserSpecView) -> Seq<u8> {
        match v {
            CommandParserSpecView::Bool => Seq::empty(),
            CommandParserSpecView::Double(body) => <DoubleParserProps>::encode(body),
            CommandParserSpecView::Float(body) => <FloatParserProps>::encode(body),
            CommandParserSpecView::Integer(body) => <IntegerParserProps>::encode(body),
            CommandParserSpecView::StringParser(body) => <StringParserMode>::encode(body),
            CommandParserSpecView::Entity(body) => <EntityParserFlags>::encode(body),
            CommandParserSpecView::GameProfile => Seq::empty(),
            CommandParserSpecView::BlockPosition => Seq::empty(),
            CommandParserSpecView::ColumnPosition => Seq::empty(),
            CommandParserSpecView::Vec3 => Seq::empty(),
            CommandParserSpecView::Vec2 => Seq::empty(),
            CommandParserSpecView::BlockState => Seq::empty(),
            CommandParserSpecView::BlockPredicate => Seq::empty(),
            CommandParserSpecView::ItemStack => Seq::empty(),
            CommandParserSpecView::ItemPredicate => Seq::empty(),
            CommandParserSpecView::Color => Seq::empty(),
            CommandParserSpecView::Component => Seq::empty(),
            CommandParserSpecView::Message => Seq::empty(),
            CommandParserSpecView::Nbt => Seq::empty(),
            CommandParserSpecView::NbtPath => Seq::empty(),
            CommandParserSpecView::Objective => Seq::empty(),
            CommandParserSpecView::ObjectiveCriteria => Seq::empty(),
            CommandParserSpecView::Operation => Seq::empty(),
            CommandParserSpecView::Particle => Seq::empty(),
            CommandParserSpecView::Rotation => Seq::empty(),
            CommandParserSpecView::Angle => Seq::empty(),
            CommandParserSpecView::ScoreboardSlot => Seq::empty(),
            CommandParserSpecView::ScoreHolder(body) => <ScoreHolderFlags>::encode(body),
            CommandParserSpecView::Swizzle => Seq::empty(),
            CommandParserSpecView::Team => Seq::empty(),
            CommandParserSpecView::ItemSlot => Seq::empty(),
            CommandParserSpecView::ResourceLocation => Seq::empty(),
            CommandParserSpecView::MobEffect => Seq::empty(),
            CommandParserSpecView::Function => Seq::empty(),
            CommandParserSpecView::EntityAnchor => Seq::empty(),
            CommandParserSpecView::Range(body) => <RangeParserProps>::encode(body),
            CommandParserSpecView::IntRange => Seq::empty(),
            CommandParserSpecView::FloatRange => Seq::empty(),
            CommandParserSpecView::ItemEnchantment => Seq::empty(),
            CommandParserSpecView::EntitySummon => Seq::empty(),
            CommandParserSpecView::Dimension => Seq::empty(),
            CommandParserSpecView::UUID => Seq::empty(),
            CommandParserSpecView::NbtTag => Seq::empty(),
            CommandParserSpecView::NbtCompoundTag => Seq::empty(),
            CommandParserSpecView::Time => Seq::empty(),
        }
    }

    /// Whether what follows the text can be written.
    pub open spec fn body_writable(v: CommandParserSpecView) -> bool {
        match v {
            CommandParserSpecView::Bool => true,
            CommandParserSpecView::Double(body) => <DoubleParserProps>::serializable(body),
            CommandParserSpecView::Float(body) => <FloatParserProps>::serializable(body),
            CommandParserSpecView::Integer(body) => <IntegerParserProps>::serializable(body),
            CommandParserSpecView::StringParser(body) => <StringParserMode>::serializable(body),
            CommandParserSpecView::Entity(body) => <EntityParserFlags>::serializable(body),
            CommandParserSpecView::GameProfile => true,
            CommandParserSpecView::BlockPosition => true,
            CommandParserSpecView::ColumnPosition => true,
            CommandParserSpecView::Vec3 => true,
            CommandParserSpecView::Vec2 => true,
            CommandParserSpecView::BlockState => true,
            CommandParserSpecView::BlockPredicate => true,
            CommandParserSpecView::ItemStack => true,
            CommandParserSpecView::ItemPredicate => true,
            CommandParserSpecView::Color => true,
            CommandParserSpecView::Component => true,
            CommandParserSpecView::Message => true,
            CommandParserSpecView::Nbt => true,
            CommandParserSpecView::NbtPath => true,
            CommandParserSpecView::Objective => true,
            CommandParserSpecView::ObjectiveCriteria => true,
            CommandParserSpecView::Operation => true,
            CommandParserSpecView::Particle => true,
            CommandParserSpecView::Rotation => true,
            CommandParserSpecView::Angle => true,
            CommandParserSpecView::ScoreboardSlot => true,
            CommandParserSpecView::ScoreHolder(body) => <ScoreHolderFlags>::serializable(body),
            CommandParserSpecView::Swizzle => true,
            CommandParserSpecView::Team => true,
            CommandParserSpecView::ItemSlot => true,
            CommandParserSpecView::ResourceLocation => true,
            CommandParserSpecView::MobEffect => true,
            CommandParserSpecView::Function => true,
            CommandParserSpecView::EntityAnchor => true,
            CommandParserSpecView::Range(body) => <RangeParserProps>::serializable(body),
            CommandParserSpecView::IntRange => true,
            CommandParserSpecView::FloatRange => true,
            CommandParserSpecView::ItemEnchantment => true,
            CommandParserSpecView::EntitySummon => true,
            CommandParserSpecView::Dimension => true,
            CommandParserSpecView::UUID => true,
            CommandParserSpecView::NbtTag => true,
            CommandParserSpecView::NbtCompoundTag => true,
            CommandParserSpecView::Time => true,
        }
    }

    /// The variant that `name` stands for, with its body read from `data`.
    pub open spec fn decode_with_id(name: Seq<char>, data: Seq<u8>) -> Decoded<CommandParserSpecView> {
        if name == "brigadier:bool"@ {
            Ok((CommandParserSpecView::Bool, 0))
        } else if name == "brigadier:double"@ {
            match <DoubleParserProps>::decode(data) {
                Ok((body, n)) => Ok((CommandParserSpecView::Double(body), n)),
                Err(e) => Err(e),
            }
        } else if name == "brigadier:float"@ {
            match <FloatParserProps>::decode(data) {
                Ok((body, n)) => Ok((CommandParserSpecView::Float(body), n)),
                Err(e) => Err(e),
            }
        } else if name == "brigadier:integer"@ {
            match <IntegerParserProps>::decode(data) {
                Ok((body, n)) => Ok((CommandParserSpecView::Integer(body), n)),
                Err(e) => Err(e),
            }
        } else if name == "brigadier:string"@ {
            match <StringParserMode>::decode(data) {
                Ok((body, n)) => Ok((CommandParserSpecView::StringParser(body), n)),
                Err(e) => Err(e),
            }
        } else if name == "minecraft:entity"@ {
            match <EntityParserFlags>::decode(data) {
                Ok((body, n)) => Ok((CommandParserSpecView::Entity(body), n)),
                Err(e) => Err(e),
            }
        } else if name == "minecraft:game_profile"@ {
            Ok((CommandParserSpecView::GameProfile, 0))
        } else if name == "minecraft:block_pos"@ {
            Ok((CommandParserSpecView::BlockPosition, 0))
        } else if name == "minecraft:column_pos"@ {
            Ok((CommandParserSpecView::ColumnPosition, 0))
        } else if name == "minecraft:vec3"@ {
            Ok((CommandParserSpecView::Vec3, 0))
        } else if name == "minecraft:vec2"@ {
            Ok((CommandParserSpecView::Vec2, 0))
        } else if name == "minecraft:block_state"@ {
            Ok((CommandParserSpecView::BlockState, 0))
        } else if name == "minecraft:block_predicate"@ {
            Ok((CommandParserSpecView::BlockPredicate, 0))
        } else if name == "minecraft:item_stack"@ {
            Ok((CommandParserSpecView::ItemStack, 0))
        } else if name == "minecraft:item_predicate"@ {
            Ok((CommandParserSpecView::ItemPredicate, 0))
        } else if name == "minecraft:color"@ {
            Ok((CommandParserSpecView::Color, 0))
        } else if name == "minecraft:component"@ {
            Ok((CommandParserSpecView::Component, 0))
        } else if name == "minecraft:message"@ {
            Ok((CommandParserSpecView::Message, 0))
        } else if name == "minecraft:nbt"@ {
            Ok((CommandParserSpecView::Nbt, 0))
        } else if name == "minecraft:nbt_path"@ {
            Ok((CommandParserSpecView::NbtPath, 0))
        } else if name == "minecraft:objective"@ {
            Ok((CommandParserSpecView::Objective, 0))
        } else if name == "minecraft:objective_criteria"@ {
            Ok((CommandParserSpecView::ObjectiveCriteria, 0))
        } else if name == "minecraft:operation"@ {
            Ok((CommandParserSpecView::Operation, 0))
        } else if name == "minecraft:particle"@ {
            Ok((CommandParserSpecView::Particle, 0))
        } else if name == "minecraft:rotation"@ {
            Ok((CommandParserSpecView::Rotation, 0))
        } else if name == "minecraft:angle"@ {
            Ok((CommandParserSpecView::Angle, 0))
        } else if name == "minecraft:scoreboard_slot"@ {
            Ok((CommandParserSpecView::ScoreboardSlot, 0))
        } else if name == "minecraft:score_holder"@ {
            match <ScoreHolderFlags>::decode(data) {
                Ok((body, n)) => Ok((CommandParserSpecView::ScoreHolder(body), n)),
                Err(e) => Err(e),
            }
        } else if name == "minecraft:swizzle"@ {
            Ok((CommandParserSpecView::Swizzle, 0))
        } else if name == "minecraft:team"@ {
            Ok((CommandParserSpecView::Team, 0))
        } else if name == "minecraft:item_slot"@ {
            Ok((CommandParserSpecView::ItemSlot, 0))
        } else if name == "minecraft:resource_location"@ {
            Ok((CommandParserSpecView::ResourceLocation, 0))
        } else if name == "minecraft:mob_effect"@ {
            Ok((CommandParserSpecView::MobEffect, 0))
        } else if name == "minecraft:function"@ {
            Ok((CommandParserSpecView::Function, 0))
        } else if name == "minecraft:entity_anchor"@ {
            Ok((CommandParserSpecView::EntityAnchor, 0))
        } else if name == "minecraft:range"@ {
            match <RangeParserProps>::decode(data) {
                Ok((body, n)) => Ok((CommandParserSpecView::Range(body), n)),
                Err(e) => Err(e),
            }
        } else if name == "minecraft:int_range"@ {
            Ok((CommandParserSpecView::IntRange, 0))
        } else if name == "minecraft:float_range"@ {
            Ok((CommandParserSpecView::FloatRange, 0))
        } else if name == "minecraft:item_enchantment"@ {
            Ok((CommandParserSpecView::ItemEnchantment, 0))
        } else if name == "minecraft:entity_summon"@ {
            Ok((CommandParserSpecView::EntitySummon, 0))
        } else if name == "minecraft:dimension"@ {
            Ok((CommandParserSpecView::Dimension, 0))
        } else if name == "minecraft:uuid"@ {
            Ok((CommandParserSpecView::UUID, 0))
        } else if name == "minecraft:nbt_tag"@ {
            Ok((CommandParserSpecView::NbtTag, 0))
        } else if name == "minecraft:nbt_compound_tag"@ {
            Ok((CommandParserSpecView::NbtCompoundTag, 0))
        } else if name == "minecraft:time"@ {
            Ok((CommandParserSpecView::Time, 0))
        } else {
            Err(DecodeFailure::CannotUnderstandValue)
        }
    }

    /// Whether `name` stands for a variant.
    pub open spec fn has_name(name: Seq<char>) -> bool {
        name == "brigadier:bool"@
            || name == "brigadier:double"@
            || name == "brigadier:float"@
            || name == "brigadier:integer"@
            || name == "brigadier:string"@
            || name == "minecraft:entity"@
            || name == "minecraft:game_profile"@
            || name == "minecraft:block_pos"@
            || name == "minecraft:column_pos"@
            || name == "minecraft:vec3"@
            || name == "minecraft:vec2"@
            || name == "minecraft:block_state"@
            || name == "minecraft:block_predicate"@
            || name == "minecraft:item_stack"@
            || name == "minecraft:item_predicate"@
            || name == "minecraft:color"@
            || name == "minecraft:component"@
            || name == "minecraft:message"@
            || name == "minecraft:nbt"@
            || name == "minecraft:nbt_path"@
            || name == "minecraft:objective"@
            || name == "minecraft:objective_criteria"@
            || name == "minecraft:operation"@
            || name == "minecraft:particle"@
            || name == "minecraft:rotation"@
            || name == "minecraft:angle"@
            || name == "minecraft:scoreboard_slot"@
            || name == "minecraft:score_holder"@
            || name == "minecraft:swizzle"@
            || name == "minecraft:team"@
            || name == "minecraft:item_slot"@
            || name == "minecraft:resource_location"@
            || name == "minecraft:mob_effect"@
            || name == "minecraft:function"@
            || name == "minecraft:entity_anchor"@
            || name == "minecraft:range"@
            || name == "minecraft:int_range"@
            || name == "minecraft:float_range"@
            || name == "minecraft:item_enchantment"@
            || name == "minecraft:entity_summon"@
            || name == "minecraft:dimension"@
            || name == "minecraft:uuid"@
            || name == "minecraft:nbt_tag"@
            || name == "minecraft:nbt_compound_tag"@
            || name == "minecraft:time"@
    }

    /// Picks the variant for `name` and reads its body from `data`. A text
    /// that stands for no variant is refused, and the error says which.
    pub fn deserialize_with_id<'a>(name: &str, data: &'a [u8]) -> (r: DeserializeResult<'a, Self>)
        ensures
            agrees(r, data@, Self::decode_with_id(name@, data@)),
            !Self::has_name(name@) ==> (r matches Err(DeserializeErr::CannotUnderstandValue(m))
                && m@ == invalid_ident_text("CommandParserSpec"@, name@)),
    {
        proof {
            assert(data@.skip(0) =~= data@);
        }
        if same_text(name, "brigadier:bool") {
            Ok(Deserialized { value: CommandParserSpec::Bool, data })
        } else if same_text(name, "brigadier:double") {
            let Deserialized { value: body, data: rest } = <DoubleParserProps>::mc_deserialize(data)?;
            Ok(Deserialized { value: CommandParserSpec::Double(body), data: rest })
        } else if same_text(name, "brigadier:float") {
            let Deserialized { value: body, data: rest } = <FloatParserProps>::mc_deserialize(data)?;
            Ok(Deserialized { value: CommandParserSpec::Float(body), data: rest })
        } else if same_text(name, "brigadier:integer") {
            let Deserialized { value: body, data: rest } = <IntegerParserProps>::mc_deserialize(data)?;
            Ok(Deserialized { value: CommandParserSpec::Integer(body), data: rest })
        } else if same_text(name, "brigadier:string") {
            let Deserialized { value: body, data: rest } = <StringParserMode>::mc_deserialize(data)?;
            Ok(Deserialized { value: CommandParserSpec::StringParser(body), data: rest })
        } else if same_text(name, "minecraft:entity") {
            let Deserialized { value: body, data: rest } = <EntityParserFlags>::mc_deserialize(data)?;
            Ok(Deserialized { value: CommandParserSpec::Entity(body), data: rest })
        } else if same_text(name, "minecraft:game_profile") {
            Ok(Deserialized { value: CommandParserSpec::GameProfile, data })
        } else if same_text(name, "minecraft:block_pos") {
            Ok(Deserialized { value: CommandParserSpec::BlockPosition, data })
        } else if same_text(name, "minecraft:column_pos") {
            Ok(Deserialized { value: CommandParserSpec::ColumnPosition, data })
        } else if same_text(name, "minecraft:vec3") {
            Ok(Deserialized { value: CommandParserSpec::Vec3, data })
        } else if same_text(name, "minecraft:vec2") {
            Ok(Deserialized { value: CommandParserSpec::Vec2, data })
        } else if same_text(name, "minecraft:block_state") {
            Ok(Deserialized { value: CommandParserSpec::BlockState, data })
        } else if same_text(name, "minecraft:block_predicate") {
            Ok(Deserialized { value: CommandParserSpec::BlockPredicate, data })
        } else if same_text(name, "minecraft:item_stack") {
            Ok(Deserialized { value: CommandParserSpec::ItemStack, data })
        } else if same_text(name, "minecraft:item_predicate") {
            Ok(Deserialized { value: CommandParserSpec::ItemPredicate, data })
        } else if same_text(name, "minecraft:color") {
            Ok(Deserialized { value: CommandParserSpec::Color, data })
        } else if same_text(name, "minecraft:component") {
            Ok(Deserialized { value: CommandParserSpec::Component, data })
        } else if same_text(name, "minecraft:message") {
            Ok(Deserialized { value: CommandParserSpec::Message, data })
        } else if same_text(name, "minecraft:nbt") {
            Ok(Deserialized { value: CommandParserSpec::Nbt, data })
        } else if same_text(name, "minecraft:nbt_path") {
            Ok(Deserialized { value: CommandParserSpec::NbtPath, data })
        } else if same_text(name, "minecraft:objective") {
            Ok(Deserialized { value: CommandParserSpec::Objective, data })
        } else if same_text(name, "minecraft:objective_criteria") {
            Ok(Deserialized { value: CommandParserSpec::ObjectiveCriteria, data })
        } else if same_text(name, "minecraft:operation") {
            Ok(Deserialized { value: CommandParserSpec::Operation, data })
        } else if same_text(name, "minecraft:particle") {
            Ok(Deserialized { value: CommandParserSpec::Particle, data })
        } else if same_text(name, "minecraft:rotation") {
            Ok(Deserialized { value: CommandParserSpec::Rotation, data })
        } else if same_text(name, "minecraft:angle") {
            Ok(Deserialized { value: CommandParserSpec::Angle, data })
        } else if same_text(name, "minecraft:scoreboard_slot") {
            Ok(Deserialized { value: CommandParserSpec::ScoreboardSlot, data })
        } else if same_text(name, "minecraft:score_holder") {
            let Deserialized { value: body, data: rest } = <ScoreHolderFlags>::mc_deserialize(data)?;
            Ok(Deserialized { value: CommandParserSpec::ScoreHolder(body), data: rest })
        } else if same_text(name, "minecraft:swizzle") {
            Ok(Deserialized { value: CommandParserSpec::Swizzle, data })
        } else if same_text(name, "minecraft:team") {
            Ok(Deserialized { value: CommandParserSpec::Team, data })
        } else if same_text(name, "minecraft:item_slot") {
            Ok(Deserialized { value: CommandParserSpec::ItemSlot, data })
        } else if same_text(name, "minecraft:resource_location") {
            Ok(Deserialized { value: CommandParserSpec::ResourceLocation, data })
        } else if same_text(name, "minecraft:mob_effect") {
            Ok(Deserialized { value: CommandParserSpec::MobEffect, data })
        } else if same_text(name, "minecraft:function") {
            Ok(Deserialized { value: CommandParserSpec::Function, data })
        } else if same_text(name, "minecraft:entity_anchor") {
            Ok(Deserialized { value: CommandParserSpec::EntityAnchor, data })
        } else if same_text(name, "minecraft:range") {
            let Deserialized { value: body, data: rest } = <RangeParserProps>::mc_deserialize(data)?;
            Ok(Deserialized { value: CommandParserSpec::Range(body), data: rest })
        } else if same_text(name, "minecraft:int_range") {
            Ok(Deserialized { value: CommandParserSpec::IntRange, data })
        } else if same_text(name, "minecraft:float_range") {
            Ok(Deserialized { value: CommandParserSpec::FloatRange, data })
        } else if same_text(name, "minecraft:item_enchantment") {
            Ok(Deserialized { value: CommandParserSpec::ItemEnchantment, data })
        } else if same_text(name, "minecraft:entity_summon") {
            Ok(Deserialized { value: CommandParserSpec::EntitySummon, data })
        } else if same_text(name, "minecraft:dimension") {
            Ok(Deserialized { value: CommandParserSpec::Dimension, data })
        } else if same_text(name, "minecraft:uuid") {
            Ok(Deserialized { value: CommandParserSpec::UUID, data })
        } else if same_text(name, "minecraft:nbt_tag") {
            Ok(Deserialized { value: CommandParserSpec::NbtTag, data })
        } else if same_text(name, "minecraft:nbt_compound_tag") {
            Ok(Deserialized { value: CommandParserSpec::NbtCompoundTag, data })
        } else if same_text(name, "minecraft:time") {
            Ok(Deserialized { value: CommandParserSpec::Time, data })
        } else {
            Err(DeserializeErr::CannotUnderstandValue(invalid_ident_message("CommandParserSpec", name)))
        }
    }

    /// Writes what follows the text.
    pub fn serialize_body<S: Serializer>(&self, to: &mut S) -> (r: SerializeResult)
        ensures
            r is Ok ==> Self::body_writable(self.deep_view()) && final(to).written() == old(
                to,
            ).written() + Self::body_of(self.deep_view()),
            old(to).infallible() ==> final(to).infallible(),
            old(to).infallible() ==> (r is Ok <==> Self::body_writable(self.deep_view())),
            old(to).infallible() && r is Err ==> (r matches Err(SerializeErr::CannotSerialize(_))),
    {
        match self {
            CommandParserSpec::Bool => {
                proof {
                    assert(old(to).written() + Seq::<u8>::empty() =~= old(to).written());
                }
                Ok(())
            },
            CommandParserSpec::Double(bod) => bod.mc_serialize(to),
            CommandParserSpec::Float(bod) => bod.mc_serialize(to),
            CommandParserSpec::Integer(bod) => bod.mc_serialize(to),
            CommandParserSpec::StringParser(bod) => bod.mc_serialize(to),
            CommandParserSpec::Entity(bod) => bod.mc_serialize(to),
            CommandParserSpec::GameProfile => {
                proof {
                    assert(old(to).written() + Seq::<u8>::empty() =~= old(to).written());
                }
                Ok(())
            },
            CommandParserSpec::BlockPosition => {
                proof {
                    assert(old(to).written() + Seq::<u8>::empty() =~= old(to).written());
                }
                Ok(())
            },
            CommandParserSpec::ColumnPosition => {
                proof {
                    assert(old(to).written() + Seq::<u8>::empty() =~= old(to).written());
                }
                Ok(())
            },
            CommandParserSpec::Vec3 => {
                proof {
                    assert(old(to).written() + Seq::<u8>::empty() =~= old(to).written());
                }
                Ok(())
            },
            CommandParserSpec::Vec2 => {
                proof {
                    assert(old(to).written() + Seq::<u8>::empty() =~= old(to).written());
                }
                Ok(())
            },
            CommandParserSpec::BlockState => {
                proof {
                    assert(old(to).written() + Seq::<u8>::empty() =~= old(to).written());
                }
                Ok(())
            },
            CommandParserSpec::BlockPredicate => {
                proof {
                    assert(old(to).written() + Seq::<u8>::empty() =~= old(to).written());
                }
                Ok(())
            },
            CommandParserSpec::ItemStack => {
                proof {
                    assert(old(to).written() + Seq::<u8>::empty() =~= old(to).written());
                }
                Ok(())
            },
            CommandParserSpec::ItemPredicate => {
                proof {
                    assert(old(to).written() + Seq::<u8>::empty() =~= old(to).written());
                }
                Ok(())
            },
            CommandParserSpec::Color => {
                proof {
                    assert(old(to).written() + Seq::<u8>::empty() =~= old(to).written());
                }
                Ok(())
            },
            CommandParserSpec::Component => {
                proof {
                    assert(old(to).written() + Seq::<u8>::empty() =~= old(to).written());
                }
                Ok(())
            },
            CommandParserSpec::Message => {
                proof {
                    assert(old(to).written() + Seq::<u8>::empty() =~= old(to).written());
                }
                Ok(())
            },
            CommandParserSpec::Nbt => {
                proof {
                    assert(old(to).written() + Seq::<u8>::empty() =~= old(to).written());
                }
                Ok(())
            },
            CommandParserSpec::NbtPath => {
                proof {
                    assert(old(to).written() + Seq::<u8>::empty() =~= old(to).written());
                }
                Ok(())
            },
            CommandParserSpec::Objective => {
                proof {
                    assert(old(to).written() + Seq::<u8>::empty() =~= old(to).written());
                }
                Ok(())
            },
            CommandParserSpec::ObjectiveCriteria => {
                proof {
                    assert(old(to).written() + Seq::<u8>::empty() =~= old(to).written());
                }
                Ok(())
            },
            CommandParserSpec::Operation => {
                proof {
                    assert(old(to).written() + Seq::<u8>::empty() =~= old(to).written());
                }
                Ok(())
            },
            CommandParserSpec::Particle => {
                proof {
                    assert(old(to).written() + Seq::<u8>::empty() =~= old(to).written());
                }
                Ok(())
            },
            CommandParserSpec::Rotation => {
                proof {
                    assert(old(to).written() + Seq::<u8>::empty() =~= old(to).written());
                }
                Ok(())
            },
            CommandParserSpec::Angle => {
                proof {
                    assert(old(to).written() + Seq::<u8>::empty() =~= old(to).written());
                }
                Ok(())
            },
            CommandParserSpec::ScoreboardSlot => {
                proof {
                    assert(old(to).written() + Seq::<u8>::empty() =~= old(to).written());
                }
                Ok(())
            },
            CommandParserSpec::ScoreHolder(bod) => bod.mc_serialize(to),
            CommandParserSpec::Swizzle => {
                proof {
                    assert(old(to).written() + Seq::<u8>::empty() =~= old(to).written());
                }
                Ok(())
            },
            CommandParserSpec::Team => {
                proof {
                    assert(old(to).written() + Seq::<u8>::empty() =~= old(to).written());
                }
                Ok(())
            },
            CommandParserSpec::ItemSlot => {
                proof {
                    assert(old(to).written() + Seq::<u8>::empty() =~= old(to).written());
                }
                Ok(())
            },
            CommandParserSpec::ResourceLocation => {
                proof {
                    assert(old(to).written() + Seq::<u8>::empty() =~= old(to).written());
                }
                Ok(())
            },
            CommandParserSpec::MobEffect => {
                proof {
                    assert(old(to).written() + Seq::<u8>::empty() =~= old(to).written());
                }
                Ok(())
            },
            CommandParserSpec::Function => {
                proof {
                    assert(old(to).written() + Seq::<u8>::empty() =~= old(to).written());
                }
                Ok(())
            },
            CommandParserSpec::EntityAnchor => {
                proof {
                    assert(old(to).written() + Seq::<u8>::empty() =~= old(to).written());
                }
                Ok(())
            },
            CommandParserSpec::Range(bod) => bod.mc_serialize(to),
            CommandParserSpec::IntRange => {
                proof {
                    assert(old(to).written() + Seq::<u8>::empty() =~= old(to).written());
                }
                Ok(())
            },
            CommandParserSpec::FloatRange => {
                proof {
                    assert(old(to).written() + Seq::<u8>::empty() =~= old(to).written());
                }
                Ok(())
            },
            CommandParserSpec::ItemEnchantment => {
                proof {
                    assert(old(to).written() + Seq::<u8>::empty() =~= old(to).written());
                }
                Ok(())
            },
            CommandParserSpec::EntitySummon => {
                proof {
                    assert(old(to).written() + Seq::<u8>::empty() =~= old(to).written());
                }
                Ok(())
            },
            CommandParserSpec::Dimension => {
                proof {
                    assert(old(to).written() + Seq::<u8>::empty() =~= old(to).written());
                }
                Ok(())
            },
            CommandParserSpec::UUID => {
                proof {
                    assert(old(to).written() + Seq::<u8>::empty() =~= old(to).written());
                }
                Ok(())
            },
            CommandParserSpec::NbtTag => {
                proof {
                    assert(old(to).written() + Seq::<u8>::empty() =~= old(to).written());
                }
                Ok(())
            },
            CommandParserSpec::NbtCompoundTag => {
                proof {
                    assert(old(to).written() + Seq::<u8>::empty() =~= old(to).written());
                }
                Ok(())
            },
            CommandParserSpec::Time => {
                proof {
                    assert(old(to).written() + Seq::<u8>::empty() =~= old(to).written());
                }
                Ok(())
            },
        }
    }

    /// The texts are in ASCII, short, and all different.
    pub proof fn lemma_names(v: CommandParserSpecView)
        ensures
            Self::has_name(Self::name_of(v)),
            vstd::utf8::is_ascii_chars(Self::name_of(v)),
            Self::name_of(v).len() < 128,
            forall|data: Seq<u8>| #[trigger]
                Self::decode_with_id(Self::name_of(v), data) == Self::decode_as(v, data),
    {
        reveal_strlit("brigadier:bool");
        reveal_strlit("brigadier:double");
        reveal_strlit("brigadier:float");
        reveal_strlit("brigadier:integer");
        reveal_strlit("brigadier:string");
        reveal_strlit("minecraft:entity");
        reveal_strlit("minecraft:game_profile");
        reveal_strlit("minecraft:block_pos");
        reveal_strlit("minecraft:column_pos");
        reveal_strlit("minecraft:vec3");
        reveal_strlit("minecraft:vec2");
        reveal_strlit("minecraft:block_state");
        reveal_strlit("minecraft:block_predicate");
        reveal_strlit("minecraft:item_stack");
        reveal_strlit("minecraft:item_predicate");
        reveal_strlit("minecraft:color");
        reveal_strlit("minecraft:component");
        reveal_strlit("minecraft:message");
        reveal_strlit("minecraft:nbt");
        reveal_strlit("minecraft:nbt_path");
        reveal_strlit("minecraft:objective");
        reveal_strlit("minecraft:objective_criteria");
        reveal_strlit("minecraft:operation");
        reveal_strlit("minecraft:particle");
        reveal_strlit("minecraft:rotation");
        reveal_strlit("minecraft:angle");
        reveal_strlit("minecraft:scoreboard_slot");
        reveal_strlit("minecraft:score_holder");
        reveal_strlit("minecraft:swizzle");
        reveal_strlit("minecraft:team");
        reveal_strlit("minecraft:item_slot");
        reveal_strlit("minecraft:resource_location");
        reveal_strlit("minecraft:mob_effect");
        reveal_strlit("minecraft:function");
        reveal_strlit("minecraft:entity_anchor");
        reveal_strlit("minecraft:range");
        reveal_strlit("minecraft:int_range");
        reveal_strlit("minecraft:float_range");
        reveal_strlit("minecraft:item_enchantment");
        reveal_strlit("minecraft:entity_summon");
        reveal_strlit("minecraft:dimension");
        reveal_strlit("minecraft:uuid");
        reveal_strlit("minecraft:nbt_tag");
        reveal_strlit("minecraft:nbt_compound_tag");
        reveal_strlit("minecraft:time");
        assert("brigadier:bool"@.len() == 14);
        assert("brigadier:double"@.len() == 16);
        assert("brigadier:float"@.len() == 15);
        assert("brigadier:integer"@.len() == 17);
        assert("brigadier:string"@.len() == 16);
        assert("minecraft:entity"@.len() == 16);
        assert("minecraft:game_profile"@.len() == 22);
        assert("minecraft:block_pos"@.len() == 19);
        assert("minecraft:column_pos"@.len() == 20);
        assert("minecraft:vec3"@.len() == 14);
        assert("minecraft:vec2"@.len() == 14);
        assert("minecraft:block_state"@.len() == 21);
        assert("minecraft:block_predicate"@.len() == 25);
        assert("minecraft:item_stack"@.len() == 20);
        assert("minecraft:item_predicate"@.len() == 24);
        assert("minecraft:color"@.len() == 15);
        assert("minecraft:component"@.len() == 19);
        assert("minecraft:message"@.len() == 17);
        assert("minecraft:nbt"@.len() == 13);
        assert("minecraft:nbt_path"@.len() == 18);
        assert("minecraft:objective"@.len() == 19);
        assert("minecraft:objective_criteria"@.len() == 28);
        assert("minecraft:operation"@.len() == 19);
        assert("minecraft:particle"@.len() == 18);
        assert("minecraft:rotation"@.len() == 18);
        assert("minecraft:angle"@.len() == 15);
        assert("minecraft:scoreboard_slot"@.len() == 25);
        assert("minecraft:score_holder"@.len() == 22);
        assert("minecraft:swizzle"@.len() == 17);
        assert("minecraft:team"@.len() == 14);
        assert("minecraft:item_slot"@.len() == 19);
        assert("minecraft:resource_location"@.len() == 27);
        assert("minecraft:mob_effect"@.len() == 20);
        assert("minecraft:function"@.len() == 18);
        assert("minecraft:entity_anchor"@.len() == 23);
        assert("minecraft:range"@.len() == 15);
        assert("minecraft:int_range"@.len() == 19);
        assert("minecraft:float_range"@.len() == 21);
        assert("minecraft:item_enchantment"@.len() == 26);
        assert("minecraft:entity_summon"@.len() == 23);
        assert("minecraft:dimension"@.len() == 19);
        assert("minecraft:uuid"@.len() == 14);
        assert("minecraft:nbt_tag"@.len() == 17);
        assert("minecraft:nbt_compound_tag"@.len() == 26);
        assert("minecraft:time"@.len() == 14);
        assert("brigadier:bool"@[0] != "minecraft:vec3"@[0]);
        assert("brigadier:bool"@[0] != "minecraft:vec2"@[0]);
        assert("brigadier:bool"@[0] != "minecraft:team"@[0]);
        assert("brigadier:bool"@[0] != "minecraft:uuid"@[0]);
        assert("brigadier:bool"@[0] != "minecraft:time"@[0]);
        assert("minecraft:vec3"@[13] != "minecraft:vec2"@[13]);
        assert("minecraft:vec3"@[10] != "minecraft:team"@[10]);
        assert("minecraft:vec3"@[10] != "minecraft:uuid"@[10]);
        assert("minecraft:vec3"@[10] != "minecraft:time"@[10]);
        assert("minecraft:vec2"@[10] != "minecraft:team"@[10]);
        assert("minecraft:vec2"@[10] != "minecraft:uuid"@[10]);
        assert("minecraft:vec2"@[10] != "minecraft:time"@[10]);
        assert("minecraft:team"@[10] != "minecraft:uuid"@[10]);
        assert("minecraft:team"@[11] != "minecraft:time"@[11]);
        assert("minecraft:uuid"@[10] != "minecraft:time"@[10]);
        assert("brigadier:double"@[10] != "brigadier:string"@[10]);
        assert("brigadier:double"@[0] != "minecraft:entity"@[0]);
        assert("brigadier:string"@[0] != "minecraft:entity"@[0]);
        assert("brigadier:float"@[0] != "minecraft:color"@[0]);
        assert("brigadier:float"@[0] != "minecraft:angle"@[0]);
        assert("brigadier:float"@[0] != "minecraft:range"@[0]);
        assert("minecraft:color"@[10] != "minecraft:angle"@[10]);
        assert("minecraft:color"@[10] != "minecraft:range"@[10]);
        assert("minecraft:angle"@[10] != "minecraft:range"@[10]);
        assert("brigadier:integer"@[0] != "minecraft:message"@[0]);
        assert("brigadier:integer"@[0] != "minecraft:swizzle"@[0]);
        assert("brigadier:integer"@[0] != "minecraft:nbt_tag"@[0]);
        assert("minecraft:message"@[10] != "minecraft:swizzle"@[10]);
        assert("minecraft:message"@[10] != "minecraft:nbt_tag"@[10]);
        assert("minecraft:swizzle"@[10] != "minecraft:nbt_tag"@[10]);
        assert("minecraft:game_profile"@[10] != "minecraft:score_holder"@[10]);
        assert("minecraft:block_pos"@[10] != "minecraft:component"@[10]);
        assert("minecraft:block_pos"@[10] != "minecraft:objective"@[10]);
        assert("minecraft:block_pos"@[10] != "minecraft:operation"@[10]);
        assert("minecraft:block_pos"@[10] != "minecraft:item_slot"@[10]);
        assert("minecraft:block_pos"@[10] != "minecraft:int_range"@[10]);
        assert("minecraft:block_pos"@[10] != "minecraft:dimension"@[10]);
        assert("minecraft:component"@[10] != "minecraft:objective"@[10]);
        assert("minecraft:component"@[10] != "minecraft:operation"@[10]);
        assert("minecraft:component"@[10] != "minecraft:item_slot"@[10]);
        assert("minecraft:component"@[10] != "minecraft:int_range"@[10]);
        assert("minecraft:component"@[10] != "minecraft:dimension"@[10]);
        assert("minecraft:objective"@[11] != "minecraft:operation"@[11]);
        assert("minecraft:objective"@[10] != "minecraft:item_slot"@[10]);
        assert("minecraft:objective"@[10] != "minecraft:int_range"@[10]);
        assert("minecraft:objective"@[10] != "minecraft:dimension"@[10]);
        assert("minecraft:operation"@[10] != "minecraft:item_slot"@[10]);
        assert("minecraft:operation"@[10] != "minecraft:int_range"@[10]);
        assert("minecraft:operation"@[10] != "minecraft:dimension"@[10]);
        assert("minecraft:item_slot"@[11] != "minecraft:int_range"@[11]);
        assert("minecraft:item_slot"@[10] != "minecraft:dimension"@[10]);
        assert("minecraft:int_range"@[10] != "minecraft:dimension"@[10]);
        assert("minecraft:column_pos"@[10] != "minecraft:item_stack"@[10]);
        assert("minecraft:column_pos"@[10] != "minecraft:mob_effect"@[10]);
        assert("minecraft:item_stack"@[10] != "minecraft:mob_effect"@[10]);
        assert("minecraft:block_state"@[10] != "minecraft:float_range"@[10]);
        assert("minecraft:block_predicate"@[10] != "minecraft:scoreboard_slot"@[10]);
        assert("minecraft:nbt_path"@[10] != "minecraft:particle"@[10]);
        assert("minecraft:nbt_path"@[10] != "minecraft:rotation"@[10]);
        assert("minecraft:nbt_path"@[10] != "minecraft:function"@[10]);
        assert("minecraft:particle"@[10] != "minecraft:rotation"@[10]);
        assert("minecraft:particle"@[10] != "minecraft:function"@[10]);
        assert("minecraft:rotation"@[10] != "minecraft:function"@[10]);
        assert("minecraft:entity_anchor"@[17] != "minecraft:entity_summon"@[17]);
        assert("minecraft:item_enchantment"@[10] != "minecraft:nbt_compound_tag"@[10]);
        let text = Self::name_of(v);
        assert forall|i: int| 0 <= i < text.len() implies '\0' <= #[trigger] text[i] <= '\u{7f}' by {
            match v {
                CommandParserSpecView::Bool => {
                    if i == 0 {
                        assert(text[0] == 'b');
                    }
                    if i == 1 {
                        assert(text[1] == 'r');
                    }
                    if i == 2 {
                        assert(text[2] == 'i');
                    }
                    if i == 3 {
                        assert(text[3] == 'g');
                    }
                    if i == 4 {
                        assert(text[4] == 'a');
                    }
                    if i == 5 {
                        assert(text[5] == 'd');
                    }
                    if i == 6 {
                        assert(text[6] == 'i');
                    }
                    if i == 7 {
                        assert(text[7] == 'e');
                    }
                    if i == 8 {
                        assert(text[8] == 'r');
                    }
                    if i == 9 {
                        assert(text[9] == ':');
                    }
                    if i == 10 {
                        assert(text[10] == 'b');
                    }
                    if i == 11 {
                        assert(text[11] == 'o');
                    }
                    if i == 12 {
                        assert(text[12] == 'o');
                    }
                    if i == 13 {
                        assert(text[13] == 'l');
                    }
                },
                CommandParserSpecView::Double(_) => {
                    if i == 0 {
                        assert(text[0] == 'b');
                    }
                    if i == 1 {
                        assert(text[1] == 'r');
                    }
                    if i == 2 {
                        assert(text[2] == 'i');
                    }
                    if i == 3 {
                        assert(text[3] == 'g');
                    }
                    if i == 4 {
                        assert(text[4] == 'a');
                    }
                    if i == 5 {
                        assert(text[5] == 'd');
                    }
                    if i == 6 {
                        assert(text[6] == 'i');
                    }
                    if i == 7 {
                        assert(text[7] == 'e');
                    }
                    if i == 8 {
                        assert(text[8] == 'r');
                    }
                    if i == 9 {
                        assert(text[9] == ':');
                    }
                    if i == 10 {
                        assert(text[10] == 'd');
                    }
                    if i == 11 {
                        assert(text[11] == 'o');
                    }
                    if i == 12 {
                        assert(text[12] == 'u');
                    }
                    if i == 13 {
                        assert(text[13] == 'b');
                    }
                    if i == 14 {
                        assert(text[14] == 'l');
                    }
                    if i == 15 {
                        assert(text[15] == 'e');
                    }
                },
                CommandParserSpecView::Float(_) => {
                    if i == 0 {
                        assert(text[0] == 'b');
                    }
                    if i == 1 {
                        assert(text[1] == 'r');
                    }
                    if i == 2 {
                        assert(text[2] == 'i');
                    }
                    if i == 3 {
                        assert(text[3] == 'g');
                    }
                    if i == 4 {
                        assert(text[4] == 'a');
                    }
                    if i == 5 {
                        assert(text[5] == 'd');
                    }
                    if i == 6 {
                        assert(text[6] == 'i');
                    }
                    if i == 7 {
                        assert(text[7] == 'e');
                    }
                    if i == 8 {
                        assert(text[8] == 'r');
                    }
                    if i == 9 {
                        assert(text[9] == ':');
                    }
                    if i == 10 {
                        assert(text[10] == 'f');
                    }
                    if i == 11 {
                        assert(text[11] == 'l');
                    }
                    if i == 12 {
                        assert(text[12] == 'o');
                    }
                    if i == 13 {
                        assert(text[13] == 'a');
                    }
                    if i == 14 {
                        assert(text[14] == 't');
                    }
                },
                CommandParserSpecView::Integer(_) => {
                    if i == 0 {
                        assert(text[0] == 'b');
                    }
                    if i == 1 {
                        assert(text[1] == 'r');
                    }
                    if i == 2 {
                        assert(text[2] == 'i');
                    }
                    if i == 3 {
                        assert(text[3] == 'g');
                    }
                    if i == 4 {
                        assert(text[4] == 'a');
                    }
                    if i == 5 {
                        assert(text[5] == 'd');
                    }
                    if i == 6 {
                        assert(text[6] == 'i');
                    }
                    if i == 7 {
                        assert(text[7] == 'e');
                    }
                    if i == 8 {
                        assert(text[8] == 'r');
                    }
                    if i == 9 {
                        assert(text[9] == ':');
                    }
                    if i == 10 {
                        assert(text[10] == 'i');
                    }
                    if i == 11 {
                        assert(text[11] == 'n');
                    }
                    if i == 12 {
                        assert(text[12] == 't');
                    }
                    if i == 13 {
                        assert(text[13] == 'e');
                    }
                    if i == 14 {
                        assert(text[14] == 'g');
                    }
                    if i == 15 {
                        assert(text[15] == 'e');
                    }
                    if i == 16 {
                        assert(text[16] == 'r');
                    }
                },
                CommandParserSpecView::StringParser(_) => {
                    if i == 0 {
                        assert(text[0] == 'b');
                    }
                    if i == 1 {
                        assert(text[1] == 'r');
                    }
                    if i == 2 {
                        assert(text[2] == 'i');
                    }
                    if i == 3 {
                        assert(text[3] == 'g');
                    }
                    if i == 4 {
                        assert(text[4] == 'a');
                    }
                    if i == 5 {
                        assert(text[5] == 'd');
                    }
                    if i == 6 {
                        assert(text[6] == 'i');
                    }
                    if i == 7 {
                        assert(text[7] == 'e');
                    }
                    if i == 8 {
                        assert(text[8] == 'r');
                    }
                    if i == 9 {
                        assert(text[9] == ':');
                    }
                    if i == 10 {
                        assert(text[10] == 's');
                    }
                    if i == 11 {
                        assert(text[11] == 't');
                    }
                    if i == 12 {
                        assert(text[12] == 'r');
                    }
                    if i == 13 {
                        assert(text[13] == 'i');
                    }
                    if i == 14 {
                        assert(text[14] == 'n');
                    }
                    if i == 15 {
                        assert(text[15] == 'g');
                    }
                },
                CommandParserSpecView::Entity(_) => {
                    if i == 0 {
                        assert(text[0] == 'm');
                    }
                    if i == 1 {
                        assert(text[1] == 'i');
                    }
                    if i == 2 {
                        assert(text[2] == 'n');
                    }
                    if i == 3 {
                        assert(text[3] == 'e');
                    }
                    if i == 4 {
                        assert(text[4] == 'c');
                    }
                    if i == 5 {
                        assert(text[5] == 'r');
                    }
                    if i == 6 {
                        assert(text[6] == 'a');
                    }
                    if i == 7 {
                        assert(text[7] == 'f');
                    }
                    if i == 8 {
                        assert(text[8] == 't');
                    }
                    if i == 9 {
                        assert(text[9] == ':');
                    }
                    if i == 10 {
                        assert(text[10] == 'e');
                    }
                    if i == 11 {
                        assert(text[11] == 'n');
                    }
                    if i == 12 {
                        assert(text[12] == 't');
                    }
                    if i == 13 {
                        assert(text[13] == 'i');
                    }
                    if i == 14 {
                        assert(text[14] == 't');
                    }
                    if i == 15 {
                        assert(text[15] == 'y');
                    }
                },
                CommandParserSpecView::GameProfile => {
                    if i == 0 {
                        assert(text[0] == 'm');
                    }
                    if i == 1 {
                        assert(text[1] == 'i');
                    }
                    if i == 2 {
                        assert(text[2] == 'n');
                    }
                    if i == 3 {
                        assert(text[3] == 'e');
                    }
                    if i == 4 {
                        assert(text[4] == 'c');
                    }
                    if i == 5 {
                        assert(text[5] == 'r');
                    }
                    if i == 6 {
                        assert(text[6] == 'a');
                    }
                    if i == 7 {
                        assert(text[7] == 'f');
                    }
                    if i == 8 {
                        assert(text[8] == 't');
                    }
                    if i == 9 {
                        assert(text[9] == ':');
                    }
                    if i == 10 {
                        assert(text[10] == 'g');
                    }
                    if i == 11 {
                        assert(text[11] == 'a');
                    }
                    if i == 12 {
                        assert(text[12] == 'm');
                    }
                    if i == 13 {
                        assert(text[13] == 'e');
                    }
                    if i == 14 {
                        assert(text[14] == '_');
                    }
                    if i == 15 {
                        assert(text[15] == 'p');
                    }
                    if i == 16 {
                        assert(text[16] == 'r');
                    }
                    if i == 17 {
                        assert(text[17] == 'o');
                    }
                    if i == 18 {
                        assert(text[18] == 'f');
                    }
                    if i == 19 {
                        assert(text[19] == 'i');
                    }
                    if i == 20 {
                        assert(text[20] == 'l');
                    }
                    if i == 21 {
                        assert(text[21] == 'e');
                    }
                },
                CommandParserSpecView::BlockPosition => {
                    if i == 0 {
                        assert(text[0] == 'm');
                    }
                    if i == 1 {
                        assert(text[1] == 'i');
                    }
                    if i == 2 {
                        assert(text[2] == 'n');
                    }
                    if i == 3 {
                        assert(text[3] == 'e');
                    }
                    if i == 4 {
                        assert(text[4] == 'c');
                    }
                    if i == 5 {
                        assert(text[5] == 'r');
                    }
                    if i == 6 {
                        assert(text[6] == 'a');
                    }
                    if i == 7 {
                        assert(text[7] == 'f');
                    }
                    if i == 8 {
                        assert(text[8] == 't');
                    }
                    if i == 9 {
                        assert(text[9] == ':');
                    }
                    if i == 10 {
                        assert(text[10] == 'b');
                    }
                    if i == 11 {
                        assert(text[11] == 'l');
                    }
                    if i == 12 {
                        assert(text[12] == 'o');
                    }
                    if i == 13 {
                        assert(text[13] == 'c');
                    }
                    if i == 14 {
                        assert(text[14] == 'k');
                    }
                    if i == 15 {
                        assert(text[15] == '_');
                    }
                    if i == 16 {
                        assert(text[16] == 'p');
                    }
                    if i == 17 {
                        assert(text[17] == 'o');
                    }
                    if i == 18 {
                        assert(text[18] == 's');
                    }
                },
                CommandParserSpecView::ColumnPosition => {
                    if i == 0 {
                        assert(text[0] == 'm');
                    }
                    if i == 1 {
                        assert(text[1] == 'i');
                    }
                    if i == 2 {
                        assert(text[2] == 'n');
                    }
                    if i == 3 {
                        assert(text[3] == 'e');
                    }
                    if i == 4 {
                        assert(text[4] == 'c');
                    }
                    if i == 5 {
                        assert(text[5] == 'r');
                    }
                    if i == 6 {
                        assert(text[6] == 'a');
                    }
                    if i == 7 {
                        assert(text[7] == 'f');
                    }
                    if i == 8 {
                        assert(text[8] == 't');
                    }
                    if i == 9 {
                        assert(text[9] == ':');
                    }
                    if i == 10 {
                        assert(text[10] == 'c');
                    }
                    if i == 11 {
                        assert(text[11] == 'o');
                    }
                    if i == 12 {
                        assert(text[12] == 'l');
                    }
                    if i == 13 {
                        assert(text[13] == 'u');
                    }
                    if i == 14 {
                        assert(text[14] == 'm');
                    }
                    if i == 15 {
                        assert(text[15] == 'n');
                    }
                    if i == 16 {
                        assert(text[16] == '_');
                    }
                    if i == 17 {
                        assert(text[17] == 'p');
                    }
                    if i == 18 {
                        assert(text[18] == 'o');
                    }
                    if i == 19 {
                        assert(text[19] == 's');
                    }
                },
                CommandParserSpecView::Vec3 => {
                    if i == 0 {
                        assert(text[0] == 'm');
                    }
                    if i == 1 {
                        assert(text[1] == 'i');
                    }
                    if i == 2 {
                        assert(text[2] == 'n');
                    }
                    if i == 3 {
                        assert(text[3] == 'e');
                    }
                    if i == 4 {
                        assert(text[4] == 'c');
                    }
                    if i == 5 {
                        assert(text[5] == 'r');
                    }
                    if i == 6 {
                        assert(text[6] == 'a');
                    }
                    if i == 7 {
                        assert(text[7] == 'f');
                    }
                    if i == 8 {
                        assert(text[8] == 't');
                    }
                    if i == 9 {
                        assert(text[9] == ':');
                    }
                    if i == 10 {
                        assert(text[10] == 'v');
                    }
                    if i == 11 {
                        assert(text[11] == 'e');
                    }
                    if i == 12 {
                        assert(text[12] == 'c');
                    }
                    if i == 13 {
                        assert(text[13] == '3');
                    }
                },
                CommandParserSpecView::Vec2 => {
                    if i == 0 {
                        assert(text[0] == 'm');
                    }
                    if i == 1 {
                        assert(text[1] == 'i');
                    }
                    if i == 2 {
                        assert(text[2] == 'n');
                    }
                    if i == 3 {
                        assert(text[3] == 'e');
                    }
                    if i == 4 {
                        assert(text[4] == 'c');
                    }
                    if i == 5 {
                        assert(text[5] == 'r');
                    }
                    if i == 6 {
                        assert(text[6] == 'a');
                    }
                    if i == 7 {
                        assert(text[7] == 'f');
                    }
                    if i == 8 {
                        assert(text[8] == 't');
                    }
                    if i == 9 {
                        assert(text[9] == ':');
                    }
                    if i == 10 {
                        assert(text[10] == 'v');
                    }
                    if i == 11 {
                        assert(text[11] == 'e');
                    }
                    if i == 12 {
                        assert(text[12] == 'c');
                    }
                    if i == 13 {
                        assert(text[13] == '2');
                    }
                },
                CommandParserSpecView::BlockState => {
                    if i == 0 {
                        assert(text[0] == 'm');
                    }
                    if i == 1 {
                        assert(text[1] == 'i');
                    }
                    if i == 2 {
                        assert(text[2] == 'n');
                    }
                    if i == 3 {
                        assert(text[3] == 'e');
                    }
                    if i == 4 {
                        assert(text[4] == 'c');
                    }
                    if i == 5 {
                        assert(text[5] == 'r');
                    }
                    if i == 6 {
                        assert(text[6] == 'a');
                    }
                    if i == 7 {
                        assert(text[7] == 'f');
                    }
                    if i == 8 {
                        assert(text[8] == 't');
                    }
                    if i == 9 {
                        assert(text[9] == ':');
                    }
                    if i == 10 {
                        assert(text[10] == 'b');
                    }
                    if i == 11 {
                        assert(text[11] == 'l');
                    }
                    if i == 12 {
                        assert(text[12] == 'o');
                    }
                    if i == 13 {
                        assert(text[13] == 'c');
                    }
                    if i == 14 {
                        assert(text[14] == 'k');
                    }
                    if i == 15 {
                        assert(text[15] == '_');
                    }
                    if i == 16 {
                        assert(text[16] == 's');
                    }
                    if i == 17 {
                        assert(text[17] == 't');
                    }
                    if i == 18 {
                        assert(text[18] == 'a');
                    }
                    if i == 19 {
                        assert(text[19] == 't');
                    }
                    if i == 20 {
                        assert(text[20] == 'e');
                    }
                },
                CommandParserSpecView::BlockPredicate => {
                    if i == 0 {
                        assert(text[0] == 'm');
                    }
                    if i == 1 {
                        assert(text[1] == 'i');
                    }
                    if i == 2 {
                        assert(text[2] == 'n');
                    }
                    if i == 3 {
                        assert(text[3] == 'e');
                    }
                    if i == 4 {
                        assert(text[4] == 'c');
                    }
                    if i == 5 {
                        assert(text[5] == 'r');
                    }
                    if i == 6 {
                        assert(text[6] == 'a');
                    }
                    if i == 7 {
                        assert(text[7] == 'f');
                    }
                    if i == 8 {
                        assert(text[8] == 't');
                    }
                    if i == 9 {
                        assert(text[9] == ':');
                    }
                    if i == 10 {
                        assert(text[10] == 'b');
                    }
                    if i == 11 {
                        assert(text[11] == 'l');
                    }
                    if i == 12 {
                        assert(text[12] == 'o');
                    }
                    if i == 13 {
                        assert(text[13] == 'c');
                    }
                    if i == 14 {
                        assert(text[14] == 'k');
                    }
                    if i == 15 {
                        assert(text[15] == '_');
                    }
                    if i == 16 {
                        assert(text[16] == 'p');
                    }
                    if i == 17 {
                        assert(text[17] == 'r');
                    }
                    if i == 18 {
                        assert(text[18] == 'e');
                    }
                    if i == 19 {
                        assert(text[19] == 'd');
                    }
                    if i == 20 {
                        assert(text[20] == 'i');
                    }
                    if i == 21 {
                        assert(text[21] == 'c');
                    }
                    if i == 22 {
                        assert(text[22] == 'a');
                    }
                    if i == 23 {
                        assert(text[23] == 't');
                    }
                    if i == 24 {
                        assert(text[24] == 'e');
                    }
                },
                CommandParserSpecView::ItemStack => {
                    if i == 0 {
                        assert(text[0] == 'm');
                    }
                    if i == 1 {
                        assert(text[1] == 'i');
                    }
                    if i == 2 {
                        assert(text[2] == 'n');
                    }
                    if i == 3 {
                        assert(text[3] == 'e');
                    }
                    if i == 4 {
                        assert(text[4] == 'c');
                    }
                    if i == 5 {
                        assert(text[5] == 'r');
                    }
                    if i == 6 {
                        assert(text[6] == 'a');
                    }
                    if i == 7 {
                        assert(text[7] == 'f');
                    }
                    if i == 8 {
                        assert(text[8] == 't');
                    }
                    if i == 9 {
                        assert(text[9] == ':');
                    }
                    if i == 10 {
                        assert(text[10] == 'i');
                    }
                    if i == 11 {
                        assert(text[11] == 't');
                    }
                    if i == 12 {
                        assert(text[12] == 'e');
                    }
                    if i == 13 {
                        assert(text[13] == 'm');
                    }
                    if i == 14 {
                        assert(text[14] == '_');
                    }
                    if i == 15 {
                        assert(text[15] == 's');
                    }
                    if i == 16 {
                        assert(text[16] == 't');
                    }
                    if i == 17 {
                        assert(text[17] == 'a');
                    }
                    if i == 18 {
                        assert(text[18] == 'c');
                    }
                    if i == 19 {
                        assert(text[19] == 'k');
                    }
                },
                CommandParserSpecView::ItemPredicate => {
                    if i == 0 {
                        assert(text[0] == 'm');
                    }
                    if i == 1 {
                        assert(text[1] == 'i');
                    }
                    if i == 2 {
                        assert(text[2] == 'n');
                    }
                    if i == 3 {
                        assert(text[3] == 'e');
                    }
                    if i == 4 {
                        assert(text[4] == 'c');
                    }
                    if i == 5 {
                        assert(text[5] == 'r');
                    }
                    if i == 6 {
                        assert(text[6] == 'a');
                    }
                    if i == 7 {
                        assert(text[7] == 'f');
                    }
                    if i == 8 {
                        assert(text[8] == 't');
                    }
                    if i == 9 {
                        assert(text[9] == ':');
                    }
                    if i == 10 {
                        assert(text[10] == 'i');
                    }
                    if i == 11 {
                        assert(text[11] == 't');
                    }
                    if i == 12 {
                        assert(text[12] == 'e');
                    }
                    if i == 13 {
                        assert(text[13] == 'm');
                    }
                    if i == 14 {
                        assert(text[14] == '_');
                    }
                    if i == 15 {
                        assert(text[15] == 'p');
                    }
                    if i == 16 {
                        assert(text[16] == 'r');
                    }
                    if i == 17 {
                        assert(text[17] == 'e');
                    }
                    if i == 18 {
                        assert(text[18] == 'd');
                    }
                    if i == 19 {
                        assert(text[19] == 'i');
                    }
                    if i == 20 {
                        assert(text[20] == 'c');
                    }
                    if i == 21 {
                        assert(text[21] == 'a');
                    }
                    if i == 22 {
                        assert(text[22] == 't');
                    }
                    if i == 23 {
                        assert(text[23] == 'e');
                    }
                },
                CommandParserSpecView::Color => {
                    if i == 0 {
                        assert(text[0] == 'm');
                    }
                    if i == 1 {
                        assert(text[1] == 'i');
                    }
                    if i == 2 {
                        assert(text[2] == 'n');
                    }
                    if i == 3 {
                        assert(text[3] == 'e');
                    }
                    if i == 4 {
                        assert(text[4] == 'c');
                    }
                    if i == 5 {
                        assert(text[5] == 'r');
                    }
                    if i == 6 {
                        assert(text[6] == 'a');
                    }
                    if i == 7 {
                        assert(text[7] == 'f');
                    }
                    if i == 8 {
                        assert(text[8] == 't');
                    }
                    if i == 9 {
                        assert(text[9] == ':');
                    }
                    if i == 10 {
                        assert(text[10] == 'c');
                    }
                    if i == 11 {
                        assert(text[11] == 'o');
                    }
                    if i == 12 {
                        assert(text[12] == 'l');
                    }
                    if i == 13 {
                        assert(text[13] == 'o');
                    }
                    if i == 14 {
                        assert(text[14] == 'r');
                    }
                },
                CommandParserSpecView::Component => {
                    if i == 0 {
                        assert(text[0] == 'm');
                    }
                    if i == 1 {
                        assert(text[1] == 'i');
                    }
                    if i == 2 {
                        assert(text[2] == 'n');
                    }
                    if i == 3 {
                        assert(text[3] == 'e');
                    }
                    if i == 4 {
                        assert(text[4] == 'c');
                    }
                    if i == 5 {
                        assert(text[5] == 'r');
                    }
                    if i == 6 {
                        assert(text[6] == 'a');
                    }
                    if i == 7 {
                        assert(text[7] == 'f');
                    }
                    if i == 8 {
                        assert(text[8] == 't');
                    }
                    if i == 9 {
                        assert(text[9] == ':');
                    }
                    if i == 10 {
                        assert(text[10] == 'c');
                    }
                    if i == 11 {
                        assert(text[11] == 'o');
                    }
                    if i == 12 {
                        assert(text[12] == 'm');
                    }
                    if i == 13 {
                        assert(text[13] == 'p');
                    }
                    if i == 14 {
                        assert(text[14] == 'o');
                    }
                    if i == 15 {
                        assert(text[15] == 'n');
                    }
                    if i == 16 {
                        assert(text[16] == 'e');
                    }
                    if i == 17 {
                        assert(text[17] == 'n');
                    }
                    if i == 18 {
                        assert(text[18] == 't');
                    }
                },
                CommandParserSpecView::Message => {
                    if i == 0 {
                        assert(text[0] == 'm');
                    }
                    if i == 1 {
                        assert(text[1] == 'i');
                    }
                    if i == 2 {
                        assert(text[2] == 'n');
                    }
                    if i == 3 {
                        assert(text[3] == 'e');
                    }
                    if i == 4 {
                        assert(text[4] == 'c');
                    }
                    if i == 5 {
                        assert(text[5] == 'r');
                    }
                    if i == 6 {
                        assert(text[6] == 'a');
                    }
                    if i == 7 {
                        assert(text[7] == 'f');
                    }
                    if i == 8 {
                        assert(text[8] == 't');
                    }
                    if i == 9 {
                        assert(text[9] == ':');
                    }
                    if i == 10 {
                        assert(text[10] == 'm');
                    }
                    if i == 11 {
                        assert(text[11] == 'e');
                    }
                    if i == 12 {
                        assert(text[12] == 's');
                    }
                    if i == 13 {
                        assert(text[13] == 's');
                    }
                    if i == 14 {
                        assert(text[14] == 'a');
                    }
                    if i == 15 {
                        assert(text[15] == 'g');
                    }
                    if i == 16 {
                        assert(text[16] == 'e');
                    }
                },
                CommandParserSpecView::Nbt => {
                    if i == 0 {
                        assert(text[0] == 'm');
                    }
                    if i == 1 {
                        assert(text[1] == 'i');
                    }
                    if i == 2 {
                        assert(text[2] == 'n');
                    }
                    if i == 3 {
                        assert(text[3] == 'e');
                    }
                    if i == 4 {
                        assert(text[4] == 'c');
                    }
                    if i == 5 {
                        assert(text[5] == 'r');
                    }
                    if i == 6 {
                        assert(text[6] == 'a');
                    }
                    if i == 7 {
                        assert(text[7] == 'f');
                    }
                    if i == 8 {
                        assert(text[8] == 't');
                    }
                    if i == 9 {
                        assert(text[9] == ':');
                    }
                    if i == 10 {
                        assert(text[10] == 'n');
                    }
                    if i == 11 {
                        assert(text[11] == 'b');
                    }
                    if i == 12 {
                        assert(text[12] == 't');
                    }
                },
                CommandParserSpecView::NbtPath => {
                    if i == 0 {
                        assert(text[0] == 'm');
                    }
                    if i == 1 {
                        assert(text[1] == 'i');
                    }
                    if i == 2 {
                        assert(text[2] == 'n');
                    }
                    if i == 3 {
                        assert(text[3] == 'e');
                    }
                    if i == 4 {
                        assert(text[4] == 'c');
                    }
                    if i == 5 {
                        assert(text[5] == 'r');
                    }
                    if i == 6 {
                        assert(text[6] == 'a');
                    }
                    if i == 7 {
                        assert(text[7] == 'f');
                    }
                    if i == 8 {
                        assert(text[8] == 't');
                    }
                    if i == 9 {
                        assert(text[9] == ':');
                    }
                    if i == 10 {
                        assert(text[10] == 'n');
                    }
                    if i == 11 {
                        assert(text[11] == 'b');
                    }
                    if i == 12 {
                        assert(text[12] == 't');
                    }
                    if i == 13 {
                        assert(text[13] == '_');
                    }
                    if i == 14 {
                        assert(text[14] == 'p');
                    }
                    if i == 15 {
                        assert(text[15] == 'a');
                    }
                    if i == 16 {
                        assert(text[16] == 't');
                    }
                    if i == 17 {
                        assert(text[17] == 'h');
                    }
                },
                CommandParserSpecView::Objective => {
                    if i == 0 {
                        assert(text[0] == 'm');
                    }
                    if i == 1 {
                        assert(text[1] == 'i');
                    }
                    if i == 2 {
                        assert(text[2] == 'n');
                    }
                    if i == 3 {
                        assert(text[3] == 'e');
                    }
                    if i == 4 {
                        assert(text[4] == 'c');
                    }
                    if i == 5 {
                        assert(text[5] == 'r');
                    }
                    if i == 6 {
                        assert(text[6] == 'a');
                    }
                    if i == 7 {
                        assert(text[7] == 'f');
                    }
                    if i == 8 {
                        assert(text[8] == 't');
                    }
                    if i == 9 {
                        assert(text[9] == ':');
                    }
                    if i == 10 {
                        assert(text[10] == 'o');
                    }
                    if i == 11 {
                        assert(text[11] == 'b');
                    }
                    if i == 12 {
                        assert(text[12] == 'j');
                    }
                    if i == 13 {
                        assert(text[13] == 'e');
                    }
                    if i == 14 {
                        assert(text[14] == 'c');
                    }
                    if i == 15 {
                        assert(text[15] == 't');
                    }
                    if i == 16 {
                        assert(text[16] == 'i');
                    }
                    if i == 17 {
                        assert(text[17] == 'v');
                    }
                    if i == 18 {
                        assert(text[18] == 'e');
                    }
                },
                CommandParserSpecView::ObjectiveCriteria => {
                    if i == 0 {
                        assert(text[0] == 'm');
                    }
                    if i == 1 {
                        assert(text[1] == 'i');
                    }
                    if i == 2 {
                        assert(text[2] == 'n');
                    }
                    if i == 3 {
                        assert(text[3] == 'e');
                    }
                    if i == 4 {
                        assert(text[4] == 'c');
                    }
                    if i == 5 {
                        assert(text[5] == 'r');
                    }
                    if i == 6 {
                        assert(text[6] == 'a');
                    }
                    if i == 7 {
                        assert(text[7] == 'f');
                    }
                    if i == 8 {
                        assert(text[8] == 't');
                    }
                    if i == 9 {
                        assert(text[9] == ':');
                    }
                    if i == 10 {
                        assert(text[10] == 'o');
                    }
                    if i == 11 {
                        assert(text[11] == 'b');
                    }
                    if i == 12 {
                        assert(text[12] == 'j');
                    }
                    if i == 13 {
                        assert(text[13] == 'e');
                    }
                    if i == 14 {
                        assert(text[14] == 'c');
                    }
                    if i == 15 {
                        assert(text[15] == 't');
                    }
                    if i == 16 {
                        assert(text[16] == 'i');
                    }
                    if i == 17 {
                        assert(text[17] == 'v');
                    }
                    if i == 18 {
                        assert(text[18] == 'e');
                    }
                    if i == 19 {
                        assert(text[19] == '_');
                    }
                    if i == 20 {
                        assert(text[20] == 'c');
                    }
                    if i == 21 {
                        assert(text[21] == 'r');
                    }
                    if i == 22 {
                        assert(text[22] == 'i');
                    }
                    if i == 23 {
                        assert(text[23] == 't');
                    }
                    if i == 24 {
                        assert(text[24] == 'e');
                    }
                    if i == 25 {
                        assert(text[25] == 'r');
                    }
                    if i == 26 {
                        assert(text[26] == 'i');
                    }
                    if i == 27 {
                        assert(text[27] == 'a');
                    }
                },
                CommandParserSpecView::Operation => {
                    if i == 0 {
                        assert(text[0] == 'm');
                    }
                    if i == 1 {
                        assert(text[1] == 'i');
                    }
                    if i == 2 {
                        assert(text[2] == 'n');
                    }
                    if i == 3 {
                        assert(text[3] == 'e');
                    }
                    if i == 4 {
                        assert(text[4] == 'c');
                    }
                    if i == 5 {
                        assert(text[5] == 'r');
                    }
                    if i == 6 {
                        assert(text[6] == 'a');
                    }
                    if i == 7 {
                        assert(text[7] == 'f');
                    }
                    if i == 8 {
                        assert(text[8] == 't');
                    }
                    if i == 9 {
                        assert(text[9] == ':');
                    }
                    if i == 10 {
                        assert(text[10] == 'o');
                    }
                    if i == 11 {
                        assert(text[11] == 'p');
                    }
                    if i == 12 {
                        assert(text[12] == 'e');
                    }
                    if i == 13 {
                        assert(text[13] == 'r');
                    }
                    if i == 14 {
                        assert(text[14] == 'a');
                    }
                    if i == 15 {
                        assert(text[15] == 't');
                    }
                    if i == 16 {
                        assert(text[16] == 'i');
                    }
                    if i == 17 {
                        assert(text[17] == 'o');
                    }
                    if i == 18 {
                        assert(text[18] == 'n');
                    }
                },
                CommandParserSpecView::Particle => {
                    if i == 0 {
                        assert(text[0] == 'm');
                    }
                    if i == 1 {
                        assert(text[1] == 'i');
                    }
                    if i == 2 {
                        assert(text[2] == 'n');
                    }
                    if i == 3 {
                        assert(text[3] == 'e');
                    }
                    if i == 4 {
                        assert(text[4] == 'c');
                    }
                    if i == 5 {
                        assert(text[5] == 'r');
                    }
                    if i == 6 {
                        assert(text[6] == 'a');
                    }
                    if i == 7 {
                        assert(text[7] == 'f');
                    }
                    if i == 8 {
                        assert(text[8] == 't');
                    }
                    if i == 9 {
                        assert(text[9] == ':');
                    }
                    if i == 10 {
                        assert(text[10] == 'p');
                    }
                    if i == 11 {
                        assert(text[11] == 'a');
                    }
                    if i == 12 {
                        assert(text[12] == 'r');
                    }
                    if i == 13 {
                        assert(text[13] == 't');
                    }
                    if i == 14 {
                        assert(text[14] == 'i');
                    }
                    if i == 15 {
                        assert(text[15] == 'c');
                    }
                    if i == 16 {
                        assert(text[16] == 'l');
                    }
                    if i == 17 {
                        assert(text[17] == 'e');
                    }
                },
                CommandParserSpecView::Rotation => {
                    if i == 0 {
                        assert(text[0] == 'm');
                    }
                    if i == 1 {
                        assert(text[1] == 'i');
                    }
                    if i == 2 {
                        assert(text[2] == 'n');
                    }
                    if i == 3 {
                        assert(text[3] == 'e');
                    }
                    if i == 4 {
                        assert(text[4] == 'c');
                    }
                    if i == 5 {
                        assert(text[5] == 'r');
                    }
                    if i == 6 {
                        assert(text[6] == 'a');
                    }
                    if i == 7 {
                        assert(text[7] == 'f');
                    }
                    if i == 8 {
                        assert(text[8] == 't');
                    }
                    if i == 9 {
                        assert(text[9] == ':');
                    }
                    if i == 10 {
                        assert(text[10] == 'r');
                    }
                    if i == 11 {
                        assert(text[11] == 'o');
                    }
                    if i == 12 {
                        assert(text[12] == 't');
                    }
                    if i == 13 {
                        assert(text[13] == 'a');
                    }
                    if i == 14 {
                        assert(text[14] == 't');
                    }
                    if i == 15 {
                        assert(text[15] == 'i');
                    }
                    if i == 16 {
                        assert(text[16] == 'o');
                    }
                    if i == 17 {
                        assert(text[17] == 'n');
                    }
                },
                CommandParserSpecView::Angle => {
                    if i == 0 {
                        assert(text[0] == 'm');
                    }
                    if i == 1 {
                        assert(text[1] == 'i');
                    }
                    if i == 2 {
                        assert(text[2] == 'n');
                    }
                    if i == 3 {
                        assert(text[3] == 'e');
                    }
                    if i == 4 {
                        assert(text[4] == 'c');
                    }
                    if i == 5 {
                        assert(text[5] == 'r');
                    }
                    if i == 6 {
                        assert(text[6] == 'a');
                    }
                    if i == 7 {
                        assert(text[7] == 'f');
                    }
                    if i == 8 {
                        assert(text[8] == 't');
                    }
                    if i == 9 {
                        assert(text[9] == ':');
                    }
                    if i == 10 {
                        assert(text[10] == 'a');
                    }
                    if i == 11 {
                        assert(text[11] == 'n');
                    }
                    if i == 12 {
                        assert(text[12] == 'g');
                    }
                    if i == 13 {
                        assert(text[13] == 'l');
                    }
                    if i == 14 {
                        assert(text[14] == 'e');
                    }
                },
                CommandParserSpecView::ScoreboardSlot => {
                    if i == 0 {
                        assert(text[0] == 'm');
                    }
                    if i == 1 {
                        assert(text[1] == 'i');
                    }
                    if i == 2 {
                        assert(text[2] == 'n');
                    }
                    if i == 3 {
                        assert(text[3] == 'e');
                    }
                    if i == 4 {
                        assert(text[4] == 'c');
                    }
                    if i == 5 {
                        assert(text[5] == 'r');
                    }
                    if i == 6 {
                        assert(text[6] == 'a');
                    }
                    if i == 7 {
                        assert(text[7] == 'f');
                    }
                    if i == 8 {
                        assert(text[8] == 't');
                    }
                    if i == 9 {
                        assert(text[9] == ':');
                    }
                    if i == 10 {
                        assert(text[10] == 's');
                    }
                    if i == 11 {
                        assert(text[11] == 'c');
                    }
                    if i == 12 {
                        assert(text[12] == 'o');
                    }
                    if i == 13 {
                        assert(text[13] == 'r');
                    }
                    if i == 14 {
                        assert(text[14] == 'e');
                    }
                    if i == 15 {
                        assert(text[15] == 'b');
                    }
                    if i == 16 {
                        assert(text[16] == 'o');
                    }
                    if i == 17 {
                        assert(text[17] == 'a');
                    }
                    if i == 18 {
                        assert(text[18] == 'r');
                    }
                    if i == 19 {
                        assert(text[19] == 'd');
                    }
                    if i == 20 {
                        assert(text[20] == '_');
                    }
                    if i == 21 {
                        assert(text[21] == 's');
                    }
                    if i == 22 {
                        assert(text[22] == 'l');
                    }
                    if i == 23 {
                        assert(text[23] == 'o');
                    }
                    if i == 24 {
                        assert(text[24] == 't');
                    }
                },
                CommandParserSpecView::ScoreHolder(_) => {
                    if i == 0 {
                        assert(text[0] == 'm');
                    }
                    if i == 1 {
                        assert(text[1] == 'i');
                    }
                    if i == 2 {
                        assert(text[2] == 'n');
                    }
                    if i == 3 {
                        assert(text[3] == 'e');
                    }
                    if i == 4 {
                        assert(text[4] == 'c');
                    }
                    if i == 5 {
                        assert(text[5] == 'r');
                    }
                    if i == 6 {
                        assert(text[6] == 'a');
                    }
                    if i == 7 {
                        assert(text[7] == 'f');
                    }
                    if i == 8 {
                        assert(text[8] == 't');
                    }
                    if i == 9 {
                        assert(text[9] == ':');
                    }
                    if i == 10 {
                        assert(text[10] == 's');
                    }
                    if i == 11 {
                        assert(text[11] == 'c');
                    }
                    if i == 12 {
                        assert(text[12] == 'o');
                    }
                    if i == 13 {
                        assert(text[13] == 'r');
                    }
                    if i == 14 {
                        assert(text[14] == 'e');
                    }
                    if i == 15 {
                        assert(text[15] == '_');
                    }
                    if i == 16 {
                        assert(text[16] == 'h');
                    }
                    if i == 17 {
                        assert(text[17] == 'o');
                    }
                    if i == 18 {
                        assert(text[18] == 'l');
                    }
                    if i == 19 {
                        assert(text[19] == 'd');
                    }
                    if i == 20 {
                        assert(text[20] == 'e');
                    }
                    if i == 21 {
                        assert(text[21] == 'r');
                    }
                },
                CommandParserSpecView::Swizzle => {
                    if i == 0 {
                        assert(text[0] == 'm');
                    }
                    if i == 1 {
                        assert(text[1] == 'i');
                    }
                    if i == 2 {
                        assert(text[2] == 'n');
                    }
                    if i == 3 {
                        assert(text[3] == 'e');
                    }
                    if i == 4 {
                        assert(text[4] == 'c');
                    }
                    if i == 5 {
                        assert(text[5] == 'r');
                    }
                    if i == 6 {
                        assert(text[6] == 'a');
                    }
                    if i == 7 {
                        assert(text[7] == 'f');
                    }
                    if i == 8 {
                        assert(text[8] == 't');
                    }
                    if i == 9 {
                        assert(text[9] == ':');
                    }
                    if i == 10 {
                        assert(text[10] == 's');
                    }
                    if i == 11 {
                        assert(text[11] == 'w');
                    }
                    if i == 12 {
                        assert(text[12] == 'i');
                    }
                    if i == 13 {
                        assert(text[13] == 'z');
                    }
                    if i == 14 {
                        assert(text[14] == 'z');
                    }
                    if i == 15 {
                        assert(text[15] == 'l');
                    }
                    if i == 16 {
                        assert(text[16] == 'e');
                    }
                },
                CommandParserSpecView::Team => {
                    if i == 0 {
                        assert(text[0] == 'm');
                    }
                    if i == 1 {
                        assert(text[1] == 'i');
                    }
                    if i == 2 {
                        assert(text[2] == 'n');
                    }
                    if i == 3 {
                        assert(text[3] == 'e');
                    }
                    if i == 4 {
                        assert(text[4] == 'c');
                    }
                    if i == 5 {
                        assert(text[5] == 'r');
                    }
                    if i == 6 {
                        assert(text[6] == 'a');
                    }
                    if i == 7 {
                        assert(text[7] == 'f');
                    }
                    if i == 8 {
                        assert(text[8] == 't');
                    }
                    if i == 9 {
                        assert(text[9] == ':');
                    }
                    if i == 10 {
                        assert(text[10] == 't');
                    }
                    if i == 11 {
                        assert(text[11] == 'e');
                    }
                    if i == 12 {
                        assert(text[12] == 'a');
                    }
                    if i == 13 {
                        assert(text[13] == 'm');
                    }
                },
                CommandParserSpecView::ItemSlot => {
                    if i == 0 {
                        assert(text[0] == 'm');
                    }
                    if i == 1 {
                        assert(text[1] == 'i');
                    }
                    if i == 2 {
                        assert(text[2] == 'n');
                    }
                    if i == 3 {
                        assert(text[3] == 'e');
                    }
                    if i == 4 {
                        assert(text[4] == 'c');
                    }
                    if i == 5 {
                        assert(text[5] == 'r');
                    }
                    if i == 6 {
                        assert(text[6] == 'a');
                    }
                    if i == 7 {
                        assert(text[7] == 'f');
                    }
                    if i == 8 {
                        assert(text[8] == 't');
                    }
                    if i == 9 {
                        assert(text[9] == ':');
                    }
                    if i == 10 {
                        assert(text[10] == 'i');
                    }
                    if i == 11 {
                        assert(text[11] == 't');
                    }
                    if i == 12 {
                        assert(text[12] == 'e');
                    }
                    if i == 13 {
                        assert(text[13] == 'm');
                    }
                    if i == 14 {
                        assert(text[14] == '_');
                    }
                    if i == 15 {
                        assert(text[15] == 's');
                    }
                    if i == 16 {
                        assert(text[16] == 'l');
                    }
                    if i == 17 {
                        assert(text[17] == 'o');
                    }
                    if i == 18 {
                        assert(text[18] == 't');
                    }
                },
                CommandParserSpecView::ResourceLocation => {
                    if i == 0 {
                        assert(text[0] == 'm');
                    }
                    if i == 1 {
                        assert(text[1] == 'i');
                    }
                    if i == 2 {
                        assert(text[2] == 'n');
                    }
                    if i == 3 {
                        assert(text[3] == 'e');
                    }
                    if i == 4 {
                        assert(text[4] == 'c');
                    }
                    if i == 5 {
                        assert(text[5] == 'r');
                    }
                    if i == 6 {
                        assert(text[6] == 'a');
                    }
                    if i == 7 {
                        assert(text[7] == 'f');
                    }
                    if i == 8 {
                        assert(text[8] == 't');
                    }
                    if i == 9 {
                        assert(text[9] == ':');
                    }
                    if i == 10 {
                        assert(text[10] == 'r');
                    }
                    if i == 11 {
                        assert(text[11] == 'e');
                    }
                    if i == 12 {
                        assert(text[12] == 's');
                    }
                    if i == 13 {
                        assert(text[13] == 'o');
                    }
                    if i == 14 {
                        assert(text[14] == 'u');
                    }
                    if i == 15 {
                        assert(text[15] == 'r');
                    }
                    if i == 16 {
                        assert(text[16] == 'c');
                    }
                    if i == 17 {
                        assert(text[17] == 'e');
                    }
                    if i == 18 {
                        assert(text[18] == '_');
                    }
                    if i == 19 {
                        assert(text[19] == 'l');
                    }
                    if i == 20 {
                        assert(text[20] == 'o');
                    }
                    if i == 21 {
                        assert(text[21] == 'c');
                    }
                    if i == 22 {
                        assert(text[22] == 'a');
                    }
                    if i == 23 {
                        assert(text[23] == 't');
                    }
                    if i == 24 {
                        assert(text[24] == 'i');
                    }
                    if i == 25 {
                        assert(text[25] == 'o');
                    }
                    if i == 26 {
                        assert(text[26] == 'n');
                    }
                },
                CommandParserSpecView::MobEffect => {
                    if i == 0 {
                        assert(text[0] == 'm');
                    }
                    if i == 1 {
                        assert(text[1] == 'i');
                    }
                    if i == 2 {
                        assert(text[2] == 'n');
                    }
                    if i == 3 {
                        assert(text[3] == 'e');
                    }
                    if i == 4 {
                        assert(text[4] == 'c');
                    }
                    if i == 5 {
                        assert(text[5] == 'r');
                    }
                    if i == 6 {
                        assert(text[6] == 'a');
                    }
                    if i == 7 {
                        assert(text[7] == 'f');
                    }
                    if i == 8 {
                        assert(text[8] == 't');
                    }
                    if i == 9 {
                        assert(text[9] == ':');
                    }
                    if i == 10 {
                        assert(text[10] == 'm');
                    }
                    if i == 11 {
                        assert(text[11] == 'o');
                    }
                    if i == 12 {
                        assert(text[12] == 'b');
                    }
                    if i == 13 {
                        assert(text[13] == '_');
                    }
                    if i == 14 {
                        assert(text[14] == 'e');
                    }
                    if i == 15 {
                        assert(text[15] == 'f');
                    }
                    if i == 16 {
                        assert(text[16] == 'f');
                    }
                    if i == 17 {
                        assert(text[17] == 'e');
                    }
                    if i == 18 {
                        assert(text[18] == 'c');
                    }
                    if i == 19 {
                        assert(text[19] == 't');
                    }
                },
                CommandParserSpecView::Function => {
                    if i == 0 {
                        assert(text[0] == 'm');
                    }
                    if i == 1 {
                        assert(text[1] == 'i');
                    }
                    if i == 2 {
                        assert(text[2] == 'n');
                    }
                    if i == 3 {
                        assert(text[3] == 'e');
                    }
                    if i == 4 {
                        assert(text[4] == 'c');
                    }
                    if i == 5 {
                        assert(text[5] == 'r');
                    }
                    if i == 6 {
                        assert(text[6] == 'a');
                    }
                    if i == 7 {
                        assert(text[7] == 'f');
                    }
                    if i == 8 {
                        assert(text[8] == 't');
                    }
                    if i == 9 {
                        assert(text[9] == ':');
                    }
                    if i == 10 {
                        assert(text[10] == 'f');
                    }
                    if i == 11 {
                        assert(text[11] == 'u');
                    }
                    if i == 12 {
                        assert(text[12] == 'n');
                    }
                    if i == 13 {
                        assert(text[13] == 'c');
                    }
                    if i == 14 {
                        assert(text[14] == 't');
                    }
                    if i == 15 {
                        assert(text[15] == 'i');
                    }
                    if i == 16 {
                        assert(text[16] == 'o');
                    }
                    if i == 17 {
                        assert(text[17] == 'n');
                    }
                },
                CommandParserSpecView::EntityAnchor => {
                    if i == 0 {
                        assert(text[0] == 'm');
                    }
                    if i == 1 {
                        assert(text[1] == 'i');
                    }
                    if i == 2 {
                        assert(text[2] == 'n');
                    }
                    if i == 3 {
                        assert(text[3] == 'e');
                    }
                    if i == 4 {
                        assert(text[4] == 'c');
                    }
                    if i == 5 {
                        assert(text[5] == 'r');
                    }
                    if i == 6 {
                        assert(text[6] == 'a');
                    }
                    if i == 7 {
                        assert(text[7] == 'f');
                    }
                    if i == 8 {
                        assert(text[8] == 't');
                    }
                    if i == 9 {
                        assert(text[9] == ':');
                    }
                    if i == 10 {
                        assert(text[10] == 'e');
                    }
                    if i == 11 {
                        assert(text[11] == 'n');
                    }
                    if i == 12 {
                        assert(text[12] == 't');
                    }
                    if i == 13 {
                        assert(text[13] == 'i');
                    }
                    if i == 14 {
                        assert(text[14] == 't');
                    }
                    if i == 15 {
                        assert(text[15] == 'y');
                    }
                    if i == 16 {
                        assert(text[16] == '_');
                    }
                    if i == 17 {
                        assert(text[17] == 'a');
                    }
                    if i == 18 {
                        assert(text[18] == 'n');
                    }
                    if i == 19 {
                        assert(text[19] == 'c');
                    }
                    if i == 20 {
                        assert(text[20] == 'h');
                    }
                    if i == 21 {
                        assert(text[21] == 'o');
                    }
                    if i == 22 {
                        assert(text[22] == 'r');
                    }
                },
                CommandParserSpecView::Range(_) => {
                    if i == 0 {
                        assert(text[0] == 'm');
                    }
                    if i == 1 {
                        assert(text[1] == 'i');
                    }
                    if i == 2 {
                        assert(text[2] == 'n');
                    }
                    if i == 3 {
                        assert(text[3] == 'e');
                    }
                    if i == 4 {
                        assert(text[4] == 'c');
                    }
                    if i == 5 {
                        assert(text[5] == 'r');
                    }
                    if i == 6 {
                        assert(text[6] == 'a');
                    }
                    if i == 7 {
                        assert(text[7] == 'f');
                    }
                    if i == 8 {
                        assert(text[8] == 't');
                    }
                    if i == 9 {
                        assert(text[9] == ':');
                    }
                    if i == 10 {
                        assert(text[10] == 'r');
                    }
                    if i == 11 {
                        assert(text[11] == 'a');
                    }
                    if i == 12 {
                        assert(text[12] == 'n');
                    }
                    if i == 13 {
                        assert(text[13] == 'g');
                    }
                    if i == 14 {
                        assert(text[14] == 'e');
                    }
                },
                CommandParserSpecView::IntRange => {
                    if i == 0 {
                        assert(text[0] == 'm');
                    }
                    if i == 1 {
                        assert(text[1] == 'i');
                    }
                    if i == 2 {
                        assert(text[2] == 'n');
                    }
                    if i == 3 {
                        assert(text[3] == 'e');
                    }
                    if i == 4 {
                        assert(text[4] == 'c');
                    }
                    if i == 5 {
                        assert(text[5] == 'r');
                    }
                    if i == 6 {
                        assert(text[6] == 'a');
                    }
                    if i == 7 {
                        assert(text[7] == 'f');
                    }
                    if i == 8 {
                        assert(text[8] == 't');
                    }
                    if i == 9 {
                        assert(text[9] == ':');
                    }
                    if i == 10 {
                        assert(text[10] == 'i');
                    }
                    if i == 11 {
                        assert(text[11] == 'n');
                    }
                    if i == 12 {
                        assert(text[12] == 't');
                    }
                    if i == 13 {
                        assert(text[13] == '_');
                    }
                    if i == 14 {
                        assert(text[14] == 'r');
                    }
                    if i == 15 {
                        assert(text[15] == 'a');
                    }
                    if i == 16 {
                        assert(text[16] == 'n');
                    }
                    if i == 17 {
                        assert(text[17] == 'g');
                    }
                    if i == 18 {
                        assert(text[18] == 'e');
                    }
                },
                CommandParserSpecView::FloatRange => {
                    if i == 0 {
                        assert(text[0] == 'm');
                    }
                    if i == 1 {
                        assert(text[1] == 'i');
                    }
                    if i == 2 {
                        assert(text[2] == 'n');
                    }
                    if i == 3 {
                        assert(text[3] == 'e');
                    }
                    if i == 4 {
                        assert(text[4] == 'c');
                    }
                    if i == 5 {
                        assert(text[5] == 'r');
                    }
                    if i == 6 {
                        assert(text[6] == 'a');
                    }
                    if i == 7 {
                        assert(text[7] == 'f');
                    }
                    if i == 8 {
                        assert(text[8] == 't');
                    }
                    if i == 9 {
                        assert(text[9] == ':');
                    }
                    if i == 10 {
                        assert(text[10] == 'f');
                    }
                    if i == 11 {
                        assert(text[11] == 'l');
                    }
                    if i == 12 {
                        assert(text[12] == 'o');
                    }
                    if i == 13 {
                        assert(text[13] == 'a');
                    }
                    if i == 14 {
                        assert(text[14] == 't');
                    }
                    if i == 15 {
                        assert(text[15] == '_');
                    }
                    if i == 16 {
                        assert(text[16] == 'r');
                    }
                    if i == 17 {
                        assert(text[17] == 'a');
                    }
                    if i == 18 {
                        assert(text[18] == 'n');
                    }
                    if i == 19 {
                        assert(text[19] == 'g');
                    }
                    if i == 20 {
                        assert(text[20] == 'e');
                    }
                },
                CommandParserSpecView::ItemEnchantment => {
                    if i == 0 {
                        assert(text[0] == 'm');
                    }
                    if i == 1 {
                        assert(text[1] == 'i');
                    }
                    if i == 2 {
                        assert(text[2] == 'n');
                    }
                    if i == 3 {
                        assert(text[3] == 'e');
                    }
                    if i == 4 {
                        assert(text[4] == 'c');
                    }
                    if i == 5 {
                        assert(text[5] == 'r');
                    }
                    if i == 6 {
                        assert(text[6] == 'a');
                    }
                    if i == 7 {
                        assert(text[7] == 'f');
                    }
                    if i == 8 {
                        assert(text[8] == 't');
                    }
                    if i == 9 {
                        assert(text[9] == ':');
                    }
                    if i == 10 {
                        assert(text[10] == 'i');
                    }
                    if i == 11 {
                        assert(text[11] == 't');
                    }
                    if i == 12 {
                        assert(text[12] == 'e');
                    }
                    if i == 13 {
                        assert(text[13] == 'm');
                    }
                    if i == 14 {
                        assert(text[14] == '_');
                    }
                    if i == 15 {
                        assert(text[15] == 'e');
                    }
                    if i == 16 {
                        assert(text[16] == 'n');
                    }
                    if i == 17 {
                        assert(text[17] == 'c');
                    }
                    if i == 18 {
                        assert(text[18] == 'h');
                    }
                    if i == 19 {
                        assert(text[19] == 'a');
                    }
                    if i == 20 {
                        assert(text[20] == 'n');
                    }
                    if i == 21 {
                        assert(text[21] == 't');
                    }
                    if i == 22 {
                        assert(text[22] == 'm');
                    }
                    if i == 23 {
                        assert(text[23] == 'e');
                    }
                    if i == 24 {
                        assert(text[24] == 'n');
                    }
                    if i == 25 {
                        assert(text[25] == 't');
                    }
                },
                CommandParserSpecView::EntitySummon => {
                    if i == 0 {
                        assert(text[0] == 'm');
                    }
                    if i == 1 {
                        assert(text[1] == 'i');
                    }
                    if i == 2 {
                        assert(text[2] == 'n');
                    }
                    if i == 3 {
                        assert(text[3] == 'e');
                    }
                    if i == 4 {
                        assert(text[4] == 'c');
                    }
                    if i == 5 {
                        assert(text[5] == 'r');
                    }
                    if i == 6 {
                        assert(text[6] == 'a');
                    }
                    if i == 7 {
                        assert(text[7] == 'f');
                    }
                    if i == 8 {
                        assert(text[8] == 't');
                    }
                    if i == 9 {
                        assert(text[9] == ':');
                    }
                    if i == 10 {
                        assert(text[10] == 'e');
                    }
                    if i == 11 {
                        assert(text[11] == 'n');
                    }
                    if i == 12 {
                        assert(text[12] == 't');
                    }
                    if i == 13 {
                        assert(text[13] == 'i');
                    }
                    if i == 14 {
                        assert(text[14] == 't');
                    }
                    if i == 15 {
                        assert(text[15] == 'y');
                    }
                    if i == 16 {
                        assert(text[16] == '_');
                    }
                    if i == 17 {
                        assert(text[17] == 's');
                    }
                    if i == 18 {
                        assert(text[18] == 'u');
                    }
                    if i == 19 {
                        assert(text[19] == 'm');
                    }
                    if i == 20 {
                        assert(text[20] == 'm');
                    }
                    if i == 21 {
                        assert(text[21] == 'o');
                    }
                    if i == 22 {
                        assert(text[22] == 'n');
                    }
                },
                CommandParserSpecView::Dimension => {
                    if i == 0 {
                        assert(text[0] == 'm');
                    }
                    if i == 1 {
                        assert(text[1] == 'i');
                    }
                    if i == 2 {
                        assert(text[2] == 'n');
                    }
                    if i == 3 {
                        assert(text[3] == 'e');
                    }
                    if i == 4 {
                        assert(text[4] == 'c');
                    }
                    if i == 5 {
                        assert(text[5] == 'r');
                    }
                    if i == 6 {
                        assert(text[6] == 'a');
                    }
                    if i == 7 {
                        assert(text[7] == 'f');
                    }
                    if i == 8 {
                        assert(text[8] == 't');
                    }
                    if i == 9 {
                        assert(text[9] == ':');
                    }
                    if i == 10 {
                        assert(text[10] == 'd');
                    }
                    if i == 11 {
                        assert(text[11] == 'i');
                    }
                    if i == 12 {
                        assert(text[12] == 'm');
                    }
                    if i == 13 {
                        assert(text[13] == 'e');
                    }
                    if i == 14 {
                        assert(text[14] == 'n');
                    }
                    if i == 15 {
                        assert(text[15] == 's');
                    }
                    if i == 16 {
                        assert(text[16] == 'i');
                    }
                    if i == 17 {
                        assert(text[17] == 'o');
                    }
                    if i == 18 {
                        assert(text[18] == 'n');
                    }
                },
                CommandParserSpecView::UUID => {
                    if i == 0 {
                        assert(text[0] == 'm');
                    }
                    if i == 1 {
                        assert(text[1] == 'i');
                    }
                    if i == 2 {
                        assert(text[2] == 'n');
                    }
                    if i == 3 {
                        assert(text[3] == 'e');
                    }
                    if i == 4 {
                        assert(text[4] == 'c');
                    }
                    if i == 5 {
                        assert(text[5] == 'r');
                    }
                    if i == 6 {
                        assert(text[6] == 'a');
                    }
                    if i == 7 {
                        assert(text[7] == 'f');
                    }
                    if i == 8 {
                        assert(text[8] == 't');
                    }
                    if i == 9 {
                        assert(text[9] == ':');
                    }
                    if i == 10 {
                        assert(text[10] == 'u');
                    }
                    if i == 11 {
                        assert(text[11] == 'u');
                    }
                    if i == 12 {
                        assert(text[12] == 'i');
                    }
                    if i == 13 {
                        assert(text[13] == 'd');
                    }
                },
                CommandParserSpecView::NbtTag => {
                    if i == 0 {
                        assert(text[0] == 'm');
                    }
                    if i == 1 {
                        assert(text[1] == 'i');
                    }
                    if i == 2 {
                        assert(text[2] == 'n');
                    }
                    if i == 3 {
                        assert(text[3] == 'e');
                    }
                    if i == 4 {
                        assert(text[4] == 'c');
                    }
                    if i == 5 {
                        assert(text[5] == 'r');
                    }
                    if i == 6 {
                        assert(text[6] == 'a');
                    }
                    if i == 7 {
                        assert(text[7] == 'f');
                    }
                    if i == 8 {
                        assert(text[8] == 't');
                    }
                    if i == 9 {
                        assert(text[9] == ':');
                    }
                    if i == 10 {
                        assert(text[10] == 'n');
                    }
                    if i == 11 {
                        assert(text[11] == 'b');
                    }
                    if i == 12 {
                        assert(text[12] == 't');
                    }
                    if i == 13 {
                        assert(text[13] == '_');
                    }
                    if i == 14 {
                        assert(text[14] == 't');
                    }
                    if i == 15 {
                        assert(text[15] == 'a');
                    }
                    if i == 16 {
                        assert(text[16] == 'g');
                    }
                },
                CommandParserSpecView::NbtCompoundTag => {
                    if i == 0 {
                        assert(text[0] == 'm');
                    }
                    if i == 1 {
                        assert(text[1] == 'i');
                    }
                    if i == 2 {
                        assert(text[2] == 'n');
                    }
                    if i == 3 {
                        assert(text[3] == 'e');
                    }
                    if i == 4 {
                        assert(text[4] == 'c');
                    }
                    if i == 5 {
                        assert(text[5] == 'r');
                    }
                    if i == 6 {
                        assert(text[6] == 'a');
                    }
                    if i == 7 {
                        assert(text[7] == 'f');
                    }
                    if i == 8 {
                        assert(text[8] == 't');
                    }
                    if i == 9 {
                        assert(text[9] == ':');
                    }
                    if i == 10 {
                        assert(text[10] == 'n');
                    }
                    if i == 11 {
                        assert(text[11] == 'b');
                    }
                    if i == 12 {
                        assert(text[12] == 't');
                    }
                    if i == 13 {
                        assert(text[13] == '_');
                    }
                    if i == 14 {
                        assert(text[14] == 'c');
                    }
                    if i == 15 {
                        assert(text[15] == 'o');
                    }
                    if i == 16 {
                        assert(text[16] == 'm');
                    }
                    if i == 17 {
                        assert(text[17] == 'p');
                    }
                    if i == 18 {
                        assert(text[18] == 'o');
                    }
                    if i == 19 {
                        assert(text[19] == 'u');
                    }
                    if i == 20 {
                        assert(text[20] == 'n');
                    }
                    if i == 21 {
                        assert(text[21] == 'd');
                    }
                    if i == 22 {
                        assert(text[22] == '_');
                    }
                    if i == 23 {
                        assert(text[23] == 't');
                    }
                    if i == 24 {
                        assert(text[24] == 'a');
                    }
                    if i == 25 {
                        assert(text[25] == 'g');
                    }
                },
                CommandParserSpecView::Time => {
                    if i == 0 {
                        assert(text[0] == 'm');
                    }
                    if i == 1 {
                        assert(text[1] == 'i');
                    }
                    if i == 2 {
                        assert(text[2] == 'n');
                    }
                    if i == 3 {
                        assert(text[3] == 'e');
                    }
                    if i == 4 {
                        assert(text[4] == 'c');
                    }
                    if i == 5 {
                        assert(text[5] == 'r');
                    }
                    if i == 6 {
                        assert(text[6] == 'a');
                    }
                    if i == 7 {
                        assert(text[7] == 'f');
                    }
                    if i == 8 {
                        assert(text[8] == 't');
                    }
                    if i == 9 {
                        assert(text[9] == ':');
                    }
                    if i == 10 {
                        assert(text[10] == 't');
                    }
                    if i == 11 {
                        assert(text[11] == 'i');
                    }
                    if i == 12 {
                        assert(text[12] == 'm');
                    }
                    if i == 13 {
                        assert(text[13] == 'e');
                    }
                },
            }
        }
    }

    /// What reading the body of a variant of the kind of `v` gives.
    pub open spec fn decode_as(v: CommandParserSpecView, data: Seq<u8>) -> Decoded<CommandParserSpecView> {
        match v {
            CommandParserSpecView::Bool => Ok((CommandParserSpecView::Bool, 0)),
            CommandParserSpecView::Double(_) => match <DoubleParserProps>::decode(data) {
                Ok((body, n)) => Ok((CommandParserSpecView::Double(body), n)),
                Err(e) => Err(e),
            },
            CommandParserSpecView::Float(_) => match <FloatParserProps>::decode(data) {
                Ok((body, n)) => Ok((CommandParserSpecView::Float(body), n)),
                Err(e) => Err(e),
            },
            CommandParserSpecView::Integer(_) => match <IntegerParserProps>::decode(data) {
                Ok((body, n)) => Ok((CommandParserSpecView::Integer(body), n)),
                Err(e) => Err(e),
            },
            CommandParserSpecView::StringParser(_) => match <StringParserMode>::decode(data) {
                Ok((body, n)) => Ok((CommandParserSpecView::StringParser(body), n)),
                Err(e) => Err(e),
            },
            CommandParserSpecView::Entity(_) => match <EntityParserFlags>::decode(data) {
                Ok((body, n)) => Ok((CommandParserSpecView::Entity(body), n)),
                Err(e) => Err(e),
            },
            CommandParserSpecView::GameProfile => Ok((CommandParserSpecView::GameProfile, 0)),
            CommandParserSpecView::BlockPosition => Ok((CommandParserSpecView::BlockPosition, 0)),
            CommandParserSpecView::ColumnPosition => Ok((CommandParserSpecView::ColumnPosition, 0)),
            CommandParserSpecView::Vec3 => Ok((CommandParserSpecView::Vec3, 0)),
            CommandParserSpecView::Vec2 => Ok((CommandParserSpecView::Vec2, 0)),
            CommandParserSpecView::BlockState => Ok((CommandParserSpecView::BlockState, 0)),
            CommandParserSpecView::BlockPredicate => Ok((CommandParserSpecView::BlockPredicate, 0)),
            CommandParserSpecView::ItemStack => Ok((CommandParserSpecView::ItemStack, 0)),
            CommandParserSpecView::ItemPredicate => Ok((CommandParserSpecView::ItemPredicate, 0)),
            CommandParserSpecView::Color => Ok((CommandParserSpecView::Color, 0)),
            CommandParserSpecView::Component => Ok((CommandParserSpecView::Component, 0)),
            CommandParserSpecView::Message => Ok((CommandParserSpecView::Message, 0)),
            CommandParserSpecView::Nbt => Ok((CommandParserSpecView::Nbt, 0)),
            CommandParserSpecView::NbtPath => Ok((CommandParserSpecView::NbtPath, 0)),
            CommandParserSpecView::Objective => Ok((CommandParserSpecView::Objective, 0)),
            CommandParserSpecView::ObjectiveCriteria => Ok((CommandParserSpecView::ObjectiveCriteria, 0)),
            CommandParserSpecView::Operation => Ok((CommandParserSpecView::Operation, 0)),
            CommandParserSpecView::Particle => Ok((CommandParserSpecView::Particle, 0)),
            CommandParserSpecView::Rotation => Ok((CommandParserSpecView::Rotation, 0)),
            CommandParserSpecView::Angle => Ok((CommandParserSpecView::Angle, 0)),
            CommandParserSpecView::ScoreboardSlot => Ok((CommandParserSpecView::ScoreboardSlot, 0)),
            CommandParserSpecView::ScoreHolder(_) => match <ScoreHolderFlags>::decode(data) {
                Ok((body, n)) => Ok((CommandParserSpecView::ScoreHolder(body), n)),
                Err(e) => Err(e),
            },
            CommandParserSpecView::Swizzle => Ok((CommandParserSpecView::Swizzle, 0)),
            CommandParserSpecView::Team => Ok((CommandParserSpecView::Team, 0)),
            CommandParserSpecView::ItemSlot => Ok((CommandParserSpecView::ItemSlot, 0)),
            CommandParserSpecView::ResourceLocation => Ok((CommandParserSpecView::ResourceLocation, 0)),
            CommandParserSpecView::MobEffect => Ok((CommandParserSpecView::MobEffect, 0)),
            CommandParserSpecView::Function => Ok((CommandParserSpecView::Function, 0)),
            CommandParserSpecView::EntityAnchor => Ok((CommandParserSpecView::EntityAnchor, 0)),
            CommandParserSpecView::Range(_) => match <RangeParserProps>::decode(data) {
                Ok((body, n)) => Ok((CommandParserSpecView::Range(body), n)),
                Err(e) => Err(e),
            },
            CommandParserSpecView::IntRange => Ok((CommandParserSpecView::IntRange, 0)),
            CommandParserSpecView::FloatRange => Ok((CommandParserSpecView::FloatRange, 0)),
            CommandParserSpecView::ItemEnchantment => Ok((CommandParserSpecView::ItemEnchantment, 0)),
            CommandParserSpecView::EntitySummon => Ok((CommandParserSpecView::EntitySummon, 0)),
            CommandParserSpecView::Dimension => Ok((CommandParserSpecView::Dimension, 0)),
            CommandParserSpecView::UUID => Ok((CommandParserSpecView::UUID, 0)),
            CommandParserSpecView::NbtTag => Ok((CommandParserSpecView::NbtTag, 0)),
            CommandParserSpecView::NbtCompoundTag => Ok((CommandParserSpecView::NbtCompoundTag, 0)),
            CommandParserSpecView::Time => Ok((CommandParserSpecView::Time, 0)),
        }
    }

    /// What follows the text, written out and followed by anything, reads
    /// back under that text.
    pub proof fn lemma_body_round_trip(v: CommandParserSpecView, rest: Seq<u8>)
        requires
            <Self as ProtocolType>::faithful(v),
            <Self as ProtocolType>::delimited() || rest.len() == 0,
        ensures
            Self::body_writable(v),
            Self::decode_with_id(Self::name_of(v), Self::body_of(v) + rest) == Ok::<_, DecodeFailure>(
                (v, Self::body_of(v).len()),
            ),
    {
        Self::lemma_names(v);
        assert(Self::decode_with_id(Self::name_of(v), Self::body_of(v) + rest) == Self::decode_as(
            v,
            Self::body_of(v) + rest,
        ));
        match v {
            CommandParserSpecView::Bool => {
                assert(Seq::<u8>::empty() + rest =~= rest);
            },
            CommandParserSpecView::Double(body) => {
                <DoubleParserProps>::lemma_round_trip(body, rest);
            },
            CommandParserSpecView::Float(body) => {
                <FloatParserProps>::lemma_round_trip(body, rest);
            },
            CommandParserSpecView::Integer(body) => {
                <IntegerParserProps>::lemma_round_trip(body, rest);
            },
            CommandParserSpecView::StringParser(body) => {
                <StringParserMode>::lemma_round_trip(body, rest);
            },
            CommandParserSpecView::Entity(body) => {
                <EntityParserFlags>::lemma_round_trip(body, rest);
            },
            CommandParserSpecView::GameProfile => {
                assert(Seq::<u8>::empty() + rest =~= rest);
            },
            CommandParserSpecView::BlockPosition => {
                assert(Seq::<u8>::empty() + rest =~= rest);
            },
            CommandParserSpecView::ColumnPosition => {
                assert(Seq::<u8>::empty() + rest =~= rest);
            },
            CommandParserSpecView::Vec3 => {
                assert(Seq::<u8>::empty() + rest =~= rest);
            },
            CommandParserSpecView::Vec2 => {
                assert(Seq::<u8>::empty() + rest =~= rest);
            },
            CommandParserSpecView::BlockState => {
                assert(Seq::<u8>::empty() + rest =~= rest);
            },
            CommandParserSpecView::BlockPredicate => {
                assert(Seq::<u8>::empty() + rest =~= rest);
            },
            CommandParserSpecView::ItemStack => {
                assert(Seq::<u8>::empty() + rest =~= rest);
            },
            CommandParserSpecView::ItemPredicate => {
                assert(Seq::<u8>::empty() + rest =~= rest);
            },
            CommandParserSpecView::Color => {
                assert(Seq::<u8>::empty() + rest =~= rest);
            },
            CommandParserSpecView::Component => {
                assert(Seq::<u8>::empty() + rest =~= rest);
            },
            CommandParserSpecView::Message => {
                assert(Seq::<u8>::empty() + rest =~= rest);
            },
            CommandParserSpecView::Nbt => {
                assert(Seq::<u8>::empty() + rest =~= rest);
            },
            CommandParserSpecView::NbtPath => {
                assert(Seq::<u8>::empty() + rest =~= rest);
            },
            CommandParserSpecView::Objective => {
                assert(Seq::<u8>::empty() + rest =~= rest);
            },
            CommandParserSpecView::ObjectiveCriteria => {
                assert(Seq::<u8>::empty() + rest =~= rest);
            },
            CommandParserSpecView::Operation => {
                assert(Seq::<u8>::empty() + rest =~= rest);
            },
            CommandParserSpecView::Particle => {
                assert(Seq::<u8>::empty() + rest =~= rest);
            },
            CommandParserSpecView::Rotation => {
                assert(Seq::<u8>::empty() + rest =~= rest);
            },
            CommandParserSpecView::Angle => {
                assert(Seq::<u8>::empty() + rest =~= rest);
            },
            CommandParserSpecView::ScoreboardSlot => {
                assert(Seq::<u8>::empty() + rest =~= rest);
            },
            CommandParserSpecView::ScoreHolder(body) => {
                <ScoreHolderFlags>::lemma_round_trip(body, rest);
            },
            CommandParserSpecView::Swizzle => {
                assert(Seq::<u8>::empty() + rest =~= rest);
            },
            CommandParserSpecView::Team => {
                assert(Seq::<u8>::empty() + rest =~= rest);
            },
            CommandParserSpecView::ItemSlot => {
                assert(Seq::<u8>::empty() + rest =~= rest);
            },
            CommandParserSpecView::ResourceLocation => {
                assert(Seq::<u8>::empty() + rest =~= rest);
            },
            CommandParserSpecView::MobEffect => {
                assert(Seq::<u8>::empty() + rest =~= rest);
            },
            CommandParserSpecView::Function => {
                assert(Seq::<u8>::empty() + rest =~= rest);
            },
            CommandParserSpecView::EntityAnchor => {
                assert(Seq::<u8>::empty() + rest =~= rest);
            },
            CommandParserSpecView::Range(body) => {
                <RangeParserProps>::lemma_round_trip(body, rest);
            },
            CommandParserSpecView::IntRange => {
                assert(Seq::<u8>::empty() + rest =~= rest);
            },
            CommandParserSpecView::FloatRange => {
                assert(Seq::<u8>::empty() + rest =~= rest);
            },
            CommandParserSpecView::ItemEnchantment => {
                assert(Seq::<u8>::empty() + rest =~= rest);
            },
            CommandParserSpecView::EntitySummon => {
                assert(Seq::<u8>::empty() + rest =~= rest);
            },
            CommandParserSpecView::Dimension => {
                assert(Seq::<u8>::empty() + rest =~= rest);
            },
            CommandParserSpecView::UUID => {
                assert(Seq::<u8>::empty() + rest =~= rest);
            },
            CommandParserSpecView::NbtTag => {
                assert(Seq::<u8>::empty() + rest =~= rest);
            },
            CommandParserSpecView::NbtCompoundTag => {
                assert(Seq::<u8>::empty() + rest =~= rest);
            },
            CommandParserSpecView::Time => {
                assert(Seq::<u8>::empty() + rest =~= rest);
            },
        }
    }
}

impl Serialize for CommandParserSpec {
    open spec fn serializable(v: CommandParserSpecView) -> bool {
        Self::body_writable(v)
    }

    #[verifier::opaque]
    open spec fn encode(v: CommandParserSpecView) -> Seq<u8> {
        String::encode(Self::name_of(v)) + Self::body_of(v)
    }

    fn mc_serialize<S: Serializer>(&self, to: &mut S) -> (r: SerializeResult) {
        proof {
            reveal(<CommandParserSpec as Serialize>::encode);
        }
        let name = self.name().to_owned();
        name.mc_serialize(to)?;
        let r = self.serialize_body(to);
        proof {
            let head = String::encode(Self::name_of(self.deep_view()));
            let body = Self::body_of(self.deep_view());
            lemma_concat_assoc(old(to).written(), head, body);
        }
        r
    }
}

impl Deserialize for CommandParserSpec {
    #[verifier::opaque]
    open spec fn decode(data: Seq<u8>) -> Decoded<CommandParserSpecView> {
        match String::decode(data) {
            Err(e) => Err(e),
            Ok((name, n)) => match Self::decode_with_id(name, data.skip(n as int)) {
                Ok((v, m)) => Ok((v, n + m)),
                Err(e) => Err(e),
            },
        }
    }

    fn mc_deserialize(data: &[u8]) -> (r: DeserializeResult<'_, CommandParserSpec>) {
        proof {
            reveal(<CommandParserSpec as Deserialize>::decode);
        }
        let Deserialized { value: name, data: rest } = String::mc_deserialize(data)?;
        let Deserialized { value, data: after } = Self::deserialize_with_id(name.as_str(), rest)?;
        proof {
            lemma_skip_skip(data@, data@.len() - rest@.len(), rest@.len() - after@.len());
        }
        Ok(Deserialized { value, data: after })
    }
}

impl ProtocolType for CommandParserSpec {
    open spec fn faithful(v: CommandParserSpecView) -> bool {
        match v {
            CommandParserSpecView::Bool => true,
            CommandParserSpecView::Double(body) => <DoubleParserProps>::faithful(body),
            CommandParserSpecView::Float(body) => <FloatParserProps>::faithful(body),
            CommandParserSpecView::Integer(body) => <IntegerParserProps>::faithful(body),
            CommandParserSpecView::StringParser(body) => <StringParserMode>::faithful(body),
            CommandParserSpecView::Entity(body) => <EntityParserFlags>::faithful(body),
            CommandParserSpecView::GameProfile => true,
            CommandParserSpecView::BlockPosition => true,
            CommandParserSpecView::ColumnPosition => true,
            CommandParserSpecView::Vec3 => true,
            CommandParserSpecView::Vec2 => true,
            CommandParserSpecView::BlockState => true,
            CommandParserSpecView::BlockPredicate => true,
            CommandParserSpecView::ItemStack => true,
            CommandParserSpecView::ItemPredicate => true,
            CommandParserSpecView::Color => true,
            CommandParserSpecView::Component => true,
            CommandParserSpecView::Message => true,
            CommandParserSpecView::Nbt => true,
            CommandParserSpecView::NbtPath => true,
            CommandParserSpecView::Objective => true,
            CommandParserSpecView::ObjectiveCriteria => true,
            CommandParserSpecView::Operation => true,
            CommandParserSpecView::Particle => true,
            CommandParserSpecView::Rotation => true,
            CommandParserSpecView::Angle => true,
            CommandParserSpecView::ScoreboardSlot => true,
            CommandParserSpecView::ScoreHolder(body) => <ScoreHolderFlags>::faithful(body),
            CommandParserSpecView::Swizzle => true,
            CommandParserSpecView::Team => true,
            CommandParserSpecView::ItemSlot => true,
            CommandParserSpecView::ResourceLocation => true,
            CommandParserSpecView::MobEffect => true,
            CommandParserSpecView::Function => true,
            CommandParserSpecView::EntityAnchor => true,
            CommandParserSpecView::Range(body) => <RangeParserProps>::faithful(body),
            CommandParserSpecView::IntRange => true,
            CommandParserSpecView::FloatRange => true,
            CommandParserSpecView::ItemEnchantment => true,
            CommandParserSpecView::EntitySummon => true,
            CommandParserSpecView::Dimension => true,
            CommandParserSpecView::UUID => true,
            CommandParserSpecView::NbtTag => true,
            CommandParserSpecView::NbtCompoundTag => true,
            CommandParserSpecView::Time => true,
        }
    }

    open spec fn delimited() -> bool {
        <DoubleParserProps>::delimited() && <EntityParserFlags>::delimited() && <FloatParserProps>::delimited() && <IntegerParserProps>::delimited() && <RangeParserProps>::delimited() && <ScoreHolderFlags>::delimited() && <StringParserMode>::delimited()
    }

    proof fn lemma_round_trip(v: CommandParserSpecView, rest: Seq<u8>) {
        reveal(<CommandParserSpec as Serialize>::encode);
        reveal(<CommandParserSpec as Deserialize>::decode);
        let head = String::encode(Self::name_of(v));
        let body = Self::body_of(v);
        Self::lemma_names(v);
        vstd::utf8::is_ascii_chars_encode_utf8(Self::name_of(v));
        String::lemma_round_trip(Self::name_of(v), body + rest);
        Self::lemma_body_round_trip(v, rest);
        lemma_concat_assoc(head, body, rest);
        lemma_skip_concat(head, body + rest);
    }
}

/// An argument of a command: its name, its kind, and where its suggestions come from, if the flags of the node say that this is given.
#[derive(Debug, Clone, PartialEq)]
pub struct CommandArgumentNodeSpec {
    pub name: String,
    pub parser: CommandParserSpec,
    pub suggestions_types: Option<SuggestionsTypeSpec>,
}

/// The mathematical content of a [`CommandArgumentNodeSpec`].
pub struct CommandArgumentNodeSpecView {
    pub name: Seq<char>,
    pub parser: <CommandParserSpec as DeepView>::V,
    pub suggestions_types: <Option<SuggestionsTypeSpec> as DeepView>::V,
}

impl DeepView for CommandArgumentNodeSpec {
    type V = CommandArgumentNodeSpecView;

    open spec fn deep_view(&self) -> CommandArgumentNodeSpecView {
        CommandArgumentNodeSpecView {
            name: self.name.deep_view(),
            parser: self.parser.deep_view(),
            suggestions_types: self.suggestions_types.deep_view(),
        }
    }
}

impl CommandArgumentNodeSpec {
    /// Whether the value can be written.
    pub open spec fn writable(v: CommandArgumentNodeSpecView) -> bool {
        &&& String::serializable(v.name)
        &&& CommandParserSpec::serializable(v.parser)
        &&& given_writable::<SuggestionsTypeSpec>(v.suggestions_types)
    }

    /// The bytes of the value.
    #[verifier::opaque]
    pub open spec fn bytes_of(v: CommandArgumentNodeSpecView) -> Seq<u8> {
        String::encode(v.name) + CommandParserSpec::encode(v.parser) + if_given::<SuggestionsTypeSpec>(v.suggestions_types)
    }

    pub fn serialize<S: Serializer>(&self, to: &mut S) -> (r: SerializeResult)
        ensures
            r is Ok ==> Self::writable(self.deep_view()) && final(to).written() == old(
                to,
            ).written() + Self::bytes_of(self.deep_view()),
            old(to).infallible() ==> final(to).infallible(),
            old(to).infallible() ==> (r is Ok <==> Self::writable(self.deep_view())),
            old(to).infallible() && r is Err ==> (r matches Err(SerializeErr::CannotSerialize(_))),
    {
        proof {
            reveal(CommandArgumentNodeSpec::bytes_of);
        }
        self.name.mc_serialize(to)?;
        self.parser.mc_serialize(to)?;
        write_if_given(&self.suggestions_types, to)?;
        proof {
            let v = self.deep_view();
            let w = old(to).written();
            let e0 = String::encode(v.name);
            let e1 = CommandParserSpec::encode(v.parser);
            let e2 = if_given::<SuggestionsTypeSpec>(v.suggestions_types);
            let l0 = e0;
            let l1 = l0 + e1;
            let l2 = l1 + e2;
            lemma_concat_assoc(w, l0, e1);
            lemma_concat_assoc(w, l1, e2);
        }
        Ok(())
    }

    /// What stands at the front of `data`, read as the value.
    #[verifier::opaque]
    pub open spec fn read(has_suggestions: bool, data: Seq<u8>) -> Decoded<CommandArgumentNodeSpecView> {
        match String::decode(data) {
            Err(e) => Err(e),
            Ok((name, n0)) => {
                match CommandParserSpec::decode(data.skip((n0) as int)) {
                    Err(e) => Err(e),
                    Ok((parser, n1)) => {
                        match decode_if_given::<SuggestionsTypeSpec>(has_suggestions, data.skip((n0 + n1) as int)) {
                            Err(e) => Err(e),
                            Ok((suggestions_types, n2)) => Ok((CommandArgumentNodeSpecView { name, parser, suggestions_types }, n0 + n1 + n2)),
                        }
                    },
                }
            },
        }
    }

    pub fn deserialize(has_suggestions: bool, data: &[u8]) -> (r: DeserializeResult<'_, CommandArgumentNodeSpec>)
        ensures
            agrees(r, data@, Self::read(has_suggestions, data@)),
    {
        proof {
            reveal(CommandArgumentNodeSpec::read);
        }
        let ghost whole = data@;
        let Deserialized { value: name, data: rest0 } = String::mc_deserialize(data)?;
        let Deserialized { value: parser, data: rest1 } = CommandParserSpec::mc_deserialize(rest0)?;
        proof {
            lemma_skip_skip(
                whole,
                whole.len() - rest0@.len(),
                rest0@.len() - rest1@.len(),
            );
        }
        let Deserialized { value: suggestions_types, data: rest2 } = read_if_given::<SuggestionsTypeSpec>(has_suggestions, rest1)?;
        proof {
            lemma_skip_skip(
                whole,
                whole.len() - rest1@.len(),
                rest1@.len() - rest2@.len(),
            );
        }
        Ok(Deserialized { value: CommandArgumentNodeSpec { name, parser, suggestions_types }, data: rest2 })
    }

    /// Whether the value survives the round trip.
    pub open spec fn faithful(v: CommandArgumentNodeSpecView) -> bool {
        &&& String::faithful(v.name)
        &&& CommandParserSpec::faithful(v.parser)
        &&& given_faithful::<SuggestionsTypeSpec>(v.suggestions_types)
    }

    /// Whether the value marks its own end.
    pub open spec fn delimited() -> bool {
        SuggestionsTypeSpec::delimited()
    }

    /// The value, written out and followed by anything, reads back as it was.
    pub proof fn lemma_round_trip(v: CommandArgumentNodeSpecView, rest: Seq<u8>)
        requires
            Self::faithful(v),
            Self::delimited() || rest.len() == 0,
        ensures
            Self::writable(v),
            Self::read(v.suggestions_types is Some, Self::bytes_of(v) + rest) == Ok::<_, DecodeFailure>(
                (v, Self::bytes_of(v).len()),
            ),
    {
        reveal(CommandArgumentNodeSpec::bytes_of);
        reveal(CommandArgumentNodeSpec::read);
        let e0 = String::encode(v.name);
        let e1 = CommandParserSpec::encode(v.parser);
        let e2 = if_given::<SuggestionsTypeSpec>(v.suggestions_types);
        let data = Self::bytes_of(v) + rest;
        let t3 = rest;
        let t2 = e2 + t3;
        let t1 = e1 + t2;
        let t0 = e0 + t1;
        let l0 = e0;
        let l1 = l0 + e1;
        let l2 = l1 + e2;
        lemma_concat_assoc(l1, e2, t3);
        lemma_concat_assoc(l0, e1, t2);
        assert(data == t0);
        String::lemma_round_trip(v.name, t1);
        lemma_skip_concat(e0, t1);
        CommandParserSpec::lemma_round_trip(v.parser, t2);
        lemma_skip_more(data, (e0.len()) as int, e1, t2);
        lemma_if_given_round_trip::<SuggestionsTypeSpec>(v.suggestions_types, t3);
        lemma_skip_more(data, (e0.len() + e1.len()) as int, e2, t3);
    }
}

/// What a node of the command graph is: the root, a word that is typed as it
/// is, or an argument.
#[derive(Clone, Debug, PartialEq)]
pub enum CommandNode {
    Root,
    Argument(CommandArgumentNodeSpec),
    Literal(CommandLiteralNodeSpec),
}

/// The mathematical content of a [`CommandNode`].
pub enum CommandNodeView {
    Root,
    Argument(CommandArgumentNodeSpecView),
    Literal(CommandLiteralNodeSpecView),
}

impl DeepView for CommandNode {
    type V = CommandNodeView;

    open spec fn deep_view(&self) -> CommandNodeView {
        match self {
            CommandNode::Root => CommandNodeView::Root,
            CommandNode::Argument(body) => CommandNodeView::Argument(body.deep_view()),
            CommandNode::Literal(body) => CommandNodeView::Literal(body.deep_view()),
        }
    }
}

proof fn lemma_command_bits(flags: u8)
    by (bit_vector)
    ensures
        flags & 0x03 == flags % 4,
        flags & 0x04 != 0 <==> (flags / 4) % 2 == 1,
        flags & 0x08 != 0 <==> (flags / 8) % 2 == 1,
        flags & 0x10 != 0 <==> (flags / 16) % 2 == 1,
        flags < 4 ==> flags | 0x04 == flags + 4,
        flags < 8 ==> flags | 0x08 == flags + 8,
        flags < 16 ==> flags | 0x10 == flags + 16,
{
}

impl CommandNode {
    /// The number that stands for the kind of node in the two low bits of the
    /// flags.
    pub open spec fn kind_of(v: CommandNodeView) -> u8 {
        match v {
            CommandNodeView::Root => 0,
            CommandNodeView::Literal(_) => 1,
            CommandNodeView::Argument(_) => 2,
        }
    }

    /// Whether the node is an argument that says where its suggestions come
    /// from.
    pub open spec fn suggests(v: CommandNodeView) -> bool {
        v matches CommandNodeView::Argument(body) && body.suggestions_types is Some
    }

    /// The bytes that follow the flags, the children and the redirection.
    pub open spec fn body_of(v: CommandNodeView) -> Seq<u8> {
        match v {
            CommandNodeView::Root => Seq::empty(),
            CommandNodeView::Argument(body) => CommandArgumentNodeSpec::bytes_of(body),
            CommandNodeView::Literal(body) => CommandLiteralNodeSpec::encode(body),
        }
    }

    /// Whether those bytes can be written.
    pub open spec fn body_writable(v: CommandNodeView) -> bool {
        match v {
            CommandNodeView::Root => true,
            CommandNodeView::Argument(body) => CommandArgumentNodeSpec::writable(body),
            CommandNodeView::Literal(body) => CommandLiteralNodeSpec::serializable(body),
        }
    }

    /// The node that `flags` announce, read from `data`. The two low bits
    /// give the kind; both set stand for no kind.
    pub open spec fn decode_with_flags(flags: u8, data: Seq<u8>) -> Decoded<CommandNodeView> {
        if flags % 4 == 0 {
            Ok((CommandNodeView::Root, 0))
        } else if flags % 4 == 1 {
            match CommandLiteralNodeSpec::decode(data) {
                Ok((body, n)) => Ok((CommandNodeView::Literal(body), n)),
                Err(e) => Err(e),
            }
        } else if flags % 4 == 2 {
            match CommandArgumentNodeSpec::read((flags / 16) % 2 == 1, data) {
                Ok((body, n)) => Ok((CommandNodeView::Argument(body), n)),
                Err(e) => Err(e),
            }
        } else {
            Err(DecodeFailure::CannotUnderstandValue)
        }
    }

    /// Writes what follows the flags, the children and the redirection.
    pub fn serialize_body<S: Serializer>(&self, to: &mut S) -> (r: SerializeResult)
        ensures
            r is Ok ==> Self::body_writable(self.deep_view()) && final(to).written() == old(
                to,
            ).written() + Self::body_of(self.deep_view()),
            old(to).infallible() ==> final(to).infallible(),
            old(to).infallible() ==> (r is Ok <==> Self::body_writable(self.deep_view())),
            old(to).infallible() && r is Err ==> (r matches Err(SerializeErr::CannotSerialize(_))),
    {
        match self {
            CommandNode::Root => {
                proof {
                    assert(old(to).written() + Seq::<u8>::empty() =~= old(to).written());
                }
                Ok(())
            },
            CommandNode::Argument(body) => body.serialize(to),
            CommandNode::Literal(body) => body.mc_serialize(to),
        }
    }

    /// Reads the node that `flags` announce. Flags with both low bits set
    /// stand for no kind of node and are refused.
    pub fn deserialize_with_flags(flags: u8, data: &[u8]) -> (r: DeserializeResult<'_, Self>)
        ensures
            agrees(r, data@, Self::decode_with_flags(flags, data@)),
            flags % 4 == 3 ==> (r matches Err(DeserializeErr::CannotUnderstandValue(m)) && m@
                == invalid_message("CommandNode"@, 3)),
    {
        proof {
            lemma_command_bits(flags);
            assert(data@.skip(0) =~= data@);
        }
        match flags & 0x03 {
            0x00 => Ok(Deserialized { value: CommandNode::Root, data }),
            0x01 => {
                let Deserialized { value: body, data: rest } = CommandLiteralNodeSpec::mc_deserialize(
                    data,
                )?;
                Ok(Deserialized { value: CommandNode::Literal(body), data: rest })
            },
            0x02 => {
                let Deserialized { value: body, data: rest } = CommandArgumentNodeSpec::deserialize(
                    flags & 0x10 != 0,
                    data,
                )?;
                Ok(Deserialized { value: CommandNode::Argument(body), data: rest })
            },
            other => Err(
                DeserializeErr::CannotUnderstandValue(invalid_value_message("CommandNode", 3)),
            ),
        }
    }

    /// Whether the node survives the round trip.
    pub open spec fn faithful(v: CommandNodeView) -> bool {
        match v {
            CommandNodeView::Root => true,
            CommandNodeView::Argument(body) => CommandArgumentNodeSpec::faithful(body),
            CommandNodeView::Literal(body) => CommandLiteralNodeSpec::faithful(body),
        }
    }

    /// Whether every kind of node marks its own end.
    pub open spec fn delimited() -> bool {
        CommandArgumentNodeSpec::delimited() && CommandLiteralNodeSpec::delimited()
    }

    /// A node, written out and followed by anything, reads back as it was
    /// under flags that announce it.
    pub proof fn lemma_body_round_trip(v: CommandNodeView, flags: u8, rest: Seq<u8>)
        requires
            Self::faithful(v),
            Self::delimited() || rest.len() == 0,
            flags % 4 == Self::kind_of(v),
            (flags / 16) % 2 == 1 <==> Self::suggests(v),
        ensures
            Self::body_writable(v),
            Self::decode_with_flags(flags, Self::body_of(v) + rest) == Ok::<_, DecodeFailure>(
                (v, Self::body_of(v).len()),
            ),
    {
        match v {
            CommandNodeView::Root => {
                assert(Seq::<u8>::empty() + rest =~= rest);
            },
            CommandNodeView::Argument(body) => {
                CommandArgumentNodeSpec::lemma_round_trip(body, rest);
            },
            CommandNodeView::Literal(body) => {
                CommandLiteralNodeSpec::lemma_round_trip(body, rest);
            },
        }
    }
}

/// The flags of a node: its kind, then 4 if it can be run, 8 if it
/// redirects, and 16 if it is an argument that says where its suggestions
/// come from.
pub open spec fn command_flags(v: CommandNodeSpecView) -> u8 {
    (CommandNode::kind_of(v.node) + (if v.is_executable { 4int } else { 0int }) + (
    if v.redirect_node is Some { 8int } else { 0int }) + (if CommandNode::suggests(v.node) {
        16int
    } else {
        0int
    })) as u8
}

/// A node of the command graph. On the wire a byte of flags comes first: the kind of the node in the two low bits, then one bit each for whether the node can be run, whether it redirects, and whether an argument says where its suggestions come from.
#[derive(Debug, Clone, PartialEq)]
pub struct CommandNodeSpec {
    pub children_indices: CountedArray<VarInt, VarInt>,
    pub redirect_node: Option<VarInt>,
    pub is_executable: bool,
    pub node: CommandNode,
}

/// The mathematical content of a [`CommandNodeSpec`].
pub struct CommandNodeSpecView {
    pub children_indices: <CountedArray<VarInt, VarInt> as DeepView>::V,
    pub redirect_node: <Option<VarInt> as DeepView>::V,
    pub is_executable: bool,
    pub node: <CommandNode as DeepView>::V,
}

impl DeepView for CommandNodeSpec {
    type V = CommandNodeSpecView;

    open spec fn deep_view(&self) -> CommandNodeSpecView {
        CommandNodeSpecView {
            children_indices: self.children_indices.deep_view(),
            redirect_node: self.redirect_node.deep_view(),
            is_executable: self.is_executable.deep_view(),
            node: self.node.deep_view(),
        }
    }
}

impl Serialize for CommandNodeSpec {
    open spec fn serializable(v: CommandNodeSpecView) -> bool {
        &&& u8::serializable(command_flags(v))
        &&& <CountedArray<VarInt, VarInt>>::serializable(v.children_indices)
        &&& given_writable::<VarInt>(v.redirect_node)
        &&& CommandNode::body_writable(v.node)
    }

    #[verifier::opaque]
    open spec fn encode(v: CommandNodeSpecView) -> Seq<u8> {
        u8::encode(command_flags(v)) + <CountedArray<VarInt, VarInt>>::encode(v.children_indices) + if_given::<VarInt>(v.redirect_node) + CommandNode::body_of(v.node)
    }

    fn mc_serialize<S: Serializer>(&self, to: &mut S) -> (r: SerializeResult) {
        proof {
            reveal(<CommandNodeSpec as Serialize>::encode);
        }
        let mut flags: u8 = match &self.node {
            CommandNode::Root => 0x00,
            CommandNode::Literal(_) => 0x01,
            CommandNode::Argument(_) => 0x02,
        };
        proof {
            lemma_command_bits(flags);
        }
        if self.is_executable {
            flags |= 0x04;
        }
        proof {
            lemma_command_bits(flags);
        }
        if self.redirect_node.is_some() {
            flags |= 0x08;
        }
        proof {
            lemma_command_bits(flags);
        }
        match &self.node {
            CommandNode::Argument(body) => {
                if body.suggestions_types.is_some() {
                    flags |= 0x10;
                }
            },
            _ => {},
        }
        flags.mc_serialize(to)?;
        self.children_indices.mc_serialize(to)?;
        write_if_given(&self.redirect_node, to)?;
        self.node.serialize_body(to)?;
        proof {
            let v = self.deep_view();
            let w = old(to).written();
            let e0 = u8::encode(command_flags(v));
            let e1 = <CountedArray<VarInt, VarInt>>::encode(v.children_indices);
            let e2 = if_given::<VarInt>(v.redirect_node);
            let e3 = CommandNode::body_of(v.node);
            let l0 = e0;
            let l1 = l0 + e1;
            let l2 = l1 + e2;
            let l3 = l2 + e3;
            lemma_concat_assoc(w, l0, e1);
            lemma_concat_assoc(w, l1, e2);
            lemma_concat_assoc(w, l2, e3);
        }
        Ok(())
    }
}

impl Deserialize for CommandNodeSpec {
    #[verifier::opaque]
    open spec fn decode(data: Seq<u8>) -> Decoded<CommandNodeSpecView> {
        match u8::decode(data) {
            Err(e) => Err(e),
            Ok((flags, n0)) => {
                match <CountedArray<VarInt, VarInt>>::decode(data.skip((n0) as int)) {
                    Err(e) => Err(e),
                    Ok((children_indices, n1)) => {
                        match decode_if_given::<VarInt>((flags / 8) % 2 == 1, data.skip((n0 + n1) as int)) {
                            Err(e) => Err(e),
                            Ok((redirect_node, n2)) => {
                                match CommandNode::decode_with_flags(flags, data.skip((n0 + n1 + n2) as int)) {
                                    Err(e) => Err(e),
                                    Ok((node, n3)) => Ok((CommandNodeSpecView { children_indices, redirect_node, is_executable: (flags / 4) % 2 == 1, node }, n0 + n1 + n2 + n3)),
                                }
                            },
                        }
                    },
                }
            },
        }
    }

    fn mc_deserialize(data: &[u8]) -> (r: DeserializeResult<'_, CommandNodeSpec>) {
        proof {
            reveal(<CommandNodeSpec as Deserialize>::decode);
        }
        let ghost whole = data@;
        let Deserialized { value: flags, data: rest0 } = u8::mc_deserialize(data)?;
        let Deserialized { value: children_indices, data: rest1 } = <CountedArray<VarInt, VarInt>>::mc_deserialize(rest0)?;
        proof {
            lemma_skip_skip(
                whole,
                whole.len() - rest0@.len(),
                rest0@.len() - rest1@.len(),
            );
        }
        let Deserialized { value: redirect_node, data: rest2 } = {
            proof {
                lemma_command_bits(flags);
            }
            read_if_given::<VarInt>(flags & 0x08 != 0, rest1)
        }?;
        proof {
            lemma_skip_skip(
                whole,
                whole.len() - rest1@.len(),
                rest1@.len() - rest2@.len(),
            );
        }
        let Deserialized { value: node, data: rest3 } = CommandNode::deserialize_with_flags(flags, rest2)?;
        proof {
            lemma_skip_skip(
                whole,
                whole.len() - rest2@.len(),
                rest2@.len() - rest3@.len(),
            );
        }
        proof {
            lemma_command_bits(flags);
        }
        Ok(Deserialized { value: CommandNodeSpec { children_indices, redirect_node, is_executable: flags & 0x04 != 0, node }, data: rest3 })
    }
}

impl ProtocolType for CommandNodeSpec {
    open spec fn faithful(v: CommandNodeSpecView) -> bool {
        &&& u8::faithful(command_flags(v))
        &&& <CountedArray<VarInt, VarInt>>::faithful(v.children_indices)
        &&& given_faithful::<VarInt>(v.redirect_node)
        &&& CommandNode::faithful(v.node)
    }

    open spec fn delimited() -> bool {
        CommandNode::delimited()
    }

    proof fn lemma_round_trip(v: CommandNodeSpecView, rest: Seq<u8>) {
        reveal(<CommandNodeSpec as Serialize>::encode);
        reveal(<CommandNodeSpec as Deserialize>::decode);
        let e0 = u8::encode(command_flags(v));
        let e1 = <CountedArray<VarInt, VarInt>>::encode(v.children_indices);
        let e2 = if_given::<VarInt>(v.redirect_node);
        let e3 = CommandNode::body_of(v.node);
        let data = Self::encode(v) + rest;
        let t4 = rest;
        let t3 = e3 + t4;
        let t2 = e2 + t3;
        let t1 = e1 + t2;
        let t0 = e0 + t1;
        let l0 = e0;
        let l1 = l0 + e1;
        let l2 = l1 + e2;
        let l3 = l2 + e3;
        lemma_concat_assoc(l2, e3, t4);
        lemma_concat_assoc(l1, e2, t3);
        lemma_concat_assoc(l0, e1, t2);
        assert(data == t0);
        u8::lemma_round_trip(command_flags(v), t1);
        lemma_skip_concat(e0, t1);
        <CountedArray<VarInt, VarInt>>::lemma_round_trip(v.children_indices, t2);
        lemma_skip_more(data, (e0.len()) as int, e1, t2);
        lemma_if_given_round_trip::<VarInt>(v.redirect_node, t3);
        lemma_skip_more(data, (e0.len() + e1.len()) as int, e2, t3);
        CommandNode::lemma_body_round_trip(v.node, command_flags(v), t4);
        lemma_skip_more(data, (e0.len() + e1.len() + e2.len()) as int, e3, t4);
    }
}

/// The bytes of light that one chunk section has.
pub const LIGHT_DATA_LENGTH: usize = 2048;

/// The sections of a chunk column that carry light.
pub const LIGHT_DATA_SECTIONS: usize = 18;

/// The light of a chunk column: for each of its sections the bytes of light,
/// or nothing.
#[derive(Clone, PartialEq, Debug)]
pub struct LightingData {
    pub data: Box<[Option<[u8; LIGHT_DATA_LENGTH]>; LIGHT_DATA_SECTIONS]>,
}

impl DeepView for LightingData {
    type V = Seq<Option<Seq<u8>>>;

    open spec fn deep_view(&self) -> Seq<Option<Seq<u8>>> {
        self.data.deep_view()
    }
}

/// What bit `i` of a mask counts for: two to the power of `i`.
pub open spec fn section_weight(i: nat) -> nat
    decreases i,
{
    if i == 0 {
        1
    } else {
        2 * section_weight((i - 1) as nat)
    }
}

/// Whether bit `i` of `mask` is set.
pub open spec fn has_section(mask: VarInt, i: nat) -> bool {
    (to_unsigned(mask.0 as int, 4) / section_weight(i)) % 2 == 1
}

/// The mask over the first `k` sections that has a bit for each section
/// that is there, where `has`, or for each that is missing, where not.
pub open spec fn mask_upto(sections: Seq<Option<Seq<u8>>>, has: bool, k: nat) -> nat
    decreases k,
{
    if k == 0 {
        0
    } else {
        mask_upto(sections, has, (k - 1) as nat) + (if (sections[k - 1] is Some) == has {
            section_weight((k - 1) as nat)
        } else {
            0
        })
    }
}

/// The mask of the sections that are there.
pub open spec fn update_mask_of(sections: Seq<Option<Seq<u8>>>) -> VarInt {
    VarInt(mask_upto(sections, true, LIGHT_DATA_SECTIONS as nat) as i32)
}

/// The mask of the sections that are missing.
pub open spec fn reset_mask_of(sections: Seq<Option<Seq<u8>>>) -> VarInt {
    VarInt(mask_upto(sections, false, LIGHT_DATA_SECTIONS as nat) as i32)
}

/// The bytes of one section: its length and its bytes of light, or nothing.
pub open spec fn section_bytes(section: Option<Seq<u8>>) -> Seq<u8> {
    match section {
        Some(light) => VarInt::encode(VarInt(2048)) + light,
        None => Seq::empty(),
    }
}

/// The bytes of the sections from `from` on, one after another.
#[verifier::opaque]
pub open spec fn sections_bytes(sections: Seq<Option<Seq<u8>>>, from: nat) -> Seq<u8>
    decreases sections.len() - from,
{
    if from >= sections.len() {
        Seq::empty()
    } else {
        section_bytes(sections[from as int]) + sections_bytes(sections, from + 1)
    }
}

/// The sections from `from` on, read from `data`: those that `mask` has a
/// bit for, each behind its length, which has to be 2048.
#[verifier::opaque]
pub open spec fn parse_sections(mask: VarInt, data: Seq<u8>, from: nat) -> Decoded<
    Seq<Option<Seq<u8>>>,
>
    decreases LIGHT_DATA_SECTIONS - from,
{
    if from >= LIGHT_DATA_SECTIONS {
        Ok((Seq::empty(), 0))
    } else if has_section(mask, from) {
        match VarInt::decode(data) {
            Err(e) => Err(e),
            Ok((length, n)) => if length.0 != 2048 {
                Err(DecodeFailure::CannotUnderstandValue)
            } else if data.len() - n < 2048 {
                Err(DecodeFailure::Eof)
            } else {
                after(
                    seq![Some(data.subrange(n as int, n + 2048 as int))],
                    n + 2048,
                    parse_sections(mask, data.skip(n + 2048 as int), from + 1),
                )
            },
        }
    } else {
        after(seq![None], 0, parse_sections(mask, data, from + 1))
    }
}

/// The text of the error for a section of the wrong length.
pub open spec fn bad_light_length_text(length: int) -> Seq<char> {
    "bad data length in light update "@ + signed_decimal_text(length)
}

fn bad_light_length_message(length: i32) -> (r: String)
    ensures
        r@ == bad_light_length_text(length as int),
{
    let mut out = "bad data length in light update ".to_owned();
    out.append(signed_decimal(length as i64).as_str());
    out
}

pub proof fn lemma_section_weights()
    ensures
        section_weight(0) == 1,
        section_weight(18) == 0x4_0000,
        forall|i: nat| #[trigger] section_weight(i + 1) == 2 * section_weight(i),
        forall|i: nat| #[trigger] section_weight(i) >= 1,
{
    reveal_with_fuel(section_weight, 19);
    assert forall|i: nat| #[trigger] section_weight(i) >= 1 by {
        lemma_weight_positive(i);
    }
}

proof fn lemma_weight_positive(i: nat)
    ensures
        section_weight(i) >= 1,
    decreases i,
{
    if i > 0 {
        lemma_weight_positive((i - 1) as nat);
    }
}

/// The weight of a later bit is a multiple of the weight of an earlier one,
/// and an even multiple where the bits differ.
proof fn lemma_weight_multiple(i: nat, k: nat)
    requires
        i <= k,
    ensures
        section_weight(k) == section_weight(i) * section_weight((k - i) as nat),
        i < k ==> section_weight((k - i) as nat) % 2 == 0,
    decreases k,
{
    if i < k {
        lemma_weight_multiple(i, (k - 1) as nat);
        let a = section_weight(i);
        let b = section_weight((k - 1 - i) as nat);
        assert(2 * (a * b) == a * (2 * b)) by (nonlinear_arith);
    } else {
        assert(section_weight(i) * 1 == section_weight(i));
    }
}

/// A mask over `k` sections stays below the weight of bit `k`.
proof fn lemma_mask_bound(sections: Seq<Option<Seq<u8>>>, has: bool, k: nat)
    ensures
        mask_upto(sections, has, k) < section_weight(k),
    decreases k,
{
    if k > 0 {
        lemma_mask_bound(sections, has, (k - 1) as nat);
    }
}

/// Bit `i` of a mask over `k` sections says whether section `i` is there,
/// or whether it is missing.
proof fn lemma_mask_bit(sections: Seq<Option<Seq<u8>>>, has: bool, k: nat, i: nat)
    requires
        i < k,
    ensures
        (mask_upto(sections, has, k) / section_weight(i)) % 2 == 1 <==> (sections[i as int]
            is Some) == has,
    decreases k,
{
    let w = section_weight(i);
    let low = mask_upto(sections, has, (k - 1) as nat);
    let top = section_weight((k - 1) as nat);
    let set = (sections[k - 1] is Some) == has;
    lemma_weight_positive(i);
    lemma_weight_multiple(i, (k - 1) as nat);
    let m = section_weight((k - 1 - i) as nat);
    if i == k - 1 {
        lemma_mask_bound(sections, has, i);
        if !set {
            vstd::arithmetic::div_mod::lemma_fundamental_div_mod_converse(
                low as int,
                w as int,
                0,
                low as int,
            );
        }
        if set {
            vstd::arithmetic::div_mod::lemma_fundamental_div_mod_converse(
                (low + w) as int,
                w as int,
                1,
                low as int,
            );
        }
    } else {
        lemma_mask_bit(sections, has, (k - 1) as nat, i);
        if set {
            // low + m * w, with m even, has the same bit i as low
            let q = low / w;
            let r = low % w;
            vstd::arithmetic::div_mod::lemma_fundamental_div_mod(low as int, w as int);
            assert(w * m == m * w) by (nonlinear_arith);
            assert(low + top == (q + m) * w + r) by (nonlinear_arith)
                requires
                    low == w * q + r,
                    top == w * m,
            ;
            vstd::arithmetic::div_mod::lemma_fundamental_div_mod_converse(
                (low + top) as int,
                w as int,
                (q + m) as int,
                r as int,
            );
            assert((q + m) % 2 == q % 2) by {
                vstd::arithmetic::div_mod::lemma_mod_multiples_vanish(
                    (m / 2) as int,
                    q as int,
                    2,
                );
                assert(2 * (m / 2) + q == q + m);
            }
        }
    }
}

/// One step of reading sections.
proof fn lemma_parse_step(mask: VarInt, data: Seq<u8>, from: nat)
    ensures
        from >= LIGHT_DATA_SECTIONS ==> parse_sections(mask, data, from) == Ok::<
            (Seq<Option<Seq<u8>>>, nat),
            DecodeFailure,
        >((Seq::empty(), 0)),
        from < LIGHT_DATA_SECTIONS && !has_section(mask, from) ==> parse_sections(mask, data, from)
            == after(seq![None], 0, parse_sections(mask, data, from + 1)),
        from < LIGHT_DATA_SECTIONS && has_section(mask, from) ==> match VarInt::decode(data) {
            Err(e) => parse_sections(mask, data, from) == Err::<(Seq<Option<Seq<u8>>>, nat), _>(e),
            Ok((length, n)) => if length.0 != 2048 {
                parse_sections(mask, data, from) == Err::<(Seq<Option<Seq<u8>>>, nat), _>(
                    DecodeFailure::CannotUnderstandValue,
                )
            } else if data.len() - n < 2048 {
                parse_sections(mask, data, from) == Err::<(Seq<Option<Seq<u8>>>, nat), _>(
                    DecodeFailure::Eof,
                )
            } else {
                parse_sections(mask, data, from) == after(
                    seq![Some(data.subrange(n as int, n + 2048 as int))],
                    n + 2048,
                    parse_sections(mask, data.skip(n + 2048 as int), from + 1),
                )
            },
        },
{
    reveal(parse_sections);
}

/// Putting one section in front of an outcome, then more in front of that,
/// is putting them all in front at once.
proof fn lemma_section_after(
    seen: Seq<Option<Seq<u8>>>,
    taken: nat,
    first: Option<Seq<u8>>,
    n: nat,
    tail: Decoded<Seq<Option<Seq<u8>>>>,
)
    ensures
        after(seen, taken, after(seq![first], n, tail)) == after(seen.push(first), taken + n, tail),
{
    match tail {
        Ok((items, m)) => {
            assert(seen + (seq![first] + items) =~= seen.push(first) + items);
        },
        Err(_) => {},
    }
}

/// A copy of 2048 bytes as an array.
fn copy_section(section: &[u8]) -> (r: [u8; LIGHT_DATA_LENGTH])
    requires
        section@.len() == LIGHT_DATA_LENGTH,
    ensures
        r@ == section@,
{
    let mut out = [0u8; LIGHT_DATA_LENGTH];
    let mut k: usize = 0;
    while k < LIGHT_DATA_LENGTH
        invariant
            k <= LIGHT_DATA_LENGTH,
            section@.len() == LIGHT_DATA_LENGTH,
            forall|j: int| 0 <= j < k ==> out@[j] == section@[j],
        decreases LIGHT_DATA_LENGTH - k,
    {
        out[k] = section[k];
        k += 1;
    }
    proof {
        assert(out@ =~= section@);
    }
    out
}

impl LightingData {
    /// Whether a value is the light of a chunk column: 18 sections, each of
    /// 2048 bytes or missing.
    pub open spec fn faithful(v: Seq<Option<Seq<u8>>>) -> bool {
        &&& v.len() == LIGHT_DATA_SECTIONS
        &&& forall|i: int| 0 <= i < v.len() ==> (#[trigger] v[i] matches Some(light) ==> light.len()
            == LIGHT_DATA_LENGTH)
    }

    /// The mask with a bit for each section that is there.
    pub fn update_mask(&self) -> (r: VarInt)
        ensures
            r == update_mask_of(self.deep_view()),
    {
        self.compute_has_mask(true)
    }

    /// The mask with a bit for each section that is missing.
    pub fn reset_mask(&self) -> (r: VarInt)
        ensures
            r == reset_mask_of(self.deep_view()),
    {
        self.compute_has_mask(false)
    }

    fn compute_has_mask(&self, has: bool) -> (r: VarInt)
        ensures
            r == VarInt(mask_upto(self.deep_view(), has, LIGHT_DATA_SECTIONS as nat) as i32),
    {
        let mut out: u32 = 0;
        let mut weight: u32 = 1;
        let mut i: usize = 0;
        proof {
            lemma_section_weights();
        }
        while i < LIGHT_DATA_SECTIONS
            invariant
                i <= LIGHT_DATA_SECTIONS,
                weight == section_weight(i as nat),
                weight <= 0x4_0000,
                out == mask_upto(self.deep_view(), has, i as nat),
                out < weight,
            decreases LIGHT_DATA_SECTIONS - i,
        {
            proof {
                lemma_section_weights();
                lemma_weight_multiple(i as nat, 18);
                lemma_weight_positive((18 - i) as nat);
                assert(section_weight((i + 1) as nat) <= 0x4_0000) by {
                    lemma_weight_multiple((i + 1) as nat, 18);
                    lemma_weight_positive((18 - i - 1) as nat);
                    let a = section_weight((i + 1) as nat);
                    let b = section_weight((18 - i - 1) as nat);
                    assert(a <= a * b) by (nonlinear_arith)
                        requires
                            b >= 1,
                            a >= 0,
                    ;
                }
                assert(self.deep_view()[i as int] is Some == self.data[i as int] is Some);
            }
            if self.data[i].is_some() == has {
                out += weight;
            }
            weight = weight * 2;
            i += 1;
        }
        VarInt(out as i32)
    }

    /// Writes the sections that are there, each behind its length.
    pub fn serialize_data<S: Serializer>(&self, to: &mut S) -> (r: SerializeResult)
        ensures
            r is Ok ==> final(to).written() == old(to).written() + sections_bytes(
                self.deep_view(),
                0,
            ),
            old(to).infallible() ==> final(to).infallible() && r is Ok,
    {
        let ghost sections = self.deep_view();
        let mut i: usize = 0;
        proof {
            assert(to.written() + sections_bytes(sections, 0) == old(to).written()
                + sections_bytes(sections, 0));
        }
        while i < LIGHT_DATA_SECTIONS
            invariant
                i <= LIGHT_DATA_SECTIONS,
                sections == self.deep_view(),
                sections.len() == LIGHT_DATA_SECTIONS,
                to.written() + sections_bytes(sections, i as nat) == old(to).written()
                    + sections_bytes(sections, 0),
                old(to).infallible() ==> to.infallible(),
            decreases LIGHT_DATA_SECTIONS - i,
        {
            let ghost before = to.written();
            proof {
                reveal(sections_bytes);
                assert(sections[i as int] is Some == self.data[i as int] is Some);
            }
            match &self.data[i] {
                Some(contents) => {
                    VarInt(2048).mc_serialize(to)?;
                    to.serialize_bytes(contents.as_slice())?;
                    proof {
                        let head = VarInt::encode(VarInt(2048));
                        assert(sections[i as int] == Some(contents@));
                        lemma_concat_assoc(before, head, contents@);
                        lemma_concat_assoc(
                            before,
                            section_bytes(sections[i as int]),
                            sections_bytes(sections, (i + 1) as nat),
                        );
                    }
                },
                None => {
                    proof {
                        assert(Seq::<u8>::empty() + sections_bytes(sections, (i + 1) as nat)
                            =~= sections_bytes(sections, (i + 1) as nat));
                    }
                },
            }
            i += 1;
        }
        proof {
            reveal(sections_bytes);
            assert(to.written() + Seq::<u8>::empty() =~= to.written());
        }
        Ok(())
    }

    /// Reads the sections that `update_mask` has a bit for. A section whose
    /// length is not 2048 is refused, and the error says which length came.
    pub fn deserialize(update_mask: VarInt, data: &[u8]) -> (r: DeserializeResult<'_, LightingData>)
        ensures
            agrees(r, data@, parse_sections(update_mask, data@, 0)),
    {
        let mut out: [Option<[u8; LIGHT_DATA_LENGTH]>; LIGHT_DATA_SECTIONS] =
            [None; LIGHT_DATA_SECTIONS];
        let mut remaining = data;
        proof {
            lemma_pattern_i32(update_mask.0, 0);
            lemma_radix_values();
            lemma_section_weights();
        }
        let mask = #[verifier::truncate] (update_mask.0 as u32);
        let mut weight: u32 = 1;
        let mut i: usize = 0;
        let ghost whole = parse_sections(update_mask, data@, 0);
        proof {
            assert(data@.skip(0) =~= data@);
            assert(out.deep_view().take(0) =~= Seq::<Option<Seq<u8>>>::empty());
            match whole {
                Ok((items, m)) => {
                    assert(Seq::<Option<Seq<u8>>>::empty() + items =~= items);
                },
                Err(_) => {},
            }
        }
        while i < LIGHT_DATA_SECTIONS
            invariant
                i <= LIGHT_DATA_SECTIONS,
                weight == section_weight(i as nat),
                weight <= 0x4_0000,
                mask == to_unsigned(update_mask.0 as int, 4),
                whole == parse_sections(update_mask, data@, 0),
                remaining@.len() <= data@.len(),
                remaining@ == data@.skip(data@.len() - remaining@.len()),
                whole == after(
                    out.deep_view().take(i as int),
                    (data@.len() - remaining@.len()) as nat,
                    parse_sections(update_mask, remaining@, i as nat),
                ),
                forall|j: int| i <= j < LIGHT_DATA_SECTIONS ==> out@[j] is None,
            decreases LIGHT_DATA_SECTIONS - i,
        {
            let ghost before = out;
            let ghost seen = out.deep_view().take(i as int);
            let ghost taken = (data@.len() - remaining@.len()) as nat;
            proof {
                lemma_parse_step(update_mask, remaining@, i as nat);
                lemma_section_weights();
                assert(section_weight((i + 1) as nat) <= 0x4_0000) by {
                    lemma_weight_multiple((i + 1) as nat, 18);
                    lemma_weight_positive((18 - i - 1) as nat);
                    let a = section_weight((i + 1) as nat);
                    let b = section_weight((18 - i - 1) as nat);
                    assert(a <= a * b) by (nonlinear_arith)
                        requires
                            b >= 1,
                            a >= 0,
                    ;
                }
            }
            if (mask / weight) % 2 == 1 {
                let Deserialized { value: length, data: rest } = VarInt::mc_deserialize(remaining)?;
                if length.0 != 2048 {
                    return Err(
                        DeserializeErr::CannotUnderstandValue(bad_light_length_message(length.0)),
                    );
                }
                if rest.len() < LIGHT_DATA_LENGTH {
                    return Err(DeserializeErr::Eof);
                }
                let (section, tail) = rest.split_at(LIGHT_DATA_LENGTH);
                let light = copy_section(section);
                out[i] = Some(light);
                proof {
                    let n = (remaining@.len() - rest@.len()) as nat;
                    assert(section@ =~= remaining@.subrange(n as int, n + 2048 as int));
                    assert(tail@ =~= remaining@.skip(n + 2048 as int));
                    lemma_skip_skip(data@, taken as int, n + 2048 as int);
                    assert(light.deep_view() =~= section@);
                    assert(out.deep_view()[i as int] == Some(section@));
                    assert forall|j: int| 0 <= j < i implies out.deep_view()[j]
                        == before.deep_view()[j] by {
                        assert(out@[j] == before@[j]);
                    }
                    assert(out.deep_view().take(i + 1) =~= seen.push(Some(section@)));
                    lemma_section_after(
                        seen,
                        taken,
                        Some(section@),
                        n + 2048,
                        parse_sections(update_mask, tail@, (i + 1) as nat),
                    );
                }
                remaining = tail;
            } else {
                proof {
                    assert(out@[i as int] is None);
                    assert(out.deep_view()[i as int] is None);
                    assert(out.deep_view().take(i + 1) =~= seen.push(None));
                    lemma_section_after(
                        seen,
                        taken,
                        None,
                        0,
                        parse_sections(update_mask, remaining@, (i + 1) as nat),
                    );
                }
            }
            weight = weight * 2;
            i += 1;
        }
        proof {
            lemma_parse_step(update_mask, remaining@, LIGHT_DATA_SECTIONS as nat);
            assert(out.deep_view().take(LIGHT_DATA_SECTIONS as int) =~= out.deep_view());
            assert(out.deep_view() + Seq::<Option<Seq<u8>>>::empty() =~= out.deep_view());
        }
        Ok(Deserialized { value: LightingData { data: Box::new(out) }, data: remaining })
    }

    /// Sections written out, from `from` on, and followed by anything, read
    /// back under a mask that has a bit for each of them that is there.
    pub proof fn lemma_sections_round_trip(
        v: Seq<Option<Seq<u8>>>,
        mask: VarInt,
        from: nat,
        rest: Seq<u8>,
    )
        requires
            Self::faithful(v),
            from <= LIGHT_DATA_SECTIONS,
            forall|i: nat| i < LIGHT_DATA_SECTIONS ==> (has_section(mask, i) <==> v[i as int] is Some),
        ensures
            parse_sections(mask, sections_bytes(v, from) + rest, from) == Ok::<_, DecodeFailure>(
                (v.skip(from as int), sections_bytes(v, from).len()),
            ),
        decreases LIGHT_DATA_SECTIONS - from,
    {
        reveal(sections_bytes);
        let data = sections_bytes(v, from) + rest;
        lemma_parse_step(mask, data, from);
        if from >= LIGHT_DATA_SECTIONS {
            assert(v.skip(from as int) =~= Seq::<Option<Seq<u8>>>::empty());
        } else {
            let tail = sections_bytes(v, from + 1);
            Self::lemma_sections_round_trip(v, mask, from + 1, rest);
            assert(v.skip(from as int) =~= seq![v[from as int]] + v.skip(from + 1 as int));
            match v[from as int] {
                Some(light) => {
                    let head = VarInt::encode(VarInt(2048));
                    VarInt::lemma_round_trip(VarInt(2048), light + (tail + rest));
                    lemma_concat_assoc(head + light, tail, rest);
                    lemma_concat_assoc(head, light, tail + rest);
                    lemma_skip_concat(head, light + (tail + rest));
                    lemma_skip_concat(light, tail + rest);
                    assert(data.subrange(head.len() as int, head.len() + 2048 as int) =~= light);
                    assert(data.skip(head.len() + 2048 as int) =~= tail + rest);
                },
                None => {
                    assert(Seq::<u8>::empty() + tail =~= tail);
                },
            }
        }
    }

    /// The light of a chunk column, written out and followed by anything,
    /// reads back under its own update mask.
    pub proof fn lemma_round_trip(v: Seq<Option<Seq<u8>>>, rest: Seq<u8>)
        requires
            Self::faithful(v),
        ensures
            parse_sections(update_mask_of(v), sections_bytes(v, 0) + rest, 0) == Ok::<
                _,
                DecodeFailure,
            >((v, sections_bytes(v, 0).len())),
    {
        let mask = update_mask_of(v);
        lemma_section_weights();
        lemma_mask_bound(v, true, LIGHT_DATA_SECTIONS as nat);
        lemma_radix_values();
        assert forall|i: nat| i < LIGHT_DATA_SECTIONS implies (has_section(mask, i) <==> v[i as int]
            is Some) by {
            lemma_mask_bit(v, true, LIGHT_DATA_SECTIONS as nat, i);
        }
        Self::lemma_sections_round_trip(v, mask, 0, rest);
        assert(v.skip(0) =~= v);
    }
}

/// The light of a chunk column, from the sky and from blocks. On the wire four masks come first: for each kind of light the sections that are there, then for each kind the sections that are missing. A reader goes by the first two and passes over the others.
#[derive(Debug, Clone, PartialEq)]
pub struct LightingUpdateSpec {
    pub skylight_data: LightingData,
    pub blocklight_data: LightingData,
}

/// The mathematical content of a [`LightingUpdateSpec`].
pub struct LightingUpdateSpecView {
    pub skylight_data: <LightingData as DeepView>::V,
    pub blocklight_data: <LightingData as DeepView>::V,
}

impl DeepView for LightingUpdateSpec {
    type V = LightingUpdateSpecView;

    open spec fn deep_view(&self) -> LightingUpdateSpecView {
        LightingUpdateSpecView {
            skylight_data: self.skylight_data.deep_view(),
            blocklight_data: self.blocklight_data.deep_view(),
        }
    }
}

impl Serialize for LightingUpdateSpec {
    open spec fn serializable(v: LightingUpdateSpecView) -> bool {
        &&& VarInt::serializable(update_mask_of(v.skylight_data))
        &&& VarInt::serializable(update_mask_of(v.blocklight_data))
        &&& VarInt::serializable(reset_mask_of(v.skylight_data))
        &&& VarInt::serializable(reset_mask_of(v.blocklight_data))
        &&& true
        &&& true
    }

    #[verifier::opaque]
    open spec fn encode(v: LightingUpdateSpecView) -> Seq<u8> {
        VarInt::encode(update_mask_of(v.skylight_data)) + VarInt::encode(update_mask_of(v.blocklight_data)) + VarInt::encode(reset_mask_of(v.skylight_data)) + VarInt::encode(reset_mask_of(v.blocklight_data)) + sections_bytes(v.skylight_data, 0) + sections_bytes(v.blocklight_data, 0)
    }

    fn mc_serialize<S: Serializer>(&self, to: &mut S) -> (r: SerializeResult) {
        proof {
            reveal(<LightingUpdateSpec as Serialize>::encode);
        }
        self.skylight_data.update_mask().mc_serialize(to)?;
        self.blocklight_data.update_mask().mc_serialize(to)?;
        self.skylight_data.reset_mask().mc_serialize(to)?;
        self.blocklight_data.reset_mask().mc_serialize(to)?;
        self.skylight_data.serialize_data(to)?;
        self.blocklight_data.serialize_data(to)?;
        proof {
            let v = self.deep_view();
            let w = old(to).written();
            let e0 = VarInt::encode(update_mask_of(v.skylight_data));
            let e1 = VarInt::encode(update_mask_of(v.blocklight_data));
            let e2 = VarInt::encode(reset_mask_of(v.skylight_data));
            let e3 = VarInt::encode(reset_mask_of(v.blocklight_data));
            let e4 = sections_bytes(v.skylight_data, 0);
            let e5 = sections_bytes(v.blocklight_data, 0);
            let l0 = e0;
            let l1 = l0 + e1;
            let l2 = l1 + e2;
            let l3 = l2 + e3;
            let l4 = l3 + e4;
            let l5 = l4 + e5;
            lemma_concat_assoc(w, l0, e1);
            lemma_concat_assoc(w, l1, e2);
            lemma_concat_assoc(w, l2, e3);
            lemma_concat_assoc(w, l3, e4);
            lemma_concat_assoc(w, l4, e5);
        }
        Ok(())
    }
}

impl Deserialize for LightingUpdateSpec {
    #[verifier::opaque]
    open spec fn decode(data: Seq<u8>) -> Decoded<LightingUpdateSpecView> {
        match VarInt::decode(data) {
            Err(e) => Err(e),
            Ok((skylight_update_mask, n0)) => {
                match VarInt::decode(data.skip((n0) as int)) {
                    Err(e) => Err(e),
                    Ok((blocklight_update_mask, n1)) => {
                        match VarInt::decode(data.skip((n0 + n1) as int)) {
                            Err(e) => Err(e),
                            Ok((_skylight_reset_mask, n2)) => {
                                match VarInt::decode(data.skip((n0 + n1 + n2) as int)) {
                                    Err(e) => Err(e),
                                    Ok((_blocklight_reset_mask, n3)) => {
                                        match parse_sections(skylight_update_mask, data.skip((n0 + n1 + n2 + n3) as int), 0) {
                                            Err(e) => Err(e),
                                            Ok((skylight_data, n4)) => {
                                                match parse_sections(blocklight_update_mask, data.skip((n0 + n1 + n2 + n3 + n4) as int), 0) {
                                                    Err(e) => Err(e),
                                                    Ok((blocklight_data, n5)) => Ok((LightingUpdateSpecView { skylight_data, blocklight_data }, n0 + n1 + n2 + n3 + n4 + n5)),
                                                }
                                            },
                                        }
                                    },
                                }
                            },
                        }
                    },
                }
            },
        }
    }

    fn mc_deserialize(data: &[u8]) -> (r: DeserializeResult<'_, LightingUpdateSpec>) {
        proof {
            reveal(<LightingUpdateSpec as Deserialize>::decode);
        }
        let ghost whole = data@;
        let Deserialized { value: skylight_update_mask, data: rest0 } = VarInt::mc_deserialize(data)?;
        let Deserialized { value: blocklight_update_mask, data: rest1 } = VarInt::mc_deserialize(rest0)?;
        proof {
            lemma_skip_skip(
                whole,
                whole.len() - rest0@.len(),
                rest0@.len() - rest1@.len(),
            );
        }
        let Deserialized { value: _skylight_reset_mask, data: rest2 } = VarInt::mc_deserialize(rest1)?;
        proof {
            lemma_skip_skip(
                whole,
                whole.len() - rest1@.len(),
                rest1@.len() - rest2@.len(),
            );
        }
        let Deserialized { value: _blocklight_reset_mask, data: rest3 } = VarInt::mc_deserialize(rest2)?;
        proof {
            lemma_skip_skip(
                whole,
                whole.len() - rest2@.len(),
                rest2@.len() - rest3@.len(),
            );
        }
        let Deserialized { value: skylight_data, data: rest4 } = LightingData::deserialize(skylight_update_mask, rest3)?;
        proof {
            lemma_skip_skip(
                whole,
                whole.len() - rest3@.len(),
                rest3@.len() - rest4@.len(),
            );
        }
        let Deserialized { value: blocklight_data, data: rest5 } = LightingData::deserialize(blocklight_update_mask, rest4)?;
        proof {
            lemma_skip_skip(
                whole,
                whole.len() - rest4@.len(),
                rest4@.len() - rest5@.len(),
            );
        }
        Ok(Deserialized { value: LightingUpdateSpec { skylight_data, blocklight_data }, data: rest5 })
    }
}

impl ProtocolType for LightingUpdateSpec {
    open spec fn faithful(v: LightingUpdateSpecView) -> bool {
        &&& VarInt::faithful(update_mask_of(v.skylight_data))
        &&& VarInt::faithful(update_mask_of(v.blocklight_data))
        &&& VarInt::faithful(reset_mask_of(v.skylight_data))
        &&& VarInt::faithful(reset_mask_of(v.blocklight_data))
        &&& LightingData::faithful(v.skylight_data)
        &&& LightingData::faithful(v.blocklight_data)
    }

    open spec fn delimited() -> bool {
        true
    }

    proof fn lemma_round_trip(v: LightingUpdateSpecView, rest: Seq<u8>) {
        reveal(<LightingUpdateSpec as Serialize>::encode);
        reveal(<LightingUpdateSpec as Deserialize>::decode);
        let e0 = VarInt::encode(update_mask_of(v.skylight_data));
        let e1 = VarInt::encode(update_mask_of(v.blocklight_data));
        let e2 = VarInt::encode(reset_mask_of(v.skylight_data));
        let e3 = VarInt::encode(reset_mask_of(v.blocklight_data));
        let e4 = sections_bytes(v.skylight_data, 0);
        let e5 = sections_bytes(v.blocklight_data, 0);
        let data = Self::encode(v) + rest;
        let t6 = rest;
        let t5 = e5 + t6;
        let t4 = e4 + t5;
        let t3 = e3 + t4;
        let t2 = e2 + t3;
        let t1 = e1 + t2;
        let t0 = e0 + t1;
        let l0 = e0;
        let l1 = l0 + e1;
        let l2 = l1 + e2;
        let l3 = l2 + e3;
        let l4 = l3 + e4;
        let l5 = l4 + e5;
        lemma_concat_assoc(l4, e5, t6);
        lemma_concat_assoc(l3, e4, t5);
        lemma_concat_assoc(l2, e3, t4);
        lemma_concat_assoc(l1, e2, t3);
        lemma_concat_assoc(l0, e1, t2);
        assert(data == t0);
        VarInt::lemma_round_trip(update_mask_of(v.skylight_data), t1);
        lemma_skip_concat(e0, t1);
        VarInt::lemma_round_trip(update_mask_of(v.blocklight_data), t2);
        lemma_skip_more(data, (e0.len()) as int, e1, t2);
        VarInt::lemma_round_trip(reset_mask_of(v.skylight_data), t3);
        lemma_skip_more(data, (e0.len() + e1.len()) as int, e2, t3);
        VarInt::lemma_round_trip(reset_mask_of(v.blocklight_data), t4);
        lemma_skip_more(data, (e0.len() + e1.len() + e2.len()) as int, e3, t4);
        LightingData::lemma_round_trip(v.skylight_data, t5);
        lemma_skip_more(data, (e0.len() + e1.len() + e2.len() + e3.len()) as int, e4, t5);
        LightingData::lemma_round_trip(v.blocklight_data, t6);
        lemma_skip_more(data, (e0.len() + e1.len() + e2.len() + e3.len() + e4.len()) as int, e5, t6);
    }
}

impl LightingUpdateSpec {
    /// The masks as they are written: for the light of the sky and then for
    /// the light of blocks, the sections that are there and the sections that
    /// are missing.
    pub fn get_masks(&self) -> (r: ((VarInt, VarInt), (VarInt, VarInt)))
        ensures
            r.0.0 == update_mask_of(self.skylight_data.deep_view()),
            r.0.1 == reset_mask_of(self.skylight_data.deep_view()),
            r.1.0 == update_mask_of(self.blocklight_data.deep_view()),
            r.1.1 == reset_mask_of(self.blocklight_data.deep_view()),
    {
        (
            (self.skylight_data.update_mask(), self.skylight_data.reset_mask()),
            (self.blocklight_data.update_mask(), self.blocklight_data.reset_mask()),
        )
    }
}

/// The byte that a cast makes of the 32-bit float with the bit pattern
/// `bits`: the whole part of the float, cut to what a byte holds, and 0 for
/// what is not a number.
pub open spec fn float_byte(bits: u32) -> u8 {
    let exponent = (bits / 0x80_0000) % 0x100;
    let significand = 0x80_0000 + bits % 0x80_0000;
    if bits >= 0x8000_0000 {
        0
    } else if exponent == 0xFF {
        if bits % 0x80_0000 == 0 {
            255
        } else {
            0
        }
    } else if exponent < 127 {
        0
    } else if exponent == 127 {
        (significand / 0x80_0000) as u8
    } else if exponent == 128 {
        (significand / 0x40_0000) as u8
    } else if exponent == 129 {
        (significand / 0x20_0000) as u8
    } else if exponent == 130 {
        (significand / 0x10_0000) as u8
    } else if exponent == 131 {
        (significand / 0x8_0000) as u8
    } else if exponent == 132 {
        (significand / 0x4_0000) as u8
    } else if exponent == 133 {
        (significand / 0x2_0000) as u8
    } else if exponent == 134 {
        (significand / 0x1_0000) as u8
    } else {
        255
    }
}

/// The bit pattern of the 32-bit float that a cast makes of the byte `n`.
pub open spec fn byte_float(n: u8) -> u32 {
    if n >= 128 {
        (134 * 0x80_0000 + (n - 128) * 0x1_0000) as u32
    } else if n >= 64 {
        (133 * 0x80_0000 + (n - 64) * 0x2_0000) as u32
    } else if n >= 32 {
        (132 * 0x80_0000 + (n - 32) * 0x4_0000) as u32
    } else if n >= 16 {
        (131 * 0x80_0000 + (n - 16) * 0x8_0000) as u32
    } else if n >= 8 {
        (130 * 0x80_0000 + (n - 8) * 0x10_0000) as u32
    } else if n >= 4 {
        (129 * 0x80_0000 + (n - 4) * 0x20_0000) as u32
    } else if n >= 2 {
        (128 * 0x80_0000 + (n - 2) * 0x40_0000) as u32
    } else if n == 1 {
        0x3F80_0000
    } else {
        0
    }
}

/// A byte that was made a float comes back as the byte it was.
pub proof fn lemma_float_byte(n: u8)
    ensures
        float_byte(byte_float(n)) == n,
{
}

proof fn lemma_float_parts(bits: u32, significand: u32, shift: u32)
    by (bit_vector)
    ensures
        (bits >> 23) & 0xFF == (bits / 0x80_0000) % 0x100,
        bits & 0x7F_FFFF == bits % 0x80_0000,
        0x80_0000u32 | (bits & 0x7F_FFFF) == 0x80_0000 + bits % 0x80_0000,
        shift == 23 ==> significand >> shift == significand / 0x80_0000,
        shift == 22 ==> significand >> shift == significand / 0x40_0000,
        shift == 21 ==> significand >> shift == significand / 0x20_0000,
        shift == 20 ==> significand >> shift == significand / 0x10_0000,
        shift == 19 ==> significand >> shift == significand / 0x8_0000,
        shift == 18 ==> significand >> shift == significand / 0x4_0000,
        shift == 17 ==> significand >> shift == significand / 0x2_0000,
        shift == 16 ==> significand >> shift == significand / 0x1_0000,
{
}

/// Makes a byte of a 32-bit float, given as its bit pattern, as a cast does.
pub fn float_to_byte(bits: u32) -> (r: u8)
    ensures
        r == float_byte(bits),
{
    let exponent = (bits >> 23) & 0xFF;
    let significand = 0x80_0000u32 | (bits & 0x7F_FFFF);
    proof {
        lemma_float_parts(bits, significand, (150 - exponent) as u32);
    }
    if bits >= 0x8000_0000 {
        0
    } else if exponent == 0xFF {
        if bits & 0x7F_FFFF == 0 {
            255
        } else {
            0
        }
    } else if exponent < 127 {
        0
    } else if exponent > 134 {
        255
    } else {
        (significand >> (150 - exponent)) as u8
    }
}

/// Makes a 32-bit float of a byte, as a cast does, and gives its bit pattern.
pub fn byte_to_float(n: u8) -> (r: u32)
    ensures
        r == byte_float(n),
{
    if n >= 128 {
        134 * 0x80_0000 + ((n - 128) as u32) * 0x1_0000
    } else if n >= 64 {
        133 * 0x80_0000 + ((n - 64) as u32) * 0x2_0000
    } else if n >= 32 {
        132 * 0x80_0000 + ((n - 32) as u32) * 0x4_0000
    } else if n >= 16 {
        131 * 0x80_0000 + ((n - 16) as u32) * 0x8_0000
    } else if n >= 8 {
        130 * 0x80_0000 + ((n - 8) as u32) * 0x10_0000
    } else if n >= 4 {
        129 * 0x80_0000 + ((n - 4) as u32) * 0x20_0000
    } else if n >= 2 {
        128 * 0x80_0000 + ((n - 2) as u32) * 0x40_0000
    } else if n == 1 {
        127 * 0x80_0000
    } else {
        0
    }
}

/// Why the state of the game changes, with the number that says how. On the
/// wire a byte for the reason is followed by a 32-bit float: the number of a
/// mode, action or event made a float, or a level of rain or thunder, which
/// is held as its bit pattern.
#[derive(Clone, Copy, Debug, PartialEq)]
pub enum GameChangeReason {
    NoRespawnAvailable,
    EndRaining,
    BeginRaining,
    ChangeGameMode(GameMode),
    WinGame(WinGameAction),
    Demo(DemoEvent),
    ArrowHitPlayer,
    RainLevelChange(u32),
    ThunderLevelChange(u32),
    PufferfishSting,
    ElderGuardianMobAppearance,
    Respawn(RespawnRequestType),
}

impl View for GameChangeReason {
    type V = GameChangeReason;

    open spec fn view(&self) -> GameChangeReason {
        *self
    }
}

impl DeepView for GameChangeReason {
    type V = GameChangeReason;

    open spec fn deep_view(&self) -> GameChangeReason {
        *self
    }
}

/// The text of the error for a byte that stands for no reason.
pub open spec fn invalid_reason_text(id: u8) -> Seq<char> {
    "invalid game change reason id "@ + decimal_text(id as nat)
}

fn invalid_reason_message(id: u8) -> (r: String)
    ensures
        r@ == invalid_reason_text(id),
{
    let mut out = "invalid game change reason id ".to_owned();
    out.append(decimal(id as u64).as_str());
    out
}

impl GameChangeReason {
    /// The byte that stands for the reason.
    pub open spec fn reason_id_of(v: GameChangeReason) -> u8 {
        match v {
            GameChangeReason::NoRespawnAvailable => 0x00,
            GameChangeReason::EndRaining => 0x01,
            GameChangeReason::BeginRaining => 0x02,
            GameChangeReason::ChangeGameMode(_) => 0x03,
            GameChangeReason::WinGame(_) => 0x04,
            GameChangeReason::Demo(_) => 0x05,
            GameChangeReason::ArrowHitPlayer => 0x06,
            GameChangeReason::RainLevelChange(_) => 0x07,
            GameChangeReason::ThunderLevelChange(_) => 0x08,
            GameChangeReason::PufferfishSting => 0x09,
            GameChangeReason::ElderGuardianMobAppearance => 0x0A,
            GameChangeReason::Respawn(_) => 0x0B,
        }
    }

    /// The bit pattern of the float that follows the reason.
    pub open spec fn value_of(v: GameChangeReason) -> u32 {
        match v {
            GameChangeReason::ChangeGameMode(body) => byte_float(GameMode::id_of(body)),
            GameChangeReason::WinGame(body) => byte_float(WinGameAction::id_of(body)),
            GameChangeReason::Demo(body) => byte_float(DemoEvent::id_of(body)),
            GameChangeReason::RainLevelChange(level) => level,
            GameChangeReason::ThunderLevelChange(level) => level,
            GameChangeReason::Respawn(body) => byte_float(RespawnRequestType::id_of(body)),
            _ => 0,
        }
    }

    /// The reason that a byte and a float stand for. A mode, action or event
    /// is looked up under the byte that a cast makes of the float.
    pub open spec fn decode_with(id: u8, value: u32, data: Seq<u8>) -> Decoded<GameChangeReason> {
        if id == 0x00 {
            Ok((GameChangeReason::NoRespawnAvailable, 0))
        } else if id == 0x01 {
            Ok((GameChangeReason::EndRaining, 0))
        } else if id == 0x02 {
            Ok((GameChangeReason::BeginRaining, 0))
        } else if id == 0x03 {
            match GameMode::decode_with_id(float_byte(value), data) {
                Ok((body, n)) => Ok((GameChangeReason::ChangeGameMode(body), n)),
                Err(e) => Err(e),
            }
        } else if id == 0x04 {
            match WinGameAction::decode_with_id(float_byte(value), data) {
                Ok((body, n)) => Ok((GameChangeReason::WinGame(body), n)),
                Err(e) => Err(e),
            }
        } else if id == 0x05 {
            match DemoEvent::decode_with_id(float_byte(value), data) {
                Ok((body, n)) => Ok((GameChangeReason::Demo(body), n)),
                Err(e) => Err(e),
            }
        } else if id == 0x06 {
            Ok((GameChangeReason::ArrowHitPlayer, 0))
        } else if id == 0x07 {
            Ok((GameChangeReason::RainLevelChange(value), 0))
        } else if id == 0x08 {
            Ok((GameChangeReason::ThunderLevelChange(value), 0))
        } else if id == 0x09 {
            Ok((GameChangeReason::PufferfishSting, 0))
        } else if id == 0x0A {
            Ok((GameChangeReason::ElderGuardianMobAppearance, 0))
        } else if id == 0x0B {
            match RespawnRequestType::decode_with_id(float_byte(value), data) {
                Ok((body, n)) => Ok((GameChangeReason::Respawn(body), n)),
                Err(e) => Err(e),
            }
        } else {
            Err(DecodeFailure::CannotUnderstandValue)
        }
    }

    /// The byte that stands for the reason.
    pub fn reason_id(&self) -> (r: u8)
        ensures
            r == Self::reason_id_of(*self),
    {
        match self {
            GameChangeReason::NoRespawnAvailable => 0x00,
            GameChangeReason::EndRaining => 0x01,
            GameChangeReason::BeginRaining => 0x02,
            GameChangeReason::ChangeGameMode(_) => 0x03,
            GameChangeReason::WinGame(_) => 0x04,
            GameChangeReason::Demo(_) => 0x05,
            GameChangeReason::ArrowHitPlayer => 0x06,
            GameChangeReason::RainLevelChange(_) => 0x07,
            GameChangeReason::ThunderLevelChange(_) => 0x08,
            GameChangeReason::PufferfishSting => 0x09,
            GameChangeReason::ElderGuardianMobAppearance => 0x0A,
            GameChangeReason::Respawn(_) => 0x0B,
        }
    }

    /// The bit pattern of the float that follows the reason.
    pub fn value(&self) -> (r: u32)
        ensures
            r == Self::value_of(*self),
    {
        match self {
            GameChangeReason::ChangeGameMode(body) => byte_to_float(body.id()),
            GameChangeReason::WinGame(body) => byte_to_float(body.id()),
            GameChangeReason::Demo(body) => byte_to_float(body.id()),
            GameChangeReason::RainLevelChange(level) => *level,
            GameChangeReason::ThunderLevelChange(level) => *level,
            GameChangeReason::Respawn(body) => byte_to_float(body.id()),
            _ => 0,
        }
    }

    /// Picks the reason for a byte and a float. A byte that stands for no
    /// reason is refused, and the error says which.
    pub fn deserialize_with(id: u8, value: u32, data: &[u8]) -> (r: DeserializeResult<'_, Self>)
        ensures
            agrees(r, data@, Self::decode_with(id, value, data@)),
            id > 0x0B ==> (r matches Err(DeserializeErr::CannotUnderstandValue(m)) && m@
                == invalid_reason_text(id)),
    {
        proof {
            assert(data@.skip(0) =~= data@);
        }
        match id {
            0x00 => Ok(Deserialized { value: GameChangeReason::NoRespawnAvailable, data }),
            0x01 => Ok(Deserialized { value: GameChangeReason::EndRaining, data }),
            0x02 => Ok(Deserialized { value: GameChangeReason::BeginRaining, data }),
            0x03 => {
                let Deserialized { value: body, data: rest } = GameMode::deserialize_with_id(
                    float_to_byte(value),
                    data,
                )?;
                Ok(Deserialized { value: GameChangeReason::ChangeGameMode(body), data: rest })
            },
            0x04 => {
                let Deserialized { value: body, data: rest } = WinGameAction::deserialize_with_id(
                    float_to_byte(value),
                    data,
                )?;
                Ok(Deserialized { value: GameChangeReason::WinGame(body), data: rest })
            },
            0x05 => {
                let Deserialized { value: body, data: rest } = DemoEvent::deserialize_with_id(
                    float_to_byte(value),
                    data,
                )?;
                Ok(Deserialized { value: GameChangeReason::Demo(body), data: rest })
            },
            0x06 => Ok(Deserialized { value: GameChangeReason::ArrowHitPlayer, data }),
            0x07 => Ok(Deserialized { value: GameChangeReason::RainLevelChange(value), data }),
            0x08 => Ok(Deserialized { value: GameChangeReason::ThunderLevelChange(value), data }),
            0x09 => Ok(Deserialized { value: GameChangeReason::PufferfishSting, data }),
            0x0A => Ok(Deserialized { value: GameChangeReason::ElderGuardianMobAppearance, data }),
            0x0B => {
                let Deserialized { value: body, data: rest } =
                    RespawnRequestType::deserialize_with_id(float_to_byte(value), data)?;
                Ok(Deserialized { value: GameChangeReason::Respawn(body), data: rest })
            },
            other => Err(DeserializeErr::CannotUnderstandValue(invalid_reason_message(other))),
        }
    }

    /// The byte and the float of a reason stand for that reason.
    pub proof fn lemma_decode_with(v: GameChangeReason, rest: Seq<u8>)
        ensures
            Self::decode_with(Self::reason_id_of(v), Self::value_of(v), rest) == Ok::<
                _,
                DecodeFailure,
            >((v, 0nat)),
    {
        match v {
            GameChangeReason::ChangeGameMode(body) => {
                lemma_float_byte(GameMode::id_of(body));
            },
            GameChangeReason::WinGame(body) => {
                lemma_float_byte(WinGameAction::id_of(body));
            },
            GameChangeReason::Demo(body) => {
                lemma_float_byte(DemoEvent::id_of(body));
            },
            GameChangeReason::Respawn(body) => {
                lemma_float_byte(RespawnRequestType::id_of(body));
            },
            _ => {},
        }
    }
}

impl Serialize for GameChangeReason {
    open spec fn serializable(v: GameChangeReason) -> bool {
        &&& u8::serializable(Self::reason_id_of(v))
        &&& u32::serializable(Self::value_of(v))
        &&& true
    }

    #[verifier::opaque]
    open spec fn encode(v: GameChangeReason) -> Seq<u8> {
        u8::encode(Self::reason_id_of(v)) + u32::encode(Self::value_of(v)) + Seq::<u8>::empty()
    }

    fn mc_serialize<S: Serializer>(&self, to: &mut S) -> (r: SerializeResult) {
        proof {
            reveal(<GameChangeReason as Serialize>::encode);
        }
        self.reason_id().mc_serialize(to)?;
        self.value().mc_serialize(to)?;
        proof {
            assert(to.written() + Seq::<u8>::empty() =~= to.written());
        }
        proof {
            let v = self.deep_view();
            let w = old(to).written();
            let e0 = u8::encode(Self::reason_id_of(v));
            let e1 = u32::encode(Self::value_of(v));
            let e2 = Seq::<u8>::empty();
            let l0 = e0;
            let l1 = l0 + e1;
            let l2 = l1 + e2;
            lemma_concat_assoc(w, l0, e1);
            lemma_concat_assoc(w, l1, e2);
        }
        Ok(())
    }
}

impl Deserialize for GameChangeReason {
    #[verifier::opaque]
    open spec fn decode(data: Seq<u8>) -> Decoded<GameChangeReason> {
        match u8::decode(data) {
            Err(e) => Err(e),
            Ok((reason_id, n0)) => {
                match u32::decode(data.skip((n0) as int)) {
                    Err(e) => Err(e),
                    Ok((value, n1)) => {
                        match GameChangeReason::decode_with(reason_id, value, data.skip((n0 + n1) as int)) {
                            Err(e) => Err(e),
                            Ok((reason, n2)) => Ok((reason, n0 + n1 + n2)),
                        }
                    },
                }
            },
        }
    }

    fn mc_deserialize(data: &[u8]) -> (r: DeserializeResult<'_, GameChangeReason>) {
        proof {
            reveal(<GameChangeReason as Deserialize>::decode);
        }
        let ghost whole = data@;
        let Deserialized { value: reason_id, data: rest0 } = u8::mc_deserialize(data)?;
        let Deserialized { value: value, data: rest1 } = u32::mc_deserialize(rest0)?;
        proof {
            lemma_skip_skip(
                whole,
                whole.len() - rest0@.len(),
                rest0@.len() - rest1@.len(),
            );
        }
        let Deserialized { value: reason, data: rest2 } = GameChangeReason::deserialize_with(reason_id, value, rest1)?;
        proof {
            lemma_skip_skip(
                whole,
                whole.len() - rest1@.len(),
                rest1@.len() - rest2@.len(),
            );
        }
        Ok(Deserialized { value: reason, data: rest2 })
    }
}

impl ProtocolType for GameChangeReason {
    open spec fn faithful(v: GameChangeReason) -> bool {
        &&& u8::faithful(Self::reason_id_of(v))
        &&& u32::faithful(Self::value_of(v))
        &&& true
    }

    open spec fn delimited() -> bool {
        true
    }

    proof fn lemma_round_trip(v: GameChangeReason, rest: Seq<u8>) {
        reveal(<GameChangeReason as Serialize>::encode);
        reveal(<GameChangeReason as Deserialize>::decode);
        let e0 = u8::encode(Self::reason_id_of(v));
        let e1 = u32::encode(Self::value_of(v));
        let e2 = Seq::<u8>::empty();
        let data = Self::encode(v) + rest;
        let t3 = rest;
        let t2 = e2 + t3;
        let t1 = e1 + t2;
        let t0 = e0 + t1;
        let l0 = e0;
        let l1 = l0 + e1;
        let l2 = l1 + e2;
        lemma_concat_assoc(l1, e2, t3);
        lemma_concat_assoc(l0, e1, t2);
        assert(data == t0);
        u8::lemma_round_trip(Self::reason_id_of(v), t1);
        lemma_skip_concat(e0, t1);
        u32::lemma_round_trip(Self::value_of(v), t2);
        lemma_skip_more(data, (e0.len()) as int, e1, t2);
        assert(Seq::<u8>::empty() + t3 =~= t3);
        GameChangeReason::lemma_decode_with(v, t3);
        lemma_skip_more(data, (e0.len() + e1.len()) as int, e2, t3);
    }
}

/// The identifiers of the players that a run of actions is about, in order.
pub open spec fn action_ids<V>(items: Seq<(u128, V)>) -> Seq<u128> {
    Seq::new(items.len(), |i: int| items[i].0)
}

fn ids_of_actions<A: DeepView>(items: &Vec<PlayerInfoAction<A>>) -> (r: Vec<UUID4>)
    ensures
        r.deep_view() == action_ids(items.deep_view()),
{
    let mut out: Vec<UUID4> = Vec::new();
    let mut i: usize = 0;
    while i < items.len()
        invariant
            i <= items@.len(),
            out@.len() == i,
            forall|j: int| 0 <= j < i ==> (#[trigger] out@[j])@ == items@[j].uuid@,
        decreases items@.len() - i,
    {
        out.push(items[i].uuid);
        i += 1;
    }
    proof {
        assert forall|j: int| 0 <= j < items@.len() implies #[trigger] out.deep_view()[j]
            == action_ids(items.deep_view())[j] by {
            assert(out.deep_view()[j] == out@[j]@);
            assert(items.deep_view()[j] == items@[j].deep_view());
        }
        assert(out.deep_view() =~= action_ids(items.deep_view()));
    }
    out
}

fn copy_of_ids(ids: &Vec<UUID4>) -> (r: Vec<UUID4>)
    ensures
        r.deep_view() == ids.deep_view(),
{
    let mut out: Vec<UUID4> = Vec::new();
    let mut i: usize = 0;
    while i < ids.len()
        invariant
            i <= ids@.len(),
            out@.len() == i,
            forall|j: int| 0 <= j < i ==> (#[trigger] out@[j])@ == ids@[j]@,
        decreases ids@.len() - i,
    {
        out.push(ids[i]);
        i += 1;
    }
    proof {
        assert forall|j: int| 0 <= j < ids@.len() implies #[trigger] out.deep_view()[j]
            == ids.deep_view()[j] by {
            assert(out.deep_view()[j] == out@[j]@);
            assert(ids.deep_view()[j] == ids@[j]@);
        }
        assert(out.deep_view() =~= ids.deep_view());
    }
    out
}

impl PlayerInfoActionList {
    /// The players that the change is about, in order.
    pub open spec fn ids_of(v: PlayerInfoActionListView) -> Seq<u128> {
        match v {
            PlayerInfoActionListView::Add(items) => action_ids(items),
            PlayerInfoActionListView::UpdateGameMode(items) => action_ids(items),
            PlayerInfoActionListView::UpdateLatency(items) => action_ids(items),
            PlayerInfoActionListView::UpdateDisplayName(items) => action_ids(items),
            PlayerInfoActionListView::Remove(ids) => ids,
        }
    }

    /// The players that the change is about, in order.
    pub fn player_ids(&self) -> (r: Vec<UUID4>)
        ensures
            r.deep_view() == Self::ids_of(self.deep_view()),
    {
        match self {
            PlayerInfoActionList::Add(items) => ids_of_actions(&items.data),
            PlayerInfoActionList::UpdateGameMode(items) => ids_of_actions(&items.data),
            PlayerInfoActionList::UpdateLatency(items) => ids_of_actions(&items.data),
            PlayerInfoActionList::UpdateDisplayName(items) => ids_of_actions(&items.data),
            PlayerInfoActionList::Remove(ids) => copy_of_ids(&ids.data),
        }
    }

    /// How many players the change is about.
    pub fn len(&self) -> (r: usize)
        ensures
            r == Self::ids_of(self.deep_view()).len(),
    {
        match self {
            PlayerInfoActionList::Add(items) => items.data.len(),
            PlayerInfoActionList::UpdateGameMode(items) => items.data.len(),
            PlayerInfoActionList::UpdateLatency(items) => items.data.len(),
            PlayerInfoActionList::UpdateDisplayName(items) => items.data.len(),
            PlayerInfoActionList::Remove(ids) => ids.data.len(),
        }
    }
}

/// One of the four directions of the compass.
#[derive(PartialEq, Eq, Structural, Clone, Copy, Debug)]
pub enum CardinalDirection {
    South,
    West,
    North,
    East,
}

impl View for CardinalDirection {
    type V = CardinalDirection;

    open spec fn view(&self) -> CardinalDirection {
        *self
    }
}

impl DeepView for CardinalDirection {
    type V = CardinalDirection;

    open spec fn deep_view(&self) -> CardinalDirection {
        *self
    }
}

impl CardinalDirection {
    pub fn variant_count() -> (r: usize)
        ensures
            r == 4,
    {
        4
    }

    /// The number that stands for the variant on the wire.
    pub open spec fn id_of(v: CardinalDirection) -> u8 {
        match v {
            CardinalDirection::South => 0x00,
            CardinalDirection::West => 0x01,
            CardinalDirection::North => 0x02,
            CardinalDirection::East => 0x03,
        }
    }

    pub fn id(&self) -> (r: u8)
        ensures
            r == Self::id_of(self.deep_view()),
    {
        match self {
            CardinalDirection::South => 0x00,
            CardinalDirection::West => 0x01,
            CardinalDirection::North => 0x02,
            CardinalDirection::East => 0x03,
        }
    }

    pub open spec fn name_of(v: CardinalDirection) -> Seq<char> {
        match v {
            CardinalDirection::South => "South"@,
            CardinalDirection::West => "West"@,
            CardinalDirection::North => "North"@,
            CardinalDirection::East => "East"@,
        }
    }

    pub fn name(&self) -> (r: &'static str)
        ensures
            r@ == Self::name_of(self.deep_view()),
    {
        match self {
            CardinalDirection::South => "South",
            CardinalDirection::West => "West",
            CardinalDirection::North => "North",
            CardinalDirection::East => "East",
        }
    }

    /// The bytes that follow the number.
    pub open spec fn body_of(v: CardinalDirection) -> Seq<u8> {
        match v {
            CardinalDirection::South => Seq::empty(),
            CardinalDirection::West => Seq::empty(),
            CardinalDirection::North => Seq::empty(),
            CardinalDirection::East => Seq::empty(),
        }
    }

    /// Whether what follows the number can be written.
    pub open spec fn body_writable(v: CardinalDirection) -> bool {
        match v {
            CardinalDirection::South => true,
            CardinalDirection::West => true,
            CardinalDirection::North => true,
            CardinalDirection::East => true,
        }
    }

    /// The variant that `id` stands for, with its body read from `data`.
    pub open spec fn decode_with_id(id: u8, data: Seq<u8>) -> Decoded<CardinalDirection> {
        if id == 0x00 {
            Ok((CardinalDirection::South, 0))
        } else if id == 0x01 {
            Ok((CardinalDirection::West, 0))
        } else if id == 0x02 {
            Ok((CardinalDirection::North, 0))
        } else if id == 0x03 {
            Ok((CardinalDirection::East, 0))
        } else {
            Err(DecodeFailure::CannotUnderstandValue)
        }
    }

    /// Whether `id` stands for a variant.
    pub open spec fn has_id(id: u8) -> bool {
        id == 0x00
            || id == 0x01
            || id == 0x02
            || id == 0x03
    }

    /// Picks the variant for `id` and reads its body from `data`. A number
    /// that stands for no variant is refused, and the error says which.
    pub fn deserialize_with_id<'a>(id: u8, data: &'a [u8]) -> (r: DeserializeResult<'a, Self>)
        ensures
            agrees(r, data@, Self::decode_with_id(id, data@)),
            !Self::has_id(id) ==> (r matches Err(DeserializeErr::CannotUnderstandValue(m))
                && m@ == invalid_message("CardinalDirection"@, id as nat)),
    {
        proof {
            assert(data@.skip(0) =~= data@);
        }
        match id {
            0x00 => Ok(Deserialized { value: CardinalDirection::South, data }),
            0x01 => Ok(Deserialized { value: CardinalDirection::West, data }),
            0x02 => Ok(Deserialized { value: CardinalDirection::North, data }),
            0x03 => Ok(Deserialized { value: CardinalDirection::East, data }),
            other => Err(DeserializeErr::CannotUnderstandValue(invalid_value_message("CardinalDirection", other as u64))),
        }
    }

    /// Writes what follows the number.
    pub fn serialize_body<S: Serializer>(&self, to: &mut S) -> (r: SerializeResult)
        ensures
            r is Ok ==> Self::body_writable(self.deep_view()) && final(to).written() == old(
                to,
            ).written() + Self::body_of(self.deep_view()),
            old(to).infallible() ==> final(to).infallible(),
            old(to).infallible() ==> (r is Ok <==> Self::body_writable(self.deep_view())),
            old(to).infallible() && r is Err ==> (r matches Err(SerializeErr::CannotSerialize(_))),
    {
        match self {
            CardinalDirection::South => {
                proof {
                    assert(old(to).written() + Seq::<u8>::empty() =~= old(to).written());
                }
                Ok(())
            },
            CardinalDirection::West => {
                proof {
                    assert(old(to).written() + Seq::<u8>::empty() =~= old(to).written());
                }
                Ok(())
            },
            CardinalDirection::North => {
                proof {
                    assert(old(to).written() + Seq::<u8>::empty() =~= old(to).written());
                }
                Ok(())
            },
            CardinalDirection::East => {
                proof {
                    assert(old(to).written() + Seq::<u8>::empty() =~= old(to).written());
                }
                Ok(())
            },
        }
    }
}

impl Serialize for CardinalDirection {
    open spec fn serializable(v: CardinalDirection) -> bool {
        Self::body_writable(v)
    }

    #[verifier::opaque]
    open spec fn encode(v: CardinalDirection) -> Seq<u8> {
        <u8>::encode(Self::id_of(v)) + Self::body_of(v)
    }

    fn mc_serialize<S: Serializer>(&self, to: &mut S) -> (r: SerializeResult) {
        proof {
            reveal(<CardinalDirection as Serialize>::encode);
        }
        let id_to_serialize: u8 = self.id();
        id_to_serialize.mc_serialize(to)?;
        let r = self.serialize_body(to);
        proof {
            let head = <u8>::encode(Self::id_of(self.deep_view()));
            let body = Self::body_of(self.deep_view());
            lemma_concat_assoc(old(to).written(), head, body);
        }
        r
    }
}

impl Deserialize for CardinalDirection {
    #[verifier::opaque]
    open spec fn decode(data: Seq<u8>) -> Decoded<CardinalDirection> {
        match <u8>::decode(data) {
            Err(e) => Err(e),
            Ok((id, n)) => match Self::decode_with_id(id, data.skip(n as int)) {
                Ok((v, m)) => Ok((v, n + m)),
                Err(e) => Err(e),
            },
        }
    }

    fn mc_deserialize(data: &[u8]) -> (r: DeserializeResult<'_, CardinalDirection>) {
        proof {
            reveal(<CardinalDirection as Deserialize>::decode);
        }
        let Deserialized { value: id, data: rest } = <u8>::mc_deserialize(data)?;
        let Deserialized { value, data: after } = Self::deserialize_with_id(id, rest)?;
        proof {
            lemma_skip_skip(data@, data@.len() - rest@.len(), rest@.len() - after@.len());
        }
        Ok(Deserialized { value, data: after })
    }
}

impl ProtocolType for CardinalDirection {
    open spec fn faithful(v: CardinalDirection) -> bool {
        match v {
            CardinalDirection::South => true,
            CardinalDirection::West => true,
            CardinalDirection::North => true,
            CardinalDirection::East => true,
        }
    }

    open spec fn delimited() -> bool {
        true
    }

    proof fn lemma_round_trip(v: CardinalDirection, rest: Seq<u8>) {
        reveal(<CardinalDirection as Serialize>::encode);
        reveal(<CardinalDirection as Deserialize>::decode);
        let head = <u8>::encode(Self::id_of(v));
        let body = Self::body_of(v);
        <u8>::lemma_round_trip(Self::id_of(v), body + rest);
        Self::lemma_body_round_trip(v, rest);
        lemma_concat_assoc(head, body, rest);
        lemma_skip_concat(head, body + rest);
    }
}

impl CardinalDirection {
    /// What follows the number, written out and followed by anything, reads
    /// back under that number.
    pub proof fn lemma_body_round_trip(v: CardinalDirection, rest: Seq<u8>)
        requires
            <Self as ProtocolType>::faithful(v),
            <Self as ProtocolType>::delimited() || rest.len() == 0,
        ensures
            Self::body_writable(v),
            Self::decode_with_id(Self::id_of(v), Self::body_of(v) + rest) == Ok::<_, DecodeFailure>(
                (v, Self::body_of(v).len()),
            ),
    {
        match v {
            CardinalDirection::South => {
                assert(Seq::<u8>::empty() + rest =~= rest);
            },
            CardinalDirection::West => {
                assert(Seq::<u8>::empty() + rest =~= rest);
            },
            CardinalDirection::North => {
                assert(Seq::<u8>::empty() + rest =~= rest);
            },
            CardinalDirection::East => {
                assert(Seq::<u8>::empty() + rest =~= rest);
            },
        }
    }
}

/// A movement that an entity shows.
#[derive(PartialEq, Eq, Structural, Clone, Copy, Debug)]
pub enum EntityAnimationKind {
    SwingMainArm,
    TakeDamage,
    LeaveBed,
    SwingOffHand,
    CriticalEffect,
    MagicCriticalEffect,
}

impl View for EntityAnimationKind {
    type V = EntityAnimationKind;

    open spec fn view(&self) -> EntityAnimationKind {
        *self
    }
}

impl DeepView for EntityAnimationKind {
    type V = EntityAnimationKind;

    open spec fn deep_view(&self) -> EntityAnimationKind {
        *self
    }
}

impl EntityAnimationKind {
    pub fn variant_count() -> (r: usize)
        ensures
            r == 6,
    {
        6
    }

    /// The number that stands for the variant on the wire.
    pub open spec fn id_of(v: EntityAnimationKind) -> u8 {
        match v {
            EntityAnimationKind::SwingMainArm => 0x00,
            EntityAnimationKind::TakeDamage => 0x01,
            EntityAnimationKind::LeaveBed => 0x02,
            EntityAnimationKind::SwingOffHand => 0x03,
            EntityAnimationKind::CriticalEffect => 0x04,
            EntityAnimationKind::MagicCriticalEffect => 0x05,
        }
    }

    pub fn id(&self) -> (r: u8)
        ensures
            r == Self::id_of(self.deep_view()),
    {
        match self {
            EntityAnimationKind::SwingMainArm => 0x00,
            EntityAnimationKind::TakeDamage => 0x01,
            EntityAnimationKind::LeaveBed => 0x02,
            EntityAnimationKind::SwingOffHand => 0x03,
            EntityAnimationKind::CriticalEffect => 0x04,
            EntityAnimationKind::MagicCriticalEffect => 0x05,
        }
    }

    pub open spec fn name_of(v: EntityAnimationKind) -> Seq<char> {
        match v {
            EntityAnimationKind::SwingMainArm => "SwingMainArm"@,
            EntityAnimationKind::TakeDamage => "TakeDamage"@,
            EntityAnimationKind::LeaveBed => "LeaveBed"@,
            EntityAnimationKind::SwingOffHand => "SwingOffHand"@,
            EntityAnimationKind::CriticalEffect => "CriticalEffect"@,
            EntityAnimationKind::MagicCriticalEffect => "MagicCriticalEffect"@,
        }
    }

    pub fn name(&self) -> (r: &'static str)
        ensures
            r@ == Self::name_of(self.deep_view()),
    {
        match self {
            EntityAnimationKind::SwingMainArm => "SwingMainArm",
            EntityAnimationKind::TakeDamage => "TakeDamage",
            EntityAnimationKind::LeaveBed => "LeaveBed",
            EntityAnimationKind::SwingOffHand => "SwingOffHand",
            EntityAnimationKind::CriticalEffect => "CriticalEffect",
            EntityAnimationKind::MagicCriticalEffect => "MagicCriticalEffect",
        }
    }

    /// The bytes that follow the number.
    pub open spec fn body_of(v: EntityAnimationKind) -> Seq<u8> {
        match v {
            EntityAnimationKind::SwingMainArm => Seq::empty(),
            EntityAnimationKind::TakeDamage => Seq::empty(),
            EntityAnimationKind::LeaveBed => Seq::empty(),
            EntityAnimationKind::SwingOffHand => Seq::empty(),
            EntityAnimationKind::CriticalEffect => Seq::empty(),
            EntityAnimationKind::MagicCriticalEffect => Seq::empty(),
        }
    }

    /// Whether what follows the number can be written.
    pub open spec fn body_writable(v: EntityAnimationKind) -> bool {
        match v {
            EntityAnimationKind::SwingMainArm => true,
            EntityAnimationKind::TakeDamage => true,
            EntityAnimationKind::LeaveBed => true,
            EntityAnimationKind::SwingOffHand => true,
            EntityAnimationKind::CriticalEffect => true,
            EntityAnimationKind::MagicCriticalEffect => true,
        }
    }

    /// The variant that `id` stands for, with its body read from `data`.
    pub open spec fn decode_with_id(id: u8, data: Seq<u8>) -> Decoded<EntityAnimationKind> {
        if id == 0x00 {
            Ok((EntityAnimationKind::SwingMainArm, 0))
        } else if id == 0x01 {
            Ok((EntityAnimationKind::TakeDamage, 0))
        } else if id == 0x02 {
            Ok((EntityAnimationKind::LeaveBed, 0))
        } else if id == 0x03 {
            Ok((EntityAnimationKind::SwingOffHand, 0))
        } else if id == 0x04 {
            Ok((EntityAnimationKind::CriticalEffect, 0))
        } else if id == 0x05 {
            Ok((EntityAnimationKind::MagicCriticalEffect, 0))
        } else {
            Err(DecodeFailure::CannotUnderstandValue)
        }
    }

    /// Whether `id` stands for a variant.
    pub open spec fn has_id(id: u8) -> bool {
        id == 0x00
            || id == 0x01
            || id == 0x02
            || id == 0x03
            || id == 0x04
            || id == 0x05
    }

    /// Picks the variant for `id` and reads its body from `data`. A number
    /// that stands for no variant is refused, and the error says which.
    pub fn deserialize_with_id<'a>(id: u8, data: &'a [u8]) -> (r: DeserializeResult<'a, Self>)
        ensures
            agrees(r, data@, Self::decode_with_id(id, data@)),
            !Self::has_id(id) ==> (r matches Err(DeserializeErr::CannotUnderstandValue(m))
                && m@ == invalid_message("EntityAnimationKind"@, id as nat)),
    {
        proof {
            assert(data@.skip(0) =~= data@);
        }
        match id {
            0x00 => Ok(Deserialized { value: EntityAnimationKind::SwingMainArm, data }),
            0x01 => Ok(Deserialized { value: EntityAnimationKind::TakeDamage, data }),
            0x02 => Ok(Deserialized { value: EntityAnimationKind::LeaveBed, data }),
            0x03 => Ok(Deserialized { value: EntityAnimationKind::SwingOffHand, data }),
            0x04 => Ok(Deserialized { value: EntityAnimationKind::CriticalEffect, data }),
            0x05 => Ok(Deserialized { value: EntityAnimationKind::MagicCriticalEffect, data }),
            other => Err(DeserializeErr::CannotUnderstandValue(invalid_value_message("EntityAnimationKind", other as u64))),
        }
    }

    /// Writes what follows the number.
    pub fn serialize_body<S: Serializer>(&self, to: &mut S) -> (r: SerializeResult)
        ensures
            r is Ok ==> Self::body_writable(self.deep_view()) && final(to).written() == old(
                to,
            ).written() + Self::body_of(self.deep_view()),
            old(to).infallible() ==> final(to).infallible(),
            old(to).infallible() ==> (r is Ok <==> Self::body_writable(self.deep_view())),
            old(to).infallible() && r is Err ==> (r matches Err(SerializeErr::CannotSerialize(_))),
    {
        match self {
            EntityAnimationKind::SwingMainArm => {
                proof {
                    assert(old(to).written() + Seq::<u8>::empty() =~= old(to).written());
                }
                Ok(())
            },
            EntityAnimationKind::TakeDamage => {
                proof {
                    assert(old(to).written() + Seq::<u8>::empty() =~= old(to).written());
                }
                Ok(())
            },
            EntityAnimationKind::LeaveBed => {
                proof {
                    assert(old(to).written() + Seq::<u8>::empty() =~= old(to).written());
                }
                Ok(())
            },
            EntityAnimationKind::SwingOffHand => {
                proof {
                    assert(old(to).written() + Seq::<u8>::empty() =~= old(to).written());
                }
                Ok(())
            },
            EntityAnimationKind::CriticalEffect => {
                proof {
                    assert(old(to).written() + Seq::<u8>::empty() =~= old(to).written());
                }
                Ok(())
            },
            EntityAnimationKind::MagicCriticalEffect => {
                proof {
                    assert(old(to).written() + Seq::<u8>::empty() =~= old(to).written());
                }
                Ok(())
            },
        }
    }
}

impl Serialize for EntityAnimationKind {
    open spec fn serializable(v: EntityAnimationKind) -> bool {
        Self::body_writable(v)
    }

    #[verifier::opaque]
    open spec fn encode(v: EntityAnimationKind) -> Seq<u8> {
        <u8>::encode(Self::id_of(v)) + Self::body_of(v)
    }

    fn mc_serialize<S: Serializer>(&self, to: &mut S) -> (r: SerializeResult) {
        proof {
            reveal(<EntityAnimationKind as Serialize>::encode);
        }
        let id_to_serialize: u8 = self.id();
        id_to_serialize.mc_serialize(to)?;
        let r = self.serialize_body(to);
        proof {
            let head = <u8>::encode(Self::id_of(self.deep_view()));
            let body = Self::body_of(self.deep_view());
            lemma_concat_assoc(old(to).written(), head, body);
        }
        r
    }
}

impl Deserialize for EntityAnimationKind {
    #[verifier::opaque]
    open spec fn decode(data: Seq<u8>) -> Decoded<EntityAnimationKind> {
        match <u8>::decode(data) {
            Err(e) => Err(e),
            Ok((id, n)) => match Self::decode_with_id(id, data.skip(n as int)) {
                Ok((v, m)) => Ok((v, n + m)),
                Err(e) => Err(e),
            },
        }
    }

    fn mc_deserialize(data: &[u8]) -> (r: DeserializeResult<'_, EntityAnimationKind>) {
        proof {
            reveal(<EntityAnimationKind as Deserialize>::decode);
        }
        let Deserialized { value: id, data: rest } = <u8>::mc_deserialize(data)?;
        let Deserialized { value, data: after } = Self::deserialize_with_id(id, rest)?;
        proof {
            lemma_skip_skip(data@, data@.len() - rest@.len(), rest@.len() - after@.len());
        }
        Ok(Deserialized { value, data: after })
    }
}

impl ProtocolType for EntityAnimationKind {
    open spec fn faithful(v: EntityAnimationKind) -> bool {
        match v {
            EntityAnimationKind::SwingMainArm => true,
            EntityAnimationKind::TakeDamage => true,
            EntityAnimationKind::LeaveBed => true,
            EntityAnimationKind::SwingOffHand => true,
            EntityAnimationKind::CriticalEffect => true,
            EntityAnimationKind::MagicCriticalEffect => true,
        }
    }

    open spec fn delimited() -> bool {
        true
    }

    proof fn lemma_round_trip(v: EntityAnimationKind, rest: Seq<u8>) {
        reveal(<EntityAnimationKind as Serialize>::encode);
        reveal(<EntityAnimationKind as Deserialize>::decode);
        let head = <u8>::encode(Self::id_of(v));
        let body = Self::body_of(v);
        <u8>::lemma_round_trip(Self::id_of(v), body + rest);
        Self::lemma_body_round_trip(v, rest);
        lemma_concat_assoc(head, body, rest);
        lemma_skip_concat(head, body + rest);
    }
}

impl EntityAnimationKind {
    /// What follows the number, written out and followed by anything, reads
    /// back under that number.
    pub proof fn lemma_body_round_trip(v: EntityAnimationKind, rest: Seq<u8>)
        requires
            <Self as ProtocolType>::faithful(v),
            <Self as ProtocolType>::delimited() || rest.len() == 0,
        ensures
            Self::body_writable(v),
            Self::decode_with_id(Self::id_of(v), Self::body_of(v) + rest) == Ok::<_, DecodeFailure>(
                (v, Self::body_of(v).len()),
            ),
    {
        match v {
            EntityAnimationKind::SwingMainArm => {
                assert(Seq::<u8>::empty() + rest =~= rest);
            },
            EntityAnimationKind::TakeDamage => {
                assert(Seq::<u8>::empty() + rest =~= rest);
            },
            EntityAnimationKind::LeaveBed => {
                assert(Seq::<u8>::empty() + rest =~= rest);
            },
            EntityAnimationKind::SwingOffHand => {
                assert(Seq::<u8>::empty() + rest =~= rest);
            },
            EntityAnimationKind::CriticalEffect => {
                assert(Seq::<u8>::empty() + rest =~= rest);
            },
            EntityAnimationKind::MagicCriticalEffect => {
                assert(Seq::<u8>::empty() + rest =~= rest);
            },
        }
    }
}

/// What a statistic counts, with the block, item or entity that it counts for.
#[derive(PartialEq, Clone, Debug)]
pub enum StatisticCategory {
    Mined(VarInt),
    Crafted(VarInt),
    Used(VarInt),
    Broken(VarInt),
    PickedUp(VarInt),
    Dropped(VarInt),
    Killed(VarInt),
    KilledBy(VarInt),
    Custom(StatisticKind),
}

/// The mathematical content of a [`StatisticCategory`].
pub enum StatisticCategoryView {
    Mined(<VarInt as DeepView>::V),
    Crafted(<VarInt as DeepView>::V),
    Used(<VarInt as DeepView>::V),
    Broken(<VarInt as DeepView>::V),
    PickedUp(<VarInt as DeepView>::V),
    Dropped(<VarInt as DeepView>::V),
    Killed(<VarInt as DeepView>::V),
    KilledBy(<VarInt as DeepView>::V),
    Custom(<StatisticKind as DeepView>::V),
}

impl DeepView for StatisticCategory {
    type V = StatisticCategoryView;

    open spec fn deep_view(&self) -> StatisticCategoryView {
        match self {
            StatisticCategory::Mined(body) => StatisticCategoryView::Mined(body.deep_view()),
            StatisticCategory::Crafted(body) => StatisticCategoryView::Crafted(body.deep_view()),
            StatisticCategory::Used(body) => StatisticCategoryView::Used(body.deep_view()),
            StatisticCategory::Broken(body) => StatisticCategoryView::Broken(body.deep_view()),
            StatisticCategory::PickedUp(body) => StatisticCategoryView::PickedUp(body.deep_view()),
            StatisticCategory::Dropped(body) => StatisticCategoryView::Dropped(body.deep_view()),
            StatisticCategory::Killed(body) => StatisticCategoryView::Killed(body.deep_view()),
            StatisticCategory::KilledBy(body) => StatisticCategoryView::KilledBy(body.deep_view()),
            StatisticCategory::Custom(body) => StatisticCategoryView::Custom(body.deep_view()),
        }
    }
}

impl StatisticCategory {
    pub fn variant_count() -> (r: usize)
        ensures
            r == 9,
    {
        9
    }

    /// The number that stands for the variant on the wire.
    pub open spec fn id_of(v: StatisticCategoryView) -> i32 {
        match v {
            StatisticCategoryView::Mined(_) => 0x00,
            StatisticCategoryView::Crafted(_) => 0x01,
            StatisticCategoryView::Used(_) => 0x02,
            StatisticCategoryView::Broken(_) => 0x03,
            StatisticCategoryView::PickedUp(_) => 0x04,
            StatisticCategoryView::Dropped(_) => 0x05,
            StatisticCategoryView::Killed(_) => 0x06,
            StatisticCategoryView::KilledBy(_) => 0x07,
            StatisticCategoryView::Custom(_) => 0x08,
        }
    }

    pub fn id(&self) -> (r: VarInt)
        ensures
            r == VarInt(Self::id_of(self.deep_view())),
    {
        match self {
            StatisticCategory::Mined(_) => VarInt(0x00),
            StatisticCategory::Crafted(_) => VarInt(0x01),
            StatisticCategory::Used(_) => VarInt(0x02),
            StatisticCategory::Broken(_) => VarInt(0x03),
            StatisticCategory::PickedUp(_) => VarInt(0x04),
            StatisticCategory::Dropped(_) => VarInt(0x05),
            StatisticCategory::Killed(_) => VarInt(0x06),
            StatisticCategory::KilledBy(_) => VarInt(0x07),
            StatisticCategory::Custom(_) => VarInt(0x08),
        }
    }

    pub open spec fn name_of(v: StatisticCategoryView) -> Seq<char> {
        match v {
            StatisticCategoryView::Mined(_) => "Mined"@,
            StatisticCategoryView::Crafted(_) => "Crafted"@,
            StatisticCategoryView::Used(_) => "Used"@,
            StatisticCategoryView::Broken(_) => "Broken"@,
            StatisticCategoryView::PickedUp(_) => "PickedUp"@,
            StatisticCategoryView::Dropped(_) => "Dropped"@,
            StatisticCategoryView::Killed(_) => "Killed"@,
            StatisticCategoryView::KilledBy(_) => "KilledBy"@,
            StatisticCategoryView::Custom(_) => "Custom"@,
        }
    }

    pub fn name(&self) -> (r: &'static str)
        ensures
            r@ == Self::name_of(self.deep_view()),
    {
        match self {
            StatisticCategory::Mined(_) => "Mined",
            StatisticCategory::Crafted(_) => "Crafted",
            StatisticCategory::Used(_) => "Used",
            StatisticCategory::Broken(_) => "Broken",
            StatisticCategory::PickedUp(_) => "PickedUp",
            StatisticCategory::Dropped(_) => "Dropped",
            StatisticCategory::Killed(_) => "Killed",
            StatisticCategory::KilledBy(_) => "KilledBy",
            StatisticCategory::Custom(_) => "Custom",
        }
    }

    /// The bytes that follow the number.
    pub open spec fn body_of(v: StatisticCategoryView) -> Seq<u8> {
        match v {
            StatisticCategoryView::Mined(body) => <VarInt>::encode(body),
            StatisticCategoryView::Crafted(body) => <VarInt>::encode(body),
            StatisticCategoryView::Used(body) => <VarInt>::encode(body),
            StatisticCategoryView::Broken(body) => <VarInt>::encode(body),
            StatisticCategoryView::PickedUp(body) => <VarInt>::encode(body),
            StatisticCategoryView::Dropped(body) => <VarInt>::encode(body),
            StatisticCategoryView::Killed(body) => <VarInt>::encode(body),
            StatisticCategoryView::KilledBy(body) => <VarInt>::encode(body),
            StatisticCategoryView::Custom(body) => <StatisticKind>::encode(body),
        }
    }

    /// Whether what follows the number can be written.
    pub open spec fn body_writable(v: StatisticCategoryView) -> bool {
        match v {
            StatisticCategoryView::Mined(body) => <VarInt>::serializable(body),
            StatisticCategoryView::Crafted(body) => <VarInt>::serializable(body),
            StatisticCategoryView::Used(body) => <VarInt>::serializable(body),
            StatisticCategoryView::Broken(body) => <VarInt>::serializable(body),
            StatisticCategoryView::PickedUp(body) => <VarInt>::serializable(body),
            StatisticCategoryView::Dropped(body) => <VarInt>::serializable(body),
            StatisticCategoryView::Killed(body) => <VarInt>::serializable(body),
            StatisticCategoryView::KilledBy(body) => <VarInt>::serializable(body),
            StatisticCategoryView::Custom(body) => <StatisticKind>::serializable(body),
        }
    }

    /// The variant that `id` stands for, with its body read from `data`.
    pub open spec fn decode_with_id(id: i32, data: Seq<u8>) -> Decoded<StatisticCategoryView> {
        if id == 0x00 {
            match <VarInt>::decode(data) {
                Ok((body, n)) => Ok((StatisticCategoryView::Mined(body), n)),
                Err(e) => Err(e),
            }
        } else if id == 0x01 {
            match <VarInt>::decode(data) {
                Ok((body, n)) => Ok((StatisticCategoryView::Crafted(body), n)),
                Err(e) => Err(e),
            }
        } else if id == 0x02 {
            match <VarInt>::decode(data) {
                Ok((body, n)) => Ok((StatisticCategoryView::Used(body), n)),
                Err(e) => Err(e),
            }
        } else if id == 0x03 {
            match <VarInt>::decode(data) {
                Ok((body, n)) => Ok((StatisticCategoryView::Broken(body), n)),
                Err(e) => Err(e),
            }
        } else if id == 0x04 {
            match <VarInt>::decode(data) {
                Ok((body, n)) => Ok((StatisticCategoryView::PickedUp(body), n)),
                Err(e) => Err(e),
            }
        } else if id == 0x05 {
            match <VarInt>::decode(data) {
                Ok((body, n)) => Ok((StatisticCategoryView::Dropped(body), n)),
                Err(e) => Err(e),
            }
        } else if id == 0x06 {
            match <VarInt>::decode(data) {
                Ok((body, n)) => Ok((StatisticCategoryView::Killed(body), n)),
                Err(e) => Err(e),
            }
        } else if id == 0x07 {
            match <VarInt>::decode(data) {
                Ok((body, n)) => Ok((StatisticCategoryView::KilledBy(body), n)),
                Err(e) => Err(e),
            }
        } else if id == 0x08 {
            match <StatisticKind>::decode(data) {
                Ok((body, n)) => Ok((StatisticCategoryView::Custom(body), n)),
                Err(e) => Err(e),
            }
        } else {
            Err(DecodeFailure::CannotUnderstandValue)
        }
    }

    /// Whether `id` stands for a variant.
    pub open spec fn has_id(id: i32) -> bool {
        id == 0x00
            || id == 0x01
            || id == 0x02
            || id == 0x03
            || id == 0x04
            || id == 0x05
            || id == 0x06
            || id == 0x07
            || id == 0x08
    }

    /// Picks the variant for `id` and reads its body from `data`. A number
    /// that stands for no variant is refused, and the error says which.
    pub fn deserialize_with_id<'a>(id: VarInt, data: &'a [u8]) -> (r: DeserializeResult<'a, Self>)
        ensures
            agrees(r, data@, Self::decode_with_id(id.0, data@)),
            !Self::has_id(id.0) ==> (r matches Err(DeserializeErr::CannotUnderstandValue(m))
                && m@ == invalid_int_text("StatisticCategory"@, id.0 as int)),
    {
        proof {
            assert(data@.skip(0) =~= data@);
        }
        match id.0 {
            0x00 => {
                let Deserialized { value: body, data: rest } = <VarInt>::mc_deserialize(data)?;
                Ok(Deserialized { value: StatisticCategory::Mined(body), data: rest })
            },
            0x01 => {
                let Deserialized { value: body, data: rest } = <VarInt>::mc_deserialize(data)?;
                Ok(Deserialized { value: StatisticCategory::Crafted(body), data: rest })
            },
            0x02 => {
                let Deserialized { value: body, data: rest } = <VarInt>::mc_deserialize(data)?;
                Ok(Deserialized { value: StatisticCategory::Used(body), data: rest })
            },
            0x03 => {
                let Deserialized { value: body, data: rest } = <VarInt>::mc_deserialize(data)?;
                Ok(Deserialized { value: StatisticCategory::Broken(body), data: rest })
            },
            0x04 => {
                let Deserialized { value: body, data: rest } = <VarInt>::mc_deserialize(data)?;
                Ok(Deserialized { value: StatisticCategory::PickedUp(body), data: rest })
            },
            0x05 => {
                let Deserialized { value: body, data: rest } = <VarInt>::mc_deserialize(data)?;
                Ok(Deserialized { value: StatisticCategory::Dropped(body), data: rest })
            },
            0x06 => {
                let Deserialized { value: body, data: rest } = <VarInt>::mc_deserialize(data)?;
                Ok(Deserialized { value: StatisticCategory::Killed(body), data: rest })
            },
            0x07 => {
                let Deserialized { value: body, data: rest } = <VarInt>::mc_deserialize(data)?;
                Ok(Deserialized { value: StatisticCategory::KilledBy(body), data: rest })
            },
            0x08 => {
                let Deserialized { value: body, data: rest } = <StatisticKind>::mc_deserialize(data)?;
                Ok(Deserialized { value: StatisticCategory::Custom(body), data: rest })
            },
            other => Err(DeserializeErr::CannotUnderstandValue(invalid_int_message("StatisticCategory", other))),
        }
    }

    /// Writes what follows the number.
    pub fn serialize_body<S: Serializer>(&self, to: &mut S) -> (r: SerializeResult)
        ensures
            r is Ok ==> Self::body_writable(self.deep_view()) && final(to).written() == old(
                to,
            ).written() + Self::body_of(self.deep_view()),
            old(to).infallible() ==> final(to).infallible(),
            old(to).infallible() ==> (r is Ok <==> Self::body_writable(self.deep_view())),
            old(to).infallible() && r is Err ==> (r matches Err(SerializeErr::CannotSerialize(_))),
    {
        match self {
            StatisticCategory::Mined(bod) => bod.mc_serialize(to),
            StatisticCategory::Crafted(bod) => bod.mc_serialize(to),
            StatisticCategory::Used(bod) => bod.mc_serialize(to),
            StatisticCategory::Broken(bod) => bod.mc_serialize(to),
            StatisticCategory::PickedUp(bod) => bod.mc_serialize(to),
            StatisticCategory::Dropped(bod) => bod.mc_serialize(to),
            StatisticCategory::Killed(bod) => bod.mc_serialize(to),
            StatisticCategory::KilledBy(bod) => bod.mc_serialize(to),
            StatisticCategory::Custom(bod) => bod.mc_serialize(to),
        }
    }
}

impl Serialize for StatisticCategory {
    open spec fn serializable(v: StatisticCategoryView) -> bool {
        Self::body_writable(v)
    }

    #[verifier::opaque]
    open spec fn encode(v: StatisticCategoryView) -> Seq<u8> {
        <VarInt>::encode(VarInt(Self::id_of(v))) + Self::body_of(v)
    }

    fn mc_serialize<S: Serializer>(&self, to: &mut S) -> (r: SerializeResult) {
        proof {
            reveal(<StatisticCategory as Serialize>::encode);
        }
        let id_to_serialize: VarInt = self.id();
        id_to_serialize.mc_serialize(to)?;
        let r = self.serialize_body(to);
        proof {
            let head = <VarInt>::encode(VarInt(Self::id_of(self.deep_view())));
            let body = Self::body_of(self.deep_view());
            lemma_concat_assoc(old(to).written(), head, body);
        }
        r
    }
}

impl Deserialize for StatisticCategory {
    #[verifier::opaque]
    open spec fn decode(data: Seq<u8>) -> Decoded<StatisticCategoryView> {
        match <VarInt>::decode(data) {
            Err(e) => Err(e),
            Ok((id, n)) => match Self::decode_with_id(id.0, data.skip(n as int)) {
                Ok((v, m)) => Ok((v, n + m)),
                Err(e) => Err(e),
            },
        }
    }

    fn mc_deserialize(data: &[u8]) -> (r: DeserializeResult<'_, StatisticCategory>) {
        proof {
            reveal(<StatisticCategory as Deserialize>::decode);
        }
        let Deserialized { value: id, data: rest } = <VarInt>::mc_deserialize(data)?;
        let Deserialized { value, data: after } = Self::deserialize_with_id(id, rest)?;
        proof {
            lemma_skip_skip(data@, data@.len() - rest@.len(), rest@.len() - after@.len());
        }
        Ok(Deserialized { value, data: after })
    }
}

impl ProtocolType for StatisticCategory {
    open spec fn faithful(v: StatisticCategoryView) -> bool {
        match v {
            StatisticCategoryView::Mined(body) => <VarInt>::faithful(body),
            StatisticCategoryView::Crafted(body) => <VarInt>::faithful(body),
            StatisticCategoryView::Used(body) => <VarInt>::faithful(body),
            StatisticCategoryView::Broken(body) => <VarInt>::faithful(body),
            StatisticCategoryView::PickedUp(body) => <VarInt>::faithful(body),
            StatisticCategoryView::Dropped(body) => <VarInt>::faithful(body),
            StatisticCategoryView::Killed(body) => <VarInt>::faithful(body),
            StatisticCategoryView::KilledBy(body) => <VarInt>::faithful(body),
            StatisticCategoryView::Custom(body) => <StatisticKind>::faithful(body),
        }
    }

    open spec fn delimited() -> bool {
        <StatisticKind>::delimited() && <VarInt>::delimited()
    }

    proof fn lemma_round_trip(v: StatisticCategoryView, rest: Seq<u8>) {
        reveal(<StatisticCategory as Serialize>::encode);
        reveal(<StatisticCategory as Deserialize>::decode);
        let head = <VarInt>::encode(VarInt(Self::id_of(v)));
        let body = Self::body_of(v);
        <VarInt>::lemma_round_trip(VarInt(Self::id_of(v)), body + rest);
        Self::lemma_body_round_trip(v, rest);
        lemma_concat_assoc(head, body, rest);
        lemma_skip_concat(head, body + rest);
    }
}

impl StatisticCategory {
    /// What follows the number, written out and followed by anything, reads
    /// back under that number.
    pub proof fn lemma_body_round_trip(v: StatisticCategoryView, rest: Seq<u8>)
        requires
            <Self as ProtocolType>::faithful(v),
            <Self as ProtocolType>::delimited() || rest.len() == 0,
        ensures
            Self::body_writable(v),
            Self::decode_with_id(Self::id_of(v), Self::body_of(v) + rest) == Ok::<_, DecodeFailure>(
                (v, Self::body_of(v).len()),
            ),
    {
        match v {
            StatisticCategoryView::Mined(body) => {
                <VarInt>::lemma_round_trip(body, rest);
            },
            StatisticCategoryView::Crafted(body) => {
                <VarInt>::lemma_round_trip(body, rest);
            },
            StatisticCategoryView::Used(body) => {
                <VarInt>::lemma_round_trip(body, rest);
            },
            StatisticCategoryView::Broken(body) => {
                <VarInt>::lemma_round_trip(body, rest);
            },
            StatisticCategoryView::PickedUp(body) => {
                <VarInt>::lemma_round_trip(body, rest);
            },
            StatisticCategoryView::Dropped(body) => {
                <VarInt>::lemma_round_trip(body, rest);
            },
            StatisticCategoryView::Killed(body) => {
                <VarInt>::lemma_round_trip(body, rest);
            },
            StatisticCategoryView::KilledBy(body) => {
                <VarInt>::lemma_round_trip(body, rest);
            },
            StatisticCategoryView::Custom(body) => {
                <StatisticKind>::lemma_round_trip(body, rest);
            },
        }
    }
}

/// One of the statistics that belong to no block, item or entity.
#[derive(PartialEq, Eq, Structural, Clone, Copy, Debug)]
pub enum StatisticKind {
    LeaveGame,
    PlayOneMinute,
    TimeSinceDeath,
    SneakTime,
    WealkOneCm,
    CrouchOneCm,
    SprintOneCm,
    SwimOneCm,
    FallOneCm,
    ClimbOneCm,
    FlyOneCm,
    DiveOneCm,
    MinecartOneCm,
    BoatOneCm,
    PigOneCm,
    HorseOneCm,
    AviateOneCm,
    Jumps,
    Drops,
    DamageDealt,
    DamageTaken,
    Deaths,
    MobKills,
    AnimalsBread,
    PlayerKills,
    FishCaught,
    TalkedToVillager,
    TradedWithVillager,
    EatCakeSlice,
    FillCauldron,
    UseCauldron,
    CleanArmor,
    CleanBanner,
    InteractWithBrewingStand,
    InteractWithBeaccon,
    InspectDropper,
    InspectHopper,
    InspectDispenser,
    PlayNoteBlock,
    TuneNoteBlock,
    PotFlower,
    TriggerTrappedChest,
    OpenEnderChest,
    EnchantItem,
    PlayRecord,
    InteractWithFurnace,
    InteractWithCraftingTable,
    OpenChest,
    SleepInBed,
    OpenShulkerBox,
}

impl View for StatisticKind {
    type V = StatisticKind;

    open spec fn view(&self) -> StatisticKind {
        *self
    }
}

impl DeepView for StatisticKind {
    type V = StatisticKind;

    open spec fn deep_view(&self) -> StatisticKind {
        *self
    }
}

impl StatisticKind {
    pub fn variant_count() -> (r: usize)
        ensures
            r == 50,
    {
        50
    }

    /// The number that stands for the variant on the wire.
    pub open spec fn id_of(v: StatisticKind) -> i32 {
        match v {
            StatisticKind::LeaveGame => 0x00,
            StatisticKind::PlayOneMinute => 0x01,
            StatisticKind::TimeSinceDeath => 0x02,
            StatisticKind::SneakTime => 0x03,
            StatisticKind::WealkOneCm => 0x04,
            StatisticKind::CrouchOneCm => 0x05,
            StatisticKind::SprintOneCm => 0x06,
            StatisticKind::SwimOneCm => 0x07,
            StatisticKind::FallOneCm => 0x08,
            StatisticKind::ClimbOneCm => 0x09,
            StatisticKind::FlyOneCm => 0x0A,
            StatisticKind::DiveOneCm => 0x0B,
            StatisticKind::MinecartOneCm => 0x0C,
            StatisticKind::BoatOneCm => 0x0D,
            StatisticKind::PigOneCm => 0x0E,
            StatisticKind::HorseOneCm => 0x0F,
            StatisticKind::AviateOneCm => 0x10,
            StatisticKind::Jumps => 0x11,
            StatisticKind::Drops => 0x12,
            StatisticKind::DamageDealt => 0x13,
            StatisticKind::DamageTaken => 0x14,
            StatisticKind::Deaths => 0x15,
            StatisticKind::MobKills => 0x16,
            StatisticKind::AnimalsBread => 0x17,
            StatisticKind::PlayerKills => 0x18,
            StatisticKind::FishCaught => 0x19,
            StatisticKind::TalkedToVillager => 0x1A,
            StatisticKind::TradedWithVillager => 0x1B,
            StatisticKind::EatCakeSlice => 0x1C,
            StatisticKind::FillCauldron => 0x1D,
            StatisticKind::UseCauldron => 0x1E,
            StatisticKind::CleanArmor => 0x1F,
            StatisticKind::CleanBanner => 0x20,
            StatisticKind::InteractWithBrewingStand => 0x21,
            StatisticKind::InteractWithBeaccon => 0x22,
            StatisticKind::InspectDropper => 0x23,
            StatisticKind::InspectHopper => 0x24,
            StatisticKind::InspectDispenser => 0x25,
            StatisticKind::PlayNoteBlock => 0x26,
            StatisticKind::TuneNoteBlock => 0x27,
            StatisticKind::PotFlower => 0x28,
            StatisticKind::TriggerTrappedChest => 0x29,
            StatisticKind::OpenEnderChest => 0x2A,
            StatisticKind::EnchantItem => 0x2B,
            StatisticKind::PlayRecord => 0x2C,
            StatisticKind::InteractWithFurnace => 0x2D,
            StatisticKind::InteractWithCraftingTable => 0x2E,
            StatisticKind::OpenChest => 0x2F,
            StatisticKind::SleepInBed => 0x30,
            StatisticKind::OpenShulkerBox => 0x31,
        }
    }

    pub fn id(&self) -> (r: VarInt)
        ensures
            r == VarInt(Self::id_of(self.deep_view())),
    {
        match self {
            StatisticKind::LeaveGame => VarInt(0x00),
            StatisticKind::PlayOneMinute => VarInt(0x01),
            StatisticKind::TimeSinceDeath => VarInt(0x02),
            StatisticKind::SneakTime => VarInt(0x03),
            StatisticKind::WealkOneCm => VarInt(0x04),
            StatisticKind::CrouchOneCm => VarInt(0x05),
            StatisticKind::SprintOneCm => VarInt(0x06),
            StatisticKind::SwimOneCm => VarInt(0x07),
            StatisticKind::FallOneCm => VarInt(0x08),
            StatisticKind::ClimbOneCm => VarInt(0x09),
            StatisticKind::FlyOneCm => VarInt(0x0A),
            StatisticKind::DiveOneCm => VarInt(0x0B),
            StatisticKind::MinecartOneCm => VarInt(0x0C),
            StatisticKind::BoatOneCm => VarInt(0x0D),
            StatisticKind::PigOneCm => VarInt(0x0E),
            StatisticKind::HorseOneCm => VarInt(0x0F),
            StatisticKind::AviateOneCm => VarInt(0x10),
            StatisticKind::Jumps => VarInt(0x11),
            StatisticKind::Drops => VarInt(0x12),
            StatisticKind::DamageDealt => VarInt(0x13),
            StatisticKind::DamageTaken => VarInt(0x14),
            StatisticKind::Deaths => VarInt(0x15),
            StatisticKind::MobKills => VarInt(0x16),
            StatisticKind::AnimalsBread => VarInt(0x17),
            StatisticKind::PlayerKills => VarInt(0x18),
            StatisticKind::FishCaught => VarInt(0x19),
            StatisticKind::TalkedToVillager => VarInt(0x1A),
            StatisticKind::TradedWithVillager => VarInt(0x1B),
            StatisticKind::EatCakeSlice => VarInt(0x1C),
            StatisticKind::FillCauldron => VarInt(0x1D),
            StatisticKind::UseCauldron => VarInt(0x1E),
            StatisticKind::CleanArmor => VarInt(0x1F),
            StatisticKind::CleanBanner => VarInt(0x20),
            StatisticKind::InteractWithBrewingStand => VarInt(0x21),
            StatisticKind::InteractWithBeaccon => VarInt(0x22),
            StatisticKind::InspectDropper => VarInt(0x23),
            StatisticKind::InspectHopper => VarInt(0x24),
            StatisticKind::InspectDispenser => VarInt(0x25),
            StatisticKind::PlayNoteBlock => VarInt(0x26),
            StatisticKind::TuneNoteBlock => VarInt(0x27),
            StatisticKind::PotFlower => VarInt(0x28),
            StatisticKind::TriggerTrappedChest => VarInt(0x29),
            StatisticKind::OpenEnderChest => VarInt(0x2A),
            StatisticKind::EnchantItem => VarInt(0x2B),
            StatisticKind::PlayRecord => VarInt(0x2C),
            StatisticKind::InteractWithFurnace => VarInt(0x2D),
            StatisticKind::InteractWithCraftingTable => VarInt(0x2E),
            StatisticKind::OpenChest => VarInt(0x2F),
            StatisticKind::SleepInBed => VarInt(0x30),
            StatisticKind::OpenShulkerBox => VarInt(0x31),
        }
    }

    pub open spec fn name_of(v: StatisticKind) -> Seq<char> {
        match v {
            StatisticKind::LeaveGame => "LeaveGame"@,
            StatisticKind::PlayOneMinute => "PlayOneMinute"@,
            StatisticKind::TimeSinceDeath => "TimeSinceDeath"@,
            StatisticKind::SneakTime => "SneakTime"@,
            StatisticKind::WealkOneCm => "WealkOneCm"@,
            StatisticKind::CrouchOneCm => "CrouchOneCm"@,
            StatisticKind::SprintOneCm => "SprintOneCm"@,
            StatisticKind::SwimOneCm => "SwimOneCm"@,
            StatisticKind::FallOneCm => "FallOneCm"@,
            StatisticKind::ClimbOneCm => "ClimbOneCm"@,
            StatisticKind::FlyOneCm => "FlyOneCm"@,
            StatisticKind::DiveOneCm => "DiveOneCm"@,
            StatisticKind::MinecartOneCm => "MinecartOneCm"@,
            StatisticKind::BoatOneCm => "BoatOneCm"@,
            StatisticKind::PigOneCm => "PigOneCm"@,
            StatisticKind::HorseOneCm => "HorseOneCm"@,
            StatisticKind::AviateOneCm => "AviateOneCm"@,
            StatisticKind::Jumps => "Jumps"@,
            StatisticKind::Drops => "Drops"@,
            StatisticKind::DamageDealt => "DamageDealt"@,
            StatisticKind::DamageTaken => "DamageTaken"@,
            StatisticKind::Deaths => "Deaths"@,
            StatisticKind::MobKills => "MobKills"@,
            StatisticKind::AnimalsBread => "AnimalsBread"@,
            StatisticKind::PlayerKills => "PlayerKills"@,
            StatisticKind::FishCaught => "FishCaught"@,
            StatisticKind::TalkedToVillager => "TalkedToVillager"@,
            StatisticKind::TradedWithVillager => "TradedWithVillager"@,
            StatisticKind::EatCakeSlice => "EatCakeSlice"@,
            StatisticKind::FillCauldron => "FillCauldron"@,
            StatisticKind::UseCauldron => "UseCauldron"@,
            StatisticKind::CleanArmor => "CleanArmor"@,
            StatisticKind::CleanBanner => "CleanBanner"@,
            StatisticKind::InteractWithBrewingStand => "InteractWithBrewingStand"@,
            StatisticKind::InteractWithBeaccon => "InteractWithBeaccon"@,
            StatisticKind::InspectDropper => "InspectDropper"@,
            StatisticKind::InspectHopper => "InspectHopper"@,
            StatisticKind::InspectDispenser => "InspectDispenser"@,
            StatisticKind::PlayNoteBlock => "PlayNoteBlock"@,
            StatisticKind::TuneNoteBlock => "TuneNoteBlock"@,
            StatisticKind::PotFlower => "PotFlower"@,
            StatisticKind::TriggerTrappedChest => "TriggerTrappedChest"@,
            StatisticKind::OpenEnderChest => "OpenEnderChest"@,
            StatisticKind::EnchantItem => "EnchantItem"@,
            StatisticKind::PlayRecord => "PlayRecord"@,
            StatisticKind::InteractWithFurnace => "InteractWithFurnace"@,
            StatisticKind::InteractWithCraftingTable => "InteractWithCraftingTable"@,
            StatisticKind::OpenChest => "OpenChest"@,
            StatisticKind::SleepInBed => "SleepInBed"@,
            StatisticKind::OpenShulkerBox => "OpenShulkerBox"@,
        }
    }

    pub fn name(&self) -> (r: &'static str)
        ensures
            r@ == Self::name_of(self.deep_view()),
    {
        match self {
            StatisticKind::LeaveGame => "LeaveGame",
            StatisticKind::PlayOneMinute => "PlayOneMinute",
            StatisticKind::TimeSinceDeath => "TimeSinceDeath",
            StatisticKind::SneakTime => "SneakTime",
            StatisticKind::WealkOneCm => "WealkOneCm",
            StatisticKind::CrouchOneCm => "CrouchOneCm",
            StatisticKind::SprintOneCm => "SprintOneCm",
            StatisticKind::SwimOneCm => "SwimOneCm",
            StatisticKind::FallOneCm => "FallOneCm",
            StatisticKind::ClimbOneCm => "ClimbOneCm",
            StatisticKind::FlyOneCm => "FlyOneCm",
            StatisticKind::DiveOneCm => "DiveOneCm",
            StatisticKind::MinecartOneCm => "MinecartOneCm",
            StatisticKind::BoatOneCm => "BoatOneCm",
            StatisticKind::PigOneCm => "PigOneCm",
            StatisticKind::HorseOneCm => "HorseOneCm",
            StatisticKind::AviateOneCm => "AviateOneCm",
            StatisticKind::Jumps => "Jumps",
            StatisticKind::Drops => "Drops",
            StatisticKind::DamageDealt => "DamageDealt",
            StatisticKind::DamageTaken => "DamageTaken",
            StatisticKind::Deaths => "Deaths",
            StatisticKind::MobKills => "MobKills",
            StatisticKind::AnimalsBread => "AnimalsBread",
            StatisticKind::PlayerKills => "PlayerKills",
            StatisticKind::FishCaught => "FishCaught",
            StatisticKind::TalkedToVillager => "TalkedToVillager",
            StatisticKind::TradedWithVillager => "TradedWithVillager",
            StatisticKind::EatCakeSlice => "EatCakeSlice",
            StatisticKind::FillCauldron => "FillCauldron",
            StatisticKind::UseCauldron => "UseCauldron",
            StatisticKind::CleanArmor => "CleanArmor",
            StatisticKind::CleanBanner => "CleanBanner",
            StatisticKind::InteractWithBrewingStand => "InteractWithBrewingStand",
            StatisticKind::InteractWithBeaccon => "InteractWithBeaccon",
            StatisticKind::InspectDropper => "InspectDropper",
            StatisticKind::InspectHopper => "InspectHopper",
            StatisticKind::InspectDispenser => "InspectDispenser",
            StatisticKind::PlayNoteBlock => "PlayNoteBlock",
            StatisticKind::TuneNoteBlock => "TuneNoteBlock",
            StatisticKind::PotFlower => "PotFlower",
            StatisticKind::TriggerTrappedChest => "TriggerTrappedChest",
            StatisticKind::OpenEnderChest => "OpenEnderChest",
            StatisticKind::EnchantItem => "EnchantItem",
            StatisticKind::PlayRecord => "PlayRecord",
            StatisticKind::InteractWithFurnace => "InteractWithFurnace",
            StatisticKind::InteractWithCraftingTable => "InteractWithCraftingTable",
            StatisticKind::OpenChest => "OpenChest",
            StatisticKind::SleepInBed => "SleepInBed",
            StatisticKind::OpenShulkerBox => "OpenShulkerBox",
        }
    }

    /// The bytes that follow the number.
    pub open spec fn body_of(v: StatisticKind) -> Seq<u8> {
        match v {
            StatisticKind::LeaveGame => Seq::empty(),
            StatisticKind::PlayOneMinute => Seq::empty(),
            StatisticKind::TimeSinceDeath => Seq::empty(),
            StatisticKind::SneakTime => Seq::empty(),
            StatisticKind::WealkOneCm => Seq::empty(),
            StatisticKind::CrouchOneCm => Seq::empty(),
            StatisticKind::SprintOneCm => Seq::empty(),
            StatisticKind::SwimOneCm => Seq::empty(),
            StatisticKind::FallOneCm => Seq::empty(),
            StatisticKind::ClimbOneCm => Seq::empty(),
            StatisticKind::FlyOneCm => Seq::empty(),
            StatisticKind::DiveOneCm => Seq::empty(),
            StatisticKind::MinecartOneCm => Seq::empty(),
            StatisticKind::BoatOneCm => Seq::empty(),
            StatisticKind::PigOneCm => Seq::empty(),
            StatisticKind::HorseOneCm => Seq::empty(),
            StatisticKind::AviateOneCm => Seq::empty(),
            StatisticKind::Jumps => Seq::empty(),
            StatisticKind::Drops => Seq::empty(),
            StatisticKind::DamageDealt => Seq::empty(),
            StatisticKind::DamageTaken => Seq::empty(),
            StatisticKind::Deaths => Seq::empty(),
            StatisticKind::MobKills => Seq::empty(),
            StatisticKind::AnimalsBread => Seq::empty(),
            StatisticKind::PlayerKills => Seq::empty(),
            StatisticKind::FishCaught => Seq::empty(),
            StatisticKind::TalkedToVillager => Seq::empty(),
            StatisticKind::TradedWithVillager => Seq::empty(),
            StatisticKind::EatCakeSlice => Seq::empty(),
            StatisticKind::FillCauldron => Seq::empty(),
            StatisticKind::UseCauldron => Seq::empty(),
            StatisticKind::CleanArmor => Seq::empty(),
            StatisticKind::CleanBanner => Seq::empty(),
            StatisticKind::InteractWithBrewingStand => Seq::empty(),
            StatisticKind::InteractWithBeaccon => Seq::empty(),
            StatisticKind::InspectDropper => Seq::empty(),
            StatisticKind::InspectHopper => Seq::empty(),
            StatisticKind::InspectDispenser => Seq::empty(),
            StatisticKind::PlayNoteBlock => Seq::empty(),
            StatisticKind::TuneNoteBlock => Seq::empty(),
            StatisticKind::PotFlower => Seq::empty(),
            StatisticKind::TriggerTrappedChest => Seq::empty(),
            StatisticKind::OpenEnderChest => Seq::empty(),
            StatisticKind::EnchantItem => Seq::empty(),
            StatisticKind::PlayRecord => Seq::empty(),
            StatisticKind::InteractWithFurnace => Seq::empty(),
            StatisticKind::InteractWithCraftingTable => Seq::empty(),
            StatisticKind::OpenChest => Seq::empty(),
            StatisticKind::SleepInBed => Seq::empty(),
            StatisticKind::OpenShulkerBox => Seq::empty(),
        }
    }

    /// Whether what follows the number can be written.
    pub open spec fn body_writable(v: StatisticKind) -> bool {
        match v {
            StatisticKind::LeaveGame => true,
            StatisticKind::PlayOneMinute => true,
            StatisticKind::TimeSinceDeath => true,
            StatisticKind::SneakTime => true,
            StatisticKind::WealkOneCm => true,
            StatisticKind::CrouchOneCm => true,
            StatisticKind::SprintOneCm => true,
            StatisticKind::SwimOneCm => true,
            StatisticKind::FallOneCm => true,
            StatisticKind::ClimbOneCm => true,
            StatisticKind::FlyOneCm => true,
            StatisticKind::DiveOneCm => true,
            StatisticKind::MinecartOneCm => true,
            StatisticKind::BoatOneCm => true,
            StatisticKind::PigOneCm => true,
            StatisticKind::HorseOneCm => true,
            StatisticKind::AviateOneCm => true,
            StatisticKind::Jumps => true,
            StatisticKind::Drops => true,
            StatisticKind::DamageDealt => true,
            StatisticKind::DamageTaken => true,
            StatisticKind::Deaths => true,
            StatisticKind::MobKills => true,
            StatisticKind::AnimalsBread => true,
            StatisticKind::PlayerKills => true,
            StatisticKind::FishCaught => true,
            StatisticKind::TalkedToVillager => true,
            StatisticKind::TradedWithVillager => true,
            StatisticKind::EatCakeSlice => true,
            StatisticKind::FillCauldron => true,
            StatisticKind::UseCauldron => true,
            StatisticKind::CleanArmor => true,
            StatisticKind::CleanBanner => true,
            StatisticKind::InteractWithBrewingStand => true,
            StatisticKind::InteractWithBeaccon => true,
            StatisticKind::InspectDropper => true,
            StatisticKind::InspectHopper => true,
            StatisticKind::InspectDispenser => true,
            StatisticKind::PlayNoteBlock => true,
            StatisticKind::TuneNoteBlock => true,
            StatisticKind::PotFlower => true,
            StatisticKind::TriggerTrappedChest => true,
            StatisticKind::OpenEnderChest => true,
            StatisticKind::EnchantItem => true,
            StatisticKind::PlayRecord => true,
            StatisticKind::InteractWithFurnace => true,
            StatisticKind::InteractWithCraftingTable => true,
            StatisticKind::OpenChest => true,
            StatisticKind::SleepInBed => true,
            StatisticKind::OpenShulkerBox => true,
        }
    }

    /// The variant that `id` stands for, with its body read from `data`.
    pub open spec fn decode_with_id(id: i32, data: Seq<u8>) -> Decoded<StatisticKind> {
        if id == 0x00 {
            Ok((StatisticKind::LeaveGame, 0))
        } else if id == 0x01 {
            Ok((StatisticKind::PlayOneMinute, 0))
        } else if id == 0x02 {
            Ok((StatisticKind::TimeSinceDeath, 0))
        } else if id == 0x03 {
            Ok((StatisticKind::SneakTime, 0))
        } else if id == 0x04 {
            Ok((StatisticKind::WealkOneCm, 0))
        } else if id == 0x05 {
            Ok((StatisticKind::CrouchOneCm, 0))
        } else if id == 0x06 {
            Ok((StatisticKind::SprintOneCm, 0))
        } else if id == 0x07 {
            Ok((StatisticKind::SwimOneCm, 0))
        } else if id == 0x08 {
            Ok((StatisticKind::FallOneCm, 0))
        } else if id == 0x09 {
            Ok((StatisticKind::ClimbOneCm, 0))
        } else if id == 0x0A {
            Ok((StatisticKind::FlyOneCm, 0))
        } else if id == 0x0B {
            Ok((StatisticKind::DiveOneCm, 0))
        } else if id == 0x0C {
            Ok((StatisticKind::MinecartOneCm, 0))
        } else if id == 0x0D {
            Ok((StatisticKind::BoatOneCm, 0))
        } else if id == 0x0E {
            Ok((StatisticKind::PigOneCm, 0))
        } else if id == 0x0F {
            Ok((StatisticKind::HorseOneCm, 0))
        } else if id == 0x10 {
            Ok((StatisticKind::AviateOneCm, 0))
        } else if id == 0x11 {
            Ok((StatisticKind::Jumps, 0))
        } else if id == 0x12 {
            Ok((StatisticKind::Drops, 0))
        } else if id == 0x13 {
            Ok((StatisticKind::DamageDealt, 0))
        } else if id == 0x14 {
            Ok((StatisticKind::DamageTaken, 0))
        } else if id == 0x15 {
            Ok((StatisticKind::Deaths, 0))
        } else if id == 0x16 {
            Ok((StatisticKind::MobKills, 0))
        } else if id == 0x17 {
            Ok((StatisticKind::AnimalsBread, 0))
        } else if id == 0x18 {
            Ok((StatisticKind::PlayerKills, 0))
        } else if id == 0x19 {
            Ok((StatisticKind::FishCaught, 0))
        } else if id == 0x1A {
            Ok((StatisticKind::TalkedToVillager, 0))
        } else if id == 0x1B {
            Ok((StatisticKind::TradedWithVillager, 0))
        } else if id == 0x1C {
            Ok((StatisticKind::EatCakeSlice, 0))
        } else if id == 0x1D {
            Ok((StatisticKind::FillCauldron, 0))
        } else if id == 0x1E {
            Ok((StatisticKind::UseCauldron, 0))
        } else if id == 0x1F {
            Ok((StatisticKind::CleanArmor, 0))
        } else if id == 0x20 {
            Ok((StatisticKind::CleanBanner, 0))
        } else if id == 0x21 {
            Ok((StatisticKind::InteractWithBrewingStand, 0))
        } else if id == 0x22 {
            Ok((StatisticKind::InteractWithBeaccon, 0))
        } else if id == 0x23 {
            Ok((StatisticKind::InspectDropper, 0))
        } else if id == 0x24 {
            Ok((StatisticKind::InspectHopper, 0))
        } else if id == 0x25 {
            Ok((StatisticKind::InspectDispenser, 0))
        } else if id == 0x26 {
            Ok((StatisticKind::PlayNoteBlock, 0))
        } else if id == 0x27 {
            Ok((StatisticKind::TuneNoteBlock, 0))
        } else if id == 0x28 {
            Ok((StatisticKind::PotFlower, 0))
        } else if id == 0x29 {
            Ok((StatisticKind::TriggerTrappedChest, 0))
        } else if id == 0x2A {
            Ok((StatisticKind::OpenEnderChest, 0))
        } else if id == 0x2B {
            Ok((StatisticKind::EnchantItem, 0))
        } else if id == 0x2C {
            Ok((StatisticKind::PlayRecord, 0))
        } else if id == 0x2D {
            Ok((StatisticKind::InteractWithFurnace, 0))
        } else if id == 0x2E {
            Ok((StatisticKind::InteractWithCraftingTable, 0))
        } else if id == 0x2F {
            Ok((StatisticKind::OpenChest, 0))
        } else if id == 0x30 {
            Ok((StatisticKind::SleepInBed, 0))
        } else if id == 0x31 {
            Ok((StatisticKind::OpenShulkerBox, 0))
        } else {
            Err(DecodeFailure::CannotUnderstandValue)
        }
    }

    /// Whether `id` stands for a variant.
    pub open spec fn has_id(id: i32) -> bool {
        id == 0x00
            || id == 0x01
            || id == 0x02
            || id == 0x03
            || id == 0x04
            || id == 0x05
            || id == 0x06
            || id == 0x07
            || id == 0x08
            || id == 0x09
            || id == 0x0A
            || id == 0x0B
            || id == 0x0C
            || id == 0x0D
            || id == 0x0E
            || id == 0x0F
            || id == 0x10
            || id == 0x11
            || id == 0x12
            || id == 0x13
            || id == 0x14
            || id == 0x15
            || id == 0x16
            || id == 0x17
            || id == 0x18
            || id == 0x19
            || id == 0x1A
            || id == 0x1B
            || id == 0x1C
            || id == 0x1D
            || id == 0x1E
            || id == 0x1F
            || id == 0x20
            || id == 0x21
            || id == 0x22
            || id == 0x23
            || id == 0x24
            || id == 0x25
            || id == 0x26
            || id == 0x27
            || id == 0x28
            || id == 0x29
            || id == 0x2A
            || id == 0x2B
            || id == 0x2C
            || id == 0x2D
            || id == 0x2E
            || id == 0x2F
            || id == 0x30
            || id == 0x31
    }

    /// Picks the variant for `id` and reads its body from `data`. A number
    /// that stands for no variant is refused, and the error says which.
    pub fn deserialize_with_id<'a>(id: VarInt, data: &'a [u8]) -> (r: DeserializeResult<'a, Self>)
        ensures
            agrees(r, data@, Self::decode_with_id(id.0, data@)),
            !Self::has_id(id.0) ==> (r matches Err(DeserializeErr::CannotUnderstandValue(m))
                && m@ == invalid_int_text("StatisticKind"@, id.0 as int)),
    {
        proof {
            assert(data@.skip(0) =~= data@);
        }
        match id.0 {
            0x00 => Ok(Deserialized { value: StatisticKind::LeaveGame, data }),
            0x01 => Ok(Deserialized { value: StatisticKind::PlayOneMinute, data }),
            0x02 => Ok(Deserialized { value: StatisticKind::TimeSinceDeath, data }),
            0x03 => Ok(Deserialized { value: StatisticKind::SneakTime, data }),
            0x04 => Ok(Deserialized { value: StatisticKind::WealkOneCm, data }),
            0x05 => Ok(Deserialized { value: StatisticKind::CrouchOneCm, data }),
            0x06 => Ok(Deserialized { value: StatisticKind::SprintOneCm, data }),
            0x07 => Ok(Deserialized { value: StatisticKind::SwimOneCm, data }),
            0x08 => Ok(Deserialized { value: StatisticKind::FallOneCm, data }),
            0x09 => Ok(Deserialized { value: StatisticKind::ClimbOneCm, data }),
            0x0A => Ok(Deserialized { value: StatisticKind::FlyOneCm, data }),
            0x0B => Ok(Deserialized { value: StatisticKind::DiveOneCm, data }),
            0x0C => Ok(Deserialized { value: StatisticKind::MinecartOneCm, data }),
            0x0D => Ok(Deserialized { value: StatisticKind::BoatOneCm, data }),
            0x0E => Ok(Deserialized { value: StatisticKind::PigOneCm, data }),
            0x0F => Ok(Deserialized { value: StatisticKind::HorseOneCm, data }),
            0x10 => Ok(Deserialized { value: StatisticKind::AviateOneCm, data }),
            0x11 => Ok(Deserialized { value: StatisticKind::Jumps, data }),
            0x12 => Ok(Deserialized { value: StatisticKind::Drops, data }),
            0x13 => Ok(Deserialized { value: StatisticKind::DamageDealt, data }),
            0x14 => Ok(Deserialized { value: StatisticKind::DamageTaken, data }),
            0x15 => Ok(Deserialized { value: StatisticKind::Deaths, data }),
            0x16 => Ok(Deserialized { value: StatisticKind::MobKills, data }),
            0x17 => Ok(Deserialized { value: StatisticKind::AnimalsBread, data }),
            0x18 => Ok(Deserialized { value: StatisticKind::PlayerKills, data }),
            0x19 => Ok(Deserialized { value: StatisticKind::FishCaught, data }),
            0x1A => Ok(Deserialized { value: StatisticKind::TalkedToVillager, data }),
            0x1B => Ok(Deserialized { value: StatisticKind::TradedWithVillager, data }),
            0x1C => Ok(Deserialized { value: StatisticKind::EatCakeSlice, data }),
            0x1D => Ok(Deserialized { value: StatisticKind::FillCauldron, data }),
            0x1E => Ok(Deserialized { value: StatisticKind::UseCauldron, data }),
            0x1F => Ok(Deserialized { value: StatisticKind::CleanArmor, data }),
            0x20 => Ok(Deserialized { value: StatisticKind::CleanBanner, data }),
            0x21 => Ok(Deserialized { value: StatisticKind::InteractWithBrewingStand, data }),
            0x22 => Ok(Deserialized { value: StatisticKind::InteractWithBeaccon, data }),
            0x23 => Ok(Deserialized { value: StatisticKind::InspectDropper, data }),
            0x24 => Ok(Deserialized { value: StatisticKind::InspectHopper, data }),
            0x25 => Ok(Deserialized { value: StatisticKind::InspectDispenser, data }),
            0x26 => Ok(Deserialized { value: StatisticKind::PlayNoteBlock, data }),
            0x27 => Ok(Deserialized { value: StatisticKind::TuneNoteBlock, data }),
            0x28 => Ok(Deserialized { value: StatisticKind::PotFlower, data }),
            0x29 => Ok(Deserialized { value: StatisticKind::TriggerTrappedChest, data }),
            0x2A => Ok(Deserialized { value: StatisticKind::OpenEnderChest, data }),
            0x2B => Ok(Deserialized { value: StatisticKind::EnchantItem, data }),
            0x2C => Ok(Deserialized { value: StatisticKind::PlayRecord, data }),
            0x2D => Ok(Deserialized { value: StatisticKind::InteractWithFurnace, data }),
            0x2E => Ok(Deserialized { value: StatisticKind::InteractWithCraftingTable, data }),
            0x2F => Ok(Deserialized { value: StatisticKind::OpenChest, data }),
            0x30 => Ok(Deserialized { value: StatisticKind::SleepInBed, data }),
            0x31 => Ok(Deserialized { value: StatisticKind::OpenShulkerBox, data }),
            other => Err(DeserializeErr::CannotUnderstandValue(invalid_int_message("StatisticKind", other))),
        }
    }

    /// Writes what follows the number.
    pub fn serialize_body<S: Serializer>(&self, to: &mut S) -> (r: SerializeResult)
        ensures
            r is Ok ==> Self::body_writable(self.deep_view()) && final(to).written() == old(
                to,
            ).written() + Self::body_of(self.deep_view()),
            old(to).infallible() ==> final(to).infallible(),
            old(to).infallible() ==> (r is Ok <==> Self::body_writable(self.deep_view())),
            old(to).infallible() && r is Err ==> (r matches Err(SerializeErr::CannotSerialize(_))),
    {
        match self {
            StatisticKind::LeaveGame => {
                proof {
                    assert(old(to).written() + Seq::<u8>::empty() =~= old(to).written());
                }
                Ok(())
            },
            StatisticKind::PlayOneMinute => {
                proof {
                    assert(old(to).written() + Seq::<u8>::empty() =~= old(to).written());
                }
                Ok(())
            },
            StatisticKind::TimeSinceDeath => {
                proof {
                    assert(old(to).written() + Seq::<u8>::empty() =~= old(to).written());
                }
                Ok(())
            },
            StatisticKind::SneakTime => {
                proof {
                    assert(old(to).written() + Seq::<u8>::empty() =~= old(to).written());
                }
                Ok(())
            },
            StatisticKind::WealkOneCm => {
                proof {
                    assert(old(to).written() + Seq::<u8>::empty() =~= old(to).written());
                }
                Ok(())
            },
            StatisticKind::CrouchOneCm => {
                proof {
                    assert(old(to).written() + Seq::<u8>::empty() =~= old(to).written());
                }
                Ok(())
            },
            StatisticKind::SprintOneCm => {
                proof {
                    assert(old(to).written() + Seq::<u8>::empty() =~= old(to).written());
                }
                Ok(())
            },
            StatisticKind::SwimOneCm => {
                proof {
                    assert(old(to).written() + Seq::<u8>::empty() =~= old(to).written());
                }
                Ok(())
            },
            StatisticKind::FallOneCm => {
                proof {
                    assert(old(to).written() + Seq::<u8>::empty() =~= old(to).written());
                }
                Ok(())
            },
            StatisticKind::ClimbOneCm => {
                proof {
                    assert(old(to).written() + Seq::<u8>::empty() =~= old(to).written());
                }
                Ok(())
            },
            StatisticKind::FlyOneCm => {
                proof {
                    assert(old(to).written() + Seq::<u8>::empty() =~= old(to).written());
                }
                Ok(())
            },
            StatisticKind::DiveOneCm => {
                proof {
                    assert(old(to).written() + Seq::<u8>::empty() =~= old(to).written());
                }
                Ok(())
            },
            StatisticKind::MinecartOneCm => {
                proof {
                    assert(old(to).written() + Seq::<u8>::empty() =~= old(to).written());
                }
                Ok(())
            },
            StatisticKind::BoatOneCm => {
                proof {
                    assert(old(to).written() + Seq::<u8>::empty() =~= old(to).written());
                }
                Ok(())
            },
            StatisticKind::PigOneCm => {
                proof {
                    assert(old(to).written() + Seq::<u8>::empty() =~= old(to).written());
                }
                Ok(())
            },
            StatisticKind::HorseOneCm => {
                proof {
                    assert(old(to).written() + Seq::<u8>::empty() =~= old(to).written());
                }
                Ok(())
            },
            StatisticKind::AviateOneCm => {
                proof {
                    assert(old(to).written() + Seq::<u8>::empty() =~= old(to).written());
                }
                Ok(())
            },
            StatisticKind::Jumps => {
                proof {
                    assert(old(to).written() + Seq::<u8>::empty() =~= old(to).written());
                }
                Ok(())
            },
            StatisticKind::Drops => {
                proof {
                    assert(old(to).written() + Seq::<u8>::empty() =~= old(to).written());
                }
                Ok(())
            },
            StatisticKind::DamageDealt => {
                proof {
                    assert(old(to).written() + Seq::<u8>::empty() =~= old(to).written());
                }
                Ok(())
            },
            StatisticKind::DamageTaken => {
                proof {
                    assert(old(to).written() + Seq::<u8>::empty() =~= old(to).written());
                }
                Ok(())
            },
            StatisticKind::Deaths => {
                proof {
                    assert(old(to).written() + Seq::<u8>::empty() =~= old(to).written());
                }
                Ok(())
            },
            StatisticKind::MobKills => {
                proof {
                    assert(old(to).written() + Seq::<u8>::empty() =~= old(to).written());
                }
                Ok(())
            },
            StatisticKind::AnimalsBread => {
                proof {
                    assert(old(to).written() + Seq::<u8>::empty() =~= old(to).written());
                }
                Ok(())
            },
            StatisticKind::PlayerKills => {
                proof {
                    assert(old(to).written() + Seq::<u8>::empty() =~= old(to).written());
                }
                Ok(())
            },
            StatisticKind::FishCaught => {
                proof {
                    assert(old(to).written() + Seq::<u8>::empty() =~= old(to).written());
                }
                Ok(())
            },
            StatisticKind::TalkedToVillager => {
                proof {
                    assert(old(to).written() + Seq::<u8>::empty() =~= old(to).written());
                }
                Ok(())
            },
            StatisticKind::TradedWithVillager => {
                proof {
                    assert(old(to).written() + Seq::<u8>::empty() =~= old(to).written());
                }
                Ok(())
            },
            StatisticKind::EatCakeSlice => {
                proof {
                    assert(old(to).written() + Seq::<u8>::empty() =~= old(to).written());
                }
                Ok(())
            },
            StatisticKind::FillCauldron => {
                proof {
                    assert(old(to).written() + Seq::<u8>::empty() =~= old(to).written());
                }
                Ok(())
            },
            StatisticKind::UseCauldron => {
                proof {
                    assert(old(to).written() + Seq::<u8>::empty() =~= old(to).written());
                }
                Ok(())
            },
            StatisticKind::CleanArmor => {
                proof {
                    assert(old(to).written() + Seq::<u8>::empty() =~= old(to).written());
                }
                Ok(())
            },
            StatisticKind::CleanBanner => {
                proof {
                    assert(old(to).written() + Seq::<u8>::empty() =~= old(to).written());
                }
                Ok(())
            },
            StatisticKind::InteractWithBrewingStand => {
                proof {
                    assert(old(to).written() + Seq::<u8>::empty() =~= old(to).written());
                }
                Ok(())
            },
            StatisticKind::InteractWithBeaccon => {
                proof {
                    assert(old(to).written() + Seq::<u8>::empty() =~= old(to).written());
                }
                Ok(())
            },
            StatisticKind::InspectDropper => {
                proof {
                    assert(old(to).written() + Seq::<u8>::empty() =~= old(to).written());
                }
                Ok(())
            },
            StatisticKind::InspectHopper => {
                proof {
                    assert(old(to).written() + Seq::<u8>::empty() =~= old(to).written());
                }
                Ok(())
            },
            StatisticKind::InspectDispenser => {
                proof {
                    assert(old(to).written() + Seq::<u8>::empty() =~= old(to).written());
                }
                Ok(())
            },
            StatisticKind::PlayNoteBlock => {
                proof {
                    assert(old(to).written() + Seq::<u8>::empty() =~= old(to).written());
                }
                Ok(())
            },
            StatisticKind::TuneNoteBlock => {
                proof {
                    assert(old(to).written() + Seq::<u8>::empty() =~= old(to).written());
                }
                Ok(())
            },
            StatisticKind::PotFlower => {
                proof {
                    assert(old(to).written() + Seq::<u8>::empty() =~= old(to).written());
                }
                Ok(())
            },
            StatisticKind::TriggerTrappedChest => {
                proof {
                    assert(old(to).written() + Seq::<u8>::empty() =~= old(to).written());
                }
                Ok(())
            },
            StatisticKind::OpenEnderChest => {
                proof {
                    assert(old(to).written() + Seq::<u8>::empty() =~= old(to).written());
                }
                Ok(())
            },
            StatisticKind::EnchantItem => {
                proof {
                    assert(old(to).written() + Seq::<u8>::empty() =~= old(to).written());
                }
                Ok(())
            },
            StatisticKind::PlayRecord => {
                proof {
                    assert(old(to).written() + Seq::<u8>::empty() =~= old(to).written());
                }
                Ok(())
            },
            StatisticKind::InteractWithFurnace => {
                proof {
                    assert(old(to).written() + Seq::<u8>::empty() =~= old(to).written());
                }
                Ok(())
            },
            StatisticKind::InteractWithCraftingTable => {
                proof {
                    assert(old(to).written() + Seq::<u8>::empty() =~= old(to).written());
                }
                Ok(())
            },
            StatisticKind::OpenChest => {
                proof {
                    assert(old(to).written() + Seq::<u8>::empty() =~= old(to).written());
                }
                Ok(())
            },
            StatisticKind::SleepInBed => {
                proof {
                    assert(old(to).written() + Seq::<u8>::empty() =~= old(to).written());
                }
                Ok(())
            },
            StatisticKind::OpenShulkerBox => {
                proof {
                    assert(old(to).written() + Seq::<u8>::empty() =~= old(to).written());
                }
                Ok(())
            },
        }
    }
}

impl Serialize for StatisticKind {
    open spec fn serializable(v: StatisticKind) -> bool {
        Self::body_writable(v)
    }

    #[verifier::opaque]
    open spec fn encode(v: StatisticKind) -> Seq<u8> {
        <VarInt>::encode(VarInt(Self::id_of(v))) + Self::body_of(v)
    }

    fn mc_serialize<S: Serializer>(&self, to: &mut S) -> (r: SerializeResult) {
        proof {
            reveal(<StatisticKind as Serialize>::encode);
        }
        let id_to_serialize: VarInt = self.id();
        id_to_serialize.mc_serialize(to)?;
        let r = self.serialize_body(to);
        proof {
            let head = <VarInt>::encode(VarInt(Self::id_of(self.deep_view())));
            let body = Self::body_of(self.deep_view());
            lemma_concat_assoc(old(to).written(), head, body);
        }
        r
    }
}

impl Deserialize for StatisticKind {
    #[verifier::opaque]
    open spec fn decode(data: Seq<u8>) -> Decoded<StatisticKind> {
        match <VarInt>::decode(data) {
            Err(e) => Err(e),
            Ok((id, n)) => match Self::decode_with_id(id.0, data.skip(n as int)) {
                Ok((v, m)) => Ok((v, n + m)),
                Err(e) => Err(e),
            },
        }
    }

    fn mc_deserialize(data: &[u8]) -> (r: DeserializeResult<'_, StatisticKind>) {
        proof {
            reveal(<StatisticKind as Deserialize>::decode);
        }
        let Deserialized { value: id, data: rest } = <VarInt>::mc_deserialize(data)?;
        let Deserialized { value, data: after } = Self::deserialize_with_id(id, rest)?;
        proof {
            lemma_skip_skip(data@, data@.len() - rest@.len(), rest@.len() - after@.len());
        }
        Ok(Deserialized { value, data: after })
    }
}

impl ProtocolType for StatisticKind {
    open spec fn faithful(v: StatisticKind) -> bool {
        match v {
            StatisticKind::LeaveGame => true,
            StatisticKind::PlayOneMinute => true,
            StatisticKind::TimeSinceDeath => true,
            StatisticKind::SneakTime => true,
            StatisticKind::WealkOneCm => true,
            StatisticKind::CrouchOneCm => true,
            StatisticKind::SprintOneCm => true,
            StatisticKind::SwimOneCm => true,
            StatisticKind::FallOneCm => true,
            StatisticKind::ClimbOneCm => true,
            StatisticKind::FlyOneCm => true,
            StatisticKind::DiveOneCm => true,
            StatisticKind::MinecartOneCm => true,
            StatisticKind::BoatOneCm => true,
            StatisticKind::PigOneCm => true,
            StatisticKind::HorseOneCm => true,
            StatisticKind::AviateOneCm => true,
            StatisticKind::Jumps => true,
            StatisticKind::Drops => true,
            StatisticKind::DamageDealt => true,
            StatisticKind::DamageTaken => true,
            StatisticKind::Deaths => true,
            StatisticKind::MobKills => true,
            StatisticKind::AnimalsBread => true,
            StatisticKind::PlayerKills => true,
            StatisticKind::FishCaught => true,
            StatisticKind::TalkedToVillager => true,
            StatisticKind::TradedWithVillager => true,
            StatisticKind::EatCakeSlice => true,
            StatisticKind::FillCauldron => true,
            StatisticKind::UseCauldron => true,
            StatisticKind::CleanArmor => true,
            StatisticKind::CleanBanner => true,
            StatisticKind::InteractWithBrewingStand => true,
            StatisticKind::InteractWithBeaccon => true,
            StatisticKind::InspectDropper => true,
            StatisticKind::InspectHopper => true,
            StatisticKind::InspectDispenser => true,
            StatisticKind::PlayNoteBlock => true,
            StatisticKind::TuneNoteBlock => true,
            StatisticKind::PotFlower => true,
            StatisticKind::TriggerTrappedChest => true,
            StatisticKind::OpenEnderChest => true,
            StatisticKind::EnchantItem => true,
            StatisticKind::PlayRecord => true,
            StatisticKind::InteractWithFurnace => true,
            StatisticKind::InteractWithCraftingTable => true,
            StatisticKind::OpenChest => true,
            StatisticKind::SleepInBed => true,
            StatisticKind::OpenShulkerBox => true,
        }
    }

    open spec fn delimited() -> bool {
        true
    }

    proof fn lemma_round_trip(v: StatisticKind, rest: Seq<u8>) {
        reveal(<StatisticKind as Serialize>::encode);
        reveal(<StatisticKind as Deserialize>::decode);
        let head = <VarInt>::encode(VarInt(Self::id_of(v)));
        let body = Self::body_of(v);
        <VarInt>::lemma_round_trip(VarInt(Self::id_of(v)), body + rest);
        Self::lemma_body_round_trip(v, rest);
        lemma_concat_assoc(head, body, rest);
        lemma_skip_concat(head, body + rest);
    }
}

impl StatisticKind {
    /// What follows the number, written out and followed by anything, reads
    /// back under that number.
    pub proof fn lemma_body_round_trip(v: StatisticKind, rest: Seq<u8>)
        requires
            <Self as ProtocolType>::faithful(v),
            <Self as ProtocolType>::delimited() || rest.len() == 0,
        ensures
            Self::body_writable(v),
            Self::decode_with_id(Self::id_of(v), Self::body_of(v) + rest) == Ok::<_, DecodeFailure>(
                (v, Self::body_of(v).len()),
            ),
    {
        match v {
            StatisticKind::LeaveGame => {
                assert(Seq::<u8>::empty() + rest =~= rest);
            },
            StatisticKind::PlayOneMinute => {
                assert(Seq::<u8>::empty() + rest =~= rest);
            },
            StatisticKind::TimeSinceDeath => {
                assert(Seq::<u8>::empty() + rest =~= rest);
            },
            StatisticKind::SneakTime => {
                assert(Seq::<u8>::empty() + rest =~= rest);
            },
            StatisticKind::WealkOneCm => {
                assert(Seq::<u8>::empty() + rest =~= rest);
            },
            StatisticKind::CrouchOneCm => {
                assert(Seq::<u8>::empty() + rest =~= rest);
            },
            StatisticKind::SprintOneCm => {
                assert(Seq::<u8>::empty() + rest =~= rest);
            },
            StatisticKind::SwimOneCm => {
                assert(Seq::<u8>::empty() + rest =~= rest);
            },
            StatisticKind::FallOneCm => {
                assert(Seq::<u8>::empty() + rest =~= rest);
            },
            StatisticKind::ClimbOneCm => {
                assert(Seq::<u8>::empty() + rest =~= rest);
            },
            StatisticKind::FlyOneCm => {
                assert(Seq::<u8>::empty() + rest =~= rest);
            },
            StatisticKind::DiveOneCm => {
                assert(Seq::<u8>::empty() + rest =~= rest);
            },
            StatisticKind::MinecartOneCm => {
                assert(Seq::<u8>::empty() + rest =~= rest);
            },
            StatisticKind::BoatOneCm => {
                assert(Seq::<u8>::empty() + rest =~= rest);
            },
            StatisticKind::PigOneCm => {
                assert(Seq::<u8>::empty() + rest =~= rest);
            },
            StatisticKind::HorseOneCm => {
                assert(Seq::<u8>::empty() + rest =~= rest);
            },
            StatisticKind::AviateOneCm => {
                assert(Seq::<u8>::empty() + rest =~= rest);
            },
            StatisticKind::Jumps => {
                assert(Seq::<u8>::empty() + rest =~= rest);
            },
            StatisticKind::Drops => {
                assert(Seq::<u8>::empty() + rest =~= rest);
            },
            StatisticKind::DamageDealt => {
                assert(Seq::<u8>::empty() + rest =~= rest);
            },
            StatisticKind::DamageTaken => {
                assert(Seq::<u8>::empty() + rest =~= rest);
            },
            StatisticKind::Deaths => {
                assert(Seq::<u8>::empty() + rest =~= rest);
            },
            StatisticKind::MobKills => {
                assert(Seq::<u8>::empty() + rest =~= rest);
            },
            StatisticKind::AnimalsBread => {
                assert(Seq::<u8>::empty() + rest =~= rest);
            },
            StatisticKind::PlayerKills => {
                assert(Seq::<u8>::empty() + rest =~= rest);
            },
            StatisticKind::FishCaught => {
                assert(Seq::<u8>::empty() + rest =~= rest);
            },
            StatisticKind::TalkedToVillager => {
                assert(Seq::<u8>::empty() + rest =~= rest);
            },
            StatisticKind::TradedWithVillager => {
                assert(Seq::<u8>::empty() + rest =~= rest);
            },
            StatisticKind::EatCakeSlice => {
                assert(Seq::<u8>::empty() + rest =~= rest);
            },
            StatisticKind::FillCauldron => {
                assert(Seq::<u8>::empty() + rest =~= rest);
            },
            StatisticKind::UseCauldron => {
                assert(Seq::<u8>::empty() + rest =~= rest);
            },
            StatisticKind::CleanArmor => {
                assert(Seq::<u8>::empty() + rest =~= rest);
            },
            StatisticKind::CleanBanner => {
                assert(Seq::<u8>::empty() + rest =~= rest);
            },
            StatisticKind::InteractWithBrewingStand => {
                assert(Seq::<u8>::empty() + rest =~= rest);
            },
            StatisticKind::InteractWithBeaccon => {
                assert(Seq::<u8>::empty() + rest =~= rest);
            },
            StatisticKind::InspectDropper => {
                assert(Seq::<u8>::empty() + rest =~= rest);
            },
            StatisticKind::InspectHopper => {
                assert(Seq::<u8>::empty() + rest =~= rest);
            },
            StatisticKind::InspectDispenser => {
                assert(Seq::<u8>::empty() + rest =~= rest);
            },
            StatisticKind::PlayNoteBlock => {
                assert(Seq::<u8>::empty() + rest =~= rest);
            },
            StatisticKind::TuneNoteBlock => {
                assert(Seq::<u8>::empty() + rest =~= rest);
            },
            StatisticKind::PotFlower => {
                assert(Seq::<u8>::empty() + rest =~= rest);
            },
            StatisticKind::TriggerTrappedChest => {
                assert(Seq::<u8>::empty() + rest =~= rest);
            },
            StatisticKind::OpenEnderChest => {
                assert(Seq::<u8>::empty() + rest =~= rest);
            },
            StatisticKind::EnchantItem => {
                assert(Seq::<u8>::empty() + rest =~= rest);
            },
            StatisticKind::PlayRecord => {
                assert(Seq::<u8>::empty() + rest =~= rest);
            },
            StatisticKind::InteractWithFurnace => {
                assert(Seq::<u8>::empty() + rest =~= rest);
            },
            StatisticKind::InteractWithCraftingTable => {
                assert(Seq::<u8>::empty() + rest =~= rest);
            },
            StatisticKind::OpenChest => {
                assert(Seq::<u8>::empty() + rest =~= rest);
            },
            StatisticKind::SleepInBed => {
                assert(Seq::<u8>::empty() + rest =~= rest);
            },
            StatisticKind::OpenShulkerBox => {
                assert(Seq::<u8>::empty() + rest =~= rest);
            },
        }
    }
}

/// One statistic and its value.
#[derive(Debug, Clone, PartialEq)]
pub struct Statistic {
    pub kind: StatisticCategory,
    pub value: VarInt,
}

/// The mathematical content of a [`Statistic`].
pub struct StatisticView {
    pub kind: <StatisticCategory as DeepView>::V,
    pub value: VarInt,
}

impl DeepView for Statistic {
    type V = StatisticView;

    open spec fn deep_view(&self) -> StatisticView {
        StatisticView {
            kind: self.kind.deep_view(),
            value: self.value.deep_view(),
        }
    }
}

impl Serialize for Statistic {
    open spec fn serializable(v: StatisticView) -> bool {
        StatisticCategory::serializable(v.kind) && VarInt::serializable(v.value)
    }

    #[verifier::opaque]
    open spec fn encode(v: StatisticView) -> Seq<u8> {
        StatisticCategory::encode(v.kind) + VarInt::encode(v.value)
    }

    fn mc_serialize<S: Serializer>(&self, to: &mut S) -> (r: SerializeResult) {
        proof {
            reveal(<Statistic as Serialize>::encode);
        }
        self.kind.mc_serialize(to)?;
        self.value.mc_serialize(to)?;
        proof {
            assert(to.written() =~= old(to).written() + Self::encode(self.deep_view()));
        }
        Ok(())
    }
}

impl Deserialize for Statistic {
    #[verifier::opaque]
    open spec fn decode(data: Seq<u8>) -> Decoded<StatisticView> {
        match StatisticCategory::decode(data) {
            Err(e) => Err(e),
            Ok((kind, n0)) => {
                match VarInt::decode(data.skip((n0) as int)) {
                    Err(e) => Err(e),
                    Ok((value, n1)) => Ok((StatisticView { kind, value }, n0 + n1)),
                }
            },
        }
    }

    fn mc_deserialize(data: &[u8]) -> (r: DeserializeResult<'_, Statistic>) {
        proof {
            reveal(<Statistic as Deserialize>::decode);
        }
        let ghost whole = data@;
        let Deserialized { value: kind, data: rest0 } = StatisticCategory::mc_deserialize(data)?;
        let Deserialized { value: value, data: rest1 } = VarInt::mc_deserialize(rest0)?;
        proof {
            lemma_skip_skip(
                whole,
                whole.len() - rest0@.len(),
                rest0@.len() - rest1@.len(),
            );
        }
        Ok(Deserialized { value: Statistic { kind, value }, data: rest1 })
    }
}

impl ProtocolType for Statistic {
    open spec fn faithful(v: StatisticView) -> bool {
        StatisticCategory::faithful(v.kind) && VarInt::faithful(v.value)
    }

    open spec fn delimited() -> bool {
        VarInt::delimited()
    }

    proof fn lemma_round_trip(v: StatisticView, rest: Seq<u8>) {
        reveal(<Statistic as Serialize>::encode);
        reveal(<Statistic as Deserialize>::decode);
        let e0 = StatisticCategory::encode(v.kind);
        let e1 = VarInt::encode(v.value);
        let data = Self::encode(v) + rest;
        let t2 = rest;
        let t1 = e1 + t2;
        let t0 = e0 + t1;
        let l0 = e0;
        let l1 = l0 + e1;
        lemma_concat_assoc(l0, e1, t2);
        assert(data == t0);
        StatisticCategory::lemma_round_trip(v.kind, t1);
        lemma_skip_concat(e0, t1);
        VarInt::lemma_round_trip(v.value, t2);
        lemma_skip_more(data, (e0.len()) as int, e1, t2);
    }
}

/// How far a player has come with digging a block.
#[derive(PartialEq, Eq, Structural, Clone, Copy, Debug)]
pub enum DiggingStatus {
    Started,
    Cancelled,
    Finished,
}

impl View for DiggingStatus {
    type V = DiggingStatus;

    open spec fn view(&self) -> DiggingStatus {
        *self
    }
}

impl DeepView for DiggingStatus {
    type V = DiggingStatus;

    open spec fn deep_view(&self) -> DiggingStatus {
        *self
    }
}

impl DiggingStatus {
    pub fn variant_count() -> (r: usize)
        ensures
            r == 3,
    {
        3
    }

    /// The number that stands for the variant on the wire.
    pub open spec fn id_of(v: DiggingStatus) -> u8 {
        match v {
            DiggingStatus::Started => 0x00,
            DiggingStatus::Cancelled => 0x01,
            DiggingStatus::Finished => 0x02,
        }
    }

    pub fn id(&self) -> (r: u8)
        ensures
            r == Self::id_of(self.deep_view()),
    {
        match self {
            DiggingStatus::Started => 0x00,
            DiggingStatus::Cancelled => 0x01,
            DiggingStatus::Finished => 0x02,
        }
    }

    pub open spec fn name_of(v: DiggingStatus) -> Seq<char> {
        match v {
            DiggingStatus::Started => "Started"@,
            DiggingStatus::Cancelled => "Cancelled"@,
            DiggingStatus::Finished => "Finished"@,
        }
    }

    pub fn name(&self) -> (r: &'static str)
        ensures
            r@ == Self::name_of(self.deep_view()),
    {
        match self {
            DiggingStatus::Started => "Started",
            DiggingStatus::Cancelled => "Cancelled",
            DiggingStatus::Finished => "Finished",
        }
    }

    /// The bytes that follow the number.
    pub open spec fn body_of(v: DiggingStatus) -> Seq<u8> {
        match v {
            DiggingStatus::Started => Seq::empty(),
            DiggingStatus::Cancelled => Seq::empty(),
            DiggingStatus::Finished => Seq::empty(),
        }
    }

    /// Whether what follows the number can be written.
    pub open spec fn body_writable(v: DiggingStatus) -> bool {
        match v {
            DiggingStatus::Started => true,
            DiggingStatus::Cancelled => true,
            DiggingStatus::Finished => true,
        }
    }

    /// The variant that `id` stands for, with its body read from `data`.
    pub open spec fn decode_with_id(id: u8, data: Seq<u8>) -> Decoded<DiggingStatus> {
        if id == 0x00 {
            Ok((DiggingStatus::Started, 0))
        } else if id == 0x01 {
            Ok((DiggingStatus::Cancelled, 0))
        } else if id == 0x02 {
            Ok((DiggingStatus::Finished, 0))
        } else {
            Err(DecodeFailure::CannotUnderstandValue)
        }
    }

    /// Whether `id` stands for a variant.
    pub open spec fn has_id(id: u8) -> bool {
        id == 0x00
            || id == 0x01
            || id == 0x02
    }

    /// Picks the variant for `id` and reads its body from `data`. A number
    /// that stands for no variant is refused, and the error says which.
    pub fn deserialize_with_id<'a>(id: u8, data: &'a [u8]) -> (r: DeserializeResult<'a, Self>)
        ensures
            agrees(r, data@, Self::decode_with_id(id, data@)),
            !Self::has_id(id) ==> (r matches Err(DeserializeErr::CannotUnderstandValue(m))
                && m@ == invalid_message("DiggingStatus"@, id as nat)),
    {
        proof {
            assert(data@.skip(0) =~= data@);
        }
        match id {
            0x00 => Ok(Deserialized { value: DiggingStatus::Started, data }),
            0x01 => Ok(Deserialized { value: DiggingStatus::Cancelled, data }),
            0x02 => Ok(Deserialized { value: DiggingStatus::Finished, data }),
            other => Err(DeserializeErr::CannotUnderstandValue(invalid_value_message("DiggingStatus", other as u64))),
        }
    }

    /// Writes what follows the number.
    pub fn serialize_body<S: Serializer>(&self, to: &mut S) -> (r: SerializeResult)
        ensures
            r is Ok ==> Self::body_writable(self.deep_view()) && final(to).written() == old(
                to,
            ).written() + Self::body_of(self.deep_view()),
            old(to).infallible() ==> final(to).infallible(),
            old(to).infallible() ==> (r is Ok <==> Self::body_writable(self.deep_view())),
            old(to).infallible() && r is Err ==> (r matches Err(SerializeErr::CannotSerialize(_))),
    {
        match self {
            DiggingStatus::Started => {
                proof {
                    assert(old(to).written() + Seq::<u8>::empty() =~= old(to).written());
                }
                Ok(())
            },
            DiggingStatus::Cancelled => {
                proof {
                    assert(old(to).written() + Seq::<u8>::empty() =~= old(to).written());
                }
                Ok(())
            },
            DiggingStatus::Finished => {
                proof {
                    assert(old(to).written() + Seq::<u8>::empty() =~= old(to).written());
                }
                Ok(())
            },
        }
    }
}

impl Serialize for DiggingStatus {
    open spec fn serializable(v: DiggingStatus) -> bool {
        Self::body_writable(v)
    }

    #[verifier::opaque]
    open spec fn encode(v: DiggingStatus) -> Seq<u8> {
        <u8>::encode(Self::id_of(v)) + Self::body_of(v)
    }

    fn mc_serialize<S: Serializer>(&self, to: &mut S) -> (r: SerializeResult) {
        proof {
            reveal(<DiggingStatus as Serialize>::encode);
        }
        let id_to_serialize: u8 = self.id();
        id_to_serialize.mc_serialize(to)?;
        let r = self.serialize_body(to);
        proof {
            let head = <u8>::encode(Self::id_of(self.deep_view()));
            let body = Self::body_of(self.deep_view());
            lemma_concat_assoc(old(to).written(), head, body);
        }
        r
    }
}

impl Deserialize for DiggingStatus {
    #[verifier::opaque]
    open spec fn decode(data: Seq<u8>) -> Decoded<DiggingStatus> {
        match <u8>::decode(data) {
            Err(e) => Err(e),
            Ok((id, n)) => match Self::decode_with_id(id, data.skip(n as int)) {
                Ok((v, m)) => Ok((v, n + m)),
                Err(e) => Err(e),
            },
        }
    }

    fn mc_deserialize(data: &[u8]) -> (r: DeserializeResult<'_, DiggingStatus>) {
        proof {
            reveal(<DiggingStatus as Deserialize>::decode);
        }
        let Deserialized { value: id, data: rest } = <u8>::mc_deserialize(data)?;
        let Deserialized { value, data: after } = Self::deserialize_with_id(id, rest)?;
        proof {
            lemma_skip_skip(data@, data@.len() - rest@.len(), rest@.len() - after@.len());
        }
        Ok(Deserialized { value, data: after })
    }
}

impl ProtocolType for DiggingStatus {
    open spec fn faithful(v: DiggingStatus) -> bool {
        match v {
            DiggingStatus::Started => true,
            DiggingStatus::Cancelled => true,
            DiggingStatus::Finished => true,
        }
    }

    open spec fn delimited() -> bool {
        true
    }

    proof fn lemma_round_trip(v: DiggingStatus, rest: Seq<u8>) {
        reveal(<DiggingStatus as Serialize>::encode);
        reveal(<DiggingStatus as Deserialize>::decode);
        let head = <u8>::encode(Self::id_of(v));
        let body = Self::body_of(v);
        <u8>::lemma_round_trip(Self::id_of(v), body + rest);
        Self::lemma_body_round_trip(v, rest);
        lemma_concat_assoc(head, body, rest);
        lemma_skip_concat(head, body + rest);
    }
}

impl DiggingStatus {
    /// What follows the number, written out and followed by anything, reads
    /// back under that number.
    pub proof fn lemma_body_round_trip(v: DiggingStatus, rest: Seq<u8>)
        requires
            <Self as ProtocolType>::faithful(v),
            <Self as ProtocolType>::delimited() || rest.len() == 0,
        ensures
            Self::body_writable(v),
            Self::decode_with_id(Self::id_of(v), Self::body_of(v) + rest) == Ok::<_, DecodeFailure>(
                (v, Self::body_of(v).len()),
            ),
    {
        match v {
            DiggingStatus::Started => {
                assert(Seq::<u8>::empty() + rest =~= rest);
            },
            DiggingStatus::Cancelled => {
                assert(Seq::<u8>::empty() + rest =~= rest);
            },
            DiggingStatus::Finished => {
                assert(Seq::<u8>::empty() + rest =~= rest);
            },
        }
    }
}

/// What the data of a block entity is meant for.
#[derive(PartialEq, Eq, Structural, Clone, Copy, Debug)]
pub enum BlockEntityDataAction {
    SetMobSpawnerData,
    SetCommandBlockText,
    SetBeaconLevelAndPower,
    SetMobHeadRotationAndSkin,
    DeclareConduit,
    SetBannerColorAndPatterns,
    SetStructureTileEntityData,
    SetEndGatewayDestination,
    SetSignText,
    DeclareBed,
    SetJigsawBlockData,
    SetCampfireItems,
    BeehiveInformation,
}

impl View for BlockEntityDataAction {
    type V = BlockEntityDataAction;

    open spec fn view(&self) -> BlockEntityDataAction {
        *self
    }
}

impl DeepView for BlockEntityDataAction {
    type V = BlockEntityDataAction;

    open spec fn deep_view(&self) -> BlockEntityDataAction {
        *self
    }
}

impl BlockEntityDataAction {
    pub fn variant_count() -> (r: usize)
        ensures
            r == 13,
    {
        13
    }

    /// The number that stands for the variant on the wire.
    pub open spec fn id_of(v: BlockEntityDataAction) -> u8 {
        match v {
            BlockEntityDataAction::SetMobSpawnerData => 0x01,
            BlockEntityDataAction::SetCommandBlockText => 0x02,
            BlockEntityDataAction::SetBeaconLevelAndPower => 0x03,
            BlockEntityDataAction::SetMobHeadRotationAndSkin => 0x04,
            BlockEntityDataAction::DeclareConduit => 0x05,
            BlockEntityDataAction::SetBannerColorAndPatterns => 0x06,
            BlockEntityDataAction::SetStructureTileEntityData => 0x07,
            BlockEntityDataAction::SetEndGatewayDestination => 0x08,
            BlockEntityDataAction::SetSignText => 0x09,
            BlockEntityDataAction::DeclareBed => 0x0B,
            BlockEntityDataAction::SetJigsawBlockData => 0x0C,
            BlockEntityDataAction::SetCampfireItems => 0x0D,
            BlockEntityDataAction::BeehiveInformation => 0x0E,
        }
    }

    pub fn id(&self) -> (r: u8)
        ensures
            r == Self::id_of(self.deep_view()),
    {
        match self {
            BlockEntityDataAction::SetMobSpawnerData => 0x01,
            BlockEntityDataAction::SetCommandBlockText => 0x02,
            BlockEntityDataAction::SetBeaconLevelAndPower => 0x03,
            BlockEntityDataAction::SetMobHeadRotationAndSkin => 0x04,
            BlockEntityDataAction::DeclareConduit => 0x05,
            BlockEntityDataAction::SetBannerColorAndPatterns => 0x06,
            BlockEntityDataAction::SetStructureTileEntityData => 0x07,
            BlockEntityDataAction::SetEndGatewayDestination => 0x08,
            BlockEntityDataAction::SetSignText => 0x09,
            BlockEntityDataAction::DeclareBed => 0x0B,
            BlockEntityDataAction::SetJigsawBlockData => 0x0C,
            BlockEntityDataAction::SetCampfireItems => 0x0D,
            BlockEntityDataAction::BeehiveInformation => 0x0E,
        }
    }

    pub open spec fn name_of(v: BlockEntityDataAction) -> Seq<char> {
        match v {
            BlockEntityDataAction::SetMobSpawnerData => "SetMobSpawnerData"@,
            BlockEntityDataAction::SetCommandBlockText => "SetCommandBlockText"@,
            BlockEntityDataAction::SetBeaconLevelAndPower => "SetBeaconLevelAndPower"@,
            BlockEntityDataAction::SetMobHeadRotationAndSkin => "SetMobHeadRotationAndSkin"@,
            BlockEntityDataAction::DeclareConduit => "DeclareConduit"@,
            BlockEntityDataAction::SetBannerColorAndPatterns => "SetBannerColorAndPatterns"@,
            BlockEntityDataAction::SetStructureTileEntityData => "SetStructureTileEntityData"@,
            BlockEntityDataAction::SetEndGatewayDestination => "SetEndGatewayDestination"@,
            BlockEntityDataAction::SetSignText => "SetSignText"@,
            BlockEntityDataAction::DeclareBed => "DeclareBed"@,
            BlockEntityDataAction::SetJigsawBlockData => "SetJigsawBlockData"@,
            BlockEntityDataAction::SetCampfireItems => "SetCampfireItems"@,
            BlockEntityDataAction::BeehiveInformation => "BeehiveInformation"@,
        }
    }

    pub fn name(&self) -> (r: &'static str)
        ensures
            r@ == Self::name_of(self.deep_view()),
    {
        match self {
            BlockEntityDataAction::SetMobSpawnerData => "SetMobSpawnerData",
            BlockEntityDataAction::SetCommandBlockText => "SetCommandBlockText",
            BlockEntityDataAction::SetBeaconLevelAndPower => "SetBeaconLevelAndPower",
            BlockEntityDataAction::SetMobHeadRotationAndSkin => "SetMobHeadRotationAndSkin",
            BlockEntityDataAction::DeclareConduit => "DeclareConduit",
            BlockEntityDataAction::SetBannerColorAndPatterns => "SetBannerColorAndPatterns",
            BlockEntityDataAction::SetStructureTileEntityData => "SetStructureTileEntityData",
            BlockEntityDataAction::SetEndGatewayDestination => "SetEndGatewayDestination",
            BlockEntityDataAction::SetSignText => "SetSignText",
            BlockEntityDataAction::DeclareBed => "DeclareBed",
            BlockEntityDataAction::SetJigsawBlockData => "SetJigsawBlockData",
            BlockEntityDataAction::SetCampfireItems => "SetCampfireItems",
            BlockEntityDataAction::BeehiveInformation => "BeehiveInformation",
        }
    }

    /// The bytes that follow the number.
    pub open spec fn body_of(v: BlockEntityDataAction) -> Seq<u8> {
        match v {
            BlockEntityDataAction::SetMobSpawnerData => Seq::empty(),
            BlockEntityDataAction::SetCommandBlockText => Seq::empty(),
            BlockEntityDataAction::SetBeaconLevelAndPower => Seq::empty(),
            BlockEntityDataAction::SetMobHeadRotationAndSkin => Seq::empty(),
            BlockEntityDataAction::DeclareConduit => Seq::empty(),
            BlockEntityDataAction::SetBannerColorAndPatterns => Seq::empty(),
            BlockEntityDataAction::SetStructureTileEntityData => Seq::empty(),
            BlockEntityDataAction::SetEndGatewayDestination => Seq::empty(),
            BlockEntityDataAction::SetSignText => Seq::empty(),
            BlockEntityDataAction::DeclareBed => Seq::empty(),
            BlockEntityDataAction::SetJigsawBlockData => Seq::empty(),
            BlockEntityDataAction::SetCampfireItems => Seq::empty(),
            BlockEntityDataAction::BeehiveInformation => Seq::empty(),
        }
    }

    /// Whether what follows the number can be written.
    pub open spec fn body_writable(v: BlockEntityDataAction) -> bool {
        match v {
            BlockEntityDataAction::SetMobSpawnerData => true,
            BlockEntityDataAction::SetCommandBlockText => true,
            BlockEntityDataAction::SetBeaconLevelAndPower => true,
            BlockEntityDataAction::SetMobHeadRotationAndSkin => true,
            BlockEntityDataAction::DeclareConduit => true,
            BlockEntityDataAction::SetBannerColorAndPatterns => true,
            BlockEntityDataAction::SetStructureTileEntityData => true,
            BlockEntityDataAction::SetEndGatewayDestination => true,
            BlockEntityDataAction::SetSignText => true,
            BlockEntityDataAction::DeclareBed => true,
            BlockEntityDataAction::SetJigsawBlockData => true,
            BlockEntityDataAction::SetCampfireItems => true,
            BlockEntityDataAction::BeehiveInformation => true,
        }
    }

    /// The variant that `id` stands for, with its body read from `data`.
    pub open spec fn decode_with_id(id: u8, data: Seq<u8>) -> Decoded<BlockEntityDataAction> {
        if id == 0x01 {
            Ok((BlockEntityDataAction::SetMobSpawnerData, 0))
        } else if id == 0x02 {
            Ok((BlockEntityDataAction::SetCommandBlockText, 0))
        } else if id == 0x03 {
            Ok((BlockEntityDataAction::SetBeaconLevelAndPower, 0))
        } else if id == 0x04 {
            Ok((BlockEntityDataAction::SetMobHeadRotationAndSkin, 0))
        } else if id == 0x05 {
            Ok((BlockEntityDataAction::DeclareConduit, 0))
        } else if id == 0x06 {
            Ok((BlockEntityDataAction::SetBannerColorAndPatterns, 0))
        } else if id == 0x07 {
            Ok((BlockEntityDataAction::SetStructureTileEntityData, 0))
        } else if id == 0x08 {
            Ok((BlockEntityDataAction::SetEndGatewayDestination, 0))
        } else if id == 0x09 {
            Ok((BlockEntityDataAction::SetSignText, 0))
        } else if id == 0x0B {
            Ok((BlockEntityDataAction::DeclareBed, 0))
        } else if id == 0x0C {
            Ok((BlockEntityDataAction::SetJigsawBlockData, 0))
        } else if id == 0x0D {
            Ok((BlockEntityDataAction::SetCampfireItems, 0))
        } else if id == 0x0E {
            Ok((BlockEntityDataAction::BeehiveInformation, 0))
        } else {
            Err(DecodeFailure::CannotUnderstandValue)
        }
    }

    /// Whether `id` stands for a variant.
    pub open spec fn has_id(id: u8) -> bool {
        id == 0x01
            || id == 0x02
            || id == 0x03
            || id == 0x04
            || id == 0x05
            || id == 0x06
            || id == 0x07
            || id == 0x08
            || id == 0x09
            || id == 0x0B
            || id == 0x0C
            || id == 0x0D
            || id == 0x0E
    }

    /// Picks the variant for `id` and reads its body from `data`. A number
    /// that stands for no variant is refused, and the error says which.
    pub fn deserialize_with_id<'a>(id: u8, data: &'a [u8]) -> (r: DeserializeResult<'a, Self>)
        ensures
            agrees(r, data@, Self::decode_with_id(id, data@)),
            !Self::has_id(id) ==> (r matches Err(DeserializeErr::CannotUnderstandValue(m))
                && m@ == invalid_message("BlockEntityDataAction"@, id as nat)),
    {
        proof {
            assert(data@.skip(0) =~= data@);
        }
        match id {
            0x01 => Ok(Deserialized { value: BlockEntityDataAction::SetMobSpawnerData, data }),
            0x02 => Ok(Deserialized { value: BlockEntityDataAction::SetCommandBlockText, data }),
            0x03 => Ok(Deserialized { value: BlockEntityDataAction::SetBeaconLevelAndPower, data }),
            0x04 => Ok(Deserialized { value: BlockEntityDataAction::SetMobHeadRotationAndSkin, data }),
            0x05 => Ok(Deserialized { value: BlockEntityDataAction::DeclareConduit, data }),
            0x06 => Ok(Deserialized { value: BlockEntityDataAction::SetBannerColorAndPatterns, data }),
            0x07 => Ok(Deserialized { value: BlockEntityDataAction::SetStructureTileEntityData, data }),
            0x08 => Ok(Deserialized { value: BlockEntityDataAction::SetEndGatewayDestination, data }),
            0x09 => Ok(Deserialized { value: BlockEntityDataAction::SetSignText, data }),
            0x0B => Ok(Deserialized { value: BlockEntityDataAction::DeclareBed, data }),
            0x0C => Ok(Deserialized { value: BlockEntityDataAction::SetJigsawBlockData, data }),
            0x0D => Ok(Deserialized { value: BlockEntityDataAction::SetCampfireItems, data }),
            0x0E => Ok(Deserialized { value: BlockEntityDataAction::BeehiveInformation, data }),
            other => Err(DeserializeErr::CannotUnderstandValue(invalid_value_message("BlockEntityDataAction", other as u64))),
        }
    }

    /// Writes what follows the number.
    pub fn serialize_body<S: Serializer>(&self, to: &mut S) -> (r: SerializeResult)
        ensures
            r is Ok ==> Self::body_writable(self.deep_view()) && final(to).written() == old(
                to,
            ).written() + Self::body_of(self.deep_view()),
            old(to).infallible() ==> final(to).infallible(),
            old(to).infallible() ==> (r is Ok <==> Self::body_writable(self.deep_view())),
            old(to).infallible() && r is Err ==> (r matches Err(SerializeErr::CannotSerialize(_))),
    {
        match self {
            BlockEntityDataAction::SetMobSpawnerData => {
                proof {
                    assert(old(to).written() + Seq::<u8>::empty() =~= old(to).written());
                }
                Ok(())
            },
            BlockEntityDataAction::SetCommandBlockText => {
                proof {
                    assert(old(to).written() + Seq::<u8>::empty() =~= old(to).written());
                }
                Ok(())
            },
            BlockEntityDataAction::SetBeaconLevelAndPower => {
                proof {
                    assert(old(to).written() + Seq::<u8>::empty() =~= old(to).written());
                }
                Ok(())
            },
            BlockEntityDataAction::SetMobHeadRotationAndSkin => {
                proof {
                    assert(old(to).written() + Seq::<u8>::empty() =~= old(to).written());
                }
                Ok(())
            },
            BlockEntityDataAction::DeclareConduit => {
                proof {
                    assert(old(to).written() + Seq::<u8>::empty() =~= old(to).written());
                }
                Ok(())
            },
            BlockEntityDataAction::SetBannerColorAndPatterns => {
                proof {
                    assert(old(to).written() + Seq::<u8>::empty() =~= old(to).written());
                }
                Ok(())
            },
            BlockEntityDataAction::SetStructureTileEntityData => {
                proof {
                    assert(old(to).written() + Seq::<u8>::empty() =~= old(to).written());
                }
                Ok(())
            },
            BlockEntityDataAction::SetEndGatewayDestination => {
                proof {
                    assert(old(to).written() + Seq::<u8>::empty() =~= old(to).written());
                }
                Ok(())
            },
            BlockEntityDataAction::SetSignText => {
                proof {
                    assert(old(to).written() + Seq::<u8>::empty() =~= old(to).written());
                }
                Ok(())
            },
            BlockEntityDataAction::DeclareBed => {
                proof {
                    assert(old(to).written() + Seq::<u8>::empty() =~= old(to).written());
                }
                Ok(())
            },
            BlockEntityDataAction::SetJigsawBlockData => {
                proof {
                    assert(old(to).written() + Seq::<u8>::empty() =~= old(to).written());
                }
                Ok(())
            },
            BlockEntityDataAction::SetCampfireItems => {
                proof {
                    assert(old(to).written() + Seq::<u8>::empty() =~= old(to).written());
                }
                Ok(())
            },
            BlockEntityDataAction::BeehiveInformation => {
                proof {
                    assert(old(to).written() + Seq::<u8>::empty() =~= old(to).written());
                }
                Ok(())
            },
        }
    }
}

impl Serialize for BlockEntityDataAction {
    open spec fn serializable(v: BlockEntityDataAction) -> bool {
        Self::body_writable(v)
    }

    #[verifier::opaque]
    open spec fn encode(v: BlockEntityDataAction) -> Seq<u8> {
        <u8>::encode(Self::id_of(v)) + Self::body_of(v)
    }

    fn mc_serialize<S: Serializer>(&self, to: &mut S) -> (r: SerializeResult) {
        proof {
            reveal(<BlockEntityDataAction as Serialize>::encode);
        }
        let id_to_serialize: u8 = self.id();
        id_to_serialize.mc_serialize(to)?;
        let r = self.serialize_body(to);
        proof {
            let head = <u8>::encode(Self::id_of(self.deep_view()));
            let body = Self::body_of(self.deep_view());
            lemma_concat_assoc(old(to).written(), head, body);
        }
        r
    }
}

impl Deserialize for BlockEntityDataAction {
    #[verifier::opaque]
    open spec fn decode(data: Seq<u8>) -> Decoded<BlockEntityDataAction> {
        match <u8>::decode(data) {
            Err(e) => Err(e),
            Ok((id, n)) => match Self::decode_with_id(id, data.skip(n as int)) {
                Ok((v, m)) => Ok((v, n + m)),
                Err(e) => Err(e),
            },
        }
    }

    fn mc_deserialize(data: &[u8]) -> (r: DeserializeResult<'_, BlockEntityDataAction>) {
        proof {
            reveal(<BlockEntityDataAction as Deserialize>::decode);
        }
        let Deserialized { value: id, data: rest } = <u8>::mc_deserialize(data)?;
        let Deserialized { value, data: after } = Self::deserialize_with_id(id, rest)?;
        proof {
            lemma_skip_skip(data@, data@.len() - rest@.len(), rest@.len() - after@.len());
        }
        Ok(Deserialized { value, data: after })
    }
}

impl ProtocolType for BlockEntityDataAction {
    open spec fn faithful(v: BlockEntityDataAction) -> bool {
        match v {
            BlockEntityDataAction::SetMobSpawnerData => true,
            BlockEntityDataAction::SetCommandBlockText => true,
            BlockEntityDataAction::SetBeaconLevelAndPower => true,
            BlockEntityDataAction::SetMobHeadRotationAndSkin => true,
            BlockEntityDataAction::DeclareConduit => true,
            BlockEntityDataAction::SetBannerColorAndPatterns => true,
            BlockEntityDataAction::SetStructureTileEntityData => true,
            BlockEntityDataAction::SetEndGatewayDestination => true,
            BlockEntityDataAction::SetSignText => true,
            BlockEntityDataAction::DeclareBed => true,
            BlockEntityDataAction::SetJigsawBlockData => true,
            BlockEntityDataAction::SetCampfireItems => true,
            BlockEntityDataAction::BeehiveInformation => true,
        }
    }

    open spec fn delimited() -> bool {
        true
    }

    proof fn lemma_round_trip(v: BlockEntityDataAction, rest: Seq<u8>) {
        reveal(<BlockEntityDataAction as Serialize>::encode);
        reveal(<BlockEntityDataAction as Deserialize>::decode);
        let head = <u8>::encode(Self::id_of(v));
        let body = Self::body_of(v);
        <u8>::lemma_round_trip(Self::id_of(v), body + rest);
        Self::lemma_body_round_trip(v, rest);
        lemma_concat_assoc(head, body, rest);
        lemma_skip_concat(head, body + rest);
    }
}

impl BlockEntityDataAction {
    /// What follows the number, written out and followed by anything, reads
    /// back under that number.
    pub proof fn lemma_body_round_trip(v: BlockEntityDataAction, rest: Seq<u8>)
        requires
            <Self as ProtocolType>::faithful(v),
            <Self as ProtocolType>::delimited() || rest.len() == 0,
        ensures
            Self::body_writable(v),
            Self::decode_with_id(Self::id_of(v), Self::body_of(v) + rest) == Ok::<_, DecodeFailure>(
                (v, Self::body_of(v).len()),
            ),
    {
        match v {
            BlockEntityDataAction::SetMobSpawnerData => {
                assert(Seq::<u8>::empty() + rest =~= rest);
            },
            BlockEntityDataAction::SetCommandBlockText => {
                assert(Seq::<u8>::empty() + rest =~= rest);
            },
            BlockEntityDataAction::SetBeaconLevelAndPower => {
                assert(Seq::<u8>::empty() + rest =~= rest);
            },
            BlockEntityDataAction::SetMobHeadRotationAndSkin => {
                assert(Seq::<u8>::empty() + rest =~= rest);
            },
            BlockEntityDataAction::DeclareConduit => {
                assert(Seq::<u8>::empty() + rest =~= rest);
            },
            BlockEntityDataAction::SetBannerColorAndPatterns => {
                assert(Seq::<u8>::empty() + rest =~= rest);
            },
            BlockEntityDataAction::SetStructureTileEntityData => {
                assert(Seq::<u8>::empty() + rest =~= rest);
            },
            BlockEntityDataAction::SetEndGatewayDestination => {
                assert(Seq::<u8>::empty() + rest =~= rest);
            },
            BlockEntityDataAction::SetSignText => {
                assert(Seq::<u8>::empty() + rest =~= rest);
            },
            BlockEntityDataAction::DeclareBed => {
                assert(Seq::<u8>::empty() + rest =~= rest);
            },
            BlockEntityDataAction::SetJigsawBlockData => {
                assert(Seq::<u8>::empty() + rest =~= rest);
            },
            BlockEntityDataAction::SetCampfireItems => {
                assert(Seq::<u8>::empty() + rest =~= rest);
            },
            BlockEntityDataAction::BeehiveInformation => {
                assert(Seq::<u8>::empty() + rest =~= rest);
            },
        }
    }
}

/// How hard the game is.
#[derive(PartialEq, Eq, Structural, Clone, Copy, Debug)]
pub enum Difficulty {
    Peaceful,
    Easy,
    Normal,
    Hard,
}

impl View for Difficulty {
    type V = Difficulty;

    open spec fn view(&self) -> Difficulty {
        *self
    }
}

impl DeepView for Difficulty {
    type V = Difficulty;

    open spec fn deep_view(&self) -> Difficulty {
        *self
    }
}

impl Difficulty {
    pub fn variant_count() -> (r: usize)
        ensures
            r == 4,
    {
        4
    }

    /// The number that stands for the variant on the wire.
    pub open spec fn id_of(v: Difficulty) -> u8 {
        match v {
            Difficulty::Peaceful => 0x00,
            Difficulty::Easy => 0x01,
            Difficulty::Normal => 0x02,
            Difficulty::Hard => 0x03,
        }
    }

    pub fn id(&self) -> (r: u8)
        ensures
            r == Self::id_of(self.deep_view()),
    {
        match self {
            Difficulty::Peaceful => 0x00,
            Difficulty::Easy => 0x01,
            Difficulty::Normal => 0x02,
            Difficulty::Hard => 0x03,
        }
    }

    pub open spec fn name_of(v: Difficulty) -> Seq<char> {
        match v {
            Difficulty::Peaceful => "Peaceful"@,
            Difficulty::Easy => "Easy"@,
            Difficulty::Normal => "Normal"@,
            Difficulty::Hard => "Hard"@,
        }
    }

    pub fn name(&self) -> (r: &'static str)
        ensures
            r@ == Self::name_of(self.deep_view()),
    {
        match self {
            Difficulty::Peaceful => "Peaceful",
            Difficulty::Easy => "Easy",
            Difficulty::Normal => "Normal",
            Difficulty::Hard => "Hard",
        }
    }

    /// The bytes that follow the number.
    pub open spec fn body_of(v: Difficulty) -> Seq<u8> {
        match v {
            Difficulty::Peaceful => Seq::empty(),
            Difficulty::Easy => Seq::empty(),
            Difficulty::Normal => Seq::empty(),
            Difficulty::Hard => Seq::empty(),
        }
    }

    /// Whether what follows the number can be written.
    pub open spec fn body_writable(v: Difficulty) -> bool {
        match v {
            Difficulty::Peaceful => true,
            Difficulty::Easy => true,
            Difficulty::Normal => true,
            Difficulty::Hard => true,
        }
    }

    /// The variant that `id` stands for, with its body read from `data`.
    pub open spec fn decode_with_id(id: u8, data: Seq<u8>) -> Decoded<Difficulty> {
        if id == 0x00 {
            Ok((Difficulty::Peaceful, 0))
        } else if id == 0x01 {
            Ok((Difficulty::Easy, 0))
        } else if id == 0x02 {
            Ok((Difficulty::Normal, 0))
        } else if id == 0x03 {
            Ok((Difficulty::Hard, 0))
        } else {
            Err(DecodeFailure::CannotUnderstandValue)
        }
    }

    /// Whether `id` stands for a variant.
    pub open spec fn has_id(id: u8) -> bool {
        id == 0x00
            || id == 0x01
            || id == 0x02
            || id == 0x03
    }

    /// Picks the variant for `id` and reads its body from `data`. A number
    /// that stands for no variant is refused, and the error says which.
    pub fn deserialize_with_id<'a>(id: u8, data: &'a [u8]) -> (r: DeserializeResult<'a, Self>)
        ensures
            agrees(r, data@, Self::decode_with_id(id, data@)),
            !Self::has_id(id) ==> (r matches Err(DeserializeErr::CannotUnderstandValue(m))
                && m@ == invalid_message("Difficulty"@, id as nat)),
    {
        proof {
            assert(data@.skip(0) =~= data@);
        }
        match id {
            0x00 => Ok(Deserialized { value: Difficulty::Peaceful, data }),
            0x01 => Ok(Deserialized { value: Difficulty::Easy, data }),
            0x02 => Ok(Deserialized { value: Difficulty::Normal, data }),
            0x03 => Ok(Deserialized { value: Difficulty::Hard, data }),
            other => Err(DeserializeErr::CannotUnderstandValue(invalid_value_message("Difficulty", other as u64))),
        }
    }

    /// Writes what follows the number.
    pub fn serialize_body<S: Serializer>(&self, to: &mut S) -> (r: SerializeResult)
        ensures
            r is Ok ==> Self::body_writable(self.deep_view()) && final(to).written() == old(
                to,
            ).written() + Self::body_of(self.deep_view()),
            old(to).infallible() ==> final(to).infallible(),
            old(to).infallible() ==> (r is Ok <==> Self::body_writable(self.deep_view())),
            old(to).infallible() && r is Err ==> (r matches Err(SerializeErr::CannotSerialize(_))),
    {
        match self {
            Difficulty::Peaceful => {
                proof {
                    assert(old(to).written() + Seq::<u8>::empty() =~= old(to).written());
                }
                Ok(())
            },
            Difficulty::Easy => {
                proof {
                    assert(old(to).written() + Seq::<u8>::empty() =~= old(to).written());
                }
                Ok(())
            },
            Difficulty::Normal => {
                proof {
                    assert(old(to).written() + Seq::<u8>::empty() =~= old(to).written());
                }
                Ok(())
            },
            Difficulty::Hard => {
                proof {
                    assert(old(to).written() + Seq::<u8>::empty() =~= old(to).written());
                }
                Ok(())
            },
        }
    }
}

impl Serialize for Difficulty {
    open spec fn serializable(v: Difficulty) -> bool {
        Self::body_writable(v)
    }

    #[verifier::opaque]
    open spec fn encode(v: Difficulty) -> Seq<u8> {
        <u8>::encode(Self::id_of(v)) + Self::body_of(v)
    }

    fn mc_serialize<S: Serializer>(&self, to: &mut S) -> (r: SerializeResult) {
        proof {
            reveal(<Difficulty as Serialize>::encode);
        }
        let id_to_serialize: u8 = self.id();
        id_to_serialize.mc_serialize(to)?;
        let r = self.serialize_body(to);
        proof {
            let head = <u8>::encode(Self::id_of(self.deep_view()));
            let body = Self::body_of(self.deep_view());
            lemma_concat_assoc(old(to).written(), head, body);
        }
        r
    }
}

impl Deserialize for Difficulty {
    #[verifier::opaque]
    open spec fn decode(data: Seq<u8>) -> Decoded<Difficulty> {
        match <u8>::decode(data) {
            Err(e) => Err(e),
            Ok((id, n)) => match Self::decode_with_id(id, data.skip(n as int)) {
                Ok((v, m)) => Ok((v, n + m)),
                Err(e) => Err(e),
            },
        }
    }

    fn mc_deserialize(data: &[u8]) -> (r: DeserializeResult<'_, Difficulty>) {
        proof {
            reveal(<Difficulty as Deserialize>::decode);
        }
        let Deserialized { value: id, data: rest } = <u8>::mc_deserialize(data)?;
        let Deserialized { value, data: after } = Self::deserialize_with_id(id, rest)?;
        proof {
            lemma_skip_skip(data@, data@.len() - rest@.len(), rest@.len() - after@.len());
        }
        Ok(Deserialized { value, data: after })
    }
}

impl ProtocolType for Difficulty {
    open spec fn faithful(v: Difficulty) -> bool {
        match v {
            Difficulty::Peaceful => true,
            Difficulty::Easy => true,
            Difficulty::Normal => true,
            Difficulty::Hard => true,
        }
    }

    open spec fn delimited() -> bool {
        true
    }

    proof fn lemma_round_trip(v: Difficulty, rest: Seq<u8>) {
        reveal(<Difficulty as Serialize>::encode);
        reveal(<Difficulty as Deserialize>::decode);
        let head = <u8>::encode(Self::id_of(v));
        let body = Self::body_of(v);
        <u8>::lemma_round_trip(Self::id_of(v), body + rest);
        Self::lemma_body_round_trip(v, rest);
        lemma_concat_assoc(head, body, rest);
        lemma_skip_concat(head, body + rest);
    }
}

impl Difficulty {
    /// What follows the number, written out and followed by anything, reads
    /// back under that number.
    pub proof fn lemma_body_round_trip(v: Difficulty, rest: Seq<u8>)
        requires
            <Self as ProtocolType>::faithful(v),
            <Self as ProtocolType>::delimited() || rest.len() == 0,
        ensures
            Self::body_writable(v),
            Self::decode_with_id(Self::id_of(v), Self::body_of(v) + rest) == Ok::<_, DecodeFailure>(
                (v, Self::body_of(v).len()),
            ),
    {
        match v {
            Difficulty::Peaceful => {
                assert(Seq::<u8>::empty() + rest =~= rest);
            },
            Difficulty::Easy => {
                assert(Seq::<u8>::empty() + rest =~= rest);
            },
            Difficulty::Normal => {
                assert(Seq::<u8>::empty() + rest =~= rest);
            },
            Difficulty::Hard => {
                assert(Seq::<u8>::empty() + rest =~= rest);
            },
        }
    }
}

/// Where on the screen a message shows.
#[derive(PartialEq, Eq, Structural, Clone, Copy, Debug)]
pub enum ChatPosition {
    ChatBox,
    SystemMessage,
    Hotbar,
}

impl View for ChatPosition {
    type V = ChatPosition;

    open spec fn view(&self) -> ChatPosition {
        *self
    }
}

impl DeepView for ChatPosition {
    type V = ChatPosition;

    open spec fn deep_view(&self) -> ChatPosition {
        *self
    }
}

impl ChatPosition {
    pub fn variant_count() -> (r: usize)
        ensures
            r == 3,
    {
        3
    }

    /// The number that stands for the variant on the wire.
    pub open spec fn id_of(v: ChatPosition) -> u8 {
        match v {
            ChatPosition::ChatBox => 0x00,
            ChatPosition::SystemMessage => 0x01,
            ChatPosition::Hotbar => 0x02,
        }
    }

    pub fn id(&self) -> (r: u8)
        ensures
            r == Self::id_of(self.deep_view()),
    {
        match self {
            ChatPosition::ChatBox => 0x00,
            ChatPosition::SystemMessage => 0x01,
            ChatPosition::Hotbar => 0x02,
        }
    }

    pub open spec fn name_of(v: ChatPosition) -> Seq<char> {
        match v {
            ChatPosition::ChatBox => "ChatBox"@,
            ChatPosition::SystemMessage => "SystemMessage"@,
            ChatPosition::Hotbar => "Hotbar"@,
        }
    }

    pub fn name(&self) -> (r: &'static str)
        ensures
            r@ == Self::name_of(self.deep_view()),
    {
        match self {
            ChatPosition::ChatBox => "ChatBox",
            ChatPosition::SystemMessage => "SystemMessage",
            ChatPosition::Hotbar => "Hotbar",
        }
    }

    /// The bytes that follow the number.
    pub open spec fn body_of(v: ChatPosition) -> Seq<u8> {
        match v {
            ChatPosition::ChatBox => Seq::empty(),
            ChatPosition::SystemMessage => Seq::empty(),
            ChatPosition::Hotbar => Seq::empty(),
        }
    }

    /// Whether what follows the number can be written.
    pub open spec fn body_writable(v: ChatPosition) -> bool {
        match v {
            ChatPosition::ChatBox => true,
            ChatPosition::SystemMessage => true,
            ChatPosition::Hotbar => true,
        }
    }

    /// The variant that `id` stands for, with its body read from `data`.
    pub open spec fn decode_with_id(id: u8, data: Seq<u8>) -> Decoded<ChatPosition> {
        if id == 0x00 {
            Ok((ChatPosition::ChatBox, 0))
        } else if id == 0x01 {
            Ok((ChatPosition::SystemMessage, 0))
        } else if id == 0x02 {
            Ok((ChatPosition::Hotbar, 0))
        } else {
            Err(DecodeFailure::CannotUnderstandValue)
        }
    }

    /// Whether `id` stands for a variant.
    pub open spec fn has_id(id: u8) -> bool {
        id == 0x00
            || id == 0x01
            || id == 0x02
    }

    /// Picks the variant for `id` and reads its body from `data`. A number
    /// that stands for no variant is refused, and the error says which.
    pub fn deserialize_with_id<'a>(id: u8, data: &'a [u8]) -> (r: DeserializeResult<'a, Self>)
        ensures
            agrees(r, data@, Self::decode_with_id(id, data@)),
            !Self::has_id(id) ==> (r matches Err(DeserializeErr::CannotUnderstandValue(m))
                && m@ == invalid_message("ChatPosition"@, id as nat)),
    {
        proof {
            assert(data@.skip(0) =~= data@);
        }
        match id {
            0x00 => Ok(Deserialized { value: ChatPosition::ChatBox, data }),
            0x01 => Ok(Deserialized { value: ChatPosition::SystemMessage, data }),
            0x02 => Ok(Deserialized { value: ChatPosition::Hotbar, data }),
            other => Err(DeserializeErr::CannotUnderstandValue(invalid_value_message("ChatPosition", other as u64))),
        }
    }

    /// Writes what follows the number.
    pub fn serialize_body<S: Serializer>(&self, to: &mut S) -> (r: SerializeResult)
        ensures
            r is Ok ==> Self::body_writable(self.deep_view()) && final(to).written() == old(
                to,
            ).written() + Self::body_of(self.deep_view()),
            old(to).infallible() ==> final(to).infallible(),
            old(to).infallible() ==> (r is Ok <==> Self::body_writable(self.deep_view())),
            old(to).infallible() && r is Err ==> (r matches Err(SerializeErr::CannotSerialize(_))),
    {
        match self {
            ChatPosition::ChatBox => {
                proof {
                    assert(old(to).written() + Seq::<u8>::empty() =~= old(to).written());
                }
                Ok(())
            },
            ChatPosition::SystemMessage => {
                proof {
                    assert(old(to).written() + Seq::<u8>::empty() =~= old(to).written());
                }
                Ok(())
            },
            ChatPosition::Hotbar => {
                proof {
                    assert(old(to).written() + Seq::<u8>::empty() =~= old(to).written());
                }
                Ok(())
            },
        }
    }
}

impl Serialize for ChatPosition {
    open spec fn serializable(v: ChatPosition) -> bool {
        Self::body_writable(v)
    }

    #[verifier::opaque]
    open spec fn encode(v: ChatPosition) -> Seq<u8> {
        <u8>::encode(Self::id_of(v)) + Self::body_of(v)
    }

    fn mc_serialize<S: Serializer>(&self, to: &mut S) -> (r: SerializeResult) {
        proof {
            reveal(<ChatPosition as Serialize>::encode);
        }
        let id_to_serialize: u8 = self.id();
        id_to_serialize.mc_serialize(to)?;
        let r = self.serialize_body(to);
        proof {
            let head = <u8>::encode(Self::id_of(self.deep_view()));
            let body = Self::body_of(self.deep_view());
            lemma_concat_assoc(old(to).written(), head, body);
        }
        r
    }
}

impl Deserialize for ChatPosition {
    #[verifier::opaque]
    open spec fn decode(data: Seq<u8>) -> Decoded<ChatPosition> {
        match <u8>::decode(data) {
            Err(e) => Err(e),
            Ok((id, n)) => match Self::decode_with_id(id, data.skip(n as int)) {
                Ok((v, m)) => Ok((v, n + m)),
                Err(e) => Err(e),
            },
        }
    }

    fn mc_deserialize(data: &[u8]) -> (r: DeserializeResult<'_, ChatPosition>) {
        proof {
            reveal(<ChatPosition as Deserialize>::decode);
        }
        let Deserialized { value: id, data: rest } = <u8>::mc_deserialize(data)?;
        let Deserialized { value, data: after } = Self::deserialize_with_id(id, rest)?;
        proof {
            lemma_skip_skip(data@, data@.len() - rest@.len(), rest@.len() - after@.len());
        }
        Ok(Deserialized { value, data: after })
    }
}

impl ProtocolType for ChatPosition {
    open spec fn faithful(v: ChatPosition) -> bool {
        match v {
            ChatPosition::ChatBox => true,
            ChatPosition::SystemMessage => true,
            ChatPosition::Hotbar => true,
        }
    }

    open spec fn delimited() -> bool {
        true
    }

    proof fn lemma_round_trip(v: ChatPosition, rest: Seq<u8>) {
        reveal(<ChatPosition as Serialize>::encode);
        reveal(<ChatPosition as Deserialize>::decode);
        let head = <u8>::encode(Self::id_of(v));
        let body = Self::body_of(v);
        <u8>::lemma_round_trip(Self::id_of(v), body + rest);
        Self::lemma_body_round_trip(v, rest);
        lemma_concat_assoc(head, body, rest);
        lemma_skip_concat(head, body + rest);
    }
}

impl ChatPosition {
    /// What follows the number, written out and followed by anything, reads
    /// back under that number.
    pub proof fn lemma_body_round_trip(v: ChatPosition, rest: Seq<u8>)
        requires
            <Self as ProtocolType>::faithful(v),
            <Self as ProtocolType>::delimited() || rest.len() == 0,
        ensures
            Self::body_writable(v),
            Self::decode_with_id(Self::id_of(v), Self::body_of(v) + rest) == Ok::<_, DecodeFailure>(
                (v, Self::body_of(v).len()),
            ),
    {
        match v {
            ChatPosition::ChatBox => {
                assert(Seq::<u8>::empty() + rest =~= rest);
            },
            ChatPosition::SystemMessage => {
                assert(Seq::<u8>::empty() + rest =~= rest);
            },
            ChatPosition::Hotbar => {
                assert(Seq::<u8>::empty() + rest =~= rest);
            },
        }
    }
}

/// What happens to the title on the screen. A text is held as the JSON text of a chat component.
#[derive(PartialEq, Clone, Debug)]
pub enum TitleActionSpec {
    SetTitle(String),
    SetSubtitle(String),
    SetActionBar(String),
    SetTimesAndDisplay(TitleTimesSpec),
    Hide,
    Reset,
}

/// The mathematical content of a [`TitleActionSpec`].
pub enum TitleActionSpecView {
    SetTitle(<String as DeepView>::V),
    SetSubtitle(<String as DeepView>::V),
    SetActionBar(<String as DeepView>::V),
    SetTimesAndDisplay(<TitleTimesSpec as DeepView>::V),
    Hide,
    Reset,
}

impl DeepView for TitleActionSpec {
    type V = TitleActionSpecView;

    open spec fn deep_view(&self) -> TitleActionSpecView {
        match self {
            TitleActionSpec::SetTitle(body) => TitleActionSpecView::SetTitle(body.deep_view()),
            TitleActionSpec::SetSubtitle(body) => TitleActionSpecView::SetSubtitle(body.deep_view()),
            TitleActionSpec::SetActionBar(body) => TitleActionSpecView::SetActionBar(body.deep_view()),
            TitleActionSpec::SetTimesAndDisplay(body) => TitleActionSpecView::SetTimesAndDisplay(body.deep_view()),
            TitleActionSpec::Hide => TitleActionSpecView::Hide,
            TitleActionSpec::Reset => TitleActionSpecView::Reset,
        }
    }
}

impl TitleActionSpec {
    pub fn variant_count() -> (r: usize)
        ensures
            r == 6,
    {
        6
    }

    /// The number that stands for the variant on the wire.
    pub open spec fn id_of(v: TitleActionSpecView) -> i32 {
        match v {
            TitleActionSpecView::SetTitle(_) => 0x00,
            TitleActionSpecView::SetSubtitle(_) => 0x01,
            TitleActionSpecView::SetActionBar(_) => 0x02,
            TitleActionSpecView::SetTimesAndDisplay(_) => 0x03,
            TitleActionSpecView::Hide => 0x04,
            TitleActionSpecView::Reset => 0x05,
        }
    }

    pub fn id(&self) -> (r: VarInt)
        ensures
            r == VarInt(Self::id_of(self.deep_view())),
    {
        match self {
            TitleActionSpec::SetTitle(_) => VarInt(0x00),
            TitleActionSpec::SetSubtitle(_) => VarInt(0x01),
            TitleActionSpec::SetActionBar(_) => VarInt(0x02),
            TitleActionSpec::SetTimesAndDisplay(_) => VarInt(0x03),
            TitleActionSpec::Hide => VarInt(0x04),
            TitleActionSpec::Reset => VarInt(0x05),
        }
    }

    pub open spec fn name_of(v: TitleActionSpecView) -> Seq<char> {
        match v {
            TitleActionSpecView::SetTitle(_) => "SetTitle"@,
            TitleActionSpecView::SetSubtitle(_) => "SetSubtitle"@,
            TitleActionSpecView::SetActionBar(_) => "SetActionBar"@,
            TitleActionSpecView::SetTimesAndDisplay(_) => "SetTimesAndDisplay"@,
            TitleActionSpecView::Hide => "Hide"@,
            TitleActionSpecView::Reset => "Reset"@,
        }
    }

    pub fn name(&self) -> (r: &'static str)
        ensures
            r@ == Self::name_of(self.deep_view()),
    {
        match self {
            TitleActionSpec::SetTitle(_) => "SetTitle",
            TitleActionSpec::SetSubtitle(_) => "SetSubtitle",
            TitleActionSpec::SetActionBar(_) => "SetActionBar",
            TitleActionSpec::SetTimesAndDisplay(_) => "SetTimesAndDisplay",
            TitleActionSpec::Hide => "Hide",
            TitleActionSpec::Reset => "Reset",
        }
    }

    /// The bytes that follow the number.
    pub open spec fn body_of(v: TitleActionSpecView) -> Seq<u8> {
        match v {
            TitleActionSpecView::SetTitle(body) => <String>::encode(body),
            TitleActionSpecView::SetSubtitle(body) => <String>::encode(body),
            TitleActionSpecView::SetActionBar(body) => <String>::encode(body),
            TitleActionSpecView::SetTimesAndDisplay(body) => <TitleTimesSpec>::encode(body),
            TitleActionSpecView::Hide => Seq::empty(),
            TitleActionSpecView::Reset => Seq::empty(),
        }
    }

    /// Whether what follows the number can be written.
    pub open spec fn body_writable(v: TitleActionSpecView) -> bool {
        match v {
            TitleActionSpecView::SetTitle(body) => <String>::serializable(body),
            TitleActionSpecView::SetSubtitle(body) => <String>::serializable(body),
            TitleActionSpecView::SetActionBar(body) => <String>::serializable(body),
            TitleActionSpecView::SetTimesAndDisplay(body) => <TitleTimesSpec>::serializable(body),
            TitleActionSpecView::Hide => true,
            TitleActionSpecView::Reset => true,
        }
    }

    /// The variant that `id` stands for, with its body read from `data`.
    pub open spec fn decode_with_id(id: i32, data: Seq<u8>) -> Decoded<TitleActionSpecView> {
        if id == 0x00 {
            match <String>::decode(data) {
                Ok((body, n)) => Ok((TitleActionSpecView::SetTitle(body), n)),
                Err(e) => Err(e),
            }
        } else if id == 0x01 {
            match <String>::decode(data) {
                Ok((body, n)) => Ok((TitleActionSpecView::SetSubtitle(body), n)),
                Err(e) => Err(e),
            }
        } else if id == 0x02 {
            match <String>::decode(data) {
                Ok((body, n)) => Ok((TitleActionSpecView::SetActionBar(body), n)),
                Err(e) => Err(e),
            }
        } else if id == 0x03 {
            match <TitleTimesSpec>::decode(data) {
                Ok((body, n)) => Ok((TitleActionSpecView::SetTimesAndDisplay(body), n)),
                Err(e) => Err(e),
            }
        } else if id == 0x04 {
            Ok((TitleActionSpecView::Hide, 0))
        } else if id == 0x05 {
            Ok((TitleActionSpecView::Reset, 0))
        } else {
            Err(DecodeFailure::CannotUnderstandValue)
        }
    }

    /// Whether `id` stands for a variant.
    pub open spec fn has_id(id: i32) -> bool {
        id == 0x00
            || id == 0x01
            || id == 0x02
            || id == 0x03
            || id == 0x04
            || id == 0x05
    }

    /// Picks the variant for `id` and reads its body from `data`. A number
    /// that stands for no variant is refused, and the error says which.
    pub fn deserialize_with_id<'a>(id: VarInt, data: &'a [u8]) -> (r: DeserializeResult<'a, Self>)
        ensures
            agrees(r, data@, Self::decode_with_id(id.0, data@)),
            !Self::has_id(id.0) ==> (r matches Err(DeserializeErr::CannotUnderstandValue(m))
                && m@ == invalid_int_text("TitleActionSpec"@, id.0 as int)),
    {
        proof {
            assert(data@.skip(0) =~= data@);
        }
        match id.0 {
            0x00 => {
                let Deserialized { value: body, data: rest } = <String>::mc_deserialize(data)?;
                Ok(Deserialized { value: TitleActionSpec::SetTitle(body), data: rest })
            },
            0x01 => {
                let Deserialized { value: body, data: rest } = <String>::mc_deserialize(data)?;
                Ok(Deserialized { value: TitleActionSpec::SetSubtitle(body), data: rest })
            },
            0x02 => {
                let Deserialized { value: body, data: rest } = <String>::mc_deserialize(data)?;
                Ok(Deserialized { value: TitleActionSpec::SetActionBar(body), data: rest })
            },
            0x03 => {
                let Deserialized { value: body, data: rest } = <TitleTimesSpec>::mc_deserialize(data)?;
                Ok(Deserialized { value: TitleActionSpec::SetTimesAndDisplay(body), data: rest })
            },
            0x04 => Ok(Deserialized { value: TitleActionSpec::Hide, data }),
            0x05 => Ok(Deserialized { value: TitleActionSpec::Reset, data }),
            other => Err(DeserializeErr::CannotUnderstandValue(invalid_int_message("TitleActionSpec", other))),
        }
    }

    /// Writes what follows the number.
    pub fn serialize_body<S: Serializer>(&self, to: &mut S) -> (r: SerializeResult)
        ensures
            r is Ok ==> Self::body_writable(self.deep_view()) && final(to).written() == old(
                to,
            ).written() + Self::body_of(self.deep_view()),
            old(to).infallible() ==> final(to).infallible(),
            old(to).infallible() ==> (r is Ok <==> Self::body_writable(self.deep_view())),
            old(to).infallible() && r is Err ==> (r matches Err(SerializeErr::CannotSerialize(_))),
    {
        match self {
            TitleActionSpec::SetTitle(bod) => bod.mc_serialize(to),
            TitleActionSpec::SetSubtitle(bod) => bod.mc_serialize(to),
            TitleActionSpec::SetActionBar(bod) => bod.mc_serialize(to),
            TitleActionSpec::SetTimesAndDisplay(bod) => bod.mc_serialize(to),
            TitleActionSpec::Hide => {
                proof {
                    assert(old(to).written() + Seq::<u8>::empty() =~= old(to).written());
                }
                Ok(())
            },
            TitleActionSpec::Reset => {
                proof {
                    assert(old(to).written() + Seq::<u8>::empty() =~= old(to).written());
                }
                Ok(())
            },
        }
    }
}

impl Serialize for TitleActionSpec {
    open spec fn serializable(v: TitleActionSpecView) -> bool {
        Self::body_writable(v)
    }

    #[verifier::opaque]
    open spec fn encode(v: TitleActionSpecView) -> Seq<u8> {
        <VarInt>::encode(VarInt(Self::id_of(v))) + Self::body_of(v)
    }

    fn mc_serialize<S: Serializer>(&self, to: &mut S) -> (r: SerializeResult) {
        proof {
            reveal(<TitleActionSpec as Serialize>::encode);
        }
        let id_to_serialize: VarInt = self.id();
        id_to_serialize.mc_serialize(to)?;
        let r = self.serialize_body(to);
        proof {
            let head = <VarInt>::encode(VarInt(Self::id_of(self.deep_view())));
            let body = Self::body_of(self.deep_view());
            lemma_concat_assoc(old(to).written(), head, body);
        }
        r
    }
}

impl Deserialize for TitleActionSpec {
    #[verifier::opaque]
    open spec fn decode(data: Seq<u8>) -> Decoded<TitleActionSpecView> {
        match <VarInt>::decode(data) {
            Err(e) => Err(e),
            Ok((id, n)) => match Self::decode_with_id(id.0, data.skip(n as int)) {
                Ok((v, m)) => Ok((v, n + m)),
                Err(e) => Err(e),
            },
        }
    }

    fn mc_deserialize(data: &[u8]) -> (r: DeserializeResult<'_, TitleActionSpec>) {
        proof {
            reveal(<TitleActionSpec as Deserialize>::decode);
        }
        let Deserialized { value: id, data: rest } = <VarInt>::mc_deserialize(data)?;
        let Deserialized { value, data: after } = Self::deserialize_with_id(id, rest)?;
        proof {
            lemma_skip_skip(data@, data@.len() - rest@.len(), rest@.len() - after@.len());
        }
        Ok(Deserialized { value, data: after })
    }
}

impl ProtocolType for TitleActionSpec {
    open spec fn faithful(v: TitleActionSpecView) -> bool {
        match v {
            TitleActionSpecView::SetTitle(body) => <String>::faithful(body),
            TitleActionSpecView::SetSubtitle(body) => <String>::faithful(body),
            TitleActionSpecView::SetActionBar(body) => <String>::faithful(body),
            TitleActionSpecView::SetTimesAndDisplay(body) => <TitleTimesSpec>::faithful(body),
            TitleActionSpecView::Hide => true,
            TitleActionSpecView::Reset => true,
        }
    }

    open spec fn delimited() -> bool {
        <String>::delimited() && <TitleTimesSpec>::delimited()
    }

    proof fn lemma_round_trip(v: TitleActionSpecView, rest: Seq<u8>) {
        reveal(<TitleActionSpec as Serialize>::encode);
        reveal(<TitleActionSpec as Deserialize>::decode);
        let head = <VarInt>::encode(VarInt(Self::id_of(v)));
        let body = Self::body_of(v);
        <VarInt>::lemma_round_trip(VarInt(Self::id_of(v)), body + rest);
        Self::lemma_body_round_trip(v, rest);
        lemma_concat_assoc(head, body, rest);
        lemma_skip_concat(head, body + rest);
    }
}

impl TitleActionSpec {
    /// What follows the number, written out and followed by anything, reads
    /// back under that number.
    pub proof fn lemma_body_round_trip(v: TitleActionSpecView, rest: Seq<u8>)
        requires
            <Self as ProtocolType>::faithful(v),
            <Self as ProtocolType>::delimited() || rest.len() == 0,
        ensures
            Self::body_writable(v),
            Self::decode_with_id(Self::id_of(v), Self::body_of(v) + rest) == Ok::<_, DecodeFailure>(
                (v, Self::body_of(v).len()),
            ),
    {
        match v {
            TitleActionSpecView::SetTitle(body) => {
                <String>::lemma_round_trip(body, rest);
            },
            TitleActionSpecView::SetSubtitle(body) => {
                <String>::lemma_round_trip(body, rest);
            },
            TitleActionSpecView::SetActionBar(body) => {
                <String>::lemma_round_trip(body, rest);
            },
            TitleActionSpecView::SetTimesAndDisplay(body) => {
                <TitleTimesSpec>::lemma_round_trip(body, rest);
            },
            TitleActionSpecView::Hide => {
                assert(Seq::<u8>::empty() + rest =~= rest);
            },
            TitleActionSpecView::Reset => {
                assert(Seq::<u8>::empty() + rest =~= rest);
            },
        }
    }
}

/// How long a title fades in, stays and fades out, in ticks.
#[derive(Debug, Clone, PartialEq)]
pub struct TitleTimesSpec {
    pub fade_in: i32,
    pub stay: i32,
    pub fade_out: i32,
}

/// The mathematical content of a [`TitleTimesSpec`].
pub struct TitleTimesSpecView {
    pub fade_in: i32,
    pub stay: i32,
    pub fade_out: i32,
}

impl DeepView for TitleTimesSpec {
    type V = TitleTimesSpecView;

    open spec fn deep_view(&self) -> TitleTimesSpecView {
        TitleTimesSpecView {
            fade_in: self.fade_in.deep_view(),
            stay: self.stay.deep_view(),
            fade_out: self.fade_out.deep_view(),
        }
    }
}

impl Serialize for TitleTimesSpec {
    open spec fn serializable(v: TitleTimesSpecView) -> bool {
        i32::serializable(v.fade_in) && i32::serializable(v.stay) && i32::serializable(v.fade_out)
    }

    #[verifier::opaque]
    open spec fn encode(v: TitleTimesSpecView) -> Seq<u8> {
        i32::encode(v.fade_in) + i32::encode(v.stay) + i32::encode(v.fade_out)
    }

    fn mc_serialize<S: Serializer>(&self, to: &mut S) -> (r: SerializeResult) {
        proof {
            reveal(<TitleTimesSpec as Serialize>::encode);
        }
        self.fade_in.mc_serialize(to)?;
        self.stay.mc_serialize(to)?;
        self.fade_out.mc_serialize(to)?;
        proof {
            let v = self.deep_view();
            let w = old(to).written();
            let e0 = i32::encode(v.fade_in);
            let e1 = i32::encode(v.stay);
            let e2 = i32::encode(v.fade_out);
            let l0 = e0;
            let l1 = l0 + e1;
            let l2 = l1 + e2;
            lemma_concat_assoc(w, l0, e1);
            lemma_concat_assoc(w, l1, e2);
        }
        Ok(())
    }
}

impl Deserialize for TitleTimesSpec {
    #[verifier::opaque]
    open spec fn decode(data: Seq<u8>) -> Decoded<TitleTimesSpecView> {
        match i32::decode(data) {
            Err(e) => Err(e),
            Ok((fade_in, n0)) => {
                match i32::decode(data.skip((n0) as int)) {
                    Err(e) => Err(e),
                    Ok((stay, n1)) => {
                        match i32::decode(data.skip((n0 + n1) as int)) {
                            Err(e) => Err(e),
                            Ok((fade_out, n2)) => Ok((TitleTimesSpecView { fade_in, stay, fade_out }, n0 + n1 + n2)),
                        }
                    },
                }
            },
        }
    }

    fn mc_deserialize(data: &[u8]) -> (r: DeserializeResult<'_, TitleTimesSpec>) {
        proof {
            reveal(<TitleTimesSpec as Deserialize>::decode);
        }
        let ghost whole = data@;
        let Deserialized { value: fade_in, data: rest0 } = i32::mc_deserialize(data)?;
        let Deserialized { value: stay, data: rest1 } = i32::mc_deserialize(rest0)?;
        proof {
            lemma_skip_skip(
                whole,
                whole.len() - rest0@.len(),
                rest0@.len() - rest1@.len(),
            );
        }
        let Deserialized { value: fade_out, data: rest2 } = i32::mc_deserialize(rest1)?;
        proof {
            lemma_skip_skip(
                whole,
                whole.len() - rest1@.len(),
                rest1@.len() - rest2@.len(),
            );
        }
        Ok(Deserialized { value: TitleTimesSpec { fade_in, stay, fade_out }, data: rest2 })
    }
}

impl ProtocolType for TitleTimesSpec {
    open spec fn faithful(v: TitleTimesSpecView) -> bool {
        i32::faithful(v.fade_in) && i32::faithful(v.stay) && i32::faithful(v.fade_out)
    }

    open spec fn delimited() -> bool {
        i32::delimited()
    }

    proof fn lemma_round_trip(v: TitleTimesSpecView, rest: Seq<u8>) {
        reveal(<TitleTimesSpec as Serialize>::encode);
        reveal(<TitleTimesSpec as Deserialize>::decode);
        let e0 = i32::encode(v.fade_in);
        let e1 = i32::encode(v.stay);
        let e2 = i32::encode(v.fade_out);
        let data = Self::encode(v) + rest;
        let t3 = rest;
        let t2 = e2 + t3;
        let t1 = e1 + t2;
        let t0 = e0 + t1;
        let l0 = e0;
        let l1 = l0 + e1;
        let l2 = l1 + e2;
        lemma_concat_assoc(l1, e2, t3);
        lemma_concat_assoc(l0, e1, t2);
        assert(data == t0);
        i32::lemma_round_trip(v.fade_in, t1);
        lemma_skip_concat(e0, t1);
        i32::lemma_round_trip(v.stay, t2);
        lemma_skip_more(data, (e0.len()) as int, e1, t2);
        i32::lemma_round_trip(v.fade_out, t3);
        lemma_skip_more(data, (e0.len() + e1.len()) as int, e2, t3);
    }
}

/// What follows the end of the game.
#[derive(PartialEq, Eq, Structural, Clone, Copy, Debug)]
pub enum WinGameAction {
    Respawn,
    RollCreditsAndRespawn,
}

impl View for WinGameAction {
    type V = WinGameAction;

    open spec fn view(&self) -> WinGameAction {
        *self
    }
}

impl DeepView for WinGameAction {
    type V = WinGameAction;

    open spec fn deep_view(&self) -> WinGameAction {
        *self
    }
}

impl WinGameAction {
    pub fn variant_count() -> (r: usize)
        ensures
            r == 2,
    {
        2
    }

    /// The number that stands for the variant on the wire.
    pub open spec fn id_of(v: WinGameAction) -> u8 {
        match v {
            WinGameAction::Respawn => 0x00,
            WinGameAction::RollCreditsAndRespawn => 0x01,
        }
    }

    pub fn id(&self) -> (r: u8)
        ensures
            r == Self::id_of(self.deep_view()),
    {
        match self {
            WinGameAction::Respawn => 0x00,
            WinGameAction::RollCreditsAndRespawn => 0x01,
        }
    }

    pub open spec fn name_of(v: WinGameAction) -> Seq<char> {
        match v {
            WinGameAction::Respawn => "Respawn"@,
            WinGameAction::RollCreditsAndRespawn => "RollCreditsAndRespawn"@,
        }
    }

    pub fn name(&self) -> (r: &'static str)
        ensures
            r@ == Self::name_of(self.deep_view()),
    {
        match self {
            WinGameAction::Respawn => "Respawn",
            WinGameAction::RollCreditsAndRespawn => "RollCreditsAndRespawn",
        }
    }

    /// The bytes that follow the number.
    pub open spec fn body_of(v: WinGameAction) -> Seq<u8> {
        match v {
            WinGameAction::Respawn => Seq::empty(),
            WinGameAction::RollCreditsAndRespawn => Seq::empty(),
        }
    }

    /// Whether what follows the number can be written.
    pub open spec fn body_writable(v: WinGameAction) -> bool {
        match v {
            WinGameAction::Respawn => true,
            WinGameAction::RollCreditsAndRespawn => true,
        }
    }

    /// The variant that `id` stands for, with its body read from `data`.
    pub open spec fn decode_with_id(id: u8, data: Seq<u8>) -> Decoded<WinGameAction> {
        if id == 0x00 {
            Ok((WinGameAction::Respawn, 0))
        } else if id == 0x01 {
            Ok((WinGameAction::RollCreditsAndRespawn, 0))
        } else {
            Err(DecodeFailure::CannotUnderstandValue)
        }
    }

    /// Whether `id` stands for a variant.
    pub open spec fn has_id(id: u8) -> bool {
        id == 0x00
            || id == 0x01
    }

    /// Picks the variant for `id` and reads its body from `data`. A number
    /// that stands for no variant is refused, and the error says which.
    pub fn deserialize_with_id<'a>(id: u8, data: &'a [u8]) -> (r: DeserializeResult<'a, Self>)
        ensures
            agrees(r, data@, Self::decode_with_id(id, data@)),
            !Self::has_id(id) ==> (r matches Err(DeserializeErr::CannotUnderstandValue(m))
                && m@ == invalid_message("WinGameAction"@, id as nat)),
    {
        proof {
            assert(data@.skip(0) =~= data@);
        }
        match id {
            0x00 => Ok(Deserialized { value: WinGameAction::Respawn, data }),
            0x01 => Ok(Deserialized { value: WinGameAction::RollCreditsAndRespawn, data }),
            other => Err(DeserializeErr::CannotUnderstandValue(invalid_value_message("WinGameAction", other as u64))),
        }
    }

    /// Writes what follows the number.
    pub fn serialize_body<S: Serializer>(&self, to: &mut S) -> (r: SerializeResult)
        ensures
            r is Ok ==> Self::body_writable(self.deep_view()) && final(to).written() == old(
                to,
            ).written() + Self::body_of(self.deep_view()),
            old(to).infallible() ==> final(to).infallible(),
            old(to).infallible() ==> (r is Ok <==> Self::body_writable(self.deep_view())),
            old(to).infallible() && r is Err ==> (r matches Err(SerializeErr::CannotSerialize(_))),
    {
        match self {
            WinGameAction::Respawn => {
                proof {
                    assert(old(to).written() + Seq::<u8>::empty() =~= old(to).written());
                }
                Ok(())
            },
            WinGameAction::RollCreditsAndRespawn => {
                proof {
                    assert(old(to).written() + Seq::<u8>::empty() =~= old(to).written());
                }
                Ok(())
            },
        }
    }
}

impl Serialize for WinGameAction {
    open spec fn serializable(v: WinGameAction) -> bool {
        Self::body_writable(v)
    }

    #[verifier::opaque]
    open spec fn encode(v: WinGameAction) -> Seq<u8> {
        <u8>::encode(Self::id_of(v)) + Self::body_of(v)
    }

    fn mc_serialize<S: Serializer>(&self, to: &mut S) -> (r: SerializeResult) {
        proof {
            reveal(<WinGameAction as Serialize>::encode);
        }
        let id_to_serialize: u8 = self.id();
        id_to_serialize.mc_serialize(to)?;
        let r = self.serialize_body(to);
        proof {
            let head = <u8>::encode(Self::id_of(self.deep_view()));
            let body = Self::body_of(self.deep_view());
            lemma_concat_assoc(old(to).written(), head, body);
        }
        r
    }
}

impl Deserialize for WinGameAction {
    #[verifier::opaque]
    open spec fn decode(data: Seq<u8>) -> Decoded<WinGameAction> {
        match <u8>::decode(data) {
            Err(e) => Err(e),
            Ok((id, n)) => match Self::decode_with_id(id, data.skip(n as int)) {
                Ok((v, m)) => Ok((v, n + m)),
                Err(e) => Err(e),
            },
        }
    }

    fn mc_deserialize(data: &[u8]) -> (r: DeserializeResult<'_, WinGameAction>) {
        proof {
            reveal(<WinGameAction as Deserialize>::decode);
        }
        let Deserialized { value: id, data: rest } = <u8>::mc_deserialize(data)?;
        let Deserialized { value, data: after } = Self::deserialize_with_id(id, rest)?;
        proof {
            lemma_skip_skip(data@, data@.len() - rest@.len(), rest@.len() - after@.len());
        }
        Ok(Deserialized { value, data: after })
    }
}

impl ProtocolType for WinGameAction {
    open spec fn faithful(v: WinGameAction) -> bool {
        match v {
            WinGameAction::Respawn => true,
            WinGameAction::RollCreditsAndRespawn => true,
        }
    }

    open spec fn delimited() -> bool {
        true
    }

    proof fn lemma_round_trip(v: WinGameAction, rest: Seq<u8>) {
        reveal(<WinGameAction as Serialize>::encode);
        reveal(<WinGameAction as Deserialize>::decode);
        let head = <u8>::encode(Self::id_of(v));
        let body = Self::body_of(v);
        <u8>::lemma_round_trip(Self::id_of(v), body + rest);
        Self::lemma_body_round_trip(v, rest);
        lemma_concat_assoc(head, body, rest);
        lemma_skip_concat(head, body + rest);
    }
}

impl WinGameAction {
    /// What follows the number, written out and followed by anything, reads
    /// back under that number.
    pub proof fn lemma_body_round_trip(v: WinGameAction, rest: Seq<u8>)
        requires
            <Self as ProtocolType>::faithful(v),
            <Self as ProtocolType>::delimited() || rest.len() == 0,
        ensures
            Self::body_writable(v),
            Self::decode_with_id(Self::id_of(v), Self::body_of(v) + rest) == Ok::<_, DecodeFailure>(
                (v, Self::body_of(v).len()),
            ),
    {
        match v {
            WinGameAction::Respawn => {
                assert(Seq::<u8>::empty() + rest =~= rest);
            },
            WinGameAction::RollCreditsAndRespawn => {
                assert(Seq::<u8>::empty() + rest =~= rest);
            },
        }
    }
}

/// A step of the demo.
#[derive(PartialEq, Eq, Structural, Clone, Copy, Debug)]
pub enum DemoEvent {
    ShowWelcomeScreen,
    TellMovementControls,
    TellJumpControl,
    TellInventoryControl,
    EndDemo,
}

impl View for DemoEvent {
    type V = DemoEvent;

    open spec fn view(&self) -> DemoEvent {
        *self
    }
}

impl DeepView for DemoEvent {
    type V = DemoEvent;

    open spec fn deep_view(&self) -> DemoEvent {
        *self
    }
}

impl DemoEvent {
    pub fn variant_count() -> (r: usize)
        ensures
            r == 5,
    {
        5
    }

    /// The number that stands for the variant on the wire.
    pub open spec fn id_of(v: DemoEvent) -> u8 {
        match v {
            DemoEvent::ShowWelcomeScreen => 0x00,
            DemoEvent::TellMovementControls => 0x65,
            DemoEvent::TellJumpControl => 0x66,
            DemoEvent::TellInventoryControl => 0x67,
            DemoEvent::EndDemo => 0x68,
        }
    }

    pub fn id(&self) -> (r: u8)
        ensures
            r == Self::id_of(self.deep_view()),
    {
        match self {
            DemoEvent::ShowWelcomeScreen => 0x00,
            DemoEvent::TellMovementControls => 0x65,
            DemoEvent::TellJumpControl => 0x66,
            DemoEvent::TellInventoryControl => 0x67,
            DemoEvent::EndDemo => 0x68,
        }
    }

    pub open spec fn name_of(v: DemoEvent) -> Seq<char> {
        match v {
            DemoEvent::ShowWelcomeScreen => "ShowWelcomeScreen"@,
            DemoEvent::TellMovementControls => "TellMovementControls"@,
            DemoEvent::TellJumpControl => "TellJumpControl"@,
            DemoEvent::TellInventoryControl => "TellInventoryControl"@,
            DemoEvent::EndDemo => "EndDemo"@,
        }
    }

    pub fn name(&self) -> (r: &'static str)
        ensures
            r@ == Self::name_of(self.deep_view()),
    {
        match self {
            DemoEvent::ShowWelcomeScreen => "ShowWelcomeScreen",
            DemoEvent::TellMovementControls => "TellMovementControls",
            DemoEvent::TellJumpControl => "TellJumpControl",
            DemoEvent::TellInventoryControl => "TellInventoryControl",
            DemoEvent::EndDemo => "EndDemo",
        }
    }

    /// The bytes that follow the number.
    pub open spec fn body_of(v: DemoEvent) -> Seq<u8> {
        match v {
            DemoEvent::ShowWelcomeScreen => Seq::empty(),
            DemoEvent::TellMovementControls => Seq::empty(),
            DemoEvent::TellJumpControl => Seq::empty(),
            DemoEvent::TellInventoryControl => Seq::empty(),
            DemoEvent::EndDemo => Seq::empty(),
        }
    }

    /// Whether what follows the number can be written.
    pub open spec fn body_writable(v: DemoEvent) -> bool {
        match v {
            DemoEvent::ShowWelcomeScreen => true,
            DemoEvent::TellMovementControls => true,
            DemoEvent::TellJumpControl => true,
            DemoEvent::TellInventoryControl => true,
            DemoEvent::EndDemo => true,
        }
    }

    /// The variant that `id` stands for, with its body read from `data`.
    pub open spec fn decode_with_id(id: u8, data: Seq<u8>) -> Decoded<DemoEvent> {
        if id == 0x00 {
            Ok((DemoEvent::ShowWelcomeScreen, 0))
        } else if id == 0x65 {
            Ok((DemoEvent::TellMovementControls, 0))
        } else if id == 0x66 {
            Ok((DemoEvent::TellJumpControl, 0))
        } else if id == 0x67 {
            Ok((DemoEvent::TellInventoryControl, 0))
        } else if id == 0x68 {
            Ok((DemoEvent::EndDemo, 0))
        } else {
            Err(DecodeFailure::CannotUnderstandValue)
        }
    }

    /// Whether `id` stands for a variant.
    pub open spec fn has_id(id: u8) -> bool {
        id == 0x00
            || id == 0x65
            || id == 0x66
            || id == 0x67
            || id == 0x68
    }

    /// Picks the variant for `id` and reads its body from `data`. A number
    /// that stands for no variant is refused, and the error says which.
    pub fn deserialize_with_id<'a>(id: u8, data: &'a [u8]) -> (r: DeserializeResult<'a, Self>)
        ensures
            agrees(r, data@, Self::decode_with_id(id, data@)),
            !Self::has_id(id) ==> (r matches Err(DeserializeErr::CannotUnderstandValue(m))
                && m@ == invalid_message("DemoEvent"@, id as nat)),
    {
        proof {
            assert(data@.skip(0) =~= data@);
        }
        match id {
            0x00 => Ok(Deserialized { value: DemoEvent::ShowWelcomeScreen, data }),
            0x65 => Ok(Deserialized { value: DemoEvent::TellMovementControls, data }),
            0x66 => Ok(Deserialized { value: DemoEvent::TellJumpControl, data }),
            0x67 => Ok(Deserialized { value: DemoEvent::TellInventoryControl, data }),
            0x68 => Ok(Deserialized { value: DemoEvent::EndDemo, data }),
            other => Err(DeserializeErr::CannotUnderstandValue(invalid_value_message("DemoEvent", other as u64))),
        }
    }

    /// Writes what follows the number.
    pub fn serialize_body<S: Serializer>(&self, to: &mut S) -> (r: SerializeResult)
        ensures
            r is Ok ==> Self::body_writable(self.deep_view()) && final(to).written() == old(
                to,
            ).written() + Self::body_of(self.deep_view()),
            old(to).infallible() ==> final(to).infallible(),
            old(to).infallible() ==> (r is Ok <==> Self::body_writable(self.deep_view())),
            old(to).infallible() && r is Err ==> (r matches Err(SerializeErr::CannotSerialize(_))),
    {
        match self {
            DemoEvent::ShowWelcomeScreen => {
                proof {
                    assert(old(to).written() + Seq::<u8>::empty() =~= old(to).written());
                }
                Ok(())
            },
            DemoEvent::TellMovementControls => {
                proof {
                    assert(old(to).written() + Seq::<u8>::empty() =~= old(to).written());
                }
                Ok(())
            },
            DemoEvent::TellJumpControl => {
                proof {
                    assert(old(to).written() + Seq::<u8>::empty() =~= old(to).written());
                }
                Ok(())
            },
            DemoEvent::TellInventoryControl => {
                proof {
                    assert(old(to).written() + Seq::<u8>::empty() =~= old(to).written());
                }
                Ok(())
            },
            DemoEvent::EndDemo => {
                proof {
                    assert(old(to).written() + Seq::<u8>::empty() =~= old(to).written());
                }
                Ok(())
            },
        }
    }
}

impl Serialize for DemoEvent {
    open spec fn serializable(v: DemoEvent) -> bool {
        Self::body_writable(v)
    }

    #[verifier::opaque]
    open spec fn encode(v: DemoEvent) -> Seq<u8> {
        <u8>::encode(Self::id_of(v)) + Self::body_of(v)
    }

    fn mc_serialize<S: Serializer>(&self, to: &mut S) -> (r: SerializeResult) {
        proof {
            reveal(<DemoEvent as Serialize>::encode);
        }
        let id_to_serialize: u8 = self.id();
        id_to_serialize.mc_serialize(to)?;
        let r = self.serialize_body(to);
        proof {
            let head = <u8>::encode(Self::id_of(self.deep_view()));
            let body = Self::body_of(self.deep_view());
            lemma_concat_assoc(old(to).written(), head, body);
        }
        r
    }
}

impl Deserialize for DemoEvent {
    #[verifier::opaque]
    open spec fn decode(data: Seq<u8>) -> Decoded<DemoEvent> {
        match <u8>::decode(data) {
            Err(e) => Err(e),
            Ok((id, n)) => match Self::decode_with_id(id, data.skip(n as int)) {
                Ok((v, m)) => Ok((v, n + m)),
                Err(e) => Err(e),
            },
        }
    }

    fn mc_deserialize(data: &[u8]) -> (r: DeserializeResult<'_, DemoEvent>) {
        proof {
            reveal(<DemoEvent as Deserialize>::decode);
        }
        let Deserialized { value: id, data: rest } = <u8>::mc_deserialize(data)?;
        let Deserialized { value, data: after } = Self::deserialize_with_id(id, rest)?;
        proof {
            lemma_skip_skip(data@, data@.len() - rest@.len(), rest@.len() - after@.len());
        }
        Ok(Deserialized { value, data: after })
    }
}

impl ProtocolType for DemoEvent {
    open spec fn faithful(v: DemoEvent) -> bool {
        match v {
            DemoEvent::ShowWelcomeScreen => true,
            DemoEvent::TellMovementControls => true,
            DemoEvent::TellJumpControl => true,
            DemoEvent::TellInventoryControl => true,
            DemoEvent::EndDemo => true,
        }
    }

    open spec fn delimited() -> bool {
        true
    }

    proof fn lemma_round_trip(v: DemoEvent, rest: Seq<u8>) {
        reveal(<DemoEvent as Serialize>::encode);
        reveal(<DemoEvent as Deserialize>::decode);
        let head = <u8>::encode(Self::id_of(v));
        let body = Self::body_of(v);
        <u8>::lemma_round_trip(Self::id_of(v), body + rest);
        Self::lemma_body_round_trip(v, rest);
        lemma_concat_assoc(head, body, rest);
        lemma_skip_concat(head, body + rest);
    }
}

impl DemoEvent {
    /// What follows the number, written out and followed by anything, reads
    /// back under that number.
    pub proof fn lemma_body_round_trip(v: DemoEvent, rest: Seq<u8>)
        requires
            <Self as ProtocolType>::faithful(v),
            <Self as ProtocolType>::delimited() || rest.len() == 0,
        ensures
            Self::body_writable(v),
            Self::decode_with_id(Self::id_of(v), Self::body_of(v) + rest) == Ok::<_, DecodeFailure>(
                (v, Self::body_of(v).len()),
            ),
    {
        match v {
            DemoEvent::ShowWelcomeScreen => {
                assert(Seq::<u8>::empty() + rest =~= rest);
            },
            DemoEvent::TellMovementControls => {
                assert(Seq::<u8>::empty() + rest =~= rest);
            },
            DemoEvent::TellJumpControl => {
                assert(Seq::<u8>::empty() + rest =~= rest);
            },
            DemoEvent::TellInventoryControl => {
                assert(Seq::<u8>::empty() + rest =~= rest);
            },
            DemoEvent::EndDemo => {
                assert(Seq::<u8>::empty() + rest =~= rest);
            },
        }
    }
}

/// Whether a player who died sees the respawn screen.
#[derive(PartialEq, Eq, Structural, Clone, Copy, Debug)]
pub enum RespawnRequestType {
    Screen,
    Immediate,
}

impl View for RespawnRequestType {
    type V = RespawnRequestType;

    open spec fn view(&self) -> RespawnRequestType {
        *self
    }
}

impl DeepView for RespawnRequestType {
    type V = RespawnRequestType;

    open spec fn deep_view(&self) -> RespawnRequestType {
        *self
    }
}

impl RespawnRequestType {
    pub fn variant_count() -> (r: usize)
        ensures
            r == 2,
    {
        2
    }

    /// The number that stands for the variant on the wire.
    pub open spec fn id_of(v: RespawnRequestType) -> u8 {
        match v {
            RespawnRequestType::Screen => 0x00,
            RespawnRequestType::Immediate => 0x01,
        }
    }

    pub fn id(&self) -> (r: u8)
        ensures
            r == Self::id_of(self.deep_view()),
    {
        match self {
            RespawnRequestType::Screen => 0x00,
            RespawnRequestType::Immediate => 0x01,
        }
    }

    pub open spec fn name_of(v: RespawnRequestType) -> Seq<char> {
        match v {
            RespawnRequestType::Screen => "Screen"@,
            RespawnRequestType::Immediate => "Immediate"@,
        }
    }

    pub fn name(&self) -> (r: &'static str)
        ensures
            r@ == Self::name_of(self.deep_view()),
    {
        match self {
            RespawnRequestType::Screen => "Screen",
            RespawnRequestType::Immediate => "Immediate",
        }
    }

    /// The bytes that follow the number.
    pub open spec fn body_of(v: RespawnRequestType) -> Seq<u8> {
        match v {
            RespawnRequestType::Screen => Seq::empty(),
            RespawnRequestType::Immediate => Seq::empty(),
        }
    }

    /// Whether what follows the number can be written.
    pub open spec fn body_writable(v: RespawnRequestType) -> bool {
        match v {
            RespawnRequestType::Screen => true,
            RespawnRequestType::Immediate => true,
        }
    }

    /// The variant that `id` stands for, with its body read from `data`.
    pub open spec fn decode_with_id(id: u8, data: Seq<u8>) -> Decoded<RespawnRequestType> {
        if id == 0x00 {
            Ok((RespawnRequestType::Screen, 0))
        } else if id == 0x01 {
            Ok((RespawnRequestType::Immediate, 0))
        } else {
            Err(DecodeFailure::CannotUnderstandValue)
        }
    }

    /// Whether `id` stands for a variant.
    pub open spec fn has_id(id: u8) -> bool {
        id == 0x00
            || id == 0x01
    }

    /// Picks the variant for `id` and reads its body from `data`. A number
    /// that stands for no variant is refused, and the error says which.
    pub fn deserialize_with_id<'a>(id: u8, data: &'a [u8]) -> (r: DeserializeResult<'a, Self>)
        ensures
            agrees(r, data@, Self::decode_with_id(id, data@)),
            !Self::has_id(id) ==> (r matches Err(DeserializeErr::CannotUnderstandValue(m))
                && m@ == invalid_message("RespawnRequestType"@, id as nat)),
    {
        proof {
            assert(data@.skip(0) =~= data@);
        }
        match id {
            0x00 => Ok(Deserialized { value: RespawnRequestType::Screen, data }),
            0x01 => Ok(Deserialized { value: RespawnRequestType::Immediate, data }),
            other => Err(DeserializeErr::CannotUnderstandValue(invalid_value_message("RespawnRequestType", other as u64))),
        }
    }

    /// Writes what follows the number.
    pub fn serialize_body<S: Serializer>(&self, to: &mut S) -> (r: SerializeResult)
        ensures
            r is Ok ==> Self::body_writable(self.deep_view()) && final(to).written() == old(
                to,
            ).written() + Self::body_of(self.deep_view()),
            old(to).infallible() ==> final(to).infallible(),
            old(to).infallible() ==> (r is Ok <==> Self::body_writable(self.deep_view())),
            old(to).infallible() && r is Err ==> (r matches Err(SerializeErr::CannotSerialize(_))),
    {
        match self {
            RespawnRequestType::Screen => {
                proof {
                    assert(old(to).written() + Seq::<u8>::empty() =~= old(to).written());
                }
                Ok(())
            },
            RespawnRequestType::Immediate => {
                proof {
                    assert(old(to).written() + Seq::<u8>::empty() =~= old(to).written());
                }
                Ok(())
            },
        }
    }
}

impl Serialize for RespawnRequestType {
    open spec fn serializable(v: RespawnRequestType) -> bool {
        Self::body_writable(v)
    }

    #[verifier::opaque]
    open spec fn encode(v: RespawnRequestType) -> Seq<u8> {
        <u8>::encode(Self::id_of(v)) + Self::body_of(v)
    }

    fn mc_serialize<S: Serializer>(&self, to: &mut S) -> (r: SerializeResult) {
        proof {
            reveal(<RespawnRequestType as Serialize>::encode);
        }
        let id_to_serialize: u8 = self.id();
        id_to_serialize.mc_serialize(to)?;
        let r = self.serialize_body(to);
        proof {
            let head = <u8>::encode(Self::id_of(self.deep_view()));
            let body = Self::body_of(self.deep_view());
            lemma_concat_assoc(old(to).written(), head, body);
        }
        r
    }
}

impl Deserialize for RespawnRequestType {
    #[verifier::opaque]
    open spec fn decode(data: Seq<u8>) -> Decoded<RespawnRequestType> {
        match <u8>::decode(data) {
            Err(e) => Err(e),
            Ok((id, n)) => match Self::decode_with_id(id, data.skip(n as int)) {
                Ok((v, m)) => Ok((v, n + m)),
                Err(e) => Err(e),
            },
        }
    }

    fn mc_deserialize(data: &[u8]) -> (r: DeserializeResult<'_, RespawnRequestType>) {
        proof {
            reveal(<RespawnRequestType as Deserialize>::decode);
        }
        let Deserialized { value: id, data: rest } = <u8>::mc_deserialize(data)?;
        let Deserialized { value, data: after } = Self::deserialize_with_id(id, rest)?;
        proof {
            lemma_skip_skip(data@, data@.len() - rest@.len(), rest@.len() - after@.len());
        }
        Ok(Deserialized { value, data: after })
    }
}

impl ProtocolType for RespawnRequestType {
    open spec fn faithful(v: RespawnRequestType) -> bool {
        match v {
            RespawnRequestType::Screen => true,
            RespawnRequestType::Immediate => true,
        }
    }

    open spec fn delimited() -> bool {
        true
    }

    proof fn lemma_round_trip(v: RespawnRequestType, rest: Seq<u8>) {
        reveal(<RespawnRequestType as Serialize>::encode);
        reveal(<RespawnRequestType as Deserialize>::decode);
        let head = <u8>::encode(Self::id_of(v));
        let body = Self::body_of(v);
        <u8>::lemma_round_trip(Self::id_of(v), body + rest);
        Self::lemma_body_round_trip(v, rest);
        lemma_concat_assoc(head, body, rest);
        lemma_skip_concat(head, body + rest);
    }
}

impl RespawnRequestType {
    /// What follows the number, written out and followed by anything, reads
    /// back under that number.
    pub proof fn lemma_body_round_trip(v: RespawnRequestType, rest: Seq<u8>)
        requires
            <Self as ProtocolType>::faithful(v),
            <Self as ProtocolType>::delimited() || rest.len() == 0,
        ensures
            Self::body_writable(v),
            Self::decode_with_id(Self::id_of(v), Self::body_of(v) + rest) == Ok::<_, DecodeFailure>(
                (v, Self::body_of(v).len()),
            ),
    {
        match v {
            RespawnRequestType::Screen => {
                assert(Seq::<u8>::empty() + rest =~= rest);
            },
            RespawnRequestType::Immediate => {
                assert(Seq::<u8>::empty() + rest =~= rest);
            },
        }
    }
}

/// A kind of icon on a map.
#[derive(PartialEq, Eq, Structural, Clone, Copy, Debug)]
pub enum MapIconType {
    WhiteArrow,
    GreenArrow,
    RedArrow,
    BlueArrow,
    WhiteCross,
    RedPointer,
    WhiteCircle,
    SmallWhiteCircle,
    Mansion,
    Temple,
    WhiteBanner,
    OrangeBanner,
    MagentaBanner,
    YellowBanner,
    LimeBanner,
    PinkBanner,
    GrayBanner,
    LightGrayBanner,
    CyanBanner,
    PurpleBanner,
    BlueBanner,
    BrownBanner,
    GreenBanner,
    RedBanner,
    BlackBanner,
    TreasureMarker,
}

impl View for MapIconType {
    type V = MapIconType;

    open spec fn view(&self) -> MapIconType {
        *self
    }
}

impl DeepView for MapIconType {
    type V = MapIconType;

    open spec fn deep_view(&self) -> MapIconType {
        *self
    }
}

impl MapIconType {
    pub fn variant_count() -> (r: usize)
        ensures
            r == 26,
    {
        26
    }

    /// The number that stands for the variant on the wire.
    pub open spec fn id_of(v: MapIconType) -> i32 {
        match v {
            MapIconType::WhiteArrow => 0x00,
            MapIconType::GreenArrow => 0x01,
            MapIconType::RedArrow => 0x02,
            MapIconType::BlueArrow => 0x03,
            MapIconType::WhiteCross => 0x04,
            MapIconType::RedPointer => 0x05,
            MapIconType::WhiteCircle => 0x06,
            MapIconType::SmallWhiteCircle => 0x07,
            MapIconType::Mansion => 0x08,
            MapIconType::Temple => 0x09,
            MapIconType::WhiteBanner => 0x0A,
            MapIconType::OrangeBanner => 0x0B,
            MapIconType::MagentaBanner => 0x0C,
            MapIconType::YellowBanner => 0x0D,
            MapIconType::LimeBanner => 0x0E,
            MapIconType::PinkBanner => 0x0F,
            MapIconType::GrayBanner => 0x10,
            MapIconType::LightGrayBanner => 0x11,
            MapIconType::CyanBanner => 0x12,
            MapIconType::PurpleBanner => 0x13,
            MapIconType::BlueBanner => 0x14,
            MapIconType::BrownBanner => 0x15,
            MapIconType::GreenBanner => 0x16,
            MapIconType::RedBanner => 0x17,
            MapIconType::BlackBanner => 0x18,
            MapIconType::TreasureMarker => 0x19,
        }
    }

    pub fn id(&self) -> (r: VarInt)
        ensures
            r == VarInt(Self::id_of(self.deep_view())),
    {
        match self {
            MapIconType::WhiteArrow => VarInt(0x00),
            MapIconType::GreenArrow => VarInt(0x01),
            MapIconType::RedArrow => VarInt(0x02),
            MapIconType::BlueArrow => VarInt(0x03),
            MapIconType::WhiteCross => VarInt(0x04),
            MapIconType::RedPointer => VarInt(0x05),
            MapIconType::WhiteCircle => VarInt(0x06),
            MapIconType::SmallWhiteCircle => VarInt(0x07),
            MapIconType::Mansion => VarInt(0x08),
            MapIconType::Temple => VarInt(0x09),
            MapIconType::WhiteBanner => VarInt(0x0A),
            MapIconType::OrangeBanner => VarInt(0x0B),
            MapIconType::MagentaBanner => VarInt(0x0C),
            MapIconType::YellowBanner => VarInt(0x0D),
            MapIconType::LimeBanner => VarInt(0x0E),
            MapIconType::PinkBanner => VarInt(0x0F),
            MapIconType::GrayBanner => VarInt(0x10),
            MapIconType::LightGrayBanner => VarInt(0x11),
            MapIconType::CyanBanner => VarInt(0x12),
            MapIconType::PurpleBanner => VarInt(0x13),
            MapIconType::BlueBanner => VarInt(0x14),
            MapIconType::BrownBanner => VarInt(0x15),
            MapIconType::GreenBanner => VarInt(0x16),
            MapIconType::RedBanner => VarInt(0x17),
            MapIconType::BlackBanner => VarInt(0x18),
            MapIconType::TreasureMarker => VarInt(0x19),
        }
    }

    pub open spec fn name_of(v: MapIconType) -> Seq<char> {
        match v {
            MapIconType::WhiteArrow => "WhiteArrow"@,
            MapIconType::GreenArrow => "GreenArrow"@,
            MapIconType::RedArrow => "RedArrow"@,
            MapIconType::BlueArrow => "BlueArrow"@,
            MapIconType::WhiteCross => "WhiteCross"@,
            MapIconType::RedPointer => "RedPointer"@,
            MapIconType::WhiteCircle => "WhiteCircle"@,
            MapIconType::SmallWhiteCircle => "SmallWhiteCircle"@,
            MapIconType::Mansion => "Mansion"@,
            MapIconType::Temple => "Temple"@,
            MapIconType::WhiteBanner => "WhiteBanner"@,
            MapIconType::OrangeBanner => "OrangeBanner"@,
            MapIconType::MagentaBanner => "MagentaBanner"@,
            MapIconType::YellowBanner => "YellowBanner"@,
            MapIconType::LimeBanner => "LimeBanner"@,
            MapIconType::PinkBanner => "PinkBanner"@,
            MapIconType::GrayBanner => "GrayBanner"@,
            MapIconType::LightGrayBanner => "LightGrayBanner"@,
            MapIconType::CyanBanner => "CyanBanner"@,
            MapIconType::PurpleBanner => "PurpleBanner"@,
            MapIconType::BlueBanner => "BlueBanner"@,
            MapIconType::BrownBanner => "BrownBanner"@,
            MapIconType::GreenBanner => "GreenBanner"@,
            MapIconType::RedBanner => "RedBanner"@,
            MapIconType::BlackBanner => "BlackBanner"@,
            MapIconType::TreasureMarker => "TreasureMarker"@,
        }
    }

    pub fn name(&self) -> (r: &'static str)
        ensures
            r@ == Self::name_of(self.deep_view()),
    {
        match self {
            MapIconType::WhiteArrow => "WhiteArrow",
            MapIconType::GreenArrow => "GreenArrow",
            MapIconType::RedArrow => "RedArrow",
            MapIconType::BlueArrow => "BlueArrow",
            MapIconType::WhiteCross => "WhiteCross",
            MapIconType::RedPointer => "RedPointer",
            MapIconType::WhiteCircle => "WhiteCircle",
            MapIconType::SmallWhiteCircle => "SmallWhiteCircle",
            MapIconType::Mansion => "Mansion",
            MapIconType::Temple => "Temple",
            MapIconType::WhiteBanner => "WhiteBanner",
            MapIconType::OrangeBanner => "OrangeBanner",
            MapIconType::MagentaBanner => "MagentaBanner",
            MapIconType::YellowBanner => "YellowBanner",
            MapIconType::LimeBanner => "LimeBanner",
            MapIconType::PinkBanner => "PinkBanner",
            MapIconType::GrayBanner => "GrayBanner",
            MapIconType::LightGrayBanner => "LightGrayBanner",
            MapIconType::CyanBanner => "CyanBanner",
            MapIconType::PurpleBanner => "PurpleBanner",
            MapIconType::BlueBanner => "BlueBanner",
            MapIconType::BrownBanner => "BrownBanner",
            MapIconType::GreenBanner => "GreenBanner",
            MapIconType::RedBanner => "RedBanner",
            MapIconType::BlackBanner => "BlackBanner",
            MapIconType::TreasureMarker => "TreasureMarker",
        }
    }

    /// The bytes that follow the number.
    pub open spec fn body_of(v: MapIconType) -> Seq<u8> {
        match v {
            MapIconType::WhiteArrow => Seq::empty(),
            MapIconType::GreenArrow => Seq::empty(),
            MapIconType::RedArrow => Seq::empty(),
            MapIconType::BlueArrow => Seq::empty(),
            MapIconType::WhiteCross => Seq::empty(),
            MapIconType::RedPointer => Seq::empty(),
            MapIconType::WhiteCircle => Seq::empty(),
            MapIconType::SmallWhiteCircle => Seq::empty(),
            MapIconType::Mansion => Seq::empty(),
            MapIconType::Temple => Seq::empty(),
            MapIconType::WhiteBanner => Seq::empty(),
            MapIconType::OrangeBanner => Seq::empty(),
            MapIconType::MagentaBanner => Seq::empty(),
            MapIconType::YellowBanner => Seq::empty(),
            MapIconType::LimeBanner => Seq::empty(),
            MapIconType::PinkBanner => Seq::empty(),
            MapIconType::GrayBanner => Seq::empty(),
            MapIconType::LightGrayBanner => Seq::empty(),
            MapIconType::CyanBanner => Seq::empty(),
            MapIconType::PurpleBanner => Seq::empty(),
            MapIconType::BlueBanner => Seq::empty(),
            MapIconType::BrownBanner => Seq::empty(),
            MapIconType::GreenBanner => Seq::empty(),
            MapIconType::RedBanner => Seq::empty(),
            MapIconType::BlackBanner => Seq::empty(),
            MapIconType::TreasureMarker => Seq::empty(),
        }
    }

    /// Whether what follows the number can be written.
    pub open spec fn body_writable(v: MapIconType) -> bool {
        match v {
            MapIconType::WhiteArrow => true,
            MapIconType::GreenArrow => true,
            MapIconType::RedArrow => true,
            MapIconType::BlueArrow => true,
            MapIconType::WhiteCross => true,
            MapIconType::RedPointer => true,
            MapIconType::WhiteCircle => true,
            MapIconType::SmallWhiteCircle => true,
            MapIconType::Mansion => true,
            MapIconType::Temple => true,
            MapIconType::WhiteBanner => true,
            MapIconType::OrangeBanner => true,
            MapIconType::MagentaBanner => true,
            MapIconType::YellowBanner => true,
            MapIconType::LimeBanner => true,
            MapIconType::PinkBanner => true,
            MapIconType::GrayBanner => true,
            MapIconType::LightGrayBanner => true,
            MapIconType::CyanBanner => true,
            MapIconType::PurpleBanner => true,
            MapIconType::BlueBanner => true,
            MapIconType::BrownBanner => true,
            MapIconType::GreenBanner => true,
            MapIconType::RedBanner => true,
            MapIconType::BlackBanner => true,
            MapIconType::TreasureMarker => true,
        }
    }

    /// The variant that `id` stands for, with its body read from `data`.
    pub open spec fn decode_with_id(id: i32, data: Seq<u8>) -> Decoded<MapIconType> {
        if id == 0x00 {
            Ok((MapIconType::WhiteArrow, 0))
        } else if id == 0x01 {
            Ok((MapIconType::GreenArrow, 0))
        } else if id == 0x02 {
            Ok((MapIconType::RedArrow, 0))
        } else if id == 0x03 {
            Ok((MapIconType::BlueArrow, 0))
        } else if id == 0x04 {
            Ok((MapIconType::WhiteCross, 0))
        } else if id == 0x05 {
            Ok((MapIconType::RedPointer, 0))
        } else if id == 0x06 {
            Ok((MapIconType::WhiteCircle, 0))
        } else if id == 0x07 {
            Ok((MapIconType::SmallWhiteCircle, 0))
        } else if id == 0x08 {
            Ok((MapIconType::Mansion, 0))
        } else if id == 0x09 {
            Ok((MapIconType::Temple, 0))
        } else if id == 0x0A {
            Ok((MapIconType::WhiteBanner, 0))
        } else if id == 0x0B {
            Ok((MapIconType::OrangeBanner, 0))
        } else if id == 0x0C {
            Ok((MapIconType::MagentaBanner, 0))
        } else if id == 0x0D {
            Ok((MapIconType::YellowBanner, 0))
        } else if id == 0x0E {
            Ok((MapIconType::LimeBanner, 0))
        } else if id == 0x0F {
            Ok((MapIconType::PinkBanner, 0))
        } else if id == 0x10 {
            Ok((MapIconType::GrayBanner, 0))
        } else if id == 0x11 {
            Ok((MapIconType::LightGrayBanner, 0))
        } else if id == 0x12 {
            Ok((MapIconType::CyanBanner, 0))
        } else if id == 0x13 {
            Ok((MapIconType::PurpleBanner, 0))
        } else if id == 0x14 {
            Ok((MapIconType::BlueBanner, 0))
        } else if id == 0x15 {
            Ok((MapIconType::BrownBanner, 0))
        } else if id == 0x16 {
            Ok((MapIconType::GreenBanner, 0))
        } else if id == 0x17 {
            Ok((MapIconType::RedBanner, 0))
        } else if id == 0x18 {
            Ok((MapIconType::BlackBanner, 0))
        } else if id == 0x19 {
            Ok((MapIconType::TreasureMarker, 0))
        } else {
            Err(DecodeFailure::CannotUnderstandValue)
        }
    }

    /// Whether `id` stands for a variant.
    pub open spec fn has_id(id: i32) -> bool {
        id == 0x00
            || id == 0x01
            || id == 0x02
            || id == 0x03
            || id == 0x04
            || id == 0x05
            || id == 0x06
            || id == 0x07
            || id == 0x08
            || id == 0x09
            || id == 0x0A
            || id == 0x0B
            || id == 0x0C
            || id == 0x0D
            || id == 0x0E
            || id == 0x0F
            || id == 0x10
            || id == 0x11
            || id == 0x12
            || id == 0x13
            || id == 0x14
            || id == 0x15
            || id == 0x16
            || id == 0x17
            || id == 0x18
            || id == 0x19
    }

    /// Picks the variant for `id` and reads its body from `data`. A number
    /// that stands for no variant is refused, and the error says which.
    pub fn deserialize_with_id<'a>(id: VarInt, data: &'a [u8]) -> (r: DeserializeResult<'a, Self>)
        ensures
            agrees(r, data@, Self::decode_with_id(id.0, data@)),
            !Self::has_id(id.0) ==> (r matches Err(DeserializeErr::CannotUnderstandValue(m))
                && m@ == invalid_int_text("MapIconType"@, id.0 as int)),
    {
        proof {
            assert(data@.skip(0) =~= data@);
        }
        match id.0 {
            0x00 => Ok(Deserialized { value: MapIconType::WhiteArrow, data }),
            0x01 => Ok(Deserialized { value: MapIconType::GreenArrow, data }),
            0x02 => Ok(Deserialized { value: MapIconType::RedArrow, data }),
            0x03 => Ok(Deserialized { value: MapIconType::BlueArrow, data }),
            0x04 => Ok(Deserialized { value: MapIconType::WhiteCross, data }),
            0x05 => Ok(Deserialized { value: MapIconType::RedPointer, data }),
            0x06 => Ok(Deserialized { value: MapIconType::WhiteCircle, data }),
            0x07 => Ok(Deserialized { value: MapIconType::SmallWhiteCircle, data }),
            0x08 => Ok(Deserialized { value: MapIconType::Mansion, data }),
            0x09 => Ok(Deserialized { value: MapIconType::Temple, data }),
            0x0A => Ok(Deserialized { value: MapIconType::WhiteBanner, data }),
            0x0B => Ok(Deserialized { value: MapIconType::OrangeBanner, data }),
            0x0C => Ok(Deserialized { value: MapIconType::MagentaBanner, data }),
            0x0D => Ok(Deserialized { value: MapIconType::YellowBanner, data }),
            0x0E => Ok(Deserialized { value: MapIconType::LimeBanner, data }),
            0x0F => Ok(Deserialized { value: MapIconType::PinkBanner, data }),
            0x10 => Ok(Deserialized { value: MapIconType::GrayBanner, data }),
            0x11 => Ok(Deserialized { value: MapIconType::LightGrayBanner, data }),
            0x12 => Ok(Deserialized { value: MapIconType::CyanBanner, data }),
            0x13 => Ok(Deserialized { value: MapIconType::PurpleBanner, data }),
            0x14 => Ok(Deserialized { value: MapIconType::BlueBanner, data }),
            0x15 => Ok(Deserialized { value: MapIconType::BrownBanner, data }),
            0x16 => Ok(Deserialized { value: MapIconType::GreenBanner, data }),
            0x17 => Ok(Deserialized { value: MapIconType::RedBanner, data }),
            0x18 => Ok(Deserialized { value: MapIconType::BlackBanner, data }),
            0x19 => Ok(Deserialized { value: MapIconType::TreasureMarker, data }),
            other => Err(DeserializeErr::CannotUnderstandValue(invalid_int_message("MapIconType", other))),
        }
    }

    /// Writes what follows the number.
    pub fn serialize_body<S: Serializer>(&self, to: &mut S) -> (r: SerializeResult)
        ensures
            r is Ok ==> Self::body_writable(self.deep_view()) && final(to).written() == old(
                to,
            ).written() + Self::body_of(self.deep_view()),
            old(to).infallible() ==> final(to).infallible(),
            old(to).infallible() ==> (r is Ok <==> Self::body_writable(self.deep_view())),
            old(to).infallible() && r is Err ==> (r matches Err(SerializeErr::CannotSerialize(_))),
    {
        match self {
            MapIconType::WhiteArrow => {
                proof {
                    assert(old(to).written() + Seq::<u8>::empty() =~= old(to).written());
                }
                Ok(())
            },
            MapIconType::GreenArrow => {
                proof {
                    assert(old(to).written() + Seq::<u8>::empty() =~= old(to).written());
                }
                Ok(())
            },
            MapIconType::RedArrow => {
                proof {
                    assert(old(to).written() + Seq::<u8>::empty() =~= old(to).written());
                }
                Ok(())
            },
            MapIconType::BlueArrow => {
                proof {
                    assert(old(to).written() + Seq::<u8>::empty() =~= old(to).written());
                }
                Ok(())
            },
            MapIconType::WhiteCross => {
                proof {
                    assert(old(to).written() + Seq::<u8>::empty() =~= old(to).written());
                }
                Ok(())
            },
            MapIconType::RedPointer => {
                proof {
                    assert(old(to).written() + Seq::<u8>::empty() =~= old(to).written());
                }
                Ok(())
            },
            MapIconType::WhiteCircle => {
                proof {
                    assert(old(to).written() + Seq::<u8>::empty() =~= old(to).written());
                }
                Ok(())
            },
            MapIconType::SmallWhiteCircle => {
                proof {
                    assert(old(to).written() + Seq::<u8>::empty() =~= old(to).written());
                }
                Ok(())
            },
            MapIconType::Mansion => {
                proof {
                    assert(old(to).written() + Seq::<u8>::empty() =~= old(to).written());
                }
                Ok(())
            },
            MapIconType::Temple => {
                proof {
                    assert(old(to).written() + Seq::<u8>::empty() =~= old(to).written());
                }
                Ok(())
            },
            MapIconType::WhiteBanner => {
                proof {
                    assert(old(to).written() + Seq::<u8>::empty() =~= old(to).written());
                }
                Ok(())
            },
            MapIconType::OrangeBanner => {
                proof {
                    assert(old(to).written() + Seq::<u8>::empty() =~= old(to).written());
                }
                Ok(())
            },
            MapIconType::MagentaBanner => {
                proof {
                    assert(old(to).written() + Seq::<u8>::empty() =~= old(to).written());
                }
                Ok(())
            },
            MapIconType::YellowBanner => {
                proof {
                    assert(old(to).written() + Seq::<u8>::empty() =~= old(to).written());
                }
                Ok(())
            },
            MapIconType::LimeBanner => {
                proof {
                    assert(old(to).written() + Seq::<u8>::empty() =~= old(to).written());
                }
                Ok(())
            },
            MapIconType::PinkBanner => {
                proof {
                    assert(old(to).written() + Seq::<u8>::empty() =~= old(to).written());
                }
                Ok(())
            },
            MapIconType::GrayBanner => {
                proof {
                    assert(old(to).written() + Seq::<u8>::empty() =~= old(to).written());
                }
                Ok(())
            },
            MapIconType::LightGrayBanner => {
                proof {
                    assert(old(to).written() + Seq::<u8>::empty() =~= old(to).written());
                }
                Ok(())
            },
            MapIconType::CyanBanner => {
                proof {
                    assert(old(to).written() + Seq::<u8>::empty() =~= old(to).written());
                }
                Ok(())
            },
            MapIconType::PurpleBanner => {
                proof {
                    assert(old(to).written() + Seq::<u8>::empty() =~= old(to).written());
                }
                Ok(())
            },
            MapIconType::BlueBanner => {
                proof {
                    assert(old(to).written() + Seq::<u8>::empty() =~= old(to).written());
                }
                Ok(())
            },
            MapIconType::BrownBanner => {
                proof {
                    assert(old(to).written() + Seq::<u8>::empty() =~= old(to).written());
                }
                Ok(())
            },
            MapIconType::GreenBanner => {
                proof {
                    assert(old(to).written() + Seq::<u8>::empty() =~= old(to).written());
                }
                Ok(())
            },
            MapIconType::RedBanner => {
                proof {
                    assert(old(to).written() + Seq::<u8>::empty() =~= old(to).written());
                }
                Ok(())
            },
            MapIconType::BlackBanner => {
                proof {
                    assert(old(to).written() + Seq::<u8>::empty() =~= old(to).written());
                }
                Ok(())
            },
            MapIconType::TreasureMarker => {
                proof {
                    assert(old(to).written() + Seq::<u8>::empty() =~= old(to).written());
                }
                Ok(())
            },
        }
    }
}

impl Serialize for MapIconType {
    open spec fn serializable(v: MapIconType) -> bool {
        Self::body_writable(v)
    }

    #[verifier::opaque]
    open spec fn encode(v: MapIconType) -> Seq<u8> {
        <VarInt>::encode(VarInt(Self::id_of(v))) + Self::body_of(v)
    }

    fn mc_serialize<S: Serializer>(&self, to: &mut S) -> (r: SerializeResult) {
        proof {
            reveal(<MapIconType as Serialize>::encode);
        }
        let id_to_serialize: VarInt = self.id();
        id_to_serialize.mc_serialize(to)?;
        let r = self.serialize_body(to);
        proof {
            let head = <VarInt>::encode(VarInt(Self::id_of(self.deep_view())));
            let body = Self::body_of(self.deep_view());
            lemma_concat_assoc(old(to).written(), head, body);
        }
        r
    }
}

impl Deserialize for MapIconType {
    #[verifier::opaque]
    open spec fn decode(data: Seq<u8>) -> Decoded<MapIconType> {
        match <VarInt>::decode(data) {
            Err(e) => Err(e),
            Ok((id, n)) => match Self::decode_with_id(id.0, data.skip(n as int)) {
                Ok((v, m)) => Ok((v, n + m)),
                Err(e) => Err(e),
            },
        }
    }

    fn mc_deserialize(data: &[u8]) -> (r: DeserializeResult<'_, MapIconType>) {
        proof {
            reveal(<MapIconType as Deserialize>::decode);
        }
        let Deserialized { value: id, data: rest } = <VarInt>::mc_deserialize(data)?;
        let Deserialized { value, data: after } = Self::deserialize_with_id(id, rest)?;
        proof {
            lemma_skip_skip(data@, data@.len() - rest@.len(), rest@.len() - after@.len());
        }
        Ok(Deserialized { value, data: after })
    }
}

impl ProtocolType for MapIconType {
    open spec fn faithful(v: MapIconType) -> bool {
        match v {
            MapIconType::WhiteArrow => true,
            MapIconType::GreenArrow => true,
            MapIconType::RedArrow => true,
            MapIconType::BlueArrow => true,
            MapIconType::WhiteCross => true,
            MapIconType::RedPointer => true,
            MapIconType::WhiteCircle => true,
            MapIconType::SmallWhiteCircle => true,
            MapIconType::Mansion => true,
            MapIconType::Temple => true,
            MapIconType::WhiteBanner => true,
            MapIconType::OrangeBanner => true,
            MapIconType::MagentaBanner => true,
            MapIconType::YellowBanner => true,
            MapIconType::LimeBanner => true,
            MapIconType::PinkBanner => true,
            MapIconType::GrayBanner => true,
            MapIconType::LightGrayBanner => true,
            MapIconType::CyanBanner => true,
            MapIconType::PurpleBanner => true,
            MapIconType::BlueBanner => true,
            MapIconType::BrownBanner => true,
            MapIconType::GreenBanner => true,
            MapIconType::RedBanner => true,
            MapIconType::BlackBanner => true,
            MapIconType::TreasureMarker => true,
        }
    }

    open spec fn delimited() -> bool {
        true
    }

    proof fn lemma_round_trip(v: MapIconType, rest: Seq<u8>) {
        reveal(<MapIconType as Serialize>::encode);
        reveal(<MapIconType as Deserialize>::decode);
        let head = <VarInt>::encode(VarInt(Self::id_of(v)));
        let body = Self::body_of(v);
        <VarInt>::lemma_round_trip(VarInt(Self::id_of(v)), body + rest);
        Self::lemma_body_round_trip(v, rest);
        lemma_concat_assoc(head, body, rest);
        lemma_skip_concat(head, body + rest);
    }
}

impl MapIconType {
    /// What follows the number, written out and followed by anything, reads
    /// back under that number.
    pub proof fn lemma_body_round_trip(v: MapIconType, rest: Seq<u8>)
        requires
            <Self as ProtocolType>::faithful(v),
            <Self as ProtocolType>::delimited() || rest.len() == 0,
        ensures
            Self::body_writable(v),
            Self::decode_with_id(Self::id_of(v), Self::body_of(v) + rest) == Ok::<_, DecodeFailure>(
                (v, Self::body_of(v).len()),
            ),
    {
        match v {
            MapIconType::WhiteArrow => {
                assert(Seq::<u8>::empty() + rest =~= rest);
            },
            MapIconType::GreenArrow => {
                assert(Seq::<u8>::empty() + rest =~= rest);
            },
            MapIconType::RedArrow => {
                assert(Seq::<u8>::empty() + rest =~= rest);
            },
            MapIconType::BlueArrow => {
                assert(Seq::<u8>::empty() + rest =~= rest);
            },
            MapIconType::WhiteCross => {
                assert(Seq::<u8>::empty() + rest =~= rest);
            },
            MapIconType::RedPointer => {
                assert(Seq::<u8>::empty() + rest =~= rest);
            },
            MapIconType::WhiteCircle => {
                assert(Seq::<u8>::empty() + rest =~= rest);
            },
            MapIconType::SmallWhiteCircle => {
                assert(Seq::<u8>::empty() + rest =~= rest);
            },
            MapIconType::Mansion => {
                assert(Seq::<u8>::empty() + rest =~= rest);
            },
            MapIconType::Temple => {
                assert(Seq::<u8>::empty() + rest =~= rest);
            },
            MapIconType::WhiteBanner => {
                assert(Seq::<u8>::empty() + rest =~= rest);
            },
            MapIconType::OrangeBanner => {
                assert(Seq::<u8>::empty() + rest =~= rest);
            },
            MapIconType::MagentaBanner => {
                assert(Seq::<u8>::empty() + rest =~= rest);
            },
            MapIconType::YellowBanner => {
                assert(Seq::<u8>::empty() + rest =~= rest);
            },
            MapIconType::LimeBanner => {
                assert(Seq::<u8>::empty() + rest =~= rest);
            },
            MapIconType::PinkBanner => {
                assert(Seq::<u8>::empty() + rest =~= rest);
            },
            MapIconType::GrayBanner => {
                assert(Seq::<u8>::empty() + rest =~= rest);
            },
            MapIconType::LightGrayBanner => {
                assert(Seq::<u8>::empty() + rest =~= rest);
            },
            MapIconType::CyanBanner => {
                assert(Seq::<u8>::empty() + rest =~= rest);
            },
            MapIconType::PurpleBanner => {
                assert(Seq::<u8>::empty() + rest =~= rest);
            },
            MapIconType::BlueBanner => {
                assert(Seq::<u8>::empty() + rest =~= rest);
            },
            MapIconType::BrownBanner => {
                assert(Seq::<u8>::empty() + rest =~= rest);
            },
            MapIconType::GreenBanner => {
                assert(Seq::<u8>::empty() + rest =~= rest);
            },
            MapIconType::RedBanner => {
                assert(Seq::<u8>::empty() + rest =~= rest);
            },
            MapIconType::BlackBanner => {
                assert(Seq::<u8>::empty() + rest =~= rest);
            },
            MapIconType::TreasureMarker => {
                assert(Seq::<u8>::empty() + rest =~= rest);
            },
        }
    }
}

/// An icon on a map.
#[derive(Debug, Clone, PartialEq)]
pub struct MapIconSpec {
    pub kind: MapIconType,
    pub position: TopDownPosition<i8>,
    pub direction: i8,
    /// The display name, as the JSON text of a chat component.
    pub display_name: Option<String>,
}

/// The mathematical content of a [`MapIconSpec`].
pub struct MapIconSpecView {
    pub kind: <MapIconType as DeepView>::V,
    pub position: <TopDownPosition<i8> as DeepView>::V,
    pub direction: i8,
    pub display_name: <Option<String> as DeepView>::V,
}

impl DeepView for MapIconSpec {
    type V = MapIconSpecView;

    open spec fn deep_view(&self) -> MapIconSpecView {
        MapIconSpecView {
            kind: self.kind.deep_view(),
            position: self.position.deep_view(),
            direction: self.direction.deep_view(),
            display_name: self.display_name.deep_view(),
        }
    }
}

impl Serialize for MapIconSpec {
    open spec fn serializable(v: MapIconSpecView) -> bool {
        MapIconType::serializable(v.kind) && <TopDownPosition<i8>>::serializable(v.position) && i8::serializable(v.direction) && <Option<String>>::serializable(v.display_name)
    }

    #[verifier::opaque]
    open spec fn encode(v: MapIconSpecView) -> Seq<u8> {
        MapIconType::encode(v.kind) + <TopDownPosition<i8>>::encode(v.position) + i8::encode(v.direction) + <Option<String>>::encode(v.display_name)
    }

    fn mc_serialize<S: Serializer>(&self, to: &mut S) -> (r: SerializeResult) {
        proof {
            reveal(<MapIconSpec as Serialize>::encode);
        }
        self.kind.mc_serialize(to)?;
        self.position.mc_serialize(to)?;
        self.direction.mc_serialize(to)?;
        self.display_name.mc_serialize(to)?;
        proof {
            let v = self.deep_view();
            let w = old(to).written();
            let e0 = MapIconType::encode(v.kind);
            let e1 = <TopDownPosition<i8>>::encode(v.position);
            let e2 = i8::encode(v.direction);
            let e3 = <Option<String>>::encode(v.display_name);
            let l0 = e0;
            let l1 = l0 + e1;
            let l2 = l1 + e2;
            let l3 = l2 + e3;
            lemma_concat_assoc(w, l0, e1);
            lemma_concat_assoc(w, l1, e2);
            lemma_concat_assoc(w, l2, e3);
        }
        Ok(())
    }
}

impl Deserialize for MapIconSpec {
    #[verifier::opaque]
    open spec fn decode(data: Seq<u8>) -> Decoded<MapIconSpecView> {
        match MapIconType::decode(data) {
            Err(e) => Err(e),
            Ok((kind, n0)) => {
                match <TopDownPosition<i8>>::decode(data.skip((n0) as int)) {
                    Err(e) => Err(e),
                    Ok((position, n1)) => {
                        match i8::decode(data.skip((n0 + n1) as int)) {
                            Err(e) => Err(e),
                            Ok((direction, n2)) => {
                                match <Option<String>>::decode(data.skip((n0 + n1 + n2) as int)) {
                                    Err(e) => Err(e),
                                    Ok((display_name, n3)) => Ok((MapIconSpecView { kind, position, direction, display_name }, n0 + n1 + n2 + n3)),
                                }
                            },
                        }
                    },
                }
            },
        }
    }

    fn mc_deserialize(data: &[u8]) -> (r: DeserializeResult<'_, MapIconSpec>) {
        proof {
            reveal(<MapIconSpec as Deserialize>::decode);
        }
        let ghost whole = data@;
        let Deserialized { value: kind, data: rest0 } = MapIconType::mc_deserialize(data)?;
        let Deserialized { value: position, data: rest1 } = <TopDownPosition<i8>>::mc_deserialize(rest0)?;
        proof {
            lemma_skip_skip(
                whole,
                whole.len() - rest0@.len(),
                rest0@.len() - rest1@.len(),
            );
        }
        let Deserialized { value: direction, data: rest2 } = i8::mc_deserialize(rest1)?;
        proof {
            lemma_skip_skip(
                whole,
                whole.len() - rest1@.len(),
                rest1@.len() - rest2@.len(),
            );
        }
        let Deserialized { value: display_name, data: rest3 } = <Option<String>>::mc_deserialize(rest2)?;
        proof {
            lemma_skip_skip(
                whole,
                whole.len() - rest2@.len(),
                rest2@.len() - rest3@.len(),
            );
        }
        Ok(Deserialized { value: MapIconSpec { kind, position, direction, display_name }, data: rest3 })
    }
}

impl ProtocolType for MapIconSpec {
    open spec fn faithful(v: MapIconSpecView) -> bool {
        MapIconType::faithful(v.kind) && <TopDownPosition<i8>>::faithful(v.position) && i8::faithful(v.direction) && <Option<String>>::faithful(v.display_name)
    }

    open spec fn delimited() -> bool {
        <Option<String>>::delimited()
    }

    proof fn lemma_round_trip(v: MapIconSpecView, rest: Seq<u8>) {
        reveal(<MapIconSpec as Serialize>::encode);
        reveal(<MapIconSpec as Deserialize>::decode);
        let e0 = MapIconType::encode(v.kind);
        let e1 = <TopDownPosition<i8>>::encode(v.position);
        let e2 = i8::encode(v.direction);
        let e3 = <Option<String>>::encode(v.display_name);
        let data = Self::encode(v) + rest;
        let t4 = rest;
        let t3 = e3 + t4;
        let t2 = e2 + t3;
        let t1 = e1 + t2;
        let t0 = e0 + t1;
        let l0 = e0;
        let l1 = l0 + e1;
        let l2 = l1 + e2;
        let l3 = l2 + e3;
        lemma_concat_assoc(l2, e3, t4);
        lemma_concat_assoc(l1, e2, t3);
        lemma_concat_assoc(l0, e1, t2);
        assert(data == t0);
        MapIconType::lemma_round_trip(v.kind, t1);
        lemma_skip_concat(e0, t1);
        <TopDownPosition<i8>>::lemma_round_trip(v.position, t2);
        lemma_skip_more(data, (e0.len()) as int, e1, t2);
        i8::lemma_round_trip(v.direction, t3);
        lemma_skip_more(data, (e0.len() + e1.len()) as int, e2, t3);
        <Option<String>>::lemma_round_trip(v.display_name, t4);
        lemma_skip_more(data, (e0.len() + e1.len() + e2.len()) as int, e3, t4);
    }
}

/// One trade that a villager offers.
#[derive(Debug, Clone, PartialEq)]
pub struct TradeSpec {
    pub input_item_1: Slot,
    pub output_item: Slot,
    pub input_item_2: Slot,
    pub trade_disabled: bool,
    pub trade_uses: i32,
    pub max_trade_uses: i32,
    pub xp: i32,
    pub special_price: i32,
    /// The price multiplier, as the bit pattern of a 32-bit float.
    pub price_multiplier: u32,
    pub demand: i32,
}

/// The mathematical content of a [`TradeSpec`].
pub struct TradeSpecView {
    pub input_item_1: <Slot as DeepView>::V,
    pub output_item: <Slot as DeepView>::V,
    pub input_item_2: <Slot as DeepView>::V,
    pub trade_disabled: bool,
    pub trade_uses: i32,
    pub max_trade_uses: i32,
    pub xp: i32,
    pub special_price: i32,
    pub price_multiplier: u32,
    pub demand: i32,
}

impl DeepView for TradeSpec {
    type V = TradeSpecView;

    open spec fn deep_view(&self) -> TradeSpecView {
        TradeSpecView {
            input_item_1: self.input_item_1.deep_view(),
            output_item: self.output_item.deep_view(),
            input_item_2: self.input_item_2.deep_view(),
            trade_disabled: self.trade_disabled.deep_view(),
            trade_uses: self.trade_uses.deep_view(),
            max_trade_uses: self.max_trade_uses.deep_view(),
            xp: self.xp.deep_view(),
            special_price: self.special_price.deep_view(),
            price_multiplier: self.price_multiplier.deep_view(),
            demand: self.demand.deep_view(),
        }
    }
}

impl Serialize for TradeSpec {
    open spec fn serializable(v: TradeSpecView) -> bool {
        <Slot>::serializable(v.input_item_1) && <Slot>::serializable(v.output_item) && <Slot>::serializable(v.input_item_2) && bool::serializable(v.trade_disabled) && i32::serializable(v.trade_uses) && i32::serializable(v.max_trade_uses) && i32::serializable(v.xp) && i32::serializable(v.special_price) && u32::serializable(v.price_multiplier) && i32::serializable(v.demand)
    }

    #[verifier::opaque]
    open spec fn encode(v: TradeSpecView) -> Seq<u8> {
        <Slot>::encode(v.input_item_1) + <Slot>::encode(v.output_item) + <Slot>::encode(v.input_item_2) + bool::encode(v.trade_disabled) + i32::encode(v.trade_uses) + i32::encode(v.max_trade_uses) + i32::encode(v.xp) + i32::encode(v.special_price) + u32::encode(v.price_multiplier) + i32::encode(v.demand)
    }

    fn mc_serialize<S: Serializer>(&self, to: &mut S) -> (r: SerializeResult) {
        proof {
            reveal(<TradeSpec as Serialize>::encode);
        }
        self.input_item_1.mc_serialize(to)?;
        self.output_item.mc_serialize(to)?;
        self.input_item_2.mc_serialize(to)?;
        self.trade_disabled.mc_serialize(to)?;
        self.trade_uses.mc_serialize(to)?;
        self.max_trade_uses.mc_serialize(to)?;
        self.xp.mc_serialize(to)?;
        self.special_price.mc_serialize(to)?;
        self.price_multiplier.mc_serialize(to)?;
        self.demand.mc_serialize(to)?;
        proof {
            let v = self.deep_view();
            let w = old(to).written();
            let e0 = <Slot>::encode(v.input_item_1);
            let e1 = <Slot>::encode(v.output_item);
            let e2 = <Slot>::encode(v.input_item_2);
            let e3 = bool::encode(v.trade_disabled);
            let e4 = i32::encode(v.trade_uses);
            let e5 = i32::encode(v.max_trade_uses);
            let e6 = i32::encode(v.xp);
            let e7 = i32::encode(v.special_price);
            let e8 = u32::encode(v.price_multiplier);
            let e9 = i32::encode(v.demand);
            let l0 = e0;
            let l1 = l0 + e1;
            let l2 = l1 + e2;
            let l3 = l2 + e3;
            let l4 = l3 + e4;
            let l5 = l4 + e5;
            let l6 = l5 + e6;
            let l7 = l6 + e7;
            let l8 = l7 + e8;
            let l9 = l8 + e9;
            lemma_concat_assoc(w, l0, e1);
            lemma_concat_assoc(w, l1, e2);
            lemma_concat_assoc(w, l2, e3);
            lemma_concat_assoc(w, l3, e4);
            lemma_concat_assoc(w, l4, e5);
            lemma_concat_assoc(w, l5, e6);
            lemma_concat_assoc(w, l6, e7);
            lemma_concat_assoc(w, l7, e8);
            lemma_concat_assoc(w, l8, e9);
        }
        Ok(())
    }
}

impl Deserialize for TradeSpec {
    #[verifier::opaque]
    open spec fn decode(data: Seq<u8>) -> Decoded<TradeSpecView> {
        match <Slot>::decode(data) {
            Err(e) => Err(e),
            Ok((input_item_1, n0)) => {
                match <Slot>::decode(data.skip((n0) as int)) {
                    Err(e) => Err(e),
                    Ok((output_item, n1)) => {
                        match <Slot>::decode(data.skip((n0 + n1) as int)) {
                            Err(e) => Err(e),
                            Ok((input_item_2, n2)) => {
                                match bool::decode(data.skip((n0 + n1 + n2) as int)) {
                                    Err(e) => Err(e),
                                    Ok((trade_disabled, n3)) => {
                                        match i32::decode(data.skip((n0 + n1 + n2 + n3) as int)) {
                                            Err(e) => Err(e),
                                            Ok((trade_uses, n4)) => {
                                                match i32::decode(data.skip((n0 + n1 + n2 + n3 + n4) as int)) {
                                                    Err(e) => Err(e),
                                                    Ok((max_trade_uses, n5)) => {
                                                        match i32::decode(data.skip((n0 + n1 + n2 + n3 + n4 + n5) as int)) {
                                                            Err(e) => Err(e),
                                                            Ok((xp, n6)) => {
                                                                match i32::decode(data.skip((n0 + n1 + n2 + n3 + n4 + n5 + n6) as int)) {
                                                                    Err(e) => Err(e),
                                                                    Ok((special_price, n7)) => {
                                                                        match u32::decode(data.skip((n0 + n1 + n2 + n3 + n4 + n5 + n6 + n7) as int)) {
                                                                            Err(e) => Err(e),
                                                                            Ok((price_multiplier, n8)) => {
                                                                                match i32::decode(data.skip((n0 + n1 + n2 + n3 + n4 + n5 + n6 + n7 + n8) as int)) {
                                                                                    Err(e) => Err(e),
                                                                                    Ok((demand, n9)) => Ok((TradeSpecView { input_item_1, output_item, input_item_2, trade_disabled, trade_uses, max_trade_uses, xp, special_price, price_multiplier, demand }, n0 + n1 + n2 + n3 + n4 + n5 + n6 + n7 + n8 + n9)),
                                                                                }
                                                                            },
                                                                        }
                                                                    },
                                                                }
                                                            },
                                                        }
                                                    },
                                                }
                                            },
                                        }
                                    },
                                }
                            },
                        }
                    },
                }
            },
        }
    }

    fn mc_deserialize(data: &[u8]) -> (r: DeserializeResult<'_, TradeSpec>) {
        proof {
            reveal(<TradeSpec as Deserialize>::decode);
        }
        let ghost whole = data@;
        let Deserialized { value: input_item_1, data: rest0 } = <Slot>::mc_deserialize(data)?;
        let Deserialized { value: output_item, data: rest1 } = <Slot>::mc_deserialize(rest0)?;
        proof {
            lemma_skip_skip(
                whole,
                whole.len() - rest0@.len(),
                rest0@.len() - rest1@.len(),
            );
        }
        let Deserialized { value: input_item_2, data: rest2 } = <Slot>::mc_deserialize(rest1)?;
        proof {
            lemma_skip_skip(
                whole,
                whole.len() - rest1@.len(),
                rest1@.len() - rest2@.len(),
            );
        }
        let Deserialized { value: trade_disabled, data: rest3 } = bool::mc_deserialize(rest2)?;
        proof {
            lemma_skip_skip(
                whole,
                whole.len() - rest2@.len(),
                rest2@.len() - rest3@.len(),
            );
        }
        let Deserialized { value: trade_uses, data: rest4 } = i32::mc_deserialize(rest3)?;
        proof {
            lemma_skip_skip(
                whole,
                whole.len() - rest3@.len(),
                rest3@.len() - rest4@.len(),
            );
        }
        let Deserialized { value: max_trade_uses, data: rest5 } = i32::mc_deserialize(rest4)?;
        proof {
            lemma_skip_skip(
                whole,
                whole.len() - rest4@.len(),
                rest4@.len() - rest5@.len(),
            );
        }
        let Deserialized { value: xp, data: rest6 } = i32::mc_deserialize(rest5)?;
        proof {
            lemma_skip_skip(
                whole,
                whole.len() - rest5@.len(),
                rest5@.len() - rest6@.len(),
            );
        }
        let Deserialized { value: special_price, data: rest7 } = i32::mc_deserialize(rest6)?;
        proof {
            lemma_skip_skip(
                whole,
                whole.len() - rest6@.len(),
                rest6@.len() - rest7@.len(),
            );
        }
        let Deserialized { value: price_multiplier, data: rest8 } = u32::mc_deserialize(rest7)?;
        proof {
            lemma_skip_skip(
                whole,
                whole.len() - rest7@.len(),
                rest7@.len() - rest8@.len(),
            );
        }
        let Deserialized { value: demand, data: rest9 } = i32::mc_deserialize(rest8)?;
        proof {
            lemma_skip_skip(
                whole,
                whole.len() - rest8@.len(),
                rest8@.len() - rest9@.len(),
            );
        }
        Ok(Deserialized { value: TradeSpec { input_item_1, output_item, input_item_2, trade_disabled, trade_uses, max_trade_uses, xp, special_price, price_multiplier, demand }, data: rest9 })
    }
}

impl ProtocolType for TradeSpec {
    open spec fn faithful(v: TradeSpecView) -> bool {
        <Slot>::faithful(v.input_item_1) && <Slot>::faithful(v.output_item) && <Slot>::faithful(v.input_item_2) && bool::faithful(v.trade_disabled) && i32::faithful(v.trade_uses) && i32::faithful(v.max_trade_uses) && i32::faithful(v.xp) && i32::faithful(v.special_price) && u32::faithful(v.price_multiplier) && i32::faithful(v.demand)
    }

    open spec fn delimited() -> bool {
        i32::delimited()
    }

    #[verifier::rlimit(60)]
    proof fn lemma_round_trip(v: TradeSpecView, rest: Seq<u8>) {
        reveal(<TradeSpec as Serialize>::encode);
        reveal(<TradeSpec as Deserialize>::decode);
        let e0 = <Slot>::encode(v.input_item_1);
        let e1 = <Slot>::encode(v.output_item);
        let e2 = <Slot>::encode(v.input_item_2);
        let e3 = bool::encode(v.trade_disabled);
        let e4 = i32::encode(v.trade_uses);
        let e5 = i32::encode(v.max_trade_uses);
        let e6 = i32::encode(v.xp);
        let e7 = i32::encode(v.special_price);
        let e8 = u32::encode(v.price_multiplier);
        let e9 = i32::encode(v.demand);
        let data = Self::encode(v) + rest;
        let t10 = rest;
        let t9 = e9 + t10;
        let t8 = e8 + t9;
        let t7 = e7 + t8;
        let t6 = e6 + t7;
        let t5 = e5 + t6;
        let t4 = e4 + t5;
        let t3 = e3 + t4;
        let t2 = e2 + t3;
        let t1 = e1 + t2;
        let t0 = e0 + t1;
        let l0 = e0;
        let l1 = l0 + e1;
        let l2 = l1 + e2;
        let l3 = l2 + e3;
        let l4 = l3 + e4;
        let l5 = l4 + e5;
        let l6 = l5 + e6;
        let l7 = l6 + e7;
        let l8 = l7 + e8;
        let l9 = l8 + e9;
        lemma_concat_assoc(l8, e9, t10);
        lemma_concat_assoc(l7, e8, t9);
        lemma_concat_assoc(l6, e7, t8);
        lemma_concat_assoc(l5, e6, t7);
        lemma_concat_assoc(l4, e5, t6);
        lemma_concat_assoc(l3, e4, t5);
        lemma_concat_assoc(l2, e3, t4);
        lemma_concat_assoc(l1, e2, t3);
        lemma_concat_assoc(l0, e1, t2);
        assert(data == t0);
        <Slot>::lemma_round_trip(v.input_item_1, t1);
        lemma_skip_concat(e0, t1);
        <Slot>::lemma_round_trip(v.output_item, t2);
        lemma_skip_more(data, (e0.len()) as int, e1, t2);
        <Slot>::lemma_round_trip(v.input_item_2, t3);
        lemma_skip_more(data, (e0.len() + e1.len()) as int, e2, t3);
        bool::lemma_round_trip(v.trade_disabled, t4);
        lemma_skip_more(data, (e0.len() + e1.len() + e2.len()) as int, e3, t4);
        i32::lemma_round_trip(v.trade_uses, t5);
        lemma_skip_more(data, (e0.len() + e1.len() + e2.len() + e3.len()) as int, e4, t5);
        i32::lemma_round_trip(v.max_trade_uses, t6);
        lemma_skip_more(data, (e0.len() + e1.len() + e2.len() + e3.len() + e4.len()) as int, e5, t6);
        i32::lemma_round_trip(v.xp, t7);
        lemma_skip_more(data, (e0.len() + e1.len() + e2.len() + e3.len() + e4.len() + e5.len()) as int, e6, t7);
        i32::lemma_round_trip(v.special_price, t8);
        lemma_skip_more(data, (e0.len() + e1.len() + e2.len() + e3.len() + e4.len() + e5.len() + e6.len()) as int, e7, t8);
        u32::lemma_round_trip(v.price_multiplier, t9);
        lemma_skip_more(data, (e0.len() + e1.len() + e2.len() + e3.len() + e4.len() + e5.len() + e6.len() + e7.len()) as int, e8, t9);
        i32::lemma_round_trip(v.demand, t10);
        lemma_skip_more(data, (e0.len() + e1.len() + e2.len() + e3.len() + e4.len() + e5.len() + e6.len() + e7.len() + e8.len()) as int, e9, t10);
    }
}

/// A kind of window that the server opens at the client.
#[derive(PartialEq, Eq, Structural, Clone, Copy, Debug)]
pub enum WindowType {
    GenericOneRow,
    GenericTwoRow,
    GenericThreeRow,
    GenericFourRow,
    GenericFiveRow,
    GenericSixRow,
    GenericSquare,
    Anvil,
    Beacon,
    BlastFurnace,
    BrewingStand,
    CraftingTable,
    EnchantmentTable,
    Furnace,
    Grindstone,
    Hopper,
    Lectern,
    Loom,
    Merchant,
    ShulkerBox,
    Smoker,
    Cartography,
    StoneCutter,
}

impl View for WindowType {
    type V = WindowType;

    open spec fn view(&self) -> WindowType {
        *self
    }
}

impl DeepView for WindowType {
    type V = WindowType;

    open spec fn deep_view(&self) -> WindowType {
        *self
    }
}

impl WindowType {
    pub fn variant_count() -> (r: usize)
        ensures
            r == 23,
    {
        23
    }

    /// The number that stands for the variant on the wire.
    pub open spec fn id_of(v: WindowType) -> i32 {
        match v {
            WindowType::GenericOneRow => 0x00,
            WindowType::GenericTwoRow => 0x01,
            WindowType::GenericThreeRow => 0x02,
            WindowType::GenericFourRow => 0x03,
            WindowType::GenericFiveRow => 0x04,
            WindowType::GenericSixRow => 0x05,
            WindowType::GenericSquare => 0x06,
            WindowType::Anvil => 0x07,
            WindowType::Beacon => 0x08,
            WindowType::BlastFurnace => 0x09,
            WindowType::BrewingStand => 0x0A,
            WindowType::CraftingTable => 0x0B,
            WindowType::EnchantmentTable => 0x0C,
            WindowType::Furnace => 0x0D,
            WindowType::Grindstone => 0x0E,
            WindowType::Hopper => 0x0F,
            WindowType::Lectern => 0x10,
            WindowType::Loom => 0x11,
            WindowType::Merchant => 0x12,
            WindowType::ShulkerBox => 0x13,
            WindowType::Smoker => 0x14,
            WindowType::Cartography => 0x15,
            WindowType::StoneCutter => 0x16,
        }
    }

    pub fn id(&self) -> (r: VarInt)
        ensures
            r == VarInt(Self::id_of(self.deep_view())),
    {
        match self {
            WindowType::GenericOneRow => VarInt(0x00),
            WindowType::GenericTwoRow => VarInt(0x01),
            WindowType::GenericThreeRow => VarInt(0x02),
            WindowType::GenericFourRow => VarInt(0x03),
            WindowType::GenericFiveRow => VarInt(0x04),
            WindowType::GenericSixRow => VarInt(0x05),
            WindowType::GenericSquare => VarInt(0x06),
            WindowType::Anvil => VarInt(0x07),
            WindowType::Beacon => VarInt(0x08),
            WindowType::BlastFurnace => VarInt(0x09),
            WindowType::BrewingStand => VarInt(0x0A),
            WindowType::CraftingTable => VarInt(0x0B),
            WindowType::EnchantmentTable => VarInt(0x0C),
            WindowType::Furnace => VarInt(0x0D),
            WindowType::Grindstone => VarInt(0x0E),
            WindowType::Hopper => VarInt(0x0F),
            WindowType::Lectern => VarInt(0x10),
            WindowType::Loom => VarInt(0x11),
            WindowType::Merchant => VarInt(0x12),
            WindowType::ShulkerBox => VarInt(0x13),
            WindowType::Smoker => VarInt(0x14),
            WindowType::Cartography => VarInt(0x15),
            WindowType::StoneCutter => VarInt(0x16),
        }
    }

    pub open spec fn name_of(v: WindowType) -> Seq<char> {
        match v {
            WindowType::GenericOneRow => "GenericOneRow"@,
            WindowType::GenericTwoRow => "GenericTwoRow"@,
            WindowType::GenericThreeRow => "GenericThreeRow"@,
            WindowType::GenericFourRow => "GenericFourRow"@,
            WindowType::GenericFiveRow => "GenericFiveRow"@,
            WindowType::GenericSixRow => "GenericSixRow"@,
            WindowType::GenericSquare => "GenericSquare"@,
            WindowType::Anvil => "Anvil"@,
            WindowType::Beacon => "Beacon"@,
            WindowType::BlastFurnace => "BlastFurnace"@,
            WindowType::BrewingStand => "BrewingStand"@,
            WindowType::CraftingTable => "CraftingTable"@,
            WindowType::EnchantmentTable => "EnchantmentTable"@,
            WindowType::Furnace => "Furnace"@,
            WindowType::Grindstone => "Grindstone"@,
            WindowType::Hopper => "Hopper"@,
            WindowType::Lectern => "Lectern"@,
            WindowType::Loom => "Loom"@,
            WindowType::Merchant => "Merchant"@,
            WindowType::ShulkerBox => "ShulkerBox"@,
            WindowType::Smoker => "Smoker"@,
            WindowType::Cartography => "Cartography"@,
            WindowType::StoneCutter => "StoneCutter"@,
        }
    }

    pub fn name(&self) -> (r: &'static str)
        ensures
            r@ == Self::name_of(self.deep_view()),
    {
        match self {
            WindowType::GenericOneRow => "GenericOneRow",
            WindowType::GenericTwoRow => "GenericTwoRow",
            WindowType::GenericThreeRow => "GenericThreeRow",
            WindowType::GenericFourRow => "GenericFourRow",
            WindowType::GenericFiveRow => "GenericFiveRow",
            WindowType::GenericSixRow => "GenericSixRow",
            WindowType::GenericSquare => "GenericSquare",
            WindowType::Anvil => "Anvil",
            WindowType::Beacon => "Beacon",
            WindowType::BlastFurnace => "BlastFurnace",
            WindowType::BrewingStand => "BrewingStand",
            WindowType::CraftingTable => "CraftingTable",
            WindowType::EnchantmentTable => "EnchantmentTable",
            WindowType::Furnace => "Furnace",
            WindowType::Grindstone => "Grindstone",
            WindowType::Hopper => "Hopper",
            WindowType::Lectern => "Lectern",
            WindowType::Loom => "Loom",
            WindowType::Merchant => "Merchant",
            WindowType::ShulkerBox => "ShulkerBox",
            WindowType::Smoker => "Smoker",
            WindowType::Cartography => "Cartography",
            WindowType::StoneCutter => "StoneCutter",
        }
    }

    /// The bytes that follow the number.
    pub open spec fn body_of(v: WindowType) -> Seq<u8> {
        match v {
            WindowType::GenericOneRow => Seq::empty(),
            WindowType::GenericTwoRow => Seq::empty(),
            WindowType::GenericThreeRow => Seq::empty(),
            WindowType::GenericFourRow => Seq::empty(),
            WindowType::GenericFiveRow => Seq::empty(),
            WindowType::GenericSixRow => Seq::empty(),
            WindowType::GenericSquare => Seq::empty(),
            WindowType::Anvil => Seq::empty(),
            WindowType::Beacon => Seq::empty(),
            WindowType::BlastFurnace => Seq::empty(),
            WindowType::BrewingStand => Seq::empty(),
            WindowType::CraftingTable => Seq::empty(),
            WindowType::EnchantmentTable => Seq::empty(),
            WindowType::Furnace => Seq::empty(),
            WindowType::Grindstone => Seq::empty(),
            WindowType::Hopper => Seq::empty(),
            WindowType::Lectern => Seq::empty(),
            WindowType::Loom => Seq::empty(),
            WindowType::Merchant => Seq::empty(),
            WindowType::ShulkerBox => Seq::empty(),
            WindowType::Smoker => Seq::empty(),
            WindowType::Cartography => Seq::empty(),
            WindowType::StoneCutter => Seq::empty(),
        }
    }

    /// Whether what follows the number can be written.
    pub open spec fn body_writable(v: WindowType) -> bool {
        match v {
            WindowType::GenericOneRow => true,
            WindowType::GenericTwoRow => true,
            WindowType::GenericThreeRow => true,
            WindowType::GenericFourRow => true,
            WindowType::GenericFiveRow => true,
            WindowType::GenericSixRow => true,
            WindowType::GenericSquare => true,
            WindowType::Anvil => true,
            WindowType::Beacon => true,
            WindowType::BlastFurnace => true,
            WindowType::BrewingStand => true,
            WindowType::CraftingTable => true,
            WindowType::EnchantmentTable => true,
            WindowType::Furnace => true,
            WindowType::Grindstone => true,
            WindowType::Hopper => true,
            WindowType::Lectern => true,
            WindowType::Loom => true,
            WindowType::Merchant => true,
            WindowType::ShulkerBox => true,
            WindowType::Smoker => true,
            WindowType::Cartography => true,
            WindowType::StoneCutter => true,
        }
    }

    /// The variant that `id` stands for, with its body read from `data`.
    pub open spec fn decode_with_id(id: i32, data: Seq<u8>) -> Decoded<WindowType> {
        if id == 0x00 {
            Ok((WindowType::GenericOneRow, 0))
        } else if id == 0x01 {
            Ok((WindowType::GenericTwoRow, 0))
        } else if id == 0x02 {
            Ok((WindowType::GenericThreeRow, 0))
        } else if id == 0x03 {
            Ok((WindowType::GenericFourRow, 0))
        } else if id == 0x04 {
            Ok((WindowType::GenericFiveRow, 0))
        } else if id == 0x05 {
            Ok((WindowType::GenericSixRow, 0))
        } else if id == 0x06 {
            Ok((WindowType::GenericSquare, 0))
        } else if id == 0x07 {
            Ok((WindowType::Anvil, 0))
        } else if id == 0x08 {
            Ok((WindowType::Beacon, 0))
        } else if id == 0x09 {
            Ok((WindowType::BlastFurnace, 0))
        } else if id == 0x0A {
            Ok((WindowType::BrewingStand, 0))
        } else if id == 0x0B {
            Ok((WindowType::CraftingTable, 0))
        } else if id == 0x0C {
            Ok((WindowType::EnchantmentTable, 0))
        } else if id == 0x0D {
            Ok((WindowType::Furnace, 0))
        } else if id == 0x0E {
            Ok((WindowType::Grindstone, 0))
        } else if id == 0x0F {
            Ok((WindowType::Hopper, 0))
        } else if id == 0x10 {
            Ok((WindowType::Lectern, 0))
        } else if id == 0x11 {
            Ok((WindowType::Loom, 0))
        } else if id == 0x12 {
            Ok((WindowType::Merchant, 0))
        } else if id == 0x13 {
            Ok((WindowType::ShulkerBox, 0))
        } else if id == 0x14 {
            Ok((WindowType::Smoker, 0))
        } else if id == 0x15 {
            Ok((WindowType::Cartography, 0))
        } else if id == 0x16 {
            Ok((WindowType::StoneCutter, 0))
        } else {
            Err(DecodeFailure::CannotUnderstandValue)
        }
    }

    /// Whether `id` stands for a variant.
    pub open spec fn has_id(id: i32) -> bool {
        id == 0x00
            || id == 0x01
            || id == 0x02
            || id == 0x03
            || id == 0x04
            || id == 0x05
            || id == 0x06
            || id == 0x07
            || id == 0x08
            || id == 0x09
            || id == 0x0A
            || id == 0x0B
            || id == 0x0C
            || id == 0x0D
            || id == 0x0E
            || id == 0x0F
            || id == 0x10
            || id == 0x11
            || id == 0x12
            || id == 0x13
            || id == 0x14
            || id == 0x15
            || id == 0x16
    }

    /// Picks the variant for `id` and reads its body from `data`. A number
    /// that stands for no variant is refused, and the error says which.
    pub fn deserialize_with_id<'a>(id: VarInt, data: &'a [u8]) -> (r: DeserializeResult<'a, Self>)
        ensures
            agrees(r, data@, Self::decode_with_id(id.0, data@)),
            !Self::has_id(id.0) ==> (r matches Err(DeserializeErr::CannotUnderstandValue(m))
                && m@ == invalid_int_text("WindowType"@, id.0 as int)),
    {
        proof {
            assert(data@.skip(0) =~= data@);
        }
        match id.0 {
            0x00 => Ok(Deserialized { value: WindowType::GenericOneRow, data }),
            0x01 => Ok(Deserialized { value: WindowType::GenericTwoRow, data }),
            0x02 => Ok(Deserialized { value: WindowType::GenericThreeRow, data }),
            0x03 => Ok(Deserialized { value: WindowType::GenericFourRow, data }),
            0x04 => Ok(Deserialized { value: WindowType::GenericFiveRow, data }),
            0x05 => Ok(Deserialized { value: WindowType::GenericSixRow, data }),
            0x06 => Ok(Deserialized { value: WindowType::GenericSquare, data }),
            0x07 => Ok(Deserialized { value: WindowType::Anvil, data }),
            0x08 => Ok(Deserialized { value: WindowType::Beacon, data }),
            0x09 => Ok(Deserialized { value: WindowType::BlastFurnace, data }),
            0x0A => Ok(Deserialized { value: WindowType::BrewingStand, data }),
            0x0B => Ok(Deserialized { value: WindowType::CraftingTable, data }),
            0x0C => Ok(Deserialized { value: WindowType::EnchantmentTable, data }),
            0x0D => Ok(Deserialized { value: WindowType::Furnace, data }),
            0x0E => Ok(Deserialized { value: WindowType::Grindstone, data }),
            0x0F => Ok(Deserialized { value: WindowType::Hopper, data }),
            0x10 => Ok(Deserialized { value: WindowType::Lectern, data }),
            0x11 => Ok(Deserialized { value: WindowType::Loom, data }),
            0x12 => Ok(Deserialized { value: WindowType::Merchant, data }),
            0x13 => Ok(Deserialized { value: WindowType::ShulkerBox, data }),
            0x14 => Ok(Deserialized { value: WindowType::Smoker, data }),
            0x15 => Ok(Deserialized { value: WindowType::Cartography, data }),
            0x16 => Ok(Deserialized { value: WindowType::StoneCutter, data }),
            other => Err(DeserializeErr::CannotUnderstandValue(invalid_int_message("WindowType", other))),
        }
    }

    /// Writes what follows the number.
    pub fn serialize_body<S: Serializer>(&self, to: &mut S) -> (r: SerializeResult)
        ensures
            r is Ok ==> Self::body_writable(self.deep_view()) && final(to).written() == old(
                to,
            ).written() + Self::body_of(self.deep_view()),
            old(to).infallible() ==> final(to).infallible(),
            old(to).infallible() ==> (r is Ok <==> Self::body_writable(self.deep_view())),
            old(to).infallible() && r is Err ==> (r matches Err(SerializeErr::CannotSerialize(_))),
    {
        match self {
            WindowType::GenericOneRow => {
                proof {
                    assert(old(to).written() + Seq::<u8>::empty() =~= old(to).written());
                }
                Ok(())
            },
            WindowType::GenericTwoRow => {
                proof {
                    assert(old(to).written() + Seq::<u8>::empty() =~= old(to).written());
                }
                Ok(())
            },
            WindowType::GenericThreeRow => {
                proof {
                    assert(old(to).written() + Seq::<u8>::empty() =~= old(to).written());
                }
                Ok(())
            },
            WindowType::GenericFourRow => {
                proof {
                    assert(old(to).written() + Seq::<u8>::empty() =~= old(to).written());
                }
                Ok(())
            },
            WindowType::GenericFiveRow => {
                proof {
                    assert(old(to).written() + Seq::<u8>::empty() =~= old(to).written());
                }
                Ok(())
            },
            WindowType::GenericSixRow => {
                proof {
                    assert(old(to).written() + Seq::<u8>::empty() =~= old(to).written());
                }
                Ok(())
            },
            WindowType::GenericSquare => {
                proof {
                    assert(old(to).written() + Seq::<u8>::empty() =~= old(to).written());
                }
                Ok(())
            },
            WindowType::Anvil => {
                proof {
                    assert(old(to).written() + Seq::<u8>::empty() =~= old(to).written());
                }
                Ok(())
            },
            WindowType::Beacon => {
                proof {
                    assert(old(to).written() + Seq::<u8>::empty() =~= old(to).written());
                }
                Ok(())
            },
            WindowType::BlastFurnace => {
                proof {
                    assert(old(to).written() + Seq::<u8>::empty() =~= old(to).written());
                }
                Ok(())
            },
            WindowType::BrewingStand => {
                proof {
                    assert(old(to).written() + Seq::<u8>::empty() =~= old(to).written());
                }
                Ok(())
            },
            WindowType::CraftingTable => {
                proof {
                    assert(old(to).written() + Seq::<u8>::empty() =~= old(to).written());
                }
                Ok(())
            },
            WindowType::EnchantmentTable => {
                proof {
                    assert(old(to).written() + Seq::<u8>::empty() =~= old(to).written());
                }
                Ok(())
            },
            WindowType::Furnace => {
                proof {
                    assert(old(to).written() + Seq::<u8>::empty() =~= old(to).written());
                }
                Ok(())
            },
            WindowType::Grindstone => {
                proof {
                    assert(old(to).written() + Seq::<u8>::empty() =~= old(to).written());
                }
                Ok(())
            },
            WindowType::Hopper => {
                proof {
                    assert(old(to).written() + Seq::<u8>::empty() =~= old(to).written());
                }
                Ok(())
            },
            WindowType::Lectern => {
                proof {
                    assert(old(to).written() + Seq::<u8>::empty() =~= old(to).written());
                }
                Ok(())
            },
            WindowType::Loom => {
                proof {
                    assert(old(to).written() + Seq::<u8>::empty() =~= old(to).written());
                }
                Ok(())
            },
            WindowType::Merchant => {
                proof {
                    assert(old(to).written() + Seq::<u8>::empty() =~= old(to).written());
                }
                Ok(())
            },
            WindowType::ShulkerBox => {
                proof {
                    assert(old(to).written() + Seq::<u8>::empty() =~= old(to).written());
                }
                Ok(())
            },
            WindowType::Smoker => {
                proof {
                    assert(old(to).written() + Seq::<u8>::empty() =~= old(to).written());
                }
                Ok(())
            },
            WindowType::Cartography => {
                proof {
                    assert(old(to).written() + Seq::<u8>::empty() =~= old(to).written());
                }
                Ok(())
            },
            WindowType::StoneCutter => {
                proof {
                    assert(old(to).written() + Seq::<u8>::empty() =~= old(to).written());
                }
                Ok(())
            },
        }
    }
}

impl Serialize for WindowType {
    open spec fn serializable(v: WindowType) -> bool {
        Self::body_writable(v)
    }

    #[verifier::opaque]
    open spec fn encode(v: WindowType) -> Seq<u8> {
        <VarInt>::encode(VarInt(Self::id_of(v))) + Self::body_of(v)
    }

    fn mc_serialize<S: Serializer>(&self, to: &mut S) -> (r: SerializeResult) {
        proof {
            reveal(<WindowType as Serialize>::encode);
        }
        let id_to_serialize: VarInt = self.id();
        id_to_serialize.mc_serialize(to)?;
        let r = self.serialize_body(to);
        proof {
            let head = <VarInt>::encode(VarInt(Self::id_of(self.deep_view())));
            let body = Self::body_of(self.deep_view());
            lemma_concat_assoc(old(to).written(), head, body);
        }
        r
    }
}

impl Deserialize for WindowType {
    #[verifier::opaque]
    open spec fn decode(data: Seq<u8>) -> Decoded<WindowType> {
        match <VarInt>::decode(data) {
            Err(e) => Err(e),
            Ok((id, n)) => match Self::decode_with_id(id.0, data.skip(n as int)) {
                Ok((v, m)) => Ok((v, n + m)),
                Err(e) => Err(e),
            },
        }
    }

    fn mc_deserialize(data: &[u8]) -> (r: DeserializeResult<'_, WindowType>) {
        proof {
            reveal(<WindowType as Deserialize>::decode);
        }
        let Deserialized { value: id, data: rest } = <VarInt>::mc_deserialize(data)?;
        let Deserialized { value, data: after } = Self::deserialize_with_id(id, rest)?;
        proof {
            lemma_skip_skip(data@, data@.len() - rest@.len(), rest@.len() - after@.len());
        }
        Ok(Deserialized { value, data: after })
    }
}

impl ProtocolType for WindowType {
    open spec fn faithful(v: WindowType) -> bool {
        match v {
            WindowType::GenericOneRow => true,
            WindowType::GenericTwoRow => true,
            WindowType::GenericThreeRow => true,
            WindowType::GenericFourRow => true,
            WindowType::GenericFiveRow => true,
            WindowType::GenericSixRow => true,
            WindowType::GenericSquare => true,
            WindowType::Anvil => true,
            WindowType::Beacon => true,
            WindowType::BlastFurnace => true,
            WindowType::BrewingStand => true,
            WindowType::CraftingTable => true,
            WindowType::EnchantmentTable => true,
            WindowType::Furnace => true,
            WindowType::Grindstone => true,
            WindowType::Hopper => true,
            WindowType::Lectern => true,
            WindowType::Loom => true,
            WindowType::Merchant => true,
            WindowType::ShulkerBox => true,
            WindowType::Smoker => true,
            WindowType::Cartography => true,
            WindowType::StoneCutter => true,
        }
    }

    open spec fn delimited() -> bool {
        true
    }

    proof fn lemma_round_trip(v: WindowType, rest: Seq<u8>) {
        reveal(<WindowType as Serialize>::encode);
        reveal(<WindowType as Deserialize>::decode);
        let head = <VarInt>::encode(VarInt(Self::id_of(v)));
        let body = Self::body_of(v);
        <VarInt>::lemma_round_trip(VarInt(Self::id_of(v)), body + rest);
        Self::lemma_body_round_trip(v, rest);
        lemma_concat_assoc(head, body, rest);
        lemma_skip_concat(head, body + rest);
    }
}

impl WindowType {
    /// What follows the number, written out and followed by anything, reads
    /// back under that number.
    pub proof fn lemma_body_round_trip(v: WindowType, rest: Seq<u8>)
        requires
            <Self as ProtocolType>::faithful(v),
            <Self as ProtocolType>::delimited() || rest.len() == 0,
        ensures
            Self::body_writable(v),
            Self::decode_with_id(Self::id_of(v), Self::body_of(v) + rest) == Ok::<_, DecodeFailure>(
                (v, Self::body_of(v).len()),
            ),
    {
        match v {
            WindowType::GenericOneRow => {
                assert(Seq::<u8>::empty() + rest =~= rest);
            },
            WindowType::GenericTwoRow => {
                assert(Seq::<u8>::empty() + rest =~= rest);
            },
            WindowType::GenericThreeRow => {
                assert(Seq::<u8>::empty() + rest =~= rest);
            },
            WindowType::GenericFourRow => {
                assert(Seq::<u8>::empty() + rest =~= rest);
            },
            WindowType::GenericFiveRow => {
                assert(Seq::<u8>::empty() + rest =~= rest);
            },
            WindowType::GenericSixRow => {
                assert(Seq::<u8>::empty() + rest =~= rest);
            },
            WindowType::GenericSquare => {
                assert(Seq::<u8>::empty() + rest =~= rest);
            },
            WindowType::Anvil => {
                assert(Seq::<u8>::empty() + rest =~= rest);
            },
            WindowType::Beacon => {
                assert(Seq::<u8>::empty() + rest =~= rest);
            },
            WindowType::BlastFurnace => {
                assert(Seq::<u8>::empty() + rest =~= rest);
            },
            WindowType::BrewingStand => {
                assert(Seq::<u8>::empty() + rest =~= rest);
            },
            WindowType::CraftingTable => {
                assert(Seq::<u8>::empty() + rest =~= rest);
            },
            WindowType::EnchantmentTable => {
                assert(Seq::<u8>::empty() + rest =~= rest);
            },
            WindowType::Furnace => {
                assert(Seq::<u8>::empty() + rest =~= rest);
            },
            WindowType::Grindstone => {
                assert(Seq::<u8>::empty() + rest =~= rest);
            },
            WindowType::Hopper => {
                assert(Seq::<u8>::empty() + rest =~= rest);
            },
            WindowType::Lectern => {
                assert(Seq::<u8>::empty() + rest =~= rest);
            },
            WindowType::Loom => {
                assert(Seq::<u8>::empty() + rest =~= rest);
            },
            WindowType::Merchant => {
                assert(Seq::<u8>::empty() + rest =~= rest);
            },
            WindowType::ShulkerBox => {
                assert(Seq::<u8>::empty() + rest =~= rest);
            },
            WindowType::Smoker => {
                assert(Seq::<u8>::empty() + rest =~= rest);
            },
            WindowType::Cartography => {
                assert(Seq::<u8>::empty() + rest =~= rest);
            },
            WindowType::StoneCutter => {
                assert(Seq::<u8>::empty() + rest =~= rest);
            },
        }
    }
}

/// What a player is able to do, one bit for each.
#[derive(Clone, Copy, PartialEq, Eq, Debug, Default)]
pub struct PlayerAbilityFlags(pub u8);

impl View for PlayerAbilityFlags {
    type V = PlayerAbilityFlags;

    open spec fn view(&self) -> PlayerAbilityFlags {
        *self
    }
}

impl DeepView for PlayerAbilityFlags {
    type V = PlayerAbilityFlags;

    open spec fn deep_view(&self) -> PlayerAbilityFlags {
        *self
    }
}

impl PlayerAbilityFlags {
    /// Whether the bit for `invulnerable` is set.
    pub fn is_invulnerable(&self) -> (r: bool)
        ensures
            r == flag_is_set(self.0, 0x01),
    {
        proof {
            lemma_flag(self.0, 0x01);
        }
        self.0 & 0x01 != 0
    }

    /// Sets the flag where `value` is true. Where it is false the flag is
    /// turned over: a flag that is set is cleared, and one that is clear is
    /// set.
    pub fn set_invulnerable(&mut self, value: bool)
        ensures
            final(self).0 == if value {
                with_flag(old(self).0, 0x01)
            } else if flag_is_set(old(self).0, 0x01) {
                without_flag(old(self).0, 0x01)
            } else {
                with_flag(old(self).0, 0x01)
            },
    {
        proof {
            lemma_flag(self.0, 0x01);
        }
        if value {
            self.0 |= 0x01;
        } else {
            self.0 ^= 0x01;
        }
    }

    /// Whether the bit for `flying` is set.
    pub fn is_flying(&self) -> (r: bool)
        ensures
            r == flag_is_set(self.0, 0x02),
    {
        proof {
            lemma_flag(self.0, 0x02);
        }
        self.0 & 0x02 != 0
    }

    /// Sets the flag where `value` is true. Where it is false the flag is
    /// turned over: a flag that is set is cleared, and one that is clear is
    /// set.
    pub fn set_flying(&mut self, value: bool)
        ensures
            final(self).0 == if value {
                with_flag(old(self).0, 0x02)
            } else if flag_is_set(old(self).0, 0x02) {
                without_flag(old(self).0, 0x02)
            } else {
                with_flag(old(self).0, 0x02)
            },
    {
        proof {
            lemma_flag(self.0, 0x02);
        }
        if value {
            self.0 |= 0x02;
        } else {
            self.0 ^= 0x02;
        }
    }

    /// Whether the bit for `flight_allowed` is set.
    pub fn is_flight_allowed(&self) -> (r: bool)
        ensures
            r == flag_is_set(self.0, 0x04),
    {
        proof {
            lemma_flag(self.0, 0x04);
        }
        self.0 & 0x04 != 0
    }

    /// Sets the flag where `value` is true. Where it is false the flag is
    /// turned over: a flag that is set is cleared, and one that is clear is
    /// set.
    pub fn set_flight_allowed(&mut self, value: bool)
        ensures
            final(self).0 == if value {
                with_flag(old(self).0, 0x04)
            } else if flag_is_set(old(self).0, 0x04) {
                without_flag(old(self).0, 0x04)
            } else {
                with_flag(old(self).0, 0x04)
            },
    {
        proof {
            lemma_flag(self.0, 0x04);
        }
        if value {
            self.0 |= 0x04;
        } else {
            self.0 ^= 0x04;
        }
    }

    /// Whether the bit for `instant_break` is set.
    pub fn is_instant_break(&self) -> (r: bool)
        ensures
            r == flag_is_set(self.0, 0x08),
    {
        proof {
            lemma_flag(self.0, 0x08);
        }
        self.0 & 0x08 != 0
    }

    /// Sets the flag where `value` is true. Where it is false the flag is
    /// turned over: a flag that is set is cleared, and one that is clear is
    /// set.
    pub fn set_instant_break(&mut self, value: bool)
        ensures
            final(self).0 == if value {
                with_flag(old(self).0, 0x08)
            } else if flag_is_set(old(self).0, 0x08) {
                without_flag(old(self).0, 0x08)
            } else {
                with_flag(old(self).0, 0x08)
            },
    {
        proof {
            lemma_flag(self.0, 0x08);
        }
        if value {
            self.0 |= 0x08;
        } else {
            self.0 ^= 0x08;
        }
    }

}

impl Serialize for PlayerAbilityFlags {
    open spec fn serializable(v: PlayerAbilityFlags) -> bool {
        true
    }

    #[verifier::opaque]
    open spec fn encode(v: PlayerAbilityFlags) -> Seq<u8> {
        seq![v.0]
    }

    fn mc_serialize<S: Serializer>(&self, to: &mut S) -> (r: SerializeResult) {
        proof {
            reveal(<PlayerAbilityFlags as Serialize>::encode);
        }
        let r = to.serialize_byte(self.0);
        proof {
            assert(old(to).written().push(self.0) =~= old(to).written() + seq![self.0]);
        }
        r
    }
}

impl Deserialize for PlayerAbilityFlags {
    #[verifier::opaque]
    open spec fn decode(data: Seq<u8>) -> Decoded<PlayerAbilityFlags> {
        if data.len() < 1 {
            Err(DecodeFailure::Eof)
        } else {
            Ok((PlayerAbilityFlags(data[0]), 1))
        }
    }

    fn mc_deserialize(data: &[u8]) -> (r: DeserializeResult<'_, PlayerAbilityFlags>) {
        proof {
            reveal(<PlayerAbilityFlags as Deserialize>::decode);
        }
        proof {
            reveal(<u8 as Deserialize>::decode);
        }
        let Deserialized { value: b, data: rest } = u8::mc_deserialize(data)?;
        Ok(Deserialized { value: PlayerAbilityFlags(b), data: rest })
    }
}

impl ProtocolType for PlayerAbilityFlags {
    open spec fn faithful(v: PlayerAbilityFlags) -> bool {
        true
    }

    open spec fn delimited() -> bool {
        true
    }

    proof fn lemma_round_trip(v: PlayerAbilityFlags, rest: Seq<u8>) {
        reveal(<PlayerAbilityFlags as Serialize>::encode);
        reveal(<PlayerAbilityFlags as Deserialize>::decode);
    }
}

/// The part of an entity that is looked at or with.
#[derive(PartialEq, Eq, Structural, Clone, Copy, Debug)]
pub enum FacePlayerKind {
    Feet,
    Eyes,
}

impl View for FacePlayerKind {
    type V = FacePlayerKind;

    open spec fn view(&self) -> FacePlayerKind {
        *self
    }
}

impl DeepView for FacePlayerKind {
    type V = FacePlayerKind;

    open spec fn deep_view(&self) -> FacePlayerKind {
        *self
    }
}

impl FacePlayerKind {
    pub fn variant_count() -> (r: usize)
        ensures
            r == 2,
    {
        2
    }

    /// The number that stands for the variant on the wire.
    pub open spec fn id_of(v: FacePlayerKind) -> i32 {
        match v {
            FacePlayerKind::Feet => 0x00,
            FacePlayerKind::Eyes => 0x01,
        }
    }

    pub fn id(&self) -> (r: VarInt)
        ensures
            r == VarInt(Self::id_of(self.deep_view())),
    {
        match self {
            FacePlayerKind::Feet => VarInt(0x00),
            FacePlayerKind::Eyes => VarInt(0x01),
        }
    }

    pub open spec fn name_of(v: FacePlayerKind) -> Seq<char> {
        match v {
            FacePlayerKind::Feet => "Feet"@,
            FacePlayerKind::Eyes => "Eyes"@,
        }
    }

    pub fn name(&self) -> (r: &'static str)
        ensures
            r@ == Self::name_of(self.deep_view()),
    {
        match self {
            FacePlayerKind::Feet => "Feet",
            FacePlayerKind::Eyes => "Eyes",
        }
    }

    /// The bytes that follow the number.
    pub open spec fn body_of(v: FacePlayerKind) -> Seq<u8> {
        match v {
            FacePlayerKind::Feet => Seq::empty(),
            FacePlayerKind::Eyes => Seq::empty(),
        }
    }

    /// Whether what follows the number can be written.
    pub open spec fn body_writable(v: FacePlayerKind) -> bool {
        match v {
            FacePlayerKind::Feet => true,
            FacePlayerKind::Eyes => true,
        }
    }

    /// The variant that `id` stands for, with its body read from `data`.
    pub open spec fn decode_with_id(id: i32, data: Seq<u8>) -> Decoded<FacePlayerKind> {
        if id == 0x00 {
            Ok((FacePlayerKind::Feet, 0))
        } else if id == 0x01 {
            Ok((FacePlayerKind::Eyes, 0))
        } else {
            Err(DecodeFailure::CannotUnderstandValue)
        }
    }

    /// Whether `id` stands for a variant.
    pub open spec fn has_id(id: i32) -> bool {
        id == 0x00
            || id == 0x01
    }

    /// Picks the variant for `id` and reads its body from `data`. A number
    /// that stands for no variant is refused, and the error says which.
    pub fn deserialize_with_id<'a>(id: VarInt, data: &'a [u8]) -> (r: DeserializeResult<'a, Self>)
        ensures
            agrees(r, data@, Self::decode_with_id(id.0, data@)),
            !Self::has_id(id.0) ==> (r matches Err(DeserializeErr::CannotUnderstandValue(m))
                && m@ == invalid_int_text("FacePlayerKind"@, id.0 as int)),
    {
        proof {
            assert(data@.skip(0) =~= data@);
        }
        match id.0 {
            0x00 => Ok(Deserialized { value: FacePlayerKind::Feet, data }),
            0x01 => Ok(Deserialized { value: FacePlayerKind::Eyes, data }),
            other => Err(DeserializeErr::CannotUnderstandValue(invalid_int_message("FacePlayerKind", other))),
        }
    }

    /// Writes what follows the number.
    pub fn serialize_body<S: Serializer>(&self, to: &mut S) -> (r: SerializeResult)
        ensures
            r is Ok ==> Self::body_writable(self.deep_view()) && final(to).written() == old(
                to,
            ).written() + Self::body_of(self.deep_view()),
            old(to).infallible() ==> final(to).infallible(),
            old(to).infallible() ==> (r is Ok <==> Self::body_writable(self.deep_view())),
            old(to).infallible() && r is Err ==> (r matches Err(SerializeErr::CannotSerialize(_))),
    {
        match self {
            FacePlayerKind::Feet => {
                proof {
                    assert(old(to).written() + Seq::<u8>::empty() =~= old(to).written());
                }
                Ok(())
            },
            FacePlayerKind::Eyes => {
                proof {
                    assert(old(to).written() + Seq::<u8>::empty() =~= old(to).written());
                }
                Ok(())
            },
        }
    }
}

impl Serialize for FacePlayerKind {
    open spec fn serializable(v: FacePlayerKind) -> bool {
        Self::body_writable(v)
    }

    #[verifier::opaque]
    open spec fn encode(v: FacePlayerKind) -> Seq<u8> {
        <VarInt>::encode(VarInt(Self::id_of(v))) + Self::body_of(v)
    }

    fn mc_serialize<S: Serializer>(&self, to: &mut S) -> (r: SerializeResult) {
        proof {
            reveal(<FacePlayerKind as Serialize>::encode);
        }
        let id_to_serialize: VarInt = self.id();
        id_to_serialize.mc_serialize(to)?;
        let r = self.serialize_body(to);
        proof {
            let head = <VarInt>::encode(VarInt(Self::id_of(self.deep_view())));
            let body = Self::body_of(self.deep_view());
            lemma_concat_assoc(old(to).written(), head, body);
        }
        r
    }
}

impl Deserialize for FacePlayerKind {
    #[verifier::opaque]
    open spec fn decode(data: Seq<u8>) -> Decoded<FacePlayerKind> {
        match <VarInt>::decode(data) {
            Err(e) => Err(e),
            Ok((id, n)) => match Self::decode_with_id(id.0, data.skip(n as int)) {
                Ok((v, m)) => Ok((v, n + m)),
                Err(e) => Err(e),
            },
        }
    }

    fn mc_deserialize(data: &[u8]) -> (r: DeserializeResult<'_, FacePlayerKind>) {
        proof {
            reveal(<FacePlayerKind as Deserialize>::decode);
        }
        let Deserialized { value: id, data: rest } = <VarInt>::mc_deserialize(data)?;
        let Deserialized { value, data: after } = Self::deserialize_with_id(id, rest)?;
        proof {
            lemma_skip_skip(data@, data@.len() - rest@.len(), rest@.len() - after@.len());
        }
        Ok(Deserialized { value, data: after })
    }
}

impl ProtocolType for FacePlayerKind {
    open spec fn faithful(v: FacePlayerKind) -> bool {
        match v {
            FacePlayerKind::Feet => true,
            FacePlayerKind::Eyes => true,
        }
    }

    open spec fn delimited() -> bool {
        true
    }

    proof fn lemma_round_trip(v: FacePlayerKind, rest: Seq<u8>) {
        reveal(<FacePlayerKind as Serialize>::encode);
        reveal(<FacePlayerKind as Deserialize>::decode);
        let head = <VarInt>::encode(VarInt(Self::id_of(v)));
        let body = Self::body_of(v);
        <VarInt>::lemma_round_trip(VarInt(Self::id_of(v)), body + rest);
        Self::lemma_body_round_trip(v, rest);
        lemma_concat_assoc(head, body, rest);
        lemma_skip_concat(head, body + rest);
    }
}

impl FacePlayerKind {
    /// What follows the number, written out and followed by anything, reads
    /// back under that number.
    pub proof fn lemma_body_round_trip(v: FacePlayerKind, rest: Seq<u8>)
        requires
            <Self as ProtocolType>::faithful(v),
            <Self as ProtocolType>::delimited() || rest.len() == 0,
        ensures
            Self::body_writable(v),
            Self::decode_with_id(Self::id_of(v), Self::body_of(v) + rest) == Ok::<_, DecodeFailure>(
                (v, Self::body_of(v).len()),
            ),
    {
        match v {
            FacePlayerKind::Feet => {
                assert(Seq::<u8>::empty() + rest =~= rest);
            },
            FacePlayerKind::Eyes => {
                assert(Seq::<u8>::empty() + rest =~= rest);
            },
        }
    }
}

/// An entity to look at, and the part of it.
#[derive(Debug, Clone, PartialEq)]
pub struct FacePlayerEntityTarget {
    pub entity_id: VarInt,
    pub kind: FacePlayerKind,
}

/// The mathematical content of a [`FacePlayerEntityTarget`].
pub struct FacePlayerEntityTargetView {
    pub entity_id: VarInt,
    pub kind: <FacePlayerKind as DeepView>::V,
}

impl DeepView for FacePlayerEntityTarget {
    type V = FacePlayerEntityTargetView;

    open spec fn deep_view(&self) -> FacePlayerEntityTargetView {
        FacePlayerEntityTargetView {
            entity_id: self.entity_id.deep_view(),
            kind: self.kind.deep_view(),
        }
    }
}

impl Serialize for FacePlayerEntityTarget {
    open spec fn serializable(v: FacePlayerEntityTargetView) -> bool {
        VarInt::serializable(v.entity_id) && FacePlayerKind::serializable(v.kind)
    }

    #[verifier::opaque]
    open spec fn encode(v: FacePlayerEntityTargetView) -> Seq<u8> {
        VarInt::encode(v.entity_id) + FacePlayerKind::encode(v.kind)
    }

    fn mc_serialize<S: Serializer>(&self, to: &mut S) -> (r: SerializeResult) {
        proof {
            reveal(<FacePlayerEntityTarget as Serialize>::encode);
        }
        self.entity_id.mc_serialize(to)?;
        self.kind.mc_serialize(to)?;
        proof {
            assert(to.written() =~= old(to).written() + Self::encode(self.deep_view()));
        }
        Ok(())
    }
}

impl Deserialize for FacePlayerEntityTarget {
    #[verifier::opaque]
    open spec fn decode(data: Seq<u8>) -> Decoded<FacePlayerEntityTargetView> {
        match VarInt::decode(data) {
            Err(e) => Err(e),
            Ok((entity_id, n0)) => {
                match FacePlayerKind::decode(data.skip((n0) as int)) {
                    Err(e) => Err(e),
                    Ok((kind, n1)) => Ok((FacePlayerEntityTargetView { entity_id, kind }, n0 + n1)),
                }
            },
        }
    }

    fn mc_deserialize(data: &[u8]) -> (r: DeserializeResult<'_, FacePlayerEntityTarget>) {
        proof {
            reveal(<FacePlayerEntityTarget as Deserialize>::decode);
        }
        let ghost whole = data@;
        let Deserialized { value: entity_id, data: rest0 } = VarInt::mc_deserialize(data)?;
        let Deserialized { value: kind, data: rest1 } = FacePlayerKind::mc_deserialize(rest0)?;
        proof {
            lemma_skip_skip(
                whole,
                whole.len() - rest0@.len(),
                rest0@.len() - rest1@.len(),
            );
        }
        Ok(Deserialized { value: FacePlayerEntityTarget { entity_id, kind }, data: rest1 })
    }
}

impl ProtocolType for FacePlayerEntityTarget {
    open spec fn faithful(v: FacePlayerEntityTargetView) -> bool {
        VarInt::faithful(v.entity_id) && FacePlayerKind::faithful(v.kind)
    }

    open spec fn delimited() -> bool {
        FacePlayerKind::delimited()
    }

    proof fn lemma_round_trip(v: FacePlayerEntityTargetView, rest: Seq<u8>) {
        reveal(<FacePlayerEntityTarget as Serialize>::encode);
        reveal(<FacePlayerEntityTarget as Deserialize>::decode);
        let e0 = VarInt::encode(v.entity_id);
        let e1 = FacePlayerKind::encode(v.kind);
        let data = Self::encode(v) + rest;
        let t2 = rest;
        let t1 = e1 + t2;
        let t0 = e0 + t1;
        let l0 = e0;
        let l1 = l0 + e1;
        lemma_concat_assoc(l0, e1, t2);
        assert(data == t0);
        VarInt::lemma_round_trip(v.entity_id, t1);
        lemma_skip_concat(e0, t1);
        FacePlayerKind::lemma_round_trip(v.kind, t2);
        lemma_skip_more(data, (e0.len()) as int, e1, t2);
    }
}

/// Which parts of a position and look are relative to the old ones, one bit for each.
#[derive(Clone, Copy, PartialEq, Eq, Debug, Default)]
pub struct PositionAndLookFlags(pub u8);

impl View for PositionAndLookFlags {
    type V = PositionAndLookFlags;

    open spec fn view(&self) -> PositionAndLookFlags {
        *self
    }
}

impl DeepView for PositionAndLookFlags {
    type V = PositionAndLookFlags;

    open spec fn deep_view(&self) -> PositionAndLookFlags {
        *self
    }
}

impl PositionAndLookFlags {
    /// Whether the bit for `x_rel` is set.
    pub fn is_x_rel(&self) -> (r: bool)
        ensures
            r == flag_is_set(self.0, 0x01),
    {
        proof {
            lemma_flag(self.0, 0x01);
        }
        self.0 & 0x01 != 0
    }

    /// Sets the flag where `value` is true. Where it is false the flag is
    /// turned over: a flag that is set is cleared, and one that is clear is
    /// set.
    pub fn set_x_rel(&mut self, value: bool)
        ensures
            final(self).0 == if value {
                with_flag(old(self).0, 0x01)
            } else if flag_is_set(old(self).0, 0x01) {
                without_flag(old(self).0, 0x01)
            } else {
                with_flag(old(self).0, 0x01)
            },
    {
        proof {
            lemma_flag(self.0, 0x01);
        }
        if value {
            self.0 |= 0x01;
        } else {
            self.0 ^= 0x01;
        }
    }

    /// Whether the bit for `y_rel` is set.
    pub fn is_y_rel(&self) -> (r: bool)
        ensures
            r == flag_is_set(self.0, 0x02),
    {
        proof {
            lemma_flag(self.0, 0x02);
        }
        self.0 & 0x02 != 0
    }

    /// Sets the flag where `value` is true. Where it is false the flag is
    /// turned over: a flag that is set is cleared, and one that is clear is
    /// set.
    pub fn set_y_rel(&mut self, value: bool)
        ensures
            final(self).0 == if value {
                with_flag(old(self).0, 0x02)
            } else if flag_is_set(old(self).0, 0x02) {
                without_flag(old(self).0, 0x02)
            } else {
                with_flag(old(self).0, 0x02)
            },
    {
        proof {
            lemma_flag(self.0, 0x02);
        }
        if value {
            self.0 |= 0x02;
        } else {
            self.0 ^= 0x02;
        }
    }

    /// Whether the bit for `z_rel` is set.
    pub fn is_z_rel(&self) -> (r: bool)
        ensures
            r == flag_is_set(self.0, 0x04),
    {
        proof {
            lemma_flag(self.0, 0x04);
        }
        self.0 & 0x04 != 0
    }

    /// Sets the flag where `value` is true. Where it is false the flag is
    /// turned over: a flag that is set is cleared, and one that is clear is
    /// set.
    pub fn set_z_rel(&mut self, value: bool)
        ensures
            final(self).0 == if value {
                with_flag(old(self).0, 0x04)
            } else if flag_is_set(old(self).0, 0x04) {
                without_flag(old(self).0, 0x04)
            } else {
                with_flag(old(self).0, 0x04)
            },
    {
        proof {
            lemma_flag(self.0, 0x04);
        }
        if value {
            self.0 |= 0x04;
        } else {
            self.0 ^= 0x04;
        }
    }

    /// Whether the bit for `y_rotation_rel` is set.
    pub fn is_y_rotation_rel(&self) -> (r: bool)
        ensures
            r == flag_is_set(self.0, 0x08),
    {
        proof {
            lemma_flag(self.0, 0x08);
        }
        self.0 & 0x08 != 0
    }

    /// Sets the flag where `value` is true. Where it is false the flag is
    /// turned over: a flag that is set is cleared, and one that is clear is
    /// set.
    pub fn set_y_rotation_rel(&mut self, value: bool)
        ensures
            final(self).0 == if value {
                with_flag(old(self).0, 0x08)
            } else if flag_is_set(old(self).0, 0x08) {
                without_flag(old(self).0, 0x08)
            } else {
                with_flag(old(self).0, 0x08)
            },
    {
        proof {
            lemma_flag(self.0, 0x08);
        }
        if value {
            self.0 |= 0x08;
        } else {
            self.0 ^= 0x08;
        }
    }

    /// Whether the bit for `x_rotation_rel` is set.
    pub fn is_x_rotation_rel(&self) -> (r: bool)
        ensures
            r == flag_is_set(self.0, 0x10),
    {
        proof {
            lemma_flag(self.0, 0x10);
        }
        self.0 & 0x10 != 0
    }

    /// Sets the flag where `value` is true. Where it is false the flag is
    /// turned over: a flag that is set is cleared, and one that is clear is
    /// set.
    pub fn set_x_rotation_rel(&mut self, value: bool)
        ensures
            final(self).0 == if value {
                with_flag(old(self).0, 0x10)
            } else if flag_is_set(old(self).0, 0x10) {
                without_flag(old(self).0, 0x10)
            } else {
                with_flag(old(self).0, 0x10)
            },
    {
        proof {
            lemma_flag(self.0, 0x10);
        }
        if value {
            self.0 |= 0x10;
        } else {
            self.0 ^= 0x10;
        }
    }

}

impl Serialize for PositionAndLookFlags {
    open spec fn serializable(v: PositionAndLookFlags) -> bool {
        true
    }

    #[verifier::opaque]
    open spec fn encode(v: PositionAndLookFlags) -> Seq<u8> {
        seq![v.0]
    }

    fn mc_serialize<S: Serializer>(&self, to: &mut S) -> (r: SerializeResult) {
        proof {
            reveal(<PositionAndLookFlags as Serialize>::encode);
        }
        let r = to.serialize_byte(self.0);
        proof {
            assert(old(to).written().push(self.0) =~= old(to).written() + seq![self.0]);
        }
        r
    }
}

impl Deserialize for PositionAndLookFlags {
    #[verifier::opaque]
    open spec fn decode(data: Seq<u8>) -> Decoded<PositionAndLookFlags> {
        if data.len() < 1 {
            Err(DecodeFailure::Eof)
        } else {
            Ok((PositionAndLookFlags(data[0]), 1))
        }
    }

    fn mc_deserialize(data: &[u8]) -> (r: DeserializeResult<'_, PositionAndLookFlags>) {
        proof {
            reveal(<PositionAndLookFlags as Deserialize>::decode);
        }
        proof {
            reveal(<u8 as Deserialize>::decode);
        }
        let Deserialized { value: b, data: rest } = u8::mc_deserialize(data)?;
        Ok(Deserialized { value: PositionAndLookFlags(b), data: rest })
    }
}

impl ProtocolType for PositionAndLookFlags {
    open spec fn faithful(v: PositionAndLookFlags) -> bool {
        true
    }

    open spec fn delimited() -> bool {
        true
    }

    proof fn lemma_round_trip(v: PositionAndLookFlags, rest: Seq<u8>) {
        reveal(<PositionAndLookFlags as Serialize>::encode);
        reveal(<PositionAndLookFlags as Deserialize>::decode);
    }
}

/// A status effect.
#[derive(PartialEq, Eq, Structural, Clone, Copy, Debug)]
pub enum EntityEffectKind {
    Speed,
    Slowness,
    Haste,
    MiningFatigue,
    Strength,
    InstantHealth,
    InstantDamage,
    JumpBoost,
    Nausea,
    Regeneration,
    Resistance,
    FireResistance,
    WaterBreathing,
    Invisibility,
    Blindness,
    NightVision,
    Hunger,
    Weakness,
    Poison,
    Wither,
    HealthBoost,
    Absorption,
    Saturation,
    Glowing,
    Levetation,
    Luck,
    Unluck,
    SlowFalling,
    ConduitPower,
    DolphinsGrace,
    BadOmen,
    HeroOfTheVillage,
}

impl View for EntityEffectKind {
    type V = EntityEffectKind;

    open spec fn view(&self) -> EntityEffectKind {
        *self
    }
}

impl DeepView for EntityEffectKind {
    type V = EntityEffectKind;

    open spec fn deep_view(&self) -> EntityEffectKind {
        *self
    }
}

impl EntityEffectKind {
    pub fn variant_count() -> (r: usize)
        ensures
            r == 32,
    {
        32
    }

    /// The number that stands for the variant on the wire.
    pub open spec fn id_of(v: EntityEffectKind) -> u8 {
        match v {
            EntityEffectKind::Speed => 0x01,
            EntityEffectKind::Slowness => 0x02,
            EntityEffectKind::Haste => 0x03,
            EntityEffectKind::MiningFatigue => 0x04,
            EntityEffectKind::Strength => 0x05,
            EntityEffectKind::InstantHealth => 0x06,
            EntityEffectKind::InstantDamage => 0x07,
            EntityEffectKind::JumpBoost => 0x08,
            EntityEffectKind::Nausea => 0x09,
            EntityEffectKind::Regeneration => 0x0A,
            EntityEffectKind::Resistance => 0x0B,
            EntityEffectKind::FireResistance => 0x0C,
            EntityEffectKind::WaterBreathing => 0x0D,
            EntityEffectKind::Invisibility => 0x0E,
            EntityEffectKind::Blindness => 0x0F,
            EntityEffectKind::NightVision => 0x10,
            EntityEffectKind::Hunger => 0x11,
            EntityEffectKind::Weakness => 0x12,
            EntityEffectKind::Poison => 0x13,
            EntityEffectKind::Wither => 0x14,
            EntityEffectKind::HealthBoost => 0x15,
            EntityEffectKind::Absorption => 0x16,
            EntityEffectKind::Saturation => 0x17,
            EntityEffectKind::Glowing => 0x18,
            EntityEffectKind::Levetation => 0x19,
            EntityEffectKind::Luck => 0x1A,
            EntityEffectKind::Unluck => 0x1B,
            EntityEffectKind::SlowFalling => 0x1C,
            EntityEffectKind::ConduitPower => 0x1D,
            EntityEffectKind::DolphinsGrace => 0x1E,
            EntityEffectKind::BadOmen => 0x1F,
            EntityEffectKind::HeroOfTheVillage => 0x20,
        }
    }

    pub fn id(&self) -> (r: u8)
        ensures
            r == Self::id_of(self.deep_view()),
    {
        match self {
            EntityEffectKind::Speed => 0x01,
            EntityEffectKind::Slowness => 0x02,
            EntityEffectKind::Haste => 0x03,
            EntityEffectKind::MiningFatigue => 0x04,
            EntityEffectKind::Strength => 0x05,
            EntityEffectKind::InstantHealth => 0x06,
            EntityEffectKind::InstantDamage => 0x07,
            EntityEffectKind::JumpBoost => 0x08,
            EntityEffectKind::Nausea => 0x09,
            EntityEffectKind::Regeneration => 0x0A,
            EntityEffectKind::Resistance => 0x0B,
            EntityEffectKind::FireResistance => 0x0C,
            EntityEffectKind::WaterBreathing => 0x0D,
            EntityEffectKind::Invisibility => 0x0E,
            EntityEffectKind::Blindness => 0x0F,
            EntityEffectKind::NightVision => 0x10,
            EntityEffectKind::Hunger => 0x11,
            EntityEffectKind::Weakness => 0x12,
            EntityEffectKind::Poison => 0x13,
            EntityEffectKind::Wither => 0x14,
            EntityEffectKind::HealthBoost => 0x15,
            EntityEffectKind::Absorption => 0x16,
            EntityEffectKind::Saturation => 0x17,
            EntityEffectKind::Glowing => 0x18,
            EntityEffectKind::Levetation => 0x19,
            EntityEffectKind::Luck => 0x1A,
            EntityEffectKind::Unluck => 0x1B,
            EntityEffectKind::SlowFalling => 0x1C,
            EntityEffectKind::ConduitPower => 0x1D,
            EntityEffectKind::DolphinsGrace => 0x1E,
            EntityEffectKind::BadOmen => 0x1F,
            EntityEffectKind::HeroOfTheVillage => 0x20,
        }
    }

    pub open spec fn name_of(v: EntityEffectKind) -> Seq<char> {
        match v {
            EntityEffectKind::Speed => "Speed"@,
            EntityEffectKind::Slowness => "Slowness"@,
            EntityEffectKind::Haste => "Haste"@,
            EntityEffectKind::MiningFatigue => "MiningFatigue"@,
            EntityEffectKind::Strength => "Strength"@,
            EntityEffectKind::InstantHealth => "InstantHealth"@,
            EntityEffectKind::InstantDamage => "InstantDamage"@,
            EntityEffectKind::JumpBoost => "JumpBoost"@,
            EntityEffectKind::Nausea => "Nausea"@,
            EntityEffectKind::Regeneration => "Regeneration"@,
            EntityEffectKind::Resistance => "Resistance"@,
            EntityEffectKind::FireResistance => "FireResistance"@,
            EntityEffectKind::WaterBreathing => "WaterBreathing"@,
            EntityEffectKind::Invisibility => "Invisibility"@,
            EntityEffectKind::Blindness => "Blindness"@,
            EntityEffectKind::NightVision => "NightVision"@,
            EntityEffectKind::Hunger => "Hunger"@,
            EntityEffectKind::Weakness => "Weakness"@,
            EntityEffectKind::Poison => "Poison"@,
            EntityEffectKind::Wither => "Wither"@,
            EntityEffectKind::HealthBoost => "HealthBoost"@,
            EntityEffectKind::Absorption => "Absorption"@,
            EntityEffectKind::Saturation => "Saturation"@,
            EntityEffectKind::Glowing => "Glowing"@,
            EntityEffectKind::Levetation => "Levetation"@,
            EntityEffectKind::Luck => "Luck"@,
            EntityEffectKind::Unluck => "Unluck"@,
            EntityEffectKind::SlowFalling => "SlowFalling"@,
            EntityEffectKind::ConduitPower => "ConduitPower"@,
            EntityEffectKind::DolphinsGrace => "DolphinsGrace"@,
            EntityEffectKind::BadOmen => "BadOmen"@,
            EntityEffectKind::HeroOfTheVillage => "HeroOfTheVillage"@,
        }
    }

    pub fn name(&self) -> (r: &'static str)
        ensures
            r@ == Self::name_of(self.deep_view()),
    {
        match self {
            EntityEffectKind::Speed => "Speed",
            EntityEffectKind::Slowness => "Slowness",
            EntityEffectKind::Haste => "Haste",
            EntityEffectKind::MiningFatigue => "MiningFatigue",
            EntityEffectKind::Strength => "Strength",
            EntityEffectKind::InstantHealth => "InstantHealth",
            EntityEffectKind::InstantDamage => "InstantDamage",
            EntityEffectKind::JumpBoost => "JumpBoost",
            EntityEffectKind::Nausea => "Nausea",
            EntityEffectKind::Regeneration => "Regeneration",
            EntityEffectKind::Resistance => "Resistance",
            EntityEffectKind::FireResistance => "FireResistance",
            EntityEffectKind::WaterBreathing => "WaterBreathing",
            EntityEffectKind::Invisibility => "Invisibility",
            EntityEffectKind::Blindness => "Blindness",
            EntityEffectKind::NightVision => "NightVision",
            EntityEffectKind::Hunger => "Hunger",
            EntityEffectKind::Weakness => "Weakness",
            EntityEffectKind::Poison => "Poison",
            EntityEffectKind::Wither => "Wither",
            EntityEffectKind::HealthBoost => "HealthBoost",
            EntityEffectKind::Absorption => "Absorption",
            EntityEffectKind::Saturation => "Saturation",
            EntityEffectKind::Glowing => "Glowing",
            EntityEffectKind::Levetation => "Levetation",
            EntityEffectKind::Luck => "Luck",
            EntityEffectKind::Unluck => "Unluck",
            EntityEffectKind::SlowFalling => "SlowFalling",
            EntityEffectKind::ConduitPower => "ConduitPower",
            EntityEffectKind::DolphinsGrace => "DolphinsGrace",
            EntityEffectKind::BadOmen => "BadOmen",
            EntityEffectKind::HeroOfTheVillage => "HeroOfTheVillage",
        }
    }

    /// The bytes that follow the number.
    pub open spec fn body_of(v: EntityEffectKind) -> Seq<u8> {
        match v {
            EntityEffectKind::Speed => Seq::empty(),
            EntityEffectKind::Slowness => Seq::empty(),
            EntityEffectKind::Haste => Seq::empty(),
            EntityEffectKind::MiningFatigue => Seq::empty(),
            EntityEffectKind::Strength => Seq::empty(),
            EntityEffectKind::InstantHealth => Seq::empty(),
            EntityEffectKind::InstantDamage => Seq::empty(),
            EntityEffectKind::JumpBoost => Seq::empty(),
            EntityEffectKind::Nausea => Seq::empty(),
            EntityEffectKind::Regeneration => Seq::empty(),
            EntityEffectKind::Resistance => Seq::empty(),
            EntityEffectKind::FireResistance => Seq::empty(),
            EntityEffectKind::WaterBreathing => Seq::empty(),
            EntityEffectKind::Invisibility => Seq::empty(),
            EntityEffectKind::Blindness => Seq::empty(),
            EntityEffectKind::NightVision => Seq::empty(),
            EntityEffectKind::Hunger => Seq::empty(),
            EntityEffectKind::Weakness => Seq::empty(),
            EntityEffectKind::Poison => Seq::empty(),
            EntityEffectKind::Wither => Seq::empty(),
            EntityEffectKind::HealthBoost => Seq::empty(),
            EntityEffectKind::Absorption => Seq::empty(),
            EntityEffectKind::Saturation => Seq::empty(),
            EntityEffectKind::Glowing => Seq::empty(),
            EntityEffectKind::Levetation => Seq::empty(),
            EntityEffectKind::Luck => Seq::empty(),
            EntityEffectKind::Unluck => Seq::empty(),
            EntityEffectKind::SlowFalling => Seq::empty(),
            EntityEffectKind::ConduitPower => Seq::empty(),
            EntityEffectKind::DolphinsGrace => Seq::empty(),
            EntityEffectKind::BadOmen => Seq::empty(),
            EntityEffectKind::HeroOfTheVillage => Seq::empty(),
        }
    }

    /// Whether what follows the number can be written.
    pub open spec fn body_writable(v: EntityEffectKind) -> bool {
        match v {
            EntityEffectKind::Speed => true,
            EntityEffectKind::Slowness => true,
            EntityEffectKind::Haste => true,
            EntityEffectKind::MiningFatigue => true,
            EntityEffectKind::Strength => true,
            EntityEffectKind::InstantHealth => true,
            EntityEffectKind::InstantDamage => true,
            EntityEffectKind::JumpBoost => true,
            EntityEffectKind::Nausea => true,
            EntityEffectKind::Regeneration => true,
            EntityEffectKind::Resistance => true,
            EntityEffectKind::FireResistance => true,
            EntityEffectKind::WaterBreathing => true,
            EntityEffectKind::Invisibility => true,
            EntityEffectKind::Blindness => true,
            EntityEffectKind::NightVision => true,
            EntityEffectKind::Hunger => true,
            EntityEffectKind::Weakness => true,
            EntityEffectKind::Poison => true,
            EntityEffectKind::Wither => true,
            EntityEffectKind::HealthBoost => true,
            EntityEffectKind::Absorption => true,
            EntityEffectKind::Saturation => true,
            EntityEffectKind::Glowing => true,
            EntityEffectKind::Levetation => true,
            EntityEffectKind::Luck => true,
            EntityEffectKind::Unluck => true,
            EntityEffectKind::SlowFalling => true,
            EntityEffectKind::ConduitPower => true,
            EntityEffectKind::DolphinsGrace => true,
            EntityEffectKind::BadOmen => true,
            EntityEffectKind::HeroOfTheVillage => true,
        }
    }

    /// The variant that `id` stands for, with its body read from `data`.
    pub open spec fn decode_with_id(id: u8, data: Seq<u8>) -> Decoded<EntityEffectKind> {
        if id == 0x01 {
            Ok((EntityEffectKind::Speed, 0))
        } else if id == 0x02 {
            Ok((EntityEffectKind::Slowness, 0))
        } else if id == 0x03 {
            Ok((EntityEffectKind::Haste, 0))
        } else if id == 0x04 {
            Ok((EntityEffectKind::MiningFatigue, 0))
        } else if id == 0x05 {
            Ok((EntityEffectKind::Strength, 0))
        } else if id == 0x06 {
            Ok((EntityEffectKind::InstantHealth, 0))
        } else if id == 0x07 {
            Ok((EntityEffectKind::InstantDamage, 0))
        } else if id == 0x08 {
            Ok((EntityEffectKind::JumpBoost, 0))
        } else if id == 0x09 {
            Ok((EntityEffectKind::Nausea, 0))
        } else if id == 0x0A {
            Ok((EntityEffectKind::Regeneration, 0))
        } else if id == 0x0B {
            Ok((EntityEffectKind::Resistance, 0))
        } else if id == 0x0C {
            Ok((EntityEffectKind::FireResistance, 0))
        } else if id == 0x0D {
            Ok((EntityEffectKind::WaterBreathing, 0))
        } else if id == 0x0E {
            Ok((EntityEffectKind::Invisibility, 0))
        } else if id == 0x0F {
            Ok((EntityEffectKind::Blindness, 0))
        } else if id == 0x10 {
            Ok((EntityEffectKind::NightVision, 0))
        } else if id == 0x11 {
            Ok((EntityEffectKind::Hunger, 0))
        } else if id == 0x12 {
            Ok((EntityEffectKind::Weakness, 0))
        } else if id == 0x13 {
            Ok((EntityEffectKind::Poison, 0))
        } else if id == 0x14 {
            Ok((EntityEffectKind::Wither, 0))
        } else if id == 0x15 {
            Ok((EntityEffectKind::HealthBoost, 0))
        } else if id == 0x16 {
            Ok((EntityEffectKind::Absorption, 0))
        } else if id == 0x17 {
            Ok((EntityEffectKind::Saturation, 0))
        } else if id == 0x18 {
            Ok((EntityEffectKind::Glowing, 0))
        } else if id == 0x19 {
            Ok((EntityEffectKind::Levetation, 0))
        } else if id == 0x1A {
            Ok((EntityEffectKind::Luck, 0))
        } else if id == 0x1B {
            Ok((EntityEffectKind::Unluck, 0))
        } else if id == 0x1C {
            Ok((EntityEffectKind::SlowFalling, 0))
        } else if id == 0x1D {
            Ok((EntityEffectKind::ConduitPower, 0))
        } else if id == 0x1E {
            Ok((EntityEffectKind::DolphinsGrace, 0))
        } else if id == 0x1F {
            Ok((EntityEffectKind::BadOmen, 0))
        } else if id == 0x20 {
            Ok((EntityEffectKind::HeroOfTheVillage, 0))
        } else {
            Err(DecodeFailure::CannotUnderstandValue)
        }
    }

    /// Whether `id` stands for a variant.
    pub open spec fn has_id(id: u8) -> bool {
        id == 0x01
            || id == 0x02
            || id == 0x03
            || id == 0x04
            || id == 0x05
            || id == 0x06
            || id == 0x07
            || id == 0x08
            || id == 0x09
            || id == 0x0A
            || id == 0x0B
            || id == 0x0C
            || id == 0x0D
            || id == 0x0E
            || id == 0x0F
            || id == 0x10
            || id == 0x11
            || id == 0x12
            || id == 0x13
            || id == 0x14
            || id == 0x15
            || id == 0x16
            || id == 0x17
            || id == 0x18
            || id == 0x19
            || id == 0x1A
            || id == 0x1B
            || id == 0x1C
            || id == 0x1D
            || id == 0x1E
            || id == 0x1F
            || id == 0x20
    }

    /// Picks the variant for `id` and reads its body from `data`. A number
    /// that stands for no variant is refused, and the error says which.
    pub fn deserialize_with_id<'a>(id: u8, data: &'a [u8]) -> (r: DeserializeResult<'a, Self>)
        ensures
            agrees(r, data@, Self::decode_with_id(id, data@)),
            !Self::has_id(id) ==> (r matches Err(DeserializeErr::CannotUnderstandValue(m))
                && m@ == invalid_message("EntityEffectKind"@, id as nat)),
    {
        proof {
            assert(data@.skip(0) =~= data@);
        }
        match id {
            0x01 => Ok(Deserialized { value: EntityEffectKind::Speed, data }),
            0x02 => Ok(Deserialized { value: EntityEffectKind::Slowness, data }),
            0x03 => Ok(Deserialized { value: EntityEffectKind::Haste, data }),
            0x04 => Ok(Deserialized { value: EntityEffectKind::MiningFatigue, data }),
            0x05 => Ok(Deserialized { value: EntityEffectKind::Strength, data }),
            0x06 => Ok(Deserialized { value: EntityEffectKind::InstantHealth, data }),
            0x07 => Ok(Deserialized { value: EntityEffectKind::InstantDamage, data }),
            0x08 => Ok(Deserialized { value: EntityEffectKind::JumpBoost, data }),
            0x09 => Ok(Deserialized { value: EntityEffectKind::Nausea, data }),
            0x0A => Ok(Deserialized { value: EntityEffectKind::Regeneration, data }),
            0x0B => Ok(Deserialized { value: EntityEffectKind::Resistance, data }),
            0x0C => Ok(Deserialized { value: EntityEffectKind::FireResistance, data }),
            0x0D => Ok(Deserialized { value: EntityEffectKind::WaterBreathing, data }),
            0x0E => Ok(Deserialized { value: EntityEffectKind::Invisibility, data }),
            0x0F => Ok(Deserialized { value: EntityEffectKind::Blindness, data }),
            0x10 => Ok(Deserialized { value: EntityEffectKind::NightVision, data }),
            0x11 => Ok(Deserialized { value: EntityEffectKind::Hunger, data }),
            0x12 => Ok(Deserialized { value: EntityEffectKind::Weakness, data }),
            0x13 => Ok(Deserialized { value: EntityEffectKind::Poison, data }),
            0x14 => Ok(Deserialized { value: EntityEffectKind::Wither, data }),
            0x15 => Ok(Deserialized { value: EntityEffectKind::HealthBoost, data }),
            0x16 => Ok(Deserialized { value: EntityEffectKind::Absorption, data }),
            0x17 => Ok(Deserialized { value: EntityEffectKind::Saturation, data }),
            0x18 => Ok(Deserialized { value: EntityEffectKind::Glowing, data }),
            0x19 => Ok(Deserialized { value: EntityEffectKind::Levetation, data }),
            0x1A => Ok(Deserialized { value: EntityEffectKind::Luck, data }),
            0x1B => Ok(Deserialized { value: EntityEffectKind::Unluck, data }),
            0x1C => Ok(Deserialized { value: EntityEffectKind::SlowFalling, data }),
            0x1D => Ok(Deserialized { value: EntityEffectKind::ConduitPower, data }),
            0x1E => Ok(Deserialized { value: EntityEffectKind::DolphinsGrace, data }),
            0x1F => Ok(Deserialized { value: EntityEffectKind::BadOmen, data }),
            0x20 => Ok(Deserialized { value: EntityEffectKind::HeroOfTheVillage, data }),
            other => Err(DeserializeErr::CannotUnderstandValue(invalid_value_message("EntityEffectKind", other as u64))),
        }
    }

    /// Writes what follows the number.
    pub fn serialize_body<S: Serializer>(&self, to: &mut S) -> (r: SerializeResult)
        ensures
            r is Ok ==> Self::body_writable(self.deep_view()) && final(to).written() == old(
                to,
            ).written() + Self::body_of(self.deep_view()),
            old(to).infallible() ==> final(to).infallible(),
            old(to).infallible() ==> (r is Ok <==> Self::body_writable(self.deep_view())),
            old(to).infallible() && r is Err ==> (r matches Err(SerializeErr::CannotSerialize(_))),
    {
        match self {
            EntityEffectKind::Speed => {
                proof {
                    assert(old(to).written() + Seq::<u8>::empty() =~= old(to).written());
                }
                Ok(())
            },
            EntityEffectKind::Slowness => {
                proof {
                    assert(old(to).written() + Seq::<u8>::empty() =~= old(to).written());
                }
                Ok(())
            },
            EntityEffectKind::Haste => {
                proof {
                    assert(old(to).written() + Seq::<u8>::empty() =~= old(to).written());
                }
                Ok(())
            },
            EntityEffectKind::MiningFatigue => {
                proof {
                    assert(old(to).written() + Seq::<u8>::empty() =~= old(to).written());
                }
                Ok(())
            },
            EntityEffectKind::Strength => {
                proof {
                    assert(old(to).written() + Seq::<u8>::empty() =~= old(to).written());
                }
                Ok(())
            },
            EntityEffectKind::InstantHealth => {
                proof {
                    assert(old(to).written() + Seq::<u8>::empty() =~= old(to).written());
                }
                Ok(())
            },
            EntityEffectKind::InstantDamage => {
                proof {
                    assert(old(to).written() + Seq::<u8>::empty() =~= old(to).written());
                }
                Ok(())
            },
            EntityEffectKind::JumpBoost => {
                proof {
                    assert(old(to).written() + Seq::<u8>::empty() =~= old(to).written());
                }
                Ok(())
            },
            EntityEffectKind::Nausea => {
                proof {
                    assert(old(to).written() + Seq::<u8>::empty() =~= old(to).written());
                }
                Ok(())
            },
            EntityEffectKind::Regeneration => {
                proof {
                    assert(old(to).written() + Seq::<u8>::empty() =~= old(to).written());
                }
                Ok(())
            },
            EntityEffectKind::Resistance => {
                proof {
                    assert(old(to).written() + Seq::<u8>::empty() =~= old(to).written());
                }
                Ok(())
            },
            EntityEffectKind::FireResistance => {
                proof {
                    assert(old(to).written() + Seq::<u8>::empty() =~= old(to).written());
                }
                Ok(())
            },
            EntityEffectKind::WaterBreathing => {
                proof {
                    assert(old(to).written() + Seq::<u8>::empty() =~= old(to).written());
                }
                Ok(())
            },
            EntityEffectKind::Invisibility => {
                proof {
                    assert(old(to).written() + Seq::<u8>::empty() =~= old(to).written());
                }
                Ok(())
            },
            EntityEffectKind::Blindness => {
                proof {
                    assert(old(to).written() + Seq::<u8>::empty() =~= old(to).written());
                }
                Ok(())
            },
            EntityEffectKind::NightVision => {
                proof {
                    assert(old(to).written() + Seq::<u8>::empty() =~= old(to).written());
                }
                Ok(())
            },
            EntityEffectKind::Hunger => {
                proof {
                    assert(old(to).written() + Seq::<u8>::empty() =~= old(to).written());
                }
                Ok(())
            },
            EntityEffectKind::Weakness => {
                proof {
                    assert(old(to).written() + Seq::<u8>::empty() =~= old(to).written());
                }
                Ok(())
            },
            EntityEffectKind::Poison => {
                proof {
                    assert(old(to).written() + Seq::<u8>::empty() =~= old(to).written());
                }
                Ok(())
            },
            EntityEffectKind::Wither => {
                proof {
                    assert(old(to).written() + Seq::<u8>::empty() =~= old(to).written());
                }
                Ok(())
            },
            EntityEffectKind::HealthBoost => {
                proof {
                    assert(old(to).written() + Seq::<u8>::empty() =~= old(to).written());
                }
                Ok(())
            },
            EntityEffectKind::Absorption => {
                proof {
                    assert(old(to).written() + Seq::<u8>::empty() =~= old(to).written());
                }
                Ok(())
            },
            EntityEffectKind::Saturation => {
                proof {
                    assert(old(to).written() + Seq::<u8>::empty() =~= old(to).written());
                }
                Ok(())
            },
            EntityEffectKind::Glowing => {
                proof {
                    assert(old(to).written() + Seq::<u8>::empty() =~= old(to).written());
                }
                Ok(())
            },
            EntityEffectKind::Levetation => {
                proof {
                    assert(old(to).written() + Seq::<u8>::empty() =~= old(to).written());
                }
                Ok(())
            },
            EntityEffectKind::Luck => {
                proof {
                    assert(old(to).written() + Seq::<u8>::empty() =~= old(to).written());
                }
                Ok(())
            },
            EntityEffectKind::Unluck => {
                proof {
                    assert(old(to).written() + Seq::<u8>::empty() =~= old(to).written());
                }
                Ok(())
            },
            EntityEffectKind::SlowFalling => {
                proof {
                    assert(old(to).written() + Seq::<u8>::empty() =~= old(to).written());
                }
                Ok(())
            },
            EntityEffectKind::ConduitPower => {
                proof {
                    assert(old(to).written() + Seq::<u8>::empty() =~= old(to).written());
                }
                Ok(())
            },
            EntityEffectKind::DolphinsGrace => {
                proof {
                    assert(old(to).written() + Seq::<u8>::empty() =~= old(to).written());
                }
                Ok(())
            },
            EntityEffectKind::BadOmen => {
                proof {
                    assert(old(to).written() + Seq::<u8>::empty() =~= old(to).written());
                }
                Ok(())
            },
            EntityEffectKind::HeroOfTheVillage => {
                proof {
                    assert(old(to).written() + Seq::<u8>::empty() =~= old(to).written());
                }
                Ok(())
            },
        }
    }
}

impl Serialize for EntityEffectKind {
    open spec fn serializable(v: EntityEffectKind) -> bool {
        Self::body_writable(v)
    }

    #[verifier::opaque]
    open spec fn encode(v: EntityEffectKind) -> Seq<u8> {
        <u8>::encode(Self::id_of(v)) + Self::body_of(v)
    }

    fn mc_serialize<S: Serializer>(&self, to: &mut S) -> (r: SerializeResult) {
        proof {
            reveal(<EntityEffectKind as Serialize>::encode);
        }
        let id_to_serialize: u8 = self.id();
        id_to_serialize.mc_serialize(to)?;
        let r = self.serialize_body(to);
        proof {
            let head = <u8>::encode(Self::id_of(self.deep_view()));
            let body = Self::body_of(self.deep_view());
            lemma_concat_assoc(old(to).written(), head, body);
        }
        r
    }
}

impl Deserialize for EntityEffectKind {
    #[verifier::opaque]
    open spec fn decode(data: Seq<u8>) -> Decoded<EntityEffectKind> {
        match <u8>::decode(data) {
            Err(e) => Err(e),
            Ok((id, n)) => match Self::decode_with_id(id, data.skip(n as int)) {
                Ok((v, m)) => Ok((v, n + m)),
                Err(e) => Err(e),
            },
        }
    }

    fn mc_deserialize(data: &[u8]) -> (r: DeserializeResult<'_, EntityEffectKind>) {
        proof {
            reveal(<EntityEffectKind as Deserialize>::decode);
        }
        let Deserialized { value: id, data: rest } = <u8>::mc_deserialize(data)?;
        let Deserialized { value, data: after } = Self::deserialize_with_id(id, rest)?;
        proof {
            lemma_skip_skip(data@, data@.len() - rest@.len(), rest@.len() - after@.len());
        }
        Ok(Deserialized { value, data: after })
    }
}

impl ProtocolType for EntityEffectKind {
    open spec fn faithful(v: EntityEffectKind) -> bool {
        match v {
            EntityEffectKind::Speed => true,
            EntityEffectKind::Slowness => true,
            EntityEffectKind::Haste => true,
            EntityEffectKind::MiningFatigue => true,
            EntityEffectKind::Strength => true,
            EntityEffectKind::InstantHealth => true,
            EntityEffectKind::InstantDamage => true,
            EntityEffectKind::JumpBoost => true,
            EntityEffectKind::Nausea => true,
            EntityEffectKind::Regeneration => true,
            EntityEffectKind::Resistance => true,
            EntityEffectKind::FireResistance => true,
            EntityEffectKind::WaterBreathing => true,
            EntityEffectKind::Invisibility => true,
            EntityEffectKind::Blindness => true,
            EntityEffectKind::NightVision => true,
            EntityEffectKind::Hunger => true,
            EntityEffectKind::Weakness => true,
            EntityEffectKind::Poison => true,
            EntityEffectKind::Wither => true,
            EntityEffectKind::HealthBoost => true,
            EntityEffectKind::Absorption => true,
            EntityEffectKind::Saturation => true,
            EntityEffectKind::Glowing => true,
            EntityEffectKind::Levetation => true,
            EntityEffectKind::Luck => true,
            EntityEffectKind::Unluck => true,
            EntityEffectKind::SlowFalling => true,
            EntityEffectKind::ConduitPower => true,
            EntityEffectKind::DolphinsGrace => true,
            EntityEffectKind::BadOmen => true,
            EntityEffectKind::HeroOfTheVillage => true,
        }
    }

    open spec fn delimited() -> bool {
        true
    }

    proof fn lemma_round_trip(v: EntityEffectKind, rest: Seq<u8>) {
        reveal(<EntityEffectKind as Serialize>::encode);
        reveal(<EntityEffectKind as Deserialize>::decode);
        let head = <u8>::encode(Self::id_of(v));
        let body = Self::body_of(v);
        <u8>::lemma_round_trip(Self::id_of(v), body + rest);
        Self::lemma_body_round_trip(v, rest);
        lemma_concat_assoc(head, body, rest);
        lemma_skip_concat(head, body + rest);
    }
}

impl EntityEffectKind {
    /// What follows the number, written out and followed by anything, reads
    /// back under that number.
    pub proof fn lemma_body_round_trip(v: EntityEffectKind, rest: Seq<u8>)
        requires
            <Self as ProtocolType>::faithful(v),
            <Self as ProtocolType>::delimited() || rest.len() == 0,
        ensures
            Self::body_writable(v),
            Self::decode_with_id(Self::id_of(v), Self::body_of(v) + rest) == Ok::<_, DecodeFailure>(
                (v, Self::body_of(v).len()),
            ),
    {
        match v {
            EntityEffectKind::Speed => {
                assert(Seq::<u8>::empty() + rest =~= rest);
            },
            EntityEffectKind::Slowness => {
                assert(Seq::<u8>::empty() + rest =~= rest);
            },
            EntityEffectKind::Haste => {
                assert(Seq::<u8>::empty() + rest =~= rest);
            },
            EntityEffectKind::MiningFatigue => {
                assert(Seq::<u8>::empty() + rest =~= rest);
            },
            EntityEffectKind::Strength => {
                assert(Seq::<u8>::empty() + rest =~= rest);
            },
            EntityEffectKind::InstantHealth => {
                assert(Seq::<u8>::empty() + rest =~= rest);
            },
            EntityEffectKind::InstantDamage => {
                assert(Seq::<u8>::empty() + rest =~= rest);
            },
            EntityEffectKind::JumpBoost => {
                assert(Seq::<u8>::empty() + rest =~= rest);
            },
            EntityEffectKind::Nausea => {
                assert(Seq::<u8>::empty() + rest =~= rest);
            },
            EntityEffectKind::Regeneration => {
                assert(Seq::<u8>::empty() + rest =~= rest);
            },
            EntityEffectKind::Resistance => {
                assert(Seq::<u8>::empty() + rest =~= rest);
            },
            EntityEffectKind::FireResistance => {
                assert(Seq::<u8>::empty() + rest =~= rest);
            },
            EntityEffectKind::WaterBreathing => {
                assert(Seq::<u8>::empty() + rest =~= rest);
            },
            EntityEffectKind::Invisibility => {
                assert(Seq::<u8>::empty() + rest =~= rest);
            },
            EntityEffectKind::Blindness => {
                assert(Seq::<u8>::empty() + rest =~= rest);
            },
            EntityEffectKind::NightVision => {
                assert(Seq::<u8>::empty() + rest =~= rest);
            },
            EntityEffectKind::Hunger => {
                assert(Seq::<u8>::empty() + rest =~= rest);
            },
            EntityEffectKind::Weakness => {
                assert(Seq::<u8>::empty() + rest =~= rest);
            },
            EntityEffectKind::Poison => {
                assert(Seq::<u8>::empty() + rest =~= rest);
            },
            EntityEffectKind::Wither => {
                assert(Seq::<u8>::empty() + rest =~= rest);
            },
            EntityEffectKind::HealthBoost => {
                assert(Seq::<u8>::empty() + rest =~= rest);
            },
            EntityEffectKind::Absorption => {
                assert(Seq::<u8>::empty() + rest =~= rest);
            },
            EntityEffectKind::Saturation => {
                assert(Seq::<u8>::empty() + rest =~= rest);
            },
            EntityEffectKind::Glowing => {
                assert(Seq::<u8>::empty() + rest =~= rest);
            },
            EntityEffectKind::Levetation => {
                assert(Seq::<u8>::empty() + rest =~= rest);
            },
            EntityEffectKind::Luck => {
                assert(Seq::<u8>::empty() + rest =~= rest);
            },
            EntityEffectKind::Unluck => {
                assert(Seq::<u8>::empty() + rest =~= rest);
            },
            EntityEffectKind::SlowFalling => {
                assert(Seq::<u8>::empty() + rest =~= rest);
            },
            EntityEffectKind::ConduitPower => {
                assert(Seq::<u8>::empty() + rest =~= rest);
            },
            EntityEffectKind::DolphinsGrace => {
                assert(Seq::<u8>::empty() + rest =~= rest);
            },
            EntityEffectKind::BadOmen => {
                assert(Seq::<u8>::empty() + rest =~= rest);
            },
            EntityEffectKind::HeroOfTheVillage => {
                assert(Seq::<u8>::empty() + rest =~= rest);
            },
        }
    }
}

/// An advancement under its name.
#[derive(Debug, Clone, PartialEq)]
pub struct AdvancementMappingEntrySpec {
    pub key: String,
    pub value: AdvancementSpec,
}

/// The mathematical content of a [`AdvancementMappingEntrySpec`].
pub struct AdvancementMappingEntrySpecView {
    pub key: Seq<char>,
    pub value: <AdvancementSpec as DeepView>::V,
}

impl DeepView for AdvancementMappingEntrySpec {
    type V = AdvancementMappingEntrySpecView;

    open spec fn deep_view(&self) -> AdvancementMappingEntrySpecView {
        AdvancementMappingEntrySpecView {
            key: self.key.deep_view(),
            value: self.value.deep_view(),
        }
    }
}

impl Serialize for AdvancementMappingEntrySpec {
    open spec fn serializable(v: AdvancementMappingEntrySpecView) -> bool {
        String::serializable(v.key) && AdvancementSpec::serializable(v.value)
    }

    #[verifier::opaque]
    open spec fn encode(v: AdvancementMappingEntrySpecView) -> Seq<u8> {
        String::encode(v.key) + AdvancementSpec::encode(v.value)
    }

    fn mc_serialize<S: Serializer>(&self, to: &mut S) -> (r: SerializeResult) {
        proof {
            reveal(<AdvancementMappingEntrySpec as Serialize>::encode);
        }
        self.key.mc_serialize(to)?;
        self.value.mc_serialize(to)?;
        proof {
            assert(to.written() =~= old(to).written() + Self::encode(self.deep_view()));
        }
        Ok(())
    }
}

impl Deserialize for AdvancementMappingEntrySpec {
    #[verifier::opaque]
    open spec fn decode(data: Seq<u8>) -> Decoded<AdvancementMappingEntrySpecView> {
        match String::decode(data) {
            Err(e) => Err(e),
            Ok((key, n0)) => {
                match AdvancementSpec::decode(data.skip((n0) as int)) {
                    Err(e) => Err(e),
                    Ok((value, n1)) => Ok((AdvancementMappingEntrySpecView { key, value }, n0 + n1)),
                }
            },
        }
    }

    fn mc_deserialize(data: &[u8]) -> (r: DeserializeResult<'_, AdvancementMappingEntrySpec>) {
        proof {
            reveal(<AdvancementMappingEntrySpec as Deserialize>::decode);
        }
        let ghost whole = data@;
        let Deserialized { value: key, data: rest0 } = String::mc_deserialize(data)?;
        let Deserialized { value: value, data: rest1 } = AdvancementSpec::mc_deserialize(rest0)?;
        proof {
            lemma_skip_skip(
                whole,
                whole.len() - rest0@.len(),
                rest0@.len() - rest1@.len(),
            );
        }
        Ok(Deserialized { value: AdvancementMappingEntrySpec { key, value }, data: rest1 })
    }
}

impl ProtocolType for AdvancementMappingEntrySpec {
    open spec fn faithful(v: AdvancementMappingEntrySpecView) -> bool {
        String::faithful(v.key) && AdvancementSpec::faithful(v.value)
    }

    open spec fn delimited() -> bool {
        AdvancementSpec::delimited()
    }

    proof fn lemma_round_trip(v: AdvancementMappingEntrySpecView, rest: Seq<u8>) {
        reveal(<AdvancementMappingEntrySpec as Serialize>::encode);
        reveal(<AdvancementMappingEntrySpec as Deserialize>::decode);
        let e0 = String::encode(v.key);
        let e1 = AdvancementSpec::encode(v.value);
        let data = Self::encode(v) + rest;
        let t2 = rest;
        let t1 = e1 + t2;
        let t0 = e0 + t1;
        let l0 = e0;
        let l1 = l0 + e1;
        lemma_concat_assoc(l0, e1, t2);
        assert(data == t0);
        String::lemma_round_trip(v.key, t1);
        lemma_skip_concat(e0, t1);
        AdvancementSpec::lemma_round_trip(v.value, t2);
        lemma_skip_more(data, (e0.len()) as int, e1, t2);
    }
}

/// An advancement: its parent, how it shows, and what it asks for.
#[derive(Debug, Clone, PartialEq)]
pub struct AdvancementSpec {
    pub parent: Option<String>,
    pub display: Option<AdvancementDisplaySpec>,
    pub criteria: CountedArray<String, VarInt>,
    pub requirements: CountedArray<CountedArray<String, VarInt>, VarInt>,
}

/// The mathematical content of a [`AdvancementSpec`].
pub struct AdvancementSpecView {
    pub parent: <Option<String> as DeepView>::V,
    pub display: <Option<AdvancementDisplaySpec> as DeepView>::V,
    pub criteria: <CountedArray<String, VarInt> as DeepView>::V,
    pub requirements: <CountedArray<CountedArray<String, VarInt>, VarInt> as DeepView>::V,
}

impl DeepView for AdvancementSpec {
    type V = AdvancementSpecView;

    open spec fn deep_view(&self) -> AdvancementSpecView {
        AdvancementSpecView {
            parent: self.parent.deep_view(),
            display: self.display.deep_view(),
            criteria: self.criteria.deep_view(),
            requirements: self.requirements.deep_view(),
        }
    }
}

impl Serialize for AdvancementSpec {
    open spec fn serializable(v: AdvancementSpecView) -> bool {
        <Option<String>>::serializable(v.parent) && <Option<AdvancementDisplaySpec>>::serializable(v.display) && <CountedArray<String, VarInt>>::serializable(v.criteria) && <CountedArray<CountedArray<String, VarInt>, VarInt>>::serializable(v.requirements)
    }

    #[verifier::opaque]
    open spec fn encode(v: AdvancementSpecView) -> Seq<u8> {
        <Option<String>>::encode(v.parent) + <Option<AdvancementDisplaySpec>>::encode(v.display) + <CountedArray<String, VarInt>>::encode(v.criteria) + <CountedArray<CountedArray<String, VarInt>, VarInt>>::encode(v.requirements)
    }

    fn mc_serialize<S: Serializer>(&self, to: &mut S) -> (r: SerializeResult) {
        proof {
            reveal(<AdvancementSpec as Serialize>::encode);
        }
        self.parent.mc_serialize(to)?;
        self.display.mc_serialize(to)?;
        self.criteria.mc_serialize(to)?;
        self.requirements.mc_serialize(to)?;
        proof {
            let v = self.deep_view();
            let w = old(to).written();
            let e0 = <Option<String>>::encode(v.parent);
            let e1 = <Option<AdvancementDisplaySpec>>::encode(v.display);
            let e2 = <CountedArray<String, VarInt>>::encode(v.criteria);
            let e3 = <CountedArray<CountedArray<String, VarInt>, VarInt>>::encode(v.requirements);
            let l0 = e0;
            let l1 = l0 + e1;
            let l2 = l1 + e2;
            let l3 = l2 + e3;
            lemma_concat_assoc(w, l0, e1);
            lemma_concat_assoc(w, l1, e2);
            lemma_concat_assoc(w, l2, e3);
        }
        Ok(())
    }
}

impl Deserialize for AdvancementSpec {
    #[verifier::opaque]
    open spec fn decode(data: Seq<u8>) -> Decoded<AdvancementSpecView> {
        match <Option<String>>::decode(data) {
            Err(e) => Err(e),
            Ok((parent, n0)) => {
                match <Option<AdvancementDisplaySpec>>::decode(data.skip((n0) as int)) {
                    Err(e) => Err(e),
                    Ok((display, n1)) => {
                        match <CountedArray<String, VarInt>>::decode(data.skip((n0 + n1) as int)) {
                            Err(e) => Err(e),
                            Ok((criteria, n2)) => {
                                match <CountedArray<CountedArray<String, VarInt>, VarInt>>::decode(data.skip((n0 + n1 + n2) as int)) {
                                    Err(e) => Err(e),
                                    Ok((requirements, n3)) => Ok((AdvancementSpecView { parent, display, criteria, requirements }, n0 + n1 + n2 + n3)),
                                }
                            },
                        }
                    },
                }
            },
        }
    }

    fn mc_deserialize(data: &[u8]) -> (r: DeserializeResult<'_, AdvancementSpec>) {
        proof {
            reveal(<AdvancementSpec as Deserialize>::decode);
        }
        let ghost whole = data@;
        let Deserialized { value: parent, data: rest0 } = <Option<String>>::mc_deserialize(data)?;
        let Deserialized { value: display, data: rest1 } = <Option<AdvancementDisplaySpec>>::mc_deserialize(rest0)?;
        proof {
            lemma_skip_skip(
                whole,
                whole.len() - rest0@.len(),
                rest0@.len() - rest1@.len(),
            );
        }
        let Deserialized { value: criteria, data: rest2 } = <CountedArray<String, VarInt>>::mc_deserialize(rest1)?;
        proof {
            lemma_skip_skip(
                whole,
                whole.len() - rest1@.len(),
                rest1@.len() - rest2@.len(),
            );
        }
        let Deserialized { value: requirements, data: rest3 } = <CountedArray<CountedArray<String, VarInt>, VarInt>>::mc_deserialize(rest2)?;
        proof {
            lemma_skip_skip(
                whole,
                whole.len() - rest2@.len(),
                rest2@.len() - rest3@.len(),
            );
        }
        Ok(Deserialized { value: AdvancementSpec { parent, display, criteria, requirements }, data: rest3 })
    }
}

impl ProtocolType for AdvancementSpec {
    open spec fn faithful(v: AdvancementSpecView) -> bool {
        <Option<String>>::faithful(v.parent) && <Option<AdvancementDisplaySpec>>::faithful(v.display) && <CountedArray<String, VarInt>>::faithful(v.criteria) && <CountedArray<CountedArray<String, VarInt>, VarInt>>::faithful(v.requirements)
    }

    open spec fn delimited() -> bool {
        <CountedArray<CountedArray<String, VarInt>, VarInt>>::delimited()
    }

    proof fn lemma_round_trip(v: AdvancementSpecView, rest: Seq<u8>) {
        reveal(<AdvancementSpec as Serialize>::encode);
        reveal(<AdvancementSpec as Deserialize>::decode);
        let e0 = <Option<String>>::encode(v.parent);
        let e1 = <Option<AdvancementDisplaySpec>>::encode(v.display);
        let e2 = <CountedArray<String, VarInt>>::encode(v.criteria);
        let e3 = <CountedArray<CountedArray<String, VarInt>, VarInt>>::encode(v.requirements);
        let data = Self::encode(v) + rest;
        let t4 = rest;
        let t3 = e3 + t4;
        let t2 = e2 + t3;
        let t1 = e1 + t2;
        let t0 = e0 + t1;
        let l0 = e0;
        let l1 = l0 + e1;
        let l2 = l1 + e2;
        let l3 = l2 + e3;
        lemma_concat_assoc(l2, e3, t4);
        lemma_concat_assoc(l1, e2, t3);
        lemma_concat_assoc(l0, e1, t2);
        assert(data == t0);
        <Option<String>>::lemma_round_trip(v.parent, t1);
        lemma_skip_concat(e0, t1);
        <Option<AdvancementDisplaySpec>>::lemma_round_trip(v.display, t2);
        lemma_skip_more(data, (e0.len()) as int, e1, t2);
        <CountedArray<String, VarInt>>::lemma_round_trip(v.criteria, t3);
        lemma_skip_more(data, (e0.len() + e1.len()) as int, e2, t3);
        <CountedArray<CountedArray<String, VarInt>, VarInt>>::lemma_round_trip(v.requirements, t4);
        lemma_skip_more(data, (e0.len() + e1.len() + e2.len()) as int, e3, t4);
    }
}

/// How an advancement shows. Title and description are held as the JSON text of chat components.
#[derive(Debug, Clone, PartialEq)]
pub struct AdvancementDisplaySpec {
    /// The title, as the JSON text of a chat component.
    pub title: String,
    /// The description, as the JSON text of a chat component.
    pub description: String,
    pub icon: Slot,
    pub frame_type: AdvancementFrameType,
    pub flags: AdvancementDisplayFlags,
    /// Each float is held as its bit pattern.
    pub position: Vec2<u32>,
}

/// The mathematical content of a [`AdvancementDisplaySpec`].
pub struct AdvancementDisplaySpecView {
    pub title: Seq<char>,
    pub description: Seq<char>,
    pub icon: <Slot as DeepView>::V,
    pub frame_type: <AdvancementFrameType as DeepView>::V,
    pub flags: <AdvancementDisplayFlags as DeepView>::V,
    pub position: <Vec2<u32> as DeepView>::V,
}

impl DeepView for AdvancementDisplaySpec {
    type V = AdvancementDisplaySpecView;

    open spec fn deep_view(&self) -> AdvancementDisplaySpecView {
        AdvancementDisplaySpecView {
            title: self.title.deep_view(),
            description: self.description.deep_view(),
            icon: self.icon.deep_view(),
            frame_type: self.frame_type.deep_view(),
            flags: self.flags.deep_view(),
            position: self.position.deep_view(),
        }
    }
}

impl Serialize for AdvancementDisplaySpec {
    open spec fn serializable(v: AdvancementDisplaySpecView) -> bool {
        String::serializable(v.title) && String::serializable(v.description) && <Slot>::serializable(v.icon) && AdvancementFrameType::serializable(v.frame_type) && AdvancementDisplayFlags::serializable(v.flags) && <Vec2<u32>>::serializable(v.position)
    }

    #[verifier::opaque]
    open spec fn encode(v: AdvancementDisplaySpecView) -> Seq<u8> {
        String::encode(v.title) + String::encode(v.description) + <Slot>::encode(v.icon) + AdvancementFrameType::encode(v.frame_type) + AdvancementDisplayFlags::encode(v.flags) + <Vec2<u32>>::encode(v.position)
    }

    fn mc_serialize<S: Serializer>(&self, to: &mut S) -> (r: SerializeResult) {
        proof {
            reveal(<AdvancementDisplaySpec as Serialize>::encode);
        }
        self.title.mc_serialize(to)?;
        self.description.mc_serialize(to)?;
        self.icon.mc_serialize(to)?;
        self.frame_type.mc_serialize(to)?;
        self.flags.mc_serialize(to)?;
        self.position.mc_serialize(to)?;
        proof {
            let v = self.deep_view();
            let w = old(to).written();
            let e0 = String::encode(v.title);
            let e1 = String::encode(v.description);
            let e2 = <Slot>::encode(v.icon);
            let e3 = AdvancementFrameType::encode(v.frame_type);
            let e4 = AdvancementDisplayFlags::encode(v.flags);
            let e5 = <Vec2<u32>>::encode(v.position);
            let l0 = e0;
            let l1 = l0 + e1;
            let l2 = l1 + e2;
            let l3 = l2 + e3;
            let l4 = l3 + e4;
            let l5 = l4 + e5;
            lemma_concat_assoc(w, l0, e1);
            lemma_concat_assoc(w, l1, e2);
            lemma_concat_assoc(w, l2, e3);
            lemma_concat_assoc(w, l3, e4);
            lemma_concat_assoc(w, l4, e5);
        }
        Ok(())
    }
}

impl Deserialize for AdvancementDisplaySpec {
    #[verifier::opaque]
    open spec fn decode(data: Seq<u8>) -> Decoded<AdvancementDisplaySpecView> {
        match String::decode(data) {
            Err(e) => Err(e),
            Ok((title, n0)) => {
                match String::decode(data.skip((n0) as int)) {
                    Err(e) => Err(e),
                    Ok((description, n1)) => {
                        match <Slot>::decode(data.skip((n0 + n1) as int)) {
                            Err(e) => Err(e),
                            Ok((icon, n2)) => {
                                match AdvancementFrameType::decode(data.skip((n0 + n1 + n2) as int)) {
                                    Err(e) => Err(e),
                                    Ok((frame_type, n3)) => {
                                        match AdvancementDisplayFlags::decode(data.skip((n0 + n1 + n2 + n3) as int)) {
                                            Err(e) => Err(e),
                                            Ok((flags, n4)) => {
                                                match <Vec2<u32>>::decode(data.skip((n0 + n1 + n2 + n3 + n4) as int)) {
                                                    Err(e) => Err(e),
                                                    Ok((position, n5)) => Ok((AdvancementDisplaySpecView { title, description, icon, frame_type, flags, position }, n0 + n1 + n2 + n3 + n4 + n5)),
                                                }
                                            },
                                        }
                                    },
                                }
                            },
                        }
                    },
                }
            },
        }
    }

    fn mc_deserialize(data: &[u8]) -> (r: DeserializeResult<'_, AdvancementDisplaySpec>) {
        proof {
            reveal(<AdvancementDisplaySpec as Deserialize>::decode);
        }
        let ghost whole = data@;
        let Deserialized { value: title, data: rest0 } = String::mc_deserialize(data)?;
        let Deserialized { value: description, data: rest1 } = String::mc_deserialize(rest0)?;
        proof {
            lemma_skip_skip(
                whole,
                whole.len() - rest0@.len(),
                rest0@.len() - rest1@.len(),
            );
        }
        let Deserialized { value: icon, data: rest2 } = <Slot>::mc_deserialize(rest1)?;
        proof {
            lemma_skip_skip(
                whole,
                whole.len() - rest1@.len(),
                rest1@.len() - rest2@.len(),
            );
        }
        let Deserialized { value: frame_type, data: rest3 } = AdvancementFrameType::mc_deserialize(rest2)?;
        proof {
            lemma_skip_skip(
                whole,
                whole.len() - rest2@.len(),
                rest2@.len() - rest3@.len(),
            );
        }
        let Deserialized { value: flags, data: rest4 } = AdvancementDisplayFlags::mc_deserialize(rest3)?;
        proof {
            lemma_skip_skip(
                whole,
                whole.len() - rest3@.len(),
                rest3@.len() - rest4@.len(),
            );
        }
        let Deserialized { value: position, data: rest5 } = <Vec2<u32>>::mc_deserialize(rest4)?;
        proof {
            lemma_skip_skip(
                whole,
                whole.len() - rest4@.len(),
                rest4@.len() - rest5@.len(),
            );
        }
        Ok(Deserialized { value: AdvancementDisplaySpec { title, description, icon, frame_type, flags, position }, data: rest5 })
    }
}

impl ProtocolType for AdvancementDisplaySpec {
    open spec fn faithful(v: AdvancementDisplaySpecView) -> bool {
        String::faithful(v.title) && String::faithful(v.description) && <Slot>::faithful(v.icon) && AdvancementFrameType::faithful(v.frame_type) && AdvancementDisplayFlags::faithful(v.flags) && <Vec2<u32>>::faithful(v.position)
    }

    open spec fn delimited() -> bool {
        <Vec2<u32>>::delimited()
    }

    proof fn lemma_round_trip(v: AdvancementDisplaySpecView, rest: Seq<u8>) {
        reveal(<AdvancementDisplaySpec as Serialize>::encode);
        reveal(<AdvancementDisplaySpec as Deserialize>::decode);
        let e0 = String::encode(v.title);
        let e1 = String::encode(v.description);
        let e2 = <Slot>::encode(v.icon);
        let e3 = AdvancementFrameType::encode(v.frame_type);
        let e4 = AdvancementDisplayFlags::encode(v.flags);
        let e5 = <Vec2<u32>>::encode(v.position);
        let data = Self::encode(v) + rest;
        let t6 = rest;
        let t5 = e5 + t6;
        let t4 = e4 + t5;
        let t3 = e3 + t4;
        let t2 = e2 + t3;
        let t1 = e1 + t2;
        let t0 = e0 + t1;
        let l0 = e0;
        let l1 = l0 + e1;
        let l2 = l1 + e2;
        let l3 = l2 + e3;
        let l4 = l3 + e4;
        let l5 = l4 + e5;
        lemma_concat_assoc(l4, e5, t6);
        lemma_concat_assoc(l3, e4, t5);
        lemma_concat_assoc(l2, e3, t4);
        lemma_concat_assoc(l1, e2, t3);
        lemma_concat_assoc(l0, e1, t2);
        assert(data == t0);
        String::lemma_round_trip(v.title, t1);
        lemma_skip_concat(e0, t1);
        String::lemma_round_trip(v.description, t2);
        lemma_skip_more(data, (e0.len()) as int, e1, t2);
        <Slot>::lemma_round_trip(v.icon, t3);
        lemma_skip_more(data, (e0.len() + e1.len()) as int, e2, t3);
        AdvancementFrameType::lemma_round_trip(v.frame_type, t4);
        lemma_skip_more(data, (e0.len() + e1.len() + e2.len()) as int, e3, t4);
        AdvancementDisplayFlags::lemma_round_trip(v.flags, t5);
        lemma_skip_more(data, (e0.len() + e1.len() + e2.len() + e3.len()) as int, e4, t5);
        <Vec2<u32>>::lemma_round_trip(v.position, t6);
        lemma_skip_more(data, (e0.len() + e1.len() + e2.len() + e3.len() + e4.len()) as int, e5, t6);
    }
}

/// The frame around the icon of an advancement.
#[derive(PartialEq, Eq, Structural, Clone, Copy, Debug)]
pub enum AdvancementFrameType {
    Task,
    Challenge,
    Goal,
}

impl View for AdvancementFrameType {
    type V = AdvancementFrameType;

    open spec fn view(&self) -> AdvancementFrameType {
        *self
    }
}

impl DeepView for AdvancementFrameType {
    type V = AdvancementFrameType;

    open spec fn deep_view(&self) -> AdvancementFrameType {
        *self
    }
}

impl AdvancementFrameType {
    pub fn variant_count() -> (r: usize)
        ensures
            r == 3,
    {
        3
    }

    /// The number that stands for the variant on the wire.
    pub open spec fn id_of(v: AdvancementFrameType) -> i32 {
        match v {
            AdvancementFrameType::Task => 0x00,
            AdvancementFrameType::Challenge => 0x01,
            AdvancementFrameType::Goal => 0x02,
        }
    }

    pub fn id(&self) -> (r: VarInt)
        ensures
            r == VarInt(Self::id_of(self.deep_view())),
    {
        match self {
            AdvancementFrameType::Task => VarInt(0x00),
            AdvancementFrameType::Challenge => VarInt(0x01),
            AdvancementFrameType::Goal => VarInt(0x02),
        }
    }

    pub open spec fn name_of(v: AdvancementFrameType) -> Seq<char> {
        match v {
            AdvancementFrameType::Task => "Task"@,
            AdvancementFrameType::Challenge => "Challenge"@,
            AdvancementFrameType::Goal => "Goal"@,
        }
    }

    pub fn name(&self) -> (r: &'static str)
        ensures
            r@ == Self::name_of(self.deep_view()),
    {
        match self {
            AdvancementFrameType::Task => "Task",
            AdvancementFrameType::Challenge => "Challenge",
            AdvancementFrameType::Goal => "Goal",
        }
    }

    /// The bytes that follow the number.
    pub open spec fn body_of(v: AdvancementFrameType) -> Seq<u8> {
        match v {
            AdvancementFrameType::Task => Seq::empty(),
            AdvancementFrameType::Challenge => Seq::empty(),
            AdvancementFrameType::Goal => Seq::empty(),
        }
    }

    /// Whether what follows the number can be written.
    pub open spec fn body_writable(v: AdvancementFrameType) -> bool {
        match v {
            AdvancementFrameType::Task => true,
            AdvancementFrameType::Challenge => true,
            AdvancementFrameType::Goal => true,
        }
    }

    /// The variant that `id` stands for, with its body read from `data`.
    pub open spec fn decode_with_id(id: i32, data: Seq<u8>) -> Decoded<AdvancementFrameType> {
        if id == 0x00 {
            Ok((AdvancementFrameType::Task, 0))
        } else if id == 0x01 {
            Ok((AdvancementFrameType::Challenge, 0))
        } else if id == 0x02 {
            Ok((AdvancementFrameType::Goal, 0))
        } else {
            Err(DecodeFailure::CannotUnderstandValue)
        }
    }

    /// Whether `id` stands for a variant.
    pub open spec fn has_id(id: i32) -> bool {
        id == 0x00
            || id == 0x01
            || id == 0x02
    }

    /// Picks the variant for `id` and reads its body from `data`. A number
    /// that stands for no variant is refused, and the error says which.
    pub fn deserialize_with_id<'a>(id: VarInt, data: &'a [u8]) -> (r: DeserializeResult<'a, Self>)
        ensures
            agrees(r, data@, Self::decode_with_id(id.0, data@)),
            !Self::has_id(id.0) ==> (r matches Err(DeserializeErr::CannotUnderstandValue(m))
                && m@ == invalid_int_text("AdvancementFrameType"@, id.0 as int)),
    {
        proof {
            assert(data@.skip(0) =~= data@);
        }
        match id.0 {
            0x00 => Ok(Deserialized { value: AdvancementFrameType::Task, data }),
            0x01 => Ok(Deserialized { value: AdvancementFrameType::Challenge, data }),
            0x02 => Ok(Deserialized { value: AdvancementFrameType::Goal, data }),
            other => Err(DeserializeErr::CannotUnderstandValue(invalid_int_message("AdvancementFrameType", other))),
        }
    }

    /// Writes what follows the number.
    pub fn serialize_body<S: Serializer>(&self, to: &mut S) -> (r: SerializeResult)
        ensures
            r is Ok ==> Self::body_writable(self.deep_view()) && final(to).written() == old(
                to,
            ).written() + Self::body_of(self.deep_view()),
            old(to).infallible() ==> final(to).infallible(),
            old(to).infallible() ==> (r is Ok <==> Self::body_writable(self.deep_view())),
            old(to).infallible() && r is Err ==> (r matches Err(SerializeErr::CannotSerialize(_))),
    {
        match self {
            AdvancementFrameType::Task => {
                proof {
                    assert(old(to).written() + Seq::<u8>::empty() =~= old(to).written());
                }
                Ok(())
            },
            AdvancementFrameType::Challenge => {
                proof {
                    assert(old(to).written() + Seq::<u8>::empty() =~= old(to).written());
                }
                Ok(())
            },
            AdvancementFrameType::Goal => {
                proof {
                    assert(old(to).written() + Seq::<u8>::empty() =~= old(to).written());
                }
                Ok(())
            },
        }
    }
}

impl Serialize for AdvancementFrameType {
    open spec fn serializable(v: AdvancementFrameType) -> bool {
        Self::body_writable(v)
    }

    #[verifier::opaque]
    open spec fn encode(v: AdvancementFrameType) -> Seq<u8> {
        <VarInt>::encode(VarInt(Self::id_of(v))) + Self::body_of(v)
    }

    fn mc_serialize<S: Serializer>(&self, to: &mut S) -> (r: SerializeResult) {
        proof {
            reveal(<AdvancementFrameType as Serialize>::encode);
        }
        let id_to_serialize: VarInt = self.id();
        id_to_serialize.mc_serialize(to)?;
        let r = self.serialize_body(to);
        proof {
            let head = <VarInt>::encode(VarInt(Self::id_of(self.deep_view())));
            let body = Self::body_of(self.deep_view());
            lemma_concat_assoc(old(to).written(), head, body);
        }
        r
    }
}

impl Deserialize for AdvancementFrameType {
    #[verifier::opaque]
    open spec fn decode(data: Seq<u8>) -> Decoded<AdvancementFrameType> {
        match <VarInt>::decode(data) {
            Err(e) => Err(e),
            Ok((id, n)) => match Self::decode_with_id(id.0, data.skip(n as int)) {
                Ok((v, m)) => Ok((v, n + m)),
                Err(e) => Err(e),
            },
        }
    }

    fn mc_deserialize(data: &[u8]) -> (r: DeserializeResult<'_, AdvancementFrameType>) {
        proof {
            reveal(<AdvancementFrameType as Deserialize>::decode);
        }
        let Deserialized { value: id, data: rest } = <VarInt>::mc_deserialize(data)?;
        let Deserialized { value, data: after } = Self::deserialize_with_id(id, rest)?;
        proof {
            lemma_skip_skip(data@, data@.len() - rest@.len(), rest@.len() - after@.len());
        }
        Ok(Deserialized { value, data: after })
    }
}

impl ProtocolType for AdvancementFrameType {
    open spec fn faithful(v: AdvancementFrameType) -> bool {
        match v {
            AdvancementFrameType::Task => true,
            AdvancementFrameType::Challenge => true,
            AdvancementFrameType::Goal => true,
        }
    }

    open spec fn delimited() -> bool {
        true
    }

    proof fn lemma_round_trip(v: AdvancementFrameType, rest: Seq<u8>) {
        reveal(<AdvancementFrameType as Serialize>::encode);
        reveal(<AdvancementFrameType as Deserialize>::decode);
        let head = <VarInt>::encode(VarInt(Self::id_of(v)));
        let body = Self::body_of(v);
        <VarInt>::lemma_round_trip(VarInt(Self::id_of(v)), body + rest);
        Self::lemma_body_round_trip(v, rest);
        lemma_concat_assoc(head, body, rest);
        lemma_skip_concat(head, body + rest);
    }
}

impl AdvancementFrameType {
    /// What follows the number, written out and followed by anything, reads
    /// back under that number.
    pub proof fn lemma_body_round_trip(v: AdvancementFrameType, rest: Seq<u8>)
        requires
            <Self as ProtocolType>::faithful(v),
            <Self as ProtocolType>::delimited() || rest.len() == 0,
        ensures
            Self::body_writable(v),
            Self::decode_with_id(Self::id_of(v), Self::body_of(v) + rest) == Ok::<_, DecodeFailure>(
                (v, Self::body_of(v).len()),
            ),
    {
        match v {
            AdvancementFrameType::Task => {
                assert(Seq::<u8>::empty() + rest =~= rest);
            },
            AdvancementFrameType::Challenge => {
                assert(Seq::<u8>::empty() + rest =~= rest);
            },
            AdvancementFrameType::Goal => {
                assert(Seq::<u8>::empty() + rest =~= rest);
            },
        }
    }
}

/// The progress of an advancement under its name.
#[derive(Debug, Clone, PartialEq)]
pub struct AdvancementProgressEntrySpec {
    pub key: String,
    pub value: AdvancementProgressSpec,
}

/// The mathematical content of a [`AdvancementProgressEntrySpec`].
pub struct AdvancementProgressEntrySpecView {
    pub key: Seq<char>,
    pub value: <AdvancementProgressSpec as DeepView>::V,
}

impl DeepView for AdvancementProgressEntrySpec {
    type V = AdvancementProgressEntrySpecView;

    open spec fn deep_view(&self) -> AdvancementProgressEntrySpecView {
        AdvancementProgressEntrySpecView {
            key: self.key.deep_view(),
            value: self.value.deep_view(),
        }
    }
}

impl Serialize for AdvancementProgressEntrySpec {
    open spec fn serializable(v: AdvancementProgressEntrySpecView) -> bool {
        String::serializable(v.key) && AdvancementProgressSpec::serializable(v.value)
    }

    #[verifier::opaque]
    open spec fn encode(v: AdvancementProgressEntrySpecView) -> Seq<u8> {
        String::encode(v.key) + AdvancementProgressSpec::encode(v.value)
    }

    fn mc_serialize<S: Serializer>(&self, to: &mut S) -> (r: SerializeResult) {
        proof {
            reveal(<AdvancementProgressEntrySpec as Serialize>::encode);
        }
        self.key.mc_serialize(to)?;
        self.value.mc_serialize(to)?;
        proof {
            assert(to.written() =~= old(to).written() + Self::encode(self.deep_view()));
        }
        Ok(())
    }
}

impl Deserialize for AdvancementProgressEntrySpec {
    #[verifier::opaque]
    open spec fn decode(data: Seq<u8>) -> Decoded<AdvancementProgressEntrySpecView> {
        match String::decode(data) {
            Err(e) => Err(e),
            Ok((key, n0)) => {
                match AdvancementProgressSpec::decode(data.skip((n0) as int)) {
                    Err(e) => Err(e),
                    Ok((value, n1)) => Ok((AdvancementProgressEntrySpecView { key, value }, n0 + n1)),
                }
            },
        }
    }

    fn mc_deserialize(data: &[u8]) -> (r: DeserializeResult<'_, AdvancementProgressEntrySpec>) {
        proof {
            reveal(<AdvancementProgressEntrySpec as Deserialize>::decode);
        }
        let ghost whole = data@;
        let Deserialized { value: key, data: rest0 } = String::mc_deserialize(data)?;
        let Deserialized { value: value, data: rest1 } = AdvancementProgressSpec::mc_deserialize(rest0)?;
        proof {
            lemma_skip_skip(
                whole,
                whole.len() - rest0@.len(),
                rest0@.len() - rest1@.len(),
            );
        }
        Ok(Deserialized { value: AdvancementProgressEntrySpec { key, value }, data: rest1 })
    }
}

impl ProtocolType for AdvancementProgressEntrySpec {
    open spec fn faithful(v: AdvancementProgressEntrySpecView) -> bool {
        String::faithful(v.key) && AdvancementProgressSpec::faithful(v.value)
    }

    open spec fn delimited() -> bool {
        AdvancementProgressSpec::delimited()
    }

    proof fn lemma_round_trip(v: AdvancementProgressEntrySpecView, rest: Seq<u8>) {
        reveal(<AdvancementProgressEntrySpec as Serialize>::encode);
        reveal(<AdvancementProgressEntrySpec as Deserialize>::decode);
        let e0 = String::encode(v.key);
        let e1 = AdvancementProgressSpec::encode(v.value);
        let data = Self::encode(v) + rest;
        let t2 = rest;
        let t1 = e1 + t2;
        let t0 = e0 + t1;
        let l0 = e0;
        let l1 = l0 + e1;
        lemma_concat_assoc(l0, e1, t2);
        assert(data == t0);
        String::lemma_round_trip(v.key, t1);
        lemma_skip_concat(e0, t1);
        AdvancementProgressSpec::lemma_round_trip(v.value, t2);
        lemma_skip_more(data, (e0.len()) as int, e1, t2);
    }
}

/// How far each criterion of an advancement has come.
#[derive(Debug, Clone, PartialEq)]
pub struct AdvancementProgressSpec {
    pub criteria: CountedArray<AdvancementCriteriaSpec, VarInt>,
}

/// The mathematical content of a [`AdvancementProgressSpec`].
pub struct AdvancementProgressSpecView {
    pub criteria: <CountedArray<AdvancementCriteriaSpec, VarInt> as DeepView>::V,
}

impl DeepView for AdvancementProgressSpec {
    type V = AdvancementProgressSpecView;

    open spec fn deep_view(&self) -> AdvancementProgressSpecView {
        AdvancementProgressSpecView {
            criteria: self.criteria.deep_view(),
        }
    }
}

impl Serialize for AdvancementProgressSpec {
    open spec fn serializable(v: AdvancementProgressSpecView) -> bool {
        <CountedArray<AdvancementCriteriaSpec, VarInt>>::serializable(v.criteria)
    }

    #[verifier::opaque]
    open spec fn encode(v: AdvancementProgressSpecView) -> Seq<u8> {
        <CountedArray<AdvancementCriteriaSpec, VarInt>>::encode(v.criteria)
    }

    fn mc_serialize<S: Serializer>(&self, to: &mut S) -> (r: SerializeResult) {
        proof {
            reveal(<AdvancementProgressSpec as Serialize>::encode);
        }
        self.criteria.mc_serialize(to)?;
        proof {
            assert(to.written() =~= old(to).written() + Self::encode(self.deep_view()));
        }
        Ok(())
    }
}

impl Deserialize for AdvancementProgressSpec {
    #[verifier::opaque]
    open spec fn decode(data: Seq<u8>) -> Decoded<AdvancementProgressSpecView> {
        match <CountedArray<AdvancementCriteriaSpec, VarInt>>::decode(data) {
            Err(e) => Err(e),
            Ok((criteria, n0)) => Ok((AdvancementProgressSpecView { criteria }, n0)),
        }
    }

    fn mc_deserialize(data: &[u8]) -> (r: DeserializeResult<'_, AdvancementProgressSpec>) {
        proof {
            reveal(<AdvancementProgressSpec as Deserialize>::decode);
        }
        let Deserialized { value: criteria, data: rest0 } = <CountedArray<AdvancementCriteriaSpec, VarInt>>::mc_deserialize(data)?;
        Ok(Deserialized { value: AdvancementProgressSpec { criteria }, data: rest0 })
    }
}

impl ProtocolType for AdvancementProgressSpec {
    open spec fn faithful(v: AdvancementProgressSpecView) -> bool {
        <CountedArray<AdvancementCriteriaSpec, VarInt>>::faithful(v.criteria)
    }

    open spec fn delimited() -> bool {
        <CountedArray<AdvancementCriteriaSpec, VarInt>>::delimited()
    }

    proof fn lemma_round_trip(v: AdvancementProgressSpecView, rest: Seq<u8>) {
        reveal(<AdvancementProgressSpec as Serialize>::encode);
        reveal(<AdvancementProgressSpec as Deserialize>::decode);
        let e0 = <CountedArray<AdvancementCriteriaSpec, VarInt>>::encode(v.criteria);
        let data = Self::encode(v) + rest;
        let t1 = rest;
        let t0 = e0 + t1;
        <CountedArray<AdvancementCriteriaSpec, VarInt>>::lemma_round_trip(v.criteria, t1);
        lemma_skip_concat(e0, t1);
    }
}

/// A criterion of an advancement under its name.
#[derive(Debug, Clone, PartialEq)]
pub struct AdvancementCriteriaSpec {
    pub identifier: String,
    pub progress: AdvancementCriterionProgressSpec,
}

/// The mathematical content of a [`AdvancementCriteriaSpec`].
pub struct AdvancementCriteriaSpecView {
    pub identifier: Seq<char>,
    pub progress: <AdvancementCriterionProgressSpec as DeepView>::V,
}

impl DeepView for AdvancementCriteriaSpec {
    type V = AdvancementCriteriaSpecView;

    open spec fn deep_view(&self) -> AdvancementCriteriaSpecView {
        AdvancementCriteriaSpecView {
            identifier: self.identifier.deep_view(),
            progress: self.progress.deep_view(),
        }
    }
}

impl Serialize for AdvancementCriteriaSpec {
    open spec fn serializable(v: AdvancementCriteriaSpecView) -> bool {
        String::serializable(v.identifier) && AdvancementCriterionProgressSpec::serializable(v.progress)
    }

    #[verifier::opaque]
    open spec fn encode(v: AdvancementCriteriaSpecView) -> Seq<u8> {
        String::encode(v.identifier) + AdvancementCriterionProgressSpec::encode(v.progress)
    }

    fn mc_serialize<S: Serializer>(&self, to: &mut S) -> (r: SerializeResult) {
        proof {
            reveal(<AdvancementCriteriaSpec as Serialize>::encode);
        }
        self.identifier.mc_serialize(to)?;
        self.progress.mc_serialize(to)?;
        proof {
            assert(to.written() =~= old(to).written() + Self::encode(self.deep_view()));
        }
        Ok(())
    }
}

impl Deserialize for AdvancementCriteriaSpec {
    #[verifier::opaque]
    open spec fn decode(data: Seq<u8>) -> Decoded<AdvancementCriteriaSpecView> {
        match String::decode(data) {
            Err(e) => Err(e),
            Ok((identifier, n0)) => {
                match AdvancementCriterionProgressSpec::decode(data.skip((n0) as int)) {
                    Err(e) => Err(e),
                    Ok((progress, n1)) => Ok((AdvancementCriteriaSpecView { identifier, progress }, n0 + n1)),
                }
            },
        }
    }

    fn mc_deserialize(data: &[u8]) -> (r: DeserializeResult<'_, AdvancementCriteriaSpec>) {
        proof {
            reveal(<AdvancementCriteriaSpec as Deserialize>::decode);
        }
        let ghost whole = data@;
        let Deserialized { value: identifier, data: rest0 } = String::mc_deserialize(data)?;
        let Deserialized { value: progress, data: rest1 } = AdvancementCriterionProgressSpec::mc_deserialize(rest0)?;
        proof {
            lemma_skip_skip(
                whole,
                whole.len() - rest0@.len(),
                rest0@.len() - rest1@.len(),
            );
        }
        Ok(Deserialized { value: AdvancementCriteriaSpec { identifier, progress }, data: rest1 })
    }
}

impl ProtocolType for AdvancementCriteriaSpec {
    open spec fn faithful(v: AdvancementCriteriaSpecView) -> bool {
        String::faithful(v.identifier) && AdvancementCriterionProgressSpec::faithful(v.progress)
    }

    open spec fn delimited() -> bool {
        AdvancementCriterionProgressSpec::delimited()
    }

    proof fn lemma_round_trip(v: AdvancementCriteriaSpecView, rest: Seq<u8>) {
        reveal(<AdvancementCriteriaSpec as Serialize>::encode);
        reveal(<AdvancementCriteriaSpec as Deserialize>::decode);
        let e0 = String::encode(v.identifier);
        let e1 = AdvancementCriterionProgressSpec::encode(v.progress);
        let data = Self::encode(v) + rest;
        let t2 = rest;
        let t1 = e1 + t2;
        let t0 = e0 + t1;
        let l0 = e0;
        let l1 = l0 + e1;
        lemma_concat_assoc(l0, e1, t2);
        assert(data == t0);
        String::lemma_round_trip(v.identifier, t1);
        lemma_skip_concat(e0, t1);
        AdvancementCriterionProgressSpec::lemma_round_trip(v.progress, t2);
        lemma_skip_more(data, (e0.len()) as int, e1, t2);
    }
}

/// When a criterion was met, if it was.
#[derive(Debug, Clone, PartialEq)]
pub struct AdvancementCriterionProgressSpec {
    pub achieved_at: Option<i64>,
}

/// The mathematical content of a [`AdvancementCriterionProgressSpec`].
pub struct AdvancementCriterionProgressSpecView {
    pub achieved_at: <Option<i64> as DeepView>::V,
}

impl DeepView for AdvancementCriterionProgressSpec {
    type V = AdvancementCriterionProgressSpecView;

    open spec fn deep_view(&self) -> AdvancementCriterionProgressSpecView {
        AdvancementCriterionProgressSpecView {
            achieved_at: self.achieved_at.deep_view(),
        }
    }
}

impl Serialize for AdvancementCriterionProgressSpec {
    open spec fn serializable(v: AdvancementCriterionProgressSpecView) -> bool {
        <Option<i64>>::serializable(v.achieved_at)
    }

    #[verifier::opaque]
    open spec fn encode(v: AdvancementCriterionProgressSpecView) -> Seq<u8> {
        <Option<i64>>::encode(v.achieved_at)
    }

    fn mc_serialize<S: Serializer>(&self, to: &mut S) -> (r: SerializeResult) {
        proof {
            reveal(<AdvancementCriterionProgressSpec as Serialize>::encode);
        }
        self.achieved_at.mc_serialize(to)?;
        proof {
            assert(to.written() =~= old(to).written() + Self::encode(self.deep_view()));
        }
        Ok(())
    }
}

impl Deserialize for AdvancementCriterionProgressSpec {
    #[verifier::opaque]
    open spec fn decode(data: Seq<u8>) -> Decoded<AdvancementCriterionProgressSpecView> {
        match <Option<i64>>::decode(data) {
            Err(e) => Err(e),
            Ok((achieved_at, n0)) => Ok((AdvancementCriterionProgressSpecView { achieved_at }, n0)),
        }
    }

    fn mc_deserialize(data: &[u8]) -> (r: DeserializeResult<'_, AdvancementCriterionProgressSpec>) {
        proof {
            reveal(<AdvancementCriterionProgressSpec as Deserialize>::decode);
        }
        let Deserialized { value: achieved_at, data: rest0 } = <Option<i64>>::mc_deserialize(data)?;
        Ok(Deserialized { value: AdvancementCriterionProgressSpec { achieved_at }, data: rest0 })
    }
}

impl ProtocolType for AdvancementCriterionProgressSpec {
    open spec fn faithful(v: AdvancementCriterionProgressSpecView) -> bool {
        <Option<i64>>::faithful(v.achieved_at)
    }

    open spec fn delimited() -> bool {
        <Option<i64>>::delimited()
    }

    proof fn lemma_round_trip(v: AdvancementCriterionProgressSpecView, rest: Seq<u8>) {
        reveal(<AdvancementCriterionProgressSpec as Serialize>::encode);
        reveal(<AdvancementCriterionProgressSpec as Deserialize>::decode);
        let e0 = <Option<i64>>::encode(v.achieved_at);
        let data = Self::encode(v) + rest;
        let t1 = rest;
        let t0 = e0 + t1;
        <Option<i64>>::lemma_round_trip(v.achieved_at, t1);
        lemma_skip_concat(e0, t1);
    }
}

/// A property of an entity with its modifiers.
#[derive(Debug, Clone, PartialEq)]
pub struct EntityPropertySpec {
    pub key: String,
    /// The value, as the bit pattern of a 64-bit float.
    pub value: u64,
    pub modifiers: CountedArray<EntityPropertyModifierSpec, VarInt>,
}

/// The mathematical content of a [`EntityPropertySpec`].
pub struct EntityPropertySpecView {
    pub key: Seq<char>,
    pub value: u64,
    pub modifiers: <CountedArray<EntityPropertyModifierSpec, VarInt> as DeepView>::V,
}

impl DeepView for EntityPropertySpec {
    type V = EntityPropertySpecView;

    open spec fn deep_view(&self) -> EntityPropertySpecView {
        EntityPropertySpecView {
            key: self.key.deep_view(),
            value: self.value.deep_view(),
            modifiers: self.modifiers.deep_view(),
        }
    }
}

impl Serialize for EntityPropertySpec {
    open spec fn serializable(v: EntityPropertySpecView) -> bool {
        String::serializable(v.key) && u64::serializable(v.value) && <CountedArray<EntityPropertyModifierSpec, VarInt>>::serializable(v.modifiers)
    }

    #[verifier::opaque]
    open spec fn encode(v: EntityPropertySpecView) -> Seq<u8> {
        String::encode(v.key) + u64::encode(v.value) + <CountedArray<EntityPropertyModifierSpec, VarInt>>::encode(v.modifiers)
    }

    fn mc_serialize<S: Serializer>(&self, to: &mut S) -> (r: SerializeResult) {
        proof {
            reveal(<EntityPropertySpec as Serialize>::encode);
        }
        self.key.mc_serialize(to)?;
        self.value.mc_serialize(to)?;
        self.modifiers.mc_serialize(to)?;
        proof {
            let v = self.deep_view();
            let w = old(to).written();
            let e0 = String::encode(v.key);
            let e1 = u64::encode(v.value);
            let e2 = <CountedArray<EntityPropertyModifierSpec, VarInt>>::encode(v.modifiers);
            let l0 = e0;
            let l1 = l0 + e1;
            let l2 = l1 + e2;
            lemma_concat_assoc(w, l0, e1);
            lemma_concat_assoc(w, l1, e2);
        }
        Ok(())
    }
}

impl Deserialize for EntityPropertySpec {
    #[verifier::opaque]
    open spec fn decode(data: Seq<u8>) -> Decoded<EntityPropertySpecView> {
        match String::decode(data) {
            Err(e) => Err(e),
            Ok((key, n0)) => {
                match u64::decode(data.skip((n0) as int)) {
                    Err(e) => Err(e),
                    Ok((value, n1)) => {
                        match <CountedArray<EntityPropertyModifierSpec, VarInt>>::decode(data.skip((n0 + n1) as int)) {
                            Err(e) => Err(e),
                            Ok((modifiers, n2)) => Ok((EntityPropertySpecView { key, value, modifiers }, n0 + n1 + n2)),
                        }
                    },
                }
            },
        }
    }

    fn mc_deserialize(data: &[u8]) -> (r: DeserializeResult<'_, EntityPropertySpec>) {
        proof {
            reveal(<EntityPropertySpec as Deserialize>::decode);
        }
        let ghost whole = data@;
        let Deserialized { value: key, data: rest0 } = String::mc_deserialize(data)?;
        let Deserialized { value: value, data: rest1 } = u64::mc_deserialize(rest0)?;
        proof {
            lemma_skip_skip(
                whole,
                whole.len() - rest0@.len(),
                rest0@.len() - rest1@.len(),
            );
        }
        let Deserialized { value: modifiers, data: rest2 } = <CountedArray<EntityPropertyModifierSpec, VarInt>>::mc_deserialize(rest1)?;
        proof {
            lemma_skip_skip(
                whole,
                whole.len() - rest1@.len(),
                rest1@.len() - rest2@.len(),
            );
        }
        Ok(Deserialized { value: EntityPropertySpec { key, value, modifiers }, data: rest2 })
    }
}

impl ProtocolType for EntityPropertySpec {
    open spec fn faithful(v: EntityPropertySpecView) -> bool {
        String::faithful(v.key) && u64::faithful(v.value) && <CountedArray<EntityPropertyModifierSpec, VarInt>>::faithful(v.modifiers)
    }

    open spec fn delimited() -> bool {
        <CountedArray<EntityPropertyModifierSpec, VarInt>>::delimited()
    }

    proof fn lemma_round_trip(v: EntityPropertySpecView, rest: Seq<u8>) {
        reveal(<EntityPropertySpec as Serialize>::encode);
        reveal(<EntityPropertySpec as Deserialize>::decode);
        let e0 = String::encode(v.key);
        let e1 = u64::encode(v.value);
        let e2 = <CountedArray<EntityPropertyModifierSpec, VarInt>>::encode(v.modifiers);
        let data = Self::encode(v) + rest;
        let t3 = rest;
        let t2 = e2 + t3;
        let t1 = e1 + t2;
        let t0 = e0 + t1;
        let l0 = e0;
        let l1 = l0 + e1;
        let l2 = l1 + e2;
        lemma_concat_assoc(l1, e2, t3);
        lemma_concat_assoc(l0, e1, t2);
        assert(data == t0);
        String::lemma_round_trip(v.key, t1);
        lemma_skip_concat(e0, t1);
        u64::lemma_round_trip(v.value, t2);
        lemma_skip_more(data, (e0.len()) as int, e1, t2);
        <CountedArray<EntityPropertyModifierSpec, VarInt>>::lemma_round_trip(v.modifiers, t3);
        lemma_skip_more(data, (e0.len() + e1.len()) as int, e2, t3);
    }
}

/// One modifier of a property of an entity.
#[derive(Debug, Clone, PartialEq)]
pub struct EntityPropertyModifierSpec {
    pub uuid: UUID4,
    /// The amount, as the bit pattern of a 64-bit float.
    pub amount: u64,
    pub operation: EntityPropertyModifierOperation,
}

/// The mathematical content of a [`EntityPropertyModifierSpec`].
pub struct EntityPropertyModifierSpecView {
    pub uuid: u128,
    pub amount: u64,
    pub operation: <EntityPropertyModifierOperation as DeepView>::V,
}

impl DeepView for EntityPropertyModifierSpec {
    type V = EntityPropertyModifierSpecView;

    open spec fn deep_view(&self) -> EntityPropertyModifierSpecView {
        EntityPropertyModifierSpecView {
            uuid: self.uuid.deep_view(),
            amount: self.amount.deep_view(),
            operation: self.operation.deep_view(),
        }
    }
}

impl Serialize for EntityPropertyModifierSpec {
    open spec fn serializable(v: EntityPropertyModifierSpecView) -> bool {
        UUID4::serializable(v.uuid) && u64::serializable(v.amount) && EntityPropertyModifierOperation::serializable(v.operation)
    }

    #[verifier::opaque]
    open spec fn encode(v: EntityPropertyModifierSpecView) -> Seq<u8> {
        UUID4::encode(v.uuid) + u64::encode(v.amount) + EntityPropertyModifierOperation::encode(v.operation)
    }

    fn mc_serialize<S: Serializer>(&self, to: &mut S) -> (r: SerializeResult) {
        proof {
            reveal(<EntityPropertyModifierSpec as Serialize>::encode);
        }
        self.uuid.mc_serialize(to)?;
        self.amount.mc_serialize(to)?;
        self.operation.mc_serialize(to)?;
        proof {
            let v = self.deep_view();
            let w = old(to).written();
            let e0 = UUID4::encode(v.uuid);
            let e1 = u64::encode(v.amount);
            let e2 = EntityPropertyModifierOperation::encode(v.operation);
            let l0 = e0;
            let l1 = l0 + e1;
            let l2 = l1 + e2;
            lemma_concat_assoc(w, l0, e1);
            lemma_concat_assoc(w, l1, e2);
        }
        Ok(())
    }
}

impl Deserialize for EntityPropertyModifierSpec {
    #[verifier::opaque]
    open spec fn decode(data: Seq<u8>) -> Decoded<EntityPropertyModifierSpecView> {
        match UUID4::decode(data) {
            Err(e) => Err(e),
            Ok((uuid, n0)) => {
                match u64::decode(data.skip((n0) as int)) {
                    Err(e) => Err(e),
                    Ok((amount, n1)) => {
                        match EntityPropertyModifierOperation::decode(data.skip((n0 + n1) as int)) {
                            Err(e) => Err(e),
                            Ok((operation, n2)) => Ok((EntityPropertyModifierSpecView { uuid, amount, operation }, n0 + n1 + n2)),
                        }
                    },
                }
            },
        }
    }

    fn mc_deserialize(data: &[u8]) -> (r: DeserializeResult<'_, EntityPropertyModifierSpec>) {
        proof {
            reveal(<EntityPropertyModifierSpec as Deserialize>::decode);
        }
        let ghost whole = data@;
        let Deserialized { value: uuid, data: rest0 } = UUID4::mc_deserialize(data)?;
        let Deserialized { value: amount, data: rest1 } = u64::mc_deserialize(rest0)?;
        proof {
            lemma_skip_skip(
                whole,
                whole.len() - rest0@.len(),
                rest0@.len() - rest1@.len(),
            );
        }
        let Deserialized { value: operation, data: rest2 } = EntityPropertyModifierOperation::mc_deserialize(rest1)?;
        proof {
            lemma_skip_skip(
                whole,
                whole.len() - rest1@.len(),
                rest1@.len() - rest2@.len(),
            );
        }
        Ok(Deserialized { value: EntityPropertyModifierSpec { uuid, amount, operation }, data: rest2 })
    }
}

impl ProtocolType for EntityPropertyModifierSpec {
    open spec fn faithful(v: EntityPropertyModifierSpecView) -> bool {
        UUID4::faithful(v.uuid) && u64::faithful(v.amount) && EntityPropertyModifierOperation::faithful(v.operation)
    }

    open spec fn delimited() -> bool {
        EntityPropertyModifierOperation::delimited()
    }

    proof fn lemma_round_trip(v: EntityPropertyModifierSpecView, rest: Seq<u8>) {
        reveal(<EntityPropertyModifierSpec as Serialize>::encode);
        reveal(<EntityPropertyModifierSpec as Deserialize>::decode);
        let e0 = UUID4::encode(v.uuid);
        let e1 = u64::encode(v.amount);
        let e2 = EntityPropertyModifierOperation::encode(v.operation);
        let data = Self::encode(v) + rest;
        let t3 = rest;
        let t2 = e2 + t3;
        let t1 = e1 + t2;
        let t0 = e0 + t1;
        let l0 = e0;
        let l1 = l0 + e1;
        let l2 = l1 + e2;
        lemma_concat_assoc(l1, e2, t3);
        lemma_concat_assoc(l0, e1, t2);
        assert(data == t0);
        UUID4::lemma_round_trip(v.uuid, t1);
        lemma_skip_concat(e0, t1);
        u64::lemma_round_trip(v.amount, t2);
        lemma_skip_more(data, (e0.len()) as int, e1, t2);
        EntityPropertyModifierOperation::lemma_round_trip(v.operation, t3);
        lemma_skip_more(data, (e0.len() + e1.len()) as int, e2, t3);
    }
}

/// How a modifier changes a property.
#[derive(PartialEq, Eq, Structural, Clone, Copy, Debug)]
pub enum EntityPropertyModifierOperation {
    AddSubtractAmount,
    AddSubtractAmountPercentOfCurrent,
    MultiplyByAmountPercent,
}

impl View for EntityPropertyModifierOperation {
    type V = EntityPropertyModifierOperation;

    open spec fn view(&self) -> EntityPropertyModifierOperation {
        *self
    }
}

impl DeepView for EntityPropertyModifierOperation {
    type V = EntityPropertyModifierOperation;

    open spec fn deep_view(&self) -> EntityPropertyModifierOperation {
        *self
    }
}

impl EntityPropertyModifierOperation {
    pub fn variant_count() -> (r: usize)
        ensures
            r == 3,
    {
        3
    }

    /// The number that stands for the variant on the wire.
    pub open spec fn id_of(v: EntityPropertyModifierOperation) -> u8 {
        match v {
            EntityPropertyModifierOperation::AddSubtractAmount => 0x00,
            EntityPropertyModifierOperation::AddSubtractAmountPercentOfCurrent => 0x01,
            EntityPropertyModifierOperation::MultiplyByAmountPercent => 0x02,
        }
    }

    pub fn id(&self) -> (r: u8)
        ensures
            r == Self::id_of(self.deep_view()),
    {
        match self {
            EntityPropertyModifierOperation::AddSubtractAmount => 0x00,
            EntityPropertyModifierOperation::AddSubtractAmountPercentOfCurrent => 0x01,
            EntityPropertyModifierOperation::MultiplyByAmountPercent => 0x02,
        }
    }

    pub open spec fn name_of(v: EntityPropertyModifierOperation) -> Seq<char> {
        match v {
            EntityPropertyModifierOperation::AddSubtractAmount => "AddSubtractAmount"@,
            EntityPropertyModifierOperation::AddSubtractAmountPercentOfCurrent => "AddSubtractAmountPercentOfCurrent"@,
            EntityPropertyModifierOperation::MultiplyByAmountPercent => "MultiplyByAmountPercent"@,
        }
    }

    pub fn name(&self) -> (r: &'static str)
        ensures
            r@ == Self::name_of(self.deep_view()),
    {
        match self {
            EntityPropertyModifierOperation::AddSubtractAmount => "AddSubtractAmount",
            EntityPropertyModifierOperation::AddSubtractAmountPercentOfCurrent => "AddSubtractAmountPercentOfCurrent",
            EntityPropertyModifierOperation::MultiplyByAmountPercent => "MultiplyByAmountPercent",
        }
    }

    /// The bytes that follow the number.
    pub open spec fn body_of(v: EntityPropertyModifierOperation) -> Seq<u8> {
        match v {
            EntityPropertyModifierOperation::AddSubtractAmount => Seq::empty(),
            EntityPropertyModifierOperation::AddSubtractAmountPercentOfCurrent => Seq::empty(),
            EntityPropertyModifierOperation::MultiplyByAmountPercent => Seq::empty(),
        }
    }

    /// Whether what follows the number can be written.
    pub open spec fn body_writable(v: EntityPropertyModifierOperation) -> bool {
        match v {
            EntityPropertyModifierOperation::AddSubtractAmount => true,
            EntityPropertyModifierOperation::AddSubtractAmountPercentOfCurrent => true,
            EntityPropertyModifierOperation::MultiplyByAmountPercent => true,
        }
    }

    /// The variant that `id` stands for, with its body read from `data`.
    pub open spec fn decode_with_id(id: u8, data: Seq<u8>) -> Decoded<EntityPropertyModifierOperation> {
        if id == 0x00 {
            Ok((EntityPropertyModifierOperation::AddSubtractAmount, 0))
        } else if id == 0x01 {
            Ok((EntityPropertyModifierOperation::AddSubtractAmountPercentOfCurrent, 0))
        } else if id == 0x02 {
            Ok((EntityPropertyModifierOperation::MultiplyByAmountPercent, 0))
        } else {
            Err(DecodeFailure::CannotUnderstandValue)
        }
    }

    /// Whether `id` stands for a variant.
    pub open spec fn has_id(id: u8) -> bool {
        id == 0x00
            || id == 0x01
            || id == 0x02
    }

    /// Picks the variant for `id` and reads its body from `data`. A number
    /// that stands for no variant is refused, and the error says which.
    pub fn deserialize_with_id<'a>(id: u8, data: &'a [u8]) -> (r: DeserializeResult<'a, Self>)
        ensures
            agrees(r, data@, Self::decode_with_id(id, data@)),
            !Self::has_id(id) ==> (r matches Err(DeserializeErr::CannotUnderstandValue(m))
                && m@ == invalid_message("EntityPropertyModifierOperation"@, id as nat)),
    {
        proof {
            assert(data@.skip(0) =~= data@);
        }
        match id {
            0x00 => Ok(Deserialized { value: EntityPropertyModifierOperation::AddSubtractAmount, data }),
            0x01 => Ok(Deserialized { value: EntityPropertyModifierOperation::AddSubtractAmountPercentOfCurrent, data }),
            0x02 => Ok(Deserialized { value: EntityPropertyModifierOperation::MultiplyByAmountPercent, data }),
            other => Err(DeserializeErr::CannotUnderstandValue(invalid_value_message("EntityPropertyModifierOperation", other as u64))),
        }
    }

    /// Writes what follows the number.
    pub fn serialize_body<S: Serializer>(&self, to: &mut S) -> (r: SerializeResult)
        ensures
            r is Ok ==> Self::body_writable(self.deep_view()) && final(to).written() == old(
                to,
            ).written() + Self::body_of(self.deep_view()),
            old(to).infallible() ==> final(to).infallible(),
            old(to).infallible() ==> (r is Ok <==> Self::body_writable(self.deep_view())),
            old(to).infallible() && r is Err ==> (r matches Err(SerializeErr::CannotSerialize(_))),
    {
        match self {
            EntityPropertyModifierOperation::AddSubtractAmount => {
                proof {
                    assert(old(to).written() + Seq::<u8>::empty() =~= old(to).written());
                }
                Ok(())
            },
            EntityPropertyModifierOperation::AddSubtractAmountPercentOfCurrent => {
                proof {
                    assert(old(to).written() + Seq::<u8>::empty() =~= old(to).written());
                }
                Ok(())
            },
            EntityPropertyModifierOperation::MultiplyByAmountPercent => {
                proof {
                    assert(old(to).written() + Seq::<u8>::empty() =~= old(to).written());
                }
                Ok(())
            },
        }
    }
}

impl Serialize for EntityPropertyModifierOperation {
    open spec fn serializable(v: EntityPropertyModifierOperation) -> bool {
        Self::body_writable(v)
    }

    #[verifier::opaque]
    open spec fn encode(v: EntityPropertyModifierOperation) -> Seq<u8> {
        <u8>::encode(Self::id_of(v)) + Self::body_of(v)
    }

    fn mc_serialize<S: Serializer>(&self, to: &mut S) -> (r: SerializeResult) {
        proof {
            reveal(<EntityPropertyModifierOperation as Serialize>::encode);
        }
        let id_to_serialize: u8 = self.id();
        id_to_serialize.mc_serialize(to)?;
        let r = self.serialize_body(to);
        proof {
            let head = <u8>::encode(Self::id_of(self.deep_view()));
            let body = Self::body_of(self.deep_view());
            lemma_concat_assoc(old(to).written(), head, body);
        }
        r
    }
}

impl Deserialize for EntityPropertyModifierOperation {
    #[verifier::opaque]
    open spec fn decode(data: Seq<u8>) -> Decoded<EntityPropertyModifierOperation> {
        match <u8>::decode(data) {
            Err(e) => Err(e),
            Ok((id, n)) => match Self::decode_with_id(id, data.skip(n as int)) {
                Ok((v, m)) => Ok((v, n + m)),
                Err(e) => Err(e),
            },
        }
    }

    fn mc_deserialize(data: &[u8]) -> (r: DeserializeResult<'_, EntityPropertyModifierOperation>) {
        proof {
            reveal(<EntityPropertyModifierOperation as Deserialize>::decode);
        }
        let Deserialized { value: id, data: rest } = <u8>::mc_deserialize(data)?;
        let Deserialized { value, data: after } = Self::deserialize_with_id(id, rest)?;
        proof {
            lemma_skip_skip(data@, data@.len() - rest@.len(), rest@.len() - after@.len());
        }
        Ok(Deserialized { value, data: after })
    }
}

impl ProtocolType for EntityPropertyModifierOperation {
    open spec fn faithful(v: EntityPropertyModifierOperation) -> bool {
        match v {
            EntityPropertyModifierOperation::AddSubtractAmount => true,
            EntityPropertyModifierOperation::AddSubtractAmountPercentOfCurrent => true,
            EntityPropertyModifierOperation::MultiplyByAmountPercent => true,
        }
    }

    open spec fn delimited() -> bool {
        true
    }

    proof fn lemma_round_trip(v: EntityPropertyModifierOperation, rest: Seq<u8>) {
        reveal(<EntityPropertyModifierOperation as Serialize>::encode);
        reveal(<EntityPropertyModifierOperation as Deserialize>::decode);
        let head = <u8>::encode(Self::id_of(v));
        let body = Self::body_of(v);
        <u8>::lemma_round_trip(Self::id_of(v), body + rest);
        Self::lemma_body_round_trip(v, rest);
        lemma_concat_assoc(head, body, rest);
        lemma_skip_concat(head, body + rest);
    }
}

impl EntityPropertyModifierOperation {
    /// What follows the number, written out and followed by anything, reads
    /// back under that number.
    pub proof fn lemma_body_round_trip(v: EntityPropertyModifierOperation, rest: Seq<u8>)
        requires
            <Self as ProtocolType>::faithful(v),
            <Self as ProtocolType>::delimited() || rest.len() == 0,
        ensures
            Self::body_writable(v),
            Self::decode_with_id(Self::id_of(v), Self::body_of(v) + rest) == Ok::<_, DecodeFailure>(
                (v, Self::body_of(v).len()),
            ),
    {
        match v {
            EntityPropertyModifierOperation::AddSubtractAmount => {
                assert(Seq::<u8>::empty() + rest =~= rest);
            },
            EntityPropertyModifierOperation::AddSubtractAmountPercentOfCurrent => {
                assert(Seq::<u8>::empty() + rest =~= rest);
            },
            EntityPropertyModifierOperation::MultiplyByAmountPercent => {
                assert(Seq::<u8>::empty() + rest =~= rest);
            },
        }
    }
}

/// How a status effect shows, one bit for each.
#[derive(Clone, Copy, PartialEq, Eq, Debug, Default)]
pub struct EntityEffectFlags(pub u8);

impl View for EntityEffectFlags {
    type V = EntityEffectFlags;

    open spec fn view(&self) -> EntityEffectFlags {
        *self
    }
}

impl DeepView for EntityEffectFlags {
    type V = EntityEffectFlags;

    open spec fn deep_view(&self) -> EntityEffectFlags {
        *self
    }
}

impl EntityEffectFlags {
    /// Whether the bit for `ambient` is set.
    pub fn is_ambient(&self) -> (r: bool)
        ensures
            r == flag_is_set(self.0, 0x01),
    {
        proof {
            lemma_flag(self.0, 0x01);
        }
        self.0 & 0x01 != 0
    }

    /// Sets the flag where `value` is true. Where it is false the flag is
    /// turned over: a flag that is set is cleared, and one that is clear is
    /// set.
    pub fn set_ambient(&mut self, value: bool)
        ensures
            final(self).0 == if value {
                with_flag(old(self).0, 0x01)
            } else if flag_is_set(old(self).0, 0x01) {
                without_flag(old(self).0, 0x01)
            } else {
                with_flag(old(self).0, 0x01)
            },
    {
        proof {
            lemma_flag(self.0, 0x01);
        }
        if value {
            self.0 |= 0x01;
        } else {
            self.0 ^= 0x01;
        }
    }

    /// Whether the bit for `show_particles` is set.
    pub fn is_show_particles(&self) -> (r: bool)
        ensures
            r == flag_is_set(self.0, 0x02),
    {
        proof {
            lemma_flag(self.0, 0x02);
        }
        self.0 & 0x02 != 0
    }

    /// Sets the flag where `value` is true. Where it is false the flag is
    /// turned over: a flag that is set is cleared, and one that is clear is
    /// set.
    pub fn set_show_particles(&mut self, value: bool)
        ensures
            final(self).0 == if value {
                with_flag(old(self).0, 0x02)
            } else if flag_is_set(old(self).0, 0x02) {
                without_flag(old(self).0, 0x02)
            } else {
                with_flag(old(self).0, 0x02)
            },
    {
        proof {
            lemma_flag(self.0, 0x02);
        }
        if value {
            self.0 |= 0x02;
        } else {
            self.0 ^= 0x02;
        }
    }

    /// Whether the bit for `show_icon` is set.
    pub fn is_show_icon(&self) -> (r: bool)
        ensures
            r == flag_is_set(self.0, 0x04),
    {
        proof {
            lemma_flag(self.0, 0x04);
        }
        self.0 & 0x04 != 0
    }

    /// Sets the flag where `value` is true. Where it is false the flag is
    /// turned over: a flag that is set is cleared, and one that is clear is
    /// set.
    pub fn set_show_icon(&mut self, value: bool)
        ensures
            final(self).0 == if value {
                with_flag(old(self).0, 0x04)
            } else if flag_is_set(old(self).0, 0x04) {
                without_flag(old(self).0, 0x04)
            } else {
                with_flag(old(self).0, 0x04)
            },
    {
        proof {
            lemma_flag(self.0, 0x04);
        }
        if value {
            self.0 |= 0x04;
        } else {
            self.0 ^= 0x04;
        }
    }

}

impl Serialize for EntityEffectFlags {
    open spec fn serializable(v: EntityEffectFlags) -> bool {
        true
    }

    #[verifier::opaque]
    open spec fn encode(v: EntityEffectFlags) -> Seq<u8> {
        seq![v.0]
    }

    fn mc_serialize<S: Serializer>(&self, to: &mut S) -> (r: SerializeResult) {
        proof {
            reveal(<EntityEffectFlags as Serialize>::encode);
        }
        let r = to.serialize_byte(self.0);
        proof {
            assert(old(to).written().push(self.0) =~= old(to).written() + seq![self.0]);
        }
        r
    }
}

impl Deserialize for EntityEffectFlags {
    #[verifier::opaque]
    open spec fn decode(data: Seq<u8>) -> Decoded<EntityEffectFlags> {
        if data.len() < 1 {
            Err(DecodeFailure::Eof)
        } else {
            Ok((EntityEffectFlags(data[0]), 1))
        }
    }

    fn mc_deserialize(data: &[u8]) -> (r: DeserializeResult<'_, EntityEffectFlags>) {
        proof {
            reveal(<EntityEffectFlags as Deserialize>::decode);
        }
        proof {
            reveal(<u8 as Deserialize>::decode);
        }
        let Deserialized { value: b, data: rest } = u8::mc_deserialize(data)?;
        Ok(Deserialized { value: EntityEffectFlags(b), data: rest })
    }
}

impl ProtocolType for EntityEffectFlags {
    open spec fn faithful(v: EntityEffectFlags) -> bool {
        true
    }

    open spec fn delimited() -> bool {
        true
    }

    proof fn lemma_round_trip(v: EntityEffectFlags, rest: Seq<u8>) {
        reveal(<EntityEffectFlags as Serialize>::encode);
        reveal(<EntityEffectFlags as Deserialize>::decode);
    }
}

/// A tag and the numbers of what carries it.
#[derive(Debug, Clone, PartialEq)]
pub struct TagSpec {
    pub name: String,
    pub entries: CountedArray<VarInt, VarInt>,
}

/// The mathematical content of a [`TagSpec`].
pub struct TagSpecView {
    pub name: Seq<char>,
    pub entries: <CountedArray<VarInt, VarInt> as DeepView>::V,
}

impl DeepView for TagSpec {
    type V = TagSpecView;

    open spec fn deep_view(&self) -> TagSpecView {
        TagSpecView {
            name: self.name.deep_view(),
            entries: self.entries.deep_view(),
        }
    }
}

impl Serialize for TagSpec {
    open spec fn serializable(v: TagSpecView) -> bool {
        String::serializable(v.name) && <CountedArray<VarInt, VarInt>>::serializable(v.entries)
    }

    #[verifier::opaque]
    open spec fn encode(v: TagSpecView) -> Seq<u8> {
        String::encode(v.name) + <CountedArray<VarInt, VarInt>>::encode(v.entries)
    }

    fn mc_serialize<S: Serializer>(&self, to: &mut S) -> (r: SerializeResult) {
        proof {
            reveal(<TagSpec as Serialize>::encode);
        }
        self.name.mc_serialize(to)?;
        self.entries.mc_serialize(to)?;
        proof {
            assert(to.written() =~= old(to).written() + Self::encode(self.deep_view()));
        }
        Ok(())
    }
}

impl Deserialize for TagSpec {
    #[verifier::opaque]
    open spec fn decode(data: Seq<u8>) -> Decoded<TagSpecView> {
        match String::decode(data) {
            Err(e) => Err(e),
            Ok((name, n0)) => {
                match <CountedArray<VarInt, VarInt>>::decode(data.skip((n0) as int)) {
                    Err(e) => Err(e),
                    Ok((entries, n1)) => Ok((TagSpecView { name, entries }, n0 + n1)),
                }
            },
        }
    }

    fn mc_deserialize(data: &[u8]) -> (r: DeserializeResult<'_, TagSpec>) {
        proof {
            reveal(<TagSpec as Deserialize>::decode);
        }
        let ghost whole = data@;
        let Deserialized { value: name, data: rest0 } = String::mc_deserialize(data)?;
        let Deserialized { value: entries, data: rest1 } = <CountedArray<VarInt, VarInt>>::mc_deserialize(rest0)?;
        proof {
            lemma_skip_skip(
                whole,
                whole.len() - rest0@.len(),
                rest0@.len() - rest1@.len(),
            );
        }
        Ok(Deserialized { value: TagSpec { name, entries }, data: rest1 })
    }
}

impl ProtocolType for TagSpec {
    open spec fn faithful(v: TagSpecView) -> bool {
        String::faithful(v.name) && <CountedArray<VarInt, VarInt>>::faithful(v.entries)
    }

    open spec fn delimited() -> bool {
        <CountedArray<VarInt, VarInt>>::delimited()
    }

    proof fn lemma_round_trip(v: TagSpecView, rest: Seq<u8>) {
        reveal(<TagSpec as Serialize>::encode);
        reveal(<TagSpec as Deserialize>::decode);
        let e0 = String::encode(v.name);
        let e1 = <CountedArray<VarInt, VarInt>>::encode(v.entries);
        let data = Self::encode(v) + rest;
        let t2 = rest;
        let t1 = e1 + t2;
        let t0 = e0 + t1;
        let l0 = e0;
        let l1 = l0 + e1;
        lemma_concat_assoc(l0, e1, t2);
        assert(data == t0);
        String::lemma_round_trip(v.name, t1);
        lemma_skip_concat(e0, t1);
        <CountedArray<VarInt, VarInt>>::lemma_round_trip(v.entries, t2);
        lemma_skip_more(data, (e0.len()) as int, e1, t2);
    }
}

/// What a client asks for outside the game proper.
#[derive(PartialEq, Eq, Structural, Clone, Copy, Debug)]
pub enum ClientStatusAction {
    PerformRespawn,
    RequestStats,
}

impl View for ClientStatusAction {
    type V = ClientStatusAction;

    open spec fn view(&self) -> ClientStatusAction {
        *self
    }
}

impl DeepView for ClientStatusAction {
    type V = ClientStatusAction;

    open spec fn deep_view(&self) -> ClientStatusAction {
        *self
    }
}

impl ClientStatusAction {
    pub fn variant_count() -> (r: usize)
        ensures
            r == 2,
    {
        2
    }

    /// The number that stands for the variant on the wire.
    pub open spec fn id_of(v: ClientStatusAction) -> i32 {
        match v {
            ClientStatusAction::PerformRespawn => 0x00,
            ClientStatusAction::RequestStats => 0x01,
        }
    }

    pub fn id(&self) -> (r: VarInt)
        ensures
            r == VarInt(Self::id_of(self.deep_view())),
    {
        match self {
            ClientStatusAction::PerformRespawn => VarInt(0x00),
            ClientStatusAction::RequestStats => VarInt(0x01),
        }
    }

    pub open spec fn name_of(v: ClientStatusAction) -> Seq<char> {
        match v {
            ClientStatusAction::PerformRespawn => "PerformRespawn"@,
            ClientStatusAction::RequestStats => "RequestStats"@,
        }
    }

    pub fn name(&self) -> (r: &'static str)
        ensures
            r@ == Self::name_of(self.deep_view()),
    {
        match self {
            ClientStatusAction::PerformRespawn => "PerformRespawn",
            ClientStatusAction::RequestStats => "RequestStats",
        }
    }

    /// The bytes that follow the number.
    pub open spec fn body_of(v: ClientStatusAction) -> Seq<u8> {
        match v {
            ClientStatusAction::PerformRespawn => Seq::empty(),
            ClientStatusAction::RequestStats => Seq::empty(),
        }
    }

    /// Whether what follows the number can be written.
    pub open spec fn body_writable(v: ClientStatusAction) -> bool {
        match v {
            ClientStatusAction::PerformRespawn => true,
            ClientStatusAction::RequestStats => true,
        }
    }

    /// The variant that `id` stands for, with its body read from `data`.
    pub open spec fn decode_with_id(id: i32, data: Seq<u8>) -> Decoded<ClientStatusAction> {
        if id == 0x00 {
            Ok((ClientStatusAction::PerformRespawn, 0))
        } else if id == 0x01 {
            Ok((ClientStatusAction::RequestStats, 0))
        } else {
            Err(DecodeFailure::CannotUnderstandValue)
        }
    }

    /// Whether `id` stands for a variant.
    pub open spec fn has_id(id: i32) -> bool {
        id == 0x00
            || id == 0x01
    }

    /// Picks the variant for `id` and reads its body from `data`. A number
    /// that stands for no variant is refused, and the error says which.
    pub fn deserialize_with_id<'a>(id: VarInt, data: &'a [u8]) -> (r: DeserializeResult<'a, Self>)
        ensures
            agrees(r, data@, Self::decode_with_id(id.0, data@)),
            !Self::has_id(id.0) ==> (r matches Err(DeserializeErr::CannotUnderstandValue(m))
                && m@ == invalid_int_text("ClientStatusAction"@, id.0 as int)),
    {
        proof {
            assert(data@.skip(0) =~= data@);
        }
        match id.0 {
            0x00 => Ok(Deserialized { value: ClientStatusAction::PerformRespawn, data }),
            0x01 => Ok(Deserialized { value: ClientStatusAction::RequestStats, data }),
            other => Err(DeserializeErr::CannotUnderstandValue(invalid_int_message("ClientStatusAction", other))),
        }
    }

    /// Writes what follows the number.
    pub fn serialize_body<S: Serializer>(&self, to: &mut S) -> (r: SerializeResult)
        ensures
            r is Ok ==> Self::body_writable(self.deep_view()) && final(to).written() == old(
                to,
            ).written() + Self::body_of(self.deep_view()),
            old(to).infallible() ==> final(to).infallible(),
            old(to).infallible() ==> (r is Ok <==> Self::body_writable(self.deep_view())),
            old(to).infallible() && r is Err ==> (r matches Err(SerializeErr::CannotSerialize(_))),
    {
        match self {
            ClientStatusAction::PerformRespawn => {
                proof {
                    assert(old(to).written() + Seq::<u8>::empty() =~= old(to).written());
                }
                Ok(())
            },
            ClientStatusAction::RequestStats => {
                proof {
                    assert(old(to).written() + Seq::<u8>::empty() =~= old(to).written());
                }
                Ok(())
            },
        }
    }
}

impl Serialize for ClientStatusAction {
    open spec fn serializable(v: ClientStatusAction) -> bool {
        Self::body_writable(v)
    }

    #[verifier::opaque]
    open spec fn encode(v: ClientStatusAction) -> Seq<u8> {
        <VarInt>::encode(VarInt(Self::id_of(v))) + Self::body_of(v)
    }

    fn mc_serialize<S: Serializer>(&self, to: &mut S) -> (r: SerializeResult) {
        proof {
            reveal(<ClientStatusAction as Serialize>::encode);
        }
        let id_to_serialize: VarInt = self.id();
        id_to_serialize.mc_serialize(to)?;
        let r = self.serialize_body(to);
        proof {
            let head = <VarInt>::encode(VarInt(Self::id_of(self.deep_view())));
            let body = Self::body_of(self.deep_view());
            lemma_concat_assoc(old(to).written(), head, body);
        }
        r
    }
}

impl Deserialize for ClientStatusAction {
    #[verifier::opaque]
    open spec fn decode(data: Seq<u8>) -> Decoded<ClientStatusAction> {
        match <VarInt>::decode(data) {
            Err(e) => Err(e),
            Ok((id, n)) => match Self::decode_with_id(id.0, data.skip(n as int)) {
                Ok((v, m)) => Ok((v, n + m)),
                Err(e) => Err(e),
            },
        }
    }

    fn mc_deserialize(data: &[u8]) -> (r: DeserializeResult<'_, ClientStatusAction>) {
        proof {
            reveal(<ClientStatusAction as Deserialize>::decode);
        }
        let Deserialized { value: id, data: rest } = <VarInt>::mc_deserialize(data)?;
        let Deserialized { value, data: after } = Self::deserialize_with_id(id, rest)?;
        proof {
            lemma_skip_skip(data@, data@.len() - rest@.len(), rest@.len() - after@.len());
        }
        Ok(Deserialized { value, data: after })
    }
}

impl ProtocolType for ClientStatusAction {
    open spec fn faithful(v: ClientStatusAction) -> bool {
        match v {
            ClientStatusAction::PerformRespawn => true,
            ClientStatusAction::RequestStats => true,
        }
    }

    open spec fn delimited() -> bool {
        true
    }

    proof fn lemma_round_trip(v: ClientStatusAction, rest: Seq<u8>) {
        reveal(<ClientStatusAction as Serialize>::encode);
        reveal(<ClientStatusAction as Deserialize>::decode);
        let head = <VarInt>::encode(VarInt(Self::id_of(v)));
        let body = Self::body_of(v);
        <VarInt>::lemma_round_trip(VarInt(Self::id_of(v)), body + rest);
        Self::lemma_body_round_trip(v, rest);
        lemma_concat_assoc(head, body, rest);
        lemma_skip_concat(head, body + rest);
    }
}

impl ClientStatusAction {
    /// What follows the number, written out and followed by anything, reads
    /// back under that number.
    pub proof fn lemma_body_round_trip(v: ClientStatusAction, rest: Seq<u8>)
        requires
            <Self as ProtocolType>::faithful(v),
            <Self as ProtocolType>::delimited() || rest.len() == 0,
        ensures
            Self::body_writable(v),
            Self::decode_with_id(Self::id_of(v), Self::body_of(v) + rest) == Ok::<_, DecodeFailure>(
                (v, Self::body_of(v).len()),
            ),
    {
        match v {
            ClientStatusAction::PerformRespawn => {
                assert(Seq::<u8>::empty() + rest =~= rest);
            },
            ClientStatusAction::RequestStats => {
                assert(Seq::<u8>::empty() + rest =~= rest);
            },
        }
    }
}

/// How much of the chat a client wants to see.
#[derive(PartialEq, Eq, Structural, Clone, Copy, Debug)]
pub enum ClientChatMode {
    Enabled,
    CommandsOnly,
    Hidden,
}

impl View for ClientChatMode {
    type V = ClientChatMode;

    open spec fn view(&self) -> ClientChatMode {
        *self
    }
}

impl DeepView for ClientChatMode {
    type V = ClientChatMode;

    open spec fn deep_view(&self) -> ClientChatMode {
        *self
    }
}

impl ClientChatMode {
    pub fn variant_count() -> (r: usize)
        ensures
            r == 3,
    {
        3
    }

    /// The number that stands for the variant on the wire.
    pub open spec fn id_of(v: ClientChatMode) -> i32 {
        match v {
            ClientChatMode::Enabled => 0x00,
            ClientChatMode::CommandsOnly => 0x01,
            ClientChatMode::Hidden => 0x02,
        }
    }

    pub fn id(&self) -> (r: VarInt)
        ensures
            r == VarInt(Self::id_of(self.deep_view())),
    {
        match self {
            ClientChatMode::Enabled => VarInt(0x00),
            ClientChatMode::CommandsOnly => VarInt(0x01),
            ClientChatMode::Hidden => VarInt(0x02),
        }
    }

    pub open spec fn name_of(v: ClientChatMode) -> Seq<char> {
        match v {
            ClientChatMode::Enabled => "Enabled"@,
            ClientChatMode::CommandsOnly => "CommandsOnly"@,
            ClientChatMode::Hidden => "Hidden"@,
        }
    }

    pub fn name(&self) -> (r: &'static str)
        ensures
            r@ == Self::name_of(self.deep_view()),
    {
        match self {
            ClientChatMode::Enabled => "Enabled",
            ClientChatMode::CommandsOnly => "CommandsOnly",
            ClientChatMode::Hidden => "Hidden",
        }
    }

    /// The bytes that follow the number.
    pub open spec fn body_of(v: ClientChatMode) -> Seq<u8> {
        match v {
            ClientChatMode::Enabled => Seq::empty(),
            ClientChatMode::CommandsOnly => Seq::empty(),
            ClientChatMode::Hidden => Seq::empty(),
        }
    }

    /// Whether what follows the number can be written.
    pub open spec fn body_writable(v: ClientChatMode) -> bool {
        match v {
            ClientChatMode::Enabled => true,
            ClientChatMode::CommandsOnly => true,
            ClientChatMode::Hidden => true,
        }
    }

    /// The variant that `id` stands for, with its body read from `data`.
    pub open spec fn decode_with_id(id: i32, data: Seq<u8>) -> Decoded<ClientChatMode> {
        if id == 0x00 {
            Ok((ClientChatMode::Enabled, 0))
        } else if id == 0x01 {
            Ok((ClientChatMode::CommandsOnly, 0))
        } else if id == 0x02 {
            Ok((ClientChatMode::Hidden, 0))
        } else {
            Err(DecodeFailure::CannotUnderstandValue)
        }
    }

    /// Whether `id` stands for a variant.
    pub open spec fn has_id(id: i32) -> bool {
        id == 0x00
            || id == 0x01
            || id == 0x02
    }

    /// Picks the variant for `id` and reads its body from `data`. A number
    /// that stands for no variant is refused, and the error says which.
    pub fn deserialize_with_id<'a>(id: VarInt, data: &'a [u8]) -> (r: DeserializeResult<'a, Self>)
        ensures
            agrees(r, data@, Self::decode_with_id(id.0, data@)),
            !Self::has_id(id.0) ==> (r matches Err(DeserializeErr::CannotUnderstandValue(m))
                && m@ == invalid_int_text("ClientChatMode"@, id.0 as int)),
    {
        proof {
            assert(data@.skip(0) =~= data@);
        }
        match id.0 {
            0x00 => Ok(Deserialized { value: ClientChatMode::Enabled, data }),
            0x01 => Ok(Deserialized { value: ClientChatMode::CommandsOnly, data }),
            0x02 => Ok(Deserialized { value: ClientChatMode::Hidden, data }),
            other => Err(DeserializeErr::CannotUnderstandValue(invalid_int_message("ClientChatMode", other))),
        }
    }

    /// Writes what follows the number.
    pub fn serialize_body<S: Serializer>(&self, to: &mut S) -> (r: SerializeResult)
        ensures
            r is Ok ==> Self::body_writable(self.deep_view()) && final(to).written() == old(
                to,
            ).written() + Self::body_of(self.deep_view()),
            old(to).infallible() ==> final(to).infallible(),
            old(to).infallible() ==> (r is Ok <==> Self::body_writable(self.deep_view())),
            old(to).infallible() && r is Err ==> (r matches Err(SerializeErr::CannotSerialize(_))),
    {
        match self {
            ClientChatMode::Enabled => {
                proof {
                    assert(old(to).written() + Seq::<u8>::empty() =~= old(to).written());
                }
                Ok(())
            },
            ClientChatMode::CommandsOnly => {
                proof {
                    assert(old(to).written() + Seq::<u8>::empty() =~= old(to).written());
                }
                Ok(())
            },
            ClientChatMode::Hidden => {
                proof {
                    assert(old(to).written() + Seq::<u8>::empty() =~= old(to).written());
                }
                Ok(())
            },
        }
    }
}

impl Serialize for ClientChatMode {
    open spec fn serializable(v: ClientChatMode) -> bool {
        Self::body_writable(v)
    }

    #[verifier::opaque]
    open spec fn encode(v: ClientChatMode) -> Seq<u8> {
        <VarInt>::encode(VarInt(Self::id_of(v))) + Self::body_of(v)
    }

    fn mc_serialize<S: Serializer>(&self, to: &mut S) -> (r: SerializeResult) {
        proof {
            reveal(<ClientChatMode as Serialize>::encode);
        }
        let id_to_serialize: VarInt = self.id();
        id_to_serialize.mc_serialize(to)?;
        let r = self.serialize_body(to);
        proof {
            let head = <VarInt>::encode(VarInt(Self::id_of(self.deep_view())));
            let body = Self::body_of(self.deep_view());
            lemma_concat_assoc(old(to).written(), head, body);
        }
        r
    }
}

impl Deserialize for ClientChatMode {
    #[verifier::opaque]
    open spec fn decode(data: Seq<u8>) -> Decoded<ClientChatMode> {
        match <VarInt>::decode(data) {
            Err(e) => Err(e),
            Ok((id, n)) => match Self::decode_with_id(id.0, data.skip(n as int)) {
                Ok((v, m)) => Ok((v, n + m)),
                Err(e) => Err(e),
            },
        }
    }

    fn mc_deserialize(data: &[u8]) -> (r: DeserializeResult<'_, ClientChatMode>) {
        proof {
            reveal(<ClientChatMode as Deserialize>::decode);
        }
        let Deserialized { value: id, data: rest } = <VarInt>::mc_deserialize(data)?;
        let Deserialized { value, data: after } = Self::deserialize_with_id(id, rest)?;
        proof {
            lemma_skip_skip(data@, data@.len() - rest@.len(), rest@.len() - after@.len());
        }
        Ok(Deserialized { value, data: after })
    }
}

impl ProtocolType for ClientChatMode {
    open spec fn faithful(v: ClientChatMode) -> bool {
        match v {
            ClientChatMode::Enabled => true,
            ClientChatMode::CommandsOnly => true,
            ClientChatMode::Hidden => true,
        }
    }

    open spec fn delimited() -> bool {
        true
    }

    proof fn lemma_round_trip(v: ClientChatMode, rest: Seq<u8>) {
        reveal(<ClientChatMode as Serialize>::encode);
        reveal(<ClientChatMode as Deserialize>::decode);
        let head = <VarInt>::encode(VarInt(Self::id_of(v)));
        let body = Self::body_of(v);
        <VarInt>::lemma_round_trip(VarInt(Self::id_of(v)), body + rest);
        Self::lemma_body_round_trip(v, rest);
        lemma_concat_assoc(head, body, rest);
        lemma_skip_concat(head, body + rest);
    }
}

impl ClientChatMode {
    /// What follows the number, written out and followed by anything, reads
    /// back under that number.
    pub proof fn lemma_body_round_trip(v: ClientChatMode, rest: Seq<u8>)
        requires
            <Self as ProtocolType>::faithful(v),
            <Self as ProtocolType>::delimited() || rest.len() == 0,
        ensures
            Self::body_writable(v),
            Self::decode_with_id(Self::id_of(v), Self::body_of(v) + rest) == Ok::<_, DecodeFailure>(
                (v, Self::body_of(v).len()),
            ),
    {
        match v {
            ClientChatMode::Enabled => {
                assert(Seq::<u8>::empty() + rest =~= rest);
            },
            ClientChatMode::CommandsOnly => {
                assert(Seq::<u8>::empty() + rest =~= rest);
            },
            ClientChatMode::Hidden => {
                assert(Seq::<u8>::empty() + rest =~= rest);
            },
        }
    }
}

/// The hand that a player mainly uses.
#[derive(PartialEq, Eq, Structural, Clone, Copy, Debug)]
pub enum ClientMainHand {
    Left,
    Right,
}

impl View for ClientMainHand {
    type V = ClientMainHand;

    open spec fn view(&self) -> ClientMainHand {
        *self
    }
}

impl DeepView for ClientMainHand {
    type V = ClientMainHand;

    open spec fn deep_view(&self) -> ClientMainHand {
        *self
    }
}

impl ClientMainHand {
    pub fn variant_count() -> (r: usize)
        ensures
            r == 2,
    {
        2
    }

    /// The number that stands for the variant on the wire.
    pub open spec fn id_of(v: ClientMainHand) -> i32 {
        match v {
            ClientMainHand::Left => 0x00,
            ClientMainHand::Right => 0x01,
        }
    }

    pub fn id(&self) -> (r: VarInt)
        ensures
            r == VarInt(Self::id_of(self.deep_view())),
    {
        match self {
            ClientMainHand::Left => VarInt(0x00),
            ClientMainHand::Right => VarInt(0x01),
        }
    }

    pub open spec fn name_of(v: ClientMainHand) -> Seq<char> {
        match v {
            ClientMainHand::Left => "Left"@,
            ClientMainHand::Right => "Right"@,
        }
    }

    pub fn name(&self) -> (r: &'static str)
        ensures
            r@ == Self::name_of(self.deep_view()),
    {
        match self {
            ClientMainHand::Left => "Left",
            ClientMainHand::Right => "Right",
        }
    }

    /// The bytes that follow the number.
    pub open spec fn body_of(v: ClientMainHand) -> Seq<u8> {
        match v {
            ClientMainHand::Left => Seq::empty(),
            ClientMainHand::Right => Seq::empty(),
        }
    }

    /// Whether what follows the number can be written.
    pub open spec fn body_writable(v: ClientMainHand) -> bool {
        match v {
            ClientMainHand::Left => true,
            ClientMainHand::Right => true,
        }
    }

    /// The variant that `id` stands for, with its body read from `data`.
    pub open spec fn decode_with_id(id: i32, data: Seq<u8>) -> Decoded<ClientMainHand> {
        if id == 0x00 {
            Ok((ClientMainHand::Left, 0))
        } else if id == 0x01 {
            Ok((ClientMainHand::Right, 0))
        } else {
            Err(DecodeFailure::CannotUnderstandValue)
        }
    }

    /// Whether `id` stands for a variant.
    pub open spec fn has_id(id: i32) -> bool {
        id == 0x00
            || id == 0x01
    }

    /// Picks the variant for `id` and reads its body from `data`. A number
    /// that stands for no variant is refused, and the error says which.
    pub fn deserialize_with_id<'a>(id: VarInt, data: &'a [u8]) -> (r: DeserializeResult<'a, Self>)
        ensures
            agrees(r, data@, Self::decode_with_id(id.0, data@)),
            !Self::has_id(id.0) ==> (r matches Err(DeserializeErr::CannotUnderstandValue(m))
                && m@ == invalid_int_text("ClientMainHand"@, id.0 as int)),
    {
        proof {
            assert(data@.skip(0) =~= data@);
        }
        match id.0 {
            0x00 => Ok(Deserialized { value: ClientMainHand::Left, data }),
            0x01 => Ok(Deserialized { value: ClientMainHand::Right, data }),
            other => Err(DeserializeErr::CannotUnderstandValue(invalid_int_message("ClientMainHand", other))),
        }
    }

    /// Writes what follows the number.
    pub fn serialize_body<S: Serializer>(&self, to: &mut S) -> (r: SerializeResult)
        ensures
            r is Ok ==> Self::body_writable(self.deep_view()) && final(to).written() == old(
                to,
            ).written() + Self::body_of(self.deep_view()),
            old(to).infallible() ==> final(to).infallible(),
            old(to).infallible() ==> (r is Ok <==> Self::body_writable(self.deep_view())),
            old(to).infallible() && r is Err ==> (r matches Err(SerializeErr::CannotSerialize(_))),
    {
        match self {
            ClientMainHand::Left => {
                proof {
                    assert(old(to).written() + Seq::<u8>::empty() =~= old(to).written());
                }
                Ok(())
            },
            ClientMainHand::Right => {
                proof {
                    assert(old(to).written() + Seq::<u8>::empty() =~= old(to).written());
                }
                Ok(())
            },
        }
    }
}

impl Serialize for ClientMainHand {
    open spec fn serializable(v: ClientMainHand) -> bool {
        Self::body_writable(v)
    }

    #[verifier::opaque]
    open spec fn encode(v: ClientMainHand) -> Seq<u8> {
        <VarInt>::encode(VarInt(Self::id_of(v))) + Self::body_of(v)
    }

    fn mc_serialize<S: Serializer>(&self, to: &mut S) -> (r: SerializeResult) {
        proof {
            reveal(<ClientMainHand as Serialize>::encode);
        }
        let id_to_serialize: VarInt = self.id();
        id_to_serialize.mc_serialize(to)?;
        let r = self.serialize_body(to);
        proof {
            let head = <VarInt>::encode(VarInt(Self::id_of(self.deep_view())));
            let body = Self::body_of(self.deep_view());
            lemma_concat_assoc(old(to).written(), head, body);
        }
        r
    }
}

impl Deserialize for ClientMainHand {
    #[verifier::opaque]
    open spec fn decode(data: Seq<u8>) -> Decoded<ClientMainHand> {
        match <VarInt>::decode(data) {
            Err(e) => Err(e),
            Ok((id, n)) => match Self::decode_with_id(id.0, data.skip(n as int)) {
                Ok((v, m)) => Ok((v, n + m)),
                Err(e) => Err(e),
            },
        }
    }

    fn mc_deserialize(data: &[u8]) -> (r: DeserializeResult<'_, ClientMainHand>) {
        proof {
            reveal(<ClientMainHand as Deserialize>::decode);
        }
        let Deserialized { value: id, data: rest } = <VarInt>::mc_deserialize(data)?;
        let Deserialized { value, data: after } = Self::deserialize_with_id(id, rest)?;
        proof {
            lemma_skip_skip(data@, data@.len() - rest@.len(), rest@.len() - after@.len());
        }
        Ok(Deserialized { value, data: after })
    }
}

impl ProtocolType for ClientMainHand {
    open spec fn faithful(v: ClientMainHand) -> bool {
        match v {
            ClientMainHand::Left => true,
            ClientMainHand::Right => true,
        }
    }

    open spec fn delimited() -> bool {
        true
    }

    proof fn lemma_round_trip(v: ClientMainHand, rest: Seq<u8>) {
        reveal(<ClientMainHand as Serialize>::encode);
        reveal(<ClientMainHand as Deserialize>::decode);
        let head = <VarInt>::encode(VarInt(Self::id_of(v)));
        let body = Self::body_of(v);
        <VarInt>::lemma_round_trip(VarInt(Self::id_of(v)), body + rest);
        Self::lemma_body_round_trip(v, rest);
        lemma_concat_assoc(head, body, rest);
        lemma_skip_concat(head, body + rest);
    }
}

impl ClientMainHand {
    /// What follows the number, written out and followed by anything, reads
    /// back under that number.
    pub proof fn lemma_body_round_trip(v: ClientMainHand, rest: Seq<u8>)
        requires
            <Self as ProtocolType>::faithful(v),
            <Self as ProtocolType>::delimited() || rest.len() == 0,
        ensures
            Self::body_writable(v),
            Self::decode_with_id(Self::id_of(v), Self::body_of(v) + rest) == Ok::<_, DecodeFailure>(
                (v, Self::body_of(v).len()),
            ),
    {
        match v {
            ClientMainHand::Left => {
                assert(Seq::<u8>::empty() + rest =~= rest);
            },
            ClientMainHand::Right => {
                assert(Seq::<u8>::empty() + rest =~= rest);
            },
        }
    }
}

/// The parts of a skin that show, one bit for each.
#[derive(Clone, Copy, PartialEq, Eq, Debug, Default)]
pub struct ClientDisplayedSkinParts(pub u8);

impl View for ClientDisplayedSkinParts {
    type V = ClientDisplayedSkinParts;

    open spec fn view(&self) -> ClientDisplayedSkinParts {
        *self
    }
}

impl DeepView for ClientDisplayedSkinParts {
    type V = ClientDisplayedSkinParts;

    open spec fn deep_view(&self) -> ClientDisplayedSkinParts {
        *self
    }
}

impl ClientDisplayedSkinParts {
    /// Whether the bit for `cape_enabled` is set.
    pub fn is_cape_enabled(&self) -> (r: bool)
        ensures
            r == flag_is_set(self.0, 0x01),
    {
        proof {
            lemma_flag(self.0, 0x01);
        }
        self.0 & 0x01 != 0
    }

    /// Sets the flag where `value` is true. Where it is false the flag is
    /// turned over: a flag that is set is cleared, and one that is clear is
    /// set.
    pub fn set_cape_enabled(&mut self, value: bool)
        ensures
            final(self).0 == if value {
                with_flag(old(self).0, 0x01)
            } else if flag_is_set(old(self).0, 0x01) {
                without_flag(old(self).0, 0x01)
            } else {
                with_flag(old(self).0, 0x01)
            },
    {
        proof {
            lemma_flag(self.0, 0x01);
        }
        if value {
            self.0 |= 0x01;
        } else {
            self.0 ^= 0x01;
        }
    }

    /// Whether the bit for `jacket_enabled` is set.
    pub fn is_jacket_enabled(&self) -> (r: bool)
        ensures
            r == flag_is_set(self.0, 0x02),
    {
        proof {
            lemma_flag(self.0, 0x02);
        }
        self.0 & 0x02 != 0
    }

    /// Sets the flag where `value` is true. Where it is false the flag is
    /// turned over: a flag that is set is cleared, and one that is clear is
    /// set.
    pub fn set_jacket_enabled(&mut self, value: bool)
        ensures
            final(self).0 == if value {
                with_flag(old(self).0, 0x02)
            } else if flag_is_set(old(self).0, 0x02) {
                without_flag(old(self).0, 0x02)
            } else {
                with_flag(old(self).0, 0x02)
            },
    {
        proof {
            lemma_flag(self.0, 0x02);
        }
        if value {
            self.0 |= 0x02;
        } else {
            self.0 ^= 0x02;
        }
    }

    /// Whether the bit for `left_sleeve_enabled` is set.
    pub fn is_left_sleeve_enabled(&self) -> (r: bool)
        ensures
            r == flag_is_set(self.0, 0x04),
    {
        proof {
            lemma_flag(self.0, 0x04);
        }
        self.0 & 0x04 != 0
    }

    /// Sets the flag where `value` is true. Where it is false the flag is
    /// turned over: a flag that is set is cleared, and one that is clear is
    /// set.
    pub fn set_left_sleeve_enabled(&mut self, value: bool)
        ensures
            final(self).0 == if value {
                with_flag(old(self).0, 0x04)
            } else if flag_is_set(old(self).0, 0x04) {
                without_flag(old(self).0, 0x04)
            } else {
                with_flag(old(self).0, 0x04)
            },
    {
        proof {
            lemma_flag(self.0, 0x04);
        }
        if value {
            self.0 |= 0x04;
        } else {
            self.0 ^= 0x04;
        }
    }

    /// Whether the bit for `right_sleeve_enabled` is set.
    pub fn is_right_sleeve_enabled(&self) -> (r: bool)
        ensures
            r == flag_is_set(self.0, 0x08),
    {
        proof {
            lemma_flag(self.0, 0x08);
        }
        self.0 & 0x08 != 0
    }

    /// Sets the flag where `value` is true. Where it is false the flag is
    /// turned over: a flag that is set is cleared, and one that is clear is
    /// set.
    pub fn set_right_sleeve_enabled(&mut self, value: bool)
        ensures
            final(self).0 == if value {
                with_flag(old(self).0, 0x08)
            } else if flag_is_set(old(self).0, 0x08) {
                without_flag(old(self).0, 0x08)
            } else {
                with_flag(old(self).0, 0x08)
            },
    {
        proof {
            lemma_flag(self.0, 0x08);
        }
        if value {
            self.0 |= 0x08;
        } else {
            self.0 ^= 0x08;
        }
    }

    /// Whether the bit for `left_pants_leg_enabled` is set.
    pub fn is_left_pants_leg_enabled(&self) -> (r: bool)
        ensures
            r == flag_is_set(self.0, 0x10),
    {
        proof {
            lemma_flag(self.0, 0x10);
        }
        self.0 & 0x10 != 0
    }

    /// Sets the flag where `value` is true. Where it is false the flag is
    /// turned over: a flag that is set is cleared, and one that is clear is
    /// set.
    pub fn set_left_pants_leg_enabled(&mut self, value: bool)
        ensures
            final(self).0 == if value {
                with_flag(old(self).0, 0x10)
            } else if flag_is_set(old(self).0, 0x10) {
                without_flag(old(self).0, 0x10)
            } else {
                with_flag(old(self).0, 0x10)
            },
    {
        proof {
            lemma_flag(self.0, 0x10);
        }
        if value {
            self.0 |= 0x10;
        } else {
            self.0 ^= 0x10;
        }
    }

    /// Whether the bit for `right_pant_legs_enabled` is set.
    pub fn is_right_pant_legs_enabled(&self) -> (r: bool)
        ensures
            r == flag_is_set(self.0, 0x20),
    {
        proof {
            lemma_flag(self.0, 0x20);
        }
        self.0 & 0x20 != 0
    }

    /// Sets the flag where `value` is true. Where it is false the flag is
    /// turned over: a flag that is set is cleared, and one that is clear is
    /// set.
    pub fn set_right_pant_legs_enabled(&mut self, value: bool)
        ensures
            final(self).0 == if value {
                with_flag(old(self).0, 0x20)
            } else if flag_is_set(old(self).0, 0x20) {
                without_flag(old(self).0, 0x20)
            } else {
                with_flag(old(self).0, 0x20)
            },
    {
        proof {
            lemma_flag(self.0, 0x20);
        }
        if value {
            self.0 |= 0x20;
        } else {
            self.0 ^= 0x20;
        }
    }

    /// Whether the bit for `hat_enabled` is set.
    pub fn is_hat_enabled(&self) -> (r: bool)
        ensures
            r == flag_is_set(self.0, 0x40),
    {
        proof {
            lemma_flag(self.0, 0x40);
        }
        self.0 & 0x40 != 0
    }

    /// Sets the flag where `value` is true. Where it is false the flag is
    /// turned over: a flag that is set is cleared, and one that is clear is
    /// set.
    pub fn set_hat_enabled(&mut self, value: bool)
        ensures
            final(self).0 == if value {
                with_flag(old(self).0, 0x40)
            } else if flag_is_set(old(self).0, 0x40) {
                without_flag(old(self).0, 0x40)
            } else {
                with_flag(old(self).0, 0x40)
            },
    {
        proof {
            lemma_flag(self.0, 0x40);
        }
        if value {
            self.0 |= 0x40;
        } else {
            self.0 ^= 0x40;
        }
    }

}

impl Serialize for ClientDisplayedSkinParts {
    open spec fn serializable(v: ClientDisplayedSkinParts) -> bool {
        true
    }

    #[verifier::opaque]
    open spec fn encode(v: ClientDisplayedSkinParts) -> Seq<u8> {
        seq![v.0]
    }

    fn mc_serialize<S: Serializer>(&self, to: &mut S) -> (r: SerializeResult) {
        proof {
            reveal(<ClientDisplayedSkinParts as Serialize>::encode);
        }
        let r = to.serialize_byte(self.0);
        proof {
            assert(old(to).written().push(self.0) =~= old(to).written() + seq![self.0]);
        }
        r
    }
}

impl Deserialize for ClientDisplayedSkinParts {
    #[verifier::opaque]
    open spec fn decode(data: Seq<u8>) -> Decoded<ClientDisplayedSkinParts> {
        if data.len() < 1 {
            Err(DecodeFailure::Eof)
        } else {
            Ok((ClientDisplayedSkinParts(data[0]), 1))
        }
    }

    fn mc_deserialize(data: &[u8]) -> (r: DeserializeResult<'_, ClientDisplayedSkinParts>) {
        proof {
            reveal(<ClientDisplayedSkinParts as Deserialize>::decode);
        }
        proof {
            reveal(<u8 as Deserialize>::decode);
        }
        let Deserialized { value: b, data: rest } = u8::mc_deserialize(data)?;
        Ok(Deserialized { value: ClientDisplayedSkinParts(b), data: rest })
    }
}

impl ProtocolType for ClientDisplayedSkinParts {
    open spec fn faithful(v: ClientDisplayedSkinParts) -> bool {
        true
    }

    open spec fn delimited() -> bool {
        true
    }

    proof fn lemma_round_trip(v: ClientDisplayedSkinParts, rest: Seq<u8>) {
        reveal(<ClientDisplayedSkinParts as Serialize>::encode);
        reveal(<ClientDisplayedSkinParts as Deserialize>::decode);
    }
}

/// A way of clicking in an inventory window.
#[derive(PartialEq, Eq, Structural, Clone, Copy, Debug)]
pub enum InventoryOperationMode {
    MouseClick,
    ShiftClick,
    NumberClick,
    MiddleClick,
    DropClick,
    Drag,
    DoubleClick,
}

impl View for InventoryOperationMode {
    type V = InventoryOperationMode;

    open spec fn view(&self) -> InventoryOperationMode {
        *self
    }
}

impl DeepView for InventoryOperationMode {
    type V = InventoryOperationMode;

    open spec fn deep_view(&self) -> InventoryOperationMode {
        *self
    }
}

impl InventoryOperationMode {
    pub fn variant_count() -> (r: usize)
        ensures
            r == 7,
    {
        7
    }

    /// The number that stands for the variant on the wire.
    pub open spec fn id_of(v: InventoryOperationMode) -> i32 {
        match v {
            InventoryOperationMode::MouseClick => 0x00,
            InventoryOperationMode::ShiftClick => 0x01,
            InventoryOperationMode::NumberClick => 0x02,
            InventoryOperationMode::MiddleClick => 0x03,
            InventoryOperationMode::DropClick => 0x04,
            InventoryOperationMode::Drag => 0x05,
            InventoryOperationMode::DoubleClick => 0x06,
        }
    }

    pub fn id(&self) -> (r: VarInt)
        ensures
            r == VarInt(Self::id_of(self.deep_view())),
    {
        match self {
            InventoryOperationMode::MouseClick => VarInt(0x00),
            InventoryOperationMode::ShiftClick => VarInt(0x01),
            InventoryOperationMode::NumberClick => VarInt(0x02),
            InventoryOperationMode::MiddleClick => VarInt(0x03),
            InventoryOperationMode::DropClick => VarInt(0x04),
            InventoryOperationMode::Drag => VarInt(0x05),
            InventoryOperationMode::DoubleClick => VarInt(0x06),
        }
    }

    pub open spec fn name_of(v: InventoryOperationMode) -> Seq<char> {
        match v {
            InventoryOperationMode::MouseClick => "MouseClick"@,
            InventoryOperationMode::ShiftClick => "ShiftClick"@,
            InventoryOperationMode::NumberClick => "NumberClick"@,
            InventoryOperationMode::MiddleClick => "MiddleClick"@,
            InventoryOperationMode::DropClick => "DropClick"@,
            InventoryOperationMode::Drag => "Drag"@,
            InventoryOperationMode::DoubleClick => "DoubleClick"@,
        }
    }

    pub fn name(&self) -> (r: &'static str)
        ensures
            r@ == Self::name_of(self.deep_view()),
    {
        match self {
            InventoryOperationMode::MouseClick => "MouseClick",
            InventoryOperationMode::ShiftClick => "ShiftClick",
            InventoryOperationMode::NumberClick => "NumberClick",
            InventoryOperationMode::MiddleClick => "MiddleClick",
            InventoryOperationMode::DropClick => "DropClick",
            InventoryOperationMode::Drag => "Drag",
            InventoryOperationMode::DoubleClick => "DoubleClick",
        }
    }

    /// The bytes that follow the number.
    pub open spec fn body_of(v: InventoryOperationMode) -> Seq<u8> {
        match v {
            InventoryOperationMode::MouseClick => Seq::empty(),
            InventoryOperationMode::ShiftClick => Seq::empty(),
            InventoryOperationMode::NumberClick => Seq::empty(),
            InventoryOperationMode::MiddleClick => Seq::empty(),
            InventoryOperationMode::DropClick => Seq::empty(),
            InventoryOperationMode::Drag => Seq::empty(),
            InventoryOperationMode::DoubleClick => Seq::empty(),
        }
    }

    /// Whether what follows the number can be written.
    pub open spec fn body_writable(v: InventoryOperationMode) -> bool {
        match v {
            InventoryOperationMode::MouseClick => true,
            InventoryOperationMode::ShiftClick => true,
            InventoryOperationMode::NumberClick => true,
            InventoryOperationMode::MiddleClick => true,
            InventoryOperationMode::DropClick => true,
            InventoryOperationMode::Drag => true,
            InventoryOperationMode::DoubleClick => true,
        }
    }

    /// The variant that `id` stands for, with its body read from `data`.
    pub open spec fn decode_with_id(id: i32, data: Seq<u8>) -> Decoded<InventoryOperationMode> {
        if id == 0x00 {
            Ok((InventoryOperationMode::MouseClick, 0))
        } else if id == 0x01 {
            Ok((InventoryOperationMode::ShiftClick, 0))
        } else if id == 0x02 {
            Ok((InventoryOperationMode::NumberClick, 0))
        } else if id == 0x03 {
            Ok((InventoryOperationMode::MiddleClick, 0))
        } else if id == 0x04 {
            Ok((InventoryOperationMode::DropClick, 0))
        } else if id == 0x05 {
            Ok((InventoryOperationMode::Drag, 0))
        } else if id == 0x06 {
            Ok((InventoryOperationMode::DoubleClick, 0))
        } else {
            Err(DecodeFailure::CannotUnderstandValue)
        }
    }

    /// Whether `id` stands for a variant.
    pub open spec fn has_id(id: i32) -> bool {
        id == 0x00
            || id == 0x01
            || id == 0x02
            || id == 0x03
            || id == 0x04
            || id == 0x05
            || id == 0x06
    }

    /// Picks the variant for `id` and reads its body from `data`. A number
    /// that stands for no variant is refused, and the error says which.
    pub fn deserialize_with_id<'a>(id: VarInt, data: &'a [u8]) -> (r: DeserializeResult<'a, Self>)
        ensures
            agrees(r, data@, Self::decode_with_id(id.0, data@)),
            !Self::has_id(id.0) ==> (r matches Err(DeserializeErr::CannotUnderstandValue(m))
                && m@ == invalid_int_text("InventoryOperationMode"@, id.0 as int)),
    {
        proof {
            assert(data@.skip(0) =~= data@);
        }
        match id.0 {
            0x00 => Ok(Deserialized { value: InventoryOperationMode::MouseClick, data }),
            0x01 => Ok(Deserialized { value: InventoryOperationMode::ShiftClick, data }),
            0x02 => Ok(Deserialized { value: InventoryOperationMode::NumberClick, data }),
            0x03 => Ok(Deserialized { value: InventoryOperationMode::MiddleClick, data }),
            0x04 => Ok(Deserialized { value: InventoryOperationMode::DropClick, data }),
            0x05 => Ok(Deserialized { value: InventoryOperationMode::Drag, data }),
            0x06 => Ok(Deserialized { value: InventoryOperationMode::DoubleClick, data }),
            other => Err(DeserializeErr::CannotUnderstandValue(invalid_int_message("InventoryOperationMode", other))),
        }
    }

    /// Writes what follows the number.
    pub fn serialize_body<S: Serializer>(&self, to: &mut S) -> (r: SerializeResult)
        ensures
            r is Ok ==> Self::body_writable(self.deep_view()) && final(to).written() == old(
                to,
            ).written() + Self::body_of(self.deep_view()),
            old(to).infallible() ==> final(to).infallible(),
            old(to).infallible() ==> (r is Ok <==> Self::body_writable(self.deep_view())),
            old(to).infallible() && r is Err ==> (r matches Err(SerializeErr::CannotSerialize(_))),
    {
        match self {
            InventoryOperationMode::MouseClick => {
                proof {
                    assert(old(to).written() + Seq::<u8>::empty() =~= old(to).written());
                }
                Ok(())
            },
            InventoryOperationMode::ShiftClick => {
                proof {
                    assert(old(to).written() + Seq::<u8>::empty() =~= old(to).written());
                }
                Ok(())
            },
            InventoryOperationMode::NumberClick => {
                proof {
                    assert(old(to).written() + Seq::<u8>::empty() =~= old(to).written());
                }
                Ok(())
            },
            InventoryOperationMode::MiddleClick => {
                proof {
                    assert(old(to).written() + Seq::<u8>::empty() =~= old(to).written());
                }
                Ok(())
            },
            InventoryOperationMode::DropClick => {
                proof {
                    assert(old(to).written() + Seq::<u8>::empty() =~= old(to).written());
                }
                Ok(())
            },
            InventoryOperationMode::Drag => {
                proof {
                    assert(old(to).written() + Seq::<u8>::empty() =~= old(to).written());
                }
                Ok(())
            },
            InventoryOperationMode::DoubleClick => {
                proof {
                    assert(old(to).written() + Seq::<u8>::empty() =~= old(to).written());
                }
                Ok(())
            },
        }
    }
}

impl Serialize for InventoryOperationMode {
    open spec fn serializable(v: InventoryOperationMode) -> bool {
        Self::body_writable(v)
    }

    #[verifier::opaque]
    open spec fn encode(v: InventoryOperationMode) -> Seq<u8> {
        <VarInt>::encode(VarInt(Self::id_of(v))) + Self::body_of(v)
    }

    fn mc_serialize<S: Serializer>(&self, to: &mut S) -> (r: SerializeResult) {
        proof {
            reveal(<InventoryOperationMode as Serialize>::encode);
        }
        let id_to_serialize: VarInt = self.id();
        id_to_serialize.mc_serialize(to)?;
        let r = self.serialize_body(to);
        proof {
            let head = <VarInt>::encode(VarInt(Self::id_of(self.deep_view())));
            let body = Self::body_of(self.deep_view());
            lemma_concat_assoc(old(to).written(), head, body);
        }
        r
    }
}

impl Deserialize for InventoryOperationMode {
    #[verifier::opaque]
    open spec fn decode(data: Seq<u8>) -> Decoded<InventoryOperationMode> {
        match <VarInt>::decode(data) {
            Err(e) => Err(e),
            Ok((id, n)) => match Self::decode_with_id(id.0, data.skip(n as int)) {
                Ok((v, m)) => Ok((v, n + m)),
                Err(e) => Err(e),
            },
        }
    }

    fn mc_deserialize(data: &[u8]) -> (r: DeserializeResult<'_, InventoryOperationMode>) {
        proof {
            reveal(<InventoryOperationMode as Deserialize>::decode);
        }
        let Deserialized { value: id, data: rest } = <VarInt>::mc_deserialize(data)?;
        let Deserialized { value, data: after } = Self::deserialize_with_id(id, rest)?;
        proof {
            lemma_skip_skip(data@, data@.len() - rest@.len(), rest@.len() - after@.len());
        }
        Ok(Deserialized { value, data: after })
    }
}

impl ProtocolType for InventoryOperationMode {
    open spec fn faithful(v: InventoryOperationMode) -> bool {
        match v {
            InventoryOperationMode::MouseClick => true,
            InventoryOperationMode::ShiftClick => true,
            InventoryOperationMode::NumberClick => true,
            InventoryOperationMode::MiddleClick => true,
            InventoryOperationMode::DropClick => true,
            InventoryOperationMode::Drag => true,
            InventoryOperationMode::DoubleClick => true,
        }
    }

    open spec fn delimited() -> bool {
        true
    }

    proof fn lemma_round_trip(v: InventoryOperationMode, rest: Seq<u8>) {
        reveal(<InventoryOperationMode as Serialize>::encode);
        reveal(<InventoryOperationMode as Deserialize>::decode);
        let head = <VarInt>::encode(VarInt(Self::id_of(v)));
        let body = Self::body_of(v);
        <VarInt>::lemma_round_trip(VarInt(Self::id_of(v)), body + rest);
        Self::lemma_body_round_trip(v, rest);
        lemma_concat_assoc(head, body, rest);
        lemma_skip_concat(head, body + rest);
    }
}

impl InventoryOperationMode {
    /// What follows the number, written out and followed by anything, reads
    /// back under that number.
    pub proof fn lemma_body_round_trip(v: InventoryOperationMode, rest: Seq<u8>)
        requires
            <Self as ProtocolType>::faithful(v),
            <Self as ProtocolType>::delimited() || rest.len() == 0,
        ensures
            Self::body_writable(v),
            Self::decode_with_id(Self::id_of(v), Self::body_of(v) + rest) == Ok::<_, DecodeFailure>(
                (v, Self::body_of(v).len()),
            ),
    {
        match v {
            InventoryOperationMode::MouseClick => {
                assert(Seq::<u8>::empty() + rest =~= rest);
            },
            InventoryOperationMode::ShiftClick => {
                assert(Seq::<u8>::empty() + rest =~= rest);
            },
            InventoryOperationMode::NumberClick => {
                assert(Seq::<u8>::empty() + rest =~= rest);
            },
            InventoryOperationMode::MiddleClick => {
                assert(Seq::<u8>::empty() + rest =~= rest);
            },
            InventoryOperationMode::DropClick => {
                assert(Seq::<u8>::empty() + rest =~= rest);
            },
            InventoryOperationMode::Drag => {
                assert(Seq::<u8>::empty() + rest =~= rest);
            },
            InventoryOperationMode::DoubleClick => {
                assert(Seq::<u8>::empty() + rest =~= rest);
            },
        }
    }
}

/// What a client says its player is doing, one bit for each.
#[derive(Clone, Copy, PartialEq, Eq, Debug, Default)]
pub struct ClientPlayerAbilities(pub u8);

impl View for ClientPlayerAbilities {
    type V = ClientPlayerAbilities;

    open spec fn view(&self) -> ClientPlayerAbilities {
        *self
    }
}

impl DeepView for ClientPlayerAbilities {
    type V = ClientPlayerAbilities;

    open spec fn deep_view(&self) -> ClientPlayerAbilities {
        *self
    }
}

impl ClientPlayerAbilities {
    /// Whether the bit for `creative` is set.
    pub fn is_creative(&self) -> (r: bool)
        ensures
            r == flag_is_set(self.0, 0x01),
    {
        proof {
            lemma_flag(self.0, 0x01);
        }
        self.0 & 0x01 != 0
    }

    /// Sets the flag where `value` is true. Where it is false the flag is
    /// turned over: a flag that is set is cleared, and one that is clear is
    /// set.
    pub fn set_creative(&mut self, value: bool)
        ensures
            final(self).0 == if value {
                with_flag(old(self).0, 0x01)
            } else if flag_is_set(old(self).0, 0x01) {
                without_flag(old(self).0, 0x01)
            } else {
                with_flag(old(self).0, 0x01)
            },
    {
        proof {
            lemma_flag(self.0, 0x01);
        }
        if value {
            self.0 |= 0x01;
        } else {
            self.0 ^= 0x01;
        }
    }

    /// Whether the bit for `flying` is set.
    pub fn is_flying(&self) -> (r: bool)
        ensures
            r == flag_is_set(self.0, 0x02),
    {
        proof {
            lemma_flag(self.0, 0x02);
        }
        self.0 & 0x02 != 0
    }

    /// Sets the flag where `value` is true. Where it is false the flag is
    /// turned over: a flag that is set is cleared, and one that is clear is
    /// set.
    pub fn set_flying(&mut self, value: bool)
        ensures
            final(self).0 == if value {
                with_flag(old(self).0, 0x02)
            } else if flag_is_set(old(self).0, 0x02) {
                without_flag(old(self).0, 0x02)
            } else {
                with_flag(old(self).0, 0x02)
            },
    {
        proof {
            lemma_flag(self.0, 0x02);
        }
        if value {
            self.0 |= 0x02;
        } else {
            self.0 ^= 0x02;
        }
    }

    /// Whether the bit for `fly_enabled` is set.
    pub fn is_fly_enabled(&self) -> (r: bool)
        ensures
            r == flag_is_set(self.0, 0x04),
    {
        proof {
            lemma_flag(self.0, 0x04);
        }
        self.0 & 0x04 != 0
    }

    /// Sets the flag where `value` is true. Where it is false the flag is
    /// turned over: a flag that is set is cleared, and one that is clear is
    /// set.
    pub fn set_fly_enabled(&mut self, value: bool)
        ensures
            final(self).0 == if value {
                with_flag(old(self).0, 0x04)
            } else if flag_is_set(old(self).0, 0x04) {
                without_flag(old(self).0, 0x04)
            } else {
                with_flag(old(self).0, 0x04)
            },
    {
        proof {
            lemma_flag(self.0, 0x04);
        }
        if value {
            self.0 |= 0x04;
        } else {
            self.0 ^= 0x04;
        }
    }

    /// Whether the bit for `damaged_disabled` is set.
    pub fn is_damaged_disabled(&self) -> (r: bool)
        ensures
            r == flag_is_set(self.0, 0x08),
    {
        proof {
            lemma_flag(self.0, 0x08);
        }
        self.0 & 0x08 != 0
    }

    /// Sets the flag where `value` is true. Where it is false the flag is
    /// turned over: a flag that is set is cleared, and one that is clear is
    /// set.
    pub fn set_damaged_disabled(&mut self, value: bool)
        ensures
            final(self).0 == if value {
                with_flag(old(self).0, 0x08)
            } else if flag_is_set(old(self).0, 0x08) {
                without_flag(old(self).0, 0x08)
            } else {
                with_flag(old(self).0, 0x08)
            },
    {
        proof {
            lemma_flag(self.0, 0x08);
        }
        if value {
            self.0 |= 0x08;
        } else {
            self.0 ^= 0x08;
        }
    }

}

impl Serialize for ClientPlayerAbilities {
    open spec fn serializable(v: ClientPlayerAbilities) -> bool {
        true
    }

    #[verifier::opaque]
    open spec fn encode(v: ClientPlayerAbilities) -> Seq<u8> {
        seq![v.0]
    }

    fn mc_serialize<S: Serializer>(&self, to: &mut S) -> (r: SerializeResult) {
        proof {
            reveal(<ClientPlayerAbilities as Serialize>::encode);
        }
        let r = to.serialize_byte(self.0);
        proof {
            assert(old(to).written().push(self.0) =~= old(to).written() + seq![self.0]);
        }
        r
    }
}

impl Deserialize for ClientPlayerAbilities {
    #[verifier::opaque]
    open spec fn decode(data: Seq<u8>) -> Decoded<ClientPlayerAbilities> {
        if data.len() < 1 {
            Err(DecodeFailure::Eof)
        } else {
            Ok((ClientPlayerAbilities(data[0]), 1))
        }
    }

    fn mc_deserialize(data: &[u8]) -> (r: DeserializeResult<'_, ClientPlayerAbilities>) {
        proof {
            reveal(<ClientPlayerAbilities as Deserialize>::decode);
        }
        proof {
            reveal(<u8 as Deserialize>::decode);
        }
        let Deserialized { value: b, data: rest } = u8::mc_deserialize(data)?;
        Ok(Deserialized { value: ClientPlayerAbilities(b), data: rest })
    }
}

impl ProtocolType for ClientPlayerAbilities {
    open spec fn faithful(v: ClientPlayerAbilities) -> bool {
        true
    }

    open spec fn delimited() -> bool {
        true
    }

    proof fn lemma_round_trip(v: ClientPlayerAbilities, rest: Seq<u8>) {
        reveal(<ClientPlayerAbilities as Serialize>::encode);
        reveal(<ClientPlayerAbilities as Deserialize>::decode);
    }
}

/// What a player does with the block or item in hand.
#[derive(PartialEq, Eq, Structural, Clone, Copy, Debug)]
pub enum PlayerDiggingStatus {
    Started,
    Cancelled,
    Finished,
    DropStack,
    DropItem,
    ShootArrowOrFishEating,
    SwapItemInHand,
}

impl View for PlayerDiggingStatus {
    type V = PlayerDiggingStatus;

    open spec fn view(&self) -> PlayerDiggingStatus {
        *self
    }
}

impl DeepView for PlayerDiggingStatus {
    type V = PlayerDiggingStatus;

    open spec fn deep_view(&self) -> PlayerDiggingStatus {
        *self
    }
}

impl PlayerDiggingStatus {
    pub fn variant_count() -> (r: usize)
        ensures
            r == 7,
    {
        7
    }

    /// The number that stands for the variant on the wire.
    pub open spec fn id_of(v: PlayerDiggingStatus) -> i32 {
        match v {
            PlayerDiggingStatus::Started => 0x00,
            PlayerDiggingStatus::Cancelled => 0x01,
            PlayerDiggingStatus::Finished => 0x02,
            PlayerDiggingStatus::DropStack => 0x03,
            PlayerDiggingStatus::DropItem => 0x04,
            PlayerDiggingStatus::ShootArrowOrFishEating => 0x05,
            PlayerDiggingStatus::SwapItemInHand => 0x06,
        }
    }

    pub fn id(&self) -> (r: VarInt)
        ensures
            r == VarInt(Self::id_of(self.deep_view())),
    {
        match self {
            PlayerDiggingStatus::Started => VarInt(0x00),
            PlayerDiggingStatus::Cancelled => VarInt(0x01),
            PlayerDiggingStatus::Finished => VarInt(0x02),
            PlayerDiggingStatus::DropStack => VarInt(0x03),
            PlayerDiggingStatus::DropItem => VarInt(0x04),
            PlayerDiggingStatus::ShootArrowOrFishEating => VarInt(0x05),
            PlayerDiggingStatus::SwapItemInHand => VarInt(0x06),
        }
    }

    pub open spec fn name_of(v: PlayerDiggingStatus) -> Seq<char> {
        match v {
            PlayerDiggingStatus::Started => "Started"@,
            PlayerDiggingStatus::Cancelled => "Cancelled"@,
            PlayerDiggingStatus::Finished => "Finished"@,
            PlayerDiggingStatus::DropStack => "DropStack"@,
            PlayerDiggingStatus::DropItem => "DropItem"@,
            PlayerDiggingStatus::ShootArrowOrFishEating => "ShootArrowOrFishEating"@,
            PlayerDiggingStatus::SwapItemInHand => "SwapItemInHand"@,
        }
    }

    pub fn name(&self) -> (r: &'static str)
        ensures
            r@ == Self::name_of(self.deep_view()),
    {
        match self {
            PlayerDiggingStatus::Started => "Started",
            PlayerDiggingStatus::Cancelled => "Cancelled",
            PlayerDiggingStatus::Finished => "Finished",
            PlayerDiggingStatus::DropStack => "DropStack",
            PlayerDiggingStatus::DropItem => "DropItem",
            PlayerDiggingStatus::ShootArrowOrFishEating => "ShootArrowOrFishEating",
            PlayerDiggingStatus::SwapItemInHand => "SwapItemInHand",
        }
    }

    /// The bytes that follow the number.
    pub open spec fn body_of(v: PlayerDiggingStatus) -> Seq<u8> {
        match v {
            PlayerDiggingStatus::Started => Seq::empty(),
            PlayerDiggingStatus::Cancelled => Seq::empty(),
            PlayerDiggingStatus::Finished => Seq::empty(),
            PlayerDiggingStatus::DropStack => Seq::empty(),
            PlayerDiggingStatus::DropItem => Seq::empty(),
            PlayerDiggingStatus::ShootArrowOrFishEating => Seq::empty(),
            PlayerDiggingStatus::SwapItemInHand => Seq::empty(),
        }
    }

    /// Whether what follows the number can be written.
    pub open spec fn body_writable(v: PlayerDiggingStatus) -> bool {
        match v {
            PlayerDiggingStatus::Started => true,
            PlayerDiggingStatus::Cancelled => true,
            PlayerDiggingStatus::Finished => true,
            PlayerDiggingStatus::DropStack => true,
            PlayerDiggingStatus::DropItem => true,
            PlayerDiggingStatus::ShootArrowOrFishEating => true,
            PlayerDiggingStatus::SwapItemInHand => true,
        }
    }

    /// The variant that `id` stands for, with its body read from `data`.
    pub open spec fn decode_with_id(id: i32, data: Seq<u8>) -> Decoded<PlayerDiggingStatus> {
        if id == 0x00 {
            Ok((PlayerDiggingStatus::Started, 0))
        } else if id == 0x01 {
            Ok((PlayerDiggingStatus::Cancelled, 0))
        } else if id == 0x02 {
            Ok((PlayerDiggingStatus::Finished, 0))
        } else if id == 0x03 {
            Ok((PlayerDiggingStatus::DropStack, 0))
        } else if id == 0x04 {
            Ok((PlayerDiggingStatus::DropItem, 0))
        } else if id == 0x05 {
            Ok((PlayerDiggingStatus::ShootArrowOrFishEating, 0))
        } else if id == 0x06 {
            Ok((PlayerDiggingStatus::SwapItemInHand, 0))
        } else {
            Err(DecodeFailure::CannotUnderstandValue)
        }
    }

    /// Whether `id` stands for a variant.
    pub open spec fn has_id(id: i32) -> bool {
        id == 0x00
            || id == 0x01
            || id == 0x02
            || id == 0x03
            || id == 0x04
            || id == 0x05
            || id == 0x06
    }

    /// Picks the variant for `id` and reads its body from `data`. A number
    /// that stands for no variant is refused, and the error says which.
    pub fn deserialize_with_id<'a>(id: VarInt, data: &'a [u8]) -> (r: DeserializeResult<'a, Self>)
        ensures
            agrees(r, data@, Self::decode_with_id(id.0, data@)),
            !Self::has_id(id.0) ==> (r matches Err(DeserializeErr::CannotUnderstandValue(m))
                && m@ == invalid_int_text("PlayerDiggingStatus"@, id.0 as int)),
    {
        proof {
            assert(data@.skip(0) =~= data@);
        }
        match id.0 {
            0x00 => Ok(Deserialized { value: PlayerDiggingStatus::Started, data }),
            0x01 => Ok(Deserialized { value: PlayerDiggingStatus::Cancelled, data }),
            0x02 => Ok(Deserialized { value: PlayerDiggingStatus::Finished, data }),
            0x03 => Ok(Deserialized { value: PlayerDiggingStatus::DropStack, data }),
            0x04 => Ok(Deserialized { value: PlayerDiggingStatus::DropItem, data }),
            0x05 => Ok(Deserialized { value: PlayerDiggingStatus::ShootArrowOrFishEating, data }),
            0x06 => Ok(Deserialized { value: PlayerDiggingStatus::SwapItemInHand, data }),
            other => Err(DeserializeErr::CannotUnderstandValue(invalid_int_message("PlayerDiggingStatus", other))),
        }
    }

    /// Writes what follows the number.
    pub fn serialize_body<S: Serializer>(&self, to: &mut S) -> (r: SerializeResult)
        ensures
            r is Ok ==> Self::body_writable(self.deep_view()) && final(to).written() == old(
                to,
            ).written() + Self::body_of(self.deep_view()),
            old(to).infallible() ==> final(to).infallible(),
            old(to).infallible() ==> (r is Ok <==> Self::body_writable(self.deep_view())),
            old(to).infallible() && r is Err ==> (r matches Err(SerializeErr::CannotSerialize(_))),
    {
        match self {
            PlayerDiggingStatus::Started => {
                proof {
                    assert(old(to).written() + Seq::<u8>::empty() =~= old(to).written());
                }
                Ok(())
            },
            PlayerDiggingStatus::Cancelled => {
                proof {
                    assert(old(to).written() + Seq::<u8>::empty() =~= old(to).written());
                }
                Ok(())
            },
            PlayerDiggingStatus::Finished => {
                proof {
                    assert(old(to).written() + Seq::<u8>::empty() =~= old(to).written());
                }
                Ok(())
            },
            PlayerDiggingStatus::DropStack => {
                proof {
                    assert(old(to).written() + Seq::<u8>::empty() =~= old(to).written());
                }
                Ok(())
            },
            PlayerDiggingStatus::DropItem => {
                proof {
                    assert(old(to).written() + Seq::<u8>::empty() =~= old(to).written());
                }
                Ok(())
            },
            PlayerDiggingStatus::ShootArrowOrFishEating => {
                proof {
                    assert(old(to).written() + Seq::<u8>::empty() =~= old(to).written());
                }
                Ok(())
            },
            PlayerDiggingStatus::SwapItemInHand => {
                proof {
                    assert(old(to).written() + Seq::<u8>::empty() =~= old(to).written());
                }
                Ok(())
            },
        }
    }
}

impl Serialize for PlayerDiggingStatus {
    open spec fn serializable(v: PlayerDiggingStatus) -> bool {
        Self::body_writable(v)
    }

    #[verifier::opaque]
    open spec fn encode(v: PlayerDiggingStatus) -> Seq<u8> {
        <VarInt>::encode(VarInt(Self::id_of(v))) + Self::body_of(v)
    }

    fn mc_serialize<S: Serializer>(&self, to: &mut S) -> (r: SerializeResult) {
        proof {
            reveal(<PlayerDiggingStatus as Serialize>::encode);
        }
        let id_to_serialize: VarInt = self.id();
        id_to_serialize.mc_serialize(to)?;
        let r = self.serialize_body(to);
        proof {
            let head = <VarInt>::encode(VarInt(Self::id_of(self.deep_view())));
            let body = Self::body_of(self.deep_view());
            lemma_concat_assoc(old(to).written(), head, body);
        }
        r
    }
}

impl Deserialize for PlayerDiggingStatus {
    #[verifier::opaque]
    open spec fn decode(data: Seq<u8>) -> Decoded<PlayerDiggingStatus> {
        match <VarInt>::decode(data) {
            Err(e) => Err(e),
            Ok((id, n)) => match Self::decode_with_id(id.0, data.skip(n as int)) {
                Ok((v, m)) => Ok((v, n + m)),
                Err(e) => Err(e),
            },
        }
    }

    fn mc_deserialize(data: &[u8]) -> (r: DeserializeResult<'_, PlayerDiggingStatus>) {
        proof {
            reveal(<PlayerDiggingStatus as Deserialize>::decode);
        }
        let Deserialized { value: id, data: rest } = <VarInt>::mc_deserialize(data)?;
        let Deserialized { value, data: after } = Self::deserialize_with_id(id, rest)?;
        proof {
            lemma_skip_skip(data@, data@.len() - rest@.len(), rest@.len() - after@.len());
        }
        Ok(Deserialized { value, data: after })
    }
}

impl ProtocolType for PlayerDiggingStatus {
    open spec fn faithful(v: PlayerDiggingStatus) -> bool {
        match v {
            PlayerDiggingStatus::Started => true,
            PlayerDiggingStatus::Cancelled => true,
            PlayerDiggingStatus::Finished => true,
            PlayerDiggingStatus::DropStack => true,
            PlayerDiggingStatus::DropItem => true,
            PlayerDiggingStatus::ShootArrowOrFishEating => true,
            PlayerDiggingStatus::SwapItemInHand => true,
        }
    }

    open spec fn delimited() -> bool {
        true
    }

    proof fn lemma_round_trip(v: PlayerDiggingStatus, rest: Seq<u8>) {
        reveal(<PlayerDiggingStatus as Serialize>::encode);
        reveal(<PlayerDiggingStatus as Deserialize>::decode);
        let head = <VarInt>::encode(VarInt(Self::id_of(v)));
        let body = Self::body_of(v);
        <VarInt>::lemma_round_trip(VarInt(Self::id_of(v)), body + rest);
        Self::lemma_body_round_trip(v, rest);
        lemma_concat_assoc(head, body, rest);
        lemma_skip_concat(head, body + rest);
    }
}

impl PlayerDiggingStatus {
    /// What follows the number, written out and followed by anything, reads
    /// back under that number.
    pub proof fn lemma_body_round_trip(v: PlayerDiggingStatus, rest: Seq<u8>)
        requires
            <Self as ProtocolType>::faithful(v),
            <Self as ProtocolType>::delimited() || rest.len() == 0,
        ensures
            Self::body_writable(v),
            Self::decode_with_id(Self::id_of(v), Self::body_of(v) + rest) == Ok::<_, DecodeFailure>(
                (v, Self::body_of(v).len()),
            ),
    {
        match v {
            PlayerDiggingStatus::Started => {
                assert(Seq::<u8>::empty() + rest =~= rest);
            },
            PlayerDiggingStatus::Cancelled => {
                assert(Seq::<u8>::empty() + rest =~= rest);
            },
            PlayerDiggingStatus::Finished => {
                assert(Seq::<u8>::empty() + rest =~= rest);
            },
            PlayerDiggingStatus::DropStack => {
                assert(Seq::<u8>::empty() + rest =~= rest);
            },
            PlayerDiggingStatus::DropItem => {
                assert(Seq::<u8>::empty() + rest =~= rest);
            },
            PlayerDiggingStatus::ShootArrowOrFishEating => {
                assert(Seq::<u8>::empty() + rest =~= rest);
            },
            PlayerDiggingStatus::SwapItemInHand => {
                assert(Seq::<u8>::empty() + rest =~= rest);
            },
        }
    }
}

/// The face of a block that is hit.
#[derive(PartialEq, Eq, Structural, Clone, Copy, Debug)]
pub enum DiggingFace {
    Bottom,
    Top,
    North,
    South,
    West,
    East,
}

impl View for DiggingFace {
    type V = DiggingFace;

    open spec fn view(&self) -> DiggingFace {
        *self
    }
}

impl DeepView for DiggingFace {
    type V = DiggingFace;

    open spec fn deep_view(&self) -> DiggingFace {
        *self
    }
}

impl DiggingFace {
    pub fn variant_count() -> (r: usize)
        ensures
            r == 6,
    {
        6
    }

    /// The number that stands for the variant on the wire.
    pub open spec fn id_of(v: DiggingFace) -> u8 {
        match v {
            DiggingFace::Bottom => 0x00,
            DiggingFace::Top => 0x01,
            DiggingFace::North => 0x02,
            DiggingFace::South => 0x03,
            DiggingFace::West => 0x04,
            DiggingFace::East => 0x05,
        }
    }

    pub fn id(&self) -> (r: u8)
        ensures
            r == Self::id_of(self.deep_view()),
    {
        match self {
            DiggingFace::Bottom => 0x00,
            DiggingFace::Top => 0x01,
            DiggingFace::North => 0x02,
            DiggingFace::South => 0x03,
            DiggingFace::West => 0x04,
            DiggingFace::East => 0x05,
        }
    }

    pub open spec fn name_of(v: DiggingFace) -> Seq<char> {
        match v {
            DiggingFace::Bottom => "Bottom"@,
            DiggingFace::Top => "Top"@,
            DiggingFace::North => "North"@,
            DiggingFace::South => "South"@,
            DiggingFace::West => "West"@,
            DiggingFace::East => "East"@,
        }
    }

    pub fn name(&self) -> (r: &'static str)
        ensures
            r@ == Self::name_of(self.deep_view()),
    {
        match self {
            DiggingFace::Bottom => "Bottom",
            DiggingFace::Top => "Top",
            DiggingFace::North => "North",
            DiggingFace::South => "South",
            DiggingFace::West => "West",
            DiggingFace::East => "East",
        }
    }

    /// The bytes that follow the number.
    pub open spec fn body_of(v: DiggingFace) -> Seq<u8> {
        match v {
            DiggingFace::Bottom => Seq::empty(),
            DiggingFace::Top => Seq::empty(),
            DiggingFace::North => Seq::empty(),
            DiggingFace::South => Seq::empty(),
            DiggingFace::West => Seq::empty(),
            DiggingFace::East => Seq::empty(),
        }
    }

    /// Whether what follows the number can be written.
    pub open spec fn body_writable(v: DiggingFace) -> bool {
        match v {
            DiggingFace::Bottom => true,
            DiggingFace::Top => true,
            DiggingFace::North => true,
            DiggingFace::South => true,
            DiggingFace::West => true,
            DiggingFace::East => true,
        }
    }

    /// The variant that `id` stands for, with its body read from `data`.
    pub open spec fn decode_with_id(id: u8, data: Seq<u8>) -> Decoded<DiggingFace> {
        if id == 0x00 {
            Ok((DiggingFace::Bottom, 0))
        } else if id == 0x01 {
            Ok((DiggingFace::Top, 0))
        } else if id == 0x02 {
            Ok((DiggingFace::North, 0))
        } else if id == 0x03 {
            Ok((DiggingFace::South, 0))
        } else if id == 0x04 {
            Ok((DiggingFace::West, 0))
        } else if id == 0x05 {
            Ok((DiggingFace::East, 0))
        } else {
            Err(DecodeFailure::CannotUnderstandValue)
        }
    }

    /// Whether `id` stands for a variant.
    pub open spec fn has_id(id: u8) -> bool {
        id == 0x00
            || id == 0x01
            || id == 0x02
            || id == 0x03
            || id == 0x04
            || id == 0x05
    }

    /// Picks the variant for `id` and reads its body from `data`. A number
    /// that stands for no variant is refused, and the error says which.
    pub fn deserialize_with_id<'a>(id: u8, data: &'a [u8]) -> (r: DeserializeResult<'a, Self>)
        ensures
            agrees(r, data@, Self::decode_with_id(id, data@)),
            !Self::has_id(id) ==> (r matches Err(DeserializeErr::CannotUnderstandValue(m))
                && m@ == invalid_message("DiggingFace"@, id as nat)),
    {
        proof {
            assert(data@.skip(0) =~= data@);
        }
        match id {
            0x00 => Ok(Deserialized { value: DiggingFace::Bottom, data }),
            0x01 => Ok(Deserialized { value: DiggingFace::Top, data }),
            0x02 => Ok(Deserialized { value: DiggingFace::North, data }),
            0x03 => Ok(Deserialized { value: DiggingFace::South, data }),
            0x04 => Ok(Deserialized { value: DiggingFace::West, data }),
            0x05 => Ok(Deserialized { value: DiggingFace::East, data }),
            other => Err(DeserializeErr::CannotUnderstandValue(invalid_value_message("DiggingFace", other as u64))),
        }
    }

    /// Writes what follows the number.
    pub fn serialize_body<S: Serializer>(&self, to: &mut S) -> (r: SerializeResult)
        ensures
            r is Ok ==> Self::body_writable(self.deep_view()) && final(to).written() == old(
                to,
            ).written() + Self::body_of(self.deep_view()),
            old(to).infallible() ==> final(to).infallible(),
            old(to).infallible() ==> (r is Ok <==> Self::body_writable(self.deep_view())),
            old(to).infallible() && r is Err ==> (r matches Err(SerializeErr::CannotSerialize(_))),
    {
        match self {
            DiggingFace::Bottom => {
                proof {
                    assert(old(to).written() + Seq::<u8>::empty() =~= old(to).written());
                }
                Ok(())
            },
            DiggingFace::Top => {
                proof {
                    assert(old(to).written() + Seq::<u8>::empty() =~= old(to).written());
                }
                Ok(())
            },
            DiggingFace::North => {
                proof {
                    assert(old(to).written() + Seq::<u8>::empty() =~= old(to).written());
                }
                Ok(())
            },
            DiggingFace::South => {
                proof {
                    assert(old(to).written() + Seq::<u8>::empty() =~= old(to).written());
                }
                Ok(())
            },
            DiggingFace::West => {
                proof {
                    assert(old(to).written() + Seq::<u8>::empty() =~= old(to).written());
                }
                Ok(())
            },
            DiggingFace::East => {
                proof {
                    assert(old(to).written() + Seq::<u8>::empty() =~= old(to).written());
                }
                Ok(())
            },
        }
    }
}

impl Serialize for DiggingFace {
    open spec fn serializable(v: DiggingFace) -> bool {
        Self::body_writable(v)
    }

    #[verifier::opaque]
    open spec fn encode(v: DiggingFace) -> Seq<u8> {
        <u8>::encode(Self::id_of(v)) + Self::body_of(v)
    }

    fn mc_serialize<S: Serializer>(&self, to: &mut S) -> (r: SerializeResult) {
        proof {
            reveal(<DiggingFace as Serialize>::encode);
        }
        let id_to_serialize: u8 = self.id();
        id_to_serialize.mc_serialize(to)?;
        let r = self.serialize_body(to);
        proof {
            let head = <u8>::encode(Self::id_of(self.deep_view()));
            let body = Self::body_of(self.deep_view());
            lemma_concat_assoc(old(to).written(), head, body);
        }
        r
    }
}

impl Deserialize for DiggingFace {
    #[verifier::opaque]
    open spec fn decode(data: Seq<u8>) -> Decoded<DiggingFace> {
        match <u8>::decode(data) {
            Err(e) => Err(e),
            Ok((id, n)) => match Self::decode_with_id(id, data.skip(n as int)) {
                Ok((v, m)) => Ok((v, n + m)),
                Err(e) => Err(e),
            },
        }
    }

    fn mc_deserialize(data: &[u8]) -> (r: DeserializeResult<'_, DiggingFace>) {
        proof {
            reveal(<DiggingFace as Deserialize>::decode);
        }
        let Deserialized { value: id, data: rest } = <u8>::mc_deserialize(data)?;
        let Deserialized { value, data: after } = Self::deserialize_with_id(id, rest)?;
        proof {
            lemma_skip_skip(data@, data@.len() - rest@.len(), rest@.len() - after@.len());
        }
        Ok(Deserialized { value, data: after })
    }
}

impl ProtocolType for DiggingFace {
    open spec fn faithful(v: DiggingFace) -> bool {
        match v {
            DiggingFace::Bottom => true,
            DiggingFace::Top => true,
            DiggingFace::North => true,
            DiggingFace::South => true,
            DiggingFace::West => true,
            DiggingFace::East => true,
        }
    }

    open spec fn delimited() -> bool {
        true
    }

    proof fn lemma_round_trip(v: DiggingFace, rest: Seq<u8>) {
        reveal(<DiggingFace as Serialize>::encode);
        reveal(<DiggingFace as Deserialize>::decode);
        let head = <u8>::encode(Self::id_of(v));
        let body = Self::body_of(v);
        <u8>::lemma_round_trip(Self::id_of(v), body + rest);
        Self::lemma_body_round_trip(v, rest);
        lemma_concat_assoc(head, body, rest);
        lemma_skip_concat(head, body + rest);
    }
}

impl DiggingFace {
    /// What follows the number, written out and followed by anything, reads
    /// back under that number.
    pub proof fn lemma_body_round_trip(v: DiggingFace, rest: Seq<u8>)
        requires
            <Self as ProtocolType>::faithful(v),
            <Self as ProtocolType>::delimited() || rest.len() == 0,
        ensures
            Self::body_writable(v),
            Self::decode_with_id(Self::id_of(v), Self::body_of(v) + rest) == Ok::<_, DecodeFailure>(
                (v, Self::body_of(v).len()),
            ),
    {
        match v {
            DiggingFace::Bottom => {
                assert(Seq::<u8>::empty() + rest =~= rest);
            },
            DiggingFace::Top => {
                assert(Seq::<u8>::empty() + rest =~= rest);
            },
            DiggingFace::North => {
                assert(Seq::<u8>::empty() + rest =~= rest);
            },
            DiggingFace::South => {
                assert(Seq::<u8>::empty() + rest =~= rest);
            },
            DiggingFace::West => {
                assert(Seq::<u8>::empty() + rest =~= rest);
            },
            DiggingFace::East => {
                assert(Seq::<u8>::empty() + rest =~= rest);
            },
        }
    }
}

/// Something a player starts or stops doing.
#[derive(PartialEq, Eq, Structural, Clone, Copy, Debug)]
pub enum EntityActionKind {
    StartSneaking,
    StopSneaking,
    LeaveBed,
    StartSprinting,
    StopSprinting,
    StartJumpWithHorse,
    StopJumpWithHorse,
    OpenHorseInventory,
    StartFlyingWithElytra,
}

impl View for EntityActionKind {
    type V = EntityActionKind;

    open spec fn view(&self) -> EntityActionKind {
        *self
    }
}

impl DeepView for EntityActionKind {
    type V = EntityActionKind;

    open spec fn deep_view(&self) -> EntityActionKind {
        *self
    }
}

impl EntityActionKind {
    pub fn variant_count() -> (r: usize)
        ensures
            r == 9,
    {
        9
    }

    /// The number that stands for the variant on the wire.
    pub open spec fn id_of(v: EntityActionKind) -> i32 {
        match v {
            EntityActionKind::StartSneaking => 0x00,
            EntityActionKind::StopSneaking => 0x01,
            EntityActionKind::LeaveBed => 0x02,
            EntityActionKind::StartSprinting => 0x03,
            EntityActionKind::StopSprinting => 0x04,
            EntityActionKind::StartJumpWithHorse => 0x05,
            EntityActionKind::StopJumpWithHorse => 0x06,
            EntityActionKind::OpenHorseInventory => 0x07,
            EntityActionKind::StartFlyingWithElytra => 0x08,
        }
    }

    pub fn id(&self) -> (r: VarInt)
        ensures
            r == VarInt(Self::id_of(self.deep_view())),
    {
        match self {
            EntityActionKind::StartSneaking => VarInt(0x00),
            EntityActionKind::StopSneaking => VarInt(0x01),
            EntityActionKind::LeaveBed => VarInt(0x02),
            EntityActionKind::StartSprinting => VarInt(0x03),
            EntityActionKind::StopSprinting => VarInt(0x04),
            EntityActionKind::StartJumpWithHorse => VarInt(0x05),
            EntityActionKind::StopJumpWithHorse => VarInt(0x06),
            EntityActionKind::OpenHorseInventory => VarInt(0x07),
            EntityActionKind::StartFlyingWithElytra => VarInt(0x08),
        }
    }

    pub open spec fn name_of(v: EntityActionKind) -> Seq<char> {
        match v {
            EntityActionKind::StartSneaking => "StartSneaking"@,
            EntityActionKind::StopSneaking => "StopSneaking"@,
            EntityActionKind::LeaveBed => "LeaveBed"@,
            EntityActionKind::StartSprinting => "StartSprinting"@,
            EntityActionKind::StopSprinting => "StopSprinting"@,
            EntityActionKind::StartJumpWithHorse => "StartJumpWithHorse"@,
            EntityActionKind::StopJumpWithHorse => "StopJumpWithHorse"@,
            EntityActionKind::OpenHorseInventory => "OpenHorseInventory"@,
            EntityActionKind::StartFlyingWithElytra => "StartFlyingWithElytra"@,
        }
    }

    pub fn name(&self) -> (r: &'static str)
        ensures
            r@ == Self::name_of(self.deep_view()),
    {
        match self {
            EntityActionKind::StartSneaking => "StartSneaking",
            EntityActionKind::StopSneaking => "StopSneaking",
            EntityActionKind::LeaveBed => "LeaveBed",
            EntityActionKind::StartSprinting => "StartSprinting",
            EntityActionKind::StopSprinting => "StopSprinting",
            EntityActionKind::StartJumpWithHorse => "StartJumpWithHorse",
            EntityActionKind::StopJumpWithHorse => "StopJumpWithHorse",
            EntityActionKind::OpenHorseInventory => "OpenHorseInventory",
            EntityActionKind::StartFlyingWithElytra => "StartFlyingWithElytra",
        }
    }

    /// The bytes that follow the number.
    pub open spec fn body_of(v: EntityActionKind) -> Seq<u8> {
        match v {
            EntityActionKind::StartSneaking => Seq::empty(),
            EntityActionKind::StopSneaking => Seq::empty(),
            EntityActionKind::LeaveBed => Seq::empty(),
            EntityActionKind::StartSprinting => Seq::empty(),
            EntityActionKind::StopSprinting => Seq::empty(),
            EntityActionKind::StartJumpWithHorse => Seq::empty(),
            EntityActionKind::StopJumpWithHorse => Seq::empty(),
            EntityActionKind::OpenHorseInventory => Seq::empty(),
            EntityActionKind::StartFlyingWithElytra => Seq::empty(),
        }
    }

    /// Whether what follows the number can be written.
    pub open spec fn body_writable(v: EntityActionKind) -> bool {
        match v {
            EntityActionKind::StartSneaking => true,
            EntityActionKind::StopSneaking => true,
            EntityActionKind::LeaveBed => true,
            EntityActionKind::StartSprinting => true,
            EntityActionKind::StopSprinting => true,
            EntityActionKind::StartJumpWithHorse => true,
            EntityActionKind::StopJumpWithHorse => true,
            EntityActionKind::OpenHorseInventory => true,
            EntityActionKind::StartFlyingWithElytra => true,
        }
    }

    /// The variant that `id` stands for, with its body read from `data`.
    pub open spec fn decode_with_id(id: i32, data: Seq<u8>) -> Decoded<EntityActionKind> {
        if id == 0x00 {
            Ok((EntityActionKind::StartSneaking, 0))
        } else if id == 0x01 {
            Ok((EntityActionKind::StopSneaking, 0))
        } else if id == 0x02 {
            Ok((EntityActionKind::LeaveBed, 0))
        } else if id == 0x03 {
            Ok((EntityActionKind::StartSprinting, 0))
        } else if id == 0x04 {
            Ok((EntityActionKind::StopSprinting, 0))
        } else if id == 0x05 {
            Ok((EntityActionKind::StartJumpWithHorse, 0))
        } else if id == 0x06 {
            Ok((EntityActionKind::StopJumpWithHorse, 0))
        } else if id == 0x07 {
            Ok((EntityActionKind::OpenHorseInventory, 0))
        } else if id == 0x08 {
            Ok((EntityActionKind::StartFlyingWithElytra, 0))
        } else {
            Err(DecodeFailure::CannotUnderstandValue)
        }
    }

    /// Whether `id` stands for a variant.
    pub open spec fn has_id(id: i32) -> bool {
        id == 0x00
            || id == 0x01
            || id == 0x02
            || id == 0x03
            || id == 0x04
            || id == 0x05
            || id == 0x06
            || id == 0x07
            || id == 0x08
    }

    /// Picks the variant for `id` and reads its body from `data`. A number
    /// that stands for no variant is refused, and the error says which.
    pub fn deserialize_with_id<'a>(id: VarInt, data: &'a [u8]) -> (r: DeserializeResult<'a, Self>)
        ensures
            agrees(r, data@, Self::decode_with_id(id.0, data@)),
            !Self::has_id(id.0) ==> (r matches Err(DeserializeErr::CannotUnderstandValue(m))
                && m@ == invalid_int_text("EntityActionKind"@, id.0 as int)),
    {
        proof {
            assert(data@.skip(0) =~= data@);
        }
        match id.0 {
            0x00 => Ok(Deserialized { value: EntityActionKind::StartSneaking, data }),
            0x01 => Ok(Deserialized { value: EntityActionKind::StopSneaking, data }),
            0x02 => Ok(Deserialized { value: EntityActionKind::LeaveBed, data }),
            0x03 => Ok(Deserialized { value: EntityActionKind::StartSprinting, data }),
            0x04 => Ok(Deserialized { value: EntityActionKind::StopSprinting, data }),
            0x05 => Ok(Deserialized { value: EntityActionKind::StartJumpWithHorse, data }),
            0x06 => Ok(Deserialized { value: EntityActionKind::StopJumpWithHorse, data }),
            0x07 => Ok(Deserialized { value: EntityActionKind::OpenHorseInventory, data }),
            0x08 => Ok(Deserialized { value: EntityActionKind::StartFlyingWithElytra, data }),
            other => Err(DeserializeErr::CannotUnderstandValue(invalid_int_message("EntityActionKind", other))),
        }
    }

    /// Writes what follows the number.
    pub fn serialize_body<S: Serializer>(&self, to: &mut S) -> (r: SerializeResult)
        ensures
            r is Ok ==> Self::body_writable(self.deep_view()) && final(to).written() == old(
                to,
            ).written() + Self::body_of(self.deep_view()),
            old(to).infallible() ==> final(to).infallible(),
            old(to).infallible() ==> (r is Ok <==> Self::body_writable(self.deep_view())),
            old(to).infallible() && r is Err ==> (r matches Err(SerializeErr::CannotSerialize(_))),
    {
        match self {
            EntityActionKind::StartSneaking => {
                proof {
                    assert(old(to).written() + Seq::<u8>::empty() =~= old(to).written());
                }
                Ok(())
            },
            EntityActionKind::StopSneaking => {
                proof {
                    assert(old(to).written() + Seq::<u8>::empty() =~= old(to).written());
                }
                Ok(())
            },
            EntityActionKind::LeaveBed => {
                proof {
                    assert(old(to).written() + Seq::<u8>::empty() =~= old(to).written());
                }
                Ok(())
            },
            EntityActionKind::StartSprinting => {
                proof {
                    assert(old(to).written() + Seq::<u8>::empty() =~= old(to).written());
                }
                Ok(())
            },
            EntityActionKind::StopSprinting => {
                proof {
                    assert(old(to).written() + Seq::<u8>::empty() =~= old(to).written());
                }
                Ok(())
            },
            EntityActionKind::StartJumpWithHorse => {
                proof {
                    assert(old(to).written() + Seq::<u8>::empty() =~= old(to).written());
                }
                Ok(())
            },
            EntityActionKind::StopJumpWithHorse => {
                proof {
                    assert(old(to).written() + Seq::<u8>::empty() =~= old(to).written());
                }
                Ok(())
            },
            EntityActionKind::OpenHorseInventory => {
                proof {
                    assert(old(to).written() + Seq::<u8>::empty() =~= old(to).written());
                }
                Ok(())
            },
            EntityActionKind::StartFlyingWithElytra => {
                proof {
                    assert(old(to).written() + Seq::<u8>::empty() =~= old(to).written());
                }
                Ok(())
            },
        }
    }
}

impl Serialize for EntityActionKind {
    open spec fn serializable(v: EntityActionKind) -> bool {
        Self::body_writable(v)
    }

    #[verifier::opaque]
    open spec fn encode(v: EntityActionKind) -> Seq<u8> {
        <VarInt>::encode(VarInt(Self::id_of(v))) + Self::body_of(v)
    }

    fn mc_serialize<S: Serializer>(&self, to: &mut S) -> (r: SerializeResult) {
        proof {
            reveal(<EntityActionKind as Serialize>::encode);
        }
        let id_to_serialize: VarInt = self.id();
        id_to_serialize.mc_serialize(to)?;
        let r = self.serialize_body(to);
        proof {
            let head = <VarInt>::encode(VarInt(Self::id_of(self.deep_view())));
            let body = Self::body_of(self.deep_view());
            lemma_concat_assoc(old(to).written(), head, body);
        }
        r
    }
}

impl Deserialize for EntityActionKind {
    #[verifier::opaque]
    open spec fn decode(data: Seq<u8>) -> Decoded<EntityActionKind> {
        match <VarInt>::decode(data) {
            Err(e) => Err(e),
            Ok((id, n)) => match Self::decode_with_id(id.0, data.skip(n as int)) {
                Ok((v, m)) => Ok((v, n + m)),
                Err(e) => Err(e),
            },
        }
    }

    fn mc_deserialize(data: &[u8]) -> (r: DeserializeResult<'_, EntityActionKind>) {
        proof {
            reveal(<EntityActionKind as Deserialize>::decode);
        }
        let Deserialized { value: id, data: rest } = <VarInt>::mc_deserialize(data)?;
        let Deserialized { value, data: after } = Self::deserialize_with_id(id, rest)?;
        proof {
            lemma_skip_skip(data@, data@.len() - rest@.len(), rest@.len() - after@.len());
        }
        Ok(Deserialized { value, data: after })
    }
}

impl ProtocolType for EntityActionKind {
    open spec fn faithful(v: EntityActionKind) -> bool {
        match v {
            EntityActionKind::StartSneaking => true,
            EntityActionKind::StopSneaking => true,
            EntityActionKind::LeaveBed => true,
            EntityActionKind::StartSprinting => true,
            EntityActionKind::StopSprinting => true,
            EntityActionKind::StartJumpWithHorse => true,
            EntityActionKind::StopJumpWithHorse => true,
            EntityActionKind::OpenHorseInventory => true,
            EntityActionKind::StartFlyingWithElytra => true,
        }
    }

    open spec fn delimited() -> bool {
        true
    }

    proof fn lemma_round_trip(v: EntityActionKind, rest: Seq<u8>) {
        reveal(<EntityActionKind as Serialize>::encode);
        reveal(<EntityActionKind as Deserialize>::decode);
        let head = <VarInt>::encode(VarInt(Self::id_of(v)));
        let body = Self::body_of(v);
        <VarInt>::lemma_round_trip(VarInt(Self::id_of(v)), body + rest);
        Self::lemma_body_round_trip(v, rest);
        lemma_concat_assoc(head, body, rest);
        lemma_skip_concat(head, body + rest);
    }
}

impl EntityActionKind {
    /// What follows the number, written out and followed by anything, reads
    /// back under that number.
    pub proof fn lemma_body_round_trip(v: EntityActionKind, rest: Seq<u8>)
        requires
            <Self as ProtocolType>::faithful(v),
            <Self as ProtocolType>::delimited() || rest.len() == 0,
        ensures
            Self::body_writable(v),
            Self::decode_with_id(Self::id_of(v), Self::body_of(v) + rest) == Ok::<_, DecodeFailure>(
                (v, Self::body_of(v).len()),
            ),
    {
        match v {
            EntityActionKind::StartSneaking => {
                assert(Seq::<u8>::empty() + rest =~= rest);
            },
            EntityActionKind::StopSneaking => {
                assert(Seq::<u8>::empty() + rest =~= rest);
            },
            EntityActionKind::LeaveBed => {
                assert(Seq::<u8>::empty() + rest =~= rest);
            },
            EntityActionKind::StartSprinting => {
                assert(Seq::<u8>::empty() + rest =~= rest);
            },
            EntityActionKind::StopSprinting => {
                assert(Seq::<u8>::empty() + rest =~= rest);
            },
            EntityActionKind::StartJumpWithHorse => {
                assert(Seq::<u8>::empty() + rest =~= rest);
            },
            EntityActionKind::StopJumpWithHorse => {
                assert(Seq::<u8>::empty() + rest =~= rest);
            },
            EntityActionKind::OpenHorseInventory => {
                assert(Seq::<u8>::empty() + rest =~= rest);
            },
            EntityActionKind::StartFlyingWithElytra => {
                assert(Seq::<u8>::empty() + rest =~= rest);
            },
        }
    }
}

/// What a rider does besides steering, one bit for each.
#[derive(Clone, Copy, PartialEq, Eq, Debug, Default)]
pub struct SteerVehicleFlags(pub u8);

impl View for SteerVehicleFlags {
    type V = SteerVehicleFlags;

    open spec fn view(&self) -> SteerVehicleFlags {
        *self
    }
}

impl DeepView for SteerVehicleFlags {
    type V = SteerVehicleFlags;

    open spec fn deep_view(&self) -> SteerVehicleFlags {
        *self
    }
}

impl SteerVehicleFlags {
    /// Whether the bit for `jump` is set.
    pub fn is_jump(&self) -> (r: bool)
        ensures
            r == flag_is_set(self.0, 0x01),
    {
        proof {
            lemma_flag(self.0, 0x01);
        }
        self.0 & 0x01 != 0
    }

    /// Sets the flag where `value` is true. Where it is false the flag is
    /// turned over: a flag that is set is cleared, and one that is clear is
    /// set.
    pub fn set_jump(&mut self, value: bool)
        ensures
            final(self).0 == if value {
                with_flag(old(self).0, 0x01)
            } else if flag_is_set(old(self).0, 0x01) {
                without_flag(old(self).0, 0x01)
            } else {
                with_flag(old(self).0, 0x01)
            },
    {
        proof {
            lemma_flag(self.0, 0x01);
        }
        if value {
            self.0 |= 0x01;
        } else {
            self.0 ^= 0x01;
        }
    }

    /// Whether the bit for `unmount` is set.
    pub fn is_unmount(&self) -> (r: bool)
        ensures
            r == flag_is_set(self.0, 0x02),
    {
        proof {
            lemma_flag(self.0, 0x02);
        }
        self.0 & 0x02 != 0
    }

    /// Sets the flag where `value` is true. Where it is false the flag is
    /// turned over: a flag that is set is cleared, and one that is clear is
    /// set.
    pub fn set_unmount(&mut self, value: bool)
        ensures
            final(self).0 == if value {
                with_flag(old(self).0, 0x02)
            } else if flag_is_set(old(self).0, 0x02) {
                without_flag(old(self).0, 0x02)
            } else {
                with_flag(old(self).0, 0x02)
            },
    {
        proof {
            lemma_flag(self.0, 0x02);
        }
        if value {
            self.0 |= 0x02;
        } else {
            self.0 ^= 0x02;
        }
    }

}

impl Serialize for SteerVehicleFlags {
    open spec fn serializable(v: SteerVehicleFlags) -> bool {
        true
    }

    #[verifier::opaque]
    open spec fn encode(v: SteerVehicleFlags) -> Seq<u8> {
        seq![v.0]
    }

    fn mc_serialize<S: Serializer>(&self, to: &mut S) -> (r: SerializeResult) {
        proof {
            reveal(<SteerVehicleFlags as Serialize>::encode);
        }
        let r = to.serialize_byte(self.0);
        proof {
            assert(old(to).written().push(self.0) =~= old(to).written() + seq![self.0]);
        }
        r
    }
}

impl Deserialize for SteerVehicleFlags {
    #[verifier::opaque]
    open spec fn decode(data: Seq<u8>) -> Decoded<SteerVehicleFlags> {
        if data.len() < 1 {
            Err(DecodeFailure::Eof)
        } else {
            Ok((SteerVehicleFlags(data[0]), 1))
        }
    }

    fn mc_deserialize(data: &[u8]) -> (r: DeserializeResult<'_, SteerVehicleFlags>) {
        proof {
            reveal(<SteerVehicleFlags as Deserialize>::decode);
        }
        proof {
            reveal(<u8 as Deserialize>::decode);
        }
        let Deserialized { value: b, data: rest } = u8::mc_deserialize(data)?;
        Ok(Deserialized { value: SteerVehicleFlags(b), data: rest })
    }
}

impl ProtocolType for SteerVehicleFlags {
    open spec fn faithful(v: SteerVehicleFlags) -> bool {
        true
    }

    open spec fn delimited() -> bool {
        true
    }

    proof fn lemma_round_trip(v: SteerVehicleFlags, rest: Seq<u8>) {
        reveal(<SteerVehicleFlags as Serialize>::encode);
        reveal(<SteerVehicleFlags as Deserialize>::decode);
    }
}

/// One of the recipe books.
#[derive(PartialEq, Eq, Structural, Clone, Copy, Debug)]
pub enum RecipeBookType {
    Crafting,
    Furnace,
    BlastFurnace,
    Smoker,
}

impl View for RecipeBookType {
    type V = RecipeBookType;

    open spec fn view(&self) -> RecipeBookType {
        *self
    }
}

impl DeepView for RecipeBookType {
    type V = RecipeBookType;

    open spec fn deep_view(&self) -> RecipeBookType {
        *self
    }
}

impl RecipeBookType {
    pub fn variant_count() -> (r: usize)
        ensures
            r == 4,
    {
        4
    }

    /// The number that stands for the variant on the wire.
    pub open spec fn id_of(v: RecipeBookType) -> i32 {
        match v {
            RecipeBookType::Crafting => 0x00,
            RecipeBookType::Furnace => 0x01,
            RecipeBookType::BlastFurnace => 0x02,
            RecipeBookType::Smoker => 0x03,
        }
    }

    pub fn id(&self) -> (r: VarInt)
        ensures
            r == VarInt(Self::id_of(self.deep_view())),
    {
        match self {
            RecipeBookType::Crafting => VarInt(0x00),
            RecipeBookType::Furnace => VarInt(0x01),
            RecipeBookType::BlastFurnace => VarInt(0x02),
            RecipeBookType::Smoker => VarInt(0x03),
        }
    }

    pub open spec fn name_of(v: RecipeBookType) -> Seq<char> {
        match v {
            RecipeBookType::Crafting => "Crafting"@,
            RecipeBookType::Furnace => "Furnace"@,
            RecipeBookType::BlastFurnace => "BlastFurnace"@,
            RecipeBookType::Smoker => "Smoker"@,
        }
    }

    pub fn name(&self) -> (r: &'static str)
        ensures
            r@ == Self::name_of(self.deep_view()),
    {
        match self {
            RecipeBookType::Crafting => "Crafting",
            RecipeBookType::Furnace => "Furnace",
            RecipeBookType::BlastFurnace => "BlastFurnace",
            RecipeBookType::Smoker => "Smoker",
        }
    }

    /// The bytes that follow the number.
    pub open spec fn body_of(v: RecipeBookType) -> Seq<u8> {
        match v {
            RecipeBookType::Crafting => Seq::empty(),
            RecipeBookType::Furnace => Seq::empty(),
            RecipeBookType::BlastFurnace => Seq::empty(),
            RecipeBookType::Smoker => Seq::empty(),
        }
    }

    /// Whether what follows the number can be written.
    pub open spec fn body_writable(v: RecipeBookType) -> bool {
        match v {
            RecipeBookType::Crafting => true,
            RecipeBookType::Furnace => true,
            RecipeBookType::BlastFurnace => true,
            RecipeBookType::Smoker => true,
        }
    }

    /// The variant that `id` stands for, with its body read from `data`.
    pub open spec fn decode_with_id(id: i32, data: Seq<u8>) -> Decoded<RecipeBookType> {
        if id == 0x00 {
            Ok((RecipeBookType::Crafting, 0))
        } else if id == 0x01 {
            Ok((RecipeBookType::Furnace, 0))
        } else if id == 0x02 {
            Ok((RecipeBookType::BlastFurnace, 0))
        } else if id == 0x03 {
            Ok((RecipeBookType::Smoker, 0))
        } else {
            Err(DecodeFailure::CannotUnderstandValue)
        }
    }

    /// Whether `id` stands for a variant.
    pub open spec fn has_id(id: i32) -> bool {
        id == 0x00
            || id == 0x01
            || id == 0x02
            || id == 0x03
    }

    /// Picks the variant for `id` and reads its body from `data`. A number
    /// that stands for no variant is refused, and the error says which.
    pub fn deserialize_with_id<'a>(id: VarInt, data: &'a [u8]) -> (r: DeserializeResult<'a, Self>)
        ensures
            agrees(r, data@, Self::decode_with_id(id.0, data@)),
            !Self::has_id(id.0) ==> (r matches Err(DeserializeErr::CannotUnderstandValue(m))
                && m@ == invalid_int_text("RecipeBookType"@, id.0 as int)),
    {
        proof {
            assert(data@.skip(0) =~= data@);
        }
        match id.0 {
            0x00 => Ok(Deserialized { value: RecipeBookType::Crafting, data }),
            0x01 => Ok(Deserialized { value: RecipeBookType::Furnace, data }),
            0x02 => Ok(Deserialized { value: RecipeBookType::BlastFurnace, data }),
            0x03 => Ok(Deserialized { value: RecipeBookType::Smoker, data }),
            other => Err(DeserializeErr::CannotUnderstandValue(invalid_int_message("RecipeBookType", other))),
        }
    }

    /// Writes what follows the number.
    pub fn serialize_body<S: Serializer>(&self, to: &mut S) -> (r: SerializeResult)
        ensures
            r is Ok ==> Self::body_writable(self.deep_view()) && final(to).written() == old(
                to,
            ).written() + Self::body_of(self.deep_view()),
            old(to).infallible() ==> final(to).infallible(),
            old(to).infallible() ==> (r is Ok <==> Self::body_writable(self.deep_view())),
            old(to).infallible() && r is Err ==> (r matches Err(SerializeErr::CannotSerialize(_))),
    {
        match self {
            RecipeBookType::Crafting => {
                proof {
                    assert(old(to).written() + Seq::<u8>::empty() =~= old(to).written());
                }
                Ok(())
            },
            RecipeBookType::Furnace => {
                proof {
                    assert(old(to).written() + Seq::<u8>::empty() =~= old(to).written());
                }
                Ok(())
            },
            RecipeBookType::BlastFurnace => {
                proof {
                    assert(old(to).written() + Seq::<u8>::empty() =~= old(to).written());
                }
                Ok(())
            },
            RecipeBookType::Smoker => {
                proof {
                    assert(old(to).written() + Seq::<u8>::empty() =~= old(to).written());
                }
                Ok(())
            },
        }
    }
}

impl Serialize for RecipeBookType {
    open spec fn serializable(v: RecipeBookType) -> bool {
        Self::body_writable(v)
    }

    #[verifier::opaque]
    open spec fn encode(v: RecipeBookType) -> Seq<u8> {
        <VarInt>::encode(VarInt(Self::id_of(v))) + Self::body_of(v)
    }

    fn mc_serialize<S: Serializer>(&self, to: &mut S) -> (r: SerializeResult) {
        proof {
            reveal(<RecipeBookType as Serialize>::encode);
        }
        let id_to_serialize: VarInt = self.id();
        id_to_serialize.mc_serialize(to)?;
        let r = self.serialize_body(to);
        proof {
            let head = <VarInt>::encode(VarInt(Self::id_of(self.deep_view())));
            let body = Self::body_of(self.deep_view());
            lemma_concat_assoc(old(to).written(), head, body);
        }
        r
    }
}

impl Deserialize for RecipeBookType {
    #[verifier::opaque]
    open spec fn decode(data: Seq<u8>) -> Decoded<RecipeBookType> {
        match <VarInt>::decode(data) {
            Err(e) => Err(e),
            Ok((id, n)) => match Self::decode_with_id(id.0, data.skip(n as int)) {
                Ok((v, m)) => Ok((v, n + m)),
                Err(e) => Err(e),
            },
        }
    }

    fn mc_deserialize(data: &[u8]) -> (r: DeserializeResult<'_, RecipeBookType>) {
        proof {
            reveal(<RecipeBookType as Deserialize>::decode);
        }
        let Deserialized { value: id, data: rest } = <VarInt>::mc_deserialize(data)?;
        let Deserialized { value, data: after } = Self::deserialize_with_id(id, rest)?;
        proof {
            lemma_skip_skip(data@, data@.len() - rest@.len(), rest@.len() - after@.len());
        }
        Ok(Deserialized { value, data: after })
    }
}

impl ProtocolType for RecipeBookType {
    open spec fn faithful(v: RecipeBookType) -> bool {
        match v {
            RecipeBookType::Crafting => true,
            RecipeBookType::Furnace => true,
            RecipeBookType::BlastFurnace => true,
            RecipeBookType::Smoker => true,
        }
    }

    open spec fn delimited() -> bool {
        true
    }

    proof fn lemma_round_trip(v: RecipeBookType, rest: Seq<u8>) {
        reveal(<RecipeBookType as Serialize>::encode);
        reveal(<RecipeBookType as Deserialize>::decode);
        let head = <VarInt>::encode(VarInt(Self::id_of(v)));
        let body = Self::body_of(v);
        <VarInt>::lemma_round_trip(VarInt(Self::id_of(v)), body + rest);
        Self::lemma_body_round_trip(v, rest);
        lemma_concat_assoc(head, body, rest);
        lemma_skip_concat(head, body + rest);
    }
}

impl RecipeBookType {
    /// What follows the number, written out and followed by anything, reads
    /// back under that number.
    pub proof fn lemma_body_round_trip(v: RecipeBookType, rest: Seq<u8>)
        requires
            <Self as ProtocolType>::faithful(v),
            <Self as ProtocolType>::delimited() || rest.len() == 0,
        ensures
            Self::body_writable(v),
            Self::decode_with_id(Self::id_of(v), Self::body_of(v) + rest) == Ok::<_, DecodeFailure>(
                (v, Self::body_of(v).len()),
            ),
    {
        match v {
            RecipeBookType::Crafting => {
                assert(Seq::<u8>::empty() + rest =~= rest);
            },
            RecipeBookType::Furnace => {
                assert(Seq::<u8>::empty() + rest =~= rest);
            },
            RecipeBookType::BlastFurnace => {
                assert(Seq::<u8>::empty() + rest =~= rest);
            },
            RecipeBookType::Smoker => {
                assert(Seq::<u8>::empty() + rest =~= rest);
            },
        }
    }
}

/// What became of a resource pack that the server offered.
#[derive(PartialEq, Eq, Structural, Clone, Copy, Debug)]
pub enum ResourcePackStatus {
    Loaded,
    Declined,
    FailedDownload,
    Accepted,
}

impl View for ResourcePackStatus {
    type V = ResourcePackStatus;

    open spec fn view(&self) -> ResourcePackStatus {
        *self
    }
}

impl DeepView for ResourcePackStatus {
    type V = ResourcePackStatus;

    open spec fn deep_view(&self) -> ResourcePackStatus {
        *self
    }
}

impl ResourcePackStatus {
    pub fn variant_count() -> (r: usize)
        ensures
            r == 4,
    {
        4
    }

    /// The number that stands for the variant on the wire.
    pub open spec fn id_of(v: ResourcePackStatus) -> i32 {
        match v {
            ResourcePackStatus::Loaded => 0x00,
            ResourcePackStatus::Declined => 0x01,
            ResourcePackStatus::FailedDownload => 0x02,
            ResourcePackStatus::Accepted => 0x03,
        }
    }

    pub fn id(&self) -> (r: VarInt)
        ensures
            r == VarInt(Self::id_of(self.deep_view())),
    {
        match self {
            ResourcePackStatus::Loaded => VarInt(0x00),
            ResourcePackStatus::Declined => VarInt(0x01),
            ResourcePackStatus::FailedDownload => VarInt(0x02),
            ResourcePackStatus::Accepted => VarInt(0x03),
        }
    }

    pub open spec fn name_of(v: ResourcePackStatus) -> Seq<char> {
        match v {
            ResourcePackStatus::Loaded => "Loaded"@,
            ResourcePackStatus::Declined => "Declined"@,
            ResourcePackStatus::FailedDownload => "FailedDownload"@,
            ResourcePackStatus::Accepted => "Accepted"@,
        }
    }

    pub fn name(&self) -> (r: &'static str)
        ensures
            r@ == Self::name_of(self.deep_view()),
    {
        match self {
            ResourcePackStatus::Loaded => "Loaded",
            ResourcePackStatus::Declined => "Declined",
            ResourcePackStatus::FailedDownload => "FailedDownload",
            ResourcePackStatus::Accepted => "Accepted",
        }
    }

    /// The bytes that follow the number.
    pub open spec fn body_of(v: ResourcePackStatus) -> Seq<u8> {
        match v {
            ResourcePackStatus::Loaded => Seq::empty(),
            ResourcePackStatus::Declined => Seq::empty(),
            ResourcePackStatus::FailedDownload => Seq::empty(),
            ResourcePackStatus::Accepted => Seq::empty(),
        }
    }

    /// Whether what follows the number can be written.
    pub open spec fn body_writable(v: ResourcePackStatus) -> bool {
        match v {
            ResourcePackStatus::Loaded => true,
            ResourcePackStatus::Declined => true,
            ResourcePackStatus::FailedDownload => true,
            ResourcePackStatus::Accepted => true,
        }
    }

    /// The variant that `id` stands for, with its body read from `data`.
    pub open spec fn decode_with_id(id: i32, data: Seq<u8>) -> Decoded<ResourcePackStatus> {
        if id == 0x00 {
            Ok((ResourcePackStatus::Loaded, 0))
        } else if id == 0x01 {
            Ok((ResourcePackStatus::Declined, 0))
        } else if id == 0x02 {
            Ok((ResourcePackStatus::FailedDownload, 0))
        } else if id == 0x03 {
            Ok((ResourcePackStatus::Accepted, 0))
        } else {
            Err(DecodeFailure::CannotUnderstandValue)
        }
    }

    /// Whether `id` stands for a variant.
    pub open spec fn has_id(id: i32) -> bool {
        id == 0x00
            || id == 0x01
            || id == 0x02
            || id == 0x03
    }

    /// Picks the variant for `id` and reads its body from `data`. A number
    /// that stands for no variant is refused, and the error says which.
    pub fn deserialize_with_id<'a>(id: VarInt, data: &'a [u8]) -> (r: DeserializeResult<'a, Self>)
        ensures
            agrees(r, data@, Self::decode_with_id(id.0, data@)),
            !Self::has_id(id.0) ==> (r matches Err(DeserializeErr::CannotUnderstandValue(m))
                && m@ == invalid_int_text("ResourcePackStatus"@, id.0 as int)),
    {
        proof {
            assert(data@.skip(0) =~= data@);
        }
        match id.0 {
            0x00 => Ok(Deserialized { value: ResourcePackStatus::Loaded, data }),
            0x01 => Ok(Deserialized { value: ResourcePackStatus::Declined, data }),
            0x02 => Ok(Deserialized { value: ResourcePackStatus::FailedDownload, data }),
            0x03 => Ok(Deserialized { value: ResourcePackStatus::Accepted, data }),
            other => Err(DeserializeErr::CannotUnderstandValue(invalid_int_message("ResourcePackStatus", other))),
        }
    }

    /// Writes what follows the number.
    pub fn serialize_body<S: Serializer>(&self, to: &mut S) -> (r: SerializeResult)
        ensures
            r is Ok ==> Self::body_writable(self.deep_view()) && final(to).written() == old(
                to,
            ).written() + Self::body_of(self.deep_view()),
            old(to).infallible() ==> final(to).infallible(),
            old(to).infallible() ==> (r is Ok <==> Self::body_writable(self.deep_view())),
            old(to).infallible() && r is Err ==> (r matches Err(SerializeErr::CannotSerialize(_))),
    {
        match self {
            ResourcePackStatus::Loaded => {
                proof {
                    assert(old(to).written() + Seq::<u8>::empty() =~= old(to).written());
                }
                Ok(())
            },
            ResourcePackStatus::Declined => {
                proof {
                    assert(old(to).written() + Seq::<u8>::empty() =~= old(to).written());
                }
                Ok(())
            },
            ResourcePackStatus::FailedDownload => {
                proof {
                    assert(old(to).written() + Seq::<u8>::empty() =~= old(to).written());
                }
                Ok(())
            },
            ResourcePackStatus::Accepted => {
                proof {
                    assert(old(to).written() + Seq::<u8>::empty() =~= old(to).written());
                }
                Ok(())
            },
        }
    }
}

impl Serialize for ResourcePackStatus {
    open spec fn serializable(v: ResourcePackStatus) -> bool {
        Self::body_writable(v)
    }

    #[verifier::opaque]
    open spec fn encode(v: ResourcePackStatus) -> Seq<u8> {
        <VarInt>::encode(VarInt(Self::id_of(v))) + Self::body_of(v)
    }

    fn mc_serialize<S: Serializer>(&self, to: &mut S) -> (r: SerializeResult) {
        proof {
            reveal(<ResourcePackStatus as Serialize>::encode);
        }
        let id_to_serialize: VarInt = self.id();
        id_to_serialize.mc_serialize(to)?;
        let r = self.serialize_body(to);
        proof {
            let head = <VarInt>::encode(VarInt(Self::id_of(self.deep_view())));
            let body = Self::body_of(self.deep_view());
            lemma_concat_assoc(old(to).written(), head, body);
        }
        r
    }
}

impl Deserialize for ResourcePackStatus {
    #[verifier::opaque]
    open spec fn decode(data: Seq<u8>) -> Decoded<ResourcePackStatus> {
        match <VarInt>::decode(data) {
            Err(e) => Err(e),
            Ok((id, n)) => match Self::decode_with_id(id.0, data.skip(n as int)) {
                Ok((v, m)) => Ok((v, n + m)),
                Err(e) => Err(e),
            },
        }
    }

    fn mc_deserialize(data: &[u8]) -> (r: DeserializeResult<'_, ResourcePackStatus>) {
        proof {
            reveal(<ResourcePackStatus as Deserialize>::decode);
        }
        let Deserialized { value: id, data: rest } = <VarInt>::mc_deserialize(data)?;
        let Deserialized { value, data: after } = Self::deserialize_with_id(id, rest)?;
        proof {
            lemma_skip_skip(data@, data@.len() - rest@.len(), rest@.len() - after@.len());
        }
        Ok(Deserialized { value, data: after })
    }
}

impl ProtocolType for ResourcePackStatus {
    open spec fn faithful(v: ResourcePackStatus) -> bool {
        match v {
            ResourcePackStatus::Loaded => true,
            ResourcePackStatus::Declined => true,
            ResourcePackStatus::FailedDownload => true,
            ResourcePackStatus::Accepted => true,
        }
    }

    open spec fn delimited() -> bool {
        true
    }

    proof fn lemma_round_trip(v: ResourcePackStatus, rest: Seq<u8>) {
        reveal(<ResourcePackStatus as Serialize>::encode);
        reveal(<ResourcePackStatus as Deserialize>::decode);
        let head = <VarInt>::encode(VarInt(Self::id_of(v)));
        let body = Self::body_of(v);
        <VarInt>::lemma_round_trip(VarInt(Self::id_of(v)), body + rest);
        Self::lemma_body_round_trip(v, rest);
        lemma_concat_assoc(head, body, rest);
        lemma_skip_concat(head, body + rest);
    }
}

impl ResourcePackStatus {
    /// What follows the number, written out and followed by anything, reads
    /// back under that number.
    pub proof fn lemma_body_round_trip(v: ResourcePackStatus, rest: Seq<u8>)
        requires
            <Self as ProtocolType>::faithful(v),
            <Self as ProtocolType>::delimited() || rest.len() == 0,
        ensures
            Self::body_writable(v),
            Self::decode_with_id(Self::id_of(v), Self::body_of(v) + rest) == Ok::<_, DecodeFailure>(
                (v, Self::body_of(v).len()),
            ),
    {
        match v {
            ResourcePackStatus::Loaded => {
                assert(Seq::<u8>::empty() + rest =~= rest);
            },
            ResourcePackStatus::Declined => {
                assert(Seq::<u8>::empty() + rest =~= rest);
            },
            ResourcePackStatus::FailedDownload => {
                assert(Seq::<u8>::empty() + rest =~= rest);
            },
            ResourcePackStatus::Accepted => {
                assert(Seq::<u8>::empty() + rest =~= rest);
            },
        }
    }
}

/// Whether the advancement screen was opened, and on which tab, or closed.
#[derive(PartialEq, Clone, Debug)]
pub enum AdvancementTabAction {
    Opened(String),
    Closed,
}

/// The mathematical content of a [`AdvancementTabAction`].
pub enum AdvancementTabActionView {
    Opened(<String as DeepView>::V),
    Closed,
}

impl DeepView for AdvancementTabAction {
    type V = AdvancementTabActionView;

    open spec fn deep_view(&self) -> AdvancementTabActionView {
        match self {
            AdvancementTabAction::Opened(body) => AdvancementTabActionView::Opened(body.deep_view()),
            AdvancementTabAction::Closed => AdvancementTabActionView::Closed,
        }
    }
}

impl AdvancementTabAction {
    pub fn variant_count() -> (r: usize)
        ensures
            r == 2,
    {
        2
    }

    /// The number that stands for the variant on the wire.
    pub open spec fn id_of(v: AdvancementTabActionView) -> i32 {
        match v {
            AdvancementTabActionView::Opened(_) => 0x00,
            AdvancementTabActionView::Closed => 0x01,
        }
    }

    pub fn id(&self) -> (r: VarInt)
        ensures
            r == VarInt(Self::id_of(self.deep_view())),
    {
        match self {
            AdvancementTabAction::Opened(_) => VarInt(0x00),
            AdvancementTabAction::Closed => VarInt(0x01),
        }
    }

    pub open spec fn name_of(v: AdvancementTabActionView) -> Seq<char> {
        match v {
            AdvancementTabActionView::Opened(_) => "Opened"@,
            AdvancementTabActionView::Closed => "Closed"@,
        }
    }

    pub fn name(&self) -> (r: &'static str)
        ensures
            r@ == Self::name_of(self.deep_view()),
    {
        match self {
            AdvancementTabAction::Opened(_) => "Opened",
            AdvancementTabAction::Closed => "Closed",
        }
    }

    /// The bytes that follow the number.
    pub open spec fn body_of(v: AdvancementTabActionView) -> Seq<u8> {
        match v {
            AdvancementTabActionView::Opened(body) => <String>::encode(body),
            AdvancementTabActionView::Closed => Seq::empty(),
        }
    }

    /// Whether what follows the number can be written.
    pub open spec fn body_writable(v: AdvancementTabActionView) -> bool {
        match v {
            AdvancementTabActionView::Opened(body) => <String>::serializable(body),
            AdvancementTabActionView::Closed => true,
        }
    }

    /// The variant that `id` stands for, with its body read from `data`.
    pub open spec fn decode_with_id(id: i32, data: Seq<u8>) -> Decoded<AdvancementTabActionView> {
        if id == 0x00 {
            match <String>::decode(data) {
                Ok((body, n)) => Ok((AdvancementTabActionView::Opened(body), n)),
                Err(e) => Err(e),
            }
        } else if id == 0x01 {
            Ok((AdvancementTabActionView::Closed, 0))
        } else {
            Err(DecodeFailure::CannotUnderstandValue)
        }
    }

    /// Whether `id` stands for a variant.
    pub open spec fn has_id(id: i32) -> bool {
        id == 0x00
            || id == 0x01
    }

    /// Picks the variant for `id` and reads its body from `data`. A number
    /// that stands for no variant is refused, and the error says which.
    pub fn deserialize_with_id<'a>(id: VarInt, data: &'a [u8]) -> (r: DeserializeResult<'a, Self>)
        ensures
            agrees(r, data@, Self::decode_with_id(id.0, data@)),
            !Self::has_id(id.0) ==> (r matches Err(DeserializeErr::CannotUnderstandValue(m))
                && m@ == invalid_int_text("AdvancementTabAction"@, id.0 as int)),
    {
        proof {
            assert(data@.skip(0) =~= data@);
        }
        match id.0 {
            0x00 => {
                let Deserialized { value: body, data: rest } = <String>::mc_deserialize(data)?;
                Ok(Deserialized { value: AdvancementTabAction::Opened(body), data: rest })
            },
            0x01 => Ok(Deserialized { value: AdvancementTabAction::Closed, data }),
            other => Err(DeserializeErr::CannotUnderstandValue(invalid_int_message("AdvancementTabAction", other))),
        }
    }

    /// Writes what follows the number.
    pub fn serialize_body<S: Serializer>(&self, to: &mut S) -> (r: SerializeResult)
        ensures
            r is Ok ==> Self::body_writable(self.deep_view()) && final(to).written() == old(
                to,
            ).written() + Self::body_of(self.deep_view()),
            old(to).infallible() ==> final(to).infallible(),
            old(to).infallible() ==> (r is Ok <==> Self::body_writable(self.deep_view())),
            old(to).infallible() && r is Err ==> (r matches Err(SerializeErr::CannotSerialize(_))),
    {
        match self {
            AdvancementTabAction::Opened(bod) => bod.mc_serialize(to),
            AdvancementTabAction::Closed => {
                proof {
                    assert(old(to).written() + Seq::<u8>::empty() =~= old(to).written());
                }
                Ok(())
            },
        }
    }
}

impl Serialize for AdvancementTabAction {
    open spec fn serializable(v: AdvancementTabActionView) -> bool {
        Self::body_writable(v)
    }

    #[verifier::opaque]
    open spec fn encode(v: AdvancementTabActionView) -> Seq<u8> {
        <VarInt>::encode(VarInt(Self::id_of(v))) + Self::body_of(v)
    }

    fn mc_serialize<S: Serializer>(&self, to: &mut S) -> (r: SerializeResult) {
        proof {
            reveal(<AdvancementTabAction as Serialize>::encode);
        }
        let id_to_serialize: VarInt = self.id();
        id_to_serialize.mc_serialize(to)?;
        let r = self.serialize_body(to);
        proof {
            let head = <VarInt>::encode(VarInt(Self::id_of(self.deep_view())));
            let body = Self::body_of(self.deep_view());
            lemma_concat_assoc(old(to).written(), head, body);
        }
        r
    }
}

impl Deserialize for AdvancementTabAction {
    #[verifier::opaque]
    open spec fn decode(data: Seq<u8>) -> Decoded<AdvancementTabActionView> {
        match <VarInt>::decode(data) {
            Err(e) => Err(e),
            Ok((id, n)) => match Self::decode_with_id(id.0, data.skip(n as int)) {
                Ok((v, m)) => Ok((v, n + m)),
                Err(e) => Err(e),
            },
        }
    }

    fn mc_deserialize(data: &[u8]) -> (r: DeserializeResult<'_, AdvancementTabAction>) {
        proof {
            reveal(<AdvancementTabAction as Deserialize>::decode);
        }
        let Deserialized { value: id, data: rest } = <VarInt>::mc_deserialize(data)?;
        let Deserialized { value, data: after } = Self::deserialize_with_id(id, rest)?;
        proof {
            lemma_skip_skip(data@, data@.len() - rest@.len(), rest@.len() - after@.len());
        }
        Ok(Deserialized { value, data: after })
    }
}

impl ProtocolType for AdvancementTabAction {
    open spec fn faithful(v: AdvancementTabActionView) -> bool {
        match v {
            AdvancementTabActionView::Opened(body) => <String>::faithful(body),
            AdvancementTabActionView::Closed => true,
        }
    }

    open spec fn delimited() -> bool {
        <String>::delimited()
    }

    proof fn lemma_round_trip(v: AdvancementTabActionView, rest: Seq<u8>) {
        reveal(<AdvancementTabAction as Serialize>::encode);
        reveal(<AdvancementTabAction as Deserialize>::decode);
        let head = <VarInt>::encode(VarInt(Self::id_of(v)));
        let body = Self::body_of(v);
        <VarInt>::lemma_round_trip(VarInt(Self::id_of(v)), body + rest);
        Self::lemma_body_round_trip(v, rest);
        lemma_concat_assoc(head, body, rest);
        lemma_skip_concat(head, body + rest);
    }
}

impl AdvancementTabAction {
    /// What follows the number, written out and followed by anything, reads
    /// back under that number.
    pub proof fn lemma_body_round_trip(v: AdvancementTabActionView, rest: Seq<u8>)
        requires
            <Self as ProtocolType>::faithful(v),
            <Self as ProtocolType>::delimited() || rest.len() == 0,
        ensures
            Self::body_writable(v),
            Self::decode_with_id(Self::id_of(v), Self::body_of(v) + rest) == Ok::<_, DecodeFailure>(
                (v, Self::body_of(v).len()),
            ),
    {
        match v {
            AdvancementTabActionView::Opened(body) => {
                <String>::lemma_round_trip(body, rest);
            },
            AdvancementTabActionView::Closed => {
                assert(Seq::<u8>::empty() + rest =~= rest);
            },
        }
    }
}

/// How a command block is triggered.
#[derive(PartialEq, Eq, Structural, Clone, Copy, Debug)]
pub enum CommandBlockMode {
    Sequence,
    Auto,
    Redstone,
}

impl View for CommandBlockMode {
    type V = CommandBlockMode;

    open spec fn view(&self) -> CommandBlockMode {
        *self
    }
}

impl DeepView for CommandBlockMode {
    type V = CommandBlockMode;

    open spec fn deep_view(&self) -> CommandBlockMode {
        *self
    }
}

impl CommandBlockMode {
    pub fn variant_count() -> (r: usize)
        ensures
            r == 3,
    {
        3
    }

    /// The number that stands for the variant on the wire.
    pub open spec fn id_of(v: CommandBlockMode) -> i32 {
        match v {
            CommandBlockMode::Sequence => 0x00,
            CommandBlockMode::Auto => 0x01,
            CommandBlockMode::Redstone => 0x02,
        }
    }

    pub fn id(&self) -> (r: VarInt)
        ensures
            r == VarInt(Self::id_of(self.deep_view())),
    {
        match self {
            CommandBlockMode::Sequence => VarInt(0x00),
            CommandBlockMode::Auto => VarInt(0x01),
            CommandBlockMode::Redstone => VarInt(0x02),
        }
    }

    pub open spec fn name_of(v: CommandBlockMode) -> Seq<char> {
        match v {
            CommandBlockMode::Sequence => "Sequence"@,
            CommandBlockMode::Auto => "Auto"@,
            CommandBlockMode::Redstone => "Redstone"@,
        }
    }

    pub fn name(&self) -> (r: &'static str)
        ensures
            r@ == Self::name_of(self.deep_view()),
    {
        match self {
            CommandBlockMode::Sequence => "Sequence",
            CommandBlockMode::Auto => "Auto",
            CommandBlockMode::Redstone => "Redstone",
        }
    }

    /// The bytes that follow the number.
    pub open spec fn body_of(v: CommandBlockMode) -> Seq<u8> {
        match v {
            CommandBlockMode::Sequence => Seq::empty(),
            CommandBlockMode::Auto => Seq::empty(),
            CommandBlockMode::Redstone => Seq::empty(),
        }
    }

    /// Whether what follows the number can be written.
    pub open spec fn body_writable(v: CommandBlockMode) -> bool {
        match v {
            CommandBlockMode::Sequence => true,
            CommandBlockMode::Auto => true,
            CommandBlockMode::Redstone => true,
        }
    }

    /// The variant that `id` stands for, with its body read from `data`.
    pub open spec fn decode_with_id(id: i32, data: Seq<u8>) -> Decoded<CommandBlockMode> {
        if id == 0x00 {
            Ok((CommandBlockMode::Sequence, 0))
        } else if id == 0x01 {
            Ok((CommandBlockMode::Auto, 0))
        } else if id == 0x02 {
            Ok((CommandBlockMode::Redstone, 0))
        } else {
            Err(DecodeFailure::CannotUnderstandValue)
        }
    }

    /// Whether `id` stands for a variant.
    pub open spec fn has_id(id: i32) -> bool {
        id == 0x00
            || id == 0x01
            || id == 0x02
    }

    /// Picks the variant for `id` and reads its body from `data`. A number
    /// that stands for no variant is refused, and the error says which.
    pub fn deserialize_with_id<'a>(id: VarInt, data: &'a [u8]) -> (r: DeserializeResult<'a, Self>)
        ensures
            agrees(r, data@, Self::decode_with_id(id.0, data@)),
            !Self::has_id(id.0) ==> (r matches Err(DeserializeErr::CannotUnderstandValue(m))
                && m@ == invalid_int_text("CommandBlockMode"@, id.0 as int)),
    {
        proof {
            assert(data@.skip(0) =~= data@);
        }
        match id.0 {
            0x00 => Ok(Deserialized { value: CommandBlockMode::Sequence, data }),
            0x01 => Ok(Deserialized { value: CommandBlockMode::Auto, data }),
            0x02 => Ok(Deserialized { value: CommandBlockMode::Redstone, data }),
            other => Err(DeserializeErr::CannotUnderstandValue(invalid_int_message("CommandBlockMode", other))),
        }
    }

    /// Writes what follows the number.
    pub fn serialize_body<S: Serializer>(&self, to: &mut S) -> (r: SerializeResult)
        ensures
            r is Ok ==> Self::body_writable(self.deep_view()) && final(to).written() == old(
                to,
            ).written() + Self::body_of(self.deep_view()),
            old(to).infallible() ==> final(to).infallible(),
            old(to).infallible() ==> (r is Ok <==> Self::body_writable(self.deep_view())),
            old(to).infallible() && r is Err ==> (r matches Err(SerializeErr::CannotSerialize(_))),
    {
        match self {
            CommandBlockMode::Sequence => {
                proof {
                    assert(old(to).written() + Seq::<u8>::empty() =~= old(to).written());
                }
                Ok(())
            },
            CommandBlockMode::Auto => {
                proof {
                    assert(old(to).written() + Seq::<u8>::empty() =~= old(to).written());
                }
                Ok(())
            },
            CommandBlockMode::Redstone => {
                proof {
                    assert(old(to).written() + Seq::<u8>::empty() =~= old(to).written());
                }
                Ok(())
            },
        }
    }
}

impl Serialize for CommandBlockMode {
    open spec fn serializable(v: CommandBlockMode) -> bool {
        Self::body_writable(v)
    }

    #[verifier::opaque]
    open spec fn encode(v: CommandBlockMode) -> Seq<u8> {
        <VarInt>::encode(VarInt(Self::id_of(v))) + Self::body_of(v)
    }

    fn mc_serialize<S: Serializer>(&self, to: &mut S) -> (r: SerializeResult) {
        proof {
            reveal(<CommandBlockMode as Serialize>::encode);
        }
        let id_to_serialize: VarInt = self.id();
        id_to_serialize.mc_serialize(to)?;
        let r = self.serialize_body(to);
        proof {
            let head = <VarInt>::encode(VarInt(Self::id_of(self.deep_view())));
            let body = Self::body_of(self.deep_view());
            lemma_concat_assoc(old(to).written(), head, body);
        }
        r
    }
}

impl Deserialize for CommandBlockMode {
    #[verifier::opaque]
    open spec fn decode(data: Seq<u8>) -> Decoded<CommandBlockMode> {
        match <VarInt>::decode(data) {
            Err(e) => Err(e),
            Ok((id, n)) => match Self::decode_with_id(id.0, data.skip(n as int)) {
                Ok((v, m)) => Ok((v, n + m)),
                Err(e) => Err(e),
            },
        }
    }

    fn mc_deserialize(data: &[u8]) -> (r: DeserializeResult<'_, CommandBlockMode>) {
        proof {
            reveal(<CommandBlockMode as Deserialize>::decode);
        }
        let Deserialized { value: id, data: rest } = <VarInt>::mc_deserialize(data)?;
        let Deserialized { value, data: after } = Self::deserialize_with_id(id, rest)?;
        proof {
            lemma_skip_skip(data@, data@.len() - rest@.len(), rest@.len() - after@.len());
        }
        Ok(Deserialized { value, data: after })
    }
}

impl ProtocolType for CommandBlockMode {
    open spec fn faithful(v: CommandBlockMode) -> bool {
        match v {
            CommandBlockMode::Sequence => true,
            CommandBlockMode::Auto => true,
            CommandBlockMode::Redstone => true,
        }
    }

    open spec fn delimited() -> bool {
        true
    }

    proof fn lemma_round_trip(v: CommandBlockMode, rest: Seq<u8>) {
        reveal(<CommandBlockMode as Serialize>::encode);
        reveal(<CommandBlockMode as Deserialize>::decode);
        let head = <VarInt>::encode(VarInt(Self::id_of(v)));
        let body = Self::body_of(v);
        <VarInt>::lemma_round_trip(VarInt(Self::id_of(v)), body + rest);
        Self::lemma_body_round_trip(v, rest);
        lemma_concat_assoc(head, body, rest);
        lemma_skip_concat(head, body + rest);
    }
}

impl CommandBlockMode {
    /// What follows the number, written out and followed by anything, reads
    /// back under that number.
    pub proof fn lemma_body_round_trip(v: CommandBlockMode, rest: Seq<u8>)
        requires
            <Self as ProtocolType>::faithful(v),
            <Self as ProtocolType>::delimited() || rest.len() == 0,
        ensures
            Self::body_writable(v),
            Self::decode_with_id(Self::id_of(v), Self::body_of(v) + rest) == Ok::<_, DecodeFailure>(
                (v, Self::body_of(v).len()),
            ),
    {
        match v {
            CommandBlockMode::Sequence => {
                assert(Seq::<u8>::empty() + rest =~= rest);
            },
            CommandBlockMode::Auto => {
                assert(Seq::<u8>::empty() + rest =~= rest);
            },
            CommandBlockMode::Redstone => {
                assert(Seq::<u8>::empty() + rest =~= rest);
            },
        }
    }
}

/// How a command block behaves, one bit for each.
#[derive(Clone, Copy, PartialEq, Eq, Debug, Default)]
pub struct CommandBlockFlags(pub u8);

impl View for CommandBlockFlags {
    type V = CommandBlockFlags;

    open spec fn view(&self) -> CommandBlockFlags {
        *self
    }
}

impl DeepView for CommandBlockFlags {
    type V = CommandBlockFlags;

    open spec fn deep_view(&self) -> CommandBlockFlags {
        *self
    }
}

impl CommandBlockFlags {
    /// Whether the bit for `track_output` is set.
    pub fn is_track_output(&self) -> (r: bool)
        ensures
            r == flag_is_set(self.0, 0x01),
    {
        proof {
            lemma_flag(self.0, 0x01);
        }
        self.0 & 0x01 != 0
    }

    /// Sets the flag where `value` is true. Where it is false the flag is
    /// turned over: a flag that is set is cleared, and one that is clear is
    /// set.
    pub fn set_track_output(&mut self, value: bool)
        ensures
            final(self).0 == if value {
                with_flag(old(self).0, 0x01)
            } else if flag_is_set(old(self).0, 0x01) {
                without_flag(old(self).0, 0x01)
            } else {
                with_flag(old(self).0, 0x01)
            },
    {
        proof {
            lemma_flag(self.0, 0x01);
        }
        if value {
            self.0 |= 0x01;
        } else {
            self.0 ^= 0x01;
        }
    }

    /// Whether the bit for `conditional` is set.
    pub fn is_conditional(&self) -> (r: bool)
        ensures
            r == flag_is_set(self.0, 0x02),
    {
        proof {
            lemma_flag(self.0, 0x02);
        }
        self.0 & 0x02 != 0
    }

    /// Sets the flag where `value` is true. Where it is false the flag is
    /// turned over: a flag that is set is cleared, and one that is clear is
    /// set.
    pub fn set_conditional(&mut self, value: bool)
        ensures
            final(self).0 == if value {
                with_flag(old(self).0, 0x02)
            } else if flag_is_set(old(self).0, 0x02) {
                without_flag(old(self).0, 0x02)
            } else {
                with_flag(old(self).0, 0x02)
            },
    {
        proof {
            lemma_flag(self.0, 0x02);
        }
        if value {
            self.0 |= 0x02;
        } else {
            self.0 ^= 0x02;
        }
    }

    /// Whether the bit for `automatic` is set.
    pub fn is_automatic(&self) -> (r: bool)
        ensures
            r == flag_is_set(self.0, 0x04),
    {
        proof {
            lemma_flag(self.0, 0x04);
        }
        self.0 & 0x04 != 0
    }

    /// Sets the flag where `value` is true. Where it is false the flag is
    /// turned over: a flag that is set is cleared, and one that is clear is
    /// set.
    pub fn set_automatic(&mut self, value: bool)
        ensures
            final(self).0 == if value {
                with_flag(old(self).0, 0x04)
            } else if flag_is_set(old(self).0, 0x04) {
                without_flag(old(self).0, 0x04)
            } else {
                with_flag(old(self).0, 0x04)
            },
    {
        proof {
            lemma_flag(self.0, 0x04);
        }
        if value {
            self.0 |= 0x04;
        } else {
            self.0 ^= 0x04;
        }
    }

}

impl Serialize for CommandBlockFlags {
    open spec fn serializable(v: CommandBlockFlags) -> bool {
        true
    }

    #[verifier::opaque]
    open spec fn encode(v: CommandBlockFlags) -> Seq<u8> {
        seq![v.0]
    }

    fn mc_serialize<S: Serializer>(&self, to: &mut S) -> (r: SerializeResult) {
        proof {
            reveal(<CommandBlockFlags as Serialize>::encode);
        }
        let r = to.serialize_byte(self.0);
        proof {
            assert(old(to).written().push(self.0) =~= old(to).written() + seq![self.0]);
        }
        r
    }
}

impl Deserialize for CommandBlockFlags {
    #[verifier::opaque]
    open spec fn decode(data: Seq<u8>) -> Decoded<CommandBlockFlags> {
        if data.len() < 1 {
            Err(DecodeFailure::Eof)
        } else {
            Ok((CommandBlockFlags(data[0]), 1))
        }
    }

    fn mc_deserialize(data: &[u8]) -> (r: DeserializeResult<'_, CommandBlockFlags>) {
        proof {
            reveal(<CommandBlockFlags as Deserialize>::decode);
        }
        proof {
            reveal(<u8 as Deserialize>::decode);
        }
        let Deserialized { value: b, data: rest } = u8::mc_deserialize(data)?;
        Ok(Deserialized { value: CommandBlockFlags(b), data: rest })
    }
}

impl ProtocolType for CommandBlockFlags {
    open spec fn faithful(v: CommandBlockFlags) -> bool {
        true
    }

    open spec fn delimited() -> bool {
        true
    }

    proof fn lemma_round_trip(v: CommandBlockFlags, rest: Seq<u8>) {
        reveal(<CommandBlockFlags as Serialize>::encode);
        reveal(<CommandBlockFlags as Deserialize>::decode);
    }
}

/// What a structure block is told to do.
#[derive(PartialEq, Eq, Structural, Clone, Copy, Debug)]
pub enum UpdateStructureBlockAction {
    UpdateData,
    SaveStructure,
    LoadStructure,
    DetectSize,
}

impl View for UpdateStructureBlockAction {
    type V = UpdateStructureBlockAction;

    open spec fn view(&self) -> UpdateStructureBlockAction {
        *self
    }
}

impl DeepView for UpdateStructureBlockAction {
    type V = UpdateStructureBlockAction;

    open spec fn deep_view(&self) -> UpdateStructureBlockAction {
        *self
    }
}

impl UpdateStructureBlockAction {
    pub fn variant_count() -> (r: usize)
        ensures
            r == 4,
    {
        4
    }

    /// The number that stands for the variant on the wire.
    pub open spec fn id_of(v: UpdateStructureBlockAction) -> i32 {
        match v {
            UpdateStructureBlockAction::UpdateData => 0x00,
            UpdateStructureBlockAction::SaveStructure => 0x01,
            UpdateStructureBlockAction::LoadStructure => 0x02,
            UpdateStructureBlockAction::DetectSize => 0x03,
        }
    }

    pub fn id(&self) -> (r: VarInt)
        ensures
            r == VarInt(Self::id_of(self.deep_view())),
    {
        match self {
            UpdateStructureBlockAction::UpdateData => VarInt(0x00),
            UpdateStructureBlockAction::SaveStructure => VarInt(0x01),
            UpdateStructureBlockAction::LoadStructure => VarInt(0x02),
            UpdateStructureBlockAction::DetectSize => VarInt(0x03),
        }
    }

    pub open spec fn name_of(v: UpdateStructureBlockAction) -> Seq<char> {
        match v {
            UpdateStructureBlockAction::UpdateData => "UpdateData"@,
            UpdateStructureBlockAction::SaveStructure => "SaveStructure"@,
            UpdateStructureBlockAction::LoadStructure => "LoadStructure"@,
            UpdateStructureBlockAction::DetectSize => "DetectSize"@,
        }
    }

    pub fn name(&self) -> (r: &'static str)
        ensures
            r@ == Self::name_of(self.deep_view()),
    {
        match self {
            UpdateStructureBlockAction::UpdateData => "UpdateData",
            UpdateStructureBlockAction::SaveStructure => "SaveStructure",
            UpdateStructureBlockAction::LoadStructure => "LoadStructure",
            UpdateStructureBlockAction::DetectSize => "DetectSize",
        }
    }

    /// The bytes that follow the number.
    pub open spec fn body_of(v: UpdateStructureBlockAction) -> Seq<u8> {
        match v {
            UpdateStructureBlockAction::UpdateData => Seq::empty(),
            UpdateStructureBlockAction::SaveStructure => Seq::empty(),
            UpdateStructureBlockAction::LoadStructure => Seq::empty(),
            UpdateStructureBlockAction::DetectSize => Seq::empty(),
        }
    }

    /// Whether what follows the number can be written.
    pub open spec fn body_writable(v: UpdateStructureBlockAction) -> bool {
        match v {
            UpdateStructureBlockAction::UpdateData => true,
            UpdateStructureBlockAction::SaveStructure => true,
            UpdateStructureBlockAction::LoadStructure => true,
            UpdateStructureBlockAction::DetectSize => true,
        }
    }

    /// The variant that `id` stands for, with its body read from `data`.
    pub open spec fn decode_with_id(id: i32, data: Seq<u8>) -> Decoded<UpdateStructureBlockAction> {
        if id == 0x00 {
            Ok((UpdateStructureBlockAction::UpdateData, 0))
        } else if id == 0x01 {
            Ok((UpdateStructureBlockAction::SaveStructure, 0))
        } else if id == 0x02 {
            Ok((UpdateStructureBlockAction::LoadStructure, 0))
        } else if id == 0x03 {
            Ok((UpdateStructureBlockAction::DetectSize, 0))
        } else {
            Err(DecodeFailure::CannotUnderstandValue)
        }
    }

    /// Whether `id` stands for a variant.
    pub open spec fn has_id(id: i32) -> bool {
        id == 0x00
            || id == 0x01
            || id == 0x02
            || id == 0x03
    }

    /// Picks the variant for `id` and reads its body from `data`. A number
    /// that stands for no variant is refused, and the error says which.
    pub fn deserialize_with_id<'a>(id: VarInt, data: &'a [u8]) -> (r: DeserializeResult<'a, Self>)
        ensures
            agrees(r, data@, Self::decode_with_id(id.0, data@)),
            !Self::has_id(id.0) ==> (r matches Err(DeserializeErr::CannotUnderstandValue(m))
                && m@ == invalid_int_text("UpdateStructureBlockAction"@, id.0 as int)),
    {
        proof {
            assert(data@.skip(0) =~= data@);
        }
        match id.0 {
            0x00 => Ok(Deserialized { value: UpdateStructureBlockAction::UpdateData, data }),
            0x01 => Ok(Deserialized { value: UpdateStructureBlockAction::SaveStructure, data }),
            0x02 => Ok(Deserialized { value: UpdateStructureBlockAction::LoadStructure, data }),
            0x03 => Ok(Deserialized { value: UpdateStructureBlockAction::DetectSize, data }),
            other => Err(DeserializeErr::CannotUnderstandValue(invalid_int_message("UpdateStructureBlockAction", other))),
        }
    }

    /// Writes what follows the number.
    pub fn serialize_body<S: Serializer>(&self, to: &mut S) -> (r: SerializeResult)
        ensures
            r is Ok ==> Self::body_writable(self.deep_view()) && final(to).written() == old(
                to,
            ).written() + Self::body_of(self.deep_view()),
            old(to).infallible() ==> final(to).infallible(),
            old(to).infallible() ==> (r is Ok <==> Self::body_writable(self.deep_view())),
            old(to).infallible() && r is Err ==> (r matches Err(SerializeErr::CannotSerialize(_))),
    {
        match self {
            UpdateStructureBlockAction::UpdateData => {
                proof {
                    assert(old(to).written() + Seq::<u8>::empty() =~= old(to).written());
                }
                Ok(())
            },
            UpdateStructureBlockAction::SaveStructure => {
                proof {
                    assert(old(to).written() + Seq::<u8>::empty() =~= old(to).written());
                }
                Ok(())
            },
            UpdateStructureBlockAction::LoadStructure => {
                proof {
                    assert(old(to).written() + Seq::<u8>::empty() =~= old(to).written());
                }
                Ok(())
            },
            UpdateStructureBlockAction::DetectSize => {
                proof {
                    assert(old(to).written() + Seq::<u8>::empty() =~= old(to).written());
                }
                Ok(())
            },
        }
    }
}

impl Serialize for UpdateStructureBlockAction {
    open spec fn serializable(v: UpdateStructureBlockAction) -> bool {
        Self::body_writable(v)
    }

    #[verifier::opaque]
    open spec fn encode(v: UpdateStructureBlockAction) -> Seq<u8> {
        <VarInt>::encode(VarInt(Self::id_of(v))) + Self::body_of(v)
    }

    fn mc_serialize<S: Serializer>(&self, to: &mut S) -> (r: SerializeResult) {
        proof {
            reveal(<UpdateStructureBlockAction as Serialize>::encode);
        }
        let id_to_serialize: VarInt = self.id();
        id_to_serialize.mc_serialize(to)?;
        let r = self.serialize_body(to);
        proof {
            let head = <VarInt>::encode(VarInt(Self::id_of(self.deep_view())));
            let body = Self::body_of(self.deep_view());
            lemma_concat_assoc(old(to).written(), head, body);
        }
        r
    }
}

impl Deserialize for UpdateStructureBlockAction {
    #[verifier::opaque]
    open spec fn decode(data: Seq<u8>) -> Decoded<UpdateStructureBlockAction> {
        match <VarInt>::decode(data) {
            Err(e) => Err(e),
            Ok((id, n)) => match Self::decode_with_id(id.0, data.skip(n as int)) {
                Ok((v, m)) => Ok((v, n + m)),
                Err(e) => Err(e),
            },
        }
    }

    fn mc_deserialize(data: &[u8]) -> (r: DeserializeResult<'_, UpdateStructureBlockAction>) {
        proof {
            reveal(<UpdateStructureBlockAction as Deserialize>::decode);
        }
        let Deserialized { value: id, data: rest } = <VarInt>::mc_deserialize(data)?;
        let Deserialized { value, data: after } = Self::deserialize_with_id(id, rest)?;
        proof {
            lemma_skip_skip(data@, data@.len() - rest@.len(), rest@.len() - after@.len());
        }
        Ok(Deserialized { value, data: after })
    }
}

impl ProtocolType for UpdateStructureBlockAction {
    open spec fn faithful(v: UpdateStructureBlockAction) -> bool {
        match v {
            UpdateStructureBlockAction::UpdateData => true,
            UpdateStructureBlockAction::SaveStructure => true,
            UpdateStructureBlockAction::LoadStructure => true,
            UpdateStructureBlockAction::DetectSize => true,
        }
    }

    open spec fn delimited() -> bool {
        true
    }

    proof fn lemma_round_trip(v: UpdateStructureBlockAction, rest: Seq<u8>) {
        reveal(<UpdateStructureBlockAction as Serialize>::encode);
        reveal(<UpdateStructureBlockAction as Deserialize>::decode);
        let head = <VarInt>::encode(VarInt(Self::id_of(v)));
        let body = Self::body_of(v);
        <VarInt>::lemma_round_trip(VarInt(Self::id_of(v)), body + rest);
        Self::lemma_body_round_trip(v, rest);
        lemma_concat_assoc(head, body, rest);
        lemma_skip_concat(head, body + rest);
    }
}

impl UpdateStructureBlockAction {
    /// What follows the number, written out and followed by anything, reads
    /// back under that number.
    pub proof fn lemma_body_round_trip(v: UpdateStructureBlockAction, rest: Seq<u8>)
        requires
            <Self as ProtocolType>::faithful(v),
            <Self as ProtocolType>::delimited() || rest.len() == 0,
        ensures
            Self::body_writable(v),
            Self::decode_with_id(Self::id_of(v), Self::body_of(v) + rest) == Ok::<_, DecodeFailure>(
                (v, Self::body_of(v).len()),
            ),
    {
        match v {
            UpdateStructureBlockAction::UpdateData => {
                assert(Seq::<u8>::empty() + rest =~= rest);
            },
            UpdateStructureBlockAction::SaveStructure => {
                assert(Seq::<u8>::empty() + rest =~= rest);
            },
            UpdateStructureBlockAction::LoadStructure => {
                assert(Seq::<u8>::empty() + rest =~= rest);
            },
            UpdateStructureBlockAction::DetectSize => {
                assert(Seq::<u8>::empty() + rest =~= rest);
            },
        }
    }
}

/// The mode of a structure block.
#[derive(PartialEq, Eq, Structural, Clone, Copy, Debug)]
pub enum UpdateStructureBlockMode {
    Save,
    Load,
    Corner,
    Data,
}

impl View for UpdateStructureBlockMode {
    type V = UpdateStructureBlockMode;

    open spec fn view(&self) -> UpdateStructureBlockMode {
        *self
    }
}

impl DeepView for UpdateStructureBlockMode {
    type V = UpdateStructureBlockMode;

    open spec fn deep_view(&self) -> UpdateStructureBlockMode {
        *self
    }
}

impl UpdateStructureBlockMode {
    pub fn variant_count() -> (r: usize)
        ensures
            r == 4,
    {
        4
    }

    /// The number that stands for the variant on the wire.
    pub open spec fn id_of(v: UpdateStructureBlockMode) -> i32 {
        match v {
            UpdateStructureBlockMode::Save => 0x00,
            UpdateStructureBlockMode::Load => 0x01,
            UpdateStructureBlockMode::Corner => 0x02,
            UpdateStructureBlockMode::Data => 0x03,
        }
    }

    pub fn id(&self) -> (r: VarInt)
        ensures
            r == VarInt(Self::id_of(self.deep_view())),
    {
        match self {
            UpdateStructureBlockMode::Save => VarInt(0x00),
            UpdateStructureBlockMode::Load => VarInt(0x01),
            UpdateStructureBlockMode::Corner => VarInt(0x02),
            UpdateStructureBlockMode::Data => VarInt(0x03),
        }
    }

    pub open spec fn name_of(v: UpdateStructureBlockMode) -> Seq<char> {
        match v {
            UpdateStructureBlockMode::Save => "Save"@,
            UpdateStructureBlockMode::Load => "Load"@,
            UpdateStructureBlockMode::Corner => "Corner"@,
            UpdateStructureBlockMode::Data => "Data"@,
        }
    }

    pub fn name(&self) -> (r: &'static str)
        ensures
            r@ == Self::name_of(self.deep_view()),
    {
        match self {
            UpdateStructureBlockMode::Save => "Save",
            UpdateStructureBlockMode::Load => "Load",
            UpdateStructureBlockMode::Corner => "Corner",
            UpdateStructureBlockMode::Data => "Data",
        }
    }

    /// The bytes that follow the number.
    pub open spec fn body_of(v: UpdateStructureBlockMode) -> Seq<u8> {
        match v {
            UpdateStructureBlockMode::Save => Seq::empty(),
            UpdateStructureBlockMode::Load => Seq::empty(),
            UpdateStructureBlockMode::Corner => Seq::empty(),
            UpdateStructureBlockMode::Data => Seq::empty(),
        }
    }

    /// Whether what follows the number can be written.
    pub open spec fn body_writable(v: UpdateStructureBlockMode) -> bool {
        match v {
            UpdateStructureBlockMode::Save => true,
            UpdateStructureBlockMode::Load => true,
            UpdateStructureBlockMode::Corner => true,
            UpdateStructureBlockMode::Data => true,
        }
    }

    /// The variant that `id` stands for, with its body read from `data`.
    pub open spec fn decode_with_id(id: i32, data: Seq<u8>) -> Decoded<UpdateStructureBlockMode> {
        if id == 0x00 {
            Ok((UpdateStructureBlockMode::Save, 0))
        } else if id == 0x01 {
            Ok((UpdateStructureBlockMode::Load, 0))
        } else if id == 0x02 {
            Ok((UpdateStructureBlockMode::Corner, 0))
        } else if id == 0x03 {
            Ok((UpdateStructureBlockMode::Data, 0))
        } else {
            Err(DecodeFailure::CannotUnderstandValue)
        }
    }

    /// Whether `id` stands for a variant.
    pub open spec fn has_id(id: i32) -> bool {
        id == 0x00
            || id == 0x01
            || id == 0x02
            || id == 0x03
    }

    /// Picks the variant for `id` and reads its body from `data`. A number
    /// that stands for no variant is refused, and the error says which.
    pub fn deserialize_with_id<'a>(id: VarInt, data: &'a [u8]) -> (r: DeserializeResult<'a, Self>)
        ensures
            agrees(r, data@, Self::decode_with_id(id.0, data@)),
            !Self::has_id(id.0) ==> (r matches Err(DeserializeErr::CannotUnderstandValue(m))
                && m@ == invalid_int_text("UpdateStructureBlockMode"@, id.0 as int)),
    {
        proof {
            assert(data@.skip(0) =~= data@);
        }
        match id.0 {
            0x00 => Ok(Deserialized { value: UpdateStructureBlockMode::Save, data }),
            0x01 => Ok(Deserialized { value: UpdateStructureBlockMode::Load, data }),
            0x02 => Ok(Deserialized { value: UpdateStructureBlockMode::Corner, data }),
            0x03 => Ok(Deserialized { value: UpdateStructureBlockMode::Data, data }),
            other => Err(DeserializeErr::CannotUnderstandValue(invalid_int_message("UpdateStructureBlockMode", other))),
        }
    }

    /// Writes what follows the number.
    pub fn serialize_body<S: Serializer>(&self, to: &mut S) -> (r: SerializeResult)
        ensures
            r is Ok ==> Self::body_writable(self.deep_view()) && final(to).written() == old(
                to,
            ).written() + Self::body_of(self.deep_view()),
            old(to).infallible() ==> final(to).infallible(),
            old(to).infallible() ==> (r is Ok <==> Self::body_writable(self.deep_view())),
            old(to).infallible() && r is Err ==> (r matches Err(SerializeErr::CannotSerialize(_))),
    {
        match self {
            UpdateStructureBlockMode::Save => {
                proof {
                    assert(old(to).written() + Seq::<u8>::empty() =~= old(to).written());
                }
                Ok(())
            },
            UpdateStructureBlockMode::Load => {
                proof {
                    assert(old(to).written() + Seq::<u8>::empty() =~= old(to).written());
                }
                Ok(())
            },
            UpdateStructureBlockMode::Corner => {
                proof {
                    assert(old(to).written() + Seq::<u8>::empty() =~= old(to).written());
                }
                Ok(())
            },
            UpdateStructureBlockMode::Data => {
                proof {
                    assert(old(to).written() + Seq::<u8>::empty() =~= old(to).written());
                }
                Ok(())
            },
        }
    }
}

impl Serialize for UpdateStructureBlockMode {
    open spec fn serializable(v: UpdateStructureBlockMode) -> bool {
        Self::body_writable(v)
    }

    #[verifier::opaque]
    open spec fn encode(v: UpdateStructureBlockMode) -> Seq<u8> {
        <VarInt>::encode(VarInt(Self::id_of(v))) + Self::body_of(v)
    }

    fn mc_serialize<S: Serializer>(&self, to: &mut S) -> (r: SerializeResult) {
        proof {
            reveal(<UpdateStructureBlockMode as Serialize>::encode);
        }
        let id_to_serialize: VarInt = self.id();
        id_to_serialize.mc_serialize(to)?;
        let r = self.serialize_body(to);
        proof {
            let head = <VarInt>::encode(VarInt(Self::id_of(self.deep_view())));
            let body = Self::body_of(self.deep_view());
            lemma_concat_assoc(old(to).written(), head, body);
        }
        r
    }
}

impl Deserialize for UpdateStructureBlockMode {
    #[verifier::opaque]
    open spec fn decode(data: Seq<u8>) -> Decoded<UpdateStructureBlockMode> {
        match <VarInt>::decode(data) {
            Err(e) => Err(e),
            Ok((id, n)) => match Self::decode_with_id(id.0, data.skip(n as int)) {
                Ok((v, m)) => Ok((v, n + m)),
                Err(e) => Err(e),
            },
        }
    }

    fn mc_deserialize(data: &[u8]) -> (r: DeserializeResult<'_, UpdateStructureBlockMode>) {
        proof {
            reveal(<UpdateStructureBlockMode as Deserialize>::decode);
        }
        let Deserialized { value: id, data: rest } = <VarInt>::mc_deserialize(data)?;
        let Deserialized { value, data: after } = Self::deserialize_with_id(id, rest)?;
        proof {
            lemma_skip_skip(data@, data@.len() - rest@.len(), rest@.len() - after@.len());
        }
        Ok(Deserialized { value, data: after })
    }
}

impl ProtocolType for UpdateStructureBlockMode {
    open spec fn faithful(v: UpdateStructureBlockMode) -> bool {
        match v {
            UpdateStructureBlockMode::Save => true,
            UpdateStructureBlockMode::Load => true,
            UpdateStructureBlockMode::Corner => true,
            UpdateStructureBlockMode::Data => true,
        }
    }

    open spec fn delimited() -> bool {
        true
    }

    proof fn lemma_round_trip(v: UpdateStructureBlockMode, rest: Seq<u8>) {
        reveal(<UpdateStructureBlockMode as Serialize>::encode);
        reveal(<UpdateStructureBlockMode as Deserialize>::decode);
        let head = <VarInt>::encode(VarInt(Self::id_of(v)));
        let body = Self::body_of(v);
        <VarInt>::lemma_round_trip(VarInt(Self::id_of(v)), body + rest);
        Self::lemma_body_round_trip(v, rest);
        lemma_concat_assoc(head, body, rest);
        lemma_skip_concat(head, body + rest);
    }
}

impl UpdateStructureBlockMode {
    /// What follows the number, written out and followed by anything, reads
    /// back under that number.
    pub proof fn lemma_body_round_trip(v: UpdateStructureBlockMode, rest: Seq<u8>)
        requires
            <Self as ProtocolType>::faithful(v),
            <Self as ProtocolType>::delimited() || rest.len() == 0,
        ensures
            Self::body_writable(v),
            Self::decode_with_id(Self::id_of(v), Self::body_of(v) + rest) == Ok::<_, DecodeFailure>(
                (v, Self::body_of(v).len()),
            ),
    {
        match v {
            UpdateStructureBlockMode::Save => {
                assert(Seq::<u8>::empty() + rest =~= rest);
            },
            UpdateStructureBlockMode::Load => {
                assert(Seq::<u8>::empty() + rest =~= rest);
            },
            UpdateStructureBlockMode::Corner => {
                assert(Seq::<u8>::empty() + rest =~= rest);
            },
            UpdateStructureBlockMode::Data => {
                assert(Seq::<u8>::empty() + rest =~= rest);
            },
        }
    }
}

/// How a structure block mirrors the structure.
#[derive(PartialEq, Eq, Structural, Clone, Copy, Debug)]
pub enum UpdateStructureBlockMirror {
    NoMirror,
    LeftRight,
    FrontBack,
}

impl View for UpdateStructureBlockMirror {
    type V = UpdateStructureBlockMirror;

    open spec fn view(&self) -> UpdateStructureBlockMirror {
        *self
    }
}

impl DeepView for UpdateStructureBlockMirror {
    type V = UpdateStructureBlockMirror;

    open spec fn deep_view(&self) -> UpdateStructureBlockMirror {
        *self
    }
}

impl UpdateStructureBlockMirror {
    pub fn variant_count() -> (r: usize)
        ensures
            r == 3,
    {
        3
    }

    /// The number that stands for the variant on the wire.
    pub open spec fn id_of(v: UpdateStructureBlockMirror) -> i32 {
        match v {
            UpdateStructureBlockMirror::NoMirror => 0x00,
            UpdateStructureBlockMirror::LeftRight => 0x01,
            UpdateStructureBlockMirror::FrontBack => 0x02,
        }
    }

    pub fn id(&self) -> (r: VarInt)
        ensures
            r == VarInt(Self::id_of(self.deep_view())),
    {
        match self {
            UpdateStructureBlockMirror::NoMirror => VarInt(0x00),
            UpdateStructureBlockMirror::LeftRight => VarInt(0x01),
            UpdateStructureBlockMirror::FrontBack => VarInt(0x02),
        }
    }

    pub open spec fn name_of(v: UpdateStructureBlockMirror) -> Seq<char> {
        match v {
            UpdateStructureBlockMirror::NoMirror => "NoMirror"@,
            UpdateStructureBlockMirror::LeftRight => "LeftRight"@,
            UpdateStructureBlockMirror::FrontBack => "FrontBack"@,
        }
    }

    pub fn name(&self) -> (r: &'static str)
        ensures
            r@ == Self::name_of(self.deep_view()),
    {
        match self {
            UpdateStructureBlockMirror::NoMirror => "NoMirror",
            UpdateStructureBlockMirror::LeftRight => "LeftRight",
            UpdateStructureBlockMirror::FrontBack => "FrontBack",
        }
    }

    /// The bytes that follow the number.
    pub open spec fn body_of(v: UpdateStructureBlockMirror) -> Seq<u8> {
        match v {
            UpdateStructureBlockMirror::NoMirror => Seq::empty(),
            UpdateStructureBlockMirror::LeftRight => Seq::empty(),
            UpdateStructureBlockMirror::FrontBack => Seq::empty(),
        }
    }

    /// Whether what follows the number can be written.
    pub open spec fn body_writable(v: UpdateStructureBlockMirror) -> bool {
        match v {
            UpdateStructureBlockMirror::NoMirror => true,
            UpdateStructureBlockMirror::LeftRight => true,
            UpdateStructureBlockMirror::FrontBack => true,
        }
    }

    /// The variant that `id` stands for, with its body read from `data`.
    pub open spec fn decode_with_id(id: i32, data: Seq<u8>) -> Decoded<UpdateStructureBlockMirror> {
        if id == 0x00 {
            Ok((UpdateStructureBlockMirror::NoMirror, 0))
        } else if id == 0x01 {
            Ok((UpdateStructureBlockMirror::LeftRight, 0))
        } else if id == 0x02 {
            Ok((UpdateStructureBlockMirror::FrontBack, 0))
        } else {
            Err(DecodeFailure::CannotUnderstandValue)
        }
    }

    /// Whether `id` stands for a variant.
    pub open spec fn has_id(id: i32) -> bool {
        id == 0x00
            || id == 0x01
            || id == 0x02
    }

    /// Picks the variant for `id` and reads its body from `data`. A number
    /// that stands for no variant is refused, and the error says which.
    pub fn deserialize_with_id<'a>(id: VarInt, data: &'a [u8]) -> (r: DeserializeResult<'a, Self>)
        ensures
            agrees(r, data@, Self::decode_with_id(id.0, data@)),
            !Self::has_id(id.0) ==> (r matches Err(DeserializeErr::CannotUnderstandValue(m))
                && m@ == invalid_int_text("UpdateStructureBlockMirror"@, id.0 as int)),
    {
        proof {
            assert(data@.skip(0) =~= data@);
        }
        match id.0 {
            0x00 => Ok(Deserialized { value: UpdateStructureBlockMirror::NoMirror, data }),
            0x01 => Ok(Deserialized { value: UpdateStructureBlockMirror::LeftRight, data }),
            0x02 => Ok(Deserialized { value: UpdateStructureBlockMirror::FrontBack, data }),
            other => Err(DeserializeErr::CannotUnderstandValue(invalid_int_message("UpdateStructureBlockMirror", other))),
        }
    }

    /// Writes what follows the number.
    pub fn serialize_body<S: Serializer>(&self, to: &mut S) -> (r: SerializeResult)
        ensures
            r is Ok ==> Self::body_writable(self.deep_view()) && final(to).written() == old(
                to,
            ).written() + Self::body_of(self.deep_view()),
            old(to).infallible() ==> final(to).infallible(),
            old(to).infallible() ==> (r is Ok <==> Self::body_writable(self.deep_view())),
            old(to).infallible() && r is Err ==> (r matches Err(SerializeErr::CannotSerialize(_))),
    {
        match self {
            UpdateStructureBlockMirror::NoMirror => {
                proof {
                    assert(old(to).written() + Seq::<u8>::empty() =~= old(to).written());
                }
                Ok(())
            },
            UpdateStructureBlockMirror::LeftRight => {
                proof {
                    assert(old(to).written() + Seq::<u8>::empty() =~= old(to).written());
                }
                Ok(())
            },
            UpdateStructureBlockMirror::FrontBack => {
                proof {
                    assert(old(to).written() + Seq::<u8>::empty() =~= old(to).written());
                }
                Ok(())
            },
        }
    }
}

impl Serialize for UpdateStructureBlockMirror {
    open spec fn serializable(v: UpdateStructureBlockMirror) -> bool {
        Self::body_writable(v)
    }

    #[verifier::opaque]
    open spec fn encode(v: UpdateStructureBlockMirror) -> Seq<u8> {
        <VarInt>::encode(VarInt(Self::id_of(v))) + Self::body_of(v)
    }

    fn mc_serialize<S: Serializer>(&self, to: &mut S) -> (r: SerializeResult) {
        proof {
            reveal(<UpdateStructureBlockMirror as Serialize>::encode);
        }
        let id_to_serialize: VarInt = self.id();
        id_to_serialize.mc_serialize(to)?;
        let r = self.serialize_body(to);
        proof {
            let head = <VarInt>::encode(VarInt(Self::id_of(self.deep_view())));
            let body = Self::body_of(self.deep_view());
            lemma_concat_assoc(old(to).written(), head, body);
        }
        r
    }
}

impl Deserialize for UpdateStructureBlockMirror {
    #[verifier::opaque]
    open spec fn decode(data: Seq<u8>) -> Decoded<UpdateStructureBlockMirror> {
        match <VarInt>::decode(data) {
            Err(e) => Err(e),
            Ok((id, n)) => match Self::decode_with_id(id.0, data.skip(n as int)) {
                Ok((v, m)) => Ok((v, n + m)),
                Err(e) => Err(e),
            },
        }
    }

    fn mc_deserialize(data: &[u8]) -> (r: DeserializeResult<'_, UpdateStructureBlockMirror>) {
        proof {
            reveal(<UpdateStructureBlockMirror as Deserialize>::decode);
        }
        let Deserialized { value: id, data: rest } = <VarInt>::mc_deserialize(data)?;
        let Deserialized { value, data: after } = Self::deserialize_with_id(id, rest)?;
        proof {
            lemma_skip_skip(data@, data@.len() - rest@.len(), rest@.len() - after@.len());
        }
        Ok(Deserialized { value, data: after })
    }
}

impl ProtocolType for UpdateStructureBlockMirror {
    open spec fn faithful(v: UpdateStructureBlockMirror) -> bool {
        match v {
            UpdateStructureBlockMirror::NoMirror => true,
            UpdateStructureBlockMirror::LeftRight => true,
            UpdateStructureBlockMirror::FrontBack => true,
        }
    }

    open spec fn delimited() -> bool {
        true
    }

    proof fn lemma_round_trip(v: UpdateStructureBlockMirror, rest: Seq<u8>) {
        reveal(<UpdateStructureBlockMirror as Serialize>::encode);
        reveal(<UpdateStructureBlockMirror as Deserialize>::decode);
        let head = <VarInt>::encode(VarInt(Self::id_of(v)));
        let body = Self::body_of(v);
        <VarInt>::lemma_round_trip(VarInt(Self::id_of(v)), body + rest);
        Self::lemma_body_round_trip(v, rest);
        lemma_concat_assoc(head, body, rest);
        lemma_skip_concat(head, body + rest);
    }
}

impl UpdateStructureBlockMirror {
    /// What follows the number, written out and followed by anything, reads
    /// back under that number.
    pub proof fn lemma_body_round_trip(v: UpdateStructureBlockMirror, rest: Seq<u8>)
        requires
            <Self as ProtocolType>::faithful(v),
            <Self as ProtocolType>::delimited() || rest.len() == 0,
        ensures
            Self::body_writable(v),
            Self::decode_with_id(Self::id_of(v), Self::body_of(v) + rest) == Ok::<_, DecodeFailure>(
                (v, Self::body_of(v).len()),
            ),
    {
        match v {
            UpdateStructureBlockMirror::NoMirror => {
                assert(Seq::<u8>::empty() + rest =~= rest);
            },
            UpdateStructureBlockMirror::LeftRight => {
                assert(Seq::<u8>::empty() + rest =~= rest);
            },
            UpdateStructureBlockMirror::FrontBack => {
                assert(Seq::<u8>::empty() + rest =~= rest);
            },
        }
    }
}

/// How a structure block turns the structure.
#[derive(PartialEq, Eq, Structural, Clone, Copy, Debug)]
pub enum UpdateStructureBlockRotation {
    NoRotation,
    Clockwise90,
    Clockwise180,
    CounterClockwise90,
}

impl View for UpdateStructureBlockRotation {
    type V = UpdateStructureBlockRotation;

    open spec fn view(&self) -> UpdateStructureBlockRotation {
        *self
    }
}

impl DeepView for UpdateStructureBlockRotation {
    type V = UpdateStructureBlockRotation;

    open spec fn deep_view(&self) -> UpdateStructureBlockRotation {
        *self
    }
}

impl UpdateStructureBlockRotation {
    pub fn variant_count() -> (r: usize)
        ensures
            r == 4,
    {
        4
    }

    /// The number that stands for the variant on the wire.
    pub open spec fn id_of(v: UpdateStructureBlockRotation) -> i32 {
        match v {
            UpdateStructureBlockRotation::NoRotation => 0x00,
            UpdateStructureBlockRotation::Clockwise90 => 0x01,
            UpdateStructureBlockRotation::Clockwise180 => 0x02,
            UpdateStructureBlockRotation::CounterClockwise90 => 0x03,
        }
    }

    pub fn id(&self) -> (r: VarInt)
        ensures
            r == VarInt(Self::id_of(self.deep_view())),
    {
        match self {
            UpdateStructureBlockRotation::NoRotation => VarInt(0x00),
            UpdateStructureBlockRotation::Clockwise90 => VarInt(0x01),
            UpdateStructureBlockRotation::Clockwise180 => VarInt(0x02),
            UpdateStructureBlockRotation::CounterClockwise90 => VarInt(0x03),
        }
    }

    pub open spec fn name_of(v: UpdateStructureBlockRotation) -> Seq<char> {
        match v {
            UpdateStructureBlockRotation::NoRotation => "NoRotation"@,
            UpdateStructureBlockRotation::Clockwise90 => "Clockwise90"@,
            UpdateStructureBlockRotation::Clockwise180 => "Clockwise180"@,
            UpdateStructureBlockRotation::CounterClockwise90 => "CounterClockwise90"@,
        }
    }

    pub fn name(&self) -> (r: &'static str)
        ensures
            r@ == Self::name_of(self.deep_view()),
    {
        match self {
            UpdateStructureBlockRotation::NoRotation => "NoRotation",
            UpdateStructureBlockRotation::Clockwise90 => "Clockwise90",
            UpdateStructureBlockRotation::Clockwise180 => "Clockwise180",
            UpdateStructureBlockRotation::CounterClockwise90 => "CounterClockwise90",
        }
    }

    /// The bytes that follow the number.
    pub open spec fn body_of(v: UpdateStructureBlockRotation) -> Seq<u8> {
        match v {
            UpdateStructureBlockRotation::NoRotation => Seq::empty(),
            UpdateStructureBlockRotation::Clockwise90 => Seq::empty(),
            UpdateStructureBlockRotation::Clockwise180 => Seq::empty(),
            UpdateStructureBlockRotation::CounterClockwise90 => Seq::empty(),
        }
    }

    /// Whether what follows the number can be written.
    pub open spec fn body_writable(v: UpdateStructureBlockRotation) -> bool {
        match v {
            UpdateStructureBlockRotation::NoRotation => true,
            UpdateStructureBlockRotation::Clockwise90 => true,
            UpdateStructureBlockRotation::Clockwise180 => true,
            UpdateStructureBlockRotation::CounterClockwise90 => true,
        }
    }

    /// The variant that `id` stands for, with its body read from `data`.
    pub open spec fn decode_with_id(id: i32, data: Seq<u8>) -> Decoded<UpdateStructureBlockRotation> {
        if id == 0x00 {
            Ok((UpdateStructureBlockRotation::NoRotation, 0))
        } else if id == 0x01 {
            Ok((UpdateStructureBlockRotation::Clockwise90, 0))
        } else if id == 0x02 {
            Ok((UpdateStructureBlockRotation::Clockwise180, 0))
        } else if id == 0x03 {
            Ok((UpdateStructureBlockRotation::CounterClockwise90, 0))
        } else {
            Err(DecodeFailure::CannotUnderstandValue)
        }
    }

    /// Whether `id` stands for a variant.
    pub open spec fn has_id(id: i32) -> bool {
        id == 0x00
            || id == 0x01
            || id == 0x02
            || id == 0x03
    }

    /// Picks the variant for `id` and reads its body from `data`. A number
    /// that stands for no variant is refused, and the error says which.
    pub fn deserialize_with_id<'a>(id: VarInt, data: &'a [u8]) -> (r: DeserializeResult<'a, Self>)
        ensures
            agrees(r, data@, Self::decode_with_id(id.0, data@)),
            !Self::has_id(id.0) ==> (r matches Err(DeserializeErr::CannotUnderstandValue(m))
                && m@ == invalid_int_text("UpdateStructureBlockRotation"@, id.0 as int)),
    {
        proof {
            assert(data@.skip(0) =~= data@);
        }
        match id.0 {
            0x00 => Ok(Deserialized { value: UpdateStructureBlockRotation::NoRotation, data }),
            0x01 => Ok(Deserialized { value: UpdateStructureBlockRotation::Clockwise90, data }),
            0x02 => Ok(Deserialized { value: UpdateStructureBlockRotation::Clockwise180, data }),
            0x03 => Ok(Deserialized { value: UpdateStructureBlockRotation::CounterClockwise90, data }),
            other => Err(DeserializeErr::CannotUnderstandValue(invalid_int_message("UpdateStructureBlockRotation", other))),
        }
    }

    /// Writes what follows the number.
    pub fn serialize_body<S: Serializer>(&self, to: &mut S) -> (r: SerializeResult)
        ensures
            r is Ok ==> Self::body_writable(self.deep_view()) && final(to).written() == old(
                to,
            ).written() + Self::body_of(self.deep_view()),
            old(to).infallible() ==> final(to).infallible(),
            old(to).infallible() ==> (r is Ok <==> Self::body_writable(self.deep_view())),
            old(to).infallible() && r is Err ==> (r matches Err(SerializeErr::CannotSerialize(_))),
    {
        match self {
            UpdateStructureBlockRotation::NoRotation => {
                proof {
                    assert(old(to).written() + Seq::<u8>::empty() =~= old(to).written());
                }
                Ok(())
            },
            UpdateStructureBlockRotation::Clockwise90 => {
                proof {
                    assert(old(to).written() + Seq::<u8>::empty() =~= old(to).written());
                }
                Ok(())
            },
            UpdateStructureBlockRotation::Clockwise180 => {
                proof {
                    assert(old(to).written() + Seq::<u8>::empty() =~= old(to).written());
                }
                Ok(())
            },
            UpdateStructureBlockRotation::CounterClockwise90 => {
                proof {
                    assert(old(to).written() + Seq::<u8>::empty() =~= old(to).written());
                }
                Ok(())
            },
        }
    }
}

impl Serialize for UpdateStructureBlockRotation {
    open spec fn serializable(v: UpdateStructureBlockRotation) -> bool {
        Self::body_writable(v)
    }

    #[verifier::opaque]
    open spec fn encode(v: UpdateStructureBlockRotation) -> Seq<u8> {
        <VarInt>::encode(VarInt(Self::id_of(v))) + Self::body_of(v)
    }

    fn mc_serialize<S: Serializer>(&self, to: &mut S) -> (r: SerializeResult) {
        proof {
            reveal(<UpdateStructureBlockRotation as Serialize>::encode);
        }
        let id_to_serialize: VarInt = self.id();
        id_to_serialize.mc_serialize(to)?;
        let r = self.serialize_body(to);
        proof {
            let head = <VarInt>::encode(VarInt(Self::id_of(self.deep_view())));
            let body = Self::body_of(self.deep_view());
            lemma_concat_assoc(old(to).written(), head, body);
        }
        r
    }
}

impl Deserialize for UpdateStructureBlockRotation {
    #[verifier::opaque]
    open spec fn decode(data: Seq<u8>) -> Decoded<UpdateStructureBlockRotation> {
        match <VarInt>::decode(data) {
            Err(e) => Err(e),
            Ok((id, n)) => match Self::decode_with_id(id.0, data.skip(n as int)) {
                Ok((v, m)) => Ok((v, n + m)),
                Err(e) => Err(e),
            },
        }
    }

    fn mc_deserialize(data: &[u8]) -> (r: DeserializeResult<'_, UpdateStructureBlockRotation>) {
        proof {
            reveal(<UpdateStructureBlockRotation as Deserialize>::decode);
        }
        let Deserialized { value: id, data: rest } = <VarInt>::mc_deserialize(data)?;
        let Deserialized { value, data: after } = Self::deserialize_with_id(id, rest)?;
        proof {
            lemma_skip_skip(data@, data@.len() - rest@.len(), rest@.len() - after@.len());
        }
        Ok(Deserialized { value, data: after })
    }
}

impl ProtocolType for UpdateStructureBlockRotation {
    open spec fn faithful(v: UpdateStructureBlockRotation) -> bool {
        match v {
            UpdateStructureBlockRotation::NoRotation => true,
            UpdateStructureBlockRotation::Clockwise90 => true,
            UpdateStructureBlockRotation::Clockwise180 => true,
            UpdateStructureBlockRotation::CounterClockwise90 => true,
        }
    }

    open spec fn delimited() -> bool {
        true
    }

    proof fn lemma_round_trip(v: UpdateStructureBlockRotation, rest: Seq<u8>) {
        reveal(<UpdateStructureBlockRotation as Serialize>::encode);
        reveal(<UpdateStructureBlockRotation as Deserialize>::decode);
        let head = <VarInt>::encode(VarInt(Self::id_of(v)));
        let body = Self::body_of(v);
        <VarInt>::lemma_round_trip(VarInt(Self::id_of(v)), body + rest);
        Self::lemma_body_round_trip(v, rest);
        lemma_concat_assoc(head, body, rest);
        lemma_skip_concat(head, body + rest);
    }
}

impl UpdateStructureBlockRotation {
    /// What follows the number, written out and followed by anything, reads
    /// back under that number.
    pub proof fn lemma_body_round_trip(v: UpdateStructureBlockRotation, rest: Seq<u8>)
        requires
            <Self as ProtocolType>::faithful(v),
            <Self as ProtocolType>::delimited() || rest.len() == 0,
        ensures
            Self::body_writable(v),
            Self::decode_with_id(Self::id_of(v), Self::body_of(v) + rest) == Ok::<_, DecodeFailure>(
                (v, Self::body_of(v).len()),
            ),
    {
        match v {
            UpdateStructureBlockRotation::NoRotation => {
                assert(Seq::<u8>::empty() + rest =~= rest);
            },
            UpdateStructureBlockRotation::Clockwise90 => {
                assert(Seq::<u8>::empty() + rest =~= rest);
            },
            UpdateStructureBlockRotation::Clockwise180 => {
                assert(Seq::<u8>::empty() + rest =~= rest);
            },
            UpdateStructureBlockRotation::CounterClockwise90 => {
                assert(Seq::<u8>::empty() + rest =~= rest);
            },
        }
    }
}

/// What a structure block takes in or shows, one bit for each.
#[derive(Clone, Copy, PartialEq, Eq, Debug, Default)]
pub struct UpdateStructureBlockFlags(pub u8);

impl View for UpdateStructureBlockFlags {
    type V = UpdateStructureBlockFlags;

    open spec fn view(&self) -> UpdateStructureBlockFlags {
        *self
    }
}

impl DeepView for UpdateStructureBlockFlags {
    type V = UpdateStructureBlockFlags;

    open spec fn deep_view(&self) -> UpdateStructureBlockFlags {
        *self
    }
}

impl UpdateStructureBlockFlags {
    /// Whether the bit for `ignore_entities` is set.
    pub fn is_ignore_entities(&self) -> (r: bool)
        ensures
            r == flag_is_set(self.0, 0x01),
    {
        proof {
            lemma_flag(self.0, 0x01);
        }
        self.0 & 0x01 != 0
    }

    /// Sets the flag where `value` is true. Where it is false the flag is
    /// turned over: a flag that is set is cleared, and one that is clear is
    /// set.
    pub fn set_ignore_entities(&mut self, value: bool)
        ensures
            final(self).0 == if value {
                with_flag(old(self).0, 0x01)
            } else if flag_is_set(old(self).0, 0x01) {
                without_flag(old(self).0, 0x01)
            } else {
                with_flag(old(self).0, 0x01)
            },
    {
        proof {
            lemma_flag(self.0, 0x01);
        }
        if value {
            self.0 |= 0x01;
        } else {
            self.0 ^= 0x01;
        }
    }

    /// Whether the bit for `show_air` is set.
    pub fn is_show_air(&self) -> (r: bool)
        ensures
            r == flag_is_set(self.0, 0x02),
    {
        proof {
            lemma_flag(self.0, 0x02);
        }
        self.0 & 0x02 != 0
    }

    /// Sets the flag where `value` is true. Where it is false the flag is
    /// turned over: a flag that is set is cleared, and one that is clear is
    /// set.
    pub fn set_show_air(&mut self, value: bool)
        ensures
            final(self).0 == if value {
                with_flag(old(self).0, 0x02)
            } else if flag_is_set(old(self).0, 0x02) {
                without_flag(old(self).0, 0x02)
            } else {
                with_flag(old(self).0, 0x02)
            },
    {
        proof {
            lemma_flag(self.0, 0x02);
        }
        if value {
            self.0 |= 0x02;
        } else {
            self.0 ^= 0x02;
        }
    }

    /// Whether the bit for `show_bounding_box` is set.
    pub fn is_show_bounding_box(&self) -> (r: bool)
        ensures
            r == flag_is_set(self.0, 0x04),
    {
        proof {
            lemma_flag(self.0, 0x04);
        }
        self.0 & 0x04 != 0
    }

    /// Sets the flag where `value` is true. Where it is false the flag is
    /// turned over: a flag that is set is cleared, and one that is clear is
    /// set.
    pub fn set_show_bounding_box(&mut self, value: bool)
        ensures
            final(self).0 == if value {
                with_flag(old(self).0, 0x04)
            } else if flag_is_set(old(self).0, 0x04) {
                without_flag(old(self).0, 0x04)
            } else {
                with_flag(old(self).0, 0x04)
            },
    {
        proof {
            lemma_flag(self.0, 0x04);
        }
        if value {
            self.0 |= 0x04;
        } else {
            self.0 ^= 0x04;
        }
    }

}

impl Serialize for UpdateStructureBlockFlags {
    open spec fn serializable(v: UpdateStructureBlockFlags) -> bool {
        true
    }

    #[verifier::opaque]
    open spec fn encode(v: UpdateStructureBlockFlags) -> Seq<u8> {
        seq![v.0]
    }

    fn mc_serialize<S: Serializer>(&self, to: &mut S) -> (r: SerializeResult) {
        proof {
            reveal(<UpdateStructureBlockFlags as Serialize>::encode);
        }
        let r = to.serialize_byte(self.0);
        proof {
            assert(old(to).written().push(self.0) =~= old(to).written() + seq![self.0]);
        }
        r
    }
}

impl Deserialize for UpdateStructureBlockFlags {
    #[verifier::opaque]
    open spec fn decode(data: Seq<u8>) -> Decoded<UpdateStructureBlockFlags> {
        if data.len() < 1 {
            Err(DecodeFailure::Eof)
        } else {
            Ok((UpdateStructureBlockFlags(data[0]), 1))
        }
    }

    fn mc_deserialize(data: &[u8]) -> (r: DeserializeResult<'_, UpdateStructureBlockFlags>) {
        proof {
            reveal(<UpdateStructureBlockFlags as Deserialize>::decode);
        }
        proof {
            reveal(<u8 as Deserialize>::decode);
        }
        let Deserialized { value: b, data: rest } = u8::mc_deserialize(data)?;
        Ok(Deserialized { value: UpdateStructureBlockFlags(b), data: rest })
    }
}

impl ProtocolType for UpdateStructureBlockFlags {
    open spec fn faithful(v: UpdateStructureBlockFlags) -> bool {
        true
    }

    open spec fn delimited() -> bool {
        true
    }

    proof fn lemma_round_trip(v: UpdateStructureBlockFlags, rest: Seq<u8>) {
        reveal(<UpdateStructureBlockFlags as Serialize>::encode);
        reveal(<UpdateStructureBlockFlags as Deserialize>::decode);
    }
}

/// What happens to the recipes that a player knows.
#[derive(PartialEq, Eq, Structural, Clone, Copy, Debug)]
pub enum RecipeUnlockAction {
    Init,
    Add,
    Remove,
}

impl View for RecipeUnlockAction {
    type V = RecipeUnlockAction;

    open spec fn view(&self) -> RecipeUnlockAction {
        *self
    }
}

impl DeepView for RecipeUnlockAction {
    type V = RecipeUnlockAction;

    open spec fn deep_view(&self) -> RecipeUnlockAction {
        *self
    }
}

impl RecipeUnlockAction {
    pub fn variant_count() -> (r: usize)
        ensures
            r == 3,
    {
        3
    }

    /// The number that stands for the variant on the wire.
    pub open spec fn id_of(v: RecipeUnlockAction) -> i32 {
        match v {
            RecipeUnlockAction::Init => 0x00,
            RecipeUnlockAction::Add => 0x01,
            RecipeUnlockAction::Remove => 0x02,
        }
    }

    pub fn id(&self) -> (r: VarInt)
        ensures
            r == VarInt(Self::id_of(self.deep_view())),
    {
        match self {
            RecipeUnlockAction::Init => VarInt(0x00),
            RecipeUnlockAction::Add => VarInt(0x01),
            RecipeUnlockAction::Remove => VarInt(0x02),
        }
    }

    pub open spec fn name_of(v: RecipeUnlockAction) -> Seq<char> {
        match v {
            RecipeUnlockAction::Init => "Init"@,
            RecipeUnlockAction::Add => "Add"@,
            RecipeUnlockAction::Remove => "Remove"@,
        }
    }

    pub fn name(&self) -> (r: &'static str)
        ensures
            r@ == Self::name_of(self.deep_view()),
    {
        match self {
            RecipeUnlockAction::Init => "Init",
            RecipeUnlockAction::Add => "Add",
            RecipeUnlockAction::Remove => "Remove",
        }
    }

    /// The bytes that follow the number.
    pub open spec fn body_of(v: RecipeUnlockAction) -> Seq<u8> {
        match v {
            RecipeUnlockAction::Init => Seq::empty(),
            RecipeUnlockAction::Add => Seq::empty(),
            RecipeUnlockAction::Remove => Seq::empty(),
        }
    }

    /// Whether what follows the number can be written.
    pub open spec fn body_writable(v: RecipeUnlockAction) -> bool {
        match v {
            RecipeUnlockAction::Init => true,
            RecipeUnlockAction::Add => true,
            RecipeUnlockAction::Remove => true,
        }
    }

    /// The variant that `id` stands for, with its body read from `data`.
    pub open spec fn decode_with_id(id: i32, data: Seq<u8>) -> Decoded<RecipeUnlockAction> {
        if id == 0x00 {
            Ok((RecipeUnlockAction::Init, 0))
        } else if id == 0x01 {
            Ok((RecipeUnlockAction::Add, 0))
        } else if id == 0x02 {
            Ok((RecipeUnlockAction::Remove, 0))
        } else {
            Err(DecodeFailure::CannotUnderstandValue)
        }
    }

    /// Whether `id` stands for a variant.
    pub open spec fn has_id(id: i32) -> bool {
        id == 0x00
            || id == 0x01
            || id == 0x02
    }

    /// Picks the variant for `id` and reads its body from `data`. A number
    /// that stands for no variant is refused, and the error says which.
    pub fn deserialize_with_id<'a>(id: VarInt, data: &'a [u8]) -> (r: DeserializeResult<'a, Self>)
        ensures
            agrees(r, data@, Self::decode_with_id(id.0, data@)),
            !Self::has_id(id.0) ==> (r matches Err(DeserializeErr::CannotUnderstandValue(m))
                && m@ == invalid_int_text("RecipeUnlockAction"@, id.0 as int)),
    {
        proof {
            assert(data@.skip(0) =~= data@);
        }
        match id.0 {
            0x00 => Ok(Deserialized { value: RecipeUnlockAction::Init, data }),
            0x01 => Ok(Deserialized { value: RecipeUnlockAction::Add, data }),
            0x02 => Ok(Deserialized { value: RecipeUnlockAction::Remove, data }),
            other => Err(DeserializeErr::CannotUnderstandValue(invalid_int_message("RecipeUnlockAction", other))),
        }
    }

    /// Writes what follows the number.
    pub fn serialize_body<S: Serializer>(&self, to: &mut S) -> (r: SerializeResult)
        ensures
            r is Ok ==> Self::body_writable(self.deep_view()) && final(to).written() == old(
                to,
            ).written() + Self::body_of(self.deep_view()),
            old(to).infallible() ==> final(to).infallible(),
            old(to).infallible() ==> (r is Ok <==> Self::body_writable(self.deep_view())),
            old(to).infallible() && r is Err ==> (r matches Err(SerializeErr::CannotSerialize(_))),
    {
        match self {
            RecipeUnlockAction::Init => {
                proof {
                    assert(old(to).written() + Seq::<u8>::empty() =~= old(to).written());
                }
                Ok(())
            },
            RecipeUnlockAction::Add => {
                proof {
                    assert(old(to).written() + Seq::<u8>::empty() =~= old(to).written());
                }
                Ok(())
            },
            RecipeUnlockAction::Remove => {
                proof {
                    assert(old(to).written() + Seq::<u8>::empty() =~= old(to).written());
                }
                Ok(())
            },
        }
    }
}

impl Serialize for RecipeUnlockAction {
    open spec fn serializable(v: RecipeUnlockAction) -> bool {
        Self::body_writable(v)
    }

    #[verifier::opaque]
    open spec fn encode(v: RecipeUnlockAction) -> Seq<u8> {
        <VarInt>::encode(VarInt(Self::id_of(v))) + Self::body_of(v)
    }

    fn mc_serialize<S: Serializer>(&self, to: &mut S) -> (r: SerializeResult) {
        proof {
            reveal(<RecipeUnlockAction as Serialize>::encode);
        }
        let id_to_serialize: VarInt = self.id();
        id_to_serialize.mc_serialize(to)?;
        let r = self.serialize_body(to);
        proof {
            let head = <VarInt>::encode(VarInt(Self::id_of(self.deep_view())));
            let body = Self::body_of(self.deep_view());
            lemma_concat_assoc(old(to).written(), head, body);
        }
        r
    }
}

impl Deserialize for RecipeUnlockAction {
    #[verifier::opaque]
    open spec fn decode(data: Seq<u8>) -> Decoded<RecipeUnlockAction> {
        match <VarInt>::decode(data) {
            Err(e) => Err(e),
            Ok((id, n)) => match Self::decode_with_id(id.0, data.skip(n as int)) {
                Ok((v, m)) => Ok((v, n + m)),
                Err(e) => Err(e),
            },
        }
    }

    fn mc_deserialize(data: &[u8]) -> (r: DeserializeResult<'_, RecipeUnlockAction>) {
        proof {
            reveal(<RecipeUnlockAction as Deserialize>::decode);
        }
        let Deserialized { value: id, data: rest } = <VarInt>::mc_deserialize(data)?;
        let Deserialized { value, data: after } = Self::deserialize_with_id(id, rest)?;
        proof {
            lemma_skip_skip(data@, data@.len() - rest@.len(), rest@.len() - after@.len());
        }
        Ok(Deserialized { value, data: after })
    }
}

impl ProtocolType for RecipeUnlockAction {
    open spec fn faithful(v: RecipeUnlockAction) -> bool {
        match v {
            RecipeUnlockAction::Init => true,
            RecipeUnlockAction::Add => true,
            RecipeUnlockAction::Remove => true,
        }
    }

    open spec fn delimited() -> bool {
        true
    }

    proof fn lemma_round_trip(v: RecipeUnlockAction, rest: Seq<u8>) {
        reveal(<RecipeUnlockAction as Serialize>::encode);
        reveal(<RecipeUnlockAction as Deserialize>::decode);
        let head = <VarInt>::encode(VarInt(Self::id_of(v)));
        let body = Self::body_of(v);
        <VarInt>::lemma_round_trip(VarInt(Self::id_of(v)), body + rest);
        Self::lemma_body_round_trip(v, rest);
        lemma_concat_assoc(head, body, rest);
        lemma_skip_concat(head, body + rest);
    }
}

impl RecipeUnlockAction {
    /// What follows the number, written out and followed by anything, reads
    /// back under that number.
    pub proof fn lemma_body_round_trip(v: RecipeUnlockAction, rest: Seq<u8>)
        requires
            <Self as ProtocolType>::faithful(v),
            <Self as ProtocolType>::delimited() || rest.len() == 0,
        ensures
            Self::body_writable(v),
            Self::decode_with_id(Self::id_of(v), Self::body_of(v) + rest) == Ok::<_, DecodeFailure>(
                (v, Self::body_of(v).len()),
            ),
    {
        match v {
            RecipeUnlockAction::Init => {
                assert(Seq::<u8>::empty() + rest =~= rest);
            },
            RecipeUnlockAction::Add => {
                assert(Seq::<u8>::empty() + rest =~= rest);
            },
            RecipeUnlockAction::Remove => {
                assert(Seq::<u8>::empty() + rest =~= rest);
            },
        }
    }
}

} // verus!
