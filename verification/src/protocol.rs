use crate::deserialize::{DecodeFailure, Deserialize, DeserializeErr, Deserialized};
use crate::serialize::{Serialize, SerializeResult, Serializer};
pub use crate::types::ProtocolType;
use crate::types::VarInt;
use vstd::prelude::*;
use crate::utils::{decimal, decimal_text, signed_decimal, signed_decimal_text};
use vstd::slice::slice_to_vec;
use vstd::string::StringExecFns;

verus! {

/// Which way a packet travels.
#[derive(Debug, PartialEq, Eq, Structural, Clone, Copy)]
pub enum PacketDirection {
    ClientBound,
    ServerBound,
}

impl PacketDirection {
    pub open spec fn spec_opposite(&self) -> Self {
        match self {
            PacketDirection::ClientBound => PacketDirection::ServerBound,
            PacketDirection::ServerBound => PacketDirection::ClientBound,
        }
    }

    #[verifier::when_used_as_spec(spec_opposite)]
    pub fn opposite(&self) -> (r: Self)
        ensures
            r == self.spec_opposite(),
    {
        match self {
            PacketDirection::ClientBound => PacketDirection::ServerBound,
            PacketDirection::ServerBound => PacketDirection::ClientBound,
        }
    }

    /// The direction's name, as schema descriptions spell it.
    pub open spec fn spec_name(self) -> Seq<char> {
        match self {
            PacketDirection::ClientBound => "ClientBound"@,
            PacketDirection::ServerBound => "ServerBound"@,
        }
    }

    pub fn name(&self) -> (r: String)
        ensures
            r@ == self.spec_name(),
    {
        match self {
            PacketDirection::ClientBound => "ClientBound".to_owned(),
            PacketDirection::ServerBound => "ServerBound".to_owned(),
        }
    }
}

/// Turning round twice leads back.
pub proof fn lemma_opposite_twice(d: PacketDirection)
    ensures
        d.spec_opposite().spec_opposite() == d,
        d.spec_opposite() != d,
{
}

/// The stage a connection is in. A connection starts in `Handshaking`; the
/// handshake names `Status` or `Login` as the next stage, and `Login` leads
/// to `Play`.
#[derive(Debug, PartialEq, Eq, Structural, Clone, Copy)]
pub enum State {
    Handshaking,
    Status,
    Login,
    Play,
}

impl State {
    pub open spec fn spec_name(self) -> Seq<char> {
        match self {
            State::Handshaking => "Handshaking"@,
            State::Status => "Status"@,
            State::Login => "Login"@,
            State::Play => "Play"@,
        }
    }

    pub fn name(&self) -> (r: String)
        ensures
            r@ == self.spec_name(),
    {
        match self {
            State::Handshaking => "Handshaking".to_owned(),
            State::Status => "Status".to_owned(),
            State::Login => "Login".to_owned(),
            State::Play => "Play".to_owned(),
        }
    }
}

/// What tells one kind of packet from another: its number, the stage of the
/// connection and the direction of travel.
#[derive(Debug, PartialEq, Eq, Structural, Clone, Copy)]
pub struct Id {
    pub id: i32,
    pub state: State,
    pub direction: PacketDirection,
}

/// The identity made of a number, a stage and a direction.
pub open spec fn packet_id(id: i32, state: State, direction: PacketDirection) -> Id {
    Id { id, state, direction }
}

impl View for Id {
    type V = Id;

    open spec fn view(&self) -> Id {
        *self
    }
}

impl DeepView for Id {
    type V = Id;

    open spec fn deep_view(&self) -> Id {
        *self
    }
}

// Only the number goes on the wire; stage and direction are known to both
// ends.
impl Serialize for Id {
    open spec fn serializable(v: Id) -> bool {
        true
    }

    open spec fn encode(v: Id) -> Seq<u8> {
        i32::encode(v.id)
    }

    fn mc_serialize<S: Serializer>(&self, to: &mut S) -> (r: SerializeResult) {
        self.id.mc_serialize(to)
    }
}

impl From<(i32, State, PacketDirection)> for Id {
    fn from(other: (i32, State, PacketDirection)) -> (r: Self) {
        let (id, state, direction) = other;
        Self { id, state, direction }
    }
}

impl vstd::std_specs::convert::FromSpecImpl<(i32, State, PacketDirection)> for Id {
    open spec fn obeys_from_spec() -> bool {
        true
    }

    open spec fn from_spec(v: (i32, State, PacketDirection)) -> Self {
        Id { id: v.0, state: v.1, direction: v.2 }
    }
}

impl From<Id> for (i32, State, PacketDirection) {
    fn from(id: Id) -> (r: Self) {
        let Id { id, state, direction } = id;
        (id, state, direction)
    }
}

impl vstd::std_specs::convert::FromSpecImpl<Id> for (i32, State, PacketDirection) {
    open spec fn obeys_from_spec() -> bool {
        true
    }

    open spec fn from_spec(v: Id) -> Self {
        (v.id, v.state, v.direction)
    }
}

/// A protocol version as plain data: its packets and their fields.
#[derive(Debug, Clone, PartialEq, Eq)]
pub struct ProtocolSpec {
    pub name: String,
    pub packets: Vec<ProtocolPacketSpec>,
}

/// One kind of packet as plain data.
#[derive(Debug, Clone, PartialEq, Eq)]
pub struct ProtocolPacketSpec {
    pub state: String,
    pub direction: String,
    pub id: i32,
    pub name: String,
    pub body_struct: String,
    pub fields: Vec<ProtocolPacketField>,
}

/// One field of a packet as plain data: its name and the name of its type.
#[derive(Debug, Clone, PartialEq, Eq)]
pub struct ProtocolPacketField {
    pub name: String,
    pub kind: String,
}

/// Why a raw packet did not become a packet.
#[derive(Debug)]
pub enum PacketErr {
    /// The version has no packet of this identity.
    UnknownId(Id),
    /// The body did not decode.
    DeserializeFailed(DeserializeErr),
    /// The body decoded and bytes were left over; holds those bytes.
    ExtraData(Vec<u8>),
}

/// The mathematical content of a [`PacketErr`].
pub enum PacketFailure {
    UnknownId(Id),
    DeserializeFailed(DecodeFailure),
    ExtraData(Seq<u8>),
}

impl View for PacketErr {
    type V = PacketFailure;

    open spec fn view(&self) -> PacketFailure {
        match self {
            PacketErr::UnknownId(id) => PacketFailure::UnknownId(*id),
            PacketErr::DeserializeFailed(e) => PacketFailure::DeserializeFailed(e@),
            PacketErr::ExtraData(rest) => PacketFailure::ExtraData(rest@),
        }
    }
}

/// A packet's identity with its body still in bytes.
#[derive(Debug, Clone, PartialEq)]
pub struct RawPacket<'a> {
    pub id: Id,
    pub data: &'a [u8],
}

/// What a whole body `data` decodes to as a `T`: the value, if decoding
/// succeeds and uses up every byte.
pub open spec fn whole_body<T: Deserialize>(data: Seq<u8>) -> Result<T::V, PacketFailure> {
    match T::decode(data) {
        Err(e) => Err(PacketFailure::DeserializeFailed(e)),
        Ok((v, n)) => if n < data.len() {
            Err(PacketFailure::ExtraData(data.skip(n as int)))
        } else {
            Ok(v)
        },
    }
}

/// `r` is the outcome `expect`: the same value or the same failure.
pub open spec fn yields<T: DeepView>(r: Result<T, PacketErr>, expect: Result<T::V, PacketFailure>) -> bool {
    match r {
        Ok(v) => expect matches Ok(w) && v.deep_view() == w,
        Err(e) => expect matches Err(f) && e@ == f,
    }
}

/// Decodes a whole packet body as a `T`. Bytes left over are an error: they
/// show that writer and reader disagree about the layout.
pub fn deserialize_body<T: Deserialize>(data: &[u8]) -> (r: Result<T, PacketErr>)
    ensures
        yields(r, whole_body::<T>(data@)),
{
    match T::mc_deserialize(data) {
        Err(e) => Err(PacketErr::DeserializeFailed(e)),
        Ok(Deserialized { value: body, data: rest }) => {
            if !rest.is_empty() {
                Err(PacketErr::ExtraData(slice_to_vec(rest)))
            } else {
                Ok(body)
            }
        },
    }
}

/// A body that was written from a faithful value decodes back to it whole.
pub proof fn lemma_whole_body_round_trip<T: ProtocolType>(v: T::V)
    requires
        T::faithful(v),
    ensures
        whole_body::<T>(T::encode(v)) == Ok::<T::V, PacketFailure>(v),
{
    T::lemma_round_trip(v, Seq::empty());
    assert(T::encode(v) + Seq::<u8>::empty() =~= T::encode(v));
}

/// The packets of one protocol version.
///
/// A version is a closed set of packet kinds, each with its own identity and
/// body layout. `layout` is that table: the body that an identity selects,
/// decoded from the bytes, or nothing where the version has no such packet.
pub trait Packet: Sized + DeepView {
    /// The identity of a packet.
    spec fn id_of(v: Self::V) -> Id;

    /// The bytes of a packet's body.
    spec fn body_of(v: Self::V) -> Seq<u8>;

    /// Whether the packet's body can be written.
    spec fn writable(v: Self::V) -> bool;

    /// Whether the version has a packet of this identity.
    spec fn known(id: Id) -> bool;

    /// What the body `data` of a packet of the known identity `id` decodes to.
    spec fn layout(id: Id, data: Seq<u8>) -> Result<Self::V, PacketFailure>;

    fn id(&self) -> (r: Id)
        ensures
            r == Self::id_of(self.deep_view()),
            Self::known(r),
    ;

    fn version() -> VarInt;

    fn mc_deserialize(raw: RawPacket<'_>) -> (r: Result<Self, PacketErr>)
        ensures
            yields(
                r,
                if Self::known(raw.id) {
                    Self::layout(raw.id, raw.data@)
                } else {
                    Err(PacketFailure::UnknownId(raw.id))
                },
            ),
            r matches Ok(p) ==> Self::id_of(p.deep_view()) == raw.id,
    ;

    fn mc_serialize_body<S: Serializer>(&self, to: &mut S) -> (r: SerializeResult)
        ensures
            r is Ok ==> Self::writable(self.deep_view()) && final(to).written() == old(
                to,
            ).written() + Self::body_of(self.deep_view()),
            old(to).infallible() ==> final(to).infallible(),
            old(to).infallible() ==> (r is Ok <==> Self::writable(self.deep_view())),
    ;
}

/// The stage that goes by `name`; `Play` for a name that is none.
pub open spec fn state_named(name: Seq<char>) -> State {
    if name == "Handshaking"@ {
        State::Handshaking
    } else if name == "Status"@ {
        State::Status
    } else if name == "Login"@ {
        State::Login
    } else {
        State::Play
    }
}

/// The direction that goes by `name`; `ServerBound` for a name that is none.
pub open spec fn direction_named(name: Seq<char>) -> PacketDirection {
    if name == "ClientBound"@ {
        PacketDirection::ClientBound
    } else {
        PacketDirection::ServerBound
    }
}

/// The identity that a description gives its packet.
pub open spec fn described_id(p: ProtocolPacketSpec) -> Id {
    Id { id: p.id, state: state_named(p.state@), direction: direction_named(p.direction@) }
}

/// One line of a version's table of packets: the identity of a packet,
/// its name, the name of its body, and the name and type of each field.
pub struct PacketRow {
    pub id: Id,
    pub name: Seq<char>,
    pub body_struct: Seq<char>,
    pub fields: Seq<(Seq<char>, Seq<char>)>,
}

/// The line that a description stands for.
pub open spec fn row_of(p: ProtocolPacketSpec) -> PacketRow {
    PacketRow {
        id: described_id(p),
        name: p.name@,
        body_struct: p.body_struct@,
        fields: Seq::new(p.fields@.len(), |i: int| (p.fields@[i].name@, p.fields@[i].kind@)),
    }
}

/// Stages and directions are found again by their names.
pub proof fn lemma_names(s: State, d: PacketDirection)
    ensures
        state_named(s.spec_name()) == s,
        direction_named(d.spec_name()) == d,
{
    reveal_strlit("Handshaking");
    reveal_strlit("Status");
    reveal_strlit("Login");
    reveal_strlit("Play");
    reveal_strlit("ClientBound");
    reveal_strlit("ServerBound");
    assert("Handshaking"@.len() == 11 && "Status"@.len() == 6 && "Login"@.len() == 5 && "Play"@.len()
        == 4);
    assert("ClientBound"@[0] == 'C' && "ServerBound"@[0] == 'S');
}

/// A description that spells a stage and a direction by their names
/// describes the packet of that identity.
pub proof fn lemma_described_id(p: ProtocolPacketSpec, id: i32, s: State, d: PacketDirection)
    requires
        p.id == id,
        p.state@ == s.spec_name(),
        p.direction@ == d.spec_name(),
    ensures
        described_id(p) == packet_id(id, s, d),
{
    lemma_names(s, d);
}

/// The text of the error for a number that stands for no variant of the
/// type `kind`.
pub open spec fn invalid_message(kind: Seq<char>, value: nat) -> Seq<char> {
    "invalid "@ + kind + " "@ + decimal_text(value)
}

/// Writes the error text for a number that stands for no variant.
pub fn invalid_value_message(kind: &str, value: u64) -> (r: String)
    ensures
        r@ == invalid_message(kind@, value as nat),
{
    let mut out = "invalid ".to_owned();
    out.append(kind);
    out.append(" ");
    out.append(decimal(value).as_str());
    out
}

/// A body that decodes and leaves bytes over is refused, and the error holds
/// what was left; a body that does not decode is refused with the decoder's
/// own error.
pub proof fn lemma_whole_body_failures<T: Deserialize>(data: Seq<u8>)
    ensures
        match T::decode(data) {
            Ok((_, n)) => n < data.len() ==> whole_body::<T>(data) == Err::<T::V, _>(
                PacketFailure::ExtraData(data.skip(n as int)),
            ),
            Err(e) => whole_body::<T>(data) == Err::<T::V, _>(PacketFailure::DeserializeFailed(e)),
        },
{
}

/// The text of the error for a signed number that stands for no variant of
/// the type `kind`.
pub open spec fn invalid_int_text(kind: Seq<char>, value: int) -> Seq<char> {
    "invalid "@ + kind + " "@ + signed_decimal_text(value)
}

/// Writes the error text for a signed number that stands for no variant.
pub fn invalid_int_message(kind: &str, value: i32) -> (r: String)
    ensures
        r@ == invalid_int_text(kind@, value as int),
{
    let mut out = "invalid ".to_owned();
    out.append(kind);
    out.append(" ");
    out.append(signed_decimal(value as i64).as_str());
    out
}

/// The text of the error for a name that stands for no variant of the type
/// `kind`.
pub open spec fn invalid_ident_text(kind: Seq<char>, name: Seq<char>) -> Seq<char> {
    "invalid "@ + kind + " ident '"@ + name + "'"@
}

/// Writes the error text for a name that stands for no variant.
pub fn invalid_ident_message(kind: &str, name: &str) -> (r: String)
    ensures
        r@ == invalid_ident_text(kind@, name@),
{
    let mut out = "invalid ".to_owned();
    out.append(kind);
    out.append(" ident '");
    out.append(name);
    out.append("'");
    out
}

} // verus!
