use vstd::prelude::*;

verus! {

/// Why a value could not be written.
#[derive(Debug)]
pub enum SerializeErr {
    /// A secondary text encoding of the value failed.
    FailedJsonEncode(String),
    /// The value breaks a rule of the wire format.
    CannotSerialize(String),
}

pub type SerializeResult = Result<(), SerializeErr>;

/// An append-only byte sink.
pub trait Serializer: Sized {
    /// Everything the sink has taken so far, in order.
    spec fn written(&self) -> Seq<u8>;

    /// Holds of a sink that takes every write offered to it from now on.
    spec fn infallible(&self) -> bool;

    fn serialize_bytes(&mut self, data: &[u8]) -> (r: SerializeResult)
        ensures
            r is Ok ==> final(self).written() == old(self).written() + data@,
            old(self).infallible() ==> r is Ok && final(self).infallible(),
    ;

    fn serialize_byte(&mut self, byte: u8) -> (r: SerializeResult)
        ensures
            r is Ok ==> final(self).written() == old(self).written().push(byte),
            old(self).infallible() ==> r is Ok && final(self).infallible(),
    {
        let one: [u8; 1] = [byte];
        let r = self.serialize_bytes(one.as_slice());
        proof {
            assert(one@ =~= seq![byte]);
            assert(old(self).written() + seq![byte] =~= old(self).written().push(byte));
        }
        r
    }
}

/// A type with a canonical wire form.
///
/// `encode` gives the bytes of a value; `serializable` says which values have
/// any. Writing succeeds exactly on those, as long as the sink keeps taking
/// bytes.
pub trait Serialize: Sized + DeepView {
    spec fn serializable(v: Self::V) -> bool;

    spec fn encode(v: Self::V) -> Seq<u8>;

    fn mc_serialize<S: Serializer>(&self, to: &mut S) -> (r: SerializeResult)
        ensures
            r is Ok ==> Self::serializable(self.deep_view()) && final(to).written() == old(
                to,
            ).written() + Self::encode(self.deep_view()),
            old(to).infallible() ==> final(to).infallible(),
            old(to).infallible() ==> (r is Ok <==> Self::serializable(self.deep_view())),
            old(to).infallible() && r is Err ==> (r matches Err(SerializeErr::CannotSerialize(_))),
    ;
}

/// Writes `other` to `to` in its wire form.
pub fn serialize_other<S: Serializer, T: Serialize>(to: &mut S, other: &T) -> (r: SerializeResult)
    ensures
        r is Ok ==> T::serializable(other.deep_view()) && final(to).written() == old(to).written()
            + T::encode(other.deep_view()),
        old(to).infallible() ==> final(to).infallible(),
        old(to).infallible() ==> (r is Ok <==> T::serializable(other.deep_view())),
        old(to).infallible() && r is Err ==> (r matches Err(SerializeErr::CannotSerialize(_))),
{
    other.mc_serialize(to)
}

} // verus!
