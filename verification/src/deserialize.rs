use vstd::prelude::*;

verus! {

#[verifier::external_type_specification]
#[verifier::external_body]
pub struct ExFromUtf8Error(std::string::FromUtf8Error);

/// Why a decode stopped.
#[derive(Debug)]
pub enum DeserializeErr {
    /// The input ended before the value did.
    Eof,
    /// A variable-length integer ran past its byte budget; holds the bytes read.
    VarNumTooLong(Vec<u8>),
    /// A length prefix was below zero.
    NegativeLength(i32),
    /// The bytes of a string were not UTF-8.
    BadStringEncoding(std::string::FromUtf8Error),
    /// A boolean byte was neither 0 nor 1.
    InvalidBool(u8),
    NbtUnknownTagType(u8),
    NbtBadLength(isize),
    NbtInvalidStartTag(u8),
    CannotUnderstandValue(String),
    FailedJsonDeserialize(String),
}

/// The mathematical content of a [`DeserializeErr`].
pub enum DecodeFailure {
    Eof,
    VarNumTooLong(Seq<u8>),
    NegativeLength(i32),
    BadStringEncoding,
    InvalidBool(u8),
    NbtUnknownTagType(u8),
    NbtBadLength(int),
    NbtInvalidStartTag(u8),
    CannotUnderstandValue,
    FailedJsonDeserialize,
}

impl View for DeserializeErr {
    type V = DecodeFailure;

    open spec fn view(&self) -> DecodeFailure {
        match self {
            DeserializeErr::Eof => DecodeFailure::Eof,
            DeserializeErr::VarNumTooLong(bytes) => DecodeFailure::VarNumTooLong(bytes@),
            DeserializeErr::NegativeLength(n) => DecodeFailure::NegativeLength(*n),
            DeserializeErr::BadStringEncoding(_) => DecodeFailure::BadStringEncoding,
            DeserializeErr::InvalidBool(b) => DecodeFailure::InvalidBool(*b),
            DeserializeErr::NbtUnknownTagType(t) => DecodeFailure::NbtUnknownTagType(*t),
            DeserializeErr::NbtBadLength(n) => DecodeFailure::NbtBadLength(*n as int),
            DeserializeErr::NbtInvalidStartTag(t) => DecodeFailure::NbtInvalidStartTag(*t),
            DeserializeErr::CannotUnderstandValue(_) => DecodeFailure::CannotUnderstandValue,
            DeserializeErr::FailedJsonDeserialize(_) => DecodeFailure::FailedJsonDeserialize,
        }
    }
}

/// A decoded value and the input that follows it.
pub struct Deserialized<'b, R> {
    pub value: R,
    pub data: &'b [u8],
}

pub type DeserializeResult<'b, R> = Result<Deserialized<'b, R>, DeserializeErr>;

/// What a decoder owes on an input: a value and the number of bytes it takes
/// up, or the reason there is none.
pub type Decoded<V> = Result<(V, nat), DecodeFailure>;

/// `r` is the outcome `expect` on the input `data`: the same value, with the
/// unconsumed suffix of `data` left over, or the same failure.
pub open spec fn agrees<'b, R: DeepView>(
    r: DeserializeResult<'b, R>,
    data: Seq<u8>,
    expect: Decoded<R::V>,
) -> bool {
    match r {
        Ok(d) => expect matches Ok((v, n)) && d.value.deep_view() == v && n <= data.len()
            && d.data@ == data.skip(n as int),
        Err(e) => expect matches Err(f) && e@ == f,
    }
}

impl<'b, R> Deserialized<'b, R> {
    pub fn create(value: R, data: &'b [u8]) -> (r: Self)
        ensures
            r.value == value,
            r.data == data,
    {
        Deserialized { value, data }
    }

    pub fn ok(value: R, rest: &'b [u8]) -> (r: DeserializeResult<'b, R>)
        ensures
            r matches Ok(d) && d.value == value && d.data == rest,
    {
        Ok(Self::create(value, rest))
    }

    pub fn replace<T>(self, other: T) -> (r: Deserialized<'b, T>)
        ensures
            r.value == other,
            r.data == self.data,
    {
        Deserialized { value: other, data: self.data }
    }

    pub fn map<F, T>(self, f: F) -> (r: Deserialized<'b, T>) where F: FnOnce(R) -> T
        requires
            f.requires((self.value,)),
        ensures
            f.ensures((self.value,), r.value),
            r.data == self.data,
    {
        Deserialized { value: f(self.value), data: self.data }
    }

    pub fn try_map<F, T>(self, f: F) -> (r: DeserializeResult<'b, T>) where
        F: FnOnce(R) -> Result<T, DeserializeErr>,

        requires
            f.requires((self.value,)),
        ensures
            match r {
                Ok(d) => f.ensures((self.value,), Ok(d.value)) && d.data == self.data,
                Err(e) => f.ensures((self.value,), Err(e)),
            },
    {
        match f(self.value) {
            Ok(new_value) => Ok(Deserialized { value: new_value, data: self.data }),
            Err(err) => Err(err),
        }
    }

    pub fn and_then<F, T>(self, f: F) -> (r: DeserializeResult<'b, T>) where
        F: FnOnce(R, &'b [u8]) -> DeserializeResult<'b, T>,

        requires
            f.requires((self.value, self.data)),
        ensures
            f.ensures((self.value, self.data), r),
    {
        f(self.value, self.data)
    }
}

impl<'b, R> From<(R, &'b [u8])> for Deserialized<'b, R> {
    fn from(v: (R, &'b [u8])) -> (r: Self) {
        let (value, data) = v;
        Deserialized { value, data }
    }
}

impl<'b, R> vstd::std_specs::convert::FromSpecImpl<(R, &'b [u8])> for Deserialized<'b, R> {
    open spec fn obeys_from_spec() -> bool {
        true
    }

    open spec fn from_spec(v: (R, &'b [u8])) -> Self {
        Deserialized { value: v.0, data: v.1 }
    }
}

/// A type that can be read off the front of a byte slice.
///
/// `decode` is the mathematical parser; `mc_deserialize` computes it, handing
/// back the unconsumed suffix so that callers can chain reads.
pub trait Deserialize: Sized + DeepView {
    spec fn decode(data: Seq<u8>) -> Decoded<Self::V>;

    fn mc_deserialize(data: &[u8]) -> (r: DeserializeResult<'_, Self>)
        ensures
            agrees(r, data@, Self::decode(data@)),
    ;
}

} // verus!
