//! A binary wire codec for a versioned game network protocol: fixed-width and
//! variable-length integers, length-prefixed strings, a recursive tagged tree
//! format, and the packet identities that select a body layout.
//!
//! Every encoder is specified by a function from a mathematical value to a
//! byte sequence, every decoder by a function from a byte sequence to a value
//! and a consumed length (or a failure), and the two are proved inverse on the
//! values each type declares valid.

pub mod byte_order;
pub mod chat;
pub mod deserialize;
pub mod nbt;
pub mod protocol;
pub mod serialize;
pub mod status;
pub mod types;
pub mod utils;
pub mod uuid;
pub mod v1_15_2;
pub mod v1_16_3;
pub mod varnum;

pub use deserialize::{DecodeFailure, Deserialize, DeserializeErr, DeserializeResult, Deserialized};
pub use serialize::{Serialize, SerializeErr, SerializeResult, Serializer};
