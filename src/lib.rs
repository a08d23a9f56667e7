//! Codec for governance packets of the core bridge: the payload of a signed
//! cross-chain message that upgrades the core contract, rotates its guardian
//! set, or sets and transfers fees. A packet has a sequential byte form and
//! a self-describing form of named fields; both are decoded and encoded here
//! with contracts over a mathematical model of the packet.
pub mod named;
pub mod packet;
pub mod primitives;
pub mod sequential;

pub use named::{decode_named, encode_named, NamedDecoder, NamedField, PayloadField};
pub use packet::{Action, DecodeError, FieldName, GovernancePacket, MODULE};
pub use primitives::{Address, Amount, Chain, GuardianAddress, GuardianSetInfo};
pub use sequential::{decode_sequential, encode_sequential};
