//! The governance packet: the target chain and one of four actions on the
//! core bridge, with the errors that decoding one can end in.
use vstd::prelude::*;

use crate::primitives::{Address, Amount, Chain, GuardianSetInfo};

verus! {

/// The tag that scopes a packet to the core bridge: "Core", right-justified
/// in 32 bytes.
pub const MODULE: [u8; 32] = [
    0x00, 0x00, 0x00, 0x00, 0x00, 0x00, 0x00, 0x00, 0x00, 0x00, 0x00, 0x00, 0x00, 0x00, 0x00,
    0x00, 0x00, 0x00, 0x00, 0x00, 0x00, 0x00, 0x00, 0x00, 0x00, 0x00, 0x00, 0x00, 0x43, 0x6f,
    0x72, 0x65,
];

/// The module tag as a sequence of bytes.
pub open spec fn module_tag() -> Seq<u8> {
    seq![
        0u8, 0, 0, 0, 0, 0, 0, 0, 0, 0, 0, 0, 0, 0, 0, 0, 0, 0, 0, 0, 0, 0, 0, 0, 0, 0, 0, 0,
        0x43, 0x6f, 0x72, 0x65,
    ]
}

/// A governance action targeted at the core bridge itself.
#[derive(Clone, Debug, PartialEq, Eq, PartialOrd, Ord, Hash)]
pub enum Action {
    ContractUpgrade { new_contract: Address },
    GuardianSetUpgrade { new_guardian_set_index: u32, new_guardian_set: GuardianSetInfo },
    SetFee { amount: Amount },
    TransferFee { amount: Amount, recipient: Address },
}

/// What an action holds: byte strings for addresses and amounts, and the
/// guardian addresses in order.
pub enum ActionView {
    ContractUpgrade { new_contract: Seq<u8> },
    GuardianSetUpgrade { new_guardian_set_index: u32, new_guardian_set: Seq<Seq<u8>> },
    SetFee { amount: Seq<u8> },
    TransferFee { amount: Seq<u8>, recipient: Seq<u8> },
}

impl View for Action {
    type V = ActionView;

    open spec fn view(&self) -> ActionView {
        match self {
            Action::ContractUpgrade { new_contract } => ActionView::ContractUpgrade {
                new_contract: new_contract@,
            },
            Action::GuardianSetUpgrade { new_guardian_set_index, new_guardian_set } =>
                ActionView::GuardianSetUpgrade {
                new_guardian_set_index: *new_guardian_set_index,
                new_guardian_set: new_guardian_set@,
            },
            Action::SetFee { amount } => ActionView::SetFee { amount: amount@ },
            Action::TransferFee { amount, recipient } => ActionView::TransferFee {
                amount: amount@,
                recipient: recipient@,
            },
        }
    }
}

/// The discriminant that selects an action's payload shape on the wire.
pub open spec fn action_tag(a: ActionView) -> u8 {
    match a {
        ActionView::ContractUpgrade { .. } => 1,
        ActionView::GuardianSetUpgrade { .. } => 2,
        ActionView::SetFee { .. } => 3,
        ActionView::TransferFee { .. } => 4,
    }
}

/// Whether a discriminant selects one of the four actions.
pub open spec fn is_action_tag(t: u8) -> bool {
    1 <= t <= 4
}

impl Action {
    /// The discriminant of this action.
    pub fn tag(&self) -> (r: u8)
        ensures
            r == action_tag(self@),
    {
        match self {
            Action::ContractUpgrade { .. } => 1,
            Action::GuardianSetUpgrade { .. } => 2,
            Action::SetFee { .. } => 3,
            Action::TransferFee { .. } => 4,
        }
    }

    /// A copy of this action.
    pub fn duplicate(&self) -> (r: Action)
        ensures
            r@ == self@,
    {
        match self {
            Action::ContractUpgrade { new_contract } => Action::ContractUpgrade {
                new_contract: *new_contract,
            },
            Action::GuardianSetUpgrade { new_guardian_set_index, new_guardian_set } =>
                Action::GuardianSetUpgrade {
                new_guardian_set_index: *new_guardian_set_index,
                new_guardian_set: new_guardian_set.duplicate(),
            },
            Action::SetFee { amount } => Action::SetFee { amount: *amount },
            Action::TransferFee { amount, recipient } => Action::TransferFee {
                amount: *amount,
                recipient: *recipient,
            },
        }
    }
}

/// The payload of a governance message for the core bridge.
#[derive(Clone, Debug, PartialEq, Eq, PartialOrd, Ord, Hash)]
pub struct GovernancePacket {
    /// The chain on which the action is carried out.
    pub chain: Chain,
    /// The action to carry out.
    pub action: Action,
}

/// What a governance packet holds.
pub struct PacketView {
    pub chain: Chain,
    pub action: ActionView,
}

impl View for GovernancePacket {
    type V = PacketView;

    open spec fn view(&self) -> PacketView {
        PacketView { chain: self.chain, action: self.action@ }
    }
}

/// The names of the fields that the self-describing form carries, at the
/// packet's level and inside its payload.
#[derive(Clone, Copy, Debug, PartialEq, Eq, Hash)]
pub enum FieldName {
    Module,
    Action,
    Chain,
    Payload,
    NewContract,
    NewGuardianSetIndex,
    NewGuardianSet,
    Amount,
    Recipient,
}

/// Why a packet could not be decoded.
#[derive(Clone, Copy, Debug, PartialEq, Eq, Hash)]
pub enum DecodeError {
    /// The module tag is present and is not the core bridge's.
    ModuleMismatch,
    /// The discriminant selects none of the four actions.
    UnknownActionTag(u8),
    /// The sequential form ended before the element at this position
    /// (0: module, 1: action, 2: chain, 3: payload) was complete.
    Truncated(usize),
    /// The self-describing form named this field twice.
    DuplicateField(FieldName),
    /// The self-describing form gave the payload before the action.
    OutOfOrderPayload,
    /// The self-describing form ended without this field.
    MissingField(FieldName),
}

impl FieldName {
    /// The field's name on the wire.
    pub fn as_str(&self) -> (r: &'static str)
        ensures
            *self == FieldName::Module ==> r@ == "module"@,
            *self == FieldName::Action ==> r@ == "action"@,
            *self == FieldName::Chain ==> r@ == "chain"@,
            *self == FieldName::Payload ==> r@ == "payload"@,
            *self == FieldName::NewContract ==> r@ == "new_contract"@,
            *self == FieldName::NewGuardianSetIndex ==> r@ == "new_guardian_set_index"@,
            *self == FieldName::NewGuardianSet ==> r@ == "new_guardian_set"@,
            *self == FieldName::Amount ==> r@ == "amount"@,
            *self == FieldName::Recipient ==> r@ == "recipient"@,
    {
        match self {
            FieldName::Module => "module",
            FieldName::Action => "action",
            FieldName::Chain => "chain",
            FieldName::Payload => "payload",
            FieldName::NewContract => "new_contract",
            FieldName::NewGuardianSetIndex => "new_guardian_set_index",
            FieldName::NewGuardianSet => "new_guardian_set",
            FieldName::Amount => "amount",
            FieldName::Recipient => "recipient",
        }
    }
}

impl DecodeError {
    /// A sentence that says what went wrong.
    pub fn message(&self) -> (r: &'static str)
        ensures
            *self == DecodeError::ModuleMismatch ==> r@
                == "invalid governance module, expected \"Core\""@,
            *self == DecodeError::OutOfOrderPayload ==> r@
                == "`action` must be known before deserializing `payload`"@,
    {
        match self {
            DecodeError::ModuleMismatch => "invalid governance module, expected \"Core\"",
            DecodeError::UnknownActionTag(_) => "invalid action, expected one of 1, 2, 3, 4",
            DecodeError::Truncated(0) => "input ended within the module tag",
            DecodeError::Truncated(1) => "input ended before the action",
            DecodeError::Truncated(2) => "input ended within the chain",
            DecodeError::Truncated(_) => "input ended within the payload",
            DecodeError::DuplicateField(_) => "duplicate field",
            DecodeError::OutOfOrderPayload => "`action` must be known before deserializing `payload`",
            DecodeError::MissingField(_) => "missing field",
        }
    }
}

} // verus!
