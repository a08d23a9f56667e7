//! The self-describing form: a record of named fields (`module`, `action`,
//! `chain`, `payload`) that may come in any order, where the payload's shape
//! depends on the action that came before it.
use vstd::prelude::*;

use crate::packet::{
    action_tag, is_action_tag, module_tag, Action, ActionView, DecodeError, FieldName,
    GovernancePacket, PacketView, MODULE,
};
use crate::primitives::{Address, Amount, Chain, GuardianSetInfo};
use crate::sequential::starts_with_module;

verus! {

/// One field of a payload record.
#[derive(Clone, Debug, PartialEq, Eq)]
pub enum PayloadField {
    NewContract(Address),
    NewGuardianSetIndex(u32),
    NewGuardianSet(GuardianSetInfo),
    Amount(Amount),
    Recipient(Address),
}

/// What a payload field holds.
pub enum PayloadFieldView {
    NewContract(Seq<u8>),
    NewGuardianSetIndex(u32),
    NewGuardianSet(Seq<Seq<u8>>),
    Amount(Seq<u8>),
    Recipient(Seq<u8>),
}

impl View for PayloadField {
    type V = PayloadFieldView;

    open spec fn view(&self) -> PayloadFieldView {
        match self {
            PayloadField::NewContract(a) => PayloadFieldView::NewContract(a@),
            PayloadField::NewGuardianSetIndex(i) => PayloadFieldView::NewGuardianSetIndex(*i),
            PayloadField::NewGuardianSet(g) => PayloadFieldView::NewGuardianSet(g@),
            PayloadField::Amount(a) => PayloadFieldView::Amount(a@),
            PayloadField::Recipient(a) => PayloadFieldView::Recipient(a@),
        }
    }
}

/// What each field of a payload record holds, in order.
pub open spec fn payload_views(s: Seq<PayloadField>) -> Seq<PayloadFieldView> {
    Seq::new(s.len(), |i: int| s[i]@)
}

/// One field of a packet's record.
#[derive(Clone, Debug, PartialEq, Eq)]
pub enum NamedField {
    Module([u8; 32]),
    Action(u8),
    Chain(Chain),
    Payload(Vec<PayloadField>),
}

/// What a packet's field holds.
pub enum NamedFieldView {
    Module(Seq<u8>),
    Action(u8),
    Chain(Chain),
    Payload(Seq<PayloadFieldView>),
}

impl View for NamedField {
    type V = NamedFieldView;

    open spec fn view(&self) -> NamedFieldView {
        match self {
            NamedField::Module(m) => NamedFieldView::Module(m@),
            NamedField::Action(t) => NamedFieldView::Action(*t),
            NamedField::Chain(c) => NamedFieldView::Chain(*c),
            NamedField::Payload(r) => NamedFieldView::Payload(payload_views(r@)),
        }
    }
}

/// What each field of a packet's record holds, in order.
pub open spec fn named_views(s: Seq<NamedField>) -> Seq<NamedFieldView> {
    Seq::new(s.len(), |i: int| s[i]@)
}

/// The name of a payload field.
pub open spec fn payload_field_name(f: PayloadFieldView) -> FieldName {
    match f {
        PayloadFieldView::NewContract(_) => FieldName::NewContract,
        PayloadFieldView::NewGuardianSetIndex(_) => FieldName::NewGuardianSetIndex,
        PayloadFieldView::NewGuardianSet(_) => FieldName::NewGuardianSet,
        PayloadFieldView::Amount(_) => FieldName::Amount,
        PayloadFieldView::Recipient(_) => FieldName::Recipient,
    }
}

/// Whether the payload shape that `tag` selects has a field of this name.
pub open spec fn shape_has(tag: u8, n: FieldName) -> bool {
    ||| tag == 1 && n == FieldName::NewContract
    ||| tag == 2 && (n == FieldName::NewGuardianSetIndex || n == FieldName::NewGuardianSet)
    ||| tag == 3 && n == FieldName::Amount
    ||| tag == 4 && (n == FieldName::Amount || n == FieldName::Recipient)
}

/// The payload fields read so far.
pub struct PayloadSlots {
    pub new_contract: Option<Seq<u8>>,
    pub new_guardian_set_index: Option<u32>,
    pub new_guardian_set: Option<Seq<Seq<u8>>>,
    pub amount: Option<Seq<u8>>,
    pub recipient: Option<Seq<u8>>,
}

/// No payload field read yet.
pub open spec fn empty_slots() -> PayloadSlots {
    PayloadSlots {
        new_contract: None,
        new_guardian_set_index: None,
        new_guardian_set: None,
        amount: None,
        recipient: None,
    }
}

/// Takes one payload field: one outside the shape is passed over, one that
/// the shape has is kept unless it came before.
pub open spec fn slots_step(tag: u8, s: PayloadSlots, f: PayloadFieldView) -> Result<
    PayloadSlots,
    DecodeError,
> {
    if !shape_has(tag, payload_field_name(f)) {
        Ok(s)
    } else {
        match f {
            PayloadFieldView::NewContract(v) => if s.new_contract is Some {
                Err(DecodeError::DuplicateField(FieldName::NewContract))
            } else {
                Ok(PayloadSlots { new_contract: Some(v), ..s })
            },
            PayloadFieldView::NewGuardianSetIndex(v) => if s.new_guardian_set_index is Some {
                Err(DecodeError::DuplicateField(FieldName::NewGuardianSetIndex))
            } else {
                Ok(PayloadSlots { new_guardian_set_index: Some(v), ..s })
            },
            PayloadFieldView::NewGuardianSet(v) => if s.new_guardian_set is Some {
                Err(DecodeError::DuplicateField(FieldName::NewGuardianSet))
            } else {
                Ok(PayloadSlots { new_guardian_set: Some(v), ..s })
            },
            PayloadFieldView::Amount(v) => if s.amount is Some {
                Err(DecodeError::DuplicateField(FieldName::Amount))
            } else {
                Ok(PayloadSlots { amount: Some(v), ..s })
            },
            PayloadFieldView::Recipient(v) => if s.recipient is Some {
                Err(DecodeError::DuplicateField(FieldName::Recipient))
            } else {
                Ok(PayloadSlots { recipient: Some(v), ..s })
            },
        }
    }
}

/// Takes the payload fields in order, stopping at the first error.
pub open spec fn slots_run(tag: u8, fs: Seq<PayloadFieldView>) -> Result<PayloadSlots, DecodeError>
    decreases fs.len(),
{
    if fs.len() == 0 {
        Ok(empty_slots())
    } else {
        match slots_run(tag, fs.drop_last()) {
            Ok(s) => slots_step(tag, s, fs.last()),
            Err(e) => Err(e),
        }
    }
}

/// The action that the kept fields make, or the first field of the shape,
/// in declaration order, that is missing.
pub open spec fn slots_finish(tag: u8, s: PayloadSlots) -> Result<ActionView, DecodeError> {
    if tag == 1 {
        match s.new_contract {
            Some(c) => Ok(ActionView::ContractUpgrade { new_contract: c }),
            None => Err(DecodeError::MissingField(FieldName::NewContract)),
        }
    } else if tag == 2 {
        match (s.new_guardian_set_index, s.new_guardian_set) {
            (Some(i), Some(g)) => Ok(
                ActionView::GuardianSetUpgrade { new_guardian_set_index: i, new_guardian_set: g },
            ),
            (None, _) => Err(DecodeError::MissingField(FieldName::NewGuardianSetIndex)),
            (Some(_), None) => Err(DecodeError::MissingField(FieldName::NewGuardianSet)),
        }
    } else if tag == 3 {
        match s.amount {
            Some(a) => Ok(ActionView::SetFee { amount: a }),
            None => Err(DecodeError::MissingField(FieldName::Amount)),
        }
    } else {
        match (s.amount, s.recipient) {
            (Some(a), Some(r)) => Ok(ActionView::TransferFee { amount: a, recipient: r }),
            (None, _) => Err(DecodeError::MissingField(FieldName::Amount)),
            (Some(_), None) => Err(DecodeError::MissingField(FieldName::Recipient)),
        }
    }
}

/// Reads a payload record in the shape that the discriminant `tag` selects.
pub open spec fn parse_shape(tag: u8, fs: Seq<PayloadFieldView>) -> Result<ActionView, DecodeError> {
    if !is_action_tag(tag) {
        Err(DecodeError::UnknownActionTag(tag))
    } else {
        match slots_run(tag, fs) {
            Ok(s) => slots_finish(tag, s),
            Err(e) => Err(e),
        }
    }
}

/// The payload record of an action: its fields in declaration order.
pub open spec fn payload_record(a: ActionView) -> Seq<PayloadFieldView> {
    match a {
        ActionView::ContractUpgrade { new_contract } => seq![
            PayloadFieldView::NewContract(new_contract),
        ],
        ActionView::GuardianSetUpgrade { new_guardian_set_index, new_guardian_set } => seq![
            PayloadFieldView::NewGuardianSetIndex(new_guardian_set_index),
            PayloadFieldView::NewGuardianSet(new_guardian_set),
        ],
        ActionView::SetFee { amount } => seq![PayloadFieldView::Amount(amount)],
        ActionView::TransferFee { amount, recipient } => seq![
            PayloadFieldView::Amount(amount),
            PayloadFieldView::Recipient(recipient),
        ],
    }
}

/// The payload fields read so far, while a record is read.
struct Slots {
    new_contract: Option<Address>,
    new_guardian_set_index: Option<u32>,
    new_guardian_set: Option<GuardianSetInfo>,
    amount: Option<Amount>,
    recipient: Option<Address>,
}

impl View for Slots {
    type V = PayloadSlots;

    closed spec fn view(&self) -> PayloadSlots {
        PayloadSlots {
            new_contract: match self.new_contract {
                Some(a) => Some(a@),
                None => None,
            },
            new_guardian_set_index: self.new_guardian_set_index,
            new_guardian_set: match self.new_guardian_set {
                Some(g) => Some(g@),
                None => None,
            },
            amount: match self.amount {
                Some(a) => Some(a@),
                None => None,
            },
            recipient: match self.recipient {
                Some(a) => Some(a@),
                None => None,
            },
        }
    }
}

/// Takes one payload field into `slots`.
fn take_payload_field(tag: u8, slots: &mut Slots, f: &PayloadField) -> (r: Result<(), DecodeError>)
    ensures
        match r {
            Ok(()) => slots_step(tag, old(slots)@, f@) == Ok::<PayloadSlots, DecodeError>(
                final(slots)@,
            ),
            Err(e) => slots_step(tag, old(slots)@, f@) == Err::<PayloadSlots, DecodeError>(e),
        },
{
    match f {
        PayloadField::NewContract(v) => {
            if tag == 1 {
                if slots.new_contract.is_some() {
                    return Err(DecodeError::DuplicateField(FieldName::NewContract));
                }
                slots.new_contract = Some(*v);
            }
        },
        PayloadField::NewGuardianSetIndex(v) => {
            if tag == 2 {
                if slots.new_guardian_set_index.is_some() {
                    return Err(DecodeError::DuplicateField(FieldName::NewGuardianSetIndex));
                }
                slots.new_guardian_set_index = Some(*v);
            }
        },
        PayloadField::NewGuardianSet(v) => {
            if tag == 2 {
                if slots.new_guardian_set.is_some() {
                    return Err(DecodeError::DuplicateField(FieldName::NewGuardianSet));
                }
                slots.new_guardian_set = Some(v.duplicate());
            }
        },
        PayloadField::Amount(v) => {
            if tag == 3 || tag == 4 {
                if slots.amount.is_some() {
                    return Err(DecodeError::DuplicateField(FieldName::Amount));
                }
                slots.amount = Some(*v);
            }
        },
        PayloadField::Recipient(v) => {
            if tag == 4 {
                if slots.recipient.is_some() {
                    return Err(DecodeError::DuplicateField(FieldName::Recipient));
                }
                slots.recipient = Some(*v);
            }
        },
    }
    Ok(())
}

/// The action that the kept fields make.
fn finish_slots(tag: u8, slots: Slots) -> (r: Result<Action, DecodeError>)
    requires
        is_action_tag(tag),
    ensures
        match r {
            Ok(a) => slots_finish(tag, slots@) == Ok::<ActionView, DecodeError>(a@),
            Err(e) => slots_finish(tag, slots@) == Err::<ActionView, DecodeError>(e),
        },
{
    if tag == 1 {
        match slots.new_contract {
            Some(new_contract) => Ok(Action::ContractUpgrade { new_contract }),
            None => Err(DecodeError::MissingField(FieldName::NewContract)),
        }
    } else if tag == 2 {
        match (slots.new_guardian_set_index, slots.new_guardian_set) {
            (Some(new_guardian_set_index), Some(new_guardian_set)) => Ok(
                Action::GuardianSetUpgrade { new_guardian_set_index, new_guardian_set },
            ),
            (None, _) => Err(DecodeError::MissingField(FieldName::NewGuardianSetIndex)),
            (Some(_), None) => Err(DecodeError::MissingField(FieldName::NewGuardianSet)),
        }
    } else if tag == 3 {
        match slots.amount {
            Some(amount) => Ok(Action::SetFee { amount }),
            None => Err(DecodeError::MissingField(FieldName::Amount)),
        }
    } else {
        match (slots.amount, slots.recipient) {
            (Some(amount), Some(recipient)) => Ok(Action::TransferFee { amount, recipient }),
            (None, _) => Err(DecodeError::MissingField(FieldName::Amount)),
            (Some(_), None) => Err(DecodeError::MissingField(FieldName::Recipient)),
        }
    }
}

/// Reads a payload record in the shape that the discriminant `tag` selects.
pub fn decode_shape(tag: u8, record: &Vec<PayloadField>) -> (r: Result<Action, DecodeError>)
    ensures
        match r {
            Ok(a) => parse_shape(tag, payload_views(record@)) == Ok::<ActionView, DecodeError>(a@),
            Err(e) => parse_shape(tag, payload_views(record@)) == Err::<ActionView, DecodeError>(e),
        },
{
    if tag < 1 || tag > 4 {
        return Err(DecodeError::UnknownActionTag(tag));
    }
    let ghost fs = payload_views(record@);
    let mut slots = Slots {
        new_contract: None,
        new_guardian_set_index: None,
        new_guardian_set: None,
        amount: None,
        recipient: None,
    };
    let mut i: usize = 0;
    while i < record.len()
        invariant
            0 <= i <= record@.len(),
            fs == payload_views(record@),
            slots_run(tag, fs.subrange(0, i as int)) == Ok::<PayloadSlots, DecodeError>(slots@),
        decreases record@.len() - i,
    {
        assert(fs.subrange(0, i + 1).drop_last() =~= fs.subrange(0, i as int));
        assert(fs.subrange(0, i + 1).last() == record@[i as int]@);
        let taken = take_payload_field(tag, &mut slots, &record[i]);
        if let Err(e) = taken {
            proof {
                lemma_slots_error_stays(tag, fs, i + 1);
            }
            return Err(e);
        }
        i += 1;
    }
    assert(fs.subrange(0, i as int) =~= fs);
    finish_slots(tag, slots)
}

/// Once a prefix of a payload record fails, the whole record fails the
/// same way.
proof fn lemma_slots_error_stays(tag: u8, fs: Seq<PayloadFieldView>, k: int)
    requires
        0 <= k <= fs.len(),
        slots_run(tag, fs.subrange(0, k)) is Err,
    ensures
        slots_run(tag, fs) == slots_run(tag, fs.subrange(0, k)),
    decreases fs.len(),
{
    if k == fs.len() {
        assert(fs.subrange(0, k) =~= fs);
    } else {
        assert(fs.drop_last().subrange(0, k) =~= fs.subrange(0, k));
        lemma_slots_error_stays(tag, fs.drop_last(), k);
    }
}

/// What the decoder of the self-describing form has seen so far: whether a
/// module tag came, the discriminant, the chain and the decoded payload.
pub struct NamedState {
    pub module_seen: bool,
    pub action: Option<u8>,
    pub chain: Option<Chain>,
    pub payload: Option<ActionView>,
}

/// The state before any field.
pub open spec fn named_start() -> NamedState {
    NamedState { module_seen: false, action: None, chain: None, payload: None }
}

/// Takes one field of a packet's record. A field seen before is refused; a
/// module tag must be the core bridge's; a payload needs the action before
/// it, whose discriminant selects its shape.
pub open spec fn named_step(s: NamedState, f: NamedFieldView) -> Result<NamedState, DecodeError> {
    match f {
        NamedFieldView::Module(m) => if s.module_seen {
            Err(DecodeError::DuplicateField(FieldName::Module))
        } else if m != module_tag() {
            Err(DecodeError::ModuleMismatch)
        } else {
            Ok(NamedState { module_seen: true, ..s })
        },
        NamedFieldView::Action(t) => if s.action is Some {
            Err(DecodeError::DuplicateField(FieldName::Action))
        } else {
            Ok(NamedState { action: Some(t), ..s })
        },
        NamedFieldView::Chain(c) => if s.chain is Some {
            Err(DecodeError::DuplicateField(FieldName::Chain))
        } else {
            Ok(NamedState { chain: Some(c), ..s })
        },
        NamedFieldView::Payload(record) => if s.payload is Some {
            Err(DecodeError::DuplicateField(FieldName::Payload))
        } else {
            match s.action {
                None => Err(DecodeError::OutOfOrderPayload),
                Some(t) => match parse_shape(t, record) {
                    Ok(a) => Ok(NamedState { payload: Some(a), ..s }),
                    Err(e) => Err(e),
                },
            }
        },
    }
}

/// Takes the fields of a packet's record in order, stopping at the first
/// error.
pub open spec fn named_run(fs: Seq<NamedFieldView>) -> Result<NamedState, DecodeError>
    decreases fs.len(),
{
    if fs.len() == 0 {
        Ok(named_start())
    } else {
        match named_run(fs.drop_last()) {
            Ok(s) => named_step(s, fs.last()),
            Err(e) => Err(e),
        }
    }
}

/// The packet once every field was taken: the chain and the payload must
/// have come. The module tag need not.
pub open spec fn named_finish(s: NamedState) -> Result<PacketView, DecodeError> {
    match s.chain {
        None => Err(DecodeError::MissingField(FieldName::Chain)),
        Some(c) => match s.payload {
            None => Err(DecodeError::MissingField(FieldName::Payload)),
            Some(a) => Ok(PacketView { chain: c, action: a }),
        },
    }
}

/// Reads a packet from the fields of its record, in the order given.
pub open spec fn parse_named(fs: Seq<NamedFieldView>) -> Result<PacketView, DecodeError> {
    match named_run(fs) {
        Ok(s) => named_finish(s),
        Err(e) => Err(e),
    }
}

/// The self-describing form of a packet: module, action, chain, payload.
pub open spec fn named_fields(p: PacketView) -> Seq<NamedFieldView> {
    seq![
        NamedFieldView::Module(module_tag()),
        NamedFieldView::Action(action_tag(p.action)),
        NamedFieldView::Chain(p.chain),
        NamedFieldView::Payload(payload_record(p.action)),
    ]
}

/// The decoder of the self-describing form, fed one field at a time.
pub struct NamedDecoder {
    module_seen: bool,
    action: Option<u8>,
    chain: Option<Chain>,
    payload: Option<Action>,
}

impl View for NamedDecoder {
    type V = NamedState;

    closed spec fn view(&self) -> NamedState {
        NamedState {
            module_seen: self.module_seen,
            action: self.action,
            chain: self.chain,
            payload: match self.payload {
                Some(a) => Some(a@),
                None => None,
            },
        }
    }
}

impl NamedDecoder {
    /// A decoder that has seen no field.
    pub fn new() -> (r: NamedDecoder)
        ensures
            r@ == named_start(),
    {
        NamedDecoder { module_seen: false, action: None, chain: None, payload: None }
    }

    /// Takes one field: the decoder that follows, or why the record is
    /// refused.
    pub fn step(self, f: &NamedField) -> (r: Result<NamedDecoder, DecodeError>)
        ensures
            match r {
                Ok(d) => named_step(self@, f@) == Ok::<NamedState, DecodeError>(d@),
                Err(e) => named_step(self@, f@) == Err::<NamedState, DecodeError>(e),
            },
    {
        if let NamedField::Module(m) = f {
            assert(m@.subrange(0, 32) =~= m@);
        }
        match f {
            NamedField::Module(m) => {
                if self.module_seen {
                    Err(DecodeError::DuplicateField(FieldName::Module))
                } else if !starts_with_module(m.as_slice()) {
                    Err(DecodeError::ModuleMismatch)
                } else {
                    Ok(
                        NamedDecoder {
                            module_seen: true,
                            action: self.action,
                            chain: self.chain,
                            payload: self.payload,
                        },
                    )
                }
            },
            NamedField::Action(t) => {
                if self.action.is_some() {
                    Err(DecodeError::DuplicateField(FieldName::Action))
                } else {
                    Ok(
                        NamedDecoder {
                            module_seen: self.module_seen,
                            action: Some(*t),
                            chain: self.chain,
                            payload: self.payload,
                        },
                    )
                }
            },
            NamedField::Chain(c) => {
                if self.chain.is_some() {
                    Err(DecodeError::DuplicateField(FieldName::Chain))
                } else {
                    Ok(
                        NamedDecoder {
                            module_seen: self.module_seen,
                            action: self.action,
                            chain: Some(*c),
                            payload: self.payload,
                        },
                    )
                }
            },
            NamedField::Payload(record) => {
                if self.payload.is_some() {
                    return Err(DecodeError::DuplicateField(FieldName::Payload));
                }
                match self.action {
                    None => Err(DecodeError::OutOfOrderPayload),
                    Some(t) => match decode_shape(t, record) {
                        Ok(a) => Ok(
                            NamedDecoder {
                                module_seen: self.module_seen,
                                action: self.action,
                                chain: self.chain,
                                payload: Some(a),
                            },
                        ),
                        Err(e) => Err(e),
                    },
                }
            },
        }
    }

    /// The packet, once every field was taken.
    pub fn finish(self) -> (r: Result<GovernancePacket, DecodeError>)
        ensures
            match r {
                Ok(p) => named_finish(self@) == Ok::<PacketView, DecodeError>(p@),
                Err(e) => named_finish(self@) == Err::<PacketView, DecodeError>(e),
            },
    {
        match self.chain {
            None => Err(DecodeError::MissingField(FieldName::Chain)),
            Some(chain) => match self.payload {
                None => Err(DecodeError::MissingField(FieldName::Payload)),
                Some(action) => Ok(GovernancePacket { chain, action }),
            },
        }
    }
}

/// Once a prefix of a packet's record fails, the whole record fails the
/// same way.
pub proof fn lemma_named_error_stays(fs: Seq<NamedFieldView>, k: int)
    requires
        0 <= k <= fs.len(),
        named_run(fs.subrange(0, k)) is Err,
    ensures
        named_run(fs) == named_run(fs.subrange(0, k)),
    decreases fs.len(),
{
    if k == fs.len() {
        assert(fs.subrange(0, k) =~= fs);
    } else {
        assert(fs.drop_last().subrange(0, k) =~= fs.subrange(0, k));
        lemma_named_error_stays(fs.drop_last(), k);
    }
}

/// Decodes a packet from the fields of its self-describing record, in the
/// order given.
pub fn decode_named(fields: &Vec<NamedField>) -> (r: Result<GovernancePacket, DecodeError>)
    ensures
        match r {
            Ok(p) => parse_named(named_views(fields@)) == Ok::<PacketView, DecodeError>(p@),
            Err(e) => parse_named(named_views(fields@)) == Err::<PacketView, DecodeError>(e),
        },
{
    let ghost fs = named_views(fields@);
    let mut decoder = NamedDecoder::new();
    let mut i: usize = 0;
    while i < fields.len()
        invariant
            0 <= i <= fields@.len(),
            fs == named_views(fields@),
            named_run(fs.subrange(0, i as int)) == Ok::<NamedState, DecodeError>(decoder@),
        decreases fields@.len() - i,
    {
        assert(fs.subrange(0, i + 1).drop_last() =~= fs.subrange(0, i as int));
        assert(fs.subrange(0, i + 1).last() == fields@[i as int]@);
        match decoder.step(&fields[i]) {
            Ok(d) => {
                decoder = d;
            },
            Err(e) => {
                proof {
                    lemma_named_error_stays(fs, i + 1);
                }
                return Err(e);
            },
        }
        i += 1;
    }
    assert(fs.subrange(0, i as int) =~= fs);
    decoder.finish()
}

/// The payload record of an action.
fn payload_record_of(a: &Action) -> (r: Vec<PayloadField>)
    ensures
        payload_views(r@) == payload_record(a@),
{
    let r = match a {
        Action::ContractUpgrade { new_contract } => vec![PayloadField::NewContract(*new_contract)],
        Action::GuardianSetUpgrade { new_guardian_set_index, new_guardian_set } => vec![
            PayloadField::NewGuardianSetIndex(*new_guardian_set_index),
            PayloadField::NewGuardianSet(new_guardian_set.duplicate()),
        ],
        Action::SetFee { amount } => vec![PayloadField::Amount(*amount)],
        Action::TransferFee { amount, recipient } => vec![
            PayloadField::Amount(*amount),
            PayloadField::Recipient(*recipient),
        ],
    };
    assert(payload_views(r@) =~= payload_record(a@));
    r
}

/// Encodes a packet in the self-describing form: the fields `module`,
/// `action`, `chain` and `payload`, in that order.
pub fn encode_named(p: &GovernancePacket) -> (r: Vec<NamedField>)
    ensures
        named_views(r@) == named_fields(p@),
{
    let r = vec![
        NamedField::Module(MODULE),
        NamedField::Action(p.action.tag()),
        NamedField::Chain(p.chain),
        NamedField::Payload(payload_record_of(&p.action)),
    ];
    assert(MODULE@ == module_tag());
    assert(named_views(r@) =~= named_fields(p@));
    r
}

/// Reading the payload record of an action, under its discriminant, gives
/// the action back.
pub proof fn lemma_shape_round_trip(a: ActionView)
    ensures
        parse_shape(action_tag(a), payload_record(a)) == Ok::<ActionView, DecodeError>(a),
{
    let fs = payload_record(a);
    let tag = action_tag(a);
    reveal_with_fuel(slots_run, 3);
    if fs.len() == 1 {
        assert(fs.drop_last() =~= Seq::<PayloadFieldView>::empty());
    } else {
        assert(fs.drop_last().drop_last() =~= Seq::<PayloadFieldView>::empty());
        assert(fs.drop_last() =~= seq![fs[0]]);
    }
}

/// Decoding the self-describing form of a packet gives the packet back.
pub proof fn lemma_named_round_trip(p: PacketView)
    ensures
        parse_named(named_fields(p)) == Ok::<PacketView, DecodeError>(p),
{
    let fs = named_fields(p);
    lemma_shape_round_trip(p.action);
    reveal_with_fuel(named_run, 5);
    assert(fs.drop_last().drop_last().drop_last().drop_last() =~= Seq::<
        NamedFieldView,
    >::empty());
    assert(fs.drop_last().drop_last().drop_last() =~= seq![fs[0]]);
    assert(fs.drop_last().drop_last() =~= seq![fs[0], fs[1]]);
    assert(fs.drop_last() =~= seq![fs[0], fs[1], fs[2]]);
}

/// A record whose chain comes before its action decodes as the one whose
/// action comes before its chain, the payload following both.
pub proof fn lemma_chain_action_order(t: u8, c: Chain, record: Seq<PayloadFieldView>)
    ensures
        parse_named(
            seq![
                NamedFieldView::Chain(c),
                NamedFieldView::Action(t),
                NamedFieldView::Payload(record),
            ],
        ) == parse_named(
            seq![
                NamedFieldView::Action(t),
                NamedFieldView::Chain(c),
                NamedFieldView::Payload(record),
            ],
        ),
{
    let f1 = seq![NamedFieldView::Chain(c), NamedFieldView::Action(t), NamedFieldView::Payload(record)];
    let f2 = seq![NamedFieldView::Action(t), NamedFieldView::Chain(c), NamedFieldView::Payload(record)];
    assert(f1.drop_last().drop_last().drop_last() =~= Seq::<NamedFieldView>::empty());
    assert(f1.drop_last().drop_last() =~= seq![f1[0]]);
    assert(f1.drop_last() =~= seq![f1[0], f1[1]]);
    assert(f2.drop_last().drop_last().drop_last() =~= Seq::<NamedFieldView>::empty());
    assert(f2.drop_last().drop_last() =~= seq![f2[0]]);
    assert(f2.drop_last() =~= seq![f2[0], f2[1]]);
    reveal_with_fuel(named_run, 4);
    assert(named_run(f1.drop_last()) == named_run(f2.drop_last()));
}

/// In every state that a record reaches, a discriminant is held exactly when
/// an action field came, and a payload only after one.
pub proof fn lemma_named_run_state(fs: Seq<NamedFieldView>)
    ensures
        named_run(fs) matches Ok(s) ==> {
            &&& (s.action is Some <==> exists|k: int| 0 <= k < fs.len() && #[trigger] fs[k] is Action)
            &&& (s.payload is Some ==> s.action is Some)
        },
    decreases fs.len(),
{
    if fs.len() > 0 {
        let init = fs.drop_last();
        lemma_named_run_state(init);
        if named_run(fs) is Ok {
            let s = named_run(fs)->Ok_0;
            let s0 = named_run(init)->Ok_0;
            if s0.action is Some {
                let k = choose|k: int| 0 <= k < init.len() && #[trigger] init[k] is Action;
                assert(fs[k] is Action);
            }
            if s.action is Some && !(fs.last() is Action) {
                let k = choose|k: int| 0 <= k < init.len() && #[trigger] init[k] is Action;
                assert(fs[k] is Action);
            }
            if fs.last() is Action {
                assert(fs[fs.len() - 1] is Action);
            }
            if exists|k: int| 0 <= k < fs.len() && #[trigger] fs[k] is Action {
                let k = choose|k: int| 0 <= k < fs.len() && #[trigger] fs[k] is Action;
                if k < fs.len() - 1 {
                    assert(init[k] is Action);
                }
            }
        }
    }
}

/// A record whose payload comes before any action field is refused as out
/// of order, provided the fields before the payload were accepted.
pub proof fn lemma_payload_before_action_refused(fs: Seq<NamedFieldView>, i: int)
    requires
        0 <= i < fs.len(),
        fs[i] is Payload,
        forall|j: int| 0 <= j < i ==> !(#[trigger] fs[j] is Action),
        named_run(fs.subrange(0, i)) is Ok,
    ensures
        parse_named(fs) == Err::<PacketView, DecodeError>(DecodeError::OutOfOrderPayload),
{
    let pre = fs.subrange(0, i);
    let upto = fs.subrange(0, i + 1);
    lemma_named_run_state(pre);
    assert(upto.drop_last() =~= pre);
    assert(upto.last() == fs[i]);
    if exists|k: int| 0 <= k < pre.len() && #[trigger] pre[k] is Action {
        let k = choose|k: int| 0 <= k < pre.len() && #[trigger] pre[k] is Action;
        assert(fs[k] is Action);
    }
    assert(named_run(upto) == Err::<NamedState, DecodeError>(DecodeError::OutOfOrderPayload));
    lemma_named_error_stays(fs, i + 1);
}

/// A record with a second action field is refused for the duplicate,
/// provided the fields before the second one were accepted.
pub proof fn lemma_second_action_refused(fs: Seq<NamedFieldView>, i: int, j: int)
    requires
        0 <= i < j < fs.len(),
        fs[i] is Action,
        fs[j] is Action,
        named_run(fs.subrange(0, j)) is Ok,
    ensures
        parse_named(fs) == Err::<PacketView, DecodeError>(
            DecodeError::DuplicateField(FieldName::Action),
        ),
{
    let pre = fs.subrange(0, j);
    let upto = fs.subrange(0, j + 1);
    lemma_named_run_state(pre);
    assert(pre[i] is Action);
    assert(upto.drop_last() =~= pre);
    assert(upto.last() == fs[j]);
    assert(named_run(upto) == Err::<NamedState, DecodeError>(
        DecodeError::DuplicateField(FieldName::Action),
    ));
    lemma_named_error_stays(fs, j + 1);
}

} // verus!
