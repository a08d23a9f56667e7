//! The sequential form: module tag, action discriminant, target chain and
//! the action's payload, one after the other with no field names.
use vstd::prelude::*;

use crate::packet::{
    action_tag, is_action_tag, module_tag, Action, ActionView, DecodeError, GovernancePacket,
    PacketView, MODULE,
};
use crate::primitives::{
    be16, be16_value, be32, be32_value, chain_code, chain_of_code, lemma_be16_round_trip,
    lemma_be32_round_trip, push_be16, push_be32, push_bytes,
    read_array20, read_array32, read_be16, read_be32, guardian_views, Address, Amount, Chain, GuardianAddress,
    GuardianSetInfo,
};

verus! {

/// The byte strings of `s`, one after another.
pub open spec fn concat_all(s: Seq<Seq<u8>>) -> Seq<u8>
    decreases s.len(),
{
    if s.len() == 0 {
        Seq::empty()
    } else {
        concat_all(s.drop_last()) + s.last()
    }
}

/// The bytes of an action's payload in the sequential form.
pub open spec fn payload_bytes(a: ActionView) -> Seq<u8> {
    match a {
        ActionView::ContractUpgrade { new_contract } => new_contract,
        ActionView::GuardianSetUpgrade { new_guardian_set_index, new_guardian_set } => be32(
            new_guardian_set_index,
        ) + seq![new_guardian_set.len() as u8] + concat_all(new_guardian_set),
        ActionView::SetFee { amount } => amount,
        ActionView::TransferFee { amount, recipient } => amount + recipient,
    }
}

/// The sequential form of a packet: module tag, discriminant, chain code,
/// payload.
pub open spec fn sequential_bytes(p: PacketView) -> Seq<u8> {
    module_tag() + seq![action_tag(p.action)] + be16(chain_code(p.chain)) + payload_bytes(
        p.action,
    )
}

/// Whether a packet has a sequential form: the one-byte count of a guardian
/// set bounds it at 255 addresses.
pub open spec fn fits_sequential(p: PacketView) -> bool {
    p.action matches ActionView::GuardianSetUpgrade { new_guardian_set, .. }
        ==> new_guardian_set.len() <= 255
}

/// The guardian addresses of a payload: `n` runs of 20 bytes after the
/// index and the count.
pub open spec fn guardian_run(b: Seq<u8>, n: nat) -> Seq<Seq<u8>> {
    Seq::new(n, |i: int| b.subrange(5 + 20 * i, 5 + 20 * i + 20))
}

/// Reads the payload that the discriminant `tag` selects from the front of
/// `b`: the action and the number of bytes it took.
pub open spec fn parse_payload(tag: u8, b: Seq<u8>) -> Result<(ActionView, nat), DecodeError> {
    if tag == 1 {
        if b.len() < 32 {
            Err(DecodeError::Truncated(3))
        } else {
            Ok((ActionView::ContractUpgrade { new_contract: b.subrange(0, 32) }, 32))
        }
    } else if tag == 2 {
        if b.len() < 5 || b.len() < 5 + 20 * b[4] {
            Err(DecodeError::Truncated(3))
        } else {
            Ok(
                (
                    ActionView::GuardianSetUpgrade {
                        new_guardian_set_index: be32_value(b[0], b[1], b[2], b[3]),
                        new_guardian_set: guardian_run(b, b[4] as nat),
                    },
                    (5 + 20 * b[4]) as nat,
                ),
            )
        }
    } else if tag == 3 {
        if b.len() < 32 {
            Err(DecodeError::Truncated(3))
        } else {
            Ok((ActionView::SetFee { amount: b.subrange(0, 32) }, 32))
        }
    } else if tag == 4 {
        if b.len() < 64 {
            Err(DecodeError::Truncated(3))
        } else {
            Ok(
                (
                    ActionView::TransferFee {
                        amount: b.subrange(0, 32),
                        recipient: b.subrange(32, 64),
                    },
                    64,
                ),
            )
        }
    } else {
        Err(DecodeError::UnknownActionTag(tag))
    }
}

/// Reads a packet from the front of `b`: the packet and the number of bytes
/// it took, or the first element that fails, in wire order.
pub open spec fn parse_sequential(b: Seq<u8>) -> Result<(PacketView, nat), DecodeError> {
    if b.len() < 32 {
        Err(DecodeError::Truncated(0))
    } else if b.subrange(0, 32) != module_tag() {
        Err(DecodeError::ModuleMismatch)
    } else if b.len() < 33 {
        Err(DecodeError::Truncated(1))
    } else if b.len() < 35 {
        Err(DecodeError::Truncated(2))
    } else {
        match parse_payload(b[32], b.subrange(35, b.len() as int)) {
            Ok((a, n)) => Ok(
                (PacketView { chain: chain_of_code(be16_value(b[33], b[34])), action: a }, 35 + n),
            ),
            Err(e) => Err(e),
        }
    }
}

/// Whether the first 32 bytes of `buf` are the module tag.
pub(crate) fn starts_with_module(buf: &[u8]) -> (r: bool)
    requires
        buf@.len() >= 32,
    ensures
        r == (buf@.subrange(0, 32) == module_tag()),
{
    let tag = MODULE;
    assert(tag@ == module_tag());
    let mut i: usize = 0;
    while i < 32
        invariant
            0 <= i <= 32,
            buf@.len() >= 32,
            tag@ == module_tag(),
            forall|j: int| 0 <= j < i ==> buf@[j] == module_tag()[j],
        decreases 32 - i,
    {
        if buf[i] != tag[i] {
            assert(buf@.subrange(0, 32)[i as int] != module_tag()[i as int]);
            return false;
        }
        i += 1;
    }
    assert(buf@.subrange(0, 32) =~= module_tag());
    true
}

/// Reads `n` guardian addresses of 20 bytes each, starting at `at`.
fn read_guardians(buf: &[u8], at: usize, n: usize) -> (r: GuardianSetInfo)
    requires
        at + 20 * n <= buf@.len(),
    ensures
        r@ == Seq::new(n as nat, |i: int| buf@.subrange(at + 20 * i, at + 20 * i + 20)),
{
    let len = buf.len();
    let mut addresses: Vec<GuardianAddress> = Vec::new();
    let mut i: usize = 0;
    while i < n
        invariant
            0 <= i <= n,
            at + 20 * n <= len == buf@.len(),
            addresses@.len() == i,
            guardian_views(addresses@) =~= Seq::new(
                i as nat,
                |k: int| buf@.subrange(at + 20 * k, at + 20 * k + 20),
            ),
        decreases n - i,
    {
        let ghost prev = addresses@;
        let a = read_array20(buf, at + 20 * i);
        addresses.push(GuardianAddress(a));
        assert(addresses@ == prev.push(GuardianAddress(a)));
        assert forall|k: int| 0 <= k < i implies #[trigger] guardian_views(addresses@)[k]
            == guardian_views(prev)[k] by {
            assert(addresses@[k] == prev[k]);
        }
        assert(guardian_views(addresses@)[i as int] == buf@.subrange(
            at + 20 * i,
            at + 20 * i + 20,
        ));
        i += 1;
        assert(guardian_views(addresses@) =~= Seq::new(
            i as nat,
            |k: int| buf@.subrange(at + 20 * k, at + 20 * k + 20),
        ));
    }
    GuardianSetInfo { addresses }
}

/// Reads the payload that `tag` selects, starting at `at`.
fn decode_payload(tag: u8, buf: &[u8], at: usize) -> (r: Result<(Action, usize), DecodeError>)
    requires
        at <= buf@.len(),
    ensures
        match r {
            Ok((a, n)) => parse_payload(tag, buf@.subrange(at as int, buf@.len() as int)) == Ok::<
                (ActionView, nat),
                DecodeError,
            >((a@, n as nat)),
            Err(e) => parse_payload(tag, buf@.subrange(at as int, buf@.len() as int)) == Err::<
                (ActionView, nat),
                DecodeError,
            >(e),
        },
{
    let ghost b = buf@.subrange(at as int, buf@.len() as int);
    let rest = buf.len() - at;
    if tag == 1 {
        if rest < 32 {
            return Err(DecodeError::Truncated(3));
        }
        let new_contract = Address(read_array32(buf, at));
        assert(new_contract@ =~= b.subrange(0, 32));
        Ok((Action::ContractUpgrade { new_contract }, 32))
    } else if tag == 2 {
        if rest < 5 {
            return Err(DecodeError::Truncated(3));
        }
        let n = buf[at + 4] as usize;
        if rest - 5 < 20 * n {
            return Err(DecodeError::Truncated(3));
        }
        let new_guardian_set_index = read_be32(buf, at);
        let new_guardian_set = read_guardians(buf, at + 5, n);
        assert forall|k: int| 0 <= k < n implies #[trigger] new_guardian_set@[k] =~= guardian_run(
            b,
            b[4] as nat,
        )[k] by {
            assert(b.subrange(5 + 20 * k, 5 + 20 * k + 20) =~= buf@.subrange(
                at + 5 + 20 * k,
                at + 5 + 20 * k + 20,
            ));
        }
        assert(new_guardian_set@ =~= guardian_run(b, b[4] as nat));
        Ok((Action::GuardianSetUpgrade { new_guardian_set_index, new_guardian_set }, 5 + 20 * n))
    } else if tag == 3 {
        if rest < 32 {
            return Err(DecodeError::Truncated(3));
        }
        let amount = Amount(read_array32(buf, at));
        assert(amount@ =~= b.subrange(0, 32));
        Ok((Action::SetFee { amount }, 32))
    } else if tag == 4 {
        if rest < 64 {
            return Err(DecodeError::Truncated(3));
        }
        let amount = Amount(read_array32(buf, at));
        let recipient = Address(read_array32(buf, at + 32));
        assert(amount@ =~= b.subrange(0, 32));
        assert(recipient@ =~= b.subrange(32, 64));
        Ok((Action::TransferFee { amount, recipient }, 64))
    } else {
        Err(DecodeError::UnknownActionTag(tag))
    }
}

/// Decodes a packet from the front of `buf` in the sequential form, giving
/// the packet and the number of bytes it took.
pub fn decode_sequential(buf: &[u8]) -> (r: Result<(GovernancePacket, usize), DecodeError>)
    ensures
        match r {
            Ok((p, n)) => parse_sequential(buf@) == Ok::<(PacketView, nat), DecodeError>(
                (p@, n as nat),
            ),
            Err(e) => parse_sequential(buf@) == Err::<(PacketView, nat), DecodeError>(e),
        },
{
    if buf.len() < 32 {
        return Err(DecodeError::Truncated(0));
    }
    if !starts_with_module(buf) {
        return Err(DecodeError::ModuleMismatch);
    }
    if buf.len() < 33 {
        return Err(DecodeError::Truncated(1));
    }
    if buf.len() < 35 {
        return Err(DecodeError::Truncated(2));
    }
    let tag = buf[32];
    let chain = Chain::from_code(read_be16(buf, 33));
    match decode_payload(tag, buf, 35) {
        Ok((action, n)) => Ok((GovernancePacket { chain, action }, 35 + n)),
        Err(e) => Err(e),
    }
}

/// Appends the bytes of each guardian address, in order.
fn push_guardians(out: &mut Vec<u8>, set: &GuardianSetInfo)
    ensures
        final(out)@ == old(out)@ + concat_all(set@),
{
    let mut i: usize = 0;
    while i < set.addresses.len()
        invariant
            0 <= i <= set@.len(),
            set@.len() == set.addresses@.len(),
            out@ == old(out)@ + concat_all(set@.subrange(0, i as int)),
        decreases set.addresses@.len() - i,
    {
        let g = set.addresses[i];
        push_bytes(out, g.0.as_slice());
        assert(set@.subrange(0, i + 1).drop_last() =~= set@.subrange(0, i as int));
        i += 1;
        assert(out@ =~= old(out)@ + concat_all(set@.subrange(0, i as int)));
    }
    assert(set@.subrange(0, set@.len() as int) =~= set@);
}

/// Appends the payload bytes of an action.
fn push_payload(out: &mut Vec<u8>, a: &Action)
    ensures
        final(out)@ == old(out)@ + payload_bytes(a@),
{
    match a {
        Action::ContractUpgrade { new_contract } => {
            push_bytes(out, new_contract.0.as_slice());
        },
        Action::GuardianSetUpgrade { new_guardian_set_index, new_guardian_set } => {
            push_be32(out, *new_guardian_set_index);
            out.push(new_guardian_set.addresses.len() as u8);
            push_guardians(out, new_guardian_set);
            assert(out@ =~= old(out)@ + payload_bytes(a@));
        },
        Action::SetFee { amount } => {
            push_bytes(out, amount.0.as_slice());
        },
        Action::TransferFee { amount, recipient } => {
            push_bytes(out, amount.0.as_slice());
            push_bytes(out, recipient.0.as_slice());
            assert(out@ =~= old(out)@ + payload_bytes(a@));
        },
    }
}

/// Encodes a packet in the sequential form. There is none (`None`) where a
/// guardian set holds more than 255 addresses.
pub fn encode_sequential(p: &GovernancePacket) -> (r: Option<Vec<u8>>)
    ensures
        r is Some <==> fits_sequential(p@),
        r matches Some(b) ==> b@ == sequential_bytes(p@),
{
    if let Action::GuardianSetUpgrade { new_guardian_set, .. } = &p.action {
        if new_guardian_set.addresses.len() > 255 {
            return None;
        }
    }
    let mut out: Vec<u8> = Vec::new();
    push_bytes(&mut out, MODULE.as_slice());
    out.push(p.action.tag());
    push_be16(&mut out, p.chain.to_code());
    push_payload(&mut out, &p.action);
    proof {
        assert(MODULE@ == module_tag());
        assert(out@ =~= sequential_bytes(p@));
    }
    Some(out)
}

/// Where every part is 20 bytes long, the parts stand at multiples of 20.
pub proof fn lemma_concat_all_runs(s: Seq<Seq<u8>>)
    requires
        forall|i: int| 0 <= i < s.len() ==> #[trigger] s[i].len() == 20,
    ensures
        concat_all(s).len() == 20 * s.len(),
        forall|i: int|
            0 <= i < s.len() ==> #[trigger] concat_all(s).subrange(20 * i, 20 * i + 20) == s[i],
    decreases s.len(),
{
    if s.len() > 0 {
        let init = s.drop_last();
        lemma_concat_all_runs(init);
        let c = concat_all(init);
        assert forall|i: int| 0 <= i < s.len() implies #[trigger] concat_all(s).subrange(
            20 * i,
            20 * i + 20,
        ) == s[i] by {
            if i < s.len() - 1 {
                assert(concat_all(s).subrange(20 * i, 20 * i + 20) =~= c.subrange(
                    20 * i,
                    20 * i + 20,
                ));
                assert(init[i] == s[i]);
            } else {
                assert(concat_all(s).subrange(20 * i, 20 * i + 20) =~= s.last());
            }
        }
    }
}

/// Reading back the payload bytes of an action, under its discriminant,
/// gives the action and takes all of the bytes.
pub proof fn lemma_payload_round_trip(a: Action)
    requires
        a@ matches ActionView::GuardianSetUpgrade { new_guardian_set, .. }
            ==> new_guardian_set.len() <= 255,
    ensures
        parse_payload(action_tag(a@), payload_bytes(a@)) == Ok::<(ActionView, nat), DecodeError>(
            (a@, payload_bytes(a@).len()),
        ),
{
    let b = payload_bytes(a@);
    match a {
        Action::ContractUpgrade { new_contract } => {
            assert(b.subrange(0, 32) =~= b);
        },
        Action::GuardianSetUpgrade { new_guardian_set_index, new_guardian_set } => {
            let set = new_guardian_set@;
            let n = set.len();
            lemma_be32_round_trip(new_guardian_set_index);
            assert forall|i: int| 0 <= i < n implies #[trigger] set[i].len() == 20 by {
                assert(set[i] == new_guardian_set.addresses@[i]@);
            }
            lemma_concat_all_runs(set);
            assert(b[4] == n as u8);
            assert(b[4] as nat == n);
            assert(b.len() == 5 + 20 * n);
            assert forall|i: int| 0 <= i < n implies #[trigger] guardian_run(b, n)[i] == set[i] by {
                assert(b.subrange(5 + 20 * i, 5 + 20 * i + 20) =~= concat_all(set).subrange(
                    20 * i,
                    20 * i + 20,
                ));
            }
            assert(guardian_run(b, n) =~= set);
        },
        Action::SetFee { amount } => {
            assert(b.subrange(0, 32) =~= b);
        },
        Action::TransferFee { amount, recipient } => {
            assert(b.subrange(0, 32) =~= amount@);
            assert(b.subrange(32, 64) =~= recipient@);
        },
    }
}

/// Decoding the sequential form of a well-formed packet gives the packet
/// back, having read every byte of it.
pub proof fn lemma_sequential_round_trip(p: GovernancePacket)
    requires
        p.chain.wf(),
        fits_sequential(p@),
    ensures
        parse_sequential(sequential_bytes(p@)) == Ok::<(PacketView, nat), DecodeError>(
            (p@, sequential_bytes(p@).len()),
        ),
{
    let b = sequential_bytes(p@);
    let code = chain_code(p.chain);
    lemma_be16_round_trip(code);
    lemma_payload_round_trip(p.action);
    assert(b.subrange(0, 32) =~= module_tag());
    assert(b[32] == action_tag(p@.action));
    assert(b[33] == be16(code)[0] && b[34] == be16(code)[1]);
    assert(b.subrange(35, b.len() as int) =~= payload_bytes(p@.action));
}

/// A buffer whose first 32 bytes are not the module tag is refused for that
/// alone, whatever follows.
pub proof fn lemma_foreign_module_refused(b: Seq<u8>)
    requires
        b.len() >= 32,
        b.subrange(0, 32) != module_tag(),
    ensures
        parse_sequential(b) == Err::<(PacketView, nat), DecodeError>(DecodeError::ModuleMismatch),
{
}

/// After the module tag and a chain code, a discriminant that selects no
/// action is refused, whatever follows.
pub proof fn lemma_unknown_action_refused(b: Seq<u8>)
    requires
        b.len() >= 35,
        b.subrange(0, 32) == module_tag(),
        !is_action_tag(b[32]),
    ensures
        parse_sequential(b) == Err::<(PacketView, nat), DecodeError>(
            DecodeError::UnknownActionTag(b[32]),
        ),
{
}

} // verus!
