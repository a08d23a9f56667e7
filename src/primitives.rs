//! Fixed-width primitive values carried by governance packets, and the
//! big-endian integer layout they use on the wire.
use vstd::prelude::*;

verus! {

/// The two big-endian bytes of `v`.
pub open spec fn be16(v: u16) -> Seq<u8> {
    seq![(v >> 8u16) as u8, v as u8]
}

/// The integer whose big-endian bytes are `hi`, `lo`.
pub open spec fn be16_value(hi: u8, lo: u8) -> u16 {
    ((hi as u16) << 8u16) | (lo as u16)
}

/// The four big-endian bytes of `v`.
pub open spec fn be32(v: u32) -> Seq<u8> {
    seq![(v >> 24u32) as u8, (v >> 16u32) as u8, (v >> 8u32) as u8, v as u8]
}

/// The integer whose big-endian bytes are `b0`, `b1`, `b2`, `b3`.
pub open spec fn be32_value(b0: u8, b1: u8, b2: u8, b3: u8) -> u32 {
    ((b0 as u32) << 24u32) | ((b1 as u32) << 16u32) | ((b2 as u32) << 8u32) | (b3 as u32)
}

/// Reading back the bytes of a 16-bit integer gives the integer.
pub proof fn lemma_be16_round_trip(v: u16)
    ensures
        be16(v).len() == 2,
        be16_value(be16(v)[0], be16(v)[1]) == v,
{
    assert(((((v >> 8u16) as u8) as u16) << 8u16) | ((v as u8) as u16) == v) by (bit_vector);
}

/// Reading back the bytes of a 32-bit integer gives the integer.
pub proof fn lemma_be32_round_trip(v: u32)
    ensures
        be32(v).len() == 4,
        be32_value(be32(v)[0], be32(v)[1], be32(v)[2], be32(v)[3]) == v,
{
    assert(((((v >> 24u32) as u8) as u32) << 24u32) | ((((v >> 16u32) as u8) as u32) << 16u32)
        | ((((v >> 8u32) as u8) as u32) << 8u32) | ((v as u8) as u32) == v) by (bit_vector);
}

/// Appends the big-endian bytes of `v`.
pub fn push_be16(out: &mut Vec<u8>, v: u16)
    ensures
        final(out)@ == old(out)@ + be16(v),
{
    out.push((v >> 8u16) as u8);
    out.push(v as u8);
    assert(out@ =~= old(out)@ + be16(v));
}

/// Appends the big-endian bytes of `v`.
pub fn push_be32(out: &mut Vec<u8>, v: u32)
    ensures
        final(out)@ == old(out)@ + be32(v),
{
    out.push((v >> 24u32) as u8);
    out.push((v >> 16u32) as u8);
    out.push((v >> 8u32) as u8);
    out.push(v as u8);
    assert(out@ =~= old(out)@ + be32(v));
}

/// Reads a big-endian 16-bit integer at `at`.
pub fn read_be16(buf: &[u8], at: usize) -> (r: u16)
    requires
        at + 2 <= buf@.len(),
    ensures
        r == be16_value(buf@[at as int], buf@[at + 1]),
{
    ((buf[at] as u16) << 8u16) | (buf[at + 1] as u16)
}

/// Reads a big-endian 32-bit integer at `at`.
pub fn read_be32(buf: &[u8], at: usize) -> (r: u32)
    requires
        at + 4 <= buf@.len(),
    ensures
        r == be32_value(buf@[at as int], buf@[at + 1], buf@[at + 2], buf@[at + 3]),
{
    ((buf[at] as u32) << 24u32) | ((buf[at + 1] as u32) << 16u32) | ((buf[at + 2] as u32) << 8u32)
        | (buf[at + 3] as u32)
}

/// Appends every byte of `bytes`.
pub fn push_bytes(out: &mut Vec<u8>, bytes: &[u8])
    ensures
        final(out)@ == old(out)@ + bytes@,
{
    let mut i: usize = 0;
    while i < bytes.len()
        invariant
            0 <= i <= bytes@.len(),
            out@ == old(out)@ + bytes@.subrange(0, i as int),
        decreases bytes@.len() - i,
    {
        out.push(bytes[i]);
        i += 1;
        assert(out@ =~= old(out)@ + bytes@.subrange(0, i as int));
    }
    assert(bytes@.subrange(0, bytes@.len() as int) =~= bytes@);
}

/// The 32 bytes at `at`, as an array.
pub fn read_array32(buf: &[u8], at: usize) -> (r: [u8; 32])
    requires
        at + 32 <= buf@.len(),
    ensures
        r@ == buf@.subrange(at as int, at + 32),
{
    let len = buf.len();
    let mut a: [u8; 32] = [0u8; 32];
    let mut i: usize = 0;
    while i < 32
        invariant
            0 <= i <= 32,
            at + 32 <= len == buf@.len(),
            a@.len() == 32,
            forall|j: int| 0 <= j < i ==> a@[j] == buf@[at + j],
        decreases 32 - i,
    {
        a[i] = buf[at + i];
        i += 1;
    }
    assert(a@ =~= buf@.subrange(at as int, at + 32));
    a
}

/// The 20 bytes at `at`, as an array.
pub fn read_array20(buf: &[u8], at: usize) -> (r: [u8; 20])
    requires
        at + 20 <= buf@.len(),
    ensures
        r@ == buf@.subrange(at as int, at + 20),
{
    let len = buf.len();
    let mut a: [u8; 20] = [0u8; 20];
    let mut i: usize = 0;
    while i < 20
        invariant
            0 <= i <= 20,
            at + 20 <= len == buf@.len(),
            a@.len() == 20,
            forall|j: int| 0 <= j < i ==> a@[j] == buf@[at + j],
        decreases 20 - i,
    {
        a[i] = buf[at + i];
        i += 1;
    }
    assert(a@ =~= buf@.subrange(at as int, at + 20));
    a
}

/// A 32-byte universal address.
#[derive(Clone, Copy, Debug, PartialEq, Eq, PartialOrd, Ord, Hash)]
pub struct Address(pub [u8; 32]);

impl View for Address {
    type V = Seq<u8>;

    open spec fn view(&self) -> Seq<u8> {
        self.0@
    }
}

/// A 256-bit unsigned amount, as 32 big-endian bytes.
#[derive(Clone, Copy, Debug, PartialEq, Eq, PartialOrd, Ord, Hash)]
pub struct Amount(pub [u8; 32]);

impl View for Amount {
    type V = Seq<u8>;

    open spec fn view(&self) -> Seq<u8> {
        self.0@
    }
}

/// The 20-byte address of one guardian (signer).
#[derive(Clone, Copy, Debug, PartialEq, Eq, PartialOrd, Ord, Hash)]
pub struct GuardianAddress(pub [u8; 20]);

impl View for GuardianAddress {
    type V = Seq<u8>;

    open spec fn view(&self) -> Seq<u8> {
        self.0@
    }
}

/// An ordered set of guardian addresses.
#[derive(Clone, Debug, PartialEq, Eq, PartialOrd, Ord, Hash)]
pub struct GuardianSetInfo {
    pub addresses: Vec<GuardianAddress>,
}

impl View for GuardianSetInfo {
    type V = Seq<Seq<u8>>;

    open spec fn view(&self) -> Seq<Seq<u8>> {
        guardian_views(self.addresses@)
    }
}

/// The bytes of each guardian address, in order.
pub open spec fn guardian_views(s: Seq<GuardianAddress>) -> Seq<Seq<u8>> {
    Seq::new(s.len(), |i: int| s[i]@)
}

impl GuardianSetInfo {
    /// A copy holding the same addresses in the same order.
    pub fn duplicate(&self) -> (r: GuardianSetInfo)
        ensures
            r@ == self@,
    {
        let mut addresses: Vec<GuardianAddress> = Vec::new();
        let mut i: usize = 0;
        while i < self.addresses.len()
            invariant
                0 <= i <= self.addresses@.len(),
                addresses@ == self.addresses@.subrange(0, i as int),
            decreases self.addresses@.len() - i,
        {
            addresses.push(self.addresses[i]);
            i += 1;
            assert(addresses@ =~= self.addresses@.subrange(0, i as int));
        }
        assert(addresses@ =~= self.addresses@);
        GuardianSetInfo { addresses }
    }
}

/// The chain on which a message is emitted or a governance action executes.
#[derive(Clone, Copy, Debug, PartialEq, Eq, PartialOrd, Ord, Hash)]
pub enum Chain {
    Unset,
    Solana,
    Ethereum,
    Terra,
    Bsc,
    Polygon,
    Avalanche,
    Oasis,
    Algorand,
    Aurora,
    Fantom,
    Karura,
    Acala,
    Klaytn,
    Celo,
    Near,
    Moonbeam,
    Neon,
    Terra2,
    Injective,
    Osmosis,
    Sui,
    Aptos,
    Arbitrum,
    Optimism,
    Gnosis,
    Pythnet,
    Xpla,
    Btc,
    Base,
    Sei,
    Wormchain,
    Unknown(u16),
}

/// The numeric code of a chain on the wire.
pub open spec fn chain_code(c: Chain) -> u16 {
    match c {
        Chain::Unset => 0,
        Chain::Solana => 1,
        Chain::Ethereum => 2,
        Chain::Terra => 3,
        Chain::Bsc => 4,
        Chain::Polygon => 5,
        Chain::Avalanche => 6,
        Chain::Oasis => 7,
        Chain::Algorand => 8,
        Chain::Aurora => 9,
        Chain::Fantom => 10,
        Chain::Karura => 11,
        Chain::Acala => 12,
        Chain::Klaytn => 13,
        Chain::Celo => 14,
        Chain::Near => 15,
        Chain::Moonbeam => 16,
        Chain::Neon => 17,
        Chain::Terra2 => 18,
        Chain::Injective => 19,
        Chain::Osmosis => 20,
        Chain::Sui => 21,
        Chain::Aptos => 22,
        Chain::Arbitrum => 23,
        Chain::Optimism => 24,
        Chain::Gnosis => 25,
        Chain::Pythnet => 26,
        Chain::Xpla => 28,
        Chain::Btc => 29,
        Chain::Base => 30,
        Chain::Sei => 32,
        Chain::Wormchain => 3104,
        Chain::Unknown(n) => n,
    }
}

/// The chain that a wire code names; a code without a name is `Unknown`.
pub open spec fn chain_of_code(n: u16) -> Chain {
    if n == 0 { Chain::Unset }
    else if n == 1 { Chain::Solana }
    else if n == 2 { Chain::Ethereum }
    else if n == 3 { Chain::Terra }
    else if n == 4 { Chain::Bsc }
    else if n == 5 { Chain::Polygon }
    else if n == 6 { Chain::Avalanche }
    else if n == 7 { Chain::Oasis }
    else if n == 8 { Chain::Algorand }
    else if n == 9 { Chain::Aurora }
    else if n == 10 { Chain::Fantom }
    else if n == 11 { Chain::Karura }
    else if n == 12 { Chain::Acala }
    else if n == 13 { Chain::Klaytn }
    else if n == 14 { Chain::Celo }
    else if n == 15 { Chain::Near }
    else if n == 16 { Chain::Moonbeam }
    else if n == 17 { Chain::Neon }
    else if n == 18 { Chain::Terra2 }
    else if n == 19 { Chain::Injective }
    else if n == 20 { Chain::Osmosis }
    else if n == 21 { Chain::Sui }
    else if n == 22 { Chain::Aptos }
    else if n == 23 { Chain::Arbitrum }
    else if n == 24 { Chain::Optimism }
    else if n == 25 { Chain::Gnosis }
    else if n == 26 { Chain::Pythnet }
    else if n == 28 { Chain::Xpla }
    else if n == 29 { Chain::Btc }
    else if n == 30 { Chain::Base }
    else if n == 32 { Chain::Sei }
    else if n == 3104 { Chain::Wormchain }
    else { Chain::Unknown(n) }
}

impl Chain {
    /// A chain is well formed unless it is `Unknown` with a code that has a name.
    pub open spec fn wf(self) -> bool {
        chain_of_code(chain_code(self)) == self
    }

    /// The numeric code of this chain on the wire.
    pub fn to_code(self) -> (r: u16)
        ensures
            r == chain_code(self),
    {
        match self {
            Chain::Unset => 0,
            Chain::Solana => 1,
            Chain::Ethereum => 2,
            Chain::Terra => 3,
            Chain::Bsc => 4,
            Chain::Polygon => 5,
            Chain::Avalanche => 6,
            Chain::Oasis => 7,
            Chain::Algorand => 8,
            Chain::Aurora => 9,
            Chain::Fantom => 10,
            Chain::Karura => 11,
            Chain::Acala => 12,
            Chain::Klaytn => 13,
            Chain::Celo => 14,
            Chain::Near => 15,
            Chain::Moonbeam => 16,
            Chain::Neon => 17,
            Chain::Terra2 => 18,
            Chain::Injective => 19,
            Chain::Osmosis => 20,
            Chain::Sui => 21,
            Chain::Aptos => 22,
            Chain::Arbitrum => 23,
            Chain::Optimism => 24,
            Chain::Gnosis => 25,
            Chain::Pythnet => 26,
            Chain::Xpla => 28,
            Chain::Btc => 29,
            Chain::Base => 30,
            Chain::Sei => 32,
            Chain::Wormchain => 3104,
            Chain::Unknown(n) => n,
        }
    }

    /// The chain that a wire code names.
    pub fn from_code(n: u16) -> (r: Chain)
        ensures
            r == chain_of_code(n),
            r.wf(),
    {
        match n {
            0 => Chain::Unset,
            1 => Chain::Solana,
            2 => Chain::Ethereum,
            3 => Chain::Terra,
            4 => Chain::Bsc,
            5 => Chain::Polygon,
            6 => Chain::Avalanche,
            7 => Chain::Oasis,
            8 => Chain::Algorand,
            9 => Chain::Aurora,
            10 => Chain::Fantom,
            11 => Chain::Karura,
            12 => Chain::Acala,
            13 => Chain::Klaytn,
            14 => Chain::Celo,
            15 => Chain::Near,
            16 => Chain::Moonbeam,
            17 => Chain::Neon,
            18 => Chain::Terra2,
            19 => Chain::Injective,
            20 => Chain::Osmosis,
            21 => Chain::Sui,
            22 => Chain::Aptos,
            23 => Chain::Arbitrum,
            24 => Chain::Optimism,
            25 => Chain::Gnosis,
            26 => Chain::Pythnet,
            28 => Chain::Xpla,
            29 => Chain::Btc,
            30 => Chain::Base,
            32 => Chain::Sei,
            3104 => Chain::Wormchain,
            _ => Chain::Unknown(n),
        }
    }
}

/// Every code names a well-formed chain whose code it is.
pub proof fn lemma_chain_code_round_trip(n: u16)
    ensures
        chain_code(chain_of_code(n)) == n,
        chain_of_code(n).wf(),
{
}

} // verus!
