use vstd::prelude::*;

verus! {

/// A participant: the low 20 bytes of the SHA-256 digest of its public key.
pub type Account = [u8; 20];

/// The identifier of a channel, derived from its parameters.
pub type ChannelID = [u8; 32];

/// Caller-chosen salt that makes channel identifiers unique.
pub type Nonce = [u8; 32];

/// Seconds on the host's clock.
pub type Timestamp = u64;

/// The immutable parameters that identify a channel.
#[derive(Clone, Copy, Debug, PartialEq, Eq)]
pub struct ChannelParameters {
    pub participants: [Account; 2],
    pub nonce: Nonce,
    pub challenge_duration: u64,
}

/// An off-chain state of a channel, signed by both participants.
/// `balance[i]` is owed to `participants[i]`.
#[derive(Clone, Copy, Debug, PartialEq, Eq)]
pub struct ChannelState {
    pub version: u64,
    pub balance: [u128; 2],
    pub finalized: bool,
}

/// A recoverable secp256k1 signature: `r`, `s` and the recovery id `v`.
#[derive(Clone, Copy, Debug, PartialEq, Eq)]
pub struct Signature {
    pub r: [u8; 32],
    pub s: [u8; 32],
    pub v: u8,
}

/// An amount of a fungible asset.
#[derive(Clone, Debug)]
pub struct Coin {
    pub denom: String,
    pub amount: u128,
}

/// The sum of the amounts of `coins`.
pub open spec fn coins_total(coins: Seq<Coin>) -> int
    decreases coins.len(),
{
    if coins.len() == 0 {
        0
    } else {
        coins_total(coins.drop_last()) + coins.last().amount
    }
}

/// `n` bytes of `v` in big-endian order (`v` taken modulo `256^n`).
pub open spec fn be_bytes(v: nat, n: nat) -> Seq<u8>
    decreases n,
{
    if n == 0 {
        Seq::empty()
    } else {
        be_bytes(v / 256, (n - 1) as nat).push((v % 256) as u8)
    }
}

/// The bytes that identify a channel: both participants, the nonce and the
/// challenge duration as 8 big-endian bytes.
pub open spec fn params_bytes(p: ChannelParameters) -> Seq<u8> {
    p.participants[0]@ + p.participants[1]@ + p.nonce@ + be_bytes(p.challenge_duration as nat, 8)
}

/// The bytes of a channel state: version (8 bytes), both balances (16 bytes
/// each), all big-endian, then one byte for `finalized`.
pub open spec fn state_bytes(s: ChannelState) -> Seq<u8> {
    be_bytes(s.version as nat, 8) + be_bytes(s.balance[0] as nat, 16) + be_bytes(
        s.balance[1] as nat,
        16,
    ) + seq![if s.finalized { 1u8 } else { 0u8 }]
}

/// The 64 bytes `r ‖ s` of a signature, as public-key recovery reads them;
/// the recovery id `v` is handed over apart.
pub open spec fn sig_bytes(sig: Signature) -> Seq<u8> {
    sig.r@ + sig.s@
}

/// Appends the `n` low bytes of `v` in big-endian order.
pub fn push_be(out: &mut Vec<u8>, v: u128, n: usize)
    requires
        old(out)@.len() + n <= usize::MAX,
    ensures
        final(out)@ == old(out)@ + be_bytes(v as nat, n as nat),
        final(out)@.len() == old(out)@.len() + n,
    decreases n,
{
    if n > 0 {
        push_be(out, v / 256, n - 1);
        out.push((v % 256) as u8);
    } else {
        assert(old(out)@ + be_bytes(v as nat, 0) =~= old(out)@);
    }
}

/// Appends every byte of `b`.
pub fn push_bytes(out: &mut Vec<u8>, b: &[u8])
    requires
        old(out)@.len() + b@.len() <= usize::MAX,
    ensures
        final(out)@ == old(out)@ + b@,
{
    let mut i: usize = 0;
    while i < b.len()
        invariant
            i <= b@.len(),
            out@ == old(out)@ + b@.subrange(0, i as int),
            old(out)@.len() + b@.len() <= usize::MAX,
        decreases b@.len() - i,
    {
        out.push(b[i]);
        i = i + 1;
        assert(b@.subrange(0, i as int) =~= b@.subrange(0, i - 1 as int).push(b@[i - 1]));
    }
    assert(b@.subrange(0, i as int) =~= b@);
}

/// Whether two byte strings are equal.
pub fn bytes_eq(a: &[u8], b: &[u8]) -> (r: bool)
    ensures
        r == (a@ == b@),
{
    if a.len() != b.len() {
        return false;
    }
    let mut i: usize = 0;
    while i < a.len()
        invariant
            a@.len() == b@.len(),
            i <= a@.len(),
            forall|j: int| 0 <= j < i ==> a@[j] == b@[j],
        decreases a@.len() - i,
    {
        if a[i] != b[i] {
            return false;
        }
        i = i + 1;
    }
    assert(a@ =~= b@);
    true
}

impl ChannelParameters {
    /// The bytes that the channel identifier is the digest of.
    pub fn to_bytes(&self) -> (r: Vec<u8>)
        ensures
            r@ == params_bytes(*self),
    {
        let mut out: Vec<u8> = Vec::new();
        push_bytes(&mut out, &self.participants[0]);
        push_bytes(&mut out, &self.participants[1]);
        push_bytes(&mut out, &self.nonce);
        push_be(&mut out, self.challenge_duration as u128, 8);
        assert(out@ =~= params_bytes(*self));
        out
    }
}

impl ChannelState {
    /// The bytes that the state digest is taken of.
    pub fn to_bytes(&self) -> (r: Vec<u8>)
        ensures
            r@ == state_bytes(*self),
    {
        let mut out: Vec<u8> = Vec::new();
        push_be(&mut out, self.version as u128, 8);
        push_be(&mut out, self.balance[0], 16);
        push_be(&mut out, self.balance[1], 16);
        let last: u8 = if self.finalized { 1 } else { 0 };
        out.push(last);
        assert(out@ =~= state_bytes(*self));
        out
    }
}

impl Signature {
    /// `r ‖ s`, the 64 bytes that public-key recovery reads.
    pub fn to_bytes(&self) -> (r: Vec<u8>)
        ensures
            r@ == sig_bytes(*self),
    {
        let mut out: Vec<u8> = Vec::new();
        push_bytes(&mut out, &self.r);
        push_bytes(&mut out, &self.s);
        out
    }
}

} // verus!
