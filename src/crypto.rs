use crate::types::{
    params_bytes, push_bytes, sig_bytes, state_bytes, Account, ChannelID, ChannelParameters,
    ChannelState, Signature,
};
use vstd::prelude::*;

verus! {

/// The SHA-256 digest of a byte string.
pub uninterp spec fn sha256(data: Seq<u8>) -> Seq<u8>;

/// The uncompressed secp256k1 public key recovered from a 32-byte message
/// digest, a 64-byte signature `r ‖ s` and a recovery id, where there is one.
pub uninterp spec fn recovered_pubkey(digest: Seq<u8>, sig: Seq<u8>, v: u8) -> Option<Seq<u8>>;

/// Relies on sha2's `Sha256::digest`: the 32-byte SHA-256 digest of `data`.
#[verifier::external_body]
fn sha256_digest(data: &[u8]) -> (r: [u8; 32])
    ensures
        r@ == sha256(data@),
{
    <sha2::Sha256 as sha2::Digest>::digest(data).into()
}

/// Relies on cosmwasm_crypto's `secp256k1_recover_pubkey`: the public key
/// that produced the signature over the digest; its error is dropped.
#[verifier::external_body]
fn recover_pubkey(digest: &[u8], sig: &[u8], v: u8) -> (r: Option<Vec<u8>>)
    ensures
        r is Some <==> recovered_pubkey(digest@, sig@, v) is Some,
        r is Some ==> r->Some_0@ == recovered_pubkey(digest@, sig@, v)->Some_0,
{
    cosmwasm_crypto::secp256k1_recover_pubkey(digest, sig, v).ok()
}

/// The account of a public key: the low 20 bytes of its digest.
pub open spec fn account_of(pubkey: Seq<u8>) -> Seq<u8> {
    sha256(pubkey).subrange(0, 20)
}

/// The identifier of the channel with parameters `p`.
pub open spec fn channel_id_of(p: ChannelParameters) -> Seq<u8> {
    sha256(params_bytes(p))
}

/// The digest of a channel state, on its own.
pub open spec fn state_hash_of(s: ChannelState) -> Seq<u8> {
    sha256(state_bytes(s))
}

/// What both participants sign to register `s` in the channel of `p`.
pub open spec fn state_digest(p: ChannelParameters, s: ChannelState) -> Seq<u8> {
    sha256(channel_id_of(p) + state_hash_of(s))
}

/// What a participant signs to withdraw from `channel` to `receiver`.
pub open spec fn withdrawal_digest(channel: Seq<u8>, receiver: Seq<u8>) -> Seq<u8> {
    sha256(channel + receiver)
}

/// `sig` over `digest` recovers to a key whose account is `account`.
pub open spec fn signed_by(digest: Seq<u8>, sig: Signature, account: Seq<u8>) -> bool {
    match recovered_pubkey(digest, sig_bytes(sig), sig.v) {
        Some(pk) => account_of(pk) == account,
        None => false,
    }
}

impl ChannelParameters {
    /// The channel identifier: the digest of the parameters' bytes.
    pub fn hash(&self) -> (r: ChannelID)
        ensures
            r@ == channel_id_of(*self),
    {
        let bytes = self.to_bytes();
        sha256_digest(bytes.as_slice())
    }
}

impl ChannelState {
    /// The digest of the state's bytes.
    pub fn hash(&self) -> (r: [u8; 32])
        ensures
            r@ == state_hash_of(*self),
    {
        let bytes = self.to_bytes();
        sha256_digest(bytes.as_slice())
    }
}

/// Whether the account that a public key hashes to is `account`.
pub fn pubkey_matches(pubkey: &[u8], account: &Account) -> (r: bool)
    ensures
        r == (account_of(pubkey@) == account@),
{
    let d = sha256_digest(pubkey);
    let mut i: usize = 0;
    while i < 20
        invariant
            i <= 20,
            d@ == sha256(pubkey@),
            d@.len() == 32,
            account@.len() == 20,
            forall|j: int| 0 <= j < i ==> d@[j] == account@[j],
        decreases 20 - i,
    {
        if d[i] != account[i] {
            assert(d@.subrange(0, 20)[i as int] != account@[i as int]);
            assert(d@.subrange(0, 20) != account@);
            return false;
        }
        i = i + 1;
    }
    assert(d@.subrange(0, 20) =~= account@);
    true
}

/// Whether `sig` over `digest` was made by the key of `account`.
pub fn verify_signature(digest: &[u8], sig: &Signature, account: &Account) -> (r: bool)
    ensures
        r == signed_by(digest@, *sig, account@),
{
    let sb = sig.to_bytes();
    match recover_pubkey(digest, sb.as_slice(), sig.v) {
        Some(pk) => pubkey_matches(pk.as_slice(), account),
        None => false,
    }
}

/// Whether `sig` is the signature of `account` on state `state` of the
/// channel of `params`.
pub fn verify_state(
    params: &ChannelParameters,
    state: &ChannelState,
    sig: &Signature,
    account: &Account,
) -> (r: bool)
    ensures
        r == signed_by(state_digest(*params, *state), *sig, account@),
{
    let mut bytes: Vec<u8> = Vec::new();
    let ch = params.hash();
    let sh = state.hash();
    push_bytes(&mut bytes, &ch);
    push_bytes(&mut bytes, &sh);
    let digest = sha256_digest(bytes.as_slice());
    verify_signature(&digest, sig, account)
}

/// Whether `sig` is the signature of `account` authorising a withdrawal from
/// `channel_id` to the address `receiver`.
pub fn verify_withdrawal(
    channel_id: &ChannelID,
    receiver: &[u8],
    sig: &Signature,
    account: &Account,
) -> (r: bool)
    requires
        receiver@.len() <= usize::MAX - 32,
    ensures
        r == signed_by(withdrawal_digest(channel_id@, receiver@), *sig, account@),
{
    let mut bytes: Vec<u8> = Vec::new();
    push_bytes(&mut bytes, channel_id);
    push_bytes(&mut bytes, receiver);
    let digest = sha256_digest(bytes.as_slice());
    verify_signature(&digest, sig, account)
}

/// The channel identifier depends on the parameters alone, and parameters
/// that differ in their nonce are hashed from different bytes.
pub proof fn lemma_channel_identity(p: ChannelParameters, q: ChannelParameters)
    ensures
        p == q ==> channel_id_of(p) == channel_id_of(q),
        p.nonce@ != q.nonce@ ==> params_bytes(p) != params_bytes(q),
{
    assert(params_bytes(p).subrange(40, 72) =~= p.nonce@);
    assert(params_bytes(q).subrange(40, 72) =~= q.nonce@);
}

} // verus!
