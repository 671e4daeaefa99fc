use k256::ecdsa::SigningKey;
use k256::elliptic_curve::sec1::ToEncodedPoint;
use payment_channel::contract::{deposits_cover, Ledger};
use payment_channel::crypto::{verify_signature, verify_state, verify_withdrawal};
use payment_channel::error::ContractError;
use payment_channel::msg::{HandleMsg, InitMsg, QueryMsg, QueryResponse};
use payment_channel::types::{push_be, Account, Coin, ChannelID, ChannelParameters, ChannelState, Signature};
use sha2::{Digest, Sha256};

const DENOM: &str = "umayo";

fn generate_account(seed: u8) -> (SigningKey, Account) {
    let sk = SigningKey::from_slice(&[seed; 32]).unwrap();
    let pk = sk.verifying_key().to_encoded_point(false);
    let digest = Sha256::digest(pk.as_bytes());
    let mut acc = [0u8; 20];
    acc.copy_from_slice(&digest[..20]);
    (sk, acc)
}

fn sign_digest(sk: &SigningKey, digest: &[u8]) -> Signature {
    let (sig, id) = sk.sign_prehash_recoverable(digest).unwrap();
    let bytes = sig.to_bytes();
    let mut r = [0u8; 32];
    let mut s = [0u8; 32];
    r.copy_from_slice(&bytes[..32]);
    s.copy_from_slice(&bytes[32..]);
    Signature { r, s, v: id.to_byte() }
}

fn state_digest(params: &ChannelParameters, state: &ChannelState) -> Vec<u8> {
    let mut hasher = Sha256::new();
    hasher.update(params.hash());
    hasher.update(state.hash());
    hasher.finalize().to_vec()
}

fn sign_state(
    params: &ChannelParameters,
    state: &ChannelState,
    sk1: &SigningKey,
    sk2: &SigningKey,
) -> [Signature; 2] {
    let d = state_digest(params, state);
    [sign_digest(sk1, &d), sign_digest(sk2, &d)]
}

fn sign_withdrawal(channel_id: ChannelID, receiver: &[u8], sk: &SigningKey) -> Signature {
    let mut hasher = Sha256::new();
    hasher.update(channel_id);
    hasher.update(receiver);
    sign_digest(sk, &hasher.finalize())
}

fn params_of(a: Account, b: Account, challenge_duration: u64) -> ChannelParameters {
    ChannelParameters { participants: [a, b], nonce: [0; 32], challenge_duration }
}

fn state_of(version: u64, b0: u128, b1: u128) -> ChannelState {
    ChannelState { version, balance: [b0, b1], finalized: false }
}

#[test]
fn test_all() {
    let mut ledger = Ledger::instantiate(InitMsg { denom: "umayo".to_string() });
    let (sk1, acc1) = generate_account(1);
    let (sk2, acc2) = generate_account(2);
    let bal1 = 123;
    let params = params_of(acc1, acc2, 10);
    let state_l2 = state_of(0, bal1, 0);
    let channel_id = params.hash();

    assert_eq!(DENOM.to_string(), ledger.query_denom());

    ledger.deposit(&channel_id, &acc1, bal1).unwrap();
    assert_eq!(ledger.query_funds(&channel_id, &acc1), Ok(bal1));

    let now = 1_000;
    let sigs = sign_state(&params, &state_l2, &sk1, &sk2);
    ledger.register(&params, &state_l2, &sigs, now).unwrap();

    let sig = sign_withdrawal(channel_id, b"alice", &sk1);
    let paid = ledger.withdraw(&params, 0, &sig, b"alice", now + 60).unwrap();
    assert_eq!(paid, bal1);
}

#[test]
fn channel_id_follows_the_byte_layout() {
    let (_, a) = generate_account(1);
    let (_, b) = generate_account(2);
    let params = params_of(a, b, 0x0102030405060708);
    let mut bytes = Vec::new();
    bytes.extend_from_slice(&a);
    bytes.extend_from_slice(&b);
    bytes.extend_from_slice(&[0u8; 32]);
    bytes.extend_from_slice(&[1, 2, 3, 4, 5, 6, 7, 8]);
    assert_eq!(params.to_bytes(), bytes);
    let expected: [u8; 32] = Sha256::digest(&bytes).into();
    assert_eq!(params.hash(), expected);
    assert_eq!(params.hash(), params.hash());
}

#[test]
fn channel_id_differs_with_the_nonce() {
    let (_, a) = generate_account(1);
    let (_, b) = generate_account(2);
    let p = params_of(a, b, 10);
    let mut q = p;
    q.nonce[31] = 1;
    assert_ne!(p.hash(), q.hash());
}

#[test]
fn state_hash_follows_the_byte_layout() {
    let state = ChannelState { version: 7, balance: [5, 0x0100], finalized: true };
    let mut bytes = vec![0, 0, 0, 0, 0, 0, 0, 7];
    bytes.extend_from_slice(&[0u8; 15]);
    bytes.push(5);
    bytes.extend_from_slice(&[0u8; 14]);
    bytes.extend_from_slice(&[1, 0]);
    bytes.push(1);
    assert_eq!(state.to_bytes(), bytes);
    let expected: [u8; 32] = Sha256::digest(&bytes).into();
    assert_eq!(state.hash(), expected);
}

#[test]
fn big_endian_encoding() {
    let mut out = vec![9u8];
    push_be(&mut out, 0x0a0b0c, 4);
    assert_eq!(out, vec![9, 0, 0x0a, 0x0b, 0x0c]);
}

#[test]
fn deposits_cover_compares_sums() {
    assert!(deposits_cover(50, 50, 30, 70));
    assert!(!deposits_cover(50, 49, 30, 70));
    assert!(deposits_cover(u128::MAX, u128::MAX, u128::MAX, u128::MAX));
    assert!(!deposits_cover(u128::MAX, 0, u128::MAX, 1));
    assert!(deposits_cover(0, 10, 3, 7));
}

#[test]
fn deposits_accumulate_and_overflow_fails() {
    let mut ledger = Ledger::new("X".to_string());
    let (_, a) = generate_account(1);
    let ch = [7u8; 32];
    assert_eq!(ledger.query_funds(&ch, &a), Err(ContractError::NotFound));
    ledger.deposit(&ch, &a, 100).unwrap();
    ledger.deposit(&ch, &a, 23).unwrap();
    assert_eq!(ledger.query_funds(&ch, &a), Ok(123));
    assert_eq!(ledger.deposit(&ch, &a, u128::MAX), Err(ContractError::Overflow));
    assert_eq!(ledger.query_funds(&ch, &a), Ok(123));
    assert_eq!(ledger.funding_of(&a, &[8u8; 32]), 0);
}

#[test]
fn stale_version_registration_is_ignored() {
    let mut ledger = Ledger::new("X".to_string());
    let (sk1, a) = generate_account(1);
    let (sk2, b) = generate_account(2);
    let params = params_of(a, b, 10);
    let newer = state_of(5, 1, 2);
    let older = state_of(3, 9, 9);
    ledger.register(&params, &newer, &sign_state(&params, &newer, &sk1, &sk2), 0).unwrap();
    ledger.register(&params, &older, &sign_state(&params, &older, &sk1, &sk2), 100).unwrap();
    let rec = ledger.record_of(&params.hash()).unwrap();
    assert_eq!(rec.state_l2.version, 5);
    assert_eq!(rec.timestamp, 0);
}

#[test]
fn registration_within_window_is_ignored() {
    let mut ledger = Ledger::new("X".to_string());
    let (sk1, a) = generate_account(1);
    let (sk2, b) = generate_account(2);
    let params = params_of(a, b, 10);
    let first = state_of(1, 1, 2);
    let second = state_of(2, 2, 1);
    let sigs2 = sign_state(&params, &second, &sk1, &sk2);
    ledger.register(&params, &first, &sign_state(&params, &first, &sk1, &sk2), 0).unwrap();
    ledger.register(&params, &second, &sigs2, 5).unwrap();
    let rec = ledger.record_of(&params.hash()).unwrap();
    assert_eq!((rec.state_l2.version, rec.timestamp), (1, 0));
    ledger.register(&params, &second, &sigs2, 10).unwrap();
    let rec = ledger.record_of(&params.hash()).unwrap();
    assert_eq!((rec.state_l2.version, rec.timestamp, rec.settled), (2, 10, false));
}

#[test]
fn withdraw_waits_for_the_window() {
    let mut ledger = Ledger::new("X".to_string());
    let (sk1, a) = generate_account(1);
    let (sk2, b) = generate_account(2);
    let params = params_of(a, b, 10);
    let ch = params.hash();
    let state = state_of(0, 40, 0);
    ledger.deposit(&ch, &a, 40).unwrap();
    let sig = sign_withdrawal(ch, b"alice", &sk1);
    assert_eq!(ledger.withdraw(&params, 0, &sig, b"alice", 0), Err(ContractError::NotFound));
    ledger.register(&params, &state, &sign_state(&params, &state, &sk1, &sk2), 100).unwrap();
    assert_eq!(ledger.withdraw(&params, 0, &sig, b"alice", 109), Err(ContractError::NotReady));
    assert_eq!(ledger.withdraw(&params, 0, &sig, b"alice", 110), Ok(40));
}

#[test]
fn second_withdrawal_transfers_zero() {
    let mut ledger = Ledger::new("X".to_string());
    let (sk1, a) = generate_account(1);
    let (sk2, b) = generate_account(2);
    let params = params_of(a, b, 10);
    let ch = params.hash();
    let state = state_of(0, 20, 30);
    ledger.deposit(&ch, &a, 25).unwrap();
    ledger.deposit(&ch, &b, 25).unwrap();
    ledger.register(&params, &state, &sign_state(&params, &state, &sk1, &sk2), 0).unwrap();
    let sig = sign_withdrawal(ch, b"bob", &sk2);
    assert_eq!(ledger.withdraw(&params, 1, &sig, b"bob", 10), Ok(30));
    assert_eq!(ledger.withdraw(&params, 1, &sig, b"bob", 11), Ok(0));
    assert_eq!(ledger.query_funds(&ch, &a), Ok(20));
}

#[test]
fn settlement_pays_registered_balances_when_covered() {
    let mut ledger = Ledger::new("X".to_string());
    let (sk1, a) = generate_account(1);
    let (sk2, b) = generate_account(2);
    let params = params_of(a, b, 10);
    let ch = params.hash();
    let state = state_of(4, 30, 70);
    ledger.deposit(&ch, &a, 50).unwrap();
    ledger.deposit(&ch, &b, 50).unwrap();
    ledger.register(&params, &state, &sign_state(&params, &state, &sk1, &sk2), 0).unwrap();
    assert_eq!(ledger.ensure_settled(&ch, &params, 10), Ok(()));
    assert_eq!(ledger.query_funds(&ch, &a), Ok(30));
    assert_eq!(ledger.query_funds(&ch, &b), Ok(70));
    assert!(ledger.record_of(&ch).unwrap().settled);
    assert_eq!(ledger.ensure_settled(&ch, &params, 11), Ok(()));
    assert_eq!(ledger.query_funds(&ch, &a), Ok(30));
}

#[test]
fn settlement_keeps_deposits_when_overclaimed() {
    let mut ledger = Ledger::new("X".to_string());
    let (sk1, a) = generate_account(1);
    let (sk2, b) = generate_account(2);
    let params = params_of(a, b, 10);
    let ch = params.hash();
    let state = state_of(0, 5, 20);
    ledger.deposit(&ch, &a, 10).unwrap();
    ledger.deposit(&ch, &b, 3).unwrap();
    ledger.register(&params, &state, &sign_state(&params, &state, &sk1, &sk2), 0).unwrap();
    let sig = sign_withdrawal(ch, b"alice", &sk1);
    assert_eq!(ledger.withdraw(&params, 0, &sig, b"alice", 10), Ok(10));
    assert_eq!(ledger.query_funds(&ch, &b), Ok(3));
}

#[test]
fn end_to_end_scenario() {
    let mut ledger = Ledger::instantiate(InitMsg { denom: "X".to_string() });
    assert_eq!(ledger.query_denom(), "X");
    let (sk1, a) = generate_account(3);
    let (sk2, b) = generate_account(4);
    let params = params_of(a, b, 60);
    let ch = params.hash();
    ledger.deposit(&ch, &a, 123).unwrap();
    let state = state_of(0, 123, 0);
    ledger.register(&params, &state, &sign_state(&params, &state, &sk1, &sk2), 500).unwrap();
    let sig = sign_withdrawal(ch, b"receiver-of-a", &sk1);
    assert_eq!(ledger.withdraw(&params, 0, &sig, b"receiver-of-a", 560), Ok(123));
    assert_eq!(ledger.withdraw(&params, 0, &sig, b"receiver-of-a", 561), Ok(0));
}

#[test]
fn register_with_one_bad_signature_fails() {
    let mut ledger = Ledger::new("X".to_string());
    let (sk1, a) = generate_account(1);
    let (sk2, b) = generate_account(2);
    let (sk3, _) = generate_account(3);
    let params = params_of(a, b, 10);
    let first = state_of(1, 1, 1);
    ledger.register(&params, &first, &sign_state(&params, &first, &sk1, &sk2), 0).unwrap();
    let second = state_of(2, 2, 0);
    let sigs = sign_state(&params, &second, &sk1, &sk3);
    assert_eq!(ledger.register(&params, &second, &sigs, 50), Err(ContractError::InvalidSignature));
    let swapped = sign_state(&params, &second, &sk2, &sk1);
    assert_eq!(ledger.register(&params, &second, &swapped, 50), Err(ContractError::InvalidSignature));
    let rec = ledger.record_of(&params.hash()).unwrap();
    assert_eq!((rec.state_l2.version, rec.timestamp), (1, 0));
}

#[test]
fn withdraw_signed_for_another_receiver_fails() {
    let mut ledger = Ledger::new("X".to_string());
    let (sk1, a) = generate_account(1);
    let (sk2, b) = generate_account(2);
    let params = params_of(a, b, 10);
    let ch = params.hash();
    let state = state_of(0, 5, 0);
    ledger.deposit(&ch, &a, 5).unwrap();
    ledger.register(&params, &state, &sign_state(&params, &state, &sk1, &sk2), 0).unwrap();
    let sig = sign_withdrawal(ch, b"alice", &sk1);
    assert_eq!(ledger.withdraw(&params, 0, &sig, b"mallory", 10), Err(ContractError::InvalidWithdrawal));
    assert!(!ledger.record_of(&ch).unwrap().settled);
    assert_eq!(ledger.query_funds(&ch, &a), Ok(5));
    assert_eq!(ledger.withdraw(&params, 1, &sig, b"alice", 10), Err(ContractError::InvalidWithdrawal));
    assert_eq!(ledger.withdraw(&params, 2, &sig, b"alice", 10), Err(ContractError::InvalidInput));
    assert_eq!(ledger.withdraw(&params, 0, &sig, b"alice", 10), Ok(5));
}

#[test]
fn signature_checks_recover_the_signer() {
    let (sk1, a) = generate_account(1);
    let (_, b) = generate_account(2);
    let params = params_of(a, b, 10);
    let state = state_of(0, 1, 2);
    let d = state_digest(&params, &state);
    let sig = sign_digest(&sk1, &d);
    assert!(verify_signature(&d, &sig, &a));
    assert!(!verify_signature(&d, &sig, &b));
    assert!(verify_state(&params, &state, &sig, &a));
    assert!(!verify_state(&params, &state_of(1, 1, 2), &sig, &a));
    let bad_id = Signature { v: 5, ..sig };
    assert!(!verify_signature(&d, &bad_id, &a));
    let ch = params.hash();
    let wsig = sign_withdrawal(ch, b"alice", &sk1);
    assert!(verify_withdrawal(&ch, b"alice", &wsig, &a));
    assert!(!verify_withdrawal(&ch, b"bob", &wsig, &a));
}

#[test]
fn deposit_of_attached_coins() {
    let mut ledger = Ledger::new("X".to_string());
    let (_, a) = generate_account(1);
    let ch = [7u8; 32];
    let coin = |denom: &str, amount: u128| Coin { denom: denom.to_string(), amount };
    ledger.deposit_funds(&ch, &a, &vec![coin("X", 100), coin("X", 23)]).unwrap();
    assert_eq!(ledger.query_funds(&ch, &a), Ok(123));
    assert_eq!(
        ledger.deposit_funds(&ch, &a, &vec![coin("X", 1), coin("Y", 1)]),
        Err(ContractError::InvalidInput)
    );
    assert_eq!(
        ledger.deposit_funds(&ch, &a, &vec![coin("X", u128::MAX), coin("X", 1)]),
        Err(ContractError::Overflow)
    );
    assert_eq!(
        ledger.deposit_funds(&ch, &a, &vec![coin("X", u128::MAX - 122)]),
        Err(ContractError::Overflow)
    );
    assert_eq!(ledger.query_funds(&ch, &a), Ok(123));
    ledger.deposit_funds(&ch, &a, &vec![]).unwrap();
    assert_eq!(ledger.query_funds(&ch, &a), Ok(123));
}

#[test]
fn execute_and_query_dispatch() {
    let mut ledger = Ledger::instantiate(InitMsg { denom: "X".to_string() });
    let (sk1, a) = generate_account(1);
    let (sk2, b) = generate_account(2);
    let params = params_of(a, b, 10);
    let ch = params.hash();
    let coins = vec![Coin { denom: "X".to_string(), amount: 9 }];
    let deposit = HandleMsg::Deposit { channel: ch, account: a };
    assert_eq!(ledger.execute(&deposit, &coins, b"alice", 0), Ok(0));
    let state = state_of(0, 9, 0);
    let sigs = sign_state(&params, &state, &sk1, &sk2);
    let register = HandleMsg::Register { params, state, sigs };
    assert_eq!(ledger.execute(&register, &vec![], b"alice", 0), Ok(0));
    let sig = sign_withdrawal(ch, b"alice", &sk1);
    let withdraw = HandleMsg::Withdraw { params, account_index: 0, sig };
    assert_eq!(ledger.execute(&withdraw, &vec![], b"alice", 9), Err(ContractError::NotReady));
    assert_eq!(ledger.execute(&withdraw, &vec![], b"alice", 10), Ok(9));
    match ledger.query(&QueryMsg::GetDenom {}) {
        Ok(QueryResponse::Denom(d)) => assert_eq!(d, "X"),
        other => panic!("unexpected answer {:?}", other),
    }
    match ledger.query(&QueryMsg::GetFunding { channel: ch, account: a }) {
        Ok(QueryResponse::Funding(v)) => assert_eq!(v, 0),
        other => panic!("unexpected answer {:?}", other),
    }
    assert!(matches!(
        ledger.query(&QueryMsg::GetFunding { channel: ch, account: [0; 20] }),
        Err(ContractError::NotFound)
    ));
}
