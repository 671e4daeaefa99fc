use crate::crypto::{
    channel_id_of, signed_by, state_digest, verify_state, verify_withdrawal, withdrawal_digest,
};
use crate::error::ContractError;
use crate::msg::{HandleMsg, InitMsg, QueryMsg, QueryResponse};
use crate::state::{window_elapsed, RegisteredChannelState};
use crate::types::{
    bytes_eq, coins_total, Account, ChannelID, ChannelParameters, ChannelState, Coin, Signature,
    Timestamp,
};
use vstd::prelude::*;

verus! {

/// Deposit balances, keyed by (account, channel).
pub type FundsMap = Map<(Seq<u8>, Seq<u8>), u128>;

/// Registered records, keyed by channel.
pub type RecordsMap = Map<Seq<u8>, RegisteredChannelState>;

/// One deposit balance.
#[derive(Clone, Copy, Debug)]
pub struct AssetEntry {
    pub account: Account,
    pub channel: ChannelID,
    pub amount: u128,
}

/// One registered record.
#[derive(Clone, Copy, Debug)]
pub struct StateEntry {
    pub channel: ChannelID,
    pub record: RegisteredChannelState,
}

/// The arbiter's persistent state: the denomination, the deposit balances and
/// the registered records.
pub struct Ledger {
    denom: String,
    assets: Vec<AssetEntry>,
    states: Vec<StateEntry>,
    funds: Ghost<FundsMap>,
    records: Ghost<RecordsMap>,
}

/// The key of a deposit entry: its account and channel.
pub open spec fn asset_key(e: AssetEntry) -> (Seq<u8>, Seq<u8>) {
    (e.account@, e.channel@)
}

/// The balance of key `k`; a key never credited holds zero.
pub open spec fn balance_of(funds: FundsMap, k: (Seq<u8>, Seq<u8>)) -> u128 {
    if funds.contains_key(k) {
        funds[k]
    } else {
        0
    }
}

/// The record of channel `ch`, if any.
pub open spec fn record_at(records: RecordsMap, ch: Seq<u8>) -> Option<RegisteredChannelState> {
    if records.contains_key(ch) {
        Some(records[ch])
    } else {
        None
    }
}

/// A record of `state` registered at `now`, not settled.
pub open spec fn fresh_record(state: ChannelState, now: Timestamp) -> RegisteredChannelState {
    RegisteredChannelState { state_l2: state, timestamp: now, settled: false }
}

/// The record after registering `state` at `now` over `prev`: the old record
/// stays when it has a higher version or its challenge window is still open.
pub open spec fn next_record(
    prev: Option<RegisteredChannelState>,
    state: ChannelState,
    duration: u64,
    now: Timestamp,
) -> RegisteredChannelState {
    match prev {
        None => fresh_record(state, now),
        Some(p) => if p.state_l2.version > state.version {
            p
        } else if !window_elapsed(p, now, duration) {
            p
        } else {
            fresh_record(state, now)
        },
    }
}

/// The deposits `d0 + d1` cover the claimed balances `b0 + b1`.
pub open spec fn covers(d0: u128, d1: u128, b0: u128, b1: u128) -> bool {
    d0 + d1 >= b0 + b1
}

/// The deposit balances after reconciling channel `ch` with record `rec`.
pub open spec fn reconciled(
    funds: FundsMap,
    p: ChannelParameters,
    ch: Seq<u8>,
    rec: RegisteredChannelState,
) -> FundsMap {
    let k0 = (p.participants[0]@, ch);
    let k1 = (p.participants[1]@, ch);
    let b = rec.state_l2.balance;
    if covers(balance_of(funds, k0), balance_of(funds, k1), b[0], b[1]) {
        funds.insert(k0, b[0]).insert(k1, b[1])
    } else {
        funds
    }
}

/// The deposit balances once channel `ch` is settled: reconciled the first
/// time, unchanged after.
pub open spec fn settled_funds(
    funds: FundsMap,
    records: RecordsMap,
    p: ChannelParameters,
    ch: Seq<u8>,
) -> FundsMap {
    if records[ch].settled {
        funds
    } else {
        reconciled(funds, p, ch, records[ch])
    }
}

/// The records once channel `ch` is settled.
pub open spec fn settled_records(records: RecordsMap, ch: Seq<u8>) -> RecordsMap {
    records.insert(
        ch,
        RegisteredChannelState {
            state_l2: records[ch].state_l2,
            timestamp: records[ch].timestamp,
            settled: true,
        },
    )
}

/// Whether channel `ch` may be settled at `now`, and if not, why.
pub open spec fn settle_check(
    records: RecordsMap,
    ch: Seq<u8>,
    duration: u64,
    now: Timestamp,
) -> Result<(), ContractError> {
    if !records.contains_key(ch) {
        Err(ContractError::NotFound)
    } else if !window_elapsed(records[ch], now, duration) {
        Err(ContractError::NotReady)
    } else {
        Ok(())
    }
}

/// What crediting `coins` to key `k` gives: the new balances, or the error.
pub open spec fn deposit_outcome(
    funds: FundsMap,
    denom: Seq<char>,
    k: (Seq<u8>, Seq<u8>),
    coins: Seq<Coin>,
) -> Result<FundsMap, ContractError> {
    let total = balance_of(funds, k) + coins_total(coins);
    if !all_of_denom(coins, denom) {
        Err(ContractError::InvalidInput)
    } else if total > u128::MAX {
        Err(ContractError::Overflow)
    } else {
        Ok(funds.insert(k, total as u128))
    }
}

/// What registering `state` with signatures `sigs` at `now` gives: the new
/// records, or the error.
pub open spec fn register_outcome(
    records: RecordsMap,
    p: ChannelParameters,
    state: ChannelState,
    sigs: [Signature; 2],
    now: Timestamp,
) -> Result<RecordsMap, ContractError> {
    let d = state_digest(p, state);
    let ch = channel_id_of(p);
    if signed_by(d, sigs[0], p.participants[0]@) && signed_by(d, sigs[1], p.participants[1]@) {
        Ok(records.insert(ch, next_record(record_at(records, ch), state, p.challenge_duration, now)))
    } else {
        Err(ContractError::InvalidSignature)
    }
}

/// What a withdrawal by participant `index` to `receiver` at `now` gives: the
/// new balances and records and the amount paid out, or the error.
pub open spec fn withdraw_outcome(
    funds: FundsMap,
    records: RecordsMap,
    p: ChannelParameters,
    index: u16,
    sig: Signature,
    receiver: Seq<u8>,
    now: Timestamp,
) -> Result<(FundsMap, RecordsMap, u128), ContractError> {
    let ch = channel_id_of(p);
    if index > 1 {
        Err(ContractError::InvalidInput)
    } else if settle_check(records, ch, p.challenge_duration, now) is Err {
        Err(settle_check(records, ch, p.challenge_duration, now)->Err_0)
    } else if !signed_by(withdrawal_digest(ch, receiver), sig, p.participants[index as int]@) {
        Err(ContractError::InvalidWithdrawal)
    } else {
        let acc = p.participants[index as int]@;
        let settled = settled_funds(funds, records, p, ch);
        Ok((settled.insert((acc, ch), 0), settled_records(records, ch), balance_of(settled, (acc, ch))))
    }
}

/// Every coin is of denomination `denom`.
pub open spec fn all_of_denom(coins: Seq<Coin>, denom: Seq<char>) -> bool {
    forall|i: int| 0 <= i < coins.len() ==> #[trigger] coins[i].denom@ == denom
}

/// Whether `d0 + d1 >= b0 + b1`, computed without overflow.
pub fn deposits_cover(d0: u128, d1: u128, b0: u128, b1: u128) -> (r: bool)
    ensures
        r == covers(d0, d1, b0, b1),
{
    if d0 >= b0 {
        let surplus = d0 - b0;
        b1 <= surplus || d1 >= b1 - surplus
    } else {
        let deficit = b0 - d0;
        d1 >= deficit && d1 - deficit >= b1
    }
}

/// The deposit entries hold each key once and agree with `funds`.
pub closed spec fn assets_wf(assets: Seq<AssetEntry>, funds: FundsMap) -> bool {
    &&& forall|i: int, j: int|
        0 <= i < j < assets.len() ==> asset_key(assets[i]) != asset_key(assets[j])
    &&& forall|i: int|
        0 <= i < assets.len() ==> funds.contains_key(#[trigger] asset_key(assets[i]))
            && funds[asset_key(assets[i])] == assets[i].amount
    &&& forall|k: (Seq<u8>, Seq<u8>)|
        #[trigger] funds.contains_key(k) ==> exists|i: int|
            0 <= i < assets.len() && #[trigger] asset_key(assets[i]) == k
}

/// The record entries hold each channel once and agree with `records`.
pub closed spec fn states_wf(states: Seq<StateEntry>, records: RecordsMap) -> bool {
    &&& forall|i: int, j: int|
        0 <= i < j < states.len() ==> states[i].channel@ != states[j].channel@
    &&& forall|i: int|
        0 <= i < states.len() ==> records.contains_key(#[trigger] states[i].channel@)
            && records[states[i].channel@] == states[i].record
    &&& forall|k: Seq<u8>|
        #[trigger] records.contains_key(k) ==> exists|i: int|
            0 <= i < states.len() && #[trigger] states[i].channel@ == k
}

proof fn lemma_assets_set(assets: Seq<AssetEntry>, funds: FundsMap, i: int, e: AssetEntry)
    requires
        assets_wf(assets, funds),
        0 <= i < assets.len(),
        asset_key(assets[i]) == asset_key(e),
    ensures
        assets_wf(assets.update(i, e), funds.insert(asset_key(e), e.amount)),
{
    let a2 = assets.update(i, e);
    let f2 = funds.insert(asset_key(e), e.amount);
    assert forall|j: int| 0 <= j < a2.len() implies #[trigger] asset_key(a2[j]) == asset_key(
        assets[j],
    ) by {}
    assert forall|k: (Seq<u8>, Seq<u8>)| #[trigger] f2.contains_key(k) implies exists|j: int|
        0 <= j < a2.len() && #[trigger] asset_key(a2[j]) == k by {
        if k == asset_key(e) {
            assert(asset_key(a2[i]) == k);
        } else {
            let j = choose|j: int| 0 <= j < assets.len() && #[trigger] asset_key(assets[j]) == k;
            assert(asset_key(a2[j]) == k);
        }
    }
}

proof fn lemma_assets_push(assets: Seq<AssetEntry>, funds: FundsMap, e: AssetEntry)
    requires
        assets_wf(assets, funds),
        !funds.contains_key(asset_key(e)),
    ensures
        assets_wf(assets.push(e), funds.insert(asset_key(e), e.amount)),
{
    let a2 = assets.push(e);
    let f2 = funds.insert(asset_key(e), e.amount);
    let n = assets.len() as int;
    assert(asset_key(a2[n]) == asset_key(e));
    assert forall|k: (Seq<u8>, Seq<u8>)| #[trigger] f2.contains_key(k) implies exists|j: int|
        0 <= j < a2.len() && #[trigger] asset_key(a2[j]) == k by {
        if k == asset_key(e) {
            assert(asset_key(a2[n]) == k);
        } else {
            let j = choose|j: int| 0 <= j < assets.len() && #[trigger] asset_key(assets[j]) == k;
            assert(asset_key(a2[j]) == k);
        }
    }
    assert forall|a: int, b: int| 0 <= a < b < a2.len() implies asset_key(a2[a]) != asset_key(
        a2[b],
    ) by {
        if b == n {
            assert(funds.contains_key(asset_key(assets[a])));
        }
    }
}

proof fn lemma_states_set(states: Seq<StateEntry>, records: RecordsMap, i: int, e: StateEntry)
    requires
        states_wf(states, records),
        0 <= i < states.len(),
        states[i].channel@ == e.channel@,
    ensures
        states_wf(states.update(i, e), records.insert(e.channel@, e.record)),
{
    let s2 = states.update(i, e);
    let r2 = records.insert(e.channel@, e.record);
    assert forall|j: int| 0 <= j < s2.len() implies #[trigger] s2[j].channel@
        == states[j].channel@ by {}
    assert forall|k: Seq<u8>| #[trigger] r2.contains_key(k) implies exists|j: int|
        0 <= j < s2.len() && #[trigger] s2[j].channel@ == k by {
        if k == e.channel@ {
            assert(s2[i].channel@ == k);
        } else {
            let j = choose|j: int| 0 <= j < states.len() && #[trigger] states[j].channel@ == k;
            assert(s2[j].channel@ == k);
        }
    }
}

proof fn lemma_states_push(states: Seq<StateEntry>, records: RecordsMap, e: StateEntry)
    requires
        states_wf(states, records),
        !records.contains_key(e.channel@),
    ensures
        states_wf(states.push(e), records.insert(e.channel@, e.record)),
{
    let s2 = states.push(e);
    let r2 = records.insert(e.channel@, e.record);
    let n = states.len() as int;
    assert(s2[n].channel@ == e.channel@);
    assert forall|k: Seq<u8>| #[trigger] r2.contains_key(k) implies exists|j: int|
        0 <= j < s2.len() && #[trigger] s2[j].channel@ == k by {
        if k == e.channel@ {
            assert(s2[n].channel@ == k);
        } else {
            let j = choose|j: int| 0 <= j < states.len() && #[trigger] states[j].channel@ == k;
            assert(s2[j].channel@ == k);
        }
    }
    assert forall|a: int, b: int| 0 <= a < b < s2.len() implies s2[a].channel@
        != s2[b].channel@ by {
        if b == n {
            assert(records.contains_key(states[a].channel@));
        }
    }
}

impl Ledger {
    /// The deposit balances.
    pub closed spec fn funds(&self) -> FundsMap {
        self.funds@
    }

    /// The registered records.
    pub closed spec fn records(&self) -> RecordsMap {
        self.records@
    }

    /// The configured denomination.
    pub closed spec fn denom_view(&self) -> Seq<char> {
        self.denom@
    }

    /// The entries hold each key once and agree with the two maps.
    pub closed spec fn wf(&self) -> bool {
        &&& assets_wf(self.assets@, self.funds@)
        &&& states_wf(self.states@, self.records@)
    }

    /// A ledger for funds of denomination `denom`, with no deposit and no record.
    pub fn new(denom: String) -> (r: Ledger)
        ensures
            r.wf(),
            r.denom_view() == denom@,
            r.funds() == FundsMap::empty(),
            r.records() == RecordsMap::empty(),
    {
        Ledger {
            denom,
            assets: Vec::new(),
            states: Vec::new(),
            funds: Ghost(Map::empty()),
            records: Ghost(Map::empty()),
        }
    }

    /// Sets the ledger up with the configured denomination.
    pub fn instantiate(msg: InitMsg) -> (r: Ledger)
        ensures
            r.wf(),
            r.denom_view() == msg.denom@,
            r.funds() == FundsMap::empty(),
            r.records() == RecordsMap::empty(),
    {
        Ledger::new(msg.denom)
    }

    fn find_asset(&self, account: &Account, channel: &ChannelID) -> (r: Option<usize>)
        requires
            self.wf(),
        ensures
            match r {
                Some(i) => i < self.assets@.len() && asset_key(self.assets@[i as int]) == (
                    account@,
                    channel@,
                ),
                None => !self.funds@.contains_key((account@, channel@)),
            },
    {
        let mut i: usize = 0;
        while i < self.assets.len()
            invariant
                i <= self.assets@.len(),
                self.wf(),
                forall|j: int| 0 <= j < i ==> asset_key(self.assets@[j]) != (account@, channel@),
            decreases self.assets@.len() - i,
        {
            if bytes_eq(&self.assets[i].account, account) && bytes_eq(
                &self.assets[i].channel,
                channel,
            ) {
                return Some(i);
            }
            i = i + 1;
        }
        None
    }

    fn find_state(&self, channel: &ChannelID) -> (r: Option<usize>)
        requires
            self.wf(),
        ensures
            match r {
                Some(i) => i < self.states@.len() && self.states@[i as int].channel@ == channel@,
                None => !self.records@.contains_key(channel@),
            },
    {
        let mut i: usize = 0;
        while i < self.states.len()
            invariant
                i <= self.states@.len(),
                self.wf(),
                forall|j: int| 0 <= j < i ==> self.states@[j].channel@ != channel@,
            decreases self.states@.len() - i,
        {
            if bytes_eq(&self.states[i].channel, channel) {
                return Some(i);
            }
            i = i + 1;
        }
        None
    }

    /// The deposit balance of `account` in `channel`; zero where none was made.
    pub fn funding_of(&self, account: &Account, channel: &ChannelID) -> (r: u128)
        requires
            self.wf(),
        ensures
            r == balance_of(self.funds(), (account@, channel@)),
    {
        match self.find_asset(account, channel) {
            Some(i) => self.assets[i].amount,
            None => 0,
        }
    }

    /// The record of `channel`, if one was registered.
    pub fn record_of(&self, channel: &ChannelID) -> (r: Option<RegisteredChannelState>)
        requires
            self.wf(),
        ensures
            r == record_at(self.records(), channel@),
    {
        match self.find_state(channel) {
            Some(i) => Some(self.states[i].record),
            None => None,
        }
    }

    fn set_funds(&mut self, account: &Account, channel: &ChannelID, amount: u128)
        requires
            old(self).wf(),
        ensures
            final(self).wf(),
            final(self).funds@ == old(self).funds@.insert((account@, channel@), amount),
            final(self).records@ == old(self).records@,
            final(self).states@ == old(self).states@,
            final(self).denom == old(self).denom,
    {
        let entry = AssetEntry { account: *account, channel: *channel, amount };
        proof {
            assert(asset_key(entry) == (account@, channel@));
        }
        match self.find_asset(account, channel) {
            Some(i) => {
                proof {
                    lemma_assets_set(self.assets@, self.funds@, i as int, entry);
                }
                self.assets.set(i, entry);
            },
            None => {
                proof {
                    lemma_assets_push(self.assets@, self.funds@, entry);
                }
                self.assets.push(entry);
            },
        }
        self.funds = Ghost(self.funds@.insert((account@, channel@), amount));
    }

    fn set_record(&mut self, channel: &ChannelID, rec: RegisteredChannelState)
        requires
            old(self).wf(),
        ensures
            final(self).wf(),
            final(self).records@ == old(self).records@.insert(channel@, rec),
            final(self).funds@ == old(self).funds@,
            final(self).assets@ == old(self).assets@,
            final(self).denom == old(self).denom,
    {
        let entry = StateEntry { channel: *channel, record: rec };
        match self.find_state(channel) {
            Some(i) => {
                proof {
                    lemma_states_set(self.states@, self.records@, i as int, entry);
                }
                self.states.set(i, entry);
            },
            None => {
                proof {
                    lemma_states_push(self.states@, self.records@, entry);
                }
                self.states.push(entry);
            },
        }
        self.records = Ghost(self.records@.insert(channel@, rec));
    }

    /// The configured denomination.
    pub fn query_denom(&self) -> (r: String)
        ensures
            r@ == self.denom_view(),
    {
        self.denom.clone()
    }

    /// The deposit balance of `account` in `channel`; `NotFound` where that
    /// key was never credited.
    pub fn query_funds(&self, channel: &ChannelID, account: &Account) -> (r: Result<
        u128,
        ContractError,
    >)
        requires
            self.wf(),
        ensures
            self.funds().contains_key((account@, channel@)) ==> r == Ok::<u128, ContractError>(
                self.funds()[(account@, channel@)],
            ),
            !self.funds().contains_key((account@, channel@)) ==> r == Err::<u128, ContractError>(
                ContractError::NotFound,
            ),
    {
        match self.find_asset(account, channel) {
            Some(i) => Ok(self.assets[i].amount),
            None => Err(ContractError::NotFound),
        }
    }

    /// Credits `amount` to `account` in `channel`. Anyone may fund any
    /// account; a balance that would overflow fails the call.
    pub fn deposit(&mut self, channel: &ChannelID, account: &Account, amount: u128) -> (r: Result<
        (),
        ContractError,
    >)
        requires
            old(self).wf(),
        ensures
            final(self).wf(),
            balance_of(old(self).funds(), (account@, channel@)) + amount <= u128::MAX ==> r == Ok::<
                (),
                ContractError,
            >(()) && final(self).funds() == old(self).funds().insert(
                (account@, channel@),
                (balance_of(old(self).funds(), (account@, channel@)) + amount) as u128,
            ) && final(self).records() == old(self).records() && final(self).denom_view()
                == old(self).denom_view(),
            balance_of(old(self).funds(), (account@, channel@)) + amount > u128::MAX ==> r == Err::<
                (),
                ContractError,
            >(ContractError::Overflow) && *final(self) == *old(self),
    {
        let current = self.funding_of(account, channel);
        match current.checked_add(amount) {
            Some(total) => {
                self.set_funds(account, channel, total);
                Ok(())
            },
            None => Err(ContractError::Overflow),
        }
    }

    /// Credits the attached `funds` to `account` in `channel`. Every coin must
    /// be of the configured denomination (else `InvalidInput`); a balance that
    /// would overflow fails with `Overflow`.
    pub fn deposit_funds(
        &mut self,
        channel: &ChannelID,
        account: &Account,
        funds: &Vec<Coin>,
    ) -> (r: Result<(), ContractError>)
        requires
            old(self).wf(),
        ensures
            final(self).wf(),
            match deposit_outcome(
                old(self).funds(),
                old(self).denom_view(),
                (account@, channel@),
                funds@,
            ) {
                Ok(f) => r == Ok::<(), ContractError>(()) && final(self).funds() == f
                    && final(self).records() == old(self).records()
                    && final(self).denom_view() == old(self).denom_view(),
                Err(e) => r == Err::<(), ContractError>(e) && *final(self) == *old(self),
            },
    {
        let mut i: usize = 0;
        while i < funds.len()
            invariant
                i <= funds@.len(),
                self.wf(),
                *self == *old(self),
                forall|j: int| 0 <= j < i ==> funds@[j].denom@ == self.denom@,
            decreases funds@.len() - i,
        {
            if funds[i].denom != self.denom {
                return Err(ContractError::InvalidInput);
            }
            i = i + 1;
        }
        let mut sum: u128 = 0;
        let mut overflow = false;
        let mut i: usize = 0;
        while i < funds.len()
            invariant
                i <= funds@.len(),
                self.wf(),
                *self == *old(self),
                forall|j: int| 0 <= j < funds@.len() ==> funds@[j].denom@ == self.denom@,
                !overflow ==> sum == coins_total(funds@.subrange(0, i as int)),
                overflow ==> coins_total(funds@.subrange(0, i as int)) > u128::MAX,
            decreases funds@.len() - i,
        {
            proof {
                assert(funds@.subrange(0, i + 1 as int).drop_last() =~= funds@.subrange(
                    0,
                    i as int,
                ));
                lemma_coins_total_nonneg(funds@.subrange(0, i as int));
            }
            if !overflow {
                match sum.checked_add(funds[i].amount) {
                    Some(s) => sum = s,
                    None => overflow = true,
                }
            }
            i = i + 1;
        }
        assert(funds@.subrange(0, i as int) =~= funds@);
        if overflow {
            proof { lemma_coins_total_nonneg(funds@); }
            return Err(ContractError::Overflow);
        }
        self.deposit(channel, account, sum)
    }

    /// Registers `state` for `channel_id` at `now`, whose signatures have
    /// been checked: a first record is created; an existing one is replaced
    /// only when its version is not higher and its challenge window has
    /// elapsed, which restarts the window.
    pub fn apply_registration(
        &mut self,
        channel_id: &ChannelID,
        challenge_duration: u64,
        state: &ChannelState,
        now: Timestamp,
    )
        requires
            old(self).wf(),
        ensures
            final(self).wf(),
            final(self).records() == old(self).records().insert(
                channel_id@,
                next_record(
                    record_at(old(self).records(), channel_id@),
                    *state,
                    challenge_duration,
                    now,
                ),
            ),
            final(self).funds() == old(self).funds(),
            final(self).denom_view() == old(self).denom_view(),
    {
        let fresh = RegisteredChannelState { state_l2: *state, timestamp: now, settled: false };
        let rec = match self.record_of(channel_id) {
            None => fresh,
            Some(prev) => {
                let stale = prev.state_l2.version > state.version;
                let window_open = !(now >= prev.timestamp && now - prev.timestamp
                    >= challenge_duration);
                if stale || window_open {
                    prev
                } else {
                    fresh
                }
            },
        };
        self.set_record(channel_id, rec);
    }

    /// Registers `state`, signed by both participants, at time `now`. Both
    /// signatures are checked before anything is written.
    pub fn register(
        &mut self,
        params: &ChannelParameters,
        state: &ChannelState,
        sigs: &[Signature; 2],
        now: Timestamp,
    ) -> (r: Result<(), ContractError>)
        requires
            old(self).wf(),
        ensures
            final(self).wf(),
            match register_outcome(old(self).records(), *params, *state, *sigs, now) {
                Ok(recs) => r == Ok::<(), ContractError>(()) && final(self).records() == recs
                    && final(self).funds() == old(self).funds()
                    && final(self).denom_view() == old(self).denom_view(),
                Err(e) => r == Err::<(), ContractError>(e) && *final(self) == *old(self),
            },
    {
        if !verify_state(params, state, &sigs[0], &params.participants[0]) {
            return Err(ContractError::InvalidSignature);
        }
        if !verify_state(params, state, &sigs[1], &params.participants[1]) {
            return Err(ContractError::InvalidSignature);
        }
        let channel_id = params.hash();
        self.apply_registration(&channel_id, params.challenge_duration, state, now);
        Ok(())
    }

    /// Whether `channel_id` may be settled at `now`, without changing anything.
    pub fn settle_ready(
        &self,
        channel_id: &ChannelID,
        params: &ChannelParameters,
        now: Timestamp,
    ) -> (r: Result<(), ContractError>)
        requires
            self.wf(),
        ensures
            r == settle_check(self.records(), channel_id@, params.challenge_duration, now),
    {
        match self.record_of(channel_id) {
            None => Err(ContractError::NotFound),
            Some(rec) => if rec.timed_out(now, params) {
                Ok(())
            } else {
                Err(ContractError::NotReady)
            },
        }
    }

    /// Settles channel `channel_id` of parameters `params` once its challenge
    /// window has elapsed. The first time, when the participants' deposits
    /// cover the registered balances, each deposit becomes its registered
    /// balance; the record is then marked settled. Later calls change nothing.
    pub fn ensure_settled(
        &mut self,
        channel_id: &ChannelID,
        params: &ChannelParameters,
        now: Timestamp,
    ) -> (r: Result<(), ContractError>)
        requires
            old(self).wf(),
        ensures
            final(self).wf(),
            r == settle_check(old(self).records(), channel_id@, params.challenge_duration, now),
            r is Err ==> *final(self) == *old(self),
            r is Ok ==> final(self).funds() == settled_funds(
                old(self).funds(),
                old(self).records(),
                *params,
                channel_id@,
            ) && final(self).records() == settled_records(old(self).records(), channel_id@)
                && final(self).denom_view() == old(self).denom_view(),
    {
        let rec = match self.record_of(channel_id) {
            None => return Err(ContractError::NotFound),
            Some(rec) => rec,
        };
        if !rec.timed_out(now, params) {
            return Err(ContractError::NotReady);
        }
        if rec.settled {
            proof {
                assert(settled_records(self.records@, channel_id@) =~= self.records@);
            }
            return Ok(());
        }
        let d0 = self.funding_of(&params.participants[0], channel_id);
        let d1 = self.funding_of(&params.participants[1], channel_id);
        let b0 = rec.state_l2.balance[0];
        let b1 = rec.state_l2.balance[1];
        if deposits_cover(d0, d1, b0, b1) {
            self.set_funds(&params.participants[0], channel_id, b0);
            self.set_funds(&params.participants[1], channel_id, b1);
        }
        let settled = RegisteredChannelState {
            state_l2: rec.state_l2,
            timestamp: rec.timestamp,
            settled: true,
        };
        self.set_record(channel_id, settled);
        Ok(())
    }

    /// Empties the balance of `account` in `channel` and returns what it held.
    pub fn take_funds(&mut self, account: &Account, channel: &ChannelID) -> (r: u128)
        requires
            old(self).wf(),
        ensures
            final(self).wf(),
            r == balance_of(old(self).funds(), (account@, channel@)),
            final(self).funds() == old(self).funds().insert((account@, channel@), 0),
            final(self).records() == old(self).records(),
            final(self).denom_view() == old(self).denom_view(),
    {
        let amount = self.funding_of(account, channel);
        self.set_funds(account, channel, 0);
        amount
    }

    /// Withdraws the whole balance of participant `account_index` to the
    /// address `receiver`, at time `now`, settling the channel first. The
    /// signature must be that participant's over the channel and `receiver`.
    /// Returns the amount to transfer to `receiver`.
    pub fn withdraw(
        &mut self,
        params: &ChannelParameters,
        account_index: u16,
        sig: &Signature,
        receiver: &[u8],
        now: Timestamp,
    ) -> (r: Result<u128, ContractError>)
        requires
            old(self).wf(),
            receiver@.len() <= usize::MAX - 32,
        ensures
            final(self).wf(),
            match withdraw_outcome(
                old(self).funds(),
                old(self).records(),
                *params,
                account_index,
                *sig,
                receiver@,
                now,
            ) {
                Ok((f, recs, amount)) => r == Ok::<u128, ContractError>(amount)
                    && final(self).funds() == f && final(self).records() == recs
                    && final(self).denom_view() == old(self).denom_view(),
                Err(e) => r == Err::<u128, ContractError>(e) && *final(self) == *old(self),
            },
    {
        if account_index > 1 {
            return Err(ContractError::InvalidInput);
        }
        let account = params.participants[account_index as usize];
        let channel_id = params.hash();
        match self.settle_ready(&channel_id, params, now) {
            Err(e) => return Err(e),
            Ok(()) => {},
        }
        if !verify_withdrawal(&channel_id, receiver, sig, &account) {
            return Err(ContractError::InvalidWithdrawal);
        }
        let settled = self.ensure_settled(&channel_id, params, now);
        assert(settled is Ok);
        Ok(self.take_funds(&account, &channel_id))
    }

    /// Performs one call at time `now`: a deposit of the attached `funds`, a
    /// registration, or a withdrawal to the address `sender`. Returns the
    /// amount to transfer to `sender`, which is zero but for a withdrawal.
    pub fn execute(
        &mut self,
        msg: &HandleMsg,
        funds: &Vec<Coin>,
        sender: &[u8],
        now: Timestamp,
    ) -> (r: Result<u128, ContractError>)
        requires
            old(self).wf(),
            sender@.len() <= usize::MAX - 32,
        ensures
            final(self).wf(),
            match *msg {
                HandleMsg::Deposit { channel, account } => match deposit_outcome(
                    old(self).funds(),
                    old(self).denom_view(),
                    (account@, channel@),
                    funds@,
                ) {
                    Ok(f) => r == Ok::<u128, ContractError>(0) && final(self).funds() == f
                        && final(self).records() == old(self).records()
                        && final(self).denom_view() == old(self).denom_view(),
                    Err(e) => r == Err::<u128, ContractError>(e) && *final(self) == *old(self),
                },
                HandleMsg::Register { params, state, sigs } => match register_outcome(
                    old(self).records(),
                    params,
                    state,
                    sigs,
                    now,
                ) {
                    Ok(recs) => r == Ok::<u128, ContractError>(0) && final(self).records() == recs
                        && final(self).funds() == old(self).funds()
                        && final(self).denom_view() == old(self).denom_view(),
                    Err(e) => r == Err::<u128, ContractError>(e) && *final(self) == *old(self),
                },
                HandleMsg::Withdraw { params, account_index, sig } => match withdraw_outcome(
                    old(self).funds(),
                    old(self).records(),
                    params,
                    account_index,
                    sig,
                    sender@,
                    now,
                ) {
                    Ok((f, recs, amount)) => r == Ok::<u128, ContractError>(amount)
                        && final(self).funds() == f && final(self).records() == recs
                        && final(self).denom_view() == old(self).denom_view(),
                    Err(e) => r == Err::<u128, ContractError>(e) && *final(self) == *old(self),
                },
            },
    {
        match msg {
            HandleMsg::Deposit { channel, account } => match self.deposit_funds(
                channel,
                account,
                funds,
            ) {
                Ok(()) => Ok(0),
                Err(e) => Err(e),
            },
            HandleMsg::Register { params, state, sigs } => match self.register(
                params,
                state,
                sigs,
                now,
            ) {
                Ok(()) => Ok(0),
                Err(e) => Err(e),
            },
            HandleMsg::Withdraw { params, account_index, sig } => self.withdraw(
                params,
                *account_index,
                sig,
                sender,
                now,
            ),
        }
    }

    /// Answers a query: the denomination, or the deposit balance of a key
    /// (`NotFound` where that key was never credited).
    pub fn query(&self, msg: &QueryMsg) -> (r: Result<QueryResponse, ContractError>)
        requires
            self.wf(),
        ensures
            match *msg {
                QueryMsg::GetDenom {  } => r is Ok && r->Ok_0 is Denom && r->Ok_0->Denom_0@
                    == self.denom_view(),
                QueryMsg::GetFunding { channel, account } => if self.funds().contains_key(
                    (account@, channel@),
                ) {
                    r == Ok::<QueryResponse, ContractError>(
                        QueryResponse::Funding(self.funds()[(account@, channel@)]),
                    )
                } else {
                    r == Err::<QueryResponse, ContractError>(ContractError::NotFound)
                },
            },
    {
        match msg {
            QueryMsg::GetDenom {  } => Ok(QueryResponse::Denom(self.query_denom())),
            QueryMsg::GetFunding { channel, account } => match self.query_funds(channel, account) {
                Ok(amount) => Ok(QueryResponse::Funding(amount)),
                Err(e) => Err(e),
            },
        }
    }
}

/// Registering a state with a lower version than the registered one leaves
/// the records as they were, whenever it is done.
pub proof fn lemma_stale_version_ignored(
    records: RecordsMap,
    p: ChannelParameters,
    state: ChannelState,
    sigs: [Signature; 2],
    now: Timestamp,
)
    requires
        records.contains_key(channel_id_of(p)),
        records[channel_id_of(p)].state_l2.version > state.version,
    ensures
        register_outcome(records, p, state, sigs, now) is Ok ==> register_outcome(
            records,
            p,
            state,
            sigs,
            now,
        )->Ok_0 == records,
{
    let ch = channel_id_of(p);
    assert(records.insert(ch, records[ch]) =~= records);
}

/// While the challenge window of the registered record is open, registering
/// any state, whatever its version, leaves the records as they were.
pub proof fn lemma_open_window_keeps_record(
    records: RecordsMap,
    p: ChannelParameters,
    state: ChannelState,
    sigs: [Signature; 2],
    now: Timestamp,
)
    requires
        records.contains_key(channel_id_of(p)),
        now < records[channel_id_of(p)].timestamp + p.challenge_duration,
    ensures
        register_outcome(records, p, state, sigs, now) is Ok ==> register_outcome(
            records,
            p,
            state,
            sigs,
            now,
        )->Ok_0 == records,
{
    let ch = channel_id_of(p);
    assert(records.insert(ch, records[ch]) =~= records);
}

/// A withdrawal before the challenge window of the registered record has
/// elapsed fails with `NotReady`; from that moment on, with the participant's
/// signature, it succeeds.
pub proof fn lemma_withdraw_waits_for_window(
    funds: FundsMap,
    records: RecordsMap,
    p: ChannelParameters,
    index: u16,
    sig: Signature,
    receiver: Seq<u8>,
    now: Timestamp,
)
    requires
        records.contains_key(channel_id_of(p)),
        index <= 1,
    ensures
        ({
            let ch = channel_id_of(p);
            let outcome = withdraw_outcome(funds, records, p, index, sig, receiver, now);
            &&& now < records[ch].timestamp + p.challenge_duration ==> outcome == Err::<
                (FundsMap, RecordsMap, u128),
                ContractError,
            >(ContractError::NotReady)
            &&& now >= records[ch].timestamp + p.challenge_duration && signed_by(
                withdrawal_digest(ch, receiver),
                sig,
                p.participants[index as int]@,
            ) ==> outcome is Ok
        }),
{
}

/// Once a withdrawal has succeeded, the same withdrawal made again, then or
/// later, pays nothing and changes nothing.
pub proof fn lemma_second_withdrawal_pays_nothing(
    funds: FundsMap,
    records: RecordsMap,
    p: ChannelParameters,
    index: u16,
    sig: Signature,
    receiver: Seq<u8>,
    now: Timestamp,
    later: Timestamp,
)
    requires
        withdraw_outcome(funds, records, p, index, sig, receiver, now) is Ok,
        later >= now,
    ensures
        ({
            let (f1, r1, paid) = withdraw_outcome(funds, records, p, index, sig, receiver, now)->Ok_0;
            withdraw_outcome(f1, r1, p, index, sig, receiver, later) == Ok::<
                (FundsMap, RecordsMap, u128),
                ContractError,
            >((f1, r1, 0))
        }),
{
    let ch = channel_id_of(p);
    let acc = p.participants[index as int]@;
    let (f1, r1, paid) = withdraw_outcome(funds, records, p, index, sig, receiver, now)->Ok_0;
    assert(r1.contains_key(ch) && r1[ch].settled);
    assert(settled_funds(f1, r1, p, ch) == f1);
    assert(f1.insert((acc, ch), 0) =~= f1);
    assert(settled_records(r1, ch) =~= r1);
}

/// Settling a channel of two distinct participants with deposits `d0`, `d1`
/// and registered balances `b0`, `b1`: where `d0 + d1 >= b0 + b1` each
/// deposit becomes its balance, otherwise the deposits stay as they were.
pub proof fn lemma_settlement_reconciles(
    funds: FundsMap,
    records: RecordsMap,
    p: ChannelParameters,
    ch: Seq<u8>,
)
    requires
        records.contains_key(ch),
        !records[ch].settled,
        p.participants[0]@ != p.participants[1]@,
    ensures
        ({
            let k0 = (p.participants[0]@, ch);
            let k1 = (p.participants[1]@, ch);
            let b = records[ch].state_l2.balance;
            let after = settled_funds(funds, records, p, ch);
            &&& balance_of(funds, k0) + balance_of(funds, k1) >= b[0] + b[1] ==> balance_of(
                after,
                k0,
            ) == b[0] && balance_of(after, k1) == b[1]
            &&& balance_of(funds, k0) + balance_of(funds, k1) < b[0] + b[1] ==> after == funds
        }),
{
}

/// A sum of amounts is never negative.
proof fn lemma_coins_total_nonneg(coins: Seq<Coin>)
    ensures
        coins_total(coins) >= 0,
    decreases coins.len(),
{
    if coins.len() > 0 {
        lemma_coins_total_nonneg(coins.drop_last());
    }
}

} // verus!
