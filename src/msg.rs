use crate::types::{Account, ChannelID, ChannelParameters, ChannelState, Signature};
use vstd::prelude::*;

verus! {

/// The configuration the ledger is set up with.
#[derive(Clone, Debug)]
pub struct InitMsg {
    pub denom: String,
}

/// The calls that change the ledger.
#[derive(Clone, Copy, Debug)]
pub enum HandleMsg {
    /// Credits the attached funds to `account` in `channel`.
    Deposit { channel: ChannelID, account: Account },
    /// Registers a state signed by both participants.
    Register { params: ChannelParameters, state: ChannelState, sigs: [Signature; 2] },
    /// Withdraws the settled balance of one participant to the caller.
    Withdraw { params: ChannelParameters, account_index: u16, sig: Signature },
}

/// The calls that read the ledger.
#[derive(Clone, Copy, Debug)]
pub enum QueryMsg {
    /// The denomination of the channel funds.
    GetDenom {},
    /// The deposit balance of `account` in `channel`.
    GetFunding { channel: ChannelID, account: Account },
}

/// The answer to a query.
#[derive(Clone, Debug)]
pub enum QueryResponse {
    Denom(String),
    Funding(u128),
}

} // verus!
