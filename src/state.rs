use crate::types::{ChannelParameters, ChannelState, Timestamp};
use vstd::prelude::*;

verus! {

/// The on-ledger record of a channel: the last registered state, when it was
/// registered, and whether the channel has been settled since.
#[derive(Clone, Copy, Debug, PartialEq, Eq)]
pub struct RegisteredChannelState {
    pub state_l2: ChannelState,
    pub timestamp: Timestamp,
    pub settled: bool,
}

/// The challenge window of `rec` has elapsed at time `now`.
pub open spec fn window_elapsed(
    rec: RegisteredChannelState,
    now: Timestamp,
    duration: u64,
) -> bool {
    now >= rec.timestamp + duration
}

impl RegisteredChannelState {
    /// Whether the challenge window of this record has elapsed at `now`.
    pub fn timed_out(&self, now: Timestamp, params: &ChannelParameters) -> (r: bool)
        ensures
            r == window_elapsed(*self, now, params.challenge_duration),
    {
        now >= self.timestamp && now - self.timestamp >= params.challenge_duration
    }
}

} // verus!
