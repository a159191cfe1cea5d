//! Votes and the tallies taken over them.

use vstd::prelude::*;
use crate::constants::{AMOUNT_LENGTH, ENUM_LENGTH, PUBLIC_KEY_LENGTH, TIMESTAMP_LENGTH};
use crate::identity::Identity;
use crate::sum::sum;

verus! {

/// What a voter chose.
#[derive(Debug, Clone, Copy, PartialEq, Eq, Structural)]
pub enum Choice {
    Approve,
    Reject,
}

/// One member's choice on one poll, with the weight it had when it was cast.
#[derive(Debug, Clone, Copy, PartialEq, Eq)]
pub struct Vote {
    pub user: Identity,
    /// The voter's power at the moment of the vote; never recomputed.
    pub voting_power: u64,
    pub choice: Choice,
    pub created_at: i64,
}

impl Vote {
    /// Bytes a stored vote takes.
    pub const LEN: usize = PUBLIC_KEY_LENGTH + AMOUNT_LENGTH + ENUM_LENGTH + TIMESTAMP_LENGTH;
}

/// Each vote's power, in the order of the votes.
pub open spec fn powers(votes: Seq<Vote>) -> Seq<nat> {
    votes.map_values(|v: Vote| v.voting_power as nat)
}

/// Each vote's power where it approves, and zero where it rejects.
pub open spec fn approving_powers(votes: Seq<Vote>) -> Seq<nat> {
    votes.map_values(
        |v: Vote|
            if v.choice == Choice::Approve {
                v.voting_power as nat
            } else {
                0
            },
    )
}

/// Each vote's power where `user` cast it, and zero elsewhere.
pub open spec fn powers_of(votes: Seq<Vote>, user: Identity) -> Seq<nat> {
    votes.map_values(
        |v: Vote|
            if v.user == user {
                v.voting_power as nat
            } else {
                0
            },
    )
}

/// The power of all the votes together.
pub open spec fn total_power(votes: Seq<Vote>) -> nat {
    sum(powers(votes))
}

/// The power of the votes that approve.
pub open spec fn approve_power(votes: Seq<Vote>) -> nat {
    sum(approving_powers(votes))
}

/// The power of the votes that `user` cast.
pub open spec fn power_cast_by(votes: Seq<Vote>, user: Identity) -> nat {
    sum(powers_of(votes, user))
}

/// Whether `user` has a vote among `votes`.
pub open spec fn has_voted(votes: Seq<Vote>, user: Identity) -> bool {
    exists|i: int| 0 <= i < votes.len() && (#[trigger] votes[i]).user == user
}

/// No member has two votes among `votes`.
pub open spec fn one_vote_each(votes: Seq<Vote>) -> bool {
    forall|i: int, j: int|
        0 <= i < j < votes.len() ==> (#[trigger] votes[i]).user != (#[trigger] votes[j]).user
}

} // verus!
