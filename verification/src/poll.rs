//! Polls and the approval tally.

use vstd::prelude::*;
use crate::constants::{
    BOOL_LENGTH, DISCRIMINATOR_LENGTH, ENUM_LENGTH, MAX_CONTENT_LENGTH, MAX_TITLE_LENGTH,
    MAX_VOTES_PER_POLL, PUBLIC_KEY_LENGTH, STRING_LENGTH_PREFIX, TIMESTAMP_LENGTH,
    VECTOR_LENGTH_PREFIX,
};
use crate::dao::DAO;
use crate::identity::Identity;
use crate::layout::{byte_len, string_bytes};
use crate::sum::{lemma_sum_take_next, sum};
use crate::vote::{
    approve_power, approving_powers, has_voted, one_vote_each, power_cast_by, powers, powers_of,
    total_power, Choice, Vote,
};

verus! {

/// Where a poll stands in its life.
#[derive(Debug, Clone, Copy, PartialEq, Eq, Structural)]
pub enum Status {
    Approved,
    Rejected,
    Voting,
}

/// A proposal under vote.
#[derive(Debug, Clone, PartialEq, Eq)]
pub struct Poll {
    pub creator: Identity,
    pub created_at: i64,
    /// Set once the outcome has been acted upon.
    pub executed: bool,
    pub status: Status,
    pub title: String,
    pub content: String,
    pub votes: Vec<Vote>,
}

/// A poll as a mathematical value.
pub struct PollView {
    pub creator: Identity,
    pub created_at: i64,
    pub executed: bool,
    pub status: Status,
    pub title: Seq<char>,
    pub content: Seq<char>,
    pub votes: Seq<Vote>,
}

impl View for Poll {
    type V = PollView;

    open spec fn view(&self) -> PollView {
        PollView {
            creator: self.creator,
            created_at: self.created_at,
            executed: self.executed,
            status: self.status,
            title: self.title@,
            content: self.content@,
            votes: self.votes@,
        }
    }
}

impl PollView {
    /// Title, content and votes are within their maxima, nobody voted twice,
    /// and only a decided poll is executed.
    pub open spec fn wf(self) -> bool {
        &&& byte_len(self.title) <= MAX_TITLE_LENGTH
        &&& byte_len(self.content) <= MAX_CONTENT_LENGTH
        &&& self.votes.len() <= MAX_VOTES_PER_POLL
        &&& one_vote_each(self.votes)
        &&& self.executed ==> self.status != Status::Voting
    }

    /// The approval rule: some power was cast, and the approving share of it
    /// reaches `threshold` percent. Reaching it exactly is enough.
    pub open spec fn approved_at(self, threshold: u8) -> bool {
        &&& total_power(self.votes) > 0
        &&& 100 * approve_power(self.votes) >= threshold * total_power(self.votes)
    }

    /// Bytes the poll takes when stored.
    pub open spec fn size(self) -> nat {
        (PUBLIC_KEY_LENGTH + TIMESTAMP_LENGTH + BOOL_LENGTH + ENUM_LENGTH + STRING_LENGTH_PREFIX
            * 2 + VECTOR_LENGTH_PREFIX) as nat + byte_len(self.title) + byte_len(self.content)
            + self.votes.len() * Vote::LEN as nat
    }
}

/// Two to the power of 64: what one half of a wide number counts up to.
const HALF: u128 = 0x1_0000_0000_0000_0000;

/// Multiplies `x` by `factor` without loss: the product is the first number
/// of the result times two to the power of 64, plus the second, which is
/// below two to the power of 64.
fn scaled(x: u128, factor: u8) -> (r: (u128, u128))
    ensures
        r.0 * HALF + r.1 == factor * x,
        r.1 < HALF,
{
    let high = x / HALF;
    let low = x % HALF;
    assert(high * (factor as u128) <= (HALF - 1) * 255) by (nonlinear_arith)
        requires
            high < HALF,
            factor <= 255,
    ;
    assert(low * (factor as u128) <= (HALF - 1) * 255) by (nonlinear_arith)
        requires
            low < HALF,
            factor <= 255,
    ;
    let high_part = high * (factor as u128);
    let low_part = low * (factor as u128);
    assert(factor * x == high_part * HALF + low_part) by (nonlinear_arith)
        requires
            x == high * HALF + low,
            high_part == high * factor,
            low_part == low * factor,
    ;
    (high_part + low_part / HALF, low_part % HALF)
}

impl Poll {
    /// Bytes a stored poll takes at most before any vote, as a record of its own.
    pub const LEN: usize = DISCRIMINATOR_LENGTH + PUBLIC_KEY_LENGTH + TIMESTAMP_LENGTH
        + BOOL_LENGTH + ENUM_LENGTH + STRING_LENGTH_PREFIX * 2 + MAX_TITLE_LENGTH
        + MAX_CONTENT_LENGTH + VECTOR_LENGTH_PREFIX;

    /// Bytes a stored poll takes at most.
    pub const MAX_LEN: usize = Poll::LEN + MAX_VOTES_PER_POLL * Vote::LEN;

    /// Tallies the votes against the DAO's threshold. A poll on which no
    /// power was cast is never approved.
    pub fn is_approved(&self, dao: &DAO) -> (approved: bool)
        ensures
            approved == self@.approved_at(dao.threshold),
    {
        let ghost all = powers(self.votes@);
        let ghost yes = approving_powers(self.votes@);
        let mut approve: u128 = 0;
        let mut total: u128 = 0;
        let mut i: usize = 0;
        while i < self.votes.len()
            invariant
                i <= self.votes.len(),
                all == powers(self.votes@),
                yes == approving_powers(self.votes@),
                total == sum(all.take(i as int)),
                approve == sum(yes.take(i as int)),
                total <= i * u64::MAX,
                approve <= total,
            decreases self.votes.len() - i,
        {
            proof {
                lemma_sum_take_next(all, i as int);
                lemma_sum_take_next(yes, i as int);
                assert((i + 1) * u64::MAX <= u64::MAX * u64::MAX) by (nonlinear_arith)
                    requires
                        i + 1 <= u64::MAX,
                ;
            }
            total += self.votes[i].voting_power as u128;
            match self.votes[i].choice {
                Choice::Approve => {
                    approve += self.votes[i].voting_power as u128;
                },
                Choice::Reject => {},
            }
            i += 1;
        }
        assert(all.take(i as int) =~= all);
        assert(yes.take(i as int) =~= yes);
        let (yes_high, yes_low) = scaled(approve, 100);
        let (all_high, all_low) = scaled(total, dao.threshold);
        total > 0 && (yes_high > all_high || (yes_high == all_high && yes_low >= all_low))
    }

    /// The power of the votes that `user` cast on this poll.
    pub fn power_of(&self, user: &Identity) -> (power: u128)
        ensures
            power == power_cast_by(self@.votes, *user),
    {
        let ghost parts = powers_of(self.votes@, *user);
        let mut power: u128 = 0;
        let mut i: usize = 0;
        while i < self.votes.len()
            invariant
                i <= self.votes.len(),
                parts == powers_of(self.votes@, *user),
                power == sum(parts.take(i as int)),
                power <= i * u64::MAX,
            decreases self.votes.len() - i,
        {
            proof {
                lemma_sum_take_next(parts, i as int);
                assert((i + 1) * u64::MAX <= u64::MAX * u64::MAX) by (nonlinear_arith)
                    requires
                        i + 1 <= u64::MAX,
                ;
            }
            if self.votes[i].user.same(user) {
                power += self.votes[i].voting_power as u128;
            }
            i += 1;
        }
        assert(parts.take(i as int) =~= parts);
        power
    }

    /// Whether `user` has voted on this poll.
    pub fn has_vote_of(&self, user: &Identity) -> (found: bool)
        ensures
            found == has_voted(self@.votes, *user),
    {
        let mut i: usize = 0;
        while i < self.votes.len()
            invariant
                i <= self.votes.len(),
                forall|j: int| 0 <= j < i ==> (#[trigger] self.votes@[j]).user != *user,
            decreases self.votes.len() - i,
        {
            if self.votes[i].user.same(user) {
                return true;
            }
            i += 1;
        }
        false
    }

    /// Checks what must hold of a poll.
    pub fn is_well_formed(&self) -> (ok: bool)
        ensures
            ok == self@.wf(),
    {
        if string_bytes(&self.title) > MAX_TITLE_LENGTH || string_bytes(&self.content)
            > MAX_CONTENT_LENGTH || self.votes.len() > MAX_VOTES_PER_POLL {
            return false;
        }
        if self.executed {
            match self.status {
                Status::Voting => {
                    return false;
                },
                _ => {},
            }
        }
        let mut j: usize = 0;
        while j < self.votes.len()
            invariant
                j <= self.votes.len(),
                forall|a: int, b: int|
                    0 <= a < b < j ==> (#[trigger] self@.votes[a]).user != (
                    #[trigger] self@.votes[b]).user,
            decreases self.votes.len() - j,
        {
            let mut i: usize = 0;
            while i < j
                invariant
                    i <= j,
                    j < self.votes.len(),
                    forall|a: int|
                        0 <= a < i ==> (#[trigger] self@.votes[a]).user != self@.votes[j as int]
                            .user,
                decreases j - i,
            {
                if self.votes[i].user.same(&self.votes[j].user) {
                    return false;
                }
                i += 1;
            }
            j += 1;
        }
        true
    }
}

} // verus!
