//! Members of a DAO and the accounting of their deposits.

use vstd::prelude::*;
use crate::constants::{
    AMOUNT_LENGTH, MAX_DEPOSITS_PER_USER, PUBLIC_KEY_LENGTH, TIMESTAMP_LENGTH,
    VECTOR_LENGTH_PREFIX,
};
use crate::deposit::{
    active_amount, active_amounts, all_wf, amounts, gross_amount, stored_size, Deposit,
};
use crate::identity::Identity;
use crate::sum::{lemma_sum_take_le, lemma_sum_take_next, sum};

verus! {

/// A participant of a DAO: the deposits they made, the voting power these
/// give, and the reward points they earned.
#[derive(Debug, Clone, PartialEq, Eq)]
pub struct User {
    pub user: Identity,
    /// The total of the active deposits.
    pub voting_power: u64,
    /// Reward points; they only ever grow.
    pub points: u64,
    pub created_at: i64,
    pub deposits: Vec<Deposit>,
}

/// A member as a mathematical value.
pub struct UserView {
    pub user: Identity,
    pub voting_power: u64,
    pub points: u64,
    pub created_at: i64,
    pub deposits: Seq<Deposit>,
}

impl View for User {
    type V = UserView;

    open spec fn view(&self) -> UserView {
        UserView {
            user: self.user,
            voting_power: self.voting_power,
            points: self.points,
            created_at: self.created_at,
            deposits: self.deposits@,
        }
    }
}

impl UserView {
    /// The deposits are the member's own, each has its flag and start in
    /// step, they are no more than a member may hold, and the voting power
    /// is the total of the active ones.
    pub open spec fn wf(self) -> bool {
        &&& self.deposits.len() <= MAX_DEPOSITS_PER_USER
        &&& all_wf(self.deposits)
        &&& forall|i: int|
            0 <= i < self.deposits.len() ==> (#[trigger] self.deposits[i]).user == self.user
        &&& self.voting_power == active_amount(self.deposits)
    }

    /// The total of the deposits that are not deactivating.
    pub open spec fn active_amount(self) -> nat {
        active_amount(self.deposits)
    }

    /// The total of all the deposits.
    pub open spec fn gross_amount(self) -> nat {
        gross_amount(self.deposits)
    }

    /// Bytes the member takes when stored.
    pub open spec fn size(self) -> nat {
        (PUBLIC_KEY_LENGTH + AMOUNT_LENGTH * 2 + TIMESTAMP_LENGTH + VECTOR_LENGTH_PREFIX) as nat
            + stored_size(self.deposits)
    }
}

impl User {
    /// Bytes a stored member takes before any deposit.
    pub const LEN: usize = PUBLIC_KEY_LENGTH + AMOUNT_LENGTH * 2 + TIMESTAMP_LENGTH
        + VECTOR_LENGTH_PREFIX;

    /// Bytes a stored member takes at most.
    pub const MAX_LEN: usize = User::LEN + MAX_DEPOSITS_PER_USER * Deposit::LEN;

    /// A member without deposits, voting power or points.
    pub fn new(user: Identity, created_at: i64) -> (u: User)
        ensures
            u@ == (UserView {
                user,
                voting_power: 0,
                points: 0,
                created_at,
                deposits: Seq::empty(),
            }),
            u@.wf(),
    {
        User { user, voting_power: 0, points: 0, created_at, deposits: Vec::new() }
    }

    /// The voting-eligible capital: the sum of the deposits that are not
    /// marked for withdrawal.
    pub fn total_user_deposit_amount(&self) -> (total: u64)
        requires
            self@.active_amount() <= u64::MAX,
        ensures
            total == self@.active_amount(),
    {
        let ghost parts = active_amounts(self.deposits@);
        let mut total: u64 = 0;
        let mut i: usize = 0;
        while i < self.deposits.len()
            invariant
                i <= self.deposits.len(),
                parts == active_amounts(self.deposits@),
                total == sum(parts.take(i as int)),
                sum(parts) <= u64::MAX,
            decreases self.deposits.len() - i,
        {
            proof {
                lemma_sum_take_next(parts, i as int);
                lemma_sum_take_le(parts, i + 1);
            }
            if !self.deposits[i].deactivating {
                total += self.deposits[i].amount;
            }
            i += 1;
        }
        assert(parts.take(i as int) =~= parts);
        total
    }

    /// The staked capital: the sum of all the deposits, those marked for
    /// withdrawal included.
    pub fn gross_deposit_amount(&self) -> (total: u64)
        requires
            self@.gross_amount() <= u64::MAX,
        ensures
            total == self@.gross_amount(),
    {
        let ghost parts = amounts(self.deposits@);
        let mut total: u64 = 0;
        let mut i: usize = 0;
        while i < self.deposits.len()
            invariant
                i <= self.deposits.len(),
                parts == amounts(self.deposits@),
                total == sum(parts.take(i as int)),
                sum(parts) <= u64::MAX,
            decreases self.deposits.len() - i,
        {
            proof {
                lemma_sum_take_next(parts, i as int);
                lemma_sum_take_le(parts, i + 1);
            }
            total += self.deposits[i].amount;
            i += 1;
        }
        assert(parts.take(i as int) =~= parts);
        total
    }

    /// The staked capital, in a number wide enough for any member.
    pub fn staked(&self) -> (total: u128)
        ensures
            total == self@.gross_amount(),
    {
        let ghost parts = amounts(self.deposits@);
        let mut total: u128 = 0;
        let mut i: usize = 0;
        while i < self.deposits.len()
            invariant
                i <= self.deposits.len(),
                parts == amounts(self.deposits@),
                total == sum(parts.take(i as int)),
                total <= i * u64::MAX,
            decreases self.deposits.len() - i,
        {
            proof {
                lemma_sum_take_next(parts, i as int);
                assert((i + 1) * u64::MAX <= u64::MAX * u64::MAX) by (nonlinear_arith)
                    requires
                        i + 1 <= u64::MAX,
                ;
            }
            total += self.deposits[i].amount as u128;
            i += 1;
        }
        assert(parts.take(i as int) =~= parts);
        total
    }

    /// Whether every deposit is in the token `mint`.
    pub fn deposits_in(&self, mint: &Identity) -> (ok: bool)
        ensures
            ok == forall|d: int|
                0 <= d < self@.deposits.len() ==> (#[trigger] self@.deposits[d]).mint == *mint,
    {
        let mut i: usize = 0;
        while i < self.deposits.len()
            invariant
                i <= self.deposits.len(),
                forall|d: int| 0 <= d < i ==> (#[trigger] self@.deposits[d]).mint == *mint,
            decreases self.deposits.len() - i,
        {
            if !self.deposits[i].mint.same(mint) {
                return false;
            }
            i += 1;
        }
        true
    }

    /// Checks what must hold of a member.
    pub fn is_well_formed(&self) -> (ok: bool)
        ensures
            ok == self@.wf(),
    {
        if self.deposits.len() > MAX_DEPOSITS_PER_USER {
            return false;
        }
        let ghost parts = active_amounts(self.deposits@);
        let mut active: u128 = 0;
        let mut i: usize = 0;
        while i < self.deposits.len()
            invariant
                i <= self.deposits.len(),
                self.deposits.len() <= MAX_DEPOSITS_PER_USER,
                parts == active_amounts(self.deposits@),
                active == sum(parts.take(i as int)),
                active <= i * u64::MAX,
                forall|j: int|
                    0 <= j < i ==> (#[trigger] self@.deposits[j]).wf() && self@.deposits[j].user
                        == self.user,
            decreases self.deposits.len() - i,
        {
            proof {
                lemma_sum_take_next(parts, i as int);
            }
            let d = self.deposits[i];
            if !d.is_well_formed() || !d.user.same(&self.user) {
                return false;
            }
            if !d.deactivating {
                active += d.amount as u128;
            }
            i += 1;
        }
        assert(parts.take(i as int) =~= parts);
        active == self.voting_power as u128
    }
}

} // verus!
