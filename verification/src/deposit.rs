//! Deposits: staked funds, and the withdrawal intent they may carry.

use vstd::prelude::*;
use crate::constants::{
    AMOUNT_LENGTH, BOOL_LENGTH, OPTION_LENGTH, PUBLIC_KEY_LENGTH, TIMESTAMP_LENGTH,
};
use crate::identity::Identity;
use crate::sum::{lemma_sum_le, lemma_sum_push, lemma_sum_update, sum};

verus! {

/// Funds that a member staked. A deposit is active until its owner asks to
/// withdraw it; from then on it is deactivating and remembers when that began.
#[derive(Debug, Clone, Copy, PartialEq, Eq)]
pub struct Deposit {
    pub user: Identity,
    pub mint: Identity,
    pub amount: u64,
    pub deactivating: bool,
    pub deactivation_start: Option<i64>,
    pub created_at: i64,
}

impl Deposit {
    /// Bytes a stored deposit takes at most.
    pub const LEN: usize = PUBLIC_KEY_LENGTH * 2 + AMOUNT_LENGTH + BOOL_LENGTH + OPTION_LENGTH
        + TIMESTAMP_LENGTH * 2;

    /// The flag and the start of the deactivation go together: the start is
    /// present exactly when the deposit is deactivating.
    pub open spec fn wf(self) -> bool {
        self.deactivating == self.deactivation_start.is_some()
    }

    /// This deposit with its withdrawal intent set to begin at `start`, or
    /// taken back where `start` is `None`.
    pub open spec fn with_deactivation(self, start: Option<i64>) -> Deposit {
        Deposit { deactivating: start.is_some(), deactivation_start: start, ..self }
    }

    /// What the deposit adds to its owner's voting power.
    pub open spec fn active_amount(self) -> nat {
        if self.deactivating {
            0
        } else {
            self.amount as nat
        }
    }

    /// Bytes this deposit takes when stored.
    pub open spec fn size(self) -> nat {
        (PUBLIC_KEY_LENGTH * 2 + AMOUNT_LENGTH + BOOL_LENGTH + OPTION_LENGTH + TIMESTAMP_LENGTH
            + if self.deactivation_start.is_some() {
            TIMESTAMP_LENGTH as int
        } else {
            0
        }) as nat
    }

    /// A new, active deposit.
    pub fn new(user: Identity, mint: Identity, amount: u64, created_at: i64) -> (d: Deposit)
        ensures
            d == (Deposit {
                user,
                mint,
                amount,
                deactivating: false,
                deactivation_start: None,
                created_at,
            }),
            d.wf(),
    {
        Deposit { user, mint, amount, deactivating: false, deactivation_start: None, created_at }
    }

    /// Sets the flag and the start together: deactivating from `start` on, or
    /// active again with no start where `start` is `None`.
    pub fn set_deactivation(&mut self, start: Option<i64>)
        ensures
            *final(self) == old(self).with_deactivation(start),
            final(self).wf(),
    {
        self.deactivating = start.is_some();
        self.deactivation_start = start;
    }

    pub fn is_well_formed(&self) -> (ok: bool)
        ensures
            ok == self.wf(),
    {
        self.deactivating == self.deactivation_start.is_some()
    }
}

/// Each deposit's amount, in the order of the deposits.
pub open spec fn amounts(deposits: Seq<Deposit>) -> Seq<nat> {
    deposits.map_values(|d: Deposit| d.amount as nat)
}

/// Each deposit's amount where it is active, and zero where it is deactivating.
pub open spec fn active_amounts(deposits: Seq<Deposit>) -> Seq<nat> {
    deposits.map_values(|d: Deposit| d.active_amount())
}

/// The sum of all the amounts, deactivating deposits included.
pub open spec fn gross_amount(deposits: Seq<Deposit>) -> nat {
    sum(amounts(deposits))
}

/// The sum of the amounts of the deposits that are not deactivating.
pub open spec fn active_amount(deposits: Seq<Deposit>) -> nat {
    sum(active_amounts(deposits))
}

/// Every deposit has its flag and its start in step.
pub open spec fn all_wf(deposits: Seq<Deposit>) -> bool {
    forall|i: int| 0 <= i < deposits.len() ==> (#[trigger] deposits[i]).wf()
}

/// Bytes the deposits take when stored one after the other.
pub open spec fn stored_size(deposits: Seq<Deposit>) -> nat {
    sum(deposits.map_values(|d: Deposit| d.size()))
}

/// A new deposit at the end adds its amount to the gross total, and to the
/// active total what it has of active amount.
pub proof fn lemma_amounts_push(deposits: Seq<Deposit>, d: Deposit)
    ensures
        gross_amount(deposits.push(d)) == gross_amount(deposits) + d.amount,
        active_amount(deposits.push(d)) == active_amount(deposits) + d.active_amount(),
{
    assert(amounts(deposits.push(d)) =~= amounts(deposits).push(d.amount as nat));
    assert(active_amounts(deposits.push(d)) =~= active_amounts(deposits).push(d.active_amount()));
    lemma_sum_push(amounts(deposits), d.amount as nat);
    lemma_sum_push(active_amounts(deposits), d.active_amount());
}

/// Replacing the deposit at `i` changes both totals by the difference.
pub proof fn lemma_amounts_update(deposits: Seq<Deposit>, i: int, d: Deposit)
    requires
        0 <= i < deposits.len(),
    ensures
        gross_amount(deposits.update(i, d)) + deposits[i].amount == gross_amount(deposits)
            + d.amount,
        active_amount(deposits.update(i, d)) + deposits[i].active_amount() == active_amount(
            deposits,
        ) + d.active_amount(),
{
    assert(amounts(deposits.update(i, d)) =~= amounts(deposits).update(i, d.amount as nat));
    assert(active_amounts(deposits.update(i, d)) =~= active_amounts(deposits).update(
        i,
        d.active_amount(),
    ));
    lemma_sum_update(amounts(deposits), i, d.amount as nat);
    lemma_sum_update(active_amounts(deposits), i, d.active_amount());
}

/// The active total is never more than the gross total.
pub proof fn lemma_active_le_gross(deposits: Seq<Deposit>)
    ensures
        active_amount(deposits) <= gross_amount(deposits),
{
    lemma_sum_le(active_amounts(deposits), amounts(deposits));
}

} // verus!
