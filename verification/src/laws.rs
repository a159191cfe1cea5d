//! What holds of the model as a whole.

use vstd::prelude::*;
use crate::constants::{MAX_DEPOSITS_PER_USER, MAX_POLLS, MAX_USERS, MAX_VOTES_PER_POLL};
use crate::dao::{credit, first_with_identity, lemma_first_with_same_identities, DaoView, DAO};
use crate::deposit::{active_amount, active_amounts, amounts, gross_amount, Deposit};
use crate::error::DaoError;
use crate::identity::Identity;
use crate::ops::create_dao_outcome;
use crate::poll::{Poll, PollView, Status};
use crate::time::Time;
use crate::sum::{lemma_sum_add, lemma_sum_bounded, lemma_sum_ge_each, sum};
use crate::user::{User, UserView};
use crate::vote::Vote;

verus! {

/// The sum of the amounts of the deposits that are deactivating.
pub open spec fn deactivating_amount(deposits: Seq<Deposit>) -> nat {
    sum(
        deposits.map_values(
            |d: Deposit|
                if d.deactivating {
                    d.amount as nat
                } else {
                    0
                },
        ),
    )
}

/// The gross total counts the deactivating deposits and the active total
/// leaves them out: the two differ by exactly what is deactivating.
pub proof fn law_gross_is_active_and_deactivating(deposits: Seq<Deposit>)
    ensures
        gross_amount(deposits) == active_amount(deposits) + deactivating_amount(deposits),
        active_amount(deposits) <= gross_amount(deposits),
{
    let leaving = deposits.map_values(
        |d: Deposit|
            if d.deactivating {
                d.amount as nat
            } else {
                0
            },
    );
    lemma_sum_add(active_amounts(deposits), leaving, amounts(deposits));
}

/// In a well-formed DAO a member's voting power is the total of their active
/// deposits, and the DAO's staked capital covers all that the member staked.
pub proof fn law_voting_power_is_active_capital(dao: DaoView, k: int)
    requires
        dao.wf(),
        0 <= k < dao.users.len(),
    ensures
        dao.users[k].voting_power == dao.users[k].active_amount(),
        dao.users[k].active_amount() + deactivating_amount(dao.users[k].deposits)
            == dao.users[k].gross_amount(),
        dao.users[k].gross_amount() <= dao.total_deposit_amount(),
{
    law_gross_is_active_and_deactivating(dao.users[k].deposits);
    lemma_sum_ge_each(dao.gross_amounts(), k);
}

/// In a well-formed DAO every deposit that is deactivating has the start of
/// its deactivation, and every other deposit has none.
pub proof fn law_deactivation_in_step(dao: DaoView, k: int, i: int)
    requires
        dao.wf(),
        0 <= k < dao.users.len(),
        0 <= i < dao.users[k].deposits.len(),
    ensures
        dao.users[k].deposits[i].deactivating
            <==> dao.users[k].deposits[i].deactivation_start.is_some(),
{
}

/// Setting a deposit's withdrawal intent keeps the flag and the start in
/// step, whatever the deposit was; taking the intent back leaves no start.
pub proof fn law_deactivation_set_together(d: Deposit, start: Option<i64>)
    ensures
        d.with_deactivation(start).wf(),
        d.with_deactivation(start).deactivating == start.is_some(),
        !d.with_deactivation(None).deactivating,
        d.with_deactivation(None).deactivation_start.is_none(),
{
}

/// Once a member's vote on a poll is accepted, any further vote of that
/// member on that poll is refused as a duplicate.
pub proof fn law_one_vote_per_member(dao: DaoView, poll_index: int, first: Vote, second: Vote)
    requires
        dao.cast_vote_outcome(poll_index, first) is Ok,
        second.user == first.user,
    ensures
        dao.cast_vote_outcome(poll_index, first)->Ok_0.cast_vote_outcome(poll_index, second)
            == Err::<
            DaoView,
            DaoError,
        >(DaoError::DuplicateVote),
{
    let after = dao.cast_vote_outcome(poll_index, first)->Ok_0;
    let votes = after.polls[poll_index].votes;
    assert(votes[votes.len() - 1].user == second.user);
}

/// Rewarding a poll never takes points away, and changes nothing of a member
/// but the points.
pub proof fn law_points_never_decrease(dao: DaoView, poll_id: int, k: int)
    requires
        dao.rewards_fit(poll_id),
        0 <= k < dao.users.len(),
    ensures
        dao.rewarded(poll_id).users.len() == dao.users.len(),
        dao.rewarded(poll_id).users[k].points >= dao.users[k].points,
        dao.rewarded(poll_id).users[k] == (UserView {
            points: dao.rewarded(poll_id).users[k].points,
            ..dao.users[k]
        }),
{
}

/// Rewarding the same poll twice credits every member twice: nothing in the
/// model remembers that a poll was rewarded.
pub proof fn law_rewarding_twice_credits_twice(dao: DaoView, poll_id: int, k: int)
    requires
        0 <= poll_id < dao.polls.len(),
        0 <= k < dao.users.len(),
        dao.rewards_fit(poll_id),
        dao.rewarded(poll_id).rewards_fit(poll_id),
    ensures
        dao.rewarded(poll_id).rewarded(poll_id).users[k].points == dao.users[k].points + 2
            * credit(dao.users, dao.polls[poll_id].votes, k),
{
    let votes = dao.polls[poll_id].votes;
    let once = dao.rewarded(poll_id);
    if first_with_identity(dao.users, k) {
        lemma_first_with_same_identities(dao.users, once.users, k);
    }
    if first_with_identity(once.users, k) {
        lemma_first_with_same_identities(once.users, dao.users, k);
    }
}

/// The totals of a well-formed DAO fit the machine: the counts of deposits
/// and votes are bounded by the declared maxima, and the staked capital by
/// what an amount can hold.
pub proof fn law_totals_fit(dao: DaoView)
    requires
        dao.wf(),
    ensures
        dao.total_deposits() <= MAX_USERS * MAX_DEPOSITS_PER_USER,
        dao.total_votes() <= MAX_POLLS * MAX_VOTES_PER_POLL,
        dao.total_deposit_amount() <= u64::MAX,
{
    lemma_sum_bounded(dao.deposit_counts(), MAX_DEPOSITS_PER_USER as nat);
    assert(dao.deposit_counts().len() * MAX_DEPOSITS_PER_USER <= MAX_USERS
        * MAX_DEPOSITS_PER_USER) by (nonlinear_arith)
        requires
            dao.deposit_counts().len() <= MAX_USERS,
    ;
    lemma_sum_bounded(dao.vote_counts(), MAX_VOTES_PER_POLL as nat);
    assert(dao.vote_counts().len() * MAX_VOTES_PER_POLL <= MAX_POLLS * MAX_VOTES_PER_POLL)
        by (nonlinear_arith)
        requires
            dao.vote_counts().len() <= MAX_POLLS,
    ;
}

/// A stored deposit takes no more than the bytes declared for one.
pub proof fn law_deposit_size(d: Deposit)
    ensures
        d.size() <= Deposit::LEN,
{
}

/// A well-formed member takes no more than the bytes declared for one.
pub proof fn law_user_size(user: UserView)
    requires
        user.wf(),
    ensures
        user.size() <= User::MAX_LEN,
{
    let sizes = user.deposits.map_values(|d: Deposit| d.size());
    lemma_sum_bounded(sizes, Deposit::LEN as nat);
    assert(sizes.len() * Deposit::LEN <= MAX_DEPOSITS_PER_USER * Deposit::LEN) by (nonlinear_arith)
        requires
            sizes.len() <= MAX_DEPOSITS_PER_USER,
    ;
}

/// A well-formed poll takes no more than the bytes declared for one.
pub proof fn law_poll_size(poll: PollView)
    requires
        poll.wf(),
    ensures
        poll.size() <= Poll::MAX_LEN,
{
    assert(poll.votes.len() * Vote::LEN <= MAX_VOTES_PER_POLL * Vote::LEN) by (nonlinear_arith)
        requires
            poll.votes.len() <= MAX_VOTES_PER_POLL,
    ;
}

/// A well-formed DAO takes no more than the bytes declared for its record.
pub proof fn law_dao_size(dao: DaoView)
    requires
        dao.wf(),
    ensures
        dao.size() <= DAO::MAX_LEN,
{
    let polls = dao.polls.map_values(|p: PollView| p.size());
    let users = dao.users.map_values(|u: UserView| u.size());
    assert forall|i: int| 0 <= i < polls.len() implies #[trigger] polls[i] <= Poll::MAX_LEN by {
        law_poll_size(dao.polls[i]);
    }
    assert forall|i: int| 0 <= i < users.len() implies #[trigger] users[i] <= User::MAX_LEN by {
        law_user_size(dao.users[i]);
    }
    lemma_sum_bounded(polls, Poll::MAX_LEN as nat);
    lemma_sum_bounded(users, User::MAX_LEN as nat);
    assert(polls.len() * Poll::MAX_LEN <= MAX_POLLS * Poll::MAX_LEN) by (nonlinear_arith)
        requires
            polls.len() <= MAX_POLLS,
    ;
    assert(users.len() * User::MAX_LEN <= MAX_USERS * User::MAX_LEN) by (nonlinear_arith)
        requires
            users.len() <= MAX_USERS,
    ;
}

/// What stays of a poll whatever happens to the DAO: who opened it, when and
/// with which texts; the votes cast so far, in their order and with the power
/// they were cast with; its decision once it has one; that it was executed.
pub open spec fn poll_kept(before: PollView, after: PollView) -> bool {
    &&& after.creator == before.creator
    &&& after.created_at == before.created_at
    &&& after.title == before.title
    &&& after.content == before.content
    &&& before.votes.is_prefix_of(after.votes)
    &&& before.status != Status::Voting ==> after.status == before.status
    &&& before.executed ==> after.executed
}

/// What stays of a member whatever happens to the DAO: the identity, the
/// time of joining, the points earned so far and the number of deposits.
pub open spec fn user_kept(before: UserView, after: UserView) -> bool {
    &&& after.user == before.user
    &&& after.created_at == before.created_at
    &&& after.points >= before.points
    &&& after.deposits.len() >= before.deposits.len()
}

/// Nothing of `before` is undone in `after`: creator and token are the same,
/// the counters have not gone down, and every poll and every member is still
/// in its place with all that stays of it.
pub open spec fn keeps_history(before: DaoView, after: DaoView) -> bool {
    &&& after.creator == before.creator
    &&& after.mint == before.mint
    &&& after.approved >= before.approved
    &&& after.rejected >= before.rejected
    &&& after.polls.len() >= before.polls.len()
    &&& after.users.len() >= before.users.len()
    &&& forall|i: int|
        0 <= i < before.polls.len() ==> poll_kept(before.polls[i], #[trigger] after.polls[i])
    &&& forall|k: int|
        0 <= k < before.users.len() ==> user_kept(before.users[k], #[trigger] after.users[k])
}

/// History adds up: what is kept over one step and over the next is kept
/// over both.
pub proof fn law_history_adds_up(a: DaoView, b: DaoView, c: DaoView)
    requires
        keeps_history(a, b),
        keeps_history(b, c),
    ensures
        keeps_history(a, c),
{
    assert forall|i: int| 0 <= i < a.polls.len() implies poll_kept(
        a.polls[i],
        #[trigger] c.polls[i],
    ) by {
        assert(poll_kept(a.polls[i], b.polls[i]));
        assert(poll_kept(b.polls[i], c.polls[i]));
    }
    assert forall|k: int| 0 <= k < a.users.len() implies user_kept(
        a.users[k],
        #[trigger] c.users[k],
    ) by {
        assert(user_kept(a.users[k], b.users[k]));
        assert(user_kept(b.users[k], c.users[k]));
    }
}

/// No operation on a well-formed DAO undoes anything: polls, members and
/// deposits are never removed, votes are only appended and keep their power,
/// points and counters only grow, a decision stands. Rewarding a poll, where
/// the points fit, undoes nothing either.
pub proof fn law_operations_keep_history(
    dao: DaoView,
    user: Identity,
    index: int,
    vote: Vote,
    title: Seq<char>,
    content: Seq<char>,
    amount: u64,
    now: i64,
)
    requires
        dao.wf(),
    ensures
        dao.create_user_outcome(user, now) matches Ok(r) ==> keeps_history(dao, r.0),
        dao.create_poll_outcome(user, title, content, now) matches Ok(r) ==> keeps_history(
            dao,
            r.0,
        ),
        dao.cast_vote_outcome(index, vote) matches Ok(after) ==> keeps_history(dao, after),
        dao.resolve_poll_outcome(index) matches Ok(r) ==> keeps_history(dao, r.0),
        dao.execute_poll_outcome(index) matches Ok(after) ==> keeps_history(dao, after),
        dao.deposit_outcome(user, amount, now) matches Ok(r) ==> keeps_history(dao, r.0),
        dao.request_withdrawal_outcome(user, index, now) matches Ok(after) ==> keeps_history(
            dao,
            after,
        ),
        dao.finalize_withdrawal_outcome(user, index, now) matches Ok(after) ==> keeps_history(
            dao,
            after,
        ),
        dao.settle_rewards_outcome(index) matches Ok(after) ==> keeps_history(dao, after),
        dao.rewards_fit(index) ==> keeps_history(dao, dao.rewarded(index)),
{
    lemma_sum_bounded(dao.status_marks(Status::Approved), 1);
    lemma_sum_bounded(dao.status_marks(Status::Rejected), 1);
    if dao.rewards_fit(index) {
        let after = dao.rewarded(index);
        assert forall|k: int| 0 <= k < dao.users.len() implies user_kept(
            dao.users[k],
            #[trigger] after.users[k],
        ) by {
            law_points_never_decrease(dao, index, k);
        }
    }
}

/// A poll is decided once: after a decision, to decide it again is refused.
pub proof fn law_decided_once(dao: DaoView, poll_index: int)
    requires
        dao.resolve_poll_outcome(poll_index) is Ok,
    ensures
        dao.resolve_poll_outcome(poll_index)->Ok_0.0.resolve_poll_outcome(poll_index) == Err::<
            (DaoView, Status),
            DaoError,
        >(DaoError::InvalidPollState),
{
}

/// A new DAO is well formed, empty, and configured as asked.
pub proof fn law_new_dao_is_well_formed(
    creator: Identity,
    mint: Identity,
    duration: Time,
    threshold: u8,
    min_poll_tokens: u64,
    name: Seq<char>,
    created_at: i64,
)
    ensures
        create_dao_outcome(creator, mint, duration, threshold, min_poll_tokens, name, created_at)
            matches Ok(dao) ==> dao.wf() && dao.polls.len() == 0 && dao.users.len() == 0
            && dao.threshold == threshold && dao.time == duration.seconds(),
{
    if let Ok(dao) = create_dao_outcome(
        creator,
        mint,
        duration,
        threshold,
        min_poll_tokens,
        name,
        created_at,
    ) {
        assert(dao.gross_amounts() =~= Seq::<nat>::empty());
        assert(dao.status_marks(Status::Approved) =~= Seq::<nat>::empty());
        assert(dao.status_marks(Status::Rejected) =~= Seq::<nat>::empty());
    }
}

} // verus!
