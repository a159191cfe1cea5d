//! The operations by which a DAO is created and changed. Each either
//! succeeds as a whole or is refused with one error and changes nothing.

use vstd::prelude::*;
use crate::constants::{
    MAX_CONTENT_LENGTH, MAX_DAO_NAME_LENGTH, MAX_DEPOSITS_PER_USER, MAX_POLLS, MAX_TITLE_LENGTH,
    MAX_USERS, MAX_VOTES_PER_POLL,
};
use crate::dao::{credit, DaoView, DAO};
use crate::deposit::{lemma_active_le_gross, lemma_amounts_push, lemma_amounts_update, Deposit};
use crate::error::DaoError;
use crate::identity::Identity;
use crate::layout::{byte_len, string_bytes};
use crate::poll::{Poll, PollView, Status};
use crate::sum::{lemma_sum_bounded, lemma_sum_ge_each, lemma_sum_push, lemma_sum_update};
use crate::time::Time;
use crate::user::{User, UserView};
use crate::vote::{has_voted, Choice, Vote};

verus! {

/// What `create_dao` gives: the new DAO, or why there is none.
pub open spec fn create_dao_outcome(
    creator: Identity,
    mint: Identity,
    duration: Time,
    threshold: u8,
    min_poll_tokens: u64,
    name: Seq<char>,
    created_at: i64,
) -> Result<DaoView, DaoError> {
    if threshold < 1 || threshold > 100 || !duration.for_production() {
        Err(DaoError::InvalidConfiguration)
    } else if byte_len(name) > MAX_DAO_NAME_LENGTH {
        Err(DaoError::CapacityExceeded)
    } else {
        Ok(
            DaoView {
                creator,
                mint,
                time: duration.seconds() as i64,
                threshold,
                min_poll_tokens,
                approved: 0,
                rejected: 0,
                created_at,
                dao_bump: 0,
                vault_bump: 0,
                name,
                polls: Seq::empty(),
                users: Seq::empty(),
            },
        )
    }
}

/// Creates a DAO without polls or members. The two layout markers start at
/// zero; they belong to whoever stores the record.
pub fn create_dao(
    creator: Identity,
    mint: Identity,
    duration: Time,
    threshold: u8,
    min_poll_tokens: u64,
    name: String,
    created_at: i64,
) -> (r: Result<DAO, DaoError>)
    ensures
        match r {
            Ok(dao) => Ok::<DaoView, DaoError>(dao@) == create_dao_outcome(
                creator,
                mint,
                duration,
                threshold,
                min_poll_tokens,
                name@,
                created_at,
            ) && dao@.wf(),
            Err(e) => Err::<DaoView, DaoError>(e) == create_dao_outcome(
                creator,
                mint,
                duration,
                threshold,
                min_poll_tokens,
                name@,
                created_at,
            ),
        },
{
    if threshold < 1 || threshold > 100 || !duration.is_production() {
        return Err(DaoError::InvalidConfiguration);
    }
    if string_bytes(&name) > MAX_DAO_NAME_LENGTH {
        return Err(DaoError::CapacityExceeded);
    }
    let dao = DAO {
        creator,
        mint,
        time: duration.value(),
        threshold,
        min_poll_tokens,
        approved: 0,
        rejected: 0,
        created_at,
        dao_bump: 0,
        vault_bump: 0,
        name,
        polls: Vec::new(),
        users: Vec::new(),
    };
    proof {
        assert(dao@.polls =~= Seq::empty());
        assert(dao@.users =~= Seq::empty());
    }
    Ok(dao)
}

impl DaoView {
    /// What `cast_vote` gives: the DAO with the vote appended to the poll, or
    /// why the vote is refused.
    pub open spec fn cast_vote_outcome(self, poll_index: int, vote: Vote) -> Result<
        DaoView,
        DaoError,
    > {
        if !(0 <= poll_index < self.polls.len()) {
            Err(DaoError::NotFound)
        } else if self.polls[poll_index].status != Status::Voting {
            Err(DaoError::InvalidPollState)
        } else if has_voted(self.polls[poll_index].votes, vote.user) {
            Err(DaoError::DuplicateVote)
        } else if self.polls[poll_index].votes.len() >= MAX_VOTES_PER_POLL {
            Err(DaoError::CapacityExceeded)
        } else {
            Ok(
                DaoView {
                    polls: self.polls.update(
                        poll_index,
                        PollView {
                            votes: self.polls[poll_index].votes.push(vote),
                            ..self.polls[poll_index]
                        },
                    ),
                    ..self
                },
            )
        }
    }
}

/// Records `user`'s vote on the poll at `poll_index`, with the voting power
/// the user has at this moment.
pub fn cast_vote(
    dao: &mut DAO,
    poll_index: usize,
    user: Identity,
    choice: Choice,
    voting_power: u64,
    created_at: i64,
) -> (r: Result<(), DaoError>)
    requires
        old(dao)@.wf(),
    ensures
        final(dao)@.wf(),
        match r {
            Ok(()) => Ok::<DaoView, DaoError>(final(dao)@) == old(dao)@.cast_vote_outcome(
                poll_index as int,
                Vote { user, voting_power, choice, created_at },
            ),
            Err(e) => Err::<DaoView, DaoError>(e) == old(dao)@.cast_vote_outcome(
                poll_index as int,
                Vote { user, voting_power, choice, created_at },
            ) && final(dao)@ == old(dao)@,
        },
{
    if poll_index >= dao.polls.len() {
        return Err(DaoError::NotFound);
    }
    match dao.polls[poll_index].status {
        Status::Voting => {},
        _ => {
            return Err(DaoError::InvalidPollState);
        },
    }
    if dao.polls[poll_index].has_vote_of(&user) {
        return Err(DaoError::DuplicateVote);
    }
    if dao.polls[poll_index].votes.len() >= MAX_VOTES_PER_POLL {
        return Err(DaoError::CapacityExceeded);
    }
    let vote = Vote { user, voting_power, choice, created_at };
    let ghost before = dao@;
    dao.polls[poll_index].votes.push(vote);
    proof {
        let after = before.cast_vote_outcome(poll_index as int, vote)->Ok_0;
        assert(dao@.polls =~= after.polls);
        assert(after.status_marks(Status::Approved) =~= before.status_marks(Status::Approved));
        assert(after.status_marks(Status::Rejected) =~= before.status_marks(Status::Rejected));
    }
    Ok(())
}

impl DaoView {
    /// What `create_user` gives: the DAO with a new member at the end and
    /// the member's place, or why there is no new member.
    pub open spec fn create_user_outcome(self, user: Identity, created_at: i64) -> Result<
        (DaoView, int),
        DaoError,
    > {
        if self.position_of(user).is_some() {
            Err(DaoError::DuplicateUser)
        } else if self.users.len() >= MAX_USERS {
            Err(DaoError::CapacityExceeded)
        } else {
            Ok(
                (
                    DaoView {
                        users: self.users.push(
                            UserView {
                                user,
                                voting_power: 0,
                                points: 0,
                                created_at,
                                deposits: Seq::empty(),
                            },
                        ),
                        ..self
                    },
                    self.users.len() as int,
                ),
            )
        }
    }

    /// What `create_poll` gives: the DAO with a new poll at the end, open
    /// for voting, and the poll's place, or why there is no new poll.
    pub open spec fn create_poll_outcome(
        self,
        creator: Identity,
        title: Seq<char>,
        content: Seq<char>,
        created_at: i64,
    ) -> Result<(DaoView, int), DaoError> {
        match self.position_of(creator) {
            None => Err(DaoError::NotFound),
            Some(k) => if self.users[k].voting_power < self.min_poll_tokens {
                Err(DaoError::InsufficientVotingPower)
            } else if byte_len(title) > MAX_TITLE_LENGTH || byte_len(content) > MAX_CONTENT_LENGTH
                || self.polls.len() >= MAX_POLLS {
                Err(DaoError::CapacityExceeded)
            } else {
                Ok(
                    (
                        DaoView {
                            polls: self.polls.push(
                                PollView {
                                    creator,
                                    created_at,
                                    executed: false,
                                    status: Status::Voting,
                                    title,
                                    content,
                                    votes: Seq::empty(),
                                },
                            ),
                            ..self
                        },
                        self.polls.len() as int,
                    ),
                )
            },
        }
    }

    /// What `resolve_poll` gives: the DAO with the poll decided by the
    /// approval rule and counted, and the decision, or why the poll is not
    /// decided.
    pub open spec fn resolve_poll_outcome(self, poll_index: int) -> Result<
        (DaoView, Status),
        DaoError,
    > {
        if !(0 <= poll_index < self.polls.len()) {
            Err(DaoError::NotFound)
        } else if self.polls[poll_index].status != Status::Voting {
            Err(DaoError::InvalidPollState)
        } else if self.polls[poll_index].approved_at(self.threshold) {
            Ok(
                (
                    DaoView {
                        approved: (self.approved + 1) as u64,
                        polls: self.polls.update(
                            poll_index,
                            PollView { status: Status::Approved, ..self.polls[poll_index] },
                        ),
                        ..self
                    },
                    Status::Approved,
                ),
            )
        } else {
            Ok(
                (
                    DaoView {
                        rejected: (self.rejected + 1) as u64,
                        polls: self.polls.update(
                            poll_index,
                            PollView { status: Status::Rejected, ..self.polls[poll_index] },
                        ),
                        ..self
                    },
                    Status::Rejected,
                ),
            )
        }
    }

    /// What `execute_poll` gives: the DAO with the poll marked as executed,
    /// or why it is not marked.
    pub open spec fn execute_poll_outcome(self, poll_index: int) -> Result<DaoView, DaoError> {
        if !(0 <= poll_index < self.polls.len()) {
            Err(DaoError::NotFound)
        } else if self.polls[poll_index].status == Status::Voting
            || self.polls[poll_index].executed {
            Err(DaoError::InvalidPollState)
        } else {
            Ok(
                DaoView {
                    polls: self.polls.update(
                        poll_index,
                        PollView { executed: true, ..self.polls[poll_index] },
                    ),
                    ..self
                },
            )
        }
    }
}

/// Adds a member without deposits and gives its place among the members.
pub fn create_user(dao: &mut DAO, user: Identity, created_at: i64) -> (r: Result<usize, DaoError>)
    requires
        old(dao)@.wf(),
    ensures
        final(dao)@.wf(),
        match r {
            Ok(k) => Ok::<(DaoView, int), DaoError>((final(dao)@, k as int))
                == old(dao)@.create_user_outcome(user, created_at),
            Err(e) => Err::<(DaoView, int), DaoError>(e) == old(dao)@.create_user_outcome(
                user,
                created_at,
            ) && final(dao)@ == old(dao)@,
        },
{
    if dao.find_user(&user).is_some() {
        return Err(DaoError::DuplicateUser);
    }
    if dao.users.len() >= MAX_USERS {
        return Err(DaoError::CapacityExceeded);
    }
    let ghost before = dao@;
    let place = dao.users.len();
    let member = User::new(user, created_at);
    dao.users.push(member);
    proof {
        let after = before.create_user_outcome(user, created_at)->Ok_0.0;
        assert(dao@.users =~= after.users);
        assert(after.gross_amounts() =~= before.gross_amounts().push(0));
        lemma_sum_push(before.gross_amounts(), 0);
    }
    Ok(place)
}

/// Opens a poll in the name of `creator`, who must be a member with at
/// least the voting power that the DAO asks for, and gives the poll's place
/// among the polls.
pub fn create_poll(
    dao: &mut DAO,
    creator: Identity,
    title: String,
    content: String,
    created_at: i64,
) -> (r: Result<usize, DaoError>)
    requires
        old(dao)@.wf(),
    ensures
        final(dao)@.wf(),
        match r {
            Ok(k) => Ok::<(DaoView, int), DaoError>((final(dao)@, k as int))
                == old(dao)@.create_poll_outcome(creator, title@, content@, created_at),
            Err(e) => Err::<(DaoView, int), DaoError>(e) == old(dao)@.create_poll_outcome(
                creator,
                title@,
                content@,
                created_at,
            ) && final(dao)@ == old(dao)@,
        },
{
    let member = match dao.find_user(&creator) {
        Some(k) => k,
        None => {
            return Err(DaoError::NotFound);
        },
    };
    if dao.users[member].voting_power < dao.min_poll_tokens {
        return Err(DaoError::InsufficientVotingPower);
    }
    if string_bytes(&title) > MAX_TITLE_LENGTH || string_bytes(&content) > MAX_CONTENT_LENGTH
        || dao.polls.len() >= MAX_POLLS {
        return Err(DaoError::CapacityExceeded);
    }
    let ghost before = dao@;
    let place = dao.polls.len();
    let poll = Poll {
        creator,
        created_at,
        executed: false,
        status: Status::Voting,
        title,
        content,
        votes: Vec::new(),
    };
    dao.polls.push(poll);
    proof {
        let after = before.create_poll_outcome(creator, title@, content@, created_at)->Ok_0.0;
        assert(dao@.polls =~= after.polls);
        assert(after.status_marks(Status::Approved) =~= before.status_marks(
            Status::Approved,
        ).push(0));
        assert(after.status_marks(Status::Rejected) =~= before.status_marks(
            Status::Rejected,
        ).push(0));
        lemma_sum_push(before.status_marks(Status::Approved), 0);
        lemma_sum_push(before.status_marks(Status::Rejected), 0);
    }
    Ok(place)
}

/// Decides the poll at `poll_index` by the approval rule, counts the
/// decision, and gives it. A poll is decided once.
pub fn resolve_poll(dao: &mut DAO, poll_index: usize) -> (r: Result<Status, DaoError>)
    requires
        old(dao)@.wf(),
    ensures
        final(dao)@.wf(),
        match r {
            Ok(status) => Ok::<(DaoView, Status), DaoError>((final(dao)@, status))
                == old(dao)@.resolve_poll_outcome(poll_index as int),
            Err(e) => Err::<(DaoView, Status), DaoError>(e) == old(dao)@.resolve_poll_outcome(
                poll_index as int,
            ) && final(dao)@ == old(dao)@,
        },
{
    if poll_index >= dao.polls.len() {
        return Err(DaoError::NotFound);
    }
    match dao.polls[poll_index].status {
        Status::Voting => {},
        _ => {
            return Err(DaoError::InvalidPollState);
        },
    }
    let ghost before = dao@;
    let approved = dao.polls[poll_index].is_approved(dao);
    let status = if approved {
        Status::Approved
    } else {
        Status::Rejected
    };
    proof {
        lemma_sum_bounded(before.status_marks(Status::Approved), 1);
        lemma_sum_bounded(before.status_marks(Status::Rejected), 1);
    }
    dao.polls[poll_index].status = status;
    if approved {
        dao.approved = dao.approved + 1;
    } else {
        dao.rejected = dao.rejected + 1;
    }
    proof {
        let after = before.resolve_poll_outcome(poll_index as int)->Ok_0.0;
        assert(dao@.polls =~= after.polls);
        let yes = before.status_marks(Status::Approved);
        let no = before.status_marks(Status::Rejected);
        if approved {
            assert(after.status_marks(Status::Approved) =~= yes.update(poll_index as int, 1));
            assert(after.status_marks(Status::Rejected) =~= no);
            lemma_sum_update(yes, poll_index as int, 1);
        } else {
            assert(after.status_marks(Status::Approved) =~= yes);
            assert(after.status_marks(Status::Rejected) =~= no.update(poll_index as int, 1));
            lemma_sum_update(no, poll_index as int, 1);
        }
    }
    Ok(status)
}

/// Marks the decided poll at `poll_index` as executed: its outcome has been
/// acted upon. A poll is marked once.
pub fn execute_poll(dao: &mut DAO, poll_index: usize) -> (r: Result<(), DaoError>)
    requires
        old(dao)@.wf(),
    ensures
        final(dao)@.wf(),
        match r {
            Ok(()) => Ok::<DaoView, DaoError>(final(dao)@) == old(dao)@.execute_poll_outcome(
                poll_index as int,
            ),
            Err(e) => Err::<DaoView, DaoError>(e) == old(dao)@.execute_poll_outcome(
                poll_index as int,
            ) && final(dao)@ == old(dao)@,
        },
{
    if poll_index >= dao.polls.len() {
        return Err(DaoError::NotFound);
    }
    match dao.polls[poll_index].status {
        Status::Voting => {
            return Err(DaoError::InvalidPollState);
        },
        _ => {},
    }
    if dao.polls[poll_index].executed {
        return Err(DaoError::InvalidPollState);
    }
    let ghost before = dao@;
    dao.polls[poll_index].executed = true;
    proof {
        let after = before.execute_poll_outcome(poll_index as int)->Ok_0;
        assert(dao@.polls =~= after.polls);
        assert(after.status_marks(Status::Approved) =~= before.status_marks(Status::Approved));
        assert(after.status_marks(Status::Rejected) =~= before.status_marks(Status::Rejected));
    }
    Ok(())
}

impl DaoView {
    /// What `deposit` gives: the DAO with a new active deposit of `amount`
    /// for `user`, who becomes a member with it if they were none, and the
    /// deposit, or why there is none.
    pub open spec fn deposit_outcome(self, user: Identity, amount: u64, created_at: i64) -> Result<
        (DaoView, Deposit),
        DaoError,
    > {
        let d = Deposit {
            user,
            mint: self.mint,
            amount,
            deactivating: false,
            deactivation_start: None,
            created_at,
        };
        if self.total_deposit_amount() + amount > u64::MAX {
            Err(DaoError::CapacityExceeded)
        } else {
            match self.position_of(user) {
                None => if self.users.len() >= MAX_USERS {
                    Err(DaoError::CapacityExceeded)
                } else {
                    Ok(
                        (
                            DaoView {
                                users: self.users.push(
                                    UserView {
                                        user,
                                        voting_power: amount,
                                        points: 0,
                                        created_at,
                                        deposits: seq![d],
                                    },
                                ),
                                ..self
                            },
                            d,
                        ),
                    )
                },
                Some(k) => if self.users[k].deposits.len() >= MAX_DEPOSITS_PER_USER {
                    Err(DaoError::CapacityExceeded)
                } else {
                    Ok(
                        (
                            DaoView {
                                users: self.users.update(
                                    k,
                                    UserView {
                                        voting_power: (self.users[k].voting_power + amount) as u64,
                                        deposits: self.users[k].deposits.push(d),
                                        ..self.users[k]
                                    },
                                ),
                                ..self
                            },
                            d,
                        ),
                    )
                },
            }
        }
    }

    /// The member at `k` with its deposit at `i` replaced by `d` and its
    /// voting power set to `voting_power`.
    pub open spec fn with_deposit(self, k: int, i: int, d: Deposit, voting_power: u64) -> DaoView {
        DaoView {
            users: self.users.update(
                k,
                UserView {
                    voting_power,
                    deposits: self.users[k].deposits.update(i, d),
                    ..self.users[k]
                },
            ),
            ..self
        }
    }

    /// What `request_withdrawal` gives: the DAO with the deposit
    /// deactivating from `now` on and its amount taken off the member's
    /// voting power, or why the request is refused.
    pub open spec fn request_withdrawal_outcome(
        self,
        user: Identity,
        deposit_index: int,
        now: i64,
    ) -> Result<DaoView, DaoError> {
        match self.position_of(user) {
            None => Err(DaoError::NotFound),
            Some(k) => if !(0 <= deposit_index < self.users[k].deposits.len()) {
                Err(DaoError::NotFound)
            } else if self.users[k].deposits[deposit_index].deactivating {
                Err(DaoError::InvalidDepositState)
            } else {
                Ok(
                    self.with_deposit(
                        k,
                        deposit_index,
                        self.users[k].deposits[deposit_index].with_deactivation(Some(now)),
                        (self.users[k].voting_power
                            - self.users[k].deposits[deposit_index].amount) as u64,
                    ),
                )
            },
        }
    }

    /// What `finalize_withdrawal` gives: the DAO with the deposit cleared,
    /// that is active again and of amount zero, or why the withdrawal is
    /// refused.
    pub open spec fn finalize_withdrawal_outcome(
        self,
        user: Identity,
        deposit_index: int,
        now: i64,
    ) -> Result<DaoView, DaoError> {
        match self.position_of(user) {
            None => Err(DaoError::NotFound),
            Some(k) => if !(0 <= deposit_index < self.users[k].deposits.len()) {
                Err(DaoError::NotFound)
            } else {
                match self.users[k].deposits[deposit_index].deactivation_start {
                    None => Err(DaoError::InvalidDepositState),
                    Some(start) => if now - start < self.time {
                        Err(DaoError::WithdrawalWindowNotElapsed)
                    } else {
                        Ok(
                            self.with_deposit(
                                k,
                                deposit_index,
                                Deposit {
                                    amount: 0,
                                    ..self.users[k].deposits[deposit_index].with_deactivation(None)
                                },
                                self.users[k].voting_power,
                            ),
                        )
                    },
                }
            },
        }
    }

    /// What `settle_rewards` gives: the DAO with the votes of the decided
    /// poll rewarded, or why they are not.
    pub open spec fn settle_rewards_outcome(self, poll_index: int) -> Result<DaoView, DaoError> {
        if !(0 <= poll_index < self.polls.len()) {
            Err(DaoError::NotFound)
        } else if self.polls[poll_index].status == Status::Voting {
            Err(DaoError::InvalidPollState)
        } else if !self.rewards_fit(poll_index) {
            Err(DaoError::CapacityExceeded)
        } else {
            Ok(self.rewarded(poll_index))
        }
    }
}

/// What holds of the totals of a well-formed DAO's member at `k`.
proof fn lemma_member_totals(dao: DaoView, k: int)
    requires
        dao.wf(),
        0 <= k < dao.users.len(),
    ensures
        dao.users[k].voting_power == dao.users[k].active_amount(),
        dao.users[k].active_amount() <= dao.users[k].gross_amount(),
        dao.users[k].gross_amount() <= dao.total_deposit_amount(),
{
    lemma_active_le_gross(dao.users[k].deposits);
    lemma_sum_ge_each(dao.gross_amounts(), k);
}

/// Stakes `amount` for `user` as a new active deposit and gives the
/// deposit. A user who was no member becomes one.
pub fn deposit(dao: &mut DAO, user: Identity, amount: u64, created_at: i64) -> (r: Result<
    Deposit,
    DaoError,
>)
    requires
        old(dao)@.wf(),
    ensures
        final(dao)@.wf(),
        match r {
            Ok(d) => Ok::<(DaoView, Deposit), DaoError>((final(dao)@, d))
                == old(dao)@.deposit_outcome(user, amount, created_at),
            Err(e) => Err::<(DaoView, Deposit), DaoError>(e) == old(dao)@.deposit_outcome(
                user,
                amount,
                created_at,
            ) && final(dao)@ == old(dao)@,
        },
{
    let total = dao.total_deposit_amount();
    if amount > u64::MAX - total {
        return Err(DaoError::CapacityExceeded);
    }
    let ghost before = dao@;
    let d = Deposit::new(user, dao.mint, amount, created_at);
    match dao.find_user(&user) {
        None => {
            if dao.users.len() >= MAX_USERS {
                return Err(DaoError::CapacityExceeded);
            }
            let mut member = User::new(user, created_at);
            member.deposits.push(d);
            member.voting_power = amount;
            dao.users.push(member);
            proof {
                let after = before.deposit_outcome(user, amount, created_at)->Ok_0.0;
                assert(dao@.users =~= after.users);
                lemma_amounts_push(Seq::empty(), d);
                assert(after.gross_amounts() =~= before.gross_amounts().push(amount as nat));
                lemma_sum_push(before.gross_amounts(), amount as nat);
            }
        },
        Some(k) => {
            if dao.users[k].deposits.len() >= MAX_DEPOSITS_PER_USER {
                return Err(DaoError::CapacityExceeded);
            }
            proof {
                lemma_member_totals(before, k as int);
            }
            let power = dao.users[k].voting_power;
            dao.users[k].deposits.push(d);
            dao.users[k].voting_power = power + amount;
            proof {
                let after = before.deposit_outcome(user, amount, created_at)->Ok_0.0;
                assert(dao@.users =~= after.users);
                lemma_amounts_push(before.users[k as int].deposits, d);
                let staked: nat = before.users[k as int].gross_amount() + amount as nat;
                assert(after.gross_amounts() =~= before.gross_amounts().update(k as int, staked));
                lemma_sum_update(before.gross_amounts(), k as int, staked);
            }
        },
    }
    Ok(d)
}

/// Marks `user`'s deposit at `deposit_index` for withdrawal from `now` on.
/// From then on it no longer counts towards the user's voting power.
pub fn request_withdrawal(dao: &mut DAO, user: Identity, deposit_index: usize, now: i64) -> (r:
    Result<(), DaoError>)
    requires
        old(dao)@.wf(),
    ensures
        final(dao)@.wf(),
        match r {
            Ok(()) => Ok::<DaoView, DaoError>(final(dao)@)
                == old(dao)@.request_withdrawal_outcome(user, deposit_index as int, now),
            Err(e) => Err::<DaoView, DaoError>(e) == old(dao)@.request_withdrawal_outcome(
                user,
                deposit_index as int,
                now,
            ) && final(dao)@ == old(dao)@,
        },
{
    let k = match dao.find_user(&user) {
        Some(k) => k,
        None => {
            return Err(DaoError::NotFound);
        },
    };
    if deposit_index >= dao.users[k].deposits.len() {
        return Err(DaoError::NotFound);
    }
    if dao.users[k].deposits[deposit_index].deactivating {
        return Err(DaoError::InvalidDepositState);
    }
    let ghost before = dao@;
    let ghost held = dao.users[k as int].deposits@;
    let ghost changed = held[deposit_index as int].with_deactivation(Some(now));
    proof {
        lemma_member_totals(before, k as int);
        lemma_amounts_update(held, deposit_index as int, changed);
    }
    let power = dao.users[k].voting_power;
    let amount = dao.users[k].deposits[deposit_index].amount;
    dao.users[k].deposits[deposit_index].set_deactivation(Some(now));
    dao.users[k].voting_power = power - amount;
    proof {
        let after = before.request_withdrawal_outcome(user, deposit_index as int, now)->Ok_0;
        assert(dao@.users =~= after.users);
        assert(after.gross_amounts() =~= before.gross_amounts());
    }
    Ok(())
}

/// Clears `user`'s deposit at `deposit_index` once the DAO's window has
/// passed since the withdrawal was asked for: the deposit stays in its place,
/// active and of amount zero.
pub fn finalize_withdrawal(dao: &mut DAO, user: Identity, deposit_index: usize, now: i64) -> (r:
    Result<(), DaoError>)
    requires
        old(dao)@.wf(),
    ensures
        final(dao)@.wf(),
        match r {
            Ok(()) => Ok::<DaoView, DaoError>(final(dao)@)
                == old(dao)@.finalize_withdrawal_outcome(user, deposit_index as int, now),
            Err(e) => Err::<DaoView, DaoError>(e) == old(dao)@.finalize_withdrawal_outcome(
                user,
                deposit_index as int,
                now,
            ) && final(dao)@ == old(dao)@,
        },
{
    let k = match dao.find_user(&user) {
        Some(k) => k,
        None => {
            return Err(DaoError::NotFound);
        },
    };
    if deposit_index >= dao.users[k].deposits.len() {
        return Err(DaoError::NotFound);
    }
    let start = match dao.users[k].deposits[deposit_index].deactivation_start {
        Some(start) => start,
        None => {
            return Err(DaoError::InvalidDepositState);
        },
    };
    if (now as i128) - (start as i128) < dao.time as i128 {
        return Err(DaoError::WithdrawalWindowNotElapsed);
    }
    let ghost before = dao@;
    let ghost held = dao.users[k as int].deposits@;
    let ghost changed = Deposit { amount: 0, ..held[deposit_index as int].with_deactivation(None) };
    proof {
        lemma_member_totals(before, k as int);
        lemma_amounts_update(held, deposit_index as int, changed);
    }
    dao.users[k].deposits[deposit_index].set_deactivation(None);
    dao.users[k].deposits[deposit_index].amount = 0;
    proof {
        let after = before.finalize_withdrawal_outcome(user, deposit_index as int, now)->Ok_0;
        assert(dao.users@[k as int].deposits@ =~= held.update(deposit_index as int, changed));
        assert(dao@.users =~= after.users);
        let staked: nat = (before.users[k as int].gross_amount()
            - held[deposit_index as int].amount) as nat;
        assert(after.gross_amounts() =~= before.gross_amounts().update(k as int, staked));
        lemma_sum_update(before.gross_amounts(), k as int, staked);
    }
    Ok(())
}

/// Rewards the votes of the decided poll at `poll_index`: each member earns
/// the power of the vote they cast. Every call rewards again: to settle a
/// poll once is up to the caller.
pub fn settle_rewards(dao: &mut DAO, poll_index: usize) -> (r: Result<(), DaoError>)
    requires
        old(dao)@.wf(),
    ensures
        final(dao)@.wf(),
        match r {
            Ok(()) => Ok::<DaoView, DaoError>(final(dao)@) == old(dao)@.settle_rewards_outcome(
                poll_index as int,
            ),
            Err(e) => Err::<DaoView, DaoError>(e) == old(dao)@.settle_rewards_outcome(
                poll_index as int,
            ) && final(dao)@ == old(dao)@,
        },
{
    if poll_index >= dao.polls.len() {
        return Err(DaoError::NotFound);
    }
    match dao.polls[poll_index].status {
        Status::Voting => {
            return Err(DaoError::InvalidPollState);
        },
        _ => {},
    }
    let ghost before = dao@;
    let ghost votes = before.polls[poll_index as int].votes;
    let mut k: usize = 0;
    while k < dao.users.len()
        invariant
            k <= dao.users.len(),
            dao@ == before,
            before == old(dao)@,
            before.wf(),
            poll_index < dao.polls.len(),
            before.polls[poll_index as int].status != Status::Voting,
            votes == before.polls[poll_index as int].votes,
            forall|i: int|
                0 <= i < k ==> before.users[i].points + #[trigger] credit(before.users, votes, i)
                    <= u64::MAX,
        decreases dao.users.len() - k,
    {
        let power = dao.polls[poll_index].power_of(&dao.users[k].user);
        assert(power == credit(before.users, votes, k as int));
        if power > (u64::MAX - dao.users[k].points) as u128 {
            return Err(DaoError::CapacityExceeded);
        }
        k += 1;
    }
    dao.reward_points(poll_index);
    proof {
        let after = before.rewarded(poll_index as int);
        assert(after.gross_amounts() =~= before.gross_amounts());
    }
    Ok(())
}

} // verus!
