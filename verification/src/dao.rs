//! The DAO: its configuration, its members and its polls.

use vstd::prelude::*;
use crate::constants::{
    AMOUNT_LENGTH, BUMP_LENGTH, DISCRIMINATOR_LENGTH, MAX_DAO_NAME_LENGTH, MAX_DEPOSITS_PER_USER,
    MAX_POLLS, MAX_USERS,
    PUBLIC_KEY_LENGTH, STRING_LENGTH_PREFIX, THRESHOLD_LENGTH, TIMESTAMP_LENGTH,
    VECTOR_LENGTH_PREFIX,
};
use crate::identity::Identity;
use crate::layout::{byte_len, string_bytes};
use crate::poll::{Poll, PollView, Status};
use crate::deposit::amounts;
use crate::sum::{
    lemma_sum_bounded, lemma_sum_ge_each, lemma_sum_push, lemma_sum_take_le, lemma_sum_take_next,
    sum,
};
use crate::user::{User, UserView};
use crate::vote::{power_cast_by, powers_of, Vote};

verus! {

/// The governance aggregate: configuration, members and polls.
#[derive(Debug, Clone, PartialEq, Eq)]
pub struct DAO {
    pub creator: Identity,
    /// The token accepted for deposits.
    pub mint: Identity,
    /// The configured window, in seconds.
    pub time: i64,
    /// The approval percentage a poll needs to pass, from 1 to 100.
    pub threshold: u8,
    /// The voting power it takes to create a poll.
    pub min_poll_tokens: u64,
    pub approved: u64,
    pub rejected: u64,
    pub created_at: i64,
    pub dao_bump: u8,
    pub vault_bump: u8,
    pub name: String,
    pub polls: Vec<Poll>,
    pub users: Vec<User>,
}

/// A DAO as a mathematical value.
pub struct DaoView {
    pub creator: Identity,
    pub mint: Identity,
    pub time: i64,
    pub threshold: u8,
    pub min_poll_tokens: u64,
    pub approved: u64,
    pub rejected: u64,
    pub created_at: i64,
    pub dao_bump: u8,
    pub vault_bump: u8,
    pub name: Seq<char>,
    pub polls: Seq<PollView>,
    pub users: Seq<UserView>,
}

impl View for DAO {
    type V = DaoView;

    open spec fn view(&self) -> DaoView {
        DaoView {
            creator: self.creator,
            mint: self.mint,
            time: self.time,
            threshold: self.threshold,
            min_poll_tokens: self.min_poll_tokens,
            approved: self.approved,
            rejected: self.rejected,
            created_at: self.created_at,
            dao_bump: self.dao_bump,
            vault_bump: self.vault_bump,
            name: self.name@,
            polls: self.polls@.map_values(|p: Poll| p@),
            users: self.users@.map_values(|u: User| u@),
        }
    }
}

/// Whether the member at `k` is the first one with its identity.
pub open spec fn first_with_identity(users: Seq<UserView>, k: int) -> bool {
    forall|j: int| 0 <= j < k ==> (#[trigger] users[j]).user != users[k].user
}

/// The points that `votes` earn the member at `k`: the power of the votes
/// cast under its identity. Where two members share an identity, the first
/// one earns them.
pub open spec fn credit(users: Seq<UserView>, votes: Seq<Vote>, k: int) -> nat {
    if first_with_identity(users, k) {
        power_cast_by(votes, users[k].user)
    } else {
        0
    }
}

/// Every member's points can take what `votes` earn them.
pub open spec fn credits_fit(users: Seq<UserView>, votes: Seq<Vote>) -> bool {
    forall|k: int|
        0 <= k < users.len() ==> users[k].points + #[trigger] credit(users, votes, k)
            <= u64::MAX
}

/// The members once `votes` are rewarded: each has earned its credit, and
/// nothing else about it has changed.
pub open spec fn credited(users: Seq<UserView>, votes: Seq<Vote>) -> Seq<UserView> {
    Seq::new(
        users.len(),
        |k: int|
            UserView {
                points: (users[k].points + credit(users, votes, k)) as u64,
                ..users[k]
            },
    )
}

/// The credit of the first `n` votes is no more than that of all of them.
proof fn lemma_credit_take_le(users: Seq<UserView>, votes: Seq<Vote>, n: int, k: int)
    requires
        0 <= n <= votes.len(),
    ensures
        credit(users, votes.take(n), k) <= credit(users, votes, k),
{
    let id = users[k].user;
    assert(powers_of(votes.take(n), id) =~= powers_of(votes, id).take(n));
    lemma_sum_take_le(powers_of(votes, id), n);
}

/// What one more vote adds to the credit of the member at `k`.
proof fn lemma_credit_next(users: Seq<UserView>, votes: Seq<Vote>, n: int, k: int)
    requires
        0 <= n < votes.len(),
    ensures
        credit(users, votes.take(n + 1), k) == credit(users, votes.take(n), k) + if votes[n].user
            == users[k].user && first_with_identity(users, k) {
            votes[n].voting_power as nat
        } else {
            0
        },
{
    let id = users[k].user;
    let v = votes[n];
    let x: nat = if v.user == id {
        v.voting_power as nat
    } else {
        0
    };
    assert(powers_of(votes.take(n + 1), id) =~= powers_of(votes.take(n), id).push(x));
    lemma_sum_push(powers_of(votes.take(n), id), x);
}

/// Being the first with one's identity depends on the identities alone.
pub proof fn lemma_first_with_same_identities(a: Seq<UserView>, b: Seq<UserView>, k: int)
    requires
        a.len() == b.len(),
        0 <= k < a.len(),
        forall|i: int| 0 <= i < a.len() ==> (#[trigger] a[i]).user == b[i].user,
        first_with_identity(a, k),
    ensures
        first_with_identity(b, k),
{
    assert forall|j: int| 0 <= j < k implies (#[trigger] b[j]).user != b[k].user by {
        assert(a[j].user != a[k].user);
    }
}

/// What the vote at `n` adds to every member's credit: its power to the
/// first member with the voter's identity, at `hit`, and nothing to the others.
proof fn lemma_credit_step(users: Seq<UserView>, votes: Seq<Vote>, n: int, hit: Option<int>)
    requires
        0 <= n < votes.len(),
        match hit {
            Some(f) => 0 <= f < users.len() && users[f].user == votes[n].user
                && first_with_identity(users, f),
            None => forall|k: int|
                0 <= k < users.len() ==> (#[trigger] users[k]).user != votes[n].user,
        },
    ensures
        forall|k: int|
            0 <= k < users.len() ==> #[trigger] credit(users, votes.take(n + 1), k) == credit(
                users,
                votes.take(n),
                k,
            ) + if hit == Some(k) {
                votes[n].voting_power as nat
            } else {
                0
            },
{
    assert forall|k: int| 0 <= k < users.len() implies #[trigger] credit(
        users,
        votes.take(n + 1),
        k,
    ) == credit(users, votes.take(n), k) + if hit == Some(k) {
        votes[n].voting_power as nat
    } else {
        0
    } by {
        lemma_credit_next(users, votes, n, k);
    }
}

impl DaoView {
    /// The DAO once the votes of the poll at `poll_id` are rewarded. Without
    /// such a poll nothing changes.
    pub open spec fn rewarded(self, poll_id: int) -> DaoView {
        if 0 <= poll_id < self.polls.len() {
            DaoView { users: credited(self.users, self.polls[poll_id].votes), ..self }
        } else {
            self
        }
    }

    /// Every member's points can take the reward of the poll at `poll_id`.
    pub open spec fn rewards_fit(self, poll_id: int) -> bool {
        0 <= poll_id < self.polls.len() ==> credits_fit(self.users, self.polls[poll_id].votes)
    }

    /// The place of the first member whose identity is `user`.
    pub open spec fn position_of(self, user: Identity) -> Option<int> {
        if exists|k: int| 0 <= k < self.users.len() && (#[trigger] self.users[k]).user == user {
            Some(
                choose|k: int|
                    0 <= k < self.users.len() && (#[trigger] self.users[k]).user == user
                        && first_with_identity(self.users, k),
            )
        } else {
            None
        }
    }

    /// Counts one for each poll whose status is `status`.
    pub open spec fn status_marks(self, status: Status) -> Seq<nat> {
        self.polls.map_values(
            |p: PollView|
                if p.status == status {
                    1nat
                } else {
                    0nat
                },
        )
    }

    /// The number of polls whose status is `status`.
    pub open spec fn polls_with(self, status: Status) -> nat {
        sum(self.status_marks(status))
    }

    /// No two members share an identity.
    pub open spec fn distinct_users(self) -> bool {
        forall|i: int, j: int|
            0 <= i < j < self.users.len() ==> (#[trigger] self.users[i]).user != (
            #[trigger] self.users[j]).user
    }

    /// Every deposit is in the DAO's token.
    pub open spec fn deposits_in_mint(self) -> bool {
        forall|i: int, d: int|
            0 <= i < self.users.len() && 0 <= d < self.users[i].deposits.len() ==> (
            #[trigger] self.users[i].deposits[d]).mint == self.mint
    }

    /// What holds of a DAO after every operation: the threshold is a
    /// percentage from 1 to 100; name, polls and members are within their
    /// maxima and each poll and member is well formed; members have distinct
    /// identities; deposits are in the DAO's token and their total fits the
    /// record; the counters are the numbers of approved and rejected polls.
    pub open spec fn wf(self) -> bool {
        &&& 1 <= self.threshold <= 100
        &&& byte_len(self.name) <= MAX_DAO_NAME_LENGTH
        &&& self.polls.len() <= MAX_POLLS
        &&& forall|i: int| 0 <= i < self.polls.len() ==> (#[trigger] self.polls[i]).wf()
        &&& self.users.len() <= MAX_USERS
        &&& forall|i: int| 0 <= i < self.users.len() ==> (#[trigger] self.users[i]).wf()
        &&& self.distinct_users()
        &&& self.deposits_in_mint()
        &&& self.total_deposit_amount() <= u64::MAX
        &&& self.approved == self.polls_with(Status::Approved)
        &&& self.rejected == self.polls_with(Status::Rejected)
    }

    /// Bytes the DAO takes when stored.
    pub open spec fn size(self) -> nat {
        (DISCRIMINATOR_LENGTH + PUBLIC_KEY_LENGTH * 2 + TIMESTAMP_LENGTH * 2 + THRESHOLD_LENGTH
            + AMOUNT_LENGTH * 3 + BUMP_LENGTH * 2 + STRING_LENGTH_PREFIX + VECTOR_LENGTH_PREFIX
            * 2) as nat
            + byte_len(self.name) + sum(self.polls.map_values(|p: PollView| p.size())) + sum(
            self.users.map_values(|u: UserView| u.size()),
        )
    }

    /// How many deposits each member holds.
    pub open spec fn deposit_counts(self) -> Seq<nat> {
        self.users.map_values(|u: UserView| u.deposits.len())
    }

    /// What each member has staked, deactivating deposits included.
    pub open spec fn gross_amounts(self) -> Seq<nat> {
        self.users.map_values(|u: UserView| u.gross_amount())
    }

    /// How many votes each poll holds.
    pub open spec fn vote_counts(self) -> Seq<nat> {
        self.polls.map_values(|p: PollView| p.votes.len())
    }

    /// The number of deposits of all the members.
    pub open spec fn total_deposits(self) -> nat {
        sum(self.deposit_counts())
    }

    /// The staked capital of all the members, deactivating deposits included.
    pub open spec fn total_deposit_amount(self) -> nat {
        sum(self.gross_amounts())
    }

    /// The number of votes on all the polls.
    pub open spec fn total_votes(self) -> nat {
        sum(self.vote_counts())
    }
}

impl DAO {
    /// Bytes a stored DAO takes at most before any poll or member.
    pub const LEN: usize = DISCRIMINATOR_LENGTH + PUBLIC_KEY_LENGTH * 2 + TIMESTAMP_LENGTH * 2
        + THRESHOLD_LENGTH + AMOUNT_LENGTH * 3 + BUMP_LENGTH * 2 + STRING_LENGTH_PREFIX
        + MAX_DAO_NAME_LENGTH + VECTOR_LENGTH_PREFIX * 2;

    /// Bytes a stored DAO takes at most.
    pub const MAX_LEN: usize = DAO::LEN + MAX_POLLS * Poll::MAX_LEN + MAX_USERS * User::MAX_LEN;

    /// The number of deposits of all the members.
    pub fn total_deposits(&self) -> (count: usize)
        requires
            self@.total_deposits() <= usize::MAX,
        ensures
            count == self@.total_deposits(),
    {
        let ghost parts = self@.deposit_counts();
        let mut count: usize = 0;
        let mut i: usize = 0;
        while i < self.users.len()
            invariant
                i <= self.users.len(),
                parts == self@.deposit_counts(),
                count == sum(parts.take(i as int)),
                sum(parts) <= usize::MAX,
            decreases self.users.len() - i,
        {
            proof {
                lemma_sum_take_next(parts, i as int);
                lemma_sum_take_le(parts, i + 1);
            }
            count += self.users[i].deposits.len();
            i += 1;
        }
        assert(parts.take(i as int) =~= parts);
        count
    }

    /// The number of polls.
    pub fn total_polls(&self) -> (count: usize)
        ensures
            count == self@.polls.len(),
    {
        self.polls.len()
    }

    /// The staked capital of all the members. Deposits marked for withdrawal
    /// count: their funds have not left custody.
    pub fn total_deposit_amount(&self) -> (total: u64)
        requires
            self@.total_deposit_amount() <= u64::MAX,
        ensures
            total == self@.total_deposit_amount(),
    {
        let ghost parts = self@.gross_amounts();
        let mut total: u64 = 0;
        let mut i: usize = 0;
        while i < self.users.len()
            invariant
                i <= self.users.len(),
                parts == self@.gross_amounts(),
                total == sum(parts.take(i as int)),
                sum(parts) <= u64::MAX,
            decreases self.users.len() - i,
        {
            proof {
                lemma_sum_take_next(parts, i as int);
                lemma_sum_take_le(parts, i + 1);
                lemma_sum_ge_each(parts, i as int);
            }
            total += self.users[i].gross_deposit_amount();
            i += 1;
        }
        assert(parts.take(i as int) =~= parts);
        total
    }

    /// Finds the first member whose identity is `user`.
    pub fn find_user(&self, user: &Identity) -> (found: Option<usize>)
        ensures
            match found {
                Some(k) => k < self@.users.len() && self@.users[k as int].user == *user
                    && first_with_identity(self@.users, k as int),
                None => forall|k: int|
                    0 <= k < self@.users.len() ==> (#[trigger] self@.users[k]).user != *user,
            },
            match found {
                Some(k) => self@.position_of(*user) == Some(k as int),
                None => self@.position_of(*user).is_none(),
            },
    {
        let mut i: usize = 0;
        while i < self.users.len()
            invariant
                i <= self.users.len(),
                forall|k: int| 0 <= k < i ==> (#[trigger] self@.users[k]).user != *user,
            decreases self.users.len() - i,
        {
            if self.users[i].user.same(user) {
                assert(self@.users[i as int].user == *user && first_with_identity(
                    self@.users,
                    i as int,
                ));
                return Some(i);
            }
            i += 1;
        }
        None
    }

    /// Settles the rewards of the poll at `poll_id`: each vote's power is
    /// added to the points of the member who cast it. A vote whose voter is
    /// not a member is passed over, and so is a `poll_id` without a poll.
    ///
    /// Every call credits again: calling this once per poll is up to the caller.
    pub fn reward_points(&mut self, poll_id: usize)
        requires
            old(self)@.rewards_fit(poll_id as int),
        ensures
            final(self)@ == old(self)@.rewarded(poll_id as int),
    {
        if poll_id < self.polls.len() {
            let ghost before = self@;
            let ghost votes = self.polls[poll_id as int]@.votes;
            let n = self.polls[poll_id].votes.len();
            let mut j: usize = 0;
            assert(self@.users =~= credited(before.users, votes.take(0)));
            while j < n
                invariant
                    j <= n,
                    poll_id < self.polls.len(),
                    before.polls.len() == self.polls.len(),
                    votes == before.polls[poll_id as int].votes,
                    n == votes.len(),
                    credits_fit(before.users, votes),
                    self@ == (DaoView {
                        users: credited(before.users, votes.take(j as int)),
                        ..before
                    }),
                decreases n - j,
            {
                let vote = self.polls[poll_id].votes[j];
                let found = self.find_user(&vote.user);
                let ghost mid = self@;
                let ghost hit: Option<int> = match found {
                    Some(k) => Some(k as int),
                    None => None,
                };
                proof {
                    if let Some(f) = hit {
                        lemma_first_with_same_identities(mid.users, before.users, f);
                        lemma_credit_take_le(before.users, votes, j + 1, f);
                    } else {
                        assert forall|k: int| 0 <= k < before.users.len() implies (
                        #[trigger] before.users[k]).user != vote.user by {
                            assert(mid.users[k].user != vote.user);
                        }
                    }
                    lemma_credit_step(before.users, votes, j as int, hit);
                }
                let ghost members = self.users@;
                assert(forall|i: int|
                    0 <= i < members.len() ==> mid.users[i] == (#[trigger] members[i])@);
                if let Some(k) = found {
                    let points = self.users[k].points;
                    self.users[k].points = points + vote.voting_power;
                }
                j += 1;
                assert(self@.users =~= credited(before.users, votes.take(j as int)));
            }
            assert(votes.take(n as int) =~= votes);
        }
    }

    /// The number of votes on all the polls.
    pub fn total_votes(&self) -> (count: usize)
        requires
            self@.total_votes() <= usize::MAX,
        ensures
            count == self@.total_votes(),
    {
        let ghost parts = self@.vote_counts();
        let mut count: usize = 0;
        let mut i: usize = 0;
        while i < self.polls.len()
            invariant
                i <= self.polls.len(),
                parts == self@.vote_counts(),
                count == sum(parts.take(i as int)),
                sum(parts) <= usize::MAX,
            decreases self.polls.len() - i,
        {
            proof {
                lemma_sum_take_next(parts, i as int);
                lemma_sum_take_le(parts, i + 1);
            }
            count += self.polls[i].votes.len();
            i += 1;
        }
        assert(parts.take(i as int) =~= parts);
        count
    }

    /// Checks what must hold of every poll, and counts the approved and the
    /// rejected ones.
    fn check_polls(&self) -> (r: Option<(u64, u64)>)
        requires
            self@.polls.len() <= MAX_POLLS,
        ensures
            r.is_some() == (forall|i: int|
                0 <= i < self@.polls.len() ==> (#[trigger] self@.polls[i]).wf()),
            r matches Some((yes, no)) ==> yes == self@.polls_with(Status::Approved) && no
                == self@.polls_with(Status::Rejected),
    {
        let ghost yes_marks = self@.status_marks(Status::Approved);
        let ghost no_marks = self@.status_marks(Status::Rejected);
        let mut yes: u64 = 0;
        let mut no: u64 = 0;
        let mut i: usize = 0;
        while i < self.polls.len()
            invariant
                i <= self.polls.len(),
                self.polls.len() <= MAX_POLLS,
                yes_marks == self@.status_marks(Status::Approved),
                no_marks == self@.status_marks(Status::Rejected),
                yes == sum(yes_marks.take(i as int)),
                no == sum(no_marks.take(i as int)),
                yes <= i,
                no <= i,
                forall|k: int| 0 <= k < i ==> (#[trigger] self@.polls[k]).wf(),
            decreases self.polls.len() - i,
        {
            proof {
                lemma_sum_take_next(yes_marks, i as int);
                lemma_sum_take_next(no_marks, i as int);
            }
            if !self.polls[i].is_well_formed() {
                return None;
            }
            match self.polls[i].status {
                Status::Approved => {
                    yes += 1;
                },
                Status::Rejected => {
                    no += 1;
                },
                Status::Voting => {},
            }
            i += 1;
        }
        assert(yes_marks.take(i as int) =~= yes_marks);
        assert(no_marks.take(i as int) =~= no_marks);
        Some((yes, no))
    }

    /// Checks what must hold of every member and of its deposits, and adds
    /// up what the members have staked.
    fn check_users(&self) -> (r: Option<u128>)
        requires
            self@.users.len() <= MAX_USERS,
        ensures
            r.is_some() == ((forall|i: int|
                0 <= i < self@.users.len() ==> (#[trigger] self@.users[i]).wf())
                && self@.deposits_in_mint()),
            r matches Some(total) ==> total == self@.total_deposit_amount(),
    {
        let ghost parts = self@.gross_amounts();
        let mut total: u128 = 0;
        let mut i: usize = 0;
        while i < self.users.len()
            invariant
                i <= self.users.len(),
                self.users.len() <= MAX_USERS,
                parts == self@.gross_amounts(),
                total == sum(parts.take(i as int)),
                total <= i * (MAX_DEPOSITS_PER_USER * u64::MAX),
                forall|k: int| 0 <= k < i ==> (#[trigger] self@.users[k]).wf(),
                forall|k: int, d: int|
                    0 <= k < i && 0 <= d < self@.users[k].deposits.len() ==> (
                    #[trigger] self@.users[k].deposits[d]).mint == self.mint,
            decreases self.users.len() - i,
        {
            proof {
                lemma_sum_take_next(parts, i as int);
            }
            if !self.users[i].is_well_formed() {
                return None;
            }
            if !self.users[i].deposits_in(&self.mint) {
                proof {
                    let d = choose|d: int|
                        0 <= d < self@.users[i as int].deposits.len() && (
                        #[trigger] self@.users[i as int].deposits[d]).mint != self.mint;
                }
                return None;
            }
            let staked = self.users[i].staked();
            assert(staked <= MAX_DEPOSITS_PER_USER * u64::MAX) by {
                lemma_sum_bounded(
                    amounts(self@.users[i as int].deposits),
                    u64::MAX as nat,
                );
                assert(self@.users[i as int].deposits.len() * u64::MAX <= MAX_DEPOSITS_PER_USER
                    * u64::MAX) by (nonlinear_arith)
                    requires
                        self@.users[i as int].deposits.len() <= MAX_DEPOSITS_PER_USER,
                ;
            }
            assert(i * (MAX_DEPOSITS_PER_USER * u64::MAX) + MAX_DEPOSITS_PER_USER * u64::MAX == (i
                + 1) * (MAX_DEPOSITS_PER_USER * u64::MAX)) by (nonlinear_arith);
            assert((i + 1) * (MAX_DEPOSITS_PER_USER * u64::MAX) <= MAX_USERS * (
            MAX_DEPOSITS_PER_USER * u64::MAX)) by (nonlinear_arith)
                requires
                    i + 1 <= MAX_USERS,
            ;
            total += staked;
            i += 1;
        }
        assert(parts.take(i as int) =~= parts);
        Some(total)
    }

    /// Whether no two members share an identity.
    fn has_distinct_users(&self) -> (ok: bool)
        ensures
            ok == self@.distinct_users(),
    {
        let mut j: usize = 0;
        while j < self.users.len()
            invariant
                j <= self.users.len(),
                forall|a: int, b: int|
                    0 <= a < b < j ==> (#[trigger] self@.users[a]).user != (
                    #[trigger] self@.users[b]).user,
            decreases self.users.len() - j,
        {
            let mut i: usize = 0;
            while i < j
                invariant
                    i <= j,
                    j < self.users.len(),
                    forall|a: int|
                        0 <= a < i ==> (#[trigger] self@.users[a]).user != self@.users[j as int]
                            .user,
                decreases j - i,
            {
                if self.users[i].user.same(&self.users[j].user) {
                    assert(self@.users[i as int].user == self@.users[j as int].user);
                    return false;
                }
                i += 1;
            }
            j += 1;
        }
        true
    }

    /// Checks what must hold of a DAO: what a record read from storage has to
    /// pass before any operation is applied to it.
    pub fn is_well_formed(&self) -> (ok: bool)
        ensures
            ok == self@.wf(),
    {
        if self.threshold < 1 || self.threshold > 100 || string_bytes(&self.name)
            > MAX_DAO_NAME_LENGTH || self.polls.len() > MAX_POLLS || self.users.len() > MAX_USERS {
            return false;
        }
        let (yes, no) = match self.check_polls() {
            Some(counts) => counts,
            None => {
                return false;
            },
        };
        let total = match self.check_users() {
            Some(total) => total,
            None => {
                return false;
            },
        };
        self.has_distinct_users() && total <= u64::MAX as u128 && self.approved == yes
            && self.rejected == no
    }
}

} // verus!
