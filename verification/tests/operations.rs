use dao::constants::{MAX_POLLS, MAX_VOTES_PER_POLL};
use dao::{
    cast_vote, create_dao, create_poll, deposit, execute_poll, request_withdrawal, resolve_poll,
    Choice, DaoError, Identity, Poll, Status, Time, Vote, DAO,
};

fn id(n: u8) -> Identity {
    Identity::new([n; 32])
}

fn new_dao() -> DAO {
    create_dao(id(9), id(8), Time::TwentyFourHours, 51, 10, String::from("operations"), 0).unwrap()
}

/// A DAO in which member 1 holds 20 and has opened one poll.
fn dao_with_poll() -> DAO {
    let mut dao = new_dao();
    deposit(&mut dao, id(1), 20, 1).unwrap();
    create_poll(&mut dao, id(1), String::from("title"), String::from("content"), 2).unwrap();
    dao
}

#[test]
fn create_dao_fills_the_configuration() {
    let dao =
        create_dao(id(1), id(2), Time::FourtyEightHours, 60, 10, String::from("name"), 123).unwrap();
    assert_eq!(
        dao,
        DAO {
            creator: id(1),
            mint: id(2),
            time: 172800,
            threshold: 60,
            min_poll_tokens: 10,
            approved: 0,
            rejected: 0,
            created_at: 123,
            dao_bump: 0,
            vault_bump: 0,
            name: String::from("name"),
            polls: vec![],
            users: vec![],
        }
    );
    assert!(dao.is_well_formed());
    assert_eq!(dao.total_polls(), 0);
    assert_eq!(dao.total_votes(), 0);
}

#[test]
fn create_dao_refuses_a_threshold_out_of_range() {
    let make = |threshold: u8| {
        create_dao(id(1), id(2), Time::OneWeek, threshold, 10, String::from("name"), 0)
    };
    assert_eq!(make(0), Err(DaoError::InvalidConfiguration));
    assert_eq!(make(101), Err(DaoError::InvalidConfiguration));
    assert_eq!(make(255), Err(DaoError::InvalidConfiguration));
    assert!(make(1).is_ok());
    assert!(make(100).is_ok());
}

#[test]
fn create_dao_refuses_the_testing_window() {
    assert_eq!(
        create_dao(id(1), id(2), Time::FiveSeconds, 51, 10, String::from("name"), 0),
        Err(DaoError::InvalidConfiguration)
    );
}

#[test]
fn create_dao_refuses_a_name_that_is_too_long() {
    let make = |name: String| create_dao(id(1), id(2), Time::OneWeek, 51, 10, name, 0);
    assert!(make("a".repeat(200)).is_ok());
    assert_eq!(make("a".repeat(201)), Err(DaoError::CapacityExceeded));
    // The maximum is in bytes: this sign takes three.
    assert!(make("\u{20ac}".repeat(66)).is_ok());
    assert_eq!(make("\u{20ac}".repeat(67)), Err(DaoError::CapacityExceeded));
    // A bad configuration is reported before a long name.
    assert_eq!(
        create_dao(id(1), id(2), Time::OneWeek, 0, 10, "a".repeat(201), 0),
        Err(DaoError::InvalidConfiguration)
    );
}

#[test]
fn create_poll_opens_a_poll_for_voting() {
    let mut dao = new_dao();
    deposit(&mut dao, id(1), 10, 1).unwrap();
    assert_eq!(create_poll(&mut dao, id(1), String::from("t"), String::from("c"), 5), Ok(0));
    assert_eq!(create_poll(&mut dao, id(1), String::from("u"), String::from("d"), 6), Ok(1));
    assert_eq!(
        dao.polls[0],
        Poll {
            creator: id(1),
            created_at: 5,
            executed: false,
            status: Status::Voting,
            title: String::from("t"),
            content: String::from("c"),
            votes: vec![],
        }
    );
    assert_eq!(dao.polls[1].title, "u");
    assert_eq!(dao.total_polls(), 2);
    assert!(dao.is_well_formed());
}

#[test]
fn create_poll_needs_a_member_with_enough_power() {
    let mut dao = new_dao();
    deposit(&mut dao, id(1), 9, 1).unwrap();
    let before = dao.clone();
    assert_eq!(
        create_poll(&mut dao, id(2), String::from("t"), String::from("c"), 5),
        Err(DaoError::NotFound)
    );
    assert_eq!(
        create_poll(&mut dao, id(1), String::from("t"), String::from("c"), 5),
        Err(DaoError::InsufficientVotingPower)
    );
    assert_eq!(dao, before);
    deposit(&mut dao, id(1), 1, 2).unwrap();
    assert_eq!(create_poll(&mut dao, id(1), String::from("t"), String::from("c"), 5), Ok(0));
}

#[test]
fn create_poll_counts_only_active_deposits() {
    let mut dao = new_dao();
    deposit(&mut dao, id(1), 10, 1).unwrap();
    request_withdrawal(&mut dao, id(1), 0, 2).unwrap();
    assert_eq!(
        create_poll(&mut dao, id(1), String::from("t"), String::from("c"), 5),
        Err(DaoError::InsufficientVotingPower)
    );
}

#[test]
fn create_poll_refuses_texts_that_are_too_long() {
    let mut dao = new_dao();
    deposit(&mut dao, id(1), 10, 1).unwrap();
    let before = dao.clone();
    assert_eq!(
        create_poll(&mut dao, id(1), "t".repeat(201), String::from("c"), 5),
        Err(DaoError::CapacityExceeded)
    );
    assert_eq!(
        create_poll(&mut dao, id(1), String::from("t"), "c".repeat(1121), 5),
        Err(DaoError::CapacityExceeded)
    );
    assert_eq!(dao, before);
    assert_eq!(create_poll(&mut dao, id(1), "t".repeat(200), "c".repeat(1120), 5), Ok(0));
}

#[test]
fn create_poll_refuses_one_poll_too_many() {
    let mut dao = new_dao();
    deposit(&mut dao, id(1), 10, 1).unwrap();
    for i in 0..MAX_POLLS {
        assert_eq!(create_poll(&mut dao, id(1), String::from("t"), String::from("c"), 5), Ok(i));
    }
    let before = dao.clone();
    assert_eq!(
        create_poll(&mut dao, id(1), String::from("t"), String::from("c"), 5),
        Err(DaoError::CapacityExceeded)
    );
    assert_eq!(dao, before);
}

#[test]
fn cast_vote_appends_the_vote() {
    let mut dao = dao_with_poll();
    assert_eq!(cast_vote(&mut dao, 0, id(1), Choice::Approve, 20, 7), Ok(()));
    assert_eq!(cast_vote(&mut dao, 0, id(2), Choice::Reject, 15, 8), Ok(()));
    assert_eq!(
        dao.polls[0].votes,
        vec![
            Vote { user: id(1), voting_power: 20, choice: Choice::Approve, created_at: 7 },
            Vote { user: id(2), voting_power: 15, choice: Choice::Reject, created_at: 8 },
        ]
    );
    assert_eq!(dao.total_votes(), 2);
    assert!(dao.is_well_formed());
}

#[test]
fn second_vote_of_a_member_is_a_duplicate() {
    let mut dao = dao_with_poll();
    cast_vote(&mut dao, 0, id(1), Choice::Approve, 20, 7).unwrap();
    let before = dao.clone();
    assert_eq!(cast_vote(&mut dao, 0, id(1), Choice::Approve, 20, 8), Err(DaoError::DuplicateVote));
    assert_eq!(cast_vote(&mut dao, 0, id(1), Choice::Reject, 1, 9), Err(DaoError::DuplicateVote));
    assert_eq!(dao.polls[0].votes, before.polls[0].votes);
    assert_eq!(dao, before);
}

#[test]
fn a_member_may_vote_on_each_poll() {
    let mut dao = dao_with_poll();
    create_poll(&mut dao, id(1), String::from("t"), String::from("c"), 3).unwrap();
    assert_eq!(cast_vote(&mut dao, 0, id(1), Choice::Approve, 20, 7), Ok(()));
    assert_eq!(cast_vote(&mut dao, 1, id(1), Choice::Reject, 20, 8), Ok(()));
    assert_eq!(dao.total_votes(), 2);
}

#[test]
fn cast_vote_errors() {
    let mut dao = dao_with_poll();
    let before = dao.clone();
    assert_eq!(cast_vote(&mut dao, 1, id(1), Choice::Approve, 20, 7), Err(DaoError::NotFound));
    assert_eq!(dao, before);
    resolve_poll(&mut dao, 0).unwrap();
    let before = dao.clone();
    assert_eq!(
        cast_vote(&mut dao, 0, id(1), Choice::Approve, 20, 7),
        Err(DaoError::InvalidPollState)
    );
    assert_eq!(dao, before);
}

#[test]
fn cast_vote_refuses_one_vote_too_many() {
    let mut dao = dao_with_poll();
    for i in 0..MAX_VOTES_PER_POLL {
        assert_eq!(cast_vote(&mut dao, 0, id(i as u8), Choice::Approve, 1, 7), Ok(()));
    }
    let before = dao.clone();
    assert_eq!(
        cast_vote(&mut dao, 0, id(200), Choice::Approve, 1, 7),
        Err(DaoError::CapacityExceeded)
    );
    assert_eq!(dao, before);
}

#[test]
fn vote_keeps_the_power_it_was_cast_with() {
    let mut dao = dao_with_poll();
    cast_vote(&mut dao, 0, id(1), Choice::Approve, 20, 7).unwrap();
    deposit(&mut dao, id(1), 80, 8).unwrap();
    request_withdrawal(&mut dao, id(1), 0, 9).unwrap();
    assert_eq!(dao.users[0].voting_power, 80);
    assert_eq!(dao.polls[0].votes[0].voting_power, 20);
}

#[test]
fn resolve_poll_approves_and_counts() {
    let mut dao = dao_with_poll();
    cast_vote(&mut dao, 0, id(1), Choice::Approve, 20, 7).unwrap();
    cast_vote(&mut dao, 0, id(2), Choice::Reject, 15, 8).unwrap();
    assert!(dao.polls[0].is_approved(&dao));
    assert_eq!(resolve_poll(&mut dao, 0), Ok(Status::Approved));
    assert_eq!(dao.polls[0].status, Status::Approved);
    assert_eq!(dao.approved, 1);
    assert_eq!(dao.rejected, 0);
    assert!(!dao.polls[0].executed);
    assert!(dao.is_well_formed());
}

#[test]
fn resolve_poll_rejects_and_counts() {
    let mut dao = dao_with_poll();
    cast_vote(&mut dao, 0, id(1), Choice::Approve, 15, 7).unwrap();
    cast_vote(&mut dao, 0, id(2), Choice::Reject, 20, 8).unwrap();
    assert_eq!(resolve_poll(&mut dao, 0), Ok(Status::Rejected));
    assert_eq!(dao.polls[0].status, Status::Rejected);
    assert_eq!(dao.approved, 0);
    assert_eq!(dao.rejected, 1);
}

#[test]
fn resolve_poll_without_votes_rejects() {
    let mut dao = dao_with_poll();
    assert_eq!(resolve_poll(&mut dao, 0), Ok(Status::Rejected));
    assert_eq!(dao.rejected, 1);
}

#[test]
fn resolve_poll_happens_once() {
    let mut dao = dao_with_poll();
    cast_vote(&mut dao, 0, id(1), Choice::Approve, 20, 7).unwrap();
    resolve_poll(&mut dao, 0).unwrap();
    let before = dao.clone();
    assert_eq!(resolve_poll(&mut dao, 0), Err(DaoError::InvalidPollState));
    assert_eq!(resolve_poll(&mut dao, 1), Err(DaoError::NotFound));
    assert_eq!(dao, before);
    assert_eq!(dao.approved, 1);
}

#[test]
fn execute_poll_marks_a_decided_poll_once() {
    let mut dao = dao_with_poll();
    let before = dao.clone();
    assert_eq!(execute_poll(&mut dao, 0), Err(DaoError::InvalidPollState));
    assert_eq!(execute_poll(&mut dao, 1), Err(DaoError::NotFound));
    assert_eq!(dao, before);
    resolve_poll(&mut dao, 0).unwrap();
    assert_eq!(execute_poll(&mut dao, 0), Ok(()));
    assert!(dao.polls[0].executed);
    assert_eq!(dao.polls[0].status, Status::Rejected);
    assert_eq!(execute_poll(&mut dao, 0), Err(DaoError::InvalidPollState));
    assert!(dao.is_well_formed());
}

#[test]
fn end_to_end() {
    let mut dao =
        create_dao(id(9), id(8), Time::TwentyFourHours, 51, 10, String::from("dao"), 0).unwrap();
    deposit(&mut dao, id(1), 20, 1).unwrap();
    assert!(dao.users[0].voting_power >= 10);
    let poll = create_poll(&mut dao, id(1), String::from("title"), String::from("content"), 2)
        .unwrap();
    cast_vote(&mut dao, poll, id(1), Choice::Approve, 20, 3).unwrap();
    cast_vote(&mut dao, poll, id(2), Choice::Reject, 15, 4).unwrap();
    assert!(dao.polls[poll].is_approved(&dao));
    assert_eq!(resolve_poll(&mut dao, poll), Ok(Status::Approved));
    assert_eq!(dao.polls[poll].status, Status::Approved);
    assert_eq!(dao.approved, 1);
    assert_eq!(dao.rejected, 0);
}

#[test]
fn nothing_is_undone_by_later_operations() {
    let mut dao = dao_with_poll();
    cast_vote(&mut dao, 0, id(1), Choice::Approve, 20, 7).unwrap();
    let before = dao.clone();
    deposit(&mut dao, id(2), 5, 8).unwrap();
    cast_vote(&mut dao, 0, id(2), Choice::Reject, 5, 9).unwrap();
    create_poll(&mut dao, id(1), String::from("next"), String::from("more"), 10).unwrap();
    resolve_poll(&mut dao, 0).unwrap();
    request_withdrawal(&mut dao, id(1), 0, 11).unwrap();
    assert_eq!(dao.creator, before.creator);
    assert_eq!(dao.mint, before.mint);
    assert!(dao.polls.len() >= before.polls.len());
    assert!(dao.users.len() >= before.users.len());
    assert_eq!(dao.polls[0].votes[..1], before.polls[0].votes[..]);
    assert_eq!(dao.polls[0].title, before.polls[0].title);
    assert_eq!(dao.users[0].user, before.users[0].user);
    assert_eq!(dao.users[0].deposits.len(), before.users[0].deposits.len());
    assert!(dao.users[0].points >= before.users[0].points);
    assert!(dao.approved >= before.approved);
}
