use dao::{
    cast_vote, create_dao, create_poll, create_user, deposit, request_withdrawal, resolve_poll,
    Choice, Deposit, Identity, Status, Time, User, Vote, DAO,
};

fn id(n: u8) -> Identity {
    Identity::new([n; 32])
}

/// A well-formed DAO with two members, deposits of both kinds and two polls.
fn busy_dao() -> DAO {
    let mut dao =
        create_dao(id(9), id(8), Time::TwentyFourHours, 51, 10, String::from("valid"), 0).unwrap();
    deposit(&mut dao, id(1), 100, 1).unwrap();
    deposit(&mut dao, id(1), 50, 2).unwrap();
    deposit(&mut dao, id(2), 30, 3).unwrap();
    request_withdrawal(&mut dao, id(1), 1, 4).unwrap();
    create_poll(&mut dao, id(1), String::from("a"), String::from("b"), 5).unwrap();
    create_poll(&mut dao, id(2), String::from("c"), String::from("d"), 6).unwrap();
    cast_vote(&mut dao, 0, id(1), Choice::Approve, 100, 7).unwrap();
    cast_vote(&mut dao, 0, id(2), Choice::Reject, 30, 8).unwrap();
    resolve_poll(&mut dao, 0).unwrap();
    dao
}

#[test]
fn operations_keep_the_dao_well_formed() {
    let dao = busy_dao();
    assert!(dao.is_well_formed());
    assert!(dao.users[0].is_well_formed());
    assert!(dao.polls[0].is_well_formed());
    assert_eq!(dao.approved, 1);
}

#[test]
fn threshold_out_of_range_is_not_well_formed() {
    let mut dao = busy_dao();
    dao.threshold = 0;
    assert!(!dao.is_well_formed());
    dao.threshold = 101;
    assert!(!dao.is_well_formed());
    dao.threshold = 100;
    assert!(dao.is_well_formed());
}

#[test]
fn long_name_is_not_well_formed() {
    let mut dao = busy_dao();
    dao.name = "n".repeat(201);
    assert!(!dao.is_well_formed());
}

#[test]
fn two_members_with_one_identity_are_not_well_formed() {
    let mut dao = busy_dao();
    dao.users.push(User::new(id(1), 9));
    assert!(!dao.is_well_formed());
    assert!(!dao.clone().users.is_empty());
    dao.users[2].user = id(3);
    assert!(dao.is_well_formed());
}

#[test]
fn deposit_out_of_step_makes_the_dao_not_well_formed() {
    let mut dao = busy_dao();
    dao.users[0].deposits[1].deactivation_start = None;
    assert!(!dao.users[0].is_well_formed());
    assert!(!dao.is_well_formed());
}

#[test]
fn voting_power_that_drifted_is_not_well_formed() {
    let mut dao = busy_dao();
    dao.users[0].voting_power = 150;
    assert!(!dao.users[0].is_well_formed());
    assert!(!dao.is_well_formed());
    dao.users[0].voting_power = 100;
    assert!(dao.is_well_formed());
}

#[test]
fn deposit_of_another_member_is_not_well_formed() {
    let mut dao = busy_dao();
    dao.users[1].deposits[0].user = id(1);
    assert!(!dao.users[1].is_well_formed());
    assert!(!dao.is_well_formed());
}

#[test]
fn deposit_in_another_token_is_not_well_formed() {
    let mut dao = busy_dao();
    dao.users[1].deposits[0].mint = id(7);
    assert!(dao.users[1].is_well_formed());
    assert!(!dao.users[1].deposits_in(&id(8)));
    assert!(dao.users[0].deposits_in(&id(8)));
    assert!(!dao.is_well_formed());
}

#[test]
fn counters_that_drifted_are_not_well_formed() {
    let mut dao = busy_dao();
    dao.approved = 2;
    assert!(!dao.is_well_formed());
    dao.approved = 1;
    dao.rejected = 1;
    assert!(!dao.is_well_formed());
}

#[test]
fn two_votes_of_one_member_are_not_well_formed() {
    let mut dao = busy_dao();
    dao.polls[1].votes.push(Vote {
        user: id(1),
        voting_power: 1,
        choice: Choice::Approve,
        created_at: 0,
    });
    assert!(dao.is_well_formed());
    dao.polls[1].votes.push(Vote {
        user: id(1),
        voting_power: 2,
        choice: Choice::Reject,
        created_at: 0,
    });
    assert!(!dao.polls[1].is_well_formed());
    assert!(!dao.is_well_formed());
}

#[test]
fn executed_poll_must_be_decided() {
    let mut dao = busy_dao();
    dao.polls[1].executed = true;
    assert_eq!(dao.polls[1].status, Status::Voting);
    assert!(!dao.polls[1].is_well_formed());
    assert!(!dao.is_well_formed());
    dao.polls[0].executed = true;
    dao.polls[1].executed = false;
    assert!(dao.is_well_formed());
}

#[test]
fn staked_capital_that_does_not_fit_is_not_well_formed() {
    let mut dao =
        create_dao(id(9), id(8), Time::OneWeek, 51, 10, String::from("valid"), 0).unwrap();
    create_user(&mut dao, id(1), 1).unwrap();
    create_user(&mut dao, id(2), 2).unwrap();
    dao.users[0].deposits.push(Deposit::new(id(1), id(8), u64::MAX, 3));
    dao.users[0].voting_power = u64::MAX;
    assert!(dao.is_well_formed());
    dao.users[1].deposits.push(Deposit::new(id(2), id(8), 1, 4));
    dao.users[1].voting_power = 1;
    assert!(dao.users[1].is_well_formed());
    assert!(!dao.is_well_formed());
}

#[test]
fn find_user_gives_the_place_of_a_member() {
    let dao = busy_dao();
    assert_eq!(dao.find_user(&id(1)), Some(0));
    assert_eq!(dao.find_user(&id(2)), Some(1));
    assert_eq!(dao.find_user(&id(3)), None);
}
