use dao::{
    cast_vote, create_dao, create_poll, create_user, deposit, resolve_poll, settle_rewards, Choice,
    DaoError, Identity, Time, DAO,
};

fn id(n: u8) -> Identity {
    Identity::new([n; 32])
}

/// A DAO with members 1, 2 and 3 and one poll on which member 1 approved
/// with power 100 and member 2 rejected with power 50.
fn voted_dao() -> DAO {
    let mut dao =
        create_dao(id(9), id(8), Time::OneWeek, 51, 10, String::from("rewards"), 0).unwrap();
    deposit(&mut dao, id(1), 100, 1).unwrap();
    deposit(&mut dao, id(2), 50, 2).unwrap();
    create_user(&mut dao, id(3), 3).unwrap();
    create_poll(&mut dao, id(1), String::from("t"), String::from("c"), 4).unwrap();
    cast_vote(&mut dao, 0, id(1), Choice::Approve, 100, 5).unwrap();
    cast_vote(&mut dao, 0, id(2), Choice::Reject, 50, 6).unwrap();
    dao
}

#[test]
fn reward_points_credits_each_voter_with_their_power() {
    let mut dao = voted_dao();
    dao.reward_points(0);
    assert_eq!(dao.users[0].points, 100);
    assert_eq!(dao.users[1].points, 50);
    assert_eq!(dao.users[2].points, 0);
}

#[test]
fn reward_points_changes_nothing_but_points() {
    let mut dao = voted_dao();
    let before = dao.clone();
    dao.reward_points(0);
    let mut expected = before;
    expected.users[0].points = 100;
    expected.users[1].points = 50;
    assert_eq!(dao, expected);
}

#[test]
fn reward_points_twice_credits_twice() {
    let mut dao = voted_dao();
    dao.reward_points(0);
    dao.reward_points(0);
    assert_eq!(dao.users[0].points, 200);
    assert_eq!(dao.users[1].points, 100);
    assert_eq!(dao.users[2].points, 0);
}

#[test]
fn reward_points_without_such_a_poll_does_nothing() {
    let mut dao = voted_dao();
    let before = dao.clone();
    dao.reward_points(1);
    assert_eq!(dao, before);
    dao.reward_points(usize::MAX);
    assert_eq!(dao, before);
}

#[test]
fn reward_points_passes_over_a_voter_who_is_no_member() {
    let mut dao = voted_dao();
    cast_vote(&mut dao, 0, id(7), Choice::Approve, 30, 7).unwrap();
    dao.reward_points(0);
    assert_eq!(dao.users[0].points, 100);
    assert_eq!(dao.users[1].points, 50);
    assert_eq!(dao.users[2].points, 0);
    assert_eq!(dao.users.len(), 3);
}

#[test]
fn reward_points_adds_to_earlier_points() {
    let mut dao = voted_dao();
    dao.users[0].points = 7;
    dao.reward_points(0);
    assert_eq!(dao.users[0].points, 107);
}

#[test]
fn settle_rewards_needs_a_decided_poll() {
    let mut dao = voted_dao();
    let before = dao.clone();
    assert_eq!(settle_rewards(&mut dao, 0), Err(DaoError::InvalidPollState));
    assert_eq!(dao, before);
    resolve_poll(&mut dao, 0).unwrap();
    assert_eq!(settle_rewards(&mut dao, 0), Ok(()));
    assert_eq!(dao.users[0].points, 100);
    assert_eq!(dao.users[1].points, 50);
}

#[test]
fn settle_rewards_without_such_a_poll_is_not_found() {
    let mut dao = voted_dao();
    let before = dao.clone();
    assert_eq!(settle_rewards(&mut dao, 1), Err(DaoError::NotFound));
    assert_eq!(dao, before);
}

#[test]
fn settle_rewards_refuses_points_that_would_not_fit() {
    let mut dao = voted_dao();
    resolve_poll(&mut dao, 0).unwrap();
    dao.users[1].points = u64::MAX - 49;
    let before = dao.clone();
    assert_eq!(settle_rewards(&mut dao, 0), Err(DaoError::CapacityExceeded));
    assert_eq!(dao, before);
    dao.users[1].points = u64::MAX - 50;
    assert_eq!(settle_rewards(&mut dao, 0), Ok(()));
    assert_eq!(dao.users[1].points, u64::MAX);
}

#[test]
fn settle_rewards_twice_credits_twice() {
    let mut dao = voted_dao();
    resolve_poll(&mut dao, 0).unwrap();
    settle_rewards(&mut dao, 0).unwrap();
    settle_rewards(&mut dao, 0).unwrap();
    assert_eq!(dao.users[0].points, 200);
    assert_eq!(dao.users[1].points, 100);
}
