use dao::constants::{
    MAX_CONTENT_LENGTH, MAX_DAO_NAME_LENGTH, MAX_DEPOSITS_PER_USER, MAX_POLLS, MAX_TITLE_LENGTH,
    MAX_USERS, MAX_VOTES_PER_POLL,
};
use dao::layout::string_bytes;
use dao::{Deposit, Identity, Poll, Time, User, Vote, DAO};

#[test]
fn time_values() {
    assert_eq!(Time::FiveSeconds.value(), 5);
    assert_eq!(Time::TwentyFourHours.value(), 86400);
    assert_eq!(Time::FourtyEightHours.value(), 172800);
    assert_eq!(Time::OneWeek.value(), 604800);
}

#[test]
fn only_the_five_seconds_are_for_tests() {
    assert!(!Time::FiveSeconds.is_production());
    assert!(Time::TwentyFourHours.is_production());
    assert!(Time::FourtyEightHours.is_production());
    assert!(Time::OneWeek.is_production());
}

#[test]
fn declared_maxima() {
    assert_eq!(MAX_DAO_NAME_LENGTH, 200);
    assert_eq!(MAX_TITLE_LENGTH, 200);
    assert_eq!(MAX_CONTENT_LENGTH, 1120);
    assert_eq!(MAX_USERS, 64);
    assert_eq!(MAX_POLLS, 32);
    assert_eq!(MAX_VOTES_PER_POLL, 64);
    assert_eq!(MAX_DEPOSITS_PER_USER, 16);
}

#[test]
fn record_sizes() {
    assert_eq!(Vote::LEN, 32 + 8 + 1 + 8);
    assert_eq!(Deposit::LEN, 32 + 32 + 8 + 1 + 1 + 8 + 8);
    assert_eq!(User::LEN, 32 + 8 + 8 + 8 + 4);
    assert_eq!(Poll::LEN, 8 + 32 + 8 + 1 + 1 + 4 + 200 + 4 + 1120 + 4);
    assert_eq!(DAO::LEN, 8 + 32 + 32 + 8 + 1 + 8 + 8 + 8 + 8 + 1 + 1 + 4 + 200 + 4 + 4);
}

#[test]
fn largest_record_sizes() {
    assert_eq!(User::MAX_LEN, 60 + 16 * 90);
    assert_eq!(Poll::MAX_LEN, 1382 + 64 * 49);
    assert_eq!(DAO::MAX_LEN, 327 + 32 * 4518 + 64 * 1500);
    assert_eq!(DAO::MAX_LEN, 240903);
}

#[test]
fn string_bytes_counts_bytes() {
    assert_eq!(string_bytes(&String::new()), 0);
    assert_eq!(string_bytes(&String::from("abc")), 3);
    assert_eq!(string_bytes(&String::from("\u{20ac}")), 3);
    assert_eq!(string_bytes(&String::from("a\u{e9}\u{1f600}")), 7);
}

#[test]
fn identities_are_compared_by_their_bytes() {
    let a = Identity::new([7; 32]);
    let mut bytes = [7u8; 32];
    assert!(a.same(&Identity::new(bytes)));
    assert_eq!(a.to_bytes(), bytes);
    bytes[31] = 8;
    assert!(!a.same(&Identity::new(bytes)));
    bytes[31] = 7;
    bytes[0] = 0;
    assert!(!a.same(&Identity::new(bytes)));
}
