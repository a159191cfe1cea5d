//! State model and accounting rules of a token-weighted DAO: deposits that
//! back voting power, polls decided by an approval threshold, and reward
//! points credited to voters.
//!
//! Every operation takes a well-formed DAO to a well-formed DAO or refuses
//! with one error and changes nothing. Contracts are stated over the views of
//! the records: `DaoView`, `PollView` and `UserView`.

pub mod constants;
pub mod dao;
pub mod deposit;
pub mod error;
pub mod identity;
pub mod laws;
pub mod layout;
pub mod ops;
pub mod poll;
pub mod sum;
pub mod time;
pub mod user;
pub mod vote;

pub use crate::dao::{DaoView, DAO};
pub use crate::deposit::Deposit;
pub use crate::error::DaoError;
pub use crate::identity::Identity;
pub use crate::ops::{
    cast_vote, create_dao, create_poll, create_user, deposit, execute_poll, finalize_withdrawal,
    request_withdrawal, resolve_poll, settle_rewards,
};
pub use crate::poll::{Poll, PollView, Status};
pub use crate::time::Time;
pub use crate::user::{User, UserView};
pub use crate::vote::{Choice, Vote};
