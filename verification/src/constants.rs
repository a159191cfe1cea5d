//! Widths, in bytes, of the pieces a stored record is made of, and the
//! declared maxima of its variable-length fields.

use vstd::prelude::*;

verus! {

/// Tag that precedes a stored account record.
pub const DISCRIMINATOR_LENGTH: usize = 8;

/// An account identity.
pub const PUBLIC_KEY_LENGTH: usize = 32;

/// A timestamp or a duration in seconds.
pub const TIMESTAMP_LENGTH: usize = 8;

/// An amount of tokens, a voting power, a counter or a score.
pub const AMOUNT_LENGTH: usize = 8;

/// Length prefix of a stored string.
pub const STRING_LENGTH_PREFIX: usize = 4;

/// Length prefix of a stored sequence.
pub const VECTOR_LENGTH_PREFIX: usize = 4;

/// A boolean flag.
pub const BOOL_LENGTH: usize = 1;

/// The tag of an enumeration without fields.
pub const ENUM_LENGTH: usize = 1;

/// The presence byte of an optional field.
pub const OPTION_LENGTH: usize = 1;

/// A layout-authority marker.
pub const BUMP_LENGTH: usize = 1;

/// The approval threshold, a percentage.
pub const THRESHOLD_LENGTH: usize = 1;

/// Most bytes a DAO's name may take.
pub const MAX_DAO_NAME_LENGTH: usize = 200;

/// Most bytes a poll's title may take.
pub const MAX_TITLE_LENGTH: usize = 200;

/// Most bytes a poll's content may take.
pub const MAX_CONTENT_LENGTH: usize = 1120;

/// Most members a DAO holds.
pub const MAX_USERS: usize = 64;

/// Most polls a DAO holds.
pub const MAX_POLLS: usize = 32;

/// Most votes a poll holds: one for each member.
pub const MAX_VOTES_PER_POLL: usize = 64;

/// Most deposits a member holds.
pub const MAX_DEPOSITS_PER_USER: usize = 16;

pub const ONE_DAY_IN_SECONDS: i64 = 86400;

pub const TWO_DAY_IN_SECONDS: i64 = 172800;

pub const ONE_WEEK_IN_SECONDS: i64 = 604800;

} // verus!
