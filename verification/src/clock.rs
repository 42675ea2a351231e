//! The wall clock, read through `chrono`.

use vstd::prelude::*;
use crate::text::is_token;

verus! {

/// The local time of the call as `chrono::Local::now().to_rfc3339()` writes
/// it, such as `1996-12-19T16:39:57-08:00`. The value depends on the clock
/// and the time zone; all that is claimed of it is that it is one field:
/// digits, signs, colons, a `T` and at most one point, so not empty and
/// without white space.
#[verifier::external_body]
pub(crate) fn local_rfc3339() -> (stamp: String)
    ensures
        is_token(stamp@),
{
    chrono::Local::now().to_rfc3339()
}

/// The local time of the call as `chrono::Local::now().format(pattern)`
/// writes it. The outside function fails on a pattern it cannot read, so
/// `requires` admits the one pattern that the file names are made with: date,
/// `T`, time and zone offset, to the second. The value depends on the clock
/// and the time zone; all that is claimed of it is that it is one field:
/// digits, a `T` and signs, so not empty and without white space.
#[verifier::external_body]
pub(crate) fn local_formatted(pattern: &str) -> (stamp: String)
    requires
        pattern@ == "%Y%m%dT%H%M%S%z"@,
    ensures
        is_token(stamp@),
{
    chrono::Local::now().format(pattern).to_string()
}

/// The time of the call in UTC as `chrono::Utc::now().format(pattern)` writes
/// it. `requires` admits the one pattern that frames rendered at the facade
/// are stamped with: date, `T`, time to the millisecond and `Z`. The value
/// depends on the clock; all that is claimed of it is that it is one field:
/// digits, hyphens, colons, a `T`, a point and a `Z`, so not empty and
/// without white space.
#[verifier::external_body]
pub(crate) fn utc_formatted(pattern: &str) -> (stamp: String)
    requires
        pattern@ == "%Y-%m-%dT%H:%M:%S%.3fZ"@,
    ensures
        is_token(stamp@),
{
    chrono::Utc::now().format(pattern).to_string()
}

} // verus!
