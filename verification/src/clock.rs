//! The boundary to `chrono`: the moment of a snapshot as a date and time of
//! day on the Pacific coast of the United States.

use vstd::prelude::*;

verus! {

/// The first second that `chrono` has a date for: the start of the year
/// 262143 before year zero.
pub const FIRST_SECOND: i64 = -8_334_601_228_800;

/// The last second that `chrono` has a date for: the end of the year 262142.
pub const LAST_SECOND: i64 = 8_210_266_876_799;

/// Whether `chrono` has a date for a count of seconds since the epoch.
pub open spec fn has_date(seconds: i64) -> bool {
    FIRST_SECOND <= seconds <= LAST_SECOND
}

/// The date and time of day, in the zone `US/Pacific`, of a moment given in
/// seconds since the epoch, as `chrono` prints it: date, time of day and the
/// zone's abbreviation.
pub uninterp spec fn pacific_text(seconds: i64) -> Seq<char>;

/// `TimeZone::timestamp_opt` on `chrono_tz::US::Pacific`, with no
/// nanoseconds, and `to_string` on the `DateTime` it gives. Moments that
/// `chrono` has no date for are left out: there is nothing to print for
/// them.
#[verifier::external_body]
pub(crate) fn print_pacific(seconds: i64) -> (r: String)
    requires
        has_date(seconds),
    ensures
        r@ == pacific_text(seconds),
{
    chrono::TimeZone::timestamp_opt(&chrono_tz::US::Pacific, seconds, 0).unwrap().to_string()
}

/// Tells whether `chrono` has a date for a count of seconds since the epoch.
pub fn seconds_have_date(seconds: i64) -> (r: bool)
    ensures
        r == has_date(seconds),
{
    FIRST_SECOND <= seconds && seconds <= LAST_SECOND
}

} // verus!
