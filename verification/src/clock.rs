//! The time of day.

use vstd::prelude::*;

use crate::text::is_digit;

verus! {

/// `text` ends as an RFC 3339 time in UTC with whole seconds does: `YYYY-MM-DDThh:mm:ssZ`, in
/// digits. Only years of five digits and more have something before that.
pub open spec fn ends_as_utc_time(text: Seq<char>) -> bool {
    let n = text.len() as int;
    &&& n >= 20
    &&& text[n - 16] == '-'
    &&& text[n - 13] == '-'
    &&& text[n - 10] == 'T'
    &&& text[n - 7] == ':'
    &&& text[n - 4] == ':'
    &&& text[n - 1] == 'Z'
    &&& forall|i: int|
        n - 20 <= i < n && i != n - 16 && i != n - 13 && i != n - 10 && i != n - 7 && i != n - 4
            && i != n - 1 ==> is_digit(#[trigger] text[i])
}

/// `chrono::Utc::now`, as `timestamp` gives it: the seconds since 1970, never fewer than none. Like
/// `now` itself, this panics where the system's clock stands before 1970 or past the last year that
/// `chrono` can tell; which second it is, is left open.
#[verifier::external_body]
pub(crate) fn unix_now() -> (r: i64)
    ensures
        0 <= r,
{
    chrono::Utc::now().timestamp()
}

/// `chrono::Utc::now`, as `to_rfc3339_opts` writes it with whole seconds and `Z` for UTC. The shape
/// of the text is stated; which time it tells is left open. Like `now` itself, this panics where
/// the system's clock stands before 1970 or past the last year that `chrono` can tell.
#[verifier::external_body]
pub(crate) fn now_rfc3339() -> (r: String)
    ensures
        ends_as_utc_time(r@),
{
    chrono::Utc::now().to_rfc3339_opts(chrono::SecondsFormat::Secs, true)
}

/// The clock gave `now`: this is known of what a call of `unix_now` returned, and of no other number.
pub closed spec fn clock_gave(now: i64) -> bool {
    call_ensures(unix_now, (), now)
}

/// The clock gave the time `text`: this is known of what a call of `now_rfc3339` returned, and of no
/// other text.
pub closed spec fn clock_wrote(text: String) -> bool {
    call_ensures(now_rfc3339, (), text)
}

/// What the clock gave is what the two calls that ask it returned, and nothing else.
pub(crate) proof fn readings_are_of_the_clock(now: i64, text: String)
    ensures
        clock_gave(now) <==> call_ensures(unix_now, (), now),
        clock_wrote(text) <==> call_ensures(now_rfc3339, (), text),
        clock_gave(now) ==> 0 <= now,
        clock_wrote(text) ==> ends_as_utc_time(text@),
{
}

} // verus!
