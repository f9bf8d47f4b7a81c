//! Showing stored times, through the `jiff` crate.
use vstd::prelude::*;

verus! {

/// The RFC 3339 text `jiff` shows for the instant `ns` nanoseconds after
/// the Unix epoch, or `None` when the instant is outside the range `jiff`
/// supports.
pub uninterp spec fn timestamp_display(ns: int) -> Option<Seq<char>>;

/// The `%Y-%m-%d %H:%M` text `jiff` shows for the instant `ns`, or `None`
/// when the instant is outside the range `jiff` supports.
pub uninterp spec fn timestamp_minutes(ns: int) -> Option<Seq<char>>;

/// `jiff::Timestamp::from_nanosecond(ns)` shown with its `Display`. The
/// conversion refuses instants outside jiff's supported range; neither that
/// range nor the calendar text is stated here, both are named.
#[verifier::external_body]
pub(crate) fn timestamp_text(ns: i128) -> (res: Option<String>)
    ensures
        match res {
            Some(s) => timestamp_display(ns as int) == Some(s@),
            None => timestamp_display(ns as int) is None,
        },
{
    jiff::Timestamp::from_nanosecond(ns).ok().map(|t| t.to_string())
}

/// `jiff::Timestamp::from_nanosecond(ns)` shown with
/// `strftime("%Y-%m-%d %H:%M")`. The range and the calendar text are
/// named, not stated.
#[verifier::external_body]
pub(crate) fn timestamp_minutes_text(ns: i128) -> (res: Option<String>)
    ensures
        match res {
            Some(s) => timestamp_minutes(ns as int) == Some(s@),
            None => timestamp_minutes(ns as int) is None,
        },
{
    jiff::Timestamp::from_nanosecond(ns).ok().map(|t| t.strftime("%Y-%m-%d %H:%M").to_string())
}

} // verus!
