//! The current time, as the bot reads it, and dates written out.
use vstd::prelude::*;
use std::fmt::Write;

verus! {

/// `chrono::Utc::now().timestamp()`: the current time in seconds since the Unix epoch. It
/// depends on when it is called, so only its sign is promised: `Utc::now` panics on a system
/// clock that reads before the epoch, so a time it returns is not negative.
#[verifier::external_body]
pub(crate) fn now_timestamp() -> (t: i64)
    ensures
        t >= 0,
{
    chrono::Utc::now().timestamp()
}

} // verus!

verus! {

/// What `chrono` writes, with the format string `fmt`, for the time `t` seconds after the
/// Unix epoch as seen at `offset` seconds east of UTC; nothing where the offset is a day or
/// more, where `chrono` cannot represent that time, or where `fmt` is no valid format.
pub uninterp spec fn date_text(t: i64, offset: i32, fmt: Seq<char>) -> Option<Seq<char>>;

/// `chrono::FixedOffset::east_opt`, `DateTime::from_timestamp` and `with_timezone`, then
/// the time written with `format(fmt)`: the result is named by `date_text` and depends on
/// the arguments alone. A format that `chrono` cannot write gives none.
#[verifier::external_body]
pub(crate) fn format_date(t: i64, offset: i32, fmt: &str) -> (res: Option<String>)
    ensures
        match res {
            Some(s) => date_text(t, offset, fmt@) == Some(s@),
            None => date_text(t, offset, fmt@) is None,
        },
{
    let zone = chrono::FixedOffset::east_opt(offset)?;
    let time = chrono::DateTime::from_timestamp(t, 0)?.with_timezone(&zone);
    let mut s = String::new();
    write!(s, "{}", time.format(fmt)).ok()?;
    Some(s)
}

} // verus!
