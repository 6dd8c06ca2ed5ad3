//! The wall clock and timestamp formatting, through chrono.
//!
//! The current time depends on the machine, so nothing is promised of its
//! value and every caller handles every timestamp. The RFC 3339 text of a
//! timestamp is a function of the timestamp alone; it carries the name
//! `rfc3339_of` and callers' contracts speak of that name.

use vstd::prelude::*;

verus! {

/// The RFC 3339 (ISO 8601) text of the given moment, in milliseconds since
/// the Unix epoch; a function of the timestamp alone.
pub uninterp spec fn rfc3339_of(millis: int) -> Seq<char>;

/// The last representable moment of year 9999, in milliseconds since the
/// Unix epoch: the upper end of the range this library formats.
pub const MAX_RFC3339_MILLIS: i64 = 253_402_300_799_999;

/// Relies on chrono's `DateTime::<Utc>::from_timestamp_millis`, which is
/// `Some` for any moment within about 262,000 years of the common era (so
/// for this whole range), and `DateTime::to_rfc3339`, pure formatting of
/// the moment it is called on.
#[verifier::external_body]
fn format_rfc3339_millis(millis: i64) -> (r: String)
    requires
        0 <= millis <= MAX_RFC3339_MILLIS,
    ensures
        r@ == rfc3339_of(millis as int),
{
    chrono::DateTime::<chrono::Utc>::from_timestamp_millis(millis).unwrap().to_rfc3339()
}

/// Relies on std's `SystemTime::now` and its `duration_since` at
/// `UNIX_EPOCH`: the present moment in milliseconds since the Unix epoch,
/// `None` when the machine's clock reads before the epoch or past the
/// representable range — a settable clock must not be able to panic this
/// library. The value depends on the machine's clock, so nothing is
/// promised of it.
#[verifier::external_body]
fn now_utc_millis() -> (r: Option<i64>) {
    let since_epoch = std::time::SystemTime::now().duration_since(std::time::UNIX_EPOCH).ok()?;
    i64::try_from(since_epoch.as_millis()).ok()
}

/// The RFC 3339 text of the given moment, for the sync result envelope;
/// `None` exactly when the moment lies outside the representable range.
pub fn sync_timestamp(millis: i64) -> (r: Option<String>)
    ensures
        0 <= millis <= MAX_RFC3339_MILLIS ==> (r matches Some(s) && s@ == rfc3339_of(
            millis as int,
        )),
        !(0 <= millis <= MAX_RFC3339_MILLIS) ==> r is None,
{
    if 0 <= millis && millis <= MAX_RFC3339_MILLIS {
        Some(format_rfc3339_millis(millis))
    } else {
        None
    }
}

/// The present moment: milliseconds since the Unix epoch and its RFC 3339
/// text; `None` when the machine's clock reads before the epoch or past the
/// representable range, so a caller is never handed a moment this library
/// cannot format.
pub fn now_timestamp() -> (r: Option<(i64, String)>)
    ensures
        r matches Some(p) ==> 0 <= p.0 <= MAX_RFC3339_MILLIS && p.1@ == rfc3339_of(p.0 as int),
{
    match now_utc_millis() {
        None => None,
        Some(ms) => {
            if 0 <= ms && ms <= MAX_RFC3339_MILLIS {
                Some((ms, format_rfc3339_millis(ms)))
            } else {
                None
            }
        },
    }
}

} // verus!
