//! Fresh ids and the current time.

use vstd::prelude::*;

verus! {

/// `uuid::Uuid::new_v4`, as its hyphenated text: a random version-4 UUID.
/// Nothing is stated of the value: it is drawn at random.
#[verifier::external_body]
pub fn new_id() -> String {
    uuid::Uuid::new_v4().to_string()
}

/// `time::OffsetDateTime::now_utc` formatted as RFC 3339, or `None` when
/// formatting fails.  Nothing is stated of the value: it is read from the
/// clock.
#[verifier::external_body]
fn clock_rfc3339() -> Option<String> {
    time::OffsetDateTime::now_utc().format(&time::format_description::well_known::Rfc3339).ok()
}

/// `SystemTime::now().duration_since(UNIX_EPOCH)` in milliseconds, or
/// `None` when the clock reads before the epoch.  Nothing is stated of the
/// value: it is read from the clock.
#[verifier::external_body]
fn clock_millis() -> Option<u128> {
    match std::time::SystemTime::now().duration_since(std::time::UNIX_EPOCH) {
        Ok(d) => Some(d.as_millis()),
        Err(_) => None,
    }
}

/// A clock reading in milliseconds truncated to 64 bits, or zero for a
/// reading before the epoch.
pub fn epoch_millis(reading: Option<u128>) -> (r: u64)
    ensures
        r == match reading {
            Some(ms) => (ms % 0x1_0000_0000_0000_0000) as u64,
            None => 0,
        },
{
    match reading {
        Some(ms) => {
            let low = ms % 0x1_0000_0000_0000_0000u128;
            low as u64
        },
        None => 0,
    }
}

/// Milliseconds since the Unix epoch (truncated to 64 bits), or zero when
/// the clock reads before the epoch.
pub fn now_ms() -> u64 {
    epoch_millis(clock_millis())
}

/// The current time as RFC 3339 text, or the Unix epoch when the clock
/// cannot be formatted.
pub fn now_iso() -> String {
    rfc3339_or_epoch(clock_rfc3339())
}

/// A formatted clock reading, or the Unix epoch when there is none.
pub fn rfc3339_or_epoch(reading: Option<String>) -> (r: String)
    ensures
        r@ == match reading {
            Some(s) => s@,
            None => "1970-01-01T00:00:00Z"@,
        },
{
    match reading {
        Some(s) => s,
        None => crate::text::owned("1970-01-01T00:00:00Z"),
    }
}

} // verus!
