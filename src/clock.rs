//! The wall clock and local-time rendering, both through chrono.
use vstd::prelude::*;

verus! {

/// Earliest epoch second whose local date has a four-digit year in every
/// time zone (0000-01-02T00:00:00Z).
pub const RFC2822_MIN_EPOCH: i64 = -62_167_132_800;

/// Latest epoch second whose local date has a four-digit year in every time
/// zone (9999-12-30T23:59:59Z).
pub const RFC2822_MAX_EPOCH: i64 = 253_402_214_399;

/// Relies on chrono's `Local::now` and `DateTime::timestamp`: the current
/// time as whole seconds since the Unix epoch. Nothing is promised of its
/// value.
#[verifier::external_body]
pub(crate) fn now_epoch_seconds() -> (r: i64) {
    chrono::Local::now().timestamp()
}

/// Relies on chrono's `TimeZone::timestamp_opt` for `Local` and on
/// `DateTime::to_rfc2822`: the RFC 2822 text of epoch second `ts` in the
/// machine's time zone. `timestamp_opt` gives a single local time for every
/// second in this range; the bound also keeps `to_rfc2822` away from its
/// panic on years outside 0..=9999.
#[verifier::external_body]
pub(crate) fn local_rfc2822(ts: i64) -> (r: Option<String>)
    requires
        RFC2822_MIN_EPOCH <= ts <= RFC2822_MAX_EPOCH,
    ensures
        r is Some,
{
    match chrono::TimeZone::timestamp_opt(&chrono::Local, ts, 0) {
        chrono::LocalResult::Single(t) => Some(t.to_rfc2822()),
        _ => None,
    }
}

} // verus!
