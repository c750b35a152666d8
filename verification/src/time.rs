//! Unix timestamps: whole seconds since the epoch, as a signed integer.
use vstd::prelude::*;
use std::time::{Duration, SystemTime, SystemTimeError};

verus! {

/// A point in time of the system clock; nothing inside it is looked into.
#[verifier::external_type_specification]
#[verifier::external_body]
pub struct ExSystemTime(SystemTime);

/// The failure of `duration_since`: the point lies before the reference.
#[verifier::external_type_specification]
#[verifier::external_body]
pub struct ExSystemTimeError(SystemTimeError);

/// The span from the Unix epoch to `t`, and `None` where `t` lies before the
/// epoch: what `SystemTime::duration_since` gives for `UNIX_EPOCH`.
pub uninterp spec fn since_epoch(t: SystemTime) -> Option<Duration>;

/// The whole seconds of a span: what `Duration::as_secs` gives.
pub uninterp spec fn whole_seconds(d: Duration) -> u64;

/// `SystemTime::duration_since` on `UNIX_EPOCH`. Trusted: the outcome
/// depends on the point in time alone.
#[verifier::external_body]
fn duration_since_epoch(t: &SystemTime) -> (r: Result<Duration, SystemTimeError>)
    ensures
        match r {
            Ok(d) => since_epoch(*t) == Some(d),
            Err(_) => since_epoch(*t) is None,
        },
{
    t.duration_since(std::time::UNIX_EPOCH)
}

/// `Duration::as_secs`. Trusted: the count depends on the span alone.
#[verifier::external_body]
fn as_secs(d: &Duration) -> (secs: u64)
    ensures
        secs == whole_seconds(*d),
{
    d.as_secs()
}

/// `SystemTime::now`. Nothing is known of what the clock says.
#[verifier::external_body]
fn now() -> (t: SystemTime)
{
    SystemTime::now()
}

/// The Unix timestamp of `t`, where it has one: `t` is not before the epoch
/// and its seconds fit in an `i64`.
pub open spec fn unix_time(t: SystemTime) -> Option<i64> {
    match since_epoch(t) {
        Some(d) if whole_seconds(d) <= i64::MAX => Some(whole_seconds(d) as i64),
        _ => None,
    }
}

/// The Unix timestamp of `t`, or `None` where it has none.
pub fn checked_utime(t: SystemTime) -> (r: Option<i64>)
    ensures
        r == unix_time(t),
{
    match duration_since_epoch(&t) {
        Ok(d) => {
            if as_secs(&d) <= i64::MAX as u64 {
                Some(utime(t))
            } else {
                None
            }
        },
        Err(_) => None,
    }
}

/// The Unix timestamp of `t`: the whole seconds from the epoch to `t`.
/// `t` must have one; `checked_utime` serves where that is not known.
pub fn utime(t: SystemTime) -> (secs: i64)
    requires
        unix_time(t) is Some,
    ensures
        Some(secs) == unix_time(t),
        secs >= 0,
{
    match duration_since_epoch(&t) {
        Ok(d) => {
            let secs: u64 = as_secs(&d);
            secs as i64
        },
        Err(_) => unreached(),
    }
}

/// The Unix timestamp of the present moment, or `None` where the clock
/// stands before the epoch or beyond what an `i64` counts. Which moment the
/// clock names is not known here; whichever it is, the result is that
/// moment's timestamp, as `checked_utime` gives it.
pub fn utimenow() -> (r: Option<i64>)
    ensures
        exists|t: SystemTime| r == #[trigger] unix_time(t),
        r matches Some(secs) ==> secs >= 0,
{
    let t = now();
    let r = checked_utime(t);
    assert(r == unix_time(t));
    r
}

} // verus!
