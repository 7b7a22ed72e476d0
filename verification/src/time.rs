//! The clock.

use vstd::prelude::*;
use vstd::arithmetic::div_mod::{lemma_fundamental_div_mod, lemma_fundamental_div_mod_converse};
use std::time::SystemTime;

verus! {

#[verifier::external_type_specification]
#[verifier::external_body]
pub struct ExSystemTime(std::time::SystemTime);

/// `SystemTime::now`: the system clock; nothing is known of what it shows.
#[verifier::external_body]
pub(crate) fn system_now() -> SystemTime {
    SystemTime::now()
}

/// How far `current` is from the Unix epoch, in whole seconds and the
/// nanoseconds beyond them: `Ok` for a time at or after the epoch, `Err`
/// for one before it.
pub uninterp spec fn since_epoch(current: SystemTime) -> Result<(u64, u32), (u64, u32)>;

/// `SystemTime::duration_since` the Unix epoch, and for a time before it
/// `SystemTimeError::duration`, each taken apart by `Duration::as_secs`
/// and `Duration::subsec_nanos`. The contract gives what comes out its
/// name and claims no more: a time is so far from the epoch whenever it
/// is asked.
#[verifier::external_body]
pub(crate) fn duration_since_epoch(current: SystemTime) -> (since: Result<(u64, u32), (u64, u32)>)
    ensures
        since == since_epoch(current),
{
    match current.duration_since(std::time::UNIX_EPOCH) {
        Ok(after) => Ok((after.as_secs(), after.subsec_nanos())),
        Err(before) => Err((before.duration().as_secs(), before.duration().subsec_nanos())),
    }
}

/// Can `chrono` hold the date and time that is `secs` seconds from the
/// Unix epoch?
pub uninterp spec fn chrono_holds(secs: i64) -> bool;

/// `chrono::DateTime::from_timestamp` and `DateTime::timestamp`: the
/// seconds from the epoch of the date and time that is `secs` seconds from
/// it, which are `secs` again; `None` where `chrono` cannot hold that
/// date.
#[verifier::external_body]
pub(crate) fn chrono_seconds(secs: i64) -> (seconds: Option<i64>)
    ensures
        seconds is Some <==> chrono_holds(secs),
        seconds matches Some(t) ==> t == secs,
{
    match chrono::DateTime::<chrono::Utc>::from_timestamp(secs, 0) {
        Some(utc) => Some(utc.timestamp()),
        None => None,
    }
}

/// The Unix time of `current` in seconds, as a number of the size of an
/// address: a time before the epoch, whose Unix time is negative, wraps
/// around. A time whose date `chrono` cannot hold gives zero.
pub fn unix_timestamp(current: SystemTime) -> (t: usize)
    ensures
        t == timestamp(since_epoch(current)),
{
    timestamp_of(duration_since_epoch(current))
}

/// The Unix time now, in seconds.
pub fn now() -> u64 {
    unix_timestamp(system_now()) as u64
}

/// The whole seconds from the epoch to what is `since` it, rounded down:
/// negative for a time before the epoch.
pub open spec fn whole_seconds(since: Result<(u64, u32), (u64, u32)>) -> int {
    match since {
        Ok((secs, _)) => secs as int,
        Err((secs, nanos)) => if nanos == 0 {
            -(secs as int)
        } else {
            -(secs as int) - 1
        },
    }
}

/// The integer `t` as a number of the size of an address, wrapping
/// around.
pub open spec fn wrapped(t: int) -> usize {
    (t % (usize::MAX + 1)) as usize
}

/// The Unix time of what is `since` the epoch: its whole seconds, wrapped
/// around, where they are a number of 64 bits with a sign and `chrono`
/// can hold their date; zero otherwise.
pub open spec fn timestamp(since: Result<(u64, u32), (u64, u32)>) -> usize {
    let t = whole_seconds(since);
    if i64::MIN <= t <= i64::MAX && chrono_holds(t as i64) {
        wrapped(t)
    } else {
        0
    }
}

/// The number `t` of 64 bits with a sign as a number of the size of an
/// address, wrapping around.
pub fn wrap(t: i64) -> (w: usize)
    ensures
        w == wrapped(t as int),
{
    let modulus: u128 = usize::MAX as u128 + 1;
    if t >= 0 {
        ((t as u128) % modulus) as usize
    } else {
        let back: u128 = ((-(t + 1)) as u128) % modulus;
        proof {
            let m = -(t + 1) as int;
            let d = modulus as int;
            lemma_fundamental_div_mod(m, d);
            assert(t as int == (-(m / d) - 1) * d + (d - 1 - back)) by (nonlinear_arith)
                requires
                    m == d * (m / d) + back,
                    t as int == -(m + 1),
            ;
            lemma_fundamental_div_mod_converse(t as int, d, -(m / d) - 1, d - 1 - back);
        }
        (modulus - 1 - back) as usize
    }
}

/// The Unix time of what is `since` the epoch.
pub fn timestamp_of(since: Result<(u64, u32), (u64, u32)>) -> (t: usize)
    ensures
        t == timestamp(since),
{
    let secs: i64 = match since {
        Ok((secs, _)) => {
            if secs > i64::MAX as u64 {
                return 0;
            }
            secs as i64
        },
        Err((secs, nanos)) => {
            if nanos == 0 {
                if secs > i64::MAX as u64 + 1 {
                    return 0;
                }
                if secs == i64::MAX as u64 + 1 {
                    i64::MIN
                } else {
                    -(secs as i64)
                }
            } else {
                if secs > i64::MAX as u64 {
                    return 0;
                }
                -(secs as i64) - 1
            }
        },
    };
    match chrono_seconds(secs) {
        Some(seconds) => wrap(seconds),
        None => 0,
    }
}

} // verus!
