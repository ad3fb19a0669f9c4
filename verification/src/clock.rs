//! Readings of the system clock.
use vstd::prelude::*;

verus! {

/// The system clock (`SystemTime::now`) as time since the Unix epoch: whole seconds and
/// the nanoseconds within the second (below one billion, as `Duration` keeps them);
/// `None` when the clock reads before the epoch. Nothing else is stated of the reading.
#[verifier::external_body]
fn since_epoch() -> (r: Option<(u64, u32)>)
    ensures
        r matches Some(t) ==> t.1 < 1_000_000_000,
{
    match std::time::SystemTime::now().duration_since(std::time::UNIX_EPOCH) {
        Ok(d) => Some((d.as_secs(), d.subsec_nanos())),
        Err(_) => None,
    }
}

/// A possible reading of the clock: `None` before the epoch, else whole seconds and the
/// nanoseconds within the second.
pub open spec fn is_reading(t: Option<(u64, u32)>) -> bool {
    t matches Some(x) ==> x.1 < 1_000_000_000
}

/// The whole milliseconds of a reading, modulo 2^64; 0 before the epoch.
pub open spec fn millis_of(t: Option<(u64, u32)>) -> u64 {
    match t {
        Some(x) => ((x.0 as int * 1000 + x.1 as int / 1_000_000) % 0x1_0000_0000_0000_0000) as u64,
        None => 0,
    }
}

/// The nanoseconds of a reading, modulo 2^64; 0 before the epoch.
pub open spec fn nanos_of(t: Option<(u64, u32)>) -> u64 {
    match t {
        Some(x) => ((x.0 as int * 1_000_000_000 + x.1 as int) % 0x1_0000_0000_0000_0000) as u64,
        None => 0,
    }
}

/// The nanoseconds within the second of a reading; 0xCAFEBABE before the epoch.
pub open spec fn subsec_of(t: Option<(u64, u32)>) -> u32 {
    match t {
        Some(x) => x.1,
        None => 0xCAFEBABE,
    }
}

/// The whole seconds of a reading; 0 before the epoch.
pub open spec fn secs_of(t: Option<(u64, u32)>) -> u64 {
    match t {
        Some(x) => x.0,
        None => 0,
    }
}

/// Whole seconds since the Unix epoch, 0 before the epoch: the seconds of one reading of
/// the clock.
pub(crate) fn unix_secs() -> (s: u64)
    ensures
        exists|t: Option<(u64, u32)>| is_reading(t) && s == secs_of(t),
{
    let t = since_epoch();
    let r = match t {
        Some((secs, _)) => secs,
        None => 0,
    };
    assert(is_reading(t) && r == secs_of(t));
    r
}

/// Milliseconds since the Unix epoch (the whole milliseconds modulo 2^64), 0 before the
/// epoch: the milliseconds of one reading of the clock.
pub(crate) fn unix_millis() -> (ms: u64)
    ensures
        exists|t: Option<(u64, u32)>| is_reading(t) && ms == millis_of(t),
{
    let t = since_epoch();
    let r = match t {
        Some((secs, nanos)) => {
            let ms: u128 = secs as u128 * 1000 + (nanos / 1_000_000) as u128;
            (ms % 0x1_0000_0000_0000_0000) as u64
        }
        None => 0,
    };
    assert(is_reading(t) && r == millis_of(t));
    r
}

/// Nanoseconds since the Unix epoch (modulo 2^64), 0 before the epoch: the nanoseconds
/// of one reading of the clock.
pub(crate) fn unix_nanos() -> (ns: u64)
    ensures
        exists|t: Option<(u64, u32)>| is_reading(t) && ns == nanos_of(t),
{
    let t = since_epoch();
    let r = match t {
        Some((secs, nanos)) => {
            let ns: u128 = secs as u128 * 1_000_000_000 + nanos as u128;
            (ns % 0x1_0000_0000_0000_0000) as u64
        }
        None => 0,
    };
    assert(is_reading(t) && r == nanos_of(t));
    r
}

/// Nanoseconds within the current second, 0xCAFEBABE before the epoch: that part of one
/// reading of the clock.
pub(crate) fn subsec_nanos() -> (n: u32)
    ensures
        n < 1_000_000_000 || n == 0xCAFEBABE,
        exists|t: Option<(u64, u32)>| is_reading(t) && n == subsec_of(t),
{
    let t = since_epoch();
    let r = match t {
        Some((_, nanos)) => nanos,
        None => 0xCAFEBABE,
    };
    assert(is_reading(t) && r == subsec_of(t));
    r
}

} // verus!
