//! Randomness and time for the protocol.
use vstd::prelude::*;

verus! {

/// The operating system could not supply random bytes.
#[derive(Clone, Copy, Debug, PartialEq, Eq, Structural)]
pub struct RandomSourceError;

#[verifier::external_type_specification]
#[verifier::external_body]
pub struct ExGetrandomError(getrandom::Error);

/// `getrandom::fill`: fills `dest` from the system's random source; it keeps
/// the length of `dest` and makes no promise about its contents. An empty
/// buffer never reaches the system and always succeeds.
#[verifier::external_body]
fn os_random_fill(dest: &mut Vec<u8>) -> (filled: Result<(), getrandom::Error>)
    ensures
        final(dest)@.len() == old(dest)@.len(),
        old(dest)@.len() == 0 ==> filled is Ok,
{
    getrandom::fill(dest.as_mut_slice())
}

/// Generates `len` securely random bytes.
///
/// Whether the system's random source succeeds is outside the library's
/// control; when it does, exactly `len` bytes come back. Asking for no bytes
/// always succeeds.
pub fn generate_random_bytes(len: usize) -> (bytes: Result<Vec<u8>, RandomSourceError>)
    ensures
        bytes matches Ok(b) ==> b@.len() == len,
        len == 0 ==> (bytes matches Ok(b) && b@.len() == 0),
{
    let mut buf: Vec<u8> = Vec::new();
    let mut i: usize = 0;
    while i < len
        invariant
            i <= len,
            buf@.len() == i,
        decreases len - i,
    {
        buf.push(0u8);
        i = i + 1;
    }
    match os_random_fill(&mut buf) {
        Ok(()) => Ok(buf),
        Err(_) => Err(RandomSourceError),
    }
}

} // verus!

verus! {

#[verifier::external_type_specification]
#[verifier::external_body]
pub struct ExSystemTime(std::time::SystemTime);

/// A source of the current time.
pub trait TimeProvider {
    /// The current time.
    fn now(&self) -> std::time::SystemTime;
}

/// The system clock.
pub struct SystemTimeProvider;

/// `std::time::SystemTime::now`: the system clock's current time; nothing is
/// promised about the value.
#[verifier::external_body]
fn system_time_now() -> std::time::SystemTime {
    std::time::SystemTime::now()
}

impl TimeProvider for SystemTimeProvider {
    fn now(&self) -> std::time::SystemTime {
        system_time_now()
    }
}

/// What `SystemTime::duration_since(UNIX_EPOCH)` gives for a time: the time
/// elapsed since the epoch, `None` for a time before it. It depends on the
/// time given alone.
pub uninterp spec fn since_unix_epoch(time: std::time::SystemTime) -> Option<core::time::Duration>;

/// What `Duration::as_secs` gives for a duration: its whole seconds. It
/// depends on the duration alone.
pub uninterp spec fn duration_whole_seconds(duration: core::time::Duration) -> u64;

/// `SystemTime::duration_since(UNIX_EPOCH)`: the time elapsed since the epoch,
/// `None` for a time before it; the result is named, as the library cannot
/// look into the time given.
#[verifier::external_body]
fn duration_since_unix_epoch(time: &std::time::SystemTime) -> (elapsed: Option<core::time::Duration>)
    ensures
        elapsed == since_unix_epoch(*time),
{
    match time.duration_since(std::time::UNIX_EPOCH) {
        Ok(elapsed) => Some(elapsed),
        Err(_) => None,
    }
}

/// `Duration::as_secs`: the whole seconds of a duration; the result is
/// named, as the library cannot look into the duration.
#[verifier::external_body]
fn whole_seconds(duration: &core::time::Duration) -> (seconds: u64)
    ensures
        seconds == duration_whole_seconds(*duration),
{
    duration.as_secs()
}

/// Whole minutes from whole seconds since the epoch; 0 for a time before it.
pub fn minutes_from_unix_seconds(seconds: Option<u64>) -> (minutes: u64)
    ensures
        minutes == match seconds {
            Some(s) => s / 60,
            None => 0,
        },
{
    match seconds {
        Some(s) => s / 60,
        None => 0,
    }
}

/// Whole minutes since the UNIX epoch.
pub trait ElapsedMinutes {
    fn elapsed_minutes(&self) -> u64;
}

/// Whole minutes since the epoch of `time`; 0 for a time before it.
pub open spec fn spec_elapsed_minutes(time: std::time::SystemTime) -> u64 {
    match since_unix_epoch(time) {
        Some(elapsed) => duration_whole_seconds(elapsed) / 60,
        None => 0,
    }
}

impl ElapsedMinutes for std::time::SystemTime {
    fn elapsed_minutes(&self) -> (minutes: u64)
        ensures
            minutes == spec_elapsed_minutes(*self),
    {
        let seconds = match duration_since_unix_epoch(self) {
            Some(elapsed) => Some(whole_seconds(&elapsed)),
            None => None,
        };
        minutes_from_unix_seconds(seconds)
    }
}

} // verus!
