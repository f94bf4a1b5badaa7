//! The clock and the random numbers that the library draws.

use vstd::prelude::*;

verus! {

/// Milliseconds since the Unix epoch, or nothing when the clock is set
/// before it.
///
/// Calls `std::time::SystemTime::now` and `duration_since(UNIX_EPOCH)`,
/// which fails exactly when the clock is before the epoch, then takes the
/// whole milliseconds. Nothing is stated of the value: it is the time.
#[verifier::external_body]
pub(crate) fn now_millis() -> (t: Option<u128>) {
    match std::time::SystemTime::now().duration_since(std::time::UNIX_EPOCH) {
        Ok(d) => Some(d.as_millis()),
        Err(_) => None,
    }
}

/// A random number, from `rand::random`; nothing is stated of it.
#[verifier::external_body]
pub(crate) fn random_u32() -> (r: u32) {
    rand::random()
}

/// A random number, from `rand::random`; nothing is stated of it.
#[verifier::external_body]
pub(crate) fn random_u64() -> (r: u64) {
    rand::random()
}

/// A random number, from `rand::random`; nothing is stated of it.
#[verifier::external_body]
pub(crate) fn random_u128() -> (r: u128) {
    rand::random()
}

/// Eight random bytes, from `rand::random`; nothing is stated of them.
#[verifier::external_body]
pub(crate) fn random_bytes8() -> (r: [u8; 8]) {
    rand::random()
}

/// The user's home directory, as text, if there is one.
///
/// Calls `dirs::home_dir` and displays the path. Nothing is stated of it:
/// it depends on the environment.
#[verifier::external_body]
pub(crate) fn home_dir() -> (h: Option<String>) {
    dirs::home_dir().map(|p| p.as_path().display().to_string())
}

/// The milliseconds from `then` to `now` as unsigned 128-bit subtraction
/// gives them: the difference, or, when `now` is before `then`, the
/// difference wrapped around the range of `u128`.
pub open spec fn elapsed(now: u128, then: u128) -> int {
    if now >= then {
        now - then
    } else {
        now - then + 0x1_0000_0000_0000_0000_0000_0000_0000_0000
    }
}

/// The milliseconds from `then` to `now`, wrapped when `now` is before
/// `then`; see [`elapsed`].
pub fn elapsed_millis(now: u128, then: u128) -> (d: u128)
    ensures
        d == elapsed(now, then),
{
    if now >= then {
        now - then
    } else {
        u128::MAX - (then - now - 1)
    }
}

} // verus!
