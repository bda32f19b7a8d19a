//! Time and fresh identifiers, as the world logic receives them.

use vstd::prelude::*;
use vstd::arithmetic::power::pow;

verus! {

/// Calls `std::time::SystemTime::now` and returns the milliseconds since the
/// Unix epoch (0 if the clock is set before it). Nothing is promised of the value.
#[verifier::external_body]
pub(crate) fn now_millis() -> u64 {
    match std::time::SystemTime::now().duration_since(std::time::UNIX_EPOCH) {
        Ok(d) => d.as_millis() as u64,
        Err(_) => 0,
    }
}

/// Calls `uuid::Uuid::new_v4` and returns the identifier as a 128-bit number.
/// The value is random; nothing is promised of it.
#[verifier::external_body]
pub(crate) fn new_uuid() -> u128 {
    uuid::Uuid::new_v4().as_u128()
}

/// The lower-case hex digit of a value in `0..16`.
pub open spec fn spec_hex_digit(d: int) -> char {
    if d < 10 { (48 + d) as char } else { (87 + d) as char }
}

/// The `i`-th of the 32 hex digits of `id`, the most significant first.
pub open spec fn spec_hex_at(id: u128, i: int) -> char {
    spec_hex_digit((id as int / pow(16, (31 - i) as nat)) % 16)
}

/// The hyphenated lower-case text form of a UUID: its 32 hex digits, the
/// most significant first, in groups of 8, 4, 4, 4 and 12 joined by hyphens.
pub open spec fn uuid_text(id: u128) -> Seq<char> {
    let h = Seq::new(32, |i: int| spec_hex_at(id, i));
    h.subrange(0, 8) + seq!['-'] + h.subrange(8, 12) + seq!['-'] + h.subrange(12, 16) + seq!['-']
        + h.subrange(16, 20) + seq!['-'] + h.subrange(20, 32)
}

/// Calls `uuid::Uuid::from_u128(id).to_string()`. The `uuid` source writes
/// the big-endian bytes of `id` as lower-case hex, hyphenated as `uuid_text` says.
#[verifier::external_body]
pub(crate) fn uuid_to_string(id: u128) -> (s: String)
    ensures
        s@ == uuid_text(id),
{
    uuid::Uuid::from_u128(id).to_string()
}

/// Calls `std::time::SystemTime::now` and returns the milliseconds since the
/// Unix epoch as a signed number (0 if the clock is set before the epoch,
/// where reading it as a date would fail). Nothing is promised of the value.
#[verifier::external_body]
pub(crate) fn utc_now_millis() -> i64 {
    match std::time::SystemTime::now().duration_since(std::time::UNIX_EPOCH) {
        Ok(d) => d.as_millis() as i64,
        Err(_) => 0,
    }
}

} // verus!
