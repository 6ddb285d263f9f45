//! Random identifiers: version-4 UUIDs from the `uuid` crate, held as their
//! 128-bit value.

use vstd::prelude::*;
use vstd::arithmetic::power::pow;

use crate::text::digit_char;

verus! {

/// The lowercase hexadecimal digit of `d` (0 to 15).
pub open spec fn hex_char(d: nat) -> char {
    if d < 10 { digit_char(d) }
    else if d == 10 { 'a' }
    else if d == 11 { 'b' }
    else if d == 12 { 'c' }
    else if d == 13 { 'd' }
    else if d == 14 { 'e' }
    else { 'f' }
}

/// The `k`-th hexadecimal digit of `bits`, counted from the least significant.
pub open spec fn nibble(bits: u128, k: nat) -> nat {
    ((bits as int / pow(16, k)) % 16) as nat
}

/// The "simple" text form of a UUID: its 32 hexadecimal digits, most
/// significant first, in lowercase and without hyphens.
pub open spec fn uuid_simple(bits: u128) -> Seq<char> {
    Seq::new(32, |i: int| hex_char(nibble(bits, (31 - i) as nat)))
}

/// A random (version 4, RFC 4122 variant) UUID: the version digit is 4 and
/// the two top bits of the variant field are `10`.
pub open spec fn is_random_uuid(bits: u128) -> bool {
    nibble(bits, 19) == 4 && (bits as int / pow(2, 62)) % 4 == 2
}

/// Calls `uuid::Uuid::new_v4()` and returns the UUID's value (`Uuid::as_u128`).
/// The crate draws 128 random bits and masks in version 4 and the RFC 4122
/// variant; which other bits come out is chance and is not stated.
#[verifier::external_body]
pub fn new_random_uuid() -> (bits: u128)
    ensures
        is_random_uuid(bits),
{
    uuid::Uuid::new_v4().as_u128()
}

/// Formats a UUID with `uuid::Uuid::from_u128(bits).simple().to_string()`:
/// the crate writes the 16 big-endian bytes as 32 lowercase hexadecimal digits.
#[verifier::external_body]
pub fn uuid_simple_string(bits: u128) -> (s: String)
    ensures
        s@ == uuid_simple(bits),
{
    uuid::Uuid::from_u128(bits).simple().to_string()
}

} // verus!
