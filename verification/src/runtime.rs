//! Bridges to the process-level sources of freshness the command path needs:
//! newly generated identifiers, the wall clock and random tokens.
//!
//! Each bridge is an outside call whose result depends on chance or on the
//! machine, so nothing beyond what holds of every outcome is assumed of it;
//! the verified callers take the returned value as an arbitrary one and check
//! what they need against the state they hold.

use vstd::prelude::*;

verus! {

/// Is `c` one of the ASCII characters a-z, A-Z or 0-9?
pub open spec fn is_alphanumeric_char(c: char) -> bool {
    ('a' <= c && c <= 'z') || ('A' <= c && c <= 'Z') || ('0' <= c && c <= '9')
}

/// Relies on `uuid::Uuid::new_v4`: a freshly generated random UUID, taken as
/// its 128-bit value. Nothing is assumed of the value; callers check
/// freshness against the ids they already hold.
#[verifier::external_body]
pub(crate) fn fresh_uuid_u128() -> u128 {
    uuid::Uuid::new_v4().as_u128()
}

/// Relies on `chrono::Utc::now`: the current wall-clock time in milliseconds
/// since the Unix epoch. Nothing is assumed of the value.
#[verifier::external_body]
pub(crate) fn unix_now_millis() -> i64 {
    chrono::Utc::now().timestamp_millis()
}

/// Relies on rand's `Alphanumeric` distribution through `SampleString`: the
/// sampled string holds exactly `len` characters, each drawn from ASCII
/// a-z, A-Z and 0-9.
#[verifier::external_body]
pub(crate) fn random_alphanumeric_string(len: usize) -> (r: String)
    ensures
        r@.len() == len as nat,
        forall|i: int| 0 <= i < r@.len() ==> is_alphanumeric_char(#[trigger] r@[i]),
{
    rand::distr::SampleString::sample_string(&rand::distr::Alphanumeric, &mut rand::rng(), len)
}

} // verus!
