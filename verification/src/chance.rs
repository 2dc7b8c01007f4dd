//! The two draws that the library makes from the random generator of the
//! running thread. Nothing is proved of them: their contracts state what the
//! generator's documentation promises of every draw.

use vstd::prelude::*;
use rand::distributions::Alphanumeric;
use rand::Rng;

verus! {

/// The character is one of the sixty-two that `Alphanumeric` draws from: a
/// digit or an unaccented letter of either case.
pub open spec fn is_alphanumeric(c: char) -> bool {
    ||| '0' <= c <= '9'
    ||| 'A' <= c <= 'Z'
    ||| 'a' <= c <= 'z'
}

/// Every character of the sequence is alphanumeric.
pub open spec fn all_alphanumeric(s: Seq<char>) -> bool {
    forall|i: int| 0 <= i < s.len() ==> is_alphanumeric(#[trigger] s[i])
}

/// Draws a number with `rand::Rng::gen_range` on `rand::thread_rng()`.
///
/// Trusted: the number is at least `low` and less than `high`. The call
/// panics unless `low < high`, which the precondition asks for.
#[verifier::external_body]
pub(crate) fn gen_range(low: u8, high: u8) -> (drawn: u8)
    requires
        low < high,
    ensures
        low <= drawn < high,
{
    rand::thread_rng().gen_range(low, high)
}

/// Draws `count` characters with `rand::Rng::sample_iter` on
/// `rand::thread_rng()`, from the distribution `Alphanumeric`.
///
/// Trusted: the iterator never ends, so exactly `count` characters come out,
/// and each of them is alphanumeric.
#[verifier::external_body]
pub(crate) fn sample_alphanumeric(count: usize) -> (drawn: String)
    ensures
        drawn@.len() == count,
        all_alphanumeric(drawn@),
{
    rand::thread_rng().sample_iter(&Alphanumeric).take(count).collect()
}

} // verus!
