//! The random source that every generator draws from.

use crate::text::string_push;
use rand::distributions::Alphanumeric;
use rand::rngs::StdRng;
use rand::seq::SliceRandom;
use rand::Rng;
use rand::SeedableRng;
use vstd::prelude::*;

verus! {

#[verifier::external_type_specification]
#[verifier::external_body]
pub struct ExStdRng(StdRng);

/// A source of random draws.
pub struct RandomSource {
    rng: StdRng,
}

/// The letters and digits of ASCII.
pub open spec fn is_alphanumeric(c: char) -> bool {
    ('0' <= c && c <= '9') || ('a' <= c && c <= 'z') || ('A' <= c && c <= 'Z')
}

/// Every character of `s` is an ASCII letter or digit.
pub open spec fn all_alphanumeric(s: Seq<char>) -> bool {
    forall|i: int| 0 <= i < s.len() ==> is_alphanumeric(#[trigger] s[i])
}

/// `SeedableRng::seed_from_u64` for `StdRng`: the generator that the seed
/// determines. Nothing is claimed of it.
#[verifier::external_body]
fn rng_from_seed(seed: u64) -> StdRng {
    StdRng::seed_from_u64(seed)
}

/// `SeedableRng::from_entropy` for `StdRng`: a generator seeded by the
/// operating system. Nothing is claimed of it.
#[verifier::external_body]
fn rng_from_entropy() -> StdRng {
    StdRng::from_entropy()
}

/// `Rng::gen_range` over an inclusive range of `usize`: the draw lies in the
/// range. The call panics on an empty range, which `requires` leaves out.
#[verifier::external_body]
fn rng_range(rng: &mut StdRng, low: usize, high: usize) -> (drawn: usize)
    requires
        low <= high,
    ensures
        low <= drawn <= high,
{
    rng.gen_range(low..=high)
}

/// `Rng::sample` with the `Alphanumeric` distribution: one byte out of
/// `A-Z`, `a-z` and `0-9`.
#[verifier::external_body]
fn rng_alphanumeric(rng: &mut StdRng) -> (drawn: u8)
    ensures
        is_alphanumeric(drawn as char),
{
    rng.sample(Alphanumeric)
}

/// `SliceRandom::choose` on a slice: `None` where the slice is empty, else a
/// reference to one of its elements.
#[verifier::external_body]
fn rng_choose<'a, T>(rng: &mut StdRng, items: &'a [T]) -> (picked: Option<&'a T>)
    ensures
        picked is Some <==> items@.len() > 0,
        picked matches Some(item) ==> exists|i: int|
            0 <= i < items@.len() && #[trigger] items@[i] == *item,
{
    items.choose(rng)
}

impl RandomSource {
    /// A source whose draws the seed fixes.
    pub fn from_seed(seed: u64) -> (source: RandomSource) {
        RandomSource { rng: rng_from_seed(seed) }
    }

    /// A source seeded by the operating system.
    pub fn from_entropy() -> (source: RandomSource) {
        RandomSource { rng: rng_from_entropy() }
    }

    /// A number between `low` and `high`, both included.
    pub(crate) fn in_range(&mut self, low: usize, high: usize) -> (drawn: usize)
        requires
            low <= high,
        ensures
            low <= drawn <= high,
    {
        rng_range(&mut self.rng, low, high)
    }

    /// One element of `items`, or `None` where there is none.
    pub(crate) fn pick<'a, T>(&mut self, items: &'a [T]) -> (picked: Option<&'a T>)
        ensures
            picked is Some <==> items@.len() > 0,
            picked matches Some(item) ==> exists|i: int|
                0 <= i < items@.len() && #[trigger] items@[i] == *item,
    {
        rng_choose(&mut self.rng, items)
    }

    /// A string of `n` ASCII letters and digits.
    pub fn random_string(&mut self, n: usize) -> (text: String)
        ensures
            text@.len() == n,
            all_alphanumeric(text@),
    {
        let mut text = String::new();
        let mut i: usize = 0;
        while i < n
            invariant
                i <= n,
                text@.len() == i,
                all_alphanumeric(text@),
            decreases n - i,
        {
            let byte = rng_alphanumeric(&mut self.rng);
            string_push(&mut text, byte as char);
            i += 1;
        }
        text
    }
}

} // verus!
