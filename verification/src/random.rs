use rand::Rng;
use rand::distr::Distribution;
use rand::rngs::ThreadRng;
use vstd::prelude::*;

verus! {

/// The game's source of randomness.
#[verifier::external_type_specification]
#[verifier::external_body]
pub struct ExThreadRng(ThreadRng);

/// The sum of the weights.
pub open spec fn weight_sum(weights: Seq<u16>) -> int
    decreases weights.len(),
{
    if weights.len() == 0 {
        0
    } else {
        weight_sum(weights.drop_last()) + weights.last()
    }
}

/// A prefix of the weights weighs no more than all of them.
pub proof fn lemma_weight_sum_grows(weights: Seq<u16>, i: int)
    requires
        0 <= i <= weights.len(),
    ensures
        weight_sum(weights.take(i)) <= weight_sum(weights),
    decreases weights.len() - i,
{
    if i < weights.len() {
        lemma_weight_sum_grows(weights, i + 1);
        assert(weights.take(i + 1).drop_last() =~= weights.take(i));
    } else {
        assert(weights.take(i) =~= weights);
    }
}

/// Whether `rand::distr::weighted::WeightedIndex::new` accepts these weights: there is at least
/// one, their sum fits in a `u16`, and it is not zero.
pub open spec fn weights_usable(weights: Seq<u16>) -> bool {
    weights.len() > 0 && 0 < weight_sum(weights) <= u16::MAX
}

/// `Rng::random_range(0..n)` (rand): a uniformly chosen number below `n`. The range must not be
/// empty, since the call panics on an empty range. Which number comes out is left open.
#[verifier::external_body]
pub fn random_below(rng: &mut ThreadRng, n: usize) -> (r: usize)
    requires
        n > 0,
    ensures
        r < n,
{
    rng.random_range(0..n)
}

/// `Rng::random_ratio(numerator, denominator)` (rand): true with the chance `numerator` in
/// `denominator`. The call panics where the denominator is zero or below the numerator.
/// Which outcome comes out is left open.
#[verifier::external_body]
pub fn chance(rng: &mut ThreadRng, numerator: u32, denominator: u32) -> (r: bool)
    requires
        0 < denominator,
        numerator <= denominator,
    ensures
        numerator == 0 ==> !r,
        numerator == denominator ==> r,
{
    rng.random_ratio(numerator, denominator)
}

/// `Rng::random_range(1..=20)` (rand) on `i16`: a roll of a twenty-sided die.
#[verifier::external_body]
pub fn roll_d20(rng: &mut ThreadRng) -> (r: i16)
    ensures
        1 <= r <= 20,
{
    rng.random_range::<i16, _>(1..=20)
}

/// `rand::seq::index::sample(rng, length, 2)`: two distinct indices below `length`, which the
/// documentation of `sample` promises; which two, and in what order, is left open.
#[verifier::external_body]
pub fn sample_two_indices(rng: &mut ThreadRng, length: usize) -> (r: Vec<usize>)
    requires
        length >= 2,
    ensures
        r.len() == 2,
        r[0] < length,
        r[1] < length,
        r[0] != r[1],
{
    rand::seq::index::sample(rng, length, 2).into_vec()
}

/// `WeightedIndex::new(weights)` followed by a sample from it (rand). `WeightedIndex::new`
/// fails exactly when the weights are empty, their sum overflows, or it is zero; a sample is an
/// index whose weight is not zero. Which such index comes out is left open.
#[verifier::external_body]
pub fn pick_weighted_index(rng: &mut ThreadRng, weights: &Vec<u16>) -> (r: Option<usize>)
    ensures
        r is Some <==> weights_usable(weights@),
        r matches Some(i) ==> i < weights.len() && weights[i as int] > 0,
{
    match rand::distr::weighted::WeightedIndex::new(weights.iter().copied()) {
        Ok(distribution) => Some(distribution.sample(rng)),
        Err(_) => None,
    }
}

} // verus!
