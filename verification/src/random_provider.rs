use vstd::prelude::*;

verus! {

#[verifier::external_type_specification]
#[verifier::external_body]
pub struct ExStdRng(rand::rngs::StdRng);

/// Relies on rand's `SeedableRng::seed_from_u64` for `StdRng`: builds a
/// generator from a seed; any seed is accepted.
#[verifier::external_body]
fn rng_from_seed(seed: u64) -> rand::rngs::StdRng {
    <rand::rngs::StdRng as rand::SeedableRng>::seed_from_u64(seed)
}

/// Relies on rand's `Rng::gen::<u64>`: draws a word from the generator;
/// nothing holds of a random result.
#[verifier::external_body]
fn rng_next_u64(rng: &mut rand::rngs::StdRng) -> u64 {
    rand::Rng::gen::<u64>(rng)
}

/// Relies on rand's `Rng::gen_range` over `lo..hi`: the sample lies in the
/// half-open range, which must be non-empty or the call panics.
#[verifier::external_body]
fn rng_range_usize(rng: &mut rand::rngs::StdRng, lo: usize, hi: usize) -> (r: usize)
    requires
        lo < hi,
    ensures
        lo <= r < hi,
{
    rand::Rng::gen_range(rng, lo..hi)
}

/// Relies on rand's `Rng::gen_range` over `lo..hi`: the sample lies in the
/// half-open range, which must be non-empty or the call panics.
#[verifier::external_body]
fn rng_range_i32(rng: &mut rand::rngs::StdRng, lo: i32, hi: i32) -> (r: i32)
    requires
        lo < hi,
    ensures
        lo <= r < hi,
{
    rand::Rng::gen_range(rng, lo..hi)
}

/// Relies on rand's `SliceRandom::shuffle`: it permutes the slice in place
/// by swaps, so the elements as a multiset are kept.
#[verifier::external_body]
fn rng_shuffle<T>(rng: &mut rand::rngs::StdRng, items: &mut Vec<T>)
    ensures
        final(items)@.to_multiset() == old(items)@.to_multiset(),
        final(items)@.len() == old(items)@.len(),
{
    rand::seq::SliceRandom::shuffle(items.as_mut_slice(), rng)
}

/// An explicit handle on a seedable random generator. Every operation that
/// draws randomness takes one of these, so tests can fix a seed and nothing
/// reaches into ambient global state.
pub struct RandomSource {
    rng: rand::rngs::StdRng,
}

impl RandomSource {
    /// A source whose draws are determined by the seed.
    pub fn from_seed(seed: u64) -> Self {
        RandomSource { rng: rng_from_seed(seed) }
    }

    /// Draws one full word.
    pub fn next_u64(&mut self) -> u64 {
        rng_next_u64(&mut self.rng)
    }

    /// Draws a value in `lo..hi`; the range must be non-empty.
    pub fn range_usize(&mut self, lo: usize, hi: usize) -> (r: usize)
        requires
            lo < hi,
        ensures
            lo <= r < hi,
    {
        rng_range_usize(&mut self.rng, lo, hi)
    }

    /// Draws a value in `lo..hi`; the range must be non-empty.
    pub fn range_i32(&mut self, lo: i32, hi: i32) -> (r: i32)
        requires
            lo < hi,
        ensures
            lo <= r < hi,
    {
        rng_range_i32(&mut self.rng, lo, hi)
    }
}

/// Re-seeds the source in place: its draws from here on are determined by
/// the seed.
pub fn set_seed(source: &mut RandomSource, seed: u64) {
    *source = RandomSource::from_seed(seed);
}

/// Picks one element of the slice at random; the slice must be non-empty.
pub fn choose_item<'a, T>(source: &mut RandomSource, items: &'a Vec<T>) -> (r: &'a T)
    requires
        items@.len() > 0,
    ensures
        exists|i: int| 0 <= i < items@.len() && *r == items@[i],
{
    let index = source.range_usize(0, items.len());
    &items[index]
}

/// Permutes the elements in place: the result holds the same elements, as a
/// multiset, as before.
pub fn shuffle<T>(source: &mut RandomSource, items: &mut Vec<T>)
    ensures
        final(items)@.to_multiset() == old(items)@.to_multiset(),
        final(items)@.len() == old(items)@.len(),
{
    rng_shuffle(&mut source.rng, items)
}

/// The sequence `0, 1, ..., n - 1` in a random order.
pub fn indexes(source: &mut RandomSource, n: usize) -> (r: Vec<usize>)
    ensures
        r@.len() == n,
        r@.to_multiset() == Seq::new(n as nat, |i: int| i as usize).to_multiset(),
{
    let ghost full = Seq::new(n as nat, |i: int| i as usize);
    let mut order: Vec<usize> = Vec::new();
    let mut i: usize = 0;
    while i < n
        invariant
            0 <= i <= n,
            full == Seq::new(n as nat, |j: int| j as usize),
            order@ =~= full.take(i as int),
        decreases n - i,
    {
        proof {
            assert(full[i as int] == i as usize);
            assert(full.take(i as int + 1) =~= full.take(i as int).push(i as usize));
        }
        order.push(i);
        i = i + 1;
    }
    proof {
        assert(order@ =~= full);
    }
    shuffle(source, &mut order);
    order
}

} // verus!
