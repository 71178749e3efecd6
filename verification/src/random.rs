//! Seeding for the data generator: a bit-mixing function that condenses
//! the clock into a 64-bit seed, a seeded random generator, and the
//! assignment of per-case seeds.

use vstd::prelude::*;

use rand::rngs::StdRng;

verus! {

/// Declares `rand`'s standard generator; the library carries it as an
/// opaque value.
#[verifier::external_type_specification]
#[verifier::external_body]
pub struct ExStdRng(StdRng);

/// Declares the standard library's clock reading; the library carries
/// it as an opaque value.
#[verifier::external_type_specification]
#[verifier::external_body]
pub struct ExSystemTime(std::time::SystemTime);

/// Relies on `std::time::SystemTime::now`: the clock's current reading.
#[verifier::external_body]
fn system_now() -> std::time::SystemTime {
    std::time::SystemTime::now()
}

/// Relies on `SystemTime::duration_since`: microseconds since the Unix
/// epoch, or nothing for a clock reading before it.
#[verifier::external_body]
fn micros_since_epoch(t: &std::time::SystemTime) -> Option<u128> {
    t.duration_since(std::time::UNIX_EPOCH).ok().map(|d| d.as_micros())
}

/// Relies on `rand`'s `SeedableRng::seed_from_u64` for `StdRng`: a
/// deterministically seeded standard generator.
#[verifier::external_body]
fn rng_from_seed(seed: u64) -> StdRng {
    <StdRng as rand::SeedableRng>::seed_from_u64(seed)
}

/// Relies on `rand`'s `Rng::next_u64` for `StdRng`: the generator's
/// next value; nothing is assumed about which value comes out.
#[verifier::external_body]
fn next_u64(rng: &mut StdRng) -> u64 {
    rand::Rng::next_u64(rng)
}

/// Left rotation of a 64-bit word.
pub open spec fn spec_rotl(x: u64, k: u64) -> u64 {
    (x << k) | (x >> (64 - k))
}

/// Right rotation of a 64-bit word.
pub open spec fn spec_rotr(x: u64, k: u64) -> u64 {
    (x >> k) | (x << (64 - k))
}

/// The mixing rounds of [`mix_u128_complex`]: multiply-xor rounds over
/// the two halves, rotations, and a final fold.
pub open spec fn spec_mix_u128(seed: u128) -> u64 {
    let low0 = seed as u64;
    let high0 = (seed >> 64) as u64;
    let low1 = vstd::wrapping::u64_specs::wrapping_mul(low0, 0x4cf5ad432745937f) ^ high0;
    let high1 = vstd::wrapping::u64_specs::wrapping_mul(high0, 0x1b873593) ^ low1;
    let low2 = spec_rotl(low1, 17) ^ spec_rotr(high1, 29);
    let high2 = spec_rotl(high1, 31) ^ spec_rotr(low2, 19);
    let low3 = vstd::wrapping::u64_specs::wrapping_mul(low2, 0xbf58476d1ce4e5b9);
    let high3 = vstd::wrapping::u64_specs::wrapping_mul(high2, 0x94d049bb133111eb);
    low3 ^ high3
}

fn rotl(x: u64, k: u64) -> (r: u64)
    requires
        0 < k < 64,
    ensures
        r == spec_rotl(x, k),
{
    (x << k) | (x >> (64 - k))
}

fn rotr(x: u64, k: u64) -> (r: u64)
    requires
        0 < k < 64,
    ensures
        r == spec_rotr(x, k),
{
    (x >> k) | (x << (64 - k))
}

/// Condenses a 128-bit value (typically a clock reading) into a 64-bit
/// seed by multiply-xor-rotate mixing of its two halves.
pub fn mix_u128_complex(seed: u128) -> (r: u64)
    ensures
        r == spec_mix_u128(seed),
{
    let mut low: u64 = seed as u64;
    let mut high: u64 = (seed >> 64) as u64;

    low = low.wrapping_mul(0x4cf5ad432745937f) ^ high;
    high = high.wrapping_mul(0x1b873593) ^ low;

    low = rotl(low, 17) ^ rotr(high, 29);
    high = rotl(high, 31) ^ rotr(low, 19);

    low = low.wrapping_mul(0xbf58476d1ce4e5b9);
    high = high.wrapping_mul(0x94d049bb133111eb);

    low ^ high
}

/// A standard random generator seeded from the clock: the current
/// microsecond reading, mixed down to 64 bits.  `None` when the clock
/// reads before the Unix epoch.
pub fn gen_rnd() -> Option<StdRng> {
    let now = system_now();
    match micros_since_epoch(&now) {
        None => None,
        Some(us) => Some(rng_from_seed(mix_u128_complex(us))),
    }
}

/// Whether some recorded seed carries this case id.
pub open spec fn spec_has_seed(seeds: Seq<(u32, u64)>, id: u32) -> bool {
    exists|k: int| 0 <= k < seeds.len() && seeds[k].0 == id
}

fn has_seed(seeds: &Vec<(u32, u64)>, id: u32) -> (r: bool)
    ensures
        r == spec_has_seed(seeds@, id),
{
    let mut k: usize = 0;
    while k < seeds.len()
        invariant
            k <= seeds@.len(),
            forall|t: int| 0 <= t < k ==> seeds@[t].0 != id,
        decreases seeds@.len() - k,
    {
        if seeds[k].0 == id {
            return true;
        }
        k = k + 1;
    }
    false
}

/// Draws a fresh random seed for every listed case id that has none
/// recorded yet.  Recorded seeds are kept untouched — regenerating data
/// with the same seed file reproduces the same inputs — and every
/// appended entry belongs to a listed id that had no seed before.
pub fn fill_seeds(seeds: &mut Vec<(u32, u64)>, ids: &Vec<u32>, rng: &mut StdRng)
    ensures
        final(seeds)@.len() >= old(seeds)@.len(),
        final(seeds)@.take(old(seeds)@.len() as int) == old(seeds)@,
        forall|k: int| 0 <= k < ids@.len() ==> spec_has_seed(final(seeds)@, #[trigger] ids@[k]),
        forall|k: int|
            old(seeds)@.len() <= k < final(seeds)@.len() ==> {
                &&& !spec_has_seed(old(seeds)@, (#[trigger] final(seeds)@[k]).0)
                &&& ids@.contains(final(seeds)@[k].0)
            },
{
    let ghost orig = seeds@;
    let mut i: usize = 0;
    while i < ids.len()
        invariant
            i <= ids@.len(),
            seeds@.len() >= orig.len(),
            seeds@.take(orig.len() as int) == orig,
            forall|k: int| 0 <= k < i ==> spec_has_seed(seeds@, #[trigger] ids@[k]),
            forall|k: int|
                orig.len() <= k < seeds@.len() ==> {
                    &&& !spec_has_seed(orig, (#[trigger] seeds@[k]).0)
                    &&& ids@.contains(seeds@[k].0)
                },
        decreases ids@.len() - i,
    {
        let id = ids[i];
        if !has_seed(seeds, id) {
            let ghost before = seeds@;
            let v = next_u64(rng);
            seeds.push((id, v));
            proof {
                assert(seeds@.take(orig.len() as int) =~= before.take(orig.len() as int));
                assert(!spec_has_seed(orig, id)) by {
                    if spec_has_seed(orig, id) {
                        let k = choose|k: int| 0 <= k < orig.len() && orig[k].0 == id;
                        assert(before.take(orig.len() as int)[k] == orig[k]);
                        assert(before[k].0 == id);
                    }
                }
                assert forall|k: int| 0 <= k < i implies spec_has_seed(
                    seeds@,
                    #[trigger] ids@[k],
                ) by {
                    assert(spec_has_seed(before, ids@[k]));
                    let t = choose|t: int| 0 <= t < before.len() && before[t].0 == ids@[k];
                    assert(seeds@[t] == before[t]);
                }
                assert(seeds@[seeds@.len() - 1].0 == id);
                assert(ids@.contains(id)) by {
                    assert(ids@[i as int] == id);
                }
            }
        }
        i = i + 1;
    }
}

} // verus!
