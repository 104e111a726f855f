use vstd::prelude::*;

verus! {

/// One step of the task generator's 64-bit linear congruential generator.
pub open spec fn lcg_next(s: u64) -> u64 {
    s.wrapping_mul(6364136223846793005).wrapping_add(1)
}

/// The index in `0..n` drawn from the generator state `s` (already advanced):
/// the top 31 bits of `s`, read as a fraction of 2^32, scaled by `n` and
/// truncated, then reduced modulo `n`.
pub open spec fn index_from_state(s: u64, n: nat) -> nat {
    (((s as nat / 8_589_934_592) * n) / 4_294_967_296) % n
}

/// Advance the generator state in place and return the new state.
pub fn lcg_step(rng: &mut u64) -> (s: u64)
    ensures
        s == lcg_next(*old(rng)),
        *final(rng) == s,
{
    *rng = rng.wrapping_mul(6364136223846793005).wrapping_add(1);
    *rng
}

/// Advance the generator and draw an index in `0..n`.
///
/// The draw is computed exactly in integers; for every `n` up to 2^22 it
/// agrees with scaling the unit fraction `(s >> 33) / 2^32` by `n` in double
/// precision and truncating, since that product is exact there.
pub fn next_index(rng: &mut u64, n: usize) -> (i: usize)
    requires
        0 < n <= 0x40_0000,
    ensures
        *final(rng) == lcg_next(*old(rng)),
        i as nat == index_from_state(*final(rng), n as nat),
        i < n,
{
    let s = lcg_step(rng);
    let top = s / 8_589_934_592;
    assert(top < 2_147_483_648);
    assert(top * (n as u64) < 0x40_0000 * 2_147_483_648) by (nonlinear_arith)
        requires
            top < 2_147_483_648,
            n <= 0x40_0000,
    ;
    let scaled = (top * (n as u64)) / 4_294_967_296;
    (scaled % (n as u64)) as usize
}

} // verus!
