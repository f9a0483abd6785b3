//! Entropy for the simulation, behind trusted wrappers.
//!
//! Everything random the game does — shipyard stock, planet layout,
//! market drift, player keys — flows through these three functions.
//! Verified code states what holds of every outcome, never of one draw.

use vstd::prelude::*;

verus! {

/// Relies on rand::Rng::random_range over `0..n`: the result is drawn
/// from `[0, n)`; the range is non-empty, so the call cannot panic.
#[verifier::external_body]
pub(crate) fn rand_below(n: u64) -> (r: u64)
    requires
        1 <= n,
    ensures
        r < n,
{
    rand::Rng::random_range(&mut rand::rng(), 0..n)
}

/// Relies on rand_core::RngCore::fill_bytes: it fills the whole buffer,
/// so the key keeps its 128-byte length.
#[verifier::external_body]
pub(crate) fn random_key_bytes() -> (r: Vec<u8>)
    ensures
        r@.len() == 128,
{
    let mut key = [0u8; 128];
    rand::RngCore::fill_bytes(&mut rand::rng(), &mut key);
    key.to_vec()
}

/// A standard-normal sample at milli scale: the centred sum of twelve
/// uniform draws (Irwin-Hall), which has mean zero and unit variance.
/// The tails are cut at six deviations.
pub(crate) fn std_normal_milli() -> (z: i64)
    ensures
        -6000 <= z <= 6000,
{
    let mut acc: u64 = 0;
    let mut i: u64 = 0;
    while i < 12
        invariant
            i <= 12,
            acc <= i * 1000,
        decreases 12 - i,
    {
        let d = rand_below(1000);
        acc = acc + d;
        proof {
            assert((i + 1) * 1000 == i * 1000 + 1000) by (nonlinear_arith);
        }
        i = i + 1;
    }
    (acc as i64) - 6000
}

} // verus!
