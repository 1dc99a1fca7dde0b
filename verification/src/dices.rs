//! Random index engine: draws uniformly distributed indices from the
//! operating system's secure random source, either directly or by
//! simulating rolls of six-sided dice.

use vstd::prelude::*;

verus! {

/// The number of distinct outcomes of `n` six-sided dice, read as a
/// base-6 number: `6^n`.
pub open spec fn pow6(n: nat) -> nat
    decreases n,
{
    if n == 0 {
        1
    } else {
        6 * pow6((n - 1) as nat)
    }
}

pub proof fn lemma_pow6_increases(a: nat, b: nat)
    requires
        a <= b,
    ensures
        pow6(a) <= pow6(b),
    decreases b,
{
    if a < b {
        lemma_pow6_increases(a, (b - 1) as nat);
    }
}

/// Relies on rand::rngs::SysRng (the operating system's secure random
/// source): try_next_u32 yields a 32-bit value, or an error when the
/// system cannot supply secure randomness. Nothing can be promised of
/// which value comes back.
#[verifier::external_body]
fn os_random_u32() -> u32 {
    let mut rng = rand::rngs::SysRng;
    rand::TryRng::try_next_u32(&mut rng)
        .expect("Unable to obtain crypto secure random number generator!")
}

/// Relies on rand::rngs::SysRng: try_fill_bytes fills the buffer from the
/// operating system's secure random source, or reports an error when the
/// system cannot supply secure randomness. Nothing can be promised of the
/// byte that comes back.
#[verifier::external_body]
fn os_random_byte() -> u8 {
    let mut rng = rand::rngs::SysRng;
    let mut buffer = [0u8; 1];
    rand::TryRng::try_fill_bytes(&mut rng, &mut buffer)
        .expect("Unable to obtain crypto secure random number generator!");
    buffer[0]
}

/// One draw from the secure source, reduced modulo `max`.
///
/// The reduction keeps the small modulo bias of the original procedure:
/// `max` is far below the source's range, which is accepted here by
/// design rather than corrected by rejection sampling.
pub fn get_random_number(max: u32) -> (index: u32)
    requires
        max > 0,
    ensures
        index < max,
{
    let value = os_random_u32();

    value % max
}

/// One simulated roll of a classic six-sided die.
pub fn roll_dice() -> (roll: u32)
    ensures
        1 <= roll <= 6,
{
    let value = os_random_byte();

    (value % 6 + 1) as u32
}

/// Rolls `dices` six-sided dice and composes the outcomes, most
/// significant digit first, into one base-6 number.
pub fn roll_dices(dices: u8) -> (index: u32)
    requires
        pow6(dices as nat) <= u32::MAX,
    ensures
        index < pow6(dices as nat),
{
    let mut index: u32 = 0;
    let mut rolled: u8 = 0;
    while rolled < dices
        invariant
            rolled <= dices,
            pow6(dices as nat) <= u32::MAX,
            (index as nat) < pow6(rolled as nat),
        decreases dices - rolled,
    {
        proof {
            lemma_pow6_increases((rolled + 1) as nat, dices as nat);
        }
        let roll = roll_dice();
        index = index * 6 + (roll - 1);
        rolled = rolled + 1;
    }
    index
}

} // verus!
