//! A second, simpler take on simulated dice rolls, drawing from the
//! process-wide generator instead of the bare system source.

use vstd::prelude::*;
use crate::dices::pow6;
use crate::dices::lemma_pow6_increases;

verus! {

/// Relies on rand::random::<u8>: one byte from the thread's
/// cryptographically secure generator, seeded by the operating system.
/// Nothing can be promised of which value comes back.
#[verifier::external_body]
fn random_byte() -> u8 {
    rand::random::<u8>()
}

/// One simulated roll of a classic six-sided die.
pub fn roll_dice() -> (roll: u8)
    ensures
        1 <= roll <= 6,
{
    let value = random_byte();

    value % 6 + 1
}

/// Rolls `dices` six-sided dice and composes the outcomes, most
/// significant digit first, into one base-6 number.
pub fn roll_dices(dices: u8) -> (index: u32)
    requires
        pow6(dices as nat) <= u32::MAX,
    ensures
        index < pow6(dices as nat),
{
    let mut index: u32 = 0;
    let mut rolled: u8 = 0;
    while rolled < dices
        invariant
            rolled <= dices,
            pow6(dices as nat) <= u32::MAX,
            (index as nat) < pow6(rolled as nat),
        decreases dices - rolled,
    {
        proof {
            lemma_pow6_increases((rolled + 1) as nat, dices as nat);
        }
        let roll = roll_dice();
        index = index * 6 + ((roll - 1) as u32);
        rolled = rolled + 1;
    }
    index
}

/// Exercises `roll_dices` on the five dice of a classic diceware table.
pub fn roll_dices_test() {
    proof {
        reveal_with_fuel(pow6, 6);
        assert(pow6(5) == 7776);
    }
    roll_dices(5);
}

} // verus!
