//! Diceware passphrase generation: wordlist repository, uniform random
//! index selection (direct draw or simulated dice rolls), and passphrase
//! assembly.

pub mod dices;
pub mod diceware_info;
pub mod language;
pub mod mrandom;
pub mod option_parser;
pub mod passwords;
pub mod text;
pub mod wordlists;

use vstd::prelude::*;
use crate::diceware_info::words_for_language;
use crate::option_parser::Options;
use crate::passwords::is_passphrase_block;
use crate::passwords::lemma_standard_repository_resolves;

verus! {

/// Generates the configured passphrases against a repository built on
/// the spot: one passphrase per line, each of the configured number of
/// random words from the resolved wordlist, joined by the configured
/// separator.
pub fn generate_diceware_passwords(options: Options) -> (generated: String)
    ensures
        is_passphrase_block(
            generated@,
            words_for_language(options.language@),
            options.password_count as int,
            options.password_length as int,
            options.separator@,
        ),
{
    let diceware_repository = diceware_info::build_diceware_repository();
    proof {
        lemma_standard_repository_resolves(diceware_repository@, options.language@);
    }
    passwords::generate_diceware_passwords(&options, diceware_repository)
}

} // verus!
