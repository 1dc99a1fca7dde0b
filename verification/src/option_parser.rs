//! The configuration a generation run is driven by, and the bounds a
//! configuration must satisfy. Reading a command line into an `Options`
//! value, printing usage, and exiting on bad input are the embedding
//! program's concern; the checks themselves are here.

use vstd::prelude::*;
use crate::language::str_equal;

verus! {

/// A passphrase must have at least this many words.
pub const MIN_WORDS_COUNT: usize = 1;

/// A passphrase may have at most this many words.
pub const MAX_WORDS_COUNT: usize = 255;

/// At least this many passphrases are generated per call.
pub const MIN_PASSWORD_COUNT: usize = 1;

/// At most this many passphrases are generated per call.
pub const MAX_PASSWORD_COUNT: usize = 255;

/// One generation run's configuration: language, word separator, words
/// per passphrase, number of passphrases, and the strategy and delivery
/// flags.
#[derive(Debug)]
pub struct Options {
    pub language: String,
    pub separator: String,
    pub password_length: usize,
    pub password_count: usize,
    pub clipboard: bool,
    pub help: bool,
    pub simulate_dices: bool,
}

impl Options {
    /// The bounds the configuration loader must have established: both
    /// counts in range and the language one of the supported tags,
    /// written exactly.
    pub open spec fn valid(&self) -> bool {
        &&& MIN_WORDS_COUNT <= self.password_length <= MAX_WORDS_COUNT
        &&& MIN_PASSWORD_COUNT <= self.password_count <= MAX_PASSWORD_COUNT
        &&& (self.language@ == "en"@ || self.language@ == "pl"@)
    }
}

impl PartialEq for Options {
    fn eq(&self, other: &Options) -> (equal: bool) {
        self.language == other.language
            && self.separator == other.separator
            && self.password_length == other.password_length
            && self.password_count == other.password_count
            && self.clipboard == other.clipboard
            && self.help == other.help
            && self.simulate_dices == other.simulate_dices
    }
}

impl vstd::std_specs::cmp::PartialEqSpecImpl for Options {
    open spec fn obeys_eq_spec() -> bool {
        true
    }

    open spec fn eq_spec(&self, other: &Options) -> bool {
        &&& self.language@ == other.language@
        &&& self.separator@ == other.separator@
        &&& self.password_length == other.password_length
        &&& self.password_count == other.password_count
        &&& self.clipboard == other.clipboard
        &&& self.help == other.help
        &&& self.simulate_dices == other.simulate_dices
    }
}

/// Whether `options` satisfies every bound of `Options::valid`: word and
/// passphrase counts in range and a supported language tag.
pub fn validate_options(options: &Options) -> (ok: bool)
    ensures
        ok == options.valid(),
{
    if options.password_length < MIN_WORDS_COUNT || options.password_length > MAX_WORDS_COUNT {
        return false;
    }
    if options.password_count < MIN_PASSWORD_COUNT || options.password_count > MAX_PASSWORD_COUNT {
        return false;
    }
    str_equal(options.language.as_str(), "en") || str_equal(options.language.as_str(), "pl")
}

} // verus!
