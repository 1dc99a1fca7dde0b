//! Passphrase assembly: resolves the wordlist for the requested
//! language, draws one uniformly distributed index per word position,
//! and joins the words with the configured separator.

use vstd::prelude::*;
use crate::dices;
use crate::diceware_info::DicewareInfo;
use crate::diceware_info::build_diceware_repository;
use crate::diceware_info::find_language;
use crate::diceware_info::has_language;
use crate::diceware_info::lemma_find_language;
use crate::diceware_info::lemma_indexable_fits_u32;
use crate::diceware_info::repository_ok;
use crate::diceware_info::words_for_language;
use crate::language::str_equal;
use crate::language::tag_matches;
use crate::language::to_lower;
use crate::option_parser::Options;
use crate::text::join_parts;
use crate::text::join_with;
use crate::wordlists::english_words_spec;
use crate::wordlists::polish_words_spec;

verus! {

/// The language tag the repository lookup resolves `language` to:
/// "pl" for the Polish tag up to ASCII case, else the default "en" —
/// an unknown tag falls back silently rather than failing.
pub open spec fn resolved_tag(language: Seq<char>) -> Seq<char> {
    if to_lower(language) == "pl"@ {
        "pl"@
    } else {
        "en"@
    }
}

/// `word` is one of `words`.
pub open spec fn word_of(word: Seq<char>, words: Seq<Seq<char>>) -> bool {
    exists|k: int| 0 <= k < words.len() && #[trigger] words[k] == word
}

/// `p` is `count` words of `words` joined by `sep`.
pub open spec fn is_passphrase(
    p: Seq<char>,
    words: Seq<Seq<char>>,
    count: int,
    sep: Seq<char>,
) -> bool {
    exists|ws: Seq<Seq<char>>|
        #![trigger join_with(ws, sep)]
        {
            &&& ws.len() == count
            &&& forall|k: int| 0 <= k < ws.len() ==> word_of(#[trigger] ws[k], words)
            &&& p == join_with(ws, sep)
        }
}

/// `text` is `count` passphrases, each `length` words of `words` joined
/// by `sep`, joined in turn by single line breaks.
pub open spec fn is_passphrase_block(
    text: Seq<char>,
    words: Seq<Seq<char>>,
    count: int,
    length: int,
    sep: Seq<char>,
) -> bool {
    exists|ps: Seq<Seq<char>>|
        #![trigger join_with(ps, "\n"@)]
        {
            &&& ps.len() == count
            &&& forall|k: int| 0 <= k < ps.len() ==> is_passphrase(#[trigger] ps[k], words, length, sep)
            &&& text == join_with(ps, "\n"@)
        }
}

/// An unknown language tag resolves to the very entry the default tag
/// "en" resolves to: the same word set and the same dice count.
pub proof fn lemma_unknown_language_uses_default(repo: Seq<DicewareInfo>, language: Seq<char>)
    requires
        to_lower(language) != "pl"@,
    ensures
        resolved_tag(language) == resolved_tag("en"@),
        find_language(repo, resolved_tag(language)) == find_language(repo, resolved_tag("en"@)),
{
    reveal_strlit("en");
    reveal_strlit("pl");
    assert(to_lower("en"@)[0] == 'e');
}

proof fn lemma_find_language_at(repo: Seq<DicewareInfo>, tag: Seq<char>, idx: int)
    requires
        0 <= idx < repo.len(),
        repo[idx].language@ == tag,
        forall|k: int| 0 <= k < idx ==> (#[trigger] repo[k]).language@ != tag,
    ensures
        find_language(repo, tag) == repo[idx],
    decreases idx,
{
    if idx > 0 {
        assert forall|k: int| 0 <= k < idx - 1 implies (#[trigger] repo.skip(1)[k]).language@ != tag by {
            assert(repo.skip(1)[k] == repo[k + 1]);
        }
        assert(repo.skip(1)[idx - 1] == repo[idx]);
        lemma_find_language_at(repo.skip(1), tag, idx - 1);
    }
}

/// In the standard repository, the resolved entry's words are exactly
/// the words the requested language selects.
pub proof fn lemma_standard_repository_resolves(repo: Seq<DicewareInfo>, language: Seq<char>)
    requires
        repo.len() == 2,
        repo[0].language@ == "en"@,
        repo[1].language@ == "pl"@,
        repo[0].words_view() == english_words_spec(),
        repo[1].words_view() == polish_words_spec(),
    ensures
        has_language(repo, resolved_tag(language)),
        find_language(repo, resolved_tag(language)).words_view() == words_for_language(language),
{
    reveal_strlit("en");
    reveal_strlit("pl");
    assert(("en"@)[0] == 'e');
    assert(("pl"@)[0] == 'p');
    if to_lower(language) == "pl"@ {
        lemma_find_language_at(repo, "pl"@, 1);
    } else {
        lemma_find_language_at(repo, "en"@, 0);
    }
}

fn find_entry(diceware_repository: &Vec<DicewareInfo>, tag: &str) -> (info: DicewareInfo)
    requires
        has_language(diceware_repository@, tag@),
    ensures
        ({
            let found = find_language(diceware_repository@, tag@);
            &&& info.language@ == found.language@
            &&& info.num_dices == found.num_dices
            &&& info.words_view() == found.words_view()
            &&& info.well_formed() == found.well_formed()
            &&& info.indexable() == found.indexable()
        }),
{
    let mut idx: usize = 0;
    while idx < diceware_repository.len()
        invariant
            0 <= idx <= diceware_repository@.len(),
            has_language(diceware_repository@, tag@),
            forall|k: int| 0 <= k < idx ==> (#[trigger] diceware_repository@[k]).language@ != tag@,
        decreases diceware_repository@.len() - idx,
    {
        if str_equal(diceware_repository[idx].language.as_str(), tag) {
            proof {
                lemma_find_language_at(diceware_repository@, tag@, idx as int);
            }
            return diceware_repository[idx].clone();
        }
        idx = idx + 1;
    }
    proof {
        assert(false);
    }
    unreached()
}

/// The repository entry the requested language resolves to: the entry
/// tagged "pl" for the Polish tag up to case, otherwise the entry tagged
/// "en". The repository must hold the resolved entry.
pub fn get_diceware_info_by_language(
    language: &str,
    diceware_repository: &Vec<DicewareInfo>,
) -> (info: DicewareInfo)
    requires
        has_language(diceware_repository@, resolved_tag(language@)),
    ensures
        ({
            let found = find_language(diceware_repository@, resolved_tag(language@));
            &&& info.language@ == found.language@
            &&& info.num_dices == found.num_dices
            &&& info.words_view() == found.words_view()
            &&& info.well_formed() == found.well_formed()
            &&& info.indexable() == found.indexable()
        }),
{
    if tag_matches(language, "pl") {
        find_entry(diceware_repository, "pl")
    } else {
        find_entry(diceware_repository, "en")
    }
}

/// One word drawn at random from the wordlist `language` resolves to,
/// by the selected strategy: simulated dice rolls or one direct draw.
/// Either draw is reduced modulo the list length, so the index is in
/// range whichever strategy produced it.
pub fn get_random_word(
    language: &str,
    diceware_repository: &Vec<DicewareInfo>,
    simulate_dices: bool,
) -> (word: String)
    requires
        repository_ok(diceware_repository@),
        has_language(diceware_repository@, resolved_tag(language@)),
    ensures
        word_of(word@, find_language(diceware_repository@, resolved_tag(language@)).words_view()),
{
    let info = get_diceware_info_by_language(language, diceware_repository);
    proof {
        lemma_find_language(diceware_repository@, resolved_tag(language@));
        lemma_indexable_fits_u32(&info);
        assert(info.words_view().len() == info.words@.len());
    }
    let result = if simulate_dices {
        dices::roll_dices(info.num_dices)
    } else {
        dices::get_random_number(info.words.len() as u32)
    };
    let index = (result as usize) % info.words.len();
    let word = info.words[index].clone();
    proof {
        assert(info.words_view()[index as int] == word@);
    }
    word
}

/// One passphrase: `password_length` random words of the resolved
/// wordlist, joined by the configured separator.
pub fn generate_single_password(
    options: &Options,
    diceware_repository: &Vec<DicewareInfo>,
) -> (password: String)
    requires
        repository_ok(diceware_repository@),
        has_language(diceware_repository@, resolved_tag(options.language@)),
    ensures
        is_passphrase(
            password@,
            find_language(diceware_repository@, resolved_tag(options.language@)).words_view(),
            options.password_length as int,
            options.separator@,
        ),
{
    let ghost list = find_language(diceware_repository@, resolved_tag(options.language@)).words_view();
    let mut words: Vec<String> = Vec::with_capacity(options.password_length);
    let mut drawn: usize = 0;
    while drawn < options.password_length
        invariant
            repository_ok(diceware_repository@),
            has_language(diceware_repository@, resolved_tag(options.language@)),
            list == find_language(diceware_repository@, resolved_tag(options.language@)).words_view(),
            0 <= drawn <= options.password_length,
            words@.len() == drawn,
            forall|k: int| 0 <= k < words@.len() ==> word_of((#[trigger] words@[k])@, list),
        decreases options.password_length - drawn,
    {
        let word = get_random_word(
            options.language.as_str(),
            diceware_repository,
            options.simulate_dices,
        );
        words.push(word);
        drawn = drawn + 1;
    }
    let password = join_parts(&words, options.separator.as_str());
    proof {
        let ws = words@.map_values(|p: String| p@);
        assert(ws.len() == options.password_length);
        assert forall|k: int| 0 <= k < ws.len() implies word_of(#[trigger] ws[k], list) by {
            assert(ws[k] == words@[k]@);
        }
        assert(is_passphrase(password@, list, options.password_length as int, options.separator@));
    }
    password
}

/// `password_count` independently generated passphrases, in generation
/// order, joined by single line breaks.
pub fn generate_all_passwords(
    options: &Options,
    diceware_repository: Vec<DicewareInfo>,
) -> (passwords: String)
    requires
        repository_ok(diceware_repository@),
        has_language(diceware_repository@, resolved_tag(options.language@)),
    ensures
        is_passphrase_block(
            passwords@,
            find_language(diceware_repository@, resolved_tag(options.language@)).words_view(),
            options.password_count as int,
            options.password_length as int,
            options.separator@,
        ),
{
    let ghost list = find_language(diceware_repository@, resolved_tag(options.language@)).words_view();
    let mut all_passwords: Vec<String> = Vec::with_capacity(options.password_count);
    let mut generated: usize = 0;
    while generated < options.password_count
        invariant
            repository_ok(diceware_repository@),
            has_language(diceware_repository@, resolved_tag(options.language@)),
            list == find_language(diceware_repository@, resolved_tag(options.language@)).words_view(),
            0 <= generated <= options.password_count,
            all_passwords@.len() == generated,
            forall|k: int| 0 <= k < all_passwords@.len()
                ==> is_passphrase(
                    (#[trigger] all_passwords@[k])@,
                    list,
                    options.password_length as int,
                    options.separator@,
                ),
        decreases options.password_count - generated,
    {
        let password = generate_single_password(options, &diceware_repository);
        all_passwords.push(password);
        generated = generated + 1;
    }
    let passwords = join_parts(&all_passwords, "\n");
    proof {
        let ps = all_passwords@.map_values(|p: String| p@);
        assert(ps.len() == options.password_count);
        assert forall|k: int| 0 <= k < ps.len()
            implies is_passphrase(#[trigger] ps[k], list, options.password_length as int, options.separator@) by {
            assert(ps[k] == all_passwords@[k]@);
        }
        assert(is_passphrase_block(
            passwords@,
            list,
            options.password_count as int,
            options.password_length as int,
            options.separator@,
        ));
    }
    passwords
}

/// Generates the configured number of passphrases against a caller-built
/// repository. Delivery of the result — printing it or copying it to a
/// clipboard — is the embedding program's concern, not the library's.
pub fn generate_diceware_passwords(
    options: &Options,
    diceware_repository: Vec<DicewareInfo>,
) -> (passwords: String)
    requires
        repository_ok(diceware_repository@),
        has_language(diceware_repository@, resolved_tag(options.language@)),
    ensures
        is_passphrase_block(
            passwords@,
            find_language(diceware_repository@, resolved_tag(options.language@)).words_view(),
            options.password_count as int,
            options.password_length as int,
            options.separator@,
        ),
{
    generate_all_passwords(options, diceware_repository)
}

/// Generates passphrases without asking the caller for an `Options`
/// value or a repository: the standard repository is built here, and the
/// delivery flags of `Options` play no part.
pub fn generate_diceware_passwords_simple(
    language: &str,
    password_length: usize,
    passwords_count: usize,
    separator: &str,
    simulate_dices: bool,
) -> (passwords: String)
    ensures
        is_passphrase_block(
            passwords@,
            words_for_language(language@),
            passwords_count as int,
            password_length as int,
            separator@,
        ),
{
    let repository = build_diceware_repository();
    let options = Options {
        language: language.to_owned(),
        separator: separator.to_owned(),
        password_length,
        password_count: passwords_count,
        simulate_dices,
        clipboard: false,
        help: false,
    };
    proof {
        lemma_standard_repository_resolves(repository@, language@);
    }
    generate_all_passwords(&options, repository)
}

/// A well of passphrases drawn one at a time, each generated afresh
/// against the standard repository.
pub struct PasswordsIterator {
    repository: Vec<DicewareInfo>,
    options: Options,
}

impl PasswordsIterator {
    /// The repository resolves every language tag.
    pub closed spec fn wf(&self) -> bool {
        &&& repository_ok(self.repository@)
        &&& has_language(self.repository@, resolved_tag(self.options.language@))
    }

    /// The words each produced passphrase draws from.
    pub closed spec fn word_list(&self) -> Seq<Seq<char>> {
        find_language(self.repository@, resolved_tag(self.options.language@)).words_view()
    }

    /// How many words each produced passphrase has.
    pub closed spec fn passphrase_length(&self) -> int {
        self.options.password_length as int
    }

    /// The separator each produced passphrase joins its words with.
    pub closed spec fn separator(&self) -> Seq<char> {
        self.options.separator@
    }

    pub fn new(
        language: &str,
        separator: &str,
        password_length: usize,
        simulate_dices: bool,
    ) -> (it: PasswordsIterator)
        ensures
            it.wf(),
            it.word_list() == words_for_language(language@),
            it.passphrase_length() == password_length as int,
            it.separator() == separator@,
    {
        let repository = build_diceware_repository();
        proof {
            lemma_standard_repository_resolves(repository@, language@);
        }
        PasswordsIterator {
            repository,
            options: Options {
                language: language.to_owned(),
                separator: separator.to_owned(),
                password_length,
                password_count: 1,
                simulate_dices,
                clipboard: false,
                help: false,
            },
        }
    }

    /// One freshly drawn passphrase. The well never runs dry: the
    /// original handed these out through an iterator with no end.
    pub fn next_password(&self) -> (password: String)
        requires
            self.wf(),
        ensures
            is_passphrase(password@, self.word_list(), self.passphrase_length(), self.separator()),
    {
        generate_single_password(&self.options, &self.repository)
    }
}

} // verus!
