//! Wordlist repository: one `DicewareInfo` per supported language, with
//! the least dice count that addresses every word, parsed or assembled
//! from the embedded word data.

use vstd::prelude::*;
use crate::dices::pow6;
use crate::dices::lemma_pow6_increases;
use crate::text::diceware_words;
use crate::text::is_blank;
use crate::text::last_token;
use crate::text::lemma_last_token_is;
use crate::text::lemma_split_lines_step;
use crate::text::lines_have_tokens;
use crate::text::split_lines;
use crate::language::to_lower;
use crate::language::tag_matches;
use crate::wordlists::english_words;
use crate::wordlists::english_words_spec;
use crate::wordlists::polish_words;
use crate::wordlists::polish_words_spec;

verus! {

/// One language's wordlist: the language tag, the least number of
/// simulated dice whose outcomes address every word, and the words.
pub struct DicewareInfo {
    pub language: String,
    pub num_dices: u8,
    pub words: Vec<String>,
}

impl DicewareInfo {
    /// The words as character sequences.
    pub open spec fn words_view(&self) -> Seq<Seq<char>> {
        self.words@.map_values(|w: String| w@)
    }

    /// The list is non-empty and `num_dices` is minimal: `6^num_dices`
    /// outcomes reach every word, while one die fewer would not.
    pub open spec fn well_formed(&self) -> bool {
        &&& self.words@.len() >= 1
        &&& self.num_dices >= 1
        &&& pow6(self.num_dices as nat) >= self.words@.len()
        &&& self.num_dices > 1 ==> pow6((self.num_dices - 1) as nat) < self.words@.len()
    }

    /// Small enough that one 32-bit draw, or one round of at most twelve
    /// dice, can address the list.
    pub open spec fn indexable(&self) -> bool {
        self.words@.len() <= pow6(12)
    }
}

fn clone_words(words: &Vec<String>) -> (result: Vec<String>)
    ensures
        result@.len() == words@.len(),
        forall|k: int| 0 <= k < words@.len() ==> result@[k]@ == words@[k]@,
{
    let mut result: Vec<String> = Vec::new();
    let mut i: usize = 0;
    while i < words.len()
        invariant
            0 <= i <= words@.len(),
            result@.len() == i,
            forall|k: int| 0 <= k < i ==> result@[k]@ == words@[k]@,
        decreases words@.len() - i,
    {
        result.push(words[i].clone());
        i = i + 1;
    }
    result
}

impl Clone for DicewareInfo {
    fn clone(&self) -> (result: Self)
        ensures
            result.language@ == self.language@,
            result.num_dices == self.num_dices,
            result.words_view() == self.words_view(),
            result.well_formed() == self.well_formed(),
            result.indexable() == self.indexable(),
    {
        let result = DicewareInfo {
            language: self.language.clone(),
            num_dices: self.num_dices,
            words: clone_words(&self.words),
        };
        proof {
            assert(result.words_view() =~= self.words_view());
        }
        result
    }
}

pub proof fn lemma_pow6_12()
    ensures
        pow6(12) == 2176782336,
{
    reveal_with_fuel(pow6, 13);
}

proof fn lemma_pow6_25_large()
    ensures
        pow6(25) > 0xffff_ffff_ffff_ffff,
{
    reveal_with_fuel(pow6, 26);
}

/// An `indexable` well-formed list needs at most twelve dice, so one
/// 32-bit draw covers every dice outcome and every index.
pub proof fn lemma_indexable_fits_u32(info: &DicewareInfo)
    requires
        info.well_formed(),
        info.indexable(),
    ensures
        pow6(info.num_dices as nat) <= u32::MAX,
        info.words@.len() <= u32::MAX,
{
    lemma_pow6_12();
    if info.num_dices > 13 {
        lemma_pow6_increases(13nat, (info.num_dices - 1) as nat);
    }
    if info.num_dices > 12 {
        lemma_pow6_increases(12nat, (info.num_dices - 1) as nat);
        assert(false);
    }
    lemma_pow6_increases(info.num_dices as nat, 12nat);
}

/// The least `count >= 1` with `6^count` at least `size`: the number of
/// base-6 digits needed to address a list of `size` words.
pub fn calculate_max_dice_count(size: usize) -> (count: u8)
    requires
        size >= 1,
    ensures
        count >= 1,
        pow6(count as nat) >= size,
        count > 1 ==> pow6((count - 1) as nat) < size,
{
    proof {
        reveal_with_fuel(pow6, 2);
    }
    let mut count: u8 = 1;
    let mut reach: u128 = 6;
    while reach < size as u128
        invariant
            1 <= count <= 25,
            reach == pow6(count as nat),
            count > 1 ==> pow6((count - 1) as nat) < size,
        decreases 25 - count,
    {
        proof {
            lemma_pow6_25_large();
            if count >= 25 {
                lemma_pow6_increases(25nat, count as nat);
            }
        }
        reach = reach * 6;
        count = count + 1;
    }
    count
}

fn is_blank_char(c: char) -> (blank: bool)
    ensures
        blank == is_blank(c),
{
    c == ' ' || c == '\t' || c == '\r'
}

/// Parses raw wordlist text, one word per line, keeping only the last
/// whitespace-delimited token of each line (a leading index column, if
/// any, is discarded), and derives the dice count from the word count.
///
/// Text with a blank line is malformed wordlist data, a packaging defect
/// reported as fatal before any passphrase is generated; such text is
/// excluded here rather than accepted.
pub fn process_diceware_words(message: &str, language: &str) -> (info: DicewareInfo)
    requires
        message@.len() >= 1,
        lines_have_tokens(message@),
    ensures
        info.language@ == language@,
        info.words_view() == diceware_words(message@),
        forall|k: int| 0 <= k < info.words_view().len() ==> info.words_view()[k].len() > 0,
        info.well_formed(),
{
    let ghost s = message@;
    let len = message.unicode_len();
    let mut words: Vec<String> = Vec::new();
    let mut i: usize = 0;
    proof {
        assert(s.skip(0) =~= s);
        assert(split_lines(s).skip(0) =~= split_lines(s));
    }
    while i < len
        invariant
            s == message@,
            len == s.len(),
            0 <= i <= len,
            words@.len() <= split_lines(s).len(),
            split_lines(s.skip(i as int)) == split_lines(s).skip(words@.len() as int),
            forall|k: int| 0 <= k < words@.len()
                ==> words@[k]@ == last_token(#[trigger] split_lines(s)[k]),
        decreases len - i,
    {
        let ghost line_index = words@.len() as int;
        let mut j = i;
        while j < len && message.get_char(j) != '\n'
            invariant
                s == message@,
                len == s.len(),
                i <= j <= len,
                forall|k: int| i <= k < j ==> s[k] != '\n',
            decreases len - j,
        {
            j = j + 1;
        }
        let mut token_end = j;
        while token_end > i && is_blank_char(message.get_char(token_end - 1))
            invariant
                s == message@,
                i <= token_end <= j <= len == s.len(),
                forall|k: int| token_end <= k < j ==> is_blank(s[k]),
            decreases token_end,
        {
            token_end = token_end - 1;
        }
        let mut token_start = token_end;
        while token_start > i && !is_blank_char(message.get_char(token_start - 1))
            invariant
                s == message@,
                i <= token_start <= token_end <= len == s.len(),
                forall|k: int| token_start <= k < token_end ==> !is_blank(s[k]),
            decreases token_start,
        {
            token_start = token_start - 1;
        }
        let token = message.substring_char(token_start, token_end);
        let word = token.to_owned();
        proof {
            lemma_split_lines_step(s, i as int, j as int);
            let line = s.subrange(i as int, j as int);
            let a = token_start - i;
            let b = token_end - i;
            assert forall|k: int| b <= k < line.len() implies is_blank(line[k]) by {
                assert(line[k] == s[k + i]);
            }
            assert forall|k: int| a <= k < b implies !is_blank(line[k]) by {
                assert(line[k] == s[k + i]);
            }
            if a > 0 {
                assert(line[a - 1] == s[token_start - 1]);
            }
            if a == b && a > 0 {
                assert(!is_blank(s[token_end - 1]));
                assert(is_blank(s[token_start - 1]));
            }
            lemma_last_token_is(line, a, b);
            assert(word@ == line.subrange(a, b));
            // the found line is the next unprocessed one
            let rest = split_lines(s.skip(i as int));
            assert(rest[0] == line);
            assert(rest.len() >= 1);
            assert(line_index + rest.len() == split_lines(s).len());
            assert(split_lines(s).skip(line_index)[0] == split_lines(s)[line_index]);
            assert(split_lines(s)[line_index] == rest[0]);
            if j < len {
                assert(rest.skip(1) =~= split_lines(s.skip(j + 1)));
            }
            assert(split_lines(s).skip(line_index).skip(1) =~= split_lines(s).skip(line_index + 1));
        }
        words.push(word);
        if j < len {
            i = j + 1;
        } else {
            i = len;
            proof {
                assert(split_lines(s.skip(i as int)) =~= split_lines(s).skip(words@.len() as int));
            }
        }
    }
    proof {
        assert(s.skip(len as int) =~= Seq::<char>::empty());
        assert(split_lines(s).skip(words@.len() as int).len() == 0);
        assert(words@.len() == split_lines(s).len());
        assert(words@.map_values(|w: String| w@) =~= diceware_words(s));
        assert(split_lines(s).len() >= 1);
    }
    let num_dices = calculate_max_dice_count(words.len());
    let info = DicewareInfo { language: language.to_owned(), num_dices, words };
    proof {
        assert forall|k: int| 0 <= k < info.words_view().len()
            implies info.words_view()[k].len() > 0 by {
            assert(info.words_view()[k] == last_token(split_lines(s)[k]));
        }
    }
    info
}

/// The wordlist that `language` selects: Polish for the tag "pl" up to
/// ASCII case, otherwise English — the silent fallback for unknown tags.
pub open spec fn words_for_language(language: Seq<char>) -> Seq<Seq<char>> {
    if to_lower(language) == "pl"@ {
        polish_words_spec()
    } else {
        english_words_spec()
    }
}

/// Word data for the given language tag; an unknown tag yields the
/// default English data.
pub fn get_diceware_words_by_language(language: &str) -> (words: Vec<String>)
    ensures
        words@.map_values(|w: String| w@) == words_for_language(language@),
{
    proof {
        reveal_strlit("en");
        reveal_strlit("pl");
        assert(to_lower("en"@)[0] == 'e');
    }
    if tag_matches(language, "en") {
        english_words()
    } else if tag_matches(language, "pl") {
        polish_words()
    } else {
        english_words()
    }
}

/// The wordlist entry for one language: its word data together with the
/// dice count derived from the list length.
pub fn read_diceware_list(language: &str) -> (info: DicewareInfo)
    ensures
        info.language@ == language@,
        info.words_view() == words_for_language(language@),
        info.well_formed(),
        info.indexable(),
{
    let words = get_diceware_words_by_language(language);
    assert(words@.len() == words_for_language(language@).len());
    let num_dices = calculate_max_dice_count(words.len());
    proof {
        lemma_pow6_12();
    }
    DicewareInfo { language: language.to_owned(), num_dices, words }
}

/// Every entry of the repository is a sound wordlist that one draw can
/// address.
pub open spec fn repository_ok(repo: Seq<DicewareInfo>) -> bool {
    forall|k: int| 0 <= k < repo.len()
        ==> (#[trigger] repo[k]).well_formed() && repo[k].indexable()
}

/// Some entry of `repo` carries the language `tag`.
pub open spec fn has_language(repo: Seq<DicewareInfo>, tag: Seq<char>) -> bool {
    exists|k: int| 0 <= k < repo.len() && (#[trigger] repo[k]).language@ == tag
}

/// The first entry of `repo` carrying the language `tag`.
pub open spec fn find_language(repo: Seq<DicewareInfo>, tag: Seq<char>) -> DicewareInfo
    decreases repo.len(),
{
    if repo.len() == 0 {
        vstd::pervasive::arbitrary()
    } else if repo[0].language@ == tag {
        repo[0]
    } else {
        find_language(repo.skip(1), tag)
    }
}

/// When some entry carries `tag`, the found entry is one of the
/// repository's and carries `tag` itself.
pub proof fn lemma_find_language(repo: Seq<DicewareInfo>, tag: Seq<char>)
    requires
        has_language(repo, tag),
    ensures
        exists|k: int| 0 <= k < repo.len() && #[trigger] repo[k] == find_language(repo, tag),
        find_language(repo, tag).language@ == tag,
    decreases repo.len(),
{
    if repo.len() == 0 {
    } else if repo[0].language@ == tag {
        assert(repo[0] == find_language(repo, tag));
    } else {
        let w = choose|k: int| 0 <= k < repo.len() && (#[trigger] repo[k]).language@ == tag;
        assert(repo.skip(1)[w - 1] == repo[w]);
        lemma_find_language(repo.skip(1), tag);
        let k2 = choose|k: int|
            0 <= k < repo.skip(1).len() && #[trigger] repo.skip(1)[k] == find_language(
                repo.skip(1),
                tag,
            );
        assert(repo[k2 + 1] == find_language(repo, tag));
    }
}

/// Builds the repository of wordlists for the supported languages, in
/// registration order: English first, then Polish.
pub fn build_diceware_repository() -> (repo: Vec<DicewareInfo>)
    ensures
        repo@.len() == 2,
        repo@[0].language@ == "en"@,
        repo@[1].language@ == "pl"@,
        repo@[0].words_view() == english_words_spec(),
        repo@[1].words_view() == polish_words_spec(),
        repository_ok(repo@),
        has_language(repo@, "en"@),
        has_language(repo@, "pl"@),
{
    let mut repo: Vec<DicewareInfo> = Vec::new();
    repo.push(read_diceware_list("en"));
    repo.push(read_diceware_list("pl"));
    proof {
        reveal_strlit("en");
        reveal_strlit("pl");
        assert(to_lower("en"@)[0] == 'e');
        assert(to_lower("pl"@) =~= "pl"@);
    }
    repo
}

} // verus!

