//! Line and token structure of raw wordlist text, and joining of words:
//! the mathematical model that the parsing and assembly contracts are
//! stated over.

use vstd::prelude::*;

verus! {

/// Whitespace that may separate columns inside one line of wordlist
/// text. A carriage return before a line break is treated the same way,
/// so Windows line endings need no separate handling.
pub open spec fn is_blank(c: char) -> bool {
    c == ' ' || c == '\t' || c == '\r'
}

/// Position of the first line break in `s`, or `s.len()` if there is none.
pub open spec fn first_newline(s: Seq<char>) -> nat
    decreases s.len(),
{
    if s.len() == 0 {
        0
    } else if s[0] == '\n' {
        0
    } else {
        1 + first_newline(s.skip(1))
    }
}

pub proof fn lemma_first_newline(s: Seq<char>)
    ensures
        first_newline(s) <= s.len(),
        forall|k: int| 0 <= k < first_newline(s) ==> s[k] != '\n',
        first_newline(s) < s.len() ==> s[first_newline(s) as int] == '\n',
    decreases s.len(),
{
    if s.len() == 0 {
    } else if s[0] == '\n' {
    } else {
        lemma_first_newline(s.skip(1));
        assert forall|k: int| 0 <= k < first_newline(s) implies s[k] != '\n' by {
            if k > 0 {
                assert(s.skip(1)[k - 1] == s[k]);
            }
        }
        if first_newline(s) < s.len() {
            assert(s.skip(1)[first_newline(s) - 1] == s[first_newline(s) as int]);
        }
    }
}

/// `first_newline` is the unique position with no line break before it
/// and a line break (or the end of the text) at it.
pub proof fn lemma_first_newline_at(s: Seq<char>, j: int)
    requires
        0 <= j <= s.len(),
        forall|k: int| 0 <= k < j ==> s[k] != '\n',
        j < s.len() ==> s[j] == '\n',
    ensures
        first_newline(s) == j,
    decreases s.len(),
{
    if j == 0 {
    } else {
        assert(s[0] != '\n');
        assert forall|k: int| 0 <= k < j - 1 implies s.skip(1)[k] != '\n' by {
            assert(s.skip(1)[k] == s[k + 1]);
        }
        if j - 1 < s.skip(1).len() {
            assert(s.skip(1)[j - 1] == s[j]);
        }
        lemma_first_newline_at(s.skip(1), j - 1);
    }
}

/// The lines of `s`: maximal runs of characters free of line breaks.
/// A final line break closes the last line rather than opening an empty
/// one, as is usual for line-oriented text.
pub open spec fn split_lines(s: Seq<char>) -> Seq<Seq<char>>
    decreases s.len(),
        via split_lines_decreases
{
    if s.len() == 0 {
        seq![]
    } else {
        let j = first_newline(s) as int;
        if j == s.len() {
            seq![s]
        } else {
            seq![s.take(j)] + split_lines(s.skip(j + 1))
        }
    }
}

#[via_fn]
proof fn split_lines_decreases(s: Seq<char>) {
    lemma_first_newline(s);
}

/// The run of non-blank characters that closes `line`; empty when the
/// line ends with a blank.
pub open spec fn trailing_token(line: Seq<char>) -> Seq<char>
    decreases line.len(),
{
    if line.len() == 0 {
        Seq::empty()
    } else if is_blank(line.last()) {
        Seq::empty()
    } else {
        trailing_token(line.drop_last()).push(line.last())
    }
}

/// The last whitespace-delimited token of `line`; empty when the line
/// holds nothing but blanks.
pub open spec fn last_token(line: Seq<char>) -> Seq<char>
    decreases line.len(),
{
    if line.len() == 0 {
        Seq::empty()
    } else if is_blank(line.last()) {
        last_token(line.drop_last())
    } else {
        trailing_token(line)
    }
}

/// Every line of `s` carries at least one token: the shape well-formed
/// wordlist text must have.
pub open spec fn lines_have_tokens(s: Seq<char>) -> bool {
    forall|i: int| 0 <= i < split_lines(s).len() ==> last_token(#[trigger] split_lines(s)[i]).len() > 0
}

/// The words of raw wordlist text: the last token of each line.
pub open spec fn diceware_words(s: Seq<char>) -> Seq<Seq<char>> {
    split_lines(s).map_values(|line: Seq<char>| last_token(line))
}

/// One step of line splitting: with `[i, j)` line-break free and `j` a
/// break or the end, `[i, j)` is the next line of the suffix at `i`.
pub proof fn lemma_split_lines_step(s: Seq<char>, i: int, j: int)
    requires
        0 <= i <= j <= s.len(),
        i < s.len(),
        forall|k: int| i <= k < j ==> s[k] != '\n',
        j < s.len() ==> s[j] == '\n',
    ensures
        j < s.len() ==> split_lines(s.skip(i)) == seq![s.subrange(i, j)] + split_lines(s.skip(j + 1)),
        j == s.len() ==> split_lines(s.skip(i)) == seq![s.subrange(i, j)],
{
    let t = s.skip(i);
    assert forall|k: int| 0 <= k < j - i implies t[k] != '\n' by {
        assert(t[k] == s[k + i]);
    }
    if j - i < t.len() {
        assert(t[j - i] == s[j]);
    }
    lemma_first_newline_at(t, j - i);
    if j < s.len() {
        assert(t.take(j - i) =~= s.subrange(i, j));
        assert(t.skip(j - i + 1) =~= s.skip(j + 1));
    } else {
        assert(t =~= s.subrange(i, j));
    }
}

/// A trailing run of non-blank characters is its own trailing token.
pub proof fn lemma_trailing_token_is(line: Seq<char>, a: int)
    requires
        0 <= a <= line.len(),
        forall|k: int| a <= k < line.len() ==> !is_blank(line[k]),
        a > 0 ==> is_blank(line[a - 1]),
    ensures
        trailing_token(line) == line.subrange(a, line.len() as int),
    decreases line.len(),
{
    if a == line.len() {
        if line.len() == 0 {
            assert(trailing_token(line) =~= line.subrange(a, line.len() as int));
        } else {
            assert(is_blank(line.last()));
            assert(trailing_token(line) =~= line.subrange(a, line.len() as int));
        }
    } else {
        assert(!is_blank(line.last()));
        lemma_trailing_token_is(line.drop_last(), a);
        assert(line.drop_last().subrange(a, line.len() - 1).push(line.last())
            =~= line.subrange(a, line.len() as int));
    }
}

/// The last token of a line is the non-blank run `[a, b)` when only
/// blanks follow it and a blank (or the start of the line) precedes it.
pub proof fn lemma_last_token_is(line: Seq<char>, a: int, b: int)
    requires
        0 <= a <= b <= line.len(),
        forall|k: int| b <= k < line.len() ==> is_blank(line[k]),
        forall|k: int| a <= k < b ==> !is_blank(line[k]),
        a > 0 ==> is_blank(line[a - 1]),
        a == b ==> a == 0,
    ensures
        last_token(line) == line.subrange(a, b),
    decreases line.len(),
{
    if b < line.len() {
        assert(is_blank(line.last()));
        lemma_last_token_is(line.drop_last(), a, b);
        assert(line.drop_last().subrange(a, b) =~= line.subrange(a, b));
    } else {
        if a == b {
            assert(line.len() == 0);
            assert(last_token(line) =~= line.subrange(a, b));
        } else {
            assert(!is_blank(line.last()));
            lemma_trailing_token_is(line, a);
            assert(line.subrange(a, line.len() as int) == line.subrange(a, b));
        }
    }
}

/// Words joined with a separator between consecutive words and none at
/// either end.
pub open spec fn join_with(parts: Seq<Seq<char>>, sep: Seq<char>) -> Seq<char>
    decreases parts.len(),
{
    if parts.len() == 0 {
        Seq::empty()
    } else if parts.len() == 1 {
        parts[0]
    } else {
        parts[0] + sep + join_with(parts.skip(1), sep)
    }
}

/// Joining one more part appends one separator and the part.
pub proof fn lemma_join_with_push(parts: Seq<Seq<char>>, sep: Seq<char>, part: Seq<char>)
    ensures
        parts.len() == 0 ==> join_with(parts.push(part), sep) == part,
        parts.len() > 0 ==> join_with(parts.push(part), sep) == join_with(parts, sep) + sep + part,
    decreases parts.len(),
{
    let pushed = parts.push(part);
    if parts.len() == 0 {
        assert(pushed.len() == 1);
        assert(join_with(pushed, sep) == pushed[0]);
    } else if parts.len() == 1 {
        assert(pushed.skip(1) =~= seq![part]);
        assert(join_with(seq![part], sep) == part);
        assert(join_with(pushed, sep) == pushed[0] + sep + join_with(pushed.skip(1), sep));
        assert(join_with(parts, sep) == parts[0]);
    } else {
        lemma_join_with_push(parts.skip(1), sep, part);
        assert(pushed.skip(1) =~= parts.skip(1).push(part));
        assert(join_with(pushed, sep) == pushed[0] + sep + join_with(pushed.skip(1), sep));
    }
}

/// How often the character `c` occurs in `s`.
pub open spec fn count_char(s: Seq<char>, c: char) -> nat
    decreases s.len(),
{
    if s.len() == 0 {
        0
    } else {
        count_char(s.drop_last(), c) + if s.last() == c { 1nat } else { 0nat }
    }
}

pub proof fn lemma_count_char_concat(left: Seq<char>, right: Seq<char>, c: char)
    ensures
        count_char(left + right, c) == count_char(left, c) + count_char(right, c),
    decreases right.len(),
{
    if right.len() == 0 {
        assert(left + right =~= left);
    } else {
        lemma_count_char_concat(left, right.drop_last(), c);
        assert((left + right).drop_last() =~= left + right.drop_last());
        assert((left + right).last() == right.last());
    }
}

/// A separator character that occurs in no word occurs in the joined
/// passphrase exactly between consecutive words: one occurrence fewer
/// than there are words.
pub proof fn lemma_join_separator_count(parts: Seq<Seq<char>>, c: char)
    requires
        parts.len() >= 1,
        forall|k: int| 0 <= k < parts.len() ==> count_char(#[trigger] parts[k], c) == 0,
    ensures
        count_char(join_with(parts, seq![c]), c) == parts.len() - 1,
    decreases parts.len(),
{
    if parts.len() == 1 {
    } else {
        assert forall|k: int| 0 <= k < parts.skip(1).len()
            implies count_char(#[trigger] parts.skip(1)[k], c) == 0 by {
            assert(parts.skip(1)[k] == parts[k + 1]);
        }
        lemma_join_separator_count(parts.skip(1), c);
        lemma_count_char_concat(parts[0] + seq![c], join_with(parts.skip(1), seq![c]), c);
        lemma_count_char_concat(parts[0], seq![c], c);
        assert(count_char(seq![c], c) == 1) by {
            assert(seq![c].last() == c);
            assert(seq![c].drop_last() =~= Seq::<char>::empty());
            assert(count_char(Seq::<char>::empty(), c) == 0);
        }
        assert(join_with(parts, seq![c]) == (parts[0] + seq![c]) + join_with(parts.skip(1), seq![c]))
            by {
            assert(parts[0] + seq![c] + join_with(parts.skip(1), seq![c])
                =~= (parts[0] + seq![c]) + join_with(parts.skip(1), seq![c]));
        }
    }
}

/// `parts` joined into one string, `separator` between consecutive parts.
pub fn join_parts(parts: &Vec<String>, separator: &str) -> (joined: String)
    ensures
        joined@ == join_with(parts@.map_values(|p: String| p@), separator@),
{
    let ghost views = parts@.map_values(|p: String| p@);
    let mut joined = String::new();
    let mut i: usize = 0;
    while i < parts.len()
        invariant
            0 <= i <= parts@.len(),
            views == parts@.map_values(|p: String| p@),
            joined@ == join_with(views.take(i as int), separator@),
        decreases parts@.len() - i,
    {
        proof {
            lemma_join_with_push(views.take(i as int), separator@, views[i as int]);
            assert(views.take(i as int).push(views[i as int]) =~= views.take(i + 1));
        }
        if i > 0 {
            joined.append(separator);
        }
        joined.append(parts[i].as_str());
        i = i + 1;
    }
    proof {
        assert(views.take(parts@.len() as int) =~= views);
    }
    joined
}

} // verus!
