//! Splitting a line into its whitespace-delimited tokens.

use vstd::prelude::*;
use crate::text::{is_whitespace, texts, whitespace};

verus! {

/// The tokens of `line`: its maximal runs of characters that are not
/// whitespace, from left to right.
///
/// Read from the right end: a whitespace character adds nothing, a character
/// that follows a character of a token extends that token, and any other
/// character starts a new one.
pub open spec fn tokens(line: Seq<char>) -> Seq<Seq<char>>
    decreases line.len(),
{
    if line.len() == 0 {
        Seq::empty()
    } else {
        let before = tokens(line.drop_last());
        let c = line.last();
        if whitespace(c) {
            before
        } else if line.len() >= 2 && !whitespace(line[line.len() - 2]) {
            before.drop_last().push(before.last().push(c))
        } else {
            before.push(seq![c])
        }
    }
}

/// Whether no character of `word` is whitespace.
pub open spec fn spaceless(word: Seq<char>) -> bool {
    forall|k: int| 0 <= k < word.len() ==> !whitespace(#[trigger] word[k])
}

/// Whether every character of `line` is whitespace.
pub open spec fn blank(line: Seq<char>) -> bool {
    forall|k: int| 0 <= k < line.len() ==> whitespace(#[trigger] line[k])
}

/// Whether a token may start right after `prefix`: `prefix` is empty or ends
/// in whitespace.
pub open spec fn at_boundary(prefix: Seq<char>) -> bool {
    prefix.len() == 0 || whitespace(prefix.last())
}

/// A whitespace character after a line adds no token.
pub proof fn lemma_tokens_push_space(prefix: Seq<char>, c: char)
    requires
        whitespace(c),
    ensures
        tokens(prefix.push(c)) == tokens(prefix),
{
    assert(prefix.push(c).drop_last() =~= prefix);
}

/// A word that starts at a boundary is one token after those before it.
pub proof fn lemma_tokens_push_word(prefix: Seq<char>, word: Seq<char>)
    requires
        at_boundary(prefix),
        word.len() > 0,
        spaceless(word),
    ensures
        tokens(prefix + word) == tokens(prefix).push(word),
    decreases word.len(),
{
    let c = word.last();
    assert((prefix + word).drop_last() =~= prefix + word.drop_last());
    if word.len() == 1 {
        assert(word =~= seq![c]);
    } else {
        lemma_tokens_push_word(prefix, word.drop_last());
        assert(word.drop_last().push(c) =~= word);
    }
}

/// Splits `line` on runs of whitespace.
pub fn split_whitespace(line: &str) -> (words: Vec<String>)
    ensures
        texts(words@) == tokens(line@),
{
    let n: usize = line.unicode_len();
    let mut words: Vec<String> = Vec::new();
    let mut i: usize = 0;
    while i < n
        invariant
            n == line@.len(),
            i <= n,
            at_boundary(line@.take(i as int)) || i == n || whitespace(line@[i as int]),
            texts(words@) == tokens(line@.take(i as int)),
        decreases n - i,
    {
        let c: char = line.get_char(i);
        if is_whitespace(c) {
            proof {
                lemma_tokens_push_space(line@.take(i as int), c);
                assert(line@.take(i as int + 1) =~= line@.take(i as int).push(c));
            }
            i += 1;
        } else {
            let mut j: usize = i + 1;
            while j < n && !is_whitespace(line.get_char(j))
                invariant
                    n == line@.len(),
                    i < j <= n,
                    spaceless(line@.subrange(i as int, j as int)),
                decreases n - j,
            {
                j += 1;
            }
            let word: String = line.substring_char(i, j).to_owned();
            proof {
                let prefix = line@.take(i as int);
                lemma_tokens_push_word(prefix, word@);
                assert(line@.take(j as int) =~= prefix + word@);
            }
            words.push(word);
            i = j;
        }
    }
    proof {
        assert(line@.take(n as int) =~= line@);
    }
    words
}

} // verus!
