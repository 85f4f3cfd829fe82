//! What a single token is, and what it adds to the outputs.

use vstd::prelude::*;
use crate::text::texts;

verus! {

/// The five kinds of token. A token's kind depends on its first characters
/// only.
#[derive(Clone, Copy, Debug, PartialEq, Eq, Structural)]
pub enum TokenKind {
    /// Starts with `--`: the rest is one flag.
    LongFlag,
    /// Starts with a single `-`: each further character is a flag.
    ShortFlags,
    /// Starts with `"`: opens a span that resolves escapes.
    DoubleQuote,
    /// Starts with `'`: opens a span that is taken verbatim.
    SingleQuote,
    /// Anything else: a positional argument.
    Positional,
}

/// The kind of `token`; the first rule that applies decides.
pub open spec fn kind_of(token: Seq<char>) -> TokenKind {
    if token.len() >= 2 && token[0] == '-' && token[1] == '-' {
        TokenKind::LongFlag
    } else if token.len() >= 1 && token[0] == '-' {
        TokenKind::ShortFlags
    } else if token.len() >= 1 && token[0] == '"' {
        TokenKind::DoubleQuote
    } else if token.len() >= 1 && token[0] == '\'' {
        TokenKind::SingleQuote
    } else {
        TokenKind::Positional
    }
}

/// One flag of one character for each character of `cluster`, in order.
pub open spec fn short_flags(cluster: Seq<char>) -> Seq<Seq<char>> {
    Seq::new(cluster.len(), |k: int| seq![cluster[k]])
}

/// The flags that `token` stands for.
pub open spec fn token_flags(token: Seq<char>) -> Seq<Seq<char>> {
    match kind_of(token) {
        TokenKind::LongFlag => seq![token.skip(2)],
        TokenKind::ShortFlags => short_flags(token.skip(1)),
        _ => Seq::empty(),
    }
}

/// The positional arguments that `token` stands for.
pub open spec fn token_args(token: Seq<char>) -> Seq<Seq<char>> {
    match kind_of(token) {
        TokenKind::Positional => seq![token],
        _ => Seq::empty(),
    }
}

/// The quote character of the span that `token` opens, if it opens one.
pub open spec fn opened_quote(token: Seq<char>) -> Option<char> {
    match kind_of(token) {
        TokenKind::DoubleQuote => Some('"'),
        TokenKind::SingleQuote => Some('\''),
        _ => None,
    }
}

/// Classifies a token by its first characters.
pub fn classify(token: &str) -> (kind: TokenKind)
    ensures
        kind == kind_of(token@),
{
    let n: usize = token.unicode_len();
    if n == 0 {
        return TokenKind::Positional;
    }
    let first: char = token.get_char(0);
    if first == '-' {
        if n >= 2 && token.get_char(1) == '-' {
            TokenKind::LongFlag
        } else {
            TokenKind::ShortFlags
        }
    } else if first == '"' {
        TokenKind::DoubleQuote
    } else if first == '\'' {
        TokenKind::SingleQuote
    } else {
        TokenKind::Positional
    }
}

/// Appends to `flags` the flags that a flag token stands for: the name of a
/// long flag, or the characters of a short cluster one by one. Other tokens
/// add nothing.
pub fn push_flags(token: &str, flags: &mut Vec<String>)
    ensures
        texts(final(flags)@) == texts(old(flags)@) + token_flags(token@),
{
    let n: usize = token.unicode_len();
    match classify(token) {
        TokenKind::LongFlag => {
            let name: String = token.substring_char(2, n).to_owned();
            flags.push(name);
        },
        TokenKind::ShortFlags => {
            let ghost cluster = token@.skip(1);
            let mut k: usize = 1;
            while k < n
                invariant
                    n == token@.len(),
                    cluster == token@.skip(1),
                    1 <= k <= n,
                    texts(flags@) == texts(old(flags)@) + short_flags(cluster).take(k - 1),
                decreases n - k,
            {
                let flag: String = token.substring_char(k, k + 1).to_owned();
                proof {
                    assert(flag@ =~= seq![cluster[k - 1]]);
                    assert(texts(flags@.push(flag)) =~= texts(flags@).push(flag@));
                }
                flags.push(flag);
                k += 1;
            }
        },
        _ => {},
    }
}

} // verus!
