//! Escape sequences in the text of a double-quoted span.

use vstd::prelude::*;

verus! {

/// What a backslash and the character `next` after it stand for: `n`, `t`
/// and `r` give a newline, a tab and a carriage return; a backtick keeps its
/// backslash; every other character, the backslash among them, stands for
/// itself.
pub open spec fn escaped(next: char) -> Seq<char> {
    if next == 'n' {
        seq!['\n']
    } else if next == 't' {
        seq!['\t']
    } else if next == 'r' {
        seq!['\r']
    } else if next == '`' {
        seq!['\\', '`']
    } else {
        seq![next]
    }
}

/// The resolved form of `s`, read from left to right: a backslash and the
/// character after it are replaced by what they stand for; any other
/// character, and a backslash that ends `s`, is kept.
pub open spec fn resolved(s: Seq<char>) -> Seq<char>
    decreases s.len(),
{
    if s.len() == 0 {
        Seq::empty()
    } else if s[0] == '\\' && s.len() >= 2 {
        escaped(s[1]) + resolved(s.skip(2))
    } else {
        seq![s[0]] + resolved(s.skip(1))
    }
}

/// Resolves the escape sequences of `in_string`.
///
/// Each backslash is read against the character that follows it. A backslash
/// with nothing after it is passed through as it is, so every string
/// resolves.
pub fn resolve_escapes(in_string: &str) -> (out_string: String)
    ensures
        out_string@ == resolved(in_string@),
{
    let n: usize = in_string.unicode_len();
    let mut out_string: String = String::new();
    let mut i: usize = 0;
    proof {
        assert(in_string@.skip(0) =~= in_string@);
    }
    while i < n
        invariant
            n == in_string@.len(),
            i <= n,
            out_string@ + resolved(in_string@.skip(i as int)) == resolved(in_string@),
        decreases n - i,
    {
        let ghost rest = in_string@.skip(i as int);
        if in_string.get_char(i) == '\\' && i + 1 < n {
            let next: char = in_string.get_char(i + 1);
            proof {
                reveal_strlit("\n");
                reveal_strlit("\t");
                reveal_strlit("\r");
                reveal_strlit("\\`");
            }
            if next == 'n' {
                out_string.append("\n");
            } else if next == 't' {
                out_string.append("\t");
            } else if next == 'r' {
                out_string.append("\r");
            } else if next == '`' {
                out_string.append("\\`");
            } else {
                out_string.append(in_string.substring_char(i + 1, i + 2));
            }
            proof {
                assert(rest.skip(2) =~= in_string@.skip(i + 2));
            }
            i += 2;
        } else {
            out_string.append(in_string.substring_char(i, i + 1));
            proof {
                assert(rest.skip(1) =~= in_string@.skip(i + 1));
            }
            i += 1;
        }
    }
    out_string
}

} // verus!
