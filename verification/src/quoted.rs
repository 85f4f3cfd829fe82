//! Quoted spans: the tokens between an opening quote token and the next
//! token that holds the same quote character.

use vstd::prelude::*;
use crate::escape::{resolve_escapes, resolved};
use crate::text::{contains_char, texts};

verus! {

/// The index of the token that closes a span whose first inner token is at
/// `from`: the first token at or after `from` that holds `quote`. Where no
/// token does, the span runs to the end and the result is `tokens.len()`;
/// where `from` is past the end, nothing is scanned and the result is `from`.
pub open spec fn closing(tokens: Seq<Seq<char>>, from: int, quote: char) -> int
    decreases tokens.len() - from,
{
    if from < 0 || from >= tokens.len() || tokens[from].contains(quote) {
        from
    } else {
        closing(tokens, from + 1, quote)
    }
}

/// The index of the first token after the span: past the closing token where
/// there is one.
pub open spec fn span_end(tokens: Seq<Seq<char>>, from: int, quote: char) -> int {
    let close = closing(tokens, from, quote);
    if close < tokens.len() {
        close + 1
    } else {
        close
    }
}

/// What one inner token adds to the text of a span: its resolved form in a
/// double-quoted span, the token itself in any other.
pub open spec fn span_piece(token: Seq<char>, quote: char) -> Seq<char> {
    if quote == '"' {
        resolved(token)
    } else {
        token
    }
}

/// The text of the span whose first inner token is at `from`: the pieces of
/// its inner tokens, one after the other with nothing between them. The
/// closing token adds nothing.
pub open spec fn span_text(tokens: Seq<Seq<char>>, from: int, quote: char) -> Seq<char>
    decreases tokens.len() - from,
{
    if from < 0 || from >= tokens.len() || tokens[from].contains(quote) {
        Seq::empty()
    } else {
        span_piece(tokens[from], quote) + span_text(tokens, from + 1, quote)
    }
}

/// Scans the span whose first inner token is `tokens[start]` and returns its
/// text with the index of the first token after it. The scan ends with the
/// first token that holds `quote`, which is consumed and adds nothing to the
/// text, or with the last token.
pub fn quoted_span(tokens: &Vec<String>, start: usize, quote: char) -> (span: (String, usize))
    ensures
        span.0@ == span_text(texts(tokens@), start as int, quote),
        span.1 == span_end(texts(tokens@), start as int, quote),
{
    let ghost all = texts(tokens@);
    let n: usize = tokens.len();
    let mut text: String = String::new();
    if start >= n {
        return (text, start);
    }
    let mut k: usize = start;
    while k < n
        invariant
            n == tokens@.len(),
            all == texts(tokens@),
            start <= k <= n,
            closing(all, k as int, quote) == closing(all, start as int, quote),
            text@ + span_text(all, k as int, quote) == span_text(all, start as int, quote),
        decreases n - k,
    {
        let token: &str = tokens[k].as_str();
        if contains_char(token, quote) {
            return (text, k + 1);
        }
        if quote == '"' {
            let part: String = resolve_escapes(token);
            text.append(part.as_str());
        } else {
            text.append(token);
        }
        k += 1;
    }
    (text, n)
}

} // verus!
