//! The parser: from a line to its positional arguments and its flags.

use vstd::prelude::*;
use crate::kinds::{classify, opened_quote, push_flags, token_args, token_flags, TokenKind};
use crate::quoted::{closing, quoted_span, span_end};
use crate::text::texts;
use crate::tokens::{split_whitespace, tokens};

verus! {

/// The quote character of the span that is open after `tokens` have been
/// read, if one is.
///
/// Outside a span, a quote token opens one. Inside a span, the first token
/// that holds the span's quote character closes it; every token before that
/// one belongs to the span, whatever it looks like.
pub open spec fn open_quote(tokens: Seq<Seq<char>>) -> Option<char>
    decreases tokens.len(),
{
    if tokens.len() == 0 {
        None
    } else {
        match open_quote(tokens.drop_last()) {
            Some(quote) => if tokens.last().contains(quote) {
                None
            } else {
                Some(quote)
            },
            None => opened_quote(tokens.last()),
        }
    }
}

/// Whether token `i` of `tokens` is read on its own, not as part of a quoted
/// span that an earlier token opened.
pub open spec fn outside_spans(tokens: Seq<Seq<char>>, i: int) -> bool {
    open_quote(tokens.take(i)) is None
}

/// The flags of `tokens`: what each token outside the quoted spans adds, in
/// the order of the tokens.
pub open spec fn flags_of(tokens: Seq<Seq<char>>) -> Seq<Seq<char>>
    decreases tokens.len(),
{
    if tokens.len() == 0 {
        Seq::empty()
    } else if open_quote(tokens.drop_last()) is None {
        flags_of(tokens.drop_last()) + token_flags(tokens.last())
    } else {
        flags_of(tokens.drop_last())
    }
}

/// The positional arguments of `tokens`: what each token outside the quoted
/// spans adds, in the order of the tokens.
pub open spec fn args_of(tokens: Seq<Seq<char>>) -> Seq<Seq<char>>
    decreases tokens.len(),
{
    if tokens.len() == 0 {
        Seq::empty()
    } else if open_quote(tokens.drop_last()) is None {
        args_of(tokens.drop_last()) + token_args(tokens.last())
    } else {
        args_of(tokens.drop_last())
    }
}

/// The flags of a line.
pub open spec fn parsed_flags(line: Seq<char>) -> Seq<Seq<char>> {
    flags_of(tokens(line))
}

/// The positional arguments of a line.
pub open spec fn parsed_args(line: Seq<char>) -> Seq<Seq<char>> {
    args_of(tokens(line))
}

/// The tokens of a quoted span add nothing: from the first inner token at
/// `from` to the end of the span the outputs stay as they are, and a span
/// that is closed leaves no quote open.
pub proof fn lemma_span_adds_nothing(tokens: Seq<Seq<char>>, from: int, quote: char)
    requires
        0 <= from <= tokens.len(),
        open_quote(tokens.take(from)) == Some(quote),
    ensures
        from <= span_end(tokens, from, quote) <= tokens.len(),
        flags_of(tokens.take(span_end(tokens, from, quote))) == flags_of(tokens.take(from)),
        args_of(tokens.take(span_end(tokens, from, quote))) == args_of(tokens.take(from)),
        closing(tokens, from, quote) < tokens.len() ==> outside_spans(
            tokens,
            span_end(tokens, from, quote),
        ),
    decreases tokens.len() - from,
{
    if from < tokens.len() {
        assert(tokens.take(from + 1).drop_last() =~= tokens.take(from));
        if !tokens[from].contains(quote) {
            lemma_span_adds_nothing(tokens, from + 1, quote);
        }
    }
}

/// Sorts `tokens` into positional arguments and flags, each in the order of
/// the tokens; the result is the pair of the two, arguments first.
///
/// A token is read by its kind. A quote token opens a span that runs up to
/// and including the next token that holds the same quote character, or to
/// the last token. The text of a span is put together and then dropped: a
/// span adds nothing to either output.
pub fn parse_tokens(tokens: &Vec<String>) -> (outputs: (Vec<String>, Vec<String>))
    ensures
        texts(outputs.0@) == args_of(texts(tokens@)),
        texts(outputs.1@) == flags_of(texts(tokens@)),
{
    let ghost all = texts(tokens@);
    let n: usize = tokens.len();
    let mut args: Vec<String> = Vec::new();
    let mut flags: Vec<String> = Vec::new();
    let mut i: usize = 0;
    while i < n
        invariant
            n == tokens@.len(),
            all == texts(tokens@),
            i <= n,
            i < n ==> outside_spans(all, i as int),
            texts(args@) == args_of(all.take(i as int)),
            texts(flags@) == flags_of(all.take(i as int)),
        decreases n - i,
    {
        let token: &str = tokens[i].as_str();
        proof {
            assert(all.take(i + 1).drop_last() =~= all.take(i as int));
        }
        match classify(token) {
            TokenKind::LongFlag | TokenKind::ShortFlags => {
                push_flags(token, &mut flags);
                i += 1;
            },
            TokenKind::DoubleQuote => {
                let span = quoted_span(tokens, i + 1, '"');
                proof {
                    lemma_span_adds_nothing(all, i + 1, '"');
                }
                i = span.1;
            },
            TokenKind::SingleQuote => {
                let span = quoted_span(tokens, i + 1, '\'');
                proof {
                    lemma_span_adds_nothing(all, i + 1, '\'');
                }
                i = span.1;
            },
            TokenKind::Positional => {
                args.push(tokens[i].clone());
                i += 1;
            },
        }
    }
    proof {
        assert(all.take(n as int) =~= all);
    }
    (args, flags)
}

/// What a parser holds, as plain sequences of characters.
pub struct ParserView {
    /// The line that the parser was made for.
    pub line: Seq<char>,
    /// The positional arguments.
    pub args: Seq<Seq<char>>,
    /// The flags.
    pub flags: Seq<Seq<char>>,
}

/// A parser for one line of input. `parse` fills `args` and `flags`.
#[derive(Debug, Clone, PartialEq, Eq)]
pub struct ArgParser {
    /// The line to parse. It is set once, by `new`.
    input: String,
    /// The positional arguments, in the order in which they stand in the line.
    pub args: Vec<String>,
    /// The flags, without their hyphens, in the order in which they stand in
    /// the line. A flag that is given twice is listed twice.
    pub flags: Vec<String>,
}

impl View for ArgParser {
    type V = ParserView;

    closed spec fn view(&self) -> ParserView {
        ParserView { line: self.input@, args: texts(self.args@), flags: texts(self.flags@) }
    }
}

impl ArgParser {
    /// A parser for `input`, with nothing parsed yet.
    #[must_use]
    pub fn new(input: String) -> (parser: Self)
        ensures
            parser@.line == input@,
            parser@.args == Seq::<Seq<char>>::empty(),
            parser@.flags == Seq::<Seq<char>>::empty(),
    {
        Self { input, args: Vec::new(), flags: Vec::new() }
    }

    /// Parses the line: `args` and `flags` become the positional arguments
    /// and the flags of the line. Whatever the two held before is replaced,
    /// so a second call gives the same outputs again.
    pub fn parse(&mut self)
        ensures
            final(self)@.line == old(self)@.line,
            final(self)@.args == parsed_args(old(self)@.line),
            final(self)@.flags == parsed_flags(old(self)@.line),
    {
        let tokens: Vec<String> = split_whitespace(self.input.as_str());
        let outputs = parse_tokens(&tokens);
        self.args = outputs.0;
        self.flags = outputs.1;
    }

    /// The positional arguments that the parser holds.
    pub fn args(&self) -> (args: &Vec<String>)
        ensures
            texts(args@) == self@.args,
    {
        &self.args
    }

    /// The flags that the parser holds.
    pub fn flags(&self) -> (flags: &Vec<String>)
        ensures
            texts(flags@) == self@.flags,
    {
        &self.flags
    }
}

} // verus!
