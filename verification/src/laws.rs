//! What holds of every line and of every sequence of tokens.

use vstd::prelude::*;
use crate::kinds::{kind_of, short_flags, token_args, token_flags, TokenKind};
use crate::parser::{args_of, flags_of, outside_spans, parsed_args, parsed_flags};
use crate::text::whitespace;
use crate::tokens::{blank, spaceless, tokens};

verus! {

/// The flags that token `i` of `tokens` adds: those it stands for where it is
/// read on its own, none where it lies in a quoted span.
pub open spec fn added_flags(tokens: Seq<Seq<char>>, i: int) -> Seq<Seq<char>> {
    if outside_spans(tokens, i) {
        token_flags(tokens[i])
    } else {
        Seq::empty()
    }
}

/// The positional arguments that token `i` of `tokens` adds: those it stands
/// for where it is read on its own, none where it lies in a quoted span.
pub open spec fn added_args(tokens: Seq<Seq<char>>, i: int) -> Seq<Seq<char>> {
    if outside_spans(tokens, i) {
        token_args(tokens[i])
    } else {
        Seq::empty()
    }
}

/// A line that is empty or holds nothing but whitespace has no tokens, and
/// so neither positional arguments nor flags.
pub proof fn blank_line_gives_nothing(line: Seq<char>)
    requires
        blank(line),
    ensures
        tokens(line) == Seq::<Seq<char>>::empty(),
        parsed_args(line) == Seq::<Seq<char>>::empty(),
        parsed_flags(line) == Seq::<Seq<char>>::empty(),
    decreases line.len(),
{
    if line.len() > 0 {
        blank_line_gives_nothing(line.drop_last());
    }
}

/// Every token of a line has at least one character, and none of its
/// characters is whitespace. A line that does not end in whitespace ends in
/// its last token.
pub proof fn tokens_are_words(line: Seq<char>)
    ensures
        forall|i: int|
            0 <= i < tokens(line).len() ==> (#[trigger] tokens(line)[i]).len() > 0 && spaceless(
                tokens(line)[i],
            ),
        line.len() > 0 && !whitespace(line.last()) ==> tokens(line).len() > 0 && tokens(
            line,
        ).last().last() == line.last(),
    decreases line.len(),
{
    if line.len() > 0 {
        let before = tokens(line.drop_last());
        tokens_are_words(line.drop_last());
        // Every token of the line is a token of the shorter line, but for the
        // last, which may be new or longer by one character.
        assert forall|i: int| 0 <= i < tokens(line).len() implies (#[trigger] tokens(
            line,
        )[i]).len() > 0 && spaceless(tokens(line)[i]) by {
            if i < before.len() - 1 {
                assert(tokens(line)[i] == before[i]);
            }
        }
    }
}

/// Reading one more token adds what that token adds, after everything that
/// the tokens before it gave.
pub proof fn each_token_adds_at_the_end(tokens: Seq<Seq<char>>, i: int)
    requires
        0 <= i < tokens.len(),
    ensures
        flags_of(tokens.take(i + 1)) == flags_of(tokens.take(i)) + added_flags(tokens, i),
        args_of(tokens.take(i + 1)) == args_of(tokens.take(i)) + added_args(tokens, i),
{
    assert(tokens.take(i + 1).drop_last() =~= tokens.take(i));
}

/// The flags are what the tokens add, token by token in the order of the
/// tokens, and so are the positional arguments: within each output the order
/// of the line is kept, whatever the other output holds.
pub proof fn outputs_keep_token_order(tokens: Seq<Seq<char>>)
    ensures
        flags_of(tokens) == Seq::new(tokens.len(), |i: int| added_flags(tokens, i)).flatten(),
        args_of(tokens) == Seq::new(tokens.len(), |i: int| added_args(tokens, i)).flatten(),
    decreases tokens.len(),
{
    let flags = Seq::new(tokens.len(), |i: int| added_flags(tokens, i));
    let args = Seq::new(tokens.len(), |i: int| added_args(tokens, i));
    if tokens.len() > 0 {
        let before = tokens.drop_last();
        let last = tokens.len() - 1;
        outputs_keep_token_order(before);
        let flags_before = Seq::new(before.len(), |i: int| added_flags(before, i));
        let args_before = Seq::new(before.len(), |i: int| added_args(before, i));
        assert forall|i: int| 0 <= i < last implies added_flags(tokens, i) == added_flags(
            before,
            i,
        ) && added_args(tokens, i) == added_args(before, i) by {
            assert(tokens.take(i) =~= before.take(i));
        }
        assert(flags =~= flags_before.push(added_flags(tokens, last)));
        assert(args =~= args_before.push(added_args(tokens, last)));
        flags_before.lemma_flatten_push(added_flags(tokens, last));
        args_before.lemma_flatten_push(added_args(tokens, last));
        each_token_adds_at_the_end(tokens, last);
    }
}

/// What the tokens up to some point have given stays in front: the flags of
/// the first `i` tokens begin the flags of all of them, and so for the
/// positional arguments.
pub proof fn outputs_only_grow(tokens: Seq<Seq<char>>, i: int)
    requires
        0 <= i <= tokens.len(),
    ensures
        flags_of(tokens.take(i)).is_prefix_of(flags_of(tokens)),
        args_of(tokens.take(i)).is_prefix_of(args_of(tokens)),
    decreases tokens.len() - i,
{
    if i == tokens.len() {
        assert(tokens.take(i) =~= tokens);
    } else {
        each_token_adds_at_the_end(tokens, i);
        outputs_only_grow(tokens, i + 1);
    }
}

/// A short flag cluster that is read on its own adds one flag for each
/// character after its hyphen, in the order of the characters and each of
/// one character, and no positional argument.
pub proof fn short_cluster_adds_its_characters(tokens: Seq<Seq<char>>, i: int)
    requires
        0 <= i < tokens.len(),
        outside_spans(tokens, i),
        kind_of(tokens[i]) == TokenKind::ShortFlags,
    ensures
        flags_of(tokens.take(i + 1)) == flags_of(tokens.take(i)) + short_flags(tokens[i].skip(1)),
        short_flags(tokens[i].skip(1)).len() == tokens[i].len() - 1,
        forall|k: int|
            0 <= k < tokens[i].len() - 1 ==> #[trigger] short_flags(tokens[i].skip(1))[k]
                == seq![tokens[i][k + 1]],
        args_of(tokens.take(i + 1)) == args_of(tokens.take(i)),
{
    each_token_adds_at_the_end(tokens, i);
}

/// A long flag that is read on its own adds one flag, its text after the two
/// hyphens as it stands, and no positional argument.
pub proof fn long_flag_adds_its_name(tokens: Seq<Seq<char>>, i: int)
    requires
        0 <= i < tokens.len(),
        outside_spans(tokens, i),
        kind_of(tokens[i]) == TokenKind::LongFlag,
    ensures
        flags_of(tokens.take(i + 1)) == flags_of(tokens.take(i)).push(tokens[i].skip(2)),
        args_of(tokens.take(i + 1)) == args_of(tokens.take(i)),
{
    each_token_adds_at_the_end(tokens, i);
}

/// A token that is read on its own and starts with neither a hyphen nor a
/// quote adds itself as one positional argument, and no flag.
pub proof fn positional_token_adds_itself(tokens: Seq<Seq<char>>, i: int)
    requires
        0 <= i < tokens.len(),
        outside_spans(tokens, i),
        kind_of(tokens[i]) == TokenKind::Positional,
    ensures
        args_of(tokens.take(i + 1)) == args_of(tokens.take(i)).push(tokens[i]),
        flags_of(tokens.take(i + 1)) == flags_of(tokens.take(i)),
{
    each_token_adds_at_the_end(tokens, i);
}

/// Whether no token of `tokens` starts with a quote, so that no span is ever
/// opened.
pub open spec fn quote_free(tokens: Seq<Seq<char>>) -> bool {
    forall|k: int|
        0 <= k < tokens.len() ==> kind_of(#[trigger] tokens[k]) != TokenKind::DoubleQuote
            && kind_of(tokens[k]) != TokenKind::SingleQuote
}

/// Where no token starts with a quote, every token is read on its own.
pub proof fn no_quote_token_no_span(tokens: Seq<Seq<char>>, i: int)
    requires
        0 <= i <= tokens.len(),
        quote_free(tokens),
    ensures
        outside_spans(tokens, i),
    decreases i,
{
    if i > 0 {
        no_quote_token_no_span(tokens, i - 1);
        assert(tokens.take(i).drop_last() =~= tokens.take(i - 1));
    }
}

/// Where no token starts with a quote, every token counts: the positional
/// arguments are the tokens that start with neither a hyphen nor a quote, as
/// they stand and in their order, and the flags are the flags of all the
/// tokens, in their order.
pub proof fn without_quotes_every_token_counts(tokens: Seq<Seq<char>>)
    requires
        quote_free(tokens),
    ensures
        args_of(tokens) == tokens.filter(
            |token: Seq<char>| kind_of(token) == TokenKind::Positional,
        ),
        flags_of(tokens) == tokens.map_values(|token: Seq<char>| token_flags(token)).flatten(),
    decreases tokens.len(),
{
    let flags = |token: Seq<char>| token_flags(token);
    reveal(Seq::filter);
    if tokens.len() > 0 {
        let before = tokens.drop_last();
        let last = tokens.last();
        assert(quote_free(before)) by {
            assert forall|k: int| 0 <= k < before.len() implies kind_of(#[trigger] before[k])
                != TokenKind::DoubleQuote && kind_of(before[k]) != TokenKind::SingleQuote by {
                assert(before[k] == tokens[k]);
            }
        }
        without_quotes_every_token_counts(before);
        no_quote_token_no_span(before, before.len() as int);
        assert(before.take(before.len() as int) =~= before);
        assert(tokens.map_values(flags) =~= before.map_values(flags).push(token_flags(last)));
        before.map_values(flags).lemma_flatten_push(token_flags(last));
    }
}

} // verus!
