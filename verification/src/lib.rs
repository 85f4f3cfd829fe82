//! A command-line tokenizer: one line of text in, positional arguments and
//! flags out.
//!
//! A line is split on whitespace into tokens. A token that starts with `--`
//! is a long flag, one that starts with `-` a cluster of short flags, one
//! that starts with a quote opens a quoted span, and any other token is a
//! positional argument. Nothing is ever rejected: a bare `-` gives no flag,
//! a bare `--` gives a flag with an empty name.
//!
//! Three things are worth knowing before use:
//!
//! - A quoted span runs from a quote token up to and including the next
//!   token that holds the same quote character. Its text is put together by
//!   [`quoted::quoted_span`], but it is not yet an argument: a span adds
//!   nothing to either output.
//! - In the text of a double-quoted span each backslash is read against the
//!   character that follows it; see [`escape::resolve_escapes`].
//! - [`ArgParser::parse`] replaces what the outputs held, so parsing twice
//!   gives the same outputs as parsing once.
//!
//! Strings are read by character position, which takes time linear in the
//! position; this suits the short lines of an interactive shell.

pub mod escape;
pub mod kinds;
pub mod laws;
pub mod parser;
pub mod quoted;
pub mod text;
pub mod tokens;

pub use escape::resolve_escapes;
pub use parser::ArgParser;
