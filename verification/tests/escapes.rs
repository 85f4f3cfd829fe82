//! Escape resolution: each backslash is read against the character after it.

use argparser::resolve_escapes;

#[test]
fn backslash_n_is_a_newline() {
    assert_eq!(resolve_escapes("\\n"), "\n");
}

#[test]
fn each_backslash_reads_its_own_successor() {
    // Read against the second character of the whole string, both would be
    // newlines.
    assert_eq!(resolve_escapes("\\n\\t"), "\n\t");
    assert_eq!(resolve_escapes("x\\ry\\tz\\n"), "x\ry\tz\n");
}

#[test]
fn tab_and_carriage_return() {
    assert_eq!(resolve_escapes("\\t"), "\t");
    assert_eq!(resolve_escapes("\\r"), "\r");
}

#[test]
fn doubled_backslash_is_one_backslash() {
    assert_eq!(resolve_escapes("\\\\"), "\\");
    assert_eq!(resolve_escapes("\\\\n"), "\\n");
    assert_eq!(resolve_escapes("\\\\\\n"), "\\\n");
}

#[test]
fn backtick_keeps_its_backslash() {
    assert_eq!(resolve_escapes("\\`"), "\\`");
    assert_eq!(resolve_escapes("a\\`b"), "a\\`b");
}

#[test]
fn other_escaped_character_loses_the_backslash() {
    assert_eq!(resolve_escapes("\\x"), "x");
    assert_eq!(resolve_escapes("\\\""), "\"");
    assert_eq!(resolve_escapes("\\ä"), "ä");
}

#[test]
fn plain_text_is_kept() {
    assert_eq!(resolve_escapes("plain"), "plain");
    assert_eq!(resolve_escapes("n"), "n");
    assert_eq!(resolve_escapes("a\\nb"), "a\nb");
}

#[test]
fn empty_string_resolves_to_itself() {
    assert_eq!(resolve_escapes(""), "");
}

#[test]
fn lone_backslash_is_passed_through() {
    assert_eq!(resolve_escapes("\\"), "\\");
}

#[test]
fn trailing_backslash_is_passed_through() {
    assert_eq!(resolve_escapes("ab\\"), "ab\\");
    assert_eq!(resolve_escapes("\\n\\"), "\n\\");
}
