//! Degenerate lines, whole scenarios, and what holds of every line.

use argparser::ArgParser;

fn parsed(line: &str) -> ArgParser {
    let mut parser = ArgParser::new(line.to_owned());
    parser.parse();
    parser
}

#[test]
fn new_parser_holds_nothing() {
    let parser = ArgParser::new("-a b".to_owned());
    assert_eq!(parser.args.len(), 0);
    assert_eq!(parser.flags.len(), 0);
}

#[test]
fn empty_line_gives_nothing() {
    let parser = parsed("");
    assert_eq!(parser.flags, Vec::<String>::new());
    assert_eq!(parser.args, Vec::<String>::new());
}

#[test]
fn whitespace_only_line_gives_nothing() {
    for line in [" ", "   ", "\t", "\n", " \t\r\n ", "\u{a0}\u{2003}"] {
        let parser = parsed(line);
        assert_eq!(parser.flags.len(), 0);
        assert_eq!(parser.args.len(), 0);
    }
}

#[test]
fn bare_hyphen_gives_no_flag() {
    let parser = parsed("-");
    assert_eq!(parser.flags.len(), 0);
    assert_eq!(parser.args.len(), 0);
}

#[test]
fn bare_double_hyphen_gives_an_empty_flag() {
    let parser = parsed("--");
    assert_eq!(parser.flags, vec![""]);
    assert_eq!(parser.args.len(), 0);
}

#[test]
fn short_cluster_gives_one_flag_per_character() {
    let parser = parsed("-abc");
    assert_eq!(parser.flags, vec!["a", "b", "c"]);
    let parser = parsed("-a-b");
    assert_eq!(parser.flags, vec!["a", "-", "b"]);
    let parser = parsed("-äß越");
    assert_eq!(parser.flags, vec!["ä", "ß", "越"]);
}

#[test]
fn long_flag_keeps_inner_hyphens() {
    let parser = parsed("--long-option");
    assert_eq!(parser.flags, vec!["long-option"]);
    let parser = parsed("---x--");
    assert_eq!(parser.flags, vec!["-x--"]);
}

#[test]
fn positional_tokens_are_kept_verbatim() {
    let parser = parsed("one tw-o th\"ree f'our =5");
    assert_eq!(parser.args, vec!["one", "tw-o", "th\"ree", "f'our", "=5"]);
    assert_eq!(parser.flags.len(), 0);
}

#[test]
fn repeated_flags_are_all_listed() {
    let parser = parsed("-a -a --a -aa");
    assert_eq!(parser.flags, vec!["a", "a", "a", "a", "a"]);
}

#[test]
fn each_output_keeps_the_order_of_the_line() {
    let parser = parsed("x -a y --b z -cd w");
    assert_eq!(parser.args, vec!["x", "y", "z", "w"]);
    assert_eq!(parser.flags, vec!["a", "b", "c", "d"]);
    let parser = parsed("-a --b -cd x y z w");
    assert_eq!(parser.args, vec!["x", "y", "z", "w"]);
    assert_eq!(parser.flags, vec!["a", "b", "c", "d"]);
}

#[test]
fn scenario_with_many_flags_and_arguments() {
    let parser = parsed(
        "argument1 -o -p -sfr --long-option another_argument --another-long-option",
    );
    assert_eq!(
        parser.flags,
        vec!["o", "p", "s", "f", "r", "long-option", "another-long-option"]
    );
    assert_eq!(parser.args, vec!["argument1", "another_argument"]);
}

#[test]
fn scenario_with_one_flag_and_one_argument() {
    let parser = parsed("-a something");
    assert_eq!(parser.flags, vec!["a"]);
    assert_eq!(parser.args, vec!["something"]);
}

#[test]
fn second_parse_gives_the_same_outputs() {
    let mut parser = parsed("-a b --c");
    parser.parse();
    assert_eq!(parser.args, vec!["b"]);
    assert_eq!(parser.flags, vec!["a", "c"]);
}

#[test]
fn parse_replaces_what_the_outputs_held() {
    let mut parser = ArgParser::new("-a b".to_owned());
    parser.args.push("stale".to_owned());
    parser.flags.push("stale".to_owned());
    parser.parse();
    assert_eq!(parser.args, vec!["b"]);
    assert_eq!(parser.flags, vec!["a"]);
}

#[test]
fn getters_give_the_outputs() {
    let parser = parsed("-a b");
    assert_eq!(parser.args(), &vec!["b".to_owned()]);
    assert_eq!(parser.flags(), &vec!["a".to_owned()]);
}

#[test]
fn parser_can_be_cloned_and_compared() {
    let parser = parsed("-a b");
    let copy = parser.clone();
    assert_eq!(parser, copy);
    assert_ne!(parser, ArgParser::new("-a b".to_owned()));
}
