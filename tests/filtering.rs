use dogrep::text::{split_lines, occurs};
use dogrep::{
    count_message, count_mode, matcher, output_lines, search_mode, select_folded, Config,
    ConfigError,
};

fn config(pattern: &str, ignore_case: bool, reversed: bool, line_number: bool, count: bool) -> Config {
    Config {
        file_path: String::from("poem.txt"),
        pattern: String::from(pattern),
        ignore_case,
        reversed,
        line_number,
        count,
    }
}

fn args(tokens: &[&str]) -> Vec<String> {
    tokens.iter().map(|t| t.to_string()).collect()
}

fn chars(s: &str) -> Vec<char> {
    s.chars().collect()
}

#[test]
fn line_numbers_prefix_selected_lines() {
    let out = search_mode(config("a", false, false, true, false), "a\nb\na");
    assert_eq!(out, vec!["1 : a".to_string(), "3 : a".to_string()]);
}

#[test]
fn line_numbers_of_two_digits() {
    let content = "x\nx\nx\nx\nx\nx\nx\nx\nx\nx\nhit\nx";
    let out = search_mode(config("hit", false, false, true, false), content);
    assert_eq!(out, vec!["11 : hit".to_string()]);
}

#[test]
fn ignore_case_selects_every_spelling() {
    let out = search_mode(config("hello", true, false, false, false), "Hello\nhello\nHELLO");
    assert_eq!(out, vec!["Hello".to_string(), "hello".to_string(), "HELLO".to_string()]);
}

#[test]
fn exact_case_selects_only_the_literal_line() {
    let out = search_mode(config("hello", false, false, false, false), "Hello\nhello\nHELLO");
    assert_eq!(out, vec!["hello".to_string()]);
}

#[test]
fn ignore_case_folds_the_pattern_too() {
    let out = search_mode(config("HeLLo", true, false, false, false), "say hello\nbye");
    assert_eq!(out, vec!["say hello".to_string()]);
}

#[test]
fn empty_pattern_selects_every_line() {
    let out = search_mode(config("", false, false, false, false), "one\n\nthree");
    assert_eq!(out, vec!["one".to_string(), "".to_string(), "three".to_string()]);
    assert_eq!(count_mode(config("", true, false, false, true), "one\n\nthree"), 3);
}

#[test]
fn empty_pattern_reversed_selects_nothing() {
    let out = search_mode(config("", false, true, false, false), "one\n\nthree");
    assert!(out.is_empty());
    assert_eq!(count_mode(config("", true, true, false, true), "one\n\nthree"), 0);
}

#[test]
fn selected_lines_hold_the_pattern_and_others_do_not() {
    let content = "apple pie\nbanana\ncrab apple\ncherry";
    let out = search_mode(config("apple", false, false, false, false), content);
    assert_eq!(out, vec!["apple pie".to_string(), "crab apple".to_string()]);
}

#[test]
fn reversed_selects_the_complement() {
    let content = "apple pie\nbanana\ncrab apple\ncherry";
    let out = search_mode(config("apple", false, true, false, false), content);
    assert_eq!(out, vec!["banana".to_string(), "cherry".to_string()]);
    let numbered = search_mode(config("apple", false, true, true, false), content);
    assert_eq!(numbered, vec!["2 : banana".to_string(), "4 : cherry".to_string()]);
}

#[test]
fn search_twice_gives_the_same_lines() {
    let content = "ab\ncd\nabab";
    let first = search_mode(config("ab", false, false, true, false), content);
    let second = search_mode(config("ab", false, false, true, false), content);
    assert_eq!(first, second);
}

#[test]
fn count_equals_search_length() {
    let content = "ab\ncd\nabab\nba";
    let total = count_mode(config("ab", false, false, false, true), content);
    let lines = search_mode(config("ab", false, false, false, false), content);
    assert_eq!(total, 2);
    assert_eq!(total, lines.len());
}

#[test]
fn empty_content_selects_nothing() {
    assert!(search_mode(config("a", false, false, true, false), "").is_empty());
    assert!(search_mode(config("a", false, true, false, false), "").is_empty());
    assert_eq!(count_mode(config("", false, false, false, true), ""), 0);
}

#[test]
fn matcher_gives_zero_based_indices() {
    let m = matcher(&config("b", false, false, false, false), "a\nb\nc\nab");
    assert_eq!(m, vec![(1, "b".to_string()), (3, "ab".to_string())]);
}

#[test]
fn lines_end_at_newline_or_crlf() {
    let lines = split_lines(&chars("a\r\nb\n\nc\r"));
    assert_eq!(lines, vec![chars("a"), chars("b"), chars(""), chars("c\r")]);
    assert_eq!(split_lines(&chars("x\n")), vec![chars("x")]);
    assert_eq!(split_lines(&chars("\n")), vec![chars("")]);
    assert!(split_lines(&chars("")).is_empty());
}

#[test]
fn trailing_newline_adds_no_line() {
    let out = search_mode(config("", false, false, true, false), "a\nb\n");
    assert_eq!(out, vec!["1 : a".to_string(), "2 : b".to_string()]);
}

#[test]
fn substring_occurrence() {
    assert!(occurs(&chars("hello"), &chars("ll")));
    assert!(occurs(&chars("hello"), &chars("")));
    assert!(occurs(&chars("hello"), &chars("hello")));
    assert!(!occurs(&chars("hello"), &chars("hellos")));
    assert!(!occurs(&chars("hello"), &chars("lo!")));
}

#[test]
fn select_with_folded_forms() {
    let c = config("AB", true, false, false, false);
    assert!(select_folded(&c, &chars("xyz"), &chars("ab"), &chars("xaby")));
    assert!(!select_folded(&c, &chars("xaby"), &chars("ab"), &chars("xyz")));
    let r = config("AB", true, true, false, false);
    assert!(!select_folded(&r, &chars("xyz"), &chars("ab"), &chars("xaby")));
}

#[test]
fn count_message_reads_the_total() {
    assert_eq!(
        count_message(12),
        "There is(are) 12 line(s) in the file that match the pattern."
    );
    assert_eq!(
        count_message(0),
        "There is(are) 0 line(s) in the file that match the pattern."
    );
}

#[test]
fn output_in_count_mode_is_one_sentence() {
    let out = output_lines(config("a", false, false, true, true), "a\nb\na");
    assert_eq!(out, vec!["There is(are) 2 line(s) in the file that match the pattern.".to_string()]);
    let lines = output_lines(config("a", false, false, true, false), "a\nb\na");
    assert_eq!(lines, vec!["1 : a".to_string(), "3 : a".to_string()]);
}

#[test]
fn build_reads_pattern_file_and_flags() {
    let c = Config::build(args(&["dogrep", "-i", "-n", "-x", "needle", "hay.txt"])).unwrap();
    assert_eq!(c.file_path, "hay.txt");
    assert_eq!(c.pattern, "needle");
    assert!(c.ignore_case);
    assert!(!c.reversed);
    assert!(c.line_number);
    assert!(!c.count);
}

#[test]
fn build_takes_the_last_two_tokens() {
    let c = Config::build(args(&["dogrep", "needle", "-v", "-c", "hay.txt"])).unwrap();
    assert_eq!(c.file_path, "hay.txt");
    assert_eq!(c.pattern, "-c");
    assert!(c.reversed);
    assert!(!c.count);
}

#[test]
fn build_plain_has_no_flags() {
    let c = Config::build(args(&["dogrep", "needle", "hay.txt"])).unwrap();
    assert!(!c.ignore_case && !c.reversed && !c.line_number && !c.count);
}

#[test]
fn build_with_too_few_tokens_fails() {
    assert_eq!(
        Config::build(args(&["dogrep", "needle"])).unwrap_err(),
        ConfigError::InsufficientArguments
    );
    assert_eq!(Config::build(args(&["dogrep"])).unwrap_err(), ConfigError::InsufficientArguments);
    assert_eq!(Config::build(Vec::new()).unwrap_err(), ConfigError::InsufficientArguments);
}

#[test]
fn error_messages() {
    assert_eq!(ConfigError::InsufficientArguments.message(), "Not enough parameters.");
    assert_eq!(ConfigError::MissingFilePath.message(), "No file path provided");
    assert_eq!(ConfigError::MissingPattern.message(), "No search pattern provided");
}
