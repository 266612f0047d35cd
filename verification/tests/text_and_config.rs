use minigrep::contains_substring;
use minigrep::matching_lines;
use minigrep::split_lines;
use minigrep::Config;

#[test]
fn split_keeps_carriage_returns() {
    // Lines are split at newlines only: a carriage return before the newline
    // stays at the end of its line, untrimmed.
    assert_eq!(vec!["one\r", "two"], split_lines("one\r\ntwo"));
}

#[test]
fn split_at_every_newline() {
    assert_eq!(vec!["a", "", "b"], split_lines("a\n\nb"));
    assert_eq!(vec!["only"], split_lines("only"));
    assert_eq!(vec![""], split_lines("\n"));
    assert!(split_lines("").is_empty());
}

#[test]
fn carriage_return_is_an_exact_character() {
    let contents = "one\r\ntwo";

    assert_eq!(vec!["one\r"], matching_lines("e\r", contents, true));
    assert_eq!(vec!["one\r", "two"], matching_lines("o", contents, true));
}

#[test]
fn substring_containment() {
    assert!(contains_substring("hello world", "lo wo"));
    assert!(contains_substring("hello", "hello"));
    assert!(contains_substring("hello", ""));
    assert!(contains_substring("", ""));
    assert!(!contains_substring("hello", "hello!"));
    assert!(!contains_substring("", "x"));
    assert!(!contains_substring("abc", "cb"));
}

#[test]
fn matching_lines_selects_the_mode() {
    let contents = "Rust\nrust";

    assert_eq!(vec!["rust"], matching_lines("rust", contents, true));
    assert_eq!(vec!["Rust", "rust"], matching_lines("rust", contents, false));
}

#[test]
fn config_from_full_arguments() {
    let args = vec![
        String::from("minigrep"),
        String::from("needle"),
        String::from("haystack.txt"),
    ];
    let config = Config::new(args, true).unwrap();

    assert_eq!(config.query, "needle");
    assert_eq!(config.filename, "haystack.txt");
    assert!(config.case_sensitive);
}

#[test]
fn config_keeps_the_case_flag() {
    let args = vec![String::from("minigrep"), String::from("q"), String::from("f")];
    let config = Config::new(args, false).unwrap();

    assert!(!config.case_sensitive);
}

#[test]
fn config_missing_query() {
    let args = vec![String::from("minigrep")];

    assert_eq!(
        Config::new(args, true).err(),
        Some("missing argument (query string)")
    );
    assert_eq!(
        Config::new(Vec::new(), true).err(),
        Some("missing argument (query string)")
    );
}

#[test]
fn config_missing_filename() {
    let args = vec![String::from("minigrep"), String::from("needle")];

    assert_eq!(
        Config::new(args, true).err(),
        Some("missing argument (file name)")
    );
}
