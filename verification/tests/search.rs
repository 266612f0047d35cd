use minigrep::search;
use minigrep::search_case_insensitive;

#[test]
fn case_sensitive() {
    let query = "grep";
    let contents = "\
minigrep
A tiny version of grep built in Rust.

This tool was built only for education purposes using The Rust Book.

The word \"Grep\" shouldn't match, because the search is case-sensitive.";
    let expected = vec!["minigrep", "A tiny version of grep built in Rust."];

    assert_eq!(expected, search(query, contents));
}

#[test]
fn case_insensitive() {
    let query = "rUsT";
    let contents = "\
minigrep
A tiny version of grep built in Rust.

This tool was built only for education purposes using The Rust Book.";
    let expected = vec![
        "A tiny version of grep built in Rust.",
        "This tool was built only for education purposes using The Rust Book.",
    ];

    assert_eq!(expected, search_case_insensitive(query, contents));
}

#[test]
fn sensitive_returns_matching_lines_in_order() {
    let contents = "minigrep\nA tiny version of grep.\n\nSomething else.";
    let expected = vec!["minigrep", "A tiny version of grep."];

    assert_eq!(expected, search("grep", contents));
}

#[test]
fn insensitive_returns_original_text() {
    let contents = "minigrep\nA tiny version of grep built in Rust.\nDocs using The Rust Book.";
    let expected = vec![
        "A tiny version of grep built in Rust.",
        "Docs using The Rust Book.",
    ];

    assert_eq!(expected, search_case_insensitive("rUsT", contents));
}

#[test]
fn sensitive_excludes_capitalized_variant() {
    let contents = "Grep is capitalized here\nplain grep here";

    assert_eq!(vec!["plain grep here"], search("grep", contents));
}

#[test]
fn sensitive_mixed_case_query_needs_exact_occurrence() {
    let contents = "rust\nRust\nrUsT";

    assert_eq!(vec!["rUsT"], search("rUsT", contents));
}

#[test]
fn insensitive_folds_both_sides() {
    let contents = "xabcx\nnothing here";

    assert_eq!(vec!["xabcx"], search_case_insensitive("ABC", contents));
}

#[test]
fn empty_query_matches_every_line() {
    let contents = "first\nsecond\nthird";
    let all = vec!["first", "second", "third"];

    assert_eq!(all, search("", contents));
    assert_eq!(all, search_case_insensitive("", contents));
}

#[test]
fn empty_document_yields_nothing() {
    assert!(search("anything", "").is_empty());
    assert!(search_case_insensitive("anything", "").is_empty());
    assert!(search("", "").is_empty());
    assert!(search_case_insensitive("", "").is_empty());
}

#[test]
fn blank_lines_participate_in_matching() {
    let contents = "a\n\nb";

    assert_eq!(vec!["a", "", "b"], search("", contents));
    assert_eq!(vec!["a", "", "b"], search_case_insensitive("", contents));
}

#[test]
fn trailing_newline_adds_no_line() {
    assert_eq!(vec!["a"], search("", "a\n"));
    assert_eq!(vec!["a", "b"], search("", "a\nb\n"));
}

#[test]
fn repeated_lines_appear_once_per_occurrence() {
    let contents = "dup\nother\ndup";

    assert_eq!(vec!["dup", "dup"], search("dup", contents));
}
