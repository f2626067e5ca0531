use minigrep::search;
use minigrep::search_case_insensitive;
use minigrep::line_matches;
use minigrep::scan;
use minigrep::CaseMode;
use minigrep::GrepOccourence;

#[test]
fn fine_one_result() {
    let query = "duct";
    let contents = "\
Rust:
safe, fast, productive.
Pick three.
Duct tape.";
    let expected_result = vec![GrepOccourence::new(
        2,
        "safe, fast, productive.".to_string(),
    )];

    let result = search(query, contents);

    assert_eq!(&result, &Some(expected_result));
}

#[test]
fn return_none_when_no_occourence_found() {
    let query = "rust";
    let contents = "\
Rust:
safe, fast, productive.
Pick three.
Duct tape.";

    let result = search(query, contents);

    assert_eq!(result, None);
}

#[test]
fn fine_two_results_when_searching_case_insensitive() {
    let query = "Rust";
    let contents = "\
Rust:
safe, fast, productive.
Pick three.
Trust me.";
    let expected_result = vec![
        GrepOccourence::new(1, "Rust:".to_string()),
        GrepOccourence::new(4, "Trust me.".to_string()),
    ];

    let result = search_case_insensitive(query, contents);

    assert_eq!(&result, &Some(expected_result));
}

#[test]
fn lib_return_none_when_no_occourence_found() {
    let query = "roses";
    let contents = "\
Rust:
safe, fast, productive.
Pick three.
Duct tape.";

    let result = search_case_insensitive(query, contents);

    assert_eq!(result, None);
}

#[test]
fn matches_exact_substring_case_sensitive() {
    assert!(line_matches("duct", "safe, fast, productive.", CaseMode::Sensitive));
    assert!(!line_matches("Duct", "safe, fast, productive.", CaseMode::Sensitive));
}

#[test]
fn matches_uppercase_query_case_insensitive() {
    assert!(line_matches("RUST", "Trust me.", CaseMode::Insensitive));
    assert!(!line_matches("RUST", "Trust me.", CaseMode::Sensitive));
}

#[test]
fn scan_sensitive_yields_exact_record() {
    let contents = "Rust:\nsafe, fast, productive.\nPick three.\nDuct tape.";

    let records = scan(contents, "duct", CaseMode::Sensitive);

    let expected = vec![GrepOccourence::new(
        2,
        "safe, fast, productive.".to_string(),
    )];
    assert_eq!(records, expected);
}

#[test]
fn scan_insensitive_yields_both_records() {
    let contents = "Rust:\nsafe, fast, productive.\nPick three.\nTrust me.";

    let records = scan(contents, "Rust", CaseMode::Insensitive);

    let expected = vec![
        GrepOccourence::new(1, "Rust:".to_string()),
        GrepOccourence::new(4, "Trust me.".to_string()),
    ];
    assert_eq!(records, expected);
}

#[test]
fn empty_query_matches_every_line() {
    let contents = "Rust:\nsafe, fast, productive.\nPick three.\nDuct tape.";

    let result = search("", contents).unwrap();

    assert_eq!(result.len(), 4);
    assert_eq!(result[0], GrepOccourence::new(1, "Rust:".to_string()));
    assert_eq!(result[1], GrepOccourence::new(2, "safe, fast, productive.".to_string()));
    assert_eq!(result[2], GrepOccourence::new(3, "Pick three.".to_string()));
    assert_eq!(result[3], GrepOccourence::new(4, "Duct tape.".to_string()));
}

#[test]
fn empty_query_matches_every_line_insensitive() {
    let contents = "one\ntwo";

    let result = search_case_insensitive("", contents).unwrap();

    assert_eq!(result.len(), 2);
    assert_eq!(result[0], GrepOccourence::new(1, "one".to_string()));
    assert_eq!(result[1], GrepOccourence::new(2, "two".to_string()));
}

#[test]
fn carriage_returns_are_stripped_before_newlines() {
    let contents = "one\r\ntwo\r\nthree";

    let records = scan(contents, "o", CaseMode::Sensitive);

    let expected = vec![
        GrepOccourence::new(1, "one".to_string()),
        GrepOccourence::new(2, "two".to_string()),
    ];
    assert_eq!(records, expected);
}

#[test]
fn trailing_newline_yields_no_extra_line() {
    let contents = "duct\n";

    let records = scan(contents, "", CaseMode::Sensitive);

    assert_eq!(records, vec![GrepOccourence::new(1, "duct".to_string())]);
}

#[test]
fn scan_twice_gives_identical_records() {
    let contents = "Rust:\nsafe, fast, productive.\nPick three.\nDuct tape.";

    let first = scan(contents, "t", CaseMode::Insensitive);
    let second = scan(contents, "t", CaseMode::Insensitive);

    assert_eq!(first, second);
}
