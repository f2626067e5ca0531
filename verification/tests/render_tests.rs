use minigrep::format_results;
use minigrep::render::u32_to_string;
use minigrep::GrepOccourence;
use minigrep::GrepResult;

#[test]
fn format_known_result_round_trip() {
    colored::control::set_override(false);
    let result = GrepResult::new(
        "sample.txt".to_string(),
        vec![
            GrepOccourence::new(2, "safe, fast, productive.".to_string()),
            GrepOccourence::new(3, "duct.".to_string()),
        ],
    );

    assert_eq!(
        result.render(),
        "sample.txt\n2: safe, fast, productive.\n3: duct."
    );
}

#[test]
fn render_occurrence_plain() {
    colored::control::set_override(false);
    let occ = GrepOccourence::new(2, "safe, fast, productive.".to_string());

    assert_eq!(occ.render(), "2: safe, fast, productive.");
}

#[test]
fn render_large_line_number() {
    colored::control::set_override(false);
    let occ = GrepOccourence::new(1234567890, "x".to_string());

    assert_eq!(occ.render(), "1234567890: x");
}

#[test]
fn decimal_rendering_is_exact() {
    assert_eq!(u32_to_string(0), "0");
    assert_eq!(u32_to_string(7), "7");
    assert_eq!(u32_to_string(10), "10");
    assert_eq!(u32_to_string(4294967295), "4294967295");
}

#[test]
fn render_occurrence_colored() {
    colored::control::set_override(true);
    let occ = GrepOccourence::new(2, "duct.".to_string());

    assert_eq!(occ.render(), "\u{1b}[32m2\u{1b}[0m: duct.");
}

#[test]
fn render_result_colored() {
    colored::control::set_override(true);
    let result = GrepResult::new(
        "sample.txt".to_string(),
        vec![GrepOccourence::new(1, "duct".to_string())],
    );

    assert_eq!(
        result.render(),
        "\u{1b}[36msample.txt\u{1b}[0m\n\u{1b}[32m1\u{1b}[0m: duct"
    );
}

#[test]
fn format_results_joins_blocks_in_order() {
    colored::control::set_override(false);
    let results = vec![
        GrepResult::new(
            "a.txt".to_string(),
            vec![GrepOccourence::new(1, "x".to_string())],
        ),
        GrepResult::new(
            "b.txt".to_string(),
            vec![GrepOccourence::new(2, "y".to_string())],
        ),
    ];

    assert_eq!(format_results(&results), "a.txt\n1: x\nb.txt\n2: y\n");
}

#[test]
fn format_results_of_nothing_is_empty() {
    let results: Vec<GrepResult> = Vec::new();

    assert_eq!(format_results(&results), "");
}
