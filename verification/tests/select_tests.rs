use rfr::scrape::Record;
use rfr::select::{MAX_TO_DISPLAY, choose_step, display, find_exact, invalid_choice_line, prompt_line};
use rfr::source::{absolutize, zbmath_query_url};
use rfr::text::{contains_sub, has_prefix, parse_trimmed_number, usize_to_string};

fn record(title: &str) -> Record {
    Record { title: title.to_string(), bib_url: format!("https://zbmath.org/bibtex/{title}.bib") }
}

#[test]
fn exact_match_is_case_insensitive_and_first() {
    let records = vec![
        record("Alpha"),
        record("Being Correct"),
        record("BEING CORRECT"),
    ];
    assert_eq!(find_exact(&records, "being correct"), Some(1));
}

#[test]
fn exact_match_absent_yields_nothing() {
    let records = vec![record("Alpha"), record("Beta")];
    assert_eq!(find_exact(&records, "being correct"), None);
}

#[test]
fn display_single_record_announces_it() {
    let records = vec![record("Example Paper")];
    let plan = display(&records);
    assert_eq!(plan.count, 1);
    assert_eq!(plan.lines.len(), 2);
    assert_eq!(plan.lines[0], "Precisely one article found:");
    assert_eq!(plan.lines[1], "\tExample Paper");
}

#[test]
fn display_few_records_numbers_them() {
    let records = vec![record("A"), record("B"), record("C")];
    let plan = display(&records);
    assert_eq!(plan.count, 3);
    assert_eq!(plan.lines, vec!["1)\tA", "2)\tB", "3)\tC"]);
}

#[test]
fn display_caps_at_twenty_with_notice() {
    let records: Vec<Record> = (0..25).map(|i| record(&format!("T{i}"))).collect();
    let plan = display(&records);
    assert_eq!(plan.count, MAX_TO_DISPLAY);
    assert_eq!(plan.lines.len(), 21);
    assert_eq!(
        plan.lines[0],
        "Displaying only the first 20 out of 25 articles."
    );
    assert_eq!(plan.lines[1], "1)\tT0");
    assert_eq!(plan.lines[20], "20)\tT19");
}

#[test]
fn choose_step_accepts_in_range() {
    assert_eq!(choose_step("7", 20), Some(6));
    assert_eq!(choose_step(" 7\n", 20), Some(6));
    assert_eq!(choose_step("+3", 20), Some(2));
    assert_eq!(choose_step("1", 1), Some(0));
    assert_eq!(choose_step("20", 20), Some(19));
}

#[test]
fn choose_step_rejects_out_of_range_and_junk() {
    assert_eq!(choose_step("0", 20), None);
    assert_eq!(choose_step("21", 20), None);
    assert_eq!(choose_step("25", 20), None);
    assert_eq!(choose_step("abc", 20), None);
    assert_eq!(choose_step("", 20), None);
    assert_eq!(choose_step("  ", 20), None);
    assert_eq!(choose_step("-1", 20), None);
    assert_eq!(choose_step("2 0", 20), None);
    assert_eq!(choose_step("99999999999999999999999999", 20), None);
}

#[test]
fn parse_matches_standard_library() {
    for s in ["7", " 42 ", "+0", "007", "x", "", "+", "9 9", "\u{3000}5\u{3000}"] {
        assert_eq!(parse_trimmed_number(s), s.trim().parse::<usize>().ok(), "input {s:?}");
    }
}

#[test]
fn prompt_and_rebuke_lines() {
    assert_eq!(prompt_line(20), "Make a choice (1-20): ");
    assert_eq!(prompt_line(3), "Make a choice (1-3): ");
    assert_eq!(invalid_choice_line(), "Invalid choice. Try again.");
}

#[test]
fn decimal_rendering() {
    assert_eq!(usize_to_string(0), "0");
    assert_eq!(usize_to_string(7), "7");
    assert_eq!(usize_to_string(20), "20");
    assert_eq!(usize_to_string(207), "207");
    assert_eq!(usize_to_string(usize::MAX), usize::MAX.to_string());
}

#[test]
fn substring_and_prefix_search() {
    assert!(contains_sub("a listitem here", "listitem"));
    assert!(!contains_sub("a list item here", "listitem"));
    assert!(contains_sub("anything", ""));
    assert!(has_prefix("https://zbmath.org", "https://"));
    assert!(!has_prefix("bibtex/1.bib", "https://"));
}

#[test]
fn query_url_strict_and_loose() {
    assert_eq!(
        zbmath_query_url("being correct", false),
        "https://zbmath.org/?q=ti%3A%22being+correct%22"
    );
    assert_eq!(
        zbmath_query_url("being correct", true),
        "https://zbmath.org/?q=ti%3Abeing+correct"
    );
}

#[test]
fn absolutize_prefixes_only_relative_links() {
    assert_eq!(absolutize("bibtex/1.bib"), "https://zbmath.org/bibtex/1.bib");
    assert_eq!(absolutize("https://elsewhere.org/x.bib"), "https://elsewhere.org/x.bib");
    assert_eq!(absolutize("http://elsewhere.org/x.bib"), "http://elsewhere.org/x.bib");
}
