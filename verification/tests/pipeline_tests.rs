use rfr::Config;
use rfr::pipeline::{Outcome, SourceRequest, plan_response, source_request};

const SINGLE_PAGE: &str = r#"<html><body>
<div class="content-item">
  <div class="item">
    <div class="title"><strong>Example Paper.</strong></div>
    <a class="bib" href="bibtex/0001.bib">BibTeX</a>
  </div>
</div>
</body></html>"#;

const MULTI_PAGE: &str = r#"<html><body>
<ul class="listitem">
<div class="content-result">
  <div class="list">
    <div class="title"><strong>Being Correct.</strong></div>
    <a class="bib" href="bibtex/0001.bib">BibTeX</a>
  </div>
  <div class="list">
    <div class="title"><strong>Being Correct Is Not Enough.</strong></div>
    <a class="bib" href="bibtex/0002.bib">BibTeX</a>
  </div>
</div>
</ul>
</body></html>"#;

const EMPTY_PAGE: &str = r#"<html><body><p>Your query produced no results.</p></body></html>"#;

fn config(phrase: &str) -> Config {
    Config {
        search_phrase: phrase.to_string(),
        read_from_file: true,
        exact_title: false,
        save_locally: false,
        search_loosely: false,
        init_seg: false,
        seg: false,
        output_file: None,
        input_file: Some("tests/response.rfr".to_string()),
    }
}

#[test]
fn exit_on_no_articles() {
    let cfg = config("being correct");
    match plan_response(&cfg, EMPTY_PAGE) {
        Outcome::NoArticles { line } => assert_eq!(line, "No articles found."),
        _ => panic!("expected the no-articles outcome"),
    }
}

#[test]
fn default_found() {
    let cfg = config("being correct is not enough");
    match plan_response(&cfg, SINGLE_PAGE) {
        Outcome::Select { articles, pre_lines, chosen, count } => {
            assert_eq!(articles.len(), 1);
            assert!(pre_lines[0].contains("one article found"));
            assert_eq!(pre_lines.len(), 2);
            assert_eq!(chosen, Some(0));
            assert_eq!(count, 1);
        },
        _ => panic!("expected a selection outcome"),
    }
}

#[test]
fn default_not_found() {
    let cfg = config("being correct not enough");
    match plan_response(&cfg, EMPTY_PAGE) {
        Outcome::NoArticles { line } => assert!(line.contains("No articles found")),
        _ => panic!("expected the no-articles outcome"),
    }
}

#[test]
fn single_record_is_chosen_without_prompt() {
    let cfg = config("anything at all");
    match plan_response(&cfg, SINGLE_PAGE) {
        Outcome::Select { pre_lines, chosen, .. } => {
            assert_eq!(chosen, Some(0));
            assert_eq!(pre_lines[0], "Precisely one article found:");
            assert_eq!(pre_lines[1], "\tExample Paper");
        },
        _ => panic!("expected a selection outcome"),
    }
}

#[test]
fn exact_title_picks_the_match() {
    let mut cfg = config("being correct is not enough");
    cfg.exact_title = true;
    match plan_response(&cfg, MULTI_PAGE) {
        Outcome::Select { pre_lines, chosen, .. } => {
            assert_eq!(chosen, Some(1));
            assert!(pre_lines.is_empty());
        },
        _ => panic!("expected a selection outcome"),
    }
}

#[test]
fn exact_title_falls_back_to_interactive() {
    let mut cfg = config("being correct");
    cfg.search_phrase = "this title does not exist".to_string();
    cfg.exact_title = true;
    match plan_response(&cfg, MULTI_PAGE) {
        Outcome::Select { pre_lines, chosen, count, .. } => {
            assert_eq!(pre_lines[0], "No exact match found!");
            assert_eq!(pre_lines[1], "1)\tBeing Correct");
            assert_eq!(pre_lines[2], "2)\tBeing Correct Is Not Enough");
            assert_eq!(pre_lines.len(), 3);
            assert_eq!(chosen, None);
            assert_eq!(count, 2);
        },
        _ => panic!("expected a selection outcome"),
    }
}

#[test]
fn save_mode_hands_back_the_raw_response() {
    for page in [SINGLE_PAGE, MULTI_PAGE, EMPTY_PAGE] {
        let mut cfg = config("being correct");
        cfg.save_locally = true;
        cfg.output_file = Some("saved.rfr".to_string());
        match plan_response(&cfg, page) {
            Outcome::Save { path, content } => {
                assert_eq!(path, "saved.rfr");
                assert_eq!(content.as_bytes(), page.as_bytes());
            },
            _ => panic!("expected the save outcome"),
        }
    }
}

#[test]
fn source_request_names_the_file_or_the_url() {
    let cfg = config("being correct");
    match source_request(&cfg) {
        SourceRequest::ReadFile { path } => assert_eq!(path, "tests/response.rfr"),
        _ => panic!("expected a file read"),
    }
    let mut remote = config("being correct");
    remote.read_from_file = false;
    remote.input_file = None;
    match source_request(&remote) {
        SourceRequest::FetchRemote { url } => {
            assert_eq!(url, "https://zbmath.org/?q=ti%3A%22being+correct%22")
        },
        _ => panic!("expected a remote fetch"),
    }
}
