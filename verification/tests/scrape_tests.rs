use rfr::scrape::{extract_from_zbmath, scrape_zbmath};

const MULTI_PAGE: &str = r#"<html><body>
<ul class="listitem">
<div class="content-result">
  <div class="list">
    <div class="title"><strong>First Article.</strong></div>
    <a class="bib" href="bibtex/0001.bib">BibTeX</a>
  </div>
  <div class="list">
    <div class="title"><strong>Second Article:</strong></div>
    <a class="bib" href="bibtex/0002.bib">BibTeX</a>
  </div>
  <div class="list">
    <div class="title"><strong>Third Article.</strong></div>
    <a class="bib" href="https://elsewhere.org/ref/3.bib">BibTeX</a>
  </div>
</div>
</ul>
</body></html>"#;

const SINGLE_PAGE: &str = r#"<html><body>
<div class="content-item">
  <div class="item">
    <div class="title"><strong>Example Paper.</strong></div>
    <a class="bib" href="bibtex/0001.bib">BibTeX</a>
  </div>
</div>
</body></html>"#;

const EMPTY_PAGE: &str = r#"<html><body><p>Your query produced no results.</p></body></html>"#;

#[test]
fn multi_result_count_and_order() {
    let records = scrape_zbmath(MULTI_PAGE);
    assert_eq!(records.len(), 3);
    assert_eq!(records[0].title, "First Article");
    assert_eq!(records[1].title, "Second Article");
    assert_eq!(records[2].title, "Third Article");
}

#[test]
fn single_result_exactly_one() {
    let records = scrape_zbmath(SINGLE_PAGE);
    assert_eq!(records.len(), 1);
    assert_eq!(records[0].title, "Example Paper");
    assert_eq!(records[0].bib_url, "https://zbmath.org/bibtex/0001.bib");
}

#[test]
fn empty_page_yields_no_records() {
    let records = scrape_zbmath(EMPTY_PAGE);
    assert_eq!(records.len(), 0);
}

#[test]
fn trailing_artifact_character_is_stripped() {
    let records = scrape_zbmath(MULTI_PAGE);
    assert!(!records[0].title.ends_with('.'));
    assert!(!records[1].title.ends_with(':'));
}

#[test]
fn relative_href_gets_site_origin() {
    let records = scrape_zbmath(MULTI_PAGE);
    assert_eq!(records[0].bib_url, "https://zbmath.org/bibtex/0001.bib");
    assert_eq!(records[1].bib_url, "https://zbmath.org/bibtex/0002.bib");
}

#[test]
fn absolute_href_kept_as_is() {
    let records = scrape_zbmath(MULTI_PAGE);
    assert_eq!(records[2].bib_url, "https://elsewhere.org/ref/3.bib");
}

#[test]
fn container_without_link_is_skipped() {
    let page = r#"<html><body>
<span class="listitem"></span>
<div class="content-result">
  <div class="list">
    <div class="title"><strong>Kept Article.</strong></div>
    <a class="bib" href="bibtex/1.bib">BibTeX</a>
  </div>
  <div class="list">
    <div class="title"><strong>Linkless Article.</strong></div>
  </div>
  <div class="list">
    <a class="bib" href="bibtex/3.bib">BibTeX</a>
  </div>
</div>
</body></html>"#;
    let records = scrape_zbmath(page);
    assert_eq!(records.len(), 1);
    assert_eq!(records[0].title, "Kept Article");
}

#[test]
fn extract_reads_one_container() {
    let fragment = r#"<div class="list">
      <div class="title"><strong>Lone Title.</strong></div>
      <a class="bib" href="bibtex/9.bib">BibTeX</a>
    </div>"#;
    let record = extract_from_zbmath(fragment).expect("well-formed container");
    assert_eq!(record.title, "Lone Title");
    assert_eq!(record.bib_url, "https://zbmath.org/bibtex/9.bib");
}

#[test]
fn extract_without_title_yields_nothing() {
    let fragment = r#"<div class="list"><a class="bib" href="x.bib">BibTeX</a></div>"#;
    assert!(extract_from_zbmath(fragment).is_none());
}
