//! Extracting article records from a zbMATH result page.
//!
//! The site renders search results in one of two layouts, depending on how
//! many articles matched: a list of result containers, or a lone item
//! container. The scraper sniffs the layout from a marker substring, picks
//! the matching CSS selector, and reads one record out of each container.
//! The DOM work itself is done by the scraper crate behind trusted
//! wrappers; everything around those calls is verified.

use vstd::prelude::*;

use crate::source::{spec_absolutize, absolutize};
use crate::text::{contains_seq, contains_sub};

verus! {

/// One search result: the article's title, and the absolute URL of the
/// resource that yields its citation payload.
pub struct Record {
    pub title: String,
    pub bib_url: String,
}

/// The mathematical shadow of a `Record`: both fields as character
/// sequences.
pub ghost struct RecordView {
    pub title: Seq<char>,
    pub bib_url: Seq<char>,
}

impl View for Record {
    type V = RecordView;

    open spec fn view(&self) -> RecordView {
        RecordView { title: self.title@, bib_url: self.bib_url@ }
    }
}

impl DeepView for Record {
    type V = RecordView;

    open spec fn deep_view(&self) -> RecordView {
        self.view()
    }
}

/// The serialized outer HTML of each element of the document `html` that
/// matches the CSS selector `sel`, in document order; empty when `sel`
/// does not parse as a selector.
pub uninterp spec fn fragments_of(html: Seq<char>, sel: Seq<char>) -> Seq<Seq<char>>;

/// Relies on the scraper crate: `Selector::parse` (an unparsable selector
/// yields no fragments), `Html::parse_document`, `Html::select` (document
/// order) and `ElementRef::html` for the serialized form of each match.
#[verifier::external_body]
fn select_fragments(html: &str, sel: &str) -> (r: Vec<String>)
    ensures
        r.deep_view() == fragments_of(html@, sel@),
{
    let mut out = Vec::new();
    if let Ok(selector) = scraper::Selector::parse(sel) {
        let doc = scraper::Html::parse_document(html);
        for e in doc.select(&selector) {
            out.push(e.html());
        }
    }
    out
}

/// The inner HTML of the first element matching `sel` in the markup
/// fragment `html`; nothing when no element matches or `sel` does not
/// parse as a selector.
pub uninterp spec fn inner_of_first(html: Seq<char>, sel: Seq<char>) -> Option<Seq<char>>;

/// Relies on the scraper crate: `Selector::parse`, `Html::parse_fragment`,
/// `Html::select` and `ElementRef::inner_html`.
#[verifier::external_body]
fn first_inner_html(fragment: &str, sel: &str) -> (r: Option<String>)
    ensures
        r.deep_view() == inner_of_first(fragment@, sel@),
{
    match scraper::Selector::parse(sel) {
        Err(_) => None,
        Ok(selector) => {
            let doc = scraper::Html::parse_fragment(fragment);
            let found = doc.select(&selector).next();
            match found {
                Some(e) => Some(e.inner_html()),
                None => None,
            }
        },
    }
}

/// The value of the attribute `attr` on the first element matching `sel`
/// in the markup fragment `html`; nothing when no element matches, the
/// element lacks the attribute, or `sel` does not parse as a selector.
pub uninterp spec fn attr_of_first(html: Seq<char>, sel: Seq<char>, attr: Seq<char>) -> Option<
    Seq<char>,
>;

/// Relies on the scraper crate: `Selector::parse`, `Html::parse_fragment`,
/// `Html::select` and `ElementRef::attr`.
#[verifier::external_body]
fn first_attr(fragment: &str, sel: &str, attr: &str) -> (r: Option<String>)
    ensures
        r.deep_view() == attr_of_first(fragment@, sel@, attr@),
{
    match scraper::Selector::parse(sel) {
        Err(_) => None,
        Ok(selector) => {
            let doc = scraper::Html::parse_fragment(fragment);
            let found = doc.select(&selector).next();
            match found {
                Some(e) => e.attr(attr).map(str::to_owned),
                None => None,
            }
        },
    }
}

/// `s` shorn of its final character; the empty sequence stays empty. The
/// result-page template puts one artifact character (a period or colon)
/// after each title, and this is what strips it.
pub open spec fn strip_last(s: Seq<char>) -> Seq<char> {
    if s.len() == 0 {
        s
    } else {
        s.drop_last()
    }
}

/// `s` without its final character, as a fresh string.
fn pop_last_char(s: &str) -> (r: String)
    ensures
        r@ == strip_last(s@),
{
    let n = s.unicode_len();
    if n == 0 {
        String::new()
    } else {
        let r = String::from_str(s.substring_char(0, n - 1));
        proof {
            assert(s@.subrange(0, n - 1) =~= strip_last(s@));
        }
        r
    }
}

/// The record one container fragment yields: the emphasized title with the
/// trailing artifact character stripped, and the citation link resolved to
/// an absolute URL; nothing when the title or the link is missing.
pub open spec fn spec_extract(frag: Seq<char>) -> Option<RecordView> {
    match inner_of_first(frag, ".title strong"@) {
        Some(raw) => match attr_of_first(frag, ".bib"@, "href"@) {
            Some(href) => Some(
                RecordView { title: strip_last(raw), bib_url: spec_absolutize(href) },
            ),
            None => None,
        },
        None => None,
    }
}

/// Converts a single matched container into a record. A container whose
/// title or citation link is absent yields nothing, and the caller skips
/// it: one malformed entry must not cost the extraction of the rest.
pub fn extract_from_zbmath(fragment: &str) -> (r: Option<Record>)
    ensures
        match r {
            Some(rec) => spec_extract(fragment@) == Some(rec@),
            None => spec_extract(fragment@) is None,
        },
{
    let raw = match first_inner_html(fragment, ".title strong") {
        Some(raw) => raw,
        None => {
            return None;
        },
    };
    let href = match first_attr(fragment, ".bib", "href") {
        Some(href) => href,
        None => {
            return None;
        },
    };
    let title = pop_last_char(raw.as_str());
    let bib_url = absolutize(href.as_str());
    Some(Record { title, bib_url })
}

/// The records the fragments yield, in order, the malformed ones skipped.
pub open spec fn records_of(frags: Seq<Seq<char>>) -> Seq<RecordView>
    decreases frags.len(),
{
    if frags.len() == 0 {
        Seq::empty()
    } else {
        records_of(frags.drop_last()) + (match spec_extract(frags.last()) {
            Some(r) => seq![r],
            None => Seq::empty(),
        })
    }
}

/// Each fragment of an all-well-formed run yields exactly its own record,
/// in order.
proof fn lemma_records_of_wellformed(frags: Seq<Seq<char>>)
    requires
        forall|j: int| 0 <= j < frags.len() ==> spec_extract(#[trigger] frags[j]) is Some,
    ensures
        records_of(frags).len() == frags.len(),
        forall|j: int|
            0 <= j < frags.len() ==> spec_extract(#[trigger] frags[j]) == Some(
                records_of(frags)[j],
            ),
    decreases frags.len(),
{
    if frags.len() > 0 {
        let front = frags.drop_last();
        assert(forall|j: int| 0 <= j < front.len() ==> front[j] == frags[j]);
        lemma_records_of_wellformed(front);
    }
}

/// Every record a run of fragments yields comes from one of them.
proof fn lemma_records_of_source(frags: Seq<Seq<char>>)
    ensures
        forall|j: int|
            0 <= j < records_of(frags).len() ==> exists|k: int|
                0 <= k < frags.len() && #[trigger] spec_extract(frags[k]) == Some(
                    #[trigger] records_of(frags)[j],
                ),
    decreases frags.len(),
{
    if frags.len() > 0 {
        let front = frags.drop_last();
        lemma_records_of_source(front);
        assert forall|j: int| 0 <= j < records_of(frags).len() implies exists|k: int|
            0 <= k < frags.len() && #[trigger] spec_extract(frags[k]) == Some(
                #[trigger] records_of(frags)[j],
            ) by {
            if j < records_of(front).len() {
                let k = choose|k: int|
                    0 <= k < front.len() && spec_extract(#[trigger] front[k]) == Some(
                        records_of(front)[j],
                    );
                assert(frags[k] == front[k]);
                assert(spec_extract(frags[k]) == Some(records_of(frags)[j]));
            } else {
                let k = frags.len() - 1;
                assert(spec_extract(frags[k]) == Some(records_of(frags)[j]));
            }
        }
    }
}

/// Which layout the response takes: the multi-result list when the marker
/// substring occurs in the text, else the single-result item.
pub open spec fn multi_layout(html: Seq<char>) -> bool {
    contains_seq(html, "listitem"@)
}

/// The container selector the sniffed layout calls for.
pub open spec fn layout_selector(html: Seq<char>) -> Seq<char> {
    if multi_layout(html) {
        ".content-result .list"@
    } else {
        ".content-item .item"@
    }
}

/// Every record the response page holds, in document order.
pub open spec fn spec_scrape(html: Seq<char>) -> Seq<RecordView> {
    records_of(fragments_of(html, layout_selector(html)))
}

/// Scrapes a result page into its article records: sniffs the layout,
/// enumerates the matching containers in document order, and keeps each
/// well-formed record.
pub fn scrape_zbmath(response: &str) -> (records: Vec<Record>)
    ensures
        records.deep_view() == spec_scrape(response@),
{
    let fragments = if contains_sub(response, "listitem") {
        select_fragments(response, ".content-result .list")
    } else {
        select_fragments(response, ".content-item .item")
    };
    let ghost all = fragments.deep_view();
    proof {
        assert(all == fragments_of(response@, layout_selector(response@)));
    }
    let mut records: Vec<Record> = Vec::new();
    let n = fragments.len();
    let mut i: usize = 0;
    while i < n
        invariant
            i <= n,
            n == fragments@.len(),
            all == fragments.deep_view(),
            all == fragments_of(response@, layout_selector(response@)),
            records.deep_view() == records_of(all.take(i as int)),
        decreases n - i,
    {
        proof {
            assert(all[i as int] == fragments@[i as int]@);
            assert(all.take(i + 1).drop_last() =~= all.take(i as int));
            assert(all.take(i + 1).last() == all[i as int]);
        }
        let ghost before = records.deep_view();
        match extract_from_zbmath(fragments[i].as_str()) {
            Some(rec) => {
                records.push(rec);
                proof {
                    assert(records.deep_view() =~= before + seq![rec@]);
                }
            },
            None => {},
        }
        proof {
            assert(records.deep_view() =~= records_of(all.take(i + 1)));
        }
        i += 1;
    }
    proof {
        assert(all.take(n as int) =~= all);
    }
    records
}

/// Law: on multi-result markup whose matched list containers are all
/// well-formed, scraping yields exactly one record per container, each
/// container's own record, in document order.
pub proof fn lemma_multi_layout_count(html: Seq<char>)
    requires
        multi_layout(html),
        forall|j: int|
            0 <= j < fragments_of(html, ".content-result .list"@).len() ==> spec_extract(
                #[trigger] fragments_of(html, ".content-result .list"@)[j],
            ) is Some,
    ensures
        spec_scrape(html).len() == fragments_of(html, ".content-result .list"@).len(),
        forall|j: int|
            0 <= j < fragments_of(html, ".content-result .list"@).len() ==> spec_extract(
                #[trigger] fragments_of(html, ".content-result .list"@)[j],
            ) == Some(spec_scrape(html)[j]),
{
    lemma_records_of_wellformed(fragments_of(html, ".content-result .list"@));
}

/// Law: on single-result markup, whose lone item container is well-formed,
/// scraping yields exactly one record, the container's own.
pub proof fn lemma_single_layout_one(html: Seq<char>)
    requires
        !multi_layout(html),
        fragments_of(html, ".content-item .item"@).len() == 1,
        spec_extract(fragments_of(html, ".content-item .item"@)[0]) is Some,
    ensures
        spec_scrape(html).len() == 1,
        spec_extract(fragments_of(html, ".content-item .item"@)[0]) == Some(spec_scrape(html)[0]),
{
    lemma_records_of_wellformed(fragments_of(html, ".content-item .item"@));
}

/// The record's title is some matched container's raw emphasized text
/// shorn of its final character.
pub open spec fn title_from_container(html: Seq<char>, rec: RecordView) -> bool {
    exists|k: int|
        {
            &&& 0 <= k < fragments_of(html, layout_selector(html)).len()
            &&& inner_of_first(
                #[trigger] fragments_of(html, layout_selector(html))[k],
                ".title strong"@,
            ) is Some
            &&& rec.title == strip_last(
                inner_of_first(
                    fragments_of(html, layout_selector(html))[k],
                    ".title strong"@,
                )->Some_0,
            )
        }
}

/// Law: every extracted title is its container's raw emphasized text with
/// the final character removed — the template's trailing artifact
/// character is stripped and does not end the title.
pub proof fn lemma_titles_strip_artifact(html: Seq<char>)
    ensures
        forall|j: int|
            #![trigger spec_scrape(html)[j]]
            0 <= j < spec_scrape(html).len() ==> title_from_container(html, spec_scrape(html)[j]),
{
    let frags = fragments_of(html, layout_selector(html));
    lemma_records_of_source(frags);
    assert forall|j: int| #![trigger spec_scrape(html)[j]]
        0 <= j < spec_scrape(html).len() implies title_from_container(
        html,
        spec_scrape(html)[j],
    ) by {
        let k = choose|k: int|
            0 <= k < frags.len() && #[trigger] spec_extract(frags[k]) == Some(
                spec_scrape(html)[j],
            );
        assert(inner_of_first(frags[k], ".title strong"@) is Some);
        assert(spec_scrape(html)[j].title == strip_last(
            inner_of_first(frags[k], ".title strong"@)->Some_0,
        ));
    }
}

} // verus!
