//! The pipeline's decisions: which read a run begins with, and what a
//! response text leads to — saving it verbatim, reporting that nothing
//! matched, or laying out the extracted records for selection. The reads,
//! writes and prompts themselves belong to the program around the library;
//! everything decided here is verified.

use vstd::prelude::*;

use crate::Config;
use crate::scrape::{Record, scrape_zbmath, spec_scrape};
use crate::select::{
    DisplayPlan, MAX_TO_DISPLAY, display, display_count, exact_match_at, find_exact,
    spec_display_lines,
};
use crate::source::{spec_query_url, zbmath_query_url};

verus! {

/// The single piece of outside work a run begins with.
pub enum SourceRequest {
    /// Perform one GET against this URL.
    FetchRemote { url: String },
    /// Read this local file as text.
    ReadFile { path: String },
}

/// Which read the configuration asks for, with the exact URL a remote
/// search queries.
pub fn source_request(config: &Config) -> (r: SourceRequest)
    requires
        config.read_from_file ==> config.input_file is Some,
    ensures
        match r {
            SourceRequest::ReadFile { path } => config.read_from_file && path@
                == config.input_file->Some_0@,
            SourceRequest::FetchRemote { url } => !config.read_from_file && url@
                == spec_query_url(config.search_phrase@, config.search_loosely),
        },
{
    if config.read_from_file {
        match &config.input_file {
            Some(p) => SourceRequest::ReadFile { path: p.clone() },
            None => unreached(),
        }
    } else {
        SourceRequest::FetchRemote {
            url: zbmath_query_url(config.search_phrase.as_str(), config.search_loosely),
        }
    }
}

/// What a run does with the obtained response text.
pub enum Outcome {
    /// Persist `content` to `path` verbatim; nothing is scraped.
    Save { path: String, content: String },
    /// No records were extracted: print `line` and end successfully,
    /// fetching no citation.
    NoArticles { line: String },
    /// Records were extracted: print `pre_lines` in order; then fetch the
    /// citation of the record at `chosen`, or, when none is chosen yet,
    /// prompt for a 1-based choice among the `count` displayed entries.
    Select {
        articles: Vec<Record>,
        pre_lines: Vec<String>,
        chosen: Option<usize>,
        count: usize,
    },
}

/// The record the list settles on without prompting: the lone record when
/// there is exactly one, nobody otherwise.
pub open spec fn auto_choice(n: int) -> Option<usize> {
    if n == 1 {
        Some(0usize)
    } else {
        None
    }
}

/// Decides what the obtained response text leads to.
///
/// In save mode the response is handed back for persisting, untouched and
/// unparsed. Otherwise the records are scraped out; an empty crop is the
/// terminal no-articles outcome. With records in hand, exact-title mode
/// picks the first case-insensitive title match outright; when no title
/// matches, a notice is emitted and the run falls back to interactive
/// choice, as it does in the other modes (the initial-segment and segment
/// modes are reserved and fall back likewise). A lone record is chosen
/// automatically; a longer list awaits a prompted choice.
pub fn plan_response(config: &Config, response: &str) -> (o: Outcome)
    requires
        config.save_locally ==> config.output_file is Some,
    ensures
        config.save_locally ==> (o matches Outcome::Save { path, content } && path@
            == config.output_file->Some_0@ && content@ == response@),
        !config.save_locally && spec_scrape(response@).len() == 0 ==> (o
            matches Outcome::NoArticles { line } && line@ == "No articles found."@),
        !config.save_locally && spec_scrape(response@).len() > 0 ==> (o matches Outcome::Select {
            articles,
            pre_lines,
            chosen,
            count,
        } && {
            let recs = spec_scrape(response@);
            let phrase = config.search_phrase@;
            &&& articles.deep_view() == recs
            &&& count == display_count(recs.len() as int)
            &&& (config.exact_title && (exists|i: int| exact_match_at(recs, phrase, i)) ==> {
                &&& pre_lines.deep_view() == Seq::<Seq<char>>::empty()
                &&& (chosen matches Some(i) && exact_match_at(recs, phrase, i as int) && forall|
                    j: int,
                |
                    0 <= j < i ==> !exact_match_at(recs, phrase, j))
            })
            &&& (config.exact_title && !(exists|i: int| exact_match_at(recs, phrase, i)) ==> {
                &&& pre_lines.deep_view() == seq!["No exact match found!"@]
                    + spec_display_lines(recs)
                &&& chosen == auto_choice(recs.len() as int)
            })
            &&& (!config.exact_title ==> {
                &&& pre_lines.deep_view() == spec_display_lines(recs)
                &&& chosen == auto_choice(recs.len() as int)
            })
        }),
{
    if config.save_locally {
        let path = match &config.output_file {
            Some(p) => p.clone(),
            None => unreached(),
        };
        return Outcome::Save { path, content: String::from_str(response) };
    }
    let articles = scrape_zbmath(response);
    if articles.len() == 0 {
        return Outcome::NoArticles { line: String::from_str("No articles found.") };
    }
    let count = if articles.len() > MAX_TO_DISPLAY {
        MAX_TO_DISPLAY
    } else {
        articles.len()
    };
    if config.exact_title {
        match find_exact(&articles, config.search_phrase.as_str()) {
            Some(i) => {
                let pre_lines: Vec<String> = Vec::new();
                proof {
                    assert(pre_lines.deep_view() =~= Seq::<Seq<char>>::empty());
                }
                return Outcome::Select { articles, pre_lines, chosen: Some(i), count };
            },
            None => {
                let plan = display(&articles);
                let mut pre_lines: Vec<String> = Vec::new();
                pre_lines.push(String::from_str("No exact match found!"));
                let mut rest = plan.lines;
                pre_lines.append(&mut rest);
                let chosen = if articles.len() == 1 {
                    Some(0usize)
                } else {
                    None
                };
                proof {
                    assert(pre_lines.deep_view() =~~= seq!["No exact match found!"@]
                        + spec_display_lines(articles.deep_view()));
                }
                return Outcome::Select { articles, pre_lines, chosen, count };
            },
        }
    }
    let plan = display(&articles);
    let chosen = if articles.len() == 1 {
        Some(0usize)
    } else {
        None
    };
    Outcome::Select { articles, pre_lines: plan.lines, chosen, count: plan.count }
}

} // verus!
