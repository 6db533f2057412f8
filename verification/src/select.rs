//! The selection policy: finding an exact (case-insensitive) title match,
//! laying out the numbered list a user chooses from, and validating each
//! round of interactive input.

use vstd::prelude::*;

use crate::scrape::{Record, RecordView};
use crate::text::{dec_str, parsed_number, spec_trim, usize_to_string};

verus! {

/// How many articles the interactive list shows at most.
pub const MAX_TO_DISPLAY: usize = 20;

/// What `str::to_lowercase` yields for these characters: the Unicode
/// lowercase mapping, a function of the characters alone.
pub uninterp spec fn lower_of(s: Seq<char>) -> Seq<char>;

/// Relies on `str::to_lowercase`: its result depends on the characters of
/// its receiver alone.
#[verifier::external_body]
fn lowercase(s: &str) -> (r: String)
    ensures
        r@ == lower_of(s@),
{
    s.to_lowercase()
}

/// The record at `i` is the phrase's exact match: its lowercased title is
/// the phrase itself.
pub open spec fn exact_match_at(recs: Seq<RecordView>, phrase: Seq<char>, i: int) -> bool {
    0 <= i < recs.len() && lower_of(recs[i].title) == phrase
}

/// The position of the first record whose title, lowercased, equals the
/// (already lowercased) search phrase; nothing when no title does.
pub fn find_exact(articles: &Vec<Record>, phrase: &str) -> (r: Option<usize>)
    ensures
        match r {
            Some(i) => exact_match_at(articles.deep_view(), phrase@, i as int) && forall|j: int|
                0 <= j < i ==> !exact_match_at(articles.deep_view(), phrase@, j),
            None => forall|j: int| !exact_match_at(articles.deep_view(), phrase@, j),
        },
{
    let p = String::from_str(phrase);
    let n = articles.len();
    let mut i: usize = 0;
    while i < n
        invariant
            i <= n,
            n == articles@.len(),
            p@ == phrase@,
            forall|j: int| 0 <= j < i ==> !exact_match_at(articles.deep_view(), phrase@, j),
        decreases n - i,
    {
        let low = lowercase(articles[i].title.as_str());
        if low == p {
            proof {
                assert(articles.deep_view()[i as int] == articles@[i as int]@);
                assert(exact_match_at(articles.deep_view(), phrase@, i as int));
            }
            return Some(i);
        }
        proof {
            assert(articles.deep_view()[i as int] == articles@[i as int]@);
            assert(!exact_match_at(articles.deep_view(), phrase@, i as int));
        }
        i += 1;
    }
    proof {
        assert forall|j: int| !exact_match_at(articles.deep_view(), phrase@, j) by {
            if 0 <= j < n {
                assert(!exact_match_at(articles.deep_view(), phrase@, j));
            }
        }
    }
    None
}

/// How many records the list shows: all of them up to the display cap.
pub open spec fn display_count(n: int) -> int {
    if n > MAX_TO_DISPLAY as int {
        MAX_TO_DISPLAY as int
    } else {
        n
    }
}

/// The numbered line for the record at position `i` (shown 1-based).
pub open spec fn spec_number_line(num: nat, title: Seq<char>) -> Seq<char> {
    dec_str(num) + ")\t"@ + title
}

/// The notice shown when more records matched than the list displays.
pub open spec fn spec_trunc_notice(n: int) -> Seq<char> {
    "Displaying only the first "@ + dec_str(MAX_TO_DISPLAY as nat) + " out of "@ + dec_str(
        n as nat,
    ) + " articles."@
}

/// The first `m` records' numbered lines.
pub open spec fn spec_numbered(recs: Seq<RecordView>, m: int) -> Seq<Seq<char>> {
    Seq::new(m as nat, |i: int| spec_number_line((i + 1) as nat, recs[i].title))
}

/// Every line the list display emits, in order: a single record is
/// announced on its own; otherwise a truncation notice where the cap
/// bites, then one numbered line per displayed record.
pub open spec fn spec_display_lines(recs: Seq<RecordView>) -> Seq<Seq<char>> {
    if recs.len() == 1 {
        seq!["Precisely one article found:"@, "\t"@ + recs[0].title]
    } else {
        (if recs.len() > MAX_TO_DISPLAY as int {
            seq![spec_trunc_notice(recs.len() as int)]
        } else {
            Seq::empty()
        }) + spec_numbered(recs, display_count(recs.len() as int))
    }
}

/// What the interactive list shows: its lines, and how many records they
/// offer for choosing.
pub struct DisplayPlan {
    pub lines: Vec<String>,
    pub count: usize,
}

/// Lays out the numbered list for `articles` and says how many entries a
/// choice may name.
pub fn display(articles: &Vec<Record>) -> (plan: DisplayPlan)
    ensures
        plan.lines.deep_view() == spec_display_lines(articles.deep_view()),
        plan.count == display_count(articles.deep_view().len() as int),
{
    let ghost recs = articles.deep_view();
    let n = articles.len();
    let mut lines: Vec<String> = Vec::new();
    if n == 1 {
        lines.push(String::from_str("Precisely one article found:"));
        let mut entry = String::from_str("\t");
        entry.append(articles[0].title.as_str());
        lines.push(entry);
        proof {
            assert(recs[0] == articles@[0]@);
            assert(lines.deep_view() =~= spec_display_lines(recs));
        }
        return DisplayPlan { lines, count: 1 };
    }
    let count = if n > MAX_TO_DISPLAY {
        let mut notice = String::from_str("Displaying only the first ");
        let cap = usize_to_string(MAX_TO_DISPLAY);
        notice.append(cap.as_str());
        notice.append(" out of ");
        let total = usize_to_string(n);
        notice.append(total.as_str());
        notice.append(" articles.");
        proof {
            assert(notice@ =~= spec_trunc_notice(n as int));
        }
        lines.push(notice);
        MAX_TO_DISPLAY
    } else {
        n
    };
    let ghost head = lines.deep_view();
    let mut i: usize = 0;
    while i < count
        invariant
            i <= count,
            count == display_count(recs.len() as int),
            count <= n == articles@.len(),
            recs == articles.deep_view(),
            head == (if recs.len() > MAX_TO_DISPLAY as int {
                seq![spec_trunc_notice(recs.len() as int)]
            } else {
                Seq::<Seq<char>>::empty()
            }),
            lines.deep_view() == head + spec_numbered(recs, i as int),
        decreases count - i,
    {
        let mut entry = usize_to_string(i + 1);
        entry.append(")\t");
        entry.append(articles[i].title.as_str());
        proof {
            assert(recs[i as int] == articles@[i as int]@);
            assert(entry@ == spec_number_line((i + 1) as nat, recs[i as int].title));
        }
        let ghost before = lines.deep_view();
        lines.push(entry);
        proof {
            assert(lines.deep_view() =~= before.push(
                spec_number_line((i + 1) as nat, recs[i as int].title),
            ));
            assert(lines.deep_view() =~~= head + spec_numbered(recs, i + 1));
        }
        i += 1;
    }
    proof {
        assert(lines.deep_view() =~= spec_display_lines(recs));
    }
    DisplayPlan { lines, count }
}

/// What one round of interactive input selects: the 1-based number the
/// trimmed line parses to, brought to a 0-based index, provided it lies in
/// `[1, count]`.
pub open spec fn spec_choice(line: Seq<char>, count: int) -> Option<int> {
    match parsed_number(spec_trim(line)) {
        Some(v) => if 1 <= v && v <= count {
            Some(v - 1)
        } else {
            None
        },
        None => None,
    }
}

/// Validates one line of interactive input against the displayed range; a
/// rejected line means the caller must prompt again.
pub fn choose_step(line: &str, count: usize) -> (r: Option<usize>)
    ensures
        match r {
            Some(i) => spec_choice(line@, count as int) == Some(i as int),
            None => spec_choice(line@, count as int) is None,
        },
{
    match crate::text::parse_trimmed_number(line) {
        Some(v) => if 1 <= v && v <= count {
            Some(v - 1)
        } else {
            None
        },
        None => None,
    }
}

/// The prompt shown before each interactive read.
pub open spec fn spec_prompt(count: int) -> Seq<char> {
    "Make a choice (1-"@ + dec_str(count as nat) + "): "@
}

/// The prompt line for a list of `count` entries.
pub fn prompt_line(count: usize) -> (s: String)
    ensures
        s@ == spec_prompt(count as int),
{
    let mut s = String::from_str("Make a choice (1-");
    let num = usize_to_string(count);
    s.append(num.as_str());
    s.append("): ");
    proof {
        assert(s@ =~= spec_prompt(count as int));
    }
    s
}

/// The rebuke shown for input that names no displayed entry.
pub fn invalid_choice_line() -> (s: String)
    ensures
        s@ == "Invalid choice. Try again."@,
{
    String::from_str("Invalid choice. Try again.")
}

} // verus!
