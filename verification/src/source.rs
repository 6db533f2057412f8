//! Building the title-search URL for the zbMATH site and resolving the
//! citation links found in its result pages against the site's origin.

use vstd::prelude::*;

use crate::text::occurs_at;

verus! {

/// `s` with each space replaced by `'+'`, as the site's query syntax asks.
pub open spec fn plus_encoded(s: Seq<char>) -> Seq<char> {
    Seq::new(s.len(), |i: int| if s[i] == ' ' { '+' } else { s[i] })
}

/// The strict-search wrapping: percent-encoded double quotes around the
/// phrase, or nothing when the search is loose.
pub open spec fn spec_wrap(loose: bool) -> Seq<char> {
    if loose {
        Seq::empty()
    } else {
        "%22"@
    }
}

/// The full search URL for `phrase`: the site origin, the title-search
/// query prefix (`ti%3A` asks the site for a title search), and the
/// plus-encoded phrase, wrapped per `spec_wrap`.
pub open spec fn spec_query_url(phrase: Seq<char>, loose: bool) -> Seq<char> {
    "https://zbmath.org"@ + "/?q=ti%3A"@ + spec_wrap(loose) + plus_encoded(phrase) + spec_wrap(
        loose,
    )
}

/// Appends `s` to `dst` with each space turned into `'+'`.
fn append_plus_encoded(dst: &mut String, s: &str)
    ensures
        final(dst)@ == old(dst)@ + plus_encoded(s@),
{
    let n = s.unicode_len();
    let mut i: usize = 0;
    while i < n
        invariant
            i <= n,
            n == s@.len(),
            dst@ == old(dst)@ + plus_encoded(s@).take(i as int),
        decreases n - i,
    {
        if s.get_char(i) == ' ' {
            dst.append("+");
            proof {
                reveal_strlit("+");
                assert(dst@ =~= old(dst)@ + plus_encoded(s@).take(i + 1));
            }
        } else {
            let piece = s.substring_char(i, i + 1);
            dst.append(piece);
            proof {
                assert(dst@ =~= old(dst)@ + plus_encoded(s@).take(i + 1));
            }
        }
        i += 1;
    }
    proof {
        assert(plus_encoded(s@).take(n as int) =~= plus_encoded(s@));
    }
}

/// The search URL a remote run performs its GET against.
pub fn zbmath_query_url(phrase: &str, loose: bool) -> (url: String)
    ensures
        url@ == spec_query_url(phrase@, loose),
{
    let mut url = String::from_str("https://zbmath.org");
    url.append("/?q=ti%3A");
    if !loose {
        url.append("%22");
    }
    append_plus_encoded(&mut url, phrase);
    if !loose {
        url.append("%22");
    }
    proof {
        assert(url@ =~= spec_query_url(phrase@, loose));
    }
    url
}

/// Whether `href` already names its scheme, so that prefixing the site
/// origin would be wrong.
pub open spec fn spec_is_absolute(href: Seq<char>) -> bool {
    occurs_at(href, "http://"@, 0) || occurs_at(href, "https://"@, 0)
}

/// A citation link resolved to an absolute URL: the href as it stands if
/// absolute, else the site origin, a slash and the href.
pub open spec fn spec_absolutize(href: Seq<char>) -> Seq<char> {
    if spec_is_absolute(href) {
        href
    } else {
        "https://zbmath.org"@ + "/"@ + href
    }
}

/// Resolves a citation link against the site origin.
pub fn absolutize(href: &str) -> (url: String)
    ensures
        url@ == spec_absolutize(href@),
{
    if crate::text::has_prefix(href, "http://") || crate::text::has_prefix(href, "https://") {
        String::from_str(href)
    } else {
        let mut url = String::from_str("https://zbmath.org");
        url.append("/");
        url.append(href);
        url
    }
}

} // verus!
