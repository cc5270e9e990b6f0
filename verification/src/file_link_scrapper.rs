//! Link discovery: given a page's markup, collect every anchor target whose
//! href ends with the wanted extension — an exact literal suffix match, no
//! case folding, no dot normalization — and resolve each against the base
//! page, preserving document order and duplicates.
use vstd::prelude::*;
use vstd::string::StrSliceExecFns;
use vstd::string::StringExecFns;

use crate::FetchError;

verus! {

/// Whether `suffix` closes `s`, character for character.
pub open spec fn ends_with(s: Seq<char>, suffix: Seq<char>) -> bool {
    suffix.is_suffix_of(s)
}

/// Whether `prefix` opens `s`, character for character.
pub open spec fn starts_with(s: Seq<char>, prefix: Seq<char>) -> bool {
    prefix.is_prefix_of(s)
}

/// Exact literal suffix test over characters.
fn str_ends_with(s: &str, suffix: &str) -> (r: bool)
    ensures
        r == ends_with(s@, suffix@),
{
    let n = s.unicode_len();
    let m = suffix.unicode_len();
    if m > n {
        return false;
    }
    let mut i: usize = 0;
    while i < m
        invariant
            i <= m,
            m <= n,
            n == s@.len(),
            m == suffix@.len(),
            forall|j: int| 0 <= j < i ==> s@[n - m + j] == suffix@[j],
        decreases m - i,
    {
        let a = s.get_char(n - m + i);
        let b = suffix.get_char(i);
        if a != b {
            proof {
                assert(s@.subrange(n - m, n as int)[i as int] == s@[n - m + i]);
            }
            return false;
        }
        i += 1;
    }
    proof {
        assert(suffix@ =~= s@.subrange(n - m, n as int));
    }
    true
}

/// Exact literal prefix test over characters.
fn str_starts_with(s: &str, prefix: &str) -> (r: bool)
    ensures
        r == starts_with(s@, prefix@),
{
    let n = s.unicode_len();
    let m = prefix.unicode_len();
    if m > n {
        return false;
    }
    let mut i: usize = 0;
    while i < m
        invariant
            i <= m,
            m <= n,
            n == s@.len(),
            m == prefix@.len(),
            forall|j: int| 0 <= j < i ==> s@[j] == prefix@[j],
        decreases m - i,
    {
        let a = s.get_char(i);
        let b = prefix.get_char(i);
        if a != b {
            proof {
                assert(s@.subrange(0, m as int)[i as int] == s@[i as int]);
            }
            return false;
        }
        i += 1;
    }
    proof {
        assert(prefix@ =~= s@.subrange(0, m as int));
    }
    true
}

/// The Link Resolver's output: an href that already begins with `http` is
/// taken as absolute and returned unchanged; any other href is taken as a
/// path rooted at the base page's host. Dot-relative, protocol-relative and
/// scheme-carrying hrefs of other kinds all run through the second branch
/// unexamined, as the policy dictates.
pub open spec fn resolved_link(scheme: Seq<char>, host: Seq<char>, href: Seq<char>) -> Seq<char> {
    if starts_with(href, "http"@) {
        href
    } else {
        scheme + "://"@ + host + href
    }
}

/// Resolve one raw hyperlink target against the base page's scheme and host.
pub fn resolve_link(scheme: &str, host: &str, href: &str) -> (r: String)
    ensures
        r@ == resolved_link(scheme@, host@, href@),
{
    if str_starts_with(href, "http") {
        href.to_owned()
    } else {
        let mut out = scheme.to_owned();
        out.append("://");
        out.append(host);
        out.append(href);
        proof {
            assert(out@ =~= scheme@ + "://"@ + host@ + href@);
        }
        out
    }
}

/// The scheme and host the URL library reads out of a base page URL: `None`
/// when the string does not parse as an absolute URL or the parsed URL has no
/// host.
pub uninterp spec fn base_parts_of(url: Seq<char>) -> Option<(Seq<char>, Seq<char>)>;

/// The base page's scheme and host, as the URL library parsed them. The
/// scheme comes lower-cased and without its `:` delimiter; the host may be
/// punycode- or percent-encoded.
pub struct UrlParts {
    pub scheme: String,
    pub host: String,
}

/// Relies on url::Url::parse, url::Url::scheme and url::Url::host_str: all
/// functions of the URL string alone, so what they read deserves a name,
/// `base_parts_of`. `host_str` is `None` for cannot-be-a-base URLs, which
/// offer no base to resolve relative hrefs against.
#[verifier::external_body]
fn parse_base_parts(url: &str) -> (r: Option<UrlParts>)
    ensures
        (match r {
            Some(p) => base_parts_of(url@) == Some((p.scheme@, p.host@)),
            None => base_parts_of(url@) is None,
        }),
{
    match url::Url::parse(url) {
        Ok(u) => match u.host_str() {
            Some(host) => Some(
                UrlParts { scheme: u.scheme().to_string(), host: host.to_string() },
            ),
            None => None,
        },
        Err(_) => None,
    }
}

/// The `href` attributes of a document's anchor elements, in document order,
/// a missing attribute read as the empty string.
pub uninterp spec fn anchor_hrefs_of(body: Seq<char>) -> Seq<Seq<char>>;

/// Relies on scraper::Html::parse_document, scraper::Selector::parse and
/// scraper's `Element::attr`: parsing the markup and walking its `<a>`
/// elements in document order is a function of the markup alone, so the
/// attribute list deserves a name, `anchor_hrefs_of`. The selector literal
/// `a` always parses.
#[verifier::external_body]
fn anchor_hrefs(body: &str) -> (r: Vec<String>)
    ensures
        r.deep_view() == anchor_hrefs_of(body@),
{
    let document = scraper::Html::parse_document(body);
    let selector = scraper::Selector::parse("a").unwrap();
    document
        .select(&selector)
        .map(|element| element.value().attr("href").unwrap_or_default().to_string())
        .collect()
}

/// Every candidate link of a page: the hrefs that end with the extension,
/// each resolved against the base, in document order, duplicates preserved.
pub open spec fn collected_links(
    scheme: Seq<char>,
    host: Seq<char>,
    hrefs: Seq<Seq<char>>,
    extension: Seq<char>,
) -> Seq<Seq<char>>
    decreases hrefs.len(),
{
    if hrefs.len() == 0 {
        Seq::empty()
    } else {
        let rest = collected_links(scheme, host, hrefs.drop_last(), extension);
        if ends_with(hrefs.last(), extension) {
            rest.push(resolved_link(scheme, host, hrefs.last()))
        } else {
            rest
        }
    }
}

/// Keep the hrefs that end with the extension and resolve each against the
/// base, in order. This is the whole of the collector once the page's anchor
/// targets are in hand, so a caller can check any claimed link list against
/// the raw hrefs directly.
pub fn filter_and_resolve(
    hrefs: &Vec<String>,
    scheme: &str,
    host: &str,
    extension: &str,
) -> (r: Vec<String>)
    ensures
        r.deep_view() == collected_links(scheme@, host@, hrefs.deep_view(), extension@),
{
    let ghost all = hrefs.deep_view();
    let mut out: Vec<String> = Vec::new();
    let mut i: usize = 0;
    while i < hrefs.len()
        invariant
            i <= all.len(),
            all == hrefs.deep_view(),
            hrefs@.len() == all.len(),
            out.deep_view() == collected_links(scheme@, host@, all.take(i as int), extension@),
        decreases all.len() - i,
    {
        proof {
            assert(all.take(i + 1).drop_last() =~= all.take(i as int));
            assert(all.take(i + 1).last() == all[i as int]);
            assert(hrefs@[i as int]@ == all[i as int]);
        }
        let href = &hrefs[i];
        if str_ends_with(href.as_str(), extension) {
            let link = resolve_link(scheme, host, href.as_str());
            out.push(link);
            proof {
                assert(out.deep_view() =~= collected_links(
                    scheme@,
                    host@,
                    all.take(i + 1),
                    extension@,
                ));
            }
        }
        i += 1;
    }
    proof {
        assert(all.take(all.len() as int) =~= all);
    }
    out
}

/// The Link Collector over an already-retrieved page: validate the base URL,
/// read the anchor targets out of the markup, keep those that end with the
/// extension and resolve each against the base. Fails exactly when the base
/// URL does not parse as an absolute URL with a host; retrieving the markup,
/// and any network failure of that read, belongs to the caller.
pub fn get_all_files_links(url: &str, body: &str, extension: &str) -> (r: Result<
    Vec<String>,
    FetchError,
>)
    ensures
        r is Err <==> base_parts_of(url@) is None,
        (r matches Err(e) ==> e is UrlParse),
        (r matches Ok(links) ==> base_parts_of(url@) matches Some(parts) && links.deep_view()
            == collected_links(parts.0, parts.1, anchor_hrefs_of(body@), extension@)),
{
    let parts = match parse_base_parts(url) {
        Some(parts) => parts,
        None => {
            return Err(FetchError::UrlParse);
        },
    };
    let hrefs = anchor_hrefs(body);
    Ok(filter_and_resolve(&hrefs, parts.scheme.as_str(), parts.host.as_str(), extension))
}

/// Re-running the collector against an unchanged page and filter is
/// idempotent: the collected sequence is a function of the base, the markup
/// and the extension alone, so two runs over the same inputs return the
/// identical sequence.
pub proof fn lemma_collector_idempotent(
    r1: Seq<Seq<char>>,
    r2: Seq<Seq<char>>,
    scheme: Seq<char>,
    host: Seq<char>,
    hrefs: Seq<Seq<char>>,
    extension: Seq<char>,
)
    requires
        r1 == collected_links(scheme, host, hrefs, extension),
        r2 == collected_links(scheme, host, hrefs, extension),
    ensures
        r1 == r2,
{
}

/// The markup of a fixed sample page, for exercising the collector without
/// a network read.
pub open spec fn fake_links_page() -> Seq<char> {
    r#"
    <!DOCTYPE html>
    <meta charset="utf-8">
    <title>Hello, world!</title>
    <h1 class="foo">Hello, <i>world!</i></h1>
    <a href="https://www.test.com/file_pdf_1.pdf">Test File1 PDF</a>
    <a href="https://www.test.com/file_pdf_2.pdf">Test File2 PDF</a>
    <a href="https://www.test.com/file_txt_1.txt">Test File1 TXT</a>
    <a href="/secret/lab/file_pdf_secret.pdf">Secret PDF</a>"#@
}

/// A canned page body: anchors to two PDF files, a text file, and one
/// host-relative PDF, behind some non-anchor markup.
#[allow(unused_variables)]
pub fn get_fake_links_for_test(url: &str) -> (r: String)
    ensures
        r@ == fake_links_page(),
{
    let body =
        r#"
    <!DOCTYPE html>
    <meta charset="utf-8">
    <title>Hello, world!</title>
    <h1 class="foo">Hello, <i>world!</i></h1>
    <a href="https://www.test.com/file_pdf_1.pdf">Test File1 PDF</a>
    <a href="https://www.test.com/file_pdf_2.pdf">Test File2 PDF</a>
    <a href="https://www.test.com/file_txt_1.txt">Test File1 TXT</a>
    <a href="/secret/lab/file_pdf_secret.pdf">Secret PDF</a>"#;
    body.to_owned()
}

} // verus!
