//! Trusted extraction of campaign data from fetched HTML and URLs.
//!
//! The selector queries and URL decomposition are done by outside parsers
//! whose results are deterministic functions of their input text. Each such
//! result is given a name here (an uninterpreted spec function), and the
//! wrapper around the outside call promises only that it returns the named
//! value. The verified logic elsewhere speaks of these names exactly.

use vstd::prelude::*;

verus! {

/// The `href` attribute of the first element matching `.campaign a` in the
/// given fragment, if that element exists and carries the attribute.
pub uninterp spec fn campaign_href_of(index_html: Seq<char>) -> Option<Seq<char>>;

/// The serialized HTML of the first `table` element in the given fragment,
/// if one exists.
pub uninterp spec fn content_table_of(detail_html: Seq<char>) -> Option<Seq<char>>;

/// The serialized HTML of the first `ul#archive-list` element in the given
/// fragment, if one exists.
pub uninterp spec fn archive_list_of(index_html: Seq<char>) -> Option<Seq<char>>;

/// The `src` attributes of all `img` elements in the given fragment, in
/// document order; `None` stands for an `img` without a `src`.
pub uninterp spec fn img_srcs_of(html: Seq<char>) -> Seq<Option<Seq<char>>>;

/// The host of the given URL string: `None` when the string is not an
/// absolute URL, `Some(None)` when it parses but has no host part, and
/// `Some(Some(h))` when its host is `h`.
pub uninterp spec fn host_of(url: Seq<char>) -> Option<Option<Seq<char>>>;

/// The final path segment of the given URL string, when it parses as an
/// absolute URL whose path can be split into segments.
pub uninterp spec fn last_segment_of(url: Seq<char>) -> Option<Seq<char>>;

/// Relies on scraper's `Html::parse_fragment` and selector matching: which
/// element first matches `.campaign a`, and its `href`, depend on the
/// fragment text alone.
#[verifier::external_body]
pub(crate) fn scrape_campaign_href(index_html: &str) -> (r: Option<String>)
    ensures
        match r {
            Some(h) => campaign_href_of(index_html@) == Some(h@),
            None => campaign_href_of(index_html@) is None,
        },
{
    let fragment = scraper::Html::parse_fragment(index_html);
    let selector = scraper::Selector::parse(".campaign a").unwrap();
    fragment
        .select(&selector)
        .next()
        .and_then(|node| node.attr("href"))
        .map(|href| href.to_string())
}

/// Relies on scraper: the first `table` element of a fragment, and its
/// serialization, depend on the fragment text alone.
#[verifier::external_body]
pub(crate) fn scrape_content_table(detail_html: &str) -> (r: Option<String>)
    ensures
        match r {
            Some(h) => content_table_of(detail_html@) == Some(h@),
            None => content_table_of(detail_html@) is None,
        },
{
    let fragment = scraper::Html::parse_fragment(detail_html);
    let selector = scraper::Selector::parse("table").unwrap();
    fragment.select(&selector).next().map(|node| node.html())
}

/// Relies on scraper: the first `ul#archive-list` element of a fragment, and
/// its serialization, depend on the fragment text alone.
#[verifier::external_body]
pub(crate) fn scrape_archive_list(index_html: &str) -> (r: Option<String>)
    ensures
        match r {
            Some(h) => archive_list_of(index_html@) == Some(h@),
            None => archive_list_of(index_html@) is None,
        },
{
    let fragment = scraper::Html::parse_fragment(index_html);
    let selector = scraper::Selector::parse("ul#archive-list").unwrap();
    fragment.select(&selector).next().map(|node| node.html())
}

/// Relies on scraper: the `img` elements of a fragment and their `src`
/// attributes, in document order, depend on the fragment text alone.
#[verifier::external_body]
pub(crate) fn scrape_img_srcs(html: &str) -> (r: Vec<Option<String>>)
    ensures
        r.deep_view() == img_srcs_of(html@),
{
    let fragment = scraper::Html::parse_fragment(html);
    let selector = scraper::Selector::parse("img").unwrap();
    fragment
        .select(&selector)
        .map(|node| node.attr("src").map(|src| src.to_string()))
        .collect()
}

/// Relies on `url::Url::parse` and `Url::host_str`: both are deterministic
/// in the URL string.
#[verifier::external_body]
pub(crate) fn url_host(url: &str) -> (r: Option<Option<String>>)
    ensures
        match r {
            Some(Some(h)) => host_of(url@) == Some(Some(h@)),
            Some(None) => host_of(url@) == Some(None::<Seq<char>>),
            None => host_of(url@) is None,
        },
{
    match url::Url::parse(url) {
        Ok(u) => Some(u.host_str().map(|h| h.to_string())),
        Err(_) => None,
    }
}

/// Relies on `url::Url::parse` and `Url::path_segments`: both are
/// deterministic in the URL string.
#[verifier::external_body]
pub(crate) fn url_last_segment(url: &str) -> (r: Option<String>)
    ensures
        match r {
            Some(s) => last_segment_of(url@) == Some(s@),
            None => last_segment_of(url@) is None,
        },
{
    match url::Url::parse(url) {
        Ok(u) => u.path_segments().and_then(|segs| segs.last()).map(|s| s.to_string()),
        Err(_) => None,
    }
}

} // verus!
