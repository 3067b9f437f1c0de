//! Head-element extraction from an HTML document.
//!
//! The `scraper` crate parses the document; what each fixed selector finds
//! is named here as a function of the document text alone.  An outer
//! `Option` says whether the element exists, an inner one whether it
//! carries the attribute.

use vstd::prelude::*;

verus! {

/// The inner HTML of the first `html > head > title` element.
pub uninterp spec fn html_title_of(doc: Seq<char>) -> Option<Seq<char>>;

/// The first `html > head > meta[property='og:site_name']` element, and
/// its `content` attribute.
pub uninterp spec fn meta_og_site_name_of(doc: Seq<char>) -> Option<Option<Seq<char>>>;

/// The first `html > head > meta[name='theme-color']` element, and its
/// `content` attribute.
pub uninterp spec fn meta_theme_color_of(doc: Seq<char>) -> Option<Option<Seq<char>>>;

/// The first `html > head > link[rel~='icon']` element, and its `href`.
pub uninterp spec fn link_icon_any_of(doc: Seq<char>) -> Option<Option<Seq<char>>>;

/// The first `html > head > link[rel~='shortcut']` element, and its
/// `href`.
pub uninterp spec fn link_shortcut_of(doc: Seq<char>) -> Option<Option<Seq<char>>>;

/// The first `html > head > link[rel~='apple-touch-icon']` element, and
/// its `href`.
pub uninterp spec fn link_apple_touch_any_of(doc: Seq<char>) -> Option<Option<Seq<char>>>;

/// The `content` attributes of every
/// `html > head > meta[property~='og:image']` element, in document order.
pub uninterp spec fn og_images_of(doc: Seq<char>) -> Seq<Option<Seq<char>>>;

/// The first `html > head > link[rel='manifest']` element, and its `href`.
pub uninterp spec fn link_manifest_of(doc: Seq<char>) -> Option<Option<Seq<char>>>;

/// The first `html > head > link[rel='icon']` element, and its `href`.
pub uninterp spec fn link_icon_exact_of(doc: Seq<char>) -> Option<Option<Seq<char>>>;

/// The first `html > head > link[rel='apple-touch-icon']` element, and
/// its `href`.
pub uninterp spec fn link_apple_touch_exact_of(doc: Seq<char>) -> Option<Option<Seq<char>>>;

/// Relies on `scraper::Html::parse_document`, `Selector::parse` on the
/// fixed selector `html > head > title`, and `ElementRef::inner_html`: the
/// first title's markup depends on the document text alone.
#[verifier::external_body]
pub fn html_title(doc: &str) -> (r: Option<String>)
    ensures
        r matches Some(t) ==> html_title_of(doc@) == Some(t@),
        r is Some <==> html_title_of(doc@) is Some,
{
    let html = scraper::Html::parse_document(doc);
    let sel = scraper::Selector::parse("html > head > title").unwrap();
    html.select(&sel).next().map(|el| el.inner_html())
}

/// The view of a nested element/attribute lookup.
pub open spec fn lookup_view(r: Option<Option<String>>) -> Option<Option<Seq<char>>> {
    match r {
        Some(Some(s)) => Some(Some(s@)),
        Some(None) => Some(None),
        None => None,
    }
}

/// Relies on `scraper::Html::parse_document`, `Selector::parse` on the
/// fixed selector, and `ElementRef::attr`: `meta[property='og:site_name']` /
/// `content`.
#[verifier::external_body]
pub fn meta_og_site_name(doc: &str) -> (r: Option<Option<String>>)
    ensures
        lookup_view(r) == meta_og_site_name_of(doc@),
{
    let html = scraper::Html::parse_document(doc);
    let sel = scraper::Selector::parse("html > head > meta[property='og:site_name']").unwrap();
    html.select(&sel).next().map(|el| el.attr("content").map(String::from))
}

/// Relies on `scraper::Html::parse_document`, `Selector::parse` on the
/// fixed selector, and `ElementRef::attr`: `meta[name='theme-color']` / `content`.
#[verifier::external_body]
pub fn meta_theme_color(doc: &str) -> (r: Option<Option<String>>)
    ensures
        lookup_view(r) == meta_theme_color_of(doc@),
{
    let html = scraper::Html::parse_document(doc);
    let sel = scraper::Selector::parse("html > head > meta[name='theme-color']").unwrap();
    html.select(&sel).next().map(|el| el.attr("content").map(String::from))
}

/// Relies on `scraper::Html::parse_document`, `Selector::parse` on the
/// fixed selector, and `ElementRef::attr`: `link[rel~='icon']` / `href`.
#[verifier::external_body]
pub fn link_icon_any(doc: &str) -> (r: Option<Option<String>>)
    ensures
        lookup_view(r) == link_icon_any_of(doc@),
{
    let html = scraper::Html::parse_document(doc);
    let sel = scraper::Selector::parse("html > head > link[rel~='icon']").unwrap();
    html.select(&sel).next().map(|el| el.attr("href").map(String::from))
}

/// Relies on `scraper::Html::parse_document`, `Selector::parse` on the
/// fixed selector, and `ElementRef::attr`: `link[rel~='shortcut']` / `href`.
#[verifier::external_body]
pub fn link_shortcut(doc: &str) -> (r: Option<Option<String>>)
    ensures
        lookup_view(r) == link_shortcut_of(doc@),
{
    let html = scraper::Html::parse_document(doc);
    let sel = scraper::Selector::parse("html > head > link[rel~='shortcut']").unwrap();
    html.select(&sel).next().map(|el| el.attr("href").map(String::from))
}

/// Relies on `scraper::Html::parse_document`, `Selector::parse` on the
/// fixed selector, and `ElementRef::attr`: `link[rel~='apple-touch-icon']` / `href`.
#[verifier::external_body]
pub fn link_apple_touch_any(doc: &str) -> (r: Option<Option<String>>)
    ensures
        lookup_view(r) == link_apple_touch_any_of(doc@),
{
    let html = scraper::Html::parse_document(doc);
    let sel = scraper::Selector::parse("html > head > link[rel~='apple-touch-icon']").unwrap();
    html.select(&sel).next().map(|el| el.attr("href").map(String::from))
}

/// Relies on `scraper::Html::parse_document`, `Selector::parse` on the
/// fixed selector, and `ElementRef::attr`: `link[rel='manifest']` / `href`.
#[verifier::external_body]
pub fn link_manifest(doc: &str) -> (r: Option<Option<String>>)
    ensures
        lookup_view(r) == link_manifest_of(doc@),
{
    let html = scraper::Html::parse_document(doc);
    let sel = scraper::Selector::parse("html > head > link[rel='manifest']").unwrap();
    html.select(&sel).next().map(|el| el.attr("href").map(String::from))
}

/// Relies on `scraper::Html::parse_document`, `Selector::parse` on the
/// fixed selector, and `ElementRef::attr`: `link[rel='icon']` / `href`.
#[verifier::external_body]
pub fn link_icon_exact(doc: &str) -> (r: Option<Option<String>>)
    ensures
        lookup_view(r) == link_icon_exact_of(doc@),
{
    let html = scraper::Html::parse_document(doc);
    let sel = scraper::Selector::parse("html > head > link[rel='icon']").unwrap();
    html.select(&sel).next().map(|el| el.attr("href").map(String::from))
}

/// Relies on `scraper::Html::parse_document`, `Selector::parse` on the
/// fixed selector, and `ElementRef::attr`: `link[rel='apple-touch-icon']` / `href`.
#[verifier::external_body]
pub fn link_apple_touch_exact(doc: &str) -> (r: Option<Option<String>>)
    ensures
        lookup_view(r) == link_apple_touch_exact_of(doc@),
{
    let html = scraper::Html::parse_document(doc);
    let sel = scraper::Selector::parse("html > head > link[rel='apple-touch-icon']").unwrap();
    html.select(&sel).next().map(|el| el.attr("href").map(String::from))
}

/// Relies on `scraper::Html::parse_document`, `Selector::parse` on the
/// fixed selector `html > head > meta[property~='og:image']`, and
/// `ElementRef::attr`: every match's `content` attribute, in document
/// order, depends on the document text alone.
#[verifier::external_body]
pub fn og_images(doc: &str) -> (r: Vec<Option<String>>)
    ensures
        r@.map_values(
            |x: Option<String>| crate::resolve::opt_view(x),
        ) == og_images_of(doc@),
{
    let html = scraper::Html::parse_document(doc);
    let sel = scraper::Selector::parse("html > head > meta[property~='og:image']").unwrap();
    html.select(&sel).map(|el| el.attr("content").map(String::from)).collect()
}

} // verus!
