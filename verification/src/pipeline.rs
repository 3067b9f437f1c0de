//! The scrape pipeline's pure steps.
//!
//! The caller fetches documents; everything between the fetches is here:
//! the page body becomes a resolved site descriptor, and a manifest body,
//! when one was linked and retrieved, is merged in.  A manifest that is
//! not a JSON object degrades gracefully to the scraped metadata alone.

use vstd::prelude::*;

use crate::json::json_of;
use crate::lossy::survivors;
use crate::manifest::{
    lemma_manifest_matches_view, spec_draft_manifest, spec_resolve_manifest, Manifest,
};
use crate::resolve::{Resolved, Unresolved};
use crate::site::{
    flat, spec_default_patterns, spec_resolve_site, spec_site_icon_slots, spec_supplement,
    site_rejoins, ScrapedSite, SiteV,
};
use crate::strutil::spec_trim;

verus! {

/// The draft site descriptor a page determines: each field read from its
/// head elements, icon candidates de-duplicated, patterns derived from
/// the page URL.
pub open spec fn spec_draft_site(u: Seq<char>, doc: Seq<char>) -> SiteV {
    SiteV {
        site_name: match flat(crate::html::meta_og_site_name_of(doc)) {
            Some(s) => Some(spec_trim(s)),
            None => None,
        },
        title: match crate::html::html_title_of(doc) {
            Some(t) => Some(spec_trim(t)),
            None => None,
        },
        theme_color: match flat(crate::html::meta_theme_color_of(doc)) {
            Some(s) => match crate::color::css_color_of(s) {
                Some(c) => Some(crate::color::Color { r: c.0, g: c.1, b: c.2, a: c.3 }),
                None => None,
            },
            None => None,
        },
        icons: survivors(spec_site_icon_slots(doc)),
        default_url_patterns: spec_default_patterns(u),
        manifest_url: flat(crate::html::link_manifest_of(doc)),
    }
}

/// Extract and resolve the site descriptor of a fetched page.
pub fn site_from_html(url: &str, body: &str) -> (r: ScrapedSite<Resolved>)
    ensures
        r@ == spec_resolve_site(url@, spec_draft_site(url@, body@)),
        site_rejoins(url@, r@),
{
    let draft = ScrapedSite::<Unresolved>::parse(url, body);
    proof {
        crate::site::lemma_survivors_str_views(draft.icons@);
        assert(draft@.icons =~= survivors(spec_site_icon_slots(body@)));
        assert(draft@ == spec_draft_site(url@, body@));
    }
    draft.resolve(url)
}

/// Merge a fetched manifest body into the resolved site descriptor: a
/// body that is a JSON object is parsed with per-field tolerance,
/// resolved against the manifest's own URL, and merged; any other body
/// leaves the descriptor unchanged.
pub fn apply_manifest(site: ScrapedSite<Resolved>, manifest_url: &str, body: &str) -> (r:
    ScrapedSite<Resolved>)
    ensures
        match json_of(body@) {
            Some(j) => if j is Obj {
                r@ == spec_supplement(
                    site@,
                    spec_resolve_manifest(manifest_url@, spec_draft_manifest(j->Obj_0)),
                )
            } else {
                r@ == site@
            },
            None => r@ == site@,
        },
{
    let ghost sv = site@;
    match Manifest::<Unresolved>::parse(body) {
        Ok(m) => {
            proof {
                lemma_manifest_matches_view(json_of(body@)->Some_0->Obj_0, m);
            }
            let rm = m.resolve(manifest_url);
            site.supplemented(rm)
        },
        Err(_) => site,
    }
}

} // verus!
