//! The scraped site descriptor: extraction, resolution, and the merge with
//! a manifest.
//!
//! Extraction reads fixed head elements with fallback chains; resolution
//! turns the collected raw URLs into absolute ones; the merge prefers the
//! manifest's metadata field by field, reverses its icon list ahead of the
//! scraped icons with first-occurrence de-duplication, and adds a pattern
//! for the manifest's scope unless it is already present.

use vstd::prelude::*;

use crate::color::{css_color_of, parse_css_color, Color};
use crate::html::{
    html_title, html_title_of, link_apple_touch_any, link_apple_touch_any_of,
    link_apple_touch_exact, link_apple_touch_exact_of, link_icon_any, link_icon_any_of,
    link_icon_exact, link_icon_exact_of, link_manifest, link_manifest_of, link_shortcut,
    link_shortcut_of, meta_og_site_name, meta_og_site_name_of, meta_theme_color,
    meta_theme_color_of, og_images, og_images_of,
};
use crate::lossy::{survivors, LossyVec};
use crate::manifest::{IconV, Manifest, ManifestV};
use crate::resolve::{
    all_rejoin, opt_view, rejoins, resolve_lossy_urls, resolve_opt_url, spec_resolve_opt_url,
    spec_resolve_urls, str_views, ResolveType, Resolved, Unresolved,
};
use crate::strutil::{push_str_chars, spec_trim, trim_str, chars_to_string};
use crate::urls::{domain_of, host_of, join_of, path_of, url_join, url_ok, url_parts};

verus! {

/// First-occurrence de-duplication: each element keeps its first position
/// and later copies are dropped.
pub open spec fn spec_dedup<T>(s: Seq<T>) -> Seq<T>
    decreases s.len(),
{
    if s.len() == 0 {
        Seq::empty()
    } else {
        let d = spec_dedup(s.drop_last());
        if d.contains(s.last()) {
            d
        } else {
            d.push(s.last())
        }
    }
}

/// The views of a vector of optional strings.
pub open spec fn opt_str_views(s: Seq<Option<String>>) -> Seq<Option<Seq<char>>> {
    s.map_values(|x: Option<String>| opt_view(x))
}

/// Whether `item` occurs in `items`, at the level of views.
fn contains_opt_string(items: &Vec<Option<String>>, item: &Option<String>) -> (r: bool)
    ensures
        r == opt_str_views(items@).contains(opt_view(*item)),
{
    let mut i: usize = 0;
    let n = items.len();
    while i < n
        invariant
            i <= n,
            n == items@.len(),
            forall|j: int| 0 <= j < i ==> opt_str_views(items@)[j] != opt_view(*item),
        decreases n - i,
    {
        let same = match (&items[i], item) {
            (None, None) => true,
            (Some(a), Some(b)) => a.eq(b),
            _ => false,
        };
        if same {
            proof {
                assert(opt_str_views(items@)[i as int] == opt_view(*item));
            }
            return true;
        }
        i = i + 1;
    }
    false
}

/// Drop every later copy of an element already seen, keeping first
/// occurrences in order.
pub fn prune_duplicate_options(v: Vec<Option<String>>) -> (r: Vec<Option<String>>)
    ensures
        opt_str_views(r@) == spec_dedup(opt_str_views(v@)),
{
    let mut r: Vec<Option<String>> = Vec::new();
    let mut i: usize = 0;
    let n = v.len();
    proof {
        assert(opt_str_views(v@.take(0)) =~= Seq::<Option<Seq<char>>>::empty());
        assert(opt_str_views(r@) =~= spec_dedup(opt_str_views(v@.take(0))));
    }
    while i < n
        invariant
            i <= n,
            n == v@.len(),
            opt_str_views(r@) == spec_dedup(opt_str_views(v@.take(i as int))),
        decreases n - i,
    {
        proof {
            assert(opt_str_views(v@.take(i + 1)).drop_last() =~= opt_str_views(
                v@.take(i as int),
            ));
            assert(opt_str_views(v@.take(i + 1)).last() == opt_view(v@[i as int]));
        }
        let present = contains_opt_string(&r, &v[i]);
        if !present {
            let ghost rv = opt_str_views(r@);
            let ghost xv = opt_view(v@[i as int]);
            let x = match &v[i] {
                Some(s) => Some(s.clone()),
                None => None,
            };
            proof {
                assert(opt_view(x) == xv);
            }
            r.push(x);
            proof {
                assert(opt_str_views(r@) =~= rv.push(xv));
            }
        }
        i = i + 1;
    }
    proof {
        assert(v@.take(n as int) =~= v@);
    }
    r
}

/// Drop every later copy of a string already seen, keeping first
/// occurrences in order.
pub fn prune_duplicates(v: Vec<String>) -> (r: Vec<String>)
    ensures
        str_views(r@) == spec_dedup(str_views(v@)),
{
    let mut r: Vec<String> = Vec::new();
    let mut i: usize = 0;
    let n = v.len();
    proof {
        assert(str_views(v@.take(0)) =~= Seq::<Seq<char>>::empty());
        assert(str_views(r@) =~= spec_dedup(str_views(v@.take(0))));
    }
    while i < n
        invariant
            i <= n,
            n == v@.len(),
            str_views(r@) == spec_dedup(str_views(v@.take(i as int))),
        decreases n - i,
    {
        proof {
            assert(str_views(v@.take(i + 1)).drop_last() =~= str_views(v@.take(i as int)));
            assert(str_views(v@.take(i + 1)).last() == v@[i as int]@);
        }
        let present = crate::strutil::contains_string(&r, &v[i]);
        if !present {
            let ghost rv = str_views(r@);
            let ghost xv = v@[i as int]@;
            let x = v[i].clone();
            r.push(x);
            proof {
                assert(str_views(r@) =~= rv.push(xv));
            }
        }
        i = i + 1;
    }
    proof {
        assert(v@.take(n as int) =~= v@);
    }
    r
}

/// Reading string slots through their views commutes with dropping the
/// absent ones.
pub proof fn lemma_survivors_str_views(s: Seq<Option<String>>)
    ensures
        survivors(opt_str_views(s)) == str_views(survivors(s)),
    decreases s.len(),
{
    if s.len() == 0 {
        assert(survivors(opt_str_views(s)) =~= str_views(survivors(s)));
    } else {
        lemma_survivors_str_views(s.drop_first());
        assert(opt_str_views(s).drop_first() =~= opt_str_views(s.drop_first()));
        assert(opt_str_views(s)[0] == opt_view(s[0]));
        match s[0] {
            Some(x) => {
                assert(survivors(opt_str_views(s)) =~= seq![x@] + survivors(
                    opt_str_views(s.drop_first()),
                ));
                assert(str_views(survivors(s)) =~= seq![x@] + str_views(
                    survivors(s.drop_first()),
                ));
            },
            None => {},
        }
    }
}

/// A site descriptor in either resolution state.
pub struct ScrapedSite<R: ResolveType> {
    /// The declared site name.
    pub site_name: Option<String>,
    /// The page title.
    pub title: Option<String>,
    /// The declared theme color.
    pub theme_color: Option<Color>,
    /// Icon URLs, most preferred first.
    pub icons: R::SiteIcons,
    /// Default URL match patterns for the site's host.
    pub default_url_patterns: Vec<String>,
    /// The manifest link, if the page declares one.
    pub manifest_url: Option<R::Url>,
}

/// The mathematical content of a site descriptor; a draft's lossy icon
/// list reads as its surviving elements.
pub struct SiteV {
    /// The declared site name.
    pub site_name: Option<Seq<char>>,
    /// The page title.
    pub title: Option<Seq<char>>,
    /// The declared theme color.
    pub theme_color: Option<Color>,
    /// Icon URL texts, most preferred first.
    pub icons: Seq<Seq<char>>,
    /// Default URL match patterns.
    pub default_url_patterns: Seq<Seq<char>>,
    /// The manifest link text.
    pub manifest_url: Option<Seq<char>>,
}

impl View for ScrapedSite<Unresolved> {
    type V = SiteV;

    open spec fn view(&self) -> SiteV {
        SiteV {
            site_name: opt_view(self.site_name),
            title: opt_view(self.title),
            theme_color: self.theme_color,
            icons: str_views(survivors(self.icons@)),
            default_url_patterns: str_views(self.default_url_patterns@),
            manifest_url: opt_view(self.manifest_url),
        }
    }
}

impl View for ScrapedSite<Resolved> {
    type V = SiteV;

    open spec fn view(&self) -> SiteV {
        SiteV {
            site_name: opt_view(self.site_name),
            title: opt_view(self.title),
            theme_color: self.theme_color,
            icons: str_views(self.icons@),
            default_url_patterns: str_views(self.default_url_patterns@),
            manifest_url: opt_view(self.manifest_url),
        }
    }
}

/// Flatten an element/attribute lookup: an element without the attribute
/// reads as nothing found.
pub open spec fn flat(x: Option<Option<Seq<char>>>) -> Option<Seq<char>> {
    match x {
        Some(Some(s)) => Some(s),
        _ => None,
    }
}

/// The icon candidate slots of a page, in precedence order — Apple touch
/// icon, shortcut icon, every Open Graph image, generic favicon — with
/// later duplicates dropped.
pub open spec fn spec_site_icon_slots(doc: Seq<char>) -> Seq<Option<Seq<char>>> {
    spec_dedup(
        seq![flat(link_apple_touch_any_of(doc)), flat(link_shortcut_of(doc))] + og_images_of(doc)
            + seq![flat(link_icon_any_of(doc))],
    )
}

/// The pattern `https?://<host>/*`.
pub open spec fn spec_host_pattern(h: Seq<char>) -> Seq<char> {
    "https?://"@ + h + "/*"@
}

/// The pattern `https?://*.<domain>/*`.
pub open spec fn spec_subdomain_pattern(d: Seq<char>) -> Seq<char> {
    "https?://*."@ + d + "/*"@
}

/// The default patterns of a URL: one for its host, and one for the
/// subdomains of its host when that host is a domain name.
pub open spec fn spec_default_patterns(u: Seq<char>) -> Seq<Seq<char>> {
    if url_ok(u) {
        (match host_of(u) {
            Some(h) => seq![spec_host_pattern(h)],
            None => Seq::empty(),
        }) + (match domain_of(u) {
            Some(d) => seq![spec_subdomain_pattern(d)],
            None => Seq::empty(),
        })
    } else {
        Seq::empty()
    }
}

/// Build the pattern `https?://<host><suffix>`.
fn build_pattern(prefix: &str, host: &str, suffix: &str) -> (r: String)
    ensures
        r@ == prefix@ + host@ + suffix@,
{
    let mut v: Vec<char> = Vec::new();
    push_str_chars(&mut v, prefix);
    push_str_chars(&mut v, host);
    push_str_chars(&mut v, suffix);
    chars_to_string(&v)
}

/// Compute the default URL patterns for a page URL.
fn default_patterns(url: &str) -> (r: Vec<String>)
    ensures
        str_views(r@) == spec_default_patterns(url@),
{
    let mut r: Vec<String> = Vec::new();
    match url_parts(url) {
        Some(p) => {
            let ghost before = str_views(r@);
            match &p.host {
                Some(h) => {
                    let pat = build_pattern("https?://", h.as_str(), "/*");
                    r.push(pat);
                },
                None => (),
            }
            match &p.domain {
                Some(d) => {
                    let ghost mid = str_views(r@);
                    let pat = build_pattern("https?://*.", d.as_str(), "/*");
                    let ghost pv = pat@;
                    r.push(pat);
                    proof {
                        assert(str_views(r@) =~= mid.push(pv));
                    }
                },
                None => (),
            }
            proof {
                assert(str_views(r@) =~= spec_default_patterns(url@));
            }
        },
        None => {
            proof {
                assert(str_views(r@) =~= spec_default_patterns(url@));
            }
        },
    }
    r
}

impl ScrapedSite<Unresolved> {
    /// Extract a draft site descriptor from a page: each category reads
    /// its head elements independently, and a page with none of them
    /// yields an empty descriptor, never an error.
    pub fn parse(url: &str, doc: &str) -> (r: ScrapedSite<Unresolved>)
        ensures
            r@.title == match html_title_of(doc@) {
                Some(t) => Some(spec_trim(t)),
                None => None,
            },
            r@.site_name == match flat(meta_og_site_name_of(doc@)) {
                Some(s) => Some(spec_trim(s)),
                None => None,
            },
            r@.theme_color == match flat(meta_theme_color_of(doc@)) {
                Some(s) => match css_color_of(s) {
                    Some(c) => Some(Color { r: c.0, g: c.1, b: c.2, a: c.3 }),
                    None => None,
                },
                None => None,
            },
            opt_str_views(r.icons@) == spec_site_icon_slots(doc@),
            r@.default_url_patterns == spec_default_patterns(url@),
            r@.manifest_url == flat(link_manifest_of(doc@)),
    {
        let title = match html_title(doc) {
            Some(t) => Some(trim_str(t.as_str())),
            None => None,
        };
        let site_name = match meta_og_site_name(doc) {
            Some(Some(s)) => Some(trim_str(s.as_str())),
            _ => None,
        };
        let theme_color = match meta_theme_color(doc) {
            Some(Some(s)) => parse_css_color(s.as_str()),
            _ => None,
        };
        let apple = match link_apple_touch_any(doc) {
            Some(Some(s)) => Some(s),
            _ => None,
        };
        let shortcut = match link_shortcut(doc) {
            Some(Some(s)) => Some(s),
            _ => None,
        };
        let favicon = match link_icon_any(doc) {
            Some(Some(s)) => Some(s),
            _ => None,
        };
        let mut slots: Vec<Option<String>> = Vec::new();
        slots.push(apple);
        slots.push(shortcut);
        let mut ogs = og_images(doc);
        let ghost og_views = opt_str_views(ogs@);
        let ghost two = opt_str_views(slots@);
        slots.append(&mut ogs);
        proof {
            assert(opt_str_views(slots@) =~= two + og_views);
        }
        let ghost with_og = opt_str_views(slots@);
        let ghost fav_v = opt_view(favicon);
        slots.push(favicon);
        proof {
            assert(opt_str_views(slots@) =~= with_og.push(fav_v));
            assert(two =~= seq![
                flat(link_apple_touch_any_of(doc@)),
                flat(link_shortcut_of(doc@)),
            ]);
            assert(opt_str_views(slots@) =~= seq![
                flat(link_apple_touch_any_of(doc@)),
                flat(link_shortcut_of(doc@)),
            ] + og_images_of(doc@) + seq![flat(link_icon_any_of(doc@))]);
        }
        let slots = prune_duplicate_options(slots);
        proof {
            assert(opt_str_views(slots@) =~= spec_site_icon_slots(doc@));
        }
        let icons = LossyVec::from(slots);
        let default_url_patterns = default_patterns(url);
        let manifest_url = match link_manifest(doc) {
            Some(Some(s)) => Some(s),
            _ => None,
        };
        ScrapedSite { site_name, title, theme_color, icons, default_url_patterns, manifest_url }
    }
}

/// A site descriptor is resolved by joining its icon URLs and manifest
/// link against the base, everything else copied.
pub open spec fn spec_resolve_site(base: Seq<char>, v: SiteV) -> SiteV {
    SiteV {
        site_name: v.site_name,
        title: v.title,
        theme_color: v.theme_color,
        icons: spec_resolve_urls(base, v.icons),
        default_url_patterns: v.default_url_patterns,
        manifest_url: spec_resolve_opt_url(base, v.manifest_url),
    }
}

/// Every URL of the resolved site descriptor is a fixed point of joining
/// against the base.
pub open spec fn site_rejoins(base: Seq<char>, v: SiteV) -> bool {
    &&& all_rejoin(base, v.icons)
    &&& match v.manifest_url {
        Some(u) => rejoins(base, u),
        None => true,
    }
}

impl ScrapedSite<Unresolved> {
    /// Resolve every URL-bearing field against the base URL exactly once,
    /// dropping icon entries that do not join.
    pub fn resolve(self, base: &str) -> (r: ScrapedSite<Resolved>)
        ensures
            r@ == spec_resolve_site(base@, self@),
            site_rejoins(base@, r@),
    {
        let ScrapedSite { site_name, title, theme_color, icons, default_url_patterns, manifest_url }
            = self;
        let icons = resolve_lossy_urls(base, icons);
        let manifest_url = resolve_opt_url(base, &manifest_url);
        ScrapedSite { site_name, title, theme_color, icons, default_url_patterns, manifest_url }
    }
}

/// Resolution is idempotent for site descriptors: one whose URLs are
/// already fixed points of joining against the base — which is what
/// `resolve` produces — resolves to itself.
pub proof fn lemma_site_resolution_idempotent(base: Seq<char>, v: SiteV)
    requires
        site_rejoins(base, v),
    ensures
        spec_resolve_site(base, v) == v,
{
    crate::resolve::lemma_resolution_idempotent(base, v.icons);
}

/// The first value when present, else the second.
pub open spec fn spec_or<T>(a: Option<T>, b: Option<T>) -> Option<T> {
    match a {
        Some(x) => Some(x),
        None => b,
    }
}

/// The manifest's icon source URLs, reversed, so that its lowest-priority
/// icons come first.
pub open spec fn manifest_icon_srcs_rev(m: ManifestV) -> Seq<Seq<char>> {
    match m.icons {
        Some(ic) => ic.reverse().map_values(|i: IconV| i.src),
        None => Seq::empty(),
    }
}

/// Add the pattern `https?://<host><path>*` for the manifest's scope —
/// first normalized by joining with `.`, which keeps a scope ending in a
/// slash and truncates one that does not — unless the pattern list
/// already holds it.  The default patterns are kept: some sites' scope is
/// narrower than where they actually navigate.
pub open spec fn spec_add_scope_pattern(
    pats: Seq<Seq<char>>,
    scope: Option<Seq<char>>,
) -> Seq<Seq<char>> {
    match scope {
        Some(sc) => {
            let s2 = match join_of(sc, "."@) {
                Some(j) => j,
                None => sc,
            };
            if url_ok(s2) {
                match host_of(s2) {
                    Some(h) => {
                        let pat = "https?://"@ + h + path_of(s2) + "*"@;
                        if pats.contains(pat) {
                            pats
                        } else {
                            pats.push(pat)
                        }
                    },
                    None => pats,
                }
            } else {
                pats
            }
        },
        None => pats,
    }
}

/// The merge of a resolved site descriptor with a resolved manifest:
/// manifest fields win where present; the icon list is the manifest's
/// icons reversed, then the scraped icons, de-duplicated keeping first
/// occurrences; the URL patterns gain the scope's pattern when new; the
/// manifest link passes through.
pub open spec fn spec_supplement(site: SiteV, m: ManifestV) -> SiteV {
    SiteV {
        site_name: spec_or(m.short_name, site.site_name),
        title: spec_or(m.name, site.title),
        theme_color: spec_or(m.theme_color, site.theme_color),
        icons: spec_dedup(manifest_icon_srcs_rev(m) + site.icons),
        default_url_patterns: spec_add_scope_pattern(site.default_url_patterns, m.scope),
        manifest_url: site.manifest_url,
    }
}

impl ScrapedSite<Resolved> {
    /// Merge the manifest's metadata into the scraped descriptor.
    pub fn supplemented(self, m: Manifest<Resolved>) -> (r: ScrapedSite<Resolved>)
        ensures
            r@ == spec_supplement(self@, m@),
    {
        let ghost sv = self@;
        let ghost mv = m@;
        let mut icons: Vec<String> = Vec::new();
        let ghost mi = manifest_icon_srcs_rev(mv);
        match &m.icons {
            Some(ic) => {
                let n = ic.len();
                let mut i: usize = 0;
                proof {
                    assert(mi =~= ic@.map_values(|d: crate::manifest::Icon| d@).reverse()
                        .map_values(|x: IconV| x.src));
                    assert(str_views(icons@) =~= mi.take(0));
                }
                while i < n
                    invariant
                        i <= n,
                        n == ic@.len(),
                        mi == ic@.map_values(|d: crate::manifest::Icon| d@).reverse().map_values(
                            |x: IconV| x.src,
                        ),
                        mi.len() == n,
                        str_views(icons@) == mi.take(i as int),
                    decreases n - i,
                {
                    let ghost before = str_views(icons@);
                    let s = ic[n - 1 - i].src.clone();
                    proof {
                        assert(mi[i as int] == ic@[n - 1 - i as int]@.src);
                        assert(s@ == mi[i as int]);
                    }
                    icons.push(s);
                    proof {
                        assert(str_views(icons@) =~= before.push(mi[i as int]));
                        assert(before.push(mi[i as int]) =~= mi.take(i + 1));
                    }
                    i = i + 1;
                }
                proof {
                    assert(mi.take(n as int) =~= mi);
                }
            },
            None => {
                proof {
                    assert(str_views(icons@) =~= mi);
                }
            },
        }
        let mut site_icons = self.icons;
        let ghost mi_done = str_views(icons@);
        icons.append(&mut site_icons);
        proof {
            assert(str_views(icons@) =~= mi + sv.icons);
        }
        let icons = prune_duplicates(icons);
        let mut pats = self.default_url_patterns;
        match &m.scope {
            Some(sc) => {
                let s2 = match url_join(sc.as_str(), ".") {
                    Some(j) => j,
                    None => sc.clone(),
                };
                match url_parts(s2.as_str()) {
                    Some(p) => {
                        match &p.host {
                            Some(h) => {
                                let mut v: Vec<char> = Vec::new();
                                push_str_chars(&mut v, "https?://");
                                push_str_chars(&mut v, h.as_str());
                                push_str_chars(&mut v, p.path.as_str());
                                push_str_chars(&mut v, "*");
                                let pat = chars_to_string(&v);
                                proof {
                                    assert(pat@ == "https?://"@ + host_of(s2@)->Some_0 + path_of(
                                        s2@,
                                    ) + "*"@);
                                }
                                let present = crate::strutil::contains_string(&pats, &pat);
                                if !present {
                                    pats.push(pat);
                                }
                            },
                            None => (),
                        }
                    },
                    None => (),
                }
            },
            None => (),
        }
        proof {
            assert(str_views(pats@) =~= spec_add_scope_pattern(sv.default_url_patterns, mv.scope));
        }
        let site_name = match m.short_name {
            Some(s) => Some(s),
            None => self.site_name,
        };
        let title = match m.name {
            Some(s) => Some(s),
            None => self.title,
        };
        let theme_color = match m.theme_color {
            Some(c) => Some(c),
            None => self.theme_color,
        };
        ScrapedSite {
            site_name,
            title,
            theme_color,
            icons,
            default_url_patterns: pats,
            manifest_url: self.manifest_url,
        }
    }
}

/// What a lookup found, reading a missing element or attribute as empty
/// text.
pub open spec fn spec_found_or_empty(x: Option<Option<Seq<char>>>) -> Seq<char> {
    match x {
        Some(Some(s)) => s,
        _ => Seq::empty(),
    }
}

/// The single icon of the plain summary: the exact `rel='icon'` link if
/// that element exists, else the exact Apple touch icon; a non-empty
/// candidate is joined against the page URL when the join succeeds.
pub open spec fn spec_summary_icon(url: Seq<char>, doc: Seq<char>) -> Seq<char> {
    let raw = match link_icon_exact_of(doc) {
        Some(c) => match c {
            Some(s) => s,
            None => Seq::empty(),
        },
        None => spec_found_or_empty(link_apple_touch_exact_of(doc)),
    };
    if raw.len() > 0 {
        match join_of(url, raw) {
            Some(j) => j,
            None => raw,
        }
    } else {
        raw
    }
}

/// The summary's default patterns: both the host pattern and the
/// subdomain pattern, and only for a URL whose host is a domain name.
pub open spec fn spec_summary_patterns(u: Seq<char>) -> Seq<Seq<char>> {
    if url_ok(u) {
        match domain_of(u) {
            Some(d) => seq![spec_host_pattern(d), spec_subdomain_pattern(d)],
            None => Seq::empty(),
        }
    } else {
        Seq::empty()
    }
}

/// A plain, string-valued summary of a scraped page, with absent fields
/// read as empty text.
pub struct ScrapeResult {
    /// The declared site name, or empty.
    pub site_name: String,
    /// The page title, or empty.
    pub title: String,
    /// The declared theme color text, or empty.
    pub theme_color: String,
    /// The page's single best icon URL, or empty.
    pub icon_url: String,
    /// Default URL match patterns for the page's domain.
    pub default_url_patterns: Vec<String>,
}

impl ScrapeResult {
    /// Summarize a page directly into plain strings.
    pub fn parse(url: &str, doc: &str) -> (r: ScrapeResult)
        ensures
            r.title@ == match html_title_of(doc@) {
                Some(t) => t,
                None => Seq::<char>::empty(),
            },
            r.site_name@ == spec_found_or_empty(meta_og_site_name_of(doc@)),
            r.theme_color@ == spec_found_or_empty(meta_theme_color_of(doc@)),
            r.icon_url@ == spec_summary_icon(url@, doc@),
            str_views(r.default_url_patterns@) == spec_summary_patterns(url@),
    {
        let title = match html_title(doc) {
            Some(t) => t,
            None => String::new(),
        };
        let site_name = match meta_og_site_name(doc) {
            Some(Some(s)) => s,
            Some(None) => String::new(),
            None => String::new(),
        };
        let theme_color = match meta_theme_color(doc) {
            Some(Some(s)) => s,
            Some(None) => String::new(),
            None => String::new(),
        };
        let raw = match link_icon_exact(doc) {
            Some(Some(s)) => s,
            Some(None) => String::new(),
            None => match link_apple_touch_exact(doc) {
                Some(Some(s)) => s,
                Some(None) => String::new(),
                None => String::new(),
            },
        };
        let icon_url = if !raw.as_str().is_empty() {
            match url_join(url, raw.as_str()) {
                Some(j) => j,
                None => raw,
            }
        } else {
            raw
        };
        let mut pats: Vec<String> = Vec::new();
        match url_parts(url) {
            Some(p) => {
                match &p.domain {
                    Some(d) => {
                        let first = build_pattern("https?://", d.as_str(), "/*");
                        let second = build_pattern("https?://*.", d.as_str(), "/*");
                        pats.push(first);
                        pats.push(second);
                    },
                    None => (),
                }
            },
            None => (),
        }
        proof {
            assert(str_views(pats@) =~= spec_summary_patterns(url@));
        }
        ScrapeResult { site_name, title, theme_color, icon_url, default_url_patterns: pats }
    }
}

} // verus!
