use webber::color::Color;
use webber::manifest::{Icon, IconSizes, IconPurpose, Manifest};
use webber::site::{ScrapeResult, ScrapedSite};
use webber::{Resolved, Unresolved};

const PAGE: &str = "<html><head>\
    <title>  My Page  </title>\
    <meta property=\"og:site_name\" content=\"MySite\">\
    <meta name=\"theme-color\" content=\"#336699\">\
    <link rel=\"apple-touch-icon\" href=\"apple.png\">\
    <link rel=\"shortcut icon\" href=\"shortcut.png\">\
    <meta property=\"og:image\" content=\"og1.png\">\
    <meta property=\"og:image\" content=\"og2.png\">\
    <link rel=\"icon\" href=\"favicon.ico\">\
    <link rel=\"manifest\" href=\"site.webmanifest\">\
    </head><body></body></html>";

#[test]
fn extractor_reads_head_elements() {
    let site = ScrapedSite::<Unresolved>::parse("https://www.example.com/x", PAGE);
    assert_eq!(site.title.as_deref(), Some("My Page"));
    assert_eq!(site.site_name.as_deref(), Some("MySite"));
    assert_eq!(site.theme_color, Some(Color { r: 0x33, g: 0x66, b: 0x99, a: 255 }));
    assert_eq!(site.manifest_url.as_deref(), Some("site.webmanifest"));
    let icons: Vec<String> = site.icons.purge();
    // Apple touch icon, then the shortcut icon, the Open Graph images, and
    // the generic favicon.  `rel="shortcut icon"` matches both icon
    // selectors, so the dedup keeps its first occurrence only.
    assert_eq!(
        icons,
        vec!["apple.png", "shortcut.png", "og1.png", "og2.png"]
    );
    assert_eq!(
        site.default_url_patterns,
        vec!["https?://www.example.com/*", "https?://*.www.example.com/*"]
    );
}

#[test]
fn extractor_yields_empty_descriptor_for_bare_page() {
    let site = ScrapedSite::<Unresolved>::parse("http://127.0.0.1/", "<html></html>");
    assert!(site.title.is_none());
    assert!(site.site_name.is_none());
    assert!(site.theme_color.is_none());
    assert!(site.manifest_url.is_none());
    assert_eq!(site.icons.purge().len(), 0);
    // An IP literal host gets the host pattern but no subdomain pattern.
    assert_eq!(site.default_url_patterns, vec!["https?://127.0.0.1/*"]);
}

#[test]
fn extractor_drops_invalid_theme_color() {
    let page = "<html><head><meta name=\"theme-color\" content=\"chartreuse-ish\"></head></html>";
    let site = ScrapedSite::<Unresolved>::parse("https://example.com/", page);
    assert!(site.theme_color.is_none());
}

#[test]
fn site_resolution_joins_icons_and_manifest() {
    let site = ScrapedSite::<Unresolved>::parse("https://www.example.com/dir/page", PAGE);
    let r = site.resolve("https://www.example.com/dir/page");
    assert_eq!(r.icons[0], "https://www.example.com/dir/apple.png");
    assert_eq!(
        r.manifest_url.as_deref(),
        Some("https://www.example.com/dir/site.webmanifest")
    );
}

fn icon(src: &str) -> Icon {
    Icon {
        sizes: IconSizes::new(),
        src: String::from(src),
        icon_type: None,
        purpose: IconPurpose::default(),
    }
}

fn empty_manifest() -> Manifest<Resolved> {
    Manifest {
        background_color: None,
        dir: None,
        display: None,
        icons: None,
        lang: None,
        name: None,
        orientation: None,
        scope: None,
        short_name: None,
        shortcuts: None,
        start_url: None,
        theme_color: None,
    }
}

fn site_with(title: &str, icons: Vec<&str>, patterns: Vec<&str>) -> ScrapedSite<Resolved> {
    ScrapedSite {
        site_name: None,
        title: Some(String::from(title)),
        theme_color: None,
        icons: icons.into_iter().map(String::from).collect(),
        default_url_patterns: patterns.into_iter().map(String::from).collect(),
        manifest_url: None,
    }
}

#[test]
fn merge_prefers_manifest_name() {
    let site = site_with("A", vec![], vec![]);
    let mut m = empty_manifest();
    m.name = Some(String::from("B"));
    let merged = site.supplemented(m);
    assert_eq!(merged.title.as_deref(), Some("B"));
}

#[test]
fn merge_keeps_site_title_without_manifest_name() {
    let site = site_with("A", vec![], vec![]);
    let merged = site.supplemented(empty_manifest());
    assert_eq!(merged.title.as_deref(), Some("A"));
}

#[test]
fn merge_reverses_manifest_icons_and_dedups() {
    let site = site_with("t", vec!["m2", "s1"], vec![]);
    let mut m = empty_manifest();
    m.icons = Some(vec![icon("m1"), icon("m2")]);
    let merged = site.supplemented(m);
    assert_eq!(merged.icons, vec!["m2", "m1", "s1"]);
}

#[test]
fn merge_adds_scope_pattern_when_new() {
    let site = site_with(
        "t",
        vec![],
        vec!["https?://example.com/*", "https?://*.example.com/*"],
    );
    let mut m = empty_manifest();
    m.scope = Some(String::from("https://example.com/app/"));
    let merged = site.supplemented(m);
    assert_eq!(
        merged.default_url_patterns,
        vec![
            "https?://example.com/*",
            "https?://*.example.com/*",
            "https?://example.com/app/*"
        ]
    );
}

#[test]
fn merge_skips_scope_pattern_already_present() {
    let site = site_with("t", vec![], vec!["https?://example.com/*"]);
    let mut m = empty_manifest();
    m.scope = Some(String::from("https://example.com/anything"));
    // The scope is normalized by joining with `/` first, so its pattern is
    // the host root, which is already present.
    let merged = site.supplemented(m);
    assert_eq!(merged.default_url_patterns, vec!["https?://example.com/*"]);
}

#[test]
fn summary_reads_exact_rel_links() {
    let page = "<html><head><title>T</title>\
        <link rel=\"icon\" href=\"fav.ico\">\
        <link rel=\"apple-touch-icon\" href=\"apple.png\">\
        </head></html>";
    let r = ScrapeResult::parse("https://example.com/a/", page);
    assert_eq!(r.title, "T");
    assert_eq!(r.icon_url, "https://example.com/a/fav.ico");
    assert_eq!(
        r.default_url_patterns,
        vec!["https?://example.com/*", "https?://*.example.com/*"]
    );
    assert_eq!(r.site_name, "");
    assert_eq!(r.theme_color, "");
}
