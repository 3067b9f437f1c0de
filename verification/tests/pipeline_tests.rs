use webber::pipeline::{apply_manifest, site_from_html};

const PAGE: &str = "<html><head>\
    <title>Board Games</title>\
    <meta property=\"og:site_name\" content=\"Boards\">\
    <link rel=\"icon\" href=\"/static/fav.ico\">\
    <link rel=\"manifest\" href=\"/static/app.webmanifest\">\
    </head></html>";

#[test]
fn pipeline_resolves_the_scraped_page() {
    let site = site_from_html("https://games.example.com/lobby", PAGE);
    assert_eq!(site.title.as_deref(), Some("Board Games"));
    assert_eq!(site.icons, vec!["https://games.example.com/static/fav.ico"]);
    assert_eq!(
        site.manifest_url.as_deref(),
        Some("https://games.example.com/static/app.webmanifest")
    );
    assert_eq!(
        site.default_url_patterns,
        vec![
            "https?://games.example.com/*",
            "https?://*.games.example.com/*"
        ]
    );
}

#[test]
fn pipeline_merges_a_fetched_manifest() {
    let site = site_from_html("https://games.example.com/lobby", PAGE);
    let manifest_body = "{\"name\":\"Board Games Deluxe\",\"short_name\":\"BGD\",\
        \"scope\":\"/play/\",\"icons\":[{\"src\":\"big.png\"}]}";
    let merged = apply_manifest(
        site,
        "https://games.example.com/static/app.webmanifest",
        manifest_body,
    );
    assert_eq!(merged.title.as_deref(), Some("Board Games Deluxe"));
    assert_eq!(merged.site_name.as_deref(), Some("BGD"));
    // Manifest icons come first (reversed), then the scraped ones.
    assert_eq!(
        merged.icons,
        vec![
            "https://games.example.com/static/big.png",
            "https://games.example.com/static/fav.ico"
        ]
    );
    // The scope adds its own pattern after the defaults.
    assert_eq!(
        merged.default_url_patterns,
        vec![
            "https?://games.example.com/*",
            "https?://*.games.example.com/*",
            "https?://games.example.com/play/*"
        ]
    );
}

#[test]
fn pipeline_degrades_gracefully_on_bad_manifest() {
    let site = site_from_html("https://games.example.com/lobby", PAGE);
    let before_title = site.title.clone();
    let merged = apply_manifest(
        site,
        "https://games.example.com/static/app.webmanifest",
        "this is not json at all",
    );
    assert_eq!(merged.title, before_title);
    assert_eq!(merged.icons, vec!["https://games.example.com/static/fav.ico"]);
}
