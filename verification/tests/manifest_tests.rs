use webber::color::Color;
use webber::manifest::{
    parse_purpose, parse_sizes, DisplayMode, FetchManifestError, IconPurpose, Manifest,
    Orientation, TextDirection,
};
use webber::Unresolved;

#[test]
fn manifest_reads_recognized_fields() {
    let doc = "{\"name\":\"Full Name\",\"short_name\":\"Short\",\"display\":\"standalone\",\
               \"orientation\":\"portrait-primary\",\"dir\":\"rtl\",\"lang\":\"en-US\",\
               \"theme_color\":\"#ff0000\",\"background_color\":\"white\",\
               \"scope\":\"/app/\",\"start_url\":\"/app/index.html\"}";
    let m = Manifest::<Unresolved>::parse(doc).unwrap();
    assert_eq!(m.name.as_deref(), Some("Full Name"));
    assert_eq!(m.short_name.as_deref(), Some("Short"));
    assert!(matches!(m.display, Some(DisplayMode::Standalone)));
    assert!(matches!(m.orientation, Some(Orientation::PortraitPrimary)));
    assert!(matches!(m.dir, Some(TextDirection::RightToLeft)));
    assert_eq!(m.lang.as_deref(), Some("en-US"));
    assert_eq!(m.theme_color, Some(Color { r: 255, g: 0, b: 0, a: 255 }));
    assert_eq!(m.background_color, Some(Color { r: 255, g: 255, b: 255, a: 255 }));
    assert_eq!(m.scope.as_deref(), Some("/app/"));
    assert_eq!(m.start_url.as_deref(), Some("/app/index.html"));
}

#[test]
fn manifest_defaults_malformed_fields() {
    let doc = "{\"name\":17,\"display\":\"weird\",\"orientation\":[],\"dir\":true,\
               \"lang\":\"!! not a tag\",\"theme_color\":\"not-a-color\",\
               \"icons\":\"nope\",\"shortcuts\":{}}";
    let m = Manifest::<Unresolved>::parse(doc).unwrap();
    assert!(m.name.is_none());
    assert!(m.display.is_none());
    assert!(m.orientation.is_none());
    assert!(m.dir.is_none());
    assert!(m.lang.is_none());
    assert!(m.theme_color.is_none());
    assert!(m.icons.is_none());
    assert!(m.shortcuts.is_none());
}

#[test]
fn manifest_rejects_only_non_json() {
    assert!(Manifest::<Unresolved>::parse("{ not json").is_err());
    assert!(Manifest::<Unresolved>::parse("[1,2,3]").is_err());
    assert!(Manifest::<Unresolved>::parse("{}").is_ok());
}

#[test]
fn icon_entries_tolerate_individual_failures() {
    let doc = "{\"icons\":[\
        {\"src\":\"a.png\",\"sizes\":\"48x48\"},\
        {\"sizes\":\"96x96\"},\
        \"junk\",\
        {\"src\":\"b.png\",\"purpose\":\"bogus keywords\"},\
        {\"src\":\"c.png\",\"purpose\":\"maskable any\"}]}";
    let m = Manifest::<Unresolved>::parse(doc).unwrap();
    let icons = m.icons.unwrap();
    let kept = icons.purge();
    // Entries without a src, non-objects, and entries whose purpose string
    // holds no recognized keyword are dropped; the rest keep their order.
    assert_eq!(kept.len(), 2);
    assert_eq!(kept[0].src, "a.png");
    assert_eq!(kept[0].sizes.sizes, vec![(48, 48)]);
    assert!(kept[0].purpose.any && !kept[0].purpose.maskable);
    assert_eq!(kept[1].src, "c.png");
    assert!(kept[1].purpose.maskable && kept[1].purpose.any && !kept[1].purpose.monochrome);
}

#[test]
fn icon_purpose_empty_string_fails_the_entry() {
    let doc = "{\"icons\":[{\"src\":\"a.png\",\"purpose\":\"\"}]}";
    let m = Manifest::<Unresolved>::parse(doc).unwrap();
    assert_eq!(m.icons.unwrap().purge().len(), 0);
}

#[test]
fn icon_purpose_non_string_takes_the_default() {
    // Only a keyword string without recognized keywords fails the entry;
    // any other shape falls back to the default purpose.
    let doc = "{\"icons\":[{\"src\":\"a.png\",\"purpose\":5},\
               {\"src\":\"b.png\",\"purpose\":[\"maskable\"]}]}";
    let m = Manifest::<Unresolved>::parse(doc).unwrap();
    let kept = m.icons.unwrap().purge();
    assert_eq!(kept.len(), 2);
    assert!(kept[0].purpose.any && !kept[0].purpose.maskable && !kept[0].purpose.monochrome);
    assert!(kept[1].purpose.any && !kept[1].purpose.maskable);
}

#[test]
fn purpose_keywords_are_a_whitespace_set() {
    let p = parse_purpose("monochrome  any").unwrap();
    assert_eq!(
        p,
        IconPurpose { monochrome: true, maskable: false, any: true }
    );
    assert!(parse_purpose("nothing recognized").is_none());
    assert!(parse_purpose("").is_none());
}

#[test]
fn sizes_skips_malformed_tokens() {
    let s = parse_sizes("48x48  bogus 96x96 12x12x12 x 300x");
    assert_eq!(s.sizes, vec![(48, 48), (96, 96)]);
}

#[test]
fn shortcuts_require_name_and_url() {
    let doc = "{\"shortcuts\":[\
        {\"name\":\"Play\",\"url\":\"/play\",\"description\":\"start\"},\
        {\"url\":\"/skip\"},\
        {\"name\":\"NoUrl\"},\
        {\"name\":\"Both\",\"url\":\"/b\",\"icons\":[{\"src\":\"s.png\"},{}]}]}";
    let m = Manifest::<Unresolved>::parse(doc).unwrap();
    let kept = m.shortcuts.unwrap().purge();
    assert_eq!(kept.len(), 2);
    assert_eq!(kept[0].name, "Play");
    assert_eq!(kept[0].url, "/play");
    assert_eq!(kept[0].description.as_deref(), Some("start"));
    assert_eq!(kept[1].name, "Both");
    let icons = kept[1].icons.as_ref().unwrap();
    assert_eq!(icons.iter().len(), 1);
}

#[test]
fn manifest_resolution_joins_and_purges() {
    let doc = "{\"scope\":\"/app/\",\"start_url\":\"start\",\
               \"icons\":[{\"src\":\"i.png\"},{\"src\":\"http://[bad\"}]}";
    let m = Manifest::<Unresolved>::parse(doc).unwrap();
    let r = m.resolve("https://example.com/m/app.webmanifest");
    assert_eq!(r.scope.as_deref(), Some("https://example.com/app/"));
    assert_eq!(r.start_url.as_deref(), Some("https://example.com/m/start"));
    let icons = r.icons.unwrap();
    assert_eq!(icons.len(), 1);
    assert_eq!(icons[0].src, "https://example.com/m/i.png");
}

#[test]
fn fetch_manifest_error_messages() {
    let n = FetchManifestError::NetworkError(String::from("timed out"));
    assert_eq!(n.message(), "Network error: timed out");
    let p = FetchManifestError::ParseError(String::from("bad json"));
    assert_eq!(p.message(), "Parse error: bad json");
}
