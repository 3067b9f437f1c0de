use webber::color::{parse_css_color, Color};
use webber::model::{Permissions, UrlPatterns};

#[test]
fn patterns_join_with_commas() {
    let mut pats = UrlPatterns::new();
    pats.add(String::from("https?://example.com/*"));
    pats.add(String::from("https?://*.example.com/*"));
    assert_eq!(
        pats.get_patterns_string(),
        "https?://example.com/*,https?://*.example.com/*"
    );
}

#[test]
fn patterns_edit_by_row() {
    let mut pats = UrlPatterns::new();
    pats.add(String::from("one"));
    pats.add(String::from("two"));
    assert!(pats.setUrl(1, String::from("TWO")));
    assert!(!pats.setUrl(2, String::from("out of range")));
    assert!(pats.remove(0));
    assert!(!pats.remove(5));
    assert_eq!(pats.get_patterns_string(), "TWO");
    pats.clear();
    assert_eq!(pats.get_patterns_string(), "");
}

#[test]
fn permissions_report_enabled_names() {
    let mut perms = Permissions::new();
    perms.add(String::from("audio"), String::from("Play sound"), true);
    perms.add(String::from("camera"), String::from("Take pictures"), false);
    perms.add(String::from("location"), String::from("Locate"), true);
    assert_eq!(perms.get_enabled(), vec!["audio", "location"]);
    assert!(perms.setEnabled(1, true));
    assert!(!perms.setEnabled(9, true));
    assert_eq!(perms.get_enabled(), vec!["audio", "camera", "location"]);
    perms.clear();
    assert_eq!(perms.get_enabled().len(), 0);
}

#[test]
fn color_hex_rendering() {
    let c = parse_css_color("#aabbcc").unwrap();
    assert_eq!(c, Color { r: 0xaa, g: 0xbb, b: 0xcc, a: 255 });
    assert_eq!(c.to_hex_string(), "#aabbcc");
    let translucent = Color { r: 1, g: 2, b: 3, a: 128 };
    assert_eq!(translucent.to_hex_string(), "#01020380");
    assert_eq!(parse_css_color("rebeccapurple").unwrap().to_hex_string(), "#663399");
    assert!(parse_css_color("no such color").is_none());
}
