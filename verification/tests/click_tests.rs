use std::io::Read;

use blake2::digest::Digest;
use webber::click::{
    control_control_content, control_preinst_content, AppArmor, ControlManifest, Icon, IconPlan,
    Package, DEFAULT_ICON_SVG,
};

fn sample_package() -> Package {
    Package {
        url: String::from("https://example.com/"),
        name: String::from("My App"),
        theme_color: String::from("#336699"),
        icon: Icon::Local(String::new()),
        url_patterns: String::from("https?://example.com/*"),
        permissions: vec![String::from("audio")],
        enable_address_bar: true,
        enable_back_forward: false,
        enable_fullscreen: true,
        user_agent: String::new(),
    }
}

fn blake2b8_hex(bytes: &[u8]) -> String {
    let mut h = <blake2::Blake2b<blake2::digest::consts::U8> as Digest>::new();
    h.update(bytes);
    hex::encode(h.finalize())
}

#[test]
fn appname_for_root_url_is_the_host() {
    let mut p = sample_package();
    p.url = String::from("https://example.com/");
    assert_eq!(p.appname(), "example-com");
}

#[test]
fn appname_hashes_a_nontrivial_path() {
    let mut p = sample_package();
    p.url = String::from("https://example.com/app");
    let expected = format!("example-com-{}", blake2b8_hex(b"/app"));
    assert_eq!(p.appname(), expected);
}

#[test]
fn appname_mixes_the_port_into_host_and_hash() {
    let mut p = sample_package();
    p.url = String::from("https://example.com:8080/");
    let mut hashed: Vec<u8> = b"/".to_vec();
    hashed.extend_from_slice(&8080u16.to_le_bytes());
    let expected = format!("example-com-8080-{}", blake2b8_hex(&hashed));
    assert_eq!(p.appname(), expected);
}

#[test]
fn appname_respects_the_socket_budget() {
    let mut p = sample_package();
    let long_host = "a".repeat(90);
    p.url = format!("https://{}.example.com/some/long/path", long_host);
    let id = p.appname();
    let socket = format!("/home/phablet/.local/share/{}.webber/SingletonSocket", id);
    assert!(socket.len() <= 107);
    // The host part is cut to its budget before the digest is appended.
    assert_eq!(id.len(), 40 + 1 + 16);
}

#[test]
fn appname_uses_only_the_identifier_alphabet() {
    let mut p = sample_package();
    p.url = String::from("https://WEIRD_Host.Example.com:8080/Path With Space/x?q=1");
    let id = p.appname();
    assert!(!id.is_empty());
    assert!(id
        .chars()
        .all(|c| c.is_ascii_lowercase() || c.is_ascii_digit() || c == '-'));
}

#[test]
fn package_name_transliterates_and_filters() {
    let mut p = sample_package();
    p.name = String::from("Caf\u{e9} *Zebra*!");
    assert_eq!(p.package_name(), "Cafe Zebra");
}

#[test]
fn package_name_falls_back_to_placeholder() {
    let mut p = sample_package();
    p.name = String::from("@#$%");
    assert_eq!(p.package_name(), "Webapp");
    assert_eq!(p.click_filename(), "Webapp.click");
}

#[test]
fn sanitize_trims_the_name() {
    let mut p = sample_package();
    p.name = String::from("  Spaced Out \n");
    p.sanitize();
    assert_eq!(p.name, "Spaced Out");
}

#[test]
fn sanitize_strips_unicode_whitespace() {
    let mut p = sample_package();
    p.name = String::from("\u{a0}\u{2003}Padded\u{a0}");
    p.sanitize();
    assert_eq!(p.name, "Padded");
    assert_eq!(p.name, "\u{a0}\u{2003}Padded\u{a0}".trim());
}

#[test]
fn control_file_is_rendered_exactly() {
    assert_eq!(
        control_control_content("example-com"),
        "Package: example-com.webber\nVersion: 1.0.0\nClick-Version: 0.4\nArchitecture: all\nMaintainer: Webber <noreply@ubports.com>\nDescription: Shortcut\n"
    );
    assert!(control_preinst_content().starts_with("#! /bin/sh"));
}

#[test]
fn control_manifest_matches_a_json_writer() {
    let m = ControlManifest::new(String::from("my-app"), String::from("Tricky \"Title\"\\"));
    let rendered = m.to_string();
    // The rendering agrees with an ordinary JSON writer: parse it back and
    // compare the fields.
    let v: serde_json::Value = serde_json::from_str(&rendered).unwrap();
    assert_eq!(v["architecture"], "all");
    assert_eq!(v["framework"], "ubuntu-sdk-20.04");
    assert_eq!(v["name"], "my-app.webber");
    assert_eq!(v["title"], "Tricky \"Title\"\\");
    assert_eq!(v["version"], "1.0.0");
    assert_eq!(v["hooks"]["my-app"]["apparmor"], "shortcut.apparmor");
    assert_eq!(v["hooks"]["my-app"]["desktop"], "shortcut.desktop");
}

#[test]
fn apparmor_lists_fixed_groups_then_permissions() {
    let a = AppArmor::new(vec![String::from("audio"), String::from("camera")]);
    assert_eq!(
        a.to_string(),
        "{\"template\":\"ubuntu-webapp\",\"policy_groups\":[\"networking\",\"webview\",\"audio\",\"camera\"],\"policy_version\":\"20.04\"}"
    );
}

#[test]
fn desktop_file_holds_flags_in_order() {
    let p = sample_package();
    let d = webber::click::data_desktop_content(&p, "icon.svg");
    let pat = snailquote::escape(&p.url_patterns);
    let expected_exec = format!(
        "Exec=webapp-container --webappUrlPatterns={} --store-session-cookies --enable-media-hub-audio --enable-addressbar --fullscreen https://example.com/\n",
        pat
    );
    assert!(d.contains(&expected_exec), "desktop file was: {}", d);
    assert!(d.starts_with("[Desktop Entry]\nName=My App\n"));
    assert!(d.contains("\nIcon=icon.svg\n"));
    assert!(d.contains("\nX-Lomiri-Splash-Color=#336699\n"));
}

#[test]
fn desktop_file_quotes_the_user_agent() {
    let mut p = sample_package();
    p.user_agent = String::from("My Agent/1.0 (X11; Linux)");
    let d = webber::click::data_desktop_content(&p, "icon.png");
    let ua = snailquote::escape(&p.user_agent);
    assert!(d.contains(&format!("--user-agent-string={}", ua)));
}

#[test]
fn icon_plan_downloads_remote_with_extension() {
    let mut p = sample_package();
    p.icon = Icon::Remote(String::from("https://example.com/img/logo.png?v=2"));
    match p.icon_plan() {
        IconPlan::Download { url, filename } => {
            assert_eq!(url, "https://example.com/img/logo.png?v=2");
            assert_eq!(filename, "icon.png");
        }
        other => panic!("unexpected plan: {:?}", plan_name(&other)),
    }
}

#[test]
fn icon_plan_dotless_segment_means_default() {
    // A last path segment without a dot carries no extension, so the
    // build falls back to the bundled icon.
    let mut p = sample_package();
    p.icon = Icon::Remote(String::from("https://example.com/favicon"));
    assert!(matches!(p.icon_plan(), IconPlan::BundledDefault));
}

#[test]
fn icon_plan_falls_back_for_unparsable_remote() {
    let mut p = sample_package();
    p.icon = Icon::Remote(String::from("not a url"));
    assert!(matches!(p.icon_plan(), IconPlan::BundledDefault));
}

#[test]
fn icon_plan_copies_local_files() {
    let mut p = sample_package();
    p.icon = Icon::Local(String::from("/tmp/art/logo.jpeg"));
    match p.icon_plan() {
        IconPlan::CopyLocal { path, filename } => {
            assert_eq!(path, "/tmp/art/logo.jpeg");
            assert_eq!(filename, "icon.jpeg");
        }
        other => panic!("unexpected plan: {:?}", plan_name(&other)),
    }
}

#[test]
fn icon_plan_local_without_extension() {
    let mut p = sample_package();
    p.icon = Icon::Local(String::from("artwork/logo"));
    match p.icon_plan() {
        IconPlan::CopyLocal { filename, .. } => assert_eq!(filename, "icon"),
        other => panic!("unexpected plan: {:?}", plan_name(&other)),
    }
}

#[test]
fn icon_plan_empty_local_path_means_default() {
    let p = sample_package();
    assert!(matches!(p.icon_plan(), IconPlan::BundledDefault));
}

fn plan_name(p: &IconPlan) -> &'static str {
    match p {
        IconPlan::Download { .. } => "download",
        IconPlan::CopyLocal { .. } => "copy",
        IconPlan::BundledDefault => "default",
    }
}

fn read_targz(bytes: &[u8]) -> Vec<(String, Vec<u8>)> {
    let dec = flate2::read::GzDecoder::new(bytes);
    let mut ar = tar::Archive::new(dec);
    let mut out = Vec::new();
    for entry in ar.entries().unwrap() {
        let mut entry = entry.unwrap();
        let name = entry.path().unwrap().to_string_lossy().into_owned();
        let mut data = Vec::new();
        entry.read_to_end(&mut data).unwrap();
        out.push((name, data));
    }
    out
}

fn member_data<'a>(archive: &'a [u8], name: &str) -> &'a [u8] {
    // GNU archive members with short names are stored inline as `name/`,
    // each header 60 bytes with the size at offset 48.
    let needle = format!("{}/", name);
    let pos = archive
        .windows(needle.len())
        .position(|w| w == needle.as_bytes())
        .unwrap();
    let size_field = &archive[pos + 48..pos + 58];
    let size: usize = std::str::from_utf8(size_field)
        .unwrap()
        .trim()
        .parse()
        .unwrap();
    &archive[pos + 60..pos + 60 + size]
}

#[test]
fn create_assembles_members_in_fixed_order() {
    let p = sample_package();
    let bytes = p
        .create("icon.svg", DEFAULT_ICON_SVG.as_bytes().to_vec())
        .unwrap();
    assert!(bytes.starts_with(b"!<arch>\n"));
    let find = |name: &str| {
        let needle = format!("{}/", name);
        bytes
            .windows(needle.len())
            .position(|w| w == needle.as_bytes())
            .unwrap()
    };
    let a = find("debian-binary");
    let b = find("control.tar.gz");
    let c = find("data.tar.gz");
    let d = find("_click-binary");
    assert!(a < b && b < c && c < d);
    assert_eq!(member_data(&bytes, "debian-binary"), b"2.0\n");
    assert_eq!(member_data(&bytes, "_click-binary"), b"0.4\n");
}

#[test]
fn create_renders_control_and_data_trees() {
    let p = sample_package();
    let bytes = p
        .create("icon.svg", DEFAULT_ICON_SVG.as_bytes().to_vec())
        .unwrap();

    let control = read_targz(member_data(&bytes, "control.tar.gz"));
    let names: Vec<&str> = control.iter().map(|(n, _)| n.as_str()).collect();
    assert_eq!(names, vec!["control", "manifest", "preinst"]);
    assert_eq!(
        control[0].1,
        control_control_content(&p.appname()).into_bytes()
    );
    let manifest: serde_json::Value = serde_json::from_slice(&control[1].1).unwrap();
    assert_eq!(manifest["name"], "example-com.webber");
    assert_eq!(manifest["title"], "My App");

    let data = read_targz(member_data(&bytes, "data.tar.gz"));
    let names: Vec<&str> = data.iter().map(|(n, _)| n.as_str()).collect();
    assert_eq!(names, vec!["shortcut.apparmor", "shortcut.desktop", "icon.svg"]);
    let apparmor: serde_json::Value = serde_json::from_slice(&data[0].1).unwrap();
    assert_eq!(apparmor["policy_groups"][0], "networking");
    assert_eq!(apparmor["policy_groups"][1], "webview");
    assert_eq!(apparmor["policy_groups"][2], "audio");
}

#[test]
fn default_icon_is_the_single_staged_icon() {
    // An empty local icon path falls back to the bundled default, and the
    // data tree then holds exactly one icon file carrying it.
    let p = sample_package();
    assert!(matches!(p.icon_plan(), IconPlan::BundledDefault));
    let bytes = p
        .create("icon.svg", webber::click::default_icon_bytes())
        .unwrap();
    let data = read_targz(member_data(&bytes, "data.tar.gz"));
    let icons: Vec<&(String, Vec<u8>)> = data
        .iter()
        .filter(|(n, _)| n.starts_with("icon"))
        .collect();
    assert_eq!(icons.len(), 1);
    assert_eq!(icons[0].0, "icon.svg");
    assert_eq!(icons[0].1, DEFAULT_ICON_SVG.as_bytes());
}

#[test]
fn archive_bytes_match_an_independent_writer() {
    let pairs: Vec<(&str, Vec<u8>)> = vec![
        ("debian-binary", b"2.0\n".to_vec()),
        ("odd.bin", vec![1, 2, 3]),
        ("empty", Vec::new()),
    ];
    let members: Vec<webber::archive::ArMember> = pairs
        .iter()
        .map(|(n, d)| webber::archive::ArMember { name: n.to_string(), data: d.clone() })
        .collect();
    let ours = webber::archive::ar_archive(&members).unwrap();

    let other_members: Vec<ar_archive_writer::NewArchiveMember> = pairs
        .iter()
        .map(|(n, d)| {
            ar_archive_writer::NewArchiveMember::new(
                d.clone(),
                &ar_archive_writer::DEFAULT_OBJECT_READER,
                n.to_string(),
            )
        })
        .collect();
    let mut theirs = std::io::Cursor::new(Vec::new());
    ar_archive_writer::write_archive_to_stream(
        &mut theirs,
        &other_members,
        ar_archive_writer::ArchiveKind::Gnu,
        false,
        None,
    )
    .unwrap();
    let theirs = theirs.into_inner();
    // The independent writer prefixes an empty symbol table member (a 60
    // byte "/" header plus 8 zero bytes); the member encodings after it
    // must agree byte for byte.
    assert_eq!(&theirs[..8], b"!<arch>\n");
    assert_eq!(theirs[8], b'/');
    assert_eq!(&ours[..8], b"!<arch>\n");
    assert_eq!(&ours[8..], &theirs[76..]);
}

#[test]
fn archive_rejects_oversized_names() {
    let members = vec![webber::archive::ArMember {
        name: String::from("a-name-longer-than-the-field"),
        data: Vec::new(),
    }];
    assert!(webber::archive::ar_archive(&members).is_none());
}
