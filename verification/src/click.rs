//! The package builder: identifier derivation, rendered control files,
//! and the assembled archive.
//!
//! The derived application identifier is charset-restricted and
//! length-bounded: the installed application later creates a named
//! communication endpoint under it, and the platform caps such endpoint
//! paths at 107 bytes.

use vstd::prelude::*;

use crate::archive::{
    ar_archive, ar_member_views, ascii_of, blake2b8, blake2b8_of, hex_lower, lemma_hex_of_shape,
    shell_escape, shell_escaped_of, spec_ar_bytes, spec_ar_members_ok, spec_hex_of, tar_accepts,
    tar_entries, targz_append, targz_finish, targz_new, targz_of, to_ascii, ArMember,
};
use crate::strutil::{
    ascii_lower, chars_to_string, dec_digits, eq_str, is_digit, is_lower, push_all,
    push_str_chars, spec_ascii_lower, spec_dec, spec_trim, str_chars, trim_str,
};
use crate::urls::{host_of, path_of, port_of, url_ok, url_parts};
use vstd::utf8::encode_utf8;

verus! {

/// The endpoint path budget: one byte is reserved for the terminator.
pub const UNIX_SOCKET_MAX_LEN: usize = 107;

/// The length of the hex digest appended to the identifier.
pub const SHORT_HASH_LEN: usize = 16;

/// What is left of the budget for the host part: the budget, less the 51
/// bytes of the fixed endpoint directory, dash and suffix, less the
/// digest.
pub const AVAILABLE_LEN: usize = UNIX_SOCKET_MAX_LEN - 51 - SHORT_HASH_LEN;

/// Where the package's icon comes from.
#[derive(Debug)]
pub enum Icon {
    /// A file on disk, by path; an empty path means no icon.
    Local(String),
    /// A file to download, by URL.
    Remote(String),
}

/// Everything the builder needs: the target URL, user-edited metadata,
/// the icon choice, and the launcher's feature flags.
#[derive(Debug)]
pub struct Package {
    /// The URL the package opens.
    pub url: String,
    /// The user-facing name.
    pub name: String,
    /// The splash color.
    pub theme_color: String,
    /// Where the icon comes from.
    pub icon: Icon,
    /// The URL match patterns, comma-joined.
    pub url_patterns: String,
    /// Extra permission names the user enabled.
    pub permissions: Vec<String>,
    /// Show the address bar.
    pub enable_address_bar: bool,
    /// Show back/forward controls.
    pub enable_back_forward: bool,
    /// Open fullscreen.
    pub enable_fullscreen: bool,
    /// A custom user-agent string; empty means none.
    pub user_agent: String,
}

impl Package {
    /// Strip surrounding whitespace from the name: the launcher grid
    /// mishandles names with leading whitespace.
    pub fn sanitize(&mut self)
        ensures
            final (self).name@ == spec_trim(old(self).name@),
            final (self).url == old(self).url,
            final (self).theme_color == old(self).theme_color,
            final (self).icon == old(self).icon,
            final (self).url_patterns == old(self).url_patterns,
            final (self).permissions == old(self).permissions,
            final (self).enable_address_bar == old(self).enable_address_bar,
            final (self).enable_back_forward == old(self).enable_back_forward,
            final (self).enable_fullscreen == old(self).enable_fullscreen,
            final (self).user_agent == old(self).user_agent,
    {
        let trimmed = trim_str(self.name.as_str());
        self.name = trimmed;
    }
}

/// A character the display name keeps after transliteration.
pub open spec fn is_name_keep_char(c: char) -> bool {
    ('a' <= c <= 'z') || ('A' <= c <= 'Z') || is_digit(c) || c == ' ' || c == '-' || c == '.'
}

/// The transliterated name restricted to letters, digits, space, hyphen
/// and period.
pub open spec fn spec_strip_name(s: Seq<char>) -> Seq<char>
    decreases s.len(),
{
    if s.len() == 0 {
        Seq::empty()
    } else {
        spec_strip_name(s.drop_last()) + (if is_name_keep_char(s.last()) {
            seq![s.last()]
        } else {
            Seq::empty()
        })
    }
}

/// The sanitized display name: the restricted transliteration, or a
/// fixed placeholder when nothing is left of it.
pub open spec fn spec_package_name(name: Seq<char>) -> Seq<char> {
    let t = spec_strip_name(ascii_of(name));
    if t.len() == 0 {
        "Webapp"@
    } else {
        t
    }
}

/// What one character of the lower-cased host part contributes to the
/// identifier: separators become dashes, lower-case letters and digits
/// stay, everything else is dropped.
pub open spec fn spec_id_map_char(c: char) -> Option<char> {
    if c == '/' || c == '.' || c == '_' || c == '-' {
        Some('-')
    } else if is_lower(c) || is_digit(c) {
        Some(c)
    } else {
        None
    }
}

/// The identifier characters contributed by a text, lower-cased first.
pub open spec fn spec_id_filter(s: Seq<char>) -> Seq<char>
    decreases s.len(),
{
    if s.len() == 0 {
        Seq::empty()
    } else {
        spec_id_filter(s.drop_last()) + (match spec_id_map_char(spec_ascii_lower(s.last())) {
            Some(c) => seq![c],
            None => Seq::empty(),
        })
    }
}

/// The host of the URL, or empty text for an unparsable or host-less
/// URL.
pub open spec fn spec_url_host_part(u: Seq<char>) -> Seq<char> {
    if url_ok(u) {
        match host_of(u) {
            Some(h) => h,
            None => Seq::empty(),
        }
    } else {
        Seq::empty()
    }
}

/// The path of the URL, or empty text for an unparsable URL.
pub open spec fn spec_url_path_part(u: Seq<char>) -> Seq<char> {
    if url_ok(u) {
        path_of(u)
    } else {
        Seq::empty()
    }
}

/// The explicit port of the URL, if any.
pub open spec fn spec_url_port(u: Seq<char>) -> Option<u16> {
    if url_ok(u) {
        port_of(u)
    } else {
        None
    }
}

/// The raw main part of the identifier: the host, with the explicit port
/// appended after a dash.
pub open spec fn spec_main_part(u: Seq<char>) -> Seq<char> {
    match spec_url_port(u) {
        Some(p) => spec_url_host_part(u) + seq!['-'] + spec_dec(p as nat),
        None => spec_url_host_part(u),
    }
}

/// Whether the identifier carries a digest: for a non-trivial path or an
/// explicit port.
pub open spec fn spec_needs_hash(u: Seq<char>) -> bool {
    (spec_url_path_part(u) != "/"@ && spec_url_path_part(u).len() != 0) || spec_url_port(
        u,
    ) is Some
}

/// The little-endian bytes of the port, when present.
pub open spec fn spec_port_le(p: Option<u16>) -> Seq<u8> {
    match p {
        Some(x) => seq![(x % 256) as u8, (x / 256) as u8],
        None => Seq::empty(),
    }
}

/// The digest part of the identifier: the short digest of the path
/// bytes, with the port bytes mixed in, hex-encoded.  The port goes into
/// the digest too because truncation may cut it out of the host part.
pub open spec fn spec_hash_part(u: Seq<char>) -> Seq<char> {
    spec_hex_of(blake2b8_of(encode_utf8(spec_url_path_part(u)) + spec_port_le(spec_url_port(u))))
}

/// First `n` characters when the text is longer than `n`.
pub open spec fn spec_trunc(s: Seq<char>, n: int) -> Seq<char> {
    if s.len() <= n {
        s
    } else {
        s.take(n)
    }
}

/// The host part of the identifier: filtered, and truncated before the
/// digest is appended, so the digest is never truncated.
pub open spec fn spec_host_part(u: Seq<char>) -> Seq<char> {
    spec_trunc(spec_id_filter(spec_main_part(u)), AVAILABLE_LEN as int)
}

/// The derived application identifier.
pub open spec fn spec_appname(u: Seq<char>) -> Seq<char> {
    if spec_needs_hash(u) {
        spec_host_part(u) + seq!['-'] + spec_hash_part(u)
    } else {
        spec_host_part(u)
    }
}

/// A character the identifier may contain.
pub open spec fn is_id_char(c: char) -> bool {
    is_lower(c) || is_digit(c) || c == '-'
}

/// The endpoint path the installed application will create under the
/// identifier.
pub open spec fn spec_socket_path(id: Seq<char>) -> Seq<char> {
    "/home/phablet/.local/share/"@ + id + ".webber/SingletonSocket"@
}

/// Every character the filter yields is an identifier character.
pub proof fn lemma_id_filter_chars(s: Seq<char>)
    ensures
        forall|i: int| 0 <= i < spec_id_filter(s).len() ==> is_id_char(#[trigger] spec_id_filter(s)[i]),
    decreases s.len(),
{
    if s.len() > 0 {
        lemma_id_filter_chars(s.drop_last());
        let pre = spec_id_filter(s.drop_last());
        assert forall|i: int| 0 <= i < spec_id_filter(s).len() implies is_id_char(
            #[trigger] spec_id_filter(s)[i],
        ) by {
            if i < pre.len() {
                assert(spec_id_filter(s)[i] == pre[i]);
            } else {
                match spec_id_map_char(spec_ascii_lower(s.last())) {
                    Some(c) => {
                        assert(spec_id_filter(s)[i] == c);
                        assert(is_id_char(c));
                    },
                    None => {},
                }
            }
        }
    }
}

/// Map one character into the identifier alphabet.
fn id_map_char(c: char) -> (r: Option<char>)
    ensures
        r == spec_id_map_char(c),
{
    if c == '/' || c == '.' || c == '_' || c == '-' {
        Some('-')
    } else if ('a' <= c && c <= 'z') || ('0' <= c && c <= '9') {
        Some(c)
    } else {
        None
    }
}

impl Package {
    /// The sanitized display name: transliterate to ASCII, keep only
    /// letters, digits, space, hyphen and period, and fall back to a
    /// fixed placeholder when nothing remains.
    pub fn package_name(&self) -> (r: String)
        ensures
            r@ == spec_package_name(self.name@),
    {
        let ascii = to_ascii(self.name.as_str());
        let cs = str_chars(ascii.as_str());
        let mut kept: Vec<char> = Vec::new();
        let mut i: usize = 0;
        let n = cs.len();
        proof {
            assert(cs@.take(0) =~= Seq::<char>::empty());
            assert(kept@ =~= spec_strip_name(cs@.take(0)));
        }
        while i < n
            invariant
                i <= n,
                n == cs@.len(),
                kept@ == spec_strip_name(cs@.take(i as int)),
            decreases n - i,
        {
            proof {
                assert(cs@.take(i + 1).drop_last() =~= cs@.take(i as int));
                assert(cs@.take(i + 1).last() == cs@[i as int]);
            }
            let c = cs[i];
            if ('a' <= c && c <= 'z') || ('A' <= c && c <= 'Z') || ('0' <= c && c <= '9') || c
                == ' ' || c == '-' || c == '.' {
                kept.push(c);
            }
            i = i + 1;
        }
        proof {
            assert(cs@.take(n as int) =~= cs@);
        }
        if kept.len() == 0 {
            String::from_str("Webapp")
        } else {
            chars_to_string(&kept)
        }
    }

    /// Derive the application identifier from the target URL: the
    /// lower-cased, filtered host (and port), truncated to its budget,
    /// with a short digest of the path appended whenever the path is
    /// non-trivial or a port is present.  The identifier always fits the
    /// endpoint path budget and uses only lower-case letters, digits and
    /// dashes.
    pub fn appname(&self) -> (r: String)
        ensures
            r@ == spec_appname(self.url@),
            spec_socket_path(r@).len() <= UNIX_SOCKET_MAX_LEN,
            forall|i: int| 0 <= i < r@.len() ==> is_id_char(#[trigger] r@[i]),
    {
        let u = Ghost(self.url@);
        let (host, path, port): (String, String, Option<u16>) = match url_parts(
            self.url.as_str(),
        ) {
            Some(p) => (
                match p.host {
                    Some(h) => h,
                    None => String::new(),
                },
                p.path,
                p.port,
            ),
            None => (String::new(), String::new(), None),
        };
        proof {
            assert(host@ == spec_url_host_part(u@));
            assert(path@ == spec_url_path_part(u@));
            assert(port == spec_url_port(u@));
        }
        let mut main: Vec<char> = str_chars(host.as_str());
        match port {
            Some(x) => {
                main.push('-');
                let d = dec_digits(x as u64);
                push_all(&mut main, &d);
                proof {
                    assert(main@ =~= spec_main_part(u@));
                }
            },
            None => {
                proof {
                    assert(main@ =~= spec_main_part(u@));
                }
            },
        }
        let needs_hash = port.is_some() || (!eq_str(path.as_str(), "/") && !path.as_str().is_empty());
        proof {
            assert(needs_hash == spec_needs_hash(u@));
        }
        let hash: String = if needs_hash {
            let mut bytes = vstd::slice::slice_to_vec(path.as_str().as_bytes());
            proof {
                assert(bytes@ =~= encode_utf8(spec_url_path_part(u@)) + spec_port_le(None));
            }
            match port {
                Some(x) => {
                    bytes.push((x % 256) as u8);
                    bytes.push((x / 256) as u8);
                    proof {
                        assert(bytes@ =~= encode_utf8(spec_url_path_part(u@)) + spec_port_le(
                            port,
                        ));
                    }
                },
                None => (),
            }
            let digest = blake2b8(&bytes);
            hex_lower(&digest)
        } else {
            String::new()
        };
        let mut id: Vec<char> = Vec::new();
        let mut i: usize = 0;
        let n = main.len();
        proof {
            assert(main@.take(0) =~= Seq::<char>::empty());
            assert(id@ =~= spec_id_filter(main@.take(0)));
        }
        while i < n
            invariant
                i <= n,
                n == main@.len(),
                id@ == spec_id_filter(main@.take(i as int)),
            decreases n - i,
        {
            proof {
                assert(main@.take(i + 1).drop_last() =~= main@.take(i as int));
                assert(main@.take(i + 1).last() == main@[i as int]);
            }
            let c = ascii_lower(main[i]);
            match id_map_char(c) {
                Some(k) => {
                    id.push(k);
                },
                None => (),
            }
            i = i + 1;
        }
        proof {
            assert(main@.take(n as int) =~= main@);
        }
        if id.len() > AVAILABLE_LEN {
            id.truncate(AVAILABLE_LEN);
        }
        proof {
            assert(id@ == spec_host_part(u@));
            lemma_id_filter_chars(spec_main_part(u@));
        }
        let r = if hash.as_str().is_empty() {
            chars_to_string(&id)
        } else {
            let mut out = id;
            out.push('-');
            let hc = str_chars(hash.as_str());
            push_all(&mut out, &hc);
            proof {
                assert(out@ =~= spec_appname(u@));
            }
            chars_to_string(&out)
        };
        proof {
            if spec_needs_hash(u@) {
                lemma_hex_of_shape(
                    blake2b8_of(
                        encode_utf8(spec_url_path_part(u@)) + spec_port_le(spec_url_port(u@)),
                    ),
                );
                assert(spec_hash_part(u@).len() == 16);
            }
            reveal_strlit("/home/phablet/.local/share/");
            reveal_strlit(".webber/SingletonSocket");
            assert(spec_socket_path(r@).len() <= UNIX_SOCKET_MAX_LEN);
            assert forall|i: int| 0 <= i < r@.len() implies is_id_char(#[trigger] r@[i]) by {
                if spec_needs_hash(u@) {
                    let hp = spec_host_part(u@);
                    if i < hp.len() {
                    } else if i == hp.len() {
                        assert(r@[i] == '-');
                    } else {
                        assert(r@[i] == spec_hash_part(u@)[i - hp.len() - 1]);
                    }
                }
            }
        }
        r
    }
}

/// How serde-style JSON writers escape one character of a string.
pub open spec fn spec_json_escape_char(c: char) -> Seq<char> {
    if c == '"' {
        seq!['\\', '"']
    } else if c == '\\' {
        seq!['\\', '\\']
    } else if c == '\u{8}' {
        seq!['\\', 'b']
    } else if c == '\t' {
        seq!['\\', 't']
    } else if c == '\n' {
        seq!['\\', 'n']
    } else if c == '\u{c}' {
        seq!['\\', 'f']
    } else if c == '\r' {
        seq!['\\', 'r']
    } else if ' ' > c {
        seq!['\\', 'u', '0', '0'] + crate::color::spec_hex_byte(c as u8)
    } else {
        seq![c]
    }
}

/// The JSON escaping of a string body.
pub open spec fn spec_json_escape(s: Seq<char>) -> Seq<char>
    decreases s.len(),
{
    if s.len() == 0 {
        Seq::empty()
    } else {
        spec_json_escape(s.drop_last()) + spec_json_escape_char(s.last())
    }
}

/// Append the JSON escaping of `s`, quotes not included.
fn push_json_escaped(dst: &mut Vec<char>, s: &str)
    ensures
        final (dst)@ == old(dst)@ + spec_json_escape(s@),
{
    let cs = str_chars(s);
    let mut i: usize = 0;
    let n = cs.len();
    proof {
        assert(cs@.take(0) =~= Seq::<char>::empty());
        assert(dst@ =~= old(dst)@ + spec_json_escape(cs@.take(0)));
    }
    while i < n
        invariant
            i <= n,
            n == cs@.len(),
            cs@ == s@,
            dst@ == old(dst)@ + spec_json_escape(cs@.take(i as int)),
        decreases n - i,
    {
        proof {
            assert(cs@.take(i + 1).drop_last() =~= cs@.take(i as int));
            assert(cs@.take(i + 1).last() == cs@[i as int]);
        }
        let ghost before = dst@;
        let c = cs[i];
        if c == '"' {
            dst.push('\\');
            dst.push('"');
        } else if c == '\\' {
            dst.push('\\');
            dst.push('\\');
        } else if c == '\u{8}' {
            dst.push('\\');
            dst.push('b');
        } else if c == '\t' {
            dst.push('\\');
            dst.push('t');
        } else if c == '\n' {
            dst.push('\\');
            dst.push('n');
        } else if c == '\u{c}' {
            dst.push('\\');
            dst.push('f');
        } else if c == '\r' {
            dst.push('\\');
            dst.push('r');
        } else if ' ' > c {
            dst.push('\\');
            dst.push('u');
            dst.push('0');
            dst.push('0');
            crate::color::push_hex_byte(dst, #[verifier::truncate] (c as u8));
        } else {
            dst.push(c);
        }
        proof {
            assert(dst@ =~= before + spec_json_escape_char(cs@[i as int]));
        }
        i = i + 1;
    }
    proof {
        assert(cs@.take(n as int) =~= cs@);
    }
}

/// The `control` file of the package: fixed version, maintainer and
/// architecture around the derived package name.
pub open spec fn spec_control_content(appname: Seq<char>) -> Seq<char> {
    "Package: "@ + appname
        + ".webber\nVersion: 1.0.0\nClick-Version: 0.4\nArchitecture: all\nMaintainer: Webber <noreply@ubports.com>\nDescription: Shortcut\n"@
}

/// Render the package's `control` file.
pub fn control_control_content(appname: &str) -> (r: String)
    ensures
        r@ == spec_control_content(appname@),
{
    let mut v: Vec<char> = Vec::new();
    push_str_chars(&mut v, "Package: ");
    push_str_chars(&mut v, appname);
    push_str_chars(
        &mut v,
        ".webber\nVersion: 1.0.0\nClick-Version: 0.4\nArchitecture: all\nMaintainer: Webber <noreply@ubports.com>\nDescription: Shortcut\n",
    );
    chars_to_string(&v)
}

/// The guard script that refuses direct low-level installation.
pub fn control_preinst_content() -> (r: &'static str)
    ensures
        r@ == "#! /bin/sh\necho \"Click packages may not be installed directly using dpkg.\"\necho \"Use 'click install' instead.\"\nexit 1"@,
{
    "#! /bin/sh\necho \"Click packages may not be installed directly using dpkg.\"\necho \"Use 'click install' instead.\"\nexit 1"
}

/// The package's manifest document: a JSON object with a single hook,
/// keyed by the identifier, pointing at the sandbox-policy and launcher
/// files.
pub open spec fn spec_control_manifest_json(appname: Seq<char>, title: Seq<char>) -> Seq<char> {
    "{\"architecture\":\"all\",\"description\":\"Shortcut\",\"framework\":\"ubuntu-sdk-20.04\",\"hooks\":{\""@
        + spec_json_escape(appname)
        + "\":{\"apparmor\":\"shortcut.apparmor\",\"desktop\":\"shortcut.desktop\"}},\"maintainer\":\"Webber <noreply@ubports.com>\",\"name\":\""@
        + spec_json_escape(appname + ".webber"@) + "\",\"title\":\""@ + spec_json_escape(title)
        + "\",\"version\":\"1.0.0\"}"@
}

/// The package manifest: fixed framework and maintainer data around the
/// identifier and the user-facing title.
pub struct ControlManifest {
    /// The derived application identifier, which keys the single hook.
    pub appname: String,
    /// The user-facing title.
    pub title: String,
}

impl ControlManifest {
    /// A manifest for the given identifier and title.
    pub fn new(appname: String, title: String) -> (r: ControlManifest)
        ensures
            r.appname == appname,
            r.title == title,
    {
        ControlManifest { appname, title }
    }

    /// Render the manifest as a JSON document.
    pub fn to_string(&self) -> (r: String)
        ensures
            r@ == spec_control_manifest_json(self.appname@, self.title@),
    {
        let mut v: Vec<char> = Vec::new();
        push_str_chars(
            &mut v,
            "{\"architecture\":\"all\",\"description\":\"Shortcut\",\"framework\":\"ubuntu-sdk-20.04\",\"hooks\":{\"",
        );
        push_json_escaped(&mut v, self.appname.as_str());
        push_str_chars(
            &mut v,
            "\":{\"apparmor\":\"shortcut.apparmor\",\"desktop\":\"shortcut.desktop\"}},\"maintainer\":\"Webber <noreply@ubports.com>\",\"name\":\"",
        );
        let mut name: Vec<char> = Vec::new();
        push_str_chars(&mut name, self.appname.as_str());
        push_str_chars(&mut name, ".webber");
        let name = chars_to_string(&name);
        push_json_escaped(&mut v, name.as_str());
        push_str_chars(&mut v, "\",\"title\":\"");
        push_json_escaped(&mut v, self.title.as_str());
        push_str_chars(&mut v, "\",\"version\":\"1.0.0\"}");
        chars_to_string(&v)
    }
}

/// The comma-separated JSON renderings of a string list.
pub open spec fn spec_json_strings_inner(items: Seq<Seq<char>>) -> Seq<char>
    decreases items.len(),
{
    if items.len() == 0 {
        Seq::empty()
    } else if items.len() == 1 {
        seq!['"'] + spec_json_escape(items[0]) + seq!['"']
    } else {
        spec_json_strings_inner(items.drop_last()) + seq![',', '"'] + spec_json_escape(
            items.last(),
        ) + seq!['"']
    }
}

/// The sandbox policy document: a fixed template and policy version
/// around the policy-group list.
pub open spec fn spec_apparmor_json(groups: Seq<Seq<char>>) -> Seq<char> {
    "{\"template\":\"ubuntu-webapp\",\"policy_groups\":["@ + spec_json_strings_inner(groups)
        + "],\"policy_version\":\"20.04\"}"@
}

/// The sandbox policy: the fixed groups every package needs, followed by
/// the permissions the user enabled.
pub struct AppArmor {
    /// The policy groups, in order.
    pub policy_groups: Vec<String>,
}

impl AppArmor {
    /// A policy whose groups are `networking` and `webview` followed by
    /// the given permission names.
    pub fn new(permissions: Vec<String>) -> (r: AppArmor)
        ensures
            crate::resolve::str_views(r.policy_groups@) == seq!["networking"@, "webview"@]
                + crate::resolve::str_views(permissions@),
    {
        let ghost pv = crate::resolve::str_views(permissions@);
        let mut policy_groups: Vec<String> = Vec::new();
        policy_groups.push(String::from_str("networking"));
        policy_groups.push(String::from_str("webview"));
        let mut rest = permissions;
        let ghost two = crate::resolve::str_views(policy_groups@);
        policy_groups.append(&mut rest);
        proof {
            assert(two =~= seq!["networking"@, "webview"@]);
            assert(crate::resolve::str_views(policy_groups@) =~= two + pv);
        }
        AppArmor { policy_groups }
    }

    /// Render the policy as a JSON document.
    pub fn to_string(&self) -> (r: String)
        ensures
            r@ == spec_apparmor_json(crate::resolve::str_views(self.policy_groups@)),
    {
        let ghost gv = crate::resolve::str_views(self.policy_groups@);
        let mut v: Vec<char> = Vec::new();
        push_str_chars(&mut v, "{\"template\":\"ubuntu-webapp\",\"policy_groups\":[");
        let ghost prefix = v@;
        let mut i: usize = 0;
        let n = self.policy_groups.len();
        proof {
            assert(gv.take(0) =~= Seq::<Seq<char>>::empty());
            assert(v@ =~= prefix + spec_json_strings_inner(gv.take(0)));
        }
        while i < n
            invariant
                i <= n,
                n == self.policy_groups@.len(),
                gv == crate::resolve::str_views(self.policy_groups@),
                v@ == prefix + spec_json_strings_inner(gv.take(i as int)),
            decreases n - i,
        {
            proof {
                assert(gv.take(i + 1).drop_last() =~= gv.take(i as int));
                assert(gv.take(i + 1).last() == gv[i as int]);
            }
            let ghost before = v@;
            if i > 0 {
                v.push(',');
            }
            v.push('"');
            push_json_escaped(&mut v, self.policy_groups[i].as_str());
            v.push('"');
            proof {
                if i == 0 {
                    assert(v@ =~= before + (seq!['"'] + spec_json_escape(gv[0]) + seq!['"']));
                } else {
                    assert(v@ =~= before + (seq![',', '"'] + spec_json_escape(gv[i as int])
                        + seq!['"']));
                }
                assert(v@ =~= prefix + spec_json_strings_inner(gv.take(i + 1)));
            }
            i = i + 1;
        }
        proof {
            assert(gv.take(n as int) =~= gv);
        }
        push_str_chars(&mut v, "],\"policy_version\":\"20.04\"}");
        chars_to_string(&v)
    }
}

/// The items of the launcher command line joined by single spaces.
pub open spec fn spec_join_space(items: Seq<Seq<char>>) -> Seq<char>
    decreases items.len(),
{
    if items.len() == 0 {
        Seq::empty()
    } else if items.len() == 1 {
        items[0]
    } else {
        spec_join_space(items.drop_last()) + seq![' '] + items.last()
    }
}

/// The optional launcher flags the package's switches enable, each
/// present only when set, followed by the target URL.
pub open spec fn spec_flag_list(p: Package) -> Seq<Seq<char>> {
    (if p.enable_address_bar {
        seq!["--enable-addressbar"@]
    } else {
        Seq::empty()
    }) + (if p.enable_back_forward {
        seq!["--enable-back-forward"@]
    } else {
        Seq::empty()
    }) + (if p.enable_fullscreen {
        seq!["--fullscreen"@]
    } else {
        Seq::empty()
    }) + (if p.user_agent@.len() > 0 {
        seq!["--user-agent-string="@ + shell_escaped_of(p.user_agent@)]
    } else {
        Seq::empty()
    }) + seq![p.url@]
}

/// The launcher's command line: the fixed container command, the quoted
/// URL patterns, then the enabled flags and the target URL.
pub open spec fn spec_desktop_exec(p: Package) -> Seq<char> {
    "webapp-container --webappUrlPatterns="@ + shell_escaped_of(p.url_patterns@)
        + " --store-session-cookies --enable-media-hub-audio "@ + spec_join_space(
        spec_flag_list(p),
    )
}

/// The launcher file of the package.
pub open spec fn spec_desktop_content(p: Package, icon_fname: Seq<char>) -> Seq<char> {
    "[Desktop Entry]\nName="@ + p.name@ + "\nExec="@ + spec_desktop_exec(p) + "\nIcon="@
        + icon_fname
        + "\nTerminal=false\nType=Application\nX-Lomiri-Touch=true\nX-Lomiri-Splash-Color="@
        + p.theme_color@ + "\n"@
}

/// Render the launcher (desktop-entry) file.
pub fn data_desktop_content(package: &Package, icon_fname: &str) -> (r: String)
    ensures
        r@ == spec_desktop_content(*package, icon_fname@),
{
    let mut flags: Vec<String> = Vec::new();
    if package.enable_address_bar {
        flags.push(String::from_str("--enable-addressbar"));
    }
    if package.enable_back_forward {
        flags.push(String::from_str("--enable-back-forward"));
    }
    if package.enable_fullscreen {
        flags.push(String::from_str("--fullscreen"));
    }
    if !package.user_agent.as_str().is_empty() {
        let mut ua: Vec<char> = Vec::new();
        push_str_chars(&mut ua, "--user-agent-string=");
        let escaped = shell_escape(package.user_agent.as_str());
        push_str_chars(&mut ua, escaped.as_str());
        flags.push(chars_to_string(&ua));
    }
    flags.push(package.url.clone());
    proof {
        assert(crate::resolve::str_views(flags@) =~= spec_flag_list(*package));
    }
    let ghost fv = crate::resolve::str_views(flags@);
    let mut joined: Vec<char> = Vec::new();
    let mut i: usize = 0;
    let n = flags.len();
    proof {
        assert(fv.take(0) =~= Seq::<Seq<char>>::empty());
        assert(joined@ =~= spec_join_space(fv.take(0)));
    }
    while i < n
        invariant
            i <= n,
            n == flags@.len(),
            fv == crate::resolve::str_views(flags@),
            joined@ == spec_join_space(fv.take(i as int)),
        decreases n - i,
    {
        proof {
            assert(fv.take(i + 1).drop_last() =~= fv.take(i as int));
            assert(fv.take(i + 1).last() == fv[i as int]);
        }
        let ghost before = joined@;
        if i > 0 {
            joined.push(' ');
        }
        push_str_chars(&mut joined, flags[i].as_str());
        proof {
            if i == 0 {
                assert(joined@ =~= before + fv[0]);
            } else {
                assert(joined@ =~= before + (seq![' '] + fv[i as int]));
            }
            assert(joined@ =~= spec_join_space(fv.take(i + 1)));
        }
        i = i + 1;
    }
    proof {
        assert(fv.take(n as int) =~= fv);
    }
    let mut v: Vec<char> = Vec::new();
    push_str_chars(&mut v, "[Desktop Entry]\nName=");
    push_str_chars(&mut v, package.name.as_str());
    push_str_chars(&mut v, "\nExec=");
    push_str_chars(&mut v, "webapp-container --webappUrlPatterns=");
    let pat_escaped = shell_escape(package.url_patterns.as_str());
    push_str_chars(&mut v, pat_escaped.as_str());
    push_str_chars(&mut v, " --store-session-cookies --enable-media-hub-audio ");
    push_all(&mut v, &joined);
    push_str_chars(&mut v, "\nIcon=");
    push_str_chars(&mut v, icon_fname);
    push_str_chars(
        &mut v,
        "\nTerminal=false\nType=Application\nX-Lomiri-Touch=true\nX-Lomiri-Splash-Color=",
    );
    push_str_chars(&mut v, package.theme_color.as_str());
    push_str_chars(&mut v, "\n");
    proof {
        assert(v@ =~= spec_desktop_content(*package, icon_fname@));
    }
    chars_to_string(&v)
}

/// The text after the last occurrence of `c`, or `None` when `c` does
/// not occur.
pub open spec fn spec_tail_after(t: Seq<char>, c: char) -> Option<Seq<char>>
    decreases t.len(),
{
    if t.len() == 0 {
        None
    } else if t.last() == c {
        Some(Seq::empty())
    } else {
        match spec_tail_after(t.drop_last(), c) {
            Some(x) => Some(x.push(t.last())),
            None => None,
        }
    }
}

/// When `c` occurs last at position `j`, the tail after it is the text
/// past `j`.
pub proof fn lemma_tail_after_at(t: Seq<char>, c: char, j: int)
    requires
        0 <= j < t.len(),
        t[j] == c,
        forall|k: int| j < k < t.len() ==> t[k] != c,
    ensures
        spec_tail_after(t, c) == Some(t.skip(j + 1)),
    decreases t.len(),
{
    if j == t.len() - 1 {
        assert(t.skip(j + 1) =~= Seq::<char>::empty());
    } else {
        lemma_tail_after_at(t.drop_last(), c, j);
        assert(t.drop_last().skip(j + 1).push(t.last()) =~= t.skip(j + 1));
    }
}

/// When `c` does not occur, there is no tail after it.
pub proof fn lemma_tail_after_none(t: Seq<char>, c: char)
    requires
        forall|k: int| 0 <= k < t.len() ==> t[k] != c,
    ensures
        spec_tail_after(t, c) is None,
    decreases t.len(),
{
    if t.len() > 0 {
        lemma_tail_after_none(t.drop_last(), c);
    }
}

/// Compute the text after the last occurrence of `c`.
pub fn tail_after(t: &Vec<char>, c: char) -> (r: Option<Vec<char>>)
    ensures
        match r {
            Some(x) => spec_tail_after(t@, c) == Some(x@),
            None => spec_tail_after(t@, c) is None,
        },
{
    let n = t.len();
    let mut i: usize = n;
    while i > 0
        invariant
            i <= n,
            n == t@.len(),
            forall|k: int| i <= k < n ==> t@[k] != c,
        decreases i,
    {
        if t[i - 1] == c {
            proof {
                lemma_tail_after_at(t@, c, i - 1);
            }
            let x = crate::strutil::subvec(t, i, n);
            proof {
                assert(x@ =~= t@.skip(i as int));
            }
            return Some(x);
        }
        i = i - 1;
    }
    proof {
        lemma_tail_after_none(t@, c);
    }
    None
}

/// The file extension inferred from a remote icon URL: the text after
/// the final `.` of the URL path's last segment; a segment without a
/// dot carries no extension, and neither does a URL that does not parse
/// or whose path has no segments.
pub open spec fn spec_remote_icon_ext(u: Seq<char>) -> Option<Seq<char>> {
    if url_ok(u) && path_of(u).len() > 0 && path_of(u)[0] == '/' {
        let last_seg = match spec_tail_after(path_of(u), '/') {
            Some(x) => x,
            None => path_of(u),
        };
        spec_tail_after(last_seg, '.')
    } else {
        None
    }
}

/// The staged icon file name for an extension: `icon.<ext>`, or plain
/// `icon` when there is no extension.
pub open spec fn spec_icon_fname(ext: Option<Seq<char>>) -> Seq<char> {
    match ext {
        Some(e) => "icon."@ + e,
        None => "icon"@,
    }
}

/// The extension of a local path: the text after the final `.` of the
/// last path component, provided that dot is not the component's leading
/// character; `None` otherwise.
pub open spec fn spec_local_icon_ext(p: Seq<char>) -> Option<Seq<char>> {
    let comp = match spec_tail_after(p, '/') {
        Some(x) => x,
        None => p,
    };
    match spec_tail_after(comp, '.') {
        Some(e) => if e.len() + 1 < comp.len() {
            Some(e)
        } else {
            None
        },
        None => None,
    }
}

/// What the builder does for the icon: fetch it, copy it, or fall back
/// to the bundled default.
pub enum IconPlan {
    /// Download the URL to the staged file name.
    Download {
        /// Where to fetch from.
        url: String,
        /// The staged file name.
        filename: String,
    },
    /// Copy the local file to the staged file name.
    CopyLocal {
        /// Where to copy from.
        path: String,
        /// The staged file name.
        filename: String,
    },
    /// Stage the bundled default vector icon as `icon.svg`.
    BundledDefault,
}

/// Whether a plan is what the icon choice dictates: a remote icon with
/// an inferable extension is downloaded; a non-empty local path is
/// copied, keeping its extension; everything else falls back to the
/// bundled default.
pub open spec fn plan_matches(icon: Icon, r: IconPlan) -> bool {
    match icon {
        Icon::Remote(u) => match spec_remote_icon_ext(u@) {
            Some(e) => r matches IconPlan::Download { url, filename } && url@ == u@ && filename@
                == "icon."@ + e,
            None => r is BundledDefault,
        },
        Icon::Local(p) => if p@.len() == 0 {
            r is BundledDefault
        } else {
            r matches IconPlan::CopyLocal { path, filename } && path@ == p@ && filename@
                == spec_icon_fname(spec_local_icon_ext(p@))
        },
    }
}

impl Package {
    /// Decide how the icon is staged.  Exactly one icon file goes into
    /// every package: a fetched one, a copied one, or the bundled
    /// default.
    pub fn icon_plan(&self) -> (r: IconPlan)
        ensures
            plan_matches(self.icon, r),
    {
        match &self.icon {
            Icon::Remote(u) => {
                match url_parts(u.as_str()) {
                    Some(parts) => {
                        let pc = str_chars(parts.path.as_str());
                        if pc.len() > 0 && pc[0] == '/' {
                            let last_seg = match tail_after(&pc, '/') {
                                Some(x) => x,
                                None => pc,
                            };
                            match tail_after(&last_seg, '.') {
                                Some(ext) => {
                                    let mut f: Vec<char> = Vec::new();
                                    push_str_chars(&mut f, "icon.");
                                    push_all(&mut f, &ext);
                                    IconPlan::Download {
                                        url: u.clone(),
                                        filename: chars_to_string(&f),
                                    }
                                },
                                None => IconPlan::BundledDefault,
                            }
                        } else {
                            IconPlan::BundledDefault
                        }
                    },
                    None => IconPlan::BundledDefault,
                }
            },
            Icon::Local(p) => {
                if p.as_str().is_empty() {
                    IconPlan::BundledDefault
                } else {
                    let pc = str_chars(p.as_str());
                    let comp = match tail_after(&pc, '/') {
                        Some(x) => x,
                        None => pc,
                    };
                    let clen = comp.len();
                    let ext: Option<Vec<char>> = match tail_after(&comp, '.') {
                        Some(e) => if clen >= 2 && e.len() <= clen - 2 {
                            Some(e)
                        } else {
                            None
                        },
                        None => None,
                    };
                    let mut f: Vec<char> = Vec::new();
                    match ext {
                        Some(e) => {
                            push_str_chars(&mut f, "icon.");
                            push_all(&mut f, &e);
                        },
                        None => {
                            push_str_chars(&mut f, "icon");
                        },
                    }
                    IconPlan::CopyLocal { path: p.clone(), filename: chars_to_string(&f) }
                }
            },
        }
    }
}

/// The bundled default vector icon, staged when no other icon could be
/// obtained.
pub const DEFAULT_ICON_SVG: &'static str = "<svg xmlns=\"http://www.w3.org/2000/svg\" viewBox=\"0 0 64 64\"><circle cx=\"32\" cy=\"32\" r=\"30\" fill=\"#5bc0de\"/><path d=\"M32 2a30 30 0 0 0 0 60 30 30 0 0 0 0-60zm0 6c3 6 5 14 5 24s-2 18-5 24c-3-6-5-14-5-24s2-18 5-24zM8 32h48M12 18h40M12 46h40\" stroke=\"#ffffff\" stroke-width=\"3\" fill=\"none\"/></svg>\n";

/// The bytes of the bundled default icon.
pub fn default_icon_bytes() -> (r: Vec<u8>)
    ensures
        r@ == encode_utf8(DEFAULT_ICON_SVG@),
{
    vstd::slice::slice_to_vec(DEFAULT_ICON_SVG.as_bytes())
}

/// The UTF-8 bytes of a rendered text.
fn str_bytes(s: &str) -> (r: Vec<u8>)
    ensures
        r@ == encode_utf8(s@),
{
    vstd::slice::slice_to_vec(s.as_bytes())
}

/// The entries of `control.tar.gz`: the control file, the package
/// manifest, and the install guard, rooted at the archive top.
pub open spec fn spec_control_entries(p: Package) -> Seq<(Seq<char>, Seq<u8>)> {
    let app = spec_appname(p.url@);
    seq![
        ("control"@, encode_utf8(spec_control_content(app))),
        ("manifest"@, encode_utf8(spec_control_manifest_json(app, p.name@))),
        (
            "preinst"@,
            encode_utf8(
                "#! /bin/sh\necho \"Click packages may not be installed directly using dpkg.\"\necho \"Use 'click install' instead.\"\nexit 1"@,
            ),
        ),
    ]
}

/// The entries of `data.tar.gz`: the sandbox policy, the launcher, and
/// exactly one icon file.
pub open spec fn spec_data_entries(
    p: Package,
    icon_fname: Seq<char>,
    icon_data: Seq<u8>,
) -> Seq<(Seq<char>, Seq<u8>)> {
    seq![
        (
            "shortcut.apparmor"@,
            encode_utf8(
                spec_apparmor_json(
                    seq!["networking"@, "webview"@] + crate::resolve::str_views(p.permissions@),
                ),
            ),
        ),
        ("shortcut.desktop"@, encode_utf8(spec_desktop_content(p, icon_fname))),
        (icon_fname, icon_data),
    ]
}

/// The members of the assembled package, in the order the format fixes:
/// `debian-binary`, `control.tar.gz`, `data.tar.gz`, `_click-binary`.
pub open spec fn spec_click_members(
    p: Package,
    icon_fname: Seq<char>,
    icon_data: Seq<u8>,
) -> Seq<(Seq<char>, Seq<u8>)> {
    seq![
        ("debian-binary"@, encode_utf8("2.0\n"@)),
        ("control.tar.gz"@, targz_of(spec_control_entries(p))),
        ("data.tar.gz"@, targz_of(spec_data_entries(p, icon_fname, icon_data))),
        ("_click-binary"@, encode_utf8("0.4\n"@)),
    ]
}

/// The bytes of the assembled package.
pub open spec fn spec_click_bytes(
    p: Package,
    icon_fname: Seq<char>,
    icon_data: Seq<u8>,
) -> Seq<u8> {
    spec_ar_bytes(spec_click_members(p, icon_fname, icon_data))
}

/// When assembly succeeds: the tar writer must accept each of the five
/// fixed entry names and the staged icon's name, and the four outer
/// members must fit their fixed-width headers.  With in-memory sinks
/// these are the only steps that can fail.
pub open spec fn spec_create_accepts(
    p: Package,
    icon_fname: Seq<char>,
    icon_data: Seq<u8>,
) -> bool {
    &&& tar_accepts("control"@)
    &&& tar_accepts("manifest"@)
    &&& tar_accepts("preinst"@)
    &&& tar_accepts("shortcut.apparmor"@)
    &&& tar_accepts("shortcut.desktop"@)
    &&& tar_accepts(icon_fname)
    &&& spec_ar_members_ok(spec_click_members(p, icon_fname, icon_data))
}

/// The assembled package always holds `debian-binary`, `control.tar.gz`,
/// `data.tar.gz` and `_click-binary`, in exactly that order: the order is
/// part of the format, whatever the package's contents.
pub proof fn lemma_archive_member_order(p: Package, icon_fname: Seq<char>, icon_data: Seq<u8>)
    ensures
        spec_click_members(p, icon_fname, icon_data).map_values(|e: (Seq<char>, Seq<u8>)| e.0)
            =~= seq!["debian-binary"@, "control.tar.gz"@, "data.tar.gz"@, "_click-binary"@],
{
}

/// With an empty local icon path the plan falls back to the bundled
/// default, and the build then stages exactly one icon file — the third
/// data entry — holding the default icon's bytes.
pub proof fn lemma_default_icon_fallback(p: Package, r: IconPlan)
    requires
        p.icon matches Icon::Local(path) && path@.len() == 0,
        plan_matches(p.icon, r),
    ensures
        r is BundledDefault,
        spec_data_entries(p, "icon.svg"@, encode_utf8(DEFAULT_ICON_SVG@)).len() == 3,
        spec_data_entries(p, "icon.svg"@, encode_utf8(DEFAULT_ICON_SVG@))[2] == (
            "icon.svg"@,
            encode_utf8(DEFAULT_ICON_SVG@),
        ),
        spec_data_entries(p, "icon.svg"@, encode_utf8(DEFAULT_ICON_SVG@))[0].0
            == "shortcut.apparmor"@,
        spec_data_entries(p, "icon.svg"@, encode_utf8(DEFAULT_ICON_SVG@))[1].0
            == "shortcut.desktop"@,
{
}

impl Package {
    /// The file name the assembled package is saved under.
    pub fn click_filename(&self) -> (r: String)
        ensures
            r@ == spec_package_name(self.name@) + ".click"@,
    {
        let base = self.package_name();
        let mut v: Vec<char> = Vec::new();
        push_str_chars(&mut v, base.as_str());
        push_str_chars(&mut v, ".click");
        chars_to_string(&v)
    }

    /// Assemble the package from the spec and the staged icon: render the
    /// control files, compress the control and data trees, and wrap the
    /// members in the outer archive, in the format's fixed order.  The
    /// build succeeds exactly when the archive writers accept the entry
    /// names and members; no partial package is ever returned.
    pub fn create(&self, icon_fname: &str, icon_data: Vec<u8>) -> (r: Result<Vec<u8>, String>)
        ensures
            r is Ok <==> spec_create_accepts(*self, icon_fname@, icon_data@),
            r matches Ok(b) ==> b@ == spec_click_bytes(*self, icon_fname@, icon_data@),
    {
        let app = self.appname();
        let control = control_control_content(app.as_str());
        let manifest = ControlManifest::new(app, self.name.clone()).to_string();
        let preinst = control_preinst_content();
        let mut perms: Vec<String> = Vec::new();
        let mut i: usize = 0;
        let n = self.permissions.len();
        proof {
            assert(crate::resolve::str_views(perms@) =~= crate::resolve::str_views(
                self.permissions@.take(0),
            ));
        }
        while i < n
            invariant
                i <= n,
                n == self.permissions@.len(),
                crate::resolve::str_views(perms@) == crate::resolve::str_views(
                    self.permissions@.take(i as int),
                ),
            decreases n - i,
        {
            let ghost before = crate::resolve::str_views(perms@);
            perms.push(self.permissions[i].clone());
            proof {
                assert(crate::resolve::str_views(perms@) =~= before.push(
                    self.permissions@[i as int]@,
                ));
                assert(crate::resolve::str_views(self.permissions@.take(i + 1))
                    =~= crate::resolve::str_views(self.permissions@.take(i as int)).push(
                    self.permissions@[i as int]@,
                ));
            }
            i = i + 1;
        }
        proof {
            assert(self.permissions@.take(n as int) =~= self.permissions@);
        }
        let apparmor = AppArmor::new(perms).to_string();
        let desktop = data_desktop_content(self, icon_fname);

        let mut ct = targz_new();
        let cb = str_bytes(control.as_str());
        if !targz_append(&mut ct, "control", &cb) {
            return Err(String::from_str("packaging failed: archive write"));
        }
        let mb = str_bytes(manifest.as_str());
        if !targz_append(&mut ct, "manifest", &mb) {
            return Err(String::from_str("packaging failed: archive write"));
        }
        let pb = str_bytes(preinst);
        if !targz_append(&mut ct, "preinst", &pb) {
            return Err(String::from_str("packaging failed: archive write"));
        }
        proof {
            assert(tar_entries(ct) =~= spec_control_entries(*self));
        }
        let control_gz = targz_finish(ct);

        let mut dt = targz_new();
        let ab = str_bytes(apparmor.as_str());
        if !targz_append(&mut dt, "shortcut.apparmor", &ab) {
            return Err(String::from_str("packaging failed: archive write"));
        }
        let db = str_bytes(desktop.as_str());
        if !targz_append(&mut dt, "shortcut.desktop", &db) {
            return Err(String::from_str("packaging failed: archive write"));
        }
        if !targz_append(&mut dt, icon_fname, &icon_data) {
            return Err(String::from_str("packaging failed: archive write"));
        }
        proof {
            assert(tar_entries(dt) =~= spec_data_entries(*self, icon_fname@, icon_data@));
        }
        let data_gz = targz_finish(dt);

        let mut members: Vec<ArMember> = Vec::new();
        let deb = str_bytes("2.0\n");
        members.push(ArMember { name: String::from_str("debian-binary"), data: deb });
        members.push(ArMember { name: String::from_str("control.tar.gz"), data: control_gz });
        members.push(ArMember { name: String::from_str("data.tar.gz"), data: data_gz });
        let clk = str_bytes("0.4\n");
        members.push(ArMember { name: String::from_str("_click-binary"), data: clk });
        proof {
            assert(ar_member_views(members@) =~= spec_click_members(
                *self,
                icon_fname@,
                icon_data@,
            ));
        }
        match ar_archive(&members) {
            Some(b) => Ok(b),
            None => Err(String::from_str("packaging failed: archive write")),
        }
    }
}

} // verus!
