//! The web-app manifest: its data model and tolerant field parsers.
//!
//! A manifest is a JSON object whose recognized fields are read with
//! parse-or-default semantics: a field that is absent, or present but of the
//! wrong shape, falls back to its declared default instead of failing the
//! document.  Only a document that is not JSON at all is a parse error.

use vstd::prelude::*;

use crate::color::{css_color_of, parse_css_color, Color};
use crate::json::{
    json_as_array, json_as_str, json_get, json_is_object, json_of, json_parse, json_rep,
    get_str_field, obj_field, str_field, JsonV,
};
use crate::lossy::{survivors, LossyVec};
use crate::resolve::{
    opt_view, rejoins, resolve_opt_url, spec_resolve_opt_url, ResolveType, Resolved, Unresolved,
};
use crate::urls::{join_of, url_join};
use crate::strutil::{
    eq_str, parse_u64, find_char, idx_of, spec_parse_u64, spec_split_ws, split_ws, str_chars,
    tok_views, subvec,
};

verus! {

/// A parsed manifest in either resolution state.
pub struct Manifest<R: ResolveType> {
    /// Expected background color of the application.
    pub background_color: Option<crate::color::Color>,
    /// Base text direction for the localizable members.
    pub dir: Option<TextDirection>,
    /// Preferred display mode.
    pub display: Option<DisplayMode>,
    /// Iconic representations of the application.
    pub icons: Option<R::Icons>,
    /// Primary language of the localizable members, as a validated tag.
    pub lang: Option<String>,
    /// Name of the application.
    pub name: Option<String>,
    /// Default screen orientation.
    pub orientation: Option<Orientation>,
    /// Navigation scope of the application context.
    pub scope: Option<R::Url>,
    /// Short version of the name.
    pub short_name: Option<String>,
    /// Key-task shortcuts.
    pub shortcuts: Option<R::Shortcuts>,
    /// Preferred start URL.
    pub start_url: Option<R::Url>,
    /// Default theme color.
    pub theme_color: Option<crate::color::Color>,
}

/// One entry of the manifest's shortcut list, URLs still raw.
pub struct ShortcutDraft {
    /// Name of the shortcut.
    pub name: String,
    /// Short version of the name.
    pub short_name: Option<String>,
    /// Purpose of the shortcut.
    pub description: Option<String>,
    /// URL opened when the shortcut is activated, as written.
    pub url: String,
    /// Iconic representations of the shortcut, individually tolerated.
    pub icons: Option<crate::lossy::LossyVec<IconDraft>>,
}

/// One entry of the manifest's shortcut list, URLs resolved.
pub struct ShortcutItem {
    /// Name of the shortcut.
    pub name: String,
    /// Short version of the name.
    pub short_name: Option<String>,
    /// Purpose of the shortcut.
    pub description: Option<String>,
    /// URL opened when the shortcut is activated, absolute.
    pub url: String,
    /// Iconic representations of the shortcut.
    pub icons: Option<Vec<Icon>>,
}

/// One entry of an icon list, its source URL still raw.
pub struct IconDraft {
    /// The advertised image dimensions.
    pub sizes: IconSizes,
    /// Where the image lives, as written.
    pub src: String,
    /// A hint at the media type of the image.
    pub icon_type: Option<String>,
    /// What the image is intended for.
    pub purpose: IconPurpose,
}

/// One entry of an icon list, its source URL absolute.
pub struct Icon {
    /// The advertised image dimensions.
    pub sizes: IconSizes,
    /// Where the image lives, absolute.
    pub src: String,
    /// A hint at the media type of the image.
    pub icon_type: Option<String>,
    /// What the image is intended for.
    pub purpose: IconPurpose,
}

/// A list of advertised image dimensions.
#[derive(Debug, Clone)]
pub struct IconSizes {
    /// Width/height pairs, in the order they were written.
    pub sizes: Vec<(u64, u64)>,
}

impl IconSizes {
    /// An empty size list, the default when the field is absent or
    /// malformed.
    pub fn new() -> (r: IconSizes)
        ensures
            r.sizes@ == Seq::<(u64, u64)>::empty(),
    {
        IconSizes { sizes: Vec::new() }
    }
}

/// The purposes an icon is declared for.
#[derive(Debug, Clone, Copy, PartialEq, Eq, Structural)]
pub struct IconPurpose {
    /// Usable as a mask over a solid fill.
    pub monochrome: bool,
    /// Designed with icon masks and a safe zone in mind.
    pub maskable: bool,
    /// Usable in any context.
    pub any: bool,
}

impl IconPurpose {
    /// No purpose at all; an icon entry never carries this value.
    pub fn empty() -> (r: IconPurpose)
        ensures
            r == (IconPurpose { monochrome: false, maskable: false, any: false }),
    {
        IconPurpose { monochrome: false, maskable: false, any: false }
    }

    /// Whether no purpose keyword was recognized.
    pub fn is_empty(&self) -> (r: bool)
        ensures
            r == !(self.monochrome || self.maskable || self.any),
    {
        !(self.monochrome || self.maskable || self.any)
    }
}

impl Default for IconPurpose {
    /// The purpose of an icon whose manifest entry has no purpose field.
    fn default() -> (r: IconPurpose)
        ensures
            r == (IconPurpose { monochrome: false, maskable: false, any: true }),
    {
        IconPurpose { monochrome: false, maskable: false, any: true }
    }
}

/// Default screen orientations a manifest may request.
#[derive(Debug, Clone, Copy, PartialEq, Eq, Structural)]
pub enum Orientation {
    /// Any of the four primary or secondary orientations.
    Any,
    /// The device's usual orientation.
    Natural,
    /// Width greater than height.
    Landscape,
    /// Width less than or equal to height.
    Portrait,
    /// Portrait at the device's natural angle.
    PortraitPrimary,
    /// Portrait rotated half a turn from the natural angle.
    PortraitSecondary,
    /// Landscape at the device's natural angle.
    LandscapePrimary,
    /// Landscape rotated half a turn from the natural angle.
    LandscapeSecondary,
}

/// Base text directions a manifest may declare.
#[derive(Debug, Clone, Copy, PartialEq, Eq, Structural)]
pub enum TextDirection {
    /// Left-to-right text.
    LeftToRight,
    /// Right-to-left text.
    RightToLeft,
    /// No explicit directionality.
    Auto,
}

/// Display modes a manifest may prefer.
#[derive(Debug, Clone, Copy, PartialEq, Eq, Structural)]
pub enum DisplayMode {
    /// Take the whole display, browser UI hidden.
    Fullscreen,
    /// Look and feel of a standalone application.
    Standalone,
    /// Standalone plus minimal navigation UI.
    MinimalUI,
    /// The platform's ordinary hyperlink convention.
    Browser,
}

/// The canonical form of the text as a language tag
/// (`language_tags::LanguageTag::parse` then its serialization), `None`
/// when the text is not a well-formed tag.
pub uninterp spec fn lang_of(s: Seq<char>) -> Option<Seq<char>>;

/// Relies on `language_tags::LanguageTag::parse` and its `Display`: both
/// depend on the text alone.
#[verifier::external_body]
pub fn parse_lang_tag(s: &str) -> (r: Option<String>)
    ensures
        r matches Some(t) ==> lang_of(s@) == Some(t@),
        r is Some <==> lang_of(s@) is Some,
{
    match language_tags::LanguageTag::parse(s) {
        Ok(t) => Some(t.to_string()),
        Err(_) => None,
    }
}

/// The display mode a keyword denotes.
pub open spec fn spec_display_of(s: Seq<char>) -> Option<DisplayMode> {
    if s == "fullscreen"@ {
        Some(DisplayMode::Fullscreen)
    } else if s == "standalone"@ {
        Some(DisplayMode::Standalone)
    } else if s == "minimal-ui"@ {
        Some(DisplayMode::MinimalUI)
    } else if s == "browser"@ {
        Some(DisplayMode::Browser)
    } else {
        None
    }
}

/// Match a display-mode keyword.
pub fn parse_display(s: &str) -> (r: Option<DisplayMode>)
    ensures
        r == spec_display_of(s@),
{
    if eq_str(s, "fullscreen") {
        Some(DisplayMode::Fullscreen)
    } else if eq_str(s, "standalone") {
        Some(DisplayMode::Standalone)
    } else if eq_str(s, "minimal-ui") {
        Some(DisplayMode::MinimalUI)
    } else if eq_str(s, "browser") {
        Some(DisplayMode::Browser)
    } else {
        None
    }
}

/// The orientation a keyword denotes.
pub open spec fn spec_orientation_of(s: Seq<char>) -> Option<Orientation> {
    if s == "any"@ {
        Some(Orientation::Any)
    } else if s == "natural"@ {
        Some(Orientation::Natural)
    } else if s == "landscape"@ {
        Some(Orientation::Landscape)
    } else if s == "portrait"@ {
        Some(Orientation::Portrait)
    } else if s == "portrait-primary"@ {
        Some(Orientation::PortraitPrimary)
    } else if s == "portrait-secondary"@ {
        Some(Orientation::PortraitSecondary)
    } else if s == "landscape-primary"@ {
        Some(Orientation::LandscapePrimary)
    } else if s == "landscape-secondary"@ {
        Some(Orientation::LandscapeSecondary)
    } else {
        None
    }
}

/// Match an orientation keyword.
pub fn parse_orientation(s: &str) -> (r: Option<Orientation>)
    ensures
        r == spec_orientation_of(s@),
{
    if eq_str(s, "any") {
        Some(Orientation::Any)
    } else if eq_str(s, "natural") {
        Some(Orientation::Natural)
    } else if eq_str(s, "landscape") {
        Some(Orientation::Landscape)
    } else if eq_str(s, "portrait") {
        Some(Orientation::Portrait)
    } else if eq_str(s, "portrait-primary") {
        Some(Orientation::PortraitPrimary)
    } else if eq_str(s, "portrait-secondary") {
        Some(Orientation::PortraitSecondary)
    } else if eq_str(s, "landscape-primary") {
        Some(Orientation::LandscapePrimary)
    } else if eq_str(s, "landscape-secondary") {
        Some(Orientation::LandscapeSecondary)
    } else {
        None
    }
}

/// The text direction a keyword denotes.
pub open spec fn spec_dir_of(s: Seq<char>) -> Option<TextDirection> {
    if s == "ltr"@ {
        Some(TextDirection::LeftToRight)
    } else if s == "rtl"@ {
        Some(TextDirection::RightToLeft)
    } else if s == "auto"@ {
        Some(TextDirection::Auto)
    } else {
        None
    }
}

/// Match a text-direction keyword.
pub fn parse_dir(s: &str) -> (r: Option<TextDirection>)
    ensures
        r == spec_dir_of(s@),
{
    if eq_str(s, "ltr") {
        Some(TextDirection::LeftToRight)
    } else if eq_str(s, "rtl") {
        Some(TextDirection::RightToLeft)
    } else if eq_str(s, "auto") {
        Some(TextDirection::Auto)
    } else {
        None
    }
}

/// The purpose flags the recognized keywords of the token list set.
pub open spec fn spec_purpose_tokens(ts: Seq<Seq<char>>) -> IconPurpose
    decreases ts.len(),
{
    if ts.len() == 0 {
        IconPurpose { monochrome: false, maskable: false, any: false }
    } else {
        let p = spec_purpose_tokens(ts.drop_last());
        let t = ts.last();
        if t == "monochrome"@ {
            IconPurpose { monochrome: true, maskable: p.maskable, any: p.any }
        } else if t == "maskable"@ {
            IconPurpose { monochrome: p.monochrome, maskable: true, any: p.any }
        } else if t == "any"@ {
            IconPurpose { monochrome: p.monochrome, maskable: p.maskable, any: true }
        } else {
            p
        }
    }
}

/// The purpose set of a keyword string: `None` when no keyword at all is
/// recognized, which fails the icon entry that carries it.
pub open spec fn spec_purpose_of(s: Seq<char>) -> Option<IconPurpose> {
    let p = spec_purpose_tokens(spec_split_ws(s));
    if p.monochrome || p.maskable || p.any {
        Some(p)
    } else {
        None
    }
}

/// Parse a whitespace-separated purpose keyword string.
pub fn parse_purpose(s: &str) -> (r: Option<IconPurpose>)
    ensures
        r == spec_purpose_of(s@),
{
    let cs = str_chars(s);
    let toks = split_ws(&cs);
    let mut p = IconPurpose::empty();
    let mut i: usize = 0;
    let n = toks.len();
    proof {
        assert(tok_views(toks@).take(0) =~= Seq::<Seq<char>>::empty());
    }
    while i < n
        invariant
            i <= n,
            n == toks@.len(),
            tok_views(toks@) == spec_split_ws(s@),
            p == spec_purpose_tokens(tok_views(toks@).take(i as int)),
        decreases n - i,
    {
        proof {
            assert(tok_views(toks@).take(i + 1).drop_last() =~= tok_views(toks@).take(i as int));
            assert(tok_views(toks@).take(i + 1).last() == toks@[i as int]@);
        }
        if crate::strutil::tok_eq(&toks[i], "monochrome") {
            p = IconPurpose { monochrome: true, maskable: p.maskable, any: p.any };
        } else if crate::strutil::tok_eq(&toks[i], "maskable") {
            p = IconPurpose { monochrome: p.monochrome, maskable: true, any: p.any };
        } else if crate::strutil::tok_eq(&toks[i], "any") {
            p = IconPurpose { monochrome: p.monochrome, maskable: p.maskable, any: true };
        }
        i = i + 1;
    }
    proof {
        assert(tok_views(toks@).take(n as int) =~= tok_views(toks@));
    }
    if p.monochrome || p.maskable || p.any {
        Some(p)
    } else {
        None
    }
}

/// The dimensions a single `WxH` token denotes: a width and a height
/// separated by exactly one `x`, both unsigned decimal numbers.
pub open spec fn spec_size_token(t: Seq<char>) -> Option<(u64, u64)> {
    let p = idx_of(t, 'x');
    if p < t.len() && idx_of(t.skip(p + 1), 'x') == t.skip(p + 1).len() {
        match (spec_parse_u64(t.take(p)), spec_parse_u64(t.skip(p + 1))) {
            (Some(w), Some(h)) => Some((w, h)),
            _ => None,
        }
    } else {
        None
    }
}

/// The well-formed dimensions of the token list, malformed tokens skipped.
pub open spec fn spec_sizes_tokens(ts: Seq<Seq<char>>) -> Seq<(u64, u64)>
    decreases ts.len(),
{
    if ts.len() == 0 {
        Seq::empty()
    } else {
        match spec_size_token(ts.last()) {
            Some(wh) => spec_sizes_tokens(ts.drop_last()).push(wh),
            None => spec_sizes_tokens(ts.drop_last()),
        }
    }
}

/// The dimension list a `sizes` string denotes.
pub open spec fn spec_sizes_of(s: Seq<char>) -> Seq<(u64, u64)> {
    spec_sizes_tokens(spec_split_ws(s))
}

/// Parse one `WxH` token.
pub fn parse_size_token(t: &Vec<char>) -> (r: Option<(u64, u64)>)
    ensures
        r == spec_size_token(t@),
{
    let p = find_char(t, 'x');
    if p >= t.len() {
        return None;
    }
    let tail = subvec(t, p + 1, t.len());
    proof {
        assert(tail@ =~= t@.skip(p + 1));
    }
    let q = find_char(&tail, 'x');
    proof {
        crate::strutil::lemma_idx_of(tail@, 'x');
    }
    if q < tail.len() {
        return None;
    }
    let head = subvec(t, 0, p);
    proof {
        assert(head@ =~= t@.take(p as int));
    }
    match (parse_u64(&head), parse_u64(&tail)) {
        (Some(w), Some(h)) => Some((w, h)),
        _ => None,
    }
}

/// Parse a whitespace-separated `WxH` size list, skipping malformed
/// tokens.
pub fn parse_sizes(s: &str) -> (r: IconSizes)
    ensures
        r.sizes@ == spec_sizes_of(s@),
{
    let cs = str_chars(s);
    let toks = split_ws(&cs);
    let mut out: Vec<(u64, u64)> = Vec::new();
    let mut i: usize = 0;
    let n = toks.len();
    proof {
        assert(tok_views(toks@).take(0) =~= Seq::<Seq<char>>::empty());
    }
    while i < n
        invariant
            i <= n,
            n == toks@.len(),
            tok_views(toks@) == spec_split_ws(s@),
            out@ == spec_sizes_tokens(tok_views(toks@).take(i as int)),
        decreases n - i,
    {
        proof {
            assert(tok_views(toks@).take(i + 1).drop_last() =~= tok_views(toks@).take(i as int));
            assert(tok_views(toks@).take(i + 1).last() == toks@[i as int]@);
        }
        match parse_size_token(&toks[i]) {
            Some(wh) => out.push(wh),
            None => (),
        }
        i = i + 1;
    }
    proof {
        assert(tok_views(toks@).take(n as int) =~= tok_views(toks@));
    }
    IconSizes { sizes: out }
}

/// The source URL an icon object declares; a missing or non-string `src`
/// fails the entry.
pub open spec fn icon_src_field(m: Map<Seq<char>, JsonV>) -> Option<Seq<char>> {
    str_field(m, "src"@)
}

/// The purpose an icon object declares: absent, or present with a
/// non-string shape, takes the default `any`; only a keyword string with
/// no recognized keyword fails the entry.
pub open spec fn icon_purpose_field(m: Map<Seq<char>, JsonV>) -> Option<IconPurpose> {
    match obj_field(m, "purpose"@) {
        Some(JsonV::Str(s)) => spec_purpose_of(s),
        _ => Some(IconPurpose { monochrome: false, maskable: false, any: true }),
    }
}

/// The size list an icon object declares; anything but a string falls back
/// to the empty default.
pub open spec fn icon_sizes_field(m: Map<Seq<char>, JsonV>) -> Seq<(u64, u64)> {
    match obj_field(m, "sizes"@) {
        Some(JsonV::Str(s)) => spec_sizes_of(s),
        _ => Seq::empty(),
    }
}

/// Whether an icon array element survives: it must be an object with a
/// string source and a non-empty purpose.
pub open spec fn icon_ok(e: JsonV) -> bool {
    &&& e is Obj
    &&& icon_src_field(e->Obj_0) is Some
    &&& icon_purpose_field(e->Obj_0) is Some
}

/// Whether a validation slot holds exactly what the icon array element
/// says: a failing element leaves an absent slot.
pub open spec fn icon_slot_matches(e: JsonV, slot: Option<IconDraft>) -> bool {
    if icon_ok(e) {
        let m = e->Obj_0;
        &&& slot matches Some(d)
        &&& Some(d.src@) == icon_src_field(m)
        &&& d.sizes.sizes@ == icon_sizes_field(m)
        &&& opt_view(d.icon_type) == str_field(m, "type"@)
        &&& Some(d.purpose) == icon_purpose_field(m)
    } else {
        slot is None
    }
}

/// Whether a slot sequence records an icon array element by element.
pub open spec fn icons_match(es: Seq<JsonV>, slots: Seq<Option<IconDraft>>) -> bool {
    &&& slots.len() == es.len()
    &&& forall|i: int| 0 <= i < es.len() ==> icon_slot_matches(es[i], #[trigger] slots[i])
}

/// Whether an optional lossy icon list reads an object's icon-list field:
/// an absent field, or one that is not an array, reads as `None`.
pub open spec fn icon_list_matches(
    m: Map<Seq<char>, JsonV>,
    key: Seq<char>,
    r: Option<Seq<Option<IconDraft>>>,
) -> bool {
    match obj_field(m, key) {
        Some(JsonV::Arr(es)) => r matches Some(slots) && icons_match(es, slots),
        _ => r is None,
    }
}

/// Parse one element of an icon array.
pub fn parse_icon_entry(e: &serde_json::Value) -> (r: Option<IconDraft>)
    ensures
        icon_slot_matches(json_rep(*e), r),
{
    if !json_is_object(e) {
        return None;
    }
    let src = match get_str_field(e, "src") {
        Some(s) => s,
        None => {
            return None;
        },
    };
    let purpose = match json_get(e, "purpose") {
        None => IconPurpose::default(),
        Some(x) => match json_as_str(x) {
            Some(ps) => match parse_purpose(ps) {
                Some(p) => p,
                None => {
                    return None;
                },
            },
            None => IconPurpose::default(),
        },
    };
    let sizes = match json_get(e, "sizes") {
        None => IconSizes::new(),
        Some(x) => match json_as_str(x) {
            Some(ss) => parse_sizes(ss),
            None => IconSizes::new(),
        },
    };
    let icon_type = get_str_field(e, "type");
    Some(IconDraft { sizes, src, icon_type, purpose })
}

/// Parse an icon array element by element, tolerating failures.
pub fn parse_icon_array(v: &Vec<serde_json::Value>) -> (r: LossyVec<IconDraft>)
    ensures
        icons_match(v@.map_values(|x: serde_json::Value| json_rep(x)), r@),
{
    let ghost es = v@.map_values(|x: serde_json::Value| json_rep(x));
    let mut slots: Vec<Option<IconDraft>> = Vec::new();
    let mut i: usize = 0;
    let n = v.len();
    while i < n
        invariant
            i <= n,
            n == v@.len(),
            es == v@.map_values(|x: serde_json::Value| json_rep(x)),
            slots@.len() == i,
            forall|j: int| 0 <= j < i ==> icon_slot_matches(es[j], #[trigger] slots@[j]),
        decreases n - i,
    {
        let slot = parse_icon_entry(&v[i]);
        slots.push(slot);
        i = i + 1;
    }
    LossyVec::from(slots)
}

/// Read an optional icon-list field of an object.
pub fn parse_icon_list(v: &serde_json::Value, key: &str) -> (r: Option<LossyVec<IconDraft>>)
    requires
        json_rep(*v) is Obj,
    ensures
        icon_list_matches(
            json_rep(*v)->Obj_0,
            key@,
            match r {
                Some(lv) => Some(lv@),
                None => None,
            },
        ),
{
    match json_get(v, key) {
        Some(x) => match json_as_array(x) {
            Some(a) => Some(parse_icon_array(a)),
            None => None,
        },
        None => None,
    }
}

/// Whether a shortcut array element survives: it must be an object with a
/// string name and a string URL.
pub open spec fn shortcut_ok(e: JsonV) -> bool {
    &&& e is Obj
    &&& str_field(e->Obj_0, "name"@) is Some
    &&& str_field(e->Obj_0, "url"@) is Some
}

/// Whether a validation slot holds exactly what the shortcut array element
/// says.
pub open spec fn shortcut_slot_matches(e: JsonV, slot: Option<ShortcutDraft>) -> bool {
    if shortcut_ok(e) {
        let m = e->Obj_0;
        &&& slot matches Some(d)
        &&& Some(d.name@) == str_field(m, "name"@)
        &&& opt_view(d.short_name) == str_field(m, "short_name"@)
        &&& opt_view(d.description) == str_field(m, "description"@)
        &&& Some(d.url@) == str_field(m, "url"@)
        &&& icon_list_matches(
            m,
            "icons"@,
            match d.icons {
                Some(lv) => Some(lv@),
                None => None,
            },
        )
    } else {
        slot is None
    }
}

/// Whether a slot sequence records a shortcut array element by element.
pub open spec fn shortcuts_match(es: Seq<JsonV>, slots: Seq<Option<ShortcutDraft>>) -> bool {
    &&& slots.len() == es.len()
    &&& forall|i: int| 0 <= i < es.len() ==> shortcut_slot_matches(es[i], #[trigger] slots[i])
}

/// Parse one element of the shortcut array.
pub fn parse_shortcut_entry(e: &serde_json::Value) -> (r: Option<ShortcutDraft>)
    ensures
        shortcut_slot_matches(json_rep(*e), r),
{
    if !json_is_object(e) {
        return None;
    }
    let name = match get_str_field(e, "name") {
        Some(s) => s,
        None => {
            return None;
        },
    };
    let url = match get_str_field(e, "url") {
        Some(s) => s,
        None => {
            return None;
        },
    };
    let short_name = get_str_field(e, "short_name");
    let description = get_str_field(e, "description");
    let icons = parse_icon_list(e, "icons");
    Some(ShortcutDraft { name, short_name, description, url, icons })
}

/// Read the optional shortcut-list field of the manifest object.
pub fn parse_shortcut_list(v: &serde_json::Value) -> (r: Option<LossyVec<ShortcutDraft>>)
    requires
        json_rep(*v) is Obj,
    ensures
        match obj_field(json_rep(*v)->Obj_0, "shortcuts"@) {
            Some(JsonV::Arr(es)) => r matches Some(lv) && shortcuts_match(es, lv@),
            _ => r is None,
        },
{
    let x = match json_get(v, "shortcuts") {
        Some(x) => x,
        None => {
            return None;
        },
    };
    let a = match json_as_array(x) {
        Some(a) => a,
        None => {
            return None;
        },
    };
    let ghost es = a@.map_values(|y: serde_json::Value| json_rep(y));
    let mut slots: Vec<Option<ShortcutDraft>> = Vec::new();
    let mut i: usize = 0;
    let n = a.len();
    while i < n
        invariant
            i <= n,
            n == a@.len(),
            es == a@.map_values(|y: serde_json::Value| json_rep(y)),
            slots@.len() == i,
            forall|j: int| 0 <= j < i ==> shortcut_slot_matches(es[j], #[trigger] slots@[j]),
        decreases n - i,
    {
        let slot = parse_shortcut_entry(&a[i]);
        slots.push(slot);
        i = i + 1;
    }
    Some(LossyVec::from(slots))
}

/// The display mode a manifest object declares, tolerating anything
/// malformed.
pub open spec fn display_field(m: Map<Seq<char>, JsonV>) -> Option<DisplayMode> {
    match str_field(m, "display"@) {
        Some(s) => spec_display_of(s),
        None => None,
    }
}

/// The orientation a manifest object declares.
pub open spec fn orientation_field(m: Map<Seq<char>, JsonV>) -> Option<Orientation> {
    match str_field(m, "orientation"@) {
        Some(s) => spec_orientation_of(s),
        None => None,
    }
}

/// The text direction a manifest object declares.
pub open spec fn dir_field(m: Map<Seq<char>, JsonV>) -> Option<TextDirection> {
    match str_field(m, "dir"@) {
        Some(s) => spec_dir_of(s),
        None => None,
    }
}

/// The color a string field of the manifest object declares.
pub open spec fn color_field(m: Map<Seq<char>, JsonV>, key: Seq<char>) -> Option<Color> {
    match str_field(m, key) {
        Some(s) => match css_color_of(s) {
            Some(c) => Some(Color { r: c.0, g: c.1, b: c.2, a: c.3 }),
            None => None,
        },
        None => None,
    }
}

/// The language tag the manifest object declares.
pub open spec fn lang_field(m: Map<Seq<char>, JsonV>) -> Option<Seq<char>> {
    match str_field(m, "lang"@) {
        Some(s) => lang_of(s),
        None => None,
    }
}

/// Whether a draft manifest reads the manifest object field by field, with
/// parse-or-default tolerance everywhere.
pub open spec fn manifest_matches(o: Map<Seq<char>, JsonV>, m: Manifest<Unresolved>) -> bool {
    &&& opt_view(m.name) == str_field(o, "name"@)
    &&& opt_view(m.short_name) == str_field(o, "short_name"@)
    &&& opt_view(m.scope) == str_field(o, "scope"@)
    &&& opt_view(m.start_url) == str_field(o, "start_url"@)
    &&& m.dir == dir_field(o)
    &&& m.display == display_field(o)
    &&& m.orientation == orientation_field(o)
    &&& m.theme_color == color_field(o, "theme_color"@)
    &&& m.background_color == color_field(o, "background_color"@)
    &&& opt_view(m.lang) == lang_field(o)
    &&& icon_list_matches(
        o,
        "icons"@,
        match m.icons {
            Some(lv) => Some(lv@),
            None => None,
        },
    )
    &&& match obj_field(o, "shortcuts"@) {
        Some(JsonV::Arr(es)) => m.shortcuts matches Some(lv) && shortcuts_match(es, lv@),
        _ => m.shortcuts is None,
    }
}

/// Read a color field of the manifest object.
fn parse_color_field(v: &serde_json::Value, key: &str) -> (r: Option<Color>)
    requires
        json_rep(*v) is Obj,
    ensures
        r == color_field(json_rep(*v)->Obj_0, key@),
{
    match get_str_field(v, key) {
        Some(s) => parse_css_color(s.as_str()),
        None => None,
    }
}

impl Manifest<Unresolved> {
    /// Decode a manifest document.  Only a body that is not a JSON object
    /// at all is an error; every recognized field falls back to its
    /// default when absent or malformed.
    pub fn parse(s: &str) -> (r: Result<Manifest<Unresolved>, String>)
        ensures
            r is Ok <==> (json_of(s@) matches Some(j) && j is Obj),
            r matches Ok(m) ==> json_of(s@) matches Some(j) && manifest_matches(j->Obj_0, m),
    {
        let v = match json_parse(s) {
            Some(v) => v,
            None => {
                return Err(String::from_str("the document is not valid JSON"));
            },
        };
        if !json_is_object(&v) {
            return Err(String::from_str("the document is not a JSON object"));
        }
        let name = get_str_field(&v, "name");
        let short_name = get_str_field(&v, "short_name");
        let scope = get_str_field(&v, "scope");
        let start_url = get_str_field(&v, "start_url");
        let dir = match get_str_field(&v, "dir") {
            Some(s) => parse_dir(s.as_str()),
            None => None,
        };
        let display = match get_str_field(&v, "display") {
            Some(s) => parse_display(s.as_str()),
            None => None,
        };
        let orientation = match get_str_field(&v, "orientation") {
            Some(s) => parse_orientation(s.as_str()),
            None => None,
        };
        let theme_color = parse_color_field(&v, "theme_color");
        let background_color = parse_color_field(&v, "background_color");
        let lang = match get_str_field(&v, "lang") {
            Some(s) => parse_lang_tag(s.as_str()),
            None => None,
        };
        let icons = parse_icon_list(&v, "icons");
        let shortcuts = parse_shortcut_list(&v);
        Ok(
            Manifest {
                background_color,
                dir,
                display,
                icons,
                lang,
                name,
                orientation,
                scope,
                short_name,
                shortcuts,
                start_url,
                theme_color,
            },
        )
    }
}

/// The mathematical content of an icon entry, shared by both states.
pub struct IconV {
    /// Advertised dimensions.
    pub sizes: Seq<(u64, u64)>,
    /// Source URL text.
    pub src: Seq<char>,
    /// Media-type hint.
    pub icon_type: Option<Seq<char>>,
    /// Declared purposes.
    pub purpose: IconPurpose,
}

impl View for IconDraft {
    type V = IconV;

    open spec fn view(&self) -> IconV {
        IconV {
            sizes: self.sizes.sizes@,
            src: self.src@,
            icon_type: opt_view(self.icon_type),
            purpose: self.purpose,
        }
    }
}

impl View for Icon {
    type V = IconV;

    open spec fn view(&self) -> IconV {
        IconV {
            sizes: self.sizes.sizes@,
            src: self.src@,
            icon_type: opt_view(self.icon_type),
            purpose: self.purpose,
        }
    }
}

/// The mathematical content of a shortcut entry; a draft's icon list reads
/// as its surviving elements.
pub struct ShortcutV {
    /// Name of the shortcut.
    pub name: Seq<char>,
    /// Short version of the name.
    pub short_name: Option<Seq<char>>,
    /// Purpose of the shortcut.
    pub description: Option<Seq<char>>,
    /// Target URL text.
    pub url: Seq<char>,
    /// Icon entries.
    pub icons: Option<Seq<IconV>>,
}

impl View for ShortcutDraft {
    type V = ShortcutV;

    open spec fn view(&self) -> ShortcutV {
        ShortcutV {
            name: self.name@,
            short_name: opt_view(self.short_name),
            description: opt_view(self.description),
            url: self.url@,
            icons: match self.icons {
                Some(lv) => Some(survivors(lv@).map_values(|d: IconDraft| d@)),
                None => None,
            },
        }
    }
}

impl View for ShortcutItem {
    type V = ShortcutV;

    open spec fn view(&self) -> ShortcutV {
        ShortcutV {
            name: self.name@,
            short_name: opt_view(self.short_name),
            description: opt_view(self.description),
            url: self.url@,
            icons: match self.icons {
                Some(v) => Some(v@.map_values(|d: Icon| d@)),
                None => None,
            },
        }
    }
}

/// The mathematical content of a manifest, shared by both states; a
/// draft's lossy lists read as their surviving elements.
pub struct ManifestV {
    /// Background color.
    pub background_color: Option<Color>,
    /// Text direction.
    pub dir: Option<TextDirection>,
    /// Display mode.
    pub display: Option<DisplayMode>,
    /// Icon entries.
    pub icons: Option<Seq<IconV>>,
    /// Language tag.
    pub lang: Option<Seq<char>>,
    /// Application name.
    pub name: Option<Seq<char>>,
    /// Screen orientation.
    pub orientation: Option<Orientation>,
    /// Navigation scope URL text.
    pub scope: Option<Seq<char>>,
    /// Short name.
    pub short_name: Option<Seq<char>>,
    /// Shortcut entries.
    pub shortcuts: Option<Seq<ShortcutV>>,
    /// Start URL text.
    pub start_url: Option<Seq<char>>,
    /// Theme color.
    pub theme_color: Option<Color>,
}

impl View for Manifest<Unresolved> {
    type V = ManifestV;

    open spec fn view(&self) -> ManifestV {
        ManifestV {
            background_color: self.background_color,
            dir: self.dir,
            display: self.display,
            icons: match self.icons {
                Some(lv) => Some(survivors(lv@).map_values(|d: IconDraft| d@)),
                None => None,
            },
            lang: opt_view(self.lang),
            name: opt_view(self.name),
            orientation: self.orientation,
            scope: opt_view(self.scope),
            short_name: opt_view(self.short_name),
            shortcuts: match self.shortcuts {
                Some(lv) => Some(survivors(lv@).map_values(|d: ShortcutDraft| d@)),
                None => None,
            },
            start_url: opt_view(self.start_url),
            theme_color: self.theme_color,
        }
    }
}

impl View for Manifest<Resolved> {
    type V = ManifestV;

    open spec fn view(&self) -> ManifestV {
        ManifestV {
            background_color: self.background_color,
            dir: self.dir,
            display: self.display,
            icons: match self.icons {
                Some(v) => Some(v@.map_values(|d: Icon| d@)),
                None => None,
            },
            lang: opt_view(self.lang),
            name: opt_view(self.name),
            orientation: self.orientation,
            scope: opt_view(self.scope),
            short_name: opt_view(self.short_name),
            shortcuts: match self.shortcuts {
                Some(v) => Some(v@.map_values(|d: ShortcutItem| d@)),
                None => None,
            },
            start_url: opt_view(self.start_url),
            theme_color: self.theme_color,
        }
    }
}

/// An icon is resolved by joining its source against the base; a failing
/// join drops it.
pub open spec fn spec_resolve_icon(base: Seq<char>, d: IconV) -> Option<IconV> {
    match join_of(base, d.src) {
        Some(j) => Some(
            IconV { sizes: d.sizes, src: j, icon_type: d.icon_type, purpose: d.purpose },
        ),
        None => None,
    }
}

/// Resolve each icon of a list, keeping order and dropping failures.
pub open spec fn spec_resolve_icon_seq(base: Seq<char>, s: Seq<IconV>) -> Seq<IconV>
    decreases s.len(),
{
    if s.len() == 0 {
        Seq::empty()
    } else {
        match spec_resolve_icon(base, s[0]) {
            Some(v) => seq![v] + spec_resolve_icon_seq(base, s.drop_first()),
            None => spec_resolve_icon_seq(base, s.drop_first()),
        }
    }
}

/// A shortcut is resolved by joining its target URL (a failure drops the
/// whole entry) and resolving its icon list.
pub open spec fn spec_resolve_shortcut(base: Seq<char>, s: ShortcutV) -> Option<ShortcutV> {
    match join_of(base, s.url) {
        Some(j) => Some(
            ShortcutV {
                name: s.name,
                short_name: s.short_name,
                description: s.description,
                url: j,
                icons: match s.icons {
                    Some(ic) => Some(spec_resolve_icon_seq(base, ic)),
                    None => None,
                },
            },
        ),
        None => None,
    }
}

/// Resolve each shortcut of a list, keeping order and dropping failures.
pub open spec fn spec_resolve_shortcut_seq(base: Seq<char>, s: Seq<ShortcutV>) -> Seq<ShortcutV>
    decreases s.len(),
{
    if s.len() == 0 {
        Seq::empty()
    } else {
        match spec_resolve_shortcut(base, s[0]) {
            Some(v) => seq![v] + spec_resolve_shortcut_seq(base, s.drop_first()),
            None => spec_resolve_shortcut_seq(base, s.drop_first()),
        }
    }
}

/// A manifest is resolved field by field: every URL-bearing field exactly
/// once, everything else copied.
pub open spec fn spec_resolve_manifest(base: Seq<char>, m: ManifestV) -> ManifestV {
    ManifestV {
        background_color: m.background_color,
        dir: m.dir,
        display: m.display,
        icons: match m.icons {
            Some(ic) => Some(spec_resolve_icon_seq(base, ic)),
            None => None,
        },
        lang: m.lang,
        name: m.name,
        orientation: m.orientation,
        scope: spec_resolve_opt_url(base, m.scope),
        short_name: m.short_name,
        shortcuts: match m.shortcuts {
            Some(sc) => Some(spec_resolve_shortcut_seq(base, sc)),
            None => None,
        },
        start_url: spec_resolve_opt_url(base, m.start_url),
        theme_color: m.theme_color,
    }
}

/// Every URL of the icon list is a fixed point of resolution.
pub open spec fn icons_rejoin(base: Seq<char>, s: Seq<IconV>) -> bool {
    forall|i: int| 0 <= i < s.len() ==> rejoins(base, (#[trigger] s[i]).src)
}

/// Every URL of the shortcut list, including its icons', is a fixed point.
pub open spec fn shortcuts_rejoin(base: Seq<char>, s: Seq<ShortcutV>) -> bool {
    forall|i: int|
        0 <= i < s.len() ==> {
            &&& rejoins(base, (#[trigger] s[i]).url)
            &&& match s[i].icons {
                Some(ic) => icons_rejoin(base, ic),
                None => true,
            }
        }
}

/// Every URL of the manifest is a fixed point of resolution against the
/// base.
pub open spec fn manifest_rejoins(base: Seq<char>, m: ManifestV) -> bool {
    &&& match m.scope {
        Some(s) => rejoins(base, s),
        None => true,
    }
    &&& match m.start_url {
        Some(s) => rejoins(base, s),
        None => true,
    }
    &&& match m.icons {
        Some(ic) => icons_rejoin(base, ic),
        None => true,
    }
    &&& match m.shortcuts {
        Some(sc) => shortcuts_rejoin(base, sc),
        None => true,
    }
}

/// Appending an icon extends the resolved list by its resolution exactly
/// when the join succeeds.
pub proof fn lemma_resolve_icon_seq_push(base: Seq<char>, s: Seq<IconV>, x: IconV)
    ensures
        spec_resolve_icon_seq(base, s.push(x)) == match spec_resolve_icon(base, x) {
            Some(v) => spec_resolve_icon_seq(base, s).push(v),
            None => spec_resolve_icon_seq(base, s),
        },
    decreases s.len(),
{
    let sp = s.push(x);
    if s.len() == 0 {
        reveal_with_fuel(spec_resolve_icon_seq, 2);
        assert(sp.drop_first() =~= Seq::<IconV>::empty());
        match spec_resolve_icon(base, x) {
            Some(v) => {
                assert(spec_resolve_icon_seq(base, sp) =~= spec_resolve_icon_seq(base, s).push(
                    v,
                ));
            },
            None => {},
        }
    } else {
        assert(sp.drop_first() =~= s.drop_first().push(x));
        lemma_resolve_icon_seq_push(base, s.drop_first(), x);
        match spec_resolve_icon(base, s[0]) {
            Some(v0) => {
                match spec_resolve_icon(base, x) {
                    Some(v) => {
                        assert(spec_resolve_icon_seq(base, sp) =~= spec_resolve_icon_seq(
                            base,
                            s,
                        ).push(v));
                    },
                    None => {},
                }
            },
            None => {},
        }
    }
}

/// Appending a shortcut extends the resolved list by its resolution
/// exactly when its target joins.
pub proof fn lemma_resolve_shortcut_seq_push(base: Seq<char>, s: Seq<ShortcutV>, x: ShortcutV)
    ensures
        spec_resolve_shortcut_seq(base, s.push(x)) == match spec_resolve_shortcut(base, x) {
            Some(v) => spec_resolve_shortcut_seq(base, s).push(v),
            None => spec_resolve_shortcut_seq(base, s),
        },
    decreases s.len(),
{
    let sp = s.push(x);
    if s.len() == 0 {
        reveal_with_fuel(spec_resolve_shortcut_seq, 2);
        assert(sp.drop_first() =~= Seq::<ShortcutV>::empty());
        match spec_resolve_shortcut(base, x) {
            Some(v) => {
                assert(spec_resolve_shortcut_seq(base, sp) =~= spec_resolve_shortcut_seq(
                    base,
                    s,
                ).push(v));
            },
            None => {},
        }
    } else {
        assert(sp.drop_first() =~= s.drop_first().push(x));
        lemma_resolve_shortcut_seq_push(base, s.drop_first(), x);
        match spec_resolve_shortcut(base, s[0]) {
            Some(v0) => {
                match spec_resolve_shortcut(base, x) {
                    Some(v) => {
                        assert(spec_resolve_shortcut_seq(base, sp) =~= spec_resolve_shortcut_seq(
                            base,
                            s,
                        ).push(v));
                    },
                    None => {},
                }
            },
            None => {},
        }
    }
}

impl IconDraft {
    /// Resolve the icon's source against the base, dropping the icon when
    /// the join fails.
    pub fn resolve(self, base: &str) -> (r: Option<Icon>)
        ensures
            match spec_resolve_icon(base@, self@) {
                Some(v) => r matches Some(ic) && ic@ == v && rejoins(base@, ic@.src),
                None => r is None,
            },
    {
        match url_join(base, self.src.as_str()) {
            Some(j) => Some(
                Icon { sizes: self.sizes, src: j, icon_type: self.icon_type, purpose: self.purpose },
            ),
            None => None,
        }
    }
}

/// Resolve the surviving icons of a lossy list.
pub fn resolve_icon_list(base: &str, lv: LossyVec<IconDraft>) -> (r: Vec<Icon>)
    ensures
        r@.map_values(|d: Icon| d@) == spec_resolve_icon_seq(
            base@,
            survivors(lv@).map_values(|d: IconDraft| d@),
        ),
        icons_rejoin(base@, r@.map_values(|d: Icon| d@)),
{
    let mut kept = lv.purge();
    let ghost all = survivors(lv@).map_values(|d: IconDraft| d@);
    let mut r: Vec<Icon> = Vec::new();
    proof {
        assert(kept@.map_values(|d: IconDraft| d@) =~= all);
        assert(all.skip(0) =~= all);
        assert(all.take(0) =~= Seq::<IconV>::empty());
        assert(r@.map_values(|d: Icon| d@) =~= spec_resolve_icon_seq(base@, all.take(0)));
    }
    while kept.len() > 0
        invariant
            kept@.len() <= all.len(),
            kept@.map_values(|d: IconDraft| d@) == all.skip(all.len() - kept@.len()),
            r@.map_values(|d: Icon| d@) == spec_resolve_icon_seq(
                base@,
                all.take(all.len() - kept@.len()),
            ),
            icons_rejoin(base@, r@.map_values(|d: Icon| d@)),
        decreases kept@.len(),
    {
        let ghost k = all.len() - kept@.len();
        let ghost pre = kept@;
        let d = kept.remove(0);
        proof {
            assert(pre.map_values(|d: IconDraft| d@)[0] == d@);
            assert(d@ == all[k]);
            assert(pre.remove(0) =~= pre.drop_first());
            assert(kept@.map_values(|d: IconDraft| d@) =~= all.skip(k).drop_first());
            assert(all.skip(k).drop_first() =~= all.skip(k + 1));
            lemma_resolve_icon_seq_push(base@, all.take(k), all[k]);
            assert(all.take(k).push(all[k]) =~= all.take(k + 1));
        }
        let ghost rv = r@.map_values(|d: Icon| d@);
        match d.resolve(base) {
            Some(ic) => {
                let ghost icv = ic@;
                r.push(ic);
                proof {
                    assert(r@.map_values(|d: Icon| d@) =~= rv.push(icv));
                }
            },
            None => (),
        }
    }
    proof {
        assert(all.take(all.len() as int) =~= all);
    }
    r
}

impl ShortcutDraft {
    /// Resolve the shortcut's target and icons against the base, dropping
    /// the whole entry when the target does not join.
    pub fn resolve(self, base: &str) -> (r: Option<ShortcutItem>)
        ensures
            match spec_resolve_shortcut(base@, self@) {
                Some(v) => r matches Some(sc) && sc@ == v && rejoins(base@, sc@.url) && match sc@.icons {
                    Some(ic) => icons_rejoin(base@, ic),
                    None => true,
                },
                None => r is None,
            },
    {
        let url = match url_join(base, self.url.as_str()) {
            Some(j) => j,
            None => {
                return None;
            },
        };
        let icons = match self.icons {
            Some(lv) => Some(resolve_icon_list(base, lv)),
            None => None,
        };
        Some(
            ShortcutItem {
                name: self.name,
                short_name: self.short_name,
                description: self.description,
                url,
                icons,
            },
        )
    }
}

/// Resolve the surviving shortcuts of a lossy list.
pub fn resolve_shortcut_list(base: &str, lv: LossyVec<ShortcutDraft>) -> (r: Vec<ShortcutItem>)
    ensures
        r@.map_values(|d: ShortcutItem| d@) == spec_resolve_shortcut_seq(
            base@,
            survivors(lv@).map_values(|d: ShortcutDraft| d@),
        ),
        shortcuts_rejoin(base@, r@.map_values(|d: ShortcutItem| d@)),
{
    let mut kept = lv.purge();
    let ghost all = survivors(lv@).map_values(|d: ShortcutDraft| d@);
    let mut r: Vec<ShortcutItem> = Vec::new();
    proof {
        assert(kept@.map_values(|d: ShortcutDraft| d@) =~= all);
        assert(all.skip(0) =~= all);
        assert(all.take(0) =~= Seq::<ShortcutV>::empty());
        assert(r@.map_values(|d: ShortcutItem| d@) =~= spec_resolve_shortcut_seq(
            base@,
            all.take(0),
        ));
    }
    while kept.len() > 0
        invariant
            kept@.len() <= all.len(),
            kept@.map_values(|d: ShortcutDraft| d@) == all.skip(all.len() - kept@.len()),
            r@.map_values(|d: ShortcutItem| d@) == spec_resolve_shortcut_seq(
                base@,
                all.take(all.len() - kept@.len()),
            ),
            shortcuts_rejoin(base@, r@.map_values(|d: ShortcutItem| d@)),
        decreases kept@.len(),
    {
        let ghost k = all.len() - kept@.len();
        let ghost pre = kept@;
        let d = kept.remove(0);
        proof {
            assert(pre.map_values(|d: ShortcutDraft| d@)[0] == d@);
            assert(d@ == all[k]);
            assert(pre.remove(0) =~= pre.drop_first());
            assert(kept@.map_values(|d: ShortcutDraft| d@) =~= all.skip(k).drop_first());
            assert(all.skip(k).drop_first() =~= all.skip(k + 1));
            lemma_resolve_shortcut_seq_push(base@, all.take(k), all[k]);
            assert(all.take(k).push(all[k]) =~= all.take(k + 1));
        }
        let ghost rv = r@.map_values(|d: ShortcutItem| d@);
        match d.resolve(base) {
            Some(sc) => {
                let ghost scv = sc@;
                r.push(sc);
                proof {
                    assert(r@.map_values(|d: ShortcutItem| d@) =~= rv.push(scv));
                }
            },
            None => (),
        }
    }
    proof {
        assert(all.take(all.len() as int) =~= all);
    }
    r
}

impl Manifest<Unresolved> {
    /// Resolve every URL-bearing field against the base URL exactly once,
    /// copying everything else.
    pub fn resolve(self, base: &str) -> (r: Manifest<Resolved>)
        ensures
            r@ == spec_resolve_manifest(base@, self@),
            manifest_rejoins(base@, r@),
    {
        let ghost dv = self@;
        let Manifest {
            background_color,
            dir,
            display,
            icons,
            lang,
            name,
            orientation,
            scope,
            short_name,
            shortcuts,
            start_url,
            theme_color,
        } = self;
        let scope = resolve_opt_url(base, &scope);
        let start_url = resolve_opt_url(base, &start_url);
        let icons = match icons {
            Some(lv) => Some(resolve_icon_list(base, lv)),
            None => None,
        };
        let shortcuts = match shortcuts {
            Some(lv) => Some(resolve_shortcut_list(base, lv)),
            None => None,
        };
        Manifest {
            background_color,
            dir,
            display,
            icons,
            lang,
            name,
            orientation,
            scope,
            short_name,
            shortcuts,
            start_url,
            theme_color,
        }
    }
}

/// Re-resolving a list of already-resolved icons changes nothing.
pub proof fn lemma_icon_resolution_idempotent(base: Seq<char>, s: Seq<IconV>)
    requires
        icons_rejoin(base, s),
    ensures
        spec_resolve_icon_seq(base, s) == s,
    decreases s.len(),
{
    if s.len() == 0 {
        assert(spec_resolve_icon_seq(base, s) =~= s);
    } else {
        assert(rejoins(base, s[0].src));
        assert(spec_resolve_icon(base, s[0]) == Some(s[0]));
        assert(icons_rejoin(base, s.drop_first())) by {
            assert(forall|i: int|
                0 <= i < s.drop_first().len() ==> #[trigger] s.drop_first()[i] == s[i + 1]);
        }
        lemma_icon_resolution_idempotent(base, s.drop_first());
        assert(spec_resolve_icon_seq(base, s) =~= s);
    }
}

/// Re-resolving a list of already-resolved shortcuts changes nothing.
pub proof fn lemma_shortcut_resolution_idempotent(base: Seq<char>, s: Seq<ShortcutV>)
    requires
        shortcuts_rejoin(base, s),
    ensures
        spec_resolve_shortcut_seq(base, s) == s,
    decreases s.len(),
{
    if s.len() == 0 {
        assert(spec_resolve_shortcut_seq(base, s) =~= s);
    } else {
        assert(rejoins(base, s[0].url));
        match s[0].icons {
            Some(ic) => {
                lemma_icon_resolution_idempotent(base, ic);
            },
            None => {},
        }
        assert(spec_resolve_shortcut(base, s[0]) == Some(s[0]));
        assert(shortcuts_rejoin(base, s.drop_first())) by {
            assert(forall|i: int|
                0 <= i < s.drop_first().len() ==> #[trigger] s.drop_first()[i] == s[i + 1]);
        }
        lemma_shortcut_resolution_idempotent(base, s.drop_first());
        assert(spec_resolve_shortcut_seq(base, s) =~= s);
    }
}

/// Resolution is idempotent for manifests: a manifest whose URLs are
/// already fixed points of joining against the base — which is what
/// `resolve` produces — resolves to itself, field by field.
pub proof fn lemma_manifest_resolution_idempotent(base: Seq<char>, m: ManifestV)
    requires
        manifest_rejoins(base, m),
    ensures
        spec_resolve_manifest(base, m) == m,
{
    match m.icons {
        Some(ic) => {
            lemma_icon_resolution_idempotent(base, ic);
        },
        None => {},
    }
    match m.shortcuts {
        Some(sc) => {
            lemma_shortcut_resolution_idempotent(base, sc);
        },
        None => {},
    }
}

/// The content of a surviving icon array element.
pub open spec fn spec_icon_of_obj(m: Map<Seq<char>, JsonV>) -> IconV {
    IconV {
        sizes: icon_sizes_field(m),
        src: icon_src_field(m)->Some_0,
        icon_type: str_field(m, "type"@),
        purpose: icon_purpose_field(m)->Some_0,
    }
}

/// The surviving icons of an icon array, in order.
pub open spec fn spec_icons_of(es: Seq<JsonV>) -> Seq<IconV>
    decreases es.len(),
{
    if es.len() == 0 {
        Seq::empty()
    } else {
        spec_icons_of(es.drop_last()) + (if icon_ok(es.last()) {
            seq![spec_icon_of_obj(es.last()->Obj_0)]
        } else {
            Seq::empty()
        })
    }
}

/// The icon list a field reads as, at the level of views.
pub open spec fn spec_icon_list_of(m: Map<Seq<char>, JsonV>, key: Seq<char>) -> Option<
    Seq<IconV>,
> {
    match obj_field(m, key) {
        Some(JsonV::Arr(es)) => Some(spec_icons_of(es)),
        _ => None,
    }
}

/// The content of a surviving shortcut array element.
pub open spec fn spec_shortcut_of_obj(m: Map<Seq<char>, JsonV>) -> ShortcutV {
    ShortcutV {
        name: str_field(m, "name"@)->Some_0,
        short_name: str_field(m, "short_name"@),
        description: str_field(m, "description"@),
        url: str_field(m, "url"@)->Some_0,
        icons: spec_icon_list_of(m, "icons"@),
    }
}

/// The surviving shortcuts of the shortcut array, in order.
pub open spec fn spec_shortcuts_of(es: Seq<JsonV>) -> Seq<ShortcutV>
    decreases es.len(),
{
    if es.len() == 0 {
        Seq::empty()
    } else {
        spec_shortcuts_of(es.drop_last()) + (if shortcut_ok(es.last()) {
            seq![spec_shortcut_of_obj(es.last()->Obj_0)]
        } else {
            Seq::empty()
        })
    }
}

/// The draft manifest a manifest object determines, at the level of
/// views.
pub open spec fn spec_draft_manifest(o: Map<Seq<char>, JsonV>) -> ManifestV {
    ManifestV {
        background_color: color_field(o, "background_color"@),
        dir: dir_field(o),
        display: display_field(o),
        icons: spec_icon_list_of(o, "icons"@),
        lang: lang_field(o),
        name: str_field(o, "name"@),
        orientation: orientation_field(o),
        scope: str_field(o, "scope"@),
        short_name: str_field(o, "short_name"@),
        shortcuts: match obj_field(o, "shortcuts"@) {
            Some(JsonV::Arr(es)) => Some(spec_shortcuts_of(es)),
            _ => None,
        },
        start_url: str_field(o, "start_url"@),
        theme_color: color_field(o, "theme_color"@),
    }
}

/// How many elements of an icon array are well-formed.
pub open spec fn num_icon_ok(es: Seq<JsonV>) -> nat
    decreases es.len(),
{
    if es.len() == 0 {
        0
    } else {
        num_icon_ok(es.drop_last()) + (if icon_ok(es.last()) {
            1nat
        } else {
            0nat
        })
    }
}

/// Lossy tolerance for icon arrays: however well-formed and malformed
/// elements are mixed, parsing succeeds and keeps exactly the well-formed
/// ones, in their original order.
pub proof fn lemma_icon_lossy_tolerance(es: Seq<JsonV>, slots: Seq<Option<IconDraft>>)
    requires
        icons_match(es, slots),
    ensures
        survivors(slots).len() == num_icon_ok(es),
        forall|i: int|
            0 <= i < es.len() ==> (icon_ok(#[trigger] es[i]) <==> slots[i] is Some),
    decreases es.len(),
{
    if es.len() > 0 {
        let es0 = es.drop_last();
        let slots0 = slots.drop_last();
        assert(icons_match(es0, slots0)) by {
            assert(forall|i: int| 0 <= i < es0.len() ==> #[trigger] slots0[i] == slots[i]);
            assert(forall|i: int| 0 <= i < es0.len() ==> #[trigger] es0[i] == es[i]);
        }
        lemma_icon_lossy_tolerance(es0, slots0);
        assert(icon_slot_matches(es.last(), slots.last()));
        crate::lossy::lemma_survivors_push(slots0, slots.last());
        assert(slots0.push(slots.last()) =~= slots);
    }
}

/// A slot sequence that records an icon array reads, through the view,
/// as exactly the array's surviving icons.
pub proof fn lemma_icons_match_views(es: Seq<JsonV>, slots: Seq<Option<IconDraft>>)
    requires
        icons_match(es, slots),
    ensures
        survivors(slots).map_values(|d: IconDraft| d@) == spec_icons_of(es),
    decreases es.len(),
{
    if es.len() == 0 {
        assert(slots =~= Seq::<Option<IconDraft>>::empty());
        assert(survivors(slots).map_values(|d: IconDraft| d@) =~= spec_icons_of(es));
    } else {
        let es0 = es.drop_last();
        let slots0 = slots.drop_last();
        assert(icons_match(es0, slots0)) by {
            assert(forall|i: int| 0 <= i < es0.len() ==> #[trigger] slots0[i] == slots[i]);
            assert(forall|i: int| 0 <= i < es0.len() ==> #[trigger] es0[i] == es[i]);
        }
        lemma_icons_match_views(es0, slots0);
        assert(icon_slot_matches(es.last(), slots.last()));
        crate::lossy::lemma_survivors_push(slots0, slots.last());
        assert(slots0.push(slots.last()) =~= slots);
        match slots.last() {
            Some(d) => {
                assert(d@ == spec_icon_of_obj(es.last()->Obj_0));
                assert(survivors(slots).map_values(|d: IconDraft| d@) =~= survivors(
                    slots0,
                ).map_values(|d: IconDraft| d@) + seq![spec_icon_of_obj(es.last()->Obj_0)]);
            },
            None => {
                assert(survivors(slots).map_values(|d: IconDraft| d@) =~= survivors(
                    slots0,
                ).map_values(|d: IconDraft| d@));
            },
        }
        assert(survivors(slots).map_values(|d: IconDraft| d@) =~= spec_icons_of(es));
    }
}

/// An optional lossy icon list that records an icon-list field reads as
/// the field's icon list.
pub proof fn lemma_icon_list_matches_view(
    m: Map<Seq<char>, JsonV>,
    key: Seq<char>,
    icons: Option<LossyVec<IconDraft>>,
)
    requires
        icon_list_matches(
            m,
            key,
            match icons {
                Some(lv) => Some(lv@),
                None => None,
            },
        ),
    ensures
        (match icons {
            Some(lv) => Some(survivors(lv@).map_values(|d: IconDraft| d@)),
            None => None,
        }) == spec_icon_list_of(m, key),
{
    match icons {
        Some(lv) => {
            match obj_field(m, key) {
                Some(JsonV::Arr(es)) => {
                    lemma_icons_match_views(es, lv@);
                },
                _ => {
                    assert(false);
                },
            }
        },
        None => {},
    }
}

/// A slot sequence that records the shortcut array reads, through the
/// view, as exactly the array's surviving shortcuts.
pub proof fn lemma_shortcuts_match_views(es: Seq<JsonV>, slots: Seq<Option<ShortcutDraft>>)
    requires
        shortcuts_match(es, slots),
    ensures
        survivors(slots).map_values(|d: ShortcutDraft| d@) == spec_shortcuts_of(es),
    decreases es.len(),
{
    if es.len() == 0 {
        assert(slots =~= Seq::<Option<ShortcutDraft>>::empty());
        assert(survivors(slots).map_values(|d: ShortcutDraft| d@) =~= spec_shortcuts_of(es));
    } else {
        let es0 = es.drop_last();
        let slots0 = slots.drop_last();
        assert(shortcuts_match(es0, slots0)) by {
            assert(forall|i: int| 0 <= i < es0.len() ==> #[trigger] slots0[i] == slots[i]);
            assert(forall|i: int| 0 <= i < es0.len() ==> #[trigger] es0[i] == es[i]);
        }
        lemma_shortcuts_match_views(es0, slots0);
        assert(shortcut_slot_matches(es.last(), slots.last()));
        crate::lossy::lemma_survivors_push(slots0, slots.last());
        assert(slots0.push(slots.last()) =~= slots);
        match slots.last() {
            Some(d) => {
                lemma_icon_list_matches_view(es.last()->Obj_0, "icons"@, d.icons);
                assert(d@ == spec_shortcut_of_obj(es.last()->Obj_0));
                assert(survivors(slots).map_values(|d: ShortcutDraft| d@) =~= survivors(
                    slots0,
                ).map_values(|d: ShortcutDraft| d@) + seq![
                    spec_shortcut_of_obj(es.last()->Obj_0),
                ]);
            },
            None => {
                assert(survivors(slots).map_values(|d: ShortcutDraft| d@) =~= survivors(
                    slots0,
                ).map_values(|d: ShortcutDraft| d@));
            },
        }
        assert(survivors(slots).map_values(|d: ShortcutDraft| d@) =~= spec_shortcuts_of(es));
    }
}

/// A draft manifest that records a manifest object reads, through the
/// view, as exactly the manifest that object determines: tolerant
/// parsing is a function of the document.
pub proof fn lemma_manifest_matches_view(o: Map<Seq<char>, JsonV>, m: Manifest<Unresolved>)
    requires
        manifest_matches(o, m),
    ensures
        m@ == spec_draft_manifest(o),
{
    lemma_icon_list_matches_view(o, "icons"@, m.icons);
    match m.shortcuts {
        Some(lv) => {
            match obj_field(o, "shortcuts"@) {
                Some(JsonV::Arr(es)) => {
                    lemma_shortcuts_match_views(es, lv@);
                },
                _ => {
                    assert(false);
                },
            }
        },
        None => {},
    }
}

/// Why fetching a manifest failed: the transport failed, or the body was
/// not JSON at all.
#[derive(Debug, Clone, PartialEq, Eq)]
pub enum FetchManifestError {
    /// The document could not be retrieved.
    NetworkError(String),
    /// The document is not valid JSON.
    ParseError(String),
}

impl FetchManifestError {
    /// A human-readable description of the failure.
    pub fn message(&self) -> (r: String)
        ensures
            match self {
                FetchManifestError::NetworkError(m) => r@ == "Network error: "@ + m@,
                FetchManifestError::ParseError(m) => r@ == "Parse error: "@ + m@,
            },
    {
        match self {
            FetchManifestError::NetworkError(m) => {
                let mut s = String::from_str("Network error: ");
                s.append(m.as_str());
                s
            },
            FetchManifestError::ParseError(m) => {
                let mut s = String::from_str("Parse error: ");
                s.append(m.as_str());
                s
            },
        }
    }
}

} // verus!
