//! The two resolution states and the URL-resolution discipline.
//!
//! Every descriptor is parameterized by a state: in `Unresolved` form its URL
//! fields are raw strings and its collections are lossy; in `Resolved` form
//! every URL is the result of joining against a base URL and the collections
//! are plain vectors with unresolvable entries removed.  A value moves from
//! `Unresolved` to `Resolved` exactly once, and re-resolving what is already
//! resolved against the same base changes nothing.

use vstd::prelude::*;

use crate::lossy::{survivors, LossyVec};
use crate::urls::{join_of, url_join};

verus! {

/// The per-state choice of URL and collection representations.
pub trait ResolveType {
    /// How a URL field is stored in this state.
    type Url;

    /// How the site's icon list is stored in this state.
    type SiteIcons;

    /// How a manifest icon list is stored in this state.
    type Icons;

    /// How the manifest's shortcut list is stored in this state.
    type Shortcuts;
}

/// URL fields are raw strings; collections tolerate malformed entries.
pub struct Unresolved;

/// URL fields are absolute URL serializations; collections are plain.
pub struct Resolved;

impl ResolveType for Unresolved {
    type Url = String;

    type SiteIcons = LossyVec<String>;

    type Icons = LossyVec<crate::manifest::IconDraft>;

    type Shortcuts = LossyVec<crate::manifest::ShortcutDraft>;
}

impl ResolveType for Resolved {
    type Url = String;

    type SiteIcons = Vec<String>;

    type Icons = Vec<crate::manifest::Icon>;

    type Shortcuts = Vec<crate::manifest::ShortcutItem>;
}

/// A state change that does not consult a base URL: it only drops the
/// absent slots of a lossy collection.
pub trait ResolvableConst: Sized where Self::Out: View {
    /// The resolved representation.
    type Out: View;

    /// What the resolved value holds, stated over views.
    spec fn resolved_view(self) -> <Self::Out as View>::V;

    /// Move to the resolved representation.
    fn resolve(self) -> (r: Self::Out)
        ensures
            r@ == self.resolved_view(),
    ;
}

impl<T> ResolvableConst for LossyVec<T> {
    type Out = Vec<T>;

    open spec fn resolved_view(self) -> Seq<T> {
        survivors(self@)
    }

    fn resolve(self) -> (r: Vec<T>)
        ensures
            r@ == self.resolved_view(),
    {
        self.purge()
    }
}

/// An optional URL field is resolved against the base; a field whose join
/// fails becomes absent.
pub open spec fn spec_resolve_opt_url(base: Seq<char>, s: Option<Seq<char>>) -> Option<
    Seq<char>,
> {
    match s {
        Some(x) => join_of(base, x),
        None => None,
    }
}

/// A sequence of URL strings is resolved element by element, dropping the
/// ones whose join fails and keeping the order of the rest.
pub open spec fn spec_resolve_urls(base: Seq<char>, s: Seq<Seq<char>>) -> Seq<Seq<char>>
    decreases s.len(),
{
    if s.len() == 0 {
        Seq::empty()
    } else {
        match join_of(base, s[0]) {
            Some(j) => seq![j] + spec_resolve_urls(base, s.drop_first()),
            None => spec_resolve_urls(base, s.drop_first()),
        }
    }
}

/// A URL is a fixed point of resolution against `base`.
pub open spec fn rejoins(base: Seq<char>, s: Seq<char>) -> bool {
    join_of(base, s) == Some(s)
}

/// Every URL of the sequence is a fixed point of resolution against `base`.
pub open spec fn all_rejoin(base: Seq<char>, s: Seq<Seq<char>>) -> bool {
    forall|i: int| 0 <= i < s.len() ==> rejoins(base, #[trigger] s[i])
}

/// The views of a vector of strings.
pub open spec fn str_views(s: Seq<String>) -> Seq<Seq<char>> {
    s.map_values(|x: String| x@)
}

/// Appending a URL extends the resolved sequence by its join result exactly
/// when the join succeeds.
pub proof fn lemma_resolve_urls_push(base: Seq<char>, s: Seq<Seq<char>>, x: Seq<char>)
    ensures
        spec_resolve_urls(base, s.push(x)) == match join_of(base, x) {
            Some(j) => spec_resolve_urls(base, s).push(j),
            None => spec_resolve_urls(base, s),
        },
    decreases s.len(),
{
    let sp = s.push(x);
    if s.len() == 0 {
        reveal_with_fuel(spec_resolve_urls, 2);
        assert(sp.drop_first() =~= Seq::<Seq<char>>::empty());
        match join_of(base, x) {
            Some(j) => {
                assert(spec_resolve_urls(base, sp) =~= spec_resolve_urls(base, s).push(j));
            },
            None => {},
        }
    } else {
        assert(sp.drop_first() =~= s.drop_first().push(x));
        lemma_resolve_urls_push(base, s.drop_first(), x);
        match join_of(base, s[0]) {
            Some(j0) => {
                match join_of(base, x) {
                    Some(j) => {
                        assert(spec_resolve_urls(base, sp) =~= spec_resolve_urls(base, s).push(
                            j,
                        ));
                    },
                    None => {},
                }
            },
            None => {},
        }
    }
}

/// Resolve an optional raw URL field.
pub fn resolve_opt_url(base: &str, s: &Option<String>) -> (r: Option<String>)
    ensures
        match r {
            Some(j) => Some(j@) == spec_resolve_opt_url(base@, opt_view(*s)) && rejoins(
                base@,
                j@,
            ),
            None => spec_resolve_opt_url(base@, opt_view(*s)) is None,
        },
{
    match s {
        Some(x) => url_join(base, x.as_str()),
        None => None,
    }
}

/// The view of an optional string.
pub open spec fn opt_view(s: Option<String>) -> Option<Seq<char>> {
    match s {
        Some(x) => Some(x@),
        None => None,
    }
}

/// Resolve the surviving URLs of a lossy list against the base, dropping
/// the entries that do not join.
pub fn resolve_lossy_urls(base: &str, v: LossyVec<String>) -> (r: Vec<String>)
    ensures
        str_views(r@) == spec_resolve_urls(base@, str_views(survivors(v@))),
        all_rejoin(base@, str_views(r@)),
{
    let kept = v.purge();
    resolve_url_vec(base, kept)
}

/// Resolve each URL of a plain list against the base, dropping the entries
/// that do not join.
pub fn resolve_url_vec(base: &str, v: Vec<String>) -> (r: Vec<String>)
    ensures
        str_views(r@) == spec_resolve_urls(base@, str_views(v@)),
        all_rejoin(base@, str_views(r@)),
{
    let mut r: Vec<String> = Vec::new();
    let mut i: usize = 0;
    let n = v.len();
    proof {
        assert(str_views(v@.take(0)) =~= Seq::<Seq<char>>::empty());
        assert(str_views(r@) =~= spec_resolve_urls(base@, str_views(v@.take(0))));
    }
    while i < n
        invariant
            n == v@.len(),
            i <= n,
            str_views(r@) == spec_resolve_urls(base@, str_views(v@.take(i as int))),
            all_rejoin(base@, str_views(r@)),
        decreases n - i,
    {
        proof {
            lemma_resolve_urls_push(base@, str_views(v@.take(i as int)), v@[i as int]@);
            assert(str_views(v@.take(i as int)).push(v@[i as int]@) =~= str_views(
                v@.take(i + 1),
            ));
        }
        match url_join(base, v[i].as_str()) {
            Some(j) => {
                let ghost rv = str_views(r@);
                let ghost jv = j@;
                r.push(j);
                proof {
                    assert(str_views(r@) =~= rv.push(jv));
                }
            },
            None => (),
        }
        i = i + 1;
    }
    proof {
        assert(v@.take(n as int) =~= v@);
    }
    r
}

/// Re-resolving a sequence of already-resolved URLs against the same base
/// leaves every element in place: each one is a fixed point, so the whole
/// surviving subset is unchanged.
pub proof fn lemma_resolution_idempotent(base: Seq<char>, s: Seq<Seq<char>>)
    requires
        all_rejoin(base, s),
    ensures
        spec_resolve_urls(base, s) == s,
    decreases s.len(),
{
    if s.len() == 0 {
        assert(spec_resolve_urls(base, s) =~= s);
    } else {
        assert(rejoins(base, s[0]));
        assert(all_rejoin(base, s.drop_first())) by {
            assert(forall|i: int|
                0 <= i < s.drop_first().len() ==> #[trigger] s.drop_first()[i] == s[i + 1]);
        }
        lemma_resolution_idempotent(base, s.drop_first());
        assert(spec_resolve_urls(base, s) =~= s);
    }
}

} // verus!
