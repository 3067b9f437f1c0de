//! The editable pattern and permission lists behind the packaging form.
//!
//! These are plain list models: rows are added, changed, removed and
//! cleared by index, and the packaging step reads them back as the
//! comma-joined pattern string and the enabled permission names.

use vstd::prelude::*;

use crate::resolve::str_views;
use crate::strutil::{chars_to_string, push_str_chars};
use vstd::pervasive::VecAdditionalExecFns;

verus! {

/// One URL match pattern row.
#[derive(Debug, Clone)]
pub struct UrlPattern {
    /// The pattern text.
    pub url: String,
}

/// The pattern texts of a row sequence.
pub open spec fn pattern_views(s: Seq<UrlPattern>) -> Seq<Seq<char>> {
    s.map_values(|p: UrlPattern| p.url@)
}

/// The rows joined with commas.
pub open spec fn spec_join_comma(items: Seq<Seq<char>>) -> Seq<char>
    decreases items.len(),
{
    if items.len() == 0 {
        Seq::empty()
    } else if items.len() == 1 {
        items[0]
    } else {
        spec_join_comma(items.drop_last()) + seq![','] + items.last()
    }
}

/// The editable list of URL match patterns.
#[derive(Debug)]
pub struct UrlPatterns {
    /// The rows, in display order.
    pub model: Vec<UrlPattern>,
}

#[allow(non_snake_case)]
impl UrlPatterns {
    /// An empty pattern list.
    pub fn new() -> (r: UrlPatterns)
        ensures
            r.model@.len() == 0,
    {
        UrlPatterns { model: Vec::new() }
    }

    /// Replace the pattern of one row; rows that do not exist are left
    /// alone.
    pub fn setUrl(&mut self, row: usize, url: String) -> (r: bool)
        ensures
            r == (row < old(self).model@.len()),
            r ==> final (self).model@ == old(self).model@.update(
                row as int,
                UrlPattern { url },
            ),
            !r ==> final (self).model@ == old(self).model@,
    {
        if row >= self.model.len() {
            return false;
        }
        self.model.set(row, UrlPattern { url });
        true
    }

    /// Append a pattern row.
    pub fn add(&mut self, url: String)
        ensures
            final (self).model@ == old(self).model@.push(UrlPattern { url }),
    {
        self.model.push(UrlPattern { url });
    }

    /// Remove one row; rows that do not exist are left alone.
    pub fn remove(&mut self, row: usize) -> (r: bool)
        ensures
            r == (row < old(self).model@.len()),
            r ==> final (self).model@ == old(self).model@.remove(row as int),
            !r ==> final (self).model@ == old(self).model@,
    {
        if row >= self.model.len() {
            return false;
        }
        self.model.remove(row);
        true
    }

    /// Drop every row.
    pub fn clear(&mut self)
        ensures
            final (self).model@.len() == 0,
    {
        self.model = Vec::new();
    }

    /// The rows joined with commas, as handed to the launcher.
    pub fn get_patterns_string(&self) -> (r: String)
        ensures
            r@ == spec_join_comma(pattern_views(self.model@)),
    {
        let ghost pv = pattern_views(self.model@);
        let mut v: Vec<char> = Vec::new();
        let mut i: usize = 0;
        let n = self.model.len();
        proof {
            assert(pv.take(0) =~= Seq::<Seq<char>>::empty());
            assert(v@ =~= spec_join_comma(pv.take(0)));
        }
        while i < n
            invariant
                i <= n,
                n == self.model@.len(),
                pv == pattern_views(self.model@),
                v@ == spec_join_comma(pv.take(i as int)),
            decreases n - i,
        {
            proof {
                assert(pv.take(i + 1).drop_last() =~= pv.take(i as int));
                assert(pv.take(i + 1).last() == pv[i as int]);
            }
            let ghost before = v@;
            if i > 0 {
                v.push(',');
            }
            push_str_chars(&mut v, self.model[i].url.as_str());
            proof {
                if i == 0 {
                    assert(v@ =~= before + pv[0]);
                } else {
                    assert(v@ =~= before + (seq![','] + pv[i as int]));
                }
                assert(v@ =~= spec_join_comma(pv.take(i + 1)));
            }
            i = i + 1;
        }
        proof {
            assert(pv.take(n as int) =~= pv);
        }
        chars_to_string(&v)
    }
}

/// One permission row.
#[derive(Debug, Clone)]
pub struct Permission {
    /// The policy-group name.
    pub name: String,
    /// The user-facing description.
    pub description: String,
    /// Whether the user enabled it.
    pub enabled: bool,
}

impl Permission {
    /// A permission row.
    pub fn new(name: String, description: String, enabled: bool) -> (r: Permission)
        ensures
            r.name == name,
            r.description == description,
            r.enabled == enabled,
    {
        Permission { name, description, enabled }
    }
}

/// The names of the enabled rows, in order.
pub open spec fn spec_enabled_names(s: Seq<Permission>) -> Seq<Seq<char>>
    decreases s.len(),
{
    if s.len() == 0 {
        Seq::empty()
    } else {
        spec_enabled_names(s.drop_last()) + (if s.last().enabled {
            seq![s.last().name@]
        } else {
            Seq::empty()
        })
    }
}

/// The editable permission list.
#[derive(Debug)]
pub struct Permissions {
    /// The rows, in display order.
    pub model: Vec<Permission>,
}

#[allow(non_snake_case)]
impl Permissions {
    /// An empty permission list.
    pub fn new() -> (r: Permissions)
        ensures
            r.model@.len() == 0,
    {
        Permissions { model: Vec::new() }
    }

    /// Append a permission row.
    pub fn add(&mut self, name: String, description: String, default: bool)
        ensures
            final (self).model@.len() == old(self).model@.len() + 1,
            final (self).model@ == old(self).model@.push(
                Permission { name, description, enabled: default },
            ),
    {
        self.model.push(Permission::new(name, description, default));
    }

    /// Drop every row.
    pub fn clear(&mut self)
        ensures
            final (self).model@.len() == 0,
    {
        self.model = Vec::new();
    }

    /// Switch one row on or off; rows that do not exist are left alone.
    pub fn setEnabled(&mut self, row: usize, enabled: bool) -> (r: bool)
        ensures
            r == (row < old(self).model@.len()),
            r ==> {
                &&& final (self).model@.len() == old(self).model@.len()
                &&& forall|j: int|
                    0 <= j < old(self).model@.len() && j != row ==> final (self).model@[j] == old(
                        self,
                    ).model@[j]
                &&& final (self).model@[row as int].name@ == old(
                    self,
                ).model@[row as int].name@
                &&& final (self).model@[row as int].description@ == old(
                    self,
                ).model@[row as int].description@
                &&& final (self).model@[row as int].enabled == enabled
            },
            !r ==> final (self).model@ == old(self).model@,
    {
        if row >= self.model.len() {
            return false;
        }
        let name = self.model[row].name.clone();
        let description = self.model[row].description.clone();
        self.model.set(row, Permission { name, description, enabled });
        true
    }

    /// The names of the enabled rows, handed to the sandbox policy.
    pub fn get_enabled(&self) -> (r: Vec<String>)
        ensures
            str_views(r@) == spec_enabled_names(self.model@),
    {
        let mut r: Vec<String> = Vec::new();
        let mut i: usize = 0;
        let n = self.model.len();
        proof {
            assert(self.model@.take(0) =~= Seq::<Permission>::empty());
            assert(str_views(r@) =~= spec_enabled_names(self.model@.take(0)));
        }
        while i < n
            invariant
                i <= n,
                n == self.model@.len(),
                str_views(r@) == spec_enabled_names(self.model@.take(i as int)),
            decreases n - i,
        {
            proof {
                assert(self.model@.take(i + 1).drop_last() =~= self.model@.take(i as int));
                assert(self.model@.take(i + 1).last() == self.model@[i as int]);
            }
            let ghost before = str_views(r@);
            if self.model[i].enabled {
                r.push(self.model[i].name.clone());
                proof {
                    assert(str_views(r@) =~= before.push(self.model@[i as int].name@));
                }
            }
            i = i + 1;
        }
        proof {
            assert(self.model@.take(n as int) =~= self.model@);
        }
        r
    }
}

} // verus!
