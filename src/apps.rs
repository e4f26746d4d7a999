use vstd::prelude::*;

use crate::mask::{
    all_true, as_ints, keep_by_mask, lemma_positions, lemma_positions_empty, lemma_positions_exact,
    positions, select, true_positions,
};
use crate::results::Candidate;
use crate::text::{contains, lower_of, seq_contains, to_lowercase};

verus! {

/// What the library needs to know of one installed application.
pub struct AppEntry {
    pub name: String,
    pub description: Option<String>,
    pub has_icon: bool,
    pub should_show: bool,
}

impl AppEntry {
    pub fn new(name: String, description: Option<String>, has_icon: bool, should_show: bool) -> (r:
        AppEntry)
        ensures
            r.name == name,
            r.description == description,
            r.has_icon == has_icon,
            r.should_show == should_show,
    {
        AppEntry { name, description, has_icon, should_show }
    }
}

/// An application is offered when it has an icon and wants to be shown.
pub open spec fn listed(e: AppEntry) -> bool {
    e.has_icon && e.should_show
}

pub open spec fn listed_mask(apps: Seq<AppEntry>) -> Seq<bool> {
    apps.map_values(|e: AppEntry| listed(e))
}

/// A query matches a name when the lower-cased name contains the lower-cased query.
pub open spec fn app_matches(query: Seq<char>, name: Seq<char>) -> bool {
    seq_contains(lower_of(name), lower_of(query))
}

pub open spec fn match_mask(query: Seq<char>, names: Seq<Seq<char>>) -> Seq<bool> {
    names.map_values(|n: Seq<char>| app_matches(query, n))
}

/// The offered applications, in the order of the installed listing they were
/// taken from, each with its position in that listing.
pub struct Catalog {
    apps: Vec<AppEntry>,
    handles: Vec<usize>,
}

impl Catalog {
    pub closed spec fn entries(&self) -> Seq<AppEntry> {
        self.apps@
    }

    /// For each entry, its position in the listing the catalog was built from.
    pub closed spec fn handles(&self) -> Seq<int> {
        as_ints(self.handles@)
    }

    pub open spec fn names(&self) -> Seq<Seq<char>> {
        self.entries().map_values(|e: AppEntry| e.name@)
    }

    pub open spec fn wf(&self) -> bool {
        self.entries().len() == self.handles().len()
    }

    /// Keeps the listed applications of `installed`, in order.
    pub fn new(installed: Vec<AppEntry>) -> (r: Catalog)
        ensures
            r.wf(),
            r.entries() == select(installed@, listed_mask(installed@)),
            r.handles() == positions(listed_mask(installed@)),
    {
        let mut mask: Vec<bool> = Vec::new();
        let mut i: usize = 0;
        while i < installed.len()
            invariant
                i <= installed@.len(),
                mask@.len() == i,
                forall|k: int| 0 <= k < i ==> mask@[k] == listed(#[trigger] installed@[k]),
            decreases installed@.len() - i,
        {
            mask.push(installed[i].has_icon && installed[i].should_show);
            i = i + 1;
        }
        assert(mask@ =~= listed_mask(installed@));
        let handles = true_positions(&mask);
        let apps = keep_by_mask(installed, &mask);
        proof {
            lemma_positions(mask@);
        }
        assert(as_ints(handles@).len() == positions(mask@).len());
        Catalog { apps, handles }
    }

    pub fn len(&self) -> (r: usize)
        ensures
            r == self.entries().len(),
    {
        self.apps.len()
    }

    pub fn entry(&self, i: usize) -> (r: &AppEntry)
        requires
            i < self.entries().len(),
        ensures
            *r == self.entries()[i as int],
    {
        &self.apps[i]
    }

    /// The position of entry `i` in the listing the catalog was built from.
    pub fn handle(&self, i: usize) -> (r: usize)
        requires
            self.wf(),
            i < self.entries().len(),
        ensures
            r == self.handles()[i as int],
    {
        self.handles[i]
    }

    /// For each entry, whether `query` matches its name.
    pub fn match_flags(&self, query: &str) -> (r: Vec<bool>)
        ensures
            r@ == match_mask(query@, self.names()),
            query@.len() == 0 ==> r@ == all_true(self.names().len()),
    {
        let q = to_lowercase(query);
        proof {
            if query@.len() == 0 {
                lemma_empty_query_matches_all(query@, self.names());
            }
        }
        let mut r: Vec<bool> = Vec::new();
        let mut i: usize = 0;
        while i < self.apps.len()
            invariant
                q@ == lower_of(query@),
                i <= self.entries().len(),
                r@.len() == i,
                forall|k: int|
                    0 <= k < i ==> r@[k] == app_matches(query@, #[trigger] self.names()[k]),
            decreases self.entries().len() - i,
        {
            let name = to_lowercase(self.apps[i].name.as_str());
            r.push(contains(name.as_str(), q.as_str()));
            i = i + 1;
        }
        assert(r@ =~= match_mask(query@, self.names()));
        r
    }
}

/// The catalog entries that a query matches.
pub struct AppResults {
    matched_apps: Vec<usize>,
}

impl AppResults {
    /// Catalog positions of the matches, in catalog order.
    pub closed spec fn matched(&self) -> Seq<int> {
        as_ints(self.matched_apps@)
    }

    /// The entries of `installed_apps` whose name matches `search_query`.
    pub fn new(search_query: &str, installed_apps: &Catalog) -> (r: AppResults)
        ensures
            r.matched() == positions(match_mask(search_query@, installed_apps.names())),
    {
        let mask = installed_apps.match_flags(search_query);
        AppResults { matched_apps: true_positions(&mask) }
    }

    pub fn is_empty(&self) -> (r: bool)
        ensures
            r == (self.matched().len() == 0),
    {
        self.matched_apps.len() == 0
    }

    /// Catalog positions of the matches, in catalog order.
    pub fn matched_apps(&self) -> (r: Vec<usize>)
        ensures
            as_ints(r@) == self.matched(),
    {
        let mut r: Vec<usize> = Vec::new();
        let mut i: usize = 0;
        while i < self.matched_apps.len()
            invariant
                i <= self.matched_apps@.len(),
                r@ == self.matched_apps@.subrange(0, i as int),
            decreases self.matched_apps@.len() - i,
        {
            r.push(self.matched_apps[i]);
            i = i + 1;
        }
        assert(r@ =~= self.matched_apps@);
        r
    }

    /// One application candidate per match, in catalog order.
    pub fn create_list_items(&self) -> (r: Vec<Candidate>)
        ensures
            r@.len() == self.matched().len(),
            forall|k: int|
                0 <= k < r@.len() ==> #[trigger] r@[k] == Candidate::App(
                    self.matched()[k] as usize,
                ),
    {
        let mut r: Vec<Candidate> = Vec::new();
        let mut i: usize = 0;
        while i < self.matched_apps.len()
            invariant
                i <= self.matched_apps@.len(),
                r@.len() == i,
                forall|k: int|
                    0 <= k < i ==> #[trigger] r@[k] == Candidate::App(self.matched_apps@[k]),
            decreases self.matched_apps@.len() - i,
        {
            r.push(Candidate::App(self.matched_apps[i]));
            i = i + 1;
        }
        r
    }
}

/// The matcher keeps exactly the catalog entries whose lower-cased name
/// contains the lower-cased query, in catalog order, and keeps nothing exactly
/// when no entry matches.
pub proof fn lemma_app_matcher_exact(query: Seq<char>, names: Seq<Seq<char>>)
    ensures
        forall|i: int|
            0 <= i < names.len() ==> (#[trigger] positions(match_mask(query, names)).contains(i)
                <==> app_matches(query, names[i])),
        forall|a: int, b: int|
            0 <= a < b < positions(match_mask(query, names)).len() ==> #[trigger] positions(
                match_mask(query, names),
            )[a] < #[trigger] positions(match_mask(query, names))[b],
        positions(match_mask(query, names)).len() == 0 <==> forall|i: int|
            0 <= i < names.len() ==> !app_matches(query, #[trigger] names[i]),
{
    let m = match_mask(query, names);
    lemma_positions(m);
    lemma_positions_exact(m);
    lemma_positions_empty(m);
    assert((forall|i: int| 0 <= i < m.len() ==> !m[i]) <==> (forall|i: int|
        0 <= i < names.len() ==> !app_matches(query, #[trigger] names[i]))) by {
        if forall|i: int| 0 <= i < m.len() ==> !m[i] {
            assert forall|i: int| 0 <= i < names.len() implies !app_matches(
                query,
                #[trigger] names[i],
            ) by {
                assert(!m[i]);
            }
        }
    }
}

/// A query whose lower-cased form is empty matches every name.
proof fn lemma_empty_query_matches_all(query: Seq<char>, names: Seq<Seq<char>>)
    requires
        lower_of(query).len() == 0,
    ensures
        match_mask(query, names) == all_true(names.len()),
{
    assert forall|i: int| 0 <= i < names.len() implies #[trigger] match_mask(query, names)[i] by {
        let h = lower_of(names[i]);
        assert(h.subrange(0int, 0int + lower_of(query).len()) =~= lower_of(query));
    }
    assert(match_mask(query, names) =~= all_true(names.len()));
}

} // verus!
