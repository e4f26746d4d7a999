use vstd::prelude::*;

use crate::apps::{match_mask, AppResults, Catalog};
use crate::files::{keep_mask, lookup_of, DirEntry, FileBrowser, Lookup};
use crate::mask::{all_true, lemma_positions, positions, select};
use crate::modes::{mode_for, Mode};
use crate::results::{Candidate, Direction, SearchResults};
use crate::text::{expand_home, replace_char};

verus! {

/// A key press, as far as the session cares.
#[derive(Clone, Copy, PartialEq, Eq, Structural, Debug)]
pub enum Key {
    /// Tab or Down.
    Next,
    /// Up.
    Previous,
    /// Enter.
    Activate,
    Other,
}

/// What the shell around the session is asked to do next.
#[derive(PartialEq, Debug)]
pub enum Effect {
    /// Nothing: redraw the list.
    Stay,
    /// Report whether this path exists, through `on_path_probed`.
    Probe(String),
    /// Read this directory and hand its entries to `on_dir_listed`.
    ReadDir(String),
    /// Launch the application at this position of the installed listing,
    /// then close the window.
    Launch(usize),
    /// Open this file with its default handler, then close the window.
    Open(String),
    /// Replace the query text with this and dispatch it again.
    Requery(String),
}

impl Effect {
    /// The effect closes the window.
    pub open spec fn ends_session(self) -> bool {
        self is Launch || self is Open
    }
}

/// The filesystem step a path query is waiting for.
pub enum Pending {
    Idle,
    /// Waiting to learn whether this path exists.
    Probe(String),
    /// Waiting for the listing of the directory this lookup reads.
    Listing(Lookup),
}

/// One candidate per catalog position, in order.
pub open spec fn app_candidates(ps: Seq<int>) -> Seq<Candidate> {
    ps.map_values(|p: int| Candidate::App(p as usize))
}

/// One candidate per directory entry, in order.
pub open spec fn path_candidates(es: Seq<crate::files::DirEntry>) -> Seq<Candidate> {
    es.map_values(|e: crate::files::DirEntry| Candidate::Path { path: e.path, is_dir: e.is_dir })
}

/// What activating candidate `c` asks of the shell.
pub open spec fn effect_of(catalog: Catalog, c: Candidate) -> Effect {
    match c {
        Candidate::App(i) => Effect::Launch(catalog.handles()[i as int] as usize),
        Candidate::Path { path, is_dir } => if is_dir {
            Effect::Requery(path)
        } else {
            Effect::Open(path)
        },
    }
}

/// Every application candidate of `r` names an entry of `catalog`.
pub open spec fn apps_in(r: SearchResults, catalog: Catalog) -> bool {
    forall|k: int|
        0 <= k < r.items().len() ==> (#[trigger] r.items()[k] matches Candidate::App(i) ==> i
            < catalog.entries().len())
}

/// What activating the selection of `r` asks of the shell.
pub open spec fn activation(r: SearchResults, catalog: Catalog) -> Effect {
    match r.selected() {
        Some(s) => effect_of(catalog, r.items()[s]),
        None => Effect::Stay,
    }
}

/// The effect of activating `c`.
fn activate(catalog: &Catalog, c: &Candidate) -> (r: Effect)
    requires
        catalog.wf(),
        c matches Candidate::App(i) ==> i < catalog.entries().len(),
    ensures
        r == effect_of(*catalog, *c),
{
    match c {
        Candidate::App(i) => Effect::Launch(catalog.handle(*i)),
        Candidate::Path { path, is_dir } => {
            if *is_dir {
                Effect::Requery(path.clone())
            } else {
                Effect::Open(path.clone())
            }
        },
    }
}

/// The effect of activating the selection of `r`.
fn activate_selected(r: &SearchResults, catalog: &Catalog) -> (e: Effect)
    requires
        catalog.wf(),
        r.wf(),
        apps_in(*r, *catalog),
    ensures
        e == activation(*r, *catalog),
{
    match r.selected_candidate() {
        Some(c) => {
            assert(r.items()[r.selected()->0] == *c);
            activate(catalog, c)
        },
        None => Effect::Stay,
    }
}

/// The application list filtered in place: every catalog entry stays in the
/// list, and a query only hides or shows entries.
pub struct AppMode {
    apps: Catalog,
    list: SearchResults,
}

impl AppMode {
    pub closed spec fn catalog(&self) -> Catalog {
        self.apps
    }

    pub closed spec fn results(&self) -> SearchResults {
        self.list
    }

    /// Candidate `k` of the list is catalog entry `k`.
    pub open spec fn wf(&self) -> bool {
        &&& self.catalog().wf()
        &&& self.results().wf()
        &&& self.results().items() == app_candidates(
            Seq::new(self.catalog().entries().len(), |i: int| i),
        )
        &&& apps_in(self.results(), self.catalog())
    }

    /// Every entry of `catalog`, visible, with the first one selected.
    pub fn new(catalog: Catalog) -> (r: AppMode)
        requires
            catalog.wf(),
        ensures
            r.wf(),
            r.catalog() == catalog,
            r.results().visible() == all_true(catalog.entries().len()),
            catalog.entries().len() > 0 ==> r.results().selected() == Some(0int),
    {
        let mut items: Vec<Candidate> = Vec::new();
        let mut i: usize = 0;
        while i < catalog.len()
            invariant
                i <= catalog.entries().len(),
                items@ == app_candidates(Seq::new(i as nat, |j: int| j)),
            decreases catalog.entries().len() - i,
        {
            items.push(Candidate::App(i));
            assert(items@ =~= app_candidates(Seq::new((i + 1) as nat, |j: int| j)));
            i = i + 1;
        }
        let mut list = SearchResults::new();
        list.show(items, Mode::Apps);
        assert(list.items() =~= app_candidates(Seq::new(catalog.entries().len(), |j: int| j)));
        assert(list.visible() =~= all_true(catalog.entries().len()));
        AppMode { apps: catalog, list }
    }

    /// Shows every entry again and selects the first.
    pub fn show_hidden_apps(&mut self)
        requires
            old(self).wf(),
        ensures
            final(self).wf(),
            final(self).catalog() == old(self).catalog(),
            final(self).results().items() == old(self).results().items(),
            final(self).results().visible() == all_true(old(self).results().items().len()),
            old(self).results().items().len() > 0 ==> final(self).results().selected() == Some(
                0int,
            ),
    {
        let mut mask: Vec<bool> = Vec::new();
        let mut i: usize = 0;
        while i < self.list.len()
            invariant
                i <= self.list.items().len(),
                mask@ == all_true(i as nat),
            decreases self.list.items().len() - i,
        {
            mask.push(true);
            assert(mask@ =~= all_true((i + 1) as nat));
            i = i + 1;
        }
        self.list.filter(&mask);
        proof {
            crate::mask::lemma_positions_all(self.list.items().len());
        }
        let _ = self.list.select_visible(0);
    }

    /// Shows exactly the entries whose name matches `query`.
    pub fn on_search_query_changed(&mut self, query: &str)
        requires
            old(self).wf(),
        ensures
            final(self).wf(),
            final(self).catalog() == old(self).catalog(),
            old(self).results().filtered(
                final(self).results(),
                match_mask(query@, old(self).catalog().names()),
            ),
            query@.len() == 0 ==> final(self).results().visible() == all_true(
                old(self).results().items().len(),
            ),
    {
        let mask = self.apps.match_flags(query);
        self.list.filter(&mask);
    }

    /// Moves the selection, or launches the selected application.
    pub fn on_key_pressed(&mut self, key: Key) -> (r: Effect)
        requires
            old(self).wf(),
        ensures
            final(self).wf(),
            final(self).catalog() == old(self).catalog(),
            key == Key::Next ==> final(self).results().selected() == old(self).results().stepped(
                Direction::Next,
            ),
            key == Key::Previous ==> final(self).results().selected() == old(
                self,
            ).results().stepped(Direction::Previous),
            key == Key::Activate ==> r == activation(old(self).results(), old(self).catalog())
                && *final(self) == *old(self),
            key != Key::Activate ==> r == Effect::Stay,
            key == Key::Other ==> *final(self) == *old(self),
            final(self).results().items() == old(self).results().items(),
            final(self).results().visible() == old(self).results().visible(),
            final(self).results().handler() == old(self).results().handler(),
    {
        match key {
            Key::Next => {
                self.list.navigate(Direction::Next);
                Effect::Stay
            },
            Key::Previous => {
                self.list.navigate(Direction::Previous);
                Effect::Stay
            },
            Key::Activate => activate_selected(&self.list, &self.apps),
            Key::Other => Effect::Stay,
        }
    }

    pub fn list(&self) -> (r: &SearchResults)
        ensures
            *r == self.results(),
    {
        &self.list
    }

    pub fn installed_apps(&self) -> (r: &Catalog)
        ensures
            *r == self.catalog(),
    {
        &self.apps
    }
}

/// The search session: the query, the mode it activated, the candidates on
/// display, and the filesystem step a path query waits for.
pub struct SearchWindow {
    installed_apps: Catalog,
    home: String,
    query: String,
    mode: Option<Mode>,
    results: SearchResults,
    pending: Pending,
}

impl SearchWindow {
    pub closed spec fn catalog(&self) -> Catalog {
        self.installed_apps
    }

    pub closed spec fn home(&self) -> Seq<char> {
        self.home@
    }

    pub closed spec fn query(&self) -> Seq<char> {
        self.query@
    }

    pub closed spec fn mode(&self) -> Option<Mode> {
        self.mode
    }

    pub closed spec fn results(&self) -> SearchResults {
        self.results
    }

    pub closed spec fn pending(&self) -> Pending {
        self.pending
    }

    /// The list is well formed, its application candidates name catalog
    /// entries, and while a filesystem step is pending nothing is on display.
    pub open spec fn wf(&self) -> bool {
        &&& self.catalog().wf()
        &&& self.results().wf()
        &&& apps_in(self.results(), self.catalog())
        &&& !(self.pending() is Idle) ==> self.results().items().len() == 0
            && self.results().handler() is None
    }

    /// What activating the selection asks of the shell.
    pub open spec fn activation(&self) -> Effect {
        activation(self.results(), self.catalog())
    }

    /// `next` is this session after the query became `text` and was
    /// dispatched from scratch, answering `e`.
    pub open spec fn dispatched(&self, next: SearchWindow, text: Seq<char>, e: Effect) -> bool {
        &&& next.catalog() == self.catalog()
        &&& next.home() == self.home()
        &&& next.query() == text
        &&& next.mode() == mode_for(text)
        &&& match mode_for(text) {
            Some(Mode::Apps) => {
                let found = app_candidates(positions(match_mask(text, self.catalog().names())));
                &&& e == Effect::Stay
                &&& next.pending() is Idle
                &&& next.results().items() == found
                &&& next.results().visible() == all_true(found.len())
                &&& found.len() > 0 ==> next.results().selected() == Some(0int)
                    && next.results().handler() == Some(Mode::Apps)
                &&& found.len() == 0 ==> next.results().selected() is None
                    && next.results().handler() is None
            },
            Some(Mode::Files) => {
                &&& e is Probe
                &&& e->Probe_0@ == replace_char(text, '~', self.home())
                &&& next.pending() is Probe
                &&& next.pending()->Probe_0 == e->Probe_0
                &&& next.results().items().len() == 0
                &&& next.results().selected() is None
                &&& next.results().handler() is None
            },
            None => {
                &&& e == Effect::Stay
                &&& next.pending() is Idle
                &&& next.results().items().len() == 0
                &&& next.results().selected() is None
                &&& next.results().handler() is None
            },
        }
    }

    /// A session over `catalog`, with an empty query; `home` replaces `~` in
    /// path queries.
    pub fn new(catalog: Catalog, home: String) -> (r: SearchWindow)
        requires
            catalog.wf(),
        ensures
            r.wf(),
            r.catalog() == catalog,
            r.home() == home@,
            r.query().len() == 0,
            r.mode() is None,
            r.results().items().len() == 0,
            r.pending() is Idle,
    {
        SearchWindow {
            installed_apps: catalog,
            home,
            query: String::new(),
            mode: None,
            results: SearchResults::new(),
            pending: Pending::Idle,
        }
    }

    /// Replaces the query with `query`, drops the previous candidates and
    /// dispatches it to the first mode that accepts it.
    pub fn on_search_query_changed(&mut self, query: &str) -> (r: Effect)
        requires
            old(self).wf(),
        ensures
            final(self).wf(),
            old(self).dispatched(*final(self), query@, r),
    {
        self.results.clear();
        self.pending = Pending::Idle;
        self.query = query.to_string();
        let mode = Mode::for_query(query);
        self.mode = mode;
        match mode {
            Some(Mode::Apps) => {
                let found = AppResults::new(query, &self.installed_apps);
                let items = found.create_list_items();
                let ghost m = match_mask(query@, self.installed_apps.names());
                proof {
                    lemma_positions(m);
                }
                assert(items@ =~= app_candidates(positions(m)));
                self.results.show(items, Mode::Apps);
                assert(self.results.items() =~= app_candidates(positions(m)));
                assert(self.results.visible() =~= all_true(positions(m).len()));
                Effect::Stay
            },
            Some(Mode::Files) => {
                let target = expand_home(query, self.home.as_str());
                self.pending = Pending::Probe(target.clone());
                Effect::Probe(target)
            },
            None => Effect::Stay,
        }
    }

    /// Takes the answer to a `Probe`: whether the probed path exists. Asks
    /// for the directory to read, or ends the lookup when nothing can be read.
    pub fn on_path_probed(&mut self, exists: bool) -> (r: Effect)
        requires
            old(self).wf(),
        ensures
            final(self).wf(),
            final(self).catalog() == old(self).catalog(),
            final(self).home() == old(self).home(),
            final(self).query() == old(self).query(),
            final(self).mode() == old(self).mode(),
            final(self).results() == old(self).results(),
            match old(self).pending() {
                Pending::Probe(p) => {
                    &&& final(self).pending() is Listing
                        ==> lookup_of(p@, exists, final(self).pending()->Listing_0)
                    &&& match final(self).pending() {
                        Pending::Listing(Lookup::Children(d)) => r == Effect::ReadDir(d),
                        Pending::Listing(Lookup::Matching { parent, .. }) => r == Effect::ReadDir(
                            parent,
                        ),
                        Pending::Idle => r == Effect::Stay && lookup_of(p@, exists, Lookup::Nothing),
                        _ => false,
                    }
                },
                _ => r == Effect::Stay && final(self).pending() == old(self).pending(),
            },
    {
        let path = match &self.pending {
            Pending::Probe(p) => p.clone(),
            _ => return Effect::Stay,
        };
        let lookup = Lookup::for_path(path.as_str(), exists);
        let dir = match lookup.directory() {
            Some(d) => Some(d.clone()),
            None => None,
        };
        match dir {
            Some(d) => {
                self.pending = Pending::Listing(lookup);
                Effect::ReadDir(d)
            },
            None => {
                self.pending = Pending::Idle;
                Effect::Stay
            },
        }
    }

    /// Takes the answer to a `ReadDir`: the directory's entries, or nothing
    /// when it could not be read. Shows the entries the lookup keeps.
    pub fn on_dir_listed(&mut self, listing: Option<Vec<DirEntry>>)
        requires
            old(self).wf(),
        ensures
            final(self).wf(),
            final(self).catalog() == old(self).catalog(),
            final(self).home() == old(self).home(),
            final(self).query() == old(self).query(),
            final(self).mode() == old(self).mode(),
            match old(self).pending() {
                Pending::Listing(l) => {
                    let kept = match listing {
                        Some(es) => path_candidates(select(es@, keep_mask(l, es@))),
                        None => Seq::empty(),
                    };
                    &&& final(self).pending() is Idle
                    &&& final(self).results().items() == kept
                    &&& final(self).results().visible() == all_true(kept.len())
                    &&& kept.len() > 0 ==> final(self).results().selected() == Some(0int)
                        && final(self).results().handler() == Some(Mode::Files)
                    &&& kept.len() == 0 ==> final(self).results().selected() is None
                },
                _ => *final(self) == *old(self),
            },
    {
        let browser = match &self.pending {
            Pending::Listing(lookup) => FileBrowser::new(lookup, listing),
            _ => return ,
        };
        let ghost children = browser.children();
        let items = browser.create_list_items();
        assert(items@ =~= path_candidates(children));
        self.pending = Pending::Idle;
        self.results.show(items, Mode::Files);
        assert(self.results.items() =~= path_candidates(children));
        assert(self.results.visible() =~= all_true(children.len()));
    }

    /// Moves the selection, or activates the selected candidate.
    pub fn on_key_pressed(&mut self, key: Key) -> (r: Effect)
        requires
            old(self).wf(),
        ensures
            final(self).wf(),
            final(self).catalog() == old(self).catalog(),
            final(self).home() == old(self).home(),
            final(self).query() == old(self).query(),
            final(self).mode() == old(self).mode(),
            final(self).pending() == old(self).pending(),
            final(self).results().items() == old(self).results().items(),
            final(self).results().visible() == old(self).results().visible(),
            final(self).results().handler() == old(self).results().handler(),
            key == Key::Next ==> final(self).results().selected() == old(self).results().stepped(
                Direction::Next,
            ),
            key == Key::Previous ==> final(self).results().selected() == old(
                self,
            ).results().stepped(Direction::Previous),
            key == Key::Activate ==> r == old(self).activation() && *final(self) == *old(self),
            key != Key::Activate ==> r == Effect::Stay,
            key == Key::Other ==> *final(self) == *old(self),
    {
        match key {
            Key::Next => {
                self.results.navigate(Direction::Next);
                Effect::Stay
            },
            Key::Previous => {
                self.results.navigate(Direction::Previous);
                Effect::Stay
            },
            Key::Activate => self.on_item_selected(),
            Key::Other => Effect::Stay,
        }
    }

    /// What activating the selected candidate asks of the shell.
    pub fn on_item_selected(&self) -> (r: Effect)
        requires
            self.wf(),
        ensures
            r == self.activation(),
    {
        activate_selected(&self.results, &self.installed_apps)
    }

    /// Selects the `index`-th visible candidate and activates it; an index
    /// past the visible candidates changes nothing.
    pub fn on_row_activated(&mut self, index: usize) -> (r: Effect)
        requires
            old(self).wf(),
        ensures
            final(self).wf(),
            final(self).catalog() == old(self).catalog(),
            final(self).query() == old(self).query(),
            final(self).home() == old(self).home(),
            final(self).mode() == old(self).mode(),
            final(self).pending() == old(self).pending(),
            final(self).results().items() == old(self).results().items(),
            final(self).results().visible() == old(self).results().visible(),
            final(self).results().handler() == old(self).results().handler(),
            index < old(self).results().shown().len() ==> final(self).results().selected() == Some(
                old(self).results().shown()[index as int],
            ) && r == final(self).activation(),
            index >= old(self).results().shown().len() ==> *final(self) == *old(self) && r
                == Effect::Stay,
    {
        if self.results.select_visible(index) {
            self.on_item_selected()
        } else {
            Effect::Stay
        }
    }

    pub fn query_text(&self) -> (r: &String)
        ensures
            r@ == self.query(),
    {
        &self.query
    }

    pub fn active_mode(&self) -> (r: Option<Mode>)
        ensures
            r == self.mode(),
    {
        self.mode
    }

    pub fn result_list(&self) -> (r: &SearchResults)
        ensures
            *r == self.results(),
    {
        &self.results
    }

    pub fn installed_apps(&self) -> (r: &Catalog)
        ensures
            *r == self.catalog(),
    {
        &self.installed_apps
    }
}

/// Activating a directory never ends the session: it asks for the query to
/// become the directory's path, and that query is then dispatched afresh.
pub proof fn lemma_drill_in(s: SearchWindow, path: String, next: SearchWindow, e: Effect)
    requires
        s.wf(),
        s.results().selected() matches Some(k) && s.results().items()[k] == (Candidate::Path {
            path,
            is_dir: true,
        }),
        s.dispatched(next, path@, e),
    ensures
        s.activation() == Effect::Requery(path),
        !s.activation().ends_session(),
        next.query() == path@,
        next.mode() == mode_for(path@),
        next.catalog() == s.catalog(),
{
}

} // verus!
