use vstd::prelude::*;

use crate::mask::{keep_by_mask, lemma_positions, lemma_positions_exact, positions, select};
use crate::results::Candidate;
use crate::text::{contains, seq_contains, starts_with_char};

verus! {

/// One entry of a directory as the filesystem reported it.
pub struct DirEntry {
    /// The entry's own name, without its directory.
    pub name: String,
    /// The full path of the entry.
    pub path: String,
    pub is_dir: bool,
}

impl DirEntry {
    pub fn new(name: String, path: String, is_dir: bool) -> (r: DirEntry)
        ensures
            r.name == name,
            r.path == path,
            r.is_dir == is_dir,
    {
        DirEntry { name, path, is_dir }
    }
}

/// Which directory to read for a path query, and which of its entries to keep.
#[derive(PartialEq, Debug)]
pub enum Lookup {
    /// The path exists: list its non-hidden entries.
    Children(String),
    /// The path does not exist: list the entries of its parent whose name
    /// contains the path's last segment.
    Matching { parent: String, basename: String },
    /// Nothing can be listed.
    Nothing,
}

/// What `Path::parent` gives for a path.
pub uninterp spec fn parent_of(path: Seq<char>) -> Option<Seq<char>>;

/// What `Path::file_name` gives for a path.
pub uninterp spec fn file_name_of(path: Seq<char>) -> Option<Seq<char>>;

/// Relies on `std::path::Path::parent`: the path without its final
/// component, or nothing for a root or an empty path.
#[verifier::external_body]
fn path_parent(path: &str) -> (r: Option<String>)
    ensures
        match r {
            Some(d) => parent_of(path@) == Some(d@),
            None => parent_of(path@) is None,
        },
{
    match std::path::Path::new(path).parent() {
        Some(d) => Some(d.to_string_lossy().into_owned()),
        None => None,
    }
}

/// Relies on `std::path::Path::file_name`: the final component of the path,
/// or nothing when it ends in `..`.
#[verifier::external_body]
fn path_file_name(path: &str) -> (r: Option<String>)
    ensures
        match r {
            Some(b) => file_name_of(path@) == Some(b@),
            None => file_name_of(path@) is None,
        },
{
    match std::path::Path::new(path).file_name() {
        Some(b) => Some(b.to_string_lossy().into_owned()),
        None => None,
    }
}

/// A name that starts with `.` is hidden.
pub open spec fn hidden(name: Seq<char>) -> bool {
    name.len() > 0 && name[0] == '.'
}

/// `l` is the lookup for `path`, given whether that path exists.
pub open spec fn lookup_of(path: Seq<char>, exists: bool, l: Lookup) -> bool {
    if exists {
        l is Children && l->Children_0@ == path
    } else {
        match (parent_of(path), file_name_of(path)) {
            (Some(d), Some(b)) => l is Matching && l->parent@ == d && l->basename@ == b,
            _ => l is Nothing,
        }
    }
}

/// Whether a lookup keeps an entry of the given name.
pub open spec fn keeps(l: Lookup, name: Seq<char>) -> bool {
    match l {
        Lookup::Children(_) => !hidden(name),
        Lookup::Matching { basename, .. } => seq_contains(name, basename@),
        Lookup::Nothing => false,
    }
}

pub open spec fn keep_mask(l: Lookup, entries: Seq<DirEntry>) -> Seq<bool> {
    entries.map_values(|e: DirEntry| keeps(l, e.name@))
}

impl Lookup {
    /// The lookup for `path`, given whether that path exists.
    pub fn for_path(path: &str, exists: bool) -> (r: Lookup)
        ensures
            lookup_of(path@, exists, r),
    {
        if exists {
            return Lookup::Children(path.to_string());
        }
        match (path_parent(path), path_file_name(path)) {
            (Some(parent), Some(basename)) => Lookup::Matching { parent, basename },
            _ => Lookup::Nothing,
        }
    }

    /// The directory to read, if any.
    pub fn directory(&self) -> (r: Option<&String>)
        ensures
            match *self {
                Lookup::Children(d) => r == Some(&d),
                Lookup::Matching { parent, .. } => r == Some(&parent),
                Lookup::Nothing => r is None,
            },
    {
        match self {
            Lookup::Children(d) => Some(d),
            Lookup::Matching { parent, .. } => Some(parent),
            Lookup::Nothing => None,
        }
    }

    /// Whether this lookup keeps an entry called `name`.
    pub fn keeps(&self, name: &str) -> (r: bool)
        ensures
            r == keeps(*self, name@),
    {
        match self {
            Lookup::Children(_) => !starts_with_char(name, '.'),
            Lookup::Matching { basename, .. } => contains(name, basename.as_str()),
            Lookup::Nothing => false,
        }
    }
}

/// The filesystem entries that a path query offers.
pub struct FileBrowser {
    child_paths: Vec<DirEntry>,
}

impl FileBrowser {
    pub closed spec fn children(&self) -> Seq<DirEntry> {
        self.child_paths@
    }

    /// The entries of `listing` that `lookup` keeps, in listing order; no
    /// entry when the directory could not be read.
    pub fn new(lookup: &Lookup, listing: Option<Vec<DirEntry>>) -> (r: FileBrowser)
        ensures
            match listing {
                Some(es) => r.children() == select(es@, keep_mask(*lookup, es@)),
                None => r.children().len() == 0,
            },
    {
        match listing {
            Some(entries) => {
                let mut mask: Vec<bool> = Vec::new();
                let mut i: usize = 0;
                while i < entries.len()
                    invariant
                        i <= entries@.len(),
                        mask@.len() == i,
                        forall|k: int|
                            0 <= k < i ==> mask@[k] == keeps(*lookup, (#[trigger] entries@[k]).name@),
                    decreases entries@.len() - i,
                {
                    mask.push(lookup.keeps(entries[i].name.as_str()));
                    i = i + 1;
                }
                assert(mask@ =~= keep_mask(*lookup, entries@));
                FileBrowser { child_paths: keep_by_mask(entries, &mask) }
            },
            None => FileBrowser { child_paths: Vec::new() },
        }
    }

    pub fn contains_data(&self) -> (r: bool)
        ensures
            r == (self.children().len() > 0),
    {
        self.child_paths.len() > 0
    }

    /// One path candidate per kept entry, in order.
    pub fn create_list_items(self) -> (r: Vec<Candidate>)
        ensures
            r@.len() == self.children().len(),
            forall|k: int|
                0 <= k < r@.len() ==> #[trigger] r@[k] == (Candidate::Path {
                    path: self.children()[k].path,
                    is_dir: self.children()[k].is_dir,
                }),
    {
        let ghost all = self.child_paths@;
        let mut rest = self.child_paths;
        let mut r: Vec<Candidate> = Vec::new();
        let n = rest.len();
        let mut i: usize = 0;
        while i < n
            invariant
                n == all.len(),
                i <= n,
                rest@ == all.subrange(i as int, n as int),
                r@.len() == i,
                forall|k: int|
                    0 <= k < i ==> #[trigger] r@[k] == (Candidate::Path {
                        path: all[k].path,
                        is_dir: all[k].is_dir,
                    }),
            decreases n - i,
        {
            let e = rest.remove(0);
            assert(e == all[i as int]);
            assert(rest@ =~= all.subrange(i + 1, n as int));
            r.push(Candidate::Path { path: e.path, is_dir: e.is_dir });
            i = i + 1;
        }
        r
    }
}

/// For a directory that exists, the resolver keeps exactly its entries whose
/// name does not start with `.`, in listing order.
pub proof fn lemma_existing_directory(dir: Seq<char>, l: Lookup, entries: Seq<DirEntry>)
    requires
        lookup_of(dir, true, l),
    ensures
        l is Children && l->Children_0@ == dir,
        forall|i: int|
            0 <= i < entries.len() ==> (#[trigger] positions(keep_mask(l, entries)).contains(i)
                <==> !hidden(entries[i].name@)),
        forall|a: int, b: int|
            0 <= a < b < positions(keep_mask(l, entries)).len() ==> #[trigger] positions(
                keep_mask(l, entries),
            )[a] < #[trigger] positions(keep_mask(l, entries))[b],
{
    lemma_positions(keep_mask(l, entries));
    lemma_positions_exact(keep_mask(l, entries));
}

/// For a path that does not exist but has a parent `d` and a last segment `b`,
/// the resolver reads `d` and keeps exactly its entries whose name contains
/// `b`, in listing order.
pub proof fn lemma_missing_path(path: Seq<char>, l: Lookup, entries: Seq<DirEntry>)
    requires
        lookup_of(path, false, l),
        parent_of(path) is Some,
        file_name_of(path) is Some,
    ensures
        l is Matching,
        l->parent@ == parent_of(path)->0,
        forall|i: int|
            0 <= i < entries.len() ==> (#[trigger] positions(keep_mask(l, entries)).contains(i)
                <==> seq_contains(entries[i].name@, file_name_of(path)->0)),
        forall|a: int, b: int|
            0 <= a < b < positions(keep_mask(l, entries)).len() ==> #[trigger] positions(
                keep_mask(l, entries),
            )[a] < #[trigger] positions(keep_mask(l, entries))[b],
{
    lemma_positions(keep_mask(l, entries));
    lemma_positions_exact(keep_mask(l, entries));
}

} // verus!
