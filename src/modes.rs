use vstd::prelude::*;

use crate::text::{alphanumeric, chars_of, is_alphanumeric, starts_with_char};

verus! {

/// The sources a query can draw candidates from.
#[derive(Clone, Copy, PartialEq, Eq, Structural, Debug)]
pub enum Mode {
    /// Installed applications whose name contains the query.
    Apps,
    /// Filesystem entries under the path that the query names.
    Files,
}

/// A character that may appear in an application's name.
pub open spec fn word_char(c: char) -> bool {
    alphanumeric(c) || c == '_' || c == '-' || c == '.'
}

/// The query starts the way a path does, on any platform.
pub open spec fn path_like(q: Seq<char>) -> bool {
    q.len() > 0 && (q[0] == '~' || q[0] == '/' || q[0] == '\\')
}

/// The application mode takes a query that is not path-like and holds at
/// least one name character.
pub open spec fn app_query(q: Seq<char>) -> bool {
    !path_like(q) && exists|i: int| 0 <= i < q.len() && #[trigger] word_char(q[i])
}

/// The file mode takes a query that starts at the home directory or at the root.
pub open spec fn file_query(q: Seq<char>) -> bool {
    q.len() > 0 && (q[0] == '~' || q[0] == '/')
}

/// The mode a query activates: none for the empty query, otherwise the first
/// mode, in priority order, whose predicate accepts it.
pub open spec fn mode_for(q: Seq<char>) -> Option<Mode> {
    if q.len() == 0 {
        None
    } else if app_query(q) {
        Some(Mode::Apps)
    } else if file_query(q) {
        Some(Mode::Files)
    } else {
        None
    }
}

/// No query activates both modes.
pub proof fn lemma_modes_exclusive(q: Seq<char>)
    ensures
        !(app_query(q) && file_query(q)),
{
}

impl Mode {
    /// Whether this mode accepts `q`.
    pub open spec fn activated_by(self, q: Seq<char>) -> bool {
        match self {
            Mode::Apps => app_query(q),
            Mode::Files => file_query(q),
        }
    }

    /// Whether this mode is activated by `query`.
    pub fn is_activated(self, query: &str) -> (r: bool)
        ensures
            r == self.activated_by(query@),
    {
        match self {
            Mode::Apps => {
                if starts_with_char(query, '~') || starts_with_char(query, '/')
                    || starts_with_char(query, '\\') {
                    return false;
                }
                let cs = chars_of(query);
                let mut i: usize = 0;
                while i < cs.len()
                    invariant
                        self == Mode::Apps,
                        cs@ == query@,
                        !path_like(query@),
                        i <= cs@.len(),
                        forall|k: int| 0 <= k < i ==> !#[trigger] word_char(query@[k]),
                    decreases cs@.len() - i,
                {
                    let c = cs[i];
                    if is_alphanumeric(c) || c == '_' || c == '-' || c == '.' {
                        assert(word_char(query@[i as int]));
                        return true;
                    }
                    i = i + 1;
                }
                false
            },
            Mode::Files => starts_with_char(query, '~') || starts_with_char(query, '/'),
        }
    }

    /// The mode that `query` activates, trying the application mode first.
    pub fn for_query(query: &str) -> (r: Option<Mode>)
        ensures
            r == mode_for(query@),
    {
        if query.unicode_len() == 0 {
            None
        } else if Mode::Apps.is_activated(query) {
            Some(Mode::Apps)
        } else if Mode::Files.is_activated(query) {
            Some(Mode::Files)
        } else {
            None
        }
    }
}

} // verus!
