use vstd::prelude::*;

use crate::mask::{
    all_true, lemma_positions, lemma_positions_all, lemma_rank, positions, select, true_positions,
};
use crate::modes::Mode;
use vstd::arithmetic::div_mod::{lemma_mod_add_multiples_vanish, lemma_mod_self_0, lemma_small_mod};

verus! {

/// One selectable entry of a result list.
#[derive(PartialEq, Debug)]
pub enum Candidate {
    /// The application at this position of the catalog.
    App(usize),
    /// A filesystem entry; activating a directory drills into it.
    Path { path: String, is_dir: bool },
}

/// A step of the selection cursor.
#[derive(Clone, Copy, PartialEq, Eq, Structural, Debug)]
pub enum Direction {
    Next,
    Previous,
}

/// The visible index that a step from visible index `k` reaches among `n`
/// visible candidates, wrapping around at both ends.
pub open spec fn step(k: int, n: int, d: Direction) -> int {
    match d {
        Direction::Next => (k + 1) % n,
        Direction::Previous => (k - 1 + n) % n,
    }
}

/// Stepping from visible index `k` among `n` moves to its neighbour, or
/// wraps to the other end.
pub proof fn lemma_step_values(k: int, n: int)
    requires
        0 <= k < n,
    ensures
        step(k, n, Direction::Next) == if k + 1 == n {
            0
        } else {
            k + 1
        },
        step(k, n, Direction::Previous) == if k == 0 {
            n - 1
        } else {
            k - 1
        },
{
    if k + 1 == n {
        lemma_mod_self_0(n);
    } else {
        lemma_small_mod((k + 1) as nat, n as nat);
    }
    if k == 0 {
        lemma_small_mod((n - 1) as nat, n as nat);
    } else {
        lemma_mod_add_multiples_vanish(k - 1, n);
        lemma_small_mod((k - 1) as nat, n as nat);
    }
}

/// The ordered candidates on display, which of them are visible, the selected
/// one, and the mode whose activation handler is installed.
pub struct SearchResults {
    items: Vec<Candidate>,
    visible: Vec<bool>,
    selected: Option<usize>,
    handler: Option<Mode>,
}

impl SearchResults {
    pub closed spec fn items(&self) -> Seq<Candidate> {
        self.items@
    }

    pub closed spec fn visible(&self) -> Seq<bool> {
        self.visible@
    }

    /// The selected candidate, as an index into `items()`.
    pub closed spec fn selected(&self) -> Option<int> {
        match self.selected {
            Some(s) => Some(s as int),
            None => None,
        }
    }

    pub closed spec fn handler(&self) -> Option<Mode> {
        self.handler
    }

    /// The indices of the visible candidates, in order.
    pub open spec fn shown(&self) -> Seq<int> {
        positions(self.visible())
    }

    /// One visibility flag per candidate; a selection, if any, is a visible
    /// candidate, and there is one whenever a candidate is visible; a handler
    /// is installed only over a non-empty list.
    pub open spec fn wf(&self) -> bool {
        &&& self.visible().len() == self.items().len()
        &&& (self.selected() matches Some(s) ==> 0 <= s < self.items().len() && self.visible()[s])
        &&& (self.shown().len() > 0 ==> self.selected() is Some)
        &&& (self.handler() is Some ==> self.items().len() > 0)
    }

    /// The cursor as an index into the visible candidates.
    pub open spec fn cursor(&self) -> Option<int> {
        match self.selected() {
            Some(s) => Some(positions(self.visible().subrange(0, s)).len() as int),
            None => None,
        }
    }

    /// The selection after one step in direction `d`.
    pub open spec fn stepped(&self, d: Direction) -> Option<int> {
        match self.cursor() {
            Some(k) => Some(self.shown()[step(k, self.shown().len() as int, d)]),
            None => None,
        }
    }

    /// The selection after the visibility mask becomes `mask`: the selected
    /// candidate if it stays visible, else the first visible one, if any.
    pub open spec fn reselected(&self, mask: Seq<bool>) -> Option<int> {
        if self.selected() matches Some(s) && mask[s] {
            self.selected()
        } else if positions(mask).len() > 0 {
            Some(positions(mask)[0])
        } else {
            None
        }
    }

    /// `next` is this list with its visibility mask set to `mask`.
    pub open spec fn filtered(&self, next: SearchResults, mask: Seq<bool>) -> bool {
        &&& next.items() == self.items()
        &&& next.handler() == self.handler()
        &&& next.visible() == mask
        &&& next.selected() == self.reselected(mask)
    }

    /// The list in its empty state.
    pub fn new() -> (r: SearchResults)
        ensures
            r.wf(),
            r.items().len() == 0,
            r.selected() is None,
            r.handler() is None,
    {
        SearchResults { items: Vec::new(), visible: Vec::new(), selected: None, handler: None }
    }

    /// Appends `candidates`, all visible, selects the first of them when
    /// nothing is selected, and installs `mode`'s handler. An empty set of
    /// candidates changes nothing.
    pub fn show(&mut self, candidates: Vec<Candidate>, mode: Mode)
        requires
            old(self).wf(),
            candidates@.len() > 0 ==> old(self).handler() is None,
        ensures
            final(self).wf(),
            candidates@.len() == 0 ==> *final(self) == *old(self),
            candidates@.len() > 0 ==> {
                &&& final(self).items() == old(self).items() + candidates@
                &&& final(self).visible() == old(self).visible() + all_true(candidates@.len())
                &&& final(self).handler() == Some(mode)
                &&& final(self).selected() == match old(self).selected() {
                    Some(s) => Some(s),
                    None => Some(old(self).items().len() as int),
                }
            },
    {
        if candidates.len() == 0 {
            return;
        }
        let ghost before = self.visible@;
        let ghost sel = self.selected;
        let ghost handler = self.handler;
        let added = candidates.len();
        let start = self.items.len();
        let mut candidates = candidates;
        self.items.append(&mut candidates);
        let ghost items = self.items@;
        let mut i: usize = 0;
        while i < added
            invariant
                i <= added,
                self.visible@ == before + all_true(i as nat),
                self.items@ == items,
                self.selected == sel,
                self.handler == handler,
            decreases added - i,
        {
            self.visible.push(true);
            assert(self.visible@ =~= before + all_true((i + 1) as nat));
            i = i + 1;
        }
        if self.selected.is_none() {
            self.selected = Some(start);
        }
        self.handler = Some(mode);
    }

    /// Sets each candidate's visibility from `mask`; a selection that turns
    /// invisible moves to the first visible candidate, or to none.
    pub fn filter(&mut self, mask: &Vec<bool>)
        requires
            old(self).wf(),
            mask@.len() == old(self).items().len(),
        ensures
            final(self).wf(),
            old(self).filtered(*final(self), mask@),
    {
        let mut visible: Vec<bool> = Vec::new();
        let mut i: usize = 0;
        while i < mask.len()
            invariant
                i <= mask@.len(),
                visible@ == mask@.subrange(0, i as int),
            decreases mask@.len() - i,
        {
            visible.push(mask[i]);
            i = i + 1;
        }
        assert(visible@ =~= mask@);
        let keep = match self.selected {
            Some(s) => mask[s],
            None => false,
        };
        if !keep {
            let shown = true_positions(mask);
            proof {
                lemma_positions(mask@);
            }
            if shown.len() > 0 {
                assert(shown@[0] as int == positions(mask@)[0]);
                self.selected = Some(shown[0]);
            } else {
                self.selected = None;
            }
        }
        self.visible = visible;
    }

    /// Moves the selection one visible candidate in direction `d`, wrapping
    /// around at both ends. Without a selection nothing changes.
    pub fn navigate(&mut self, d: Direction)
        requires
            old(self).wf(),
        ensures
            final(self).wf(),
            final(self).items() == old(self).items(),
            final(self).visible() == old(self).visible(),
            final(self).handler() == old(self).handler(),
            final(self).selected() == old(self).stepped(d),
    {
        let s = match self.selected {
            Some(s) => s,
            None => return,
        };
        let shown = true_positions(&self.visible);
        proof {
            lemma_positions(self.visible@);
            lemma_rank(self.visible@, s as int);
        }
        let ghost rank = positions(self.visible@.subrange(0, s as int)).len() as int;
        let n = shown.len();
        let mut k: usize = 0;
        while shown[k] != s
            invariant
                shown@.len() == n,
                positions(self.visible@) == shown@.map_values(|x: usize| x as int),
                0 <= rank < n,
                shown@[rank] == s,
                k <= rank,
            decreases rank - k,
        {
            k = k + 1;
        }
        assert(k == rank) by {
            if k < rank {
                assert(positions(self.visible@)[k as int] < positions(self.visible@)[rank]);
            }
        }
        let next = match d {
            Direction::Next => {
                if k + 1 == n {
                    0
                } else {
                    k + 1
                }
            },
            Direction::Previous => {
                if k == 0 {
                    n - 1
                } else {
                    k - 1
                }
            },
        };
        proof {
            lemma_step_values(k as int, n as int);
        }
        self.selected = Some(shown[next]);
    }

    /// Selects the `k`-th visible candidate, if there is one; reports whether
    /// it did.
    pub fn select_visible(&mut self, k: usize) -> (r: bool)
        requires
            old(self).wf(),
        ensures
            final(self).wf(),
            final(self).items() == old(self).items(),
            final(self).visible() == old(self).visible(),
            final(self).handler() == old(self).handler(),
            r == (k < old(self).shown().len()),
            r ==> final(self).selected() == Some(old(self).shown()[k as int]),
            !r ==> *final(self) == *old(self),
    {
        let shown = true_positions(&self.visible);
        proof {
            lemma_positions(self.visible@);
        }
        if k < shown.len() {
            assert(shown@[k as int] as int == positions(self.visible@)[k as int]);
            self.selected = Some(shown[k]);
            true
        } else {
            false
        }
    }

    /// The selected candidate, if any.
    pub fn selected_candidate(&self) -> (r: Option<&Candidate>)
        requires
            self.wf(),
        ensures
            match self.selected() {
                Some(s) => r == Some(&self.items()[s]),
                None => r is None,
            },
    {
        match self.selected {
            Some(s) => Some(&self.items[s]),
            None => None,
        }
    }

    /// The index of the selected candidate among all candidates.
    pub fn selected_item(&self) -> (r: Option<usize>)
        ensures
            match self.selected() {
                Some(s) => r == Some(s as usize),
                None => r is None,
            },
    {
        self.selected
    }

    /// The cursor as an index into the visible candidates.
    pub fn selected_index(&self) -> (r: Option<usize>)
        requires
            self.wf(),
        ensures
            match self.cursor() {
                Some(k) => r == Some(k as usize),
                None => r is None,
            },
    {
        match self.selected {
            Some(s) => {
                let mut count: usize = 0;
                let mut i: usize = 0;
                while i < s
                    invariant
                        s < self.visible@.len(),
                        i <= s,
                        count == positions(self.visible@.subrange(0, i as int)).len(),
                        count <= i,
                    decreases s - i,
                {
                    proof {
                        crate::mask::lemma_positions_step(self.visible@, i as int);
                    }
                    if self.visible[i] {
                        count = count + 1;
                    }
                    i = i + 1;
                }
                Some(count)
            },
            None => None,
        }
    }

    /// The mode whose activation handler is installed, if any.
    pub fn handler_mode(&self) -> (r: Option<Mode>)
        ensures
            r == self.handler(),
    {
        self.handler
    }

    pub fn len(&self) -> (r: usize)
        ensures
            r == self.items().len(),
    {
        self.items.len()
    }

    pub fn item(&self, i: usize) -> (r: &Candidate)
        requires
            i < self.items().len(),
        ensures
            *r == self.items()[i as int],
    {
        &self.items[i]
    }

    pub fn is_visible(&self, i: usize) -> (r: bool)
        requires
            self.wf(),
            i < self.items().len(),
        ensures
            r == self.visible()[i as int],
    {
        self.visible[i]
    }

    /// Removes every candidate, the selection and the handler.
    pub fn clear(&mut self)
        ensures
            final(self).wf(),
            final(self).items().len() == 0,
            final(self).visible().len() == 0,
            final(self).selected() is None,
            final(self).handler() is None,
    {
        self.items.clear();
        self.visible.clear();
        self.selected = None;
        self.handler = None;
    }
}

/// Navigation wraps around: from the last visible candidate `Next` reaches
/// the first, from the first `Previous` reaches the last, and with a single
/// visible candidate both steps stay where they are.
pub proof fn lemma_navigation_cyclic(r: SearchResults)
    requires
        r.wf(),
        r.selected() is Some,
    ensures
        r.cursor() == Some(r.shown().len() - 1) ==> r.stepped(Direction::Next) == Some(
            r.shown()[0],
        ),
        r.cursor() == Some(0int) ==> r.stepped(Direction::Previous) == Some(
            r.shown()[r.shown().len() - 1],
        ),
        r.shown().len() == 1 ==> r.stepped(Direction::Next) == r.selected() && r.stepped(
            Direction::Previous,
        ) == r.selected(),
{
    let s = r.selected()->0;
    lemma_rank(r.visible(), s);
    let k = r.cursor()->0;
    lemma_step_values(k, r.shown().len() as int);
}

/// Unhiding every candidate after any filtering shows all of them again, in
/// their original order.
pub proof fn lemma_unhide_restores_order(
    r0: SearchResults,
    r1: SearchResults,
    r2: SearchResults,
    mask: Seq<bool>,
)
    requires
        r0.wf(),
        mask.len() == r0.items().len(),
        r0.filtered(r1, mask),
        r1.filtered(r2, all_true(r1.items().len())),
    ensures
        r2.items() == r0.items(),
        r2.shown() == Seq::new(r0.items().len(), |i: int| i),
        select(r2.items(), r2.visible()) == r0.items(),
{
    lemma_positions_all(r0.items().len());
    assert(select(r2.items(), r2.visible()) =~= r0.items());
}

} // verus!
