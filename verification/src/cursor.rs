//! The selection cursor: an optional index over a listing length that is
//! supplied at call time, moving circularly and re-validated after the
//! listing changes.

use vstd::prelude::*;

verus! {

/// The selection state over a listing. The length it moves over is not
/// stored: every motion takes the current listing length as an argument.
#[derive(Debug, Clone, Copy, PartialEq, Eq, Structural)]
pub struct Cursor {
    pub selected: Option<usize>,
}

/// Where one forward step from `sel` lands over a listing of `length`
/// entries: a no-op on an empty listing, index zero from no selection,
/// and a circular increment otherwise.
pub open spec fn next_sel(sel: Option<usize>, length: int) -> Option<usize> {
    if length <= 0 {
        sel
    } else {
        match sel {
            Some(i) => if i as int >= length - 1 {
                Some(0)
            } else {
                Some((i + 1) as usize)
            },
            None => Some(0),
        }
    }
}

/// Where one backward step from `sel` lands; the mirror of `next_sel`.
pub open spec fn prev_sel(sel: Option<usize>, length: int) -> Option<usize> {
    if length <= 0 {
        sel
    } else {
        match sel {
            Some(i) => if i == 0 {
                Some((length - 1) as usize)
            } else {
                Some((i - 1) as usize)
            },
            None => Some(0),
        }
    }
}

/// Re-validation of a selection against a listing that may have shrunk:
/// cleared when the listing is empty, clamped to the last valid index
/// when it is out of range, kept otherwise.
pub open spec fn clamp_sel(sel: Option<usize>, length: int) -> Option<usize> {
    if length <= 0 {
        None
    } else {
        match sel {
            Some(i) => if i as int >= length {
                Some((length - 1) as usize)
            } else {
                Some(i)
            },
            None => None,
        }
    }
}

/// A selection that lies inside a listing of `length` entries.
pub open spec fn sel_in_range(sel: Option<usize>, length: int) -> bool {
    match sel {
        Some(i) => (i as int) < length,
        None => true,
    }
}

impl Cursor {
    /// A fresh cursor, selecting the first entry.
    pub fn new() -> (c: Cursor)
        ensures
            c.selected == Some(0usize),
    {
        Cursor { selected: Some(0) }
    }

    /// Moves the selection one entry down, wrapping from the bottom to
    /// the top; a no-op on an empty listing.
    pub fn next(&mut self, length: usize)
        ensures
            final(self).selected == next_sel(old(self).selected, length as int),
    {
        if length == 0 {
            return;
        }
        let i: usize = match self.selected {
            Some(i) => if i >= length - 1 {
                0
            } else {
                i + 1
            },
            None => 0,
        };
        self.selected = Some(i);
    }

    /// Moves the selection one entry up, wrapping from the top to the
    /// bottom; a no-op on an empty listing.
    pub fn previous(&mut self, length: usize)
        ensures
            final(self).selected == prev_sel(old(self).selected, length as int),
    {
        if length == 0 {
            return;
        }
        let i: usize = match self.selected {
            Some(i) => if i == 0 {
                length - 1
            } else {
                i - 1
            },
            None => 0,
        };
        self.selected = Some(i);
    }

    /// Re-validates the selection against the current listing length.
    pub fn clamp(&mut self, length: usize)
        ensures
            final(self).selected == clamp_sel(old(self).selected, length as int),
            sel_in_range(final(self).selected, length as int),
    {
        if length == 0 {
            self.selected = None;
        } else if let Some(i) = self.selected {
            if i >= length {
                self.selected = Some(length - 1);
            }
        }
    }
}

/// The selection after `k` forward steps.
pub open spec fn iter_next(sel: Option<usize>, length: int, k: nat) -> Option<usize>
    decreases k,
{
    if k == 0 {
        sel
    } else {
        next_sel(iter_next(sel, length, (k - 1) as nat), length)
    }
}

proof fn lemma_iter_next_value(i: usize, length: usize, k: nat)
    requires
        i < length,
        k <= length,
    ensures
        iter_next(Some(i), length as int, k) == Some(
            if i + k < length {
                (i + k) as usize
            } else {
                (i + k - length) as usize
            },
        ),
    decreases k,
{
    if k > 0 {
        lemma_iter_next_value(i, length, (k - 1) as nat);
    }
}

/// Law: over a non-empty listing of `length` entries, `length` forward
/// steps return the selection to where it started.
pub proof fn lemma_cursor_wraparound(i: usize, length: usize)
    requires
        0 < length,
        i < length,
    ensures
        iter_next(Some(i), length as int, length as nat) == Some(i),
{
    lemma_iter_next_value(i, length, length as nat);
}

/// Law: on a non-empty listing, one backward step undoes one forward
/// step and the other way round.
pub proof fn lemma_prev_next_inverse(i: usize, length: usize)
    requires
        0 < length,
        i < length,
    ensures
        prev_sel(next_sel(Some(i), length as int), length as int) == Some(i),
        next_sel(prev_sel(Some(i), length as int), length as int) == Some(i),
{
}

/// The selection after `k` backward steps.
pub open spec fn iter_prev(sel: Option<usize>, length: int, k: nat) -> Option<usize>
    decreases k,
{
    if k == 0 {
        sel
    } else {
        prev_sel(iter_prev(sel, length, (k - 1) as nat), length)
    }
}

/// Law: on an empty listing, no number of forward or backward steps
/// ever sets a selection.
pub proof fn lemma_empty_cursor_noop(k: nat)
    ensures
        iter_next(None, 0, k) is None,
        iter_prev(None, 0, k) is None,
    decreases k,
{
    if k > 0 {
        lemma_empty_cursor_noop((k - 1) as nat);
    }
}

} // verus!
