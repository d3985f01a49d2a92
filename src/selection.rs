use vstd::prelude::*;

verus! {

/// Which note of a bundle, if any, is chosen for display.
#[derive(Clone, Copy, Debug, PartialEq, Eq, Structural)]
pub enum Selection {
    Unselected,
    Selected(usize),
}

/// The cursor after one step forward over `len` notes: the first note from
/// no selection, else the next one, stopping at the last. Over no notes it
/// stays where it is.
pub open spec fn next_spec(s: Selection, len: nat) -> Selection {
    if len == 0 {
        s
    } else {
        match s {
            Selection::Unselected => Selection::Selected(0),
            Selection::Selected(i) => if i + 1 < len {
                Selection::Selected((i + 1) as usize)
            } else {
                Selection::Selected((len - 1) as usize)
            },
        }
    }
}

/// The cursor after one step back over `len` notes: the last note from no
/// selection, else the previous one, stopping at the first. Over no notes it
/// stays where it is.
pub open spec fn prev_spec(s: Selection, len: nat) -> Selection {
    if len == 0 {
        s
    } else {
        match s {
            Selection::Unselected => Selection::Selected((len - 1) as usize),
            Selection::Selected(i) => if i > 0 {
                Selection::Selected((i - 1) as usize)
            } else {
                Selection::Selected(0)
            },
        }
    }
}

/// The cursor after `k` steps forward.
pub open spec fn next_steps(s: Selection, len: nat, k: nat) -> Selection
    decreases k,
{
    if k == 0 {
        s
    } else {
        next_steps(next_spec(s, len), len, (k - 1) as nat)
    }
}

/// The cursor after `k` steps back.
pub open spec fn prev_steps(s: Selection, len: nat, k: nat) -> Selection
    decreases k,
{
    if k == 0 {
        s
    } else {
        prev_steps(prev_spec(s, len), len, (k - 1) as nat)
    }
}

impl Selection {
    /// Moves one note forward over `len` notes, stopping at the last one.
    pub fn select_next(&mut self, len: usize)
        ensures
            *final(self) == next_spec(*old(self), len as nat),
    {
        if len == 0 {
            return ;
        }
        match *self {
            Selection::Unselected => {
                *self = Selection::Selected(0);
            },
            Selection::Selected(i) => {
                if i < len - 1 {
                    *self = Selection::Selected(i + 1);
                } else {
                    *self = Selection::Selected(len - 1);
                }
            },
        }
    }

    /// Moves one note back over `len` notes, stopping at the first one.
    pub fn select_prev(&mut self, len: usize)
        ensures
            *final(self) == prev_spec(*old(self), len as nat),
    {
        if len == 0 {
            return ;
        }
        match *self {
            Selection::Unselected => {
                *self = Selection::Selected(len - 1);
            },
            Selection::Selected(i) => {
                if i > 0 {
                    *self = Selection::Selected(i - 1);
                } else {
                    *self = Selection::Selected(0);
                }
            },
        }
    }

    /// The selected index, if any.
    pub fn selected(&self) -> (r: Option<usize>)
        ensures
            match *self {
                Selection::Unselected => r is None,
                Selection::Selected(i) => r == Some(i),
            },
    {
        match *self {
            Selection::Unselected => None,
            Selection::Selected(i) => Some(i),
        }
    }
}

/// From a selected note, `k` steps forward over `len` notes reach note
/// `min(i + k, len - 1)`: the cursor never passes the last note.
pub proof fn lemma_next_steps_from(i: usize, len: nat, k: nat)
    requires
        i < len,
        len <= usize::MAX,
    ensures
        next_steps(Selection::Selected(i), len, k) == Selection::Selected(
            (if i + k < len - 1 { i + k } else { len - 1 }) as usize,
        ),
    decreases k,
{
    if k > 0 {
        let j: usize = (if i + 1 < len { i + 1 } else { len - 1 }) as usize;
        assert(next_spec(Selection::Selected(i), len) == Selection::Selected(j));
        lemma_next_steps_from(j, len, (k - 1) as nat);
    }
}

/// From no selection, `k >= 1` steps forward over `len` notes reach note
/// `min(k, len) - 1`; in particular any number of steps at or past `len`
/// stops at the last note and never goes beyond it.
pub proof fn lemma_next_clamps(len: nat, k: nat)
    requires
        0 < len <= usize::MAX,
        0 < k,
    ensures
        next_steps(Selection::Unselected, len, k) == Selection::Selected(
            (if k < len { k - 1 } else { len - 1 }) as usize,
        ),
        k >= len ==> next_steps(Selection::Unselected, len, k) == Selection::Selected(
            (len - 1) as usize,
        ),
{
    assert(next_spec(Selection::Unselected, len) == Selection::Selected(0));
    lemma_next_steps_from(0, len, (k - 1) as nat);
}

/// From note `i`, `k` steps back reach note `max(i - k, 0)`: the cursor
/// stops at the first note, never below it and never back to no selection.
pub proof fn lemma_prev_clamps(i: usize, len: nat, k: nat)
    requires
        i < len,
    ensures
        prev_steps(Selection::Selected(i), len, k) == Selection::Selected(
            (if i >= k { i - k } else { 0 }) as usize,
        ),
    decreases k,
{
    if k > 0 {
        let j: usize = (if i > 0 { i - 1 } else { 0 }) as usize;
        assert(prev_spec(Selection::Selected(i), len) == Selection::Selected(j));
        lemma_prev_clamps(j, len, (k - 1) as nat);
    }
}

} // verus!
