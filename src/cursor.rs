//! The selection cursor over the visible sequence: `None` is "no selection".
use vstd::prelude::*;

verus! {

/// Where a cursor lands when the visible sequence takes length `n`.
pub open spec fn clamp_spec(c: Option<usize>, n: nat) -> Option<usize> {
    if n == 0 {
        None
    } else {
        match c {
            Some(i) => if i >= n { Some((n - 1) as usize) } else { Some(i) },
            None => Some(0),
        }
    }
}

/// One step forward, staying on the last index.
pub open spec fn down_spec(c: Option<usize>, n: nat) -> Option<usize> {
    match c {
        Some(i) => if i + 1 < n { Some((i + 1) as usize) } else { Some(i) },
        None => None,
    }
}

/// One step backward, staying on index 0.
pub open spec fn up_spec(c: Option<usize>) -> Option<usize> {
    match c {
        Some(i) => if i > 0 { Some((i - 1) as usize) } else { Some(i) },
        None => None,
    }
}

/// A cursor that is valid for a visible sequence of length `n`.
pub open spec fn cursor_valid(c: Option<usize>, n: nat) -> bool {
    match c {
        Some(i) => i < n,
        None => n == 0,
    }
}

/// Re-fits `cursor` to a visible sequence of length `new_length`: "no selection"
/// when it is empty, its last index when the cursor lies past it, else unchanged
/// (a cursor with no selection goes to the first entry).
pub fn clamp(cursor: Option<usize>, new_length: usize) -> (r: Option<usize>)
    ensures
        r == clamp_spec(cursor, new_length as nat),
        r is None <==> new_length == 0,
        cursor_valid(r, new_length as nat),
{
    if new_length == 0 {
        None
    } else {
        match cursor {
            Some(i) => if i >= new_length { Some(new_length - 1) } else { Some(i) },
            None => Some(0),
        }
    }
}

/// Moves `cursor` one entry forward in a visible sequence of length `len`,
/// staying on the last entry.
pub fn down(cursor: Option<usize>, len: usize) -> (r: Option<usize>)
    ensures
        r == down_spec(cursor, len as nat),
{
    match cursor {
        Some(i) => if i < usize::MAX && i + 1 < len { Some(i + 1) } else { Some(i) },
        None => None,
    }
}

/// Moves `cursor` one entry backward, staying on the first entry.
pub fn up(cursor: Option<usize>) -> (r: Option<usize>)
    ensures
        r == up_spec(cursor),
{
    match cursor {
        Some(i) => if i > 0 { Some(i - 1) } else { Some(i) },
        None => None,
    }
}

/// Clamping gives a valid cursor, and "no selection" exactly for an empty sequence.
pub proof fn lemma_clamp_valid(c: Option<usize>, n: nat)
    ensures
        cursor_valid(clamp_spec(c, n), n),
        clamp_spec(c, n) is None <==> n == 0,
{
}

/// Moving keeps a valid cursor valid.
pub proof fn lemma_moves_stay_valid(c: Option<usize>, n: nat)
    requires
        cursor_valid(c, n),
    ensures
        cursor_valid(down_spec(c, n), n),
        cursor_valid(up_spec(c), n),
{
}

/// `down` then `up` returns to a cursor that is not on the last entry; `up` on
/// the first entry and `down` on the last entry change nothing.
pub proof fn lemma_down_up(i: usize, n: usize)
    requires
        i < n,
    ensures
        i + 1 < n ==> up_spec(down_spec(Some(i), n as nat)) == Some(i),
        i == 0 ==> up_spec(Some(i)) == Some(i),
        i + 1 == n ==> down_spec(Some(i), n as nat) == Some(i),
{
}

} // verus!
