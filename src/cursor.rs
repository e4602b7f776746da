//! The cursor protocol: how the read and write cursors move round the slots, and
//! when a move is refused.
use vstd::prelude::*;

verus! {

/// Why an operation on the buffer did not take place.
#[derive(Debug, Clone, Copy, PartialEq, Eq, Structural)]
pub enum Errors {
    /// Nothing is stored: there is no element to take out.
    Empty,
    /// Every slot of the logical capacity holds an element.
    Full,
}

/// The slot after slot `i` among `slots` slots, going round.
pub open spec fn next_slot(i: int, slots: int) -> int {
    if i + 1 < slots {
        i + 1
    } else {
        0
    }
}

/// Moves a cursor one slot on, wrapping at the number of slots.
pub fn advance(i: usize, slots: usize) -> (r: usize)
    requires
        i < slots,
    ensures
        r == next_slot(i as int, slots as int),
        r == (i + 1) % (slots as int),
        r < slots,
{
    if i + 1 < slots {
        proof {
            vstd::arithmetic::div_mod::lemma_small_mod((i + 1) as nat, slots as nat);
        }
        i + 1
    } else {
        proof {
            vstd::arithmetic::div_mod::lemma_mod_self_0(slots as int);
        }
        0
    }
}

/// Decides a write: where the write cursor goes next, or `Full` when that slot
/// is the one the read cursor stands on.
pub fn plan_write(read: usize, write: usize, slots: usize) -> (r: Result<usize, Errors>)
    requires
        write < slots,
    ensures
        r == (if next_slot(write as int, slots as int) == read as int {
            Err::<usize, Errors>(Errors::Full)
        } else {
            Ok::<usize, Errors>(next_slot(write as int, slots as int) as usize)
        }),
{
    let next = advance(write, slots);
    if next == read {
        Err(Errors::Full)
    } else {
        Ok(next)
    }
}

/// Decides a read: which slot the read cursor goes to (the slot to read from),
/// or `Empty` when that slot is the one the write cursor stands on.
pub fn plan_read(read: usize, write: usize, slots: usize) -> (r: Result<usize, Errors>)
    requires
        read < slots,
    ensures
        r == (if next_slot(read as int, slots as int) == write as int {
            Err::<usize, Errors>(Errors::Empty)
        } else {
            Ok::<usize, Errors>(next_slot(read as int, slots as int) as usize)
        }),
{
    let next = advance(read, slots);
    if next == write {
        Err(Errors::Empty)
    } else {
        Ok(next)
    }
}

} // verus!
