//! The set of selected objects, by the 128-bit value of their unique ids.

use vstd::prelude::*;

verus! {

/// Whether `id` is selected.
pub fn is_selected(selection: &Vec<u128>, id: u128) -> (r: bool)
    ensures
        r == selection@.contains(id),
{
    let n = selection.len();
    let mut i: usize = 0;
    while i < n
        invariant
            n == selection@.len(),
            0 <= i <= n,
            forall|j: int| 0 <= j < i ==> selection@[j] != id,
        decreases n - i,
    {
        if selection[i] == id {
            assert(selection@[i as int] == id);
            return true;
        }
        i = i + 1;
    }
    false
}

/// Adds `id` to the selection unless it is already selected. The selection
/// keeps the order in which objects were picked and never holds an id twice.
pub fn select_id(selection: &mut Vec<u128>, id: u128)
    ensures
        old(selection)@.contains(id) ==> final(selection)@ == old(selection)@,
        !old(selection)@.contains(id) ==> final(selection)@ == old(selection)@.push(id),
        old(selection)@.no_duplicates() ==> final(selection)@.no_duplicates(),
{
    if !is_selected(selection, id) {
        selection.push(id);
    }
}

} // verus!
