use vstd::prelude::*;

verus! {

/// The last index below `n` whose slot is empty, or -1 when there is none.
pub open spec fn last_empty_before(empties: Seq<bool>, n: int) -> int
    decreases n,
{
    if n <= 0 {
        -1
    } else if empties[n - 1] {
        n - 1
    } else {
        last_empty_before(empties, n - 1)
    }
}

/// Where new units go in the render buffer of units, whose slots
/// `start..end` are in use.
///
/// When `start >= end` the `n_units` units fill slots `0..n_units` and both
/// `start` and `end` move up by `n_units`. Otherwise unit `k` goes to slot
/// `start + k` when that slot is empty (`slot_is_empty[k]`) and is left out
/// when it is not; `start` becomes the last such `k` (counted from the old
/// `start`) and `end` stays.
///
/// Returns the new `start`, the new `end`, and for each unit its slot, if it
/// got one.
pub fn place_units(
    start: u32,
    end: u32,
    n_units: usize,
    capacity: usize,
    slot_is_empty: &Vec<bool>,
) -> (r: (u32, u32, Vec<Option<usize>>))
    requires
        start >= end ==> {
            &&& n_units <= capacity
            &&& start + (n_units as u32) <= u32::MAX
            &&& end + (n_units as u32) <= u32::MAX
        },
        start < end ==> {
            &&& end <= capacity
            &&& slot_is_empty@.len() == end - start
            &&& n_units <= end - start
        },
    ensures
        r.2@.len() == n_units,
        start >= end ==> {
            &&& r.0 == start + (n_units as u32)
            &&& r.1 == end + (n_units as u32)
            &&& forall|k: int| 0 <= k < n_units ==> #[trigger] r.2@[k] == Some(k as usize)
        },
        start < end ==> {
            &&& r.0 == if last_empty_before(slot_is_empty@, n_units as int) >= 0 {
                last_empty_before(slot_is_empty@, n_units as int) as u32
            } else {
                start
            }
            &&& r.1 == end
            &&& forall|k: int|
                0 <= k < n_units ==> #[trigger] r.2@[k] == if slot_is_empty@[k] {
                    Some((start + k) as usize)
                } else {
                    None::<usize>
                }
        },
{
    let mut slots: Vec<Option<usize>> = Vec::new();
    if start >= end {
        let mut k: usize = 0;
        while k < n_units
            invariant
                k <= n_units,
                slots@.len() == k,
                forall|j: int| 0 <= j < k ==> #[trigger] slots@[j] == Some(j as usize),
            decreases n_units - k,
        {
            slots.push(Some(k));
            k += 1;
        }
        let amount_of_units = n_units as u32;
        (start + amount_of_units, end + amount_of_units, slots)
    } else {
        let mut new_start = start;
        let mut i: usize = 0;
        while i < n_units
            invariant
                start < end,
                slot_is_empty@.len() == end - start,
                n_units <= end - start,
                i <= n_units,
                slots@.len() == i,
                forall|j: int|
                    0 <= j < i ==> #[trigger] slots@[j] == if slot_is_empty@[j] {
                        Some((start + j) as usize)
                    } else {
                        None::<usize>
                    },
                new_start == if last_empty_before(slot_is_empty@, i as int) >= 0 {
                    last_empty_before(slot_is_empty@, i as int) as u32
                } else {
                    start
                },
            decreases n_units - i,
        {
            if slot_is_empty[i] {
                slots.push(Some(start as usize + i));
                new_start = i as u32;
            } else {
                slots.push(None);
            }
            i += 1;
        }
        (new_start, end, slots)
    }
}

/// The slot that a new unit's texture is written to, and the counters after
/// it: the slot is `end`, and `start` and `end` both move up by one.
pub fn next_texture_slot(start: u32, end: u32) -> (r: (usize, u32, u32))
    requires
        start < u32::MAX,
        end < u32::MAX,
    ensures
        r.0 == end,
        r.1 == start + 1,
        r.2 == end + 1,
{
    (end as usize, start + 1, end + 1)
}

/// Where the search for empty slots starts after units leave the buffer:
/// the lowest of `start` and the slots that were freed.
pub fn start_after_removal(start: u32, freed: &Vec<u32>) -> (r: u32)
    ensures
        r <= start,
        forall|i: int| 0 <= i < freed@.len() ==> r <= #[trigger] freed@[i],
        r == start || exists|i: int| 0 <= i < freed@.len() && r == #[trigger] freed@[i],
{
    let mut r = start;
    let mut i: usize = 0;
    while i < freed.len()
        invariant
            i <= freed@.len(),
            r <= start,
            forall|j: int| 0 <= j < i ==> r <= #[trigger] freed@[j],
            r == start || exists|j: int| 0 <= j < i && r == #[trigger] freed@[j],
        decreases freed@.len() - i,
    {
        if freed[i] < r {
            r = freed[i];
        }
        i += 1;
    }
    r
}

} // verus!
