//! The hint tables of a program.
//!
//! A program carries its hints by offset, and the interpreter wants them in
//! two tables: one from each offset to its hints, and one from each hint's
//! code to a hint with that code. Where an offset or a code comes twice, the
//! later one stands. This module decides which ones stand.

use crate::text::str_eq;
use vstd::prelude::*;

verus! {

/// The hints at one offset of the program, each by its code.
#[derive(Debug, PartialEq, Eq)]
pub struct OffsetHints {
    pub offset: usize,
    pub codes: Vec<String>,
}

/// The place of a hint in the program: which entry, and which hint of it.
#[derive(Clone, Copy, Debug, PartialEq, Eq, Structural)]
pub struct HintPlace {
    pub entry: usize,
    pub index: usize,
}

/// Which entries and which hints go into the tables.
#[derive(Debug, PartialEq, Eq)]
pub struct HintTables {
    /// The entries that stand for their offsets, in order.
    pub by_offset: Vec<usize>,
    /// The hints that stand for their codes, in order.
    pub by_code: Vec<HintPlace>,
}

/// Whether there is a hint at this place.
pub open spec fn is_place(hints: Seq<OffsetHints>, entry: int, index: int) -> bool {
    0 <= entry < hints.len() && 0 <= index < hints[entry].codes.len()
}

/// Whether the first place comes before the second.
pub open spec fn place_before(e1: int, i1: int, e2: int, i2: int) -> bool {
    e1 < e2 || (e1 == e2 && i1 < i2)
}

/// Whether an entry stands for its offset: no later entry has the offset.
pub open spec fn stands_for_offset(hints: Seq<OffsetHints>, entry: int) -> bool {
    &&& 0 <= entry < hints.len()
    &&& forall|later: int|
        entry < later < hints.len() ==> (#[trigger] hints[later]).offset != hints[entry].offset
}

/// Whether a hint stands for its code: no later hint has the code.
pub open spec fn stands_for_code(hints: Seq<OffsetHints>, entry: int, index: int) -> bool {
    &&& is_place(hints, entry, index)
    &&& forall|e: int, i: int|
        is_place(hints, e, i) && place_before(entry, index, e, i) ==> (
        #[trigger] hints[e].codes[i])@ != hints[entry].codes[index]@
}

/// Whether a later entry has the offset of this one.
fn offset_comes_again(hints: &Vec<OffsetHints>, entry: usize) -> (again: bool)
    requires
        entry < hints.len(),
    ensures
        again == !stands_for_offset(hints@, entry as int),
{
    let mut later: usize = entry + 1;
    while later < hints.len()
        invariant
            entry < later <= hints.len(),
            forall|j: int|
                entry < j < later ==> (#[trigger] hints@[j]).offset != hints@[entry as int].offset,
        decreases hints.len() - later,
    {
        if hints[later].offset == hints[entry].offset {
            return true;
        }
        later = later + 1;
    }
    false
}

/// Whether a later hint has the code of this one.
fn code_comes_again(hints: &Vec<OffsetHints>, entry: usize, index: usize) -> (again: bool)
    requires
        is_place(hints@, entry as int, index as int),
    ensures
        again == !stands_for_code(hints@, entry as int, index as int),
{
    let code = hints[entry].codes[index].as_str();
    let mut e: usize = entry;
    let mut i: usize = index + 1;
    while e < hints.len()
        invariant
            entry <= e <= hints.len(),
            e == entry ==> index < i,
            e < hints.len() ==> i <= hints@[e as int].codes.len(),
            code@ == hints@[entry as int].codes[index as int]@,
            is_place(hints@, entry as int, index as int),
            forall|e2: int, i2: int|
                is_place(hints@, e2, i2) && place_before(entry as int, index as int, e2, i2)
                    && place_before(e2, i2, e as int, i as int) ==> (
                #[trigger] hints@[e2].codes[i2])@ != code@,
        decreases hints.len() - e, hints@[e as int].codes.len() - i,
    {
        if i < hints[e].codes.len() {
            if str_eq(hints[e].codes[i].as_str(), code) {
                assert(is_place(hints@, e as int, i as int));
                return true;
            }
            i = i + 1;
        } else {
            e = e + 1;
            i = 0;
        }
    }
    false
}

/// Decides which entries and which hints go into the tables. Each offset
/// and each code is stood for by the last entry or hint that has it, so the
/// tables are those that come of putting the hints in one after the other.
pub fn hints_to_params(hints: &Vec<OffsetHints>) -> (tables: HintTables)
    ensures
        forall|k: int|
            0 <= k < tables.by_offset.len() ==> stands_for_offset(
                hints@,
                #[trigger] tables.by_offset[k] as int,
            ),
        forall|k: int, l: int|
            0 <= k < l < tables.by_offset.len() ==> tables.by_offset[k] < tables.by_offset[l],
        forall|entry: int|
            stands_for_offset(hints@, entry) ==> exists|k: int|
                0 <= k < tables.by_offset.len() && #[trigger] tables.by_offset[k] == entry,
        forall|k: int|
            0 <= k < tables.by_code.len() ==> stands_for_code(
                hints@,
                (#[trigger] tables.by_code[k]).entry as int,
                tables.by_code[k].index as int,
            ),
        forall|k: int, l: int|
            0 <= k < l < tables.by_code.len() ==> place_before(
                tables.by_code[k].entry as int,
                tables.by_code[k].index as int,
                tables.by_code[l].entry as int,
                tables.by_code[l].index as int,
            ),
        forall|entry: int, index: int|
            stands_for_code(hints@, entry, index) ==> exists|k: int|
                0 <= k < tables.by_code.len() && (#[trigger] tables.by_code[k]).entry == entry
                    && tables.by_code[k].index == index,
{
    let mut by_offset: Vec<usize> = Vec::new();
    let mut by_code: Vec<HintPlace> = Vec::new();
    let mut e: usize = 0;
    while e < hints.len()
        invariant
            e <= hints.len(),
            forall|k: int|
                0 <= k < by_offset.len() ==> stands_for_offset(hints@, #[trigger] by_offset[k] as int)
                    && by_offset[k] < e,
            forall|k: int, l: int| 0 <= k < l < by_offset.len() ==> by_offset[k] < by_offset[l],
            forall|entry: int|
                stands_for_offset(hints@, entry) && entry < e ==> exists|k: int|
                    0 <= k < by_offset.len() && #[trigger] by_offset[k] == entry,
            forall|k: int|
                0 <= k < by_code.len() ==> stands_for_code(
                    hints@,
                    (#[trigger] by_code[k]).entry as int,
                    by_code[k].index as int,
                ) && by_code[k].entry < e,
            forall|k: int, l: int|
                0 <= k < l < by_code.len() ==> place_before(
                    by_code[k].entry as int,
                    by_code[k].index as int,
                    by_code[l].entry as int,
                    by_code[l].index as int,
                ),
            forall|entry: int, index: int|
                stands_for_code(hints@, entry, index) && entry < e ==> exists|k: int|
                    0 <= k < by_code.len() && (#[trigger] by_code[k]).entry == entry
                        && by_code[k].index == index,
        decreases hints.len() - e,
    {
        if !offset_comes_again(hints, e) {
            let ghost before = by_offset@;
            by_offset.push(e);
            proof {
                assert forall|entry: int|
                    stands_for_offset(hints@, entry) && entry < e + 1 implies exists|k: int|
                    0 <= k < by_offset.len() && #[trigger] by_offset[k] == entry by {
                    if entry < e {
                        let k = choose|k: int| 0 <= k < before.len() && #[trigger] before[k] == entry;
                        assert(by_offset[k] == entry);
                    } else {
                        assert(by_offset[before.len() as int] == entry);
                    }
                }
            }
        }
        let mut i: usize = 0;
        while i < hints[e].codes.len()
            invariant
                e < hints.len(),
                i <= hints@[e as int].codes.len(),
                forall|k: int|
                    0 <= k < by_code.len() ==> stands_for_code(
                        hints@,
                        (#[trigger] by_code[k]).entry as int,
                        by_code[k].index as int,
                    ) && place_before(
                        by_code[k].entry as int,
                        by_code[k].index as int,
                        e as int,
                        i as int,
                    ),
                forall|k: int, l: int|
                    0 <= k < l < by_code.len() ==> place_before(
                        by_code[k].entry as int,
                        by_code[k].index as int,
                        by_code[l].entry as int,
                        by_code[l].index as int,
                    ),
                forall|entry: int, index: int|
                    stands_for_code(hints@, entry, index) && place_before(
                        entry,
                        index,
                        e as int,
                        i as int,
                    ) ==> exists|k: int|
                        0 <= k < by_code.len() && (#[trigger] by_code[k]).entry == entry
                            && by_code[k].index == index,
            decreases hints@[e as int].codes.len() - i,
        {
            if !code_comes_again(hints, e, i) {
                let ghost before = by_code@;
                by_code.push(HintPlace { entry: e, index: i });
                proof {
                    assert forall|entry: int, index: int|
                        stands_for_code(hints@, entry, index) && place_before(
                            entry,
                            index,
                            e as int,
                            i + 1,
                        ) implies exists|k: int|
                        0 <= k < by_code.len() && (#[trigger] by_code[k]).entry == entry
                            && by_code[k].index == index by {
                        if place_before(entry, index, e as int, i as int) {
                            let k = choose|k: int|
                                0 <= k < before.len() && (#[trigger] before[k]).entry == entry
                                    && before[k].index == index;
                            assert(by_code[k].entry == entry);
                        } else {
                            assert(by_code[before.len() as int].entry == entry);
                        }
                    }
                }
            }
            i = i + 1;
        }
        e = e + 1;
    }
    proof {
        assert forall|entry: int| stands_for_offset(hints@, entry) implies exists|k: int|
            0 <= k < by_offset.len() && #[trigger] by_offset[k] == entry by {
            assert(entry < e);
        }
        assert forall|entry: int, index: int|
            stands_for_code(hints@, entry, index) implies exists|k: int|
            0 <= k < by_code.len() && (#[trigger] by_code[k]).entry == entry && by_code[k].index
                == index by {
            assert(is_place(hints@, entry, index));
            assert(entry < e);
        }
    }
    let tables = HintTables { by_offset, by_code };
    proof {
        assert forall|entry: int, index: int|
            stands_for_code(hints@, entry, index) implies exists|k: int|
            0 <= k < tables.by_code.len() && (#[trigger] tables.by_code[k]).entry == entry
                && tables.by_code[k].index == index by {
            let k = choose|k: int|
                0 <= k < by_code.len() && (#[trigger] by_code[k]).entry == entry && by_code[k].index
                    == index;
            assert(tables.by_code[k].entry == entry);
        }
    }
    tables
}

} // verus!
