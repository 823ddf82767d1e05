//! The carats of a text field, by their snapshots: selecting between two
//! indexes, stretching a selection as a carat moves, and keeping the carats
//! in order with overlapping selections merged and one carat per index.

use vstd::prelude::*;
use crate::history::{CaratSnapshot, selections_intersect};

verus! {

/// The selection between two indexes, whichever comes first; none where
/// they are the same.
pub open spec fn selection_between(a: usize, b: usize) -> Option<std::ops::Range<usize>> {
    if a < b {
        Some(std::ops::Range { start: a, end: b })
    } else if b < a {
        Some(std::ops::Range { start: b, end: a })
    } else {
        None
    }
}

/// The distance between two indexes.
pub open spec fn distance(a: int, b: int) -> int {
    if a < b { b - a } else { a - b }
}

/// A carat moved to `target` while selecting, from a selection begun at
/// `previous`: a selection it has keeps the far end and moves the end the
/// carat was nearer to; from both ends alike, or with no selection, the
/// selection runs between `previous` and `target`.
pub open spec fn moved_selecting(c: CaratSnapshot, previous: usize, target: usize) -> CaratSnapshot {
    match c.selection {
        Some(s) => {
            let to_start = distance(c.character_index as int, s.start as int);
            let to_end = distance(c.character_index as int, s.end as int);
            if to_start < to_end {
                CaratSnapshot {
                    character_index: target,
                    selection: Some(std::ops::Range { start: target, end: s.end }),
                }
            } else if to_end < to_start {
                CaratSnapshot {
                    character_index: target,
                    selection: Some(std::ops::Range { start: s.start, end: target }),
                }
            } else {
                CaratSnapshot { character_index: target, selection: selection_between(previous, target) }
            }
        },
        None => CaratSnapshot {
            character_index: target,
            selection: selection_between(previous, target),
        },
    }
}

/// `c` placed into `sorted` after every carat at or before its index.
pub open spec fn insert_by_index(sorted: Seq<CaratSnapshot>, c: CaratSnapshot) -> Seq<CaratSnapshot>
    decreases sorted.len(),
{
    if sorted.len() == 0 || sorted.last().character_index <= c.character_index {
        sorted.push(c)
    } else {
        insert_by_index(sorted.drop_last(), c).push(sorted.last())
    }
}

/// The carats ordered by index; carats at the same index keep their order.
pub open spec fn sort_by_index(s: Seq<CaratSnapshot>) -> Seq<CaratSnapshot>
    decreases s.len(),
{
    if s.len() == 0 {
        s
    } else {
        insert_by_index(sort_by_index(s.drop_last()), s.last())
    }
}

/// The carat at `index` compared with the one before it: where their
/// selections overlap, the one before takes the selection from its own
/// start to the other's end, moving to that end unless it sat at its start,
/// and the one at `index` moves to where the one before now is.
pub open spec fn merge_pair(carats: Seq<CaratSnapshot>, index: int) -> Seq<CaratSnapshot> {
    let last = carats[index - 1];
    let current = carats[index];
    if selections_intersect(current.selection, last.selection) {
        let start = last.selection.unwrap().start;
        let end = current.selection.unwrap().end;
        let at = if last.character_index != start { end } else { last.character_index };
        carats.update(
            index - 1,
            CaratSnapshot {
                character_index: at,
                selection: Some(std::ops::Range { start, end }),
            },
        ).update(index, CaratSnapshot { character_index: at, selection: current.selection })
    } else {
        carats
    }
}

/// The carats after the pairs up to `index` have been compared, in order.
pub open spec fn merged_upto(carats: Seq<CaratSnapshot>, index: nat) -> Seq<CaratSnapshot>
    decreases index,
{
    if index <= 1 {
        carats
    } else {
        merge_pair(merged_upto(carats, (index - 1) as nat), index - 1)
    }
}

/// Some carat of the list is at the index.
pub open spec fn has_index(carats: Seq<CaratSnapshot>, index: usize) -> bool {
    exists|k: int| 0 <= k < carats.len() && #[trigger] carats[k].character_index == index
}

/// The carats, keeping only the first at each index.
pub open spec fn first_per_index(s: Seq<CaratSnapshot>) -> Seq<CaratSnapshot>
    decreases s.len(),
{
    if s.len() == 0 {
        s
    } else {
        let kept = first_per_index(s.drop_last());
        if has_index(kept, s.last().character_index) {
            kept
        } else {
            kept.push(s.last())
        }
    }
}

/// What tidying the carats gives: sorted by index, overlapping neighbours
/// merged, and one carat left per index.
pub open spec fn consumed(carats: Seq<CaratSnapshot>) -> Seq<CaratSnapshot> {
    first_per_index(merged_upto(sort_by_index(carats), carats.len()))
}

/// Selects between two indexes, whichever comes first; an empty
/// selection is none. The carat stays where it is.
pub fn select(carat: &mut CaratSnapshot, index_one: usize, index_two: usize)
    ensures
        final(carat).character_index == old(carat).character_index,
        final(carat).selection == selection_between(index_one, index_two),
{
    let (lhs, rhs) = if index_one < index_two {
        (index_one, index_two)
    } else {
        (index_two, index_one)
    };
    if lhs < rhs {
        carat.selection = Some(std::ops::Range { start: lhs, end: rhs });
    } else {
        carat.selection = None;
    }
}

/// Moves the carat to `target` while selecting from `previous`.
pub fn move_carat_selecting(carat: &mut CaratSnapshot, previous: usize, target: usize)
    requires
        old(carat).character_index <= i32::MAX,
        old(carat).selection matches Some(s) ==> s.start <= i32::MAX && s.end <= i32::MAX,
    ensures
        *final(carat) == moved_selecting(*old(carat), previous, target),
{
    let current = carat.character_index;
    let (start, end) = match &carat.selection {
        Some(s) => (s.start, s.end),
        None => {
            select(carat, previous, target);
            carat.character_index = target;
            return;
        },
    };
    carat.character_index = target;
    let to_start = if current < start { start - current } else { current - start };
    let to_end = if current < end { end - current } else { current - end };
    if to_start < to_end {
        carat.selection = Some(std::ops::Range { start: target, end });
    } else if to_end < to_start {
        carat.selection = Some(std::ops::Range { start, end: target });
    } else {
        select(carat, previous, target);
        carat.character_index = target;
    }
}

proof fn lemma_insert_at(s: Seq<CaratSnapshot>, c: CaratSnapshot, j: int)
    requires
        0 <= j <= s.len(),
        j == 0 || s[j - 1].character_index <= c.character_index,
        forall|k: int| j <= k < s.len() ==> #[trigger] s[k].character_index > c.character_index,
    ensures
        insert_by_index(s, c) == s.take(j).push(c) + s.skip(j),
    decreases s.len(),
{
    if j == s.len() {
        assert(s.take(j) =~= s);
        assert(s.skip(j) =~= Seq::<CaratSnapshot>::empty());
        assert(s.push(c) =~= s.take(j).push(c) + s.skip(j));
    } else {
        let d = s.drop_last();
        assert(s.last() == s[s.len() - 1]);
        lemma_insert_at(d, c, j);
        assert(d.take(j) =~= s.take(j));
        assert(d.skip(j).push(s.last()) =~= s.skip(j));
        assert((d.take(j).push(c) + d.skip(j)).push(s.last()) =~= s.take(j).push(c) + s.skip(j));
    }
}

/// Puts the carat into the sorted list after every carat at or before its
/// index.
fn insert_sorted(sorted: &mut Vec<CaratSnapshot>, c: CaratSnapshot)
    ensures
        final(sorted)@ == insert_by_index(old(sorted)@, c),
{
    let mut j: usize = sorted.len();
    while j > 0 && sorted[j - 1].character_index > c.character_index
        invariant
            j <= sorted@.len(),
            sorted@ == old(sorted)@,
            forall|k: int| j <= k < sorted@.len() ==> #[trigger] sorted@[k].character_index
                > c.character_index,
        decreases j,
    {
        j = j - 1;
    }
    proof {
        lemma_insert_at(sorted@, c, j as int);
    }
    let ghost before = sorted@;
    sorted.insert(j, c);
    assert(sorted@ =~= before.take(j as int).push(c) + before.skip(j as int));
}

/// The carats sorted by index, keeping the order of carats at one index.
fn sorted_by_index(carats: &Vec<CaratSnapshot>) -> (r: Vec<CaratSnapshot>)
    ensures
        r@ == sort_by_index(carats@),
{
    let mut r: Vec<CaratSnapshot> = Vec::new();
    let mut i: usize = 0;
    while i < carats.len()
        invariant
            i <= carats@.len(),
            r@ == sort_by_index(carats@.take(i as int)),
        decreases carats.len() - i,
    {
        proof {
            let t = carats@.take(i + 1);
            assert(t.drop_last() =~= carats@.take(i as int));
            assert(t.last() == carats@[i as int]);
        }
        insert_sorted(&mut r, carats[i].duplicate());
        i = i + 1;
    }
    assert(carats@.take(carats.len() as int) =~= carats@);
    r
}

/// Whether some carat of the list is at the index.
fn contains_index(carats: &Vec<CaratSnapshot>, index: usize) -> (b: bool)
    ensures
        b == has_index(carats@, index),
{
    let mut k: usize = 0;
    while k < carats.len()
        invariant
            k <= carats@.len(),
            forall|m: int| 0 <= m < k ==> carats@[m].character_index != index,
        decreases carats.len() - k,
    {
        if carats[k].character_index == index {
            return true;
        }
        k = k + 1;
    }
    false
}

/// Tidies a text field's carats: orders them by index; where a carat's
/// selection overlaps the one before it, that one's selection stretches
/// over both and the carat joins it; then only the first carat at each
/// index survives.
pub fn consume_and_sort_carats(carats: &Vec<CaratSnapshot>) -> (r: Vec<CaratSnapshot>)
    ensures
        r@ == consumed(carats@),
{
    let mut sorted = sorted_by_index(carats);
    let ghost start = sorted@;
    let n = sorted.len();
    proof {
        assert(n == carats@.len()) by {
            lemma_sort_len(carats@);
        }
    }
    let mut index: usize = 1;
    while index < n
        invariant
            1 <= index,
            n == sorted@.len(),
            n == carats@.len(),
            index <= n || n == 0,
            sorted@ == merged_upto(start, index as nat),
            start == sort_by_index(carats@),
        decreases n - index,
    {
        let last = sorted[index - 1].duplicate();
        let current = sorted[index].duplicate();
        if current.selection_intersects(&last) {
            let start_of_last = match &last.selection {
                Some(s) => s.start,
                None => 0,
            };
            let end_of_current = match &current.selection {
                Some(s) => s.end,
                None => 0,
            };
            let at = if last.character_index != start_of_last {
                end_of_current
            } else {
                last.character_index
            };
            sorted.set(
                index - 1,
                CaratSnapshot {
                    character_index: at,
                    selection: Some(std::ops::Range { start: start_of_last, end: end_of_current }),
                },
            );
            sorted.set(index, CaratSnapshot { character_index: at, selection: current.selection });
        }
        index = index + 1;
    }
    proof {
        if n == 0 {
            assert(merged_upto(start, 0) == start);
        }
    }
    let mut kept: Vec<CaratSnapshot> = Vec::new();
    let mut i: usize = 0;
    while i < sorted.len()
        invariant
            i <= sorted@.len(),
            kept@ == first_per_index(sorted@.take(i as int)),
        decreases sorted.len() - i,
    {
        proof {
            let t = sorted@.take(i + 1);
            assert(t.drop_last() =~= sorted@.take(i as int));
            assert(t.last() == sorted@[i as int]);
        }
        if !contains_index(&kept, sorted[i].character_index) {
            kept.push(sorted[i].duplicate());
        }
        i = i + 1;
    }
    assert(sorted@.take(sorted.len() as int) =~= sorted@);
    kept
}

proof fn lemma_insert_len(s: Seq<CaratSnapshot>, c: CaratSnapshot)
    ensures
        insert_by_index(s, c).len() == s.len() + 1,
    decreases s.len(),
{
    if s.len() > 0 && s.last().character_index > c.character_index {
        lemma_insert_len(s.drop_last(), c);
    }
}

proof fn lemma_sort_len(s: Seq<CaratSnapshot>)
    ensures
        sort_by_index(s).len() == s.len(),
    decreases s.len(),
{
    if s.len() > 0 {
        lemma_sort_len(s.drop_last());
        lemma_insert_len(sort_by_index(s.drop_last()), s.last());
    }
}

/// No two carats are left at one index: after the carats are tidied,
/// every carat stands at an index of its own.
pub proof fn lemma_one_carat_per_index(carats: Seq<CaratSnapshot>)
    ensures
        forall|i: int, j: int|
            0 <= i < j < consumed(carats).len() ==> #[trigger] consumed(carats)[i].character_index
                != #[trigger] consumed(carats)[j].character_index,
{
    lemma_first_per_index_unique(merged_upto(sort_by_index(carats), carats.len()));
}

proof fn lemma_first_per_index_unique(s: Seq<CaratSnapshot>)
    ensures
        forall|i: int, j: int|
            0 <= i < j < first_per_index(s).len() ==> #[trigger] first_per_index(s)[i].character_index
                != #[trigger] first_per_index(s)[j].character_index,
    decreases s.len(),
{
    if s.len() > 0 {
        let kept = first_per_index(s.drop_last());
        lemma_first_per_index_unique(s.drop_last());
        if !has_index(kept, s.last().character_index) {
            let r = kept.push(s.last());
            assert forall|i: int, j: int| 0 <= i < j < r.len() implies #[trigger] r[i].character_index
                != #[trigger] r[j].character_index by {
                if j == kept.len() {
                    assert(r[i] == kept[i]);
                    if r[i].character_index == s.last().character_index {
                        assert(has_index(kept, s.last().character_index));
                    }
                } else {
                    assert(r[i] == kept[i]);
                    assert(r[j] == kept[j]);
                }
            }
        }
    }
}

} // verus!
