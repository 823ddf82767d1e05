//! Editing a text field's text at its carats: inserting a string at every
//! carat, deleting behind every carat, and applying the edits that undo
//! either. Indexes count characters. The carats are taken in order; each
//! one first follows the shift that the edits at the carats before it made.

use vstd::prelude::*;
use vstd::string::*;
use crate::carats::{consume_and_sort_carats, consumed};
use crate::history::{CaratSnapshot, CursorMovement, TextEdit, option_strings_view, strings_view};

verus! {

/// The text with the characters from `a` to `b` giving way to `s`.
pub open spec fn spliced(text: Seq<char>, a: int, b: int, s: Seq<char>) -> Seq<char> {
    text.subrange(0, a) + s + text.subrange(b, text.len() as int)
}

/// `i` kept between `lo` and `hi`.
pub open spec fn clamped(i: int, lo: int, hi: int) -> int {
    if i < lo { lo } else if i > hi { hi } else { i }
}

/// An integer fits in an `i32`.
pub open spec fn fits32(i: int) -> bool {
    i32::MIN <= i <= i32::MAX
}

/// Where an insertion stands after some carats: the text, how far the
/// following carats have shifted, what each carat replaced, and the carats
/// afterwards.
pub type InsertionState = (Seq<char>, int, Seq<Option<Seq<char>>>, Seq<CaratSnapshot>);

/// The selection a carat takes once shifted by `extra`: between its ends,
/// whichever comes first; none where it had none or it is empty.
pub open spec fn shifted_selection(c: CaratSnapshot, extra: int) -> Option<(int, int)> {
    match c.selection {
        Some(r) => {
            let a = r.start + extra;
            let b = r.end + extra;
            if a < b {
                Some((a, b))
            } else if b < a {
                Some((b, a))
            } else {
                None
            }
        },
        None => None,
    }
}

/// One carat's insertion of `s`: the carat follows the shift and is kept
/// within the text; a selection is replaced by `s`, otherwise `s` goes in
/// at the carat; the carat ends after `s`, with no selection.
pub open spec fn insertion_step(st: InsertionState, c: CaratSnapshot, s: Seq<char>) -> InsertionState {
    let (text, extra, replaced, after) = st;
    let at = clamped(c.character_index + extra, 0, text.len() as int);
    match shifted_selection(c, extra) {
        Some((a, b)) => (
            spliced(text, a, b, s),
            extra - (b - a) + s.len(),
            replaced.push(Some(text.subrange(a, b))),
            after.push(CaratSnapshot { character_index: (a + s.len()) as usize, selection: None }),
        ),
        None => (
            spliced(text, at, at, s),
            extra + s.len(),
            replaced.push(None),
            after.push(CaratSnapshot { character_index: (at + s.len()) as usize, selection: None }),
        ),
    }
}

/// The insertion after the first `k` carats.
pub open spec fn insertion_upto(text: Seq<char>, carats: Seq<CaratSnapshot>, s: Seq<char>, k: nat) -> InsertionState
    decreases k,
{
    if k == 0 {
        (text, 0, seq![], seq![])
    } else {
        insertion_step(insertion_upto(text, carats, s, (k - 1) as nat), carats[k - 1], s)
    }
}

/// One carat's insertion stays within the text and within `i32`, where the
/// carats' arithmetic is done.
pub open spec fn insertion_step_ok(st: InsertionState, c: CaratSnapshot, s: Seq<char>) -> bool {
    let (text, extra, replaced, after) = st;
    &&& text.len() <= i32::MAX
    &&& c.character_index <= i32::MAX
    &&& fits32(c.character_index + extra)
    &&& match c.selection {
        Some(r) => {
            &&& r.start <= i32::MAX
            &&& r.end <= i32::MAX
            &&& 0 <= r.start + extra <= text.len()
            &&& 0 <= r.end + extra <= text.len()
        },
        None => true,
    }
    &&& match shifted_selection(c, extra) {
        Some((a, b)) => fits32(extra - (b - a) + s.len()),
        None => fits32(extra + s.len()),
    }
}

/// Every carat's insertion stays within the text and within `i32`.
pub open spec fn insertion_ok(text: Seq<char>, carats: Seq<CaratSnapshot>, s: Seq<char>, k: nat) -> bool
    decreases k,
{
    k == 0 || (insertion_ok(text, carats, s, (k - 1) as nat) && insertion_step_ok(
        insertion_upto(text, carats, s, (k - 1) as nat),
        carats[k - 1],
        s,
    ))
}

/// What inserting `s` at the carats does: the carats are tidied first,
/// then each inserts in turn.
pub open spec fn insertion(text: Seq<char>, carats: Seq<CaratSnapshot>, s: Seq<char>) -> InsertionState {
    insertion_upto(text, consumed(carats), s, consumed(carats).len())
}

fn substring(s: &String, a: usize, b: usize) -> (r: String)
    requires
        a <= b <= s@.len(),
    ensures
        r@ == s@.subrange(a as int, b as int),
{
    String::from_str(s.as_str().substring_char(a, b))
}

/// The text with the characters from `a` to `b` giving way to `s`.
pub(crate) fn splice(text: &String, a: usize, b: usize, s: &String) -> (r: String)
    requires
        a <= b <= text@.len(),
    ensures
        r@ == spliced(text@, a as int, b as int, s@),
{
    let len = text.as_str().unicode_len();
    let mut r = substring(text, 0, a);
    r.append(s.as_str());
    let tail = substring(text, b, len);
    r.append(tail.as_str());
    r
}

/// Inserts `s` at every carat of a text field holding `text`: the carats
/// are tidied, then in turn each one, shifted by the insertions before it,
/// replaces its selection with `s` or inserts `s` where it stands, and
/// moves to the end of what it inserted. Gives the new text, what each
/// carat replaced (one entry per carat), and the carats afterwards.
pub fn insert_at_carats(text: &String, carats: &Vec<CaratSnapshot>, s: &String) -> (r: (
    String,
    Vec<Option<String>>,
    Vec<CaratSnapshot>,
))
    requires
        s@.len() <= i32::MAX,
        insertion_ok(text@, consumed(carats@), s@, consumed(carats@).len()),
    ensures
        r.0@ == insertion(text@, carats@, s@).0,
        option_strings_view(r.1@) == insertion(text@, carats@, s@).2,
        r.2@ == insertion(text@, carats@, s@).3,
        r.1@.len() == consumed(carats@).len(),
        r.2@.len() == consumed(carats@).len(),
{
    let tidy = consume_and_sort_carats(carats);
    let ghost cs = tidy@;
    let slen = s.as_str().unicode_len();
    let mut cur = String::from_str(text.as_str());
    let mut extra: i64 = 0;
    let mut replaced: Vec<Option<String>> = Vec::new();
    let mut after: Vec<CaratSnapshot> = Vec::new();
    let mut k: usize = 0;
    while k < tidy.len()
        invariant
            cs == tidy@,
            cs == consumed(carats@),
            slen == s@.len(),
            s@.len() <= i32::MAX,
            k <= cs.len(),
            insertion_ok(text@, cs, s@, cs.len()),
            insertion_upto(text@, cs, s@, k as nat) == (
                cur@,
                extra as int,
                option_strings_view(replaced@),
                after@,
            ),
            replaced@.len() == k,
            after@.len() == k,
        decreases tidy.len() - k,
    {
        proof {
            lemma_ok_prefix(text@, cs, s@, cs.len(), (k + 1) as nat);
        }
        let c = &tidy[k];
        let len = cur.as_str().unicode_len();
        let ci = c.character_index as i64 + extra;
        let at: usize = if ci < 0 {
            0
        } else if ci > len as i64 {
            len
        } else {
            ci as usize
        };
        let sel: Option<(usize, usize)> = match &c.selection {
            Some(r) => {
                let a = r.start as i64 + extra;
                let b = r.end as i64 + extra;
                if a < b {
                    Some((a as usize, b as usize))
                } else if b < a {
                    Some((b as usize, a as usize))
                } else {
                    None
                }
            },
            None => None,
        };
        let ghost before_replaced = replaced@;
        match sel {
            Some((a, b)) => {
                let piece = substring(&cur, a, b);
                let next = splice(&cur, a, b, s);
                replaced.push(Some(piece));
                extra = extra - (b - a) as i64 + slen as i64;
                after.push(CaratSnapshot::new(a + slen, None));
                cur = next;
            },
            None => {
                let next = splice(&cur, at, at, s);
                replaced.push(None);
                extra = extra + slen as i64;
                after.push(CaratSnapshot::new(at + slen, None));
                cur = next;
            },
        }
        proof {
            assert(option_strings_view(replaced@) =~= option_strings_view(before_replaced).push(
                option_strings_view(replaced@).last(),
            ));
        }
        k = k + 1;
    }
    (cur, replaced, after)
}

proof fn lemma_ok_prefix(text: Seq<char>, carats: Seq<CaratSnapshot>, s: Seq<char>, n: nat, m: nat)
    requires
        insertion_ok(text, carats, s, n),
        m <= n,
    ensures
        insertion_ok(text, carats, s, m),
    decreases n,
{
    if m < n {
        lemma_ok_prefix(text, carats, s, (n - 1) as nat, m);
    }
}

/// The part of the original text a carat edits: its selection, between its
/// ends, where it has a non-empty one; otherwise the empty range at the
/// carat.
pub open spec fn edit_range(c: CaratSnapshot) -> (int, int) {
    match c.selection {
        Some(r) => if r.start < r.end {
            (r.start as int, r.end as int)
        } else if r.end < r.start {
            (r.end as int, r.start as int)
        } else {
            (c.character_index as int, c.character_index as int)
        },
        None => (c.character_index as int, c.character_index as int),
    }
}

/// The carats' ranges lie within a text of length `len`, in order, none
/// overlapping the next.
pub open spec fn ranges_in_order(len: int, cs: Seq<CaratSnapshot>) -> bool {
    &&& forall|i: int| 0 <= i < cs.len() ==> 0 <= (#[trigger] edit_range(cs[i])).0 <= edit_range(cs[i]).1 <= len
    &&& forall|i: int, j: int| 0 <= i < j < cs.len() ==> (#[trigger] edit_range(cs[i])).1 <= (
        #[trigger] edit_range(cs[j])).0
}

/// Where the `k`-th carat's range ends in the original text; 0 before the
/// first.
pub open spec fn range_end(cs: Seq<CaratSnapshot>, k: int) -> int {
    if k <= 0 {
        0
    } else {
        edit_range(cs[k - 1]).1
    }
}

/// The original text, read in its own positions, up to the end of the
/// `k`-th carat's range, with each of the first `k` ranges replaced by `s`.
pub open spec fn replaced_upto(text: Seq<char>, cs: Seq<CaratSnapshot>, s: Seq<char>, k: nat) -> Seq<char>
    decreases k,
{
    if k == 0 {
        seq![]
    } else {
        replaced_upto(text, cs, s, (k - 1) as nat) + text.subrange(
            range_end(cs, k - 1),
            edit_range(cs[k - 1]).0,
        ) + s
    }
}

/// What a carat replaced, read in the original text: its selection where
/// it has a non-empty one, nothing otherwise.
pub open spec fn original_replaced(text: Seq<char>, c: CaratSnapshot) -> Option<Seq<char>> {
    if edit_range(c).0 < edit_range(c).1 {
        Some(text.subrange(edit_range(c).0, edit_range(c).1))
    } else {
        None
    }
}

proof fn lemma_insertion_shape(text: Seq<char>, cs: Seq<CaratSnapshot>, s: Seq<char>, k: nat)
    requires
        ranges_in_order(text.len() as int, cs),
        k <= cs.len(),
    ensures
        ({
            let st = insertion_upto(text, cs, s, k);
            let p = replaced_upto(text, cs, s, k);
            &&& st.0 == p + text.subrange(range_end(cs, k as int), text.len() as int)
            &&& st.1 == p.len() - range_end(cs, k as int)
            &&& st.2.len() == k
            &&& st.3.len() == k
            &&& forall|i: int| 0 <= i < k ==> #[trigger] st.2[i] == original_replaced(text, cs[i])
            &&& forall|i: int|
                0 <= i < k ==> #[trigger] st.3[i] == (CaratSnapshot {
                    character_index: replaced_upto(text, cs, s, (i + 1) as nat).len() as usize,
                    selection: None,
                })
        }),
    decreases k,
{
    if k > 0 {
        lemma_insertion_shape(text, cs, s, (k - 1) as nat);
        let prev = insertion_upto(text, cs, s, (k - 1) as nat);
        let p = replaced_upto(text, cs, s, (k - 1) as nat);
        let e = range_end(cs, k - 1);
        let c = cs[k - 1];
        let (a, b) = edit_range(c);
        assert(0 <= a <= b <= text.len()) by {
            assert(0 <= edit_range(cs[k - 1]).0 <= edit_range(cs[k - 1]).1 <= text.len());
        }
        assert(0 <= e <= a) by {
            if k >= 2 {
                assert(edit_range(cs[k - 2]).1 <= edit_range(cs[k - 1]).0);
                assert(0 <= edit_range(cs[k - 2]).0 <= edit_range(cs[k - 2]).1);
            }
        }
        let extra = prev.1;
        let np = replaced_upto(text, cs, s, k);
        assert(np == p + text.subrange(e, a) + s);
        let st = insertion_upto(text, cs, s, k);
        assert(st == insertion_step(prev, c, s));
        let t = prev.0;
        assert(t.len() == p.len() + text.len() - e);
        match shifted_selection(c, extra) {
            Some((x, y)) => {
                assert(x == p.len() + (a - e) && y == p.len() + (b - e));
                assert(t.subrange(0, x) =~= p + text.subrange(e, a));
                assert(t.subrange(y, t.len() as int) =~= text.subrange(b, text.len() as int));
                assert(t.subrange(x, y) =~= text.subrange(a, b));
                assert(st.0 =~= np + text.subrange(b, text.len() as int));
                assert(a < b);
            },
            None => {
                assert(a == b && a == c.character_index);
                let at = clamped(c.character_index + extra, 0, t.len() as int);
                assert(at == p.len() + (a - e));
                assert(t.subrange(0, at) =~= p + text.subrange(e, a));
                assert(t.subrange(at, t.len() as int) =~= text.subrange(b, text.len() as int));
                assert(st.0 =~= np + text.subrange(b, text.len() as int));
            },
        }
        assert(range_end(cs, k as int) == b);
        assert forall|i: int| 0 <= i < k implies #[trigger] st.2[i] == original_replaced(text, cs[i]) by {
            if i < k - 1 {
                assert(st.2[i] == prev.2[i]);
            }
        }
        assert forall|i: int|
            0 <= i < k implies #[trigger] st.3[i] == (CaratSnapshot {
                character_index: replaced_upto(text, cs, s, (i + 1) as nat).len() as usize,
                selection: None,
            }) by {
            if i < k - 1 {
                assert(st.3[i] == prev.3[i]);
            }
        }
    }
}

/// Inserting `s` at carats whose ranges lie in order in the text replaces
/// each range of the original text by `s`, as if all at once: the new text
/// is the original with every carat's selection (or, for a carat without
/// one, the empty range where it stands) replaced by `s`, its length is the
/// original's less the selections, plus `s` once per carat; each carat
/// records what it replaced there, and ends just after its `s`.
pub proof fn lemma_insertion_replaces_ranges(text: Seq<char>, carats: Seq<CaratSnapshot>, s: Seq<char>)
    requires
        ranges_in_order(text.len() as int, consumed(carats)),
    ensures
        ({
            let cs = consumed(carats);
            let n = cs.len();
            let r = insertion(text, carats, s);
            &&& r.0 == replaced_upto(text, cs, s, n) + text.subrange(range_end(cs, n as int), text.len() as int)
            &&& r.2.len() == n
            &&& r.3.len() == n
            &&& forall|i: int| 0 <= i < n ==> #[trigger] r.2[i] == original_replaced(text, cs[i])
            &&& forall|i: int|
                0 <= i < n ==> #[trigger] r.3[i] == (CaratSnapshot {
                    character_index: replaced_upto(text, cs, s, (i + 1) as nat).len() as usize,
                    selection: None,
                })
        }),
        insertion(text, carats, s).0.len() == text.len() + consumed(carats).len() * s.len()
            - selected_total(consumed(carats), consumed(carats).len()),
{
    let cs = consumed(carats);
    lemma_insertion_shape(text, cs, s, cs.len());
    lemma_replaced_len(text, cs, s, cs.len());
}

/// How many characters the first `k` carats' ranges cover.
pub open spec fn selected_total(cs: Seq<CaratSnapshot>, k: nat) -> int
    decreases k,
{
    if k == 0 {
        0
    } else {
        selected_total(cs, (k - 1) as nat) + edit_range(cs[k - 1]).1 - edit_range(cs[k - 1]).0
    }
}

proof fn lemma_replaced_len(text: Seq<char>, cs: Seq<CaratSnapshot>, s: Seq<char>, k: nat)
    requires
        ranges_in_order(text.len() as int, cs),
        k <= cs.len(),
    ensures
        replaced_upto(text, cs, s, k).len() == range_end(cs, k as int) + k * s.len() - selected_total(cs, k),
    decreases k,
{
    if k > 0 {
        lemma_replaced_len(text, cs, s, (k - 1) as nat);
        let e = range_end(cs, k - 1);
        let (a, b) = edit_range(cs[k - 1]);
        assert(0 <= a <= b <= text.len()) by {
            assert(0 <= edit_range(cs[k - 1]).0 <= edit_range(cs[k - 1]).1 <= text.len());
        }
        assert(0 <= e <= a) by {
            if k >= 2 {
                assert(edit_range(cs[k - 2]).1 <= edit_range(cs[k - 1]).0);
                assert(0 <= edit_range(cs[k - 2]).0 <= edit_range(cs[k - 2]).1);
            }
        }
        let km: nat = (k - 1) as nat;
        assert(k * s.len() == km * s.len() + s.len()) by (nonlinear_arith)
            requires
                k == km + 1,
        ;
        assert(replaced_upto(text, cs, s, km).len() == range_end(cs, km as int) + km * s.len()
            - selected_total(cs, km));
        assert(selected_total(cs, k) == selected_total(cs, km) + b - a);
        assert(replaced_upto(text, cs, s, k).len() == replaced_upto(text, cs, s, km).len() + (a - e) + s.len());
        assert(range_end(cs, km as int) == e);
        assert(text.subrange(e, a).len() == a - e);
        assert(range_end(cs, k as int) == b);
        assert(replaced_upto(text, cs, s, k) == replaced_upto(text, cs, s, (k - 1) as nat) + text.subrange(
            e,
            a,
        ) + s);
    } else {
        assert(0 * s.len() == 0) by (nonlinear_arith);
    }
}

/// Where a backspace stands after some carats: the text, how far the
/// following carats have shifted back, what each carat deleted, and the
/// carats afterwards.
pub type BackspaceState = (Seq<char>, int, Seq<Seq<char>>, Seq<CaratSnapshot>);

/// The selection a carat keeps once shifted back by `extra`; none where it
/// had none or it is empty.
pub open spec fn selection_back(c: CaratSnapshot, extra: int) -> Option<(int, int)> {
    match c.selection {
        Some(r) => if r.start - extra < r.end - extra {
            Some((r.start - extra, r.end - extra))
        } else {
            None
        },
        None => None,
    }
}

/// Where a carat's deletion starts and ends, once shifted back by `extra`:
/// a selection is deleted whole; otherwise the deletion reaches back
/// `amount` characters, or, for a word or a line, to `boundary`; never
/// before the start of the text.
pub open spec fn deletion_range(
    c: CaratSnapshot,
    extra: int,
    movement: CursorMovement,
    amount: usize,
    boundary: usize,
) -> (int, int) {
    let at = if c.character_index - extra < 0 { 0 } else { c.character_index - extra };
    match selection_back(c, extra) {
        Some((a, b)) => (a, b),
        None => {
            let distance = if movement == CursorMovement::Character {
                amount as int
            } else {
                at - boundary
            };
            let from = at - distance;
            (if from < 0 { 0 } else { from }, at)
        },
    }
}

/// One carat's backspace: what lies in its deletion range goes; the carat
/// stands at the start of the range, with no selection.
pub open spec fn backspace_step(
    st: BackspaceState,
    c: CaratSnapshot,
    movement: CursorMovement,
    amount: usize,
    boundary: usize,
) -> BackspaceState {
    let (text, extra, deleted, after) = st;
    let (from, to) = deletion_range(c, extra, movement, amount, boundary);
    (
        spliced(text, from, to, Seq::<char>::empty()),
        extra + (to - from),
        deleted.push(text.subrange(from, to)),
        after.push(CaratSnapshot { character_index: from as usize, selection: None }),
    )
}

/// The backspace after the first `k` carats; carat `i` reaches back to
/// `boundaries[i]` when deleting a word or a line.
pub open spec fn backspace_upto(
    text: Seq<char>,
    carats: Seq<CaratSnapshot>,
    movement: CursorMovement,
    amount: usize,
    boundaries: Seq<usize>,
    k: nat,
) -> BackspaceState
    decreases k,
{
    if k == 0 {
        (text, 0, seq![], seq![])
    } else {
        backspace_step(
            backspace_upto(text, carats, movement, amount, boundaries, (k - 1) as nat),
            carats[k - 1],
            movement,
            amount,
            if movement == CursorMovement::Character { 0 } else { boundaries[k - 1] },
        )
    }
}

/// One carat's backspace stays within the text and within `i32`, where the
/// carats' arithmetic is done.
pub open spec fn backspace_step_ok(
    st: BackspaceState,
    c: CaratSnapshot,
    movement: CursorMovement,
    amount: usize,
    boundary: usize,
) -> bool {
    let (text, extra, deleted, after) = st;
    let (from, to) = deletion_range(c, extra, movement, amount, boundary);
    &&& c.character_index <= i32::MAX
    &&& fits32(c.character_index - extra)
    &&& amount <= i32::MAX
    &&& boundary <= i32::MAX
    &&& match c.selection {
        Some(r) => {
            &&& r.start <= i32::MAX
            &&& r.end <= i32::MAX
            &&& fits32(r.start - extra)
            &&& fits32(r.end - extra)
            &&& r.start - extra < r.end - extra ==> 0 <= r.start - extra
        },
        None => true,
    }
    &&& from <= to <= text.len()
    &&& fits32(extra + (to - from))
}

/// Every carat's backspace stays within the text and within `i32`.
pub open spec fn backspace_ok(
    text: Seq<char>,
    carats: Seq<CaratSnapshot>,
    movement: CursorMovement,
    amount: usize,
    boundaries: Seq<usize>,
    k: nat,
) -> bool
    decreases k,
{
    k == 0 || (backspace_ok(text, carats, movement, amount, boundaries, (k - 1) as nat)
        && backspace_step_ok(
        backspace_upto(text, carats, movement, amount, boundaries, (k - 1) as nat),
        carats[k - 1],
        movement,
        amount,
        if movement == CursorMovement::Character { 0 } else { boundaries[k - 1] },
    ))
}

proof fn lemma_backspace_ok_prefix(
    text: Seq<char>,
    carats: Seq<CaratSnapshot>,
    movement: CursorMovement,
    amount: usize,
    boundaries: Seq<usize>,
    n: nat,
    m: nat,
)
    requires
        backspace_ok(text, carats, movement, amount, boundaries, n),
        m <= n,
    ensures
        backspace_ok(text, carats, movement, amount, boundaries, m),
    decreases n,
{
    if m < n {
        lemma_backspace_ok_prefix(text, carats, movement, amount, boundaries, (n - 1) as nat, m);
    }
}

/// The part of the original text a carat deletes, one character at a time:
/// its selection where it has one running forward, otherwise the `amount`
/// characters before it.
pub open spec fn char_deletion(c: CaratSnapshot, amount: usize) -> (int, int) {
    match c.selection {
        Some(r) => if r.start < r.end {
            (r.start as int, r.end as int)
        } else {
            (c.character_index - amount, c.character_index as int)
        },
        None => (c.character_index - amount, c.character_index as int),
    }
}

/// The carats' deletions lie within a text of length `len`, in order, none
/// overlapping the next.
pub open spec fn deletions_in_order(len: int, cs: Seq<CaratSnapshot>, amount: usize) -> bool {
    &&& forall|i: int|
        0 <= i < cs.len() ==> 0 <= (#[trigger] char_deletion(cs[i], amount)).0 <= char_deletion(
            cs[i],
            amount,
        ).1 <= len
    &&& forall|i: int, j: int|
        0 <= i < j < cs.len() ==> (#[trigger] char_deletion(cs[i], amount)).1 <= (
        #[trigger] char_deletion(cs[j], amount)).0
}

/// Where the `k`-th carat's deletion ends in the original text; 0 before
/// the first.
pub open spec fn deletion_end(cs: Seq<CaratSnapshot>, amount: usize, k: int) -> int {
    if k <= 0 {
        0
    } else {
        char_deletion(cs[k - 1], amount).1
    }
}

/// The original text up to the end of the `k`-th carat's deletion, with the
/// first `k` deletions taken out.
pub open spec fn removed_upto(text: Seq<char>, cs: Seq<CaratSnapshot>, amount: usize, k: nat) -> Seq<char>
    decreases k,
{
    if k == 0 {
        seq![]
    } else {
        removed_upto(text, cs, amount, (k - 1) as nat) + text.subrange(
            deletion_end(cs, amount, k - 1),
            char_deletion(cs[k - 1], amount).0,
        )
    }
}

proof fn lemma_backspace_shape(
    text: Seq<char>,
    cs: Seq<CaratSnapshot>,
    amount: usize,
    boundaries: Seq<usize>,
    k: nat,
)
    requires
        deletions_in_order(text.len() as int, cs, amount),
        k <= cs.len(),
    ensures
        ({
            let st = backspace_upto(text, cs, CursorMovement::Character, amount, boundaries, k);
            let p = removed_upto(text, cs, amount, k);
            &&& st.0 == p + text.subrange(deletion_end(cs, amount, k as int), text.len() as int)
            &&& st.1 == deletion_end(cs, amount, k as int) - p.len()
            &&& st.2.len() == k
            &&& st.3.len() == k
            &&& forall|i: int|
                0 <= i < k ==> #[trigger] st.2[i] == text.subrange(
                    char_deletion(cs[i], amount).0,
                    char_deletion(cs[i], amount).1,
                )
            &&& forall|i: int|
                0 <= i < k ==> #[trigger] st.3[i] == (CaratSnapshot {
                    character_index: removed_upto(text, cs, amount, (i + 1) as nat).len() as usize,
                    selection: None,
                })
        }),
    decreases k,
{
    if k > 0 {
        lemma_backspace_shape(text, cs, amount, boundaries, (k - 1) as nat);
        let prev = backspace_upto(text, cs, CursorMovement::Character, amount, boundaries, (k - 1) as nat);
        let p = removed_upto(text, cs, amount, (k - 1) as nat);
        let e = deletion_end(cs, amount, k - 1);
        let c = cs[k - 1];
        let (a, b) = char_deletion(c, amount);
        assert(0 <= a <= b <= text.len()) by {
            assert(0 <= char_deletion(cs[k - 1], amount).0 <= char_deletion(cs[k - 1], amount).1
                <= text.len());
        }
        assert(0 <= e <= a) by {
            if k >= 2 {
                assert(char_deletion(cs[k - 2], amount).1 <= char_deletion(cs[k - 1], amount).0);
                assert(0 <= char_deletion(cs[k - 2], amount).0 <= char_deletion(cs[k - 2], amount).1);
            }
        }
        let extra = prev.1;
        let t = prev.0;
        assert(t.len() == p.len() + text.len() - e);
        let st = backspace_upto(text, cs, CursorMovement::Character, amount, boundaries, k);
        assert(st == backspace_step(prev, c, CursorMovement::Character, amount, 0));
        let (from, to) = deletion_range(c, extra, CursorMovement::Character, amount, 0);
        assert(from == a - extra && to == b - extra);
        assert(from == p.len() + (a - e));
        assert(t.subrange(0, from) =~= p + text.subrange(e, a));
        assert(t.subrange(to, t.len() as int) =~= text.subrange(b, text.len() as int));
        assert(t.subrange(from, to) =~= text.subrange(a, b));
        let np = removed_upto(text, cs, amount, k);
        assert(np == p + text.subrange(e, a));
        assert(st.0 =~= np + text.subrange(b, text.len() as int));
        assert(deletion_end(cs, amount, k as int) == b);
        assert forall|i: int|
            0 <= i < k implies #[trigger] st.2[i] == text.subrange(
                char_deletion(cs[i], amount).0,
                char_deletion(cs[i], amount).1,
            ) by {
            if i < k - 1 {
                assert(st.2[i] == prev.2[i]);
            }
        }
        assert forall|i: int|
            0 <= i < k implies #[trigger] st.3[i] == (CaratSnapshot {
                character_index: removed_upto(text, cs, amount, (i + 1) as nat).len() as usize,
                selection: None,
            }) by {
            if i < k - 1 {
                assert(st.3[i] == prev.3[i]);
            }
        }
    }
}

/// Deleting character by character at carats whose deletions lie in order
/// in the text takes each deletion out of the original text, as if all at
/// once: the new text is the original with every carat's selection (or,
/// for a carat without one, the `amount` characters before it) removed;
/// each carat records what it deleted there and stands where that was.
pub proof fn lemma_backspace_removes_ranges(
    text: Seq<char>,
    carats: Seq<CaratSnapshot>,
    amount: usize,
    boundaries: Seq<usize>,
)
    requires
        deletions_in_order(text.len() as int, carats, amount),
    ensures
        ({
            let n = carats.len();
            let r = backspace_upto(text, carats, CursorMovement::Character, amount, boundaries, n);
            &&& r.0 == removed_upto(text, carats, amount, n) + text.subrange(
                deletion_end(carats, amount, n as int),
                text.len() as int,
            )
            &&& r.2.len() == n
            &&& r.3.len() == n
            &&& forall|i: int|
                0 <= i < n ==> #[trigger] r.2[i] == text.subrange(
                    char_deletion(carats[i], amount).0,
                    char_deletion(carats[i], amount).1,
                )
            &&& forall|i: int|
                0 <= i < n ==> #[trigger] r.3[i] == (CaratSnapshot {
                    character_index: removed_upto(text, carats, amount, (i + 1) as nat).len() as usize,
                    selection: None,
                })
        }),
{
    lemma_backspace_shape(text, carats, amount, boundaries, carats.len());
}

/// Deletes behind every carat of a text field holding `text`, in turn:
/// each carat, shifted back by the deletions before it, deletes its
/// selection, or else `amount` characters, or, for a word or a line, back
/// to its entry in `boundaries` (the boundary in the text as it stands when
/// that carat's turn comes); nothing before the start of the text goes.
/// Each carat moves to the start of what it deleted. Gives the new text,
/// what each carat deleted, and the carats afterwards.
pub fn backspace_at_carats(
    text: &String,
    carats: &Vec<CaratSnapshot>,
    movement: CursorMovement,
    amount: usize,
    boundaries: &Vec<usize>,
) -> (r: (String, Vec<String>, Vec<CaratSnapshot>))
    requires
        movement != CursorMovement::Character ==> boundaries@.len() >= carats@.len(),
        backspace_ok(text@, carats@, movement, amount, boundaries@, carats@.len()),
    ensures
        ({
            let st = backspace_upto(text@, carats@, movement, amount, boundaries@, carats@.len());
            &&& r.0@ == st.0
            &&& strings_view(r.1@) == st.2
            &&& r.2@ == st.3
        }),
        r.1@.len() == carats@.len(),
        r.2@.len() == carats@.len(),
{
    let ghost b = boundaries@;
    let mut cur = String::from_str(text.as_str());
    let mut extra: i64 = 0;
    let mut deleted: Vec<String> = Vec::new();
    let mut after: Vec<CaratSnapshot> = Vec::new();
    let mut k: usize = 0;
    while k < carats.len()
        invariant
            b == boundaries@,
            movement != CursorMovement::Character ==> b.len() >= carats@.len(),
            k <= carats@.len(),
            backspace_ok(text@, carats@, movement, amount, b, carats@.len()),
            backspace_upto(text@, carats@, movement, amount, b, k as nat) == (
                cur@,
                extra as int,
                strings_view(deleted@),
                after@,
            ),
            deleted@.len() == k,
            after@.len() == k,
        decreases carats.len() - k,
    {
        proof {
            lemma_backspace_ok_prefix(text@, carats@, movement, amount, b, carats@.len(), (k + 1) as nat);
        }
        let c = &carats[k];
        let boundary: usize = if movement == CursorMovement::Character {
            0
        } else {
            boundaries[k]
        };
        let shifted = c.character_index as i64 - extra;
        let at: i64 = if shifted < 0 { 0 } else { shifted };
        let sel: Option<(i64, i64)> = match &c.selection {
            Some(r) => {
                let a = r.start as i64 - extra;
                let e = r.end as i64 - extra;
                if a < e {
                    Some((a, e))
                } else {
                    None
                }
            },
            None => None,
        };
        let (from, to): (i64, i64) = match sel {
            Some((a, e)) => (a, e),
            None => {
                let distance: i64 = if movement == CursorMovement::Character {
                    amount as i64
                } else {
                    at - boundary as i64
                };
                let f = at - distance;
                (if f < 0 { 0 } else { f }, at)
            },
        };
        let from = from as usize;
        let to = to as usize;
        let piece = substring(&cur, from, to);
        let empty = String::new();
        let next = splice(&cur, from, to, &empty);
        let ghost before_deleted = deleted@;
        deleted.push(piece);
        extra = extra + (to - from) as i64;
        after.push(CaratSnapshot::new(from, None));
        cur = next;
        proof {
            assert(strings_view(deleted@) =~= strings_view(before_deleted).push(
                strings_view(deleted@).last(),
            ));
        }
        k = k + 1;
    }
    (cur, deleted, after)
}

/// The text after undoing the first `k` carats' insertions of `s`, last
/// carat first: at each carat, the `s` that ends where the carat stands
/// gives way to what it replaced, if anything.
pub open spec fn insertion_undone(
    text: Seq<char>,
    after: Seq<CaratSnapshot>,
    replaced: Seq<Option<Seq<char>>>,
    s: Seq<char>,
    k: nat,
) -> Seq<char>
    decreases k,
{
    if k == 0 {
        text
    } else {
        let end = after[k - 1].character_index as int;
        insertion_undone(
            spliced(
                text,
                end - s.len(),
                end,
                match replaced[k - 1] {
                    Some(r) => r,
                    None => Seq::<char>::empty(),
                },
            ),
            after,
            replaced,
            s,
            (k - 1) as nat,
        )
    }
}

/// What a carat replaced, as text: nothing where it replaced nothing.
pub open spec fn replaced_text(r: Option<Seq<char>>) -> Seq<char> {
    match r {
        Some(t) => t,
        None => Seq::<char>::empty(),
    }
}

/// Undoing the first `k` carats' insertions of `s`, last carat first,
/// stays within the text: each carat stands at least `s`'s length in, and
/// within the text as it then is.
pub open spec fn insertion_undo_ok(
    text: Seq<char>,
    after: Seq<CaratSnapshot>,
    replaced: Seq<Option<Seq<char>>>,
    s: Seq<char>,
    k: nat,
) -> bool
    decreases k,
{
    k == 0 || {
        let end = after[k - 1].character_index as int;
        &&& 0 <= end - s.len()
        &&& end <= text.len()
        &&& insertion_undo_ok(
            spliced(text, end - s.len(), end, replaced_text(replaced[k - 1])),
            after,
            replaced,
            s,
            (k - 1) as nat,
        )
    }
}

/// Undoing the first `k` carats' deletions, last carat first, stays within
/// the text: each carat stands within the text as it then is.
pub open spec fn backspace_undo_ok(
    text: Seq<char>,
    after: Seq<CaratSnapshot>,
    deleted: Seq<Seq<char>>,
    k: nat,
) -> bool
    decreases k,
{
    k == 0 || {
        let at = after[k - 1].character_index as int;
        &&& at <= text.len()
        &&& backspace_undo_ok(spliced(text, at, at, deleted[k - 1]), after, deleted, (k - 1) as nat)
    }
}

/// The text after undoing the first `k` carats' deletions, last carat
/// first: what each carat deleted goes back in where the carat stands.
pub open spec fn backspace_undone(
    text: Seq<char>,
    after: Seq<CaratSnapshot>,
    deleted: Seq<Seq<char>>,
    k: nat,
) -> Seq<char>
    decreases k,
{
    if k == 0 {
        text
    } else {
        let at = after[k - 1].character_index as int;
        backspace_undone(spliced(text, at, at, deleted[k - 1]), after, deleted, (k - 1) as nat)
    }
}

proof fn lemma_insertion_lengths(text: Seq<char>, carats: Seq<CaratSnapshot>, s: Seq<char>, k: nat, n: nat)
    requires
        k <= n,
    ensures
        insertion_upto(text, carats, s, k).2.len() == k,
        insertion_upto(text, carats, s, k).3.len() == k,
        forall|j: int|
            0 <= j < k ==> (insertion_upto(text, carats, s, n).2[j]
                == #[trigger] insertion_upto(text, carats, s, k).2[j]),
        forall|j: int|
            0 <= j < k ==> (insertion_upto(text, carats, s, n).3[j]
                == #[trigger] insertion_upto(text, carats, s, k).3[j]),
    decreases n,
{
    if n > 0 {
        lemma_insertion_lengths(text, carats, s, (n - 1) as nat, (n - 1) as nat);
        if k < n {
            lemma_insertion_lengths(text, carats, s, k, (n - 1) as nat);
            let prev = insertion_upto(text, carats, s, (n - 1) as nat);
            let last = insertion_upto(text, carats, s, n);
            let mid = insertion_upto(text, carats, s, k);
            assert(last == insertion_step(prev, carats[n - 1], s));
            assert(last.2 =~= prev.2.push(last.2.last()));
            assert(last.3 =~= prev.3.push(last.3.last()));
            assert forall|j: int| 0 <= j < k implies last.2[j] == #[trigger] mid.2[j] by {
                assert(prev.2[j] == mid.2[j]);
            }
            assert forall|j: int| 0 <= j < k implies last.3[j] == #[trigger] mid.3[j] by {
                assert(prev.3[j] == mid.3[j]);
            }
        }
    }
}

/// Undoing one carat's insertion, right after it, gives back the text it
/// was made on.
proof fn lemma_insertion_step_undone(st: InsertionState, c: CaratSnapshot, s: Seq<char>)
    requires
        insertion_step_ok(st, c, s),
        st.2.len() == st.3.len(),
        s.len() <= i32::MAX,
    ensures
        ({
            let next = insertion_step(st, c, s);
            let k = st.3.len() as int;
            let end = next.3[k].character_index as int;
            &&& spliced(
                next.0,
                end - s.len(),
                end,
                match next.2[k] {
                    Some(r) => r,
                    None => Seq::<char>::empty(),
                },
            ) == st.0
            &&& 0 <= end - s.len()
            &&& end <= next.0.len()
        }),
{
    let (text, extra, replaced, after) = st;
    let next = insertion_step(st, c, s);
    let k = after.len() as int;
    let at = clamped(c.character_index + extra, 0, text.len() as int);
    match shifted_selection(c, extra) {
        Some((a, b)) => {
            assert(next.3[k].character_index == a + s.len());
            let back = spliced(next.0, a, a + s.len(), text.subrange(a, b));
            assert(back =~= text);
        },
        None => {
            assert(next.3[k].character_index == at + s.len());
            let back = spliced(next.0, at, at + s.len(), Seq::<char>::empty());
            assert(back =~= text);
        },
    }
}

/// Inserting at the carats can be undone: undoing every carat's insertion,
/// last carat first, gives back the text the insertion was made on. These
/// are the edits `TextInsertion::backward_edits` gives for the insertion's
/// text, its replaced texts and its carats afterwards.
pub proof fn lemma_insertion_undone(text: Seq<char>, carats: Seq<CaratSnapshot>, s: Seq<char>)
    requires
        s.len() <= i32::MAX,
        insertion_ok(text, consumed(carats), s, consumed(carats).len()),
    ensures
        ({
            let st = insertion(text, carats, s);
            &&& st.2.len() == st.3.len()
            &&& insertion_undo_ok(st.0, st.3, st.2, s, st.3.len())
            &&& insertion_undone(st.0, st.3, st.2, s, st.3.len()) == text
        }),
{
    let cs = consumed(carats);
    let n = cs.len();
    lemma_insertion_lengths(text, cs, s, n, n);
    let fin = insertion_upto(text, cs, s, n);
    assert forall|k: nat| k <= n implies insertion_undone(
        #[trigger] insertion_upto(text, cs, s, k).0,
        fin.3,
        fin.2,
        s,
        k,
    ) == text && insertion_undo_ok(insertion_upto(text, cs, s, k).0, fin.3, fin.2, s, k) by {
        lemma_insertion_undone_upto(text, cs, s, k, n);
    }
    assert(insertion_undone(fin.0, fin.3, fin.2, s, n) == text);
    assert(insertion_undo_ok(fin.0, fin.3, fin.2, s, n));
}

proof fn lemma_insertion_undone_upto(text: Seq<char>, cs: Seq<CaratSnapshot>, s: Seq<char>, k: nat, n: nat)
    requires
        s.len() <= i32::MAX,
        k <= n,
        n == cs.len(),
        insertion_ok(text, cs, s, n),
    ensures
        insertion_undone(
            insertion_upto(text, cs, s, k).0,
            insertion_upto(text, cs, s, n).3,
            insertion_upto(text, cs, s, n).2,
            s,
            k,
        ) == text,
        insertion_undo_ok(
            insertion_upto(text, cs, s, k).0,
            insertion_upto(text, cs, s, n).3,
            insertion_upto(text, cs, s, n).2,
            s,
            k,
        ),
    decreases k,
{
    if k > 0 {
        let fin = insertion_upto(text, cs, s, n);
        let prev = insertion_upto(text, cs, s, (k - 1) as nat);
        lemma_ok_prefix(text, cs, s, n, k);
        lemma_insertion_lengths(text, cs, s, (k - 1) as nat, n);
        lemma_insertion_lengths(text, cs, s, k, n);
        lemma_insertion_step_undone(prev, cs[k - 1], s);
        assert(fin.3[k - 1] == insertion_upto(text, cs, s, k).3[k - 1]);
        assert(fin.2[k - 1] == insertion_upto(text, cs, s, k).2[k - 1]);
        lemma_insertion_undone_upto(text, cs, s, (k - 1) as nat, n);
    }
}

proof fn lemma_backspace_lengths(
    text: Seq<char>,
    carats: Seq<CaratSnapshot>,
    movement: CursorMovement,
    amount: usize,
    boundaries: Seq<usize>,
    k: nat,
    n: nat,
)
    requires
        k <= n,
    ensures
        backspace_upto(text, carats, movement, amount, boundaries, k).2.len() == k,
        backspace_upto(text, carats, movement, amount, boundaries, k).3.len() == k,
        forall|j: int|
            0 <= j < k ==> (backspace_upto(text, carats, movement, amount, boundaries, n).2[j]
                == #[trigger] backspace_upto(text, carats, movement, amount, boundaries, k).2[j]),
        forall|j: int|
            0 <= j < k ==> (backspace_upto(text, carats, movement, amount, boundaries, n).3[j]
                == #[trigger] backspace_upto(text, carats, movement, amount, boundaries, k).3[j]),
    decreases n,
{
    if n > 0 {
        lemma_backspace_lengths(
            text,
            carats,
            movement,
            amount,
            boundaries,
            (n - 1) as nat,
            (n - 1) as nat,
        );
        if k < n {
            lemma_backspace_lengths(text, carats, movement, amount, boundaries, k, (n - 1) as nat);
            let prev = backspace_upto(text, carats, movement, amount, boundaries, (n - 1) as nat);
            let last = backspace_upto(text, carats, movement, amount, boundaries, n);
            let boundary = if movement == CursorMovement::Character {
                0
            } else {
                boundaries[n - 1]
            };
            let (from, to) = deletion_range(carats[n - 1], prev.1, movement, amount, boundary);
            assert(last.2 == prev.2.push(prev.0.subrange(from, to)));
            assert(last.3 == prev.3.push(
                CaratSnapshot { character_index: from as usize, selection: None },
            ));
            let mid = backspace_upto(text, carats, movement, amount, boundaries, k);
            assert forall|j: int| 0 <= j < k implies last.2[j] == #[trigger] mid.2[j] by {
                assert(prev.2[j] == mid.2[j]);
            }
            assert forall|j: int| 0 <= j < k implies last.3[j] == #[trigger] mid.3[j] by {
                assert(prev.3[j] == mid.3[j]);
            }
        }
    }
}

proof fn lemma_backspace_undone_upto(
    text: Seq<char>,
    cs: Seq<CaratSnapshot>,
    movement: CursorMovement,
    amount: usize,
    boundaries: Seq<usize>,
    k: nat,
    n: nat,
)
    requires
        k <= n,
        n == cs.len(),
        backspace_ok(text, cs, movement, amount, boundaries, n),
    ensures
        backspace_undone(
            backspace_upto(text, cs, movement, amount, boundaries, k).0,
            backspace_upto(text, cs, movement, amount, boundaries, n).3,
            backspace_upto(text, cs, movement, amount, boundaries, n).2,
            k,
        ) == text,
        backspace_undo_ok(
            backspace_upto(text, cs, movement, amount, boundaries, k).0,
            backspace_upto(text, cs, movement, amount, boundaries, n).3,
            backspace_upto(text, cs, movement, amount, boundaries, n).2,
            k,
        ),
    decreases k,
{
    if k > 0 {
        let fin = backspace_upto(text, cs, movement, amount, boundaries, n);
        let prev = backspace_upto(text, cs, movement, amount, boundaries, (k - 1) as nat);
        let cur = backspace_upto(text, cs, movement, amount, boundaries, k);
        lemma_backspace_ok_prefix(text, cs, movement, amount, boundaries, n, k);
        lemma_backspace_lengths(text, cs, movement, amount, boundaries, (k - 1) as nat, n);
        lemma_backspace_lengths(text, cs, movement, amount, boundaries, k, n);
        let boundary = if movement == CursorMovement::Character { 0 } else { boundaries[k - 1] };
        let (from, to) = deletion_range(cs[k - 1], prev.1, movement, amount, boundary);
        assert(fin.3[k - 1] == cur.3[k - 1]);
        assert(fin.2[k - 1] == cur.2[k - 1]);
        assert(cur.3[k - 1].character_index == from);
        assert(spliced(cur.0, from, from, prev.0.subrange(from, to)) =~= prev.0);
        lemma_backspace_undone_upto(text, cs, movement, amount, boundaries, (k - 1) as nat, n);
    }
}

/// Deleting behind the carats can be undone: putting back what each carat
/// deleted where it stands, last carat first, gives back the text the
/// backspace was made on. These are the edits `TextBackspace::backward_edits`
/// gives for the deleted texts and the carats afterwards.
pub proof fn lemma_backspace_undone(
    text: Seq<char>,
    carats: Seq<CaratSnapshot>,
    movement: CursorMovement,
    amount: usize,
    boundaries: Seq<usize>,
)
    requires
        backspace_ok(text, carats, movement, amount, boundaries, carats.len()),
    ensures
        ({
            let st = backspace_upto(text, carats, movement, amount, boundaries, carats.len());
            &&& st.2.len() == st.3.len()
            &&& backspace_undo_ok(st.0, st.3, st.2, st.3.len())
            &&& backspace_undone(st.0, st.3, st.2, st.3.len()) == text
        }),
{
    lemma_backspace_lengths(text, carats, movement, amount, boundaries, carats.len(), carats.len());
    lemma_backspace_undone_upto(text, carats, movement, amount, boundaries, carats.len(), carats.len());
}

/// The text with one edit made.
pub open spec fn edited(text: Seq<char>, e: TextEdit) -> Seq<char> {
    spliced(text, e.range.start as int, e.range.end as int, e.replacement@)
}

/// Makes an edit: the characters in its range give way to its
/// replacement. The range must lie within the text, in order.
pub fn apply_edit(text: &String, e: &TextEdit) -> (r: String)
    requires
        e.range.start <= e.range.end <= text@.len(),
    ensures
        r@ == edited(text@, *e),
{
    splice(text, e.range.start, e.range.end, &e.replacement)
}

} // verus!
