//! Undoable text-field actions: what they remember, how consecutive ones
//! merge into one, and which edits undo them.

use vstd::prelude::*;
use vstd::string::*;
use crate::handle::WeakView;
use crate::carats::consumed;
use crate::editing::{
    backspace_at_carats,
    backspace_ok,
    backspace_undo_ok,
    backspace_undone,
    backspace_upto,
    insert_at_carats,
    insertion,
    insertion_ok,
    insertion_undo_ok,
    insertion_undone,
    lemma_backspace_undone,
    lemma_insertion_undone,
    splice,
};

verus! {

/// How far a backspace reaches from a carat.
#[derive(Clone, Copy, Debug, PartialEq, Eq, Structural)]
pub enum CursorMovement {
    Character,
    Word,
    Line,
}

/// A snapshot of a carat's state for tracking along with history.
#[derive(Debug)]
pub struct CaratSnapshot {
    pub character_index: usize,
    pub selection: Option<std::ops::Range<usize>>,
}

/// Two selections overlap: both exist and each starts before the other ends.
pub open spec fn selections_intersect(
    a: Option<std::ops::Range<usize>>,
    b: Option<std::ops::Range<usize>>,
) -> bool {
    match (a, b) {
        (Some(x), Some(y)) => x.start < y.end && y.start < x.end,
        _ => false,
    }
}

/// Overlap does not depend on which selection is asked first.
pub proof fn lemma_intersection_is_symmetric(
    a: Option<std::ops::Range<usize>>,
    b: Option<std::ops::Range<usize>>,
)
    ensures
        selections_intersect(a, b) == selections_intersect(b, a),
        a is None ==> !selections_intersect(a, b),
{
}

impl CaratSnapshot {
    pub fn new(character_index: usize, selection: Option<std::ops::Range<usize>>) -> (s: Self)
        ensures
            s.character_index == character_index,
            s.selection == selection,
    {
        CaratSnapshot { character_index, selection }
    }

    pub fn character_index(&self) -> (i: usize)
        ensures
            i == self.character_index,
    {
        self.character_index
    }

    pub fn selection(&self) -> (s: &Option<std::ops::Range<usize>>)
        ensures
            *s == self.selection,
    {
        &self.selection
    }

    /// Whether this snapshot's selection overlaps the other's. Snapshots
    /// without a selection overlap nothing; ranges that only touch do not
    /// overlap.
    pub fn selection_intersects(&self, other: &CaratSnapshot) -> (r: bool)
        ensures
            r == selections_intersect(self.selection, other.selection),
    {
        match (&self.selection, &other.selection) {
            (Some(a), Some(b)) => a.start < b.end && b.start < a.end,
            _ => false,
        }
    }

    /// An equal copy of the snapshot.
    pub fn duplicate(&self) -> (s: CaratSnapshot)
        ensures
            s == *self,
    {
        let selection = match &self.selection {
            Some(r) => Some(std::ops::Range { start: r.start, end: r.end }),
            None => None,
        };
        CaratSnapshot { character_index: self.character_index, selection }
    }

    /// Whether the two snapshots hold the same index and the same selection.
    pub fn same_as(&self, other: &CaratSnapshot) -> (r: bool)
        ensures
            r == (*self == *other),
    {
        if self.character_index != other.character_index {
            return false;
        }
        match (&self.selection, &other.selection) {
            (Some(a), Some(b)) => a.start == b.start && a.end == b.end,
            (None, None) => true,
            _ => false,
        }
    }
}

impl Clone for CaratSnapshot {
    fn clone(&self) -> (s: Self)
        ensures
            s == *self,
    {
        self.duplicate()
    }
}

impl PartialEq for CaratSnapshot {
    fn eq(&self, other: &Self) -> (r: bool) {
        self.same_as(other)
    }
}

impl vstd::std_specs::cmp::PartialEqSpecImpl for CaratSnapshot {
    open spec fn obeys_eq_spec() -> bool {
        true
    }

    open spec fn eq_spec(&self, other: &Self) -> bool {
        *self == *other
    }
}

/// Whether two lists of snapshots are equal, element by element.
pub fn snapshots_equal(a: &Vec<CaratSnapshot>, b: &Vec<CaratSnapshot>) -> (r: bool)
    ensures
        r == (a@ == b@),
{
    if a.len() != b.len() {
        return false;
    }
    let mut i: usize = 0;
    while i < a.len()
        invariant
            a.len() == b.len(),
            i <= a.len(),
            forall|j: int| 0 <= j < i ==> a@[j] == b@[j],
        decreases a.len() - i,
    {
        if !a[i].same_as(&b[i]) {
            return false;
        }
        i = i + 1;
    }
    assert(a@ =~= b@);
    true
}

/// An equal copy of a list of snapshots.
pub fn duplicate_snapshots(a: &Vec<CaratSnapshot>) -> (r: Vec<CaratSnapshot>)
    ensures
        r@ == a@,
{
    let mut r: Vec<CaratSnapshot> = Vec::new();
    let mut i: usize = 0;
    while i < a.len()
        invariant
            i <= a.len(),
            r@ == a@.take(i as int),
        decreases a.len() - i,
    {
        r.push(a[i].duplicate());
        assert(a@.take(i + 1) == a@.take(i as int).push(a@[i as int]));
        i = i + 1;
    }
    assert(a@.take(a.len() as int) =~= a@);
    r
}

/// One edit of a text field's text: the characters in `range` give way to
/// `replacement`.
#[derive(Debug)]
pub struct TextEdit {
    pub range: std::ops::Range<usize>,
    pub replacement: String,
}

/// A reversible action that inserts text into a text field.
#[derive(Debug)]
pub struct TextInsertion {
    pub view: WeakView,
    pub text: String,
    pub cursors_before: Vec<CaratSnapshot>,
    pub cursors_after: Vec<CaratSnapshot>,
    pub text_replaced: Vec<Option<String>>,
}

/// A reversible action that deletes text behind the carats of a text field.
#[derive(Debug)]
pub struct TextBackspace {
    pub view: WeakView,
    pub count: usize,
    pub cursor_movement: CursorMovement,
    pub cursors_before: Vec<CaratSnapshot>,
    pub texts_deleted: Vec<String>,
    pub cursors_after: Vec<CaratSnapshot>,
}

/// The characters of a list of optional strings.
pub open spec fn option_strings_view(v: Seq<Option<String>>) -> Seq<Option<Seq<char>>> {
    v.map_values(|o: Option<String>| match o {
        Some(s) => Some(s@),
        None => None,
    })
}

/// The characters of a list of strings.
pub open spec fn strings_view(v: Seq<String>) -> Seq<Seq<char>> {
    v.map_values(|s: String| s@)
}

/// What the merged insertion remembers as replaced text, one entry for each
/// of the first `n` carats of the earlier insertion: a carat that replaced
/// nothing stays so; one that replaced text keeps it, followed by what the
/// later insertion replaced at the same carat, if anything.
pub open spec fn merged_replaced(
    first: Seq<Option<Seq<char>>>,
    second: Seq<Option<Seq<char>>>,
    n: nat,
) -> Seq<Option<Seq<char>>>
    decreases n,
{
    if n == 0 {
        seq![]
    } else {
        let i = n - 1;
        let before = merged_replaced(first, second, (n - 1) as nat);
        match first[i] {
            None => before.push(None),
            Some(t) => if i < second.len() {
                match second[i] {
                    Some(o) => before.push(Some(t + o)),
                    None => before.push(Some(t)),
                }
            } else {
                before.push(Some(t))
            },
        }
    }
}

/// A merged insertion keeps one replaced text for each carat.
pub proof fn lemma_merged_replaced_len(
    first: Seq<Option<Seq<char>>>,
    second: Seq<Option<Seq<char>>>,
    n: nat,
)
    ensures
        merged_replaced(first, second, n).len() == n,
    decreases n,
{
    if n > 0 {
        lemma_merged_replaced_len(first, second, (n - 1) as nat);
    }
}

/// What the merged backspace remembers as deleted text for the first `n`
/// carats: the later deletion's text followed by the earlier one's.
pub open spec fn merged_deleted(first: Seq<Seq<char>>, second: Seq<Seq<char>>, n: nat) -> Seq<
    Seq<char>,
>
    decreases n,
{
    if n == 0 {
        seq![]
    } else {
        merged_deleted(first, second, (n - 1) as nat).push(second[n - 1] + first[n - 1])
    }
}

fn copy_string(s: &String) -> (r: String)
    ensures
        r@ == s@,
{
    s.clone()
}

impl TextInsertion {
    pub fn new(view: WeakView, text: String, cursors_before: Vec<CaratSnapshot>) -> (t:
        TextInsertion)
        ensures
            t.view == view,
            t.text@ == text@,
            t.cursors_before@ == cursors_before@,
            t.cursors_after@.len() == 0,
            t.text_replaced@.len() == 0,
    {
        TextInsertion {
            view,
            text,
            cursors_before,
            cursors_after: Vec::new(),
            text_replaced: Vec::new(),
        }
    }

    pub fn name(&self) -> (n: &'static str)
        ensures
            n@ == "TextInsertion"@,
    {
        "TextInsertion"
    }

    /// Records what performing the insertion did: the text each carat
    /// replaced, and the carats afterwards.
    pub fn did_forward(&mut self, text_replaced: Vec<Option<String>>, cursors_after: Vec<
        CaratSnapshot,
    >)
        ensures
            final(self).view == old(self).view,
            final(self).text@ == old(self).text@,
            final(self).cursors_before@ == old(self).cursors_before@,
            final(self).cursors_after@ == cursors_after@,
            final(self).text_replaced@ == text_replaced@,
    {
        self.text_replaced = text_replaced;
        self.cursors_after = cursors_after;
    }

    /// Performs the insertion on a text field holding `text`: the inserted
    /// text goes in at the carats it started from (`insert_at_carats`), and
    /// the insertion records what each carat replaced and the carats
    /// afterwards. Gives the new text.
    pub fn forward(&mut self, text: &String) -> (r: String)
        requires
            old(self).text@.len() <= i32::MAX,
            insertion_ok(
                text@,
                consumed(old(self).cursors_before@),
                old(self).text@,
                consumed(old(self).cursors_before@).len(),
            ),
        ensures
            ({
                let st = insertion(text@, old(self).cursors_before@, old(self).text@);
                &&& r@ == st.0
                &&& option_strings_view(final(self).text_replaced@) == st.2
                &&& final(self).cursors_after@ == st.3
            }),
            final(self).view == old(self).view,
            final(self).text@ == old(self).text@,
            final(self).cursors_before@ == old(self).cursors_before@,
    {
        let (new_text, replaced, after) = insert_at_carats(text, &self.cursors_before, &self.text);
        self.text_replaced = replaced;
        self.cursors_after = after;
        new_text
    }

    /// Undoes the insertion on a text field holding `text`: last carat
    /// first, the inserted text ending at each carat gives way to what that
    /// carat replaced; then the carats go back to where they were before.
    /// Gives the text and the carats; nothing, and no change, when the
    /// insertion was never performed.
    pub fn backward(&self, text: &String) -> (r: Option<(String, Vec<CaratSnapshot>)>)
        requires
            self.cursors_after@.len() > 0 ==> {
                &&& self.text_replaced@.len() <= self.cursors_after@.len()
                &&& insertion_undo_ok(
                    text@,
                    self.cursors_after@,
                    option_strings_view(self.text_replaced@),
                    self.text@,
                    self.text_replaced@.len(),
                )
            },
        ensures
            r is None <==> self.cursors_after@.len() == 0,
            r matches Some((t, c)) ==> {
                &&& t@ == insertion_undone(
                    text@,
                    self.cursors_after@,
                    option_strings_view(self.text_replaced@),
                    self.text@,
                    self.text_replaced@.len(),
                )
                &&& c@ == self.cursors_before@
            },
    {
        if self.cursors_after.len() == 0 {
            return None;
        }
        let ghost a = self.cursors_after@;
        let ghost rv = option_strings_view(self.text_replaced@);
        let ghost n = self.text_replaced@.len();
        let slen = self.text.as_str().unicode_len();
        let mut cur = copy_string(text);
        let mut k: usize = self.text_replaced.len();
        while k > 0
            invariant
                k <= n,
                n == self.text_replaced@.len(),
                n <= a.len(),
                a == self.cursors_after@,
                rv == option_strings_view(self.text_replaced@),
                slen == self.text@.len(),
                insertion_undone(text@, a, rv, self.text@, n) == insertion_undone(
                    cur@,
                    a,
                    rv,
                    self.text@,
                    k as nat,
                ),
                insertion_undo_ok(cur@, a, rv, self.text@, k as nat),
            decreases k,
        {
            let end = self.cursors_after[k - 1].character_index;
            let start = end - slen;
            let replacement = match &self.text_replaced[k - 1] {
                Some(t) => copy_string(t),
                None => String::new(),
            };
            proof {
                assert(replacement@ == crate::editing::replaced_text(rv[k - 1]));
            }
            cur = splice(&cur, start, end, &replacement);
            k = k - 1;
        }
        Some((cur, duplicate_snapshots(&self.cursors_before)))
    }

    /// `m` is this insertion merged with the one that followed it: it
    /// inserts both texts, from this one's carats to the other's, and
    /// remembers the replaced texts as `merged_replaced` pairs them.
    pub open spec fn merged_into(self, other: TextInsertion, m: TextInsertion) -> bool {
        &&& m.view == self.view
        &&& m.text@ == self.text@ + other.text@
        &&& m.cursors_before@ == self.cursors_before@
        &&& m.cursors_after@ == other.cursors_after@
        &&& option_strings_view(m.text_replaced@) == merged_replaced(
            option_strings_view(self.text_replaced@),
            option_strings_view(other.text_replaced@),
            self.text_replaced@.len(),
        )
    }

    /// Merges this insertion with the one that followed it, if that one
    /// started where this one left the carats.
    pub fn merge(&self, other: &TextInsertion) -> (r: Option<TextInsertion>)
        ensures
            r.is_some() <==> self.cursors_after@ == other.cursors_before@,
            r matches Some(m) ==> self.merged_into(*other, m),
            r matches Some(m) ==> m.text_replaced@.len() == self.text_replaced@.len(),
    {
        if !snapshots_equal(&self.cursors_after, &other.cursors_before) {
            return None;
        }
        let text = copy_string(&self.text).concat(other.text.as_str());
        let ghost first = option_strings_view(self.text_replaced@);
        let ghost second = option_strings_view(other.text_replaced@);
        let mut combo: Vec<Option<String>> = Vec::new();
        let mut index: usize = 0;
        while index < self.text_replaced.len()
            invariant
                index <= self.text_replaced@.len(),
                first == option_strings_view(self.text_replaced@),
                second == option_strings_view(other.text_replaced@),
                option_strings_view(combo@) == merged_replaced(first, second, index as nat),
            decreases self.text_replaced.len() - index,
        {
            let ghost before = combo@;
            match &self.text_replaced[index] {
                Some(replaced) => {
                    if index < other.text_replaced.len() {
                        match &other.text_replaced[index] {
                            Some(other_replaced) => {
                                combo.push(
                                    Some(copy_string(replaced).concat(other_replaced.as_str())),
                                );
                            },
                            None => {
                                combo.push(Some(copy_string(replaced)));
                            },
                        }
                    } else {
                        combo.push(Some(copy_string(replaced)));
                    }
                },
                None => {
                    combo.push(None);
                },
            }
            assert(option_strings_view(combo@) =~= merged_replaced(
                first,
                second,
                (index + 1) as nat,
            ));
            index = index + 1;
        }
        proof {
            lemma_merged_replaced_len(first, second, index as nat);
            assert(combo@.len() == option_strings_view(combo@).len());
        }
        Some(
            TextInsertion {
                view: self.view,
                text,
                cursors_before: duplicate_snapshots(&self.cursors_before),
                cursors_after: duplicate_snapshots(&other.cursors_after),
                text_replaced: combo,
            },
        )
    }
}


impl TextInsertion {
    /// Whether undoing can run: each carat that replaced text has a carat
    /// afterwards, standing at least the inserted text's length in.
    /// Indexes count characters.
    pub open spec fn can_undo(self) -> bool {
        self.cursors_after@.len() > 0 ==> {
            &&& self.text_replaced@.len() <= self.cursors_after@.len()
            &&& forall|i: int|
                0 <= i < self.text_replaced@.len() ==> self.text@.len()
                    <= #[trigger] self.cursors_after@[i].character_index
        }
    }

    /// The edit that undoes the insertion at carat `i`: the inserted text,
    /// ending at the carat, gives way to what it replaced (or nothing).
    pub open spec fn undo_edit_matches(self, i: int, e: TextEdit) -> bool {
        let end = self.cursors_after@[i].character_index;
        &&& e.range.end == end
        &&& e.range.start == end - self.text@.len()
        &&& e.replacement@ == match self.text_replaced@[i] {
            Some(t) => t@,
            None => Seq::<char>::empty(),
        }
    }

    /// The edits that undo the insertion, last carat first; nothing when the
    /// insertion was never performed. After them the text field restores
    /// `cursors_before`.
    pub fn backward_edits(&self) -> (r: Option<Vec<TextEdit>>)
        requires
            self.can_undo(),
        ensures
            r.is_none() <==> self.cursors_after@.len() == 0,
            r matches Some(edits) ==> {
                &&& edits@.len() == self.text_replaced@.len()
                &&& forall|k: int|
                    0 <= k < edits@.len() ==> self.undo_edit_matches(
                        self.text_replaced@.len() - 1 - k,
                        #[trigger] edits@[k],
                    )
            },
    {
        if self.cursors_after.len() == 0 {
            return None;
        }
        let text_len = self.text.as_str().unicode_len();
        let mut edits: Vec<TextEdit> = Vec::new();
        let n = self.text_replaced.len();
        let mut k: usize = 0;
        while k < n
            invariant
                n == self.text_replaced@.len(),
                self.can_undo(),
                self.cursors_after@.len() > 0,
                text_len == self.text@.len(),
                k <= n,
                edits@.len() == k,
                forall|j: int|
                    0 <= j < k ==> self.undo_edit_matches(n - 1 - j, #[trigger] edits@[j]),
            decreases n - k,
        {
            let i = n - 1 - k;
            let end = self.cursors_after[i].character_index;
            assert(self.text@.len() <= self.cursors_after@[i as int].character_index);
            let start = end - text_len;
            let replacement = match &self.text_replaced[i] {
                Some(t) => copy_string(t),
                None => String::new(),
            };
            edits.push(TextEdit { range: std::ops::Range { start, end }, replacement });
            k = k + 1;
        }
        Some(edits)
    }
}

impl TextBackspace {
    pub fn new(
        view: WeakView,
        count: usize,
        cursor_movement: CursorMovement,
        cursors_before: Vec<CaratSnapshot>,
    ) -> (t: TextBackspace)
        ensures
            t.view == view,
            t.count == count,
            t.cursor_movement == cursor_movement,
            t.cursors_before@ == cursors_before@,
            t.texts_deleted@.len() == 0,
            t.cursors_after@.len() == 0,
    {
        TextBackspace {
            view,
            count,
            cursor_movement,
            cursors_before,
            texts_deleted: Vec::new(),
            cursors_after: Vec::new(),
        }
    }

    pub fn name(&self) -> (n: &'static str)
        ensures
            n@ == "TextBackspace"@,
    {
        "TextBackspace"
    }

    /// Records what performing the backspace did: the text deleted at each
    /// carat, and the carats afterwards.
    pub fn did_forward(&mut self, texts_deleted: Vec<String>, cursors_after: Vec<CaratSnapshot>)
        ensures
            final(self).view == old(self).view,
            final(self).count == old(self).count,
            final(self).cursor_movement == old(self).cursor_movement,
            final(self).cursors_before@ == old(self).cursors_before@,
            final(self).texts_deleted@ == texts_deleted@,
            final(self).cursors_after@ == cursors_after@,
    {
        self.texts_deleted = texts_deleted;
        self.cursors_after = cursors_after;
    }

    /// Performs the backspace on a text field holding `text`: each carat it
    /// started from deletes `count` characters, or its selection, or back to
    /// its entry in `boundaries` for a word or a line (`backspace_at_carats`),
    /// and the backspace records what each carat deleted and the carats
    /// afterwards. Gives the new text.
    pub fn forward(&mut self, text: &String, boundaries: &Vec<usize>) -> (r: String)
        requires
            old(self).cursor_movement != CursorMovement::Character ==> boundaries@.len()
                >= old(self).cursors_before@.len(),
            backspace_ok(
                text@,
                old(self).cursors_before@,
                old(self).cursor_movement,
                old(self).count,
                boundaries@,
                old(self).cursors_before@.len(),
            ),
        ensures
            ({
                let st = backspace_upto(
                    text@,
                    old(self).cursors_before@,
                    old(self).cursor_movement,
                    old(self).count,
                    boundaries@,
                    old(self).cursors_before@.len(),
                );
                &&& r@ == st.0
                &&& strings_view(final(self).texts_deleted@) == st.2
                &&& final(self).cursors_after@ == st.3
            }),
            final(self).view == old(self).view,
            final(self).count == old(self).count,
            final(self).cursor_movement == old(self).cursor_movement,
            final(self).cursors_before@ == old(self).cursors_before@,
    {
        let (new_text, deleted, after) = backspace_at_carats(
            text,
            &self.cursors_before,
            self.cursor_movement,
            self.count,
            boundaries,
        );
        self.texts_deleted = deleted;
        self.cursors_after = after;
        new_text
    }

    /// Undoes the backspace on a text field holding `text`: last carat
    /// first, what each carat deleted goes back in where it stands; then
    /// the carats go back to where they were before. Gives the text and the
    /// carats; nothing, and no change, when the backspace was never
    /// performed.
    pub fn backward(&self, text: &String) -> (r: Option<(String, Vec<CaratSnapshot>)>)
        requires
            self.cursors_after@.len() > 0 ==> {
                &&& self.texts_deleted@.len() <= self.cursors_after@.len()
                &&& backspace_undo_ok(
                    text@,
                    self.cursors_after@,
                    strings_view(self.texts_deleted@),
                    self.texts_deleted@.len(),
                )
            },
        ensures
            r is None <==> self.cursors_after@.len() == 0,
            r matches Some((t, c)) ==> {
                &&& t@ == backspace_undone(
                    text@,
                    self.cursors_after@,
                    strings_view(self.texts_deleted@),
                    self.texts_deleted@.len(),
                )
                &&& c@ == self.cursors_before@
            },
    {
        if self.cursors_after.len() == 0 {
            return None;
        }
        let ghost a = self.cursors_after@;
        let ghost dv = strings_view(self.texts_deleted@);
        let ghost n = self.texts_deleted@.len();
        let mut cur = copy_string(text);
        let mut k: usize = self.texts_deleted.len();
        while k > 0
            invariant
                k <= n,
                n == self.texts_deleted@.len(),
                n <= a.len(),
                a == self.cursors_after@,
                dv == strings_view(self.texts_deleted@),
                backspace_undone(text@, a, dv, n) == backspace_undone(cur@, a, dv, k as nat),
                backspace_undo_ok(cur@, a, dv, k as nat),
            decreases k,
        {
            let at = self.cursors_after[k - 1].character_index;
            cur = splice(&cur, at, at, &self.texts_deleted[k - 1]);
            k = k - 1;
        }
        Some((cur, duplicate_snapshots(&self.cursors_before)))
    }

    /// `m` is this backspace merged with the one that followed it: it
    /// deletes both counts, from this one's carats to the other's, and
    /// remembers the deleted texts as `merged_deleted` pairs them.
    pub open spec fn merged_into(self, other: TextBackspace, m: TextBackspace) -> bool {
        &&& m.view == self.view
        &&& m.count == self.count + other.count
        &&& m.cursor_movement == self.cursor_movement
        &&& m.cursors_before@ == self.cursors_before@
        &&& m.cursors_after@ == other.cursors_after@
        &&& strings_view(m.texts_deleted@) == merged_deleted(
            strings_view(self.texts_deleted@),
            strings_view(other.texts_deleted@),
            self.texts_deleted@.len(),
        )
    }

    /// The two backspaces can merge: the second started where the first left
    /// the carats, with the same kind of movement.
    pub open spec fn mergeable(self, other: TextBackspace) -> bool {
        &&& self.cursors_after@ == other.cursors_before@
        &&& self.cursor_movement == other.cursor_movement
    }

    /// Merges this backspace with the one that followed it: the merged
    /// action deletes both counts and remembers, per carat, the later
    /// deletion's text followed by the earlier one's.
    pub fn merge(&self, other: &TextBackspace) -> (r: Option<TextBackspace>)
        requires
            self.mergeable(*other) ==> {
                &&& self.texts_deleted@.len() <= other.texts_deleted@.len()
                &&& self.count + other.count <= usize::MAX
            },
        ensures
            r.is_some() <==> self.mergeable(*other),
            r matches Some(m) ==> self.merged_into(*other, m),
    {
        if !snapshots_equal(&self.cursors_after, &other.cursors_before) {
            return None;
        }
        if self.cursor_movement != other.cursor_movement {
            return None;
        }
        let ghost first = strings_view(self.texts_deleted@);
        let ghost second = strings_view(other.texts_deleted@);
        let mut combo: Vec<String> = Vec::new();
        let mut index: usize = 0;
        while index < self.texts_deleted.len()
            invariant
                index <= self.texts_deleted@.len(),
                self.texts_deleted@.len() <= other.texts_deleted@.len(),
                first == strings_view(self.texts_deleted@),
                second == strings_view(other.texts_deleted@),
                strings_view(combo@) == merged_deleted(first, second, index as nat),
            decreases self.texts_deleted.len() - index,
        {
            let other_deleted = &other.texts_deleted[index];
            combo.push(copy_string(other_deleted).concat(self.texts_deleted[index].as_str()));
            assert(strings_view(combo@) =~= merged_deleted(first, second, (index + 1) as nat));
            index = index + 1;
        }
        let mut merged = TextBackspace::new(
            self.view,
            self.count + other.count,
            self.cursor_movement,
            duplicate_snapshots(&self.cursors_before),
        );
        merged.cursors_after = duplicate_snapshots(&other.cursors_after);
        merged.texts_deleted = combo;
        Some(merged)
    }

    /// Whether undoing can run: each deleted text has a carat afterwards.
    pub open spec fn can_undo(self) -> bool {
        self.cursors_after@.len() > 0 ==> self.texts_deleted@.len()
            <= self.cursors_after@.len()
    }

    /// The edits that undo the backspace, last carat first: each deleted text
    /// goes back in at its carat. Nothing when the backspace was never
    /// performed. After them the text field restores `cursors_before`.
    pub fn backward_edits(&self) -> (r: Option<Vec<TextEdit>>)
        requires
            self.can_undo(),
        ensures
            r.is_none() <==> self.cursors_after@.len() == 0,
            r matches Some(edits) ==> {
                &&& edits@.len() == self.texts_deleted@.len()
                &&& forall|k: int|
                    0 <= k < edits@.len() ==> {
                        let i = self.texts_deleted@.len() - 1 - k;
                        let at = self.cursors_after@[i].character_index;
                        &&& (#[trigger] edits@[k]).range.start == at
                        &&& edits@[k].range.end == at
                        &&& edits@[k].replacement@ == self.texts_deleted@[i]@
                    }
            },
    {
        if self.cursors_after.len() == 0 {
            return None;
        }
        let mut edits: Vec<TextEdit> = Vec::new();
        let n = self.texts_deleted.len();
        let mut k: usize = 0;
        while k < n
            invariant
                n == self.texts_deleted@.len(),
                self.can_undo(),
                self.cursors_after@.len() > 0,
                k <= n,
                edits@.len() == k,
                forall|j: int|
                    0 <= j < k ==> {
                        let i = n - 1 - j;
                        let at = self.cursors_after@[i].character_index;
                        &&& (#[trigger] edits@[j]).range.start == at
                        &&& edits@[j].range.end == at
                        &&& edits@[j].replacement@ == self.texts_deleted@[i]@
                    },
            decreases n - k,
        {
            let i = n - 1 - k;
            let at = self.cursors_after[i].character_index;
            edits.push(
                TextEdit {
                    range: std::ops::Range { start: at, end: at },
                    replacement: copy_string(&self.texts_deleted[i]),
                },
            );
            k = k + 1;
        }
        Some(edits)
    }
}

/// An entry of a text field's undo history.
#[derive(Debug)]
pub enum TextAction {
    Insertion(TextInsertion),
    Backspace(TextBackspace),
}

impl TextAction {
    pub fn name(&self) -> (n: &'static str)
        ensures
            n@ == (match self {
                TextAction::Insertion(_) => "TextInsertion"@,
                TextAction::Backspace(_) => "TextBackspace"@,
            }),
    {
        match self {
            TextAction::Insertion(t) => t.name(),
            TextAction::Backspace(t) => t.name(),
        }
    }

    /// Merges an action with the one that followed it. Actions of different
    /// kinds never merge; those of one kind merge as that kind's `merge`
    /// says.
    pub fn merge(&self, other: &TextAction) -> (r: Option<TextAction>)
        requires
            (self, other) matches (TextAction::Backspace(a), TextAction::Backspace(b)) ==> (
            a.mergeable(*b) ==> {
                &&& a.texts_deleted@.len() <= b.texts_deleted@.len()
                &&& a.count + b.count <= usize::MAX
            }),
        ensures
            match (self, other) {
                (TextAction::Insertion(a), TextAction::Insertion(b)) => r.is_some() <==> a.cursors_after@
                    == b.cursors_before@,
                (TextAction::Backspace(a), TextAction::Backspace(b)) => r.is_some() <==> a.mergeable(
                    *b,
                ),
                _ => r.is_none(),
            },
            r matches Some(m) ==> match (self, other, m) {
                (
                    TextAction::Insertion(a),
                    TextAction::Insertion(b),
                    TextAction::Insertion(c),
                ) => a.merged_into(*b, c),
                (
                    TextAction::Backspace(a),
                    TextAction::Backspace(b),
                    TextAction::Backspace(c),
                ) => a.merged_into(*b, c),
                _ => false,
            },
    {
        match (self, other) {
            (TextAction::Insertion(a), TextAction::Insertion(b)) => match a.merge(b) {
                Some(m) => Some(TextAction::Insertion(m)),
                None => None,
            },
            (TextAction::Backspace(a), TextAction::Backspace(b)) => match a.merge(b) {
                Some(m) => Some(TextAction::Backspace(m)),
                None => None,
            },
            _ => None,
        }
    }
}

/// An insertion undone right after it was performed gives back the text it
/// was performed on: when `after` is the insertion as `forward` leaves it
/// for `text` (giving `new_text`), its `backward` on `new_text` can run and
/// gives back `text` and the carats it started from.
pub proof fn lemma_insertion_forward_backward(after: TextInsertion, text: Seq<char>, new_text: Seq<char>)
    requires
        after.text@.len() <= i32::MAX,
        insertion_ok(
            text,
            consumed(after.cursors_before@),
            after.text@,
            consumed(after.cursors_before@).len(),
        ),
        ({
            let st = insertion(text, after.cursors_before@, after.text@);
            &&& new_text == st.0
            &&& option_strings_view(after.text_replaced@) == st.2
            &&& after.cursors_after@ == st.3
        }),
    ensures
        after.text_replaced@.len() == after.cursors_after@.len(),
        insertion_undo_ok(
            new_text,
            after.cursors_after@,
            option_strings_view(after.text_replaced@),
            after.text@,
            after.text_replaced@.len(),
        ),
        insertion_undone(
            new_text,
            after.cursors_after@,
            option_strings_view(after.text_replaced@),
            after.text@,
            after.text_replaced@.len(),
        ) == text,
{
    lemma_insertion_undone(text, after.cursors_before@, after.text@);
    assert(option_strings_view(after.text_replaced@).len() == after.text_replaced@.len());
}

/// A backspace undone right after it was performed gives back the text it
/// was performed on: when `after` is the backspace as `forward` leaves it
/// for `text` and `boundaries` (giving `new_text`), its `backward` on
/// `new_text` can run and gives back `text` and the carats it started from.
pub proof fn lemma_backspace_forward_backward(
    after: TextBackspace,
    text: Seq<char>,
    boundaries: Seq<usize>,
    new_text: Seq<char>,
)
    requires
        backspace_ok(
            text,
            after.cursors_before@,
            after.cursor_movement,
            after.count,
            boundaries,
            after.cursors_before@.len(),
        ),
        ({
            let st = backspace_upto(
                text,
                after.cursors_before@,
                after.cursor_movement,
                after.count,
                boundaries,
                after.cursors_before@.len(),
            );
            &&& new_text == st.0
            &&& strings_view(after.texts_deleted@) == st.2
            &&& after.cursors_after@ == st.3
        }),
    ensures
        after.texts_deleted@.len() == after.cursors_after@.len(),
        backspace_undo_ok(
            new_text,
            after.cursors_after@,
            strings_view(after.texts_deleted@),
            after.texts_deleted@.len(),
        ),
        backspace_undone(
            new_text,
            after.cursors_after@,
            strings_view(after.texts_deleted@),
            after.texts_deleted@.len(),
        ) == text,
{
    lemma_backspace_undone(
        text,
        after.cursors_before@,
        after.cursor_movement,
        after.count,
        boundaries,
    );
    assert(strings_view(after.texts_deleted@).len() == after.texts_deleted@.len());
}

} // verus!
