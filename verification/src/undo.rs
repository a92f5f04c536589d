//! Undo history: edits grouped into undoable units.
use vstd::prelude::*;
use crate::strs::{byte_len, char_to_string, string_push, str_to_string};

verus! {

/// One recorded change of a buffer's text: `text` was inserted at, or
/// deleted from, char index `pos`.
pub enum EditKind {
    Insert { pos: usize, text: String },
    Delete { pos: usize, text: String },
}

/// Edits undone and redone together, with the cursor from before them.
pub struct EditGroup {
    pub edits: Vec<EditKind>,
    pub cursor_before: usize,
}

/// The undo and redo stacks, and the group being collected in insert mode.
pub struct UndoStack {
    pub(crate) undo: Vec<EditGroup>,
    pub(crate) redo: Vec<EditGroup>,
    pub(crate) pending: Option<EditGroup>,
}

impl EditKind {
    /// The char index that the edit refers to.
    pub open spec fn pos_of(self) -> int {
        match self {
            EditKind::Insert { pos, .. } => pos as int,
            EditKind::Delete { pos, .. } => pos as int,
        }
    }

    /// The chars that the edit inserted or deleted.
    pub open spec fn chars_of(self) -> Seq<char> {
        match self {
            EditKind::Insert { text, .. } => text@,
            EditKind::Delete { text, .. } => text@,
        }
    }

    /// Each edit's position plus the length of its text fits in usize, so
    /// the sums taken when undoing and redoing it do not overflow.
    pub open spec fn fits(self) -> bool {
        self.pos_of() + self.chars_of().len() <= usize::MAX
    }
}

/// The last edit of a list inserted text that ends right at `pos`, so a
/// char typed at `pos` extends it.
pub open spec fn coalesces(edits: Seq<EditKind>, pos: int) -> bool {
    edits.len() > 0 && edits.last() is Insert && edits.last().pos_of() + edits.last().chars_of().len() == pos
}

/// All edits of a list fit (see `EditKind::fits`).
pub open spec fn edits_fit(edits: Seq<EditKind>) -> bool {
    forall|i: int| 0 <= i < edits.len() ==> (#[trigger] edits[i]).fits()
}

/// All groups of a list hold only fitting edits.
pub open spec fn groups_fit(groups: Seq<EditGroup>) -> bool {
    forall|i: int| 0 <= i < groups.len() ==> edits_fit((#[trigger] groups[i]).edits@)
}

impl UndoStack {
    /// The groups that `undo` takes from, last on top.
    pub closed spec fn undo_groups(self) -> Seq<EditGroup> {
        self.undo@
    }

    /// The groups that `redo` takes from, last on top.
    pub closed spec fn redo_groups(self) -> Seq<EditGroup> {
        self.redo@
    }

    /// The group being collected, if any.
    pub closed spec fn pending_group(self) -> Option<EditGroup> {
        self.pending
    }

    /// Every recorded edit fits (see `EditKind::fits`).
    pub open spec fn wf(self) -> bool {
        &&& groups_fit(self.undo_groups())
        &&& groups_fit(self.redo_groups())
        &&& (self.pending_group() matches Some(g) ==> edits_fit(g.edits@))
    }

    /// The top groups of a well-formed history hold only fitting edits.
    pub proof fn lemma_top_fits(self)
        requires
            self.wf(),
        ensures
            self.undo_groups().len() > 0 ==> edits_fit(self.undo_groups().last().edits@),
            self.redo_groups().len() > 0 ==> edits_fit(self.redo_groups().last().edits@),
    {
        if self.undo_groups().len() > 0 {
            assert(edits_fit(self.undo_groups()[self.undo_groups().len() - 1].edits@));
        }
        if self.redo_groups().len() > 0 {
            assert(edits_fit(self.redo_groups()[self.redo_groups().len() - 1].edits@));
        }
    }

    /// Whether a group is being collected.
    pub fn has_pending(&self) -> (r: bool)
        ensures
            r == self.pending_group() is Some,
    {
        self.pending.is_some()
    }

    /// The top undo group, left in place.
    pub(crate) fn top_undo(&self) -> (r: Option<&EditGroup>)
        ensures
            self.undo_groups().len() == 0 ==> r is None,
            self.undo_groups().len() > 0 ==> (r matches Some(g) && *g == self.undo_groups().last()),
    {
        let n = self.undo.len();
        if n == 0 {
            None
        } else {
            Some(&self.undo[n - 1])
        }
    }

    /// The top redo group, left in place.
    pub(crate) fn top_redo(&self) -> (r: Option<&EditGroup>)
        ensures
            self.redo_groups().len() == 0 ==> r is None,
            self.redo_groups().len() > 0 ==> (r matches Some(g) && *g == self.redo_groups().last()),
    {
        let n = self.redo.len();
        if n == 0 {
            None
        } else {
            Some(&self.redo[n - 1])
        }
    }

    /// Takes the top undo group.
    pub(crate) fn pop_undo(&mut self) -> (r: Option<EditGroup>)
        ensures
            old(self).undo_groups().len() == 0 ==> r is None && final(self).undo_groups() == old(self).undo_groups() && final(self).redo_groups() == old(self).redo_groups() && final(self).pending_group() == old(self).pending_group(),
            old(self).undo_groups().len() > 0 ==> {
                &&& r == Some(old(self).undo_groups().last())
                &&& final(self).undo_groups() == old(self).undo_groups().drop_last()
                &&& final(self).redo_groups() == old(self).redo_groups()
                &&& final(self).pending_group() == old(self).pending_group()
            },
            old(self).wf() ==> final(self).wf(),
            old(self).wf() && r is Some ==> edits_fit(r->0.edits@),
    {
        let r = self.undo.pop();
        proof {
            if old(self).wf() {
                assert forall|i: int| 0 <= i < self.undo@.len() implies edits_fit(
                    (#[trigger] self.undo@[i]).edits@,
                ) by {
                    assert(self.undo@[i] == old(self).undo@[i]);
                }
                if r is Some {
                    assert(old(self).undo@[old(self).undo@.len() - 1] == r->0);
                }
            }
        }
        r
    }

    /// Takes the top redo group.
    pub(crate) fn pop_redo(&mut self) -> (r: Option<EditGroup>)
        ensures
            old(self).redo_groups().len() == 0 ==> r is None && final(self).undo_groups() == old(self).undo_groups() && final(self).redo_groups() == old(self).redo_groups() && final(self).pending_group() == old(self).pending_group(),
            old(self).redo_groups().len() > 0 ==> {
                &&& r == Some(old(self).redo_groups().last())
                &&& final(self).redo_groups() == old(self).redo_groups().drop_last()
                &&& final(self).undo_groups() == old(self).undo_groups()
                &&& final(self).pending_group() == old(self).pending_group()
            },
            old(self).wf() ==> final(self).wf(),
            old(self).wf() && r is Some ==> edits_fit(r->0.edits@),
    {
        let r = self.redo.pop();
        proof {
            if old(self).wf() {
                assert forall|i: int| 0 <= i < self.redo@.len() implies edits_fit(
                    (#[trigger] self.redo@[i]).edits@,
                ) by {
                    assert(self.redo@[i] == old(self).redo@[i]);
                }
                if r is Some {
                    assert(old(self).redo@[old(self).redo@.len() - 1] == r->0);
                }
            }
        }
        r
    }

    /// Puts a group on top of the redo stack.
    pub(crate) fn push_redo(&mut self, g: EditGroup)
        ensures
            final(self).redo_groups() == old(self).redo_groups().push(g),
            final(self).undo_groups() == old(self).undo_groups(),
            final(self).pending_group() == old(self).pending_group(),
            old(self).wf() && edits_fit(g.edits@) ==> final(self).wf(),
    {
        self.redo.push(g);
        proof {
            if old(self).wf() && edits_fit(g.edits@) {
                assert forall|i: int| 0 <= i < self.redo@.len() implies edits_fit(
                    (#[trigger] self.redo@[i]).edits@,
                ) by {
                    if i < old(self).redo@.len() {
                        assert(self.redo@[i] == old(self).redo@[i]);
                    }
                }
            }
        }
    }

    /// Puts a group on top of the undo stack, leaving redo alone.
    pub(crate) fn push_undo(&mut self, g: EditGroup)
        ensures
            final(self).undo_groups() == old(self).undo_groups().push(g),
            final(self).redo_groups() == old(self).redo_groups(),
            final(self).pending_group() == old(self).pending_group(),
            old(self).wf() && edits_fit(g.edits@) ==> final(self).wf(),
    {
        self.undo.push(g);
        proof {
            if old(self).wf() && edits_fit(g.edits@) {
                assert forall|i: int| 0 <= i < self.undo@.len() implies edits_fit(
                    (#[trigger] self.undo@[i]).edits@,
                ) by {
                    if i < old(self).undo@.len() {
                        assert(self.undo@[i] == old(self).undo@[i]);
                    }
                }
            }
        }
    }

    /// An empty history with no pending group.
    pub fn new() -> (s: Self)
        ensures
            s.undo_groups().len() == 0,
            s.redo_groups().len() == 0,
            s.pending_group() is None,
            s.wf(),
    {
        UndoStack { undo: Vec::new(), redo: Vec::new(), pending: None }
    }

    /// Start collecting edits for an insert mode session.
    pub fn start_group(&mut self, cursor_before: usize)
        ensures
            final(self).undo_groups() == old(self).undo_groups(),
            final(self).redo_groups() == old(self).redo_groups(),
            final(self).pending_group() is Some,
            final(self).pending_group()->0.edits@.len() == 0,
            final(self).pending_group()->0.cursor_before == cursor_before,
            old(self).wf() ==> final(self).wf(),
    {
        self.pending = Some(EditGroup { edits: Vec::new(), cursor_before });
    }

    /// Finish the current group and push it onto the undo stack.
    pub fn finish_group(&mut self)
        ensures
            final(self).pending_group() is None,
            old(self).pending_group() is Some && old(self).pending_group()->0.edits@.len() > 0 ==> {
                &&& final(self).undo_groups() == old(self).undo_groups().push(
                    old(self).pending_group()->0,
                )
                &&& final(self).redo_groups().len() == 0
            },
            !(old(self).pending_group() is Some && old(self).pending_group()->0.edits@.len() > 0)
                ==> {
                &&& final(self).undo_groups() == old(self).undo_groups()
                &&& final(self).redo_groups() == old(self).redo_groups()
            },
            old(self).wf() ==> final(self).wf(),
    {
        if let Some(group) = self.pending.take() {
            if group.edits.len() > 0 {
                self.undo.push(group);
                self.redo.clear();
            }
        }
    }

    /// Push a single-edit group immediately (for normal mode commands like dd, x).
    pub fn push_edit(&mut self, edit: EditKind, cursor_before: usize)
        ensures
            pushed_edit(
                *old(self),
                *final(self),
                edit is Insert,
                edit.pos_of(),
                edit.chars_of(),
                cursor_before as int,
            ),
            old(self).wf() && edit.fits() ==> final(self).wf(),
    {
        let ghost e = edit;
        let edits = vec![edit];
        assert(edits@ =~= seq![e]);
        self.push_edits(edits, cursor_before);
        assert(self.undo_groups().drop_last() =~= old(self).undo_groups());
    }

    /// Push a group of edits immediately, as one undoable unit.
    pub fn push_edits(&mut self, edits: Vec<EditKind>, cursor_before: usize)
        ensures
            final(self).undo_groups() == old(self).undo_groups().push(
                EditGroup { edits, cursor_before },
            ),
            final(self).redo_groups().len() == 0,
            final(self).pending_group() == old(self).pending_group(),
            old(self).wf() && edits_fit(edits@) ==> final(self).wf(),
    {
        self.undo.push(EditGroup { edits, cursor_before });
        self.redo.clear();
        proof {
            if old(self).wf() && edits_fit(edits@) {
                assert forall|i: int| 0 <= i < self.undo@.len() implies edits_fit(
                    (#[trigger] self.undo@[i]).edits@,
                ) by {
                    if i < old(self).undo@.len() {
                        assert(self.undo@[i] == old(self).undo@[i]);
                    }
                }
            }
        }
    }

    /// Record an insert into the pending group, coalescing consecutive chars.
    pub fn record_insert(&mut self, pos: usize, ch: char)
        requires
            old(self).wf(),
            pos < usize::MAX,
        ensures
            final(self).wf(),
            recorded_char(*old(self), *final(self), pos as int, ch),
    {
        if let Some(mut group) = self.pending.take() {
            let ghost g = group;
            let n = group.edits.len();
            if n > 0 {
                let last = group.edits.pop().unwrap();
                match last {
                    EditKind::Insert { pos: last_pos, text } => {
                        assert(g.edits@[n - 1].fits());
                        proof {
                            crate::strs::lemma_byte_len_ge(text@);
                        }
                        if last_pos + text.as_str().unicode_len() == pos {
                            let ghost old_text = text@;
                            let mut text = text;
                            string_push(&mut text, ch);
                            proof {
                                assert(old_text.push(ch) =~= old_text + seq![ch]);
                            }
                            group.edits.push(EditKind::Insert { pos: last_pos, text });
                        } else {
                            group.edits.push(EditKind::Insert { pos: last_pos, text });
                            group.edits.push(EditKind::Insert { pos, text: char_to_string(ch) });
                        }
                    },
                    other => {
                        group.edits.push(other);
                        group.edits.push(EditKind::Insert { pos, text: char_to_string(ch) });
                    },
                }
                assert(group.edits@.drop_last() =~= g.edits@ || group.edits@.drop_last()
                    =~= g.edits@.drop_last());
            } else {
                group.edits.push(EditKind::Insert { pos, text: char_to_string(ch) });
                assert(group.edits@.drop_last() =~= g.edits@);
            }
            proof {
                assert forall|i: int| 0 <= i < group.edits@.len() implies (
                #[trigger] group.edits@[i]).fits() by {
                    if i < n - 1 || (i == n - 1 && group.edits@.len() == n + 1) {
                        assert(group.edits@[i] == g.edits@[i]);
                    }
                }
            }
            self.pending = Some(group);
        }
    }

    /// Record an insert of a string into the pending group.
    pub fn record_insert_str(&mut self, pos: usize, s: &str)
        requires
            old(self).wf(),
            pos + s@.len() <= usize::MAX,
        ensures
            final(self).wf(),
            recorded_edit(*old(self), *final(self), true, pos as int, s@),
    {
        self.record(EditKind::Insert { pos, text: str_to_string(s) });
    }

    /// Record a delete into the pending group (for backspace/delete in insert mode).
    pub fn record_delete(&mut self, pos: usize, text: &str)
        requires
            old(self).wf(),
            pos + text@.len() <= usize::MAX,
        ensures
            final(self).wf(),
            recorded_edit(*old(self), *final(self), false, pos as int, text@),
    {
        self.record(EditKind::Delete { pos, text: str_to_string(text) });
    }

    fn record(&mut self, edit: EditKind)
        requires
            old(self).wf(),
            edit.fits(),
        ensures
            final(self).wf(),
            final(self).undo_groups() == old(self).undo_groups(),
            final(self).redo_groups() == old(self).redo_groups(),
            old(self).pending_group() is None ==> final(self).pending_group() is None,
            old(self).pending_group() is Some ==> {
                let g = old(self).pending_group()->0;
                let h = final(self).pending_group()->0;
                &&& final(self).pending_group() is Some
                &&& h.cursor_before == g.cursor_before
                &&& h.edits@ == g.edits@.push(edit)
                &&& h.edits@.drop_last() == g.edits@
                &&& h.edits@.len() == g.edits@.len() + 1
                &&& h.edits@.last() == edit
            },
    {
        if let Some(mut group) = self.pending.take() {
            let ghost g = group;
            group.edits.push(edit);
            assert(group.edits@.drop_last() =~= g.edits@);
            proof {
                assert forall|i: int| 0 <= i < group.edits@.len() implies (
                #[trigger] group.edits@[i]).fits() by {
                    if i < g.edits@.len() {
                        assert(group.edits@[i] == g.edits@[i]);
                    }
                }
            }
            self.pending = Some(group);
        }
    }
}

} // verus!

verus! {

/// The edit is an insert (`true`) or a delete (`false`) of `chars` at `pos`.
pub open spec fn edit_is(e: EditKind, insert: bool, pos: int, chars: Seq<char>) -> bool {
    &&& (e is Insert) == insert
    &&& e.pos_of() == pos
    &&& e.chars_of() == chars
}

/// `new` is `old` with one more edit, as described, recorded into the
/// pending group; with no pending group nothing is recorded.
pub open spec fn recorded_edit(old: UndoStack, new: UndoStack, insert: bool, pos: int, chars: Seq<char>) -> bool {
    &&& new.undo_groups() == old.undo_groups()
    &&& new.redo_groups() == old.redo_groups()
    &&& old.pending_group() is None ==> new.pending_group() is None
    &&& old.pending_group() is Some ==> {
        let g = old.pending_group()->0;
        let h = new.pending_group()->0;
        &&& new.pending_group() is Some
        &&& h.cursor_before == g.cursor_before
        &&& h.edits@.drop_last() == g.edits@
        &&& h.edits@.len() == g.edits@.len() + 1
        &&& edit_is(h.edits@.last(), insert, pos, chars)
    }
}

/// `new` is `old` with a typed char `ch` at `pos` recorded into the pending
/// group: appended to the last insert when that ends at `pos`, else as a
/// new insert; with no pending group nothing is recorded.
pub open spec fn recorded_char(old: UndoStack, new: UndoStack, pos: int, ch: char) -> bool {
    &&& new.undo_groups() == old.undo_groups()
    &&& new.redo_groups() == old.redo_groups()
    &&& old.pending_group() is None ==> new.pending_group() is None
    &&& old.pending_group() is Some ==> {
        let g = old.pending_group()->0;
        let h = new.pending_group()->0;
        let c = coalesces(g.edits@, pos);
        &&& new.pending_group() is Some
        &&& h.cursor_before == g.cursor_before
        &&& h.edits@.drop_last() == (if c { g.edits@.drop_last() } else { g.edits@ })
        &&& h.edits@.len() == (if c { g.edits@.len() } else { g.edits@.len() + 1 })
        &&& edit_is(
            h.edits@.last(),
            true,
            if c { g.edits@.last().pos_of() } else { pos },
            if c { g.edits@.last().chars_of().push(ch) } else { seq![ch] },
        )
    }
}

/// `new` is `old` with one more undo group holding the single edit
/// described, made before the cursor stood at `cursor_before`; redo is
/// cleared.
pub open spec fn pushed_edit(
    old: UndoStack,
    new: UndoStack,
    insert: bool,
    pos: int,
    chars: Seq<char>,
    cursor_before: int,
) -> bool {
    &&& new.undo_groups().len() == old.undo_groups().len() + 1
    &&& new.undo_groups().drop_last() == old.undo_groups()
    &&& new.undo_groups().last().edits@.len() == 1
    &&& edit_is(new.undo_groups().last().edits@[0], insert, pos, chars)
    &&& new.undo_groups().last().cursor_before == cursor_before
    &&& new.redo_groups().len() == 0
    &&& new.pending_group() == old.pending_group()
}

/// The text after undoing one edit: an insert's text is removed (as many
/// chars as it holds), a delete's text is put back.
pub open spec fn revert_edit(t: Seq<char>, e: EditKind) -> Seq<char> {
    let p = e.pos_of();
    if e is Insert {
        t.take(p) + t.skip(p + e.chars_of().len())
    } else {
        t.take(p) + e.chars_of() + t.skip(p)
    }
}

/// Undoing the edit stays within the text (and within `usize` bytes).
pub open spec fn revert_ok(t: Seq<char>, e: EditKind) -> bool {
    let p = e.pos_of();
    if e is Insert {
        0 <= p && p + e.chars_of().len() <= t.len()
    } else {
        0 <= p <= t.len() && byte_len(t) + byte_len(e.chars_of()) <= usize::MAX
    }
}

/// The text after undoing the edits, last first.
pub open spec fn revert_all(t: Seq<char>, edits: Seq<EditKind>) -> Seq<char>
    decreases edits.len(),
{
    if edits.len() == 0 {
        t
    } else {
        revert_all(revert_edit(t, edits.last()), edits.drop_last())
    }
}

/// Every step of undoing the edits, last first, stays within the text.
pub open spec fn revert_all_ok(t: Seq<char>, edits: Seq<EditKind>) -> bool
    decreases edits.len(),
{
    edits.len() == 0 || (revert_ok(t, edits.last()) && revert_all_ok(
        revert_edit(t, edits.last()),
        edits.drop_last(),
    ))
}

/// The text after redoing one edit: an insert's text is put in, a delete's
/// text (as many chars as it holds) is removed.
pub open spec fn apply_edit(t: Seq<char>, e: EditKind) -> Seq<char> {
    let p = e.pos_of();
    if e is Insert {
        t.take(p) + e.chars_of() + t.skip(p)
    } else {
        t.take(p) + t.skip(p + e.chars_of().len())
    }
}

/// Redoing the edit stays within the text (and within `usize` bytes).
pub open spec fn apply_ok(t: Seq<char>, e: EditKind) -> bool {
    let p = e.pos_of();
    if e is Insert {
        0 <= p <= t.len() && byte_len(t) + byte_len(e.chars_of()) <= usize::MAX
    } else {
        0 <= p && p + e.chars_of().len() <= t.len()
    }
}

/// The text after redoing the edits, first first.
pub open spec fn apply_all(t: Seq<char>, edits: Seq<EditKind>) -> Seq<char>
    decreases edits.len(),
{
    if edits.len() == 0 {
        t
    } else {
        apply_all(apply_edit(t, edits[0]), edits.drop_first())
    }
}

/// Every step of redoing the edits stays within the text.
pub open spec fn apply_all_ok(t: Seq<char>, edits: Seq<EditKind>) -> bool
    decreases edits.len(),
{
    edits.len() == 0 || (apply_ok(t, edits[0]) && apply_all_ok(
        apply_edit(t, edits[0]),
        edits.drop_first(),
    ))
}

/// Where redo leaves the cursor: after the last edit's insert, at its
/// delete, or at 0 without edits.
pub open spec fn redo_cursor(edits: Seq<EditKind>) -> int {
    if edits.len() == 0 {
        0
    } else if edits.last() is Insert {
        edits.last().pos_of() + edits.last().chars_of().len()
    } else {
        edits.last().pos_of()
    }
}

/// The change counter after one more change (wrapping at `u64::MAX`).
pub open spec fn next_version(v: u64) -> u64 {
    if v == u64::MAX { 0 } else { (v + 1) as u64 }
}

} // verus!

verus! {

/// The text after an edit, its extent counted in chars.
pub open spec fn step_text(a: Seq<char>, e: EditKind) -> Seq<char> {
    let p = e.pos_of();
    let s = e.chars_of();
    if e is Insert {
        a.take(p) + s + a.skip(p)
    } else {
        a.take(p) + a.skip(p + s.len())
    }
}

/// The edit records a change that can be made to `a`: its position lies in
/// the text, and a delete's text is what stands there.
pub open spec fn edit_matches(a: Seq<char>, e: EditKind) -> bool {
    let p = e.pos_of();
    let s = e.chars_of();
    &&& 0 <= p <= a.len()
    &&& !(e is Insert) ==> p + s.len() <= a.len() && a.subrange(p, p + s.len()) == s
}

/// The edits, made one after the other, turn `a` into `b`, through texts
/// whose UTF-8 bytes fit a `usize`.
pub open spec fn edits_describe(a: Seq<char>, edits: Seq<EditKind>, b: Seq<char>) -> bool
    decreases edits.len(),
{
    &&& byte_len(a) <= usize::MAX
    &&& if edits.len() == 0 {
        a == b
    } else {
        edit_matches(a, edits[0]) && edits_describe(step_text(a, edits[0]), edits.drop_first(), b)
    }
}

/// Undoing, then redoing, one edit that describes a change from `a` to `b`.
proof fn lemma_one_edit(a: Seq<char>, e: EditKind, b: Seq<char>)
    requires
        edit_matches(a, e),
        b == step_text(a, e),
        byte_len(a) <= usize::MAX,
        byte_len(b) <= usize::MAX,
    ensures
        revert_ok(b, e),
        revert_edit(b, e) == a,
        apply_ok(a, e),
        apply_edit(a, e) == b,
{
    let p = e.pos_of();
    let s = e.chars_of();
    if e is Insert {
        assert(b.take(p) =~= a.take(p));
        assert(b.skip(p + s.len()) =~= a.skip(p));
        assert(a.take(p) + a.skip(p) =~= a);
        crate::strs::lemma_byte_len_splice(a, p, p, s);
    } else {
        assert(b.take(p) =~= a.take(p));
        assert(b.skip(p) =~= a.skip(p + s.len()));
        assert(a.take(p) + a.subrange(p, p + s.len()) + a.skip(p + s.len()) =~= a);
        crate::strs::lemma_byte_len_splice(a, p, p + s.len(), Seq::empty());
        assert(a.take(p) + Seq::<char>::empty() =~= a.take(p));
        crate::strs::lemma_byte_len_splice(b, p, p, s);
        assert(b.take(p) + s + b.skip(p) =~= a);
    }
}

proof fn lemma_revert_all_split(x: Seq<char>, a: Seq<EditKind>, b: Seq<EditKind>)
    ensures
        revert_all(x, a + b) == revert_all(revert_all(x, b), a),
        revert_all_ok(x, a + b) == (revert_all_ok(x, b) && revert_all_ok(revert_all(x, b), a)),
    decreases b.len(),
{
    if b.len() == 0 {
        assert(a + b =~= a);
    } else {
        assert((a + b).last() == b.last());
        assert((a + b).drop_last() =~= a + b.drop_last());
        lemma_revert_all_split(revert_edit(x, b.last()), a, b.drop_last());
    }
}

/// Undo and redo of a group: if the edits describe the change from `a` to
/// `b`, undoing them all, last first, in `b` gives back `a`, and redoing
/// them all, first first, in `a` gives `b`; neither step leaves the text.
pub proof fn law_group_undo_redo(a: Seq<char>, edits: Seq<EditKind>, b: Seq<char>)
    requires
        edits_describe(a, edits, b),
    ensures
        revert_all_ok(b, edits),
        revert_all(b, edits) == a,
        apply_all_ok(a, edits),
        apply_all(a, edits) == b,
    decreases edits.len(),
{
    if edits.len() == 0 {
    } else {
        let e = edits[0];
        let rest = edits.drop_first();
        let m = step_text(a, e);
        law_group_undo_redo(m, rest, b);
        assert(byte_len(m) <= usize::MAX) by {
            reveal_with_fuel(edits_describe, 2);
        }
        lemma_one_edit(a, e, m);
        assert(edits =~= seq![e] + rest);
        lemma_revert_all_split(b, seq![e], rest);
        assert(seq![e].last() == e);
        assert(seq![e].drop_last() =~= Seq::<EditKind>::empty());
        assert(revert_all(m, seq![e]) == revert_all(revert_edit(m, e), Seq::<EditKind>::empty()));
        assert(revert_all_ok(m, seq![e]) == (revert_ok(m, e) && revert_all_ok(revert_edit(m, e), Seq::<EditKind>::empty())));
    }
}

proof fn lemma_describe_push(a: Seq<char>, edits: Seq<EditKind>, m: Seq<char>, e: EditKind, b: Seq<char>)
    requires
        edits_describe(a, edits, m),
        edit_matches(m, e),
        b == step_text(m, e),
        byte_len(b) <= usize::MAX,
    ensures
        edits_describe(a, edits.push(e), b),
    decreases edits.len(),
{
    reveal_with_fuel(edits_describe, 2);
    if edits.len() == 0 {
        assert(edits.push(e) =~= seq![e]);
        assert(seq![e].drop_first() =~= Seq::<EditKind>::empty());
        assert(seq![e][0] == e);
    } else {
        assert(edits.push(e)[0] == edits[0]);
        assert(edits.push(e).drop_first() =~= edits.drop_first().push(e));
        lemma_describe_push(step_text(a, edits[0]), edits.drop_first(), m, e, b);
    }
}

/// Recording an edit: if a pending group's edits describe the change from
/// `a` to `m`, and one more edit describes the change from `m` to `b`, the
/// group with that edit appended describes the change from `a` to `b`.
pub proof fn law_record_extends(a: Seq<char>, edits: Seq<EditKind>, m: Seq<char>, e: EditKind, b: Seq<char>)
    requires
        edits_describe(a, edits, m),
        edit_matches(m, e),
        b == step_text(m, e),
        byte_len(b) <= usize::MAX,
    ensures
        edits_describe(a, edits.push(e), b),
{
    lemma_describe_push(a, edits, m, e, b);
}

/// An edit that can be made to `a` describes, alone, the change it makes,
/// so an undo step holding just that edit (as `Buffer::paste_after`,
/// `Buffer::delete_line` and `Buffer::delete_range` push) undoes it.
pub proof fn law_single_edit_describes(a: Seq<char>, e: EditKind)
    requires
        edit_matches(a, e),
        byte_len(a) <= usize::MAX,
        byte_len(step_text(a, e)) <= usize::MAX,
    ensures
        edits_describe(a, seq![e], step_text(a, e)),
{
    let b = step_text(a, e);
    assert(seq![e][0] == e);
    assert(seq![e].drop_first() =~= Seq::<EditKind>::empty());
    assert(edits_describe(b, Seq::<EditKind>::empty(), b));
}

proof fn lemma_describe_split_last(a: Seq<char>, edits: Seq<EditKind>, b: Seq<char>) -> (m: Seq<char>)
    requires
        edits_describe(a, edits, b),
        edits.len() > 0,
    ensures
        edits_describe(a, edits.drop_last(), m),
        edit_matches(m, edits.last()),
        b == step_text(m, edits.last()),
        byte_len(b) <= usize::MAX,
    decreases edits.len(),
{
    reveal_with_fuel(edits_describe, 2);
    if edits.len() == 1 {
        assert(edits.drop_last() =~= Seq::<EditKind>::empty());
        assert(edits.last() == edits[0]);
        assert(edits.drop_first().len() == 0);
        a
    } else {
        let rest = edits.drop_first();
        let m = lemma_describe_split_last(step_text(a, edits[0]), rest, b);
        assert(rest.drop_last() =~= edits.drop_last().drop_first());
        assert(edits.drop_last()[0] == edits[0]);
        assert(rest.last() == edits.last());
        m
    }
}

/// Typing a char that continues the pending group's last insert: if the
/// group describes the change from `a` to `m`, its last edit inserted text
/// ending at `pos`, and `b` is `m` with `ch` typed at `pos`, then the
/// group with that insert extended by `ch` describes the change from `a` to
/// `b`.
pub proof fn law_record_coalesces(
    a: Seq<char>,
    edits: Seq<EditKind>,
    m: Seq<char>,
    pos: int,
    ch: char,
    e: EditKind,
    b: Seq<char>,
)
    requires
        edits_describe(a, edits, m),
        coalesces(edits, pos),
        edit_is(e, true, edits.last().pos_of(), edits.last().chars_of().push(ch)),
        0 <= pos <= m.len(),
        b == m.take(pos) + seq![ch] + m.skip(pos),
        byte_len(b) <= usize::MAX,
    ensures
        edits_describe(a, edits.drop_last().push(e), b),
{
    let m0 = lemma_describe_split_last(a, edits, m);
    let last = edits.last();
    let p = last.pos_of();
    let t = last.chars_of();
    assert(pos == p + t.len());
    assert(m == m0.take(p) + t + m0.skip(p));
    assert(b =~= m0.take(p) + t.push(ch) + m0.skip(p));
    lemma_describe_push(a, edits.drop_last(), m0, e, b);
}

} // verus!
