//! A fuzzy picker: items filtered and ranked by how well they match a
//! typed query, with a selection and a scrolled window of rows.
use vstd::prelude::*;
use nucleo_matcher::{Config, Matcher, Utf32Str};
use nucleo_matcher::pattern::{CaseMatching, Normalization, Pattern};
pub mod sources;

use crate::action::{ActionView, EditorAction, copy_action};
use crate::keys::{Key, KeyModifiers, NamedKey};
use crate::strs::{char_is_control, chars_of, is_unicode_control, decimal, push_decimal, str_to_string, string_pop, string_push, string_push_str};

verus! {

/// The score `nucleo_matcher` gives `text` for query `query` (see
/// `fuzzy_score_of`), or none when it does not match.
pub uninterp spec fn fuzzy_score(query: Seq<char>, text: Seq<char>) -> Option<u32>;

/// The longest query scored. The matcher sums the score of a word's
/// matched chars in a `u16` with `+=`, each char adding at most 16 plus
/// twice the largest bonus (9 with the path configuration), and adds the
/// words' scores into a `u32`: a query of this many chars stays well within
/// both, where a much longer one overflows them.
pub const MAX_QUERY_CHARS: usize = 1024;

/// `nucleo_matcher::pattern::Pattern::score`: `text` scored against
/// `Pattern::parse(query, CaseMatching::Ignore, Normalization::Smart)` with
/// a matcher configured for paths (`Config::DEFAULT.match_paths()`). The
/// result depends on the two strings alone; a query with no words (the empty
/// query) matches every text with score zero. The matcher panics on a text
/// of more than `u32::MAX` chars once a word is matched, and its score sums
/// overflow for a very long query (see `MAX_QUERY_CHARS`): both are left
/// out.
#[verifier::external_body]
fn fuzzy_score_of(query: &str, text: &str) -> (r: Option<u32>)
    requires
        query@.len() <= MAX_QUERY_CHARS,
        query@.len() == 0 || text@.len() <= u32::MAX,
    ensures
        r == fuzzy_score(query@, text@),
        query@.len() == 0 ==> r == Some(0u32),
{
    let mut matcher = Matcher::new(Config::DEFAULT.match_paths());
    let pattern = Pattern::parse(query, CaseMatching::Ignore, Normalization::Smart);
    let mut buf = Vec::new();
    pattern.score(Utf32Str::new(text, &mut buf), &mut matcher)
}

/// One entry of a picker: the text matched against, the text shown, an
/// optional detail shown beside it, an optional group, the action
/// accepting it performs and the action that previews it.
#[derive(Debug, Clone)]
pub struct PickerItem {
    pub match_text: String,
    pub display: String,
    pub detail: Option<String>,
    pub group: Option<String>,
    pub action: EditorAction,
    pub preview_action: Option<EditorAction>,
}

/// How many rows a picker shows at once.
pub const PICKER_VISIBLE_LIMIT: usize = 10;

/// Whether query `q` can be scored against `text`: the query is at most
/// `MAX_QUERY_CHARS` long and, unless it is empty, the text has at most
/// `u32::MAX` chars.
pub open spec fn scorable(q: Seq<char>, text: Seq<char>) -> bool {
    q.len() <= MAX_QUERY_CHARS && (q.len() == 0 || text.len() <= u32::MAX)
}

/// The score of item `i` for query `q`; none (no match) when the two
/// cannot be scored.
pub open spec fn item_score(items: Seq<PickerItem>, q: Seq<char>, i: int) -> Option<u32> {
    if scorable(q, items[i].match_text@) {
        fuzzy_score(q, items[i].match_text@)
    } else {
        None
    }
}

/// `f` lists exactly the items that match `q`, best score first, equal
/// scores in item order.
pub open spec fn score_order(items: Seq<PickerItem>, q: Seq<char>, f: Seq<usize>) -> bool {
    &&& forall|k: int| 0 <= k < f.len() ==> f[k] < items.len() && item_score(items, q, f[k] as int) is Some
    &&& forall|i: int| 0 <= i < items.len() && item_score(items, q, i) is Some ==> f.contains(i as usize)
    &&& forall|j: int, k: int|
        0 <= j < k < f.len() ==> item_score(items, q, f[j] as int)->0 > item_score(items, q, f[k] as int)->0 || (
        item_score(items, q, f[j] as int)->0 == item_score(items, q, f[k] as int)->0 && f[j] < f[k])
}

/// A picker.
pub struct Picker {
    pub items: Vec<PickerItem>,
    pub query: String,
    pub filtered: Vec<usize>,
    pub selected: usize,
    pub scroll_offset: usize,
    pub visible_limit: usize,
    pub title: String,
    pub restore_buffer: Option<usize>,
}

impl Picker {
    /// The filtered list points into the items, the selection is in it (or
    /// at the start when it is empty), and the scroll lies within it.
    pub open spec fn wf(&self) -> bool {
        &&& forall|k: int| 0 <= k < self.filtered@.len() ==> self.filtered@[k] < self.items@.len()
        &&& self.selected < self.filtered@.len() || (self.filtered@.len() == 0 && self.selected == 0)
        &&& self.scroll_offset <= self.selected
        &&& self.visible_limit >= 1
    }

    /// A picker titled `title` listing all `items` in order, the first
    /// selected; `restore_buffer` is the buffer to go back to on cancel.
    pub fn new(title: &str, items: Vec<PickerItem>, restore_buffer: Option<usize>) -> (p: Self)
        ensures
            p.wf(),
            p.items@ == items@,
            p.query@ == Seq::<char>::empty(),
            p.filtered@ == Seq::new(items@.len(), |i: int| i as usize),
            p.selected == 0,
            p.scroll_offset == 0,
            p.visible_limit == PICKER_VISIBLE_LIMIT,
            p.title@ == title@,
            p.restore_buffer == restore_buffer,
    {
        let n = items.len();
        let mut filtered: Vec<usize> = Vec::new();
        let mut i: usize = 0;
        while i < n
            invariant
                n == items@.len(),
                i <= n,
                filtered@ == Seq::new(i as nat, |k: int| k as usize),
            decreases n - i,
        {
            filtered.push(i);
            proof {
                assert(filtered@ =~= Seq::new((i + 1) as nat, |k: int| k as usize));
            }
            i = i + 1;
        }
        let p = Picker {
            items,
            query: String::new(),
            filtered,
            selected: 0,
            scroll_offset: 0,
            visible_limit: PICKER_VISIBLE_LIMIT,
            title: str_to_string(title),
            restore_buffer,
        };
        p
    }

    /// Lists the items that match the query, best first, and keeps the
    /// selection and scroll within the new list.
    pub fn update_filter(&mut self)
        requires
            old(self).scroll_offset <= old(self).selected,
            old(self).visible_limit >= 1,
        ensures
            final(self).wf(),
            score_order(final(self).items@, final(self).query@, final(self).filtered@),
            final(self).query@.len() == 0 ==> final(self).filtered@ == Seq::new(final(self).items@.len(), |i: int| i as usize),
            final(self).items@ == old(self).items@,
            final(self).query@ == old(self).query@,
            final(self).visible_limit == old(self).visible_limit,
            final(self).title@ == old(self).title@,
            final(self).restore_buffer == old(self).restore_buffer,
            final(self).selected == (if old(self).selected >= final(self).filtered@.len() {
                if final(self).filtered@.len() > 0 { (final(self).filtered@.len() - 1) as usize } else { 0 }
            } else {
                old(self).selected
            }),
            final(self).scroll_offset == ({
                let len = final(self).filtered@.len();
                let cap: int = if len >= old(self).visible_limit { len - old(self).visible_limit } else { 0 };
                let s: int = if old(self).scroll_offset < cap { old(self).scroll_offset as int } else { cap };
                if final(self).selected < s { final(self).selected as int } else { s }
            }),
    {
        let ghost items = self.items@;
        let ghost q = self.query@;
        let n = self.items.len();
        let mut scores: Vec<u32> = Vec::new();
        let mut f: Vec<usize> = Vec::new();
        let mut i: usize = 0;
        while i < n
            invariant
                n == self.items@.len(),
                items == self.items@,
                q == self.query@,
                i <= n,
                f@.len() <= i,
                q.len() == 0 ==> f@ == Seq::new(i as nat, |k: int| k as usize),
                q.len() == 0 ==> forall|k: int| 0 <= k < i ==> scores@[k] == 0,
                scores@.len() == i,
                forall|k: int| 0 <= k < i ==> (#[trigger] item_score(items, q, k) is Some ==> item_score(items, q, k)->0 == scores@[k]),
                forall|k: int| 0 <= k < f@.len() ==> f@[k] < i && item_score(items, q, f@[k] as int) is Some,
                forall|k: int| 0 <= k < i && item_score(items, q, k) is Some ==> f@.contains(k as usize),
                forall|j: int, k: int|
                    0 <= j < k < f@.len() ==> item_score(items, q, f@[j] as int)->0 > item_score(items, q, f@[k] as int)->0
                        || (item_score(items, q, f@[j] as int)->0 == item_score(items, q, f@[k] as int)->0 && f@[j] < f@[k]),
            decreases n - i,
        {
            let qlen = self.query.as_str().unicode_len();
            let tlen = self.items[i].match_text.as_str().unicode_len();
            let sc = if qlen <= MAX_QUERY_CHARS && (qlen == 0 || (tlen as u64) <= (u32::MAX as u64)) {
                fuzzy_score_of(self.query.as_str(), self.items[i].match_text.as_str())
            } else {
                None
            };
            match sc {
                Some(s) => {
                    scores.push(s);
                    let mut pos: usize = 0;
                    while pos < f.len() && scores[f[pos]] >= s
                        invariant
                            i < n,
                            scores@.len() == i + 1,
                            scores@[i as int] == s,
                            item_score(items, q, i as int) == Some(s),
                            forall|k: int| 0 <= k < i ==> (#[trigger] item_score(items, q, k) is Some ==> item_score(items, q, k)->0 == scores@[k]),
                            forall|k: int| 0 <= k < f@.len() ==> f@[k] < i && item_score(items, q, f@[k] as int) is Some,
                            pos <= f@.len(),
                            q.len() == 0 ==> s == 0 && f@ == Seq::new(i as nat, |k: int| k as usize),
                            q.len() == 0 ==> forall|k: int| 0 <= k <= i ==> scores@[k] == 0,
                            forall|k: int| 0 <= k < pos ==> item_score(items, q, f@[k] as int)->0 >= s,
                        decreases f@.len() - pos,
                    {
                        pos = pos + 1;
                    }
                    let ghost old_f = f@;
                    f.insert(pos, i);
                    proof {
                        if q.len() == 0 {
                            assert(pos == old_f.len());
                            assert(f@ =~= Seq::new((i + 1) as nat, |k: int| k as usize));
                        }
                        assert forall|j: int, k: int| 0 <= j < k < f@.len() implies item_score(items, q, f@[j] as int)->0
                            > item_score(items, q, f@[k] as int)->0 || (item_score(items, q, f@[j] as int)->0 == item_score(
                            items,
                            q,
                            f@[k] as int,
                        )->0 && f@[j] < f@[k]) by {
                            if j == pos && k > pos {
                                let m = old_f[k - 1];
                                let first = old_f[pos as int];
                                assert(item_score(items, q, first as int)->0 < s);
                                if k - 1 > pos {
                                    assert(item_score(items, q, first as int)->0 >= item_score(items, q, m as int)->0);
                                }
                            } else if j < pos && k == pos {
                                assert(item_score(items, q, old_f[j] as int)->0 >= s);
                                assert(old_f[j] < i);
                            } else if j < pos && k > pos {
                                assert(item_score(items, q, old_f[j] as int)->0 >= item_score(items, q, old_f[k - 1] as int)->0);
                            }
                        }
                        assert forall|k: int| 0 <= k <= i && item_score(items, q, k) is Some implies f@.contains(k as usize) by {
                            if k < i {
                                let idx = choose|idx: int| 0 <= idx < old_f.len() && old_f[idx] == k as usize;
                                if idx < pos {
                                    assert(f@[idx] == k as usize);
                                } else {
                                    assert(f@[idx + 1] == k as usize);
                                }
                            } else {
                                assert(f@[pos as int] == i);
                            }
                        }
                    }
                },
                None => {
                    scores.push(0);
                },
            }
            i = i + 1;
        }
        self.filtered = f;
        let len = self.filtered.len();
        if self.selected >= len {
            self.selected = if len > 0 { len - 1 } else { 0 };
        }
        let cap = if len >= self.visible_limit { len - self.visible_limit } else { 0 };
        if cap < self.scroll_offset {
            self.scroll_offset = cap;
        }
        if self.selected < self.scroll_offset {
            self.scroll_offset = self.selected;
        }
    }

    /// Selects the previous row, scrolling up to it if needed.
    pub fn move_up(&mut self)
        ensures
            final(self).selected == (if old(self).selected > 0 { (old(self).selected - 1) as usize } else { old(self).selected }),
            final(self).scroll_offset == (if old(self).selected > 0 && old(self).selected - 1 < old(self).scroll_offset {
                (old(self).selected - 1) as usize
            } else {
                old(self).scroll_offset
            }),
            final(self).items@ == old(self).items@,
            final(self).filtered@ == old(self).filtered@,
            final(self).query@ == old(self).query@,
            final(self).title@ == old(self).title@,
            final(self).restore_buffer == old(self).restore_buffer,
            final(self).visible_limit == old(self).visible_limit,
            old(self).wf() ==> final(self).wf(),
    {
        if self.selected > 0 {
            self.selected = self.selected - 1;
            if self.selected < self.scroll_offset {
                self.scroll_offset = self.selected;
            }
        }
    }

    /// Selects the next row, scrolling down to it if needed.
    pub fn move_down(&mut self)
        requires
            old(self).wf(),
        ensures
            final(self).wf(),
            final(self).selected == (if old(self).filtered@.len() > 0 && old(self).selected + 1 < old(self).filtered@.len() {
                (old(self).selected + 1) as usize
            } else {
                old(self).selected
            }),
            final(self).scroll_offset == (if old(self).filtered@.len() > 0 && old(self).selected + 1 < old(self).filtered@.len()
                && old(self).selected + 1 >= old(self).scroll_offset + old(self).visible_limit {
                (old(self).selected + 2 - old(self).visible_limit) as usize
            } else {
                old(self).scroll_offset
            }),
            final(self).items@ == old(self).items@,
            final(self).filtered@ == old(self).filtered@,
            final(self).query@ == old(self).query@,
            final(self).title@ == old(self).title@,
            final(self).restore_buffer == old(self).restore_buffer,
            final(self).visible_limit == old(self).visible_limit,
    {
        if self.filtered.len() > 0 && self.selected < self.filtered.len() - 1 {
            self.selected = self.selected + 1;
            if self.selected - self.scroll_offset >= self.visible_limit {
                self.scroll_offset = self.selected - (self.visible_limit - 1);
            }
        }
    }

    /// Adds `ch` to the query and filters anew.
    pub fn type_char(&mut self, ch: char)
        requires
            old(self).scroll_offset <= old(self).selected,
            old(self).visible_limit >= 1,
        ensures
            final(self).wf(),
            final(self).query@ == old(self).query@.push(ch),
            score_order(final(self).items@, final(self).query@, final(self).filtered@),
            final(self).items@ == old(self).items@,
            final(self).title@ == old(self).title@,
            final(self).restore_buffer == old(self).restore_buffer,
            final(self).visible_limit == old(self).visible_limit,
    {
        string_push(&mut self.query, ch);
        self.update_filter();
    }

    /// Takes the last char off the query (if any) and filters anew.
    pub fn backspace(&mut self)
        requires
            old(self).scroll_offset <= old(self).selected,
            old(self).visible_limit >= 1,
        ensures
            final(self).wf(),
            final(self).query@ == (if old(self).query@.len() > 0 { old(self).query@.drop_last() } else { old(self).query@ }),
            score_order(final(self).items@, final(self).query@, final(self).filtered@),
            final(self).items@ == old(self).items@,
            final(self).title@ == old(self).title@,
            final(self).restore_buffer == old(self).restore_buffer,
            final(self).visible_limit == old(self).visible_limit,
    {
        string_pop(&mut self.query);
        self.update_filter();
    }

    /// The rows shown: (position in the list, item index) from the scroll
    /// position, at most `visible_limit` of them.
    pub fn visible_items(&self) -> (r: Vec<(usize, usize)>)
        requires
            self.wf(),
            self.scroll_offset <= self.filtered@.len(),
        ensures
            ({
                let end = if self.scroll_offset + self.visible_limit < self.filtered@.len() {
                    self.scroll_offset + self.visible_limit
                } else {
                    self.filtered@.len() as int
                };
                &&& r@.len() == end - self.scroll_offset
                &&& forall|k: int|
                    0 <= k < r@.len() ==> r@[k] == (
                    (self.scroll_offset + k) as usize,
                    self.filtered@[self.scroll_offset + k],
                )
            }),
    {
        let len = self.filtered.len();
        let end = if self.visible_limit < len - self.scroll_offset { self.scroll_offset + self.visible_limit } else { len };
        let mut r: Vec<(usize, usize)> = Vec::new();
        let mut k = self.scroll_offset;
        while k < end
            invariant
                self.scroll_offset <= k <= end <= len,
                len == self.filtered@.len(),
                r@.len() == k - self.scroll_offset,
                forall|m: int| 0 <= m < r@.len() ==> r@[m] == ((self.scroll_offset + m) as usize, self.filtered@[self.scroll_offset + m]),
            decreases end - k,
        {
            r.push((k, self.filtered[k]));
            k = k + 1;
        }
        r
    }

    /// The selected item, if the list is not empty.
    pub fn selected_item(&self) -> (r: Option<&PickerItem>)
        requires
            self.wf(),
        ensures
            self.selected < self.filtered@.len() ==> r == Some(&self.items@[self.filtered@[self.selected as int] as int]),
            self.selected >= self.filtered@.len() ==> r is None,
    {
        if self.selected < self.filtered.len() {
            Some(&self.items[self.filtered[self.selected]])
        } else {
            None
        }
    }

    /// `title (matching/total): query`.
    pub fn status_line(&self) -> (r: String)
        ensures
            r@ == self.title@ + " ("@ + decimal(self.filtered@.len()) + "/"@ + decimal(self.items@.len()) + "): "@
                + self.query@,
    {
        let mut s = str_to_string(self.title.as_str());
        string_push_str(&mut s, " (");
        push_decimal(&mut s, self.filtered.len());
        string_push_str(&mut s, "/");
        push_decimal(&mut s, self.items.len());
        string_push_str(&mut s, "): ");
        string_push_str(&mut s, self.query.as_str());
        s
    }
}


/// What a key in a picker asks of the application.
pub enum PickerEvent {
    /// Perform this action (the selected item's) and close the picker.
    Select(EditorAction),
    /// Close the picker, showing this buffer again if any.
    Cancel(Option<usize>),
    /// The selection or the list changed: perform the newly selected item's
    /// preview action, if it has one.
    PreviewChanged(Option<EditorAction>),
    /// Nothing to do.
    Noop,
}

/// The action of an optional action.
pub open spec fn opt_action(a: Option<EditorAction>) -> Option<ActionView> {
    match a {
        Some(x) => Some(x@),
        None => None,
    }
}

/// The selected item's action, if an item is selected.
pub open spec fn selected_action(p: Picker) -> Option<ActionView> {
    if p.selected < p.filtered@.len() {
        Some(p.items@[p.filtered@[p.selected as int] as int].action@)
    } else {
        None
    }
}

/// The selected item's preview action, if an item is selected and has
/// one.
pub open spec fn selected_preview(p: Picker) -> Option<ActionView> {
    if p.selected < p.filtered@.len() {
        opt_action(p.items@[p.filtered@[p.selected as int] as int].preview_action)
    } else {
        None
    }
}

/// The chars of `s` that are not control chars.
pub open spec fn printable(s: Seq<char>) -> Seq<char>
    decreases s.len(),
{
    if s.len() == 0 {
        Seq::empty()
    } else if is_unicode_control(s.last()) {
        printable(s.drop_last())
    } else {
        printable(s.drop_last()).push(s.last())
    }
}

/// `p1` is `p0` with the selection moved up a row.
pub open spec fn moved_up(p0: Picker, p1: Picker) -> bool {
    &&& p1.selected == (if p0.selected > 0 { (p0.selected - 1) as usize } else { p0.selected })
    &&& p1.scroll_offset == (if p0.selected > 0 && p0.selected - 1 < p0.scroll_offset {
        (p0.selected - 1) as usize
    } else {
        p0.scroll_offset
    })
    &&& p1.items@ == p0.items@ && p1.filtered@ == p0.filtered@ && p1.query@ == p0.query@
}

/// `p1` is `p0` with the selection moved down a row.
pub open spec fn moved_down(p0: Picker, p1: Picker) -> bool {
    &&& p1.selected == (if p0.filtered@.len() > 0 && p0.selected + 1 < p0.filtered@.len() {
        (p0.selected + 1) as usize
    } else {
        p0.selected
    })
    &&& p1.scroll_offset == (if p0.filtered@.len() > 0 && p0.selected + 1 < p0.filtered@.len() && p0.selected + 1
        >= p0.scroll_offset + p0.visible_limit {
        (p0.selected + 2 - p0.visible_limit) as usize
    } else {
        p0.scroll_offset
    })
    &&& p1.items@ == p0.items@ && p1.filtered@ == p0.filtered@ && p1.query@ == p0.query@
}

/// `p1` lists `p0`'s items that match query `q`, best first.
pub open spec fn refiltered(p0: Picker, p1: Picker, q: Seq<char>) -> bool {
    &&& p1.query@ == q
    &&& p1.items@ == p0.items@
    &&& score_order(p1.items@, q, p1.filtered@)
}

/// `r` asks for the preview of `p`'s selected item.
pub open spec fn previews(r: PickerEvent, p: Picker) -> bool {
    r matches PickerEvent::PreviewChanged(a) && opt_action(a) == selected_preview(p)
}

/// Whether `key` with `modifiers` is control and the letter `c`.
pub open spec fn is_ctrl_letter(key: Key, modifiers: KeyModifiers, c: Seq<char>) -> bool {
    modifiers.control && (key matches Key::Character(s) && s@ == c)
}

/// A copy of an optional action.
fn copy_opt_action(a: &Option<EditorAction>) -> (r: Option<EditorAction>)
    ensures
        opt_action(r) == opt_action(*a),
{
    match a {
        Some(x) => Some(copy_action(x)),
        None => None,
    }
}

impl Picker {
    /// The preview of the selected item.
    fn preview_event(&self) -> (r: PickerEvent)
        requires
            self.wf(),
        ensures
            previews(r, *self),
    {
        match self.selected_item() {
            Some(item) => PickerEvent::PreviewChanged(copy_opt_action(&item.preview_action)),
            None => PickerEvent::PreviewChanged(None),
        }
    }

    /// Handles a key: escape cancels, enter selects, the arrows (and
    /// control with `p` or `n`) move the selection, backspace and typed text
    /// edit the query; after a move or an edit the selected item is
    /// previewed.
    pub fn handle_key(&mut self, key: &Key, modifiers: &KeyModifiers, text: Option<&str>) -> (r: PickerEvent)
        requires
            old(self).wf(),
        ensures
            final(self).wf(),
            final(self).title@ == old(self).title@,
            final(self).restore_buffer == old(self).restore_buffer,
            final(self).visible_limit == old(self).visible_limit,
            if *key == Key::Named(NamedKey::Escape) {
                *final(self) == *old(self) && r == PickerEvent::Cancel(old(self).restore_buffer)
            } else if *key == Key::Named(NamedKey::Enter) {
                &&& *final(self) == *old(self)
                &&& match selected_action(*old(self)) {
                    Some(a) => r matches PickerEvent::Select(x) && x@ == a,
                    None => r == PickerEvent::Cancel(None),
                }
            } else if *key == Key::Named(NamedKey::ArrowUp) || is_ctrl_letter(*key, *modifiers, "p"@) {
                moved_up(*old(self), *final(self)) && previews(r, *final(self))
            } else if *key == Key::Named(NamedKey::ArrowDown) || is_ctrl_letter(*key, *modifiers, "n"@) {
                moved_down(*old(self), *final(self)) && previews(r, *final(self))
            } else if *key == Key::Named(NamedKey::Backspace) {
                &&& refiltered(
                    *old(self),
                    *final(self),
                    if old(self).query@.len() > 0 { old(self).query@.drop_last() } else { old(self).query@ },
                )
                &&& previews(r, *final(self))
            } else {
                match text {
                    Some(t) => {
                        &&& printable(t@).len() == 0 ==> *final(self) == *old(self)
                        &&& printable(t@).len() > 0 ==> refiltered(*old(self), *final(self), old(self).query@ + printable(t@))
                        &&& previews(r, *final(self))
                    },
                    None => *final(self) == *old(self) && r is Noop,
                }
            },
    {
        let ctrl_p = match key {
            Key::Character(s) => modifiers.control && crate::strs::str_eq(s.as_str(), "p"),
            _ => false,
        };
        let ctrl_n = match key {
            Key::Character(s) => modifiers.control && crate::strs::str_eq(s.as_str(), "n"),
            _ => false,
        };
        if key.is_named(NamedKey::Escape) {
            return PickerEvent::Cancel(self.restore_buffer);
        }
        if key.is_named(NamedKey::Enter) {
            return match self.selected_item() {
                Some(item) => PickerEvent::Select(copy_action(&item.action)),
                None => PickerEvent::Cancel(None),
            };
        }
        if key.is_named(NamedKey::ArrowUp) || ctrl_p {
            self.move_up();
            return self.preview_event();
        }
        if key.is_named(NamedKey::ArrowDown) || ctrl_n {
            self.move_down();
            return self.preview_event();
        }
        if key.is_named(NamedKey::Backspace) {
            self.backspace();
            return self.preview_event();
        }
        match text {
            Some(t) => {
                let v = chars_of(t);
                let ghost q0 = self.query@;
                let mut typed = false;
                let mut i: usize = 0;
                while i < v.len()
                    invariant
                        i <= v@.len(),
                        v@ == t@,
                        self.wf(),
                        self.title@ == old(self).title@,
                        self.restore_buffer == old(self).restore_buffer,
                        self.visible_limit == old(self).visible_limit,
                        q0 == old(self).query@,
                        typed == (printable(v@.take(i as int)).len() > 0),
                        !typed ==> *self == *old(self),
                        typed ==> refiltered(*old(self), *self, q0 + printable(v@.take(i as int))),
                    decreases v@.len() - i,
                {
                    proof {
                        assert(v@.take(i + 1).drop_last() =~= v@.take(i as int));
                    }
                    let c = v[i];
                    if !char_is_control(c) {
                        self.type_char(c);
                        typed = true;
                        proof {
                            assert(q0 + printable(v@.take(i + 1)) =~= (q0 + printable(v@.take(i as int))).push(c));
                        }
                    }
                    i = i + 1;
                }
                proof {
                    assert(v@.take(v@.len() as int) =~= v@);
                }
                self.preview_event()
            },
            None => PickerEvent::Noop,
        }
    }
}

} // verus!
