//! The completion popup's state: the items a language server offered, the
//! ones that match what was typed since, their order, and the selection.
use vstd::prelude::*;
use crate::keys::{Key, KeyModifiers, NamedKey};
use crate::action::{ActionView, EditorAction, action_views};
use crate::buffer::{Buffer, is_word_char};
use crate::text::{line_of, line_start, lemma_line_of_bounds};
use crate::strs::{char_is_alphanumeric, char_alphanumeric, str_eq};
use crate::strs::{byte_len, chars_of, string_of_chars, lemma_byte_len_subrange, chars_contain, chars_lt, chars_start_with, lex_lt, lemma_lex_total,
    lemma_lex_trans, seq_contains, seq_starts_with, str_lowercase, string_pop, string_push, to_lowercase};

verus! {

/// How many items the popup shows at once.
pub const MAX_VISIBLE: usize = 8;

/// The kind of a completion item, as the popup marks it.
#[derive(Debug, Clone, Copy, PartialEq, Eq, Structural)]
pub enum CompletionKind {
    Function,
    Variable,
    Field,
    Type,
    Module,
    Keyword,
    Snippet,
    File,
    Constant,
    Other,
}

impl CompletionKind {
    /// The short mark shown before an item of this kind.
    pub open spec fn badge_spec(self) -> Seq<char> {
        match self {
            CompletionKind::Function => "fn"@,
            CompletionKind::Variable => "var"@,
            CompletionKind::Field => "fd"@,
            CompletionKind::Type => "ty"@,
            CompletionKind::Module => "mod"@,
            CompletionKind::Keyword => "kw"@,
            CompletionKind::Snippet => "sn"@,
            CompletionKind::File => "fi"@,
            CompletionKind::Constant => "ct"@,
            CompletionKind::Other => "  "@,
        }
    }

    /// The short mark shown before an item of this kind.
    pub fn badge(&self) -> (r: &'static str)
        ensures
            r@ == self.badge_spec(),
    {
        match self {
            CompletionKind::Function => "fn",
            CompletionKind::Variable => "var",
            CompletionKind::Field => "fd",
            CompletionKind::Type => "ty",
            CompletionKind::Module => "mod",
            CompletionKind::Keyword => "kw",
            CompletionKind::Snippet => "sn",
            CompletionKind::File => "fi",
            CompletionKind::Constant => "ct",
            CompletionKind::Other => "  ",
        }
    }

    /// The kind for a completion item kind of the language server protocol,
    /// given by its number there (method 2, function 3, field 5, variable 6,
    /// class 7, interface 8, module 9, property 10, enum 13, keyword 14,
    /// snippet 15, file 17, enum member 20, constant 21, struct 22, type
    /// parameter 25).
    pub open spec fn from_lsp_spec(code: i32) -> CompletionKind {
        if code == 3 || code == 2 {
            CompletionKind::Function
        } else if code == 6 {
            CompletionKind::Variable
        } else if code == 5 || code == 10 {
            CompletionKind::Field
        } else if code == 7 || code == 22 || code == 8 || code == 13 || code == 25 {
            CompletionKind::Type
        } else if code == 9 {
            CompletionKind::Module
        } else if code == 14 {
            CompletionKind::Keyword
        } else if code == 15 {
            CompletionKind::Snippet
        } else if code == 17 {
            CompletionKind::File
        } else if code == 21 || code == 20 {
            CompletionKind::Constant
        } else {
            CompletionKind::Other
        }
    }

    /// The kind for the protocol's completion item kind numbered `code`.
    pub fn from_lsp(code: i32) -> (k: Self)
        ensures
            k == Self::from_lsp_spec(code),
    {
        if code == 3 || code == 2 {
            CompletionKind::Function
        } else if code == 6 {
            CompletionKind::Variable
        } else if code == 5 || code == 10 {
            CompletionKind::Field
        } else if code == 7 || code == 22 || code == 8 || code == 13 || code == 25 {
            CompletionKind::Type
        } else if code == 9 {
            CompletionKind::Module
        } else if code == 14 {
            CompletionKind::Keyword
        } else if code == 15 {
            CompletionKind::Snippet
        } else if code == 17 {
            CompletionKind::File
        } else if code == 21 || code == 20 {
            CompletionKind::Constant
        } else {
            CompletionKind::Other
        }
    }
}

/// One completion offered.
#[derive(Debug, Clone)]
pub struct CompletionItem {
    pub label: String,
    pub kind: Option<CompletionKind>,
    pub detail: Option<String>,
    pub filter_text: String,
    pub insert_text: String,
}

/// A completion item as values.
pub struct CompletionItemView {
    pub label: Seq<char>,
    pub kind: Option<CompletionKind>,
    pub detail: Option<Seq<char>>,
    pub filter_text: Seq<char>,
    pub insert_text: Seq<char>,
}

impl View for CompletionItem {
    type V = CompletionItemView;

    open spec fn view(&self) -> CompletionItemView {
        CompletionItemView {
            label: self.label@,
            kind: self.kind,
            detail: match self.detail {
                Some(d) => Some(d@),
                None => None,
            },
            filter_text: self.filter_text@,
            insert_text: self.insert_text@,
        }
    }
}

/// The items as values.
pub open spec fn item_views(items: Seq<CompletionItem>) -> Seq<CompletionItemView> {
    items.map_values(|it: CompletionItem| it@)
}

/// Whether an item matches the lower-cased typed text `lp`: its lower-cased
/// filter text holds `lp` (every item matches when nothing was typed).
pub open spec fn item_matches(it: CompletionItemView, lp: Seq<char>) -> bool {
    lp.len() == 0 || seq_contains(str_lowercase(it.filter_text), lp)
}

/// Whether an item's lower-cased filter text starts with `lp`.
pub open spec fn item_starts(it: CompletionItemView, lp: Seq<char>) -> bool {
    seq_starts_with(str_lowercase(it.filter_text), lp)
}

/// Whether item `a` is listed before item `b`: items whose filter text
/// starts with the typed text first, then by label, then in the order they
/// were offered.
pub open spec fn ranks_before(items: Seq<CompletionItemView>, lp: Seq<char>, a: int, b: int) -> bool {
    let sa = item_starts(items[a], lp);
    let sb = item_starts(items[b], lp);
    (sa && !sb) || (sa == sb && (lex_lt(items[a].label, items[b].label) || (items[a].label == items[b].label
        && a < b)))
}

/// `f` lists exactly the items that match `lp`, in `ranks_before` order.
pub open spec fn filtered_ok(items: Seq<CompletionItemView>, lp: Seq<char>, f: Seq<usize>) -> bool {
    &&& forall|k: int| 0 <= k < f.len() ==> f[k] < items.len() && item_matches(items[f[k] as int], lp)
    &&& forall|i: int| 0 <= i < items.len() && item_matches(items[i], lp) ==> f.contains(i as usize)
    &&& forall|j: int, k: int| 0 <= j < k < f.len() ==> ranks_before(items, lp, f[j] as int, f[k] as int)
}

/// `ranks_before` is a strict total order on distinct items.
proof fn lemma_ranks_order(items: Seq<CompletionItemView>, lp: Seq<char>, a: int, b: int, c: int)
    ensures
        !ranks_before(items, lp, a, a),
        a != b ==> ranks_before(items, lp, a, b) || ranks_before(items, lp, b, a),
        ranks_before(items, lp, a, b) ==> !ranks_before(items, lp, b, a),
        ranks_before(items, lp, a, b) && ranks_before(items, lp, b, c) ==> ranks_before(items, lp, a, c),
{
    lemma_lex_total(items[a].label, items[b].label);
    lemma_lex_total(items[b].label, items[c].label);
    lemma_lex_total(items[a].label, items[c].label);
    if lex_lt(items[a].label, items[b].label) && lex_lt(items[b].label, items[c].label) {
        lemma_lex_trans(items[a].label, items[b].label, items[c].label);
    }
}

/// What accepting the selection gives: the insert text of the selected item
/// and the length in bytes of the typed text it replaces.
pub enum CompletionEvent {
    Accept { insert_text: String, prefix_len: usize },
    Dismiss,
    Noop,
}

/// The completion popup.
pub struct CompletionState {
    items: Vec<CompletionItem>,
    filtered: Vec<usize>,
    selected: usize,
    scroll_offset: usize,
    prefix: String,
    trigger_offset: usize,
}

impl CompletionState {
    /// The items offered.
    pub closed spec fn items_view(&self) -> Seq<CompletionItemView> {
        item_views(self.items@)
    }

    /// The matching items, as indices into `items_view`, in display order.
    pub closed spec fn filtered_view(&self) -> Seq<usize> {
        self.filtered@
    }

    /// The position of the selection in `filtered_view`.
    pub closed spec fn selected_pos(&self) -> usize {
        self.selected
    }

    /// The first position shown.
    pub closed spec fn scroll(&self) -> usize {
        self.scroll_offset
    }

    /// The text typed since completion started.
    pub closed spec fn prefix_view(&self) -> Seq<char> {
        self.prefix@
    }

    /// Where in the text completion started.
    pub closed spec fn trigger_view(&self) -> usize {
        self.trigger_offset
    }

    /// The matching items are listed in order, the selection is one of them
    /// (or the start when there is none) and it is among those shown.
    pub open spec fn wf(&self) -> bool {
        &&& filtered_ok(self.items_view(), str_lowercase(self.prefix_view()), self.filtered_view())
        &&& self.filtered_view().len() == 0 ==> self.selected_pos() == 0 && self.scroll() == 0
        &&& self.filtered_view().len() > 0 ==> self.selected_pos() < self.filtered_view().len()
        &&& self.scroll() <= self.selected_pos() < self.scroll() + MAX_VISIBLE
    }

    /// The insert text of the selected item and the typed text's byte
    /// length, when an item is selected.
    pub open spec fn accept_spec(&self) -> Option<(Seq<char>, usize)> {
        if self.selected_pos() < self.filtered_view().len() {
            Some(
                (
                    self.items_view()[self.filtered_view()[self.selected_pos() as int] as int].insert_text,
                    byte_len(self.prefix_view()) as usize,
                ),
            )
        } else {
            None
        }
    }

    /// Lists the items that match the typed text, in order, and selects the
    /// first.
    fn apply_filter(&mut self)
        ensures
            filtered_ok(item_views(final(self).items@), str_lowercase(final(self).prefix@), final(self).filtered@),
            final(self).items@ == old(self).items@,
            final(self).prefix@ == old(self).prefix@,
            final(self).trigger_offset == old(self).trigger_offset,
            final(self).selected == 0,
            final(self).scroll_offset == 0,
    {
        let lp = to_lowercase(self.prefix.as_str());
        let lpv = chars_of(lp.as_str());
        let ghost items = item_views(self.items@);
        let ghost lps = lpv@;
        let n = self.items.len();
        let mut starts: Vec<bool> = Vec::new();
        let mut labels: Vec<Vec<char>> = Vec::new();
        let mut f: Vec<usize> = Vec::new();
        let mut i: usize = 0;
        while i < n
            invariant
                n == self.items@.len(),
                items == item_views(self.items@),
                lps == str_lowercase(self.prefix@),
                lpv@ == lps,
                i <= n,
                starts@.len() == i,
                labels@.len() == i,
                forall|k: int| 0 <= k < i ==> #[trigger] starts@[k] == item_starts(items[k], lps),
                forall|k: int| 0 <= k < i ==> #[trigger] labels@[k]@ == items[k].label,
                forall|k: int| 0 <= k < f@.len() ==> f@[k] < i && item_matches(items[f@[k] as int], lps),
                forall|k: int| 0 <= k < i && item_matches(items[k], lps) ==> f@.contains(k as usize),
                forall|j: int, k: int| 0 <= j < k < f@.len() ==> ranks_before(items, lps, f@[j] as int, f@[k] as int),
            decreases n - i,
        {
            let ft = to_lowercase(self.items[i].filter_text.as_str());
            let ftv = chars_of(ft.as_str());
            let m = lpv.len() == 0 || chars_contain(&ftv, &lpv);
            starts.push(chars_start_with(&ftv, &lpv));
            labels.push(chars_of(self.items[i].label.as_str()));
            proof {
                assert(items[i as int] == self.items@[i as int]@);
            }
            if m {
                let mut pos: usize = 0;
                while pos < f.len() && !self.ranks_before_exec(&starts, &labels, i, f[pos], Ghost(items), Ghost(lps))
                    invariant
                        items == item_views(self.items@),
                        i < n == self.items@.len(),
                        starts@.len() == i + 1,
                        labels@.len() == i + 1,
                        forall|k: int| 0 <= k <= i ==> #[trigger] starts@[k] == item_starts(items[k], lps),
                        forall|k: int| 0 <= k <= i ==> #[trigger] labels@[k]@ == items[k].label,
                        forall|k: int| 0 <= k < f@.len() ==> f@[k] < i,
                        pos <= f@.len(),
                        forall|k: int| 0 <= k < pos ==> ranks_before(items, lps, f@[k] as int, i as int),
                    decreases f@.len() - pos,
                {
                    proof {
                        lemma_ranks_order(items, lps, i as int, f@[pos as int] as int, i as int);
                    }
                    pos = pos + 1;
                }
                let ghost old_f = f@;
                f.insert(pos, i);
                proof {
                    assert forall|j: int, k: int| 0 <= j < k < f@.len() implies ranks_before(items, lps, f@[j] as int, f@[k] as int) by {
                        if k == pos {
                        } else if j == pos {
                            if k > pos + 1 {
                                lemma_ranks_order(items, lps, i as int, old_f[pos as int] as int, old_f[k - 1] as int);
                            }
                        } else if j < pos && k > pos {
                            lemma_ranks_order(items, lps, old_f[j] as int, i as int, old_f[k - 1] as int);
                        }
                    }
                    assert forall|k: int| 0 <= k <= i && item_matches(items[k], lps) implies f@.contains(k as usize) by {
                        if k < i {
                            let idx = choose|idx: int| 0 <= idx < old_f.len() && old_f[idx] == k as usize;
                            if idx < pos {
                                assert(f@[idx] == k as usize);
                            } else {
                                assert(f@[idx + 1] == k as usize);
                            }
                        } else {
                            assert(f@[pos as int] == i);
                        }
                    }
                }
            } else {
                proof {
                    assert(!item_matches(items[i as int], lps));
                }
            }
            i = i + 1;
        }
        self.filtered = f;
        self.selected = 0;
        self.scroll_offset = 0;
    }

    /// Whether item `a` is listed before item `b`.
    fn ranks_before_exec(
        &self,
        starts: &Vec<bool>,
        labels: &Vec<Vec<char>>,
        a: usize,
        b: usize,
        Ghost(items): Ghost<Seq<CompletionItemView>>,
        Ghost(lp): Ghost<Seq<char>>,
    ) -> (r: bool)
        requires
            a < starts@.len(),
            b < starts@.len(),
            starts@.len() == labels@.len(),
            items.len() >= starts@.len(),
            starts@[a as int] == item_starts(items[a as int], lp),
            starts@[b as int] == item_starts(items[b as int], lp),
            labels@[a as int]@ == items[a as int].label,
            labels@[b as int]@ == items[b as int].label,
        ensures
            r == ranks_before(items, lp, a as int, b as int),
    {
        let sa = starts[a];
        let sb = starts[b];
        if sa && !sb {
            return true;
        }
        if sa != sb {
            return false;
        }
        proof {
            lemma_lex_total(items[a as int].label, items[b as int].label);
        }
        if chars_lt(&labels[a], &labels[b]) {
            return true;
        }
        !chars_lt(&labels[b], &labels[a]) && a < b
    }
}

impl CompletionState {
    /// The popup for `items`, offered where completion started
    /// (`trigger_offset`), with `prefix` typed since.
    pub fn new(items: Vec<CompletionItem>, trigger_offset: usize, prefix: &str) -> (s: Self)
        ensures
            s.wf(),
            s.items_view() == item_views(items@),
            s.prefix_view() == prefix@,
            s.trigger_view() == trigger_offset,
            s.selected_pos() == 0,
            s.scroll() == 0,
    {
        let mut state = CompletionState {
            items,
            filtered: Vec::new(),
            selected: 0,
            scroll_offset: 0,
            prefix: crate::strs::str_to_string(prefix),
            trigger_offset,
        };
        state.apply_filter();
        state
    }

    /// Where in the text completion started.
    pub fn trigger_offset(&self) -> (r: usize)
        ensures
            r == self.trigger_view(),
    {
        self.trigger_offset
    }

    /// Whether no item matches.
    pub fn is_empty(&self) -> (r: bool)
        ensures
            r == (self.filtered_view().len() == 0),
    {
        self.filtered.len() == 0
    }

    /// How many rows the popup shows.
    pub fn visible_count(&self) -> (r: usize)
        ensures
            r == (if self.filtered_view().len() < MAX_VISIBLE { self.filtered_view().len() } else { MAX_VISIBLE as nat }),
    {
        if self.filtered.len() < MAX_VISIBLE {
            self.filtered.len()
        } else {
            MAX_VISIBLE
        }
    }

    /// Adds `ch` to the typed text and lists the items anew.
    pub fn push_char(&mut self, ch: char)
        ensures
            final(self).wf(),
            final(self).prefix_view() == old(self).prefix_view().push(ch),
            final(self).items_view() == old(self).items_view(),
            final(self).trigger_view() == old(self).trigger_view(),
            final(self).selected_pos() == 0,
            final(self).scroll() == 0,
    {
        string_push(&mut self.prefix, ch);
        self.apply_filter();
    }

    /// Takes the last char off the typed text and lists the items anew;
    /// false, changing nothing, when nothing is typed.
    pub fn pop_char(&mut self) -> (r: bool)
        requires
            old(self).wf(),
        ensures
            r == (old(self).prefix_view().len() > 0),
            r ==> final(self).prefix_view() == old(self).prefix_view().drop_last() && final(self).selected_pos() == 0
                && final(self).scroll() == 0,
            !r ==> final(self).prefix_view() == old(self).prefix_view() && final(self).selected_pos()
                == old(self).selected_pos() && final(self).scroll() == old(self).scroll()
                && final(self).filtered_view() == old(self).filtered_view(),
            final(self).wf(),
            final(self).items_view() == old(self).items_view(),
            final(self).trigger_view() == old(self).trigger_view(),
    {
        if string_pop(&mut self.prefix).is_some() {
            self.apply_filter();
            true
        } else {
            false
        }
    }

    /// The typed text's length in bytes.
    pub fn prefix_len(&self) -> (r: usize)
        ensures
            r == byte_len(self.prefix_view()),
    {
        self.prefix.as_str().as_bytes().len()
    }

    /// Keeps the selection among the rows shown, scrolling as little as
    /// needed.
    fn ensure_selected_visible(&mut self)
        ensures
            final(self).scroll_offset == (if old(self).selected < old(self).scroll_offset {
                old(self).selected
            } else if old(self).selected >= old(self).scroll_offset + MAX_VISIBLE {
                (old(self).selected + 1 - MAX_VISIBLE) as usize
            } else {
                old(self).scroll_offset
            }),
            final(self).selected == old(self).selected,
            final(self).items@ == old(self).items@,
            final(self).filtered@ == old(self).filtered@,
            final(self).prefix@ == old(self).prefix@,
            final(self).trigger_offset == old(self).trigger_offset,
    {
        if self.selected < self.scroll_offset {
            self.scroll_offset = self.selected;
        } else if self.selected - self.scroll_offset >= MAX_VISIBLE {
            self.scroll_offset = self.selected - (MAX_VISIBLE - 1);
        }
    }

    /// Selects the next item, wrapping to the first, and scrolls the
    /// least that shows it.
    pub fn move_down(&mut self)
        requires
            old(self).wf(),
        ensures
            final(self).wf(),
            final(self).selected_pos() == next_pos(old(self).selected_pos() as int, old(self).filtered_view().len() as int),
            final(self).scroll() == scroll_to_show(final(self).selected_pos() as int, old(self).scroll() as int),
            final(self).items_view() == old(self).items_view(),
            final(self).filtered_view() == old(self).filtered_view(),
            final(self).prefix_view() == old(self).prefix_view(),
            final(self).trigger_view() == old(self).trigger_view(),
    {
        if self.filtered.len() == 0 {
            return;
        }
        self.selected = (self.selected + 1) % self.filtered.len();
        self.ensure_selected_visible();
    }

    /// Selects the previous item, wrapping to the last, and scrolls the
    /// least that shows it.
    pub fn move_up(&mut self)
        requires
            old(self).wf(),
        ensures
            final(self).wf(),
            final(self).selected_pos() == prev_pos(old(self).selected_pos() as int, old(self).filtered_view().len() as int),
            final(self).scroll() == scroll_to_show(final(self).selected_pos() as int, old(self).scroll() as int),
            final(self).items_view() == old(self).items_view(),
            final(self).filtered_view() == old(self).filtered_view(),
            final(self).prefix_view() == old(self).prefix_view(),
            final(self).trigger_view() == old(self).trigger_view(),
    {
        if self.filtered.len() == 0 {
            return;
        }
        if self.selected == 0 {
            self.selected = self.filtered.len() - 1;
        } else {
            self.selected = self.selected - 1;
        }
        self.ensure_selected_visible();
    }

    /// Accepting the selection: the selected item's insert text and the
    /// typed text's byte length; nothing when no item matches.
    pub fn accept_selected(&self) -> (r: Option<CompletionEvent>)
        requires
            self.wf(),
        ensures
            match self.accept_spec() {
                Some((text, n)) => r matches Some(CompletionEvent::Accept { insert_text, prefix_len })
                    && insert_text@ == text && prefix_len == n,
                None => r is None,
            },
    {
        if self.selected >= self.filtered.len() {
            return None;
        }
        let idx = self.filtered[self.selected];
        let insert_text = self.items[idx].insert_text.clone();
        proof {
            assert(self.items_view()[idx as int] == self.items@[idx as int]@);
        }
        Some(CompletionEvent::Accept { insert_text, prefix_len: self.prefix.as_str().len() })
    }

    /// Handles a key while the popup is open: Escape dismisses it, Enter and
    /// Tab accept the selection (dismissing when none), the arrows and
    /// control-n / control-p move the selection.
    pub fn handle_key(&mut self, key: &Key, modifiers: &KeyModifiers) -> (r: CompletionEvent)
        requires
            old(self).wf(),
        ensures
            final(self).wf(),
            final(self).items_view() == old(self).items_view(),
            final(self).filtered_view() == old(self).filtered_view(),
            final(self).prefix_view() == old(self).prefix_view(),
            *key == Key::Named(NamedKey::Escape) ==> r is Dismiss && final(self).selected_pos() == old(self).selected_pos(),
            (*key == Key::Named(NamedKey::Enter) || *key == Key::Named(NamedKey::Tab)) ==> final(self).selected_pos()
                == old(self).selected_pos() && match old(self).accept_spec() {
                Some((text, n)) => r matches CompletionEvent::Accept { insert_text, prefix_len }
                    && insert_text@ == text && prefix_len == n,
                None => r is Dismiss,
            },
            (*key == Key::Named(NamedKey::ArrowDown) || (modifiers.control && key.text_spec() == seq!['n'])) ==> r is Noop
                && final(self).selected_pos() == (if old(self).filtered_view().len() == 0 {
                0
            } else {
                ((old(self).selected_pos() + 1) % old(self).filtered_view().len() as int) as usize
            }),
            (*key == Key::Named(NamedKey::ArrowUp) || (modifiers.control && key.text_spec() == seq!['p'])) ==> r is Noop
                && final(self).selected_pos() == (if old(self).filtered_view().len() == 0 {
                0
            } else if old(self).selected_pos() == 0 {
                (old(self).filtered_view().len() - 1) as usize
            } else {
                (old(self).selected_pos() - 1) as usize
            }),
            !(*key == Key::Named(NamedKey::Escape) || *key == Key::Named(NamedKey::Enter) || *key == Key::Named(NamedKey::Tab)
                || *key == Key::Named(NamedKey::ArrowDown) || *key == Key::Named(NamedKey::ArrowUp)
                || (modifiers.control && (key.text_spec() == seq!['n'] || key.text_spec() == seq!['p'])))
                ==> r is Noop && final(self).selected_pos() == old(self).selected_pos(),
    {
        proof {
            assert(seq!['n'].len() == 1);
            assert(seq!['p'].len() == 1);
            assert(seq!['n'][0] != seq!['p'][0]);
        }
        if key.is_named(NamedKey::Escape) {
            return CompletionEvent::Dismiss;
        }
        if key.is_named(NamedKey::Enter) || key.is_named(NamedKey::Tab) {
            return match self.accept_selected() {
                Some(e) => e,
                None => CompletionEvent::Dismiss,
            };
        }
        if key.is_named(NamedKey::ArrowDown) {
            self.move_down();
            return CompletionEvent::Noop;
        }
        if key.is_named(NamedKey::ArrowUp) {
            self.move_up();
            return CompletionEvent::Noop;
        }
        if modifiers.control {
            if key.text_is_char('n') {
                self.move_down();
                return CompletionEvent::Noop;
            }
            if key.text_is_char('p') {
                self.move_up();
                return CompletionEvent::Noop;
            }
        }
        CompletionEvent::Noop
    }
}

/// The selection after moving down from `sel` among `len` items: the
/// next, wrapping to the first.
pub open spec fn next_pos(sel: int, len: int) -> int {
    if len == 0 {
        0
    } else {
        (sel + 1) % len
    }
}

/// The selection after moving up from `sel` among `len` items: the
/// previous, wrapping to the last.
pub open spec fn prev_pos(sel: int, len: int) -> int {
    if len == 0 {
        0
    } else if sel == 0 {
        len - 1
    } else {
        sel - 1
    }
}

/// The scroll that shows row `sel`, moved as little as possible from
/// `scroll`.
pub open spec fn scroll_to_show(sel: int, scroll: int) -> int {
    if sel < scroll {
        sel
    } else if sel >= scroll + MAX_VISIBLE {
        sel + 1 - MAX_VISIBLE
    } else {
        scroll
    }
}

/// Moving the selection down then up (`move_down`, then `move_up`) gives
/// it back, and so does moving up then down.
pub proof fn law_move_down_up(sel: int, len: int)
    requires
        0 <= sel < len,
    ensures
        prev_pos(next_pos(sel, len), len) == sel,
        next_pos(prev_pos(sel, len), len) == sel,
{
    let x: int = sel + 1;
    let m: int = len;
    assert((len - 1 + 1) % len == 0) by (nonlinear_arith)
        requires
            len > 0,
    ;
    assert(sel % len == sel) by (nonlinear_arith)
        requires
            0 <= sel < len,
    ;
    if x < m {
        assert(x % m == x) by (nonlinear_arith)
            requires
                0 <= x < m,
        ;
    } else {
        assert(x % m == 0) by (nonlinear_arith)
            requires
                x == m,
                m > 0,
        ;
    }
}

/// The end of the run of ASCII digits of `s` from `i`.
pub open spec fn digits_end(s: Seq<char>, i: int) -> int
    decreases s.len() - i,
{
    if 0 <= i < s.len() && '0' <= s[i] <= '9' {
        digits_end(s, i + 1)
    } else {
        i
    }
}

/// Just past the first `}` of `s` from `i`, or the end.
pub open spec fn brace_end(s: Seq<char>, i: int) -> int
    decreases s.len() - i,
{
    if i < 0 || i >= s.len() {
        s.len() as int
    } else if s[i] == '}' {
        i + 1
    } else {
        brace_end(s, i + 1)
    }
}

/// The default text of a placeholder `${N:text}` read from `i` with
/// `depth` braces open, nested braces kept, and the index just past the
/// brace that closes it (or the end).
pub open spec fn default_text(s: Seq<char>, i: int, depth: int) -> (Seq<char>, int)
    decreases s.len() - i,
{
    if i < 0 || i >= s.len() {
        (Seq::empty(), s.len() as int)
    } else if s[i] == '{' {
        let (t, e) = default_text(s, i + 1, depth + 1);
        (seq!['{'] + t, e)
    } else if s[i] == '}' {
        if depth == 1 {
            (Seq::empty(), i + 1)
        } else {
            let (t, e) = default_text(s, i + 1, depth - 1);
            (seq!['}'] + t, e)
        }
    } else {
        let (t, e) = default_text(s, i + 1, depth);
        (seq![s[i]] + t, e)
    }
}

pub proof fn lemma_digits_end(s: Seq<char>, i: int)
    requires
        0 <= i,
    ensures
        i <= digits_end(s, i),
        digits_end(s, i) <= s.len() || digits_end(s, i) == i,
    decreases s.len() - i,
{
    if 0 <= i < s.len() && '0' <= s[i] <= '9' {
        lemma_digits_end(s, i + 1);
    }
}

pub proof fn lemma_brace_end(s: Seq<char>, i: int)
    requires
        0 <= i,
    ensures
        i < brace_end(s, i) || brace_end(s, i) == s.len(),
        brace_end(s, i) <= s.len() || i > s.len(),
    decreases s.len() - i,
{
    if 0 <= i < s.len() && s[i] != '}' {
        lemma_brace_end(s, i + 1);
    }
}

pub proof fn lemma_default_text_end(s: Seq<char>, i: int, depth: int)
    requires
        0 <= i,
    ensures
        i < default_text(s, i, depth).1 || default_text(s, i, depth).1 == s.len(),
        default_text(s, i, depth).1 <= s.len() || i > s.len(),
    decreases s.len() - i,
{
    if 0 <= i < s.len() {
        if s[i] == '{' {
            lemma_default_text_end(s, i + 1, depth + 1);
        } else if s[i] == '}' {
            if depth != 1 {
                lemma_default_text_end(s, i + 1, depth - 1);
            }
        } else {
            lemma_default_text_end(s, i + 1, depth);
        }
    }
}

/// `s` from `i` with snippet placeholders replaced: `$N` dropped,
/// `${N}` dropped, `${N:text}` replaced by `text`.
pub open spec fn strip_from(s: Seq<char>, i: int) -> Seq<char>
    decreases s.len() - i,
{
    if i < 0 || i >= s.len() {
        Seq::empty()
    } else if s[i] == '$' {
        if i + 1 < s.len() && s[i + 1] == '{' {
            let d = digits_end(s, i + 2);
            proof {
                lemma_digits_end(s, i + 2);
            }
            if d < s.len() && s[d] == ':' {
                let (t, e) = default_text(s, d + 1, 1);
                proof {
                    lemma_default_text_end(s, d + 1, 1);
                }
                t + strip_from(s, e)
            } else {
                proof {
                    lemma_brace_end(s, d);
                }
                strip_from(s, brace_end(s, d))
            }
        } else if i + 1 < s.len() && '0' <= s[i + 1] <= '9' {
            strip_from(s, i + 2)
        } else {
            seq!['$'] + strip_from(s, i + 1)
        }
    } else {
        seq![s[i]] + strip_from(s, i + 1)
    }
}

/// `s` with snippet placeholders replaced: `$0`, `$1` and `${1}` dropped,
/// `${1:text}` replaced by `text`.
pub open spec fn strip_snippets(s: Seq<char>) -> Seq<char> {
    strip_from(s, 0)
}

/// `s` with snippet placeholders replaced: `$0`, `$1` and `${1}` dropped,
/// `${1:text}` replaced by `text`.
pub fn strip_snippet_placeholders(s: &str) -> (r: String)
    ensures
        r@ == strip_snippets(s@),
{
    let v = chars_of(s);
    let n = v.len();
    let mut out = String::new();
    let mut i: usize = 0;
    while i < n
        invariant
            n == v@.len(),
            i <= n,
            out@ + strip_from(v@, i as int) == strip_snippets(v@),
        decreases n - i,
    {
        let c = v[i];
        if c == '$' {
            if i + 1 < n && v[i + 1] == '{' {
                let mut d = i + 2;
                while d < n && v[d] >= '0' && v[d] <= '9'
                    invariant
                        n == v@.len(),
                        i + 2 <= d <= n,
                        digits_end(v@, d as int) == digits_end(v@, i + 2),
                    decreases n - d,
                {
                    d = d + 1;
                }
                if d < n && v[d] == ':' {
                    let mut j = d + 1;
                    let mut depth: usize = 1;
                    let ghost out0 = out@;
                    loop
                        invariant_except_break
                            n == v@.len(),
                            d + 1 <= j <= n,
                            1 <= depth <= j - d,
                            out0 + default_text(v@, d + 1, 1).0 == out@ + default_text(v@, j as int, depth as int).0,
                            default_text(v@, d + 1, 1).1 == default_text(v@, j as int, depth as int).1,
                        ensures
                            d + 1 <= j <= n,
                            out@ == out0 + default_text(v@, d + 1, 1).0,
                            j == default_text(v@, d + 1, 1).1,
                        decreases n - j,
                    {
                        if j >= n {
                            proof {
                                assert(out@ =~= out0 + default_text(v@, d + 1, 1).0);
                            }
                            break;
                        }
                        let inner = v[j];
                        if inner == '{' {
                            depth = depth + 1;
                            string_push(&mut out, inner);
                            proof {
                                assert(out0 + default_text(v@, d + 1, 1).0 =~= out@ + default_text(v@, j + 1, depth as int).0);
                            }
                        } else if inner == '}' {
                            if depth == 1 {
                                proof {
                                    assert(out@ =~= out0 + default_text(v@, d + 1, 1).0);
                                }
                                j = j + 1;
                                break;
                            }
                            depth = depth - 1;
                            string_push(&mut out, inner);
                            proof {
                                assert(out0 + default_text(v@, d + 1, 1).0 =~= out@ + default_text(v@, j + 1, depth as int).0);
                            }
                        } else {
                            string_push(&mut out, inner);
                            proof {
                                assert(out0 + default_text(v@, d + 1, 1).0 =~= out@ + default_text(v@, j + 1, depth as int).0);
                            }
                        }
                        j = j + 1;
                    }
                    proof {
                        assert(out@ == out0 + default_text(v@, d + 1, 1).0);
                        assert(j == default_text(v@, d + 1, 1).1);
                        assert(out0 + strip_from(v@, i as int) =~= out@ + strip_from(v@, j as int));
                    }
                    i = j;
                } else {
                    let mut j = d;
                    while j < n && v[j] != '}'
                        invariant
                            n == v@.len(),
                            d <= j <= n,
                            brace_end(v@, j as int) == brace_end(v@, d as int),
                        decreases n - j,
                    {
                        j = j + 1;
                    }
                    if j < n {
                        j = j + 1;
                    }
                    i = j;
                }
            } else if i + 1 < n && v[i + 1] >= '0' && v[i + 1] <= '9' {
                i = i + 2;
            } else {
                let ghost o = out@;
                string_push(&mut out, c);
                proof {
                    assert(o + strip_from(v@, i as int) =~= out@ + strip_from(v@, i + 1));
                }
                i = i + 1;
            }
        } else {
            let ghost o = out@;
            string_push(&mut out, c);
            proof {
                assert(o + strip_from(v@, i as int) =~= out@ + strip_from(v@, i + 1));
            }
            i = i + 1;
        }
    }
    assert(out@ + strip_from(v@, n as int) =~= out@);
    out
}

/// A completion item as a language server sent it, reduced to the fields
/// the popup uses.
pub struct LspCompletion {
    pub label: String,
    pub kind: Option<i32>,
    pub detail: Option<String>,
    pub filter_text: Option<String>,
    pub insert_text: Option<String>,
}

/// The text an item inserts before its placeholders are replaced: its
/// insert text, or else its label.
pub open spec fn raw_insert_text(it: LspCompletion) -> Seq<char> {
    match it.insert_text {
        Some(t) => t@,
        None => it.label@,
    }
}

/// The popup item for a server's item: the filter text defaults to the
/// label, the insert text to the label with placeholders replaced.
pub open spec fn item_from_lsp(it: LspCompletion) -> CompletionItemView {
    CompletionItemView {
        label: it.label@,
        kind: match it.kind {
            Some(k) => Some(CompletionKind::from_lsp_spec(k)),
            None => None,
        },
        detail: match it.detail {
            Some(d) => Some(d@),
            None => None,
        },
        filter_text: match it.filter_text {
            Some(f) => f@,
            None => it.label@,
        },
        insert_text: strip_snippets(raw_insert_text(it)),
    }
}

fn copy_string(s: &String) -> (r: String)
    ensures
        r@ == s@,
{
    crate::strs::str_to_string(s.as_str())
}

/// The popup item for a server's item.
pub fn completion_item_from_lsp(it: &LspCompletion) -> (r: CompletionItem)
    ensures
        r@ == item_from_lsp(*it),
{
    let kind = match it.kind {
        Some(k) => Some(CompletionKind::from_lsp(k)),
        None => None,
    };
    let detail = match &it.detail {
        Some(d) => Some(copy_string(d)),
        None => None,
    };
    let filter_text = match &it.filter_text {
        Some(f) => copy_string(f),
        None => copy_string(&it.label),
    };
    let insert_text = match &it.insert_text {
        Some(t) => strip_snippet_placeholders(t.as_str()),
        None => strip_snippet_placeholders(it.label.as_str()),
    };
    CompletionItem { label: copy_string(&it.label), kind, detail, filter_text, insert_text }
}

/// The popup for a server's completion reply: nothing when the reply held
/// no item list, when the list is empty, or when no item matches `prefix`.
pub fn parse_lsp_response(items: Option<Vec<LspCompletion>>, trigger_offset: usize, prefix: &str) -> (r: Option<CompletionState>)
    ensures
        match items {
            None => r is None,
            Some(v) => {
                let views = v@.map_values(|it: LspCompletion| item_from_lsp(it));
                let lp = str_lowercase(prefix@);
                if v@.len() == 0 || (forall|i: int| 0 <= i < views.len() ==> !item_matches(views[i], lp)) {
                    r is None
                } else {
                    r matches Some(st) && st.wf() && st.items_view() == views && st.prefix_view() == prefix@
                        && st.trigger_view() == trigger_offset && st.selected_pos() == 0
                }
            },
        },
{
    let v = match items {
        Some(v) => v,
        None => return None,
    };
    if v.len() == 0 {
        return None;
    }
    let mut converted: Vec<CompletionItem> = Vec::new();
    let mut i: usize = 0;
    while i < v.len()
        invariant
            i <= v@.len(),
            item_views(converted@) == v@.take(i as int).map_values(|it: LspCompletion| item_from_lsp(it)),
        decreases v@.len() - i,
    {
        let c = completion_item_from_lsp(&v[i]);
        let ghost before = converted@;
        converted.push(c);
        proof {
            assert(item_views(converted@) =~= item_views(before).push(c@));
            assert(v@.take(i as int + 1).map_values(|it: LspCompletion| item_from_lsp(it)) =~= v@.take(i as int).map_values(
                |it: LspCompletion| item_from_lsp(it),
            ).push(item_from_lsp(v@[i as int])));
        }
        i = i + 1;
    }
    proof {
        assert(v@.take(v@.len() as int) =~= v@);
    }
    let state = CompletionState::new(converted, trigger_offset, prefix);
    if state.is_empty() {
        proof {
            let views = v@.map_values(|it: LspCompletion| item_from_lsp(it));
            let lp = str_lowercase(prefix@);
            assert forall|i: int| 0 <= i < views.len() implies !item_matches(views[i], lp) by {
                if item_matches(views[i], lp) {
                    assert(state.filtered_view().contains(i as usize));
                }
            }
        }
        None
    } else {
        proof {
            let views = v@.map_values(|it: LspCompletion| item_from_lsp(it));
            let lp = str_lowercase(prefix@);
            let f0 = state.filtered_view()[0];
            assert(item_matches(views[f0 as int], lp));
        }
        Some(state)
    }
}


/// Index of the last char of `s` that is not a word char, or -1 if all are.
pub open spec fn last_non_word(s: Seq<char>) -> int
    decreases s.len(),
{
    if s.len() == 0 {
        -1
    } else if !is_word_char(s.last()) {
        s.len() - 1
    } else {
        last_non_word(s.drop_last())
    }
}

/// The text of the cursor's line before the cursor.
pub open spec fn line_before(t: Seq<char>, cursor: int) -> Seq<char> {
    t.subrange(line_start(t, line_of(t, cursor)), cursor)
}

/// The word being typed ends at the cursor and starts after the last
/// non-word char of its line; that char must be a single UTF-8 byte, as the
/// start is found by its byte offset.
pub open spec fn word_start_ok(t: Seq<char>, cursor: int) -> bool {
    let s = line_before(t, cursor);
    let k = last_non_word(s);
    k < 0 || (s[k] as u32) < 0x80
}

/// Whether `completion_start` can find where the word at `cursor` starts
/// (`word_start_ok`).
pub fn completion_start_ok(buffer: &Buffer, cursor: usize) -> (r: bool)
    requires
        buffer.wf(),
        cursor <= buffer@.len(),
    ensures
        r == word_start_ok(buffer@, cursor as int),
{
    let ghost t = buffer@;
    proof {
        lemma_line_of_bounds(t, cursor as int);
    }
    let line = buffer.char_to_line(cursor);
    let start = buffer.line_to_char(line);
    let text = buffer.yank_range(start, cursor);
    let ghost s = line_before(t, cursor as int);
    assert(text@ == s);
    let v = chars_of(text.as_str());
    let n = v.len();
    let mut j: usize = n;
    assert(s.take(n as int) =~= s);
    while j > 0 && (char_is_alphanumeric(v[j - 1]) || v[j - 1] == '_')
        invariant
            v@ == s,
            n == s.len(),
            j <= n,
            last_non_word(s) == last_non_word(s.take(j as int)),
        decreases j,
    {
        assert(s.take(j as int).drop_last() =~= s.take(j - 1));
        j = j - 1;
    }
    if j == 0 {
        assert(s.take(0) =~= Seq::<char>::empty());
        true
    } else {
        assert(s.take(j as int).last() == s[j - 1]);
        (v[j - 1] as u32) < 0x80
    }
}

/// Where a completion answered for `cursor` starts, and the word typed so
/// far: the word chars just before the cursor on its line. The start is the
/// line's first char index plus the byte offset of the word in the line.
pub fn completion_start(buffer: &Buffer, cursor: usize) -> (r: (usize, String))
    requires
        buffer.wf(),
        cursor <= buffer@.len(),
        word_start_ok(buffer@, cursor as int),
    ensures
        ({
            let s = line_before(buffer@, cursor as int);
            let k = last_non_word(s);
            &&& r.1@ == s.skip(k + 1)
            &&& r.0 == line_start(buffer@, line_of(buffer@, cursor as int)) + byte_len(s.take(k + 1))
        }),
{
    let ghost t = buffer@;
    proof {
        lemma_line_of_bounds(t, cursor as int);
        buffer.lemma_wf_fits();
    }
    let line = buffer.char_to_line(cursor);
    let start = buffer.line_to_char(line);
    let text = buffer.yank_range(start, cursor);
    let ghost s = line_before(t, cursor as int);
    assert(text@ == s);
    let v = chars_of(text.as_str());
    let n = v.len();
    let mut j: usize = n;
    assert(s.take(n as int) =~= s);
    while j > 0 && (char_is_alphanumeric(v[j - 1]) || v[j - 1] == '_')
        invariant
            v@ == s,
            n == s.len(),
            j <= n,
            last_non_word(s) == last_non_word(s.take(j as int)),
        decreases j,
    {
        assert(s.take(j as int).drop_last() =~= s.take(j - 1));
        j = j - 1;
    }
    proof {
        if j == 0 {
            assert(s.take(0) =~= Seq::<char>::empty());
        } else {
            assert(s.take(j as int).last() == s[j - 1]);
        }
        assert(s.skip(j as int) =~= s.subrange(j as int, n as int));
        assert(s.take(j as int) =~= t.subrange(start as int, start + j));
        lemma_byte_len_subrange(t, start as int, start + j);
    }
    let head = string_of_chars(&v, 0, j);
    assert(head@ =~= s.take(j as int));
    let offset = start + head.as_str().as_bytes().len();
    (offset, string_of_chars(&v, j, n))
}

/// What happens to the wait before a completion request.
#[derive(Debug, Clone, Copy, PartialEq, Eq, Structural)]
pub enum Debounce {
    /// Leave it as it is.
    Keep,
    /// Start it anew: a request is due once it has passed.
    Start,
    /// Drop it.
    Cancel,
}

/// Whether a key goes to the completion popup while it is open: escape,
/// enter, tab, the up and down arrows, and control with `n` or `p`.
pub fn is_completion_key(key: &Key, modifiers: &KeyModifiers) -> (r: bool)
    ensures
        r == (match *key {
            Key::Named(n) => n == NamedKey::Escape || n == NamedKey::Enter || n == NamedKey::Tab
                || n == NamedKey::ArrowDown || n == NamedKey::ArrowUp,
            Key::Character(c) => modifiers.control && (c@ == "n"@ || c@ == "p"@),
            Key::Unidentified => false,
        }),
{
    match key {
        Key::Named(n) => {
            *n == NamedKey::Escape || *n == NamedKey::Enter || *n == NamedKey::Tab || *n == NamedKey::ArrowDown
                || *n == NamedKey::ArrowUp
        },
        Key::Character(c) => modifiers.control && (str_eq(c.as_str(), "n") || str_eq(c.as_str(), "p")),
        Key::Unidentified => false,
    }
}

/// Whether typing `ch` asks for completions: a letter, digit or
/// underscore, or one of the server's trigger characters.
pub open spec fn triggers_completion(ch: char, triggers: Seq<Seq<char>>) -> bool {
    char_alphanumeric(ch) || ch == '_' || exists|i: int| 0 <= i < triggers.len() && triggers[i] == seq![ch]
}

/// Whether typing `ch` asks for completions, given the language server's
/// trigger characters.
pub fn should_trigger_completion(ch: char, trigger_characters: &[String]) -> (r: bool)
    ensures
        r == triggers_completion(ch, trigger_characters@.map_values(|t: String| t@)),
{
    if char_is_alphanumeric(ch) || ch == '_' {
        return true;
    }
    let ghost ts = trigger_characters@.map_values(|t: String| t@);
    let one = crate::strs::char_to_string(ch);
    let mut i: usize = 0;
    while i < trigger_characters.len()
        invariant
            ts == trigger_characters@.map_values(|t: String| t@),
            i <= trigger_characters@.len(),
            one@ == seq![ch],
            forall|j: int| 0 <= j < i ==> ts[j] != seq![ch],
        decreases trigger_characters@.len() - i,
    {
        if str_eq(trigger_characters[i].as_str(), one.as_str()) {
            proof {
                assert(ts[i as int] == trigger_characters@[i as int]@);
            }
            return true;
        }
        proof {
            assert(ts[i as int] == trigger_characters@[i as int]@);
        }
        i = i + 1;
    }
    false
}

/// Two lists that both list the items matching `lp` in rank order agree
/// on their first `k` entries.
proof fn lemma_filtered_agree(items: Seq<CompletionItemView>, lp: Seq<char>, f: Seq<usize>, g: Seq<usize>, k: int)
    requires
        filtered_ok(items, lp, f),
        filtered_ok(items, lp, g),
        0 <= k <= f.len(),
        k <= g.len(),
    ensures
        forall|j: int| 0 <= j < k ==> f[j] == g[j],
    decreases k,
{
    if k > 0 {
        lemma_filtered_agree(items, lp, f, g, k - 1);
        let x = f[k - 1];
        let y = g[k - 1];
        if x != y {
            assert(item_matches(items[x as int], lp));
            assert(g.contains(x));
            let m = choose|m: int| 0 <= m < g.len() && g[m] == x;
            assert(item_matches(items[y as int], lp));
            assert(f.contains(y));
            let n = choose|n: int| 0 <= n < f.len() && f[n] == y;
            lemma_ranks_order(items, lp, x as int, y as int, x as int);
            if m < k - 1 {
                assert(g[m] == f[m]);
                lemma_ranks_order(items, lp, f[m] as int, x as int, f[m] as int);
            } else if n < k - 1 {
                assert(f[n] == g[n]);
                lemma_ranks_order(items, lp, g[n] as int, y as int, g[n] as int);
            } else {
                assert(ranks_before(items, lp, x as int, y as int));
                assert(ranks_before(items, lp, y as int, x as int));
            }
        }
    }
}

/// Two lists that both list the items matching `lp` in rank order are the
/// same list.
proof fn lemma_filtered_unique(items: Seq<CompletionItemView>, lp: Seq<char>, f: Seq<usize>, g: Seq<usize>)
    requires
        filtered_ok(items, lp, f),
        filtered_ok(items, lp, g),
    ensures
        f == g,
{
    if f.len() > g.len() {
        lemma_filtered_agree(items, lp, f, g, g.len() as int);
        let x = f[g.len() as int];
        assert(item_matches(items[x as int], lp));
        assert(g.contains(x));
        let m = choose|m: int| 0 <= m < g.len() && g[m] == x;
        assert(f[m] == x);
        lemma_ranks_order(items, lp, x as int, x as int, x as int);
    } else if g.len() > f.len() {
        lemma_filtered_agree(items, lp, f, g, f.len() as int);
        let y = g[f.len() as int];
        assert(item_matches(items[y as int], lp));
        assert(f.contains(y));
        let m = choose|m: int| 0 <= m < f.len() && f[m] == y;
        assert(g[m] == y);
        lemma_ranks_order(items, lp, y as int, y as int, y as int);
    } else {
        lemma_filtered_agree(items, lp, f, g, f.len() as int);
        assert(f =~= g);
    }
}

/// Typing a char and taking it back (`push_char`, then `pop_char`) lists
/// the same items, in the same order, for the same typed text.
pub proof fn law_pop_undoes_push(s0: CompletionState, s1: CompletionState, s2: CompletionState, ch: char)
    requires
        s0.wf(),
        s1.wf(),
        s2.wf(),
        s1.prefix_view() == s0.prefix_view().push(ch),
        s1.items_view() == s0.items_view(),
        s2.prefix_view() == s1.prefix_view().drop_last(),
        s2.items_view() == s1.items_view(),
    ensures
        s2.prefix_view() == s0.prefix_view(),
        s2.filtered_view() == s0.filtered_view(),
{
    assert(s0.prefix_view().push(ch).drop_last() =~= s0.prefix_view());
    lemma_filtered_unique(s0.items_view(), str_lowercase(s0.prefix_view()), s0.filtered_view(), s2.filtered_view());
}

/// Typing a char (`push_char`) never lists an item that was not listed
/// before, as long as lower-casing the longer typed text keeps the
/// lower-cased shorter one as its start (it may not: a capital sigma is
/// lower-cased by what follows it).
pub proof fn law_typing_never_adds(s0: CompletionState, s1: CompletionState, ch: char)
    requires
        s0.wf(),
        s1.wf(),
        s1.prefix_view() == s0.prefix_view().push(ch),
        s1.items_view() == s0.items_view(),
        seq_starts_with(str_lowercase(s1.prefix_view()), str_lowercase(s0.prefix_view())),
    ensures
        forall|k: int| 0 <= k < s1.filtered_view().len() ==> s0.filtered_view().contains(#[trigger] s1.filtered_view()[k]),
{
    let items = s0.items_view();
    let l0 = str_lowercase(s0.prefix_view());
    let l1 = str_lowercase(s1.prefix_view());
    assert forall|k: int| 0 <= k < s1.filtered_view().len() implies s0.filtered_view().contains(
        #[trigger] s1.filtered_view()[k],
    ) by {
        let x = s1.filtered_view()[k] as int;
        assert(item_matches(items[x], l1));
        if l0.len() > 0 {
            let h = str_lowercase(items[x].filter_text);
            let i = choose|i: int| 0 <= i && i + l1.len() <= h.len() && #[trigger] h.subrange(i, i + l1.len()) == l1;
            assert(h.subrange(i, i + l0.len()) =~= l1.take(l0.len() as int));
            assert(h.subrange(i, i + l0.len()) == l0);
            assert(seq_contains(h, l0));
        }
        assert(item_matches(items[x], l0));
    }
}

/// Whether some item matches the typed text `prefix`.
pub open spec fn any_match(items: Seq<CompletionItemView>, prefix: Seq<char>) -> bool {
    exists|i: int| 0 <= i < items.len() && item_matches(items[i], str_lowercase(prefix))
}

/// The popup's typed text (none when closed) and whether a request is due,
/// after one action in insert mode.
pub open spec fn popup_step(
    items: Seq<CompletionItemView>,
    st: (Option<Seq<char>>, bool),
    a: ActionView,
    triggers: Seq<Seq<char>>,
) -> (Option<Seq<char>>, bool) {
    match a {
        ActionView::InsertChar(ch) => match st.0 {
            Some(p) => (if any_match(items, p.push(ch)) { Some(p.push(ch)) } else { None }, st.1),
            None => (None, st.1 || triggers_completion(ch, triggers)),
        },
        ActionView::DeleteCharBackward => match st.0 {
            Some(p) => (if p.len() == 0 || p.drop_last().len() == 0 || !any_match(items, p.drop_last()) {
                None
            } else {
                Some(p.drop_last())
            }, st.1),
            None => st,
        },
        _ => st,
    }
}

/// `popup_step` over `acts`, in order.
pub open spec fn popup_steps(
    items: Seq<CompletionItemView>,
    st: (Option<Seq<char>>, bool),
    acts: Seq<ActionView>,
    triggers: Seq<Seq<char>>,
) -> (Option<Seq<char>>, bool)
    decreases acts.len(),
{
    if acts.len() == 0 {
        st
    } else {
        popup_step(items, popup_steps(items, st, acts.drop_last(), triggers), acts.last(), triggers)
    }
}

impl CompletionState {
    /// With a well formed state, nothing is listed exactly when no item
    /// matches the typed text.
    proof fn lemma_empty_iff_no_match(&self)
        requires
            self.wf(),
        ensures
            (self.filtered_view().len() == 0) == !any_match(self.items_view(), self.prefix_view()),
    {
        let lp = str_lowercase(self.prefix_view());
        if self.filtered_view().len() > 0 {
            let i = self.filtered_view()[0] as int;
            assert(item_matches(self.items_view()[i], lp));
        }
        if any_match(self.items_view(), self.prefix_view()) {
            let i = choose|i: int| 0 <= i < self.items_view().len() && item_matches(self.items_view()[i], lp);
            assert(self.filtered_view().contains(i as usize));
        }
    }
}

/// The items of an open popup, none when closed.
pub open spec fn opt_items(c: Option<CompletionState>) -> Seq<CompletionItemView> {
    match c {
        Some(c) => c.items_view(),
        None => Seq::empty(),
    }
}

/// The typed text of an open popup.
pub open spec fn opt_prefix(c: Option<CompletionState>) -> Option<Seq<char>> {
    match c {
        Some(c) => Some(c.prefix_view()),
        None => None,
    }
}

/// Where an open popup's completion started.
pub open spec fn opt_trigger(c: Option<CompletionState>) -> usize {
    match c {
        Some(c) => c.trigger_view(),
        None => 0,
    }
}

/// Brings the completion popup up to date after a key's actions: outside
/// insert mode it closes and any pending request is dropped; in insert
/// mode typed chars narrow it (closing it when nothing matches) or, when
/// it is closed, may ask for completions, and backspace widens it (closing
/// it when nothing is left typed or nothing matches).
pub fn finalize_completions(
    completions: &mut Option<CompletionState>,
    insert_mode: bool,
    actions: &[EditorAction],
    trigger_characters: &[String],
) -> (r: Debounce)
    requires
        *old(completions) matches Some(c) ==> c.wf(),
    ensures
        !insert_mode ==> *final(completions) is None && r == Debounce::Cancel,
        insert_mode ==> {
            let items = opt_items(*old(completions));
            let start = opt_prefix(*old(completions));
            let (p, due) = popup_steps(
                items,
                (start, false),
                action_views(actions@),
                trigger_characters@.map_values(|t: String| t@),
            );
            &&& (*final(completions) is None) == (p is None)
            &&& *final(completions) matches Some(c) ==> c.wf() && Some(c.prefix_view()) == p && c.items_view() == items
                && c.trigger_view() == opt_trigger(*old(completions))
            &&& r == (if due { Debounce::Start } else { Debounce::Keep })
        },
{
    if !insert_mode {
        *completions = None;
        return Debounce::Cancel;
    }
    let ghost items = opt_items(*old(completions));
    let ghost trigger0 = opt_trigger(*old(completions));
    let ghost start = opt_prefix(*old(completions));
    let ghost ts = trigger_characters@.map_values(|t: String| t@);
    let ghost acts = action_views(actions@);
    let mut due = false;
    let mut i: usize = 0;
    while i < actions.len()
        invariant
            acts == action_views(actions@),
            ts == trigger_characters@.map_values(|t: String| t@),
            i <= actions@.len(),
            popup_steps(items, (start, false), acts.take(i as int), ts).1 == due,
            (*completions is None) == (popup_steps(items, (start, false), acts.take(i as int), ts).0 is None),
            *completions matches Some(c) ==> c.wf() && Some(c.prefix_view()) == popup_steps(
                items,
                (start, false),
                acts.take(i as int),
                ts,
            ).0 && c.items_view() == items && c.trigger_view() == trigger0,
        decreases actions@.len() - i,
    {
        proof {
            assert(acts.take(i + 1).drop_last() =~= acts.take(i as int));
            assert(acts.take(i + 1).last() == actions@[i as int]@);
        }
        match &actions[i] {
            EditorAction::InsertChar(ch) => {
                let mut close = false;
                match completions {
                    Some(comp) => {
                        comp.push_char(*ch);
                        proof {
                            comp.lemma_empty_iff_no_match();
                        }
                        close = comp.is_empty();
                    },
                    None => {
                        if should_trigger_completion(*ch, trigger_characters) {
                            due = true;
                        }
                    },
                }
                if close {
                    *completions = None;
                }
            },
            EditorAction::DeleteCharBackward => {
                let mut close = false;
                match completions {
                    Some(comp) => {
                        let popped = comp.pop_char();
                        if !popped || comp.prefix_len() == 0 {
                            close = true;
                        } else {
                            proof {
                                comp.lemma_empty_iff_no_match();
                            }
                            close = comp.is_empty();
                        }
                        proof {
                            crate::strs::lemma_byte_len_ge(comp.prefix_view());
                            if comp.prefix_view().len() == 0 {
                                assert(vstd::utf8::encode_utf8(comp.prefix_view()) =~= Seq::<u8>::empty());
                            }
                        }
                    },
                    None => {},
                }
                if close {
                    *completions = None;
                }
            },
            _ => {
            },
        }
        i = i + 1;
    }
    proof {
        assert(acts.take(actions@.len() as int) =~= acts);
    }
    if due {
        Debounce::Start
    } else {
        Debounce::Keep
    }
}

} // verus!
