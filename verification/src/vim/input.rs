//! The modal key state machine: counts, operators, pending keys, command
//! and search lines with their histories.
use vstd::prelude::*;
use crate::action::{ActionView, EditorAction, Motion, Range, action_views};
use crate::buffer::{Buffer, inner_word, a_word, delimited, quoted, motion_iter, tolerates_any_pos};
use crate::core_actions::visual_selection;
use crate::keys::{Key, KeyModifiers, NamedKey};
use crate::strs::{str_to_string, string_push, string_pop, string_clear, is_unicode_control, char_is_control, trim};
use crate::text::{line_of, line_start, line_count};
use crate::vim::keymap::{Command, KeyId, KeyPress, Keymap, KeymapLookup, key_press_of};
use crate::vim::mode::VimMode;

verus! {

/// An operator that waits for a motion or text object.
#[derive(Debug, Clone, Copy, PartialEq, Eq, Structural)]
pub enum Operator {
    Delete,
    Change,
    Yank,
}

/// A text object: a word, or the inside (or all) of a bracket or quote pair.
#[derive(Debug, Clone, Copy, PartialEq, Eq, Structural)]
pub enum TextObject {
    InnerWord,
    AWord,
    InnerParen,
    AParen,
    InnerSingleQuote,
    ASingleQuote,
    InnerAngle,
    AAngle,
    InnerDoubleQuote,
    ADoubleQuote,
    InnerCurly,
    ACurly,
    InnerBracket,
    ABracket,
}

/// The text object that `modifier` (`i` or `a`) and `obj` name.
pub open spec fn text_object_of(modifier: char, obj: char) -> Option<TextObject> {
    if modifier == 'i' {
        if obj == 'w' {
            Some(TextObject::InnerWord)
        } else if obj == '(' || obj == ')' || obj == 'b' {
            Some(TextObject::InnerParen)
        } else if obj == '\'' {
            Some(TextObject::InnerSingleQuote)
        } else if obj == '"' {
            Some(TextObject::InnerDoubleQuote)
        } else if obj == '<' || obj == '>' {
            Some(TextObject::InnerAngle)
        } else if obj == '{' || obj == '}' || obj == 'B' {
            Some(TextObject::InnerCurly)
        } else if obj == '[' || obj == ']' {
            Some(TextObject::InnerBracket)
        } else {
            None
        }
    } else if modifier == 'a' {
        if obj == 'w' {
            Some(TextObject::AWord)
        } else if obj == '(' || obj == ')' || obj == 'b' {
            Some(TextObject::AParen)
        } else if obj == '\'' {
            Some(TextObject::ASingleQuote)
        } else if obj == '"' {
            Some(TextObject::ADoubleQuote)
        } else if obj == '<' || obj == '>' {
            Some(TextObject::AAngle)
        } else if obj == '{' || obj == '}' || obj == 'B' {
            Some(TextObject::ACurly)
        } else if obj == '[' || obj == ']' {
            Some(TextObject::ABracket)
        } else {
            None
        }
    } else {
        None
    }
}

/// The text object that `modifier` (`i` or `a`) and `obj` name, if any.
pub fn parse_text_object(modifier: char, obj: char) -> (r: Option<TextObject>)
    ensures
        r == text_object_of(modifier, obj),
{
    if modifier == 'i' {
        if obj == 'w' {
            Some(TextObject::InnerWord)
        } else if obj == '(' || obj == ')' || obj == 'b' {
            Some(TextObject::InnerParen)
        } else if obj == '\'' {
            Some(TextObject::InnerSingleQuote)
        } else if obj == '"' {
            Some(TextObject::InnerDoubleQuote)
        } else if obj == '<' || obj == '>' {
            Some(TextObject::InnerAngle)
        } else if obj == '{' || obj == '}' || obj == 'B' {
            Some(TextObject::InnerCurly)
        } else if obj == '[' || obj == ']' {
            Some(TextObject::InnerBracket)
        } else {
            None
        }
    } else if modifier == 'a' {
        if obj == 'w' {
            Some(TextObject::AWord)
        } else if obj == '(' || obj == ')' || obj == 'b' {
            Some(TextObject::AParen)
        } else if obj == '\'' {
            Some(TextObject::ASingleQuote)
        } else if obj == '"' {
            Some(TextObject::ADoubleQuote)
        } else if obj == '<' || obj == '>' {
            Some(TextObject::AAngle)
        } else if obj == '{' || obj == '}' || obj == 'B' {
            Some(TextObject::ACurly)
        } else if obj == '[' || obj == ']' {
            Some(TextObject::ABracket)
        } else {
            None
        }
    } else {
        None
    }
}

/// The range of text object `obj` at `c` in `t`.
pub open spec fn text_object_range(t: Seq<char>, c: int, obj: TextObject) -> (int, int) {
    match obj {
        TextObject::InnerWord => inner_word(t, c),
        TextObject::AWord => a_word(t, c),
        TextObject::InnerParen => delimited(t, c, '(', ')', false),
        TextObject::AParen => delimited(t, c, '(', ')', true),
        TextObject::InnerCurly => delimited(t, c, '{', '}', false),
        TextObject::ACurly => delimited(t, c, '{', '}', true),
        TextObject::InnerBracket => delimited(t, c, '[', ']', false),
        TextObject::ABracket => delimited(t, c, '[', ']', true),
        TextObject::InnerAngle => delimited(t, c, '<', '>', false),
        TextObject::AAngle => delimited(t, c, '<', '>', true),
        TextObject::InnerSingleQuote => quoted(t, c, '\'', false),
        TextObject::ASingleQuote => quoted(t, c, '\'', true),
        TextObject::InnerDoubleQuote => quoted(t, c, '"', false),
        TextObject::ADoubleQuote => quoted(t, c, '"', true),
    }
}

/// The range of text object `obj` at `cursor`.
pub fn resolve_text_object(buffer: &Buffer, cursor: usize, obj: TextObject) -> (r: (usize, usize))
    requires
        buffer.wf(),
    ensures
        r.0 == text_object_range(buffer@, cursor as int, obj).0,
        r.1 == text_object_range(buffer@, cursor as int, obj).1,
        r.0 <= buffer@.len(),
        r.1 <= buffer@.len(),
{
    match obj {
        TextObject::InnerWord => buffer.text_object_inner_word(cursor),
        TextObject::AWord => buffer.text_object_a_word(cursor),
        TextObject::InnerParen => buffer.text_object_delimited(cursor, '(', ')', false),
        TextObject::AParen => buffer.text_object_delimited(cursor, '(', ')', true),
        TextObject::InnerCurly => buffer.text_object_delimited(cursor, '{', '}', false),
        TextObject::ACurly => buffer.text_object_delimited(cursor, '{', '}', true),
        TextObject::InnerBracket => buffer.text_object_delimited(cursor, '[', ']', false),
        TextObject::ABracket => buffer.text_object_delimited(cursor, '[', ']', true),
        TextObject::InnerAngle => buffer.text_object_delimited(cursor, '<', '>', false),
        TextObject::AAngle => buffer.text_object_delimited(cursor, '<', '>', true),
        TextObject::InnerSingleQuote => buffer.text_object_quoted(cursor, '\'', false),
        TextObject::ASingleQuote => buffer.text_object_quoted(cursor, '\'', true),
        TextObject::InnerDoubleQuote => buffer.text_object_quoted(cursor, '"', false),
        TextObject::ADoubleQuote => buffer.text_object_quoted(cursor, '"', true),
    }
}

/// A history as values: its entries, the entry being shown (if browsing),
/// and the line that was being typed when browsing began.
pub struct HistoryView {
    pub entries: Seq<Seq<char>>,
    pub index: Option<usize>,
    pub scratch: Option<Seq<char>>,
}

/// Earlier command or search lines, browsed with up and down.
pub struct History {
    entries: Vec<String>,
    index: Option<usize>,
    scratch: Option<String>,
}

impl View for History {
    type V = HistoryView;

    closed spec fn view(&self) -> HistoryView {
        HistoryView {
            entries: self.entries@.map_values(|s: String| s@),
            index: self.index,
            scratch: match self.scratch {
                Some(s) => Some(s@),
                None => None,
            },
        }
    }
}

impl HistoryView {
    /// The entry being shown, when browsing, is one of the entries.
    pub open spec fn wf(self) -> bool {
        &&& self.entries.len() <= usize::MAX
        &&& self.index matches Some(i) ==> i < self.entries.len()
    }

    /// The history and line after pressing up on `line`: one entry older,
    /// or, when not browsing, the newest entry, with `line` kept aside.
    pub open spec fn up(self, line: Seq<char>) -> (HistoryView, Seq<char>) {
        match self.index {
            Some(i) => if i > 0 {
                (HistoryView { index: Some((i - 1) as usize), ..self }, self.entries[i - 1])
            } else {
                (self, line)
            },
            None => if self.entries.len() > 0 {
                (
                    HistoryView { index: Some((self.entries.len() - 1) as usize), scratch: Some(line), ..self },
                    self.entries.last(),
                )
            } else {
                (self, line)
            },
        }
    }

    /// The history and line after pressing down on `line`: one entry newer,
    /// or, past the newest, the line that was kept aside.
    pub open spec fn down(self, line: Seq<char>) -> (HistoryView, Seq<char>) {
        match self.index {
            Some(i) => if i + 1 < self.entries.len() {
                (HistoryView { index: Some((i + 1) as usize), ..self }, self.entries[i + 1])
            } else {
                match self.scratch {
                    Some(s) => (HistoryView { index: None, scratch: None, ..self }, s),
                    None => (HistoryView { index: None, ..self }, line),
                }
            },
            None => (self, line),
        }
    }
}

impl History {
    /// An empty history.
    pub fn new() -> (h: Self)
        ensures
            h@.wf(),
            h@.entries == Seq::<Seq<char>>::empty(),
            h@.index is None,
            h@.scratch is None,
    {
        let h = History { entries: Vec::new(), index: None, scratch: None };
        assert(h@.entries =~= Seq::<Seq<char>>::empty());
        h
    }

    /// Adds `entry` as the newest entry and stops browsing.
    pub fn push(&mut self, entry: String)
        ensures
            final(self)@.entries == old(self)@.entries.push(entry@),
            final(self)@.wf(),
            final(self)@.index is None,
            final(self)@.scratch is None,
    {
        let ghost e = entry@;
        self.entries.push(entry);
        self.index = None;
        self.scratch = None;
        let n = self.entries.len();
        assert(self@.entries =~= old(self)@.entries.push(e));
        assert(self@.entries.len() == n);
    }

    /// Shows the next older entry in `current`.
    pub fn up(&mut self, current: &mut String)
        requires
            old(self)@.wf(),
        ensures
            final(self)@.wf(),
            (final(self)@, final(current)@) == old(self)@.up(old(current)@),
    {
        if let Some(idx) = self.index {
            if idx > 0 {
                self.index = Some(idx - 1);
                *current = self.entries[idx - 1].clone();
            }
        } else if self.entries.len() > 0 {
            let n = self.entries.len();
            self.index = Some(n - 1);
            self.scratch = Some(current.clone());
            *current = self.entries[n - 1].clone();
        }
        proof {
            assert(self@.entries =~= old(self)@.entries);
        }
    }

    /// Shows the next newer entry in `current`, or, past the newest, the
    /// line that was being typed.
    pub fn down(&mut self, current: &mut String)
        requires
            old(self)@.wf(),
        ensures
            final(self)@.wf(),
            (final(self)@, final(current)@) == old(self)@.down(old(current)@),
    {
        assert(self@.entries.len() == self.entries@.len());
        if let Some(idx) = self.index {
            if idx + 1 < self.entries.len() {
                self.index = Some(idx + 1);
                *current = self.entries[idx + 1].clone();
            } else {
                self.index = None;
                let scratch = self.scratch.take();
                if let Some(s) = scratch {
                    *current = s;
                }
            }
        }
        proof {
            assert(self@.entries =~= old(self)@.entries);
        }
    }

    /// Stops browsing.
    pub fn reset(&mut self)
        ensures
            final(self)@ == (HistoryView { index: None, scratch: None, ..old(self)@ }),
    {
        self.index = None;
        self.scratch = None;
    }
}

/// Up then down, begun while not browsing a history that has entries, gives
/// back the line that was being typed and stops browsing.
pub proof fn law_history_up_down_restores(h: HistoryView, line: Seq<char>)
    requires
        h.wf(),
        h.index is None,
        h.entries.len() > 0,
    ensures
        h.up(line).0.down(h.up(line).1).1 == line,
        h.up(line).0.down(h.up(line).1).0.index is None,
        h.up(line).0.down(h.up(line).1).0.entries == h.entries,
{
}

/// Pressing up shows an entry of the history, or leaves the line alone when
/// the history is empty or already shows its oldest entry.
pub proof fn law_history_up_shows_entry(h: HistoryView, line: Seq<char>)
    requires
        h.wf(),
    ensures
        h.up(line).0.wf(),
        h.up(line).0.entries == h.entries,
        h.up(line).1 == line || exists|i: int| 0 <= i < h.entries.len() && h.up(line).1 == h.entries[i],
{
    match h.index {
        Some(i) => if i > 0 {
            assert(h.up(line).1 == h.entries[i - 1]);
        },
        None => if h.entries.len() > 0 {
            assert(h.up(line).1 == h.entries[h.entries.len() - 1]);
        },
    }
}

} // verus!

verus! {

impl HistoryView {
    /// The history after adding `entry`: newest entry, not browsing.
    pub open spec fn pushed(self, entry: Seq<char>) -> HistoryView {
        HistoryView { entries: self.entries.push(entry), index: None, scratch: None }
    }

    /// The history after browsing stops.
    pub open spec fn reset_view(self) -> HistoryView {
        HistoryView { index: None, scratch: None, ..self }
    }
}

/// The key state as values.
pub struct InputView {
    pub mode: VimMode,
    pub selection_anchor: Option<usize>,
    pub pending_keys: Seq<KeyPress>,
    pub pending_global_keys: Seq<KeyPress>,
    pub count_accum: Option<usize>,
    pub command_line: Seq<char>,
    pub pending_operator: Option<Operator>,
    pub search_query: Seq<char>,
    pub pending_replace: bool,
    pub pending_find_char: Option<(bool, bool)>,
    pub last_find_char: Option<(char, bool, bool)>,
    pub search_history: HistoryView,
    pub command_history: HistoryView,
}

/// The count typed so far, one when none was.
pub open spec fn count_of(c: Option<usize>) -> usize {
    match c {
        Some(n) => n,
        None => 1,
    }
}

/// The count after typing digit `d`.
pub open spec fn count_after_digit(c: Option<usize>, d: char) -> usize {
    let cur: int = match c {
        Some(n) => n as int,
        None => 0,
    };
    (cur * 10 + (d as int - '0' as int)) as usize
}

/// Whether `d` extends the count: a digit, and not a leading zero.
pub open spec fn extends_count(c: Option<usize>, d: char) -> bool {
    '0' <= d <= '9' && (d != '0' || c is Some)
}

/// The action that shows `label` as the mode.
pub open spec fn mode_view(label: Seq<char>) -> ActionView {
    ActionView::SetMode(label)
}

/// A motion by `count` steps as an action.
pub open spec fn move_view(m: Motion, count: usize) -> ActionView {
    ActionView::MoveCursor { motion: m, count }
}

/// Entering insert mode, after the cursor moves of `moves`.
pub open spec fn insert_entry(s: InputView, moves: Seq<ActionView>) -> (InputView, Seq<ActionView>) {
    (
        InputView { mode: VimMode::Insert, ..s },
        seq![ActionView::StartEditGroup] + moves + seq![ActionView::ClearSearch, mode_view("INSERT"@)],
    )
}

/// The actions of a visual-mode operator on the selection `sel`, and the
/// mode it leaves the editor in.
pub open spec fn visual_op_view(s: InputView, sel: Option<(usize, usize)>, op: Operator) -> (InputView, Seq<ActionView>) {
    let first: Seq<ActionView> = match sel {
        Some((a, b)) => {
            let r = Range { start: a, end: b };
            seq![
                match op {
                    Operator::Delete => ActionView::DeleteRange(r),
                    Operator::Yank => ActionView::YankRange(r),
                    Operator::Change => ActionView::ChangeRange(r),
                },
            ]
        },
        None => Seq::empty(),
    };
    let insert = op == Operator::Change;
    (
        InputView { selection_anchor: None, mode: if insert { VimMode::Insert } else { VimMode::Normal }, ..s },
        first + seq![ActionView::SetSelection(None), mode_view(if insert { "INSERT"@ } else { "NORMAL"@ })],
    )
}

/// The visual selection of `s` at `cursor`, if a visual anchor is set.
pub open spec fn selection_of(s: InputView, t: Seq<char>, cursor: int) -> Option<(usize, usize)> {
    match s.selection_anchor {
        Some(a) => {
            let r = visual_selection(t, a as int, cursor, s.mode == VimMode::VisualLine);
            Some((r.0 as usize, r.1 as usize))
        },
        None => None,
    }
}

/// The actions of `op` over `start..end`.
pub open spec fn emit_view(s: InputView, op: Operator, start: int, end: int) -> (InputView, Seq<ActionView>) {
    let r = Range { start: start as usize, end: end as usize };
    match op {
        Operator::Delete => (s, seq![ActionView::DeleteRange(r)]),
        Operator::Change => (InputView { mode: VimMode::Insert, ..s }, seq![ActionView::ChangeRange(r), mode_view("INSERT"@)]),
        Operator::Yank => (s, seq![ActionView::YankRange(r)]),
    }
}

/// The span an operator covers from `cursor` to where a motion took it.
pub open spec fn operator_span(cursor: int, after: int, inclusive: bool) -> (int, int) {
    if cursor <= after {
        (cursor, if inclusive { after + 1 } else { after })
    } else {
        (after, cursor + 1)
    }
}

/// The motion an operator applies over for `cmd`, and whether it is
/// inclusive: a cursor motion, or a repeat of the last find-char.
pub open spec fn operator_motion_of(s: InputView, cmd: Command) -> Option<(Motion, bool)> {
    match cmd.as_motion_spec() {
        Some(p) => Some(p),
        None => match cmd {
            Command::MotionRepeatFindChar => match s.last_find_char {
                Some((ch, f, sb)) => Some((Motion::FindChar { ch, forward: f, stop_before: sb }, true)),
                None => None,
            },
            Command::MotionRepeatFindCharReverse => match s.last_find_char {
                Some((ch, f, sb)) => Some((Motion::FindChar { ch, forward: !f, stop_before: sb }, true)),
                None => None,
            },
            _ => None,
        },
    }
}

/// `op` applied over the motion of `cmd`, `count` times.
pub open spec fn operator_motion_view(s: InputView, op: Operator, cmd: Command, count: usize, t: Seq<char>, cursor: int) -> (InputView, Seq<ActionView>) {
    match operator_motion_of(s, cmd) {
        Some((m, inclusive)) => {
            let span = operator_span(cursor, motion_iter(t, cursor, m, count as nat), inclusive);
            if span.0 >= span.1 {
                (s, Seq::empty())
            } else {
                emit_view(s, op, span.0, span.1)
            }
        },
        None => (s, Seq::empty()),
    }
}

/// `op` applied to `count` whole lines from the cursor's.
pub open spec fn whole_line_view(s: InputView, op: Operator, count: usize, t: Seq<char>, cursor: int) -> (InputView, Seq<ActionView>) {
    let line = line_of(t, cursor);
    let start = line_start(t, line);
    let target = if line + count < line_count(t) { line + count } else { line_count(t) as int };
    let end = if target < line_count(t) { line_start(t, target as nat) } else { t.len() as int };
    if start == end {
        (s, Seq::empty())
    } else {
        emit_view(s, op, start, end)
    }
}

/// `op` applied to text object `obj`.
pub open spec fn text_object_op_view(s: InputView, op: Operator, obj: TextObject, t: Seq<char>, cursor: int) -> (InputView, Seq<ActionView>) {
    let r = text_object_range(t, cursor, obj);
    if r.0 == r.1 {
        (s, Seq::empty())
    } else {
        emit_view(s, op, r.0, r.1)
    }
}

/// `op` applied up to (or before) the `count`th `ch` on the line.
pub open spec fn find_char_op_view(
    s: InputView,
    op: Operator,
    ch: char,
    forward: bool,
    stop_before: bool,
    count: usize,
    t: Seq<char>,
    cursor: int,
) -> (InputView, Seq<ActionView>) {
    let after = motion_iter(t, cursor, Motion::FindChar { ch, forward, stop_before }, count as nat);
    let span = if cursor <= after { (cursor, after + 1) } else { (after, cursor) };
    if span.0 == span.1 {
        (s, Seq::empty())
    } else {
        emit_view(s, op, span.0, span.1)
    }
}

/// The operator that an operator command starts.
pub open spec fn operator_of(cmd: Command) -> Operator {
    match cmd {
        Command::OpDelete => Operator::Delete,
        Command::OpChange => Operator::Change,
        _ => Operator::Yank,
    }
}

/// The key that repeats operator `op` over whole lines.
pub open spec fn doubled_key(op: Operator) -> char {
    match op {
        Operator::Delete => 'd',
        Operator::Change => 'c',
        Operator::Yank => 'y',
    }
}

/// An unmodified key press of `key`.
pub open spec fn plain_press(key: Key) -> Option<KeyPress> {
    key_press_of(key, KeyModifiers { control: false, alt: false, command: false })
}

/// Whether `kp` is `i` or `a`, which start a text object.
pub open spec fn starts_text_object(kp: KeyPress) -> bool {
    kp.key == KeyId::Char('i') || kp.key == KeyId::Char('a')
}

/// Insert-char actions for the chars of `text` that are not control chars.
pub open spec fn printable_inserts(text: Seq<char>) -> Seq<ActionView>
    decreases text.len(),
{
    if text.len() == 0 {
        Seq::empty()
    } else {
        let rest = printable_inserts(text.drop_last());
        if is_unicode_control(text.last()) {
            rest
        } else {
            rest.push(ActionView::InsertChar(text.last()))
        }
    }
}

/// The chars of `text` that are not control chars.
pub open spec fn printable(text: Seq<char>) -> Seq<char>
    decreases text.len(),
{
    if text.len() == 0 {
        Seq::empty()
    } else {
        let rest = printable(text.drop_last());
        if is_unicode_control(text.last()) {
            rest
        } else {
            rest.push(text.last())
        }
    }
}

/// The actions of an ex command line (`:w`, `:q`, `:e path`, ...).
pub open spec fn ex_command_view(cmd: Seq<char>) -> Seq<ActionView> {
    let t = trim(cmd);
    if t == "w"@ {
        seq![ActionView::Save]
    } else if t == "q"@ || t == "close"@ {
        seq![ActionView::CloseWindow]
    } else if t == "q!"@ {
        seq![ActionView::Quit { force: true }]
    } else if t == "qa!"@ {
        seq![ActionView::ForceQuitApp]
    } else if t == "wq"@ {
        seq![ActionView::WriteQuit]
    } else if t == "bn"@ || t == "bnext"@ {
        seq![ActionView::NextBuffer]
    } else if t == "bp"@ || t == "bprev"@ || t == "bprevious"@ {
        seq![ActionView::PrevBuffer]
    } else if t == "bd"@ || t == "bdelete"@ {
        seq![ActionView::CloseBuffer]
    } else if t == "buffers"@ || t == "ls"@ {
        seq![ActionView::OpenBufferPicker]
    } else if t == "diagnostics"@ {
        seq![ActionView::OpenDiagnosticsPicker]
    } else if t == "vs"@ || t == "vsplit"@ {
        seq![ActionView::VSplit]
    } else if t == "sp"@ || t == "split"@ {
        seq![ActionView::HSplit]
    } else if starts_with_e(t) || starts_with_edit(t) {
        let path = trim(t.skip(if starts_with_e(t) { 2 } else { 5 }));
        if path.len() == 0 {
            seq![ActionView::SetStatusMessage("Usage: :e <path>"@)]
        } else {
            seq![ActionView::OpenFile(path)]
        }
    } else {
        seq![ActionView::SetStatusMessage("Unknown command: "@ + t)]
    }
}

/// Whether `t` starts with `e ` (`:e path`).
pub open spec fn starts_with_e(t: Seq<char>) -> bool {
    t.len() >= 2 && t[0] == 'e' && t[1] == ' '
}

/// Whether `t` starts with `edit ` (`:edit path`).
pub open spec fn starts_with_edit(t: Seq<char>) -> bool {
    t.len() >= 5 && t[0] == 'e' && t[1] == 'd' && t[2] == 'i' && t[3] == 't' && t[4] == ' '
}

} // verus!

verus! {

/// The one action of a command that reads and changes no key state.
pub open spec fn single_action(cmd: Command, count: usize) -> Option<ActionView> {
    match cmd {
        Command::CursorMoveLeft => Some(move_view(Motion::Left, count)),
        Command::CursorMoveRight => Some(move_view(Motion::Right, count)),
        Command::CursorMoveUp => Some(move_view(Motion::Up, count)),
        Command::CursorMoveDown => Some(move_view(Motion::Down, count)),
        Command::CursorMoveWordForward => Some(move_view(Motion::WordForward, count)),
        Command::CursorMoveWordBackward => Some(move_view(Motion::WordBackward, count)),
        Command::CursorMoveWordEnd => Some(move_view(Motion::WordEnd, count)),
        Command::CursorMoveLineStart => Some(move_view(Motion::LineStart, 1)),
        Command::CursorMoveLineEnd => Some(move_view(Motion::LineEnd, 1)),
        Command::CursorMoveFirstNonWhitespace => Some(move_view(Motion::FirstNonWhitespace, 1)),
        Command::CursorMoveToStart => Some(move_view(Motion::FileStart, 1)),
        Command::CursorMoveToEnd => Some(move_view(Motion::FileEnd, 1)),
        Command::ScrollHalfDown => Some(move_view(Motion::HalfPageDown, count)),
        Command::ScrollHalfUp => Some(move_view(Motion::HalfPageUp, count)),
        Command::EditDeleteTillEol => Some(ActionView::DeleteTillEndOfLine),
        Command::EditDeleteCharForward => Some(ActionView::DeleteCharForward { count }),
        Command::EditDeleteLine => Some(ActionView::DeleteLine { count }),
        Command::EditUndo => Some(ActionView::Undo),
        Command::EditRedo => Some(ActionView::Redo),
        Command::EditPasteAfter => Some(ActionView::Paste { before: false }),
        Command::EditPasteBefore => Some(ActionView::Paste { before: true }),
        Command::InsertBackspace => Some(ActionView::DeleteCharBackward),
        Command::InsertDelete => Some(ActionView::DeleteCharForward { count: 1 }),
        Command::InsertNewline => Some(ActionView::InsertNewline),
        Command::InsertTab => Some(ActionView::InsertTab),
        Command::VimClearSearch => Some(ActionView::ClearSearch),
        Command::LspGotoDefinition => Some(ActionView::LspGotoDefinition),
        Command::LspGotoReferences => Some(ActionView::LspReferences),
        Command::LspGotoImplementation => Some(ActionView::LspImplementation),
        Command::LspGotoDeclaration => Some(ActionView::LspDeclaration),
        Command::SearchNext => Some(ActionView::SearchNext { count }),
        Command::SearchPrev => Some(ActionView::SearchPrev { count }),
        Command::JumpBackward => Some(ActionView::JumpBackward),
        Command::JumpForward => Some(ActionView::JumpForward),
        Command::BufferSave => Some(ActionView::Save),
        Command::BufferQuit => Some(ActionView::Quit { force: false }),
        Command::BufferForceQuit => Some(ActionView::Quit { force: true }),
        Command::BufferWriteQuit => Some(ActionView::WriteQuit),
        Command::WindowVsplit => Some(ActionView::VSplit),
        Command::WindowHsplit => Some(ActionView::HSplit),
        Command::WindowClose => Some(ActionView::CloseWindow),
        Command::WindowFocusLeft => Some(ActionView::FocusLeft),
        Command::WindowFocusRight => Some(ActionView::FocusRight),
        Command::WindowFocusUp => Some(ActionView::FocusUp),
        Command::WindowFocusDown => Some(ActionView::FocusDown),
        Command::SystemCopy => Some(ActionView::SystemCopy),
        Command::SystemCut => Some(ActionView::SystemCut),
        Command::SystemPaste => Some(ActionView::SystemPaste),
        Command::PickerDiagnostics => Some(ActionView::OpenDiagnosticsPicker),
        Command::LspHover => Some(ActionView::LspHover),
        Command::DiagnosticHover => Some(ActionView::ShowDiagnosticHover),
        _ => None,
    }
}

/// `V`: from visual mode to line mode, out of line mode, or into it.
pub open spec fn visual_line_view(s: InputView, cursor: int) -> InputView {
    if s.mode == VimMode::Visual {
        InputView { mode: VimMode::VisualLine, ..s }
    } else if s.mode == VimMode::VisualLine {
        InputView { selection_anchor: None, mode: VimMode::Normal, ..s }
    } else {
        InputView { selection_anchor: Some(cursor as usize), mode: VimMode::VisualLine, ..s }
    }
}

/// The key state and actions that running `cmd` `count` times gives.
pub open spec fn resolve_view(cmd: Command, count: usize, s: InputView, t: Seq<char>, cursor: int) -> (InputView, Seq<ActionView>) {
    match single_action(cmd, count) {
        Some(a) => (s, seq![a]),
        None => match cmd {
            Command::EditReplaceChar => (InputView { pending_replace: true, ..s }, Seq::empty()),
            Command::VimEnterInsertMode => insert_entry(s, Seq::empty()),
            Command::VimEnterInsertAfter => insert_entry(s, seq![move_view(Motion::Right, 1)]),
            Command::VimEnterInsertLineEnd => insert_entry(s, seq![move_view(Motion::LineEnd, 1)]),
            Command::VimEnterInsertLineStart => insert_entry(s, seq![move_view(Motion::LineStart, 1)]),
            Command::VimOpenBelow => insert_entry(s, seq![move_view(Motion::LineEnd, 1), ActionView::InsertNewline]),
            Command::VimOpenAbove => insert_entry(
                s,
                seq![move_view(Motion::LineStart, 1), ActionView::InsertNewline, move_view(Motion::Up, 1)],
            ),
            Command::VimExitInsertMode => (
                InputView { mode: VimMode::Normal, ..s },
                seq![ActionView::FinishEditGroup, mode_view("NORMAL"@)],
            ),
            Command::VimEnterCommandMode => (
                InputView { command_line: Seq::empty(), mode: VimMode::Command, ..s },
                Seq::empty(),
            ),
            Command::VimEnterVisualMode => (
                InputView { selection_anchor: Some(cursor as usize), mode: VimMode::Visual, ..s },
                Seq::empty(),
            ),
            Command::VimEnterVisualLine => (visual_line_view(s, cursor), Seq::empty()),
            Command::VimExitVisualMode => (
                InputView { selection_anchor: None, mode: VimMode::Normal, ..s },
                seq![ActionView::SetSelection(None), mode_view("NORMAL"@)],
            ),
            Command::VimEnterSearchMode => (
                InputView { search_query: Seq::empty(), mode: VimMode::Search, ..s },
                Seq::empty(),
            ),
            Command::PickerBuffers => (InputView { mode: VimMode::Normal, ..s }, seq![ActionView::OpenBufferPicker]),
            Command::PickerProjectFiles => (
                InputView { mode: VimMode::Normal, ..s },
                seq![ActionView::OpenFilePicker { show_ignored: false, max_results: 1000 }],
            ),
            Command::PickerProjectFilesShowIgnored => (
                InputView { mode: VimMode::Normal, ..s },
                seq![ActionView::OpenFilePicker { show_ignored: true, max_results: 1000 }],
            ),
            Command::VisualDelete => visual_op_view(s, selection_of(s, t, cursor), Operator::Delete),
            Command::VisualYank => visual_op_view(s, selection_of(s, t, cursor), Operator::Yank),
            Command::VisualChange => visual_op_view(s, selection_of(s, t, cursor), Operator::Change),
            Command::MotionFindCharForward => (InputView { pending_find_char: Some((true, false)), ..s }, Seq::empty()),
            Command::MotionFindCharBackward => (InputView { pending_find_char: Some((false, false)), ..s }, Seq::empty()),
            Command::MotionFindCharForwardBefore => (InputView { pending_find_char: Some((true, true)), ..s }, Seq::empty()),
            Command::MotionFindCharBackwardBefore => (InputView { pending_find_char: Some((false, true)), ..s }, Seq::empty()),
            Command::MotionRepeatFindChar => match s.last_find_char {
                Some((ch, f, sb)) => (s, seq![move_view(Motion::FindChar { ch, forward: f, stop_before: sb }, count)]),
                None => (s, Seq::empty()),
            },
            Command::MotionRepeatFindCharReverse => match s.last_find_char {
                Some((ch, f, sb)) => (s, seq![move_view(Motion::FindChar { ch, forward: !f, stop_before: sb }, count)]),
                None => (s, Seq::empty()),
            },
            _ => (s, Seq::empty()),
        },
    }
}

/// The key state with no pending keys and no count.
pub open spec fn cleared(s: InputView) -> InputView {
    InputView { pending_keys: Seq::empty(), count_accum: None, ..s }
}

/// What a keymap lookup of `pk` leads to in normal or visual mode.
pub open spec fn after_lookup(s: InputView, pk: Seq<KeyPress>, km: Keymap, t: Seq<char>, cursor: int, operators: bool) -> (InputView, Seq<ActionView>) {
    match km.lookup_spec(pk) {
        KeymapLookup::Match(cmd) => {
            let count = count_of(s.count_accum);
            if operators && cmd.is_operator_spec() {
                (
                    InputView { pending_operator: Some(operator_of(cmd)), count_accum: Some(count), ..cleared(s) },
                    Seq::empty(),
                )
            } else {
                resolve_view(cmd, count, cleared(s), t, cursor)
            }
        },
        KeymapLookup::Pending => (InputView { pending_keys: pk, ..s }, Seq::empty()),
        KeymapLookup::NoMatch => (cleared(s), Seq::empty()),
    }
}

/// A key in operator-pending mode, operator `op` waiting.
pub open spec fn operator_pending_view(s: InputView, op: Operator, key: Key, km: Keymap, t: Seq<char>, cursor: int) -> (InputView, Seq<ActionView>) {
    let count = count_of(s.count_accum);
    let done = InputView { pending_operator: None, ..cleared(s) };
    match s.pending_find_char {
        Some((f, sb)) => {
            let s1 = InputView { pending_find_char: None, ..done };
            match key.first_char_spec() {
                Some(ch) => find_char_op_view(
                    InputView { last_find_char: Some((ch, f, sb)), ..s1 },
                    op,
                    ch,
                    f,
                    sb,
                    count,
                    t,
                    cursor,
                ),
                None => (s1, Seq::empty()),
            }
        },
        None => if key.text_spec() == seq![doubled_key(op)] {
            whole_line_view(done, op, count, t, cursor)
        } else {
            match plain_press(key) {
                None => (done, Seq::empty()),
                Some(kp) => {
                    let pk = s.pending_keys.push(kp);
                    if pk.len() == 1 && starts_text_object(kp) {
                        (InputView { pending_keys: pk, ..s }, Seq::empty())
                    } else {
                        let obj = if pk.len() == 2 {
                            match (pk[0].key, pk[1].key) {
                                (KeyId::Char(m), KeyId::Char(o)) => text_object_of(m, o),
                                _ => None,
                            }
                        } else {
                            None
                        };
                        match obj {
                            Some(o) => text_object_op_view(done, op, o, t, cursor),
                            None => {
                                let pk2 = if pk.len() == 2 && pk[0].key is Char && pk[1].key is Char {
                                    seq![pk[1]]
                                } else {
                                    pk
                                };
                                match km.lookup_spec(pk2) {
                                    KeymapLookup::Match(cmd) => if cmd.is_operator_spec() {
                                        (InputView { pending_operator: None, ..cleared(s) }, Seq::empty())
                                    } else {
                                        match cmd.find_char_params_spec() {
                                            Some((f, sb)) => (
                                                InputView { pending_find_char: Some((f, sb)), ..cleared(s) },
                                                Seq::empty(),
                                            ),
                                            None => operator_motion_view(
                                                InputView { pending_operator: None, ..cleared(s) },
                                                op,
                                                cmd,
                                                count,
                                                t,
                                                cursor,
                                            ),
                                        }
                                    },
                                    KeymapLookup::Pending => (InputView { pending_keys: pk2, ..s }, Seq::empty()),
                                    KeymapLookup::NoMatch => (done, Seq::empty()),
                                }
                            },
                        }
                    }
                },
            }
        },
    }
}

/// A key in normal mode.
pub open spec fn normal_view(s: InputView, key: Key, km: Keymap, t: Seq<char>, cursor: int) -> (InputView, Seq<ActionView>) {
    if key.is_bare_modifier_spec() {
        (s, Seq::empty())
    } else if s.pending_replace {
        let s1 = InputView { pending_replace: false, ..s };
        match key.first_char_spec() {
            Some(ch) => (s1, seq![ActionView::ReplaceChar(ch)]),
            None => (s1, Seq::empty()),
        }
    } else if s.pending_find_char is Some {
        let (f, sb) = s.pending_find_char->0;
        let s1 = InputView { pending_find_char: None, ..s };
        match key.first_char_spec() {
            Some(ch) => (
                InputView { last_find_char: Some((ch, f, sb)), ..s1 },
                seq![move_view(Motion::FindChar { ch, forward: f, stop_before: sb }, count_of(s.count_accum))],
            ),
            None => (s1, Seq::empty()),
        }
    } else if s.pending_operator is Some {
        operator_pending_view(s, s.pending_operator->0, key, km, t, cursor)
    } else if key.single_char_spec() is Some && extends_count(s.count_accum, key.single_char_spec()->0) {
        (
            InputView { count_accum: Some(count_after_digit(s.count_accum, key.single_char_spec()->0)), ..s },
            Seq::empty(),
        )
    } else {
        match plain_press(key) {
            Some(kp) => after_lookup(s, s.pending_keys.push(kp), km, t, cursor, true),
            None => (cleared(s), Seq::empty()),
        }
    }
}

/// A key in visual mode.
pub open spec fn visual_view(s: InputView, key: Key, km: Keymap, t: Seq<char>, cursor: int) -> (InputView, Seq<ActionView>) {
    if key.is_bare_modifier_spec() {
        (s, Seq::empty())
    } else {
        match plain_press(key) {
            None => (cleared(s), Seq::empty()),
            Some(kp) => if s.pending_keys.len() == 1 {
                let obj = match (s.pending_keys[0].key, kp.key) {
                    (KeyId::Char(m), KeyId::Char(o)) => text_object_of(m, o),
                    _ => None,
                };
                match obj {
                    Some(o) => {
                        let r = text_object_range(t, cursor, o);
                        if r.0 != r.1 {
                            (
                                InputView { selection_anchor: Some(r.0 as usize), ..cleared(s) },
                                seq![
                                    ActionView::SetCursor(if r.1 > 0 { (r.1 - 1) as usize } else { 0 }),
                                    ActionView::SetSelection(Some((r.0 as usize, r.1 as usize))),
                                ],
                            )
                        } else {
                            (cleared(s), Seq::empty())
                        }
                    },
                    None => after_lookup(s, seq![kp], km, t, cursor, false),
                }
            } else if starts_text_object(kp) {
                (InputView { pending_keys: s.pending_keys.push(kp), ..s }, Seq::empty())
            } else if kp.key is Char && extends_count(s.count_accum, kp.key->Char_0) {
                (InputView { count_accum: Some(count_after_digit(s.count_accum, kp.key->Char_0)), ..s }, Seq::empty())
            } else {
                after_lookup(s, s.pending_keys.push(kp), km, t, cursor, false)
            },
        }
    }
}

/// A key in insert mode: a named key bound in the keymap runs its command;
/// otherwise the key's printable text is inserted.
pub open spec fn insert_view(s: InputView, key: Key, mods: KeyModifiers, km: Keymap, t: Seq<char>, cursor: int, text: Option<Seq<char>>) -> (InputView, Seq<ActionView>) {
    let typed = match text {
        Some(x) => (s, printable_inserts(x)),
        None => (s, Seq::empty()),
    };
    match key_press_of(key, mods) {
        Some(kp) => if kp.key is Named {
            match km.lookup_spec(seq![kp]) {
                KeymapLookup::Match(cmd) => resolve_view(cmd, 1, s, t, cursor),
                _ => if key != Key::Named(NamedKey::Space) {
                    (s, Seq::empty())
                } else {
                    typed
                },
            }
        } else {
            typed
        },
        None => typed,
    }
}

/// A key while a line (command or search) is being typed: the line, the
/// history, and the mode after it.
pub open spec fn line_edit(line: Seq<char>, h: HistoryView, key: Key, text: Option<Seq<char>>) -> (Seq<char>, HistoryView, bool) {
    let typed = match text {
        Some(x) => (line + printable(x), h, false),
        None => (line, h, false),
    };
    match key {
        Key::Named(NamedKey::ArrowUp) => (h.up(line).1, h.up(line).0, false),
        Key::Named(NamedKey::ArrowDown) => (h.down(line).1, h.down(line).0, false),
        Key::Named(NamedKey::Backspace) => if line.len() == 0 {
            (line, h, true)
        } else {
            (line.drop_last(), h, false)
        },
        Key::Named(NamedKey::Space) => typed,
        Key::Named(_) => (line, h, false),
        _ => typed,
    }
}

/// A key in search mode.
pub open spec fn search_view(s: InputView, key: Key, text: Option<Seq<char>>) -> (InputView, Seq<ActionView>) {
    let q = s.search_query;
    if key == Key::Named(NamedKey::Escape) {
        (
            InputView { search_query: Seq::empty(), mode: VimMode::Normal, search_history: s.search_history.reset_view(), ..s },
            seq![mode_view("NORMAL"@)],
        )
    } else if key == Key::Named(NamedKey::Enter) {
        let s1 = InputView { search_query: Seq::empty(), mode: VimMode::Normal, ..s };
        if q.len() == 0 {
            (s1, seq![mode_view("NORMAL"@)])
        } else {
            (
                InputView { search_history: s.search_history.pushed(q), ..s1 },
                seq![ActionView::SetSearchPattern(q), ActionView::SearchNext { count: 1 }, mode_view("NORMAL"@)],
            )
        }
    } else {
        let (line, h, leave) = line_edit(q, s.search_history, key, text);
        if leave {
            (InputView { mode: VimMode::Normal, ..s }, seq![mode_view("NORMAL"@)])
        } else {
            (InputView { search_query: line, search_history: h, ..s }, Seq::empty())
        }
    }
}

/// A key in command mode.
pub open spec fn command_view(s: InputView, key: Key, text: Option<Seq<char>>) -> (InputView, Seq<ActionView>) {
    let c = s.command_line;
    if key == Key::Named(NamedKey::Escape) {
        (
            InputView { command_line: Seq::empty(), mode: VimMode::Normal, command_history: s.command_history.reset_view(), ..s },
            seq![mode_view("NORMAL"@)],
        )
    } else if key == Key::Named(NamedKey::Enter) {
        (
            InputView { command_line: Seq::empty(), mode: VimMode::Normal, command_history: s.command_history.pushed(c), ..s },
            seq![mode_view("NORMAL"@)] + ex_command_view(c),
        )
    } else {
        let (line, h, leave) = line_edit(c, s.command_history, key, text);
        if leave {
            (InputView { mode: VimMode::Normal, ..s }, seq![mode_view("NORMAL"@)])
        } else {
            (InputView { command_line: line, command_history: h, ..s }, Seq::empty())
        }
    }
}

/// A key, in whatever mode: chords of the global keymap first, then the
/// mode's own handling.
pub open spec fn key_view(
    s: InputView,
    key: Key,
    modified_key: Key,
    mods: KeyModifiers,
    text: Option<Seq<char>>,
    global: Keymap,
    km: Keymap,
    t: Seq<char>,
    cursor: int,
) -> (InputView, Seq<ActionView>) {
    if key.is_bare_modifier_spec() {
        (s, Seq::empty())
    } else {
        let press = match key_press_of(modified_key, mods) {
            Some(k) => Some(k),
            None => key_press_of(key, mods),
        };
        let count = count_of(s.count_accum);
        let chord = mods.control || mods.command || mods.alt;
        if s.pending_global_keys.len() > 0 && press is Some && global.lookup_spec(
            s.pending_global_keys.push(press->0),
        ) != KeymapLookup::NoMatch {
            let pg = s.pending_global_keys.push(press->0);
            match global.lookup_spec(pg) {
                KeymapLookup::Match(cmd) => resolve_view(
                    cmd,
                    count,
                    InputView { pending_global_keys: Seq::empty(), count_accum: None, ..s },
                    t,
                    cursor,
                ),
                _ => (InputView { pending_global_keys: pg, ..s }, Seq::empty()),
            }
        } else if s.pending_global_keys.len() == 0 && chord && key_press_of(modified_key, mods) is Some
            && global.lookup_spec(seq![key_press_of(modified_key, mods)->0]) != KeymapLookup::NoMatch {
            let kp = key_press_of(modified_key, mods)->0;
            match global.lookup_spec(seq![kp]) {
                KeymapLookup::Match(cmd) => resolve_view(cmd, count, InputView { count_accum: None, ..s }, t, cursor),
                _ => (InputView { pending_global_keys: seq![kp], ..s }, Seq::empty()),
            }
        } else {
            let s1 = InputView { pending_global_keys: Seq::empty(), ..s };
            match s1.mode {
                VimMode::Normal => normal_view(s1, modified_key, km, t, cursor),
                VimMode::Visual | VimMode::VisualLine => visual_view(s1, modified_key, km, t, cursor),
                VimMode::Insert => insert_view(s1, key, mods, km, t, cursor, text),
                VimMode::Command => command_view(s1, key, text),
                VimMode::Search => search_view(s1, key, text),
            }
        }
    }
}

} // verus!

verus! {

/// The state of modal key handling.
pub struct InputState {
    pub mode: VimMode,
    pub selection_anchor: Option<usize>,
    pub pending_keys: Vec<KeyPress>,
    pub pending_global_keys: Vec<KeyPress>,
    pub count_accum: Option<usize>,
    pub command_line: String,
    pub pending_operator: Option<Operator>,
    pub search_query: String,
    pub pending_replace: bool,
    pub pending_find_char: Option<(bool, bool)>,
    pub last_find_char: Option<(char, bool, bool)>,
    pub search_history: History,
    pub command_history: History,
}

impl View for InputState {
    type V = InputView;

    open spec fn view(&self) -> InputView {
        InputView {
            mode: self.mode,
            selection_anchor: self.selection_anchor,
            pending_keys: self.pending_keys@,
            pending_global_keys: self.pending_global_keys@,
            count_accum: self.count_accum,
            command_line: self.command_line@,
            pending_operator: self.pending_operator,
            search_query: self.search_query@,
            pending_replace: self.pending_replace,
            pending_find_char: self.pending_find_char,
            last_find_char: self.last_find_char,
            search_history: self.search_history@,
            command_history: self.command_history@,
        }
    }
}

/// What key handling needs of its state, the text and the cursor: the
/// cursor and the visual anchor lie in the text, which leaves room for
/// one past its last index in a `usize`, the typed count can take one more
/// digit, and the histories are well formed.
pub open spec fn input_ok(s: InputView, t: Seq<char>, cursor: int) -> bool {
    &&& 0 <= cursor <= t.len()
    &&& t.len() < usize::MAX
    &&& s.selection_anchor matches Some(a) ==> a <= t.len()
    &&& s.count_accum matches Some(c) ==> c <= (usize::MAX - 9) / 10
    &&& s.search_history.wf()
    &&& s.command_history.wf()
}

/// The text of an optional key text.
pub open spec fn text_view(text: Option<&str>) -> Option<Seq<char>> {
    match text {
        Some(x) => Some(x@),
        None => None,
    }
}

/// Appends `a` to `v`.
fn act(v: &mut Vec<EditorAction>, a: EditorAction)
    ensures
        action_views(final(v)@) == action_views(old(v)@).push(a@),
{
    let ghost av = a@;
    v.push(a);
    assert(action_views(v@) =~= action_views(old(v)@).push(av));
}

/// No actions.
fn no_actions() -> (v: Vec<EditorAction>)
    ensures
        action_views(v@) == Seq::<ActionView>::empty(),
{
    let v: Vec<EditorAction> = Vec::new();
    assert(action_views(v@) =~= Seq::<ActionView>::empty());
    v
}

/// The action that shows `label` as the mode.
fn mode_action(label: &str) -> (a: EditorAction)
    ensures
        a@ == mode_view(label@),
{
    EditorAction::SetMode(str_to_string(label))
}

impl InputState {
    /// Normal mode, nothing pending, empty histories.
    pub fn new() -> (s: Self)
        ensures
            s@.mode == VimMode::Normal,
            s@.selection_anchor is None,
            s@.pending_keys == Seq::<KeyPress>::empty(),
            s@.pending_global_keys == Seq::<KeyPress>::empty(),
            s@.count_accum is None,
            s@.command_line == Seq::<char>::empty(),
            s@.pending_operator is None,
            s@.search_query == Seq::<char>::empty(),
            !s@.pending_replace,
            s@.pending_find_char is None,
            s@.last_find_char is None,
            s@.search_history.entries.len() == 0,
            s@.search_history.wf(),
            s@.command_history.entries.len() == 0,
            s@.command_history.wf(),
    {
        InputState {
            mode: VimMode::Normal,
            selection_anchor: None,
            pending_keys: Vec::new(),
            pending_global_keys: Vec::new(),
            count_accum: None,
            command_line: String::new(),
            pending_operator: None,
            search_query: String::new(),
            pending_replace: false,
            pending_find_char: None,
            last_find_char: None,
            search_history: History::new(),
            command_history: History::new(),
        }
    }

    fn insert_with(&mut self, moves: Vec<EditorAction>) -> (r: Vec<EditorAction>)
        ensures
            (final(self)@, action_views(r@)) == insert_entry(old(self)@, action_views(moves@)),
    {
        self.mode = VimMode::Insert;
        let mut moves = moves;
        let ghost mv = moves@;
        let mut r = no_actions();
        act(&mut r, EditorAction::StartEditGroup);
        let ghost r0 = r@;
        r.append(&mut moves);
        act(&mut r, EditorAction::ClearSearch);
        act(&mut r, mode_action("INSERT"));
        proof {
            assert(action_views(r0 + mv) =~= action_views(r0) + action_views(mv));
            assert(action_views(r@) =~= insert_entry(old(self)@, action_views(mv)).1);
        }
        r
    }

    /// `i`: insert mode at the cursor.
    pub fn enter_insert(&mut self) -> (r: Vec<EditorAction>)
        ensures
            (final(self)@, action_views(r@)) == insert_entry(old(self)@, Seq::empty()),
    {
        let m = no_actions();
        self.insert_with(m)
    }

    /// `a`: insert mode after the cursor.
    pub fn enter_insert_after(&mut self) -> (r: Vec<EditorAction>)
        ensures
            (final(self)@, action_views(r@)) == insert_entry(old(self)@, seq![move_view(Motion::Right, 1)]),
    {
        let mut m = no_actions();
        act(&mut m, EditorAction::MoveCursor { motion: Motion::Right, count: 1 });
        self.insert_with(m)
    }

    /// `A`: insert mode at the end of the line.
    pub fn enter_insert_line_end(&mut self) -> (r: Vec<EditorAction>)
        ensures
            (final(self)@, action_views(r@)) == insert_entry(old(self)@, seq![move_view(Motion::LineEnd, 1)]),
    {
        let mut m = no_actions();
        act(&mut m, EditorAction::MoveCursor { motion: Motion::LineEnd, count: 1 });
        self.insert_with(m)
    }

    /// `I`: insert mode at the start of the line.
    pub fn enter_insert_line_start(&mut self) -> (r: Vec<EditorAction>)
        ensures
            (final(self)@, action_views(r@)) == insert_entry(old(self)@, seq![move_view(Motion::LineStart, 1)]),
    {
        let mut m = no_actions();
        act(&mut m, EditorAction::MoveCursor { motion: Motion::LineStart, count: 1 });
        self.insert_with(m)
    }

    /// `o`: a new line below, in insert mode.
    pub fn open_below(&mut self) -> (r: Vec<EditorAction>)
        ensures
            (final(self)@, action_views(r@)) == insert_entry(
                old(self)@,
                seq![move_view(Motion::LineEnd, 1), ActionView::InsertNewline],
            ),
    {
        let mut m = no_actions();
        act(&mut m, EditorAction::MoveCursor { motion: Motion::LineEnd, count: 1 });
        act(&mut m, EditorAction::InsertNewline);
        proof {
            assert(action_views(m@) =~= seq![move_view(Motion::LineEnd, 1), ActionView::InsertNewline]);
        }
        self.insert_with(m)
    }

    /// `O`: a new line above, in insert mode.
    pub fn open_above(&mut self) -> (r: Vec<EditorAction>)
        ensures
            (final(self)@, action_views(r@)) == insert_entry(
                old(self)@,
                seq![move_view(Motion::LineStart, 1), ActionView::InsertNewline, move_view(Motion::Up, 1)],
            ),
    {
        let mut m = no_actions();
        act(&mut m, EditorAction::MoveCursor { motion: Motion::LineStart, count: 1 });
        act(&mut m, EditorAction::InsertNewline);
        act(&mut m, EditorAction::MoveCursor { motion: Motion::Up, count: 1 });
        proof {
            assert(action_views(m@) =~= seq![move_view(Motion::LineStart, 1), ActionView::InsertNewline, move_view(Motion::Up, 1)]);
        }
        self.insert_with(m)
    }

    /// Escape in insert mode: back to normal mode, closing the edit group.
    pub fn exit_insert(&mut self) -> (r: Vec<EditorAction>)
        ensures
            final(self)@ == (InputView { mode: VimMode::Normal, ..old(self)@ }),
            action_views(r@) == seq![ActionView::FinishEditGroup, mode_view("NORMAL"@)],
    {
        self.mode = VimMode::Normal;
        let mut r = no_actions();
        act(&mut r, EditorAction::FinishEditGroup);
        act(&mut r, mode_action("NORMAL"));
        assert(action_views(r@) =~= seq![ActionView::FinishEditGroup, mode_view("NORMAL"@)]);
        r
    }

    /// `:`: command mode with an empty command line.
    pub fn enter_command(&mut self)
        ensures
            final(self)@ == (InputView { command_line: Seq::empty(), mode: VimMode::Command, ..old(self)@ }),
    {
        string_clear(&mut self.command_line);
        self.mode = VimMode::Command;
    }

    /// `/`: search mode with an empty query.
    pub fn enter_search(&mut self)
        ensures
            final(self)@ == (InputView { search_query: Seq::empty(), mode: VimMode::Search, ..old(self)@ }),
    {
        string_clear(&mut self.search_query);
        self.mode = VimMode::Search;
    }

    /// Opens the buffer picker, from normal mode.
    pub fn open_buffer_picker(&mut self) -> (r: Vec<EditorAction>)
        ensures
            final(self)@ == (InputView { mode: VimMode::Normal, ..old(self)@ }),
            action_views(r@) == seq![ActionView::OpenBufferPicker],
    {
        self.mode = VimMode::Normal;
        let mut r = no_actions();
        act(&mut r, EditorAction::OpenBufferPicker);
        r
    }

    /// Opens the file picker (at most a thousand files), from normal mode.
    pub fn open_project_files_picker(&mut self, show_ignored: bool) -> (r: Vec<EditorAction>)
        ensures
            final(self)@ == (InputView { mode: VimMode::Normal, ..old(self)@ }),
            action_views(r@) == seq![ActionView::OpenFilePicker { show_ignored, max_results: 1000 }],
    {
        self.mode = VimMode::Normal;
        let mut r = no_actions();
        act(&mut r, EditorAction::OpenFilePicker { show_ignored, max_results: 1000 });
        r
    }

    /// `v`: visual mode anchored at the cursor.
    pub fn enter_visual(&mut self, cursor: usize)
        ensures
            final(self)@ == (InputView { selection_anchor: Some(cursor), mode: VimMode::Visual, ..old(self)@ }),
    {
        self.selection_anchor = Some(cursor);
        self.mode = VimMode::Visual;
    }

    /// `V`: from visual mode to line mode, out of line mode, or into it.
    pub fn enter_visual_line(&mut self, cursor: usize)
        ensures
            final(self)@ == visual_line_view(old(self)@, cursor as int),
    {
        if self.mode == VimMode::Visual {
            self.mode = VimMode::VisualLine;
        } else if self.mode == VimMode::VisualLine {
            self.selection_anchor = None;
            self.mode = VimMode::Normal;
        } else {
            self.selection_anchor = Some(cursor);
            self.mode = VimMode::VisualLine;
        }
    }

    /// Leaves visual mode, clearing the selection.
    pub fn exit_visual(&mut self) -> (r: Vec<EditorAction>)
        ensures
            final(self)@ == (InputView { selection_anchor: None, mode: VimMode::Normal, ..old(self)@ }),
            action_views(r@) == seq![ActionView::SetSelection(None), mode_view("NORMAL"@)],
    {
        self.selection_anchor = None;
        self.mode = VimMode::Normal;
        let mut r = no_actions();
        act(&mut r, EditorAction::SetSelection(None));
        act(&mut r, mode_action("NORMAL"));
        assert(action_views(r@) =~= seq![ActionView::SetSelection(None), mode_view("NORMAL"@)]);
        r
    }

    fn visual_op(&mut self, buffer: &Buffer, cursor: usize, op: Operator) -> (r: Vec<EditorAction>)
        requires
            buffer.wf(),
            input_ok(old(self)@, buffer@, cursor as int),
        ensures
            (final(self)@, action_views(r@)) == visual_op_view(old(self)@, selection_of(old(self)@, buffer@, cursor as int), op),
    {
        let mut r = no_actions();
        let sel = self.compute_selection(buffer, cursor);
        if let Some((start, end)) = sel {
            let range = Range { start, end };
            match op {
                Operator::Delete => act(&mut r, EditorAction::DeleteRange(range)),
                Operator::Yank => act(&mut r, EditorAction::YankRange(range)),
                Operator::Change => act(&mut r, EditorAction::ChangeRange(range)),
            }
        }
        self.selection_anchor = None;
        let change = op == Operator::Change;
        self.mode = if change { VimMode::Insert } else { VimMode::Normal };
        act(&mut r, EditorAction::SetSelection(None));
        act(&mut r, mode_action(if change { "INSERT" } else { "NORMAL" }));
        proof {
            assert(action_views(r@) =~= visual_op_view(old(self)@, sel, op).1);
        }
        r
    }

    /// `d` in visual mode: deletes the selection.
    pub fn visual_delete(&mut self, buffer: &Buffer, cursor: usize) -> (r: Vec<EditorAction>)
        requires
            buffer.wf(),
            input_ok(old(self)@, buffer@, cursor as int),
        ensures
            (final(self)@, action_views(r@)) == visual_op_view(old(self)@, selection_of(old(self)@, buffer@, cursor as int), Operator::Delete),
    {
        self.visual_op(buffer, cursor, Operator::Delete)
    }

    /// `y` in visual mode: yanks the selection.
    pub fn visual_yank(&mut self, buffer: &Buffer, cursor: usize) -> (r: Vec<EditorAction>)
        requires
            buffer.wf(),
            input_ok(old(self)@, buffer@, cursor as int),
        ensures
            (final(self)@, action_views(r@)) == visual_op_view(old(self)@, selection_of(old(self)@, buffer@, cursor as int), Operator::Yank),
    {
        self.visual_op(buffer, cursor, Operator::Yank)
    }

    /// `c` in visual mode: changes the selection.
    pub fn visual_change(&mut self, buffer: &Buffer, cursor: usize) -> (r: Vec<EditorAction>)
        requires
            buffer.wf(),
            input_ok(old(self)@, buffer@, cursor as int),
        ensures
            (final(self)@, action_views(r@)) == visual_op_view(old(self)@, selection_of(old(self)@, buffer@, cursor as int), Operator::Change),
    {
        self.visual_op(buffer, cursor, Operator::Change)
    }

    /// The visual selection at `cursor`: whole lines in line mode, else the
    /// chars from anchor to cursor, both included; none without an anchor.
    pub fn compute_selection(&self, buffer: &Buffer, cursor: usize) -> (r: Option<(usize, usize)>)
        requires
            buffer.wf(),
            input_ok(self@, buffer@, cursor as int),
        ensures
            r == selection_of(self@, buffer@, cursor as int),
    {
        let anchor = match self.selection_anchor {
            Some(a) => a,
            None => return None,
        };
        if self.mode == VimMode::VisualLine {
            let anchor_line = buffer.char_to_line(anchor);
            let cursor_line = buffer.char_to_line(cursor);
            let (start_line, end_line) = if anchor_line <= cursor_line {
                (anchor_line, cursor_line)
            } else {
                (cursor_line, anchor_line)
            };
            proof {
                crate::text::lemma_line_of_bounds(buffer@, anchor as int);
                crate::text::lemma_line_of_bounds(buffer@, cursor as int);
            }
            let start = buffer.line_to_char(start_line);
            let total = buffer.total_lines();
            let end = if end_line + 1 < total {
                buffer.line_to_char(end_line + 1)
            } else {
                buffer.len_chars()
            };
            Some((start, end))
        } else if anchor <= cursor {
            Some((anchor, cursor + 1))
        } else {
            Some((cursor, anchor + 1))
        }
    }

    /// What the status line shows instead of the mode: the command line
    /// after `:`, or the query after `/`.
    pub fn status_line_override(&self) -> (r: Option<String>)
        ensures
            self.mode == VimMode::Command ==> r is Some && r->0@ == seq![':'] + self.command_line@,
            self.mode == VimMode::Search ==> r is Some && r->0@ == seq!['/'] + self.search_query@,
            self.mode != VimMode::Command && self.mode != VimMode::Search ==> r is None,
    {
        match self.mode {
            VimMode::Command => {
                let mut s = crate::strs::char_to_string(':');
                crate::strs::string_push_str(&mut s, self.command_line.as_str());
                Some(s)
            },
            VimMode::Search => {
                let mut s = crate::strs::char_to_string('/');
                crate::strs::string_push_str(&mut s, self.search_query.as_str());
                Some(s)
            },
            _ => None,
        }
    }
}

} // verus!

verus! {

/// The count typed so far, one when none was.
fn count_or_one(c: Option<usize>) -> (n: usize)
    ensures
        n == count_of(c),
{
    match c {
        Some(n) => n,
        None => 1,
    }
}

/// The key press of `kp` alone, as a list.
fn single_press(kp: KeyPress) -> (v: Vec<KeyPress>)
    ensures
        v@ == seq![kp],
{
    let mut v = Vec::new();
    v.push(kp);
    v
}

/// Insert-char actions for the printable chars of `text`.
fn printable_actions(text: &str) -> (r: Vec<EditorAction>)
    ensures
        action_views(r@) == printable_inserts(text@),
{
    let chars = crate::strs::chars_of(text);
    let mut r = no_actions();
    let mut i: usize = 0;
    while i < chars.len()
        invariant
            chars@ == text@,
            i <= chars@.len(),
            action_views(r@) == printable_inserts(chars@.take(i as int)),
        decreases chars@.len() - i,
    {
        let c = chars[i];
        proof {
            assert(chars@.take(i as int + 1).drop_last() =~= chars@.take(i as int));
        }
        proof {
            assert(chars@.take(i as int + 1).last() == c);
        }
        if !char_is_control(c) {
            act(&mut r, EditorAction::InsertChar(c));
            proof {
                assert(action_views(r@) =~= printable_inserts(chars@.take(i as int + 1)));
            }
        } else {
            proof {
                assert(printable_inserts(chars@.take(i as int + 1)) =~= printable_inserts(chars@.take(i as int)));
            }
        }
        i = i + 1;
    }
    proof {
        assert(chars@.take(chars@.len() as int) =~= chars@);
    }
    r
}

/// Appends the printable chars of `text` to `line`.
fn push_printable(line: &mut String, text: &str)
    ensures
        final(line)@ == old(line)@ + printable(text@),
{
    let chars = crate::strs::chars_of(text);
    let mut i: usize = 0;
    while i < chars.len()
        invariant
            chars@ == text@,
            i <= chars@.len(),
            line@ == old(line)@ + printable(chars@.take(i as int)),
        decreases chars@.len() - i,
    {
        let c = chars[i];
        proof {
            assert(chars@.take(i as int + 1).drop_last() =~= chars@.take(i as int));
        }
        if !char_is_control(c) {
            string_push(line, c);
            proof {
                assert(line@ =~= old(line)@ + printable(chars@.take(i as int + 1)));
            }
        } else {
            proof {
                assert(printable(chars@.take(i as int + 1)) =~= printable(chars@.take(i as int)));
            }
        }
        i = i + 1;
    }
    proof {
        assert(chars@.take(chars@.len() as int) =~= chars@);
    }
}

/// Whether `a` and `b` hold the same chars.
fn str_is(a: &String, b: &str) -> (r: bool)
    ensures
        r == (a@ == b@),
{
    crate::strs::str_eq(a.as_str(), b)
}

impl InputState {
    fn emit_operator(&mut self, operator: Operator, start: usize, end: usize) -> (r: Vec<EditorAction>)
        ensures
            (final(self)@, action_views(r@)) == emit_view(old(self)@, operator, start as int, end as int),
    {
        let range = Range { start, end };
        let mut r = no_actions();
        match operator {
            Operator::Delete => act(&mut r, EditorAction::DeleteRange(range)),
            Operator::Change => {
                self.mode = VimMode::Insert;
                act(&mut r, EditorAction::ChangeRange(range));
                act(&mut r, mode_action("INSERT"));
            },
            Operator::Yank => act(&mut r, EditorAction::YankRange(range)),
        }
        proof {
            assert(action_views(r@) =~= emit_view(old(self)@, operator, start as int, end as int).1);
        }
        r
    }

    fn resolve_operator_motion(&mut self, operator: Operator, motion_cmd: Command, count: usize, buffer: &Buffer, cursor: usize) -> (r: Vec<EditorAction>)
        requires
            buffer.wf(),
            input_ok(old(self)@, buffer@, cursor as int),
        ensures
            (final(self)@, action_views(r@)) == operator_motion_view(old(self)@, operator, motion_cmd, count, buffer@, cursor as int),
    {
        let mi = match motion_cmd.as_motion() {
            Some(p) => Some(p),
            None => match motion_cmd {
                Command::MotionRepeatFindChar => match self.last_find_char {
                    Some((ch, forward, stop_before)) => Some((Motion::FindChar { ch, forward, stop_before }, true)),
                    None => None,
                },
                Command::MotionRepeatFindCharReverse => match self.last_find_char {
                    Some((ch, forward, stop_before)) => Some((Motion::FindChar { ch, forward: !forward, stop_before }, true)),
                    None => None,
                },
                _ => None,
            },
        };
        let (motion, inclusive) = match mi {
            Some(p) => p,
            None => return no_actions(),
        };
        let after = buffer.cursor_after_motion(cursor, &motion, count);
        let (start, end) = if cursor <= after {
            (cursor, if inclusive { after + 1 } else { after })
        } else {
            (after, cursor + 1)
        };
        if start >= end {
            return no_actions();
        }
        self.emit_operator(operator, start, end)
    }

    fn resolve_operator_whole_line(&mut self, operator: Operator, count: usize, buffer: &Buffer, cursor: usize) -> (r: Vec<EditorAction>)
        requires
            buffer.wf(),
            input_ok(old(self)@, buffer@, cursor as int),
            count <= (usize::MAX - 9) / 10,
        ensures
            (final(self)@, action_views(r@)) == whole_line_view(old(self)@, operator, count, buffer@, cursor as int),
    {
        let (line, _) = buffer.cursor_position(cursor);
        proof {
            crate::text::lemma_nl_count_le_len(buffer@);
        }
        let line_start_pos = buffer.line_to_char(line);
        let total = buffer.total_lines();
        let target_line = if count < total - line { line + count } else { total };
        let line_end = if target_line < total {
            buffer.line_to_char(target_line)
        } else {
            buffer.len_chars()
        };
        if line_start_pos == line_end {
            return no_actions();
        }
        self.emit_operator(operator, line_start_pos, line_end)
    }

    fn resolve_operator_text_object(&mut self, operator: Operator, obj: TextObject, buffer: &Buffer, cursor: usize) -> (r: Vec<EditorAction>)
        requires
            buffer.wf(),
            input_ok(old(self)@, buffer@, cursor as int),
        ensures
            (final(self)@, action_views(r@)) == text_object_op_view(old(self)@, operator, obj, buffer@, cursor as int),
    {
        let (start, end) = resolve_text_object(buffer, cursor, obj);
        if start == end {
            return no_actions();
        }
        self.emit_operator(operator, start, end)
    }

    fn resolve_operator_with_find_char(
        &mut self,
        operator: Operator,
        ch: char,
        forward: bool,
        stop_before: bool,
        count: usize,
        buffer: &Buffer,
        cursor: usize,
    ) -> (r: Vec<EditorAction>)
        requires
            buffer.wf(),
            input_ok(old(self)@, buffer@, cursor as int),
        ensures
            (final(self)@, action_views(r@)) == find_char_op_view(old(self)@, operator, ch, forward, stop_before, count, buffer@, cursor as int),
    {
        let motion = Motion::FindChar { ch, forward, stop_before };
        let after = buffer.cursor_after_motion(cursor, &motion, count);
        let (start, end) = if cursor <= after {
            (cursor, after + 1)
        } else {
            (after, cursor)
        };
        if start == end {
            return no_actions();
        }
        self.emit_operator(operator, start, end)
    }

    /// Looks the pending keys up in `keymap` and runs what they are bound to.
    fn run_pending(&mut self, keymap: &Keymap, buffer: &Buffer, cursor: usize, operators: bool) -> (r: Vec<EditorAction>)
        requires
            buffer.wf(),
            input_ok(old(self)@, buffer@, cursor as int),
        ensures
            (final(self)@, action_views(r@)) == after_lookup(old(self)@, old(self)@.pending_keys, *keymap, buffer@, cursor as int, operators),
    {
        match keymap.lookup(self.pending_keys.as_slice()) {
            KeymapLookup::Match(cmd) => {
                let count = count_or_one(self.count_accum);
                self.pending_keys.clear();
                self.count_accum = None;
                if operators && cmd.is_operator() {
                    self.pending_operator = Some(
                        match cmd {
                            Command::OpDelete => Operator::Delete,
                            Command::OpChange => Operator::Change,
                            _ => Operator::Yank,
                        },
                    );
                    self.count_accum = Some(count);
                    return no_actions();
                }
                crate::vim::commands::resolve(cmd, count, self, buffer, cursor)
            },
            KeymapLookup::Pending => no_actions(),
            KeymapLookup::NoMatch => {
                self.pending_keys.clear();
                self.count_accum = None;
                no_actions()
            },
        }
    }
}

} // verus!

verus! {

/// No modifiers.
fn plain_mods() -> (m: KeyModifiers)
    ensures
        m == (KeyModifiers { control: false, alt: false, command: false }),
{
    KeyModifiers { control: false, alt: false, command: false }
}

impl InputState {
    #[verifier::rlimit(40)]
    fn handle_operator_pending(&mut self, key: &Key, keymap: &Keymap, buffer: &Buffer, cursor: usize) -> (r: Vec<EditorAction>)
        requires
            buffer.wf(),
            input_ok(old(self)@, buffer@, cursor as int),
            old(self)@.pending_operator is Some,
        ensures
            (final(self)@, action_views(r@)) == operator_pending_view(
                old(self)@,
                old(self)@.pending_operator->0,
                *key,
                *keymap,
                buffer@,
                cursor as int,
            ),
    {
        let operator = self.pending_operator.unwrap();
        let count = count_or_one(self.count_accum);
        if let Some((forward, stop_before)) = self.pending_find_char {
            self.pending_find_char = None;
            self.pending_operator = None;
            self.pending_keys.clear();
            self.count_accum = None;
            match key.first_char() {
                Some(ch) => {
                    self.last_find_char = Some((ch, forward, stop_before));
                    return self.resolve_operator_with_find_char(operator, ch, forward, stop_before, count, buffer, cursor);
                },
                None => return no_actions(),
            }
        }
        let doubled = match operator {
            Operator::Delete => 'd',
            Operator::Change => 'c',
            Operator::Yank => 'y',
        };
        if key.text_is_char(doubled) {
            self.pending_operator = None;
            self.pending_keys.clear();
            self.count_accum = None;
            return self.resolve_operator_whole_line(operator, count, buffer, cursor);
        }
        let kp = match KeyPress::from_key(key, &plain_mods()) {
            Some(kp) => kp,
            None => {
                self.pending_keys.clear();
                self.count_accum = None;
                self.pending_operator = None;
                return no_actions();
            },
        };
        let ghost s0 = self@;
        self.pending_keys.push(kp);
        if self.pending_keys.len() == 1 && (kp.key == KeyId::Char('i') || kp.key == KeyId::Char('a')) {
            return no_actions();
        }
        if self.pending_keys.len() == 2 {
            let first = self.pending_keys[0];
            let second = self.pending_keys[1];
            match (first.key, second.key) {
                (KeyId::Char(m), KeyId::Char(o)) => {
                    if let Some(obj) = parse_text_object(m, o) {
                        self.pending_operator = None;
                        self.pending_keys.clear();
                        self.count_accum = None;
                        return self.resolve_operator_text_object(operator, obj, buffer, cursor);
                    }
                    self.pending_keys.clear();
                    self.pending_keys.push(second);
                },
                _ => {},
            }
        }
        match keymap.lookup(self.pending_keys.as_slice()) {
            KeymapLookup::Match(cmd) => {
                self.pending_keys.clear();
                self.count_accum = None;
                if cmd.is_operator() {
                    self.pending_operator = None;
                    return no_actions();
                }
                if let Some((forward, stop_before)) = cmd.find_char_params() {
                    self.pending_find_char = Some((forward, stop_before));
                    return no_actions();
                }
                self.pending_operator = None;
                self.resolve_operator_motion(operator, cmd, count, buffer, cursor)
            },
            KeymapLookup::Pending => no_actions(),
            KeymapLookup::NoMatch => {
                self.pending_keys.clear();
                self.count_accum = None;
                self.pending_operator = None;
                no_actions()
            },
        }
    }

    #[verifier::rlimit(40)]
    fn handle_normal(&mut self, key: &Key, keymap: &Keymap, buffer: &Buffer, cursor: usize) -> (r: Vec<EditorAction>)
        requires
            buffer.wf(),
            input_ok(old(self)@, buffer@, cursor as int),
        ensures
            (final(self)@, action_views(r@)) == normal_view(old(self)@, *key, *keymap, buffer@, cursor as int),
    {
        if key.is_bare_modifier() {
            return no_actions();
        }
        if self.pending_replace {
            self.pending_replace = false;
            let mut r = no_actions();
            if let Some(ch) = key.first_char() {
                act(&mut r, EditorAction::ReplaceChar(ch));
            }
            return r;
        }
        if let Some((forward, stop_before)) = self.pending_find_char {
            self.pending_find_char = None;
            let mut r = no_actions();
            if let Some(ch) = key.first_char() {
                self.last_find_char = Some((ch, forward, stop_before));
                act(
                    &mut r,
                    EditorAction::MoveCursor {
                        motion: Motion::FindChar { ch, forward, stop_before },
                        count: count_or_one(self.count_accum),
                    },
                );
            }
            return r;
        }
        if self.pending_operator.is_some() {
            return self.handle_operator_pending(key, keymap, buffer, cursor);
        }
        if let Some(ch) = key.single_char() {
            if ch >= '0' && ch <= '9' && (ch != '0' || self.count_accum.is_some()) {
                let current = match self.count_accum {
                    Some(n) => n,
                    None => 0,
                };
                let digit = ((ch as u32) - ('0' as u32)) as usize;
                self.count_accum = Some(current * 10 + digit);
                return no_actions();
            }
        }
        match KeyPress::from_key(key, &plain_mods()) {
            Some(kp) => {
                self.pending_keys.push(kp);
                self.run_pending(keymap, buffer, cursor, true)
            },
            None => {
                self.pending_keys.clear();
                self.count_accum = None;
                no_actions()
            },
        }
    }

    #[verifier::rlimit(40)]
    fn handle_visual(&mut self, key: &Key, keymap: &Keymap, buffer: &Buffer, cursor: usize) -> (r: Vec<EditorAction>)
        requires
            buffer.wf(),
            input_ok(old(self)@, buffer@, cursor as int),
        ensures
            (final(self)@, action_views(r@)) == visual_view(old(self)@, *key, *keymap, buffer@, cursor as int),
    {
        if key.is_bare_modifier() {
            return no_actions();
        }
        let kp = match KeyPress::from_key(key, &plain_mods()) {
            Some(kp) => kp,
            None => {
                self.pending_keys.clear();
                self.count_accum = None;
                return no_actions();
            },
        };
        if self.pending_keys.len() == 1 {
            let first = self.pending_keys[0];
            let obj = match (first.key, kp.key) {
                (KeyId::Char(m), KeyId::Char(o)) => parse_text_object(m, o),
                _ => None,
            };
            match obj {
                Some(o) => {
                    self.pending_keys.clear();
                    self.count_accum = None;
                    let (start, end) = resolve_text_object(buffer, cursor, o);
                    if start != end {
                        self.selection_anchor = Some(start);
                        let mut r = no_actions();
                        act(&mut r, EditorAction::SetCursor(if end > 0 { end - 1 } else { 0 }));
                        act(&mut r, EditorAction::SetSelection(Some((start, end))));
                        proof {
                            assert(action_views(r@) =~= visual_view(old(self)@, *key, *keymap, buffer@, cursor as int).1);
                        }
                        return r;
                    }
                    return no_actions();
                },
                None => {
                    self.pending_keys.clear();
                    self.pending_keys.push(kp);
                },
            }
        } else {
            if kp.key == KeyId::Char('i') || kp.key == KeyId::Char('a') {
                self.pending_keys.push(kp);
                return no_actions();
            }
            match kp.key {
                KeyId::Char(ch) => {
                    if ch >= '0' && ch <= '9' && (ch != '0' || self.count_accum.is_some()) {
                        let current = match self.count_accum {
                            Some(n) => n,
                            None => 0,
                        };
                        let digit = ((ch as u32) - ('0' as u32)) as usize;
                        self.count_accum = Some(current * 10 + digit);
                        return no_actions();
                    }
                },
                _ => {},
            }
            self.pending_keys.push(kp);
        }
        self.run_pending(keymap, buffer, cursor, false)
    }

    fn handle_insert(
        &mut self,
        key: &Key,
        modifiers: &KeyModifiers,
        keymap: &Keymap,
        buffer: &Buffer,
        cursor: usize,
        text: Option<&str>,
    ) -> (r: Vec<EditorAction>)
        requires
            buffer.wf(),
            input_ok(old(self)@, buffer@, cursor as int),
        ensures
            (final(self)@, action_views(r@)) == insert_view(
                old(self)@,
                *key,
                *modifiers,
                *keymap,
                buffer@,
                cursor as int,
                text_view(text),
            ),
    {
        if let Some(kp) = KeyPress::from_key(key, modifiers) {
            if let KeyId::Named(_) = kp.key {
                let one = single_press(kp);
                match keymap.lookup(one.as_slice()) {
                    KeymapLookup::Match(cmd) => {
                        return crate::vim::commands::resolve(cmd, 1, self, buffer, cursor);
                    },
                    _ => {
                        if !key.is_named(NamedKey::Space) {
                            return no_actions();
                        }
                    },
                }
            }
        }
        match text {
            Some(t) => printable_actions(t),
            None => no_actions(),
        }
    }

    fn handle_search(&mut self, key: &Key, text: Option<&str>) -> (r: Vec<EditorAction>)
        requires
            old(self)@.search_history.wf(),
        ensures
            (final(self)@, action_views(r@)) == search_view(old(self)@, *key, text_view(text)),
    {
        let mut r = no_actions();
        if key.is_named(NamedKey::Escape) {
            string_clear(&mut self.search_query);
            self.mode = VimMode::Normal;
            self.search_history.reset();
            act(&mut r, mode_action("NORMAL"));
            return r;
        }
        if key.is_named(NamedKey::Enter) {
            let query = self.search_query.clone();
            string_clear(&mut self.search_query);
            self.mode = VimMode::Normal;
            if query.as_str().unicode_len() == 0 {
                act(&mut r, mode_action("NORMAL"));
                return r;
            }
            self.search_history.push(query.clone());
            act(&mut r, EditorAction::SetSearchPattern(query));
            act(&mut r, EditorAction::SearchNext { count: 1 });
            act(&mut r, mode_action("NORMAL"));
            proof {
                assert(action_views(r@) =~= search_view(old(self)@, *key, text_view(text)).1);
            }
            return r;
        }
        if key.is_named(NamedKey::ArrowUp) {
            self.search_history.up(&mut self.search_query);
            return r;
        }
        if key.is_named(NamedKey::ArrowDown) {
            self.search_history.down(&mut self.search_query);
            return r;
        }
        if key.is_named(NamedKey::Backspace) {
            if self.search_query.as_str().unicode_len() == 0 {
                self.mode = VimMode::Normal;
                act(&mut r, mode_action("NORMAL"));
            } else {
                string_pop(&mut self.search_query);
            }
            return r;
        }
        if let Key::Named(n) = key {
            if *n != NamedKey::Space {
                return r;
            }
        }
        if let Some(t) = text {
            push_printable(&mut self.search_query, t);
        }
        r
    }

    fn handle_command(&mut self, key: &Key, text: Option<&str>) -> (r: Vec<EditorAction>)
        requires
            old(self)@.command_history.wf(),
        ensures
            (final(self)@, action_views(r@)) == command_view(old(self)@, *key, text_view(text)),
    {
        let mut r = no_actions();
        if key.is_named(NamedKey::Escape) {
            string_clear(&mut self.command_line);
            self.mode = VimMode::Normal;
            self.command_history.reset();
            act(&mut r, mode_action("NORMAL"));
            return r;
        }
        if key.is_named(NamedKey::Enter) {
            let cmd = self.command_line.clone();
            string_clear(&mut self.command_line);
            self.mode = VimMode::Normal;
            act(&mut r, mode_action("NORMAL"));
            let ghost r0 = r@;
            let mut ex = Self::resolve_ex_command(cmd.as_str());
            let ghost ex0 = ex@;
            r.append(&mut ex);
            self.command_history.push(cmd);
            proof {
                assert(action_views(r0 + ex0) =~= action_views(r0) + action_views(ex0));
                assert(action_views(r@) =~= command_view(old(self)@, *key, text_view(text)).1);
            }
            return r;
        }
        if key.is_named(NamedKey::ArrowUp) {
            self.command_history.up(&mut self.command_line);
            return r;
        }
        if key.is_named(NamedKey::ArrowDown) {
            self.command_history.down(&mut self.command_line);
            return r;
        }
        if key.is_named(NamedKey::Backspace) {
            if self.command_line.as_str().unicode_len() == 0 {
                self.mode = VimMode::Normal;
                act(&mut r, mode_action("NORMAL"));
            } else {
                string_pop(&mut self.command_line);
            }
            return r;
        }
        if let Key::Named(n) = key {
            if *n != NamedKey::Space {
                return r;
            }
        }
        if let Some(t) = text {
            push_printable(&mut self.command_line, t);
        }
        r
    }

    /// The actions of an ex command line: `:w`, `:q`, `:e path`, and the rest.
    pub fn resolve_ex_command(cmd: &str) -> (r: Vec<EditorAction>)
        ensures
            action_views(r@) == ex_command_view(cmd@),
    {
        let v = crate::strs::chars_of(cmd);
        let (a, b) = crate::strs::trim_bounds(&v, 0, v.len());
        proof {
            assert(v@.subrange(0, v@.len() as int) =~= v@);
        }
        let t = crate::strs::string_of_chars(&v, a, b);
        let ghost tv = t@;
        let mut r = no_actions();
        if str_is(&t, "w") {
            act(&mut r, EditorAction::Save);
        } else if str_is(&t, "q") || str_is(&t, "close") {
            act(&mut r, EditorAction::CloseWindow);
        } else if str_is(&t, "q!") {
            act(&mut r, EditorAction::Quit { force: true });
        } else if str_is(&t, "qa!") {
            act(&mut r, EditorAction::ForceQuitApp);
        } else if str_is(&t, "wq") {
            act(&mut r, EditorAction::WriteQuit);
        } else if str_is(&t, "bn") || str_is(&t, "bnext") {
            act(&mut r, EditorAction::NextBuffer);
        } else if str_is(&t, "bp") || str_is(&t, "bprev") || str_is(&t, "bprevious") {
            act(&mut r, EditorAction::PrevBuffer);
        } else if str_is(&t, "bd") || str_is(&t, "bdelete") {
            act(&mut r, EditorAction::CloseBuffer);
        } else if str_is(&t, "buffers") || str_is(&t, "ls") {
            act(&mut r, EditorAction::OpenBufferPicker);
        } else if str_is(&t, "diagnostics") {
            act(&mut r, EditorAction::OpenDiagnosticsPicker);
        } else if str_is(&t, "vs") || str_is(&t, "vsplit") {
            act(&mut r, EditorAction::VSplit);
        } else if str_is(&t, "sp") || str_is(&t, "split") {
            act(&mut r, EditorAction::HSplit);
        } else {
            let n = b - a;
            let e = n >= 2 && v[a] == 'e' && v[a + 1] == ' ';
            let edit = n >= 5 && v[a] == 'e' && v[a + 1] == 'd' && v[a + 2] == 'i' && v[a + 3] == 't' && v[a + 4] == ' ';
            if e || edit {
                let skip: usize = if e { 2 } else { 5 };
                let (pa, pb) = crate::strs::trim_bounds(&v, a + skip, b);
                proof {
                    assert(tv.skip(skip as int) =~= v@.subrange(a + skip, b as int));
                }
                if pa == pb {
                    act(&mut r, EditorAction::SetStatusMessage(str_to_string("Usage: :e <path>")));
                } else {
                    act(&mut r, EditorAction::OpenFile(crate::strs::string_of_chars(&v, pa, pb)));
                }
            } else {
                let mut msg = str_to_string("Unknown command: ");
                crate::strs::string_push_str(&mut msg, t.as_str());
                act(&mut r, EditorAction::SetStatusMessage(msg));
            }
        }
        proof {
            assert(action_views(r@) =~= ex_command_view(cmd@));
        }
        r
    }

    /// Handles one key: `key` as pressed, `modified_key` as the modifiers
    /// made it, the text it typed, and the keymaps to read it with. Returns
    /// the actions the editor is to perform.
    #[verifier::rlimit(40)]
    pub fn handle_key(
        &mut self,
        key: &Key,
        modified_key: &Key,
        modifiers: &KeyModifiers,
        text: Option<&str>,
        global_keymap: &Keymap,
        mode_keymap: &Keymap,
        buffer: &Buffer,
        cursor: usize,
    ) -> (r: Vec<EditorAction>)
        requires
            buffer.wf(),
            input_ok(old(self)@, buffer@, cursor as int),
        ensures
            (final(self)@, action_views(r@)) == key_view(
                old(self)@,
                *key,
                *modified_key,
                *modifiers,
                text_view(text),
                *global_keymap,
                *mode_keymap,
                buffer@,
                cursor as int,
            ),
    {
        if key.is_bare_modifier() {
            return no_actions();
        }
        if self.pending_global_keys.len() > 0 {
            let press = match KeyPress::from_key(modified_key, modifiers) {
                Some(k) => Some(k),
                None => KeyPress::from_key(key, modifiers),
            };
            match press {
                Some(kp) => {
                    self.pending_global_keys.push(kp);
                    match global_keymap.lookup(self.pending_global_keys.as_slice()) {
                        KeymapLookup::Match(cmd) => {
                            self.pending_global_keys.clear();
                            let count = count_or_one(self.count_accum);
                            self.count_accum = None;
                            return crate::vim::commands::resolve(cmd, count, self, buffer, cursor);
                        },
                        KeymapLookup::Pending => {
                            return no_actions();
                        },
                        KeymapLookup::NoMatch => {
                            self.pending_global_keys.clear();
                        },
                    }
                },
                None => {
                    self.pending_global_keys.clear();
                },
            }
        } else if modifiers.control || modifiers.command || modifiers.alt {
            if let Some(kp) = KeyPress::from_key(modified_key, modifiers) {
                let one = single_press(kp);
                match global_keymap.lookup(one.as_slice()) {
                    KeymapLookup::Match(cmd) => {
                        let count = count_or_one(self.count_accum);
                        self.count_accum = None;
                        return crate::vim::commands::resolve(cmd, count, self, buffer, cursor);
                    },
                    KeymapLookup::Pending => {
                        assert(self.pending_global_keys@ =~= Seq::<KeyPress>::empty());
                        self.pending_global_keys.push(kp);
                        return no_actions();
                    },
                    KeymapLookup::NoMatch => {},
                }
            }
        }
        assert(self.pending_global_keys@ =~= Seq::<KeyPress>::empty());
        match self.mode {
            VimMode::Normal => self.handle_normal(modified_key, mode_keymap, buffer, cursor),
            VimMode::Visual | VimMode::VisualLine => self.handle_visual(modified_key, mode_keymap, buffer, cursor),
            VimMode::Insert => self.handle_insert(key, modifiers, mode_keymap, buffer, cursor, text),
            VimMode::Command => self.handle_command(key, text),
            VimMode::Search => self.handle_search(key, text),
        }
    }
}

} // verus!
