//! Commands, key presses, and the keymaps that bind key sequences to
//! commands.
use vstd::prelude::*;
use crate::action::Motion;
use crate::keys::{Key, KeyModifiers, NamedKey};
use crate::vim::mode::VimMode;

verus! {

/// What a key sequence can be bound to.
#[derive(Debug, Clone, Copy, PartialEq, Eq, Hash, Structural)]
pub enum Command {
    CursorMoveLeft,
    CursorMoveRight,
    CursorMoveUp,
    CursorMoveDown,
    CursorMoveWordForward,
    CursorMoveWordBackward,
    CursorMoveWordEnd,
    CursorMoveLineStart,
    CursorMoveLineEnd,
    CursorMoveFirstNonWhitespace,
    CursorMoveToStart,
    CursorMoveToEnd,
    ScrollHalfDown,
    ScrollHalfUp,
    EditDeleteTillEol,
    EditDeleteCharForward,
    EditDeleteLine,
    EditUndo,
    EditRedo,
    EditPasteAfter,
    EditPasteBefore,
    EditReplaceChar,
    InsertBackspace,
    InsertDelete,
    InsertNewline,
    InsertTab,
    OpDelete,
    OpChange,
    OpYank,
    VimEnterInsertMode,
    VimEnterInsertAfter,
    VimEnterInsertLineEnd,
    VimEnterInsertLineStart,
    VimOpenBelow,
    VimOpenAbove,
    VimExitInsertMode,
    VimEnterCommandMode,
    VimEnterVisualMode,
    VimEnterVisualLine,
    VimExitVisualMode,
    VimClearSearch,
    VimEnterSearchMode,
    MotionFindCharForward,
    MotionFindCharBackward,
    MotionFindCharForwardBefore,
    MotionFindCharBackwardBefore,
    MotionRepeatFindChar,
    MotionRepeatFindCharReverse,
    SearchNext,
    SearchPrev,
    BufferSave,
    BufferQuit,
    BufferForceQuit,
    BufferWriteQuit,
    WindowVsplit,
    WindowHsplit,
    WindowClose,
    WindowFocusLeft,
    WindowFocusRight,
    WindowFocusUp,
    WindowFocusDown,
    SystemCopy,
    SystemCut,
    SystemPaste,
    VisualDelete,
    VisualYank,
    VisualChange,
    PickerBuffers,
    PickerProjectFiles,
    PickerProjectFilesShowIgnored,
    LspGotoDefinition,
    LspGotoReferences,
    LspGotoImplementation,
    LspGotoDeclaration,
    JumpBackward,
    JumpForward,
    PickerDiagnostics,
    LspHover,
    DiagnosticHover,
}

impl Command {
    /// The operators: delete, change, yank.
    pub open spec fn is_operator_spec(self) -> bool {
        match self {
            Command::OpDelete | Command::OpChange | Command::OpYank => true,
            _ => false,
        }
    }

    /// The cursor motion a command stands for, and whether an operator
    /// applied over it includes the char it ends on.
    pub open spec fn as_motion_spec(self) -> Option<(Motion, bool)> {
        match self {
            Command::CursorMoveLeft => Some((Motion::Left, false)),
            Command::CursorMoveRight => Some((Motion::Right, false)),
            Command::CursorMoveUp => Some((Motion::Up, false)),
            Command::CursorMoveDown => Some((Motion::Down, false)),
            Command::CursorMoveWordForward => Some((Motion::WordForward, false)),
            Command::CursorMoveWordBackward => Some((Motion::WordBackward, false)),
            Command::CursorMoveWordEnd => Some((Motion::WordEnd, true)),
            Command::CursorMoveLineStart => Some((Motion::LineStart, false)),
            Command::CursorMoveLineEnd => Some((Motion::LineEnd, true)),
            Command::CursorMoveFirstNonWhitespace => Some((Motion::FirstNonWhitespace, false)),
            Command::CursorMoveToStart => Some((Motion::FileStart, false)),
            Command::CursorMoveToEnd => Some((Motion::FileEnd, false)),
            _ => None,
        }
    }

    /// The (forward, stop_before) pair of a find-char command.
    pub open spec fn find_char_params_spec(self) -> Option<(bool, bool)> {
        match self {
            Command::MotionFindCharForward => Some((true, false)),
            Command::MotionFindCharBackward => Some((false, false)),
            Command::MotionFindCharForwardBefore => Some((true, true)),
            Command::MotionFindCharBackwardBefore => Some((false, true)),
            _ => None,
        }
    }

    /// Whether the command is an operator (delete, change, yank).
    pub fn is_operator(self) -> (r: bool)
        ensures
            r == self.is_operator_spec(),
    {
        match self {
            Command::OpDelete | Command::OpChange | Command::OpYank => true,
            _ => false,
        }
    }

    /// The motion of a cursor-motion command and whether it is inclusive.
    pub fn as_motion(self) -> (r: Option<(Motion, bool)>)
        ensures
            r == self.as_motion_spec(),
    {
        match self {
            Command::CursorMoveLeft => Some((Motion::Left, false)),
            Command::CursorMoveRight => Some((Motion::Right, false)),
            Command::CursorMoveUp => Some((Motion::Up, false)),
            Command::CursorMoveDown => Some((Motion::Down, false)),
            Command::CursorMoveWordForward => Some((Motion::WordForward, false)),
            Command::CursorMoveWordBackward => Some((Motion::WordBackward, false)),
            Command::CursorMoveWordEnd => Some((Motion::WordEnd, true)),
            Command::CursorMoveLineStart => Some((Motion::LineStart, false)),
            Command::CursorMoveLineEnd => Some((Motion::LineEnd, true)),
            Command::CursorMoveFirstNonWhitespace => Some((Motion::FirstNonWhitespace, false)),
            Command::CursorMoveToStart => Some((Motion::FileStart, false)),
            Command::CursorMoveToEnd => Some((Motion::FileEnd, false)),
            _ => None,
        }
    }

    /// The (forward, stop_before) pair of a find-char command.
    pub fn find_char_params(self) -> (r: Option<(bool, bool)>)
        ensures
            r == self.find_char_params_spec(),
    {
        match self {
            Command::MotionFindCharForward => Some((true, false)),
            Command::MotionFindCharBackward => Some((false, false)),
            Command::MotionFindCharForwardBefore => Some((true, true)),
            Command::MotionFindCharBackwardBefore => Some((false, true)),
            _ => None,
        }
    }
}

/// A key as keymaps see it: a single char, or a named key.
#[derive(Debug, Clone, Copy, PartialEq, Eq, Hash, Structural)]
pub enum KeyId {
    Char(char),
    Named(NamedKey),
}

/// A key with the modifiers that keymaps tell apart.
#[derive(Debug, Clone, Copy, PartialEq, Eq, Hash, Structural)]
pub struct KeyPress {
    pub key: KeyId,
    pub ctrl: bool,
    pub alt: bool,
    pub cmd: bool,
}

/// The unmodified press of char `c`.
pub open spec fn key_char(c: char) -> KeyPress {
    KeyPress { key: KeyId::Char(c), ctrl: false, alt: false, cmd: false }
}

/// The unmodified press of named key `n`.
pub open spec fn key_named(n: NamedKey) -> KeyPress {
    KeyPress { key: KeyId::Named(n), ctrl: false, alt: false, cmd: false }
}

/// `k` with control held.
pub open spec fn with_ctrl(k: KeyPress) -> KeyPress {
    KeyPress { ctrl: true, ..k }
}

/// `k` with the command modifier held.
pub open spec fn with_cmd(k: KeyPress) -> KeyPress {
    KeyPress { cmd: true, ..k }
}

/// `k` with alt held.
pub open spec fn with_alt(k: KeyPress) -> KeyPress {
    KeyPress { alt: true, ..k }
}

/// The key press of `key` with `modifiers`: a character key counts only
/// when its text is one char; unidentified keys do not count.
pub open spec fn key_press_of(key: Key, modifiers: KeyModifiers) -> Option<KeyPress> {
    let id = match key {
        Key::Character(s) => if s@.len() == 1 { Some(KeyId::Char(s@[0])) } else { None },
        Key::Named(n) => Some(KeyId::Named(n)),
        Key::Unidentified => None,
    };
    match id {
        Some(k) => Some(KeyPress { key: k, ctrl: modifiers.control, alt: modifiers.alt, cmd: modifiers.command }),
        None => None,
    }
}

/// The leader key: space.
pub open spec fn leader_spec() -> KeyPress {
    key_named(NamedKey::Space)
}

/// The leader key: space.
pub fn leader_key() -> (k: KeyPress)
    ensures
        k == leader_spec(),
{
    KeyPress::named(NamedKey::Space)
}

impl KeyPress {
    /// The unmodified press of char `c`.
    pub fn char(c: char) -> (k: Self)
        ensures
            k == key_char(c),
    {
        KeyPress { key: KeyId::Char(c), ctrl: false, alt: false, cmd: false }
    }

    /// The unmodified press of named key `n`.
    pub fn named(n: NamedKey) -> (k: Self)
        ensures
            k == key_named(n),
    {
        KeyPress { key: KeyId::Named(n), ctrl: false, alt: false, cmd: false }
    }

    /// This press with control held.
    pub fn ctrl(self) -> (k: Self)
        ensures
            k == with_ctrl(self),
    {
        KeyPress { ctrl: true, ..self }
    }

    /// This press with the command modifier held.
    pub fn cmd(self) -> (k: Self)
        ensures
            k == with_cmd(self),
    {
        KeyPress { cmd: true, ..self }
    }

    /// This press with alt held.
    pub fn alt(self) -> (k: Self)
        ensures
            k == with_alt(self),
    {
        KeyPress { alt: true, ..self }
    }

    /// The key press of `key` with `modifiers`, if it is one keymaps can bind.
    pub fn from_key(key: &Key, modifiers: &KeyModifiers) -> (r: Option<Self>)
        ensures
            r == key_press_of(*key, *modifiers),
    {
        let id = match key {
            Key::Character(s) => {
                let n = crate::strs::str_char_count(s.as_str());
                if n == 1 {
                    Some(KeyId::Char(crate::strs::str_first_char(s.as_str())))
                } else {
                    None
                }
            },
            Key::Named(n) => Some(KeyId::Named(*n)),
            Key::Unidentified => None,
        };
        match id {
            Some(k) => Some(KeyPress { key: k, ctrl: modifiers.control, alt: modifiers.alt, cmd: modifiers.command }),
            None => None,
        }
    }
}

/// What a keymap makes of a key sequence.
#[derive(Debug, Clone, Copy, PartialEq, Eq, Structural)]
pub enum KeymapLookup {
    Match(Command),
    Pending,
    NoMatch,
}

/// The map from key sequences to commands that a list of bindings makes,
/// later bindings replacing earlier ones.
pub open spec fn entries_map(s: Seq<(Vec<KeyPress>, Command)>) -> Map<Seq<KeyPress>, Command>
    decreases s.len(),
{
    if s.len() == 0 {
        Map::empty()
    } else {
        entries_map(s.drop_last()).insert(s.last().0@, s.last().1)
    }
}

/// The proper, non-empty prefixes of `keys`.
pub open spec fn proper_prefixes(keys: Seq<KeyPress>) -> Set<Seq<KeyPress>> {
    Set::new(|k: Seq<KeyPress>| exists|n: int| 1 <= n < keys.len() && k == keys.take(n))
}

/// The binding of the last entry of `s` whose keys are `k` is the one the
/// map holds; with no such entry the map has no binding for `k`.
proof fn lemma_entries_map_last(s: Seq<(Vec<KeyPress>, Command)>, i: int, k: Seq<KeyPress>)
    requires
        0 <= i < s.len(),
        s[i].0@ == k,
        forall|j: int| i < j < s.len() ==> s[j].0@ != k,
    ensures
        entries_map(s).contains_key(k),
        entries_map(s)[k] == s[i].1,
    decreases s.len(),
{
    if i < s.len() - 1 {
        lemma_entries_map_last(s.drop_last(), i, k);
    }
}

proof fn lemma_entries_map_none(s: Seq<(Vec<KeyPress>, Command)>, k: Seq<KeyPress>)
    requires
        forall|j: int| 0 <= j < s.len() ==> s[j].0@ != k,
    ensures
        !entries_map(s).contains_key(k),
    decreases s.len(),
{
    if s.len() > 0 {
        lemma_entries_map_none(s.drop_last(), k);
    }
}

/// Key sequences bound to commands, with the prefixes of those sequences
/// remembered so that a partial sequence can wait for more keys.
#[derive(Debug, Clone)]
pub struct Keymap {
    bindings: Vec<(Vec<KeyPress>, Command)>,
    prefixes: Vec<Vec<KeyPress>>,
}

/// Whether `a` and `b` hold the same presses.
fn keys_equal(a: &[KeyPress], b: &[KeyPress]) -> (r: bool)
    ensures
        r == (a@ == b@),
{
    if a.len() != b.len() {
        return false;
    }
    let mut i: usize = 0;
    while i < a.len()
        invariant
            a@.len() == b@.len(),
            i <= a@.len(),
            forall|j: int| 0 <= j < i ==> a@[j] == b@[j],
        decreases a@.len() - i,
    {
        if a[i] != b[i] {
            return false;
        }
        i = i + 1;
    }
    assert(a@ =~= b@);
    true
}

/// The first `n` presses of `keys`.
fn take_keys(keys: &[KeyPress], n: usize) -> (r: Vec<KeyPress>)
    requires
        n <= keys@.len(),
    ensures
        r@ == keys@.take(n as int),
{
    let mut r: Vec<KeyPress> = Vec::new();
    let mut i: usize = 0;
    while i < n
        invariant
            i <= n <= keys@.len(),
            r@ == keys@.take(i as int),
        decreases n - i,
    {
        r.push(keys[i]);
        proof {
            assert(keys@.take(i as int).push(keys@[i as int]) =~= keys@.take(i as int + 1));
        }
        i = i + 1;
    }
    r
}

impl Keymap {
    /// The command each bound sequence maps to.
    pub closed spec fn binding_map(&self) -> Map<Seq<KeyPress>, Command> {
        entries_map(self.bindings@)
    }

    /// The sequences that are proper prefixes of a bound sequence.
    pub closed spec fn prefix_set(&self) -> Set<Seq<KeyPress>> {
        Set::new(|k: Seq<KeyPress>| exists|i: int| 0 <= i < self.prefixes@.len() && #[trigger] self.prefixes@[i]@ == k)
    }

    /// What `keys` means to this keymap.
    pub open spec fn lookup_spec(&self, keys: Seq<KeyPress>) -> KeymapLookup {
        if self.binding_map().contains_key(keys) {
            KeymapLookup::Match(self.binding_map()[keys])
        } else if self.prefix_set().contains(keys) {
            KeymapLookup::Pending
        } else {
            KeymapLookup::NoMatch
        }
    }

    /// A keymap with no bindings.
    pub fn new() -> (k: Self)
        ensures
            k.binding_map() == Map::<Seq<KeyPress>, Command>::empty(),
            k.prefix_set() == Set::<Seq<KeyPress>>::empty(),
    {
        let k = Keymap { bindings: Vec::new(), prefixes: Vec::new() };
        assert(k.prefix_set() =~= Set::<Seq<KeyPress>>::empty());
        k
    }

    /// Binds `keys` to `command`, replacing an earlier binding of `keys`.
    pub fn bind(&mut self, keys: Vec<KeyPress>, command: Command)
        ensures
            final(self).binding_map() == old(self).binding_map().insert(keys@, command),
            final(self).prefix_set() == old(self).prefix_set().union(proper_prefixes(keys@)),
    {
        let ghost old_prefixes = self.prefixes@;
        let mut len: usize = 1;
        while len < keys.len()
            invariant
                1 <= len,
                len <= keys@.len() || len == 1,
                self.bindings@ == old(self).bindings@,
                old_prefixes == old(self).prefixes@,
                self.prefixes@.len() == old_prefixes.len() + len - 1,
                forall|i: int| 0 <= i < old_prefixes.len() ==> #[trigger] self.prefixes@[i] == old_prefixes[i],
                forall|i: int|
                    old_prefixes.len() <= i < self.prefixes@.len() ==> #[trigger] self.prefixes@[i]@
                        == keys@.take(i - old_prefixes.len() + 1),
            decreases keys@.len() - len,
        {
            let p = take_keys(keys.as_slice(), len);
            self.prefixes.push(p);
            len = len + 1;
        }
        proof {
            let ps = old(self).prefix_set().union(proper_prefixes(keys@));
            assert forall|k: Seq<KeyPress>| self.prefix_set().contains(k) <==> ps.contains(k) by {
                if self.prefix_set().contains(k) {
                    let i = choose|i: int| 0 <= i < self.prefixes@.len() && #[trigger] self.prefixes@[i]@ == k;
                    if i >= old_prefixes.len() {
                        let n = i - old_prefixes.len() + 1;
                        assert(1 <= n < keys@.len() && k == keys@.take(n));
                    } else {
                        assert(old(self).prefixes@[i]@ == k);
                    }
                }
                if old(self).prefix_set().contains(k) {
                    let i = choose|i: int| 0 <= i < old(self).prefixes@.len() && #[trigger] old(self).prefixes@[i]@ == k;
                    assert(self.prefixes@[i]@ == k);
                }
                if proper_prefixes(keys@).contains(k) {
                    let n = choose|n: int| 1 <= n < keys@.len() && k == keys@.take(n);
                    let i = old_prefixes.len() + n - 1;
                    assert(self.prefixes@[i]@ == k);
                }
            }
            assert(self.prefix_set() =~= ps);
        }
        self.bindings.push((keys, command));
        proof {
            assert(self.bindings@.drop_last() =~= old(self).bindings@);
        }
    }

    /// What `keys` means to this keymap: the command bound to them, a
    /// prefix of a longer binding, or nothing.
    pub fn lookup(&self, keys: &[KeyPress]) -> (r: KeymapLookup)
        ensures
            r == self.lookup_spec(keys@),
    {
        let mut i = self.bindings.len();
        while i > 0
            invariant
                i <= self.bindings@.len(),
                forall|j: int| i <= j < self.bindings@.len() ==> (#[trigger] self.bindings@[j]).0@ != keys@,
            decreases i,
        {
            i = i - 1;
            if keys_equal(self.bindings[i].0.as_slice(), keys) {
                proof {
                    lemma_entries_map_last(self.bindings@, i as int, keys@);
                }
                return KeymapLookup::Match(self.bindings[i].1);
            }
        }
        proof {
            lemma_entries_map_none(self.bindings@, keys@);
        }
        let mut j: usize = 0;
        while j < self.prefixes.len()
            invariant
                j <= self.prefixes@.len(),
                !self.binding_map().contains_key(keys@),
                forall|m: int| 0 <= m < j ==> (#[trigger] self.prefixes@[m])@ != keys@,
            decreases self.prefixes@.len() - j,
        {
            if keys_equal(self.prefixes[j].as_slice(), keys) {
                assert(self.prefix_set().contains(keys@));
                return KeymapLookup::Pending;
            }
            j = j + 1;
        }
        KeymapLookup::NoMatch
    }
}

} // verus!

verus! {

/// The modes a built-in binding applies in.
#[derive(Debug, Clone, Copy, PartialEq, Eq, Structural)]
pub enum BindingScope {
    /// Normal, visual and insert mode (the arrow keys).
    Motion,
    /// Normal and visual mode.
    NormalAndVisual,
    NormalOnly,
    VisualOnly,
    InsertOnly,
    /// The keymap that is tried first in every mode (control and command chords).
    Global,
}

/// A built-in binding as a value: keys, command, scope.
pub type BindingSpec = (Seq<KeyPress>, Command, BindingScope);

/// One key.
pub open spec fn ks1(a: KeyPress) -> Seq<KeyPress> {
    Seq::empty().push(a)
}

/// Two keys.
pub open spec fn ks2(a: KeyPress, b: KeyPress) -> Seq<KeyPress> {
    Seq::empty().push(a).push(b)
}

/// Three keys.
pub open spec fn ks3(a: KeyPress, b: KeyPress, c: KeyPress) -> Seq<KeyPress> {
    Seq::empty().push(a).push(b).push(c)
}

/// The global bindings, in the order they are made, after those of `s`.
pub open spec fn global_bindings(s: Seq<BindingSpec>) -> Seq<BindingSpec> {
    s
        .push((ks1(with_ctrl(key_char('r'))), Command::EditRedo, BindingScope::Global))
        .push((ks1(with_ctrl(key_char('d'))), Command::ScrollHalfDown, BindingScope::Global))
        .push((ks1(with_ctrl(key_char('u'))), Command::ScrollHalfUp, BindingScope::Global))
        .push((ks1(with_cmd(key_char('s'))), Command::BufferSave, BindingScope::Global))
        .push((ks2(with_ctrl(key_char('w')), key_char('v')), Command::WindowVsplit, BindingScope::Global))
        .push((ks2(with_ctrl(key_char('w')), key_char('s')), Command::WindowHsplit, BindingScope::Global))
        .push((ks2(with_ctrl(key_char('w')), key_char('c')), Command::WindowClose, BindingScope::Global))
        .push((ks2(with_ctrl(key_char('w')), key_char('h')), Command::WindowFocusLeft, BindingScope::Global))
        .push((ks2(with_ctrl(key_char('w')), key_char('j')), Command::WindowFocusDown, BindingScope::Global))
        .push((ks2(with_ctrl(key_char('w')), key_char('k')), Command::WindowFocusUp, BindingScope::Global))
        .push((ks2(with_ctrl(key_char('w')), key_char('l')), Command::WindowFocusRight, BindingScope::Global))
        .push((ks1(with_ctrl(key_char('o'))), Command::JumpBackward, BindingScope::Global))
        .push((ks1(with_ctrl(key_char('i'))), Command::JumpForward, BindingScope::Global))
        .push((ks1(with_cmd(key_char('c'))), Command::SystemCopy, BindingScope::Global))
        .push((ks1(with_cmd(key_char('x'))), Command::SystemCut, BindingScope::Global))
        .push((ks1(with_cmd(key_char('v'))), Command::SystemPaste, BindingScope::Global))
        .push((ks1(with_cmd(key_char('w'))), Command::WindowClose, BindingScope::Global))
}

/// The motion bindings, in the order they are made, after those of `s`.
pub open spec fn motion_bindings(s: Seq<BindingSpec>) -> Seq<BindingSpec> {
    s
        .push((ks1(key_named(NamedKey::ArrowLeft)), Command::CursorMoveLeft, BindingScope::Motion))
        .push((ks1(key_named(NamedKey::ArrowRight)), Command::CursorMoveRight, BindingScope::Motion))
        .push((ks1(key_named(NamedKey::ArrowUp)), Command::CursorMoveUp, BindingScope::Motion))
        .push((ks1(key_named(NamedKey::ArrowDown)), Command::CursorMoveDown, BindingScope::Motion))
}

/// The shared bindings, in the order they are made, after those of `s`.
pub open spec fn shared_bindings(s: Seq<BindingSpec>) -> Seq<BindingSpec> {
    s
        .push((ks1(key_char('h')), Command::CursorMoveLeft, BindingScope::NormalAndVisual))
        .push((ks1(key_char('j')), Command::CursorMoveDown, BindingScope::NormalAndVisual))
        .push((ks1(key_char('k')), Command::CursorMoveUp, BindingScope::NormalAndVisual))
        .push((ks1(key_char('l')), Command::CursorMoveRight, BindingScope::NormalAndVisual))
        .push((ks1(key_char('w')), Command::CursorMoveWordForward, BindingScope::NormalAndVisual))
        .push((ks1(key_char('b')), Command::CursorMoveWordBackward, BindingScope::NormalAndVisual))
        .push((ks1(key_char('0')), Command::CursorMoveLineStart, BindingScope::NormalAndVisual))
        .push((ks1(key_char('$')), Command::CursorMoveLineEnd, BindingScope::NormalAndVisual))
        .push((ks1(key_char('e')), Command::CursorMoveWordEnd, BindingScope::NormalAndVisual))
        .push((ks1(key_char('^')), Command::CursorMoveFirstNonWhitespace, BindingScope::NormalAndVisual))
        .push((ks1(key_char('G')), Command::CursorMoveToEnd, BindingScope::NormalAndVisual))
        .push((ks2(key_char('g'), key_char('g')), Command::CursorMoveToStart, BindingScope::NormalAndVisual))
        .push((ks1(key_char('f')), Command::MotionFindCharForward, BindingScope::NormalAndVisual))
        .push((ks1(key_char('F')), Command::MotionFindCharBackward, BindingScope::NormalAndVisual))
        .push((ks1(key_char('t')), Command::MotionFindCharForwardBefore, BindingScope::NormalAndVisual))
        .push((ks1(key_char('T')), Command::MotionFindCharBackwardBefore, BindingScope::NormalAndVisual))
        .push((ks1(key_char(';')), Command::MotionRepeatFindChar, BindingScope::NormalAndVisual))
        .push((ks1(key_char(',')), Command::MotionRepeatFindCharReverse, BindingScope::NormalAndVisual))
}

/// The normal bindings, in the order they are made, after those of `s`.
pub open spec fn normal_bindings(s: Seq<BindingSpec>) -> Seq<BindingSpec> {
    s
        .push((ks2(key_char('g'), key_char('d')), Command::LspGotoDefinition, BindingScope::NormalOnly))
        .push((ks2(key_char('g'), key_char('r')), Command::LspGotoReferences, BindingScope::NormalOnly))
        .push((ks2(key_char('g'), key_char('i')), Command::LspGotoImplementation, BindingScope::NormalOnly))
        .push((ks2(key_char('g'), key_char('D')), Command::LspGotoDeclaration, BindingScope::NormalOnly))
        .push((ks3(leader_spec(), key_char('b'), key_char('b')), Command::PickerBuffers, BindingScope::NormalOnly))
        .push((ks3(leader_spec(), key_char('p'), key_char('f')), Command::PickerProjectFiles, BindingScope::NormalOnly))
        .push((ks3(leader_spec(), key_char('p'), key_char('g')), Command::PickerProjectFilesShowIgnored, BindingScope::NormalOnly))
        .push((ks3(leader_spec(), key_char('x'), key_char('x')), Command::PickerDiagnostics, BindingScope::NormalOnly))
        .push((ks1(key_char('D')), Command::EditDeleteTillEol, BindingScope::NormalOnly))
        .push((ks1(key_char('x')), Command::EditDeleteCharForward, BindingScope::NormalOnly))
        .push((ks1(key_char('u')), Command::EditUndo, BindingScope::NormalOnly))
        .push((ks1(key_char('d')), Command::OpDelete, BindingScope::NormalOnly))
        .push((ks1(key_char('c')), Command::OpChange, BindingScope::NormalOnly))
        .push((ks1(key_char('y')), Command::OpYank, BindingScope::NormalOnly))
        .push((ks1(key_char('p')), Command::EditPasteAfter, BindingScope::NormalOnly))
        .push((ks1(key_char('P')), Command::EditPasteBefore, BindingScope::NormalOnly))
        .push((ks1(key_char('i')), Command::VimEnterInsertMode, BindingScope::NormalOnly))
        .push((ks1(key_char('a')), Command::VimEnterInsertAfter, BindingScope::NormalOnly))
        .push((ks1(key_char('A')), Command::VimEnterInsertLineEnd, BindingScope::NormalOnly))
        .push((ks1(key_char('I')), Command::VimEnterInsertLineStart, BindingScope::NormalOnly))
        .push((ks1(key_char('o')), Command::VimOpenBelow, BindingScope::NormalOnly))
        .push((ks1(key_char('O')), Command::VimOpenAbove, BindingScope::NormalOnly))
        .push((ks1(key_char('v')), Command::VimEnterVisualMode, BindingScope::NormalOnly))
        .push((ks1(key_char('V')), Command::VimEnterVisualLine, BindingScope::NormalOnly))
        .push((ks1(key_char(':')), Command::VimEnterCommandMode, BindingScope::NormalOnly))
        .push((ks1(key_named(NamedKey::Escape)), Command::VimClearSearch, BindingScope::NormalOnly))
        .push((ks1(key_char('/')), Command::VimEnterSearchMode, BindingScope::NormalOnly))
        .push((ks1(key_char('n')), Command::SearchNext, BindingScope::NormalOnly))
        .push((ks1(key_char('N')), Command::SearchPrev, BindingScope::NormalOnly))
        .push((ks1(key_char('r')), Command::EditReplaceChar, BindingScope::NormalOnly))
        .push((ks1(key_char('K')), Command::LspHover, BindingScope::NormalOnly))
        .push((ks2(key_char('g'), key_char('t')), Command::DiagnosticHover, BindingScope::NormalOnly))
}

/// The visual bindings, in the order they are made, after those of `s`.
pub open spec fn visual_bindings(s: Seq<BindingSpec>) -> Seq<BindingSpec> {
    s
        .push((ks1(key_char('d')), Command::VisualDelete, BindingScope::VisualOnly))
        .push((ks1(key_char('x')), Command::VisualDelete, BindingScope::VisualOnly))
        .push((ks1(key_char('y')), Command::VisualYank, BindingScope::VisualOnly))
        .push((ks1(key_char('c')), Command::VisualChange, BindingScope::VisualOnly))
        .push((ks1(key_named(NamedKey::Escape)), Command::VimExitVisualMode, BindingScope::VisualOnly))
        .push((ks1(key_char('v')), Command::VimExitVisualMode, BindingScope::VisualOnly))
        .push((ks1(key_char('V')), Command::VimEnterVisualLine, BindingScope::VisualOnly))
}

/// The insert bindings, in the order they are made, after those of `s`.
pub open spec fn insert_bindings(s: Seq<BindingSpec>) -> Seq<BindingSpec> {
    s
        .push((ks1(key_named(NamedKey::Escape)), Command::VimExitInsertMode, BindingScope::InsertOnly))
        .push((ks1(key_named(NamedKey::Backspace)), Command::InsertBackspace, BindingScope::InsertOnly))
        .push((ks1(key_named(NamedKey::Delete)), Command::InsertDelete, BindingScope::InsertOnly))
        .push((ks1(key_named(NamedKey::Enter)), Command::InsertNewline, BindingScope::InsertOnly))
        .push((ks1(key_named(NamedKey::Tab)), Command::InsertTab, BindingScope::InsertOnly))
        .push((ks1(with_alt(key_named(NamedKey::ArrowLeft))), Command::CursorMoveWordBackward, BindingScope::InsertOnly))
        .push((ks1(with_alt(key_named(NamedKey::ArrowRight))), Command::CursorMoveWordForward, BindingScope::InsertOnly))
}
/// Every built-in binding, in the order they are made.
pub open spec fn binding_table() -> Seq<BindingSpec> {
    insert_bindings(visual_bindings(normal_bindings(shared_bindings(motion_bindings(global_bindings(Seq::empty()))))))
}

/// The scopes whose bindings go to the global keymap.
pub open spec fn global_scopes() -> spec_fn(BindingScope) -> bool {
    |sc: BindingScope| sc == BindingScope::Global
}

/// The scopes whose bindings go to the normal-mode keymap.
pub open spec fn normal_scopes() -> spec_fn(BindingScope) -> bool {
    |sc: BindingScope| sc == BindingScope::Motion || sc == BindingScope::NormalAndVisual || sc == BindingScope::NormalOnly
}

/// The scopes whose bindings go to the visual-mode keymap.
pub open spec fn visual_scopes() -> spec_fn(BindingScope) -> bool {
    |sc: BindingScope| sc == BindingScope::Motion || sc == BindingScope::NormalAndVisual || sc == BindingScope::VisualOnly
}

/// The scopes whose bindings go to the insert-mode keymap.
pub open spec fn insert_scopes() -> spec_fn(BindingScope) -> bool {
    |sc: BindingScope| sc == BindingScope::Motion || sc == BindingScope::InsertOnly
}

/// The bindings of `s` whose scope `p` admits, later ones replacing earlier.
pub open spec fn scoped_map(s: Seq<BindingSpec>, p: spec_fn(BindingScope) -> bool) -> Map<Seq<KeyPress>, Command>
    decreases s.len(),
{
    if s.len() == 0 {
        Map::empty()
    } else {
        let m = scoped_map(s.drop_last(), p);
        if p(s.last().2) {
            m.insert(s.last().0, s.last().1)
        } else {
            m
        }
    }
}

/// The proper prefixes of the bindings of `s` whose scope `p` admits.
pub open spec fn scoped_prefixes(s: Seq<BindingSpec>, p: spec_fn(BindingScope) -> bool) -> Set<Seq<KeyPress>>
    decreases s.len(),
{
    if s.len() == 0 {
        Set::empty()
    } else {
        let q = scoped_prefixes(s.drop_last(), p);
        if p(s.last().2) {
            q.union(proper_prefixes(s.last().0))
        } else {
            q
        }
    }
}

/// A built-in binding.
struct AnnotatedBinding {
    keys: Vec<KeyPress>,
    command: Command,
    scope: BindingScope,
}

/// The bindings as values.
spec fn binding_views(s: Seq<AnnotatedBinding>) -> Seq<BindingSpec> {
    s.map_values(|b: AnnotatedBinding| (b.keys@, b.command, b.scope))
}

fn keys1(a: KeyPress) -> (r: Vec<KeyPress>)
    ensures
        r@ == ks1(a),
{
    let mut r = Vec::new();
    r.push(a);
    r
}

fn keys2(a: KeyPress, b: KeyPress) -> (r: Vec<KeyPress>)
    ensures
        r@ == ks2(a, b),
{
    let mut r = Vec::new();
    r.push(a);
    r.push(b);
    r
}

fn keys3(a: KeyPress, b: KeyPress, c: KeyPress) -> (r: Vec<KeyPress>)
    ensures
        r@ == ks3(a, b, c),
{
    let mut r = Vec::new();
    r.push(a);
    r.push(b);
    r.push(c);
    r
}

fn add_binding(v: &mut Vec<AnnotatedBinding>, keys: Vec<KeyPress>, command: Command, scope: BindingScope)
    ensures
        binding_views(final(v)@) == binding_views(old(v)@).push((keys@, command, scope)),
{
    let ghost k = keys@;
    v.push(AnnotatedBinding { keys, command, scope });
    assert(binding_views(v@) =~= binding_views(old(v)@).push((k, command, scope)));
}

fn add_global_bindings(v: &mut Vec<AnnotatedBinding>)
    ensures
        binding_views(final(v)@) == global_bindings(binding_views(old(v)@)),
{
    add_binding(v, keys1(KeyPress::char('r').ctrl()), Command::EditRedo, BindingScope::Global);
    add_binding(v, keys1(KeyPress::char('d').ctrl()), Command::ScrollHalfDown, BindingScope::Global);
    add_binding(v, keys1(KeyPress::char('u').ctrl()), Command::ScrollHalfUp, BindingScope::Global);
    add_binding(v, keys1(KeyPress::char('s').cmd()), Command::BufferSave, BindingScope::Global);
    add_binding(v, keys2(KeyPress::char('w').ctrl(), KeyPress::char('v')), Command::WindowVsplit, BindingScope::Global);
    add_binding(v, keys2(KeyPress::char('w').ctrl(), KeyPress::char('s')), Command::WindowHsplit, BindingScope::Global);
    add_binding(v, keys2(KeyPress::char('w').ctrl(), KeyPress::char('c')), Command::WindowClose, BindingScope::Global);
    add_binding(v, keys2(KeyPress::char('w').ctrl(), KeyPress::char('h')), Command::WindowFocusLeft, BindingScope::Global);
    add_binding(v, keys2(KeyPress::char('w').ctrl(), KeyPress::char('j')), Command::WindowFocusDown, BindingScope::Global);
    add_binding(v, keys2(KeyPress::char('w').ctrl(), KeyPress::char('k')), Command::WindowFocusUp, BindingScope::Global);
    add_binding(v, keys2(KeyPress::char('w').ctrl(), KeyPress::char('l')), Command::WindowFocusRight, BindingScope::Global);
    add_binding(v, keys1(KeyPress::char('o').ctrl()), Command::JumpBackward, BindingScope::Global);
    add_binding(v, keys1(KeyPress::char('i').ctrl()), Command::JumpForward, BindingScope::Global);
    add_binding(v, keys1(KeyPress::char('c').cmd()), Command::SystemCopy, BindingScope::Global);
    add_binding(v, keys1(KeyPress::char('x').cmd()), Command::SystemCut, BindingScope::Global);
    add_binding(v, keys1(KeyPress::char('v').cmd()), Command::SystemPaste, BindingScope::Global);
    add_binding(v, keys1(KeyPress::char('w').cmd()), Command::WindowClose, BindingScope::Global);
}

fn add_motion_bindings(v: &mut Vec<AnnotatedBinding>)
    ensures
        binding_views(final(v)@) == motion_bindings(binding_views(old(v)@)),
{
    add_binding(v, keys1(KeyPress::named(NamedKey::ArrowLeft)), Command::CursorMoveLeft, BindingScope::Motion);
    add_binding(v, keys1(KeyPress::named(NamedKey::ArrowRight)), Command::CursorMoveRight, BindingScope::Motion);
    add_binding(v, keys1(KeyPress::named(NamedKey::ArrowUp)), Command::CursorMoveUp, BindingScope::Motion);
    add_binding(v, keys1(KeyPress::named(NamedKey::ArrowDown)), Command::CursorMoveDown, BindingScope::Motion);
}

fn add_shared_bindings(v: &mut Vec<AnnotatedBinding>)
    ensures
        binding_views(final(v)@) == shared_bindings(binding_views(old(v)@)),
{
    add_binding(v, keys1(KeyPress::char('h')), Command::CursorMoveLeft, BindingScope::NormalAndVisual);
    add_binding(v, keys1(KeyPress::char('j')), Command::CursorMoveDown, BindingScope::NormalAndVisual);
    add_binding(v, keys1(KeyPress::char('k')), Command::CursorMoveUp, BindingScope::NormalAndVisual);
    add_binding(v, keys1(KeyPress::char('l')), Command::CursorMoveRight, BindingScope::NormalAndVisual);
    add_binding(v, keys1(KeyPress::char('w')), Command::CursorMoveWordForward, BindingScope::NormalAndVisual);
    add_binding(v, keys1(KeyPress::char('b')), Command::CursorMoveWordBackward, BindingScope::NormalAndVisual);
    add_binding(v, keys1(KeyPress::char('0')), Command::CursorMoveLineStart, BindingScope::NormalAndVisual);
    add_binding(v, keys1(KeyPress::char('$')), Command::CursorMoveLineEnd, BindingScope::NormalAndVisual);
    add_binding(v, keys1(KeyPress::char('e')), Command::CursorMoveWordEnd, BindingScope::NormalAndVisual);
    add_binding(v, keys1(KeyPress::char('^')), Command::CursorMoveFirstNonWhitespace, BindingScope::NormalAndVisual);
    add_binding(v, keys1(KeyPress::char('G')), Command::CursorMoveToEnd, BindingScope::NormalAndVisual);
    add_binding(v, keys2(KeyPress::char('g'), KeyPress::char('g')), Command::CursorMoveToStart, BindingScope::NormalAndVisual);
    add_binding(v, keys1(KeyPress::char('f')), Command::MotionFindCharForward, BindingScope::NormalAndVisual);
    add_binding(v, keys1(KeyPress::char('F')), Command::MotionFindCharBackward, BindingScope::NormalAndVisual);
    add_binding(v, keys1(KeyPress::char('t')), Command::MotionFindCharForwardBefore, BindingScope::NormalAndVisual);
    add_binding(v, keys1(KeyPress::char('T')), Command::MotionFindCharBackwardBefore, BindingScope::NormalAndVisual);
    add_binding(v, keys1(KeyPress::char(';')), Command::MotionRepeatFindChar, BindingScope::NormalAndVisual);
    add_binding(v, keys1(KeyPress::char(',')), Command::MotionRepeatFindCharReverse, BindingScope::NormalAndVisual);
}

fn add_normal_bindings(v: &mut Vec<AnnotatedBinding>)
    ensures
        binding_views(final(v)@) == normal_bindings(binding_views(old(v)@)),
{
    add_binding(v, keys2(KeyPress::char('g'), KeyPress::char('d')), Command::LspGotoDefinition, BindingScope::NormalOnly);
    add_binding(v, keys2(KeyPress::char('g'), KeyPress::char('r')), Command::LspGotoReferences, BindingScope::NormalOnly);
    add_binding(v, keys2(KeyPress::char('g'), KeyPress::char('i')), Command::LspGotoImplementation, BindingScope::NormalOnly);
    add_binding(v, keys2(KeyPress::char('g'), KeyPress::char('D')), Command::LspGotoDeclaration, BindingScope::NormalOnly);
    add_binding(v, keys3(leader_key(), KeyPress::char('b'), KeyPress::char('b')), Command::PickerBuffers, BindingScope::NormalOnly);
    add_binding(v, keys3(leader_key(), KeyPress::char('p'), KeyPress::char('f')), Command::PickerProjectFiles, BindingScope::NormalOnly);
    add_binding(v, keys3(leader_key(), KeyPress::char('p'), KeyPress::char('g')), Command::PickerProjectFilesShowIgnored, BindingScope::NormalOnly);
    add_binding(v, keys3(leader_key(), KeyPress::char('x'), KeyPress::char('x')), Command::PickerDiagnostics, BindingScope::NormalOnly);
    add_binding(v, keys1(KeyPress::char('D')), Command::EditDeleteTillEol, BindingScope::NormalOnly);
    add_binding(v, keys1(KeyPress::char('x')), Command::EditDeleteCharForward, BindingScope::NormalOnly);
    add_binding(v, keys1(KeyPress::char('u')), Command::EditUndo, BindingScope::NormalOnly);
    add_binding(v, keys1(KeyPress::char('d')), Command::OpDelete, BindingScope::NormalOnly);
    add_binding(v, keys1(KeyPress::char('c')), Command::OpChange, BindingScope::NormalOnly);
    add_binding(v, keys1(KeyPress::char('y')), Command::OpYank, BindingScope::NormalOnly);
    add_binding(v, keys1(KeyPress::char('p')), Command::EditPasteAfter, BindingScope::NormalOnly);
    add_binding(v, keys1(KeyPress::char('P')), Command::EditPasteBefore, BindingScope::NormalOnly);
    add_binding(v, keys1(KeyPress::char('i')), Command::VimEnterInsertMode, BindingScope::NormalOnly);
    add_binding(v, keys1(KeyPress::char('a')), Command::VimEnterInsertAfter, BindingScope::NormalOnly);
    add_binding(v, keys1(KeyPress::char('A')), Command::VimEnterInsertLineEnd, BindingScope::NormalOnly);
    add_binding(v, keys1(KeyPress::char('I')), Command::VimEnterInsertLineStart, BindingScope::NormalOnly);
    add_binding(v, keys1(KeyPress::char('o')), Command::VimOpenBelow, BindingScope::NormalOnly);
    add_binding(v, keys1(KeyPress::char('O')), Command::VimOpenAbove, BindingScope::NormalOnly);
    add_binding(v, keys1(KeyPress::char('v')), Command::VimEnterVisualMode, BindingScope::NormalOnly);
    add_binding(v, keys1(KeyPress::char('V')), Command::VimEnterVisualLine, BindingScope::NormalOnly);
    add_binding(v, keys1(KeyPress::char(':')), Command::VimEnterCommandMode, BindingScope::NormalOnly);
    add_binding(v, keys1(KeyPress::named(NamedKey::Escape)), Command::VimClearSearch, BindingScope::NormalOnly);
    add_binding(v, keys1(KeyPress::char('/')), Command::VimEnterSearchMode, BindingScope::NormalOnly);
    add_binding(v, keys1(KeyPress::char('n')), Command::SearchNext, BindingScope::NormalOnly);
    add_binding(v, keys1(KeyPress::char('N')), Command::SearchPrev, BindingScope::NormalOnly);
    add_binding(v, keys1(KeyPress::char('r')), Command::EditReplaceChar, BindingScope::NormalOnly);
    add_binding(v, keys1(KeyPress::char('K')), Command::LspHover, BindingScope::NormalOnly);
    add_binding(v, keys2(KeyPress::char('g'), KeyPress::char('t')), Command::DiagnosticHover, BindingScope::NormalOnly);
}

fn add_visual_bindings(v: &mut Vec<AnnotatedBinding>)
    ensures
        binding_views(final(v)@) == visual_bindings(binding_views(old(v)@)),
{
    add_binding(v, keys1(KeyPress::char('d')), Command::VisualDelete, BindingScope::VisualOnly);
    add_binding(v, keys1(KeyPress::char('x')), Command::VisualDelete, BindingScope::VisualOnly);
    add_binding(v, keys1(KeyPress::char('y')), Command::VisualYank, BindingScope::VisualOnly);
    add_binding(v, keys1(KeyPress::char('c')), Command::VisualChange, BindingScope::VisualOnly);
    add_binding(v, keys1(KeyPress::named(NamedKey::Escape)), Command::VimExitVisualMode, BindingScope::VisualOnly);
    add_binding(v, keys1(KeyPress::char('v')), Command::VimExitVisualMode, BindingScope::VisualOnly);
    add_binding(v, keys1(KeyPress::char('V')), Command::VimEnterVisualLine, BindingScope::VisualOnly);
}

fn add_insert_bindings(v: &mut Vec<AnnotatedBinding>)
    ensures
        binding_views(final(v)@) == insert_bindings(binding_views(old(v)@)),
{
    add_binding(v, keys1(KeyPress::named(NamedKey::Escape)), Command::VimExitInsertMode, BindingScope::InsertOnly);
    add_binding(v, keys1(KeyPress::named(NamedKey::Backspace)), Command::InsertBackspace, BindingScope::InsertOnly);
    add_binding(v, keys1(KeyPress::named(NamedKey::Delete)), Command::InsertDelete, BindingScope::InsertOnly);
    add_binding(v, keys1(KeyPress::named(NamedKey::Enter)), Command::InsertNewline, BindingScope::InsertOnly);
    add_binding(v, keys1(KeyPress::named(NamedKey::Tab)), Command::InsertTab, BindingScope::InsertOnly);
    add_binding(v, keys1(KeyPress::named(NamedKey::ArrowLeft).alt()), Command::CursorMoveWordBackward, BindingScope::InsertOnly);
    add_binding(v, keys1(KeyPress::named(NamedKey::ArrowRight).alt()), Command::CursorMoveWordForward, BindingScope::InsertOnly);
}
/// Every built-in binding, in the order they are made.
fn all_bindings() -> (r: Vec<AnnotatedBinding>)
    ensures
        binding_views(r@) == binding_table(),
{
    let mut v: Vec<AnnotatedBinding> = Vec::new();
    assert(binding_views(v@) =~= Seq::<BindingSpec>::empty());
    add_global_bindings(&mut v);
    add_motion_bindings(&mut v);
    add_shared_bindings(&mut v);
    add_normal_bindings(&mut v);
    add_visual_bindings(&mut v);
    add_insert_bindings(&mut v);
    v
}

/// A copy of `keys`.
fn copy_keys(keys: &Vec<KeyPress>) -> (r: Vec<KeyPress>)
    ensures
        r@ == keys@,
{
    take_keys(keys.as_slice(), keys.len())
}

/// The four keymaps: the global one and one per mode.
pub struct Keymaps {
    global: Keymap,
    normal: Keymap,
    insert: Keymap,
    visual: Keymap,
}

/// The keymap built from the bindings of the table whose scope `p` admits.
pub open spec fn built_from_table(k: Keymap, p: spec_fn(BindingScope) -> bool) -> bool {
    &&& k.binding_map() == scoped_map(binding_table(), p)
    &&& k.prefix_set() == scoped_prefixes(binding_table(), p)
}

impl Keymaps {
    /// The global keymap.
    pub closed spec fn global_keymap(&self) -> Keymap {
        self.global
    }

    /// The keymap of `mode`: command and search mode read keys through the
    /// insert-mode keymap.
    pub closed spec fn mode_keymap(&self, mode: VimMode) -> Keymap {
        match mode {
            VimMode::Normal => self.normal,
            VimMode::Insert | VimMode::Command | VimMode::Search => self.insert,
            VimMode::Visual | VimMode::VisualLine => self.visual,
        }
    }

    /// The built-in keymaps.
    pub fn new() -> (r: Self)
        ensures
            built_from_table(r.global_keymap(), global_scopes()),
            built_from_table(r.mode_keymap(VimMode::Normal), normal_scopes()),
            built_from_table(r.mode_keymap(VimMode::Insert), insert_scopes()),
            built_from_table(r.mode_keymap(VimMode::Visual), visual_scopes()),
    {
        let bindings = all_bindings();
        let mut global = Keymap::new();
        let mut normal = Keymap::new();
        let mut insert = Keymap::new();
        let mut visual = Keymap::new();
        let ghost t = binding_table();
        let mut i: usize = 0;
        while i < bindings.len()
            invariant
                i <= bindings@.len(),
                binding_views(bindings@) == t,
                t == binding_table(),
                global.binding_map() == scoped_map(t.take(i as int), global_scopes()),
                global.prefix_set() == scoped_prefixes(t.take(i as int), global_scopes()),
                normal.binding_map() == scoped_map(t.take(i as int), normal_scopes()),
                normal.prefix_set() == scoped_prefixes(t.take(i as int), normal_scopes()),
                insert.binding_map() == scoped_map(t.take(i as int), insert_scopes()),
                insert.prefix_set() == scoped_prefixes(t.take(i as int), insert_scopes()),
                visual.binding_map() == scoped_map(t.take(i as int), visual_scopes()),
                visual.prefix_set() == scoped_prefixes(t.take(i as int), visual_scopes()),
            decreases bindings@.len() - i,
        {
            let b = &bindings[i];
            proof {
                assert(t.take(i as int + 1).drop_last() =~= t.take(i as int));
                assert(t.take(i as int + 1).last() == t[i as int]);
                assert(t[i as int] == (b.keys@, b.command, b.scope));
            }
            match b.scope {
                BindingScope::Global => {
                    global.bind(copy_keys(&b.keys), b.command);
                },
                BindingScope::Motion => {
                    normal.bind(copy_keys(&b.keys), b.command);
                    visual.bind(copy_keys(&b.keys), b.command);
                    insert.bind(copy_keys(&b.keys), b.command);
                },
                BindingScope::NormalAndVisual => {
                    normal.bind(copy_keys(&b.keys), b.command);
                    visual.bind(copy_keys(&b.keys), b.command);
                },
                BindingScope::NormalOnly => {
                    normal.bind(copy_keys(&b.keys), b.command);
                },
                BindingScope::VisualOnly => {
                    visual.bind(copy_keys(&b.keys), b.command);
                },
                BindingScope::InsertOnly => {
                    insert.bind(copy_keys(&b.keys), b.command);
                },
            }
            i = i + 1;
        }
        proof {
            assert(t.take(t.len() as int) =~= t);
        }
        Keymaps { global, normal, insert, visual }
    }

    /// The global keymap, tried before the mode's own.
    pub fn global(&self) -> (r: &Keymap)
        ensures
            *r == self.global_keymap(),
    {
        &self.global
    }

    /// The keymap that reads keys in `mode`.
    pub fn for_mode(&self, mode: VimMode) -> (r: &Keymap)
        ensures
            *r == self.mode_keymap(mode),
    {
        match mode {
            VimMode::Normal => &self.normal,
            VimMode::Insert => &self.insert,
            VimMode::Visual | VimMode::VisualLine => &self.visual,
            VimMode::Command | VimMode::Search => &self.insert,
        }
    }
}

} // verus!
