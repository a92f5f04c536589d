//! Key events as the editor reads them: a named key, the text a key
//! produces, or a key nothing is known of, with the modifiers held.
use vstd::prelude::*;

verus! {

/// The named (non-text) keys that key handling tells apart; every other
/// named key is `Other`.
#[derive(Debug, Clone, Copy, PartialEq, Eq, Hash, Structural)]
pub enum NamedKey {
    Space,
    Escape,
    Enter,
    Tab,
    Backspace,
    Delete,
    ArrowLeft,
    ArrowRight,
    ArrowUp,
    ArrowDown,
    Shift,
    Control,
    Alt,
    Super,
    Meta,
    Other,
}

/// A key: a named key, the text of a character key, or an unidentified key.
#[derive(Debug, Clone, PartialEq, Eq)]
pub enum Key {
    Named(NamedKey),
    Character(String),
    Unidentified,
}

/// The modifiers held with a key. `command` is the platform's command
/// modifier (the logo key on macOS, control elsewhere).
#[derive(Debug, Clone, Copy, PartialEq, Eq, Default, Structural)]
pub struct KeyModifiers {
    pub control: bool,
    pub alt: bool,
    pub command: bool,
}

impl NamedKey {
    /// A modifier key pressed on its own.
    pub open spec fn is_modifier(self) -> bool {
        match self {
            NamedKey::Shift | NamedKey::Control | NamedKey::Alt | NamedKey::Super | NamedKey::Meta => true,
            _ => false,
        }
    }
}

impl Key {
    /// The text of a character key, empty for other keys.
    pub open spec fn text_spec(&self) -> Seq<char> {
        match self {
            Key::Character(s) => s@,
            _ => Seq::empty(),
        }
    }

    /// A modifier key pressed on its own.
    pub open spec fn is_bare_modifier_spec(&self) -> bool {
        match self {
            Key::Named(n) => n.is_modifier(),
            _ => false,
        }
    }

    /// Whether this is a modifier key pressed on its own.
    pub fn is_bare_modifier(&self) -> (r: bool)
        ensures
            r == self.is_bare_modifier_spec(),
    {
        match self {
            Key::Named(n) => match n {
                NamedKey::Shift | NamedKey::Control | NamedKey::Alt | NamedKey::Super | NamedKey::Meta => true,
                _ => false,
            },
            _ => false,
        }
    }

    /// The one char of a character key whose text is exactly one char.
    pub open spec fn single_char_spec(&self) -> Option<char> {
        match self {
            Key::Character(s) => if s@.len() == 1 { Some(s@[0]) } else { None },
            _ => None,
        }
    }

    /// The first char of a character key's text.
    pub open spec fn first_char_spec(&self) -> Option<char> {
        match self {
            Key::Character(s) => if s@.len() >= 1 { Some(s@[0]) } else { None },
            _ => None,
        }
    }
}

impl Key {
    /// The first char of a character key's text.
    pub fn first_char(&self) -> (r: Option<char>)
        ensures
            r == self.first_char_spec(),
    {
        match self {
            Key::Character(s) => {
                let n = crate::strs::str_char_count(s.as_str());
                if n >= 1 {
                    Some(crate::strs::str_first_char(s.as_str()))
                } else {
                    None
                }
            },
            _ => None,
        }
    }

    /// The one char of a character key whose text is exactly one char.
    pub fn single_char(&self) -> (r: Option<char>)
        ensures
            r == self.single_char_spec(),
    {
        match self {
            Key::Character(s) => {
                let n = crate::strs::str_char_count(s.as_str());
                if n == 1 {
                    Some(crate::strs::str_first_char(s.as_str()))
                } else {
                    None
                }
            },
            _ => None,
        }
    }

    /// Whether the key's text is exactly `c`.
    pub fn text_is_char(&self, c: char) -> (r: bool)
        ensures
            r == (self.text_spec() == seq![c]),
    {
        match self {
            Key::Character(s) => {
                let n = crate::strs::str_char_count(s.as_str());
                if n == 1 {
                    let d = crate::strs::str_first_char(s.as_str());
                    proof {
                        if d == c {
                            assert(s@ =~= seq![c]);
                        }
                    }
                    d == c
                } else {
                    proof {
                        assert(seq![c].len() == 1);
                    }
                    false
                }
            },
            _ => {
                proof {
                    assert(seq![c].len() == 1);
                }
                false
            },
        }
    }

    /// Whether this is the named key `n`.
    pub fn is_named(&self, n: NamedKey) -> (r: bool)
        ensures
            r == (*self == Key::Named(n)),
    {
        match self {
            Key::Named(m) => *m == n,
            _ => false,
        }
    }
}

} // verus!
