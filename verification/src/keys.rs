//! Key events, key combinations and what they are bound to.

use vstd::prelude::*;

use crokey::Combiner;
use crossterm::event::{
    KeyCode as TerminalKey, KeyEvent as TerminalEvent, KeyEventKind as TerminalKind, KeyModifiers,
};

use crate::command::{Command, WindowMode};
use crate::entries::{Entries, Key};

verus! {

/// The bit of the shift key in a set of modifiers.
pub const SHIFT: u8 = 1;

/// A key. Media and modifier keys are numbered.
#[derive(Clone, Copy, PartialEq, Eq, Structural, Debug)]
pub enum KeyCode {
    Backspace,
    Enter,
    Left,
    Right,
    Up,
    Down,
    Home,
    End,
    PageUp,
    PageDown,
    Tab,
    BackTab,
    Delete,
    Insert,
    F(u8),
    Char(char),
    Null,
    Esc,
    CapsLock,
    ScrollLock,
    NumLock,
    PrintScreen,
    Pause,
    Menu,
    KeypadBegin,
    Media(u8),
    Modifier(u8),
}

#[derive(Clone, Copy, PartialEq, Eq, Structural, Debug)]
pub enum KeyEventKind {
    Press,
    Repeat,
    Release,
}

/// A key that went down or up, with the modifiers that were down, one bit each.
#[derive(Clone, Copy, PartialEq, Eq, Structural, Debug)]
pub struct KeyEvent {
    pub code: KeyCode,
    pub modifiers: u8,
    pub kind: KeyEventKind,
}

/// One to three keys that are pressed together, with modifiers.
#[derive(Clone, Copy, PartialEq, Eq, Structural, Debug)]
pub struct KeyCombination {
    pub first: KeyCode,
    pub second: Option<KeyCode>,
    pub third: Option<KeyCode>,
    pub modifiers: u8,
}

/// What becomes of a character key, or of another key, that is pressed with `modifiers`: the
/// character, if it is one still, and the modifiers. A line break is the enter key, and a letter of
/// the alphabet is upper case if and only if the shift key is down.
pub open spec fn normalized(character: Option<char>, modifiers: u8) -> (Option<char>, u8) {
    let shift = modifiers & SHIFT == SHIFT;
    match character {
        Some(c) if c == '\r' || c == '\n' => (None, modifiers),
        Some(c) if shift && 'a' <= c <= 'z' => (Some((c as u8 - 32) as char), modifiers),
        Some(c) if !shift && 'A' <= c <= 'Z' => (Some(c), modifiers | SHIFT),
        _ => (character, modifiers),
    }
}

/// `crokey::Combiner::transform` on a new combiner, which does not combine keys. It tells a
/// combination of one key for a press, and none for a repetition or a release. Of the keys only
/// characters are changed, so that the null key stands for all the others here.
#[verifier::external_body]
fn transform(character: Option<char>, modifiers: u8, kind: KeyEventKind) -> (r: Option<
    (Option<char>, u8),
>)
    ensures
        kind == KeyEventKind::Press ==> r == Some(normalized(character, modifiers)),
        kind != KeyEventKind::Press ==> r is None,
{
    let code = character.map_or(TerminalKey::Null, TerminalKey::Char);
    let kind = match kind {
        KeyEventKind::Press => TerminalKind::Press,
        KeyEventKind::Repeat => TerminalKind::Repeat,
        KeyEventKind::Release => TerminalKind::Release,
    };
    let modifiers = KeyModifiers::from_bits_retain(modifiers);
    let keys = Combiner::default().transform(TerminalEvent::new_with_kind(code, modifiers, kind))?;
    let character = match keys.codes.first() {
        TerminalKey::Char(c) => Some(*c),
        _ => None,
    };
    Some((character, keys.modifiers.bits()))
}

/// The combination that an event stands for on a terminal that reports single keys. Only a press
/// stands for one.
pub open spec fn combination(event: KeyEvent) -> Option<KeyCombination> {
    let character = match event.code {
        KeyCode::Char(c) => Some(c),
        _ => None,
    };
    let (becomes, modifiers) = normalized(character, event.modifiers);
    if event.kind == KeyEventKind::Press {
        Some(
            KeyCombination {
                first: match (character, becomes) {
                    (_, Some(c)) => KeyCode::Char(c),
                    (Some(_), None) => KeyCode::Enter,
                    (None, None) => event.code,
                },
                second: None,
                third: None,
                modifiers,
            },
        )
    } else {
        None
    }
}

impl KeyEvent {
    /// The combination that the event stands for.
    pub fn combine(&self) -> (r: Option<KeyCombination>)
        ensures
            r == combination(*self),
    {
        let character = match self.code {
            KeyCode::Char(c) => Some(c),
            _ => None,
        };
        match transform(character, self.modifiers, self.kind) {
            Some((becomes, modifiers)) => {
                let first = match (character, becomes) {
                    (_, Some(c)) => KeyCode::Char(c),
                    (Some(_), None) => KeyCode::Enter,
                    (None, None) => self.code,
                };
                Some(KeyCombination { first, second: None, third: None, modifiers })
            },
            None => None,
        }
    }
}

impl Key for (WindowMode, KeyCombination) {
    fn same(&self, other: &(WindowMode, KeyCombination)) -> (r: bool) {
        self.0 == other.0 && self.1 == other.1
    }
}

/// The commands that the key combinations are bound to in each mode, one at most.
#[derive(Debug)]
pub struct KeyBindings {
    entries: Entries<(WindowMode, KeyCombination), Command>,
}

impl View for KeyBindings {
    type V = Map<(WindowMode, KeyCombination), Command>;

    closed spec fn view(&self) -> Map<(WindowMode, KeyCombination), Command> {
        self.entries@
    }
}

impl KeyBindings {
    /// No key is bound.
    pub fn new() -> (r: KeyBindings)
        ensures
            r@ == Map::<(WindowMode, KeyCombination), Command>::empty(),
    {
        KeyBindings { entries: Entries::new() }
    }

    /// The command that `keys` is bound to in `mode`.
    pub fn get(&self, mode: WindowMode, keys: KeyCombination) -> (r: Option<&Command>)
        ensures
            r is Some <==> self@.contains_key((mode, keys)),
            r matches Some(command) ==> *command == self@[(mode, keys)],
    {
        self.entries.get((mode, keys))
    }

    /// Binds `keys` in `mode` to `command`, in place of what it was bound to.
    pub fn bind(&mut self, mode: WindowMode, keys: KeyCombination, command: Command)
        ensures
            final(self)@ == old(self)@.insert((mode, keys), command),
    {
        self.entries.insert((mode, keys), command);
    }
}

} // verus!
