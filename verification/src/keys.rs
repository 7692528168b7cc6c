use vstd::prelude::*;

use crate::panel::{Arrow, Discard, Motion};
use crate::text::chars_of;

verus! {

/// The named keys the shortcuts read; every other named key is `Other`.
#[derive(Debug, Clone, Copy, PartialEq, Eq, Structural)]
pub enum Named {
    Escape,
    Enter,
    Backspace,
    Delete,
    Tab,
    Home,
    End,
    Space,
    ArrowLeft,
    ArrowRight,
    ArrowUp,
    ArrowDown,
    Other,
}

/// A key as the keyboard reports it: a named key, or the text a character key stands for.
#[derive(Debug, Clone)]
pub enum Key {
    Named(Named),
    Character(String),
    Unidentified,
}

/// The modifier keys held down: `command` is the platform's shortcut key.
#[derive(Debug, Clone, Copy, PartialEq, Eq, Structural)]
pub struct Modifiers {
    pub command: bool,
    pub shift: bool,
}

/// What the keyboard reports.
#[derive(Debug, Clone)]
pub enum KeyEvent {
    /// A key went down; `text` is what it types, `repeat` whether it is the keyboard's
    /// own repeat of a key held down.
    Pressed { key: Key, modifiers: Modifiers, text: Option<String>, repeat: bool },
    /// A key came up.
    Released { key: Key },
    /// Only the modifiers changed.
    ModifiersChanged(Modifiers),
}

/// What a key does inside a text box.
#[derive(Debug, Clone, Copy, PartialEq, Eq, Structural)]
pub enum TextAction {
    Insert(char),
    Enter,
    Backspace,
    Delete,
    Motion(Motion),
}

/// What a key asks the program to do.
#[derive(Debug, Clone, Copy, PartialEq, Eq, Structural)]
pub enum Command {
    NudgeStarted(Arrow),
    NudgeEnded(Arrow),
    Deselect,
    DeleteFloating,
    /// Makes the brush thinner (`-1`) or thicker (`1`) by one step.
    ThicknessNudged(i8),
    NewRequested,
    TabCloseRequested,
    CopyCanvas,
    /// Moves to the tab that many places on.
    TabStepped(i32),
    OpenRequested,
    SaveAsRequested,
    SaveRequested,
    Cut,
    Copy,
    Paste,
    SelectAll,
    Undo,
    Redo,
    ZoomIn,
    ZoomOut,
    ZoomFit,
    ZoomActual,
    DiscardAnswered(Discard),
    TextEdited(TextAction),
}

/// The one character a text is made of, if it is made of exactly one.
pub open spec fn single_char(s: Seq<char>) -> Option<char> {
    if s.len() == 1 {
        Some(s[0])
    } else {
        None
    }
}

/// Whether a character is a control code (Unicode general category Cc).
pub open spec fn control(c: char) -> bool {
    (c as u32) <= 0x1f || (0x7f <= (c as u32) && (c as u32) <= 0x9f)
}

/// The arrow an arrow key stands for.
pub open spec fn arrow_key(key: Key) -> Option<Arrow> {
    match key {
        Key::Named(Named::ArrowLeft) => Some(Arrow::Left),
        Key::Named(Named::ArrowRight) => Some(Arrow::Right),
        Key::Named(Named::ArrowUp) => Some(Arrow::Up),
        Key::Named(Named::ArrowDown) => Some(Arrow::Down),
        _ => None,
    }
}

/// The character a character key types, when it types exactly one.
pub open spec fn key_char(key: Key) -> Option<char> {
    match key {
        Key::Character(s) => single_char(s@),
        _ => None,
    }
}

/// What a key does with the shortcut key held, outside a text box.
pub open spec fn command_shortcut(key: Key, shift: bool) -> Option<Command> {
    match key {
        Key::Named(Named::Tab) => Some(Command::TabStepped(if shift { -1i32 } else { 1i32 })),
        Key::Named(Named::ArrowUp) => Some(Command::ZoomIn),
        Key::Named(Named::ArrowDown) => Some(Command::ZoomOut),
        _ => match key_char(key) {
            Some('n') => Some(Command::NewRequested),
            Some('w') | Some('q') => Some(Command::TabCloseRequested),
            Some('c') => Some(if shift { Command::CopyCanvas } else { Command::Copy }),
            Some('o') => Some(Command::OpenRequested),
            Some('s') => Some(if shift { Command::SaveAsRequested } else { Command::SaveRequested }),
            Some('x') => Some(Command::Cut),
            Some('v') => Some(Command::Paste),
            Some('a') => Some(Command::SelectAll),
            Some('z') => Some(if shift { Command::Redo } else { Command::Undo }),
            Some('y') => Some(Command::Redo),
            Some('+') | Some('=') => Some(Command::ZoomIn),
            Some('-') | Some('_') => Some(Command::ZoomOut),
            Some('0') => Some(Command::ZoomFit),
            Some('1') => Some(Command::ZoomActual),
            _ => None,
        },
    }
}

/// What a key does outside a text box: an arrow nudges what floats while it is held
/// (the keyboard's own repeat is ignored, since the nudge speeds up by itself), Escape
/// puts the selection down, Delete throws what floats away, the brackets change the brush
/// size, and with the shortcut key held the keys run the menu commands.
pub open spec fn shortcut_for(event: KeyEvent) -> Option<Command> {
    match event {
        KeyEvent::Released { key } => match arrow_key(key) {
            Some(a) => Some(Command::NudgeEnded(a)),
            None => None,
        },
        KeyEvent::Pressed { key, modifiers, repeat, .. } => {
            if key matches Key::Named(Named::Escape) {
                Some(Command::Deselect)
            } else if !modifiers.command {
                match arrow_key(key) {
                    Some(a) => if repeat { None } else { Some(Command::NudgeStarted(a)) },
                    None => match key {
                        Key::Named(Named::Delete) => Some(Command::DeleteFloating),
                        _ => match key_char(key) {
                            Some('[') => Some(Command::ThicknessNudged(-1i8)),
                            Some(']') => Some(Command::ThicknessNudged(1i8)),
                            _ => None,
                        },
                    },
                }
            } else {
                command_shortcut(key, modifiers.shift)
            }
        },
        KeyEvent::ModifiersChanged(_) => None,
    }
}

/// The caret movement an arrow key makes in a text box, extending the selection with
/// Shift held.
pub open spec fn caret_motion(a: Arrow, shift: bool) -> Motion {
    match a {
        Arrow::Left => if shift { Motion::SelectLeft } else { Motion::Left },
        Arrow::Right => if shift { Motion::SelectRight } else { Motion::Right },
        Arrow::Up => if shift { Motion::SelectUp } else { Motion::Up },
        Arrow::Down => if shift { Motion::SelectDown } else { Motion::Down },
    }
}

/// What a key does while a text box is being typed into: the clipboard, undo and save
/// shortcuts still work, Escape puts the box down, the editing keys edit, and any other
/// key types the first character of its text unless that is a control code.
pub open spec fn typing_for(event: KeyEvent) -> Option<Command> {
    match event {
        KeyEvent::Pressed { key, modifiers, text, .. } => {
            let shift = modifiers.shift;
            if modifiers.command {
                match key_char(key) {
                    Some('a') => Some(Command::TextEdited(TextAction::Motion(Motion::SelectAll))),
                    Some('c') => Some(Command::Copy),
                    Some('x') => Some(Command::Cut),
                    Some('v') => Some(Command::Paste),
                    Some('z') => Some(if shift { Command::Redo } else { Command::Undo }),
                    Some('y') => Some(Command::Redo),
                    Some('s') => Some(if shift { Command::SaveAsRequested } else { Command::SaveRequested }),
                    _ => None,
                }
            } else {
                match key {
                    Key::Named(Named::Escape) => Some(Command::Deselect),
                    Key::Named(Named::Enter) => Some(Command::TextEdited(TextAction::Enter)),
                    Key::Named(Named::Backspace) => Some(Command::TextEdited(TextAction::Backspace)),
                    Key::Named(Named::Delete) => Some(Command::TextEdited(TextAction::Delete)),
                    Key::Named(Named::Home) => Some(Command::TextEdited(TextAction::Motion(Motion::Home))),
                    Key::Named(Named::End) => Some(Command::TextEdited(TextAction::Motion(Motion::End))),
                    Key::Named(Named::Space) => Some(Command::TextEdited(TextAction::Insert(' '))),
                    _ => match arrow_key(key) {
                        Some(a) => Some(Command::TextEdited(TextAction::Motion(caret_motion(a, shift)))),
                        None => match text {
                            Some(t) => if t@.len() > 0 && !control(t@[0]) {
                                Some(Command::TextEdited(TextAction::Insert(t@[0])))
                            } else {
                                None
                            },
                            None => None,
                        },
                    },
                }
            }
        },
        _ => None,
    }
}

/// What a key answers the question whether to save: Escape keeps the document open,
/// Enter saves it.
pub open spec fn answer_for(event: KeyEvent) -> Option<Command> {
    match event {
        KeyEvent::Pressed { key: Key::Named(Named::Escape), .. } => Some(Command::DiscardAnswered(Discard::Keep)),
        KeyEvent::Pressed { key: Key::Named(Named::Enter), .. } => Some(Command::DiscardAnswered(Discard::Save)),
        _ => None,
    }
}

/// Inside a text box the clipboard, undo and save shortcuts do what they do outside it,
/// and Escape still puts the box down.
pub proof fn lemma_text_box_keeps_the_common_shortcuts(event: KeyEvent)
    requires
        event matches KeyEvent::Pressed { key, modifiers, .. } && {
            ||| !modifiers.command && key matches Key::Named(Named::Escape)
            ||| modifiers.command && (key_char(key) matches Some(c)
                && (c == 'x' || c == 'v' || c == 'z' || c == 'y' || c == 's' || (c == 'c' && !modifiers.shift)))
        },
    ensures
        typing_for(event) == shortcut_for(event),
{
}

/// Whether a character is a control code.
pub fn is_control(c: char) -> (b: bool)
    ensures
        b == control(c),
{
    let n = c as u32;
    n <= 0x1f || (0x7f <= n && n <= 0x9f)
}

/// The one character of a text made of exactly one.
fn single(s: &String) -> (r: Option<char>)
    ensures
        r == single_char(s@),
{
    let v = chars_of(s.as_str());
    if v.len() == 1 {
        Some(v[0])
    } else {
        None
    }
}

/// The character a key types, when it types exactly one.
fn typed_char(key: &Key) -> (r: Option<char>)
    ensures
        r == key_char(*key),
{
    match key {
        Key::Character(s) => single(s),
        _ => None,
    }
}

/// The arrow an arrow key stands for.
pub fn arrow(key: &Key) -> (r: Option<Arrow>)
    ensures
        r == arrow_key(*key),
{
    match key {
        Key::Named(Named::ArrowLeft) => Some(Arrow::Left),
        Key::Named(Named::ArrowRight) => Some(Arrow::Right),
        Key::Named(Named::ArrowUp) => Some(Arrow::Up),
        Key::Named(Named::ArrowDown) => Some(Arrow::Down),
        _ => None,
    }
}

/// What a key does with the shortcut key held, outside a text box.
fn command_key(key: &Key, shift: bool) -> (r: Option<Command>)
    ensures
        r == command_shortcut(*key, shift),
{
    match key {
        Key::Named(Named::Tab) => return Some(Command::TabStepped(if shift { -1i32 } else { 1i32 })),
        Key::Named(Named::ArrowUp) => return Some(Command::ZoomIn),
        Key::Named(Named::ArrowDown) => return Some(Command::ZoomOut),
        _ => {},
    }
    match typed_char(key) {
        Some('n') => Some(Command::NewRequested),
        Some('w') | Some('q') => Some(Command::TabCloseRequested),
        Some('c') => Some(if shift { Command::CopyCanvas } else { Command::Copy }),
        Some('o') => Some(Command::OpenRequested),
        Some('s') => Some(if shift { Command::SaveAsRequested } else { Command::SaveRequested }),
        Some('x') => Some(Command::Cut),
        Some('v') => Some(Command::Paste),
        Some('a') => Some(Command::SelectAll),
        Some('z') => Some(if shift { Command::Redo } else { Command::Undo }),
        Some('y') => Some(Command::Redo),
        Some('+') | Some('=') => Some(Command::ZoomIn),
        Some('-') | Some('_') => Some(Command::ZoomOut),
        Some('0') => Some(Command::ZoomFit),
        Some('1') => Some(Command::ZoomActual),
        _ => None,
    }
}

/// What a key does outside a text box (see `shortcut_for`).
pub fn shortcut(event: &KeyEvent) -> (r: Option<Command>)
    ensures
        r == shortcut_for(*event),
{
    match event {
        KeyEvent::Released { key } => match arrow(key) {
            Some(a) => Some(Command::NudgeEnded(a)),
            None => None,
        },
        KeyEvent::Pressed { key, modifiers, repeat, .. } => {
            if let Key::Named(Named::Escape) = key {
                return Some(Command::Deselect);
            }
            if !modifiers.command {
                if let Some(a) = arrow(key) {
                    return if *repeat { None } else { Some(Command::NudgeStarted(a)) };
                }
                if let Key::Named(Named::Delete) = key {
                    return Some(Command::DeleteFloating);
                }
                return match typed_char(key) {
                    Some('[') => Some(Command::ThicknessNudged(-1i8)),
                    Some(']') => Some(Command::ThicknessNudged(1i8)),
                    _ => None,
                };
            }
            command_key(key, modifiers.shift)
        },
        KeyEvent::ModifiersChanged(_) => None,
    }
}

/// The caret movement an arrow key makes in a text box.
fn caret(a: Arrow, shift: bool) -> (m: Motion)
    ensures
        m == caret_motion(a, shift),
{
    match a {
        Arrow::Left => if shift { Motion::SelectLeft } else { Motion::Left },
        Arrow::Right => if shift { Motion::SelectRight } else { Motion::Right },
        Arrow::Up => if shift { Motion::SelectUp } else { Motion::Up },
        Arrow::Down => if shift { Motion::SelectDown } else { Motion::Down },
    }
}

/// The first character of a text, unless the text is empty or starts with a control code.
fn printable_first(t: &String) -> (r: Option<char>)
    ensures
        r == (if t@.len() > 0 && !control(t@[0]) { Some(t@[0]) } else { None }),
{
    let v = chars_of(t.as_str());
    if v.len() > 0 && !is_control(v[0]) {
        Some(v[0])
    } else {
        None
    }
}

/// What a key does while a text box is being typed into (see `typing_for`).
pub fn typing(event: &KeyEvent) -> (r: Option<Command>)
    ensures
        r == typing_for(*event),
{
    let KeyEvent::Pressed { key, modifiers, text, .. } = event else {
        return None;
    };
    let shift = modifiers.shift;
    if modifiers.command {
        return match typed_char(key) {
            Some('a') => Some(Command::TextEdited(TextAction::Motion(Motion::SelectAll))),
            Some('c') => Some(Command::Copy),
            Some('x') => Some(Command::Cut),
            Some('v') => Some(Command::Paste),
            Some('z') => Some(if shift { Command::Redo } else { Command::Undo }),
            Some('y') => Some(Command::Redo),
            Some('s') => Some(if shift { Command::SaveAsRequested } else { Command::SaveRequested }),
            _ => None,
        };
    }
    let edit = match key {
        Key::Named(Named::Escape) => return Some(Command::Deselect),
        Key::Named(Named::Enter) => TextAction::Enter,
        Key::Named(Named::Backspace) => TextAction::Backspace,
        Key::Named(Named::Delete) => TextAction::Delete,
        Key::Named(Named::Home) => TextAction::Motion(Motion::Home),
        Key::Named(Named::End) => TextAction::Motion(Motion::End),
        Key::Named(Named::Space) => TextAction::Insert(' '),
        _ => match arrow(key) {
            Some(a) => TextAction::Motion(caret(a, shift)),
            None => {
                let c = match text {
                    Some(t) => printable_first(t),
                    None => None,
                };
                match c {
                    Some(c) => TextAction::Insert(c),
                    None => return None,
                }
            },
        },
    };
    Some(Command::TextEdited(edit))
}

/// What a key answers the question whether to save (see `answer_for`).
pub fn answering(event: &KeyEvent) -> (r: Option<Command>)
    ensures
        r == answer_for(*event),
{
    match event {
        KeyEvent::Pressed { key: Key::Named(Named::Escape), .. } => Some(Command::DiscardAnswered(Discard::Keep)),
        KeyEvent::Pressed { key: Key::Named(Named::Enter), .. } => Some(Command::DiscardAnswered(Discard::Save)),
        _ => None,
    }
}


/// With the shortcut key held, outside a text box, each menu command's key runs that
/// command: N new, W and Q close the tab, O open, S save (Shift: save as), X cut, C copy
/// (Shift: copy the canvas), V paste, A select all, Z undo (Shift: redo), Y redo, + and =
/// zoom in, - and _ zoom out, 0 fit, 1 actual size, Tab the next tab (Shift: the one
/// before), and the up and down arrows zoom.
pub proof fn lemma_menu_shortcuts(key: Key, modifiers: Modifiers, text: Option<String>, repeat: bool)
    requires
        modifiers.command,
    ensures
        ({
            let r = shortcut_for(KeyEvent::Pressed { key, modifiers, text, repeat });
            let shift = modifiers.shift;
            let is = |c: char| key matches Key::Character(s) && s@ == seq![c];
            &&& is('n') ==> r == Some(Command::NewRequested)
            &&& (is('w') || is('q')) ==> r == Some(Command::TabCloseRequested)
            &&& is('o') ==> r == Some(Command::OpenRequested)
            &&& is('s') ==> r == Some(if shift { Command::SaveAsRequested } else { Command::SaveRequested })
            &&& is('x') ==> r == Some(Command::Cut)
            &&& is('c') ==> r == Some(if shift { Command::CopyCanvas } else { Command::Copy })
            &&& is('v') ==> r == Some(Command::Paste)
            &&& is('a') ==> r == Some(Command::SelectAll)
            &&& is('z') ==> r == Some(if shift { Command::Redo } else { Command::Undo })
            &&& is('y') ==> r == Some(Command::Redo)
            &&& (is('+') || is('=')) ==> r == Some(Command::ZoomIn)
            &&& (is('-') || is('_')) ==> r == Some(Command::ZoomOut)
            &&& is('0') ==> r == Some(Command::ZoomFit)
            &&& is('1') ==> r == Some(Command::ZoomActual)
            &&& key matches Key::Named(Named::Tab) ==> r == Some(Command::TabStepped(if shift { -1i32 } else { 1i32 }))
            &&& key matches Key::Named(Named::ArrowUp) ==> r == Some(Command::ZoomIn)
            &&& key matches Key::Named(Named::ArrowDown) ==> r == Some(Command::ZoomOut)
            &&& key matches Key::Named(Named::Escape) ==> r == Some(Command::Deselect)
        }),
{
}


/// In a text box, a key that types a character that is no control code, pressed without
/// the shortcut key, inserts that character (the first its text holds), whatever other
/// character key it is; the arrows move the caret, and with Shift they select.
pub proof fn lemma_typing_inserts_what_the_key_types(key: Key, modifiers: Modifiers, text: Option<String>, repeat: bool)
    requires
        !modifiers.command,
    ensures
        ({
            let r = typing_for(KeyEvent::Pressed { key, modifiers, text, repeat });
            let shift = modifiers.shift;
            &&& (key matches Key::Character(_) && text matches Some(t) && t@.len() > 0 && !control(t@[0]))
                ==> r == Some(Command::TextEdited(TextAction::Insert(text->0@[0])))
            &&& key matches Key::Named(Named::ArrowLeft)
                ==> r == Some(Command::TextEdited(TextAction::Motion(if shift { Motion::SelectLeft } else { Motion::Left })))
            &&& key matches Key::Named(Named::ArrowRight)
                ==> r == Some(Command::TextEdited(TextAction::Motion(if shift { Motion::SelectRight } else { Motion::Right })))
            &&& key matches Key::Named(Named::ArrowUp)
                ==> r == Some(Command::TextEdited(TextAction::Motion(if shift { Motion::SelectUp } else { Motion::Up })))
            &&& key matches Key::Named(Named::ArrowDown)
                ==> r == Some(Command::TextEdited(TextAction::Motion(if shift { Motion::SelectDown } else { Motion::Down })))
            &&& key matches Key::Named(Named::Backspace) ==> r == Some(Command::TextEdited(TextAction::Backspace))
            &&& key matches Key::Named(Named::Delete) ==> r == Some(Command::TextEdited(TextAction::Delete))
            &&& key matches Key::Named(Named::Enter) ==> r == Some(Command::TextEdited(TextAction::Enter))
            &&& key matches Key::Named(Named::Escape) ==> r == Some(Command::Deselect)
        }),
{
}

} // verus!
