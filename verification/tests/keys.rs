use rustypaint::keys::{answering, is_control, shortcut, typing, Command, Key, KeyEvent, Modifiers, Named, TextAction};
use rustypaint::panel::{Arrow, Discard, Motion};

const NONE: Modifiers = Modifiers { command: false, shift: false };
const COMMAND: Modifiers = Modifiers { command: true, shift: false };
const COMMAND_SHIFT: Modifiers = Modifiers { command: true, shift: true };

fn character(c: &str) -> Key {
    Key::Character(c.to_string())
}

fn press(key: Key, modifiers: Modifiers, text: Option<&str>) -> KeyEvent {
    KeyEvent::Pressed { key, modifiers, text: text.map(|t| t.to_string()), repeat: false }
}

#[test]
fn a_plain_letter_types_and_a_shortcut_does_not() {
    assert_eq!(
        typing(&press(character("o"), NONE, Some("o"))),
        Some(Command::TextEdited(TextAction::Insert('o')))
    );
    assert_eq!(
        typing(&press(Key::Named(Named::Backspace), NONE, None)),
        Some(Command::TextEdited(TextAction::Backspace))
    );
    assert_eq!(
        typing(&press(Key::Named(Named::Escape), NONE, None)),
        Some(Command::Deselect),
        "escape still puts the box down"
    );
    assert_eq!(
        typing(&press(character("s"), COMMAND, Some("s"))),
        Some(Command::SaveRequested),
        "and saving still works"
    );
    assert_eq!(typing(&press(character("z"), COMMAND, Some("z"))), Some(Command::Undo));
}

#[test]
fn the_new_shortcuts_reach_the_right_messages() {
    let press = |key: Key, modifiers: Modifiers| shortcut(&press(key, modifiers, None));
    assert_eq!(press(character("n"), COMMAND), Some(Command::NewRequested));
    assert_eq!(press(Key::Named(Named::Delete), NONE), Some(Command::DeleteFloating));
    assert_eq!(press(character("]"), NONE), Some(Command::ThicknessNudged(1)));
    assert_eq!(press(character("["), NONE), Some(Command::ThicknessNudged(-1)));
    assert_eq!(press(character("n"), NONE), None);
}

#[test]
fn the_clipboard_shortcuts_work_inside_a_text_box() {
    let press = |c: &str, modifiers: Modifiers| typing(&press(character(c), modifiers, Some(c)));
    assert_eq!(press("v", COMMAND), Some(Command::Paste));
    assert_eq!(press("c", COMMAND), Some(Command::Copy));
    assert_eq!(press("x", COMMAND), Some(Command::Cut));
    assert_eq!(press("v", NONE), Some(Command::TextEdited(TextAction::Insert('v'))));
}

#[test]
fn an_arrow_nudges_while_held_and_ignores_the_keyboard_repeat() {
    let held = |repeat: bool| KeyEvent::Pressed {
        key: Key::Named(Named::ArrowLeft),
        modifiers: NONE,
        text: None,
        repeat,
    };
    assert_eq!(shortcut(&held(false)), Some(Command::NudgeStarted(Arrow::Left)));
    assert_eq!(shortcut(&held(true)), None);
    assert_eq!(
        shortcut(&KeyEvent::Released { key: Key::Named(Named::ArrowLeft) }),
        Some(Command::NudgeEnded(Arrow::Left))
    );
    assert_eq!(shortcut(&KeyEvent::Released { key: Key::Named(Named::Delete) }), None);
    assert_eq!(shortcut(&KeyEvent::ModifiersChanged(COMMAND)), None);
}

#[test]
fn the_menu_shortcuts_with_and_without_shift() {
    let go = |key: Key, modifiers: Modifiers| shortcut(&press(key, modifiers, None));
    assert_eq!(go(character("s"), COMMAND), Some(Command::SaveRequested));
    assert_eq!(go(character("s"), COMMAND_SHIFT), Some(Command::SaveAsRequested));
    assert_eq!(go(character("c"), COMMAND), Some(Command::Copy));
    assert_eq!(go(character("c"), COMMAND_SHIFT), Some(Command::CopyCanvas));
    assert_eq!(go(character("z"), COMMAND), Some(Command::Undo));
    assert_eq!(go(character("z"), COMMAND_SHIFT), Some(Command::Redo));
    assert_eq!(go(character("y"), COMMAND), Some(Command::Redo));
    assert_eq!(go(character("w"), COMMAND), Some(Command::TabCloseRequested));
    assert_eq!(go(character("q"), COMMAND), Some(Command::TabCloseRequested));
    assert_eq!(go(Key::Named(Named::Tab), COMMAND), Some(Command::TabStepped(1)));
    assert_eq!(go(Key::Named(Named::Tab), COMMAND_SHIFT), Some(Command::TabStepped(-1)));
    assert_eq!(go(character("="), COMMAND), Some(Command::ZoomIn));
    assert_eq!(go(character("_"), COMMAND), Some(Command::ZoomOut));
    assert_eq!(go(character("0"), COMMAND), Some(Command::ZoomFit));
    assert_eq!(go(character("1"), COMMAND), Some(Command::ZoomActual));
    assert_eq!(go(Key::Named(Named::ArrowUp), COMMAND), Some(Command::ZoomIn));
    assert_eq!(go(Key::Named(Named::ArrowDown), COMMAND), Some(Command::ZoomOut));
    assert_eq!(go(Key::Named(Named::Escape), COMMAND), Some(Command::Deselect));
    assert_eq!(go(character("nn"), COMMAND), None, "a key that types two letters is no shortcut");
    assert_eq!(go(Key::Unidentified, COMMAND), None);
}

#[test]
fn the_editing_keys_move_the_caret_and_shift_selects() {
    let go = |key: Key, modifiers: Modifiers| typing(&press(key, modifiers, None));
    let shifted = Modifiers { command: false, shift: true };
    assert_eq!(
        go(Key::Named(Named::ArrowLeft), NONE),
        Some(Command::TextEdited(TextAction::Motion(Motion::Left)))
    );
    assert_eq!(
        go(Key::Named(Named::ArrowDown), shifted),
        Some(Command::TextEdited(TextAction::Motion(Motion::SelectDown)))
    );
    assert_eq!(go(Key::Named(Named::Home), NONE), Some(Command::TextEdited(TextAction::Motion(Motion::Home))));
    assert_eq!(go(Key::Named(Named::Space), NONE), Some(Command::TextEdited(TextAction::Insert(' '))));
    assert_eq!(
        go(character("a"), COMMAND),
        Some(Command::TextEdited(TextAction::Motion(Motion::SelectAll)))
    );
    assert_eq!(go(character("n"), COMMAND), None, "other shortcuts wait until the box is down");
}

#[test]
fn a_control_code_types_nothing() {
    assert_eq!(typing(&press(Key::Named(Named::Tab), NONE, Some("\t"))), None);
    assert_eq!(typing(&press(Key::Named(Named::Other), NONE, Some("\u{7f}"))), None);
    assert_eq!(typing(&press(Key::Unidentified, NONE, Some(""))), None);
    assert_eq!(
        typing(&press(character("é"), NONE, Some("éa"))),
        Some(Command::TextEdited(TextAction::Insert('é')))
    );
    for c in ['\0', '\n', '\u{1f}', '\u{7f}', '\u{85}', '\u{9f}', ' ', 'a', '\u{a0}', '€'] {
        assert_eq!(is_control(c), c.is_control(), "{c:?}");
    }
}

#[test]
fn the_save_question_answers_to_escape_and_enter() {
    assert_eq!(
        answering(&press(Key::Named(Named::Escape), NONE, None)),
        Some(Command::DiscardAnswered(Discard::Keep))
    );
    assert_eq!(
        answering(&press(Key::Named(Named::Enter), NONE, None)),
        Some(Command::DiscardAnswered(Discard::Save))
    );
    assert_eq!(answering(&press(character("y"), NONE, Some("y"))), None);
}

#[test]
fn a_text_box_and_the_canvas_agree_on_the_common_shortcuts() {
    for c in ["x", "v", "z", "y", "s", "c"] {
        for modifiers in [COMMAND, COMMAND_SHIFT] {
            if c == "c" && modifiers.shift {
                continue;
            }
            let e = press(character(c), modifiers, Some(c));
            assert_eq!(typing(&e), shortcut(&e), "{c} with {modifiers:?}");
            assert!(typing(&e).is_some());
        }
    }
    let escape = press(Key::Named(Named::Escape), NONE, None);
    assert_eq!(typing(&escape), shortcut(&escape));
    let copy_canvas = press(character("c"), COMMAND_SHIFT, Some("C"));
    assert_eq!(shortcut(&copy_canvas), Some(Command::CopyCanvas));
    assert_eq!(typing(&copy_canvas), Some(Command::Copy), "inside a box it copies the selected text");
}
