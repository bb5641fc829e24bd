use rho::keymap::{Held, Key, key_message};
use rho::message::Message;

const PLAIN: Held = Held { shift: false, control: false, alt: false, command: false };

fn typed(c: &str) -> Key {
    Key::Character(c.to_string())
}

#[test]
fn characters_filter_unless_modified() {
    assert!(matches!(key_message(&typed("x"), PLAIN), Some(Message::FilterAppend(s)) if s == "x"));
    assert!(matches!(key_message(&typed("X"), Held { shift: true, ..PLAIN }), Some(Message::FilterAppend(_))));
    for held in [Held { control: true, ..PLAIN }, Held { alt: true, ..PLAIN }, Held { command: true, ..PLAIN }] {
        assert!(key_message(&typed("x"), held).is_none());
    }
}

#[test]
fn command_keys() {
    let command = Held { command: true, ..PLAIN };
    let both = Held { shift: true, ..command };
    assert!(matches!(key_message(&typed("p"), command), Some(Message::OpenPrompt)));
    assert!(matches!(key_message(&typed("P"), both), Some(Message::OpenCommandPalette)));
    assert!(matches!(key_message(&typed(","), command), Some(Message::OpenSettingsFile)));
    assert!(matches!(key_message(&Key::ArrowUp, both), Some(Message::MoveToEdge(true, true))));
    assert!(matches!(key_message(&Key::ArrowDown, command), Some(Message::MoveToEdge(false, false))));
}

#[test]
fn named_keys() {
    assert!(matches!(key_message(&Key::ArrowUp, PLAIN), Some(Message::MoveSelection(-1, false))));
    assert!(matches!(key_message(&Key::PageDown, PLAIN), Some(Message::PageMove(1, false))));
    assert!(matches!(key_message(&Key::F8, PLAIN), Some(Message::OpenDeletePrompt)));
    assert!(matches!(key_message(&Key::F10, PLAIN), Some(Message::ExitApp)));
    assert!(matches!(key_message(&Key::Escape, PLAIN), Some(Message::PromptCancel)));
    assert!(key_message(&Key::Other, PLAIN).is_none());
}
