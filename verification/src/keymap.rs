//! What the keys do.

use vstd::prelude::*;
use crate::message::Message;
use crate::text::{ascii_lower, ascii_lower_chars, chars_of, same_chars, same_text};

verus! {

/// A key.
#[derive(Debug)]
pub enum Key {
    /// A key that types this text.
    Character(String),
    ArrowUp,
    ArrowDown,
    ArrowLeft,
    ArrowRight,
    PageUp,
    PageDown,
    Enter,
    Tab,
    Backspace,
    Delete,
    Space,
    Escape,
    F4,
    F5,
    F6,
    F7,
    F8,
    F10,
    /// Any other key.
    Other,
}

/// The modifier keys that are held.
#[derive(Debug, Clone, Copy, PartialEq, Eq, Structural)]
pub struct Held {
    pub shift: bool,
    pub control: bool,
    pub alt: bool,
    /// Command on macOS, the logo key elsewhere.
    pub command: bool,
}

/// What a key does.
pub open spec fn key_meaning(key: Key, held: Held) -> Option<Message> {
    match key {
        Key::Character(c) => if held.command && held.shift && ascii_lower(c@) == "p"@ {
            Some(Message::OpenCommandPalette)
        } else if held.command && ascii_lower(c@) == "p"@ {
            Some(Message::OpenPrompt)
        } else if held.command && c@ == ","@ {
            Some(Message::OpenSettingsFile)
        } else if !held.command && !held.control && !held.alt {
            Some(Message::FilterAppend(c))
        } else {
            None
        },
        Key::ArrowUp => if held.command {
            Some(Message::MoveToEdge(true, held.shift))
        } else {
            Some(Message::MoveSelection(-1 as i32, held.shift))
        },
        Key::ArrowDown => if held.command {
            Some(Message::MoveToEdge(false, held.shift))
        } else {
            Some(Message::MoveSelection(1, held.shift))
        },
        Key::PageUp => Some(Message::PageMove(-1 as i8, held.shift)),
        Key::PageDown => Some(Message::PageMove(1, held.shift)),
        Key::ArrowLeft => Some(Message::SwitchPromptFocus),
        Key::ArrowRight => Some(Message::SwitchPromptFocus),
        Key::Enter => Some(Message::ActivateSelection),
        Key::Tab => Some(Message::SwitchSide),
        Key::Backspace => Some(Message::GoUpActive),
        Key::Delete => Some(Message::OpenDeletePrompt),
        Key::F8 => Some(Message::OpenDeletePrompt),
        Key::F4 => Some(Message::EditFile),
        Key::Space => Some(Message::QuickLook),
        Key::F5 => Some(Message::OpenCopyPrompt),
        Key::F6 => Some(Message::OpenMovePrompt),
        Key::F7 => Some(Message::OpenNewFolderPrompt),
        Key::F10 => Some(Message::ExitApp),
        Key::Escape => Some(Message::PromptCancel),
        Key::Other => None,
    }
}

fn is_letter_p(c: &str) -> (r: bool)
    ensures
        r == (ascii_lower(c@) == "p"@),
{
    let v = chars_of(c);
    let low = ascii_lower_chars(v.as_slice());
    let p = chars_of("p");
    same_chars(low.as_slice(), p.as_slice())
}

/// What a key does.
pub fn key_message(key: &Key, held: Held) -> (r: Option<Message>)
    ensures
        r == key_meaning(*key, held),
{
    match key {
        Key::Character(c) => {
            let p: bool = is_letter_p(c.as_str());
            if held.command && held.shift && p {
                Some(Message::OpenCommandPalette)
            } else if held.command && p {
                Some(Message::OpenPrompt)
            } else if held.command && same_text(c.as_str(), ",") {
                Some(Message::OpenSettingsFile)
            } else if !held.command && !held.control && !held.alt {
                Some(Message::FilterAppend(c.clone()))
            } else {
                None
            }
        },
        Key::ArrowUp => if held.command {
            Some(Message::MoveToEdge(true, held.shift))
        } else {
            Some(Message::MoveSelection(-1, held.shift))
        },
        Key::ArrowDown => if held.command {
            Some(Message::MoveToEdge(false, held.shift))
        } else {
            Some(Message::MoveSelection(1, held.shift))
        },
        Key::PageUp => Some(Message::PageMove(-1, held.shift)),
        Key::PageDown => Some(Message::PageMove(1, held.shift)),
        Key::ArrowLeft => Some(Message::SwitchPromptFocus),
        Key::ArrowRight => Some(Message::SwitchPromptFocus),
        Key::Enter => Some(Message::ActivateSelection),
        Key::Tab => Some(Message::SwitchSide),
        Key::Backspace => Some(Message::GoUpActive),
        Key::Delete => Some(Message::OpenDeletePrompt),
        Key::F8 => Some(Message::OpenDeletePrompt),
        Key::F4 => Some(Message::EditFile),
        Key::Space => Some(Message::QuickLook),
        Key::F5 => Some(Message::OpenCopyPrompt),
        Key::F6 => Some(Message::OpenMovePrompt),
        Key::F7 => Some(Message::OpenNewFolderPrompt),
        Key::F10 => Some(Message::ExitApp),
        Key::Escape => Some(Message::PromptCancel),
        Key::Other => None,
    }
}

/// Characters are typed into the filter exactly while no command, control or
/// alternate key is held.
pub proof fn only_plain_characters_filter(key: Key, held: Held)
    ensures
        key_meaning(key, held) is Some && key_meaning(key, held)->Some_0 is FilterAppend <==> (key
            is Character && !held.command && !held.control && !held.alt),
{
}

/// The keys of a file manager do what they are known for: the function keys edit,
/// copy, move, make a folder, delete and quit, the arrows move by one row, the
/// page keys by one page in the same direction, and the shift key extends.
pub proof fn keys_do_what_they_are_known_for(held: Held)
    ensures
        key_meaning(Key::F4, held) == Some(Message::EditFile),
        key_meaning(Key::F5, held) == Some(Message::OpenCopyPrompt),
        key_meaning(Key::F6, held) == Some(Message::OpenMovePrompt),
        key_meaning(Key::F7, held) == Some(Message::OpenNewFolderPrompt),
        key_meaning(Key::F8, held) == Some(Message::OpenDeletePrompt),
        key_meaning(Key::Delete, held) == Some(Message::OpenDeletePrompt),
        key_meaning(Key::F10, held) == Some(Message::ExitApp),
        key_meaning(Key::Enter, held) == Some(Message::ActivateSelection),
        key_meaning(Key::Tab, held) == Some(Message::SwitchSide),
        key_meaning(Key::Backspace, held) == Some(Message::GoUpActive),
        key_meaning(Key::Space, held) == Some(Message::QuickLook),
        key_meaning(Key::Escape, held) == Some(Message::PromptCancel),
        key_meaning(Key::ArrowLeft, held) == Some(Message::SwitchPromptFocus),
        key_meaning(Key::ArrowRight, held) == Some(Message::SwitchPromptFocus),
        !held.command ==> key_meaning(Key::ArrowUp, held) == Some(
            Message::MoveSelection(-1i32, held.shift),
        ),
        !held.command ==> key_meaning(Key::ArrowDown, held) == Some(
            Message::MoveSelection(1, held.shift),
        ),
        held.command ==> key_meaning(Key::ArrowUp, held) == Some(
            Message::MoveToEdge(true, held.shift),
        ),
        held.command ==> key_meaning(Key::ArrowDown, held) == Some(
            Message::MoveToEdge(false, held.shift),
        ),
        key_meaning(Key::PageUp, held) == Some(Message::PageMove(-1i8, held.shift)),
        key_meaning(Key::PageDown, held) == Some(Message::PageMove(1, held.shift)),
        key_meaning(Key::Other, held) is None,
{
}

/// A character that is typed without a command is put into the filter as it is;
/// with the command key, `p` opens the places and with shift the palette, and a
/// comma the settings.
pub proof fn characters_are_typed(c: String, held: Held)
    ensures
        !held.command && !held.control && !held.alt ==> key_meaning(Key::Character(c), held)
            == Some(Message::FilterAppend(c)),
        held.command && (c@ == seq!['p'] || c@ == seq!['P']) ==> key_meaning(
            Key::Character(c),
            held,
        ) == Some(
            if held.shift {
                Message::OpenCommandPalette
            } else {
                Message::OpenPrompt
            },
        ),
        held.command && c@ == seq![','] ==> key_meaning(Key::Character(c), held) == Some(
            Message::OpenSettingsFile,
        ),
{
    reveal_strlit("p");
    reveal_strlit(",");
    assert("p"@ =~= seq!['p']);
    assert(","@ =~= seq![',']);
    assert(ascii_lower(seq!['p']) =~= seq!['p']);
    assert(ascii_lower(seq!['P']) =~= seq!['p']);
    assert(ascii_lower(seq![','])[0] == ',');
}

} // verus!
