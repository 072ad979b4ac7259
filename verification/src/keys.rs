//! Encoding of key presses as the bytes a terminal sends to the shell.

use vstd::prelude::*;
use vstd::slice::slice_to_vec;

verus! {

/// Keys with a name, as far as the terminal gives them a meaning.
#[derive(Clone, Copy, Debug, PartialEq, Eq)]
pub enum NamedKey {
    Enter,
    Backspace,
    Tab,
    ArrowUp,
    ArrowDown,
    ArrowRight,
    ArrowLeft,
    Home,
    End,
    PageUp,
    PageDown,
    Delete,
    Insert,
    Escape,
    F1,
    F2,
    F3,
    F4,
    F5,
    F6,
    F7,
    F8,
    F9,
    F10,
    F11,
    F12,
    Space,
    /// Any other named key.
    Other,
}

/// A pressed key: a named key, the text a key produces, or a key without
/// either.
#[derive(Clone, Debug, PartialEq, Eq)]
pub enum Key {
    Named(NamedKey),
    Character(String),
    Unidentified,
}

/// The modifier keys held during a key press.
#[derive(Clone, Copy, Debug, PartialEq, Eq)]
pub struct Modifiers {
    pub ctrl: bool,
    pub shift: bool,
}

/// The text `s` in upper case, as Rust's `str::to_uppercase` maps it.
pub uninterp spec fn uppercase(s: Seq<char>) -> Seq<char>;

/// Calls `str::to_uppercase`; claims only that the result is `uppercase` of
/// the argument: the Unicode case mapping itself is not stated.
#[verifier::external_body]
fn to_uppercase(s: &str) -> (upper: String)
    ensures
        upper@ == uppercase(s@),
{
    s.to_uppercase()
}

/// The control code that Ctrl sends with the one-byte key text `b`, where
/// the terminal defines one (`^A ^C ^D ^E ^K ^L ^R ^U ^W ^Z`, either case).
pub open spec fn ctrl_code(b: u8) -> Option<u8> {
    if b == 0x63 || b == 0x43 { Some(0x03u8) }        // c
    else if b == 0x64 || b == 0x44 { Some(0x04u8) }   // d
    else if b == 0x6c || b == 0x4c { Some(0x0cu8) }   // l
    else if b == 0x7a || b == 0x5a { Some(0x1au8) }   // z
    else if b == 0x61 || b == 0x41 { Some(0x01u8) }   // a
    else if b == 0x65 || b == 0x45 { Some(0x05u8) }   // e
    else if b == 0x6b || b == 0x4b { Some(0x0bu8) }   // k
    else if b == 0x75 || b == 0x55 { Some(0x15u8) }   // u
    else if b == 0x77 || b == 0x57 { Some(0x17u8) }   // w
    else if b == 0x72 || b == 0x52 { Some(0x12u8) }   // r
    else { None }
}

/// The bytes sent for a named key: control characters, `ESC [` / `ESC O`
/// sequences of an xterm; nothing for Escape, which quits the terminal
/// instead, and nothing for other keys.
pub open spec fn named_key_bytes(k: NamedKey) -> Seq<u8> {
    match k {
        NamedKey::Enter => seq![0x0du8],
        NamedKey::Backspace => seq![0x7fu8],
        NamedKey::Tab => seq![0x09u8],
        NamedKey::ArrowUp => seq![0x1bu8, 0x5b, 0x41],
        NamedKey::ArrowDown => seq![0x1bu8, 0x5b, 0x42],
        NamedKey::ArrowRight => seq![0x1bu8, 0x5b, 0x43],
        NamedKey::ArrowLeft => seq![0x1bu8, 0x5b, 0x44],
        NamedKey::Home => seq![0x1bu8, 0x5b, 0x48],
        NamedKey::End => seq![0x1bu8, 0x5b, 0x46],
        NamedKey::PageUp => seq![0x1bu8, 0x5b, 0x35, 0x7e],
        NamedKey::PageDown => seq![0x1bu8, 0x5b, 0x36, 0x7e],
        NamedKey::Delete => seq![0x1bu8, 0x5b, 0x33, 0x7e],
        NamedKey::Insert => seq![0x1bu8, 0x5b, 0x32, 0x7e],
        NamedKey::Escape => Seq::empty(),
        NamedKey::F1 => seq![0x1bu8, 0x4f, 0x50],
        NamedKey::F2 => seq![0x1bu8, 0x4f, 0x51],
        NamedKey::F3 => seq![0x1bu8, 0x4f, 0x52],
        NamedKey::F4 => seq![0x1bu8, 0x4f, 0x53],
        NamedKey::F5 => seq![0x1bu8, 0x5b, 0x31, 0x35, 0x7e],
        NamedKey::F6 => seq![0x1bu8, 0x5b, 0x31, 0x37, 0x7e],
        NamedKey::F7 => seq![0x1bu8, 0x5b, 0x31, 0x38, 0x7e],
        NamedKey::F8 => seq![0x1bu8, 0x5b, 0x31, 0x39, 0x7e],
        NamedKey::F9 => seq![0x1bu8, 0x5b, 0x32, 0x30, 0x7e],
        NamedKey::F10 => seq![0x1bu8, 0x5b, 0x32, 0x31, 0x7e],
        NamedKey::F11 => seq![0x1bu8, 0x5b, 0x32, 0x33, 0x7e],
        NamedKey::F12 => seq![0x1bu8, 0x5b, 0x32, 0x34, 0x7e],
        NamedKey::Space => seq![0x20u8],
        NamedKey::Other => Seq::empty(),
    }
}

/// The bytes sent to the shell for a key press. With Ctrl held, a key that
/// produces text sends its control code, or nothing when it has none; other
/// keys send their xterm sequence; text is sent as UTF-8, upper-cased when
/// Shift is held.
pub open spec fn key_bytes(key: Key, mods: Modifiers) -> Seq<u8> {
    match key {
        Key::Character(s) => {
            if mods.ctrl {
                let text = vstd::utf8::encode_utf8(s@);
                if text.len() == 1 && ctrl_code(text[0]) is Some {
                    seq![ctrl_code(text[0])->0]
                } else {
                    Seq::empty()
                }
            } else if mods.shift {
                vstd::utf8::encode_utf8(uppercase(s@))
            } else {
                vstd::utf8::encode_utf8(s@)
            }
        },
        Key::Named(k) => named_key_bytes(k),
        Key::Unidentified => Seq::empty(),
    }
}

fn ctrl_code_of(b: u8) -> (code: Option<u8>)
    ensures
        code == ctrl_code(b),
{
    if b == 0x63 || b == 0x43 { Some(0x03) }
    else if b == 0x64 || b == 0x44 { Some(0x04) }
    else if b == 0x6c || b == 0x4c { Some(0x0c) }
    else if b == 0x7a || b == 0x5a { Some(0x1a) }
    else if b == 0x61 || b == 0x41 { Some(0x01) }
    else if b == 0x65 || b == 0x45 { Some(0x05) }
    else if b == 0x6b || b == 0x4b { Some(0x0b) }
    else if b == 0x75 || b == 0x55 { Some(0x15) }
    else if b == 0x77 || b == 0x57 { Some(0x17) }
    else if b == 0x72 || b == 0x52 { Some(0x12) }
    else { None }
}

/// The bytes sent for a named key.
pub fn named_key_to_bytes(k: NamedKey) -> (bytes: Vec<u8>)
    ensures
        bytes@ == named_key_bytes(k),
{
    let v: Vec<u8> = match k {
        NamedKey::Enter => vec![0x0d],
        NamedKey::Backspace => vec![0x7f],
        NamedKey::Tab => vec![0x09],
        NamedKey::ArrowUp => vec![0x1b, 0x5b, 0x41],
        NamedKey::ArrowDown => vec![0x1b, 0x5b, 0x42],
        NamedKey::ArrowRight => vec![0x1b, 0x5b, 0x43],
        NamedKey::ArrowLeft => vec![0x1b, 0x5b, 0x44],
        NamedKey::Home => vec![0x1b, 0x5b, 0x48],
        NamedKey::End => vec![0x1b, 0x5b, 0x46],
        NamedKey::PageUp => vec![0x1b, 0x5b, 0x35, 0x7e],
        NamedKey::PageDown => vec![0x1b, 0x5b, 0x36, 0x7e],
        NamedKey::Delete => vec![0x1b, 0x5b, 0x33, 0x7e],
        NamedKey::Insert => vec![0x1b, 0x5b, 0x32, 0x7e],
        NamedKey::Escape => Vec::new(),
        NamedKey::F1 => vec![0x1b, 0x4f, 0x50],
        NamedKey::F2 => vec![0x1b, 0x4f, 0x51],
        NamedKey::F3 => vec![0x1b, 0x4f, 0x52],
        NamedKey::F4 => vec![0x1b, 0x4f, 0x53],
        NamedKey::F5 => vec![0x1b, 0x5b, 0x31, 0x35, 0x7e],
        NamedKey::F6 => vec![0x1b, 0x5b, 0x31, 0x37, 0x7e],
        NamedKey::F7 => vec![0x1b, 0x5b, 0x31, 0x38, 0x7e],
        NamedKey::F8 => vec![0x1b, 0x5b, 0x31, 0x39, 0x7e],
        NamedKey::F9 => vec![0x1b, 0x5b, 0x32, 0x30, 0x7e],
        NamedKey::F10 => vec![0x1b, 0x5b, 0x32, 0x31, 0x7e],
        NamedKey::F11 => vec![0x1b, 0x5b, 0x32, 0x33, 0x7e],
        NamedKey::F12 => vec![0x1b, 0x5b, 0x32, 0x34, 0x7e],
        NamedKey::Space => vec![0x20],
        NamedKey::Other => Vec::new(),
    };
    assert(v@ =~= named_key_bytes(k));
    v
}

/// The bytes to write to the shell for a key press.
pub fn key_to_bytes(key: &Key, mods: Modifiers) -> (bytes: Vec<u8>)
    ensures
        bytes@ == key_bytes(*key, mods),
{
    match key {
        Key::Character(s) => {
            if mods.ctrl {
                let text = s.as_str().as_bytes();
                if text.len() == 1 {
                    match ctrl_code_of(text[0]) {
                        Some(code) => {
                            let v = vec![code];
                            assert(v@ =~= key_bytes(*key, mods));
                            v
                        },
                        None => Vec::new(),
                    }
                } else {
                    Vec::new()
                }
            } else if mods.shift {
                let upper = to_uppercase(s.as_str());
                slice_to_vec(upper.as_str().as_bytes())
            } else {
                slice_to_vec(s.as_str().as_bytes())
            }
        },
        Key::Named(k) => named_key_to_bytes(*k),
        Key::Unidentified => Vec::new(),
    }
}


/// Whether the key quits the terminal: Escape does.
pub open spec fn quits(key: Key) -> bool {
    key matches Key::Named(NamedKey::Escape)
}

/// Whether the key quits the terminal.
pub fn is_quit_key(key: &Key) -> (q: bool)
    ensures
        q == quits(*key),
{
    match key {
        Key::Named(NamedKey::Escape) => true,
        _ => false,
    }
}

} // verus!
