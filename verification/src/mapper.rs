use crate::hotkey::{HotkeyModifiers, Key, KeyboardShortcut};
use crate::listener::HotkeyEvent;
use vstd::prelude::*;

verus! {

/// The bit of the Alt key in a hotkey modifier mask of Windows.
pub const MOD_ALT: u32 = 0x1;

/// The bit of the Control key.
pub const MOD_CONTROL: u32 = 0x2;

/// The bit of the Shift key.
pub const MOD_SHIFT: u32 = 0x4;

/// The bit of the Windows key.
pub const MOD_WIN: u32 = 0x8;

/// The bit of `flags` that `bit` names, if `held`.
pub open spec fn bit_if(held: bool, bit: u32) -> u32 {
    if held {
        bit
    } else {
        0
    }
}

/// The modifier mask of a modifier set: the bit of each modifier held.
pub open spec fn spec_modifier_mask(modifiers: HotkeyModifiers) -> u32 {
    bit_if(modifiers.control, MOD_CONTROL) | bit_if(modifiers.shift, MOD_SHIFT) | bit_if(
        modifiers.alt,
        MOD_ALT,
    ) | bit_if(modifiers.win, MOD_WIN)
}

/// The modifier set of a mask: a modifier is held where its bit is set.
/// Other bits are not read.
pub open spec fn spec_modifiers_of(flags: u32) -> HotkeyModifiers {
    HotkeyModifiers {
        control: flags & MOD_CONTROL == MOD_CONTROL,
        shift: flags & MOD_SHIFT == MOD_SHIFT,
        alt: flags & MOD_ALT == MOD_ALT,
        win: flags & MOD_WIN == MOD_WIN,
    }
}

/// The virtual-key code of Windows for a key.
pub open spec fn spec_key_code(key: Key) -> u16 {
    match key {
        Key::KeyA => 0x41,
        Key::KeyB => 0x42,
        Key::KeyC => 0x43,
        Key::KeyD => 0x44,
        Key::KeyE => 0x45,
        Key::KeyF => 0x46,
        Key::KeyG => 0x47,
        Key::KeyH => 0x48,
        Key::KeyI => 0x49,
        Key::KeyJ => 0x4A,
        Key::KeyK => 0x4B,
        Key::KeyL => 0x4C,
        Key::KeyM => 0x4D,
        Key::KeyN => 0x4E,
        Key::KeyO => 0x4F,
        Key::KeyP => 0x50,
        Key::KeyQ => 0x51,
        Key::KeyR => 0x52,
        Key::KeyS => 0x53,
        Key::KeyT => 0x54,
        Key::KeyU => 0x55,
        Key::KeyV => 0x56,
        Key::KeyW => 0x57,
        Key::KeyX => 0x58,
        Key::KeyY => 0x59,
        Key::KeyZ => 0x5A,
        Key::Key0 => 0x30,
        Key::Key1 => 0x31,
        Key::Key2 => 0x32,
        Key::Key3 => 0x33,
        Key::Key4 => 0x34,
        Key::Key5 => 0x35,
        Key::Key6 => 0x36,
        Key::Key7 => 0x37,
        Key::Key8 => 0x38,
        Key::Key9 => 0x39,
        Key::F1 => 0x70,
        Key::F2 => 0x71,
        Key::F3 => 0x72,
        Key::F4 => 0x73,
        Key::F5 => 0x74,
        Key::F6 => 0x75,
        Key::F7 => 0x76,
        Key::F8 => 0x77,
        Key::F9 => 0x78,
        Key::F10 => 0x79,
        Key::F11 => 0x7A,
        Key::F12 => 0x7B,
        Key::Semicolon => 0xBA,
        Key::Equal => 0xBB,
        Key::Comma => 0xBC,
        Key::Minus => 0xBD,
        Key::Period => 0xBE,
        Key::Slash => 0xBF,
        Key::Grave => 0xC0,
        Key::LeftBracket => 0xDB,
        Key::Backslash => 0xDC,
        Key::RightBracket => 0xDD,
        Key::Apostrophe => 0xDE,
        Key::Enter => 0x0D,
        Key::Space => 0x20,
        Key::Tab => 0x09,
        Key::Escape => 0x1B,
        Key::Delete => 0x2E,
        Key::BackSpace => 0x08,
        Key::Home => 0x24,
        Key::End => 0x23,
        Key::PageUp => 0x21,
        Key::PageDown => 0x22,
        Key::Insert => 0x2D,
        Key::PrintScreen => 0x2C,
        Key::ScrollLock => 0x91,
        Key::Pause => 0x13,
        Key::LeftArrow => 0x25,
        Key::RightArrow => 0x27,
        Key::UpArrow => 0x26,
        Key::DownArrow => 0x28,
    }
}

/// The key with the virtual-key code `vk`, if the key model has one.
pub open spec fn spec_key_of(vk: u16) -> Option<Key> {
    match vk {
        0x41 => Some(Key::KeyA),
        0x42 => Some(Key::KeyB),
        0x43 => Some(Key::KeyC),
        0x44 => Some(Key::KeyD),
        0x45 => Some(Key::KeyE),
        0x46 => Some(Key::KeyF),
        0x47 => Some(Key::KeyG),
        0x48 => Some(Key::KeyH),
        0x49 => Some(Key::KeyI),
        0x4A => Some(Key::KeyJ),
        0x4B => Some(Key::KeyK),
        0x4C => Some(Key::KeyL),
        0x4D => Some(Key::KeyM),
        0x4E => Some(Key::KeyN),
        0x4F => Some(Key::KeyO),
        0x50 => Some(Key::KeyP),
        0x51 => Some(Key::KeyQ),
        0x52 => Some(Key::KeyR),
        0x53 => Some(Key::KeyS),
        0x54 => Some(Key::KeyT),
        0x55 => Some(Key::KeyU),
        0x56 => Some(Key::KeyV),
        0x57 => Some(Key::KeyW),
        0x58 => Some(Key::KeyX),
        0x59 => Some(Key::KeyY),
        0x5A => Some(Key::KeyZ),
        0x30 => Some(Key::Key0),
        0x31 => Some(Key::Key1),
        0x32 => Some(Key::Key2),
        0x33 => Some(Key::Key3),
        0x34 => Some(Key::Key4),
        0x35 => Some(Key::Key5),
        0x36 => Some(Key::Key6),
        0x37 => Some(Key::Key7),
        0x38 => Some(Key::Key8),
        0x39 => Some(Key::Key9),
        0x70 => Some(Key::F1),
        0x71 => Some(Key::F2),
        0x72 => Some(Key::F3),
        0x73 => Some(Key::F4),
        0x74 => Some(Key::F5),
        0x75 => Some(Key::F6),
        0x76 => Some(Key::F7),
        0x77 => Some(Key::F8),
        0x78 => Some(Key::F9),
        0x79 => Some(Key::F10),
        0x7A => Some(Key::F11),
        0x7B => Some(Key::F12),
        0xBA => Some(Key::Semicolon),
        0xBB => Some(Key::Equal),
        0xBC => Some(Key::Comma),
        0xBD => Some(Key::Minus),
        0xBE => Some(Key::Period),
        0xBF => Some(Key::Slash),
        0xC0 => Some(Key::Grave),
        0xDB => Some(Key::LeftBracket),
        0xDC => Some(Key::Backslash),
        0xDD => Some(Key::RightBracket),
        0xDE => Some(Key::Apostrophe),
        0x0D => Some(Key::Enter),
        0x20 => Some(Key::Space),
        0x09 => Some(Key::Tab),
        0x1B => Some(Key::Escape),
        0x2E => Some(Key::Delete),
        0x08 => Some(Key::BackSpace),
        0x24 => Some(Key::Home),
        0x23 => Some(Key::End),
        0x21 => Some(Key::PageUp),
        0x22 => Some(Key::PageDown),
        0x2D => Some(Key::Insert),
        0x2C => Some(Key::PrintScreen),
        0x91 => Some(Key::ScrollLock),
        0x13 => Some(Key::Pause),
        0x25 => Some(Key::LeftArrow),
        0x27 => Some(Key::RightArrow),
        0x26 => Some(Key::UpArrow),
        0x28 => Some(Key::DownArrow),
        _ => None,
    }
}

/// The modifier mask of a modifier set.
pub fn map_modifier(modifiers: &HotkeyModifiers) -> (flags: u32)
    ensures
        flags == spec_modifier_mask(*modifiers),
{
    let mut flags: u32 = 0;
    if modifiers.control {
        flags = flags | MOD_CONTROL;
    }
    if modifiers.shift {
        flags = flags | MOD_SHIFT;
    }
    if modifiers.alt {
        flags = flags | MOD_ALT;
    }
    if modifiers.win {
        flags = flags | MOD_WIN;
    }
    proof {
        lemma_mask_bits(modifiers.control, modifiers.shift, modifiers.alt, modifiers.win);
    }
    flags
}

/// The modifier set of a mask.
pub fn map_modifier_back(flags: u32) -> (modifiers: HotkeyModifiers)
    ensures
        modifiers == spec_modifiers_of(flags),
{
    HotkeyModifiers {
        control: (flags & MOD_CONTROL) == MOD_CONTROL,
        shift: (flags & MOD_SHIFT) == MOD_SHIFT,
        alt: (flags & MOD_ALT) == MOD_ALT,
        win: (flags & MOD_WIN) == MOD_WIN,
    }
}

/// The virtual-key code for a key.
pub fn map_key(key: Key) -> (vk: u16)
    ensures
        vk == spec_key_code(key),
{
    match key {
        Key::KeyA => 0x41,
        Key::KeyB => 0x42,
        Key::KeyC => 0x43,
        Key::KeyD => 0x44,
        Key::KeyE => 0x45,
        Key::KeyF => 0x46,
        Key::KeyG => 0x47,
        Key::KeyH => 0x48,
        Key::KeyI => 0x49,
        Key::KeyJ => 0x4A,
        Key::KeyK => 0x4B,
        Key::KeyL => 0x4C,
        Key::KeyM => 0x4D,
        Key::KeyN => 0x4E,
        Key::KeyO => 0x4F,
        Key::KeyP => 0x50,
        Key::KeyQ => 0x51,
        Key::KeyR => 0x52,
        Key::KeyS => 0x53,
        Key::KeyT => 0x54,
        Key::KeyU => 0x55,
        Key::KeyV => 0x56,
        Key::KeyW => 0x57,
        Key::KeyX => 0x58,
        Key::KeyY => 0x59,
        Key::KeyZ => 0x5A,
        Key::Key0 => 0x30,
        Key::Key1 => 0x31,
        Key::Key2 => 0x32,
        Key::Key3 => 0x33,
        Key::Key4 => 0x34,
        Key::Key5 => 0x35,
        Key::Key6 => 0x36,
        Key::Key7 => 0x37,
        Key::Key8 => 0x38,
        Key::Key9 => 0x39,
        Key::F1 => 0x70,
        Key::F2 => 0x71,
        Key::F3 => 0x72,
        Key::F4 => 0x73,
        Key::F5 => 0x74,
        Key::F6 => 0x75,
        Key::F7 => 0x76,
        Key::F8 => 0x77,
        Key::F9 => 0x78,
        Key::F10 => 0x79,
        Key::F11 => 0x7A,
        Key::F12 => 0x7B,
        Key::Semicolon => 0xBA,
        Key::Equal => 0xBB,
        Key::Comma => 0xBC,
        Key::Minus => 0xBD,
        Key::Period => 0xBE,
        Key::Slash => 0xBF,
        Key::Grave => 0xC0,
        Key::LeftBracket => 0xDB,
        Key::Backslash => 0xDC,
        Key::RightBracket => 0xDD,
        Key::Apostrophe => 0xDE,
        Key::Enter => 0x0D,
        Key::Space => 0x20,
        Key::Tab => 0x09,
        Key::Escape => 0x1B,
        Key::Delete => 0x2E,
        Key::BackSpace => 0x08,
        Key::Home => 0x24,
        Key::End => 0x23,
        Key::PageUp => 0x21,
        Key::PageDown => 0x22,
        Key::Insert => 0x2D,
        Key::PrintScreen => 0x2C,
        Key::ScrollLock => 0x91,
        Key::Pause => 0x13,
        Key::LeftArrow => 0x25,
        Key::RightArrow => 0x27,
        Key::UpArrow => 0x26,
        Key::DownArrow => 0x28,
    }
}

/// The key with the virtual-key code `vk`, if the key model has one.
pub fn map_key_back(vk: u16) -> (key: Option<Key>)
    ensures
        key == spec_key_of(vk),
{
    match vk {
        0x41 => Some(Key::KeyA),
        0x42 => Some(Key::KeyB),
        0x43 => Some(Key::KeyC),
        0x44 => Some(Key::KeyD),
        0x45 => Some(Key::KeyE),
        0x46 => Some(Key::KeyF),
        0x47 => Some(Key::KeyG),
        0x48 => Some(Key::KeyH),
        0x49 => Some(Key::KeyI),
        0x4A => Some(Key::KeyJ),
        0x4B => Some(Key::KeyK),
        0x4C => Some(Key::KeyL),
        0x4D => Some(Key::KeyM),
        0x4E => Some(Key::KeyN),
        0x4F => Some(Key::KeyO),
        0x50 => Some(Key::KeyP),
        0x51 => Some(Key::KeyQ),
        0x52 => Some(Key::KeyR),
        0x53 => Some(Key::KeyS),
        0x54 => Some(Key::KeyT),
        0x55 => Some(Key::KeyU),
        0x56 => Some(Key::KeyV),
        0x57 => Some(Key::KeyW),
        0x58 => Some(Key::KeyX),
        0x59 => Some(Key::KeyY),
        0x5A => Some(Key::KeyZ),
        0x30 => Some(Key::Key0),
        0x31 => Some(Key::Key1),
        0x32 => Some(Key::Key2),
        0x33 => Some(Key::Key3),
        0x34 => Some(Key::Key4),
        0x35 => Some(Key::Key5),
        0x36 => Some(Key::Key6),
        0x37 => Some(Key::Key7),
        0x38 => Some(Key::Key8),
        0x39 => Some(Key::Key9),
        0x70 => Some(Key::F1),
        0x71 => Some(Key::F2),
        0x72 => Some(Key::F3),
        0x73 => Some(Key::F4),
        0x74 => Some(Key::F5),
        0x75 => Some(Key::F6),
        0x76 => Some(Key::F7),
        0x77 => Some(Key::F8),
        0x78 => Some(Key::F9),
        0x79 => Some(Key::F10),
        0x7A => Some(Key::F11),
        0x7B => Some(Key::F12),
        0xBA => Some(Key::Semicolon),
        0xBB => Some(Key::Equal),
        0xBC => Some(Key::Comma),
        0xBD => Some(Key::Minus),
        0xBE => Some(Key::Period),
        0xBF => Some(Key::Slash),
        0xC0 => Some(Key::Grave),
        0xDB => Some(Key::LeftBracket),
        0xDC => Some(Key::Backslash),
        0xDD => Some(Key::RightBracket),
        0xDE => Some(Key::Apostrophe),
        0x0D => Some(Key::Enter),
        0x20 => Some(Key::Space),
        0x09 => Some(Key::Tab),
        0x1B => Some(Key::Escape),
        0x2E => Some(Key::Delete),
        0x08 => Some(Key::BackSpace),
        0x24 => Some(Key::Home),
        0x23 => Some(Key::End),
        0x21 => Some(Key::PageUp),
        0x22 => Some(Key::PageDown),
        0x2D => Some(Key::Insert),
        0x2C => Some(Key::PrintScreen),
        0x91 => Some(Key::ScrollLock),
        0x13 => Some(Key::Pause),
        0x25 => Some(Key::LeftArrow),
        0x27 => Some(Key::RightArrow),
        0x26 => Some(Key::UpArrow),
        0x28 => Some(Key::DownArrow),
        _ => None,
    }
}

/// The bits of a mask that is put together from four flags, one by one.
proof fn lemma_mask_bits(control: bool, shift: bool, alt: bool, win: bool)
    ensures
        ({
            let a = bit_if(control, MOD_CONTROL);
            let b = bit_if(shift, MOD_SHIFT);
            let c = bit_if(alt, MOD_ALT);
            let d = bit_if(win, MOD_WIN);
            let m = a | b | c | d;
            &&& 0u32 | a == a
            &&& a | 0u32 == a
            &&& (a | b) | 0u32 == a | b
            &&& (a | b | c) | 0u32 == a | b | c
            &&& (m & MOD_CONTROL == MOD_CONTROL) == control
            &&& (m & MOD_SHIFT == MOD_SHIFT) == shift
            &&& (m & MOD_ALT == MOD_ALT) == alt
            &&& (m & MOD_WIN == MOD_WIN) == win
        }),
{
    let a = bit_if(control, MOD_CONTROL);
    let b = bit_if(shift, MOD_SHIFT);
    let c = bit_if(alt, MOD_ALT);
    let d = bit_if(win, MOD_WIN);
    assert(0u32 | a == a && a | 0u32 == a && (a | b) | 0u32 == a | b && (a | b | c) | 0u32 == a
        | b | c) by (bit_vector);
    assert((a == 0 || a == 2) && (b == 0 || b == 4) && (c == 0 || c == 1) && (d == 0 || d == 8)
        ==> ((a | b | c | d) & 2 == 2) == (a == 2) && ((a | b | c | d) & 4 == 4) == (b == 4) && ((a
        | b | c | d) & 1 == 1) == (c == 1) && ((a | b | c | d) & 8 == 8) == (d == 8))
        by (bit_vector);
}

/// Reading a mask back gives the modifier set that it was made from.
pub proof fn law_modifier_round_trip(modifiers: HotkeyModifiers)
    ensures
        spec_modifiers_of(spec_modifier_mask(modifiers)) == modifiers,
{
    lemma_mask_bits(modifiers.control, modifiers.shift, modifiers.alt, modifiers.win);
}

/// The key that is read back from the code of a key is that key.
pub proof fn law_key_round_trip(key: Key)
    ensures
        spec_key_of(spec_key_code(key)) == Some(key),
{
}

/// A code is read back as a key only where it is the code of that key.
pub proof fn law_key_read_back(vk: u16, key: Key)
    ensures
        spec_key_of(vk) == Some(key) <==> spec_key_code(key) == vk,
{
}

/// The key chord that a hotkey event reports, where the key model has its
/// key.
pub open spec fn spec_shortcut_of(event: HotkeyEvent) -> Option<KeyboardShortcut> {
    if event.vk > u16::MAX {
        None
    } else {
        match spec_key_of(event.vk as u16) {
            Some(key) => Some(
                KeyboardShortcut { modifier: spec_modifiers_of(event.modifiers), key },
            ),
            None => None,
        }
    }
}

/// Reads the payload of a hotkey event as a chord of the key model. `None` where
/// the virtual-key code is that of no key of the model.
pub fn shortcut_of(event: &HotkeyEvent) -> (chord: Option<KeyboardShortcut>)
    ensures
        chord == spec_shortcut_of(*event),
{
    if event.vk > 0xFFFF {
        return None;
    }
    match map_key_back(event.vk as u16) {
        None => None,
        Some(key) => Some(KeyboardShortcut { modifier: map_modifier_back(event.modifiers), key }),
    }
}

} // verus!
