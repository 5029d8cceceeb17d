use vstd::prelude::*;

verus! {

/// One modifier key.
#[derive(Debug, Clone, Copy, PartialEq, Eq, Hash, Structural)]
pub enum Modifier {
    /// Ctrl on Windows and Linux, Control on macOS.
    Control,
    Shift,
    /// Alt on Windows and Linux, Option on macOS.
    Alt,
    /// The Windows key, or Command on macOS.
    Win,
}

/// The set of modifiers held with a key, one flag for each.
#[derive(Debug, Clone, Copy, PartialEq, Eq, Hash, Structural)]
pub struct HotkeyModifiers {
    pub control: bool,
    pub shift: bool,
    pub alt: bool,
    pub win: bool,
}

impl HotkeyModifiers {
    /// Whether `m` is in the set.
    pub open spec fn has(self, m: Modifier) -> bool {
        match m {
            Modifier::Control => self.control,
            Modifier::Shift => self.shift,
            Modifier::Alt => self.alt,
            Modifier::Win => self.win,
        }
    }

    /// Whether `m` is in the set.
    pub fn contains(&self, m: Modifier) -> (held: bool)
        ensures
            held == self.has(m),
    {
        match m {
            Modifier::Control => self.control,
            Modifier::Shift => self.shift,
            Modifier::Alt => self.alt,
            Modifier::Win => self.win,
        }
    }
}

impl Default for HotkeyModifiers {
    /// The empty set.
    fn default() -> (none: Self)
        ensures
            none == (HotkeyModifiers { control: false, shift: false, alt: false, win: false }),
    {
        HotkeyModifiers { control: false, shift: false, alt: false, win: false }
    }
}

/// A symbolic key, independent of the operating system.
#[derive(Debug, Clone, Copy, PartialEq, Eq, Hash, Structural)]
pub enum Key {
    // Letters and digits.
    KeyA,
    KeyB,
    KeyC,
    KeyD,
    KeyE,
    KeyF,
    KeyG,
    KeyH,
    KeyI,
    KeyJ,
    KeyK,
    KeyL,
    KeyM,
    KeyN,
    KeyO,
    KeyP,
    KeyQ,
    KeyR,
    KeyS,
    KeyT,
    KeyU,
    KeyV,
    KeyW,
    KeyX,
    KeyY,
    KeyZ,
    Key0,
    Key1,
    Key2,
    Key3,
    Key4,
    Key5,
    Key6,
    Key7,
    Key8,
    Key9,
    // Function keys.
    F1,
    F2,
    F3,
    F4,
    F5,
    F6,
    F7,
    F8,
    F9,
    F10,
    F11,
    F12,
    // Punctuation, named by the unshifted symbol of the key.
    Semicolon,
    Equal,
    Comma,
    Minus,
    Period,
    Slash,
    Grave,
    LeftBracket,
    Backslash,
    RightBracket,
    Apostrophe,
    // Special keys.
    Enter,
    Space,
    Tab,
    Escape,
    Delete,
    BackSpace,
    // Navigation and movement.
    Home,
    End,
    PageUp,
    PageDown,
    Insert,
    PrintScreen,
    ScrollLock,
    Pause,
    LeftArrow,
    RightArrow,
    UpArrow,
    DownArrow,
}

/// A key chord: a modifier set and one key.
#[derive(Debug, Clone, Copy, PartialEq, Eq, Hash, Structural)]
pub struct KeyboardShortcut {
    pub modifier: HotkeyModifiers,
    pub key: Key,
}

} // verus!
