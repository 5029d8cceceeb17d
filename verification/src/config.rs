use crate::action::{FocusState, Os};
use crate::hotkey::{HotkeyModifiers, Key, KeyboardShortcut};
use vstd::prelude::*;

verus! {

/// The definition of one application, as its file declares it.
#[derive(Debug, Clone)]
pub struct Config {
    /// Version of the definition format.
    pub version: u32,
    pub app: App,
    /// The declared actions with their keys, in the order of the file. No
    /// key stands twice.
    pub actions: Vec<(String, Action)>,
}

/// The application block of a definition.
#[derive(Debug, Clone)]
pub struct App {
    pub id: String,
    pub name: String,
    /// The focus state of every action that declares none.
    pub default_focus_state: Option<FocusState>,
    pub default_priority: Priority,
    pub application_os_name: AppOsName,
}

/// The process name of an application on each operating system.
#[derive(Debug, Clone)]
pub struct AppOsName {
    pub windows: Option<String>,
    pub macos: Option<String>,
    pub linux: Option<String>,
}

/// One declared action.
#[derive(Debug, Clone)]
pub struct Action {
    pub name: String,
    pub focus_state: Option<FocusState>,
    pub cmd: CmdByOs,
}

/// The key chord of an action on each operating system.
#[derive(Debug, Clone)]
pub struct CmdByOs {
    pub windows: Option<KeyChord>,
    pub macos: Option<KeyChord>,
    pub linux: Option<KeyChord>,
}

/// A key chord as a definition writes it: a list of modifiers and a key.
#[derive(Debug, Clone)]
pub struct KeyChord {
    pub mods: Vec<Modifier>,
    pub key: Key,
}

/// A modifier as a definition names it.
#[derive(Debug, Clone, Copy, PartialEq, Eq, Structural)]
pub enum Modifier {
    Ctrl,
    Shift,
    Alt,
    Cmd,
    Win,
    Fn,
}

/// The priority that a definition declares for its application.
#[derive(Debug, Clone, Copy, PartialEq, Eq, Structural)]
pub enum Priority {
    OSReserved,
    GlobalRemapper,
    OSGlobal,
    UserOverrides,
    Application,
    ApplicationExtensions,
    DocumentOrWebApp,
}

impl Config {
    /// No two actions are declared under one key.
    pub open spec fn keys_distinct(&self) -> bool {
        forall|i: int, j: int|
            0 <= i < j < self.actions@.len() ==> (#[trigger] self.actions@[i]).0@ != (
            #[trigger] self.actions@[j]).0@
    }

    /// The keys of the actions are distinct, and the number of actions fits
    /// the numeric action identities.
    pub open spec fn wf(&self) -> bool {
        self.actions@.len() <= u32::MAX && self.keys_distinct()
    }

    /// The place at or after `from` of the action declared under `key`, if
    /// there is one.
    pub open spec fn key_index(&self, key: Seq<char>, from: int) -> Option<int>
        decreases self.actions@.len() - from,
    {
        if from >= self.actions@.len() {
            None
        } else if self.actions@[from].0@ == key {
            Some(from)
        } else {
            self.key_index(key, from + 1)
        }
    }

    /// The place at or after `from` of the action declared under `key`, if
    /// there is one.
    fn find_key(&self, key: &String, from: usize) -> (place: Option<usize>)
        ensures
            match place {
                Some(i) => self.key_index(key@, from as int) == Some(i as int) && from <= i
                    < self.actions@.len(),
                None => self.key_index(key@, from as int) is None,
            },
    {
        let mut i: usize = from;
        while i < self.actions.len()
            invariant
                from <= i,
                self.key_index(key@, from as int) == self.key_index(key@, i as int),
            decreases self.actions@.len() - i,
        {
            if self.actions[i].0 == *key {
                return Some(i);
            }
            i += 1;
        }
        None
    }

    /// The action declared under `key`, if there is one.
    pub fn get_action(&self, key: &String) -> (action: Option<&Action>)
        ensures
            match action {
                Some(a) => match self.key_index(key@, 0) {
                    Some(i) => *a == self.actions@[i].1,
                    None => false,
                },
                None => self.key_index(key@, 0) is None,
            },
    {
        match self.find_key(key, 0) {
            Some(i) => Some(&self.actions[i].1),
            None => None,
        }
    }

    /// Whether the definition is well formed.
    pub fn is_wf(&self) -> (ok: bool)
        ensures
            ok == self.wf(),
    {
        if self.actions.len() > 0xffff_ffff {
            return false;
        }
        let mut i: usize = 0;
        while i < self.actions.len()
            invariant
                i <= self.actions@.len(),
                forall|a: int, b: int|
                    0 <= a < b < self.actions@.len() && a < i ==> (#[trigger] self.actions@[a]).0@
                        != (#[trigger] self.actions@[b]).0@,
            decreases self.actions@.len() - i,
        {
            let later = self.find_key(&self.actions[i].0, i + 1);
            proof {
                lemma_key_index(self, self.actions@[i as int].0@, i + 1);
            }
            if later.is_some() {
                return false;
            }
            i += 1;
        }
        true
    }
}

/// Where the search for a key from `from` on finds it, it stands there; where
/// it finds none, the key stands nowhere from `from` on.
pub proof fn lemma_key_index(cfg: &Config, key: Seq<char>, from: int)
    requires
        0 <= from,
    ensures
        match cfg.key_index(key, from) {
            Some(i) => from <= i < cfg.actions@.len() && cfg.actions@[i].0@ == key && forall|j: int|
                from <= j < i ==> (#[trigger] cfg.actions@[j]).0@ != key,
            None => forall|j: int|
                from <= j < cfg.actions@.len() ==> (#[trigger] cfg.actions@[j]).0@ != key,
        },
    decreases cfg.actions@.len() - from,
{
    if from < cfg.actions@.len() && cfg.actions@[from].0@ != key {
        lemma_key_index(cfg, key, from + 1);
    }
}

impl AppOsName {
    /// The process name on `os`, if the definition has one.
    pub open spec fn spec_for_os(&self, os: Os) -> Option<String> {
        match os {
            Os::Windows => self.windows,
            Os::Mac => self.macos,
            Os::Linux => self.linux,
        }
    }

    /// The process name on `os`, if the definition has one.
    pub fn for_os(&self, os: &Os) -> (name: Option<&String>)
        ensures
            match name {
                Some(n) => self.spec_for_os(*os) == Some(*n),
                None => self.spec_for_os(*os) is None,
            },
    {
        match os {
            Os::Windows => self.windows.as_ref(),
            Os::Mac => self.macos.as_ref(),
            Os::Linux => self.linux.as_ref(),
        }
    }
}

impl CmdByOs {
    /// The key chord on `os`, if the definition has one.
    pub open spec fn spec_for_os(&self, os: Os) -> Option<KeyChord> {
        match os {
            Os::Windows => self.windows,
            Os::Mac => self.macos,
            Os::Linux => self.linux,
        }
    }

    /// The key chord on `os`, if the definition has one.
    pub fn for_os(&self, os: &Os) -> (chord: Option<&KeyChord>)
        ensures
            match chord {
                Some(c) => self.spec_for_os(*os) == Some(*c),
                None => self.spec_for_os(*os) is None,
            },
    {
        match os {
            Os::Windows => self.windows.as_ref(),
            Os::Mac => self.macos.as_ref(),
            Os::Linux => self.linux.as_ref(),
        }
    }
}

impl KeyChord {
    /// The chord in the key model: a modifier is held where the list names it.
    /// `Cmd` and `Fn` have no place in the model.
    pub open spec fn spec_shortcut(&self) -> KeyboardShortcut {
        KeyboardShortcut {
            modifier: HotkeyModifiers {
                control: self.mods@.contains(Modifier::Ctrl),
                shift: self.mods@.contains(Modifier::Shift),
                alt: self.mods@.contains(Modifier::Alt),
                win: self.mods@.contains(Modifier::Win),
            },
            key: self.key,
        }
    }

    /// Whether the list of modifiers names `m`.
    pub fn has_modifier(&self, m: Modifier) -> (named: bool)
        ensures
            named == self.mods@.contains(m),
    {
        let mut i: usize = 0;
        while i < self.mods.len()
            invariant
                i <= self.mods@.len(),
                forall|j: int| 0 <= j < i ==> self.mods@[j] != m,
            decreases self.mods@.len() - i,
        {
            if self.mods[i] == m {
                return true;
            }
            i += 1;
        }
        false
    }

    /// The chord in the key model.
    pub fn shortcut(&self) -> (chord: KeyboardShortcut)
        ensures
            chord == self.spec_shortcut(),
    {
        KeyboardShortcut {
            modifier: HotkeyModifiers {
                control: self.has_modifier(Modifier::Ctrl),
                shift: self.has_modifier(Modifier::Shift),
                alt: self.has_modifier(Modifier::Alt),
                win: self.has_modifier(Modifier::Win),
            },
            key: self.key,
        }
    }
}

} // verus!
