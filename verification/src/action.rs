use crate::hotkey::KeyboardShortcut;
use vstd::prelude::*;

verus! {

/// Identifies an application: a hash of the name that its definition
/// declares.
pub type ApplicationID = u32;

/// The display name of an application.
pub type AppName = String;

/// The name of the process that runs an application.
pub type AppProcessName = String;

/// Identifies an action within its application.
pub type ActionId = u32;

/// The display name of an action.
pub type ActionName = String;

/// When an action is on offer.
#[derive(Debug, Clone, Copy, PartialEq, Eq, Hash, Structural)]
pub enum FocusState {
    /// While a window of the application is the active one.
    Focused,
    /// While the application runs behind other windows.
    Background,
    /// Always.
    Global,
}

/// The operating systems that a definition can bind to.
#[derive(Debug, Clone, Copy, PartialEq, Eq, Hash, Structural)]
pub enum Os {
    Windows,
    Mac,
    Linux,
}

impl Os {
    /// The operating system that the standard library names `name`, if it is
    /// one of the three.
    pub open spec fn spec_from_name(name: Seq<char>) -> Option<Os> {
        if name == "windows"@ {
            Some(Os::Windows)
        } else if name == "macos"@ {
            Some(Os::Mac)
        } else if name == "linux"@ {
            Some(Os::Linux)
        } else {
            None
        }
    }

    /// The operating system that the standard library names `name`, if it is
    /// one of the three.
    pub fn from_name(name: &str) -> (os: Option<Os>)
        ensures
            os == Os::spec_from_name(name@),
    {
        let name = name.to_owned();
        if name == "windows".to_owned() {
            Some(Os::Windows)
        } else if name == "macos".to_owned() {
            Some(Os::Mac)
        } else if name == "linux".to_owned() {
            Some(Os::Linux)
        } else {
            None
        }
    }
}

/// Who gets a key chord first, from the strongest claim to the weakest.
#[derive(Debug, Clone, Copy, PartialEq, Eq, Hash, Structural)]
pub enum Priority {
    /// Cannot be intercepted.
    OSReserved,
    /// Tools that remap keys for the whole desktop.
    GlobalRemapper,
    /// Hotkeys registered with the operating system.
    OSGlobal,
    /// The user's own overrides.
    UserOverrides,
    /// The shortcuts of the focused application.
    Application,
    /// Plugins and extensions of an application.
    ApplicationExtensions,
    /// Handlers of a web page or a document.
    DocumentOrWebApp,
}

impl Priority {
    /// The rank as a number: a higher one wins.
    pub open spec fn spec_level(self) -> u8 {
        match self {
            Priority::OSReserved => 100,
            Priority::GlobalRemapper => 90,
            Priority::OSGlobal => 80,
            Priority::UserOverrides => 70,
            Priority::Application => 60,
            Priority::ApplicationExtensions => 50,
            Priority::DocumentOrWebApp => 40,
        }
    }

    /// The rank as a number: a higher one wins.
    pub fn level(&self) -> (n: u8)
        ensures
            n == self.spec_level(),
    {
        match self {
            Priority::OSReserved => 100,
            Priority::GlobalRemapper => 90,
            Priority::OSGlobal => 80,
            Priority::UserOverrides => 70,
            Priority::Application => 60,
            Priority::ApplicationExtensions => 50,
            Priority::DocumentOrWebApp => 40,
        }
    }
}

/// A named operation of an application, bound to a key chord.
#[derive(Debug, Clone, Hash)]
pub struct Action {
    pub name: ActionName,
    pub keyboard_shortcut: KeyboardShortcut,
    pub focus_state: FocusState,
}

/// The mathematical content of an `Action`.
pub struct ActionView {
    pub name: Seq<char>,
    pub keyboard_shortcut: KeyboardShortcut,
    pub focus_state: FocusState,
}

impl View for Action {
    type V = ActionView;

    open spec fn view(&self) -> ActionView {
        ActionView {
            name: self.name@,
            keyboard_shortcut: self.keyboard_shortcut,
            focus_state: self.focus_state,
        }
    }
}

/// One window of the desktop, as far as resolution reads it: the name of the
/// process that owns it, where the platform could tell.
#[derive(Debug, Clone, Hash)]
pub struct WindowContext {
    pub process_name: Option<AppProcessName>,
}

impl WindowContext {
    /// The process name as a sequence of characters.
    pub open spec fn spec_process_name(&self) -> Option<Seq<char>> {
        match self.process_name {
            Some(name) => Some(name@),
            None => None,
        }
    }
}

/// The windows of the desktop at one moment.
#[derive(Debug, Clone, Hash)]
pub struct ContextRoot {
    /// The visible windows; the first is the active one.
    pub fg_context: Vec<WindowContext>,
    /// The other windows, in no particular order.
    pub bg_context: Vec<WindowContext>,
}

impl ContextRoot {
    /// The active window: the first of the foreground, if there is one.
    pub open spec fn spec_active(&self) -> Option<WindowContext> {
        if self.fg_context@.len() > 0 {
            Some(self.fg_context@[0])
        } else {
            None
        }
    }

    /// The active window: the first of the foreground, if there is one.
    pub fn get_active(&self) -> (active: Option<&WindowContext>)
        ensures
            match active {
                Some(w) => self.spec_active() == Some(*w),
                None => self.spec_active() is None,
            },
    {
        if self.fg_context.len() > 0 {
            Some(&self.fg_context[0])
        } else {
            None
        }
    }
}

/// Something that can list the names it stands for.
pub trait ContextExt {
    /// The names, in the order in which the thing holds them.
    fn get_all_names(&self) -> Vec<String>;
}

} // verus!
