use crate::action::{AppProcessName, WindowContext};
use vstd::prelude::*;

verus! {

/// Whether a window counts as one of the foreground: it is visible, not
/// cloaked, and has a title.
pub open spec fn spec_is_foreground(visible: bool, cloaked: bool, title_len: int) -> bool {
    visible && !cloaked && title_len > 0
}

/// Whether a window counts as one of the foreground, from what the platform
/// reports of it; `title_len` is the length of its title.
pub fn is_foreground(visible: bool, cloaked: bool, title_len: i32) -> (foreground: bool)
    ensures
        foreground == spec_is_foreground(visible, cloaked, title_len as int),
{
    visible && !cloaked && title_len > 0
}

/// What resolution asks of a window.
pub trait RawWindowHandleExt {
    /// The name of the process that owns the window, where it is known.
    fn get_app_process_name(&self) -> Option<AppProcessName>;
}

impl RawWindowHandleExt for WindowContext {
    fn get_app_process_name(&self) -> (name: Option<AppProcessName>)
        ensures
            match name {
                Some(n) => self.spec_process_name() == Some(n@),
                None => self.spec_process_name() is None,
            },
    {
        match &self.process_name {
            Some(n) => Some(n.clone()),
            None => None,
        }
    }
}

} // verus!
