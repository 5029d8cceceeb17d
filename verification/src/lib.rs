//! Command resolution for a desktop command palette.
//!
//! - `hotkey`: keys, modifier sets and key chords.
//! - `config`: the definition of an application, as its file declares it.
//! - `action`: actions, focus states and the windows of the desktop.
//! - `registry`: loading definitions, the registry of applications, and the
//!   actions that a set of windows offers.
//! - `search`: the fuzzy matcher that ranks labels against typed text.
//! - `mapper`: the key codes and modifier masks of Windows.
//! - `listener`: the protocol of the global hotkey listener.
//! - `palette`: the state of the palette window.
//! - `platform`: what the library asks of the platform's windows.

pub mod action;
pub mod config;
pub mod hotkey;
pub mod listener;
pub mod mapper;
pub mod palette;
pub mod platform;
pub mod registry;
pub mod search;
