use crate::hotkey::KeyboardShortcut;
use vstd::prelude::*;

verus! {

/// The most rows of results that the palette shows.
pub const MAX_VISIBLE: usize = 8;

/// What running a command does.
#[derive(Debug, Clone)]
pub enum CommandEffect {
    /// Sends a key chord to the application.
    EmitKeyChord(KeyboardShortcut),
    /// Runs an external command.
    RunExternal(String),
}

/// One entry of the palette.
#[derive(Debug, Clone)]
pub struct Command {
    pub label: String,
    pub action: CommandEffect,
}

/// The state of the command palette.
#[derive(Debug)]
pub struct CommandPaletteApp {
    /// What the user has typed.
    pub filter_text: String,
    /// Every command that there is.
    pub all_commands: Vec<Command>,
    /// The places in `all_commands` of the commands that match the text.
    pub filtered_indices: Vec<usize>,
    /// The highlighted row among the results.
    pub selected_index: usize,
    /// Whether the palette is on screen.
    pub is_open: bool,
}

/// A signal from the rest of the program to the palette.
#[derive(Debug, Clone, Copy, PartialEq, Eq, Structural)]
pub enum UiSignal {
    ToggleVisibility,
}

/// A key that the palette acts on while it is open.
#[derive(Debug, Clone, Copy, PartialEq, Eq, Structural)]
pub enum PaletteKey {
    Escape,
    ArrowDown,
    ArrowUp,
    Enter,
}

/// What the window has to do after the palette took an input.
#[derive(Debug, Clone, Copy, PartialEq, Eq, Structural)]
pub enum PaletteEffect {
    /// Nothing.
    Nothing,
    /// Show the window and give it the focus.
    Show,
    /// Hide the window.
    Hide,
    /// Run the command at this place in `all_commands`, and hide the window.
    Run(usize),
}

/// The part of the palette's state that inputs change, with the results as
/// they stand.
pub struct PaletteView {
    pub filter_text: Seq<char>,
    pub filtered_indices: Seq<usize>,
    pub selected_index: usize,
    pub is_open: bool,
}

impl View for CommandPaletteApp {
    type V = PaletteView;

    open spec fn view(&self) -> PaletteView {
        PaletteView {
            filter_text: self.filter_text@,
            filtered_indices: self.filtered_indices@,
            selected_index: self.selected_index,
            is_open: self.is_open,
        }
    }
}

impl PaletteView {
    /// The number of rows on screen.
    pub open spec fn visible_count(self) -> int {
        if self.filtered_indices.len() < MAX_VISIBLE {
            self.filtered_indices.len() as int
        } else {
            MAX_VISIBLE as int
        }
    }

    /// The palette hidden, all else unchanged.
    pub open spec fn closed(self) -> PaletteView {
        PaletteView { is_open: false, ..self }
    }

    /// The state and the effect after a signal: the palette opens with an
    /// empty text and the first row highlighted, or closes.
    pub open spec fn after_signal(self, signal: UiSignal) -> (PaletteView, PaletteEffect) {
        if self.is_open {
            (self.closed(), PaletteEffect::Hide)
        } else {
            (
                PaletteView {
                    filter_text: Seq::empty(),
                    selected_index: 0,
                    is_open: true,
                    ..self
                },
                PaletteEffect::Show,
            )
        }
    }

    /// The state and the effect after a key. A closed palette takes no key.
    /// Escape closes. The arrows move the highlight within the rows on screen.
    /// Enter runs the highlighted command, if there is one, and closes.
    pub open spec fn after_key(self, key: PaletteKey) -> (PaletteView, PaletteEffect) {
        if !self.is_open {
            (self, PaletteEffect::Nothing)
        } else {
            match key {
                PaletteKey::Escape => (self.closed(), PaletteEffect::Hide),
                PaletteKey::ArrowDown => if self.selected_index + 1 < self.visible_count() {
                    (
                        PaletteView { selected_index: (self.selected_index + 1) as usize, ..self },
                        PaletteEffect::Nothing,
                    )
                } else {
                    (self, PaletteEffect::Nothing)
                },
                PaletteKey::ArrowUp => if self.visible_count() > 0 && self.selected_index > 0 {
                    (
                        PaletteView { selected_index: (self.selected_index - 1) as usize, ..self },
                        PaletteEffect::Nothing,
                    )
                } else {
                    (self, PaletteEffect::Nothing)
                },
                PaletteKey::Enter => if self.selected_index < self.filtered_indices.len() {
                    (
                        self.closed(),
                        PaletteEffect::Run(self.filtered_indices[self.selected_index as int]),
                    )
                } else {
                    (self, PaletteEffect::Nothing)
                },
            }
        }
    }

    /// The state and the effect after a click on the row `row` on screen.
    pub open spec fn after_click(self, row: usize) -> (PaletteView, PaletteEffect) {
        if self.is_open && row < self.visible_count() {
            (
                PaletteView { selected_index: row, is_open: false, ..self },
                PaletteEffect::Run(self.filtered_indices[row as int]),
            )
        } else {
            (self, PaletteEffect::Nothing)
        }
    }
}

impl CommandPaletteApp {
    /// Every result is the place of a command.
    pub open spec fn wf(&self) -> bool {
        forall|i: int|
            0 <= i < self.filtered_indices@.len() ==> #[trigger] self.filtered_indices@[i]
                < self.all_commands@.len()
    }

    /// The palette over `all_commands`: open, with no text and no results.
    pub fn new(all_commands: Vec<Command>) -> (palette: Self)
        ensures
            palette.wf(),
            palette.all_commands == all_commands,
            palette@ == (PaletteView {
                filter_text: Seq::empty(),
                filtered_indices: Seq::empty(),
                selected_index: 0,
                is_open: true,
            }),
    {
        CommandPaletteApp {
            filter_text: String::new(),
            all_commands,
            filtered_indices: Vec::new(),
            selected_index: 0,
            is_open: true,
        }
    }

    /// The number of rows on screen.
    pub fn visible_count(&self) -> (n: usize)
        ensures
            n == self@.visible_count(),
    {
        if self.filtered_indices.len() < MAX_VISIBLE {
            self.filtered_indices.len()
        } else {
            MAX_VISIBLE
        }
    }

    /// Takes a signal.
    pub fn handle_signal(&mut self, signal: UiSignal) -> (effect: PaletteEffect)
        ensures
            (final(self)@, effect) == old(self)@.after_signal(signal),
            final(self).all_commands == old(self).all_commands,
            old(self).wf() ==> final(self).wf(),
    {
        if self.is_open {
            self.is_open = false;
            PaletteEffect::Hide
        } else {
            self.is_open = true;
            self.filter_text = String::new();
            self.selected_index = 0;
            PaletteEffect::Show
        }
    }

    /// Takes a key.
    pub fn handle_key(&mut self, key: PaletteKey) -> (effect: PaletteEffect)
        ensures
            (final(self)@, effect) == old(self)@.after_key(key),
            final(self).all_commands == old(self).all_commands,
            old(self).wf() ==> final(self).wf(),
            old(self).wf() ==> match effect {
                PaletteEffect::Run(place) => place < old(self).all_commands@.len(),
                _ => true,
            },
    {
        if !self.is_open {
            return PaletteEffect::Nothing;
        }
        let visible = self.visible_count();
        match key {
            PaletteKey::Escape => {
                self.is_open = false;
                PaletteEffect::Hide
            },
            PaletteKey::ArrowDown => {
                if self.selected_index < visible && self.selected_index + 1 < visible {
                    self.selected_index = self.selected_index + 1;
                }
                PaletteEffect::Nothing
            },
            PaletteKey::ArrowUp => {
                if visible > 0 && self.selected_index > 0 {
                    self.selected_index = self.selected_index - 1;
                }
                PaletteEffect::Nothing
            },
            PaletteKey::Enter => {
                if self.selected_index < self.filtered_indices.len() {
                    let place = self.filtered_indices[self.selected_index];
                    self.is_open = false;
                    PaletteEffect::Run(place)
                } else {
                    PaletteEffect::Nothing
                }
            },
        }
    }

    /// Takes a click on the row `row` on screen.
    pub fn handle_click(&mut self, row: usize) -> (effect: PaletteEffect)
        ensures
            (final(self)@, effect) == old(self)@.after_click(row),
            final(self).all_commands == old(self).all_commands,
            old(self).wf() ==> final(self).wf(),
    {
        if self.is_open && row < self.visible_count() {
            let place = self.filtered_indices[row];
            self.selected_index = row;
            self.is_open = false;
            PaletteEffect::Run(place)
        } else {
            PaletteEffect::Nothing
        }
    }

    /// The text changed: the highlight returns to the first row.
    pub fn text_changed(&mut self, text: String)
        ensures
            final(self)@ == (PaletteView {
                filter_text: text@,
                selected_index: 0,
                ..old(self)@
            }),
            final(self).all_commands == old(self).all_commands,
            old(self).wf() ==> final(self).wf(),
    {
        self.filter_text = text;
        self.selected_index = 0;
    }
}

/// While the palette is open with the highlight on a row on screen, the arrows
/// keep it on a row on screen.
pub proof fn law_highlight_stays_on_screen(palette: PaletteView, key: PaletteKey)
    requires
        palette.selected_index < palette.visible_count(),
        key == PaletteKey::ArrowDown || key == PaletteKey::ArrowUp,
    ensures
        palette.after_key(key).0.selected_index < palette.after_key(key).0.visible_count(),
        palette.after_key(key).0.visible_count() == palette.visible_count(),
{
}

/// A closed palette runs nothing, whatever key or click comes.
pub proof fn law_closed_palette_runs_nothing(palette: PaletteView, key: PaletteKey, row: usize)
    requires
        !palette.is_open,
    ensures
        palette.after_key(key) == (palette, PaletteEffect::Nothing),
        palette.after_click(row) == (palette, PaletteEffect::Nothing),
{
}

} // verus!
