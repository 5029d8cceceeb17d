use command_palette::hotkey::{HotkeyModifiers, Key, KeyboardShortcut};
use command_palette::palette::{
    Command, CommandEffect, CommandPaletteApp, PaletteEffect, PaletteKey, UiSignal,
};

fn commands(n: usize) -> Vec<Command> {
    (0..n)
        .map(|i| Command {
            label: format!("command {i}"),
            action: if i % 2 == 0 {
                CommandEffect::RunExternal(format!("run {i}"))
            } else {
                CommandEffect::EmitKeyChord(KeyboardShortcut {
                    modifier: HotkeyModifiers::default(),
                    key: Key::F1,
                })
            },
        })
        .collect()
}

fn palette_with_results(n: usize, results: Vec<usize>) -> CommandPaletteApp {
    let mut p = CommandPaletteApp::new(commands(n));
    p.filtered_indices = results;
    p
}

#[test]
fn new_palette_is_open_and_empty() {
    let p = CommandPaletteApp::new(commands(3));
    assert!(p.is_open);
    assert_eq!(p.filter_text, "");
    assert!(p.filtered_indices.is_empty());
    assert_eq!(p.selected_index, 0);
    assert_eq!(p.all_commands.len(), 3);
    assert_eq!(p.visible_count(), 0);
}

#[test]
fn toggle_closes_and_opens_afresh() {
    let mut p = palette_with_results(3, vec![2, 0]);
    p.text_changed("co".to_string());
    p.selected_index = 1;
    assert_eq!(p.handle_signal(UiSignal::ToggleVisibility), PaletteEffect::Hide);
    assert!(!p.is_open);
    assert_eq!(p.filter_text, "co");
    assert_eq!(p.selected_index, 1);
    assert_eq!(p.handle_signal(UiSignal::ToggleVisibility), PaletteEffect::Show);
    assert!(p.is_open);
    assert_eq!(p.filter_text, "");
    assert_eq!(p.selected_index, 0);
    assert_eq!(p.filtered_indices, vec![2, 0]);
}

#[test]
fn arrows_move_within_the_rows_on_screen() {
    let mut p = palette_with_results(12, (0..12).collect());
    assert_eq!(p.visible_count(), 8);
    assert_eq!(p.handle_key(PaletteKey::ArrowUp), PaletteEffect::Nothing);
    assert_eq!(p.selected_index, 0);
    for expected in 1..8 {
        assert_eq!(p.handle_key(PaletteKey::ArrowDown), PaletteEffect::Nothing);
        assert_eq!(p.selected_index, expected);
    }
    p.handle_key(PaletteKey::ArrowDown);
    assert_eq!(p.selected_index, 7);
    p.handle_key(PaletteKey::ArrowUp);
    assert_eq!(p.selected_index, 6);
    let mut none = palette_with_results(3, vec![]);
    none.handle_key(PaletteKey::ArrowDown);
    assert_eq!(none.selected_index, 0);
}

#[test]
fn enter_runs_the_highlighted_command_and_closes() {
    let mut p = palette_with_results(5, vec![4, 1, 3]);
    p.handle_key(PaletteKey::ArrowDown);
    assert_eq!(p.handle_key(PaletteKey::Enter), PaletteEffect::Run(1));
    assert!(!p.is_open);
    assert_eq!(p.handle_key(PaletteKey::Enter), PaletteEffect::Nothing);
    let mut empty = palette_with_results(5, vec![]);
    assert_eq!(empty.handle_key(PaletteKey::Enter), PaletteEffect::Nothing);
    assert!(empty.is_open);
}

#[test]
fn escape_closes() {
    let mut p = palette_with_results(2, vec![1]);
    assert_eq!(p.handle_key(PaletteKey::Escape), PaletteEffect::Hide);
    assert!(!p.is_open);
    assert_eq!(p.handle_key(PaletteKey::Escape), PaletteEffect::Nothing);
    assert_eq!(p.handle_key(PaletteKey::ArrowDown), PaletteEffect::Nothing);
}

#[test]
fn click_runs_the_row_and_closes() {
    let mut p = palette_with_results(12, (0..12).rev().collect());
    assert_eq!(p.handle_click(8), PaletteEffect::Nothing);
    assert!(p.is_open);
    assert_eq!(p.handle_click(2), PaletteEffect::Run(9));
    assert_eq!(p.selected_index, 2);
    assert!(!p.is_open);
    assert_eq!(p.handle_click(2), PaletteEffect::Nothing);
}

#[test]
fn text_change_returns_to_the_first_row() {
    let mut p = palette_with_results(4, vec![0, 1, 2]);
    p.handle_key(PaletteKey::ArrowDown);
    p.text_changed("new".to_string());
    assert_eq!(p.filter_text, "new");
    assert_eq!(p.selected_index, 0);
    assert_eq!(p.filtered_indices, vec![0, 1, 2]);
}
