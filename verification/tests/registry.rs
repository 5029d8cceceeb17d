use command_palette::action::{ContextRoot, FocusState, Os, Priority, WindowContext};
use command_palette::config::{
    Action as ActionDef, App, AppOsName, CmdByOs, Config, KeyChord, Modifier,
    Priority as DeclaredPriority,
};
use command_palette::hotkey::{HotkeyModifiers, Key, KeyboardShortcut};
use command_palette::platform::{is_foreground, RawWindowHandleExt};
use command_palette::registry::{
    application_id, definition_error, find_skipped_actions, is_definition_extension,
    Application, DefinitionSource, LoadError, MasterRegistry,
};

fn chord(mods: Vec<Modifier>, key: Key) -> KeyChord {
    KeyChord { mods, key }
}

fn windows_only(c: KeyChord) -> CmdByOs {
    CmdByOs { windows: Some(c), macos: None, linux: None }
}

fn action(name: &str, focus: Option<FocusState>, cmd: CmdByOs) -> ActionDef {
    ActionDef { name: name.to_string(), focus_state: focus, cmd }
}

fn definition(
    id: &str,
    name: &str,
    process: Option<&str>,
    default_focus: Option<FocusState>,
    actions: Vec<(String, ActionDef)>,
) -> Config {
    Config {
        version: 1,
        app: App {
            id: id.to_string(),
            name: name.to_string(),
            default_focus_state: default_focus,
            default_priority: DeclaredPriority::Application,
            application_os_name: AppOsName {
                windows: process.map(|p| p.to_string()),
                macos: None,
                linux: None,
            },
        },
        actions,
    }
}

fn x_definition() -> Config {
    definition(
        "x",
        "X",
        Some("x.exe"),
        None,
        vec![
            (
                "sync".to_string(),
                action(
                    "Sync",
                    Some(FocusState::Background),
                    windows_only(chord(vec![Modifier::Ctrl], Key::KeyS)),
                ),
            ),
            (
                "new_tab".to_string(),
                action(
                    "New tab",
                    Some(FocusState::Focused),
                    windows_only(chord(vec![Modifier::Ctrl, Modifier::Shift], Key::KeyT)),
                ),
            ),
        ],
    )
}

fn window(process: &str) -> WindowContext {
    WindowContext { process_name: Some(process.to_string()) }
}

#[test]
fn definition_loads_with_every_resolvable_action() {
    let cfg = x_definition();
    let app = Application::new(&cfg, &Os::Windows).expect("loads");
    assert_eq!(app.name(), "X");
    assert_eq!(app.process_name(), "x.exe");
    assert_eq!(app.action_count(), 2);
    let first = app.get_action(&0).expect("action 0");
    assert_eq!(first.name, "Sync");
    assert_eq!(first.focus_state, FocusState::Background);
    assert_eq!(
        first.keyboard_shortcut,
        KeyboardShortcut {
            modifier: HotkeyModifiers { control: true, shift: false, alt: false, win: false },
            key: Key::KeyS,
        }
    );
    let second = app.get_action(&1).expect("action 1");
    assert_eq!(second.name, "New tab");
    assert_eq!(
        second.keyboard_shortcut,
        KeyboardShortcut {
            modifier: HotkeyModifiers { control: true, shift: true, alt: false, win: false },
            key: Key::KeyT,
        }
    );
    assert!(app.get_action(&2).is_none());
}

#[test]
fn definition_without_process_name_for_the_os_fails() {
    let cfg = x_definition();
    let err = Application::new(&cfg, &Os::Linux).expect_err("no linux name");
    assert_eq!(err, "No OS app name");
    assert_eq!(err, LoadError::MissingOsBinding.message());
    let mac = Application::new(&cfg, &Os::Mac).expect_err("no mac name");
    assert_eq!(mac, "No OS app name");
}

#[test]
fn load_error_messages() {
    assert_eq!(LoadError::MissingOsBinding.message(), "No OS app name");
    assert_eq!(LoadError::MissingActionBinding(Os::Windows).message(), "No Windows action");
    assert_eq!(LoadError::MissingActionBinding(Os::Mac).message(), "No Mac action");
    assert_eq!(LoadError::MissingActionBinding(Os::Linux).message(), "No Linux action");
    assert_eq!(LoadError::MissingFocusState.message(), "No Focus state found");
}

#[test]
fn action_without_chord_for_the_os_is_skipped() {
    let mut cfg = x_definition();
    cfg.actions.insert(
        1,
        (
            "mac_only".to_string(),
            action(
                "Mac only",
                Some(FocusState::Focused),
                CmdByOs {
                    windows: None,
                    macos: Some(chord(vec![Modifier::Cmd], Key::KeyM)),
                    linux: None,
                },
            ),
        ),
    );
    let app = Application::new(&cfg, &Os::Windows).expect("loads");
    assert_eq!(app.action_count(), 2);
    assert_eq!(app.get_action(&0).expect("0").name, "Sync");
    assert_eq!(app.get_action(&1).expect("1").name, "New tab");
}

#[test]
fn action_without_any_focus_state_is_skipped() {
    let mut cfg = x_definition();
    cfg.actions.push((
        "plain".to_string(),
        action("Plain", None, windows_only(chord(vec![], Key::F5))),
    ));
    let app = Application::new(&cfg, &Os::Windows).expect("loads");
    assert_eq!(app.action_count(), 2);
    let one = command_palette::registry::resolve_one(
        &cfg.actions[2].1,
        &cfg.app.default_focus_state,
        &Os::Windows,
    );
    assert_eq!(one.expect_err("no focus state"), LoadError::MissingFocusState);
    let unbound = command_palette::registry::resolve_one(
        &cfg.actions[2].1,
        &Some(FocusState::Global),
        &Os::Mac,
    );
    assert_eq!(unbound.expect_err("no chord"), LoadError::MissingActionBinding(Os::Mac));
}

#[test]
fn default_focus_state_applies_where_the_action_has_none() {
    let mut cfg = x_definition();
    cfg.app.default_focus_state = Some(FocusState::Global);
    cfg.actions.push((
        "plain".to_string(),
        action("Plain", None, windows_only(chord(vec![Modifier::Alt, Modifier::Win], Key::F5))),
    ));
    let app = Application::new(&cfg, &Os::Windows).expect("loads");
    assert_eq!(app.action_count(), 3);
    assert_eq!(app.get_action(&0).expect("0").focus_state, FocusState::Background);
    let plain = app.get_action(&2).expect("2");
    assert_eq!(plain.focus_state, FocusState::Global);
    assert_eq!(
        plain.keyboard_shortcut.modifier,
        HotkeyModifiers { control: false, shift: false, alt: true, win: true }
    );
}

#[test]
fn cmd_and_fn_modifiers_hold_nothing() {
    let c = chord(vec![Modifier::Cmd, Modifier::Fn], Key::KeyT);
    assert_eq!(c.shortcut().modifier, HotkeyModifiers::default());
    assert!(c.has_modifier(Modifier::Cmd));
    assert!(!c.has_modifier(Modifier::Ctrl));
}

#[test]
fn build_of_one_definition_gives_one_application() {
    let sources = vec![DefinitionSource::Definition(x_definition())];
    let registry = MasterRegistry::build(&sources, Os::Windows);
    assert_eq!(registry.application_registry.len(), 1);
    assert_eq!(registry.application_registry[0].0, application_id("x"));
    assert_eq!(registry.application_registry[0].1.action_count(), 2);
    assert_eq!(registry.application_process_name_id.len(), 1);
    assert_eq!(
        registry.application_process_name_id[0],
        ("x.exe".to_string(), application_id("x"))
    );
}

#[test]
fn build_skips_definition_without_process_name() {
    let sources = vec![
        DefinitionSource::Definition(definition("y", "Y", None, None, vec![])),
        DefinitionSource::Skipped,
        DefinitionSource::Definition(x_definition()),
    ];
    let registry = MasterRegistry::build(&sources, Os::Windows);
    assert_eq!(registry.application_registry.len(), 1);
    assert_eq!(registry.application_registry[0].0, application_id("x"));
    assert_eq!(registry.application_registry[0].1.name(), "X");
    assert_eq!(
        registry.application_process_name_id,
        vec![("x.exe".to_string(), application_id("x"))]
    );
}

#[test]
fn build_of_nothing_is_empty() {
    let registry = MasterRegistry::build(&vec![], Os::Windows);
    assert!(registry.application_registry.is_empty());
    assert!(registry.application_process_name_id.is_empty());
    let default = MasterRegistry::default();
    assert!(default.application_registry.is_empty());
    assert!(default.application_process_name_id.is_empty());
}

#[test]
fn build_twice_gives_the_same_content() {
    let sources = vec![
        DefinitionSource::Definition(x_definition()),
        DefinitionSource::Definition(definition("z", "Z", Some("z.exe"), None, vec![])),
    ];
    let a = MasterRegistry::build(&sources, Os::Windows);
    let b = MasterRegistry::build(&sources, Os::Windows);
    assert_eq!(a.application_registry.len(), b.application_registry.len());
    for (x, y) in a.application_registry.iter().zip(b.application_registry.iter()) {
        assert_eq!(x.0, y.0);
        assert_eq!(x.1.name(), y.1.name());
        assert_eq!(x.1.process_name(), y.1.process_name());
        assert_eq!(x.1.action_count(), y.1.action_count());
        for id in 0..x.1.action_count() {
            let p = x.1.get_action(&(id as u32)).expect("action");
            let q = y.1.get_action(&(id as u32)).expect("action");
            assert_eq!(p.name, q.name);
            assert_eq!(p.keyboard_shortcut, q.keyboard_shortcut);
            assert_eq!(p.focus_state, q.focus_state);
        }
    }
    assert_eq!(a.application_process_name_id, b.application_process_name_id);
}

#[test]
fn later_application_wins_a_process_name() {
    let second = definition(
        "x2",
        "X again",
        Some("x.exe"),
        Some(FocusState::Focused),
        vec![(
            "only".to_string(),
            action("Only", None, windows_only(chord(vec![], Key::F1))),
        )],
    );
    let sources = vec![
        DefinitionSource::Definition(x_definition()),
        DefinitionSource::Definition(second),
    ];
    let registry = MasterRegistry::build(&sources, Os::Windows);
    assert_eq!(registry.application_registry.len(), 2);
    assert_eq!(
        registry.application_process_name_id,
        vec![("x.exe".to_string(), application_id("x2"))]
    );
    let owner = registry.owner(&window("x.exe")).expect("owner");
    assert_eq!(owner.name(), "X again");
    let context = ContextRoot { fg_context: vec![window("x.exe")], bg_context: vec![] };
    let actions = registry.get_actions(&context);
    assert_eq!(actions.len(), 1);
    assert_eq!(actions[0].app_name, "X again");
    assert_eq!(actions[0].action_name, "Only");
}

#[test]
fn background_window_offers_only_background_actions() {
    let registry =
        MasterRegistry::build(&vec![DefinitionSource::Definition(x_definition())], Os::Windows);
    let context = ContextRoot { fg_context: vec![], bg_context: vec![window("x.exe")] };
    let actions = registry.get_actions(&context);
    assert_eq!(actions.len(), 1);
    assert_eq!(actions[0].app_name, "X");
    assert_eq!(actions[0].action_id, 0);
    assert_eq!(actions[0].action_name, "Sync");
    assert_eq!(actions[0].focus_state, FocusState::Background);
    assert_eq!(actions[0].keyboard_shortcut.key, Key::KeyS);
}

#[test]
fn active_window_offers_only_focused_actions_tagged_focused() {
    let registry =
        MasterRegistry::build(&vec![DefinitionSource::Definition(x_definition())], Os::Windows);
    let context = ContextRoot { fg_context: vec![window("x.exe")], bg_context: vec![] };
    let actions = registry.get_actions(&context);
    assert_eq!(actions.len(), 1);
    assert_eq!(actions[0].action_id, 1);
    assert_eq!(actions[0].action_name, "New tab");
    assert_eq!(actions[0].focus_state, FocusState::Focused);
    assert_eq!(
        actions[0].keyboard_shortcut,
        KeyboardShortcut {
            modifier: HotkeyModifiers { control: true, shift: true, alt: false, win: false },
            key: Key::KeyT,
        }
    );
}

#[test]
fn only_the_first_foreground_window_is_active() {
    let registry =
        MasterRegistry::build(&vec![DefinitionSource::Definition(x_definition())], Os::Windows);
    let context = ContextRoot {
        fg_context: vec![window("other.exe"), window("x.exe")],
        bg_context: vec![],
    };
    assert!(registry.get_actions(&context).is_empty());
    assert_eq!(context.get_active().expect("active").process_name, Some("other.exe".to_string()));
    let none = ContextRoot { fg_context: vec![], bg_context: vec![] };
    assert!(none.get_active().is_none());
}

#[test]
fn unknown_and_unnamed_windows_add_nothing() {
    let registry =
        MasterRegistry::build(&vec![DefinitionSource::Definition(x_definition())], Os::Windows);
    let context = ContextRoot {
        fg_context: vec![WindowContext { process_name: None }],
        bg_context: vec![window("unknown.exe"), WindowContext { process_name: None }],
    };
    assert!(registry.get_actions(&context).is_empty());
    assert!(registry.owner(&window("unknown.exe")).is_none());
}

#[test]
fn actions_come_background_then_focused_then_global() {
    let globals = definition(
        "g",
        "G",
        Some("g.exe"),
        Some(FocusState::Global),
        vec![
            ("one".to_string(), action("One", None, windows_only(chord(vec![], Key::F1)))),
            (
                "two".to_string(),
                action(
                    "Two",
                    Some(FocusState::Background),
                    windows_only(chord(vec![], Key::F2)),
                ),
            ),
            ("three".to_string(), action("Three", None, windows_only(chord(vec![], Key::F3)))),
        ],
    );
    let sources =
        vec![DefinitionSource::Definition(globals), DefinitionSource::Definition(x_definition())];
    let registry = MasterRegistry::build(&sources, Os::Windows);
    let context = ContextRoot {
        fg_context: vec![window("x.exe")],
        bg_context: vec![window("x.exe"), window("g.exe")],
    };
    let actions = registry.get_actions(&context);
    let names: Vec<&str> = actions.iter().map(|a| a.action_name.as_str()).collect();
    assert_eq!(names, vec!["Sync", "Two", "New tab", "One", "Three"]);
    let ids: Vec<u32> = actions.iter().map(|a| a.action_id).collect();
    assert_eq!(ids, vec![0, 1, 1, 0, 2]);
    let states: Vec<FocusState> = actions.iter().map(|a| a.focus_state).collect();
    assert_eq!(
        states,
        vec![
            FocusState::Background,
            FocusState::Background,
            FocusState::Focused,
            FocusState::Global,
            FocusState::Global
        ]
    );
    let empty = ContextRoot { fg_context: vec![], bg_context: vec![] };
    let global_only = registry.get_actions(&empty);
    assert_eq!(global_only.len(), 2);
    assert_eq!(global_only[0].app_name, "G");
}

#[test]
fn register_binds_the_process_name() {
    let mut registry = MasterRegistry::default();
    let app = Application::new(&x_definition(), &Os::Windows).expect("loads");
    registry.register(7, app);
    assert_eq!(registry.application_registry.len(), 1);
    assert_eq!(registry.application_registry[0].0, 7);
    assert_eq!(registry.application_process_name_id, vec![("x.exe".to_string(), 7)]);
}

#[test]
fn window_reports_its_process_name() {
    assert_eq!(window("x.exe").get_app_process_name(), Some("x.exe".to_string()));
    assert_eq!(WindowContext { process_name: None }.get_app_process_name(), None);
}

#[test]
fn os_tables_pick_the_entry_of_the_os() {
    let names = AppOsName {
        windows: Some("w.exe".to_string()),
        macos: Some("com.m".to_string()),
        linux: None,
    };
    assert_eq!(names.for_os(&Os::Windows), Some(&"w.exe".to_string()));
    assert_eq!(names.for_os(&Os::Mac), Some(&"com.m".to_string()));
    assert_eq!(names.for_os(&Os::Linux), None);
    let cmd = CmdByOs { windows: None, macos: None, linux: Some(chord(vec![], Key::Tab)) };
    assert!(cmd.for_os(&Os::Windows).is_none());
    assert_eq!(cmd.for_os(&Os::Linux).expect("linux").key, Key::Tab);
}

#[test]
fn priority_levels() {
    assert_eq!(Priority::OSReserved.level(), 100);
    assert_eq!(Priority::GlobalRemapper.level(), 90);
    assert_eq!(Priority::OSGlobal.level(), 80);
    assert_eq!(Priority::UserOverrides.level(), 70);
    assert_eq!(Priority::Application.level(), 60);
    assert_eq!(Priority::ApplicationExtensions.level(), 50);
    assert_eq!(Priority::DocumentOrWebApp.level(), 40);
}

#[test]
fn identity_is_the_hash_of_the_declared_name() {
    assert_eq!(application_id(""), 0x811c_9dc5);
    assert_eq!(application_id("a"), 0xe40c_292c);
    assert_eq!(application_id("foobar"), 0xbf9c_f968);
    assert_eq!(application_id("chrome"), application_id("chrome"));
    assert_ne!(application_id("chrome"), application_id("Chrome"));
    assert_ne!(application_id("é"), application_id("e"));
}

#[test]
fn identity_does_not_depend_on_the_order_of_the_scan() {
    let z = || definition("z", "Z", Some("z.exe"), None, vec![]);
    let forward = MasterRegistry::build(
        &vec![DefinitionSource::Definition(x_definition()), DefinitionSource::Definition(z())],
        Os::Windows,
    );
    let backward = MasterRegistry::build(
        &vec![
            DefinitionSource::Skipped,
            DefinitionSource::Definition(z()),
            DefinitionSource::Definition(x_definition()),
        ],
        Os::Windows,
    );
    assert_eq!(forward.application_registry.len(), 2);
    assert_eq!(backward.application_registry.len(), 2);
    for (id, app) in forward.application_registry.iter() {
        let same = backward
            .application_registry
            .iter()
            .find(|(other, _)| other == id)
            .expect("same identity");
        assert_eq!(same.1.name(), app.name());
        assert_eq!(same.1.action_count(), app.action_count());
    }
    assert_eq!(forward.application_registry[0].0, application_id("x"));
    assert_eq!(backward.application_registry[0].0, application_id("z"));
}

#[test]
fn later_definition_wins_a_declared_name() {
    let again = definition(
        "x",
        "X, second edition",
        Some("x2.exe"),
        Some(FocusState::Global),
        vec![("only".to_string(), action("Only", None, windows_only(chord(vec![], Key::F1))))],
    );
    let registry = MasterRegistry::build(
        &vec![DefinitionSource::Definition(x_definition()), DefinitionSource::Definition(again)],
        Os::Windows,
    );
    assert_eq!(registry.application_registry.len(), 1);
    assert_eq!(registry.application_registry[0].0, application_id("x"));
    assert_eq!(registry.application_registry[0].1.name(), "X, second edition");
    assert_eq!(
        registry.application_process_name_id,
        vec![
            ("x.exe".to_string(), application_id("x")),
            ("x2.exe".to_string(), application_id("x"))
        ]
    );
}

#[test]
fn register_replaces_the_application_of_an_identity() {
    let mut registry = MasterRegistry::default();
    registry.register(7, Application::new(&x_definition(), &Os::Windows).expect("loads"));
    let other = definition("o", "Other", Some("o.exe"), None, vec![]);
    registry.register(9, Application::new(&other, &Os::Windows).expect("loads"));
    let third = definition("t", "Third", Some("x.exe"), None, vec![]);
    registry.register(7, Application::new(&third, &Os::Windows).expect("loads"));
    assert_eq!(registry.application_registry.len(), 2);
    assert_eq!(registry.application_registry[0].0, 7);
    assert_eq!(registry.application_registry[0].1.name(), "Third");
    assert_eq!(registry.application_registry[1].0, 9);
    assert_eq!(
        registry.application_process_name_id,
        vec![("x.exe".to_string(), 7), ("o.exe".to_string(), 9)]
    );
}

#[test]
fn os_names() {
    assert_eq!(Os::from_name("windows"), Some(Os::Windows));
    assert_eq!(Os::from_name("macos"), Some(Os::Mac));
    assert_eq!(Os::from_name("linux"), Some(Os::Linux));
    assert_eq!(Os::from_name("freebsd"), None);
    assert_eq!(Os::from_name("Windows"), None);
    assert_eq!(Os::from_name(""), None);
}

#[test]
fn foreground_windows_are_visible_uncloaked_and_titled() {
    assert!(is_foreground(true, false, 1));
    assert!(is_foreground(true, false, 511));
    assert!(!is_foreground(false, false, 5));
    assert!(!is_foreground(true, true, 5));
    assert!(!is_foreground(true, false, 0));
    assert!(!is_foreground(true, false, -1));
}

#[test]
fn definition_finds_an_action_by_its_key() {
    let cfg = x_definition();
    assert_eq!(cfg.get_action(&"new_tab".to_string()).expect("declared").name, "New tab");
    assert_eq!(cfg.get_action(&"sync".to_string()).expect("declared").name, "Sync");
    assert!(cfg.get_action(&"missing".to_string()).is_none());
}

#[test]
fn definition_with_a_key_twice_is_not_well_formed() {
    let mut cfg = x_definition();
    assert!(cfg.is_wf());
    cfg.actions.push((
        "sync".to_string(),
        action("Sync again", None, windows_only(chord(vec![], Key::F9))),
    ));
    assert!(!cfg.is_wf());
    cfg.actions[2].0 = "sync2".to_string();
    assert!(cfg.is_wf());
    assert!(definition("e", "E", None, None, vec![]).is_wf());
}

#[test]
fn skipped_actions_are_reported_with_place_and_reason() {
    let mut cfg = x_definition();
    cfg.actions.insert(
        1,
        (
            "mac_only".to_string(),
            action(
                "Mac only",
                None,
                CmdByOs {
                    windows: None,
                    macos: Some(chord(vec![Modifier::Cmd], Key::KeyM)),
                    linux: None,
                },
            ),
        ),
    );
    cfg.actions.push((
        "plain".to_string(),
        action("Plain", None, windows_only(chord(vec![], Key::F5))),
    ));
    assert_eq!(
        find_skipped_actions(&cfg, &Os::Windows),
        vec![
            (1, LoadError::MissingActionBinding(Os::Windows)),
            (3, LoadError::MissingFocusState)
        ]
    );
    assert_eq!(Application::new(&cfg, &Os::Windows).expect("loads").action_count(), 2);
    assert_eq!(
        find_skipped_actions(&cfg, &Os::Mac),
        vec![
            (0, LoadError::MissingActionBinding(Os::Mac)),
            (1, LoadError::MissingFocusState),
            (2, LoadError::MissingActionBinding(Os::Mac)),
            (3, LoadError::MissingActionBinding(Os::Mac))
        ]
    );
    assert!(find_skipped_actions(&x_definition(), &Os::Windows).is_empty());
}

#[test]
fn definition_error_tells_why_a_definition_stays_out() {
    let cfg = x_definition();
    assert_eq!(definition_error(&cfg, &Os::Windows), None);
    assert_eq!(definition_error(&cfg, &Os::Linux), Some(LoadError::MissingOsBinding));
}

#[test]
fn only_toml_files_are_definitions() {
    assert!(is_definition_extension("toml"));
    assert!(!is_definition_extension("TOML"));
    assert!(!is_definition_extension("tom"));
    assert!(!is_definition_extension("json"));
    assert!(!is_definition_extension(""));
}
