use command_palette::hotkey::{HotkeyModifiers, Key, KeyboardShortcut};
use command_palette::listener::{
    activation_chord, is_activation, HotkeyEvent, ListenerAction, ListenerInput, ListenerState,
};

#[test]
fn hotkey_message_is_decoded() {
    let event = HotkeyEvent::from_message(1, 0x0050_0006);
    assert_eq!(event, HotkeyEvent { id: 1, vk: 0x50, modifiers: 0x6 });
    let full = HotkeyEvent::from_message(-3, 0xFFFF_FFFF);
    assert_eq!(full, HotkeyEvent { id: -3, vk: 0xFFFF, modifiers: 0xFFFF });
    let zero = HotkeyEvent::from_message(0, 0);
    assert_eq!(zero, HotkeyEvent { id: 0, vk: 0, modifiers: 0 });
}

#[test]
fn listener_runs_from_start_to_stop() {
    let event = HotkeyEvent { id: 1, vk: 0x50, modifiers: 0x6 };
    let mut state = ListenerState::new();
    assert_eq!(state, ListenerState::Idle);
    assert_eq!(state.step(ListenerInput::Start), ListenerAction::Register);
    assert_eq!(state, ListenerState::Running);
    assert_eq!(state.step(ListenerInput::Hotkey(event)), ListenerAction::Deliver(event));
    assert_eq!(state.step(ListenerInput::OtherMessage), ListenerAction::Nothing);
    assert_eq!(state, ListenerState::Running);
    assert_eq!(state.step(ListenerInput::StopRequested), ListenerAction::PostQuit);
    assert_eq!(state, ListenerState::Stopping);
    assert_eq!(state.step(ListenerInput::Hotkey(event)), ListenerAction::Deliver(event));
    assert_eq!(state.step(ListenerInput::StopRequested), ListenerAction::Nothing);
    assert_eq!(state.step(ListenerInput::Quit), ListenerAction::Unregister);
    assert_eq!(state, ListenerState::Stopped);
    assert!(state.is_stopped());
}

#[test]
fn stopped_listener_delivers_nothing() {
    let event = HotkeyEvent { id: 1, vk: 0x50, modifiers: 0x6 };
    let inputs = [
        ListenerInput::Start,
        ListenerInput::RegistrationFailed,
        ListenerInput::Hotkey(event),
        ListenerInput::OtherMessage,
        ListenerInput::StopRequested,
        ListenerInput::Quit,
    ];
    let mut state = ListenerState::Stopped;
    for input in inputs {
        assert_eq!(state.step(input), ListenerAction::Nothing);
        assert_eq!(state, ListenerState::Stopped);
    }
}

#[test]
fn idle_listener_waits_for_start() {
    let event = HotkeyEvent { id: 1, vk: 0x50, modifiers: 0x6 };
    let mut state = ListenerState::Idle;
    assert_eq!(state.step(ListenerInput::Hotkey(event)), ListenerAction::Nothing);
    assert_eq!(state.step(ListenerInput::StopRequested), ListenerAction::Nothing);
    assert_eq!(state.step(ListenerInput::Quit), ListenerAction::Nothing);
    assert_eq!(state, ListenerState::Idle);
    assert!(!state.is_stopped());
}

#[test]
fn failed_registration_stops_the_listener() {
    let mut state = ListenerState::Idle;
    state.step(ListenerInput::Start);
    assert_eq!(state.step(ListenerInput::RegistrationFailed), ListenerAction::ReportFailure);
    assert_eq!(state, ListenerState::Stopped);
}

#[test]
fn quit_without_a_stop_request_ends_the_listener() {
    let mut state = ListenerState::Running;
    assert_eq!(state.step(ListenerInput::Quit), ListenerAction::Unregister);
    assert_eq!(state, ListenerState::Stopped);
    let mut second = ListenerState::Running;
    assert_eq!(second.step(ListenerInput::Start), ListenerAction::Nothing);
    assert_eq!(second, ListenerState::Running);
}

#[test]
fn activation_chord_is_control_shift_p() {
    let chord = activation_chord();
    assert_eq!(
        chord,
        KeyboardShortcut {
            modifier: HotkeyModifiers { control: true, shift: true, alt: false, win: false },
            key: Key::KeyP,
        }
    );
    assert!(is_activation(&chord));
    let with_alt = KeyboardShortcut {
        modifier: HotkeyModifiers { control: true, shift: true, alt: true, win: true },
        key: Key::KeyP,
    };
    assert!(is_activation(&with_alt));
    let no_shift = KeyboardShortcut {
        modifier: HotkeyModifiers { control: true, shift: false, alt: false, win: false },
        key: Key::KeyP,
    };
    assert!(!is_activation(&no_shift));
    let other_key = KeyboardShortcut { key: Key::KeyO, ..chord };
    assert!(!is_activation(&other_key));
}
