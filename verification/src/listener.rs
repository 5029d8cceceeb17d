use crate::hotkey::{HotkeyModifiers, Key, KeyboardShortcut};
use vstd::prelude::*;

verus! {

/// What the operating system reports when a registered hotkey fires.
#[derive(Debug, Clone, Copy, PartialEq, Eq, Structural)]
pub struct HotkeyEvent {
    /// The identity under which the hotkey was registered.
    pub id: i32,
    /// The virtual-key code of the key.
    pub vk: u32,
    /// The modifier mask.
    pub modifiers: u32,
}

impl HotkeyEvent {
    /// The event that a hotkey message carries: the low half of its second
    /// parameter is the modifier mask, the high half the virtual-key code.
    pub open spec fn spec_from_message(id: i32, lparam: u32) -> HotkeyEvent {
        HotkeyEvent { id, vk: (lparam >> 16) & 0xFFFF, modifiers: lparam & 0xFFFF }
    }

    /// Reads the event out of a hotkey message with the registration identity
    /// `id` and the second parameter `lparam`.
    pub fn from_message(id: i32, lparam: u32) -> (event: HotkeyEvent)
        ensures
            event == Self::spec_from_message(id, lparam),
            event.vk <= 0xFFFF,
            event.modifiers <= 0xFFFF,
    {
        assert((lparam >> 16) & 0xFFFF <= 0xFFFF && lparam & 0xFFFF <= 0xFFFF) by (bit_vector);
        HotkeyEvent { id, vk: (lparam >> 16) & 0xFFFF, modifiers: lparam & 0xFFFF }
    }
}

/// The chord that the listener registers to call the palette: Control and
/// Shift with P.
pub open spec fn spec_activation_chord() -> KeyboardShortcut {
    KeyboardShortcut {
        modifier: HotkeyModifiers { control: true, shift: true, alt: false, win: false },
        key: Key::KeyP,
    }
}

/// The chord that the listener registers to call the palette.
pub fn activation_chord() -> (chord: KeyboardShortcut)
    ensures
        chord == spec_activation_chord(),
{
    KeyboardShortcut {
        modifier: HotkeyModifiers { control: true, shift: true, alt: false, win: false },
        key: Key::KeyP,
    }
}

/// Whether a chord calls the palette: it holds Control and Shift, and its key
/// is P. Other modifiers do not count.
pub open spec fn spec_is_activation(chord: KeyboardShortcut) -> bool {
    chord.modifier.control && chord.modifier.shift && chord.key == Key::KeyP
}

/// Whether a chord calls the palette.
pub fn is_activation(chord: &KeyboardShortcut) -> (calls: bool)
    ensures
        calls == spec_is_activation(*chord),
{
    chord.modifier.control && chord.modifier.shift && chord.key == Key::KeyP
}

/// The chord that is registered calls the palette.
pub proof fn law_registered_chord_activates()
    ensures
        spec_is_activation(spec_activation_chord()),
{
}

/// Where a listener stands in its life.
#[derive(Debug, Clone, Copy, PartialEq, Eq, Structural)]
pub enum ListenerState {
    /// Not started.
    Idle,
    /// The thread has registered its hotkeys and receives messages.
    Running,
    /// A stop was asked for; the thread has not yet seen the quit message.
    Stopping,
    /// The thread has unregistered its hotkeys and left its loop, or never
    /// got to register them.
    Stopped,
}

/// What happens to a listener.
#[derive(Debug, Clone, Copy, PartialEq, Eq, Structural)]
pub enum ListenerInput {
    /// The caller starts the listener.
    Start,
    /// The operating system refused a hotkey.
    RegistrationFailed,
    /// The thread received a hotkey message.
    Hotkey(HotkeyEvent),
    /// The thread received a message of another kind.
    OtherMessage,
    /// The caller asks the listener to stop.
    StopRequested,
    /// The thread received the quit message.
    Quit,
}

/// What the code around the listener has to do next.
#[derive(Debug, Clone, Copy, PartialEq, Eq, Structural)]
pub enum ListenerAction {
    /// Nothing.
    Nothing,
    /// On the new thread: make sure that it has a message queue, register the
    /// hotkeys, and receive messages.
    Register,
    /// Put the event on the queue of the caller.
    Deliver(HotkeyEvent),
    /// Post the quit message to the thread, and wait for the thread to end.
    PostQuit,
    /// On the thread: unregister the hotkeys and leave the loop.
    Unregister,
    /// Report to the caller that registration failed, and end the thread.
    ReportFailure,
}

/// The pair of the state after a step and the action that the step asks for.
pub open spec fn spec_step(state: ListenerState, input: ListenerInput) -> (
    ListenerState,
    ListenerAction,
) {
    match (state, input) {
        (ListenerState::Idle, ListenerInput::Start) => (
            ListenerState::Running,
            ListenerAction::Register,
        ),
        (ListenerState::Running, ListenerInput::RegistrationFailed) => (
            ListenerState::Stopped,
            ListenerAction::ReportFailure,
        ),
        (ListenerState::Running, ListenerInput::Hotkey(event)) => (
            ListenerState::Running,
            ListenerAction::Deliver(event),
        ),
        (ListenerState::Running, ListenerInput::StopRequested) => (
            ListenerState::Stopping,
            ListenerAction::PostQuit,
        ),
        (ListenerState::Running, ListenerInput::Quit) => (
            ListenerState::Stopped,
            ListenerAction::Unregister,
        ),
        (ListenerState::Stopping, ListenerInput::Hotkey(event)) => (
            ListenerState::Stopping,
            ListenerAction::Deliver(event),
        ),
        (ListenerState::Stopping, ListenerInput::Quit) => (
            ListenerState::Stopped,
            ListenerAction::Unregister,
        ),
        (ListenerState::Stopping, ListenerInput::RegistrationFailed) => (
            ListenerState::Stopped,
            ListenerAction::ReportFailure,
        ),
        _ => (state, ListenerAction::Nothing),
    }
}

/// The state in which a run of inputs leaves a listener.
pub open spec fn state_after(state: ListenerState, inputs: Seq<ListenerInput>) -> ListenerState
    decreases inputs.len(),
{
    if inputs.len() == 0 {
        state
    } else {
        spec_step(state_after(state, inputs.drop_last()), inputs.last()).0
    }
}

/// The events that a run of inputs puts on the queue, in order.
pub open spec fn delivered(state: ListenerState, inputs: Seq<ListenerInput>) -> Seq<HotkeyEvent>
    decreases inputs.len(),
{
    if inputs.len() == 0 {
        Seq::empty()
    } else {
        let before = delivered(state, inputs.drop_last());
        match spec_step(state_after(state, inputs.drop_last()), inputs.last()).1 {
            ListenerAction::Deliver(event) => before.push(event),
            _ => before,
        }
    }
}

impl ListenerState {
    /// A listener that was not started.
    pub fn new() -> (state: ListenerState)
        ensures
            state == ListenerState::Idle,
    {
        ListenerState::Idle
    }

    /// Takes one input: moves to the next state and says what to do.
    pub fn step(&mut self, input: ListenerInput) -> (action: ListenerAction)
        ensures
            (*final(self), action) == spec_step(*old(self), input),
    {
        let (next, action) = match (*self, input) {
            (ListenerState::Idle, ListenerInput::Start) => (
                ListenerState::Running,
                ListenerAction::Register,
            ),
            (ListenerState::Running, ListenerInput::RegistrationFailed) => (
                ListenerState::Stopped,
                ListenerAction::ReportFailure,
            ),
            (ListenerState::Running, ListenerInput::Hotkey(event)) => (
                ListenerState::Running,
                ListenerAction::Deliver(event),
            ),
            (ListenerState::Running, ListenerInput::StopRequested) => (
                ListenerState::Stopping,
                ListenerAction::PostQuit,
            ),
            (ListenerState::Running, ListenerInput::Quit) => (
                ListenerState::Stopped,
                ListenerAction::Unregister,
            ),
            (ListenerState::Stopping, ListenerInput::Hotkey(event)) => (
                ListenerState::Stopping,
                ListenerAction::Deliver(event),
            ),
            (ListenerState::Stopping, ListenerInput::Quit) => (
                ListenerState::Stopped,
                ListenerAction::Unregister,
            ),
            (ListenerState::Stopping, ListenerInput::RegistrationFailed) => (
                ListenerState::Stopped,
                ListenerAction::ReportFailure,
            ),
            (state, _) => (state, ListenerAction::Nothing),
        };
        *self = next;
        action
    }

    /// Whether the listener has stopped for good.
    pub fn is_stopped(&self) -> (stopped: bool)
        ensures
            stopped == (*self == ListenerState::Stopped),
    {
        match self {
            ListenerState::Stopped => true,
            _ => false,
        }
    }
}

/// A stopped listener stays stopped and asks for nothing.
pub proof fn law_stopped_is_final(input: ListenerInput)
    ensures
        spec_step(ListenerState::Stopped, input) == (
            ListenerState::Stopped,
            ListenerAction::Nothing,
        ),
{
}

/// Once a listener has stopped, no input puts an event on the queue, and it
/// never leaves that state.
pub proof fn law_nothing_delivered_after_stop(inputs: Seq<ListenerInput>)
    ensures
        state_after(ListenerState::Stopped, inputs) == ListenerState::Stopped,
        delivered(ListenerState::Stopped, inputs) == Seq::<HotkeyEvent>::empty(),
    decreases inputs.len(),
{
    if inputs.len() > 0 {
        law_nothing_delivered_after_stop(inputs.drop_last());
    }
}

/// The states follow one another in one direction: a listener never returns
/// to a state that it has left.
pub open spec fn rank(state: ListenerState) -> int {
    match state {
        ListenerState::Idle => 0,
        ListenerState::Running => 1,
        ListenerState::Stopping => 2,
        ListenerState::Stopped => 3,
    }
}

/// A step never moves a listener back.
pub proof fn law_steps_move_forward(state: ListenerState, input: ListenerInput)
    ensures
        rank(state) <= rank(spec_step(state, input).0),
{
}

/// An event reaches the queue only while the listener runs or is stopping,
/// and then it is the event of the hotkey message, unchanged.
pub proof fn law_delivery(state: ListenerState, input: ListenerInput, event: HotkeyEvent)
    ensures
        spec_step(state, input).1 == ListenerAction::Deliver(event) <==> input
            == ListenerInput::Hotkey(event) && (state == ListenerState::Running || state
            == ListenerState::Stopping),
{
}

/// The inputs that a run of hotkey messages makes.
pub open spec fn hotkey_inputs(events: Seq<HotkeyEvent>) -> Seq<ListenerInput> {
    events.map_values(|event: HotkeyEvent| ListenerInput::Hotkey(event))
}

/// A running listener puts the events of the hotkey messages on the queue in
/// the order in which the messages came, none lost and none twice, and goes
/// on running.
pub proof fn law_delivery_keeps_order(events: Seq<HotkeyEvent>)
    ensures
        state_after(ListenerState::Running, hotkey_inputs(events)) == ListenerState::Running,
        delivered(ListenerState::Running, hotkey_inputs(events)) == events,
    decreases events.len(),
{
    let inputs = hotkey_inputs(events);
    if events.len() > 0 {
        law_delivery_keeps_order(events.drop_last());
        assert(inputs.drop_last() =~= hotkey_inputs(events.drop_last()));
        assert(inputs.last() == ListenerInput::Hotkey(events.last()));
        assert(events.drop_last().push(events.last()) =~= events);
    } else {
        assert(delivered(ListenerState::Running, inputs) =~= events);
    }
}

/// After the quit message nothing more is delivered, whatever follows it.
pub proof fn law_quit_ends_delivery(
    state: ListenerState,
    before: Seq<ListenerInput>,
    after: Seq<ListenerInput>,
)
    requires
        state_after(state, before) == ListenerState::Running || state_after(state, before)
            == ListenerState::Stopping,
    ensures
        state_after(state, before.push(ListenerInput::Quit) + after) == ListenerState::Stopped,
        delivered(state, before.push(ListenerInput::Quit) + after) == delivered(state, before),
    decreases after.len(),
{
    let quit = before.push(ListenerInput::Quit);
    assert(quit.drop_last() =~= before);
    if after.len() == 0 {
        assert(quit + after =~= quit);
    } else {
        law_quit_ends_delivery(state, before, after.drop_last());
        assert((quit + after).drop_last() =~= quit + after.drop_last());
        assert((quit + after).last() == after.last());
    }
}

} // verus!
