use crate::action::{
    Action, ActionId, ActionName, ActionView, AppName, AppProcessName, ApplicationID, ContextRoot,
    FocusState, Os, WindowContext,
};
use crate::config::Config;
use crate::hotkey::KeyboardShortcut;
use vstd::prelude::*;
use vstd::string::StringSliceAdditionalSpecFns;
use vstd::utf8::encode_utf8;

verus! {

/// Why a definition, or one action of it, was not loaded.
#[derive(Debug, Clone, Copy, PartialEq, Eq, Structural)]
pub enum LoadError {
    /// The definition names no process for the operating system.
    MissingOsBinding,
    /// The action has no key chord for this operating system.
    MissingActionBinding(Os),
    /// Neither the action nor the application declares a focus state.
    MissingFocusState,
}

impl LoadError {
    /// The message that describes the error.
    pub open spec fn spec_message(self) -> Seq<char> {
        match self {
            LoadError::MissingOsBinding => "No OS app name"@,
            LoadError::MissingActionBinding(Os::Windows) => "No Windows action"@,
            LoadError::MissingActionBinding(Os::Mac) => "No Mac action"@,
            LoadError::MissingActionBinding(Os::Linux) => "No Linux action"@,
            LoadError::MissingFocusState => "No Focus state found"@,
        }
    }

    /// The message that describes the error.
    pub fn message(&self) -> (text: String)
        ensures
            text@ == self.spec_message(),
    {
        match self {
            LoadError::MissingOsBinding => "No OS app name".to_owned(),
            LoadError::MissingActionBinding(Os::Windows) => "No Windows action".to_owned(),
            LoadError::MissingActionBinding(Os::Mac) => "No Mac action".to_owned(),
            LoadError::MissingActionBinding(Os::Linux) => "No Linux action".to_owned(),
            LoadError::MissingFocusState => "No Focus state found".to_owned(),
        }
    }
}

/// The focus state of a declared action: its own, else the default of its
/// application.
pub open spec fn focus_of(own: Option<FocusState>, default: Option<FocusState>) -> Option<
    FocusState,
> {
    match own {
        Some(f) => Some(f),
        None => default,
    }
}

/// What a declared action resolves to on `os`: the error that drops it, or
/// the action with its chord for `os` and its focus state.
pub open spec fn resolve_action(
    def: crate::config::Action,
    default: Option<FocusState>,
    os: Os,
) -> Result<ActionView, LoadError> {
    match def.cmd.spec_for_os(os) {
        None => Err(LoadError::MissingActionBinding(os)),
        Some(chord) => match focus_of(def.focus_state, default) {
            None => Err(LoadError::MissingFocusState),
            Some(focus) => Ok(
                ActionView {
                    name: def.name@,
                    keyboard_shortcut: chord.spec_shortcut(),
                    focus_state: focus,
                },
            ),
        },
    }
}

/// The actions that the declared ones resolve to, in the order of the
/// declaration; those that do not resolve are left out.
pub open spec fn resolve_actions(
    defs: Seq<(String, crate::config::Action)>,
    default: Option<FocusState>,
    os: Os,
) -> Seq<ActionView>
    decreases defs.len(),
{
    if defs.len() == 0 {
        Seq::empty()
    } else {
        let before = resolve_actions(defs.drop_last(), default, os);
        match resolve_action(defs.last().1, default, os) {
            Ok(a) => before.push(a),
            Err(_) => before,
        }
    }
}

/// What a definition resolves to on `os`: an application, unless it names no
/// process for `os`.
pub open spec fn resolve_application(cfg: Config, os: Os) -> Result<ApplicationView, LoadError> {
    match cfg.app.application_os_name.spec_for_os(os) {
        None => Err(LoadError::MissingOsBinding),
        Some(process) => Ok(
            ApplicationView {
                name: cfg.app.name@,
                process_name: process@,
                actions: resolve_actions(cfg.actions@, cfg.app.default_focus_state, os),
            },
        ),
    }
}

/// The declared actions among the first `n` that do not resolve on `os`,
/// each with its place in the definition and the reason, in the order of the
/// declaration.
pub open spec fn skipped_actions(
    defs: Seq<(String, crate::config::Action)>,
    default: Option<FocusState>,
    os: Os,
    n: int,
) -> Seq<(usize, LoadError)>
    decreases n,
{
    if n <= 0 {
        Seq::empty()
    } else {
        let before = skipped_actions(defs, default, os, n - 1);
        match resolve_action(defs[n - 1].1, default, os) {
            Ok(_) => before,
            Err(e) => before.push(((n - 1) as usize, e)),
        }
    }
}

/// The views of a sequence of actions.
pub open spec fn action_views(actions: Seq<Action>) -> Seq<ActionView> {
    actions.map_values(|a: Action| a@)
}

/// A loaded application: its names and its actions for one operating system.
/// The identity of an action is its position among them.
#[derive(Debug, Clone)]
pub struct Application {
    application_name: AppName,
    application_process_name: AppProcessName,
    application_registry: Vec<Action>,
}

/// The mathematical content of an `Application`.
pub struct ApplicationView {
    pub name: Seq<char>,
    pub process_name: Seq<char>,
    /// The actions; the identity of each is its index.
    pub actions: Seq<ActionView>,
}

impl View for Application {
    type V = ApplicationView;

    closed spec fn view(&self) -> ApplicationView {
        ApplicationView {
            name: self.application_name@,
            process_name: self.application_process_name@,
            actions: action_views(self.application_registry@),
        }
    }
}

/// Resolves one declared action for `os`.
pub fn resolve_one(def: &crate::config::Action, default: &Option<FocusState>, os: &Os) -> (result:
    Result<Action, LoadError>)
    ensures
        match result {
            Ok(a) => resolve_action(*def, *default, *os) == Ok::<ActionView, LoadError>(a@),
            Err(e) => resolve_action(*def, *default, *os) == Err::<ActionView, LoadError>(e),
        },
{
    let chord = match def.cmd.for_os(os) {
        None => { return Err(LoadError::MissingActionBinding(*os)); },
        Some(chord) => chord,
    };
    let focus = match def.focus_state {
        Some(f) => f,
        None => match default {
            Some(f) => *f,
            None => { return Err(LoadError::MissingFocusState); },
        },
    };
    Ok(Action { name: def.name.clone(), keyboard_shortcut: chord.shortcut(), focus_state: focus })
}

/// Why the definition does not load on `os`, if it does not.
pub fn definition_error(cfg: &Config, os: &Os) -> (error: Option<LoadError>)
    ensures
        match error {
            Some(e) => resolve_application(*cfg, *os) == Err::<ApplicationView, LoadError>(e),
            None => resolve_application(*cfg, *os) is Ok,
        },
{
    match cfg.app.application_os_name.for_os(os) {
        None => Some(LoadError::MissingOsBinding),
        Some(_) => None,
    }
}

/// The declared actions that are left out on `os`, each with its place in the
/// definition and the reason.
pub fn find_skipped_actions(cfg: &Config, os: &Os) -> (skipped: Vec<(usize, LoadError)>)
    ensures
        skipped@ == skipped_actions(
            cfg.actions@,
            cfg.app.default_focus_state,
            *os,
            cfg.actions@.len() as int,
        ),
{
    let mut skipped: Vec<(usize, LoadError)> = Vec::new();
    let mut i: usize = 0;
    while i < cfg.actions.len()
        invariant
            i <= cfg.actions@.len(),
            skipped@ == skipped_actions(
                cfg.actions@,
                cfg.app.default_focus_state,
                *os,
                i as int,
            ),
        decreases cfg.actions@.len() - i,
    {
        match resolve_one(&cfg.actions[i].1, &cfg.app.default_focus_state, os) {
            Ok(_) => {},
            Err(e) => {
                skipped.push((i, e));
            },
        }
        i += 1;
    }
    skipped
}

impl Application {
    /// Every action has an identity that fits `ActionId`.
    pub closed spec fn wf(&self) -> bool {
        self.application_registry@.len() <= u32::MAX
    }

    /// Resolves a definition for `current_os`.
    ///
    /// Fails, with the message of `MissingOsBinding`, exactly where the
    /// definition names no process for `current_os`. Otherwise the application
    /// holds the actions that resolve, numbered from zero in the order of the
    /// definition.
    pub fn new(app_config: &Config, current_os: &Os) -> (result: Result<Application, String>)
        requires
            app_config.wf(),
        ensures
            match result {
                Ok(app) => app.wf() && resolve_application(*app_config, *current_os) == Ok::<
                    ApplicationView,
                    LoadError,
                >(app@),
                Err(e) => resolve_application(*app_config, *current_os) is Err
                    && e@ == LoadError::MissingOsBinding.spec_message(),
            },
    {
        let process_name = match app_config.app.application_os_name.for_os(current_os) {
            None => { return Err(LoadError::MissingOsBinding.message()); },
            Some(name) => name.clone(),
        };
        let mut actions: Vec<Action> = Vec::new();
        let mut i: usize = 0;
        while i < app_config.actions.len()
            invariant
                i <= app_config.actions@.len(),
                actions@.len() <= i,
                action_views(actions@) == resolve_actions(
                    app_config.actions@.subrange(0, i as int),
                    app_config.app.default_focus_state,
                    *current_os,
                ),
            decreases app_config.actions@.len() - i,
        {
            proof {
                let ghost next = app_config.actions@.subrange(0, i + 1);
                assert(next.drop_last() =~= app_config.actions@.subrange(0, i as int));
                assert(next.last() == app_config.actions@[i as int]);
            }
            match resolve_one(&app_config.actions[i].1, &app_config.app.default_focus_state, current_os) {
                Ok(action) => {
                    assert(action_views(actions@.push(action)) =~= action_views(actions@).push(
                        action@,
                    ));
                    actions.push(action);
                },
                Err(_) => {},
            }
            i += 1;
        }
        assert(app_config.actions@.subrange(0, i as int) =~= app_config.actions@);
        Ok(
            Application {
                application_name: app_config.app.name.clone(),
                application_process_name: process_name,
                application_registry: actions,
            },
        )
    }

    /// The action with the identity `action_id`, if there is one.
    pub fn get_action(&self, action_id: &ActionId) -> (action: Option<&Action>)
        ensures
            match action {
                Some(a) => *action_id < self@.actions.len() && a@ == self@.actions[*action_id as int],
                None => *action_id >= self@.actions.len(),
            },
    {
        let i = *action_id as usize;
        if i < self.application_registry.len() {
            Some(&self.application_registry[i])
        } else {
            None
        }
    }

    /// The display name.
    pub fn name(&self) -> (name: &AppName)
        ensures
            name@ == self@.name,
    {
        &self.application_name
    }

    /// The name of the process that runs the application.
    pub fn process_name(&self) -> (name: &AppProcessName)
        ensures
            name@ == self@.process_name,
    {
        &self.application_process_name
    }

    /// The number of actions.
    pub fn action_count(&self) -> (n: usize)
        ensures
            n == self@.actions.len(),
    {
        self.application_registry.len()
    }
}

/// One action on offer, ready for search and display.
#[derive(Debug, Clone)]
pub struct UnitAction {
    pub app_name: AppName,
    pub action_id: ActionId,
    pub action_name: ActionName,
    pub focus_state: FocusState,
    pub keyboard_shortcut: KeyboardShortcut,
}

/// The mathematical content of a `UnitAction`.
pub struct UnitActionView {
    pub app_name: Seq<char>,
    pub action_id: int,
    pub action_name: Seq<char>,
    pub focus_state: FocusState,
    pub keyboard_shortcut: KeyboardShortcut,
}

impl View for UnitAction {
    type V = UnitActionView;

    open spec fn view(&self) -> UnitActionView {
        UnitActionView {
            app_name: self.app_name@,
            action_id: self.action_id as int,
            action_name: self.action_name@,
            focus_state: self.focus_state,
            keyboard_shortcut: self.keyboard_shortcut,
        }
    }
}

/// The views of a sequence of unit actions.
pub open spec fn unit_views(units: Seq<UnitAction>) -> Seq<UnitActionView> {
    units.map_values(|u: UnitAction| u@)
}

/// The action `id` of `app` as it is offered: tagged with its own focus state.
pub open spec fn unit_of(app: ApplicationView, id: int) -> UnitActionView {
    UnitActionView {
        app_name: app.name,
        action_id: id,
        action_name: app.actions[id].name,
        focus_state: app.actions[id].focus_state,
        keyboard_shortcut: app.actions[id].keyboard_shortcut,
    }
}

/// Those of the first `n` actions of `app` whose focus state is `focus`, by
/// rising identity.
pub open spec fn actions_in_state(app: ApplicationView, focus: FocusState, n: int) -> Seq<
    UnitActionView,
>
    decreases n,
{
    if n <= 0 {
        Seq::empty()
    } else {
        let before = actions_in_state(app, focus, n - 1);
        if app.actions[n - 1].focus_state == focus {
            before.push(unit_of(app, n - 1))
        } else {
            before
        }
    }
}

/// The registry of the loaded applications.
#[derive(Debug)]
pub struct MasterRegistry {
    /// The applications with their identities, in the order in which the
    /// identities were first entered. No identity stands twice.
    pub application_registry: Vec<(ApplicationID, Application)>,
    /// For each process name the identity of the application that claimed it
    /// last. No name stands twice.
    pub application_process_name_id: Vec<(AppProcessName, ApplicationID)>,
}

/// The mathematical content of a `MasterRegistry`.
pub struct RegistryView {
    pub apps: Seq<(ApplicationID, ApplicationView)>,
    pub names: Seq<(Seq<char>, ApplicationID)>,
}

/// The views of the applications of a registry.
pub open spec fn app_views(apps: Seq<(ApplicationID, Application)>) -> Seq<
    (ApplicationID, ApplicationView),
> {
    apps.map_values(|e: (ApplicationID, Application)| (e.0, e.1@))
}

/// The views of the process names of a registry.
pub open spec fn name_views(names: Seq<(AppProcessName, ApplicationID)>) -> Seq<
    (Seq<char>, ApplicationID),
> {
    names.map_values(|e: (AppProcessName, ApplicationID)| (e.0@, e.1))
}

impl View for MasterRegistry {
    type V = RegistryView;

    open spec fn view(&self) -> RegistryView {
        RegistryView {
            apps: app_views(self.application_registry@),
            names: name_views(self.application_process_name_id@),
        }
    }
}

impl RegistryView {
    /// The registry without applications.
    pub open spec fn empty() -> RegistryView {
        RegistryView { apps: Seq::empty(), names: Seq::empty() }
    }

    /// The first place at or after `from` where `process` stands among the
    /// names, if it stands there.
    pub open spec fn name_index(self, process: Seq<char>, from: int) -> Option<int>
        decreases self.names.len() - from,
    {
        if from >= self.names.len() {
            None
        } else if self.names[from].0 == process {
            Some(from)
        } else {
            self.name_index(process, from + 1)
        }
    }

    /// The identity bound to the process name.
    pub open spec fn id_of(self, process: Seq<char>) -> Option<ApplicationID> {
        match self.name_index(process, 0) {
            Some(i) => Some(self.names[i].1),
            None => None,
        }
    }

    /// The first place at or after `from` where an application has the
    /// identity `id`, if one has.
    pub open spec fn app_index(self, id: ApplicationID, from: int) -> Option<int>
        decreases self.apps.len() - from,
    {
        if from >= self.apps.len() {
            None
        } else if self.apps[from].0 == id {
            Some(from)
        } else {
            self.app_index(id, from + 1)
        }
    }

    /// The application with the identity `id`.
    pub open spec fn app_of(self, id: ApplicationID) -> Option<ApplicationView> {
        match self.app_index(id, 0) {
            Some(i) => Some(self.apps[i].1),
            None => None,
        }
    }

    /// The application that owns a window: the one that its process name is
    /// bound to. None where a step of the way is missing.
    pub open spec fn owner(self, window: WindowContext) -> Option<ApplicationView> {
        match window.spec_process_name() {
            None => None,
            Some(process) => match self.id_of(process) {
                None => None,
                Some(id) => self.app_of(id),
            },
        }
    }

    /// What a window offers in the state `focus`: the actions in that state
    /// of the application that owns it.
    pub open spec fn window_actions(self, window: WindowContext, focus: FocusState) -> Seq<
        UnitActionView,
    > {
        match self.owner(window) {
            None => Seq::empty(),
            Some(app) => actions_in_state(app, focus, app.actions.len() as int),
        }
    }

    /// The background actions of the first `n` of the windows, window by
    /// window.
    pub open spec fn background_actions(self, windows: Seq<WindowContext>, n: int) -> Seq<
        UnitActionView,
    >
        decreases n,
    {
        if n <= 0 {
            Seq::empty()
        } else {
            self.background_actions(windows, n - 1) + self.window_actions(
                windows[n - 1],
                FocusState::Background,
            )
        }
    }

    /// The focused actions of the active window, if there is one.
    pub open spec fn focused_actions(self, active: Option<WindowContext>) -> Seq<UnitActionView> {
        match active {
            None => Seq::empty(),
            Some(w) => self.window_actions(w, FocusState::Focused),
        }
    }

    /// The global actions of the first `n` applications, application by
    /// application.
    pub open spec fn global_actions(self, n: int) -> Seq<UnitActionView>
        decreases n,
    {
        if n <= 0 {
            Seq::empty()
        } else {
            self.global_actions(n - 1) + actions_in_state(
                self.apps[n - 1].1,
                FocusState::Global,
                self.apps[n - 1].1.actions.len() as int,
            )
        }
    }

    /// The actions on offer in a context: the background actions of every
    /// background window, then the focused actions of the active window, then
    /// the global actions of every application.
    pub open spec fn available_actions(self, context: ContextRoot) -> Seq<UnitActionView> {
        self.background_actions(context.bg_context@, context.bg_context@.len() as int)
            + self.focused_actions(context.spec_active()) + self.global_actions(
            self.apps.len() as int,
        )
    }
}

/// Appends to `out` those actions of `app` whose focus state is `focus`.
fn push_actions_in_state(out: &mut Vec<UnitAction>, app: &Application, focus: FocusState)
    requires
        app.wf(),
    ensures
        unit_views(final(out)@) == unit_views(old(out)@) + actions_in_state(
            app@,
            focus,
            app@.actions.len() as int,
        ),
{
    let ghost start = unit_views(out@);
    let mut i: usize = 0;
    assert(unit_views(out@) =~= start + actions_in_state(app@, focus, 0));
    while i < app.application_registry.len()
        invariant
            app.wf(),
            i <= app.application_registry@.len(),
            unit_views(out@) == start + actions_in_state(app@, focus, i as int),
        decreases app.application_registry@.len() - i,
    {
        let action = &app.application_registry[i];
        assert(app@.actions[i as int] == action@);
        if action.focus_state == focus {
            let unit = UnitAction {
                app_name: app.application_name.clone(),
                action_id: i as u32,
                action_name: action.name.clone(),
                focus_state: action.focus_state,
                keyboard_shortcut: action.keyboard_shortcut,
            };
            assert(unit@ == unit_of(app@, i as int));
            assert(unit_views(out@.push(unit)) =~= unit_views(out@).push(unit@));
            assert(start + actions_in_state(app@, focus, i as int).push(unit@) =~= (start
                + actions_in_state(app@, focus, i as int)).push(unit@));
            out.push(unit);
        }
        i += 1;
    }
}

impl MasterRegistry {
    /// Every application is well formed.
    pub open spec fn wf(&self) -> bool {
        forall|i: int|
            0 <= i < self.application_registry@.len() ==> (
            #[trigger] self.application_registry@[i]).1.wf()
    }

    /// The place of `process` among the names, if it stands there.
    fn find_name(&self, process: &String) -> (place: Option<usize>)
        ensures
            match place {
                Some(i) => self@.name_index(process@, 0) == Some(i as int) && i
                    < self.application_process_name_id@.len(),
                None => self@.name_index(process@, 0) is None,
            },
    {
        let mut i: usize = 0;
        while i < self.application_process_name_id.len()
            invariant
                i <= self.application_process_name_id@.len(),
                self@.name_index(process@, 0) == self@.name_index(process@, i as int),
            decreases self.application_process_name_id@.len() - i,
        {
            assert(self@.names[i as int].0 == self.application_process_name_id@[i as int].0@);
            if self.application_process_name_id[i].0 == *process {
                return Some(i);
            }
            i += 1;
        }
        None
    }

    /// The place of the application with the identity `id`, if there is one.
    fn find_app(&self, id: ApplicationID) -> (place: Option<usize>)
        ensures
            match place {
                Some(i) => self@.app_index(id, 0) == Some(i as int) && i
                    < self.application_registry@.len(),
                None => self@.app_index(id, 0) is None,
            },
    {
        let mut i: usize = 0;
        while i < self.application_registry.len()
            invariant
                i <= self.application_registry@.len(),
                self@.app_index(id, 0) == self@.app_index(id, i as int),
            decreases self.application_registry@.len() - i,
        {
            assert(self@.apps[i as int].0 == self.application_registry@[i as int].0);
            if self.application_registry[i].0 == id {
                return Some(i);
            }
            i += 1;
        }
        None
    }

    /// The application that owns a window.
    pub fn owner(&self, window: &WindowContext) -> (app: Option<&Application>)
        ensures
            match app {
                Some(a) => self@.owner(*window) == Some(a@) && (self.wf() ==> a.wf()),
                None => self@.owner(*window) is None,
            },
    {
        let process = match &window.process_name {
            None => { return None; },
            Some(process) => process,
        };
        let id = match self.find_name(process) {
            None => { return None; },
            Some(i) => self.application_process_name_id[i].1,
        };
        assert(self@.id_of(process@) == Some(id));
        match self.find_app(id) {
            None => None,
            Some(i) => {
                assert(self@.apps[i as int].1 == self.application_registry@[i as int].1@);
                Some(&self.application_registry[i].1)
            },
        }
    }

    /// The actions on offer in `context`, in this order: for each background
    /// window the background actions of its application; for the active
    /// window the focused actions of its application; for each application its
    /// global actions. Within one application the actions stand by rising
    /// identity, and each carries its own focus state. A window that no
    /// application owns adds nothing.
    pub fn get_actions(&self, context: &ContextRoot) -> (all_actions: Vec<UnitAction>)
        requires
            self.wf(),
        ensures
            unit_views(all_actions@) == self@.available_actions(*context),
    {
        let mut all_actions: Vec<UnitAction> = Vec::new();
        assert(unit_views(all_actions@) =~= self@.background_actions(context.bg_context@, 0));
        let mut w: usize = 0;
        while w < context.bg_context.len()
            invariant
                self.wf(),
                w <= context.bg_context@.len(),
                unit_views(all_actions@) == self@.background_actions(context.bg_context@, w as int),
            decreases context.bg_context@.len() - w,
        {
            match self.owner(&context.bg_context[w]) {
                None => {
                    assert(unit_views(all_actions@) + Seq::<UnitActionView>::empty() =~= unit_views(
                        all_actions@,
                    ));
                },
                Some(app) => {
                    push_actions_in_state(&mut all_actions, app, FocusState::Background);
                },
            }
            w += 1;
        }
        let ghost background = unit_views(all_actions@);
        match context.get_active() {
            None => {
                assert(background + Seq::<UnitActionView>::empty() =~= background);
            },
            Some(active) => match self.owner(active) {
                None => {
                    assert(background + Seq::<UnitActionView>::empty() =~= background);
                },
                Some(app) => {
                    push_actions_in_state(&mut all_actions, app, FocusState::Focused);
                },
            },
        }
        let ghost windowed = unit_views(all_actions@);
        assert(windowed == background + self@.focused_actions(context.spec_active()));
        assert(windowed + self@.global_actions(0) =~= windowed);
        let mut a: usize = 0;
        while a < self.application_registry.len()
            invariant
                self.wf(),
                a <= self.application_registry@.len(),
                unit_views(all_actions@) == windowed + self@.global_actions(a as int),
            decreases self.application_registry@.len() - a,
        {
            let app = &self.application_registry[a].1;
            assert(self@.apps[a as int].1 == app@);
            let ghost units = actions_in_state(app@, FocusState::Global, app@.actions.len() as int);
            assert(windowed + (self@.global_actions(a as int) + units) =~= (windowed
                + self@.global_actions(a as int)) + units);
            push_actions_in_state(&mut all_actions, app, FocusState::Global);
            a += 1;
        }
        assert(self@.apps.len() == self.application_registry@.len());
        all_actions
    }
}

/// Whether a file with the extension `extension` is a definition file: the
/// extension is `toml`. The scan passes over every other file.
pub open spec fn spec_is_definition_extension(extension: Seq<char>) -> bool {
    extension == "toml"@
}

/// Whether a file with the extension `extension` is a definition file.
pub fn is_definition_extension(extension: &str) -> (definition: bool)
    ensures
        definition == spec_is_definition_extension(extension@),
{
    extension.to_owned() == "toml".to_owned()
}

/// What the scan of the definitions directory found at one entry.
#[derive(Debug, Clone)]
pub enum DefinitionSource {
    /// Nothing to load: an entry that could not be read, a file of another
    /// type, or a definition file that could not be read or parsed.
    Skipped,
    /// A definition.
    Definition(Config),
}

impl DefinitionSource {
    /// The definition of the entry, if it has one, is well formed.
    pub open spec fn wf(&self) -> bool {
        match self {
            DefinitionSource::Skipped => true,
            DefinitionSource::Definition(cfg) => cfg.wf(),
        }
    }
}

impl RegistryView {
    /// The names once `process` is bound to `id`: the binding takes the place
    /// of the one that the name had, or joins the others at the end.
    pub open spec fn bind(self, process: Seq<char>, id: ApplicationID) -> Seq<
        (Seq<char>, ApplicationID),
    > {
        match self.name_index(process, 0) {
            Some(i) => self.names.update(i, (process, id)),
            None => self.names.push((process, id)),
        }
    }

    /// The applications once `app` is entered under `id`: it takes the place
    /// of the one that stood under `id`, or joins the others at the end.
    pub open spec fn enter(self, id: ApplicationID, app: ApplicationView) -> Seq<
        (ApplicationID, ApplicationView),
    > {
        match self.app_index(id, 0) {
            Some(i) => self.apps.update(i, (id, app)),
            None => self.apps.push((id, app)),
        }
    }

    /// The registry once `app` is entered under `id` and its process name
    /// bound to `id`.
    pub open spec fn register(self, id: ApplicationID, app: ApplicationView) -> RegistryView {
        RegistryView { apps: self.enter(id, app), names: self.bind(app.process_name, id) }
    }

    /// Whether an application stands under the identity `id`.
    pub open spec fn has_id(self, id: ApplicationID) -> bool {
        exists|j: int| 0 <= j < self.apps.len() && (#[trigger] self.apps[j]).0 == id
    }

    /// No identity and no process name stands twice, and every name is bound
    /// to the identity of an application.
    pub open spec fn indexed(self) -> bool {
        &&& forall|i: int, j: int|
            0 <= i < j < self.apps.len() ==> (#[trigger] self.apps[i]).0 != (
            #[trigger] self.apps[j]).0
        &&& forall|i: int, j: int|
            0 <= i < j < self.names.len() ==> (#[trigger] self.names[i]).0 != (
            #[trigger] self.names[j]).0
        &&& forall|i: int| 0 <= i < self.names.len() ==> self.has_id((#[trigger] self.names[i]).1)
    }
}

/// The first value of the hash that gives an application its identity
/// (FNV-1a in 32 bits).
pub const ID_BASIS: u32 = 0x811c_9dc5;

/// The factor of that hash.
pub const ID_PRIME: u32 = 0x0100_0193;

/// The hash of the first `n` of the bytes: each byte in turn is mixed into
/// the value by exclusive or, and the value multiplied by the factor, in 32
/// bits.
pub open spec fn hash_bytes(bytes: Seq<u8>, n: int) -> u32
    decreases n,
{
    if n <= 0 {
        ID_BASIS
    } else {
        (hash_bytes(bytes, n - 1) ^ (bytes[n - 1] as u32)).wrapping_mul(ID_PRIME)
    }
}

/// The identity of the application that a definition declares under the
/// name `declared`: the hash of the UTF-8 text of that name. It depends on
/// nothing else, so it is the same in every registry.
pub open spec fn spec_application_id(declared: Seq<char>) -> ApplicationID {
    hash_bytes(encode_utf8(declared), encode_utf8(declared).len() as int)
}

/// The identity of the application that a definition declares under the
/// name `declared`.
pub fn application_id(declared: &str) -> (id: ApplicationID)
    ensures
        id == spec_application_id(declared@),
{
    let bytes = declared.as_bytes();
    let mut hash: u32 = ID_BASIS;
    let mut i: usize = 0;
    while i < bytes.len()
        invariant
            bytes@ == encode_utf8(declared@),
            i <= bytes@.len(),
            hash == hash_bytes(bytes@, i as int),
        decreases bytes@.len() - i,
    {
        hash = (hash ^ (bytes[i] as u32)).wrapping_mul(ID_PRIME);
        i += 1;
    }
    hash
}

/// The registry built from the first `n` entries of a scan. The identity of
/// an application comes from the name that its definition declares; a
/// definition that names no process for `os` adds nothing.
pub open spec fn built(sources: Seq<DefinitionSource>, os: Os, n: int) -> RegistryView
    decreases n,
{
    if n <= 0 {
        RegistryView::empty()
    } else {
        let before = built(sources, os, n - 1);
        match sources[n - 1] {
            DefinitionSource::Skipped => before,
            DefinitionSource::Definition(cfg) => match resolve_application(cfg, os) {
                Ok(app) => before.register(spec_application_id(cfg.app.id@), app),
                Err(_) => before,
            },
        }
    }
}

/// Where the search for a name from `from` on finds it, it stands there, and
/// nowhere between; where it finds none, the name stands nowhere from `from`
/// on.
pub proof fn lemma_name_index(view: RegistryView, process: Seq<char>, from: int)
    requires
        0 <= from,
    ensures
        match view.name_index(process, from) {
            Some(i) => from <= i < view.names.len() && view.names[i].0 == process && forall|j: int|
                from <= j < i ==> (#[trigger] view.names[j]).0 != process,
            None => forall|j: int|
                from <= j < view.names.len() ==> (#[trigger] view.names[j]).0 != process,
        },
    decreases view.names.len() - from,
{
    if from < view.names.len() && view.names[from].0 != process {
        lemma_name_index(view, process, from + 1);
    }
}

/// Where the search for an identity from `from` on finds it, it stands
/// there, and nowhere between; where it finds none, the identity stands
/// nowhere from `from` on.
pub proof fn lemma_app_index(view: RegistryView, id: ApplicationID, from: int)
    requires
        0 <= from,
    ensures
        match view.app_index(id, from) {
            Some(i) => from <= i < view.apps.len() && view.apps[i].0 == id && forall|j: int|
                from <= j < i ==> (#[trigger] view.apps[j]).0 != id,
            None => forall|j: int| from <= j < view.apps.len() ==> (#[trigger] view.apps[j]).0 != id,
        },
    decreases view.apps.len() - from,
{
    if from < view.apps.len() && view.apps[from].0 != id {
        lemma_app_index(view, id, from + 1);
    }
}

/// Entering an application keeps the registry indexed.
pub proof fn lemma_register_indexed(view: RegistryView, id: ApplicationID, app: ApplicationView)
    requires
        view.indexed(),
    ensures
        view.register(id, app).indexed(),
{
    lemma_name_index(view, app.process_name, 0);
    lemma_app_index(view, id, 0);
    let after = view.register(id, app);
    let place = match view.app_index(id, 0) {
        Some(i) => i,
        None => view.apps.len() as int,
    };
    assert(after.apps[place].0 == id);
    assert forall|i: int| 0 <= i < after.apps.len() && i != place implies #[trigger] after.apps[i]
        == view.apps[i] by {}
    assert forall|i: int| 0 <= i < after.names.len() implies after.has_id(
        (#[trigger] after.names[i]).1,
    ) by {
        if after.names[i].1 == id {
            assert(after.apps[place].0 == id);
        } else {
            assert(after.names[i] == view.names[i]);
            let j = choose|j: int| 0 <= j < view.apps.len() && (#[trigger] view.apps[j]).0
                == view.names[i].1;
            assert(after.apps[j].0 == view.apps[j].0);
        }
    }
}

impl Default for MasterRegistry {
    /// The registry without applications.
    fn default() -> (registry: Self)
        ensures
            registry.wf(),
            registry@ == RegistryView::empty(),
    {
        let registry = MasterRegistry {
            application_registry: Vec::new(),
            application_process_name_id: Vec::new(),
        };
        assert(registry@.apps =~= Seq::empty());
        assert(registry@.names =~= Seq::empty());
        registry
    }
}

impl MasterRegistry {
    /// Enters `app` under `id` and binds its process name to `id`. An
    /// identity or a name that was taken before is taken anew: the later
    /// application wins.
    pub fn register(&mut self, id: ApplicationID, app: Application)
        requires
            old(self).wf(),
            app.wf(),
        ensures
            final(self).wf(),
            final(self)@ == old(self)@.register(id, app@),
            old(self)@.indexed() ==> final(self)@.indexed(),
    {
        proof {
            if self@.indexed() {
                lemma_register_indexed(self@, id, app@);
            }
        }
        let process = app.application_process_name.clone();
        let place = self.find_name(&process);
        let app_place = self.find_app(id);
        let ghost before = self@;
        match place {
            Some(i) => {
                self.application_process_name_id.set(i, (process, id));
                assert(self@.names =~= before.names.update(i as int, (app@.process_name, id)));
            },
            None => {
                self.application_process_name_id.push((process, id));
                assert(self@.names =~= before.names.push((app@.process_name, id)));
            },
        }
        let ghost entered = app@;
        match app_place {
            Some(i) => {
                self.application_registry.set(i, (id, app));
                assert(self@.apps =~= before.apps.update(i as int, (id, entered)));
            },
            None => {
                self.application_registry.push((id, app));
                assert(self@.apps =~= before.apps.push((id, entered)));
            },
        }
    }

    /// Builds the registry from what a scan of the definitions directory
    /// found, entry by entry.
    ///
    /// Each definition that names a process for `current_os` adds one
    /// application, under the identity that its declared name gives, and
    /// binds its process name to it; where two claim one identity or one
    /// name, the later wins. Every other entry adds nothing.
    pub fn build(sources: &Vec<DefinitionSource>, current_os: Os) -> (registry: MasterRegistry)
        requires
            forall|i: int| 0 <= i < sources@.len() ==> (#[trigger] sources@[i]).wf(),
        ensures
            registry.wf(),
            registry@ == built(sources@, current_os, sources@.len() as int),
            registry@.indexed(),
    {
        let mut registry = MasterRegistry::default();
        let mut idx: usize = 0;
        while idx < sources.len()
            invariant
                forall|i: int| 0 <= i < sources@.len() ==> (#[trigger] sources@[i]).wf(),
                idx <= sources@.len(),
                registry.wf(),
                registry@ == built(sources@, current_os, idx as int),
                registry@.indexed(),
            decreases sources@.len() - idx,
        {
            assert(sources@[idx as int].wf());
            match &sources[idx] {
                DefinitionSource::Skipped => {},
                DefinitionSource::Definition(cfg) => {
                    match Application::new(cfg, &current_os) {
                        Ok(app) => {
                            let id = application_id(cfg.app.id.as_str());
                            registry.register(id, app);
                        },
                        Err(_) => {},
                    }
                },
            }
            idx += 1;
        }
        registry
    }
}

/// Whether a declared action resolves on `os` under the default focus state.
pub open spec fn resolvable(default: Option<FocusState>, os: Os) -> spec_fn(
    (String, crate::config::Action),
) -> bool {
    |def: (String, crate::config::Action)| resolve_action(def.1, default, os) is Ok
}

/// An application holds as many actions as its definition declares with a
/// key chord for the operating system and a focus state.
pub proof fn law_action_count(
    defs: Seq<(String, crate::config::Action)>,
    default: Option<FocusState>,
    os: Os,
)
    ensures
        resolve_actions(defs, default, os).len() == defs.filter(resolvable(default, os)).len(),
    decreases defs.len(),
{
    reveal(Seq::filter);
    if defs.len() > 0 {
        law_action_count(defs.drop_last(), default, os);
    }
}

/// Every declared action is either loaded or left out: the actions of the
/// application and the actions left out are as many as the definition
/// declares.
pub proof fn law_actions_loaded_or_skipped(
    defs: Seq<(String, crate::config::Action)>,
    default: Option<FocusState>,
    os: Os,
    n: int,
)
    requires
        0 <= n <= defs.len(),
    ensures
        resolve_actions(defs.take(n), default, os).len() + skipped_actions(defs, default, os, n).len()
            == n,
    decreases n,
{
    if n > 0 {
        law_actions_loaded_or_skipped(defs, default, os, n - 1);
        assert(defs.take(n).drop_last() =~= defs.take(n - 1));
        assert(defs.take(n).last() == defs[n - 1]);
    }
}

/// A scan that found one definition, which names a process for the operating
/// system, builds a registry of exactly one application. It stands under the
/// identity of its declared name, and holds one action for each declared
/// action with a key chord for the operating system and a focus state.
pub proof fn law_one_definition_one_application(cfg: Config, os: Os)
    requires
        cfg.app.application_os_name.spec_for_os(os) is Some,
    ensures
        built(seq![DefinitionSource::Definition(cfg)], os, 1).apps.len() == 1,
        built(seq![DefinitionSource::Definition(cfg)], os, 1).apps[0].0 == spec_application_id(
            cfg.app.id@,
        ),
        built(seq![DefinitionSource::Definition(cfg)], os, 1).apps[0].1.actions.len()
            == cfg.actions@.filter(resolvable(cfg.app.default_focus_state, os)).len(),
        resolve_application(cfg, os) == Ok::<ApplicationView, LoadError>(
            built(seq![DefinitionSource::Definition(cfg)], os, 1).apps[0].1,
        ),
{
    let sources = seq![DefinitionSource::Definition(cfg)];
    assert(built(sources, os, 0) == RegistryView::empty());
    assert(sources[0] == DefinitionSource::Definition(cfg));
    assert(RegistryView::empty().app_index(spec_application_id(cfg.app.id@), 0) is None);
    law_action_count(cfg.actions@, cfg.app.default_focus_state, os);
}

/// The number of applications in the registry built from the first `n`
/// entries of a scan.
pub open spec fn loaded_count(sources: Seq<DefinitionSource>, os: Os, n: int) -> nat {
    built(sources, os, n).apps.len()
}

/// A definition that names no process for the operating system adds no
/// application: the registry with it is the registry without it.
pub proof fn law_unbound_definition_adds_nothing(
    sources: Seq<DefinitionSource>,
    os: Os,
    n: int,
    cfg: Config,
)
    requires
        0 < n <= sources.len(),
        sources[n - 1] == DefinitionSource::Definition(cfg),
        cfg.app.application_os_name.spec_for_os(os) is None,
    ensures
        built(sources, os, n) == built(sources, os, n - 1),
        loaded_count(sources, os, n) == loaded_count(sources, os, n - 1),
{
}

/// Whether the entry of a scan loads as the application `app` under the
/// identity `id`.
pub open spec fn loads_as(source: DefinitionSource, os: Os, id: ApplicationID, app: ApplicationView) -> bool {
    match source {
        DefinitionSource::Definition(cfg) => resolve_application(cfg, os) == Ok::<
            ApplicationView,
            LoadError,
        >(app) && id == spec_application_id(cfg.app.id@),
        DefinitionSource::Skipped => false,
    }
}

/// Every application of a built registry comes from a definition of the scan
/// that resolves to it, and stands under the identity that the declared name
/// of that definition gives.
pub proof fn law_built_applications(sources: Seq<DefinitionSource>, os: Os, n: int, i: int)
    requires
        0 <= n <= sources.len(),
        0 <= i < built(sources, os, n).apps.len(),
    ensures
        exists|k: int|
            0 <= k < n && loads_as(
                #[trigger] sources[k],
                os,
                built(sources, os, n).apps[i].0,
                built(sources, os, n).apps[i].1,
            ),
    decreases n,
{
    if n > 0 {
        let before = built(sources, os, n - 1);
        let after = built(sources, os, n);
        if after == before {
            law_built_applications(sources, os, n - 1, i);
        } else {
            let cfg = sources[n - 1]->Definition_0;
            let id = spec_application_id(cfg.app.id@);
            lemma_app_index(before, id, 0);
            let place = match before.app_index(id, 0) {
                Some(p) => p,
                None => before.apps.len() as int,
            };
            if i == place {
                assert(loads_as(sources[n - 1], os, after.apps[i].0, after.apps[i].1));
            } else {
                assert(after.apps[i] == before.apps[i]);
                law_built_applications(sources, os, n - 1, i);
            }
        }
    }
}

/// Entering an application under one identity leaves the search for another
/// identity as it was.
proof fn lemma_enter_keeps_places(
    view: RegistryView,
    id: ApplicationID,
    app: ApplicationView,
    other: ApplicationID,
    from: int,
)
    requires
        other != id,
        0 <= from,
    ensures
        view.register(id, app).app_index(other, from) == view.app_index(other, from),
    decreases view.apps.len() + 1 - from,
{
    let after = view.register(id, app);
    lemma_app_index(view, id, 0);
    if from < after.apps.len() {
        lemma_enter_keeps_places(view, id, app, other, from + 1);
        if from < view.apps.len() {
            assert(after.apps[from].0 == view.apps[from].0);
        } else {
            assert(after.apps[from].0 == id);
        }
    }
}

/// After an application is entered under an identity, it is the application
/// of that identity, and every other identity has the application that it
/// had.
pub proof fn lemma_register_app_of(
    view: RegistryView,
    id: ApplicationID,
    app: ApplicationView,
    other: ApplicationID,
)
    ensures
        view.register(id, app).app_of(id) == Some(app),
        other != id ==> view.register(id, app).app_of(other) == view.app_of(other),
{
    let after = view.register(id, app);
    lemma_app_index(view, id, 0);
    lemma_app_index(after, id, 0);
    let place = match view.app_index(id, 0) {
        Some(i) => i,
        None => view.apps.len() as int,
    };
    assert(after.apps[place] == (id, app));
    assert forall|j: int| 0 <= j < place implies (#[trigger] after.apps[j]).0 != id by {
        assert(after.apps[j] == view.apps[j]);
    }
    if other != id {
        lemma_enter_keeps_places(view, id, app, other, 0);
        lemma_app_index(view, other, 0);
        match view.app_index(other, 0) {
            Some(i) => {
                assert(after.apps[i] == view.apps[i]);
            },
            None => {},
        }
    }
}

/// Whether the entry of a scan loads under the identity `id`.
pub open spec fn takes_identity(source: DefinitionSource, os: Os, id: ApplicationID) -> bool {
    match source {
        DefinitionSource::Definition(cfg) => resolve_application(cfg, os) is Ok && id
            == spec_application_id(cfg.app.id@),
        DefinitionSource::Skipped => false,
    }
}

/// A definition that names a process for the operating system is in the
/// registry, as the one application of its identity and with the actions
/// that resolve, unless a later entry of the scan takes the same identity.
pub proof fn law_definition_is_loaded(
    sources: Seq<DefinitionSource>,
    os: Os,
    n: int,
    k: int,
    cfg: Config,
)
    requires
        0 <= k < n <= sources.len(),
        sources[k] == DefinitionSource::Definition(cfg),
        resolve_application(cfg, os) is Ok,
        forall|j: int|
            k < j < n ==> !takes_identity(
                #[trigger] sources[j],
                os,
                spec_application_id(cfg.app.id@),
            ),
    ensures
        built(sources, os, n).app_of(spec_application_id(cfg.app.id@)) == Some(
            resolve_application(cfg, os)->Ok_0,
        ),
    decreases n,
{
    let id = spec_application_id(cfg.app.id@);
    let before = built(sources, os, n - 1);
    if k == n - 1 {
        lemma_register_app_of(before, id, resolve_application(cfg, os)->Ok_0, id);
    } else {
        law_definition_is_loaded(sources, os, n - 1, k, cfg);
        assert(!takes_identity(sources[n - 1], os, id));
        match sources[n - 1] {
            DefinitionSource::Skipped => {},
            DefinitionSource::Definition(later) => match resolve_application(later, os) {
                Ok(app) => {
                    lemma_register_app_of(before, spec_application_id(later.app.id@), app, id);
                },
                Err(_) => {},
            },
        }
    }
}

/// The registry built from a scan has no identity and no process name twice,
/// and binds every name to the identity of one of its applications.
pub proof fn law_built_is_indexed(sources: Seq<DefinitionSource>, os: Os, n: int)
    requires
        0 <= n <= sources.len(),
    ensures
        built(sources, os, n).indexed(),
    decreases n,
{
    if n > 0 {
        law_built_is_indexed(sources, os, n - 1);
        match sources[n - 1] {
            DefinitionSource::Skipped => {},
            DefinitionSource::Definition(cfg) => match resolve_application(cfg, os) {
                Ok(app) => {
                    lemma_register_indexed(
                        built(sources, os, n - 1),
                        spec_application_id(cfg.app.id@),
                        app,
                    );
                },
                Err(_) => {},
            },
        }
    }
}

/// Building twice from the same scan gives registries of the same content,
/// with every application under the same identity.
pub proof fn law_build_repeatable(
    first: MasterRegistry,
    second: MasterRegistry,
    sources: Seq<DefinitionSource>,
    os: Os,
)
    requires
        first@ == built(sources, os, sources.len() as int),
        second@ == built(sources, os, sources.len() as int),
    ensures
        first@ == second@,
        first@.apps == second@.apps,
        first@.names == second@.names,
{
}

/// Every action offered for a focus state is an action of the application
/// and carries that state: none is tagged with another.
pub proof fn law_offered_actions_keep_their_state(
    app: ApplicationView,
    focus: FocusState,
    n: int,
    k: int,
)
    requires
        0 <= n <= app.actions.len(),
        0 <= k < actions_in_state(app, focus, n).len(),
    ensures
        actions_in_state(app, focus, n)[k].focus_state == focus,
        actions_in_state(app, focus, n)[k].app_name == app.name,
        0 <= actions_in_state(app, focus, n)[k].action_id < n,
        actions_in_state(app, focus, n)[k] == unit_of(
            app,
            actions_in_state(app, focus, n)[k].action_id,
        ),
    decreases n,
{
    if n > 0 {
        let before = actions_in_state(app, focus, n - 1);
        if k < before.len() {
            law_offered_actions_keep_their_state(app, focus, n - 1, k);
        }
    }
}

/// Every action of an application in a focus state is offered for that state.
pub proof fn law_every_action_in_state_is_offered(
    app: ApplicationView,
    focus: FocusState,
    n: int,
    id: int,
)
    requires
        0 <= id < n <= app.actions.len(),
        app.actions[id].focus_state == focus,
    ensures
        actions_in_state(app, focus, n).contains(unit_of(app, id)),
    decreases n,
{
    let offered = actions_in_state(app, focus, n);
    if id == n - 1 {
        assert(offered[offered.len() - 1] == unit_of(app, id));
    } else {
        law_every_action_in_state_is_offered(app, focus, n - 1, id);
        let before = actions_in_state(app, focus, n - 1);
        let k = choose|k: int| 0 <= k < before.len() && before[k] == unit_of(app, id);
        assert(offered[k] == unit_of(app, id));
    }
}

/// With no window at all, exactly the global actions are on offer.
pub proof fn law_no_window_only_global(registry: RegistryView, context: ContextRoot)
    requires
        context.fg_context@.len() == 0,
        context.bg_context@.len() == 0,
    ensures
        registry.available_actions(context) == registry.global_actions(
            registry.apps.len() as int,
        ),
{
    assert(registry.background_actions(context.bg_context@, 0) == Seq::<UnitActionView>::empty());
    assert(Seq::<UnitActionView>::empty() + Seq::<UnitActionView>::empty()
        + registry.global_actions(registry.apps.len() as int) =~= registry.global_actions(
        registry.apps.len() as int,
    ));
}

/// A window whose process no application has claimed adds nothing.
pub proof fn law_unclaimed_window_adds_nothing(
    registry: RegistryView,
    window: WindowContext,
    focus: FocusState,
)
    requires
        match window.spec_process_name() {
            None => true,
            Some(process) => registry.id_of(process) is None,
        },
    ensures
        registry.window_actions(window, focus) == Seq::<UnitActionView>::empty(),
{
}

/// With one window, in the background, the actions on offer are the
/// background actions of its application, and behind them the global actions:
/// no focused action is among those of the window.
pub proof fn law_sole_background_window(registry: RegistryView, context: ContextRoot)
    requires
        context.fg_context@.len() == 0,
        context.bg_context@.len() == 1,
    ensures
        registry.available_actions(context) == registry.window_actions(
            context.bg_context@[0],
            FocusState::Background,
        ) + registry.global_actions(registry.apps.len() as int),
{
    let own = registry.window_actions(context.bg_context@[0], FocusState::Background);
    assert(registry.background_actions(context.bg_context@, 0) == Seq::<UnitActionView>::empty());
    assert(registry.background_actions(context.bg_context@, 1) =~= own);
    assert(own + Seq::<UnitActionView>::empty() =~= own);
}

/// With one window, in the foreground, the actions on offer are the focused
/// actions of its application, and behind them the global actions: no
/// background action is among those of the window.
pub proof fn law_sole_foreground_window(registry: RegistryView, context: ContextRoot)
    requires
        context.fg_context@.len() == 1,
        context.bg_context@.len() == 0,
    ensures
        registry.available_actions(context) == registry.window_actions(
            context.fg_context@[0],
            FocusState::Focused,
        ) + registry.global_actions(registry.apps.len() as int),
{
    let own = registry.window_actions(context.fg_context@[0], FocusState::Focused);
    assert(registry.background_actions(context.bg_context@, 0) == Seq::<UnitActionView>::empty());
    assert(Seq::<UnitActionView>::empty() + own =~= own);
}

} // verus!
