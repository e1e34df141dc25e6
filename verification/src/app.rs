//! The dashboard's state and its reaction to keys and to what the engine
//! reports. Nothing here performs input or output: a step returns the effect
//! that the caller has to carry out.

use vstd::prelude::*;
use crate::actions::{first_bound, Action, Actions};
use crate::container::{
    find_by_id, id_set, index_of_id, lemma_upserted, lemma_without_id, remove_by_id, upsert,
    upserted, well_formed, without_id, Container,
};
use crate::io::{IoEvent, IoRequest};
use crate::key::Key;
use crate::logs::{lemma_position_stays_inside, LogBuffer, LogModel};
use crate::management::ContainerManagement;
use crate::state::{exec_actions, logging_actions, monitoring_actions, AppState, Mode};
use crate::text::{push_char, str_eq, text_of, trim, trimmed, views_of};

verus! {

/// Whether the dashboard goes on after a step.
#[derive(Clone, Copy, Debug, PartialEq, Eq, Structural)]
pub enum AppReturn {
    Exit,
    Continue,
}

/// What the caller has to carry out after a step.
#[derive(Debug)]
pub enum Effect {
    /// Nothing.
    Nothing,
    /// Hand the request to the side that talks to the engine.
    Dispatch(IoEvent),
    /// Send the text to the shell of the open session.
    Transmit(String),
}

/// The mathematical content of an [`Effect`].
pub enum EffectModel {
    Nothing,
    Dispatch(IoRequest),
    Transmit(Seq<char>),
}

impl View for Effect {
    type V = EffectModel;

    open spec fn view(&self) -> EffectModel {
        match *self {
            Effect::Nothing => EffectModel::Nothing,
            Effect::Dispatch(event) => EffectModel::Dispatch(event@),
            Effect::Transmit(text) => EffectModel::Transmit(text@),
        }
    }
}

/// The result of a step: whether to go on, and what to carry out.
#[derive(Debug)]
pub struct Step {
    pub outcome: AppReturn,
    pub effect: Effect,
}

/// The mathematical content of an [`App`].
pub struct AppModel {
    /// The known containers, sorted by name.
    pub containers: Seq<Container>,
    /// The mode that is showing.
    pub mode: Mode,
    /// The actions that are valid now.
    pub actions: Seq<Action>,
    /// The id of the selected container.
    pub selected: Option<Seq<char>>,
    /// The scroll-back buffer.
    pub logs: LogModel,
    /// Whether a channel to a shell was opened.
    pub exec_open: bool,
    /// The command that is being typed.
    pub exec_cmd: Seq<char>,
    /// The command that was sent last and whose echo is still expected.
    pub last_cmd: Option<Seq<char>>,
}

/// A state after a step, with the step's result.
pub struct StepModel {
    pub app: AppModel,
    pub outcome: AppReturn,
    pub effect: EffectModel,
}

impl AppModel {
    /// The state's invariant: the containers are sorted by name with one
    /// record for each id, the scroll position is inside the buffer, and the
    /// valid actions are those of the mode.
    pub open spec fn wf(self) -> bool {
        &&& well_formed(self.containers)
        &&& self.logs.wf()
        &&& self.actions == self.mode.actions()
    }

    /// The state in which the dashboard starts.
    pub open spec fn initial() -> AppModel {
        AppModel {
            containers: Seq::empty(),
            mode: Mode::Monitoring,
            actions: monitoring_actions(),
            selected: None,
            logs: LogModel::empty(),
            exec_open: false,
            exec_cmd: Seq::empty(),
            last_cmd: None,
        }
    }

    /// The step that changes nothing.
    pub open spec fn stay(self) -> StepModel {
        StepModel { app: self, outcome: AppReturn::Continue, effect: EffectModel::Nothing }
    }

    /// The step that leads to `next` and has no effect.
    pub open spec fn go(self, next: AppModel) -> StepModel {
        StepModel { app: next, outcome: AppReturn::Continue, effect: EffectModel::Nothing }
    }

    /// The place of the selected container in the list.
    pub open spec fn selected_index(self) -> Option<int> {
        match self.selected {
            Some(id) => {
                let i = index_of_id(self.containers, id);
                if i < self.containers.len() {
                    Some(i)
                } else {
                    None
                }
            },
            None => None,
        }
    }

    /// The place from which the selection moves: that of the selected
    /// container, or the top of the list.
    pub open spec fn cursor(self) -> int {
        match self.selected_index() {
            Some(i) => i,
            None => 0,
        }
    }

    /// The id of the container at a place of the list.
    pub open spec fn id_at(self, index: int) -> Option<Seq<char>> {
        if 0 <= index < self.containers.len() {
            Some(self.containers[index].id@)
        } else {
            None
        }
    }

    /// The selection moves one container down and stays at the last one.
    /// Without a selection the first container is selected.
    pub open spec fn moved_next(self) -> AppModel {
        let index = match self.selected {
            Some(_) => if self.cursor() + 1 >= self.containers.len() {
                self.cursor()
            } else {
                self.cursor() + 1
            },
            None => 0,
        };
        AppModel { selected: self.id_at(index), ..self }
    }

    /// The selection moves one container up and stays at the first one.
    /// Without a selection the first container is selected.
    pub open spec fn moved_previous(self) -> AppModel {
        let index = match self.selected {
            Some(_) => if self.cursor() == 0 {
                0
            } else {
                self.cursor() - 1
            },
            None => 0,
        };
        AppModel { selected: self.id_at(index), ..self }
    }

    /// The container table is showing again, with an empty buffer.
    pub open spec fn back_to_monitoring(self) -> AppModel {
        AppModel {
            mode: Mode::Monitoring,
            actions: monitoring_actions(),
            logs: self.logs.cleared(),
            ..self
        }
    }

    /// A step that hands a request about the selected container to the
    /// engine's side and leads to `next`; without a selection nothing happens.
    pub open spec fn with_selected(
        self,
        next: spec_fn(Seq<char>) -> AppModel,
        request: spec_fn(Seq<char>) -> IoRequest,
    ) -> StepModel {
        match self.selected {
            None => self.stay(),
            Some(id) => StepModel {
                app: next(id),
                outcome: AppReturn::Continue,
                effect: EffectModel::Dispatch(request(id)),
            },
        }
    }

    /// What an action does while the container table is showing.
    pub open spec fn monitoring_action(self, action: Action) -> StepModel {
        match action {
            Action::Quit => StepModel {
                app: self,
                outcome: AppReturn::Exit,
                effect: EffectModel::Nothing,
            },
            Action::ShowLogs => self.with_selected(
                |id: Seq<char>|
                    AppModel {
                        mode: Mode::Logging(id),
                        actions: logging_actions(),
                        logs: self.logs.rewound(),
                        ..self
                    },
                |id: Seq<char>| IoRequest::ShowLogs(id),
            ),
            Action::ExecCommands => self.with_selected(
                |id: Seq<char>|
                    AppModel {
                        mode: Mode::ExecCommand(id),
                        actions: exec_actions(),
                        exec_open: true,
                        exec_cmd: Seq::empty(),
                        ..self
                    },
                |id: Seq<char>| IoRequest::StartExecSession(id),
            ),
            Action::Next => self.go(self.moved_next()),
            Action::Previous => self.go(self.moved_previous()),
            Action::StopContainer => self.with_selected(
                |id: Seq<char>| self,
                |id: Seq<char>| IoRequest::StopContainer(id),
            ),
            Action::PauseContainer => self.with_selected(
                |id: Seq<char>| self,
                |id: Seq<char>| IoRequest::PauseContainer(id),
            ),
            _ => self.stay(),
        }
    }

    /// What an action does while a log is showing.
    pub open spec fn logging_action(self, action: Action) -> StepModel {
        match action {
            Action::Quit => if self.logs.search is Some {
                self.go(AppModel { logs: self.logs.search_cancelled(), ..self })
            } else {
                StepModel {
                    app: self.back_to_monitoring(),
                    outcome: AppReturn::Continue,
                    effect: EffectModel::Dispatch(IoRequest::StartMonitoring),
                }
            },
            Action::ScrollDown => self.go(AppModel { logs: self.logs.scrolled_down(), ..self }),
            Action::ScrollUp => self.go(AppModel { logs: self.logs.scrolled_up(), ..self }),
            Action::Search => self.go(AppModel { logs: self.logs.searched(), ..self }),
            Action::Remove => self.go(AppModel { logs: self.logs.erased(), ..self }),
            _ => self.stay(),
        }
    }

    /// The command as it is sent: what was typed, and a line end.
    pub open spec fn command_line(self) -> Seq<char> {
        self.exec_cmd + "\n"@
    }

    /// What an action does while a shell is showing.
    pub open spec fn exec_action(self, action: Action) -> StepModel {
        match action {
            Action::Quit => StepModel {
                app: self.back_to_monitoring(),
                outcome: AppReturn::Continue,
                effect: if self.exec_open {
                    EffectModel::Transmit("exit\n"@)
                } else {
                    EffectModel::Nothing
                },
            },
            Action::SendCMD => if self.exec_open {
                StepModel {
                    app: AppModel {
                        logs: self.logs.echoed(self.command_line()),
                        last_cmd: Some(self.command_line()),
                        exec_cmd: Seq::empty(),
                        ..self
                    },
                    outcome: AppReturn::Continue,
                    effect: EffectModel::Transmit(self.command_line()),
                }
            } else {
                self.stay()
            },
            _ => self.stay(),
        }
    }

    /// What an action does in the mode that is showing.
    pub open spec fn after_action(self, action: Action) -> StepModel {
        match self.mode {
            Mode::Monitoring => self.monitoring_action(action),
            Mode::Logging(_) => self.logging_action(action),
            Mode::ExecCommand(_) => self.exec_action(action),
            Mode::Inspecting(_) => self.stay(),
        }
    }

    /// What a key does. An open search takes every character first, then an
    /// open shell does; any other key goes to the action that it triggers in
    /// the mode that is showing, and does nothing where it triggers none.
    pub open spec fn after_key(self, key: Key) -> StepModel {
        if self.logs.search is Some && key is Char {
            self.go(AppModel { logs: self.logs.typed(key->Char_0), ..self })
        } else if self.mode is ExecCommand && key is Char {
            self.go(AppModel { exec_cmd: self.exec_cmd.push(key->Char_0), ..self })
        } else {
            match first_bound(self.actions, key) {
                Some(action) => self.after_action(action),
                None => self.stay(),
            }
        }
    }

    /// Whether `output` is the shell's echo of the command sent last: both
    /// are the same text once the white space around them is taken off.
    pub open spec fn echoes(self, output: Seq<char>) -> bool {
        self.last_cmd matches Some(cmd) && trimmed(output) == trimmed(cmd)
    }

    /// What a piece of shell output does, given whether it is the echo of the
    /// command sent last. The word `exit` ends the session. In a shell view an
    /// echo is swallowed once, and anything else becomes a line of the buffer.
    pub open spec fn after_output(self, output: Seq<char>, echo: bool) -> AppModel {
        if output == "exit"@ {
            self.back_to_monitoring()
        } else if self.mode is ExecCommand {
            if self.last_cmd is Some && echo {
                AppModel { last_cmd: None, ..self }
            } else {
                AppModel { logs: self.logs.pushed(output), ..self }
            }
        } else {
            self
        }
    }

    /// A container record arrives from the engine.
    pub open spec fn with_container(self, c: Container) -> AppModel {
        AppModel { containers: upserted(self.containers, c), ..self }
    }

    /// The engine no longer lists a container.
    pub open spec fn without_container(self, id: Seq<char>) -> AppModel {
        AppModel { containers: without_id(self.containers, id), ..self }
    }

    /// Fetched log lines arrive.
    pub open spec fn with_logs(self, lines: Seq<Seq<char>>) -> AppModel {
        AppModel { logs: self.logs.appended(lines), ..self }
    }
}

/// Without a selected container the actions that need one change nothing:
/// the mode, the buffer, its watermark and everything else stay, and no
/// request goes out.
pub proof fn lemma_nothing_without_selection(m: AppModel, action: Action)
    requires
        m.selected is None,
        action == Action::ShowLogs || action == Action::ExecCommands || action
            == Action::StopContainer || action == Action::PauseContainer,
    ensures
        m.monitoring_action(action) == m.stay(),
        m.monitoring_action(action).app.mode == m.mode,
        m.monitoring_action(action).app.logs == m.logs,
        m.monitoring_action(action).effect == EffectModel::Nothing,
{
}

/// Every step keeps the state's invariant.
pub proof fn lemma_step_keeps_invariant(m: AppModel, key: Key)
    requires
        m.wf(),
    ensures
        m.after_key(key).app.wf(),
{
    lemma_position_stays_inside(m.logs, Seq::empty(), m.command_line(), ' ', 0);
}

/// Whatever the engine reports keeps the state's invariant.
pub proof fn lemma_report_keeps_invariant(
    m: AppModel,
    c: Container,
    id: Seq<char>,
    lines: Seq<Seq<char>>,
    output: Seq<char>,
    echo: bool,
)
    requires
        m.wf(),
    ensures
        m.with_container(c).wf(),
        m.without_container(id).wf(),
        m.with_logs(lines).wf(),
        m.after_output(output, echo).wf(),
{
    lemma_upserted(m.containers, c);
    lemma_without_id(m.containers, id);
}

/// In a shell view, the echo of the command sent last is swallowed once:
/// the buffer stays as it is and no further echo is expected. Output that
/// is no echo, and is not the word that ends the session, becomes the
/// newest line.
pub proof fn lemma_echo_is_swallowed_once(m: AppModel, output: Seq<char>, later: Seq<char>)
    requires
        m.mode is ExecCommand,
        m.last_cmd is Some,
        output != "exit"@,
        later != "exit"@,
    ensures
        m.after_output(output, true).logs == m.logs,
        m.after_output(output, true).last_cmd is None,
        m.after_output(output, true).after_output(later, true).logs == m.logs.pushed(later),
        m.after_output(output, false).logs == m.logs.pushed(output),
{
}

/// The dashboard's state.
#[derive(Debug)]
pub struct App {
    containers: Vec<Container>,
    actions: Actions,
    state: AppState,
    selected_container: Option<String>,
    logs: LogBuffer,
    exec_open: bool,
    exec_cmd: String,
    last_cmd: Option<String>,
}

impl View for App {
    type V = AppModel;

    closed spec fn view(&self) -> AppModel {
        AppModel {
            containers: self.containers@,
            mode: self.state@,
            actions: self.actions@,
            selected: text_of(self.selected_container),
            logs: self.logs@,
            exec_open: self.exec_open,
            exec_cmd: self.exec_cmd@,
            last_cmd: text_of(self.last_cmd),
        }
    }
}

impl App {
    /// The invariant of the state; see [`AppModel::wf`].
    pub open spec fn wf(&self) -> bool {
        self@.wf()
    }

    /// The state in which the dashboard starts: the empty container table.
    pub fn new() -> (r: App)
        ensures
            r@ == AppModel::initial(),
            r.wf(),
    {
        let state = AppState::default();
        let actions = state.get_actions();
        App {
            containers: Vec::new(),
            actions,
            state,
            selected_container: None,
            logs: LogBuffer::new(),
            exec_open: false,
            exec_cmd: String::new(),
            last_cmd: None,
        }
    }

    fn stay() -> (r: Step)
        ensures
            r.outcome == AppReturn::Continue,
            r.effect@ == EffectModel::Nothing,
    {
        Step { outcome: AppReturn::Continue, effect: Effect::Nothing }
    }

    fn enter(&mut self, state: AppState)
        requires
            old(self).logs.wf(),
            well_formed(old(self).containers@),
        ensures
            final(self)@ == (AppModel { mode: state@, actions: state@.actions(), ..old(self)@ }),
            final(self).wf(),
    {
        self.actions = state.get_actions();
        self.state = state;
    }

    /// Handles a key. See [`AppModel::after_key`].
    pub fn do_action(&mut self, key: Key) -> (r: Step)
        requires
            old(self).wf(),
        ensures
            final(self).wf(),
            final(self)@ == old(self)@.after_key(key).app,
            r.outcome == old(self)@.after_key(key).outcome,
            r.effect@ == old(self)@.after_key(key).effect,
    {
        if self.logs.search().is_some() {
            if let Some(c) = key.get_char() {
                self.logs.type_char(c);
                return Self::stay();
            }
        }
        if self.state.is_exec_command() {
            if let Some(c) = key.get_char() {
                push_char(&mut self.exec_cmd, c);
                return Self::stay();
            }
        }
        let found = match self.actions.find(key) {
            Some(action) => Some(*action),
            None => None,
        };
        match found {
            Some(action) => {
                if self.state.is_monitoring() {
                    self.do_state_monitoring_actions(action)
                } else if self.state.is_logging() {
                    self.do_state_logging_actions(action)
                } else if self.state.is_exec_command() {
                    self.do_state_exec_command_actions(action)
                } else {
                    Self::stay()
                }
            },
            None => Self::stay(),
        }
    }

    /// Carries out an action of the container table. See
    /// [`AppModel::monitoring_action`].
    pub fn do_state_monitoring_actions(&mut self, action: Action) -> (r: Step)
        requires
            old(self).wf(),
        ensures
            final(self).wf(),
            final(self)@ == old(self)@.monitoring_action(action).app,
            r.outcome == old(self)@.monitoring_action(action).outcome,
            r.effect@ == old(self)@.monitoring_action(action).effect,
    {
        match action {
            Action::Quit => Step { outcome: AppReturn::Exit, effect: Effect::Nothing },
            Action::ShowLogs => {
                let id = match &self.selected_container {
                    Some(id) => id.clone(),
                    None => { return Self::stay(); },
                };
                self.logs.rewind();
                self.enter(AppState::Logging { container: id.clone() });
                Step { outcome: AppReturn::Continue, effect: Effect::Dispatch(IoEvent::ShowLogs(id)) }
            },
            Action::ExecCommands => {
                let id = match &self.selected_container {
                    Some(id) => id.clone(),
                    None => { return Self::stay(); },
                };
                self.exec_cmd = String::new();
                self.exec_open = true;
                self.enter(AppState::ExecCommand { container: id.clone() });
                Step {
                    outcome: AppReturn::Continue,
                    effect: Effect::Dispatch(IoEvent::StartExecSession(id)),
                }
            },
            Action::Next => {
                self.next();
                Self::stay()
            },
            Action::Previous => {
                self.previous();
                Self::stay()
            },
            Action::StopContainer => {
                match &self.selected_container {
                    Some(id) => Step {
                        outcome: AppReturn::Continue,
                        effect: Effect::Dispatch(IoEvent::StopContainer(id.clone())),
                    },
                    None => Self::stay(),
                }
            },
            Action::PauseContainer => {
                match &self.selected_container {
                    Some(id) => Step {
                        outcome: AppReturn::Continue,
                        effect: Effect::Dispatch(IoEvent::PauseContainer(id.clone())),
                    },
                    None => Self::stay(),
                }
            },
            _ => Self::stay(),
        }
    }

    /// Carries out an action of the log view. See
    /// [`AppModel::logging_action`].
    pub fn do_state_logging_actions(&mut self, action: Action) -> (r: Step)
        requires
            old(self).wf(),
        ensures
            final(self).wf(),
            final(self)@ == old(self)@.logging_action(action).app,
            r.outcome == old(self)@.logging_action(action).outcome,
            r.effect@ == old(self)@.logging_action(action).effect,
    {
        match action {
            Action::Quit => {
                if self.logs.search().is_some() {
                    self.logs.cancel_search();
                    return Self::stay();
                }
                self.logs.clear();
                self.enter(AppState::Monitoring);
                Step {
                    outcome: AppReturn::Continue,
                    effect: Effect::Dispatch(IoEvent::StartMonitoring),
                }
            },
            Action::ScrollDown => {
                self.logs.scroll_down();
                Self::stay()
            },
            Action::ScrollUp => {
                self.logs.scroll_up();
                Self::stay()
            },
            Action::Search => {
                self.logs.search_next();
                Self::stay()
            },
            Action::Remove => {
                self.logs.erase_char();
                Self::stay()
            },
            _ => Self::stay(),
        }
    }

    /// Carries out an action of the shell view. See
    /// [`AppModel::exec_action`].
    pub fn do_state_exec_command_actions(&mut self, action: Action) -> (r: Step)
        requires
            old(self).wf(),
        ensures
            final(self).wf(),
            final(self)@ == old(self)@.exec_action(action).app,
            r.outcome == old(self)@.exec_action(action).outcome,
            r.effect@ == old(self)@.exec_action(action).effect,
    {
        match action {
            Action::Quit => {
                self.logs.clear();
                self.enter(AppState::Monitoring);
                if self.exec_open {
                    Step {
                        outcome: AppReturn::Continue,
                        effect: Effect::Transmit(String::from_str("exit\n")),
                    }
                } else {
                    Self::stay()
                }
            },
            Action::SendCMD => {
                if self.exec_open {
                    self.exec_cmd.append("\n");
                    self.logs.echo(self.exec_cmd.as_str());
                    let sent = self.exec_cmd.clone();
                    self.last_cmd = Some(self.exec_cmd.clone());
                    self.exec_cmd = String::new();
                    Step { outcome: AppReturn::Continue, effect: Effect::Transmit(sent) }
                } else {
                    Self::stay()
                }
            },
            _ => Self::stay(),
        }
    }

    /// The periodic tick changes nothing.
    pub fn update_on_tick(&mut self) -> (r: AppReturn)
        ensures
            r == AppReturn::Continue,
            *final(self) == *old(self),
    {
        AppReturn::Continue
    }

    /// The actions that are valid now.
    pub fn actions(&self) -> (r: &Actions)
        ensures
            r@ == self@.actions,
    {
        &self.actions
    }

    /// The mode that is showing.
    pub fn state(&self) -> (r: &AppState)
        ensures
            r@ == self@.mode,
    {
        &self.state
    }

    /// The known containers, sorted by name.
    pub fn containers(&self) -> (r: &Vec<Container>)
        ensures
            r@ == self@.containers,
    {
        &self.containers
    }

    /// The id of the selected container.
    pub fn selected_container(&self) -> (r: &Option<String>)
        ensures
            text_of(*r) == self@.selected,
    {
        &self.selected_container
    }

    /// The place of the selected container in the list; none where nothing
    /// is selected or the selected container is gone.
    pub fn selected_container_index(&self) -> (r: Option<usize>)
        ensures
            match r {
                Some(i) => self@.selected_index() == Some(i as int),
                None => self@.selected_index() is None,
            },
    {
        match &self.selected_container {
            Some(id) => {
                let i = find_by_id(&self.containers, id.as_str());
                if i < self.containers.len() {
                    Some(i)
                } else {
                    None
                }
            },
            None => None,
        }
    }

    /// The lines of the buffer, oldest first.
    pub fn logs(&self) -> (r: &Vec<String>)
        ensures
            views_of(r@) == self@.logs.lines,
    {
        self.logs.lines()
    }

    /// How many lines the view is scrolled up from the newest line.
    pub fn log_position(&self) -> (r: usize)
        ensures
            r == self@.logs.position,
    {
        self.logs.position()
    }

    /// The time, in seconds since the epoch, from which the next fetch of
    /// log lines starts.
    pub fn log_watermark(&self) -> (r: i64)
        ensures
            r == self@.logs.watermark,
    {
        self.logs.watermark()
    }

    /// The search needle, while a search is active.
    pub fn search(&self) -> (r: &Option<String>)
        ensures
            text_of(*r) == self@.logs.search,
    {
        self.logs.search()
    }

    /// The command that is being typed.
    pub fn exec_cmd(&self) -> (r: &String)
        ensures
            r@ == self@.exec_cmd,
    {
        &self.exec_cmd
    }

    fn id_at(&self, index: usize) -> (r: Option<String>)
        ensures
            text_of(r) == self@.id_at(index as int),
    {
        if index < self.containers.len() {
            Some(self.containers[index].id.clone())
        } else {
            None
        }
    }

    fn cursor(&self) -> (r: usize)
        ensures
            r == self@.cursor(),
            r == 0 || r < self.containers@.len(),
    {
        match self.selected_container_index() {
            Some(i) => i,
            None => 0,
        }
    }

    /// Moves the selection one container down. See [`AppModel::moved_next`].
    pub fn next(&mut self)
        requires
            old(self).wf(),
        ensures
            final(self)@ == old(self)@.moved_next(),
            final(self).wf(),
    {
        let index = if self.selected_container.is_some() {
            let at = self.cursor();
            let n = self.containers.len();
            if at >= n || at + 1 >= n {
                at
            } else {
                at + 1
            }
        } else {
            0
        };
        self.selected_container = self.id_at(index);
    }

    /// Moves the selection one container up. See
    /// [`AppModel::moved_previous`].
    pub fn previous(&mut self)
        requires
            old(self).wf(),
        ensures
            final(self)@ == old(self)@.moved_previous(),
            final(self).wf(),
    {
        let index = if self.selected_container.is_some() {
            let at = self.cursor();
            if at == 0 {
                0
            } else {
                at - 1
            }
        } else {
            0
        };
        self.selected_container = self.id_at(index);
    }

    /// Records that log lines were fetched up to the present moment. The
    /// watermark moves to the time read from the clock and never moves back.
    pub fn mark_logs_fetched(&mut self)
        requires
            old(self).wf(),
        ensures
            final(self).wf(),
            final(self)@ == (AppModel { logs: final(self)@.logs, ..old(self)@ }),
            exists|now: int| #[trigger] old(self)@.logs.fetched_at(now) == final(self)@.logs,
    {
        self.logs.mark_fetched();
    }

    /// Records that log lines were fetched up to `now`, in seconds since the
    /// epoch; the watermark never moves back.
    pub fn logs_fetched_at(&mut self, now: i64)
        requires
            old(self).wf(),
        ensures
            final(self).wf(),
            final(self)@ == (AppModel { logs: old(self)@.logs.fetched_at(now as int), ..old(self)@ }),
    {
        self.logs.advance_watermark(now);
    }

    /// Takes in a piece of shell output, given whether it is the echo of the
    /// command sent last. See [`AppModel::after_output`].
    pub fn fold_tty_output(&mut self, output: String, echo: bool)
        requires
            old(self).wf(),
        ensures
            final(self).wf(),
            final(self)@ == old(self)@.after_output(output@, echo),
    {
        if str_eq(output.as_str(), "exit") {
            self.logs.clear();
            self.enter(AppState::Monitoring);
        } else if self.state.is_exec_command() {
            if self.last_cmd.is_some() && echo {
                self.last_cmd = None;
            } else {
                self.logs.push_line(output);
            }
        }
    }

    /// Whether `output` is the shell's echo of the command sent last.
    pub fn is_echo(&self, output: &str) -> (r: bool)
        ensures
            r == self@.echoes(output@),
    {
        match &self.last_cmd {
            Some(cmd) => str_eq(trim(output), trim(cmd.as_str())),
            None => false,
        }
    }
}

impl ContainerManagement for App {
    open spec fn ready(&self) -> bool {
        self.wf()
    }

    open spec fn container_ids(&self) -> Set<Seq<char>> {
        id_set(self@.containers)
    }

    open spec fn log_lines(&self) -> Seq<Seq<char>> {
        self@.logs.lines
    }

    fn remove_container(&mut self, id: &str)
        ensures
            final(self)@ == old(self)@.without_container(id@),
    {
        remove_by_id(&mut self.containers, id);
    }

    fn update_containers(&mut self, new_container: Container)
        ensures
            final(self)@ == old(self)@.with_container(new_container),
    {
        upsert(&mut self.containers, new_container);
    }

    fn add_logs(&mut self, logs: Vec<String>)
        ensures
            final(self)@ == old(self)@.with_logs(views_of(logs@)),
    {
        self.logs.append(logs);
    }

    fn add_tty_output(&mut self, output: String)
        ensures
            final(self)@ == old(self)@.after_output(output@, old(self)@.echoes(output@)),
    {
        let echo = self.is_echo(output.as_str());
        self.fold_tty_output(output, echo);
    }
}

} // verus!
