//! The modes of the dashboard and the actions that are valid in each.

use vstd::prelude::*;
use crate::actions::{conflict_free, first_bound, lemma_first_bound, Action, Actions};
use crate::key::Key;

verus! {

/// What the dashboard is showing.
#[derive(Clone, Debug)]
pub enum AppState {
    /// The table of containers.
    Monitoring,
    /// The log of one container.
    Logging { container: String },
    /// A shell inside one container.
    ExecCommand { container: String },
    /// The read-only details of one container.
    Inspecting { container: String },
}

/// The mathematical content of an [`AppState`].
pub enum Mode {
    Monitoring,
    Logging(Seq<char>),
    ExecCommand(Seq<char>),
    Inspecting(Seq<char>),
}

impl Mode {
    /// The actions that are valid in the mode.
    pub open spec fn actions(self) -> Seq<Action> {
        match self {
            Mode::Monitoring => monitoring_actions(),
            Mode::Logging(_) => logging_actions(),
            Mode::ExecCommand(_) => exec_actions(),
            Mode::Inspecting(_) => inspecting_actions(),
        }
    }
}

impl View for AppState {
    type V = Mode;

    open spec fn view(&self) -> Mode {
        match *self {
            AppState::Monitoring => Mode::Monitoring,
            AppState::Logging { container } => Mode::Logging(container@),
            AppState::ExecCommand { container } => Mode::ExecCommand(container@),
            AppState::Inspecting { container } => Mode::Inspecting(container@),
        }
    }
}

/// The actions of the container table.
pub open spec fn monitoring_actions() -> Seq<Action> {
    seq![
        Action::Quit,
        Action::ShowLogs,
        Action::ExecCommands,
        Action::Next,
        Action::Previous,
        Action::StopContainer,
        Action::PauseContainer,
    ]
}

/// The actions of the log view.
pub open spec fn logging_actions() -> Seq<Action> {
    seq![Action::Quit, Action::ScrollDown, Action::ScrollUp, Action::Search, Action::Remove]
}

/// The actions of the shell view.
pub open spec fn exec_actions() -> Seq<Action> {
    seq![Action::Quit, Action::SendCMD]
}

/// The actions of the details view.
pub open spec fn inspecting_actions() -> Seq<Action> {
    seq![Action::Quit]
}

/// What it means for each action to be triggered by a key, spelled out.
pub proof fn lemma_binds_by_cases(a: Action, k: Key)
    ensures
        a.binds(k) == match a {
            Action::Quit => k == Key::Char('q') || k == Key::Ctrl('c') || k == Key::Esc,
            Action::ShowLogs => k == Key::Char('l') || k == Key::Enter,
            Action::ExecCommands => k == Key::Char('e'),
            Action::SendCMD => k == Key::Enter,
            Action::Next => k == Key::Down || k == Key::Char('n') || k == Key::Right,
            Action::Previous => k == Key::Up || k == Key::Left,
            Action::Search => k == Key::Char('/') || k == Key::Enter,
            Action::ScrollUp => k == Key::Up,
            Action::ScrollDown => k == Key::Down,
            Action::Remove => k == Key::Backspace,
            Action::StopContainer => k == Key::Char('s'),
            Action::PauseContainer => k == Key::Char('p'),
        },
{
    let keys = a.spec_keys();
    if a.binds(k) {
        let i = choose|i: int| 0 <= i < keys.len() && keys[i] == k;
        assert(keys[i] == k);
    }
    if keys.len() > 0 && keys[0] == k {
        assert(keys.contains(k));
    }
    if keys.len() > 1 && keys[1] == k {
        assert(keys.contains(k));
    }
    if keys.len() > 2 && keys[2] == k {
        assert(keys.contains(k));
    }
}

/// In every mode, no key triggers two of the mode's actions.
pub proof fn lemma_mode_actions_conflict_free()
    ensures
        conflict_free(monitoring_actions()),
        conflict_free(logging_actions()),
        conflict_free(exec_actions()),
        conflict_free(inspecting_actions()),
{
    assert forall|a: Action, k: Key| true implies #[trigger] a.binds(k) == match a {
        Action::Quit => k == Key::Char('q') || k == Key::Ctrl('c') || k == Key::Esc,
        Action::ShowLogs => k == Key::Char('l') || k == Key::Enter,
        Action::ExecCommands => k == Key::Char('e'),
        Action::SendCMD => k == Key::Enter,
        Action::Next => k == Key::Down || k == Key::Char('n') || k == Key::Right,
        Action::Previous => k == Key::Up || k == Key::Left,
        Action::Search => k == Key::Char('/') || k == Key::Enter,
        Action::ScrollUp => k == Key::Up,
        Action::ScrollDown => k == Key::Down,
        Action::Remove => k == Key::Backspace,
        Action::StopContainer => k == Key::Char('s'),
        Action::PauseContainer => k == Key::Char('p'),
    } by {
        lemma_binds_by_cases(a, k);
    }
}

/// The key map of the container table.
pub proof fn lemma_monitoring_keys(key: Key)
    ensures
        first_bound(monitoring_actions(), key) == match key {
            Key::Char('q') | Key::Ctrl('c') | Key::Esc => Some(Action::Quit),
            Key::Char('l') | Key::Enter => Some(Action::ShowLogs),
            Key::Char('e') => Some(Action::ExecCommands),
            Key::Down | Key::Char('n') | Key::Right => Some(Action::Next),
            Key::Up | Key::Left => Some(Action::Previous),
            Key::Char('s') => Some(Action::StopContainer),
            Key::Char('p') => Some(Action::PauseContainer),
            _ => None,
        },
{
    let s = monitoring_actions();
    lemma_first_bound(s, key);
    assert forall|i: int| 0 <= i < s.len() implies (#[trigger] s[i]).binds(key) == match s[i] {
        Action::Quit => key == Key::Char('q') || key == Key::Ctrl('c') || key == Key::Esc,
        Action::ShowLogs => key == Key::Char('l') || key == Key::Enter,
        Action::ExecCommands => key == Key::Char('e'),
        Action::Next => key == Key::Down || key == Key::Char('n') || key == Key::Right,
        Action::Previous => key == Key::Up || key == Key::Left,
        Action::StopContainer => key == Key::Char('s'),
        Action::PauseContainer => key == Key::Char('p'),
        _ => false,
    } by {
        lemma_binds_by_cases(s[i], key);
    }
    assert(s[0] == Action::Quit && s[1] == Action::ShowLogs && s[2] == Action::ExecCommands
        && s[3] == Action::Next && s[4] == Action::Previous && s[5] == Action::StopContainer
        && s[6] == Action::PauseContainer);
}

/// The key map of the log view.
pub proof fn lemma_logging_keys(key: Key)
    ensures
        first_bound(logging_actions(), key) == match key {
            Key::Char('q') | Key::Ctrl('c') | Key::Esc => Some(Action::Quit),
            Key::Down => Some(Action::ScrollDown),
            Key::Up => Some(Action::ScrollUp),
            Key::Char('/') | Key::Enter => Some(Action::Search),
            Key::Backspace => Some(Action::Remove),
            _ => None,
        },
{
    let s = logging_actions();
    lemma_first_bound(s, key);
    assert forall|i: int| 0 <= i < s.len() implies (#[trigger] s[i]).binds(key) == match s[i] {
        Action::Quit => key == Key::Char('q') || key == Key::Ctrl('c') || key == Key::Esc,
        Action::ScrollDown => key == Key::Down,
        Action::ScrollUp => key == Key::Up,
        Action::Search => key == Key::Char('/') || key == Key::Enter,
        Action::Remove => key == Key::Backspace,
        _ => false,
    } by {
        lemma_binds_by_cases(s[i], key);
    }
    assert(s[0] == Action::Quit && s[1] == Action::ScrollDown && s[2] == Action::ScrollUp && s[3]
        == Action::Search && s[4] == Action::Remove);
}

/// The key map of the shell view.
pub proof fn lemma_exec_keys(key: Key)
    ensures
        first_bound(exec_actions(), key) == match key {
            Key::Char('q') | Key::Ctrl('c') | Key::Esc => Some(Action::Quit),
            Key::Enter => Some(Action::SendCMD),
            _ => None,
        },
{
    let s = exec_actions();
    lemma_first_bound(s, key);
    assert forall|i: int| 0 <= i < s.len() implies (#[trigger] s[i]).binds(key) == match s[i] {
        Action::Quit => key == Key::Char('q') || key == Key::Ctrl('c') || key == Key::Esc,
        Action::SendCMD => key == Key::Enter,
        _ => false,
    } by {
        lemma_binds_by_cases(s[i], key);
    }
    assert(s[0] == Action::Quit && s[1] == Action::SendCMD);
}

impl AppState {
    /// The registry of the actions that are valid in the mode.
    pub fn get_actions(&self) -> (r: Actions)
        ensures
            r@ == self@.actions(),
            r.wf(),
    {
        proof {
            lemma_mode_actions_conflict_free();
        }
        if self.is_monitoring() {
            Actions::from(
                vec![
                    Action::Quit,
                    Action::ShowLogs,
                    Action::ExecCommands,
                    Action::Next,
                    Action::Previous,
                    Action::StopContainer,
                    Action::PauseContainer,
                ],
            )
        } else if self.is_logging() {
            Actions::from(
                vec![
                    Action::Quit,
                    Action::ScrollDown,
                    Action::ScrollUp,
                    Action::Search,
                    Action::Remove,
                ],
            )
        } else if self.is_exec_command() {
            Actions::from(vec![Action::Quit, Action::SendCMD])
        } else {
            Actions::from(vec![Action::Quit])
        }
    }

    /// Whether the container table is showing.
    pub fn is_monitoring(&self) -> (r: bool)
        ensures
            r == (*self is Monitoring),
    {
        matches!(self, AppState::Monitoring)
    }

    /// Whether a log is showing.
    pub fn is_logging(&self) -> (r: bool)
        ensures
            r == (*self is Logging),
    {
        matches!(self, AppState::Logging { .. })
    }

    /// Whether a shell is showing.
    pub fn is_exec_command(&self) -> (r: bool)
        ensures
            r == (*self is ExecCommand),
    {
        matches!(self, AppState::ExecCommand { .. })
    }

    /// Whether the details of a container are showing.
    pub fn is_inspecting(&self) -> (r: bool)
        ensures
            r == (*self is Inspecting),
    {
        matches!(self, AppState::Inspecting { .. })
    }
}

impl Default for AppState {
    fn default() -> (r: AppState)
        ensures
            r is Monitoring,
    {
        AppState::Monitoring
    }
}

} // verus!
