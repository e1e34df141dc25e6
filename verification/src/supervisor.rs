//! The rules by which the one background task of the dashboard is replaced
//! when the mode changes. The supervisor decides; its caller cancels, awaits
//! and spawns, and reports back when a task has ended.

use vstd::prelude::*;
use crate::io::{IoEvent, IoRequest};

verus! {

/// The work that a background task does.
#[derive(Debug)]
pub enum TaskKind {
    /// Polls the engine and keeps the container table up to date.
    Reconciliation,
    /// Follows the log of the container with this id.
    LogTail(String),
    /// Runs a shell in the container with this id.
    Exec(String),
}

/// The mathematical content of a [`TaskKind`].
pub enum Task {
    Reconciliation,
    LogTail(Seq<char>),
    Exec(Seq<char>),
}

impl View for TaskKind {
    type V = Task;

    open spec fn view(&self) -> Task {
        match *self {
            TaskKind::Reconciliation => Task::Reconciliation,
            TaskKind::LogTail(id) => Task::LogTail(id@),
            TaskKind::Exec(id) => Task::Exec(id@),
        }
    }
}

/// What the caller of the supervisor has to do next.
#[derive(Debug)]
pub enum Command {
    /// Nothing.
    Nothing,
    /// Spawn the given task. No other task is alive.
    Start(TaskKind),
    /// Cancel the task that is alive, wait until it has ended, and report
    /// that with [`TaskSupervisor::task_exited`].
    CancelCurrent,
    /// A switch is under way; the request has to wait until it is done.
    Busy,
    /// Stop the container with this id. No task is touched.
    StopContainer(String),
    /// Pause the container with this id, or let it go on. No task is touched.
    PauseContainer(String),
}

/// The mathematical content of a [`Command`].
pub enum Order {
    Nothing,
    Start(Task),
    CancelCurrent,
    Busy,
    StopContainer(Seq<char>),
    PauseContainer(Seq<char>),
}

impl View for Command {
    type V = Order;

    open spec fn view(&self) -> Order {
        match *self {
            Command::Nothing => Order::Nothing,
            Command::Start(task) => Order::Start(task@),
            Command::CancelCurrent => Order::CancelCurrent,
            Command::Busy => Order::Busy,
            Command::StopContainer(id) => Order::StopContainer(id@),
            Command::PauseContainer(id) => Order::PauseContainer(id@),
        }
    }
}

/// Where the supervisor stands.
pub enum Phase {
    /// No task is alive.
    Idle,
    /// One task is alive and wanted.
    Running(Task),
    /// One task is alive and was told to end; `next` starts once it has.
    Draining { next: Task },
}

/// What can happen to the supervisor.
pub enum Happening {
    /// A switch to the given task is asked for.
    Switch(Task),
    /// The task that was alive has ended.
    Exited,
}

impl Phase {
    /// The number of tasks that are alive.
    pub open spec fn alive(self) -> nat {
        match self {
            Phase::Idle => 0,
            Phase::Running(_) => 1,
            Phase::Draining { .. } => 1,
        }
    }

    /// The phase after a switch was asked for, and the order given.
    pub open spec fn on_switch(self, task: Task) -> (Phase, Order) {
        match self {
            Phase::Idle => (Phase::Running(task), Order::Start(task)),
            Phase::Running(_) => (Phase::Draining { next: task }, Order::CancelCurrent),
            Phase::Draining { .. } => (self, Order::Busy),
        }
    }

    /// The phase after the task that was alive has ended, and the order
    /// given.
    pub open spec fn on_exit(self) -> (Phase, Order) {
        match self {
            Phase::Idle => (Phase::Idle, Order::Nothing),
            Phase::Running(_) => (Phase::Idle, Order::Nothing),
            Phase::Draining { next } => (Phase::Running(next), Order::Start(next)),
        }
    }

    /// The phase after a happening, and the order given.
    pub open spec fn on(self, h: Happening) -> (Phase, Order) {
        match h {
            Happening::Switch(task) => self.on_switch(task),
            Happening::Exited => self.on_exit(),
        }
    }

    /// The phase after a run of happenings.
    pub open spec fn after(self, run: Seq<Happening>) -> Phase
        decreases run.len(),
    {
        if run.len() == 0 {
            self
        } else {
            self.after(run.drop_last()).on(run.last()).0
        }
    }
}

/// The number of tasks that a run of happenings has started, beginning in
/// `phase`.
pub open spec fn started(phase: Phase, run: Seq<Happening>) -> int
    decreases run.len(),
{
    if run.len() == 0 {
        0
    } else {
        started(phase, run.drop_last()) + if phase.after(run.drop_last()).on(run.last()).1 is Start {
            1int
        } else {
            0int
        }
    }
}

/// The number of tasks that have ended in a run of happenings, beginning in
/// `phase`: the exits that found a task alive.
pub open spec fn ended(phase: Phase, run: Seq<Happening>) -> int
    decreases run.len(),
{
    if run.len() == 0 {
        0
    } else {
        ended(phase, run.drop_last()) + if run.last() is Exited && phase.after(
            run.drop_last(),
        ).alive() > 0 {
            1int
        } else {
            0int
        }
    }
}

/// The task that a request asks to switch to, if it asks for a switch.
pub open spec fn task_of(request: IoRequest) -> Option<Task> {
    match request {
        IoRequest::StartMonitoring => Some(Task::Reconciliation),
        IoRequest::ShowLogs(id) => Some(Task::LogTail(id)),
        IoRequest::StartExecSession(id) => Some(Task::Exec(id)),
        IoRequest::StopContainer(_) => None,
        IoRequest::PauseContainer(_) => None,
    }
}

/// The supervisor of the one background task.
#[derive(Debug)]
pub struct TaskSupervisor {
    current: Option<TaskKind>,
    next: Option<TaskKind>,
}

impl View for TaskSupervisor {
    type V = Phase;

    closed spec fn view(&self) -> Phase {
        match (self.current, self.next) {
            (None, _) => Phase::Idle,
            (Some(task), None) => Phase::Running(task@),
            (Some(_), Some(next)) => Phase::Draining { next: next@ },
        }
    }
}

impl TaskSupervisor {
    /// The invariant: a task waits to start only while another is alive.
    pub closed spec fn wf(&self) -> bool {
        self.current is None ==> self.next is None
    }

    /// A supervisor with no task.
    pub fn new() -> (r: TaskSupervisor)
        ensures
            r.wf(),
            r@ == Phase::Idle,
    {
        TaskSupervisor { current: None, next: None }
    }

    /// Asks for a switch to `task`. With no task alive it starts at once.
    /// With a task alive that task is cancelled first, and `task` starts
    /// when its end is reported. While such a switch is under way the
    /// request is turned away and nothing changes.
    pub fn switch_to(&mut self, task: TaskKind) -> (r: Command)
        requires
            old(self).wf(),
        ensures
            final(self).wf(),
            final(self)@ == old(self)@.on_switch(task@).0,
            r@ == old(self)@.on_switch(task@).1,
    {
        if self.current.is_none() {
            let start = clone_task(&task);
            self.current = Some(task);
            Command::Start(start)
        } else if self.next.is_none() {
            self.next = Some(task);
            Command::CancelCurrent
        } else {
            Command::Busy
        }
    }

    /// Reports that the task that was alive has ended. A task that waited
    /// for that starts now.
    pub fn task_exited(&mut self) -> (r: Command)
        requires
            old(self).wf(),
        ensures
            final(self).wf(),
            final(self)@ == old(self)@.on_exit().0,
            r@ == old(self)@.on_exit().1,
    {
        match self.next.take() {
            Some(task) => {
                if self.current.is_some() {
                    let start = clone_task(&task);
                    self.current = Some(task);
                    Command::Start(start)
                } else {
                    Command::Nothing
                }
            },
            None => {
                self.current = None;
                Command::Nothing
            },
        }
    }

    /// Handles a request of the dashboard. A request that changes the mode
    /// asks for a switch of the background task; a request to stop or pause a
    /// container is passed on and touches no task.
    pub fn handle_io_event(&mut self, io_event: IoEvent) -> (r: Command)
        requires
            old(self).wf(),
        ensures
            final(self).wf(),
            match task_of(io_event@) {
                Some(task) => final(self)@ == old(self)@.on_switch(task).0 && r@ == old(
                    self,
                )@.on_switch(task).1,
                None => final(self)@ == old(self)@ && (match io_event@ {
                    IoRequest::StopContainer(id) => r@ == Order::StopContainer(id),
                    IoRequest::PauseContainer(id) => r@ == Order::PauseContainer(id),
                    _ => false,
                }),
            },
    {
        match io_event {
            IoEvent::StartMonitoring => self.switch_to(TaskKind::Reconciliation),
            IoEvent::ShowLogs(id) => self.switch_to(TaskKind::LogTail(id)),
            IoEvent::StartExecSession(id) => self.switch_to(TaskKind::Exec(id)),
            IoEvent::StopContainer(id) => Command::StopContainer(id),
            IoEvent::PauseContainer(id) => Command::PauseContainer(id),
        }
    }
}

fn clone_task(task: &TaskKind) -> (r: TaskKind)
    ensures
        r@ == task@,
{
    match task {
        TaskKind::Reconciliation => TaskKind::Reconciliation,
        TaskKind::LogTail(id) => TaskKind::LogTail(id.clone()),
        TaskKind::Exec(id) => TaskKind::Exec(id.clone()),
    }
}

/// A task is started only when no task is alive: by a switch in the idle
/// phase, or by the exit that a switch was waiting for.
pub proof fn lemma_start_needs_no_task_alive(phase: Phase, h: Happening)
    ensures
        phase.on(h).1 is Start ==> (phase.alive() == 0 || (h is Exited && phase is Draining)),
        phase.on(h).1 is Start ==> phase.on(h).0.alive() == 1,
        phase is Draining && h is Switch ==> phase.on(h) == (phase, Order::Busy),
{
}

/// Whatever happens, at most one task is alive: along every run from the
/// idle phase, the tasks started less the tasks ended are the tasks alive,
/// and that is never more than one.
pub proof fn lemma_at_most_one_task(run: Seq<Happening>)
    ensures
        started(Phase::Idle, run) - ended(Phase::Idle, run) == Phase::Idle.after(run).alive(),
        Phase::Idle.after(run).alive() <= 1,
    decreases run.len(),
{
    if run.len() > 0 {
        lemma_at_most_one_task(run.drop_last());
    }
}

} // verus!
