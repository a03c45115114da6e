//! The lifecycle of one managed process as a state machine.
//!
//! The machine decides; the task that owns the OS child performs the actions
//! it returns and feeds back what happened as events. The phases are
//! `Spawning -> Running -> Terminating -> Exited`, and `Exited` is final.
use vstd::prelude::*;
use vstd::string::*;
use crate::command::{parse_command, split_command_into_parts, trimmed};
use crate::log::{ProcessInfo, ProcessStatus, opt_chars};
use crate::server::ServerCommand;

verus! {

#[derive(Clone, Copy, Debug, PartialEq, Eq, Structural)]
pub enum Phase {
    Spawning,
    Running,
    Terminating,
    Exited,
}

/// What the owning task observed.
#[derive(Debug)]
pub enum ProcessEvent {
    /// The child could not be started: bad working directory, missing
    /// executable, permission denied. Carries the OS error text.
    SpawnFailed { error: String },
    /// The child runs in its own process group.
    Spawned { pid: u32 },
    /// A command arrived from the supervisor.
    Command(ServerCommand),
    /// The termination signal could not be delivered to the process group.
    SignalFailed { error: String },
    /// The grace period after the termination signal ran out.
    GraceElapsed,
    /// The child exited; `status` is the exit status as text.
    ChildExited { code: Option<i32>, status: String },
}

/// What the owning task is to do next.
#[derive(Debug)]
pub enum ProcessAction {
    /// Start the child with stdin closed, stdout and stderr captured, in a
    /// new process group, in `cwd` when one is given.
    Spawn { program: String, args: Vec<String>, cwd: Option<String> },
    /// Send the termination signal to the whole process group and wait for
    /// the child within the grace period.
    SignalGroup { pid: u32 },
    /// Kill the child forcefully and keep waiting for its exit.
    ForceKill { pid: u32 },
    /// Append a line to this process's log.
    AppendLog { content: String },
    /// The task is done.
    Finish,
}

/// The mathematical form of an action.
pub enum ActionModel {
    Spawn { program: Seq<char>, args: Seq<Seq<char>>, cwd: Option<Seq<char>> },
    SignalGroup { pid: u32 },
    ForceKill { pid: u32 },
    AppendLog { content: Seq<char> },
    Finish,
}

impl View for ProcessAction {
    type V = ActionModel;

    open spec fn view(&self) -> ActionModel {
        match self {
            ProcessAction::Spawn { program, args, cwd } => ActionModel::Spawn {
                program: program@,
                args: args@.map_values(|a: String| a@),
                cwd: opt_chars(*cwd),
            },
            ProcessAction::SignalGroup { pid } => ActionModel::SignalGroup { pid: *pid },
            ProcessAction::ForceKill { pid } => ActionModel::ForceKill { pid: *pid },
            ProcessAction::AppendLog { content } => ActionModel::AppendLog { content: content@ },
            ProcessAction::Finish => ActionModel::Finish,
        }
    }
}

pub open spec fn action_views(v: Seq<ProcessAction>) -> Seq<ActionModel> {
    v.map_values(|a: ProcessAction| a@)
}

/// The line appended when the child has exited.
pub open spec fn exit_line(program: Seq<char>, status: Seq<char>) -> Seq<char> {
    "Process "@ + program + " exited with status: "@ + status
}

/// The line appended when the child could not be started.
pub open spec fn spawn_failure_line(name: Seq<char>, error: Seq<char>) -> Seq<char> {
    "Process "@ + name + " failed to start: "@ + error
}

/// The line appended when the termination signal could not be delivered.
pub open spec fn signal_failure_line(program: Seq<char>, error: Seq<char>) -> Seq<char> {
    "Process "@ + program + " could not be signalled: "@ + error
}

/// The line appended when the command line holds no program.
pub open spec fn no_command_line(name: Seq<char>) -> Seq<char> {
    "Process "@ + name + " has no command to run"@
}

/// The status recorded when the child exits on its own.
pub open spec fn natural_exit_status(code: Option<i32>) -> ProcessStatus {
    if code == Some(0i32) {
        ProcessStatus::Stopped
    } else {
        ProcessStatus::Crashed
    }
}

/// One managed process: its record, its phase, the program it runs and the
/// OS process id once spawned.
pub struct ProcessMachine {
    info: ProcessInfo,
    phase: Phase,
    program: String,
    pid: u32,
}

impl ProcessMachine {
    pub closed spec fn info_spec(&self) -> ProcessInfo {
        self.info
    }

    pub closed spec fn phase_spec(&self) -> Phase {
        self.phase
    }

    /// The program name, once the command line has been parsed.
    pub closed spec fn program_spec(&self) -> Seq<char> {
        self.program@
    }

    pub closed spec fn pid_spec(&self) -> u32 {
        self.pid
    }

    /// Running and terminating processes have their OS process id recorded.
    pub closed spec fn wf(&self) -> bool {
        (self.phase == Phase::Running || self.phase == Phase::Terminating) ==> self.info.pid
            == Some(self.pid as usize)
    }

    pub fn new(info: ProcessInfo) -> (r: Self)
        ensures
            r.wf(),
            r.info_spec() == info,
            r.phase_spec() == Phase::Spawning,
    {
        ProcessMachine { info, phase: Phase::Spawning, program: String::new(), pid: 0 }
    }

    pub fn phase(&self) -> (r: Phase)
        ensures
            r == self.phase_spec(),
    {
        self.phase
    }

    pub fn info(&self) -> (r: &ProcessInfo)
        ensures
            *r == self.info_spec(),
    {
        &self.info
    }

    /// Parses the command line and asks for the child to be spawned; a
    /// command line without a program ends the process as crashed.
    pub fn start(&mut self) -> (r: Vec<ProcessAction>)
        requires
            old(self).wf(),
            old(self).phase_spec() == Phase::Spawning,
        ensures
            final(self).wf(),
            final(self).info_spec().id == old(self).info_spec().id,
            final(self).info_spec().name == old(self).info_spec().name,
            final(self).info_spec().command == old(self).info_spec().command,
            final(self).info_spec().cwd == old(self).info_spec().cwd,
            ({
                let info = old(self).info_spec();
                match parse_command(trimmed(info.command@)) {
                    Some((program, args)) => {
                        &&& final(self).phase_spec() == Phase::Spawning
                        &&& final(self).program_spec() == program
                        &&& final(self).info_spec() == info
                        &&& action_views(r@) == seq![
                            ActionModel::Spawn { program, args, cwd: opt_chars(info.cwd) },
                        ]
                    },
                    None => {
                        &&& final(self).phase_spec() == Phase::Exited
                        &&& final(self).info_spec().status == ProcessStatus::Crashed
                        &&& final(self).info_spec().pid == info.pid
                        &&& final(self).info_spec().exit_code == info.exit_code
                        &&& action_views(r@) == seq![
                            ActionModel::AppendLog { content: no_command_line(info.name@) },
                            ActionModel::Finish,
                        ]
                    },
                }
            }),
    {
        let parsed = split_command_into_parts(self.info.command.as_str());
        match parsed {
            Some((program, args)) => {
                let cwd = match &self.info.cwd {
                    Some(c) => Some(c.clone()),
                    None => None,
                };
                self.program = program.clone();
                let r = vec![ProcessAction::Spawn { program, args, cwd }];
                r
            },
            None => {
                self.phase = Phase::Exited;
                self.info.status = ProcessStatus::Crashed;
                let mut line = "Process ".to_owned();
                line.append(self.info.name.as_str());
                line.append(" has no command to run");
                let r = vec![ProcessAction::AppendLog { content: line }, ProcessAction::Finish];
                r
            },
        }
    }

    /// Takes one observed event and returns what to do. Events that mean
    /// nothing in the current phase change nothing and ask for nothing.
    pub fn handle(&mut self, event: ProcessEvent) -> (r: Vec<ProcessAction>)
        requires
            old(self).wf(),
        ensures
            final(self).wf(),
            final(self).info_spec().id == old(self).info_spec().id,
            final(self).info_spec().name == old(self).info_spec().name,
            final(self).info_spec().command == old(self).info_spec().command,
            final(self).info_spec().cwd == old(self).info_spec().cwd,
            final(self).program_spec() == old(self).program_spec(),
            ({
                let info = old(self).info_spec();
                let program = old(self).program_spec();
                let pid = old(self).pid_spec();
                match (old(self).phase_spec(), event) {
                    (Phase::Spawning, ProcessEvent::SpawnFailed { error }) => {
                        &&& final(self).phase_spec() == Phase::Exited
                        &&& final(self).info_spec().status == ProcessStatus::Crashed
                        &&& final(self).info_spec().pid == info.pid
                        &&& final(self).info_spec().exit_code == info.exit_code
                        &&& action_views(r@) == seq![
                            ActionModel::AppendLog { content: spawn_failure_line(info.name@, error@) },
                            ActionModel::Finish,
                        ]
                    },
                    (Phase::Spawning, ProcessEvent::Spawned { pid: new_pid }) => {
                        &&& final(self).phase_spec() == Phase::Running
                        &&& final(self).pid_spec() == new_pid
                        &&& final(self).info_spec().pid == Some(new_pid as usize)
                        &&& final(self).info_spec().status == ProcessStatus::Running
                        &&& final(self).info_spec().exit_code == info.exit_code
                        &&& r@.len() == 0
                    },
                    (Phase::Running, ProcessEvent::Command(ServerCommand::Shutdown)) => {
                        &&& final(self).phase_spec() == Phase::Terminating
                        &&& final(self).pid_spec() == pid
                        &&& final(self).info_spec() == info
                        &&& action_views(r@) == seq![ActionModel::SignalGroup { pid }]
                    },
                    (Phase::Running, ProcessEvent::ChildExited { code, status }) => {
                        &&& final(self).phase_spec() == Phase::Exited
                        &&& final(self).info_spec().status == natural_exit_status(code)
                        &&& final(self).info_spec().exit_code == code
                        &&& final(self).info_spec().pid == info.pid
                        &&& action_views(r@) == seq![
                            ActionModel::AppendLog { content: exit_line(program, status@) },
                            ActionModel::Finish,
                        ]
                    },
                    (Phase::Terminating, ProcessEvent::SignalFailed { error }) => {
                        &&& final(self).phase_spec() == Phase::Terminating
                        &&& final(self).pid_spec() == pid
                        &&& final(self).info_spec() == info
                        &&& action_views(r@) == seq![
                            ActionModel::AppendLog { content: signal_failure_line(program, error@) },
                            ActionModel::ForceKill { pid },
                        ]
                    },
                    (Phase::Terminating, ProcessEvent::GraceElapsed) => {
                        &&& final(self).phase_spec() == Phase::Terminating
                        &&& final(self).pid_spec() == pid
                        &&& final(self).info_spec() == info
                        &&& action_views(r@) == seq![ActionModel::ForceKill { pid }]
                    },
                    (Phase::Terminating, ProcessEvent::ChildExited { code, status }) => {
                        &&& final(self).phase_spec() == Phase::Exited
                        &&& final(self).info_spec().status == ProcessStatus::Stopped
                        &&& final(self).info_spec().exit_code == code
                        &&& final(self).info_spec().pid == info.pid
                        &&& action_views(r@) == seq![
                            ActionModel::AppendLog { content: exit_line(program, status@) },
                            ActionModel::Finish,
                        ]
                    },
                    _ => {
                        &&& final(self).phase_spec() == old(self).phase_spec()
                        &&& final(self).pid_spec() == pid
                        &&& final(self).info_spec() == info
                        &&& r@.len() == 0
                    },
                }
            }),
    {
        match (self.phase, event) {
            (Phase::Spawning, ProcessEvent::SpawnFailed { error }) => {
                self.phase = Phase::Exited;
                self.info.status = ProcessStatus::Crashed;
                let mut line = "Process ".to_owned();
                line.append(self.info.name.as_str());
                line.append(" failed to start: ");
                line.append(error.as_str());
                vec![ProcessAction::AppendLog { content: line }, ProcessAction::Finish]
            },
            (Phase::Spawning, ProcessEvent::Spawned { pid }) => {
                self.phase = Phase::Running;
                self.pid = pid;
                self.info.pid = Some(pid as usize);
                self.info.status = ProcessStatus::Running;
                Vec::new()
            },
            (Phase::Running, ProcessEvent::Command(ServerCommand::Shutdown)) => {
                self.phase = Phase::Terminating;
                vec![ProcessAction::SignalGroup { pid: self.pid }]
            },
            (Phase::Running, ProcessEvent::ChildExited { code, status }) => {
                self.phase = Phase::Exited;
                self.info.status = match code {
                    Some(0i32) => ProcessStatus::Stopped,
                    _ => ProcessStatus::Crashed,
                };
                self.info.exit_code = code;
                vec![ProcessAction::AppendLog { content: self.exit_line(&status) }, ProcessAction::Finish]
            },
            (Phase::Terminating, ProcessEvent::SignalFailed { error }) => {
                let mut line = "Process ".to_owned();
                line.append(self.program.as_str());
                line.append(" could not be signalled: ");
                line.append(error.as_str());
                vec![ProcessAction::AppendLog { content: line }, ProcessAction::ForceKill { pid: self.pid }]
            },
            (Phase::Terminating, ProcessEvent::GraceElapsed) => {
                vec![ProcessAction::ForceKill { pid: self.pid }]
            },
            (Phase::Terminating, ProcessEvent::ChildExited { code, status }) => {
                self.phase = Phase::Exited;
                self.info.status = ProcessStatus::Stopped;
                self.info.exit_code = code;
                vec![ProcessAction::AppendLog { content: self.exit_line(&status) }, ProcessAction::Finish]
            },
            _ => Vec::new(),
        }
    }

    fn exit_line(&self, status: &String) -> (r: String)
        ensures
            r@ == exit_line(self.program@, status@),
    {
        let mut line = "Process ".to_owned();
        line.append(self.program.as_str());
        line.append(" exited with status: ");
        line.append(status.as_str());
        line
    }
}

} // verus!
