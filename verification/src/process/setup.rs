//! How a group for a process and its descendants is set up, step by step.
//!
//! There are three ways. A control group can be made directly below the one
//! that the owner is in; where that is not allowed, the service manager can be
//! asked for one, which then lives as long as a process that holds it. Where
//! there are no control groups, the group is a session. Each way ends with a
//! watchdog. Where a step fails, what was made before is taken down again, and
//! the error of that step is the error of the setup.

use crate::assoc_map::{AssocMap, MapKey};
use crate::digits::{decimal, to_numeral};
use crate::process::cgroup_location::{
    cgroup_dir, cgroup_name, current_cgroup_dir, find_scope_site, name_of_cgroup, scope_site,
};
use crate::process::command::{
    cgroup_watchdog, cgroup_watchdog_command, scope_holder, scope_holder_command, session_watchdog,
    session_watchdog_command, CommandModel, CommandPlan,
};
use crate::process::error::{failed, ProcessError};
use crate::process::unix_path::{below, path_below};
use crate::text::{lines, lines_of, same_text, texts, trim, trimmed};
use vstd::prelude::*;

verus! {

/// What the system says of the control groups of a process.
pub const OWN_CGROUPS: &'static str = "/proc/self/cgroup";

/// How long the holder of a transient scope may take to get there, in
/// nanoseconds.
pub const SCOPE_TIMEOUT: u64 = 2_000_000_000;

/// How often is looked whether it is there, in nanoseconds.
pub const SCOPE_POLL_INTERVAL: u64 = 10_000_000;

/// The ways to set up a group.
#[derive(Clone, Copy, Debug, PartialEq, Eq, Structural)]
pub enum SetupKind {
    /// A control group below the owner's own.
    Direct,
    /// A control group that the service manager makes.
    Systemd,
    /// A session.
    Session,
}

/// The executables that a setup needs.
#[derive(Clone, Copy, Debug, PartialEq, Eq, Structural)]
pub enum Tool {
    Shell,
    Rmdir,
    Find,
    Sleep,
    SystemdRun,
    Ps,
    Awk,
}

/// The steps of a setup.
#[derive(Clone, Copy, Debug, PartialEq, Eq, Structural)]
pub enum SetupStage {
    /// The owner's control group is read.
    OwnCgroup,
    /// Whether control groups can be killed as a whole is looked at.
    KillSupport,
    /// The control group is made.
    Create,
    /// An executable is looked for.
    Locate(Tool),
    /// The process is started that makes a scope and holds it.
    Holder,
    /// The time is read from which on the holder is waited for.
    Start,
    /// The members of the scope are read.
    Members,
    /// The time is read after the holder was not among them.
    Time,
    /// A while is waited.
    Pause,
    /// The type of the control group is read.
    Type,
    /// The file is opened through which a process joins.
    OpenProcs,
    /// The opened file is duplicated.
    DuplicateProcs,
    /// The lifeline is made.
    Lifeline,
    /// The owner's end of the lifeline is duplicated.
    DuplicateLifeline,
    /// The watchdog is started.
    Watchdog,
    /// After a failure: the control group is removed.
    RemoveDir,
    /// After a failure: whether the scope is there is looked at.
    CheckScope,
    /// After a failure: the scope is killed.
    KillScope,
    /// After a failure: the holder and its process group are killed.
    KillHolderGroup,
    /// After a failure: the holder alone is killed.
    KillHolder,
    Succeeded,
    Failed,
}

/// What the system answered.
#[derive(Debug, PartialEq, Eq)]
pub enum SetupEvent {
    /// The text of a file, or why it could not be read.
    Text(Result<String, String>),
    /// Whether something is there.
    Answer(bool),
    /// It was done, or why not.
    Done(Result<(), String>),
    /// A process was started, with this identifier, or why not.
    Started(Result<u32, String>),
    /// An executable is here, or why it may not be run.
    Located(Result<String, ProcessError>),
    /// The time, in nanoseconds from any fixed instant on.
    Clock(u64),
}

/// What to ask of the system next.
#[derive(Debug, PartialEq, Eq)]
pub enum SetupAction {
    /// Read a file.
    ReadText(String),
    /// Look whether this is a file.
    CheckFile(String),
    /// Look whether this is there.
    CheckExists(String),
    CreateDir(String),
    RemoveDir(String),
    /// Look for an executable with this name.
    Locate(String),
    /// Start the process that holds a scope.
    SpawnHolder(CommandPlan),
    /// Read the time.
    ReadClock,
    /// Wait this long.
    Sleep(u64),
    /// Open a file through which a process joins a control group.
    OpenProcs(String),
    /// Duplicate what was opened, so that it is closed when a program starts.
    DuplicateProcs,
    /// Make a lifeline.
    CreateLifeline,
    /// Duplicate the owner's end of the lifeline, so that it is closed when a
    /// program starts.
    DuplicateLifeline,
    /// Start the watchdog, with its end of the lifeline as its input.
    SpawnWatchdog(CommandPlan),
    /// Write a text to a file.
    WriteText { path: String, text: String },
    /// Kill a process group.
    KillGroup(u32),
    /// Kill the process that holds the scope.
    KillHolder,
    /// Nothing: the group is set up.
    Succeed,
    /// Nothing: it could not be set up.
    Fail(ProcessError),
}

/// The model of what to ask of the system next.
#[verifier::ext_equal]
pub enum SetupActionModel {
    ReadText(Seq<char>),
    CheckFile(Seq<char>),
    CheckExists(Seq<char>),
    CreateDir(Seq<char>),
    RemoveDir(Seq<char>),
    Locate(Seq<char>),
    SpawnHolder(CommandModel),
    ReadClock,
    Sleep(u64),
    OpenProcs(Seq<char>),
    DuplicateProcs,
    CreateLifeline,
    DuplicateLifeline,
    SpawnWatchdog(CommandModel),
    WriteText { path: Seq<char>, text: Seq<char> },
    KillGroup(u32),
    KillHolder,
    Succeed,
    Fail(Seq<Seq<char>>),
}

impl View for SetupAction {
    type V = SetupActionModel;

    open spec fn view(&self) -> SetupActionModel {
        match self {
            SetupAction::ReadText(path) => SetupActionModel::ReadText(path@),
            SetupAction::CheckFile(path) => SetupActionModel::CheckFile(path@),
            SetupAction::CheckExists(path) => SetupActionModel::CheckExists(path@),
            SetupAction::CreateDir(path) => SetupActionModel::CreateDir(path@),
            SetupAction::RemoveDir(path) => SetupActionModel::RemoveDir(path@),
            SetupAction::Locate(name) => SetupActionModel::Locate(name@),
            SetupAction::SpawnHolder(command) => SetupActionModel::SpawnHolder(command@),
            SetupAction::ReadClock => SetupActionModel::ReadClock,
            SetupAction::Sleep(duration) => SetupActionModel::Sleep(*duration),
            SetupAction::OpenProcs(path) => SetupActionModel::OpenProcs(path@),
            SetupAction::DuplicateProcs => SetupActionModel::DuplicateProcs,
            SetupAction::CreateLifeline => SetupActionModel::CreateLifeline,
            SetupAction::DuplicateLifeline => SetupActionModel::DuplicateLifeline,
            SetupAction::SpawnWatchdog(command) => SetupActionModel::SpawnWatchdog(command@),
            SetupAction::WriteText { path, text } => SetupActionModel::WriteText {
                path: path@,
                text: text@,
            },
            SetupAction::KillGroup(pid) => SetupActionModel::KillGroup(*pid),
            SetupAction::KillHolder => SetupActionModel::KillHolder,
            SetupAction::Succeed => SetupActionModel::Succeed,
            SetupAction::Fail(error) => SetupActionModel::Fail(error@),
        }
    }
}

impl View for Tool {
    type V = Tool;

    open spec fn view(&self) -> Tool {
        *self
    }
}

impl MapKey for Tool {
    fn same(&self, other: &Self) -> (r: bool) {
        *self == *other
    }
}

/// The name of an executable.
pub open spec fn tool_name(tool: Tool) -> Seq<char> {
    match tool {
        Tool::Shell => "sh"@,
        Tool::Rmdir => "rmdir"@,
        Tool::Find => "find"@,
        Tool::Sleep => "sleep"@,
        Tool::SystemdRun => "systemd-run"@,
        Tool::Ps => "ps"@,
        Tool::Awk => "awk"@,
    }
}

impl Tool {
    /// The name of the executable.
    pub fn name(self) -> (r: &'static str)
        ensures
            r@ == tool_name(self),
    {
        match self {
            Tool::Shell => "sh",
            Tool::Rmdir => "rmdir",
            Tool::Find => "find",
            Tool::Sleep => "sleep",
            Tool::SystemdRun => "systemd-run",
            Tool::Ps => "ps",
            Tool::Awk => "awk",
        }
    }
}

/// The step that follows a step that was done.
pub open spec fn step_after(kind: SetupKind, stage: SetupStage) -> SetupStage {
    match (kind, stage) {
        (SetupKind::Direct, SetupStage::OwnCgroup) => SetupStage::KillSupport,
        (SetupKind::Direct, SetupStage::KillSupport) => SetupStage::Create,
        (SetupKind::Direct, SetupStage::Create) => SetupStage::Type,
        (SetupKind::Direct, SetupStage::Lifeline) => SetupStage::Locate(Tool::Shell),
        (SetupKind::Direct, SetupStage::Locate(Tool::Shell)) => SetupStage::Locate(Tool::Rmdir),
        (SetupKind::Direct, SetupStage::Locate(Tool::Find)) => SetupStage::Locate(Tool::Sleep),
        (SetupKind::Direct, SetupStage::Locate(Tool::Sleep)) => SetupStage::Watchdog,
        (SetupKind::Systemd, SetupStage::OwnCgroup) => SetupStage::Locate(Tool::SystemdRun),
        (SetupKind::Systemd, SetupStage::Locate(Tool::SystemdRun)) => SetupStage::Locate(
            Tool::Shell,
        ),
        (SetupKind::Systemd, SetupStage::Locate(Tool::Shell)) => SetupStage::Locate(Tool::Sleep),
        (SetupKind::Systemd, SetupStage::Locate(Tool::Sleep)) => SetupStage::Holder,
        (SetupKind::Systemd, SetupStage::Holder) => SetupStage::Start,
        (SetupKind::Systemd, SetupStage::Start) => SetupStage::Members,
        (SetupKind::Systemd, SetupStage::Members) => SetupStage::Type,
        (SetupKind::Systemd, SetupStage::Lifeline) => SetupStage::Locate(Tool::Rmdir),
        (SetupKind::Systemd, SetupStage::Locate(Tool::Find)) => SetupStage::Watchdog,
        (SetupKind::Session, SetupStage::Locate(Tool::Shell)) => SetupStage::Lifeline,
        (SetupKind::Session, SetupStage::Lifeline) => SetupStage::DuplicateLifeline,
        (SetupKind::Session, SetupStage::DuplicateLifeline) => SetupStage::Locate(Tool::Ps),
        (SetupKind::Session, SetupStage::Locate(Tool::Ps)) => SetupStage::Locate(Tool::Awk),
        (SetupKind::Session, SetupStage::Locate(Tool::Awk)) => SetupStage::Locate(Tool::Sleep),
        (SetupKind::Session, SetupStage::Locate(Tool::Sleep)) => SetupStage::Watchdog,
        (_, SetupStage::Type) => SetupStage::OpenProcs,
        (_, SetupStage::OpenProcs) => SetupStage::DuplicateProcs,
        (_, SetupStage::DuplicateProcs) => SetupStage::Lifeline,
        (_, SetupStage::Locate(Tool::Rmdir)) => SetupStage::Locate(Tool::Find),
        _ => SetupStage::Succeeded,
    }
}

/// What is said of a step that the system refused.
pub open spec fn refusal(kind: SetupKind, stage: SetupStage) -> Seq<char> {
    match (kind, stage) {
        (SetupKind::Direct, SetupStage::Type) => "failed to read cgroup.type"@,
        (SetupKind::Direct, SetupStage::OpenProcs) => "failed to open cgroup.procs"@,
        (SetupKind::Direct, SetupStage::DuplicateProcs) => "failed to duplicate cgroup.procs"@,
        (SetupKind::Direct, SetupStage::Lifeline) => "failed to create cgroup lifeline"@,
        (SetupKind::Direct, SetupStage::Watchdog) => "failed to spawn cgroup watchdog"@,
        (SetupKind::Systemd, SetupStage::Holder) => "failed to spawn systemd scope holder"@,
        (SetupKind::Systemd, SetupStage::Type) => "failed to read transient scope cgroup.type"@,
        (
            SetupKind::Systemd,
            SetupStage::OpenProcs,
        ) => "failed to open transient scope cgroup.procs"@,
        (
            SetupKind::Systemd,
            SetupStage::DuplicateProcs,
        ) => "failed to duplicate transient scope cgroup.procs"@,
        (SetupKind::Systemd, SetupStage::Lifeline) => "failed to create transient scope lifeline"@,
        (SetupKind::Systemd, SetupStage::Watchdog) => "failed to spawn transient scope watchdog"@,
        (SetupKind::Session, SetupStage::Lifeline) => "failed to create process lifeline"@,
        (
            SetupKind::Session,
            SetupStage::DuplicateLifeline,
        ) => "failed to duplicate process lifeline"@,
        (SetupKind::Session, SetupStage::Watchdog) => "failed to spawn process watchdog"@,
        _ => "failed to read self cgroup"@,
    }
}

/// The state of a setup.
#[verifier::ext_equal]
pub struct SetupModel {
    pub kind: SetupKind,
    pub stage: SetupStage,
    /// The name of the control group.
    pub name: Seq<char>,
    /// The owner's control group.
    pub parent: Seq<char>,
    /// The unit that the owner belongs to.
    pub unit: Seq<char>,
    /// The directory of the control group.
    pub path: Seq<char>,
    /// The executables that were found.
    pub tools: Map<Tool, Seq<char>>,
    /// Whether the control group was made.
    pub created: bool,
    /// The process that holds the scope.
    pub holder: Option<u32>,
    /// Until when the holder is waited for.
    pub deadline: u64,
    /// Why the setup failed.
    pub error: Seq<Seq<char>>,
}

/// Whether a process is among the members of a control group.
pub open spec fn is_member(members: Result<String, String>, pid: Option<u32>) -> bool {
    members matches Ok(text) && pid matches Some(pid) && lines(text@).contains(decimal(pid as nat))
}

impl SetupModel {
    /// A setup that begins.
    pub open spec fn begun(kind: SetupKind, name: Seq<char>) -> SetupModel {
        SetupModel {
            kind,
            stage: if kind is Session {
                SetupStage::Locate(Tool::Shell)
            } else {
                SetupStage::OwnCgroup
            },
            name,
            parent: Seq::empty(),
            unit: Seq::empty(),
            path: Seq::empty(),
            tools: Map::empty(),
            created: false,
            holder: None,
            deadline: 0,
            error: Seq::empty(),
        }
    }

    /// Where an executable is.
    pub open spec fn tool(self, tool: Tool) -> Seq<char> {
        if self.tools.contains_key(tool) {
            self.tools[tool]
        } else {
            Seq::empty()
        }
    }

    /// What the setup asks for.
    pub open spec fn action(self) -> SetupActionModel {
        match self.stage {
            SetupStage::OwnCgroup => SetupActionModel::ReadText(OWN_CGROUPS@),
            SetupStage::KillSupport => SetupActionModel::CheckFile(
                below(self.parent, "cgroup.kill"@),
            ),
            SetupStage::Create => SetupActionModel::CreateDir(self.path),
            SetupStage::Locate(tool) => SetupActionModel::Locate(tool_name(tool)),
            SetupStage::Holder => SetupActionModel::SpawnHolder(
                scope_holder(
                    self.tool(Tool::SystemdRun),
                    self.name,
                    self.unit,
                    self.tool(Tool::Shell),
                    self.tool(Tool::Sleep),
                ),
            ),
            SetupStage::Start => SetupActionModel::ReadClock,
            SetupStage::Members => SetupActionModel::ReadText(below(self.path, "cgroup.procs"@)),
            SetupStage::Time => SetupActionModel::ReadClock,
            SetupStage::Pause => SetupActionModel::Sleep(SCOPE_POLL_INTERVAL),
            SetupStage::Type => SetupActionModel::ReadText(below(self.path, "cgroup.type"@)),
            SetupStage::OpenProcs => SetupActionModel::OpenProcs(below(self.path, "cgroup.procs"@)),
            SetupStage::DuplicateProcs => SetupActionModel::DuplicateProcs,
            SetupStage::Lifeline => SetupActionModel::CreateLifeline,
            SetupStage::DuplicateLifeline => SetupActionModel::DuplicateLifeline,
            SetupStage::Watchdog => SetupActionModel::SpawnWatchdog(self.watchdog()),
            SetupStage::RemoveDir => SetupActionModel::RemoveDir(self.path),
            SetupStage::CheckScope => SetupActionModel::CheckExists(self.path),
            SetupStage::KillScope => SetupActionModel::WriteText {
                path: below(self.path, "cgroup.kill"@),
                text: "1"@,
            },
            SetupStage::KillHolderGroup => SetupActionModel::KillGroup(
                match self.holder {
                    Some(pid) => pid,
                    None => 0,
                },
            ),
            SetupStage::KillHolder => SetupActionModel::KillHolder,
            SetupStage::Succeeded => SetupActionModel::Succeed,
            SetupStage::Failed => SetupActionModel::Fail(self.error),
        }
    }

    /// The command that keeps watch over the group.
    pub open spec fn watchdog(self) -> CommandModel {
        match self.kind {
            SetupKind::Session => session_watchdog(
                self.tool(Tool::Shell),
                self.tool(Tool::Ps),
                self.tool(Tool::Awk),
                self.tool(Tool::Sleep),
            ),
            _ => cgroup_watchdog(
                self.tool(Tool::Shell),
                if self.kind is Direct {
                    "zed-cgroup-watchdog"@
                } else {
                    "zed-systemd-cgroup-watchdog"@
                },
                self.path,
                self.tool(Tool::Rmdir),
                self.tool(Tool::Find),
                self.tool(Tool::Sleep),
            ),
        }
    }

    /// The setup at another step.
    pub open spec fn at(self, stage: SetupStage) -> SetupModel {
        SetupModel { stage, ..self }
    }

    /// The setup after its step was done.
    pub open spec fn proceeded(self) -> SetupModel {
        self.at(step_after(self.kind, self.stage))
    }

    /// The setup after its step failed: what was made is taken down first.
    pub open spec fn undone(self, error: Seq<Seq<char>>) -> SetupModel {
        SetupModel {
            stage: if self.kind is Direct && self.created {
                SetupStage::RemoveDir
            } else if self.kind is Systemd && self.holder is Some {
                SetupStage::CheckScope
            } else {
                SetupStage::Failed
            },
            error,
            ..self
        }
    }

    /// The setup after a step that the system either did or refused.
    pub open spec fn attempted(self, outcome: Result<(), String>) -> SetupModel {
        match outcome {
            Ok(_) => self.proceeded(),
            Err(cause) => self.undone(seq![refusal(self.kind, self.stage), cause@]),
        }
    }

    /// The setup after the owner's control group was read.
    pub open spec fn placed(self, cgroups: Result<String, String>) -> SetupModel {
        match cgroups {
            Err(cause) => self.undone(seq![refusal(self.kind, self.stage), cause@]),
            Ok(cgroups) => match cgroup_dir(cgroups@) {
                Err(error) => self.undone(error),
                Ok(parent) => if self.kind is Direct {
                    SetupModel { parent, path: below(parent, self.name), ..self }.proceeded()
                } else {
                    match scope_site(parent) {
                        Err(error) => self.undone(error),
                        Ok((slice, unit)) => SetupModel {
                            parent,
                            unit,
                            path: below(slice, self.name + ".scope"@),
                            ..self
                        }.proceeded(),
                    }
                },
            },
        }
    }

    /// The setup after the type of the control group was read.
    pub open spec fn typed(self, text: Result<String, String>) -> SetupModel {
        match text {
            Err(cause) => self.undone(seq![refusal(self.kind, self.stage), cause@]),
            Ok(text) => if trimmed(text@) == "domain"@ {
                self.proceeded()
            } else if self.kind is Direct {
                self.undone(seq!["unsupported cgroup type: "@ + trimmed(text@)])
            } else {
                self.undone(seq!["unsupported transient scope cgroup type: "@ + trimmed(text@)])
            },
        }
    }

    /// How the setup goes on. What it did not ask for changes nothing.
    pub open spec fn stepped(self, event: SetupEvent) -> SetupModel {
        match (self.stage, event) {
            (SetupStage::OwnCgroup, SetupEvent::Text(text)) => self.placed(text),
            (SetupStage::KillSupport, SetupEvent::Answer(is_file)) => if is_file {
                self.proceeded()
            } else {
                self.undone(seq!["current cgroup does not support cgroup.kill"@])
            },
            (SetupStage::Create, SetupEvent::Done(outcome)) => match outcome {
                Ok(_) => SetupModel { created: true, ..self }.proceeded(),
                Err(cause) => self.undone(seq!["failed to create cgroup "@ + self.path, cause@]),
            },
            (SetupStage::Locate(tool), SetupEvent::Located(located)) => match located {
                Ok(path) => SetupModel {
                    tools: self.tools.insert(tool, path@),
                    ..self
                }.proceeded(),
                Err(error) => self.undone(error@),
            },
            (SetupStage::Holder, SetupEvent::Started(started)) => match started {
                Ok(pid) => SetupModel { holder: Some(pid), ..self }.proceeded(),
                Err(cause) => self.undone(seq![refusal(self.kind, self.stage), cause@]),
            },
            (SetupStage::Start, SetupEvent::Clock(now)) => SetupModel {
                deadline: (now + SCOPE_TIMEOUT) as u64,
                ..self
            }.proceeded(),
            (SetupStage::Members, SetupEvent::Text(members)) => if is_member(
                members,
                self.holder,
            ) {
                self.proceeded()
            } else {
                self.at(SetupStage::Time)
            },
            (SetupStage::Time, SetupEvent::Clock(now)) => if now >= self.deadline {
                self.undone(seq!["timed out waiting for transient scope holder migration"@])
            } else {
                self.at(SetupStage::Pause)
            },
            (SetupStage::Pause, SetupEvent::Done(_)) => self.at(SetupStage::Members),
            (SetupStage::Type, SetupEvent::Text(text)) => self.typed(text),
            (SetupStage::OpenProcs, SetupEvent::Done(outcome)) => self.attempted(outcome),
            (SetupStage::DuplicateProcs, SetupEvent::Done(outcome)) => self.attempted(outcome),
            (SetupStage::Lifeline, SetupEvent::Done(outcome)) => self.attempted(outcome),
            (SetupStage::DuplicateLifeline, SetupEvent::Done(outcome)) => self.attempted(outcome),
            (SetupStage::Watchdog, SetupEvent::Done(outcome)) => self.attempted(outcome),
            (SetupStage::RemoveDir, SetupEvent::Done(_)) => self.at(SetupStage::Failed),
            (SetupStage::CheckScope, SetupEvent::Answer(exists)) => self.at(
                if exists {
                    SetupStage::KillScope
                } else {
                    SetupStage::KillHolderGroup
                },
            ),
            (SetupStage::KillScope, SetupEvent::Done(_)) => self.at(SetupStage::KillHolderGroup),
            (SetupStage::KillHolderGroup, SetupEvent::Done(outcome)) => self.at(
                if outcome is Ok {
                    SetupStage::Failed
                } else {
                    SetupStage::KillHolder
                },
            ),
            (SetupStage::KillHolder, SetupEvent::Done(_)) => self.at(SetupStage::Failed),
            _ => self,
        }
    }
}

/// A setup under way.
pub struct Setup {
    kind: SetupKind,
    stage: SetupStage,
    name: String,
    parent: String,
    unit: String,
    path: String,
    tools: AssocMap<Tool, String>,
    created: bool,
    holder: Option<u32>,
    deadline: u64,
    error: ProcessError,
}

impl View for Setup {
    type V = SetupModel;

    closed spec fn view(&self) -> SetupModel {
        SetupModel {
            kind: self.kind,
            stage: self.stage,
            name: self.name@,
            parent: self.parent@,
            unit: self.unit@,
            path: self.path@,
            tools: self.tools@.map_values(|path: String| path@),
            created: self.created,
            holder: self.holder,
            deadline: self.deadline,
            error: self.error@,
        }
    }
}

fn next_step(kind: SetupKind, stage: SetupStage) -> (r: SetupStage)
    ensures
        r == step_after(kind, stage),
{
    match (kind, stage) {
        (SetupKind::Direct, SetupStage::OwnCgroup) => SetupStage::KillSupport,
        (SetupKind::Direct, SetupStage::KillSupport) => SetupStage::Create,
        (SetupKind::Direct, SetupStage::Create) => SetupStage::Type,
        (SetupKind::Direct, SetupStage::Lifeline) => SetupStage::Locate(Tool::Shell),
        (SetupKind::Direct, SetupStage::Locate(Tool::Shell)) => SetupStage::Locate(Tool::Rmdir),
        (SetupKind::Direct, SetupStage::Locate(Tool::Find)) => SetupStage::Locate(Tool::Sleep),
        (SetupKind::Direct, SetupStage::Locate(Tool::Sleep)) => SetupStage::Watchdog,
        (SetupKind::Systemd, SetupStage::OwnCgroup) => SetupStage::Locate(Tool::SystemdRun),
        (SetupKind::Systemd, SetupStage::Locate(Tool::SystemdRun)) => SetupStage::Locate(
            Tool::Shell,
        ),
        (SetupKind::Systemd, SetupStage::Locate(Tool::Shell)) => SetupStage::Locate(Tool::Sleep),
        (SetupKind::Systemd, SetupStage::Locate(Tool::Sleep)) => SetupStage::Holder,
        (SetupKind::Systemd, SetupStage::Holder) => SetupStage::Start,
        (SetupKind::Systemd, SetupStage::Start) => SetupStage::Members,
        (SetupKind::Systemd, SetupStage::Members) => SetupStage::Type,
        (SetupKind::Systemd, SetupStage::Lifeline) => SetupStage::Locate(Tool::Rmdir),
        (SetupKind::Systemd, SetupStage::Locate(Tool::Find)) => SetupStage::Watchdog,
        (SetupKind::Session, SetupStage::Locate(Tool::Shell)) => SetupStage::Lifeline,
        (SetupKind::Session, SetupStage::Lifeline) => SetupStage::DuplicateLifeline,
        (SetupKind::Session, SetupStage::DuplicateLifeline) => SetupStage::Locate(Tool::Ps),
        (SetupKind::Session, SetupStage::Locate(Tool::Ps)) => SetupStage::Locate(Tool::Awk),
        (SetupKind::Session, SetupStage::Locate(Tool::Awk)) => SetupStage::Locate(Tool::Sleep),
        (SetupKind::Session, SetupStage::Locate(Tool::Sleep)) => SetupStage::Watchdog,
        (_, SetupStage::Type) => SetupStage::OpenProcs,
        (_, SetupStage::OpenProcs) => SetupStage::DuplicateProcs,
        (_, SetupStage::DuplicateProcs) => SetupStage::Lifeline,
        (_, SetupStage::Locate(Tool::Rmdir)) => SetupStage::Locate(Tool::Find),
        _ => SetupStage::Succeeded,
    }
}

fn refusal_message(kind: SetupKind, stage: SetupStage) -> (r: &'static str)
    ensures
        r@ == refusal(kind, stage),
{
    match (kind, stage) {
        (SetupKind::Direct, SetupStage::Type) => "failed to read cgroup.type",
        (SetupKind::Direct, SetupStage::OpenProcs) => "failed to open cgroup.procs",
        (SetupKind::Direct, SetupStage::DuplicateProcs) => "failed to duplicate cgroup.procs",
        (SetupKind::Direct, SetupStage::Lifeline) => "failed to create cgroup lifeline",
        (SetupKind::Direct, SetupStage::Watchdog) => "failed to spawn cgroup watchdog",
        (SetupKind::Systemd, SetupStage::Holder) => "failed to spawn systemd scope holder",
        (SetupKind::Systemd, SetupStage::Type) => "failed to read transient scope cgroup.type",
        (
            SetupKind::Systemd,
            SetupStage::OpenProcs,
        ) => "failed to open transient scope cgroup.procs",
        (
            SetupKind::Systemd,
            SetupStage::DuplicateProcs,
        ) => "failed to duplicate transient scope cgroup.procs",
        (SetupKind::Systemd, SetupStage::Lifeline) => "failed to create transient scope lifeline",
        (SetupKind::Systemd, SetupStage::Watchdog) => "failed to spawn transient scope watchdog",
        (SetupKind::Session, SetupStage::Lifeline) => "failed to create process lifeline",
        (
            SetupKind::Session,
            SetupStage::DuplicateLifeline,
        ) => "failed to duplicate process lifeline",
        (SetupKind::Session, SetupStage::Watchdog) => "failed to spawn process watchdog",
        _ => "failed to read self cgroup",
    }
}

fn with_detail(message: &str, detail: &str) -> (r: ProcessError)
    ensures
        r@ == seq![message@ + detail@],
{
    let mut text = message.to_owned();
    text.append(detail);
    ProcessError::new(text)
}

fn holder_is_member(members: &Result<String, String>, pid: Option<u32>) -> (r: bool)
    ensures
        r == is_member(*members, pid),
{
    match (members, pid) {
        (Ok(text), Some(holder)) => {
            let member = to_numeral(holder as u128, 10);
            let all = lines_of(text.as_str());
            let ghost models = lines(text@);
            let mut i: usize = 0;
            while i < all.len()
                invariant
                    models == lines(text@),
                    texts(all@) == models,
                    pid == Some(holder),
                    member@ == decimal(holder as nat),
                    i <= all@.len(),
                    forall|j: int| 0 <= j < i ==> #[trigger] models[j] != member@,
                    *members == Ok::<String, String>(*text),
                decreases all@.len() - i,
            {
                assert(all@[i as int]@ == models[i as int]);
                if same_text(all[i].as_str(), member.as_str()) {
                    assert(models.contains(member@));
                    return true;
                }
                i = i + 1;
            }
            assert(all@.len() == models.len());
            false
        },
        _ => false,
    }
}

impl Setup {
    /// The setup is consistent.
    pub closed spec fn wf(&self) -> bool {
        self.has_tools() && self@.consistent()
    }

    /// The model of a consistent setup is consistent.
    pub proof fn wf_model(&self)
        requires
            self.wf(),
        ensures
            self@.consistent(),
    {
    }

    /// What was found is in order.
    closed spec fn has_tools(&self) -> bool {
        self.tools.wf()
    }

    /// Begins a setup.
    fn begin(kind: SetupKind, name: String) -> (r: Self)
        ensures
            r.wf(),
            r@ == SetupModel::begun(kind, name@),
    {
        let stage = match kind {
            SetupKind::Session => SetupStage::Locate(Tool::Shell),
            _ => SetupStage::OwnCgroup,
        };
        let r = Setup {
            kind,
            stage,
            name,
            parent: String::new(),
            unit: String::new(),
            path: String::new(),
            tools: AssocMap::new(),
            created: false,
            holder: None,
            deadline: 0,
            error: ProcessError { chain: Vec::new() },
        };
        assert(r@ =~= SetupModel::begun(kind, name@)) by {
            assert(r@.tools =~= Map::empty());
            assert(r@.error =~= Seq::empty());
        }
        r
    }

    /// Begins to make a control group below the owner's own.
    pub fn spawn_direct(pid: u32, instance: u128, id: u64) -> (r: Self)
        ensures
            r.wf(),
            r@ == SetupModel::begun(SetupKind::Direct, name_of_cgroup(pid, instance, id)),
    {
        Self::begin(SetupKind::Direct, cgroup_name(pid, instance, id))
    }

    /// Begins to have a control group made by the service manager.
    pub fn spawn_systemd(pid: u32, instance: u128, id: u64) -> (r: Self)
        ensures
            r.wf(),
            r@ == SetupModel::begun(SetupKind::Systemd, name_of_cgroup(pid, instance, id)),
    {
        Self::begin(SetupKind::Systemd, cgroup_name(pid, instance, id))
    }

    /// Begins to set up a session.
    pub fn spawn_session() -> (r: Self)
        ensures
            r.wf(),
            r@ == SetupModel::begun(SetupKind::Session, Seq::empty()),
    {
        Self::begin(SetupKind::Session, String::new())
    }

    /// Begins to set up a session whose watchdog is run by this program.
    pub fn spawn_session_with_program(program: &str) -> (r: Self)
        ensures
            r.wf(),
            r@ == (SetupModel {
                stage: SetupStage::Lifeline,
                tools: Map::empty().insert(Tool::Shell, program@),
                ..SetupModel::begun(SetupKind::Session, Seq::empty())
            }),
    {
        let mut r = Self::begin(SetupKind::Session, String::new());
        r.step(SetupEvent::Located(Ok(program.to_owned())));
        r
    }

    /// Where an executable is.
    fn tool(&self, tool: Tool) -> (r: &str)
        requires
            self.has_tools(),
        ensures
            r@ == self@.tool(tool),
    {
        match self.tools.get(&tool) {
            Some(path) => path.as_str(),
            None => {
                proof {
                    reveal_strlit("");
                    assert(""@ =~= Seq::empty());
                }
                ""
            },
        }
    }

    /// The command that keeps watch over the group.
    fn watchdog(&self) -> (r: CommandPlan)
        requires
            self.has_tools(),
        ensures
            r@ == self@.watchdog(),
    {
        match self.kind {
            SetupKind::Session => session_watchdog_command(
                self.tool(Tool::Shell),
                self.tool(Tool::Ps),
                self.tool(Tool::Awk),
                self.tool(Tool::Sleep),
            ),
            SetupKind::Direct => cgroup_watchdog_command(
                self.tool(Tool::Shell),
                "zed-cgroup-watchdog",
                self.path.as_str(),
                self.tool(Tool::Rmdir),
                self.tool(Tool::Find),
                self.tool(Tool::Sleep),
            ),
            SetupKind::Systemd => cgroup_watchdog_command(
                self.tool(Tool::Shell),
                "zed-systemd-cgroup-watchdog",
                self.path.as_str(),
                self.tool(Tool::Rmdir),
                self.tool(Tool::Find),
                self.tool(Tool::Sleep),
            ),
        }
    }

    /// What to ask of the system next.
    pub fn action(&self) -> (r: SetupAction)
        requires
            self.wf(),
        ensures
            r@ == self@.action(),
            r matches SetupAction::KillGroup(pid) ==> self@.holder == Some(pid),
    {
        let path = self.path.as_str();
        match self.stage {
            SetupStage::OwnCgroup => SetupAction::ReadText(OWN_CGROUPS.to_owned()),
            SetupStage::KillSupport => SetupAction::CheckFile(
                path_below(self.parent.as_str(), "cgroup.kill"),
            ),
            SetupStage::Create => SetupAction::CreateDir(self.path.clone()),
            SetupStage::Locate(tool) => SetupAction::Locate(tool.name().to_owned()),
            SetupStage::Holder => SetupAction::SpawnHolder(
                scope_holder_command(
                    self.tool(Tool::SystemdRun),
                    self.name.as_str(),
                    self.unit.as_str(),
                    self.tool(Tool::Shell),
                    self.tool(Tool::Sleep),
                ),
            ),
            SetupStage::Start => SetupAction::ReadClock,
            SetupStage::Members => SetupAction::ReadText(path_below(path, "cgroup.procs")),
            SetupStage::Time => SetupAction::ReadClock,
            SetupStage::Pause => SetupAction::Sleep(SCOPE_POLL_INTERVAL),
            SetupStage::Type => SetupAction::ReadText(path_below(path, "cgroup.type")),
            SetupStage::OpenProcs => SetupAction::OpenProcs(path_below(path, "cgroup.procs")),
            SetupStage::DuplicateProcs => SetupAction::DuplicateProcs,
            SetupStage::Lifeline => SetupAction::CreateLifeline,
            SetupStage::DuplicateLifeline => SetupAction::DuplicateLifeline,
            SetupStage::Watchdog => SetupAction::SpawnWatchdog(self.watchdog()),
            SetupStage::RemoveDir => SetupAction::RemoveDir(self.path.clone()),
            SetupStage::CheckScope => SetupAction::CheckExists(self.path.clone()),
            SetupStage::KillScope => SetupAction::WriteText {
                path: path_below(path, "cgroup.kill"),
                text: "1".to_owned(),
            },
            SetupStage::KillHolderGroup => SetupAction::KillGroup(
                match self.holder {
                    Some(pid) => pid,
                    None => 0,
                },
            ),
            SetupStage::KillHolder => SetupAction::KillHolder,
            SetupStage::Succeeded => SetupAction::Succeed,
            SetupStage::Failed => SetupAction::Fail(self.error.clone()),
        }
    }

    /// The directory of the control group; empty while it is not known, and for
    /// a session.
    pub fn path(&self) -> (r: &str)
        ensures
            r@ == self@.path,
    {
        self.path.as_str()
    }

    /// Why the setup failed, once it is over.
    pub fn failure(&self) -> (r: Option<ProcessError>)
        ensures
            r is Some == (self@.stage is Failed),
            r matches Some(error) ==> error@ == self@.error,
    {
        match self.stage {
            SetupStage::Failed => Some(self.error.clone()),
            _ => None,
        }
    }

    /// Goes to another step.
    fn go_to(&mut self, stage: SetupStage)
        requires
            old(self).has_tools(),
        ensures
            final(self).has_tools(),
            final(self)@ == old(self)@.at(stage),
    {
        self.stage = stage;
    }

    /// Goes on to the next step.
    fn proceed(&mut self)
        requires
            old(self).has_tools(),
        ensures
            final(self).has_tools(),
            final(self)@ == old(self)@.proceeded(),
    {
        self.stage = next_step(self.kind, self.stage);
    }

    /// Takes down what was made.
    fn undo(&mut self, error: ProcessError)
        requires
            old(self).has_tools(),
        ensures
            final(self).has_tools(),
            final(self)@ == old(self)@.undone(error@),
    {
        self.error = error;
        self.stage = match self.kind {
            SetupKind::Direct => if self.created {
                SetupStage::RemoveDir
            } else {
                SetupStage::Failed
            },
            SetupKind::Systemd => if self.holder.is_some() {
                SetupStage::CheckScope
            } else {
                SetupStage::Failed
            },
            SetupKind::Session => SetupStage::Failed,
        };
    }

    /// Gives up over a step that the system refused.
    fn give_up(&mut self, cause: String)
        requires
            old(self).has_tools(),
        ensures
            final(self).has_tools(),
            final(self)@ == old(self)@.undone(
                seq![refusal(old(self)@.kind, old(self)@.stage), cause@],
            ),
    {
        let error = failed(refusal_message(self.kind, self.stage), cause);
        self.undo(error);
    }

    /// Goes on after a step that the system either did or refused.
    fn attempt(&mut self, outcome: Result<(), String>)
        requires
            old(self).has_tools(),
        ensures
            final(self).has_tools(),
            final(self)@ == old(self)@.attempted(outcome),
    {
        match outcome {
            Ok(_) => self.proceed(),
            Err(cause) => self.give_up(cause),
        }
    }

    /// Goes on after the owner's control group was read.
    fn place(&mut self, cgroups: Result<String, String>)
        requires
            old(self).has_tools(),
        ensures
            final(self).has_tools(),
            final(self)@ == old(self)@.placed(cgroups),
    {
        match cgroups {
            Err(cause) => self.give_up(cause),
            Ok(cgroups) => match current_cgroup_dir(cgroups.as_str()) {
                Err(error) => self.undo(error),
                Ok(parent) => match self.kind {
                    SetupKind::Direct => {
                        self.path = path_below(parent.as_str(), self.name.as_str());
                        self.parent = parent;
                        self.proceed();
                    },
                    _ => match find_scope_site(parent.as_str()) {
                        Err(error) => self.undo(error),
                        Ok((slice, unit)) => {
                            let mut file_name = self.name.clone();
                            file_name.append(".scope");
                            self.path = path_below(slice.as_str(), file_name.as_str());
                            self.parent = parent;
                            self.unit = unit;
                            self.proceed();
                        },
                    },
                },
            },
        }
    }

    /// Goes on after the type of the control group was read.
    fn check_type(&mut self, text: Result<String, String>)
        requires
            old(self).has_tools(),
        ensures
            final(self).has_tools(),
            final(self)@ == old(self)@.typed(text),
    {
        match text {
            Err(cause) => self.give_up(cause),
            Ok(text) => {
                let cgroup_type = trim(text.as_str());
                if same_text(cgroup_type, "domain") {
                    self.proceed();
                } else {
                    let message = match self.kind {
                        SetupKind::Direct => "unsupported cgroup type: ",
                        _ => "unsupported transient scope cgroup type: ",
                    };
                    self.undo(with_detail(message, cgroup_type));
                }
            },
        }
    }

    /// Goes on with what the system answered.
    pub fn step(&mut self, event: SetupEvent)
        requires
            old(self).wf(),
            event matches SetupEvent::Clock(now) ==> now <= u64::MAX - SCOPE_TIMEOUT,
        ensures
            final(self).wf(),
            final(self)@ == old(self)@.stepped(event),
    {
        proof {
            setup_stays_consistent(self@, event);
        }
        match (self.stage, event) {
            (SetupStage::OwnCgroup, SetupEvent::Text(text)) => self.place(text),
            (SetupStage::KillSupport, SetupEvent::Answer(is_file)) => {
                if is_file {
                    self.proceed();
                } else {
                    self.undo(
                        ProcessError::new(
                            "current cgroup does not support cgroup.kill".to_owned(),
                        ),
                    );
                }
            },
            (SetupStage::Create, SetupEvent::Done(outcome)) => match outcome {
                Ok(_) => {
                    self.created = true;
                    self.proceed();
                },
                Err(cause) => {
                    let mut message = "failed to create cgroup ".to_owned();
                    message.append(self.path.as_str());
                    self.undo(failed(message.as_str(), cause));
                },
            },
            (SetupStage::Locate(tool), SetupEvent::Located(located)) => match located {
                Ok(path) => {
                    let ghost before = self@.tools;
                    self.tools.insert(tool, path);
                    assert(self@.tools =~= before.insert(tool, path@));
                    self.proceed();
                },
                Err(error) => self.undo(error),
            },
            (SetupStage::Holder, SetupEvent::Started(started)) => match started {
                Ok(pid) => {
                    self.holder = Some(pid);
                    self.proceed();
                },
                Err(cause) => self.give_up(cause),
            },
            (SetupStage::Start, SetupEvent::Clock(now)) => {
                self.deadline = now + SCOPE_TIMEOUT;
                self.proceed();
            },
            (SetupStage::Members, SetupEvent::Text(members)) => {
                if holder_is_member(&members, self.holder) {
                    self.proceed();
                } else {
                    self.go_to(SetupStage::Time);
                }
            },
            (SetupStage::Time, SetupEvent::Clock(now)) => {
                if now >= self.deadline {
                    self.undo(
                        ProcessError::new(
                            "timed out waiting for transient scope holder migration".to_owned(),
                        ),
                    );
                } else {
                    self.go_to(SetupStage::Pause);
                }
            },
            (SetupStage::Pause, SetupEvent::Done(_)) => self.go_to(SetupStage::Members),
            (SetupStage::Type, SetupEvent::Text(text)) => self.check_type(text),
            (SetupStage::OpenProcs, SetupEvent::Done(outcome)) => self.attempt(outcome),
            (SetupStage::DuplicateProcs, SetupEvent::Done(outcome)) => self.attempt(outcome),
            (SetupStage::Lifeline, SetupEvent::Done(outcome)) => self.attempt(outcome),
            (SetupStage::DuplicateLifeline, SetupEvent::Done(outcome)) => self.attempt(outcome),
            (SetupStage::Watchdog, SetupEvent::Done(outcome)) => self.attempt(outcome),
            (SetupStage::RemoveDir, SetupEvent::Done(_)) => self.go_to(SetupStage::Failed),
            (SetupStage::CheckScope, SetupEvent::Answer(exists)) => {
                if exists {
                    self.go_to(SetupStage::KillScope);
                } else {
                    self.go_to(SetupStage::KillHolderGroup);
                }
            },
            (SetupStage::KillScope, SetupEvent::Done(_)) => {
                self.go_to(SetupStage::KillHolderGroup);
            },
            (SetupStage::KillHolderGroup, SetupEvent::Done(outcome)) => match outcome {
                Ok(_) => self.go_to(SetupStage::Failed),
                Err(_) => self.go_to(SetupStage::KillHolder),
            },
            (SetupStage::KillHolder, SetupEvent::Done(_)) => self.go_to(SetupStage::Failed),
            _ => {},
        }
    }
}

impl SetupModel {
    /// Whether the setup failed, and is taking down what it made.
    pub open spec fn is_undoing(self) -> bool {
        self.stage is RemoveDir || self.stage is CheckScope || self.stage is KillScope
            || self.stage is KillHolderGroup || self.stage is KillHolder
    }

    /// What holds of a setup at each of its steps: a directly made control
    /// group is taken down only after it was made, and a scope only after its
    /// holder was started; and once there is something to take down, the setup
    /// is not over with a failure before that was begun.
    pub open spec fn consistent(self) -> bool {
        &&& self.created ==> self.kind is Direct && !(self.stage is OwnCgroup || self.stage is KillSupport
            || self.stage is Create)
        &&& self.holder is Some ==> self.kind is Systemd && !(self.stage is OwnCgroup
            || self.stage is Holder)
        &&& self.stage is RemoveDir ==> self.created
        &&& self.is_undoing() && !(self.stage is RemoveDir) ==> self.holder is Some
        &&& self.kind is Direct && (self.stage is Type || self.stage is OpenProcs
            || self.stage is DuplicateProcs || self.stage is Lifeline || self.stage is Watchdog
            || self.stage is Succeeded) ==> self.created
        &&& self.kind is Systemd && (self.stage is Start || self.stage is Members
            || self.stage is Time || self.stage is Pause || self.stage is Type
            || self.stage is OpenProcs || self.stage is DuplicateProcs || self.stage is Lifeline
            || self.stage is Watchdog || self.stage is Succeeded) ==> self.holder is Some
        &&& self.stage matches SetupStage::Locate(tool) ==> match self.kind {
            SetupKind::Direct => self.created && (tool is Shell || tool is Rmdir || tool is Find
                || tool is Sleep),
            SetupKind::Systemd => if tool is Rmdir || tool is Find {
                self.holder is Some
            } else {
                self.holder is None && (tool is SystemdRun || tool is Shell || tool is Sleep)
            },
            SetupKind::Session => tool is Shell || tool is Ps || tool is Awk || tool is Sleep,
        }
        &&& self.kind is Session ==> self.stage is Locate || self.stage is Lifeline
            || self.stage is DuplicateLifeline || self.stage is Watchdog || self.stage is Succeeded
            || self.stage is Failed
        &&& self.kind is Direct ==> !(self.stage is Holder || self.stage is Start
            || self.stage is Members || self.stage is Time || self.stage is Pause
            || self.stage is DuplicateLifeline)
        &&& self.kind is Systemd ==> !(self.stage is KillSupport || self.stage is Create
            || self.stage is DuplicateLifeline)
    }
}

/// A setup is consistent when it begins, and stays so whatever the system
/// answers.
pub proof fn setup_stays_consistent(m: SetupModel, event: SetupEvent)
    requires
        m.consistent(),
    ensures
        m.stepped(event).consistent(),
{
}

/// A setup that begins is consistent.
pub proof fn begun_setup_is_consistent(kind: SetupKind, name: Seq<char>)
    ensures
        SetupModel::begun(kind, name).consistent(),
{
}

/// Where a step fails after the control group was made, the next thing asked
/// for is that the control group be removed; where a step fails after the
/// holder was started, the next things are about the holder's scope.
pub proof fn failure_takes_down_what_was_made(m: SetupModel, error: Seq<Seq<char>>)
    requires
        m.consistent(),
    ensures
        m.created ==> m.undone(error).action() == SetupActionModel::RemoveDir(m.path),
        m.holder is Some ==> m.undone(error).action() == SetupActionModel::CheckExists(m.path),
        !m.created && m.holder is None ==> m.undone(error).action() == SetupActionModel::Fail(
            error,
        ),
{
}

/// Nothing is taken down as long as no step failed: the only way from a step
/// of the setup to one of taking down is through an error, which then stays the
/// error of the setup.
pub proof fn first_failure_decides(m: SetupModel, event: SetupEvent)
    requires
        m.consistent(),
    ensures
        m.is_undoing() ==> m.stepped(event).error == m.error && (m.stepped(event).is_undoing()
            || m.stepped(event).stage is Failed),
        m.stage is Failed ==> m.stepped(event) == m,
        m.stage is Succeeded ==> m.stepped(event) == m,
        !m.is_undoing() && !(m.stage is Failed) && !(m.stepped(event).is_undoing())
            && !(m.stepped(event).stage is Failed) ==> m.stepped(event).error == m.error,
{
}

/// Whatever the system answers, taking down the holder of a scope asks to kill
/// it before the setup is over: the scope as a whole where it is there, then
/// the holder's process group, and the holder alone where that is refused.
pub proof fn holder_is_always_killed(
    m: SetupModel,
    exists: bool,
    scope_killed: Result<(), String>,
    group_killed: Result<(), String>,
    holder_killed: Result<(), String>,
)
    requires
        m.stage is CheckScope,
        m.holder is Some,
    ensures
        ({
            let checked = m.stepped(SetupEvent::Answer(exists));
            let scope_done = if exists {
                checked.stepped(SetupEvent::Done(scope_killed))
            } else {
                checked
            };
            let group_done = scope_done.stepped(SetupEvent::Done(group_killed));
            &&& exists ==> checked.action() == (SetupActionModel::WriteText {
                path: below(m.path, "cgroup.kill"@),
                text: "1"@,
            })
            &&& scope_done.action() == SetupActionModel::KillGroup(m.holder->0)
            &&& group_killed is Ok ==> group_done.action() == SetupActionModel::Fail(m.error)
            &&& group_killed is Err ==> group_done.action() == SetupActionModel::KillHolder
                && group_done.stepped(SetupEvent::Done(holder_killed)).action()
                == SetupActionModel::Fail(m.error)
        }),
{
}

/// The holder of a scope is not waited for past the deadline.
pub proof fn holder_is_not_waited_for_in_vain(m: SetupModel, now: u64)
    requires
        m.stage is Time,
        now >= m.deadline,
    ensures
        m.stepped(SetupEvent::Clock(now)).error == seq![
            "timed out waiting for transient scope holder migration"@,
        ],
        m.stepped(SetupEvent::Clock(now)).stage != SetupStage::Pause,
{
}

/// The setup after these answers.
#[verifier::opaque]
pub open spec fn answered(m: SetupModel, events: Seq<SetupEvent>) -> SetupModel
    decreases events.len(),
{
    if events.len() == 0 {
        m
    } else {
        answered(m, events.drop_last()).stepped(events.last())
    }
}

/// Without an answer the setup stays as it is.
pub proof fn nothing_happens_unanswered(m: SetupModel)
    ensures
        answered(m, seq![]) == m,
{
    reveal(answered);
}

/// One more answer is one more step.
pub proof fn one_more_answer(
    m: SetupModel,
    events: Seq<SetupEvent>,
    more: Seq<SetupEvent>,
    before: SetupModel,
    after: SetupModel,
)
    requires
        more.len() > 0,
        more.drop_last() =~= events,
        answered(m, events) == before,
        before.stepped(more.last()) == after,
    ensures
        answered(m, more) == after,
{
    reveal(answered);
}

/// Answers are taken in turn: the setup goes on from where the earlier ones
/// have brought it.
pub proof fn answers_are_taken_in_turn(
    m: SetupModel,
    first: Seq<SetupEvent>,
    later: Seq<SetupEvent>,
)
    ensures
        answered(m, first + later) == answered(answered(m, first), later),
    decreases later.len(),
{
    reveal(answered);
    if later.len() == 0 {
        assert(first + later =~= first);
    } else {
        answers_are_taken_in_turn(m, first, later.drop_last());
        assert((first + later).drop_last() =~= first + later.drop_last());
    }
}

/// The answer to a step that the system did.
pub open spec fn did() -> SetupEvent {
    SetupEvent::Done(Ok(()))
}

/// The answer that an executable was found at this path.
pub open spec fn found(path: String) -> SetupEvent {
    SetupEvent::Located(Ok(path))
}

/// A step that the system did is followed by the next one.
proof fn done_step_is_followed(m: SetupModel)
    requires
        m.stage is OpenProcs || m.stage is DuplicateProcs || m.stage is Lifeline
            || m.stage is Watchdog,
    ensures
        m.stepped(did()) == m.proceeded(),
{
}

/// An executable that was found is kept, and the next step follows.
proof fn found_tool_is_kept(m: SetupModel, tool: Tool, path: String)
    requires
        m.stage == SetupStage::Locate(tool),
    ensures
        m.stepped(found(path)) == (SetupModel {
            tools: m.tools.insert(tool, path@),
            ..m
        }).proceeded(),
{
}

/// A control group that was opened gets a lifeline in three steps.
proof fn group_is_tied(m: SetupModel)
    requires
        !(m.kind is Session),
        m.stage is OpenProcs,
    ensures
        answered(m, seq![did(), did(), did()]) == m.at(step_after(m.kind, SetupStage::Lifeline)),
{
    let second = m.at(SetupStage::DuplicateProcs);
    let third = m.at(SetupStage::Lifeline);
    done_step_is_followed(m);
    nothing_happens_unanswered(m);
    one_more_answer(m, seq![], seq![did()], m, second);
    done_step_is_followed(second);
    one_more_answer(m, seq![did()], seq![did(), did()], second, third);
    done_step_is_followed(third);
    one_more_answer(
        m,
        seq![did(), did()],
        seq![did(), did(), did()],
        third,
        m.at(step_after(m.kind, SetupStage::Lifeline)),
    );
}

/// A group is asked for below that of the owner, which can be killed as a whole.
proof fn direct_group_is_asked_for(name: Seq<char>, cgroups: String)
    requires
        cgroup_dir(cgroups@) is Ok,
    ensures
        ({
            let m = SetupModel::begun(SetupKind::Direct, name);
            let parent = cgroup_dir(cgroups@)->Ok_0;
            answered(m, seq![SetupEvent::Text(Ok(cgroups)), SetupEvent::Answer(true)]) == (
            SetupModel { parent, path: below(parent, name), stage: SetupStage::Create, ..m })
        }),
{
    let m = SetupModel::begun(SetupKind::Direct, name);
    let parent = cgroup_dir(cgroups@)->Ok_0;
    let read = SetupEvent::Text(Ok(cgroups));
    let placed = SetupModel {
        parent,
        path: below(parent, name),
        stage: SetupStage::KillSupport,
        ..m
    };
    nothing_happens_unanswered(m);
    one_more_answer(m, seq![], seq![read], m, placed);
    one_more_answer(
        m,
        seq![read],
        seq![read, SetupEvent::Answer(true)],
        placed,
        placed.at(SetupStage::Create),
    );
}

/// The group is made, and found to be a domain.
proof fn direct_group_is_made(m: SetupModel, cgroup_type: String)
    requires
        m.kind is Direct,
        m.stage is Create,
        trimmed(cgroup_type@) == "domain"@,
    ensures
        answered(m, seq![did(), SetupEvent::Text(Ok(cgroup_type))]) == (SetupModel {
            created: true,
            stage: SetupStage::OpenProcs,
            ..m
        }),
{
    let made = SetupModel { created: true, stage: SetupStage::Type, ..m };
    nothing_happens_unanswered(m);
    one_more_answer(m, seq![], seq![did()], m, made);
    one_more_answer(
        m,
        seq![did()],
        seq![did(), SetupEvent::Text(Ok(cgroup_type))],
        made,
        made.at(SetupStage::OpenProcs),
    );
}

/// The four executables of a direct setup are found one after the other.
proof fn direct_tools_are_found(
    m: SetupModel,
    shell: String,
    rmdir: String,
    find: String,
    sleep: String,
)
    requires
        m.kind is Direct,
        m.stage == SetupStage::Locate(Tool::Shell),
    ensures
        answered(m, seq![found(shell), found(rmdir), found(find), found(sleep)]) == (SetupModel {
            tools: m.tools.insert(Tool::Shell, shell@).insert(Tool::Rmdir, rmdir@).insert(
                Tool::Find,
                find@,
            ).insert(Tool::Sleep, sleep@),
            stage: SetupStage::Watchdog,
            ..m
        }),
{
    let second = SetupModel {
        tools: m.tools.insert(Tool::Shell, shell@),
        stage: SetupStage::Locate(Tool::Rmdir),
        ..m
    };
    let third = SetupModel {
        tools: second.tools.insert(Tool::Rmdir, rmdir@),
        stage: SetupStage::Locate(Tool::Find),
        ..m
    };
    let fourth = SetupModel {
        tools: third.tools.insert(Tool::Find, find@),
        stage: SetupStage::Locate(Tool::Sleep),
        ..m
    };
    let last = SetupModel {
        tools: fourth.tools.insert(Tool::Sleep, sleep@),
        stage: SetupStage::Watchdog,
        ..m
    };
    found_tool_is_kept(m, Tool::Shell, shell);
    nothing_happens_unanswered(m);
    one_more_answer(m, seq![], seq![found(shell)], m, second);
    found_tool_is_kept(second, Tool::Rmdir, rmdir);
    one_more_answer(m, seq![found(shell)], seq![found(shell), found(rmdir)], second, third);
    found_tool_is_kept(third, Tool::Find, find);
    one_more_answer(
        m,
        seq![found(shell), found(rmdir)],
        seq![found(shell), found(rmdir), found(find)],
        third,
        fourth,
    );
    found_tool_is_kept(fourth, Tool::Sleep, sleep);
    one_more_answer(
        m,
        seq![found(shell), found(rmdir), found(find)],
        seq![found(shell), found(rmdir), found(find), found(sleep)],
        fourth,
        last,
    );
}

/// A control group is set up directly wherever the system refuses nothing: the
/// owner is in a control group that can be killed as a whole, the new group is
/// a domain, and all executables are found.
pub proof fn direct_setup_succeeds(
    name: Seq<char>,
    cgroups: String,
    cgroup_type: String,
    shell: String,
    rmdir: String,
    find: String,
    sleep: String,
)
    requires
        cgroup_dir(cgroups@) is Ok,
        trimmed(cgroup_type@) == "domain"@,
    ensures
        ({
            let begun = SetupModel::begun(SetupKind::Direct, name);
            let allowed = seq![SetupEvent::Text(Ok(cgroups)), SetupEvent::Answer(true)];
            let made = seq![did(), SetupEvent::Text(Ok(cgroup_type))];
            let tied = seq![did(), did(), did()];
            let equipped = seq![found(shell), found(rmdir), found(find), found(sleep)];
            let answers = allowed + made + tied + equipped;
            let path = below(cgroup_dir(cgroups@)->Ok_0, name);
            &&& answered(begun, allowed).action() == SetupActionModel::CreateDir(path)
            &&& answered(begun, answers).action() == SetupActionModel::SpawnWatchdog(
                cgroup_watchdog(
                    shell@,
                    "zed-cgroup-watchdog"@,
                    path,
                    rmdir@,
                    find@,
                    sleep@,
                ),
            )
            &&& answered(begun, answers.push(did())).action() == SetupActionModel::Succeed
            &&& answered(begun, answers.push(did())).path == path
        }),
{
    let begun = SetupModel::begun(SetupKind::Direct, name);
    let allowed = seq![SetupEvent::Text(Ok(cgroups)), SetupEvent::Answer(true)];
    let made = seq![did(), SetupEvent::Text(Ok(cgroup_type))];
    let tied = seq![did(), did(), did()];
    let equipped = seq![found(shell), found(rmdir), found(find), found(sleep)];
    let first = answered(begun, allowed);
    let second = answered(begun, allowed + made);
    let third = answered(begun, allowed + made + tied);
    let last = answered(begun, allowed + made + tied + equipped);
    direct_group_is_asked_for(name, cgroups);
    direct_group_is_made(first, cgroup_type);
    answers_are_taken_in_turn(begun, allowed, made);
    group_is_tied(second);
    answers_are_taken_in_turn(begun, allowed + made, tied);
    direct_tools_are_found(third, shell, rmdir, find, sleep);
    answers_are_taken_in_turn(begun, allowed + made + tied, equipped);
    done_step_is_followed(last);
    one_more_answer(
        begun,
        allowed + made + tied + equipped,
        (allowed + made + tied + equipped).push(did()),
        last,
        last.at(SetupStage::Succeeded),
    );
}

/// The three executables that the holder needs are found one after the other.
proof fn systemd_tools_are_found(m: SetupModel, systemd_run: String, shell: String, sleep: String)
    requires
        m.kind is Systemd,
        m.stage == SetupStage::Locate(Tool::SystemdRun),
    ensures
        answered(m, seq![found(systemd_run), found(shell), found(sleep)]) == (SetupModel {
            tools: m.tools.insert(Tool::SystemdRun, systemd_run@).insert(
                Tool::Shell,
                shell@,
            ).insert(Tool::Sleep, sleep@),
            stage: SetupStage::Holder,
            ..m
        }),
{
    let second = SetupModel {
        tools: m.tools.insert(Tool::SystemdRun, systemd_run@),
        stage: SetupStage::Locate(Tool::Shell),
        ..m
    };
    let third = SetupModel {
        tools: second.tools.insert(Tool::Shell, shell@),
        stage: SetupStage::Locate(Tool::Sleep),
        ..m
    };
    let last = SetupModel {
        tools: third.tools.insert(Tool::Sleep, sleep@),
        stage: SetupStage::Holder,
        ..m
    };
    found_tool_is_kept(m, Tool::SystemdRun, systemd_run);
    nothing_happens_unanswered(m);
    one_more_answer(m, seq![], seq![found(systemd_run)], m, second);
    found_tool_is_kept(second, Tool::Shell, shell);
    one_more_answer(
        m,
        seq![found(systemd_run)],
        seq![found(systemd_run), found(shell)],
        second,
        third,
    );
    found_tool_is_kept(third, Tool::Sleep, sleep);
    one_more_answer(
        m,
        seq![found(systemd_run), found(shell)],
        seq![found(systemd_run), found(shell), found(sleep)],
        third,
        last,
    );
}

/// The holder is started, and waited for from then on.
proof fn holder_is_started(m: SetupModel, holder: u32, now: u64)
    requires
        m.kind is Systemd,
        m.stage is Holder,
    ensures
        answered(m, seq![SetupEvent::Started(Ok(holder)), SetupEvent::Clock(now)]) == (SetupModel {
            holder: Some(holder),
            deadline: (now + SCOPE_TIMEOUT) as u64,
            stage: SetupStage::Members,
            ..m
        }),
{
    let started = SetupModel { holder: Some(holder), stage: SetupStage::Start, ..m };
    let waiting = SetupModel {
        deadline: (now + SCOPE_TIMEOUT) as u64,
        stage: SetupStage::Members,
        ..started
    };
    nothing_happens_unanswered(m);
    one_more_answer(m, seq![], seq![SetupEvent::Started(Ok(holder))], m, started);
    one_more_answer(
        m,
        seq![SetupEvent::Started(Ok(holder))],
        seq![SetupEvent::Started(Ok(holder)), SetupEvent::Clock(now)],
        started,
        waiting,
    );
}

/// The service manager is asked for a control group wherever the owner is a
/// unit among the applications, and all executables are found; the holder is
/// then waited for.
pub proof fn systemd_setup_starts_a_holder(
    name: Seq<char>,
    cgroups: String,
    systemd_run: String,
    shell: String,
    sleep: String,
    holder: u32,
    now: u64,
)
    requires
        cgroup_dir(cgroups@) is Ok,
        scope_site(cgroup_dir(cgroups@)->Ok_0) is Ok,
    ensures
        ({
            let begun = SetupModel::begun(SetupKind::Systemd, name);
            let sited = seq![SetupEvent::Text(Ok(cgroups))];
            let equipped = seq![found(systemd_run), found(shell), found(sleep)];
            let started = seq![SetupEvent::Started(Ok(holder)), SetupEvent::Clock(now)];
            let waiting = answered(begun, sited + equipped + started);
            let (slice, unit) = scope_site(cgroup_dir(cgroups@)->Ok_0)->Ok_0;
            &&& answered(begun, sited + equipped).action() == SetupActionModel::SpawnHolder(
                scope_holder(systemd_run@, name, unit, shell@, sleep@),
            )
            &&& waiting.kind is Systemd
            &&& waiting.stage is Members
            &&& waiting.holder == Some(holder)
            &&& waiting.path == below(slice, name + ".scope"@)
            &&& waiting.tool(Tool::Shell) == shell@
            &&& waiting.tool(Tool::Sleep) == sleep@
        }),
{
    let begun = SetupModel::begun(SetupKind::Systemd, name);
    let sited = seq![SetupEvent::Text(Ok(cgroups))];
    let equipped = seq![found(systemd_run), found(shell), found(sleep)];
    let started = seq![SetupEvent::Started(Ok(holder)), SetupEvent::Clock(now)];
    let parent = cgroup_dir(cgroups@)->Ok_0;
    let (slice, unit) = scope_site(parent)->Ok_0;
    let first = SetupModel {
        parent,
        unit,
        path: below(slice, name + ".scope"@),
        stage: SetupStage::Locate(Tool::SystemdRun),
        ..begun
    };
    nothing_happens_unanswered(begun);
    one_more_answer(begun, seq![], seq![SetupEvent::Text(Ok(cgroups))], begun, first);
    systemd_tools_are_found(first, systemd_run, shell, sleep);
    answers_are_taken_in_turn(begun, sited, equipped);
    holder_is_started(answered(first, equipped), holder, now);
    answers_are_taken_in_turn(begun, sited + equipped, started);
}

/// The holder is a member of its scope, which is found to be a domain.
proof fn scope_is_checked(m: SetupModel, members: String, cgroup_type: String)
    requires
        m.kind is Systemd,
        m.stage is Members,
        is_member(Ok(members), m.holder),
        trimmed(cgroup_type@) == "domain"@,
    ensures
        answered(m, seq![SetupEvent::Text(Ok(members)), SetupEvent::Text(Ok(cgroup_type))])
            == m.at(SetupStage::OpenProcs),
{
    let joined = m.at(SetupStage::Type);
    nothing_happens_unanswered(m);
    one_more_answer(m, seq![], seq![SetupEvent::Text(Ok(members))], m, joined);
    one_more_answer(
        m,
        seq![SetupEvent::Text(Ok(members))],
        seq![SetupEvent::Text(Ok(members)), SetupEvent::Text(Ok(cgroup_type))],
        joined,
        m.at(SetupStage::OpenProcs),
    );
}

/// The two executables that clean up after a scope are found.
proof fn systemd_cleaners_are_found(m: SetupModel, rmdir: String, find: String)
    requires
        m.kind is Systemd,
        m.stage == SetupStage::Locate(Tool::Rmdir),
    ensures
        answered(m, seq![found(rmdir), found(find)]) == (SetupModel {
            tools: m.tools.insert(Tool::Rmdir, rmdir@).insert(Tool::Find, find@),
            stage: SetupStage::Watchdog,
            ..m
        }),
{
    let second = SetupModel {
        tools: m.tools.insert(Tool::Rmdir, rmdir@),
        stage: SetupStage::Locate(Tool::Find),
        ..m
    };
    let last = SetupModel {
        tools: second.tools.insert(Tool::Find, find@),
        stage: SetupStage::Watchdog,
        ..m
    };
    found_tool_is_kept(m, Tool::Rmdir, rmdir);
    nothing_happens_unanswered(m);
    one_more_answer(m, seq![], seq![found(rmdir)], m, second);
    found_tool_is_kept(second, Tool::Find, find);
    one_more_answer(m, seq![found(rmdir)], seq![found(rmdir), found(find)], second, last);
}

/// Once the holder is among the members of its scope, the scope is taken over
/// wherever the system refuses nothing.
pub proof fn systemd_scope_is_taken_over(
    m: SetupModel,
    members: String,
    cgroup_type: String,
    rmdir: String,
    find: String,
)
    requires
        m.kind is Systemd,
        m.stage is Members,
        is_member(Ok(members), m.holder),
        trimmed(cgroup_type@) == "domain"@,
    ensures
        ({
            let checked = seq![SetupEvent::Text(Ok(members)), SetupEvent::Text(Ok(cgroup_type))];
            let tied = seq![did(), did(), did()];
            let equipped = seq![found(rmdir), found(find)];
            let answers = checked + tied + equipped;
            &&& answered(m, answers).action() == SetupActionModel::SpawnWatchdog(
                cgroup_watchdog(
                    m.tool(Tool::Shell),
                    "zed-systemd-cgroup-watchdog"@,
                    m.path,
                    rmdir@,
                    find@,
                    m.tool(Tool::Sleep),
                ),
            )
            &&& answered(m, answers.push(did())).action() == SetupActionModel::Succeed
            &&& answered(m, answers.push(did())).path == m.path
        }),
{
    let checked = seq![SetupEvent::Text(Ok(members)), SetupEvent::Text(Ok(cgroup_type))];
    let tied = seq![did(), did(), did()];
    let equipped = seq![found(rmdir), found(find)];
    let last = answered(m, checked + tied + equipped);
    scope_is_checked(m, members, cgroup_type);
    group_is_tied(answered(m, checked));
    answers_are_taken_in_turn(m, checked, tied);
    systemd_cleaners_are_found(answered(m, checked + tied), rmdir, find);
    answers_are_taken_in_turn(m, checked + tied, equipped);
    done_step_is_followed(last);
    one_more_answer(
        m,
        checked + tied + equipped,
        (checked + tied + equipped).push(did()),
        last,
        last.at(SetupStage::Succeeded),
    );
}

/// Whether a setup asked for something before it got these answers to the end.
pub open spec fn was_asked(
    kind: SetupKind,
    name: Seq<char>,
    events: Seq<SetupEvent>,
    action: SetupActionModel,
) -> bool {
    exists|i: int|
        0 <= i < events.len() && #[trigger] answered(
            SetupModel::begun(kind, name),
            events.take(i),
        ).action() == action
}

proof fn asked_before_stays_asked(
    kind: SetupKind,
    name: Seq<char>,
    events: Seq<SetupEvent>,
    action: SetupActionModel,
)
    requires
        events.len() > 0,
        was_asked(kind, name, events.drop_last(), action) || answered(
            SetupModel::begun(kind, name),
            events.drop_last(),
        ).action() == action,
    ensures
        was_asked(kind, name, events, action),
{
    let begun = SetupModel::begun(kind, name);
    let front = events.drop_last();
    if was_asked(kind, name, front, action) {
        let i = choose|i: int|
            0 <= i < front.len() && #[trigger] answered(begun, front.take(i)).action() == action;
        assert(front.take(i) =~= events.take(i));
        assert(answered(begun, events.take(i)).action() == action);
    } else {
        assert(events.take(events.len() - 1) =~= front);
        assert(answered(begun, events.take(events.len() - 1)).action() == action);
    }
}

/// What is asked for right before a setup is over with a failure.
proof fn last_step_of_a_failure(m: SetupModel, event: SetupEvent)
    requires
        m.consistent(),
    ensures
        ({
            let after = m.stepped(event);
            &&& after.stage is Failed && after.created ==> (m.stage is Failed && after == m)
                || m.action() == SetupActionModel::RemoveDir(after.path)
            &&& (after.stage is Failed || after.stage is KillHolder) && after.holder is Some ==> (
            (m.stage is Failed || m.stage is KillHolder) && after.holder == m.holder)
                || m.action() == SetupActionModel::KillGroup(after.holder->0)
        }),
{
}

/// Whatever the system answers, a setup that is over with a failure has asked
/// to remove the control group that it made, and has asked to kill the process
/// group of the holder that it started.
pub proof fn nothing_is_left_behind(kind: SetupKind, name: Seq<char>, events: Seq<SetupEvent>)
    ensures
        ({
            let m = answered(SetupModel::begun(kind, name), events);
            &&& m.consistent()
            &&& m.stage is Failed && m.created ==> was_asked(
                kind,
                name,
                events,
                SetupActionModel::RemoveDir(m.path),
            )
            &&& (m.stage is Failed || m.stage is KillHolder) && m.holder is Some ==> was_asked(
                kind,
                name,
                events,
                SetupActionModel::KillGroup(m.holder->0),
            )
        }),
    decreases events.len(),
{
    reveal(answered);
    let begun = SetupModel::begun(kind, name);
    if events.len() == 0 {
        begun_setup_is_consistent(kind, name);
    } else {
        let front = events.drop_last();
        let before = answered(begun, front);
        let m = answered(begun, events);
        nothing_is_left_behind(kind, name, front);
        setup_stays_consistent(before, events.last());
        last_step_of_a_failure(before, events.last());
        if m.stage is Failed && m.created {
            asked_before_stays_asked(kind, name, events, SetupActionModel::RemoveDir(m.path));
        }
        if (m.stage is Failed || m.stage is KillHolder) && m.holder is Some {
            asked_before_stays_asked(
                kind,
                name,
                events,
                SetupActionModel::KillGroup(m.holder->0),
            );
        }
    }
}

/// The step that comes before another one; none before the first.
pub open spec fn step_before(kind: SetupKind, stage: SetupStage) -> Option<SetupStage> {
    match (kind, stage) {
        (SetupKind::Direct, SetupStage::KillSupport) => Some(SetupStage::OwnCgroup),
        (SetupKind::Direct, SetupStage::Create) => Some(SetupStage::KillSupport),
        (SetupKind::Direct, SetupStage::Type) => Some(SetupStage::Create),
        (SetupKind::Direct, SetupStage::Locate(Tool::Shell)) => Some(SetupStage::Lifeline),
        (SetupKind::Direct, SetupStage::Locate(Tool::Rmdir)) => Some(
            SetupStage::Locate(Tool::Shell),
        ),
        (SetupKind::Direct, SetupStage::Locate(Tool::Sleep)) => Some(
            SetupStage::Locate(Tool::Find),
        ),
        (SetupKind::Direct, SetupStage::Watchdog) => Some(SetupStage::Locate(Tool::Sleep)),
        (SetupKind::Systemd, SetupStage::Locate(Tool::SystemdRun)) => Some(SetupStage::OwnCgroup),
        (SetupKind::Systemd, SetupStage::Locate(Tool::Shell)) => Some(
            SetupStage::Locate(Tool::SystemdRun),
        ),
        (SetupKind::Systemd, SetupStage::Locate(Tool::Sleep)) => Some(
            SetupStage::Locate(Tool::Shell),
        ),
        (SetupKind::Systemd, SetupStage::Holder) => Some(SetupStage::Locate(Tool::Sleep)),
        (SetupKind::Systemd, SetupStage::Start) => Some(SetupStage::Holder),
        (SetupKind::Systemd, SetupStage::Members) => Some(SetupStage::Start),
        (SetupKind::Systemd, SetupStage::Type) => Some(SetupStage::Members),
        (SetupKind::Systemd, SetupStage::Locate(Tool::Rmdir)) => Some(SetupStage::Lifeline),
        (SetupKind::Systemd, SetupStage::Watchdog) => Some(SetupStage::Locate(Tool::Find)),
        (SetupKind::Session, SetupStage::Lifeline) => Some(SetupStage::Locate(Tool::Shell)),
        (SetupKind::Session, SetupStage::DuplicateLifeline) => Some(SetupStage::Lifeline),
        (SetupKind::Session, SetupStage::Locate(Tool::Ps)) => Some(SetupStage::DuplicateLifeline),
        (SetupKind::Session, SetupStage::Locate(Tool::Awk)) => Some(SetupStage::Locate(Tool::Ps)),
        (SetupKind::Session, SetupStage::Locate(Tool::Sleep)) => Some(
            SetupStage::Locate(Tool::Awk),
        ),
        (SetupKind::Session, SetupStage::Watchdog) => Some(SetupStage::Locate(Tool::Sleep)),
        (_, SetupStage::OpenProcs) => Some(SetupStage::Type),
        (_, SetupStage::DuplicateProcs) => Some(SetupStage::OpenProcs),
        (_, SetupStage::Lifeline) => Some(SetupStage::DuplicateProcs),
        (_, SetupStage::Locate(Tool::Find)) => Some(SetupStage::Locate(Tool::Rmdir)),
        (_, SetupStage::Succeeded) => Some(SetupStage::Watchdog),
        _ => None,
    }
}

impl SetupModel {
    /// Whether an answer is what the setup needs at its step in order to go on.
    pub open spec fn is_granted(self, event: SetupEvent) -> bool {
        match (self.stage, event) {
            (SetupStage::OwnCgroup, SetupEvent::Text(Ok(cgroups))) => cgroup_dir(cgroups@) is Ok
                && (self.kind is Direct || scope_site(cgroup_dir(cgroups@)->Ok_0) is Ok),
            (SetupStage::KillSupport, SetupEvent::Answer(is_file)) => is_file,
            (SetupStage::Create, SetupEvent::Done(outcome)) => outcome is Ok,
            (SetupStage::Locate(_), SetupEvent::Located(located)) => located is Ok,
            (SetupStage::Holder, SetupEvent::Started(started)) => started is Ok,
            (SetupStage::Start, SetupEvent::Clock(_)) => true,
            (SetupStage::Members, SetupEvent::Text(members)) => is_member(members, self.holder),
            (SetupStage::Type, SetupEvent::Text(Ok(text))) => trimmed(text@) == "domain"@,
            (SetupStage::OpenProcs, SetupEvent::Done(outcome)) => outcome is Ok,
            (SetupStage::DuplicateProcs, SetupEvent::Done(outcome)) => outcome is Ok,
            (SetupStage::Lifeline, SetupEvent::Done(outcome)) => outcome is Ok,
            (SetupStage::DuplicateLifeline, SetupEvent::Done(outcome)) => outcome is Ok,
            (SetupStage::Watchdog, SetupEvent::Done(outcome)) => outcome is Ok,
            _ => false,
        }
    }

    /// Whether the setup failed, whether or not it is still taking down what it
    /// made.
    pub open spec fn has_failed(self) -> bool {
        self.is_undoing() || self.stage is Failed
    }

    /// The step that the setup is at. Waiting for the holder is one step.
    pub open spec fn step_now(self) -> SetupStage {
        if self.stage is Time || self.stage is Pause {
            SetupStage::Members
        } else {
            self.stage
        }
    }

    /// Whether a later state of the setup still has the control group and the
    /// holder that it has now.
    pub open spec fn is_kept_in(self, later: SetupModel) -> bool {
        &&& later.kind == self.kind
        &&& self.stage is OwnCgroup || later.path == self.path
        &&& self.holder is None || later.holder == self.holder
    }
}

/// Whether a step was granted by one of these answers, with the control group
/// and the holder that the setup has after all of them.
pub open spec fn was_granted(
    kind: SetupKind,
    name: Seq<char>,
    events: Seq<SetupEvent>,
    stage: SetupStage,
) -> bool {
    let begun = SetupModel::begun(kind, name);
    exists|i: int|
        0 <= i < events.len() && {
            let before = #[trigger] answered(begun, events.take(i));
            &&& before.stage == stage
            &&& before.is_granted(events[i])
            &&& before.is_kept_in(answered(begun, events))
        }
}

/// Whether the so many steps that come before a step were all granted.
pub open spec fn were_granted(
    kind: SetupKind,
    name: Seq<char>,
    events: Seq<SetupEvent>,
    stage: SetupStage,
    count: nat,
) -> bool
    decreases count,
{
    count > 0 ==> (step_before(kind, stage) matches Some(previous) ==> was_granted(
        kind,
        name,
        events,
        previous,
    ) && were_granted(kind, name, events, previous, (count - 1) as nat))
}

/// A setup that does not fail stays at its step, or goes on because the step was
/// granted.
proof fn step_stays_or_is_granted(m: SetupModel, event: SetupEvent)
    requires
        m.consistent(),
        !m.stepped(event).has_failed(),
    ensures
        ({
            let after = m.stepped(event);
            &&& !m.has_failed()
            &&& m.is_kept_in(after)
            &&& after.step_now() == m.step_now() || (step_before(m.kind, after.step_now()) == Some(
                m.stage,
            ) && m.is_granted(event))
        }),
{
}

/// What was granted before another answer was granted with it, as long as the
/// setup keeps what it has.
proof fn granted_before_stays_granted(
    kind: SetupKind,
    name: Seq<char>,
    events: Seq<SetupEvent>,
    count: int,
    stage: SetupStage,
)
    requires
        0 <= count <= events.len(),
        was_granted(kind, name, events.take(count), stage),
        answered(SetupModel::begun(kind, name), events.take(count)).is_kept_in(
            answered(SetupModel::begun(kind, name), events),
        ),
        !(answered(SetupModel::begun(kind, name), events.take(count)).stage is OwnCgroup),
    ensures
        was_granted(kind, name, events, stage),
{
    let begun = SetupModel::begun(kind, name);
    let front = events.take(count);
    let i = choose|i: int|
        0 <= i < front.len() && {
            let before = #[trigger] answered(begun, front.take(i));
            &&& before.stage == stage
            &&& before.is_granted(front[i])
            &&& before.is_kept_in(answered(begun, front))
        };
    assert(front.take(i) =~= events.take(i));
    assert(front[i] == events[i]);
    assert(answered(begun, events.take(i)).is_kept_in(answered(begun, events)));
}

/// As long as a setup has not failed, the step before the one that it is at was
/// granted.
proof fn last_step_was_granted(kind: SetupKind, name: Seq<char>, events: Seq<SetupEvent>)
    ensures
        ({
            let m = answered(SetupModel::begun(kind, name), events);
            &&& m.consistent()
            &&& m.kind == kind
            &&& !m.has_failed() ==> (step_before(kind, m.step_now()) matches Some(previous)
                ==> was_granted(kind, name, events, previous))
        }),
    decreases events.len(),
{
    let begun = SetupModel::begun(kind, name);
    let m = answered(begun, events);
    if events.len() == 0 {
        nothing_happens_unanswered(begun);
        assert(events =~= seq![]);
        begun_setup_is_consistent(kind, name);
    } else {
        let front = events.drop_last();
        let before = answered(begun, front);
        assert(events.take(events.len() - 1) =~= front);
        one_more_answer(begun, front, events, before, before.stepped(events.last()));
        last_step_was_granted(kind, name, front);
        setup_stays_consistent(before, events.last());
        setup_keeps_its_kind(before, events.last());
        if !m.has_failed() {
            step_stays_or_is_granted(before, events.last());
            if step_before(kind, m.step_now()) is Some && m.step_now() == before.step_now() {
                granted_before_stays_granted(
                    kind,
                    name,
                    events,
                    events.len() - 1,
                    step_before(kind, m.step_now())->0,
                );
            }
        }
    }
}

/// The kind of a setup does not change.
proof fn setup_keeps_its_kind(m: SetupModel, event: SetupEvent)
    ensures
        m.stepped(event).kind == m.kind,
{
}

/// Wherever a step was granted, so were all those that come before it.
proof fn earlier_steps_were_granted(
    kind: SetupKind,
    name: Seq<char>,
    events: Seq<SetupEvent>,
    stage: SetupStage,
    count: nat,
)
    requires
        was_granted(kind, name, events, stage),
    ensures
        were_granted(kind, name, events, stage, count),
    decreases count,
{
    let begun = SetupModel::begun(kind, name);
    if count > 0 && step_before(kind, stage) is Some {
        let i = choose|i: int|
            0 <= i < events.len() && {
                let before = #[trigger] answered(begun, events.take(i));
                &&& before.stage == stage
                &&& before.is_granted(events[i])
                &&& before.is_kept_in(answered(begun, events))
            };
        let previous = step_before(kind, stage)->0;
        last_step_was_granted(kind, name, events.take(i));
        granted_before_stays_granted(kind, name, events, i, previous);
        earlier_steps_were_granted(kind, name, events, previous, (count - 1) as nat);
    }
}

/// Whether the system, asked for the text at a path, answered with this one.
pub open spec fn was_read(
    kind: SetupKind,
    name: Seq<char>,
    events: Seq<SetupEvent>,
    path: Seq<char>,
    text: String,
) -> bool {
    exists|i: int|
        0 <= i < events.len() && #[trigger] answered(
            SetupModel::begun(kind, name),
            events.take(i),
        ).action() == SetupActionModel::ReadText(path) && events[i] == SetupEvent::Text(Ok(text))
}

/// A setup succeeds only by good answers: every one of its steps was granted,
/// as far back as one looks. In particular the service manager's scope was
/// seen to have its holder among the members, and a control group of either
/// making was seen to be a domain.
pub proof fn success_was_earned(
    kind: SetupKind,
    name: Seq<char>,
    events: Seq<SetupEvent>,
    count: nat,
)
    requires
        answered(SetupModel::begun(kind, name), events).stage is Succeeded,
    ensures
        were_granted(kind, name, events, SetupStage::Succeeded, count),
        ({
            let m = answered(SetupModel::begun(kind, name), events);
            &&& kind is Systemd ==> m.holder is Some && exists|members: String|
                lines(members@).contains(decimal(m.holder->0 as nat)) && #[trigger] was_read(
                    kind,
                    name,
                    events,
                    below(m.path, "cgroup.procs"@),
                    members,
                )
            &&& !(kind is Session) ==> exists|cgroup_type: String|
                trimmed(cgroup_type@) == "domain"@ && #[trigger] was_read(
                    kind,
                    name,
                    events,
                    below(m.path, "cgroup.type"@),
                    cgroup_type,
                )
        }),
{
    let begun = SetupModel::begun(kind, name);
    let m = answered(begun, events);
    last_step_was_granted(kind, name, events);
    earlier_steps_were_granted(kind, name, events, SetupStage::Watchdog, 10);
    if count > 0 {
        earlier_steps_were_granted(
            kind,
            name,
            events,
            SetupStage::Watchdog,
            (count - 1) as nat,
        );
    }
    reveal_with_fuel(were_granted, 12);
    if !(kind is Session) {
        let i = choose|i: int|
            0 <= i < events.len() && {
                let before = #[trigger] answered(begun, events.take(i));
                &&& before.stage == SetupStage::Type
                &&& before.is_granted(events[i])
                &&& before.is_kept_in(m)
            };
        let before = answered(begun, events.take(i));
        let text = events[i]->Text_0->Ok_0;
        assert(before.action() == SetupActionModel::ReadText(below(m.path, "cgroup.type"@)));
        assert(was_read(kind, name, events, below(m.path, "cgroup.type"@), text));
    }
    if kind is Systemd {
        let i = choose|i: int|
            0 <= i < events.len() && {
                let before = #[trigger] answered(begun, events.take(i));
                &&& before.stage == SetupStage::Members
                &&& before.is_granted(events[i])
                &&& before.is_kept_in(m)
            };
        let before = answered(begun, events.take(i));
        let text = events[i]->Text_0->Ok_0;
        assert(before.action() == SetupActionModel::ReadText(below(m.path, "cgroup.procs"@)));
        assert(was_read(kind, name, events, below(m.path, "cgroup.procs"@), text));
    }
}

/// Whether a setup went from one state to another by failing with this error:
/// all it knows stays as it was, and what it made is taken down first, a
/// control group that it made, or the scope of a holder that it started.
pub open spec fn failed_with(before: SetupModel, after: SetupModel, error: Seq<Seq<char>>) -> bool {
    &&& after.error == error
    &&& after.stage == if before.created {
        SetupStage::RemoveDir
    } else if before.holder is Some {
        SetupStage::CheckScope
    } else {
        SetupStage::Failed
    }
    &&& after.kind == before.kind
    &&& after.name == before.name
    &&& after.parent == before.parent
    &&& after.unit == before.unit
    &&& after.path == before.path
    &&& after.tools == before.tools
    &&& after.created == before.created
    &&& after.holder == before.holder
    &&& after.deadline == before.deadline
}

/// Whether two states of a setup differ in nothing but the step.
pub open spec fn same_but_for_the_step(a: SetupModel, b: SetupModel) -> bool {
    SetupModel { stage: a.stage, ..b } == a
}

/// The holder counts as a member of its scope wherever among the members it
/// stands, whoever else is there: as soon as one line of the members is its
/// identifier, the setup goes on to the type of the scope.
pub proof fn holder_counts_wherever_it_stands(m: SetupModel, members: String, i: int)
    requires
        m.kind is Systemd,
        m.stage is Members,
        m.holder is Some,
        0 <= i < lines(members@).len(),
        lines(members@)[i] == decimal(m.holder->0 as nat),
    ensures
        m.stepped(SetupEvent::Text(Ok(members))).stage is Type,
        same_but_for_the_step(m, m.stepped(SetupEvent::Text(Ok(members)))),
        m.stepped(SetupEvent::Text(Ok(members))).action() == SetupActionModel::ReadText(
            below(m.path, "cgroup.type"@),
        ),
{
    assert(lines(members@).contains(decimal(m.holder->0 as nat)));
}

/// Where no line of the members is the identifier of the holder, or the members
/// cannot be read, the clock is read. Before the deadline the members are read
/// again after ten milliseconds; from the deadline on the setup fails.
pub proof fn absent_holder_is_waited_for(
    m: SetupModel,
    members: Result<String, String>,
    now: u64,
    waited: Result<(), String>,
)
    requires
        m.kind is Systemd,
        m.stage is Members,
        m.holder is Some,
        m.created == false,
        members matches Ok(text) ==> forall|i: int|
            0 <= i < lines(text@).len() ==> #[trigger] lines(text@)[i] != decimal(
                m.holder->0 as nat,
            ),
    ensures
        ({
            let looked = m.stepped(SetupEvent::Text(members));
            let timed = looked.stepped(SetupEvent::Clock(now));
            &&& looked.action() is ReadClock
            &&& same_but_for_the_step(m, looked)
            &&& now < m.deadline ==> {
                &&& timed.action() == SetupActionModel::Sleep(10_000_000)
                &&& timed.stepped(SetupEvent::Done(waited)) == m
            }
            &&& now >= m.deadline ==> failed_with(
                m,
                timed,
                seq!["timed out waiting for transient scope holder migration"@],
            )
        }),
{
    let looked = m.stepped(SetupEvent::Text(members));
    assert(looked == m.at(SetupStage::Time));
    let timed = looked.stepped(SetupEvent::Clock(now));
    if now < m.deadline {
        assert(timed == m.at(SetupStage::Pause));
        assert(timed.stepped(SetupEvent::Done(waited)) == m);
    }
}

/// The holder is waited for during two seconds from when it was started.
pub proof fn holder_has_two_seconds(m: SetupModel, holder: u32, now: u64)
    requires
        m.kind is Systemd,
        m.stage is Holder,
        now <= u64::MAX - 2_000_000_000,
    ensures
        ({
            let started = m.stepped(SetupEvent::Started(Ok(holder)));
            let waiting = started.stepped(SetupEvent::Clock(now));
            &&& started.action() is ReadClock
            &&& started.holder == Some(holder)
            &&& waiting.stage is Members
            &&& waiting.deadline == now + 2_000_000_000
            &&& waiting.holder == Some(holder)
            &&& waiting.path == m.path
            &&& waiting.tools == m.tools
        }),
{
    let started = SetupModel { holder: Some(holder), stage: SetupStage::Start, ..m };
    assert(m.stepped(SetupEvent::Started(Ok(holder))) == started);
}

/// Each step asks for what it is about: files are those of the control group
/// itself, or of the owner's own one, and executables go by their names.
pub proof fn step_asks_for_what_it_is_about(m: SetupModel)
    ensures
        m.stage is OwnCgroup ==> m.action() == SetupActionModel::ReadText("/proc/self/cgroup"@),
        m.stage is KillSupport ==> m.action() == SetupActionModel::CheckFile(
            below(m.parent, "cgroup.kill"@),
        ),
        m.stage is Create ==> m.action() == SetupActionModel::CreateDir(m.path),
        m.stage is Members ==> m.action() == SetupActionModel::ReadText(
            below(m.path, "cgroup.procs"@),
        ),
        m.stage is Type ==> m.action() == SetupActionModel::ReadText(below(m.path, "cgroup.type"@)),
        m.stage is OpenProcs ==> m.action() == SetupActionModel::OpenProcs(
            below(m.path, "cgroup.procs"@),
        ),
        m.stage is DuplicateProcs ==> m.action() is DuplicateProcs,
        m.stage is Lifeline ==> m.action() is CreateLifeline,
        m.stage is DuplicateLifeline ==> m.action() is DuplicateLifeline,
        m.stage is Start || m.stage is Time ==> m.action() is ReadClock,
        m.stage is Pause ==> m.action() == SetupActionModel::Sleep(10_000_000),
        m.stage is RemoveDir ==> m.action() == SetupActionModel::RemoveDir(m.path),
        m.stage is CheckScope ==> m.action() == SetupActionModel::CheckExists(m.path),
        m.stage is KillScope ==> m.action() == (SetupActionModel::WriteText {
            path: below(m.path, "cgroup.kill"@),
            text: "1"@,
        }),
        m.stage is KillHolderGroup && m.holder is Some ==> m.action()
            == SetupActionModel::KillGroup(m.holder->0),
        m.stage is KillHolder ==> m.action() is KillHolder,
        m.stage is Succeeded ==> m.action() is Succeed,
        m.stage is Failed ==> m.action() == SetupActionModel::Fail(m.error),
        m.stage == SetupStage::Locate(Tool::Shell) ==> m.action() == SetupActionModel::Locate(
            "sh"@,
        ),
        m.stage == SetupStage::Locate(Tool::Rmdir) ==> m.action() == SetupActionModel::Locate(
            "rmdir"@,
        ),
        m.stage == SetupStage::Locate(Tool::Find) ==> m.action() == SetupActionModel::Locate(
            "find"@,
        ),
        m.stage == SetupStage::Locate(Tool::Sleep) ==> m.action() == SetupActionModel::Locate(
            "sleep"@,
        ),
        m.stage == SetupStage::Locate(Tool::SystemdRun) ==> m.action() == SetupActionModel::Locate(
            "systemd-run"@,
        ),
        m.stage == SetupStage::Locate(Tool::Ps) ==> m.action() == SetupActionModel::Locate("ps"@),
        m.stage == SetupStage::Locate(Tool::Awk) ==> m.action() == SetupActionModel::Locate("awk"@),
{
}

/// A setup begins by reading the control group of its owner, or, for a session,
/// by looking for a shell, and has made nothing yet.
pub proof fn setup_begins_with_nothing_made(kind: SetupKind, name: Seq<char>)
    ensures
        ({
            let begun = SetupModel::begun(kind, name);
            &&& begun.kind == kind
            &&& begun.name == name
            &&& begun.stage == if kind is Session {
                SetupStage::Locate(Tool::Shell)
            } else {
                SetupStage::OwnCgroup
            }
            &&& !begun.created
            &&& begun.holder is None
            &&& begun.tools == Map::<Tool, Seq<char>>::empty()
        }),
{
}

/// The owner's control group decides where the new one goes: directly below it,
/// or as a scope in the slice that the service manager keeps for applications.
pub proof fn owner_decides_where_the_group_goes(m: SetupModel, cgroups: String)
    requires
        m.consistent(),
        m.stage is OwnCgroup,
    ensures
        ({
            let after = m.stepped(SetupEvent::Text(Ok(cgroups)));
            match cgroup_dir(cgroups@) {
                Err(error) => failed_with(m, after, error),
                Ok(parent) => if m.kind is Direct {
                    after == (SetupModel {
                        parent,
                        path: below(parent, m.name),
                        stage: SetupStage::KillSupport,
                        ..m
                    })
                } else {
                    match scope_site(parent) {
                        Err(error) => failed_with(m, after, error),
                        Ok((slice, unit)) => after == (SetupModel {
                            parent,
                            unit,
                            path: below(slice, m.name + ".scope"@),
                            stage: SetupStage::Locate(Tool::SystemdRun),
                            ..m
                        }),
                    }
                },
            }
        }),
{
}

/// A step that the system refuses is the end of the setup, which says what was
/// refused and why.
pub proof fn refused_step_says_why(m: SetupModel, cause: String)
    requires
        m.consistent(),
    ensures
        ({
            let refused = SetupEvent::Done(Err(cause));
            let unread = SetupEvent::Text(Err(cause));
            let (direct, systemd) = (m.kind is Direct, m.kind is Systemd);
            &&& m.stage is OwnCgroup ==> failed_with(
                m,
                m.stepped(unread),
                seq!["failed to read self cgroup"@, cause@],
            )
            &&& m.stage is Create ==> failed_with(
                m,
                m.stepped(refused),
                seq!["failed to create cgroup "@ + m.path, cause@],
            )
            &&& m.stage is Holder ==> failed_with(
                m,
                m.stepped(SetupEvent::Started(Err(cause))),
                seq!["failed to spawn systemd scope holder"@, cause@],
            )
            &&& m.stage is Type && direct ==> failed_with(
                m,
                m.stepped(unread),
                seq!["failed to read cgroup.type"@, cause@],
            )
            &&& m.stage is Type && systemd ==> failed_with(
                m,
                m.stepped(unread),
                seq!["failed to read transient scope cgroup.type"@, cause@],
            )
            &&& m.stage is OpenProcs && direct ==> failed_with(
                m,
                m.stepped(refused),
                seq!["failed to open cgroup.procs"@, cause@],
            )
            &&& m.stage is OpenProcs && systemd ==> failed_with(
                m,
                m.stepped(refused),
                seq!["failed to open transient scope cgroup.procs"@, cause@],
            )
            &&& m.stage is DuplicateProcs && direct ==> failed_with(
                m,
                m.stepped(refused),
                seq!["failed to duplicate cgroup.procs"@, cause@],
            )
            &&& m.stage is DuplicateProcs && systemd ==> failed_with(
                m,
                m.stepped(refused),
                seq!["failed to duplicate transient scope cgroup.procs"@, cause@],
            )
        }),
{
}

/// The same of the lifeline and of the watchdog, which every setup has.
pub proof fn refused_watchdog_says_why(m: SetupModel, cause: String)
    requires
        m.consistent(),
    ensures
        ({
            let refused = SetupEvent::Done(Err(cause));
            &&& m.stage is Lifeline ==> failed_with(
                m,
                m.stepped(refused),
                seq![
                    if m.kind is Direct {
                        "failed to create cgroup lifeline"@
                    } else if m.kind is Systemd {
                        "failed to create transient scope lifeline"@
                    } else {
                        "failed to create process lifeline"@
                    },
                    cause@,
                ],
            )
            &&& m.stage is DuplicateLifeline ==> failed_with(
                m,
                m.stepped(refused),
                seq!["failed to duplicate process lifeline"@, cause@],
            )
            &&& m.stage is Watchdog ==> failed_with(
                m,
                m.stepped(refused),
                seq![
                    if m.kind is Direct {
                        "failed to spawn cgroup watchdog"@
                    } else if m.kind is Systemd {
                        "failed to spawn transient scope watchdog"@
                    } else {
                        "failed to spawn process watchdog"@
                    },
                    cause@,
                ],
            )
        }),
{
}

/// An answer that tells that the group is of no use is the end of the setup as
/// well: a group that cannot be killed as a whole, one that is no domain, and
/// an executable that may not be run.
pub proof fn useless_group_is_given_up(
    m: SetupModel,
    cgroup_type: String,
    error: ProcessError,
)
    requires
        m.consistent(),
    ensures
        m.stage is KillSupport ==> failed_with(
            m,
            m.stepped(SetupEvent::Answer(false)),
            seq!["current cgroup does not support cgroup.kill"@],
        ),
        m.stage is Type && trimmed(cgroup_type@) != "domain"@ ==> failed_with(
            m,
            m.stepped(SetupEvent::Text(Ok(cgroup_type))),
            seq![
                if m.kind is Direct {
                    "unsupported cgroup type: "@ + trimmed(cgroup_type@)
                } else {
                    "unsupported transient scope cgroup type: "@ + trimmed(cgroup_type@)
                },
            ],
        ),
        m.stage is Locate ==> failed_with(m, m.stepped(SetupEvent::Located(Err(error))), error@),
{
}

/// What was done is kept, and the setup goes on.
pub proof fn done_step_is_kept(m: SetupModel, cgroup_type: String, path: String)
    requires
        m.consistent(),
    ensures
        m.stage is KillSupport ==> m.stepped(SetupEvent::Answer(true)) == (SetupModel {
            stage: SetupStage::Create,
            ..m
        }),
        m.stage is Create ==> m.stepped(SetupEvent::Done(Ok(()))) == (SetupModel {
            stage: SetupStage::Type,
            created: true,
            ..m
        }),
        m.stage is Type && trimmed(cgroup_type@) == "domain"@ ==> m.stepped(
            SetupEvent::Text(Ok(cgroup_type)),
        ) == (SetupModel { stage: SetupStage::OpenProcs, ..m }),
        m.stage is OpenProcs ==> m.stepped(SetupEvent::Done(Ok(()))) == (SetupModel {
            stage: SetupStage::DuplicateProcs,
            ..m
        }),
        m.stage is DuplicateProcs ==> m.stepped(SetupEvent::Done(Ok(()))) == (SetupModel {
            stage: SetupStage::Lifeline,
            ..m
        }),
        m.stage is Lifeline && m.kind is Session ==> m.stepped(SetupEvent::Done(Ok(()))) == (
        SetupModel { stage: SetupStage::DuplicateLifeline, ..m }),
        m.stage is DuplicateLifeline ==> m.stepped(SetupEvent::Done(Ok(()))) == (SetupModel {
            stage: SetupStage::Locate(Tool::Ps),
            ..m
        }),
        m.stage is Watchdog ==> m.stepped(SetupEvent::Done(Ok(()))) == (SetupModel {
            stage: SetupStage::Succeeded,
            ..m
        }),
        m.stage matches SetupStage::Locate(tool) ==> {
            let after = m.stepped(SetupEvent::Located(Ok(path)));
            &&& after.tools == m.tools.insert(tool, path@)
            &&& !after.has_failed()
            &&& after.path == m.path
            &&& after.holder == m.holder
            &&& after.created == m.created
        },
{
}

/// An answer to something else than what was asked for changes nothing.
pub proof fn unasked_answer_changes_nothing(m: SetupModel, event: SetupEvent)
    ensures
        m.action() is ReadText && !(event is Text) ==> m.stepped(event) == m,
        (m.action() is CheckFile || m.action() is CheckExists) && !(event is Answer) ==> m.stepped(
            event,
        ) == m,
        m.action() is Locate && !(event is Located) ==> m.stepped(event) == m,
        m.action() is SpawnHolder && !(event is Started) ==> m.stepped(event) == m,
        m.action() is ReadClock && !(event is Clock) ==> m.stepped(event) == m,
        (m.action() is CreateDir || m.action() is RemoveDir || m.action() is Sleep
            || m.action() is OpenProcs || m.action() is DuplicateProcs
            || m.action() is CreateLifeline || m.action() is DuplicateLifeline
            || m.action() is SpawnWatchdog || m.action() is WriteText || m.action() is KillGroup
            || m.action() is KillHolder) && !(event is Done) ==> m.stepped(event) == m,
        m.action() is Succeed || m.action() is Fail ==> m.stepped(event) == m,
{
}

/// Taking down a control group that was made ends with its removal, whatever
/// came of that, and the setup fails with the error that it had.
pub proof fn removed_group_ends_the_setup(m: SetupModel, outcome: Result<(), String>)
    requires
        m.stage is RemoveDir,
    ensures
        m.action() == SetupActionModel::RemoveDir(m.path),
        m.stepped(SetupEvent::Done(outcome)).action() == SetupActionModel::Fail(m.error),
{
}

/// A session is set up wherever the system refuses nothing: it needs a shell,
/// a lifeline whose end is duplicated, and the executables of its watchdog.
pub proof fn session_setup_succeeds(
    name: Seq<char>,
    shell: String,
    ps: String,
    awk: String,
    sleep: String,
)
    ensures
        ({
            let begun = SetupModel::begun(SetupKind::Session, name);
            let tied = seq![found(shell), did(), did()];
            let equipped = seq![found(ps), found(awk), found(sleep)];
            let answers = tied + equipped;
            &&& answered(begun, answers).action() == SetupActionModel::SpawnWatchdog(
                session_watchdog(shell@, ps@, awk@, sleep@),
            )
            &&& answered(begun, answers.push(did())).action() == SetupActionModel::Succeed
        }),
{
    let begun = SetupModel::begun(SetupKind::Session, name);
    let tied = seq![found(shell), did(), did()];
    let equipped = seq![found(ps), found(awk), found(sleep)];
    let first = SetupModel {
        tools: begun.tools.insert(Tool::Shell, shell@),
        stage: SetupStage::Lifeline,
        ..begun
    };
    let second = first.at(SetupStage::DuplicateLifeline);
    let third = first.at(SetupStage::Locate(Tool::Ps));
    nothing_happens_unanswered(begun);
    found_tool_is_kept(begun, Tool::Shell, shell);
    one_more_answer(begun, seq![], seq![found(shell)], begun, first);
    done_step_is_followed(first);
    one_more_answer(begun, seq![found(shell)], seq![found(shell), did()], first, second);
    one_more_answer(begun, seq![found(shell), did()], tied, second, third);
    session_tools_are_found(third, ps, awk, sleep);
    answers_are_taken_in_turn(begun, tied, equipped);
    let last = answered(begun, tied + equipped);
    done_step_is_followed(last);
    one_more_answer(
        begun,
        tied + equipped,
        (tied + equipped).push(did()),
        last,
        last.at(SetupStage::Succeeded),
    );
}

/// The three executables that the watchdog of a session needs are found one
/// after the other.
proof fn session_tools_are_found(m: SetupModel, ps: String, awk: String, sleep: String)
    requires
        m.kind is Session,
        m.stage == SetupStage::Locate(Tool::Ps),
    ensures
        answered(m, seq![found(ps), found(awk), found(sleep)]) == (SetupModel {
            tools: m.tools.insert(Tool::Ps, ps@).insert(Tool::Awk, awk@).insert(
                Tool::Sleep,
                sleep@,
            ),
            stage: SetupStage::Watchdog,
            ..m
        }),
{
    let second = SetupModel {
        tools: m.tools.insert(Tool::Ps, ps@),
        stage: SetupStage::Locate(Tool::Awk),
        ..m
    };
    let third = SetupModel {
        tools: second.tools.insert(Tool::Awk, awk@),
        stage: SetupStage::Locate(Tool::Sleep),
        ..m
    };
    let last = SetupModel {
        tools: third.tools.insert(Tool::Sleep, sleep@),
        stage: SetupStage::Watchdog,
        ..m
    };
    nothing_happens_unanswered(m);
    found_tool_is_kept(m, Tool::Ps, ps);
    one_more_answer(m, seq![], seq![found(ps)], m, second);
    found_tool_is_kept(second, Tool::Awk, awk);
    one_more_answer(m, seq![found(ps)], seq![found(ps), found(awk)], second, third);
    found_tool_is_kept(third, Tool::Sleep, sleep);
    one_more_answer(
        m,
        seq![found(ps), found(awk)],
        seq![found(ps), found(awk), found(sleep)],
        third,
        last,
    );
}

/// What is asked of the system is what the model says.
pub proof fn asked_of_the_system_is_what_the_model_says(
    path: String,
    text: String,
    plan: CommandPlan,
    error: ProcessError,
    number: u32,
    duration: u64,
)
    ensures
        SetupAction::ReadText(path)@ == SetupActionModel::ReadText(path@),
        SetupAction::CheckFile(path)@ == SetupActionModel::CheckFile(path@),
        SetupAction::CheckExists(path)@ == SetupActionModel::CheckExists(path@),
        SetupAction::CreateDir(path)@ == SetupActionModel::CreateDir(path@),
        SetupAction::RemoveDir(path)@ == SetupActionModel::RemoveDir(path@),
        SetupAction::Locate(path)@ == SetupActionModel::Locate(path@),
        SetupAction::SpawnHolder(plan)@ == SetupActionModel::SpawnHolder(plan@),
        SetupAction::SpawnWatchdog(plan)@ == SetupActionModel::SpawnWatchdog(plan@),
        SetupAction::Sleep(duration)@ == SetupActionModel::Sleep(duration),
        SetupAction::OpenProcs(path)@ == SetupActionModel::OpenProcs(path@),
        (SetupAction::WriteText { path, text })@ == (SetupActionModel::WriteText {
            path: path@,
            text: text@,
        }),
        SetupAction::KillGroup(number)@ == SetupActionModel::KillGroup(number),
        SetupAction::Fail(error)@ == SetupActionModel::Fail(error@),
        SetupAction::ReadClock@ is ReadClock,
        SetupAction::DuplicateProcs@ is DuplicateProcs,
        SetupAction::CreateLifeline@ is CreateLifeline,
        SetupAction::DuplicateLifeline@ is DuplicateLifeline,
        SetupAction::KillHolder@ is KillHolder,
        SetupAction::Succeed@ is Succeed,
        plan@.program == plan.program@,
        plan@.args.len() == plan.args@.len(),
        forall|i: int| 0 <= i < plan.args@.len() ==> #[trigger] plan@.args[i] == plan.args@[i]@,
        error@.len() == error.chain@.len(),
        forall|i: int| 0 <= i < error.chain@.len() ==> #[trigger] error@[i] == error.chain@[i]@,
{
}

} // verus!
