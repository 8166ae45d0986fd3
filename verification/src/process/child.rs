//! A child process in a group with all its descendants.

use crate::process::cgroup::{
    Cgroup, CgroupKill, CgroupKillModel, CgroupModel, CgroupSpawn, CgroupSpawnModel,
};
use crate::process::error::{failed, ProcessError};
use crate::process::setup::{
    Setup, SetupAction, SetupActionModel, SetupEvent, SetupKind, SetupModel, SCOPE_TIMEOUT,
};
use vstd::prelude::*;

verus! {

/// A session that a watchdog keeps watch over.
pub struct ProcessGroup {
    lifeline: bool,
}

impl View for ProcessGroup {
    type V = bool;

    /// Whether the owner still holds its end of the lifeline.
    closed spec fn view(&self) -> bool {
        self.lifeline
    }
}

impl ProcessGroup {
    /// A session whose watchdog was started.
    pub fn new() -> (r: Self)
        ensures
            r@,
    {
        ProcessGroup { lifeline: true }
    }

    /// Whether a process can be started in the session: not any more once the
    /// lifeline is closed.
    pub fn configure_command(&self) -> (r: Result<(), ProcessError>)
        ensures
            r is Ok == self@,
            r matches Err(error) ==> error@ == seq![
                "process lifeline closed before target spawn"@,
            ],
    {
        if self.lifeline {
            Ok(())
        } else {
            Err(ProcessError::new("process lifeline closed before target spawn".to_owned()))
        }
    }

    /// Lets the watchdog kill the session, by closing the lifeline.
    pub fn kill(&mut self)
        ensures
            !final(self)@,
    {
        self.lifeline = false;
    }
}

/// The group that a child process is in.
pub enum ProcessTree {
    /// A control group.
    Cgroup(Cgroup),
    /// A session.
    Session(ProcessGroup),
    /// A job of Windows; none where the child could not be put into one.
    Job(bool),
}

/// The model of a group.
pub enum TreeModel {
    Cgroup(CgroupModel),
    Session(bool),
    Job(bool),
}

impl View for ProcessTree {
    type V = TreeModel;

    open spec fn view(&self) -> TreeModel {
        match self {
            ProcessTree::Cgroup(cgroup) => TreeModel::Cgroup(cgroup@),
            ProcessTree::Session(group) => TreeModel::Session(group@),
            ProcessTree::Job(assigned) => TreeModel::Job(*assigned),
        }
    }
}

/// What a child does before it becomes the program it is to run.
#[derive(Clone, Copy, Debug, PartialEq, Eq, Structural)]
pub enum JoinPlan {
    /// It begins a session, and writes to the control group that it joins.
    JoinCgroup,
    /// It begins a session, and writes its identifier to the lifeline.
    ReportLeader,
    /// Nothing.
    Nothing,
}

/// How a group is killed.
pub enum TreeKill {
    /// Its control group is killed.
    Cgroup(CgroupKill),
    /// The lifeline is closed.
    CloseLifeline,
    /// The job is terminated.
    TerminateJob,
    /// The child alone is killed.
    KillProcess,
}

/// The model of how a group is killed.
pub enum TreeKillModel {
    Cgroup(CgroupKillModel),
    CloseLifeline,
    TerminateJob,
    KillProcess,
}

impl View for TreeKill {
    type V = TreeKillModel;

    open spec fn view(&self) -> TreeKillModel {
        match self {
            TreeKill::Cgroup(kill) => TreeKillModel::Cgroup(kill@),
            TreeKill::CloseLifeline => TreeKillModel::CloseLifeline,
            TreeKill::TerminateJob => TreeKillModel::TerminateJob,
            TreeKill::KillProcess => TreeKillModel::KillProcess,
        }
    }
}

impl TreeModel {
    /// How the group is killed.
    pub open spec fn kill_begun(self) -> TreeKillModel {
        match self {
            TreeModel::Cgroup(cgroup) => TreeKillModel::Cgroup(cgroup.kill_begun(true)),
            TreeModel::Session(_) => TreeKillModel::CloseLifeline,
            TreeModel::Job(assigned) => if assigned {
                TreeKillModel::TerminateJob
            } else {
                TreeKillModel::KillProcess
            },
        }
    }

    /// The group once it is being killed.
    pub open spec fn killed(self) -> TreeModel {
        match self {
            TreeModel::Cgroup(cgroup) => TreeModel::Cgroup(cgroup.killed()),
            TreeModel::Session(_) => TreeModel::Session(false),
            TreeModel::Job(assigned) => TreeModel::Job(assigned),
        }
    }
}

impl ProcessTree {
    /// What a child does to join the group.
    pub fn configure_command(&self) -> (r: Result<JoinPlan, ProcessError>)
        ensures
            match self@ {
                TreeModel::Cgroup(_) => r == Ok::<JoinPlan, ProcessError>(JoinPlan::JoinCgroup),
                TreeModel::Session(lifeline) => if lifeline {
                    r == Ok::<JoinPlan, ProcessError>(JoinPlan::ReportLeader)
                } else {
                    r is Err && r->Err_0@ == seq!["process lifeline closed before target spawn"@]
                },
                TreeModel::Job(_) => r == Ok::<JoinPlan, ProcessError>(JoinPlan::Nothing),
            },
    {
        match self {
            ProcessTree::Cgroup(_) => Ok(JoinPlan::JoinCgroup),
            ProcessTree::Session(group) => match group.configure_command() {
                Ok(_) => Ok(JoinPlan::ReportLeader),
                Err(error) => Err(error),
            },
            ProcessTree::Job(_) => Ok(JoinPlan::Nothing),
        }
    }

    /// Begins to kill the group.
    pub fn kill(&mut self) -> (r: TreeKill)
        ensures
            final(self)@ == old(self)@.killed(),
            r@ == old(self)@.kill_begun(),
    {
        match self {
            ProcessTree::Cgroup(cgroup) => TreeKill::Cgroup(cgroup.kill()),
            ProcessTree::Session(group) => {
                group.kill();
                TreeKill::CloseLifeline
            },
            ProcessTree::Job(assigned) => if *assigned {
                TreeKill::TerminateJob
            } else {
                TreeKill::KillProcess
            },
        }
    }

    /// The directory of the control group, where the group is one.
    pub fn cgroup_path(&self) -> (r: Option<&str>)
        ensures
            match self@ {
                TreeModel::Cgroup(cgroup) => r is Some && r->0@ == cgroup.path,
                _ => r is None,
            },
    {
        match self {
            ProcessTree::Cgroup(cgroup) => Some(cgroup.path()),
            _ => None,
        }
    }
}

/// A child process.
pub struct Child {
    id: u32,
    process_tree: ProcessTree,
}

/// The model of a child process.
pub struct ChildModel {
    /// Its identifier.
    pub id: u32,
    /// The group that it is in.
    pub tree: TreeModel,
}

impl View for Child {
    type V = ChildModel;

    closed spec fn view(&self) -> ChildModel {
        ChildModel { id: self.id, tree: self.process_tree@ }
    }
}

/// How the group of a child is come by on a Unix system.
pub enum TreeSpawn {
    /// With control groups.
    Cgroup(CgroupSpawn),
    /// With sessions.
    Session(Setup),
}

/// The model of how the group of a child is come by.
pub enum TreeSpawnModel {
    Cgroup(CgroupSpawnModel),
    Session(SetupModel),
}

impl View for TreeSpawn {
    type V = TreeSpawnModel;

    open spec fn view(&self) -> TreeSpawnModel {
        match self {
            TreeSpawn::Cgroup(spawn) => TreeSpawnModel::Cgroup(spawn@),
            TreeSpawn::Session(setup) => TreeSpawnModel::Session(setup@),
        }
    }
}

impl TreeSpawnModel {
    /// What is asked for.
    pub open spec fn action(self) -> SetupActionModel {
        match self {
            TreeSpawnModel::Cgroup(spawn) => spawn.action(),
            TreeSpawnModel::Session(setup) => setup.action(),
        }
    }

    /// How it goes on.
    pub open spec fn stepped(self, event: SetupEvent) -> TreeSpawnModel {
        match self {
            TreeSpawnModel::Cgroup(spawn) => TreeSpawnModel::Cgroup(spawn.stepped(event)),
            TreeSpawnModel::Session(setup) => TreeSpawnModel::Session(setup.stepped(event)),
        }
    }

    /// The group that was come by.
    pub open spec fn tree(self) -> TreeModel {
        match self {
            TreeSpawnModel::Cgroup(spawn) => TreeModel::Cgroup(
                CgroupModel { path: spawn.setup.path, lifeline: true },
            ),
            TreeSpawnModel::Session(_) => TreeModel::Session(true),
        }
    }
}

impl TreeSpawn {
    /// It is consistent.
    pub open spec fn wf(&self) -> bool {
        match self {
            TreeSpawn::Cgroup(spawn) => spawn.wf(),
            TreeSpawn::Session(setup) => setup.wf(),
        }
    }

    /// What to ask of the system next.
    pub fn action(&self) -> (r: SetupAction)
        requires
            self.wf(),
        ensures
            r@ == self@.action(),
    {
        match self {
            TreeSpawn::Cgroup(spawn) => spawn.action(),
            TreeSpawn::Session(setup) => setup.action(),
        }
    }

    /// Goes on with what the system answered.
    pub fn step(&mut self, event: SetupEvent)
        requires
            old(self).wf(),
            event matches SetupEvent::Clock(now) ==> now <= u64::MAX - SCOPE_TIMEOUT,
        ensures
            final(self).wf(),
            final(self)@ == old(self)@.stepped(event),
    {
        match self {
            TreeSpawn::Cgroup(spawn) => spawn.step(event),
            TreeSpawn::Session(setup) => setup.step(event),
        }
    }

    /// The group, once it is set up.
    pub fn finish(&self) -> (r: Option<ProcessTree>)
        requires
            self.wf(),
        ensures
            r is Some == (self@.action() is Succeed),
            r matches Some(tree) ==> tree@ == self@.tree(),
    {
        match self {
            TreeSpawn::Cgroup(spawn) => match spawn.finish() {
                Some(cgroup) => Some(ProcessTree::Cgroup(cgroup)),
                None => None,
            },
            TreeSpawn::Session(setup) => match setup.action() {
                SetupAction::Succeed => Some(ProcessTree::Session(ProcessGroup::new())),
                _ => None,
            },
        }
    }
}

impl Child {
    /// Begins to come by the group of a child on a system with control groups.
    /// The process that starts the child, when it was started itself, and the
    /// how manieth child it is, make up the name of the group.
    pub fn spawn_in_cgroup(pid: u32, instance: u128, id: u64) -> (r: TreeSpawn)
        ensures
            r.wf(),
            r@ == TreeSpawnModel::Cgroup(CgroupSpawnModel::begun(pid, instance, id)),
    {
        TreeSpawn::Cgroup(CgroupSpawn::new(pid, instance, id))
    }

    /// Begins to come by the group of a child on a system with sessions only.
    pub fn spawn_in_session() -> (r: TreeSpawn)
        ensures
            r.wf(),
            r@ == TreeSpawnModel::Session(SetupModel::begun(SetupKind::Session, Seq::empty())),
    {
        TreeSpawn::Session(Setup::spawn_session())
    }

    /// The child, from the group that it was started in and what came of
    /// starting it. `command` is the command as it may be shown.
    pub fn spawn(process_tree: ProcessTree, started: Result<u32, String>, command: &str) -> (r:
        Result<Child, ProcessError>)
        ensures
            match started {
                Ok(id) => r is Ok && r->Ok_0@ == (ChildModel { id, tree: process_tree@ }),
                Err(cause) => r is Err && r->Err_0@ == seq![
                    "failed to spawn command "@ + command@,
                    cause@,
                ],
            },
    {
        match started {
            Ok(id) => Ok(Child { id, process_tree }),
            Err(cause) => Err(Child::spawn_failure(command, cause)),
        }
    }

    /// The error of a child that could not be started, for this cause.
    /// `command` is the command as it may be shown.
    pub fn spawn_failure(command: &str, cause: String) -> (r: ProcessError)
        ensures
            r@ == seq!["failed to spawn command "@ + command@, cause@],
    {
        let mut message = "failed to spawn command ".to_owned();
        message.append(command);
        failed(message.as_str(), cause)
    }

    /// The identifier of the child.
    pub fn id(&self) -> (r: u32)
        ensures
            r == self@.id,
    {
        self.id
    }

    /// Begins to kill the child with all its descendants.
    pub fn kill(&mut self) -> (r: TreeKill)
        ensures
            final(self)@ == (ChildModel { id: old(self)@.id, tree: old(self)@.tree.killed() }),
            r@ == old(self)@.tree.kill_begun(),
    {
        self.process_tree.kill()
    }

    /// Begins to kill the control group of the child as its owner lets go of
    /// it, unless that was done before. A session ends with its lifeline, and a
    /// job with its handle.
    pub fn release(&self) -> (r: Option<CgroupKill>)
        ensures
            match self@.tree {
                TreeModel::Cgroup(cgroup) => {
                    &&& r is Some == cgroup.released() is Some
                    &&& r matches Some(kill) ==> kill@ == cgroup.released()->0
                },
                _ => r is None,
            },
    {
        match &self.process_tree {
            ProcessTree::Cgroup(cgroup) => cgroup.release(),
            _ => None,
        }
    }
}

/// Killing a child once more begins the same killing, and leaves the child as
/// it was.
pub proof fn killing_twice_is_killing_once(tree: TreeModel)
    ensures
        tree.killed().killed() == tree.killed(),
        tree.killed().kill_begun() == tree.kill_begun(),
{
}

/// How far a child has come on its way into a job of Windows.
#[derive(Debug, PartialEq, Eq)]
pub enum JobStage {
    /// The job is made.
    Create,
    /// It is told to kill its processes once its last handle is closed.
    Limit,
    /// The child is opened.
    Open,
    /// The child is put into the job.
    Assign,
    /// The handle of the child is closed again.
    CloseProcess(Result<(), ProcessError>),
    /// After a failure: the handle of the job is closed.
    CloseJob(ProcessError),
    /// The child is in the job.
    Assigned,
    /// The child is in no job.
    Unassigned(ProcessError),
}

/// The model of the stages.
pub enum JobModel {
    Create,
    Limit,
    Open,
    Assign,
    CloseProcess(Result<(), Seq<Seq<char>>>),
    CloseJob(Seq<Seq<char>>),
    Assigned,
    Unassigned(Seq<Seq<char>>),
}

impl View for JobStage {
    type V = JobModel;

    open spec fn view(&self) -> JobModel {
        match self {
            JobStage::Create => JobModel::Create,
            JobStage::Limit => JobModel::Limit,
            JobStage::Open => JobModel::Open,
            JobStage::Assign => JobModel::Assign,
            JobStage::CloseProcess(result) => JobModel::CloseProcess(
                match result {
                    Ok(_) => Ok(()),
                    Err(error) => Err(error@),
                },
            ),
            JobStage::CloseJob(error) => JobModel::CloseJob(error@),
            JobStage::Assigned => JobModel::Assigned,
            JobStage::Unassigned(error) => JobModel::Unassigned(error@),
        }
    }
}

impl JobModel {
    /// How it goes on after what it is about was done, or was refused. The job
    /// is kept only where all of it was done; the handle of the child is closed
    /// in any case, whatever comes of that.
    pub open spec fn stepped(self, outcome: Result<(), String>) -> JobModel {
        match (self, outcome) {
            (JobModel::Create, Ok(_)) => JobModel::Limit,
            (JobModel::Create, Err(cause)) => JobModel::Unassigned(
                seq!["failed to create job object"@, cause@],
            ),
            (JobModel::Limit, Ok(_)) => JobModel::Open,
            (JobModel::Limit, Err(cause)) => JobModel::CloseJob(
                seq!["failed to set job object limits"@, cause@],
            ),
            (JobModel::Open, Ok(_)) => JobModel::Assign,
            (JobModel::Open, Err(cause)) => JobModel::CloseJob(
                seq!["failed to open process"@, cause@],
            ),
            (JobModel::Assign, Ok(_)) => JobModel::CloseProcess(Ok(())),
            (JobModel::Assign, Err(cause)) => JobModel::CloseProcess(
                Err(seq!["failed to assign process to job object"@, cause@]),
            ),
            (JobModel::CloseProcess(Ok(_)), _) => JobModel::Assigned,
            (JobModel::CloseProcess(Err(error)), _) => JobModel::CloseJob(error),
            (JobModel::CloseJob(error), _) => JobModel::Unassigned(error),
            (JobModel::Assigned, _) => self,
            (JobModel::Unassigned(_), _) => self,
        }
    }
}

impl JobStage {
    /// A child that is to be put into a job.
    pub fn new() -> (r: Self)
        ensures
            r@ == JobModel::Create,
    {
        JobStage::Create
    }

    /// Goes on after what it is about was done, or was refused.
    pub fn step(self, outcome: Result<(), String>) -> (r: Self)
        ensures
            r@ == self@.stepped(outcome),
    {
        match (self, outcome) {
            (JobStage::Create, Ok(_)) => JobStage::Limit,
            (JobStage::Create, Err(cause)) => JobStage::Unassigned(
                failed("failed to create job object", cause),
            ),
            (JobStage::Limit, Ok(_)) => JobStage::Open,
            (JobStage::Limit, Err(cause)) => JobStage::CloseJob(
                failed("failed to set job object limits", cause),
            ),
            (JobStage::Open, Ok(_)) => JobStage::Assign,
            (JobStage::Open, Err(cause)) => JobStage::CloseJob(
                failed("failed to open process", cause),
            ),
            (JobStage::Assign, Ok(_)) => JobStage::CloseProcess(Ok(())),
            (JobStage::Assign, Err(cause)) => JobStage::CloseProcess(
                Err(failed("failed to assign process to job object", cause)),
            ),
            (JobStage::CloseProcess(Ok(_)), _) => JobStage::Assigned,
            (JobStage::CloseProcess(Err(error)), _) => JobStage::CloseJob(error),
            (JobStage::CloseJob(error), _) => JobStage::Unassigned(error),
            (JobStage::Assigned, _) => JobStage::Assigned,
            (JobStage::Unassigned(error), _) => JobStage::Unassigned(error),
        }
    }

    /// The group of the child, once it is clear whether it is in the job.
    pub fn finish(&self) -> (r: Option<ProcessTree>)
        ensures
            match self@ {
                JobModel::Assigned => r is Some && r->0@ == TreeModel::Job(true),
                JobModel::Unassigned(_) => r is Some && r->0@ == TreeModel::Job(false),
                _ => r is None,
            },
    {
        match self {
            JobStage::Assigned => Some(ProcessTree::Job(true)),
            JobStage::Unassigned(_) => Some(ProcessTree::Job(false)),
            _ => None,
        }
    }
}

/// Once the child was opened its handle is closed again, and once the job was
/// made its handle is closed unless the child is in it.
pub proof fn job_handles_are_not_leaked(m: JobModel, outcome: Result<(), String>)
    ensures
        m is Assign ==> m.stepped(outcome) is CloseProcess,
        (m is Limit || m is Open) && outcome is Err ==> m.stepped(outcome) is CloseJob,
        m matches JobModel::CloseProcess(Err(_)) ==> m.stepped(outcome) is CloseJob,
        m.stepped(outcome) is Unassigned ==> m is Create || m is CloseJob || m is Unassigned,
{
}

/// Each kind of group is killed in its own way, whole: a control group as such,
/// a session by its lifeline, a job by its handle. Only a child that is in no
/// job is killed alone.
pub proof fn group_is_killed_in_its_own_way(cgroup: CgroupModel, lifeline: bool)
    ensures
        TreeModel::Cgroup(cgroup).kill_begun() == TreeKillModel::Cgroup(cgroup.kill_begun(true)),
        TreeModel::Session(lifeline).kill_begun() is CloseLifeline,
        TreeModel::Job(true).kill_begun() is TerminateJob,
        TreeModel::Job(false).kill_begun() is KillProcess,
        TreeModel::Session(lifeline).killed() == TreeModel::Session(false),
        TreeModel::Job(lifeline).killed() == TreeModel::Job(lifeline),
        TreeModel::Cgroup(cgroup).killed() == TreeModel::Cgroup(
            CgroupModel { path: cgroup.path, lifeline: false },
        ),
{
}

/// The group of a child is asked for, and answered, as the setup that it is
/// come by with; what comes of it is the control group with the path of the
/// setup, or the session, each with its lifeline.
pub proof fn group_comes_from_its_setup(
    spawn: CgroupSpawnModel,
    setup: SetupModel,
    event: SetupEvent,
)
    ensures
        TreeSpawnModel::Cgroup(spawn).action() == spawn.action(),
        TreeSpawnModel::Session(setup).action() == setup.action(),
        TreeSpawnModel::Cgroup(spawn).stepped(event) == TreeSpawnModel::Cgroup(spawn.stepped(event)),
        TreeSpawnModel::Session(setup).stepped(event) == TreeSpawnModel::Session(
            setup.stepped(event),
        ),
        TreeSpawnModel::Cgroup(spawn).tree() matches TreeModel::Cgroup(cgroup) && cgroup.path
            == spawn.setup.path && cgroup.lifeline,
        TreeSpawnModel::Session(setup).tree() == TreeModel::Session(true),
{
}

/// A child gets into a job wherever the system refuses nothing, whatever comes
/// of closing the handle that it was opened with.
pub proof fn child_gets_into_its_job(closed: Result<(), String>)
    ensures
        JobModel::Create.stepped(Ok(())).stepped(Ok(())).stepped(Ok(())).stepped(Ok(())).stepped(
            closed,
        ) is Assigned,
        JobModel::Create.stepped(Ok(())) is Limit,
        JobModel::Limit.stepped(Ok(())) is Open,
        JobModel::Open.stepped(Ok(())) is Assign,
{
}

/// Where one of the four steps is refused, the child is in no job, and the
/// error says which step was refused and why, whatever comes of closing the
/// handles.
pub proof fn refused_job_says_why(
    cause: String,
    closed: Result<(), String>,
    closed_too: Result<(), String>,
)
    ensures
        JobModel::Create.stepped(Err(cause)) == JobModel::Unassigned(
            seq!["failed to create job object"@, cause@],
        ),
        JobModel::Limit.stepped(Err(cause)).stepped(closed) == JobModel::Unassigned(
            seq!["failed to set job object limits"@, cause@],
        ),
        JobModel::Open.stepped(Err(cause)).stepped(closed) == JobModel::Unassigned(
            seq!["failed to open process"@, cause@],
        ),
        JobModel::Assign.stepped(Err(cause)).stepped(closed).stepped(closed_too)
            == JobModel::Unassigned(seq!["failed to assign process to job object"@, cause@]),
{
}

/// Once it is clear whether a child is in its job, that stays so.
pub proof fn outcome_of_a_job_stays(error: Seq<Seq<char>>, outcome: Result<(), String>)
    ensures
        JobModel::Assigned.stepped(outcome) is Assigned,
        JobModel::Unassigned(error).stepped(outcome) == JobModel::Unassigned(error),
{
}

/// How a group is killed, and what came of putting a child into a job, is what
/// the model says.
pub proof fn group_is_what_the_model_says(
    cgroup: Cgroup,
    group: ProcessGroup,
    kill: CgroupKill,
    error: ProcessError,
    assigned: bool,
)
    ensures
        ProcessTree::Cgroup(cgroup)@ == TreeModel::Cgroup(cgroup@),
        ProcessTree::Session(group)@ == TreeModel::Session(group@),
        ProcessTree::Job(assigned)@ == TreeModel::Job(assigned),
        TreeKill::Cgroup(kill)@ == TreeKillModel::Cgroup(kill@),
        TreeKill::CloseLifeline@ is CloseLifeline,
        TreeKill::TerminateJob@ is TerminateJob,
        TreeKill::KillProcess@ is KillProcess,
        JobStage::Create@ is Create,
        JobStage::Limit@ is Limit,
        JobStage::Open@ is Open,
        JobStage::Assign@ is Assign,
        JobStage::Assigned@ is Assigned,
        JobStage::CloseJob(error)@ == JobModel::CloseJob(error@),
        JobStage::Unassigned(error)@ == JobModel::Unassigned(error@),
{
}

} // verus!
