//! Control groups that hold a process and all its descendants: how one is come
//! by, and how it is killed.

use crate::process::cgroup_location::name_of_cgroup;
use crate::process::error::{failed, in_one_line, ProcessError};
use crate::process::setup::{
    Setup, SetupAction, SetupActionModel, SetupEvent, SetupKind, SetupModel, SCOPE_TIMEOUT,
};
use crate::process::unix_path::{below, path_below};
use crate::text::joined;
use vstd::prelude::*;

verus! {

/// How a control group is come by: it is made directly, and where that fails,
/// the service manager is asked for one.
pub struct CgroupSpawn {
    pid: u32,
    instance: u128,
    id: u64,
    setup: Setup,
    direct_error: Option<ProcessError>,
}

/// The model of how a control group is come by.
#[verifier::ext_equal]
pub struct CgroupSpawnModel {
    pub pid: u32,
    pub instance: u128,
    pub id: u64,
    /// The setup that is tried.
    pub setup: SetupModel,
    /// Why the control group could not be made directly.
    pub direct_error: Option<Seq<Seq<char>>>,
}

impl View for CgroupSpawn {
    type V = CgroupSpawnModel;

    closed spec fn view(&self) -> CgroupSpawnModel {
        CgroupSpawnModel {
            pid: self.pid,
            instance: self.instance,
            id: self.id,
            setup: self.setup@,
            direct_error: match self.direct_error {
                Some(error) => Some(error@),
                None => None,
            },
        }
    }
}

/// What is said where both ways failed.
pub open spec fn both_failed(direct_error: Seq<Seq<char>>) -> Seq<char> {
    "direct cgroup setup failed ("@ + in_one_line(direct_error)
        + "); systemd transient scope setup also failed"@
}

impl CgroupSpawnModel {
    /// A process begins to come by its control group with a number.
    pub open spec fn begun(pid: u32, instance: u128, id: u64) -> CgroupSpawnModel {
        CgroupSpawnModel {
            pid,
            instance,
            id,
            setup: SetupModel::begun(SetupKind::Direct, name_of_cgroup(pid, instance, id)),
            direct_error: None,
        }
    }

    /// What is asked for.
    pub open spec fn action(self) -> SetupActionModel {
        match (self.setup.action(), self.direct_error) {
            (SetupActionModel::Fail(error), Some(direct_error)) => SetupActionModel::Fail(
                seq![both_failed(direct_error)] + error,
            ),
            (action, _) => action,
        }
    }

    /// How it goes on: once a control group could not be made directly, the
    /// service manager is asked.
    pub open spec fn stepped(self, event: SetupEvent) -> CgroupSpawnModel {
        let setup = self.setup.stepped(event);
        if setup.stage is Failed && self.direct_error is None {
            CgroupSpawnModel {
                setup: SetupModel::begun(
                    SetupKind::Systemd,
                    name_of_cgroup(self.pid, self.instance, self.id),
                ),
                direct_error: Some(setup.error),
                ..self
            }
        } else {
            CgroupSpawnModel { setup, ..self }
        }
    }
}

impl CgroupSpawn {
    /// It is consistent.
    pub closed spec fn wf(&self) -> bool {
        self.setup.wf()
    }

    /// Begins to come by a control group.
    pub fn new(pid: u32, instance: u128, id: u64) -> (r: Self)
        ensures
            r.wf(),
            r@ == CgroupSpawnModel::begun(pid, instance, id),
    {
        CgroupSpawn {
            pid,
            instance,
            id,
            setup: Setup::spawn_direct(pid, instance, id),
            direct_error: None,
        }
    }

    /// What to ask of the system next.
    pub fn action(&self) -> (r: SetupAction)
        requires
            self.wf(),
        ensures
            r@ == self@.action(),
    {
        match (self.setup.action(), &self.direct_error) {
            (SetupAction::Fail(error), Some(direct_error)) => {
                let mut message = "direct cgroup setup failed (".to_owned();
                message.append(direct_error.full_message().as_str());
                message.append("); systemd transient scope setup also failed");
                SetupAction::Fail(error.context(message))
            },
            (action, _) => action,
        }
    }

    /// Goes on with what the system answered.
    pub fn step(&mut self, event: SetupEvent)
        requires
            old(self).wf(),
            event matches SetupEvent::Clock(now) ==> now <= u64::MAX - SCOPE_TIMEOUT,
        ensures
            final(self).wf(),
            final(self)@ == old(self)@.stepped(event),
    {
        self.setup.step(event);
        if self.direct_error.is_none() {
            if let Some(error) = self.setup.failure() {
                self.direct_error = Some(error);
                self.setup = Setup::spawn_systemd(self.pid, self.instance, self.id);
            }
        }
    }

    /// The control group, once it is set up.
    pub fn finish(&self) -> (r: Option<Cgroup>)
        requires
            self.wf(),
        ensures
            r is Some == (self@.setup.stage is Succeeded),
            r matches Some(cgroup) ==> cgroup@ == (CgroupModel {
                path: self@.setup.path,
                lifeline: true,
            }),
    {
        match self.setup.action() {
            SetupAction::Succeed => Some(
                Cgroup { path: self.setup.path().to_owned(), lifeline: true },
            ),
            _ => None,
        }
    }
}

/// A control group that was set up.
pub struct Cgroup {
    path: String,
    lifeline: bool,
}

/// The model of a control group.
#[verifier::ext_equal]
pub struct CgroupModel {
    /// Its directory.
    pub path: Seq<char>,
    /// Whether the owner still holds its end of the lifeline.
    pub lifeline: bool,
}

impl CgroupModel {
    /// How the control group begins to be killed.
    pub open spec fn kill_begun(self, closes: bool) -> CgroupKillModel {
        CgroupKillModel { path: self.path, closes, stage: KillStageModel::CheckGroup }
    }

    /// The control group once it is being killed for good.
    pub open spec fn killed(self) -> CgroupModel {
        CgroupModel { lifeline: false, ..self }
    }

    /// What begins as the owner lets go of the control group.
    pub open spec fn released(self) -> Option<CgroupKillModel> {
        if self.lifeline {
            Some(self.kill_begun(false))
        } else {
            None
        }
    }
}

impl View for Cgroup {
    type V = CgroupModel;

    closed spec fn view(&self) -> CgroupModel {
        CgroupModel { path: self.path@, lifeline: self.lifeline }
    }
}

/// How far the killing of a control group has come.
#[derive(Debug, PartialEq, Eq)]
pub enum KillStage {
    /// Whether the group is there is looked at.
    CheckGroup,
    /// Whether it can be frozen is looked at.
    CheckFreezer,
    /// It is thawed, since what is frozen does not die.
    Thaw,
    /// It is killed.
    Kill,
    /// The lifeline is closed.
    CloseLifeline(Result<(), ProcessError>),
    Over(Result<(), ProcessError>),
}

/// What came of writing to a file.
#[derive(Debug, PartialEq, Eq)]
pub enum WriteOutcome {
    Written,
    /// The file is not there.
    NotFound,
    Failed(String),
}

/// What the system answered.
#[derive(Debug, PartialEq, Eq)]
pub enum KillEvent {
    /// Whether something is there.
    Answer(bool),
    /// What came of writing to a file.
    Wrote(WriteOutcome),
    /// The lifeline is closed.
    Closed,
}

/// What to ask of the system next.
#[derive(Debug, PartialEq, Eq)]
pub enum KillAction {
    /// Look whether this is there.
    CheckExists(String),
    /// Write a text to a file.
    WriteText { path: String, text: String },
    /// Close the owner's end of the lifeline.
    CloseLifeline,
    /// Nothing: this came of it.
    Finish(Result<(), ProcessError>),
}

/// The model of the stages.
pub enum KillStageModel {
    CheckGroup,
    CheckFreezer,
    Thaw,
    Kill,
    CloseLifeline(Result<(), Seq<Seq<char>>>),
    Over(Result<(), Seq<Seq<char>>>),
}

/// The model of what to ask of the system next.
pub enum KillActionModel {
    CheckExists(Seq<char>),
    WriteText { path: Seq<char>, text: Seq<char> },
    CloseLifeline,
    Finish(Result<(), Seq<Seq<char>>>),
}

/// The model of what came of killing.
pub open spec fn result_model(result: Result<(), ProcessError>) -> Result<(), Seq<Seq<char>>> {
    match result {
        Ok(_) => Ok(()),
        Err(error) => Err(error@),
    }
}

impl View for KillStage {
    type V = KillStageModel;

    open spec fn view(&self) -> KillStageModel {
        match self {
            KillStage::CheckGroup => KillStageModel::CheckGroup,
            KillStage::CheckFreezer => KillStageModel::CheckFreezer,
            KillStage::Thaw => KillStageModel::Thaw,
            KillStage::Kill => KillStageModel::Kill,
            KillStage::CloseLifeline(result) => KillStageModel::CloseLifeline(
                result_model(*result),
            ),
            KillStage::Over(result) => KillStageModel::Over(result_model(*result)),
        }
    }
}

impl View for KillAction {
    type V = KillActionModel;

    open spec fn view(&self) -> KillActionModel {
        match self {
            KillAction::CheckExists(path) => KillActionModel::CheckExists(path@),
            KillAction::WriteText { path, text } => KillActionModel::WriteText {
                path: path@,
                text: text@,
            },
            KillAction::CloseLifeline => KillActionModel::CloseLifeline,
            KillAction::Finish(result) => KillActionModel::Finish(result_model(*result)),
        }
    }
}

/// The killing of a control group.
pub struct CgroupKill {
    path: String,
    closes: bool,
    stage: KillStage,
}

/// The model of the killing of a control group.
pub struct CgroupKillModel {
    /// The directory of the control group.
    pub path: Seq<char>,
    /// Whether the lifeline is closed at the end.
    pub closes: bool,
    pub stage: KillStageModel,
}

impl View for CgroupKill {
    type V = CgroupKillModel;

    closed spec fn view(&self) -> CgroupKillModel {
        CgroupKillModel { path: self.path@, closes: self.closes, stage: self.stage@ }
    }
}

impl CgroupKillModel {
    /// What is asked for.
    pub open spec fn action(self) -> KillActionModel {
        match self.stage {
            KillStageModel::CheckGroup => KillActionModel::CheckExists(self.path),
            KillStageModel::CheckFreezer => KillActionModel::CheckExists(
                below(self.path, "cgroup.freeze"@),
            ),
            KillStageModel::Thaw => KillActionModel::WriteText {
                path: below(self.path, "cgroup.freeze"@),
                text: "0"@,
            },
            KillStageModel::Kill => KillActionModel::WriteText {
                path: below(self.path, "cgroup.kill"@),
                text: "1"@,
            },
            KillStageModel::CloseLifeline(_) => KillActionModel::CloseLifeline,
            KillStageModel::Over(result) => KillActionModel::Finish(result),
        }
    }

    /// The killing at another stage.
    pub open spec fn at(self, stage: KillStageModel) -> CgroupKillModel {
        CgroupKillModel { stage, ..self }
    }

    /// The killing once it is clear what came of it.
    pub open spec fn settled(self, result: Result<(), Seq<Seq<char>>>) -> CgroupKillModel {
        self.at(
            if self.closes {
                KillStageModel::CloseLifeline(result)
            } else {
                KillStageModel::Over(result)
            },
        )
    }

    /// How it goes on. A group that is gone needs no killing. What was not
    /// asked for changes nothing.
    pub open spec fn stepped(self, event: KillEvent) -> CgroupKillModel {
        match (self.stage, event) {
            (KillStageModel::CheckGroup, KillEvent::Answer(exists)) => if exists {
                self.at(KillStageModel::CheckFreezer)
            } else {
                self.settled(Ok(()))
            },
            (KillStageModel::CheckFreezer, KillEvent::Answer(exists)) => self.at(
                if exists {
                    KillStageModel::Thaw
                } else {
                    KillStageModel::Kill
                },
            ),
            (KillStageModel::Thaw, KillEvent::Wrote(outcome)) => match outcome {
                WriteOutcome::Written => self.at(KillStageModel::Kill),
                WriteOutcome::NotFound => self.settled(Ok(())),
                WriteOutcome::Failed(cause) => self.settled(
                    Err(seq!["failed to thaw process cgroup"@, cause@]),
                ),
            },
            (KillStageModel::Kill, KillEvent::Wrote(outcome)) => match outcome {
                WriteOutcome::Written => self.settled(Ok(())),
                WriteOutcome::NotFound => self.settled(Ok(())),
                WriteOutcome::Failed(cause) => self.settled(
                    Err(seq!["failed to kill process cgroup"@, cause@]),
                ),
            },
            (KillStageModel::CloseLifeline(result), KillEvent::Closed) => self.at(
                KillStageModel::Over(result),
            ),
            _ => self,
        }
    }
}

fn cloned_result(result: &Result<(), ProcessError>) -> (r: Result<(), ProcessError>)
    ensures
        result_model(r) == result_model(*result),
{
    match result {
        Ok(_) => Ok(()),
        Err(error) => Err(error.clone()),
    }
}

impl CgroupKill {
    /// What to ask of the system next.
    pub fn action(&self) -> (r: KillAction)
        ensures
            r@ == self@.action(),
    {
        let path = self.path.as_str();
        match &self.stage {
            KillStage::CheckGroup => KillAction::CheckExists(self.path.clone()),
            KillStage::CheckFreezer => KillAction::CheckExists(path_below(path, "cgroup.freeze")),
            KillStage::Thaw => KillAction::WriteText {
                path: path_below(path, "cgroup.freeze"),
                text: "0".to_owned(),
            },
            KillStage::Kill => KillAction::WriteText {
                path: path_below(path, "cgroup.kill"),
                text: "1".to_owned(),
            },
            KillStage::CloseLifeline(_) => KillAction::CloseLifeline,
            KillStage::Over(result) => KillAction::Finish(cloned_result(result)),
        }
    }

    fn settle(&mut self, result: Result<(), ProcessError>)
        ensures
            final(self)@ == old(self)@.settled(result_model(result)),
    {
        self.stage = if self.closes {
            KillStage::CloseLifeline(result)
        } else {
            KillStage::Over(result)
        };
    }

    /// Goes on with what the system answered.
    pub fn step(&mut self, event: KillEvent)
        ensures
            final(self)@ == old(self)@.stepped(event),
    {
        match (&self.stage, event) {
            (KillStage::CheckGroup, KillEvent::Answer(exists)) => {
                if exists {
                    self.stage = KillStage::CheckFreezer;
                } else {
                    self.settle(Ok(()));
                }
            },
            (KillStage::CheckFreezer, KillEvent::Answer(exists)) => {
                self.stage = if exists {
                    KillStage::Thaw
                } else {
                    KillStage::Kill
                };
            },
            (KillStage::Thaw, KillEvent::Wrote(outcome)) => match outcome {
                WriteOutcome::Written => {
                    self.stage = KillStage::Kill;
                },
                WriteOutcome::NotFound => self.settle(Ok(())),
                WriteOutcome::Failed(cause) => self.settle(
                    Err(failed("failed to thaw process cgroup", cause)),
                ),
            },
            (KillStage::Kill, KillEvent::Wrote(outcome)) => match outcome {
                WriteOutcome::Written => self.settle(Ok(())),
                WriteOutcome::NotFound => self.settle(Ok(())),
                WriteOutcome::Failed(cause) => self.settle(
                    Err(failed("failed to kill process cgroup", cause)),
                ),
            },
            (KillStage::CloseLifeline(result), KillEvent::Closed) => {
                let result = cloned_result(result);
                self.stage = KillStage::Over(result);
            },
            _ => {},
        }
    }
}

impl Cgroup {
    /// The directory of the control group.
    pub fn path(&self) -> (r: &str)
        ensures
            r@ == self@.path,
    {
        self.path.as_str()
    }

    fn kill_now(&self, closes: bool) -> (r: CgroupKill)
        ensures
            r@ == self@.kill_begun(closes),
    {
        CgroupKill { path: self.path.clone(), closes, stage: KillStage::CheckGroup }
    }

    /// Begins to kill the control group. At the end the lifeline is closed,
    /// whatever came of it.
    pub fn kill(&mut self) -> (r: CgroupKill)
        ensures
            final(self)@ == old(self)@.killed(),
            r@ == old(self)@.kill_begun(true),
    {
        self.lifeline = false;
        self.kill_now(true)
    }

    /// Begins to kill the control group as its owner lets go of it, unless that
    /// was done before.
    pub fn release(&self) -> (r: Option<CgroupKill>)
        ensures
            r is Some == self@.released() is Some,
            r matches Some(kill) ==> kill@ == self@.released()->0,
    {
        if self.lifeline {
            Some(self.kill_now(false))
        } else {
            None
        }
    }
}

/// The service manager is asked only after the direct way failed, and with the
/// same name; where it fails too, the error tells of both failures.
pub proof fn service_manager_is_the_second_choice(
    m: CgroupSpawnModel,
    event: SetupEvent,
)
    requires
        m.direct_error is None,
        m.setup.kind is Direct,
    ensures
        ({
            let after = m.stepped(event);
            &&& after.setup.kind is Systemd <==> m.setup.stepped(event).stage is Failed
            &&& after.setup.kind is Systemd ==> after.setup == SetupModel::begun(
                SetupKind::Systemd,
                name_of_cgroup(m.pid, m.instance, m.id),
            ) && after.direct_error == Some(m.setup.stepped(event).error)
        }),
{
}

/// A control group is thawed before it is killed, if it can be frozen at all,
/// and nothing is killed that is not there.
pub proof fn killing_in_order(m: CgroupKillModel, event: KillEvent)
    requires
        !(m.stage is Kill),
        m.stepped(event).stage is Kill,
    ensures
        (m.stage is Thaw && event == KillEvent::Wrote(WriteOutcome::Written)) || (
        m.stage is CheckFreezer && event == KillEvent::Answer(false)),
{
}

/// Whatever the system answers, a killing that closes the lifeline is not over
/// before that was asked for.
pub proof fn lifeline_is_closed_in_the_end(m: CgroupKillModel, event: KillEvent)
    requires
        m.closes,
        !(m.stage is Over),
        m.stepped(event).stage is Over,
    ensures
        m.action() == KillActionModel::CloseLifeline,
        event is Closed,
{
}

/// A control group that is gone already counts as killed.
pub proof fn vanished_group_counts_as_killed(m: CgroupKillModel)
    ensures
        m.stage is CheckGroup ==> m.stepped(KillEvent::Answer(false)) == m.settled(Ok(())),
        m.stage is Thaw || m.stage is Kill ==> m.stepped(KillEvent::Wrote(WriteOutcome::NotFound))
            == m.settled(Ok(())),
{
}

/// A control group that was killed is not killed once more when its owner lets
/// go of it; one that was not, is.
pub proof fn group_is_killed_once(cgroup: CgroupModel)
    ensures
        cgroup.killed().released() is None,
        cgroup.lifeline ==> cgroup.released() is Some,
{
}

/// Where both ways failed, the error tells of the second failure in the context
/// of the first, with all its causes.
pub proof fn both_failures_are_told(
    m: CgroupSpawnModel,
    direct_error: Seq<Seq<char>>,
    error: Seq<Seq<char>>,
)
    requires
        m.direct_error == Some(direct_error),
        m.setup.action() == SetupActionModel::Fail(error),
    ensures
        m.action() matches SetupActionModel::Fail(told) && {
            &&& told.len() == error.len() + 1
            &&& told[0] == "direct cgroup setup failed ("@ + joined(direct_error, ": "@)
                + "); systemd transient scope setup also failed"@
            &&& forall|i: int| 0 <= i < error.len() ==> told[i + 1] == #[trigger] error[i]
        },
{
}

/// Coming by a control group begins directly. As long as neither way has
/// failed, what is asked for is what the way that is tried asks for, and an
/// answer is an answer to it.
pub proof fn direct_way_is_tried_first(
    pid: u32,
    instance: u128,
    id: u64,
    m: CgroupSpawnModel,
    event: SetupEvent,
)
    ensures
        CgroupSpawnModel::begun(pid, instance, id).setup == SetupModel::begun(
            SetupKind::Direct,
            name_of_cgroup(pid, instance, id),
        ),
        CgroupSpawnModel::begun(pid, instance, id).direct_error is None,
        !(m.setup.action() is Fail) ==> m.action() == m.setup.action(),
        m.direct_error is None ==> m.action() == m.setup.action(),
        !(m.setup.stepped(event).stage is Failed) || m.direct_error is Some ==> {
            &&& m.stepped(event).setup == m.setup.stepped(event)
            &&& m.stepped(event).direct_error == m.direct_error
        },
        m.stepped(event).pid == m.pid,
        m.stepped(event).instance == m.instance,
        m.stepped(event).id == m.id,
{
}

/// The whole killing of a group that is there: it is looked at, thawed where it
/// can be frozen, and killed, each through its own file.
pub proof fn group_is_killed_through_its_files(m: CgroupKillModel, freezable: bool)
    requires
        m.stage is CheckGroup,
    ensures
        ({
            let present = m.stepped(KillEvent::Answer(true));
            let looked = present.stepped(KillEvent::Answer(freezable));
            let thawed = if freezable {
                looked.stepped(KillEvent::Wrote(WriteOutcome::Written))
            } else {
                looked
            };
            let killed = thawed.stepped(KillEvent::Wrote(WriteOutcome::Written));
            &&& m.action() == KillActionModel::CheckExists(m.path)
            &&& present.action() == KillActionModel::CheckExists(below(m.path, "cgroup.freeze"@))
            &&& freezable ==> looked.action() == (KillActionModel::WriteText {
                path: below(m.path, "cgroup.freeze"@),
                text: "0"@,
            })
            &&& thawed.action() == (KillActionModel::WriteText {
                path: below(m.path, "cgroup.kill"@),
                text: "1"@,
            })
            &&& m.closes ==> killed.action() is CloseLifeline && killed.stepped(
                KillEvent::Closed,
            ).action() == KillActionModel::Finish(Ok(()))
            &&& !m.closes ==> killed.action() == KillActionModel::Finish(Ok(()))
        }),
{
}

/// A group that cannot be thawed or killed is told of, with the reason, and the
/// lifeline is closed all the same where it is to be closed.
pub proof fn failed_killing_is_told(m: CgroupKillModel, cause: String)
    requires
        m.stage is Thaw || m.stage is Kill,
    ensures
        ({
            let failed = m.stepped(KillEvent::Wrote(WriteOutcome::Failed(cause)));
            let told = Err::<(), Seq<Seq<char>>>(
                seq![
                    if m.stage is Thaw {
                        "failed to thaw process cgroup"@
                    } else {
                        "failed to kill process cgroup"@
                    },
                    cause@,
                ],
            );
            &&& m.closes ==> failed.action() is CloseLifeline && failed.stepped(
                KillEvent::Closed,
            ).action() == KillActionModel::Finish(told)
            &&& !m.closes ==> failed.action() == KillActionModel::Finish(told)
        }),
{
}

/// A group that is gone, or vanishes on the way, needs no killing: that is no
/// error.
pub proof fn gone_group_is_no_error(m: CgroupKillModel)
    requires
        m.stage is CheckGroup || m.stage is Thaw || m.stage is Kill,
    ensures
        ({
            let gone = if m.stage is CheckGroup {
                m.stepped(KillEvent::Answer(false))
            } else {
                m.stepped(KillEvent::Wrote(WriteOutcome::NotFound))
            };
            &&& m.closes ==> gone.action() is CloseLifeline && gone.stepped(
                KillEvent::Closed,
            ).action() == KillActionModel::Finish(Ok(()))
            &&& !m.closes ==> gone.action() == KillActionModel::Finish(Ok(()))
        }),
{
}

/// An answer to something else than what was asked for changes nothing, and a
/// killing that is over stays over.
pub proof fn unasked_answer_kills_nothing(m: CgroupKillModel, event: KillEvent)
    ensures
        m.action() is CheckExists && !(event is Answer) ==> m.stepped(event) == m,
        m.action() is WriteText && !(event is Wrote) ==> m.stepped(event) == m,
        m.action() is CloseLifeline && !(event is Closed) ==> m.stepped(event) == m,
        m.action() is Finish ==> m.stepped(event) == m,
        m.stepped(event).path == m.path,
        m.stepped(event).closes == m.closes,
{
}

/// Killing a group begins with a look at that group, and takes its lifeline
/// away at the end; letting go of it kills it without, and only where it was
/// not killed before.
pub proof fn killing_begins_with_a_look(cgroup: CgroupModel)
    ensures
        cgroup.kill_begun(true).action() == KillActionModel::CheckExists(cgroup.path),
        cgroup.kill_begun(true).closes,
        !cgroup.killed().lifeline,
        cgroup.killed().path == cgroup.path,
        cgroup.lifeline ==> cgroup.released() is Some && cgroup.released()->0.action()
            == KillActionModel::CheckExists(cgroup.path) && !cgroup.released()->0.closes
            && cgroup.released()->0.stage is CheckGroup,
        !cgroup.lifeline ==> cgroup.released() is None,
        cgroup.kill_begun(true).stage is CheckGroup,
{
}

/// What is asked of the system in killing is what the model says.
pub proof fn asked_in_killing_is_what_the_model_says(
    path: String,
    text: String,
    error: ProcessError,
)
    ensures
        KillAction::CheckExists(path)@ == KillActionModel::CheckExists(path@),
        (KillAction::WriteText { path, text })@ == (KillActionModel::WriteText {
            path: path@,
            text: text@,
        }),
        KillAction::CloseLifeline@ is CloseLifeline,
        KillAction::Finish(Ok(()))@ == KillActionModel::Finish(Ok(())),
        KillAction::Finish(Err(error))@ == KillActionModel::Finish(Err(error@)),
{
}

/// How far killing has come is what the model says.
pub proof fn stage_of_killing_is_what_the_model_says(result: Result<(), ProcessError>)
    ensures
        KillStage::CheckGroup@ is CheckGroup,
        KillStage::CheckFreezer@ is CheckFreezer,
        KillStage::Thaw@ is Thaw,
        KillStage::Kill@ is Kill,
        KillStage::CloseLifeline(result)@ matches KillStageModel::CloseLifeline(told) && (told is Ok
            == result is Ok) && (told matches Err(causes) ==> causes == result->Err_0@),
        KillStage::Over(result)@ matches KillStageModel::Over(told) && (told is Ok == result is Ok)
            && (told matches Err(causes) ==> causes == result->Err_0@),
{
}

} // verus!
