//! The connections to agents: one per agent at most, each with an entry that
//! says how far it has come, and a backoff that spaces restarts out when an
//! agent keeps failing.
//!
//! The store never waits and never connects. Each of its operations takes what
//! happened and says what is to be done; the times it is given and the delays
//! it returns are in nanoseconds, counted from any fixed instant.

use crate::assoc_map::{AssocMap, MapKey};
use vstd::prelude::*;

verus! {

/// A connection that held at least this long was a stable one.
pub const STABLE_CONNECTION_DURATION: u64 = 30_000_000_000;

/// How long the restart after a first failure is delayed.
pub const INITIAL_RESTART_DELAY: u64 = 1_000_000_000;

/// The longest that a restart is ever delayed.
pub const MAX_RESTART_DELAY: u64 = 30_000_000_000;

/// Which agent a connection is for.
pub enum Agent {
    /// The agent that is built in.
    NativeAgent,
    /// An agent that was configured, by its identifier.
    Custom { id: String },
}

/// The model of an [`Agent`].
pub enum AgentModel {
    NativeAgent,
    Custom(Seq<char>),
}

impl View for Agent {
    type V = AgentModel;

    open spec fn view(&self) -> AgentModel {
        match self {
            Agent::NativeAgent => AgentModel::NativeAgent,
            Agent::Custom { id } => AgentModel::Custom(id@),
        }
    }
}

impl MapKey for Agent {
    fn same(&self, other: &Self) -> (r: bool) {
        match (self, other) {
            (Agent::NativeAgent, Agent::NativeAgent) => true,
            (Agent::Custom { id: a }, Agent::Custom { id: b }) => *a == *b,
            _ => false,
        }
    }
}

impl Clone for Agent {
    fn clone(&self) -> (r: Self)
        ensures
            r@ == self@,
    {
        match self {
            Agent::NativeAgent => Agent::NativeAgent,
            Agent::Custom { id } => Agent::Custom { id: id.clone() },
        }
    }
}

/// Why an agent could not be loaded, or went away.
#[derive(Debug, PartialEq, Eq)]
pub enum LoadError {
    /// Its process exited with this status.
    Exited { status: i32 },
    /// Its loader reported this.
    Reported(String),
    /// Anything else, by its message.
    Other(String),
}

impl Clone for LoadError {
    fn clone(&self) -> (r: Self)
        ensures
            r == *self,
    {
        match self {
            LoadError::Exited { status } => LoadError::Exited { status: *status },
            LoadError::Reported(message) => LoadError::Reported(message.clone()),
            LoadError::Other(message) => LoadError::Other(message.clone()),
        }
    }
}

/// What connecting to an agent can fail with.
pub enum ConnectError {
    /// An error that already says how loading failed.
    Load(LoadError),
    /// Any other error, by its message.
    Other(String),
}

/// What the store reads of an established connection.
#[derive(Debug, PartialEq, Eq)]
pub struct AgentConnection {
    /// By which the connection itself is found.
    pub handle: u64,
    /// The identifier that the agent goes by.
    pub agent_id: String,
    /// The version that the agent reports.
    pub agent_version: Option<String>,
    /// Whether the connection speaks the agent client protocol.
    pub is_acp: bool,
    /// Whether the connection reports its own retirement.
    pub reports_retirement: bool,
}

impl Clone for AgentConnection {
    fn clone(&self) -> (r: Self)
        ensures
            r == *self,
    {
        AgentConnection {
            handle: self.handle,
            agent_id: self.agent_id.clone(),
            agent_version: match &self.agent_version {
                Some(version) => Some(version.clone()),
                None => None,
            },
            is_acp: self.is_acp,
            reports_retirement: self.reports_retirement,
        }
    }
}

/// An established connection, with the time at which it was established.
#[derive(Debug, PartialEq, Eq)]
pub struct AgentConnectedState {
    pub connection: AgentConnection,
    pub connected_at: u64,
}

impl Clone for AgentConnectedState {
    fn clone(&self) -> (r: Self)
        ensures
            r == *self,
    {
        AgentConnectedState {
            connection: self.connection.clone(),
            connected_at: self.connected_at,
        }
    }
}

/// How far a connection has come.
#[derive(Debug, PartialEq, Eq)]
pub enum AgentConnectionEntry {
    /// It is being established by the attempt with this number.
    Connecting { connect_task: usize },
    /// It is established.
    Connected(AgentConnectedState),
    /// It failed, or was retired.
    Error { error: LoadError },
}

/// The status of a connection as it is shown.
#[derive(Clone, Copy, Debug, PartialEq, Eq, Structural)]
pub enum AgentConnectionStatus {
    Disconnected,
    Connecting,
    Connected,
}

/// What to wait for in order to have a connection.
#[derive(Debug, PartialEq, Eq)]
pub enum ConnectionWait {
    /// The outcome of the attempt with this number.
    Pending { connect_task: usize },
    /// Nothing: the outcome is already there.
    Ready(Result<AgentConnectedState, LoadError>),
}

/// What an entry tells those who watch it.
#[derive(Debug, PartialEq, Eq)]
pub enum AgentConnectionEntryEvent {
    NewVersionAvailable(String),
    LoadingStatusChanged(Option<String>),
}

/// An established connection that speaks the agent client protocol.
#[derive(Debug, PartialEq, Eq)]
pub struct ActiveAcpConnection {
    pub agent_id: String,
    /// By which the connection itself is found.
    pub connection: u64,
}

/// The status that an entry is shown with.
pub open spec fn entry_status(entry: AgentConnectionEntry) -> AgentConnectionStatus {
    match entry {
        AgentConnectionEntry::Connecting { .. } => AgentConnectionStatus::Connecting,
        AgentConnectionEntry::Connected(_) => AgentConnectionStatus::Connected,
        AgentConnectionEntry::Error { .. } => AgentConnectionStatus::Disconnected,
    }
}

impl AgentConnectionEntry {
    /// What to wait for in order to have this connection.
    pub fn wait_for_connection(&self) -> (r: ConnectionWait)
        ensures
            r == (match *self {
                AgentConnectionEntry::Connecting { connect_task } => ConnectionWait::Pending {
                    connect_task,
                },
                AgentConnectionEntry::Connected(state) => ConnectionWait::Ready(Ok(state)),
                AgentConnectionEntry::Error { error } => ConnectionWait::Ready(Err(error)),
            }),
    {
        match self {
            AgentConnectionEntry::Connecting { connect_task } => ConnectionWait::Pending {
                connect_task: *connect_task,
            },
            AgentConnectionEntry::Connected(state) => ConnectionWait::Ready(Ok(state.clone())),
            AgentConnectionEntry::Error { error } => ConnectionWait::Ready(Err(error.clone())),
        }
    }

    /// The status to show this entry with.
    pub fn status(&self) -> (r: AgentConnectionStatus)
        ensures
            r == entry_status(*self),
    {
        match self {
            AgentConnectionEntry::Connecting { .. } => AgentConnectionStatus::Connecting,
            AgentConnectionEntry::Connected(_) => AgentConnectionStatus::Connected,
            AgentConnectionEntry::Error { .. } => AgentConnectionStatus::Disconnected,
        }
    }
}

/// How often an agent failed in a row, and when it may be restarted.
#[derive(Clone, Copy, Debug, PartialEq, Eq, Structural)]
pub struct ConnectionRestartBackoff {
    pub consecutive_failures: u32,
    pub retry_at: Option<u64>,
}

/// How long a restart is delayed after this many failures in a row: it
/// doubles from failure to failure until it reaches the longest delay.
pub open spec fn delay_after(failures: nat) -> nat
    decreases failures,
{
    if failures <= 1 {
        INITIAL_RESTART_DELAY as nat
    } else if 2 * delay_after((failures - 1) as nat) < MAX_RESTART_DELAY {
        2 * delay_after((failures - 1) as nat)
    } else {
        MAX_RESTART_DELAY as nat
    }
}

/// The delay never shrinks with another failure, and stays within its bounds.
pub proof fn delay_grows_within_bounds(failures: nat, more: nat)
    requires
        failures <= more,
    ensures
        INITIAL_RESTART_DELAY <= delay_after(failures) <= delay_after(more) <= MAX_RESTART_DELAY,
    decreases more,
{
    if more > 0 {
        if failures < more {
            delay_grows_within_bounds(failures, (more - 1) as nat);
        } else {
            delay_grows_within_bounds((more - 1) as nat, (more - 1) as nat);
        }
    }
}

/// From the sixth failure on the delay is the longest one.
pub proof fn delay_is_capped(failures: nat)
    ensures
        delay_after(1) == 1_000_000_000,
        delay_after(2) == 2_000_000_000,
        delay_after(3) == 4_000_000_000,
        delay_after(4) == 8_000_000_000,
        delay_after(5) == 16_000_000_000,
        failures >= 6 ==> delay_after(failures) == MAX_RESTART_DELAY,
    decreases failures,
{
    reveal_with_fuel(delay_after, 7);
    if failures > 6 {
        delay_is_capped((failures - 1) as nat);
    }
}

/// The number of failures in a row after another one. It stops at the largest
/// number that is counted.
pub open spec fn one_more_failure(failures: u32) -> u32 {
    if failures == u32::MAX {
        u32::MAX
    } else {
        (failures + 1) as u32
    }
}

/// The state of the store.
#[verifier::ext_equal]
pub struct StoreModel {
    /// The project that the connections are for.
    pub project: u64,
    /// The entry that stands for each agent.
    pub entries: Map<AgentModel, usize>,
    /// Every entry that was ever made, in the order in which they were made;
    /// nothing where an entry is no longer held by anyone.
    pub entities: Seq<Option<AgentConnectionEntry>>,
    /// The agents that failed lately.
    pub backoffs: Map<AgentModel, ConnectionRestartBackoff>,
}

impl StoreModel {
    /// Every entry has a number, the store holds the entries that it refers to,
    /// and no entry stands for two agents.
    pub open spec fn wf(self) -> bool {
        &&& self.entities.len() <= usize::MAX
        &&& forall|key: AgentModel| #[trigger]
            self.entries.contains_key(key) ==> self.entries[key] < self.entities.len()
                && self.entities[self.entries[key] as int] is Some
        &&& forall|a: AgentModel, b: AgentModel|
            #![trigger self.entries[a], self.entries[b]]
            self.entries.contains_key(a) && self.entries.contains_key(b) && self.entries[a]
                == self.entries[b] ==> a == b
    }

    /// The entry that stands for an agent.
    pub open spec fn entry(self, key: AgentModel) -> Option<usize> {
        if self.entries.contains_key(key) {
            Some(self.entries[key])
        } else {
            None
        }
    }

    /// An entry, where it is still held by anyone.
    pub open spec fn upgrade(self, entry: usize) -> Option<usize> {
        if entry < self.entities.len() && self.entities[entry as int] is Some {
            Some(entry)
        } else {
            None
        }
    }

    /// Whether news about an entry of an agent still concern the store: the
    /// entry stands for the agent, or it is gone and none does.
    pub open spec fn is_current(self, key: AgentModel, entry: usize) -> bool {
        self.entry(key) == self.upgrade(entry)
    }

    /// What an entry holds, where it is still held by anyone.
    pub open spec fn held(self, entry: usize) -> Option<AgentConnectionEntry> {
        if entry < self.entities.len() {
            self.entities[entry as int]
        } else {
            None
        }
    }

    /// The store with an entry replaced, where it is still held by anyone.
    pub open spec fn with_entry(self, entry: usize, value: AgentConnectionEntry) -> StoreModel {
        if self.held(entry) is Some {
            StoreModel { entities: self.entities.update(entry as int, Some(value)), ..self }
        } else {
            self
        }
    }

    /// The store without an entry for an agent.
    pub open spec fn without(self, key: AgentModel) -> StoreModel {
        StoreModel { entries: self.entries.remove(key), ..self }
    }

    /// How often an agent has failed in a row.
    pub open spec fn failures(self, key: AgentModel) -> u32 {
        if self.backoffs.contains_key(key) {
            self.backoffs[key].consecutive_failures
        } else {
            0
        }
    }

    /// Whether the clock can still count the delay that another failure of an
    /// agent at this time calls for. It can wherever it leaves room for the
    /// longest delay.
    pub open spec fn leaves_room(self, key: AgentModel, now: u64) -> bool {
        now <= u64::MAX - MAX_RESTART_DELAY || now + delay_after(
            one_more_failure(self.failures(key)) as nat,
        ) <= u64::MAX
    }

    /// The same for the retirement of a connection, which counts as a failure
    /// unless it held long enough.
    pub open spec fn leaves_room_to_retire(
        self,
        key: AgentModel,
        connected_at: u64,
        now: u64,
    ) -> bool {
        now - connected_at >= STABLE_CONNECTION_DURATION || self.leaves_room(key, now)
    }

    /// The store after an agent failed: one more failure, and no restart
    /// before the delay that this many failures call for.
    pub open spec fn after_failure(self, key: AgentModel, now: u64) -> StoreModel {
        let count = one_more_failure(self.failures(key));
        StoreModel {
            backoffs: self.backoffs.insert(
                key,
                ConnectionRestartBackoff {
                    consecutive_failures: count,
                    retry_at: Some((now + delay_after(count as nat)) as u64),
                },
            ),
            ..self
        }
    }

    /// The store after a connection was retired: one that held long enough
    /// clears the failures of its agent, any other counts as one more.
    pub open spec fn after_retirement(
        self,
        key: AgentModel,
        connected_at: u64,
        now: u64,
    ) -> StoreModel {
        if now - connected_at >= STABLE_CONNECTION_DURATION {
            StoreModel { backoffs: self.backoffs.remove(key), ..self }
        } else {
            self.after_failure(key, now)
        }
    }

    /// How long a restart asked for now is still to be delayed.
    pub open spec fn delay(self, key: AgentModel, now: u64) -> u64 {
        if self.backoffs.contains_key(key) {
            match self.backoffs[key].retry_at {
                Some(retry_at) if retry_at > now => (retry_at - now) as u64,
                _ => 0,
            }
        } else {
            0
        }
    }

    /// The store after that delay was asked for: a time that has passed is
    /// forgotten.
    pub open spec fn after_delay(self, key: AgentModel, now: u64) -> StoreModel {
        if self.backoffs.contains_key(key) && self.backoffs[key].retry_at is Some
            && self.backoffs[key].retry_at->0 <= now {
            StoreModel {
                backoffs: self.backoffs.insert(
                    key,
                    ConnectionRestartBackoff { retry_at: None, ..self.backoffs[key] },
                ),
                ..self
            }
        } else {
            self
        }
    }

    /// The store after a new attempt was started for an agent.
    pub open spec fn after_start(self, key: AgentModel, now: u64) -> StoreModel {
        let m = self.after_delay(key, now);
        StoreModel {
            entries: m.entries.insert(key, self.entities.len() as usize),
            entities: m.entities.push(
                Some(
                    AgentConnectionEntry::Connecting {
                        connect_task: self.entities.len() as usize,
                    },
                ),
            ),
            ..m
        }
    }

    /// Whether the connection of an agent is established and was retired, as
    /// what it reports of its retirement says.
    pub open spec fn is_retired(self, key: AgentModel, retirement: Option<LoadError>) -> bool {
        &&& self.entries.contains_key(key)
        &&& self.held(self.entries[key]) matches Some(AgentConnectionEntry::Connected(state))
        &&& state.connection.reports_retirement
        &&& retirement is Some
    }

    /// The store after a connection was asked for.
    pub open spec fn after_request(
        self,
        key: AgentModel,
        retirement: Option<LoadError>,
        now: u64,
    ) -> StoreModel {
        if self.is_retired(key, retirement) {
            let connected_at = self.held(self.entries[key])->0->Connected_0.connected_at;
            self.after_retirement(key, connected_at, now).without(key).after_start(key, now)
        } else if self.entries.contains_key(key) {
            self
        } else {
            self.after_start(key, now)
        }
    }

    /// Whether the connection of an agent is being established.
    pub open spec fn is_connecting(self, key: AgentModel) -> bool {
        &&& self.entries.contains_key(key)
        &&& self.held(self.entries[key]) matches Some(AgentConnectionEntry::Connecting { .. })
    }

    /// The store after a restart was asked for.
    pub open spec fn after_restart(self, key: AgentModel, now: u64) -> StoreModel {
        if self.is_connecting(key) {
            self
        } else {
            self.without(key).after_start(key, now)
        }
    }

    /// The store after an attempt succeeded.
    pub open spec fn after_connected(
        self,
        key: AgentModel,
        entry: usize,
        state: AgentConnectedState,
    ) -> StoreModel {
        if self.is_current(key, entry) && self.held(entry) matches Some(
            AgentConnectionEntry::Connecting { .. },
        ) {
            self.with_entry(entry, AgentConnectionEntry::Connected(state))
        } else {
            self
        }
    }

    /// The store after an attempt failed.
    pub open spec fn after_connect_error(
        self,
        key: AgentModel,
        entry: usize,
        error: LoadError,
        now: u64,
    ) -> StoreModel {
        if self.is_current(key, entry) {
            let m = if self.held(entry) matches Some(AgentConnectionEntry::Connecting { .. }) {
                self.with_entry(entry, AgentConnectionEntry::Error { error })
            } else {
                self
            };
            m.after_failure(key, now).without(key)
        } else {
            self
        }
    }

    /// The store after a connection reported its retirement.
    pub open spec fn after_retired(
        self,
        key: AgentModel,
        entry: usize,
        connected_at: u64,
        error: LoadError,
        now: u64,
    ) -> StoreModel {
        if self.is_current(key, entry) {
            self.after_retirement(key, connected_at, now).with_entry(
                entry,
                AgentConnectionEntry::Error { error },
            ).without(key)
        } else {
            self
        }
    }

    /// The store after it was found whether there is a newer version of the
    /// agent of an entry: where there is, the entry no longer stands for it.
    pub open spec fn after_new_version(
        self,
        key: AgentModel,
        entry: usize,
        version: Option<String>,
    ) -> StoreModel {
        if version is Some && self.is_current(key, entry) {
            self.without(key)
        } else {
            self
        }
    }

    /// Whom to tell about the outcome of an attempt: those who watch the store,
    /// and those who watch the entry where it was still waiting for it.
    pub open spec fn outcome_effects(self, key: AgentModel, entry: usize) -> StoreEffects {
        StoreEffects {
            notify: self.is_current(key, entry),
            notify_entry: self.is_current(key, entry) && (self.held(entry) matches Some(
                AgentConnectionEntry::Connecting { .. },
            )),
            emitted: None,
        }
    }

    /// Whom to tell about the retirement of a connection.
    pub open spec fn retired_effects(self, key: AgentModel, entry: usize) -> StoreEffects {
        StoreEffects {
            notify: self.is_current(key, entry),
            notify_entry: self.is_current(key, entry) && self.held(entry) is Some,
            emitted: None,
        }
    }

    /// Whom to tell about a newer version.
    pub open spec fn new_version_effects(
        self,
        key: AgentModel,
        entry: usize,
        version: Option<String>,
    ) -> StoreEffects {
        StoreEffects {
            notify: version is Some && self.is_current(key, entry),
            notify_entry: false,
            emitted: if version is Some && self.is_current(key, entry) && self.held(entry) is Some {
                Some(AgentConnectionEntryEvent::NewVersionAvailable(version->0))
            } else {
                None
            },
        }
    }

    /// Whom to tell about how an agent is coming along.
    pub open spec fn loading_effects(
        self,
        key: AgentModel,
        entry: usize,
        status: Option<String>,
    ) -> StoreEffects {
        StoreEffects {
            notify: self.is_current(key, entry),
            notify_entry: false,
            emitted: if self.is_current(key, entry) && self.held(entry) is Some {
                Some(AgentConnectionEntryEvent::LoadingStatusChanged(status))
            } else {
                None
            },
        }
    }

    /// No restart is put off for longer than the longest delay after this time.
    pub open spec fn delays_end_after(self, time: u64) -> bool {
        forall|key: AgentModel| #[trigger]
            self.backoffs.contains_key(key) ==> (self.backoffs[key].retry_at matches Some(retry_at)
                ==> retry_at <= time + MAX_RESTART_DELAY)
    }

    /// The established connection of an agent, where it speaks the agent
    /// client protocol.
    pub open spec fn active(self, key: AgentModel) -> Option<ActiveAcpConnection> {
        match self.entry(key) {
            Some(entry) => match self.held(entry) {
                Some(AgentConnectionEntry::Connected(state)) => if state.connection.is_acp {
                    Some(
                        ActiveAcpConnection {
                            agent_id: state.connection.agent_id,
                            connection: state.connection.handle,
                        },
                    )
                } else {
                    None
                },
                _ => None,
            },
            None => None,
        }
    }

    /// Whether an agent stays when only these agents are configured.
    pub open spec fn stays(key: AgentModel, configured: Set<Seq<char>>) -> bool {
        match key {
            AgentModel::NativeAgent => true,
            AgentModel::Custom(id) => configured.contains(id),
        }
    }

    /// The store after the configured agents changed.
    pub open spec fn after_agents_updated(self, configured: Set<Seq<char>>) -> StoreModel {
        StoreModel {
            entries: Map::new(
                |key: AgentModel| self.entries.contains_key(key) && Self::stays(key, configured),
                |key: AgentModel| self.entries[key],
            ),
            ..self
        }
    }
}

/// What asking for a connection led to.
#[derive(Debug, PartialEq, Eq)]
pub struct RequestedConnection {
    /// The entry that stands for the agent.
    pub entry: usize,
    /// Where a new attempt is to be made, how long to wait before it.
    pub restart_delay: Option<u64>,
}

impl RequestedConnection {
    /// Whether those who watch the store are to be told: they are wherever a
    /// new attempt is made, and the entry that stands for the agent is new.
    pub fn notify(&self) -> (r: bool)
        ensures
            r == self.restart_delay is Some,
    {
        self.restart_delay.is_some()
    }
}

/// Whom to tell about a change.
#[derive(Debug, PartialEq, Eq)]
pub struct StoreEffects {
    /// Those who watch the store.
    pub notify: bool,
    /// Those who watch the entry.
    pub notify_entry: bool,
    /// What the entry tells those who listen to it.
    pub emitted: Option<AgentConnectionEntryEvent>,
}

/// Nobody is told anything.
pub open spec fn no_effects() -> StoreEffects {
    StoreEffects { notify: false, notify_entry: false, emitted: None }
}

impl StoreEffects {
    fn none() -> (r: Self)
        ensures
            r == no_effects(),
    {
        StoreEffects { notify: false, notify_entry: false, emitted: None }
    }
}

/// How to go on watching a connection for its retirement.
#[derive(Debug, PartialEq, Eq)]
pub enum RetirementWatch {
    /// There is nothing more to watch.
    Stop,
    /// Wait for the next report.
    Wait,
    /// It was retired, for this reason.
    Retire(LoadError),
}

/// What to do first in order to connect.
#[derive(Debug, PartialEq, Eq)]
pub enum ConnectStep {
    /// Wait this long, then connect.
    Delay(u64),
    /// Connect at once.
    Connect,
}

/// The first step of an attempt that is to be delayed.
pub fn start_connection(restart_delay: u64) -> (r: ConnectStep)
    ensures
        r == (if restart_delay == 0 {
            ConnectStep::Connect
        } else {
            ConnectStep::Delay(restart_delay)
        }),
{
    if restart_delay != 0 {
        ConnectStep::Delay(restart_delay)
    } else {
        ConnectStep::Connect
    }
}

/// What an attempt comes to, from what connecting at this time gave.
pub fn finish_connection(outcome: Result<AgentConnection, ConnectError>, now: u64) -> (r: Result<
    AgentConnectedState,
    LoadError,
>)
    ensures
        r == (match outcome {
            Ok(connection) => Ok(AgentConnectedState { connection, connected_at: now }),
            Err(ConnectError::Load(error)) => Err(error),
            Err(ConnectError::Other(message)) => Err(LoadError::Other(message)),
        }),
{
    match outcome {
        Ok(connection) => Ok(AgentConnectedState { connection, connected_at: now }),
        Err(ConnectError::Load(error)) => Err(error),
        Err(ConnectError::Other(message)) => Err(LoadError::Other(message)),
    }
}

/// How to watch a connection that was just established, which reports
/// `current` of its retirement so far.
pub fn watch_retirement(connection: &AgentConnection, current: Option<LoadError>) -> (r:
    RetirementWatch)
    ensures
        r == (if !connection.reports_retirement {
            RetirementWatch::Stop
        } else {
            match current {
                Some(error) => RetirementWatch::Retire(error),
                None => RetirementWatch::Wait,
            }
        }),
{
    if !connection.reports_retirement {
        return RetirementWatch::Stop;
    }
    match current {
        Some(error) => RetirementWatch::Retire(error),
        None => RetirementWatch::Wait,
    }
}

/// How to go on when the report that was waited for has come, or the
/// connection stopped reporting.
pub fn retirement_reported(report: Result<Option<LoadError>, ()>) -> (r: RetirementWatch)
    ensures
        r == (match report {
            Ok(Some(error)) => RetirementWatch::Retire(error),
            _ => RetirementWatch::Stop,
        }),
{
    match report {
        Ok(Some(error)) => RetirementWatch::Retire(error),
        Ok(None) => RetirementWatch::Stop,
        Err(_) => RetirementWatch::Stop,
    }
}

/// The reason for which a connection counts as retired when it is asked for
/// again, from what it reports of its retirement.
pub fn current_retirement(connection: &AgentConnection, reported: &Option<LoadError>) -> (r:
    Option<LoadError>)
    ensures
        r == (if connection.reports_retirement {
            *reported
        } else {
            None
        }),
{
    if !connection.reports_retirement {
        return None;
    }
    match reported {
        Some(error) => Some(error.clone()),
        None => None,
    }
}

/// The connections to the agents of a project.
pub struct AgentConnectionStore {
    project: u64,
    entries: AssocMap<Agent, usize>,
    entities: Vec<Option<AgentConnectionEntry>>,
    restart_backoffs: AssocMap<Agent, ConnectionRestartBackoff>,
}

impl View for AgentConnectionStore {
    type V = StoreModel;

    closed spec fn view(&self) -> StoreModel {
        StoreModel {
            project: self.project,
            entries: self.entries@,
            entities: self.entities@,
            backoffs: self.restart_backoffs@,
        }
    }
}

impl AgentConnectionStore {
    /// The store is consistent.
    pub closed spec fn wf(&self) -> bool {
        &&& self.entries.wf()
        &&& self.restart_backoffs.wf()
        &&& self@.wf()
    }

    /// The model of a consistent store is consistent.
    pub proof fn wf_model(&self)
        requires
            self.wf(),
        ensures
            self@.wf(),
    {
    }

    /// A store without connections.
    pub fn new(project: u64) -> (r: Self)
        ensures
            r.wf(),
            r@ == (StoreModel {
                project,
                entries: Map::empty(),
                entities: Seq::empty(),
                backoffs: Map::empty(),
            }),
            forall|time: u64| #[trigger] r@.delays_end_after(time),
    {
        AgentConnectionStore {
            project,
            entries: AssocMap::new(),
            entities: Vec::new(),
            restart_backoffs: AssocMap::new(),
        }
    }

    /// The project that the connections are for.
    pub fn project(&self) -> (r: u64)
        ensures
            r == self@.project,
    {
        self.project
    }

    /// The entry that stands for an agent.
    pub fn entry(&self, key: &Agent) -> (r: Option<usize>)
        requires
            self.wf(),
        ensures
            r == self@.entry(key@),
    {
        match self.entries.get(key) {
            Some(entry) => Some(*entry),
            None => None,
        }
    }

    /// What an entry holds.
    pub fn read_entry(&self, entry: usize) -> (r: Option<&AgentConnectionEntry>)
        ensures
            r is Some == self@.held(entry) is Some,
            r matches Some(value) ==> Some(*value) == self@.held(entry),
    {
        if entry < self.entities.len() {
            match &self.entities[entry] {
                Some(value) => Some(value),
                None => None,
            }
        } else {
            None
        }
    }

    /// The status to show an agent with.
    pub fn connection_status(&self, key: &Agent) -> (r: AgentConnectionStatus)
        requires
            self.wf(),
        ensures
            r == (match self@.entry(key@) {
                Some(entry) => entry_status(self@.held(entry)->0),
                None => AgentConnectionStatus::Disconnected,
            }),
    {
        match self.entry(key) {
            Some(entry) => match self.read_entry(entry) {
                Some(value) => value.status(),
                None => AgentConnectionStatus::Disconnected,
            },
            None => AgentConnectionStatus::Disconnected,
        }
    }

    /// The version that the agent of an established connection reports.
    pub fn agent_version(&self, key: &Agent) -> (r: Option<String>)
        requires
            self.wf(),
        ensures
            r == (match self@.entry(key@) {
                Some(entry) => match self@.held(entry) {
                    Some(AgentConnectionEntry::Connected(state)) => state.connection.agent_version,
                    _ => None,
                },
                None => None,
            }),
    {
        match self.entry(key) {
            Some(entry) => match self.read_entry(entry) {
                Some(AgentConnectionEntry::Connected(state)) => match &state.connection.agent_version {
                    Some(version) => Some(version.clone()),
                    None => None,
                },
                _ => None,
            },
            None => None,
        }
    }

    /// The established connections that speak the agent client protocol, in
    /// some order.
    pub fn active_acp_connections(&self) -> (r: Vec<ActiveAcpConnection>)
        requires
            self.wf(),
        ensures
            exists|keys: Seq<AgentModel>|
                #![trigger keys.no_duplicates()]
                {
                    &&& keys.no_duplicates()
                    &&& forall|key: AgentModel| #[trigger]
                        keys.contains(key) <==> self@.active(key) is Some
                    &&& r@.len() == keys.len()
                    &&& forall|i: int|
                        0 <= i < keys.len() ==> Some(#[trigger] r@[i]) == self@.active(keys[i])
                },
    {
        let mut out: Vec<ActiveAcpConnection> = Vec::new();
        let ghost mut found: Seq<AgentModel> = Seq::empty();
        let n: usize = self.entries.len();
        let mut i: usize = 0;
        while i < n
            invariant
                self.wf(),
                n == self.entries.keys().len(),
                i <= n,
                found.no_duplicates(),
                forall|key: AgentModel| #[trigger]
                    found.contains(key) <==> self@.active(key) is Some
                        && self.entries.keys().take(i as int).contains(key),
                out@.len() == found.len(),
                forall|j: int| 0 <= j < found.len() ==> Some(#[trigger] out@[j]) == self@.active(found[j]),
            decreases n - i,
        {
            let ghost before = found;
            let ghost key = self.entries.keys()[i as int];
            let entry: usize = *self.entries.value_at(i);
            let mut hit = false;
            if let Some(AgentConnectionEntry::Connected(state)) = self.read_entry(entry) {
                if state.connection.is_acp {
                    out.push(
                        ActiveAcpConnection {
                            agent_id: state.connection.agent_id.clone(),
                            connection: state.connection.handle,
                        },
                    );
                    proof {
                        found = found.push(key);
                    }
                    hit = true;
                }
            }
            proof {
                let seen = self.entries.keys().take(i as int);
                let next = self.entries.keys().take(i + 1);
                assert(next =~= seen.push(key));
                assert(!seen.contains(key)) by {
                    if seen.contains(key) {
                        let j = choose|j: int| 0 <= j < seen.len() && seen[j] == key;
                        assert(self.entries.keys()[j] == self.entries.keys()[i as int]);
                    }
                }
                assert(hit == (self@.active(key) is Some));
                assert(!before.contains(key));
                assert forall|a: int, b: int|
                    0 <= a < found.len() && 0 <= b < found.len() && a != b implies found[a]
                    != found[b] by {
                    if a < before.len() {
                        assert(before.contains(before[a]));
                    }
                    if b < before.len() {
                        assert(before.contains(before[b]));
                    }
                }
                assert forall|k: AgentModel| #[trigger] found.contains(k) <==> self@.active(k) is Some
                    && next.contains(k) by {
                    assert(before.contains(k) <==> self@.active(k) is Some && seen.contains(k));
                    if next.contains(k) && k != key {
                        let j = choose|j: int| 0 <= j < next.len() && next[j] == k;
                        assert(seen[j] == k);
                    }
                    if seen.contains(k) {
                        let j = choose|j: int| 0 <= j < seen.len() && seen[j] == k;
                        assert(next[j] == k);
                    }
                    assert(next[i as int] == key);
                    if hit {
                        if before.contains(k) {
                            let j = choose|j: int| 0 <= j < before.len() && before[j] == k;
                            assert(found[j] == k);
                        }
                        assert(found[before.len() as int] == key);
                    }
                }
            }
            i = i + 1;
        }
        proof {
            self.entries.keys_are_the_domain();
            assert(self.entries.keys().take(n as int) =~= self.entries.keys());
            assert forall|key: AgentModel| #[trigger] found.contains(key) <==> self@.active(
                key,
            ) is Some by {
                if self@.active(key) is Some {
                    assert(self.entries.keys().to_set().contains(key));
                }
            }
        }
        out
    }

    /// Notes that an agent failed: one more failure in a row, as long as it can
    /// be counted, and no restart before the delay that their number calls for
    /// has passed. Entries, and the failures of other agents, stay as they are.
    pub fn record_connection_failure(&mut self, key: &Agent, now: u64)
        requires
            old(self).wf(),
            old(self)@.leaves_room(key@, now),
        ensures
            final(self).wf(),
            final(self)@ == old(self)@.after_failure(key@, now),
            ({
                let n = final(self)@.failures(key@);
                &&& n == (if old(self)@.failures(key@) < u32::MAX {
                    old(self)@.failures(key@) + 1
                } else {
                    u32::MAX as int
                })
                &&& final(self)@.backoffs.contains_key(key@)
                &&& final(self)@.backoffs[key@].retry_at is Some
                &&& final(self)@.backoffs[key@].retry_at->0 == now + doubled_delay((n - 1) as nat)
                &&& INITIAL_RESTART_DELAY <= doubled_delay((n - 1) as nat) <= MAX_RESTART_DELAY
                &&& old(self)@.failures(key@) > 0 ==> doubled_delay(
                    (old(self)@.failures(key@) - 1) as nat,
                ) <= doubled_delay((n - 1) as nat)
            }),
            final(self)@.entries == old(self)@.entries,
            final(self)@.entities == old(self)@.entities,
            final(self)@.backoffs.remove(key@) == old(self)@.backoffs.remove(key@),
    {
        let failures: u32 = match self.restart_backoffs.get(key) {
            Some(backoff) => backoff.consecutive_failures,
            None => 0,
        };
        let count: u32 = failures.saturating_add(1);
        let delay: u64 = failure_delay(count);
        proof {
            failure_counts_and_delays(self@, key@, now, failures as nat);
            if failures > 0 {
                delay_doubles_up_to_the_longest(failures as nat);
            }
        }
        self.restart_backoffs.insert(
            key.clone(),
            ConnectionRestartBackoff { consecutive_failures: count, retry_at: Some(now + delay) },
        );
    }

    /// Notes that a connection of an agent was retired. One that held long
    /// enough clears the failures of the agent; any other, one that was retired
    /// before it was established as the clock has it among them, counts as a
    /// failure.
    pub fn record_retirement(&mut self, key: &Agent, connected_at: u64, now: u64)
        requires
            old(self).wf(),
            old(self)@.leaves_room_to_retire(key@, connected_at, now),
        ensures
            final(self).wf(),
            final(self)@ == old(self)@.after_retirement(key@, connected_at, now),
            if now - connected_at >= STABLE_CONNECTION_DURATION {
                &&& !final(self)@.backoffs.contains_key(key@)
                &&& final(self)@.failures(key@) == 0
                &&& forall|later: u64| #[trigger] final(self)@.delay(key@, later) == 0
            } else {
                final(self)@ == old(self)@.after_failure(key@, now)
            },
            final(self)@.entries == old(self)@.entries,
            final(self)@.entities == old(self)@.entities,
            final(self)@.backoffs.remove(key@) == old(self)@.backoffs.remove(key@),
    {
        if now.saturating_sub(connected_at) >= STABLE_CONNECTION_DURATION {
            let _ = self.restart_backoffs.remove(key);
            return;
        }
        self.record_connection_failure(key, now);
    }

    /// How long a restart of an agent is still to be delayed. A time that has
    /// passed is forgotten, the failures that it came from are not.
    pub fn restart_delay(&mut self, key: &Agent, now: u64) -> (r: u64)
        requires
            old(self).wf(),
        ensures
            final(self).wf(),
            final(self)@ == old(self)@.after_delay(key@, now),
            r == old(self)@.delay(key@, now),
            r == final(self)@.delay(key@, now),
            final(self)@ == final(self)@.after_delay(key@, now),
            forall|time: u64|
                (#[trigger] old(self)@.delays_end_after(time)) && time <= now ==> r
                    <= MAX_RESTART_DELAY,
            forall|k: AgentModel| #[trigger]
                final(self)@.failures(k) == old(self)@.failures(k),
            final(self)@.entries == old(self)@.entries,
            final(self)@.entities == old(self)@.entities,
            final(self)@.backoffs.remove(key@) == old(self)@.backoffs.remove(key@),
    {
        proof {
            delay_is_the_time_left(self@, key@, key@, now);
        }
        let backoff: ConnectionRestartBackoff = match self.restart_backoffs.get(key) {
            Some(backoff) => *backoff,
            None => {
                return 0;
            },
        };
        let retry_at: u64 = match backoff.retry_at {
            Some(retry_at) => retry_at,
            None => {
                return 0;
            },
        };
        if now >= retry_at {
            self.restart_backoffs.insert(
                key.clone(),
                ConnectionRestartBackoff {
                    consecutive_failures: backoff.consecutive_failures,
                    retry_at: None,
                },
            );
            0
        } else {
            retry_at - now
        }
    }

    /// Makes an entry for a new attempt to connect to an agent.
    fn start(&mut self, key: Agent, now: u64) -> (r: RequestedConnection)
        requires
            old(self).wf(),
        ensures
            final(self).wf(),
            final(self)@ == old(self)@.after_start(key@, now),
            r == (RequestedConnection {
                entry: old(self)@.entities.len() as usize,
                restart_delay: Some(old(self)@.delay(key@, now)),
            }),
    {
        let restart_delay: u64 = self.restart_delay(&key, now);
        let entry: usize = self.entities.len();
        self.entities.push(Some(AgentConnectionEntry::Connecting { connect_task: entry }));
        assert(self.entities@.len() == self.entities.len());
        self.entries.insert(key, entry);
        RequestedConnection { entry, restart_delay: Some(restart_delay) }
    }

    /// Asks for a connection to an agent. `retirement` is what the established
    /// connection, where there is one, reports of its retirement.
    ///
    /// The entry that stands for the agent is kept, unless it is that of an
    /// established connection that was retired: then, or where there is no
    /// entry, a new attempt is to be made, under an entry that was never used
    /// before. [`RequestedConnection::notify`] says whether to tell those who
    /// watch the store.
    pub fn request_connection(
        &mut self,
        key: Agent,
        retirement: Option<LoadError>,
        now: u64,
    ) -> (r: RequestedConnection)
        requires
            old(self).wf(),
            old(self)@.is_retired(key@, retirement) ==> old(self)@.leaves_room_to_retire(
                key@,
                old(self)@.held(old(self)@.entries[key@])->0->Connected_0.connected_at,
                now,
            ),
        ensures
            final(self).wf(),
            final(self)@ == old(self)@.after_request(key@, retirement, now),
            final(self)@.entry(key@) == Some(r.entry),
            r.restart_delay is Some ==> r.entry == old(self)@.entities.len(),
            r.restart_delay == (if old(self)@.is_retired(key@, retirement) {
                let connected_at = old(self)@.held(
                    old(self)@.entries[key@],
                )->0->Connected_0.connected_at;
                Some(old(self)@.after_retirement(key@, connected_at, now).delay(key@, now))
            } else if old(self)@.entries.contains_key(key@) {
                None
            } else {
                Some(old(self)@.delay(key@, now))
            }),
    {
        let ghost before = self@;
        if let Some(entry) = self.entry(&key) {
            let mut retired_at: Option<u64> = None;
            if let Some(AgentConnectionEntry::Connected(state)) = self.read_entry(entry) {
                if current_retirement(&state.connection, &retirement).is_some() {
                    retired_at = Some(state.connected_at);
                }
            }
            match retired_at {
                Some(connected_at) => {
                    self.record_retirement(&key, connected_at, now);
                    let _ = self.entries.remove(&key);
                    assert(self@ =~= before.after_retirement(key@, connected_at, now).without(key@));
                },
                None => {
                    return RequestedConnection { entry, restart_delay: None };
                },
            }
        }
        self.start(key, now)
    }

    /// Asks for a new connection to an agent in place of the one it has. An
    /// attempt that is under way is kept. [`RequestedConnection::notify`] says
    /// whether to tell those who watch the store.
    pub fn restart_connection(&mut self, key: Agent, now: u64) -> (r: RequestedConnection)
        requires
            old(self).wf(),
        ensures
            final(self).wf(),
            final(self)@ == old(self)@.after_restart(key@, now),
            final(self)@.entry(key@) == Some(r.entry),
            r.restart_delay is Some ==> r.entry == old(self)@.entities.len(),
            r.restart_delay == (if old(self)@.is_connecting(key@) {
                None
            } else {
                Some(old(self)@.delay(key@, now))
            }),
    {
        let ghost before = self@;
        if let Some(entry) = self.entry(&key) {
            if let Some(AgentConnectionEntry::Connecting { .. }) = self.read_entry(entry) {
                return RequestedConnection { entry, restart_delay: None };
            }
        }
        let _ = self.entries.remove(&key);
        assert(self@ =~= before.without(key@));
        self.request_connection(key, None, now)
    }

    fn is_current(&self, key: &Agent, entry: usize) -> (r: bool)
        requires
            self.wf(),
        ensures
            r == self@.is_current(key@, entry),
    {
        let held = self.read_entry(entry).is_some();
        match self.entry(key) {
            Some(current) => held && current == entry,
            None => !held,
        }
    }

    fn is_pending(&self, entry: usize) -> (r: bool)
        ensures
            r == (self@.held(entry) matches Some(AgentConnectionEntry::Connecting { .. })),
    {
        match self.read_entry(entry) {
            Some(AgentConnectionEntry::Connecting { .. }) => true,
            _ => false,
        }
    }

    fn set_entry(&mut self, entry: usize, value: AgentConnectionEntry) -> (r: bool)
        requires
            old(self).wf(),
        ensures
            final(self).wf(),
            final(self)@ == old(self)@.with_entry(entry, value),
            r == (old(self)@.held(entry) is Some),
    {
        if self.read_entry(entry).is_some() {
            self.entities[entry] = Some(value);
            true
        } else {
            false
        }
    }

    /// Takes note that the attempt of an entry succeeded.
    pub fn connected(&mut self, key: &Agent, entry: usize, state: AgentConnectedState) -> (r:
        StoreEffects)
        requires
            old(self).wf(),
        ensures
            final(self).wf(),
            final(self)@ == old(self)@.after_connected(key@, entry, state),
            r == old(self)@.outcome_effects(key@, entry),
    {
        if !self.is_current(key, entry) {
            return StoreEffects::none();
        }
        let mut notify_entry = false;
        if self.is_pending(entry) {
            notify_entry = self.set_entry(entry, AgentConnectionEntry::Connected(state));
        }
        StoreEffects { notify: true, notify_entry, emitted: None }
    }

    /// Takes note that the attempt of an entry failed.
    pub fn connect_failed(&mut self, key: &Agent, entry: usize, error: LoadError, now: u64) -> (r:
        StoreEffects)
        requires
            old(self).wf(),
            old(self)@.is_current(key@, entry) ==> old(self)@.leaves_room(key@, now),
        ensures
            final(self).wf(),
            final(self)@ == old(self)@.after_connect_error(key@, entry, error, now),
            r == old(self)@.outcome_effects(key@, entry),
    {
        if !self.is_current(key, entry) {
            return StoreEffects::none();
        }
        let mut notify_entry = false;
        if self.is_pending(entry) {
            notify_entry = self.set_entry(entry, AgentConnectionEntry::Error { error });
        }
        self.record_connection_failure(key, now);
        let _ = self.entries.remove(key);
        StoreEffects { notify: true, notify_entry, emitted: None }
    }

    /// Takes note that the connection of an entry, established at
    /// `connected_at`, was retired.
    pub fn retired(
        &mut self,
        key: &Agent,
        entry: usize,
        connected_at: u64,
        error: LoadError,
        now: u64,
    ) -> (r: StoreEffects)
        requires
            old(self).wf(),
            old(self)@.is_current(key@, entry) ==> old(self)@.leaves_room_to_retire(
                key@,
                connected_at,
                now,
            ),
        ensures
            final(self).wf(),
            final(self)@ == old(self)@.after_retired(key@, entry, connected_at, error, now),
            r == old(self)@.retired_effects(key@, entry),
    {
        if !self.is_current(key, entry) {
            return StoreEffects::none();
        }
        self.record_retirement(key, connected_at, now);
        let notify_entry = self.set_entry(entry, AgentConnectionEntry::Error { error });
        let _ = self.entries.remove(key);
        StoreEffects { notify: true, notify_entry, emitted: None }
    }

    /// Takes note of what was found about newer versions of the agent of an
    /// entry. Says whom to tell, and whether to go on looking for more.
    pub fn new_version(&mut self, key: &Agent, entry: usize, version: Option<String>) -> (r: (
        StoreEffects,
        bool,
    ))
        requires
            old(self).wf(),
        ensures
            final(self).wf(),
            final(self)@ == old(self)@.after_new_version(key@, entry, version),
            r.0 == old(self)@.new_version_effects(key@, entry, version),
            r.1 == version is None,
    {
        let version = match version {
            Some(version) => version,
            None => {
                return (StoreEffects::none(), true);
            },
        };
        if !self.is_current(key, entry) {
            return (StoreEffects::none(), false);
        }
        let emitted = if self.read_entry(entry).is_some() {
            Some(AgentConnectionEntryEvent::NewVersionAvailable(version))
        } else {
            None
        };
        let _ = self.entries.remove(key);
        (StoreEffects { notify: true, notify_entry: false, emitted }, false)
    }

    /// Takes note of how the agent of an entry is coming along.
    pub fn loading_status(&self, key: &Agent, entry: usize, status: Option<String>) -> (r:
        StoreEffects)
        requires
            self.wf(),
        ensures
            r == self@.loading_effects(key@, entry, status),
    {
        if !self.is_current(key, entry) {
            return StoreEffects::none();
        }
        let emitted = if self.read_entry(entry).is_some() {
            Some(AgentConnectionEntryEvent::LoadingStatusChanged(status))
        } else {
            None
        };
        StoreEffects { notify: true, notify_entry: false, emitted }
    }

    /// Takes note that nobody holds an entry any longer.
    pub fn release(&mut self, entry: usize)
        requires
            old(self).wf(),
            forall|key: AgentModel| #[trigger] old(self)@.entries.contains_key(key) ==> old(
                self,
            )@.entries[key] != entry,
        ensures
            final(self).wf(),
            final(self)@ == (if entry < old(self)@.entities.len() {
                StoreModel {
                    entities: old(self)@.entities.update(entry as int, None),
                    ..old(self)@
                }
            } else {
                old(self)@
            }),
    {
        if entry < self.entities.len() {
            self.entities[entry] = None;
        }
    }

    /// Drops the entries of the agents that are no longer configured, and
    /// tells those who watch the store.
    pub fn handle_agent_servers_updated(&mut self, external_agents: &Vec<String>) -> (r: StoreEffects)
        requires
            old(self).wf(),
        ensures
            final(self).wf(),
            final(self)@ == old(self)@.after_agents_updated(
                external_agents@.map_values(|id: String| id@).to_set(),
            ),
            r == (StoreEffects { notify: true, notify_entry: false, emitted: None }),
    {
        let ghost before = *self;
        let ghost configured = external_agents@.map_values(|id: String| id@).to_set();
        let mut kept: AssocMap<Agent, usize> = AssocMap::new();
        let n: usize = self.entries.len();
        let mut i: usize = 0;
        while i < n
            invariant
                self.wf(),
                *self == before,
                n == self.entries.keys().len(),
                i <= n,
                configured == external_agents@.map_values(|id: String| id@).to_set(),
                kept.wf(),
                forall|key: AgentModel| #[trigger]
                    kept@.contains_key(key) <==> self.entries.keys().take(i as int).contains(key)
                        && StoreModel::stays(key, configured),
                forall|key: AgentModel| #[trigger]
                    kept@.contains_key(key) ==> kept@[key] == self.entries@[key],
            decreases n - i,
        {
            let ghost seen = self.entries.keys().take(i as int);
            let ghost next = self.entries.keys().take(i + 1);
            let ghost prior = kept@;
            let key = self.entries.key_at(i);
            let entry: usize = *self.entries.value_at(i);
            let stays = agent_stays(key, external_agents);
            if stays {
                kept.insert(key.clone(), entry);
            }
            proof {
                assert(next =~= seen.push(key@));
                assert forall|k: AgentModel| #[trigger] kept@.contains_key(k) <==> next.contains(k)
                    && StoreModel::stays(k, configured) by {
                    assert(prior.contains_key(k) <==> seen.contains(k) && StoreModel::stays(
                        k,
                        configured,
                    ));
                    if next.contains(k) && k != key@ {
                        let j = choose|j: int| 0 <= j < next.len() && next[j] == k;
                        assert(seen[j] == k);
                    }
                    if seen.contains(k) {
                        let j = choose|j: int| 0 <= j < seen.len() && seen[j] == k;
                        assert(next[j] == k);
                    }
                    assert(next[i as int] == key@);
                }
            }
            i = i + 1;
        }
        proof {
            self.entries.keys_are_the_domain();
            assert(self.entries.keys().take(n as int) =~= self.entries.keys());
            assert forall|key: AgentModel| self.entries.keys().contains(key)
                == self.entries@.contains_key(key) by {
                assert(self.entries.keys().to_set().contains(key) == self.entries@.dom().contains(
                    key,
                ));
            }
            assert(kept@ =~= before@.after_agents_updated(configured).entries);
        }
        self.entries = kept;
        StoreEffects { notify: true, notify_entry: false, emitted: None }
    }
}

/// Whether an agent stays when only these agents are configured.
fn agent_stays(key: &Agent, external_agents: &Vec<String>) -> (r: bool)
    ensures
        r == StoreModel::stays(key@, external_agents@.map_values(|id: String| id@).to_set()),
{
    let ghost ids = external_agents@.map_values(|id: String| id@);
    match key {
        Agent::NativeAgent => true,
        Agent::Custom { id } => {
            let mut i: usize = 0;
            while i < external_agents.len()
                invariant
                    key@ == AgentModel::Custom(id@),
                    ids == external_agents@.map_values(|id: String| id@),
                    i <= external_agents@.len(),
                    forall|j: int| 0 <= j < i ==> ids[j] != id@,
                decreases external_agents@.len() - i,
            {
                if external_agents[i] == *id {
                    assert(ids[i as int] == id@);
                    assert(ids.to_set().contains(id@));
                    return true;
                }
                i = i + 1;
            }
            assert(!ids.contains(id@));
            false
        },
    }
}

/// How long a restart is delayed after this many failures in a row.
fn failure_delay(failures: u32) -> (r: u64)
    ensures
        r == delay_after(failures as nat),
{
    proof {
        delay_is_capped(failures as nat);
        reveal_with_fuel(delay_after, 2);
    }
    match failures {
        0 => INITIAL_RESTART_DELAY,
        1 => INITIAL_RESTART_DELAY,
        2 => INITIAL_RESTART_DELAY * 2,
        3 => INITIAL_RESTART_DELAY * 4,
        4 => INITIAL_RESTART_DELAY * 8,
        5 => INITIAL_RESTART_DELAY * 16,
        _ => MAX_RESTART_DELAY,
    }
}

/// News about an entry that does not stand for the agent, because another one
/// does or because it was taken away, change nothing, and nobody is told of
/// them.
pub proof fn superseded_entry_is_ignored(
    m: StoreModel,
    key: AgentModel,
    entry: usize,
    state: AgentConnectedState,
    connected_at: u64,
    error: LoadError,
    version: Option<String>,
    status: Option<String>,
    now: u64,
)
    requires
        m.held(entry) is Some || m.entry(key) is Some,
        m.entry(key) != Some(entry),
    ensures
        m.after_connected(key, entry, state) == m,
        m.after_connect_error(key, entry, error, now) == m,
        m.outcome_effects(key, entry) == no_effects(),
        m.after_retired(key, entry, connected_at, error, now) == m,
        m.retired_effects(key, entry) == no_effects(),
        m.after_new_version(key, entry, version) == m,
        m.new_version_effects(key, entry, version) == no_effects(),
        m.loading_effects(key, entry, status) == no_effects(),
{
}

/// The first delay doubled this many times, or the longest delay where that is
/// shorter.
pub open spec fn doubled_delay(times: nat) -> int {
    let doubled = INITIAL_RESTART_DELAY * vstd::arithmetic::power2::pow2(times);
    if doubled < MAX_RESTART_DELAY {
        doubled
    } else {
        MAX_RESTART_DELAY as int
    }
}

/// The delay after a number of failures in a row is the first delay, doubled
/// once for each failure but the first, and never above the longest delay.
pub proof fn delay_doubles_up_to_the_longest(failures: nat)
    requires
        failures >= 1,
    ensures
        delay_after(failures) == doubled_delay((failures - 1) as nat),
    decreases failures,
{
    if failures == 1 {
        vstd::arithmetic::power2::lemma2_to64();
    } else {
        delay_doubles_up_to_the_longest((failures - 1) as nat);
        vstd::arithmetic::power2::lemma_pow2_unfold((failures - 1) as nat);
    }
}

/// A failure counts as one more in a row, as long as it can be counted, and no
/// restart is made before the delay that their number calls for has passed.
/// That delay is the first one doubled for each further failure, it lies
/// between the shortest and the longest one, and it is never shorter than that
/// of fewer failures. Entries, and the failures of other agents, stay as they
/// are.
pub proof fn failure_counts_and_delays(m: StoreModel, key: AgentModel, now: u64, fewer: nat)
    requires
        m.leaves_room(key, now),
    ensures
        ({
            let after = m.after_failure(key, now);
            let n = after.failures(key) as nat;
            let delay = delay_after(n);
            &&& n == if m.failures(key) < u32::MAX {
                m.failures(key) + 1
            } else {
                u32::MAX as int
            }
            &&& after.backoffs.contains_key(key)
            &&& after.backoffs[key].retry_at matches Some(retry_at)
            &&& retry_at == now + delay
            &&& delay == doubled_delay((n - 1) as nat)
            &&& INITIAL_RESTART_DELAY <= delay <= MAX_RESTART_DELAY
            &&& fewer <= n ==> delay_after(fewer) <= delay
            &&& after.project == m.project
            &&& after.entries == m.entries
            &&& after.entities == m.entities
            &&& after.backoffs.remove(key) == m.backoffs.remove(key)
        }),
{
    let n = m.after_failure(key, now).failures(key) as nat;
    delay_grows_within_bounds(n, n);
    if fewer <= n {
        delay_grows_within_bounds(fewer, n);
    }
    delay_doubles_up_to_the_longest(n);
}

/// After a failure, a restart asked for at any later time is delayed exactly
/// until the delay that the failures in a row call for has passed.
pub proof fn failure_delays_the_restart(m: StoreModel, key: AgentModel, now: u64, later: u64)
    requires
        m.leaves_room(key, now),
        now <= later,
    ensures
        m.after_failure(key, now).failures(key) == one_more_failure(m.failures(key)),
        m.after_failure(key, now).delay(key, later) == (if later - now < delay_after(
            one_more_failure(m.failures(key)) as nat,
        ) {
            delay_after(one_more_failure(m.failures(key)) as nat) - (later - now)
        } else {
            0
        }),
{
    let n = one_more_failure(m.failures(key)) as nat;
    delay_grows_within_bounds(n, n);
}

/// Asking how long a restart is to be delayed gives the time that is left, and
/// nothing where none is. It forgets a time that has passed and changes nothing
/// else, in particular no count of failures. Asked again at the same time, the
/// answer is the same.
pub proof fn delay_is_the_time_left(m: StoreModel, key: AgentModel, other: AgentModel, now: u64)
    ensures
        ({
            let after = m.after_delay(key, now);
            let retry_at = if m.backoffs.contains_key(key) {
                m.backoffs[key].retry_at
            } else {
                None
            };
            &&& m.delay(key, now) == (match retry_at {
                Some(t) => if t > now {
                    t - now
                } else {
                    0
                },
                None => 0,
            })
            &&& after.failures(other) == m.failures(other)
            &&& after.backoffs.dom() == m.backoffs.dom()
            &&& m.backoffs.contains_key(key) ==> after.backoffs[key].retry_at == (match retry_at {
                Some(t) if t <= now => None,
                _ => retry_at,
            })
            &&& after.backoffs.remove(key) == m.backoffs.remove(key)
            &&& after.project == m.project
            &&& after.entries == m.entries
            &&& after.entities == m.entities
            &&& after.delay(key, now) == m.delay(key, now)
            &&& after.after_delay(key, now) == after
        }),
{
    assert(m.after_delay(key, now).backoffs.dom() =~= m.backoffs.dom());
    assert(m.after_delay(key, now).backoffs.remove(key) =~= m.backoffs.remove(key));
}

/// As long as the clock does not go back, no restart is ever delayed for
/// longer than the longest delay. A new store delays nothing, and what happens
/// to a store at a later time leaves all of its delays bounded from that time
/// on.
pub proof fn delays_stay_bounded(
    m: StoreModel,
    time: u64,
    now: u64,
    key: AgentModel,
    entry: usize,
    state: AgentConnectedState,
    retirement: Option<LoadError>,
    connected_at: u64,
    error: LoadError,
    version: Option<String>,
    configured: Set<Seq<char>>,
)
    requires
        m.delays_end_after(time),
        time <= now,
        m.leaves_room(key, now),
    ensures
        m.delay(key, now) <= MAX_RESTART_DELAY,
        m.delays_end_after(now),
        m.after_request(key, retirement, now).delays_end_after(now),
        m.after_restart(key, now).delays_end_after(now),
        m.after_connected(key, entry, state).delays_end_after(now),
        m.after_connect_error(key, entry, error, now).delays_end_after(now),
        m.after_retired(key, entry, connected_at, error, now).delays_end_after(now),
        m.after_new_version(key, entry, version).delays_end_after(now),
        m.after_agents_updated(configured).delays_end_after(now),
{
    let n = one_more_failure(m.failures(key)) as nat;
    delay_grows_within_bounds(n, n);
    assert(m.after_failure(key, now).delays_end_after(now));
    assert(m.after_retirement(key, connected_at, now).delays_end_after(now));
    if m.is_retired(key, retirement) {
        let connected_at = m.held(m.entries[key])->0->Connected_0.connected_at;
        assert(m.after_retirement(key, connected_at, now).delays_end_after(now));
    }
}

/// A failed attempt, or a retirement, leaves no entry for the agent: the next
/// request makes a new attempt.
pub proof fn failure_makes_room_for_a_new_attempt(
    m: StoreModel,
    key: AgentModel,
    entry: usize,
    connected_at: u64,
    error: LoadError,
    now: u64,
)
    requires
        m.wf(),
        m.entries.contains_key(key),
        m.entries[key] == entry,
    ensures
        m.after_connect_error(key, entry, error, now).entry(key) is None,
        m.after_connect_error(key, entry, error, now).failures(key) == m.after_failure(
            key,
            now,
        ).failures(key),
        m.after_retired(key, entry, connected_at, error, now).entry(key) is None,
        m.after_retired(key, entry, connected_at, error, now).held(entry) == Some(
            AgentConnectionEntry::Error { error },
        ),
        m.after_retired(key, entry, connected_at, error, now).failures(key) == m.after_retirement(
            key,
            connected_at,
            now,
        ).failures(key),
{
}

/// A connection that held long enough before it was retired clears the
/// failures of its agent: the next restart is not delayed, and the next failure
/// counts as the first. Any other connection, one that was retired before it
/// was established as the clock has it among them, counts as one more failure.
/// Entries, and the failures of other agents, stay as they are.
pub proof fn retirement_clears_or_counts(
    m: StoreModel,
    key: AgentModel,
    connected_at: u64,
    now: u64,
    later: u64,
)
    ensures
        ({
            let after = m.after_retirement(key, connected_at, now);
            &&& now - connected_at >= STABLE_CONNECTION_DURATION ==> {
                &&& !after.backoffs.contains_key(key)
                &&& after.failures(key) == 0
                &&& after.delay(key, later) == 0
                &&& after.after_failure(key, later).failures(key) == 1
            }
            &&& now - connected_at < STABLE_CONNECTION_DURATION ==> after == m.after_failure(
                key,
                now,
            )
            &&& after.project == m.project
            &&& after.entries == m.entries
            &&& after.entities == m.entities
            &&& after.backoffs.remove(key) == m.backoffs.remove(key)
        }),
{
}

/// A connection that is established and soon after retired, whether the agent
/// crashed or not, counts as one more failure: its entry is gone, and a new
/// attempt is delayed by what the failures in a row call for.
pub proof fn crashed_connection_is_replaced_after_a_delay(
    m: StoreModel,
    key: AgentModel,
    requested: u64,
    state: AgentConnectedState,
    error: LoadError,
    now: u64,
    later: u64,
)
    requires
        m.wf(),
        !m.entries.contains_key(key),
        m.entities.len() < usize::MAX,
        now - state.connected_at < STABLE_CONNECTION_DURATION,
        now <= later,
        m.leaves_room(key, now),
    ensures
        ({
            let entry = m.entities.len() as usize;
            let connected = m.after_request(key, None, requested).after_connected(
                key,
                entry,
                state,
            );
            let retired = connected.after_retired(key, entry, state.connected_at, error, now);
            let again = retired.after_request(key, None, later);
            &&& connected.held(entry) == Some(AgentConnectionEntry::Connected(state))
            &&& connected.entry(key) == Some(entry)
            &&& retired.entry(key) is None
            &&& retired.failures(key) == one_more_failure(m.failures(key))
            &&& retired.delay(key, later) == (if later - now < delay_after(
                one_more_failure(m.failures(key)) as nat,
            ) {
                delay_after(one_more_failure(m.failures(key)) as nat) - (later - now)
            } else {
                0
            })
            &&& again.entry(key) is Some
            &&& again.entry(key) != Some(entry)
        }),
{
    let entry = m.entities.len() as usize;
    let connected = m.after_request(key, None, requested).after_connected(key, entry, state);
    failure_delays_the_restart(connected, key, now, later);
}

/// The store after an agent failed at each of these times.
pub open spec fn after_failures(m: StoreModel, key: AgentModel, times: Seq<u64>) -> StoreModel
    decreases times.len(),
{
    if times.len() == 0 {
        m
    } else {
        after_failures(m, key, times.drop_last()).after_failure(key, times.last())
    }
}

/// In a crash loop the failures add up, as far as they can be counted, and each
/// delays the next restart by what their number calls for.
pub proof fn crash_loop_backs_off(m: StoreModel, key: AgentModel, times: Seq<u64>)
    requires
        forall|i: int| 0 <= i < times.len() ==> #[trigger] times[i] <= u64::MAX - MAX_RESTART_DELAY,
    ensures
        ({
            let after = after_failures(m, key, times);
            &&& after.failures(key) == if m.failures(key) + times.len() <= u32::MAX {
                m.failures(key) + times.len()
            } else {
                u32::MAX as int
            }
            &&& times.len() > 0 ==> after.delay(key, times.last()) == delay_after(
                after.failures(key) as nat,
            )
        }),
    decreases times.len(),
{
    if times.len() > 0 {
        assert forall|i: int| 0 <= i < times.drop_last().len() implies #[trigger] times.drop_last()[i]
            <= u64::MAX - MAX_RESTART_DELAY by {
            assert(times.drop_last()[i] == times[i]);
        }
        let before = after_failures(m, key, times.drop_last());
        crash_loop_backs_off(m, key, times.drop_last());
        failure_delays_the_restart(before, key, times.last(), times.last());
        delay_grows_within_bounds(
            one_more_failure(before.failures(key)) as nat,
            one_more_failure(before.failures(key)) as nat,
        );
    }
}

/// Asking for a connection, and establishing it, leave the count of failures
/// as it is, unless a retired connection is found.
pub proof fn attempts_keep_the_failures(
    m: StoreModel,
    key: AgentModel,
    entry: usize,
    state: AgentConnectedState,
    retirement: Option<LoadError>,
    now: u64,
)
    requires
        !m.is_retired(key, retirement),
    ensures
        m.after_request(key, retirement, now).failures(key) == m.failures(key),
        m.after_restart(key, now).failures(key) == m.failures(key),
        m.after_connected(key, entry, state).failures(key) == m.failures(key),
{
}

/// Whether two states of the store agree on an agent: on its entry, on what
/// that holds, and on its failures.
pub open spec fn same_for(a: StoreModel, b: StoreModel, other: AgentModel) -> bool {
    &&& a.entry(other) == b.entry(other)
    &&& a.entry(other) matches Some(entry) ==> a.held(entry) == b.held(entry)
    &&& a.backoffs.contains_key(other) == b.backoffs.contains_key(other)
    &&& a.backoffs.contains_key(other) ==> a.backoffs[other] == b.backoffs[other]
}

/// What happens to one agent leaves every other agent as it is.
pub proof fn other_agents_are_left_alone(
    m: StoreModel,
    key: AgentModel,
    other: AgentModel,
    entry: usize,
    state: AgentConnectedState,
    retirement: Option<LoadError>,
    connected_at: u64,
    error: LoadError,
    version: Option<String>,
    now: u64,
)
    requires
        m.wf(),
        other != key,
    ensures
        same_for(m, m.after_request(key, retirement, now), other),
        same_for(m, m.after_restart(key, now), other),
        same_for(m, m.after_connected(key, entry, state), other),
        same_for(m, m.after_connect_error(key, entry, error, now), other),
        same_for(m, m.after_retired(key, entry, connected_at, error, now), other),
        same_for(m, m.after_new_version(key, entry, version), other),
{
}

/// The entry that stands for an agent is not replaced while its attempt is
/// under way, whoever asks for a connection or a restart.
pub proof fn attempt_under_way_is_kept(
    m: StoreModel,
    key: AgentModel,
    retirement: Option<LoadError>,
    now: u64,
)
    requires
        m.is_connecting(key),
    ensures
        m.after_request(key, retirement, now) == m,
        m.after_restart(key, now) == m,
{
}

/// Whether a store went from one state to another by beginning a new attempt
/// for an agent: the agent has a new entry, behind all that were ever made,
/// which is connecting, and every other entry is what it was.
pub open spec fn attempt_was_begun(before: StoreModel, after: StoreModel, key: AgentModel) -> bool {
    let entry = before.entities.len() as usize;
    &&& after.project == before.project
    &&& after.entries == before.entries.insert(key, entry)
    &&& after.entities == before.entities.push(
        Some(AgentConnectionEntry::Connecting { connect_task: entry }),
    )
    &&& after.backoffs.remove(key) == before.backoffs.remove(key)
}

/// A newer version of the agent that an entry stands for takes the entry away,
/// whatever it holds, and nothing else: the next request makes a new attempt
/// under a new entry. Those who watch the store, and those who listen to the
/// entry, are told. As long as there is none, nothing happens.
pub proof fn newer_version_is_connected_to_anew(
    m: StoreModel,
    key: AgentModel,
    entry: usize,
    version: String,
    retirement: Option<LoadError>,
    now: u64,
)
    requires
        m.wf(),
        m.entry(key) == Some(entry),
    ensures
        ({
            let after = m.after_new_version(key, entry, Some(version));
            let effects = m.new_version_effects(key, entry, Some(version));
            &&& after.entry(key) is None
            &&& after.entries == m.entries.remove(key)
            &&& after.entities == m.entities
            &&& after.backoffs == m.backoffs
            &&& after.project == m.project
            &&& attempt_was_begun(after, after.after_request(key, retirement, now), key)
            &&& after.after_request(key, retirement, now).entry(key) != Some(entry)
            &&& effects.notify
            &&& !effects.notify_entry
            &&& effects.emitted == Some(AgentConnectionEntryEvent::NewVersionAvailable(version))
        }),
        m.after_new_version(key, entry, None) == m,
        m.new_version_effects(key, entry, None) == (StoreEffects {
            notify: false,
            notify_entry: false,
            emitted: None,
        }),
{
    let after = m.after_new_version(key, entry, Some(version));
    assert(after.after_request(key, retirement, now).backoffs.remove(key)
        =~= after.backoffs.remove(key));
}

/// A request begins a new attempt exactly where no entry stands for the agent,
/// or where the one that does is an established connection that reports that it
/// was retired. Everywhere else it changes nothing.
pub proof fn request_begins_an_attempt_where_there_is_none(
    m: StoreModel,
    key: AgentModel,
    retirement: Option<LoadError>,
    now: u64,
)
    requires
        m.wf(),
    ensures
        ({
            let after = m.after_request(key, retirement, now);
            let retired = m.entries.contains_key(key) && retirement is Some && (
            m.entities[m.entries[key] as int] matches Some(AgentConnectionEntry::Connected(state))
                && state.connection.reports_retirement);
            &&& !m.entries.contains_key(key) || retired ==> attempt_was_begun(m, after, key)
            &&& m.entries.contains_key(key) && !retired ==> after == m
            &&& !m.entries.contains_key(key) ==> after.failures(key) == m.failures(key)
            &&& retired ==> after.failures(key) == m.after_retirement(
                key,
                m.entities[m.entries[key] as int]->0->Connected_0.connected_at,
                now,
            ).failures(key)
            &&& retired == m.is_retired(key, retirement)
        }),
{
    let after = m.after_request(key, retirement, now);
    assert(after.backoffs.remove(key) =~= m.backoffs.remove(key));
    assert(after.entries =~= m.entries.insert(key, m.entities.len() as usize)
        || after.entries =~= m.entries);
}

/// A restart begins a new attempt in place of whatever stands for the agent,
/// unless that is an attempt that is under way. It counts no failure.
pub proof fn restart_begins_an_attempt_unless_one_is_under_way(
    m: StoreModel,
    key: AgentModel,
    now: u64,
)
    requires
        m.wf(),
    ensures
        ({
            let after = m.after_restart(key, now);
            let connecting = m.entries.contains_key(key) && (
            m.entities[m.entries[key] as int] matches Some(AgentConnectionEntry::Connecting { .. }));
            &&& connecting ==> after == m
            &&& !connecting ==> attempt_was_begun(m, after, key)
            &&& after.failures(key) == m.failures(key)
        }),
{
    let after = m.after_restart(key, now);
    assert(after.backoffs.remove(key) =~= m.backoffs.remove(key));
    assert(m.entries.remove(key).insert(key, m.entities.len() as usize) =~= m.entries.insert(
        key,
        m.entities.len() as usize,
    ));
}

/// An attempt that succeeds makes its entry an established connection, and an
/// entry that is no attempt any more is left as it is. Nothing else changes.
/// Those who watch the store are told in either case.
pub proof fn attempt_that_succeeds_is_established(
    m: StoreModel,
    key: AgentModel,
    entry: usize,
    state: AgentConnectedState,
)
    requires
        m.wf(),
        m.entry(key) == Some(entry),
    ensures
        ({
            let after = m.after_connected(key, entry, state);
            let effects = m.outcome_effects(key, entry);
            let connecting = m.entities[entry as int] matches Some(
                AgentConnectionEntry::Connecting { .. },
            );
            &&& after.entries == m.entries
            &&& after.backoffs == m.backoffs
            &&& after.project == m.project
            &&& connecting ==> after.entities == m.entities.update(
                entry as int,
                Some(AgentConnectionEntry::Connected(state)),
            )
            &&& !connecting ==> after.entities == m.entities
            &&& effects.notify
            &&& effects.notify_entry == connecting
            &&& effects.emitted is None
        }),
{
}

/// An attempt that fails takes its entry away from the agent, counts as one more
/// failure, and leaves the error in the entry, for those who wait for it.
pub proof fn attempt_that_fails_is_taken_away(
    m: StoreModel,
    key: AgentModel,
    entry: usize,
    error: LoadError,
    now: u64,
)
    requires
        m.wf(),
        m.entry(key) == Some(entry),
        m.leaves_room(key, now),
    ensures
        ({
            let after = m.after_connect_error(key, entry, error, now);
            let connecting = m.entities[entry as int] matches Some(
                AgentConnectionEntry::Connecting { .. },
            );
            &&& after.entries == m.entries.remove(key)
            &&& after.project == m.project
            &&& connecting ==> after.entities == m.entities.update(
                entry as int,
                Some(AgentConnectionEntry::Error { error }),
            )
            &&& !connecting ==> after.entities == m.entities
            &&& after.backoffs == m.after_failure(key, now).backoffs
            &&& m.failures(key) < u32::MAX ==> after.failures(key) == m.failures(key) + 1
            &&& after.delay(key, now) > 0
            &&& after.backoffs.remove(key) == m.backoffs.remove(key)
        }),
{
    failure_counts_and_delays(m, key, now, 0);
    let after = m.after_connect_error(key, entry, error, now);
    assert(after.backoffs.remove(key) =~= m.backoffs.remove(key));
}

/// A connection that is retired is taken away from its agent, with the reason
/// left in its entry, whatever the entry held. One that did not hold thirty
/// seconds counts as a failure.
pub proof fn retired_connection_is_taken_away(
    m: StoreModel,
    key: AgentModel,
    entry: usize,
    connected_at: u64,
    error: LoadError,
    now: u64,
)
    requires
        m.wf(),
        m.entry(key) == Some(entry),
        m.leaves_room(key, now),
    ensures
        ({
            let after = m.after_retired(key, entry, connected_at, error, now);
            let effects = m.retired_effects(key, entry);
            &&& after.entries == m.entries.remove(key)
            &&& after.project == m.project
            &&& after.entities == m.entities.update(
                entry as int,
                Some(AgentConnectionEntry::Error { error }),
            )
            &&& now - connected_at >= 30_000_000_000 ==> after.backoffs == m.backoffs.remove(key)
                && after.failures(key) == 0 && after.delay(key, now) == 0
            &&& now - connected_at < 30_000_000_000 ==> after.backoffs == m.after_failure(
                key,
                now,
            ).backoffs && after.delay(key, now) > 0 && (m.failures(key) < u32::MAX
                ==> after.failures(key) == m.failures(key) + 1)
            &&& effects.notify
            &&& effects.notify_entry
            &&& effects.emitted is None
        }),
{
    failure_counts_and_delays(m, key, now, 0);
}

/// How an agent is coming along is passed on to those who listen to its entry,
/// and those who watch the store are told.
pub proof fn loading_status_is_passed_on(
    m: StoreModel,
    key: AgentModel,
    entry: usize,
    status: Option<String>,
)
    requires
        m.wf(),
        m.entry(key) == Some(entry),
    ensures
        m.loading_effects(key, entry, status) == (StoreEffects {
            notify: true,
            notify_entry: false,
            emitted: Some(AgentConnectionEntryEvent::LoadingStatusChanged(status)),
        }),
{
}

/// News of an entry that nobody holds any more still count where nothing stands
/// for the agent: those who watch the store are told, a failure and a
/// retirement are counted, and no entry changes.
pub proof fn news_of_a_gone_entry_are_counted(
    m: StoreModel,
    key: AgentModel,
    entry: usize,
    state: AgentConnectedState,
    connected_at: u64,
    error: LoadError,
    now: u64,
)
    requires
        m.held(entry) is None,
        m.entry(key) is None,
    ensures
        m.after_connected(key, entry, state) == m,
        m.after_connect_error(key, entry, error, now) == m.after_failure(key, now),
        m.after_retired(key, entry, connected_at, error, now) == m.after_retirement(
            key,
            connected_at,
            now,
        ),
        m.outcome_effects(key, entry) == (StoreEffects {
            notify: true,
            notify_entry: false,
            emitted: None,
        }),
        m.retired_effects(key, entry) == (StoreEffects {
            notify: true,
            notify_entry: false,
            emitted: None,
        }),
{
    assert(m.after_connect_error(key, entry, error, now) =~= m.after_failure(key, now));
    assert(m.after_retired(key, entry, connected_at, error, now) =~= m.after_retirement(
        key,
        connected_at,
        now,
    ));
}

/// Where the configured agents change, the entries of those that are not
/// configured any more are dropped, and all others are kept: the agent that is
/// built in in any case. Nothing else changes.
pub proof fn configured_agents_keep_their_entries(
    m: StoreModel,
    configured: Set<Seq<char>>,
    id: Seq<char>,
)
    ensures
        ({
            let after = m.after_agents_updated(configured);
            &&& after.entry(AgentModel::NativeAgent) == m.entry(AgentModel::NativeAgent)
            &&& configured.contains(id) ==> after.entry(AgentModel::Custom(id)) == m.entry(
                AgentModel::Custom(id),
            )
            &&& !configured.contains(id) ==> after.entry(AgentModel::Custom(id)) is None
            &&& after.entities == m.entities
            &&& after.backoffs == m.backoffs
            &&& after.project == m.project
        }),
{
}

/// A connection counts as active exactly where the entry that stands for its
/// agent is established and speaks the protocol, and is given with the
/// identifier that its agent goes by.
pub proof fn active_connections_are_established(m: StoreModel, key: AgentModel)
    requires
        m.wf(),
    ensures
        ({
            let established = m.entries.contains_key(key) && (
            m.entities[m.entries[key] as int] matches Some(AgentConnectionEntry::Connected(state))
                && state.connection.is_acp);
            &&& m.active(key) is Some == established
            &&& established ==> {
                let connection = m.entities[m.entries[key] as int]->0->Connected_0.connection;
                &&& m.active(key)->0.agent_id == connection.agent_id
                &&& m.active(key)->0.connection == connection.handle
            }
        }),
{
}

/// An entry is found as long as anybody holds it, and stands for its agent as
/// long as it is the one under the agent's name.
pub proof fn entries_are_found_where_they_are_held(m: StoreModel, key: AgentModel, entry: usize)
    requires
        m.wf(),
    ensures
        m.entries.contains_key(key) ==> m.entry(key) == Some(m.entries[key]) && m.held(
            m.entries[key],
        ) is Some,
        !m.entries.contains_key(key) ==> m.entry(key) is None,
        entry < m.entities.len() ==> m.held(entry) == m.entities[entry as int],
        entry >= m.entities.len() ==> m.held(entry) is None,
        m.entry(key) == Some(entry) ==> m.is_current(key, entry),
{
}

/// The status of a connection follows from how far it has come: one that failed
/// is shown as disconnected.
pub proof fn status_follows_from_the_entry(
    connect_task: usize,
    state: AgentConnectedState,
    error: LoadError,
)
    ensures
        entry_status(AgentConnectionEntry::Connecting { connect_task }) is Connecting,
        entry_status(AgentConnectionEntry::Connected(state)) is Connected,
        entry_status(AgentConnectionEntry::Error { error }) is Disconnected,
{
}

/// The delays are those of one second, doubled up to thirty.
pub proof fn delays_go_from_one_second_to_thirty(failures: nat)
    ensures
        1_000_000_000 <= delay_after(failures) <= 30_000_000_000,
        delay_after(1) == 1_000_000_000,
        1 <= failures <= 4 ==> delay_after(failures + 1) == 2 * delay_after(failures),
        failures >= 6 ==> delay_after(failures) == 30_000_000_000,
{
    delay_is_capped(failures);
    delay_is_capped((failures + 1) as nat);
    delay_grows_within_bounds(failures, failures);
}

/// Agents are told apart by their identifiers, and the one that is built in from
/// all others.
pub proof fn agents_are_told_apart_by_identifier(a: String, b: String)
    ensures
        ((Agent::Custom { id: a })@ == (Agent::Custom { id: b })@) == (a@ == b@),
        (Agent::Custom { id: a })@ != Agent::NativeAgent@,
        (Agent::Custom { id: a })@ == AgentModel::Custom(a@),
        Agent::NativeAgent@ == AgentModel::NativeAgent,
{
}

/// Where the clock can count the longest delay on, there is room for any
/// failure. A connection that held for half a minute needs none.
pub proof fn longest_delay_is_room_enough(
    m: StoreModel,
    key: AgentModel,
    connected_at: u64,
    now: u64,
)
    ensures
        now + 30_000_000_000 <= u64::MAX ==> m.leaves_room(key, now),
        now + 30_000_000_000 <= u64::MAX ==> m.leaves_room_to_retire(key, connected_at, now),
        now >= connected_at + 30_000_000_000 ==> m.leaves_room_to_retire(key, connected_at, now),
        m.leaves_room(key, now) == (now + delay_after(one_more_failure(m.failures(key)) as nat)
            <= u64::MAX),
{
    let failures = one_more_failure(m.failures(key)) as nat;
    delay_grows_within_bounds(failures, failures);
}

} // verus!
