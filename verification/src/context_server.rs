//! Context servers as their store presents them, and how a server that is to
//! answer a request is found, starting it again where it has failed.
//!
//! Times are in nanoseconds, counted from any fixed instant.

use vstd::prelude::*;

verus! {

/// How long a server may take to start again.
pub const CONTEXT_SERVER_RESTART_TIMEOUT: u64 = 30_000_000_000;

/// How often a server that is starting is looked at again.
pub const CONTEXT_SERVER_RESTART_POLL_INTERVAL: u64 = 10_000_000;

/// The status of a server.
#[derive(Debug, PartialEq, Eq)]
pub enum ContextServerStatus {
    Starting,
    Running,
    Stopped,
    /// It failed, with this message.
    Error(String),
    AuthRequired,
    ClientSecretRequired,
    Authenticating,
}

/// Why no running server was found.
#[derive(Debug, PartialEq, Eq)]
pub enum ServerSearchError {
    /// There is no such server.
    NotFound,
    /// It was stopped to begin with.
    IsStopped,
    /// It was stopped while it was being waited for.
    Stopped,
    /// It waits for the user to authenticate.
    AuthenticationRequired,
    /// Its status is that of a running server, but it cannot be had.
    Unavailable,
    /// It could not be asked to start again.
    CannotRestart(String),
    /// It failed again.
    FailedToRestart(String),
    /// It took too long.
    TimedOut,
}

/// The message that an error is reported with.
pub open spec fn error_message(error: ServerSearchError) -> Seq<char> {
    match error {
        ServerSearchError::NotFound => "Context server not found"@,
        ServerSearchError::IsStopped => "Context server is stopped"@,
        ServerSearchError::Stopped => "Context server stopped"@,
        ServerSearchError::AuthenticationRequired => "Context server requires authentication"@,
        ServerSearchError::Unavailable => "Context server is marked running but is unavailable"@,
        ServerSearchError::CannotRestart(message) => message@,
        ServerSearchError::FailedToRestart(message) => "Context server failed to restart: "@
            + message@,
        ServerSearchError::TimedOut => "Timed out restarting context server"@,
    }
}

impl ServerSearchError {
    /// The message to report the error with.
    pub fn message(&self) -> (r: String)
        ensures
            r@ == error_message(*self),
    {
        match self {
            ServerSearchError::NotFound => "Context server not found".to_owned(),
            ServerSearchError::IsStopped => "Context server is stopped".to_owned(),
            ServerSearchError::Stopped => "Context server stopped".to_owned(),
            ServerSearchError::AuthenticationRequired => "Context server requires authentication".to_owned(),
            ServerSearchError::Unavailable => "Context server is marked running but is unavailable".to_owned(),
            ServerSearchError::CannotRestart(message) => message.clone(),
            ServerSearchError::FailedToRestart(message) => {
                let mut out = "Context server failed to restart: ".to_owned();
                out.append(message.as_str());
                out
            },
            ServerSearchError::TimedOut => "Timed out restarting context server".to_owned(),
        }
    }
}

/// How to go on looking for a running server.
#[derive(Debug, PartialEq, Eq)]
pub enum ServerSearch {
    /// It is there.
    Found,
    /// It failed: ask the store to start it again.
    Restart,
    /// Look at it again and again, up to a deadline.
    Poll,
    /// Wait this long, then look at it again.
    Wait(u64),
    /// There is none.
    Fail(ServerSearchError),
}

/// How the search for a server begins, from its status and from whether it can
/// be had.
pub open spec fn search_begins(status: Option<ContextServerStatus>, available: bool) -> ServerSearch {
    match status {
        Some(ContextServerStatus::Running) => if available {
            ServerSearch::Found
        } else {
            ServerSearch::Fail(ServerSearchError::Unavailable)
        },
        Some(ContextServerStatus::Error(_)) => ServerSearch::Restart,
        Some(ContextServerStatus::Starting) => ServerSearch::Poll,
        Some(ContextServerStatus::Stopped) => ServerSearch::Fail(ServerSearchError::IsStopped),
        Some(_) => ServerSearch::Fail(ServerSearchError::AuthenticationRequired),
        None => ServerSearch::Fail(ServerSearchError::NotFound),
    }
}

/// How the search goes on each time the server is looked at.
pub open spec fn search_goes_on(
    status: Option<ContextServerStatus>,
    available: bool,
    now: u64,
    deadline: u64,
) -> ServerSearch {
    if available {
        ServerSearch::Found
    } else {
        match status {
            Some(ContextServerStatus::Starting) => if now >= deadline {
                ServerSearch::Fail(ServerSearchError::TimedOut)
            } else {
                ServerSearch::Wait(CONTEXT_SERVER_RESTART_POLL_INTERVAL)
            },
            Some(ContextServerStatus::Error(error)) => ServerSearch::Fail(
                ServerSearchError::FailedToRestart(error),
            ),
            Some(ContextServerStatus::Stopped) => ServerSearch::Fail(ServerSearchError::Stopped),
            Some(ContextServerStatus::Running) => ServerSearch::Fail(
                ServerSearchError::Unavailable,
            ),
            Some(_) => ServerSearch::Fail(ServerSearchError::AuthenticationRequired),
            None => ServerSearch::Fail(ServerSearchError::NotFound),
        }
    }
}

/// Begins the search for a running server.
pub fn running_context_server(status: &Option<ContextServerStatus>, available: bool) -> (r:
    ServerSearch)
    ensures
        r == search_begins(*status, available),
{
    match status {
        Some(ContextServerStatus::Running) => {
            if available {
                ServerSearch::Found
            } else {
                ServerSearch::Fail(ServerSearchError::Unavailable)
            }
        },
        Some(ContextServerStatus::Error(_)) => ServerSearch::Restart,
        Some(ContextServerStatus::Starting) => ServerSearch::Poll,
        Some(ContextServerStatus::Stopped) => ServerSearch::Fail(ServerSearchError::IsStopped),
        Some(ContextServerStatus::AuthRequired) => ServerSearch::Fail(
            ServerSearchError::AuthenticationRequired,
        ),
        Some(ContextServerStatus::ClientSecretRequired) => ServerSearch::Fail(
            ServerSearchError::AuthenticationRequired,
        ),
        Some(ContextServerStatus::Authenticating) => ServerSearch::Fail(
            ServerSearchError::AuthenticationRequired,
        ),
        None => ServerSearch::Fail(ServerSearchError::NotFound),
    }
}

/// Goes on once the store was asked to start the server again.
pub fn restart_requested(outcome: Result<(), String>) -> (r: ServerSearch)
    ensures
        r == (match outcome {
            Ok(_) => ServerSearch::Poll,
            Err(message) => ServerSearch::Fail(ServerSearchError::CannotRestart(message)),
        }),
{
    match outcome {
        Ok(_) => ServerSearch::Poll,
        Err(message) => ServerSearch::Fail(ServerSearchError::CannotRestart(message)),
    }
}

/// Until when a server that is looked at from now on may take to start.
pub fn search_deadline(now: u64) -> (r: u64)
    requires
        now <= u64::MAX - CONTEXT_SERVER_RESTART_TIMEOUT,
    ensures
        r == now + CONTEXT_SERVER_RESTART_TIMEOUT,
{
    now + CONTEXT_SERVER_RESTART_TIMEOUT
}

/// Goes on after a look at a server that is being waited for.
pub fn poll_context_server(
    status: &Option<ContextServerStatus>,
    available: bool,
    now: u64,
    deadline: u64,
) -> (r: ServerSearch)
    ensures
        r == search_goes_on(*status, available, now, deadline),
{
    if available {
        return ServerSearch::Found;
    }
    match status {
        Some(ContextServerStatus::Starting) => {},
        Some(ContextServerStatus::Error(error)) => {
            return ServerSearch::Fail(ServerSearchError::FailedToRestart(error.clone()));
        },
        Some(ContextServerStatus::Stopped) => {
            return ServerSearch::Fail(ServerSearchError::Stopped);
        },
        Some(ContextServerStatus::AuthRequired) | Some(
            ContextServerStatus::ClientSecretRequired,
        ) | Some(ContextServerStatus::Authenticating) => {
            return ServerSearch::Fail(ServerSearchError::AuthenticationRequired);
        },
        Some(ContextServerStatus::Running) => {
            return ServerSearch::Fail(ServerSearchError::Unavailable);
        },
        None => {
            return ServerSearch::Fail(ServerSearchError::NotFound);
        },
    }
    if now >= deadline {
        return ServerSearch::Fail(ServerSearchError::TimedOut);
    }
    ServerSearch::Wait(CONTEXT_SERVER_RESTART_POLL_INTERVAL)
}

/// How far the search for a running server has come.
#[derive(Debug, PartialEq, Eq)]
pub enum ServerSearchRun {
    /// The server has not been looked at yet.
    Beginning,
    /// The store was asked to start the server again.
    Restarting,
    /// The server is looked at again and again, up to this time.
    Polling { deadline: u64 },
    /// The search is over.
    Over,
}

/// What the search for a running server waits for.
#[derive(Debug, PartialEq, Eq)]
pub enum ServerSearchEvent {
    /// The server was looked at: its status, and whether it can be had.
    Looked { status: Option<ContextServerStatus>, available: bool },
    /// The store was asked to start the server again.
    RestartRequested(Result<(), String>),
}

/// How far a search has come that goes on like this.
pub open spec fn search_state(next: ServerSearch, now: u64, polling: ServerSearchRun) -> ServerSearchRun {
    match next {
        ServerSearch::Restart => ServerSearchRun::Restarting,
        ServerSearch::Poll => ServerSearchRun::Polling {
            deadline: (now + CONTEXT_SERVER_RESTART_TIMEOUT) as u64,
        },
        ServerSearch::Wait(_) => polling,
        _ => ServerSearchRun::Over,
    }
}

/// How a search goes on after an event. The time that a server may take to
/// start counts from when it is first waited for. What the search does not
/// wait for changes nothing.
pub open spec fn search_step(run: ServerSearchRun, event: ServerSearchEvent, now: u64) -> (
    ServerSearchRun,
    Option<ServerSearch>,
) {
    let next = match (run, event) {
        (
            ServerSearchRun::Beginning,
            ServerSearchEvent::Looked { status, available },
        ) => Some(search_begins(status, available)),
        (
            ServerSearchRun::Restarting,
            ServerSearchEvent::RestartRequested(Ok(_)),
        ) => Some(ServerSearch::Poll),
        (
            ServerSearchRun::Restarting,
            ServerSearchEvent::RestartRequested(Err(message)),
        ) => Some(ServerSearch::Fail(ServerSearchError::CannotRestart(message))),
        (
            ServerSearchRun::Polling { deadline },
            ServerSearchEvent::Looked { status, available },
        ) => Some(search_goes_on(status, available, now, deadline)),
        _ => None,
    };
    (
        match next {
            Some(next) => search_state(next, now, run),
            None => run,
        },
        next,
    )
}

impl ServerSearchRun {
    /// A search that begins with a look at the server.
    pub fn new() -> (r: Self)
        ensures
            r == ServerSearchRun::Beginning,
    {
        ServerSearchRun::Beginning
    }

    /// Goes on with a search.
    pub fn step(self, event: ServerSearchEvent, now: u64) -> (r: (
        ServerSearchRun,
        Option<ServerSearch>,
    ))
        requires
            now <= u64::MAX - CONTEXT_SERVER_RESTART_TIMEOUT,
        ensures
            r == search_step(self, event, now),
    {
        match (self, event) {
            (ServerSearchRun::Beginning, ServerSearchEvent::Looked { status, available }) => {
                let next = running_context_server(&status, available);
                let state = match &next {
                    ServerSearch::Restart => ServerSearchRun::Restarting,
                    ServerSearch::Poll => ServerSearchRun::Polling { deadline: search_deadline(now) },
                    _ => ServerSearchRun::Over,
                };
                (state, Some(next))
            },
            (ServerSearchRun::Restarting, ServerSearchEvent::RestartRequested(outcome)) => {
                let next = restart_requested(outcome);
                let state = match &next {
                    ServerSearch::Poll => ServerSearchRun::Polling { deadline: search_deadline(now) },
                    _ => ServerSearchRun::Over,
                };
                (state, Some(next))
            },
            (
                ServerSearchRun::Polling { deadline },
                ServerSearchEvent::Looked { status, available },
            ) => {
                let next = poll_context_server(&status, available, now, deadline);
                let state = match &next {
                    ServerSearch::Wait(_) => ServerSearchRun::Polling { deadline },
                    _ => ServerSearchRun::Over,
                };
                (state, Some(next))
            },
            (run, _) => (run, None),
        }
    }
}

/// A server that can be had is found at every look, whatever its status says
/// and however late it is.
pub proof fn available_server_is_found(
    status: Option<ContextServerStatus>,
    now: u64,
    deadline: u64,
)
    ensures
        search_goes_on(status, true, now, deadline) == ServerSearch::Found,
{
}

/// A server that failed is started again when it is needed, and found once it
/// can be had, however late that is.
pub proof fn failed_server_is_restarted_on_demand(
    message: String,
    status: Option<ContextServerStatus>,
    available: bool,
    asked: u64,
    restarted: u64,
    looked: u64,
)
    ensures
        ({
            let (first, action) = search_step(
                ServerSearchRun::Beginning,
                ServerSearchEvent::Looked {
                    status: Some(ContextServerStatus::Error(message)),
                    available,
                },
                asked,
            );
            let (second, _) = search_step(
                first,
                ServerSearchEvent::RestartRequested(Ok(())),
                restarted,
            );
            &&& action == Some(ServerSearch::Restart)
            &&& search_step(
                second,
                ServerSearchEvent::Looked { status, available: true },
                looked,
            ) == (ServerSearchRun::Over, Some(ServerSearch::Found))
        }),
{
}

/// The search never waits past its deadline: where each look comes at least
/// one interval after the one before, only so many looks can end in waiting.
pub proof fn search_is_bounded(
    statuses: Seq<Option<ContextServerStatus>>,
    availability: Seq<bool>,
    times: Seq<u64>,
    deadline: u64,
    i: int,
)
    requires
        statuses.len() == times.len(),
        availability.len() == times.len(),
        0 <= i < times.len(),
        deadline <= times[0] + CONTEXT_SERVER_RESTART_TIMEOUT,
        forall|j: int|
            0 < j < times.len() ==> #[trigger] times[j] >= times[j - 1]
                + CONTEXT_SERVER_RESTART_POLL_INTERVAL,
        search_goes_on(statuses[i], availability[i], times[i], deadline) is Wait,
    ensures
        i < 3_000,
{
    looks_are_spaced(times, i);
}

proof fn looks_are_spaced(times: Seq<u64>, i: int)
    requires
        0 <= i < times.len(),
        forall|j: int|
            0 < j < times.len() ==> #[trigger] times[j] >= times[j - 1]
                + CONTEXT_SERVER_RESTART_POLL_INTERVAL,
    ensures
        times[i] >= times[0] + i * CONTEXT_SERVER_RESTART_POLL_INTERVAL,
    decreases i,
{
    if i > 0 {
        looks_are_spaced(times, i - 1);
    }
}

/// What a server is asked for a prompt with.
#[derive(Debug, PartialEq, Eq)]
pub struct PromptsGetParams {
    pub name: String,
    /// The arguments of the prompt, by name; left out where there are none.
    pub arguments: Option<Vec<(String, String)>>,
}

/// What to ask a server for a prompt with, from what the search for the server
/// came to: whether it is initialized, or why there is none.
pub fn get_prompt(
    server: Result<bool, ServerSearchError>,
    prompt_name: &str,
    arguments: Vec<(String, String)>,
) -> (r: Result<PromptsGetParams, String>)
    ensures
        match server {
            Ok(initialized) => if initialized {
                &&& r is Ok
                &&& r->Ok_0.name@ == prompt_name@
                &&& r->Ok_0.arguments == (if arguments@.len() == 0 {
                    None
                } else {
                    Some(arguments)
                })
            } else {
                r is Err && r->Err_0@ == "Context server not initialized"@
            },
            Err(error) => r is Err && r->Err_0@ == error_message(error),
        },
{
    match server {
        Ok(initialized) => {
            if !initialized {
                return Err("Context server not initialized".to_owned());
            }
            let arguments = if arguments.len() == 0 {
                None
            } else {
                Some(arguments)
            };
            Ok(PromptsGetParams { name: prompt_name.to_owned(), arguments })
        },
        Err(error) => Err(error.message()),
    }
}

/// The first look at a server decides by its status: one that runs and can be
/// had is found, one that failed is started again, one that is starting is
/// waited for during thirty seconds, and for all others there is a reason why
/// there is none.
pub proof fn first_look_decides_by_status(available: bool, message: String, now: u64)
    requires
        now <= u64::MAX - 30_000_000_000,
    ensures
        ({
            let look = |status: Option<ContextServerStatus>|
                search_step(
                    ServerSearchRun::Beginning,
                    ServerSearchEvent::Looked { status, available },
                    now,
                );
            let over = |error: ServerSearchError|
                (ServerSearchRun::Over, Some(ServerSearch::Fail(error)));
            &&& look(Some(ContextServerStatus::Running)) == if available {
                (ServerSearchRun::Over, Some(ServerSearch::Found))
            } else {
                over(ServerSearchError::Unavailable)
            }
            &&& look(Some(ContextServerStatus::Error(message))) == (
                ServerSearchRun::Restarting,
                Some(ServerSearch::Restart),
            )
            &&& look(Some(ContextServerStatus::Starting)) == (
                ServerSearchRun::Polling { deadline: (now + 30_000_000_000) as u64 },
                Some(ServerSearch::Poll),
            )
            &&& look(Some(ContextServerStatus::Stopped)) == over(ServerSearchError::IsStopped)
            &&& look(Some(ContextServerStatus::AuthRequired)) == over(
                ServerSearchError::AuthenticationRequired,
            )
            &&& look(Some(ContextServerStatus::ClientSecretRequired)) == over(
                ServerSearchError::AuthenticationRequired,
            )
            &&& look(Some(ContextServerStatus::Authenticating)) == over(
                ServerSearchError::AuthenticationRequired,
            )
            &&& look(None) == over(ServerSearchError::NotFound)
        }),
{
}

/// A server that was asked to start again is waited for during thirty seconds
/// from then on. Where it cannot be asked, that is the end of the search.
pub proof fn restarted_server_is_waited_for(message: String, now: u64)
    requires
        now <= u64::MAX - 30_000_000_000,
    ensures
        search_step(
            ServerSearchRun::Restarting,
            ServerSearchEvent::RestartRequested(Ok(())),
            now,
        ) == (
            ServerSearchRun::Polling { deadline: (now + 30_000_000_000) as u64 },
            Some(ServerSearch::Poll),
        ),
        search_step(
            ServerSearchRun::Restarting,
            ServerSearchEvent::RestartRequested(Err(message)),
            now,
        ) == (
            ServerSearchRun::Over,
            Some(ServerSearch::Fail(ServerSearchError::CannotRestart(message))),
        ),
{
}

/// Every further look finds a server that can be had. One that is still
/// starting is looked at again after ten milliseconds, up to the deadline; one
/// of any other status is given up, for the reason that the status gives.
pub proof fn further_looks_decide_by_status(
    any: Option<ContextServerStatus>,
    message: String,
    now: u64,
    deadline: u64,
)
    ensures
        ({
            let run = ServerSearchRun::Polling { deadline };
            let look = |status: Option<ContextServerStatus>|
                search_step(run, ServerSearchEvent::Looked { status, available: false }, now);
            let over = |error: ServerSearchError|
                (ServerSearchRun::Over, Some(ServerSearch::Fail(error)));
            &&& search_step(
                run,
                ServerSearchEvent::Looked { status: any, available: true },
                now,
            ) == (ServerSearchRun::Over, Some(ServerSearch::Found))
            &&& look(Some(ContextServerStatus::Starting)) == if now < deadline {
                (run, Some(ServerSearch::Wait(10_000_000)))
            } else {
                over(ServerSearchError::TimedOut)
            }
            &&& look(Some(ContextServerStatus::Error(message))) == over(
                ServerSearchError::FailedToRestart(message),
            )
            &&& look(Some(ContextServerStatus::Stopped)) == over(ServerSearchError::Stopped)
            &&& look(Some(ContextServerStatus::Running)) == over(ServerSearchError::Unavailable)
            &&& look(Some(ContextServerStatus::AuthRequired)) == over(
                ServerSearchError::AuthenticationRequired,
            )
            &&& look(Some(ContextServerStatus::ClientSecretRequired)) == over(
                ServerSearchError::AuthenticationRequired,
            )
            &&& look(Some(ContextServerStatus::Authenticating)) == over(
                ServerSearchError::AuthenticationRequired,
            )
            &&& look(None) == over(ServerSearchError::NotFound)
        }),
{
}

/// What a search does not wait for leaves it as it is, and a search that is
/// over stays over.
pub proof fn unawaited_look_changes_nothing(run: ServerSearchRun, event: ServerSearchEvent, now: u64)
    requires
        run is Beginning || run is Polling ==> !(event is Looked),
        run is Restarting ==> !(event is RestartRequested),
    ensures
        search_step(run, event, now) == (run, None::<ServerSearch>),
{
}

/// Each reason has its own message. The message of a store that refused to
/// start the server is passed on, that of a server that failed again is told as
/// such.
pub proof fn each_reason_has_its_message(message: String)
    ensures
        error_message(ServerSearchError::NotFound) == "Context server not found"@,
        error_message(ServerSearchError::IsStopped) == "Context server is stopped"@,
        error_message(ServerSearchError::Stopped) == "Context server stopped"@,
        error_message(ServerSearchError::AuthenticationRequired)
            == "Context server requires authentication"@,
        error_message(ServerSearchError::Unavailable)
            == "Context server is marked running but is unavailable"@,
        error_message(ServerSearchError::CannotRestart(message)) == message@,
        error_message(ServerSearchError::FailedToRestart(message))
            == "Context server failed to restart: "@ + message@,
        error_message(ServerSearchError::TimedOut) == "Timed out restarting context server"@,
{
}

} // verus!
