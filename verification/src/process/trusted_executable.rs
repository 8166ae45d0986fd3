//! Which executables are run on the user's behalf: only those that nobody but
//! the administrator can change.

use crate::process::error::{failed, ProcessError};
use crate::process::unix_path::{below, path_below};
use vstd::prelude::*;

verus! {

/// What is known of a file.
#[derive(Clone, Copy, Debug, PartialEq, Eq, Structural)]
pub struct FileMetadata {
    pub is_file: bool,
    /// Who owns it.
    pub uid: u32,
    /// Its type and permission bits.
    pub mode: u32,
}

/// The permissions of the group, and of everybody else, to write.
pub const WRITABLE_BY_OTHERS: u32 = 0o022;

/// Whether nobody but the administrator can change a file.
pub open spec fn is_trusted(metadata: FileMetadata) -> bool {
    metadata.is_file && metadata.uid == 0 && metadata.mode & WRITABLE_BY_OTHERS == 0
}

/// Where executables are looked for, in this order.
pub open spec fn trusted_dir(index: nat) -> Seq<char> {
    if index == 0 {
        "/bin"@
    } else if index == 1 {
        "/usr/bin"@
    } else {
        "/run/current-system/sw/bin"@
    }
}

/// How many places executables are looked for in.
pub const TRUSTED_DIRS: u8 = 3;

/// How far the search for an executable has come.
#[derive(Debug, PartialEq, Eq)]
pub enum ExecutableSearch {
    /// It is looked for in the place with this number.
    Looking { name: String, index: u8 },
    /// It was found here; what it really is, is asked.
    Resolving { path: String },
    /// It is this file; what is known of it, is asked.
    Inspecting { path: String },
    /// It may be run.
    Found { path: String },
    /// It may not be run.
    Failed { error: ProcessError },
}

/// The model of a search for an executable.
pub enum SearchModel {
    Looking { name: Seq<char>, index: nat },
    Resolving { path: Seq<char> },
    Inspecting { path: Seq<char> },
    Found { path: Seq<char> },
    Failed { error: Seq<Seq<char>> },
}

/// What was found out.
#[derive(Debug, PartialEq, Eq)]
pub enum ExecutableEvent {
    /// Whether a path is that of a file.
    IsFile(bool),
    /// What a path leads to, once all links are followed.
    Resolved(Result<String, String>),
    /// What is known of a file.
    Inspected(Result<FileMetadata, String>),
}

/// What to find out next.
#[derive(Debug, PartialEq, Eq)]
pub enum ExecutableAction {
    /// Whether this is a file.
    CheckFile(String),
    /// What this path leads to.
    Resolve(String),
    /// What is known of this file.
    Inspect(String),
    /// Nothing: this is the executable.
    Found(String),
    /// Nothing: there is none.
    Fail(ProcessError),
}

/// The model of what to find out next.
pub enum SearchActionModel {
    CheckFile(Seq<char>),
    Resolve(Seq<char>),
    Inspect(Seq<char>),
    Found(Seq<char>),
    Fail(Seq<Seq<char>>),
}

impl View for ExecutableSearch {
    type V = SearchModel;

    open spec fn view(&self) -> SearchModel {
        match self {
            ExecutableSearch::Looking { name, index } => SearchModel::Looking {
                name: name@,
                index: *index as nat,
            },
            ExecutableSearch::Resolving { path } => SearchModel::Resolving { path: path@ },
            ExecutableSearch::Inspecting { path } => SearchModel::Inspecting { path: path@ },
            ExecutableSearch::Found { path } => SearchModel::Found { path: path@ },
            ExecutableSearch::Failed { error } => SearchModel::Failed { error: error@ },
        }
    }
}

impl View for ExecutableAction {
    type V = SearchActionModel;

    open spec fn view(&self) -> SearchActionModel {
        match self {
            ExecutableAction::CheckFile(path) => SearchActionModel::CheckFile(path@),
            ExecutableAction::Resolve(path) => SearchActionModel::Resolve(path@),
            ExecutableAction::Inspect(path) => SearchActionModel::Inspect(path@),
            ExecutableAction::Found(path) => SearchActionModel::Found(path@),
            ExecutableAction::Fail(error) => SearchActionModel::Fail(error@),
        }
    }
}

impl SearchModel {
    /// What the search asks for.
    pub open spec fn action(self) -> SearchActionModel {
        match self {
            SearchModel::Looking { name, index } => SearchActionModel::CheckFile(
                below(trusted_dir(index), name),
            ),
            SearchModel::Resolving { path } => SearchActionModel::Resolve(path),
            SearchModel::Inspecting { path } => SearchActionModel::Inspect(path),
            SearchModel::Found { path } => SearchActionModel::Found(path),
            SearchModel::Failed { error } => SearchActionModel::Fail(error),
        }
    }

    /// How the search goes on. The first place that has the executable counts;
    /// whether it may be run is decided by the file that the path leads to.
    /// What the search did not ask for changes nothing.
    pub open spec fn stepped(self, event: ExecutableEvent) -> SearchModel {
        match (self, event) {
            (SearchModel::Looking { name, index }, ExecutableEvent::IsFile(is_file)) => if is_file {
                SearchModel::Resolving { path: below(trusted_dir(index), name) }
            } else if index + 1 < TRUSTED_DIRS {
                SearchModel::Looking { name, index: index + 1 }
            } else {
                SearchModel::Failed { error: seq!["failed to locate "@ + name] }
            },
            (SearchModel::Resolving { path }, ExecutableEvent::Resolved(resolved)) => match resolved {
                Ok(target) => SearchModel::Inspecting { path: target@ },
                Err(cause) => SearchModel::Failed {
                    error: seq!["failed to resolve "@ + path, cause@],
                },
            },
            (SearchModel::Inspecting { path }, ExecutableEvent::Inspected(metadata)) => match metadata {
                Ok(metadata) => if is_trusted(metadata) {
                    SearchModel::Found { path }
                } else {
                    SearchModel::Failed { error: seq!["refusing untrusted executable "@ + path] }
                },
                Err(cause) => SearchModel::Failed {
                    error: seq!["failed to inspect "@ + path, cause@],
                },
            },
            _ => self,
        }
    }
}

fn about(message: &str, subject: &str) -> (r: String)
    ensures
        r@ == message@ + subject@,
{
    let mut out = message.to_owned();
    out.append(subject);
    out
}

fn candidate(name: &str, index: u8) -> (r: String)
    ensures
        r@ == below(trusted_dir(index as nat), name@),
{
    let dir = if index == 0 {
        "/bin"
    } else if index == 1 {
        "/usr/bin"
    } else {
        "/run/current-system/sw/bin"
    };
    path_below(dir, name)
}

/// Begins the search for an executable.
pub fn trusted_executable(name: &str) -> (r: ExecutableSearch)
    ensures
        r@ == (SearchModel::Looking { name: name@, index: 0 }),
{
    ExecutableSearch::Looking { name: name.to_owned(), index: 0 }
}

impl ExecutableSearch {
    /// What to find out next.
    pub fn action(&self) -> (r: ExecutableAction)
        ensures
            r@ == self@.action(),
    {
        match self {
            ExecutableSearch::Looking { name, index } => ExecutableAction::CheckFile(
                candidate(name.as_str(), *index),
            ),
            ExecutableSearch::Resolving { path } => ExecutableAction::Resolve(path.clone()),
            ExecutableSearch::Inspecting { path } => ExecutableAction::Inspect(path.clone()),
            ExecutableSearch::Found { path } => ExecutableAction::Found(path.clone()),
            ExecutableSearch::Failed { error } => ExecutableAction::Fail(error.clone()),
        }
    }

    /// Goes on with what was found out.
    pub fn step(self, event: ExecutableEvent) -> (r: ExecutableSearch)
        ensures
            r@ == self@.stepped(event),
    {
        match (self, event) {
            (ExecutableSearch::Looking { name, index }, ExecutableEvent::IsFile(is_file)) => {
                if is_file {
                    ExecutableSearch::Resolving { path: candidate(name.as_str(), index) }
                } else if index < TRUSTED_DIRS - 1 {
                    ExecutableSearch::Looking { name, index: index + 1 }
                } else {
                    ExecutableSearch::Failed {
                        error: ProcessError::new(about("failed to locate ", name.as_str())),
                    }
                }
            },
            (ExecutableSearch::Resolving { path }, ExecutableEvent::Resolved(resolved)) => {
                match resolved {
                    Ok(target) => ExecutableSearch::Inspecting { path: target },
                    Err(cause) => ExecutableSearch::Failed {
                        error: failed(about("failed to resolve ", path.as_str()).as_str(), cause),
                    },
                }
            },
            (ExecutableSearch::Inspecting { path }, ExecutableEvent::Inspected(metadata)) => {
                match metadata {
                    Ok(metadata) => {
                        if !metadata.is_file || metadata.uid != 0 || metadata.mode
                            & WRITABLE_BY_OTHERS != 0 {
                            ExecutableSearch::Failed {
                                error: ProcessError::new(
                                    about("refusing untrusted executable ", path.as_str()),
                                ),
                            }
                        } else {
                            ExecutableSearch::Found { path }
                        }
                    },
                    Err(cause) => ExecutableSearch::Failed {
                        error: failed(about("failed to inspect ", path.as_str()).as_str(), cause),
                    },
                }
            },
            (search, _) => search,
        }
    }
}

/// An executable is found only after the very file was looked at, and only
/// where nobody but the administrator can change it.
pub proof fn only_trusted_executables_are_found(search: SearchModel, event: ExecutableEvent)
    requires
        !(search is Found),
    ensures
        search.stepped(event) matches SearchModel::Found { path } ==> {
            &&& search == SearchModel::Inspecting { path }
            &&& event matches ExecutableEvent::Inspected(Ok(metadata)) && is_trusted(metadata)
        },
{
}

/// An executable that anybody else can change is refused.
pub proof fn untrusted_executable_is_refused(path: Seq<char>, metadata: FileMetadata)
    requires
        !is_trusted(metadata),
    ensures
        (SearchModel::Inspecting { path }).stepped(ExecutableEvent::Inspected(Ok(metadata)))
            is Failed,
{
}

/// Once the search is over, nothing changes its outcome.
pub proof fn finished_search_stays_finished(search: SearchModel, event: ExecutableEvent)
    requires
        search is Found || search is Failed,
    ensures
        search.stepped(event) == search,
{
}

/// The search after the places with a lower number were found not to have the
/// executable.
pub open spec fn passed_over(name: Seq<char>, places: nat) -> SearchModel
    decreases places,
{
    if places == 0 {
        SearchModel::Looking { name, index: 0 }
    } else {
        passed_over(name, (places - 1) as nat).stepped(ExecutableEvent::IsFile(false))
    }
}

/// An executable is looked for in three places, in this order, and the first
/// that has it counts. Where none has it, the search fails.
pub proof fn three_places_are_searched_in_order(name: Seq<char>, places: nat)
    requires
        places < 3,
    ensures
        ({
            let place = below(
                if places == 0 {
                    "/bin"@
                } else if places == 1 {
                    "/usr/bin"@
                } else {
                    "/run/current-system/sw/bin"@
                },
                name,
            );
            &&& passed_over(name, places).action() == SearchActionModel::CheckFile(place)
            &&& passed_over(name, places).stepped(ExecutableEvent::IsFile(true)).action()
                == SearchActionModel::Resolve(place)
        }),
        passed_over(name, 3).action() == SearchActionModel::Fail(seq!["failed to locate "@ + name]),
{
    reveal_with_fuel(passed_over, 4);
}

/// What a path leads to is inspected in its place, and is what is found: a file
/// that the administrator owns, and that neither its group nor anybody else may
/// write to. Any other is refused, and so is one that cannot be resolved or
/// inspected.
pub proof fn resolved_file_decides(
    path: Seq<char>,
    target: String,
    cause: String,
    metadata: FileMetadata,
)
    ensures
        ({
            let resolving = SearchModel::Resolving { path };
            let inspecting = resolving.stepped(ExecutableEvent::Resolved(Ok(target)));
            let decided = inspecting.stepped(ExecutableEvent::Inspected(Ok(metadata)));
            &&& inspecting.action() == SearchActionModel::Inspect(target@)
            &&& decided.action() == if metadata.is_file && metadata.uid == 0 && metadata.mode & 0o020
                == 0 && metadata.mode & 0o002 == 0 {
                SearchActionModel::Found(target@)
            } else {
                SearchActionModel::Fail(seq!["refusing untrusted executable "@ + target@])
            }
            &&& resolving.stepped(ExecutableEvent::Resolved(Err(cause))).action()
                == SearchActionModel::Fail(seq!["failed to resolve "@ + path, cause@])
            &&& inspecting.stepped(ExecutableEvent::Inspected(Err(cause))).action()
                == SearchActionModel::Fail(seq!["failed to inspect "@ + target@, cause@])
        }),
{
    let mode = metadata.mode;
    assert((mode & 0o022 == 0) == (mode & 0o020 == 0 && mode & 0o002 == 0)) by (bit_vector);
}

/// An answer to something else than what was asked for changes nothing.
pub proof fn unasked_finding_changes_nothing(search: SearchModel, event: ExecutableEvent)
    ensures
        search is Looking && !(event is IsFile) ==> search.stepped(event) == search,
        search is Resolving && !(event is Resolved) ==> search.stepped(event) == search,
        search is Inspecting && !(event is Inspected) ==> search.stepped(event) == search,
{
}

/// What a search asks for is what the model says, and so is what it came to.
pub proof fn sought_is_what_the_model_says(path: String, error: ProcessError, index: u8)
    ensures
        ExecutableAction::CheckFile(path)@ == SearchActionModel::CheckFile(path@),
        ExecutableAction::Resolve(path)@ == SearchActionModel::Resolve(path@),
        ExecutableAction::Inspect(path)@ == SearchActionModel::Inspect(path@),
        ExecutableAction::Found(path)@ == SearchActionModel::Found(path@),
        ExecutableAction::Fail(error)@ == SearchActionModel::Fail(error@),
        (ExecutableSearch::Looking { name: path, index })@ == (SearchModel::Looking {
            name: path@,
            index: index as nat,
        }),
        (ExecutableSearch::Found { path })@ == (SearchModel::Found { path: path@ }),
        (ExecutableSearch::Failed { error })@ == (SearchModel::Failed { error: error@ }),
{
}

} // verus!
