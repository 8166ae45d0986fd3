//! A context server that is talked to through its standard input and output,
//! one message to a line.
//!
//! Four loops serve such a server: one writes messages to its input, one each
//! passes on the lines of its output and of its errors, and one collects the
//! server once it closed its output. What each of them does next is decided
//! here, from what came of what it did before.

use crate::process::child::{Child, ChildModel, TreeKill};
use vstd::prelude::*;

verus! {

/// How often it is looked whether a server that closed its output has exited,
/// in nanoseconds.
pub const REAP_POLL_INTERVAL: u64 = 100_000_000;

/// How many times it is looked before the server is left to itself.
pub const REAP_ATTEMPTS: usize = 100;

/// The program of a context server.
#[derive(Debug, PartialEq, Eq)]
pub struct ModelContextServerBinary {
    pub executable: String,
    pub args: Vec<String>,
    pub env: Option<Vec<(String, String)>>,
    /// How long a request to it may take, in milliseconds.
    pub timeout: Option<u64>,
}

/// What is handed to the builder of shell commands, and how the command that it
/// builds is started.
///
/// A server is not started by itself: the builder makes of the program and its
/// arguments a command line for the system's shell, to be run without
/// interaction. How it quotes them, and which shell it takes, is left to it.
/// What it builds is started with its input, output and errors connected to
/// the transport.
#[derive(Debug, PartialEq, Eq)]
pub struct ServerLaunch {
    /// The program that the builder is given.
    pub program: String,
    /// The arguments that the builder is given.
    pub args: Vec<String>,
    /// What to add to the environment of the built command.
    pub env: Vec<(String, String)>,
    /// Where to start the built command, where not in the owner's own directory.
    pub current_dir: Option<String>,
}

/// How far the lines of a stream are passed on.
#[derive(Debug, PartialEq, Eq)]
pub enum PumpStage {
    /// A line is read.
    Reading,
    /// A line is passed on.
    Sending(String),
    /// That the stream is closed is told.
    Signalling,
    Over,
}

/// What came of what the pump asked for.
#[derive(Debug, PartialEq, Eq)]
pub enum PumpEvent {
    /// A line was read, with what ends it; an empty one at the end of the
    /// stream. Nothing, where reading failed.
    Read(Option<String>),
    /// Whether the line was taken.
    Sent(bool),
    /// That the stream is closed was told.
    Signalled,
}

/// What the pump asks for.
#[derive(Debug, PartialEq, Eq)]
pub enum PumpAction {
    ReadLine,
    Send(String),
    /// Tell that the stream is closed.
    SignalClosed,
    Stop,
}

/// Passes on the lines of a stream.
pub struct LinePump {
    stage: PumpStage,
    signals: bool,
}

/// The model of a pump.
pub struct PumpModel {
    pub stage: PumpStage,
    /// Whether it is to be told that the stream is closed.
    pub signals: bool,
}

impl View for LinePump {
    type V = PumpModel;

    closed spec fn view(&self) -> PumpModel {
        PumpModel { stage: self.stage, signals: self.signals }
    }
}

impl PumpModel {
    /// What is asked for.
    pub open spec fn action(self) -> PumpAction {
        match self.stage {
            PumpStage::Reading => PumpAction::ReadLine,
            PumpStage::Sending(line) => PumpAction::Send(line),
            PumpStage::Signalling => PumpAction::SignalClosed,
            PumpStage::Over => PumpAction::Stop,
        }
    }

    /// The pump once no more lines are passed on.
    pub open spec fn ended(self) -> PumpModel {
        PumpModel {
            stage: if self.signals {
                PumpStage::Signalling
            } else {
                PumpStage::Over
            },
            ..self
        }
    }

    /// How the pump goes on: line by line, until the stream ends, reading it
    /// fails, or nobody takes the lines any more. What was not asked for changes
    /// nothing.
    pub open spec fn stepped(self, event: PumpEvent) -> PumpModel {
        match (self.stage, event) {
            (PumpStage::Reading, PumpEvent::Read(Some(line))) => if line@.len() == 0 {
                self.ended()
            } else {
                PumpModel { stage: PumpStage::Sending(line), ..self }
            },
            (PumpStage::Reading, PumpEvent::Read(None)) => self.ended(),
            (PumpStage::Sending(_), PumpEvent::Sent(taken)) => if taken {
                PumpModel { stage: PumpStage::Reading, ..self }
            } else {
                self.ended()
            },
            (PumpStage::Signalling, PumpEvent::Signalled) => PumpModel {
                stage: PumpStage::Over,
                ..self
            },
            _ => self,
        }
    }
}

impl LinePump {
    /// Passes on what the server says, and tells once it is done.
    pub fn handle_input() -> (r: Self)
        ensures
            r@ == (PumpModel { stage: PumpStage::Reading, signals: true }),
    {
        LinePump { stage: PumpStage::Reading, signals: true }
    }

    /// Passes on the errors of the server.
    pub fn handle_err() -> (r: Self)
        ensures
            r@ == (PumpModel { stage: PumpStage::Reading, signals: false }),
    {
        LinePump { stage: PumpStage::Reading, signals: false }
    }

    /// What to do next.
    pub fn action(&self) -> (r: PumpAction)
        ensures
            r == self@.action(),
    {
        match &self.stage {
            PumpStage::Reading => PumpAction::ReadLine,
            PumpStage::Sending(line) => PumpAction::Send(line.clone()),
            PumpStage::Signalling => PumpAction::SignalClosed,
            PumpStage::Over => PumpAction::Stop,
        }
    }

    fn end(&mut self)
        ensures
            final(self)@ == old(self)@.ended(),
    {
        self.stage = if self.signals {
            PumpStage::Signalling
        } else {
            PumpStage::Over
        };
    }

    /// Goes on.
    pub fn step(&mut self, event: PumpEvent)
        ensures
            final(self)@ == old(self)@.stepped(event),
    {
        match (&self.stage, event) {
            (PumpStage::Reading, PumpEvent::Read(Some(line))) => {
                if line.as_str().is_empty() {
                    self.end();
                } else {
                    self.stage = PumpStage::Sending(line);
                }
            },
            (PumpStage::Reading, PumpEvent::Read(None)) => self.end(),
            (PumpStage::Sending(_), PumpEvent::Sent(taken)) => {
                if taken {
                    self.stage = PumpStage::Reading;
                } else {
                    self.end();
                }
            },
            (PumpStage::Signalling, PumpEvent::Signalled) => {
                self.stage = PumpStage::Over;
            },
            _ => {},
        }
    }
}

/// How far a message is written.
#[derive(Debug, PartialEq, Eq)]
pub enum WriterStage {
    /// The next message is waited for.
    Receiving,
    /// A message is written.
    Body(String),
    /// What ends a message is written.
    End,
    /// What was written is handed to the server.
    Flushing,
    /// It is over, with this error or none.
    Over(Result<(), String>),
}

/// What came of what the writer asked for.
#[derive(Debug, PartialEq, Eq)]
pub enum WriterEvent {
    /// A message is to be written; none, where there will be no more.
    Received(Option<String>),
    /// It was done, or why not.
    Done(Result<(), String>),
}

/// What the writer asks for.
#[derive(Debug, PartialEq, Eq)]
pub enum WriterAction {
    Receive,
    Write(String),
    /// Write what ends a message: a newline.
    WriteNewline,
    Flush,
    Finish(Result<(), String>),
}

/// Writes messages to a server.
pub struct MessageWriter {
    stage: WriterStage,
}

impl View for MessageWriter {
    type V = WriterStage;

    closed spec fn view(&self) -> WriterStage {
        self.stage
    }
}

/// What a writer asks for.
pub open spec fn writer_action(stage: WriterStage) -> WriterAction {
    match stage {
        WriterStage::Receiving => WriterAction::Receive,
        WriterStage::Body(message) => WriterAction::Write(message),
        WriterStage::End => WriterAction::WriteNewline,
        WriterStage::Flushing => WriterAction::Flush,
        WriterStage::Over(result) => WriterAction::Finish(result),
    }
}

/// How a writer goes on: each message is written, ended, and handed over, until
/// there are no more or something fails. What was not asked for changes nothing.
pub open spec fn writer_stepped(stage: WriterStage, event: WriterEvent) -> WriterStage {
    match (stage, event) {
        (WriterStage::Receiving, WriterEvent::Received(Some(message))) => WriterStage::Body(
            message,
        ),
        (WriterStage::Receiving, WriterEvent::Received(None)) => WriterStage::Over(Ok(())),
        (WriterStage::Body(_), WriterEvent::Done(Ok(_))) => WriterStage::End,
        (WriterStage::End, WriterEvent::Done(Ok(_))) => WriterStage::Flushing,
        (WriterStage::Flushing, WriterEvent::Done(Ok(_))) => WriterStage::Receiving,
        (WriterStage::Body(_), WriterEvent::Done(Err(error))) => WriterStage::Over(Err(error)),
        (WriterStage::End, WriterEvent::Done(Err(error))) => WriterStage::Over(Err(error)),
        (WriterStage::Flushing, WriterEvent::Done(Err(error))) => WriterStage::Over(Err(error)),
        _ => stage,
    }
}

impl MessageWriter {
    /// Writes messages to a server.
    pub fn handle_output() -> (r: Self)
        ensures
            r@ == WriterStage::Receiving,
    {
        MessageWriter { stage: WriterStage::Receiving }
    }

    /// What to do next.
    pub fn action(&self) -> (r: WriterAction)
        ensures
            r == writer_action(self@),
    {
        match &self.stage {
            WriterStage::Receiving => WriterAction::Receive,
            WriterStage::Body(message) => WriterAction::Write(message.clone()),
            WriterStage::End => WriterAction::WriteNewline,
            WriterStage::Flushing => WriterAction::Flush,
            WriterStage::Over(Ok(done)) => WriterAction::Finish(Ok(*done)),
            WriterStage::Over(Err(error)) => WriterAction::Finish(Err(error.clone())),
        }
    }

    /// Goes on.
    pub fn step(&mut self, event: WriterEvent)
        ensures
            final(self)@ == writer_stepped(old(self)@, event),
    {
        match (&self.stage, event) {
            (WriterStage::Receiving, WriterEvent::Received(Some(message))) => {
                self.stage = WriterStage::Body(message);
            },
            (WriterStage::Receiving, WriterEvent::Received(None)) => {
                self.stage = WriterStage::Over(Ok(()));
            },
            (WriterStage::Body(_), WriterEvent::Done(Ok(_))) => {
                self.stage = WriterStage::End;
            },
            (WriterStage::End, WriterEvent::Done(Ok(_))) => {
                self.stage = WriterStage::Flushing;
            },
            (WriterStage::Flushing, WriterEvent::Done(Ok(_))) => {
                self.stage = WriterStage::Receiving;
            },
            (WriterStage::Body(_), WriterEvent::Done(Err(error))) => {
                self.stage = WriterStage::Over(Err(error));
            },
            (WriterStage::End, WriterEvent::Done(Err(error))) => {
                self.stage = WriterStage::Over(Err(error));
            },
            (WriterStage::Flushing, WriterEvent::Done(Err(error))) => {
                self.stage = WriterStage::Over(Err(error));
            },
            _ => {},
        }
    }
}

/// What became of a server that closed its output.
#[derive(Clone, Copy, Debug, PartialEq, Eq, Structural)]
pub enum ReapOutcome {
    /// Nothing was told of its output: the transport goes away, and takes care
    /// of the server itself.
    Abandoned,
    /// It exited, and was collected.
    Collected,
    /// Whether it exited could not be found out.
    Failed,
    /// It did not exit in time.
    GaveUp,
}

/// What was found out about a server.
#[derive(Clone, Copy, Debug, PartialEq, Eq, Structural)]
pub enum ServerStatus {
    Exited,
    Running,
    /// It could not be found out.
    Unknown,
}

/// What came of what the reaper asked for.
#[derive(Clone, Copy, Debug, PartialEq, Eq, Structural)]
pub enum ReapEvent {
    /// Whether it was told that the output is closed, rather than nothing at
    /// all.
    StdoutClosed(bool),
    /// What was found out about the server.
    Status(ServerStatus),
    /// The while is over.
    Elapsed,
}

/// What the reaper asks for.
#[derive(Clone, Copy, Debug, PartialEq, Eq, Structural)]
pub enum ReapAction {
    /// Wait to be told that the output is closed.
    AwaitStdoutClosed,
    /// Look whether the server has exited, and collect it if so.
    Poll,
    /// Wait this long.
    Sleep(u64),
    Finish(ReapOutcome),
}

/// How far the collecting of a server has come.
#[derive(Clone, Copy, Debug, PartialEq, Eq, Structural)]
pub enum Reaper {
    Waiting,
    /// The server is looked at, after so many times before.
    Polling { attempts: usize },
    /// A while is waited, after so many looks.
    Pausing { attempts: usize },
    Over(ReapOutcome),
}

impl Reaper {
    /// How many looks at the server there have been, at most.
    pub open spec fn consistent(self) -> bool {
        match self {
            Reaper::Polling { attempts } => attempts < REAP_ATTEMPTS,
            Reaper::Pausing { attempts } => 1 <= attempts <= REAP_ATTEMPTS,
            _ => true,
        }
    }

    /// What is asked for.
    pub open spec fn asked(self) -> ReapAction {
        match self {
            Reaper::Waiting => ReapAction::AwaitStdoutClosed,
            Reaper::Polling { .. } => ReapAction::Poll,
            Reaper::Pausing { .. } => ReapAction::Sleep(REAP_POLL_INTERVAL),
            Reaper::Over(outcome) => ReapAction::Finish(outcome),
        }
    }

    /// How it goes on: once the output is closed, the server is looked at again
    /// and again, up to so many times. What was not asked for changes nothing.
    pub open spec fn stepped(self, event: ReapEvent) -> Reaper {
        match (self, event) {
            (Reaper::Waiting, ReapEvent::StdoutClosed(told)) => if told {
                Reaper::Polling { attempts: 0 }
            } else {
                Reaper::Over(ReapOutcome::Abandoned)
            },
            (Reaper::Polling { attempts }, ReapEvent::Status(status)) => match status {
                ServerStatus::Exited => Reaper::Over(ReapOutcome::Collected),
                ServerStatus::Unknown => Reaper::Over(ReapOutcome::Failed),
                ServerStatus::Running => Reaper::Pausing { attempts: (attempts + 1) as usize },
            },
            (Reaper::Pausing { attempts }, ReapEvent::Elapsed) => if attempts < REAP_ATTEMPTS {
                Reaper::Polling { attempts }
            } else {
                Reaper::Over(ReapOutcome::GaveUp)
            },
            _ => self,
        }
    }

    /// Collects a server that exits on its own.
    pub fn reap_after_exit() -> (r: Self)
        ensures
            r == Reaper::Waiting,
            r.consistent(),
    {
        Reaper::Waiting
    }

    /// What to do next.
    pub fn action(&self) -> (r: ReapAction)
        ensures
            r == self.asked(),
    {
        match self {
            Reaper::Waiting => ReapAction::AwaitStdoutClosed,
            Reaper::Polling { .. } => ReapAction::Poll,
            Reaper::Pausing { .. } => ReapAction::Sleep(REAP_POLL_INTERVAL),
            Reaper::Over(outcome) => ReapAction::Finish(*outcome),
        }
    }

    /// Goes on.
    pub fn step(self, event: ReapEvent) -> (r: Self)
        requires
            self.consistent(),
        ensures
            r == self.stepped(event),
            r.consistent(),
    {
        match (self, event) {
            (Reaper::Waiting, ReapEvent::StdoutClosed(told)) => {
                if told {
                    Reaper::Polling { attempts: 0 }
                } else {
                    Reaper::Over(ReapOutcome::Abandoned)
                }
            },
            (Reaper::Polling { attempts }, ReapEvent::Status(status)) => match status {
                ServerStatus::Exited => Reaper::Over(ReapOutcome::Collected),
                ServerStatus::Unknown => Reaper::Over(ReapOutcome::Failed),
                ServerStatus::Running => Reaper::Pausing { attempts: attempts + 1 },
            },
            (Reaper::Pausing { attempts }, ReapEvent::Elapsed) => {
                if attempts < REAP_ATTEMPTS {
                    Reaper::Polling { attempts }
                } else {
                    Reaper::Over(ReapOutcome::GaveUp)
                }
            },
            (reaper, _) => reaper,
        }
    }
}

/// What serves a server.
pub struct StdioTransport {
    /// Writes messages to the server.
    pub output: MessageWriter,
    /// Passes on what the server says.
    pub input: LinePump,
    /// Passes on the errors of the server.
    pub errors: LinePump,
    /// Collects the server.
    pub exit_watch: Reaper,
}

impl StdioTransport {
    /// What to hand to the builder of shell commands for a server, and what
    /// serves the server once the built command is started.
    pub fn new(binary: ModelContextServerBinary, working_directory: &Option<String>) -> (r: (
        Self,
        ServerLaunch,
    ))
        ensures
            r.0.output@ == WriterStage::Receiving,
            r.0.input@ == (PumpModel { stage: PumpStage::Reading, signals: true }),
            r.0.errors@ == (PumpModel { stage: PumpStage::Reading, signals: false }),
            r.0.exit_watch == Reaper::Waiting,
            r.1.program == binary.executable,
            r.1.args == binary.args,
            match binary.env {
                Some(env) => r.1.env == env,
                None => r.1.env@ == Seq::<(String, String)>::empty(),
            },
            r.1.current_dir == *working_directory,
    {
        let transport = StdioTransport {
            output: MessageWriter::handle_output(),
            input: LinePump::handle_input(),
            errors: LinePump::handle_err(),
            exit_watch: Reaper::reap_after_exit(),
        };
        let env = match binary.env {
            Some(env) => env,
            None => Vec::new(),
        };
        let current_dir = match working_directory {
            Some(directory) => Some(directory.clone()),
            None => None,
        };
        (
            transport,
            ServerLaunch { program: binary.executable, args: binary.args, env, current_dir },
        )
    }

    /// Begins to kill the server, as its transport goes away.
    pub fn close(server: &mut Child) -> (r: TreeKill)
        ensures
            final(server)@ == (ChildModel {
                id: old(server)@.id,
                tree: old(server)@.tree.killed(),
            }),
            r@ == old(server)@.tree.kill_begun(),
    {
        server.kill()
    }
}

/// A line is passed on as it was read, and before another one is read.
pub proof fn lines_are_passed_on_one_by_one(m: PumpModel, line: String)
    requires
        m.stage is Reading,
        line@.len() > 0,
    ensures
        ({
            let sending = m.stepped(PumpEvent::Read(Some(line)));
            &&& sending.action() == PumpAction::Send(line)
            &&& sending.stepped(PumpEvent::Sent(true)) == m
        }),
{
}

/// Nothing is passed on that was not read.
pub proof fn only_what_was_read_is_passed_on(m: PumpModel, event: PumpEvent, line: String)
    requires
        m.stage is Reading,
        m.stepped(event).action() == PumpAction::Send(line),
    ensures
        event == PumpEvent::Read(Some(line)),
{
}

/// However the output of a server ends, it is told that it is closed, and after
/// that nothing is read any more.
pub proof fn end_of_output_is_told(m: PumpModel, event: PumpEvent)
    requires
        m.signals,
        m.stage is Reading || m.stage is Sending,
        !(m.stepped(event).stage is Reading || m.stepped(event).stage is Sending),
    ensures
        m.stepped(event).action() == PumpAction::SignalClosed,
        m.stepped(event).stepped(PumpEvent::Signalled).action() == PumpAction::Stop,
{
}

/// The pump after these answers.
pub open spec fn pumped(m: PumpModel, events: Seq<PumpEvent>) -> PumpModel
    decreases events.len(),
{
    if events.len() == 0 {
        m
    } else {
        pumped(m, events.drop_last()).stepped(events.last())
    }
}

/// The line that an answer gives to a pump that reads, where it gives one.
pub open spec fn line_read(m: PumpModel, event: PumpEvent) -> Option<String> {
    match (m.stage, event) {
        (PumpStage::Reading, PumpEvent::Read(Some(line))) => if line@.len() > 0 {
            Some(line)
        } else {
            None
        },
        _ => None,
    }
}

/// The line that was being passed on when this answer came, where it says that
/// the line was taken, or that it was not.
pub open spec fn line_answered(m: PumpModel, event: PumpEvent, taken: bool) -> Option<String> {
    match (m.stage, event) {
        (PumpStage::Sending(line), PumpEvent::Sent(outcome)) => if outcome == taken {
            Some(line)
        } else {
            None
        },
        _ => None,
    }
}

/// Whether an answer ends the pumping: the stream is at its end, reading it
/// failed, or a line was not taken.
pub open spec fn ends_pumping(m: PumpModel, event: PumpEvent) -> bool {
    match (m.stage, event) {
        (PumpStage::Reading, PumpEvent::Read(line)) => line_read(m, event) is None,
        (PumpStage::Sending(_), PumpEvent::Sent(taken)) => !taken,
        _ => false,
    }
}

/// These lines, and one more where there is one.
pub open spec fn with_line(lines: Seq<String>, line: Option<String>) -> Seq<String> {
    match line {
        Some(line) => lines.push(line),
        None => lines,
    }
}

/// The lines that were read, in the order in which they were read.
pub open spec fn lines_read(m: PumpModel, events: Seq<PumpEvent>) -> Seq<String>
    decreases events.len(),
{
    if events.len() == 0 {
        Seq::empty()
    } else {
        with_line(
            lines_read(m, events.drop_last()),
            line_read(pumped(m, events.drop_last()), events.last()),
        )
    }
}

/// The lines that were passed on and taken, or passed on and not taken, in the
/// order in which they were passed on.
pub open spec fn lines_answered(m: PumpModel, events: Seq<PumpEvent>, taken: bool) -> Seq<String>
    decreases events.len(),
{
    if events.len() == 0 {
        Seq::empty()
    } else {
        with_line(
            lines_answered(m, events.drop_last(), taken),
            line_answered(pumped(m, events.drop_last()), events.last(), taken),
        )
    }
}

/// Whether one of these answers ended the pumping.
pub open spec fn pumping_ended(m: PumpModel, events: Seq<PumpEvent>) -> bool
    decreases events.len(),
{
    events.len() > 0 && (pumping_ended(m, events.drop_last()) || ends_pumping(
        pumped(m, events.drop_last()),
        events.last(),
    ))
}

/// Whatever the answers, the lines that were taken are the lines that were
/// read, in that order and each of them once, but for the last one, where it is
/// still on its way or was not taken. Lines are read and passed on until the
/// stream ends, reading it fails or a line is not taken, and not after that.
pub proof fn lines_are_passed_on_in_order(m: PumpModel, events: Seq<PumpEvent>)
    requires
        m.stage is Reading,
    ensures
        ({
            let after = pumped(m, events);
            let taken = lines_answered(m, events, true);
            let refused = lines_answered(m, events, false);
            let read = lines_read(m, events);
            &&& after.signals == m.signals
            &&& pumping_ended(m, events) == !(after.stage is Reading || after.stage is Sending)
            &&& refused.len() <= 1
            &&& refused.len() == 1 ==> pumping_ended(m, events)
            &&& match after.stage {
                PumpStage::Sending(line) => read == taken.push(line),
                _ => read == taken + refused,
            }
        }),
    decreases events.len(),
{
    if events.len() == 0 {
        assert(Seq::<String>::empty() + Seq::<String>::empty() =~= Seq::<String>::empty());
    } else {
        let front = events.drop_last();
        let before = pumped(m, front);
        lines_are_passed_on_in_order(m, front);
        let taken = lines_answered(m, front, true);
        let refused = lines_answered(m, front, false);
        if !pumping_ended(m, front) {
            assert(taken + refused =~= taken);
        }
        if let PumpStage::Sending(line) = before.stage {
            assert(refused.push(line) =~= seq![line]);
            assert(taken + seq![line] =~= taken.push(line));
            assert(taken.push(line) + refused =~= taken.push(line));
        }
    }
}

/// Lines that are read one by one and all taken leave the pump reading, and are
/// all passed on: nothing is held back.
pub proof fn taken_lines_keep_the_pump_going(
    m: PumpModel,
    events: Seq<PumpEvent>,
    line: String,
)
    requires
        pumped(m, events).stage is Reading,
        line@.len() > 0,
    ensures
        ({
            let more = events.push(PumpEvent::Read(Some(line))).push(PumpEvent::Sent(true));
            &&& pumped(m, more) == pumped(m, events)
            &&& lines_read(m, more) == lines_read(m, events).push(line)
            &&& lines_answered(m, more, true) == lines_answered(m, events, true).push(line)
            &&& lines_answered(m, more, false) == lines_answered(m, events, false)
        }),
{
    let read = events.push(PumpEvent::Read(Some(line)));
    let more = read.push(PumpEvent::Sent(true));
    assert(read.drop_last() =~= events);
    assert(pumped(m, read).stage == PumpStage::Sending(line));
    assert(lines_read(m, read) == lines_read(m, events).push(line));
    assert(lines_answered(m, read, true) == lines_answered(m, events, true));
    assert(lines_answered(m, read, false) == lines_answered(m, events, false));
    assert(more.drop_last() =~= read);
}

/// Each message is written as it is, then ended by one newline, and then handed
/// to the server before the next one is taken.
pub proof fn messages_are_framed(message: String)
    ensures
        ({
            let done = WriterEvent::Done(Ok(()));
            let body = writer_stepped(
                WriterStage::Receiving,
                WriterEvent::Received(Some(message)),
            );
            let end = writer_stepped(body, done);
            let flushing = writer_stepped(end, done);
            &&& writer_action(body) == WriterAction::Write(message)
            &&& writer_action(end) == WriterAction::WriteNewline
            &&& writer_action(flushing) == WriterAction::Flush
            &&& writer_stepped(flushing, done) == WriterStage::Receiving
        }),
{
}

/// The writer after these answers.
pub open spec fn wrote(stage: WriterStage, events: Seq<WriterEvent>) -> WriterStage
    decreases events.len(),
{
    if events.len() == 0 {
        stage
    } else {
        writer_stepped(wrote(stage, events.drop_last()), events.last())
    }
}

/// The messages that were taken to be written, in the order in which they came.
pub open spec fn messages_taken(stage: WriterStage, events: Seq<WriterEvent>) -> Seq<String>
    decreases events.len(),
{
    if events.len() == 0 {
        Seq::empty()
    } else {
        let messages = messages_taken(stage, events.drop_last());
        match (wrote(stage, events.drop_last()), events.last()) {
            (
                WriterStage::Receiving,
                WriterEvent::Received(Some(message)),
            ) => messages.push(message),
            _ => messages,
        }
    }
}

/// The text that was written.
pub open spec fn text_written(stage: WriterStage, events: Seq<WriterEvent>) -> Seq<char>
    decreases events.len(),
{
    if events.len() == 0 {
        Seq::empty()
    } else {
        let text = text_written(stage, events.drop_last());
        match (wrote(stage, events.drop_last()), events.last()) {
            (WriterStage::Body(message), WriterEvent::Done(Ok(_))) => text + message@,
            (WriterStage::End, WriterEvent::Done(Ok(_))) => text + seq!['\n'],
            _ => text,
        }
    }
}

/// Messages as they are written: one after the other, each ended by a newline.
pub open spec fn framed(messages: Seq<String>) -> Seq<char>
    decreases messages.len(),
{
    if messages.len() == 0 {
        Seq::empty()
    } else {
        framed(messages.drop_last()) + messages.last()@ + seq!['\n']
    }
}

/// Whatever the answers, what was written is the messages that were taken, in
/// that order, each ended by a newline, but for what is still missing of the
/// last one. Nothing is missing once the writer waits for the next message, or
/// is over without an error.
pub proof fn messages_are_written_in_order(events: Seq<WriterEvent>)
    ensures
        ({
            let messages = messages_taken(WriterStage::Receiving, events);
            let text = text_written(WriterStage::Receiving, events);
            match wrote(WriterStage::Receiving, events) {
                WriterStage::Receiving => text == framed(messages),
                WriterStage::Body(message) => messages.len() > 0 && messages.last() == message
                    && text == framed(messages.drop_last()),
                WriterStage::End => messages.len() > 0 && text == framed(messages.drop_last())
                    + messages.last()@,
                WriterStage::Flushing => messages.len() > 0 && text == framed(messages),
                WriterStage::Over(Ok(_)) => text == framed(messages),
                WriterStage::Over(Err(_)) => messages.len() > 0 && (text == framed(
                    messages.drop_last(),
                ) || text == framed(messages.drop_last()) + messages.last()@ || text == framed(
                    messages,
                )),
            }
        }),
    decreases events.len(),
{
    if events.len() > 0 {
        let front = events.drop_last();
        messages_are_written_in_order(front);
        let before = messages_taken(WriterStage::Receiving, front);
        let messages = messages_taken(WriterStage::Receiving, events);
        if messages != before {
            assert(messages.drop_last() =~= before);
        }
    }
}

/// A failure to write ends the writer with that failure.
pub proof fn failed_write_ends_the_writer(stage: WriterStage, error: String)
    requires
        stage is Body || stage is End || stage is Flushing,
    ensures
        writer_stepped(stage, WriterEvent::Done(Err(error))) == WriterStage::Over(Err(error)),
{
}

/// A server that has exited is collected at the next look, however many there
/// were before.
pub proof fn exited_server_is_collected(attempts: usize)
    ensures
        (Reaper::Polling { attempts }).stepped(ReapEvent::Status(ServerStatus::Exited))
            == Reaper::Over(ReapOutcome::Collected),
{
}

/// The reaper after so many looks at a server that keeps running, each with the
/// while after it.
pub open spec fn after_looks(reaper: Reaper, looks: nat) -> Reaper
    decreases looks,
{
    if looks == 0 {
        reaper
    } else {
        after_looks(reaper, (looks - 1) as nat).stepped(
            ReapEvent::Status(ServerStatus::Running),
        ).stepped(ReapEvent::Elapsed)
    }
}

/// A server that keeps running is looked at exactly so many times, and then
/// left to itself.
pub proof fn reaping_is_bounded(looks: nat)
    ensures
        looks < REAP_ATTEMPTS ==> after_looks(Reaper::Polling { attempts: 0 }, looks)
            == (Reaper::Polling { attempts: looks as usize }),
        looks == REAP_ATTEMPTS ==> after_looks(Reaper::Polling { attempts: 0 }, looks)
            == Reaper::Over(ReapOutcome::GaveUp),
    decreases looks,
{
    if 0 < looks <= REAP_ATTEMPTS {
        reaping_is_bounded((looks - 1) as nat);
    }
}

/// A pump begins with reading, and asks for what its stage is about. The answer
/// to anything else changes nothing.
pub proof fn pump_waits_for_its_answer(m: PumpModel, line: String, event: PumpEvent)
    ensures
        m.stage is Reading ==> m.action() is ReadLine,
        m.stage == PumpStage::Sending(line) ==> m.action() == PumpAction::Send(line),
        m.stage is Signalling ==> m.action() is SignalClosed,
        m.stage is Over ==> m.action() is Stop && m.stepped(event) == m,
        m.stage is Reading && !(event is Read) ==> m.stepped(event) == m,
        m.stage is Sending && !(event is Sent) ==> m.stepped(event) == m,
        m.stage is Signalling && !(event is Signalled) ==> m.stepped(event) == m,
{
}

/// The errors of a server end without anybody being told; its output does not.
pub proof fn only_the_end_of_output_is_told(m: PumpModel, line: String)
    requires
        line@.len() == 0,
    ensures
        m.stage is Reading ==> {
            let (ended, broken) = (
                m.stepped(PumpEvent::Read(Some(line))),
                m.stepped(PumpEvent::Read(None)),
            );
            &&& ended.action() == if m.signals {
                PumpAction::SignalClosed
            } else {
                PumpAction::Stop
            }
            &&& broken == ended
        },
        m.stage is Sending ==> m.stepped(PumpEvent::Sent(false)).action() == if m.signals {
            PumpAction::SignalClosed
        } else {
            PumpAction::Stop
        },
{
}

/// A writer is over without an error once there are no more messages, and stays
/// over. The answer to anything else than what it asks for changes nothing.
pub proof fn writer_waits_for_its_answer(stage: WriterStage, event: WriterEvent)
    ensures
        writer_stepped(WriterStage::Receiving, WriterEvent::Received(None)) == WriterStage::Over(
            Ok(()),
        ),
        stage is Receiving && !(event is Received) ==> writer_stepped(stage, event) == stage,
        (stage is Body || stage is End || stage is Flushing) && !(event is Done) ==> writer_stepped(
            stage,
            event,
        ) == stage,
        stage is Over ==> writer_stepped(stage, event) == stage,
        stage matches WriterStage::Over(result) ==> writer_action(stage) == WriterAction::Finish(
            result,
        ),
        stage is Receiving ==> writer_action(stage) is Receive,
        stage matches WriterStage::Body(message) ==> writer_action(stage) == WriterAction::Write(
            message,
        ),
{
}

/// A server is looked at from when it closed its output, every tenth of a
/// second. Where nothing is told of its output, or nothing can be found out
/// about it, it is left alone.
pub proof fn closed_server_is_looked_at(attempts: usize)
    requires
        attempts < 100,
    ensures
        Reaper::Waiting.asked() is AwaitStdoutClosed,
        Reaper::Waiting.stepped(ReapEvent::StdoutClosed(true)) == (Reaper::Polling { attempts: 0 }),
        Reaper::Waiting.stepped(ReapEvent::StdoutClosed(false)) == Reaper::Over(
            ReapOutcome::Abandoned,
        ),
        (Reaper::Polling { attempts }).asked() is Poll,
        (Reaper::Polling { attempts }).stepped(ReapEvent::Status(ServerStatus::Running)).asked()
            == ReapAction::Sleep(100_000_000),
        (Reaper::Polling { attempts }).stepped(ReapEvent::Status(ServerStatus::Unknown))
            == Reaper::Over(ReapOutcome::Failed),
        (Reaper::Polling { attempts }).stepped(
            ReapEvent::Status(ServerStatus::Running),
        ).stepped(ReapEvent::Elapsed) == if attempts < 99 {
            Reaper::Polling { attempts: (attempts + 1) as usize }
        } else {
            Reaper::Over(ReapOutcome::GaveUp)
        },
{
}

/// What a reaper does not wait for changes nothing, and one that is over stays
/// over with its outcome.
pub proof fn reaper_waits_for_its_answer(reaper: Reaper, event: ReapEvent)
    ensures
        reaper is Waiting && !(event is StdoutClosed) ==> reaper.stepped(event) == reaper,
        reaper is Polling && !(event is Status) ==> reaper.stepped(event) == reaper,
        reaper is Pausing && !(event is Elapsed) ==> reaper.stepped(event) == reaper,
        reaper matches Reaper::Over(outcome) ==> reaper.stepped(event) == reaper && reaper.asked()
            == ReapAction::Finish(outcome),
{
}

} // verus!
