//! The listener and the handling of one connection, as state machines.
//!
//! Neither machine touches a socket. Each tells its driver what to do next, and
//! the driver hands back what came of it as the next event.

use crate::network::{
    decode, encode, fields, lemma_decode_encode, lemma_fields_hold_no_delimiter, parse_packet,
    Packet, PacketView, PROTOCOL_VERSION,
};
use vstd::prelude::*;

verus! {

/// How grave a log entry is.
#[derive(Clone, Copy, PartialEq, Eq, Debug, Structural)]
pub enum Severity {
    /// Information.
    Log,
    /// A failure.
    Error,
}

/// One entry for the daemon's log.
#[derive(PartialEq, Eq, Debug)]
pub struct LogEntry {
    pub message: String,
    pub severity: Severity,
}

/// A log entry as a mathematical value.
pub struct LogEntryView {
    pub message: Seq<char>,
    pub severity: Severity,
}

impl View for LogEntry {
    type V = LogEntryView;

    open spec fn view(&self) -> LogEntryView {
        LogEntryView { message: self.message@, severity: self.severity }
    }
}

/// The view of an entry that may be absent.
pub open spec fn log_view(log: Option<LogEntry>) -> Option<LogEntryView> {
    match log {
        Some(entry) => Some(entry@),
        None => None,
    }
}

/// An entry of severity `Log`.
pub open spec fn info(message: Seq<char>) -> LogEntryView {
    LogEntryView { message, severity: Severity::Log }
}

/// An entry of severity `Error`.
pub open spec fn failure(message: Seq<char>) -> LogEntryView {
    LogEntryView { message, severity: Severity::Error }
}

/// The entry whose message is `prefix` followed by `detail`.
fn entry(prefix: &str, detail: &str, severity: Severity) -> (e: LogEntry)
    ensures
        e@ == (LogEntryView { message: prefix@ + detail@, severity }),
{
    let mut message = prefix.to_owned();
    message.append(detail);
    LogEntry { message, severity }
}

/// Where a connection stands.
#[derive(Clone, Copy, PartialEq, Eq, Debug, Structural)]
pub enum ConnectionState {
    /// Waiting for the next line.
    Reading,
    /// Deciding what a line asks for. A step passes through this state and never
    /// rests in it.
    Dispatching,
    /// Waiting for a response to be written and flushed.
    Writing,
    /// Done. No event is awaited any more.
    Closed,
}

/// What came of the action that a connection was waiting for.
#[derive(PartialEq, Eq, Debug)]
pub enum ConnectionEvent {
    /// A line arrived; the text is the line without its terminator.
    Line(String),
    /// The peer closed the stream.
    EndOfStream,
    /// Reading failed because the peer is gone.
    BrokenPipe,
    /// Reading failed for the reason given.
    ReadFailed(String),
    /// The response was written and flushed.
    Written,
    /// Writing or flushing the response failed for the reason given.
    WriteFailed(String),
}

/// An event as a mathematical value.
pub enum ConnectionEventView {
    Line(Seq<char>),
    EndOfStream,
    BrokenPipe,
    ReadFailed(Seq<char>),
    Written,
    WriteFailed(Seq<char>),
}

impl View for ConnectionEvent {
    type V = ConnectionEventView;

    open spec fn view(&self) -> ConnectionEventView {
        match self {
            ConnectionEvent::Line(line) => ConnectionEventView::Line(line@),
            ConnectionEvent::EndOfStream => ConnectionEventView::EndOfStream,
            ConnectionEvent::BrokenPipe => ConnectionEventView::BrokenPipe,
            ConnectionEvent::ReadFailed(reason) => ConnectionEventView::ReadFailed(reason@),
            ConnectionEvent::Written => ConnectionEventView::Written,
            ConnectionEvent::WriteFailed(reason) => ConnectionEventView::WriteFailed(reason@),
        }
    }
}

/// What the driver of a connection does next.
#[derive(PartialEq, Eq, Debug)]
pub enum ConnectionAction {
    /// Read one line; the outcome is `Line`, `EndOfStream`, `BrokenPipe` or
    /// `ReadFailed`.
    ReadLine,
    /// Write this frame and flush; the outcome is `Written` or `WriteFailed`.
    Write(String),
    /// Drop the connection; nothing follows.
    Close,
}

/// An action as a mathematical value.
pub enum ConnectionActionView {
    ReadLine,
    Write(Seq<char>),
    Close,
}

impl View for ConnectionAction {
    type V = ConnectionActionView;

    open spec fn view(&self) -> ConnectionActionView {
        match self {
            ConnectionAction::ReadLine => ConnectionActionView::ReadLine,
            ConnectionAction::Write(frame) => ConnectionActionView::Write(frame@),
            ConnectionAction::Close => ConnectionActionView::Close,
        }
    }
}

/// One step of a connection: the state it is in now, what to log, and what to do
/// next. The entry, if any, is logged before the action is performed.
#[derive(PartialEq, Eq, Debug)]
pub struct ConnectionStep {
    pub state: ConnectionState,
    pub log: Option<LogEntry>,
    pub action: ConnectionAction,
}

/// A step as a mathematical value.
pub struct ConnectionStepView {
    pub state: ConnectionState,
    pub log: Option<LogEntryView>,
    pub action: ConnectionActionView,
}

impl View for ConnectionStep {
    type V = ConnectionStepView;

    open spec fn view(&self) -> ConnectionStepView {
        ConnectionStepView {
            state: self.state,
            log: log_view(self.log),
            action: self.action@,
        }
    }
}

/// The step that waits for the next line.
pub open spec fn read_next(log: Option<LogEntryView>) -> ConnectionStepView {
    ConnectionStepView {
        state: ConnectionState::Reading,
        log,
        action: ConnectionActionView::ReadLine,
    }
}

/// The step that ends the connection.
pub open spec fn close(log: Option<LogEntryView>) -> ConnectionStepView {
    ConnectionStepView {
        state: ConnectionState::Closed,
        log,
        action: ConnectionActionView::Close,
    }
}

/// The first step of a connection: its receipt is logged and the first line is
/// awaited.
pub open spec fn connection_start() -> ConnectionStepView {
    read_next(Some(info("Received connection"@)))
}

/// The response to a greeting: the same payload, and this side's version.
pub open spec fn response_to(payload: Seq<char>) -> PacketView {
    PacketView::HelloResponse(payload, PROTOCOL_VERSION)
}

/// What a line leads to.
///
/// A greeting is logged and answered with one response frame. A response from
/// the peer is passed over. A line that stands for no packet is logged as
/// malformed and then passed over like `Unknown`.
pub open spec fn line_step(line: Seq<char>) -> ConnectionStepView {
    match decode(line) {
        Some(PacketView::Hello(payload)) => ConnectionStepView {
            state: ConnectionState::Writing,
            log: Some(info("Received hello packet: "@ + payload)),
            action: ConnectionActionView::Write(encode(response_to(payload))),
        },
        Some(_) => read_next(None),
        None => read_next(
            Some(failure("Received malfomed packet: "@ + "Packet parse error occured"@)),
        ),
    }
}

/// The transition function of a connection: the step that `event` leads to in
/// `state`, or `None` where that state does not await that event.
///
/// While reading: a line is dispatched; the end of the stream and a broken pipe
/// close the connection in silence; any other failure is logged and closes it.
/// While writing: success leads back to reading; failure is logged and closes
/// the connection. `Dispatching` and `Closed` await nothing.
pub open spec fn connection_step(
    state: ConnectionState,
    event: ConnectionEventView,
) -> Option<ConnectionStepView> {
    match (state, event) {
        (ConnectionState::Reading, ConnectionEventView::Line(line)) => Some(line_step(line)),
        (ConnectionState::Reading, ConnectionEventView::EndOfStream) => Some(close(None)),
        (ConnectionState::Reading, ConnectionEventView::BrokenPipe) => Some(close(None)),
        (ConnectionState::Reading, ConnectionEventView::ReadFailed(reason)) => Some(
            close(Some(failure("Failed to read line: "@ + reason))),
        ),
        (ConnectionState::Writing, ConnectionEventView::Written) => Some(read_next(None)),
        (ConnectionState::Writing, ConnectionEventView::WriteFailed(reason)) => Some(
            close(Some(failure("Failed to write response: "@ + reason))),
        ),
        _ => None,
    }
}

/// A greeting is answered with the frame of a response that carries the
/// greeting's own payload and this side's version, and that frame reads back as
/// exactly that response.
pub proof fn lemma_greeting_is_answered(line: Seq<char>, payload: Seq<char>)
    requires
        decode(line) == Some(PacketView::Hello(payload)),
    ensures
        line_step(line).state == ConnectionState::Writing,
        line_step(line).action == ConnectionActionView::Write(encode(response_to(payload))),
        decode(encode(response_to(payload)).drop_last()) == Some(response_to(payload)),
{
    assert(payload == fields(line)[1]);
    lemma_fields_hold_no_delimiter(line, 1);
    lemma_decode_encode(response_to(payload));
}

/// Whether a line stands for a greeting.
pub open spec fn is_greeting(line: Seq<char>) -> bool {
    decode(line) matches Some(PacketView::Hello(_))
}

/// A step writes a frame exactly when a greeting was read, and then it writes
/// one frame. So every greeting gets one response and nothing else gets any.
pub proof fn lemma_one_response_per_greeting(state: ConnectionState, event: ConnectionEventView)
    ensures
        (match connection_step(state, event) {
            Some(step) => step.action is Write,
            None => false,
        }) <==> (match event {
            ConnectionEventView::Line(line) => state == ConnectionState::Reading && is_greeting(
                line,
            ),
            _ => false,
        }),
{
}

/// In every step the state and the action go together: a connection reads
/// while it waits for a line, writes while it waits for the response to be
/// written, and is dropped when it is closed. No step rests in `Dispatching`.
pub proof fn lemma_action_fits_state(state: ConnectionState, event: ConnectionEventView)
    ensures
        connection_step(state, event) matches Some(step) ==> {
            &&& step.state == ConnectionState::Reading <==> step.action is ReadLine
            &&& step.state == ConnectionState::Writing <==> step.action is Write
            &&& step.state == ConnectionState::Closed <==> step.action is Close
            &&& step.state != ConnectionState::Dispatching
        },
{
}

/// While a response is being written no line is taken: the next line is read
/// only after the response is out.
pub proof fn lemma_no_line_while_writing(line: Seq<char>)
    ensures
        connection_step(ConnectionState::Writing, ConnectionEventView::Line(line)).is_none(),
        connection_step(ConnectionState::Writing, ConnectionEventView::Written) == Some(
            read_next(None),
        ),
{
}

/// A closed connection takes no step.
pub proof fn lemma_closed_is_final(event: ConnectionEventView)
    ensures
        connection_step(ConnectionState::Closed, event).is_none(),
{
}

/// A malformed line is logged as an error, gets no response, and leaves the
/// connection open.
pub proof fn lemma_malformed_line_is_passed_over(line: Seq<char>)
    requires
        decode(line).is_none(),
    ensures
        line_step(line).state == ConnectionState::Reading,
        line_step(line).action == ConnectionActionView::ReadLine,
        match line_step(line).log {
            Some(entry) => entry.severity == Severity::Error,
            None => false,
        },
{
}

/// The frames that a run of events makes a connection write, from `state` on
/// and in order; `None` where one of the events is not awaited when it comes.
pub open spec fn frames_written(
    state: ConnectionState,
    events: Seq<ConnectionEventView>,
) -> Option<Seq<Seq<char>>>
    decreases events.len(),
{
    if events.len() == 0 {
        Some(Seq::empty())
    } else {
        match connection_step(state, events[0]) {
            Some(step) => match frames_written(step.state, events.drop_first()) {
                Some(later) => Some(
                    match step.action {
                        ConnectionActionView::Write(frame) => seq![frame] + later,
                        _ => later,
                    },
                ),
                None => None,
            },
            None => None,
        }
    }
}

/// The frames that the greetings among `events` are owed: for each line that
/// stands for a greeting, in order, the frame of the response to it.
pub open spec fn frames_owed(events: Seq<ConnectionEventView>) -> Seq<Seq<char>>
    decreases events.len(),
{
    if events.len() == 0 {
        Seq::empty()
    } else {
        let later = frames_owed(events.drop_first());
        match events[0] {
            ConnectionEventView::Line(line) => match decode(line) {
                Some(PacketView::Hello(payload)) => seq![encode(response_to(payload))] + later,
                _ => later,
            },
            _ => later,
        }
    }
}

/// Whatever a connection lives through, it writes the responses to the
/// greetings it read, each once and in the order of the greetings, and it
/// writes nothing else.
pub proof fn lemma_each_greeting_is_answered_once(
    state: ConnectionState,
    events: Seq<ConnectionEventView>,
)
    requires
        frames_written(state, events).is_some(),
    ensures
        frames_written(state, events) == Some(frames_owed(events)),
    decreases events.len(),
{
    if events.len() > 0 {
        let step = connection_step(state, events[0]).unwrap();
        lemma_each_greeting_is_answered_once(step.state, events.drop_first());
    }
}

/// The step that waits for the next line.
fn wait_for_line(log: Option<LogEntry>) -> (step: ConnectionStep)
    ensures
        step@ == read_next(log_view(log)),
{
    ConnectionStep { state: ConnectionState::Reading, log, action: ConnectionAction::ReadLine }
}

/// The step that ends the connection.
fn hang_up(log: Option<LogEntry>) -> (step: ConnectionStep)
    ensures
        step@ == close(log_view(log)),
{
    ConnectionStep { state: ConnectionState::Closed, log, action: ConnectionAction::Close }
}

/// Begins the handling of an accepted connection: its receipt is logged and
/// the first line is awaited.
pub fn handle_stream() -> (step: ConnectionStep)
    ensures
        step@ == connection_start(),
{
    let receipt = LogEntry { message: "Received connection".to_owned(), severity: Severity::Log };
    wait_for_line(Some(receipt))
}

/// Decides what one received line leads to.
pub fn handle_line(line: &str) -> (step: ConnectionStep)
    ensures
        step@ == line_step(line@),
{
    let (packet, complaint) = match parse_packet(line) {
        Ok(packet) => (packet, None),
        Err(e) => {
            let reason = e.message();
            let complaint = entry("Received malfomed packet: ", reason.as_str(), Severity::Error);
            (Packet::Unknown, Some(complaint))
        },
    };
    match packet {
        Packet::Hello(payload) => {
            let receipt = entry("Received hello packet: ", payload.as_str(), Severity::Log);
            let response = Packet::HelloResponse(payload, PROTOCOL_VERSION);
            ConnectionStep {
                state: ConnectionState::Writing,
                log: Some(receipt),
                action: ConnectionAction::Write(response.encode()),
            }
        },
        Packet::HelloResponse(_, _) => wait_for_line(complaint),
        Packet::Unknown => wait_for_line(complaint),
    }
}

impl ConnectionState {
    /// Takes the connection one step on: from this state, by `event`.
    ///
    /// Returns the step of the transition function, and `None` exactly where this
    /// state does not await `event`.
    pub fn step(self, event: ConnectionEvent) -> (r: Option<ConnectionStep>)
        ensures
            match r {
                Some(step) => connection_step(self, event@) == Some(step@),
                None => connection_step(self, event@).is_none(),
            },
    {
        match (self, event) {
            (ConnectionState::Reading, ConnectionEvent::Line(line)) => Some(
                handle_line(line.as_str()),
            ),
            (ConnectionState::Reading, ConnectionEvent::EndOfStream) => Some(hang_up(None)),
            (ConnectionState::Reading, ConnectionEvent::BrokenPipe) => Some(hang_up(None)),
            (ConnectionState::Reading, ConnectionEvent::ReadFailed(reason)) => {
                let complaint = entry("Failed to read line: ", reason.as_str(), Severity::Error);
                Some(hang_up(Some(complaint)))
            },
            (ConnectionState::Writing, ConnectionEvent::Written) => Some(wait_for_line(None)),
            (ConnectionState::Writing, ConnectionEvent::WriteFailed(reason)) => {
                let complaint = entry(
                    "Failed to write response: ",
                    reason.as_str(),
                    Severity::Error,
                );
                Some(hang_up(Some(complaint)))
            },
            _ => None,
        }
    }
}

/// The permission bits that the socket file gets once it is bound: every local
/// user may read, write and connect.
pub const SOCKET_MODE: u32 = 0o777;

/// Where the listener stands.
#[derive(Clone, Copy, PartialEq, Eq, Debug, Structural)]
pub enum ListenerState {
    /// Waiting for the socket to be bound.
    Binding,
    /// Waiting for the next connection.
    Accepting,
    /// Done. Nothing is accepted any more.
    Stopped,
}

/// What came of the command that the listener was waiting for.
#[derive(PartialEq, Eq, Debug)]
pub enum ListenerEvent {
    /// The socket is bound.
    Bound,
    /// Binding failed for the reason given.
    BindFailed(String),
    /// A connection came in.
    Accepted,
    /// Accepting failed for the reason given.
    AcceptFailed(String),
}

/// A listener event as a mathematical value.
pub enum ListenerEventView {
    Bound,
    BindFailed(Seq<char>),
    Accepted,
    AcceptFailed(Seq<char>),
}

impl View for ListenerEvent {
    type V = ListenerEventView;

    open spec fn view(&self) -> ListenerEventView {
        match self {
            ListenerEvent::Bound => ListenerEventView::Bound,
            ListenerEvent::BindFailed(reason) => ListenerEventView::BindFailed(reason@),
            ListenerEvent::Accepted => ListenerEventView::Accepted,
            ListenerEvent::AcceptFailed(reason) => ListenerEventView::AcceptFailed(reason@),
        }
    }
}

/// One thing for the driver of the listener to do with the socket path.
#[derive(Clone, Copy, PartialEq, Eq, Debug, Structural)]
pub enum ListenerCommand {
    /// Remove whatever file is at the path. That there is none, or that it cannot
    /// be removed, is passed over.
    RemoveStale,
    /// Bind a listening socket at the path; the outcome is `Bound` or
    /// `BindFailed`.
    Bind,
    /// Give the socket file these permission bits. Failure is passed over.
    SetMode(u32),
    /// Hand the connection that was just accepted to a handler of its own.
    Serve,
    /// Wait for a connection; the outcome is `Accepted` or `AcceptFailed`.
    Accept,
}

/// One step of the listener: the state it is in now, what to log, and the
/// commands to carry out in order. The outcome of the last command is the next
/// event; with no command the listener has stopped.
#[derive(PartialEq, Eq, Debug)]
pub struct ListenerStep {
    pub state: ListenerState,
    pub log: Option<LogEntry>,
    pub commands: Vec<ListenerCommand>,
}

/// A listener step as a mathematical value.
pub struct ListenerStepView {
    pub state: ListenerState,
    pub log: Option<LogEntryView>,
    pub commands: Seq<ListenerCommand>,
}

impl View for ListenerStep {
    type V = ListenerStepView;

    open spec fn view(&self) -> ListenerStepView {
        ListenerStepView {
            state: self.state,
            log: log_view(self.log),
            commands: self.commands@,
        }
    }
}

/// The step that ends the listener.
pub open spec fn stop(log: LogEntryView) -> ListenerStepView {
    ListenerStepView { state: ListenerState::Stopped, log: Some(log), commands: Seq::empty() }
}

/// The first step of the listener: a stale socket file is cleared away and the
/// socket is bound.
pub open spec fn listener_start() -> ListenerStepView {
    ListenerStepView {
        state: ListenerState::Binding,
        log: None,
        commands: seq![ListenerCommand::RemoveStale, ListenerCommand::Bind],
    }
}

/// The transition function of the listener at `path`: the step that `event`
/// leads to in `state`, or `None` where that state does not await that event.
///
/// Once bound, the socket file is opened to every local user and the first
/// connection is awaited. Each connection is handed to a handler and the next
/// one is awaited. A failure to bind or to accept is logged and stops the
/// listener for good.
pub open spec fn listener_step(
    state: ListenerState,
    path: Seq<char>,
    event: ListenerEventView,
) -> Option<ListenerStepView> {
    match (state, event) {
        (ListenerState::Binding, ListenerEventView::Bound) => Some(
            ListenerStepView {
                state: ListenerState::Accepting,
                log: None,
                commands: seq![ListenerCommand::SetMode(SOCKET_MODE), ListenerCommand::Accept],
            },
        ),
        (ListenerState::Binding, ListenerEventView::BindFailed(reason)) => Some(
            stop(failure("Failed to bind to "@ + path + ": "@ + reason)),
        ),
        (ListenerState::Accepting, ListenerEventView::Accepted) => Some(
            ListenerStepView {
                state: ListenerState::Accepting,
                log: None,
                commands: seq![ListenerCommand::Serve, ListenerCommand::Accept],
            },
        ),
        (ListenerState::Accepting, ListenerEventView::AcceptFailed(reason)) => Some(
            stop(failure("Failed to accept connection: "@ + reason)),
        ),
        _ => None,
    }
}

/// The state that a run of events leads the listener at `path` to, from `state`;
/// `None` where one of the events is not awaited when it comes.
pub open spec fn listener_run(
    state: ListenerState,
    path: Seq<char>,
    events: Seq<ListenerEventView>,
) -> Option<ListenerState>
    decreases events.len(),
{
    if events.len() == 0 {
        Some(state)
    } else {
        match listener_step(state, path, events[0]) {
            Some(step) => listener_run(step.state, path, events.drop_first()),
            None => None,
        }
    }
}

/// However many connections come in, the listener goes on accepting: each one
/// is handed to a handler and the next one is awaited.
pub proof fn lemma_listener_keeps_accepting(path: Seq<char>, events: Seq<ListenerEventView>)
    requires
        forall|i: int| 0 <= i < events.len() ==> events[i] == ListenerEventView::Accepted,
    ensures
        listener_run(ListenerState::Accepting, path, events) == Some(ListenerState::Accepting),
        listener_step(ListenerState::Accepting, path, ListenerEventView::Accepted).unwrap().commands
            == seq![ListenerCommand::Serve, ListenerCommand::Accept],
    decreases events.len(),
{
    if events.len() > 0 {
        lemma_listener_keeps_accepting(path, events.drop_first());
    }
}

/// The listener stops exactly on a failure to bind or to accept, logs it as an
/// error, and is given nothing more to do.
pub proof fn lemma_listener_stops_on_failure(
    state: ListenerState,
    path: Seq<char>,
    event: ListenerEventView,
)
    ensures
        listener_step(state, path, event) matches Some(step) ==> {
            &&& step.state == ListenerState::Stopped <==> event is BindFailed
                || event is AcceptFailed
            &&& step.state == ListenerState::Stopped <==> step.commands.len() == 0
            &&& step.state == ListenerState::Stopped ==> (match step.log {
                Some(entry) => entry.severity == Severity::Error,
                None => false,
            })
        },
        listener_step(ListenerState::Stopped, path, event).is_none(),
{
}

/// The step that ends the listener.
fn give_up(complaint: LogEntry) -> (step: ListenerStep)
    ensures
        step@ == stop(complaint@),
{
    ListenerStep { state: ListenerState::Stopped, log: Some(complaint), commands: Vec::new() }
}

/// The step that carries out `first` and then `awaited`.
fn carry_out(
    state: ListenerState,
    first: ListenerCommand,
    awaited: ListenerCommand,
) -> (step: ListenerStep)
    ensures
        step@ == (ListenerStepView { state, log: None, commands: seq![first, awaited] }),
{
    ListenerStep { state, log: None, commands: vec![first, awaited] }
}

/// Begins the life of the listener: a stale socket file is cleared away and
/// the socket is bound.
pub fn listen() -> (step: ListenerStep)
    ensures
        step@ == listener_start(),
{
    carry_out(ListenerState::Binding, ListenerCommand::RemoveStale, ListenerCommand::Bind)
}

impl ListenerState {
    /// Takes the listener at `path` one step on: from this state, by `event`.
    ///
    /// Returns the step of the transition function, and `None` exactly where this
    /// state does not await `event`.
    pub fn step(self, path: &str, event: ListenerEvent) -> (r: Option<ListenerStep>)
        ensures
            match r {
                Some(step) => listener_step(self, path@, event@) == Some(step@),
                None => listener_step(self, path@, event@).is_none(),
            },
    {
        match (self, event) {
            (ListenerState::Binding, ListenerEvent::Bound) => Some(
                carry_out(
                    ListenerState::Accepting,
                    ListenerCommand::SetMode(SOCKET_MODE),
                    ListenerCommand::Accept,
                ),
            ),
            (ListenerState::Binding, ListenerEvent::BindFailed(reason)) => {
                let mut place = path.to_owned();
                place.append(": ");
                place.append(reason.as_str());
                let complaint = entry("Failed to bind to ", place.as_str(), Severity::Error);
                assert(complaint@.message =~= "Failed to bind to "@ + path@ + ": "@ + reason@);
                Some(give_up(complaint))
            },
            (ListenerState::Accepting, ListenerEvent::Accepted) => Some(
                carry_out(
                    ListenerState::Accepting,
                    ListenerCommand::Serve,
                    ListenerCommand::Accept,
                ),
            ),
            (ListenerState::Accepting, ListenerEvent::AcceptFailed(reason)) => {
                let complaint = entry(
                    "Failed to accept connection: ",
                    reason.as_str(),
                    Severity::Error,
                );
                Some(give_up(complaint))
            },
            _ => None,
        }
    }
}

} // verus!
