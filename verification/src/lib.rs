//! Restores per-monitor display settings through a compositor's IPC channel:
//! the wire codec, the layout model with its fingerprint, merge and command
//! rendering, and the session that decides what to ask of the compositor next.
//!
//! The library performs no I/O. A driver owns the connection and the store of
//! remembered layouts: it carries out each [`Step`] that the session asks for
//! and reports the outcome as an [`Event`].

pub mod digest;
pub mod fingerprint;
pub mod ipc;
pub mod layout;
pub mod message;
pub mod text;

use crate::fingerprint::fingerprint_text;
use crate::ipc::{transport_error_text, TransportError, TransportErrorView};
use crate::layout::{commands, compatible, merged, Layout, OutputView, ReconciliationError};
use crate::message::{all_successful, Message, MessageView, Response};
use crate::text::{debug_quoted, join, quoted, texts};
use vstd::prelude::*;

verus! {

/// What the user asks for.
#[derive(Clone, Copy, Debug, PartialEq, Eq, Structural)]
pub enum Action {
    /// Automatically configure layout.
    Auto,
    /// Record current layout for future detection.
    Save,
    /// List outputs of the current layout.
    List,
}

/// Why a layout could not be stored or loaded, with the cause in words.
#[derive(Debug)]
pub enum StorageError {
    /// Results from a file operation error.
    Io(String),
    /// Could not encode or decode to/from JSON.
    Json(String),
}

/// A storage error as a mathematical value.
pub enum StorageErrorView {
    Io(Seq<char>),
    Json(Seq<char>),
}

impl View for StorageError {
    type V = StorageErrorView;

    open spec fn view(&self) -> StorageErrorView {
        match self {
            StorageError::Io(cause) => StorageErrorView::Io(cause@),
            StorageError::Json(cause) => StorageErrorView::Json(cause@),
        }
    }
}

/// Why a run ended without success.
#[derive(Debug)]
pub enum Error {
    /// The exchange with the compositor failed.
    Ipc(TransportError),
    /// The report of the current layout could not be read.
    ActiveLayout(String),
    /// The remembered layout could not be read.
    Load(StorageError),
    /// The current layout could not be persisted.
    Save(StorageError),
    /// The remembered layout does not cover the current one.
    Reconciliation(ReconciliationError),
    /// The compositor refused this message.
    Configuration(Message),
    /// The driver reported something that the session had not asked for.
    Unexpected,
}

/// An error as a mathematical value.
pub enum ErrorView {
    Ipc(TransportErrorView),
    ActiveLayout(Seq<char>),
    Load(StorageErrorView),
    Save(StorageErrorView),
    Reconciliation(ReconciliationError),
    Configuration(MessageView),
    Unexpected,
}

impl View for Error {
    type V = ErrorView;

    open spec fn view(&self) -> ErrorView {
        match self {
            Error::Ipc(error) => ErrorView::Ipc(error@),
            Error::ActiveLayout(cause) => ErrorView::ActiveLayout(cause@),
            Error::Load(error) => ErrorView::Load(error@),
            Error::Save(error) => ErrorView::Save(error@),
            Error::Reconciliation(error) => ErrorView::Reconciliation(*error),
            Error::Configuration(message) => ErrorView::Configuration(message@),
            Error::Unexpected => ErrorView::Unexpected,
        }
    }
}

/// What the driver is asked to do next.
#[derive(Debug)]
pub enum Step {
    /// Send the message to the compositor and report its reply.
    Request(Message),
    /// Look up the layout that is remembered under the key.
    Load(String),
    /// Remember the layout under the key.
    Save(String, Layout),
    /// Stop: with the text to print, or with the error.
    Finish(Result<String, Error>),
}

/// A step as a mathematical value.
pub enum StepView {
    Request(MessageView),
    Load(Seq<char>),
    Save(Seq<char>, Seq<OutputView>),
    Finish(Result<Seq<char>, ErrorView>),
}

impl View for Step {
    type V = StepView;

    open spec fn view(&self) -> StepView {
        match self {
            Step::Request(message) => StepView::Request(message@),
            Step::Load(key) => StepView::Load(key@),
            Step::Save(key, layout) => StepView::Save(key@, layout@),
            Step::Finish(Ok(output)) => StepView::Finish(Ok(output@)),
            Step::Finish(Err(error)) => StepView::Finish(Err(error@)),
        }
    }
}

/// What the driver reports of the step that it was asked to do.
#[derive(Debug)]
pub enum Event {
    /// The compositor's reply to `GetOutputs`: the current layout.
    Outputs(Layout),
    /// The compositor's reply to a command: its records, or nothing where the
    /// reply could not be read as records.
    Responses(Option<Vec<Response>>),
    /// The outcome of looking up a remembered layout.
    Stored(Result<Layout, StorageError>),
    /// The outcome of remembering a layout.
    Saved(Result<(), StorageError>),
    /// The step could not be carried out.
    Failed(Error),
}

/// An event as a mathematical value.
pub enum EventView {
    Outputs(Seq<OutputView>),
    Responses(Option<Seq<Response>>),
    Stored(Result<Seq<OutputView>, StorageErrorView>),
    Saved(Result<(), StorageErrorView>),
    Failed(ErrorView),
}

impl View for Event {
    type V = EventView;

    open spec fn view(&self) -> EventView {
        match self {
            Event::Outputs(layout) => EventView::Outputs(layout@),
            Event::Responses(Some(responses)) => EventView::Responses(Some(responses@)),
            Event::Responses(None) => EventView::Responses(None),
            Event::Stored(Ok(layout)) => EventView::Stored(Ok(layout@)),
            Event::Stored(Err(error)) => EventView::Stored(Err(error@)),
            Event::Saved(Ok(())) => EventView::Saved(Ok(())),
            Event::Saved(Err(error)) => EventView::Saved(Err(error@)),
            Event::Failed(error) => EventView::Failed(error@),
        }
    }
}

/// How far a run has come.
#[derive(Debug)]
pub enum Session {
    /// The current layout was asked for.
    AwaitingOutputs(Action),
    /// The layout that is remembered for the current one was asked for.
    AwaitingStored(Layout),
    /// The command `current` was sent; those of `pending` wait, in order.
    Applying { current: String, pending: Vec<String> },
    /// The current layout was handed over to be remembered.
    Saving,
    /// The run is over.
    Finished,
}

/// A session as a mathematical value.
pub enum SessionView {
    AwaitingOutputs(Action),
    AwaitingStored(Seq<OutputView>),
    Applying { current: Seq<char>, pending: Seq<Seq<char>> },
    Saving,
    Finished,
}

impl View for Session {
    type V = SessionView;

    open spec fn view(&self) -> SessionView {
        match self {
            Session::AwaitingOutputs(action) => SessionView::AwaitingOutputs(*action),
            Session::AwaitingStored(layout) => SessionView::AwaitingStored(layout@),
            Session::Applying { current, pending } => SessionView::Applying {
                current: current@,
                pending: texts(pending@),
            },
            Session::Saving => SessionView::Saving,
            Session::Finished => SessionView::Finished,
        }
    }
}

/// The end of a run, with its outcome.
pub open spec fn finished(outcome: Result<Seq<char>, ErrorView>) -> (SessionView, StepView) {
    (SessionView::Finished, StepView::Finish(outcome))
}

/// Sending the commands in order: the first goes out and the others wait, and
/// with none left the run ends in success with nothing to print.
pub open spec fn issued(pending: Seq<Seq<char>>) -> (SessionView, StepView) {
    if pending.len() == 0 {
        finished(Ok(Seq::empty()))
    } else {
        (
            SessionView::Applying { current: pending[0], pending: pending.drop_first() },
            StepView::Request(MessageView::RunCommand(pending[0])),
        )
    }
}

/// The layout to configure: the current one with the remembered settings, or
/// the current one as it is where no file holds a layout for it. A remembered
/// layout that lacks one of the current outputs is an error, and so is one
/// that cannot be decoded.
pub open spec fn settled(
    layout: Seq<OutputView>,
    stored: Result<Seq<OutputView>, StorageErrorView>,
) -> Result<Seq<OutputView>, ErrorView> {
    match stored {
        Ok(remembered) => if compatible(layout, remembered) {
            Ok(merged(layout, remembered))
        } else {
            Err(ErrorView::Reconciliation(ReconciliationError))
        },
        Err(StorageErrorView::Io(_)) => Ok(layout),
        Err(StorageErrorView::Json(cause)) => Err(ErrorView::Load(StorageErrorView::Json(cause))),
    }
}

/// A reply reports success: it could be read, and each of its records does.
pub open spec fn succeeded(reply: Option<Seq<Response>>) -> bool {
    match reply {
        Some(responses) => all_successful(responses),
        None => false,
    }
}

/// What follows the report of the current layout, for each action.
pub open spec fn after_outputs(action: Action, layout: Seq<OutputView>) -> (SessionView, StepView) {
    match action {
        Action::Auto => (
            SessionView::AwaitingStored(layout),
            StepView::Load(fingerprint_text(layout)),
        ),
        Action::Save => (SessionView::Saving, StepView::Save(fingerprint_text(layout), layout)),
        Action::List => finished(Ok(join(commands(layout), "\n"@))),
    }
}

/// What follows the lookup of the remembered layout.
pub open spec fn after_stored(
    layout: Seq<OutputView>,
    stored: Result<Seq<OutputView>, StorageErrorView>,
) -> (SessionView, StepView) {
    match settled(layout, stored) {
        Ok(target) => issued(commands(target)),
        Err(error) => finished(Err(error)),
    }
}

/// What follows the reply to the command `current`: the next command where
/// the reply reports success, and else the end of the run, with no further
/// command sent.
pub open spec fn after_responses(
    current: Seq<char>,
    pending: Seq<Seq<char>>,
    reply: Option<Seq<Response>>,
) -> (SessionView, StepView) {
    if succeeded(reply) {
        issued(pending)
    } else {
        finished(Err(ErrorView::Configuration(MessageView::RunCommand(current))))
    }
}

/// The session after an event, and the step that it asks for. A failure ends
/// the run with its error; so does, with `Unexpected`, an event that does not
/// answer the step that the session asked for.
pub open spec fn transition(session: SessionView, event: EventView) -> (SessionView, StepView) {
    match (session, event) {
        (_, EventView::Failed(error)) => finished(Err(error)),
        (SessionView::AwaitingOutputs(action), EventView::Outputs(layout)) => after_outputs(
            action,
            layout,
        ),
        (SessionView::AwaitingStored(layout), EventView::Stored(stored)) => after_stored(
            layout,
            stored,
        ),
        (
            SessionView::Applying { current, pending },
            EventView::Responses(reply),
        ) => after_responses(current, pending, reply),
        (SessionView::Saving, EventView::Saved(Ok(()))) => finished(Ok(Seq::empty())),
        (SessionView::Saving, EventView::Saved(Err(error))) => finished(
            Err(ErrorView::Save(error)),
        ),
        _ => finished(Err(ErrorView::Unexpected)),
    }
}

/// While the replies report success the commands go out one by one, in
/// order, each after the reply to the one before, and after the last the run
/// ends in success.
pub proof fn successes_send_every_command(
    pending: Seq<Seq<char>>,
    k: int,
    reply: Option<Seq<Response>>,
)
    requires
        0 <= k < pending.len(),
        succeeded(reply),
    ensures
        issued(pending.skip(k)) == (
            SessionView::Applying { current: pending[k], pending: pending.skip(k + 1) },
            StepView::Request(MessageView::RunCommand(pending[k])),
        ),
        transition(issued(pending.skip(k)).0, EventView::Responses(reply)) == issued(
            pending.skip(k + 1),
        ),
        issued(pending.skip(pending.len() as int)) == finished(Ok(Seq::empty())),
{
    assert(pending.skip(k).drop_first() =~= pending.skip(k + 1));
}

/// The first reply that does not report success ends the run with the command
/// that it answers: the commands after it are not sent.
pub proof fn failure_stops_the_batch(
    pending: Seq<Seq<char>>,
    k: int,
    reply: Option<Seq<Response>>,
)
    requires
        0 <= k < pending.len(),
        !succeeded(reply),
    ensures
        transition(issued(pending.skip(k)).0, EventView::Responses(reply)) == finished(
            Err(ErrorView::Configuration(MessageView::RunCommand(pending[k]))),
        ),
{
}

/// A run that is over stays over, whatever is reported, and a step that ends
/// a run leaves the session over.
pub proof fn finished_is_final(session: SessionView, event: EventView)
    ensures
        transition(SessionView::Finished, event).0 == SessionView::Finished,
        transition(session, event).1 is Finish <==> transition(session, event).0
            == SessionView::Finished,
{
}

/// The action that a command-line argument names: `auto` where there is none.
pub open spec fn named_action(argument: Option<Seq<char>>) -> Option<Action> {
    match argument {
        None => Some(Action::Auto),
        Some(name) => if name == "auto"@ {
            Some(Action::Auto)
        } else if name == "save"@ {
            Some(Action::Save)
        } else if name == "list"@ {
            Some(Action::List)
        } else {
            None
        },
    }
}

/// A storage error in words.
pub open spec fn storage_error_text(error: StorageErrorView) -> Seq<char> {
    match error {
        StorageErrorView::Io(cause) => "storage: io: "@ + cause,
        StorageErrorView::Json(cause) => "storage: json: "@ + cause,
    }
}

/// A message as it is shown in an error.
pub open spec fn message_text(message: MessageView) -> Seq<char> {
    match message {
        MessageView::GetOutputs => "GetOutputs"@,
        MessageView::RunCommand(text) => "RunCommand("@ + quoted(text) + ")"@,
    }
}

/// An error in words.
pub open spec fn error_text(error: ErrorView) -> Seq<char> {
    match error {
        ErrorView::Ipc(error) => "could not communicate with sway: "@ + transport_error_text(
            error,
        ),
        ErrorView::ActiveLayout(cause) => "active layout request failed: "@ + cause,
        ErrorView::Load(error) => "could not load layout: "@ + storage_error_text(error),
        ErrorView::Save(error) => "could not persist layout: "@ + storage_error_text(error),
        ErrorView::Reconciliation(_) => "merge: incompatible layouts"@,
        ErrorView::Configuration(message) => "error applying settings: "@ + message_text(message),
        ErrorView::Unexpected => "unexpected event"@,
    }
}

impl StorageError {
    /// The error in words.
    pub fn describe(&self) -> (text: String)
        ensures
            text@ == storage_error_text(self@),
    {
        match self {
            StorageError::Io(cause) => String::from_str("storage: io: ").concat(cause.as_str()),
            StorageError::Json(cause) => String::from_str("storage: json: ").concat(
                cause.as_str(),
            ),
        }
    }
}

impl Error {
    /// The error in words.
    pub fn describe(&self) -> (text: String)
        ensures
            text@ == error_text(self@),
    {
        match self {
            Error::Ipc(error) => String::from_str("could not communicate with sway: ").concat(
                error.describe().as_str(),
            ),
            Error::ActiveLayout(cause) => String::from_str(
                "active layout request failed: ",
            ).concat(cause.as_str()),
            Error::Load(error) => String::from_str("could not load layout: ").concat(
                error.describe().as_str(),
            ),
            Error::Save(error) => String::from_str("could not persist layout: ").concat(
                error.describe().as_str(),
            ),
            Error::Reconciliation(_) => String::from_str("merge: incompatible layouts"),
            Error::Configuration(message) => {
                let shown = match message {
                    Message::GetOutputs => String::from_str("GetOutputs"),
                    Message::RunCommand(text) => String::from_str("RunCommand(").concat(
                        debug_quoted(text.as_str()).as_str(),
                    ).concat(")"),
                };
                String::from_str("error applying settings: ").concat(shown.as_str())
            },
            Error::Unexpected => String::from_str("unexpected event"),
        }
    }
}

/// Parses the action string to choose what to perform next. Without an
/// argument the action is `Auto`; an argument that names no action gives
/// nothing.
pub fn action_from(action: Option<String>) -> (chosen: Option<Action>)
    ensures
        chosen == named_action(
            match action {
                Some(name) => Some(name@),
                None => None,
            },
        ),
{
    match action {
        None => Some(Action::Auto),
        Some(name) => {
            if name == String::from_str("auto") {
                Some(Action::Auto)
            } else if name == String::from_str("save") {
                Some(Action::Save)
            } else if name == String::from_str("list") {
                Some(Action::List)
            } else {
                None
            }
        },
    }
}

/// Ends the run.
fn finish(outcome: Result<String, Error>) -> (next: (Session, Step))
    ensures
        next.0@ == SessionView::Finished,
        next.1 == Step::Finish(outcome),
{
    (Session::Finished, Step::Finish(outcome))
}

/// Sends the first of the commands and keeps the others waiting; with none
/// left the run ends in success.
fn issue(pending: Vec<String>) -> (next: (Session, Step))
    ensures
        (next.0@, next.1@) == issued(texts(pending@)),
{
    let mut pending = pending;
    if pending.len() == 0 {
        finish(Ok(String::new()))
    } else {
        let ghost all = texts(pending@);
        let current = pending.remove(0);
        assert(texts(pending@) =~= all.drop_first());
        assert(current@ == all[0]);
        (
            Session::Applying { current: current.clone(), pending },
            Step::Request(Message::RunCommand(current)),
        )
    }
}

/// Begins a run: asks the compositor what the current layout is.
pub fn request_active_layout(action: Action) -> (next: (Session, Step))
    ensures
        next.0@ == SessionView::AwaitingOutputs(action),
        next.1@ == StepView::Request(MessageView::GetOutputs),
{
    (Session::AwaitingOutputs(action), Step::Request(Message::GetOutputs))
}

/// Hands the layout over to be remembered under its fingerprint.
pub fn silently_save_layout(layout: Layout) -> (next: (Session, Step))
    ensures
        (next.0@, next.1@) == after_outputs(Action::Save, layout@),
{
    let key = layout.fingerprint();
    (Session::Saving, Step::Save(key, layout))
}

/// Merges saved configuration if found, or returns the current layout. A
/// saved configuration that cannot be decoded, or that lacks one of the
/// current outputs, is an error.
pub fn merge_or_current(layout: Layout, stored: Result<Layout, StorageError>) -> (target: Result<
    Layout,
    Error,
>)
    ensures
        match settled(
            layout@,
            match stored {
                Ok(remembered) => Ok(remembered@),
                Err(error) => Err(error@),
            },
        ) {
            Ok(expected) => target is Ok && target->Ok_0@ == expected,
            Err(error) => target is Err && target->Err_0@ == error,
        },
{
    match stored {
        Ok(remembered) => match layout.merge(remembered) {
            Ok(merged) => Ok(merged),
            Err(error) => Err(Error::Reconciliation(error)),
        },
        Err(StorageError::Io(_)) => Ok(layout),
        Err(StorageError::Json(cause)) => Err(Error::Load(StorageError::Json(cause))),
    }
}

/// Turns the layout, with what is remembered for it, into a sequence of
/// commands and sends the first.
pub fn apply_configuration(layout: Layout, stored: Result<Layout, StorageError>) -> (next: (
    Session,
    Step,
))
    ensures
        (next.0@, next.1@) == after_stored(
            layout@,
            match stored {
                Ok(remembered) => Ok(remembered@),
                Err(error) => Err(error@),
            },
        ),
{
    match merge_or_current(layout, stored) {
        Ok(target) => issue(target.serialize_commands()),
        Err(error) => finish(Err(error)),
    }
}

/// Looks at the reply to the command `current`: on success the next command
/// goes out, and else the run ends with the command that failed.
pub fn run_output_command(current: String, pending: Vec<String>, reply: Option<Vec<Response>>) -> (next:
    (Session, Step))
    ensures
        (next.0@, next.1@) == after_responses(
            current@,
            texts(pending@),
            match reply {
                Some(responses) => Some(responses@),
                None => None,
            },
        ),
{
    if Response::bulk_scan(reply) {
        issue(pending)
    } else {
        finish(Err(Error::Configuration(Message::RunCommand(current))))
    }
}

/// Takes the session one event further and says what to do next.
pub fn run(session: Session, event: Event) -> (next: (Session, Step))
    ensures
        (next.0@, next.1@) == transition(session@, event@),
{
    match event {
        Event::Failed(error) => finish(Err(error)),
        Event::Outputs(layout) => match session {
            Session::AwaitingOutputs(action) => match action {
                Action::Auto => {
                    let key = layout.fingerprint();
                    (Session::AwaitingStored(layout), Step::Load(key))
                },
                Action::Save => silently_save_layout(layout),
                Action::List => finish(Ok(layout.describe())),
            },
            _ => finish(Err(Error::Unexpected)),
        },
        Event::Stored(stored) => match session {
            Session::AwaitingStored(layout) => apply_configuration(layout, stored),
            _ => finish(Err(Error::Unexpected)),
        },
        Event::Responses(reply) => match session {
            Session::Applying { current, pending } => run_output_command(current, pending, reply),
            _ => finish(Err(Error::Unexpected)),
        },
        Event::Saved(outcome) => match session {
            Session::Saving => match outcome {
                Ok(()) => finish(Ok(String::new())),
                Err(error) => finish(Err(Error::Save(error))),
            },
            _ => finish(Err(Error::Unexpected)),
        },
    }
}

} // verus!
