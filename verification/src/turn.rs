//! One turn of the conversation: a draft is opened, the assistant's reply is
//! streamed into it, and the draft is finalized, whatever happens in between.
//!
//! [`Turn`] makes the decisions. It says what is to be done next; whoever drives
//! it does that and hands back what came of it.
use crate::assistant::{Assistant, AssistantView};
use crate::json::{text_json, JsonView};
use crate::output::{
    carries, law_lines_say_what_their_records_say, line_signal, read_line, Signal, SignalView,
};
use crate::text::{byte_len, byte_length, texts, trim, trimmed};
use vstd::prelude::*;
use vstd::string::*;

verus! {

/// Where a turn stands.
#[derive(Debug, PartialEq)]
pub enum Phase {
    /// The draft is to be opened.
    Drafting,
    /// The working directory is to be looked for.
    Probing,
    /// The assistant is to be started.
    Starting,
    /// The next line of its output is to be read.
    Reading,
    /// What it has said so far is to be appended; there is more to read.
    Flushing,
    /// What it has said last is to be appended.
    Draining,
    /// Its end is to be waited for.
    Waiting,
    /// What it has complained of is to be read.
    Diagnosing,
    /// This notice is to be appended.
    Noticing(String),
    /// The draft is to be finalized.
    Finalizing,
    /// The turn is over.
    Finished,
    /// The turn is over before it began: there is no draft, for this reason.
    Refused(String),
}

/// The model of a [`Phase`].
pub enum PhaseView {
    Drafting,
    Probing,
    Starting,
    Reading,
    Flushing,
    Draining,
    Waiting,
    Diagnosing,
    Noticing(Seq<char>),
    Finalizing,
    Finished,
    Refused(Seq<char>),
}

impl View for Phase {
    type V = PhaseView;

    open spec fn view(&self) -> PhaseView {
        match self {
            Phase::Drafting => PhaseView::Drafting,
            Phase::Probing => PhaseView::Probing,
            Phase::Starting => PhaseView::Starting,
            Phase::Reading => PhaseView::Reading,
            Phase::Flushing => PhaseView::Flushing,
            Phase::Draining => PhaseView::Draining,
            Phase::Waiting => PhaseView::Waiting,
            Phase::Diagnosing => PhaseView::Diagnosing,
            Phase::Noticing(notice) => PhaseView::Noticing(notice@),
            Phase::Finalizing => PhaseView::Finalizing,
            Phase::Finished => PhaseView::Finished,
            Phase::Refused(why) => PhaseView::Refused(why@),
        }
    }
}

/// How the assistant is started.
#[derive(Debug, PartialEq)]
pub struct Launch {
    pub command: String,
    pub arguments: Vec<String>,
    pub workdir: String,
    /// The environment variables that are taken away.
    pub unset: Vec<String>,
}

/// The model of a [`Launch`].
#[verifier::ext_equal]
pub struct LaunchView {
    pub command: Seq<char>,
    pub arguments: Seq<Seq<char>>,
    pub workdir: Seq<char>,
    pub unset: Seq<Seq<char>>,
}

impl View for Launch {
    type V = LaunchView;

    open spec fn view(&self) -> LaunchView {
        LaunchView {
            command: self.command@,
            arguments: texts(self.arguments@),
            workdir: self.workdir@,
            unset: texts(self.unset@),
        }
    }
}

/// What is to be done next.
#[derive(Debug, PartialEq)]
pub enum Action {
    /// Open a draft in this conversation.
    CreateDraft(String),
    /// See whether this is a directory.
    CheckWorkdir(String),
    /// Start the assistant.
    Start(Launch),
    /// Read a line of its output.
    ReadLine,
    /// Append to this message this text.
    Append(String, String),
    /// Wait until it has ended.
    WaitForExit,
    /// Read what it has written to its error output.
    ReadErrors,
    /// Finalize this message.
    Finalize(String),
    /// Nothing.
    Done,
    /// Nothing; report this failure.
    Fail(String),
}

/// The model of an [`Action`].
pub enum ActionView {
    CreateDraft(Seq<char>),
    CheckWorkdir(Seq<char>),
    Start(LaunchView),
    ReadLine,
    Append(Seq<char>, Seq<char>),
    WaitForExit,
    ReadErrors,
    Finalize(Seq<char>),
    Done,
    Fail(Seq<char>),
}

impl View for Action {
    type V = ActionView;

    open spec fn view(&self) -> ActionView {
        match self {
            Action::CreateDraft(chat_id) => ActionView::CreateDraft(chat_id@),
            Action::CheckWorkdir(workdir) => ActionView::CheckWorkdir(workdir@),
            Action::Start(launch) => ActionView::Start(launch@),
            Action::ReadLine => ActionView::ReadLine,
            Action::Append(message_id, text) => ActionView::Append(message_id@, text@),
            Action::WaitForExit => ActionView::WaitForExit,
            Action::ReadErrors => ActionView::ReadErrors,
            Action::Finalize(message_id) => ActionView::Finalize(message_id@),
            Action::Done => ActionView::Done,
            Action::Fail(why) => ActionView::Fail(why@),
        }
    }
}

/// How the start of the assistant went.
#[derive(Debug, PartialEq, Clone, Copy)]
pub enum Start {
    Running,
    /// It could not be started.
    NotStarted,
    /// Its output cannot be read.
    NoOutput,
}

/// What came of an action.
#[derive(Debug, PartialEq)]
pub enum Event {
    /// The id of the draft, or why there is none.
    Draft(Result<String, String>),
    /// Whether the working directory is one.
    Workdir(bool),
    Started(Start),
    /// A line of output, and the milliseconds since text was last appended.
    Line(String, u128),
    /// There is no more output.
    OutputEnded,
    /// The output cannot be read on; why.
    OutputBroken(String),
    /// The text was appended, or that failed: it makes no difference.
    Appended,
    /// The assistant has ended, with success or without.
    Exited(bool),
    /// Whether the assistant has ended cannot be told; why.
    ExitUnknown(String),
    /// What the assistant has written to its error output.
    Errors(String),
    /// The message was finalized, or that failed: it makes no difference.
    Finalized,
}

/// The model of an [`Event`].
pub enum EventView {
    Draft(Result<Seq<char>, Seq<char>>),
    Workdir(bool),
    Started(Start),
    Line(Seq<char>, u128),
    OutputEnded,
    OutputBroken(Seq<char>),
    Appended,
    Exited(bool),
    ExitUnknown(Seq<char>),
    Errors(Seq<char>),
    Finalized,
}

impl View for Event {
    type V = EventView;

    open spec fn view(&self) -> EventView {
        match self {
            Event::Draft(Ok(id)) => EventView::Draft(Ok(id@)),
            Event::Draft(Err(why)) => EventView::Draft(Err(why@)),
            Event::Workdir(exists) => EventView::Workdir(*exists),
            Event::Started(start) => EventView::Started(*start),
            Event::Line(line, ms) => EventView::Line(line@, *ms),
            Event::OutputEnded => EventView::OutputEnded,
            Event::OutputBroken(why) => EventView::OutputBroken(why@),
            Event::Appended => EventView::Appended,
            Event::Exited(success) => EventView::Exited(*success),
            Event::ExitUnknown(why) => EventView::ExitUnknown(why@),
            Event::Errors(text) => EventView::Errors(text@),
            Event::Finalized => EventView::Finalized,
        }
    }
}

/// One turn of the conversation.
#[derive(Debug, PartialEq)]
pub struct Turn {
    pub assistant: Assistant,
    pub chat_id: String,
    pub workdir: String,
    pub prompt: String,
    /// The draft; empty until there is one.
    pub message_id: String,
    /// What the assistant has said and what was not appended yet.
    pub buffer: String,
    /// Whether the assistant has said anything.
    pub produced: bool,
    pub phase: Phase,
}

/// The model of a [`Turn`].
pub struct TurnView {
    pub assistant: AssistantView,
    pub chat_id: Seq<char>,
    pub workdir: Seq<char>,
    pub prompt: Seq<char>,
    pub message_id: Seq<char>,
    pub buffer: Seq<char>,
    pub produced: bool,
    pub phase: PhaseView,
}

impl View for Turn {
    type V = TurnView;

    open spec fn view(&self) -> TurnView {
        TurnView {
            assistant: self.assistant@,
            chat_id: self.chat_id@,
            workdir: self.workdir@,
            prompt: self.prompt@,
            message_id: self.message_id@,
            buffer: self.buffer@,
            produced: self.produced,
            phase: self.phase@,
        }
    }
}

/// A turn in which `assistant` answers `prompt` in the conversation `chat_id`,
/// before anything was done.
pub open spec fn fresh(
    assistant: AssistantView,
    chat_id: Seq<char>,
    workdir: Seq<char>,
    prompt: Seq<char>,
) -> TurnView {
    TurnView {
        assistant,
        chat_id,
        workdir,
        prompt,
        message_id: Seq::empty(),
        buffer: Seq::empty(),
        produced: false,
        phase: PhaseView::Drafting,
    }
}

/// The arguments with which the assistant is started: it is to print what it
/// replies as it goes along, one JSON record a line, and to ask nobody for
/// permission.
pub open spec fn assistant_arguments(prompt: Seq<char>) -> Seq<Seq<char>> {
    seq![
        "-p"@,
        prompt,
        "--output-format"@,
        "stream-json"@,
        "--verbose"@,
        "--include-partial-messages"@,
        "--dangerously-skip-permissions"@,
    ]
}

/// The environment variables that the assistant must not see: the one by which it
/// would take itself to run inside another session of its own, and an inherited API
/// key, which would count for more than the subscription of the user.
pub open spec fn hidden_variables() -> Seq<Seq<char>> {
    seq!["CLAUDECODE"@, "ANTHROPIC_API_KEY"@]
}

/// The notice that stands for a reply that is empty.
pub open spec fn silence_notice() -> Seq<char> {
    "_(the agent produced no output)_"@
}

/// The notice of a failure.
pub open spec fn failure_notice(why: Seq<char>) -> Seq<char> {
    "⚠️ Agent error: "@ + why
}

/// Whether a text of this length, or one that has waited that long, is appended
/// at once: 120 bytes or 120 milliseconds, so that not every piece is sent by
/// itself.
pub open spec fn ripe(text: Seq<char>, ms: u128) -> bool {
    byte_length(text) >= 120 || ms >= 120
}

impl TurnView {
    /// What is to be done next.
    pub open spec fn action(self) -> ActionView {
        match self.phase {
            PhaseView::Drafting => ActionView::CreateDraft(self.chat_id),
            PhaseView::Probing => ActionView::CheckWorkdir(self.workdir),
            PhaseView::Starting => ActionView::Start(
                LaunchView {
                    command: self.assistant.command,
                    arguments: assistant_arguments(self.prompt),
                    workdir: self.workdir,
                    unset: hidden_variables(),
                },
            ),
            PhaseView::Reading => ActionView::ReadLine,
            PhaseView::Flushing => ActionView::Append(self.message_id, self.buffer),
            PhaseView::Draining => ActionView::Append(self.message_id, self.buffer),
            PhaseView::Waiting => ActionView::WaitForExit,
            PhaseView::Diagnosing => ActionView::ReadErrors,
            PhaseView::Noticing(notice) => ActionView::Append(self.message_id, notice),
            PhaseView::Finalizing => ActionView::Finalize(self.message_id),
            PhaseView::Finished => ActionView::Done,
            PhaseView::Refused(why) => ActionView::Fail(why),
        }
    }

    /// Why the reply fails with this event, if it does.
    pub open spec fn failure(self, e: EventView) -> Option<Seq<char>> {
        match (self.phase, e) {
            (PhaseView::Probing, EventView::Workdir(false)) => Some(
                "working directory does not exist: "@ + self.workdir + " — check --workdir"@,
            ),
            (PhaseView::Starting, EventView::Started(Start::NotStarted)) => Some(
                "couldn't run `"@ + self.assistant.command + "` in "@ + self.workdir + " — is "@
                    + self.assistant.product + " installed and on PATH?"@,
            ),
            (PhaseView::Starting, EventView::Started(Start::NoOutput)) => Some("no stdout"@),
            (PhaseView::Reading, EventView::OutputBroken(why)) => Some(why),
            (PhaseView::Waiting, EventView::ExitUnknown(why)) => Some(why),
            (PhaseView::Diagnosing, EventView::Errors(text)) => Some(
                if trimmed(text).len() == 0 {
                    self.assistant.command + " exited unsuccessfully"@
                } else {
                    self.assistant.command + " exited unsuccessfully"@ + ": "@ + trimmed(text)
                },
            ),
            _ => None,
        }
    }

    /// The turn in another phase.
    pub open spec fn to(self, phase: PhaseView) -> TurnView {
        TurnView { phase, ..self }
    }

    /// The turn after the output has ended: what is left is appended first.
    pub open spec fn output_ended(self) -> TurnView {
        self.to(if self.buffer.len() > 0 { PhaseView::Draining } else { PhaseView::Waiting })
    }

    /// The turn after a line was read.
    pub open spec fn line_read(self, line: Seq<char>, ms: u128) -> TurnView {
        match line_signal(line) {
            SignalView::Text(piece) => TurnView {
                buffer: self.buffer + piece,
                produced: true,
                phase: if ripe(self.buffer + piece, ms) {
                    PhaseView::Flushing
                } else {
                    PhaseView::Reading
                },
                ..self
            },
            SignalView::End => self.output_ended(),
            SignalView::Nothing => self,
        }
    }

    /// The turn after an event. An event that the turn was not waiting for
    /// changes nothing.
    pub open spec fn after(self, e: EventView) -> TurnView {
        match self.failure(e) {
            Some(why) => self.to(PhaseView::Noticing(failure_notice(why))),
            None => match (self.phase, e) {
                (PhaseView::Drafting, EventView::Draft(Ok(message_id))) => TurnView {
                    message_id,
                    phase: PhaseView::Probing,
                    ..self
                },
                (PhaseView::Drafting, EventView::Draft(Err(why))) => self.to(
                    PhaseView::Refused(why),
                ),
                (PhaseView::Probing, EventView::Workdir(true)) => self.to(PhaseView::Starting),
                (PhaseView::Starting, EventView::Started(Start::Running)) => self.to(
                    PhaseView::Reading,
                ),
                (PhaseView::Reading, EventView::Line(line, ms)) => self.line_read(line, ms),
                (PhaseView::Reading, EventView::OutputEnded) => self.output_ended(),
                (PhaseView::Flushing, EventView::Appended) => TurnView {
                    buffer: Seq::empty(),
                    phase: PhaseView::Reading,
                    ..self
                },
                (PhaseView::Draining, EventView::Appended) => TurnView {
                    buffer: Seq::empty(),
                    phase: PhaseView::Waiting,
                    ..self
                },
                (PhaseView::Waiting, EventView::Exited(true)) => self.to(
                    if self.produced {
                        PhaseView::Finalizing
                    } else {
                        PhaseView::Noticing(silence_notice())
                    },
                ),
                (PhaseView::Waiting, EventView::Exited(false)) => self.to(PhaseView::Diagnosing),
                (PhaseView::Noticing(_), EventView::Appended) => self.to(PhaseView::Finalizing),
                (PhaseView::Finalizing, EventView::Finalized) => self.to(PhaseView::Finished),
                _ => self,
            },
        }
    }
}

/// The arguments with which the assistant is started.
pub fn launch_arguments(prompt: &str) -> (r: Vec<String>)
    ensures
        texts(r@) == assistant_arguments(prompt@),
{
    let r = vec![
        "-p".to_owned(),
        prompt.to_owned(),
        "--output-format".to_owned(),
        "stream-json".to_owned(),
        "--verbose".to_owned(),
        "--include-partial-messages".to_owned(),
        "--dangerously-skip-permissions".to_owned(),
    ];
    assert(texts(r@) =~= assistant_arguments(prompt@));
    r
}

/// The environment variables that the assistant must not see.
pub fn variables_to_hide() -> (r: Vec<String>)
    ensures
        texts(r@) == hidden_variables(),
{
    let r = vec!["CLAUDECODE".to_owned(), "ANTHROPIC_API_KEY".to_owned()];
    assert(texts(r@) =~= hidden_variables());
    r
}

impl Turn {
    /// A turn in which `assistant` answers `prompt` in the conversation `chat_id`.
    pub fn new(assistant: Assistant, chat_id: &str, workdir: &str, prompt: &str) -> (r: Turn)
        ensures
            r@ == fresh(assistant@, chat_id@, workdir@, prompt@),
    {
        Turn {
            assistant,
            chat_id: chat_id.to_owned(),
            workdir: workdir.to_owned(),
            prompt: prompt.to_owned(),
            message_id: String::new(),
            buffer: String::new(),
            produced: false,
            phase: Phase::Drafting,
        }
    }

    /// What is to be done next.
    pub fn action(&self) -> (r: Action)
        ensures
            r@ == self@.action(),
    {
        match &self.phase {
            Phase::Drafting => Action::CreateDraft(self.chat_id.clone()),
            Phase::Probing => Action::CheckWorkdir(self.workdir.clone()),
            Phase::Starting => Action::Start(
                Launch {
                    command: self.assistant.command.clone(),
                    arguments: launch_arguments(self.prompt.as_str()),
                    workdir: self.workdir.clone(),
                    unset: variables_to_hide(),
                },
            ),
            Phase::Reading => Action::ReadLine,
            Phase::Flushing => Action::Append(self.message_id.clone(), self.buffer.clone()),
            Phase::Draining => Action::Append(self.message_id.clone(), self.buffer.clone()),
            Phase::Waiting => Action::WaitForExit,
            Phase::Diagnosing => Action::ReadErrors,
            Phase::Noticing(notice) => Action::Append(self.message_id.clone(), notice.clone()),
            Phase::Finalizing => Action::Finalize(self.message_id.clone()),
            Phase::Finished => Action::Done,
            Phase::Refused(why) => Action::Fail(why.clone()),
        }
    }

    /// Why the reply fails with this event, if it does.
    pub fn failure(&self, event: &Event) -> (r: Option<String>)
        ensures
            r is Some == self@.failure(event@) is Some,
            r matches Some(why) ==> self@.failure(event@) == Some(why@),
    {
        match (&self.phase, event) {
            (Phase::Probing, Event::Workdir(false)) => Some(
                "working directory does not exist: ".to_owned().concat(self.workdir.as_str())
                    .concat(" — check --workdir"),
            ),
            (Phase::Starting, Event::Started(Start::NotStarted)) => Some(
                "couldn't run `".to_owned().concat(self.assistant.command.as_str())
                    .concat("` in ").concat(self.workdir.as_str())
                    .concat(" — is ").concat(self.assistant.product.as_str())
                    .concat(" installed and on PATH?"),
            ),
            (Phase::Starting, Event::Started(Start::NoOutput)) => Some("no stdout".to_owned()),
            (Phase::Reading, Event::OutputBroken(why)) => Some(why.clone()),
            (Phase::Waiting, Event::ExitUnknown(why)) => Some(why.clone()),
            (Phase::Diagnosing, Event::Errors(text)) => {
                let text = trim(text.as_str());
                let why = self.assistant.command.clone().concat(" exited unsuccessfully");
                if text.is_empty() {
                    Some(why)
                } else {
                    Some(why.concat(": ").concat(text))
                }
            },
            _ => None,
        }
    }

    /// Takes in that the output has ended.
    fn end_output(&mut self)
        ensures
            final(self)@ == old(self)@.output_ended(),
    {
        if self.buffer.as_str().is_empty() {
            self.phase = Phase::Waiting;
        } else {
            self.phase = Phase::Draining;
        }
    }

    /// Takes in a line of output.
    fn take_line(&mut self, line: &str, ms: u128)
        requires
            old(self)@.phase is Reading,
        ensures
            final(self)@ == old(self)@.line_read(line@, ms),
    {
        match read_line(line) {
            Signal::Text(piece) => {
                self.buffer.append(piece.as_str());
                self.produced = true;
                if byte_len(self.buffer.as_str()) >= 120 || ms >= 120 {
                    self.phase = Phase::Flushing;
                }
            },
            Signal::End => self.end_output(),
            Signal::Nothing => {},
        }
    }

    /// Takes in what came of the action that was due.
    pub fn on_event(&mut self, event: Event)
        ensures
            final(self)@ == old(self)@.after(event@),
    {
        if let Some(why) = self.failure(&event) {
            self.phase = Phase::Noticing("⚠️ Agent error: ".to_owned().concat(why.as_str()));
            return;
        }
        match event {
            Event::Draft(made) => {
                if let Phase::Drafting = self.phase {
                    match made {
                        Ok(message_id) => {
                            self.message_id = message_id;
                            self.phase = Phase::Probing;
                        },
                        Err(why) => {
                            self.phase = Phase::Refused(why);
                        },
                    }
                }
            },
            Event::Workdir(_) => {
                if let Phase::Probing = self.phase {
                    self.phase = Phase::Starting;
                }
            },
            Event::Started(_) => {
                if let Phase::Starting = self.phase {
                    self.phase = Phase::Reading;
                }
            },
            Event::Line(line, ms) => {
                if let Phase::Reading = self.phase {
                    self.take_line(line.as_str(), ms);
                }
            },
            Event::OutputEnded => {
                if let Phase::Reading = self.phase {
                    self.end_output();
                }
            },
            Event::Appended => {
                match self.phase {
                    Phase::Flushing => {
                        self.buffer = String::new();
                        self.phase = Phase::Reading;
                    },
                    Phase::Draining => {
                        self.buffer = String::new();
                        self.phase = Phase::Waiting;
                    },
                    Phase::Noticing(_) => {
                        self.phase = Phase::Finalizing;
                    },
                    _ => {},
                }
            },
            Event::Exited(success) => {
                if let Phase::Waiting = self.phase {
                    self.phase = if !success {
                        Phase::Diagnosing
                    } else if self.produced {
                        Phase::Finalizing
                    } else {
                        Phase::Noticing("_(the agent produced no output)_".to_owned())
                    };
                }
            },
            Event::Finalized => {
                if let Phase::Finalizing = self.phase {
                    self.phase = Phase::Finished;
                }
            },
            Event::OutputBroken(_) | Event::ExitUnknown(_) | Event::Errors(_) => {},
        }
    }
}

impl TurnView {
    /// Whether an event is what the turn is waiting for: one that tells what came
    /// of the action that is due.
    pub open spec fn awaits(self, e: EventView) -> bool {
        match self.phase {
            PhaseView::Drafting => e is Draft,
            PhaseView::Probing => e is Workdir,
            PhaseView::Starting => e is Started,
            PhaseView::Reading => e is Line || e is OutputEnded || e is OutputBroken,
            PhaseView::Flushing => e is Appended,
            PhaseView::Draining => e is Appended,
            PhaseView::Waiting => e is Exited || e is ExitUnknown,
            PhaseView::Diagnosing => e is Errors,
            PhaseView::Noticing(_) => e is Appended,
            PhaseView::Finalizing => e is Finalized,
            PhaseView::Finished => false,
            PhaseView::Refused(_) => false,
        }
    }

    /// Whether the turn is over.
    pub open spec fn over(self) -> bool {
        self.phase is Finished || self.phase is Refused
    }

    /// The turn after a number of events.
    pub open spec fn after_all(self, es: Seq<EventView>) -> TurnView
        decreases es.len(),
    {
        if es.len() == 0 {
            self
        } else {
            self.after_all(es.drop_last()).after(es.last())
        }
    }

    /// What was done in the course of a number of events, in order.
    pub open spec fn deeds(self, es: Seq<EventView>) -> Seq<ActionView>
        decreases es.len(),
    {
        if es.len() == 0 {
            Seq::empty()
        } else {
            let before = self.after_all(es.drop_last());
            if before.awaits(es.last()) {
                self.deeds(es.drop_last()).push(before.action())
            } else {
                self.deeds(es.drop_last())
            }
        }
    }

    /// The piece of the reply that an event brings, if it brings one.
    pub open spec fn piece(self, e: EventView) -> Option<Seq<char>> {
        match (self.phase, e) {
            (PhaseView::Reading, EventView::Line(line, _)) => match line_signal(line) {
                SignalView::Text(piece) => Some(piece),
                _ => None,
            },
            _ => None,
        }
    }

    /// What the assistant said in the course of a number of events; `None` if it did
    /// not say anything, not even an empty piece.
    pub open spec fn said(self, es: Seq<EventView>) -> Option<Seq<char>>
        decreases es.len(),
    {
        if es.len() == 0 {
            None
        } else {
            match (self.said(es.drop_last()), self.after_all(es.drop_last()).piece(es.last())) {
                (Some(before), Some(piece)) => Some(before + piece),
                (None, Some(piece)) => Some(piece),
                (before, None) => before,
            }
        }
    }

    /// Why the reply failed in the course of a number of events, if it did.
    pub open spec fn failed(self, es: Seq<EventView>) -> Option<Seq<char>>
        decreases es.len(),
    {
        if es.len() == 0 {
            None
        } else {
            match self.failed(es.drop_last()) {
                Some(why) => Some(why),
                None => self.after_all(es.drop_last()).failure(es.last()),
            }
        }
    }
}

/// The text of an action that appends; that of any other is empty.
pub open spec fn appended_by(deed: ActionView) -> Seq<char> {
    match deed {
        ActionView::Append(_, text) => text,
        _ => Seq::empty(),
    }
}

/// The text that a number of actions append one after the other.
pub open spec fn appended(deeds: Seq<ActionView>) -> Seq<char>
    decreases deeds.len(),
{
    if deeds.len() == 0 {
        Seq::empty()
    } else {
        appended(deeds.drop_last()) + appended_by(deeds.last())
    }
}

/// What the assistant said, as a text.
pub open spec fn words(said: Option<Seq<char>>) -> Seq<char> {
    match said {
        Some(text) => text,
        None => Seq::empty(),
    }
}

proof fn lemma_appended_push(deeds: Seq<ActionView>, deed: ActionView)
    ensures
        appended(deeds.push(deed)) == appended(deeds) + appended_by(deed),
{
    assert(deeds.push(deed).drop_last() == deeds);
}

/// How many of a number of actions append.
pub open spec fn appends(deeds: Seq<ActionView>) -> nat
    decreases deeds.len(),
{
    if deeds.len() == 0 {
        0
    } else {
        appends(deeds.drop_last()) + if deeds.last() is Append {
            1nat
        } else {
            0nat
        }
    }
}

impl TurnView {
    /// How many pieces of the reply a number of events brought.
    pub open spec fn pieces(self, es: Seq<EventView>) -> nat
        decreases es.len(),
    {
        if es.len() == 0 {
            0
        } else {
            self.pieces(es.drop_last()) + if self.after_all(es.drop_last()).piece(
                es.last(),
            ) is Some {
                1nat
            } else {
                0nat
            }
        }
    }
}

/// Whether the output broke off.
pub open spec fn broke_off(es: Seq<EventView>) -> bool {
    exists|i: int| 0 <= i < es.len() && #[trigger] es[i] is OutputBroken
}

/// How far what was said has been passed on, in each phase.
spec fn passed_on(
    u: TurnView,
    sent: Seq<char>,
    said: Option<Seq<char>>,
    failed: Option<Seq<char>>,
    broke_off: bool,
) -> bool {
    &&& u.produced == said is Some
    &&& match u.phase {
        PhaseView::Drafting | PhaseView::Probing | PhaseView::Starting | PhaseView::Refused(_) => {
            &&& failed is None
            &&& said is None
            &&& sent.len() == 0
            &&& u.buffer.len() == 0
        },
        PhaseView::Reading | PhaseView::Flushing | PhaseView::Draining => {
            &&& failed is None
            &&& sent + u.buffer == words(said)
        },
        PhaseView::Waiting | PhaseView::Diagnosing => {
            &&& failed is None
            &&& u.buffer.len() == 0
            &&& sent == words(said)
        },
        PhaseView::Noticing(notice) => {
            &&& sent + u.buffer == words(said)
            &&& match failed {
                Some(why) => {
                    &&& notice == failure_notice(why)
                    &&& !broke_off ==> u.buffer.len() == 0
                },
                None => notice == silence_notice() && said is None && u.buffer.len() == 0,
            }
        },
        PhaseView::Finalizing | PhaseView::Finished => match failed {
            Some(why) => {
                &&& exists|passed: Seq<char>|
                    #![trigger passed + u.buffer]
                    passed + u.buffer == words(said) && sent == passed + failure_notice(why)
                &&& !broke_off ==> u.buffer.len() == 0
            },
            None => {
                &&& u.buffer.len() == 0
                &&& match said {
                    Some(text) => sent == text,
                    None => sent == silence_notice(),
                }
            },
        },
    }
}

proof fn lemma_passed_on(t: TurnView, es: Seq<EventView>)
    requires
        t == fresh(t.assistant, t.chat_id, t.workdir, t.prompt),
    ensures
        passed_on(
            t.after_all(es),
            appended(t.deeds(es)),
            t.said(es),
            t.failed(es),
            broke_off(es),
        ),
    decreases es.len(),
{
    if es.len() > 0 {
        let before = es.drop_last();
        let e = es.last();
        lemma_passed_on(t, before);
        let u = t.after_all(before);
        let w = t.after_all(es);
        let sent = appended(t.deeds(before));
        lemma_appended_push(t.deeds(before), u.action());
        let now = appended(t.deeds(es));
        assert(broke_off(before) || e is OutputBroken ==> broke_off(es)) by {
            if e is OutputBroken {
                assert(es[es.len() - 1] is OutputBroken);
            } else if broke_off(before) {
                let i = choose|i: int|
                    0 <= i < before.len() && #[trigger] before[i] is OutputBroken;
                assert(es[i] is OutputBroken);
            }
        }
        match u.phase {
            PhaseView::Reading => {
                assert(sent + Seq::<char>::empty() == sent);
                if u.piece(e) is Some {
                    let piece = u.piece(e)->0;
                    assert(sent + (u.buffer + piece) == words(t.said(before)) + piece);
                    assert(Seq::<char>::empty() + piece == piece);
                } else if u.buffer.len() == 0 {
                    assert(sent + u.buffer == sent);
                }
            },
            PhaseView::Flushing | PhaseView::Draining => {
                assert(sent + u.buffer + Seq::<char>::empty() == sent + u.buffer);
            },
            PhaseView::Noticing(notice) => {
                if e is Appended {
                    if t.failed(before) is None {
                        assert(sent + u.buffer == sent);
                        assert(sent + notice == notice);
                    } else {
                        assert(sent + w.buffer == words(t.said(es)));
                    }
                }
            },
            PhaseView::Waiting | PhaseView::Diagnosing => {
                assert(sent + Seq::<char>::empty() == sent);
                assert(sent + u.buffer == sent);
            },
            PhaseView::Finalizing | PhaseView::Finished => {
                assert(sent + Seq::<char>::empty() == sent);
                assert(now == sent);
                assert(w.buffer == u.buffer);
            },
            _ => {
                assert(sent + Seq::<char>::empty() == sent);
                assert(sent + u.buffer == Seq::<char>::empty());
            },
        }
    }
}

/// A reply that does not fail arrives complete and unchanged: when the turn is
/// finished, what was appended to the draft is what the assistant said, piece by
/// piece; if it did not say anything, a notice of that.
pub proof fn law_reply_arrives_unchanged(
    assistant: AssistantView,
    chat_id: Seq<char>,
    workdir: Seq<char>,
    prompt: Seq<char>,
    es: Seq<EventView>,
)
    requires
        fresh(assistant, chat_id, workdir, prompt).after_all(es).phase is Finished,
        fresh(assistant, chat_id, workdir, prompt).failed(es) is None,
    ensures
        appended(fresh(assistant, chat_id, workdir, prompt).deeds(es)) == match fresh(
            assistant,
            chat_id,
            workdir,
            prompt,
        ).said(es) {
            Some(text) => text,
            None => silence_notice(),
        },
{
    lemma_passed_on(fresh(assistant, chat_id, workdir, prompt), es);
}

/// A reply that fails says so: when the turn is finished, what was appended to
/// the draft is a beginning of what the assistant said, and all of it unless its
/// output broke off, then the notice of the failure.
pub proof fn law_failure_is_told(
    assistant: AssistantView,
    chat_id: Seq<char>,
    workdir: Seq<char>,
    prompt: Seq<char>,
    es: Seq<EventView>,
)
    requires
        fresh(assistant, chat_id, workdir, prompt).after_all(es).phase is Finished,
        fresh(assistant, chat_id, workdir, prompt).failed(es) is Some,
    ensures
        ({
            let t = fresh(assistant, chat_id, workdir, prompt);
            exists|passed: Seq<char>|
                {
                    &&& passed.is_prefix_of(words(t.said(es)))
                    &&& appended(t.deeds(es)) == #[trigger] (passed + failure_notice(
                        t.failed(es)->0,
                    ))
                    &&& !broke_off(es) ==> passed == words(t.said(es))
                }
        }),
{
    let t = fresh(assistant, chat_id, workdir, prompt);
    let u = t.after_all(es);
    lemma_passed_on(t, es);
    let why = t.failed(es)->0;
    let passed = choose|passed: Seq<char>|
        #![trigger passed + u.buffer]
        passed + u.buffer == words(t.said(es)) && appended(t.deeds(es)) == passed
            + failure_notice(why);
    assert(passed.is_prefix_of(passed + u.buffer));
    if u.buffer.len() == 0 {
        assert(passed + u.buffer == passed);
    }
}

/// What was done in each phase: nothing was finalized before the turn is
/// finished, and whatever was appended went to the one draft.
spec fn done_properly(u: TurnView, deeds: Seq<ActionView>) -> bool {
    &&& forall|i: int|
        0 <= i < deeds.len() ==> (#[trigger] deeds[i] matches ActionView::Append(id, _) ==> id
            == u.message_id)
    &&& forall|i: int|
        0 <= i < deeds.len() && #[trigger] deeds[i] is Finalize ==> u.phase is Finished && i
            == deeds.len() - 1
    &&& u.phase is Finished ==> deeds.len() > 0 && deeds.last() == ActionView::Finalize(
        u.message_id,
    )
    &&& forall|i: int| 0 < i < deeds.len() ==> !(#[trigger] deeds[i] is CreateDraft)
    &&& u.phase is Drafting ==> deeds.len() == 0
    &&& !(u.phase is Drafting) ==> deeds.len() > 0 && deeds[0] == ActionView::CreateDraft(u.chat_id)
    &&& u.phase is Probing || u.phase is Refused ==> deeds.len() == 1
}

proof fn lemma_done_properly(t: TurnView, es: Seq<EventView>)
    requires
        t == fresh(t.assistant, t.chat_id, t.workdir, t.prompt),
    ensures
        done_properly(t.after_all(es), t.deeds(es)),
        t.after_all(es).chat_id == t.chat_id,
    decreases es.len(),
{
    if es.len() > 0 {
        lemma_done_properly(t, es.drop_last());
    }
}

/// A turn always finalizes its draft: when it is finished, the last thing that
/// was done was to finalize the draft, that was done once, and all that was
/// appended was appended to that draft before.
pub proof fn law_draft_is_finalized(
    assistant: AssistantView,
    chat_id: Seq<char>,
    workdir: Seq<char>,
    prompt: Seq<char>,
    es: Seq<EventView>,
)
    requires
        fresh(assistant, chat_id, workdir, prompt).after_all(es).phase is Finished,
    ensures
        ({
            let id = fresh(assistant, chat_id, workdir, prompt).after_all(es).message_id;
            let deeds = fresh(assistant, chat_id, workdir, prompt).deeds(es);
            &&& deeds.len() > 1
            &&& deeds.first() == ActionView::CreateDraft(chat_id)
            &&& deeds.last() == ActionView::Finalize(id)
            &&& forall|i: int| 0 < i < deeds.len() ==> !(#[trigger] deeds[i] is CreateDraft)
            &&& forall|i: int|
                0 <= i < deeds.len() - 1 ==> !(#[trigger] deeds[i] is Finalize)
            &&& forall|i: int|
                0 <= i < deeds.len() ==> (#[trigger] deeds[i] matches ActionView::Append(to, _)
                    ==> to == id)
        }),
{
    lemma_done_properly(fresh(assistant, chat_id, workdir, prompt), es);
}

/// Where no draft could be opened, nothing else was done.
pub proof fn law_without_a_draft_nothing_is_done(
    assistant: AssistantView,
    chat_id: Seq<char>,
    workdir: Seq<char>,
    prompt: Seq<char>,
    es: Seq<EventView>,
)
    requires
        fresh(assistant, chat_id, workdir, prompt).after_all(es).phase is Refused,
    ensures
        fresh(assistant, chat_id, workdir, prompt).deeds(es) == seq![
            ActionView::CreateDraft(chat_id),
        ],
{
    lemma_done_properly(fresh(assistant, chat_id, workdir, prompt), es);
}

/// How many events at most, of those that are waited for, still lie before a
/// turn; not counting the lines that are read on the way.
pub open spec fn steps_left(phase: PhaseView) -> nat {
    match phase {
        PhaseView::Drafting => 9,
        PhaseView::Probing => 8,
        PhaseView::Starting => 7,
        PhaseView::Reading => 6,
        PhaseView::Flushing => 6,
        PhaseView::Draining => 5,
        PhaseView::Waiting => 4,
        PhaseView::Diagnosing => 3,
        PhaseView::Noticing(_) => 2,
        PhaseView::Finalizing => 1,
        PhaseView::Finished => 0,
        PhaseView::Refused(_) => 0,
    }
}

/// Whether the turn goes on reading with this event.
pub open spec fn reads_on(t: TurnView, e: EventView) -> bool {
    &&& t.phase is Reading || t.phase is Flushing
    &&& t.after(e).phase is Reading || t.after(e).phase is Flushing
}

/// A turn never gets stuck: an event that it waits for brings it closer to its
/// end, unless it is a line of output that is not the last.
pub proof fn law_turn_comes_closer_to_its_end(t: TurnView, e: EventView)
    requires
        t.awaits(e),
    ensures
        reads_on(t, e) || steps_left(t.after(e).phase) < steps_left(t.phase),
{
}

/// How many of a number of events did not just make the turn read on.
pub open spec fn settled(t: TurnView, es: Seq<EventView>) -> nat
    decreases es.len(),
{
    if es.len() == 0 {
        0
    } else {
        settled(t, es.drop_last()) + if reads_on(t.after_all(es.drop_last()), es.last()) {
            0nat
        } else {
            1nat
        }
    }
}

/// Once there is a draft, a turn is finished, and thus its draft finalized, after
/// as many events as [`steps_left`] says, whatever they bring, besides those that
/// just make it read on.
pub proof fn law_turn_finishes(t: TurnView, es: Seq<EventView>)
    requires
        !(t.phase is Drafting || t.phase is Refused),
        settled(t, es) >= steps_left(t.phase),
        forall|i: int|
            0 <= i < es.len() ==> {
                let u = #[trigger] t.after_all(es.take(i));
                u.over() || u.awaits(es[i])
            },
    ensures
        t.after_all(es).phase is Finished,
{
    lemma_steps_run_out(t, es);
}

proof fn lemma_steps_run_out(t: TurnView, es: Seq<EventView>)
    requires
        !(t.phase is Drafting || t.phase is Refused),
        forall|i: int|
            0 <= i < es.len() ==> {
                let u = #[trigger] t.after_all(es.take(i));
                u.over() || u.awaits(es[i])
            },
    ensures
        ({
            let u = t.after_all(es);
            &&& !(u.phase is Drafting || u.phase is Refused)
            &&& u.phase is Finished || steps_left(u.phase) + settled(t, es) <= steps_left(t.phase)
        }),
    decreases es.len(),
{
    if es.len() > 0 {
        let before = es.drop_last();
        assert forall|i: int| 0 <= i < before.len() implies {
            let u = #[trigger] t.after_all(before.take(i));
            u.over() || u.awaits(before[i])
        } by {
            assert(before.take(i) == es.take(i));
        }
        lemma_steps_run_out(t, before);
        assert(es.take(es.len() - 1) == before);
    }
}

/// How many appends there have been, in each phase, for so many pieces.
spec fn batched(u: TurnView, appends: nat, pieces: nat, notices: nat) -> bool {
    match u.phase {
        PhaseView::Drafting | PhaseView::Probing | PhaseView::Starting | PhaseView::Refused(_) => {
            appends == 0
        },
        PhaseView::Reading => {
            &&& appends <= pieces
            &&& u.buffer.len() > 0 ==> appends < pieces
        },
        PhaseView::Flushing | PhaseView::Draining => appends < pieces,
        PhaseView::Waiting | PhaseView::Diagnosing | PhaseView::Noticing(_) => appends <= pieces,
        PhaseView::Finalizing | PhaseView::Finished => appends <= pieces + notices,
    }
}

/// How many notices a turn may append: none if something was said and nothing
/// failed, else one.
pub open spec fn notices(said: Option<Seq<char>>, failed: Option<Seq<char>>) -> nat {
    if said is Some && failed is None {
        0
    } else {
        1
    }
}

proof fn lemma_batched(t: TurnView, es: Seq<EventView>)
    requires
        t == fresh(t.assistant, t.chat_id, t.workdir, t.prompt),
    ensures
        batched(
            t.after_all(es),
            appends(t.deeds(es)),
            t.pieces(es),
            notices(t.said(es), t.failed(es)),
        ),
    decreases es.len(),
{
    if es.len() > 0 {
        let before = es.drop_last();
        lemma_batched(t, before);
        lemma_passed_on(t, before);
        let done = t.deeds(before);
        assert(done.push(t.after_all(before).action()).drop_last() == done);
    }
}

/// Text is appended in batches: a notice aside, nothing is appended more often than
/// the assistant has said a piece of its reply.
pub proof fn law_no_more_appends_than_pieces(
    assistant: AssistantView,
    chat_id: Seq<char>,
    workdir: Seq<char>,
    prompt: Seq<char>,
    es: Seq<EventView>,
)
    ensures
        ({
            let t = fresh(assistant, chat_id, workdir, prompt);
            let u = t.after_all(es);
            &&& appends(t.deeds(es)) <= t.pieces(es) + notices(t.said(es), t.failed(es))
            &&& u.phase is Finalizing || u.phase is Finished || appends(t.deeds(es)) <= t.pieces(es)
        }),
{
    lemma_batched(fresh(assistant, chat_id, workdir, prompt), es);
}

/// While a turn is reading, what it holds back is less than what is appended at
/// once.
pub proof fn law_little_is_held_back(
    assistant: AssistantView,
    chat_id: Seq<char>,
    workdir: Seq<char>,
    prompt: Seq<char>,
    es: Seq<EventView>,
)
    requires
        fresh(assistant, chat_id, workdir, prompt).after_all(es).phase is Reading,
    ensures
        byte_length(fresh(assistant, chat_id, workdir, prompt).after_all(es).buffer) < 120,
{
    lemma_little_is_held_back(fresh(assistant, chat_id, workdir, prompt), es);
}

proof fn lemma_little_is_held_back(t: TurnView, es: Seq<EventView>)
    requires
        t == fresh(t.assistant, t.chat_id, t.workdir, t.prompt),
    ensures
        ({
            let u = t.after_all(es);
            u.phase is Drafting || u.phase is Probing || u.phase is Starting || u.phase is Reading
                ==> byte_length(u.buffer) < 120
        }),
    decreases es.len(),
{
    if es.len() > 0 {
        lemma_little_is_held_back(t, es.drop_last());
    }
}

/// Whether a line holds a record of this kind: JSON, white space around it aside, whose
/// `type` is that text.
pub open spec fn holds(line: Seq<char>, kind: Seq<char>) -> bool {
    trimmed(line).len() > 0 && (text_json(trimmed(line)) matches Some(v) && v.at("type"@)
        == JsonView::Text(kind))
}

/// Whether a line holds the text delta of a piece.
pub open spec fn brings(line: Seq<char>, piece: Seq<char>) -> bool {
    trimmed(line).len() > 0 && (text_json(trimmed(line)) matches Some(v) && carries(v, piece))
}

/// The piece of the reply that a line holds; empty where it holds none.
pub open spec fn piece_in(line: Seq<char>) -> Seq<char> {
    if exists|piece: Seq<char>| brings(line, piece) {
        choose|piece: Seq<char>| brings(line, piece)
    } else {
        Seq::empty()
    }
}

/// The pieces of the reply that a number of lines hold, one after the other.
pub open spec fn pieces_in(lines: Seq<(Seq<char>, u128)>) -> Seq<char>
    decreases lines.len(),
{
    if lines.len() == 0 {
        Seq::empty()
    } else {
        pieces_in(lines.drop_last()) + piece_in(lines.last().0)
    }
}

proof fn lemma_line(line: Seq<char>, piece: Seq<char>)
    ensures
        line_signal(line) is End <==> holds(line, "result"@),
        line_signal(line) == SignalView::Text(piece) <==> brings(line, piece),
{
    let v = text_json(trimmed(line))->0;
    law_lines_say_what_their_records_say(line, v, piece);
}

/// A turn that is reading goes on unless the line holds the record of the type `result`.
/// A line that brings a piece adds that piece to what is to be appended, and it is
/// appended at once if it then has 120 bytes, or 120 milliseconds have passed. Any other
/// line changes nothing.
pub proof fn law_turn_reads_until_the_result(
    t: TurnView,
    line: Seq<char>,
    ms: u128,
    piece: Seq<char>,
)
    requires
        t.phase is Reading,
    ensures
        ({
            let u = t.after(EventView::Line(line, ms));
            &&& (u.phase is Reading || u.phase is Flushing) <==> !holds(line, "result"@)
            &&& brings(line, piece) ==> {
                &&& u.buffer == t.buffer + piece
                &&& u.produced
                &&& u.phase is Flushing <==> byte_length(t.buffer + piece) >= 120 || ms >= 120
            }
            &&& !holds(line, "result"@) && (forall|p: Seq<char>| !brings(line, p)) ==> u == t
            &&& holds(line, "result"@) ==> {
                &&& u.buffer == t.buffer && u.produced == t.produced
                &&& t.buffer.len() > 0 ==> u.phase is Draining
                &&& t.buffer.len() == 0 ==> u.phase is Waiting
            }
        }),
{
    lemma_line(line, piece);
    match line_signal(line) {
        SignalView::Text(p) => lemma_line(line, p),
        _ => {},
    }
}

/// A turn that is reading, and what it has had appended, after it was handed a number of
/// lines and did what it then asked for.
pub open spec fn fed(t: TurnView, lines: Seq<(Seq<char>, u128)>) -> (TurnView, Seq<char>)
    decreases lines.len(),
{
    if lines.len() == 0 {
        (t, Seq::empty())
    } else {
        let (u, sent) = fed(t, lines.drop_last());
        let w = u.after(EventView::Line(lines.last().0, lines.last().1));
        if w.action() is Append {
            (w.after(EventView::Appended), sent + appended_by(w.action()))
        } else {
            (w, sent)
        }
    }
}

/// Every piece in every line before the record of the type `result` counts: whatever
/// other lines come between them, the turn is still reading, and what was appended and
/// what is yet to be appended are all the pieces, in order and unchanged.
pub proof fn law_every_piece_before_the_result_counts(
    t: TurnView,
    lines: Seq<(Seq<char>, u128)>,
)
    requires
        t.phase is Reading,
        forall|i: int| 0 <= i < lines.len() ==> !holds(#[trigger] lines[i].0, "result"@),
    ensures
        fed(t, lines).0.phase is Reading,
        fed(t, lines).1 + fed(t, lines).0.buffer == t.buffer + pieces_in(lines),
        fed(t, lines).0.produced == (t.produced || exists|i: int, piece: Seq<char>|
            0 <= i < lines.len() && #[trigger] brings(lines[i].0, piece)),
    decreases lines.len(),
{
    if lines.len() == 0 {
        assert(Seq::<char>::empty() + t.buffer == t.buffer + Seq::<char>::empty());
    } else {
        let before = lines.drop_last();
        let line = lines.last().0;
        let ms = lines.last().1;
        assert forall|i: int| 0 <= i < before.len() implies !holds(
            #[trigger] before[i].0,
            "result"@,
        ) by {
            assert(before[i].0 == lines[i].0);
        }
        law_every_piece_before_the_result_counts(t, before);
        let (u, sent) = fed(t, before);
        let w = u.after(EventView::Line(line, ms));
        let piece = piece_in(line);
        assert(!holds(line, "result"@)) by {
            assert(lines[lines.len() - 1].0 == line);
        }
        law_turn_reads_until_the_result(u, line, ms, piece);
        if exists|i: int, p: Seq<char>| 0 <= i < before.len() && #[trigger] brings(before[i].0, p) {
            let (i, p) = choose|i: int, p: Seq<char>|
                0 <= i < before.len() && #[trigger] brings(before[i].0, p);
            assert(brings(lines[i].0, p));
        }
        if exists|p: Seq<char>| brings(line, p) {
            assert(brings(lines[lines.len() - 1].0, piece));
            assert(sent + (u.buffer + piece) == sent + u.buffer + piece);
            assert(t.buffer + pieces_in(before) + piece == t.buffer + (pieces_in(before) + piece));
            if w.phase is Flushing {
                assert(sent + w.buffer + Seq::<char>::empty() == sent + w.buffer);
            }
        } else {
            assert(pieces_in(before) + Seq::<char>::empty() == pieces_in(before));
            assert forall|i: int, p: Seq<char>|
                0 <= i < lines.len() && #[trigger] brings(lines[i].0, p) implies i
                < before.len() && brings(before[i].0, p) by {}
        }
    }
}

/// A whole reply: a turn that has begun to read, is handed any lines, then the record of
/// the type `result`, and sees the assistant end with success, has had all the pieces in
/// these lines appended to its draft, in order and unchanged, and finalizes it.
pub proof fn law_whole_reply_is_passed_on(
    t: TurnView,
    lines: Seq<(Seq<char>, u128)>,
    last: Seq<char>,
    ms: u128,
)
    requires
        t.phase is Reading,
        t.buffer.len() == 0,
        !t.produced,
        forall|i: int| 0 <= i < lines.len() ==> !holds(#[trigger] lines[i].0, "result"@),
        holds(last, "result"@),
        exists|i: int, piece: Seq<char>|
            0 <= i < lines.len() && #[trigger] brings(lines[i].0, piece),
    ensures
        ({
            let (u, sent) = fed(t, lines);
            let w = u.after(EventView::Line(last, ms));
            let x = if w.phase is Draining {
                w.after(EventView::Appended)
            } else {
                w
            };
            &&& (if w.phase is Draining {
                sent + appended_by(w.action())
            } else {
                sent
            }) == pieces_in(lines)
            &&& x.action() is WaitForExit
            &&& x.after(EventView::Exited(true)).action() == ActionView::Finalize(t.message_id)
        }),
{
    law_every_piece_before_the_result_counts(t, lines);
    let (u, sent) = fed(t, lines);
    law_turn_reads_until_the_result(u, last, ms, Seq::empty());
    lemma_fed_keeps(t, lines);
    assert(t.buffer + pieces_in(lines) == pieces_in(lines));
    if u.buffer.len() == 0 {
        assert(sent + u.buffer == sent);
    }
}

proof fn lemma_fed_keeps(t: TurnView, lines: Seq<(Seq<char>, u128)>)
    ensures
        fed(t, lines).0.message_id == t.message_id || t.phase is Drafting,
        fed(t, lines).0.phase is Drafting ==> t.phase is Drafting,
    decreases lines.len(),
{
    if lines.len() > 0 {
        lemma_fed_keeps(t, lines.drop_last());
    }
}

/// What a turn is about never changes: conversation, directory, prompt and assistant; and
/// once there is a draft, the draft.
pub proof fn law_turn_keeps_its_task(t: TurnView, e: EventView)
    ensures
        t.after(e).chat_id == t.chat_id,
        t.after(e).workdir == t.workdir,
        t.after(e).prompt == t.prompt,
        t.after(e).assistant == t.assistant,
        t.phase is Drafting ==> (e matches EventView::Draft(Ok(id)) ==> t.after(e).message_id
            == id),
        !(t.phase is Drafting) ==> t.after(e).message_id == t.message_id,
        !(t.after(e).phase is Drafting) || t.phase is Drafting,
{
}

/// The turn asks for what its phase is about, with its own conversation, directory, draft
/// and text.
pub proof fn law_turn_asks_for_what_is_due(t: TurnView)
    ensures
        t.phase is Drafting ==> t.action() == ActionView::CreateDraft(t.chat_id),
        t.phase is Probing ==> t.action() == ActionView::CheckWorkdir(t.workdir),
        t.phase is Reading ==> t.action() is ReadLine,
        t.phase is Flushing || t.phase is Draining ==> t.action() == ActionView::Append(
            t.message_id,
            t.buffer,
        ),
        t.phase is Waiting ==> t.action() is WaitForExit,
        t.phase is Diagnosing ==> t.action() is ReadErrors,
        t.phase matches PhaseView::Noticing(notice) ==> t.action() == ActionView::Append(
            t.message_id,
            notice,
        ),
        t.phase is Finalizing ==> t.action() == ActionView::Finalize(t.message_id),
        t.phase is Finished ==> t.action() is Done,
        t.phase matches PhaseView::Refused(why) ==> t.action() == ActionView::Fail(why),
{
}

/// The assistant is started by its command in the directory of the turn. It is handed the
/// whole prompt, is asked for a stream of JSON records with partial messages and told to
/// ask for no permission, and two variables are kept from it.
pub proof fn law_assistant_is_handed_the_prompt(t: TurnView)
    requires
        t.phase is Starting,
    ensures
        t.action() is Start,
        ({
            let launch = t.action()->Start_0;
            &&& launch.command == t.assistant.command
            &&& launch.workdir == t.workdir
            &&& launch.arguments.len() == 7
            &&& launch.arguments[0] == "-p"@
            &&& launch.arguments[1] == t.prompt
            &&& launch.arguments[2] == "--output-format"@
            &&& launch.arguments[3] == "stream-json"@
            &&& launch.arguments[4] == "--verbose"@
            &&& launch.arguments[5] == "--include-partial-messages"@
            &&& launch.arguments[6] == "--dangerously-skip-permissions"@
            &&& launch.unset.len() == 2
            &&& launch.unset[0] == "CLAUDECODE"@
            &&& launch.unset[1] == "ANTHROPIC_API_KEY"@
        }),
{
}

/// Each failure is told with its own reason, as it was given; all other events are no
/// failures.
pub proof fn law_each_failure_has_its_reason(t: TurnView, e: EventView)
    ensures
        t.phase is Probing && e == EventView::Workdir(false) ==> t.failure(e) == Some(
            "working directory does not exist: "@ + t.workdir + " — check --workdir"@,
        ),
        t.phase is Starting && e == EventView::Started(Start::NotStarted) ==> t.failure(e) == Some(
            "couldn't run `"@ + t.assistant.command + "` in "@ + t.workdir + " — is "@
                + t.assistant.product + " installed and on PATH?"@,
        ),
        t.phase is Starting && e == EventView::Started(Start::NoOutput) ==> t.failure(e) == Some(
            "no stdout"@,
        ),
        t.phase is Reading ==> (e matches EventView::OutputBroken(why) ==> t.failure(e) == Some(
            why,
        )),
        t.phase is Waiting ==> (e matches EventView::ExitUnknown(why) ==> t.failure(e) == Some(
            why,
        )),
        t.phase is Diagnosing ==> (e matches EventView::Errors(text) ==> {
            &&& trimmed(text).len() == 0 ==> t.failure(e) == Some(
                t.assistant.command + " exited unsuccessfully"@,
            )
            &&& trimmed(text).len() > 0 ==> t.failure(e) == Some(
                t.assistant.command + " exited unsuccessfully"@ + ": "@ + trimmed(text),
            )
        }),
        t.failure(e) is Some ==> {
            ||| t.phase is Probing && e == EventView::Workdir(false)
            ||| t.phase is Starting && e is Started && e != EventView::Started(Start::Running)
            ||| t.phase is Reading && e is OutputBroken
            ||| t.phase is Waiting && e is ExitUnknown
            ||| t.phase is Diagnosing && e is Errors
        },
        t.failure(e) matches Some(why) ==> t.after(e).phase == PhaseView::Noticing(
            "⚠️ Agent error: "@ + why,
        ) && t.after(e).buffer == t.buffer && t.after(e).produced == t.produced,
{
}

/// Each event that a turn waits for, and that is no failure and no line, leads to the phase
/// that follows; what was appended is no longer to be appended.
pub proof fn law_each_event_leads_on(t: TurnView, e: EventView)
    ensures
        t.phase is Drafting ==> (e matches EventView::Draft(Ok(_)) ==> t.after(
            e,
        ).phase is Probing),
        t.phase is Drafting ==> (e matches EventView::Draft(Err(why)) ==> t.after(e).phase
            == PhaseView::Refused(why)),
        t.phase is Probing && e == EventView::Workdir(true) ==> t.after(e).phase is Starting,
        t.phase is Starting && e == EventView::Started(Start::Running) ==> t.after(
            e,
        ).phase is Reading,
        t.phase is Reading && e is OutputEnded ==> if t.buffer.len() > 0 {
            t.after(e).phase is Draining
        } else {
            t.after(e).phase is Waiting
        },
        t.phase is Flushing && e is Appended ==> t.after(e).phase is Reading && t.after(
            e,
        ).buffer.len() == 0,
        t.phase is Draining && e is Appended ==> t.after(e).phase is Waiting && t.after(
            e,
        ).buffer.len() == 0,
        t.phase is Waiting && e == EventView::Exited(false) ==> t.after(e).phase is Diagnosing,
        t.phase is Waiting && e == EventView::Exited(true) && t.produced ==> t.after(
            e,
        ).phase is Finalizing,
        t.phase is Waiting && e == EventView::Exited(true) && !t.produced ==> t.after(e).phase
            == PhaseView::Noticing("_(the agent produced no output)_"@),
        t.phase is Noticing && e is Appended ==> t.after(e).phase is Finalizing,
        t.phase is Finalizing && e is Finalized ==> t.after(e).phase is Finished,
        !(e is Line || e is Appended) ==> t.after(e).buffer == t.buffer,
        !(e is Line) ==> t.after(e).produced == t.produced,
{
}

/// An event that a turn does not wait for changes nothing, and nothing changes a turn that
/// is over.
pub proof fn law_other_events_change_nothing(t: TurnView, e: EventView)
    ensures
        e is Draft && !(t.phase is Drafting) ==> t.after(e) == t,
        e is Workdir && !(t.phase is Probing) ==> t.after(e) == t,
        e is Started && !(t.phase is Starting) ==> t.after(e) == t,
        (e is Line || e is OutputEnded || e is OutputBroken) && !(t.phase is Reading) ==> t.after(e)
            == t,
        e is Appended && !(t.phase is Flushing || t.phase is Draining || t.phase is Noticing)
            ==> t.after(e) == t,
        (e is Exited || e is ExitUnknown) && !(t.phase is Waiting) ==> t.after(e) == t,
        e is Errors && !(t.phase is Diagnosing) ==> t.after(e) == t,
        e is Finalized && !(t.phase is Finalizing) ==> t.after(e) == t,
        t.phase is Finished || t.phase is Refused ==> t.after(e) == t,
{
}

/// A turn begins with nothing done: it has its task, no draft, nothing to append and
/// nothing said.
pub proof fn law_turn_begins_with_its_task(
    assistant: AssistantView,
    chat_id: Seq<char>,
    workdir: Seq<char>,
    prompt: Seq<char>,
)
    ensures
        ({
            let t = fresh(assistant, chat_id, workdir, prompt);
            &&& t.assistant == assistant && t.chat_id == chat_id
            &&& t.workdir == workdir && t.prompt == prompt
            &&& t.message_id.len() == 0 && t.buffer.len() == 0 && !t.produced
            &&& t.phase is Drafting
        }),
{
}

/// Turns, phases, starts and actions are seen as they are.
pub proof fn law_turns_are_seen_as_they_are(t: Turn, p: Phase, l: Launch, a: Action)
    ensures
        t@.assistant == t.assistant@ && t@.chat_id == t.chat_id@ && t@.workdir == t.workdir@,
        t@.prompt == t.prompt@ && t@.message_id == t.message_id@ && t@.buffer == t.buffer@,
        t@.produced == t.produced && t@.phase == t.phase@,
        p is Drafting == p@ is Drafting && p is Probing == p@ is Probing,
        p is Starting == p@ is Starting && p is Reading == p@ is Reading,
        p is Flushing == p@ is Flushing && p is Draining == p@ is Draining,
        p is Waiting == p@ is Waiting && p is Diagnosing == p@ is Diagnosing,
        p is Finalizing == p@ is Finalizing && p is Finished == p@ is Finished,
        p matches Phase::Noticing(notice) ==> p@ == PhaseView::Noticing(notice@),
        p matches Phase::Refused(why) ==> p@ == PhaseView::Refused(why@),
        l@.command == l.command@ && l@.workdir == l.workdir@,
        l@.arguments.len() == l.arguments@.len() && l@.unset.len() == l.unset@.len(),
        forall|i: int|
            0 <= i < l.arguments@.len() ==> #[trigger] l@.arguments[i] == l.arguments@[i]@,
        forall|i: int| 0 <= i < l.unset@.len() ==> #[trigger] l@.unset[i] == l.unset@[i]@,
        a matches Action::CreateDraft(id) ==> a@ == ActionView::CreateDraft(id@),
        a matches Action::CheckWorkdir(dir) ==> a@ == ActionView::CheckWorkdir(dir@),
        a matches Action::Start(launch) ==> a@ == ActionView::Start(launch@),
        a matches Action::Append(id, text) ==> a@ == ActionView::Append(id@, text@),
        a matches Action::Finalize(id) ==> a@ == ActionView::Finalize(id@),
        a matches Action::Fail(why) ==> a@ == ActionView::Fail(why@),
        a is ReadLine == a@ is ReadLine && a is WaitForExit == a@ is WaitForExit,
        a is ReadErrors == a@ is ReadErrors && a is Done == a@ is Done,
{
}

/// Events are seen as they are.
pub proof fn law_events_are_seen_as_they_are(e: Event)
    ensures
        e matches Event::Draft(Ok(id)) ==> e@ == EventView::Draft(Ok(id@)),
        e matches Event::Draft(Err(why)) ==> e@ == EventView::Draft(Err(why@)),
        e matches Event::Workdir(exists) ==> e@ == EventView::Workdir(exists),
        e matches Event::Started(start) ==> e@ == EventView::Started(start),
        e matches Event::Line(line, ms) ==> e@ == EventView::Line(line@, ms),
        e is OutputEnded ==> e@ == EventView::OutputEnded,
        e matches Event::OutputBroken(why) ==> e@ == EventView::OutputBroken(why@),
        e is Appended ==> e@ == EventView::Appended,
        e matches Event::Exited(success) ==> e@ == EventView::Exited(success),
        e matches Event::ExitUnknown(why) ==> e@ == EventView::ExitUnknown(why@),
        e matches Event::Errors(text) ==> e@ == EventView::Errors(text@),
        e is Finalized ==> e@ == EventView::Finalized,
{
}

} // verus!
