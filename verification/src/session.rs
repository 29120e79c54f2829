//! The conversation session: a state machine that is handed one event at a
//! time and answers with the next state and with what is to be done next.
//!
//! The session never reads a line, calls the sentiment service or the
//! completion backend itself. Its caller does what the returned `Action`
//! says, and hands back what came of it as the next `Event`.

use crate::backend::{
    content_or_empty, content_text, CompletionRequest, ConversationTurn, RequestView, Role,
    TurnView, ANSWER_TOKENS, MODEL,
};
use crate::number::{
    decimal, decimal_text, is_digit, lemma_decimal_round_trip, numeral_value, parse_numeral,
    Numeral,
};
use crate::prompt::directive_text;
use crate::system_prompt::{
    distinct_triggers, lemma_rendered_holds_directive, lemma_trigger_position,
    lemma_with_directive_distinct, lemma_with_directive_holds, rendered, trigger_position,
    with_directive, DirectiveView, SystemPrompt, SystemPromptView, TrainingDirective,
};
use crate::text::{has_occurrence, same_text, trim, trimmed};
use crate::views::lemma_push_deep_view;
use vstd::prelude::*;
use vstd::string::*;

verus! {

/// The line that takes an active session into training mode.
pub const TRAIN_COMMAND: &'static str = "TRAIN";

/// The selection that leaves training mode with nothing changed.
pub const EXIT_COMMAND: &'static str = "exit";

/// The label of an input that the sentiment service could not tag.
pub const UNKNOWN_LABEL: &'static str = "unknown";

/// A user's input with the reply it got, as training mode lists them.
#[derive(Debug, Clone, PartialEq, Eq)]
pub struct ConversationLogEntry {
    pub user_input: String,
    pub assistant_reply: String,
}

/// The mathematical value of a `ConversationLogEntry`.
pub ghost struct LogEntryView {
    pub user_input: Seq<char>,
    pub assistant_reply: Seq<char>,
}

impl View for ConversationLogEntry {
    type V = LogEntryView;

    open spec fn view(&self) -> LogEntryView {
        LogEntryView { user_input: self.user_input@, assistant_reply: self.assistant_reply@ }
    }
}

impl DeepView for ConversationLogEntry {
    type V = LogEntryView;

    open spec fn deep_view(&self) -> LogEntryView {
        self@
    }
}

/// Where a session stands.
#[derive(Debug, Clone, PartialEq, Eq)]
pub enum Mode {
    /// Waiting for the next line of input.
    Active,
    /// Waiting for the sentiment of `input`.
    Tagging { input: String },
    /// Waiting for the backend's reply to `input`.
    Completing { input: String },
    /// In training mode, waiting for the operator to select an entry.
    Selecting,
    /// In training mode, waiting for the new reply of the entry at
    /// `index`, counted from 0.
    Editing { index: usize },
}

/// The mathematical value of a `Mode`.
pub ghost enum ModeView {
    Active,
    Tagging { input: Seq<char> },
    Completing { input: Seq<char> },
    Selecting,
    Editing { index: nat },
}

impl View for Mode {
    type V = ModeView;

    open spec fn view(&self) -> ModeView {
        match self {
            Mode::Active => ModeView::Active,
            Mode::Tagging { input } => ModeView::Tagging { input: input@ },
            Mode::Completing { input } => ModeView::Completing { input: input@ },
            Mode::Selecting => ModeView::Selecting,
            Mode::Editing { index } => ModeView::Editing { index: *index as nat },
        }
    }
}

/// What happened outside the session since its last step.
#[derive(Debug, Clone, PartialEq, Eq)]
pub enum Event {
    /// A line was read from the operator.
    Line(String),
    /// The sentiment service answered with a label, or failed.
    Sentiment(Option<String>),
    /// The backend returned these choices, each with or without content.
    Completion(Vec<Option<String>>),
}

/// The mathematical value of an `Event`.
pub ghost enum EventView {
    Line(Seq<char>),
    Sentiment(Option<Seq<char>>),
    Completion(Seq<Option<Seq<char>>>),
}

impl View for Event {
    type V = EventView;

    open spec fn view(&self) -> EventView {
        match self {
            Event::Line(line) => EventView::Line(line@),
            Event::Sentiment(outcome) => EventView::Sentiment(outcome.deep_view()),
            Event::Completion(contents) => EventView::Completion(contents.deep_view()),
        }
    }
}

/// Why a selection in training mode selected nothing.
#[derive(Debug, Clone, Copy, PartialEq, Eq, Structural)]
pub enum SelectionError {
    /// The selection is no numeral.
    NotANumber,
    /// The selection is a numeral, but no entry has that number.
    OutOfRange,
}

/// What the caller is to do after a step, before it hands in the next
/// event.
#[derive(Debug, Clone, PartialEq, Eq)]
pub enum Action {
    /// Ask the sentiment service for the label of `text`; then hand in
    /// `Event::Sentiment`.
    TagSentiment { text: String },
    /// Show `label` as the tag of the input and send `request` to the
    /// backend; then hand in `Event::Completion`.
    Complete { label: String, request: CompletionRequest },
    /// Show the assistant's replies; then hand in the next line.
    ShowReplies { replies: Vec<String> },
    /// Training mode was entered: show the numbered entries and ask for a
    /// selection; then hand in the next line.
    ShowLog { entries: Vec<String> },
    /// An entry was selected: show its current reply and ask for the new
    /// one; then hand in the next line.
    AskReplacement { current_reply: String },
    /// The correction was made: `prompt` is the system prompt as it now
    /// reads, `note` the instruction that was added to the history.
    Trained { prompt: String, note: String },
    /// Training mode was left with nothing changed.
    LeftTraining,
    /// The selection selected nothing; training mode was left with
    /// nothing changed.
    InvalidSelection { error: SelectionError },
    /// The event is not one that the session was waiting for; nothing
    /// changed.
    Unexpected,
}

/// The mathematical value of an `Action`.
pub ghost enum ActionView {
    TagSentiment { text: Seq<char> },
    Complete { label: Seq<char>, request: RequestView },
    ShowReplies { replies: Seq<Seq<char>> },
    ShowLog { entries: Seq<Seq<char>> },
    AskReplacement { current_reply: Seq<char> },
    Trained { prompt: Seq<char>, note: Seq<char> },
    LeftTraining,
    InvalidSelection { error: SelectionError },
    Unexpected,
}

impl View for Action {
    type V = ActionView;

    open spec fn view(&self) -> ActionView {
        match self {
            Action::TagSentiment { text } => ActionView::TagSentiment { text: text@ },
            Action::Complete { label, request } => ActionView::Complete {
                label: label@,
                request: request@,
            },
            Action::ShowReplies { replies } => ActionView::ShowReplies {
                replies: replies.deep_view(),
            },
            Action::ShowLog { entries } => ActionView::ShowLog { entries: entries.deep_view() },
            Action::AskReplacement { current_reply } => ActionView::AskReplacement {
                current_reply: current_reply@,
            },
            Action::Trained { prompt, note } => ActionView::Trained {
                prompt: prompt@,
                note: note@,
            },
            Action::LeftTraining => ActionView::LeftTraining,
            Action::InvalidSelection { error } => ActionView::InvalidSelection { error: *error },
            Action::Unexpected => ActionView::Unexpected,
        }
    }
}

/// The mathematical value of a `Session`.
pub ghost struct SessionView {
    /// The live system prompt.
    pub prompt: SystemPromptView,
    /// The messages exchanged so far, oldest first. The system prompt is
    /// not among them: it leads every request as it reads at that time.
    pub turns: Seq<TurnView>,
    /// The inputs with their replies, oldest first.
    pub log: Seq<LogEntryView>,
    pub mode: ModeView,
}

impl SessionView {
    /// What holds of every session: the corrections are one for each
    /// input, and an entry that is being edited exists.
    pub open spec fn well_formed(self) -> bool {
        &&& distinct_triggers(self.prompt.directives)
        &&& match self.mode {
            ModeView::Editing { index } => index < self.log.len(),
            _ => true,
        }
    }
}

/// The instruction that is added to the history when an input is bound to
/// a reply.
pub open spec fn training_note(trigger: Seq<char>, reply: Seq<char>) -> Seq<char> {
    "[TRAINDATA] For the prompt '"@ + trigger + "', you must always reply with '"@ + reply
        + "'."@
}

/// An entry as training mode lists it, under the number that selects it.
pub open spec fn entry_listing(number: nat, entry: LogEntryView) -> Seq<char> {
    decimal_text(number) + ". Prompt: "@ + entry.user_input + "\n   Reply: "@
        + entry.assistant_reply
}

/// The entries as training mode lists them, numbered from 1.
pub open spec fn log_listing(log: Seq<LogEntryView>) -> Seq<Seq<char>> {
    Seq::new(log.len(), |i: int| entry_listing((i + 1) as nat, log[i]))
}

/// The label under which an input is shown: what the sentiment service
/// said, or `UNKNOWN_LABEL` if it failed.
pub open spec fn sentiment_label(outcome: Option<Seq<char>>) -> Seq<char> {
    match outcome {
        Some(label) => label,
        None => UNKNOWN_LABEL@,
    }
}

/// The request that replays a conversation: the system prompt as it reads
/// now, then every turn of the history.
pub open spec fn replay_request(prompt: SystemPromptView, turns: Seq<TurnView>) -> RequestView {
    RequestView {
        model: MODEL@,
        max_tokens: ANSWER_TOKENS,
        messages: seq![TurnView { role: Role::System, content: rendered(prompt) }] + turns,
    }
}

/// The texts of the returned choices, in order.
pub open spec fn reply_texts(contents: Seq<Option<Seq<char>>>) -> Seq<Seq<char>> {
    Seq::new(contents.len(), |i: int| content_text(contents[i]))
}

/// An active session is handed a line: the command enters training mode,
/// anything else is an input that is first to be tagged.
pub open spec fn on_input(pre: SessionView, line: Seq<char>) -> (SessionView, ActionView) {
    let input = trimmed(line);
    if input == TRAIN_COMMAND@ {
        (
            SessionView { mode: ModeView::Selecting, ..pre },
            ActionView::ShowLog { entries: log_listing(pre.log) },
        )
    } else {
        (
            SessionView { mode: ModeView::Tagging { input }, ..pre },
            ActionView::TagSentiment { text: input },
        )
    }
}

/// The sentiment of `input` is in, or the service failed: either way the
/// input joins the history as a user turn, and the whole conversation is
/// sent to the backend.
pub open spec fn on_sentiment(
    pre: SessionView,
    input: Seq<char>,
    outcome: Option<Seq<char>>,
) -> (SessionView, ActionView) {
    let turns = pre.turns.push(TurnView { role: Role::User, content: input });
    (
        SessionView { turns, mode: ModeView::Completing { input }, ..pre },
        ActionView::Complete {
            label: sentiment_label(outcome),
            request: replay_request(pre.prompt, turns),
        },
    )
}

/// The backend has replied to `input`: each choice joins the history as an
/// assistant turn, and the log as the reply to `input`.
pub open spec fn on_completion(
    pre: SessionView,
    input: Seq<char>,
    contents: Seq<Option<Seq<char>>>,
) -> (SessionView, ActionView) {
    let replies = reply_texts(contents);
    (
        SessionView {
            turns: pre.turns + Seq::new(
                replies.len(),
                |i: int| TurnView { role: Role::Assistant, content: replies[i] },
            ),
            log: pre.log + Seq::new(
                replies.len(),
                |i: int| LogEntryView { user_input: input, assistant_reply: replies[i] },
            ),
            mode: ModeView::Active,
            ..pre
        },
        ActionView::ShowReplies { replies },
    )
}

/// The operator has made a selection: `exit` leaves training mode, the
/// number of an entry goes on to edit that entry, and anything else is
/// reported and leaves training mode. Only the mode changes.
pub open spec fn on_selection(pre: SessionView, line: Seq<char>) -> (SessionView, ActionView) {
    let choice = trimmed(line);
    let left = SessionView { mode: ModeView::Active, ..pre };
    if choice == EXIT_COMMAND@ {
        (left, ActionView::LeftTraining)
    } else {
        match numeral_value(choice) {
            None => (left, ActionView::InvalidSelection { error: SelectionError::NotANumber }),
            Some(number) => if 1 <= number <= pre.log.len() {
                (
                    SessionView {
                        mode: ModeView::Editing { index: (number - 1) as nat },
                        ..pre
                    },
                    ActionView::AskReplacement {
                        current_reply: pre.log[number - 1].assistant_reply,
                    },
                )
            } else {
                (left, ActionView::InvalidSelection { error: SelectionError::OutOfRange })
            },
        }
    }
}

/// The operator has given the new reply of the entry at `index`: the
/// input of that entry is bound to the reply in the system prompt and in
/// an instruction that joins the history, and the entry shows the new
/// reply.
pub open spec fn on_replacement(pre: SessionView, index: nat, line: Seq<char>) -> (
    SessionView,
    ActionView,
) {
    let reply = trimmed(line);
    let trigger = pre.log[index as int].user_input;
    let prompt = SystemPromptView {
        base: pre.prompt.base,
        directives: with_directive(
            pre.prompt.directives,
            DirectiveView { trigger_input: trigger, required_reply: reply },
        ),
    };
    let note = training_note(trigger, reply);
    (
        SessionView {
            prompt,
            turns: pre.turns.push(TurnView { role: Role::System, content: note }),
            log: pre.log.update(
                index as int,
                LogEntryView { user_input: trigger, assistant_reply: reply },
            ),
            mode: ModeView::Active,
        },
        ActionView::Trained { prompt: rendered(prompt), note },
    )
}

/// The session after an event, and what is to be done next. An event that
/// the session is not waiting for changes nothing.
pub open spec fn step_spec(pre: SessionView, event: EventView) -> (SessionView, ActionView) {
    match (pre.mode, event) {
        (ModeView::Active, EventView::Line(line)) => on_input(pre, line),
        (ModeView::Tagging { input }, EventView::Sentiment(outcome)) => on_sentiment(
            pre,
            input,
            outcome,
        ),
        (ModeView::Completing { input }, EventView::Completion(contents)) => on_completion(
            pre,
            input,
            contents,
        ),
        (ModeView::Selecting, EventView::Line(line)) => on_selection(pre, line),
        (ModeView::Editing { index }, EventView::Line(line)) => on_replacement(pre, index, line),
        _ => (pre, ActionView::Unexpected),
    }
}

/// Writes the instruction that binds an input to a reply.
pub fn format_training_note(trigger: &str, reply: &str) -> (note: String)
    ensures
        note@ == training_note(trigger@, reply@),
{
    let mut note = String::from_str("[TRAINDATA] For the prompt '");
    note.append(trigger);
    note.append("', you must always reply with '");
    note.append(reply);
    note.append("'.");
    note
}

/// Lists the entries as training mode shows them, numbered from 1.
pub fn list_log(log: &Vec<ConversationLogEntry>) -> (entries: Vec<String>)
    ensures
        entries.deep_view() == log_listing(log.deep_view()),
{
    let mut entries: Vec<String> = Vec::new();
    let mut i: usize = 0;
    while i < log.len()
        invariant
            i <= log.len(),
            entries.deep_view() == log_listing(log.deep_view()).take(i as int),
        decreases log.len() - i,
    {
        let mut entry = decimal(i + 1);
        entry.append(". Prompt: ");
        entry.append(log[i].user_input.as_str());
        entry.append("\n   Reply: ");
        entry.append(log[i].assistant_reply.as_str());
        let ghost before = entries;
        let ghost written = entry;
        entries.push(entry);
        proof {
            lemma_push_deep_view(before, entries, written);
            assert(entries.deep_view() =~= log_listing(log.deep_view()).take(i + 1));
        }
        i = i + 1;
    }
    assert(log_listing(log.deep_view()).take(log.len() as int) =~= log_listing(log.deep_view()));
    entries
}

/// Builds the request that replays a conversation under the system
/// prompt `prompt_text`.
fn replay(prompt_text: String, turns: &Vec<ConversationTurn>) -> (request: CompletionRequest)
    ensures
        request@ == (RequestView {
            model: MODEL@,
            max_tokens: ANSWER_TOKENS,
            messages: seq![TurnView { role: Role::System, content: prompt_text@ }]
                + turns.deep_view(),
        }),
{
    let ghost lead = seq![TurnView { role: Role::System, content: prompt_text@ }];
    let mut messages: Vec<ConversationTurn> = Vec::new();
    messages.push(ConversationTurn { role: Role::System, content: prompt_text });
    assert(messages.deep_view() =~= lead + turns.deep_view().take(0));
    let mut i: usize = 0;
    while i < turns.len()
        invariant
            i <= turns.len(),
            messages.deep_view() == lead + turns.deep_view().take(i as int),
        decreases turns.len() - i,
    {
        let copy = ConversationTurn { role: turns[i].role, content: turns[i].content.clone() };
        let ghost before = messages;
        let ghost copied = copy;
        messages.push(copy);
        proof {
            lemma_push_deep_view(before, messages, copied);
            assert(messages.deep_view() =~= lead + turns.deep_view().take(i + 1));
        }
        i = i + 1;
    }
    assert(turns.deep_view().take(turns.len() as int) =~= turns.deep_view());
    CompletionRequest { model: String::from_str(MODEL), max_tokens: ANSWER_TOKENS, messages }
}

/// A conversation session.
pub struct Session {
    prompt: SystemPrompt,
    turns: Vec<ConversationTurn>,
    log: Vec<ConversationLogEntry>,
    mode: Mode,
}

impl View for Session {
    type V = SessionView;

    closed spec fn view(&self) -> SessionView {
        SessionView {
            prompt: self.prompt@,
            turns: self.turns.deep_view(),
            log: self.log.deep_view(),
            mode: self.mode@,
        }
    }
}

impl Session {
    #[verifier::type_invariant]
    spec fn edited_entry_exists(&self) -> bool {
        match self.mode {
            Mode::Editing { index } => index < self.log.len(),
            _ => true,
        }
    }

    /// A session under the system prompt `prompt`: active, with nothing
    /// said yet.
    pub fn new(prompt: SystemPrompt) -> (session: Session)
        ensures
            session@ == (SessionView {
                prompt: prompt@,
                turns: Seq::empty(),
                log: Seq::empty(),
                mode: ModeView::Active,
            }),
    {
        let session = Session { prompt, turns: Vec::new(), log: Vec::new(), mode: Mode::Active };
        assert(session.turns.deep_view() =~= Seq::<TurnView>::empty());
        assert(session.log.deep_view() =~= Seq::<LogEntryView>::empty());
        session
    }

    /// The live system prompt.
    pub fn prompt(&self) -> (prompt: &SystemPrompt)
        ensures
            prompt@ == self@.prompt,
    {
        &self.prompt
    }

    /// The messages exchanged so far, oldest first.
    pub fn turns(&self) -> (turns: &Vec<ConversationTurn>)
        ensures
            turns.deep_view() == self@.turns,
    {
        &self.turns
    }

    /// The inputs with their replies, oldest first.
    pub fn log(&self) -> (log: &Vec<ConversationLogEntry>)
        ensures
            log.deep_view() == self@.log,
    {
        &self.log
    }

    /// Where the session stands.
    pub fn mode(&self) -> (mode: &Mode)
        ensures
            mode@ == self@.mode,
    {
        &self.mode
    }

    /// Takes the session one step: from its state and an event to the
    /// next state and to what the caller is to do next.
    pub fn step(self, event: Event) -> (next: (Session, Action))
        ensures
            (next.0@, next.1@) == step_spec(self@, event@),
            self@.well_formed(),
            next.0@.well_formed(),
    {
        proof {
            use_type_invariant(&self);
            use_type_invariant(&self.prompt);
        }
        let Session { prompt, turns, log, mode } = self;
        match (mode, event) {
            (Mode::Active, Event::Line(line)) => Self::take_input(prompt, turns, log, line),
            (Mode::Tagging { input }, Event::Sentiment(outcome)) => Self::take_sentiment(
                prompt,
                turns,
                log,
                input,
                outcome,
            ),
            (Mode::Completing { input }, Event::Completion(contents)) => Self::take_completion(
                prompt,
                turns,
                log,
                input,
                contents,
            ),
            (Mode::Selecting, Event::Line(line)) => Self::take_selection(prompt, turns, log, line),
            (Mode::Editing { index }, Event::Line(line)) => Self::take_replacement(
                prompt,
                turns,
                log,
                index,
                line,
            ),
            (mode, _) => (Session { prompt, turns, log, mode }, Action::Unexpected),
        }
    }

    fn take_input(
        prompt: SystemPrompt,
        turns: Vec<ConversationTurn>,
        log: Vec<ConversationLogEntry>,
        line: String,
    ) -> (next: (Session, Action))
        ensures
            (next.0@, next.1@) == on_input(
                SessionView {
                    prompt: prompt@,
                    turns: turns.deep_view(),
                    log: log.deep_view(),
                    mode: ModeView::Active,
                },
                line@,
            ),
    {
        let input = trim(line.as_str());
        if same_text(input, TRAIN_COMMAND) {
            let entries = list_log(&log);
            (Session { prompt, turns, log, mode: Mode::Selecting }, Action::ShowLog { entries })
        } else {
            let text = String::from_str(input);
            (
                Session { prompt, turns, log, mode: Mode::Tagging { input: text.clone() } },
                Action::TagSentiment { text },
            )
        }
    }

    fn take_sentiment(
        prompt: SystemPrompt,
        turns: Vec<ConversationTurn>,
        log: Vec<ConversationLogEntry>,
        input: String,
        outcome: Option<String>,
    ) -> (next: (Session, Action))
        ensures
            (next.0@, next.1@) == on_sentiment(
                SessionView {
                    prompt: prompt@,
                    turns: turns.deep_view(),
                    log: log.deep_view(),
                    mode: ModeView::Tagging { input: input@ },
                },
                input@,
                outcome.deep_view(),
            ),
    {
        let label = match outcome {
            Some(label) => label,
            None => String::from_str(UNKNOWN_LABEL),
        };
        let ghost before = turns.deep_view();
        let mut turns = turns;
        turns.push(ConversationTurn { role: Role::User, content: input.clone() });
        assert(turns.deep_view() =~= before.push(TurnView { role: Role::User, content: input@ }));
        let request = replay(prompt.text(), &turns);
        (
            Session { prompt, turns, log, mode: Mode::Completing { input } },
            Action::Complete { label, request },
        )
    }

    fn take_completion(
        prompt: SystemPrompt,
        turns: Vec<ConversationTurn>,
        log: Vec<ConversationLogEntry>,
        input: String,
        contents: Vec<Option<String>>,
    ) -> (next: (Session, Action))
        ensures
            (next.0@, next.1@) == on_completion(
                SessionView {
                    prompt: prompt@,
                    turns: turns.deep_view(),
                    log: log.deep_view(),
                    mode: ModeView::Completing { input: input@ },
                },
                input@,
                contents.deep_view(),
            ),
    {
        let ghost texts = reply_texts(contents.deep_view());
        let ghost old_turns = turns.deep_view();
        let ghost old_log = log.deep_view();
        let ghost new_turns = Seq::new(
            texts.len(),
            |i: int| TurnView { role: Role::Assistant, content: texts[i] },
        );
        let ghost new_entries = Seq::new(
            texts.len(),
            |i: int| LogEntryView { user_input: input@, assistant_reply: texts[i] },
        );
        let mut turns = turns;
        let mut log = log;
        let mut replies: Vec<String> = Vec::new();
        let mut i: usize = 0;
        while i < contents.len()
            invariant
                i <= contents.len(),
                texts == reply_texts(contents.deep_view()),
                new_turns == Seq::new(
                    texts.len(),
                    |i: int| TurnView { role: Role::Assistant, content: texts[i] },
                ),
                new_entries == Seq::new(
                    texts.len(),
                    |i: int| LogEntryView { user_input: input@, assistant_reply: texts[i] },
                ),
                turns.deep_view() == old_turns + new_turns.take(i as int),
                log.deep_view() == old_log + new_entries.take(i as int),
                replies.deep_view() == texts.take(i as int),
            decreases contents.len() - i,
        {
            let ghost turns_before = turns.deep_view();
            let ghost log_before = log.deep_view();
            let ghost replies_before = replies.deep_view();
            let reply = content_or_empty(&contents[i]);
            log.push(
                ConversationLogEntry { user_input: input.clone(), assistant_reply: reply.clone() },
            );
            turns.push(ConversationTurn { role: Role::Assistant, content: reply.clone() });
            replies.push(reply);
            proof {
                assert(turns.deep_view() =~= turns_before.push(new_turns[i as int]));
                assert(log.deep_view() =~= log_before.push(new_entries[i as int]));
                assert(replies.deep_view() =~= replies_before.push(texts[i as int]));
            }
            i = i + 1;
        }
        assert(new_turns.take(texts.len() as int) =~= new_turns);
        assert(new_entries.take(texts.len() as int) =~= new_entries);
        assert(texts.take(texts.len() as int) =~= texts);
        (Session { prompt, turns, log, mode: Mode::Active }, Action::ShowReplies { replies })
    }

    fn take_selection(
        prompt: SystemPrompt,
        turns: Vec<ConversationTurn>,
        log: Vec<ConversationLogEntry>,
        line: String,
    ) -> (next: (Session, Action))
        ensures
            (next.0@, next.1@) == on_selection(
                SessionView {
                    prompt: prompt@,
                    turns: turns.deep_view(),
                    log: log.deep_view(),
                    mode: ModeView::Selecting,
                },
                line@,
            ),
            next.0@.well_formed() <== distinct_triggers(prompt@.directives),
    {
        let choice = trim(line.as_str());
        if same_text(choice, EXIT_COMMAND) {
            return (Session { prompt, turns, log, mode: Mode::Active }, Action::LeftTraining);
        }
        match parse_numeral(choice) {
            Numeral::Value(number) => {
                if 1 <= number && number <= log.len() {
                    let current_reply = log[number - 1].assistant_reply.clone();
                    (
                        Session { prompt, turns, log, mode: Mode::Editing { index: number - 1 } },
                        Action::AskReplacement { current_reply },
                    )
                } else {
                    (
                        Session { prompt, turns, log, mode: Mode::Active },
                        Action::InvalidSelection { error: SelectionError::OutOfRange },
                    )
                }
            },
            Numeral::TooLarge => (
                Session { prompt, turns, log, mode: Mode::Active },
                Action::InvalidSelection { error: SelectionError::OutOfRange },
            ),
            Numeral::NotANumber => (
                Session { prompt, turns, log, mode: Mode::Active },
                Action::InvalidSelection { error: SelectionError::NotANumber },
            ),
        }
    }

    fn take_replacement(
        prompt: SystemPrompt,
        turns: Vec<ConversationTurn>,
        log: Vec<ConversationLogEntry>,
        index: usize,
        line: String,
    ) -> (next: (Session, Action))
        requires
            index < log.len(),
        ensures
            (next.0@, next.1@) == on_replacement(
                SessionView {
                    prompt: prompt@,
                    turns: turns.deep_view(),
                    log: log.deep_view(),
                    mode: ModeView::Editing { index: index as nat },
                },
                index as nat,
                line@,
            ),
            distinct_triggers(next.0@.prompt.directives),
    {
        let reply = String::from_str(trim(line.as_str()));
        let trigger = log[index].user_input.clone();
        let note = format_training_note(trigger.as_str(), reply.as_str());
        let prompt = prompt.amend(
            TrainingDirective { trigger_input: trigger.clone(), required_reply: reply.clone() },
        );
        let ghost turns_before = turns.deep_view();
        let ghost log_before = log.deep_view();
        let mut turns = turns;
        let mut log = log;
        turns.push(ConversationTurn { role: Role::System, content: note.clone() });
        assert(turns.deep_view() =~= turns_before.push(
            TurnView { role: Role::System, content: note@ },
        ));
        log.set(index, ConversationLogEntry { user_input: trigger, assistant_reply: reply });
        assert(log.deep_view() =~= log_before.update(
            index as int,
            LogEntryView { user_input: trigger@, assistant_reply: reply@ },
        ));
        let text = prompt.text();
        (
            Session { prompt, turns, log, mode: Mode::Active },
            Action::Trained { prompt: text, note },
        )
    }
}

/// A selection in training mode that is the number of no entry, 0 or a
/// number beyond the last entry, leaves the log, the prompt and the
/// history as they are, and the session is active again.
pub proof fn lemma_selection_outside_log_changes_nothing(
    pre: SessionView,
    line: Seq<char>,
    number: nat,
)
    requires
        pre.mode == ModeView::Selecting,
        numeral_value(trimmed(line)) == Some(number),
        number == 0 || number > pre.log.len(),
    ensures
        step_spec(pre, EventView::Line(line)) == (
            SessionView { mode: ModeView::Active, ..pre },
            ActionView::InvalidSelection { error: SelectionError::OutOfRange },
        ),
{
    // A numeral is not the word that leaves training mode: that word
    // begins with a letter.
    reveal_strlit("exit");
    if trimmed(line) == EXIT_COMMAND@ {
        assert(!is_digit(trimmed(line)[0]));
    }
}

/// The number under which training mode lists an entry selects that
/// entry: typed as it is shown, it goes on to the new reply of the entry
/// that was listed under it.
pub proof fn lemma_listed_number_selects_entry(pre: SessionView, line: Seq<char>, at: int)
    requires
        pre.mode == ModeView::Selecting,
        0 <= at < pre.log.len(),
        trimmed(line) == decimal_text((at + 1) as nat),
    ensures
        log_listing(pre.log)[at] == entry_listing((at + 1) as nat, pre.log[at]),
        step_spec(pre, EventView::Line(line)) == (
            SessionView { mode: ModeView::Editing { index: at as nat }, ..pre },
            ActionView::AskReplacement { current_reply: pre.log[at].assistant_reply },
        ),
{
    lemma_decimal_round_trip((at + 1) as nat);
    reveal_strlit("exit");
    if trimmed(line) == EXIT_COMMAND@ {
        assert(!is_digit(trimmed(line)[0]));
    }
}

/// Whatever is typed as a selection, unless it is the number of an entry,
/// changes nothing but the mode: the session is active again.
pub proof fn lemma_training_left_changes_nothing(pre: SessionView, line: Seq<char>)
    requires
        pre.mode == ModeView::Selecting,
        match numeral_value(trimmed(line)) {
            Some(number) => number == 0 || number > pre.log.len(),
            None => true,
        },
    ensures
        step_spec(pre, EventView::Line(line)).0 == (SessionView {
            mode: ModeView::Active,
            ..pre
        }),
{
}

/// No step takes anything back: the history only grows at its end, the
/// log keeps its entries and their inputs, the composed text of the
/// prompt stays, and the corrections do not become fewer. What holds of
/// every session holds after the step.
pub proof fn lemma_history_only_grows(pre: SessionView, event: EventView)
    requires
        pre.well_formed(),
    ensures
        ({
            let post = step_spec(pre, event).0;
            &&& post.well_formed()
            &&& pre.turns.is_prefix_of(post.turns)
            &&& pre.log.len() <= post.log.len()
            &&& forall|i: int|
                0 <= i < pre.log.len() ==> post.log[i].user_input == pre.log[i].user_input
            &&& post.prompt.base == pre.prompt.base
            &&& pre.prompt.directives.len() <= post.prompt.directives.len()
        }),
{
    match (pre.mode, event) {
        (ModeView::Editing { index }, EventView::Line(line)) => {
            let directive = DirectiveView {
                trigger_input: pre.log[index as int].user_input,
                required_reply: trimmed(line),
            };
            lemma_with_directive_distinct(pre.prompt.directives, directive);
            lemma_trigger_position(pre.prompt.directives, directive.trigger_input, 0);
        },
        _ => {},
    }
}

/// A turn goes on when the sentiment service fails: the input is shown
/// under the label for unknown sentiment, the request is the one that any
/// label would have brought, and once the backend has replied the log
/// holds the exchange.
pub proof fn lemma_untagged_turn_completes(
    pre: SessionView,
    input: Seq<char>,
    outcome: Option<Seq<char>>,
    contents: Seq<Option<Seq<char>>>,
)
    requires
        pre.mode == (ModeView::Tagging { input }),
    ensures
        ({
            let untagged = step_spec(pre, EventView::Sentiment(None));
            let tagged = step_spec(pre, EventView::Sentiment(outcome));
            let done = step_spec(untagged.0, EventView::Completion(contents));
            let request = replay_request(
                pre.prompt,
                pre.turns.push(TurnView { role: Role::User, content: input }),
            );
            &&& untagged.1 == (ActionView::Complete { label: UNKNOWN_LABEL@, request })
            &&& tagged.1 == (ActionView::Complete { label: sentiment_label(outcome), request })
            &&& tagged.0 == untagged.0
            &&& done.0.mode == ModeView::Active
            &&& done.0.log == pre.log + Seq::new(
                contents.len(),
                |i: int|
                    LogEntryView { user_input: input, assistant_reply: content_text(contents[i]) },
            )
        }),
{
}

/// A correction governs what follows: once the operator has given the new
/// reply of an entry, the entry shows it, the prompt holds exactly one
/// correction for the entry's input, and the request for the next input
/// carries the correction twice over, written out in the system prompt
/// that leads it and as the instruction in its history.
pub proof fn lemma_correction_reaches_next_request(
    pre: SessionView,
    index: nat,
    line: Seq<char>,
    next_line: Seq<char>,
    outcome: Option<Seq<char>>,
)
    requires
        pre.well_formed(),
        pre.mode == (ModeView::Editing { index }),
        trimmed(next_line) != TRAIN_COMMAND@,
    ensures
        ({
            let trigger = pre.log[index as int].user_input;
            let reply = trimmed(line);
            let directive = DirectiveView { trigger_input: trigger, required_reply: reply };
            let trained = step_spec(pre, EventView::Line(line)).0;
            let asked = step_spec(trained, EventView::Line(next_line)).0;
            let tagged = step_spec(asked, EventView::Sentiment(outcome));
            let at = trigger_position(pre.prompt.directives, trigger, 0);
            &&& trained.mode == ModeView::Active
            &&& trained.log[index as int] == (LogEntryView {
                user_input: trigger,
                assistant_reply: reply,
            })
            &&& 0 <= at < trained.prompt.directives.len()
            &&& trained.prompt.directives[at] == directive
            &&& forall|k: int|
                0 <= k < trained.prompt.directives.len()
                    && trained.prompt.directives[k].trigger_input == trigger ==> k == at
            &&& has_occurrence(rendered(trained.prompt), directive_text(trigger, reply))
            &&& tagged.1 matches ActionView::Complete { request, .. }
            &&& request.messages[0] == (TurnView {
                role: Role::System,
                content: rendered(trained.prompt),
            })
            &&& request.messages.contains(
                TurnView { role: Role::System, content: training_note(trigger, reply) },
            )
        }),
{
    let trigger = pre.log[index as int].user_input;
    let reply = trimmed(line);
    let directive = DirectiveView { trigger_input: trigger, required_reply: reply };
    let trained = step_spec(pre, EventView::Line(line)).0;
    let at = trigger_position(pre.prompt.directives, trigger, 0);
    lemma_with_directive_holds(pre.prompt.directives, directive);
    lemma_rendered_holds_directive(trained.prompt, at);
    let note = TurnView { role: Role::System, content: training_note(trigger, reply) };
    let request = replay_request(
        trained.prompt,
        trained.turns.push(TurnView { role: Role::User, content: trimmed(next_line) }),
    );
    assert(request.messages[1 + pre.turns.len() as int] == note);
}

} // verus!
