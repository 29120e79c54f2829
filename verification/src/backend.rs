//! What is exchanged with the completion backend: role-tagged messages and
//! the request that carries them. The call itself is made outside this
//! library.

use vstd::prelude::*;
use vstd::string::*;

verus! {

/// The model that every request names.
pub const MODEL: &'static str = "gpt-3.5-turbo";

/// The token budget of a request that expects a yes or a no.
pub const VERDICT_TOKENS: u16 = 10;

/// The token budget of every other request.
pub const ANSWER_TOKENS: u16 = 512;

/// Who a message is from.
#[derive(Debug, Clone, Copy, PartialEq, Eq, Structural)]
pub enum Role {
    System,
    User,
    Assistant,
}

/// One role-tagged message of a conversation.
#[derive(Debug, Clone, PartialEq, Eq)]
pub struct ConversationTurn {
    pub role: Role,
    pub content: String,
}

/// The mathematical value of a `ConversationTurn`.
pub ghost struct TurnView {
    pub role: Role,
    pub content: Seq<char>,
}

impl View for ConversationTurn {
    type V = TurnView;

    open spec fn view(&self) -> TurnView {
        TurnView { role: self.role, content: self.content@ }
    }
}

impl DeepView for ConversationTurn {
    type V = TurnView;

    open spec fn deep_view(&self) -> TurnView {
        self@
    }
}

/// A request to the completion backend.
#[derive(Debug, Clone, PartialEq, Eq)]
pub struct CompletionRequest {
    pub model: String,
    pub max_tokens: u16,
    pub messages: Vec<ConversationTurn>,
}

/// The mathematical value of a `CompletionRequest`.
pub ghost struct RequestView {
    pub model: Seq<char>,
    pub max_tokens: u16,
    pub messages: Seq<TurnView>,
}

impl View for CompletionRequest {
    type V = RequestView;

    open spec fn view(&self) -> RequestView {
        RequestView {
            model: self.model@,
            max_tokens: self.max_tokens,
            messages: self.messages.deep_view(),
        }
    }
}

/// The request that puts one instruction to the model, as a system
/// message.
pub open spec fn instruction_request(instruction: Seq<char>, max_tokens: u16) -> RequestView {
    RequestView {
        model: MODEL@,
        max_tokens,
        messages: seq![TurnView { role: Role::System, content: instruction }],
    }
}

/// Builds the request that puts one instruction to the model.
pub fn instruct(instruction: String, max_tokens: u16) -> (request: CompletionRequest)
    ensures
        request@ == instruction_request(instruction@, max_tokens),
{
    let mut messages: Vec<ConversationTurn> = Vec::new();
    messages.push(ConversationTurn { role: Role::System, content: instruction });
    let request = CompletionRequest { model: String::from_str(MODEL), max_tokens, messages };
    assert(request@.messages =~= instruction_request(instruction@, max_tokens).messages);
    request
}

/// The text of a choice that the backend returned: a choice without
/// content counts as the empty text.
pub open spec fn content_text(content: Option<Seq<char>>) -> Seq<char> {
    match content {
        Some(text) => text,
        None => Seq::empty(),
    }
}

/// The text of a returned choice, empty where the choice has no content.
pub fn content_or_empty(content: &Option<String>) -> (text: String)
    ensures
        text@ == content_text(content.deep_view()),
{
    match content {
        Some(text) => text.clone(),
        None => String::new(),
    }
}

} // verus!
