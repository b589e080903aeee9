//! Wire-shaped data types of the client: messages, requests, responses and
//! history nodes, together with their mathematical views.
use vstd::prelude::*;

verus! {

/// One chat message: a role (`system`, `user` or `assistant`) and its text.
#[derive(Debug)]
pub struct Message {
    pub role: String,
    pub content: String,
}

/// Mathematical view of a [`Message`]: both fields as character sequences.
pub struct MessageView {
    pub role: Seq<char>,
    pub content: Seq<char>,
}

impl View for Message {
    type V = MessageView;

    open spec fn view(&self) -> MessageView {
        MessageView { role: self.role@, content: self.content@ }
    }
}

impl Message {
    /// A `system` message carrying `content`.
    pub fn system(content: String) -> (m: Message)
        ensures
            m@ == (MessageView { role: "system"@, content: content@ }),
    {
        Message { role: "system".to_owned(), content }
    }

    /// A `user` message carrying `content`.
    pub fn user(content: String) -> (m: Message)
        ensures
            m@ == (MessageView { role: "user"@, content: content@ }),
    {
        Message { role: "user".to_owned(), content }
    }

    pub fn clone(&self) -> (m: Message)
        ensures
            m@ == self@,
    {
        Message { role: self.role.clone(), content: self.content.clone() }
    }
}

/// The role a message falls back to when none is given on the wire.
pub fn default_role() -> (r: String)
    ensures
        r@ == "assistant"@,
{
    "assistant".to_owned()
}

/// The body of a completion request: a model name, the ordered context and an
/// optional streaming flag.
#[derive(Debug)]
pub struct ChatRequest {
    pub model: String,
    pub messages: Vec<Message>,
    pub stream: Option<bool>,
}

/// One answer alternative of a non-streaming response.
#[derive(Debug)]
pub struct Choice {
    pub index: i64,
    pub message: Message,
    pub finish_reason: String,
}

/// Token accounting reported by the service.
#[derive(Debug)]
pub struct Usage {
    pub prompt_tokens: i64,
    pub completion_tokens: i64,
    pub total_tokens: i64,
}

/// A structured error payload returned by the service.
#[derive(Debug)]
pub struct Error {
    pub message: String,
    pub type_field: Option<String>,
}

/// A non-streaming completion response.
#[derive(Debug)]
pub struct ChatResponse {
    pub id: Option<String>,
    pub object: Option<String>,
    pub created: Option<i64>,
    pub choices: Option<Vec<Choice>>,
    pub usage: Option<Usage>,
    pub error: Option<Error>,
}

/// One incremental alternative of a streamed response chunk.
#[derive(Debug)]
pub struct ChatChoiceDelta {
    pub delta: Message,
    pub index: i64,
}

/// One decoded chunk of a streamed response.
#[derive(Debug)]
pub struct ChatStreamResponse {
    pub id: Option<String>,
    pub object: String,
    pub created: u32,
    pub model: String,
    pub choices: Vec<ChatChoiceDelta>,
    pub usage: Option<Usage>,
}

/// A stored history record: a message with its id and optional parent id.
#[derive(Debug)]
pub struct HistoryMessage {
    pub id: String,
    pub parent_id: Option<String>,
    pub message: Message,
}

/// Mathematical view of a [`HistoryMessage`].
pub struct NodeView {
    pub id: Seq<char>,
    pub parent_id: Option<Seq<char>>,
    pub message: MessageView,
}

impl View for HistoryMessage {
    type V = NodeView;

    open spec fn view(&self) -> NodeView {
        NodeView {
            id: self.id@,
            parent_id: match self.parent_id {
                Some(p) => Some(p@),
                None => None,
            },
            message: self.message@,
        }
    }
}

impl HistoryMessage {
    pub fn clone(&self) -> (n: HistoryMessage)
        ensures
            n@ == self@,
    {
        HistoryMessage {
            id: self.id.clone(),
            parent_id: match &self.parent_id {
                Some(p) => Some(p.clone()),
                None => None,
            },
            message: self.message.clone(),
        }
    }
}

/// The views of a sequence of messages, in order.
pub open spec fn views_of(s: Seq<Message>) -> Seq<MessageView> {
    s.map_values(|m: Message| m@)
}

} // verus!
