//! The error kinds a conversation turn can fail with.
use vstd::prelude::*;

verus! {

/// Every failure of the client core, by kind.
#[derive(Debug)]
pub enum ChatGPTError {
    /// The underlying connection failed or timed out.
    Transport(String),
    /// A response body or an event frame could not be decoded, or the
    /// tokenizer refused to encode a text while the context was budgeted.
    Decode(String),
    /// The service returned a structured error payload; carries its message.
    Api(String),
    /// A well-formed response was missing a required field.
    Protocol(String),
    /// The session configuration was invalid, e.g. a malformed credential.
    Config(String),
}

pub type ChatGPTResult<T> = Result<T, ChatGPTError>;

impl ChatGPTError {
    /// The message carried by the error, prefixed with its kind.
    pub fn message(&self) -> (r: String)
        ensures
            r@ == self.spec_message(),
    {
        match self {
            ChatGPTError::Transport(m) => "transport_error: ".to_owned().concat(m.as_str()),
            ChatGPTError::Decode(m) => "decode_error: ".to_owned().concat(m.as_str()),
            ChatGPTError::Api(m) => "chatgpt_error: ".to_owned().concat(m.as_str()),
            ChatGPTError::Protocol(m) => "protocol_error: ".to_owned().concat(m.as_str()),
            ChatGPTError::Config(m) => "config_error: ".to_owned().concat(m.as_str()),
        }
    }

    pub open spec fn spec_message(&self) -> Seq<char> {
        match self {
            ChatGPTError::Transport(m) => "transport_error: "@ + m@,
            ChatGPTError::Decode(m) => "decode_error: "@ + m@,
            ChatGPTError::Api(m) => "chatgpt_error: "@ + m@,
            ChatGPTError::Protocol(m) => "protocol_error: "@ + m@,
            ChatGPTError::Config(m) => "config_error: "@ + m@,
        }
    }
}

} // verus!
