//! LLM providers: the chat message model and the provider interface.
use vstd::prelude::*;
use crate::error::ProviderError;

pub mod local;
pub mod remote;

verus! {

/// Who wrote a chat message.
#[derive(Clone, Copy, PartialEq, Eq, Structural, Debug)]
pub enum Role {
    User,
    System,
    Assistant,
}

/// One chat message.
#[derive(Clone, Debug)]
pub struct Message {
    pub role: Role,
    pub content: String,
}

pub struct MessageView {
    pub role: Role,
    pub content: Seq<char>,
}

impl View for Message {
    type V = MessageView;

    open spec fn view(&self) -> MessageView {
        MessageView { role: self.role, content: self.content@ }
    }
}

pub open spec fn messages_view(v: Seq<Message>) -> Seq<MessageView> {
    v.map_values(|m: Message| m@)
}

/// An LLM backend that answers a chat.
pub trait Provider {
    /// The model's reply to `messages`.
    fn complete_chat(&self, messages: Vec<Message>) -> Result<String, ProviderError>;

    /// The model's reply when tools may be used; unsupported unless a provider says otherwise.
    fn complete_with_tools(&self, messages: Vec<Message>) -> (r: Result<String, ProviderError>)
        default_ensures
            r matches Err(ProviderError::NotSupported),
    {
        Err(ProviderError::NotSupported)
    }
}

} // verus!
