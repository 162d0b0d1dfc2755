//! An offline provider that echoes the latest user message.
use vstd::prelude::*;
use vstd::string::*;
use crate::error::ProviderError;
use crate::providers::{Message, MessageView, Provider, Role};

verus! {

/// The index of the last user message, if any.
pub open spec fn last_user(ms: Seq<MessageView>) -> Option<int>
    decreases ms.len(),
{
    if ms.len() == 0 {
        None
    } else if ms.last().role == Role::User {
        Some(ms.len() - 1)
    } else {
        last_user(ms.drop_last())
    }
}

/// Provider for tests and offline use: answers "echo: " and the last user message.
pub struct LocalMock {}

impl LocalMock {
    pub fn new() -> (m: LocalMock) {
        LocalMock {}
    }
}

impl Provider for LocalMock {
    fn complete_chat(&self, messages: Vec<Message>) -> (r: Result<String, ProviderError>)
        ensures
            match last_user(crate::providers::messages_view(messages@)) {
                Some(i) => r matches Ok(t) && t@ == "echo: "@ + messages@[i].content@,
                None => r matches Err(ProviderError::Request(m)) && m@ == "no user message"@,
            },
    {
        let ghost mv = crate::providers::messages_view(messages@);
        let mut i = messages.len();
        assert(mv.take(i as int) == mv);
        while i > 0
            invariant
                i <= messages@.len(),
                mv == crate::providers::messages_view(messages@),
                last_user(mv) == last_user(mv.take(i as int)),
            decreases i,
        {
            assert(mv.take(i as int).drop_last() == mv.take(i - 1));
            if messages[i - 1].role == Role::User {
                let mut out = String::from_str("echo: ");
                out.append(messages[i - 1].content.as_str());
                return Ok(out);
            }
            i = i - 1;
        }
        Err(ProviderError::Request(String::from_str("no user message")))
    }
}

} // verus!
