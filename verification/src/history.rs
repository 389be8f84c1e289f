//! The messages of a conversation.

use vstd::prelude::*;

verus! {

/// One message of a conversation.
pub struct ChatMessage {
    /// Who speaks: `system`, `user` or `assistant`.
    pub role: String,
    /// What is said.
    pub content: String,
}

/// What a [`ChatMessage`] holds.
pub struct Message {
    pub role: Seq<char>,
    pub content: Seq<char>,
}

impl View for ChatMessage {
    type V = Message;

    open spec fn view(&self) -> Message {
        Message { role: self.role@, content: self.content@ }
    }
}

impl DeepView for ChatMessage {
    type V = Message;

    open spec fn deep_view(&self) -> Message {
        self@
    }
}

impl ChatMessage {
    /// A message that instructs the model.
    pub fn system(content: &str) -> (m: ChatMessage)
        ensures
            m@ == (Message { role: "system"@, content: content@ }),
    {
        ChatMessage { role: "system".to_string(), content: content.to_string() }
    }

    /// A message from the user.
    pub fn user(content: &str) -> (m: ChatMessage)
        ensures
            m@ == (Message { role: "user"@, content: content@ }),
    {
        ChatMessage { role: "user".to_string(), content: content.to_string() }
    }

    /// A message from the model.
    pub fn assistant(content: &str) -> (m: ChatMessage)
        ensures
            m@ == (Message { role: "assistant"@, content: content@ }),
    {
        ChatMessage { role: "assistant".to_string(), content: content.to_string() }
    }
}

/// A message has the role that it is made for, and its content as it is.
pub proof fn law_message_has_its_role(
    content: &str,
    system: ChatMessage,
    user: ChatMessage,
    assistant: ChatMessage,
)
    requires
        call_ensures(ChatMessage::system, (content,), system),
        call_ensures(ChatMessage::user, (content,), user),
        call_ensures(ChatMessage::assistant, (content,), assistant),
    ensures
        system.role@ == "system"@ && system.content@ == content@,
        user.role@ == "user"@ && user.content@ == content@,
        assistant.role@ == "assistant"@ && assistant.content@ == content@,
{
}

} // verus!
