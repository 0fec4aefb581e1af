//! Short ways to write the steps of a conversation.
use vstd::prelude::*;

use crate::Directive;
use crate::MessageView;
use crate::PromptMessage;
use crate::PromptMessageRequest;
use crate::Role;

verus! {

/// The step that appends `content` as a message of the system's.
pub fn system(content: &str) -> (request: PromptMessageRequest)
    ensures
        request@ == (Directive::Emit {
            body: MessageView { role: Role::System, content: content@ },
        }),
{
    PromptMessageRequest::Message {
        body: PromptMessage { role: Role::System, content: content.to_owned() },
    }
}

/// The step that appends `content` as a message of the user's.
pub fn user(content: &str) -> (request: PromptMessageRequest)
    ensures
        request@ == (Directive::Emit { body: MessageView { role: Role::User, content: content@ } }),
{
    PromptMessageRequest::Message {
        body: PromptMessage { role: Role::User, content: content.to_owned() },
    }
}

/// The step that lets the model answer.
pub fn complete() -> (request: PromptMessageRequest)
    ensures
        request@ == Directive::GenerateNow,
{
    PromptMessageRequest::WaitCompletion
}

} // verus!
