//! Scripted conversations with a language model.
//!
//! A conversation is written down as a transcript: role-tagged messages
//! interleaved with markers that ask the model to answer. The transcript is
//! parsed into a sequence of [`PromptMessageRequest`] values, assembled into a
//! [`Prompt`], and driven to a [`Completion`].
use vstd::prelude::*;

pub mod cli;
pub mod llm;
pub mod message;
pub mod prelude;
pub mod prompt;
pub mod text;
pub mod web;

verus! {

/// The party a message is attributed to.
#[derive(Debug, Clone, Copy, PartialEq, Eq, Structural)]
pub enum Role {
    System,
    User,
    Assistant,
}

/// The mathematical content of a [`PromptMessage`].
pub ghost struct MessageView {
    pub role: Role,
    pub content: Seq<char>,
}

/// One utterance attributed to a role.
#[derive(Debug, PartialEq, Eq)]
pub struct PromptMessage {
    pub role: Role,
    pub content: String,
}

impl View for PromptMessage {
    type V = MessageView;

    open spec fn view(&self) -> MessageView {
        MessageView { role: self.role, content: self.content@ }
    }
}

impl DeepView for PromptMessage {
    type V = MessageView;

    open spec fn deep_view(&self) -> MessageView {
        self@
    }
}

impl Clone for PromptMessage {
    fn clone(&self) -> (copy: Self)
        ensures
            copy == *self,
    {
        PromptMessage { role: self.role, content: self.content.clone() }
    }
}

/// The mathematical content of a [`PromptMessageRequest`]: either a message to
/// append as it is, or the instruction to ask the model for its next message.
pub ghost enum Directive {
    Emit { body: MessageView },
    GenerateNow,
}

/// One step of a scripted conversation.
#[derive(Debug, PartialEq, Eq)]
pub enum PromptMessageRequest {
    /// Append `body` to the conversation without contacting the model.
    Message { body: PromptMessage },
    /// Send the conversation so far to the model and append its answer.
    WaitCompletion,
}

impl View for PromptMessageRequest {
    type V = Directive;

    open spec fn view(&self) -> Directive {
        match self {
            PromptMessageRequest::Message { body } => Directive::Emit { body: body@ },
            PromptMessageRequest::WaitCompletion => Directive::GenerateNow,
        }
    }
}

impl DeepView for PromptMessageRequest {
    type V = Directive;

    open spec fn deep_view(&self) -> Directive {
        self@
    }
}

impl Clone for PromptMessageRequest {
    fn clone(&self) -> (copy: Self)
        ensures
            copy == *self,
    {
        match self {
            PromptMessageRequest::Message { body } => PromptMessageRequest::Message {
                body: body.clone(),
            },
            PromptMessageRequest::WaitCompletion => PromptMessageRequest::WaitCompletion,
        }
    }
}

/// How many of `directives` ask the model to answer.
pub open spec fn count_generate_now(directives: Seq<Directive>) -> nat
    decreases directives.len(),
{
    if directives.len() == 0 {
        0
    } else {
        count_generate_now(directives.drop_last()) + if directives.last() is GenerateNow {
            1nat
        } else {
            0nat
        }
    }
}

/// Whether `directive` appends a message attributed to the assistant.
pub open spec fn emits_as_assistant(directive: Directive) -> bool {
    directive matches Directive::Emit { body } && body.role == Role::Assistant
}

/// The content of the most recent assistant message in `messages`, if any.
pub open spec fn last_assistant_content(messages: Seq<MessageView>) -> Option<Seq<char>>
    decreases messages.len(),
{
    if messages.len() == 0 {
        None
    } else if messages.last().role == Role::Assistant {
        Some(messages.last().content)
    } else {
        last_assistant_content(messages.drop_last())
    }
}

/// Returned when the last assistant message is asked of a conversation that
/// holds none.
#[derive(Debug, Clone, Copy, PartialEq, Eq, Structural)]
pub struct EmptyAssistantHistory;

/// The outcome of a finished conversation: every message in order, and how
/// many tokens the scripted and the generated parts take.
#[derive(Debug)]
pub struct Completion {
    pub messages: Vec<PromptMessage>,
    pub user_tokens: usize,
    pub assistant_tokens: usize,
}

impl Completion {
    /// The content of the most recent assistant message.
    pub fn last_assistant_response(&self) -> (response: Result<String, EmptyAssistantHistory>)
        ensures
            match response {
                Ok(content) => last_assistant_content(self.messages.deep_view()) == Some(
                    content@,
                ),
                Err(_) => last_assistant_content(self.messages.deep_view()) is None,
            },
    {
        let ghost all = self.messages.deep_view();
        let mut i: usize = self.messages.len();
        assert(all.take(i as int) == all);
        while i > 0
            invariant
                i <= self.messages.len(),
                all == self.messages.deep_view(),
                last_assistant_content(all) == last_assistant_content(all.take(i as int)),
            decreases i,
        {
            let message = &self.messages[i - 1];
            proof {
                let prefix = all.take(i as int);
                assert(prefix.last() == message@);
                assert(prefix.drop_last() == all.take(i - 1));
            }
            if is_assistant(message.role) {
                return Ok(message.content.clone());
            }
            i -= 1;
        }
        Err(EmptyAssistantHistory)
    }
}

/// Whether `role` is the model's own.
pub fn is_assistant(role: Role) -> (answer: bool)
    ensures
        answer == (role == Role::Assistant),
{
    match role {
        Role::Assistant => true,
        _ => false,
    }
}

/// How freely the model is to answer, kept as the bit pattern of the IEEE 754
/// single-precision number that the model is given. The library hands the
/// value on and never computes with it.
#[derive(Debug, Clone, Copy, PartialEq, Eq, Structural)]
pub struct Temperature {
    pub bits: u32,
}

/// The bit pattern of three tenths, the temperature of a prompt that names
/// none.
pub const DEFAULT_TEMPERATURE_BITS: u32 = 0x3e99_999a;

impl Temperature {
    /// The temperature with this bit pattern.
    pub fn from_bits(bits: u32) -> (temperature: Self)
        ensures
            temperature.bits == bits,
    {
        Temperature { bits }
    }

    /// The bit pattern of the temperature.
    pub fn to_bits(&self) -> (bits: u32)
        ensures
            bits == self.bits,
    {
        self.bits
    }
}

impl Default for Temperature {
    fn default() -> (temperature: Self)
        ensures
            temperature.bits == DEFAULT_TEMPERATURE_BITS,
    {
        Temperature { bits: DEFAULT_TEMPERATURE_BITS }
    }
}

/// A scripted conversation ready to be run: its steps in order, and the
/// temperature at which the model is asked.
#[derive(Debug)]
pub struct Prompt {
    pub messages: Vec<PromptMessageRequest>,
    pub temperature: Temperature,
}

/// Why a prompt cannot be built.
#[derive(Debug, Clone, Copy, PartialEq, Eq, Structural)]
pub enum ValidationError {
    /// No steps were given. An empty list of steps is not missing.
    MissingMessages,
}

/// Gathers the parts of a [`Prompt`]. The steps must be given; the temperature
/// may be left out.
#[derive(Debug)]
pub struct PromptBuilder {
    pub messages: Option<Vec<PromptMessageRequest>>,
    pub temperature: Option<Temperature>,
}

impl Default for PromptBuilder {
    fn default() -> (builder: Self)
        ensures
            builder.messages is None,
            builder.temperature is None,
    {
        PromptBuilder { messages: None, temperature: None }
    }
}

impl PromptBuilder {
    /// Sets the steps of the conversation.
    pub fn messages(self, messages: Vec<PromptMessageRequest>) -> (builder: Self)
        ensures
            builder.messages == Some(messages),
            builder.temperature == self.temperature,
    {
        PromptBuilder { messages: Some(messages), temperature: self.temperature }
    }

    /// Sets the temperature.
    pub fn temperature(self, temperature: Temperature) -> (builder: Self)
        ensures
            builder.messages == self.messages,
            builder.temperature == Some(temperature),
    {
        PromptBuilder { messages: self.messages, temperature: Some(temperature) }
    }

    /// The prompt with the parts gathered so far. It fails only where no steps
    /// were given; what the steps hold is not looked at.
    pub fn build(self) -> (built: Result<Prompt, ValidationError>)
        ensures
            match built {
                Ok(prompt) => self.messages == Some(prompt.messages) && prompt.temperature.bits
                    == (match self.temperature {
                    Some(temperature) => temperature.bits,
                    None => DEFAULT_TEMPERATURE_BITS,
                }),
                Err(error) => self.messages is None && error == ValidationError::MissingMessages,
            },
    {
        let temperature = match self.temperature {
            Some(temperature) => temperature,
            None => Temperature { bits: DEFAULT_TEMPERATURE_BITS },
        };
        match self.messages {
            Some(messages) => Ok(Prompt { messages, temperature }),
            None => Err(ValidationError::MissingMessages),
        }
    }
}

} // verus!
