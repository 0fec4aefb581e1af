//! The names that most callers need.
pub use crate::llm::chat_gpt::ChatGptModel;
pub use crate::llm::complete_chat;
pub use crate::llm::LlmProvider;
pub use crate::message;
pub use crate::prompt::InjectableData;
pub use crate::Prompt;
pub use crate::PromptBuilder;
pub use crate::PromptMessage;
pub use crate::PromptMessageRequest;
pub use crate::Role;
pub use crate::Temperature;
