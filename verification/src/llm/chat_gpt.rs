//! The ChatGPT family of models: their names and limits, the shape of their
//! messages, and how many tokens a text takes.
use vstd::prelude::*;

use crate::llm::ProviderError;
use crate::text::chars_equal;
use crate::text::from_chars;
use crate::text::replace_all;
use crate::text::replace_chars;
use crate::text::to_chars;
use crate::PromptMessage;
use crate::Role;

verus! {

/// The number of tokens that the `p50k_base` encoding splits `text` into,
/// with the encoding's special tokens read as such.
pub uninterp spec fn token_count(text: Seq<char>) -> nat;

/// The longest text, in characters, that is handed to the tokenizer.
pub const MAX_TOKENIZED_CHARS: usize = 500_000;

/// Whether `text` is short enough to be handed to the tokenizer.
pub open spec fn countable(text: Seq<char>) -> bool {
    text.len() <= MAX_TOKENIZED_CHARS
}

/// Calls `tiktoken_rs::p50k_base` for the encoding and
/// `CoreBPE::encode_with_special_tokens` on `input`, and hands back how many
/// tokens came out. The vocabulary is compiled into the tokenizer, so the count
/// depends on `input` alone; nothing else is claimed of it. The tokenizer
/// splits its input with a backtracking matcher whose stack holds a million
/// entries, one for each character of a piece, and panics where the stack runs
/// out; a text within [`MAX_TOKENIZED_CHARS`] cannot fill it.
#[verifier::external_body]
fn p50k_token_count(input: &str) -> (count: usize)
    requires
        countable(input@),
    ensures
        count == token_count(input@),
{
    let tokenizer = tiktoken_rs::p50k_base().expect("Failed to initialize tokenizer");
    tokenizer.encode_with_special_tokens(input).len()
}

/// How many tokens `input` takes.
pub fn count_tokens(input: &str) -> (count: usize)
    requires
        countable(input@),
    ensures
        count == token_count(input@),
{
    p50k_token_count(input)
}

/// How many tokens `input` takes, or `None` where it is too long to be
/// counted.
pub fn try_count_tokens(input: &str) -> (count: Option<usize>)
    ensures
        match count {
            Some(count) => countable(input@) && count == token_count(input@),
            None => !countable(input@),
        },
{
    if input.unicode_len() <= MAX_TOKENIZED_CHARS {
        Some(count_tokens(input))
    } else {
        None
    }
}

/// `text` with every occurrence of each of `placeholders` taken out, the
/// first placeholder first.
pub open spec fn without_placeholders(text: Seq<char>, placeholders: Seq<Seq<char>>) -> Seq<char>
    decreases placeholders.len(),
{
    if placeholders.len() == 0 {
        text
    } else {
        replace_all(
            without_placeholders(text, placeholders.drop_last()),
            placeholders.last(),
            Seq::empty(),
        )
    }
}

/// Computes [`without_placeholders`].
pub fn strip_placeholders(prompt_markdown: &str, placeholders: &[&str]) -> (stripped: String)
    ensures
        stripped@ == without_placeholders(prompt_markdown@, placeholders.deep_view()),
{
    let ghost all = placeholders.deep_view();
    let nothing: Vec<char> = Vec::new();
    let mut text = to_chars(prompt_markdown);
    let mut i: usize = 0;
    while i < placeholders.len()
        invariant
            i <= placeholders.len(),
            all == placeholders.deep_view(),
            nothing@ == Seq::<char>::empty(),
            text@ == without_placeholders(prompt_markdown@, all.take(i as int)),
        decreases placeholders.len() - i,
    {
        let placeholder = to_chars(placeholders[i]);
        proof {
            let next = all.take(i + 1);
            assert(next.drop_last() == all.take(i as int));
            assert(next.last() == placeholder@);
        }
        text = replace_chars(&text, &placeholder, &nothing);
        i += 1;
    }
    assert(all.take(i as int) == all);
    from_chars(&text)
}

/// How many tokens a prompt takes once its placeholders are taken out.
pub fn count_prompt_tokens(prompt_markdown: &str, placeholders: &[&str]) -> (count: usize)
    requires
        countable(without_placeholders(prompt_markdown@, placeholders.deep_view())),
    ensures
        count == token_count(without_placeholders(prompt_markdown@, placeholders.deep_view())),
{
    let stripped = strip_placeholders(prompt_markdown, placeholders);
    count_tokens(stripped.as_str())
}

/// How many tokens a prompt takes once its placeholders are taken out, or
/// `None` where what is left is too long to be counted.
pub fn try_count_prompt_tokens(prompt_markdown: &str, placeholders: &[&str]) -> (count: Option<
    usize,
>)
    ensures
        match count {
            Some(count) => {
                &&& countable(without_placeholders(prompt_markdown@, placeholders.deep_view()))
                &&& count == token_count(
                    without_placeholders(prompt_markdown@, placeholders.deep_view()),
                )
            },
            None => !countable(without_placeholders(prompt_markdown@, placeholders.deep_view())),
        },
{
    let stripped = strip_placeholders(prompt_markdown, placeholders);
    try_count_tokens(stripped.as_str())
}

/// The models that can be asked.
#[derive(Debug, Clone, Copy, PartialEq, Eq, Structural)]
pub enum ChatGptModel {
    /// Context window - 128,000
    /// Max output - 32,768
    O1Preview,
    /// Context window - 128,000
    /// Max output - 65,536
    O1Mini,
    /// Context window - 128,000
    /// Max output - 16,384
    Latest4o,
    /// Context window - 128,000
    /// Max output - 16,384
    Mini4o,
    /// Context window - 128,000
    /// Max output - 4,096
    Turbo4,
    /// Context window - 8,192
    /// Max output - 8,192
    Just4,
    /// Context window - 16,385
    /// Max output - 4,096
    Turbo35,
}

impl Default for ChatGptModel {
    fn default() -> (model: Self)
        ensures
            model == ChatGptModel::Latest4o,
    {
        ChatGptModel::Latest4o
    }
}

impl ChatGptModel {
    /// The number of tokens that the model can take in at once.
    pub open spec fn window(self) -> nat {
        match self {
            ChatGptModel::O1Preview => 128_000,
            ChatGptModel::O1Mini => 128_000,
            ChatGptModel::Latest4o => 128_000,
            ChatGptModel::Mini4o => 128_000,
            ChatGptModel::Turbo4 => 128_000,
            ChatGptModel::Just4 => 8_192,
            ChatGptModel::Turbo35 => 16_385,
        }
    }

    /// The name under which the model is asked for.
    pub open spec fn name(self) -> Seq<char> {
        match self {
            ChatGptModel::Mini4o => "gpt-4o-mini"@,
            ChatGptModel::Latest4o => "chatgpt-4o-latest"@,
            ChatGptModel::O1Preview => "o1-preview"@,
            ChatGptModel::O1Mini => "o1-mini"@,
            ChatGptModel::Turbo4 => "gpt-4-turbo"@,
            ChatGptModel::Just4 => "gpt-4"@,
            ChatGptModel::Turbo35 => "gpt-3.5-turbo"@,
        }
    }

    /// Computes [`ChatGptModel::window`].
    pub fn context_window(&self) -> (tokens: usize)
        ensures
            tokens == self.window(),
    {
        match self {
            ChatGptModel::O1Preview => 128_000,
            ChatGptModel::O1Mini => 128_000,
            ChatGptModel::Latest4o => 128_000,
            ChatGptModel::Mini4o => 128_000,
            ChatGptModel::Turbo4 => 128_000,
            ChatGptModel::Just4 => 8_192,
            ChatGptModel::Turbo35 => 16_385,
        }
    }

    /// Computes [`ChatGptModel::name`].
    pub fn to_string(&self) -> (name: String)
        ensures
            name@ == self.name(),
    {
        let name = match self {
            ChatGptModel::Mini4o => "gpt-4o-mini",
            ChatGptModel::Latest4o => "chatgpt-4o-latest",
            ChatGptModel::O1Preview => "o1-preview",
            ChatGptModel::O1Mini => "o1-mini",
            ChatGptModel::Turbo4 => "gpt-4-turbo",
            ChatGptModel::Just4 => "gpt-4",
            ChatGptModel::Turbo35 => "gpt-3.5-turbo",
        };
        name.to_owned()
    }
}

/// The name of `role` in a request or a response.
pub open spec fn wire_role(role: Role) -> Seq<char> {
    match role {
        Role::System => "system"@,
        Role::User => "user"@,
        Role::Assistant => "assistant"@,
    }
}

/// The role that `name` stands for in a request or a response. Only the three
/// names of [`wire_role`], letter for letter, stand for a role.
pub open spec fn role_of_wire(name: Seq<char>) -> Option<Role> {
    if name == wire_role(Role::Assistant) {
        Some(Role::Assistant)
    } else if name == wire_role(Role::User) {
        Some(Role::User)
    } else if name == wire_role(Role::System) {
        Some(Role::System)
    } else {
        None
    }
}

/// Computes [`wire_role`].
pub fn role_to_wire(role: Role) -> (name: &'static str)
    ensures
        name@ == wire_role(role),
{
    match role {
        Role::System => "system",
        Role::User => "user",
        Role::Assistant => "assistant",
    }
}

/// Computes [`role_of_wire`].
pub fn role_from_wire(name: &str) -> (role: Option<Role>)
    ensures
        role == role_of_wire(name@),
{
    let name = to_chars(name);
    if chars_equal(&name, &to_chars("assistant")) {
        Some(Role::Assistant)
    } else if chars_equal(&name, &to_chars("user")) {
        Some(Role::User)
    } else if chars_equal(&name, &to_chars("system")) {
        Some(Role::System)
    } else {
        None
    }
}

/// Every role is read back from its name.
pub proof fn law_role_round_trip(role: Role)
    ensures
        role_of_wire(wire_role(role)) == Some(role),
{
    reveal_strlit("system");
    reveal_strlit("user");
    reveal_strlit("assistant");
    assert("system"@.len() == 6);
    assert("user"@.len() == 4);
    assert("assistant"@.len() == 9);
}

/// A message as a request carries it and a response returns it.
#[derive(Debug, Clone, PartialEq, Eq)]
pub struct ChatGptMessage {
    pub role: String,
    pub content: String,
}

impl ChatGptMessage {
    /// The message as a request carries it.
    pub fn from_prompt_message(message: PromptMessage) -> (wire: ChatGptMessage)
        ensures
            wire.role@ == wire_role(message.role),
            wire.content == message.content,
    {
        ChatGptMessage { role: role_to_wire(message.role).to_owned(), content: message.content }
    }

    /// The message that a response returned, if its role is one of the three.
    pub fn into_prompt_message(self) -> (message: Result<PromptMessage, ProviderError>)
        ensures
            match message {
                Ok(read) => role_of_wire(self.role@) == Some(read.role) && read.content
                    == self.content,
                Err(ProviderError::UnknownRole { role }) => role_of_wire(self.role@) is None
                    && role == self.role,
                Err(_) => false,
            },
    {
        match role_from_wire(self.role.as_str()) {
            Some(role) => Ok(PromptMessage { role, content: self.content }),
            None => Err(ProviderError::UnknownRole { role: self.role }),
        }
    }
}

/// Whether a response with this HTTP status carries an answer: only `200 OK`
/// does.
pub fn accepts_status(status: u16) -> (accepted: bool)
    ensures
        accepted == (status == 200),
{
    status == 200
}

/// The message that a response offers: the first of its choices. A response
/// without choices offers none, and one whose first choice has an unknown role
/// is refused.
pub fn select_reply(choices: Vec<ChatGptMessage>) -> (reply: Result<PromptMessage, ProviderError>)
    ensures
        match reply {
            Ok(message) => choices@.len() > 0 && role_of_wire(choices@[0].role@) == Some(
                message.role,
            ) && message.content == choices@[0].content,
            Err(ProviderError::NoReply) => choices@.len() == 0,
            Err(ProviderError::UnknownRole { role }) => choices@.len() > 0 && role_of_wire(
                choices@[0].role@,
            ) is None && role == choices@[0].role,
            Err(_) => false,
        },
{
    let mut choices = choices;
    if choices.len() == 0 {
        return Err(ProviderError::NoReply);
    }
    let first = choices.swap_remove(0);
    first.into_prompt_message()
}

} // verus!
