use std::cell::Cell;
use std::cell::RefCell;

use promptpunch::llm::chat_gpt::accepts_status;
use promptpunch::llm::chat_gpt::count_prompt_tokens;
use promptpunch::llm::chat_gpt::count_tokens;
use promptpunch::llm::chat_gpt::role_from_wire;
use promptpunch::llm::chat_gpt::role_to_wire;
use promptpunch::llm::chat_gpt::select_reply;
use promptpunch::llm::chat_gpt::strip_placeholders;
use promptpunch::llm::chat_gpt::try_count_prompt_tokens;
use promptpunch::llm::chat_gpt::try_count_tokens;
use promptpunch::llm::chat_gpt::MAX_TOKENIZED_CHARS;
use promptpunch::llm::chat_gpt::ChatGptMessage;
use promptpunch::llm::chat_gpt::ChatGptModel;
use promptpunch::llm::add_tokens;
use promptpunch::llm::complete_chat;
use promptpunch::llm::count_generated_tokens;
use promptpunch::llm::ChatSession;
use promptpunch::llm::CompletionError;
use promptpunch::llm::LlmProvider;
use promptpunch::llm::ProviderError;
use promptpunch::llm::Turn;
use promptpunch::message;
use promptpunch::prompt::read_markdown_prompt;
use promptpunch::Prompt;
use promptpunch::PromptBuilder;
use promptpunch::PromptMessage;
use promptpunch::PromptMessageRequest;
use promptpunch::Role;
use promptpunch::Temperature;

fn say(role: Role, content: &str) -> PromptMessage {
    PromptMessage { role, content: content.to_string() }
}

fn prompt_of(messages: Vec<PromptMessageRequest>) -> Prompt {
    PromptBuilder::default().messages(messages).build().unwrap()
}

struct Stub {
    reply: &'static str,
    calls: Cell<usize>,
    seen: RefCell<Vec<Vec<PromptMessage>>>,
    temperatures: RefCell<Vec<u32>>,
}

impl Stub {
    fn new(reply: &'static str) -> Stub {
        Stub { reply, calls: Cell::new(0), seen: RefCell::new(vec![]), temperatures: RefCell::new(vec![]) }
    }
}

impl LlmProvider for Stub {
    fn next_message(&self, history: &Vec<PromptMessage>, temperature: Temperature) -> Result<PromptMessage, String> {
        self.calls.set(self.calls.get() + 1);
        self.seen.borrow_mut().push(history.clone());
        self.temperatures.borrow_mut().push(temperature.to_bits());
        Ok(say(Role::Assistant, self.reply))
    }
}

struct Failing {
    after: usize,
    calls: Cell<usize>,
}

impl LlmProvider for Failing {
    fn next_message(&self, _history: &Vec<PromptMessage>, _temperature: Temperature) -> Result<PromptMessage, String> {
        self.calls.set(self.calls.get() + 1);
        if self.calls.get() > self.after {
            Err("boom".to_string())
        } else {
            Ok(say(Role::Assistant, "fine"))
        }
    }
}

struct WrongRole;

impl LlmProvider for WrongRole {
    fn next_message(&self, _history: &Vec<PromptMessage>, _temperature: Temperature) -> Result<PromptMessage, String> {
        Ok(say(Role::User, "not mine"))
    }
}

#[test]
fn token_counts_are_those_of_p50k_base() {
    assert_eq!(count_tokens(""), 0);
    assert_eq!(count_tokens("ok"), 1);
    assert_eq!(count_tokens("hello world"), 2);
    assert_eq!(count_tokens("<|endoftext|>"), 1);
    let tokenizer = tiktoken_rs::p50k_base().unwrap();
    for text in ["Act as a helper", "Hi", "How r you?", "naïve café", "  spaced   out  ", "line\nbreak"] {
        assert_eq!(count_tokens(text), tokenizer.encode_with_special_tokens(text).len());
    }
    assert!(count_tokens("a considerably longer sentence than the one before") > 3);
}

#[test]
fn placeholders_are_stripped_before_counting() {
    assert_eq!(strip_placeholders("Tell {name} about {topic}{name}", &["{name}", "{topic}"]), "Tell  about ");
    assert_eq!(strip_placeholders("abc", &[]), "abc");
    assert_eq!(strip_placeholders("a{x}b", &["{", "{x}"]), "ax}b");
    assert_eq!(count_prompt_tokens("hello{x} world", &["{x}"]), count_tokens("hello world"));
    assert_eq!(count_prompt_tokens("hello{x} world", &["{x}"]), 2);
    assert_ne!(count_prompt_tokens("hello{x} world", &[]), 2);
}

#[test]
fn models_have_names_and_windows() {
    assert_eq!(ChatGptModel::default(), ChatGptModel::Latest4o);
    assert_eq!(ChatGptModel::Mini4o.to_string(), "gpt-4o-mini");
    assert_eq!(ChatGptModel::Latest4o.to_string(), "chatgpt-4o-latest");
    assert_eq!(ChatGptModel::O1Preview.to_string(), "o1-preview");
    assert_eq!(ChatGptModel::O1Mini.to_string(), "o1-mini");
    assert_eq!(ChatGptModel::Turbo4.to_string(), "gpt-4-turbo");
    assert_eq!(ChatGptModel::Just4.to_string(), "gpt-4");
    assert_eq!(ChatGptModel::Turbo35.to_string(), "gpt-3.5-turbo");
    assert_eq!(ChatGptModel::O1Preview.context_window(), 128_000);
    assert_eq!(ChatGptModel::O1Mini.context_window(), 128_000);
    assert_eq!(ChatGptModel::Latest4o.context_window(), 128_000);
    assert_eq!(ChatGptModel::Mini4o.context_window(), 128_000);
    assert_eq!(ChatGptModel::Turbo4.context_window(), 128_000);
    assert_eq!(ChatGptModel::Just4.context_window(), 8_192);
    assert_eq!(ChatGptModel::Turbo35.context_window(), 16_385);
}

#[test]
fn roles_round_trip_over_the_wire() {
    for role in [Role::System, Role::User, Role::Assistant] {
        assert_eq!(role_from_wire(role_to_wire(role)), Some(role));
    }
    assert_eq!(role_to_wire(Role::System), "system");
    assert_eq!(role_to_wire(Role::User), "user");
    assert_eq!(role_to_wire(Role::Assistant), "assistant");
    assert_eq!(role_from_wire("Assistant"), None);
    assert_eq!(role_from_wire("tool"), None);
    assert_eq!(role_from_wire(""), None);
}

#[test]
fn wire_messages_convert_both_ways() {
    let wire = ChatGptMessage::from_prompt_message(say(Role::User, "hello"));
    assert_eq!(wire, ChatGptMessage { role: "user".to_string(), content: "hello".to_string() });
    assert_eq!(wire.into_prompt_message(), Ok(say(Role::User, "hello")));
    let odd = ChatGptMessage { role: "narrator".to_string(), content: "x".to_string() };
    assert_eq!(odd.into_prompt_message(), Err(ProviderError::UnknownRole { role: "narrator".to_string() }));
}

#[test]
fn the_first_choice_is_the_reply() {
    let choices = vec![
        ChatGptMessage { role: "assistant".to_string(), content: "first".to_string() },
        ChatGptMessage { role: "assistant".to_string(), content: "second".to_string() },
    ];
    assert_eq!(select_reply(choices), Ok(say(Role::Assistant, "first")));
    assert_eq!(select_reply(vec![]), Err(ProviderError::NoReply));
    let unknown = vec![ChatGptMessage { role: "robot".to_string(), content: "x".to_string() }];
    assert_eq!(select_reply(unknown), Err(ProviderError::UnknownRole { role: "robot".to_string() }));
    let user = vec![ChatGptMessage { role: "user".to_string(), content: "x".to_string() }];
    assert_eq!(select_reply(user), Ok(say(Role::User, "x")));
}

#[test]
fn only_status_200_is_accepted() {
    assert!(accepts_status(200));
    assert!(!accepts_status(201));
    assert!(!accepts_status(404));
    assert!(!accepts_status(500));
}

#[test]
fn token_sums_are_checked() {
    assert_eq!(add_tokens(2, 3), Some(5));
    assert_eq!(add_tokens(usize::MAX, 0), Some(usize::MAX));
    assert_eq!(add_tokens(usize::MAX, 1), None);
    assert_eq!(add_tokens(usize::MAX - 4, 5), None);
    let messages = vec![say(Role::User, "hello world"), say(Role::Assistant, "hello world"), say(Role::Assistant, "ok")];
    assert_eq!(count_generated_tokens(&messages), Some(3));
    assert_eq!(count_generated_tokens(&vec![]), Some(0));
}

#[test]
fn scenario_with_a_stub_that_says_ok() {
    let lines = ["# System", "Act as a helper", "# User", "Hi", "# Assistant"];
    let requests = read_markdown_prompt(&lines, &[]).unwrap();
    let stub = Stub::new("ok");
    let completion = complete_chat(&stub, prompt_of(requests)).unwrap();
    assert_eq!(
        completion.messages,
        vec![
            say(Role::System, "Act as a helper"),
            say(Role::User, "Hi"),
            say(Role::Assistant, "ok"),
            say(Role::Assistant, "ok"),
        ]
    );
    assert_eq!(completion.assistant_tokens, count_tokens("ok") * 2);
    assert_eq!(completion.assistant_tokens, 2);
    assert_eq!(completion.user_tokens, count_tokens("Act as a helper") + count_tokens("Hi"));
    assert_eq!(stub.calls.get(), 2);
    assert_eq!(completion.last_assistant_response(), Ok("ok".to_string()));
}

#[test]
fn provider_is_called_once_more_than_requested() {
    for requests in 0..4usize {
        let mut script = vec![message::system("s")];
        for _ in 0..requests {
            script.push(message::user("u"));
            script.push(message::complete());
        }
        script.push(message::user("last"));
        let stub = Stub::new("ok");
        let completion = complete_chat(&stub, prompt_of(script)).unwrap();
        assert_eq!(stub.calls.get(), requests + 1);
        assert_eq!(completion.messages.len(), 2 + 2 * requests + 1);
    }
    let stub = Stub::new("ok");
    let completion = complete_chat(&stub, prompt_of(vec![])).unwrap();
    assert_eq!(stub.calls.get(), 1);
    assert_eq!(completion.messages, vec![say(Role::Assistant, "ok")]);
    assert_eq!(completion.user_tokens, 0);
}

#[test]
fn provider_sees_the_conversation_so_far_and_the_temperature() {
    let script = vec![message::system("s"), message::complete(), message::user("u")];
    let prompt = PromptBuilder::default().messages(script).temperature(Temperature::from_bits(7)).build().unwrap();
    let stub = Stub::new("ok");
    complete_chat(&stub, prompt).unwrap();
    let seen = stub.seen.borrow();
    assert_eq!(seen.len(), 2);
    assert_eq!(seen[0], vec![say(Role::System, "s")]);
    assert_eq!(seen[1], vec![say(Role::System, "s"), say(Role::Assistant, "ok"), say(Role::User, "u")]);
    assert_eq!(*stub.temperatures.borrow(), vec![7, 7]);
}

#[test]
fn token_accounting_leaves_scripted_assistant_messages_to_the_assistant() {
    let scripted = PromptMessageRequest::Message { body: say(Role::Assistant, "hello world") };
    let script = vec![message::user("hello world"), scripted, message::system("ok")];
    let completion = complete_chat(&Stub::new("ok"), prompt_of(script)).unwrap();
    assert_eq!(completion.user_tokens, 3);
    assert_eq!(completion.assistant_tokens, 3);
}

#[test]
fn a_failing_provider_ends_the_run() {
    let script = vec![message::user("a"), message::complete(), message::user("b")];
    let first = Failing { after: 0, calls: Cell::new(0) };
    assert_eq!(
        complete_chat(&first, prompt_of(script.clone())).err(),
        Some(CompletionError::Provider(ProviderError::Failed { message: "boom".to_string() }))
    );
    assert_eq!(first.calls.get(), 1);
    let second = Failing { after: 1, calls: Cell::new(0) };
    assert_eq!(
        complete_chat(&second, prompt_of(script)).err(),
        Some(CompletionError::Provider(ProviderError::Failed { message: "boom".to_string() }))
    );
    assert_eq!(second.calls.get(), 2);
}

#[test]
fn a_reply_of_another_role_is_refused() {
    let outcome = complete_chat(&WrongRole, prompt_of(vec![message::user("a")]));
    assert_eq!(outcome.err(), Some(CompletionError::Provider(ProviderError::UnexpectedRole { role: Role::User })));
}

#[test]
fn a_session_is_driven_one_reply_at_a_time() {
    let script = vec![message::system("s"), message::user("u"), message::complete(), message::user("v")];
    let session = ChatSession::start(prompt_of(script)).unwrap();
    session.check();
    assert_eq!(session.provider_calls(), 0);
    assert_eq!(session.history(), &vec![say(Role::System, "s"), say(Role::User, "u")]);
    let session = match session.accept_reply(say(Role::Assistant, "one")).unwrap() {
        Turn::AskProvider(next) => next,
        Turn::Finished(_) => panic!("the script has a message left"),
    };
    assert_eq!(session.provider_calls(), 1);
    assert_eq!(
        session.history(),
        &vec![say(Role::System, "s"), say(Role::User, "u"), say(Role::Assistant, "one"), say(Role::User, "v")]
    );
    let completion = match session.accept_reply(say(Role::Assistant, "two")).unwrap() {
        Turn::Finished(completion) => completion,
        Turn::AskProvider(_) => panic!("the script is at its end"),
    };
    assert_eq!(completion.messages.len(), 5);
    assert_eq!(completion.messages[4], say(Role::Assistant, "two"));
    assert_eq!(completion.user_tokens, 3 * count_tokens("s"));
    assert_eq!(completion.assistant_tokens, count_tokens("one") + count_tokens("two"));
}

#[test]
fn a_session_refuses_a_reply_that_is_not_the_assistants() {
    let session = ChatSession::start(prompt_of(vec![message::user("u")])).unwrap();
    let refused = session.accept_reply(say(Role::System, "x"));
    assert!(matches!(
        refused,
        Err(CompletionError::Provider(ProviderError::UnexpectedRole { role: Role::System }))
    ));
}

#[test]
fn texts_beyond_the_limit_are_not_counted() {
    assert_eq!(MAX_TOKENIZED_CHARS, 500_000);
    assert_eq!(try_count_tokens("hello world"), Some(2));
    assert_eq!(try_count_tokens(""), Some(0));
    let long = "a".repeat(MAX_TOKENIZED_CHARS + 1);
    assert_eq!(try_count_tokens(&long), None);
    let wide = "éé ".repeat(160_000);
    assert!(wide.len() > MAX_TOKENIZED_CHARS);
    assert!(wide.chars().count() <= MAX_TOKENIZED_CHARS);
    assert!(try_count_tokens(&wide).is_some());
    assert_eq!(try_count_prompt_tokens("hello{x} world", &["{x}"]), Some(2));
    let padded = "{x}".repeat(MAX_TOKENIZED_CHARS) + "ok";
    assert_eq!(try_count_prompt_tokens(&padded, &["{x}"]), Some(1));
    assert_eq!(try_count_prompt_tokens(&long, &["b"]), None);
}

#[test]
fn a_text_at_the_limit_is_counted() {
    let text = "ab 12 !? \n".repeat(MAX_TOKENIZED_CHARS / 10);
    assert_eq!(text.chars().count(), MAX_TOKENIZED_CHARS);
    let tokenizer = tiktoken_rs::p50k_base().unwrap();
    assert_eq!(try_count_tokens(&text), Some(tokenizer.encode_with_special_tokens(&text).len()));
}

#[test]
fn a_message_too_long_to_count_ends_the_run() {
    let long = "a".repeat(MAX_TOKENIZED_CHARS + 1);
    let script = vec![message::user(&long)];
    assert!(matches!(ChatSession::start(prompt_of(script)), Err(CompletionError::Uncountable { after: 0 })));
    let later = vec![message::complete(), message::user(&long)];
    let session = ChatSession::start(prompt_of(later)).unwrap();
    assert!(matches!(session.accept_reply(say(Role::Assistant, "x")), Err(CompletionError::Uncountable { after: 1 })));
    let session = ChatSession::start(prompt_of(vec![])).unwrap();
    assert!(matches!(session.accept_reply(say(Role::Assistant, &long)), Err(CompletionError::Uncountable { .. })));
    let scripted = PromptMessageRequest::Message { body: say(Role::Assistant, &long) };
    let session = ChatSession::start(prompt_of(vec![scripted])).unwrap();
    assert!(matches!(session.accept_reply(say(Role::Assistant, "x")), Err(CompletionError::Uncountable { .. })));
    assert_eq!(count_generated_tokens(&vec![say(Role::Assistant, &long)]), None);
    assert_eq!(count_generated_tokens(&vec![say(Role::User, &long)]), Some(0));
}

#[test]
fn a_run_that_cannot_be_counted_from_the_start_asks_nobody() {
    let long = "a".repeat(MAX_TOKENIZED_CHARS + 1);
    let stub = Stub::new("ok");
    let outcome = complete_chat(&stub, prompt_of(vec![message::user(&long), message::complete()]));
    assert_eq!(outcome.err(), Some(CompletionError::Uncountable { after: 0 }));
    assert_eq!(stub.calls.get(), 0);
    let stub = Stub::new("ok");
    let outcome = complete_chat(&stub, prompt_of(vec![message::complete(), message::user(&long)]));
    assert_eq!(outcome.err(), Some(CompletionError::Uncountable { after: 1 }));
    assert_eq!(stub.calls.get(), 1);
}

#[test]
fn a_session_keeps_the_prompts_temperature() {
    let script = vec![message::user("u"), message::complete(), message::user("v")];
    let prompt = PromptBuilder::default().messages(script).temperature(Temperature::from_bits(42)).build().unwrap();
    let session = ChatSession::start(prompt).unwrap();
    assert_eq!(session.temperature(), Temperature::from_bits(42));
    let session = match session.accept_reply(say(Role::Assistant, "a")).unwrap() {
        Turn::AskProvider(next) => next,
        Turn::Finished(_) => panic!("the script has a message left"),
    };
    assert_eq!(session.temperature(), Temperature::from_bits(42));
    let unset = ChatSession::start(prompt_of(vec![])).unwrap();
    assert_eq!(f32::from_bits(unset.temperature().to_bits()), 0.3f32);
}

#[test]
fn an_empty_prompt_is_one_call_at_the_default_temperature() {
    let stub = Stub::new("ok");
    let completion = complete_chat(&stub, prompt_of(vec![])).unwrap();
    assert_eq!(completion.messages, vec![say(Role::Assistant, "ok")]);
    assert_eq!(completion.user_tokens, 0);
    assert_eq!(completion.assistant_tokens, count_tokens("ok"));
    assert_eq!(stub.calls.get(), 1);
    assert_eq!(*stub.seen.borrow(), vec![Vec::<PromptMessage>::new()]);
    assert_eq!(*stub.temperatures.borrow(), vec![0.3f32.to_bits()]);
}

#[test]
fn a_reported_failure_is_handed_on_unchanged() {
    let session = ChatSession::start(prompt_of(vec![message::user("u")])).unwrap();
    let failed = session.accept_outcome(Err("connection reset".to_string()));
    assert!(matches!(
        failed,
        Err(CompletionError::Provider(ProviderError::Failed { ref message })) if message == "connection reset"
    ));
    let session = ChatSession::start(prompt_of(vec![message::user("u")])).unwrap();
    let done = session.accept_outcome(Ok(say(Role::Assistant, "fine")));
    match done {
        Ok(Turn::Finished(completion)) => {
            assert_eq!(completion.messages, vec![say(Role::User, "u"), say(Role::Assistant, "fine")]);
        }
        _ => panic!("the script is at its end"),
    }
    let session = ChatSession::start(prompt_of(vec![])).unwrap();
    assert!(matches!(
        session.accept_outcome(Ok(say(Role::User, "x"))),
        Err(CompletionError::Provider(ProviderError::UnexpectedRole { role: Role::User }))
    ));
}
