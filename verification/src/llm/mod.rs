//! Driving a scripted conversation: what is sent to the model, and when.
//!
//! The steps of a prompt are taken from first to last. A message is appended
//! to the conversation as it is. A request to let the model answer sends the
//! conversation so far to the model and appends what it answers. After the last
//! step the model is asked once more, whatever the last step was, so that every
//! conversation ends with an answer.
//!
//! A [`ChatSession`] holds a conversation that waits for an answer. It never
//! contacts the model itself: the caller sends [`ChatSession::history`] to the
//! model and hands the answer to [`ChatSession::accept_reply`], which says
//! whether another answer is needed. [`complete_chat`] does this in a loop for
//! a model that can be asked by a plain call.
use vstd::prelude::*;

use crate::count_generate_now;
use crate::is_assistant;
use crate::llm::chat_gpt::countable;
use crate::llm::chat_gpt::try_count_tokens;
use crate::llm::chat_gpt::token_count;
use crate::Completion;
use crate::Directive;
use crate::MessageView;
use crate::Prompt;
use crate::PromptMessage;
use crate::PromptMessageRequest;
use crate::Role;
use crate::Temperature;

pub mod chat_gpt;

verus! {

/// Why the model gave no usable answer.
#[derive(Debug, Clone, PartialEq, Eq)]
pub enum ProviderError {
    /// The provider reported a failure of its own.
    Failed { message: String },
    /// The provider answered without a message.
    NoReply,
    /// The provider answered with a message whose role is not known.
    UnknownRole { role: String },
    /// The provider answered with a message that is not the assistant's.
    UnexpectedRole { role: Role },
}

/// Why a conversation could not be completed.
#[derive(Debug, Clone, PartialEq, Eq)]
pub enum CompletionError {
    /// The model gave no usable answer.
    Provider(ProviderError),
    /// The tokens cannot be counted: a message is too long for the tokenizer,
    /// or a count does not fit the machine's word. `after` is the number of
    /// answers that the model had given when this was found: zero where the
    /// script cannot be counted up to its first request.
    Uncountable { after: usize },
}

/// Whether `message` is what `directive` puts into a conversation: the
/// directive's own message, or any message of the assistant's where the
/// directive lets the model answer.
pub open spec fn answers(directive: Directive, message: MessageView) -> bool {
    match directive {
        Directive::Emit { body } => message == body,
        Directive::GenerateNow => message.role == Role::Assistant,
    }
}

/// Whether `transcript` holds one message for each of `script`, in order, each
/// of them what its directive puts there.
pub open spec fn follows_script(script: Seq<Directive>, transcript: Seq<MessageView>) -> bool {
    &&& transcript.len() == script.len()
    &&& forall|i: int| 0 <= i < script.len() ==> answers(script[i], #[trigger] transcript[i])
}

/// Whether `transcript` is a complete run of `script`: one message for each
/// directive, and one more answer of the model's at the end.
pub open spec fn is_run_transcript(script: Seq<Directive>, transcript: Seq<MessageView>) -> bool {
    &&& transcript.len() == script.len() + 1
    &&& follows_script(script, transcript.drop_last())
    &&& transcript.last().role == Role::Assistant
}

/// The tokens of the messages that `script` holds for a role other than the
/// assistant.
pub open spec fn scripted_tokens(script: Seq<Directive>) -> nat
    decreases script.len(),
{
    if script.len() == 0 {
        0
    } else {
        scripted_tokens(script.drop_last()) + match script.last() {
            Directive::Emit { body } => if body.role != Role::Assistant {
                token_count(body.content)
            } else {
                0nat
            },
            Directive::GenerateNow => 0nat,
        }
    }
}

/// The tokens of the assistant's messages in `messages`.
pub open spec fn generated_tokens(messages: Seq<MessageView>) -> nat
    decreases messages.len(),
{
    if messages.len() == 0 {
        0
    } else {
        generated_tokens(messages.drop_last()) + if messages.last().role == Role::Assistant {
            token_count(messages.last().content)
        } else {
            0nat
        }
    }
}

/// Whether what `directive` adds to the tokens of a script can be counted: a
/// message for a role other than the assistant must be short enough for the
/// tokenizer.
pub open spec fn directive_countable(directive: Directive) -> bool {
    match directive {
        Directive::Emit { body } => body.role != Role::Assistant ==> countable(body.content),
        Directive::GenerateNow => true,
    }
}

/// Whether what `message` adds to the tokens of the assistant can be counted:
/// a message of the assistant's must be short enough for the tokenizer.
pub open spec fn message_countable(message: MessageView) -> bool {
    message.role == Role::Assistant ==> countable(message.content)
}

/// Whether the tokens of `script` can be counted: each directive's share can,
/// and the sum fits the machine's word.
pub open spec fn scripted_fits(script: Seq<Directive>) -> bool {
    &&& forall|i: int| 0 <= i < script.len() ==> directive_countable(#[trigger] script[i])
    &&& scripted_tokens(script) <= usize::MAX
}

/// Whether the tokens of the assistant's messages in `messages` can be
/// counted: each message's share can, and the sum fits the machine's word.
pub open spec fn generated_fits(messages: Seq<MessageView>) -> bool {
    &&& forall|i: int| 0 <= i < messages.len() ==> message_countable(#[trigger] messages[i])
    &&& generated_tokens(messages) <= usize::MAX
}

/// The first position at or after `from` where `script` lets the model
/// answer, or the length of `script` where there is none.
pub open spec fn next_stop(script: Seq<Directive>, from: int) -> int
    decreases script.len() - from,
{
    if from < 0 || from >= script.len() {
        script.len() as int
    } else if script[from] is GenerateNow {
        from
    } else {
        next_stop(script, from + 1)
    }
}

/// Whether `completion` is the outcome of running `script`: its messages are a
/// complete run, and its counts are the tokens of the script's own messages
/// and of the assistant's messages.
pub open spec fn is_completion_of(script: Seq<Directive>, completion: Completion) -> bool {
    &&& is_run_transcript(script, completion.messages.deep_view())
    &&& completion.user_tokens == scripted_tokens(script)
    &&& completion.assistant_tokens == generated_tokens(completion.messages.deep_view())
}

/// The tokens of a script grow with the script.
pub proof fn lemma_scripted_tokens_grow(script: Seq<Directive>, shorter: int, longer: int)
    requires
        0 <= shorter <= longer <= script.len(),
    ensures
        scripted_tokens(script.take(shorter)) <= scripted_tokens(script.take(longer)),
    decreases longer - shorter,
{
    if shorter < longer {
        lemma_scripted_tokens_grow(script, shorter, longer - 1);
        assert(script.take(longer).drop_last() == script.take(longer - 1));
    }
}

/// The tokens of the assistant's messages grow with the conversation.
pub proof fn lemma_generated_tokens_grow(messages: Seq<MessageView>, shorter: int, longer: int)
    requires
        0 <= shorter <= longer <= messages.len(),
    ensures
        generated_tokens(messages.take(shorter)) <= generated_tokens(messages.take(longer)),
    decreases longer - shorter,
{
    if shorter < longer {
        lemma_generated_tokens_grow(messages, shorter, longer - 1);
        assert(messages.take(longer).drop_last() == messages.take(longer - 1));
    }
}

/// Whether `request` lets the model answer.
pub fn is_wait(request: &PromptMessageRequest) -> (answer: bool)
    ensures
        answer == (request@ is GenerateNow),
{
    match request {
        PromptMessageRequest::WaitCompletion => true,
        PromptMessageRequest::Message { .. } => false,
    }
}

/// A script has no more requests to let the model answer than it has steps.
pub proof fn lemma_count_generate_now_bound(script: Seq<Directive>)
    ensures
        count_generate_now(script) <= script.len(),
    decreases script.len(),
{
    if script.len() > 0 {
        lemma_count_generate_now_bound(script.drop_last());
    }
}

/// The sum of two counts, where it fits.
pub fn add_tokens(total: usize, count: usize) -> (sum: Option<usize>)
    ensures
        match sum {
            Some(sum) => sum == total + count,
            None => total + count > usize::MAX,
        },
{
    if count > usize::MAX - total {
        None
    } else {
        Some(total + count)
    }
}

/// The tokens of the assistant's messages in `messages`, where they can be
/// counted.
pub fn count_generated_tokens(messages: &Vec<PromptMessage>) -> (total: Option<usize>)
    ensures
        match total {
            Some(total) => generated_fits(messages.deep_view()) && total == generated_tokens(
                messages.deep_view(),
            ),
            None => !generated_fits(messages.deep_view()),
        },
{
    let ghost all = messages.deep_view();
    let mut total: usize = 0;
    let mut i: usize = 0;
    while i < messages.len()
        invariant
            i <= messages.len(),
            all == messages.deep_view(),
            generated_fits(all.take(i as int)),
            total == generated_tokens(all.take(i as int)),
        decreases messages.len() - i,
    {
        let message = &messages[i];
        proof {
            assert(all.take(i + 1).drop_last() == all.take(i as int));
            assert(all.take(i + 1).last() == message@);
            assert(all[i as int] == message@);
        }
        if is_assistant(message.role) {
            let counted = match try_count_tokens(message.content.as_str()) {
                Some(count) => add_tokens(total, count),
                None => None,
            };
            match counted {
                Some(sum) => {
                    total = sum;
                },
                None => {
                    proof {
                        lemma_generated_tokens_grow(all, i + 1, all.len() as int);
                        assert(all.take(all.len() as int) == all);
                    }
                    return None;
                },
            }
        }
        proof {
            let next = all.take(i + 1);
            assert forall|k: int| 0 <= k < next.len() implies message_countable(
                #[trigger] next[k],
            ) by {
                if k < i {
                    assert(all.take(i as int)[k] == next[k]);
                }
            }
        }
        i += 1;
    }
    assert(all.take(i as int) == all);
    Some(total)
}

/// A conversation that waits for the model's next answer.
pub struct ChatSession {
    directives: Vec<PromptMessageRequest>,
    cursor: usize,
    messages: Vec<PromptMessage>,
    user_tokens: usize,
    provider_calls: usize,
    temperature: Temperature,
}

/// What a conversation needs after an answer.
pub enum Turn {
    /// The conversation waits for another answer.
    AskProvider(ChatSession),
    /// The conversation is complete.
    Finished(Completion),
}

impl ChatSession {
    /// The steps of the conversation.
    pub closed spec fn script(&self) -> Seq<Directive> {
        self.directives.deep_view()
    }

    /// How many steps have been taken. The step at this position, if there is
    /// one, is the request that the session waits at.
    pub closed spec fn position(&self) -> int {
        self.cursor as int
    }

    /// The conversation so far.
    pub closed spec fn transcript(&self) -> Seq<MessageView> {
        self.messages.deep_view()
    }

    /// The tokens counted so far for the script's own messages.
    pub closed spec fn counted_tokens(&self) -> int {
        self.user_tokens as int
    }

    /// How many answers of the model's the conversation holds.
    pub closed spec fn calls(&self) -> int {
        self.provider_calls as int
    }

    /// The temperature at which the model is asked for each of its answers.
    pub closed spec fn asked_at(&self) -> Temperature {
        self.temperature
    }

    /// What holds of every session: it stands at a request to let the model
    /// answer or at the end of its script; the conversation holds one message
    /// for each step taken; and the tokens and the answers counted are those
    /// of the steps taken, whose tokens can be counted.
    pub open spec fn well_formed(&self) -> bool {
        &&& 0 <= self.position() <= self.script().len()
        &&& self.position() == next_stop(self.script(), self.position())
        &&& follows_script(self.script().take(self.position()), self.transcript())
        &&& scripted_fits(self.script().take(self.position()))
        &&& self.counted_tokens() == scripted_tokens(self.script().take(self.position()))
        &&& self.calls() == count_generate_now(self.script().take(self.position()))
    }

    #[verifier::type_invariant]
    closed spec fn inv(&self) -> bool {
        self.well_formed()
    }

    /// Every session is well formed.
    pub fn check(&self)
        ensures
            self.well_formed(),
    {
        proof {
            use_type_invariant(self);
        }
    }

    /// The messages to send to the model for its next answer.
    pub fn history(&self) -> (history: &Vec<PromptMessage>)
        ensures
            history.deep_view() == self.transcript(),
    {
        &self.messages
    }

    /// The temperature to ask the model at for its next answer.
    pub fn temperature(&self) -> (temperature: Temperature)
        ensures
            temperature == self.asked_at(),
    {
        self.temperature
    }

    /// How many answers the model has given so far.
    pub fn provider_calls(&self) -> (calls: usize)
        ensures
            calls == self.calls(),
    {
        self.provider_calls
    }

    /// Takes the steps from `cursor` on up to the next request to let the
    /// model answer, appending their messages and counting their tokens.
    fn advance(
        directives: Vec<PromptMessageRequest>,
        cursor: usize,
        messages: Vec<PromptMessage>,
        user_tokens: usize,
        provider_calls: usize,
        temperature: Temperature,
    ) -> (session: Result<ChatSession, CompletionError>)
        requires
            cursor <= directives.len(),
            follows_script(directives.deep_view().take(cursor as int), messages.deep_view()),
            scripted_fits(directives.deep_view().take(cursor as int)),
            user_tokens == scripted_tokens(directives.deep_view().take(cursor as int)),
            provider_calls == count_generate_now(directives.deep_view().take(cursor as int)),
        ensures
            match session {
                Ok(next) => {
                    &&& next.well_formed()
                    &&& next.script() == directives.deep_view()
                    &&& next.position() == next_stop(directives.deep_view(), cursor as int)
                    &&& next.transcript().take(cursor as int) == messages.deep_view()
                    &&& next.calls() == provider_calls
                    &&& next.asked_at() == temperature
                },
                Err(CompletionError::Uncountable { after }) => {
                    &&& after == provider_calls
                    &&& !scripted_fits(
                        directives.deep_view().take(
                            next_stop(directives.deep_view(), cursor as int),
                        ),
                    )
                },
                Err(_) => false,
            },
    {
        let ghost script = directives.deep_view();
        let ghost before = messages.deep_view();
        let mut messages = messages;
        let mut user_tokens = user_tokens;
        let mut at: usize = cursor;
        assert(messages.deep_view().take(cursor as int) == before);
        while at < directives.len() && !is_wait(&directives[at])
            invariant
                cursor <= at <= directives.len(),
                script == directives.deep_view(),
                follows_script(script.take(at as int), messages.deep_view()),
                messages.deep_view().take(cursor as int) == before,
                scripted_fits(script.take(at as int)),
                user_tokens == scripted_tokens(script.take(at as int)),
                provider_calls == count_generate_now(script.take(at as int)),
                next_stop(script, cursor as int) == next_stop(script, at as int),
            decreases directives.len() - at,
        {
            let ghost so_far = messages.deep_view();
            proof {
                assert(script.take(at + 1).drop_last() == script.take(at as int));
                assert(script.take(at + 1).last() == directives[at as int]@);
                assert(script[at as int] == directives[at as int]@);
            }
            match &directives[at] {
                PromptMessageRequest::WaitCompletion => {},
                PromptMessageRequest::Message { body } => {
                    if !is_assistant(body.role) {
                        let counted = match try_count_tokens(body.content.as_str()) {
                            Some(count) => add_tokens(user_tokens, count),
                            None => None,
                        };
                        match counted {
                            Some(sum) => {
                                user_tokens = sum;
                            },
                            None => {
                                proof {
                                    let stop = next_stop(script, at as int);
                                    lemma_next_stop_bounds(script, at + 1);
                                    lemma_scripted_tokens_grow(script, at + 1, stop);
                                    assert(script.take(stop)[at as int] == script[at as int]);
                                }
                                return Err(CompletionError::Uncountable { after: provider_calls });
                            },
                        }
                    }
                    proof {
                        let next = script.take(at + 1);
                        assert forall|k: int| 0 <= k < next.len() implies directive_countable(
                            #[trigger] next[k],
                        ) by {
                            if k < at {
                                assert(script.take(at as int)[k] == next[k]);
                            }
                        }
                    }
                    messages.push(body.clone());
                    proof {
                        let now = messages.deep_view();
                        assert(now == so_far.push(body@));
                        assert(now.take(cursor as int) == so_far.take(cursor as int));
                        assert forall|i: int| 0 <= i < at + 1 implies answers(
                            script.take(at + 1)[i],
                            #[trigger] now[i],
                        ) by {
                            if i < at {
                                assert(answers(script.take(at as int)[i], so_far[i]));
                            }
                        }
                    }
                },
            }
            at += 1;
        }
        proof {
            lemma_next_stop_bounds(script, at as int);
        }
        Ok(ChatSession { directives, cursor: at, messages, user_tokens, provider_calls, temperature })
    }

    /// Begins the conversation of `prompt`: its messages up to the first
    /// request to let the model answer are taken, and the session waits for
    /// the first answer, to be asked for at the prompt's temperature. It fails
    /// only where the tokens of those messages cannot be counted.
    pub fn start(prompt: Prompt) -> (session: Result<ChatSession, CompletionError>)
        ensures
            match session {
                Ok(begun) => {
                    &&& begun.well_formed()
                    &&& begun.script() == prompt.messages.deep_view()
                    &&& begun.position() == next_stop(prompt.messages.deep_view(), 0)
                    &&& begun.transcript().len() == begun.position()
                    &&& begun.calls() == 0
                    &&& begun.asked_at() == prompt.temperature
                },
                Err(CompletionError::Uncountable { after }) => {
                    &&& after == 0
                    &&& !scripted_fits(
                        prompt.messages.deep_view().take(
                            next_stop(prompt.messages.deep_view(), 0),
                        ),
                    )
                },
                Err(_) => false,
            },
    {
        let messages: Vec<PromptMessage> = Vec::new();
        assert(prompt.messages.deep_view().take(0).len() == 0);
        ChatSession::advance(prompt.messages, 0, messages, 0, 0, prompt.temperature)
    }

    /// Takes the model's answer. An answer that is not the assistant's is
    /// refused. Otherwise it is appended; where the session stood at a request
    /// in its script, the following messages are taken and the session waits
    /// for the next answer; where it stood at the end of its script, the
    /// conversation is complete. The answer that completes a conversation is
    /// one more than its script has requests.
    pub fn accept_reply(self, reply: PromptMessage) -> (turn: Result<Turn, CompletionError>)
        ensures
            match turn {
                Ok(Turn::AskProvider(next)) => {
                    &&& reply.role == Role::Assistant
                    &&& self.position() < self.script().len()
                    &&& next.well_formed()
                    &&& next.script() == self.script()
                    &&& next.position() == next_stop(self.script(), self.position() + 1)
                    &&& next.transcript().take(self.position() + 1) == self.transcript().push(
                        reply@,
                    )
                    &&& next.calls() == self.calls() + 1
                    &&& next.asked_at() == self.asked_at()
                },
                Ok(Turn::Finished(completion)) => {
                    &&& reply.role == Role::Assistant
                    &&& self.position() == self.script().len()
                    &&& completion.messages.deep_view() == self.transcript().push(reply@)
                    &&& is_completion_of(self.script(), completion)
                    &&& self.calls() + 1 == count_generate_now(self.script()) + 1
                },
                Err(CompletionError::Provider(ProviderError::UnexpectedRole { role })) => {
                    &&& reply.role != Role::Assistant
                    &&& role == reply.role
                },
                Err(CompletionError::Uncountable { after }) => {
                    &&& reply.role == Role::Assistant
                    &&& after == self.calls() + 1
                    &&& if self.position() < self.script().len() {
                        !scripted_fits(
                            self.script().take(next_stop(self.script(), self.position() + 1)),
                        )
                    } else {
                        !generated_fits(self.transcript().push(reply@))
                    }
                },
                Err(_) => false,
            },
    {
        proof {
            use_type_invariant(&self);
        }
        if !is_assistant(reply.role) {
            return Err(
                CompletionError::Provider(ProviderError::UnexpectedRole { role: reply.role }),
            );
        }
        let ghost script = self.script();
        let ghost so_far = self.transcript();
        let ghost reply_view = reply@;
        let ChatSession { directives, cursor, messages, user_tokens, provider_calls, temperature } =
            self;
        let mut messages = messages;
        messages.push(reply);
        assert(messages.deep_view() == so_far.push(reply_view));
        let held = messages.len();
        proof {
            lemma_count_generate_now_bound(script.take(cursor as int));
            assert(held == cursor + 1);
        }
        if cursor < directives.len() {
            proof {
                let now = messages.deep_view();
                lemma_next_stop_bounds(script, cursor + 1);
                lemma_count_generate_now_bound(script.take(cursor as int));
                assert(script[cursor as int] is GenerateNow);
                assert(script.take(cursor + 1).drop_last() == script.take(cursor as int));
                assert forall|i: int| 0 <= i < cursor + 1 implies answers(
                    script.take(cursor + 1)[i],
                    #[trigger] now[i],
                ) by {
                    if i < cursor {
                        assert(answers(script.take(cursor as int)[i], so_far[i]));
                    }
                }
            }
            match ChatSession::advance(
                directives,
                cursor + 1,
                messages,
                user_tokens,
                provider_calls + 1,
                temperature,
            ) {
                Ok(next) => Ok(Turn::AskProvider(next)),
                Err(error) => Err(error),
            }
        } else {
            proof {
                assert(script.take(cursor as int) == script);
                assert(messages.deep_view().drop_last() == so_far);
            }
            match count_generated_tokens(&messages) {
                Some(assistant_tokens) => Ok(
                    Turn::Finished(Completion { messages, user_tokens, assistant_tokens }),
                ),
                None => Err(CompletionError::Uncountable { after: provider_calls + 1 }),
            }
        }
    }

    /// Takes what the provider gave back when it was asked for the next
    /// answer. A failure that the provider reports ends the conversation with
    /// that failure, its message unchanged; an answer is taken as
    /// [`ChatSession::accept_reply`] takes it.
    pub fn accept_outcome(self, outcome: Result<PromptMessage, String>) -> (turn: Result<
        Turn,
        CompletionError,
    >)
        ensures
            match outcome {
                Err(message) => turn matches Err(
                    CompletionError::Provider(ProviderError::Failed { message: kept }),
                ) && kept == message,
                Ok(reply) => match turn {
                    Ok(Turn::AskProvider(next)) => {
                        &&& reply.role == Role::Assistant
                        &&& self.position() < self.script().len()
                        &&& next.well_formed()
                        &&& next.script() == self.script()
                        &&& next.position() == next_stop(self.script(), self.position() + 1)
                        &&& next.transcript().take(self.position() + 1)
                            == self.transcript().push(reply@)
                        &&& next.calls() == self.calls() + 1
                        &&& next.asked_at() == self.asked_at()
                    },
                    Ok(Turn::Finished(completion)) => {
                        &&& reply.role == Role::Assistant
                        &&& self.position() == self.script().len()
                        &&& completion.messages.deep_view() == self.transcript().push(reply@)
                        &&& is_completion_of(self.script(), completion)
                        &&& self.calls() + 1 == count_generate_now(self.script()) + 1
                    },
                    Err(CompletionError::Provider(ProviderError::UnexpectedRole { role })) => {
                        &&& reply.role != Role::Assistant
                        &&& role == reply.role
                    },
                    Err(CompletionError::Uncountable { after }) => {
                        &&& reply.role == Role::Assistant
                        &&& after == self.calls() + 1
                        &&& if self.position() < self.script().len() {
                            !scripted_fits(
                                self.script().take(next_stop(self.script(), self.position() + 1)),
                            )
                        } else {
                            !generated_fits(self.transcript().push(reply@))
                        }
                    },
                    Err(_) => false,
                },
            },
    {
        match outcome {
            Ok(reply) => self.accept_reply(reply),
            Err(message) => Err(CompletionError::Provider(ProviderError::Failed { message })),
        }
    }
}

/// Where the search for the next request ends.
pub proof fn lemma_next_stop_bounds(script: Seq<Directive>, from: int)
    requires
        0 <= from <= script.len(),
    ensures
        from <= next_stop(script, from) <= script.len(),
        next_stop(script, from) == next_stop(script, next_stop(script, from)),
    decreases script.len() - from,
{
    if from < script.len() && !(script[from] is GenerateNow) {
        lemma_next_stop_bounds(script, from + 1);
    }
}

/// A session stands at the end of its script only when the model has answered
/// every request in it: the answer that completes the conversation is one more
/// than the script has requests.
pub proof fn law_provider_calls(session: ChatSession)
    requires
        session.well_formed(),
        session.position() == session.script().len(),
    ensures
        session.calls() + 1 == count_generate_now(session.script()) + 1,
{
    assert(session.script().take(session.position()) == session.script());
}

/// Something that can be asked for the assistant's next message.
pub trait LlmProvider {
    /// The message that follows `history`, asked for at `temperature`, or a
    /// description of what went wrong.
    fn next_message(&self, history: &Vec<PromptMessage>, temperature: Temperature) -> Result<
        PromptMessage,
        String,
    >;
}

/// Runs the conversation of `prompt` to its end, asking `provider` for each of
/// the model's answers in turn: each time with [`ChatSession::history`] and at
/// [`ChatSession::temperature`], and handing what came back to
/// [`ChatSession::accept_outcome`]. The first failure ends the run.
///
/// Before the provider is asked at all, the run fails exactly where the tokens
/// of the script up to its first request cannot be counted, with
/// `Uncountable { after: 0 }`. Whether it succeeds after that is for the
/// provider to decide, and for the token counts of what it answers: a failure
/// that the provider reports, an answer that is not the assistant's, or tokens
/// that cannot be counted end it.
pub fn complete_chat<P: LlmProvider>(provider: &P, prompt: Prompt) -> (outcome: Result<
    Completion,
    CompletionError,
>)
    ensures
        (outcome matches Err(CompletionError::Uncountable { after }) && after == 0)
            <==> !scripted_fits(
            prompt.messages.deep_view().take(next_stop(prompt.messages.deep_view(), 0)),
        ),
        match outcome {
            Ok(completion) => is_completion_of(prompt.messages.deep_view(), completion),
            Err(CompletionError::Provider(ProviderError::UnexpectedRole { role })) => role
                != Role::Assistant,
            Err(CompletionError::Provider(ProviderError::NoReply)) => false,
            Err(CompletionError::Provider(ProviderError::UnknownRole { .. })) => false,
            Err(_) => true,
        },
{
    let ghost script = prompt.messages.deep_view();
    let mut session = match ChatSession::start(prompt) {
        Ok(session) => session,
        Err(error) => {
            return Err(error);
        },
    };
    loop
        invariant
            script == prompt.messages.deep_view(),
            scripted_fits(script.take(next_stop(script, 0))),
            session.well_formed(),
            session.script() == script,
            session.calls() >= 0,
        decreases script.len() - session.position(),
    {
        let answer = provider.next_message(session.history(), session.temperature());
        let ghost stood = session.position();
        match session.accept_outcome(answer) {
            Ok(Turn::AskProvider(next)) => {
                proof {
                    lemma_next_stop_bounds(script, stood + 1);
                }
                session = next;
            },
            Ok(Turn::Finished(completion)) => {
                return Ok(completion);
            },
            Err(error) => {
                return Err(error);
            },
        }
    }
}

} // verus!
