//! What the web front end shows and decides: the form it offers, what it
//! makes of a submitted form, and how it lays out the model's answers.
use vstd::prelude::*;

use crate::prompt::parse_transcript;
use crate::prompt::read_markdown_prompt;
use crate::prompt::Binding;
use crate::prompt::InjectableData;
use crate::text::append_chars;
use crate::text::chars_contain;
use crate::text::contains;
use crate::text::from_chars;
use crate::text::to_chars;
use crate::is_assistant;
use crate::Completion;
use crate::MessageView;
use crate::Prompt;
use crate::Role;
use crate::Temperature;

verus! {

/// What the form is filled with before the visitor changes it.
#[derive(Debug, Clone)]
pub struct PromptInfo {
    pub prompt_markdown: String,
    pub placeholder_name: String,
}

/// The transcript that the form starts with.
pub open spec fn default_prompt_markdown() -> Seq<char> {
    "# System\nSome system prompt\n\n# User\nSome user input that uses {placheloder_name}\n\n# Assistant"@
}

/// The placeholder that the form starts with.
pub open spec fn default_placeholder_name() -> Seq<char> {
    "{placeholder_name}"@
}

impl Default for PromptInfo {
    fn default() -> (info: Self)
        ensures
            info.prompt_markdown@ == default_prompt_markdown(),
            info.placeholder_name@ == default_placeholder_name(),
    {
        PromptInfo {
            prompt_markdown: "# System\nSome system prompt\n\n# User\nSome user input that uses {placheloder_name}\n\n# Assistant".to_owned(),
            placeholder_name: "{placeholder_name}".to_owned(),
        }
    }
}

/// A submitted form.
#[derive(Debug, Clone)]
pub struct GenerateRequest {
    pub prompt: String,
    pub placeholder_name: String,
    pub placeholder_value: String,
}

/// What is shown when a request cannot be served.
#[derive(Debug, Clone, PartialEq, Eq)]
pub struct PromptPunchError {
    pub message: String,
}

impl PromptPunchError {
    /// The error with this message.
    pub fn new(message: &str) -> (error: Self)
        ensures
            error.message@ == message@,
    {
        PromptPunchError { message: message.to_owned() }
    }
}

/// A request that is not served: the HTTP status to answer with, and what to
/// show.
#[derive(Debug, Clone, PartialEq, Eq)]
pub struct Rejection {
    pub status: u16,
    pub error: PromptPunchError,
}

/// The position of the first line feed in `text`, or the length of `text`
/// where it holds none.
pub open spec fn first_line_feed(text: Seq<char>) -> int
    decreases text.len(),
{
    if text.len() == 0 || text.first() == '\n' {
        0
    } else {
        1 + first_line_feed(text.drop_first())
    }
}

/// `line` without the carriage return at its end, if it has one.
pub open spec fn without_carriage_return(line: Seq<char>) -> Seq<char> {
    if line.len() > 0 && line.last() == '\r' {
        line.drop_last()
    } else {
        line
    }
}

/// The lines of `text`. A line ends with a line feed, or with a carriage
/// return and a line feed, neither of which belongs to the line; the last line
/// may end with the text instead, and is then taken as it is. After a final
/// line feed no empty line follows.
pub open spec fn lines_of(text: Seq<char>) -> Seq<Seq<char>>
    decreases text.len(),
{
    if text.len() == 0 {
        Seq::empty()
    } else {
        let end = first_line_feed(text);
        if 0 <= end < text.len() {
            seq![without_carriage_return(text.take(end))] + lines_of(text.skip(end + 1))
        } else {
            seq![text]
        }
    }
}

/// Computes [`lines_of`].
pub fn split_lines(text: &str) -> (lines: Vec<String>)
    ensures
        lines.deep_view() == lines_of(text@),
{
    let chars = to_chars(text);
    let mut lines: Vec<String> = Vec::new();
    let mut start: usize = 0;
    assert(chars@.skip(0) == chars@);
    assert(lines.deep_view() + lines_of(chars@.skip(0)) == lines_of(chars@));
    while start < chars.len()
        invariant
            start <= chars.len(),
            lines.deep_view() + lines_of(chars@.skip(start as int)) == lines_of(chars@),
        decreases chars.len() - start,
    {
        let ghost rest = chars@.skip(start as int);
        let ghost before = lines.deep_view();
        let mut end: usize = start;
        let mut line: Vec<char> = Vec::new();
        assert(rest.skip(0) == rest);
        while end < chars.len() && chars[end] != '\n'
            invariant
                start <= end <= chars.len(),
                rest == chars@.skip(start as int),
                line@ == rest.take(end - start),
                first_line_feed(rest) == (end - start) + first_line_feed(rest.skip(end - start)),
            decreases chars.len() - end,
        {
            assert(rest.skip(end - start).drop_first() == rest.skip(end - start + 1));
            assert(rest.take(end - start + 1) == rest.take(end - start).push(chars@[end as int]));
            line.push(chars[end]);
            end += 1;
        }
        if end == chars.len() {
            assert(rest.take(end - start) == rest);
            let whole = from_chars(&line);
            lines.push(whole);
            assert(lines.deep_view() == before.push(rest));
            assert(lines_of(rest) == seq![rest]);
            assert(chars@.skip(end as int).len() == 0);
            assert(lines.deep_view() + lines_of(chars@.skip(end as int)) == before + seq![rest]);
            start = end;
        } else {
            assert(first_line_feed(rest) == end - start);
            assert(rest.skip(end - start + 1) == chars@.skip(end + 1));
            let ghost taken = line@;
            let n = line.len();
            if n > 0 && line[n - 1] == '\r' {
                line.pop();
            }
            assert(line@ == without_carriage_return(taken));
            let stripped = from_chars(&line);
            lines.push(stripped);
            assert(lines.deep_view() == before.push(without_carriage_return(taken)));
            assert(lines.deep_view() + lines_of(chars@.skip(end + 1)) == before + (
            seq![without_carriage_return(taken)] + lines_of(rest.skip(end - start + 1))));
            start = end + 1;
        }
    }
    assert(chars@.skip(start as int).len() == 0);
    assert(lines.deep_view() + Seq::<Seq<char>>::empty() == lines.deep_view());
    lines
}

/// The character that stands for a digit.
pub open spec fn digit(d: int) -> char {
    if d == 0 {
        '0'
    } else if d == 1 {
        '1'
    } else if d == 2 {
        '2'
    } else if d == 3 {
        '3'
    } else if d == 4 {
        '4'
    } else if d == 5 {
        '5'
    } else if d == 6 {
        '6'
    } else if d == 7 {
        '7'
    } else if d == 8 {
        '8'
    } else {
        '9'
    }
}

/// `n` written in decimal digits, without leading zeros.
pub open spec fn decimal(n: nat) -> Seq<char>
    decreases n,
{
    if n < 10 {
        seq![digit(n as int)]
    } else {
        decimal(n / 10).push(digit((n % 10) as int))
    }
}

/// Computes [`digit`].
pub fn digit_char(d: usize) -> (c: char)
    requires
        d < 10,
    ensures
        c == digit(d as int),
{
    if d == 0 {
        '0'
    } else if d == 1 {
        '1'
    } else if d == 2 {
        '2'
    } else if d == 3 {
        '3'
    } else if d == 4 {
        '4'
    } else if d == 5 {
        '5'
    } else if d == 6 {
        '6'
    } else if d == 7 {
        '7'
    } else if d == 8 {
        '8'
    } else {
        '9'
    }
}

/// Appends [`decimal`] of `n` to `out`.
pub fn push_decimal(out: &mut Vec<char>, n: usize)
    ensures
        final(out)@ == old(out)@ + decimal(n as nat),
    decreases n,
{
    if n >= 10 {
        push_decimal(out, n / 10);
    }
    out.push(digit_char(n % 10));
}

/// How many of `messages` are the assistant's.
pub open spec fn count_assistant(messages: Seq<MessageView>) -> nat
    decreases messages.len(),
{
    if messages.len() == 0 {
        0
    } else {
        count_assistant(messages.drop_last()) + if messages.last().role == Role::Assistant {
            1nat
        } else {
            0nat
        }
    }
}

/// The assistant's messages are no more than the messages.
pub proof fn lemma_count_assistant_bound(messages: Seq<MessageView>)
    ensures
        count_assistant(messages) <= messages.len(),
    decreases messages.len(),
{
    if messages.len() > 0 {
        lemma_count_assistant_bound(messages.drop_last());
    }
}

/// One answer as it is shown: its number, a separator, its content and an
/// empty line.
pub open spec fn reply_entry(number: nat, content: Seq<char>) -> Seq<char> {
    decimal(number) + " :::: "@ + content + "\n\n"@
}

/// The assistant's messages as they are shown: numbered from one, in order,
/// with a line feed between one entry and the next.
pub open spec fn rendered_replies(messages: Seq<MessageView>) -> Seq<char>
    decreases messages.len(),
{
    if messages.len() == 0 {
        Seq::empty()
    } else if messages.last().role != Role::Assistant {
        rendered_replies(messages.drop_last())
    } else if count_assistant(messages.drop_last()) == 0 {
        reply_entry(1, messages.last().content)
    } else {
        rendered_replies(messages.drop_last()) + "\n"@ + reply_entry(
            count_assistant(messages.drop_last()) + 1,
            messages.last().content,
        )
    }
}

/// Where nothing is the assistant's, nothing is shown.
pub proof fn lemma_nothing_rendered(messages: Seq<MessageView>)
    requires
        count_assistant(messages) == 0,
    ensures
        rendered_replies(messages) == Seq::<char>::empty(),
    decreases messages.len(),
{
    if messages.len() > 0 {
        lemma_nothing_rendered(messages.drop_last());
    }
}

/// Computes [`rendered_replies`].
pub fn render_replies(completion: &Completion) -> (page: String)
    ensures
        page@ == rendered_replies(completion.messages.deep_view()),
{
    let ghost all = completion.messages.deep_view();
    let separator = to_chars(" :::: ");
    let blank = to_chars("\n\n");
    let feed = to_chars("\n");
    let mut page: Vec<char> = Vec::new();
    let mut shown: usize = 0;
    let mut i: usize = 0;
    while i < completion.messages.len()
        invariant
            i <= completion.messages.len(),
            all == completion.messages.deep_view(),
            separator@ == " :::: "@,
            blank@ == "\n\n"@,
            feed@ == "\n"@,
            shown == count_assistant(all.take(i as int)),
            page@ == rendered_replies(all.take(i as int)),
        decreases completion.messages.len() - i,
    {
        let message = &completion.messages[i];
        proof {
            assert(all.take(i + 1).drop_last() == all.take(i as int));
            assert(all.take(i + 1).last() == message@);
            lemma_count_assistant_bound(all.take(i as int));
        }
        if is_assistant(message.role) {
            let ghost before = page@;
            if shown > 0 {
                append_chars(&mut page, &feed);
            } else {
                proof {
                    lemma_nothing_rendered(all.take(i as int));
                }
            }
            let ghost joined = page@;
            shown += 1;
            push_decimal(&mut page, shown);
            append_chars(&mut page, &separator);
            append_chars(&mut page, &to_chars(message.content.as_str()));
            append_chars(&mut page, &blank);
            assert(page@ == joined + reply_entry(shown as nat, message@.content));
        }
        i += 1;
    }
    assert(all.take(i as int) == all);
    from_chars(&page)
}

/// What begins the complaint about a placeholder that the prompt lacks.
pub open spec fn placeholder_missing_prefix() -> Seq<char> {
    "Placeholder "@
}

/// What ends the complaint about a placeholder that the prompt lacks.
pub open spec fn placeholder_missing_suffix() -> Seq<char> {
    " not found in the prompt"@
}

/// What is shown where the prompt cannot be read.
pub open spec fn unreadable_prompt_message() -> Seq<char> {
    "Failed to read prompt"@
}

/// What a submitted form asks for: the prompt that its transcript says, with
/// the placeholder replaced by its value, at the temperature of a prompt that
/// names none. A form whose transcript lacks the placeholder is refused, and
/// so is one whose transcript cannot be read; both with status 400.
pub fn prepare_generation(request: &GenerateRequest) -> (prepared: Result<Prompt, Rejection>)
    ensures
        match prepared {
            Ok(prompt) => {
                &&& contains(request.prompt@, request.placeholder_name@)
                &&& parse_transcript(
                    lines_of(request.prompt@),
                    seq![
                        Binding {
                            placeholder: request.placeholder_name@,
                            value: request.placeholder_value@,
                        },
                    ],
                ) == Ok::<Seq<crate::Directive>, crate::prompt::TranscriptFault>(
                    prompt.messages.deep_view(),
                )
                &&& prompt.temperature.bits == crate::DEFAULT_TEMPERATURE_BITS
            },
            Err(rejection) => {
                &&& rejection.status == 400
                &&& if !contains(request.prompt@, request.placeholder_name@) {
                    rejection.error.message@ == placeholder_missing_prefix()
                        + request.placeholder_name@ + placeholder_missing_suffix()
                } else {
                    &&& rejection.error.message@ == unreadable_prompt_message()
                    &&& parse_transcript(
                        lines_of(request.prompt@),
                        seq![
                            Binding {
                                placeholder: request.placeholder_name@,
                                value: request.placeholder_value@,
                            },
                        ],
                    ) is Err
                }
            },
        },
{
    let prompt = to_chars(request.prompt.as_str());
    let placeholder = to_chars(request.placeholder_name.as_str());
    if !chars_contain(&prompt, &placeholder) {
        let mut message = to_chars("Placeholder ");
        append_chars(&mut message, &placeholder);
        append_chars(&mut message, &to_chars(" not found in the prompt"));
        return Err(
            Rejection { status: 400, error: PromptPunchError { message: from_chars(&message) } },
        );
    }
    let owned = split_lines(request.prompt.as_str());
    let mut lines: Vec<&str> = Vec::new();
    let mut i: usize = 0;
    while i < owned.len()
        invariant
            i <= owned.len(),
            lines.deep_view() == owned.deep_view().take(i as int),
        decreases owned.len() - i,
    {
        let ghost before = lines.deep_view();
        lines.push(owned[i].as_str());
        assert(lines.deep_view() == before.push(owned[i as int]@));
        assert(owned.deep_view().take(i + 1) == owned.deep_view().take(i as int).push(
            owned[i as int]@,
        ));
        i += 1;
    }
    assert(owned.deep_view().take(i as int) == owned.deep_view());
    let mut data: Vec<InjectableData> = Vec::new();
    let rule = InjectableData::new(
        request.placeholder_name.as_str(),
        request.placeholder_value.as_str(),
    );
    data.push(rule);
    assert(data.deep_view() == seq![rule@]);
    let script = lines.as_slice();
    let rules = data.as_slice();
    assert(script.deep_view() == lines.deep_view());
    assert(rules.deep_view() == data.deep_view());
    match read_markdown_prompt(script, rules) {
        Ok(messages) => Ok(Prompt { messages, temperature: Temperature::default() }),
        Err(_) => Err(
            Rejection { status: 400, error: PromptPunchError::new("Failed to read prompt") },
        ),
    }
}

/// What begins the report of a model that gave no answer.
pub open spec fn completion_failed_prefix() -> Seq<char> {
    "Failed to get completion from LLM with "@
}

/// What is answered where the model gave no answer: status 500, and that the
/// completion failed, with `detail` after it.
pub fn completion_failure(detail: &str) -> (rejection: Rejection)
    ensures
        rejection.status == 500,
        rejection.error.message@ == completion_failed_prefix() + detail@,
{
    let mut message = to_chars("Failed to get completion from LLM with ");
    append_chars(&mut message, &to_chars(detail));
    Rejection { status: 500, error: PromptPunchError { message: from_chars(&message) } }
}

} // verus!
