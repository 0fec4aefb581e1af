//! Transcripts: the text form of a scripted conversation, and its parser.
//!
//! A transcript is a sequence of lines. A line that begins with `#` is a
//! header and names a role; every other line is content of the section that
//! the last header opened. A section under `System` or `User` becomes a
//! message with the section's content; a section under `Assistant` becomes the
//! request to let the model answer, and what is written under it is not used.
//! Content lines are joined as they are: line breaks are not kept.
use vstd::prelude::*;

use crate::text::append_chars;
use crate::text::chars_eq_ignore_ascii_case;
use crate::text::eq_ignore_ascii_case;
use crate::text::from_chars;
use crate::text::replace_all;
use crate::text::replace_chars;
use crate::text::to_chars;
use crate::text::trim;
use crate::text::trim_chars;
use crate::count_generate_now;
use crate::emits_as_assistant;
use crate::Directive;
use crate::MessageView;
use crate::PromptMessage;
use crate::PromptMessageRequest;
use crate::Role;

verus! {

/// The mathematical content of an [`InjectableData`]: every occurrence of
/// `placeholder` is to be replaced by `value`.
pub ghost struct Binding {
    pub placeholder: Seq<char>,
    pub value: Seq<char>,
}

/// A placeholder and the text that takes its place in the content lines of a
/// transcript.
pub struct InjectableData {
    placeholder: String,
    content: String,
}

impl View for InjectableData {
    type V = Binding;

    closed spec fn view(&self) -> Binding {
        Binding { placeholder: self.placeholder@, value: self.content@ }
    }
}

impl DeepView for InjectableData {
    type V = Binding;

    open spec fn deep_view(&self) -> Binding {
        self@
    }
}

impl InjectableData {
    /// The rule that replaces `placeholder` by `content`.
    pub fn new(placeholder: &str, content: &str) -> (data: Self)
        ensures
            data@ == (Binding { placeholder: placeholder@, value: content@ }),
    {
        InjectableData { placeholder: placeholder.to_owned(), content: content.to_owned() }
    }
}

/// `text` after each of `bindings` has been applied in turn, the first one
/// first. Each binding works on what the ones before it left.
pub open spec fn substitute(text: Seq<char>, bindings: Seq<Binding>) -> Seq<char>
    decreases bindings.len(),
{
    if bindings.len() == 0 {
        text
    } else {
        replace_all(
            substitute(text, bindings.drop_last()),
            bindings.last().placeholder,
            bindings.last().value,
        )
    }
}

/// Computes [`substitute`].
pub fn inject(text: &Vec<char>, injectable_data: &[InjectableData]) -> (injected: Vec<char>)
    ensures
        injected@ == substitute(text@, injectable_data.deep_view()),
        injectable_data@.len() == 0 ==> injected@ == text@,
{
    let ghost bindings = injectable_data.deep_view();
    let mut injected: Vec<char> = Vec::new();
    append_chars(&mut injected, text);
    assert(injected@ == text@);
    let mut i: usize = 0;
    while i < injectable_data.len()
        invariant
            i <= injectable_data.len(),
            bindings == injectable_data.deep_view(),
            injected@ == substitute(text@, bindings.take(i as int)),
        decreases injectable_data.len() - i,
    {
        let data = &injectable_data[i];
        let placeholder = to_chars(data.placeholder.as_str());
        let value = to_chars(data.content.as_str());
        proof {
            let next = bindings.take(i + 1);
            assert(next.drop_last() == bindings.take(i as int));
            assert(next.last() == data@);
        }
        injected = replace_chars(&injected, &placeholder, &value);
        i += 1;
    }
    assert(bindings.take(i as int) == bindings);
    injected
}

/// Whether `line` is a header: its first character is `#`.
pub open spec fn is_header_line(line: Seq<char>) -> bool {
    line.len() > 0 && line.first() == '#'
}

/// The role that `name` spells, whatever the case of its letters.
pub open spec fn role_named(name: Seq<char>) -> Option<Role> {
    if eq_ignore_ascii_case(name, "system"@) {
        Some(Role::System)
    } else if eq_ignore_ascii_case(name, "user"@) {
        Some(Role::User)
    } else if eq_ignore_ascii_case(name, "assistant"@) {
        Some(Role::Assistant)
    } else {
        None
    }
}

/// The role that a header line names: what follows the `#`, without the white
/// space around it, read as a role.
pub open spec fn header_role(line: Seq<char>) -> Option<Role> {
    role_named(trim(line.drop_first()))
}

/// Decides [`is_header_line`].
pub fn starts_header(line: &Vec<char>) -> (answer: bool)
    ensures
        answer == is_header_line(line@),
{
    line.len() > 0 && line[0] == '#'
}

/// Computes [`header_role`].
pub fn read_header_role(line: &Vec<char>) -> (role: Option<Role>)
    requires
        is_header_line(line@),
    ensures
        role == header_role(line@),
{
    let mut rest: Vec<char> = Vec::new();
    let mut i: usize = 1;
    while i < line.len()
        invariant
            1 <= i <= line.len(),
            rest@ == line@.subrange(1, i as int),
        decreases line.len() - i,
    {
        rest.push(line[i]);
        i += 1;
    }
    assert(rest@ == line@.drop_first());
    let name = trim_chars(&rest);
    if chars_eq_ignore_ascii_case(&name, &to_chars("system")) {
        Some(Role::System)
    } else if chars_eq_ignore_ascii_case(&name, &to_chars("user")) {
        Some(Role::User)
    } else if chars_eq_ignore_ascii_case(&name, &to_chars("assistant")) {
        Some(Role::Assistant)
    } else {
        None
    }
}

/// What a section becomes when the next header, or the end of the transcript,
/// closes it.
pub open spec fn close_section(role: Role, content: Seq<char>) -> Directive {
    if role == Role::Assistant {
        Directive::GenerateNow
    } else {
        Directive::Emit { body: MessageView { role, content } }
    }
}

/// Computes [`close_section`].
pub fn close(role: Role, content: &Vec<char>) -> (request: PromptMessageRequest)
    ensures
        request@ == close_section(role, content@),
{
    match role {
        Role::Assistant => PromptMessageRequest::WaitCompletion,
        _ => PromptMessageRequest::Message {
            body: PromptMessage { role, content: from_chars(content) },
        },
    }
}

/// Where the parser stands between two lines.
pub ghost struct ScanState {
    /// The role of the section that is open, if a header has been read.
    pub role: Option<Role>,
    /// The content gathered since the last header.
    pub content: Seq<char>,
    /// The sections closed so far.
    pub closed: Seq<Directive>,
}

/// The parser's state after one more line, or `None` where the line is a
/// header that names no role.
pub open spec fn scan_line(state: ScanState, line: Seq<char>, bindings: Seq<Binding>) -> Option<
    ScanState,
> {
    if is_header_line(line) {
        match header_role(line) {
            None => None,
            Some(role) => Some(
                ScanState {
                    role: Some(role),
                    content: Seq::empty(),
                    closed: match state.role {
                        Some(open) => state.closed.push(close_section(open, state.content)),
                        None => state.closed,
                    },
                },
            ),
        }
    } else {
        Some(
            ScanState {
                role: state.role,
                content: state.content + substitute(line, bindings),
                closed: state.closed,
            },
        )
    }
}

/// Why a transcript cannot be read, as a mathematical value.
pub ghost enum TranscriptFault {
    /// The line at this position, counted from zero, is a header that names no
    /// role.
    UnrecognizedRoleHeader { line: nat },
    /// There are lines, and none of them is a header.
    NoRoleFound,
}

/// Why a transcript cannot be read.
#[derive(Debug, Clone, Copy, PartialEq, Eq, Structural)]
pub enum MalformedTranscript {
    /// The line at this position, counted from zero, is a header that names no
    /// role.
    UnrecognizedRoleHeader { line: usize },
    /// There are lines, and none of them is a header.
    NoRoleFound,
}

impl View for MalformedTranscript {
    type V = TranscriptFault;

    open spec fn view(&self) -> TranscriptFault {
        match self {
            MalformedTranscript::UnrecognizedRoleHeader { line } => {
                TranscriptFault::UnrecognizedRoleHeader { line: *line as nat }
            },
            MalformedTranscript::NoRoleFound => TranscriptFault::NoRoleFound,
        }
    }
}

/// The parser's state after all of `lines`, read from the first to the last,
/// or the position of the first header that names no role.
pub open spec fn scan(lines: Seq<Seq<char>>, bindings: Seq<Binding>) -> Result<
    ScanState,
    TranscriptFault,
>
    decreases lines.len(),
{
    if lines.len() == 0 {
        Ok(ScanState { role: None, content: Seq::empty(), closed: Seq::empty() })
    } else {
        match scan(lines.drop_last(), bindings) {
            Err(fault) => Err(fault),
            Ok(state) => match scan_line(state, lines.last(), bindings) {
                Some(next) => Ok(next),
                None => Err(
                    TranscriptFault::UnrecognizedRoleHeader { line: (lines.len() - 1) as nat },
                ),
            },
        }
    }
}

/// What a transcript says: one directive for each section, in order. Content
/// before the first header belongs to no section and is left out. A transcript
/// without lines says nothing; one with lines and without a header is
/// malformed, and so is one with a header that names no role.
pub open spec fn parse_transcript(lines: Seq<Seq<char>>, bindings: Seq<Binding>) -> Result<
    Seq<Directive>,
    TranscriptFault,
> {
    match scan(lines, bindings) {
        Err(fault) => Err(fault),
        Ok(state) => match state.role {
            Some(open) => Ok(state.closed.push(close_section(open, state.content))),
            None => if lines.len() == 0 {
                Ok(Seq::empty())
            } else {
                Err(TranscriptFault::NoRoleFound)
            },
        },
    }
}

/// A fault found in the first `upto` lines is the fault of the whole
/// transcript.
pub proof fn lemma_fault_is_final(lines: Seq<Seq<char>>, bindings: Seq<Binding>, upto: int)
    requires
        0 <= upto <= lines.len(),
        scan(lines.take(upto), bindings) is Err,
    ensures
        scan(lines, bindings) == scan(lines.take(upto), bindings),
    decreases lines.len() - upto,
{
    if upto == lines.len() {
        assert(lines.take(upto) == lines);
    } else {
        assert(lines.take(upto + 1).drop_last() == lines.take(upto));
        lemma_fault_is_final(lines, bindings, upto + 1);
    }
}

/// Reads a transcript, applying `injectable_data` to its content lines.
pub fn read_markdown_prompt(lines: &[&str], injectable_data: &[InjectableData]) -> (parsed: Result<
    Vec<PromptMessageRequest>,
    MalformedTranscript,
>)
    ensures
        match parsed {
            Ok(requests) => parse_transcript(lines.deep_view(), injectable_data.deep_view())
                == Ok::<Seq<Directive>, TranscriptFault>(requests.deep_view()),
            Err(fault) => parse_transcript(lines.deep_view(), injectable_data.deep_view())
                == Err::<Seq<Directive>, TranscriptFault>(fault@),
        },
{
    let ghost all = lines.deep_view();
    let ghost bindings = injectable_data.deep_view();
    let mut messages: Vec<PromptMessageRequest> = Vec::new();
    let mut role: Option<Role> = None;
    let mut content: Vec<char> = Vec::new();
    let mut idx: usize = 0;
    assert(messages.deep_view() == Seq::<Directive>::empty());
    while idx < lines.len()
        invariant
            idx <= lines.len(),
            all == lines.deep_view(),
            bindings == injectable_data.deep_view(),
            scan(all.take(idx as int), bindings) == Ok::<ScanState, TranscriptFault>(
                ScanState { role, content: content@, closed: messages.deep_view() },
            ),
        decreases lines.len() - idx,
    {
        let line = to_chars(lines[idx]);
        proof {
            let next = all.take(idx + 1);
            assert(next.drop_last() == all.take(idx as int));
            assert(next.last() == line@);
        }
        if starts_header(&line) {
            match read_header_role(&line) {
                None => {
                    proof {
                        lemma_fault_is_final(all, bindings, idx + 1);
                    }
                    return Err(MalformedTranscript::UnrecognizedRoleHeader { line: idx });
                },
                Some(named) => {
                    if let Some(open) = role {
                        let ghost before = messages.deep_view();
                        let request = close(open, &content);
                        messages.push(request);
                        assert(messages.deep_view() == before.push(close_section(open, content@)));
                    }
                    content = Vec::new();
                    role = Some(named);
                },
            }
        } else {
            let injected = inject(&line, injectable_data);
            append_chars(&mut content, &injected);
        }
        idx += 1;
    }
    assert(all.take(idx as int) == all);
    match role {
        Some(open) => {
            let ghost before = messages.deep_view();
            let request = close(open, &content);
            messages.push(request);
            assert(messages.deep_view() == before.push(close_section(open, content@)));
            Ok(messages)
        },
        None => {
            if lines.len() == 0 {
                Ok(messages)
            } else {
                Err(MalformedTranscript::NoRoleFound)
            }
        },
    }
}

/// Applying no binding leaves a text as it is.
pub proof fn law_substitute_nothing(text: Seq<char>)
    ensures
        substitute(text, Seq::empty()) == text,
{
}

/// The content of a section: its lines after substitution, one after the
/// other with nothing between them.
pub open spec fn section_content(lines: Seq<Seq<char>>, bindings: Seq<Binding>) -> Seq<char>
    decreases lines.len(),
{
    if lines.len() == 0 {
        Seq::empty()
    } else {
        section_content(lines.drop_last(), bindings) + substitute(lines.last(), bindings)
    }
}

/// Whether `line` is a header that names the assistant.
pub open spec fn is_assistant_header(line: Seq<char>) -> bool {
    is_header_line(line) && header_role(line) == Some(Role::Assistant)
}

/// How many of `lines` are headers that name the assistant.
pub open spec fn count_assistant_headers(lines: Seq<Seq<char>>) -> nat
    decreases lines.len(),
{
    if lines.len() == 0 {
        0
    } else {
        count_assistant_headers(lines.drop_last()) + if is_assistant_header(lines.last()) {
            1nat
        } else {
            0nat
        }
    }
}

/// Reading one more line is one step of the parser.
pub proof fn lemma_scan_push(lines: Seq<Seq<char>>, line: Seq<char>, bindings: Seq<Binding>)
    ensures
        scan(lines.push(line), bindings) == match scan(lines, bindings) {
            Err(fault) => Err::<ScanState, TranscriptFault>(fault),
            Ok(state) => match scan_line(state, line, bindings) {
                Some(next) => Ok(next),
                None => Err(TranscriptFault::UnrecognizedRoleHeader { line: lines.len() }),
            },
        },
{
    assert(lines.push(line).drop_last() == lines);
}

/// Reading content lines adds their content to the open section and changes
/// nothing else.
pub proof fn lemma_scan_content(
    lines: Seq<Seq<char>>,
    body: Seq<Seq<char>>,
    bindings: Seq<Binding>,
)
    requires
        scan(lines, bindings) is Ok,
        forall|i: int| 0 <= i < body.len() ==> !is_header_line(#[trigger] body[i]),
    ensures
        scan(lines + body, bindings) == Ok::<ScanState, TranscriptFault>(
            ScanState {
                role: scan(lines, bindings)->Ok_0.role,
                content: scan(lines, bindings)->Ok_0.content + section_content(body, bindings),
                closed: scan(lines, bindings)->Ok_0.closed,
            },
        ),
    decreases body.len(),
{
    let state = scan(lines, bindings)->Ok_0;
    if body.len() == 0 {
        assert(lines + body == lines);
        assert(state.content + section_content(body, bindings) == state.content);
    } else {
        lemma_scan_content(lines, body.drop_last(), bindings);
        assert(lines + body == (lines + body.drop_last()).push(body.last()));
        lemma_scan_push(lines + body.drop_last(), body.last(), bindings);
        assert(state.content + section_content(body, bindings) == (state.content
            + section_content(body.drop_last(), bindings)) + substitute(body.last(), bindings));
    }
}

/// While the parser reads, the requests to let the model answer that it has
/// closed, and the one it may have open, are as many as the headers that name
/// the assistant; and no message that it has closed is the assistant's.
pub proof fn lemma_scan_assistant_sections(lines: Seq<Seq<char>>, bindings: Seq<Binding>)
    requires
        scan(lines, bindings) is Ok,
    ensures
        count_generate_now(scan(lines, bindings)->Ok_0.closed) + (if scan(
            lines,
            bindings,
        )->Ok_0.role == Some(Role::Assistant) {
            1nat
        } else {
            0nat
        }) == count_assistant_headers(lines),
        forall|k: int|
            0 <= k < scan(lines, bindings)->Ok_0.closed.len() ==> !emits_as_assistant(
                #[trigger] scan(lines, bindings)->Ok_0.closed[k],
            ),
    decreases lines.len(),
{
    if lines.len() > 0 {
        lemma_scan_assistant_sections(lines.drop_last(), bindings);
        let before = scan(lines.drop_last(), bindings)->Ok_0;
        let after = scan(lines, bindings)->Ok_0;
        if is_header_line(lines.last()) {
            if let Some(open) = before.role {
                assert(after.closed == before.closed.push(close_section(open, before.content)));
                assert(after.closed.drop_last() == before.closed);
            }
        }
    }
}

/// A transcript that can be read yields as many requests to let the model
/// answer as it has headers that name the assistant, and no message attributed
/// to the assistant.
pub proof fn law_generations_match_assistant_headers(
    lines: Seq<Seq<char>>,
    bindings: Seq<Binding>,
)
    requires
        parse_transcript(lines, bindings) is Ok,
    ensures
        count_generate_now(parse_transcript(lines, bindings)->Ok_0) == count_assistant_headers(
            lines,
        ),
        forall|k: int|
            0 <= k < parse_transcript(lines, bindings)->Ok_0.len() ==> !emits_as_assistant(
                #[trigger] parse_transcript(lines, bindings)->Ok_0[k],
            ),
{
    lemma_scan_assistant_sections(lines, bindings);
    let state = scan(lines, bindings)->Ok_0;
    let directives = parse_transcript(lines, bindings)->Ok_0;
    if let Some(open) = state.role {
        assert(directives.drop_last() == state.closed);
    } else {
        assert(lines.len() == 0);
    }
}

/// Lines of which none names the assistant in a header count no such header.
pub proof fn lemma_no_assistant_headers(lines: Seq<Seq<char>>)
    requires
        forall|i: int| 0 <= i < lines.len() ==> !is_assistant_header(#[trigger] lines[i]),
    ensures
        count_assistant_headers(lines) == 0,
    decreases lines.len(),
{
    if lines.len() > 0 {
        lemma_no_assistant_headers(lines.drop_last());
    }
}

/// A transcript that can be read, with exactly one header that names the
/// assistant and no header after that one, yields exactly one request to let
/// the model answer and no message attributed to the assistant.
pub proof fn law_single_assistant_header(
    lines: Seq<Seq<char>>,
    bindings: Seq<Binding>,
    at: int,
)
    requires
        parse_transcript(lines, bindings) is Ok,
        0 <= at < lines.len(),
        is_assistant_header(lines[at]),
        forall|i: int|
            0 <= i < lines.len() && i != at ==> !is_assistant_header(#[trigger] lines[i]),
        forall|i: int| at < i < lines.len() ==> !is_header_line(#[trigger] lines[i]),
    ensures
        count_generate_now(parse_transcript(lines, bindings)->Ok_0) == 1,
        forall|k: int|
            0 <= k < parse_transcript(lines, bindings)->Ok_0.len() ==> !emits_as_assistant(
                #[trigger] parse_transcript(lines, bindings)->Ok_0[k],
            ),
{
    law_generations_match_assistant_headers(lines, bindings);
    lemma_one_assistant_header(lines, at);
}

/// Lines of which exactly one names the assistant in a header count one such
/// header.
pub proof fn lemma_one_assistant_header(lines: Seq<Seq<char>>, at: int)
    requires
        0 <= at < lines.len(),
        is_assistant_header(lines[at]),
        forall|i: int|
            0 <= i < lines.len() && i != at ==> !is_assistant_header(#[trigger] lines[i]),
    ensures
        count_assistant_headers(lines) == 1,
    decreases lines.len(),
{
    if at == lines.len() - 1 {
        lemma_no_assistant_headers(lines.drop_last());
    } else {
        lemma_one_assistant_header(lines.drop_last(), at);
    }
}

/// A transcript made of a `System` section, a `User` section and an
/// `Assistant` header that ends it yields the system message, the user
/// message and one request to let the model answer, in this order. Content
/// before the first header is left out.
pub proof fn law_system_user_assistant(
    preamble: Seq<Seq<char>>,
    system_header: Seq<char>,
    system_lines: Seq<Seq<char>>,
    user_header: Seq<char>,
    user_lines: Seq<Seq<char>>,
    assistant_header: Seq<char>,
    bindings: Seq<Binding>,
)
    requires
        forall|i: int| 0 <= i < preamble.len() ==> !is_header_line(#[trigger] preamble[i]),
        forall|i: int| 0 <= i < system_lines.len() ==> !is_header_line(#[trigger] system_lines[i]),
        forall|i: int| 0 <= i < user_lines.len() ==> !is_header_line(#[trigger] user_lines[i]),
        is_header_line(system_header) && header_role(system_header) == Some(Role::System),
        is_header_line(user_header) && header_role(user_header) == Some(Role::User),
        is_header_line(assistant_header) && header_role(assistant_header) == Some(
            Role::Assistant,
        ),
    ensures
        parse_transcript(
            preamble + seq![system_header] + system_lines + seq![user_header] + user_lines
                + seq![assistant_header],
            bindings,
        ) == Ok::<Seq<Directive>, TranscriptFault>(
            seq![
                Directive::Emit {
                    body: MessageView {
                        role: Role::System,
                        content: section_content(system_lines, bindings),
                    },
                },
                Directive::Emit {
                    body: MessageView {
                        role: Role::User,
                        content: section_content(user_lines, bindings),
                    },
                },
                Directive::GenerateNow,
            ],
        ),
{
    let nothing = Seq::<Seq<char>>::empty();
    let none = Seq::<char>::empty();
    assert(nothing + preamble == preamble);
    lemma_scan_content(nothing, preamble, bindings);
    let l1 = preamble.push(system_header);
    lemma_scan_push(preamble, system_header, bindings);
    let l2 = l1 + system_lines;
    lemma_scan_content(l1, system_lines, bindings);
    assert(none + section_content(system_lines, bindings) == section_content(
        system_lines,
        bindings,
    ));
    let l3 = l2.push(user_header);
    lemma_scan_push(l2, user_header, bindings);
    let l4 = l3 + user_lines;
    lemma_scan_content(l3, user_lines, bindings);
    assert(none + section_content(user_lines, bindings) == section_content(user_lines, bindings));
    let l5 = l4.push(assistant_header);
    lemma_scan_push(l4, assistant_header, bindings);
    assert(l5 == preamble + seq![system_header] + system_lines + seq![user_header] + user_lines
        + seq![assistant_header]);
    let state = scan(l5, bindings)->Ok_0;
    assert(state.closed.push(Directive::GenerateNow) == seq![
        Directive::Emit {
            body: MessageView {
                role: Role::System,
                content: section_content(system_lines, bindings),
            },
        },
        Directive::Emit {
            body: MessageView { role: Role::User, content: section_content(user_lines, bindings) },
        },
        Directive::GenerateNow,
    ]);
}

} // verus!
