//! What the command line of the program is read into.
use vstd::prelude::*;

use crate::prompt::parse_transcript;
use crate::prompt::read_markdown_prompt;
use crate::prompt::Binding;
use crate::prompt::InjectableData;
use crate::prompt::MalformedTranscript;
use crate::prompt::TranscriptFault;
use crate::text::append_chars;
use crate::text::from_chars;
use crate::text::to_chars;
use crate::Directive;
use crate::Prompt;
use crate::Temperature;

verus! {

/// The position of the first `=` in `input`, or the length of `input` where
/// it holds none.
pub open spec fn first_equals(input: Seq<char>) -> int
    decreases input.len(),
{
    if input.len() == 0 || input.first() == '=' {
        0
    } else {
        1 + first_equals(input.drop_first())
    }
}

/// Where [`first_equals`] points.
pub proof fn lemma_first_equals(input: Seq<char>)
    ensures
        0 <= first_equals(input) <= input.len(),
        first_equals(input) < input.len() ==> input[first_equals(input)] == '=',
        forall|i: int| 0 <= i < first_equals(input) ==> input[i] != '=',
    decreases input.len(),
{
    if input.len() > 0 && input.first() != '=' {
        let rest = input.drop_first();
        lemma_first_equals(rest);
        assert forall|i: int| 0 <= i < first_equals(input) implies input[i] != '=' by {
            if i > 0 {
                assert(input[i] == rest[i - 1]);
            }
        }
    }
}

/// What begins the complaint about an argument without `=`.
pub open spec fn invalid_pair_prefix() -> Seq<char> {
    "Invalid key=value pair: "@
}

/// Splits an argument of the form `key=value` at its first `=`. An argument
/// without `=` is refused with a complaint that quotes it.
pub fn parse_key_value(input: &str) -> (pair: Result<(String, String), String>)
    ensures
        match pair {
            Ok((key, value)) => {
                &&& first_equals(input@) < input@.len()
                &&& key@ == input@.take(first_equals(input@))
                &&& value@ == input@.skip(first_equals(input@) + 1)
                &&& input@ == key@ + seq!['='] + value@
                &&& !key@.contains('=')
            },
            Err(complaint) => {
                &&& first_equals(input@) == input@.len()
                &&& complaint@ == invalid_pair_prefix() + input@
            },
        },
{
    let chars = to_chars(input);
    let mut at: usize = 0;
    assert(chars@.skip(0) == chars@);
    while at < chars.len() && chars[at] != '='
        invariant
            at <= chars.len(),
            first_equals(chars@) == at + first_equals(chars@.skip(at as int)),
        decreases chars.len() - at,
    {
        assert(chars@.skip(at as int).drop_first() == chars@.skip(at + 1));
        at += 1;
    }
    if at == chars.len() {
        let mut complaint = to_chars("Invalid key=value pair: ");
        append_chars(&mut complaint, &chars);
        return Err(from_chars(&complaint));
    }
    let mut key: Vec<char> = Vec::new();
    let mut i: usize = 0;
    while i < at
        invariant
            i <= at <= chars.len(),
            key@ == chars@.take(i as int),
        decreases at - i,
    {
        key.push(chars[i]);
        i += 1;
    }
    let mut value: Vec<char> = Vec::new();
    let mut j: usize = at + 1;
    while j < chars.len()
        invariant
            at + 1 <= j <= chars.len(),
            value@ == chars@.subrange(at + 1, j as int),
        decreases chars.len() - j,
    {
        value.push(chars[j]);
        j += 1;
    }
    assert(value@ == chars@.skip(at + 1));
    proof {
        lemma_first_equals(chars@);
        assert(chars@ == key@ + seq!['='] + value@);
    }
    Ok((from_chars(&key), from_chars(&value)))
}

/// The bit pattern of one half, the temperature at which the program asks.
pub const CLI_TEMPERATURE_BITS: u32 = 0x3f00_0000;

/// The rules that the arguments of the program stand for: each pair replaces
/// its first part by its second.
pub open spec fn bindings_of(arguments: Seq<(String, String)>) -> Seq<Binding> {
    Seq::new(
        arguments.len(),
        |i: int| Binding { placeholder: arguments[i].0@, value: arguments[i].1@ },
    )
}

/// Computes [`bindings_of`].
pub fn injectable_data(arguments: &Vec<(String, String)>) -> (data: Vec<InjectableData>)
    ensures
        data.deep_view() == bindings_of(arguments@),
{
    let mut data: Vec<InjectableData> = Vec::new();
    let mut i: usize = 0;
    while i < arguments.len()
        invariant
            i <= arguments.len(),
            data.deep_view() == bindings_of(arguments@).take(i as int),
        decreases arguments.len() - i,
    {
        let pair = &arguments[i];
        let ghost before = data.deep_view();
        let rule = InjectableData::new(pair.0.as_str(), pair.1.as_str());
        data.push(rule);
        assert(data.deep_view() == before.push(rule@));
        assert(bindings_of(arguments@).take(i + 1) == bindings_of(arguments@).take(i as int).push(
            bindings_of(arguments@)[i as int],
        ));
        i += 1;
    }
    assert(bindings_of(arguments@).take(i as int) == bindings_of(arguments@));
    data
}

/// The prompt that the program runs: the transcript in `lines`, read with the
/// rules that `arguments` stand for, asked at the program's temperature.
pub fn prepare_prompt(lines: &[&str], arguments: &Vec<(String, String)>) -> (prepared: Result<
    Prompt,
    MalformedTranscript,
>)
    ensures
        match prepared {
            Ok(prompt) => {
                &&& parse_transcript(lines.deep_view(), bindings_of(arguments@)) == Ok::<
                    Seq<Directive>,
                    TranscriptFault,
                >(prompt.messages.deep_view())
                &&& prompt.temperature.bits == CLI_TEMPERATURE_BITS
            },
            Err(fault) => parse_transcript(lines.deep_view(), bindings_of(arguments@)) == Err::<
                Seq<Directive>,
                TranscriptFault,
            >(fault@),
        },
{
    let data = injectable_data(arguments);
    let rules = data.as_slice();
    assert(rules.deep_view() == data.deep_view());
    match read_markdown_prompt(lines, rules) {
        Ok(messages) => Ok(
            Prompt { messages, temperature: Temperature::from_bits(CLI_TEMPERATURE_BITS) },
        ),
        Err(fault) => Err(fault),
    }
}

} // verus!
