//! Text as sequences of characters: the operations that transcripts and
//! messages are built from, each with its mathematical meaning.
use vstd::prelude::*;

verus! {

/// `String::push` appends one character to the end of the string.
pub assume_specification[ String::push ](s: &mut String, c: char)
    ensures
        final(s)@ == old(s)@.push(c),
;

/// The characters of `s`, in order.
pub fn to_chars(s: &str) -> (chars: Vec<char>)
    ensures
        chars@ == s@,
{
    let mut chars: Vec<char> = Vec::new();
    for c in it: s.chars()
        invariant
            it.seq() == s@,
            chars@.len() == it.index(),
            forall|j: int| 0 <= j < chars@.len() ==> chars@[j] == it.seq()[j],
    {
        chars.push(c);
    }
    assert(chars@ =~= s@);
    chars
}

/// The string made of `chars`, in order.
pub fn from_chars(chars: &Vec<char>) -> (s: String)
    ensures
        s@ == chars@,
{
    let mut s = String::new();
    let mut i: usize = 0;
    while i < chars.len()
        invariant
            i <= chars.len(),
            s@ == chars@.take(i as int),
        decreases chars.len() - i,
    {
        s.push(chars[i]);
        i += 1;
    }
    s
}

/// Appends `more` to `out`.
pub fn append_chars(out: &mut Vec<char>, more: &Vec<char>)
    ensures
        final(out)@ == old(out)@ + more@,
{
    let mut i: usize = 0;
    while i < more.len()
        invariant
            i <= more.len(),
            out@ == old(out)@ + more@.take(i as int),
        decreases more.len() - i,
    {
        out.push(more[i]);
        i += 1;
    }
}

/// Whether two character sequences are the same.
pub fn chars_equal(a: &Vec<char>, b: &Vec<char>) -> (same: bool)
    ensures
        same == (a@ == b@),
{
    if a.len() != b.len() {
        return false;
    }
    let mut i: usize = 0;
    while i < a.len()
        invariant
            i <= a.len(),
            a.len() == b.len(),
            a@.take(i as int) == b@.take(i as int),
        decreases a.len() - i,
    {
        if a[i] != b[i] {
            return false;
        }
        assert(a@.take(i + 1) == a@.take(i as int).push(a@[i as int]));
        assert(b@.take(i + 1) == b@.take(i as int).push(b@[i as int]));
        i += 1;
    }
    assert(a@ == a@.take(a.len() as int));
    assert(b@ == b@.take(b.len() as int));
    true
}

/// Whether `c` is white space: a character with the Unicode property
/// `White_Space`.
pub open spec fn is_whitespace(c: char) -> bool {
    let n = c as u32;
    ||| 0x09 <= n <= 0x0d
    ||| n == 0x20
    ||| n == 0x85
    ||| n == 0xa0
    ||| n == 0x1680
    ||| 0x2000 <= n <= 0x200a
    ||| n == 0x2028
    ||| n == 0x2029
    ||| n == 0x202f
    ||| n == 0x205f
    ||| n == 0x3000
}

/// Decides [`is_whitespace`].
pub fn char_is_whitespace(c: char) -> (answer: bool)
    ensures
        answer == is_whitespace(c),
{
    let n: u32 = c as u32;
    (0x09 <= n && n <= 0x0d) || n == 0x20 || n == 0x85 || n == 0xa0 || n == 0x1680 || (0x2000 <= n
        && n <= 0x200a) || n == 0x2028 || n == 0x2029 || n == 0x202f || n == 0x205f || n == 0x3000
}

/// `s` without its leading white space.
pub open spec fn trim_start(s: Seq<char>) -> Seq<char>
    decreases s.len(),
{
    if s.len() > 0 && is_whitespace(s.first()) {
        trim_start(s.drop_first())
    } else {
        s
    }
}

/// `s` without its trailing white space.
pub open spec fn trim_end(s: Seq<char>) -> Seq<char>
    decreases s.len(),
{
    if s.len() > 0 && is_whitespace(s.last()) {
        trim_end(s.drop_last())
    } else {
        s
    }
}

/// `s` without its leading and trailing white space.
pub open spec fn trim(s: Seq<char>) -> Seq<char> {
    trim_end(trim_start(s))
}

/// Computes [`trim`].
pub fn trim_chars(s: &Vec<char>) -> (trimmed: Vec<char>)
    ensures
        trimmed@ == trim(s@),
{
    let mut start: usize = 0;
    assert(s@.skip(0) == s@);
    while start < s.len() && char_is_whitespace(s[start])
        invariant
            start <= s.len(),
            trim_start(s@) == trim_start(s@.skip(start as int)),
        decreases s.len() - start,
    {
        assert(s@.skip(start as int).drop_first() == s@.skip(start + 1));
        start += 1;
    }
    let ghost rest = s@.skip(start as int);
    assert(trim_start(s@) == rest);
    let mut end: usize = s.len();
    assert(rest.take(end - start) == rest);
    while end > start && char_is_whitespace(s[end - 1])
        invariant
            start <= end <= s.len(),
            rest == s@.skip(start as int),
            trim_end(rest) == trim_end(rest.take(end - start)),
        decreases end,
    {
        assert(rest.take(end - start).drop_last() == rest.take(end - start - 1));
        end -= 1;
    }
    assert(trim_end(rest) == rest.take(end - start));
    let mut trimmed: Vec<char> = Vec::new();
    let mut i: usize = start;
    while i < end
        invariant
            start <= i <= end <= s.len(),
            trimmed@ == s@.subrange(start as int, i as int),
        decreases end - i,
    {
        trimmed.push(s[i]);
        i += 1;
    }
    assert(trimmed@ == rest.take(end - start));
    trimmed
}

/// The code point of `c`, with the ASCII capital letters folded onto the small
/// ones.
pub open spec fn fold_ascii_case(c: char) -> int {
    let n = c as u32;
    if 0x41 <= n <= 0x5a {
        n + 0x20
    } else {
        n as int
    }
}

/// Computes [`fold_ascii_case`].
pub fn folded_code(c: char) -> (n: u32)
    ensures
        n == fold_ascii_case(c),
{
    let n: u32 = c as u32;
    if 0x41 <= n && n <= 0x5a {
        n + 0x20
    } else {
        n
    }
}

/// Whether `a` and `b` are the same text up to the case of ASCII letters.
pub open spec fn eq_ignore_ascii_case(a: Seq<char>, b: Seq<char>) -> bool {
    &&& a.len() == b.len()
    &&& forall|i: int| 0 <= i < a.len() ==> fold_ascii_case(a[i]) == fold_ascii_case(b[i])
}

/// Decides [`eq_ignore_ascii_case`].
pub fn chars_eq_ignore_ascii_case(a: &Vec<char>, b: &Vec<char>) -> (same: bool)
    ensures
        same == eq_ignore_ascii_case(a@, b@),
{
    if a.len() != b.len() {
        return false;
    }
    let mut i: usize = 0;
    while i < a.len()
        invariant
            i <= a.len(),
            a.len() == b.len(),
            forall|j: int| 0 <= j < i ==> fold_ascii_case(a@[j]) == fold_ascii_case(b@[j]),
        decreases a.len() - i,
    {
        if folded_code(a[i]) != folded_code(b[i]) {
            return false;
        }
        i += 1;
    }
    true
}

/// Whether `pattern` occurs in `text` at position `at`.
pub open spec fn occurs_at(text: Seq<char>, at: int, pattern: Seq<char>) -> bool {
    &&& 0 <= at
    &&& at + pattern.len() <= text.len()
    &&& text.subrange(at, at + pattern.len()) == pattern
}

/// Decides [`occurs_at`].
pub fn matches_at(text: &Vec<char>, at: usize, pattern: &Vec<char>) -> (found: bool)
    requires
        at <= text.len(),
    ensures
        found == occurs_at(text@, at as int, pattern@),
{
    if pattern.len() > text.len() - at {
        return false;
    }
    let mut k: usize = 0;
    while k < pattern.len()
        invariant
            k <= pattern.len(),
            at + pattern.len() <= text.len(),
            text@.subrange(at as int, at + k) == pattern@.take(k as int),
        decreases pattern.len() - k,
    {
        if text[at + k] != pattern[k] {
            assert(text@.subrange(at as int, at + pattern.len())[k as int] != pattern@[k as int]);
            return false;
        }
        assert(text@.subrange(at as int, at + k + 1) == text@.subrange(at as int, at + k).push(
            text@[at + k],
        ));
        assert(pattern@.take(k + 1) == pattern@.take(k as int).push(pattern@[k as int]));
        k += 1;
    }
    assert(pattern@.take(pattern.len() as int) == pattern@);
    true
}

/// Whether `pattern` occurs somewhere in `text`. The empty pattern occurs in
/// every text.
pub open spec fn contains(text: Seq<char>, pattern: Seq<char>) -> bool {
    exists|at: int| occurs_at(text, at, pattern)
}

/// Decides [`contains`].
pub fn chars_contain(text: &Vec<char>, pattern: &Vec<char>) -> (found: bool)
    ensures
        found == contains(text@, pattern@),
{
    let mut at: usize = 0;
    while at <= text.len()
        invariant
            at <= text.len() + 1,
            forall|j: int| 0 <= j < at ==> !occurs_at(text@, j, pattern@),
        decreases text.len() + 1 - at,
    {
        if matches_at(text, at, pattern) {
            return true;
        }
        if at == text.len() {
            assert(forall|j: int| at < j ==> !occurs_at(text@, j, pattern@));
            return false;
        }
        at += 1;
    }
    false
}

/// `text` with every occurrence of `from` replaced by `to`, found from left to
/// right; what a replacement puts in is not searched again. The empty pattern
/// occurs before every character and at the end.
pub open spec fn replace_all(text: Seq<char>, from: Seq<char>, to: Seq<char>) -> Seq<char>
    decreases text.len(),
{
    if from.len() == 0 {
        if text.len() == 0 {
            to
        } else {
            to + seq![text.first()] + replace_all(text.drop_first(), from, to)
        }
    } else if text.len() == 0 {
        text
    } else if occurs_at(text, 0, from) {
        to + replace_all(text.skip(from.len() as int), from, to)
    } else {
        seq![text.first()] + replace_all(text.drop_first(), from, to)
    }
}

/// Computes [`replace_all`].
pub fn replace_chars(text: &Vec<char>, from: &Vec<char>, to: &Vec<char>) -> (replaced: Vec<char>)
    ensures
        replaced@ == replace_all(text@, from@, to@),
{
    let mut replaced: Vec<char> = Vec::new();
    let mut i: usize = 0;
    assert(text@.skip(0) == text@);
    while i < text.len()
        invariant
            i <= text.len(),
            replace_all(text@, from@, to@) == replaced@ + replace_all(
                text@.skip(i as int),
                from@,
                to@,
            ),
        decreases text.len() - i,
    {
        let ghost rest = text@.skip(i as int);
        let ghost before = replaced@;
        assert(rest.first() == text@[i as int]);
        assert(rest.drop_first() == text@.skip(i + 1));
        if from.len() == 0 {
            append_chars(&mut replaced, to);
            replaced.push(text[i]);
            assert(replaced@ + replace_all(text@.skip(i + 1), from@, to@) == before + (to@
                + seq![rest.first()] + replace_all(rest.drop_first(), from@, to@)));
            i += 1;
        } else if matches_at(text, i, from) {
            assert(occurs_at(rest, 0, from@)) by {
                assert(rest.subrange(0, from@.len() as int) == text@.subrange(
                    i as int,
                    i + from@.len(),
                ));
            }
            assert(rest.skip(from@.len() as int) == text@.skip(i + from@.len()));
            append_chars(&mut replaced, to);
            assert(replaced@ + replace_all(text@.skip(i + from@.len()), from@, to@) == before + (
            to@ + replace_all(rest.skip(from@.len() as int), from@, to@)));
            i += from.len();
        } else {
            assert(!occurs_at(rest, 0, from@)) by {
                if from@.len() <= rest.len() {
                    assert(rest.subrange(0, from@.len() as int) == text@.subrange(
                        i as int,
                        i + from@.len(),
                    ));
                }
            }
            replaced.push(text[i]);
            assert(replaced@ + replace_all(text@.skip(i + 1), from@, to@) == before + (
            seq![rest.first()] + replace_all(rest.drop_first(), from@, to@)));
            i += 1;
        }
    }
    assert(text@.skip(i as int).len() == 0);
    if from.len() == 0 {
        append_chars(&mut replaced, to);
    } else {
        assert(replaced@ + Seq::<char>::empty() == replaced@);
    }
    replaced
}

} // verus!
