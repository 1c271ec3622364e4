//! Strings as sequences of characters.

use vstd::prelude::*;
use vstd::string::StringExecFns;

verus! {

/// `String::push`: appends one character.
pub assume_specification[ String::push ](s: &mut String, c: char)
    ensures
        final(s)@ == old(s)@.push(c),
;

/// The characters of `s`, in order.
pub fn chars_of(s: &str) -> (chars: Vec<char>)
    ensures
        chars@ == s@,
{
    let mut chars: Vec<char> = Vec::new();
    for c in iter: s.chars()
        invariant
            iter.seq() == s@,
            chars@ == iter.seq().take(iter.index() as int),
    {
        chars.push(c);
    }
    chars
}

/// The string made of the characters of `chars` from `from` up to `to`.
pub fn string_of(chars: &Vec<char>, from: usize, to: usize) -> (s: String)
    requires
        from <= to <= chars.len(),
    ensures
        s@ == chars@.subrange(from as int, to as int),
{
    let mut s = String::new();
    let mut i: usize = from;
    while i < to
        invariant
            from <= i <= to <= chars.len(),
            s@ == chars@.subrange(from as int, i as int),
        decreases to - i,
    {
        s.push(chars[i]);
        i += 1;
    }
    s
}

/// Where the first `sep` stands in `text`, or the length of `text` if it holds none.
pub open spec fn first_break(text: Seq<char>, sep: char) -> nat
    decreases text.len(),
{
    if text.len() == 0 || text[0] == sep {
        0
    } else {
        1 + first_break(text.skip(1), sep)
    }
}

/// The first break is the one position that holds `sep`, or the end, with no `sep` before
/// it.
pub proof fn lemma_first_break(text: Seq<char>, sep: char, at: int)
    requires
        0 <= at <= text.len(),
        forall|j: int| 0 <= j < at ==> text[j] != sep,
        at < text.len() ==> text[at] == sep,
    ensures
        first_break(text, sep) == at,
    decreases text.len(),
{
    if text.len() > 0 && text[0] != sep {
        lemma_first_break(text.skip(1), sep, at - 1);
    }
}

/// What the first break promises: it lies within the text, nothing before it is `sep`, and
/// unless it is the end it holds `sep`.
pub proof fn lemma_first_break_is_break(text: Seq<char>, sep: char)
    ensures
        first_break(text, sep) <= text.len(),
        forall|j: int| 0 <= j < first_break(text, sep) ==> text[j] != sep,
        first_break(text, sep) < text.len() ==> text[first_break(text, sep) as int] == sep,
    decreases text.len(),
{
    if text.len() > 0 && text[0] != sep {
        let rest = text.skip(1);
        lemma_first_break_is_break(rest, sep);
        assert forall|j: int| 0 <= j < first_break(text, sep) implies text[j] != sep by {
            if j > 0 {
                assert(rest[j - 1] == text[j]);
            }
        }
    }
}

/// The position of the first `sep` in `chars` at or after `from`, or the length of `chars`.
pub fn find_char(chars: &Vec<char>, from: usize, sep: char) -> (at: usize)
    requires
        from <= chars.len(),
    ensures
        from <= at <= chars.len(),
        at - from == first_break(chars@.skip(from as int), sep),
{
    let mut at: usize = from;
    while at < chars.len() && chars[at] != sep
        invariant
            from <= at <= chars.len(),
            forall|j: int| from <= j < at ==> chars@[j] != sep,
        decreases chars.len() - at,
    {
        at += 1;
    }
    proof {
        lemma_first_break(chars@.skip(from as int), sep, at - from);
    }
    at
}

/// What follows `prefix` in `text`, if `text` begins with it.
pub fn strip_prefix(text: &str, prefix: &str) -> (rest: Option<String>)
    ensures
        match rest {
            Some(rest) => prefix@.is_prefix_of(text@) && rest@ == text@.skip(prefix@.len() as int),
            None => !prefix@.is_prefix_of(text@),
        },
{
    let chars = chars_of(text);
    let head = chars_of(prefix);
    if head.len() > chars.len() {
        return None;
    }
    let mut i: usize = 0;
    while i < head.len()
        invariant
            i <= head.len() <= chars.len(),
            chars@ == text@,
            head@ == prefix@,
            forall|j: int| 0 <= j < i ==> chars@[j] == head@[j],
        decreases head.len() - i,
    {
        if chars[i] != head[i] {
            return None;
        }
        i += 1;
    }
    Some(string_of(&chars, head.len(), chars.len()))
}

/// The decimal digits of a number, without leading zeros.
pub open spec fn decimal(n: nat) -> Seq<char>
    decreases n,
{
    if n < 10 {
        seq![(0x30 + n) as u8 as char]
    } else {
        decimal(n / 10).push((0x30 + n % 10) as u8 as char)
    }
}

/// Appends the decimal digits of `n`.
pub fn push_decimal(s: &mut String, n: u32)
    ensures
        final(s)@ == old(s)@ + decimal(n as nat),
    decreases n,
{
    if n >= 10 {
        push_decimal(s, n / 10);
    }
    let digit = (0x30 + (n % 10) as u8) as char;
    s.push(digit);
}

/// The pieces of a text between its separators `sep`, in order. A text without a separator
/// is one piece.
pub open spec fn pieces(text: Seq<char>, sep: char) -> Seq<Seq<char>>
    decreases text.len(),
{
    let at = first_break(text, sep);
    if at >= text.len() {
        seq![text]
    } else {
        seq![text.take(at as int)] + pieces(text.skip(at as int + 1), sep)
    }
}

/// The texts of a list of strings.
pub open spec fn texts(names: Seq<String>) -> Seq<Seq<char>> {
    names.map_values(|name: String| name@)
}

/// Splits a text at every `sep`.
pub fn split(text: &str, sep: char) -> (parts: Vec<String>)
    ensures
        texts(parts@) == pieces(text@, sep),
{
    let chars = chars_of(text);
    let mut parts: Vec<String> = Vec::new();
    let mut i: usize = 0;
    assert(chars@.skip(0) =~= chars@);
    loop
        invariant
            i <= chars.len(),
            chars@ == text@,
            texts(parts@) + pieces(chars@.skip(i as int), sep) == pieces(chars@, sep),
        decreases chars.len() - i,
    {
        let ghost rest = chars@.skip(i as int);
        let at = find_char(&chars, i, sep);
        let piece = string_of(&chars, i, at);
        assert(piece@ =~= rest.take(at - i));
        parts.push(piece);
        if at == chars.len() {
            return parts;
        }
        assert(rest.skip(at - i + 1) =~= chars@.skip(at + 1));
        i = at + 1;
    }
}

/// Whether `text` ends with `suffix`.
pub open spec fn ends_with(text: Seq<char>, suffix: Seq<char>) -> bool {
    suffix.len() <= text.len() && text.skip(text.len() - suffix.len()) == suffix
}

/// The text without `suffix` at its end, if it ends with it, else the text as it is.
pub fn strip_suffix(text: String, suffix: &str) -> (stripped: String)
    ensures
        stripped@ == if ends_with(text@, suffix@) {
            text@.take(text@.len() - suffix@.len())
        } else {
            text@
        },
{
    let chars = chars_of(text.as_str());
    let tail = chars_of(suffix);
    if tail.len() > chars.len() {
        return text;
    }
    let start: usize = chars.len() - tail.len();
    let mut i: usize = 0;
    while i < tail.len()
        invariant
            i <= tail.len(),
            start + tail.len() == chars.len(),
            chars@ == text@,
            tail@ == suffix@,
            forall|j: int| 0 <= j < i ==> chars@[start + j] == tail@[j],
        decreases tail.len() - i,
    {
        if chars[start + i] != tail[i] {
            return text;
        }
        i += 1;
    }
    assert(text@.skip(start as int) =~= suffix@);
    string_of(&chars, 0, start)
}

/// Whether two texts are the same.
pub fn same_text(a: &str, b: &str) -> (same: bool)
    ensures
        same == (a@ == b@),
{
    let a = String::from_str(a);
    let b = String::from_str(b);
    a == b
}

} // verus!
