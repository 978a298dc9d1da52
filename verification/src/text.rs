//! Moving between strings and the character buffers that scanning works on.

use vstd::prelude::*;

verus! {

/// Trusted: `String::push` appends the one character to the end of the string.
pub assume_specification[ String::push ](s: &mut String, ch: char)
    ensures
        final(s)@ == old(s)@.push(ch),
;

/// Decodes a string into its characters.
pub fn to_chars(s: &str) -> (chars: Vec<char>)
    ensures
        chars@ == s@,
{
    let mut chars: Vec<char> = Vec::new();
    for c in it: s.chars()
        invariant
            chars@ == it.seq().take(it.index()),
    {
        chars.push(c);
    }
    chars
}

/// Copies the characters `data[start..end]` into a string.
pub fn span_text(data: &Vec<char>, start: usize, end: usize) -> (text: String)
    requires
        start <= end <= data.len(),
    ensures
        text@ == data@.subrange(start as int, end as int),
{
    let mut text = String::new();
    let mut i: usize = start;
    while i < end
        invariant
            start <= i <= end <= data.len(),
            text@ == data@.subrange(start as int, i as int),
        decreases end - i,
    {
        text.push(data[i]);
        i += 1;
    }
    text
}

/// Whether the characters `data[start..end]` spell `word`.
pub fn span_is(data: &Vec<char>, start: usize, end: usize, word: &str) -> (same: bool)
    requires
        start <= end <= data.len(),
    ensures
        same == (data@.subrange(start as int, end as int) == word@),
{
    let ghost span = data@.subrange(start as int, end as int);
    let mut i: usize = start;
    for c in it: word.chars()
        invariant
            start <= end <= data.len(),
            span == data@.subrange(start as int, end as int),
            i == start + it.index(),
            i <= end,
            it.seq() == word@,
            forall|j: int| 0 <= j < it.index() ==> span[j] == word@[j],
    {
        if i >= end || data[i] != c {
            assert(span != word@);
            return false;
        }
        i += 1;
    }
    assert(i < end ==> span.len() != word@.len());
    assert(i == end ==> span =~= word@);
    i == end
}

} // verus!
