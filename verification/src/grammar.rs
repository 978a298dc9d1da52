//! What the tokens of a text are, stated over the character sequence alone.
//!
//! Scanning is described from an offset: the offset of the character the scan stands at,
//! or the length of the text once the text is used up.

use crate::chars::{is_delimiter, is_operator, is_word_char, unicode_whitespace};
use crate::keywords::is_keyword;
use crate::position::{column_of, line_of};
use crate::token::{SpecToken, SpecTokenType};
use vstd::prelude::*;

verus! {

/// The first offset from `pos` on that holds no whitespace: the end of the text at the latest.
pub open spec fn skip_whitespace(data: Seq<char>, pos: int) -> int
    decreases data.len() - pos,
{
    if 0 <= pos < data.len() && unicode_whitespace(data[pos]) {
        skip_whitespace(data, pos + 1)
    } else {
        pos
    }
}

/// The end of the longest run of word characters that begins at `pos`.
pub open spec fn word_end(data: Seq<char>, pos: int) -> int
    decreases data.len() - pos,
{
    if 0 <= pos < data.len() && is_word_char(data[pos]) {
        word_end(data, pos + 1)
    } else {
        pos
    }
}

/// The offset of the first newline from `pos` on, or the end of the text.
pub open spec fn line_end(data: Seq<char>, pos: int) -> int
    decreases data.len() - pos,
{
    if 0 <= pos < data.len() && data[pos] != '\n' {
        line_end(data, pos + 1)
    } else {
        pos
    }
}

/// Whether a `*` stands at `pos` with a `/` right behind it.
pub open spec fn closes_block(data: Seq<char>, pos: int) -> bool {
    0 <= pos && pos + 1 < data.len() && data[pos] == '*' && data[pos + 1] == '/'
}

/// The offset of the first `*/` from `pos` on, or the end of the text.
pub open spec fn block_end(data: Seq<char>, pos: int) -> int
    decreases data.len() - pos,
{
    if 0 <= pos < data.len() && !closes_block(data, pos) {
        block_end(data, pos + 1)
    } else {
        pos
    }
}

/// Whether `//` stands at `pos`.
pub open spec fn opens_line_comment(data: Seq<char>, pos: int) -> bool {
    0 <= pos && pos + 1 < data.len() && data[pos] == '/' && data[pos + 1] == '/'
}

/// Whether `/*` stands at `pos`.
pub open spec fn opens_block_comment(data: Seq<char>, pos: int) -> bool {
    0 <= pos && pos + 1 < data.len() && data[pos] == '/' && data[pos + 1] == '*'
}

/// The offset that the scan reads from next while it stands at `pos`: one further, but
/// never beyond the end of the text.
pub open spec fn scan_offset_at(data: Seq<char>, pos: int) -> int {
    if pos + 1 <= data.len() {
        pos + 1
    } else {
        data.len() as int
    }
}

/// A token of type `token_type` made while the scan stands at `pos`. Its place is that of
/// the character the scan reads next.
pub open spec fn token_at(data: Seq<char>, token_type: SpecTokenType, pos: int) -> SpecToken {
    let anchor = scan_offset_at(data, pos);
    SpecToken {
        token_type,
        line: line_of(data, anchor),
        column: column_of(data, anchor),
        index: anchor as nat,
    }
}

/// What a run of word characters is: a keyword, a boolean, or else an identifier.
pub open spec fn classify_word(text: Seq<char>) -> SpecTokenType {
    if is_keyword(text) {
        SpecTokenType::Keyword(text)
    } else if text == "true"@ {
        SpecTokenType::Boolean(true)
    } else if text == "false"@ {
        SpecTokenType::Boolean(false)
    } else {
        SpecTokenType::Identifier(text)
    }
}

/// One step of scanning: the token found and the offset that the scan stands at afterwards.
pub struct Scan {
    pub token: SpecToken,
    pub next: int,
}

/// The token that begins at the first character from `pos` on that is no whitespace, or
/// `None` where only whitespace is left.
///
/// * `//` opens a comment that runs to the end of the line; the newline is passed over.
/// * `/*` opens a comment that runs to the next `*/`, or to the end of the text where none
///   follows; the `*/` is passed over.
/// * An operator or a delimiter is a token by itself.
/// * Anything else begins a run of word characters. A character that can begin no token
///   gives a run of length zero: an identifier without text, after which the character is
///   passed over.
///
/// A comment's and a word's token is made once the scan stands behind its text, an
/// operator's and a delimiter's while the scan still stands at it.
pub open spec fn scan_token(data: Seq<char>, pos: int) -> Option<Scan> {
    let p = skip_whitespace(data, pos);
    if p < 0 || p >= data.len() {
        None
    } else if opens_line_comment(data, p) {
        let end = line_end(data, p + 2);
        let text = data.subrange(p + 2, end);
        Some(
            Scan {
                token: token_at(data, SpecTokenType::Comment(text), end),
                next: scan_offset_at(data, end),
            },
        )
    } else if opens_block_comment(data, p) {
        let end = block_end(data, p + 2);
        let text = data.subrange(p + 2, end);
        Some(
            Scan {
                token: token_at(data, SpecTokenType::Comment(text), end),
                next: scan_offset_at(data, scan_offset_at(data, end)),
            },
        )
    } else if is_operator(data[p]) {
        Some(Scan { token: token_at(data, SpecTokenType::Operator(data[p]), p), next: p + 1 })
    } else if is_delimiter(data[p]) {
        Some(Scan { token: token_at(data, SpecTokenType::Delimiter(data[p]), p), next: p + 1 })
    } else {
        let end = word_end(data, p);
        let text = data.subrange(p, end);
        Some(
            Scan {
                token: token_at(data, classify_word(text), end),
                next: if end == p {
                    p + 1
                } else {
                    end
                },
            },
        )
    }
}

/// The tokens of `data` from offset `pos` on, in order.
pub open spec fn tokens_from(data: Seq<char>, pos: int) -> Seq<SpecToken>
    decreases data.len() - pos,
    via tokens_from_decreases
{
    match scan_token(data, pos) {
        None => Seq::empty(),
        Some(scan) => seq![scan.token] + tokens_from(data, scan.next),
    }
}

#[via_fn]
proof fn tokens_from_decreases(data: Seq<char>, pos: int) {
    lemma_scan_advances(data, pos);
}

/// The tokens of a whole text.
pub open spec fn tokens_of(data: Seq<char>) -> Seq<SpecToken> {
    tokens_from(data, 0)
}

/// Skipping whitespace stops within the text or at its end, on a character that is no
/// whitespace, and passes over whitespace only.
pub proof fn lemma_skip_whitespace(data: Seq<char>, pos: int)
    requires
        0 <= pos <= data.len(),
    ensures
        pos <= skip_whitespace(data, pos) <= data.len(),
        skip_whitespace(data, pos) < data.len() ==> !unicode_whitespace(
            data[skip_whitespace(data, pos)],
        ),
        forall|i: int| pos <= i < skip_whitespace(data, pos) ==> unicode_whitespace(data[i]),
    decreases data.len() - pos,
{
    if pos < data.len() && unicode_whitespace(data[pos]) {
        lemma_skip_whitespace(data, pos + 1);
    }
}

/// A run of word characters ends within the text or at its end, on a character that is
/// none, and holds word characters only.
pub proof fn lemma_word_end(data: Seq<char>, pos: int)
    requires
        0 <= pos <= data.len(),
    ensures
        pos <= word_end(data, pos) <= data.len(),
        word_end(data, pos) < data.len() ==> !is_word_char(data[word_end(data, pos)]),
        forall|i: int| pos <= i < word_end(data, pos) ==> is_word_char(data[i]),
    decreases data.len() - pos,
{
    if pos < data.len() && is_word_char(data[pos]) {
        lemma_word_end(data, pos + 1);
    }
}

/// A line comment's text ends at the first newline, or at the end of the text.
pub proof fn lemma_line_end(data: Seq<char>, pos: int)
    requires
        0 <= pos <= data.len(),
    ensures
        pos <= line_end(data, pos) <= data.len(),
        line_end(data, pos) < data.len() ==> data[line_end(data, pos)] == '\n',
        forall|i: int| pos <= i < line_end(data, pos) ==> data[i] != '\n',
    decreases data.len() - pos,
{
    if pos < data.len() && data[pos] != '\n' {
        lemma_line_end(data, pos + 1);
    }
}

/// A block comment's text ends at the first `*/`, or at the end of the text.
pub proof fn lemma_block_end(data: Seq<char>, pos: int)
    requires
        0 <= pos <= data.len(),
    ensures
        pos <= block_end(data, pos) <= data.len(),
        block_end(data, pos) < data.len() ==> closes_block(data, block_end(data, pos)),
        forall|i: int| pos <= i < block_end(data, pos) ==> !closes_block(data, i),
    decreases data.len() - pos,
{
    if pos < data.len() && !closes_block(data, pos) {
        lemma_block_end(data, pos + 1);
    }
}

/// Every step of scanning moves on: it ends behind the offset it began at, and within the
/// text or at its end. The token's place lies behind the step's beginning too, and no
/// further than one character behind its end.
pub proof fn lemma_scan_advances(data: Seq<char>, pos: int)
    ensures
        scan_token(data, pos) matches Some(scan) ==> {
            &&& 0 <= pos < scan.next <= data.len()
            &&& pos < scan.token.index <= scan_offset_at(data, scan.next)
        },
{
    if 0 <= pos <= data.len() {
        lemma_skip_whitespace(data, pos);
        let p = skip_whitespace(data, pos);
        if p < data.len() {
            if opens_line_comment(data, p) {
                lemma_line_end(data, p + 2);
            } else if opens_block_comment(data, p) {
                lemma_block_end(data, p + 2);
            } else {
                lemma_word_end(data, p);
            }
        }
    }
}

/// A text that holds whitespace only has no tokens.
pub proof fn lemma_whitespace_has_no_tokens(data: Seq<char>)
    requires
        forall|i: int| 0 <= i < data.len() ==> unicode_whitespace(data[i]),
    ensures
        tokens_of(data) == Seq::<SpecToken>::empty(),
{
    lemma_skip_whitespace(data, 0);
}

/// Every token of a text is one that scanning can yield, lies behind the offset that the
/// scan began at, and carries the line and the column of the character at its index.
pub proof fn lemma_token_places(data: Seq<char>, pos: int, i: int)
    requires
        0 <= pos <= data.len(),
        0 <= i < tokens_from(data, pos).len(),
    ensures
        tokens_from(data, pos)[i].token_type.is_lexical(),
        pos < tokens_from(data, pos)[i].index <= data.len(),
        tokens_from(data, pos)[i].line == line_of(data, tokens_from(data, pos)[i].index as int),
        tokens_from(data, pos)[i].column == column_of(
            data,
            tokens_from(data, pos)[i].index as int,
        ),
    decreases data.len() - pos,
{
    lemma_scan_advances(data, pos);
    let scan = scan_token(data, pos)->Some_0;
    if i > 0 {
        lemma_token_places(data, scan.next, i - 1);
    }
}

/// The indices of the tokens of a text never go back from one token to a later one.
pub proof fn lemma_indices_nondecreasing(data: Seq<char>, pos: int, i: int, j: int)
    requires
        0 <= pos <= data.len(),
        0 <= i <= j < tokens_from(data, pos).len(),
    ensures
        tokens_from(data, pos)[i].index <= tokens_from(data, pos)[j].index,
    decreases data.len() - pos,
{
    lemma_scan_advances(data, pos);
    let scan = scan_token(data, pos)->Some_0;
    if i > 0 {
        lemma_indices_nondecreasing(data, scan.next, i - 1, j - 1);
    } else if j > 0 {
        lemma_token_places(data, scan.next, j - 1);
    }
}

} // verus!
