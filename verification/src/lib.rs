//! The lexical front end of a small language that describes the layout of binary packets
//! and protocols: source text in, classified tokens out.
//!
//! Lexing runs in two passes. A `Lexer` scans the text into tokens, among them identifiers
//! in the shape of numeric literals; `_parse_number` then turns those into numbers.

pub mod chars;
pub mod error;
pub mod grammar;
pub mod keywords;
pub mod lexer;
pub mod number;
pub mod position;
pub mod text;
pub mod token;

pub use crate::error::{ErrorKind, LexError};
pub use crate::lexer::Lexer;
pub use crate::number::_parse_number;
pub use crate::token::{Token, TokenType};

use crate::chars::unicode_whitespace;
use crate::error::SpecLexError;
use crate::grammar::{
    lemma_indices_nondecreasing, lemma_scan_advances, lemma_token_places,
    lemma_whitespace_has_no_tokens, tokens_from, tokens_of,
};
use crate::number::{
    lemma_first_failure, lemma_resolution_keeps_places, outcome_view, resolved, resolved_all,
};
use crate::position::{column_of, line_of};
use crate::token::{tokens_view, SpecToken};
use vstd::prelude::*;

verus! {

/// The tokens of a text after both passes, or the failure of its first invalid numeric
/// literal.
pub open spec fn lexed(source: Seq<char>) -> Result<Seq<SpecToken>, SpecLexError> {
    resolved_all(tokens_of(source))
}

/// Lexes a whole text: scans it into tokens, then resolves the numeric literals.
pub fn lex(source: &str) -> (outcome: Result<Vec<Token>, LexError>)
    requires
        source@.len() < usize::MAX,
    ensures
        outcome_view(outcome) == lexed(source@),
{
    let mut tokens: Vec<Token> = Vec::new();
    let mut lexer = Lexer::new(source);
    loop
        invariant_except_break
            lexer@.wf(),
            lexer@.source == source@,
            tokens_view(tokens@) + tokens_from(source@, lexer@.offset()) == tokens_of(source@),
        ensures
            tokens_view(tokens@) == tokens_of(source@),
        decreases source@.len() - lexer@.offset(),
    {
        let ghost before = tokens_view(tokens@);
        let ghost offset = lexer@.offset();
        proof {
            lemma_scan_advances(source@, offset);
        }
        match lexer.next_token() {
            Some(token) => {
                tokens.push(token);
                assert(tokens_view(tokens@) =~= before + seq![token@]);
                assert(before + tokens_from(source@, offset) =~= (before + seq![token@])
                    + tokens_from(source@, lexer@.offset()));
            },
            None => {
                assert(before + tokens_from(source@, offset) =~= before);
                break ;
            },
        }
    }
    _parse_number(tokens)
}

/// A text that holds whitespace only lexes to no tokens.
pub proof fn lemma_whitespace_lexes_to_nothing(source: Seq<char>)
    requires
        forall|i: int| 0 <= i < source.len() ==> unicode_whitespace(source[i]),
    ensures
        lexed(source) == Ok::<Seq<SpecToken>, SpecLexError>(Seq::empty()),
{
    lemma_whitespace_has_no_tokens(source);
    assert(Seq::new(0, |i: int| resolved(tokens_of(source)[i])->Ok_0)
        =~= Seq::<SpecToken>::empty());
}

/// Every token that lexing yields carries the line and the column of the character at its
/// index, which lies within the text or at its end.
pub proof fn lemma_lexed_places(source: Seq<char>, i: int)
    requires
        lexed(source) is Ok,
        0 <= i < lexed(source)->Ok_0.len(),
    ensures
        lexed(source)->Ok_0[i].index <= source.len(),
        lexed(source)->Ok_0[i].line == line_of(source, lexed(source)->Ok_0[i].index as int),
        lexed(source)->Ok_0[i].column == column_of(source, lexed(source)->Ok_0[i].index as int),
{
    lemma_first_failure(tokens_of(source), 0);
    lemma_resolution_keeps_places(tokens_of(source), i);
    lemma_token_places(source, 0, i);
}

/// The indices of the tokens that lexing yields never go back from one token to a later
/// one.
pub proof fn lemma_lexed_indices_nondecreasing(source: Seq<char>, i: int, j: int)
    requires
        lexed(source) is Ok,
        0 <= i <= j < lexed(source)->Ok_0.len(),
    ensures
        lexed(source)->Ok_0[i].index <= lexed(source)->Ok_0[j].index,
{
    lemma_first_failure(tokens_of(source), 0);
    lemma_resolution_keeps_places(tokens_of(source), i);
    lemma_resolution_keeps_places(tokens_of(source), j);
    lemma_indices_nondecreasing(source, 0, i, j);
}

} // verus!
