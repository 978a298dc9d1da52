//! Tokens and the mathematical values that contracts speak of.

use crate::chars::{is_delimiter, is_operator};
use crate::keywords::is_keyword;
use vstd::prelude::*;

verus! {

/// What a token is.
#[derive(Debug, Clone, PartialEq, Eq)]
pub enum TokenType {
    Identifier(String),
    Boolean(bool),
    Number(u64),
    Operator(char),
    Delimiter(char),
    Keyword(String),
    Comment(String),
    /// The end-of-input sentinel. Scanning never yields it: the end of the input shows as
    /// the absence of a further token.
    EOF,
}

/// A token with the place it was made at.
#[derive(Debug, Clone, PartialEq, Eq)]
pub struct Token {
    pub token_type: TokenType,
    /// 1-based line of the character at `index`.
    pub line: usize,
    /// 1-based column of the character at `index`.
    pub column: usize,
    /// 0-based offset of the character the scan stood at when the token was made.
    pub index: usize,
}

/// The model of a `TokenType`: text is a sequence of characters.
pub enum SpecTokenType {
    Identifier(Seq<char>),
    Boolean(bool),
    Number(u64),
    Operator(char),
    Delimiter(char),
    Keyword(Seq<char>),
    Comment(Seq<char>),
    EOF,
}

/// The model of a `Token`.
pub struct SpecToken {
    pub token_type: SpecTokenType,
    pub line: nat,
    pub column: nat,
    pub index: nat,
}

impl View for TokenType {
    type V = SpecTokenType;

    open spec fn view(&self) -> SpecTokenType {
        match *self {
            TokenType::Identifier(text) => SpecTokenType::Identifier(text@),
            TokenType::Boolean(value) => SpecTokenType::Boolean(value),
            TokenType::Number(value) => SpecTokenType::Number(value),
            TokenType::Operator(c) => SpecTokenType::Operator(c),
            TokenType::Delimiter(c) => SpecTokenType::Delimiter(c),
            TokenType::Keyword(text) => SpecTokenType::Keyword(text@),
            TokenType::Comment(text) => SpecTokenType::Comment(text@),
            TokenType::EOF => SpecTokenType::EOF,
        }
    }
}

impl View for Token {
    type V = SpecToken;

    open spec fn view(&self) -> SpecToken {
        SpecToken {
            token_type: self.token_type@,
            line: self.line as nat,
            column: self.column as nat,
            index: self.index as nat,
        }
    }
}

impl SpecTokenType {
    /// What holds of every token that scanning yields: operators and delimiters come from
    /// their fixed sets, keywords from the vocabulary, and the sentinel does not occur.
    pub open spec fn is_lexical(self) -> bool {
        match self {
            SpecTokenType::Operator(c) => is_operator(c),
            SpecTokenType::Delimiter(c) => is_delimiter(c),
            SpecTokenType::Keyword(text) => is_keyword(text),
            SpecTokenType::EOF => false,
            _ => true,
        }
    }
}

/// The models of a sequence of tokens, in order.
pub open spec fn tokens_view(tokens: Seq<Token>) -> Seq<SpecToken> {
    Seq::new(tokens.len(), |i: int| tokens[i]@)
}

} // verus!
