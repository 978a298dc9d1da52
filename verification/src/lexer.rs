//! The source cursor and the tokenizer that pulls characters from it.

use crate::chars::word_char;
use crate::grammar::{
    block_end, classify_word, closes_block, line_end, lemma_skip_whitespace, scan_offset_at, scan_token,
    skip_whitespace, token_at, word_end,
};
use crate::keywords::keyword_span;
use crate::position::{column_of, lemma_line_start_bounds, lemma_position_step, line_of};
use crate::text::{span_is, span_text, to_chars};
use crate::token::{Token, TokenType};
use vstd::prelude::*;

verus! {

/// A tokenizer over one source text. It owns the decoded characters and the place the scan
/// stands at, and hands out one token per call of `next_token`.
pub struct Lexer {
    data: Vec<char>,
    line: usize,
    column: usize,
    position: usize,
    cursor: usize,
    current_char: char,
    exhausted: bool,
}

/// The model of a `Lexer`.
pub struct LexerState {
    /// The whole text.
    pub source: Seq<char>,
    /// The offset that is read next.
    pub scan_offset: nat,
    /// The offset that was read last.
    pub last_offset: nat,
    /// Line of the character at `scan_offset`.
    pub line: nat,
    /// Column of the character at `scan_offset`.
    pub column: nat,
    /// The character that was read last.
    pub current: char,
    /// Whether a read has found the text used up.
    pub exhausted: bool,
}

impl LexerState {
    /// The state before anything is read.
    pub open spec fn initial(source: Seq<char>) -> LexerState {
        LexerState {
            source,
            scan_offset: 0,
            last_offset: 0,
            line: 1,
            column: 1,
            current: '\n',
            exhausted: false,
        }
    }

    /// The counters agree with the text: line and column are those of the scan offset,
    /// and the text is marked as used up only where it is.
    pub open spec fn tracks(self) -> bool {
        &&& self.scan_offset <= self.source.len() < usize::MAX
        &&& self.line == line_of(self.source, self.scan_offset as int)
        &&& self.column == column_of(self.source, self.scan_offset as int)
        &&& self.exhausted ==> self.scan_offset == self.source.len()
    }

    /// The state of a lexer between any two calls: the counters agree with the text, and
    /// unless the text is used up the current character is the one read last, which stands
    /// just before the scan offset.
    pub open spec fn wf(self) -> bool {
        &&& self.tracks()
        &&& !self.exhausted ==> {
            &&& self.last_offset + 1 == self.scan_offset
            &&& self.current == self.source[self.last_offset as int]
        }
    }

    /// The offset of the character that the scan stands at; the length of the text once
    /// the text is used up.
    pub open spec fn offset(self) -> int {
        if self.exhausted {
            self.source.len() as int
        } else {
            self.last_offset as int
        }
    }

    /// The state after one read. With nothing left to read only the mark changes. Else the
    /// character at the scan offset becomes the current one; a newline begins a new line
    /// at column 0; then offset and column move on by one.
    pub open spec fn advance(self) -> LexerState {
        if self.scan_offset >= self.source.len() {
            LexerState { exhausted: true, ..self }
        } else {
            let c = self.source[self.scan_offset as int];
            LexerState {
                source: self.source,
                scan_offset: self.scan_offset + 1,
                last_offset: self.scan_offset,
                line: if c == '\n' {
                    self.line + 1
                } else {
                    self.line
                },
                column: if c == '\n' {
                    1
                } else {
                    self.column + 1
                },
                current: c,
                exhausted: self.exhausted,
            }
        }
    }

    /// The character at the scan offset, if there is one.
    pub open spec fn peek(self) -> Option<char> {
        if self.scan_offset < self.source.len() {
            Some(self.source[self.scan_offset as int])
        } else {
            None
        }
    }

    /// A read keeps the counters in agreement with the text, and moves the scan from the
    /// character it stands at to the next, or to the end of the text.
    pub proof fn lemma_advance(self)
        requires
            self.tracks(),
        ensures
            self.advance().wf(),
            self.advance().source == self.source,
            self.wf() ==> self.advance().offset() == scan_offset_at(self.source, self.offset()),
            self.wf() ==> self.scan_offset == scan_offset_at(self.source, self.offset()),
    {
        if self.scan_offset < self.source.len() {
            lemma_position_step(self.source, self.scan_offset as int);
        }
    }
}

impl View for Lexer {
    type V = LexerState;

    closed spec fn view(&self) -> LexerState {
        LexerState {
            source: self.data@,
            scan_offset: self.cursor as nat,
            last_offset: self.position as nat,
            line: self.line as nat,
            column: self.column as nat,
            current: self.current_char,
            exhausted: self.exhausted,
        }
    }
}

/// The type of the word `data[start..end]`, whose text is `text`.
fn classify(data: &Vec<char>, start: usize, end: usize, text: String) -> (token_type: TokenType)
    requires
        start <= end <= data.len(),
        text@ == data@.subrange(start as int, end as int),
    ensures
        token_type@ == classify_word(text@),
{
    if keyword_span(data, start, end) {
        TokenType::Keyword(text)
    } else if span_is(data, start, end, "true") {
        TokenType::Boolean(true)
    } else if span_is(data, start, end, "false") {
        TokenType::Boolean(false)
    } else {
        TokenType::Identifier(text)
    }
}

impl Lexer {
    /// A lexer that stands at the first character of `source`.
    pub fn new(source: &str) -> (lexer: Lexer)
        requires
            source@.len() < usize::MAX,
        ensures
            lexer@ == LexerState::initial(source@).advance(),
            lexer@.wf(),
            lexer@.source == source@,
            lexer@.offset() == 0,
    {
        let mut lexer = Lexer {
            data: to_chars(source),
            line: 1,
            column: 1,
            position: 0,
            cursor: 0,
            current_char: '\n',
            exhausted: false,
        };
        proof {
            LexerState::initial(source@).lemma_advance();
        }
        lexer._readchar();
        lexer
    }

    /// A token of the given type at the place the scan stands at.
    pub fn _new_token(&self, token_type: TokenType) -> (token: Token)
        requires
            self@.wf(),
        ensures
            token.token_type == token_type,
            token@ == token_at(self@.source, token_type@, self@.offset()),
    {
        proof {
            self@.lemma_advance();
        }
        Token { token_type, line: self.line, column: self.column, index: self.cursor }
    }

    /// Reads one character. Returns whether there was one to read.
    pub fn _readchar(&mut self) -> (more: bool)
        requires
            old(self)@.tracks(),
        ensures
            final(self)@ == old(self)@.advance(),
            final(self)@.wf(),
            more == (old(self)@.scan_offset < old(self)@.source.len()),
    {
        proof {
            self@.lemma_advance();
            lemma_line_start_bounds(self@.source, self@.scan_offset as int);
        }
        if self.cursor >= self.data.len() {
            self.exhausted = true;
            return false;
        }
        self.current_char = self.data[self.cursor];
        if self.current_char == '\n' {
            self.line += 1;
            self.column = 0;
        }
        self.position = self.cursor;
        self.cursor += 1;
        self.column += 1;
        true
    }

    /// Reads on until the scan stands at a character that is no whitespace. Returns
    /// whether there is such a character.
    pub fn _skip_whitespace(&mut self) -> (more: bool)
        requires
            old(self)@.wf(),
        ensures
            final(self)@.wf(),
            final(self)@.source == old(self)@.source,
            final(self)@.offset() == skip_whitespace(old(self)@.source, old(self)@.offset()),
            more == (final(self)@.offset() < final(self)@.source.len()),
    {
        while !self.exhausted && self.current_char.is_whitespace()
            invariant
                self@.wf(),
                self@.source == old(self)@.source,
                skip_whitespace(self@.source, self@.offset()) == skip_whitespace(
                    old(self)@.source,
                    old(self)@.offset(),
                ),
            decreases self@.source.len() - self@.offset(),
        {
            proof {
                self@.lemma_advance();
            }
            self._readchar();
        }
        !self.exhausted
    }

    /// Reads the run of word characters that begins where the scan stands, and returns
    /// its text.
    pub fn _read_identifier(&mut self) -> (text: String)
        requires
            old(self)@.wf(),
        ensures
            final(self)@.wf(),
            final(self)@.source == old(self)@.source,
            final(self)@.offset() == word_end(old(self)@.source, old(self)@.offset()),
            old(self)@.offset() <= final(self)@.offset(),
            text@ == old(self)@.source.subrange(old(self)@.offset(), final(self)@.offset()),
    {
        let start = self.here();
        while !self.exhausted && word_char(self.current_char)
            invariant
                self@.wf(),
                self@.source == old(self)@.source,
                start == old(self)@.offset(),
                start <= self@.offset(),
                word_end(self@.source, self@.offset()) == word_end(
                    old(self)@.source,
                    old(self)@.offset(),
                ),
            decreases self@.source.len() - self@.offset(),
        {
            proof {
                self@.lemma_advance();
            }
            self._readchar();
        }
        span_text(&self.data, start, self.here())
    }

    /// The character that would be read next, if there is one. The scan does not move.
    pub fn _nextchar(&self) -> (next: Option<char>)
        ensures
            next == self@.peek(),
    {
        if self.cursor >= self.data.len() {
            return None;
        }
        Some(self.data[self.cursor])
    }

    /// The offset of the character that the scan stands at.
    fn here(&self) -> (offset: usize)
        requires
            self@.wf(),
        ensures
            offset == self@.offset(),
            offset <= self@.source.len(),
    {
        if self.exhausted {
            self.cursor
        } else {
            self.position
        }
    }

    /// Whether the scan stands at the `*` of a `*/`.
    fn at_block_end(&self) -> (closes: bool)
        requires
            self@.wf(),
        ensures
            closes == closes_block(self@.source, self@.offset()),
    {
        if self.exhausted || self.current_char != '*' {
            false
        } else {
            match self._nextchar() {
                Some(c) => c == '/',
                None => false,
            }
        }
    }

    /// The next token, or `None` when only whitespace is left.
    pub fn next_token(&mut self) -> (token: Option<Token>)
        requires
            old(self)@.wf(),
        ensures
            final(self)@.wf(),
            final(self)@.source == old(self)@.source,
            match scan_token(old(self)@.source, old(self)@.offset()) {
                Some(scan) => token matches Some(t) && t@ == scan.token && final(self)@.offset()
                    == scan.next,
                None => token is None && final(self)@.offset() == old(self)@.source.len(),
            },
    {
        proof {
            lemma_skip_whitespace(self@.source, self@.offset());
        }
        if !self._skip_whitespace() {
            return None;
        }
        let token;
        match self.current_char {
            '/' => match self._nextchar() {
                Some('/') => {
                    self._readchar();
                    self._readchar();
                    let start = self.here();
                    while !self.exhausted && self.current_char != '\n'
                        invariant
                            self@.wf(),
                            self@.source == old(self)@.source,
                            start <= self@.offset(),
                            line_end(self@.source, self@.offset()) == line_end(
                                self@.source,
                                start as int,
                            ),
                        decreases self@.source.len() - self@.offset(),
                    {
                        proof {
                            self@.lemma_advance();
                        }
                        self._readchar();
                    }
                    let text = span_text(&self.data, start, self.here());
                    token = self._new_token(TokenType::Comment(text));
                    proof {
                        self@.lemma_advance();
                    }
                    self._readchar();
                },
                Some('*') => {
                    self._readchar();
                    self._readchar();
                    let start = self.here();
                    while !self.exhausted && !self.at_block_end()
                        invariant
                            self@.wf(),
                            self@.source == old(self)@.source,
                            start <= self@.offset(),
                            block_end(self@.source, self@.offset()) == block_end(
                                self@.source,
                                start as int,
                            ),
                        decreases self@.source.len() - self@.offset(),
                    {
                        proof {
                            self@.lemma_advance();
                        }
                        self._readchar();
                    }
                    let text = span_text(&self.data, start, self.here());
                    token = self._new_token(TokenType::Comment(text));
                    proof {
                        self@.lemma_advance();
                    }
                    self._readchar();
                    proof {
                        self@.lemma_advance();
                    }
                    self._readchar();
                },
                _ => {
                    token = self._new_token(TokenType::Operator('/'));
                    proof {
                        self@.lemma_advance();
                    }
                    self._readchar();
                },
            },
            '+' | '-' | '*' | '%' | '=' | '<' | '>' | '!' | '&' | '|' | '^' | '~' => {
                token = self._new_token(TokenType::Operator(self.current_char));
                proof {
                    self@.lemma_advance();
                }
                self._readchar();
            },
            '{' | '}' | '(' | ')' | '[' | ']' | ';' => {
                token = self._new_token(TokenType::Delimiter(self.current_char));
                proof {
                    self@.lemma_advance();
                }
                self._readchar();
            },
            _ => {
                let start = self.here();
                let identifier = self._read_identifier();
                let end = self.here();
                token = self._new_token(classify(&self.data, start, end, identifier));
                if end == start {
                    proof {
                        self@.lemma_advance();
                    }
                    self._readchar();
                }
            },
        }
        Some(token)
    }
}

} // verus!
