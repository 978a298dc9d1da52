//! Numeric literals: the digits of a base, their value, and the pass that turns
//! identifier-shaped literals into numbers.

use crate::error::{ErrorKind, LexError, SpecLexError};
use crate::text::to_chars;
use crate::token::{tokens_view, SpecToken, SpecTokenType, Token, TokenType};
use vstd::prelude::*;

verus! {

/// The value of `c` as a digit: `0` to `9`, then the letters of either case from 10 on.
pub open spec fn digit_value(c: char) -> Option<int> {
    if '0' <= c <= '9' {
        Some(c as int - '0' as int)
    } else if 'a' <= c <= 'z' {
        Some(c as int - 'a' as int + 10)
    } else if 'A' <= c <= 'Z' {
        Some(c as int - 'A' as int + 10)
    } else {
        None
    }
}

/// Whether `c` is a digit of base `radix`.
pub open spec fn is_digit(c: char, radix: int) -> bool {
    digit_value(c) matches Some(d) && d < radix
}

/// Whether `text` holds digits of base `radix` only.
pub open spec fn all_digits(text: Seq<char>, radix: int) -> bool {
    forall|i: int| 0 <= i < text.len() ==> is_digit(#[trigger] text[i], radix)
}

/// The number that the digits `text` denote in base `radix`, most significant digit first.
pub open spec fn digits_value(text: Seq<char>, radix: int) -> int
    decreases text.len(),
{
    if text.len() == 0 {
        0
    } else {
        digits_value(text.drop_last(), radix) * radix + digit_value(text.last()).unwrap()
    }
}

/// The 64-bit number that `text` denotes in base `radix`, or why it denotes none.
pub open spec fn parsed_digits(text: Seq<char>, radix: int) -> Result<u64, ErrorKind> {
    if text.len() == 0 {
        Err(ErrorKind::Empty)
    } else if !all_digits(text, radix) {
        Err(ErrorKind::InvalidDigit)
    } else if digits_value(text, radix) > u64::MAX {
        Err(ErrorKind::Overflow)
    } else {
        Ok(digits_value(text, radix) as u64)
    }
}

/// Whether `text` begins with `0` and the base marker `marker`.
pub open spec fn has_prefix(text: Seq<char>, marker: char) -> bool {
    text.len() >= 2 && text[0] == '0' && text[1] == marker
}

/// What an identifier's text denotes where it has the shape of a numeric literal: behind
/// `0x` a base-16 number, behind `0b` a base-2 number, and from a decimal digit on a
/// base-10 number. `None` where the text has no such shape.
pub open spec fn literal_value(text: Seq<char>) -> Option<Result<u64, ErrorKind>> {
    if has_prefix(text, 'x') {
        Some(parsed_digits(text.skip(2), 16))
    } else if has_prefix(text, 'b') {
        Some(parsed_digits(text.skip(2), 2))
    } else if text.len() > 0 && is_digit(text[0], 10) {
        Some(parsed_digits(text, 10))
    } else {
        None
    }
}

/// One token after resolution. An identifier in the shape of a numeric literal becomes a
/// number at the same place, or fails; every other token stays as it is.
pub open spec fn resolved(token: SpecToken) -> Result<SpecToken, SpecLexError> {
    match token.token_type {
        SpecTokenType::Identifier(text) => match literal_value(text) {
            Some(Ok(value)) => Ok(SpecToken { token_type: SpecTokenType::Number(value), ..token }),
            Some(Err(kind)) => Err(
                SpecLexError { kind, line: token.line, column: token.column, index: token.index },
            ),
            None => Ok(token),
        },
        _ => Ok(token),
    }
}

/// The index of the first token from `from` on that fails to resolve, or the number of
/// tokens where none fails.
pub open spec fn first_failure(tokens: Seq<SpecToken>, from: int) -> int
    decreases tokens.len() - from,
{
    if 0 <= from < tokens.len() && resolved(tokens[from]) is Ok {
        first_failure(tokens, from + 1)
    } else {
        from
    }
}

/// A sequence of tokens after resolution: all of them resolved, in order, or else the
/// failure of the first that fails.
pub open spec fn resolved_all(tokens: Seq<SpecToken>) -> Result<Seq<SpecToken>, SpecLexError> {
    let failure = first_failure(tokens, 0);
    if failure < tokens.len() {
        Err(resolved(tokens[failure])->Err_0)
    } else {
        Ok(Seq::new(tokens.len(), |i: int| resolved(tokens[i])->Ok_0))
    }
}

/// The model of what resolution hands back.
pub open spec fn outcome_view(outcome: Result<Vec<Token>, LexError>) -> Result<
    Seq<SpecToken>,
    SpecLexError,
> {
    match outcome {
        Ok(tokens) => Ok(tokens_view(tokens@)),
        Err(error) => Err(error@),
    }
}

/// The first failure is the first index that fails: everything before it resolves.
pub proof fn lemma_first_failure(tokens: Seq<SpecToken>, from: int)
    requires
        0 <= from <= tokens.len(),
    ensures
        from <= first_failure(tokens, from) <= tokens.len(),
        first_failure(tokens, from) < tokens.len() ==> resolved(
            tokens[first_failure(tokens, from)],
        ) is Err,
        forall|i: int| from <= i < first_failure(tokens, from) ==> resolved(tokens[i]) is Ok,
    decreases tokens.len() - from,
{
    if from < tokens.len() && resolved(tokens[from]) is Ok {
        lemma_first_failure(tokens, from + 1);
    }
}

/// Where everything from `from` up to `stop` resolves and `stop` does not (or is the end),
/// `stop` is the first failure.
pub proof fn lemma_first_failure_is(tokens: Seq<SpecToken>, from: int, stop: int)
    requires
        0 <= from <= stop <= tokens.len(),
        forall|i: int| from <= i < stop ==> resolved(tokens[i]) is Ok,
        stop < tokens.len() ==> resolved(tokens[stop]) is Err,
    ensures
        first_failure(tokens, from) == stop,
    decreases stop - from,
{
    if from < stop {
        lemma_first_failure_is(tokens, from + 1, stop);
    }
}

/// A hexadecimal literal that fits 64 bits resolves to the number it denotes, at the place
/// of its token.
pub proof fn lemma_hex_literal_resolves(token: SpecToken, digits: Seq<char>)
    requires
        token.token_type == SpecTokenType::Identifier(seq!['0', 'x'] + digits),
        digits.len() > 0,
        all_digits(digits, 16),
        digits_value(digits, 16) <= u64::MAX,
    ensures
        resolved(token) == Ok::<SpecToken, SpecLexError>(
            SpecToken {
                token_type: SpecTokenType::Number(digits_value(digits, 16) as u64),
                ..token
            },
        ),
{
    assert((seq!['0', 'x'] + digits).skip(2) =~= digits);
}

/// A binary literal that fits 64 bits resolves to the number it denotes, at the place of
/// its token.
pub proof fn lemma_binary_literal_resolves(token: SpecToken, digits: Seq<char>)
    requires
        token.token_type == SpecTokenType::Identifier(seq!['0', 'b'] + digits),
        digits.len() > 0,
        all_digits(digits, 2),
        digits_value(digits, 2) <= u64::MAX,
    ensures
        resolved(token) == Ok::<SpecToken, SpecLexError>(
            SpecToken {
                token_type: SpecTokenType::Number(digits_value(digits, 2) as u64),
                ..token
            },
        ),
{
    assert((seq!['0', 'b'] + digits).skip(2) =~= digits);
}

/// A decimal literal that fits 64 bits resolves to the number it denotes, at the place of
/// its token.
pub proof fn lemma_decimal_literal_resolves(token: SpecToken, digits: Seq<char>)
    requires
        token.token_type == SpecTokenType::Identifier(digits),
        digits.len() > 0,
        all_digits(digits, 10),
        digits_value(digits, 10) <= u64::MAX,
    ensures
        resolved(token) == Ok::<SpecToken, SpecLexError>(
            SpecToken {
                token_type: SpecTokenType::Number(digits_value(digits, 10) as u64),
                ..token
            },
        ),
{
    assert(is_digit(digits[0], 10));
    if digits.len() >= 2 {
        assert(is_digit(digits[1], 10));
    }
}

/// One token that does not resolve fails the whole sequence.
pub proof fn lemma_failure_spreads(tokens: Seq<SpecToken>, i: int)
    requires
        0 <= i < tokens.len(),
        resolved(tokens[i]) is Err,
    ensures
        resolved_all(tokens) is Err,
{
    lemma_first_failure(tokens, 0);
}

/// A hexadecimal literal without digits, with a character that is no hexadecimal digit, or
/// with a value beyond 64 bits does not resolve, and fails every sequence that holds it.
pub proof fn lemma_invalid_hex_literal_fails(tokens: Seq<SpecToken>, i: int, digits: Seq<char>)
    requires
        0 <= i < tokens.len(),
        tokens[i].token_type == SpecTokenType::Identifier(seq!['0', 'x'] + digits),
        digits.len() == 0 || !all_digits(digits, 16) || digits_value(digits, 16) > u64::MAX,
    ensures
        resolved(tokens[i]) is Err,
        resolved_all(tokens) is Err,
{
    assert((seq!['0', 'x'] + digits).skip(2) =~= digits);
    lemma_failure_spreads(tokens, i);
}

/// A binary literal without digits, with a character that is no binary digit, or with a
/// value beyond 64 bits does not resolve, and fails every sequence that holds it.
pub proof fn lemma_invalid_binary_literal_fails(tokens: Seq<SpecToken>, i: int, digits: Seq<char>)
    requires
        0 <= i < tokens.len(),
        tokens[i].token_type == SpecTokenType::Identifier(seq!['0', 'b'] + digits),
        digits.len() == 0 || !all_digits(digits, 2) || digits_value(digits, 2) > u64::MAX,
    ensures
        resolved(tokens[i]) is Err,
        resolved_all(tokens) is Err,
{
    assert((seq!['0', 'b'] + digits).skip(2) =~= digits);
    lemma_failure_spreads(tokens, i);
}

/// Text that begins with a decimal digit and has no base prefix, but holds a character
/// that is no decimal digit or denotes a value beyond 64 bits, does not resolve, and fails
/// every sequence that holds it.
pub proof fn lemma_invalid_decimal_literal_fails(tokens: Seq<SpecToken>, i: int, text: Seq<char>)
    requires
        0 <= i < tokens.len(),
        tokens[i].token_type == SpecTokenType::Identifier(text),
        text.len() > 0,
        is_digit(text[0], 10),
        !has_prefix(text, 'x'),
        !has_prefix(text, 'b'),
        !all_digits(text, 10) || digits_value(text, 10) > u64::MAX,
    ensures
        resolved(tokens[i]) is Err,
        resolved_all(tokens) is Err,
{
    lemma_failure_spreads(tokens, i);
}

/// Resolution keeps the number of tokens and the place of each. A token either stays as
/// it is, or is an identifier that becomes a number.
pub proof fn lemma_resolution_keeps_places(tokens: Seq<SpecToken>, i: int)
    requires
        resolved_all(tokens) is Ok,
        0 <= i < tokens.len(),
    ensures
        resolved_all(tokens)->Ok_0.len() == tokens.len(),
        resolved_all(tokens)->Ok_0[i].line == tokens[i].line,
        resolved_all(tokens)->Ok_0[i].column == tokens[i].column,
        resolved_all(tokens)->Ok_0[i].index == tokens[i].index,
        resolved_all(tokens)->Ok_0[i] == tokens[i] || (tokens[i].token_type is Identifier
            && resolved_all(tokens)->Ok_0[i].token_type is Number),
{
    lemma_first_failure(tokens, 0);
}

/// One more digit: the value so far moves up by one place and the digit is added.
proof fn lemma_digits_value_push(text: Seq<char>, c: char, radix: int)
    requires
        2 <= radix,
        all_digits(text, radix),
        is_digit(c, radix),
    ensures
        all_digits(text.push(c), radix),
        digits_value(text.push(c), radix) == digits_value(text, radix) * radix + digit_value(
            c,
        ).unwrap(),
        0 <= digits_value(text, radix) <= digits_value(text.push(c), radix),
    decreases text.len(),
{
    assert(text.push(c).drop_last() =~= text);
    assert(text.push(c).last() == c);
    lemma_digits_value_nonnegative(text, radix);
    let v = digits_value(text, radix);
    assert(v * radix >= v) by (nonlinear_arith)
        requires
            v >= 0,
            radix >= 2,
    ;
}

/// A value is never negative.
proof fn lemma_digits_value_nonnegative(text: Seq<char>, radix: int)
    requires
        2 <= radix,
        all_digits(text, radix),
    ensures
        0 <= digits_value(text, radix),
    decreases text.len(),
{
    if text.len() > 0 {
        lemma_digits_value_nonnegative(text.drop_last(), radix);
        let v = digits_value(text.drop_last(), radix);
        assert(v * radix >= 0) by (nonlinear_arith)
            requires
                v >= 0,
                radix >= 2,
        ;
        assert(is_digit(text[text.len() - 1], radix));
    }
}

/// The value of `c` as a digit of base `radix`, if it is one.
pub fn digit(c: char, radix: u64) -> (value: Option<u64>)
    requires
        2 <= radix <= 36,
    ensures
        value is Some <==> is_digit(c, radix as int),
        value matches Some(d) ==> Some(d as int) == digit_value(c),
{
    let code: u32 = c as u32;
    let found: u64 = if '0' <= c && c <= '9' {
        (code - '0' as u32) as u64
    } else if 'a' <= c && c <= 'z' {
        (code - 'a' as u32) as u64 + 10
    } else if 'A' <= c && c <= 'Z' {
        (code - 'A' as u32) as u64 + 10
    } else {
        radix
    };
    if found < radix {
        Some(found)
    } else {
        None
    }
}

/// Reads `digits[start..]` as a number of base `radix`.
pub fn parse_digits(digits: &Vec<char>, start: usize, radix: u64) -> (result: Result<
    u64,
    ErrorKind,
>)
    requires
        start <= digits.len(),
        2 <= radix <= 36,
    ensures
        result == parsed_digits(digits@.skip(start as int), radix as int),
{
    let ghost text = digits@.skip(start as int);
    let n = digits.len();
    if start == n {
        return Err(ErrorKind::Empty);
    }
    let mut value: u64 = 0;
    let mut overflow = false;
    let mut i: usize = start;
    while i < n
        invariant
            start <= i <= n,
            n == digits.len(),
            2 <= radix <= 36,
            text == digits@.skip(start as int),
            all_digits(text.take(i - start), radix as int),
            !overflow ==> value == digits_value(text.take(i - start), radix as int),
            overflow ==> digits_value(text.take(i - start), radix as int) > u64::MAX,
        decreases n - i,
    {
        let c = digits[i];
        assert(text[i - start] == c);
        match digit(c, radix) {
            None => {
                return Err(ErrorKind::InvalidDigit);
            },
            Some(d) => {
                proof {
                    lemma_digits_value_push(text.take(i - start), c, radix as int);
                    assert(text.take(i - start).push(c) =~= text.take(i + 1 - start));
                }
                if !overflow {
                    match value.checked_mul(radix) {
                        Some(scaled) => match scaled.checked_add(d) {
                            Some(sum) => {
                                value = sum;
                            },
                            None => {
                                overflow = true;
                            },
                        },
                        None => {
                            overflow = true;
                        },
                    }
                }
            },
        }
        i += 1;
    }
    assert(text.take(n - start) =~= text);
    if overflow {
        Err(ErrorKind::Overflow)
    } else {
        Ok(value)
    }
}

/// What the identifier text `text` denotes where it has the shape of a numeric literal.
pub fn parse_literal(text: &str) -> (value: Option<Result<u64, ErrorKind>>)
    ensures
        value == literal_value(text@),
{
    let digits = to_chars(text);
    let n = digits.len();
    if n >= 2 && digits[0] == '0' && digits[1] == 'x' {
        Some(parse_digits(&digits, 2, 16))
    } else if n >= 2 && digits[0] == '0' && digits[1] == 'b' {
        Some(parse_digits(&digits, 2, 2))
    } else if n > 0 && '0' <= digits[0] && digits[0] <= '9' {
        assert(digits@.skip(0) =~= digits@);
        Some(parse_digits(&digits, 0, 10))
    } else {
        None
    }
}

/// Resolves one token.
pub fn resolve_token(token: Token) -> (result: Result<Token, LexError>)
    ensures
        match resolved(token@) {
            Ok(t) => result matches Ok(r) && r@ == t,
            Err(e) => result matches Err(x) && x@ == e,
        },
{
    let Token { token_type, line, column, index } = token;
    match token_type {
        TokenType::Identifier(text) => match parse_literal(text.as_str()) {
            Some(Ok(value)) => Ok(Token { token_type: TokenType::Number(value), line, column, index }),
            Some(Err(kind)) => Err(LexError { kind, line, column, index }),
            None => Ok(Token { token_type: TokenType::Identifier(text), line, column, index }),
        },
        other => Ok(Token { token_type: other, line, column, index }),
    }
}

/// Resolves the numeric literals among `tokens`: each identifier in the shape of a literal
/// becomes a number. One invalid literal fails the whole pass.
pub fn _parse_number(tokens: Vec<Token>) -> (outcome: Result<Vec<Token>, LexError>)
    ensures
        outcome_view(outcome) == resolved_all(tokens_view(tokens@)),
{
    let ghost given = tokens_view(tokens@);
    let mut parsed_tokens: Vec<Token> = Vec::new();
    for token in it: tokens
        invariant
            given == tokens_view(it.seq()),
            parsed_tokens.len() == it.index(),
            forall|i: int|
                0 <= i < it.index() ==> resolved(given[i]) == Ok::<SpecToken, SpecLexError>(
                    parsed_tokens[i]@,
                ),
    {
        assert(given[it.index() as int] == token@);
        match resolve_token(token) {
            Ok(resolved_token) => {
                parsed_tokens.push(resolved_token);
            },
            Err(error) => {
                proof {
                    lemma_first_failure_is(given, 0, it.index() as int);
                }
                return Err(error);
            },
        }
    }
    proof {
        lemma_first_failure_is(given, 0, given.len() as int);
        assert(tokens_view(parsed_tokens@) =~= Seq::new(
            given.len(),
            |i: int| resolved(given[i])->Ok_0,
        ));
    }
    Ok(parsed_tokens)
}

} // verus!
