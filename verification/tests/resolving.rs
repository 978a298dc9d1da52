use protodecl_lexer::{lex, ErrorKind, LexError, Token, TokenType, _parse_number};

fn at(token_type: TokenType, index: usize) -> Token {
    Token { token_type, line: 1, column: index + 1, index }
}

fn identifier(text: &str) -> TokenType {
    TokenType::Identifier(text.to_string())
}

fn only_kind(source: &str) -> TokenType {
    let mut tokens = lex(source).unwrap();
    assert_eq!(tokens.len(), 1, "{:?}", source);
    tokens.remove(0).token_type
}

fn failure(source: &str) -> ErrorKind {
    lex(source).unwrap_err().kind
}

#[test]
fn hex_literal() {
    assert_eq!(
        lex("0xFF"),
        Ok(vec![Token { token_type: TokenType::Number(255), line: 1, column: 5, index: 4 }])
    );
}

#[test]
fn binary_literal() {
    assert_eq!(
        lex("0b101"),
        Ok(vec![Token { token_type: TokenType::Number(5), line: 1, column: 6, index: 5 }])
    );
}

#[test]
fn decimal_literal() {
    assert_eq!(only_kind("42"), TokenType::Number(42));
    assert_eq!(only_kind("0"), TokenType::Number(0));
    assert_eq!(only_kind("007"), TokenType::Number(7));
    assert_eq!(only_kind("1234567890"), TokenType::Number(1234567890));
}

#[test]
fn hex_digits_of_either_case() {
    assert_eq!(only_kind("0xff"), TokenType::Number(255));
    assert_eq!(only_kind("0xAbCdEf"), TokenType::Number(0xabcdef));
    assert_eq!(only_kind("0x0123456789"), TokenType::Number(0x0123456789));
    assert_eq!(only_kind("0x0"), TokenType::Number(0));
    assert_eq!(only_kind("0x000000000000000000001"), TokenType::Number(1));
}

#[test]
fn binary_digits() {
    assert_eq!(only_kind("0b0"), TokenType::Number(0));
    assert_eq!(only_kind("0b1"), TokenType::Number(1));
    assert_eq!(only_kind("0b11111111"), TokenType::Number(255));
    assert_eq!(only_kind("0b0000000000000000000000000000000000000000000000000000000000000000010"), TokenType::Number(2));
}

#[test]
fn largest_values() {
    assert_eq!(only_kind("18446744073709551615"), TokenType::Number(u64::MAX));
    assert_eq!(only_kind("0xFFFFFFFFFFFFFFFF"), TokenType::Number(u64::MAX));
    assert_eq!(
        only_kind("0b1111111111111111111111111111111111111111111111111111111111111111"),
        TokenType::Number(u64::MAX)
    );
}

#[test]
fn values_beyond_64_bits_fail() {
    assert_eq!(failure("18446744073709551616"), ErrorKind::Overflow);
    assert_eq!(failure("99999999999999999999999999"), ErrorKind::Overflow);
    assert_eq!(failure("0x10000000000000000"), ErrorKind::Overflow);
    assert_eq!(
        failure("0b10000000000000000000000000000000000000000000000000000000000000000"),
        ErrorKind::Overflow
    );
}

#[test]
fn invalid_digits_fail() {
    assert_eq!(failure("12ab"), ErrorKind::InvalidDigit);
    assert_eq!(failure("9z"), ErrorKind::InvalidDigit);
    assert_eq!(failure("1_000"), ErrorKind::InvalidDigit);
    assert_eq!(failure("0xG"), ErrorKind::InvalidDigit);
    assert_eq!(failure("0xFFg"), ErrorKind::InvalidDigit);
    assert_eq!(failure("0x_1"), ErrorKind::InvalidDigit);
    assert_eq!(failure("0b102"), ErrorKind::InvalidDigit);
    assert_eq!(failure("0b2"), ErrorKind::InvalidDigit);
    assert_eq!(failure("0bA"), ErrorKind::InvalidDigit);
    assert_eq!(failure("0X1F"), ErrorKind::InvalidDigit);
    assert_eq!(failure("0B1"), ErrorKind::InvalidDigit);
    assert_eq!(failure("0o17"), ErrorKind::InvalidDigit);
    assert_eq!(failure("1\u{663}"), ErrorKind::InvalidDigit);
}

#[test]
fn invalid_digit_wins_over_overflow() {
    assert_eq!(failure("99999999999999999999999999z"), ErrorKind::InvalidDigit);
    assert_eq!(failure("0xFFFFFFFFFFFFFFFFFFg"), ErrorKind::InvalidDigit);
}

#[test]
fn prefix_without_digits_fails() {
    assert_eq!(failure("0x"), ErrorKind::Empty);
    assert_eq!(failure("0b"), ErrorKind::Empty);
}

#[test]
fn failure_carries_the_place_of_its_token() {
    assert_eq!(
        lex("field x\n  0xZZ;"),
        Err(LexError { kind: ErrorKind::InvalidDigit, line: 2, column: 8, index: 15 })
    );
}

#[test]
fn failure_messages() {
    let error = |kind| LexError { kind, line: 1, column: 1, index: 0 };
    assert_eq!(error(ErrorKind::Empty).message(), "cannot parse integer from empty string");
    assert_eq!(error(ErrorKind::InvalidDigit).message(), "invalid digit found in string");
    assert_eq!(error(ErrorKind::Overflow).message(), "number too large to fit in target type");
    assert_eq!(lex("0xG").unwrap_err().message(), "invalid digit found in string");
}

#[test]
fn one_invalid_literal_fails_everything() {
    assert!(lex("field x u32; 0xZ field y u8;").is_err());
    assert!(lex("1 2 3 4x 5").is_err());
    assert_eq!(lex("1 2 3 4 5").map(|tokens| tokens.len()), Ok(5));
}

#[test]
fn first_invalid_literal_is_reported() {
    let tokens = vec![
        at(identifier("1"), 0),
        at(identifier("0x"), 1),
        at(identifier("9z"), 2),
        at(identifier("99999999999999999999"), 3),
    ];
    assert_eq!(
        _parse_number(tokens),
        Err(LexError { kind: ErrorKind::Empty, line: 1, column: 2, index: 1 })
    );
    assert_eq!(failure("9z 0x"), ErrorKind::InvalidDigit);
    assert_eq!(failure("99999999999999999999 9z"), ErrorKind::Overflow);
}

#[test]
fn other_tokens_pass_unchanged() {
    let tokens = vec![
        at(TokenType::Boolean(true), 0),
        at(TokenType::Number(3), 1),
        at(TokenType::Operator('+'), 2),
        at(TokenType::Delimiter(';'), 3),
        at(TokenType::Keyword("u8".to_string()), 4),
        at(TokenType::Keyword("0x10".to_string()), 5),
        at(TokenType::Comment("0x10".to_string()), 6),
        at(TokenType::Comment("12zz".to_string()), 7),
        at(TokenType::EOF, 8),
    ];
    assert_eq!(_parse_number(tokens.clone()), Ok(tokens));
}

#[test]
fn other_identifiers_pass_unchanged() {
    let tokens = vec![
        at(identifier("x"), 0),
        at(identifier(""), 1),
        at(identifier("x0"), 2),
        at(identifier("_1"), 3),
        at(identifier("xFF"), 4),
        at(identifier("b101"), 5),
        at(identifier("Ox10"), 6),
        at(identifier("+5"), 7),
        at(identifier("-5"), 8),
        at(identifier("\u{663}"), 9),
    ];
    assert_eq!(_parse_number(tokens.clone()), Ok(tokens));
}

#[test]
fn resolution_keeps_length_order_and_places() {
    let tokens = vec![
        Token { token_type: identifier("0x10"), line: 3, column: 9, index: 40 },
        Token { token_type: identifier("x"), line: 3, column: 11, index: 42 },
        Token { token_type: identifier("10"), line: 4, column: 1, index: 50 },
        Token { token_type: TokenType::Delimiter(';'), line: 4, column: 2, index: 51 },
        Token { token_type: identifier("0b10"), line: 7, column: 7, index: 7 },
    ];
    assert_eq!(
        _parse_number(tokens),
        Ok(vec![
            Token { token_type: TokenType::Number(16), line: 3, column: 9, index: 40 },
            Token { token_type: identifier("x"), line: 3, column: 11, index: 42 },
            Token { token_type: TokenType::Number(10), line: 4, column: 1, index: 50 },
            Token { token_type: TokenType::Delimiter(';'), line: 4, column: 2, index: 51 },
            Token { token_type: TokenType::Number(2), line: 7, column: 7, index: 7 },
        ])
    );
}

#[test]
fn no_tokens_resolve_to_no_tokens() {
    assert_eq!(_parse_number(Vec::new()), Ok(Vec::new()));
}

#[test]
fn signs_are_no_digits() {
    assert_eq!(
        _parse_number(vec![at(identifier("0x+1"), 0)]),
        Err(LexError { kind: ErrorKind::InvalidDigit, line: 1, column: 1, index: 0 })
    );
    assert_eq!(
        _parse_number(vec![at(identifier("0b-1"), 0)]).map_err(|error| error.kind),
        Err(ErrorKind::InvalidDigit)
    );
    assert_eq!(
        _parse_number(vec![at(identifier("1+1"), 0)]).map_err(|error| error.kind),
        Err(ErrorKind::InvalidDigit)
    );
}

#[test]
fn hex_prefix_is_tried_before_binary_and_decimal() {
    assert_eq!(only_kind("0xb1"), TokenType::Number(0xb1));
    assert_eq!(failure("0bx1"), ErrorKind::InvalidDigit);
    assert_eq!(only_kind("0b0"), TokenType::Number(0));
}

#[test]
fn literals_between_other_tokens() {
    let kinds: Vec<TokenType> =
        lex("field len 0x10; // 0xZZ\nfield n 0b11 12").unwrap().into_iter().map(|token| token.token_type).collect();
    assert_eq!(
        kinds,
        vec![
            TokenType::Keyword("field".to_string()),
            identifier("len"),
            TokenType::Number(16),
            TokenType::Delimiter(';'),
            TokenType::Comment(" 0xZZ".to_string()),
            TokenType::Keyword("field".to_string()),
            identifier("n"),
            TokenType::Number(3),
            TokenType::Number(12),
        ]
    );
}

#[test]
fn fraction_is_three_tokens() {
    let kinds: Vec<TokenType> = lex("1.5").unwrap().into_iter().map(|token| token.token_type).collect();
    assert_eq!(kinds, vec![TokenType::Number(1), identifier(""), TokenType::Number(5)]);
}
