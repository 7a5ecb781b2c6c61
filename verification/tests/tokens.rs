use candle_einops::token::tokenize;
use candle_einops::token::Token;
use candle_einops::Operation;
use candle_einops::PatternError;

fn ident(name: &str) -> Token {
    Token::Ident(name.to_string())
}

#[test]
fn tokenize_reads_every_kind_of_token() {
    let tokens = tokenize("sum(a:2) b_1, .. -> (b_1 ..) 7").unwrap();
    assert_eq!(
        tokens,
        vec![
            Token::Reduce(Operation::Sum),
            Token::Open,
            ident("a"),
            Token::Colon,
            Token::Size(2),
            Token::Close,
            ident("b_1"),
            Token::Comma,
            Token::Ellipsis,
            Token::Arrow,
            Token::Open,
            ident("b_1"),
            Token::Ellipsis,
            Token::Close,
            Token::Size(7),
        ]
    );
}

#[test]
fn tokenize_ignores_blanks() {
    assert_eq!(tokenize("").unwrap(), vec![]);
    assert_eq!(tokenize(" \t\r\n").unwrap(), vec![]);
    assert_eq!(tokenize("a->b").unwrap(), tokenize("  a\t->\nb ").unwrap());
    assert_eq!(tokenize("a->b").unwrap(), vec![ident("a"), Token::Arrow, ident("b")]);
}

#[test]
fn tokenize_knows_the_five_keywords() {
    assert_eq!(
        tokenize("min max sum mean prod").unwrap(),
        vec![
            Token::Reduce(Operation::Min),
            Token::Reduce(Operation::Max),
            Token::Reduce(Operation::Sum),
            Token::Reduce(Operation::Mean),
            Token::Reduce(Operation::Prod),
        ]
    );
    assert_eq!(
        tokenize("mins Max su means pro _min").unwrap(),
        vec![ident("mins"), ident("Max"), ident("su"), ident("means"), ident("pro"), ident("_min")]
    );
}

#[test]
fn tokenize_reads_numbers_up_to_the_largest() {
    assert_eq!(tokenize("0").unwrap(), vec![Token::Size(0)]);
    assert_eq!(tokenize("007").unwrap(), vec![Token::Size(7)]);
    assert_eq!(tokenize("1234567890").unwrap(), vec![Token::Size(1234567890)]);
    let largest = usize::MAX.to_string();
    assert_eq!(tokenize(&largest).unwrap(), vec![Token::Size(usize::MAX)]);
}

#[test]
fn tokenize_rejects_numbers_that_do_not_fit() {
    assert_eq!(tokenize("340282366920938463463374607431768211456"), Err(PatternError::SizeOverflow));
    let mut beyond = usize::MAX.to_string();
    beyond.push('0');
    assert_eq!(tokenize(&beyond), Err(PatternError::SizeOverflow));
}

#[test]
fn tokenize_rejects_what_starts_no_token() {
    assert_eq!(tokenize("a # b"), Err(PatternError::UnexpectedCharacter));
    assert_eq!(tokenize("a - b"), Err(PatternError::UnexpectedCharacter));
    assert_eq!(tokenize("a -"), Err(PatternError::UnexpectedCharacter));
    assert_eq!(tokenize("a . b"), Err(PatternError::UnexpectedCharacter));
    assert_eq!(tokenize("a ..."), Err(PatternError::UnexpectedCharacter));
    assert_eq!(tokenize("a > b"), Err(PatternError::UnexpectedCharacter));
    assert_eq!(tokenize("\u{3b1} -> \u{3b1}"), Err(PatternError::UnexpectedCharacter));
}

#[test]
fn tokenize_rejects_a_letter_directly_after_a_number() {
    assert_eq!(tokenize("2x"), Err(PatternError::UnexpectedCharacter));
    assert_eq!(tokenize("a:2_"), Err(PatternError::UnexpectedCharacter));
    assert_eq!(tokenize("2 x").unwrap(), vec![Token::Size(2), ident("x")]);
    assert_eq!(tokenize("x2").unwrap(), vec![ident("x2")]);
}

#[test]
fn tokenize_reports_the_first_error_from_the_left() {
    assert_eq!(tokenize("# 340282366920938463463374607431768211456"), Err(PatternError::UnexpectedCharacter));
    assert_eq!(tokenize("340282366920938463463374607431768211456 #"), Err(PatternError::SizeOverflow));
}

#[test]
fn duplicate_keeps_the_token() {
    for token in tokenize("a 2 min .. , -> : ( )").unwrap() {
        assert_eq!(token.duplicate(), token);
    }
}
