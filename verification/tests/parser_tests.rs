use mini_lisp::{parse, parse_list, parse_tokens, tokenize, LispExpression, ParseError, Token};

fn token(word: &str) -> Token {
    Token::new(word, word.parse::<f64>().ok().map(f64::to_bits))
}

fn tokens(line: &str) -> Vec<Token> {
    tokenize(line).iter().map(|word| token(word)).collect()
}

fn number(value: f64) -> LispExpression {
    LispExpression::Number(value.to_bits())
}

fn symbol(name: &str) -> LispExpression {
    LispExpression::Symbol(name.to_string())
}

#[test]
fn numeric_token_parses_to_its_value() {
    for word in ["5", "3.14", "-2.5e3", "1e10", ".5", "7.", "+0.25", "inf", "-infinity", "0"] {
        let expected: f64 = word.parse().unwrap();
        assert_eq!(parse(&[token(word)]), Ok(number(expected)), "token {word}");
    }
    assert_eq!(parse(&tokens("42")), Ok(number(42.0)));
}

#[test]
fn nan_token_parses_to_a_number() {
    match parse(&[token("NaN")]) {
        Ok(LispExpression::Number(bits)) => assert!(f64::from_bits(bits).is_nan()),
        other => panic!("unexpected {other:?}"),
    }
}

#[test]
fn number_reading_is_taken_as_given() {
    let five = Token::new("five", Some(5.0f64.to_bits()));
    assert_eq!(parse(&[five]), Ok(number(5.0)));
}

#[test]
fn true_and_false_parse_to_booleans() {
    assert_eq!(parse(&tokens("true")), Ok(LispExpression::Boolean(true)));
    assert_eq!(parse(&tokens("false")), Ok(LispExpression::Boolean(false)));
    assert_ne!(parse(&tokens("true")), Ok(symbol("true")));
    assert_ne!(parse(&tokens("false")), Ok(symbol("false")));
}

#[test]
fn truth_words_win_over_a_number_reading() {
    let odd = Token::new("true", Some(1.0f64.to_bits()));
    assert_eq!(parse(&[odd]), Ok(LispExpression::Boolean(true)));
}

#[test]
fn other_words_parse_to_symbols() {
    assert_eq!(parse(&tokens("x")), Ok(symbol("x")));
    assert_eq!(parse(&tokens("True")), Ok(symbol("True")));
    assert_eq!(parse(&tokens("1_000")), Ok(symbol("1_000")));
    assert_eq!(parse(&tokens("define")), Ok(symbol("define")));
}

#[test]
fn list_parses_to_its_elements() {
    assert_eq!(
        parse(&tokens("( define x 5 )")),
        Ok(LispExpression::List(vec![symbol("define"), symbol("x"), number(5.0)]))
    );
}

#[test]
fn empty_list_parses() {
    assert_eq!(parse(&tokens("( )")), Ok(LispExpression::List(vec![])));
}

#[test]
fn nested_lists_parse_bottom_up() {
    assert_eq!(
        parse(&tokens("( lambda ( x y ) ( f ( ) true 1.5 ) )")),
        Ok(LispExpression::List(vec![
            symbol("lambda"),
            LispExpression::List(vec![symbol("x"), symbol("y")]),
            LispExpression::List(vec![
                symbol("f"),
                LispExpression::List(vec![]),
                LispExpression::Boolean(true),
                number(1.5),
            ]),
        ]))
    );
}

#[test]
fn empty_input_fails() {
    assert_eq!(parse(&[]), Err(ParseError::UnexpectedEnd));
    assert_eq!(parse(&tokens("   ")), Err(ParseError::UnexpectedEnd));
    assert_eq!(ParseError::UnexpectedEnd.message(), "Unexpected end of input");
}

#[test]
fn stray_close_fails() {
    assert_eq!(parse(&tokens(")")), Err(ParseError::UnexpectedClose));
    assert_eq!(parse(&tokens(") x")), Err(ParseError::UnexpectedClose));
    assert_eq!(ParseError::UnexpectedClose.message(), "Unexpected ')'");
}

#[test]
fn unterminated_list_fails() {
    assert_eq!(parse(&tokens("( a b")), Err(ParseError::UnterminatedList));
    assert_eq!(parse(&tokens("(")), Err(ParseError::UnterminatedList));
    assert_eq!(parse(&tokens("( a ( b )")), Err(ParseError::UnterminatedList));
    assert_eq!(
        ParseError::UnterminatedList.message(),
        "Unexpected end of input inside list"
    );
}

#[test]
fn tokens_after_the_expression_are_ignored() {
    assert_eq!(parse(&tokens("1 2")), Ok(number(1.0)));
    assert_eq!(parse(&tokens("( a ) )")), Ok(LispExpression::List(vec![symbol("a")])));
    assert_eq!(parse(&tokens("x (")), Ok(symbol("x")));
}

#[test]
fn parentheses_without_spaces_are_part_of_the_word() {
    assert_eq!(parse(&tokens("(foo)")), Ok(symbol("(foo)")));
    assert_eq!(parse(&tokens("(foo )")), Ok(symbol("(foo")));
}

#[test]
fn parse_tokens_tells_where_the_expression_ends() {
    let line = tokens("a ( b c ) d");
    assert_eq!(parse_tokens(&line, 0), Ok((symbol("a"), 1)));
    assert_eq!(
        parse_tokens(&line, 1),
        Ok((LispExpression::List(vec![symbol("b"), symbol("c")]), 5))
    );
    assert_eq!(parse_tokens(&line, 4), Err(ParseError::UnexpectedClose));
    assert_eq!(parse_tokens(&line, 5), Ok((symbol("d"), 6)));
    assert_eq!(parse_tokens(&line, 6), Err(ParseError::UnexpectedEnd));
    assert_eq!(parse_tokens(&line, 60), Err(ParseError::UnexpectedEnd));
}

#[test]
fn parse_list_reads_up_to_the_closing_parenthesis() {
    let line = tokens("( a ( b ) ) c");
    assert_eq!(
        parse_list(&line, 1),
        Ok((
            LispExpression::List(vec![symbol("a"), LispExpression::List(vec![symbol("b")])]),
            6
        ))
    );
    assert_eq!(parse_list(&line, 3), Ok((LispExpression::List(vec![symbol("b")]), 5)));
    assert_eq!(parse_list(&line, 5), Ok((LispExpression::List(vec![]), 6)));
    assert_eq!(parse_list(&line, 6), Err(ParseError::UnterminatedList));
    assert_eq!(parse_list(&line, 7), Err(ParseError::UnterminatedList));
    assert_eq!(parse_list(&line, 70), Err(ParseError::UnterminatedList));
}

#[test]
fn deep_nesting_parses() {
    let depth = 200;
    let mut line = String::new();
    for _ in 0..depth {
        line.push_str("( ");
    }
    for _ in 0..depth {
        line.push_str(") ");
    }
    let mut expr = parse(&tokens(&line)).unwrap();
    for _ in 1..depth {
        match expr {
            LispExpression::List(mut items) => {
                assert_eq!(items.len(), 1);
                expr = items.pop().unwrap();
            }
            other => panic!("unexpected {other:?}"),
        }
    }
    assert_eq!(expr, LispExpression::List(vec![]));
}
