use jcalc::parse::parse_input;
use jcalc::parse::Expression;
use jcalc::parse::Operator;
use jcalc::parse::ParseError;

#[test]
fn test_parse_expression() {
    let input = "3 + 5 * (2 - 8)";
    let result = parse_input(input);
    assert_eq!(
        result,
        Ok(vec![
            Expression::Number(3),
            Expression::Number(5),
            Expression::Number(2),
            Expression::Number(8),
            Expression::Binary(Operator::Subtract),
            Expression::Binary(Operator::Multiply),
            Expression::Binary(Operator::Add),
        ])
    );
}

#[test]
fn test_parse_missing_close_paren() {
    assert_eq!(parse_input("(1"), Err(ParseError::ExpectedCloseParen));
}

#[test]
fn test_parse_operator_without_operand() {
    assert_eq!(parse_input("1 +"), Err(ParseError::ExpectedNumber));
}

#[test]
fn test_parse_trailing_input() {
    assert_eq!(parse_input("1 2"), Err(ParseError::TrailingInput));
}

#[test]
fn test_parse_empty_input() {
    assert_eq!(parse_input(""), Err(ParseError::ExpectedNumber));
    assert_eq!(parse_input("   "), Err(ParseError::ExpectedNumber));
}

#[test]
fn test_parse_single_number() {
    assert_eq!(parse_input("42"), Ok(vec![Expression::Number(42)]));
    assert_eq!(parse_input("  007  "), Ok(vec![Expression::Number(7)]));
}

#[test]
fn test_parse_largest_literal() {
    assert_eq!(
        parse_input("9223372036854775807"),
        Ok(vec![Expression::Number(9223372036854775807)])
    );
}

#[test]
fn test_parse_number_too_large() {
    assert_eq!(parse_input("9223372036854775808"), Err(ParseError::NumberTooLarge));
    assert_eq!(parse_input("99999999999999999999999"), Err(ParseError::NumberTooLarge));
}

#[test]
fn test_parse_division() {
    assert_eq!(
        parse_input("8/2"),
        Ok(vec![
            Expression::Number(8),
            Expression::Number(2),
            Expression::Binary(Operator::Divide),
        ])
    );
}

#[test]
fn test_parse_left_associativity() {
    assert_eq!(
        parse_input("1-2-3"),
        Ok(vec![
            Expression::Number(1),
            Expression::Number(2),
            Expression::Binary(Operator::Subtract),
            Expression::Number(3),
            Expression::Binary(Operator::Subtract),
        ])
    );
}

#[test]
fn test_parse_nested_parens() {
    assert_eq!(
        parse_input("((1+2))*3"),
        Ok(vec![
            Expression::Number(1),
            Expression::Number(2),
            Expression::Binary(Operator::Add),
            Expression::Number(3),
            Expression::Binary(Operator::Multiply),
        ])
    );
}

#[test]
fn test_parse_whitespace_between_tokens() {
    assert_eq!(
        parse_input("  1\t+ \n2 "),
        Ok(vec![
            Expression::Number(1),
            Expression::Number(2),
            Expression::Binary(Operator::Add),
        ])
    );
}

#[test]
fn test_parse_garbage_where_number_expected() {
    assert_eq!(parse_input("x + 1"), Err(ParseError::ExpectedNumber));
    assert_eq!(parse_input("( )"), Err(ParseError::ExpectedNumber));
}
