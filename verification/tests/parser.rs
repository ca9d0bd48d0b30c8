use exercises::ast::parse;
use exercises::ast::Expression;
use exercises::ast::ParseError;

fn num(digits: &str) -> Expression {
    Expression::NumberLiteral(digits.to_string())
}

#[test]
fn digit_strings_parse_to_literals() {
    assert_eq!(parse("42"), Ok(num("42")));
    assert_eq!(parse("7"), Ok(num("7")));
    assert_eq!(parse("007"), Ok(num("007")));
    assert_eq!(
        parse("99999999999999999999999999"),
        Ok(num("99999999999999999999999999"))
    );
}

#[test]
fn negation_runs_nest_once_per_sign() {
    assert_eq!(parse("-5"), Ok(Expression::Negate(Box::new(num("5")))));
    assert_eq!(
        parse("--5"),
        Ok(Expression::Negate(Box::new(Expression::Negate(Box::new(
            num("5")
        )))))
    );
    assert_eq!(
        parse("- - -2"),
        Ok(Expression::Negate(Box::new(Expression::Negate(Box::new(
            Expression::Negate(Box::new(num("2")))
        )))))
    );
}

#[test]
fn product_binds_tighter_than_sum() {
    assert_eq!(
        parse("2+3*4"),
        Ok(Expression::Add(
            Box::new(num("2")),
            Box::new(Expression::Multiply(
                Box::new(num("3")),
                Box::new(num("4"))
            ))
        ))
    );
    assert_eq!(
        parse("2*3+4"),
        Ok(Expression::Add(
            Box::new(Expression::Multiply(
                Box::new(num("2")),
                Box::new(num("3"))
            )),
            Box::new(num("4"))
        ))
    );
}

#[test]
fn division_is_left_associative() {
    assert_eq!(
        parse("8/4/2"),
        Ok(Expression::Divide(
            Box::new(Expression::Divide(Box::new(num("8")), Box::new(num("4")))),
            Box::new(num("2"))
        ))
    );
}

#[test]
fn subtraction_is_left_associative() {
    assert_eq!(
        parse("9-5-1"),
        Ok(Expression::Subtract(
            Box::new(Expression::Subtract(
                Box::new(num("9")),
                Box::new(num("5"))
            )),
            Box::new(num("1"))
        ))
    );
}

#[test]
fn inversion_parses_and_never_mixes_with_negation() {
    assert_eq!(parse("~5"), Ok(Expression::Invert(Box::new(num("5")))));
    assert_eq!(
        parse("~~5"),
        Ok(Expression::Invert(Box::new(Expression::Invert(Box::new(
            num("5")
        )))))
    );
    assert_eq!(
        parse("~-5"),
        Err(ParseError::UnexpectedInput { position: 0 })
    );
    assert_eq!(
        parse("-~5"),
        Err(ParseError::UnexpectedInput { position: 1 })
    );
}

#[test]
fn empty_and_cut_off_inputs_fail() {
    assert_eq!(parse(""), Err(ParseError::UnexpectedInput { position: 0 }));
    assert_eq!(parse("3+"), Err(ParseError::UnexpectedInput { position: 2 }));
    assert_eq!(parse("3 3"), Err(ParseError::TrailingInput { position: 2 }));
}

#[test]
fn whitespace_is_tolerated_around_operators() {
    assert_eq!(
        parse(" 2 + 3 "),
        Ok(Expression::Add(Box::new(num("2")), Box::new(num("3"))))
    );
    assert_eq!(
        parse("2 * - 3"),
        Ok(Expression::Multiply(
            Box::new(num("2")),
            Box::new(Expression::Negate(Box::new(num("3"))))
        ))
    );
}

#[test]
fn whitespace_inside_a_digit_run_is_trailing_input() {
    assert_eq!(parse("1 2"), Err(ParseError::TrailingInput { position: 2 }));
}

#[test]
fn long_prefix_runs_nest_without_recursion() {
    let input = format!("{}7", "-".repeat(1000));
    let mut tree = parse(&input).unwrap();
    let mut depth = 0;
    loop {
        match tree {
            Expression::Negate(inner) => {
                depth += 1;
                tree = *inner;
            }
            other => {
                assert_eq!(other, num("7"));
                break;
            }
        }
    }
    assert_eq!(depth, 1000);
}

#[test]
fn parsing_twice_gives_identical_trees() {
    let input = "1+2*3 - ~4/5";
    let first = parse(input);
    let second = parse(input);
    assert!(first.is_ok());
    assert_eq!(first, second);

    let bad = "2+*3";
    assert_eq!(parse(bad), parse(bad));
}
