use modulus::errors::LexerError;
use modulus::evaluator::EvalBuilder;
use modulus::evaluator::Evaluator;
use modulus::lexer::Lexer;
use modulus::lexer::ParseAdapter;
use modulus::lexer::TokenGroup;
use modulus::lexer_plugins::ArithmaticExpr;
use modulus::lexer_plugins::ArithmaticParser;
use modulus::lexer_plugins::ArithmaticToken;
use modulus::state::sub_state::SubState;

struct NoSub;

impl SubState for NoSub {
    fn state_name(&self) -> &'static str {
        "none"
    }
}

fn eval(e: &ArithmaticExpr) -> f32 {
    match e {
        ArithmaticExpr::Literal(lexum) => lexum.parse::<f32>().unwrap(),
        ArithmaticExpr::Add { a, b } => eval(a) + eval(b),
        ArithmaticExpr::Sub { a, b } => eval(a) - eval(b),
        ArithmaticExpr::Mul { a, b } => eval(a) * eval(b),
        ArithmaticExpr::Div { a, b } => eval(a) / eval(b),
    }
}

fn parse_one(source: &str) -> Vec<ArithmaticExpr> {
    let builder: EvalBuilder<NoSub, ArithmaticParser> = Evaluator::builder();
    let mut ev = builder.plugin(ArithmaticParser).source(source).build();
    ev.parse().unwrap();
    ev.exprs()
}

#[test]
fn lexes_three_plus_four() {
    let mut lx = Lexer::builder().source("3+4").plugin(ArithmaticParser).build();
    let t1 = lx.next_token().unwrap().unwrap();
    assert!(matches!(t1, ArithmaticToken::Number { .. }));
    assert_eq!(t1.lexum(), "3");
    assert_eq!(t1.line(), 0);
    assert_eq!(t1.adapter(), ParseAdapter::Literal);
    let t2 = lx.next_token().unwrap().unwrap();
    assert!(matches!(t2, ArithmaticToken::Plus { .. }));
    assert_eq!(t2.lexum(), "+");
    assert_eq!(t2.adapter(), ParseAdapter::Expression);
    let t3 = lx.next_token().unwrap().unwrap();
    assert!(matches!(t3, ArithmaticToken::Number { .. }));
    assert_eq!(t3.lexum(), "4");
    assert!(lx.next_token().is_none());
}

#[test]
fn parses_three_plus_four_as_addition() {
    let exprs = parse_one("3+4");
    assert_eq!(exprs.len(), 1);
    match &exprs[0] {
        ArithmaticExpr::Add { a, b } => {
            assert!(matches!(&**a, ArithmaticExpr::Literal(s) if s == "3"));
            assert!(matches!(&**b, ArithmaticExpr::Literal(s) if s == "4"));
        },
        other => panic!("expected an addition, got {:?}", other),
    }
    assert_eq!(eval(&exprs[0]), 7.0);
}

#[test]
fn evaluates_left_to_right_without_precedence() {
    let exprs = parse_one("3+4*2");
    assert_eq!(exprs.len(), 1);
    match &exprs[0] {
        ArithmaticExpr::Mul { a, b } => {
            assert!(matches!(&**a, ArithmaticExpr::Add { .. }));
            assert!(matches!(&**b, ArithmaticExpr::Literal(s) if s == "2"));
        },
        other => panic!("expected a multiplication, got {:?}", other),
    }
    assert_eq!(eval(&exprs[0]), 14.0);
}

#[test]
fn single_numeral_parses_to_one_literal() {
    let exprs = parse_one("41");
    assert_eq!(exprs.len(), 1);
    assert!(matches!(&exprs[0], ArithmaticExpr::Literal(s) if s == "41"));
    assert_eq!(eval(&exprs[0]), 41.0);
    let fractional = parse_one("2.5");
    assert!(matches!(&fractional[0], ArithmaticExpr::Literal(s) if s == "2.5"));
    assert_eq!(eval(&fractional[0]), 2.5);
}

#[test]
fn arithmetic_follows_ieee_semantics() {
    assert_eq!(eval(&parse_one("6-2")[0]), 4.0);
    assert_eq!(eval(&parse_one("6*2")[0]), 12.0);
    assert_eq!(eval(&parse_one("7/2")[0]), 3.5);
    assert_eq!(eval(&parse_one("7/0")[0]), f32::INFINITY);
    assert!(eval(&parse_one("0/0")[0]).is_nan());
}

#[test]
fn malformed_number_is_incomplete_token() {
    let mut lx = Lexer::builder().source("3.1.2").plugin(ArithmaticParser).build();
    match lx.next_token().unwrap() {
        Err(LexerError::IncompleteToken(cause)) => {
            assert_eq!(cause, "[line: 0] Error at 3.1.: Invalid Number");
        },
        other => panic!("expected an incomplete token, got {:?}", other),
    }
    let rest = lx.next_token().unwrap().unwrap();
    assert_eq!(rest.lexum(), "2");
    assert!(lx.next_token().is_none());
}

#[test]
fn trailing_point_is_incomplete_token() {
    let mut lx = Lexer::builder().source("3.").plugin(ArithmaticParser).build();
    assert!(matches!(lx.next_token().unwrap(), Err(LexerError::IncompleteToken(_))));
    assert!(lx.next_token().is_none());
}

#[test]
fn unknown_character_fails_only_its_element() {
    let mut lx = Lexer::builder().source("3#4").plugin(ArithmaticParser).build();
    assert_eq!(lx.next_token().unwrap().unwrap().lexum(), "3");
    match lx.next_token().unwrap() {
        Err(LexerError::UnknownToken(c)) => assert_eq!(c, '#'),
        other => panic!("expected an unknown token, got {:?}", other),
    }
    assert_eq!(lx.next_token().unwrap().unwrap().lexum(), "4");
    assert!(lx.next_token().is_none());
}

#[test]
fn unknown_character_alone() {
    let mut lx = Lexer::builder().source("#").plugin(ArithmaticParser).build();
    assert!(matches!(lx.next_token().unwrap(), Err(LexerError::UnknownToken('#'))));
    assert!(lx.next_token().is_none());
}

fn lexeme_run(source: &str, twice: bool) -> Vec<Result<String, String>> {
    let mut builder = Lexer::builder().source(source).plugin(ArithmaticParser);
    if twice {
        builder = builder.plugin(ArithmaticParser);
    }
    let mut lx = builder.build();
    let mut out = Vec::new();
    for item in lx.lex_all() {
        out.push(match item {
            Ok(t) => Ok(t.lexum().to_string()),
            Err(e) => Err(e.message()),
        });
    }
    out
}

#[test]
fn token_stream_peek_does_not_consume() {
    let mut lx = Lexer::builder().source("3+4").plugin(ArithmaticParser).build();
    let mut stream = modulus::parser::TokenStream::new(lx.lex_all());
    assert_eq!(stream.peek().unwrap().as_ref().unwrap().lexum(), "3");
    assert_eq!(stream.peek().unwrap().as_ref().unwrap().lexum(), "3");
    assert_eq!(stream.next().unwrap().unwrap().lexum(), "3");
    assert_eq!(stream.next().unwrap().unwrap().lexum(), "+");
    assert_eq!(stream.next().unwrap().unwrap().lexum(), "4");
    assert!(stream.next().is_none());
    assert!(stream.peek().is_none());
}

#[test]
fn lexing_is_deterministic() {
    let first = lexeme_run("12+3.5*4#", false);
    let second = lexeme_run("12+3.5*4#", false);
    assert_eq!(first, second);
}

#[test]
fn registering_a_plugin_twice_changes_nothing() {
    let once = lexeme_run("12+3.5*4#7.", false);
    let twice = lexeme_run("12+3.5*4#7.", true);
    assert_eq!(once, twice);
}

#[test]
fn whitespace_and_lines_are_tracked() {
    let mut lx = Lexer::builder().source("3 +\r\t\n4").plugin(ArithmaticParser).build();
    let t1 = lx.next_token().unwrap().unwrap();
    assert_eq!((t1.lexum().to_string(), t1.line()), ("3".to_string(), 0));
    let t2 = lx.next_token().unwrap().unwrap();
    assert_eq!((t2.lexum().to_string(), t2.line()), ("+".to_string(), 0));
    let t3 = lx.next_token().unwrap().unwrap();
    assert_eq!((t3.lexum().to_string(), t3.line()), ("4".to_string(), 1));
    assert!(lx.next_token().is_none());
}

#[test]
fn leading_operator_is_a_parse_error() {
    let builder: EvalBuilder<NoSub, ArithmaticParser> = Evaluator::builder();
    let mut ev = builder.plugin(ArithmaticParser).source("+3").build();
    let err = ev.parse().unwrap_err();
    assert_eq!(err.message(), "Error: expression operator needs a left-hand operand");
}

#[test]
fn dangling_operator_is_a_parse_error() {
    let builder: EvalBuilder<NoSub, ArithmaticParser> = Evaluator::builder();
    let mut ev = builder.plugin(ArithmaticParser).source("3+").build();
    let err = ev.parse().unwrap_err();
    assert_eq!(err.message(), "Error: expected a token after the operator");
}

#[test]
fn operator_after_operator_is_a_parse_error() {
    let builder: EvalBuilder<NoSub, ArithmaticParser> = Evaluator::builder();
    let mut ev = builder.plugin(ArithmaticParser).source("3++4").build();
    let err = ev.parse().unwrap_err();
    assert_eq!(err.message(), "Error: expected a number after the operator");
}

#[test]
fn lex_error_is_promoted_to_parse_error() {
    let builder: EvalBuilder<NoSub, ArithmaticParser> = Evaluator::builder();
    let mut ev = builder.plugin(ArithmaticParser).source("3@4").build();
    let err = ev.parse().unwrap_err();
    assert_eq!(err.message(), "Error: unknown token: @");
}
