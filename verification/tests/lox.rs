use rlox::error::{RuntimeError, ScanError};
use rlox::expr::Expr;
use rlox::expr::LiteralValue as Val;
use rlox::interpreter::interpret;
use rlox::parser::Parser;
use rlox::scanner::LiteralValue;
use rlox::scanner::Scanner;
use rlox::scanner::Token;
use rlox::scanner::TokenType;
use rlox::scanner::TokenType::Minus;
use rlox::scanner::TokenType::Star;

fn scan(src: &str) -> Result<Vec<Token>, Vec<ScanError>> {
    let mut scanner = Scanner::new(src);
    scanner.scan_tokens()
}

fn parse(src: &str) -> Result<Expr, RuntimeError> {
    let tokens = scan(src).unwrap();
    let mut parser = Parser::new(tokens);
    parser.expression()
}

fn eval(src: &str) -> Result<String, RuntimeError> {
    interpret(&parse(src).unwrap())
}

#[test]
fn print_pretty_ast() {
    let minus_token = Token::new(Minus, "-".to_string(), None, 1);
    let star_token = Token::new(Star, "*".to_string(), None, 1);

    let number = Expr::Literal { value: Val::Number(123) };

    let group = Expr::Grouping {
        expression: Box::new(Expr::Literal { value: Val::Number(45) }),
    };

    let ast = Expr::Binary {
        left: Box::new(Expr::Unary { operator: minus_token, right: Box::new(number) }),
        operator: star_token,
        right: Box::new(group),
    };

    println!("{}", ast.to_string());
    assert_eq!(ast.to_string(), "(* (- 123) (group 45))");
}

#[test]
fn test_parse_expression() {
    let tokens = Scanner::new("(1 + 2) * 3").scan_tokens();
    let mut parser = Parser::new(tokens.unwrap());
    let expr = parser.expression();
    match expr {
        Ok(expr) => println!("Successfully parsed: {:?}", expr),
        Err(err) => println!("Parser error: {:?}", err.render()),
    }
}

#[test]
fn comment_and_newline_scan() {
    let tokens = scan("// comment\n42").unwrap();
    assert_eq!(tokens.len(), 2);
    assert_eq!(tokens[0].token_type, TokenType::Number);
    assert!(matches!(tokens[0].literal, Some(LiteralValue::IntValue(42))));
    assert_eq!(tokens[0].line_number, 2);
    assert_eq!(tokens[1].token_type, TokenType::EOF);
    assert_eq!(tokens[1].lexeme, "");
    assert_eq!(tokens[1].line_number, 2);
}

#[test]
fn precedence_tree_and_value() {
    let expr = parse("1 + 2 * 3").unwrap();
    match &expr {
        Expr::Binary { left, operator, right } => {
            assert_eq!(operator.token_type, TokenType::Plus);
            assert!(matches!(**left, Expr::Literal { value: Val::Number(1) }));
            match &**right {
                Expr::Binary { left: l2, operator: op2, right: r2 } => {
                    assert_eq!(op2.token_type, TokenType::Star);
                    assert!(matches!(**l2, Expr::Literal { value: Val::Number(2) }));
                    assert!(matches!(**r2, Expr::Literal { value: Val::Number(3) }));
                }
                other => panic!("expected multiplication on the right, got {:?}", other),
            }
        }
        other => panic!("expected an addition at the top, got {:?}", other),
    }
    assert_eq!(eval("1 + 2 * 3").unwrap(), "7");
}

#[test]
fn grouping_overrides_precedence() {
    assert_eq!(eval("(1 + 2) * 3").unwrap(), "9");
}

#[test]
fn string_concatenation_and_mixed_plus() {
    assert_eq!(eval("\"a\" + \"b\"").unwrap(), "ab");
    let err = eval("\"a\" + 1").unwrap_err();
    assert_eq!(err.message, "Operands must be two numbers or two strings.");
    assert_eq!(err.line, 1);
    assert_eq!(err.token.lexeme, "+");
}

#[test]
fn equality_is_total() {
    assert_eq!(eval("1 == 1").unwrap(), "true");
    assert_eq!(eval("nil == nil").unwrap(), "true");
    assert_eq!(eval("nil == false").unwrap(), "false");
    assert_eq!(eval("1 != \"1\"").unwrap(), "true");
    assert_eq!(eval("1 == \"1\"").unwrap(), "false");
    assert_eq!(eval("\"ab\" == \"ab\"").unwrap(), "true");
}

#[test]
fn truthiness() {
    assert_eq!(eval("!nil").unwrap(), "true");
    assert_eq!(eval("!0").unwrap(), "false");
    assert_eq!(eval("!\"\"").unwrap(), "false");
    assert_eq!(eval("!false").unwrap(), "true");
    assert_eq!(eval("!!nil").unwrap(), "false");
}

#[test]
fn negating_a_string_is_an_error() {
    let err = eval("-\"x\"").unwrap_err();
    assert_eq!(err.message, "Operand must be a number.");
    assert_eq!(err.line, 1);
    assert_eq!(err.token.lexeme, "-");
    assert_eq!(err.render(), "LINE 1: '-': Operand must be a number.");
}

#[test]
fn missing_close_paren() {
    let err = parse("(1 + 2").unwrap_err();
    assert_eq!(err.message, "Expect ')' after expression, but found EOF");
    assert_eq!(err.line, 1);
    assert_eq!(err.token.token_type, TokenType::EOF);
    assert_eq!(err.render(), "LINE 1: Expect ')' after expression, but found EOF");
}

#[test]
fn evaluation_is_repeatable() {
    let ast = parse("(2 + 3) * 4 - 1").unwrap();
    let first = interpret(&ast).unwrap();
    let second = interpret(&ast).unwrap();
    assert_eq!(first, "19");
    assert_eq!(first, second);
}

#[test]
fn scan_errors_are_collected() {
    let errs = scan("@ #").unwrap_err();
    assert_eq!(errs.len(), 2);
    assert_eq!(errs[0].message, "Unexpected character.");
    assert_eq!(errs[0].line, 1);
    assert_eq!(errs[0].render(), "LINE 1: Unexpected character.");

    let errs = scan("\"abc").unwrap_err();
    assert_eq!(errs.len(), 1);
    assert_eq!(errs[0].message, "Unterminated string.");
    assert_eq!(errs[0].line, 1);
}

#[test]
fn multiline_string_counts_lines() {
    let tokens = scan("\"a\nb\"").unwrap();
    assert_eq!(tokens[0].token_type, TokenType::String);
    assert!(matches!(&tokens[0].literal, Some(LiteralValue::StringValue(s)) if s == "a\nb"));
    assert_eq!(tokens[0].line_number, 2);
}

#[test]
fn arithmetic_and_division() {
    assert_eq!(eval("5 - 3").unwrap(), "2");
    assert_eq!(eval("7 / 2").unwrap(), "3");
    assert_eq!(eval("1 - 2 - 3").unwrap(), "-4");
    let err = eval("1 / 0").unwrap_err();
    assert_eq!(err.message, "Division by zero.");
    let err = eval("1 + nil").unwrap_err();
    assert_eq!(err.message, "Operands must be two numbers or two strings.");
    let err = eval("true * 2").unwrap_err();
    assert_eq!(err.message, "Operands must be numbers.");
}

#[test]
fn comparisons() {
    assert_eq!(eval("1 < 2").unwrap(), "true");
    assert_eq!(eval("2 <= 2").unwrap(), "true");
    assert_eq!(eval("1 > 2").unwrap(), "false");
    assert_eq!(eval("2 >= 3").unwrap(), "false");
    assert_eq!(eval("\"a\" < \"b\"").unwrap(), "true");
    assert_eq!(eval("\"abc\" >= \"abd\"").unwrap(), "false");
    assert_eq!(eval("\"ab\" < \"abc\"").unwrap(), "true");
    let err = eval("1 < \"a\"").unwrap_err();
    assert_eq!(err.message, "Operands must be numbers or strings.");
}

#[test]
fn keywords_and_identifiers() {
    let tokens = scan("while whilex _x and").unwrap();
    assert_eq!(tokens[0].token_type, TokenType::While);
    assert_eq!(tokens[1].token_type, TokenType::Identifier);
    assert_eq!(tokens[1].lexeme, "whilex");
    assert_eq!(tokens[2].token_type, TokenType::Identifier);
    assert_eq!(tokens[3].token_type, TokenType::And);
    assert_eq!(tokens[4].token_type, TokenType::EOF);
}

#[test]
fn two_character_operators() {
    let tokens = scan("! != = == < <= > >= /").unwrap();
    let kinds: Vec<TokenType> = tokens.iter().map(|t| t.token_type).collect();
    assert_eq!(
        kinds,
        vec![
            TokenType::Bang,
            TokenType::BangEqual,
            TokenType::Equal,
            TokenType::EqualEqual,
            TokenType::Less,
            TokenType::LessEqual,
            TokenType::Greater,
            TokenType::GreaterEqual,
            TokenType::Slash,
            TokenType::EOF,
        ]
    );
}

#[test]
fn number_saturates_at_i64_max() {
    let tokens = scan("99999999999999999999").unwrap();
    assert!(matches!(tokens[0].literal, Some(LiteralValue::IntValue(i64::MAX))));
    assert_eq!(tokens[0].lexeme, "99999999999999999999");
}

#[test]
fn unary_nesting_and_negative_numbers() {
    assert_eq!(eval("--5").unwrap(), "5");
    assert_eq!(eval("-5").unwrap(), "-5");
    assert_eq!(eval("-(2 + 3)").unwrap(), "-5");
}

#[test]
fn expected_expression_error() {
    let err = parse("+ 1").unwrap_err();
    assert_eq!(err.message, "Expected expression, but found Plus");
    assert_eq!(err.token.lexeme, "+");
    let err = parse("").unwrap_err();
    assert_eq!(err.message, "Expected expression, but found EOF");
}

#[test]
fn token_rendering() {
    let tokens = scan("42 \"hi\" +").unwrap();
    assert_eq!(tokens[0].to_string(), "Number 42 Some(IntValue(42))");
    assert_eq!(tokens[1].to_string(), "String \"hi\" Some(StringValue(hi))");
    assert_eq!(tokens[2].to_string(), "Plus + None");
}

#[test]
fn trailing_tokens_are_left_unconsumed() {
    let tokens = scan("1 2 3").unwrap();
    let mut parser = Parser::new(tokens);
    let expr = parser.expression().unwrap();
    assert!(matches!(expr, Expr::Literal { value: Val::Number(1) }));
}
