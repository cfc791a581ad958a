use exprscript::evaluator::EvaluationError;
use exprscript::evaluator::Evaluator;
use exprscript::interpreter::Interpreter;
use exprscript::parser::Parser;
use exprscript::parser::ParsingError;
use exprscript::scanner::Scanner;
use exprscript::scanner::ScanningError;
use exprscript::token::Token;
use exprscript::token::TokenType;

fn evaluate(input: &str) -> Result<String, EvaluationError> {
    let mut scanner = Scanner::new(String::from(input));
    let tokens = scanner.scan_tokens().unwrap();
    let parser = Parser::new(tokens);
    let ast = parser.parse_ast().unwrap();
    Evaluator::new(Some(ast)).evaluate()
}

fn render(input: &str) -> String {
    let mut scanner = Scanner::new(String::from(input));
    let tokens = scanner.scan_tokens().unwrap();
    let parser = Parser::new(tokens);
    parser.parse_ast().unwrap().ast_text()
}

#[test]
fn terminal_token_is_always_last_and_unique() {
    let inputs = ["", "({})", "1 + |", "\"open", "// only a comment", "a | b | c"];
    for input in inputs {
        let mut scanner = Scanner::new(String::from(input));
        let tokens = match scanner.scan_tokens() {
            Ok(tokens) => tokens,
            Err(summary) => summary.tokens,
        };
        let terminal_count =
            tokens.iter().filter(|t| t.token_type == TokenType::Eof).count();
        assert_eq!(terminal_count, 1);
        assert_eq!(tokens.last().unwrap().token_type, TokenType::Eof);
    }
}

#[test]
fn addition_of_numbers_adds() {
    assert_eq!(evaluate("8 + 4").unwrap(), "12");
}

#[test]
fn addition_of_strings_concatenates() {
    assert_eq!(evaluate("\"Hello\" + \"World\"").unwrap(), "HelloWorld");
}

#[test]
fn mixed_arithmetic_with_nested_grouping() {
    assert_eq!(evaluate("63 + 59 - (-(52 - 89))").unwrap(), "85");
}

#[test]
fn division_yields_fractions() {
    assert_eq!(evaluate("2 / 4").unwrap(), "0.5");
}

#[test]
fn division_by_zero_follows_float_semantics() {
    assert_eq!(evaluate("1 / 0").unwrap(), "inf");
    assert_eq!(evaluate("-1 / 0").unwrap(), "-inf");
}

#[test]
fn large_and_small_results_print_in_positional_notation() {
    assert_eq!(evaluate("100 * 100").unwrap(), "10000");
    assert_eq!(evaluate("100000 * 100000").unwrap(), "10000000000");
    assert_eq!(evaluate("1 / 100000").unwrap(), "0.00001");
    assert_eq!(evaluate("12345.6 * 10").unwrap(), "123456");
}

#[test]
fn comparisons_of_numbers() {
    assert_eq!(evaluate("1 < 3").unwrap(), "true");
    assert_eq!(evaluate("1 <= 1").unwrap(), "true");
    assert_eq!(evaluate("2 > 1").unwrap(), "true");
    assert_eq!(evaluate("2 >= 3").unwrap(), "false");
}

#[test]
fn equality_is_defined_for_every_pairing() {
    assert_eq!(evaluate("1 == 1").unwrap(), "true");
    assert_eq!(evaluate("\"a\" == \"a\"").unwrap(), "true");
    assert_eq!(evaluate("nil == nil").unwrap(), "true");
    assert_eq!(evaluate("1 == \"1\"").unwrap(), "false");
    assert_eq!(evaluate("nil != 0").unwrap(), "true");
}

#[test]
fn truthiness_of_the_false_text() {
    assert_eq!(evaluate("!\"false\"").unwrap(), "true");
    assert_eq!(evaluate("!\"truthy text\"").unwrap(), "false");
    assert_eq!(evaluate("!0").unwrap(), "true");
}

#[test]
fn numeric_literal_rendering_round_trips() {
    let first = render("42.5");
    let second = render(&first);
    assert_eq!(first, second);

    let first = render("38");
    let second = render(&first);
    assert_eq!(first, "38.0");
    assert_eq!(first, second);
}

#[test]
fn interpreting_prints_lines_in_order() {
    let input = "print \"Hello\"; print \"World\";";
    let mut scanner = Scanner::new(String::from(input));
    let tokens = scanner.scan_tokens().unwrap();
    let parser = Parser::new(tokens);
    let statements = parser.parse().unwrap();
    let interpreter = Interpreter::new(statements, Evaluator::new(None));
    let lines = interpreter.interpret().unwrap();

    assert_eq!(lines, vec![String::from("Hello"), String::from("World")]);
}

#[test]
fn interpreting_stops_at_the_first_evaluation_error() {
    let input = "print \"before\"; print 1 + nil; print \"after\";";
    let mut scanner = Scanner::new(String::from(input));
    let tokens = scanner.scan_tokens().unwrap();
    let parser = Parser::new(tokens);
    let statements = parser.parse().unwrap();
    let interpreter = Interpreter::new(statements, Evaluator::new(None));
    let result = interpreter.interpret();

    assert!(matches!(result, Err(EvaluationError::NumericOperandsRequired)));
}

#[test]
fn unexpected_character_error_carries_line_and_character() {
    let mut scanner = Scanner::new(String::from("\n|"));
    let summary = scanner.scan_tokens().err().unwrap();
    assert_eq!(summary.errors.len(), 1);
    match &summary.errors[0] {
        ScanningError::UnexpectedCharacter { line, character } => {
            assert_eq!(*line, 2);
            assert_eq!(*character, '|');
            assert_eq!(
                summary.errors[0].message(),
                "[line 2] Error: Unexpected character: |"
            );
        }
        _ => panic!("Error should be UnexpectedCharacter"),
    }
}

#[test]
fn unterminated_string_counts_embedded_newlines() {
    let mut scanner = Scanner::new(String::from("\"a\nb"));
    let summary = scanner.scan_tokens().err().unwrap();
    assert_eq!(summary.errors.len(), 1);
    match &summary.errors[0] {
        ScanningError::UnterminatedString { line, input } => {
            assert_eq!(*line, 2);
            assert_eq!(input, "\"a\nb");
            assert_eq!(summary.errors[0].message(), "[line 2] Error: Unterminated string.");
        }
        _ => panic!("Error should be UnterminatedString"),
    }
}

#[test]
fn summary_output_renders_the_tokens_found() {
    let mut scanner = Scanner::new(String::from("(|"));
    let summary = scanner.scan_tokens().err().unwrap();
    assert_eq!(summary.get_output().unwrap(), "LEFT_PAREN ( null\nEOF  null");
    assert_eq!(
        summary.get_error_details().unwrap(),
        "[line 1] Error: Unexpected character: |"
    );
}

#[test]
fn summary_message_renders_errors_before_tokens() {
    let mut scanner = Scanner::new(String::from("(|"));
    let summary = scanner.scan_tokens().err().unwrap();
    assert_eq!(
        summary.message(),
        "[line 1] Error: Unexpected character: |\nLEFT_PAREN ( null\nEOF  null"
    );
}

#[test]
fn missing_semicolon_is_an_unexpected_token() {
    let mut scanner = Scanner::new(String::from("1 + 2"));
    let tokens = scanner.scan_tokens().unwrap();
    let parser = Parser::new(tokens);
    assert!(matches!(parser.parse(), Err(ParsingError::UnexpectedToken)));
}

#[test]
fn unary_minus_demands_a_number() {
    assert!(matches!(
        evaluate("-\"a\""),
        Err(EvaluationError::NumericOperandRequired)
    ));
}

#[test]
fn arithmetic_demands_numbers() {
    assert!(matches!(
        evaluate("1 + \"a\""),
        Err(EvaluationError::NumericOperandsRequired)
    ));
    assert!(matches!(
        evaluate("\"a\" < \"b\""),
        Err(EvaluationError::NumericOperandsRequired)
    ));
}

#[test]
fn evaluator_without_an_expression_reports_the_defensive_error() {
    let evaluator = Evaluator::new(None);
    assert!(matches!(
        evaluator.evaluate(),
        Err(EvaluationError::InvalidExpression)
    ));
}

#[test]
fn numeric_lexeme_keeps_trailing_dot_for_the_dot_rule() {
    let mut scanner = Scanner::new(String::from("12."));
    let tokens = scanner.scan_tokens().unwrap();
    let kinds: Vec<TokenType> = tokens.iter().map(|t: &Token| t.token_type).collect();
    assert_eq!(kinds, vec![TokenType::Number, TokenType::Dot, TokenType::Eof]);
}

#[test]
fn token_display_renders_kind_lexeme_and_literal() {
    let mut scanner = Scanner::new(String::from("\"hi\" foo ("));
    let tokens = scanner.scan_tokens().unwrap();
    assert_eq!(tokens[0].display_text(), "STRING \"hi\" hi");
    assert_eq!(tokens[1].display_text(), "IDENTIFIER foo null");
    assert_eq!(tokens[2].display_text(), "LEFT_PAREN ( null");
    assert_eq!(tokens[3].display_text(), "EOF  null");
}

#[test]
fn keyword_literal_rendering_round_trips() {
    for keyword in ["true", "false", "nil"] {
        let first = render(keyword);
        assert_eq!(first, keyword);
        let second = render(&first);
        assert_eq!(first, second);
    }
}
