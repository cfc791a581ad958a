use exprscript::evaluator::Evaluator;
use exprscript::interpreter::Interpreter;
use exprscript::parser::Parser;
use exprscript::scanner::Scanner;

#[test]
fn should_handle_error() {
    let result = interpret("print;");

    assert!(result.is_err());
}

fn interpret(input: &str) -> Result<Vec<String>, String> {
    let mut scanner = Scanner::new(String::from(input));
    let tokens = scanner.scan_tokens().unwrap();

    let parser = Parser::new(tokens);
    let statements = parser.parse().map_err(|error| error.message())?;

    let interpreter = Interpreter::new(statements, Evaluator::new(None));
    interpreter.interpret().map_err(|error| error.message())
}
