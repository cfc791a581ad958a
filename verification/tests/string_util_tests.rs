use exprscript::string_util::pascal_to_upper_case_snake;

#[test]
fn should_convert_pascal_to_upper_snake() {
    let input = String::from("InputString");
    let expected_output = "INPUT_STRING";
    let output = pascal_to_upper_case_snake(&input);

    assert_eq!(output, expected_output);
}
