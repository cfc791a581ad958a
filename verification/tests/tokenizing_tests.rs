use exprscript::token::TokenType;

#[test]
fn should_convert_enum_name_to_upper_snake_case() {
    let token_type = TokenType::LeftParen;
    let token_type_as_string = token_type.display_name();

    assert_eq!(token_type_as_string, "LEFT_PAREN");
}
