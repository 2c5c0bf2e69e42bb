use typify_gostruct::interpreter::TransformTo;
use typify_gostruct::scanner::{scan, Position, ScannerError, TokenWithContext};
use typify_gostruct::transform;

#[test]
fn unterminated_string_reports_exact_position() {
    let src = "type A struct {\nB string `json:\"x\n}";
    let err = transform(src, TransformTo::Typescript).unwrap_err();
    assert_eq!(err, vec!["Missing string terminator at line 2 column 18".to_string()]);
}

#[test]
fn unterminated_string_yields_no_token_stream() {
    let src = "type A struct {\nB string `json:\"x\n}";
    let r: Result<Vec<TokenWithContext>, Vec<ScannerError>> = scan(src);
    let errs = r.unwrap_err();
    assert_eq!(errs.len(), 1);
    assert_eq!(
        errs[0],
        ScannerError::MissingStringTerminator(Position { line: 2, column: 18 })
    );
}

#[test]
fn two_unterminated_strings_both_reported() {
    let src = "\"a\n\"b\n";
    let errs = scan(src).unwrap_err();
    assert_eq!(errs.len(), 2);
    assert_eq!(
        errs[0],
        ScannerError::MissingStringTerminator(Position { line: 1, column: 3 })
    );
    assert_eq!(
        errs[1],
        ScannerError::MissingStringTerminator(Position { line: 2, column: 3 })
    );
}

#[test]
fn missing_struct_keyword_reports_position_and_recovery_continues() {
    let src = "type Foo nope {}\ntype Bar naah {}\n";
    let err = transform(src, TransformTo::Typescript).unwrap_err();
    assert_eq!(
        err,
        vec![
            "Expected Struct but found `nope` at line 1 column 10".to_string(),
            "Expected Struct but found `naah` at line 2 column 10".to_string(),
        ]
    );
}

#[test]
fn malformed_declaration_does_not_suppress_later_errors() {
    let src = "type Foo nope {}\ntype Bar struct x\n";
    let err = transform(src, TransformTo::Typescript).unwrap_err();
    assert_eq!(
        err,
        vec![
            "Expected Struct but found `nope` at line 1 column 10".to_string(),
            "Expected LeftBrace but found `x` at line 2 column 17".to_string(),
        ]
    );
}

#[test]
fn unexpected_end_of_file_inside_struct_body() {
    let src = "type Foo struct {";
    let err = transform(src, TransformTo::Typescript).unwrap_err();
    assert_eq!(err, vec!["Unexpected End Of file".to_string()]);
}

#[test]
fn unexpected_end_of_file_inside_tag_block() {
    let src = "type Foo struct {\nA string `json:\"a\"";
    let err = transform(src, TransformTo::Typescript).unwrap_err();
    assert_eq!(err, vec!["Unexpected End Of file".to_string()]);
}

#[test]
fn unknown_token_after_field_name_is_unknown_error() {
    let src = "Foo :\n";
    let err = transform(src, TransformTo::Typescript).unwrap_err();
    assert_eq!(
        err,
        vec![
            "We have encountered an unknown error. This is likely a bug with the library."
                .to_string(),
        ]
    );
}

#[test]
fn missing_colon_in_tag_block() {
    let src = "type A struct {\nB string `json \"x\"`\n}";
    let err = transform(src, TransformTo::Typescript).unwrap_err();
    assert_eq!(
        err,
        vec!["Expected Colon but found `\"x\"` at line 2 column 16".to_string()]
    );
}

#[test]
fn missing_string_literal_in_tag_block() {
    let src = "type A struct {\nB string `json:x`\n}";
    let err = transform(src, TransformTo::Typescript).unwrap_err();
    assert_eq!(
        err,
        vec!["Expected StringLiteral but found `x` at line 2 column 16".to_string()]
    );
}

#[test]
fn missing_identifier_after_type_keyword() {
    let src = "type struct {}";
    let err = transform(src, TransformTo::Typescript).unwrap_err();
    assert_eq!(
        err,
        vec!["Expected Identifier but found `struct` at line 1 column 6".to_string()]
    );
}

#[test]
fn missing_left_brace_after_struct_keyword() {
    let src = "type Foo struct x\n";
    let err = transform(src, TransformTo::Typescript).unwrap_err();
    assert_eq!(
        err,
        vec!["Expected LeftBrace but found `x` at line 1 column 17".to_string()]
    );
}

#[test]
fn top_level_field_is_an_interpreter_error() {
    let src = "Foo string\n";
    let err = transform(src, TransformTo::Typescript).unwrap_err();
    assert_eq!(
        err,
        vec!["Expected a struct declaration but found a top-level field".to_string()]
    );
}

#[test]
fn no_partial_output_alongside_errors() {
    let src = "type Good struct {\nA int\n}\ntype Bad nope {}\n";
    let r = transform(src, TransformTo::Typescript);
    assert!(r.is_err());
    let err = r.unwrap_err();
    assert_eq!(
        err,
        vec!["Expected Struct but found `nope` at line 4 column 10".to_string()]
    );
}
