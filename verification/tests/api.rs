use typify_gostruct::ast::{DataType, Field, FieldName, FieldType, StructDeclaration, AST};
use typify_gostruct::interpreter::{interpret, InterpreterError, TransformTo, TypeScriptInterpreter};
use typify_gostruct::parser::parse;
use typify_gostruct::scanner::{scan, scan_into_iterator, Token};

#[test]
fn scan_filters_whitespace_and_pointer_tokens() {
    let toks = scan(" *x").unwrap();
    assert_eq!(toks.len(), 1);
    assert!(matches!(toks[0].token, Token::Identifier(ref s) if s == "x"));
    assert_eq!(toks[0].position.line, 1);
    assert_eq!(toks[0].position.column, 3);
    assert_eq!(toks[0].lexeme, "x");
}

#[test]
fn scan_into_iterator_keeps_the_raw_stream() {
    let raw = scan_into_iterator(" *x");
    assert_eq!(raw.len(), 3);
    assert!(matches!(raw[0].as_ref().unwrap().token, Token::Whitespace));
    assert!(matches!(raw[1].as_ref().unwrap().token, Token::Pointer));
    assert!(matches!(raw[2].as_ref().unwrap().token, Token::Identifier(_)));
}

#[test]
fn scan_accepts_owned_strings() {
    let toks = scan(String::from("type")).unwrap();
    assert_eq!(toks.len(), 1);
    assert!(matches!(toks[0].token, Token::Type));
}

#[test]
fn scan_recognizes_keywords_and_punctuation() {
    let toks = scan("type struct json binding { } [ ] : ` other").unwrap();
    assert!(matches!(toks[0].token, Token::Type));
    assert!(matches!(toks[1].token, Token::Struct));
    assert!(matches!(toks[2].token, Token::Json));
    assert!(matches!(toks[3].token, Token::Binding));
    assert!(matches!(toks[4].token, Token::LeftBrace));
    assert!(matches!(toks[5].token, Token::RightBrace));
    assert!(matches!(toks[6].token, Token::LeftBracket));
    assert!(matches!(toks[7].token, Token::RightBracket));
    assert!(matches!(toks[8].token, Token::Colon));
    assert!(matches!(toks[9].token, Token::Graveaccent));
    assert!(matches!(toks[10].token, Token::Identifier(ref s) if s == "other"));
}

#[test]
fn string_literal_lexeme_keeps_quotes_and_literal_drops_them() {
    let toks = scan("\"hello\"").unwrap();
    assert_eq!(toks.len(), 1);
    assert!(matches!(toks[0].token, Token::StringLiteral(ref s) if s == "hello"));
    assert_eq!(toks[0].lexeme, "\"hello\"");
}

#[test]
fn newline_advances_line_and_resets_column() {
    let toks = scan("{\n }").unwrap();
    assert_eq!(toks[0].position.line, 1);
    assert_eq!(toks[0].position.column, 1);
    assert_eq!(toks[1].position.line, 1);
    assert_eq!(toks[1].position.column, 2);
    assert_eq!(toks[2].position.line, 2);
    assert_eq!(toks[2].position.column, 2);
}

#[test]
fn parse_builds_a_struct_declaration() {
    let toks = scan("type A struct {\nB int\n}").unwrap();
    let ast = parse(&toks).unwrap();
    assert_eq!(ast.len(), 1);
    match &ast[0] {
        AST::Declaration(d) => {
            assert_eq!(d.name, "A");
            let named: Vec<&Field> = d
                .body
                .iter()
                .filter(|f| !matches!(f, Field::Blank))
                .collect();
            assert_eq!(named.len(), 1);
            assert!(matches!(
                named[0],
                Field::Plain(FieldName(n), FieldType::One(DataType::Number)) if n == "B"
            ));
        },
        AST::Field(_) => panic!("expected a declaration"),
    }
}

#[test]
fn interpreting_a_hand_built_ast() {
    let ast = vec![AST::Declaration(StructDeclaration {
        name: String::from("X"),
        body: vec![Field::Plain(
            FieldName(String::from("a")),
            FieldType::One(DataType::Number),
        )],
    })];
    let out = interpret(&ast, TransformTo::Typescript).unwrap();
    assert_eq!(out, "export interface X { a: number; }\n");
}

#[test]
fn interpreting_the_same_ast_twice_is_idempotent() {
    let toks = scan("type A struct {\nB int\nC string `json:\"c\"`\n}").unwrap();
    let ast = parse(&toks).unwrap();
    let first = interpret(&ast, TransformTo::Flow).unwrap();
    let second = interpret(&ast, TransformTo::Flow).unwrap();
    assert_eq!(first, second);
    assert_eq!(first, "export type A = { B: number; c: string; };\n");
}

#[test]
fn typescript_interpreter_renders_typescript() {
    let toks = scan("type A struct {\nB int\n}").unwrap();
    let ast = parse(&toks).unwrap();
    let out = TypeScriptInterpreter::new().interpret(&ast).unwrap();
    assert_eq!(out, "export interface A { B: number; }\n");
}

#[test]
fn interpreter_rejects_a_top_level_field() {
    let ast = vec![AST::Field(Field::Plain(
        FieldName(String::from("a")),
        FieldType::One(DataType::Text),
    ))];
    let err = TypeScriptInterpreter::new().interpret(&ast).unwrap_err();
    assert_eq!(err, InterpreterError::ExpectedStructFoundField);
}

#[test]
fn blank_fields_contribute_nothing() {
    let ast = vec![AST::Declaration(StructDeclaration {
        name: String::from("X"),
        body: vec![Field::Blank, Field::Blank],
    })];
    let out = interpret(&ast, TransformTo::Typescript).unwrap();
    assert_eq!(out, "export interface X { }\n");
}

#[test]
fn embedded_field_is_not_an_empty_typed_field() {
    let toks = scan("type P struct {\nEmbedded\n}").unwrap();
    let ast = parse(&toks).unwrap();
    match &ast[0] {
        AST::Declaration(d) => {
            let named: Vec<&Field> = d
                .body
                .iter()
                .filter(|f| !matches!(f, Field::Blank))
                .collect();
            assert_eq!(named.len(), 1);
            assert!(matches!(named[0], Field::Embedded(n) if n == "Embedded"));
        },
        AST::Field(_) => panic!("expected a declaration"),
    }
}
