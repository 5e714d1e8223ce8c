use zeroproto::ast::{
    DefaultValue, Enum, EnumVariant, Field, FieldType, Message, ScalarType, Schema, SchemaItem,
};
use zeroproto::codegen::{
    generate_constants, generate_message, generate_mod_rs, generate_rust_code,
};
use zeroproto::inspect::analyze_schema;
use zeroproto::ir::{
    lower_ast, lower_default_value, lower_enum, lower_field_type, lower_message, to_pascal_case,
    to_snake_case, IrFieldType, IrUtils,
};
use zeroproto::lexer::{tokenize, SyntaxError, Token, TokenKind};
use zeroproto::parser::parse_tokens;
use zeroproto::text::{i64_to_string, str_eq, str_precedes, u64_to_string};
use zeroproto::validator::ValidationUtils;
use zeroproto::{compile_source, parse, validate, CompilerError};

fn ident(name: &str) -> Token {
    Token::Identifier(name.to_string())
}

fn parse_error(input: &str) -> String {
    match parse(input) {
        Err(CompilerError::Parse(message)) => message,
        other => panic!("expected a parse error, got {:?}", other),
    }
}

fn validation_error(schema: &Schema) -> String {
    match validate(schema) {
        Err(CompilerError::Validation(message)) => message,
        other => panic!("expected a validation error, got {:?}", other),
    }
}

fn message_with(name: &str, fields: Vec<(&str, FieldType)>) -> Message {
    let mut message = Message::new(name.to_string());
    for (field_name, field_type) in fields {
        message.add_field(Field::new(field_name.to_string(), field_type));
    }
    message
}

fn schema_of(items: Vec<SchemaItem>) -> Schema {
    let mut schema = Schema::new();
    for item in items {
        schema.add_item(item);
    }
    schema
}

fn user(name: &str) -> FieldType {
    FieldType::UserDefined(name.to_string())
}

fn vector(inner: FieldType) -> FieldType {
    FieldType::Vector(Box::new(inner))
}

#[test]
fn lexer_drops_space_and_comments() {
    let tokens = tokenize("message A { x: u8; } // c\n/* b\n */ enum\t\r\n").unwrap();
    assert_eq!(
        tokens,
        vec![
            Token::Message,
            ident("A"),
            Token::LeftBrace,
            ident("x"),
            Token::Colon,
            ident("u8"),
            Token::Semicolon,
            Token::RightBrace,
            Token::Enum,
        ]
    );
    assert_eq!(tokenize(""), Ok(vec![]));
    assert_eq!(tokenize("a /* never closed"), Ok(vec![ident("a")]));
    assert_eq!(tokenize("/*/ x"), Ok(vec![]));
    assert_eq!(tokenize("/**/x"), Ok(vec![ident("x")]));
    assert_eq!(tokenize("// only a comment"), Ok(vec![]));
}

#[test]
fn lexer_knows_keywords_and_punctuation() {
    assert_eq!(
        tokenize("true false message enum messages _x9 Enum"),
        Ok(vec![
            Token::True,
            Token::False,
            Token::Message,
            Token::Enum,
            ident("messages"),
            ident("_x9"),
            ident("Enum"),
        ])
    );
    assert_eq!(
        tokenize(":;,{}[]=?"),
        Ok(vec![
            Token::Colon,
            Token::Semicolon,
            Token::Comma,
            Token::LeftBrace,
            Token::RightBrace,
            Token::LeftBracket,
            Token::RightBracket,
            Token::Equals,
            Token::Question,
        ])
    );
}

#[test]
fn lexer_reads_numbers() {
    assert_eq!(
        tokenize("12 -7 3.50 -0.5 1. 007"),
        Ok(vec![
            Token::Integer(12),
            Token::Integer(-7),
            Token::Float("3.50".to_string()),
            Token::Float("-0.5".to_string()),
            Token::Float("1.".to_string()),
            Token::Integer(7),
        ])
    );
    assert_eq!(tokenize("9223372036854775807"), Ok(vec![Token::Integer(i64::MAX)]));
    assert_eq!(tokenize("-9223372036854775808"), Ok(vec![Token::Integer(i64::MIN)]));
    assert_eq!(tokenize("9223372036854775808"), Err(SyntaxError::IntegerOutOfRange));
    assert_eq!(tokenize("-9223372036854775809"), Err(SyntaxError::IntegerOutOfRange));
    assert_eq!(tokenize("99999999999999999999999999"), Err(SyntaxError::IntegerOutOfRange));
    assert_eq!(tokenize("-"), Err(SyntaxError::UnexpectedCharacter('-')));
    assert_eq!(tokenize("-x"), Err(SyntaxError::UnexpectedCharacter('-')));
    assert_eq!(tokenize("-.5"), Err(SyntaxError::UnexpectedCharacter('-')));
    assert_eq!(tokenize("1-2"), Ok(vec![Token::Integer(1), Token::Integer(-2)]));
}

#[test]
fn lexer_keeps_string_literals_as_written() {
    assert_eq!(
        tokenize(r#""a\"b" x"#),
        Ok(vec![Token::StringLiteral(r#"a\"b"#.to_string()), ident("x")])
    );
    assert_eq!(tokenize(r#""""#), Ok(vec![Token::StringLiteral(String::new())]));
    assert_eq!(tokenize("\"abc"), Ok(vec![Token::StringLiteral("abc".to_string())]));
    assert_eq!(tokenize("\"ab\\"), Ok(vec![Token::StringLiteral("ab\\".to_string())]));
    assert_eq!(
        tokenize("\"two\nlines\""),
        Ok(vec![Token::StringLiteral("two\nlines".to_string())])
    );
}

#[test]
fn lexer_stops_at_a_character_it_does_not_know() {
    assert_eq!(tokenize("@"), Err(SyntaxError::UnexpectedCharacter('@')));
    assert_eq!(tokenize("a / b"), Err(SyntaxError::UnexpectedCharacter('/')));
    assert_eq!(tokenize("é"), Err(SyntaxError::UnexpectedCharacter('é')));
    assert_eq!(tokenize("naïve"), Err(SyntaxError::UnexpectedCharacter('ï')));
    assert_eq!(tokenize("x . y"), Err(SyntaxError::UnexpectedCharacter('.')));
}

#[test]
fn tokens_have_kinds_with_names() {
    assert_eq!(ident("a").kind(), TokenKind::Identifier);
    assert_eq!(Token::Integer(1).kind(), TokenKind::Integer);
    assert_eq!(Token::Float("1.0".to_string()).kind(), TokenKind::Float);
    assert_eq!(Token::StringLiteral(String::new()).kind(), TokenKind::StringLiteral);
    assert_eq!(Token::RightBrace.kind(), TokenKind::RightBrace);
    assert_eq!(TokenKind::Identifier.name(), "identifier");
    assert_eq!(TokenKind::RightBrace.name(), "'}'");
    assert_eq!(TokenKind::Message.name(), "'message'");
}

#[test]
fn syntax_errors_have_messages() {
    assert_eq!(SyntaxError::UnexpectedCharacter('#').message(), "Unexpected character: #");
    assert_eq!(SyntaxError::IntegerOutOfRange.message(), "Integer literal out of range");
    assert_eq!(SyntaxError::ExpectedItem.message(), "Expected message or enum");
    assert_eq!(
        SyntaxError::ExpectedToken(TokenKind::Colon, None).message(),
        "Expected ':', found end of input"
    );
    assert_eq!(
        SyntaxError::ExpectedToken(TokenKind::Colon, Some(TokenKind::Integer)).message(),
        "Expected ':', found integer"
    );
    assert_eq!(
        SyntaxError::ExpectedIdentifier(true).message(),
        "Expected identifier, found end of input"
    );
    assert_eq!(SyntaxError::ExpectedIdentifier(false).message(), "Expected identifier");
    assert_eq!(
        SyntaxError::ExpectedInteger(true).message(),
        "Expected integer, found end of input"
    );
    assert_eq!(SyntaxError::ExpectedInteger(false).message(), "Expected integer");
    assert_eq!(SyntaxError::ExpectedDefaultValue(true).message(), "Expected default value");
    assert_eq!(
        SyntaxError::ExpectedDefaultValue(false).message(),
        "Expected default value (integer, float, bool, or string)"
    );
}

#[test]
fn parser_reports_the_first_error() {
    assert_eq!(parse_error("message"), "Expected identifier, found end of input");
    assert_eq!(parse_error("message A"), "Expected '{', found end of input");
    assert_eq!(parse_error("message A {"), "Expected '}', found end of input");
    assert_eq!(parse_error("message A { x"), "Expected ':', found end of input");
    assert_eq!(parse_error("message A { x:"), "Expected identifier, found end of input");
    assert_eq!(parse_error("message A { x: }"), "Expected identifier");
    assert_eq!(parse_error("message A { x: u8 }"), "Expected ';', found '}'");
    assert_eq!(parse_error("message A { x: u8;"), "Expected '}', found end of input");
    assert_eq!(parse_error("message A { x: [u8; }"), "Expected ']', found ';'");
    assert_eq!(parse_error("message A { x: [u8"), "Expected ']', found end of input");
    assert_eq!(parse_error("message A { x: u8 ="), "Expected default value");
    assert_eq!(
        parse_error("message A { x: u8 = ; }"),
        "Expected default value (integer, float, bool, or string)"
    );
    assert_eq!(parse_error("message A { x: u8;,, }"), "Expected identifier");
    assert_eq!(parse_error("message 5 {}"), "Expected identifier");
    assert_eq!(parse_error("foo"), "Expected message or enum");
    assert_eq!(parse_error("message A {} ;"), "Expected message or enum");
    assert_eq!(parse_error("enum E { A; }"), "Expected '=', found ';'");
    assert_eq!(parse_error("enum E { A = x; }"), "Expected integer");
    assert_eq!(parse_error("enum E { A ="), "Expected integer, found end of input");
    assert_eq!(parse_error("enum E { A = 1 }"), "Expected ';', found '}'");
    assert_eq!(parse_error("enum E { A = 1.5; }"), "Expected integer");
    assert_eq!(parse_error("message A { x: u8; } @"), "Unexpected character: @");
    assert_eq!(parse_error("message A { x: u8 = 99999999999999999999; }"), "Integer literal out of range");
    assert_eq!(
        parse("message").unwrap_err().message(),
        "Parse error: Expected identifier, found end of input"
    );
}

#[test]
fn parser_reads_the_whole_grammar() {
    let schema = parse(
        r#"
        // a schema
        enum Color { Red = 0; Green = 1; Blue = -2; }
        message Point { x: i32 = -1; y: i32?;, tags: [string]; c: Color? = 0; r: f64 = 2.50; }
        message Empty {}
        "#,
    )
    .unwrap();
    assert_eq!(schema.items.len(), 3);

    let colors = schema.find_enum("Color").unwrap();
    assert_eq!(colors.variants.len(), 3);
    assert_eq!(colors.variants[2].name, "Blue");
    assert_eq!(colors.variants[2].value, Some(-2));
    assert_eq!(colors.find_variant("Green").unwrap().value, Some(1));
    assert!(colors.find_variant("Pink").is_none());

    let point = schema.find_message("Point").unwrap();
    assert_eq!(point.fields.len(), 5);
    assert_eq!(point.fields[0].field_type, FieldType::Scalar(ScalarType::I32));
    assert_eq!(point.fields[0].default_value, Some(DefaultValue::Integer(-1)));
    assert!(!point.fields[0].optional);
    assert!(point.fields[1].optional);
    assert_eq!(point.fields[1].default_value, None);
    assert_eq!(point.fields[2].field_type, vector(FieldType::Scalar(ScalarType::String)));
    assert_eq!(point.fields[3].field_type, user("Color"));
    assert!(point.fields[3].optional);
    assert_eq!(point.fields[3].default_value, Some(DefaultValue::Integer(0)));
    assert_eq!(point.fields[4].default_value, Some(DefaultValue::Float("2.50".to_string())));
    assert_eq!(point.find_field("tags").unwrap().name, "tags");
    assert!(point.find_field("nope").is_none());

    assert!(schema.find_message("Empty").unwrap().fields.is_empty());
    assert!(schema.find_message("Color").is_none());
    assert!(schema.find_enum("Point").is_none());
    assert_eq!(schema.messages().len(), 2);
    assert_eq!(schema.messages()[1].name, "Empty");
    assert_eq!(schema.enums().len(), 1);

    assert!(parse("").unwrap().items.is_empty());
    let nested = parse("message N { v: [[u8]]; }").unwrap();
    assert_eq!(
        nested.find_message("N").unwrap().fields[0].field_type,
        vector(vector(FieldType::Scalar(ScalarType::U8)))
    );
    let all = parse(
        "message S { a:u8; b:u16; c:u32; d:u64; e:i8; f:i16; g:i32; h:i64; i:f32; j:f64; \
         k:bool; l:string; m:bytes; n:U8; }",
    )
    .unwrap();
    let fields = &all.find_message("S").unwrap().fields;
    let scalars = [
        ScalarType::U8,
        ScalarType::U16,
        ScalarType::U32,
        ScalarType::U64,
        ScalarType::I8,
        ScalarType::I16,
        ScalarType::I32,
        ScalarType::I64,
        ScalarType::F32,
        ScalarType::F64,
        ScalarType::Bool,
        ScalarType::String,
        ScalarType::Bytes,
    ];
    for (i, scalar) in scalars.iter().enumerate() {
        assert_eq!(fields[i].field_type, FieldType::Scalar(*scalar));
    }
    assert_eq!(fields[13].field_type, user("U8"));
}

#[test]
fn parser_takes_a_token_stream() {
    let schema = parse_tokens(vec![
        Token::Enum,
        ident("E"),
        Token::LeftBrace,
        ident("A"),
        Token::Equals,
        Token::Integer(4),
        Token::Semicolon,
        Token::RightBrace,
    ])
    .unwrap();
    assert_eq!(schema.enums()[0].variants[0].value, Some(4));
    assert_eq!(
        parse_tokens(vec![Token::RightBrace]).unwrap_err(),
        SyntaxError::ExpectedItem
    );
    assert_eq!(
        parse_tokens(vec![Token::Message, Token::Colon]).unwrap_err(),
        SyntaxError::ExpectedIdentifier(false)
    );
}

#[test]
fn validator_names_the_offending_symbol() {
    let twice = schema_of(vec![
        SchemaItem::Message(Message::new("User".to_string())),
        SchemaItem::Enum(Enum::new("User".to_string())),
    ]);
    assert_eq!(validation_error(&twice), "Duplicate type name 'User' found");
    assert_eq!(
        validate(&twice).unwrap_err().message(),
        "Validation error: Duplicate type name 'User' found"
    );

    let reserved = schema_of(vec![SchemaItem::Message(message_with(
        "U",
        vec![("ok", user("Missing")), ("id", FieldType::Scalar(ScalarType::U64))],
    ))]);
    assert_eq!(validation_error(&reserved), "Field name 'id' is reserved in message 'U'");
    for name in ["type", "id", "data", "buffer"] {
        let schema = schema_of(vec![SchemaItem::Message(message_with(
            "M",
            vec![(name, FieldType::Scalar(ScalarType::U8))],
        ))]);
        assert_eq!(
            validation_error(&schema),
            format!("Field name '{}' is reserved in message 'M'", name)
        );
    }

    let unknown = schema_of(vec![SchemaItem::Message(message_with(
        "U",
        vec![("a", FieldType::Scalar(ScalarType::U8)), ("p", vector(user("Profile")))],
    ))]);
    assert_eq!(validation_error(&unknown), "Unknown type 'Profile' used in field");

    let nested = schema_of(vec![SchemaItem::Message(message_with(
        "U",
        vec![("v", vector(vector(FieldType::Scalar(ScalarType::U8))))],
    ))]);
    assert_eq!(validation_error(&nested), "Nested vectors are not allowed");
    let nested_unknown = schema_of(vec![SchemaItem::Message(message_with(
        "U",
        vec![("v", vector(vector(user("Gone"))))],
    ))]);
    assert_eq!(validation_error(&nested_unknown), "Unknown type 'Gone' used in field");

    let repeated = schema_of(vec![SchemaItem::Message(message_with(
        "M",
        vec![
            ("a", FieldType::Scalar(ScalarType::U8)),
            ("b", FieldType::Scalar(ScalarType::U8)),
            ("a", FieldType::Scalar(ScalarType::U16)),
        ],
    ))]);
    assert_eq!(validation_error(&repeated), "Duplicate field name 'a' in message 'M'");
    let repeated_and_unknown = schema_of(vec![SchemaItem::Message(message_with(
        "M",
        vec![
            ("a", FieldType::Scalar(ScalarType::U8)),
            ("a", FieldType::Scalar(ScalarType::U8)),
            ("c", user("Gone")),
        ],
    ))]);
    assert_eq!(validation_error(&repeated_and_unknown), "Unknown type 'Gone' used in field");
}

#[test]
fn validator_checks_enums() {
    let mut names = Enum::new("E".to_string());
    names.add_variant(EnumVariant::with_value("A".to_string(), 1));
    names.add_variant(EnumVariant::with_value("A".to_string(), 1));
    assert_eq!(
        validation_error(&schema_of(vec![SchemaItem::Enum(names)])),
        "Duplicate variant name 'A' in enum 'E'"
    );

    let mut values = Enum::new("E".to_string());
    values.add_variant(EnumVariant::with_value("A".to_string(), 1));
    values.add_variant(EnumVariant::new("B".to_string()));
    assert_eq!(
        validation_error(&schema_of(vec![SchemaItem::Enum(values)])),
        "Duplicate enum value 1 in enum 'E'"
    );

    let mut negative = Enum::new("Status".to_string());
    negative.add_variant(EnumVariant::with_value("A".to_string(), -5));
    negative.add_variant(EnumVariant::with_value("B".to_string(), 7));
    negative.add_variant(EnumVariant::with_value("C".to_string(), -5));
    assert_eq!(
        validation_error(&schema_of(vec![SchemaItem::Enum(negative)])),
        "Duplicate enum value -5 in enum 'Status'"
    );

    for name in ["Result", "Option", "Status"] {
        let mut reserved = Enum::new(name.to_string());
        reserved.add_variant(EnumVariant::new("A".to_string()));
        reserved.add_variant(EnumVariant::new("B".to_string()));
        assert_eq!(
            validation_error(&schema_of(vec![SchemaItem::Enum(reserved)])),
            format!("Enum name '{}' is reserved", name)
        );
    }

    let mut fine = Enum::new("Color".to_string());
    fine.add_variant(EnumVariant::new("Red".to_string()));
    fine.add_variant(EnumVariant::with_value("Green".to_string(), 5));
    fine.add_variant(EnumVariant::new("Blue".to_string()));
    assert!(validate(&schema_of(vec![SchemaItem::Enum(fine)])).is_ok());
}

#[test]
fn validator_resolves_names_in_any_order() {
    let schema = parse(
        "message A { b: B; list: [A]; c: Color; } message B { a: A?; } enum Color { Red = 1; }",
    )
    .unwrap();
    assert!(validate(&schema).is_ok());
    assert!(schema.validate_basic().is_ok());
    assert!(validate(&Schema::new()).is_ok());

    // the first item with an issue is the one reported
    let schema = parse("message A { x: Gone; } message B { id: u8; }").unwrap();
    assert_eq!(validation_error(&schema), "Unknown type 'Gone' used in field");
    let schema = parse("message B { id: u8; } message A { x: Gone; }").unwrap();
    assert_eq!(validation_error(&schema), "Field name 'id' is reserved in message 'B'");
    let schema = parse("message B { id: u8; } message B { }").unwrap();
    assert_eq!(validation_error(&schema), "Duplicate type name 'B' found");
}

#[test]
fn basic_validation_checks_names_and_references() {
    let twice = schema_of(vec![
        SchemaItem::Message(Message::new("User".to_string())),
        SchemaItem::Message(Message::new("User".to_string())),
    ]);
    assert_eq!(twice.validate_basic(), Err("Duplicate name 'User' found".to_string()));

    let unknown = schema_of(vec![
        SchemaItem::Enum(Enum::new("E".to_string())),
        SchemaItem::Message(message_with(
            "U",
            vec![("id", user("E")), ("p", vector(vector(user("Profile"))))],
        )),
    ]);
    assert_eq!(unknown.validate_basic(), Err("Unknown type 'Profile'".to_string()));
    assert_eq!(unknown.validate_field_type(&user("U")), Ok(()));
    assert_eq!(unknown.validate_field_type(&user("V")), Err("Unknown type 'V'".to_string()));

    let nested = schema_of(vec![SchemaItem::Message(message_with(
        "U",
        vec![("v", vector(vector(FieldType::Scalar(ScalarType::U8))))],
    ))]);
    assert_eq!(nested.validate_basic(), Ok(()));
}

#[test]
fn field_types_report_their_sizes() {
    assert!(ValidationUtils::is_zero_copy_compatible(&vector(user("X"))));
    assert!(ValidationUtils::is_zero_copy_compatible(&FieldType::Scalar(ScalarType::Bytes)));
    assert_eq!(ValidationUtils::max_field_size(&FieldType::Scalar(ScalarType::U64)), Some(8));
    assert_eq!(ValidationUtils::max_field_size(&FieldType::Scalar(ScalarType::String)), Some(4));
    assert_eq!(
        ValidationUtils::max_field_size(&vector(FieldType::Scalar(ScalarType::U16))),
        Some(6)
    );
    assert_eq!(ValidationUtils::max_field_size(&user("X")), None);
    assert_eq!(ValidationUtils::max_field_size(&vector(user("X"))), None);

    assert_eq!(ScalarType::U8.rust_type(), "u8");
    assert_eq!(ScalarType::F64.rust_type(), "f64");
    assert_eq!(ScalarType::String.rust_type(), "&'a str");
    assert_eq!(ScalarType::Bytes.rust_type(), "&'a [u8]");
    assert_eq!(ScalarType::U8.primitive_type_id(), 0);
    assert_eq!(ScalarType::Bool.primitive_type_id(), 10);
    assert_eq!(ScalarType::Bytes.primitive_type_id(), 12);
    assert_eq!(ScalarType::Bool.size(), 1);
    assert_eq!(ScalarType::I16.size(), 2);
    assert_eq!(ScalarType::F32.size(), 4);
    assert_eq!(ScalarType::I64.size(), 8);
    assert_eq!(ScalarType::String.size(), 4);
}

#[test]
fn names_are_converted_between_cases() {
    assert_eq!(to_pascal_case("_leading"), "Leading");
    assert_eq!(to_pascal_case("a__b"), "AB");
    assert_eq!(to_pascal_case("alreadyPascal"), "AlreadyPascal");
    assert_eq!(to_pascal_case("x1_y2_"), "X1Y2");
    assert_eq!(to_pascal_case("_9lives"), "9lives");
    assert_eq!(to_pascal_case("ünder_score"), "ünderScore");
    assert_eq!(to_pascal_case(""), "");

    assert_eq!(to_snake_case("userName"), "user_name");
    assert_eq!(to_snake_case("HTTPServer"), "httpserver");
    assert_eq!(to_snake_case("user_Name"), "user__name");
    assert_eq!(to_snake_case("name_"), "name");
    assert_eq!(to_snake_case("name__"), "name_");
    assert_eq!(to_snake_case("already_snake"), "already_snake");
    assert_eq!(to_snake_case("A"), "a");
    assert_eq!(to_snake_case("x2Y"), "x2_y");
    assert_eq!(to_snake_case("_"), "");
    assert_eq!(to_snake_case(""), "");
    assert_eq!(to_snake_case("aÉb"), "a_Éb");
    assert_eq!(to_snake_case("aéB"), "aé_b");
}

#[test]
fn default_values_are_rendered_as_literals() {
    let any = FieldType::Scalar(ScalarType::U8);
    assert_eq!(lower_default_value(&DefaultValue::Integer(3), &any), "3");
    assert_eq!(lower_default_value(&DefaultValue::Integer(0), &any), "0");
    assert_eq!(lower_default_value(&DefaultValue::Integer(-12), &any), "-12");
    assert_eq!(
        lower_default_value(&DefaultValue::Integer(i64::MIN), &any),
        "-9223372036854775808"
    );
    assert_eq!(lower_default_value(&DefaultValue::Float("1.5".to_string()), &any), "1.5");
    assert_eq!(lower_default_value(&DefaultValue::Float("-3.".to_string()), &any), "-3.");
    assert_eq!(lower_default_value(&DefaultValue::Float("2".to_string()), &any), "2.0");
    assert_eq!(lower_default_value(&DefaultValue::Bool(true), &any), "true");
    assert_eq!(lower_default_value(&DefaultValue::Bool(false), &any), "false");
    assert_eq!(lower_default_value(&DefaultValue::String("hi".to_string()), &any), "\"hi\"");
    assert_eq!(
        lower_default_value(&DefaultValue::String(r#"a\"b"#.to_string()), &any),
        r#""a\"b""#
    );
}

#[test]
fn schema_text_is_parsed_validated_and_lowered() {
    let ir = compile_source("message U { x:u64; y:string?; z:u32=3; }").unwrap();
    assert!(ir.enums.is_empty());
    assert_eq!(ir.messages.len(), 1);
    let message = &ir.messages[0];
    assert_eq!(message.name, "U");
    assert_eq!(message.rust_name, "U");
    assert_eq!(message.reader_name, "UReader");
    assert_eq!(message.builder_name, "UBuilder");
    assert_eq!(message.fields.len(), 3);
    for (i, field) in message.fields.iter().enumerate() {
        assert_eq!(field.index, i as u16);
        assert_eq!(field.offset_constant, format!("FIELD_{}_OFFSET", i));
    }
    assert_eq!(message.fields[0].name, "x");
    assert!(!message.fields[0].optional);
    assert_eq!(message.fields[0].default_value, None);
    assert!(message.fields[1].optional);
    assert_eq!(message.fields[1].default_value, None);
    assert!(!message.fields[2].optional);
    assert_eq!(message.fields[2].default_value, Some("3".to_string()));
    match &message.fields[0].field_type {
        IrFieldType::Scalar { scalar_type, rust_type, primitive_id } => {
            assert_eq!(*scalar_type, ScalarType::U64);
            assert_eq!(rust_type, "u64");
            assert_eq!(*primitive_id, 3);
        }
        other => panic!("expected a scalar, got {:?}", other),
    }

    assert!(matches!(compile_source("message U { x:u64 }"), Err(CompilerError::Parse(_))));
    match compile_source("message U { id:u64; }") {
        Err(CompilerError::Validation(message)) => {
            assert_eq!(message, "Field name 'id' is reserved in message 'U'")
        }
        other => panic!("expected a validation error, got {:?}", other),
    }
}

#[test]
fn lowering_resolves_types_and_names() {
    let schema = parse(
        "message order_line { item_id: u64; Kind: color_kind; next: order_line?; \
         all: [order_line]; kinds: [color_kind]; names: [string]; deep: [[u8]]; } \
         enum color_kind { dark_red = 4; Blue = -1; }",
    )
    .unwrap();
    let ir = lower_ast(&schema);
    assert_eq!(ir.enums.len(), 1);
    let kind = &ir.enums[0];
    assert_eq!(kind.name, "color_kind");
    assert_eq!(kind.rust_name, "ColorKind");
    let variants: Vec<(&str, &str, i64)> = kind
        .variants
        .iter()
        .map(|v| (v.name.as_str(), v.rust_name.as_str(), v.value))
        .collect();
    assert_eq!(variants, vec![("dark_red", "DarkRed", 4), ("Blue", "Blue", -1)]);

    let line = &ir.messages[0];
    assert_eq!(line.rust_name, "OrderLine");
    assert_eq!(line.reader_name, "OrderLineReader");
    assert_eq!(line.builder_name, "OrderLineBuilder");
    assert_eq!(line.fields[1].name, "Kind");
    assert_eq!(line.fields[1].rust_name, "kind");
    assert_eq!(line.fields[0].rust_name, "item_id");
    match &line.fields[1].field_type {
        IrFieldType::UserDefined { user_type, rust_type, is_message } => {
            assert_eq!(user_type, "color_kind");
            assert_eq!(rust_type, "ColorKind");
            assert!(!*is_message);
        }
        other => panic!("expected a user-defined type, got {:?}", other),
    }
    match &line.fields[2].field_type {
        IrFieldType::UserDefined { rust_type, is_message, .. } => {
            assert_eq!(rust_type, "OrderLine");
            assert!(*is_message);
        }
        other => panic!("expected a user-defined type, got {:?}", other),
    }
    let vector_types: Vec<String> = line.fields[3..]
        .iter()
        .map(|f| match &f.field_type {
            IrFieldType::Vector { rust_type, reader_type, .. } => {
                assert_eq!(reader_type, "VectorReader<'a, _>");
                rust_type.clone()
            }
            other => panic!("expected a vector, got {:?}", other),
        })
        .collect();
    assert_eq!(
        vector_types,
        vec![
            "VectorReader<'a, OrderLineReader<'a>>",
            "VectorReader<'a, ColorKind>",
            "VectorReader<'a, &'a str>",
            "VectorReader<'a, VectorReader<'a, u8>>",
        ]
    );
}

#[test]
fn lowering_gives_variants_their_position() {
    let mut colors = Enum::new("E".to_string());
    colors.add_variant(EnumVariant::new("a".to_string()));
    colors.add_variant(EnumVariant::with_value("b".to_string(), 5));
    colors.add_variant(EnumVariant::new("c".to_string()));
    let lowered = lower_enum(&colors);
    let values: Vec<i64> = lowered.variants.iter().map(|v| v.value).collect();
    assert_eq!(values, vec![0, 5, 2]);

    let enums = vec![lowered];
    let message = message_with("m", vec![("e", user("E")), ("f", user("F"))]);
    let lowered = lower_message(&message, &enums);
    assert!(matches!(
        lowered.fields[0].field_type,
        IrFieldType::UserDefined { is_message: false, .. }
    ));
    assert!(matches!(
        lowered.fields[1].field_type,
        IrFieldType::UserDefined { is_message: true, .. }
    ));
    assert!(matches!(
        lower_field_type(&FieldType::Scalar(ScalarType::Bool), &enums),
        IrFieldType::Scalar { primitive_id: 10, .. }
    ));
}

#[test]
fn layout_of_a_message_is_computed() {
    let ir = compile_source(
        "message M { a: u8; b: string; c: [u32]; d: Other; e: Zed; f: [Other]; g: Alpha; } \
         message Other {} message Zed {} enum Alpha { A = 1; }",
    )
    .unwrap();
    let message = &ir.messages[0];
    assert_eq!(IrUtils::field_table_size(message), 35);
    assert_eq!(
        IrUtils::generate_field_offsets(message),
        vec![
            ("FIELD_0_OFFSET".to_string(), 37),
            ("FIELD_1_OFFSET".to_string(), 38),
            ("FIELD_2_OFFSET".to_string(), 42),
            ("FIELD_3_OFFSET".to_string(), 50),
            ("FIELD_4_OFFSET".to_string(), 54),
            ("FIELD_5_OFFSET".to_string(), 58),
            ("FIELD_6_OFFSET".to_string(), 66),
        ]
    );
    let sizes: Vec<usize> =
        message.fields.iter().map(|f| IrUtils::field_size(&f.field_type)).collect();
    assert_eq!(sizes, vec![1, 4, 8, 4, 4, 8, 4]);
    let borrowed: Vec<bool> =
        message.fields.iter().map(|f| IrUtils::requires_lifetime(&f.field_type)).collect();
    assert_eq!(borrowed, vec![false, true, false, true, true, true, false]);
    assert_eq!(IrUtils::get_message_dependencies(message, &ir), vec!["Alpha", "Other", "Zed"]);
    assert!(IrUtils::get_message_dependencies(&ir.messages[1], &ir).is_empty());
    assert_eq!(IrUtils::field_table_size(&ir.messages[1]), 0);
    assert!(IrUtils::generate_field_offsets(&ir.messages[1]).is_empty());
}

#[test]
fn generated_text_is_assembled() {
    let ir = compile_source("message M { a: u8; b: u64; c: string; } message N {}").unwrap();
    let constants = "pub const FIELD_0_OFFSET: usize = 17;\n\
                     pub const FIELD_1_OFFSET: usize = 18;\n\
                     pub const FIELD_2_OFFSET: usize = 26;\n";
    assert_eq!(generate_constants(&ir.messages[0]), constants);
    assert_eq!(generate_constants(&ir.messages[1]), "");
    assert_eq!(
        generate_message(&ir.messages[0], "READER", "BUILDER"),
        format!("{}\n\nREADER\n\nBUILDER", constants)
    );
    assert_eq!(
        generate_rust_code(
            &vec!["E1".to_string()],
            &vec!["M1".to_string(), "M2".to_string()]
        ),
        "use zeroproto::*;\n\nE1\n\nM1\n\nM2\n\n"
    );
    assert_eq!(generate_rust_code(&vec![], &vec![]), "use zeroproto::*;\n\n");
    assert_eq!(
        generate_mod_rs(&vec!["user".to_string(), "order".to_string()]),
        "pub mod user;\npub mod order;\n"
    );
    assert_eq!(generate_mod_rs(&vec![]), "");
}

#[test]
fn schemas_are_counted() {
    let schema = parse(
        "message A { x: u8?; y: [u8]; z: u8 = 1; w: [u8]? = 2; } enum E { A = 0; B = 1; } \
         message B { only: string?; }",
    )
    .unwrap();
    let insight = analyze_schema(&schema);
    assert_eq!(insight.messages.len(), 2);
    assert_eq!(insight.messages[0].name, "A");
    assert_eq!(insight.messages[0].field_count, 4);
    assert_eq!(insight.messages[0].optional_fields, 2);
    assert_eq!(insight.messages[0].defaulted_fields, 2);
    assert_eq!(insight.messages[0].vector_fields, 2);
    assert_eq!(insight.messages[1].name, "B");
    assert_eq!(insight.messages[1].field_count, 1);
    assert_eq!(insight.enums.len(), 1);
    assert_eq!(insight.enums[0].name, "E");
    assert_eq!(insight.enums[0].variant_count, 2);
    assert_eq!(insight.total_fields, 5);
    assert_eq!(insight.optional_fields, 3);
    assert_eq!(insight.defaulted_fields, 2);
    assert_eq!(insight.vector_fields, 2);

    let empty = analyze_schema(&Schema::new());
    assert!(empty.messages.is_empty() && empty.enums.is_empty());
    assert_eq!(empty.total_fields, 0);
}

#[test]
fn text_helpers_format_and_order() {
    assert_eq!(u64_to_string(0), "0");
    assert_eq!(u64_to_string(10), "10");
    assert_eq!(u64_to_string(u64::MAX), "18446744073709551615");
    assert_eq!(i64_to_string(-1), "-1");
    assert_eq!(i64_to_string(i64::MAX), "9223372036854775807");
    assert!(str_eq("héllo", "héllo"));
    assert!(!str_eq("a", "ab"));
    assert!(!str_eq("ab", "ac"));
    assert!(str_precedes("a", "b"));
    assert!(str_precedes("a", "ab"));
    assert!(str_precedes("", "a"));
    assert!(str_precedes("Z", "a"));
    assert!(str_precedes("z", "é"));
    assert!(!str_precedes("b", "a"));
    assert!(!str_precedes("a", "a"));
    assert!(!str_precedes("ab", "a"));
    assert!(!str_precedes("", ""));
}

#[test]
fn compiler_errors_have_their_texts() {
    assert_eq!(CompilerError::Parse("p".to_string()).message(), "Parse error: p");
    assert_eq!(CompilerError::Validation("v".to_string()).message(), "Validation error: v");
    assert_eq!(CompilerError::Codegen("c".to_string()).message(), "Code generation error: c");
    assert_eq!(CompilerError::Io("i".to_string()).message(), "IO error: i");
    assert_eq!(CompilerError::FileNotFound("f".to_string()).message(), "File not found: f");
}
