use zeroproto::ast::{DefaultValue, FieldType, ScalarType, SchemaItem};
use zeroproto::parse;

#[test]
fn test_simple_message() {
    let input = r#"
            message User {
                id: u64;
                name: string;
            }
        "#;

    let schema = parse(input).unwrap();
    assert_eq!(schema.items.len(), 1);

    if let SchemaItem::Message(msg) = &schema.items[0] {
        assert_eq!(msg.name, "User");
        assert_eq!(msg.fields.len(), 2);
        assert_eq!(msg.fields[0].name, "id");
        assert_eq!(msg.fields[1].name, "name");
    } else {
        panic!("Expected message");
    }
}

#[test]
fn parser_test_vector_field() {
    let input = r#"
            message User {
                friends: [u64];
            }
        "#;

    let schema = parse(input).unwrap();

    if let SchemaItem::Message(msg) = &schema.items[0] {
        assert_eq!(msg.name, "User");
        assert_eq!(msg.fields.len(), 1);

        let field = &msg.fields[0];
        assert_eq!(field.name, "friends");

        if let FieldType::Vector(inner) = &field.field_type {
            if let FieldType::Scalar(ScalarType::U64) = **inner {
                // Correct
            } else {
                panic!("Expected vector of u64");
            }
        } else {
            panic!("Expected vector type");
        }
    } else {
        panic!("Expected message");
    }
}

#[test]
fn test_optional_field() {
    let input = r#"
            message User {
                user_id: u64;
                nickname: string?;
            }
        "#;

    let schema = parse(input).unwrap();

    if let SchemaItem::Message(msg) = &schema.items[0] {
        assert_eq!(msg.fields.len(), 2);
        assert!(!msg.fields[0].optional, "user_id should not be optional");
        assert!(msg.fields[1].optional, "nickname should be optional");
    } else {
        panic!("Expected message");
    }
}

#[test]
fn test_default_values() {
    let input = r#"
            message Config {
                max_retries: u32 = 3;
                timeout_ms: u64 = 5000;
                debug_mode: bool = false;
                name: string = "default";
            }
        "#;

    let schema = parse(input).unwrap();

    if let SchemaItem::Message(msg) = &schema.items[0] {
        assert_eq!(msg.fields.len(), 4);

        // Check max_retries default
        assert!(msg.fields[0].default_value.is_some());
        if let Some(DefaultValue::Integer(val)) = &msg.fields[0].default_value {
            assert_eq!(*val, 3);
        } else {
            panic!("Expected integer default for max_retries");
        }

        // Check debug_mode default
        assert!(msg.fields[2].default_value.is_some());
        if let Some(DefaultValue::Bool(val)) = &msg.fields[2].default_value {
            assert!(!*val);
        } else {
            panic!("Expected bool default for debug_mode");
        }

        // Check name default
        assert!(msg.fields[3].default_value.is_some());
        if let Some(DefaultValue::String(val)) = &msg.fields[3].default_value {
            assert_eq!(val, "default");
        } else {
            panic!("Expected string default for name");
        }
    } else {
        panic!("Expected message");
    }
}

#[test]
fn test_optional_with_default() {
    let input = r#"
            message User {
                nickname: string? = "anonymous";
            }
        "#;

    let schema = parse(input).unwrap();

    if let SchemaItem::Message(msg) = &schema.items[0] {
        let field = &msg.fields[0];
        assert!(field.optional, "Field should be optional");
        assert!(field.default_value.is_some(), "Field should have default value");
    } else {
        panic!("Expected message");
    }
}
