use zeroproto::ast::{Field, FieldType, Message, ScalarType, Schema, SchemaItem};
use zeroproto::validate;

#[test]
fn test_valid_message() {
    let mut schema = Schema::new();
    let mut message = Message::new("User".to_string());
    message.add_field(Field::new("user_id".to_string(), FieldType::Scalar(ScalarType::U64)));
    message.add_field(Field::new("name".to_string(), FieldType::Scalar(ScalarType::String)));
    schema.add_item(SchemaItem::Message(message));

    assert!(validate(&schema).is_ok());
}

#[test]
fn test_duplicate_type_names() {
    let mut schema = Schema::new();
    schema.add_item(SchemaItem::Message(Message::new("User".to_string())));
    schema.add_item(SchemaItem::Message(Message::new("User".to_string())));

    assert!(validate(&schema).is_err());
}

#[test]
fn test_unknown_field_type() {
    let mut schema = Schema::new();
    let mut message = Message::new("User".to_string());
    message.add_field(Field::new(
        "profile".to_string(),
        FieldType::UserDefined("Profile".to_string()),
    ));
    schema.add_item(SchemaItem::Message(message));

    assert!(validate(&schema).is_err());
}

#[test]
fn test_nested_vector() {
    let mut schema = Schema::new();
    let mut message = Message::new("User".to_string());
    let nested_vector = FieldType::Vector(Box::new(FieldType::Vector(Box::new(
        FieldType::Scalar(ScalarType::U64),
    ))));
    message.add_field(Field::new("bad_field".to_string(), nested_vector));
    schema.add_item(SchemaItem::Message(message));

    assert!(validate(&schema).is_err());
}
