use zeroproto::ast::{Field, FieldType, Message, ScalarType, Schema, SchemaItem};
use zeroproto::ir::{lower_ast, to_pascal_case, to_snake_case};

#[test]
fn test_to_pascal_case() {
    assert_eq!(to_pascal_case("user_name"), "UserName");
    assert_eq!(to_pascal_case("id"), "Id");
    assert_eq!(to_pascal_case("profile"), "Profile");
}

#[test]
fn test_to_snake_case() {
    assert_eq!(to_snake_case("UserName"), "user_name");
    assert_eq!(to_snake_case("ID"), "id");
    assert_eq!(to_snake_case("Profile"), "profile");
}

#[test]
fn test_ir_lowering() {
    let mut schema = Schema::new();
    let mut message = Message::new("user".to_string());
    message.add_field(Field::new("id".to_string(), FieldType::Scalar(ScalarType::U64)));
    message.add_field(Field::new("name".to_string(), FieldType::Scalar(ScalarType::String)));
    schema.add_item(SchemaItem::Message(message));

    let ir = lower_ast(&schema);
    assert_eq!(ir.messages.len(), 1);
    assert_eq!(ir.messages[0].rust_name, "User");
    assert_eq!(ir.messages[0].reader_name, "UserReader");
    assert_eq!(ir.messages[0].builder_name, "UserBuilder");
    assert_eq!(ir.messages[0].fields.len(), 2);
}
