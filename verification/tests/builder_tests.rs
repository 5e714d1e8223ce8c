use zeroproto::{Error, MessageBuilder, MessageReader};

#[test]
fn builder_test_empty_message() {
    let builder = MessageBuilder::new();
    let buffer = builder.finish();
    assert_eq!(buffer, vec![0, 0]);
}

#[test]
fn builder_test_scalar_field() {
    let mut builder = MessageBuilder::new();
    builder.set_scalar(0, 42u16).unwrap();
    let buffer = builder.finish();

    let reader = MessageReader::new(&buffer).unwrap();
    let value: u16 = reader.get_scalar(0).unwrap();
    assert_eq!(value, 42);
}

#[test]
fn builder_test_string_field() {
    let mut builder = MessageBuilder::new();
    builder.set_string(0, "hello").unwrap();
    let buffer = builder.finish();

    let reader = MessageReader::new(&buffer).unwrap();
    let value = reader.get_string(0).unwrap();
    assert_eq!(value, "hello");
}

#[test]
fn test_builder_basic() -> Result<(), Error> {
    let mut builder = MessageBuilder::new();
    builder.set_scalar(0, 42u64)?;
    let data = builder.finish();

    assert_eq!(data.len(), 15); // 2 + 5 + 8
    assert_eq!(data[0], 1); // field count
    assert_eq!(data[2], 3); // u64 type id

    Ok(())
}

#[test]
fn test_builder_multiple_fields() -> Result<(), Error> {
    let mut builder = MessageBuilder::new();
    builder.set_scalar(0, 42u64)?;
    builder.set_scalar(1, 100u32)?;
    let data = builder.finish();

    println!("Buffer length: {}", data.len());
    println!("Buffer: {:?}", data);

    // 2 (field count) + 10 (field table: 2 fields * 5 bytes) + 8 (u64) + 4 (u32) = 24
    assert_eq!(data.len(), 24);

    Ok(())
}

#[test]
fn test_builder_string() -> Result<(), Error> {
    let mut builder = MessageBuilder::new();
    builder.set_string(0, "hello")?;
    let data = builder.finish();

    println!("String buffer length: {}", data.len());
    println!("String buffer: {:?}", data);

    // 2 (field count) + 5 (field table) + 4 (string length) + 5 (string bytes) = 16
    assert_eq!(data.len(), 16);

    Ok(())
}
