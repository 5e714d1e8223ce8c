use zeroproto::{Error, MessageBuilder, MessageReader};

#[test]
fn test_message_reader_creation() {
    let buffer = vec![0, 0]; // Empty message with 0 fields
    let reader = MessageReader::new(&buffer).unwrap();
    assert_eq!(reader.field_count(), 0);
}

#[test]
fn test_invalid_message_too_short() {
    let buffer = vec![0]; // Too short for field count
    assert!(matches!(MessageReader::new(&buffer), Err(Error::InvalidMessage)));
}

#[test]
fn reader_test_scalar_field() {
    let mut builder = MessageBuilder::new();
    builder.set_scalar(0, 42u16).unwrap();
    let buffer = builder.finish();

    println!("Reader buffer: {:?}", buffer);

    let reader = MessageReader::new(&buffer).unwrap();
    let value: u16 = reader.get_scalar(0).unwrap();
    assert_eq!(value, 42);
}

#[test]
fn test_reader_basic() -> Result<(), Error> {
    let mut builder = MessageBuilder::new();
    builder.set_scalar(0, 42u64)?;
    let data = builder.finish();

    let reader = MessageReader::new(&data)?;
    let value: u64 = reader.get_scalar(0)?;
    assert_eq!(value, 42);

    Ok(())
}

#[test]
fn test_reader_string() -> Result<(), Error> {
    let mut builder = MessageBuilder::new();
    builder.set_string(0, "hello")?;
    let data = builder.finish();

    let reader = MessageReader::new(&data)?;
    let value = reader.get_string(0)?;
    assert_eq!(value, "hello");

    Ok(())
}

#[test]
fn test_reader_bytes() -> Result<(), Error> {
    let mut builder = MessageBuilder::new();
    builder.set_bytes(0, b"world")?;
    let data = builder.finish();

    let reader = MessageReader::new(&data)?;
    let value = reader.get_bytes(0)?;
    assert_eq!(value, b"world");

    Ok(())
}

#[test]
fn test_reader_vector() -> Result<(), Error> {
    let mut builder = MessageBuilder::new();
    builder.set_vector(0, &[1u32, 2u32, 3u32])?;
    let data = builder.finish();

    let reader = MessageReader::new(&data)?;
    let vector = reader.get_vector::<u32>(0)?;
    let values: Vec<u32> = vector.collect()?;
    assert_eq!(values, vec![1, 2, 3]);

    Ok(())
}

#[test]
fn test_reader_nested_message() -> Result<(), Error> {
    let mut nested_builder = MessageBuilder::new();
    nested_builder.set_scalar(0, 42u64)?;
    let nested_data = nested_builder.finish();

    let mut builder = MessageBuilder::new();
    builder.set_message(0, &nested_data)?;
    let data = builder.finish();

    let reader = MessageReader::new(&data)?;
    let nested_reader = reader.get_message(0)?;
    let value: u64 = nested_reader.get_scalar(0)?;
    assert_eq!(value, 42);

    Ok(())
}

#[test]
fn test_reader_field_count() -> Result<(), Error> {
    let mut builder = MessageBuilder::new();
    builder.set_scalar(0, 1u8)?;
    builder.set_scalar(1, 2u8)?;
    builder.set_scalar(2, 3u8)?;
    let data = builder.finish();

    let reader = MessageReader::new(&data)?;
    assert_eq!(reader.field_count(), 3);

    Ok(())
}

#[test]
fn test_reader_invalid_field() {
    let mut builder = MessageBuilder::new();
    builder.set_scalar(0, 42u64).unwrap();
    let data = builder.finish();

    let reader = MessageReader::new(&data).unwrap();
    let result: Result<u64, Error> = reader.get_scalar(1);
    assert!(result.is_err());
    assert!(matches!(result.unwrap_err(), Error::OutOfBounds));
}

#[test]
fn test_reader_zero_copy() -> Result<(), Error> {
    let mut builder = MessageBuilder::new();
    builder.set_string(0, "hello world")?;
    let data = builder.finish();

    let reader = MessageReader::new(&data)?;
    let string = reader.get_string(0)?;

    // Verify zero-copy
    let string_ptr = string.as_ptr();
    let data_ptr = data.as_ptr();

    assert!(string_ptr as usize >= data_ptr as usize);
    assert!((string_ptr as usize) < data_ptr as usize + data.len());

    Ok(())
}
