use zeroproto::codec::{ZpRead, ZpType, ZpWrite};
use zeroproto::{
    Endian, Error, F32Bits, F64Bits, MessageBuilder, MessageReader, PrimitiveType, Vector,
    VectorBuilder, VectorUtils,
};

#[test]
fn single_u32_has_the_documented_bytes() {
    let mut builder = MessageBuilder::new();
    builder.set_scalar(0, 42u32).unwrap();
    let data = builder.finish();
    assert_eq!(data.len(), 11);
    assert_eq!(data, vec![0x01, 0x00, 0x02, 0x07, 0x00, 0x00, 0x00, 0x2A, 0x00, 0x00, 0x00]);
}

#[test]
fn single_string_has_the_documented_bytes() {
    let mut builder = MessageBuilder::new();
    builder.set_string(0, "hello").unwrap();
    let data = builder.finish();
    assert_eq!(data.len(), 16);
    assert_eq!(data[2], 11);
    assert_eq!(&data[3..7], &[7, 0, 0, 0]);
    assert_eq!(&data[7..], &[0x05, 0x00, 0x00, 0x00, 0x68, 0x65, 0x6C, 0x6C, 0x6F]);
}

#[test]
fn two_scalars_take_twenty_four_bytes() {
    let mut builder = MessageBuilder::new();
    builder.set_scalar(0, 42u64).unwrap();
    builder.set_scalar(1, 100u32).unwrap();
    let data = builder.finish();
    assert_eq!(data.len(), 24);
    assert_eq!(&data[..2], &[2, 0]);
    assert_eq!(&data[2..7], &[3, 12, 0, 0, 0]);
    assert_eq!(&data[7..12], &[2, 20, 0, 0, 0]);
}

#[test]
fn empty_builder_gives_two_zero_bytes() {
    assert_eq!(MessageBuilder::new().finish(), vec![0u8, 0u8]);
    assert_eq!(MessageBuilder::default().finish(), vec![0u8, 0u8]);
}

#[test]
fn vector_of_u32_has_the_documented_payload() {
    let mut builder = MessageBuilder::new();
    builder.set_vector(0, &[1u32, 2, 3]).unwrap();
    let data = builder.finish();
    assert_eq!(data[2], 14);
    assert_eq!(
        &data[7..],
        &[0x03, 0, 0, 0, 0x01, 0, 0, 0, 0x02, 0, 0, 0, 0x03, 0, 0, 0]
    );
}

#[test]
fn empty_vector_and_empty_string_are_a_zero_count() {
    let mut builder = MessageBuilder::new();
    let none: [u16; 0] = [];
    builder.set_vector(0, &none).unwrap();
    builder.set_string(1, "").unwrap();
    builder.set_bytes(2, &[]).unwrap();
    let data = builder.finish();
    assert_eq!(data.len(), 2 + 15 + 12);
    let reader = MessageReader::new(&data).unwrap();
    let vector = reader.get_vector::<u16>(0).unwrap();
    assert!(vector.is_empty());
    assert_eq!(vector.len(), 0);
    assert_eq!(vector.collect().unwrap(), Vec::<u16>::new());
    assert_eq!(reader.get_string(1).unwrap(), "");
    assert_eq!(reader.get_bytes(2).unwrap(), &[] as &[u8]);
}

#[test]
fn skipped_fields_are_unset() {
    let mut builder = MessageBuilder::new();
    builder.set_scalar(2, 7u8).unwrap();
    assert_eq!(builder.field_count(), 3);
    let data = builder.finish();
    assert_eq!(&data[..2], &[3, 0]);
    assert_eq!(data[2], 255);
    assert_eq!(data[7], 255);
    assert_eq!(data[12], 0);

    let reader = MessageReader::new(&data).unwrap();
    assert_eq!(reader.field_count(), 3);
    assert_eq!(reader.has_field(0), Ok(false));
    assert_eq!(reader.has_field(1), Ok(false));
    assert_eq!(reader.has_field(2), Ok(true));
    assert_eq!(reader.has_field(3), Ok(false));
    assert_eq!(reader.try_get_scalar::<u8>(0), Ok(None));
    assert_eq!(reader.get_scalar::<u8>(0), Err(Error::MissingField));
    assert!(matches!(reader.try_get_string(1), Ok(None)));
    assert!(matches!(reader.get_string(1), Err(Error::MissingField)));
    assert!(matches!(reader.get_bytes(1), Err(Error::MissingField)));
    assert!(matches!(reader.get_message(1), Err(Error::MissingField)));
    assert!(matches!(reader.get_vector::<u8>(1), Err(Error::MissingField)));
    assert_eq!(reader.get_scalar::<u8>(2), Ok(7));
}

#[test]
fn the_latest_write_of_a_field_wins() {
    let mut builder = MessageBuilder::new();
    builder.set_scalar(0, 1u32).unwrap();
    builder.set_scalar(0, 2u16).unwrap();
    let data = builder.finish();
    // header, one entry, the dead u32 and the u16
    assert_eq!(data.len(), 2 + 5 + 4 + 2);
    assert_eq!(data[2], 1);
    let reader = MessageReader::new(&data).unwrap();
    assert_eq!(reader.get_scalar::<u16>(0), Ok(2));
    assert_eq!(reader.get_scalar::<u32>(0), Err(Error::InvalidFieldType));
}

#[test]
fn the_last_index_is_out_of_bounds() {
    let mut builder = MessageBuilder::new();
    assert_eq!(builder.set_scalar(65535, 1u8), Err(Error::OutOfBounds));
    assert_eq!(builder.set_string(65535, "x"), Err(Error::OutOfBounds));
    assert_eq!(builder.set_bytes(65535, b"x"), Err(Error::OutOfBounds));
    assert_eq!(builder.set_message(65535, &[0, 0]), Err(Error::OutOfBounds));
    assert_eq!(builder.set_vector(65535, &[1u8]), Err(Error::OutOfBounds));
    assert_eq!(builder.field_count(), 0);
    assert_eq!(builder.set_scalar(65534, 1u8), Ok(()));
    assert_eq!(builder.field_count(), 65535);
    let data = builder.finish();
    assert_eq!(data.len(), 2 + 5 * 65535 + 1);
    let reader = MessageReader::new(&data).unwrap();
    assert_eq!(reader.get_scalar::<u8>(65534), Ok(1));
}

#[test]
fn every_scalar_type_is_read_back() {
    let mut builder = MessageBuilder::new();
    builder.set_scalar(0, 0xABu8).unwrap();
    builder.set_scalar(1, 0xABCDu16).unwrap();
    builder.set_scalar(2, 0xDEADBEEFu32).unwrap();
    builder.set_scalar(3, u64::MAX - 5).unwrap();
    builder.set_scalar(4, -1i8).unwrap();
    builder.set_scalar(5, i16::MIN).unwrap();
    builder.set_scalar(6, -123_456_789i32).unwrap();
    builder.set_scalar(7, i64::MIN).unwrap();
    builder.set_scalar(8, F32Bits { bits: f32::NAN.to_bits() | 1 }).unwrap();
    builder.set_scalar(9, F64Bits { bits: (-0.0f64).to_bits() }).unwrap();
    builder.set_scalar(10, true).unwrap();
    builder.set_scalar(11, false).unwrap();
    let data = builder.finish();

    let reader = MessageReader::new(&data).unwrap();
    for k in 0..11u16 {
        assert_eq!(data[2 + 5 * k as usize], k as u8);
    }
    assert_eq!(reader.get_scalar::<u8>(0), Ok(0xAB));
    assert_eq!(reader.get_scalar::<u16>(1), Ok(0xABCD));
    assert_eq!(reader.get_scalar::<u32>(2), Ok(0xDEADBEEF));
    assert_eq!(reader.get_scalar::<u64>(3), Ok(u64::MAX - 5));
    assert_eq!(reader.get_scalar::<i8>(4), Ok(-1));
    assert_eq!(reader.get_scalar::<i16>(5), Ok(i16::MIN));
    assert_eq!(reader.get_scalar::<i32>(6), Ok(-123_456_789));
    assert_eq!(reader.get_scalar::<i64>(7), Ok(i64::MIN));
    assert_eq!(reader.get_scalar::<F32Bits>(8).unwrap().bits, f32::NAN.to_bits() | 1);
    assert_eq!(reader.get_scalar::<F64Bits>(9).unwrap().bits, 0x8000_0000_0000_0000);
    assert_eq!(reader.get_scalar::<bool>(10), Ok(true));
    assert_eq!(reader.get_scalar::<bool>(11), Ok(false));
}

#[test]
fn a_scalar_of_another_type_is_an_invalid_field_type() {
    let mut builder = MessageBuilder::new();
    builder.set_scalar(0, 5u32).unwrap();
    builder.set_string(1, "text").unwrap();
    let data = builder.finish();
    let reader = MessageReader::new(&data).unwrap();
    assert_eq!(reader.get_scalar::<i32>(0), Err(Error::InvalidFieldType));
    assert_eq!(reader.get_scalar::<u8>(0), Err(Error::InvalidFieldType));
    assert_eq!(reader.get_scalar::<u32>(1), Err(Error::InvalidFieldType));
    assert!(matches!(reader.get_string(0), Err(Error::InvalidFieldType)));
    assert!(matches!(reader.get_bytes(1), Err(Error::InvalidFieldType)));
    assert!(matches!(reader.get_message(1), Err(Error::InvalidFieldType)));
    assert!(matches!(reader.get_vector::<u8>(1), Err(Error::InvalidFieldType)));
}

#[test]
fn a_type_id_that_is_not_in_use_is_an_invalid_field_type() {
    let data = vec![1, 0, 99, 7, 0, 0, 0];
    let reader = MessageReader::new(&data).unwrap();
    assert_eq!(reader.has_field(0), Ok(true));
    assert_eq!(reader.get_scalar::<u8>(0), Err(Error::InvalidFieldType));
    assert!(matches!(reader.try_get_bytes(0), Err(Error::InvalidFieldType)));
}

#[test]
fn invalid_utf8_is_reported() {
    let mut builder = MessageBuilder::new();
    builder.set_bytes(0, &[0xFF, 0xFE, 0x41]).unwrap();
    let mut data = builder.finish();
    data[2] = 11;
    let reader = MessageReader::new(&data).unwrap();
    assert!(matches!(reader.get_string(0), Err(Error::InvalidUtf8)));
    assert!(matches!(reader.try_get_string(0), Err(Error::InvalidUtf8)));
}

#[test]
fn strings_outside_ascii_are_read_back() {
    let text = "zażółć gęślą jaźń — 日本語 🦀";
    let mut builder = MessageBuilder::new();
    builder.set_string(0, text).unwrap();
    let data = builder.finish();
    assert_eq!(data.len(), 2 + 5 + 4 + text.len());
    let reader = MessageReader::new(&data).unwrap();
    assert_eq!(reader.get_string(0).unwrap(), text);
}

#[test]
fn a_nested_buffer_without_a_header_is_an_invalid_message() {
    let mut builder = MessageBuilder::new();
    builder.set_message(0, &[7]).unwrap();
    builder.set_message(1, &[1, 0]).unwrap();
    let data = builder.finish();
    let reader = MessageReader::new(&data).unwrap();
    assert!(matches!(reader.get_message(0), Err(Error::InvalidMessage)));
    assert!(matches!(reader.try_get_message(1), Err(Error::InvalidMessage)));
}

#[test]
fn a_nested_message_is_a_slice_of_the_outer_buffer() {
    let mut inner = MessageBuilder::new();
    inner.set_scalar(0, 9u16).unwrap();
    let inner = inner.finish();
    let mut outer = MessageBuilder::new();
    outer.set_message(3, &inner).unwrap();
    let data = outer.finish();
    let start = data.len() - inner.len();
    assert_eq!(&data[start..], &inner[..]);
    let reader = MessageReader::new(&data).unwrap();
    let nested = reader.get_message(3).unwrap();
    assert_eq!(nested.field_count(), 1);
    assert_eq!(nested.get_scalar::<u16>(0), Ok(9));
}

#[test]
fn payloads_that_end_behind_the_buffer_are_out_of_bounds() {
    let mut builder = MessageBuilder::new();
    builder.set_scalar(0, 1u64).unwrap();
    builder.set_string(1, "hello").unwrap();
    builder.set_vector(2, &[1u32, 2, 3]).unwrap();
    let data = builder.finish();

    // cut within the vector, then within the string, then within the u64
    let cut = &data[..data.len() - 1];
    let reader = MessageReader::new(cut).unwrap();
    assert!(matches!(reader.get_vector::<u32>(2), Err(Error::OutOfBounds)));
    assert_eq!(reader.get_string(1).unwrap(), "hello");

    let cut = &data[..2 + 15 + 8 + 6];
    let reader = MessageReader::new(cut).unwrap();
    assert!(matches!(reader.get_string(1), Err(Error::OutOfBounds)));
    assert!(matches!(reader.get_vector::<u32>(2), Err(Error::OutOfBounds)));
    assert_eq!(reader.get_scalar::<u64>(0), Ok(1));

    let cut = &data[..2 + 15 + 7];
    let reader = MessageReader::new(cut).unwrap();
    assert_eq!(reader.get_scalar::<u64>(0), Err(Error::OutOfBounds));

    // an offset far behind the end
    let wild = vec![1, 0, 12, 0xFF, 0xFF, 0xFF, 0xFF];
    let reader = MessageReader::new(&wild).unwrap();
    assert!(matches!(reader.get_bytes(0), Err(Error::OutOfBounds)));

    // a vector whose count promises more than there is
    let greedy = vec![1, 0, 14, 7, 0, 0, 0, 0xFF, 0xFF, 0xFF, 0xFF, 1, 2, 3];
    let reader = MessageReader::new(&greedy).unwrap();
    assert!(matches!(reader.get_vector::<u64>(0), Err(Error::OutOfBounds)));
}

#[test]
fn headers_that_promise_too_much_are_invalid() {
    assert!(matches!(MessageReader::new(&[]), Err(Error::InvalidMessage)));
    assert!(matches!(MessageReader::new(&[1, 0]), Err(Error::InvalidMessage)));
    assert!(matches!(MessageReader::new(&[1, 0, 0, 0, 0, 0]), Err(Error::InvalidMessage)));
    assert!(MessageReader::new(&[1, 0, 0, 0, 0, 0, 0]).is_ok());
}

#[test]
fn arbitrary_bytes_never_make_an_accessor_panic() {
    let mut state: u64 = 0x2545_F491_4F6C_DD1D;
    for round in 0..2000 {
        let len = (round % 61) as usize;
        let mut bytes = Vec::with_capacity(len);
        for _ in 0..len {
            state ^= state << 13;
            state ^= state >> 7;
            state ^= state << 17;
            bytes.push((state >> 24) as u8);
        }
        if len >= 2 && round % 3 != 0 {
            // keep the field count small so that many buffers open
            bytes[0] = (round % 9) as u8;
            bytes[1] = 0;
        }
        if len >= 3 && round % 2 == 0 {
            bytes[2] = (round % 16) as u8;
        }
        if let Ok(reader) = MessageReader::new(&bytes) {
            let count = reader.field_count();
            assert!(bytes.len() >= 2 + 5 * count as usize);
            for k in 0..=count.min(10) {
                let _ = reader.has_field(k);
                let _ = reader.try_get_scalar::<u8>(k);
                let _ = reader.get_scalar::<u64>(k);
                let _ = reader.get_scalar::<i32>(k);
                let _ = reader.get_scalar::<bool>(k);
                let _ = reader.get_string(k);
                let _ = reader.get_bytes(k);
                if let Ok(nested) = reader.get_message(k) {
                    let _ = nested.get_scalar::<u16>(0);
                }
                if let Ok(vector) = reader.get_vector::<u32>(k) {
                    let _ = vector.collect();
                    let _ = vector.get(vector.len());
                    for item in vector.iter() {
                        assert!(item.is_ok());
                    }
                }
            }
        }
    }
}

#[test]
fn vector_reader_gives_each_element() {
    let mut builder = MessageBuilder::new();
    builder.set_vector(0, &[-1i16, 2, -3, 4]).unwrap();
    let data = builder.finish();
    let reader = MessageReader::new(&data).unwrap();
    let vector = reader.get_vector::<i16>(0).unwrap();
    assert_eq!(vector.len(), 4);
    assert!(!vector.is_empty());
    assert_eq!(vector.get(0), Ok(-1));
    assert_eq!(vector.get(3), Ok(4));
    assert_eq!(vector.get(4), Err(Error::OutOfBounds));
    assert_eq!(vector.iter(), vec![Ok(-1), Ok(2), Ok(-3), Ok(4)]);
    assert_eq!(vector.collect(), Ok(vec![-1, 2, -3, 4]));
}

#[test]
fn both_byte_orders_read_and_write() {
    let mut buf = [0u8; 8];
    Endian::Little.write_u32(0x0102_0304, &mut buf, 1);
    assert_eq!(buf, [0, 4, 3, 2, 1, 0, 0, 0]);
    assert_eq!(Endian::Little.read_u32(&buf, 1), 0x0102_0304);
    assert_eq!(Endian::Big.read_u32(&buf, 1), 0x0403_0201);

    Endian::Big.write_u16(0xABCD, &mut buf, 6);
    assert_eq!(&buf[6..], &[0xAB, 0xCD]);
    assert_eq!(Endian::Big.read_u16(&buf, 6), 0xABCD);
    assert_eq!(Endian::Little.read_u16(&buf, 6), 0xCDAB);

    let mut wide = [0u8; 8];
    Endian::Big.write_u64(0x0102_0304_0506_0708, &mut wide, 0);
    assert_eq!(wide, [1, 2, 3, 4, 5, 6, 7, 8]);
    assert_eq!(Endian::Big.read_u64(&wide, 0), 0x0102_0304_0506_0708);
    assert_eq!(Endian::Little.read_u64(&wide, 0), 0x0807_0605_0403_0201);
    Endian::Little.write_u64(u64::MAX - 1, &mut wide, 0);
    assert_eq!(wide, [0xFE, 0xFF, 0xFF, 0xFF, 0xFF, 0xFF, 0xFF, 0xFF]);

    let mut small = [0u8; 2];
    Endian::Little.write_u8(9, &mut small, 1);
    assert_eq!(Endian::Little.read_u8(&small, 1), 9);
    Endian::Little.write_i8(-2, &mut small, 0);
    assert_eq!(small[0], 0xFE);
    assert_eq!(Endian::Big.read_i8(&small, 0), -2);
    Endian::Little.write_bool(true, &mut small, 0);
    assert_eq!(small[0], 1);
    assert!(Endian::Little.read_bool(&small, 0));
    small[0] = 7;
    assert!(Endian::Little.read_bool(&small, 0));
    Endian::Little.write_bool(false, &mut small, 0);
    assert!(!Endian::Little.read_bool(&small, 0));

    let mut signed = [0u8; 8];
    Endian::Little.write_i16(-2, &mut signed, 0);
    assert_eq!(&signed[..2], &[0xFE, 0xFF]);
    assert_eq!(Endian::Little.read_i16(&signed, 0), -2);
    Endian::Big.write_i32(i32::MIN, &mut signed, 0);
    assert_eq!(&signed[..4], &[0x80, 0, 0, 0]);
    assert_eq!(Endian::Big.read_i32(&signed, 0), i32::MIN);
    Endian::Little.write_i64(-1, &mut signed, 0);
    assert_eq!(signed, [0xFF; 8]);
    assert_eq!(Endian::Little.read_i64(&signed, 0), -1);
    Endian::Little.write_i64(i64::MAX, &mut signed, 0);
    assert_eq!(Endian::Little.read_i64(&signed, 0), i64::MAX);
}

#[test]
fn type_ids_and_kinds_name_each_other() {
    let kinds = [
        (PrimitiveType::U8, 0u8, Some(1usize)),
        (PrimitiveType::U16, 1, Some(2)),
        (PrimitiveType::U32, 2, Some(4)),
        (PrimitiveType::U64, 3, Some(8)),
        (PrimitiveType::I8, 4, Some(1)),
        (PrimitiveType::I16, 5, Some(2)),
        (PrimitiveType::I32, 6, Some(4)),
        (PrimitiveType::I64, 7, Some(8)),
        (PrimitiveType::F32, 8, Some(4)),
        (PrimitiveType::F64, 9, Some(8)),
        (PrimitiveType::Bool, 10, Some(1)),
        (PrimitiveType::String, 11, None),
        (PrimitiveType::Bytes, 12, None),
        (PrimitiveType::Message, 13, None),
        (PrimitiveType::Vector, 14, None),
        (PrimitiveType::Unset, 255, None),
    ];
    for (kind, id, size) in kinds {
        assert_eq!(kind.type_id(), id);
        assert_eq!(PrimitiveType::from_u8(id), Some(kind));
        assert_eq!(kind.size(), size);
    }
    for id in 15..255u8 {
        assert_eq!(PrimitiveType::from_u8(id), None);
    }
}

#[test]
fn scalars_report_their_tag_and_width() {
    assert_eq!(<u8 as ZpType>::type_id(), 0);
    assert_eq!(<i64 as ZpType>::type_id(), 7);
    assert_eq!(<F32Bits as ZpType>::type_id(), 8);
    assert_eq!(<F64Bits as ZpType>::type_id(), 9);
    assert_eq!(<bool as ZpType>::type_id(), 10);
    assert_eq!(<u32 as ZpRead>::size(), 4);
    assert_eq!(ZpWrite::size(&7u64), 8);
    assert_eq!(<u16 as ZpRead>::read(&[1, 2, 3], 1), Ok(0x0302));
    assert_eq!(<u16 as ZpRead>::read(&[1, 2, 3], 2), Err(Error::OutOfBounds));
    assert_eq!(<u16 as ZpRead>::read(&[1, 2, 3], usize::MAX), Err(Error::OutOfBounds));
    let mut buf = [0u8; 3];
    assert_eq!(0x0A0Bu16.write(&mut buf, 1), Ok(()));
    assert_eq!(buf, [0, 0x0B, 0x0A]);
    assert_eq!(0x0A0Bu16.write(&mut buf, 2), Err(Error::OutOfBounds));
    assert_eq!(buf, [0, 0x0B, 0x0A]);
}

#[test]
fn vector_payload_is_written_and_read_alone() {
    let elements = [10u16, 20, 30];
    assert_eq!(VectorUtils::calculate_serialized_size(&elements), 10);
    let mut buf = [0xEEu8; 12];
    assert_eq!(VectorUtils::write_vector(&elements, &mut buf, 1), Ok(10));
    assert_eq!(buf, [0xEE, 3, 0, 0, 0, 10, 0, 20, 0, 30, 0, 0xEE]);
    assert_eq!(VectorUtils::read_vector::<u16>(&buf, 1), Ok((vec![10, 20, 30], 10)));

    let mut small = [0xEEu8; 9];
    assert_eq!(VectorUtils::write_vector(&elements, &mut small, 0), Err(Error::OutOfBounds));
    assert_eq!(small, [0xEE; 9]);
    assert_eq!(VectorUtils::write_vector(&elements, &mut buf, 3), Err(Error::OutOfBounds));
    assert_eq!(VectorUtils::read_vector::<u16>(&buf[..10], 1), Err(Error::OutOfBounds));
    assert_eq!(VectorUtils::read_vector::<u16>(&buf, 10), Err(Error::OutOfBounds));
    let empty: [u32; 0] = [];
    let mut four = [1u8; 4];
    assert_eq!(VectorUtils::write_vector(&empty, &mut four, 0), Ok(4));
    assert_eq!(four, [0; 4]);
    assert_eq!(VectorUtils::read_vector::<u32>(&four, 0), Ok((vec![], 4)));
}

#[test]
fn vector_container_holds_its_elements() {
    let mut v: Vector<i32> = Vector::with_capacity(4);
    assert!(v.is_empty());
    v.push(1);
    v.push(2);
    v.push(3);
    assert_eq!(v.as_slice(), &[1, 2, 3]);
    if let Some(x) = v.get_mut(1) {
        *x = 20;
    }
    assert!(v.get_mut(3).is_none());
    assert_eq!(v.get(1), Some(&20));
    assert_eq!(v.get(3), None);
    v.as_mut_slice()[0] = 10;
    assert_eq!(v.pop(), Some(3));
    assert_eq!(v.len(), 2);
    assert_eq!(v.clone().into_vec(), vec![10, 20]);
    v.clear();
    assert_eq!(v.pop(), None);
    assert!(Vector::<u8>::default().is_empty());

    let mut b: VectorBuilder<u8> = VectorBuilder::new();
    assert!(b.is_empty());
    b.push(4);
    b.push(5);
    assert_eq!(b.len(), 2);
    assert!(!b.is_empty());
    assert_eq!(b.finish(), vec![4, 5]);
    assert!(VectorBuilder::<u8>::default().finish().is_empty());
}

#[test]
fn errors_have_their_texts() {
    assert_eq!(Error::OutOfBounds.message(), "Buffer out of bounds");
    assert_eq!(Error::InvalidFieldType.message(), "Invalid field type");
    assert_eq!(Error::InvalidUtf8.message(), "Invalid UTF-8 string");
    assert_eq!(Error::InvalidFormat.message(), "Invalid data format");
    assert_eq!(Error::InvalidMessage.message(), "Invalid message format");
    assert_eq!(Error::MissingField.message(), "Field not present");
    assert_eq!(Error::Custom("mine".to_string()).message(), "mine");
}
