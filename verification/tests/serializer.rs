use bthome::BTHomeData;
use bthome::BTHomeError;
use bthome::BTHomeUnencryptedSerializer;

fn test_data() -> BTHomeData {
    BTHomeData::new()
        .temperature(1860)
        .humidity(2050)
        .illuminance(2)
        .co2(428)
        .pm2_5(49)
}

const TEST_BYTES: [u8; 17] = [64, 2, 68, 7, 3, 2, 8, 5, 2, 0, 0, 13, 49, 0, 18, 172, 1];

#[test]
fn lib_serialize() {
    let serializer = BTHomeUnencryptedSerializer::new();
    let mut buffer = vec![0u8; 256];
    let size = serializer.serialize_to(test_data(), &mut buffer).unwrap();
    assert_eq!(buffer[0..size], TEST_BYTES);
}

#[test]
fn lib_serialize_std() {
    let serializer = BTHomeUnencryptedSerializer::new();
    let bytes = serializer.serialize(test_data()).unwrap();
    assert_eq!(bytes, TEST_BYTES);
}

#[test]
fn buffer_overflow() {
    let serializer = BTHomeUnencryptedSerializer::new();
    let mut buffer = vec![0u8; 2];
    let res = serializer.serialize_to(test_data(), &mut buffer);
    assert_eq!(res, Err(BTHomeError::BufferOverflow));
}

#[test]
fn u16_overflow() {
    let serializer = BTHomeUnencryptedSerializer::new();
    let mut buffer = vec![0u8; 256];
    let res = serializer.serialize_to(BTHomeData::new().humidity(100000), &mut buffer);
    assert_eq!(res, Err(BTHomeError::ValueOverflow));
}

#[test]
fn u16_underflow() {
    let serializer = BTHomeUnencryptedSerializer::new();
    let mut buffer = vec![0u8; 256];
    let res = serializer.serialize_to(BTHomeData::new().humidity(-100), &mut buffer);
    assert_eq!(res, Err(BTHomeError::ValueUnderflow));
}

#[test]
fn i16_underflow() {
    let serializer = BTHomeUnencryptedSerializer::new();
    let mut buffer = vec![0u8; 256];
    let res = serializer.serialize_to(BTHomeData::new().temperature(-100000), &mut buffer);
    assert_eq!(res, Err(BTHomeError::ValueUnderflow));
}

#[test]
fn empty_record_single_marker_byte() {
    let serializer = BTHomeUnencryptedSerializer::new();
    let bytes = serializer.serialize(BTHomeData::new()).unwrap();
    assert_eq!(bytes, vec![0x40]);
    let mut buffer = vec![0u8; 4];
    let size = serializer.serialize_to(BTHomeData::new(), &mut buffer).unwrap();
    assert_eq!(size, 1);
    assert_eq!(buffer[0], 0x40);
}

#[test]
fn all_fields_in_registry_order() {
    let data = BTHomeData::new()
        .battery(77)
        .temperature(1860)
        .humidity(2050)
        .pressure(100000)
        .illuminance(2)
        .mass_kg(7500)
        .mass_lb(16534)
        .power(123456)
        .pm2_5(49)
        .pm10(80)
        .co2(428)
        .tvoc(114);
    let serializer = BTHomeUnencryptedSerializer::new();
    let bytes = serializer.serialize(data).unwrap();
    let expected: Vec<u8> = vec![
        64, 1, 77, 2, 68, 7, 3, 2, 8, 4, 160, 134, 1, 5, 2, 0, 0, 6, 76, 29, 6, 150, 64, 11, 64,
        226, 1, 13, 49, 0, 14, 80, 0, 18, 172, 1, 19, 114, 0,
    ];
    assert_eq!(bytes, expected);
}

#[test]
fn build_order_does_not_change_emission_order() {
    let serializer = BTHomeUnencryptedSerializer::new();
    let forward = serializer.serialize(test_data()).unwrap();
    let backward = serializer
        .serialize(
            BTHomeData::new()
                .pm2_5(49)
                .co2(428)
                .illuminance(2)
                .humidity(2050)
                .temperature(1860),
        )
        .unwrap();
    assert_eq!(forward, backward);
}

#[test]
fn negative_temperature_two_complement() {
    let serializer = BTHomeUnencryptedSerializer::new();
    let bytes = serializer
        .serialize(BTHomeData::new().temperature(-1860))
        .unwrap();
    assert_eq!(bytes, vec![64, 2, 188, 248]);
}

#[test]
fn scaled_range_boundaries() {
    let serializer = BTHomeUnencryptedSerializer::new();
    let bytes = serializer
        .serialize(
            BTHomeData::new()
                .humidity(65535)
                .temperature(-32768)
                .illuminance(16777215),
        )
        .unwrap();
    assert_eq!(bytes, vec![64, 2, 0, 128, 3, 255, 255, 5, 255, 255, 255]);
    let mut buffer = vec![0u8; 256];
    assert_eq!(
        serializer.serialize_to(BTHomeData::new().temperature(32768), &mut buffer),
        Err(BTHomeError::ValueOverflow)
    );
    assert_eq!(
        serializer.serialize_to(BTHomeData::new().illuminance(16777216), &mut buffer),
        Err(BTHomeError::ValueOverflow)
    );
    assert_eq!(
        serializer.serialize_to(BTHomeData::new().illuminance(-1), &mut buffer),
        Err(BTHomeError::ValueUnderflow)
    );
}

#[test]
fn undersized_buffer_always_overflows() {
    let serializer = BTHomeUnencryptedSerializer::new();
    for cap in 0..17usize {
        let mut buffer = vec![0u8; cap];
        let res = serializer.serialize_to(test_data(), &mut buffer);
        assert_eq!(res, Err(BTHomeError::BufferOverflow));
        assert_eq!(buffer.len(), cap);
    }
    let mut exact = vec![0u8; 17];
    assert_eq!(serializer.serialize_to(test_data(), &mut exact), Ok(17));
}

#[test]
fn trailing_bytes_kept() {
    let serializer = BTHomeUnencryptedSerializer::new();
    let mut buffer = vec![0xEEu8; 20];
    let size = serializer.serialize_to(test_data(), &mut buffer).unwrap();
    assert_eq!(size, 17);
    assert_eq!(buffer[0..17], TEST_BYTES);
    assert_eq!(&buffer[17..], &[0xEE, 0xEE, 0xEE]);
}
