use worldspace::kernel::encoding::{
    fnv1a_mix, push_u128_be, push_u32_le, push_u64_le, FNV_OFFSET_BASIS,
};
use worldspace::kernel::world::encode_canonical;
use worldspace::text::{decimal_width, push_decimal, text_contains};

#[test]
fn decimal_numerals() {
    for (n, expected) in
        [(0u64, "0"), (7, "7"), (10, "10"), (1234567890, "1234567890"), (u64::MAX, "18446744073709551615")]
    {
        let mut text = String::from("n=");
        push_decimal(&mut text, n);
        assert_eq!(text, format!("n={expected}"));
        assert_eq!(decimal_width(n), expected.len());
    }
}

#[test]
fn substring_search() {
    assert!(text_contains("000001.snapshot.cbor.zst", "snapshot"));
    assert!(text_contains("snapshot", "snapshot"));
    assert!(text_contains("anything", ""));
    assert!(text_contains("", ""));
    assert!(!text_contains("", "x"));
    assert!(!text_contains("snapsho", "snapshot"));
    assert!(!text_contains("snap shot", "snapshot"));
    assert!(text_contains("aaab", "aab"));
    assert!(text_contains("grüße-snapshot", "snapshot"));
    assert!(text_contains("grüße", "üß"));
}

#[test]
fn integer_byte_orders() {
    let mut buf = vec![0xee];
    push_u32_le(&mut buf, 0x0102_0304);
    assert_eq!(buf, vec![0xee, 0x04, 0x03, 0x02, 0x01]);

    let mut buf = Vec::new();
    push_u64_le(&mut buf, 0x0102_0304_0506_0708);
    assert_eq!(buf, 0x0102_0304_0506_0708u64.to_le_bytes());

    let mut buf = Vec::new();
    push_u128_be(&mut buf, 0x0102_0304_0506_0708_090a_0b0c_0d0e_0f10);
    assert_eq!(buf, (1u8..=16).collect::<Vec<u8>>());

    for (x, y) in [(0.0f32, 1.0f32), (-2.5, 1e-20)] {
        let mut buf = Vec::new();
        push_u32_le(&mut buf, x.to_bits());
        push_u32_le(&mut buf, y.to_bits());
        assert_eq!(buf, [x.to_le_bytes(), y.to_le_bytes()].concat());
    }
}

#[test]
fn fnv1a_known_values() {
    assert_eq!(fnv1a_mix(FNV_OFFSET_BASIS, b""), 0xcbf2_9ce4_8422_2325);
    assert_eq!(fnv1a_mix(FNV_OFFSET_BASIS, b"a"), 0xaf63_dc4c_8601_ec8c);
    assert_eq!(fnv1a_mix(FNV_OFFSET_BASIS, b"foobar"), 0x8594_4171_f739_67e8);
    // Mixing in two parts is mixing the whole.
    let first = fnv1a_mix(FNV_OFFSET_BASIS, b"foo");
    assert_eq!(fnv1a_mix(first, b"bar"), 0x8594_4171_f739_67e8);
}

#[test]
fn canonical_encoding_layout() {
    let mut entities = std::collections::BTreeMap::new();
    let bytes = encode_canonical(1, 2, &entities);
    assert_eq!(bytes, [1u64.to_le_bytes(), 2u64.to_le_bytes()].concat());

    let t = worldspace::common::Transform::default();
    entities.insert(2, worldspace::kernel::world::EntityData { transform: t });
    entities.insert(1, worldspace::kernel::world::EntityData { transform: t });
    let bytes = encode_canonical(0, 0, &entities);
    assert_eq!(bytes.len(), 16 + 2 * (16 + 40));
    assert_eq!(&bytes[16..32], &1u128.to_be_bytes());
    assert_eq!(&bytes[72..88], &2u128.to_be_bytes());
    // position, rotation, scale of the identity transform
    let floats: Vec<u8> = [0.0f32, 0.0, 0.0, 0.0, 0.0, 0.0, 1.0, 1.0, 1.0, 1.0]
        .iter()
        .flat_map(|f| f.to_le_bytes())
        .collect();
    assert_eq!(&bytes[32..72], floats.as_slice());
}
