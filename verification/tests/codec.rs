use lotus_script::ffi::{pack, unpack, FfiObject};
use lotus_script::value::{decode_value, encode_value, Value};

#[test]
fn pack_unpack_roundtrip() {
    let handle = pack(0x1234_5678, 0x9ABC_DEF0);
    assert_eq!(handle, 0x1234_5678_9ABC_DEF0u64);
    assert_eq!(unpack(handle), (0x1234_5678, 0x9ABC_DEF0));
    assert_eq!(unpack(pack(0, 0)), (0, 0));
    assert_eq!(unpack(pack(u32::MAX, u32::MAX)), (u32::MAX, u32::MAX));
    assert_eq!(pack(1, 2), (1u64 << 32) | 2);
}

#[test]
fn value_roundtrip_scalars() {
    let values = vec![
        Value::Null,
        Value::Bool(true),
        Value::Bool(false),
        Value::Int(0),
        Value::Int(-1),
        Value::Int(i64::MIN),
        Value::Int(i64::MAX),
        Value::F64Bits(1.5f64.to_bits()),
        Value::Str("hello".to_string()),
        Value::Str(String::new()),
        Value::Str("größer als ASCII — ünïcode".to_string()),
        Value::Bytes(vec![0, 1, 2, 254, 255]),
    ];
    for v in values {
        let encoded = encode_value(&v);
        let back = decode_value(&encoded).expect("decode failed");
        assert_eq!(format!("{back:?}"), format!("{v:?}"));
    }
}

#[test]
fn value_roundtrip_nested() {
    let v = Value::Record(vec![
        ("name".to_string(), Value::Str("wheel".to_string())),
        (
            "readings".to_string(),
            Value::Array(vec![Value::Int(3), Value::Null, Value::Bool(true)]),
        ),
        (
            "nested".to_string(),
            Value::Record(vec![("inner".to_string(), Value::Bytes(vec![9, 8, 7]))]),
        ),
    ]);
    let encoded = encode_value(&v);
    let back = decode_value(&encoded).expect("decode failed");
    assert_eq!(format!("{back:?}"), format!("{v:?}"));
}

#[test]
fn decode_rejects_truncated_and_trailing() {
    let v = Value::Str("hello".to_string());
    let mut encoded = encode_value(&v);
    let mut with_trailing = encoded.clone();
    with_trailing.push(0);
    assert!(decode_value(&with_trailing).is_none());
    encoded.pop();
    assert!(decode_value(&encoded).is_none());
    assert!(decode_value(&vec![99u8]).is_none());
}

#[test]
fn ffi_object_roundtrip() {
    let v = lotus_script::types::BatterySwitch(true);
    let obj = FfiObject::new(&v);
    let back: lotus_script::types::BatterySwitch = obj.deserialize();
    assert!(back.0);

    let handle = obj.packed();
    let (_, len) = unpack(handle);
    assert_eq!(len as usize, obj.bytes().len());

    let data = obj.bytes().clone();
    let borrowed = FfiObject::from_packed(handle, data);
    let again: lotus_script::types::BatterySwitch = borrowed.deserialize();
    assert!(again.0);
}

#[test]
fn allocate_then_deallocate_same_size() {
    let mut ledger = lotus_script::allocator::Allocator::new();
    let addr = ledger.allocate(16);
    assert_eq!(addr % 8, 0);
    ledger.deallocate(addr, 16);

    let a = ledger.allocate(5);
    let b = ledger.allocate(32);
    assert_ne!(a, b);
    assert!(b >= a + 5);
    ledger.deallocate(b, 32);
    ledger.deallocate(a, 5);
}
