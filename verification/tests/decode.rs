//! Decoding raw cells: one case per declared type, nulls, and the
//! failure paths.

use crossdb::column::DataType;
use crossdb::error::Error;
use crossdb::value::{RawCell, Value};

fn cell(data: Vec<u8>) -> RawCell {
    RawCell { null: false, data, blob_len: 0 }
}

fn blob(data: Vec<u8>, blob_len: i32) -> RawCell {
    RawCell { null: false, data, blob_len }
}

fn null_cell() -> RawCell {
    RawCell { null: true, data: Vec::new(), blob_len: 0 }
}

#[test]
fn decode_null_type() {
    assert_eq!(Value::decode(&cell(vec![]), DataType::Null), Ok(Value::Null));
}

#[test]
fn decode_signed_integers() {
    assert_eq!(Value::decode(&cell(vec![18]), DataType::TinyInt), Ok(Value::I8(18)));
    assert_eq!(Value::decode(&cell(vec![0xFF]), DataType::TinyInt), Ok(Value::I8(-1)));
    assert_eq!(Value::decode(&cell(vec![0x2C, 0x01]), DataType::SmallInt), Ok(Value::I16(300)));
    assert_eq!(
        Value::decode(&cell(vec![0xFF, 0xFF]), DataType::SmallInt),
        Ok(Value::I16(-1))
    );
    assert_eq!(
        Value::decode(&cell(vec![1, 0, 0, 0]), DataType::Int),
        Ok(Value::I32(1))
    );
    assert_eq!(
        Value::decode(&cell(vec![0xFF, 0xFF, 0xFF, 0xFF]), DataType::Int),
        Ok(Value::I32(-1))
    );
    assert_eq!(
        Value::decode(&cell(vec![0xD2, 0x02, 0x96, 0x49, 0, 0, 0, 0]), DataType::BigInt),
        Ok(Value::I64(1234567890))
    );
    assert_eq!(
        Value::decode(
            &cell(vec![0xFF, 0xFF, 0xFF, 0xFF, 0xFF, 0xFF, 0xFF, 0xFF]),
            DataType::BigInt
        ),
        Ok(Value::I64(-1))
    );
}

#[test]
fn decode_unsigned_integers() {
    assert_eq!(Value::decode(&cell(vec![200]), DataType::UTinyInt), Ok(Value::U32(200)));
    assert_eq!(
        Value::decode(&cell(vec![0xFF, 0xFF]), DataType::USmallInt),
        Ok(Value::U32(65535))
    );
    assert_eq!(
        Value::decode(&cell(vec![0xFF, 0xFF, 0xFF, 0xFF]), DataType::UInt),
        Ok(Value::U32(u32::MAX))
    );
    assert_eq!(
        Value::decode(
            &cell(vec![0xFF, 0xFF, 0xFF, 0xFF, 0xFF, 0xFF, 0xFF, 0xFF]),
            DataType::UBigInt
        ),
        Ok(Value::U64(u64::MAX))
    );
}

#[test]
fn decode_floats_carry_bit_patterns() {
    let bits32 = 1.5f32.to_bits();
    assert_eq!(
        Value::decode(&cell(bits32.to_le_bytes().to_vec()), DataType::Float),
        Ok(Value::F32(bits32))
    );
    let bits64 = (-2.25f64).to_bits();
    assert_eq!(
        Value::decode(&cell(bits64.to_le_bytes().to_vec()), DataType::Double),
        Ok(Value::F64(bits64))
    );
}

#[test]
fn decode_timestamp() {
    let mut data = vec![0u8; 8];
    data[0] = 0x40;
    data[1] = 0xE2;
    data[2] = 0x01;
    assert_eq!(
        Value::decode(&cell(data), DataType::Timestamp),
        Ok(Value::Timestamp(123456))
    );
}

#[test]
fn decode_text_reads_up_to_nul() {
    let mut data = b"Alex".to_vec();
    data.push(0);
    data.push(b'X');
    assert_eq!(
        Value::decode(&cell(data), DataType::VChar),
        Ok(Value::String("Alex".to_string()))
    );
    let mut data2 = b"hi".to_vec();
    data2.push(0);
    assert_eq!(
        Value::decode(&cell(data2), DataType::Char),
        Ok(Value::String("hi".to_string()))
    );
}

#[test]
fn decode_text_without_nul_is_contract_violation() {
    assert_eq!(
        Value::decode(&cell(b"abc".to_vec()), DataType::VChar),
        Err(Error::ContractViolation)
    );
}

#[test]
fn decode_text_invalid_utf8_is_encoding_error() {
    assert_eq!(
        Value::decode(&cell(vec![0xC3, 0x28, 0]), DataType::VChar),
        Err(Error::Utf8)
    );
}

#[test]
fn decode_binary_takes_reported_length() {
    let data = vec![1, 2, 3, 4, 5, 6, 7];
    assert_eq!(
        Value::decode(&blob(data, 5), DataType::Binary),
        Ok(Value::Binary(vec![1, 2, 3, 4, 5]))
    );
}

#[test]
fn decode_binary_zero_length_is_null() {
    assert_eq!(
        Value::decode(&blob(vec![1, 2, 3], 0), DataType::Binary),
        Ok(Value::Null)
    );
    assert_eq!(
        Value::decode(&blob(vec![1, 2, 3], -4), DataType::VBinary),
        Ok(Value::Null)
    );
}

#[test]
fn decode_binary_overlong_length_is_contract_violation() {
    assert_eq!(
        Value::decode(&blob(vec![1, 2], 3), DataType::VBinary),
        Err(Error::ContractViolation)
    );
}

#[test]
fn decode_bool_compares_against_one() {
    assert_eq!(Value::decode(&cell(vec![1]), DataType::Bool), Ok(Value::Bool(true)));
    assert_eq!(Value::decode(&cell(vec![0]), DataType::Bool), Ok(Value::Bool(false)));
    assert_eq!(Value::decode(&cell(vec![2]), DataType::Bool), Ok(Value::Bool(false)));
}

fn inet_cell(mask: u8, family: u8, addr: &[u8]) -> RawCell {
    let mut data = vec![mask, family];
    data.extend_from_slice(addr);
    while data.len() < 18 {
        data.push(0);
    }
    cell(data)
}

#[test]
fn decode_inet_v4() {
    let r = Value::decode(&inet_cell(24, 4, &[192, 168, 1, 7]), DataType::Inet).unwrap();
    match r {
        Value::Inet(a) => {
            assert!(a.is_v4);
            assert_eq!(a.mask, 24);
            assert_eq!(a.octets, vec![192, 168, 1, 7]);
        }
        other => panic!("expected a network address, got {:?}", other),
    }
}

#[test]
fn decode_inet_v6() {
    let addr: Vec<u8> = (1..=16).collect();
    let r = Value::decode(&inet_cell(64, 6, &addr), DataType::Inet).unwrap();
    match r {
        Value::Inet(a) => {
            assert!(!a.is_v4);
            assert_eq!(a.mask, 64);
            assert_eq!(a.octets, addr);
        }
        other => panic!("expected a network address, got {:?}", other),
    }
}

#[test]
fn decode_inet_unknown_family_is_contract_violation() {
    assert_eq!(
        Value::decode(&inet_cell(24, 5, &[1, 2, 3, 4]), DataType::Inet),
        Err(Error::ContractViolation)
    );
}

#[test]
fn decode_inet_overlong_mask_is_contract_violation() {
    assert_eq!(
        Value::decode(&inet_cell(33, 4, &[1, 2, 3, 4]), DataType::Inet),
        Err(Error::ContractViolation)
    );
    assert_eq!(
        Value::decode(&inet_cell(129, 6, &[0; 16]), DataType::Inet),
        Err(Error::ContractViolation)
    );
}

#[test]
fn decode_mac() {
    let r = Value::decode(&cell(vec![1, 2, 3, 4, 5, 6]), DataType::Mac).unwrap();
    match r {
        Value::Mac(m) => assert_eq!(m.octets, vec![1, 2, 3, 4, 5, 6]),
        other => panic!("expected a hardware address, got {:?}", other),
    }
}

#[test]
fn decode_unsupported_types_fail_loudly() {
    assert_eq!(Value::decode(&cell(vec![1]), DataType::Json), Err(Error::Unsupported));
    assert_eq!(Value::decode(&cell(vec![1]), DataType::Array), Err(Error::Unsupported));
    assert_eq!(Value::decode(&cell(vec![1]), DataType::Max), Err(Error::Unsupported));
}

#[test]
fn decode_short_buffer_is_contract_violation() {
    assert_eq!(Value::decode(&cell(vec![]), DataType::TinyInt), Err(Error::ContractViolation));
    assert_eq!(Value::decode(&cell(vec![1]), DataType::Int), Err(Error::ContractViolation));
    assert_eq!(
        Value::decode(&cell(vec![1, 2, 3, 4]), DataType::BigInt),
        Err(Error::ContractViolation)
    );
    assert_eq!(
        Value::decode(&cell(vec![1, 2, 3]), DataType::Mac),
        Err(Error::ContractViolation)
    );
}

#[test]
fn decode_null_indicator_wins_over_every_type() {
    let types = [
        DataType::Null,
        DataType::TinyInt,
        DataType::SmallInt,
        DataType::Int,
        DataType::BigInt,
        DataType::UTinyInt,
        DataType::USmallInt,
        DataType::UInt,
        DataType::UBigInt,
        DataType::Float,
        DataType::Double,
        DataType::Timestamp,
        DataType::Char,
        DataType::VChar,
        DataType::Binary,
        DataType::VBinary,
        DataType::Bool,
        DataType::Inet,
        DataType::Mac,
    ];
    for t in types {
        assert_eq!(Value::decode(&null_cell(), t), Ok(Value::Null));
    }
}

#[test]
fn datatype_codes_round_trip() {
    for code in 0u32..=21 {
        let t = DataType::from_code(code).unwrap();
        assert_eq!(t.code(), code);
    }
    assert_eq!(DataType::from_code(22), None);
    assert_eq!(DataType::from_code(u32::MAX), None);
}
