use bytes::BytesMut;
use rindexer_core::database::sql_type_wrapper::{
    array_outcome, decode_u256, map_log_token_to_ethereum_wrapper, ArrayFailure, Bound,
    EncodingError, EthereumSqlTypeKind, EthereumSqlTypeWrapper, SqlArray, SqlValue, Token,
};
use tokio_postgres::types::{Kind, Type};

const MAX_U256: &str =
    "115792089237316195423570985008687907853269984665640564039457584007913129639935";

fn raw(text: &str) -> Result<SqlValue, EncodingError> {
    Ok(SqlValue::Raw(text.as_bytes().to_vec()))
}

fn text_array(items: &[&str]) -> Result<SqlValue, EncodingError> {
    Ok(SqlValue::Array(SqlArray::Text(items.iter().map(|s| s.to_string()).collect())))
}

fn counting_bytes<const N: usize>() -> [u8; N] {
    let mut bytes = [0u8; N];
    for (i, b) in bytes.iter_mut().enumerate() {
        *b = (i as u8).wrapping_mul(17).wrapping_add(1);
    }
    bytes
}

fn hex_of(bytes: &[u8]) -> String {
    let mut out = String::from("0x");
    for b in bytes {
        out.push_str(&format!("{:02x}", b));
    }
    out
}

#[test]
fn a_256_bit_integer_is_stored_as_its_full_numeral() {
    assert_eq!(EthereumSqlTypeWrapper::U256([u64::MAX; 4]).encode(), raw(MAX_U256));
    assert_eq!(MAX_U256.len(), 78);
}

#[test]
fn small_256_bit_integers() {
    assert_eq!(EthereumSqlTypeWrapper::U256([0, 0, 0, 0]).encode(), raw("0"));
    assert_eq!(EthereumSqlTypeWrapper::U256([1, 0, 0, 0]).encode(), raw("1"));
    assert_eq!(EthereumSqlTypeWrapper::U256([0, 1, 0, 0]).encode(), raw("18446744073709551616"));
    assert_eq!(
        EthereumSqlTypeWrapper::U256([0, 0, 1, 0]).encode(),
        raw("340282366920938463463374607431768211456")
    );
    assert_eq!(
        EthereumSqlTypeWrapper::U256([0, 0, 0, 1]).encode(),
        raw("6277101735386680763835789423207666416102355444464034512896")
    );
}

#[test]
fn a_stored_256_bit_integer_reads_back_as_itself() {
    let values: Vec<[u64; 4]> = vec![
        [0, 0, 0, 0],
        [1, 0, 0, 0],
        [u64::MAX; 4],
        [0x1234_5678_9abc_def0, 7, 0, 0xffff_0000_ffff_0000],
    ];
    for limbs in values {
        match EthereumSqlTypeWrapper::U256(limbs).encode() {
            Ok(SqlValue::Raw(bytes)) => {
                let text = String::from_utf8(bytes).unwrap();
                assert_eq!(decode_u256(&text), Some(limbs));
            }
            other => panic!("unexpected encoding {:?}", other),
        }
    }
}

#[test]
fn decode_refuses_what_is_no_256_bit_numeral() {
    assert_eq!(decode_u256(MAX_U256), Some([u64::MAX; 4]));
    assert_eq!(
        decode_u256("115792089237316195423570985008687907853269984665640564039457584007913129639936"),
        None
    );
    assert_eq!(decode_u256("12a"), None);
    assert_eq!(decode_u256("-1"), None);
    assert_eq!(decode_u256(" 1"), None);
    assert_eq!(decode_u256("١"), None);
    assert_eq!(decode_u256("0007"), Some([7, 0, 0, 0]));
    assert_eq!(decode_u256(""), Some([0, 0, 0, 0]));
    assert_eq!(decode_u256("18446744073709551616"), Some([0, 1, 0, 0]));
}

#[test]
fn a_512_bit_integer_is_stored_as_its_numeral() {
    assert_eq!(EthereumSqlTypeWrapper::U512([0; 8]).encode(), raw("0"));
    assert_eq!(
        EthereumSqlTypeWrapper::U512([0, 0, 0, 0, 1, 0, 0, 0]).encode(),
        raw("115792089237316195423570985008687907853269984665640564039457584007913129639936")
    );
    assert_eq!(
        EthereumSqlTypeWrapper::U512([u64::MAX; 8]).encode(),
        raw("13407807929942597099574024998205846127479365820592393377723561443721764030073546976801874298166903427690031858186486050853753882811946569946433649006084095")
    );
}

#[test]
fn integers_of_64_and_128_bits_are_stored_as_numerals() {
    assert_eq!(EthereumSqlTypeWrapper::U64(0).encode(), Ok(SqlValue::Numeric("0".to_string())));
    assert_eq!(
        EthereumSqlTypeWrapper::U64(u64::MAX).encode(),
        Ok(SqlValue::Numeric("18446744073709551615".to_string()))
    );
    assert_eq!(
        EthereumSqlTypeWrapper::U128(u128::MAX).encode(),
        raw("340282366920938463463374607431768211455")
    );
    assert_eq!(EthereumSqlTypeWrapper::U128(42).encode(), raw("42"));
}

#[test]
fn small_integers_and_booleans_go_as_the_databases_own() {
    assert_eq!(EthereumSqlTypeWrapper::U8(0).encode(), Ok(SqlValue::SmallInt(0)));
    assert_eq!(EthereumSqlTypeWrapper::U8(255).encode(), Ok(SqlValue::SmallInt(255)));
    assert_eq!(EthereumSqlTypeWrapper::U16(32767).encode(), Ok(SqlValue::SmallInt(32767)));
    assert_eq!(EthereumSqlTypeWrapper::U32(7).encode(), Ok(SqlValue::Integer(7)));
    assert_eq!(
        EthereumSqlTypeWrapper::U32(2147483647).encode(),
        Ok(SqlValue::Integer(2147483647))
    );
    assert_eq!(EthereumSqlTypeWrapper::Bool(true).encode(), Ok(SqlValue::Bool(true)));
    assert_eq!(EthereumSqlTypeWrapper::Bool(false).encode(), Ok(SqlValue::Bool(false)));
}

#[test]
fn a_small_integer_that_does_not_fit_is_an_error() {
    assert_eq!(EthereumSqlTypeWrapper::U16(32768).encode(), Err(EncodingError::SmallIntOutOfRange));
    assert_eq!(EthereumSqlTypeWrapper::U16(u16::MAX).encode(), Err(EncodingError::SmallIntOutOfRange));
    assert_eq!(
        EthereumSqlTypeWrapper::U32(2147483648).encode(),
        Err(EncodingError::IntegerOutOfRange)
    );
    assert_eq!(EthereumSqlTypeWrapper::U32(u32::MAX).encode(), Err(EncodingError::IntegerOutOfRange));
}

#[test]
fn hashes_are_stored_as_hex_text() {
    let h128 = counting_bytes::<16>();
    let h160 = counting_bytes::<20>();
    let h256 = counting_bytes::<32>();
    let h512 = counting_bytes::<64>();
    assert_eq!(EthereumSqlTypeWrapper::H128(h128).encode(), raw(&hex_of(&h128)));
    assert_eq!(EthereumSqlTypeWrapper::H160(h160).encode(), raw(&hex_of(&h160)));
    assert_eq!(EthereumSqlTypeWrapper::H256(h256).encode(), raw(&hex_of(&h256)));
    assert_eq!(EthereumSqlTypeWrapper::H512(h512).encode(), raw(&hex_of(&h512)));
    assert_eq!(
        EthereumSqlTypeWrapper::H128([0xab; 16]).encode(),
        raw("0xabababababababababababababababab")
    );
    assert_eq!(
        EthereumSqlTypeWrapper::H256([0; 32]).encode(),
        raw("0x0000000000000000000000000000000000000000000000000000000000000000")
    );
}

#[test]
fn an_address_is_a_text_value() {
    let mut address = [0u8; 20];
    address[0] = 0xaa;
    address[19] = 0x0f;
    assert_eq!(
        EthereumSqlTypeWrapper::Address(address).encode(),
        Ok(SqlValue::Text("0xaa0000000000000000000000000000000000000f".to_string()))
    );
    assert_eq!(EthereumSqlTypeWrapper::from(address), EthereumSqlTypeWrapper::Address(address));
}

#[test]
fn strings_and_bytes_go_unchanged() {
    assert_eq!(
        EthereumSqlTypeWrapper::String("héllo".to_string()).encode(),
        Ok(SqlValue::Text("héllo".to_string()))
    );
    assert_eq!(
        EthereumSqlTypeWrapper::String(String::new()).encode(),
        Ok(SqlValue::Text(String::new()))
    );
    assert_eq!(
        EthereumSqlTypeWrapper::Bytes(vec![0, 255, 16]).encode(),
        Ok(SqlValue::Raw(vec![0, 255, 16]))
    );
    assert_eq!(EthereumSqlTypeWrapper::Bytes(vec![]).encode(), Ok(SqlValue::Raw(vec![])));
}

#[test]
fn an_empty_array_is_null_for_every_array_kind() {
    let empties = vec![
        EthereumSqlTypeWrapper::VecU64(vec![]),
        EthereumSqlTypeWrapper::VecU128(vec![]),
        EthereumSqlTypeWrapper::VecU256(vec![]),
        EthereumSqlTypeWrapper::VecU512(vec![]),
        EthereumSqlTypeWrapper::VecH128(vec![]),
        EthereumSqlTypeWrapper::VecH160(vec![]),
        EthereumSqlTypeWrapper::VecH256(vec![]),
        EthereumSqlTypeWrapper::VecH512(vec![]),
        EthereumSqlTypeWrapper::VecAddress(vec![]),
        EthereumSqlTypeWrapper::VecBool(vec![]),
        EthereumSqlTypeWrapper::VecU32(vec![]),
        EthereumSqlTypeWrapper::VecU16(vec![]),
        EthereumSqlTypeWrapper::VecU8(vec![]),
        EthereumSqlTypeWrapper::VecString(vec![]),
        EthereumSqlTypeWrapper::VecBytes(vec![]),
    ];
    assert_eq!(empties.len(), 15);
    for value in empties {
        assert_eq!(value.encode(), Ok(SqlValue::Null), "{}", value.raw_name());
    }
}

#[test]
fn arrays_hold_the_texts_of_their_elements() {
    assert_eq!(
        EthereumSqlTypeWrapper::VecU64(vec![0, u64::MAX]).encode(),
        Ok(SqlValue::Array(SqlArray::Numeric(vec![
            "0".to_string(),
            "18446744073709551615".to_string()
        ])))
    );
    assert_eq!(
        EthereumSqlTypeWrapper::VecU128(vec![u128::MAX, 5]).encode(),
        text_array(&["340282366920938463463374607431768211455", "5"])
    );
    assert_eq!(
        EthereumSqlTypeWrapper::VecU256(vec![[u64::MAX; 4], [2, 0, 0, 0]]).encode(),
        text_array(&[MAX_U256, "2"])
    );
    assert_eq!(
        EthereumSqlTypeWrapper::VecU512(vec![[3, 0, 0, 0, 0, 0, 0, 0]]).encode(),
        text_array(&["3"])
    );
    assert_eq!(
        EthereumSqlTypeWrapper::VecU32(vec![u32::MAX, 1]).encode(),
        text_array(&["4294967295", "1"])
    );
    assert_eq!(
        EthereumSqlTypeWrapper::VecU16(vec![u16::MAX]).encode(),
        text_array(&["65535"])
    );
    assert_eq!(EthereumSqlTypeWrapper::VecU8(vec![0, 9, 255]).encode(), text_array(&["0", "9", "255"]));
    assert_eq!(
        EthereumSqlTypeWrapper::VecString(vec!["a".to_string(), "".to_string()]).encode(),
        text_array(&["a", ""])
    );
}

#[test]
fn arrays_of_hashes_addresses_and_bytes() {
    let h128 = counting_bytes::<16>();
    let h160 = counting_bytes::<20>();
    let h256 = counting_bytes::<32>();
    let h512 = counting_bytes::<64>();
    assert_eq!(
        EthereumSqlTypeWrapper::VecH128(vec![h128, [0; 16]]).encode(),
        text_array(&[&hex_of(&h128), "0x00000000000000000000000000000000"])
    );
    assert_eq!(
        EthereumSqlTypeWrapper::VecH160(vec![h160]).encode(),
        text_array(&[&hex_of(&h160)])
    );
    assert_eq!(
        EthereumSqlTypeWrapper::VecAddress(vec![h160, h160]).encode(),
        text_array(&[&hex_of(&h160), &hex_of(&h160)])
    );
    assert_eq!(
        EthereumSqlTypeWrapper::VecH256(vec![h256]).encode(),
        text_array(&[&hex_of(&h256)])
    );
    assert_eq!(
        EthereumSqlTypeWrapper::VecH512(vec![h512]).encode(),
        text_array(&[&hex_of(&h512)])
    );
    assert_eq!(
        EthereumSqlTypeWrapper::VecBytes(vec![vec![1, 2], vec![], vec![0xab, 0xcd, 0xef]]).encode(),
        text_array(&["Bytes(0x0102)", "Bytes(0x)", "Bytes(0xabcdef)"])
    );
}

#[test]
fn an_array_of_booleans_holds_flags() {
    assert_eq!(
        EthereumSqlTypeWrapper::VecBool(vec![true, false, true]).encode(),
        Ok(SqlValue::Array(SqlArray::Char(vec![1, 0, 1])))
    );
}

#[test]
fn kinds_and_names() {
    assert_eq!(EthereumSqlTypeWrapper::U64(1).raw_name(), "U64");
    assert_eq!(EthereumSqlTypeWrapper::VecU256(vec![]).raw_name(), "VecU256");
    assert_eq!(EthereumSqlTypeWrapper::Address([0; 20]).raw_name(), "Address");
    assert_eq!(EthereumSqlTypeWrapper::VecBytes(vec![]).raw_name(), "VecBytes");
    assert_eq!(EthereumSqlTypeWrapper::String(String::new()).raw_name(), "String");
    assert_eq!(EthereumSqlTypeWrapper::Bool(true).kind(), EthereumSqlTypeKind::Bool);
    assert_eq!(EthereumSqlTypeWrapper::H512([0; 64]).kind(), EthereumSqlTypeKind::H512);
    let names = [
        (EthereumSqlTypeKind::U64, "U64"),
        (EthereumSqlTypeKind::VecU64, "VecU64"),
        (EthereumSqlTypeKind::U128, "U128"),
        (EthereumSqlTypeKind::VecU128, "VecU128"),
        (EthereumSqlTypeKind::U256, "U256"),
        (EthereumSqlTypeKind::VecU256, "VecU256"),
        (EthereumSqlTypeKind::U512, "U512"),
        (EthereumSqlTypeKind::VecU512, "VecU512"),
        (EthereumSqlTypeKind::H128, "H128"),
        (EthereumSqlTypeKind::VecH128, "VecH128"),
        (EthereumSqlTypeKind::H160, "H160"),
        (EthereumSqlTypeKind::VecH160, "VecH160"),
        (EthereumSqlTypeKind::H256, "H256"),
        (EthereumSqlTypeKind::VecH256, "VecH256"),
        (EthereumSqlTypeKind::H512, "H512"),
        (EthereumSqlTypeKind::VecH512, "VecH512"),
        (EthereumSqlTypeKind::Address, "Address"),
        (EthereumSqlTypeKind::VecAddress, "VecAddress"),
        (EthereumSqlTypeKind::Bool, "Bool"),
        (EthereumSqlTypeKind::VecBool, "VecBool"),
        (EthereumSqlTypeKind::U32, "U32"),
        (EthereumSqlTypeKind::VecU32, "VecU32"),
        (EthereumSqlTypeKind::U16, "U16"),
        (EthereumSqlTypeKind::VecU16, "VecU16"),
        (EthereumSqlTypeKind::U8, "U8"),
        (EthereumSqlTypeKind::VecU8, "VecU8"),
        (EthereumSqlTypeKind::String, "String"),
        (EthereumSqlTypeKind::VecString, "VecString"),
        (EthereumSqlTypeKind::Bytes, "Bytes"),
        (EthereumSqlTypeKind::VecBytes, "VecBytes"),
    ];
    for (kind, name) in names {
        assert_eq!(kind.raw_name(), name);
    }
}

#[test]
fn tokens_are_wrapped_by_kind() {
    let address = [7u8; 20];
    assert!(Token::Address(address).can_be_wrapped());
    assert_eq!(
        map_log_token_to_ethereum_wrapper(&Token::Address(address)),
        Some(EthereumSqlTypeWrapper::Address(address))
    );
    assert_eq!(
        map_log_token_to_ethereum_wrapper(&Token::Int([1, 2, 3, 4])),
        Some(EthereumSqlTypeWrapper::U256([1, 2, 3, 4]))
    );
    assert_eq!(
        map_log_token_to_ethereum_wrapper(&Token::Uint([u64::MAX; 4])),
        Some(EthereumSqlTypeWrapper::U256([u64::MAX; 4]))
    );
    assert_eq!(
        map_log_token_to_ethereum_wrapper(&Token::Bool(true)),
        Some(EthereumSqlTypeWrapper::Bool(true))
    );
    assert_eq!(
        map_log_token_to_ethereum_wrapper(&Token::String("x".to_string())),
        Some(EthereumSqlTypeWrapper::String("x".to_string()))
    );
    assert!(!Token::Bytes(vec![1]).can_be_wrapped());
    assert!(!Token::FixedBytes(vec![1]).can_be_wrapped());
    assert!(!Token::Array(vec![Token::Bool(true)]).can_be_wrapped());
    assert!(!Token::FixedArray(vec![]).can_be_wrapped());
    assert!(!Token::Tuple(vec![Token::Uint([0; 4])]).can_be_wrapped());
}

#[test]
fn inserting_a_transfer_of_the_largest_value_stores_every_digit() {
    let params = vec![
        EthereumSqlTypeWrapper::Address([0xaa; 20]),
        EthereumSqlTypeWrapper::Address([0x01; 20]),
        EthereumSqlTypeWrapper::Address([0x02; 20]),
        EthereumSqlTypeWrapper::U256([u64::MAX; 4]),
    ];
    let encoded: Vec<SqlValue> = params.iter().map(|p| p.encode().unwrap()).collect();
    assert_eq!(encoded[3], SqlValue::Raw(MAX_U256.as_bytes().to_vec()));
    match &encoded[3] {
        SqlValue::Raw(bytes) => {
            assert_eq!(bytes.len(), 78);
            assert!(bytes.iter().all(|b| b.is_ascii_digit()));
        }
        _ => unreachable!(),
    }
}

#[test]
fn encoding_errors_say_what_is_wrong() {
    assert_eq!(
        EncodingError::SmallIntOutOfRange.message(),
        "an unsigned 16-bit value does not fit the database's 16-bit integer"
    );
    assert_eq!(
        EncodingError::IntegerOutOfRange.message(),
        "an unsigned 32-bit value does not fit the database's 32-bit integer"
    );
    assert_eq!(
        EncodingError::NotAnArray.message(),
        "an array cannot be bound to a type that is no array"
    );
    assert_eq!(EncodingError::ArrayTooLarge.message(), "the array is too large to transmit");
}

fn bind(value: EthereumSqlTypeWrapper, ty: &Type) -> (Result<Bound, EncodingError>, Vec<u8>) {
    let mut out = BytesMut::new();
    out.extend_from_slice(b"before");
    let result = value.to_sql(ty, &mut out);
    assert_eq!(&out[..6], b"before");
    (result, out[6..].to_vec())
}

fn written(bytes: &[u8]) -> (Result<Bound, EncodingError>, Vec<u8>) {
    (Ok(Bound::Written), bytes.to_vec())
}

#[test]
fn a_64_bit_integer_is_written_as_a_decimal_number() {
    assert_eq!(
        bind(EthereumSqlTypeWrapper::U64(0), &Type::NUMERIC),
        written(&[0, 0, 0, 0, 0, 0, 0, 0])
    );
    assert_eq!(
        bind(EthereumSqlTypeWrapper::U64(7), &Type::NUMERIC),
        written(&[0, 1, 0, 0, 0, 0, 0, 0, 0, 7])
    );
    assert_eq!(
        bind(EthereumSqlTypeWrapper::U64(9999), &Type::NUMERIC),
        written(&[0, 1, 0, 0, 0, 0, 0, 0, 0x27, 0x0f])
    );
    assert_eq!(
        bind(EthereumSqlTypeWrapper::U64(10000), &Type::NUMERIC),
        written(&[0, 2, 0, 1, 0, 0, 0, 0, 0, 1, 0, 0])
    );
    assert_eq!(
        bind(EthereumSqlTypeWrapper::U64(120000), &Type::NUMERIC),
        written(&[0, 2, 0, 1, 0, 0, 0, 0, 0, 12, 0, 0])
    );
    assert_eq!(
        bind(EthereumSqlTypeWrapper::U64(u64::MAX), &Type::NUMERIC),
        written(&[
            0, 5, 0, 4, 0, 0, 0, 0, 0x07, 0x34, 0x1a, 0x58, 0x02, 0xe1, 0x03, 0xbb, 0x06, 0x4f
        ])
    );
    assert_eq!(
        bind(EthereumSqlTypeWrapper::U64(42), &Type::TEXT),
        written(&[0, 1, 0, 0, 0, 0, 0, 0, 0, 42])
    );
}

#[test]
fn small_integers_and_booleans_are_written_in_the_databases_form() {
    assert_eq!(bind(EthereumSqlTypeWrapper::Bool(true), &Type::BOOL), written(&[1]));
    assert_eq!(bind(EthereumSqlTypeWrapper::Bool(false), &Type::BOOL), written(&[0]));
    assert_eq!(bind(EthereumSqlTypeWrapper::Bool(true), &Type::TEXT), written(&[1]));
    assert_eq!(bind(EthereumSqlTypeWrapper::U8(0), &Type::INT2), written(&[0, 0]));
    assert_eq!(bind(EthereumSqlTypeWrapper::U8(255), &Type::INT2), written(&[0, 255]));
    assert_eq!(bind(EthereumSqlTypeWrapper::U16(258), &Type::INT2), written(&[1, 2]));
    assert_eq!(bind(EthereumSqlTypeWrapper::U16(32767), &Type::INT2), written(&[0x7f, 0xff]));
    assert_eq!(bind(EthereumSqlTypeWrapper::U32(7), &Type::INT4), written(&[0, 0, 0, 7]));
    assert_eq!(
        bind(EthereumSqlTypeWrapper::U32(0x0102_0304), &Type::INT4),
        written(&[1, 2, 3, 4])
    );
    assert_eq!(
        bind(EthereumSqlTypeWrapper::U32(2147483647), &Type::INT4),
        written(&[0x7f, 0xff, 0xff, 0xff])
    );
}

#[test]
fn a_value_that_does_not_fit_leaves_the_buffer_alone() {
    assert_eq!(
        bind(EthereumSqlTypeWrapper::U16(32768), &Type::INT2),
        (Err(EncodingError::SmallIntOutOfRange), vec![])
    );
    assert_eq!(
        bind(EthereumSqlTypeWrapper::U32(u32::MAX), &Type::INT4),
        (Err(EncodingError::IntegerOutOfRange), vec![])
    );
}

#[test]
fn texts_are_written_as_their_bytes() {
    assert_eq!(
        bind(EthereumSqlTypeWrapper::String("héllo".to_string()), &Type::TEXT),
        written("héllo".as_bytes())
    );
    assert_eq!(bind(EthereumSqlTypeWrapper::String(String::new()), &Type::VARCHAR), written(b""));
    let mut address = [0u8; 20];
    address[0] = 0xaa;
    address[19] = 0x0f;
    assert_eq!(
        bind(EthereumSqlTypeWrapper::Address(address), &Type::BPCHAR),
        written(b"0xaa0000000000000000000000000000000000000f")
    );
}

#[test]
fn a_text_is_written_without_change_whatever_the_type() {
    let ltree = Type::new("ltree".to_string(), 16394, Kind::Simple, "public".to_string());
    assert_eq!(
        bind(EthereumSqlTypeWrapper::String("a.b".to_string()), &ltree),
        written(b"a.b")
    );
    assert_eq!(
        bind(EthereumSqlTypeWrapper::Address([0xaa; 20]), &Type::TEXT),
        written(b"0xaaaaaaaaaaaaaaaaaaaaaaaaaaaaaaaaaaaaaaaa")
    );
    assert_eq!(bind(EthereumSqlTypeWrapper::Address([0xaa; 20]), &ltree).1.len(), 42);
    assert_eq!(
        bind(EthereumSqlTypeWrapper::String("x".to_string()), &Type::INT4),
        written(b"x")
    );
}

#[test]
fn wide_integers_hashes_and_bytes_are_written_as_they_are() {
    assert_eq!(
        bind(EthereumSqlTypeWrapper::U256([u64::MAX; 4]), &Type::VARCHAR),
        written(MAX_U256.as_bytes())
    );
    assert_eq!(bind(EthereumSqlTypeWrapper::U128(0), &Type::NUMERIC), written(b"0"));
    assert_eq!(
        bind(EthereumSqlTypeWrapper::U512([9, 0, 0, 0, 0, 0, 0, 0]), &Type::TEXT),
        written(b"9")
    );
    assert_eq!(
        bind(EthereumSqlTypeWrapper::H128([0x1f; 16]), &Type::TEXT),
        written(b"0x1f1f1f1f1f1f1f1f1f1f1f1f1f1f1f1f")
    );
    assert_eq!(
        bind(EthereumSqlTypeWrapper::Bytes(vec![0, 1, 254, 255]), &Type::BYTEA),
        written(&[0, 1, 254, 255])
    );
    assert_eq!(bind(EthereumSqlTypeWrapper::Bytes(vec![]), &Type::BYTEA), written(&[]));
}

fn array_head(element_type: u32, count: u32) -> Vec<u8> {
    let mut head = vec![0, 0, 0, 1, 0, 0, 0, 0];
    head.extend_from_slice(&element_type.to_be_bytes());
    head.extend_from_slice(&count.to_be_bytes());
    head.extend_from_slice(&[0, 0, 0, 1]);
    head
}

fn array_of(element_type: u32, elements: &[&[u8]]) -> (Result<Bound, EncodingError>, Vec<u8>) {
    let mut bytes = array_head(element_type, elements.len() as u32);
    for element in elements {
        bytes.extend_from_slice(&(element.len() as u32).to_be_bytes());
        bytes.extend_from_slice(element);
    }
    (Ok(Bound::Written), bytes)
}

#[test]
fn an_array_of_texts_is_written_with_its_head_and_lengths() {
    assert_eq!(
        bind(
            EthereumSqlTypeWrapper::VecString(vec!["a".to_string(), "bc".to_string()]),
            &Type::TEXT_ARRAY
        ),
        written(&[
            0, 0, 0, 1, 0, 0, 0, 0, 0, 0, 0, 25, 0, 0, 0, 2, 0, 0, 0, 1, 0, 0, 0, 1, b'a', 0, 0,
            0, 2, b'b', b'c'
        ])
    );
    assert_eq!(
        bind(EthereumSqlTypeWrapper::VecU256(vec![[1, 0, 0, 0], [u64::MAX; 4]]), &Type::VARCHAR_ARRAY),
        array_of(1043, &[b"1", MAX_U256.as_bytes()])
    );
    assert_eq!(
        bind(EthereumSqlTypeWrapper::VecU8(vec![0, 255]), &Type::INT2_ARRAY),
        array_of(21, &[b"0", b"255"])
    );
    assert_eq!(
        bind(EthereumSqlTypeWrapper::VecAddress(vec![[0xaa; 20]]), &Type::BPCHAR_ARRAY),
        array_of(1042, &[b"0xaaaaaaaaaaaaaaaaaaaaaaaaaaaaaaaaaaaaaaaa"])
    );
    assert_eq!(
        bind(EthereumSqlTypeWrapper::VecBytes(vec![vec![1, 2]]), &Type::BYTEA_ARRAY),
        array_of(17, &[b"Bytes(0x0102)"])
    );
    assert_eq!(
        bind(EthereumSqlTypeWrapper::VecString(vec![String::new()]), &Type::TEXT_ARRAY),
        array_of(25, &[b""])
    );
}

#[test]
fn an_array_of_tree_texts_carries_the_version_before_each() {
    let ltree = Type::new("ltree".to_string(), 16394, Kind::Simple, "public".to_string());
    let ltrees = Type::new("_ltree".to_string(), 16397, Kind::Array(ltree), "public".to_string());
    assert_eq!(
        bind(
            EthereumSqlTypeWrapper::VecString(vec!["a".to_string(), "b.c".to_string()]),
            &ltrees
        ),
        array_of(16394, &[&[1, b'a'], &[1, b'b', b'.', b'c']])
    );
}

#[test]
fn an_array_of_64_bit_integers_is_written_as_decimal_numbers() {
    assert_eq!(
        bind(EthereumSqlTypeWrapper::VecU64(vec![5, 10000, 0]), &Type::NUMERIC_ARRAY),
        array_of(
            1700,
            &[
                &[0, 1, 0, 0, 0, 0, 0, 0, 0, 5],
                &[0, 2, 0, 1, 0, 0, 0, 0, 0, 1, 0, 0],
                &[0, 0, 0, 0, 0, 0, 0, 0]
            ]
        )
    );
}

#[test]
fn an_array_of_booleans_is_written_as_flags() {
    assert_eq!(
        bind(EthereumSqlTypeWrapper::VecBool(vec![true, false, true]), &Type::BOOL_ARRAY),
        array_of(16, &[&[1], &[0], &[1]])
    );
}

#[test]
fn an_array_is_written_after_what_the_buffer_holds() {
    let mut out = BytesMut::new();
    out.extend_from_slice(&[9, 9]);
    let result =
        EthereumSqlTypeWrapper::VecString(vec!["a".to_string()]).to_sql(&Type::TEXT_ARRAY, &mut out);
    assert_eq!(result, Ok(Bound::Written));
    assert_eq!(out.len(), 2 + 20 + 4 + 1);
    assert_eq!(&out[..2], &[9, 9]);
}

#[test]
fn an_array_for_a_type_that_is_no_array_is_an_error() {
    assert_eq!(
        bind(EthereumSqlTypeWrapper::VecString(vec!["a".to_string()]), &Type::TEXT),
        (Err(EncodingError::NotAnArray), vec![])
    );
    assert_eq!(
        bind(EthereumSqlTypeWrapper::VecU64(vec![1]), &Type::NUMERIC),
        (Err(EncodingError::NotAnArray), vec![])
    );
    assert_eq!(
        bind(EthereumSqlTypeWrapper::VecBool(vec![true]), &Type::BOOL),
        (Err(EncodingError::NotAnArray), vec![])
    );
}

#[test]
fn an_empty_array_is_bound_as_null_and_nothing_is_written() {
    let empties = vec![
        (EthereumSqlTypeWrapper::VecString(vec![]), Type::TEXT_ARRAY),
        (EthereumSqlTypeWrapper::VecU64(vec![]), Type::NUMERIC_ARRAY),
        (EthereumSqlTypeWrapper::VecBool(vec![]), Type::BOOL_ARRAY),
        (EthereumSqlTypeWrapper::VecAddress(vec![]), Type::TEXT),
        (EthereumSqlTypeWrapper::VecU256(vec![]), Type::VARCHAR_ARRAY),
        (EthereumSqlTypeWrapper::VecBytes(vec![]), Type::BYTEA),
    ];
    for (value, ty) in empties {
        assert_eq!(bind(value, &ty), (Ok(Bound::Null), vec![]));
    }
}

#[test]
fn driver_outcomes_of_an_array() {
    assert_eq!(array_outcome(Ok(())), Ok(Bound::Written));
    assert_eq!(array_outcome(Err(ArrayFailure::NotAnArray)), Err(EncodingError::NotAnArray));
    assert_eq!(array_outcome(Err(ArrayFailure::TooLarge)), Err(EncodingError::ArrayTooLarge));
}

