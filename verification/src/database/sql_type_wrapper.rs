//! The value codec: one variant per supported type of a decoded field, and
//! what each is bound as when a row is written.

use crate::helpers::{chars_of, decimal_string, decimal_text, texts};
use bytes::BytesMut;
use rust_decimal::Decimal;
use tokio_postgres::types::{Kind, ToSql, Type};
use vstd::prelude::*;
use vstd::string::StrSliceExecFns;
use vstd::utf8::encode_utf8;

verus! {

/// A one-dimensional array with at least one element, as the driver takes
/// it for one statement parameter.
#[derive(Debug, Clone, PartialEq, Eq)]
pub enum SqlArray {
    /// Decimal numbers, each given by its numeral.
    Numeric(Vec<String>),
    /// Texts.
    Text(Vec<String>),
    /// One-byte elements.
    Char(Vec<i8>),
}

/// The mathematical content of a [`SqlArray`].
pub enum SqlArrayView {
    Numeric(Seq<Seq<char>>),
    Text(Seq<Seq<char>>),
    Char(Seq<i8>),
}

impl View for SqlArray {
    type V = SqlArrayView;

    open spec fn view(&self) -> SqlArrayView {
        match self {
            SqlArray::Numeric(a) => SqlArrayView::Numeric(texts(a@)),
            SqlArray::Text(a) => SqlArrayView::Text(texts(a@)),
            SqlArray::Char(a) => SqlArrayView::Char(a@),
        }
    }
}

/// A value as the driver takes it for one statement parameter.
#[derive(Debug, Clone, PartialEq, Eq)]
pub enum SqlValue {
    /// SQL NULL: nothing is written.
    Null,
    /// Bytes that are written as they are.
    Raw(Vec<u8>),
    /// A decimal number, given by its numeral.
    Numeric(String),
    /// A text value.
    Text(String),
    /// A boolean.
    Bool(bool),
    /// A 16-bit integer.
    SmallInt(i16),
    /// A 32-bit integer.
    Integer(i32),
    /// An array.
    Array(SqlArray),
}

/// The mathematical content of a [`SqlValue`].
pub enum SqlValueView {
    Null,
    Raw(Seq<u8>),
    Numeric(Seq<char>),
    Text(Seq<char>),
    Bool(bool),
    SmallInt(i16),
    Integer(i32),
    Array(SqlArrayView),
}

impl View for SqlValue {
    type V = SqlValueView;

    open spec fn view(&self) -> SqlValueView {
        match self {
            SqlValue::Null => SqlValueView::Null,
            SqlValue::Raw(b) => SqlValueView::Raw(b@),
            SqlValue::Numeric(t) => SqlValueView::Numeric(t@),
            SqlValue::Text(t) => SqlValueView::Text(t@),
            SqlValue::Bool(b) => SqlValueView::Bool(*b),
            SqlValue::SmallInt(n) => SqlValueView::SmallInt(*n),
            SqlValue::Integer(n) => SqlValueView::Integer(*n),
            SqlValue::Array(a) => SqlValueView::Array(a@),
        }
    }
}

/// Why a value could not be encoded.
#[derive(Debug, Clone, Copy, PartialEq, Eq, Structural)]
pub enum EncodingError {
    /// An unsigned 16-bit value above the largest 16-bit integer of the database.
    SmallIntOutOfRange,
    /// An unsigned 32-bit value above the largest 32-bit integer of the database.
    IntegerOutOfRange,
    /// An array for a parameter whose type is no array type.
    NotAnArray,
    /// An array too large for the driver to write.
    ArrayTooLarge,
}

impl EncodingError {
    /// The error as a line of text.
    pub open spec fn message_spec(self) -> Seq<char> {
        match self {
            EncodingError::SmallIntOutOfRange => {
                "an unsigned 16-bit value does not fit the database's 16-bit integer"@
            },
            EncodingError::IntegerOutOfRange => {
                "an unsigned 32-bit value does not fit the database's 32-bit integer"@
            },
            EncodingError::NotAnArray => "an array cannot be bound to a type that is no array"@,
            EncodingError::ArrayTooLarge => "the array is too large to transmit"@,
        }
    }

    pub fn message(&self) -> (text: String)
        ensures
            text@ == self.message_spec(),
    {
        match self {
            EncodingError::SmallIntOutOfRange => String::from_str(
                "an unsigned 16-bit value does not fit the database's 16-bit integer",
            ),
            EncodingError::IntegerOutOfRange => String::from_str(
                "an unsigned 32-bit value does not fit the database's 32-bit integer",
            ),
            EncodingError::NotAnArray => String::from_str(
                "an array cannot be bound to a type that is no array",
            ),
            EncodingError::ArrayTooLarge => String::from_str("the array is too large to transmit"),
        }
    }
}

/// The number that little-endian 64-bit limbs stand for.
pub open spec fn limbs_value(limbs: Seq<u64>) -> nat
    decreases limbs.len(),
{
    if limbs.len() == 0 {
        0
    } else {
        limbs[0] as nat + 0x1_0000_0000_0000_0000 * limbs_value(limbs.drop_first())
    }
}

/// The hexadecimal digit, in lower case, that stands for `n` below sixteen.
pub open spec fn hex_digit(n: nat) -> char {
    if n < 10 {
        crate::helpers::digit_char(n)
    } else if n == 10 {
        'a'
    } else if n == 11 {
        'b'
    } else if n == 12 {
        'c'
    } else if n == 13 {
        'd'
    } else if n == 14 {
        'e'
    } else {
        'f'
    }
}

/// Two lower-case hexadecimal digits per byte, in the order of the bytes.
pub open spec fn hex_text(bytes: Seq<u8>) -> Seq<char>
    decreases bytes.len(),
{
    if bytes.len() == 0 {
        Seq::empty()
    } else {
        hex_text(bytes.drop_last()).push(hex_digit((bytes.last() / 16) as nat)).push(
            hex_digit((bytes.last() % 16) as nat),
        )
    }
}

/// The text that stands for a hash or an address: `0x` and every byte in hex.
pub open spec fn hash_text(bytes: Seq<u8>) -> Seq<char> {
    seq!['0', 'x'] + hex_text(bytes)
}

/// The text that stands for a byte string as an array element.
pub open spec fn bytes_text(bytes: Seq<u8>) -> Seq<char> {
    seq!['B', 'y', 't', 'e', 's', '(', '0', 'x'] + hex_text(bytes) + seq![')']
}

/// The decimal numeral of a 256-bit integer given by its limbs.
pub open spec fn u256_text(limbs: [u64; 4]) -> Seq<char> {
    decimal_text(limbs_value(limbs@))
}

/// The decimal numeral of a 512-bit integer given by its limbs.
pub open spec fn u512_text(limbs: [u64; 8]) -> Seq<char> {
    decimal_text(limbs_value(limbs@))
}

/// `Display` of `ethers::types::U256`: the decimal numeral of the number whose
/// little-endian limbs are given, without sign or leading zeros.
#[verifier::external_body]
fn u256_decimal(limbs: &[u64; 4]) -> (s: String)
    ensures
        s@ == u256_text(*limbs),
{
    ethers::types::U256(*limbs).to_string()
}

/// `Debug` of `ethers::types::U512`, which prints as `Display` does: the
/// decimal numeral of the number whose little-endian limbs are given.
#[verifier::external_body]
fn u512_decimal(limbs: &[u64; 8]) -> (s: String)
    ensures
        s@ == u512_text(*limbs),
{
    format!("{:?}", ethers::types::U512(*limbs))
}

/// `Debug` of `ethers::types::H128`: `0x` and all sixteen bytes in lower-case hex.
#[verifier::external_body]
fn h128_hex(bytes: &[u8; 16]) -> (s: String)
    ensures
        s@ == hash_text(bytes@),
{
    format!("{:?}", ethers::types::H128(*bytes))
}

/// `Debug` of `ethers::types::H160`, which is also the address type: `0x` and
/// all twenty bytes in lower-case hex.
#[verifier::external_body]
fn h160_hex(bytes: &[u8; 20]) -> (s: String)
    ensures
        s@ == hash_text(bytes@),
{
    format!("{:?}", ethers::types::H160(*bytes))
}

/// `Debug` of `ethers::types::H256`: `0x` and all thirty-two bytes in lower-case hex.
#[verifier::external_body]
fn h256_hex(bytes: &[u8; 32]) -> (s: String)
    ensures
        s@ == hash_text(bytes@),
{
    format!("{:?}", ethers::types::H256(*bytes))
}

/// `Debug` of `ethers::types::H512`: `0x` and all sixty-four bytes in lower-case hex.
#[verifier::external_body]
fn h512_hex(bytes: &[u8; 64]) -> (s: String)
    ensures
        s@ == hash_text(bytes@),
{
    format!("{:?}", ethers::types::H512(*bytes))
}

/// `Debug` of `ethers::types::Bytes`: the bytes in lower-case hex between
/// `Bytes(0x` and `)`.
#[verifier::external_body]
fn bytes_debug(bytes: &Vec<u8>) -> (s: String)
    ensures
        s@ == bytes_text(bytes@),
{
    format!("{:?}", ethers::types::Bytes::from(bytes.clone()))
}


/// The decimal numerals of 64-bit integers.
pub open spec fn u64_texts(values: Seq<u64>) -> Seq<Seq<char>> {
    Seq::new(values.len(), |i: int| decimal_text(values[i] as nat))
}

fn u64_array_texts(values: &Vec<u64>) -> (out: Vec<String>)
    ensures
        texts(out@) == u64_texts(values@),
{
    let mut out: Vec<String> = Vec::new();
    let mut i: usize = 0;
    while i < values.len()
        invariant
            i <= values.len(),
            out.len() == i,
            forall|k: int| 0 <= k < i ==> out@[k]@ == #[trigger] u64_texts(values@)[k],
        decreases values.len() - i,
    {
        out.push(decimal_string(values[i] as u128));
        i += 1;
    }
    assert(texts(out@) =~= u64_texts(values@));
    out
}

/// The decimal numerals of 128-bit integers.
pub open spec fn u128_texts(values: Seq<u128>) -> Seq<Seq<char>> {
    Seq::new(values.len(), |i: int| decimal_text(values[i] as nat))
}

fn u128_array_texts(values: &Vec<u128>) -> (out: Vec<String>)
    ensures
        texts(out@) == u128_texts(values@),
{
    let mut out: Vec<String> = Vec::new();
    let mut i: usize = 0;
    while i < values.len()
        invariant
            i <= values.len(),
            out.len() == i,
            forall|k: int| 0 <= k < i ==> out@[k]@ == #[trigger] u128_texts(values@)[k],
        decreases values.len() - i,
    {
        out.push(decimal_string(values[i]));
        i += 1;
    }
    assert(texts(out@) =~= u128_texts(values@));
    out
}

/// The decimal numerals of 32-bit integers.
pub open spec fn u32_texts(values: Seq<u32>) -> Seq<Seq<char>> {
    Seq::new(values.len(), |i: int| decimal_text(values[i] as nat))
}

fn u32_array_texts(values: &Vec<u32>) -> (out: Vec<String>)
    ensures
        texts(out@) == u32_texts(values@),
{
    let mut out: Vec<String> = Vec::new();
    let mut i: usize = 0;
    while i < values.len()
        invariant
            i <= values.len(),
            out.len() == i,
            forall|k: int| 0 <= k < i ==> out@[k]@ == #[trigger] u32_texts(values@)[k],
        decreases values.len() - i,
    {
        out.push(decimal_string(values[i] as u128));
        i += 1;
    }
    assert(texts(out@) =~= u32_texts(values@));
    out
}

/// The decimal numerals of 16-bit integers.
pub open spec fn u16_texts(values: Seq<u16>) -> Seq<Seq<char>> {
    Seq::new(values.len(), |i: int| decimal_text(values[i] as nat))
}

fn u16_array_texts(values: &Vec<u16>) -> (out: Vec<String>)
    ensures
        texts(out@) == u16_texts(values@),
{
    let mut out: Vec<String> = Vec::new();
    let mut i: usize = 0;
    while i < values.len()
        invariant
            i <= values.len(),
            out.len() == i,
            forall|k: int| 0 <= k < i ==> out@[k]@ == #[trigger] u16_texts(values@)[k],
        decreases values.len() - i,
    {
        out.push(decimal_string(values[i] as u128));
        i += 1;
    }
    assert(texts(out@) =~= u16_texts(values@));
    out
}

/// The decimal numerals of 8-bit integers.
pub open spec fn u8_texts(values: Seq<u8>) -> Seq<Seq<char>> {
    Seq::new(values.len(), |i: int| decimal_text(values[i] as nat))
}

fn u8_array_texts(values: &Vec<u8>) -> (out: Vec<String>)
    ensures
        texts(out@) == u8_texts(values@),
{
    let mut out: Vec<String> = Vec::new();
    let mut i: usize = 0;
    while i < values.len()
        invariant
            i <= values.len(),
            out.len() == i,
            forall|k: int| 0 <= k < i ==> out@[k]@ == #[trigger] u8_texts(values@)[k],
        decreases values.len() - i,
    {
        out.push(decimal_string(values[i] as u128));
        i += 1;
    }
    assert(texts(out@) =~= u8_texts(values@));
    out
}

/// The decimal numerals of 256-bit integers.
pub open spec fn u256_texts(values: Seq<[u64; 4]>) -> Seq<Seq<char>> {
    Seq::new(values.len(), |i: int| u256_text(values[i]))
}

fn u256_array_texts(values: &Vec<[u64; 4]>) -> (out: Vec<String>)
    ensures
        texts(out@) == u256_texts(values@),
{
    let mut out: Vec<String> = Vec::new();
    let mut i: usize = 0;
    while i < values.len()
        invariant
            i <= values.len(),
            out.len() == i,
            forall|k: int| 0 <= k < i ==> out@[k]@ == #[trigger] u256_texts(values@)[k],
        decreases values.len() - i,
    {
        out.push(u256_decimal(&values[i]));
        i += 1;
    }
    assert(texts(out@) =~= u256_texts(values@));
    out
}

/// The decimal numerals of 512-bit integers.
pub open spec fn u512_texts(values: Seq<[u64; 8]>) -> Seq<Seq<char>> {
    Seq::new(values.len(), |i: int| u512_text(values[i]))
}

fn u512_array_texts(values: &Vec<[u64; 8]>) -> (out: Vec<String>)
    ensures
        texts(out@) == u512_texts(values@),
{
    let mut out: Vec<String> = Vec::new();
    let mut i: usize = 0;
    while i < values.len()
        invariant
            i <= values.len(),
            out.len() == i,
            forall|k: int| 0 <= k < i ==> out@[k]@ == #[trigger] u512_texts(values@)[k],
        decreases values.len() - i,
    {
        out.push(u512_decimal(&values[i]));
        i += 1;
    }
    assert(texts(out@) =~= u512_texts(values@));
    out
}

/// The hex texts of 16-byte hashes.
pub open spec fn h128_texts(values: Seq<[u8; 16]>) -> Seq<Seq<char>> {
    Seq::new(values.len(), |i: int| hash_text(values[i]@))
}

fn h128_array_texts(values: &Vec<[u8; 16]>) -> (out: Vec<String>)
    ensures
        texts(out@) == h128_texts(values@),
{
    let mut out: Vec<String> = Vec::new();
    let mut i: usize = 0;
    while i < values.len()
        invariant
            i <= values.len(),
            out.len() == i,
            forall|k: int| 0 <= k < i ==> out@[k]@ == #[trigger] h128_texts(values@)[k],
        decreases values.len() - i,
    {
        out.push(h128_hex(&values[i]));
        i += 1;
    }
    assert(texts(out@) =~= h128_texts(values@));
    out
}

/// The hex texts of 20-byte hashes and of addresses.
pub open spec fn h160_texts(values: Seq<[u8; 20]>) -> Seq<Seq<char>> {
    Seq::new(values.len(), |i: int| hash_text(values[i]@))
}

fn h160_array_texts(values: &Vec<[u8; 20]>) -> (out: Vec<String>)
    ensures
        texts(out@) == h160_texts(values@),
{
    let mut out: Vec<String> = Vec::new();
    let mut i: usize = 0;
    while i < values.len()
        invariant
            i <= values.len(),
            out.len() == i,
            forall|k: int| 0 <= k < i ==> out@[k]@ == #[trigger] h160_texts(values@)[k],
        decreases values.len() - i,
    {
        out.push(h160_hex(&values[i]));
        i += 1;
    }
    assert(texts(out@) =~= h160_texts(values@));
    out
}

/// The hex texts of 32-byte hashes.
pub open spec fn h256_texts(values: Seq<[u8; 32]>) -> Seq<Seq<char>> {
    Seq::new(values.len(), |i: int| hash_text(values[i]@))
}

fn h256_array_texts(values: &Vec<[u8; 32]>) -> (out: Vec<String>)
    ensures
        texts(out@) == h256_texts(values@),
{
    let mut out: Vec<String> = Vec::new();
    let mut i: usize = 0;
    while i < values.len()
        invariant
            i <= values.len(),
            out.len() == i,
            forall|k: int| 0 <= k < i ==> out@[k]@ == #[trigger] h256_texts(values@)[k],
        decreases values.len() - i,
    {
        out.push(h256_hex(&values[i]));
        i += 1;
    }
    assert(texts(out@) =~= h256_texts(values@));
    out
}

/// The hex texts of 64-byte hashes.
pub open spec fn h512_texts(values: Seq<[u8; 64]>) -> Seq<Seq<char>> {
    Seq::new(values.len(), |i: int| hash_text(values[i]@))
}

fn h512_array_texts(values: &Vec<[u8; 64]>) -> (out: Vec<String>)
    ensures
        texts(out@) == h512_texts(values@),
{
    let mut out: Vec<String> = Vec::new();
    let mut i: usize = 0;
    while i < values.len()
        invariant
            i <= values.len(),
            out.len() == i,
            forall|k: int| 0 <= k < i ==> out@[k]@ == #[trigger] h512_texts(values@)[k],
        decreases values.len() - i,
    {
        out.push(h512_hex(&values[i]));
        i += 1;
    }
    assert(texts(out@) =~= h512_texts(values@));
    out
}

/// The texts of byte strings as array elements.
pub open spec fn bytes_texts(values: Seq<Vec<u8>>) -> Seq<Seq<char>> {
    Seq::new(values.len(), |i: int| bytes_text(values[i]@))
}

fn bytes_array_texts(values: &Vec<Vec<u8>>) -> (out: Vec<String>)
    ensures
        texts(out@) == bytes_texts(values@),
{
    let mut out: Vec<String> = Vec::new();
    let mut i: usize = 0;
    while i < values.len()
        invariant
            i <= values.len(),
            out.len() == i,
            forall|k: int| 0 <= k < i ==> out@[k]@ == #[trigger] bytes_texts(values@)[k],
        decreases values.len() - i,
    {
        out.push(bytes_debug(&values[i]));
        i += 1;
    }
    assert(texts(out@) =~= bytes_texts(values@));
    out
}

/// The strings themselves.
pub open spec fn string_texts(values: Seq<String>) -> Seq<Seq<char>> {
    Seq::new(values.len(), |i: int| values[i]@)
}

fn string_array_texts(values: &Vec<String>) -> (out: Vec<String>)
    ensures
        texts(out@) == string_texts(values@),
{
    let mut out: Vec<String> = Vec::new();
    let mut i: usize = 0;
    while i < values.len()
        invariant
            i <= values.len(),
            out.len() == i,
            forall|k: int| 0 <= k < i ==> out@[k]@ == #[trigger] string_texts(values@)[k],
        decreases values.len() - i,
    {
        out.push(values[i].clone());
        i += 1;
    }
    assert(texts(out@) =~= string_texts(values@));
    out
}

/// One and zero for true and false.
pub open spec fn bool_flags(values: Seq<bool>) -> Seq<i8> {
    Seq::new(values.len(), |i: int| if values[i] { 1i8 } else { 0i8 })
}

fn bool_array_flags(values: &Vec<bool>) -> (out: Vec<i8>)
    ensures
        out@ == bool_flags(values@),
{
    let mut out: Vec<i8> = Vec::new();
    let mut i: usize = 0;
    while i < values.len()
        invariant
            i <= values.len(),
            out.len() == i,
            forall|k: int| 0 <= k < i ==> out@[k] == #[trigger] bool_flags(values@)[k],
        decreases values.len() - i,
    {
        out.push(if values[i] { 1 } else { 0 });
        i += 1;
    }
    assert(out@ =~= bool_flags(values@));
    out
}


/// Which kind of value a field holds, without the value: what the type
/// mapping selects before any field has been decoded.
#[derive(Debug, Clone, Copy, PartialEq, Eq, Structural)]
pub enum EthereumSqlTypeKind {
    U64,
    VecU64,
    U128,
    VecU128,
    U256,
    VecU256,
    U512,
    VecU512,
    H128,
    VecH128,
    H160,
    VecH160,
    H256,
    VecH256,
    H512,
    VecH512,
    Address,
    VecAddress,
    Bool,
    VecBool,
    U32,
    VecU32,
    U16,
    VecU16,
    U8,
    VecU8,
    String,
    VecString,
    Bytes,
    VecBytes,
}

/// A decoded field on its way into a row. Integers wider than 128 bits are
/// held as little-endian 64-bit limbs, hashes and addresses as their bytes.
#[derive(Debug, Clone, PartialEq, Eq)]
pub enum EthereumSqlTypeWrapper {
    U64(u64),
    VecU64(Vec<u64>),
    U128(u128),
    VecU128(Vec<u128>),
    U256([u64; 4]),
    VecU256(Vec<[u64; 4]>),
    U512([u64; 8]),
    VecU512(Vec<[u64; 8]>),
    H128([u8; 16]),
    VecH128(Vec<[u8; 16]>),
    H160([u8; 20]),
    VecH160(Vec<[u8; 20]>),
    H256([u8; 32]),
    VecH256(Vec<[u8; 32]>),
    H512([u8; 64]),
    VecH512(Vec<[u8; 64]>),
    Address([u8; 20]),
    VecAddress(Vec<[u8; 20]>),
    Bool(bool),
    VecBool(Vec<bool>),
    U32(u32),
    VecU32(Vec<u32>),
    U16(u16),
    VecU16(Vec<u16>),
    U8(u8),
    VecU8(Vec<u8>),
    String(String),
    VecString(Vec<String>),
    Bytes(Vec<u8>),
    VecBytes(Vec<Vec<u8>>),
}

impl EthereumSqlTypeKind {
    /// The kind's name, as it is written in source.
    pub open spec fn raw_name_spec(self) -> Seq<char> {
        match self {
            EthereumSqlTypeKind::U64 => "U64"@,
            EthereumSqlTypeKind::VecU64 => "VecU64"@,
            EthereumSqlTypeKind::U128 => "U128"@,
            EthereumSqlTypeKind::VecU128 => "VecU128"@,
            EthereumSqlTypeKind::U256 => "U256"@,
            EthereumSqlTypeKind::VecU256 => "VecU256"@,
            EthereumSqlTypeKind::U512 => "U512"@,
            EthereumSqlTypeKind::VecU512 => "VecU512"@,
            EthereumSqlTypeKind::H128 => "H128"@,
            EthereumSqlTypeKind::VecH128 => "VecH128"@,
            EthereumSqlTypeKind::H160 => "H160"@,
            EthereumSqlTypeKind::VecH160 => "VecH160"@,
            EthereumSqlTypeKind::H256 => "H256"@,
            EthereumSqlTypeKind::VecH256 => "VecH256"@,
            EthereumSqlTypeKind::H512 => "H512"@,
            EthereumSqlTypeKind::VecH512 => "VecH512"@,
            EthereumSqlTypeKind::Address => "Address"@,
            EthereumSqlTypeKind::VecAddress => "VecAddress"@,
            EthereumSqlTypeKind::Bool => "Bool"@,
            EthereumSqlTypeKind::VecBool => "VecBool"@,
            EthereumSqlTypeKind::U32 => "U32"@,
            EthereumSqlTypeKind::VecU32 => "VecU32"@,
            EthereumSqlTypeKind::U16 => "U16"@,
            EthereumSqlTypeKind::VecU16 => "VecU16"@,
            EthereumSqlTypeKind::U8 => "U8"@,
            EthereumSqlTypeKind::VecU8 => "VecU8"@,
            EthereumSqlTypeKind::String => "String"@,
            EthereumSqlTypeKind::VecString => "VecString"@,
            EthereumSqlTypeKind::Bytes => "Bytes"@,
            EthereumSqlTypeKind::VecBytes => "VecBytes"@,
        }
    }

    /// Whether the kind is one of the array kinds.
    pub open spec fn is_array(self) -> bool {
        match self {
            EthereumSqlTypeKind::VecU64
            | EthereumSqlTypeKind::VecU128
            | EthereumSqlTypeKind::VecU256
            | EthereumSqlTypeKind::VecU512
            | EthereumSqlTypeKind::VecH128
            | EthereumSqlTypeKind::VecH160
            | EthereumSqlTypeKind::VecH256
            | EthereumSqlTypeKind::VecH512
            | EthereumSqlTypeKind::VecAddress
            | EthereumSqlTypeKind::VecBool
            | EthereumSqlTypeKind::VecU32
            | EthereumSqlTypeKind::VecU16
            | EthereumSqlTypeKind::VecU8
            | EthereumSqlTypeKind::VecString
            | EthereumSqlTypeKind::VecBytes => true,
            _ => false,
        }
    }

    /// The kind's name.
    pub fn raw_name(&self) -> (name: &'static str)
        ensures
            name@ == self.raw_name_spec(),
    {
        match self {
            EthereumSqlTypeKind::U64 => "U64",
            EthereumSqlTypeKind::VecU64 => "VecU64",
            EthereumSqlTypeKind::U128 => "U128",
            EthereumSqlTypeKind::VecU128 => "VecU128",
            EthereumSqlTypeKind::U256 => "U256",
            EthereumSqlTypeKind::VecU256 => "VecU256",
            EthereumSqlTypeKind::U512 => "U512",
            EthereumSqlTypeKind::VecU512 => "VecU512",
            EthereumSqlTypeKind::H128 => "H128",
            EthereumSqlTypeKind::VecH128 => "VecH128",
            EthereumSqlTypeKind::H160 => "H160",
            EthereumSqlTypeKind::VecH160 => "VecH160",
            EthereumSqlTypeKind::H256 => "H256",
            EthereumSqlTypeKind::VecH256 => "VecH256",
            EthereumSqlTypeKind::H512 => "H512",
            EthereumSqlTypeKind::VecH512 => "VecH512",
            EthereumSqlTypeKind::Address => "Address",
            EthereumSqlTypeKind::VecAddress => "VecAddress",
            EthereumSqlTypeKind::Bool => "Bool",
            EthereumSqlTypeKind::VecBool => "VecBool",
            EthereumSqlTypeKind::U32 => "U32",
            EthereumSqlTypeKind::VecU32 => "VecU32",
            EthereumSqlTypeKind::U16 => "U16",
            EthereumSqlTypeKind::VecU16 => "VecU16",
            EthereumSqlTypeKind::U8 => "U8",
            EthereumSqlTypeKind::VecU8 => "VecU8",
            EthereumSqlTypeKind::String => "String",
            EthereumSqlTypeKind::VecString => "VecString",
            EthereumSqlTypeKind::Bytes => "Bytes",
            EthereumSqlTypeKind::VecBytes => "VecBytes",
        }
    }
}

impl EthereumSqlTypeWrapper {
    /// The kind of the value.
    pub open spec fn kind_spec(&self) -> EthereumSqlTypeKind {
        match self {
            EthereumSqlTypeWrapper::U64(_) => EthereumSqlTypeKind::U64,
            EthereumSqlTypeWrapper::VecU64(_) => EthereumSqlTypeKind::VecU64,
            EthereumSqlTypeWrapper::U128(_) => EthereumSqlTypeKind::U128,
            EthereumSqlTypeWrapper::VecU128(_) => EthereumSqlTypeKind::VecU128,
            EthereumSqlTypeWrapper::U256(_) => EthereumSqlTypeKind::U256,
            EthereumSqlTypeWrapper::VecU256(_) => EthereumSqlTypeKind::VecU256,
            EthereumSqlTypeWrapper::U512(_) => EthereumSqlTypeKind::U512,
            EthereumSqlTypeWrapper::VecU512(_) => EthereumSqlTypeKind::VecU512,
            EthereumSqlTypeWrapper::H128(_) => EthereumSqlTypeKind::H128,
            EthereumSqlTypeWrapper::VecH128(_) => EthereumSqlTypeKind::VecH128,
            EthereumSqlTypeWrapper::H160(_) => EthereumSqlTypeKind::H160,
            EthereumSqlTypeWrapper::VecH160(_) => EthereumSqlTypeKind::VecH160,
            EthereumSqlTypeWrapper::H256(_) => EthereumSqlTypeKind::H256,
            EthereumSqlTypeWrapper::VecH256(_) => EthereumSqlTypeKind::VecH256,
            EthereumSqlTypeWrapper::H512(_) => EthereumSqlTypeKind::H512,
            EthereumSqlTypeWrapper::VecH512(_) => EthereumSqlTypeKind::VecH512,
            EthereumSqlTypeWrapper::Address(_) => EthereumSqlTypeKind::Address,
            EthereumSqlTypeWrapper::VecAddress(_) => EthereumSqlTypeKind::VecAddress,
            EthereumSqlTypeWrapper::Bool(_) => EthereumSqlTypeKind::Bool,
            EthereumSqlTypeWrapper::VecBool(_) => EthereumSqlTypeKind::VecBool,
            EthereumSqlTypeWrapper::U32(_) => EthereumSqlTypeKind::U32,
            EthereumSqlTypeWrapper::VecU32(_) => EthereumSqlTypeKind::VecU32,
            EthereumSqlTypeWrapper::U16(_) => EthereumSqlTypeKind::U16,
            EthereumSqlTypeWrapper::VecU16(_) => EthereumSqlTypeKind::VecU16,
            EthereumSqlTypeWrapper::U8(_) => EthereumSqlTypeKind::U8,
            EthereumSqlTypeWrapper::VecU8(_) => EthereumSqlTypeKind::VecU8,
            EthereumSqlTypeWrapper::String(_) => EthereumSqlTypeKind::String,
            EthereumSqlTypeWrapper::VecString(_) => EthereumSqlTypeKind::VecString,
            EthereumSqlTypeWrapper::Bytes(_) => EthereumSqlTypeKind::Bytes,
            EthereumSqlTypeWrapper::VecBytes(_) => EthereumSqlTypeKind::VecBytes,
        }
    }

    /// How many elements an array value holds; zero for a scalar.
    pub open spec fn element_count(&self) -> nat {
        match self {
            EthereumSqlTypeWrapper::VecU64(values) => values@.len(),
            EthereumSqlTypeWrapper::VecU128(values) => values@.len(),
            EthereumSqlTypeWrapper::VecU256(values) => values@.len(),
            EthereumSqlTypeWrapper::VecU512(values) => values@.len(),
            EthereumSqlTypeWrapper::VecH128(values) => values@.len(),
            EthereumSqlTypeWrapper::VecH160(values) => values@.len(),
            EthereumSqlTypeWrapper::VecH256(values) => values@.len(),
            EthereumSqlTypeWrapper::VecH512(values) => values@.len(),
            EthereumSqlTypeWrapper::VecAddress(values) => values@.len(),
            EthereumSqlTypeWrapper::VecBool(values) => values@.len(),
            EthereumSqlTypeWrapper::VecU32(values) => values@.len(),
            EthereumSqlTypeWrapper::VecU16(values) => values@.len(),
            EthereumSqlTypeWrapper::VecU8(values) => values@.len(),
            EthereumSqlTypeWrapper::VecString(values) => values@.len(),
            EthereumSqlTypeWrapper::VecBytes(values) => values@.len(),
            _ => 0,
        }
    }

    /// The kind of the value.
    pub fn kind(&self) -> (k: EthereumSqlTypeKind)
        ensures
            k == self.kind_spec(),
    {
        match self {
            EthereumSqlTypeWrapper::U64(_) => EthereumSqlTypeKind::U64,
            EthereumSqlTypeWrapper::VecU64(_) => EthereumSqlTypeKind::VecU64,
            EthereumSqlTypeWrapper::U128(_) => EthereumSqlTypeKind::U128,
            EthereumSqlTypeWrapper::VecU128(_) => EthereumSqlTypeKind::VecU128,
            EthereumSqlTypeWrapper::U256(_) => EthereumSqlTypeKind::U256,
            EthereumSqlTypeWrapper::VecU256(_) => EthereumSqlTypeKind::VecU256,
            EthereumSqlTypeWrapper::U512(_) => EthereumSqlTypeKind::U512,
            EthereumSqlTypeWrapper::VecU512(_) => EthereumSqlTypeKind::VecU512,
            EthereumSqlTypeWrapper::H128(_) => EthereumSqlTypeKind::H128,
            EthereumSqlTypeWrapper::VecH128(_) => EthereumSqlTypeKind::VecH128,
            EthereumSqlTypeWrapper::H160(_) => EthereumSqlTypeKind::H160,
            EthereumSqlTypeWrapper::VecH160(_) => EthereumSqlTypeKind::VecH160,
            EthereumSqlTypeWrapper::H256(_) => EthereumSqlTypeKind::H256,
            EthereumSqlTypeWrapper::VecH256(_) => EthereumSqlTypeKind::VecH256,
            EthereumSqlTypeWrapper::H512(_) => EthereumSqlTypeKind::H512,
            EthereumSqlTypeWrapper::VecH512(_) => EthereumSqlTypeKind::VecH512,
            EthereumSqlTypeWrapper::Address(_) => EthereumSqlTypeKind::Address,
            EthereumSqlTypeWrapper::VecAddress(_) => EthereumSqlTypeKind::VecAddress,
            EthereumSqlTypeWrapper::Bool(_) => EthereumSqlTypeKind::Bool,
            EthereumSqlTypeWrapper::VecBool(_) => EthereumSqlTypeKind::VecBool,
            EthereumSqlTypeWrapper::U32(_) => EthereumSqlTypeKind::U32,
            EthereumSqlTypeWrapper::VecU32(_) => EthereumSqlTypeKind::VecU32,
            EthereumSqlTypeWrapper::U16(_) => EthereumSqlTypeKind::U16,
            EthereumSqlTypeWrapper::VecU16(_) => EthereumSqlTypeKind::VecU16,
            EthereumSqlTypeWrapper::U8(_) => EthereumSqlTypeKind::U8,
            EthereumSqlTypeWrapper::VecU8(_) => EthereumSqlTypeKind::VecU8,
            EthereumSqlTypeWrapper::String(_) => EthereumSqlTypeKind::String,
            EthereumSqlTypeWrapper::VecString(_) => EthereumSqlTypeKind::VecString,
            EthereumSqlTypeWrapper::Bytes(_) => EthereumSqlTypeKind::Bytes,
            EthereumSqlTypeWrapper::VecBytes(_) => EthereumSqlTypeKind::VecBytes,
        }
    }

    /// The name of the value's kind.
    pub fn raw_name(&self) -> (name: &'static str)
        ensures
            name@ == self.kind_spec().raw_name_spec(),
    {
        self.kind().raw_name()
    }
}


/// What an array is bound as: NULL when it has no element, never an empty
/// array; otherwise the array of its elements' texts.
pub open spec fn text_array_or_null(items: Seq<Seq<char>>) -> SqlValueView {
    if items.len() == 0 {
        SqlValueView::Null
    } else {
        SqlValueView::Array(SqlArrayView::Text(items))
    }
}

/// The same rule for an array of decimal numbers.
pub open spec fn numeric_array_or_null(items: Seq<Seq<char>>) -> SqlValueView {
    if items.len() == 0 {
        SqlValueView::Null
    } else {
        SqlValueView::Array(SqlArrayView::Numeric(items))
    }
}

/// The same rule for an array of flags.
pub open spec fn char_array_or_null(items: Seq<i8>) -> SqlValueView {
    if items.len() == 0 {
        SqlValueView::Null
    } else {
        SqlValueView::Array(SqlArrayView::Char(items))
    }
}

/// A text as the bytes that are written for it.
pub open spec fn raw_text(text: Seq<char>) -> SqlValueView {
    SqlValueView::Raw(encode_utf8(text))
}

fn text_array(items: Vec<String>) -> (v: SqlValue)
    ensures
        v@ == text_array_or_null(texts(items@)),
{
    if items.len() == 0 {
        SqlValue::Null
    } else {
        SqlValue::Array(SqlArray::Text(items))
    }
}

fn raw(text: String) -> (v: SqlValue)
    ensures
        v@ == raw_text(text@),
{
    SqlValue::Raw(text.as_str().as_bytes_vec())
}

impl EthereumSqlTypeWrapper {
    /// Whether the value has an encoding: every value but an unsigned 16-bit
    /// or 32-bit one that the signed integer of the same width cannot hold.
    pub open spec fn encodable(&self) -> bool {
        match self {
            EthereumSqlTypeWrapper::U16(v) => *v <= i16::MAX,
            EthereumSqlTypeWrapper::U32(v) => *v <= i32::MAX,
            _ => true,
        }
    }

    /// What the value is bound as.
    ///
    /// Integers of up to 32 bits and booleans go as the database's own
    /// integers and boolean. Wider integers go as their decimal numeral: a
    /// 64-bit one as a decimal number, the others as the numeral's bytes.
    /// Hashes go as `0x` and their hex digits, written as text bytes;
    /// addresses and strings go as text values, byte strings as they are. An
    /// array goes as the array of its elements' texts (numerals for 64-bit
    /// integers, flags for booleans), and as NULL when it is empty.
    pub open spec fn encoded(&self) -> Result<SqlValueView, EncodingError> {
        match self {
            EthereumSqlTypeWrapper::U64(v) => Ok(SqlValueView::Numeric(decimal_text(*v as nat))),
            EthereumSqlTypeWrapper::VecU64(vs) => Ok(numeric_array_or_null(u64_texts(vs@))),
            EthereumSqlTypeWrapper::U128(v) => Ok(raw_text(decimal_text(*v as nat))),
            EthereumSqlTypeWrapper::VecU128(vs) => Ok(text_array_or_null(u128_texts(vs@))),
            EthereumSqlTypeWrapper::U256(v) => Ok(raw_text(u256_text(*v))),
            EthereumSqlTypeWrapper::VecU256(vs) => Ok(text_array_or_null(u256_texts(vs@))),
            EthereumSqlTypeWrapper::U512(v) => Ok(raw_text(u512_text(*v))),
            EthereumSqlTypeWrapper::VecU512(vs) => Ok(text_array_or_null(u512_texts(vs@))),
            EthereumSqlTypeWrapper::H128(v) => Ok(raw_text(hash_text(v@))),
            EthereumSqlTypeWrapper::VecH128(vs) => Ok(text_array_or_null(h128_texts(vs@))),
            EthereumSqlTypeWrapper::H160(v) => Ok(raw_text(hash_text(v@))),
            EthereumSqlTypeWrapper::VecH160(vs) => Ok(text_array_or_null(h160_texts(vs@))),
            EthereumSqlTypeWrapper::H256(v) => Ok(raw_text(hash_text(v@))),
            EthereumSqlTypeWrapper::VecH256(vs) => Ok(text_array_or_null(h256_texts(vs@))),
            EthereumSqlTypeWrapper::H512(v) => Ok(raw_text(hash_text(v@))),
            EthereumSqlTypeWrapper::VecH512(vs) => Ok(text_array_or_null(h512_texts(vs@))),
            EthereumSqlTypeWrapper::Address(v) => Ok(SqlValueView::Text(hash_text(v@))),
            EthereumSqlTypeWrapper::VecAddress(vs) => Ok(text_array_or_null(h160_texts(vs@))),
            EthereumSqlTypeWrapper::Bool(v) => Ok(SqlValueView::Bool(*v)),
            EthereumSqlTypeWrapper::VecBool(vs) => Ok(char_array_or_null(bool_flags(vs@))),
            EthereumSqlTypeWrapper::U32(v) => if *v <= i32::MAX {
                Ok(SqlValueView::Integer(*v as i32))
            } else {
                Err(EncodingError::IntegerOutOfRange)
            },
            EthereumSqlTypeWrapper::VecU32(vs) => Ok(text_array_or_null(u32_texts(vs@))),
            EthereumSqlTypeWrapper::U16(v) => if *v <= i16::MAX {
                Ok(SqlValueView::SmallInt(*v as i16))
            } else {
                Err(EncodingError::SmallIntOutOfRange)
            },
            EthereumSqlTypeWrapper::VecU16(vs) => Ok(text_array_or_null(u16_texts(vs@))),
            EthereumSqlTypeWrapper::U8(v) => Ok(SqlValueView::SmallInt(*v as i16)),
            EthereumSqlTypeWrapper::VecU8(vs) => Ok(text_array_or_null(u8_texts(vs@))),
            EthereumSqlTypeWrapper::String(v) => Ok(SqlValueView::Text(v@)),
            EthereumSqlTypeWrapper::VecString(vs) => Ok(text_array_or_null(string_texts(vs@))),
            EthereumSqlTypeWrapper::Bytes(v) => Ok(SqlValueView::Raw(v@)),
            EthereumSqlTypeWrapper::VecBytes(vs) => Ok(text_array_or_null(bytes_texts(vs@))),
        }
    }

    /// Encodes the value for one statement parameter. No digit is ever
    /// dropped: a value that does not fit is an error.
    pub fn encode(&self) -> (r: Result<SqlValue, EncodingError>)
        ensures
            r is Ok <==> self.encodable(),
            match r {
                Ok(v) => self.encoded() == Ok::<SqlValueView, EncodingError>(v@),
                Err(e) => self.encoded() == Err::<SqlValueView, EncodingError>(e),
            },
    {
        match self {
            EthereumSqlTypeWrapper::U64(v) => Ok(SqlValue::Numeric(decimal_string(*v as u128))),
            EthereumSqlTypeWrapper::VecU64(vs) => {
                let numerals = u64_array_texts(vs);
                if numerals.len() == 0 {
                    Ok(SqlValue::Null)
                } else {
                    Ok(SqlValue::Array(SqlArray::Numeric(numerals)))
                }
            },
            EthereumSqlTypeWrapper::U128(v) => Ok(raw(decimal_string(*v))),
            EthereumSqlTypeWrapper::VecU128(vs) => Ok(text_array(u128_array_texts(vs))),
            EthereumSqlTypeWrapper::U256(v) => Ok(raw(u256_decimal(v))),
            EthereumSqlTypeWrapper::VecU256(vs) => Ok(text_array(u256_array_texts(vs))),
            EthereumSqlTypeWrapper::U512(v) => Ok(raw(u512_decimal(v))),
            EthereumSqlTypeWrapper::VecU512(vs) => Ok(text_array(u512_array_texts(vs))),
            EthereumSqlTypeWrapper::H128(v) => Ok(raw(h128_hex(v))),
            EthereumSqlTypeWrapper::VecH128(vs) => Ok(text_array(h128_array_texts(vs))),
            EthereumSqlTypeWrapper::H160(v) => Ok(raw(h160_hex(v))),
            EthereumSqlTypeWrapper::VecH160(vs) => Ok(text_array(h160_array_texts(vs))),
            EthereumSqlTypeWrapper::H256(v) => Ok(raw(h256_hex(v))),
            EthereumSqlTypeWrapper::VecH256(vs) => Ok(text_array(h256_array_texts(vs))),
            EthereumSqlTypeWrapper::H512(v) => Ok(raw(h512_hex(v))),
            EthereumSqlTypeWrapper::VecH512(vs) => Ok(text_array(h512_array_texts(vs))),
            EthereumSqlTypeWrapper::Address(v) => Ok(SqlValue::Text(h160_hex(v))),
            EthereumSqlTypeWrapper::VecAddress(vs) => Ok(text_array(h160_array_texts(vs))),
            EthereumSqlTypeWrapper::Bool(v) => Ok(SqlValue::Bool(*v)),
            EthereumSqlTypeWrapper::VecBool(vs) => {
                let flags = bool_array_flags(vs);
                if flags.len() == 0 {
                    Ok(SqlValue::Null)
                } else {
                    Ok(SqlValue::Array(SqlArray::Char(flags)))
                }
            },
            EthereumSqlTypeWrapper::U32(v) => {
                if *v <= 0x7fff_ffff {
                    Ok(SqlValue::Integer(*v as i32))
                } else {
                    Err(EncodingError::IntegerOutOfRange)
                }
            },
            EthereumSqlTypeWrapper::VecU32(vs) => Ok(text_array(u32_array_texts(vs))),
            EthereumSqlTypeWrapper::U16(v) => {
                if *v <= 0x7fff {
                    Ok(SqlValue::SmallInt(*v as i16))
                } else {
                    Err(EncodingError::SmallIntOutOfRange)
                }
            },
            EthereumSqlTypeWrapper::VecU16(vs) => Ok(text_array(u16_array_texts(vs))),
            EthereumSqlTypeWrapper::U8(v) => Ok(SqlValue::SmallInt(*v as i16)),
            EthereumSqlTypeWrapper::VecU8(vs) => Ok(text_array(u8_array_texts(vs))),
            EthereumSqlTypeWrapper::String(v) => Ok(SqlValue::Text(v.clone())),
            EthereumSqlTypeWrapper::VecString(vs) => Ok(text_array(string_array_texts(vs))),
            EthereumSqlTypeWrapper::Bytes(v) => Ok(SqlValue::Raw(v.clone())),
            EthereumSqlTypeWrapper::VecBytes(vs) => Ok(text_array(bytes_array_texts(vs))),
        }
    }
}


/// The buffer that a parameter's bytes are written to.
#[verifier::external_type_specification]
#[verifier::external_body]
pub struct ExBytesMut(BytesMut);

/// The type of a statement parameter, as the driver knows it.
#[verifier::external_type_specification]
#[verifier::external_body]
pub struct ExType(Type);

/// The bytes that a buffer holds, in order.
pub uninterp spec fn buffer_contents(buffer: BytesMut) -> Seq<u8>;

/// The two bytes of a number below two to the 16, the high one first.
pub open spec fn be16(n: int) -> Seq<u8> {
    seq![(n / 0x100) as u8, (n % 0x100) as u8]
}

/// The four bytes of a number below two to the 32, the highest first.
pub open spec fn be32(n: int) -> Seq<u8> {
    seq![
        (n / 0x100_0000) as u8,
        ((n / 0x1_0000) % 0x100) as u8,
        ((n / 0x100) % 0x100) as u8,
        (n % 0x100) as u8,
    ]
}

/// What is written for a 16-bit integer: its two's complement, the high
/// byte first.
pub open spec fn int2_wire(value: i16) -> Seq<u8> {
    be16(if value < 0 { value + 0x1_0000 } else { value as int })
}

/// What is written for a 32-bit integer: its two's complement, the highest
/// byte first.
pub open spec fn int4_wire(value: i32) -> Seq<u8> {
    be32(if value < 0 { value + 0x1_0000_0000 } else { value as int })
}

/// The digits of a number to the base ten thousand, the highest first, two
/// bytes each; none for zero.
pub open spec fn numeric_groups(n: nat) -> Seq<u8>
    decreases n,
{
    if n == 0 {
        Seq::empty()
    } else {
        numeric_groups(n / 10000) + be16((n % 10000) as int)
    }
}

/// What is written for a whole number that is not negative, as a decimal
/// number of the database: how many digits to the base ten thousand it
/// has, the weight of the first of them, a sign of zero and a scale of zero,
/// two bytes each, and then the digits.
pub open spec fn numeric_wire(n: nat) -> Seq<u8> {
    let count = numeric_groups(n).len() / 2;
    be16(count as int) + be16(if count == 0 { 0 } else { count - 1 }) + be16(0) + be16(0)
        + numeric_groups(n)
}

/// The one byte of an 8-bit integer: its two's complement.
pub open spec fn int1_wire(value: i8) -> u8 {
    (if value < 0 {
        value + 0x100
    } else {
        value as int
    }) as u8
}

/// The head of a one-dimensional array on the wire, five numbers of four
/// bytes each: one dimension, no NULL among the elements, the number of the
/// element type, the count of elements, and the index of the first.
pub open spec fn array_header(count: nat, element_type: Seq<u8>, lower_bound: int) -> Seq<u8> {
    be32(1) + be32(0) + element_type + be32(count as int) + be32(lower_bound)
}

/// The elements of an array on the wire: for each, in order, its length in
/// four bytes and then its bytes.
pub open spec fn array_elements(items: Seq<Seq<u8>>) -> Seq<u8>
    decreases items.len(),
{
    if items.len() == 0 {
        Seq::empty()
    } else {
        array_elements(items.drop_last()) + be32(items.last().len() as int) + items.last()
    }
}

/// Whether a buffer has gained one array: its head and then its elements.
/// The element type's number has four bytes, and the first index is 1, or
/// 0 for the two vector types that count from zero.
pub open spec fn array_written(
    before: Seq<u8>,
    after: Seq<u8>,
    items: Seq<Seq<u8>>,
    element_type: Seq<u8>,
    lower_bound: int,
) -> bool {
    &&& element_type.len() == 4
    &&& lower_bound == 0 || lower_bound == 1
    &&& after == before + array_header(items.len(), element_type, lower_bound) + array_elements(
        items,
    )
}

/// The bytes of each text as an array element: the text in UTF-8, after the
/// byte 1 where the elements are of a tree type, which is written with its
/// version.
pub open spec fn text_items(texts: Seq<Seq<char>>, versioned: bool) -> Seq<Seq<u8>> {
    Seq::new(
        texts.len(),
        |i: int|
            if versioned {
                seq![1u8] + encode_utf8(texts[i])
            } else {
                encode_utf8(texts[i])
            },
    )
}

/// The bytes of each 64-bit integer as an array element: the integer as a
/// decimal number of the database.
pub open spec fn numeric_items(values: Seq<u64>) -> Seq<Seq<u8>> {
    Seq::new(values.len(), |i: int| numeric_wire(values[i] as nat))
}

/// The one byte of each 8-bit integer as an array element.
pub open spec fn char_items(values: Seq<i8>) -> Seq<Seq<u8>> {
    Seq::new(values.len(), |i: int| seq![int1_wire(values[i])])
}

/// Whether an array is too large for the driver to transmit: it has more
/// elements than the largest 32-bit integer, or one of its texts has, with
/// the version byte that it may carry, more bytes than that.
pub open spec fn too_large_to_transmit(array: SqlArrayView) -> bool {
    match array {
        SqlArrayView::Numeric(numerals) => numerals.len() > 0x7fff_ffff,
        SqlArrayView::Text(texts) => texts.len() > 0x7fff_ffff || exists|i: int|
            0 <= i < texts.len() && (#[trigger] text_items(texts, false)[i]).len() >= 0x7fff_ffff,
        SqlArrayView::Char(flags) => flags.len() > 0x7fff_ffff,
    }
}

/// Why the driver wrote no array.
#[derive(Debug, Clone, Copy, PartialEq, Eq, Structural)]
pub enum ArrayFailure {
    /// The parameter's type is no array type, and nothing was written.
    NotAnArray,
    /// The array or one of its elements is too large to transmit.
    TooLarge,
}

/// `BytesMut::extend_from_slice` of bytes: the bytes are appended to the
/// buffer.
#[verifier::external_body]
fn extend_from_slice(out: &mut BytesMut, bytes: &Vec<u8>)
    ensures
        buffer_contents(*final(out)) == buffer_contents(*old(out)) + bytes@,
{
    out.extend_from_slice(bytes)
}

/// `to_sql` of `bool` in tokio-postgres: one byte is appended to the buffer,
/// 1 for true and 0 for false, whatever the parameter's type.
#[verifier::external_body]
fn bool_to_sql(value: bool, ty: &Type, out: &mut BytesMut)
    ensures
        buffer_contents(*final(out)) == buffer_contents(*old(out)) + seq![
            if value {
                1u8
            } else {
                0u8
            },
        ],
{
    let _ = value.to_sql(ty, out);
}

/// `to_sql` of `i16` in tokio-postgres: the number's two bytes are appended
/// to the buffer, the high one first, whatever the parameter's type.
#[verifier::external_body]
fn int2_to_sql(value: i16, ty: &Type, out: &mut BytesMut)
    ensures
        buffer_contents(*final(out)) == buffer_contents(*old(out)) + int2_wire(value),
{
    let _ = value.to_sql(ty, out);
}

/// `to_sql` of `i32` in tokio-postgres: the number's four bytes are appended
/// to the buffer, the highest first, whatever the parameter's type.
#[verifier::external_body]
fn int4_to_sql(value: i32, ty: &Type, out: &mut BytesMut)
    ensures
        buffer_contents(*final(out)) == buffer_contents(*old(out)) + int4_wire(value),
{
    let _ = value.to_sql(ty, out);
}

/// `to_sql` of `Decimal` in rust_decimal, for the decimal number made from a
/// 64-bit integer: the number is appended to the buffer as a decimal number
/// of the database, whatever the parameter's type.
#[verifier::external_body]
fn numeric_to_sql(value: u64, ty: &Type, out: &mut BytesMut)
    ensures
        buffer_contents(*final(out)) == buffer_contents(*old(out)) + numeric_wire(value as nat),
{
    let _ = Decimal::from(value).to_sql(ty, out);
}

/// `to_sql` of `Vec<String>` in tokio-postgres, which is called only for a
/// parameter of an array type, since it panics on any other. The driver only
/// appends to the buffer. Where it succeeds it has appended one array: the
/// head, and each text with its length before it. It fails only where the
/// count of elements or the length of an element does not fit in a 32-bit
/// integer.
#[verifier::external_body]
fn text_array_to_sql(values: &Vec<String>, ty: &Type, out: &mut BytesMut) -> (r: Result<
    (),
    ArrayFailure,
>)
    ensures
        buffer_contents(*old(out)).is_prefix_of(buffer_contents(*final(out))),
        r matches Err(ArrayFailure::NotAnArray) ==> buffer_contents(*final(out))
            == buffer_contents(*old(out)),
        r matches Err(ArrayFailure::TooLarge) ==> too_large_to_transmit(
            SqlArrayView::Text(texts(values@)),
        ),
        r is Ok ==> exists|element_type: Seq<u8>, lower_bound: int, versioned: bool| #[trigger]
            array_written(
                buffer_contents(*old(out)),
                buffer_contents(*final(out)),
                text_items(texts(values@), versioned),
                element_type,
                lower_bound,
            ),
{
    match ty.kind() {
        Kind::Array(_) => match values.to_sql(ty, out) {
            Ok(_) => Ok(()),
            Err(_) => Err(ArrayFailure::TooLarge),
        },
        _ => Err(ArrayFailure::NotAnArray),
    }
}

/// `to_sql` of `Vec<Decimal>` in tokio-postgres and rust_decimal, for the
/// decimal numbers made from 64-bit integers; called only for a parameter of
/// an array type. Where it succeeds it has appended one array: the head,
/// and each number with its length before it. It fails only where the count
/// of elements does not fit in a 32-bit integer.
#[verifier::external_body]
fn numeric_array_to_sql(values: &Vec<u64>, ty: &Type, out: &mut BytesMut) -> (r: Result<
    (),
    ArrayFailure,
>)
    ensures
        buffer_contents(*old(out)).is_prefix_of(buffer_contents(*final(out))),
        r matches Err(ArrayFailure::NotAnArray) ==> buffer_contents(*final(out))
            == buffer_contents(*old(out)),
        r matches Err(ArrayFailure::TooLarge) ==> values@.len() > 0x7fff_ffff,
        r is Ok ==> exists|element_type: Seq<u8>, lower_bound: int| #[trigger]
            array_written(
                buffer_contents(*old(out)),
                buffer_contents(*final(out)),
                numeric_items(values@),
                element_type,
                lower_bound,
            ),
{
    match ty.kind() {
        Kind::Array(_) => {
            let numbers: Vec<Decimal> = values.iter().map(|value| Decimal::from(*value)).collect();
            match numbers.to_sql(ty, out) {
                Ok(_) => Ok(()),
                Err(_) => Err(ArrayFailure::TooLarge),
            }
        },
        _ => Err(ArrayFailure::NotAnArray),
    }
}

/// `to_sql` of `Vec<i8>` in tokio-postgres; called only for a parameter of an
/// array type. Where it succeeds it has appended one array: the head, and
/// each element's one byte with its length before it. It fails only where
/// the count of elements does not fit in a 32-bit integer.
#[verifier::external_body]
fn char_array_to_sql(values: &Vec<i8>, ty: &Type, out: &mut BytesMut) -> (r: Result<
    (),
    ArrayFailure,
>)
    ensures
        buffer_contents(*old(out)).is_prefix_of(buffer_contents(*final(out))),
        r matches Err(ArrayFailure::NotAnArray) ==> buffer_contents(*final(out))
            == buffer_contents(*old(out)),
        r matches Err(ArrayFailure::TooLarge) ==> values@.len() > 0x7fff_ffff,
        r is Ok ==> exists|element_type: Seq<u8>, lower_bound: int| #[trigger]
            array_written(
                buffer_contents(*old(out)),
                buffer_contents(*final(out)),
                char_items(values@),
                element_type,
                lower_bound,
            ),
{
    match ty.kind() {
        Kind::Array(_) => match values.to_sql(ty, out) {
            Ok(_) => Ok(()),
            Err(_) => Err(ArrayFailure::TooLarge),
        },
        _ => Err(ArrayFailure::NotAnArray),
    }
}

/// What has been done with a value that is to be bound.
#[derive(Debug, Clone, Copy, PartialEq, Eq, Structural)]
pub enum Bound {
    /// The value is NULL, and nothing was written.
    Null,
    /// The value's bytes were appended to the buffer.
    Written,
}

/// What binding an array comes to, given what the driver said of writing
/// it.
pub open spec fn array_outcome_spec(written: Result<(), ArrayFailure>) -> Result<
    Bound,
    EncodingError,
> {
    match written {
        Ok(_) => Ok(Bound::Written),
        Err(ArrayFailure::NotAnArray) => Err(EncodingError::NotAnArray),
        Err(ArrayFailure::TooLarge) => Err(EncodingError::ArrayTooLarge),
    }
}

/// Says what binding an array comes to, given what the driver said of
/// writing it: written, or the error that names the failure.
pub fn array_outcome(written: Result<(), ArrayFailure>) -> (r: Result<Bound, EncodingError>)
    ensures
        r == array_outcome_spec(written),
{
    match written {
        Ok(_) => Ok(Bound::Written),
        Err(ArrayFailure::NotAnArray) => Err(EncodingError::NotAnArray),
        Err(ArrayFailure::TooLarge) => Err(EncodingError::ArrayTooLarge),
    }
}

impl SqlArrayView {
    /// The bytes of each element on the wire, in order.
    pub open spec fn items(self, versioned: bool) -> Seq<Seq<u8>> {
        match self {
            SqlArrayView::Numeric(numerals) => Seq::new(
                numerals.len(),
                |i: int| numeric_wire(digits_value(numerals[i])),
            ),
            SqlArrayView::Text(texts) => text_items(texts, versioned),
            SqlArrayView::Char(flags) => char_items(flags),
        }
    }
}

impl SqlValueView {
    /// The bytes that are written for a value that is neither NULL nor an
    /// array.
    pub open spec fn wire(self) -> Seq<u8> {
        match self {
            SqlValueView::Raw(bytes) => bytes,
            SqlValueView::Numeric(numeral) => numeric_wire(digits_value(numeral)),
            SqlValueView::Text(text) => encode_utf8(text),
            SqlValueView::Bool(flag) => seq![
                if flag {
                    1u8
                } else {
                    0u8
                },
            ],
            SqlValueView::SmallInt(number) => int2_wire(number),
            SqlValueView::Integer(number) => int4_wire(number),
            _ => Seq::empty(),
        }
    }
}

impl EthereumSqlTypeWrapper {
    /// What binding the value does: what is returned, and what the buffer
    /// holds afterwards.
    ///
    /// A value without an encoding is an error, and NULL leaves the buffer
    /// as it is. For a value that is no array its bytes are appended and
    /// nothing else.
    ///
    /// A text, which is a string or an address, goes as its bytes in UTF-8
    /// whatever the parameter's type. This holds of the three tree types
    /// too, before whose texts the driver would write a version byte: a
    /// single text is appended here as it is, without the driver. Only the
    /// texts of an array, which the driver writes, carry that byte for a
    /// tree type.
    ///
    /// An array is written by the driver, which decides whether it is.
    /// Where it is, the buffer has gained the array's head and its elements
    /// in order. Where the parameter's type is no array type, nothing is
    /// written. The array is refused as too large only where its count or
    /// the length of one of its elements does not fit in a 32-bit integer,
    /// and then the buffer has lost nothing.
    pub open spec fn binds(
        &self,
        before: Seq<u8>,
        result: Result<Bound, EncodingError>,
        after: Seq<u8>,
    ) -> bool {
        match self.encoded() {
            Err(e) => result == Err::<Bound, EncodingError>(e) && after == before,
            Ok(value) => if value is Null {
                result == Ok::<Bound, EncodingError>(Bound::Null) && after == before
            } else if value is Array {
                binds_array(value->Array_0, before, result, after)
            } else {
                result == Ok::<Bound, EncodingError>(Bound::Written) && after == before
                    + value.wire()
            },
        }
    }

    /// Binds the value to a statement parameter of the given type: writes
    /// its bytes to the buffer, or says that it is NULL.
    pub fn to_sql(&self, ty: &Type, out: &mut BytesMut) -> (r: Result<Bound, EncodingError>)
        ensures
            self.binds(buffer_contents(*old(out)), r, buffer_contents(*final(out))),
    {
        match self {
            EthereumSqlTypeWrapper::U64(value) => {
                proof {
                    lemma_decimal_text_round_trip(*value as nat);
                }
                numeric_to_sql(*value, ty, out);
                Ok(Bound::Written)
            },
            EthereumSqlTypeWrapper::VecU64(values) => {
                if values.len() == 0 {
                    Ok(Bound::Null)
                } else {
                    bind_numeric_array(values, ty, out)
                }
            },
            EthereumSqlTypeWrapper::Bool(value) => {
                bool_to_sql(*value, ty, out);
                Ok(Bound::Written)
            },
            EthereumSqlTypeWrapper::U8(value) => {
                int2_to_sql(*value as i16, ty, out);
                Ok(Bound::Written)
            },
            EthereumSqlTypeWrapper::U16(value) => {
                if *value <= 0x7fff {
                    int2_to_sql(*value as i16, ty, out);
                    Ok(Bound::Written)
                } else {
                    Err(EncodingError::SmallIntOutOfRange)
                }
            },
            EthereumSqlTypeWrapper::U32(value) => {
                if *value <= 0x7fff_ffff {
                    int4_to_sql(*value as i32, ty, out);
                    Ok(Bound::Written)
                } else {
                    Err(EncodingError::IntegerOutOfRange)
                }
            },
            _ => match self.encode() {
                Ok(SqlValue::Null) => Ok(Bound::Null),
                Ok(SqlValue::Raw(bytes)) => {
                    extend_from_slice(out, &bytes);
                    Ok(Bound::Written)
                },
                Ok(SqlValue::Text(text)) => {
                    let bytes = text.as_str().as_bytes_vec();
                    extend_from_slice(out, &bytes);
                    Ok(Bound::Written)
                },
                Ok(SqlValue::Array(SqlArray::Text(items))) => bind_text_array(&items, ty, out),
                Ok(SqlValue::Array(SqlArray::Char(flags))) => bind_char_array(&flags, ty, out),
                Ok(_) => {
                    // Every value that goes as a number or a boolean, and the
                    // one array of numbers, was taken above.
                    assert(false);
                    Ok(Bound::Written)
                },
                Err(e) => Err(e),
            },
        }
    }
}

/// What binding an array does, given the array: what is returned, and what
/// the buffer holds afterwards.
pub open spec fn binds_array(
    array: SqlArrayView,
    before: Seq<u8>,
    result: Result<Bound, EncodingError>,
    after: Seq<u8>,
) -> bool {
    match result {
        Ok(bound) => bound == Bound::Written && exists|
            element_type: Seq<u8>,
            lower_bound: int,
            versioned: bool,
        | #[trigger]
            array_written(before, after, array.items(versioned), element_type, lower_bound),
        Err(e) => (e == EncodingError::NotAnArray && after == before) || (e
            == EncodingError::ArrayTooLarge && before.is_prefix_of(after) && too_large_to_transmit(
            array,
        )),
    }
}

fn bind_text_array(items: &Vec<String>, ty: &Type, out: &mut BytesMut) -> (r: Result<
    Bound,
    EncodingError,
>)
    ensures
        binds_array(
            SqlArrayView::Text(texts(items@)),
            buffer_contents(*old(out)),
            r,
            buffer_contents(*final(out)),
        ),
{
    let ghost before = buffer_contents(*out);
    let written = text_array_to_sql(items, ty, out);
    proof {
        let after = buffer_contents(*out);
        let array = SqlArrayView::Text(texts(items@));
        if written is Ok {
            let (element_type, lower_bound, versioned) = choose|
                element_type: Seq<u8>,
                lower_bound: int,
                versioned: bool,
            | #[trigger]
                array_written(
                    before,
                    after,
                    text_items(texts(items@), versioned),
                    element_type,
                    lower_bound,
                );
            assert(array_written(
                before,
                after,
                array.items(versioned),
                element_type,
                lower_bound,
            ));
        }
    }
    array_outcome(written)
}

fn bind_numeric_array(values: &Vec<u64>, ty: &Type, out: &mut BytesMut) -> (r: Result<
    Bound,
    EncodingError,
>)
    ensures
        binds_array(
            SqlArrayView::Numeric(u64_texts(values@)),
            buffer_contents(*old(out)),
            r,
            buffer_contents(*final(out)),
        ),
{
    let ghost before = buffer_contents(*out);
    let written = numeric_array_to_sql(values, ty, out);
    proof {
        let after = buffer_contents(*out);
        let array = SqlArrayView::Numeric(u64_texts(values@));
        assert forall|i: int| 0 <= i < values@.len() implies array.items(false)[i]
            == numeric_items(values@)[i] by {
            lemma_decimal_text_round_trip(values@[i] as nat);
        }
        assert(array.items(false) =~= numeric_items(values@));
        if written is Ok {
            let (element_type, lower_bound) = choose|element_type: Seq<u8>, lower_bound: int|
                #[trigger] array_written(
                    before,
                    after,
                    numeric_items(values@),
                    element_type,
                    lower_bound,
                );
            assert(array_written(before, after, array.items(false), element_type, lower_bound));
        }
    }
    array_outcome(written)
}

fn bind_char_array(flags: &Vec<i8>, ty: &Type, out: &mut BytesMut) -> (r: Result<
    Bound,
    EncodingError,
>)
    ensures
        binds_array(
            SqlArrayView::Char(flags@),
            buffer_contents(*old(out)),
            r,
            buffer_contents(*final(out)),
        ),
{
    let ghost before = buffer_contents(*out);
    let written = char_array_to_sql(flags, ty, out);
    proof {
        let after = buffer_contents(*out);
        let array = SqlArrayView::Char(flags@);
        if written is Ok {
            let (element_type, lower_bound) = choose|element_type: Seq<u8>, lower_bound: int|
                #[trigger] array_written(
                    before,
                    after,
                    char_items(flags@),
                    element_type,
                    lower_bound,
                );
            assert(array_written(before, after, array.items(false), element_type, lower_bound));
        }
    }
    array_outcome(written)
}

/// An empty array is bound as NULL, whatever its kind: never as an array
/// without elements.
pub proof fn lemma_empty_array_is_null(value: EthereumSqlTypeWrapper)
    requires
        value.kind_spec().is_array(),
        value.element_count() == 0,
    ensures
        value.encoded() == Ok::<SqlValueView, EncodingError>(SqlValueView::Null),
{
}

/// An array with an element is never bound as NULL.
pub proof fn lemma_filled_array_is_not_null(value: EthereumSqlTypeWrapper)
    requires
        value.kind_spec().is_array(),
        value.element_count() > 0,
    ensures
        value.encoded() is Ok,
        value.encoded()->Ok_0 is Array,
{
}

/// A decoded value of a log, as the decoder hands it over.
#[derive(Debug)]
pub enum Token {
    Address([u8; 20]),
    FixedBytes(Vec<u8>),
    Bytes(Vec<u8>),
    Int([u64; 4]),
    Uint([u64; 4]),
    Bool(bool),
    String(String),
    FixedArray(Vec<Token>),
    Array(Vec<Token>),
    Tuple(Vec<Token>),
}

impl Token {
    /// Whether the token is of a kind that is wrapped: an address, an
    /// integer, a boolean or a string.
    pub open spec fn is_wrapped(&self) -> bool {
        self is Address || self is Int || self is Uint || self is Bool || self is String
    }

    /// Whether the token is of a kind that is wrapped.
    pub fn can_be_wrapped(&self) -> (r: bool)
        ensures
            r == self.is_wrapped(),
    {
        match self {
            Token::Address(_) | Token::Int(_) | Token::Uint(_) | Token::Bool(_) | Token::String(
                _,
            ) => true,
            _ => false,
        }
    }
}

/// Wraps a decoded value for the database: an address as an address, an
/// integer of either sign as a 256-bit integer, a boolean and a string as
/// themselves. No other token is taken.
pub fn map_log_token_to_ethereum_wrapper(token: &Token) -> (r: Option<EthereumSqlTypeWrapper>)
    requires
        token.is_wrapped(),
    ensures
        r is Some,
        match *token {
            Token::Address(address) => r->0 == EthereumSqlTypeWrapper::Address(address),
            Token::Int(number) | Token::Uint(number) => r->0 == EthereumSqlTypeWrapper::U256(
                number,
            ),
            Token::Bool(flag) => r->0 == EthereumSqlTypeWrapper::Bool(flag),
            Token::String(text) => r->0 matches EthereumSqlTypeWrapper::String(wrapped)
                && wrapped@ == text@,
            _ => false,
        },
{
    match token {
        Token::Address(address) => Some(EthereumSqlTypeWrapper::Address(*address)),
        Token::Int(number) => Some(EthereumSqlTypeWrapper::U256(*number)),
        Token::Uint(number) => Some(EthereumSqlTypeWrapper::U256(*number)),
        Token::Bool(flag) => Some(EthereumSqlTypeWrapper::Bool(*flag)),
        Token::String(text) => Some(EthereumSqlTypeWrapper::String(text.clone())),
        _ => None,
    }
}

impl From<[u8; 20]> for EthereumSqlTypeWrapper {
    fn from(address: [u8; 20]) -> (r: Self) {
        EthereumSqlTypeWrapper::Address(address)
    }
}

impl vstd::std_specs::convert::FromSpecImpl<[u8; 20]> for EthereumSqlTypeWrapper {
    open spec fn obeys_from_spec() -> bool {
        true
    }

    open spec fn from_spec(address: [u8; 20]) -> Self {
        EthereumSqlTypeWrapper::Address(address)
    }
}

/// Whether a character is one of the ten decimal digits.
pub open spec fn is_digit(c: char) -> bool {
    '0' <= c && c <= '9'
}

/// Whether a text is made of decimal digits alone.
pub open spec fn all_digits(text: Seq<char>) -> bool {
    forall|i: int| 0 <= i < text.len() ==> is_digit(#[trigger] text[i])
}

/// The number that a text of decimal digits stands for; zero for no digits.
pub open spec fn digits_value(text: Seq<char>) -> nat
    decreases text.len(),
{
    if text.len() == 0 {
        0
    } else {
        digits_value(text.drop_last()) * 10 + (text.last() as u8 - '0' as u8) as nat
    }
}

/// The first number that 256 bits cannot hold.
pub open spec fn two_to_256() -> nat {
    0x1_0000_0000_0000_0000_0000_0000_0000_0000_0000_0000_0000_0000_0000_0000_0000_0000nat
}

/// The number that four limbs stand for, written out.
pub proof fn lemma_four_limbs_value(limbs: Seq<u64>)
    requires
        limbs.len() == 4,
    ensures
        limbs_value(limbs) == limbs[0] + 0x1_0000_0000_0000_0000 * limbs[1]
            + 0x1_0000_0000_0000_0000_0000_0000_0000_0000 * limbs[2]
            + 0x1_0000_0000_0000_0000_0000_0000_0000_0000_0000_0000_0000_0000 * limbs[3],
{
    let a = limbs.drop_first();
    let b = a.drop_first();
    let c = b.drop_first();
    assert(limbs_value(c.drop_first()) == 0);
    assert(limbs_value(c) == c[0] as nat);
    assert(limbs_value(b) == b[0] as nat + 0x1_0000_0000_0000_0000 * limbs_value(c));
    assert(limbs_value(a) == a[0] as nat + 0x1_0000_0000_0000_0000 * limbs_value(b));
    assert(limbs_value(limbs) == limbs[0] as nat + 0x1_0000_0000_0000_0000 * limbs_value(a));
}

/// A text of digits stands for no less than any of its beginnings.
pub proof fn lemma_digits_value_grows(text: Seq<char>, k: int)
    requires
        all_digits(text),
        0 <= k <= text.len(),
    ensures
        digits_value(text.take(k)) <= digits_value(text),
    decreases text.len() - k,
{
    if k < text.len() {
        let next = text.take(k + 1);
        assert(next.drop_last() =~= text.take(k));
        assert(next.last() == text[k]);
        assert(is_digit(text[k]));
        lemma_digits_value_grows(text, k + 1);
    } else {
        assert(text.take(k) =~= text);
    }
}

/// One step of reading a numeral: ten times the number so far, plus a
/// digit. `None` where the result does not fit in 256 bits.
fn times_ten_plus(limbs: &[u64; 4], digit: u8) -> (r: Option<[u64; 4]>)
    requires
        digit <= 9,
    ensures
        match r {
            Some(next) => limbs_value(next@) == 10 * limbs_value(limbs@) + digit,
            None => 10 * limbs_value(limbs@) + digit >= two_to_256(),
        },
{
    let v0: u128 = limbs[0] as u128 * 10 + digit as u128;
    let c0: u128 = v0 / 0x1_0000_0000_0000_0000;
    let v1: u128 = limbs[1] as u128 * 10 + c0;
    let c1: u128 = v1 / 0x1_0000_0000_0000_0000;
    let v2: u128 = limbs[2] as u128 * 10 + c1;
    let c2: u128 = v2 / 0x1_0000_0000_0000_0000;
    let v3: u128 = limbs[3] as u128 * 10 + c2;
    let c3: u128 = v3 / 0x1_0000_0000_0000_0000;
    let next: [u64; 4] = [
        (v0 % 0x1_0000_0000_0000_0000) as u64,
        (v1 % 0x1_0000_0000_0000_0000) as u64,
        (v2 % 0x1_0000_0000_0000_0000) as u64,
        (v3 % 0x1_0000_0000_0000_0000) as u64,
    ];
    proof {
        lemma_four_limbs_value(limbs@);
        lemma_four_limbs_value(next@);
        let (l0, l1, l2, l3) = (
            limbs@[0] as int,
            limbs@[1] as int,
            limbs@[2] as int,
            limbs@[3] as int,
        );
        let (n0, n1, n2, n3) = (next@[0] as int, next@[1] as int, next@[2] as int, next@[3] as int);
        let (k0, k1, k2, k3) = (c0 as int, c1 as int, c2 as int, c3 as int);
        let b1 = 0x1_0000_0000_0000_0000int;
        let b2 = 0x1_0000_0000_0000_0000_0000_0000_0000_0000int;
        let b3 = 0x1_0000_0000_0000_0000_0000_0000_0000_0000_0000_0000_0000_0000int;
        let b4 = two_to_256() as int;
        assert(10 * l0 + digit == n0 + b1 * k0);
        assert(10 * l1 + k0 == n1 + b1 * k1);
        assert(10 * l2 + k1 == n2 + b1 * k2);
        assert(10 * l3 + k2 == n3 + b1 * k3);
        assert(b2 == b1 * b1 && b3 == b1 * b2 && b4 == b1 * b3);
        assert(10 * (l0 + b1 * l1 + b2 * l2 + b3 * l3) + digit == n0 + b1 * n1 + b2 * n2 + b3 * n3
            + b4 * k3) by (nonlinear_arith)
            requires
                10 * l0 + digit == n0 + b1 * k0,
                10 * l1 + k0 == n1 + b1 * k1,
                10 * l2 + k1 == n2 + b1 * k2,
                10 * l3 + k2 == n3 + b1 * k3,
                b2 == b1 * b1,
                b3 == b1 * b2,
                b4 == b1 * b3,
        ;
    }
    if c3 > 0 {
        None
    } else {
        Some(next)
    }
}

/// Reads a stored 256-bit integer back from its decimal numeral. A text
/// that is not made of digits alone, or whose number does not fit in 256
/// bits, is refused; the text without any digit is read as zero.
pub fn decode_u256(text: &str) -> (r: Option<[u64; 4]>)
    ensures
        match r {
            Some(limbs) => all_digits(text@) && limbs_value(limbs@) == digits_value(text@),
            None => !all_digits(text@) || digits_value(text@) >= two_to_256(),
        },
{
    let chars = chars_of(text);
    let mut limbs: [u64; 4] = [0, 0, 0, 0];
    let mut i: usize = 0;
    proof {
        lemma_four_limbs_value(limbs@);
        assert(chars@.take(0) =~= Seq::<char>::empty());
    }
    while i < chars.len()
        invariant
            i <= chars.len(),
            chars@ == text@,
            all_digits(chars@.take(i as int)),
            limbs_value(limbs@) == digits_value(chars@.take(i as int)),
        decreases chars.len() - i,
    {
        let c = chars[i];
        if !(c >= '0' && c <= '9') {
            assert(!is_digit(chars@[i as int]));
            return None;
        }
        proof {
            let next = chars@.take(i + 1);
            assert(next.drop_last() =~= chars@.take(i as int));
            assert(next.last() == c);
            assert('0' as u8 == 48);
            assert forall|k: int| 0 <= k < next.len() implies is_digit(#[trigger] next[k]) by {
                if k < i {
                    assert(chars@.take(i as int)[k] == next[k]);
                }
            }
        }
        match times_ten_plus(&limbs, c as u8 - 48) {
            Some(next) => {
                limbs = next;
            },
            None => {
                proof {
                    if all_digits(text@) {
                        lemma_digits_value_grows(text@, i + 1);
                    }
                }
                return None;
            },
        }
        i += 1;
    }
    assert(chars@.take(chars.len() as int) =~= chars@);
    Some(limbs)
}

/// A digit's character stands for the digit.
proof fn lemma_digit_char_value(d: nat)
    requires
        d < 10,
    ensures
        is_digit(crate::helpers::digit_char(d)),
        (crate::helpers::digit_char(d) as u8 - '0' as u8) as nat == d,
{
    assert('0' as u8 == 48 && '1' as u8 == 49 && '2' as u8 == 50 && '3' as u8 == 51 && '4' as u8
        == 52);
    assert('5' as u8 == 53 && '6' as u8 == 54 && '7' as u8 == 55 && '8' as u8 == 56 && '9' as u8
        == 57);
}

/// The numeral of a number is made of digits and stands for that number.
pub proof fn lemma_decimal_text_round_trip(n: nat)
    ensures
        all_digits(decimal_text(n)),
        digits_value(decimal_text(n)) == n,
        decimal_text(n).len() >= 1,
    decreases n,
{
    let text = decimal_text(n);
    if n < 10 {
        lemma_digit_char_value(n);
        assert(text.drop_last() =~= Seq::<char>::empty());
        assert(text.last() == crate::helpers::digit_char(n));
        assert(digits_value(text.drop_last()) == 0);
        assert(digits_value(text) == digits_value(text.drop_last()) * 10 + (text.last() as u8
            - '0' as u8) as nat);
    } else {
        lemma_decimal_text_round_trip(n / 10);
        lemma_digit_char_value(n % 10);
        assert(text.drop_last() =~= decimal_text(n / 10));
        assert(text.last() == crate::helpers::digit_char(n % 10));
        assert(digits_value(text) == digits_value(text.drop_last()) * 10 + (text.last() as u8
            - '0' as u8) as nat);
        assert forall|i: int| 0 <= i < text.len() implies is_digit(#[trigger] text[i]) by {
            if i < text.len() - 1 {
                assert(text[i] == decimal_text(n / 10)[i]);
            }
        }
    }
}

/// Four limbs stand for a number below two to the 256.
pub proof fn lemma_four_limbs_fit(limbs: Seq<u64>)
    requires
        limbs.len() == 4,
    ensures
        limbs_value(limbs) < two_to_256(),
{
    lemma_four_limbs_value(limbs);
}

/// Storing a 256-bit integer and reading it back gives the same integer:
/// the bytes written for it are its numeral, no digit short, and the numeral
/// is read as the number it was written from.
pub proof fn lemma_u256_round_trip(limbs: [u64; 4])
    ensures
        EthereumSqlTypeWrapper::U256(limbs).encoded() == Ok::<SqlValueView, EncodingError>(
            raw_text(u256_text(limbs)),
        ),
        all_digits(u256_text(limbs)),
        digits_value(u256_text(limbs)) == limbs_value(limbs@),
        digits_value(u256_text(limbs)) < two_to_256(),
{
    lemma_decimal_text_round_trip(limbs_value(limbs@));
    lemma_four_limbs_fit(limbs@);
}

} // verus!
