//! The type mapping from interface types to column types and value kinds, and
//! the text of every schema and insert statement.

use crate::database::sql_type_wrapper::EthereumSqlTypeKind;
use crate::generator::filters::{
    effective_contract_name, effective_name_spec, mixed_modes_message, uniform_modes,
    ConfigurationError,
};
use crate::generator::{
    column_name_spec, event_views, generate_abi_name_properties, input_views,
    lemma_names_only_never_fails, properties_spec, result_views, ABIInput, ABIInputView,
    EventInfo, EventInfoView, GenerateAbiNamePropertiesResultView, GenerateAbiPropertiesType,
};
use crate::helpers::{
    camel_to_snake, camel_to_snake_spec, decimal_string, decimal_text, ends_with, join,
    join_spec, text_eq, texts, without_last,
};
use crate::manifest::yaml::{
    Contract, ContractDetails, ContractDetailsView, ContractView, Indexer, IndexerView, Manifest,
    ManifestView,
};
use vstd::prelude::*;

verus! {

/// An interface type for which there is no column type and no value kind.
#[derive(Debug, Clone, PartialEq, Eq)]
pub struct UnsupportedType {
    /// The interface type as it was given.
    pub abi_type: String,
}

impl UnsupportedType {
    /// The error as a line of text.
    pub fn message(&self) -> (text: String)
        ensures
            text@ == "Unsupported type "@ + self.abi_type@,
    {
        let mut text = String::from_str("Unsupported type ");
        text.append(self.abi_type.as_str());
        text
    }
}

/// Whether an interface type ends in the array marker `[]`.
pub open spec fn is_array_type(abi_type: Seq<char>) -> bool {
    "[]"@.is_suffix_of(abi_type)
}

/// The interface type without one trailing array marker.
pub open spec fn base_type(abi_type: Seq<char>) -> Seq<char> {
    if is_array_type(abi_type) {
        abi_type.subrange(0, abi_type.len() - "[]"@.len())
    } else {
        abi_type
    }
}

/// The byte string of fixed width `n`: `bytes` and the width.
pub open spec fn fixed_bytes_type(n: nat) -> Seq<char> {
    "bytes"@ + decimal_text(n)
}

/// Whether an interface type is one of the byte-string types: `bytes`, or
/// one of `bytes1` to `bytes32`.
pub open spec fn is_bytes_type(abi_type: Seq<char>) -> bool {
    abi_type == "bytes"@ || exists|n: nat| 1 <= n <= 32 && abi_type == #[trigger] fixed_bytes_type(n)
}

/// The column type of an element type, where there is one.
pub open spec fn base_db_type(base: Seq<char>) -> Option<Seq<char>> {
    if base == "address"@ {
        Some("CHAR(42)"@)
    } else if base == "bool"@ {
        Some("BOOLEAN"@)
    } else if base == "int256"@ || base == "uint256"@ {
        Some("VARCHAR(78)"@)
    } else if base == "int64"@ || base == "uint64"@ || base == "int128"@ || base == "uint128"@ {
        Some("NUMERIC"@)
    } else if base == "int32"@ || base == "uint32"@ {
        Some("INTEGER"@)
    } else if base == "string"@ {
        Some("TEXT"@)
    } else if is_bytes_type(base) {
        Some("BYTEA"@)
    } else if base == "uint8"@ || base == "uint16"@ || base == "int8"@ || base == "int16"@ {
        Some("SMALLINT"@)
    } else {
        None
    }
}

/// The column type of an interface type: that of its element type, with `[]`
/// after it when the interface type is an array. `None` where the element
/// type has no column type.
pub open spec fn db_type_spec(abi_type: Seq<char>) -> Option<Seq<char>> {
    match base_db_type(base_type(abi_type)) {
        Some(column) => Some(
            if is_array_type(abi_type) {
                column + "[]"@
            } else {
                column
            },
        ),
        None => None,
    }
}

fn is_bytes_name(base: &str) -> (r: bool)
    ensures
        r == is_bytes_type(base@),
{
    if text_eq(base, "bytes") {
        return true;
    }
    let mut n: u128 = 1;
    while n <= 32
        invariant
            1 <= n <= 33,
            base@ != "bytes"@,
            forall|k: nat| 1 <= k < n ==> base@ != #[trigger] fixed_bytes_type(k),
        decreases 33 - n,
    {
        let mut name = String::from_str("bytes");
        let width = decimal_string(n);
        name.append(width.as_str());
        if text_eq(base, name.as_str()) {
            assert(base@ == fixed_bytes_type(n as nat));
            return true;
        }
        n += 1;
    }
    false
}

fn base_type_to_db_type(base: &str) -> (r: Option<&'static str>)
    ensures
        match r {
            Some(column) => base_db_type(base@) == Some(column@),
            None => base_db_type(base@) is None,
        },
{
    if text_eq(base, "address") {
        Some("CHAR(42)")
    } else if text_eq(base, "bool") {
        Some("BOOLEAN")
    } else if text_eq(base, "int256") || text_eq(base, "uint256") {
        Some("VARCHAR(78)")
    } else if text_eq(base, "int64") || text_eq(base, "uint64") || text_eq(base, "int128")
        || text_eq(base, "uint128") {
        Some("NUMERIC")
    } else if text_eq(base, "int32") || text_eq(base, "uint32") {
        Some("INTEGER")
    } else if text_eq(base, "string") {
        Some("TEXT")
    } else if is_bytes_name(base) {
        Some("BYTEA")
    } else if text_eq(base, "uint8") || text_eq(base, "uint16") || text_eq(base, "int8")
        || text_eq(base, "int16") {
        Some("SMALLINT")
    } else {
        None
    }
}

/// Splits an interface type into its element type and whether it is an array.
fn split_array_type(abi_type: &str) -> (r: (String, bool))
    ensures
        r.0@ == base_type(abi_type@),
        r.1 == is_array_type(abi_type@),
{
    proof {
        reveal_strlit("[]");
    }
    if ends_with(abi_type, "[]") {
        (without_last(abi_type, 2), true)
    } else {
        (String::from_str(abi_type), false)
    }
}

/// Maps an interface type to the column type that stores it. An interface
/// type outside the supported set is an error: nothing is approximated.
pub fn solidity_type_to_db_type(abi_type: &str) -> (r: Result<String, UnsupportedType>)
    ensures
        match r {
            Ok(column) => db_type_spec(abi_type@) == Some(column@),
            Err(e) => db_type_spec(abi_type@) is None && e.abi_type@ == abi_type@,
        },
{
    let (base, is_array) = split_array_type(abi_type);
    match base_type_to_db_type(base.as_str()) {
        Some(column) => {
            let mut out = String::from_str(column);
            if is_array {
                out.append("[]");
            }
            Ok(out)
        },
        None => Err(UnsupportedType { abi_type: String::from_str(abi_type) }),
    }
}

/// The value kind of a scalar interface type.
pub open spec fn scalar_kind(base: Seq<char>) -> Option<EthereumSqlTypeKind> {
    if base == "string"@ {
        Some(EthereumSqlTypeKind::String)
    } else if base == "address"@ {
        Some(EthereumSqlTypeKind::Address)
    } else if base == "bool"@ {
        Some(EthereumSqlTypeKind::Bool)
    } else if base == "int256"@ || base == "uint256"@ {
        Some(EthereumSqlTypeKind::U256)
    } else if base == "int128"@ || base == "uint128"@ {
        Some(EthereumSqlTypeKind::U128)
    } else if base == "int64"@ || base == "uint64"@ {
        Some(EthereumSqlTypeKind::U64)
    } else if base == "int32"@ || base == "uint32"@ {
        Some(EthereumSqlTypeKind::U32)
    } else if base == "int16"@ || base == "uint16"@ {
        Some(EthereumSqlTypeKind::U16)
    } else if base == "int8"@ || base == "uint8"@ {
        Some(EthereumSqlTypeKind::U8)
    } else if is_bytes_type(base) {
        Some(EthereumSqlTypeKind::Bytes)
    } else {
        None
    }
}

/// The array kind whose elements are of the scalar kind `kind`.
pub open spec fn array_kind_of(kind: EthereumSqlTypeKind) -> EthereumSqlTypeKind {
    match kind {
        EthereumSqlTypeKind::U64 => EthereumSqlTypeKind::VecU64,
        EthereumSqlTypeKind::U128 => EthereumSqlTypeKind::VecU128,
        EthereumSqlTypeKind::U256 => EthereumSqlTypeKind::VecU256,
        EthereumSqlTypeKind::U512 => EthereumSqlTypeKind::VecU512,
        EthereumSqlTypeKind::H128 => EthereumSqlTypeKind::VecH128,
        EthereumSqlTypeKind::H160 => EthereumSqlTypeKind::VecH160,
        EthereumSqlTypeKind::H256 => EthereumSqlTypeKind::VecH256,
        EthereumSqlTypeKind::H512 => EthereumSqlTypeKind::VecH512,
        EthereumSqlTypeKind::Address => EthereumSqlTypeKind::VecAddress,
        EthereumSqlTypeKind::Bool => EthereumSqlTypeKind::VecBool,
        EthereumSqlTypeKind::U32 => EthereumSqlTypeKind::VecU32,
        EthereumSqlTypeKind::U16 => EthereumSqlTypeKind::VecU16,
        EthereumSqlTypeKind::U8 => EthereumSqlTypeKind::VecU8,
        EthereumSqlTypeKind::String => EthereumSqlTypeKind::VecString,
        EthereumSqlTypeKind::Bytes => EthereumSqlTypeKind::VecBytes,
        other => other,
    }
}

/// The value kind of an interface type: that of a scalar name, and the array
/// kind of a scalar name followed by `[]`. `None` for every other type, such
/// as a tuple or an array of arrays.
pub open spec fn sql_type_kind_spec(abi_type: Seq<char>) -> Option<EthereumSqlTypeKind> {
    if scalar_kind(abi_type) is Some {
        scalar_kind(abi_type)
    } else if is_array_type(abi_type) && scalar_kind(base_type(abi_type)) is Some {
        Some(array_kind_of(scalar_kind(base_type(abi_type))->0))
    } else {
        None
    }
}

fn scalar_type_to_kind(base: &str) -> (r: Option<EthereumSqlTypeKind>)
    ensures
        r == scalar_kind(base@),
{
    if text_eq(base, "string") {
        Some(EthereumSqlTypeKind::String)
    } else if text_eq(base, "address") {
        Some(EthereumSqlTypeKind::Address)
    } else if text_eq(base, "bool") {
        Some(EthereumSqlTypeKind::Bool)
    } else if text_eq(base, "int256") || text_eq(base, "uint256") {
        Some(EthereumSqlTypeKind::U256)
    } else if text_eq(base, "int128") || text_eq(base, "uint128") {
        Some(EthereumSqlTypeKind::U128)
    } else if text_eq(base, "int64") || text_eq(base, "uint64") {
        Some(EthereumSqlTypeKind::U64)
    } else if text_eq(base, "int32") || text_eq(base, "uint32") {
        Some(EthereumSqlTypeKind::U32)
    } else if text_eq(base, "int16") || text_eq(base, "uint16") {
        Some(EthereumSqlTypeKind::U16)
    } else if text_eq(base, "int8") || text_eq(base, "uint8") {
        Some(EthereumSqlTypeKind::U8)
    } else if is_bytes_name(base) {
        Some(EthereumSqlTypeKind::Bytes)
    } else {
        None
    }
}

fn array_kind(kind: EthereumSqlTypeKind) -> (r: EthereumSqlTypeKind)
    ensures
        r == array_kind_of(kind),
{
    match kind {
        EthereumSqlTypeKind::U64 => EthereumSqlTypeKind::VecU64,
        EthereumSqlTypeKind::U128 => EthereumSqlTypeKind::VecU128,
        EthereumSqlTypeKind::U256 => EthereumSqlTypeKind::VecU256,
        EthereumSqlTypeKind::U512 => EthereumSqlTypeKind::VecU512,
        EthereumSqlTypeKind::H128 => EthereumSqlTypeKind::VecH128,
        EthereumSqlTypeKind::H160 => EthereumSqlTypeKind::VecH160,
        EthereumSqlTypeKind::H256 => EthereumSqlTypeKind::VecH256,
        EthereumSqlTypeKind::H512 => EthereumSqlTypeKind::VecH512,
        EthereumSqlTypeKind::Address => EthereumSqlTypeKind::VecAddress,
        EthereumSqlTypeKind::Bool => EthereumSqlTypeKind::VecBool,
        EthereumSqlTypeKind::U32 => EthereumSqlTypeKind::VecU32,
        EthereumSqlTypeKind::U16 => EthereumSqlTypeKind::VecU16,
        EthereumSqlTypeKind::U8 => EthereumSqlTypeKind::VecU8,
        EthereumSqlTypeKind::String => EthereumSqlTypeKind::VecString,
        EthereumSqlTypeKind::Bytes => EthereumSqlTypeKind::VecBytes,
        other => other,
    }
}

/// Maps an interface type to the kind of value that a decoded field of that
/// type is wrapped in, or to `None` where the type is not handled; the caller
/// decides what follows from that.
pub fn solidity_type_to_ethereum_sql_type_wrapper(abi_type: &str) -> (r: Option<
    EthereumSqlTypeKind,
>)
    ensures
        r == sql_type_kind_spec(abi_type@),
{
    let scalar = scalar_type_to_kind(abi_type);
    if scalar.is_some() {
        return scalar;
    }
    let (base, is_array) = split_array_type(abi_type);
    if is_array {
        match scalar_type_to_kind(base.as_str()) {
            Some(kind) => Some(array_kind(kind)),
            None => None,
        }
    } else {
        None
    }
}


/// The column type that stores values of a kind, for the kinds that the type
/// mapping selects.
pub open spec fn kind_db_type(kind: EthereumSqlTypeKind) -> Option<Seq<char>> {
    match kind {
        EthereumSqlTypeKind::String => Some("TEXT"@),
        EthereumSqlTypeKind::VecString => Some("TEXT"@ + "[]"@),
        EthereumSqlTypeKind::Address => Some("CHAR(42)"@),
        EthereumSqlTypeKind::VecAddress => Some("CHAR(42)"@ + "[]"@),
        EthereumSqlTypeKind::Bool => Some("BOOLEAN"@),
        EthereumSqlTypeKind::VecBool => Some("BOOLEAN"@ + "[]"@),
        EthereumSqlTypeKind::U256 => Some("VARCHAR(78)"@),
        EthereumSqlTypeKind::VecU256 => Some("VARCHAR(78)"@ + "[]"@),
        EthereumSqlTypeKind::U128 | EthereumSqlTypeKind::U64 => Some("NUMERIC"@),
        EthereumSqlTypeKind::VecU128 | EthereumSqlTypeKind::VecU64 => Some("NUMERIC"@ + "[]"@),
        EthereumSqlTypeKind::U32 => Some("INTEGER"@),
        EthereumSqlTypeKind::VecU32 => Some("INTEGER"@ + "[]"@),
        EthereumSqlTypeKind::U16 | EthereumSqlTypeKind::U8 => Some("SMALLINT"@),
        EthereumSqlTypeKind::VecU16 | EthereumSqlTypeKind::VecU8 => Some("SMALLINT"@ + "[]"@),
        EthereumSqlTypeKind::Bytes => Some("BYTEA"@),
        EthereumSqlTypeKind::VecBytes => Some("BYTEA"@ + "[]"@),
        _ => None,
    }
}

proof fn reveal_type_names()
    ensures
        "[]"@ == seq!['[', ']'],
        "bytes"@ == seq!['b', 'y', 't', 'e', 's'],
        "address"@ == seq!['a', 'd', 'd', 'r', 'e', 's', 's'],
        "bool"@ == seq!['b', 'o', 'o', 'l'],
        "string"@ == seq!['s', 't', 'r', 'i', 'n', 'g'],
        "int256"@ == seq!['i', 'n', 't', '2', '5', '6'],
        "uint256"@ == seq!['u', 'i', 'n', 't', '2', '5', '6'],
        "int128"@ == seq!['i', 'n', 't', '1', '2', '8'],
        "uint128"@ == seq!['u', 'i', 'n', 't', '1', '2', '8'],
        "int64"@ == seq!['i', 'n', 't', '6', '4'],
        "uint64"@ == seq!['u', 'i', 'n', 't', '6', '4'],
        "int32"@ == seq!['i', 'n', 't', '3', '2'],
        "uint32"@ == seq!['u', 'i', 'n', 't', '3', '2'],
        "int16"@ == seq!['i', 'n', 't', '1', '6'],
        "uint16"@ == seq!['u', 'i', 'n', 't', '1', '6'],
        "int8"@ == seq!['i', 'n', 't', '8'],
        "uint8"@ == seq!['u', 'i', 'n', 't', '8'],
{
    reveal_strlit("[]");
    reveal_strlit("bytes");
    reveal_strlit("address");
    reveal_strlit("bool");
    reveal_strlit("string");
    reveal_strlit("int256");
    reveal_strlit("uint256");
    reveal_strlit("int128");
    reveal_strlit("uint128");
    reveal_strlit("int64");
    reveal_strlit("uint64");
    reveal_strlit("int32");
    reveal_strlit("uint32");
    reveal_strlit("int16");
    reveal_strlit("uint16");
    reveal_strlit("int8");
    reveal_strlit("uint8");
    assert("[]"@ =~= seq!['[', ']']);
    assert("bytes"@ =~= seq!['b', 'y', 't', 'e', 's']);
    assert("address"@ =~= seq!['a', 'd', 'd', 'r', 'e', 's', 's']);
    assert("bool"@ =~= seq!['b', 'o', 'o', 'l']);
    assert("string"@ =~= seq!['s', 't', 'r', 'i', 'n', 'g']);
    assert("int256"@ =~= seq!['i', 'n', 't', '2', '5', '6']);
    assert("uint256"@ =~= seq!['u', 'i', 'n', 't', '2', '5', '6']);
    assert("int128"@ =~= seq!['i', 'n', 't', '1', '2', '8']);
    assert("uint128"@ =~= seq!['u', 'i', 'n', 't', '1', '2', '8']);
    assert("int64"@ =~= seq!['i', 'n', 't', '6', '4']);
    assert("uint64"@ =~= seq!['u', 'i', 'n', 't', '6', '4']);
    assert("int32"@ =~= seq!['i', 'n', 't', '3', '2']);
    assert("uint32"@ =~= seq!['u', 'i', 'n', 't', '3', '2']);
    assert("int16"@ =~= seq!['i', 'n', 't', '1', '6']);
    assert("uint16"@ =~= seq!['u', 'i', 'n', 't', '1', '6']);
    assert("int8"@ =~= seq!['i', 'n', 't', '8']);
    assert("uint8"@ =~= seq!['u', 'i', 'n', 't', '8']);
}

/// The numeral of a number ends in a digit.
proof fn lemma_decimal_text_ends_in_digit(n: nat)
    ensures
        decimal_text(n).len() >= 1,
        decimal_text(n).last() != ']',
{
}

/// A byte-string type begins with `by` and is no array type.
proof fn lemma_bytes_types_are_plain(abi_type: Seq<char>)
    requires
        is_bytes_type(abi_type),
    ensures
        abi_type.len() >= 5,
        abi_type[0] == 'b',
        abi_type[1] == 'y',
        !is_array_type(abi_type),
{
    reveal_type_names();
    let n = abi_type.len() as int;
    if abi_type != "bytes"@ {
        let width = choose|k: nat| 1 <= k <= 32 && abi_type == #[trigger] fixed_bytes_type(k);
        lemma_decimal_text_ends_in_digit(width);
        assert(abi_type[0] == "bytes"@[0]);
        assert(abi_type[1] == "bytes"@[1]);
        assert(abi_type.last() == decimal_text(width).last());
    }
    if is_array_type(abi_type) {
        assert(abi_type.subrange(n - 2, n)[1] == ']');
    }
}

/// A scalar name is no array type and has a column type, and a name that has
/// a column type without being an array is a scalar name.
proof fn lemma_scalar_names_are_plain(abi_type: Seq<char>)
    ensures
        scalar_kind(abi_type) is Some ==> !is_array_type(abi_type),
        scalar_kind(abi_type) is Some <==> base_db_type(abi_type) is Some,
        scalar_kind(abi_type) matches Some(kind) ==> base_db_type(abi_type) == kind_db_type(kind)
            && Some(base_db_type(abi_type)->0 + "[]"@) == kind_db_type(array_kind_of(kind)),
{
    reveal_type_names();
    let n = abi_type.len() as int;
    if is_bytes_type(abi_type) {
        lemma_bytes_types_are_plain(abi_type);
    } else if is_array_type(abi_type) {
        assert(abi_type.subrange(n - 2, n)[1] == ']');
    }
}

/// The two type mappings support the same interface types: a type has a
/// column type exactly when it has a value kind.
pub proof fn lemma_mappings_cover_same_types(abi_type: Seq<char>)
    ensures
        db_type_spec(abi_type) is Some <==> sql_type_kind_spec(abi_type) is Some,
{
    lemma_scalar_names_are_plain(abi_type);
    lemma_scalar_names_are_plain(base_type(abi_type));
}

/// The two type mappings agree: where a type has a value kind, its column
/// type is the one that stores that kind.
pub proof fn lemma_column_type_stores_kind(abi_type: Seq<char>)
    requires
        sql_type_kind_spec(abi_type) is Some,
    ensures
        db_type_spec(abi_type) == kind_db_type(sql_type_kind_spec(abi_type)->0),
{
    lemma_scalar_names_are_plain(abi_type);
    lemma_scalar_names_are_plain(base_type(abi_type));
}

/// The generated texts of a sequence of results.
pub open spec fn values_of(results: Seq<GenerateAbiNamePropertiesResultView>) -> Seq<Seq<char>> {
    Seq::new(results.len(), |i: int| results[i].value)
}

/// The column definitions of the inputs, each a quoted name and a column
/// type, or the first interface type that has no column type.
pub open spec fn columns_with_data_types_spec(inputs: Seq<ABIInputView>) -> Result<
    Seq<Seq<char>>,
    Seq<char>,
> {
    match properties_spec(inputs, GenerateAbiPropertiesType::PostgresWithDataTypes, None) {
        Ok(results) => Ok(values_of(results)),
        Err(abi_type) => Err(abi_type),
    }
}

/// The quoted column names of the inputs, in their order.
pub open spec fn column_names_spec(inputs: Seq<ABIInputView>) -> Seq<Seq<char>> {
    Seq::new(inputs.len(), |i: int| column_name_spec(None, inputs[i].name))
}

proof fn lemma_names_only_values(inputs: Seq<ABIInputView>)
    ensures
        properties_spec(inputs, GenerateAbiPropertiesType::PostgresColumnsNamesOnly, None) is Ok,
        values_of(
            properties_spec(
                inputs,
                GenerateAbiPropertiesType::PostgresColumnsNamesOnly,
                None,
            )->Ok_0,
        ) == column_names_spec(inputs),
    decreases inputs.len(),
{
    lemma_names_only_never_fails(inputs, None);
    if inputs.len() > 0 {
        lemma_names_only_never_fails(inputs.drop_last(), None);
        lemma_names_only_values(inputs.drop_last());
        let results = properties_spec(
            inputs,
            GenerateAbiPropertiesType::PostgresColumnsNamesOnly,
            None,
        )->Ok_0;
        let before = properties_spec(
            inputs.drop_last(),
            GenerateAbiPropertiesType::PostgresColumnsNamesOnly,
            None,
        )->Ok_0;
        assert forall|i: int| 0 <= i < inputs.len() implies values_of(results)[i]
            == column_names_spec(inputs)[i] by {
            if i < inputs.len() - 1 {
                assert(values_of(before)[i] == column_names_spec(inputs.drop_last())[i]);
            }
        }
        assert(values_of(results) =~= column_names_spec(inputs));
    } else {
        assert(values_of(Seq::<GenerateAbiNamePropertiesResultView>::empty())
            =~= column_names_spec(inputs));
    }
}

/// The generated text of each input, in order.
fn generate_columns(inputs: &[ABIInput], property_type: &GenerateAbiPropertiesType) -> (r:
    Result<Vec<String>, UnsupportedType>)
    ensures
        match r {
            Ok(columns) => {
                &&& properties_spec(input_views(inputs@), *property_type, None) is Ok
                &&& texts(columns@) == values_of(
                    properties_spec(input_views(inputs@), *property_type, None)->Ok_0,
                )
            },
            Err(e) => properties_spec(input_views(inputs@), *property_type, None) == Err::<
                Seq<GenerateAbiNamePropertiesResultView>,
                Seq<char>,
            >(e.abi_type@),
        },
{
    match generate_abi_name_properties(inputs, property_type, None) {
        Ok(results) => {
            let mut columns: Vec<String> = Vec::new();
            let mut i: usize = 0;
            while i < results.len()
                invariant
                    i <= results.len(),
                    columns.len() == i,
                    forall|k: int| 0 <= k < i ==> columns@[k]@ == results@[k].value@,
                decreases results.len() - i,
            {
                columns.push(results[i].value.clone());
                i += 1;
            }
            assert(texts(columns@) =~= values_of(result_views(results@)));
            Ok(columns)
        },
        Err(e) => Err(e),
    }
}

/// The column definitions of the inputs: for each, its quoted name and its
/// column type. Fails on the first input whose type has no column type.
pub fn generate_columns_with_data_types(inputs: &[ABIInput]) -> (r: Result<
    Vec<String>,
    UnsupportedType,
>)
    ensures
        match r {
            Ok(columns) => columns_with_data_types_spec(input_views(inputs@)) == Ok::<
                Seq<Seq<char>>,
                Seq<char>,
            >(texts(columns@)),
            Err(e) => columns_with_data_types_spec(input_views(inputs@)) == Err::<
                Seq<Seq<char>>,
                Seq<char>,
            >(e.abi_type@),
        },
{
    generate_columns(inputs, &GenerateAbiPropertiesType::PostgresWithDataTypes)
}

/// The quoted column names of the inputs, in their order.
pub fn generate_columns_names_only(inputs: &[ABIInput]) -> (columns: Vec<String>)
    ensures
        texts(columns@) == column_names_spec(input_views(inputs@)),
{
    proof {
        lemma_names_only_values(input_views(inputs@));
    }
    match generate_columns(inputs, &GenerateAbiPropertiesType::PostgresColumnsNamesOnly) {
        Ok(columns) => columns,
        Err(_) => Vec::new(),
    }
}

/// The name of the schema that holds a contract's tables.
pub open spec fn schema_name_spec(indexer_name: Seq<char>, contract_name: Seq<char>) -> Seq<char> {
    camel_to_snake_spec(indexer_name) + seq!['_'] + camel_to_snake_spec(contract_name)
}

/// Generates the schema name for the given indexer and contract.
pub fn indexer_contract_schema_name(indexer_name: &str, contract_name: &str) -> (r: String)
    ensures
        r@ == schema_name_spec(indexer_name@, contract_name@),
{
    proof {
        reveal_strlit("_");
    }
    let mut out = camel_to_snake(indexer_name);
    out.append("_");
    let contract = camel_to_snake(contract_name);
    out.append(contract.as_str());
    assert(out@ =~= schema_name_spec(indexer_name@, contract_name@));
    out
}

/// The name of an event's table: the schema's name, a dot, and the
/// snake-case form of the event's name. The statement that creates the table
/// and the statement that inserts into it both take the name from here.
pub open spec fn event_table_name_spec(schema_name: Seq<char>, event_name: Seq<char>) -> Seq<
    char,
> {
    schema_name + "."@ + camel_to_snake_spec(event_name)
}

/// The column definitions of an event's table: the row's number and the
/// contract's address, then the event's own columns, then the transaction
/// hash, the block number and the block hash.
pub open spec fn table_columns_spec(columns: Seq<Seq<char>>) -> Seq<Seq<char>> {
    seq!["rindexer_id SERIAL PRIMARY KEY"@, "contract_address CHAR(66)"@] + columns + seq![
        "tx_hash CHAR(66)"@,
        "block_number NUMERIC"@,
        "block_hash CHAR(66)"@,
    ]
}

/// The columns that an insert statement names: the contract's address, then
/// the event's own columns, then the transaction hash, the block number and
/// the block hash.
pub open spec fn insert_columns_spec(columns: Seq<Seq<char>>) -> Seq<Seq<char>> {
    seq!["contract_address"@] + columns + seq![
        "\"tx_hash\""@,
        "\"block_number\""@,
        "\"block_hash\""@,
    ]
}

/// The statement that creates an event's table, given its column definitions.
pub open spec fn event_table_statement_spec(
    schema_name: Seq<char>,
    event_name: Seq<char>,
    columns: Seq<Seq<char>>,
) -> Seq<char> {
    "CREATE TABLE IF NOT EXISTS "@ + event_table_name_spec(schema_name, event_name) + " ("@
        + join_spec(table_columns_spec(columns), ", "@) + ");"@
}

/// The statement that creates an event's table, or the first interface type
/// among its inputs that has no column type.
pub open spec fn event_table_spec(schema_name: Seq<char>, event: EventInfoView) -> Result<
    Seq<char>,
    Seq<char>,
> {
    match columns_with_data_types_spec(event.inputs) {
        Ok(columns) => Ok(event_table_statement_spec(schema_name, event.name, columns)),
        Err(abi_type) => Err(abi_type),
    }
}

/// The statements that create the events' tables, one per event in order, or
/// the first interface type in that order that has no column type.
pub open spec fn event_tables_spec(events: Seq<EventInfoView>, schema_name: Seq<char>) -> Result<
    Seq<Seq<char>>,
    Seq<char>,
>
    decreases events.len(),
{
    if events.len() == 0 {
        Ok(Seq::empty())
    } else {
        match event_tables_spec(events.drop_last(), schema_name) {
            Err(abi_type) => Err(abi_type),
            Ok(statements) => match event_table_spec(schema_name, events.last()) {
                Err(abi_type) => Err(abi_type),
                Ok(statement) => Ok(statements.push(statement)),
            },
        }
    }
}

/// The text that creates the events' tables: the statements, one per line.
pub open spec fn event_table_sql_spec(events: Seq<EventInfoView>, schema_name: Seq<char>) -> Result<
    Seq<char>,
    Seq<char>,
> {
    match event_tables_spec(events, schema_name) {
        Ok(statements) => Ok(join_spec(statements, "\n"@)),
        Err(abi_type) => Err(abi_type),
    }
}

proof fn lemma_event_tables_error_stays(events: Seq<EventInfoView>, schema_name: Seq<char>, k: int)
    requires
        0 <= k <= events.len(),
        event_tables_spec(events.take(k), schema_name) is Err,
    ensures
        event_tables_spec(events, schema_name) == event_tables_spec(events.take(k), schema_name),
    decreases events.len() - k,
{
    if k < events.len() {
        assert(events.take(k + 1).drop_last() =~= events.take(k));
        lemma_event_tables_error_stays(events, schema_name, k + 1);
    } else {
        assert(events.take(k) =~= events);
    }
}

fn event_table_statement(event: &EventInfo, schema_name: &str) -> (r: Result<
    String,
    UnsupportedType,
>)
    ensures
        match r {
            Ok(statement) => event_table_spec(schema_name@, event@) == Ok::<Seq<char>, Seq<char>>(
                statement@,
            ),
            Err(e) => event_table_spec(schema_name@, event@) == Err::<Seq<char>, Seq<char>>(
                e.abi_type@,
            ),
        },
{
    match generate_columns_with_data_types(&event.inputs) {
        Ok(columns) => {
            let mut out = String::from_str("CREATE TABLE IF NOT EXISTS ");
            out.append(schema_name);
            out.append(".");
            let table = camel_to_snake(event.name.as_str());
            out.append(table.as_str());
            out.append(" (");
            let mut all: Vec<String> = Vec::new();
            all.push(String::from_str("rindexer_id SERIAL PRIMARY KEY"));
            all.push(String::from_str("contract_address CHAR(66)"));
            let ghost head = all@;
            let mut i: usize = 0;
            while i < columns.len()
                invariant
                    i <= columns.len(),
                    all@ == head + columns@.take(i as int),
                decreases columns.len() - i,
            {
                all.push(columns[i].clone());
                assert(all@ =~= head + columns@.take(i + 1));
                i += 1;
            }
            all.push(String::from_str("tx_hash CHAR(66)"));
            all.push(String::from_str("block_number NUMERIC"));
            all.push(String::from_str("block_hash CHAR(66)"));
            assert(columns@.take(columns.len() as int) =~= columns@);
            assert(texts(all@) =~= table_columns_spec(texts(columns@)));
            let joined = join(&all, ", ");
            out.append(joined.as_str());
            out.append(");");
            assert(out@ =~= event_table_statement_spec(schema_name@, event.name@, texts(columns@)));
            Ok(out)
        },
        Err(e) => Err(e),
    }
}

/// Generates the statements that create the tables of the given events, one
/// per line. Fails on the first input whose type has no column type.
pub fn generate_event_table_sql(abi_inputs: &[EventInfo], schema_name: &str) -> (r: Result<
    String,
    UnsupportedType,
>)
    ensures
        match r {
            Ok(sql) => event_table_sql_spec(event_views(abi_inputs@), schema_name@) == Ok::<
                Seq<char>,
                Seq<char>,
            >(sql@),
            Err(e) => event_table_sql_spec(event_views(abi_inputs@), schema_name@) == Err::<
                Seq<char>,
                Seq<char>,
            >(e.abi_type@),
        },
{
    let ghost all = event_views(abi_inputs@);
    let mut statements: Vec<String> = Vec::new();
    let mut i: usize = 0;
    assert(texts(statements@) =~= Seq::empty());
    while i < abi_inputs.len()
        invariant
            i <= abi_inputs.len(),
            all == event_views(abi_inputs@),
            statements.len() == i,
            event_tables_spec(all.take(i as int), schema_name@) == Ok::<Seq<Seq<char>>, Seq<char>>(
                texts(statements@),
            ),
        decreases abi_inputs.len() - i,
    {
        proof {
            assert(all.take(i + 1).drop_last() =~= all.take(i as int));
            assert(all.take(i + 1).last() == abi_inputs@[i as int]@);
        }
        let ghost before = texts(statements@);
        match event_table_statement(&abi_inputs[i], schema_name) {
            Ok(statement) => {
                statements.push(statement);
                assert(texts(statements@) =~= before.push(statement@));
            },
            Err(e) => {
                proof {
                    lemma_event_tables_error_stays(all, schema_name@, i + 1);
                }
                return Err(e);
            },
        }
        i += 1;
    }
    assert(all.take(abi_inputs.len() as int) =~= all);
    Ok(join(&statements, "\n"))
}

/// The name of the table that holds an event's checkpoints.
pub open spec fn internal_table_name_spec(schema_name: Seq<char>, event_name: Seq<char>) -> Seq<
    char,
> {
    "rindexer_internal."@ + schema_name + "_"@ + camel_to_snake_spec(event_name)
}

/// The statement that creates a checkpoint table.
pub open spec fn checkpoint_table_statement_spec(table_name: Seq<char>) -> Seq<char> {
    "CREATE TABLE IF NOT EXISTS "@ + table_name
        + " (\"network\" TEXT PRIMARY KEY, \"last_synced_block\" NUMERIC);"@
}

/// The statement that seeds a network's checkpoint with block zero unless the
/// network has a checkpoint already.
pub open spec fn seed_statement_spec(table_name: Seq<char>, network: Seq<char>) -> Seq<char> {
    "INSERT INTO "@ + table_name + " (\"network\", \"last_synced_block\") VALUES ('"@ + network
        + "', 0) ON CONFLICT (\"network\") DO NOTHING;"@
}

/// The seed statements of a checkpoint table, one per network in order.
pub open spec fn seed_statements_spec(table_name: Seq<char>, networks: Seq<Seq<char>>) -> Seq<
    Seq<char>,
> {
    Seq::new(networks.len(), |i: int| seed_statement_spec(table_name, networks[i]))
}

/// What is generated for one event's checkpoints: the statement that creates
/// the table and, on the lines after it, the seed statements.
pub open spec fn internal_event_spec(
    event_name: Seq<char>,
    schema_name: Seq<char>,
    networks: Seq<Seq<char>>,
) -> Seq<char> {
    let table_name = internal_table_name_spec(schema_name, event_name);
    checkpoint_table_statement_spec(table_name) + "\n"@ + join_spec(
        seed_statements_spec(table_name, networks),
        "\n"@,
    )
}

/// What is generated for the checkpoints of each event, in order.
pub open spec fn internal_events_spec(
    events: Seq<EventInfoView>,
    schema_name: Seq<char>,
    networks: Seq<Seq<char>>,
) -> Seq<Seq<char>> {
    Seq::new(events.len(), |i: int| internal_event_spec(events[i].name, schema_name, networks))
}

/// The text that creates and seeds the checkpoint tables of the events.
pub open spec fn internal_event_table_sql_spec(
    events: Seq<EventInfoView>,
    schema_name: Seq<char>,
    networks: Seq<Seq<char>>,
) -> Seq<char> {
    join_spec(internal_events_spec(events, schema_name, networks), "\n"@)
}

fn internal_event_sql(event: &EventInfo, schema_name: &str, networks: &Vec<String>) -> (r: String)
    ensures
        r@ == internal_event_spec(event.name@, schema_name@, texts(networks@)),
{
    let mut table_name = String::from_str("rindexer_internal.");
    table_name.append(schema_name);
    table_name.append("_");
    let event_name = camel_to_snake(event.name.as_str());
    table_name.append(event_name.as_str());
    assert(table_name@ =~= internal_table_name_spec(schema_name@, event.name@));

    let mut seeds: Vec<String> = Vec::new();
    let mut i: usize = 0;
    while i < networks.len()
        invariant
            i <= networks.len(),
            seeds.len() == i,
            forall|k: int|
                0 <= k < i ==> seeds@[k]@ == seed_statement_spec(table_name@, networks@[k]@),
        decreases networks.len() - i,
    {
        let mut seed = String::from_str("INSERT INTO ");
        seed.append(table_name.as_str());
        seed.append(" (\"network\", \"last_synced_block\") VALUES ('");
        seed.append(networks[i].as_str());
        seed.append("', 0) ON CONFLICT (\"network\") DO NOTHING;");
        assert(seed@ =~= seed_statement_spec(table_name@, networks@[i as int]@));
        seeds.push(seed);
        i += 1;
    }
    assert(texts(seeds@) =~= seed_statements_spec(table_name@, texts(networks@)));

    let mut out = String::from_str("CREATE TABLE IF NOT EXISTS ");
    out.append(table_name.as_str());
    out.append(" (\"network\" TEXT PRIMARY KEY, \"last_synced_block\" NUMERIC);");
    out.append("\n");
    let joined = join(&seeds, "\n");
    out.append(joined.as_str());
    assert(out@ =~= internal_event_spec(event.name@, schema_name@, texts(networks@)));
    out
}

/// Generates the statements that create the checkpoint table of each event
/// and seed it with block zero for each network.
pub fn generate_internal_event_table_sql(
    abi_inputs: &[EventInfo],
    schema_name: &str,
    networks: Vec<String>,
) -> (r: String)
    ensures
        r@ == internal_event_table_sql_spec(
            event_views(abi_inputs@),
            schema_name@,
            texts(networks@),
        ),
{
    let mut parts: Vec<String> = Vec::new();
    let mut i: usize = 0;
    while i < abi_inputs.len()
        invariant
            i <= abi_inputs.len(),
            parts.len() == i,
            forall|k: int|
                0 <= k < i ==> parts@[k]@ == internal_event_spec(
                    abi_inputs@[k].name@,
                    schema_name@,
                    texts(networks@),
                ),
        decreases abi_inputs.len() - i,
    {
        parts.push(internal_event_sql(&abi_inputs[i], schema_name, &networks));
        i += 1;
    }
    assert(texts(parts@) =~= internal_events_spec(
        event_views(abi_inputs@),
        schema_name@,
        texts(networks@),
    ));
    join(&parts, "\n")
}


/// Why no schema text could be generated.
#[derive(Debug, Clone, PartialEq, Eq)]
pub enum SchemaError {
    /// An input of an event has a type without a column type.
    UnsupportedType(UnsupportedType),
    /// A contract's bindings mix discovery modes.
    Configuration(ConfigurationError),
    /// No events were loaded for the named contract: its interface could not
    /// be read, or its entry is missing.
    EventsNotLoaded(String),
}

/// The mathematical content of a [`SchemaError`].
pub enum SchemaErrorView {
    /// The interface type that has no column type.
    UnsupportedType(Seq<char>),
    /// The name of the contract whose bindings mix discovery modes.
    MixedDiscoveryModes(Seq<char>),
    /// The name of the contract for which no events were loaded.
    EventsNotLoaded(Seq<char>),
}

impl View for SchemaError {
    type V = SchemaErrorView;

    open spec fn view(&self) -> SchemaErrorView {
        match self {
            SchemaError::UnsupportedType(e) => SchemaErrorView::UnsupportedType(e.abi_type@),
            SchemaError::Configuration(ConfigurationError::MixedDiscoveryModes(name)) => {
                SchemaErrorView::MixedDiscoveryModes(name@)
            },
            SchemaError::EventsNotLoaded(name) => SchemaErrorView::EventsNotLoaded(name@),
        }
    }
}

impl SchemaErrorView {
    /// The error as a line of text.
    pub open spec fn message(self) -> Seq<char> {
        match self {
            SchemaErrorView::UnsupportedType(abi_type) => "Unsupported type "@ + abi_type,
            SchemaErrorView::MixedDiscoveryModes(_) => mixed_modes_message(),
            SchemaErrorView::EventsNotLoaded(name) => "No events were loaded for contract "@
                + name,
        }
    }
}

impl SchemaError {
    /// The error as a line of text.
    pub fn message(&self) -> (text: String)
        ensures
            text@ == self@.message(),
    {
        match self {
            SchemaError::UnsupportedType(e) => e.message(),
            SchemaError::Configuration(e) => e.message(),
            SchemaError::EventsNotLoaded(name) => {
                let mut text = String::from_str("No events were loaded for contract ");
                text.append(name.as_str());
                text
            },
        }
    }
}

/// The networks of a contract's bindings, in order.
pub open spec fn network_names_spec(details: Seq<ContractDetailsView>) -> Seq<Seq<char>> {
    Seq::new(details.len(), |i: int| details[i].network)
}

/// The views of the events that were loaded for the contracts of one
/// indexer: for each contract its events, or `None` where they could not be
/// loaded.
pub open spec fn loaded_events(abi_events: Seq<Option<Vec<EventInfo>>>) -> Seq<
    Option<Seq<EventInfoView>>,
> {
    abi_events.map_values(
        |entry: Option<Vec<EventInfo>>|
            match entry {
                Some(events) => Some(event_views(events@)),
                None => None,
            },
    )
}

/// The events that were loaded for the contract at position `i`, if any were.
pub open spec fn events_entry(abi_events: Seq<Option<Seq<EventInfoView>>>, i: int) -> Option<
    Seq<EventInfoView>,
> {
    if 0 <= i < abi_events.len() {
        abi_events[i]
    } else {
        None
    }
}

/// The name of the schema that holds the checkpoint tables.
pub open spec fn internal_schema_name() -> Seq<char> {
    "rindexer_internal"@
}

/// The statement that creates a schema unless it exists.
pub open spec fn schema_statement_spec(schema_name: Seq<char>) -> Seq<char> {
    "CREATE SCHEMA IF NOT EXISTS "@ + schema_name + ";"@
}

/// What is generated for one event of a contract: the statement that
/// creates its table, followed by the statement that creates its checkpoint
/// table and, on the lines after it, the seed of each network. The first
/// interface type among the inputs that has no column type is the error.
pub open spec fn event_sql_spec(
    schema_name: Seq<char>,
    event: EventInfoView,
    networks: Seq<Seq<char>>,
) -> Result<Seq<char>, Seq<char>> {
    match event_table_spec(schema_name, event) {
        Ok(table) => Ok(table + internal_event_spec(event.name, schema_name, networks)),
        Err(abi_type) => Err(abi_type),
    }
}

/// What is generated for each event of a contract, in order, or the first
/// interface type in that order that has no column type.
pub open spec fn events_sql_spec(
    events: Seq<EventInfoView>,
    schema_name: Seq<char>,
    networks: Seq<Seq<char>>,
) -> Result<Seq<Seq<char>>, Seq<char>>
    decreases events.len(),
{
    if events.len() == 0 {
        Ok(Seq::empty())
    } else {
        match events_sql_spec(events.drop_last(), schema_name, networks) {
            Err(abi_type) => Err(abi_type),
            Ok(parts) => match event_sql_spec(schema_name, events.last(), networks) {
                Err(abi_type) => Err(abi_type),
                Ok(part) => Ok(parts.push(part)),
            },
        }
    }
}

proof fn lemma_events_sql_error_stays(
    events: Seq<EventInfoView>,
    schema_name: Seq<char>,
    networks: Seq<Seq<char>>,
    k: int,
)
    requires
        0 <= k <= events.len(),
        events_sql_spec(events.take(k), schema_name, networks) is Err,
    ensures
        events_sql_spec(events, schema_name, networks) == events_sql_spec(
            events.take(k),
            schema_name,
            networks,
        ),
    decreases events.len() - k,
{
    if k < events.len() {
        assert(events.take(k + 1).drop_last() =~= events.take(k));
        lemma_events_sql_error_stays(events, schema_name, networks, k + 1);
    } else {
        assert(events.take(k) =~= events);
    }
}

/// What is generated for one contract: the statement that creates its
/// schema and then, event by event and one event per line, the event's table
/// followed by its checkpoint table and seeds. A contract whose bindings mix
/// discovery modes is an error, and so is one for which no events were
/// loaded: no contract is left out of the text.
pub open spec fn contract_tables_spec(
    indexer_name: Seq<char>,
    contract: ContractView,
    events: Option<Seq<EventInfoView>>,
) -> Result<Seq<char>, SchemaErrorView> {
    if !uniform_modes(contract.details) {
        Err(SchemaErrorView::MixedDiscoveryModes(contract.name))
    } else {
        match events {
            None => Err(SchemaErrorView::EventsNotLoaded(contract.name)),
            Some(events) => {
                let schema_name = schema_name_spec(indexer_name, effective_name_spec(contract));
                match events_sql_spec(events, schema_name, network_names_spec(contract.details)) {
                    Err(abi_type) => Err(SchemaErrorView::UnsupportedType(abi_type)),
                    Ok(parts) => Ok(schema_statement_spec(schema_name) + join_spec(parts, "\n"@)),
                }
            },
        }
    }
}

/// The whole schema text of the first contracts of an indexer: the statement
/// that creates the internal schema, then what each contract adds, in order;
/// or the first error in that order.
pub open spec fn create_tables_spec(
    indexer_name: Seq<char>,
    contracts: Seq<ContractView>,
    abi_events: Seq<Option<Seq<EventInfoView>>>,
) -> Result<Seq<char>, SchemaErrorView>
    decreases contracts.len(),
{
    if contracts.len() == 0 {
        Ok(schema_statement_spec(internal_schema_name()))
    } else {
        match create_tables_spec(indexer_name, contracts.drop_last(), abi_events) {
            Err(e) => Err(e),
            Ok(sql) => match contract_tables_spec(
                indexer_name,
                contracts.last(),
                events_entry(abi_events, contracts.len() - 1),
            ) {
                Err(e) => Err(e),
                Ok(part) => Ok(sql + part),
            },
        }
    }
}

proof fn lemma_create_tables_error_stays(
    indexer_name: Seq<char>,
    contracts: Seq<ContractView>,
    abi_events: Seq<Option<Seq<EventInfoView>>>,
    k: int,
)
    requires
        0 <= k <= contracts.len(),
        create_tables_spec(indexer_name, contracts.take(k), abi_events) is Err,
    ensures
        create_tables_spec(indexer_name, contracts, abi_events) == create_tables_spec(
            indexer_name,
            contracts.take(k),
            abi_events,
        ),
    decreases contracts.len() - k,
{
    if k < contracts.len() {
        assert(contracts.take(k + 1).drop_last() =~= contracts.take(k));
        lemma_create_tables_error_stays(indexer_name, contracts, abi_events, k + 1);
    } else {
        assert(contracts.take(k) =~= contracts);
    }
}

fn network_names(details: &Vec<ContractDetails>) -> (names: Vec<String>)
    ensures
        texts(names@) == network_names_spec(crate::manifest::yaml::details_views(details@)),
{
    let mut names: Vec<String> = Vec::new();
    let mut i: usize = 0;
    while i < details.len()
        invariant
            i <= details.len(),
            names.len() == i,
            forall|k: int| 0 <= k < i ==> names@[k]@ == details@[k].network@,
        decreases details.len() - i,
    {
        names.push(details[i].network.clone());
        i += 1;
    }
    assert(texts(names@) =~= network_names_spec(crate::manifest::yaml::details_views(details@)));
    names
}

/// Generates what one event adds: the statement that creates its table,
/// followed by its checkpoint statements.
fn event_sql(event: &EventInfo, schema_name: &str, networks: &Vec<String>) -> (r: Result<
    String,
    UnsupportedType,
>)
    ensures
        match r {
            Ok(sql) => event_sql_spec(schema_name@, event@, texts(networks@)) == Ok::<
                Seq<char>,
                Seq<char>,
            >(sql@),
            Err(e) => event_sql_spec(schema_name@, event@, texts(networks@)) == Err::<
                Seq<char>,
                Seq<char>,
            >(e.abi_type@),
        },
{
    match event_table_statement(event, schema_name) {
        Ok(table) => {
            let mut sql = table;
            let internal = internal_event_sql(event, schema_name, networks);
            sql.append(internal.as_str());
            Ok(sql)
        },
        Err(e) => Err(e),
    }
}

/// Generates what each event of a contract adds, in order.
fn events_sql(events: &Vec<EventInfo>, schema_name: &str, networks: &Vec<String>) -> (r: Result<
    Vec<String>,
    UnsupportedType,
>)
    ensures
        match r {
            Ok(parts) => events_sql_spec(event_views(events@), schema_name@, texts(networks@))
                == Ok::<Seq<Seq<char>>, Seq<char>>(texts(parts@)),
            Err(e) => events_sql_spec(event_views(events@), schema_name@, texts(networks@))
                == Err::<Seq<Seq<char>>, Seq<char>>(e.abi_type@),
        },
{
    let ghost all = event_views(events@);
    let mut parts: Vec<String> = Vec::new();
    let mut i: usize = 0;
    assert(texts(parts@) =~= Seq::empty());
    while i < events.len()
        invariant
            i <= events.len(),
            all == event_views(events@),
            parts.len() == i,
            events_sql_spec(all.take(i as int), schema_name@, texts(networks@)) == Ok::<
                Seq<Seq<char>>,
                Seq<char>,
            >(texts(parts@)),
        decreases events.len() - i,
    {
        proof {
            assert(all.take(i + 1).drop_last() =~= all.take(i as int));
            assert(all.take(i + 1).last() == events@[i as int]@);
        }
        let ghost before = texts(parts@);
        match event_sql(&events[i], schema_name, networks) {
            Ok(part) => {
                parts.push(part);
                assert(texts(parts@) =~= before.push(part@));
            },
            Err(e) => {
                proof {
                    lemma_events_sql_error_stays(all, schema_name@, texts(networks@), i + 1);
                }
                return Err(e);
            },
        }
        i += 1;
    }
    assert(all.take(events.len() as int) =~= all);
    Ok(parts)
}

fn contract_tables_sql(
    indexer_name: &str,
    contract: &Contract,
    abi_events: &Vec<Option<Vec<EventInfo>>>,
    position: usize,
) -> (r: Result<String, SchemaError>)
    ensures
        match r {
            Ok(sql) => contract_tables_spec(
                indexer_name@,
                contract@,
                events_entry(loaded_events(abi_events@), position as int),
            ) == Ok::<Seq<char>, SchemaErrorView>(sql@),
            Err(e) => contract_tables_spec(
                indexer_name@,
                contract@,
                events_entry(loaded_events(abi_events@), position as int),
            ) == Err::<Seq<char>, SchemaErrorView>(e@),
        },
{
    let contract_name = match effective_contract_name(contract) {
        Ok(name) => name,
        Err(e) => {
            return Err(SchemaError::Configuration(e));
        },
    };
    if position >= abi_events.len() {
        return Err(SchemaError::EventsNotLoaded(contract.name.clone()));
    }
    match &abi_events[position] {
        None => Err(SchemaError::EventsNotLoaded(contract.name.clone())),
        Some(events) => {
            let schema_name = indexer_contract_schema_name(indexer_name, contract_name.as_str());
            let networks = network_names(&contract.details);
            match events_sql(events, schema_name.as_str(), &networks) {
                Ok(parts) => {
                    let mut out = String::from_str("CREATE SCHEMA IF NOT EXISTS ");
                    out.append(schema_name.as_str());
                    out.append(";");
                    let joined = join(&parts, "\n");
                    out.append(joined.as_str());
                    assert(out@ =~= schema_statement_spec(schema_name@) + joined@);
                    Ok(out)
                },
                Err(e) => Err(SchemaError::UnsupportedType(e)),
            }
        },
    }
}

/// Generates the text that creates the schemas, the event tables and the
/// checkpoint tables of an indexer, every statement in a form that changes
/// nothing where its subject exists already: first the internal schema, then
/// contract by contract its schema and, event by event, the event's table
/// followed by its checkpoint table and the seed of each network.
///
/// `abi_events` holds, at the position of each contract, the events that
/// were loaded from its interface. The first thing amiss, in the order of
/// the contracts, is returned as the error: a contract whose bindings mix
/// discovery modes, a contract whose entry is `None` or missing, or an input
/// type without a column type.
pub fn create_tables_for_indexer_sql(
    indexer: &Indexer,
    abi_events: &Vec<Option<Vec<EventInfo>>>,
) -> (r: Result<String, SchemaError>)
    ensures
        match r {
            Ok(sql) => create_tables_spec(
                indexer@.name,
                indexer@.contracts,
                loaded_events(abi_events@),
            ) == Ok::<Seq<char>, SchemaErrorView>(sql@),
            Err(e) => create_tables_spec(
                indexer@.name,
                indexer@.contracts,
                loaded_events(abi_events@),
            ) == Err::<Seq<char>, SchemaErrorView>(e@),
        },
{
    let mut sql = String::from_str("CREATE SCHEMA IF NOT EXISTS ");
    sql.append("rindexer_internal");
    sql.append(";");
    assert(sql@ =~= schema_statement_spec(internal_schema_name()));
    assert(indexer@.contracts.take(0) =~= Seq::empty());
    let mut i: usize = 0;
    while i < indexer.contracts.len()
        invariant
            i <= indexer.contracts.len(),
            create_tables_spec(
                indexer@.name,
                indexer@.contracts.take(i as int),
                loaded_events(abi_events@),
            ) == Ok::<Seq<char>, SchemaErrorView>(sql@),
        decreases indexer.contracts.len() - i,
    {
        proof {
            assert(indexer@.contracts.take(i + 1).drop_last() =~= indexer@.contracts.take(
                i as int,
            ));
            assert(indexer@.contracts.take(i + 1).last() == indexer.contracts@[i as int]@);
        }
        match contract_tables_sql(indexer.name.as_str(), &indexer.contracts[i], abi_events, i) {
            Ok(part) => {
                sql.append(part.as_str());
            },
            Err(e) => {
                proof {
                    lemma_create_tables_error_stays(
                        indexer@.name,
                        indexer@.contracts,
                        loaded_events(abi_events@),
                        i + 1,
                    );
                }
                return Err(e);
            },
        }
        i += 1;
    }
    assert(indexer@.contracts.take(indexer.contracts.len() as int) =~= indexer@.contracts);
    Ok(sql)
}

/// The text that drops the internal schema and the schema of each of the
/// first contracts of an indexer, or the name of the first contract whose
/// bindings mix discovery modes.
pub open spec fn drop_tables_spec(indexer_name: Seq<char>, contracts: Seq<ContractView>) -> Result<
    Seq<char>,
    Seq<char>,
>
    decreases contracts.len(),
{
    if contracts.len() == 0 {
        Ok("DROP SCHEMA IF EXISTS rindexer_internal CASCADE;"@)
    } else {
        match drop_tables_spec(indexer_name, contracts.drop_last()) {
            Err(name) => Err(name),
            Ok(sql) => if uniform_modes(contracts.last().details) {
                Ok(
                    sql + "DROP SCHEMA IF EXISTS "@ + schema_name_spec(
                        indexer_name,
                        effective_name_spec(contracts.last()),
                    ) + " CASCADE;"@,
                )
            } else {
                Err(contracts.last().name)
            },
        }
    }
}

proof fn lemma_drop_tables_error_stays(
    indexer_name: Seq<char>,
    contracts: Seq<ContractView>,
    k: int,
)
    requires
        0 <= k <= contracts.len(),
        drop_tables_spec(indexer_name, contracts.take(k)) is Err,
    ensures
        drop_tables_spec(indexer_name, contracts) == drop_tables_spec(
            indexer_name,
            contracts.take(k),
        ),
    decreases contracts.len() - k,
{
    if k < contracts.len() {
        assert(contracts.take(k + 1).drop_last() =~= contracts.take(k));
        lemma_drop_tables_error_stays(indexer_name, contracts, k + 1);
    } else {
        assert(contracts.take(k) =~= contracts);
    }
}

/// Generates the text that drops everything that
/// [`create_tables_for_indexer_sql`] creates: the internal schema, then the
/// schema of each contract, each with all it holds.
pub fn drop_tables_for_indexer_sql(indexer: &Indexer) -> (r: Result<String, ConfigurationError>)
    ensures
        match r {
            Ok(sql) => drop_tables_spec(indexer@.name, indexer@.contracts) == Ok::<
                Seq<char>,
                Seq<char>,
            >(sql@),
            Err(ConfigurationError::MixedDiscoveryModes(name)) => drop_tables_spec(
                indexer@.name,
                indexer@.contracts,
            ) == Err::<Seq<char>, Seq<char>>(name@),
        },
{
    let mut sql = String::from_str("DROP SCHEMA IF EXISTS rindexer_internal CASCADE;");
    let mut i: usize = 0;
    while i < indexer.contracts.len()
        invariant
            i <= indexer.contracts.len(),
            drop_tables_spec(indexer@.name, indexer@.contracts.take(i as int)) == Ok::<
                Seq<char>,
                Seq<char>,
            >(sql@),
        decreases indexer.contracts.len() - i,
    {
        proof {
            assert(indexer@.contracts.take(i + 1).drop_last() =~= indexer@.contracts.take(
                i as int,
            ));
            assert(indexer@.contracts.take(i + 1).last() == indexer.contracts@[i as int]@);
        }
        let ghost before = sql@;
        match effective_contract_name(&indexer.contracts[i]) {
            Ok(contract_name) => {
                let schema_name = indexer_contract_schema_name(
                    indexer.name.as_str(),
                    contract_name.as_str(),
                );
                sql.append("DROP SCHEMA IF EXISTS ");
                sql.append(schema_name.as_str());
                sql.append(" CASCADE;");
                assert(sql@ =~= before + "DROP SCHEMA IF EXISTS "@ + schema_name@ + " CASCADE;"@);
            },
            Err(e) => {
                proof {
                    lemma_drop_tables_error_stays(indexer@.name, indexer@.contracts, i + 1);
                }
                return Err(e);
            },
        }
        i += 1;
    }
    assert(indexer@.contracts.take(indexer.contracts.len() as int) =~= indexer@.contracts);
    Ok(sql)
}

/// The placeholders `$1` to `$count`, in order.
pub open spec fn placeholders_spec(count: nat) -> Seq<Seq<char>> {
    Seq::new(count, |i: int| seq!['$'] + decimal_text((i + 1) as nat))
}

/// The values clause with `count` placeholders, numbered from one without a
/// gap: `VALUES($1, $2, $3)` for three.
pub open spec fn injected_param_spec(count: nat) -> Seq<char> {
    "VALUES("@ + join_spec(placeholders_spec(count), ", "@) + ")"@
}

fn injected_param(count: u128) -> (r: String)
    ensures
        r@ == injected_param_spec(count as nat),
{
    let mut placeholders: Vec<String> = Vec::new();
    let mut i: u128 = 0;
    while i < count
        invariant
            i <= count,
            placeholders.len() == i,
            forall|k: int|
                0 <= k < i ==> placeholders@[k]@ == seq!['$'] + decimal_text((k + 1) as nat),
        decreases count - i,
    {
        i += 1;
        let mut placeholder = String::from_str("$");
        let number = decimal_string(i);
        placeholder.append(number.as_str());
        proof {
            reveal_strlit("$");
        }
        assert(placeholder@ =~= seq!['$'] + decimal_text(i as nat));
        placeholders.push(placeholder);
    }
    assert(texts(placeholders@) =~= placeholders_spec(count as nat));
    let mut out = String::from_str("VALUES(");
    let joined = join(&placeholders, ", ");
    out.append(joined.as_str());
    out.append(")");
    out
}

/// Generates the values clause of a statement with `count` parameters.
pub fn generate_injected_param(count: usize) -> (r: String)
    ensures
        r@ == injected_param_spec(count as nat),
{
    injected_param(count as u128)
}

/// The insert statement of an event: the contract's address, the event's
/// columns in declared order, then the transaction hash, the block number
/// and the block hash, with one placeholder for each.
pub open spec fn insert_query_spec(
    event: EventInfoView,
    indexer_name: Seq<char>,
    contract_name: Seq<char>,
) -> Seq<char> {
    "INSERT INTO "@ + event_table_name_spec(
        schema_name_spec(indexer_name, contract_name),
        event.name,
    ) + " ("@ + join_spec(insert_columns_spec(column_names_spec(event.inputs)), ", "@) + ") "@
        + injected_param_spec(4 + event.inputs.len())
}

/// Generates the insert statement of an event. The caller binds the
/// contract's address, the event's values in declared order, the transaction
/// hash, the block number and the block hash, in that order.
pub fn generated_insert_query_for_event(
    event_info: &EventInfo,
    indexer_name: &str,
    contract_name: &str,
) -> (r: String)
    ensures
        r@ == insert_query_spec(event_info@, indexer_name@, contract_name@),
{
    let columns = generate_columns_names_only(&event_info.inputs);
    let schema_name = indexer_contract_schema_name(indexer_name, contract_name);
    let mut out = String::from_str("INSERT INTO ");
    out.append(schema_name.as_str());
    out.append(".");
    let table = camel_to_snake(event_info.name.as_str());
    out.append(table.as_str());
    out.append(" (");
    let mut all: Vec<String> = Vec::new();
    all.push(String::from_str("contract_address"));
    let ghost head = all@;
    let mut i: usize = 0;
    while i < columns.len()
        invariant
            i <= columns.len(),
            all@ == head + columns@.take(i as int),
        decreases columns.len() - i,
    {
        all.push(columns[i].clone());
        assert(all@ =~= head + columns@.take(i + 1));
        i += 1;
    }
    all.push(String::from_str("\"tx_hash\""));
    all.push(String::from_str("\"block_number\""));
    all.push(String::from_str("\"block_hash\""));
    assert(columns@.take(columns.len() as int) =~= columns@);
    assert(texts(all@) =~= insert_columns_spec(texts(columns@)));
    let joined = join(&all, ", ");
    out.append(joined.as_str());
    out.append(") ");
    assert(columns.len() == event_info.inputs.len()) by {
        assert(texts(columns@).len() == column_names_spec(input_views(event_info.inputs@)).len());
    }
    let values = injected_param(4 + columns.len() as u128);
    out.append(values.as_str());
    assert(out@ =~= insert_query_spec(event_info@, indexer_name@, contract_name@));
    out
}


/// The views of the events that were loaded for each indexer.
pub open spec fn loaded_indexer_events(abi_events: Seq<Vec<Option<Vec<EventInfo>>>>) -> Seq<
    Seq<Option<Seq<EventInfoView>>>,
> {
    abi_events.map_values(|entry: Vec<Option<Vec<EventInfo>>>| loaded_events(entry@))
}

/// The events that were loaded for the contracts of the indexer at position
/// `i`; none for any contract where the entry is missing.
pub open spec fn indexer_events(
    abi_events: Seq<Seq<Option<Seq<EventInfoView>>>>,
    i: int,
) -> Seq<Option<Seq<EventInfoView>>> {
    if 0 <= i < abi_events.len() {
        abi_events[i]
    } else {
        Seq::empty()
    }
}

/// The schema texts of the first indexers, one text per indexer in order, or
/// the first error in that order.
pub open spec fn indexer_tables_spec(
    indexers: Seq<IndexerView>,
    abi_events: Seq<Seq<Option<Seq<EventInfoView>>>>,
) -> Result<Seq<Seq<char>>, SchemaErrorView>
    decreases indexers.len(),
{
    if indexers.len() == 0 {
        Ok(Seq::empty())
    } else {
        match indexer_tables_spec(indexers.drop_last(), abi_events) {
            Err(e) => Err(e),
            Ok(scripts) => match create_tables_spec(
                indexers.last().name,
                indexers.last().contracts,
                indexer_events(abi_events, indexers.len() - 1),
            ) {
                Err(e) => Err(e),
                Ok(sql) => Ok(scripts.push(sql)),
            },
        }
    }
}

/// What is run against the database at startup: nothing where the project
/// says that no tables are to be created, else the schema text of each
/// indexer, in order.
pub open spec fn setup_postgres_spec(
    manifest: ManifestView,
    abi_events: Seq<Seq<Option<Seq<EventInfoView>>>>,
) -> Result<Seq<Seq<char>>, SchemaErrorView> {
    if manifest.storage.create_tables_disabled() {
        Ok(Seq::empty())
    } else {
        indexer_tables_spec(manifest.indexers, abi_events)
    }
}

proof fn lemma_indexer_tables_error_stays(
    indexers: Seq<IndexerView>,
    abi_events: Seq<Seq<Option<Seq<EventInfoView>>>>,
    k: int,
)
    requires
        0 <= k <= indexers.len(),
        indexer_tables_spec(indexers.take(k), abi_events) is Err,
    ensures
        indexer_tables_spec(indexers, abi_events) == indexer_tables_spec(
            indexers.take(k),
            abi_events,
        ),
    decreases indexers.len() - k,
{
    if k < indexers.len() {
        assert(indexers.take(k + 1).drop_last() =~= indexers.take(k));
        lemma_indexer_tables_error_stays(indexers, abi_events, k + 1);
    } else {
        assert(indexers.take(k) =~= indexers);
    }
}

/// Decides what is run against the database when the storage is set up:
/// the schema text of every indexer, in order, each to be run as one batch,
/// unless the project says that no tables are to be created. Any error in
/// generating a text is returned before anything is run.
///
/// `abi_events` holds, at the position of each indexer, what
/// [`create_tables_for_indexer_sql`] takes for it.
pub fn setup_postgres_sql(manifest: &Manifest, abi_events: &Vec<Vec<Option<Vec<EventInfo>>>>) -> (r:
    Result<Vec<String>, SchemaError>)
    ensures
        match r {
            Ok(scripts) => setup_postgres_spec(manifest@, loaded_indexer_events(abi_events@))
                == Ok::<Seq<Seq<char>>, SchemaErrorView>(texts(scripts@)),
            Err(e) => setup_postgres_spec(manifest@, loaded_indexer_events(abi_events@)) == Err::<
                Seq<Seq<char>>,
                SchemaErrorView,
            >(e@),
        },
{
    let mut scripts: Vec<String> = Vec::new();
    assert(texts(scripts@) =~= Seq::empty());
    if manifest.storage.postgres_disable_create_tables() {
        return Ok(scripts);
    }
    let none: Vec<Option<Vec<EventInfo>>> = Vec::new();
    let mut i: usize = 0;
    while i < manifest.indexers.len()
        invariant
            i <= manifest.indexers.len(),
            scripts.len() == i,
            none@.len() == 0,
            !manifest.storage.create_tables_disabled(),
            indexer_tables_spec(
                manifest@.indexers.take(i as int),
                loaded_indexer_events(abi_events@),
            ) == Ok::<Seq<Seq<char>>, SchemaErrorView>(texts(scripts@)),
        decreases manifest.indexers.len() - i,
    {
        proof {
            assert(manifest@.indexers.take(i + 1).drop_last() =~= manifest@.indexers.take(
                i as int,
            ));
            assert(manifest@.indexers.take(i + 1).last() == manifest.indexers@[i as int]@);
        }
        let events = if i < abi_events.len() {
            &abi_events[i]
        } else {
            &none
        };
        assert(loaded_events(events@) =~= indexer_events(
            loaded_indexer_events(abi_events@),
            i as int,
        ));
        let ghost before = texts(scripts@);
        match create_tables_for_indexer_sql(&manifest.indexers[i], events) {
            Ok(sql) => {
                scripts.push(sql);
                assert(texts(scripts@) =~= before.push(sql@));
            },
            Err(e) => {
                proof {
                    lemma_indexer_tables_error_stays(
                        manifest@.indexers,
                        loaded_indexer_events(abi_events@),
                        i + 1,
                    );
                }
                return Err(e);
            },
        }
        i += 1;
    }
    assert(manifest@.indexers.take(manifest.indexers.len() as int) =~= manifest@.indexers);
    Ok(scripts)
}

} // verus!
