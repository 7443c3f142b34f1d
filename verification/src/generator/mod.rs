//! What the generators take from a contract's interface: its events and
//! their typed inputs, and the column that each input becomes.

pub mod event_callback_registry;
pub mod filters;
pub mod networks_bindings;

use crate::database::postgres::{
    db_type_spec, solidity_type_to_db_type, solidity_type_to_ethereum_sql_type_wrapper,
    sql_type_kind_spec, UnsupportedType,
};
use crate::database::sql_type_wrapper::EthereumSqlTypeKind;
use crate::helpers::{camel_to_snake, camel_to_snake_spec};
use vstd::prelude::*;

verus! {

/// One input of an event, as the interface declares it.
#[derive(Debug, Clone, PartialEq, Eq)]
pub struct ABIInput {
    /// Whether the input is indexed, where the interface says.
    pub indexed: Option<bool>,
    /// The input's name.
    pub name: String,
    /// The input's interface type.
    pub type_: String,
}

/// The mathematical content of an [`ABIInput`].
pub struct ABIInputView {
    pub indexed: Option<bool>,
    pub name: Seq<char>,
    pub type_: Seq<char>,
}

impl View for ABIInput {
    type V = ABIInputView;

    open spec fn view(&self) -> ABIInputView {
        ABIInputView { indexed: self.indexed, name: self.name@, type_: self.type_@ }
    }
}

/// The views of a sequence of inputs.
pub open spec fn input_views(inputs: Seq<ABIInput>) -> Seq<ABIInputView> {
    inputs.map_values(|input: ABIInput| input@)
}

/// One event of a contract: its name and its inputs in declared order.
#[derive(Debug, Clone, PartialEq, Eq)]
pub struct EventInfo {
    /// The event's name.
    pub name: String,
    /// The event's inputs, in the order of the interface.
    pub inputs: Vec<ABIInput>,
    /// The event's signature.
    pub signature: String,
}

/// The mathematical content of an [`EventInfo`].
pub struct EventInfoView {
    pub name: Seq<char>,
    pub inputs: Seq<ABIInputView>,
    pub signature: Seq<char>,
}

impl View for EventInfo {
    type V = EventInfoView;

    open spec fn view(&self) -> EventInfoView {
        EventInfoView {
            name: self.name@,
            inputs: input_views(self.inputs@),
            signature: self.signature@,
        }
    }
}

/// The views of a sequence of events.
pub open spec fn event_views(events: Seq<EventInfo>) -> Seq<EventInfoView> {
    events.map_values(|event: EventInfo| event@)
}

/// What is generated for each input.
#[derive(Debug, Clone, Copy, PartialEq, Eq, Structural)]
pub enum GenerateAbiPropertiesType {
    /// The column's quoted name and its column type.
    PostgresWithDataTypes,
    /// The column's quoted name alone.
    PostgresColumnsNamesOnly,
}

/// What was generated for one input.
#[derive(Debug, Clone, PartialEq, Eq)]
pub struct GenerateAbiNamePropertiesResult {
    /// The generated text.
    pub value: String,
    /// The input's interface type.
    pub abi_type: String,
    /// The input's name.
    pub abi_name: String,
    /// The kind of value that the input decodes to, where its type is handled.
    pub ethereum_sql_type_wrapper: Option<EthereumSqlTypeKind>,
}

/// The mathematical content of a [`GenerateAbiNamePropertiesResult`].
pub struct GenerateAbiNamePropertiesResultView {
    pub value: Seq<char>,
    pub abi_type: Seq<char>,
    pub abi_name: Seq<char>,
    pub ethereum_sql_type_wrapper: Option<EthereumSqlTypeKind>,
}

impl View for GenerateAbiNamePropertiesResult {
    type V = GenerateAbiNamePropertiesResultView;

    open spec fn view(&self) -> GenerateAbiNamePropertiesResultView {
        GenerateAbiNamePropertiesResultView {
            value: self.value@,
            abi_type: self.abi_type@,
            abi_name: self.abi_name@,
            ethereum_sql_type_wrapper: self.ethereum_sql_type_wrapper,
        }
    }
}

/// The views of a sequence of results.
pub open spec fn result_views(results: Seq<GenerateAbiNamePropertiesResult>) -> Seq<
    GenerateAbiNamePropertiesResultView,
> {
    results.map_values(|result: GenerateAbiNamePropertiesResult| result@)
}

/// The column name of an input: the snake-case form of its name in double
/// quotes, after the prefix and an underscore where a prefix is given.
pub open spec fn column_name_spec(prefix: Option<Seq<char>>, name: Seq<char>) -> Seq<char> {
    let lead = match prefix {
        Some(p) => p + seq!['_'],
        None => Seq::empty(),
    };
    seq!['"'] + lead + camel_to_snake_spec(name) + seq!['"']
}

/// What is generated for one input: its column name, followed for
/// `PostgresWithDataTypes` by a space and its column type. The interface type
/// is the error where it has no column type.
pub open spec fn property_spec(
    input: ABIInputView,
    properties_type: GenerateAbiPropertiesType,
    prefix: Option<Seq<char>>,
) -> Result<GenerateAbiNamePropertiesResultView, Seq<char>> {
    let name = column_name_spec(prefix, input.name);
    let value = match properties_type {
        GenerateAbiPropertiesType::PostgresWithDataTypes => match db_type_spec(input.type_) {
            Some(column) => Ok(name + seq![' '] + column),
            None => Err(input.type_),
        },
        GenerateAbiPropertiesType::PostgresColumnsNamesOnly => Ok(name),
    };
    match value {
        Ok(value) => Ok(
            GenerateAbiNamePropertiesResultView {
                value,
                abi_type: input.type_,
                abi_name: input.name,
                ethereum_sql_type_wrapper: sql_type_kind_spec(input.type_),
            },
        ),
        Err(e) => Err(e),
    }
}

/// What is generated for the inputs, one result per input in their order, or
/// the first interface type in that order that has no column type.
pub open spec fn properties_spec(
    inputs: Seq<ABIInputView>,
    properties_type: GenerateAbiPropertiesType,
    prefix: Option<Seq<char>>,
) -> Result<Seq<GenerateAbiNamePropertiesResultView>, Seq<char>>
    decreases inputs.len(),
{
    if inputs.len() == 0 {
        Ok(Seq::empty())
    } else {
        match properties_spec(inputs.drop_last(), properties_type, prefix) {
            Err(e) => Err(e),
            Ok(results) => match property_spec(inputs.last(), properties_type, prefix) {
                Err(e) => Err(e),
                Ok(result) => Ok(results.push(result)),
            },
        }
    }
}

/// Once a prefix of the inputs fails, the whole fails in the same way.
pub proof fn lemma_properties_error_stays(
    inputs: Seq<ABIInputView>,
    properties_type: GenerateAbiPropertiesType,
    prefix: Option<Seq<char>>,
    k: int,
)
    requires
        0 <= k <= inputs.len(),
        properties_spec(inputs.take(k), properties_type, prefix) is Err,
    ensures
        properties_spec(inputs, properties_type, prefix) == properties_spec(
            inputs.take(k),
            properties_type,
            prefix,
        ),
    decreases inputs.len() - k,
{
    if k < inputs.len() {
        assert(inputs.take(k + 1).drop_last() =~= inputs.take(k));
        lemma_properties_error_stays(inputs, properties_type, prefix, k + 1);
    } else {
        assert(inputs.take(k) =~= inputs);
    }
}

/// With names only, every input has a result.
pub proof fn lemma_names_only_never_fails(inputs: Seq<ABIInputView>, prefix: Option<Seq<char>>)
    ensures
        properties_spec(inputs, GenerateAbiPropertiesType::PostgresColumnsNamesOnly, prefix) is Ok,
        properties_spec(
            inputs,
            GenerateAbiPropertiesType::PostgresColumnsNamesOnly,
            prefix,
        )->Ok_0.len() == inputs.len(),
    decreases inputs.len(),
{
    if inputs.len() > 0 {
        lemma_names_only_never_fails(inputs.drop_last(), prefix);
    }
}

/// The prefix as a sequence of characters.
pub open spec fn prefix_view(prefix: Option<&str>) -> Option<Seq<char>> {
    match prefix {
        Some(p) => Some(p@),
        None => None,
    }
}

fn column_name(prefix: Option<&str>, name: &str) -> (r: String)
    ensures
        r@ == column_name_spec(prefix_view(prefix), name@),
{
    proof {
        reveal_strlit("\"");
        reveal_strlit("_");
    }
    let mut out = String::from_str("\"");
    match prefix {
        Some(p) => {
            out.append(p);
            out.append("_");
        },
        None => {},
    }
    let snake = camel_to_snake(name);
    out.append(snake.as_str());
    out.append("\"");
    assert(out@ =~= column_name_spec(prefix_view(prefix), name@));
    out
}

fn generate_property(
    input: &ABIInput,
    properties_type: &GenerateAbiPropertiesType,
    prefix: Option<&str>,
) -> (r: Result<GenerateAbiNamePropertiesResult, UnsupportedType>)
    ensures
        match r {
            Ok(result) => property_spec(input@, *properties_type, prefix_view(prefix)) == Ok::<
                GenerateAbiNamePropertiesResultView,
                Seq<char>,
            >(result@),
            Err(e) => property_spec(input@, *properties_type, prefix_view(prefix)) == Err::<
                GenerateAbiNamePropertiesResultView,
                Seq<char>,
            >(e.abi_type@),
        },
{
    let mut value = column_name(prefix, input.name.as_str());
    match properties_type {
        GenerateAbiPropertiesType::PostgresWithDataTypes => {
            proof {
                reveal_strlit(" ");
            }
            match solidity_type_to_db_type(input.type_.as_str()) {
                Ok(column) => {
                    value.append(" ");
                    value.append(column.as_str());
                    assert(value@ =~= column_name_spec(prefix_view(prefix), input.name@) + seq![
                        ' ',
                    ] + column@);
                },
                Err(e) => {
                    return Err(e);
                },
            }
        },
        GenerateAbiPropertiesType::PostgresColumnsNamesOnly => {},
    }
    Ok(
        GenerateAbiNamePropertiesResult {
            value,
            abi_type: input.type_.clone(),
            abi_name: input.name.clone(),
            ethereum_sql_type_wrapper: solidity_type_to_ethereum_sql_type_wrapper(
                input.type_.as_str(),
            ),
        },
    )
}

/// Generates, for each input in order, its column name or its column name
/// with its column type. Fails on the first input whose type has no column
/// type; with names only it never fails.
pub fn generate_abi_name_properties(
    inputs: &[ABIInput],
    properties_type: &GenerateAbiPropertiesType,
    prefix: Option<&str>,
) -> (r: Result<Vec<GenerateAbiNamePropertiesResult>, UnsupportedType>)
    ensures
        match r {
            Ok(results) => properties_spec(
                input_views(inputs@),
                *properties_type,
                prefix_view(prefix),
            ) == Ok::<Seq<GenerateAbiNamePropertiesResultView>, Seq<char>>(result_views(results@)),
            Err(e) => properties_spec(input_views(inputs@), *properties_type, prefix_view(prefix))
                == Err::<Seq<GenerateAbiNamePropertiesResultView>, Seq<char>>(e.abi_type@),
        },
{
    let ghost all = input_views(inputs@);
    let ghost p = prefix_view(prefix);
    let mut results: Vec<GenerateAbiNamePropertiesResult> = Vec::new();
    let mut i: usize = 0;
    assert(result_views(results@) =~= Seq::empty());
    while i < inputs.len()
        invariant
            i <= inputs.len(),
            all == input_views(inputs@),
            p == prefix_view(prefix),
            results.len() == i,
            properties_spec(all.take(i as int), *properties_type, p) == Ok::<
                Seq<GenerateAbiNamePropertiesResultView>,
                Seq<char>,
            >(result_views(results@)),
        decreases inputs.len() - i,
    {
        proof {
            assert(all.take(i + 1).drop_last() =~= all.take(i as int));
            assert(all.take(i + 1).last() == inputs@[i as int]@);
        }
        let ghost before = result_views(results@);
        match generate_property(&inputs[i], properties_type, prefix) {
            Ok(result) => {
                results.push(result);
                assert(result_views(results@) =~= before.push(result@));
            },
            Err(e) => {
                proof {
                    lemma_properties_error_stays(all, *properties_type, p, i + 1);
                }
                return Err(e);
            },
        }
        i += 1;
    }
    assert(all.take(inputs.len() as int) =~= all);
    Ok(results)
}

} // verus!
