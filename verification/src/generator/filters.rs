//! The rule for contracts that are found by a filter or through a factory:
//! they are stored under a name of their own.

use crate::generator::event_callback_registry::DiscoveryMode;
use crate::manifest::yaml::{Contract, ContractDetailsView, ContractView};
use vstd::prelude::*;

verus! {

/// A description that cannot be worked with.
#[derive(Debug, Clone, PartialEq, Eq)]
pub enum ConfigurationError {
    /// The bindings of the named contract do not all use one discovery mode.
    MixedDiscoveryModes(String),
}

/// What is said of a contract whose bindings mix discovery modes.
pub open spec fn mixed_modes_message() -> Seq<char> {
    "Cannot mix and match address and filter for the same contract definition."@
}

impl ConfigurationError {
    /// The error as a line of text.
    pub fn message(&self) -> (text: String)
        ensures
            text@ == mixed_modes_message(),
    {
        String::from_str("Cannot mix and match address and filter for the same contract definition.")
    }
}

/// Whether all bindings use the same discovery mode.
pub open spec fn uniform_modes(details: Seq<ContractDetailsView>) -> bool {
    forall|i: int, j: int|
        0 <= i < details.len() && 0 <= j < details.len() ==> details[i].setup.mode()
            == details[j].setup.mode()
}

/// Whether the bindings find their contracts by a filter or through a
/// factory, rather than at a fixed address.
pub open spec fn is_filter_spec(details: Seq<ContractDetailsView>) -> bool {
    details.len() > 0 && details[0].setup.mode() != DiscoveryMode::Address
}

/// The name under which a contract found by a filter or a factory is stored.
pub open spec fn filter_name_spec(name: Seq<char>) -> Seq<char> {
    name + "Filter"@
}

/// The name under which a contract is stored.
pub open spec fn effective_name_spec(contract: ContractView) -> Seq<char> {
    if is_filter_spec(contract.details) {
        filter_name_spec(contract.name)
    } else {
        contract.name
    }
}

/// Says whether a contract is found by a filter or through a factory. A
/// contract whose bindings mix discovery modes is refused.
pub fn is_filter(contract: &Contract) -> (r: Result<bool, ConfigurationError>)
    ensures
        r is Ok <==> uniform_modes(contract@.details),
        r matches Ok(found) ==> found == is_filter_spec(contract@.details),
        r matches Err(ConfigurationError::MixedDiscoveryModes(name)) ==> name@ == contract@.name,
{
    if contract.details.len() == 0 {
        return Ok(false);
    }
    let first = contract.details[0].setup.mode();
    let mut i: usize = 1;
    while i < contract.details.len()
        invariant
            1 <= i <= contract.details.len(),
            first == contract@.details[0].setup.mode(),
            forall|k: int| 0 <= k < i ==> contract@.details[k].setup.mode() == first,
        decreases contract.details.len() - i,
    {
        if contract.details[i].setup.mode() != first {
            assert(contract@.details[i as int].setup.mode() != contract@.details[0].setup.mode());
            return Err(ConfigurationError::MixedDiscoveryModes(contract.name.clone()));
        }
        i += 1;
    }
    Ok(first != DiscoveryMode::Address)
}

/// Makes the name under which a contract found by a filter or a factory is
/// stored.
pub fn contract_name_to_filter_name(contract_name: &str) -> (r: String)
    ensures
        r@ == filter_name_spec(contract_name@),
{
    let mut out = String::from_str(contract_name);
    out.append("Filter");
    out
}

/// The name under which a contract is stored, or the refusal of a contract
/// whose bindings mix discovery modes.
pub fn effective_contract_name(contract: &Contract) -> (r: Result<String, ConfigurationError>)
    ensures
        r is Ok <==> uniform_modes(contract@.details),
        r matches Ok(name) ==> name@ == effective_name_spec(contract@),
        r matches Err(ConfigurationError::MixedDiscoveryModes(name)) ==> name@ == contract@.name,
{
    match is_filter(contract) {
        Ok(true) => Ok(contract_name_to_filter_name(contract.name.as_str())),
        Ok(false) => Ok(contract.name.clone()),
        Err(e) => Err(e),
    }
}

/// Gives a contract found by a filter or through a factory its own name,
/// and says whether it did. A contract whose bindings mix discovery modes is
/// refused and left as it was.
pub fn identify_filter(contract: &mut Contract) -> (r: Result<bool, ConfigurationError>)
    ensures
        r is Ok <==> uniform_modes(old(contract)@.details),
        r matches Ok(found) ==> found == is_filter_spec(old(contract)@.details),
        final(contract)@ == (if r is Ok {
            ContractView { name: effective_name_spec(old(contract)@), ..old(contract)@ }
        } else {
            old(contract)@
        }),
        r matches Err(ConfigurationError::MixedDiscoveryModes(name)) ==> name@ == old(
            contract,
        )@.name,
{
    match is_filter(contract) {
        Ok(true) => {
            let name = contract_name_to_filter_name(contract.name.as_str());
            contract.override_name(name);
            Ok(true)
        },
        Ok(false) => Ok(false),
        Err(e) => Err(e),
    }
}

} // verus!
