//! The source text of the network providers: one lazily built provider per
//! network and one function that hands it out.

use crate::helpers::{lowercase_text, to_lowercase, to_uppercase, uppercase_text};
use crate::manifest::yaml::{network_views, Network, NetworkView};
use vstd::prelude::*;

verus! {

/// The name of a network's provider: the network's name in upper case,
/// followed by `_PROVIDER`.
pub open spec fn provider_name_spec(network_name: Seq<char>) -> Seq<char> {
    uppercase_text(network_name) + "_PROVIDER"@
}

/// The name of the function that hands out a network's provider: `get_` and
/// the provider's name in lower case.
pub open spec fn provider_fn_name_spec(network_name: Seq<char>) -> Seq<char> {
    "get_"@ + lowercase_text(provider_name_spec(network_name))
}

/// The declaration of a network's provider.
pub open spec fn lazy_provider_code_spec(network_name: Seq<char>, url: Seq<char>) -> Seq<char> {
    "\n            static ref "@ + provider_name_spec(network_name)
        + ": Arc<Provider<RetryClient<Http>>> = create_retry_client(\""@ + url
        + "\").expect(\"Error creating provider\");\n        "@
}

/// The function that hands out a network's provider.
pub open spec fn provider_code_spec(network_name: Seq<char>) -> Seq<char> {
    "\n            pub fn "@ + provider_fn_name_spec(network_name)
        + "() -> &'static Arc<Provider<RetryClient<Http>>> {\n                &"@
        + provider_name_spec(network_name) + "\n            }\n        "@
}

/// The declarations of the providers of the networks, in order.
pub open spec fn lazy_providers_spec(networks: Seq<NetworkView>) -> Seq<char>
    decreases networks.len(),
{
    if networks.len() == 0 {
        Seq::empty()
    } else {
        lazy_providers_spec(networks.drop_last()) + lazy_provider_code_spec(
            networks.last().name,
            networks.last().url,
        )
    }
}

/// The functions that hand out the providers of the networks, in order.
pub open spec fn providers_spec(networks: Seq<NetworkView>) -> Seq<char>
    decreases networks.len(),
{
    if networks.len() == 0 {
        Seq::empty()
    } else {
        providers_spec(networks.drop_last()) + provider_code_spec(networks.last().name)
    }
}

/// The whole source text: the imports, the block of declarations, then the
/// functions.
pub open spec fn networks_code_spec(networks: Seq<NetworkView>) -> Seq<char> {
    "\n            use ethers::providers::{Provider, Http, RetryClient};\n            use rindexer_core::lazy_static;\n            use rindexer_core::provider::create_retry_client;\n            use std::sync::Arc;\n\n            lazy_static! {\n        "@
        + lazy_providers_spec(networks) + "}"@ + providers_spec(networks)
}

/// Generates the provider name from the network name.
pub fn network_provider_name_from_name(network_name: &str) -> (r: String)
    ensures
        r@ == provider_name_spec(network_name@),
{
    let mut out = to_uppercase(network_name);
    out.append("_PROVIDER");
    out
}

/// Generates the provider name for a given network.
pub fn network_provider_name(network: &Network) -> (r: String)
    ensures
        r@ == provider_name_spec(network@.name),
{
    network_provider_name_from_name(network.name.as_str())
}

/// Generates the function name for the network provider.
pub fn network_provider_fn_name(network: &Network) -> (r: String)
    ensures
        r@ == provider_fn_name_spec(network@.name),
{
    network_provider_fn_name_by_name(network.name.as_str())
}

/// Generates the function name for the network provider from the network name.
pub fn network_provider_fn_name_by_name(network_name: &str) -> (r: String)
    ensures
        r@ == provider_fn_name_spec(network_name@),
{
    let provider = network_provider_name_from_name(network_name);
    let lower = to_lowercase(provider.as_str());
    let mut out = String::from_str("get_");
    out.append(lower.as_str());
    out
}

/// Generates the declaration of a network's provider.
pub fn generate_network_lazy_provider_code(network: &Network) -> (r: String)
    ensures
        r@ == lazy_provider_code_spec(network@.name, network@.url),
{
    let name = network_provider_name(network);
    let mut out = String::from_str("\n            static ref ");
    out.append(name.as_str());
    out.append(": Arc<Provider<RetryClient<Http>>> = create_retry_client(\"");
    out.append(network.url.as_str());
    out.append("\").expect(\"Error creating provider\");\n        ");
    assert(out@ =~= lazy_provider_code_spec(network.name@, network.url@));
    out
}

/// Generates the function that hands out a network's provider.
pub fn generate_network_provider_code(network: &Network) -> (r: String)
    ensures
        r@ == provider_code_spec(network@.name),
{
    let fn_name = network_provider_fn_name(network);
    let name = network_provider_name(network);
    let mut out = String::from_str("\n            pub fn ");
    out.append(fn_name.as_str());
    out.append("() -> &'static Arc<Provider<RetryClient<Http>>> {\n                &");
    out.append(name.as_str());
    out.append("\n            }\n        ");
    assert(out@ =~= provider_code_spec(network.name@));
    out
}

/// Generates the code for all network providers.
pub fn generate_networks_code(networks: &[Network]) -> (r: String)
    ensures
        r@ == networks_code_spec(network_views(networks@)),
{
    let mut output = String::from_str(
        "\n            use ethers::providers::{Provider, Http, RetryClient};\n            use rindexer_core::lazy_static;\n            use rindexer_core::provider::create_retry_client;\n            use std::sync::Arc;\n\n            lazy_static! {\n        ",
    );
    let ghost head = output@;
    let ghost all = network_views(networks@);
    let mut i: usize = 0;
    while i < networks.len()
        invariant
            i <= networks.len(),
            all == network_views(networks@),
            output@ == head + lazy_providers_spec(all.take(i as int)),
        decreases networks.len() - i,
    {
        proof {
            assert(all.take(i + 1).drop_last() =~= all.take(i as int));
            assert(all.take(i + 1).last() == networks@[i as int]@);
        }
        let code = generate_network_lazy_provider_code(&networks[i]);
        output.append(code.as_str());
        assert(output@ =~= head + lazy_providers_spec(all.take(i + 1)));
        i += 1;
    }
    assert(all.take(networks.len() as int) =~= all);
    output.append("}");
    let ghost middle = output@;
    let mut k: usize = 0;
    while k < networks.len()
        invariant
            k <= networks.len(),
            all == network_views(networks@),
            output@ == middle + providers_spec(all.take(k as int)),
        decreases networks.len() - k,
    {
        proof {
            assert(all.take(k + 1).drop_last() =~= all.take(k as int));
            assert(all.take(k + 1).last() == networks@[k as int]@);
        }
        let code = generate_network_provider_code(&networks[k]);
        output.append(code.as_str());
        assert(output@ =~= middle + providers_spec(all.take(k + 1)));
        k += 1;
    }
    assert(all.take(networks.len() as int) =~= all);
    assert(output@ =~= networks_code_spec(all));
    output
}

} // verus!
