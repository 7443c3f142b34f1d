//! The types of the project description, as the generators read them.

use crate::generator::event_callback_registry::{
    optional_texts, FactoryDetails, FilterDetails, IndexingContractSetup,
    IndexingContractSetupView,
};
use crate::helpers::{chars_of, push_char, string_of, text_eq};
use vstd::prelude::*;

verus! {

/// A whole project: its indexers, its networks and what they share.
#[derive(Debug, Clone, PartialEq, Eq)]
pub struct Manifest {
    pub name: String,
    pub description: Option<String>,
    pub repository: Option<String>,
    pub indexers: Vec<Indexer>,
    pub networks: Vec<Network>,
    pub global: Option<Global>,
    pub storage: Storage,
}

/// The view of an optional string.
pub open spec fn optional_text(text: Option<String>) -> Option<Seq<char>> {
    match text {
        Some(text) => Some(text@),
        None => None,
    }
}

/// The mathematical content of a [`Manifest`].
pub struct ManifestView {
    pub name: Seq<char>,
    pub description: Option<Seq<char>>,
    pub repository: Option<Seq<char>>,
    pub indexers: Seq<IndexerView>,
    pub networks: Seq<NetworkView>,
    pub global: Option<GlobalView>,
    pub storage: Storage,
}

impl View for Manifest {
    type V = ManifestView;

    open spec fn view(&self) -> ManifestView {
        ManifestView {
            name: self.name@,
            description: optional_text(self.description),
            repository: optional_text(self.repository),
            indexers: indexer_views(self.indexers@),
            networks: network_views(self.networks@),
            global: match self.global {
                Some(global) => Some(global@),
                None => None,
            },
            storage: self.storage,
        }
    }
}

/// One indexer: a name and the contracts it watches, in order.
#[derive(Debug, Clone, PartialEq, Eq)]
pub struct Indexer {
    pub name: String,
    pub contracts: Vec<Contract>,
}

/// The mathematical content of an [`Indexer`].
pub struct IndexerView {
    pub name: Seq<char>,
    pub contracts: Seq<ContractView>,
}

impl View for Indexer {
    type V = IndexerView;

    open spec fn view(&self) -> IndexerView {
        IndexerView { name: self.name@, contracts: contract_views(self.contracts@) }
    }
}

/// The views of a sequence of indexers.
pub open spec fn indexer_views(indexers: Seq<Indexer>) -> Seq<IndexerView> {
    indexers.map_values(|indexer: Indexer| indexer@)
}

/// One binding of a contract to a network. A binding has exactly one
/// discovery mode: the setup is one value, of one of three kinds.
#[derive(Debug, Clone, PartialEq, Eq)]
pub struct ContractDetails {
    pub network: String,
    pub setup: IndexingContractSetup,
    pub start_block: Option<u64>,
    pub end_block: Option<u64>,
    pub polling_every: Option<u64>,
}

/// The mathematical content of a [`ContractDetails`].
pub struct ContractDetailsView {
    pub network: Seq<char>,
    pub setup: IndexingContractSetupView,
    pub start_block: Option<u64>,
    pub end_block: Option<u64>,
    pub polling_every: Option<u64>,
}

impl View for ContractDetails {
    type V = ContractDetailsView;

    open spec fn view(&self) -> ContractDetailsView {
        ContractDetailsView {
            network: self.network@,
            setup: self.setup@,
            start_block: self.start_block,
            end_block: self.end_block,
            polling_every: self.polling_every,
        }
    }
}

/// The views of a sequence of bindings.
pub open spec fn details_views(details: Seq<ContractDetails>) -> Seq<ContractDetailsView> {
    details.map_values(|binding: ContractDetails| binding@)
}

impl ContractDetails {
    /// How the binding finds its contract.
    pub fn indexing_contract_setup(&self) -> (setup: &IndexingContractSetup)
        ensures
            *setup == self.setup,
    {
        &self.setup
    }

    /// The address that the binding names, if it names one: the contract's
    /// address, or the factory's address. A filter names none.
    pub fn address(&self) -> (r: Option<&str>)
        ensures
            match r {
                Some(address) => self@.setup.address() == Some(address@),
                None => self@.setup.address() is None,
            },
    {
        match &self.setup {
            IndexingContractSetup::Address(address) => Some(address.as_str()),
            IndexingContractSetup::Factory(factory) => Some(factory.address.as_str()),
            IndexingContractSetup::Filter(_) => None,
        }
    }

    pub fn new_with_address(
        network: String,
        address: String,
        start_block: Option<u64>,
        end_block: Option<u64>,
        polling_every: Option<u64>,
    ) -> (r: Self)
        ensures
            r@ == (ContractDetailsView {
                network: network@,
                setup: IndexingContractSetupView::Address(address@),
                start_block,
                end_block,
                polling_every,
            }),
    {
        Self {
            network,
            setup: IndexingContractSetup::Address(address),
            start_block,
            end_block,
            polling_every,
        }
    }

    pub fn new_with_filter(
        network: String,
        filter: FilterDetails,
        start_block: Option<u64>,
        end_block: Option<u64>,
        polling_every: Option<u64>,
    ) -> (r: Self)
        ensures
            r@ == (ContractDetailsView {
                network: network@,
                setup: IndexingContractSetupView::Filter(filter@),
                start_block,
                end_block,
                polling_every,
            }),
    {
        Self {
            network,
            setup: IndexingContractSetup::Filter(filter),
            start_block,
            end_block,
            polling_every,
        }
    }

    pub fn new_with_factory(
        network: String,
        factory: FactoryDetails,
        start_block: Option<u64>,
        end_block: Option<u64>,
        polling_every: Option<u64>,
    ) -> (r: Self)
        ensures
            r@ == (ContractDetailsView {
                network: network@,
                setup: IndexingContractSetupView::Factory(factory@),
                start_block,
                end_block,
                polling_every,
            }),
    {
        Self {
            network,
            setup: IndexingContractSetup::Factory(factory),
            start_block,
            end_block,
            polling_every,
        }
    }

    /// Builds a binding from the three optional entries of a description, of
    /// which exactly one must be given. `None` where none or several are.
    pub fn from_entries(
        network: String,
        address: Option<String>,
        filter: Option<FilterDetails>,
        factory: Option<FactoryDetails>,
        start_block: Option<u64>,
        end_block: Option<u64>,
        polling_every: Option<u64>,
    ) -> (r: Option<Self>)
        ensures
            r is Some <==> ((address is Some && filter is None && factory is None) || (address is None
                && filter is Some && factory is None) || (address is None && filter is None
                && factory is Some)),
            r matches Some(details) ==> {
                &&& details@.network == network@
                &&& details@.start_block == start_block
                &&& details@.end_block == end_block
                &&& details@.polling_every == polling_every
                &&& address matches Some(a) ==> details@.setup
                    == IndexingContractSetupView::Address(a@)
                &&& filter matches Some(f) ==> details@.setup == IndexingContractSetupView::Filter(
                    f@,
                )
                &&& factory matches Some(f) ==> details@.setup
                    == IndexingContractSetupView::Factory(f@)
            },
    {
        match (address, filter, factory) {
            (Some(a), None, None) => Some(
                Self::new_with_address(network, a, start_block, end_block, polling_every),
            ),
            (None, Some(f), None) => Some(
                Self::new_with_filter(network, f, start_block, end_block, polling_every),
            ),
            (None, None, Some(f)) => Some(
                Self::new_with_factory(network, f, start_block, end_block, polling_every),
            ),
            _ => None,
        }
    }
}

/// One watched contract.
#[derive(Debug, Clone, PartialEq, Eq)]
pub struct Contract {
    pub name: String,
    pub details: Vec<ContractDetails>,
    pub abi: String,
    pub include_events: Option<Vec<String>>,
    pub reorg_safe_distance: bool,
    pub generate_csv: bool,
}

/// The mathematical content of a [`Contract`].
pub struct ContractView {
    pub name: Seq<char>,
    pub details: Seq<ContractDetailsView>,
    pub abi: Seq<char>,
    pub include_events: Option<Seq<Seq<char>>>,
    pub reorg_safe_distance: bool,
    pub generate_csv: bool,
}

impl View for Contract {
    type V = ContractView;

    open spec fn view(&self) -> ContractView {
        ContractView {
            name: self.name@,
            details: details_views(self.details@),
            abi: self.abi@,
            include_events: optional_texts(self.include_events),
            reorg_safe_distance: self.reorg_safe_distance,
            generate_csv: self.generate_csv,
        }
    }
}

/// The views of a sequence of contracts.
pub open spec fn contract_views(contracts: Seq<Contract>) -> Seq<ContractView> {
    contracts.map_values(|contract: Contract| contract@)
}

impl Contract {
    /// Replaces the contract's name and nothing else.
    pub fn override_name(&mut self, name: String)
        ensures
            final(self)@ == (ContractView { name: name@, ..old(self)@ }),
    {
        self.name = name;
    }
}

/// The value of `reorg_safe_distance` where a description leaves it out.
pub fn default_reorg_safe_distance() -> (r: bool)
    ensures
        !r,
{
    false
}

/// The value of `generate_csv` where a description leaves it out.
pub fn default_generate_csv() -> (r: bool)
    ensures
        !r,
{
    false
}

/// One network that contracts are watched on.
#[derive(Debug, Clone, PartialEq, Eq)]
pub struct Network {
    pub name: String,
    pub chain_id: u32,
    pub url: String,
    pub max_block_range: Option<u64>,
    pub max_concurrency: Option<u32>,
}

/// The mathematical content of a [`Network`].
pub struct NetworkView {
    pub name: Seq<char>,
    pub chain_id: u32,
    pub url: Seq<char>,
    pub max_block_range: Option<u64>,
    pub max_concurrency: Option<u32>,
}

impl View for Network {
    type V = NetworkView;

    open spec fn view(&self) -> NetworkView {
        NetworkView {
            name: self.name@,
            chain_id: self.chain_id,
            url: self.url@,
            max_block_range: self.max_block_range,
            max_concurrency: self.max_concurrency,
        }
    }
}

/// The views of a sequence of networks.
pub open spec fn network_views(networks: Seq<Network>) -> Seq<NetworkView> {
    networks.map_values(|network: Network| network@)
}

/// How the database is reached.
#[derive(Debug, Clone, PartialEq, Eq)]
pub struct PostgresClient {
    pub name: String,
    pub user: String,
    pub password: String,
    pub host: String,
    pub port: String,
}

/// The mathematical content of a [`PostgresClient`].
pub struct PostgresClientView {
    pub name: Seq<char>,
    pub user: Seq<char>,
    pub password: Seq<char>,
    pub host: Seq<char>,
    pub port: Seq<char>,
}

impl View for PostgresClient {
    type V = PostgresClientView;

    open spec fn view(&self) -> PostgresClientView {
        PostgresClientView {
            name: self.name@,
            user: self.user@,
            password: self.password@,
            host: self.host@,
            port: self.port@,
        }
    }
}

/// The databases that a project names.
#[derive(Debug, Clone, PartialEq, Eq)]
pub struct Databases {
    pub postgres: Option<PostgresClient>,
}

/// The mathematical content of a [`Databases`].
pub struct DatabasesView {
    pub postgres: Option<PostgresClientView>,
}

impl View for Databases {
    type V = DatabasesView;

    open spec fn view(&self) -> DatabasesView {
        DatabasesView {
            postgres: match self.postgres {
                Some(postgres) => Some(postgres@),
                None => None,
            },
        }
    }
}

/// What all indexers of a project share.
#[derive(Debug, Clone, PartialEq, Eq)]
pub struct Global {
    pub contracts: Option<Vec<Contract>>,
    pub databases: Option<Databases>,
}

/// The mathematical content of a [`Global`].
pub struct GlobalView {
    pub contracts: Option<Seq<ContractView>>,
    pub databases: Option<DatabasesView>,
}

impl View for Global {
    type V = GlobalView;

    open spec fn view(&self) -> GlobalView {
        GlobalView {
            contracts: match self.contracts {
                Some(contracts) => Some(contract_views(contracts@)),
                None => None,
            },
            databases: match self.databases {
                Some(databases) => Some(databases@),
                None => None,
            },
        }
    }
}

/// What is set for storing rows in the database.
#[derive(Debug, Clone, Copy, PartialEq, Eq)]
pub struct PostgresStorage {
    /// `Some(true)` where the tables are not to be created at startup.
    pub disable_create_tables: Option<bool>,
}

/// Where rows are stored.
#[derive(Debug, Clone, Copy, PartialEq, Eq)]
pub struct Storage {
    pub postgres: Option<PostgresStorage>,
}

impl Storage {
    /// Whether the description says outright that no tables are to be created.
    pub open spec fn create_tables_disabled(&self) -> bool {
        self.postgres matches Some(postgres) && postgres.disable_create_tables == Some(true)
    }

    pub fn postgres_disable_create_tables(&self) -> (r: bool)
        ensures
            r == self.create_tables_disabled(),
    {
        match &self.postgres {
            Some(postgres) => match postgres.disable_create_tables {
                Some(disabled) => disabled,
                None => false,
            },
            None => false,
        }
    }
}


/// The position of the first `}` at or after `from`, or the length of the
/// text where there is none.
pub open spec fn closing_brace(text: Seq<char>, from: int) -> int
    decreases text.len() - from,
{
    if from < 0 || from >= text.len() {
        text.len() as int
    } else if text[from] == '}' {
        from
    } else {
        closing_brace(text, from + 1)
    }
}

pub proof fn lemma_closing_brace_bounds(text: Seq<char>, from: int)
    requires
        0 <= from <= text.len(),
    ensures
        from <= closing_brace(text, from) <= text.len(),
        closing_brace(text, from) < text.len() ==> text[closing_brace(text, from)] == '}',
        forall|i: int| from <= i < closing_brace(text, from) ==> text[i] != '}',
    decreases text.len() - from,
{
    if from < text.len() && text[from] != '}' {
        lemma_closing_brace_bounds(text, from + 1);
    }
}

/// Whether a reference to a variable begins at `from`: `${`, then a name of
/// at least one character, none of them `}`, then `}`.
pub open spec fn reference_at(text: Seq<char>, from: int) -> bool {
    &&& 0 <= from
    &&& from + 2 < text.len()
    &&& text[from] == '$'
    &&& text[from + 1] == '{'
    &&& text[from + 2] != '}'
    &&& closing_brace(text, from + 2) < text.len()
}

/// The value of the first variable of that name, or the name itself where no
/// variable has it.
pub open spec fn variable_value(variables: Seq<(Seq<char>, Seq<char>)>, name: Seq<char>) -> Seq<
    char,
>
    decreases variables.len(),
{
    if variables.len() == 0 {
        name
    } else if variables[0].0 == name {
        variables[0].1
    } else {
        variable_value(variables.drop_first(), name)
    }
}

/// The variables as pairs of texts: a name and its value.
pub open spec fn variable_views(variables: Seq<(String, String)>) -> Seq<(Seq<char>, Seq<char>)> {
    variables.map_values(|variable: (String, String)| (variable.0@, variable.1@))
}

/// The text from `from` on with each reference replaced by the value of its
/// variable, read from left to right.
pub open spec fn substitute_from(
    text: Seq<char>,
    variables: Seq<(Seq<char>, Seq<char>)>,
    from: int,
) -> Seq<char>
    decreases text.len() - from,
{
    if from < 0 || from >= text.len() {
        Seq::empty()
    } else if reference_at(text, from) {
        let end = closing_brace(text, from + 2);
        proof {
            lemma_closing_brace_bounds(text, from + 2);
        }
        variable_value(variables, text.subrange(from + 2, end)) + substitute_from(
            text,
            variables,
            end + 1,
        )
    } else {
        seq![text[from]] + substitute_from(text, variables, from + 1)
    }
}

fn find_closing_brace(text: &Vec<char>, from: usize) -> (end: usize)
    requires
        from <= text.len(),
    ensures
        end == closing_brace(text@, from as int),
        from <= end <= text.len(),
{
    let mut end = from;
    while end < text.len() && text[end] != '}'
        invariant
            from <= end <= text.len(),
            closing_brace(text@, end as int) == closing_brace(text@, from as int),
        decreases text.len() - end,
    {
        end += 1;
    }
    end
}

fn lookup_variable(variables: &Vec<(String, String)>, name: String) -> (value: String)
    ensures
        value@ == variable_value(variable_views(variables@), name@),
{
    let ghost all = variable_views(variables@);
    let mut i: usize = 0;
    assert(all.skip(0) =~= all);
    while i < variables.len()
        invariant
            i <= variables.len(),
            all == variable_views(variables@),
            variable_value(all, name@) == variable_value(all.skip(i as int), name@),
        decreases variables.len() - i,
    {
        proof {
            assert(all.skip(i as int).drop_first() =~= all.skip(i + 1));
            assert(all.skip(i as int)[0] == (variables@[i as int].0@, variables@[i as int].1@));
        }
        if text_eq(variables[i].0.as_str(), name.as_str()) {
            return variables[i].1.clone();
        }
        i += 1;
    }
    assert(all.skip(variables.len() as int).len() == 0);
    name
}

/// Replaces each `${NAME}` in a text by the value of the variable `NAME`,
/// and by `NAME` alone where no such variable is given. The text is read
/// from left to right; a name is everything up to the next `}` and is never
/// empty.
pub fn substitute_env_variables(contents: &str, variables: &Vec<(String, String)>) -> (r: String)
    ensures
        r@ == substitute_from(contents@, variable_views(variables@), 0),
{
    let text = chars_of(contents);
    let ghost all = variable_views(variables@);
    let mut out = String::new();
    let mut i: usize = 0;
    assert(out@ + substitute_from(text@, all, 0) =~= substitute_from(text@, all, 0));
    while i < text.len()
        invariant
            i <= text.len(),
            text@ == contents@,
            all == variable_views(variables@),
            out@ + substitute_from(text@, all, i as int) == substitute_from(text@, all, 0),
        decreases text.len() - i,
    {
        let ghost before = out@;
        let mut replaced = false;
        if text.len() - i > 2 && text[i] == '$' && text[i + 1] == '{' && text[i + 2] != '}' {
            let end = find_closing_brace(&text, i + 2);
            if end < text.len() {
                let name = string_of(&text, i + 2, end);
                let value = lookup_variable(variables, name);
                out.append(value.as_str());
                assert(out@ + substitute_from(text@, all, end + 1) =~= before + substitute_from(
                    text@,
                    all,
                    i as int,
                ));
                i = end + 1;
                replaced = true;
            }
        }
        if !replaced {
            push_char(&mut out, text[i]);
            assert(out@ + substitute_from(text@, all, i + 1) =~= before + substitute_from(
                text@,
                all,
                i as int,
            ));
            i += 1;
        }
    }
    assert(out@ + Seq::<char>::empty() =~= out@);
    out
}

} // verus!
