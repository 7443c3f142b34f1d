use rindexer_core::database::postgres::{
    create_tables_for_indexer_sql, drop_tables_for_indexer_sql, generate_columns_names_only,
    generate_columns_with_data_types, generate_event_table_sql, generate_injected_param,
    generate_internal_event_table_sql, generated_insert_query_for_event,
    indexer_contract_schema_name, setup_postgres_sql, SchemaError, UnsupportedType,
};
use rindexer_core::database::sql_type_wrapper::EthereumSqlTypeKind;
use rindexer_core::generator::event_callback_registry::FilterDetails;
use rindexer_core::generator::filters::ConfigurationError;
use rindexer_core::generator::{
    generate_abi_name_properties, ABIInput, EventInfo, GenerateAbiNamePropertiesResult,
    GenerateAbiPropertiesType,
};
use rindexer_core::manifest::yaml::{
    Contract, ContractDetails, Indexer, Manifest, PostgresStorage, Storage,
};

fn input(name: &str, type_: &str) -> ABIInput {
    ABIInput { indexed: None, name: name.to_string(), type_: type_.to_string() }
}

fn event(name: &str, inputs: Vec<ABIInput>) -> EventInfo {
    EventInfo { name: name.to_string(), inputs, signature: String::new() }
}

fn transfer() -> EventInfo {
    event(
        "Transfer",
        vec![input("from", "address"), input("to", "address"), input("value", "uint256")],
    )
}

fn approval() -> EventInfo {
    event(
        "ApprovalForAll",
        vec![input("tokenOwner", "address"), input("ids", "uint64[]"), input("approved", "bool")],
    )
}

fn at_address(network: &str) -> ContractDetails {
    ContractDetails::new_with_address(
        network.to_string(),
        "0xAA00000000000000000000000000000000000000".to_string(),
        None,
        None,
        None,
    )
}

fn by_filter(network: &str) -> ContractDetails {
    ContractDetails::new_with_filter(
        network.to_string(),
        FilterDetails {
            event_name: "Transfer".to_string(),
            indexed_1: None,
            indexed_2: None,
            indexed_3: None,
        },
        None,
        None,
        None,
    )
}

fn contract(name: &str, details: Vec<ContractDetails>) -> Contract {
    Contract {
        name: name.to_string(),
        details,
        abi: "abi.json".to_string(),
        include_events: None,
        reorg_safe_distance: false,
        generate_csv: false,
    }
}

fn token_indexer() -> Indexer {
    Indexer {
        name: "MyIndexer".to_string(),
        contracts: vec![contract("Token", vec![at_address("mainnet")])],
    }
}

fn manifest(indexers: Vec<Indexer>, disable: Option<bool>) -> Manifest {
    Manifest {
        name: "project".to_string(),
        description: None,
        repository: None,
        indexers,
        networks: vec![],
        global: None,
        storage: Storage { postgres: Some(PostgresStorage { disable_create_tables: disable }) },
    }
}

fn unsupported(abi_type: &str) -> UnsupportedType {
    UnsupportedType { abi_type: abi_type.to_string() }
}

const TRANSFER_TABLE: &str = "CREATE TABLE IF NOT EXISTS my_indexer_token.transfer (rindexer_id SERIAL PRIMARY KEY, contract_address CHAR(66), \"from\" CHAR(42), \"to\" CHAR(42), \"value\" VARCHAR(78), tx_hash CHAR(66), block_number NUMERIC, block_hash CHAR(66));";

const TRANSFER_CHECKPOINT: &str = "CREATE TABLE IF NOT EXISTS rindexer_internal.my_indexer_token_transfer (\"network\" TEXT PRIMARY KEY, \"last_synced_block\" NUMERIC);\nINSERT INTO rindexer_internal.my_indexer_token_transfer (\"network\", \"last_synced_block\") VALUES ('mainnet', 0) ON CONFLICT (\"network\") DO NOTHING;";

#[test]
fn the_token_contract_gets_its_table_and_its_seeded_checkpoint() {
    let sql = create_tables_for_indexer_sql(&token_indexer(), &vec![Some(vec![transfer()])]);
    let expected = format!(
        "{}{}{}{}",
        "CREATE SCHEMA IF NOT EXISTS rindexer_internal;",
        "CREATE SCHEMA IF NOT EXISTS my_indexer_token;",
        TRANSFER_TABLE,
        TRANSFER_CHECKPOINT
    );
    assert_eq!(sql, Ok(expected));
}

#[test]
fn tables_and_checkpoints_come_event_by_event() {
    let sql = create_tables_for_indexer_sql(&token_indexer(), &vec![Some(vec![transfer(), approval()])]);
    let approval_table = "CREATE TABLE IF NOT EXISTS my_indexer_token.approval_for_all (rindexer_id SERIAL PRIMARY KEY, contract_address CHAR(66), \"token_owner\" CHAR(42), \"ids\" NUMERIC[], \"approved\" BOOLEAN, tx_hash CHAR(66), block_number NUMERIC, block_hash CHAR(66));";
    let approval_checkpoint = "CREATE TABLE IF NOT EXISTS rindexer_internal.my_indexer_token_approval_for_all (\"network\" TEXT PRIMARY KEY, \"last_synced_block\" NUMERIC);\nINSERT INTO rindexer_internal.my_indexer_token_approval_for_all (\"network\", \"last_synced_block\") VALUES ('mainnet', 0) ON CONFLICT (\"network\") DO NOTHING;";
    let expected = format!(
        "{}{}{}{}\n{}{}",
        "CREATE SCHEMA IF NOT EXISTS rindexer_internal;",
        "CREATE SCHEMA IF NOT EXISTS my_indexer_token;",
        TRANSFER_TABLE,
        TRANSFER_CHECKPOINT,
        approval_table,
        approval_checkpoint
    );
    assert_eq!(sql, Ok(expected));
}

#[test]
fn a_contract_without_networks_seeds_nothing() {
    let indexer = Indexer { name: "I".to_string(), contracts: vec![contract("C", vec![])] };
    let e = event("E", vec![input("x", "bool")]);
    let f = event("F", vec![input("y", "string")]);
    let sql = create_tables_for_indexer_sql(&indexer, &vec![Some(vec![e, f])]);
    let expected = "CREATE SCHEMA IF NOT EXISTS rindexer_internal;\
CREATE SCHEMA IF NOT EXISTS i_c;\
CREATE TABLE IF NOT EXISTS i_c.e (rindexer_id SERIAL PRIMARY KEY, contract_address CHAR(66), \"x\" BOOLEAN, tx_hash CHAR(66), block_number NUMERIC, block_hash CHAR(66));\
CREATE TABLE IF NOT EXISTS rindexer_internal.i_c_e (\"network\" TEXT PRIMARY KEY, \"last_synced_block\" NUMERIC);\n\n\
CREATE TABLE IF NOT EXISTS i_c.f (rindexer_id SERIAL PRIMARY KEY, contract_address CHAR(66), \"y\" TEXT, tx_hash CHAR(66), block_number NUMERIC, block_hash CHAR(66));\
CREATE TABLE IF NOT EXISTS rindexer_internal.i_c_f (\"network\" TEXT PRIMARY KEY, \"last_synced_block\" NUMERIC);\n";
    assert_eq!(sql, Ok(expected.to_string()));
}

#[test]
fn schema_text_is_the_same_each_time() {
    let events = vec![Some(vec![transfer(), approval()])];
    let first = create_tables_for_indexer_sql(&token_indexer(), &events);
    let second = create_tables_for_indexer_sql(&token_indexer(), &events);
    assert_eq!(first, second);
    let sql = first.unwrap();
    assert_eq!(sql.matches("CREATE SCHEMA IF NOT EXISTS ").count(), 2);
    assert_eq!(sql.matches("CREATE TABLE IF NOT EXISTS ").count(), 4);
    assert_eq!(sql.matches("CREATE ").count(), 6);
    assert_eq!(sql.matches("INSERT INTO ").count(), 2);
    assert_eq!(sql.matches(" ON CONFLICT (\"network\") DO NOTHING;").count(), 2);
}

#[test]
fn columns_with_data_types() {
    assert_eq!(
        generate_columns_with_data_types(&transfer().inputs),
        Ok(vec![
            "\"from\" CHAR(42)".to_string(),
            "\"to\" CHAR(42)".to_string(),
            "\"value\" VARCHAR(78)".to_string()
        ])
    );
    assert_eq!(
        generate_columns_with_data_types(&approval().inputs),
        Ok(vec![
            "\"token_owner\" CHAR(42)".to_string(),
            "\"ids\" NUMERIC[]".to_string(),
            "\"approved\" BOOLEAN".to_string()
        ])
    );
    assert_eq!(generate_columns_with_data_types(&vec![]), Ok(vec![]));
}

#[test]
fn the_first_unsupported_type_is_the_error() {
    let inputs = vec![
        input("a", "address"),
        input("b", "tuple"),
        input("c", "uint256[][]"),
    ];
    assert_eq!(generate_columns_with_data_types(&inputs), Err(unsupported("tuple")));
    assert_eq!(
        generate_event_table_sql(&vec![transfer(), event("Bad", inputs.clone())], "s"),
        Err(unsupported("tuple"))
    );
    let indexer = Indexer {
        name: "I".to_string(),
        contracts: vec![
            contract("A", vec![at_address("mainnet")]),
            contract("B", vec![at_address("mainnet")]),
        ],
    };
    let events = vec![
        Some(vec![transfer()]),
        Some(vec![event("Bad", vec![input("c", "uint256[][]"), input("b", "tuple")])]),
    ];
    assert_eq!(
        create_tables_for_indexer_sql(&indexer, &events),
        Err(SchemaError::UnsupportedType(unsupported("uint256[][]")))
    );
}

#[test]
fn column_names_alone_never_fail() {
    assert_eq!(
        generate_columns_names_only(&transfer().inputs),
        vec!["\"from\"".to_string(), "\"to\"".to_string(), "\"value\"".to_string()]
    );
    assert_eq!(
        generate_columns_names_only(&vec![input("someTuple", "tuple")]),
        vec!["\"some_tuple\"".to_string()]
    );
    let none: Vec<String> = vec![];
    assert_eq!(generate_columns_names_only(&vec![]), none);
}

#[test]
fn properties_of_inputs() {
    let inputs = vec![input("tokenId", "uint256"), input("data", "tuple")];
    assert_eq!(
        generate_abi_name_properties(
            &inputs,
            &GenerateAbiPropertiesType::PostgresColumnsNamesOnly,
            None
        ),
        Ok(vec![
            GenerateAbiNamePropertiesResult {
                value: "\"token_id\"".to_string(),
                abi_type: "uint256".to_string(),
                abi_name: "tokenId".to_string(),
                ethereum_sql_type_wrapper: Some(EthereumSqlTypeKind::U256),
            },
            GenerateAbiNamePropertiesResult {
                value: "\"data\"".to_string(),
                abi_type: "tuple".to_string(),
                abi_name: "data".to_string(),
                ethereum_sql_type_wrapper: None,
            },
        ])
    );
    assert_eq!(
        generate_abi_name_properties(
            &inputs,
            &GenerateAbiPropertiesType::PostgresWithDataTypes,
            None
        ),
        Err(unsupported("tuple"))
    );
    assert_eq!(
        generate_abi_name_properties(
            &vec![input("tokenId", "uint256")],
            &GenerateAbiPropertiesType::PostgresWithDataTypes,
            Some("order")
        ),
        Ok(vec![GenerateAbiNamePropertiesResult {
            value: "\"order_token_id\" VARCHAR(78)".to_string(),
            abi_type: "uint256".to_string(),
            abi_name: "tokenId".to_string(),
            ethereum_sql_type_wrapper: Some(EthereumSqlTypeKind::U256),
        }])
    );
}

#[test]
fn schema_name_joins_the_two_snake_case_names() {
    assert_eq!(indexer_contract_schema_name("MyIndexer", "Token"), "my_indexer_token");
    assert_eq!(indexer_contract_schema_name("lensRegistry", "TokenFilter"), "lens_registry_token_filter");
    assert_eq!(indexer_contract_schema_name("", ""), "_");
}

#[test]
fn event_tables_one_per_line() {
    assert_eq!(generate_event_table_sql(&vec![], "s"), Ok(String::new()));
    assert_eq!(
        generate_event_table_sql(&vec![transfer()], "my_indexer_token"),
        Ok(TRANSFER_TABLE.to_string())
    );
    let two = generate_event_table_sql(&vec![transfer(), approval()], "my_indexer_token");
    let approval_table = "CREATE TABLE IF NOT EXISTS my_indexer_token.approval_for_all (rindexer_id SERIAL PRIMARY KEY, contract_address CHAR(66), \"token_owner\" CHAR(42), \"ids\" NUMERIC[], \"approved\" BOOLEAN, tx_hash CHAR(66), block_number NUMERIC, block_hash CHAR(66));";
    assert_eq!(two, Ok(format!("{}\n{}", TRANSFER_TABLE, approval_table)));
}

#[test]
fn checkpoint_tables_are_seeded_once_per_network() {
    assert_eq!(
        generate_internal_event_table_sql(
            &vec![transfer()],
            "my_indexer_token",
            vec!["mainnet".to_string()]
        ),
        TRANSFER_CHECKPOINT
    );
    let two = generate_internal_event_table_sql(
        &vec![transfer(), approval()],
        "s",
        vec!["mainnet".to_string(), "base".to_string()],
    );
    let expected = "CREATE TABLE IF NOT EXISTS rindexer_internal.s_transfer (\"network\" TEXT PRIMARY KEY, \"last_synced_block\" NUMERIC);\n\
INSERT INTO rindexer_internal.s_transfer (\"network\", \"last_synced_block\") VALUES ('mainnet', 0) ON CONFLICT (\"network\") DO NOTHING;\n\
INSERT INTO rindexer_internal.s_transfer (\"network\", \"last_synced_block\") VALUES ('base', 0) ON CONFLICT (\"network\") DO NOTHING;\n\
CREATE TABLE IF NOT EXISTS rindexer_internal.s_approval_for_all (\"network\" TEXT PRIMARY KEY, \"last_synced_block\" NUMERIC);\n\
INSERT INTO rindexer_internal.s_approval_for_all (\"network\", \"last_synced_block\") VALUES ('mainnet', 0) ON CONFLICT (\"network\") DO NOTHING;\n\
INSERT INTO rindexer_internal.s_approval_for_all (\"network\", \"last_synced_block\") VALUES ('base', 0) ON CONFLICT (\"network\") DO NOTHING;";
    assert_eq!(two, expected);
    assert_eq!(
        generate_internal_event_table_sql(&vec![transfer()], "s", vec![]),
        "CREATE TABLE IF NOT EXISTS rindexer_internal.s_transfer (\"network\" TEXT PRIMARY KEY, \"last_synced_block\" NUMERIC);\n"
    );
    assert_eq!(generate_internal_event_table_sql(&vec![], "s", vec!["mainnet".to_string()]), "");
}

#[test]
fn a_contract_whose_events_were_not_loaded_is_an_error() {
    let not_loaded = Err(SchemaError::EventsNotLoaded("Token".to_string()));
    assert_eq!(create_tables_for_indexer_sql(&token_indexer(), &vec![None]), not_loaded);
    assert_eq!(create_tables_for_indexer_sql(&token_indexer(), &vec![]), not_loaded);
    let indexer = Indexer {
        name: "MyIndexer".to_string(),
        contracts: vec![
            contract("Token", vec![at_address("mainnet")]),
            contract("Pool", vec![at_address("mainnet")]),
            contract("Vault", vec![at_address("mainnet")]),
        ],
    };
    assert_eq!(
        create_tables_for_indexer_sql(&indexer, &vec![Some(vec![transfer()]), None, None]),
        Err(SchemaError::EventsNotLoaded("Pool".to_string()))
    );
    assert_eq!(
        create_tables_for_indexer_sql(&indexer, &vec![Some(vec![transfer()]), Some(vec![])]),
        Err(SchemaError::EventsNotLoaded("Vault".to_string()))
    );
    assert_eq!(
        SchemaError::EventsNotLoaded("Pool".to_string()).message(),
        "No events were loaded for contract Pool"
    );
}

#[test]
fn an_indexer_without_contracts_and_a_contract_without_events() {
    let only_internal = Ok("CREATE SCHEMA IF NOT EXISTS rindexer_internal;".to_string());
    let empty = Indexer { name: "MyIndexer".to_string(), contracts: vec![] };
    assert_eq!(create_tables_for_indexer_sql(&empty, &vec![Some(vec![transfer()])]), only_internal);
    assert_eq!(create_tables_for_indexer_sql(&empty, &vec![]), only_internal);
    assert_eq!(
        create_tables_for_indexer_sql(&token_indexer(), &vec![Some(vec![])]),
        Ok("CREATE SCHEMA IF NOT EXISTS rindexer_internal;CREATE SCHEMA IF NOT EXISTS my_indexer_token;".to_string())
    );
}

#[test]
fn a_contract_found_by_filter_has_a_schema_of_its_own() {
    let indexer = Indexer {
        name: "MyIndexer".to_string(),
        contracts: vec![
            contract("Token", vec![at_address("mainnet")]),
            contract("Token", vec![by_filter("mainnet"), by_filter("base")]),
        ],
    };
    let sql =
        create_tables_for_indexer_sql(&indexer, &vec![Some(vec![]), Some(vec![transfer()])])
            .unwrap();
    let expected = "CREATE SCHEMA IF NOT EXISTS rindexer_internal;\
CREATE SCHEMA IF NOT EXISTS my_indexer_token;\
CREATE SCHEMA IF NOT EXISTS my_indexer_token_filter;\
CREATE TABLE IF NOT EXISTS my_indexer_token_filter.transfer (rindexer_id SERIAL PRIMARY KEY, contract_address CHAR(66), \"from\" CHAR(42), \"to\" CHAR(42), \"value\" VARCHAR(78), tx_hash CHAR(66), block_number NUMERIC, block_hash CHAR(66));\
CREATE TABLE IF NOT EXISTS rindexer_internal.my_indexer_token_filter_transfer (\"network\" TEXT PRIMARY KEY, \"last_synced_block\" NUMERIC);\n\
INSERT INTO rindexer_internal.my_indexer_token_filter_transfer (\"network\", \"last_synced_block\") VALUES ('mainnet', 0) ON CONFLICT (\"network\") DO NOTHING;\n\
INSERT INTO rindexer_internal.my_indexer_token_filter_transfer (\"network\", \"last_synced_block\") VALUES ('base', 0) ON CONFLICT (\"network\") DO NOTHING;";
    assert_eq!(sql, expected);
    assert_eq!(
        drop_tables_for_indexer_sql(&indexer),
        Ok("DROP SCHEMA IF EXISTS rindexer_internal CASCADE;DROP SCHEMA IF EXISTS my_indexer_token CASCADE;DROP SCHEMA IF EXISTS my_indexer_token_filter CASCADE;".to_string())
    );
}

#[test]
fn mixed_discovery_modes_stop_the_generation() {
    let indexer = Indexer {
        name: "MyIndexer".to_string(),
        contracts: vec![
            contract("Token", vec![at_address("mainnet")]),
            contract("Mixed", vec![at_address("mainnet"), by_filter("base")]),
        ],
    };
    let mixed = ConfigurationError::MixedDiscoveryModes("Mixed".to_string());
    assert_eq!(
        create_tables_for_indexer_sql(&indexer, &vec![Some(vec![transfer()]), None]),
        Err(SchemaError::Configuration(mixed.clone()))
    );
    assert_eq!(drop_tables_for_indexer_sql(&indexer), Err(mixed));
}

#[test]
fn drop_text_of_an_indexer() {
    assert_eq!(
        drop_tables_for_indexer_sql(&token_indexer()),
        Ok("DROP SCHEMA IF EXISTS rindexer_internal CASCADE;DROP SCHEMA IF EXISTS my_indexer_token CASCADE;".to_string())
    );
    let empty = Indexer { name: "MyIndexer".to_string(), contracts: vec![] };
    assert_eq!(
        drop_tables_for_indexer_sql(&empty),
        Ok("DROP SCHEMA IF EXISTS rindexer_internal CASCADE;".to_string())
    );
}

#[test]
fn placeholders_are_numbered_from_one_without_a_gap() {
    assert_eq!(generate_injected_param(0), "VALUES()");
    assert_eq!(generate_injected_param(1), "VALUES($1)");
    assert_eq!(generate_injected_param(3), "VALUES($1, $2, $3)");
    assert_eq!(
        generate_injected_param(12),
        "VALUES($1, $2, $3, $4, $5, $6, $7, $8, $9, $10, $11, $12)"
    );
}

#[test]
fn insert_statement_has_one_placeholder_per_column() {
    assert_eq!(
        generated_insert_query_for_event(&transfer(), "MyIndexer", "Token"),
        "INSERT INTO my_indexer_token.transfer (contract_address, \"from\", \"to\", \"value\", \"tx_hash\", \"block_number\", \"block_hash\") VALUES($1, $2, $3, $4, $5, $6, $7)"
    );
    for count in [0usize, 1, 2, 5, 9, 20] {
        let inputs: Vec<ABIInput> =
            (0..count).map(|i| input(&format!("p{}", i), "uint256")).collect();
        let sql = generated_insert_query_for_event(&event("E", inputs), "I", "C");
        let values = &sql[sql.find("VALUES(").unwrap()..];
        assert_eq!(values.matches('$').count(), 1 + count + 3);
        assert_eq!(values, generate_injected_param(4 + count));
        for n in 1..=(count + 4) {
            assert!(values.contains(&format!("${}", n)));
        }
        assert!(!values.contains(&format!("${}", count + 5)));
    }
}

#[test]
fn setup_runs_one_text_per_indexer_unless_disabled() {
    let events = vec![vec![Some(vec![transfer()])]];
    let on = manifest(vec![token_indexer()], None);
    assert_eq!(
        setup_postgres_sql(&on, &events),
        Ok(vec![create_tables_for_indexer_sql(&token_indexer(), &events[0]).unwrap()])
    );
    let off = manifest(vec![token_indexer()], Some(true));
    assert_eq!(setup_postgres_sql(&off, &events), Ok(vec![]));
    let still_on = manifest(vec![token_indexer()], Some(false));
    assert_eq!(setup_postgres_sql(&still_on, &events).unwrap().len(), 1);

    let two = manifest(vec![token_indexer(), token_indexer()], None);
    assert_eq!(
        setup_postgres_sql(&two, &events),
        Err(SchemaError::EventsNotLoaded("Token".to_string()))
    );
    let both = vec![vec![Some(vec![transfer()])], vec![Some(vec![approval()])]];
    assert_eq!(
        setup_postgres_sql(&two, &both),
        Ok(vec![
            create_tables_for_indexer_sql(&token_indexer(), &both[0]).unwrap(),
            create_tables_for_indexer_sql(&token_indexer(), &both[1]).unwrap(),
        ])
    );
    let unread = vec![vec![Some(vec![transfer()])], vec![None]];
    assert_eq!(
        setup_postgres_sql(&two, &unread),
        Err(SchemaError::EventsNotLoaded("Token".to_string()))
    );
    let bad = vec![vec![Some(vec![event("E", vec![input("x", "tuple")])])]];
    assert_eq!(
        setup_postgres_sql(&on, &bad),
        Err(SchemaError::UnsupportedType(unsupported("tuple")))
    );
    assert_eq!(setup_postgres_sql(&off, &bad), Ok(vec![]));
}

#[test]
fn schema_errors_say_what_is_wrong() {
    assert_eq!(unsupported("tuple").message(), "Unsupported type tuple");
    assert_eq!(
        SchemaError::UnsupportedType(unsupported("uint24")).message(),
        "Unsupported type uint24"
    );
    let mixed = ConfigurationError::MixedDiscoveryModes("Token".to_string());
    assert_eq!(
        mixed.message(),
        "Cannot mix and match address and filter for the same contract definition."
    );
    assert_eq!(
        SchemaError::Configuration(mixed).message(),
        "Cannot mix and match address and filter for the same contract definition."
    );
}

#[test]
fn an_event_without_inputs_has_the_fixed_columns_alone() {
    let ping = event("Ping", vec![]);
    assert_eq!(
        generated_insert_query_for_event(&ping, "MyIndexer", "Token"),
        "INSERT INTO my_indexer_token.ping (contract_address, \"tx_hash\", \"block_number\", \"block_hash\") VALUES($1, $2, $3, $4)"
    );
    assert_eq!(
        generate_event_table_sql(&vec![ping], "my_indexer_token"),
        Ok("CREATE TABLE IF NOT EXISTS my_indexer_token.ping (rindexer_id SERIAL PRIMARY KEY, contract_address CHAR(66), tx_hash CHAR(66), block_number NUMERIC, block_hash CHAR(66));".to_string())
    );
}

#[test]
fn an_event_with_one_input_has_five_columns() {
    let e = event("Paused", vec![input("account", "address")]);
    assert_eq!(
        generated_insert_query_for_event(&e, "MyIndexer", "Token"),
        "INSERT INTO my_indexer_token.paused (contract_address, \"account\", \"tx_hash\", \"block_number\", \"block_hash\") VALUES($1, $2, $3, $4, $5)"
    );
}
