//! What the schema text does to a database: the text as a list of
//! statements, a model of the database that the statements act on, and the
//! proof that running the text again changes nothing.
//!
//! The model keeps what these statements can tell apart: which schemas
//! exist, which tables with which columns, and which checkpoint rows with
//! which block. A statement that creates what exists already, or seeds a row
//! that is there, leaves the database as it is; a statement whose schema or
//! table is missing fails.

use crate::database::postgres::{
    checkpoint_table_statement_spec, columns_with_data_types_spec, contract_tables_spec,
    create_tables_spec, event_sql_spec, event_table_spec, event_table_statement_spec,
    events_entry, events_sql_spec, internal_schema_name, internal_table_name_spec,
    network_names_spec, schema_name_spec, schema_statement_spec, seed_statement_spec,
    seed_statements_spec,
};
use crate::generator::filters::effective_name_spec;
use crate::generator::EventInfoView;
use crate::helpers::{camel_to_snake_spec, join_spec};
use crate::manifest::yaml::ContractView;
use vstd::prelude::*;

verus! {

/// A line break where one is wanted, else nothing.
pub open spec fn break_if(wanted: bool) -> Seq<char> {
    if wanted {
        "\n"@
    } else {
        Seq::empty()
    }
}

/// One statement of a schema text.
pub enum SchemaStatement {
    /// Creates a schema unless it exists.
    CreateSchema { schema: Seq<char> },
    /// Creates the table of an event unless it exists.
    CreateEventTable { schema: Seq<char>, event: Seq<char>, columns: Seq<Seq<char>> },
    /// Creates the checkpoint table of an event unless it exists.
    CreateCheckpointTable { schema: Seq<char>, event: Seq<char> },
    /// Gives a network the checkpoint zero unless it has a checkpoint.
    SeedCheckpoint { schema: Seq<char>, event: Seq<char>, network: Seq<char> },
}

impl SchemaStatement {
    /// The statement's text.
    pub open spec fn text(self) -> Seq<char> {
        match self {
            SchemaStatement::CreateSchema { schema } => schema_statement_spec(schema),
            SchemaStatement::CreateEventTable { schema, event, columns } => {
                event_table_statement_spec(schema, event, columns)
            },
            SchemaStatement::CreateCheckpointTable { schema, event } => {
                checkpoint_table_statement_spec(internal_table_name_spec(schema, event))
            },
            SchemaStatement::SeedCheckpoint { schema, event, network } => seed_statement_spec(
                internal_table_name_spec(schema, event),
                network,
            ),
        }
    }

    /// What stands in the text between this statement and the next, or the
    /// end: nothing after a schema or an event table; a line break after a
    /// checkpoint table; a line break after a seed that another seed or the
    /// next event follows; and one more line break before the next event
    /// where a checkpoint table has no seed.
    pub open spec fn separator(self, next: Option<SchemaStatement>) -> Seq<char> {
        match self {
            SchemaStatement::CreateSchema { .. } => Seq::empty(),
            SchemaStatement::CreateEventTable { .. } => Seq::empty(),
            SchemaStatement::CreateCheckpointTable { .. } => "\n"@ + break_if(
                next matches Some(SchemaStatement::CreateEventTable { .. }),
            ),
            SchemaStatement::SeedCheckpoint { .. } => break_if(
                next matches Some(SchemaStatement::SeedCheckpoint { .. }) || next matches Some(
                    SchemaStatement::CreateEventTable { .. },
                ),
            ),
        }
    }
}

/// Whether a block of statements ends where `next` stands: at the end of the
/// text or before the schema of the next contract.
pub open spec fn ends_block(next: Option<SchemaStatement>) -> bool {
    next is None || next matches Some(SchemaStatement::CreateSchema { .. })
}

/// The first of the statements, or `otherwise` where there is none.
pub open spec fn first_or(
    statements: Seq<SchemaStatement>,
    otherwise: Option<SchemaStatement>,
) -> Option<SchemaStatement> {
    if statements.len() > 0 {
        Some(statements[0])
    } else {
        otherwise
    }
}

/// The text of the statements in order, each followed by its separator;
/// `next` is what follows the last of them.
pub open spec fn script_text(
    statements: Seq<SchemaStatement>,
    next: Option<SchemaStatement>,
) -> Seq<char>
    decreases statements.len(),
{
    if statements.len() == 0 {
        Seq::empty()
    } else {
        script_text(statements.drop_last(), Some(statements.last())) + statements.last().text()
            + statements.last().separator(next)
    }
}

/// The text of one statement alone.
pub proof fn lemma_script_text_single(statement: SchemaStatement, next: Option<SchemaStatement>)
    ensures
        script_text(seq![statement], next) == statement.text() + statement.separator(next),
{
    let one = seq![statement];
    assert(one.len() == 1);
    assert(one.last() == statement);
    assert(one.drop_last().len() == 0);
    assert(script_text(one.drop_last(), Some(statement)) =~= Seq::<char>::empty());
    assert(script_text(one, next) =~= statement.text() + statement.separator(next));
}

/// The text of two lists of statements in a row is the text of the first,
/// followed by the text of the second.
pub proof fn lemma_script_text_concat(
    a: Seq<SchemaStatement>,
    b: Seq<SchemaStatement>,
    next: Option<SchemaStatement>,
)
    ensures
        script_text(a + b, next) == script_text(a, first_or(b, next)) + script_text(b, next),
    decreases b.len(),
{
    if b.len() == 0 {
        assert(a + b =~= a);
    } else {
        let whole = a + b;
        assert(whole.drop_last() =~= a + b.drop_last());
        assert(whole.last() == b.last());
        lemma_script_text_concat(a, b.drop_last(), Some(b.last()));
        if b.len() == 1 {
            assert(b.drop_last() =~= Seq::<SchemaStatement>::empty());
            assert(first_or(b.drop_last(), Some(b.last())) == Some(b[0]));
        } else {
            assert(first_or(b.drop_last(), Some(b.last())) == Some(b[0]));
        }
        assert(script_text(whole, next) =~= script_text(a, first_or(b, next)) + script_text(
            b,
            next,
        ));
    }
}

/// The statement that creates the table of an event.
pub open spec fn event_table_statement(event: EventInfoView, schema: Seq<char>) -> SchemaStatement {
    SchemaStatement::CreateEventTable {
        schema,
        event: event.name,
        columns: columns_with_data_types_spec(event.inputs)->Ok_0,
    }
}

/// The statements that seed the checkpoint table of an event.
pub open spec fn seed_statements(
    schema: Seq<char>,
    event: Seq<char>,
    networks: Seq<Seq<char>>,
) -> Seq<SchemaStatement> {
    Seq::new(
        networks.len(),
        |i: int| SchemaStatement::SeedCheckpoint { schema, event, network: networks[i] },
    )
}

/// The statements of one event: its table, its checkpoint table, and the
/// seed of each network.
pub open spec fn event_statements(
    event: EventInfoView,
    schema: Seq<char>,
    networks: Seq<Seq<char>>,
) -> Seq<SchemaStatement> {
    seq![
        event_table_statement(event, schema),
        SchemaStatement::CreateCheckpointTable { schema, event: event.name },
    ] + seed_statements(schema, event.name, networks)
}

/// The statements of the events of a contract, event by event.
pub open spec fn events_statements(
    events: Seq<EventInfoView>,
    schema: Seq<char>,
    networks: Seq<Seq<char>>,
) -> Seq<SchemaStatement>
    decreases events.len(),
{
    if events.len() == 0 {
        Seq::empty()
    } else {
        events_statements(events.drop_last(), schema, networks) + event_statements(
            events.last(),
            schema,
            networks,
        )
    }
}

/// The statements of one contract: its schema and the statements of its
/// events.
pub open spec fn contract_statements(
    indexer_name: Seq<char>,
    contract: ContractView,
    events: Seq<EventInfoView>,
) -> Seq<SchemaStatement> {
    let schema = schema_name_spec(indexer_name, effective_name_spec(contract));
    seq![SchemaStatement::CreateSchema { schema }] + events_statements(
        events,
        schema,
        network_names_spec(contract.details),
    )
}

/// The events of the contract at position `i`, as they stand in a schema
/// text. A text is generated only where the events of every contract were
/// loaded.
pub open spec fn contract_events(abi_events: Seq<Option<Seq<EventInfoView>>>, i: int) -> Seq<
    EventInfoView,
> {
    match events_entry(abi_events, i) {
        Some(events) => events,
        None => Seq::empty(),
    }
}

/// The statements of the schema text of an indexer: the internal schema,
/// then the statements of each contract, in order, none left out.
pub open spec fn schema_statements(
    indexer_name: Seq<char>,
    contracts: Seq<ContractView>,
    abi_events: Seq<Option<Seq<EventInfoView>>>,
) -> Seq<SchemaStatement>
    decreases contracts.len(),
{
    if contracts.len() == 0 {
        seq![SchemaStatement::CreateSchema { schema: internal_schema_name() }]
    } else {
        schema_statements(indexer_name, contracts.drop_last(), abi_events) + contract_statements(
            indexer_name,
            contracts.last(),
            contract_events(abi_events, contracts.len() - 1),
        )
    }
}

proof fn lemma_seeds_text(
    schema: Seq<char>,
    event: Seq<char>,
    networks: Seq<Seq<char>>,
    next: Option<SchemaStatement>,
)
    ensures
        script_text(seed_statements(schema, event, networks), next) == join_spec(
            seed_statements_spec(internal_table_name_spec(schema, event), networks),
            "\n"@,
        ) + break_if(
            networks.len() > 0 && (next matches Some(SchemaStatement::SeedCheckpoint { .. })
                || next matches Some(SchemaStatement::CreateEventTable { .. })),
        ),
    decreases networks.len(),
{
    let table = internal_table_name_spec(schema, event);
    let statements = seed_statements(schema, event, networks);
    let texts = seed_statements_spec(table, networks);
    if networks.len() > 0 {
        let before = networks.drop_last();
        assert(statements.drop_last() =~= seed_statements(schema, event, before));
        assert(texts.drop_last() =~= seed_statements_spec(table, before));
        lemma_seeds_text(schema, event, before, Some(statements.last()));
        assert(statements.last().text() == texts.last());
        if networks.len() == 1 {
            assert(join_spec(texts.drop_last(), "\n"@) =~= Seq::<char>::empty());
        }
        assert(script_text(statements, next) =~= join_spec(texts, "\n"@) + break_if(
            next matches Some(SchemaStatement::SeedCheckpoint { .. }) || next matches Some(
                SchemaStatement::CreateEventTable { .. },
            ),
        ));
    } else {
        assert(join_spec(texts, "\n"@) =~= Seq::<char>::empty());
    }
}

proof fn lemma_event_text(
    event: EventInfoView,
    schema: Seq<char>,
    networks: Seq<Seq<char>>,
    next: Option<SchemaStatement>,
)
    requires
        event_sql_spec(schema, event, networks) is Ok,
        !(next matches Some(SchemaStatement::SeedCheckpoint { .. })),
    ensures
        script_text(event_statements(event, schema, networks), next) == event_sql_spec(
            schema,
            event,
            networks,
        )->Ok_0 + break_if(next matches Some(SchemaStatement::CreateEventTable { .. })),
{
    let table = event_table_statement(event, schema);
    let checkpoint = SchemaStatement::CreateCheckpointTable { schema, event: event.name };
    let seeds = seed_statements(schema, event.name, networks);
    assert(event_statements(event, schema, networks) =~= seq![table] + (seq![checkpoint] + seeds));
    lemma_script_text_concat(seq![table], seq![checkpoint] + seeds, next);
    lemma_script_text_concat(seq![checkpoint], seeds, next);
    lemma_script_text_single(table, Some(checkpoint));
    lemma_script_text_single(checkpoint, first_or(seeds, next));
    lemma_seeds_text(schema, event.name, networks, next);
    assert((seq![checkpoint] + seeds)[0] == checkpoint);
    assert(event_table_spec(schema, event) is Ok);
    assert(table.text() == event_table_spec(schema, event)->Ok_0);
    assert(script_text(event_statements(event, schema, networks), next) =~= event_sql_spec(
        schema,
        event,
        networks,
    )->Ok_0 + break_if(next matches Some(SchemaStatement::CreateEventTable { .. })));
}

proof fn lemma_events_text(
    events: Seq<EventInfoView>,
    schema: Seq<char>,
    networks: Seq<Seq<char>>,
    next: Option<SchemaStatement>,
)
    requires
        events_sql_spec(events, schema, networks) is Ok,
        !(next matches Some(SchemaStatement::SeedCheckpoint { .. })),
    ensures
        script_text(events_statements(events, schema, networks), next) == join_spec(
            events_sql_spec(events, schema, networks)->Ok_0,
            "\n"@,
        ) + break_if(events.len() > 0 && next matches Some(SchemaStatement::CreateEventTable { .. })),
        events_sql_spec(events, schema, networks)->Ok_0.len() == events.len(),
        first_or(events_statements(events, schema, networks), next) == (if events.len() > 0 {
            Some(event_table_statement(events[0], schema))
        } else {
            next
        }),
    decreases events.len(),
{
    let texts = events_sql_spec(events, schema, networks)->Ok_0;
    if events.len() > 0 {
        let before = events.drop_last();
        let last = event_statements(events.last(), schema, networks);
        let earlier = events_statements(before, schema, networks);
        let texts_before = events_sql_spec(before, schema, networks)->Ok_0;
        assert(texts.drop_last() =~= texts_before);
        assert(texts.last() == event_sql_spec(schema, events.last(), networks)->Ok_0);
        lemma_script_text_concat(earlier, last, next);
        lemma_events_text(before, schema, networks, Some(last[0]));
        lemma_event_text(events.last(), schema, networks, next);
        if events.len() == 1 {
            assert(texts_before =~= Seq::<Seq<char>>::empty());
            assert(join_spec(texts_before, "\n"@) =~= Seq::<char>::empty());
            assert((earlier + last)[0] == last[0]);
        } else {
            assert((earlier + last)[0] == earlier[0]);
            assert(before[0] == events[0]);
        }
        assert(script_text(events_statements(events, schema, networks), next) =~= join_spec(
            texts,
            "\n"@,
        ) + break_if(next matches Some(SchemaStatement::CreateEventTable { .. })));
    } else {
        assert(join_spec(texts, "\n"@) =~= Seq::<char>::empty());
    }
}

/// What is generated for a contract is the text of the contract's
/// statements.
proof fn lemma_contract_text(
    indexer_name: Seq<char>,
    contract: ContractView,
    events: Seq<EventInfoView>,
    next: Option<SchemaStatement>,
)
    requires
        contract_tables_spec(indexer_name, contract, Some(events)) is Ok,
        ends_block(next),
    ensures
        script_text(contract_statements(indexer_name, contract, events), next)
            == contract_tables_spec(indexer_name, contract, Some(events))->Ok_0,
        ends_block(first_or(contract_statements(indexer_name, contract, events), next)),
{
    let schema = schema_name_spec(indexer_name, effective_name_spec(contract));
    let networks = network_names_spec(contract.details);
    let create = SchemaStatement::CreateSchema { schema };
    let rest = events_statements(events, schema, networks);
    lemma_script_text_concat(seq![create], rest, next);
    lemma_script_text_single(create, first_or(rest, next));
    lemma_events_text(events, schema, networks, next);
    assert((seq![create] + rest)[0] == create);
    assert(script_text(contract_statements(indexer_name, contract, events), next)
        =~= contract_tables_spec(indexer_name, contract, Some(events))->Ok_0);
}

/// The schema text is the text of its statements: what
/// [`create_tables_spec`] gives, where it gives a text, is each statement of
/// [`schema_statements`] in order with its separator.
pub proof fn lemma_schema_text_is_its_statements(
    indexer_name: Seq<char>,
    contracts: Seq<ContractView>,
    abi_events: Seq<Option<Seq<EventInfoView>>>,
    next: Option<SchemaStatement>,
)
    requires
        create_tables_spec(indexer_name, contracts, abi_events) is Ok,
        ends_block(next),
    ensures
        script_text(schema_statements(indexer_name, contracts, abi_events), next)
            == create_tables_spec(indexer_name, contracts, abi_events)->Ok_0,
    decreases contracts.len(),
{
    if contracts.len() == 0 {
        let create = SchemaStatement::CreateSchema { schema: internal_schema_name() };
        lemma_script_text_single(create, next);
    } else {
        let earlier = schema_statements(indexer_name, contracts.drop_last(), abi_events);
        let entry = events_entry(abi_events, contracts.len() - 1);
        assert(contract_tables_spec(indexer_name, contracts.last(), entry) is Ok);
        assert(entry is Some);
        let events = contract_events(abi_events, contracts.len() - 1);
        let last = contract_statements(indexer_name, contracts.last(), events);
        lemma_contract_text(indexer_name, contracts.last(), events, next);
        lemma_script_text_concat(earlier, last, next);
        lemma_schema_text_is_its_statements(
            indexer_name,
            contracts.drop_last(),
            abi_events,
            first_or(last, next),
        );
    }
}


/// What a database holds, as far as the statements of a schema text can
/// tell.
pub struct Database {
    /// The schemas that exist, by name.
    pub schemas: Set<Seq<char>>,
    /// The event tables that exist, by schema and table name, with their
    /// column definitions.
    pub event_tables: Map<(Seq<char>, Seq<char>), Seq<Seq<char>>>,
    /// The checkpoint tables that exist, by name.
    pub checkpoint_tables: Set<Seq<char>>,
    /// The last synced block of each network in each checkpoint table.
    pub checkpoints: Map<(Seq<char>, Seq<char>), nat>,
}

/// The database that holds nothing.
pub open spec fn empty_database() -> Database {
    Database {
        schemas: Set::empty(),
        event_tables: Map::empty(),
        checkpoint_tables: Set::empty(),
        checkpoints: Map::empty(),
    }
}

impl SchemaStatement {
    /// The database after the statement, or `None` where the statement
    /// fails.
    ///
    /// Creating a schema never fails. Creating a table fails where its schema
    /// is missing, and leaves a table of that name as it is. Seeding fails
    /// where the checkpoint table is missing, and leaves the network's
    /// checkpoint as it is where it has one.
    pub open spec fn apply(self, db: Database) -> Option<Database> {
        match self {
            SchemaStatement::CreateSchema { schema } => Some(
                Database { schemas: db.schemas.insert(schema), ..db },
            ),
            SchemaStatement::CreateEventTable { schema, event, columns } => {
                let table = (schema, camel_to_snake_spec(event));
                if !db.schemas.contains(schema) {
                    None
                } else if db.event_tables.contains_key(table) {
                    Some(db)
                } else {
                    Some(Database { event_tables: db.event_tables.insert(table, columns), ..db })
                }
            },
            SchemaStatement::CreateCheckpointTable { schema, event } => {
                if !db.schemas.contains(internal_schema_name()) {
                    None
                } else {
                    Some(
                        Database {
                            checkpoint_tables: db.checkpoint_tables.insert(
                                internal_table_name_spec(schema, event),
                            ),
                            ..db
                        },
                    )
                }
            },
            SchemaStatement::SeedCheckpoint { schema, event, network } => {
                let table = internal_table_name_spec(schema, event);
                if !db.checkpoint_tables.contains(table) {
                    None
                } else if db.checkpoints.contains_key((table, network)) {
                    Some(db)
                } else {
                    Some(Database { checkpoints: db.checkpoints.insert((table, network), 0), ..db })
                }
            },
        }
    }

    /// Whether the statement finds its work done: it succeeds and changes
    /// nothing.
    pub open spec fn settled(self, db: Database) -> bool {
        self.apply(db) == Some(db)
    }
}

/// The database after the statements in order, or `None` where one of them
/// fails.
pub open spec fn apply_all(db: Database, statements: Seq<SchemaStatement>) -> Option<Database>
    decreases statements.len(),
{
    if statements.len() == 0 {
        Some(db)
    } else {
        match apply_all(db, statements.drop_last()) {
            Some(before) => statements.last().apply(before),
            None => None,
        }
    }
}

/// Whether `later` holds all that `earlier` holds.
pub open spec fn holds_all_of(later: Database, earlier: Database) -> bool {
    &&& earlier.schemas.subset_of(later.schemas)
    &&& earlier.event_tables.submap_of(later.event_tables)
    &&& earlier.checkpoint_tables.subset_of(later.checkpoint_tables)
    &&& earlier.checkpoints.submap_of(later.checkpoints)
}

/// A statement only adds: what was there stays as it was.
pub proof fn lemma_apply_only_adds(statement: SchemaStatement, db: Database)
    requires
        statement.apply(db) is Some,
    ensures
        holds_all_of(statement.apply(db)->0, db),
{
}

/// A statement that succeeded finds its work done afterwards.
pub proof fn lemma_applied_is_settled(statement: SchemaStatement, db: Database)
    requires
        statement.apply(db) is Some,
    ensures
        statement.settled(statement.apply(db)->0),
{
    let after = statement.apply(db)->0;
    match statement {
        SchemaStatement::CreateSchema { schema } => {
            assert(after.schemas.insert(schema) =~= after.schemas);
        },
        SchemaStatement::CreateCheckpointTable { schema, event } => {
            let table = internal_table_name_spec(schema, event);
            assert(after.checkpoint_tables.insert(table) =~= after.checkpoint_tables);
        },
        _ => {},
    }
}

/// A statement whose work is done finds it done in every database that
/// holds all of this one.
pub proof fn lemma_settled_stays(statement: SchemaStatement, db: Database, later: Database)
    requires
        statement.settled(db),
        holds_all_of(later, db),
    ensures
        statement.settled(later),
{
    match statement {
        SchemaStatement::CreateSchema { schema } => {
            assert(db.schemas.insert(schema) == db.schemas);
            assert(db.schemas.contains(schema));
            assert(later.schemas.insert(schema) =~= later.schemas);
        },
        SchemaStatement::CreateEventTable { schema, event, columns } => {
            let table = (schema, camel_to_snake_spec(event));
            if !db.event_tables.contains_key(table) {
                assert(db.event_tables.insert(table, columns).contains_key(table));
                assert(false);
            }
            assert(later.event_tables.dom().contains(table));
        },
        SchemaStatement::CreateCheckpointTable { schema, event } => {
            let table = internal_table_name_spec(schema, event);
            assert(db.checkpoint_tables.insert(table) == db.checkpoint_tables);
            assert(db.checkpoint_tables.contains(table));
            assert(later.checkpoint_tables.insert(table) =~= later.checkpoint_tables);
        },
        SchemaStatement::SeedCheckpoint { schema, event, network } => {
            let table = internal_table_name_spec(schema, event);
            if !db.checkpoints.contains_key((table, network)) {
                assert(db.checkpoints.insert((table, network), 0).contains_key((table, network)));
                assert(false);
            }
            assert(later.checkpoints.dom().contains((table, network)));
        },
    }
}

/// Holding all of a database is passed on.
pub proof fn lemma_holds_all_of_chain(a: Database, b: Database, c: Database)
    requires
        holds_all_of(b, a),
        holds_all_of(c, b),
    ensures
        holds_all_of(c, a),
{
    vstd::map_lib::lemma_submap_of_trans(a.event_tables, b.event_tables, c.event_tables);
    vstd::map_lib::lemma_submap_of_trans(a.checkpoints, b.checkpoints, c.checkpoints);
}

/// After a text has run, each of its statements finds its work done, and
/// the database holds all that it held before.
pub proof fn lemma_all_settled_after(db: Database, statements: Seq<SchemaStatement>)
    requires
        apply_all(db, statements) is Some,
    ensures
        holds_all_of(apply_all(db, statements)->0, db),
        forall|i: int|
            0 <= i < statements.len() ==> (#[trigger] statements[i]).settled(
                apply_all(db, statements)->0,
            ),
    decreases statements.len(),
{
    if statements.len() > 0 {
        let earlier = statements.drop_last();
        let before = apply_all(db, earlier)->0;
        let after = apply_all(db, statements)->0;
        lemma_all_settled_after(db, earlier);
        lemma_apply_only_adds(statements.last(), before);
        lemma_applied_is_settled(statements.last(), before);
        lemma_holds_all_of_chain(db, before, after);
        assert forall|i: int| 0 <= i < statements.len() implies (#[trigger] statements[i]).settled(
            after,
        ) by {
            if i < statements.len() - 1 {
                assert(earlier[i].settled(before));
                lemma_settled_stays(statements[i], before, after);
            }
        }
    }
}

/// A text whose statements all find their work done changes nothing.
pub proof fn lemma_settled_text_changes_nothing(db: Database, statements: Seq<SchemaStatement>)
    requires
        forall|i: int| 0 <= i < statements.len() ==> (#[trigger] statements[i]).settled(db),
    ensures
        apply_all(db, statements) == Some(db),
    decreases statements.len(),
{
    if statements.len() > 0 {
        let earlier = statements.drop_last();
        assert forall|i: int| 0 <= i < earlier.len() implies (#[trigger] earlier[i]).settled(
            db,
        ) by {
            assert(statements[i].settled(db));
        }
        lemma_settled_text_changes_nothing(db, earlier);
        assert(statements.last() == statements[statements.len() - 1]);
    }
}

/// Running a list of statements a second time succeeds and changes nothing,
/// whatever the database held before the first time.
pub proof fn lemma_second_run_changes_nothing(db: Database, statements: Seq<SchemaStatement>)
    requires
        apply_all(db, statements) is Some,
    ensures
        apply_all(apply_all(db, statements)->0, statements) == apply_all(db, statements),
{
    lemma_all_settled_after(db, statements);
    lemma_settled_text_changes_nothing(apply_all(db, statements)->0, statements);
}

/// Running two lists of statements in a row is running the first and then
/// the second on what the first left.
pub proof fn lemma_apply_all_concat(
    db: Database,
    a: Seq<SchemaStatement>,
    b: Seq<SchemaStatement>,
)
    ensures
        apply_all(db, a + b) == match apply_all(db, a) {
            Some(middle) => apply_all(middle, b),
            None => None,
        },
    decreases b.len(),
{
    if b.len() == 0 {
        assert(a + b =~= a);
    } else {
        assert((a + b).drop_last() =~= a + b.drop_last());
        assert((a + b).last() == b.last());
        lemma_apply_all_concat(db, a, b.drop_last());
    }
}

proof fn lemma_apply_single(db: Database, statement: SchemaStatement)
    ensures
        apply_all(db, seq![statement]) == statement.apply(db),
{
    let one = seq![statement];
    assert(one.drop_last().len() == 0);
    assert(apply_all(db, one.drop_last()) == Some(db));
    assert(one.last() == statement);
}

proof fn lemma_seeds_apply(
    db: Database,
    schema: Seq<char>,
    event: Seq<char>,
    networks: Seq<Seq<char>>,
)
    requires
        db.checkpoint_tables.contains(internal_table_name_spec(schema, event)),
    ensures
        apply_all(db, seed_statements(schema, event, networks)) is Some,
    decreases networks.len(),
{
    let statements = seed_statements(schema, event, networks);
    if networks.len() > 0 {
        assert(statements.drop_last() =~= seed_statements(schema, event, networks.drop_last()));
        lemma_seeds_apply(db, schema, event, networks.drop_last());
        lemma_all_settled_after(db, statements.drop_last());
    }
}

proof fn lemma_event_applies(
    db: Database,
    event: EventInfoView,
    schema: Seq<char>,
    networks: Seq<Seq<char>>,
)
    requires
        db.schemas.contains(schema),
        db.schemas.contains(internal_schema_name()),
    ensures
        apply_all(db, event_statements(event, schema, networks)) is Some,
{
    let table = event_table_statement(event, schema);
    let checkpoint = SchemaStatement::CreateCheckpointTable { schema, event: event.name };
    let seeds = seed_statements(schema, event.name, networks);
    assert(seq![table, checkpoint] =~= seq![table] + seq![checkpoint]);
    lemma_apply_all_concat(db, seq![table, checkpoint], seeds);
    lemma_apply_all_concat(db, seq![table], seq![checkpoint]);
    lemma_apply_single(db, table);
    let first = table.apply(db)->0;
    lemma_apply_single(first, checkpoint);
    lemma_seeds_apply(checkpoint.apply(first)->0, schema, event.name, networks);
}

proof fn lemma_events_apply(
    db: Database,
    events: Seq<EventInfoView>,
    schema: Seq<char>,
    networks: Seq<Seq<char>>,
)
    requires
        db.schemas.contains(schema),
        db.schemas.contains(internal_schema_name()),
    ensures
        apply_all(db, events_statements(events, schema, networks)) is Some,
    decreases events.len(),
{
    if events.len() > 0 {
        let earlier = events_statements(events.drop_last(), schema, networks);
        lemma_events_apply(db, events.drop_last(), schema, networks);
        lemma_all_settled_after(db, earlier);
        lemma_apply_all_concat(db, earlier, event_statements(events.last(), schema, networks));
        lemma_event_applies(apply_all(db, earlier)->0, events.last(), schema, networks);
    }
}

proof fn lemma_contract_applies(
    db: Database,
    indexer_name: Seq<char>,
    contract: ContractView,
    events: Seq<EventInfoView>,
)
    requires
        db.schemas.contains(internal_schema_name()),
    ensures
        apply_all(db, contract_statements(indexer_name, contract, events)) is Some,
{
    let schema = schema_name_spec(indexer_name, effective_name_spec(contract));
    let networks = network_names_spec(contract.details);
    let create = SchemaStatement::CreateSchema { schema };
    lemma_apply_single(db, create);
    lemma_apply_all_concat(db, seq![create], events_statements(events, schema, networks));
    lemma_events_apply(create.apply(db)->0, events, schema, networks);
}

/// The statements of a schema text run without failure on an empty
/// database, and on any other.
pub proof fn lemma_schema_statements_apply(
    db: Database,
    indexer_name: Seq<char>,
    contracts: Seq<ContractView>,
    abi_events: Seq<Option<Seq<EventInfoView>>>,
)
    ensures
        apply_all(db, schema_statements(indexer_name, contracts, abi_events)) is Some,
        apply_all(
            db,
            schema_statements(indexer_name, contracts, abi_events),
        )->0.schemas.contains(internal_schema_name()),
    decreases contracts.len(),
{
    if contracts.len() == 0 {
        lemma_apply_single(db, SchemaStatement::CreateSchema { schema: internal_schema_name() });
    } else {
        let earlier = schema_statements(indexer_name, contracts.drop_last(), abi_events);
        let last = contract_statements(
            indexer_name,
            contracts.last(),
            contract_events(abi_events, contracts.len() - 1),
        );
        lemma_schema_statements_apply(db, indexer_name, contracts.drop_last(), abi_events);
        let before = apply_all(db, earlier)->0;
        lemma_apply_all_concat(db, earlier, last);
        lemma_contract_applies(
            before,
            indexer_name,
            contracts.last(),
            contract_events(abi_events, contracts.len() - 1),
        );
        lemma_all_settled_after(before, last);
    }
}

/// Creating the schema of an indexer converges: where a schema text is
/// generated, it is the text of the indexer's statements; these run without
/// failure, on an empty database as on any other; and running them a second
/// time succeeds again and leaves every schema, table and checkpoint as the
/// first run left it.
pub proof fn lemma_schema_creation_is_idempotent(
    db: Database,
    indexer_name: Seq<char>,
    contracts: Seq<ContractView>,
    abi_events: Seq<Option<Seq<EventInfoView>>>,
)
    requires
        create_tables_spec(indexer_name, contracts, abi_events) is Ok,
    ensures
        ({
            let statements = schema_statements(indexer_name, contracts, abi_events);
            let once = apply_all(db, statements);
            &&& create_tables_spec(indexer_name, contracts, abi_events)->Ok_0 == script_text(
                statements,
                None,
            )
            &&& once is Some
            &&& apply_all(once->0, statements) == once
        }),
{
    let statements = schema_statements(indexer_name, contracts, abi_events);
    lemma_schema_text_is_its_statements(indexer_name, contracts, abi_events, None);
    lemma_schema_statements_apply(db, indexer_name, contracts, abi_events);
    lemma_second_run_changes_nothing(db, statements);
}

} // verus!
