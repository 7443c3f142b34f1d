use rindexer_core::database::client::{
    ClientAction, ClientCall, ClientEvent, ClientOutcome, ClientPhase, ClientSession,
    PostgresConnectionError, PostgresError,
};

fn failed(cause: &str) -> ClientEvent {
    ClientEvent::Failed(cause.to_string())
}

fn run(call: ClientCall, events: Vec<ClientEvent>) -> (ClientSession, Vec<ClientAction>) {
    let (mut session, first) = ClientSession::start(call);
    let mut actions = vec![first];
    for event in events {
        let (next, action) = session.step(event);
        session = next;
        actions.push(action);
    }
    (session, actions)
}

fn successes(n: usize) -> Vec<ClientEvent> {
    (0..n).map(|_| ClientEvent::Succeeded).collect()
}

#[test]
fn a_plain_call_takes_a_connection_runs_and_ends() {
    let calls = [
        ClientCall::BatchExecute,
        ClientCall::Execute,
        ClientCall::Prepare,
        ClientCall::Query,
        ClientCall::QueryOne,
        ClientCall::QueryOneOrNone,
    ];
    for call in calls {
        let (session, actions) = run(call, successes(2));
        assert_eq!(
            actions,
            vec![
                ClientAction::AcquireConnection,
                ClientAction::RunStatement,
                ClientAction::Finish(ClientOutcome::Completed),
            ]
        );
        assert!(session.is_finished());
        assert_eq!(session.call, call);
    }
}

#[test]
fn no_connection_is_a_pool_error() {
    for call in [ClientCall::Execute, ClientCall::Transaction, ClientCall::BatchInsert { rows: 3 }] {
        let (session, actions) = run(call, vec![failed("timed out")]);
        assert_eq!(
            actions[1],
            ClientAction::Finish(ClientOutcome::Failed(PostgresError::ConnectionPoolError(
                "timed out".to_string()
            )))
        );
        assert!(session.is_finished());
    }
}

#[test]
fn a_refused_statement_is_a_database_error() {
    let (session, actions) = run(ClientCall::QueryOne, vec![ClientEvent::Succeeded, failed("no rows")]);
    assert_eq!(
        actions[2],
        ClientAction::Finish(ClientOutcome::Failed(PostgresError::PgError("no rows".to_string())))
    );
    assert!(session.is_finished());
}

#[test]
fn a_transaction_keeps_its_connection() {
    let (session, actions) = run(ClientCall::Transaction, successes(2));
    assert_eq!(
        actions,
        vec![
            ClientAction::AcquireConnection,
            ClientAction::BeginTransaction,
            ClientAction::Finish(ClientOutcome::TransactionOpened),
        ]
    );
    assert!(session.is_finished());
    let (_, refused) = run(ClientCall::Transaction, vec![ClientEvent::Succeeded, failed("busy")]);
    assert_eq!(
        refused[2],
        ClientAction::Finish(ClientOutcome::Failed(PostgresError::PgError("busy".to_string())))
    );
}

#[test]
fn a_batch_executes_its_rows_in_order_and_commits() {
    let (session, actions) = run(ClientCall::BatchInsert { rows: 3 }, successes(6));
    assert_eq!(
        actions,
        vec![
            ClientAction::AcquireConnection,
            ClientAction::BeginTransaction,
            ClientAction::ExecuteRow(0),
            ClientAction::ExecuteRow(1),
            ClientAction::ExecuteRow(2),
            ClientAction::Commit,
            ClientAction::Finish(ClientOutcome::Completed),
        ]
    );
    assert!(session.is_finished());
}

#[test]
fn an_empty_batch_commits_at_once() {
    let (_, actions) = run(ClientCall::BatchInsert { rows: 0 }, successes(3));
    assert_eq!(
        actions,
        vec![
            ClientAction::AcquireConnection,
            ClientAction::BeginTransaction,
            ClientAction::Commit,
            ClientAction::Finish(ClientOutcome::Completed),
        ]
    );
}

#[test]
fn a_batch_with_a_refused_row_is_rolled_back_whole() {
    for rows in [1usize, 2, 4, 7] {
        let bad = rows / 2;
        let mut events = successes(2 + bad);
        events.push(failed("constraint"));
        events.push(ClientEvent::Succeeded);
        let (session, actions) = run(ClientCall::BatchInsert { rows }, events);
        assert!(!actions.contains(&ClientAction::Commit));
        assert_eq!(actions[actions.len() - 2], ClientAction::Rollback);
        assert_eq!(
            actions[actions.len() - 1],
            ClientAction::Finish(ClientOutcome::Failed(PostgresError::PgError(
                "constraint".to_string()
            )))
        );
        let executed: Vec<&ClientAction> =
            actions.iter().filter(|a| matches!(a, ClientAction::ExecuteRow(_))).collect();
        assert_eq!(executed.len(), bad + 1);
        assert!(session.is_finished());
    }
}

#[test]
fn a_failed_rollback_still_reports_the_rows_failure() {
    let events = vec![
        ClientEvent::Succeeded,
        ClientEvent::Succeeded,
        failed("constraint"),
        failed("connection lost"),
    ];
    let (_, actions) = run(ClientCall::BatchInsert { rows: 2 }, events);
    assert_eq!(
        actions[4],
        ClientAction::Finish(ClientOutcome::Failed(PostgresError::PgError("constraint".to_string())))
    );
}

#[test]
fn a_failed_commit_or_begin_ends_the_batch_with_the_error() {
    let mut events = successes(3);
    events.push(failed("commit refused"));
    let (_, actions) = run(ClientCall::BatchInsert { rows: 1 }, events);
    assert_eq!(actions[3], ClientAction::Commit);
    assert_eq!(
        actions[4],
        ClientAction::Finish(ClientOutcome::Failed(PostgresError::PgError(
            "commit refused".to_string()
        )))
    );
    let (_, begin) = run(ClientCall::BatchInsert { rows: 1 }, vec![ClientEvent::Succeeded, failed("x")]);
    assert_eq!(
        begin[2],
        ClientAction::Finish(ClientOutcome::Failed(PostgresError::PgError("x".to_string())))
    );
}

#[test]
fn a_finished_call_does_nothing_more() {
    let (session, _) = run(ClientCall::Execute, successes(2));
    let (session, action) = session.step(ClientEvent::Succeeded);
    assert_eq!(action, ClientAction::Nothing);
    let (session, action) = session.step(failed("late"));
    assert_eq!(action, ClientAction::Nothing);
    assert_eq!(session, ClientSession { call: ClientCall::Execute, phase: ClientPhase::Finished });
}

#[test]
fn a_call_starts_by_taking_a_connection() {
    let (session, action) = ClientSession::start(ClientCall::BatchInsert { rows: 2 });
    assert_eq!(action, ClientAction::AcquireConnection);
    assert_eq!(session.phase, ClientPhase::Acquiring);
    assert!(!session.is_finished());
}

#[test]
fn error_messages() {
    assert_eq!(PostgresError::PgError("boom".to_string()).message(), "PgError boom");
    assert_eq!(
        PostgresError::ConnectionPoolError("full".to_string()).message(),
        "Connection pool error: full"
    );
    assert_eq!(
        PostgresConnectionError::DatabaseConnectionConfigWrong("not set".to_string()).message(),
        "The database connection string is wrong please check your environment: not set"
    );
    assert_eq!(
        PostgresConnectionError::ConnectionPoolError("down".to_string()).message(),
        "Connection pool error: down"
    );
}
