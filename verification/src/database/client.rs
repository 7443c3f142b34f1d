//! The storage client's discipline: for each call, which step is taken next
//! and how the call ends. The steps themselves (taking a connection from the
//! pool, running a statement) are performed by the caller, who reports how
//! each went.

use vstd::prelude::*;

verus! {

/// The failure of a call of the storage client.
#[derive(Debug, Clone, PartialEq, Eq)]
pub enum PostgresError {
    /// The database refused a statement; the database's own message.
    PgError(String),
    /// No connection could be had from the pool; the pool's message.
    ConnectionPoolError(String),
}

/// The failure to set the storage client up.
#[derive(Debug, Clone, PartialEq, Eq)]
pub enum PostgresConnectionError {
    /// The connection string could not be read from the environment.
    DatabaseConnectionConfigWrong(String),
    /// The pool could not be built.
    ConnectionPoolError(String),
}

/// The mathematical content of a [`PostgresError`].
pub enum PostgresErrorView {
    PgError(Seq<char>),
    ConnectionPoolError(Seq<char>),
}

impl View for PostgresError {
    type V = PostgresErrorView;

    open spec fn view(&self) -> PostgresErrorView {
        match self {
            PostgresError::PgError(cause) => PostgresErrorView::PgError(cause@),
            PostgresError::ConnectionPoolError(cause) => PostgresErrorView::ConnectionPoolError(
                cause@,
            ),
        }
    }
}

/// The mathematical content of a [`PostgresConnectionError`].
pub enum PostgresConnectionErrorView {
    DatabaseConnectionConfigWrong(Seq<char>),
    ConnectionPoolError(Seq<char>),
}

impl View for PostgresConnectionError {
    type V = PostgresConnectionErrorView;

    open spec fn view(&self) -> PostgresConnectionErrorView {
        match self {
            PostgresConnectionError::DatabaseConnectionConfigWrong(cause) => {
                PostgresConnectionErrorView::DatabaseConnectionConfigWrong(cause@)
            },
            PostgresConnectionError::ConnectionPoolError(cause) => {
                PostgresConnectionErrorView::ConnectionPoolError(cause@)
            },
        }
    }
}

impl PostgresErrorView {
    /// The error as a line of text.
    pub open spec fn message(self) -> Seq<char> {
        match self {
            PostgresErrorView::PgError(cause) => "PgError "@ + cause,
            PostgresErrorView::ConnectionPoolError(cause) => "Connection pool error: "@ + cause,
        }
    }
}

impl PostgresConnectionErrorView {
    /// The error as a line of text.
    pub open spec fn message(self) -> Seq<char> {
        match self {
            PostgresConnectionErrorView::DatabaseConnectionConfigWrong(cause) => {
                "The database connection string is wrong please check your environment: "@
                    + cause
            },
            PostgresConnectionErrorView::ConnectionPoolError(cause) => "Connection pool error: "@
                + cause,
        }
    }
}

impl PostgresError {
    /// The error as a line of text.
    pub fn message(&self) -> (text: String)
        ensures
            text@ == self@.message(),
    {
        match self {
            PostgresError::PgError(cause) => {
                let mut text = String::from_str("PgError ");
                text.append(cause.as_str());
                text
            },
            PostgresError::ConnectionPoolError(cause) => {
                let mut text = String::from_str("Connection pool error: ");
                text.append(cause.as_str());
                text
            },
        }
    }
}

impl PostgresConnectionError {
    /// The error as a line of text.
    pub fn message(&self) -> (text: String)
        ensures
            text@ == self@.message(),
    {
        match self {
            PostgresConnectionError::DatabaseConnectionConfigWrong(cause) => {
                let mut text = String::from_str(
                    "The database connection string is wrong please check your environment: ",
                );
                text.append(cause.as_str());
                text
            },
            PostgresConnectionError::ConnectionPoolError(cause) => {
                let mut text = String::from_str("Connection pool error: ");
                text.append(cause.as_str());
                text
            },
        }
    }
}

/// The calls that the storage client offers.
#[derive(Debug, Clone, Copy, PartialEq, Eq, Structural)]
pub enum ClientCall {
    /// Runs a text of several statements outside any transaction.
    BatchExecute,
    /// Runs one statement and reports how many rows it changed.
    Execute,
    /// Prepares a statement for repeated use.
    Prepare,
    /// Opens a transaction that the caller owns.
    Transaction,
    /// Runs a query for all its rows.
    Query,
    /// Runs a query for exactly one row.
    QueryOne,
    /// Runs a query for one row or none.
    QueryOneOrNone,
    /// Executes one statement once for each of `rows` parameter sets, all
    /// of them or none.
    BatchInsert { rows: usize },
}

impl ClientCall {
    /// Whether the call begins a transaction.
    pub open spec fn in_transaction(self) -> bool {
        self is Transaction || self is BatchInsert
    }

    /// How many parameter sets the call executes.
    pub open spec fn row_count(self) -> nat {
        match self {
            ClientCall::BatchInsert { rows } => rows as nat,
            _ => 0,
        }
    }
}

/// How the step that was asked for went.
#[derive(Debug, Clone, PartialEq, Eq)]
pub enum ClientEvent {
    /// It succeeded.
    Succeeded,
    /// It failed; the message of the pool or of the database.
    Failed(String),
}

/// How a call ended.
#[derive(Debug, Clone, PartialEq, Eq)]
pub enum ClientOutcome {
    /// The call succeeded, and its connection goes back to the pool.
    Completed,
    /// The transaction is open. Its handle owns the connection, which goes
    /// back to the pool only when the transaction is committed, rolled back
    /// or dropped.
    TransactionOpened,
    /// The call failed, and its connection, if it had one, goes back to the
    /// pool. Nothing is tried again.
    Failed(PostgresError),
}

/// What the caller does next.
#[derive(Debug, Clone, PartialEq, Eq)]
pub enum ClientAction {
    /// Take a connection from the pool, waiting until one is free.
    AcquireConnection,
    /// Run the call's statement on the connection.
    RunStatement,
    /// Begin a transaction on the connection.
    BeginTransaction,
    /// Execute the statement with the parameter set of this index.
    ExecuteRow(usize),
    /// Commit the transaction.
    Commit,
    /// Roll the transaction back.
    Rollback,
    /// End the call with this outcome.
    Finish(ClientOutcome),
    /// Nothing: the call has ended before.
    Nothing,
}

/// Where a call stands.
#[derive(Debug, Clone, PartialEq, Eq)]
pub enum ClientPhase {
    /// A connection has been asked for.
    Acquiring,
    /// The call's statement is running.
    Running,
    /// The transaction is being begun.
    Beginning,
    /// The parameter set `next` is being executed.
    Inserting { next: usize },
    /// The transaction is being committed.
    Committing,
    /// The transaction is being rolled back after this failure.
    RollingBack(PostgresError),
    /// The call has ended.
    Finished,
}

/// One call of the storage client in progress.
#[derive(Debug, Clone, PartialEq, Eq)]
pub struct ClientSession {
    pub call: ClientCall,
    pub phase: ClientPhase,
}

/// The mathematical content of a [`ClientEvent`].
pub enum ClientEventView {
    Succeeded,
    Failed(Seq<char>),
}

impl View for ClientEvent {
    type V = ClientEventView;

    open spec fn view(&self) -> ClientEventView {
        match self {
            ClientEvent::Succeeded => ClientEventView::Succeeded,
            ClientEvent::Failed(cause) => ClientEventView::Failed(cause@),
        }
    }
}

/// The mathematical content of a [`ClientOutcome`].
pub enum ClientOutcomeView {
    Completed,
    TransactionOpened,
    Failed(PostgresErrorView),
}

impl View for ClientOutcome {
    type V = ClientOutcomeView;

    open spec fn view(&self) -> ClientOutcomeView {
        match self {
            ClientOutcome::Completed => ClientOutcomeView::Completed,
            ClientOutcome::TransactionOpened => ClientOutcomeView::TransactionOpened,
            ClientOutcome::Failed(failure) => ClientOutcomeView::Failed(failure@),
        }
    }
}

/// The mathematical content of a [`ClientAction`].
pub enum ClientActionView {
    AcquireConnection,
    RunStatement,
    BeginTransaction,
    ExecuteRow(usize),
    Commit,
    Rollback,
    Finish(ClientOutcomeView),
    Nothing,
}

impl View for ClientAction {
    type V = ClientActionView;

    open spec fn view(&self) -> ClientActionView {
        match self {
            ClientAction::AcquireConnection => ClientActionView::AcquireConnection,
            ClientAction::RunStatement => ClientActionView::RunStatement,
            ClientAction::BeginTransaction => ClientActionView::BeginTransaction,
            ClientAction::ExecuteRow(row) => ClientActionView::ExecuteRow(*row),
            ClientAction::Commit => ClientActionView::Commit,
            ClientAction::Rollback => ClientActionView::Rollback,
            ClientAction::Finish(outcome) => ClientActionView::Finish(outcome@),
            ClientAction::Nothing => ClientActionView::Nothing,
        }
    }
}

/// The mathematical content of a [`ClientPhase`].
pub enum ClientPhaseView {
    Acquiring,
    Running,
    Beginning,
    Inserting { next: usize },
    Committing,
    RollingBack(PostgresErrorView),
    Finished,
}

impl View for ClientPhase {
    type V = ClientPhaseView;

    open spec fn view(&self) -> ClientPhaseView {
        match self {
            ClientPhase::Acquiring => ClientPhaseView::Acquiring,
            ClientPhase::Running => ClientPhaseView::Running,
            ClientPhase::Beginning => ClientPhaseView::Beginning,
            ClientPhase::Inserting { next } => ClientPhaseView::Inserting { next: *next },
            ClientPhase::Committing => ClientPhaseView::Committing,
            ClientPhase::RollingBack(failure) => ClientPhaseView::RollingBack(failure@),
            ClientPhase::Finished => ClientPhaseView::Finished,
        }
    }
}

/// The mathematical content of a [`ClientSession`].
pub struct ClientSessionView {
    pub call: ClientCall,
    pub phase: ClientPhaseView,
}

impl View for ClientSession {
    type V = ClientSessionView;

    open spec fn view(&self) -> ClientSessionView {
        ClientSessionView { call: self.call, phase: self.phase@ }
    }
}

impl ClientSessionView {
    /// Whether the phase is one that the call can be in.
    pub open spec fn well_formed(self) -> bool {
        match self.phase {
            ClientPhaseView::Acquiring | ClientPhaseView::Finished => true,
            ClientPhaseView::Running => !self.call.in_transaction(),
            ClientPhaseView::Beginning => self.call.in_transaction(),
            ClientPhaseView::Inserting { next } => self.call is BatchInsert && next
                < self.call.row_count(),
            ClientPhaseView::Committing | ClientPhaseView::RollingBack(_) => self.call
                is BatchInsert,
        }
    }
}

/// The session and the first action of a call.
pub open spec fn start_spec(call: ClientCall) -> (ClientSessionView, ClientActionView) {
    (
        ClientSessionView { call, phase: ClientPhaseView::Acquiring },
        ClientActionView::AcquireConnection,
    )
}

/// The session that ends with the given outcome.
pub open spec fn finish_spec(call: ClientCall, outcome: ClientOutcomeView) -> (
    ClientSessionView,
    ClientActionView,
) {
    (ClientSessionView { call, phase: ClientPhaseView::Finished }, ClientActionView::Finish(outcome))
}

/// The next session and action, given how the last action went.
///
/// A connection is taken first; a failure to get one ends the call with a
/// pool error. A call outside a transaction then runs its statement and ends.
/// A call in a transaction begins it. A batch then executes its parameter
/// sets in their order, each after the one before succeeded, and commits
/// after the last. The first failure among them leads to a rollback, after
/// which the call ends with that failure. Every other failure ends the call
/// at once with the database's error. A call that has ended does nothing.
pub open spec fn step_spec(session: ClientSessionView, event: ClientEventView) -> (
    ClientSessionView,
    ClientActionView,
) {
    let call = session.call;
    match session.phase {
        ClientPhaseView::Finished => (session, ClientActionView::Nothing),
        ClientPhaseView::RollingBack(failure) => finish_spec(
            call,
            ClientOutcomeView::Failed(failure),
        ),
        ClientPhaseView::Acquiring => match event {
            ClientEventView::Failed(cause) => finish_spec(
                call,
                ClientOutcomeView::Failed(PostgresErrorView::ConnectionPoolError(cause)),
            ),
            ClientEventView::Succeeded => if call.in_transaction() {
                (
                    ClientSessionView { call, phase: ClientPhaseView::Beginning },
                    ClientActionView::BeginTransaction,
                )
            } else {
                (
                    ClientSessionView { call, phase: ClientPhaseView::Running },
                    ClientActionView::RunStatement,
                )
            },
        },
        ClientPhaseView::Inserting { next } => match event {
            ClientEventView::Failed(cause) => (
                ClientSessionView {
                    call,
                    phase: ClientPhaseView::RollingBack(PostgresErrorView::PgError(cause)),
                },
                ClientActionView::Rollback,
            ),
            ClientEventView::Succeeded => if next + 1 < call.row_count() {
                (
                    ClientSessionView {
                        call,
                        phase: ClientPhaseView::Inserting { next: (next + 1) as usize },
                    },
                    ClientActionView::ExecuteRow((next + 1) as usize),
                )
            } else {
                (
                    ClientSessionView { call, phase: ClientPhaseView::Committing },
                    ClientActionView::Commit,
                )
            },
        },
        ClientPhaseView::Running | ClientPhaseView::Beginning | ClientPhaseView::Committing => {
            match event {
                ClientEventView::Failed(cause) => finish_spec(
                    call,
                    ClientOutcomeView::Failed(PostgresErrorView::PgError(cause)),
                ),
                ClientEventView::Succeeded => if session.phase is Beginning {
                    if call is Transaction {
                        finish_spec(call, ClientOutcomeView::TransactionOpened)
                    } else if call.row_count() > 0 {
                        (
                            ClientSessionView {
                                call,
                                phase: ClientPhaseView::Inserting { next: 0 },
                            },
                            ClientActionView::ExecuteRow(0),
                        )
                    } else {
                        (
                            ClientSessionView { call, phase: ClientPhaseView::Committing },
                            ClientActionView::Commit,
                        )
                    }
                } else {
                    finish_spec(call, ClientOutcomeView::Completed)
                },
            }
        },
    }
}

impl ClientSession {
    /// Begins a call: the first thing to do is to take a connection.
    pub fn start(call: ClientCall) -> (r: (ClientSession, ClientAction))
        ensures
            (r.0@, r.1@) == start_spec(call),
            r.0@.well_formed(),
    {
        (ClientSession { call, phase: ClientPhase::Acquiring }, ClientAction::AcquireConnection)
    }

    /// Whether the call has ended.
    pub fn is_finished(&self) -> (r: bool)
        ensures
            r == (self@.phase is Finished),
    {
        match self.phase {
            ClientPhase::Finished => true,
            _ => false,
        }
    }

    /// Takes the report of how the last action went and says what is done
    /// next.
    pub fn step(self, event: ClientEvent) -> (r: (ClientSession, ClientAction))
        ensures
            (r.0@, r.1@) == step_spec(self@, event@),
            self@.well_formed() ==> r.0@.well_formed(),
    {
        let call = self.call;
        let transactional = match call {
            ClientCall::Transaction => true,
            ClientCall::BatchInsert { .. } => true,
            _ => false,
        };
        let rows: usize = match call {
            ClientCall::BatchInsert { rows } => rows,
            _ => 0,
        };
        match self.phase {
            ClientPhase::Finished => (
                ClientSession { call, phase: ClientPhase::Finished },
                ClientAction::Nothing,
            ),
            ClientPhase::RollingBack(failure) => finish(call, ClientOutcome::Failed(failure)),
            ClientPhase::Acquiring => match event {
                ClientEvent::Failed(cause) => finish(
                    call,
                    ClientOutcome::Failed(PostgresError::ConnectionPoolError(cause)),
                ),
                ClientEvent::Succeeded => if transactional {
                    (
                        ClientSession { call, phase: ClientPhase::Beginning },
                        ClientAction::BeginTransaction,
                    )
                } else {
                    (
                        ClientSession { call, phase: ClientPhase::Running },
                        ClientAction::RunStatement,
                    )
                },
            },
            ClientPhase::Inserting { next } => match event {
                ClientEvent::Failed(cause) => (
                    ClientSession {
                        call,
                        phase: ClientPhase::RollingBack(PostgresError::PgError(cause)),
                    },
                    ClientAction::Rollback,
                ),
                ClientEvent::Succeeded => if next < rows && next + 1 < rows {
                    (
                        ClientSession { call, phase: ClientPhase::Inserting { next: next + 1 } },
                        ClientAction::ExecuteRow(next + 1),
                    )
                } else {
                    (ClientSession { call, phase: ClientPhase::Committing }, ClientAction::Commit)
                },
            },
            ClientPhase::Running => match event {
                ClientEvent::Failed(cause) => finish(
                    call,
                    ClientOutcome::Failed(PostgresError::PgError(cause)),
                ),
                ClientEvent::Succeeded => finish(call, ClientOutcome::Completed),
            },
            ClientPhase::Committing => match event {
                ClientEvent::Failed(cause) => finish(
                    call,
                    ClientOutcome::Failed(PostgresError::PgError(cause)),
                ),
                ClientEvent::Succeeded => finish(call, ClientOutcome::Completed),
            },
            ClientPhase::Beginning => match event {
                ClientEvent::Failed(cause) => finish(
                    call,
                    ClientOutcome::Failed(PostgresError::PgError(cause)),
                ),
                ClientEvent::Succeeded => match call {
                    ClientCall::Transaction => finish(call, ClientOutcome::TransactionOpened),
                    _ => if rows > 0 {
                        (
                            ClientSession { call, phase: ClientPhase::Inserting { next: 0 } },
                            ClientAction::ExecuteRow(0),
                        )
                    } else {
                        (
                            ClientSession { call, phase: ClientPhase::Committing },
                            ClientAction::Commit,
                        )
                    },
                },
            },
        }
    }
}

fn finish(call: ClientCall, outcome: ClientOutcome) -> (r: (ClientSession, ClientAction))
    ensures
        (r.0@, r.1@) == finish_spec(call, outcome@),
{
    (ClientSession { call, phase: ClientPhase::Finished }, ClientAction::Finish(outcome))
}


/// The session and the last action of a call after the given reports, each
/// report answering the action before it.
pub open spec fn run_spec(call: ClientCall, events: Seq<ClientEventView>) -> (
    ClientSessionView,
    ClientActionView,
)
    decreases events.len(),
{
    if events.len() == 0 {
        start_spec(call)
    } else {
        step_spec(run_spec(call, events.drop_last()).0, events.last())
    }
}

/// Whether every one of the reports is a success.
pub open spec fn all_succeeded(events: Seq<ClientEventView>) -> bool {
    forall|i: int| 0 <= i < events.len() ==> events[i] is Succeeded
}

/// What the reports so far must have been for a batch to be in its phase:
/// before the outcome of a row is known, every report was a success, and
/// there were as many as the phase has steps behind it.
proof fn lemma_batch_history(rows: usize, events: Seq<ClientEventView>)
    ensures
        ({
            let session = run_spec(ClientCall::BatchInsert { rows }, events).0;
            &&& session.call == ClientCall::BatchInsert { rows }
            &&& session.well_formed()
            &&& session.phase is Acquiring ==> events.len() == 0
            &&& session.phase is Beginning ==> events.len() == 1 && all_succeeded(events)
            &&& session.phase matches ClientPhaseView::Inserting { next } ==> events.len() == next
                + 2
                && all_succeeded(events)
            &&& session.phase is Committing ==> events.len() == rows + 2 && all_succeeded(events)
            &&& session.phase matches ClientPhaseView::RollingBack(failure) ==> {
                &&& 3 <= events.len() <= rows + 2
                &&& all_succeeded(events.drop_last())
                &&& events.last() matches ClientEventView::Failed(cause)
                &&& failure == PostgresErrorView::PgError(cause)
            }
            &&& !(session.phase is Running)
        }),
    decreases events.len(),
{
    if events.len() > 0 {
        lemma_batch_history(rows, events.drop_last());
        let before = run_spec(ClientCall::BatchInsert { rows }, events.drop_last()).0;
        if events.last() is Succeeded && all_succeeded(events.drop_last()) {
            assert forall|i: int| 0 <= i < events.len() implies events[i] is Succeeded by {
                if i < events.len() - 1 {
                    assert(events.drop_last()[i] is Succeeded);
                }
            }
        }
    }
}

/// A batch is committed only after every parameter set was executed with
/// success: where the action is `Commit`, a connection was had, the
/// transaction was begun and each of the `rows` executions succeeded, and
/// nothing else was reported.
pub proof fn lemma_commit_follows_every_row(rows: usize, events: Seq<ClientEventView>)
    requires
        run_spec(ClientCall::BatchInsert { rows }, events).1 is Commit,
    ensures
        events.len() == rows + 2,
        all_succeeded(events),
{
    lemma_batch_history(rows, events);
    if events.len() > 0 {
        lemma_batch_history(rows, events.drop_last());
    }
}

/// A batch with a failure among its steps is never committed, at no point
/// and whatever is reported afterwards: none of its rows becomes visible.
pub proof fn lemma_no_commit_after_failure(
    rows: usize,
    events: Seq<ClientEventView>,
    failed: int,
    k: int,
)
    requires
        0 <= failed < events.len(),
        failed < rows + 2,
        events[failed] is Failed,
        0 <= k <= events.len(),
    ensures
        !(run_spec(ClientCall::BatchInsert { rows }, events.take(k)).1 is Commit),
{
    if run_spec(ClientCall::BatchInsert { rows }, events.take(k)).1 is Commit {
        lemma_commit_follows_every_row(rows, events.take(k));
        assert(events.take(k)[failed] is Succeeded);
    }
}

/// A batch whose parameter set `failed` is refused is rolled back and ends
/// with the database's error, whatever the rollback reports: the reports are
/// a connection, the begun transaction, `failed` successful executions and
/// the failure.
pub proof fn lemma_failed_row_rolls_back(
    rows: usize,
    events: Seq<ClientEventView>,
    failed: int,
    report: ClientEventView,
)
    requires
        0 <= failed < rows,
        events.len() == failed + 3,
        all_succeeded(events.drop_last()),
        events.last() is Failed,
    ensures
        run_spec(ClientCall::BatchInsert { rows }, events).1 is Rollback,
        run_spec(ClientCall::BatchInsert { rows }, events.push(report)).1
            == ClientActionView::Finish(
            ClientOutcomeView::Failed(PostgresErrorView::PgError(events.last()->Failed_0)),
        ),
        run_spec(ClientCall::BatchInsert { rows }, events.push(report)).0.phase is Finished,
{
    lemma_all_succeeded_run(rows, events.drop_last());
    assert(events.push(report).drop_last() =~= events);
}

/// While every report is a success, a batch takes its steps in order: the
/// connection, the transaction, each parameter set, the commit, the end.
pub proof fn lemma_all_succeeded_run(rows: usize, events: Seq<ClientEventView>)
    requires
        all_succeeded(events),
        events.len() <= rows + 3,
    ensures
        ({
            let r = run_spec(ClientCall::BatchInsert { rows }, events);
            let n = events.len();
            &&& r.0.call == ClientCall::BatchInsert { rows }
            &&& n == 0 ==> r.1 is AcquireConnection && r.0.phase is Acquiring
            &&& n == 1 ==> r.1 is BeginTransaction && r.0.phase is Beginning
            &&& 2 <= n < rows + 2 ==> r.1 == ClientActionView::ExecuteRow((n - 2) as usize)
                && r.0.phase == (ClientPhaseView::Inserting { next: (n - 2) as usize })
            &&& n == rows + 2 ==> r.1 is Commit && r.0.phase is Committing
            &&& n == rows + 3 ==> r.1 == ClientActionView::Finish(ClientOutcomeView::Completed)
                && r.0.phase is Finished
        }),
    decreases events.len(),
{
    if events.len() > 0 {
        assert(all_succeeded(events.drop_last())) by {
            assert forall|i: int| 0 <= i < events.drop_last().len() implies events.drop_last()[i]
                is Succeeded by {
                assert(events[i] is Succeeded);
            }
        }
        lemma_all_succeeded_run(rows, events.drop_last());
        assert(events.last() is Succeeded);
    }
}

/// Once a call has ended, no report makes it act again.
pub proof fn lemma_finished_stays(session: ClientSessionView, event: ClientEventView)
    requires
        session.phase is Finished,
    ensures
        step_spec(session, event) == (session, ClientActionView::Nothing),
{
}

} // verus!
