//! The decisions of a migration run, as a machine: the caller performs each
//! action against the source and the destination and hands back what came of
//! it; the machine says what to do next.

use vstd::prelude::*;
use crate::builder::{create_mongo_document, document_of, ColumnError, Unreadable};
use crate::confirm::{consents, is_confirmed};
use crate::document::{Document, Fields};
use crate::row::{Cells, Row};
use crate::schema::{get_tables, names_of, user_tables};

verus! {

/// How a run was asked for.
#[derive(Debug, Clone, Copy, PartialEq, Eq)]
pub struct Options {
    /// Read, type and count, but leave the destination as it is.
    pub dry_run: bool,
    /// Store each column under the lower camel case form of its name.
    pub lower_camel: bool,
}

/// Where a run stands: the action that was handed out last and whose result
/// is awaited, or how the run ended.
#[derive(Debug, Clone, Copy, PartialEq, Eq)]
pub enum Stage {
    Connecting,
    Listing,
    Confirming,
    Dropping,
    Reading,
    Scanning,
    Inserting,
    Reporting,
    Finished,
    Aborted,
    Failed,
}

/// Why a run failed.
#[derive(Debug, PartialEq, Eq)]
pub enum MigrationError {
    /// The source or the destination could not be opened or reached.
    Connection,
    /// The operator's answer could not be read.
    Prompt,
    /// The table `scanned` could not be read; with `None`, the catalog could
    /// not be listed.
    Query { scanned: Option<String> },
    /// A cell has no known type.
    UnrecognizedType { table: String, column: String, sql_type: String },
    /// A document could not be inserted into `collection`; with `None`, the
    /// destination could not be dropped.
    Write { collection: Option<String> },
    /// The caller handed back something other than the result of the action
    /// it was given.
    OutOfTurn,
}

/// The mathematical content of a [`MigrationError`].
pub enum Failure {
    Connection,
    Prompt,
    Query { scanned: Option<Seq<char>> },
    UnrecognizedType { table: Seq<char>, column: Seq<char>, sql_type: Seq<char> },
    Write { collection: Option<Seq<char>> },
    OutOfTurn,
}

/// The characters of a name that may be absent.
pub open spec fn name_of(name: Option<String>) -> Option<Seq<char>> {
    match name {
        Some(n) => Some(n@),
        None => None,
    }
}

impl View for MigrationError {
    type V = Failure;

    open spec fn view(&self) -> Failure {
        match self {
            MigrationError::Connection => Failure::Connection,
            MigrationError::Prompt => Failure::Prompt,
            MigrationError::Query { scanned } => Failure::Query { scanned: name_of(*scanned) },
            MigrationError::UnrecognizedType { table, column, sql_type } => {
                Failure::UnrecognizedType { table: table@, column: column@, sql_type: sql_type@ }
            },
            MigrationError::Write { collection } => Failure::Write {
                collection: name_of(*collection),
            },
            MigrationError::OutOfTurn => Failure::OutOfTurn,
        }
    }
}

/// What came of the action that the machine handed out last.
#[derive(Debug, PartialEq, Eq)]
pub enum Event {
    /// Source and destination are open.
    Connected,
    /// The destination holds this many collections.
    Collections(usize),
    /// The operator's line.
    Answer(String),
    /// The destination was dropped.
    Dropped,
    /// The names of the source's tables, as its catalog lists them.
    Tables(Vec<String>),
    /// All rows of the table that was to be scanned.
    Rows(Vec<Row>),
    /// The document was inserted.
    Inserted,
    /// The row count was shown to the operator.
    Reported,
    /// The action failed.
    Failed,
}

/// The mathematical content of an [`Event`].
pub enum Signal {
    Connected,
    Collections(nat),
    Answer(Seq<char>),
    Dropped,
    Tables(Seq<Seq<char>>),
    Rows(Seq<Cells>),
    Inserted,
    Reported,
    Failed,
}

/// The rows of a table, each by its content.
pub open spec fn rows_of(rows: Seq<Row>) -> Seq<Cells> {
    rows.map_values(|r: Row| r@)
}

impl View for Event {
    type V = Signal;

    open spec fn view(&self) -> Signal {
        match self {
            Event::Connected => Signal::Connected,
            Event::Collections(n) => Signal::Collections(*n as nat),
            Event::Answer(line) => Signal::Answer(line@),
            Event::Dropped => Signal::Dropped,
            Event::Tables(names) => Signal::Tables(names_of(names@)),
            Event::Rows(rows) => Signal::Rows(rows_of(rows@)),
            Event::Inserted => Signal::Inserted,
            Event::Reported => Signal::Reported,
            Event::Failed => Signal::Failed,
        }
    }
}

/// What the caller is to do next.
#[derive(Debug, PartialEq, Eq)]
pub enum Action {
    /// Open the source and the destination.
    Connect,
    /// Count the collections that the destination holds.
    ListCollections,
    /// Ask the operator whether the destination may be dropped, and read one
    /// line.
    Prompt,
    /// Drop the destination with all its collections.
    DropDatabase,
    /// List the tables of the source.
    ListTables,
    /// Read all rows of a table.
    Scan { table: String },
    /// Insert one document into the collection of that name.
    Insert { collection: String, document: Document },
    /// Tell the operator how many rows of a table were handled.
    Report { table: String, rows: usize },
    /// The run is complete.
    Finish,
    /// The operator did not consent: leave without changes.
    Abort,
    /// Give up with this error.
    Fail(MigrationError),
}

/// The mathematical content of an [`Action`].
pub enum Command {
    Connect,
    ListCollections,
    Prompt,
    DropDatabase,
    ListTables,
    Scan { table: Seq<char> },
    Insert { collection: Seq<char>, document: Fields },
    Report { table: Seq<char>, rows: nat },
    Finish,
    Abort,
    Fail(Failure),
}

impl View for Action {
    type V = Command;

    open spec fn view(&self) -> Command {
        match self {
            Action::Connect => Command::Connect,
            Action::ListCollections => Command::ListCollections,
            Action::Prompt => Command::Prompt,
            Action::DropDatabase => Command::DropDatabase,
            Action::ListTables => Command::ListTables,
            Action::Scan { table } => Command::Scan { table: table@ },
            Action::Insert { collection, document } => Command::Insert {
                collection: collection@,
                document: document@,
            },
            Action::Report { table, rows } => Command::Report { table: table@, rows: *rows as nat },
            Action::Finish => Command::Finish,
            Action::Abort => Command::Abort,
            Action::Fail(e) => Command::Fail(e@),
        }
    }
}

/// Whether a command changes the destination.
pub open spec fn mutates(command: Command) -> bool {
    command is DropDatabase || command is Insert
}

/// The rows of one table that a run has handled.
#[derive(Debug, Clone, PartialEq, Eq)]
pub struct TableCount {
    pub table: String,
    pub rows: usize,
}

/// The mathematical content of the state of a run.
pub struct State {
    pub options: Options,
    pub stage: Stage,
    /// The user's tables, in the order in which they are migrated.
    pub tables: Seq<Seq<char>>,
    /// The index of the table in progress.
    pub current: nat,
    /// The rows of the table in progress.
    pub rows: Seq<Cells>,
    /// How many of these rows have been handled.
    pub done: nat,
    /// The tables that are complete, each with its row count.
    pub report: Seq<(Seq<char>, nat)>,
    /// Why the run failed, if it did.
    pub failure: Option<Failure>,
}

impl State {
    /// What holds of the state of every run.
    pub open spec fn wf(self) -> bool {
        &&& self.done <= self.rows.len()
        &&& self.report.len() <= self.tables.len()
        &&& (self.stage is Scanning || self.stage is Inserting || self.stage is Reporting)
            ==> self.current < self.tables.len() && self.report.len() == self.current
        &&& self.stage is Inserting ==> self.done < self.rows.len()
        &&& self.stage is Reporting ==> self.done == self.rows.len()
        &&& self.stage is Failed <==> self.failure is Some
    }

    /// The state of a run that has not begun.
    pub open spec fn initial(options: Options) -> State {
        State {
            options,
            stage: Stage::Connecting,
            tables: Seq::empty(),
            current: 0,
            rows: Seq::empty(),
            done: 0,
            report: Seq::empty(),
            failure: None,
        }
    }

    /// The run gives up.
    pub open spec fn fail(self, failure: Failure) -> (State, Command) {
        (State { stage: Stage::Failed, failure: Some(failure), ..self }, Command::Fail(failure))
    }

    /// The run turns to the catalog of the source.
    pub open spec fn read_catalog(self) -> (State, Command) {
        (State { stage: Stage::Reading, ..self }, Command::ListTables)
    }

    /// The run turns to the table at `index`, or ends where there is none.
    pub open spec fn turn_to(self, index: nat) -> (State, Command) {
        let cleared = State { current: index, rows: Seq::empty(), done: 0, ..self };
        if index < self.tables.len() {
            (
                State { stage: Stage::Scanning, ..cleared },
                Command::Scan { table: self.tables[index as int] },
            )
        } else {
            (State { stage: Stage::Finished, ..cleared }, Command::Finish)
        }
    }

    /// The run goes on with the table in progress, from the first row that
    /// has not been handled. Each row is built into a document. A row that
    /// cannot be built ends the run. In a dry run the document is counted
    /// and dropped; otherwise it is handed out to be inserted. After the
    /// last row the count is reported.
    pub open spec fn advance(self) -> (State, Command)
        decreases self.rows.len() - self.done,
    {
        let table = self.tables[self.current as int];
        if self.done >= self.rows.len() {
            (
                State { stage: Stage::Reporting, ..self },
                Command::Report { table, rows: self.rows.len() },
            )
        } else {
            match document_of(self.rows[self.done as int], self.options.lower_camel) {
                Err(e) => self.fail(
                    Failure::UnrecognizedType { table, column: e.column, sql_type: e.sql_type },
                ),
                Ok(document) => {
                    if self.options.dry_run {
                        (State { done: self.done + 1, ..self }).advance()
                    } else {
                        (
                            State { stage: Stage::Inserting, ..self },
                            Command::Insert { collection: table, document },
                        )
                    }
                },
            }
        }
    }

    /// The failure that stands for an action of this stage that failed.
    pub open spec fn failure_of_stage(self) -> Failure {
        match self.stage {
            Stage::Connecting | Stage::Listing => Failure::Connection,
            Stage::Confirming => Failure::Prompt,
            Stage::Dropping => Failure::Write { collection: None },
            Stage::Reading => Failure::Query { scanned: None },
            Stage::Scanning => Failure::Query { scanned: Some(self.tables[self.current as int]) },
            Stage::Inserting => Failure::Write {
                collection: Some(self.tables[self.current as int]),
            },
            _ => Failure::OutOfTurn,
        }
    }

    /// The next state of a run and the command that it gives, for what came
    /// of the last command.
    pub open spec fn next(self, signal: Signal) -> (State, Command) {
        match (self.stage, signal) {
            (Stage::Finished, _) => (self, Command::Finish),
            (Stage::Aborted, _) => (self, Command::Abort),
            (Stage::Failed, _) => (self, Command::Fail(self.failure->0)),
            (Stage::Connecting, Signal::Connected) => (
                State { stage: Stage::Listing, ..self },
                Command::ListCollections,
            ),
            (Stage::Listing, Signal::Collections(n)) => {
                if n > 0 {
                    (State { stage: Stage::Confirming, ..self }, Command::Prompt)
                } else {
                    self.read_catalog()
                }
            },
            (Stage::Confirming, Signal::Answer(line)) => {
                if !consents(line) {
                    (State { stage: Stage::Aborted, ..self }, Command::Abort)
                } else if self.options.dry_run {
                    self.read_catalog()
                } else {
                    (State { stage: Stage::Dropping, ..self }, Command::DropDatabase)
                }
            },
            (Stage::Dropping, Signal::Dropped) => self.read_catalog(),
            (Stage::Reading, Signal::Tables(names)) => (State {
                tables: user_tables(names),
                report: Seq::empty(),
                ..self
            }).turn_to(0),
            (Stage::Scanning, Signal::Rows(rows)) => (State { rows, done: 0, ..self }).advance(),
            (Stage::Inserting, Signal::Inserted) => (State {
                done: self.done + 1,
                ..self
            }).advance(),
            (Stage::Reporting, Signal::Reported) => (State {
                report: self.report.push((self.tables[self.current as int], self.rows.len())),
                ..self
            }).turn_to(self.current + 1),
            (_, Signal::Failed) => self.fail(self.failure_of_stage()),
            _ => self.fail(Failure::OutOfTurn),
        }
    }
}

/// A step keeps what holds of every run.
pub proof fn lemma_next_keeps_wf(state: State, signal: Signal)
    requires
        state.wf(),
    ensures
        state.next(signal).0.wf(),
{
    match (state.stage, signal) {
        (Stage::Scanning, Signal::Rows(rows)) => {
            lemma_advance_keeps_wf(State { rows, done: 0, ..state });
        },
        (Stage::Inserting, Signal::Inserted) => {
            lemma_advance_keeps_wf(State { done: state.done + 1, ..state });
        },
        _ => {},
    }
}

/// Going on with a table keeps what holds of every run.
pub proof fn lemma_advance_keeps_wf(state: State)
    requires
        state.done <= state.rows.len(),
        state.current < state.tables.len(),
        state.report.len() == state.current,
        state.failure is None,
    ensures
        state.advance().0.wf(),
    decreases state.rows.len() - state.done,
{
    if state.done < state.rows.len() {
        if document_of(state.rows[state.done as int], state.options.lower_camel) is Ok
            && state.options.dry_run {
            lemma_advance_keeps_wf(State { done: state.done + 1, ..state });
        }
    }
}

/// The report of a run, each table by its name and count.
pub open spec fn counts_of(report: Seq<TableCount>) -> Seq<(Seq<char>, nat)> {
    report.map_values(|c: TableCount| (c.table@, c.rows as nat))
}

/// The error once more.
fn duplicate(error: &MigrationError) -> (copy: MigrationError)
    ensures
        copy@ == error@,
{
    match error {
        MigrationError::Connection => MigrationError::Connection,
        MigrationError::Prompt => MigrationError::Prompt,
        MigrationError::Query { scanned: Some(t) } => MigrationError::Query {
            scanned: Some(t.clone()),
        },
        MigrationError::Query { scanned: None } => MigrationError::Query { scanned: None },
        MigrationError::UnrecognizedType { table, column, sql_type } => {
            MigrationError::UnrecognizedType {
                table: table.clone(),
                column: column.clone(),
                sql_type: sql_type.clone(),
            }
        },
        MigrationError::Write { collection: Some(t) } => MigrationError::Write {
            collection: Some(t.clone()),
        },
        MigrationError::Write { collection: None } => MigrationError::Write { collection: None },
        MigrationError::OutOfTurn => MigrationError::OutOfTurn,
    }
}

/// A migration run: one source table becomes one collection of the
/// destination, one row one document.
#[derive(Debug)]
pub struct Migration {
    options: Options,
    stage: Stage,
    tables: Vec<String>,
    current: usize,
    rows: Vec<Row>,
    done: usize,
    report: Vec<TableCount>,
    failure: Option<MigrationError>,
}

impl View for Migration {
    type V = State;

    closed spec fn view(&self) -> State {
        State {
            options: self.options,
            stage: self.stage,
            tables: names_of(self.tables@),
            current: self.current as nat,
            rows: rows_of(self.rows@),
            done: self.done as nat,
            report: counts_of(self.report@),
            failure: match self.failure {
                Some(e) => Some(e@),
                None => None,
            },
        }
    }
}

impl Migration {
    /// What holds of every run: see [`State::wf`].
    pub open spec fn wf(&self) -> bool {
        self@.wf()
    }

    proof fn lemma_lengths(&self)
        ensures
            self@.tables.len() == self.tables@.len(),
            self@.rows.len() == self.rows@.len(),
            self@.report.len() == self.report@.len(),
            self@.current == self.current,
            self@.done == self.done,
    {
    }

    /// Begins a run. The first thing to do is to open the source and the
    /// destination.
    pub fn start(options: Options) -> (begun: (Migration, Action))
        ensures
            begun.0.wf(),
            begun.0@ == State::initial(options),
            begun.1@ == Command::Connect,
    {
        let run = Migration {
            options,
            stage: Stage::Connecting,
            tables: Vec::new(),
            current: 0,
            rows: Vec::new(),
            done: 0,
            report: Vec::new(),
            failure: None,
        };
        assert(run@.tables =~= Seq::empty());
        assert(run@.rows =~= Seq::empty());
        assert(run@.report =~= Seq::empty());
        (run, Action::Connect)
    }

    /// How the run was asked for.
    pub fn options(&self) -> (options: Options)
        ensures
            options == self@.options,
    {
        self.options
    }

    /// Where the run stands.
    pub fn stage(&self) -> (stage: Stage)
        ensures
            stage == self@.stage,
    {
        self.stage
    }

    /// The tables that are complete, in the order in which they were
    /// migrated, each with the number of its rows.
    pub fn report(&self) -> (report: &Vec<TableCount>)
        ensures
            counts_of(report@) == self@.report,
    {
        &self.report
    }

    fn fail(&mut self, error: MigrationError) -> (action: Action)
        ensures
            (final(self)@, action@) == old(self)@.fail(error@),
    {
        let again = duplicate(&error);
        self.stage = Stage::Failed;
        self.failure = Some(error);
        Action::Fail(again)
    }

    fn read_catalog(&mut self) -> (action: Action)
        ensures
            (final(self)@, action@) == old(self)@.read_catalog(),
    {
        self.stage = Stage::Reading;
        Action::ListTables
    }

    fn turn_to(&mut self, index: usize) -> (action: Action)
        ensures
            (final(self)@, action@) == old(self)@.turn_to(index as nat),
    {
        self.current = index;
        self.rows = Vec::new();
        self.done = 0;
        assert(rows_of(self.rows@) =~= Seq::empty());
        if index < self.tables.len() {
            self.stage = Stage::Scanning;
            Action::Scan { table: self.tables[index].clone() }
        } else {
            self.stage = Stage::Finished;
            Action::Finish
        }
    }

    fn advance(&mut self) -> (action: Action)
        requires
            old(self)@.done <= old(self)@.rows.len(),
            old(self)@.current < old(self)@.tables.len(),
        ensures
            (final(self)@, action@) == old(self)@.advance(),
            action matches Action::Insert { document, .. } ==> document.wf(),
    {
        while self.done < self.rows.len()
            invariant
                self.done <= self.rows.len(),
                self.current < self.tables.len(),
                self@.advance() == old(self)@.advance(),
            decreases self.rows.len() - self.done,
        {
            let ghost before = self@;
            match create_mongo_document(&self.rows[self.done], self.options.lower_camel) {
                Err(e) => {
                    let error = MigrationError::UnrecognizedType {
                        table: self.tables[self.current].clone(),
                        column: e.column,
                        sql_type: e.sql_type,
                    };
                    return self.fail(error);
                },
                Ok(document) => {
                    if self.options.dry_run {
                        self.done = self.done + 1;
                        assert(self@ == State { done: before.done + 1, ..before });
                    } else {
                        self.stage = Stage::Inserting;
                        assert(self@ == State { stage: Stage::Inserting, ..before });
                        return Action::Insert {
                            collection: self.tables[self.current].clone(),
                            document,
                        };
                    }
                },
            }
        }
        let ghost before = self@;
        self.stage = Stage::Reporting;
        assert(self@ == State { stage: Stage::Reporting, ..before });
        Action::Report { table: self.tables[self.current].clone(), rows: self.rows.len() }
    }

    /// Takes what came of the last action and says what to do next.
    ///
    /// A run that has ended stays as it is and repeats how it ended. What is
    /// not the result of the action that was handed out last ends the run as
    /// out of turn.
    pub fn step(&mut self, event: Event) -> (action: Action)
        requires
            old(self).wf(),
        ensures
            final(self).wf(),
            (final(self)@, action@) == old(self)@.next(event@),
            action matches Action::Insert { document, .. } ==> document.wf(),
    {
        proof {
            self.lemma_lengths();
            lemma_next_keeps_wf(self@, event@);
            assert(self@.stage is Inserting ==> self.done < self.rows.len());
            assert(self@.stage is Reporting ==> self.current < self.tables.len());
        }
        match self.stage {
            Stage::Finished => Action::Finish,
            Stage::Aborted => Action::Abort,
            Stage::Failed => match &self.failure {
                Some(e) => Action::Fail(duplicate(e)),
                None => Action::Fail(MigrationError::OutOfTurn),
            },
            Stage::Connecting => match event {
                Event::Connected => {
                    self.stage = Stage::Listing;
                    Action::ListCollections
                },
                Event::Failed => self.fail(MigrationError::Connection),
                _ => self.fail(MigrationError::OutOfTurn),
            },
            Stage::Listing => match event {
                Event::Collections(n) => {
                    if n > 0 {
                        self.stage = Stage::Confirming;
                        Action::Prompt
                    } else {
                        self.read_catalog()
                    }
                },
                Event::Failed => self.fail(MigrationError::Connection),
                _ => self.fail(MigrationError::OutOfTurn),
            },
            Stage::Confirming => match event {
                Event::Answer(line) => {
                    if !is_confirmed(line.as_str()) {
                        self.stage = Stage::Aborted;
                        Action::Abort
                    } else if self.options.dry_run {
                        self.read_catalog()
                    } else {
                        self.stage = Stage::Dropping;
                        Action::DropDatabase
                    }
                },
                Event::Failed => self.fail(MigrationError::Prompt),
                _ => self.fail(MigrationError::OutOfTurn),
            },
            Stage::Dropping => match event {
                Event::Dropped => self.read_catalog(),
                Event::Failed => self.fail(MigrationError::Write { collection: None }),
                _ => self.fail(MigrationError::OutOfTurn),
            },
            Stage::Reading => match event {
                Event::Tables(names) => {
                    self.tables = get_tables(names);
                    self.report = Vec::new();
                    assert(counts_of(self.report@) =~= Seq::empty());
                    self.turn_to(0)
                },
                Event::Failed => self.fail(MigrationError::Query { scanned: None }),
                _ => self.fail(MigrationError::OutOfTurn),
            },
            Stage::Scanning => match event {
                Event::Rows(rows) => {
                    self.rows = rows;
                    self.done = 0;
                    self.advance()
                },
                Event::Failed => {
                    let table = self.tables[self.current].clone();
                    self.fail(MigrationError::Query { scanned: Some(table) })
                },
                _ => self.fail(MigrationError::OutOfTurn),
            },
            Stage::Inserting => match event {
                Event::Inserted => {
                    self.done = self.done + 1;
                    self.advance()
                },
                Event::Failed => {
                    let table = self.tables[self.current].clone();
                    self.fail(MigrationError::Write { collection: Some(table) })
                },
                _ => self.fail(MigrationError::OutOfTurn),
            },
            Stage::Reporting => match event {
                Event::Reported => {
                    let ghost before = self@;
                    let count = TableCount {
                        table: self.tables[self.current].clone(),
                        rows: self.rows.len(),
                    };
                    self.report.push(count);
                    assert(counts_of(self.report@) =~= before.report.push(
                        (before.tables[before.current as int], before.rows.len()),
                    ));
                    self.turn_to(self.current + 1)
                },
                _ => self.fail(MigrationError::OutOfTurn),
            },
        }
    }
}

} // verus!
