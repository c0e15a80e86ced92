//! Whole runs of the migration machine against a source and a destination
//! that answer every action, and what holds of them.

use vstd::prelude::*;
use crate::builder::{document_of, Unreadable};
use crate::confirm::consents;
use crate::migrate::{
    lemma_next_keeps_wf, mutates, Command, Failure, Options, Signal, Stage, State,
};
use crate::row::Cells;
use crate::schema::user_tables;

verus! {

/// What a run meets: a destination, an operator and a source, none of which
/// fails.
pub struct World {
    /// How many collections the destination holds before the run.
    pub collections: nat,
    /// The line that the operator gives when asked.
    pub answer: Seq<char>,
    /// The names of the source's tables, as its catalog lists them.
    pub listed: Seq<Seq<char>>,
    /// The rows of each table of the source.
    pub contents: Map<Seq<char>, Seq<Cells>>,
}

impl World {
    /// The rows of a table; none for a table that the source does not hold.
    pub open spec fn rows(self, table: Seq<char>) -> Seq<Cells> {
        if self.contents.dom().contains(table) {
            self.contents[table]
        } else {
            Seq::empty()
        }
    }

    /// What comes of a command.
    pub open spec fn respond(self, command: Command) -> Signal {
        match command {
            Command::Connect => Signal::Connected,
            Command::ListCollections => Signal::Collections(self.collections),
            Command::Prompt => Signal::Answer(self.answer),
            Command::DropDatabase => Signal::Dropped,
            Command::ListTables => Signal::Tables(self.listed),
            Command::Scan { table } => Signal::Rows(self.rows(table)),
            Command::Insert { .. } => Signal::Inserted,
            _ => Signal::Reported,
        }
    }
}

/// Whether a command ends a run.
pub open spec fn is_final(command: Command) -> bool {
    command is Finish || command is Abort || command is Fail
}

/// How far a stage is from the tables: the first measure of what is left of
/// a run.
pub open spec fn phase(stage: Stage) -> nat {
    match stage {
        Stage::Connecting => 6,
        Stage::Listing => 5,
        Stage::Confirming => 4,
        Stage::Dropping => 3,
        Stage::Reading => 2,
        Stage::Scanning | Stage::Inserting | Stage::Reporting => 1,
        Stage::Finished | Stage::Aborted | Stage::Failed => 0,
    }
}

/// How far a stage is from the end of its table.
pub open spec fn turn(stage: Stage) -> nat {
    match stage {
        Stage::Scanning => 2,
        Stage::Inserting => 1,
        _ => 0,
    }
}

/// Whether `command` is what a run in `state` has handed out last.
pub open spec fn awaits(state: State, command: Command) -> bool {
    match state.stage {
        Stage::Connecting => command is Connect,
        Stage::Listing => command is ListCollections,
        Stage::Confirming => command is Prompt,
        Stage::Dropping => command is DropDatabase,
        Stage::Reading => command is ListTables,
        Stage::Scanning => command == (Command::Scan {
            table: state.tables[state.current as int],
        }),
        Stage::Inserting => {
            &&& state.done < state.rows.len()
            &&& document_of(
                state.rows[state.done as int],
                state.options.lower_camel,
            ) matches Ok(document)
            &&& command == (Command::Insert {
                collection: state.tables[state.current as int],
                document,
            })
        },
        Stage::Reporting => command == (Command::Report {
            table: state.tables[state.current as int],
            rows: state.rows.len(),
        }),
        Stage::Finished => command is Finish,
        Stage::Aborted => command is Abort,
        Stage::Failed => state.failure matches Some(failure) && command == Command::Fail(failure),
    }
}

/// The run from `state`, in which `command` was handed out last: the state
/// in which it ends, and the commands from `command` on, in order.
pub open spec fn run_from(world: World, state: State, command: Command) -> (State, Seq<Command>)
    decreases
        phase(state.stage),
        state.tables.len() - state.current,
        turn(state.stage),
        state.rows.len() - state.done,
{
    if is_final(command) {
        (state, seq![command])
    } else {
        let (then, following) = state.next(world.respond(command));
        if decreases_to!(
            phase(state.stage),
            state.tables.len() - state.current,
            turn(state.stage),
            state.rows.len() - state.done
            =>
            phase(then.stage),
            then.tables.len() - then.current,
            turn(then.stage),
            then.rows.len() - then.done
        ) {
            let (last, rest) = run_from(world, then, following);
            (last, seq![command] + rest)
        } else {
            (then, seq![command, following])
        }
    }
}

/// A whole run: the state in which it ends, and its commands in order.
pub open spec fn run(options: Options, world: World) -> (State, Seq<Command>) {
    run_from(world, State::initial(options), Command::Connect)
}

/// The first row, from `from` on, that cannot be built into a document.
pub open spec fn first_unreadable(rows: Seq<Cells>, from: nat, lower_camel: bool) -> Option<
    Unreadable,
>
    decreases rows.len() - from,
{
    if from >= rows.len() {
        None
    } else {
        match document_of(rows[from as int], lower_camel) {
            Err(e) => Some(e),
            Ok(_) => first_unreadable(rows, from + 1, lower_camel),
        }
    }
}

/// Going on with a table changes the stage and the count of rows handled,
/// and nothing else but a failure. It ends in a report, a failure, or, in a
/// run that is not dry, a document to insert.
pub proof fn lemma_advance(state: State)
    requires
        state.done <= state.rows.len(),
        state.failure is None,
    ensures
        ({
            let (then, command) = state.advance();
            let table = state.tables[state.current as int];
            &&& then.options == state.options
            &&& then.tables == state.tables
            &&& then.current == state.current
            &&& then.rows == state.rows
            &&& then.report == state.report
            &&& state.done <= then.done <= state.rows.len()
            &&& first_unreadable(state.rows, state.done, state.options.lower_camel)
                == first_unreadable(state.rows, then.done, state.options.lower_camel)
            &&& match command {
                Command::Report { table: t, rows } => {
                    &&& then.stage is Reporting
                    &&& then.done == state.rows.len()
                    &&& then.failure is None
                    &&& t == table
                    &&& rows == state.rows.len()
                },
                Command::Fail(failure) => {
                    &&& then.stage is Failed
                    &&& then.failure == Some(failure)
                    &&& then.done < state.rows.len()
                    &&& document_of(
                        state.rows[then.done as int],
                        state.options.lower_camel,
                    ) matches Err(e)
                    &&& failure == (Failure::UnrecognizedType {
                        table,
                        column: e.column,
                        sql_type: e.sql_type,
                    })
                },
                Command::Insert { collection, document } => {
                    &&& !state.options.dry_run
                    &&& then.stage is Inserting
                    &&& then.done == state.done
                    &&& then.done < state.rows.len()
                    &&& then.failure is None
                    &&& collection == table
                    &&& document_of(state.rows[then.done as int], state.options.lower_camel)
                        == Ok::<crate::document::Fields, Unreadable>(document)
                },
                _ => false,
            }
        }),
    decreases state.rows.len() - state.done,
{
    if state.done < state.rows.len() {
        if document_of(state.rows[state.done as int], state.options.lower_camel) is Ok
            && state.options.dry_run {
            lemma_advance(State { done: state.done + 1, ..state });
        }
    }
}

/// One step of a run that has not ended: the state stays well formed, the
/// machine hands out the command that its new stage awaits, the options
/// stay, and less is left of the run than before.
pub proof fn lemma_step(world: World, state: State, command: Command)
    requires
        state.wf(),
        awaits(state, command),
        !is_final(command),
    ensures
        ({
            let (then, following) = state.next(world.respond(command));
            &&& then.wf()
            &&& awaits(then, following)
            &&& then.options == state.options
            &&& decreases_to!(
                phase(state.stage),
                state.tables.len() - state.current,
                turn(state.stage),
                state.rows.len() - state.done
                =>
                phase(then.stage),
                then.tables.len() - then.current,
                turn(then.stage),
                then.rows.len() - then.done
            )
            &&& run_from(world, state, command) == (
                run_from(world, then, following).0,
                seq![command] + run_from(world, then, following).1,
            )
        }),
{
    lemma_next_keeps_wf(state, world.respond(command));
    match state.stage {
        Stage::Scanning => {
            let rows = world.rows(state.tables[state.current as int]);
            lemma_advance(State { rows, done: 0, ..state });
        },
        Stage::Inserting => {
            lemma_advance(State { done: state.done + 1, ..state });
        },
        _ => {},
    }
}

/// Whether a run gets to the source: the destination is empty, or the
/// operator consents.
pub open spec fn proceeds(world: World) -> bool {
    world.collections == 0 || consents(world.answer)
}

/// The commands with which a run opens, up to the reading of the catalog or
/// to the operator's refusal. A dry run asks as any other, and drops nothing.
pub open spec fn opening(options: Options, world: World) -> Seq<Command> {
    let first = seq![Command::Connect, Command::ListCollections];
    if world.collections == 0 {
        first
    } else if !consents(world.answer) {
        first + seq![Command::Prompt, Command::Abort]
    } else if options.dry_run {
        first + seq![Command::Prompt]
    } else {
        first + seq![Command::Prompt, Command::DropDatabase]
    }
}

/// The state in which a run turns to the catalog of the source.
pub open spec fn at_catalog(options: Options) -> State {
    State { stage: Stage::Reading, ..State::initial(options) }
}

/// How a run opens. Where it does not get to the source, its opening is all
/// of it and it ends as given up. Otherwise it goes on from the reading of
/// the catalog, with nothing changed but the stage.
pub proof fn lemma_opening(options: Options, world: World)
    ensures
        at_catalog(options).wf(),
        !proceeds(world) ==> run(options, world) == (
            State { stage: Stage::Aborted, ..State::initial(options) },
            opening(options, world),
        ),
        proceeds(world) ==> run(options, world) == (
            run_from(world, at_catalog(options), Command::ListTables).0,
            opening(options, world) + run_from(
                world,
                at_catalog(options),
                Command::ListTables,
            ).1,
        ),
{
    let rest = run_from(world, at_catalog(options), Command::ListTables).1;
    let s0 = State::initial(options);
    lemma_step(world, s0, Command::Connect);
    let (s1, c1) = s0.next(world.respond(Command::Connect));
    lemma_step(world, s1, c1);
    let (s2, c2) = s1.next(world.respond(c1));
    if world.collections > 0 {
        lemma_step(world, s2, c2);
        let (s3, c3) = s2.next(world.respond(c2));
        if consents(world.answer) && !options.dry_run {
            lemma_step(world, s3, c3);
        }
    }
    if proceeds(world) {
        assert(run(options, world).1 =~= opening(options, world) + rest);
    } else {
        assert(run(options, world).1 =~= opening(options, world));
    }
}

/// The row counts of a run, table by table.
pub type Report = Seq<(Seq<char>, nat)>;

/// The failure of a table with a row that cannot be built.
pub open spec fn unreadable_in(table: Seq<char>, e: Unreadable) -> Failure {
    Failure::UnrecognizedType { table, column: e.column, sql_type: e.sql_type }
}

/// What becomes of the tables from `from` on, after `report`: each table
/// whose rows can all be built adds its name and the number of its rows;
/// the first table with a row that cannot be built ends the run.
pub open spec fn tables_outcome(
    world: World,
    tables: Seq<Seq<char>>,
    from: nat,
    report: Report,
    lower_camel: bool,
) -> (Report, Option<Failure>)
    decreases tables.len() - from,
{
    if from >= tables.len() {
        (report, None)
    } else {
        let table = tables[from as int];
        let rows = world.rows(table);
        match first_unreadable(rows, 0, lower_camel) {
            Some(e) => (report, Some(unreadable_in(table, e))),
            None => tables_outcome(
                world,
                tables,
                from + 1,
                report.push((table, rows.len())),
                lower_camel,
            ),
        }
    }
}

/// What becomes of a run that stands at a table: the rows that are left of
/// the table in progress, then the tables after it.
pub open spec fn outcome_from(world: World, state: State) -> (Report, Option<Failure>) {
    let table = state.tables[state.current as int];
    let lower_camel = state.options.lower_camel;
    let after = tables_outcome(
        world,
        state.tables,
        state.current + 1,
        state.report.push((table, state.rows.len())),
        lower_camel,
    );
    match state.stage {
        Stage::Scanning => tables_outcome(
            world,
            state.tables,
            state.current,
            state.report,
            lower_camel,
        ),
        Stage::Inserting => match first_unreadable(state.rows, state.done + 1, lower_camel) {
            Some(e) => (state.report, Some(unreadable_in(table, e))),
            None => after,
        },
        Stage::Reporting => after,
        _ => (state.report, state.failure),
    }
}

/// The command that ends a run, by whether it failed.
pub open spec fn closing(failure: Option<Failure>) -> Command {
    match failure {
        Some(f) => Command::Fail(f),
        None => Command::Finish,
    }
}

/// A run that stands at a table ends as `outcome_from` says, dry or not.
pub proof fn lemma_run_outcome(world: World, state: State, command: Command)
    requires
        state.wf(),
        awaits(state, command),
        phase(state.stage) == 1,
    ensures
        ({
            let (last, trace) = run_from(world, state, command);
            &&& (last.report, last.failure) == outcome_from(world, state)
            &&& trace.len() > 0
            &&& trace.last() == closing(last.failure)
        }),
    decreases
        phase(state.stage),
        state.tables.len() - state.current,
        turn(state.stage),
        state.rows.len() - state.done,
{
    lemma_step(world, state, command);
    let lower_camel = state.options.lower_camel;
    let (then, following) = state.next(world.respond(command));
    let (last, rest) = run_from(world, then, following);
    if phase(then.stage) == 1 {
        lemma_run_outcome(world, then, following);
    }
    assert((seq![command] + rest).last() == rest.last());
    match state.stage {
        Stage::Scanning => {
            let rows = world.rows(state.tables[state.current as int]);
            lemma_advance(State { rows, done: 0, ..state });
        },
        Stage::Inserting => {
            lemma_advance(State { done: state.done + 1, ..state });
        },
        _ => {},
    }
}

/// How a whole run ends: its report and its last command. A run is given up
/// where the destination holds collections and the operator does not
/// consent; otherwise the user's tables are taken in the order of the
/// catalog. Whether the run is dry plays no part.
pub open spec fn outcome(lower_camel: bool, world: World) -> (Report, Command) {
    if world.collections > 0 && !consents(world.answer) {
        (Seq::empty(), Command::Abort)
    } else {
        let (report, failure) = tables_outcome(
            world,
            user_tables(world.listed),
            0,
            Seq::empty(),
            lower_camel,
        );
        (report, closing(failure))
    }
}

/// The run from the reading of the catalog on: it ends as the tables decide,
/// and gives the commands of the user's tables.
pub proof fn lemma_run_from_catalog(world: World, state: State)
    requires
        state.wf(),
        state.stage is Reading,
    ensures
        ({
            let (last, trace) = run_from(world, state, Command::ListTables);
            let tables = user_tables(world.listed);
            let (report, failure) = tables_outcome(
                world,
                tables,
                0,
                Seq::empty(),
                state.options.lower_camel,
            );
            &&& last.report == report
            &&& trace.last() == closing(failure)
            &&& trace == seq![Command::ListTables] + tables_commands(
                world,
                tables,
                0,
                state.options,
            )
        }),
{
    lemma_step(world, state, Command::ListTables);
    let (then, following) = state.next(world.respond(Command::ListTables));
    let rest = run_from(world, then, following).1;
    if then.stage is Scanning {
        lemma_run_outcome(world, then, following);
        lemma_run_commands(world, then, following);
    }
    assert((seq![Command::ListTables] + rest).last() == rest.last());
}

/// A whole run ends as `outcome` says: with that report and that last
/// command.
pub proof fn lemma_run_ends(options: Options, world: World)
    ensures
        run(options, world).0.report == outcome(options.lower_camel, world).0,
        run(options, world).1.len() > 0,
        run(options, world).1.last() == outcome(options.lower_camel, world).1,
{
    lemma_opening(options, world);
    if proceeds(world) {
        lemma_run_from_catalog(world, at_catalog(options));
        let rest = run_from(world, at_catalog(options), Command::ListTables).1;
        assert((opening(options, world) + rest).last() == rest.last());
    }
}

/// A dry run and a live run of the same source, destination and operator
/// report the same row count for every table and end with the same command.
pub proof fn lemma_dry_run_counts_match(dry: Options, live: Options, world: World)
    requires
        dry.dry_run,
        !live.dry_run,
        dry.lower_camel == live.lower_camel,
    ensures
        run(dry, world).0.report == run(live, world).0.report,
        run(dry, world).1.last() == run(live, world).1.last(),
{
    lemma_run_ends(dry, world);
    lemma_run_ends(live, world);
}

/// In a dry run, no command from `command` on changes the destination.
proof fn lemma_dry_run_from(world: World, state: State, command: Command)
    requires
        state.wf(),
        awaits(state, command),
        state.options.dry_run,
        !mutates(command),
    ensures
        forall|i: int|
            0 <= i < run_from(world, state, command).1.len() ==> !mutates(
                #[trigger] run_from(world, state, command).1[i],
            ),
    decreases
        phase(state.stage),
        state.tables.len() - state.current,
        turn(state.stage),
        state.rows.len() - state.done,
{
    if !is_final(command) {
        lemma_step(world, state, command);
        let (then, following) = state.next(world.respond(command));
        match state.stage {
            Stage::Scanning => {
                let rows = world.rows(state.tables[state.current as int]);
                lemma_advance(State { rows, done: 0, ..state });
            },
            _ => {},
        }
        lemma_dry_run_from(world, then, following);
    }
}

/// A dry run never drops the destination and never inserts a document.
pub proof fn lemma_dry_run_leaves_destination(options: Options, world: World)
    requires
        options.dry_run,
    ensures
        forall|i: int|
            0 <= i < run(options, world).1.len() ==> !mutates(#[trigger] run(options, world).1[i]),
{
    lemma_dry_run_from(world, State::initial(options), Command::Connect);
}

/// Where the destination holds collections and the operator's line is not
/// consent, the run asks and leaves: it drops nothing, reads no table and
/// inserts nothing.
pub proof fn lemma_refusal_leaves_destination(options: Options, world: World)
    requires
        world.collections > 0,
        !consents(world.answer),
    ensures
        run(options, world).1 == seq![
            Command::Connect,
            Command::ListCollections,
            Command::Prompt,
            Command::Abort,
        ],
        run(options, world).0.stage is Aborted,
{
    lemma_opening(options, world);
    assert(opening(options, world) =~= seq![
        Command::Connect,
        Command::ListCollections,
        Command::Prompt,
        Command::Abort,
    ]);
}

/// Where the destination holds collections and the operator consents, a run
/// that is not dry drops the destination before it reads the source.
pub proof fn lemma_consent_drops(options: Options, world: World)
    requires
        world.collections > 0,
        consents(world.answer),
        !options.dry_run,
    ensures
        run(options, world).1.len() > 4,
        run(options, world).1.take(5) == seq![
            Command::Connect,
            Command::ListCollections,
            Command::Prompt,
            Command::DropDatabase,
            Command::ListTables,
        ],
{
    lemma_opening(options, world);
    lemma_run_from_catalog(world, at_catalog(options));
    assert(run(options, world).1.take(5) =~= seq![
        Command::Connect,
        Command::ListCollections,
        Command::Prompt,
        Command::DropDatabase,
        Command::ListTables,
    ]);
}

/// The commands of a table from the row `from` on: in a run that is not
/// dry, one insert for each row, into the collection named as the table;
/// then the report of the row count. A row that cannot be built ends the
/// commands with the failure.
pub open spec fn table_commands(
    table: Seq<char>,
    rows: Seq<Cells>,
    from: nat,
    options: Options,
) -> Seq<Command>
    decreases rows.len() - from,
{
    if from >= rows.len() {
        seq![Command::Report { table, rows: rows.len() }]
    } else {
        match document_of(rows[from as int], options.lower_camel) {
            Err(e) => seq![Command::Fail(unreadable_in(table, e))],
            Ok(document) => {
                let rest = table_commands(table, rows, from + 1, options);
                if options.dry_run {
                    rest
                } else {
                    seq![Command::Insert { collection: table, document }] + rest
                }
            },
        }
    }
}

/// The commands of the tables from `from` on: each table is scanned and
/// gives its own commands; after the last table the run is complete.
/// Nothing follows a table with a row that cannot be built.
pub open spec fn tables_commands(
    world: World,
    tables: Seq<Seq<char>>,
    from: nat,
    options: Options,
) -> Seq<Command>
    decreases tables.len() - from,
{
    if from >= tables.len() {
        seq![Command::Finish]
    } else {
        let table = tables[from as int];
        let rows = world.rows(table);
        let own = seq![Command::Scan { table }] + table_commands(table, rows, 0, options);
        if first_unreadable(rows, 0, options.lower_camel) is None {
            own + tables_commands(world, tables, from + 1, options)
        } else {
            own
        }
    }
}

/// The commands of a whole run, in order: its opening and, where it gets to
/// the source, the reading of the catalog and the commands of the user's
/// tables.
pub open spec fn script(options: Options, world: World) -> Seq<Command> {
    if proceeds(world) {
        opening(options, world) + seq![Command::ListTables] + tables_commands(
            world,
            user_tables(world.listed),
            0,
            options,
        )
    } else {
        opening(options, world)
    }
}

/// The commands that are left of a run that stands at a table, from the
/// command that was handed out last.
pub open spec fn commands_from(world: World, state: State, command: Command) -> Seq<Command> {
    let table = state.tables[state.current as int];
    let next_tables = tables_commands(world, state.tables, state.current + 1, state.options);
    match state.stage {
        Stage::Scanning => tables_commands(world, state.tables, state.current, state.options),
        Stage::Inserting => {
            let own = seq![command] + table_commands(
                table,
                state.rows,
                state.done + 1,
                state.options,
            );
            if first_unreadable(state.rows, state.done + 1, state.options.lower_camel) is None {
                own + next_tables
            } else {
                own
            }
        },
        Stage::Reporting => seq![command] + next_tables,
        _ => seq![command],
    }
}

/// In a dry run a table gives one command: the report of its row count, or
/// the failure of its first row that cannot be built.
pub proof fn lemma_dry_table_commands(
    table: Seq<char>,
    rows: Seq<Cells>,
    from: nat,
    options: Options,
)
    requires
        options.dry_run,
    ensures
        table_commands(table, rows, from, options) == seq![
            match first_unreadable(rows, from, options.lower_camel) {
                Some(e) => Command::Fail(unreadable_in(table, e)),
                None => Command::Report { table, rows: rows.len() },
            },
        ],
    decreases rows.len() - from,
{
    if from < rows.len() {
        lemma_dry_table_commands(table, rows, from + 1, options);
    }
}

/// A run that stands at a table gives the commands of `commands_from`.
pub proof fn lemma_run_commands(world: World, state: State, command: Command)
    requires
        state.wf(),
        awaits(state, command),
        phase(state.stage) == 1,
    ensures
        run_from(world, state, command).1 == commands_from(world, state, command),
    decreases
        phase(state.stage),
        state.tables.len() - state.current,
        turn(state.stage),
        state.rows.len() - state.done,
{
    lemma_step(world, state, command);
    let options = state.options;
    let table = state.tables[state.current as int];
    let (then, following) = state.next(world.respond(command));
    let rest = run_from(world, then, following).1;
    if phase(then.stage) == 1 {
        lemma_run_commands(world, then, following);
    }
    let next_tables = tables_commands(world, state.tables, state.current + 1, options);
    match state.stage {
        Stage::Scanning => {
            let rows = world.rows(table);
            lemma_advance(State { rows, done: 0, ..state });
            let own = table_commands(table, rows, 0, options);
            if options.dry_run {
                lemma_dry_table_commands(table, rows, 0, options);
                assert(own =~= seq![following]);
            } else if following is Insert {
                assert(own =~= seq![following] + table_commands(table, rows, 1, options));
            }
            assert(seq![command] + rest =~= commands_from(world, state, command));
        },
        Stage::Inserting => {
            lemma_advance(State { done: state.done + 1, ..state });
            let own = table_commands(table, state.rows, state.done + 1, options);
            if options.dry_run {
                lemma_dry_table_commands(table, state.rows, state.done + 1, options);
                assert(own =~= seq![following]);
            } else if following is Insert {
                assert(own =~= seq![following] + table_commands(
                    table,
                    state.rows,
                    then.done + 1,
                    options,
                ));
            }
            assert(seq![command] + rest =~= commands_from(world, state, command));
        },
        _ => {
            assert(seq![command] + rest =~= commands_from(world, state, command));
        },
    }
}

/// A whole run gives the commands of its script, no more and no fewer, in
/// that order.
pub proof fn lemma_run_follows_script(options: Options, world: World)
    ensures
        run(options, world).1 == script(options, world),
{
    lemma_opening(options, world);
    if proceeds(world) {
        lemma_run_from_catalog(world, at_catalog(options));
        assert(run(options, world).1 =~= script(options, world));
    }
}

} // verus!
