use sqlite2mongo::document::Document;
use sqlite2mongo::migrate::{Action, Event, Migration, MigrationError, Options, Stage, TableCount};
use sqlite2mongo::row::{Column, Row};
use sqlite2mongo::value::{RawCell, Stored, TypedValue};

struct World {
    collections: usize,
    answer: String,
    tables: Vec<(String, Vec<Row>)>,
}

fn user_row(id: i64, name: &str) -> Row {
    Row {
        cells: vec![
            (
                Column {
                    name: "id".to_string(),
                    declared_type: "INTEGER".to_string(),
                    runtime_type: "INTEGER".to_string(),
                },
                RawCell { stored: Stored::Integer(id), instant: None },
            ),
            (
                Column {
                    name: "full_name".to_string(),
                    declared_type: "TEXT".to_string(),
                    runtime_type: "TEXT".to_string(),
                },
                RawCell { stored: Stored::Text(name.to_string()), instant: None },
            ),
        ],
    }
}

fn bad_row() -> Row {
    Row {
        cells: vec![(
            Column {
                name: "price".to_string(),
                declared_type: "NUMERIC".to_string(),
                runtime_type: "DECIMAL".to_string(),
            },
            RawCell { stored: Stored::Integer(1), instant: None },
        )],
    }
}

fn world() -> World {
    World {
        collections: 2,
        answer: "yes\n".to_string(),
        tables: vec![
            ("users".to_string(), vec![user_row(1, "Alice"), user_row(2, "Bob"), user_row(3, "Cy")]),
            ("sqlite_sequence".to_string(), vec![user_row(9, "never read")]),
            ("empty".to_string(), vec![]),
            ("orders".to_string(), vec![user_row(7, "x")]),
        ],
    }
}

fn respond(world: &World, action: &Action) -> Option<Event> {
    match action {
        Action::Connect => Some(Event::Connected),
        Action::ListCollections => Some(Event::Collections(world.collections)),
        Action::Prompt => Some(Event::Answer(world.answer.clone())),
        Action::DropDatabase => Some(Event::Dropped),
        Action::ListTables => Some(Event::Tables(world.tables.iter().map(|t| t.0.clone()).collect())),
        Action::Scan { table } => {
            let rows = world.tables.iter().find(|t| &t.0 == table).map(|t| t.1.clone());
            Some(Event::Rows(rows.unwrap_or_default()))
        }
        Action::Insert { .. } => Some(Event::Inserted),
        Action::Report { .. } => Some(Event::Reported),
        Action::Finish | Action::Abort | Action::Fail(_) => None,
    }
}

fn run(options: Options, world: &World) -> (Migration, Vec<Action>) {
    let (mut migration, mut action) = Migration::start(options);
    let mut trace = Vec::new();
    loop {
        let event = respond(world, &action);
        trace.push(action);
        match event {
            Some(event) => action = migration.step(event),
            None => return (migration, trace),
        }
        assert!(trace.len() < 1000);
    }
}

fn live() -> Options {
    Options { dry_run: false, lower_camel: false }
}

fn dry() -> Options {
    Options { dry_run: true, lower_camel: false }
}

fn doc(id: i64, key: &str, name: &str) -> Document {
    let mut d = Document::new();
    d.insert("id".to_string(), TypedValue::Int64(id));
    d.insert(key.to_string(), TypedValue::String(name.to_string()));
    d
}

fn insert(collection: &str, document: Document) -> Action {
    Action::Insert { collection: collection.to_string(), document }
}

fn count(table: &str, rows: usize) -> TableCount {
    TableCount { table: table.to_string(), rows }
}

fn mutates(action: &Action) -> bool {
    matches!(action, Action::DropDatabase | Action::Insert { .. })
}

fn at_stage(stage: Stage) -> Migration {
    let w = world();
    let (mut migration, mut action) = Migration::start(live());
    while migration.stage() != stage {
        let event = respond(&w, &action).unwrap();
        action = migration.step(event);
    }
    migration
}

#[test]
fn run_starts_by_connecting() {
    let (migration, action) = Migration::start(live());
    assert_eq!(action, Action::Connect);
    assert_eq!(migration.stage(), Stage::Connecting);
    assert_eq!(migration.options(), live());
    assert_eq!(migration.report(), &vec![]);
}

#[test]
fn live_run_drops_then_inserts_every_row() {
    let (migration, trace) = run(live(), &world());
    assert_eq!(
        trace,
        vec![
            Action::Connect,
            Action::ListCollections,
            Action::Prompt,
            Action::DropDatabase,
            Action::ListTables,
            Action::Scan { table: "users".to_string() },
            insert("users", doc(1, "full_name", "Alice")),
            insert("users", doc(2, "full_name", "Bob")),
            insert("users", doc(3, "full_name", "Cy")),
            Action::Report { table: "users".to_string(), rows: 3 },
            Action::Scan { table: "empty".to_string() },
            Action::Report { table: "empty".to_string(), rows: 0 },
            Action::Scan { table: "orders".to_string() },
            insert("orders", doc(7, "full_name", "x")),
            Action::Report { table: "orders".to_string(), rows: 1 },
            Action::Finish,
        ]
    );
    assert_eq!(migration.stage(), Stage::Finished);
    assert_eq!(migration.report(), &vec![count("users", 3), count("empty", 0), count("orders", 1)]);
}

#[test]
fn dry_run_counts_the_same_and_changes_nothing() {
    let (dry_migration, dry_trace) = run(dry(), &world());
    let (live_migration, live_trace) = run(live(), &world());
    assert_eq!(dry_migration.report(), live_migration.report());
    assert_eq!(dry_trace.last(), live_trace.last());
    assert!(dry_trace.iter().all(|a| !mutates(a)));
    assert_eq!(
        dry_trace,
        vec![
            Action::Connect,
            Action::ListCollections,
            Action::Prompt,
            Action::ListTables,
            Action::Scan { table: "users".to_string() },
            Action::Report { table: "users".to_string(), rows: 3 },
            Action::Scan { table: "empty".to_string() },
            Action::Report { table: "empty".to_string(), rows: 0 },
            Action::Scan { table: "orders".to_string() },
            Action::Report { table: "orders".to_string(), rows: 1 },
            Action::Finish,
        ]
    );
}

#[test]
fn empty_destination_is_not_asked_about() {
    let mut w = world();
    w.collections = 0;
    w.answer = "no".to_string();
    let (migration, trace) = run(live(), &w);
    assert_eq!(&trace[..4], &[
        Action::Connect,
        Action::ListCollections,
        Action::ListTables,
        Action::Scan { table: "users".to_string() },
    ]);
    assert!(!trace.contains(&Action::Prompt));
    assert!(!trace.contains(&Action::DropDatabase));
    assert_eq!(trace.last(), Some(&Action::Finish));
    assert_eq!(migration.report().len(), 3);
}

#[test]
fn yes_proceeds_with_the_drop() {
    let mut w = world();
    w.answer = "yes\n".to_string();
    let (_, trace) = run(live(), &w);
    assert_eq!(trace[3], Action::DropDatabase);
    assert_eq!(trace.last(), Some(&Action::Finish));
}

#[test]
fn any_other_answer_aborts_without_changes() {
    for answer in ["no", "", "Yes", "YES\n", "y\n", " yes\n", "yes!"] {
        for options in [live(), dry()] {
            let mut w = world();
            w.answer = answer.to_string();
            let (migration, trace) = run(options, &w);
            assert_eq!(
                trace,
                vec![Action::Connect, Action::ListCollections, Action::Prompt, Action::Abort]
            );
            assert_eq!(migration.stage(), Stage::Aborted);
            assert_eq!(migration.report(), &vec![]);
        }
    }
}

#[test]
fn lower_camel_option_reaches_the_documents() {
    let (_, trace) = run(Options { dry_run: false, lower_camel: true }, &world());
    assert_eq!(trace[6], insert("users", doc(1, "fullName", "Alice")));
}

#[test]
fn source_without_user_tables_finishes_at_once() {
    let mut w = world();
    w.tables = vec![("sqlite_sequence".to_string(), vec![])];
    let (migration, trace) = run(live(), &w);
    assert_eq!(&trace[4..], &[Action::ListTables, Action::Finish]);
    assert_eq!(migration.report(), &vec![]);
}

#[test]
fn unreadable_row_fails_the_run_after_the_rows_before_it() {
    let mut w = world();
    w.tables = vec![
        ("users".to_string(), vec![user_row(1, "Alice")]),
        ("prices".to_string(), vec![user_row(2, "Bob"), bad_row(), user_row(3, "Cy")]),
        ("orders".to_string(), vec![user_row(7, "x")]),
    ];
    let failure = || MigrationError::UnrecognizedType {
        table: "prices".to_string(),
        column: "price".to_string(),
        sql_type: "NUMERIC".to_string(),
    };
    let (migration, trace) = run(live(), &w);
    assert_eq!(
        &trace[5..],
        &[
            Action::Scan { table: "users".to_string() },
            insert("users", doc(1, "full_name", "Alice")),
            Action::Report { table: "users".to_string(), rows: 1 },
            Action::Scan { table: "prices".to_string() },
            insert("prices", doc(2, "full_name", "Bob")),
            Action::Fail(failure()),
        ]
    );
    assert_eq!(migration.stage(), Stage::Failed);
    assert_eq!(migration.report(), &vec![count("users", 1)]);

    let (dry_migration, dry_trace) = run(dry(), &w);
    assert_eq!(dry_trace.last(), Some(&Action::Fail(failure())));
    assert_eq!(dry_migration.report(), migration.report());
    assert!(dry_trace.iter().all(|a| !mutates(a)));
}

#[test]
fn failed_actions_become_errors_by_stage() {
    let cases = vec![
        (Stage::Connecting, MigrationError::Connection),
        (Stage::Listing, MigrationError::Connection),
        (Stage::Confirming, MigrationError::Prompt),
        (Stage::Dropping, MigrationError::Write { collection: None }),
        (Stage::Reading, MigrationError::Query { scanned: None }),
        (Stage::Scanning, MigrationError::Query { scanned: Some("users".to_string()) }),
        (Stage::Inserting, MigrationError::Write { collection: Some("users".to_string()) }),
        (Stage::Reporting, MigrationError::OutOfTurn),
    ];
    for (stage, error) in cases {
        let mut migration = at_stage(stage);
        let action = migration.step(Event::Failed);
        assert_eq!(action, Action::Fail(error));
        assert_eq!(migration.stage(), Stage::Failed);
    }
}

#[test]
fn unread_answer_fails_the_run() {
    for options in [live(), dry()] {
        let (mut migration, _) = Migration::start(options);
        migration.step(Event::Connected);
        assert_eq!(migration.step(Event::Collections(1)), Action::Prompt);
        assert_eq!(migration.step(Event::Failed), Action::Fail(MigrationError::Prompt));
        assert_eq!(migration.stage(), Stage::Failed);
        assert_eq!(migration.step(Event::Answer("yes".to_string())), Action::Fail(MigrationError::Prompt));
        assert_eq!(migration.report(), &vec![]);
    }
}

#[test]
fn event_out_of_turn_fails_the_run() {
    let mut migration = at_stage(Stage::Listing);
    assert_eq!(migration.step(Event::Inserted), Action::Fail(MigrationError::OutOfTurn));
    assert_eq!(migration.stage(), Stage::Failed);
    let mut migration = at_stage(Stage::Scanning);
    assert_eq!(migration.step(Event::Tables(vec![])), Action::Fail(MigrationError::OutOfTurn));
    let mut migration = at_stage(Stage::Connecting);
    assert_eq!(migration.step(Event::Collections(0)), Action::Fail(MigrationError::OutOfTurn));
}

#[test]
fn ended_run_repeats_how_it_ended() {
    let (mut finished, _) = run(live(), &world());
    let report = finished.report().clone();
    assert_eq!(finished.step(Event::Inserted), Action::Finish);
    assert_eq!(finished.step(Event::Failed), Action::Finish);
    assert_eq!(finished.stage(), Stage::Finished);
    assert_eq!(finished.report(), &report);

    let mut aborted = at_stage(Stage::Confirming);
    aborted.step(Event::Answer("no".to_string()));
    assert_eq!(aborted.step(Event::Dropped), Action::Abort);
    assert_eq!(aborted.step(Event::Answer("yes".to_string())), Action::Abort);

    let mut failed = at_stage(Stage::Scanning);
    failed.step(Event::Failed);
    let error = || MigrationError::Query { scanned: Some("users".to_string()) };
    assert_eq!(failed.step(Event::Rows(vec![])), Action::Fail(error()));
    assert_eq!(failed.step(Event::Failed), Action::Fail(error()));
}

#[test]
fn dry_run_with_empty_destination_reads_the_source() {
    let mut w = world();
    w.collections = 0;
    let (migration, trace) = run(dry(), &w);
    assert_eq!(&trace[..3], &[Action::Connect, Action::ListCollections, Action::ListTables]);
    assert!(trace.iter().all(|a| !mutates(a)));
    assert_eq!(migration.report(), &vec![count("users", 3), count("empty", 0), count("orders", 1)]);
}
