use sqlite2mongo::schema::{get_tables, is_system_table};

fn names(list: &[&str]) -> Vec<String> {
    list.iter().map(|s| s.to_string()).collect()
}

#[test]
fn engine_tables_are_recognised() {
    assert!(is_system_table("sqlite_sequence"));
    assert!(is_system_table("sqlite_stat1"));
    assert!(is_system_table("SQLITE_MASTER"));
    assert!(is_system_table("SqLiTe_x"));
    assert!(is_system_table("sqlite_"));
    assert!(is_system_table("sqlite__"));
    assert!(is_system_table("sqlite_\u{e9}"));
}

#[test]
fn names_that_only_begin_with_sqlite_are_the_users() {
    assert!(!is_system_table("sqlitedata"));
    assert!(!is_system_table("sqliteX"));
    assert!(!is_system_table("sqlite-x"));
    assert!(!is_system_table("sqlite x"));
    assert!(!is_system_table("sqlite\u{e9}"));
    assert!(!is_system_table("SQLITE1_"));
    assert_eq!(get_tables(names(&["sqlitedata"])), names(&["sqlitedata"]));
    assert_eq!(
        get_tables(names(&["sqlitedata", "sqlite_sequence", "sqlite3", "Sqlite_Stat4"])),
        names(&["sqlitedata", "sqlite3"])
    );
}

#[test]
fn user_tables_are_not_engine_tables() {
    assert!(!is_system_table("users"));
    assert!(!is_system_table("sqlite"));
    assert!(!is_system_table("sqlit_e_more"));
    assert!(!is_system_table("my_sqlite_table"));
    assert!(!is_system_table(" sqlite_x"));
    assert!(!is_system_table(""));
    assert!(!is_system_table("\u{e9}qlite_x"));
}

#[test]
fn catalog_listing_keeps_user_tables_in_order() {
    let listed = names(&["users", "sqlite_sequence", "orders", "SQLITE_STAT1", "items", "users"]);
    assert_eq!(get_tables(listed), names(&["users", "orders", "items", "users"]));
    assert_eq!(get_tables(names(&[])), names(&[]));
    assert_eq!(get_tables(names(&["sqlite_sequence"])), names(&[]));
    assert_eq!(get_tables(names(&["a"])), names(&["a"]));
}
