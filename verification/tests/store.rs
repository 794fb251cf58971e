use revisit_scheduler::store::{last_visit_from_rows, CREATE_TABLE, LOOKUP, UPSERT};
use rusqlite::Connection;

fn open_store() -> Connection {
    let store = Connection::open_in_memory().unwrap();
    store.execute_batch(CREATE_TABLE).unwrap();
    store
}

fn rows_of(store: &Connection, url: &str) -> Vec<Option<u64>> {
    let mut statement = store.prepare(LOOKUP).unwrap();
    let rows = statement
        .query_map(&[(":url", url)], |row| row.get::<_, Option<u64>>(1))
        .unwrap();
    let mut found = Vec::new();
    for row in rows {
        found.push(row.unwrap());
    }
    found
}

fn count_rows(store: &Connection) -> u64 {
    store
        .query_row("SELECT COUNT(*) FROM websites", (), |row| row.get::<_, u64>(0))
        .unwrap()
}

#[test]
fn no_row_means_never_visited() {
    assert_eq!(last_visit_from_rows(&Vec::new()), None);
}

#[test]
fn the_last_row_decides() {
    assert_eq!(last_visit_from_rows(&vec![Some(7)]), Some(7));
    assert_eq!(last_visit_from_rows(&vec![Some(7), Some(9)]), Some(9));
    assert_eq!(last_visit_from_rows(&vec![Some(7), None]), None);
    assert_eq!(last_visit_from_rows(&vec![None, Some(3)]), Some(3));
}

#[test]
fn a_row_without_a_time_means_never_visited() {
    assert_eq!(last_visit_from_rows(&vec![None]), None);
}

#[test]
fn an_empty_store_knows_no_url() {
    let store = open_store();
    assert_eq!(rows_of(&store, "http://a"), Vec::new());
    assert_eq!(last_visit_from_rows(&rows_of(&store, "http://a")), None);
}

#[test]
fn a_recorded_visit_is_found_again() {
    let store = open_store();
    store.execute(UPSERT, ("http://a", 1000u64)).unwrap();
    assert_eq!(last_visit_from_rows(&rows_of(&store, "http://a")), Some(1000));
    assert_eq!(last_visit_from_rows(&rows_of(&store, "http://b")), None);
}

#[test]
fn recording_twice_leaves_one_row_with_the_later_time() {
    let store = open_store();
    store.execute(UPSERT, ("http://a", 1000u64)).unwrap();
    store.execute(UPSERT, ("http://a", 2000u64)).unwrap();
    assert_eq!(rows_of(&store, "http://a"), vec![Some(2000)]);
    assert_eq!(count_rows(&store), 1);
}

#[test]
fn recording_twice_with_an_earlier_time_keeps_the_second() {
    let store = open_store();
    store.execute(UPSERT, ("http://a", 2000u64)).unwrap();
    store.execute(UPSERT, ("http://a", 1000u64)).unwrap();
    assert_eq!(rows_of(&store, "http://a"), vec![Some(1000)]);
    assert_eq!(count_rows(&store), 1);
}

#[test]
fn recording_one_url_leaves_the_others_alone() {
    let store = open_store();
    store.execute(UPSERT, ("http://a", 1000u64)).unwrap();
    store.execute(UPSERT, ("http://b", 1500u64)).unwrap();
    store.execute(UPSERT, ("http://a", 2000u64)).unwrap();
    assert_eq!(rows_of(&store, "http://a"), vec![Some(2000)]);
    assert_eq!(rows_of(&store, "http://b"), vec![Some(1500)]);
    assert_eq!(count_rows(&store), 2);
}

#[test]
fn a_row_with_a_null_time_is_found_as_never_visited() {
    let store = open_store();
    store
        .execute("INSERT INTO websites(url, last_access) VALUES (?1, NULL)", ("http://a",))
        .unwrap();
    assert_eq!(rows_of(&store, "http://a"), vec![None]);
    assert_eq!(last_visit_from_rows(&rows_of(&store, "http://a")), None);
}

#[test]
fn the_table_cannot_be_created_twice() {
    let store = open_store();
    assert!(store.execute_batch(CREATE_TABLE).is_err());
}
