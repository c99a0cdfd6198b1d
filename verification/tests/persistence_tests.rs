use registrations::datetime::Timestamp;
use registrations::entity::{decode_row, decode_rows, RawRow, Registration};
use registrations::repo::{seed, AggregateRepo, Repo};
use registrations::store::{connect, create, SqlParam, StoreError};

fn ts(year: u32, month: u32, day: u32, hour: u32, minute: u32, second: u32, milli: u32) -> Timestamp {
    Timestamp { year, month, day, hour, minute, second, milli }
}

fn fresh_repo() -> AggregateRepo {
    let conn = connect(":memory:").expect("open in-memory store");
    create(&conn).expect("create table");
    AggregateRepo::new(conn)
}

#[test]
fn add_then_commit_persists_one_entity() {
    let mut repo = fresh_repo();
    let x = Registration::new(ts(2024, 3, 5, 10, 0, 0, 0), 1, 100);
    repo.registrations.add(x);
    assert_eq!(repo.commit().expect("commit"), 1);
    let all = repo.registrations.get_all(&repo.conn).expect("read");
    assert_eq!(all.len(), 1);
    assert_ne!(all[0].id, 0);
    assert_eq!(all[0].date, "2024-03-05 10:00:00.000");
    assert_eq!(all[0].dateint, 20240305);
    assert_eq!(all[0].item_id, 1);
    assert_eq!(all[0].quantity, 100);
}

#[test]
fn fifo_drain_add_then_delete_previous() {
    let mut repo = fresh_repo();
    let prior = Registration::new(ts(2023, 1, 1, 0, 0, 0, 0), 5, 50);
    repo.registrations.add(prior);
    assert_eq!(repo.commit().expect("commit"), 1);
    let prior_id = repo.registrations.get_all(&repo.conn).expect("read")[0].id;

    let x = Registration::new(ts(2024, 6, 7, 8, 9, 10, 11), 6, 60);
    repo.registrations.add(x);
    repo.registrations.delete(prior_id);
    assert_eq!(repo.commit().expect("commit"), 2);

    let all = repo.registrations.get_all(&repo.conn).expect("read");
    assert_eq!(all.len(), 1);
    assert!(all.iter().all(|r| r.id != prior_id));
    assert_eq!(all[0].item_id, 6);
    assert_eq!(all[0].quantity, 60);
}

#[test]
fn find_missing_id_is_none_not_error() {
    let repo = fresh_repo();
    let found = repo.registrations.find(&repo.conn, 424242).expect("find must not fail");
    assert!(found.is_none());
}

#[test]
fn find_returns_persisted_entity() {
    let mut repo = fresh_repo();
    repo.registrations.add(Registration::new(ts(2024, 3, 5, 10, 0, 0, 0), 3, 30));
    repo.commit().expect("commit");
    let id = repo.registrations.get_all(&repo.conn).expect("read")[0].id;
    let found = repo.registrations.find(&repo.conn, id).expect("find").expect("present");
    assert_eq!(found.id, id);
    assert_eq!(found.item_id, 3);
    assert_eq!(found.quantity, 30);
}

#[test]
fn malformed_row_is_skipped_not_fatal() {
    let mut repo = fresh_repo();
    repo.registrations.add(Registration::new(ts(2024, 3, 5, 10, 0, 0, 0), 1, 10));
    repo.registrations.add(Registration::new(ts(2024, 3, 6, 11, 0, 0, 0), 2, 20));
    repo.commit().expect("commit");
    repo.conn
        .execute(
            "INSERT INTO registrations (date, dateint, item_id, quantity) VALUES ('garbage', 0, 9, 9)",
            [],
        )
        .expect("raw insert");
    let all = repo.registrations.get_all(&repo.conn).expect("read");
    assert_eq!(all.len(), 2);
    assert!(all.iter().all(|r| r.item_id != 9));
}

#[test]
fn commit_scenario_counts_rows_and_dateint() {
    let mut repo = fresh_repo();
    let reg = Registration::new(ts(2024, 3, 5, 10, 0, 0, 0), 1, 100);
    repo.registrations.add(reg);
    let affected = repo.commit().expect("commit");
    assert_eq!(affected, 1);
    let all = repo.registrations.get_all(&repo.conn).expect("read");
    assert_eq!(all.len(), 1);
    assert_eq!(all[0].dateint, 20240305);
}

#[test]
fn empty_commit_affects_zero_rows() {
    let mut repo = fresh_repo();
    assert_eq!(repo.commit().expect("empty commit must not fail"), 0);
}

#[test]
fn failed_commit_keeps_remaining_queue() {
    // No table created, so the first drained operation fails.
    let conn = connect(":memory:").expect("open in-memory store");
    let mut repo = AggregateRepo::new(conn);
    repo.registrations.add(Registration::new(ts(2024, 3, 5, 10, 0, 0, 0), 1, 100));
    let err = repo.commit().expect_err("commit against a missing table must fail");
    assert!(matches!(err, StoreError::Statement(_)));
    assert!(!err.message().is_empty());
    // The failing operation stayed queued: after creating the table the same
    // unit of work commits.
    create(&repo.conn).expect("create table");
    assert_eq!(repo.commit().expect("retry"), 1);
    assert_eq!(repo.registrations.get_all(&repo.conn).expect("read").len(), 1);
}

#[test]
fn queries_pass_predicate_and_params_through() {
    let mut repo = fresh_repo();
    repo.registrations.add(Registration::new(ts(2024, 3, 5, 10, 0, 0, 0), 1, 10));
    repo.registrations.add(Registration::new(ts(2024, 4, 1, 0, 0, 0, 0), 2, 20));
    repo.commit().expect("commit");
    let params = vec![SqlParam::Int(20240400)];
    let found =
        Registration::find_registrations(&repo.conn, "dateint > ?1", &params).expect("query");
    assert_eq!(found.len(), 1);
    assert_eq!(found[0].item_id, 2);
}

#[test]
fn reads_bypass_pending_queue() {
    let mut repo = fresh_repo();
    repo.registrations.add(Registration::new(ts(2024, 3, 5, 10, 0, 0, 0), 1, 10));
    // Not committed yet: reads must not see the queued insert.
    assert_eq!(repo.registrations.get_all(&repo.conn).expect("read").len(), 0);
    repo.commit().expect("commit");
    assert_eq!(repo.registrations.get_all(&repo.conn).expect("read").len(), 1);
}

#[test]
fn save_inserts_directly() {
    let repo = fresh_repo();
    let reg = Registration::new(ts(2024, 3, 5, 10, 0, 0, 0), 4, 40);
    assert_eq!(reg.save(&repo.conn).expect("save"), 1);
    assert_eq!(repo.registrations.get_all(&repo.conn).expect("read").len(), 1);
}

#[test]
fn seed_rebuilds_with_two_entities() {
    let conn = connect(":memory:").expect("open in-memory store");
    seed(&conn).expect("seed");
    let repo = AggregateRepo::new(conn);
    let all = repo.registrations.get_all(&repo.conn).expect("read");
    assert_eq!(all.len(), 2);
    assert_eq!(all[0].item_id, 1);
    assert_eq!(all[0].quantity, 100);
    assert_eq!(all[1].item_id, 2);
    assert_eq!(all[1].quantity, 440);
    // Seeding again starts over instead of accumulating.
    seed(&repo.conn).expect("seed again");
    assert_eq!(repo.registrations.get_all(&repo.conn).expect("read").len(), 2);
}

#[test]
fn connect_failure_is_a_connection_error() {
    let err = connect("/no/such/directory/store.db").expect_err("open must fail");
    assert!(matches!(err, StoreError::Connection(_)));
    assert!(!err.message().is_empty());
}

#[test]
fn decode_skips_exactly_the_malformed_rows() {
    let good = |id: i32, day: u32| RawRow {
        id: Some(id),
        date: Some(ts(2024, 3, day, 10, 0, 0, 0).format()),
        dateint: Some(20240300 + day as i32),
        item_id: Some(1),
        quantity: Some(1),
    };
    let missing_date = RawRow {
        id: Some(3),
        date: None,
        dateint: Some(20240305),
        item_id: Some(1),
        quantity: Some(1),
    };
    let bad_date = RawRow {
        id: Some(4),
        date: Some("not a date".to_string()),
        dateint: Some(20240305),
        item_id: Some(1),
        quantity: Some(1),
    };
    let diverged_dateint = RawRow {
        id: Some(5),
        date: Some(ts(2024, 3, 5, 10, 0, 0, 0).format()),
        dateint: Some(20240399),
        item_id: Some(1),
        quantity: Some(1),
    };
    assert!(decode_row(missing_date).is_none());
    assert!(decode_row(bad_date).is_none());
    assert!(decode_row(diverged_dateint).is_none());

    let rows = vec![
        good(1, 5),
        RawRow { id: Some(3), date: None, dateint: None, item_id: None, quantity: None },
        good(2, 6),
    ];
    let decoded = decode_rows(rows);
    assert_eq!(decoded.len(), 2);
    assert_eq!(decoded[0].id, 1);
    assert_eq!(decoded[1].id, 2);
}
