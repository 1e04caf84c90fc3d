use audit_logger::db::{status_written, Database, StoreError, MICROS_PER_DAY};
use audit_logger::models::{AnchorStatus, CreateLogRequest, LogEntry, LogQueryParams};

fn request(event_type: &str, severity: &str, data: &str) -> CreateLogRequest {
    CreateLogRequest {
        event_type: event_type.to_string(),
        severity: severity.to_string(),
        data: data.to_string(),
    }
}

fn no_filter() -> LogQueryParams {
    LogQueryParams {
        event_type: None,
        severity: None,
        limit: None,
        offset: None,
        from_date: None,
        to_date: None,
    }
}

fn ids(page: &[LogEntry]) -> Vec<u128> {
    page.iter().map(|e| e.id).collect()
}

fn filled(n: u128) -> Database {
    let mut db = Database::new();
    for i in 1..=n {
        db.insert_log(i, &request("deploy", "info", "{}"), "h", i as i64).unwrap();
    }
    db
}

#[test]
fn new_store_is_empty() {
    let db = Database::new();
    assert_eq!(db.len(), 0);
    assert_eq!(db.get_log_by_id(1), Ok(None));
    assert_eq!(db.query_logs(&no_filter()), Ok((vec![], 0)));
    assert_eq!(db.count_logs(None), 0);
}

#[test]
fn insert_then_get_returns_the_same_record() {
    let mut db = Database::new();
    let req = request("deploy", "info", "{\"v\":1}");
    let hash = req.compute_hash().unwrap();
    let created = db.insert_log(42, &req, &hash, 1_000).unwrap();
    assert_eq!(
        created,
        LogEntry {
            id: 42,
            event_type: "deploy".to_string(),
            severity: "info".to_string(),
            data: "{\"v\":1}".to_string(),
            hash: hash.clone(),
            tx_signature: None,
            blockchain_status: AnchorStatus::Pending,
            created_at: 1_000,
            updated_at: 1_000,
        }
    );
    let found = db.get_log_by_id(42).unwrap().unwrap();
    assert_eq!(found, created);
    assert_eq!(found.event_type, req.event_type);
    assert_eq!(found.severity, req.severity);
    assert_eq!(found.data, req.data);
    assert_eq!(found.hash, hash);
    assert_eq!(found.blockchain_status, AnchorStatus::Pending);
    assert_eq!(db.get_log_by_id(43), Ok(None));
    assert_eq!(db.len(), 1);
}

#[test]
fn insert_refuses_an_id_that_is_stored() {
    let mut db = Database::new();
    db.insert_log(1, &request("a", "x", "{}"), "h1", 10).unwrap();
    assert_eq!(
        db.insert_log(1, &request("b", "y", "{}"), "h2", 20),
        Err(StoreError::DuplicateId)
    );
    assert_eq!(db.len(), 1);
    assert_eq!(db.get_log_by_id(1).unwrap().unwrap().event_type, "a");
}

#[test]
fn an_id_is_never_used_twice() {
    let mut db = Database::new();
    assert!(!db.was_stored(1));
    db.insert_log(1, &request("a", "x", "{}"), "h1", 10).unwrap();
    db.insert_log(2, &request("a", "x", "{}"), "h2", 500).unwrap();
    assert!(db.was_stored(1));
    assert!(db.was_stored(2));
    assert!(!db.was_stored(3));

    assert_eq!(db.delete_logs_older_than(0, 100), Ok(1));
    assert_eq!(db.get_log_by_id(1), Ok(None));
    assert!(db.was_stored(1));
    assert_eq!(
        db.insert_log(1, &request("b", "y", "{}"), "h3", 600),
        Err(StoreError::DuplicateId)
    );
    assert_eq!(db.get_log_by_id(1), Ok(None));
    assert_eq!(db.len(), 1);

    db.update_log_tx_signature(2, None, AnchorStatus::Failed, 700).unwrap();
    assert!(db.was_stored(1));
    assert!(db.was_stored(2));
    assert!(db.insert_log(3, &request("b", "y", "{}"), "h3", 600).is_ok());
    assert!(db.was_stored(3));
}

#[test]
fn a_status_write_that_changed_no_record_found_none() {
    assert_eq!(status_written(0), Err(StoreError::NotFound));
    assert_eq!(status_written(1), Ok(()));
    assert_eq!(status_written(u64::MAX), Ok(()));
}

#[test]
fn listing_is_newest_first_with_ties_in_id_order() {
    let mut db = Database::new();
    db.insert_log(5, &request("a", "x", "{}"), "h", 100).unwrap();
    db.insert_log(9, &request("a", "x", "{}"), "h", 300).unwrap();
    db.insert_log(7, &request("a", "x", "{}"), "h", 200).unwrap();
    db.insert_log(3, &request("a", "x", "{}"), "h", 200).unwrap();
    db.insert_log(8, &request("a", "x", "{}"), "h", 200).unwrap();
    db.insert_log(1, &request("a", "x", "{}"), "h", -50).unwrap();
    let (page, total) = db.query_logs(&no_filter()).unwrap();
    assert_eq!(total, 6);
    assert_eq!(ids(&page), vec![9, 3, 7, 8, 5, 1]);
}

#[test]
fn filters_combine_with_and() {
    let mut db = Database::new();
    db.insert_log(1, &request("A", "X", "{}"), "h", 1).unwrap();
    db.insert_log(2, &request("A", "Y", "{}"), "h", 2).unwrap();
    db.insert_log(3, &request("B", "X", "{}"), "h", 3).unwrap();
    db.insert_log(4, &request("B", "Y", "{}"), "h", 4).unwrap();
    db.insert_log(5, &request("A", "X", "{}"), "h", 5).unwrap();

    let mut both = no_filter();
    both.event_type = Some("A".to_string());
    both.severity = Some("X".to_string());
    let (page, total) = db.query_logs(&both).unwrap();
    assert_eq!(ids(&page), vec![5, 1]);
    assert_eq!(total, 2);

    let mut only_type = no_filter();
    only_type.event_type = Some("A".to_string());
    let (page, total) = db.query_logs(&only_type).unwrap();
    assert_eq!(ids(&page), vec![5, 2, 1]);
    assert_eq!(total, 3);

    let mut only_severity = no_filter();
    only_severity.severity = Some("Y".to_string());
    let (page, total) = db.query_logs(&only_severity).unwrap();
    assert_eq!(ids(&page), vec![4, 2]);
    assert_eq!(total, 2);

    let mut none = no_filter();
    none.event_type = Some("C".to_string());
    assert_eq!(db.query_logs(&none), Ok((vec![], 0)));
}

#[test]
fn date_range_is_inclusive_on_both_sides() {
    let db = filled(10);
    let mut range = no_filter();
    range.from_date = Some(3);
    range.to_date = Some(6);
    let (page, total) = db.query_logs(&range).unwrap();
    assert_eq!(ids(&page), vec![6, 5, 4, 3]);
    assert_eq!(total, 4);

    let mut from = no_filter();
    from.from_date = Some(9);
    assert_eq!(ids(&db.query_logs(&from).unwrap().0), vec![10, 9]);

    let mut to = no_filter();
    to.to_date = Some(2);
    assert_eq!(ids(&db.query_logs(&to).unwrap().0), vec![2, 1]);

    let mut empty = no_filter();
    empty.from_date = Some(7);
    empty.to_date = Some(6);
    assert_eq!(db.query_logs(&empty), Ok((vec![], 0)));
}

#[test]
fn total_counts_all_matches_whatever_the_page() {
    let db = filled(10);
    let mut p = no_filter();
    p.limit = Some(3);
    p.offset = Some(4);
    let (page, total) = db.query_logs(&p).unwrap();
    assert_eq!(ids(&page), vec![6, 5, 4]);
    assert_eq!(total, 10);

    p.offset = Some(9);
    let (page, total) = db.query_logs(&p).unwrap();
    assert_eq!(ids(&page), vec![1]);
    assert_eq!(total, 10);

    p.offset = Some(10);
    assert_eq!(db.query_logs(&p), Ok((vec![], 10)));
    p.offset = Some(i64::MAX);
    assert_eq!(db.query_logs(&p), Ok((vec![], 10)));

    p.offset = Some(0);
    p.limit = Some(0);
    assert_eq!(db.query_logs(&p), Ok((vec![], 10)));
}

#[test]
fn omitted_limit_gives_at_most_100() {
    let db = filled(150);
    let (page, total) = db.query_logs(&no_filter()).unwrap();
    assert_eq!(page.len(), 100);
    assert_eq!(total, 150);
    assert_eq!(page[0].id, 150);
    assert_eq!(page[99].id, 51);
}

#[test]
fn limit_5000_gives_at_most_1000() {
    let db = filled(1200);
    let mut p = no_filter();
    p.limit = Some(5000);
    let (page, total) = db.query_logs(&p).unwrap();
    assert_eq!(page.len(), 1000);
    assert_eq!(total, 1200);
    assert_eq!(page[0].id, 1200);
    assert_eq!(page[999].id, 201);
}

#[test]
fn negative_page_is_refused() {
    let db = filled(3);
    let mut p = no_filter();
    p.limit = Some(-1);
    assert_eq!(db.query_logs(&p), Err(StoreError::InvalidPage));
    p.limit = Some(1);
    p.offset = Some(-1);
    assert_eq!(db.query_logs(&p), Err(StoreError::InvalidPage));
}

#[test]
fn update_writes_reference_status_and_time() {
    let mut db = filled(3);
    assert_eq!(
        db.update_log_tx_signature(2, Some("sig".to_string()), AnchorStatus::Confirmed, 77),
        Ok(())
    );
    let updated = db.get_log_by_id(2).unwrap().unwrap();
    assert_eq!(updated.tx_signature, Some("sig".to_string()));
    assert_eq!(updated.blockchain_status, AnchorStatus::Confirmed);
    assert_eq!(updated.updated_at, 77);
    assert_eq!(updated.created_at, 2);
    assert_eq!(updated.event_type, "deploy");
    assert_eq!(updated.hash, "h");
    let untouched = db.get_log_by_id(1).unwrap().unwrap();
    assert_eq!(untouched.blockchain_status, AnchorStatus::Pending);
    assert_eq!(untouched.tx_signature, None);
    assert_eq!(untouched.updated_at, 1);
    assert_eq!(ids(&db.query_logs(&no_filter()).unwrap().0), vec![3, 2, 1]);

    assert_eq!(db.update_log_tx_signature(2, None, AnchorStatus::Failed, 78), Ok(()));
    let failed = db.get_log_by_id(2).unwrap().unwrap();
    assert_eq!(failed.tx_signature, None);
    assert_eq!(failed.blockchain_status, AnchorStatus::Failed);
}

#[test]
fn update_of_an_unknown_id_fails() {
    let mut db = filled(2);
    assert_eq!(
        db.update_log_tx_signature(9, Some("sig".to_string()), AnchorStatus::Confirmed, 5),
        Err(StoreError::NotFound)
    );
    assert_eq!(db.len(), 2);
    assert_eq!(db.count_logs(Some(AnchorStatus::Pending)), 2);
}

#[test]
fn sweep_removes_only_records_older_than_30_days() {
    let now: i64 = 100 * MICROS_PER_DAY;
    let mut db = Database::new();
    db.insert_log(1, &request("a", "x", "{}"), "h", now - 31 * MICROS_PER_DAY).unwrap();
    db.insert_log(2, &request("a", "x", "{}"), "h", now - 30 * MICROS_PER_DAY - 1).unwrap();
    db.insert_log(3, &request("a", "x", "{}"), "h", now - 30 * MICROS_PER_DAY).unwrap();
    db.insert_log(4, &request("a", "x", "{}"), "h", now - 29 * MICROS_PER_DAY).unwrap();
    db.insert_log(5, &request("a", "x", "{}"), "h", now).unwrap();
    db.update_log_tx_signature(1, Some("s".to_string()), AnchorStatus::Confirmed, now).unwrap();
    db.update_log_tx_signature(4, Some("s".to_string()), AnchorStatus::Confirmed, now).unwrap();
    let kept_before = db.get_log_by_id(4).unwrap().unwrap();

    assert_eq!(db.delete_logs_older_than(30, now), Ok(2));
    assert_eq!(ids(&db.query_logs(&no_filter()).unwrap().0), vec![5, 4, 3]);
    assert_eq!(db.get_log_by_id(1), Ok(None));
    assert_eq!(db.get_log_by_id(2), Ok(None));
    assert_eq!(db.get_log_by_id(4).unwrap().unwrap(), kept_before);
    assert_eq!(db.delete_logs_older_than(30, now), Ok(0));
    assert_eq!(db.len(), 3);
}

#[test]
fn sweep_with_extreme_days() {
    let mut db = filled(4);
    assert_eq!(db.delete_logs_older_than(i64::MAX, 10), Ok(0));
    assert_eq!(db.delete_logs_older_than(0, 3), Ok(2));
    assert_eq!(db.delete_logs_older_than(i64::MIN, 3), Ok(2));
    assert_eq!(db.len(), 0);
}

#[test]
fn counts_by_status() {
    let mut db = filled(5);
    db.update_log_tx_signature(1, Some("s".to_string()), AnchorStatus::Confirmed, 9).unwrap();
    db.update_log_tx_signature(2, Some("s".to_string()), AnchorStatus::Confirmed, 9).unwrap();
    db.update_log_tx_signature(3, None, AnchorStatus::Failed, 9).unwrap();
    assert_eq!(db.count_logs(None), 5);
    assert_eq!(db.count_logs(Some(AnchorStatus::Pending)), 2);
    assert_eq!(db.count_logs(Some(AnchorStatus::Confirmed)), 2);
    assert_eq!(db.count_logs(Some(AnchorStatus::Failed)), 1);
}
