use qc_analytics::{
    create_session, init_database, save_qc_record, CreateSessionPayload, Database, ErrorKind,
    JournalMode, Operation, QcRecord, QcSession, SaveQcRecordPayload, StoreError,
};

fn ready_with_sessions(count: i64) -> Database {
    let mut db = Database::new();
    assert_eq!(init_database(&mut db), Ok(()));
    for n in 0..count {
        let payload =
            CreateSessionPayload { qc_name: "alice".to_string(), folder_path: "/p".to_string() };
        assert_eq!(create_session(&mut db, payload, "2024-10-21 09:00:00".to_string()), Ok(n + 1));
    }
    db
}

fn full_payload(session_id: i64, filename: &str, mark: &str) -> SaveQcRecordPayload {
    SaveQcRecordPayload {
        session_id,
        week_number: format!("week {}", mark),
        qc_date: format!("date {}", mark),
        received_date: format!("received {}", mark),
        namespace: format!("namespace {}", mark),
        filename: filename.to_string(),
        qc_name: format!("name {}", mark),
        qc_decision: format!("decision {}", mark),
        qc_observations: format!("observations {}", mark),
        retouch_quality: format!("quality {}", mark),
        retouch_observations: format!("retouch {}", mark),
        next_action: format!("action {}", mark),
        image_start_time: Some(format!("start {}", mark)),
        image_end_time: Some(format!("end {}", mark)),
        time_spent_millis: Some(1234),
        custom_fields_json: Some(format!("{{\"mark\":\"{}\"}}", mark)),
    }
}

fn full_record(id: i64, session_id: i64, filename: &str, mark: &str, created: &str, updated: &str) -> QcRecord {
    QcRecord {
        id,
        session_id,
        week_number: Some(format!("week {}", mark)),
        qc_date: Some(format!("date {}", mark)),
        received_date: Some(format!("received {}", mark)),
        namespace: Some(format!("namespace {}", mark)),
        filename: filename.to_string(),
        qc_name: Some(format!("name {}", mark)),
        qc_decision: Some(format!("decision {}", mark)),
        qc_observations: Some(format!("observations {}", mark)),
        retouch_quality: Some(format!("quality {}", mark)),
        retouch_observations: Some(format!("retouch {}", mark)),
        next_action: Some(format!("action {}", mark)),
        image_start_time: Some(format!("start {}", mark)),
        image_end_time: Some(format!("end {}", mark)),
        time_spent_millis: Some(1234),
        custom_fields_json: Some(format!("{{\"mark\":\"{}\"}}", mark)),
        created_at: created.to_string(),
        updated_at: updated.to_string(),
    }
}

#[test]
fn first_save_writes_every_field() {
    let mut db = ready_with_sessions(1);
    assert_eq!(save_qc_record(&mut db, full_payload(1, "a.jpg", "one"), "t1".to_string()), Ok(()));
    assert_eq!(db.records(), &vec![full_record(1, 1, "a.jpg", "one", "t1", "t1")]);
}

#[test]
fn second_save_overwrites_and_keeps_identifier_and_creation() {
    let mut db = ready_with_sessions(1);
    assert_eq!(save_qc_record(&mut db, full_payload(1, "a.jpg", "one"), "t1".to_string()), Ok(()));
    let first_updated = db.records()[0].updated_at.clone();
    assert_eq!(save_qc_record(&mut db, full_payload(1, "a.jpg", "two"), "t2".to_string()), Ok(()));
    assert_eq!(db.records().len(), 1);
    assert_eq!(db.records(), &vec![full_record(1, 1, "a.jpg", "two", "t1", "t2")]);
    assert!(db.records()[0].updated_at > first_updated);
    assert!(db.is_valid());
}

#[test]
fn second_save_with_absent_fields_clears_them() {
    let mut db = ready_with_sessions(1);
    assert_eq!(save_qc_record(&mut db, full_payload(1, "a.jpg", "one"), "t1".to_string()), Ok(()));
    let mut bare = full_payload(1, "a.jpg", "two");
    bare.image_start_time = None;
    bare.image_end_time = None;
    bare.time_spent_millis = None;
    bare.custom_fields_json = None;
    assert_eq!(save_qc_record(&mut db, bare, "t2".to_string()), Ok(()));
    let mut wanted = full_record(1, 1, "a.jpg", "two", "t1", "t2");
    wanted.image_start_time = None;
    wanted.image_end_time = None;
    wanted.time_spent_millis = None;
    wanted.custom_fields_json = None;
    assert_eq!(db.records(), &vec![wanted]);
}

#[test]
fn other_image_or_other_session_is_another_record() {
    let mut db = ready_with_sessions(2);
    assert_eq!(save_qc_record(&mut db, full_payload(1, "a.jpg", "one"), "t1".to_string()), Ok(()));
    assert_eq!(save_qc_record(&mut db, full_payload(1, "b.jpg", "two"), "t2".to_string()), Ok(()));
    assert_eq!(save_qc_record(&mut db, full_payload(2, "a.jpg", "three"), "t3".to_string()), Ok(()));
    assert_eq!(save_qc_record(&mut db, full_payload(1, "A.jpg", "four"), "t4".to_string()), Ok(()));
    assert_eq!(
        db.records(),
        &vec![
            full_record(1, 1, "a.jpg", "one", "t1", "t1"),
            full_record(2, 1, "b.jpg", "two", "t2", "t2"),
            full_record(3, 2, "a.jpg", "three", "t3", "t3"),
            full_record(4, 1, "A.jpg", "four", "t4", "t4"),
        ]
    );
    assert_eq!(save_qc_record(&mut db, full_payload(1, "b.jpg", "five"), "t5".to_string()), Ok(()));
    assert_eq!(
        db.records(),
        &vec![
            full_record(1, 1, "a.jpg", "one", "t1", "t1"),
            full_record(2, 1, "b.jpg", "five", "t2", "t5"),
            full_record(3, 2, "a.jpg", "three", "t3", "t3"),
            full_record(4, 1, "A.jpg", "four", "t4", "t4"),
        ]
    );
    assert_eq!(db.find_record(1, &"b.jpg".to_string()), Some(1));
    assert_eq!(db.find_record(2, &"b.jpg".to_string()), None);
}

#[test]
fn empty_strings_are_stored_as_given() {
    let mut db = ready_with_sessions(1);
    let payload = SaveQcRecordPayload {
        session_id: 1,
        week_number: String::new(),
        qc_date: String::new(),
        received_date: String::new(),
        namespace: String::new(),
        filename: String::new(),
        qc_name: String::new(),
        qc_decision: String::new(),
        qc_observations: String::new(),
        retouch_quality: String::new(),
        retouch_observations: String::new(),
        next_action: String::new(),
        image_start_time: None,
        image_end_time: None,
        time_spent_millis: None,
        custom_fields_json: None,
    };
    assert_eq!(save_qc_record(&mut db, payload, "t1".to_string()), Ok(()));
    assert_eq!(db.records().len(), 1);
    assert_eq!(db.records()[0].filename, "");
    assert_eq!(db.records()[0].qc_name, Some(String::new()));
}

#[test]
fn record_of_a_missing_session_is_refused() {
    let mut db = ready_with_sessions(1);
    let result = save_qc_record(&mut db, full_payload(2, "a.jpg", "one"), "t1".to_string());
    assert_eq!(
        result,
        Err(StoreError {
            kind: ErrorKind::ConstraintViolation,
            operation: Operation::SaveQcRecord,
            cause: "FOREIGN KEY constraint failed".to_string(),
        })
    );
    assert!(db.records().is_empty());
    let message = match result {
        Err(error) => error.message(),
        Ok(()) => String::new(),
    };
    assert_eq!(message, "Failed to save QC record: FOREIGN KEY constraint failed");
}

#[test]
fn record_without_tables_is_refused() {
    let mut db = Database::new();
    assert_eq!(
        save_qc_record(&mut db, full_payload(1, "a.jpg", "one"), "t1".to_string()),
        Err(StoreError {
            kind: ErrorKind::QueryExecError,
            operation: Operation::SaveQcRecord,
            cause: "no such table: qc_records".to_string(),
        })
    );
}

#[test]
fn overwriting_takes_an_identifier_without_using_it() {
    let mut db = ready_with_sessions(1);
    assert_eq!(db.record_sequence(), 0);
    assert_eq!(db.next_record_id(), Some(1));
    assert_eq!(save_qc_record(&mut db, full_payload(1, "a.jpg", "one"), "t1".to_string()), Ok(()));
    assert_eq!(db.record_sequence(), 1);
    assert_eq!(save_qc_record(&mut db, full_payload(1, "a.jpg", "two"), "t2".to_string()), Ok(()));
    assert_eq!(save_qc_record(&mut db, full_payload(1, "a.jpg", "three"), "t3".to_string()), Ok(()));
    assert_eq!(db.record_sequence(), 3);
    assert_eq!(db.next_record_id(), Some(4));
    assert_eq!(save_qc_record(&mut db, full_payload(1, "b.jpg", "four"), "t4".to_string()), Ok(()));
    assert_eq!(
        db.records(),
        &vec![
            full_record(1, 1, "a.jpg", "three", "t1", "t3"),
            full_record(4, 1, "b.jpg", "four", "t4", "t4"),
        ]
    );
    assert_eq!(db.record_sequence(), 4);
}

#[test]
fn refused_record_takes_no_identifier() {
    let mut db = ready_with_sessions(1);
    assert_eq!(save_qc_record(&mut db, full_payload(1, "a.jpg", "one"), "t1".to_string()), Ok(()));
    assert!(save_qc_record(&mut db, full_payload(9, "a.jpg", "two"), "t2".to_string()).is_err());
    assert_eq!(db.record_sequence(), 1);
    assert_eq!(save_qc_record(&mut db, full_payload(1, "b.jpg", "three"), "t3".to_string()), Ok(()));
    assert_eq!(db.records()[1].id, 2);
}

#[test]
fn saves_after_the_last_identifier_are_refused() {
    let sessions = vec![QcSession {
        id: 1,
        qc_name: "alice".to_string(),
        folder_path: "/p".to_string(),
        session_start: "t0".to_string(),
        session_end: None,
        created_at: "t0".to_string(),
    }];
    let records = vec![full_record(i64::MAX, 1, "a.jpg", "one", "t1", "t1")];
    let mut db = match Database::from_tables(
        JournalMode::WriteAheadLog,
        sessions,
        1,
        records,
        i64::MAX,
        vec![],
    ) {
        Some(db) => db,
        None => panic!("valid tables refused"),
    };
    assert_eq!(db.next_record_id(), None);
    let full = Err(StoreError {
        kind: ErrorKind::QueryExecError,
        operation: Operation::SaveQcRecord,
        cause: "database or disk is full".to_string(),
    });
    assert_eq!(save_qc_record(&mut db, full_payload(1, "b.jpg", "two"), "t2".to_string()), full);
    assert_eq!(save_qc_record(&mut db, full_payload(1, "a.jpg", "three"), "t3".to_string()), full);
    assert_eq!(save_qc_record(&mut db, full_payload(9, "a.jpg", "four"), "t4".to_string()), full);
    assert_eq!(db.records(), &vec![full_record(i64::MAX, 1, "a.jpg", "one", "t1", "t1")]);
}

#[test]
fn many_saves_of_one_image_leave_one_record() {
    let mut db = ready_with_sessions(1);
    for round in 0..50 {
        let now = format!("2024-10-21 09:00:{:02}", round);
        assert_eq!(save_qc_record(&mut db, full_payload(1, "a.jpg", &round.to_string()), now), Ok(()));
        assert_eq!(db.records().len(), 1);
        assert_eq!(db.records()[0].id, 1);
        assert_eq!(db.records()[0].created_at, "2024-10-21 09:00:00");
    }
    assert_eq!(db.records()[0].updated_at, "2024-10-21 09:00:49");
    assert_eq!(db.records()[0].qc_decision, Some("decision 49".to_string()));
}
