//! QC records: what a caller hands in to save the review of one image, and
//! the row that the store keeps of it.

use vstd::prelude::*;
use crate::error::{ErrorKind, Operation, StoreError};
use crate::model::{has_key, new_record, overwritten, PayloadView, RecordView};
use crate::store::Database;
use crate::text::{copy_text, optional_text};

verus! {

/// What a caller hands in to save the review of one image. The time spent is
/// in whole milliseconds.
#[derive(Debug, PartialEq, Eq)]
pub struct SaveQcRecordPayload {
    pub session_id: i64,
    pub week_number: String,
    pub qc_date: String,
    pub received_date: String,
    pub namespace: String,
    pub filename: String,
    pub qc_name: String,
    pub qc_decision: String,
    pub qc_observations: String,
    pub retouch_quality: String,
    pub retouch_observations: String,
    pub next_action: String,
    pub image_start_time: Option<String>,
    pub image_end_time: Option<String>,
    pub time_spent_millis: Option<i64>,
    pub custom_fields_json: Option<String>,
}

/// The review of one image in one session, as the store keeps it. Every
/// column but the identifiers, the file name and the two time stamps may be
/// absent.
#[derive(Debug, PartialEq, Eq)]
pub struct QcRecord {
    pub id: i64,
    pub session_id: i64,
    pub week_number: Option<String>,
    pub qc_date: Option<String>,
    pub received_date: Option<String>,
    pub namespace: Option<String>,
    pub filename: String,
    pub qc_name: Option<String>,
    pub qc_decision: Option<String>,
    pub qc_observations: Option<String>,
    pub retouch_quality: Option<String>,
    pub retouch_observations: Option<String>,
    pub next_action: Option<String>,
    pub image_start_time: Option<String>,
    pub image_end_time: Option<String>,
    pub time_spent_millis: Option<i64>,
    pub custom_fields_json: Option<String>,
    pub created_at: String,
    pub updated_at: String,
}

/// A time that may be absent, as the model sees it.
pub open spec fn optional_millis(o: Option<i64>) -> Option<int> {
    match o {
        Some(t) => Some(t as int),
        None => None,
    }
}

impl View for SaveQcRecordPayload {
    type V = PayloadView;

    open spec fn view(&self) -> PayloadView {
        PayloadView {
            session_id: self.session_id as int,
            week_number: self.week_number@,
            qc_date: self.qc_date@,
            received_date: self.received_date@,
            namespace: self.namespace@,
            filename: self.filename@,
            qc_name: self.qc_name@,
            qc_decision: self.qc_decision@,
            qc_observations: self.qc_observations@,
            retouch_quality: self.retouch_quality@,
            retouch_observations: self.retouch_observations@,
            next_action: self.next_action@,
            image_start_time: optional_text(self.image_start_time),
            image_end_time: optional_text(self.image_end_time),
            time_spent_millis: optional_millis(self.time_spent_millis),
            custom_fields_json: optional_text(self.custom_fields_json),
        }
    }
}

impl View for QcRecord {
    type V = RecordView;

    open spec fn view(&self) -> RecordView {
        RecordView {
            id: self.id as int,
            session_id: self.session_id as int,
            week_number: optional_text(self.week_number),
            qc_date: optional_text(self.qc_date),
            received_date: optional_text(self.received_date),
            namespace: optional_text(self.namespace),
            filename: self.filename@,
            qc_name: optional_text(self.qc_name),
            qc_decision: optional_text(self.qc_decision),
            qc_observations: optional_text(self.qc_observations),
            retouch_quality: optional_text(self.retouch_quality),
            retouch_observations: optional_text(self.retouch_observations),
            next_action: optional_text(self.next_action),
            image_start_time: optional_text(self.image_start_time),
            image_end_time: optional_text(self.image_end_time),
            time_spent_millis: optional_millis(self.time_spent_millis),
            custom_fields_json: optional_text(self.custom_fields_json),
            created_at: self.created_at@,
            updated_at: self.updated_at@,
        }
    }
}

impl QcRecord {
    /// The record that a payload becomes when it is stored under the given
    /// identifier, created at one time and last written at another.
    pub fn from_payload(
        id: i64,
        payload: SaveQcRecordPayload,
        created_at: String,
        updated_at: String,
    ) -> (record: QcRecord)
        ensures
            record@ == (RecordView {
                created_at: created_at@,
                ..new_record(id as int, payload@, updated_at@)
            }),
    {
        QcRecord {
            id,
            session_id: payload.session_id,
            week_number: Some(payload.week_number),
            qc_date: Some(payload.qc_date),
            received_date: Some(payload.received_date),
            namespace: Some(payload.namespace),
            filename: payload.filename,
            qc_name: Some(payload.qc_name),
            qc_decision: Some(payload.qc_decision),
            qc_observations: Some(payload.qc_observations),
            retouch_quality: Some(payload.retouch_quality),
            retouch_observations: Some(payload.retouch_observations),
            next_action: Some(payload.next_action),
            image_start_time: payload.image_start_time,
            image_end_time: payload.image_end_time,
            time_spent_millis: payload.time_spent_millis,
            custom_fields_json: payload.custom_fields_json,
            created_at,
            updated_at,
        }
    }
}

/// Saves the review of one image at the time `now`. Where the session already
/// holds a record for the image, the payload overwrites it, and the record
/// keeps its identifier and the time of its creation; otherwise a new record
/// is added. A payload that names no existing session is refused, and the
/// database stays as it was.
pub fn save_qc_record(db: &mut Database, payload: SaveQcRecordPayload, now: String) -> (result:
    Result<(), StoreError>)
    requires
        old(db)@.wf(),
    ensures
        final(db)@.wf(),
        result is Ok <==> old(db)@.save_record_failure(payload@) is None,
        result is Ok ==> final(db)@ == old(db)@.with_record(payload@, now@),
        result matches Err(error) ==> final(db)@ == old(db)@ && Some(error@) == old(
            db,
        )@.save_record_failure(payload@),
{
    if !db.initialized {
        return Err(
            StoreError::no_such_table(
                ErrorKind::QueryExecError,
                Operation::SaveQcRecord,
                "qc_records",
            ),
        );
    }
    let next: i64 = match db.next_record_id() {
        Some(next) => next,
        None => {
            return Err(StoreError::full(Operation::SaveQcRecord));
        },
    };
    if !db.session_exists(payload.session_id) {
        return Err(StoreError::foreign_key(Operation::SaveQcRecord));
    }
    let ghost before = db@;
    let ghost key_session = payload.session_id as int;
    let ghost key_file = payload.filename@;
    match db.find_record(payload.session_id, &payload.filename) {
        Some(i) => {
            let id = db.records[i].id;
            let created_at = copy_text(&db.records[i].created_at);
            let ghost stored = db.records[i as int]@;
            let ghost wanted = overwritten(stored, payload@, now@);
            let record = QcRecord::from_payload(id, payload, created_at, copy_text(&now));
            assert(record@ == wanted);
            db.records.set(i, record);
            db.record_sequence = next;
            proof {
                let after = db@;
                let replace = |r: RecordView|
                    if has_key(r, key_session, key_file) {
                        overwritten(r, payload@, now@)
                    } else {
                        r
                    };
                assert forall|k: int| 0 <= k < before.records.len() implies after.records[k]
                    == replace(before.records[k]) by {
                    if k != i {
                        assert(!has_key(before.records[k], key_session, key_file)) by {
                            if k < i {
                                assert(!has_key(
                                    before.records[k],
                                    before.records[i as int].session_id,
                                    before.records[i as int].filename,
                                ));
                            } else {
                                assert(!has_key(
                                    before.records[i as int],
                                    before.records[k].session_id,
                                    before.records[k].filename,
                                ));
                            }
                        }
                    }
                }
                assert(after.records =~= before.records.map_values(replace));
                assert(after.sessions == before.sessions);
                assert(after.settings == before.settings);
                assert(after == before.with_record(payload@, now@));
                assert forall|k: int| 0 <= k < after.records.len() implies after.has_session(
                    (#[trigger] after.records[k]).session_id,
                ) by {
                    assert(before.has_session(before.records[k].session_id));
                }
            }
            Ok(())
        },
        None => {
            let ghost n = db.records.len() as int;
            let ghost wanted = new_record(next as int, payload@, now@);
            let record = QcRecord::from_payload(next, payload, copy_text(&now), now);
            assert(record@ == wanted);
            db.records.push(record);
            db.record_sequence = next;
            proof {
                let after = db@;
                assert(after.records =~= before.records.push(wanted));
                assert(after.sessions == before.sessions);
                assert(after.settings == before.settings);
                assert(after == before.with_record(payload@, now@));
                assert forall|k: int| 0 <= k < after.records.len() implies after.has_session(
                    (#[trigger] after.records[k]).session_id,
                ) by {
                    if k < before.records.len() {
                        assert(before.has_session(before.records[k].session_id));
                    }
                }
                assert forall|a: int, b: int| 0 <= a < b < after.records.len() implies (
                #[trigger] after.records[a]).id < (#[trigger] after.records[b]).id by {
                    if b == before.records.len() && a < n - 1 {
                        assert(before.records[a].id < before.records[n - 1].id);
                    }
                }
            }
            Ok(())
        },
    }
}

} // verus!
