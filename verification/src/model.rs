//! The store as mathematics: what a database holds, what makes it valid, and
//! what each operation makes of it. The executable store answers to this.

use vstd::prelude::*;
use crate::error::{
    spec_foreign_key_cause, spec_full_cause, spec_no_such_table, ErrorKind, ErrorView, Operation,
};
use crate::order::sort_by;
use crate::text::{optional_text_le, text_le};

verus! {

/// The longest time, in milliseconds, that the review of one image may take
/// and still count as an active measurement.
pub const ACTIVE_LIMIT_MILLIS: i64 = 8000;

/// How the database file journals its writes.
#[derive(Clone, Copy, Debug, PartialEq, Eq, Structural)]
pub enum JournalMode {
    /// The rollback journal that a new file starts with.
    Delete,
    /// Write-ahead logging.
    WriteAheadLog,
}

/// One review sitting.
pub struct SessionView {
    pub id: int,
    pub qc_name: Seq<char>,
    pub folder_path: Seq<char>,
    pub session_start: Seq<char>,
    pub session_end: Option<Seq<char>>,
    pub created_at: Seq<char>,
}

/// The review of one image in one session, as the store keeps it.
pub struct RecordView {
    pub id: int,
    pub session_id: int,
    pub week_number: Option<Seq<char>>,
    pub qc_date: Option<Seq<char>>,
    pub received_date: Option<Seq<char>>,
    pub namespace: Option<Seq<char>>,
    pub filename: Seq<char>,
    pub qc_name: Option<Seq<char>>,
    pub qc_decision: Option<Seq<char>>,
    pub qc_observations: Option<Seq<char>>,
    pub retouch_quality: Option<Seq<char>>,
    pub retouch_observations: Option<Seq<char>>,
    pub next_action: Option<Seq<char>>,
    pub image_start_time: Option<Seq<char>>,
    pub image_end_time: Option<Seq<char>>,
    pub time_spent_millis: Option<int>,
    pub custom_fields_json: Option<Seq<char>>,
    pub created_at: Seq<char>,
    pub updated_at: Seq<char>,
}

/// What a caller hands in to save the review of one image.
pub struct PayloadView {
    pub session_id: int,
    pub week_number: Seq<char>,
    pub qc_date: Seq<char>,
    pub received_date: Seq<char>,
    pub namespace: Seq<char>,
    pub filename: Seq<char>,
    pub qc_name: Seq<char>,
    pub qc_decision: Seq<char>,
    pub qc_observations: Seq<char>,
    pub retouch_quality: Seq<char>,
    pub retouch_observations: Seq<char>,
    pub next_action: Seq<char>,
    pub image_start_time: Option<Seq<char>>,
    pub image_end_time: Option<Seq<char>>,
    pub time_spent_millis: Option<int>,
    pub custom_fields_json: Option<Seq<char>>,
}

/// One setting as the store keeps it.
pub struct SettingView {
    pub key: Seq<char>,
    pub value: Seq<char>,
    pub updated_at: Seq<char>,
}

/// One setting as a caller sees it.
pub struct SettingPairView {
    pub key: Seq<char>,
    pub value: Seq<char>,
}

/// An arithmetic mean, kept exact: the sum of the measurements and how many
/// there are.
pub struct MeanView {
    pub total_millis: int,
    pub count: nat,
}

/// The aggregate analytics of one user.
pub struct SummaryView {
    pub total_images: nat,
    pub total_right: nat,
    pub total_wrong: nat,
    pub average_time: Option<MeanView>,
}

/// What the charts need of one record.
pub struct AnalyticsRecordView {
    pub qc_date: Option<Seq<char>>,
    pub filename: Seq<char>,
    pub qc_decision: Option<Seq<char>>,
    pub next_action: Option<Seq<char>>,
    pub time_spent_millis: Option<int>,
    pub qc_observations: Option<Seq<char>>,
}

/// A time spent counts as an active measurement when it is present and at
/// most the limit.
pub open spec fn spec_is_active(time_spent_millis: Option<int>) -> bool {
    time_spent_millis is Some && time_spent_millis->0 <= ACTIVE_LIMIT_MILLIS
}

/// The record that a payload becomes when it is saved for the first time.
pub open spec fn new_record(id: int, payload: PayloadView, now: Seq<char>) -> RecordView {
    RecordView {
        id,
        session_id: payload.session_id,
        week_number: Some(payload.week_number),
        qc_date: Some(payload.qc_date),
        received_date: Some(payload.received_date),
        namespace: Some(payload.namespace),
        filename: payload.filename,
        qc_name: Some(payload.qc_name),
        qc_decision: Some(payload.qc_decision),
        qc_observations: Some(payload.qc_observations),
        retouch_quality: Some(payload.retouch_quality),
        retouch_observations: Some(payload.retouch_observations),
        next_action: Some(payload.next_action),
        image_start_time: payload.image_start_time,
        image_end_time: payload.image_end_time,
        time_spent_millis: payload.time_spent_millis,
        custom_fields_json: payload.custom_fields_json,
        created_at: now,
        updated_at: now,
    }
}

/// The record that a stored record becomes when a payload for the same image
/// of the same session is saved over it: it keeps its identifier and the time
/// of its creation, and takes everything else from the payload.
pub open spec fn overwritten(stored: RecordView, payload: PayloadView, now: Seq<char>) -> RecordView {
    RecordView { created_at: stored.created_at, ..new_record(stored.id, payload, now) }
}

/// Whether a record is the one for the given image of the given session.
pub open spec fn has_key(record: RecordView, session_id: int, filename: Seq<char>) -> bool {
    record.session_id == session_id && record.filename == filename
}

/// Whether a record is an active measurement of the given user.
pub open spec fn counts_for(record: RecordView, qc_name: Seq<char>) -> bool {
    record.qc_name == Some(qc_name) && spec_is_active(record.time_spent_millis)
}

/// The sum of the times spent on the given records; a record without a time
/// adds nothing.
pub open spec fn total_time(records: Seq<RecordView>) -> int
    decreases records.len(),
{
    if records.len() == 0 {
        0
    } else {
        total_time(records.drop_last()) + match records.last().time_spent_millis {
            Some(t) => t,
            None => 0,
        }
    }
}

/// The order of the session history: a later start comes first.
pub open spec fn newest_first() -> spec_fn(SessionView, SessionView) -> bool {
    |a: SessionView, b: SessionView| text_le(b.session_start, a.session_start)
}

/// The order of the analytics records: by review date, a missing date first.
pub open spec fn by_qc_date() -> spec_fn(RecordView, RecordView) -> bool {
    |a: RecordView, b: RecordView| optional_text_le(a.qc_date, b.qc_date)
}

/// What the charts need of a stored record.
pub open spec fn analytics_of(record: RecordView) -> AnalyticsRecordView {
    AnalyticsRecordView {
        qc_date: record.qc_date,
        filename: record.filename,
        qc_decision: record.qc_decision,
        next_action: record.next_action,
        time_spent_millis: record.time_spent_millis,
        qc_observations: record.qc_observations,
    }
}

/// The sessions of one user among the given ones, as stored.
pub open spec fn sessions_of(sessions: Seq<SessionView>, qc_name: Seq<char>) -> Seq<SessionView> {
    sessions.filter(|s: SessionView| s.qc_name == qc_name)
}

/// The sessions of one user, the latest start first; sessions that
/// started at the same time stay in the order in which they were created.
pub open spec fn history_of(sessions: Seq<SessionView>, qc_name: Seq<char>) -> Seq<SessionView> {
    sort_by(sessions_of(sessions, qc_name), newest_first())
}

/// The active measurements of one user among the given records, as
/// stored.
pub open spec fn active_of(records: Seq<RecordView>, qc_name: Seq<char>) -> Seq<RecordView> {
    records.filter(|r: RecordView| counts_for(r, qc_name))
}

/// Those of the given records that carry the given decision.
pub open spec fn decided(records: Seq<RecordView>, decision: Seq<char>) -> Seq<RecordView> {
    records.filter(|r: RecordView| r.qc_decision == Some(decision))
}

/// The aggregate analytics of one user over the active measurements:
/// how many there are, how many were decided "Right" and how many "Wrong",
/// and their mean time, which is absent when there are none.
pub open spec fn summary_of(records: Seq<RecordView>, qc_name: Seq<char>) -> SummaryView {
    let active = active_of(records, qc_name);
    SummaryView {
        total_images: active.len(),
        total_right: decided(active, "Right"@).len(),
        total_wrong: decided(active, "Wrong"@).len(),
        average_time: if active.len() == 0 {
            None
        } else {
            Some(MeanView { total_millis: total_time(active), count: active.len() })
        },
    }
}

/// The active measurements of one user for the charts, by review date, a
/// missing date first; records of the same date stay in the order in which
/// they were first saved.
pub open spec fn analytics_records_of(
    records: Seq<RecordView>,
    qc_name: Seq<char>,
) -> Seq<AnalyticsRecordView> {
    sort_by(active_of(records, qc_name), by_qc_date()).map_values(|r: RecordView| analytics_of(r))
}

/// A database: whether its tables exist, how it journals, the rows of its
/// three tables in the order in which they were first stored, and, for the
/// two tables that number their rows, the latest identifier handed out.
pub struct DatabaseView {
    pub initialized: bool,
    pub journal_mode: JournalMode,
    pub sessions: Seq<SessionView>,
    pub session_sequence: int,
    pub records: Seq<RecordView>,
    pub record_sequence: int,
    pub settings: Seq<SettingView>,
}

impl DatabaseView {
    /// A database file that nobody has written to yet.
    pub open spec fn blank() -> DatabaseView {
        DatabaseView {
            initialized: false,
            journal_mode: JournalMode::Delete,
            sessions: Seq::empty(),
            session_sequence: 0,
            records: Seq::empty(),
            record_sequence: 0,
            settings: Seq::empty(),
        }
    }

    /// Whether a session with the given identifier exists.
    pub open spec fn has_session(self, id: int) -> bool {
        exists|i: int| 0 <= i < self.sessions.len() && (#[trigger] self.sessions[i]).id == id
    }

    /// Whether a record for the given image of the given session exists.
    pub open spec fn has_record(self, session_id: int, filename: Seq<char>) -> bool {
        exists|i: int|
            0 <= i < self.records.len() && has_key(#[trigger] self.records[i], session_id, filename)
    }

    /// Whether a setting with the given key exists.
    pub open spec fn has_setting(self, key: Seq<char>) -> bool {
        exists|i: int| 0 <= i < self.settings.len() && (#[trigger] self.settings[i]).key == key
    }

    /// What makes a database valid: without tables it holds no rows and has
    /// handed out no identifier; identifiers grow in the order in which the
    /// rows were stored; every record belongs to a session that exists; no
    /// two records are for the same image of the same session; no two
    /// settings have the same key.
    pub open spec fn wf(self) -> bool {
        &&& !self.initialized ==> self.sessions.len() == 0 && self.records.len() == 0
            && self.settings.len() == 0 && self.session_sequence == 0 && self.record_sequence
            == 0
        &&& 0 <= self.session_sequence
        &&& 0 <= self.record_sequence
        &&& forall|i: int, j: int|
            0 <= i < j < self.sessions.len() ==> (#[trigger] self.sessions[i]).id < (
            #[trigger] self.sessions[j]).id
        &&& forall|i: int, j: int|
            0 <= i < j < self.records.len() ==> (#[trigger] self.records[i]).id < (
            #[trigger] self.records[j]).id
        &&& forall|i: int|
            0 <= i < self.records.len() ==> self.has_session((#[trigger] self.records[i]).session_id)
        &&& forall|i: int, j: int|
            0 <= i < j < self.records.len() ==> !has_key(
                #[trigger] self.records[i],
                (#[trigger] self.records[j]).session_id,
                self.records[j].filename,
            )
        &&& forall|i: int, j: int|
            0 <= i < j < self.settings.len() ==> (#[trigger] self.settings[i]).key != (
            #[trigger] self.settings[j]).key
    }

    /// The database after its schema has been set up: the tables exist,
    /// writes are journaled ahead, and every row is as it was.
    pub open spec fn initialize(self) -> DatabaseView {
        DatabaseView { initialized: true, journal_mode: JournalMode::WriteAheadLog, ..self }
    }

    /// The identifier that the next new session gets: one more than the
    /// latest that was handed out and than the latest in the table. The first
    /// session of a new database gets 1.
    pub open spec fn next_session_id(self) -> int {
        if self.sessions.len() == 0 || self.sessions.last().id < self.session_sequence {
            self.session_sequence + 1
        } else {
            self.sessions.last().id + 1
        }
    }

    /// The identifier that the next save of a record takes: one more than the
    /// latest that was handed out and than the latest in the table.
    pub open spec fn next_record_id(self) -> int {
        if self.records.len() == 0 || self.records.last().id < self.record_sequence {
            self.record_sequence + 1
        } else {
            self.records.last().id + 1
        }
    }

    /// The database with one more session, started and created at `now`.
    pub open spec fn with_session(
        self,
        qc_name: Seq<char>,
        folder_path: Seq<char>,
        now: Seq<char>,
    ) -> DatabaseView {
        DatabaseView {
            sessions: self.sessions.push(
                SessionView {
                    id: self.next_session_id(),
                    qc_name,
                    folder_path,
                    session_start: now,
                    session_end: None,
                    created_at: now,
                },
            ),
            session_sequence: self.next_session_id(),
            ..self
        }
    }

    /// The database after a payload has been saved at `now`: the record for
    /// its image and session is overwritten where one exists, and added at
    /// the end where none does. Either way the save takes the next
    /// identifier; an overwritten record does not use it and keeps its own.
    pub open spec fn with_record(self, payload: PayloadView, now: Seq<char>) -> DatabaseView {
        if self.has_record(payload.session_id, payload.filename) {
            DatabaseView {
                records: self.records.map_values(
                    |r: RecordView|
                        if has_key(r, payload.session_id, payload.filename) {
                            overwritten(r, payload, now)
                        } else {
                            r
                        },
                ),
                record_sequence: self.next_record_id(),
                ..self
            }
        } else {
            DatabaseView {
                records: self.records.push(new_record(self.next_record_id(), payload, now)),
                record_sequence: self.next_record_id(),
                ..self
            }
        }
    }

    /// Why a payload cannot be saved, if it cannot: the record table does not
    /// exist; or the table has used up its identifiers, which stops an
    /// overwriting save too; or the payload names a session that does not
    /// exist.
    pub open spec fn save_record_failure(self, payload: PayloadView) -> Option<ErrorView> {
        if !self.initialized {
            Some(
                ErrorView {
                    kind: ErrorKind::QueryExecError,
                    operation: Operation::SaveQcRecord,
                    cause: spec_no_such_table("qc_records"@),
                },
            )
        } else if self.next_record_id() > i64::MAX {
            Some(
                ErrorView {
                    kind: ErrorKind::QueryExecError,
                    operation: Operation::SaveQcRecord,
                    cause: spec_full_cause(),
                },
            )
        } else if !self.has_session(payload.session_id) {
            Some(
                ErrorView {
                    kind: ErrorKind::ConstraintViolation,
                    operation: Operation::SaveQcRecord,
                    cause: spec_foreign_key_cause(),
                },
            )
        } else {
            None
        }
    }

    /// Why a session cannot be created, if it cannot: the session table does
    /// not exist, or it has used up its identifiers.
    pub open spec fn create_session_failure(self) -> Option<ErrorView> {
        if !self.initialized {
            Some(
                ErrorView {
                    kind: ErrorKind::QueryExecError,
                    operation: Operation::CreateSession,
                    cause: spec_no_such_table("qc_sessions"@),
                },
            )
        } else if self.next_session_id() > i64::MAX {
            Some(
                ErrorView {
                    kind: ErrorKind::QueryExecError,
                    operation: Operation::CreateSession,
                    cause: spec_full_cause(),
                },
            )
        } else {
            None
        }
    }

    /// The database after a setting has been saved at `now`: the last write
    /// to a key wins.
    pub open spec fn with_setting(
        self,
        key: Seq<char>,
        value: Seq<char>,
        now: Seq<char>,
    ) -> DatabaseView {
        if self.has_setting(key) {
            DatabaseView {
                settings: self.settings.map_values(
                    |s: SettingView|
                        if s.key == key {
                            SettingView { key, value, updated_at: now }
                        } else {
                            s
                        },
                ),
                ..self
            }
        } else {
            DatabaseView {
                settings: self.settings.push(SettingView { key, value, updated_at: now }),
                ..self
            }
        }
    }

    /// Every setting as a pair of key and value.
    pub open spec fn setting_pairs(self) -> Seq<SettingPairView> {
        self.settings.map_values(|s: SettingView| SettingPairView { key: s.key, value: s.value })
    }

    /// The sessions of one user, the latest start first.
    pub open spec fn history(self, qc_name: Seq<char>) -> Seq<SessionView> {
        history_of(self.sessions, qc_name)
    }

    /// The aggregate analytics of one user.
    pub open spec fn summary(self, qc_name: Seq<char>) -> SummaryView {
        summary_of(self.records, qc_name)
    }

    /// The active measurements of one user for the charts, by review
    /// date.
    pub open spec fn analytics_records(self, qc_name: Seq<char>) -> Seq<AnalyticsRecordView> {
        analytics_records_of(self.records, qc_name)
    }
}

} // verus!
