//! The database itself: the three tables with their rows, and whether the
//! schema has been set up.

use vstd::prelude::*;
use crate::error::StoreError;
use crate::model::{
    has_key, DatabaseView, JournalMode, RecordView, SessionView, SettingView,
};
use crate::record::QcRecord;
use crate::session::QcSession;
use crate::settings::SettingEntry;

verus! {

/// A database. Its rows can be read, and change only through the operations
/// of this library, which keep a valid database valid. A database taken from a
/// file as it was found is valid where `is_valid` says so; it can be read
/// either way.
pub struct Database {
    pub(crate) initialized: bool,
    pub(crate) journal_mode: JournalMode,
    pub(crate) sessions: Vec<QcSession>,
    pub(crate) session_sequence: i64,
    pub(crate) records: Vec<QcRecord>,
    pub(crate) record_sequence: i64,
    pub(crate) settings: Vec<SettingEntry>,
}

/// The rows of the session table as the model sees them.
pub open spec fn session_views(rows: Seq<QcSession>) -> Seq<SessionView> {
    rows.map_values(|s: QcSession| s@)
}

/// The rows of the record table as the model sees them.
pub open spec fn record_views(rows: Seq<QcRecord>) -> Seq<RecordView> {
    rows.map_values(|r: QcRecord| r@)
}

/// The rows of the settings table as the model sees them.
pub open spec fn setting_views(rows: Seq<SettingEntry>) -> Seq<SettingView> {
    rows.map_values(|s: SettingEntry| s@)
}

impl View for Database {
    type V = DatabaseView;

    open(crate) spec fn view(&self) -> DatabaseView {
        DatabaseView {
            initialized: self.initialized,
            journal_mode: self.journal_mode,
            sessions: session_views(self.sessions@),
            session_sequence: self.session_sequence as int,
            records: record_views(self.records@),
            record_sequence: self.record_sequence as int,
            settings: setting_views(self.settings@),
        }
    }
}

impl Database {
    /// A database file that nobody has written to yet: it has no tables.
    pub fn new() -> (db: Database)
        ensures
            db@ == DatabaseView::blank(),
            db@.wf(),
    {
        let db = Database {
            initialized: false,
            journal_mode: JournalMode::Delete,
            sessions: Vec::new(),
            session_sequence: 0,
            records: Vec::new(),
            record_sequence: 0,
            settings: Vec::new(),
        };
        assert(db@.sessions =~= Seq::empty());
        assert(db@.records =~= Seq::empty());
        assert(db@.settings =~= Seq::empty());
        db
    }

    /// The database that a file with the three tables holds, as it was found:
    /// its rows in the order of the file, with the latest identifier that
    /// each of the two numbered tables has handed out, whether or not they
    /// make a valid database.
    pub fn as_found(
        journal_mode: JournalMode,
        sessions: Vec<QcSession>,
        session_sequence: i64,
        records: Vec<QcRecord>,
        record_sequence: i64,
        settings: Vec<SettingEntry>,
    ) -> (db: Database)
        ensures
            db@ == (DatabaseView {
                initialized: true,
                journal_mode,
                sessions: session_views(sessions@),
                session_sequence: session_sequence as int,
                records: record_views(records@),
                record_sequence: record_sequence as int,
                settings: setting_views(settings@),
            }),
    {
        Database {
            initialized: true,
            journal_mode,
            sessions,
            session_sequence,
            records,
            record_sequence,
            settings,
        }
    }

    /// The database that a file with the three tables holds: its rows in the
    /// order of the file, with the latest identifier that each of the two
    /// numbered tables has handed out, if they make a valid database.
    pub fn from_tables(
        journal_mode: JournalMode,
        sessions: Vec<QcSession>,
        session_sequence: i64,
        records: Vec<QcRecord>,
        record_sequence: i64,
        settings: Vec<SettingEntry>,
    ) -> (db: Option<Database>)
        ensures
            db is Some <==> (DatabaseView {
                initialized: true,
                journal_mode,
                sessions: session_views(sessions@),
                session_sequence: session_sequence as int,
                records: record_views(records@),
                record_sequence: record_sequence as int,
                settings: setting_views(settings@),
            }).wf(),
            db matches Some(d) ==> d@ == (DatabaseView {
                initialized: true,
                journal_mode,
                sessions: session_views(sessions@),
                session_sequence: session_sequence as int,
                records: record_views(records@),
                record_sequence: record_sequence as int,
                settings: setting_views(settings@),
            }),
    {
        let db = Database::as_found(
            journal_mode,
            sessions,
            session_sequence,
            records,
            record_sequence,
            settings,
        );
        if db.is_valid() {
            Some(db)
        } else {
            None
        }
    }

    /// Whether the rows make a valid database.
    pub fn is_valid(&self) -> (valid: bool)
        ensures
            valid == self@.wf(),
    {
        if !self.initialized && (self.sessions.len() != 0 || self.records.len() != 0
            || self.settings.len() != 0 || self.session_sequence != 0 || self.record_sequence
            != 0) {
            return false;
        }
        if self.session_sequence < 0 || self.record_sequence < 0 {
            return false;
        }
        let mut i: usize = 1;
        while i < self.sessions.len()
            invariant
                1 <= i,
                forall|a: int, b: int|
                    0 <= a < b < i && b < self@.sessions.len() ==> (
                    #[trigger] self@.sessions[a]).id < (#[trigger] self@.sessions[b]).id,
            decreases self.sessions.len() - i,
        {
            if self.sessions[i - 1].id >= self.sessions[i].id {
                assert(!(self@.sessions[i - 1].id < self@.sessions[i as int].id));
                return false;
            }
            proof {
                assert forall|a: int, b: int|
                    0 <= a < b < i + 1 && b < self@.sessions.len() implies (
                #[trigger] self@.sessions[a]).id < (#[trigger] self@.sessions[b]).id by {
                    if b == i && a < i - 1 {
                        assert(self@.sessions[a].id < self@.sessions[i - 1].id);
                    }
                }
            }
            i = i + 1;
        }
        let mut j: usize = 0;
        while j < self.records.len()
            invariant
                j <= self.records.len(),
                forall|a: int, b: int|
                    0 <= a < b < j ==> (#[trigger] self@.records[a]).id < (
                    #[trigger] self@.records[b]).id,
                forall|a: int, b: int|
                    0 <= a < b < j ==> !has_key(
                        #[trigger] self@.records[a],
                        (#[trigger] self@.records[b]).session_id,
                        self@.records[b].filename,
                    ),
                forall|a: int|
                    0 <= a < j ==> self@.has_session((#[trigger] self@.records[a]).session_id),
            decreases self.records.len() - j,
        {
            let record = &self.records[j];
            if j > 0 && self.records[j - 1].id >= record.id {
                assert(!(self@.records[j - 1].id < self@.records[j as int].id));
                return false;
            }
            if !self.session_exists(record.session_id) {
                assert(!self@.has_session(self@.records[j as int].session_id));
                return false;
            }
            let mut k: usize = 0;
            while k < j
                invariant
                    k <= j,
                    j < self.records.len(),
                    record == &self.records[j as int],
                    forall|a: int|
                        0 <= a < k ==> !has_key(
                            #[trigger] self@.records[a],
                            self@.records[j as int].session_id,
                            self@.records[j as int].filename,
                        ),
                decreases j - k,
            {
                let earlier = &self.records[k];
                if earlier.session_id == record.session_id && earlier.filename == record.filename {
                    assert(has_key(
                        self@.records[k as int],
                        self@.records[j as int].session_id,
                        self@.records[j as int].filename,
                    ));
                    return false;
                }
                k = k + 1;
            }
            proof {
                assert forall|a: int, b: int| 0 <= a < b < j + 1 implies (
                #[trigger] self@.records[a]).id < (#[trigger] self@.records[b]).id by {
                    if b == j && a < j - 1 {
                        assert(self@.records[a].id < self@.records[j - 1].id);
                    }
                }
            }
            j = j + 1;
        }
        let mut m: usize = 0;
        while m < self.settings.len()
            invariant
                m <= self.settings.len(),
                forall|a: int, b: int|
                    0 <= a < b < m ==> (#[trigger] self@.settings[a]).key != (
                    #[trigger] self@.settings[b]).key,
            decreases self.settings.len() - m,
        {
            let mut k: usize = 0;
            while k < m
                invariant
                    k <= m,
                    m < self.settings.len(),
                    forall|a: int|
                        0 <= a < k ==> (#[trigger] self@.settings[a]).key
                            != self@.settings[m as int].key,
                decreases m - k,
            {
                if self.settings[k].key == self.settings[m].key {
                    assert(self@.settings[k as int].key == self@.settings[m as int].key);
                    return false;
                }
                k = k + 1;
            }
            m = m + 1;
        }
        true
    }

    /// The latest identifier that the session table has handed out.
    pub fn session_sequence(&self) -> (sequence: i64)
        ensures
            sequence == self@.session_sequence,
    {
        self.session_sequence
    }

    /// The latest identifier that the record table has handed out.
    pub fn record_sequence(&self) -> (sequence: i64)
        ensures
            sequence == self@.record_sequence,
    {
        self.record_sequence
    }

    /// The identifier that the next new session would get, if the table has
    /// one left.
    pub fn next_session_id(&self) -> (next: Option<i64>)
        ensures
            next is Some <==> self@.next_session_id() <= i64::MAX,
            next matches Some(id) ==> id == self@.next_session_id(),
    {
        let n = self.sessions.len();
        let latest = if n == 0 || self.sessions[n - 1].id < self.session_sequence {
            self.session_sequence
        } else {
            self.sessions[n - 1].id
        };
        if latest == i64::MAX {
            None
        } else {
            Some(latest + 1)
        }
    }

    /// The identifier that the next save of a record would take, if the table
    /// has one left.
    pub fn next_record_id(&self) -> (next: Option<i64>)
        ensures
            next is Some <==> self@.next_record_id() <= i64::MAX,
            next matches Some(id) ==> id == self@.next_record_id(),
    {
        let n = self.records.len();
        let latest = if n == 0 || self.records[n - 1].id < self.record_sequence {
            self.record_sequence
        } else {
            self.records[n - 1].id
        };
        if latest == i64::MAX {
            None
        } else {
            Some(latest + 1)
        }
    }

    /// The rows of the session table, in the order in which they were stored.
    pub fn sessions(&self) -> (rows: &Vec<QcSession>)
        ensures
            session_views(rows@) == self@.sessions,
    {
        &self.sessions
    }

    /// The rows of the record table, in the order in which they were first
    /// stored.
    pub fn records(&self) -> (rows: &Vec<QcRecord>)
        ensures
            record_views(rows@) == self@.records,
    {
        &self.records
    }

    /// The rows of the settings table, in the order in which their keys were
    /// first written.
    pub fn settings(&self) -> (rows: &Vec<SettingEntry>)
        ensures
            setting_views(rows@) == self@.settings,
    {
        &self.settings
    }

    /// Whether a session with the given identifier exists.
    pub fn session_exists(&self, id: i64) -> (exists: bool)
        ensures
            exists == self@.has_session(id as int),
    {
        let mut i: usize = 0;
        while i < self.sessions.len()
            invariant
                i <= self.sessions.len(),
                forall|k: int| 0 <= k < i ==> (#[trigger] self@.sessions[k]).id != id,
            decreases self.sessions.len() - i,
        {
            if self.sessions[i].id == id {
                assert(self@.sessions[i as int].id == id);
                return true;
            }
            i = i + 1;
        }
        false
    }

    /// Where the record for the given image of the given session stands in
    /// the record table, if there is one.
    pub fn find_record(&self, session_id: i64, filename: &String) -> (found: Option<usize>)
        ensures
            found is Some <==> self@.has_record(session_id as int, filename@),
            found matches Some(i) ==> i < self@.records.len() && has_key(
                self@.records[i as int],
                session_id as int,
                filename@,
            ),
    {
        let mut i: usize = 0;
        while i < self.records.len()
            invariant
                i <= self.records.len(),
                forall|k: int|
                    0 <= k < i ==> !has_key(
                        #[trigger] self@.records[k],
                        session_id as int,
                        filename@,
                    ),
            decreases self.records.len() - i,
        {
            let record = &self.records[i];
            if record.session_id == session_id && record.filename == *filename {
                assert(has_key(self@.records[i as int], session_id as int, filename@));
                return Some(i);
            }
            i = i + 1;
        }
        None
    }

    /// Whether the tables exist.
    pub fn is_initialized(&self) -> (initialized: bool)
        ensures
            initialized == self@.initialized,
    {
        self.initialized
    }

    /// How the database journals its writes.
    pub fn journal_mode(&self) -> (mode: JournalMode)
        ensures
            mode == self@.journal_mode,
    {
        self.journal_mode
    }
}

/// Sets up the schema: creates the tables that do not exist yet and switches
/// to write-ahead logging. Rows that are there stay as they are, so a second
/// call changes nothing, and a valid database stays valid.
pub fn init_database(db: &mut Database) -> (result: Result<(), StoreError>)
    ensures
        result is Ok,
        final(db)@ == old(db)@.initialize(),
        old(db)@.wf() ==> final(db)@.wf(),
{
    db.initialized = true;
    db.journal_mode = JournalMode::WriteAheadLog;
    Ok(())
}

} // verus!
