//! Review sessions: the stored row, what a caller hands in to start one, and
//! what the history hands back.

use vstd::prelude::*;
use crate::error::{spec_no_such_table, ErrorKind, ErrorView, Operation, StoreError};
use crate::laws::history_is_descending;
use crate::model::{history_of, newest_first, sessions_of, SessionView};
use crate::order::{insert_position, lemma_insert_position_unique};
use crate::store::{session_views, Database};
use crate::text::{
    copy_optional_text, copy_text, optional_text, text_before_or_equal, text_le,
};

verus! {

/// What a caller hands in to start a session.
#[derive(Debug, PartialEq, Eq)]
pub struct CreateSessionPayload {
    pub qc_name: String,
    pub folder_path: String,
}

/// A session as the store keeps it.
#[derive(Debug, PartialEq, Eq)]
pub struct QcSession {
    pub id: i64,
    pub qc_name: String,
    pub folder_path: String,
    pub session_start: String,
    pub session_end: Option<String>,
    pub created_at: String,
}

/// A session as the history shows it.
#[derive(Debug, PartialEq, Eq)]
pub struct SessionSummary {
    pub id: i64,
    pub qc_name: String,
    pub folder_path: String,
    pub session_start: String,
    pub session_end: Option<String>,
    pub created_at: String,
}

impl View for QcSession {
    type V = SessionView;

    open spec fn view(&self) -> SessionView {
        SessionView {
            id: self.id as int,
            qc_name: self.qc_name@,
            folder_path: self.folder_path@,
            session_start: self.session_start@,
            session_end: optional_text(self.session_end),
            created_at: self.created_at@,
        }
    }
}

impl View for SessionSummary {
    type V = SessionView;

    open spec fn view(&self) -> SessionView {
        SessionView {
            id: self.id as int,
            qc_name: self.qc_name@,
            folder_path: self.folder_path@,
            session_start: self.session_start@,
            session_end: optional_text(self.session_end),
            created_at: self.created_at@,
        }
    }
}

impl QcSession {
    /// The session as the history shows it.
    pub fn summary(&self) -> (summary: SessionSummary)
        ensures
            summary@ == self@,
    {
        SessionSummary {
            id: self.id,
            qc_name: copy_text(&self.qc_name),
            folder_path: copy_text(&self.folder_path),
            session_start: copy_text(&self.session_start),
            session_end: copy_optional_text(&self.session_end),
            created_at: copy_text(&self.created_at),
        }
    }
}

/// Starts a session at the time `now` and returns its identifier, which is
/// greater than that of every session before it.
pub fn create_session(db: &mut Database, payload: CreateSessionPayload, now: String) -> (result:
    Result<i64, StoreError>)
    requires
        old(db)@.wf(),
    ensures
        final(db)@.wf(),
        result is Ok <==> old(db)@.create_session_failure() is None,
        result matches Ok(id) ==> id == old(db)@.next_session_id() && final(db)@ == old(
            db,
        )@.with_session(payload.qc_name@, payload.folder_path@, now@),
        result matches Ok(id) ==> forall|i: int|
            0 <= i < old(db)@.sessions.len() ==> (#[trigger] old(db)@.sessions[i]).id < id,
        result matches Err(error) ==> final(db)@ == old(db)@ && Some(error@) == old(
            db,
        )@.create_session_failure(),
{
    if !db.initialized {
        return Err(
            StoreError::no_such_table(
                ErrorKind::QueryExecError,
                Operation::CreateSession,
                "qc_sessions",
            ),
        );
    }
    let ghost before = db@;
    let ghost n = db.sessions.len() as int;
    let id: i64 = match db.next_session_id() {
        Some(id) => id,
        None => {
            return Err(StoreError::full(Operation::CreateSession));
        },
    };
    let session = QcSession {
        id,
        qc_name: payload.qc_name,
        folder_path: payload.folder_path,
        session_start: copy_text(&now),
        session_end: None,
        created_at: now,
    };
    let ghost wanted = session@;
    db.sessions.push(session);
    db.session_sequence = id;
    proof {
        let after = db@;
        assert(after.sessions =~= before.sessions.push(wanted));
        assert(after.records == before.records);
        assert(after.settings == before.settings);
        assert forall|i: int| 0 <= i < before.sessions.len() implies (
        #[trigger] before.sessions[i]).id < id by {
            if i < n - 1 {
                assert(before.sessions[i].id < before.sessions[n - 1].id);
            }
        }
        assert forall|k: int| 0 <= k < after.records.len() implies after.has_session(
            (#[trigger] after.records[k]).session_id,
        ) by {
            assert(before.has_session(before.records[k].session_id));
            let w = choose|w: int|
                0 <= w < before.sessions.len() && (#[trigger] before.sessions[w]).id
                    == before.records[k].session_id;
            assert(after.sessions[w].id == after.records[k].session_id);
        }
    }
    Ok(id)
}

/// The sessions of a history as the model sees them.
pub open spec fn summary_views(rows: Seq<SessionSummary>) -> Seq<SessionView> {
    rows.map_values(|s: SessionSummary| s@)
}

/// What one more session adds to the history of a user.
proof fn lemma_history_step(sessions: Seq<SessionView>, qc_name: Seq<char>, i: int)
    requires
        0 <= i < sessions.len(),
    ensures
        history_of(sessions.take(i + 1), qc_name) == if sessions[i].qc_name == qc_name {
            let sorted = history_of(sessions.take(i), qc_name);
            sorted.insert(insert_position(sorted, sessions[i], newest_first()), sessions[i])
        } else {
            history_of(sessions.take(i), qc_name)
        },
{
    reveal(Seq::filter);
    assert(sessions.take(i + 1).drop_last() =~= sessions.take(i));
    if sessions[i].qc_name == qc_name {
        let own = sessions_of(sessions.take(i), qc_name);
        assert(own.push(sessions[i]).drop_last() =~= own);
    }
}

/// The sessions of one user, the latest start first. Sessions that
/// started at the same time stay in the order in which they were created. A
/// user without sessions has an empty history.
pub fn get_session_history(db: &Database, qc_name: String) -> (result: Result<
    Vec<SessionSummary>,
    StoreError,
>)
    ensures
        result is Ok <==> db@.initialized,
        result matches Ok(sessions) ==> summary_views(sessions@) == db@.history(qc_name@),
        result matches Ok(sessions) ==> sessions@.len() == sessions_of(
            db@.sessions,
            qc_name@,
        ).len(),
        result matches Ok(sessions) ==> forall|i: int, j: int|
            0 <= i < j < sessions@.len() ==> text_le(
                (#[trigger] sessions@[j]).session_start@,
                (#[trigger] sessions@[i]).session_start@,
            ),
        result matches Err(error) ==> error@ == (ErrorView {
            kind: ErrorKind::QueryPrepareError,
            operation: Operation::GetSessionHistory,
            cause: spec_no_such_table("qc_sessions"@),
        }),
{
    if !db.initialized {
        return Err(
            StoreError::no_such_table(
                ErrorKind::QueryPrepareError,
                Operation::GetSessionHistory,
                "qc_sessions",
            ),
        );
    }
    let ghost rows = session_views(db.sessions@);
    let mut history: Vec<SessionSummary> = Vec::new();
    let mut i: usize = 0;
    proof {
        reveal(Seq::filter);
        assert(rows.take(0) =~= Seq::empty());
        assert(summary_views(history@) =~= Seq::empty());
    }
    while i < db.sessions.len()
        invariant
            i <= db.sessions.len(),
            rows == session_views(db.sessions@),
            summary_views(history@) == history_of(rows.take(i as int), qc_name@),
        decreases db.sessions.len() - i,
    {
        let session = &db.sessions[i];
        proof {
            lemma_history_step(rows, qc_name@, i as int);
            assert(rows[i as int] == session@);
        }
        if session.qc_name == qc_name {
            let summary = session.summary();
            let ghost sorted = summary_views(history@);
            let mut j: usize = history.len();
            while j > 0 && !text_before_or_equal(
                summary.session_start.as_str(),
                history[j - 1].session_start.as_str(),
            )
                invariant
                    j <= history.len(),
                    sorted == summary_views(history@),
                    forall|k: int|
                        j <= k < sorted.len() ==> !#[trigger] newest_first()(sorted[k], summary@),
                decreases j,
            {
                j = j - 1;
            }
            proof {
                lemma_insert_position_unique(sorted, summary@, newest_first(), j as int);
            }
            history.insert(j, summary);
            proof {
                assert(summary_views(history@) =~= sorted.insert(j as int, rows[i as int]));
            }
        }
        i = i + 1;
    }
    proof {
        assert(rows.take(i as int) =~= rows);
        history_is_descending(rows, qc_name@);
        assert forall|a: int, b: int| 0 <= a < b < history@.len() implies text_le(
            (#[trigger] history@[b]).session_start@,
            (#[trigger] history@[a]).session_start@,
        ) by {
            assert(summary_views(history@)[a] == history@[a]@);
            assert(summary_views(history@)[b] == history@[b]@);
        }
    }
    Ok(history)
}

} // verus!
