//! What holds of the store whatever it contains, stated over the model and
//! proved.

use vstd::prelude::*;
use crate::model::{
    active_of, analytics_records_of, by_qc_date, has_key, history_of, new_record, newest_first,
    overwritten, sessions_of, summary_of, total_time, DatabaseView, JournalMode, PayloadView,
    RecordView, SessionView, SettingView,
};
use crate::order::{
    distinct_by, is_total, is_transitive, lemma_sort_by_keeps_distinct, lemma_sort_by_ordered,
    lemma_sort_by_permutes, lemma_sort_by_same_rows, sort_by,
};
use crate::text::{
    lemma_text_le_antisymmetric, lemma_text_le_total, lemma_text_le_transitive, optional_text_le,
    text_le, text_lt,
};

verus! {

/// "Latest start first" is a total and transitive order on sessions.
pub proof fn lemma_newest_first_orders()
    ensures
        is_total(newest_first()),
        is_transitive(newest_first()),
{
    assert forall|a: SessionView, b: SessionView| #[trigger]
        newest_first()(a, b) || newest_first()(b, a) by {
        lemma_text_le_total(a.session_start, b.session_start);
    }
    assert forall|a: SessionView, b: SessionView, c: SessionView| #[trigger]
        newest_first()(a, b) && #[trigger] newest_first()(b, c) implies newest_first()(a, c) by {
        lemma_text_le_transitive(c.session_start, b.session_start, a.session_start);
    }
}

/// "By review date, a missing date first" is a total and transitive order on
/// records.
pub proof fn lemma_by_qc_date_orders()
    ensures
        is_total(by_qc_date()),
        is_transitive(by_qc_date()),
{
    assert forall|a: RecordView, b: RecordView| #[trigger]
        by_qc_date()(a, b) || by_qc_date()(b, a) by {
        if a.qc_date is Some && b.qc_date is Some {
            lemma_text_le_total(a.qc_date->0, b.qc_date->0);
        }
    }
    assert forall|a: RecordView, b: RecordView, c: RecordView| #[trigger]
        by_qc_date()(a, b) && #[trigger] by_qc_date()(b, c) implies by_qc_date()(a, c) by {
        if a.qc_date is Some && b.qc_date is Some && c.qc_date is Some {
            lemma_text_le_transitive(a.qc_date->0, b.qc_date->0, c.qc_date->0);
        }
    }
}

/// Setting up the schema is idempotent: a second call leaves the database as
/// the first call left it. It keeps every row and keeps a valid database
/// valid.
pub proof fn schema_setup_is_idempotent(db: DatabaseView)
    ensures
        db.initialize().initialize() == db.initialize(),
        db.initialize().initialized,
        db.initialize().journal_mode == JournalMode::WriteAheadLog,
        db.initialize().sessions == db.sessions,
        db.initialize().records == db.records,
        db.initialize().settings == db.settings,
        db.initialize().session_sequence == db.session_sequence,
        db.initialize().record_sequence == db.record_sequence,
        db.initialized && db.journal_mode == JournalMode::WriteAheadLog ==> db.initialize() == db,
        db.wf() ==> db.initialize().wf(),
{
    if db.wf() {
        let after = db.initialize();
        assert forall|i: int| 0 <= i < after.records.len() implies after.has_session(
            (#[trigger] after.records[i]).session_id,
        ) by {
            assert(db.has_session(db.records[i].session_id));
        }
    }
}

/// What creating a session makes of a valid database: a valid database with
/// the same records and settings, in which the new session exists.
pub proof fn lemma_with_session(
    db: DatabaseView,
    qc_name: Seq<char>,
    folder_path: Seq<char>,
    now: Seq<char>,
)
    requires
        db.wf(),
        db.initialized,
    ensures
        db.with_session(qc_name, folder_path, now).wf(),
        db.with_session(qc_name, folder_path, now).has_session(db.next_session_id()),
        forall|id: int|
            db.has_session(id) ==> db.with_session(qc_name, folder_path, now).has_session(id),
        forall|i: int|
            0 <= i < db.sessions.len() ==> (#[trigger] db.sessions[i]).id < db.next_session_id(),
{
    let after = db.with_session(qc_name, folder_path, now);
    let n = db.sessions.len() as int;
    assert(after.sessions[n].id == db.next_session_id());
    assert forall|i: int| 0 <= i < n implies (#[trigger] db.sessions[i]).id
        < db.next_session_id() by {
        if i < n - 1 {
            assert(db.sessions[i].id < db.sessions[n - 1].id);
        }
    }
    assert forall|id: int| db.has_session(id) implies after.has_session(id) by {
        let w = choose|w: int| 0 <= w < db.sessions.len() && (#[trigger] db.sessions[w]).id == id;
        assert(after.sessions[w].id == id);
    }
    assert forall|k: int| 0 <= k < after.records.len() implies after.has_session(
        (#[trigger] after.records[k]).session_id,
    ) by {
        assert(db.has_session(db.records[k].session_id));
    }
}

/// Session identifiers are unique and grow from call to call: a new session
/// gets an identifier that no session has and that is greater than that of
/// every session before it, and whatever session is created after it gets a
/// greater one still.
pub proof fn session_ids_increase(
    db: DatabaseView,
    qc_name: Seq<char>,
    folder_path: Seq<char>,
    now: Seq<char>,
)
    requires
        db.wf(),
        db.initialized,
    ensures
        forall|i: int|
            0 <= i < db.sessions.len() ==> (#[trigger] db.sessions[i]).id < db.next_session_id(),
        !db.has_session(db.next_session_id()),
        db.next_session_id() < db.with_session(qc_name, folder_path, now).next_session_id(),
{
    lemma_with_session(db, qc_name, folder_path, now);
    let after = db.with_session(qc_name, folder_path, now);
    assert(after.sessions.last().id == db.next_session_id());
}

/// The history of a user holds exactly the sessions of that user,
/// each once, and runs from the latest start to the earliest.
pub proof fn history_is_descending(sessions: Seq<SessionView>, qc_name: Seq<char>)
    ensures
        history_of(sessions, qc_name).to_multiset() == sessions_of(
            sessions,
            qc_name,
        ).to_multiset(),
        history_of(sessions, qc_name).len() == sessions_of(sessions, qc_name).len(),
        forall|i: int, j: int|
            0 <= i < j < history_of(sessions, qc_name).len() ==> text_le(
                (#[trigger] history_of(sessions, qc_name)[j]).session_start,
                (#[trigger] history_of(sessions, qc_name)[i]).session_start,
            ),
        forall|i: int|
            0 <= i < history_of(sessions, qc_name).len() ==> (#[trigger] history_of(
                sessions,
                qc_name,
            )[i]).qc_name == qc_name,
{
    let own = sessions_of(sessions, qc_name);
    let history = history_of(sessions, qc_name);
    lemma_newest_first_orders();
    lemma_sort_by_permutes(own, newest_first());
    lemma_sort_by_ordered(own, newest_first());
    assert forall|i: int, j: int| 0 <= i < j < history.len() implies text_le(
        (#[trigger] history[j]).session_start,
        (#[trigger] history[i]).session_start,
    ) by {
        assert(newest_first()(history[i], history[j]));
    }
    assert forall|i: int| 0 <= i < history.len() implies (#[trigger] history[i]).qc_name
        == qc_name by {
        lemma_sort_by_same_rows(own, newest_first(), history[i]);
        assert(history.contains(history[i]));
        let w = choose|w: int| 0 <= w < own.len() && own[w] == history[i];
        sessions.lemma_filter_pred(|s: SessionView| s.qc_name == qc_name, w);
    }
}

/// Where no two sessions of a user started at the same time, the history
/// is strictly descending: each session started later than the one behind
/// it.
pub proof fn history_is_strictly_descending(sessions: Seq<SessionView>, qc_name: Seq<char>)
    requires
        forall|i: int, j: int|
            0 <= i < j < sessions_of(sessions, qc_name).len() ==> (#[trigger] sessions_of(
                sessions,
                qc_name,
            )[i]).session_start != (#[trigger] sessions_of(sessions, qc_name)[j]).session_start,
    ensures
        forall|i: int, j: int|
            0 <= i < j < history_of(sessions, qc_name).len() ==> text_lt(
                (#[trigger] history_of(sessions, qc_name)[j]).session_start,
                (#[trigger] history_of(sessions, qc_name)[i]).session_start,
            ),
{
    let own = sessions_of(sessions, qc_name);
    let history = history_of(sessions, qc_name);
    let start = |s: SessionView| s.session_start;
    history_is_descending(sessions, qc_name);
    assert(distinct_by(own, start));
    lemma_sort_by_keeps_distinct(own, newest_first(), start);
    assert forall|i: int, j: int| 0 <= i < j < history.len() implies text_lt(
        (#[trigger] history[j]).session_start,
        (#[trigger] history[i]).session_start,
    ) by {
        assert(start(history[i]) != start(history[j]));
        if text_le(history[i].session_start, history[j].session_start) {
            lemma_text_le_antisymmetric(history[i].session_start, history[j].session_start);
        }
    }
}

/// A user without sessions has an empty history.
pub proof fn history_of_a_stranger_is_empty(sessions: Seq<SessionView>, qc_name: Seq<char>)
    requires
        forall|i: int| 0 <= i < sessions.len() ==> (#[trigger] sessions[i]).qc_name != qc_name,
    ensures
        history_of(sessions, qc_name) == Seq::<SessionView>::empty(),
{
    let own = sessions_of(sessions, qc_name);
    if own.len() > 0 {
        sessions.lemma_filter_pred(|s: SessionView| s.qc_name == qc_name, 0);
        sessions.lemma_filter_contains_rev(|s: SessionView| s.qc_name == qc_name, own[0]);
        assert(own.contains(own[0]));
        assert(sessions.contains(own[0]));
    }
    assert(own =~= Seq::empty());
}

/// What saving a payload makes of a valid database in which the payload can
/// be saved: a valid database with the same sessions and settings, in which
/// the record for the payload's image and session exists. Where it existed
/// before, every record keeps its place and only that one is overwritten;
/// where it did not, it is added at the end.
pub proof fn lemma_with_record(db: DatabaseView, payload: PayloadView, now: Seq<char>)
    requires
        db.wf(),
        db.save_record_failure(payload) is None,
    ensures
        db.with_record(payload, now).wf(),
        db.with_record(payload, now).initialized,
        db.with_record(payload, now).sessions == db.sessions,
        db.with_record(payload, now).settings == db.settings,
        db.with_record(payload, now).has_record(payload.session_id, payload.filename),
        db.has_record(payload.session_id, payload.filename) ==> db.with_record(
            payload,
            now,
        ).records.len() == db.records.len(),
        db.has_record(payload.session_id, payload.filename) ==> forall|k: int|
            0 <= k < db.records.len() ==> #[trigger] db.with_record(payload, now).records[k] == if has_key(
                db.records[k],
                payload.session_id,
                payload.filename,
            ) {
                overwritten(db.records[k], payload, now)
            } else {
                db.records[k]
            },
        !db.has_record(payload.session_id, payload.filename) ==> db.with_record(
            payload,
            now,
        ).records == db.records.push(new_record(db.next_record_id(), payload, now)),
{
    let after = db.with_record(payload, now);
    let n = db.records.len() as int;
    if db.has_record(payload.session_id, payload.filename) {
        let w = choose|w: int|
            0 <= w < db.records.len() && has_key(
                #[trigger] db.records[w],
                payload.session_id,
                payload.filename,
            );
        assert(has_key(after.records[w], payload.session_id, payload.filename));
        assert forall|k: int| 0 <= k < after.records.len() implies after.has_session(
            (#[trigger] after.records[k]).session_id,
        ) by {
            assert(db.has_session(db.records[k].session_id));
        }
        assert forall|i: int, j: int| 0 <= i < j < after.records.len() implies !has_key(
            #[trigger] after.records[i],
            (#[trigger] after.records[j]).session_id,
            after.records[j].filename,
        ) by {
            assert(!has_key(db.records[i], db.records[j].session_id, db.records[j].filename));
        }
        assert forall|i: int, j: int| 0 <= i < j < after.records.len() implies (
        #[trigger] after.records[i]).id < (#[trigger] after.records[j]).id by {
            assert(db.records[i].id < db.records[j].id);
        }
    } else {
        assert(has_key(after.records[n], payload.session_id, payload.filename));
        assert forall|k: int| 0 <= k < after.records.len() implies after.has_session(
            (#[trigger] after.records[k]).session_id,
        ) by {
            if k < n {
                assert(db.has_session(db.records[k].session_id));
            }
        }
        assert forall|i: int, j: int| 0 <= i < j < after.records.len() implies (
        #[trigger] after.records[i]).id < (#[trigger] after.records[j]).id by {
            if j == n && i < n - 1 {
                assert(db.records[i].id < db.records[n - 1].id);
            }
        }
    }
}

/// Every save takes one identifier: after a save the next identifier is one
/// more than before it, and greater than that of every record.
pub proof fn lemma_next_record_id(db: DatabaseView, payload: PayloadView, now: Seq<char>)
    requires
        db.wf(),
        db.save_record_failure(payload) is None,
    ensures
        db.with_record(payload, now).next_record_id() == db.next_record_id() + 1,
        db.with_record(payload, now).record_sequence == db.next_record_id(),
        forall|i: int|
            0 <= i < db.with_record(payload, now).records.len() ==> (#[trigger] db.with_record(
                payload,
                now,
            ).records[i]).id <= db.next_record_id(),
{
    let after = db.with_record(payload, now);
    let n = db.records.len() as int;
    lemma_with_record(db, payload, now);
    assert forall|i: int| 0 <= i < n implies (#[trigger] db.records[i]).id
        < db.next_record_id() by {
        if i < n - 1 {
            assert(db.records[i].id < db.records[n - 1].id);
        }
    }
    if db.has_record(payload.session_id, payload.filename) {
        assert forall|i: int| 0 <= i < after.records.len() implies (#[trigger] after.records[i]).id
            <= db.next_record_id() by {
            assert(after.records[i].id == db.records[i].id);
        }
        assert(after.records.last().id == db.records.last().id);
    } else {
        assert(after.records.last().id == db.next_record_id());
    }
}

/// The database after two payloads have been saved, one after the other.
pub open spec fn saved_twice(
    db: DatabaseView,
    first: PayloadView,
    first_now: Seq<char>,
    second: PayloadView,
    second_now: Seq<char>,
) -> DatabaseView {
    db.with_record(first, first_now).with_record(second, second_now)
}

/// The upsert invariant. Where the record table has two identifiers left,
/// saving a second payload for the same image of the same session, at a later
/// time, succeeds and adds no row: the database holds exactly one record for
/// that image and session. That record keeps its place, its identifier and
/// the time of its creation, takes everything else from the second payload,
/// and its time of last writing moves forward. Every other record stays as it
/// was.
pub proof fn saving_twice_keeps_one_record(
    db: DatabaseView,
    first: PayloadView,
    first_now: Seq<char>,
    second: PayloadView,
    second_now: Seq<char>,
)
    requires
        db.wf(),
        db.save_record_failure(first) is None,
        db.next_record_id() < i64::MAX,
        second.session_id == first.session_id,
        second.filename == first.filename,
        text_lt(first_now, second_now),
    ensures
        db.with_record(first, first_now).save_record_failure(second) is None,
        saved_twice(db, first, first_now, second, second_now).wf(),
        saved_twice(db, first, first_now, second, second_now).records.len() == db.with_record(
            first,
            first_now,
        ).records.len(),
        saved_twice(db, first, first_now, second, second_now).has_record(
            first.session_id,
            first.filename,
        ),
        forall|i: int, j: int|
            0 <= i < saved_twice(db, first, first_now, second, second_now).records.len() && 0 <= j
                < saved_twice(db, first, first_now, second, second_now).records.len() && has_key(
                #[trigger] saved_twice(db, first, first_now, second, second_now).records[i],
                first.session_id,
                first.filename,
            ) && has_key(
                #[trigger] saved_twice(db, first, first_now, second, second_now).records[j],
                first.session_id,
                first.filename,
            ) ==> i == j,
        forall|i: int|
            0 <= i < db.with_record(first, first_now).records.len() && has_key(
                #[trigger] db.with_record(first, first_now).records[i],
                first.session_id,
                first.filename,
            ) ==> {
                let before = db.with_record(first, first_now).records[i];
                let after = saved_twice(db, first, first_now, second, second_now).records[i];
                &&& after == overwritten(before, second, second_now)
                &&& after.id == before.id
                &&& after.created_at == before.created_at
                &&& before.updated_at == first_now
                &&& after.updated_at == second_now
                &&& text_lt(before.updated_at, after.updated_at)
            },
        forall|i: int|
            0 <= i < db.with_record(first, first_now).records.len() && !has_key(
                #[trigger] db.with_record(first, first_now).records[i],
                first.session_id,
                first.filename,
            ) ==> saved_twice(db, first, first_now, second, second_now).records[i]
                == db.with_record(first, first_now).records[i],
{
    let once = db.with_record(first, first_now);
    lemma_with_record(db, first, first_now);
    lemma_next_record_id(db, first, first_now);
    lemma_with_record(once, second, second_now);
    let twice = once.with_record(second, second_now);
    assert(twice == saved_twice(db, first, first_now, second, second_now));
    assert forall|i: int, j: int|
        0 <= i < twice.records.len() && 0 <= j < twice.records.len() && has_key(
            #[trigger] twice.records[i],
            first.session_id,
            first.filename,
        ) && has_key(#[trigger] twice.records[j], first.session_id, first.filename) implies i
        == j by {
        if i < j {
            assert(!has_key(
                twice.records[i],
                twice.records[j].session_id,
                twice.records[j].filename,
            ));
        } else if j < i {
            assert(!has_key(
                twice.records[j],
                twice.records[i].session_id,
                twice.records[i].filename,
            ));
        }
    }
    assert forall|i: int|
        0 <= i < once.records.len() && has_key(
            #[trigger] once.records[i],
            first.session_id,
            first.filename,
        ) implies once.records[i].updated_at == first_now by {
        if db.has_record(first.session_id, first.filename) {
            assert(once.records[i] == if has_key(
                db.records[i],
                first.session_id,
                first.filename,
            ) {
                overwritten(db.records[i], first, first_now)
            } else {
                db.records[i]
            });
        } else {
            if i < db.records.len() {
                assert(has_key(db.records[i], first.session_id, first.filename));
            }
        }
    }
}

/// What saving a setting makes of a valid database with its tables: a valid
/// database with the same sessions and records, in which exactly one setting
/// has the key, and that one has the value.
pub proof fn last_setting_wins(db: DatabaseView, key: Seq<char>, value: Seq<char>, now: Seq<char>)
    requires
        db.wf(),
        db.initialized,
    ensures
        db.with_setting(key, value, now).wf(),
        db.with_setting(key, value, now).sessions == db.sessions,
        db.with_setting(key, value, now).records == db.records,
        db.has_setting(key) ==> db.with_setting(key, value, now).settings.len()
            == db.settings.len(),
        !db.has_setting(key) ==> db.with_setting(key, value, now).settings.len()
            == db.settings.len() + 1,
        db.with_setting(key, value, now).has_setting(key),
        forall|i: int|
            0 <= i < db.with_setting(key, value, now).settings.len() && (
            #[trigger] db.with_setting(key, value, now).settings[i]).key == key
                ==> db.with_setting(key, value, now).settings[i] == (SettingView {
                key,
                value,
                updated_at: now,
            }),
        forall|i: int, j: int|
            0 <= i < db.with_setting(key, value, now).settings.len() && 0 <= j < db.with_setting(
                key,
                value,
                now,
            ).settings.len() && (#[trigger] db.with_setting(key, value, now).settings[i]).key
                == key && (#[trigger] db.with_setting(key, value, now).settings[j]).key == key
                ==> i == j,
        forall|j: int|
            0 <= j < db.settings.len() && (#[trigger] db.settings[j]).key != key
                ==> db.with_setting(key, value, now).settings[j] == db.settings[j],
{
    let after = db.with_setting(key, value, now);
    let n = db.settings.len() as int;
    assert forall|k: int| 0 <= k < after.records.len() implies after.has_session(
        (#[trigger] after.records[k]).session_id,
    ) by {
        assert(db.has_session(db.records[k].session_id));
    }
    if db.has_setting(key) {
        let w = choose|w: int| 0 <= w < db.settings.len() && (#[trigger] db.settings[w]).key == key;
        assert forall|i: int, j: int| 0 <= i < j < after.settings.len() implies (
        #[trigger] after.settings[i]).key != (#[trigger] after.settings[j]).key by {
            assert(db.settings[i].key != db.settings[j].key);
        }
        assert(after.settings[w].key == key);
    } else {
        assert(after.settings[n].key == key);
        assert forall|i: int, j: int| 0 <= i < j < after.settings.len() implies (
        #[trigger] after.settings[i]).key != (#[trigger] after.settings[j]).key by {
            if j == n {
                assert(db.settings[i].key != key);
            }
        }
    }
    assert forall|i: int, j: int|
        0 <= i < after.settings.len() && 0 <= j < after.settings.len() && (
        #[trigger] after.settings[i]).key == key && (#[trigger] after.settings[j]).key
            == key implies i == j by {
        if i < j {
            assert(after.settings[i].key != after.settings[j].key);
        } else if j < i {
            assert(after.settings[j].key != after.settings[i].key);
        }
    }
}

/// The mean time of a summary is absent exactly when the user has no
/// active measurement. Otherwise it is the exact mean of the active
/// measurements: their sum, and how many they are.
pub proof fn mean_is_exact(records: Seq<RecordView>, qc_name: Seq<char>)
    ensures
        summary_of(records, qc_name).average_time is None <==> active_of(records, qc_name).len()
            == 0,
        summary_of(records, qc_name).average_time is None <==> summary_of(
            records,
            qc_name,
        ).total_images == 0,
        summary_of(records, qc_name).average_time matches Some(mean) ==> mean.total_millis
            == total_time(active_of(records, qc_name)) && mean.count == active_of(
            records,
            qc_name,
        ).len() && mean.count > 0,
        summary_of(records, qc_name).total_right + summary_of(records, qc_name).total_wrong
            <= summary_of(records, qc_name).total_images,
{
    let active = active_of(records, qc_name);
    lemma_right_and_wrong_are_apart(active);
}

/// No record is decided both "Right" and "Wrong", so the two counts together
/// do not exceed the number of records.
pub proof fn lemma_right_and_wrong_are_apart(records: Seq<RecordView>)
    ensures
        crate::model::decided(records, "Right"@).len() + crate::model::decided(
            records,
            "Wrong"@,
        ).len() <= records.len(),
    decreases records.len(),
{
    reveal(Seq::filter);
    if records.len() > 0 {
        lemma_right_and_wrong_are_apart(records.drop_last());
        if records.last().qc_decision == Some("Right"@) && records.last().qc_decision == Some(
            "Wrong"@,
        ) {
            reveal_strlit("Right");
            reveal_strlit("Wrong");
            assert("Right"@[0] != "Wrong"@[0]);
        }
    }
}

/// What counts towards the analytics of a user: exactly the records that
/// carry the user's name and a time spent of at most the limit. Every
/// such record is among the active measurements, and nothing else is.
pub proof fn only_active_measurements_count(
    records: Seq<RecordView>,
    qc_name: Seq<char>,
    record: RecordView,
)
    ensures
        active_of(records, qc_name).contains(record) <==> records.contains(record)
            && record.qc_name == Some(qc_name) && record.time_spent_millis is Some
            && record.time_spent_millis->0 <= crate::model::ACTIVE_LIMIT_MILLIS,
{
    let counts = |r: RecordView| crate::model::counts_for(r, qc_name);
    if active_of(records, qc_name).contains(record) {
        records.lemma_filter_contains_rev(counts, record);
    }
    if records.contains(record) && counts(record) {
        let w = choose|w: int| 0 <= w < records.len() && records[w] == record;
        records.lemma_filter_contains(counts, w);
    }
}

/// The records for the charts are the active measurements of the user,
/// each once, and run by review date, a missing date first.
pub proof fn analytics_records_are_by_date(records: Seq<RecordView>, qc_name: Seq<char>)
    ensures
        analytics_records_of(records, qc_name).len() == active_of(records, qc_name).len(),
        forall|i: int, j: int|
            0 <= i < j < analytics_records_of(records, qc_name).len() ==> optional_text_le(
                (#[trigger] analytics_records_of(records, qc_name)[i]).qc_date,
                (#[trigger] analytics_records_of(records, qc_name)[j]).qc_date,
            ),
        forall|i: int|
            0 <= i < analytics_records_of(records, qc_name).len() ==> crate::model::spec_is_active(
                (#[trigger] analytics_records_of(records, qc_name)[i]).time_spent_millis,
            ),
{
    let active = active_of(records, qc_name);
    let sorted = sort_by(active, by_qc_date());
    let rows = analytics_records_of(records, qc_name);
    lemma_by_qc_date_orders();
    lemma_sort_by_permutes(active, by_qc_date());
    lemma_sort_by_ordered(active, by_qc_date());
    assert forall|i: int, j: int| 0 <= i < j < rows.len() implies optional_text_le(
        (#[trigger] rows[i]).qc_date,
        (#[trigger] rows[j]).qc_date,
    ) by {
        assert(by_qc_date()(sorted[i], sorted[j]));
    }
    assert forall|i: int| 0 <= i < rows.len() implies crate::model::spec_is_active(
        (#[trigger] rows[i]).time_spent_millis,
    ) by {
        lemma_sort_by_same_rows(active, by_qc_date(), sorted[i]);
        assert(sorted.contains(sorted[i]));
        only_active_measurements_count(records, qc_name, sorted[i]);
    }
}

} // verus!
