//! Analytics over the active measurements of one user: the aggregate
//! summary, and the records that the charts are drawn from.

use vstd::prelude::*;
use vstd::string::*;
use crate::error::{spec_no_such_table, ErrorKind, ErrorView, Operation, StoreError};
use crate::laws::{analytics_records_are_by_date, mean_is_exact};
use crate::model::{
    active_of, analytics_of, by_qc_date, counts_for, decided,
    spec_is_active, total_time, AnalyticsRecordView, MeanView, RecordView, SummaryView,
    ACTIVE_LIMIT_MILLIS,
};
use crate::order::{lemma_insert_position_unique, sort_by};
use crate::record::{optional_millis, QcRecord};
use crate::store::{record_views, Database};
use crate::text::{
    copy_optional_text, copy_text, optional_text, optional_text_before_or_equal,
    optional_text_le,
};

verus! {

/// An arithmetic mean of times, kept exact: the sum of the measurements in
/// milliseconds and how many there are. The mean is the one divided by the
/// other.
#[derive(Debug, PartialEq, Eq)]
pub struct MeanTime {
    pub total_millis: i128,
    pub count: u64,
}

/// The aggregate analytics of one user.
#[derive(Debug, PartialEq, Eq)]
pub struct AnalyticsSummary {
    pub total_images: u64,
    pub total_right: u64,
    pub total_wrong: u64,
    pub average_time: Option<MeanTime>,
}

/// What the charts need of one record. The time spent is in whole
/// milliseconds.
#[derive(Debug, PartialEq, Eq)]
pub struct AnalyticsRecord {
    pub qc_date: Option<String>,
    pub filename: String,
    pub qc_decision: Option<String>,
    pub next_action: Option<String>,
    pub time_spent_millis: Option<i64>,
    pub qc_observations: Option<String>,
}

impl View for AnalyticsRecord {
    type V = AnalyticsRecordView;

    open spec fn view(&self) -> AnalyticsRecordView {
        AnalyticsRecordView {
            qc_date: optional_text(self.qc_date),
            filename: self.filename@,
            qc_decision: optional_text(self.qc_decision),
            next_action: optional_text(self.next_action),
            time_spent_millis: optional_millis(self.time_spent_millis),
            qc_observations: optional_text(self.qc_observations),
        }
    }
}

/// The records of a chart as the model sees them.
pub open spec fn analytics_views(rows: Seq<AnalyticsRecord>) -> Seq<AnalyticsRecordView> {
    rows.map_values(|r: AnalyticsRecord| r@)
}

/// What the charts need of a stored record.
pub fn analytics_record(record: &QcRecord) -> (row: AnalyticsRecord)
    ensures
        row@ == analytics_of(record@),
{
    AnalyticsRecord {
        qc_date: copy_optional_text(&record.qc_date),
        filename: copy_text(&record.filename),
        qc_decision: copy_optional_text(&record.qc_decision),
        next_action: copy_optional_text(&record.next_action),
        time_spent_millis: record.time_spent_millis,
        qc_observations: copy_optional_text(&record.qc_observations),
    }
}

impl View for MeanTime {
    type V = MeanView;

    open spec fn view(&self) -> MeanView {
        MeanView { total_millis: self.total_millis as int, count: self.count as nat }
    }
}

/// A mean that may be absent, as the model sees it.
pub open spec fn optional_mean(o: Option<MeanTime>) -> Option<MeanView> {
    match o {
        Some(m) => Some(m@),
        None => None,
    }
}

impl View for AnalyticsSummary {
    type V = SummaryView;

    open spec fn view(&self) -> SummaryView {
        SummaryView {
            total_images: self.total_images as nat,
            total_right: self.total_right as nat,
            total_wrong: self.total_wrong as nat,
            average_time: optional_mean(self.average_time),
        }
    }
}

/// Whether a time spent counts as an active measurement: it is present and
/// at most the limit.
pub fn is_active(time_spent_millis: Option<i64>) -> (active: bool)
    ensures
        active == spec_is_active(optional_millis(time_spent_millis)),
{
    match time_spent_millis {
        Some(t) => t <= ACTIVE_LIMIT_MILLIS,
        None => false,
    }
}

/// Whether a column holds exactly the given text.
pub fn holds_text(column: &Option<String>, text: &String) -> (holds: bool)
    ensures
        holds == (optional_text(*column) == Some(text@)),
{
    match column {
        Some(s) => *s == *text,
        None => false,
    }
}

/// What one more record adds to the active measurements of a user.
proof fn lemma_active_step(records: Seq<RecordView>, qc_name: Seq<char>, i: int)
    requires
        0 <= i < records.len(),
    ensures
        active_of(records.take(i + 1), qc_name) == if counts_for(records[i], qc_name) {
            active_of(records.take(i), qc_name).push(records[i])
        } else {
            active_of(records.take(i), qc_name)
        },
{
    reveal(Seq::filter);
    assert(records.take(i + 1).drop_last() =~= records.take(i));
}

/// What one more record adds to those that carry a decision, and to the sum
/// of the times.
proof fn lemma_push_step(records: Seq<RecordView>, decision: Seq<char>, r: RecordView)
    ensures
        decided(records.push(r), decision) == if r.qc_decision == Some(decision) {
            decided(records, decision).push(r)
        } else {
            decided(records, decision)
        },
        total_time(records.push(r)) == total_time(records) + match r.time_spent_millis {
            Some(t) => t,
            None => 0,
        },
{
    reveal(Seq::filter);
    assert(records.push(r).drop_last() =~= records);
}

/// The aggregate analytics of one user over the active measurements.
pub fn get_analytics_data(db: &Database, qc_name: String) -> (result: Result<
    AnalyticsSummary,
    StoreError,
>)
    ensures
        result is Ok <==> db@.initialized,
        result matches Ok(summary) ==> summary@ == db@.summary(qc_name@),
        result matches Ok(summary) ==> (summary.average_time is None <==> summary.total_images
            == 0),
        result matches Ok(summary) ==> summary.total_right + summary.total_wrong
            <= summary.total_images,
        result matches Err(error) ==> error@ == (ErrorView {
            kind: ErrorKind::QueryPrepareError,
            operation: Operation::GetAnalyticsData,
            cause: spec_no_such_table("qc_records"@),
        }),
{
    if !db.initialized {
        return Err(
            StoreError::no_such_table(
                ErrorKind::QueryPrepareError,
                Operation::GetAnalyticsData,
                "qc_records",
            ),
        );
    }
    let right = String::from_str("Right");
    let wrong = String::from_str("Wrong");
    let ghost rows = record_views(db.records@);
    let mut total_images: u64 = 0;
    let mut total_right: u64 = 0;
    let mut total_wrong: u64 = 0;
    let mut total_millis: i128 = 0;
    let mut i: usize = 0;
    proof {
        assert(rows.take(0) =~= Seq::empty());
    }
    while i < db.records.len()
        invariant
            i <= db.records.len(),
            rows == record_views(db.records@),
            right@ == "Right"@,
            wrong@ == "Wrong"@,
            total_images == active_of(rows.take(i as int), qc_name@).len(),
            total_right == decided(active_of(rows.take(i as int), qc_name@), "Right"@).len(),
            total_wrong == decided(active_of(rows.take(i as int), qc_name@), "Wrong"@).len(),
            total_millis == total_time(active_of(rows.take(i as int), qc_name@)),
            total_images <= i,
            total_right <= total_images,
            total_wrong <= total_images,
            -(i as int) * 0x8000_0000_0000_0000 <= total_millis <= (i as int)
                * ACTIVE_LIMIT_MILLIS,
        decreases db.records.len() - i,
    {
        let record = &db.records[i];
        proof {
            lemma_active_step(rows, qc_name@, i as int);
            let active = active_of(rows.take(i as int), qc_name@);
            lemma_push_step(active, "Right"@, rows[i as int]);
            lemma_push_step(active, "Wrong"@, rows[i as int]);
            assert(rows[i as int] == record@);
        }
        if holds_text(&record.qc_name, &qc_name) && is_active(record.time_spent_millis) {
            total_images = total_images + 1;
            if holds_text(&record.qc_decision, &right) {
                total_right = total_right + 1;
            }
            if holds_text(&record.qc_decision, &wrong) {
                total_wrong = total_wrong + 1;
            }
            match record.time_spent_millis {
                Some(t) => {
                    total_millis = total_millis + (t as i128);
                },
                None => {},
            }
        }
        i = i + 1;
    }
    proof {
        assert(rows.take(i as int) =~= rows);
    }
    proof {
        mean_is_exact(rows, qc_name@);
    }
    let average_time = if total_images == 0 {
        None
    } else {
        Some(MeanTime { total_millis, count: total_images })
    };
    Ok(AnalyticsSummary { total_images, total_right, total_wrong, average_time })
}

/// The active measurements of one user for the charts, by review date,
/// a missing date first. Records of the same date stay in the order in which
/// they were first saved.
pub fn get_analytics_records(db: &Database, qc_name: String) -> (result: Result<
    Vec<AnalyticsRecord>,
    StoreError,
>)
    ensures
        result is Ok <==> db@.initialized,
        result matches Ok(records) ==> analytics_views(records@) == db@.analytics_records(
            qc_name@,
        ),
        result matches Ok(records) ==> forall|i: int, j: int|
            0 <= i < j < records@.len() ==> optional_text_le(
                optional_text((#[trigger] records@[i]).qc_date),
                optional_text((#[trigger] records@[j]).qc_date),
            ),
        result matches Ok(records) ==> forall|i: int|
            0 <= i < records@.len() ==> spec_is_active(
                optional_millis((#[trigger] records@[i]).time_spent_millis),
            ),
        result matches Err(error) ==> error@ == (ErrorView {
            kind: ErrorKind::QueryPrepareError,
            operation: Operation::GetAnalyticsRecords,
            cause: spec_no_such_table("qc_records"@),
        }),
{
    if !db.initialized {
        return Err(
            StoreError::no_such_table(
                ErrorKind::QueryPrepareError,
                Operation::GetAnalyticsRecords,
                "qc_records",
            ),
        );
    }
    let ghost rows = record_views(db.records@);
    let ghost mut sorted: Seq<RecordView> = Seq::empty();
    let mut records: Vec<AnalyticsRecord> = Vec::new();
    let mut i: usize = 0;
    proof {
        reveal(Seq::filter);
        assert(rows.take(0) =~= Seq::empty());
        assert(analytics_views(records@) =~= sorted.map_values(|r: RecordView| analytics_of(r)));
    }
    while i < db.records.len()
        invariant
            i <= db.records.len(),
            rows == record_views(db.records@),
            sorted == sort_by(active_of(rows.take(i as int), qc_name@), by_qc_date()),
            analytics_views(records@) == sorted.map_values(|r: RecordView| analytics_of(r)),
        decreases db.records.len() - i,
    {
        let record = &db.records[i];
        proof {
            lemma_active_step(rows, qc_name@, i as int);
            assert(rows[i as int] == record@);
        }
        if holds_text(&record.qc_name, &qc_name) && is_active(record.time_spent_millis) {
            let row = analytics_record(record);
            let mut j: usize = records.len();
            proof {
                assert(analytics_views(records@).len() == records@.len());
                assert(sorted.map_values(|r: RecordView| analytics_of(r)).len() == sorted.len());
            }
            while j > 0 && !optional_text_before_or_equal(&records[j - 1].qc_date, &row.qc_date)
                invariant
                    j <= records.len(),
                    0 <= i < rows.len(),
                    records@.len() == sorted.len(),
                    row@ == analytics_of(rows[i as int]),
                    analytics_views(records@) == sorted.map_values(
                        |r: RecordView| analytics_of(r),
                    ),
                    forall|k: int|
                        j <= k < sorted.len() ==> !#[trigger] by_qc_date()(
                            sorted[k],
                            rows[i as int],
                        ),
                decreases j,
            {
                proof {
                    let k = j as int - 1;
                    assert(analytics_views(records@)[k] == analytics_of(sorted[k]));
                }
                j = j - 1;
            }
            proof {
                if j > 0 {
                    let k = j as int - 1;
                    assert(analytics_views(records@)[k] == analytics_of(sorted[k]));
                }
                lemma_insert_position_unique(sorted, rows[i as int], by_qc_date(), j as int);
                let active = active_of(rows.take(i as int), qc_name@);
                assert(active.push(rows[i as int]).drop_last() =~= active);
            }
            let ghost before = sorted;
            let ghost stored = records@;
            records.insert(j, row);
            proof {
                sorted = before.insert(j as int, rows[i as int]);
                let wanted = sorted.map_values(|r: RecordView| analytics_of(r));
                assert forall|k: int| 0 <= k < records@.len() implies analytics_views(
                    records@,
                )[k] == wanted[k] by {
                    if k < j {
                        assert(analytics_views(stored)[k] == analytics_of(before[k]));
                    } else if k > j {
                        assert(analytics_views(stored)[k - 1] == analytics_of(before[k - 1]));
                    }
                }
                assert(analytics_views(records@) =~= wanted);
            }
        }
        i = i + 1;
    }
    proof {
        assert(rows.take(i as int) =~= rows);
        analytics_records_are_by_date(rows, qc_name@);
        assert forall|a: int, b: int| 0 <= a < b < records@.len() implies optional_text_le(
            optional_text((#[trigger] records@[a]).qc_date),
            optional_text((#[trigger] records@[b]).qc_date),
        ) by {
            assert(analytics_views(records@)[a] == records@[a]@);
            assert(analytics_views(records@)[b] == records@[b]@);
        }
        assert forall|a: int| 0 <= a < records@.len() implies spec_is_active(
            optional_millis((#[trigger] records@[a]).time_spent_millis),
        ) by {
            assert(analytics_views(records@)[a] == records@[a]@);
        }
    }
    Ok(records)
}

} // verus!
