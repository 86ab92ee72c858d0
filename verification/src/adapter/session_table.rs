//! The content fingerprint of a table of sessions.
//!
//! A database is fingerprinted if it can be opened for reading and has a table
//! of sessions. Its rows are written to a hasher one after the other. The
//! fingerprint changes with what is written, except where two different writes
//! happen to have the same 64-bit hash.
use std::collections::hash_map::DefaultHasher;
use std::hash::Hasher;
use std::marker::PhantomData;
use vstd::prelude::*;

use crate::adapter::sqlite_util::{DbAction, DbEvent, DbStep};
use crate::fingerprint;

verus! {

/// Finds out whether a database has a table of sessions.
pub const SESSION_TABLE_QUERY: &'static str =
    "SELECT 1 FROM sqlite_master WHERE type='table' AND name='sessions'";

/// The columns of a row as they were read.
pub trait SessionReads: Sized {
    /// What of a row is fingerprinted.
    type Row;

    /// The row that was read, if it has the columns that every row must have.
    spec fn row(self) -> Option<Self::Row>;

    /// What is written to the hasher of a row.
    spec fn row_writes(row: Self::Row) -> Seq<Seq<u8>>;

    /// Whether the number of rows is written behind the rows.
    spec fn rows_are_counted() -> bool;

    /// Writes the row to the hasher if it has the columns that every row must
    /// have.
    fn write_row(&self, hasher: &mut DefaultHasher) -> (written: bool)
        ensures
            written == self.row() is Some,
            final(hasher)@ == match self.row() {
                Some(row) => old(hasher)@ + Self::row_writes(row),
                None => old(hasher)@,
            },
    ;

    /// Whether the number of rows is written behind the rows.
    fn counts_rows() -> (counts: bool)
        ensures
            counts == Self::rows_are_counted(),
    ;
}

/// What is written to the hasher of rows, before their number.
pub open spec fn rows_writes<R: SessionReads>(rows: Seq<R::Row>) -> Seq<Seq<u8>> {
    seq![seq![fingerprint::SESSION_TABLE]] + fingerprint::rows_writes(
        |row: R::Row| R::row_writes(row),
        rows,
    )
}

/// What is written to the hasher behind the rows.
pub open spec fn count_writes<R: SessionReads>(count: nat) -> Seq<Seq<u8>> {
    if R::rows_are_counted() {
        fingerprint::bits_writes(count as u64)
    } else {
        Seq::empty()
    }
}

/// All that is written to the hasher of a table with these rows.
pub open spec fn table_writes<R: SessionReads>(rows: Seq<R::Row>) -> Seq<Seq<u8>> {
    rows_writes::<R>(rows) + count_writes::<R>(rows.len())
}

/// The fingerprint of a table with these rows.
pub open spec fn table_fingerprint<R: SessionReads>(rows: Seq<R::Row>) -> u64 {
    fingerprint::finished(table_writes::<R>(rows))
}

/// Where the fingerprinting of a table stands.
#[derive(Clone, Copy, Debug, PartialEq, Eq, Structural)]
pub enum FingerprintStage {
    Opening,
    PreparingProbe,
    Probing,
    Preparing,
    Stepping,
    Stopped,
}

/// The fingerprinting of a table of sessions.
pub struct TableFingerprint<R> {
    stage: FingerprintStage,
    hasher: DefaultHasher,
    count: u64,
    result: Option<u64>,
    reads: PhantomData<R>,
}

/// The state of a fingerprinting: its stage, what was written to the hasher,
/// the number of rows among that where rows are counted, and the fingerprint once there is one.
pub struct TableFingerprintView {
    pub stage: FingerprintStage,
    pub written: Seq<Seq<u8>>,
    pub count: nat,
    pub result: Option<u64>,
}

/// The stage that follows on an event before the first row is asked for: the
/// database must open, it must have the table, and the statement that reads the
/// rows must be prepared.
pub open spec fn stage_before_rows<R>(
    stage: FingerprintStage,
    event: DbEvent<R>,
) -> FingerprintStage {
    match (stage, event) {
        (FingerprintStage::Opening, DbEvent::Opened(true)) => FingerprintStage::PreparingProbe,
        (FingerprintStage::PreparingProbe, DbEvent::Prepared(true)) => FingerprintStage::Probing,
        (FingerprintStage::Probing, DbEvent::Probed(DbStep::Row(()))) =>
            FingerprintStage::Preparing,
        (FingerprintStage::Preparing, DbEvent::Prepared(true)) => FingerprintStage::Stepping,
        _ => FingerprintStage::Stopped,
    }
}

/// What to do in a stage, where `query` reads the rows.
pub open spec fn stage_action(stage: FingerprintStage, query: &'static str) -> DbAction {
    match stage {
        FingerprintStage::Opening => DbAction::Open,
        FingerprintStage::PreparingProbe => DbAction::Prepare(SESSION_TABLE_QUERY),
        FingerprintStage::Probing => DbAction::Probe,
        FingerprintStage::Preparing => DbAction::Prepare(query),
        FingerprintStage::Stepping => DbAction::Step,
        FingerprintStage::Stopped => DbAction::Stop,
    }
}

impl TableFingerprintView {
    /// The state before anything was asked.
    pub open spec fn start() -> Self {
        TableFingerprintView {
            stage: FingerprintStage::Opening,
            written: seq![seq![fingerprint::SESSION_TABLE]],
            count: 0,
            result: None,
        }
    }

    /// The state that follows on an event. A row that lacks a column ends the
    /// fingerprinting without a result; the end of the rows, or a step that
    /// fails, ends it with one.
    pub open spec fn after<R: SessionReads>(self, event: DbEvent<R>) -> Self {
        if self.stage != FingerprintStage::Stepping {
            TableFingerprintView { stage: stage_before_rows(self.stage, event), ..self }
        } else {
            match event {
                DbEvent::Stepped(DbStep::Row(reads)) => match reads.row() {
                    Some(row) => TableFingerprintView {
                        written: self.written + R::row_writes(row),
                        count: if R::rows_are_counted() {
                            self.count + 1
                        } else {
                            self.count
                        },
                        ..self
                    },
                    None => TableFingerprintView { stage: FingerprintStage::Stopped, ..self },
                },
                _ => {
                    let written = self.written + count_writes::<R>(self.count);
                    TableFingerprintView {
                        stage: FingerprintStage::Stopped,
                        written,
                        result: Some(fingerprint::finished(written)),
                        ..self
                    }
                },
            }
        }
    }

    /// The state that follows on events one after the other.
    pub open spec fn after_all<R: SessionReads>(self, events: Seq<DbEvent<R>>) -> Self
        decreases events.len(),
    {
        if events.len() == 0 {
            self
        } else {
            self.after_all(events.drop_last()).after(events.last())
        }
    }
}

impl<R> View for TableFingerprint<R> {
    type V = TableFingerprintView;

    closed spec fn view(&self) -> TableFingerprintView {
        TableFingerprintView {
            stage: self.stage,
            written: self.hasher@,
            count: self.count as nat,
            result: self.result,
        }
    }
}

/// The events of a database that opens, has the table, and whose rows can be
/// asked for.
pub open spec fn table_found<R>() -> Seq<DbEvent<R>> {
    seq![
        DbEvent::Opened(true),
        DbEvent::Prepared(true),
        DbEvent::Probed(DbStep::Row(())),
        DbEvent::Prepared(true),
    ]
}

/// The events of steps that meet these rows.
pub open spec fn rows_met<R>(reads: Seq<R>) -> Seq<DbEvent<R>> {
    reads.map_values(|row: R| DbEvent::Stepped(DbStep::Row(row)))
}

/// Whether each of these rows has the columns that every row must have.
pub open spec fn complete<R: SessionReads>(reads: Seq<R>) -> bool {
    forall|i: int| 0 <= i < reads.len() ==> (#[trigger] reads[i]).row() is Some
}

/// The rows that were read.
pub open spec fn rows_of<R: SessionReads>(reads: Seq<R>) -> Seq<R::Row> {
    reads.map_values(|row: R| row.row()->0)
}

proof fn lemma_after_all_add<R: SessionReads>(
    state: TableFingerprintView,
    first: Seq<DbEvent<R>>,
    second: Seq<DbEvent<R>>,
)
    ensures
        state.after_all(first + second) == state.after_all(first).after_all(second),
    decreases second.len(),
{
    if second.len() == 0 {
        assert(first + second =~= first);
    } else {
        lemma_after_all_add(state, first, second.drop_last());
        assert((first + second).drop_last() =~= first + second.drop_last());
    }
}

proof fn lemma_after_all_one<R: SessionReads>(state: TableFingerprintView, event: DbEvent<R>)
    ensures
        state.after_all(seq![event]) == state.after(event),
{
    assert(seq![event].drop_last() =~= Seq::empty());
    reveal_with_fuel(TableFingerprintView::after_all, 2);
}

/// A fingerprinting that has stopped stays as it is.
pub proof fn law_stopped_fingerprint_stays<R: SessionReads>(
    state: TableFingerprintView,
    events: Seq<DbEvent<R>>,
)
    requires
        state.stage == FingerprintStage::Stopped,
    ensures
        state.after_all(events) == state,
    decreases events.len(),
{
    if events.len() > 0 {
        law_stopped_fingerprint_stays(state, events.drop_last());
    }
}

/// After rows that are complete, the hasher holds what is written of them.
proof fn lemma_rows_are_written<R: SessionReads>(reads: Seq<R>)
    requires
        complete(reads),
    ensures
        TableFingerprintView::start().after_all(table_found::<R>() + rows_met(reads)) == (
        TableFingerprintView {
            stage: FingerprintStage::Stepping,
            written: rows_writes::<R>(rows_of(reads)),
            count: if R::rows_are_counted() {
                reads.len()
            } else {
                0
            },
            result: None,
        }),
    decreases reads.len(),
{
    let events = table_found::<R>() + rows_met(reads);
    if reads.len() == 0 {
        assert(events =~= table_found::<R>());
        let probed = events.drop_last();
        let preparing = probed.drop_last();
        let opened = preparing.drop_last();
        assert(probed.last() == events[2]);
        assert(preparing.last() == events[1]);
        assert(opened.last() == events[0]);
        assert(opened.drop_last() =~= Seq::empty());
        reveal_with_fuel(TableFingerprintView::after_all, 5);
        assert(rows_writes::<R>(rows_of(reads)) =~= TableFingerprintView::start().written);
    } else {
        let earlier = reads.drop_last();
        lemma_rows_are_written(earlier);
        assert(events.drop_last() =~= table_found::<R>() + rows_met(earlier));
        assert(events.last() == DbEvent::Stepped(DbStep::Row(reads.last())));
        assert(rows_of(reads).drop_last() =~= rows_of(earlier));
        assert(reads[reads.len() - 1].row() is Some);
        assert(rows_writes::<R>(rows_of(reads)) =~= rows_writes::<R>(rows_of(earlier))
            + R::row_writes(reads.last().row()->0));
    }
}

/// A table whose rows are complete has a fingerprint, which depends on its rows
/// alone: not on whether the last step ended or failed, and not on what is told
/// later.
pub proof fn law_fingerprint_is_that_of_the_rows<R: SessionReads>(
    reads: Seq<R>,
    end: DbEvent<R>,
    later: Seq<DbEvent<R>>,
)
    requires
        complete(reads),
        !(end matches DbEvent::Stepped(DbStep::Row(_))),
    ensures
        TableFingerprintView::start().after_all(
            table_found::<R>() + rows_met(reads) + seq![end] + later,
        ).result == Some(table_fingerprint::<R>(rows_of(reads))),
        TableFingerprintView::start().after_all(
            table_found::<R>() + rows_met(reads) + seq![end] + later,
        ).written == table_writes::<R>(rows_of(reads)),
{
    let start = TableFingerprintView::start();
    let met = table_found::<R>() + rows_met(reads);
    lemma_rows_are_written(reads);
    lemma_after_all_add(start, met, seq![end]);
    lemma_after_all_one(start.after_all(met), end);
    lemma_after_all_add(start, met + seq![end], later);
    law_stopped_fingerprint_stays(start.after_all(met + seq![end]), later);
    assert(start.after_all(met + seq![end]).written =~= table_writes::<R>(rows_of(reads)));
}

/// Whether what was read of two tables is the same, row by row.
pub open spec fn same_rows<R: SessionReads>(a: Seq<R>, b: Seq<R>) -> bool {
    &&& a.len() == b.len()
    &&& forall|i: int| 0 <= i < a.len() ==> (#[trigger] a[i]).row() == b[i].row()
}

proof fn lemma_same_rows_same_state<R: SessionReads>(
    state: TableFingerprintView,
    a: Seq<R>,
    b: Seq<R>,
)
    requires
        same_rows(a, b),
    ensures
        state.after_all(rows_met(a)) == state.after_all(rows_met(b)),
    decreases a.len(),
{
    if a.len() > 0 {
        assert(same_rows(a.drop_last(), b.drop_last())) by {
            assert forall|i: int| 0 <= i < a.drop_last().len() implies (
            #[trigger] a.drop_last()[i]).row() == b.drop_last()[i].row() by {
                assert(a[i].row() == b[i].row());
            }
        }
        lemma_same_rows_same_state(state, a.drop_last(), b.drop_last());
        assert(rows_met(a).drop_last() =~= rows_met(a.drop_last()));
        assert(rows_met(b).drop_last() =~= rows_met(b.drop_last()));
        assert(a[a.len() - 1].row() == b[b.len() - 1].row());
    } else {
        assert(rows_met(a) =~= rows_met(b));
    }
}

/// Two fingerprintings that read the same rows have the same result, whether
/// that is a fingerprint or none, however the rows end and whatever is told
/// later.
pub proof fn law_same_rows_give_the_same_fingerprint<R: SessionReads>(
    reads: Seq<R>,
    end: DbEvent<R>,
    later: Seq<DbEvent<R>>,
    reads_again: Seq<R>,
    end_again: DbEvent<R>,
    later_again: Seq<DbEvent<R>>,
)
    requires
        same_rows(reads, reads_again),
        !(end matches DbEvent::Stepped(DbStep::Row(_))),
        !(end_again matches DbEvent::Stepped(DbStep::Row(_))),
    ensures
        TableFingerprintView::start().after_all(
            table_found::<R>() + rows_met(reads) + seq![end] + later,
        ).result == TableFingerprintView::start().after_all(
            table_found::<R>() + rows_met(reads_again) + seq![end_again] + later_again,
        ).result,
{
    let start = TableFingerprintView::start();
    let found = start.after_all(table_found::<R>());
    lemma_same_rows_same_state(found, reads, reads_again);
    lemma_rows_keep_going_or_stop(reads);
    lemma_end_after_rows(reads, end, later);
    lemma_end_after_rows(reads_again, end_again, later_again);
    let met = found.after_all(rows_met(reads));
    law_stopped_fingerprint_stays(met.after(end), later);
    law_stopped_fingerprint_stays(met.after(end_again), later_again);
}

/// While rows are met, they are asked for further as long as they are complete,
/// and no more behind one that is not. Until they end there is no fingerprint.
proof fn lemma_rows_keep_going_or_stop<R: SessionReads>(reads: Seq<R>)
    ensures
        ({
            let state = TableFingerprintView::start().after_all(table_found::<R>()).after_all(
                rows_met(reads),
            );
            &&& state.stage == FingerprintStage::Stepping || state.stage
                == FingerprintStage::Stopped
            &&& state.stage == FingerprintStage::Stepping <==> complete(reads)
            &&& state.result is None
        }),
    decreases reads.len(),
{
    if reads.len() > 0 {
        let earlier = reads.drop_last();
        lemma_rows_keep_going_or_stop(earlier);
        assert(rows_met(reads).drop_last() =~= rows_met(earlier));
        assert(reads.last() == reads[reads.len() - 1]);
        if complete(reads) {
            assert forall|i: int| 0 <= i < earlier.len() implies (
            #[trigger] earlier[i]).row() is Some by {
                assert(reads[i].row() is Some);
            }
        }
        if complete(earlier) && reads.last().row() is Some {
            assert forall|i: int| 0 <= i < reads.len() implies (
            #[trigger] reads[i]).row() is Some by {
                if i < earlier.len() {
                    assert(earlier[i].row() is Some);
                }
            }
        }
    } else {
        lemma_rows_are_written(reads);
        assert(table_found::<R>() + rows_met(reads) =~= table_found::<R>());
    }
}

proof fn lemma_end_after_rows<R: SessionReads>(
    reads: Seq<R>,
    end: DbEvent<R>,
    later: Seq<DbEvent<R>>,
)
    ensures
        TableFingerprintView::start().after_all(
            table_found::<R>() + rows_met(reads) + seq![end] + later,
        ) == TableFingerprintView::start().after_all(table_found::<R>()).after_all(
            rows_met(reads),
        ).after(end).after_all(later),
{
    let start = TableFingerprintView::start();
    let met = table_found::<R>() + rows_met(reads);
    lemma_after_all_add(start, table_found::<R>(), rows_met(reads));
    lemma_after_all_add(start, met, seq![end]);
    lemma_after_all_one(start.after_all(met), end);
    lemma_after_all_add(start, met + seq![end], later);
}

/// A table with a row that lacks a column has no fingerprint.
pub proof fn law_incomplete_row_gives_no_fingerprint<R: SessionReads>(
    reads: Seq<R>,
    lacking: R,
    later: Seq<DbEvent<R>>,
)
    requires
        complete(reads),
        lacking.row() is None,
    ensures
        TableFingerprintView::start().after_all(
            table_found::<R>() + rows_met(reads) + seq![DbEvent::Stepped(DbStep::Row(lacking))]
                + later,
        ).result is None,
{
    let start = TableFingerprintView::start();
    let met = table_found::<R>() + rows_met(reads);
    let event = DbEvent::Stepped(DbStep::Row(lacking));
    lemma_rows_are_written(reads);
    lemma_after_all_add(start, met, seq![event]);
    lemma_after_all_one(start.after_all(met), event);
    lemma_after_all_add(start, met + seq![event], later);
    law_stopped_fingerprint_stays(start.after_all(met + seq![event]), later);
}

/// A database that does not open, has no table of sessions, or whose rows
/// cannot be asked for, has no fingerprint.
pub proof fn law_database_without_table_gives_no_fingerprint<R: SessionReads>(
    opened: DbEvent<R>,
    probe_prepared: DbEvent<R>,
    probed: DbEvent<R>,
    prepared: DbEvent<R>,
    later: Seq<DbEvent<R>>,
)
    requires
        seq![opened, probe_prepared, probed, prepared] != table_found::<R>(),
    ensures
        TableFingerprintView::start().after_all(
            seq![opened, probe_prepared, probed, prepared] + later,
        ).result is None,
{
    let start = TableFingerprintView::start();
    let events = seq![opened, probe_prepared, probed, prepared];
    let before_last = events.drop_last();
    let before_probed = before_last.drop_last();
    let first = before_probed.drop_last();
    assert(before_last.last() == probed);
    assert(before_probed.last() == probe_prepared);
    assert(first.last() == opened);
    assert(first.drop_last() =~= Seq::empty());
    reveal_with_fuel(TableFingerprintView::after_all, 5);
    let state = start.after(opened).after(probe_prepared).after(probed).after(prepared);
    if state.stage == FingerprintStage::Stepping {
        assert(opened == table_found::<R>()[0]);
        assert(probe_prepared == table_found::<R>()[1]);
        if let DbEvent::Probed(DbStep::Row(nothing)) = probed {
            assert(nothing == ());
        }
        assert(probed == table_found::<R>()[2]);
        assert(prepared == table_found::<R>()[3]);
        assert(events =~= table_found::<R>());
    }
    assert(start.after_all(events) == state);
    lemma_after_all_add(start, events, later);
    law_stopped_fingerprint_stays(state, later);
}

/// Where what is written of a row tells it from any other, what is written of a
/// table tells its rows from any others.
pub proof fn law_table_bytes_give_rows_back<R: SessionReads>(a: Seq<R::Row>, b: Seq<R::Row>)
    requires
        fingerprint::tells_rows_apart(|row: R::Row| R::row_writes(row)),
        table_writes::<R>(a).flatten() == table_writes::<R>(b).flatten(),
    ensures
        a == b,
{
    let row_writes = |row: R::Row| R::row_writes(row);
    let head = seq![seq![fingerprint::SESSION_TABLE]];
    let (x, y) = (fingerprint::rows_writes(row_writes, a), fingerprint::rows_writes(row_writes, b));
    let (m, n) = (count_writes::<R>(a.len()), count_writes::<R>(b.len()));
    head.lemma_flatten_one_element();
    vstd::seq_lib::lemma_flatten_concat(head, x);
    vstd::seq_lib::lemma_flatten_concat(head, y);
    vstd::seq_lib::lemma_flatten_concat(head + x, m);
    vstd::seq_lib::lemma_flatten_concat(head + y, n);
    fingerprint::lemma_bits_apart(a.len() as u64, b.len() as u64);
    fingerprint::lemma_bits_apart(b.len() as u64, a.len() as u64);
    assert(m.flatten().len() == n.flatten().len());
    let all_a = table_writes::<R>(a).flatten();
    let all_b = table_writes::<R>(b).flatten();
    assert(x.flatten() =~= all_a.subrange(1, all_a.len() - m.flatten().len()));
    assert(y.flatten() =~= all_b.subrange(1, all_b.len() - n.flatten().len()));
    fingerprint::lemma_bytes_give_rows_back(row_writes, a, b);
}

/// What is hashed of a table of sessions starts with the byte that stands for
/// such tables, and so differs from all that starts with another byte.
pub proof fn law_hashed_bytes_start_with_the_kind_of_table<R: SessionReads>(rows: Seq<R::Row>)
    ensures
        table_writes::<R>(rows).flatten().len() > 0,
        table_writes::<R>(rows).flatten()[0] == fingerprint::SESSION_TABLE,
{
    let head = seq![seq![fingerprint::SESSION_TABLE]];
    let rest = fingerprint::rows_writes(|row: R::Row| R::row_writes(row), rows);
    head.lemma_flatten_one_element();
    vstd::seq_lib::lemma_flatten_concat(head, rest);
    vstd::seq_lib::lemma_flatten_concat(head + rest, count_writes::<R>(rows.len()));
}

fn next_stage_before_rows<R>(stage: FingerprintStage, event: &DbEvent<R>) -> (next:
    FingerprintStage)
    ensures
        next == stage_before_rows(stage, *event),
{
    match (stage, event) {
        (FingerprintStage::Opening, DbEvent::Opened(true)) => FingerprintStage::PreparingProbe,
        (FingerprintStage::PreparingProbe, DbEvent::Prepared(true)) => FingerprintStage::Probing,
        (FingerprintStage::Probing, DbEvent::Probed(DbStep::Row(()))) =>
            FingerprintStage::Preparing,
        (FingerprintStage::Preparing, DbEvent::Prepared(true)) => FingerprintStage::Stepping,
        _ => FingerprintStage::Stopped,
    }
}

fn next_action(stage: FingerprintStage, query: &'static str) -> (action: DbAction)
    ensures
        action == stage_action(stage, query),
{
    match stage {
        FingerprintStage::Opening => DbAction::Open,
        FingerprintStage::PreparingProbe => DbAction::Prepare(SESSION_TABLE_QUERY),
        FingerprintStage::Probing => DbAction::Probe,
        FingerprintStage::Preparing => DbAction::Prepare(query),
        FingerprintStage::Stepping => DbAction::Step,
        FingerprintStage::Stopped => DbAction::Stop,
    }
}

impl<R: SessionReads> TableFingerprint<R> {
    /// A fingerprinting that is yet to open its database.
    pub fn new() -> (state: Self)
        ensures
            state@ == TableFingerprintView::start(),
    {
        TableFingerprint {
            stage: FingerprintStage::Opening,
            hasher: fingerprint::session_table_hasher(),
            count: 0,
            result: None,
            reads: PhantomData,
        }
    }

    /// The number of rows so far, where rows are counted.
    pub fn count(&self) -> (count: u64)
        ensures
            count == self@.count,
    {
        self.count
    }

    /// The fingerprint, once there is one.
    pub fn result(&self) -> (result: Option<u64>)
        ensures
            result == self@.result,
    {
        self.result
    }

    /// Takes an event, and says what to do next, where `query` reads the rows.
    pub fn take(&mut self, event: DbEvent<R>, query: &'static str) -> (action: DbAction)
        requires
            R::rows_are_counted() ==> (event matches DbEvent::Stepped(DbStep::Row(_)) ==> old(
                self,
            )@.count < u64::MAX),
        ensures
            final(self)@ == old(self)@.after(event),
            action == stage_action(final(self)@.stage, query),
    {
        match self.stage {
            FingerprintStage::Stepping => match &event {
                DbEvent::Stepped(DbStep::Row(reads)) => {
                    if reads.write_row(&mut self.hasher) {
                        if R::counts_rows() {
                            self.count = self.count + 1;
                        }
                    } else {
                        self.stage = FingerprintStage::Stopped;
                    }
                },
                _ => {
                    if R::counts_rows() {
                        fingerprint::write_bits(&mut self.hasher, self.count);
                    }
                    assert(self.hasher@ =~= old(self)@.written + count_writes::<R>(
                        old(self)@.count,
                    ));
                    self.stage = FingerprintStage::Stopped;
                    self.result = Some(self.hasher.finish());
                },
            },
            _ => {
                self.stage = next_stage_before_rows(self.stage, &event);
            },
        }
        next_action(self.stage, query)
    }
}

/// A table has a fingerprint if and only if each of its rows is complete, and it
/// is the hash of all that was written, in one piece.
pub proof fn law_complete_tables_have_a_fingerprint<R: SessionReads>(
    reads: Seq<R>,
    end: DbEvent<R>,
    later: Seq<DbEvent<R>>,
)
    requires
        !(end matches DbEvent::Stepped(DbStep::Row(_))),
    ensures
        ({
            let state = TableFingerprintView::start().after_all(
                table_found::<R>() + rows_met(reads) + seq![end] + later,
            );
            &&& state.result is Some <==> (forall|i: int|
                0 <= i < reads.len() ==> (#[trigger] reads[i]).row() is Some)
            &&& state.result matches Some(hash) ==> hash
                == <DefaultHasher as vstd::std_specs::hash::DefaultHasherAdditionalSpecFns>::spec_finish(
            state.written)
        }),
{
    lemma_rows_keep_going_or_stop(reads);
    lemma_end_after_rows(reads, end, later);
    let met = TableFingerprintView::start().after_all(table_found::<R>()).after_all(
        rows_met(reads),
    );
    law_stopped_fingerprint_stays(met.after(end), later);
}

/// What a row adds to what is hashed stands behind all that was written before,
/// and is what is written of that row alone.
pub proof fn law_each_row_is_written_behind_the_others<R: SessionReads>(
    state: TableFingerprintView,
    reads: R,
)
    requires
        state.stage == FingerprintStage::Stepping,
        reads.row() is Some,
    ensures
        ({
            let next = state.after(DbEvent::Stepped(DbStep::Row(reads)));
            &&& next.written == state.written + R::row_writes(reads.row()->0)
            &&& next.stage == FingerprintStage::Stepping
            &&& next.result == state.result
            &&& R::rows_are_counted() ==> next.count == state.count + 1
        }),
{
}

/// The course of a fingerprinting. The database is to be opened, the table to be
/// looked for, and the rows to be asked for one after the other, however many
/// there are, as long as they are complete; and nothing more is to be done once
/// they end, or once an outcome is another than what the next step needs.
pub proof fn law_course_of_a_fingerprinting<R: SessionReads>(
    reads: Seq<R>,
    other: DbEvent<R>,
    later: Seq<DbEvent<R>>,
    query: &'static str,
)
    ensures
        ({
            let start = TableFingerprintView::start();
            let opened = start.after(DbEvent::<R>::Opened(true));
            let prepared = opened.after(DbEvent::<R>::Prepared(true));
            let probed = prepared.after(DbEvent::<R>::Probed(DbStep::Row(())));
            let stepping = probed.after(DbEvent::<R>::Prepared(true));
            let met = stepping.after_all(
                reads.map_values(|row: R| DbEvent::Stepped(DbStep::Row(row))),
            );
            &&& stage_action(start.stage, query) == DbAction::Open
            &&& stage_action(opened.stage, query) == DbAction::Prepare(SESSION_TABLE_QUERY)
            &&& stage_action(prepared.stage, query) == DbAction::Probe
            &&& stage_action(probed.stage, query) == DbAction::Prepare(query)
            &&& stage_action(stepping.stage, query) == DbAction::Step
            &&& stage_action(met.stage, query) == if (forall|i: int|
                0 <= i < reads.len() ==> (#[trigger] reads[i]).row() is Some) {
                DbAction::Step
            } else {
                DbAction::Stop
            }
            &&& other != DbEvent::<R>::Opened(true) ==> stage_action(
                start.after(other).after_all(later).stage,
                query,
            ) == DbAction::Stop
            &&& other != DbEvent::<R>::Prepared(true) ==> stage_action(
                opened.after(other).after_all(later).stage,
                query,
            ) == DbAction::Stop
            &&& other != DbEvent::<R>::Probed(DbStep::Row(())) ==> stage_action(
                prepared.after(other).after_all(later).stage,
                query,
            ) == DbAction::Stop
            &&& other != DbEvent::<R>::Prepared(true) ==> stage_action(
                probed.after(other).after_all(later).stage,
                query,
            ) == DbAction::Stop
            &&& !(other matches DbEvent::Stepped(DbStep::Row(_))) ==> stage_action(
                met.after(other).after_all(later).stage,
                query,
            ) == DbAction::Stop
        }),
{
    let start = TableFingerprintView::start();
    let opened = start.after(DbEvent::<R>::Opened(true));
    let prepared = opened.after(DbEvent::<R>::Prepared(true));
    let probed = prepared.after(DbEvent::<R>::Probed(DbStep::Row(())));
    let stepping = probed.after(DbEvent::<R>::Prepared(true));
    let met = stepping.after_all(rows_met(reads));
    lemma_rows_are_written(Seq::<R>::empty());
    assert(table_found::<R>() + rows_met(Seq::<R>::empty()) =~= table_found::<R>());
    lemma_rows_keep_going_or_stop(reads);
    assert(start.after_all(table_found::<R>()) == stepping);
    if other != DbEvent::<R>::Opened(true) {
        law_stopped_fingerprint_stays(start.after(other), later);
    }
    if other != DbEvent::<R>::Prepared(true) {
        law_stopped_fingerprint_stays(opened.after(other), later);
        law_stopped_fingerprint_stays(probed.after(other), later);
    }
    if other != DbEvent::<R>::Probed(DbStep::Row(())) {
        if let DbEvent::Probed(DbStep::Row(nothing)) = other {
            assert(nothing == ());
        }
        law_stopped_fingerprint_stays(prepared.after(other), later);
    }
    if !(other matches DbEvent::Stepped(DbStep::Row(_))) {
        law_stopped_fingerprint_stays(met.after(other), later);
    }
}

/// Where rows are counted, each complete row counts once.
pub proof fn law_rows_met_are_counted<R: SessionReads>(reads: Seq<R>)
    requires
        forall|i: int| 0 <= i < reads.len() ==> (#[trigger] reads[i]).row() is Some,
        R::rows_are_counted(),
    ensures
        TableFingerprintView::start().after_all(table_found::<R>() + rows_met(reads)).count
            == reads.len(),
{
    lemma_rows_are_written(reads);
}

/// The first byte that is hashed of a table of sessions is 2, whatever its rows
/// are.
pub proof fn law_first_hashed_byte<R: SessionReads>(
    reads: Seq<R>,
    end: DbEvent<R>,
    later: Seq<DbEvent<R>>,
)
    requires
        forall|i: int| 0 <= i < reads.len() ==> (#[trigger] reads[i]).row() is Some,
        !(end matches DbEvent::Stepped(DbStep::Row(_))),
    ensures
        ({
            let hashed = TableFingerprintView::start().after_all(
                table_found::<R>() + rows_met(reads) + seq![end] + later,
            ).written.flatten();
            hashed.len() > 0 && hashed[0] == 2
        }),
{
    law_fingerprint_is_that_of_the_rows(reads, end, later);
    law_hashed_bytes_start_with_the_kind_of_table::<R>(rows_of(reads));
}

/// What is looked for is a table, and its name is `sessions`.
pub proof fn law_table_is_looked_for_by_name()
    ensures
        SESSION_TABLE_QUERY@ == "SELECT 1 FROM sqlite_master"@ + " WHERE "@ + "type='table'"@
            + " AND "@ + "name='sessions'"@,
{
    reveal_strlit("SELECT 1 FROM sqlite_master");
    reveal_strlit(" WHERE ");
    reveal_strlit("type='table'");
    reveal_strlit(" AND ");
    reveal_strlit("name='sessions'");
    reveal_strlit("SELECT 1 FROM sqlite_master WHERE type='table' AND name='sessions'");
}

} // verus!
