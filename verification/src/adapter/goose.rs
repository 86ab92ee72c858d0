//! Goose, which keeps its sessions in SQLite.
use std::collections::hash_map::DefaultHasher;
use vstd::prelude::*;

use crate::adapter::session_table;
use crate::adapter::session_table::{
    FingerprintStage, SessionReads, TableFingerprint, TableFingerprintView,
};
use crate::adapter::sqlite_util;
use crate::adapter::sqlite_util::{DbAction, DbEvent, DbStep, RowScan, ScanTurn};
use crate::entry::LoadedEntry;
use crate::fingerprint;
use crate::load::{
    FileSearch, Freshness, Load, LoadAction, LoadEvent, LoadStage, LoadView, SharedArgs, UsageLoad,
    UsageLoadAgent,
};
use crate::order;
use crate::session;

verus! {

/// Reads the sessions that are billed.
pub const GOOSE_SESSION_QUERY: &'static str = "
SELECT
    id,
    model_config_json,
    provider_name,
    created_at,
    total_tokens,
    input_tokens,
    output_tokens,
    accumulated_total_tokens,
    accumulated_input_tokens,
    accumulated_output_tokens
FROM sessions
WHERE model_config_json IS NOT NULL
    AND TRIM(model_config_json) != ''
";

/// Reads what is fingerprinted, in an order that stays the same.
pub const GOOSE_FINGERPRINT_QUERY: &'static str =
    "SELECT id, model_config_json, provider_name, created_at, total_tokens, input_tokens, output_tokens, accumulated_total_tokens, accumulated_input_tokens, accumulated_output_tokens FROM sessions ORDER BY id";

/// The columns of a row as they were read; `None` where reading failed or the
/// column is `NULL`.
#[derive(Debug)]
pub struct GooseReads {
    pub id: Option<String>,
    pub model_config: Option<String>,
    pub provider: Option<String>,
    pub created_at: Option<String>,
    pub total: Option<i64>,
    pub input: Option<i64>,
    pub output: Option<i64>,
    pub accumulated_total: Option<i64>,
    pub accumulated_input: Option<i64>,
    pub accumulated_output: Option<i64>,
}

/// What of a row is fingerprinted.
pub struct GooseRow {
    pub id: Seq<char>,
    pub model_config: Seq<char>,
    pub provider: Option<Seq<char>>,
    pub created_at: Seq<char>,
    pub total: Option<i64>,
    pub input: Option<i64>,
    pub output: Option<i64>,
    pub accumulated_total: Option<i64>,
    pub accumulated_input: Option<i64>,
    pub accumulated_output: Option<i64>,
}

impl GooseRow {
    /// What is written to the hasher of this row.
    pub open spec fn writes(self) -> Seq<Seq<u8>> {
        fingerprint::text_writes(self.id) + fingerprint::text_writes(self.model_config)
            + fingerprint::optional_text_writes(self.provider) + fingerprint::text_writes(
            self.created_at,
        ) + fingerprint::optional_integer_writes(self.total)
            + fingerprint::optional_integer_writes(self.input)
            + fingerprint::optional_integer_writes(self.output)
            + fingerprint::optional_integer_writes(self.accumulated_total)
            + fingerprint::optional_integer_writes(self.accumulated_input)
            + fingerprint::optional_integer_writes(self.accumulated_output)
    }
}

impl SessionReads for GooseReads {
    type Row = GooseRow;

    open spec fn row(self) -> Option<Self::Row> {
        match (self.id, self.model_config, self.created_at) {
            (Some(id), Some(model_config), Some(created_at)) => Some(
                GooseRow {
                    id: id@,
                    model_config: model_config@,
                    provider: fingerprint::optional_text(self.provider),
                    created_at: created_at@,
                    total: self.total,
                    input: self.input,
                    output: self.output,
                    accumulated_total: self.accumulated_total,
                    accumulated_input: self.accumulated_input,
                    accumulated_output: self.accumulated_output,
                },
            ),
            _ => None,
        }
    }

    open spec fn row_writes(row: GooseRow) -> Seq<Seq<u8>> {
        row.writes()
    }

    open spec fn rows_are_counted() -> bool {
        true
    }

    fn write_row(&self, hasher: &mut DefaultHasher) -> (written: bool)
    {
        match (&self.id, &self.model_config, &self.created_at) {
            (Some(id), Some(model_config), Some(created_at)) => {
                fingerprint::write_text(hasher, id.as_str());
                fingerprint::write_text(hasher, model_config.as_str());
                fingerprint::write_optional_text(hasher, &self.provider);
                fingerprint::write_text(hasher, created_at.as_str());
                fingerprint::write_optional_integer(hasher, self.total);
                fingerprint::write_optional_integer(hasher, self.input);
                fingerprint::write_optional_integer(hasher, self.output);
                fingerprint::write_optional_integer(hasher, self.accumulated_total);
                fingerprint::write_optional_integer(hasher, self.accumulated_input);
                fingerprint::write_optional_integer(hasher, self.accumulated_output);
                assert(hasher@ =~= old(hasher)@ + self.row()->0.writes());
                true
            },
            _ => false,
        }
    }

    fn counts_rows() -> (counts: bool) {
        true
    }
}

/// What is written of a Goose row tells it from any other: each column can be
/// read back.
pub proof fn law_row_bytes_give_row_back()
    ensures
        fingerprint::tells_rows_apart(|row: GooseRow| GooseReads::row_writes(row)),
{
    let row_writes = |row: GooseRow| GooseReads::row_writes(row);
    assert forall|a: GooseRow, b: GooseRow|
        #![trigger row_writes(a).flatten(), row_writes(b).flatten()]
        fingerprint::same_or_apart(row_writes(a).flatten(), row_writes(b).flatten()) && (row_writes(
            a,
        ).flatten() == row_writes(b).flatten() ==> a == b) by {
        lemma_rows_apart(a, b);
    }
    assert forall|a: GooseRow| (#[trigger] row_writes(a).flatten()).len() > 0 by {
        lemma_rows_apart(a, a);
    }
}

proof fn lemma_rows_apart(a: GooseRow, b: GooseRow)
    ensures
        fingerprint::same_or_apart(a.writes().flatten(), b.writes().flatten()),
        a.writes().flatten() == b.writes().flatten() ==> a == b,
        a.writes().flatten().len() > 0,
{
    fingerprint::lemma_text_apart(a.id, b.id);
    fingerprint::lemma_text_apart(a.model_config, b.model_config);
    fingerprint::lemma_optional_text_apart(a.provider, b.provider);
    fingerprint::lemma_text_apart(a.created_at, b.created_at);
    fingerprint::lemma_optional_integer_apart(a.total, b.total);
    fingerprint::lemma_optional_integer_apart(a.input, b.input);
    fingerprint::lemma_optional_integer_apart(a.output, b.output);
    fingerprint::lemma_optional_integer_apart(a.accumulated_total, b.accumulated_total);
    fingerprint::lemma_optional_integer_apart(a.accumulated_input, b.accumulated_input);
    fingerprint::lemma_optional_integer_apart(a.accumulated_output, b.accumulated_output);
    let (a0, b0) = (fingerprint::text_writes(a.id), fingerprint::text_writes(b.id));
    let (x1, y1) = (
        fingerprint::text_writes(a.model_config),
        fingerprint::text_writes(b.model_config),
    );
    let (a1, b1) = (a0 + x1, b0 + y1);
    fingerprint::lemma_writes_apart_after(a0, b0, x1, y1);
    let (x2, y2) = (
        fingerprint::optional_text_writes(a.provider),
        fingerprint::optional_text_writes(b.provider),
    );
    let (a2, b2) = (a1 + x2, b1 + y2);
    fingerprint::lemma_writes_apart_after(a1, b1, x2, y2);
    let (x3, y3) = (fingerprint::text_writes(a.created_at), fingerprint::text_writes(b.created_at));
    let (a3, b3) = (a2 + x3, b2 + y3);
    fingerprint::lemma_writes_apart_after(a2, b2, x3, y3);
    let (x4, y4) = (
        fingerprint::optional_integer_writes(a.total),
        fingerprint::optional_integer_writes(b.total),
    );
    let (a4, b4) = (a3 + x4, b3 + y4);
    fingerprint::lemma_writes_apart_after(a3, b3, x4, y4);
    let (x5, y5) = (
        fingerprint::optional_integer_writes(a.input),
        fingerprint::optional_integer_writes(b.input),
    );
    let (a5, b5) = (a4 + x5, b4 + y5);
    fingerprint::lemma_writes_apart_after(a4, b4, x5, y5);
    let (x6, y6) = (
        fingerprint::optional_integer_writes(a.output),
        fingerprint::optional_integer_writes(b.output),
    );
    let (a6, b6) = (a5 + x6, b5 + y6);
    fingerprint::lemma_writes_apart_after(a5, b5, x6, y6);
    let (x7, y7) = (
        fingerprint::optional_integer_writes(a.accumulated_total),
        fingerprint::optional_integer_writes(b.accumulated_total),
    );
    let (a7, b7) = (a6 + x7, b6 + y7);
    fingerprint::lemma_writes_apart_after(a6, b6, x7, y7);
    let (x8, y8) = (
        fingerprint::optional_integer_writes(a.accumulated_input),
        fingerprint::optional_integer_writes(b.accumulated_input),
    );
    let (a8, b8) = (a7 + x8, b7 + y8);
    fingerprint::lemma_writes_apart_after(a7, b7, x8, y8);
    let (x9, y9) = (
        fingerprint::optional_integer_writes(a.accumulated_output),
        fingerprint::optional_integer_writes(b.accumulated_output),
    );
    let (a9, b9) = (a8 + x9, b8 + y9);
    fingerprint::lemma_writes_apart_after(a8, b8, x9, y9);
    assert(a.writes() == a9 && b.writes() == b9);
}

/// Any difference between the rows of two tables, such as an edit in place of
/// one column of one row, makes a difference in what is hashed.
pub proof fn law_any_edit_changes_what_is_hashed(a: Seq<GooseRow>, b: Seq<GooseRow>)
    requires
        a != b,
    ensures
        session_table::table_writes::<GooseReads>(a).flatten() != session_table::table_writes::<
            GooseReads,
        >(b).flatten(),
        session_table::table_writes::<GooseReads>(a) != session_table::table_writes::<
            GooseReads,
        >(b),
{
    law_row_bytes_give_row_back();
    if session_table::table_writes::<GooseReads>(a).flatten() == session_table::table_writes::<
        GooseReads,
    >(b).flatten() {
        session_table::law_table_bytes_give_rows_back::<GooseReads>(a, b);
    }
}

/// Takes an event of the fingerprinting of a Goose database, and says what to
/// do next. The number of rows is written behind them.
pub fn fingerprint_goose_db(
    state: &mut TableFingerprint<GooseReads>,
    event: DbEvent<GooseReads>,
) -> (action: DbAction)
    requires
        event matches DbEvent::Stepped(DbStep::Row(_)) ==> old(state)@.count < u64::MAX,
    ensures
        final(state)@ == old(state)@.after(event),
        action == session_table::stage_action(final(state)@.stage, GOOSE_FINGERPRINT_QUERY),
{
    state.take(event, GOOSE_FINGERPRINT_QUERY)
}

/// Takes an event of the reading of a Goose database, and says what to do next
/// and what to log.
pub fn load_entries_from_db(
    scan: &mut RowScan<LoadedEntry>,
    event: DbEvent<Option<LoadedEntry>>,
    db_path: &str,
) -> (turn: ScanTurn)
    ensures
        final(scan)@ == old(scan)@.after(event),
        turn.action == final(scan)@.action(GOOSE_SESSION_QUERY),
        turn.log is Some <==> old(scan)@.failure is None && final(scan)@.failure is Some,
        turn.log matches Some(message) ==> message@ == sqlite_util::failure_text(
            final(scan)@.failure->0,
            "Goose database"@,
            db_path@,
        ),
{
    scan.take(event, GOOSE_SESSION_QUERY, "Goose database", db_path)
}

/// The entries of one database: of each session the first that was read.
pub fn database_entries(scan: RowScan<LoadedEntry>) -> (entries: Vec<LoadedEntry>)
    ensures
        entries@ == session::first_of_each_session(scan@.entries),
        forall|i: int, j: int|
            0 <= i < j < entries@.len() ==> (#[trigger] entries@[i]).session_id@ != (
            #[trigger] entries@[j]).session_id@,
        forall|i: int|
            0 <= i < scan@.entries.len() ==> exists|k: int|
                0 <= k < entries@.len() && (#[trigger] entries@[k]).session_id@ == (
                #[trigger] scan@.entries[i]).session_id@,
        forall|k: int|
            0 <= k < entries@.len() ==> exists|i: int| #[trigger]
                session::opens_session(scan@.entries, i) && scan@.entries[i]
                    == #[trigger] entries@[k],
{
    session::keep_first_of_each_session(scan.into_entries())
}

/// What becomes of the entries that were read from the databases, one database
/// after the other.
pub open spec fn arranged(entries: Seq<LoadedEntry>) -> Seq<LoadedEntry> {
    order::time_ordered(entries)
}

/// A load of the sessions of Goose.
pub fn load_entries<P, E, M>(shared: &SharedArgs<M>) -> (begun: UsageLoad<P, E>)
    ensures
        begun.agent == UsageLoadAgent::Goose,
        begun.json == shared.json,
        begun.load@ == LoadView::<P, E>::start(*shared),
        begun.load@.opts.single_thread == shared.single_thread,
        begun.load@.opts.live_only == shared.live_only,
        begun.load@.result is None,
{
    UsageLoad { agent: UsageLoadAgent::Goose, json: shared.json, load: Load::new(shared) }
}

/// Takes an event of a load, and says what to do next. Each
/// database keeps its own sessions: one that occurs in two databases is loaded
/// from both.
pub fn load_entries_inner<P, E>(load: &mut Load<P, E>, event: LoadEvent<P, E>) -> (action:
    LoadAction)
    ensures
        final(load)@ == old(load)@.after(
            event,
            None,
            |entries: Seq<LoadedEntry>| arranged(entries),
        ),
        action == final(load)@.action("goose", Freshness::Fingerprint),
        event matches LoadEvent::Entries(Ok(entries)) ==> (old(load)@.stage == LoadStage::Loading
            ==> (final(load)@.result matches Some(Ok(loaded)) && {
                &&& forall|i: int, j: int|
                    0 <= i <= j < loaded.len() ==> (#[trigger] loaded[i]).timestamp <= (
                    #[trigger] loaded[j]).timestamp
                &&& loaded.to_multiset() == entries@.to_multiset()
                &&& forall|at: i64| #[trigger]
                    order::at_instant(loaded, at) == order::at_instant(entries@, at)
            })),
{
    proof {
        if let LoadEvent::Entries(Ok(entries)) = &event {
            order::law_time_ordered_is_a_stable_sort(entries@);
        }
    }
    let event = match event {
        LoadEvent::Entries(Ok(entries)) => LoadEvent::Entries(
            Ok(order::sort_by_timestamp(entries)),
        ),
        event => event,
    };
    load.take(event, None, "goose", Freshness::Fingerprint)
}

/// One more database adds its entries, one for each of its sessions, to those of
/// the databases before it, though they have the same sessions.
pub proof fn law_sessions_survive_across_databases(
    before: Seq<LoadedEntry>,
    database: Seq<LoadedEntry>,
)
    ensures
        arranged(before + session::first_of_each_session(database)).to_multiset()
            == before.to_multiset().add(session::first_of_each_session(database).to_multiset()),
        order::in_time_order(arranged(before + session::first_of_each_session(database))),
{
    let kept = session::first_of_each_session(database);
    order::law_time_ordered_is_a_stable_sort(before + kept);
    vstd::seq_lib::lemma_multiset_commutative(before, kept);
}

/// A load of databases that are unchanged since an earlier load gives the same
/// entries in the same order, whether they are read or answered from the cache.
pub proof fn law_loading_again_gives_the_same_entries<P, E, M>(
    shared: SharedArgs<M>,
    paths: Vec<P>,
    entries: Vec<LoadedEntry>,
    shared_again: SharedArgs<M>,
    paths_again: Vec<P>,
    entries_again: Vec<LoadedEntry>,
)
    requires
        entries@ == entries_again@,
    ensures
        ({
            let arrange = |entries: Seq<LoadedEntry>| arranged(entries);
            let once = LoadView::<P, E>::start(shared).after(
                LoadEvent::Paths(Ok(paths)),
                None,
                arrange,
            ).after(LoadEvent::Entries(Ok(entries)), None, arrange);
            let again = LoadView::<P, E>::start(shared_again).after(
                LoadEvent::Paths(Ok(paths_again)),
                None,
                arrange,
            ).after(LoadEvent::Entries(Ok(entries_again)), None, arrange);
            &&& once.result == Some(Ok::<Seq<LoadedEntry>, E>(arranged(entries@)))
            &&& again.result == once.result
        }),
{
}

/// The result of a load of Goose has just the entries that were read, in time order:
/// no entry stands behind a later one, and at each instant the entries stand in
/// the order in which they were read.
pub proof fn law_result_of_a_load<P, E, M>(
    shared: SharedArgs<M>,
    paths: Vec<P>,
    entries: Vec<LoadedEntry>,
    at: i64,
)
    ensures
        ({
            let search = None::<FileSearch>;
            let arrange = |entries: Seq<LoadedEntry>| arranged(entries);
            let load = LoadView::<P, E>::start(shared).after(
                LoadEvent::Paths(Ok(paths)),
                search,
                arrange,
            ).after(LoadEvent::Entries(Ok(entries)), search, arrange);
            &&& load.result matches Some(Ok(loaded))
            &&& forall|i: int, j: int|
                0 <= i <= j < loaded.len() ==> (#[trigger] loaded[i]).timestamp <= (
                #[trigger] loaded[j]).timestamp
            &&& loaded.to_multiset() == entries@.to_multiset()
            &&& loaded.filter(|entry: LoadedEntry| entry.timestamp == at) == entries@.filter(
                |entry: LoadedEntry| entry.timestamp == at,
            )
        }),
{
    order::law_time_order_keeps_entries_and_instants(entries@, at);
}

/// A row of Goose is fingerprinted if and only if each column that it must have was
/// read.
pub proof fn law_row_is_complete_or_not(reads: GooseReads)
    ensures
        reads.row() is Some <==> {
            &&& reads.id is Some
            &&& reads.model_config is Some
            &&& reads.created_at is Some
        },
{
}

/// What is fingerprinted of a row of Goose has each of its columns: where two rows
/// have the same of it, they have the same columns, and the other way round.
pub proof fn law_row_has_each_column(a: GooseReads, b: GooseReads)
    requires
        a.row() is Some,
        b.row() is Some,
    ensures
        a.row() == b.row() <==> {
            &&& a.id->0@ == b.id->0@
            &&& a.model_config->0@ == b.model_config->0@
            &&& (a.provider is Some <==> b.provider is Some)
            &&& (a.provider is Some ==> a.provider->0@ == b.provider->0@)
            &&& a.created_at->0@ == b.created_at->0@
            &&& a.total == b.total
            &&& a.input == b.input
            &&& a.output == b.output
            &&& a.accumulated_total == b.accumulated_total
            &&& a.accumulated_input == b.accumulated_input
            &&& a.accumulated_output == b.accumulated_output
        },
{
}

/// The bytes that are hashed of a table of Goose give each column of each of its
/// rows back: where they are the same of two tables, these have as many rows, and
/// the same columns in each of them. So an edit of any column of any row, and a
/// row more or less, makes a difference in what is hashed.
pub proof fn law_hashed_bytes_give_each_column_back(
    a: Seq<GooseReads>,
    end_a: DbEvent<GooseReads>,
    b: Seq<GooseReads>,
    end_b: DbEvent<GooseReads>,
)
    requires
        forall|i: int| 0 <= i < a.len() ==> (#[trigger] a[i]).row() is Some,
        forall|i: int| 0 <= i < b.len() ==> (#[trigger] b[i]).row() is Some,
        !(end_a matches DbEvent::Stepped(DbStep::Row(_))),
        !(end_b matches DbEvent::Stepped(DbStep::Row(_))),
        ({
            let hashed_a = TableFingerprintView::start().after_all(
                session_table::table_found::<GooseReads>() + session_table::rows_met(a) + seq![end_a],
            ).written.flatten();
            let hashed_b = TableFingerprintView::start().after_all(
                session_table::table_found::<GooseReads>() + session_table::rows_met(b) + seq![end_b],
            ).written.flatten();
            hashed_a == hashed_b
        }),
    ensures
        a.len() == b.len(),
        forall|i: int| #![trigger a[i]] #![trigger b[i]] 0 <= i < a.len() ==> {
            &&& a[i].id->0@ == b[i].id->0@
            &&& a[i].model_config->0@ == b[i].model_config->0@
            &&& (a[i].provider is Some <==> b[i].provider is Some)
            &&& (a[i].provider is Some ==> a[i].provider->0@ == b[i].provider->0@)
            &&& a[i].created_at->0@ == b[i].created_at->0@
            &&& a[i].total == b[i].total
            &&& a[i].input == b[i].input
            &&& a[i].output == b[i].output
            &&& a[i].accumulated_total == b[i].accumulated_total
            &&& a[i].accumulated_input == b[i].accumulated_input
            &&& a[i].accumulated_output == b[i].accumulated_output
        },
{
    let (rows_a, rows_b) = (session_table::rows_of(a), session_table::rows_of(b));
    let found = session_table::table_found::<GooseReads>();
    session_table::law_fingerprint_is_that_of_the_rows(a, end_a, Seq::empty());
    session_table::law_fingerprint_is_that_of_the_rows(b, end_b, Seq::empty());
    assert(found + session_table::rows_met(a) + seq![end_a] + Seq::empty() =~= found
        + session_table::rows_met(a) + seq![end_a]);
    assert(found + session_table::rows_met(b) + seq![end_b] + Seq::empty() =~= found
        + session_table::rows_met(b) + seq![end_b]);
    law_row_bytes_give_row_back();
    session_table::law_table_bytes_give_rows_back::<GooseReads>(rows_a, rows_b);
    assert forall|i: int| #![trigger a[i]] #![trigger b[i]] 0 <= i < a.len() implies {
        &&& a[i].id->0@ == b[i].id->0@
        &&& a[i].model_config->0@ == b[i].model_config->0@
        &&& (a[i].provider is Some <==> b[i].provider is Some)
        &&& (a[i].provider is Some ==> a[i].provider->0@ == b[i].provider->0@)
        &&& a[i].created_at->0@ == b[i].created_at->0@
        &&& a[i].total == b[i].total
        &&& a[i].input == b[i].input
        &&& a[i].output == b[i].output
        &&& a[i].accumulated_total == b[i].accumulated_total
        &&& a[i].accumulated_input == b[i].accumulated_input
        &&& a[i].accumulated_output == b[i].accumulated_output
    } by {
        assert(rows_a[i] == rows_b[i]);
        assert(a[i].row() is Some && b[i].row() is Some);
        law_row_has_each_column(a[i], b[i]);
    }
}

/// A Goose database whose rows are complete and have the same columns as before has
/// the same fingerprint as before.
pub proof fn law_same_columns_give_the_same_fingerprint(
    a: Seq<GooseReads>,
    end_a: DbEvent<GooseReads>,
    b: Seq<GooseReads>,
    end_b: DbEvent<GooseReads>,
)
    requires
        a.len() == b.len(),
        forall|i: int| 0 <= i < a.len() ==> (#[trigger] a[i]).row() is Some,
        forall|i: int| #![trigger a[i]] #![trigger b[i]] 0 <= i < a.len() ==> b[i].row() is Some && {
            &&& a[i].id->0@ == b[i].id->0@
            &&& a[i].model_config->0@ == b[i].model_config->0@
            &&& (a[i].provider is Some <==> b[i].provider is Some)
            &&& (a[i].provider is Some ==> a[i].provider->0@ == b[i].provider->0@)
            &&& a[i].created_at->0@ == b[i].created_at->0@
            &&& a[i].total == b[i].total
            &&& a[i].input == b[i].input
            &&& a[i].output == b[i].output
            &&& a[i].accumulated_total == b[i].accumulated_total
            &&& a[i].accumulated_input == b[i].accumulated_input
            &&& a[i].accumulated_output == b[i].accumulated_output
        },
        !(end_a matches DbEvent::Stepped(DbStep::Row(_))),
        !(end_b matches DbEvent::Stepped(DbStep::Row(_))),
    ensures
        ({
            let fingerprint_a = TableFingerprintView::start().after_all(
                session_table::table_found::<GooseReads>() + session_table::rows_met(a) + seq![end_a],
            ).result;
            let fingerprint_b = TableFingerprintView::start().after_all(
                session_table::table_found::<GooseReads>() + session_table::rows_met(b) + seq![end_b],
            ).result;
            fingerprint_a is Some && fingerprint_a == fingerprint_b
        }),
{
    let found = session_table::table_found::<GooseReads>();
    assert forall|i: int| 0 <= i < a.len() implies (#[trigger] a[i]).row() == b[i].row() by {
        law_row_has_each_column(a[i], b[i]);
    }
    assert(found + session_table::rows_met(a) + seq![end_a] + Seq::empty() =~= found
        + session_table::rows_met(a) + seq![end_a]);
    assert(found + session_table::rows_met(b) + seq![end_b] + Seq::empty() =~= found
        + session_table::rows_met(b) + seq![end_b]);
    session_table::law_complete_tables_have_a_fingerprint(a, end_a, Seq::empty());
    session_table::law_same_rows_give_the_same_fingerprint(
        a,
        end_a,
        Seq::empty(),
        b,
        end_b,
        Seq::empty(),
    );
}

/// A Goose database whose table was found has a fingerprint if and only if each
/// column that a row must have was read of each row.
pub proof fn law_fingerprint_needs_each_required_column(reads: Seq<GooseReads>, end: DbEvent<GooseReads>)
    requires
        !(end matches DbEvent::Stepped(DbStep::Row(_))),
    ensures
        TableFingerprintView::start().after_all(
                session_table::table_found::<GooseReads>() + session_table::rows_met(reads) + seq![end],
            ).result is Some <==> (forall|i: int|
            #![trigger reads[i]]
            0 <= i < reads.len() ==> {
                &&& reads[i].id is Some
                &&& reads[i].model_config is Some
                &&& reads[i].created_at is Some
            }),
{
    let met = session_table::table_found::<GooseReads>() + session_table::rows_met(reads) + seq![end];
    assert(met + Seq::empty() =~= met);
    session_table::law_complete_tables_have_a_fingerprint(reads, end, Seq::empty());
    assert forall|i: int| #![trigger reads[i]] 0 <= i < reads.len() implies (reads[i].row() is Some
        <==> {
        &&& reads[i].id is Some
        &&& reads[i].model_config is Some
        &&& reads[i].created_at is Some
    }) by {
        law_row_is_complete_or_not(reads[i]);
    }
}

/// What is hashed of a row of Goose, column by column: a text as UTF-8 with the byte
/// `ff` behind it, a number as its eight bytes, the least first, and a column that
/// may be missing with the number 1 before it, or else as the number 0.
pub proof fn law_columns_are_hashed_in_order(state: TableFingerprintView, reads: GooseReads)
    requires
        state.stage == FingerprintStage::Stepping,
        reads.row() is Some,
    ensures
        ({
            let number = |value: u64| seq![vstd::bytes::spec_u64_to_le_bytes(value)];
            let text = |value: Seq<char>| seq![vstd::utf8::encode_utf8(value), seq![0xffu8]];
            let as_bits = |value: Option<i64>|
                match value {
                    Some(present) => Some(present as u64),
                    None => None,
                };
            let optional = |value: Option<u64>|
                match value {
                    Some(present) => number(1) + number(present),
                    None => number(0),
                };
            let optional_text = |value: Option<String>|
                match value {
                    Some(present) => number(1) + text(present@),
                    None => number(0),
                };
            state.after(DbEvent::Stepped(DbStep::Row(reads))).written == state.written + (
            text(reads.id->0@)
                + text(reads.model_config->0@)
                + optional_text(reads.provider)
                + text(reads.created_at->0@)
                + optional(as_bits(reads.total))
                + optional(as_bits(reads.input))
                + optional(as_bits(reads.output))
                + optional(as_bits(reads.accumulated_total))
                + optional(as_bits(reads.accumulated_input))
                + optional(as_bits(reads.accumulated_output)))
        }),
{
}

/// The last that is hashed of a Goose table is the number of its rows.
pub proof fn law_number_of_rows_is_hashed_last(reads: Seq<GooseReads>, end: DbEvent<GooseReads>)
    requires
        forall|i: int| 0 <= i < reads.len() ==> (#[trigger] reads[i]).row() is Some,
        !(end matches DbEvent::Stepped(DbStep::Row(_))),
    ensures
        TableFingerprintView::start().after_all(
                session_table::table_found::<GooseReads>() + session_table::rows_met(reads) + seq![end],
            ).written.last() == vstd::bytes::spec_u64_to_le_bytes(reads.len() as u64),
{
    let met = session_table::table_found::<GooseReads>() + session_table::rows_met(reads) + seq![end];
    assert(met + Seq::empty() =~= met);
    session_table::law_fingerprint_is_that_of_the_rows(reads, end, Seq::empty());
}

/// Behind the rows their number is hashed, and the fingerprint is the hash of all
/// of it.
pub proof fn law_end_of_the_rows(state: TableFingerprintView, end: DbEvent<GooseReads>)
    requires
        state.stage == FingerprintStage::Stepping,
        !(end matches DbEvent::Stepped(DbStep::Row(_))),
    ensures
        state.after(end).written == state.written.push(
            vstd::bytes::spec_u64_to_le_bytes(state.count as u64),
        ),
        state.after(end).result == Some(
            <DefaultHasher as vstd::std_specs::hash::DefaultHasherAdditionalSpecFns>::spec_finish(
            state.after(end).written),
        ),
{
    assert(state.after(end).written =~= state.written.push(
        vstd::bytes::spec_u64_to_le_bytes(state.count as u64),
    ));
}

/// Each row counts once.
pub proof fn law_rows_are_counted(reads: Seq<GooseReads>)
    requires
        forall|i: int| 0 <= i < reads.len() ==> (#[trigger] reads[i]).row() is Some,
    ensures
        TableFingerprintView::start().after_all(
            session_table::table_found::<GooseReads>() + session_table::rows_met(reads),
        ).count == reads.len(),
{
    session_table::law_rows_met_are_counted(reads);
}

/// What is fingerprinted is each column that is read when the sessions are loaded,
/// in the same order. It is read of all sessions, in the order of their
/// identifiers; loaded are those with the configuration of a model.
pub proof fn law_fingerprint_reads_what_is_loaded()
    ensures
        ({
            let columns = |between: Seq<char>|
                "id"@ + between
                    + "model_config_json"@ + between
                    + "provider_name"@ + between
                    + "created_at"@ + between
                    + "total_tokens"@ + between
                    + "input_tokens"@ + between
                    + "output_tokens"@ + between
                    + "accumulated_total_tokens"@ + between
                    + "accumulated_input_tokens"@ + between
                    + "accumulated_output_tokens"@;
            &&& GOOSE_FINGERPRINT_QUERY@ == "SELECT "@ + columns(", "@)
                + " FROM sessions ORDER BY id"@
            &&& GOOSE_SESSION_QUERY@ == "\nSELECT\n    "@ + columns(",\n    "@)
                + "\nFROM sessions\nWHERE model_config_json IS NOT NULL\n    AND TRIM(model_config_json) != ''\n"@
        }),
{
    reveal_strlit("SELECT ");
    reveal_strlit(", ");
    reveal_strlit(" FROM sessions ORDER BY id");
    reveal_strlit("\nSELECT\n    ");
    reveal_strlit(",\n    ");
    reveal_strlit("\nFROM sessions\nWHERE model_config_json IS NOT NULL\n    AND TRIM(model_config_json) != ''\n");
    reveal_strlit("id");
    reveal_strlit("model_config_json");
    reveal_strlit("provider_name");
    reveal_strlit("created_at");
    reveal_strlit("total_tokens");
    reveal_strlit("input_tokens");
    reveal_strlit("output_tokens");
    reveal_strlit("accumulated_total_tokens");
    reveal_strlit("accumulated_input_tokens");
    reveal_strlit("accumulated_output_tokens");
    reveal_strlit("SELECT id, model_config_json, provider_name, created_at, total_tokens, input_tokens, output_tokens, accumulated_total_tokens, accumulated_input_tokens, accumulated_output_tokens FROM sessions ORDER BY id");
    reveal_strlit("\nSELECT\n    id,\n    model_config_json,\n    provider_name,\n    created_at,\n    total_tokens,\n    input_tokens,\n    output_tokens,\n    accumulated_total_tokens,\n    accumulated_input_tokens,\n    accumulated_output_tokens\nFROM sessions\nWHERE model_config_json IS NOT NULL\n    AND TRIM(model_config_json) != ''\n");
}

} // verus!
