//! Hermes, which keeps its sessions in SQLite.
use std::collections::hash_map::DefaultHasher;
use vstd::prelude::*;

use crate::adapter::session_table;
use crate::adapter::session_table::{
    FingerprintStage, SessionReads, TableFingerprint, TableFingerprintView,
};
use crate::adapter::sqlite_util;
use crate::adapter::sqlite_util::{DbAction, DbEvent, DbStep, RowScan, ScanTurn};
use crate::entry::LoadedEntry;
use crate::fingerprint;
use crate::load::{
    FileSearch, Freshness, Load, LoadAction, LoadEvent, LoadStage, LoadView, SharedArgs, UsageLoad,
    UsageLoadAgent,
};
use crate::order;
use crate::session;

verus! {

/// Reads the sessions that are billed.
pub const HERMES_SESSION_QUERY: &'static str = "
            SELECT
                id,
                model,
                billing_provider,
                started_at,
                message_count,
                input_tokens,
                output_tokens,
                cache_read_tokens,
                cache_write_tokens,
                reasoning_tokens,
                estimated_cost_usd,
                actual_cost_usd
            FROM sessions
            WHERE model IS NOT NULL
                AND TRIM(model) != ''
        ";

/// Reads what is fingerprinted of the sessions that are billed, in an order
/// that stays the same: each column that is read when the sessions are loaded.
pub const HERMES_FINGERPRINT_QUERY: &'static str =
    "SELECT id, model, billing_provider, started_at, message_count, input_tokens, output_tokens, cache_read_tokens, cache_write_tokens, reasoning_tokens, estimated_cost_usd, actual_cost_usd FROM sessions WHERE model IS NOT NULL AND TRIM(model) != '' ORDER BY id";

/// The columns of a row as they were read; `None` where reading failed. The
/// columns that hold double-precision numbers are given by their bit patterns.
/// `Some(None)` is a column that was read and is `NULL`. A billing provider that
/// is `NULL` cannot be read as a text, and is `None`.
#[derive(Debug)]
pub struct HermesReads {
    pub id: Option<String>,
    pub model: Option<String>,
    pub billing_provider: Option<String>,
    pub started_at_bits: Option<Option<u64>>,
    pub message_count: Option<Option<i64>>,
    pub input_tokens: Option<Option<i64>>,
    pub output_tokens: Option<Option<i64>>,
    pub cache_read_tokens: Option<Option<i64>>,
    pub cache_write_tokens: Option<Option<i64>>,
    pub reasoning_tokens: Option<Option<i64>>,
    pub estimated_cost_bits: Option<Option<u64>>,
    pub actual_cost_bits: Option<Option<u64>>,
}

/// What of a row is fingerprinted.
pub struct HermesRow {
    pub id: Seq<char>,
    pub model: Seq<char>,
    pub billing_provider: Option<Seq<char>>,
    pub started_at_bits: Option<u64>,
    pub message_count: Option<i64>,
    pub input_tokens: Option<i64>,
    pub output_tokens: Option<i64>,
    pub cache_read_tokens: Option<i64>,
    pub cache_write_tokens: Option<i64>,
    pub reasoning_tokens: Option<i64>,
    pub estimated_cost_bits: Option<u64>,
    pub actual_cost_bits: Option<u64>,
}

impl HermesRow {
    /// What is written to the hasher of this row.
    pub open spec fn writes(self) -> Seq<Seq<u8>> {
        fingerprint::text_writes(self.id)
            + fingerprint::text_writes(self.model)
            + fingerprint::optional_text_writes(self.billing_provider)
            + fingerprint::optional_bits_writes(self.started_at_bits)
            + fingerprint::optional_integer_writes(self.message_count)
            + fingerprint::optional_integer_writes(self.input_tokens)
            + fingerprint::optional_integer_writes(self.output_tokens)
            + fingerprint::optional_integer_writes(self.cache_read_tokens)
            + fingerprint::optional_integer_writes(self.cache_write_tokens)
            + fingerprint::optional_integer_writes(self.reasoning_tokens)
            + fingerprint::optional_bits_writes(self.estimated_cost_bits)
            + fingerprint::optional_bits_writes(self.actual_cost_bits)
    }
}

impl SessionReads for HermesReads {
    type Row = HermesRow;

    open spec fn row(self) -> Option<Self::Row> {
        if {
            &&& self.id is Some
            &&& self.model is Some
            &&& self.started_at_bits is Some
            &&& self.message_count is Some
            &&& self.input_tokens is Some
            &&& self.output_tokens is Some
            &&& self.cache_read_tokens is Some
            &&& self.cache_write_tokens is Some
            &&& self.reasoning_tokens is Some
            &&& self.estimated_cost_bits is Some
            &&& self.actual_cost_bits is Some
        } {
            Some(
                HermesRow {
                    id: self.id->0@,
                    model: self.model->0@,
                    billing_provider: fingerprint::optional_text(self.billing_provider),
                    started_at_bits: self.started_at_bits->0,
                    message_count: self.message_count->0,
                    input_tokens: self.input_tokens->0,
                    output_tokens: self.output_tokens->0,
                    cache_read_tokens: self.cache_read_tokens->0,
                    cache_write_tokens: self.cache_write_tokens->0,
                    reasoning_tokens: self.reasoning_tokens->0,
                    estimated_cost_bits: self.estimated_cost_bits->0,
                    actual_cost_bits: self.actual_cost_bits->0,
                },
            )
        } else {
            None
        }
    }

    open spec fn row_writes(row: HermesRow) -> Seq<Seq<u8>> {
        row.writes()
    }

    open spec fn rows_are_counted() -> bool {
        false
    }

    fn write_row(&self, hasher: &mut DefaultHasher) -> (written: bool) {
        let Some(id) = &self.id else {
            return false;
        };
        let Some(model) = &self.model else {
            return false;
        };
        let Some(started_at_bits) = self.started_at_bits else {
            return false;
        };
        let Some(message_count) = self.message_count else {
            return false;
        };
        let Some(input_tokens) = self.input_tokens else {
            return false;
        };
        let Some(output_tokens) = self.output_tokens else {
            return false;
        };
        let Some(cache_read_tokens) = self.cache_read_tokens else {
            return false;
        };
        let Some(cache_write_tokens) = self.cache_write_tokens else {
            return false;
        };
        let Some(reasoning_tokens) = self.reasoning_tokens else {
            return false;
        };
        let Some(estimated_cost_bits) = self.estimated_cost_bits else {
            return false;
        };
        let Some(actual_cost_bits) = self.actual_cost_bits else {
            return false;
        };
        fingerprint::write_text(hasher, id.as_str());
        fingerprint::write_text(hasher, model.as_str());
        fingerprint::write_optional_text(hasher, &self.billing_provider);
        fingerprint::write_optional_bits(hasher, started_at_bits);
        fingerprint::write_optional_integer(hasher, message_count);
        fingerprint::write_optional_integer(hasher, input_tokens);
        fingerprint::write_optional_integer(hasher, output_tokens);
        fingerprint::write_optional_integer(hasher, cache_read_tokens);
        fingerprint::write_optional_integer(hasher, cache_write_tokens);
        fingerprint::write_optional_integer(hasher, reasoning_tokens);
        fingerprint::write_optional_bits(hasher, estimated_cost_bits);
        fingerprint::write_optional_bits(hasher, actual_cost_bits);
        proof {
            lemma_row_written_behind(old(hasher)@, self.row()->0);
        }
        true
    }

    fn counts_rows() -> (counts: bool) {
        false
    }
}

/// Writing the columns one after the other writes the row.
proof fn lemma_row_written_behind(before: Seq<Seq<u8>>, row: HermesRow)
    ensures
        before
            + fingerprint::text_writes(row.id)
            + fingerprint::text_writes(row.model)
            + fingerprint::optional_text_writes(row.billing_provider)
            + fingerprint::optional_bits_writes(row.started_at_bits)
            + fingerprint::optional_integer_writes(row.message_count)
            + fingerprint::optional_integer_writes(row.input_tokens)
            + fingerprint::optional_integer_writes(row.output_tokens)
            + fingerprint::optional_integer_writes(row.cache_read_tokens)
            + fingerprint::optional_integer_writes(row.cache_write_tokens)
            + fingerprint::optional_integer_writes(row.reasoning_tokens)
            + fingerprint::optional_bits_writes(row.estimated_cost_bits)
            + fingerprint::optional_bits_writes(row.actual_cost_bits) == before + row.writes(),
{
    let w0 = fingerprint::text_writes(row.id);
    let w1 = w0 + fingerprint::text_writes(row.model);
    fingerprint::lemma_written_behind(
        before,
        w0,
        fingerprint::text_writes(row.model),
    );
    let w2 = w1 + fingerprint::optional_text_writes(row.billing_provider);
    fingerprint::lemma_written_behind(
        before,
        w1,
        fingerprint::optional_text_writes(row.billing_provider),
    );
    let w3 = w2 + fingerprint::optional_bits_writes(row.started_at_bits);
    fingerprint::lemma_written_behind(
        before,
        w2,
        fingerprint::optional_bits_writes(row.started_at_bits),
    );
    let w4 = w3 + fingerprint::optional_integer_writes(row.message_count);
    fingerprint::lemma_written_behind(
        before,
        w3,
        fingerprint::optional_integer_writes(row.message_count),
    );
    let w5 = w4 + fingerprint::optional_integer_writes(row.input_tokens);
    fingerprint::lemma_written_behind(
        before,
        w4,
        fingerprint::optional_integer_writes(row.input_tokens),
    );
    let w6 = w5 + fingerprint::optional_integer_writes(row.output_tokens);
    fingerprint::lemma_written_behind(
        before,
        w5,
        fingerprint::optional_integer_writes(row.output_tokens),
    );
    let w7 = w6 + fingerprint::optional_integer_writes(row.cache_read_tokens);
    fingerprint::lemma_written_behind(
        before,
        w6,
        fingerprint::optional_integer_writes(row.cache_read_tokens),
    );
    let w8 = w7 + fingerprint::optional_integer_writes(row.cache_write_tokens);
    fingerprint::lemma_written_behind(
        before,
        w7,
        fingerprint::optional_integer_writes(row.cache_write_tokens),
    );
    let w9 = w8 + fingerprint::optional_integer_writes(row.reasoning_tokens);
    fingerprint::lemma_written_behind(
        before,
        w8,
        fingerprint::optional_integer_writes(row.reasoning_tokens),
    );
    let w10 = w9 + fingerprint::optional_bits_writes(row.estimated_cost_bits);
    fingerprint::lemma_written_behind(
        before,
        w9,
        fingerprint::optional_bits_writes(row.estimated_cost_bits),
    );
    fingerprint::lemma_written_behind(
        before,
        w10,
        fingerprint::optional_bits_writes(row.actual_cost_bits),
    );
}

/// What is written of a Hermes row tells it from any other: each column can be
/// read back.
pub proof fn law_row_bytes_give_row_back()
    ensures
        fingerprint::tells_rows_apart(|row: HermesRow| HermesReads::row_writes(row)),
{
    let row_writes = |row: HermesRow| HermesReads::row_writes(row);
    assert forall|a: HermesRow, b: HermesRow|
        #![trigger row_writes(a).flatten(), row_writes(b).flatten()]
        fingerprint::same_or_apart(row_writes(a).flatten(), row_writes(b).flatten()) && (row_writes(
            a,
        ).flatten() == row_writes(b).flatten() ==> a == b) by {
        lemma_rows_apart(a, b);
    }
    assert forall|a: HermesRow| (#[trigger] row_writes(a).flatten()).len() > 0 by {
        lemma_rows_apart(a, a);
    }
}

proof fn lemma_rows_apart(a: HermesRow, b: HermesRow)
    ensures
        fingerprint::same_or_apart(a.writes().flatten(), b.writes().flatten()),
        a.writes().flatten() == b.writes().flatten() ==> a == b,
        a.writes().flatten().len() > 0,
{
    fingerprint::lemma_text_apart(a.id, b.id);
    fingerprint::lemma_text_apart(a.model, b.model);
    fingerprint::lemma_optional_text_apart(a.billing_provider, b.billing_provider);
    fingerprint::lemma_optional_bits_apart(a.started_at_bits, b.started_at_bits);
    fingerprint::lemma_optional_integer_apart(a.message_count, b.message_count);
    fingerprint::lemma_optional_integer_apart(a.input_tokens, b.input_tokens);
    fingerprint::lemma_optional_integer_apart(a.output_tokens, b.output_tokens);
    fingerprint::lemma_optional_integer_apart(a.cache_read_tokens, b.cache_read_tokens);
    fingerprint::lemma_optional_integer_apart(a.cache_write_tokens, b.cache_write_tokens);
    fingerprint::lemma_optional_integer_apart(a.reasoning_tokens, b.reasoning_tokens);
    fingerprint::lemma_optional_bits_apart(a.estimated_cost_bits, b.estimated_cost_bits);
    fingerprint::lemma_optional_bits_apart(a.actual_cost_bits, b.actual_cost_bits);
    let (a0, b0) = (fingerprint::text_writes(a.id), fingerprint::text_writes(b.id));
    let (x1, y1) = (fingerprint::text_writes(a.model), fingerprint::text_writes(b.model));
    let (a1, b1) = (a0 + x1, b0 + y1);
    fingerprint::lemma_writes_apart_after(a0, b0, x1, y1);
    let (x2, y2) = (
        fingerprint::optional_text_writes(a.billing_provider),
        fingerprint::optional_text_writes(b.billing_provider),
    );
    let (a2, b2) = (a1 + x2, b1 + y2);
    fingerprint::lemma_writes_apart_after(a1, b1, x2, y2);
    let (x3, y3) = (
        fingerprint::optional_bits_writes(a.started_at_bits),
        fingerprint::optional_bits_writes(b.started_at_bits),
    );
    let (a3, b3) = (a2 + x3, b2 + y3);
    fingerprint::lemma_writes_apart_after(a2, b2, x3, y3);
    let (x4, y4) = (
        fingerprint::optional_integer_writes(a.message_count),
        fingerprint::optional_integer_writes(b.message_count),
    );
    let (a4, b4) = (a3 + x4, b3 + y4);
    fingerprint::lemma_writes_apart_after(a3, b3, x4, y4);
    let (x5, y5) = (
        fingerprint::optional_integer_writes(a.input_tokens),
        fingerprint::optional_integer_writes(b.input_tokens),
    );
    let (a5, b5) = (a4 + x5, b4 + y5);
    fingerprint::lemma_writes_apart_after(a4, b4, x5, y5);
    let (x6, y6) = (
        fingerprint::optional_integer_writes(a.output_tokens),
        fingerprint::optional_integer_writes(b.output_tokens),
    );
    let (a6, b6) = (a5 + x6, b5 + y6);
    fingerprint::lemma_writes_apart_after(a5, b5, x6, y6);
    let (x7, y7) = (
        fingerprint::optional_integer_writes(a.cache_read_tokens),
        fingerprint::optional_integer_writes(b.cache_read_tokens),
    );
    let (a7, b7) = (a6 + x7, b6 + y7);
    fingerprint::lemma_writes_apart_after(a6, b6, x7, y7);
    let (x8, y8) = (
        fingerprint::optional_integer_writes(a.cache_write_tokens),
        fingerprint::optional_integer_writes(b.cache_write_tokens),
    );
    let (a8, b8) = (a7 + x8, b7 + y8);
    fingerprint::lemma_writes_apart_after(a7, b7, x8, y8);
    let (x9, y9) = (
        fingerprint::optional_integer_writes(a.reasoning_tokens),
        fingerprint::optional_integer_writes(b.reasoning_tokens),
    );
    let (a9, b9) = (a8 + x9, b8 + y9);
    fingerprint::lemma_writes_apart_after(a8, b8, x9, y9);
    let (x10, y10) = (
        fingerprint::optional_bits_writes(a.estimated_cost_bits),
        fingerprint::optional_bits_writes(b.estimated_cost_bits),
    );
    let (a10, b10) = (a9 + x10, b9 + y10);
    fingerprint::lemma_writes_apart_after(a9, b9, x10, y10);
    let (x11, y11) = (
        fingerprint::optional_bits_writes(a.actual_cost_bits),
        fingerprint::optional_bits_writes(b.actual_cost_bits),
    );
    let (a11, b11) = (a10 + x11, b10 + y11);
    fingerprint::lemma_writes_apart_after(a10, b10, x11, y11);
    assert(a.writes() == a11 && b.writes() == b11);
}

/// Any difference between the rows of two tables, such as an edit in place of
/// one column of one row, makes a difference in what is hashed.
pub proof fn law_any_edit_changes_what_is_hashed(a: Seq<HermesRow>, b: Seq<HermesRow>)
    requires
        a != b,
    ensures
        session_table::table_writes::<HermesReads>(a).flatten() != session_table::table_writes::<
            HermesReads,
        >(b).flatten(),
        session_table::table_writes::<HermesReads>(a) != session_table::table_writes::<
            HermesReads,
        >(b),
{
    law_row_bytes_give_row_back();
    if session_table::table_writes::<HermesReads>(a).flatten() == session_table::table_writes::<
        HermesReads,
    >(b).flatten() {
        session_table::law_table_bytes_give_rows_back::<HermesReads>(a, b);
    }
}

/// Takes an event of the fingerprinting of a Hermes database, and says what to
/// do next.
pub fn fingerprint_hermes_db(
    state: &mut TableFingerprint<HermesReads>,
    event: DbEvent<HermesReads>,
) -> (action: DbAction)
    ensures
        final(state)@ == old(state)@.after(event),
        action == session_table::stage_action(final(state)@.stage, HERMES_FINGERPRINT_QUERY),
{
    state.take(event, HERMES_FINGERPRINT_QUERY)
}

/// Takes an event of the reading of a Hermes database, and says what to do next
/// and what to log.
pub fn load_state_db_entries<T>(
    scan: &mut RowScan<T>,
    event: DbEvent<Option<T>>,
    db_path: &str,
) -> (turn: ScanTurn)
    ensures
        final(scan)@ == old(scan)@.after(event),
        turn.action == final(scan)@.action(HERMES_SESSION_QUERY),
        turn.log is Some <==> old(scan)@.failure is None && final(scan)@.failure is Some,
        turn.log matches Some(message) ==> message@ == sqlite_util::failure_text(
            final(scan)@.failure->0,
            "Hermes state database"@,
            db_path@,
        ),
{
    scan.take(event, HERMES_SESSION_QUERY, "Hermes state database", db_path)
}

/// What becomes of the entries that were read from the databases, one database
/// after the other.
pub open spec fn arranged(entries: Seq<LoadedEntry>) -> Seq<LoadedEntry> {
    order::time_ordered(session::first_of_each_session(entries))
}

/// A load of the sessions of Hermes.
pub fn load_entries<P, E, M>(shared: &SharedArgs<M>) -> (begun: UsageLoad<P, E>)
    ensures
        begun.agent == UsageLoadAgent::Hermes,
        begun.json == shared.json,
        begun.load@ == LoadView::<P, E>::start(*shared),
        begun.load@.opts.single_thread == shared.single_thread,
        begun.load@.opts.live_only == shared.live_only,
        begun.load@.result is None,
{
    UsageLoad { agent: UsageLoadAgent::Hermes, json: shared.json, load: Load::new(shared) }
}

/// Takes an event of a load, and says what to do next. A
/// session that occurs in several databases is loaded from the first of them.
pub fn load_entries_inner<P, E>(load: &mut Load<P, E>, event: LoadEvent<P, E>) -> (action:
    LoadAction)
    ensures
        final(load)@ == old(load)@.after(
            event,
            None,
            |entries: Seq<LoadedEntry>| arranged(entries),
        ),
        action == final(load)@.action("hermes", Freshness::Fingerprint),
        event matches LoadEvent::Entries(Ok(entries)) ==> (old(load)@.stage == LoadStage::Loading
            ==> (final(load)@.result matches Some(Ok(loaded)) && {
                &&& forall|i: int, j: int|
                    0 <= i <= j < loaded.len() ==> (#[trigger] loaded[i]).timestamp <= (
                    #[trigger] loaded[j]).timestamp
                &&& loaded.to_multiset() == session::first_of_each_session(entries@).to_multiset()
                &&& forall|at: i64| #[trigger]
                    order::at_instant(loaded, at) == order::at_instant(session::first_of_each_session(entries@), at)
                &&& forall|i: int, j: int|
                    0 <= i < j < loaded.len() ==> (#[trigger] loaded[i]).session_id@ != (
                    #[trigger] loaded[j]).session_id@
            })),
{
    proof {
        if let LoadEvent::Entries(Ok(entries)) = &event {
            order::law_time_ordered_is_a_stable_sort(session::first_of_each_session(entries@));
            law_one_entry_for_each_session(entries@);
        }
    }
    let event = match event {
        LoadEvent::Entries(Ok(entries)) => LoadEvent::Entries(
            Ok(order::sort_by_timestamp(session::keep_first_of_each_session(entries))),
        ),
        event => event,
    };
    load.take(event, None, "hermes", Freshness::Fingerprint)
}

/// Of two databases the first decides: what it has of a session is loaded, in
/// the order in which it is loaded alone, and the second adds only sessions that
/// the first does not have.
pub proof fn law_earlier_database_wins(first: Seq<LoadedEntry>, second: Seq<LoadedEntry>)
    ensures
        arranged(first + second).to_multiset() == session::first_of_each_session(
            first,
        ).to_multiset().add(
            session::first_of_each_session(
                session::of_other_sessions(second, session::session_ids(first)),
            ).to_multiset(),
        ),
        order::in_time_order(arranged(first + second)),
        arranged(first + second).filter(
            |entry: LoadedEntry| session::session_ids(first).contains(entry.session_id@),
        ) == arranged(first),
{
    let kept = session::first_of_each_session(first + second);
    let known = session::first_of_each_session(first);
    let added = session::first_of_each_session(
        session::of_other_sessions(second, session::session_ids(first)),
    );
    session::law_earlier_source_wins(first, second);
    order::law_time_ordered_is_a_stable_sort(kept);
    vstd::seq_lib::lemma_multiset_commutative(known, added);
    session::law_earlier_source_is_unchanged(first, second);
    order::law_picking_keeps_the_time_order(
        kept,
        |entry: LoadedEntry| session::session_ids(first).contains(entry.session_id@),
    );
}

/// A load has one entry for each session that occurs in the databases.
pub proof fn law_one_entry_for_each_session(entries: Seq<LoadedEntry>)
    ensures
        session::session_ids(arranged(entries)) == session::session_ids(entries),
        forall|i: int, j: int|
            0 <= i < j < arranged(entries).len() ==> (#[trigger] arranged(entries)[i]).session_id@
                != (#[trigger] arranged(entries)[j]).session_id@,
{
    broadcast use vstd::seq_lib::group_to_multiset_ensures;

    let kept = session::first_of_each_session(entries);
    let loaded = arranged(entries);
    session::law_first_entry_of_each_session_is_kept(entries);
    order::law_time_ordered_is_a_stable_sort(kept);
    assert(kept.no_duplicates()) by {
        assert forall|i: int, j: int| 0 <= i < kept.len() && 0 <= j < kept.len() && i != j implies (
        #[trigger] kept[i]) != (#[trigger] kept[j]) by {
            if i < j {
                assert(kept[i].session_id@ != kept[j].session_id@);
            } else {
                assert(kept[j].session_id@ != kept[i].session_id@);
            }
        }
    }
    kept.lemma_multiset_has_no_duplicates();
    assert(loaded.no_duplicates()) by {
        loaded.lemma_multiset_has_no_duplicates_conv();
    }
    assert forall|entry: LoadedEntry| #[trigger] loaded.contains(entry) <==> kept.contains(
        entry,
    ) by {
        assert(loaded.to_multiset().contains(entry) <==> kept.to_multiset().contains(entry));
    }
    assert forall|i: int, j: int| 0 <= i < j < loaded.len() implies (
    #[trigger] loaded[i]).session_id@ != (#[trigger] loaded[j]).session_id@ by {
        assert(loaded.contains(loaded[i]) && loaded.contains(loaded[j]));
        let k = choose|k: int| 0 <= k < kept.len() && kept[k] == loaded[i];
        let l = choose|l: int| 0 <= l < kept.len() && kept[l] == loaded[j];
        assert(k != l);
        if k < l {
            assert(kept[k].session_id@ != kept[l].session_id@);
        } else {
            assert(kept[l].session_id@ != kept[k].session_id@);
        }
    }
    assert forall|id: Seq<char>|
        session::session_ids(loaded).contains(id) <==> session::session_ids(kept).contains(id) by {
        if session::session_ids(loaded).contains(id) {
            let i = choose|i: int|
                0 <= i < loaded.len() && (#[trigger] loaded[i]).session_id@ == id;
            assert(loaded.contains(loaded[i]));
            let k = choose|k: int| 0 <= k < kept.len() && kept[k] == loaded[i];
            assert(kept[k].session_id@ == id);
        }
        if session::session_ids(kept).contains(id) {
            let k = choose|k: int| 0 <= k < kept.len() && (#[trigger] kept[k]).session_id@ == id;
            assert(kept.contains(kept[k]));
            assert(loaded.contains(kept[k]));
            let i = choose|i: int| 0 <= i < loaded.len() && loaded[i] == kept[k];
            assert(loaded[i].session_id@ == id);
        }
    }
    assert(session::session_ids(loaded) =~= session::session_ids(kept));
}

/// The result of a load of Hermes has the first entry read of each session, in time order:
/// no entry stands behind a later one, and at each instant the entries stand in
/// the order in which they were read.
pub proof fn law_result_of_a_load<P, E, M>(
    shared: SharedArgs<M>,
    paths: Vec<P>,
    entries: Vec<LoadedEntry>,
    at: i64,
)
    ensures
        ({
            let search = None::<FileSearch>;
            let arrange = |entries: Seq<LoadedEntry>| arranged(entries);
            let load = LoadView::<P, E>::start(shared).after(
                LoadEvent::Paths(Ok(paths)),
                search,
                arrange,
            ).after(LoadEvent::Entries(Ok(entries)), search, arrange);
            &&& load.result matches Some(Ok(loaded))
            &&& forall|i: int, j: int|
                0 <= i <= j < loaded.len() ==> (#[trigger] loaded[i]).timestamp <= (
                #[trigger] loaded[j]).timestamp
            &&& loaded.to_multiset() == session::first_of_each_session(entries@).to_multiset()
            &&& loaded.filter(|entry: LoadedEntry| entry.timestamp == at) == session::first_of_each_session(entries@).filter(
                |entry: LoadedEntry| entry.timestamp == at,
            )
        }),
{
    order::law_time_order_keeps_entries_and_instants(session::first_of_each_session(entries@), at);
}

/// A row of Hermes is fingerprinted if and only if each column that it must have was
/// read.
pub proof fn law_row_is_complete_or_not(reads: HermesReads)
    ensures
        reads.row() is Some <==> {
            &&& reads.id is Some
            &&& reads.model is Some
            &&& reads.started_at_bits is Some
            &&& reads.message_count is Some
            &&& reads.input_tokens is Some
            &&& reads.output_tokens is Some
            &&& reads.cache_read_tokens is Some
            &&& reads.cache_write_tokens is Some
            &&& reads.reasoning_tokens is Some
            &&& reads.estimated_cost_bits is Some
            &&& reads.actual_cost_bits is Some
        },
{
}

/// What is fingerprinted of a row of Hermes has each of its columns: where two rows
/// have the same of it, they have the same columns, and the other way round.
pub proof fn law_row_has_each_column(a: HermesReads, b: HermesReads)
    requires
        a.row() is Some,
        b.row() is Some,
    ensures
        a.row() == b.row() <==> {
            &&& a.id->0@ == b.id->0@
            &&& a.model->0@ == b.model->0@
            &&& (a.billing_provider is Some <==> b.billing_provider is Some)
            &&& (a.billing_provider is Some ==> a.billing_provider->0@ == b.billing_provider->0@)
            &&& a.started_at_bits == b.started_at_bits
            &&& a.message_count == b.message_count
            &&& a.input_tokens == b.input_tokens
            &&& a.output_tokens == b.output_tokens
            &&& a.cache_read_tokens == b.cache_read_tokens
            &&& a.cache_write_tokens == b.cache_write_tokens
            &&& a.reasoning_tokens == b.reasoning_tokens
            &&& a.estimated_cost_bits == b.estimated_cost_bits
            &&& a.actual_cost_bits == b.actual_cost_bits
        },
{
}

/// The bytes that are hashed of a table of Hermes give each column of each of its
/// rows back: where they are the same of two tables, these have as many rows, and
/// the same columns in each of them. So an edit of any column of any row, and a
/// row more or less, makes a difference in what is hashed.
pub proof fn law_hashed_bytes_give_each_column_back(
    a: Seq<HermesReads>,
    end_a: DbEvent<HermesReads>,
    b: Seq<HermesReads>,
    end_b: DbEvent<HermesReads>,
)
    requires
        forall|i: int| 0 <= i < a.len() ==> (#[trigger] a[i]).row() is Some,
        forall|i: int| 0 <= i < b.len() ==> (#[trigger] b[i]).row() is Some,
        !(end_a matches DbEvent::Stepped(DbStep::Row(_))),
        !(end_b matches DbEvent::Stepped(DbStep::Row(_))),
        ({
            let hashed_a = TableFingerprintView::start().after_all(
                session_table::table_found::<HermesReads>() + session_table::rows_met(a) + seq![end_a],
            ).written.flatten();
            let hashed_b = TableFingerprintView::start().after_all(
                session_table::table_found::<HermesReads>() + session_table::rows_met(b) + seq![end_b],
            ).written.flatten();
            hashed_a == hashed_b
        }),
    ensures
        a.len() == b.len(),
        forall|i: int| #![trigger a[i]] #![trigger b[i]] 0 <= i < a.len() ==> {
            &&& a[i].id->0@ == b[i].id->0@
            &&& a[i].model->0@ == b[i].model->0@
            &&& (a[i].billing_provider is Some <==> b[i].billing_provider is Some)
            &&& (a[i].billing_provider is Some ==> a[i].billing_provider->0@ == b[i].billing_provider->0@)
            &&& a[i].started_at_bits == b[i].started_at_bits
            &&& a[i].message_count == b[i].message_count
            &&& a[i].input_tokens == b[i].input_tokens
            &&& a[i].output_tokens == b[i].output_tokens
            &&& a[i].cache_read_tokens == b[i].cache_read_tokens
            &&& a[i].cache_write_tokens == b[i].cache_write_tokens
            &&& a[i].reasoning_tokens == b[i].reasoning_tokens
            &&& a[i].estimated_cost_bits == b[i].estimated_cost_bits
            &&& a[i].actual_cost_bits == b[i].actual_cost_bits
        },
{
    let (rows_a, rows_b) = (session_table::rows_of(a), session_table::rows_of(b));
    let found = session_table::table_found::<HermesReads>();
    session_table::law_fingerprint_is_that_of_the_rows(a, end_a, Seq::empty());
    session_table::law_fingerprint_is_that_of_the_rows(b, end_b, Seq::empty());
    assert(found + session_table::rows_met(a) + seq![end_a] + Seq::empty() =~= found
        + session_table::rows_met(a) + seq![end_a]);
    assert(found + session_table::rows_met(b) + seq![end_b] + Seq::empty() =~= found
        + session_table::rows_met(b) + seq![end_b]);
    law_row_bytes_give_row_back();
    session_table::law_table_bytes_give_rows_back::<HermesReads>(rows_a, rows_b);
    assert forall|i: int| #![trigger a[i]] #![trigger b[i]] 0 <= i < a.len() implies {
        &&& a[i].id->0@ == b[i].id->0@
        &&& a[i].model->0@ == b[i].model->0@
        &&& (a[i].billing_provider is Some <==> b[i].billing_provider is Some)
        &&& (a[i].billing_provider is Some ==> a[i].billing_provider->0@ == b[i].billing_provider->0@)
        &&& a[i].started_at_bits == b[i].started_at_bits
        &&& a[i].message_count == b[i].message_count
        &&& a[i].input_tokens == b[i].input_tokens
        &&& a[i].output_tokens == b[i].output_tokens
        &&& a[i].cache_read_tokens == b[i].cache_read_tokens
        &&& a[i].cache_write_tokens == b[i].cache_write_tokens
        &&& a[i].reasoning_tokens == b[i].reasoning_tokens
        &&& a[i].estimated_cost_bits == b[i].estimated_cost_bits
        &&& a[i].actual_cost_bits == b[i].actual_cost_bits
    } by {
        assert(rows_a[i] == rows_b[i]);
        assert(a[i].row() is Some && b[i].row() is Some);
        law_row_has_each_column(a[i], b[i]);
    }
}

/// A Hermes database whose rows are complete and have the same columns as before has
/// the same fingerprint as before.
pub proof fn law_same_columns_give_the_same_fingerprint(
    a: Seq<HermesReads>,
    end_a: DbEvent<HermesReads>,
    b: Seq<HermesReads>,
    end_b: DbEvent<HermesReads>,
)
    requires
        a.len() == b.len(),
        forall|i: int| 0 <= i < a.len() ==> (#[trigger] a[i]).row() is Some,
        forall|i: int| #![trigger a[i]] #![trigger b[i]] 0 <= i < a.len() ==> b[i].row() is Some && {
            &&& a[i].id->0@ == b[i].id->0@
            &&& a[i].model->0@ == b[i].model->0@
            &&& (a[i].billing_provider is Some <==> b[i].billing_provider is Some)
            &&& (a[i].billing_provider is Some ==> a[i].billing_provider->0@ == b[i].billing_provider->0@)
            &&& a[i].started_at_bits == b[i].started_at_bits
            &&& a[i].message_count == b[i].message_count
            &&& a[i].input_tokens == b[i].input_tokens
            &&& a[i].output_tokens == b[i].output_tokens
            &&& a[i].cache_read_tokens == b[i].cache_read_tokens
            &&& a[i].cache_write_tokens == b[i].cache_write_tokens
            &&& a[i].reasoning_tokens == b[i].reasoning_tokens
            &&& a[i].estimated_cost_bits == b[i].estimated_cost_bits
            &&& a[i].actual_cost_bits == b[i].actual_cost_bits
        },
        !(end_a matches DbEvent::Stepped(DbStep::Row(_))),
        !(end_b matches DbEvent::Stepped(DbStep::Row(_))),
    ensures
        ({
            let fingerprint_a = TableFingerprintView::start().after_all(
                session_table::table_found::<HermesReads>() + session_table::rows_met(a) + seq![end_a],
            ).result;
            let fingerprint_b = TableFingerprintView::start().after_all(
                session_table::table_found::<HermesReads>() + session_table::rows_met(b) + seq![end_b],
            ).result;
            fingerprint_a is Some && fingerprint_a == fingerprint_b
        }),
{
    let found = session_table::table_found::<HermesReads>();
    assert forall|i: int| 0 <= i < a.len() implies (#[trigger] a[i]).row() == b[i].row() by {
        law_row_has_each_column(a[i], b[i]);
    }
    assert(found + session_table::rows_met(a) + seq![end_a] + Seq::empty() =~= found
        + session_table::rows_met(a) + seq![end_a]);
    assert(found + session_table::rows_met(b) + seq![end_b] + Seq::empty() =~= found
        + session_table::rows_met(b) + seq![end_b]);
    session_table::law_complete_tables_have_a_fingerprint(a, end_a, Seq::empty());
    session_table::law_same_rows_give_the_same_fingerprint(
        a,
        end_a,
        Seq::empty(),
        b,
        end_b,
        Seq::empty(),
    );
}

/// A Hermes database whose table was found has a fingerprint if and only if each
/// column that a row must have was read of each row.
pub proof fn law_fingerprint_needs_each_required_column(reads: Seq<HermesReads>, end: DbEvent<HermesReads>)
    requires
        !(end matches DbEvent::Stepped(DbStep::Row(_))),
    ensures
        TableFingerprintView::start().after_all(
                session_table::table_found::<HermesReads>() + session_table::rows_met(reads) + seq![end],
            ).result is Some <==> (forall|i: int|
            #![trigger reads[i]]
            0 <= i < reads.len() ==> {
                &&& reads[i].id is Some
                &&& reads[i].model is Some
                &&& reads[i].started_at_bits is Some
                &&& reads[i].message_count is Some
                &&& reads[i].input_tokens is Some
                &&& reads[i].output_tokens is Some
                &&& reads[i].cache_read_tokens is Some
                &&& reads[i].cache_write_tokens is Some
                &&& reads[i].reasoning_tokens is Some
                &&& reads[i].estimated_cost_bits is Some
                &&& reads[i].actual_cost_bits is Some
            }),
{
    let met = session_table::table_found::<HermesReads>() + session_table::rows_met(reads) + seq![end];
    assert(met + Seq::empty() =~= met);
    session_table::law_complete_tables_have_a_fingerprint(reads, end, Seq::empty());
    assert forall|i: int| #![trigger reads[i]] 0 <= i < reads.len() implies (reads[i].row() is Some
        <==> {
        &&& reads[i].id is Some
        &&& reads[i].model is Some
        &&& reads[i].started_at_bits is Some
        &&& reads[i].message_count is Some
        &&& reads[i].input_tokens is Some
        &&& reads[i].output_tokens is Some
        &&& reads[i].cache_read_tokens is Some
        &&& reads[i].cache_write_tokens is Some
        &&& reads[i].reasoning_tokens is Some
        &&& reads[i].estimated_cost_bits is Some
        &&& reads[i].actual_cost_bits is Some
    }) by {
        law_row_is_complete_or_not(reads[i]);
    }
}

/// What is hashed of a row of Hermes, column by column: a text as UTF-8 with the byte
/// `ff` behind it, a number as its eight bytes, the least first, and a column that
/// may be missing with the number 1 before it, or else as the number 0.
pub proof fn law_columns_are_hashed_in_order(state: TableFingerprintView, reads: HermesReads)
    requires
        state.stage == FingerprintStage::Stepping,
        reads.row() is Some,
    ensures
        ({
            let number = |value: u64| seq![vstd::bytes::spec_u64_to_le_bytes(value)];
            let text = |value: Seq<char>| seq![vstd::utf8::encode_utf8(value), seq![0xffu8]];
            let as_bits = |value: Option<i64>|
                match value {
                    Some(present) => Some(present as u64),
                    None => None,
                };
            let optional = |value: Option<u64>|
                match value {
                    Some(present) => number(1) + number(present),
                    None => number(0),
                };
            let optional_text = |value: Option<String>|
                match value {
                    Some(present) => number(1) + text(present@),
                    None => number(0),
                };
            state.after(DbEvent::Stepped(DbStep::Row(reads))).written == state.written + (
            text(reads.id->0@)
                + text(reads.model->0@)
                + optional_text(reads.billing_provider)
                + optional(reads.started_at_bits->0)
                + optional(as_bits(reads.message_count->0))
                + optional(as_bits(reads.input_tokens->0))
                + optional(as_bits(reads.output_tokens->0))
                + optional(as_bits(reads.cache_read_tokens->0))
                + optional(as_bits(reads.cache_write_tokens->0))
                + optional(as_bits(reads.reasoning_tokens->0))
                + optional(reads.estimated_cost_bits->0)
                + optional(reads.actual_cost_bits->0))
        }),
{
}

/// Behind the rows nothing more is hashed, and the fingerprint is the hash of
/// what was written of them.
pub proof fn law_end_of_the_rows(state: TableFingerprintView, end: DbEvent<HermesReads>)
    requires
        state.stage == FingerprintStage::Stepping,
        !(end matches DbEvent::Stepped(DbStep::Row(_))),
    ensures
        state.after(end).written == state.written,
        state.after(end).result == Some(
            <DefaultHasher as vstd::std_specs::hash::DefaultHasherAdditionalSpecFns>::spec_finish(
            state.written),
        ),
{
    assert(state.after(end).written =~= state.written);
}

/// What is fingerprinted is each column that is read when the sessions are loaded,
/// in the same order. Either is read of the sessions that have a model, and what
/// is fingerprinted in the order of their identifiers.
pub proof fn law_fingerprint_reads_what_is_loaded()
    ensures
        ({
            let columns = |between: Seq<char>|
                "id"@ + between
                    + "model"@ + between
                    + "billing_provider"@ + between
                    + "started_at"@ + between
                    + "message_count"@ + between
                    + "input_tokens"@ + between
                    + "output_tokens"@ + between
                    + "cache_read_tokens"@ + between
                    + "cache_write_tokens"@ + between
                    + "reasoning_tokens"@ + between
                    + "estimated_cost_usd"@ + between
                    + "actual_cost_usd"@;
            &&& HERMES_FINGERPRINT_QUERY@ == "SELECT "@ + columns(", "@)
                + " FROM sessions WHERE model IS NOT NULL AND TRIM(model) != '' ORDER BY id"@
            &&& HERMES_SESSION_QUERY@ == "\n            SELECT\n                "@ + columns(",\n                "@)
                + "\n            FROM sessions\n            WHERE model IS NOT NULL\n                AND TRIM(model) != ''\n        "@
        }),
{
    reveal_strlit("SELECT ");
    reveal_strlit(", ");
    reveal_strlit(" FROM sessions WHERE model IS NOT NULL AND TRIM(model) != '' ORDER BY id");
    reveal_strlit("\n            SELECT\n                ");
    reveal_strlit(",\n                ");
    reveal_strlit("\n            FROM sessions\n            WHERE model IS NOT NULL\n                AND TRIM(model) != ''\n        ");
    reveal_strlit("id");
    reveal_strlit("model");
    reveal_strlit("billing_provider");
    reveal_strlit("started_at");
    reveal_strlit("message_count");
    reveal_strlit("input_tokens");
    reveal_strlit("output_tokens");
    reveal_strlit("cache_read_tokens");
    reveal_strlit("cache_write_tokens");
    reveal_strlit("reasoning_tokens");
    reveal_strlit("estimated_cost_usd");
    reveal_strlit("actual_cost_usd");
    reveal_strlit("SELECT id, model, billing_provider, started_at, message_count, input_tokens, output_tokens, cache_read_tokens, cache_write_tokens, reasoning_tokens, estimated_cost_usd, actual_cost_usd FROM sessions WHERE model IS NOT NULL AND TRIM(model) != '' ORDER BY id");
    reveal_strlit("\n            SELECT\n                id,\n                model,\n                billing_provider,\n                started_at,\n                message_count,\n                input_tokens,\n                output_tokens,\n                cache_read_tokens,\n                cache_write_tokens,\n                reasoning_tokens,\n                estimated_cost_usd,\n                actual_cost_usd\n            FROM sessions\n            WHERE model IS NOT NULL\n                AND TRIM(model) != ''\n        ");
}

} // verus!
