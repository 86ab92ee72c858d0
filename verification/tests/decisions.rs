//! What is decided on given outcomes, without files or databases.
use ccusage::adapter::goose::{self, GooseReads, GOOSE_FINGERPRINT_QUERY, GOOSE_SESSION_QUERY};
use ccusage::adapter::session_table::{TableFingerprint, SESSION_TABLE_QUERY};
use ccusage::adapter::sqlite_util::{read_id_session_data, DbAction, DbEvent, DbStep, RowScan};
use ccusage::adapter::{amp, hermes};
use ccusage::entry::{CacheCreation, LoadedEntry, TokenUsageRaw, UsageData, UsageMessage};
use ccusage::load::{
    CacheOpts, CachePlan, FileSearch, Freshness, Load, LoadAction, LoadEvent, SharedArgs,
    UsageLoad, UsageLoadAgent,
};
use ccusage::order::sort_by_timestamp;
use ccusage::session::keep_first_of_each_session;

const SHARED: SharedArgs<u8> = SharedArgs {
    json: true,
    single_thread: true,
    live_only: false,
    mode: 3,
};

fn entry(session_id: &str, timestamp: i64, input_tokens: u64) -> LoadedEntry {
    LoadedEntry {
        data: UsageData {
            message: UsageMessage {
                usage: TokenUsageRaw {
                    input_tokens,
                    output_tokens: 0,
                    cache_creation_input_tokens: 0,
                    cache_read_input_tokens: 0,
                    cache_creation: None,
                },
                model: None,
            },
        },
        timestamp,
        date: String::new(),
        session_id: session_id.to_string(),
        model: None,
        extra_total_tokens: 0,
        message_count: None,
        cost_bits: 0,
        missing_pricing_model: None,
    }
}

fn shape(entries: &[LoadedEntry]) -> Vec<(String, i64, u64)> {
    entries
        .iter()
        .map(|entry| {
            (
                entry.session_id.clone(),
                entry.timestamp,
                entry.data.message.usage.input_tokens,
            )
        })
        .collect()
}

fn some(value: &str) -> Option<String> {
    Some(value.to_string())
}

fn reads(id: Option<&str>) -> GooseReads {
    GooseReads {
        id: id.map(str::to_string),
        model_config: some("{}"),
        provider: None,
        created_at: some("now"),
        total: None,
        input: Some(1),
        output: Some(-1),
        accumulated_total: None,
        accumulated_input: None,
        accumulated_output: None,
    }
}

#[test]
fn sorting_keeps_the_order_of_one_instant() {
    let sorted = sort_by_timestamp(vec![
        entry("a", 5, 1),
        entry("b", -3, 2),
        entry("c", 5, 3),
        entry("d", 0, 4),
        entry("e", -3, 5),
        entry("f", i64::MAX, 6),
        entry("g", i64::MIN, 7),
    ]);
    let order: Vec<String> = sorted.into_iter().map(|entry| entry.session_id).collect();
    assert_eq!(order, ["g", "b", "e", "d", "a", "c", "f"]);
}

#[test]
fn sorting_many_entries_agrees_with_a_stable_sort() {
    let mut state: u64 = 12345;
    let mut entries = Vec::new();
    let mut expected = Vec::new();
    for i in 0..500u64 {
        state = state.wrapping_mul(6364136223846793005).wrapping_add(1442695040888963407);
        let at = (state >> 60) as i64;
        entries.push(entry("s", at, i));
        expected.push((at, i));
    }
    expected.sort_by_key(|pair| pair.0);
    let sorted: Vec<(i64, u64)> = sort_by_timestamp(entries)
        .iter()
        .map(|entry| (entry.timestamp, entry.data.message.usage.input_tokens))
        .collect();
    assert_eq!(sorted, expected);
}

#[test]
fn sorting_nothing_gives_nothing() {
    assert!(sort_by_timestamp(Vec::new()).is_empty());
}

#[test]
fn first_entry_of_a_session_is_kept() {
    let kept = keep_first_of_each_session(vec![
        entry("a", 9, 1),
        entry("b", 8, 2),
        entry("a", 7, 3),
        entry("", 6, 4),
        entry("b", 5, 5),
        entry("", 4, 6),
        entry("A", 3, 7),
    ]);
    assert_eq!(
        shape(&kept),
        [
            ("a".to_string(), 9, 1),
            ("b".to_string(), 8, 2),
            (String::new(), 6, 4),
            ("A".to_string(), 3, 7),
        ]
    );
}

#[test]
fn id_session_and_data_are_all_needed() {
    assert_eq!(
        read_id_session_data(some("i"), some("s"), some("d")),
        Some(("i".to_string(), "s".to_string(), "d".to_string()))
    );
    assert_eq!(read_id_session_data(None, some("s"), some("d")), None);
    assert_eq!(read_id_session_data(some("i"), None, some("d")), None);
    assert_eq!(read_id_session_data(some("i"), some("s"), None), None);
}

#[test]
fn scan_gathers_rows_and_passes_over_those_without_entry() {
    let mut scan = RowScan::new();
    let turn = goose::load_entries_from_db(&mut scan, DbEvent::Opened(true), "p");
    assert_eq!(turn.action, DbAction::Prepare(GOOSE_SESSION_QUERY));
    assert_eq!(turn.log, None);
    let turn = goose::load_entries_from_db(&mut scan, DbEvent::Prepared(true), "p");
    assert_eq!(turn.action, DbAction::Step);
    for row in [Some(entry("a", 1, 1)), None, Some(entry("a", 2, 2))] {
        let event = DbEvent::Stepped(DbStep::Row(row));
        let turn = goose::load_entries_from_db(&mut scan, event, "p");
        assert_eq!(turn.action, DbAction::Step);
        assert_eq!(turn.log, None);
    }
    let turn = goose::load_entries_from_db(&mut scan, DbEvent::Stepped(DbStep::Done), "p");
    assert_eq!(turn.action, DbAction::Stop);
    assert_eq!(turn.log, None);
    let entries = goose::database_entries(scan);
    assert_eq!(shape(&entries), [("a".to_string(), 1, 1)]);
}

#[test]
fn scan_that_cannot_open_logs_and_stops() {
    let mut scan: RowScan<LoadedEntry> = RowScan::new();
    let turn = goose::load_entries_from_db(&mut scan, DbEvent::Opened(false), "/g.db");
    assert_eq!(turn.action, DbAction::Stop);
    assert_eq!(turn.log, some("Failed to open Goose database: /g.db"));
    let turn = goose::load_entries_from_db(&mut scan, DbEvent::Opened(true), "/g.db");
    assert_eq!(turn.action, DbAction::Stop);
    assert_eq!(turn.log, None);
    assert!(scan.into_entries().is_empty());
}

#[test]
fn scan_that_cannot_prepare_logs_and_stops() {
    let mut scan: RowScan<u8> = RowScan::new();
    hermes::load_state_db_entries(&mut scan, DbEvent::Opened(true), "/h.db");
    let turn = hermes::load_state_db_entries(&mut scan, DbEvent::Prepared(false), "/h.db");
    assert_eq!(turn.action, DbAction::Stop);
    assert_eq!(
        turn.log,
        some("Failed to read Hermes state database: /h.db")
    );
    assert!(scan.into_entries().is_empty());
}

#[test]
fn scan_that_fails_later_keeps_what_it_has() {
    let mut scan: RowScan<u8> = RowScan::new();
    hermes::load_state_db_entries(&mut scan, DbEvent::Opened(true), "/h.db");
    hermes::load_state_db_entries(&mut scan, DbEvent::Prepared(true), "/h.db");
    let row = DbEvent::Stepped(DbStep::Row(Some(7u8)));
    hermes::load_state_db_entries(&mut scan, row, "/h.db");
    let failed = DbEvent::Stepped(DbStep::Failed);
    let turn = hermes::load_state_db_entries(&mut scan, failed, "/h.db");
    assert_eq!(turn.action, DbAction::Stop);
    assert_eq!(
        turn.log,
        some("Failed to query Hermes state database: /h.db")
    );
    assert_eq!(scan.into_entries(), [7u8]);
}

#[test]
fn fingerprinting_asks_for_the_table_first() {
    let mut state = TableFingerprint::new();
    let mut ask = |event| goose::fingerprint_goose_db(&mut state, event);
    assert_eq!(
        ask(DbEvent::Opened(true)),
        DbAction::Prepare(SESSION_TABLE_QUERY)
    );
    assert_eq!(ask(DbEvent::Prepared(true)), DbAction::Probe);
    assert_eq!(
        ask(DbEvent::Probed(DbStep::Row(()))),
        DbAction::Prepare(GOOSE_FINGERPRINT_QUERY)
    );
    assert_eq!(ask(DbEvent::Prepared(true)), DbAction::Step);
    assert_eq!(
        ask(DbEvent::Stepped(DbStep::Row(reads(Some("a"))))),
        DbAction::Step
    );
    assert_eq!(ask(DbEvent::Stepped(DbStep::Done)), DbAction::Stop);
    assert_eq!(state.count(), 1);
    assert!(state.result().is_some());
}

#[test]
fn fingerprinting_stops_at_the_first_failure() {
    for failing in 0..4 {
        let mut state = TableFingerprint::new();
        let mut ask = |event| goose::fingerprint_goose_db(&mut state, event);
        let mut last = ask(DbEvent::Opened(failing != 0));
        if failing > 0 {
            last = ask(DbEvent::Prepared(failing != 1));
        }
        if failing > 1 {
            let step = if failing == 2 { DbStep::Failed } else { DbStep::Row(()) };
            last = ask(DbEvent::Probed(step));
        }
        if failing > 2 {
            last = ask(DbEvent::Prepared(false));
        }
        assert_eq!(last, DbAction::Stop);
        assert_eq!(ask(DbEvent::Stepped(DbStep::Done)), DbAction::Stop);
        assert_eq!(state.result(), None);
    }
}

fn goose_result(rows: Vec<GooseReads>, end: DbStep<GooseReads>) -> Option<u64> {
    let mut state = TableFingerprint::new();
    goose::fingerprint_goose_db(&mut state, DbEvent::Opened(true));
    goose::fingerprint_goose_db(&mut state, DbEvent::Prepared(true));
    goose::fingerprint_goose_db(&mut state, DbEvent::Probed(DbStep::Row(())));
    goose::fingerprint_goose_db(&mut state, DbEvent::Prepared(true));
    for row in rows {
        goose::fingerprint_goose_db(&mut state, DbEvent::Stepped(DbStep::Row(row)));
    }
    goose::fingerprint_goose_db(&mut state, DbEvent::Stepped(end));
    state.result()
}

#[test]
fn failing_step_ends_the_rows() {
    let done = goose_result(vec![reads(Some("a"))], DbStep::Done);
    assert!(done.is_some());
    assert_eq!(goose_result(vec![reads(Some("a"))], DbStep::Failed), done);
}

#[test]
fn unreadable_identifier_leaves_no_fingerprint() {
    let rows = vec![reads(Some("a")), reads(None)];
    assert_eq!(goose_result(rows, DbStep::Done), None);
}

#[test]
fn every_column_counts_in_the_fingerprint() {
    let base = goose_result(vec![reads(Some("a"))], DbStep::Done);
    let edits: [fn(&mut GooseReads); 10] = [
        |row| row.id = some("b"),
        |row| row.model_config = some("{ }"),
        |row| row.provider = some(""),
        |row| row.created_at = some("later"),
        |row| row.total = Some(0),
        |row| row.input = Some(2),
        |row| row.output = None,
        |row| row.accumulated_total = Some(0),
        |row| row.accumulated_input = Some(0),
        |row| row.accumulated_output = Some(0),
    ];
    for edit in edits {
        let mut row = reads(Some("a"));
        edit(&mut row);
        assert_ne!(goose_result(vec![row], DbStep::Done), base);
    }
}

#[test]
fn amp_load_collects_thread_files() {
    let begun: UsageLoad<&str, &str> = amp::load_entries(&SHARED);
    assert_eq!(begun.agent, UsageLoadAgent::Amp);
    assert!(begun.json);
    let mut load = begun.load;
    let action = amp::load_entries_inner(&mut load, LoadEvent::Paths(Ok(vec!["x", "y"])));
    assert_eq!(
        action,
        LoadAction::CollectFiles(FileSearch {
            subdirectory: "threads",
            extension: "json",
        })
    );
    assert_eq!(load.sources(), &["x", "y"]);
    let files = vec!["x/threads/1.json", "y/threads/2.json"];
    let action = amp::load_entries_inner(&mut load, LoadEvent::Files(files.clone()));
    assert_eq!(
        action,
        LoadAction::LoadWithCache(CachePlan {
            cache: "amp",
            opts: CacheOpts {
                single_thread: true,
                live_only: false,
            },
            freshness: Freshness::FileStat,
        })
    );
    assert_eq!(load.sources(), &files);
    let entries = vec![entry("a", 2, 1), entry("a", 1, 2), entry("a", 2, 3)];
    let action = amp::load_entries_inner(&mut load, LoadEvent::Entries(Ok(entries)));
    assert_eq!(action, LoadAction::Finish);
    let loaded = load.into_result().unwrap().unwrap();
    assert_eq!(
        shape(&loaded),
        [
            ("a".to_string(), 1, 2),
            ("a".to_string(), 2, 1),
            ("a".to_string(), 2, 3),
        ]
    );
}

#[test]
fn errors_of_a_load_are_handed_on() {
    let mut load: Load<u8, &str> = goose::load_entries(&SHARED).load;
    let action = goose::load_entries_inner(&mut load, LoadEvent::Paths(Err("no home")));
    assert_eq!(action, LoadAction::Finish);
    assert_eq!(load.into_result().unwrap().unwrap_err(), "no home");

    let mut load: Load<u8, &str> = hermes::load_entries(&SHARED).load;
    hermes::load_entries_inner(&mut load, LoadEvent::Paths(Ok(vec![1])));
    let action = hermes::load_entries_inner(&mut load, LoadEvent::Entries(Err("bad cache")));
    assert_eq!(action, LoadAction::Finish);
    assert_eq!(load.into_result().unwrap().unwrap_err(), "bad cache");
}

#[test]
fn outcome_that_was_not_asked_for_changes_nothing() {
    let mut load: Load<u8, &str> = hermes::load_entries(&SHARED).load;
    let action = hermes::load_entries_inner(&mut load, LoadEvent::Files(vec![1]));
    assert_eq!(action, LoadAction::FindPaths);
    assert!(load.sources().is_empty());
    assert!(load.into_result().is_none());
}

#[test]
fn hermes_load_sorts_after_it_has_chosen() {
    let mut load: Load<u8, &str> = hermes::load_entries(&SHARED).load;
    hermes::load_entries_inner(&mut load, LoadEvent::Paths(Ok(vec![1, 2])));
    let entries = vec![
        entry("late", 30, 1),
        entry("both", 20, 2),
        entry("both", 10, 3),
        entry("early", 5, 4),
    ];
    hermes::load_entries_inner(&mut load, LoadEvent::Entries(Ok(entries)));
    let loaded = load.into_result().unwrap().unwrap();
    assert_eq!(
        shape(&loaded),
        [
            ("early".to_string(), 5, 4),
            ("both".to_string(), 20, 2),
            ("late".to_string(), 30, 1),
        ]
    );
}

#[test]
fn hermes_load_keeps_the_order_of_the_earlier_database() {
    let mut load: Load<u8, &str> = hermes::load_entries(&SHARED).load;
    hermes::load_entries_inner(&mut load, LoadEvent::Paths(Ok(vec![1, 2])));
    let entries = vec![
        entry("b", 7, 1),
        entry("a", 7, 2),
        entry("new", 7, 3),
        entry("a", 1, 4),
    ];
    hermes::load_entries_inner(&mut load, LoadEvent::Entries(Ok(entries)));
    let loaded = load.into_result().unwrap().unwrap();
    let order: Vec<&str> = loaded.iter().map(|entry| entry.session_id.as_str()).collect();
    assert_eq!(order, ["b", "a", "new"]);
}

#[test]
fn amp_bills_reasoning_as_output() {
    let mut thread = entry("a", 1, 10);
    thread.data.message.model = some("m");
    thread.data.message.usage.output_tokens = 5;
    thread.data.message.usage.cache_creation = Some(CacheCreation {
        ephemeral_5m_input_tokens: 1,
        ephemeral_1h_input_tokens: 2,
    });
    thread.extra_total_tokens = 7;
    let question = amp::cost_question(&thread, &SHARED, &"prices");
    assert_eq!(question.mode, 3);
    assert_eq!(*question.pricing, "prices");
    assert_eq!(question.model, Some("m"));
    assert_eq!(question.logged_cost_bits, None);
    assert_eq!(
        question.usage,
        TokenUsageRaw {
            input_tokens: 10,
            output_tokens: 12,
            cache_creation_input_tokens: 0,
            cache_read_input_tokens: 0,
            cache_creation: None,
        }
    );
    thread.extra_total_tokens = u64::MAX;
    assert_eq!(amp::cost_question(&thread, &SHARED, &())
        .usage.output_tokens, u64::MAX);
}

#[test]
fn repricing_sets_the_cost_and_the_missing_model() {
    let mut thread = entry("a", 1, 10);
    amp::reprice(&mut thread, 1.5f64.to_bits(), some("m"));
    assert_eq!(f64::from_bits(thread.cost_bits), 1.5);
    assert_eq!(thread.missing_pricing_model, some("m"));
    amp::reprice(&mut thread, 2.5f64.to_bits(), None);
    assert_eq!(f64::from_bits(thread.cost_bits), 2.5);
    assert_eq!(thread.missing_pricing_model, None);
    assert_eq!(shape(&[thread]), [("a".to_string(), 1, 10)]);
}
