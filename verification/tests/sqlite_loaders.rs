//! The SQLite loaders, run on databases in memory.
use std::collections::hash_map::DefaultHasher;
use std::hash::{Hash, Hasher};

use ccusage::adapter::goose::{self, GooseReads};
use ccusage::adapter::hermes::{self, HermesReads};
use ccusage::adapter::session_table::TableFingerprint;
use ccusage::adapter::sqlite_util::{DbAction, DbEvent, DbStep, RowScan};
use ccusage::entry::{LoadedEntry, TokenUsageRaw, UsageData, UsageMessage};
use ccusage::load::{Freshness, LoadAction, LoadEvent, SharedArgs, UsageLoad, UsageLoadAgent};
use jiff::tz::TimeZone;

const SHARED: SharedArgs<()> = SharedArgs {
    json: false,
    single_thread: false,
    live_only: false,
    mode: (),
};

fn step<R>(
    statement: &mut Option<sqlite::Statement<'_>>,
    read: impl FnOnce(&sqlite::Statement<'_>) -> R,
) -> DbStep<R> {
    let statement = statement.as_mut().unwrap();
    match statement.next() {
        Ok(sqlite::State::Row) => DbStep::Row(read(statement)),
        Ok(sqlite::State::Done) => DbStep::Done,
        Err(_) => DbStep::Failed,
    }
}

/// Answers what is asked of a database until nothing more is asked.
fn answer<R>(
    db: &sqlite::Connection,
    read: impl Fn(&sqlite::Statement<'_>) -> R,
    mut ask: impl FnMut(DbEvent<R>) -> DbAction,
) {
    let mut statement = None;
    let mut action = DbAction::Open;
    loop {
        let event = match action {
            DbAction::Open => DbEvent::Opened(true),
            DbAction::Prepare(query) => {
                statement = db.prepare(query).ok();
                DbEvent::Prepared(statement.is_some())
            }
            DbAction::Probe => DbEvent::Probed(step(&mut statement, |_| ())),
            DbAction::Step => DbEvent::Stepped(step(&mut statement, &read)),
            DbAction::Stop => break,
        };
        action = ask(event);
    }
}

fn text(statement: &sqlite::Statement<'_>, column: usize) -> Option<String> {
    statement.read::<String, _>(column).ok()
}

fn integer(statement: &sqlite::Statement<'_>, column: usize) -> Option<Option<i64>> {
    statement.read(column).ok()
}

fn double_bits(statement: &sqlite::Statement<'_>, column: usize) -> Option<Option<u64>> {
    let number: Option<f64> = statement.read(column).ok()?;
    Some(number.map(f64::to_bits))
}

fn count(statement: &sqlite::Statement<'_>, column: usize) -> Option<u64> {
    integer(statement, column)?.map(|number| number as u64)
}

fn goose_reads(statement: &sqlite::Statement<'_>) -> GooseReads {
    GooseReads {
        id: text(statement, 0),
        model_config: text(statement, 1),
        provider: text(statement, 2),
        created_at: text(statement, 3),
        total: integer(statement, 4).flatten(),
        input: integer(statement, 5).flatten(),
        output: integer(statement, 6).flatten(),
        accumulated_total: integer(statement, 7).flatten(),
        accumulated_input: integer(statement, 8).flatten(),
        accumulated_output: integer(statement, 9).flatten(),
    }
}

fn hermes_reads(statement: &sqlite::Statement<'_>) -> HermesReads {
    HermesReads {
        id: text(statement, 0),
        model: text(statement, 1),
        billing_provider: text(statement, 2),
        started_at_bits: double_bits(statement, 3),
        message_count: integer(statement, 4),
        input_tokens: integer(statement, 5),
        output_tokens: integer(statement, 6),
        cache_read_tokens: integer(statement, 7),
        cache_write_tokens: integer(statement, 8),
        reasoning_tokens: integer(statement, 9),
        estimated_cost_bits: double_bits(statement, 10),
        actual_cost_bits: double_bits(statement, 11),
    }
}

fn fingerprint_goose(db: &sqlite::Connection) -> Option<u64> {
    let mut state = TableFingerprint::new();
    answer(db, goose_reads, |event| {
        goose::fingerprint_goose_db(&mut state, event)
    });
    state.result()
}

fn fingerprint_hermes(db: &sqlite::Connection) -> Option<u64> {
    let mut state = TableFingerprint::new();
    answer(db, hermes_reads, |event| {
        hermes::fingerprint_hermes_db(&mut state, event)
    });
    state.result()
}

fn date_of(zoned: &jiff::Zoned) -> String {
    zoned.strftime("%Y-%m-%d").to_string()
}

/// An entry out of a row of Goose.
fn goose_entry(statement: &sqlite::Statement<'_>, tz: &TimeZone) -> Option<LoadedEntry> {
    let session_id = text(statement, 0)?;
    let created_at: jiff::civil::DateTime = text(statement, 3)?.parse().ok()?;
    let zoned = created_at.to_zoned(tz.clone()).ok()?;
    let total = count(statement, 7)?;
    let input_tokens = count(statement, 8)?;
    let output_tokens = count(statement, 9)?;
    Some(LoadedEntry {
        data: UsageData {
            message: UsageMessage {
                usage: TokenUsageRaw {
                    input_tokens,
                    output_tokens,
                    cache_creation_input_tokens: 0,
                    cache_read_input_tokens: 0,
                    cache_creation: None,
                },
                model: None,
            },
        },
        timestamp: zoned.timestamp().as_millisecond(),
        date: date_of(&zoned),
        session_id,
        model: None,
        extra_total_tokens: total - input_tokens - output_tokens,
        message_count: None,
        cost_bits: 0f64.to_bits(),
        missing_pricing_model: None,
    })
}

/// An entry out of a row of Hermes.
fn hermes_entry(statement: &sqlite::Statement<'_>, tz: &TimeZone) -> Option<LoadedEntry> {
    let session_id = text(statement, 0)?;
    let model = text(statement, 1)?;
    let started_at: f64 = statement.read(3).ok()?;
    let timestamp = jiff::Timestamp::from_millisecond((started_at * 1000.0) as i64).ok()?;
    Some(LoadedEntry {
        data: UsageData {
            message: UsageMessage {
                usage: TokenUsageRaw {
                    input_tokens: count(statement, 5)?,
                    output_tokens: count(statement, 6)?,
                    cache_creation_input_tokens: count(statement, 8)?,
                    cache_read_input_tokens: count(statement, 7)?,
                    cache_creation: None,
                },
                model: Some(model.clone()),
            },
        },
        timestamp: timestamp.as_millisecond(),
        date: date_of(&timestamp.to_zoned(tz.clone())),
        session_id,
        model: Some(model),
        extra_total_tokens: count(statement, 9)?,
        message_count: Some(count(statement, 4)?),
        cost_bits: double_bits(statement, 11)??,
        missing_pricing_model: None,
    })
}

fn goose_scan(db: &sqlite::Connection) -> RowScan<LoadedEntry> {
    let mut scan = RowScan::new();
    answer(
        db,
        |statement| goose_entry(statement, &TimeZone::UTC),
        |event| {
            let turn = goose::load_entries_from_db(&mut scan, event, "sessions.db");
            assert_eq!(turn.log, None);
            turn.action
        },
    );
    scan
}

fn hermes_scan(db: &sqlite::Connection) -> Vec<LoadedEntry> {
    let mut scan = RowScan::new();
    answer(
        db,
        |statement| hermes_entry(statement, &TimeZone::UTC),
        |event| {
            let turn = hermes::load_state_db_entries(&mut scan, event, "state.db");
            assert_eq!(turn.log, None);
            turn.action
        },
    );
    scan.into_entries()
}

fn load_goose(dbs: &[sqlite::Connection]) -> Result<Vec<LoadedEntry>, String> {
    let begun: UsageLoad<usize, String> = goose::load_entries(&SHARED);
    assert_eq!(begun.agent, UsageLoadAgent::Goose);
    let mut load = begun.load;
    let mut action = LoadAction::FindPaths;
    loop {
        let event = match action {
            LoadAction::FindPaths => LoadEvent::Paths(Ok((0..dbs.len()).collect())),
            LoadAction::CollectFiles(_) => panic!("databases are not searched for"),
            LoadAction::LoadWithCache(plan) => {
                assert_eq!(plan.cache, "goose");
                assert_eq!(plan.freshness, Freshness::Fingerprint);
                let mut all = Vec::new();
                for source in load.sources() {
                    all.extend(goose::database_entries(goose_scan(&dbs[*source])));
                }
                LoadEvent::Entries(Ok(all))
            }
            LoadAction::Finish => break,
        };
        action = goose::load_entries_inner(&mut load, event);
    }
    load.into_result().unwrap()
}

fn load_hermes(dbs: &[sqlite::Connection]) -> Result<Vec<LoadedEntry>, String> {
    let begun: UsageLoad<usize, String> = hermes::load_entries(&SHARED);
    assert_eq!(begun.agent, UsageLoadAgent::Hermes);
    let mut load = begun.load;
    let mut action = LoadAction::FindPaths;
    loop {
        let event = match action {
            LoadAction::FindPaths => LoadEvent::Paths(Ok((0..dbs.len()).collect())),
            LoadAction::CollectFiles(_) => panic!("databases are not searched for"),
            LoadAction::LoadWithCache(plan) => {
                assert_eq!(plan.cache, "hermes");
                assert_eq!(plan.freshness, Freshness::Fingerprint);
                let mut all = Vec::new();
                for source in load.sources() {
                    all.extend(hermes_scan(&dbs[*source]));
                }
                LoadEvent::Entries(Ok(all))
            }
            LoadAction::Finish => break,
        };
        action = hermes::load_entries_inner(&mut load, event);
    }
    load.into_result().unwrap()
}

fn create_goose_db() -> sqlite::Connection {
    let db = sqlite::open(":memory:").unwrap();
    db.execute(
        r#"
CREATE TABLE sessions (
    id TEXT PRIMARY KEY,
    model_config_json TEXT,
    provider_name TEXT,
    created_at TEXT,
    total_tokens INTEGER,
    input_tokens INTEGER,
    output_tokens INTEGER,
    accumulated_total_tokens INTEGER,
    accumulated_input_tokens INTEGER,
    accumulated_output_tokens INTEGER
)
"#,
    )
    .unwrap();
    db
}

struct SessionFixture<'a> {
    id: &'a str,
    model_config: &'a str,
    provider: Option<&'a str>,
    created_at: &'a str,
    total: i64,
    input: i64,
    output: i64,
}

fn insert_goose_session(db: &sqlite::Connection, fixture: SessionFixture<'_>) {
    let mut statement = db
        .prepare(
            r#"
INSERT INTO sessions (
    id,
    model_config_json,
    provider_name,
    created_at,
    accumulated_total_tokens,
    accumulated_input_tokens,
    accumulated_output_tokens
) VALUES (?1, ?2, ?3, ?4, ?5, ?6, ?7)
"#,
        )
        .unwrap();
    statement.bind((1, fixture.id)).unwrap();
    statement.bind((2, fixture.model_config)).unwrap();
    statement.bind((3, fixture.provider)).unwrap();
    statement.bind((4, fixture.created_at)).unwrap();
    statement.bind((5, fixture.total)).unwrap();
    statement.bind((6, fixture.input)).unwrap();
    statement.bind((7, fixture.output)).unwrap();
    statement.next().unwrap();
}

fn session_a<'a>() -> SessionFixture<'a> {
    SessionFixture {
        id: "session-a",
        model_config: r#"{"model_name":"sonnet-4-20250514"}"#,
        provider: Some("anthropic"),
        created_at: "2026-05-01 01:02:03",
        total: 180,
        input: 100,
        output: 50,
    }
}

fn create_state_db() -> sqlite::Connection {
    let db = sqlite::open(":memory:").unwrap();
    db.execute(
        "
            CREATE TABLE sessions (
                id TEXT PRIMARY KEY,
                source TEXT NOT NULL,
                model TEXT,
                started_at REAL NOT NULL,
                message_count INTEGER DEFAULT 0,
                input_tokens INTEGER DEFAULT 0,
                output_tokens INTEGER DEFAULT 0,
                cache_read_tokens INTEGER DEFAULT 0,
                cache_write_tokens INTEGER DEFAULT 0,
                reasoning_tokens INTEGER DEFAULT 0,
                billing_provider TEXT,
                estimated_cost_usd REAL,
                actual_cost_usd REAL
            );
        ",
    )
    .unwrap();
    db
}

const HERMES_INSERT: &str = "
    INSERT INTO sessions (
        id, source, model, started_at, message_count,
        input_tokens, output_tokens, cache_read_tokens, cache_write_tokens, reasoning_tokens,
        billing_provider, estimated_cost_usd, actual_cost_usd
    ) VALUES (?1, ?2, ?3, ?4, ?5, ?6, ?7, ?8, ?9, ?10, ?11, ?12, ?13)
";

fn insert_hermes_session(db: &sqlite::Connection, id: &str, model: &str, input: i64, output: i64) {
    let mut st = db.prepare(HERMES_INSERT).unwrap();
    st.bind((1, id)).unwrap();
    st.bind((2, "cli")).unwrap();
    st.bind((3, model)).unwrap();
    st.bind((4, 1_750_000_000.25_f64)).unwrap();
    st.bind((5, 1_i64)).unwrap();
    st.bind((6, input)).unwrap();
    st.bind((7, output)).unwrap();
    st.bind((8, 0_i64)).unwrap();
    st.bind((9, 0_i64)).unwrap();
    st.bind((10, 0_i64)).unwrap();
    st.bind((11, "anthropic")).unwrap();
    st.bind((12, 0.01_f64)).unwrap();
    st.bind((13, 0.01_f64)).unwrap();
    st.next().unwrap();
}

#[test]
fn loads_accumulated_tokens_from_goose_sqlite() {
    let db = create_goose_db();
    insert_goose_session(&db, session_a());

    let entries = goose_scan(&db).into_entries();

    assert_eq!(entries.len(), 1);
    assert_eq!(entries[0].date, "2026-05-01");
    assert_eq!(entries[0].session_id, "session-a");
    assert_eq!(entries[0].data.message.usage.input_tokens, 100);
    assert_eq!(entries[0].data.message.usage.output_tokens, 50);
    assert_eq!(entries[0].extra_total_tokens, 30);
}

#[test]
fn loads_entries_through_cache() {
    let db = create_goose_db();
    insert_goose_session(&db, session_a());

    let entries = load_goose(&[db]).unwrap();

    assert_eq!(entries.len(), 1);
    assert_eq!(entries[0].date, "2026-05-01");
    assert_eq!(entries[0].session_id, "session-a");
    assert_eq!(entries[0].data.message.usage.input_tokens, 100);
    assert_eq!(entries[0].data.message.usage.output_tokens, 50);
    assert_eq!(entries[0].extra_total_tokens, 30);
}

#[test]
fn fingerprint_detects_inplace_token_edit() {
    let db = create_goose_db();
    insert_goose_session(&db, session_a());
    let fp1 = fingerprint_goose(&db).expect("must return Some for valid sessions DB");

    // Bump input_tokens in-place (same row, same row count).
    db.execute("UPDATE sessions SET input_tokens = 999 WHERE id = 'session-a'")
        .unwrap();
    let fp2 = fingerprint_goose(&db).expect("must return Some after update");
    assert_ne!(
        fp1, fp2,
        "fingerprint must change when tokens are bumped in-place"
    );
}

#[test]
fn deduplicates_within_db_but_preserves_across_dbs() {
    // Same session_id in both DBs: both should survive.
    let first = create_goose_db();
    let second = create_goose_db();
    insert_goose_session(&first, session_a());
    insert_goose_session(&second, session_a());
    let entries = load_goose(&[first, second]).unwrap();
    assert_eq!(
        entries.len(),
        2,
        "same session_id in different DBs must both survive"
    );
}

#[test]
fn loads_billable_hermes_sessions_from_state_db() {
    let db = create_state_db();
    {
        let mut statement = db.prepare(HERMES_INSERT).unwrap();
        statement.bind((1, "session-1")).unwrap();
        statement.bind((2, "cli")).unwrap();
        statement.bind((3, "sonnet-4-20250514")).unwrap();
        statement.bind((4, 1_750_000_000.25)).unwrap();
        statement.bind((5, 42_i64)).unwrap();
        statement.bind((6, 1200_i64)).unwrap();
        statement.bind((7, 300_i64)).unwrap();
        statement.bind((8, 50_i64)).unwrap();
        statement.bind((9, 20_i64)).unwrap();
        statement.bind((10, 10_i64)).unwrap();
        statement.bind((11, "anthropic")).unwrap();
        statement.bind((12, 0.12)).unwrap();
        statement.bind((13, 0.34)).unwrap();
        statement.next().unwrap();
    }

    let entries = load_hermes(&[db]).unwrap();

    assert_eq!(entries.len(), 1);
    assert_eq!(entries[0].date, "2025-06-15");
    assert_eq!(entries[0].session_id, "session-1");
    assert_eq!(
        entries[0].model.as_deref(),
        Some("sonnet-4-20250514")
    );
    assert_eq!(entries[0].data.message.usage.input_tokens, 1200);
    assert_eq!(entries[0].data.message.usage.output_tokens, 300);
    assert_eq!(
        entries[0].data.message.usage.cache_creation_input_tokens,
        20
    );
    assert_eq!(entries[0].data.message.usage.cache_read_input_tokens, 50);
    assert_eq!(entries[0].extra_total_tokens, 10);
    assert_eq!(entries[0].message_count, Some(42));
    assert_eq!(f64::from_bits(entries[0].cost_bits), 0.34);
}

#[test]
fn loader_fingerprint_detects_inplace_token_edit() {
    let db = create_state_db();
    insert_hermes_session(&db, "s1", "sonnet-4-20250514", 100, 50);
    let fp1 = fingerprint_hermes(&db).expect("must return Some after insert");

    // Update input_tokens in place (same id, same row count).
    db.execute("UPDATE sessions SET input_tokens = 999 WHERE id = 's1'")
        .unwrap();
    let fp2 = fingerprint_hermes(&db).expect("must return Some after update");
    assert_ne!(
        fp1, fp2,
        "fingerprint must change when tokens are edited in place"
    );
}

#[test]
fn fingerprint_uses_stable_hasher() {
    let db = create_state_db();
    insert_hermes_session(&db, "s1", "sonnet-4-20250514", 100, 50);
    let fp_a = fingerprint_hermes(&db).expect("Some");
    let fp_b = fingerprint_hermes(&db).expect("Some");
    assert_eq!(fp_a, fp_b, "fingerprint must be deterministic across calls");
}

#[test]
fn dedup_first_path_order_survives() {
    let first = create_state_db();
    insert_hermes_session(
        &first,
        "shared-session",
        "sonnet-4-20250514",
        100,
        50,
    );
    let second = create_state_db();
    insert_hermes_session(
        &second,
        "shared-session",
        "sonnet-4-20250514",
        999,
        999,
    );
    let entries = load_hermes(&[first, second]).unwrap();

    assert_eq!(entries.len(), 1, "only one session should survive dedup");
    assert_eq!(entries[0].data.message.usage.input_tokens, 100);
    assert_eq!(entries[0].data.message.usage.output_tokens, 50);
}

#[test]
fn goose_fingerprint_is_the_hash_of_the_columns() {
    let db = create_goose_db();
    insert_goose_session(&db, session_a());
    insert_goose_session(
        &db,
        SessionFixture {
            id: "session-\u{e9}",
            provider: None,
            ..session_a()
        },
    );

    let mut hasher = DefaultHasher::new();
    2u8.hash(&mut hasher);
    for (id, provider) in [("session-a", Some("anthropic")), ("session-\u{e9}", None)] {
        id.hash(&mut hasher);
        r#"{"model_name":"sonnet-4-20250514"}"#.hash(&mut hasher);
        provider.hash(&mut hasher);
        "2026-05-01 01:02:03".hash(&mut hasher);
        for tokens in [None, None, None, Some(180i64), Some(100), Some(50)] {
            tokens.hash(&mut hasher);
        }
    }
    2u64.hash(&mut hasher);
    assert_eq!(fingerprint_goose(&db), Some(hasher.finish()));
}

#[test]
fn hermes_fingerprint_is_the_hash_of_the_columns() {
    let db = create_state_db();
    insert_hermes_session(&db, "s2", "sonnet-4-20250514", 3, -4);
    insert_hermes_session(&db, "s1", "sonnet-4-20250514", 100, 50);
    insert_hermes_session(&db, "s3", "  ", 7, 7);

    let mut hasher = DefaultHasher::new();
    2u8.hash(&mut hasher);
    for (id, input, output) in [("s1", 100i64, 50i64), ("s2", 3, -4)] {
        id.hash(&mut hasher);
        "sonnet-4-20250514".hash(&mut hasher);
        Some("anthropic").hash(&mut hasher);
        Some(1_750_000_000.25_f64.to_bits()).hash(&mut hasher);
        for number in [1i64, input, output, 0, 0, 0] {
            Some(number).hash(&mut hasher);
        }
        Some(0.01_f64.to_bits()).hash(&mut hasher);
        Some(0.01_f64.to_bits()).hash(&mut hasher);
    }
    assert_eq!(fingerprint_hermes(&db), Some(hasher.finish()));
}

#[test]
fn database_without_session_table_has_no_fingerprint() {
    let db = sqlite::open(":memory:").unwrap();
    assert_eq!(fingerprint_goose(&db), None);
    assert_eq!(fingerprint_hermes(&db), None);
}

#[test]
fn session_table_without_a_column_has_no_fingerprint() {
    let db = sqlite::open(":memory:").unwrap();
    db.execute("CREATE TABLE sessions (id TEXT)").unwrap();
    assert_eq!(fingerprint_goose(&db), None);
    assert_eq!(fingerprint_hermes(&db), None);
}

#[test]
fn row_that_lacks_a_column_leaves_no_fingerprint() {
    let db = create_goose_db();
    db.execute("INSERT INTO sessions (id, created_at) VALUES ('x', '2026-05-01 01:02:03')")
        .unwrap();
    assert_eq!(fingerprint_goose(&db), None);
}

#[test]
fn empty_session_table_has_a_fingerprint() {
    let mut hasher = DefaultHasher::new();
    2u8.hash(&mut hasher);
    assert_eq!(
        fingerprint_hermes(&create_state_db()),
        Some(hasher.finish())
    );
    0u64.hash(&mut hasher);
    assert_eq!(fingerprint_goose(&create_goose_db()), Some(hasher.finish()));
}

#[test]
fn sessions_without_a_model_are_not_loaded() {
    let db = create_state_db();
    insert_hermes_session(&db, "s1", " ", 100, 50);
    insert_hermes_session(&db, "s2", "sonnet-4-20250514", 1, 2);
    let entries = load_hermes(&[db]).unwrap();
    assert_eq!(entries.len(), 1);
    assert_eq!(entries[0].session_id, "s2");
}

#[test]
fn hermes_fingerprint_detects_an_edit_of_each_column() {
    let db = create_state_db();
    insert_hermes_session(&db, "s1", "sonnet-4-20250514", 100, 50);
    let mut seen = vec![fingerprint_hermes(&db).expect("Some")];
    for edit in [
        "billing_provider = 'openai'",
        "billing_provider = NULL",
        "billing_provider = ''",
        "model = 'other'",
        "started_at = 1.5",
        "message_count = 2",
        "output_tokens = 51",
        "cache_read_tokens = 1",
        "cache_write_tokens = 1",
        "reasoning_tokens = NULL",
        "reasoning_tokens = 1",
        "estimated_cost_usd = 0.02",
        "actual_cost_usd = NULL",
        "actual_cost_usd = 0.0",
    ] {
        db.execute(format!("UPDATE sessions SET {edit} WHERE id = 's1'"))
            .unwrap();
        let fingerprint = fingerprint_hermes(&db).expect("Some");
        assert!(!seen.contains(&fingerprint), "{edit} must be seen");
        seen.push(fingerprint);
    }
}

#[test]
fn goose_fingerprint_detects_a_count_that_becomes_zero() {
    let db = create_goose_db();
    insert_goose_session(&db, session_a());
    let before = fingerprint_goose(&db).expect("Some");
    db.execute("UPDATE sessions SET total_tokens = 0 WHERE id = 'session-a'")
        .unwrap();
    assert_ne!(fingerprint_goose(&db).expect("Some"), before);
}

#[test]
fn loading_again_gives_the_same_entries() {
    let dbs = [create_goose_db(), create_goose_db()];
    for db in &dbs {
        insert_goose_session(db, session_a());
    }
    let shape = |entries: Vec<LoadedEntry>| -> Vec<(String, i64)> {
        entries
            .into_iter()
            .map(|entry| (entry.session_id, entry.timestamp))
            .collect()
    };
    let once = shape(load_goose(&dbs).unwrap());
    assert_eq!(once.len(), 2);
    assert_eq!(shape(load_goose(&dbs).unwrap()), once);
}
