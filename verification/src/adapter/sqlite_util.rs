//! What is asked of a SQLite database, answer by answer.
//!
//! The caller opens the database and runs its statements. It tells each
//! outcome as a [`DbEvent`] and is told what to do next as a [`DbAction`]. An
//! outcome that does not belong to what was asked counts as a failure.
use vstd::prelude::*;
use vstd::string::StringExecFns;

verus! {

/// The outcome of a step of a statement.
#[derive(Debug)]
pub enum DbStep<R> {
    /// A row is there, of which `R` was read.
    Row(R),
    /// There are no more rows.
    Done,
    /// The step failed.
    Failed,
}

/// An outcome that the caller tells.
#[derive(Debug)]
pub enum DbEvent<R> {
    /// The database was opened for reading, or could not be.
    Opened(bool),
    /// The statement was prepared, or could not be.
    Prepared(bool),
    /// The statement that looks for the table was stepped.
    Probed(DbStep<()>),
    /// The statement that reads the rows was stepped.
    Stepped(DbStep<R>),
}

/// What the caller is to do next.
#[derive(Clone, Copy, Debug, PartialEq, Eq)]
pub enum DbAction {
    /// Open the database for reading.
    Open,
    /// Prepare this statement.
    Prepare(&'static str),
    /// Step the statement that looks for the table.
    Probe,
    /// Step the statement that reads the rows.
    Step,
    /// Nothing more.
    Stop,
}

/// Where a scan of the rows stands.
#[derive(Clone, Copy, Debug, PartialEq, Eq, Structural)]
pub enum ScanStage {
    Opening,
    Preparing,
    Stepping,
    Stopped,
}

/// Why a scan stopped early.
#[derive(Clone, Copy, Debug, PartialEq, Eq, Structural)]
pub enum ScanFailure {
    Open,
    Read,
    Query,
}

/// A scan that gathers the entries which rows were made into.
#[derive(Debug)]
pub struct RowScan<E> {
    stage: ScanStage,
    entries: Vec<E>,
    failure: Option<ScanFailure>,
}

/// The state of a scan.
pub struct RowScanView<E> {
    pub stage: ScanStage,
    pub entries: Seq<E>,
    pub failure: Option<ScanFailure>,
}

/// What to do next in a scan, and what to log.
#[derive(Debug)]
pub struct ScanTurn {
    pub action: DbAction,
    pub log: Option<String>,
}

impl<E> RowScanView<E> {
    /// The state before anything was asked.
    pub open spec fn start() -> Self {
        RowScanView { stage: ScanStage::Opening, entries: Seq::empty(), failure: None }
    }

    /// This state, stopped for a failure.
    pub open spec fn failed(self, failure: ScanFailure) -> Self {
        RowScanView { stage: ScanStage::Stopped, failure: Some(failure), ..self }
    }

    /// The state that follows on an event. A row out of which no entry could be
    /// made is passed over.
    pub open spec fn after(self, event: DbEvent<Option<E>>) -> Self {
        match self.stage {
            ScanStage::Opening => match event {
                DbEvent::Opened(true) => RowScanView { stage: ScanStage::Preparing, ..self },
                _ => self.failed(ScanFailure::Open),
            },
            ScanStage::Preparing => match event {
                DbEvent::Prepared(true) => RowScanView { stage: ScanStage::Stepping, ..self },
                _ => self.failed(ScanFailure::Read),
            },
            ScanStage::Stepping => match event {
                DbEvent::Stepped(DbStep::Row(Some(entry))) => RowScanView {
                    entries: self.entries.push(entry),
                    ..self
                },
                DbEvent::Stepped(DbStep::Row(None)) => self,
                DbEvent::Stepped(DbStep::Done) => RowScanView {
                    stage: ScanStage::Stopped,
                    ..self
                },
                _ => self.failed(ScanFailure::Query),
            },
            ScanStage::Stopped => self,
        }
    }

    /// The state that follows on events one after the other.
    pub open spec fn after_all(self, events: Seq<DbEvent<Option<E>>>) -> Self
        decreases events.len(),
    {
        if events.len() == 0 {
            self
        } else {
            self.after_all(events.drop_last()).after(events.last())
        }
    }

    /// What to do in this state, where `query` reads the rows.
    pub open spec fn action(self, query: &'static str) -> DbAction {
        match self.stage {
            ScanStage::Opening => DbAction::Open,
            ScanStage::Preparing => DbAction::Prepare(query),
            ScanStage::Stepping => DbAction::Step,
            ScanStage::Stopped => DbAction::Stop,
        }
    }
}

impl<E> View for RowScan<E> {
    type V = RowScanView<E>;

    closed spec fn view(&self) -> RowScanView<E> {
        RowScanView { stage: self.stage, entries: self.entries@, failure: self.failure }
    }
}

/// What could not be done, as a failure's message words it.
pub open spec fn failure_verb(failure: ScanFailure) -> Seq<char> {
    match failure {
        ScanFailure::Open => "open"@,
        ScanFailure::Read => "read"@,
        ScanFailure::Query => "query"@,
    }
}

/// The message for a failure, where `database` says what kind of database it
/// is.
pub open spec fn failure_text(
    failure: ScanFailure,
    database: Seq<char>,
    db_path: Seq<char>,
) -> Seq<char> {
    "Failed to "@ + failure_verb(failure) + " "@ + database + ": "@ + db_path
}

fn failure_message(failure: ScanFailure, database: &str, db_path: &str) -> (message: String)
    ensures
        message@ == failure_text(failure, database@, db_path@),
{
    let verb = match failure {
        ScanFailure::Open => "open",
        ScanFailure::Read => "read",
        ScanFailure::Query => "query",
    };
    "Failed to ".to_owned().concat(verb).concat(" ").concat(database).concat(": ").concat(db_path)
}

impl<E> RowScan<E> {
    /// A scan that is yet to open its database.
    pub fn new() -> (scan: Self)
        ensures
            scan@ == RowScanView::<E>::start(),
    {
        RowScan { stage: ScanStage::Opening, entries: Vec::new(), failure: None }
    }

    /// The entries gathered so far.
    pub fn into_entries(self) -> (entries: Vec<E>)
        ensures
            entries@ == self@.entries,
    {
        self.entries
    }

    /// Takes an event. Afterwards `query` is the statement that reads the rows,
    /// and a failure is to be logged with the kind and the path of the database.
    pub fn take(
        &mut self,
        event: DbEvent<Option<E>>,
        query: &'static str,
        database: &str,
        db_path: &str,
    ) -> (turn: ScanTurn)
        ensures
            final(self)@ == old(self)@.after(event),
            turn.action == final(self)@.action(query),
            turn.log is Some <==> old(self)@.failure is None && final(self)@.failure is Some,
            turn.log matches Some(message) ==> message@ == failure_text(
                final(self)@.failure->0,
                database@,
                db_path@,
            ),
    {
        let failed_before = self.failure.is_some();
        match self.stage {
            ScanStage::Opening => match event {
                DbEvent::Opened(true) => {
                    self.stage = ScanStage::Preparing;
                },
                _ => {
                    self.stage = ScanStage::Stopped;
                    self.failure = Some(ScanFailure::Open);
                },
            },
            ScanStage::Preparing => match event {
                DbEvent::Prepared(true) => {
                    self.stage = ScanStage::Stepping;
                },
                _ => {
                    self.stage = ScanStage::Stopped;
                    self.failure = Some(ScanFailure::Read);
                },
            },
            ScanStage::Stepping => match event {
                DbEvent::Stepped(DbStep::Row(Some(entry))) => {
                    self.entries.push(entry);
                },
                DbEvent::Stepped(DbStep::Row(None)) => {},
                DbEvent::Stepped(DbStep::Done) => {
                    self.stage = ScanStage::Stopped;
                },
                _ => {
                    self.stage = ScanStage::Stopped;
                    self.failure = Some(ScanFailure::Query);
                },
            },
            ScanStage::Stopped => {},
        }
        let action = match self.stage {
            ScanStage::Opening => DbAction::Open,
            ScanStage::Preparing => DbAction::Prepare(query),
            ScanStage::Stepping => DbAction::Step,
            ScanStage::Stopped => DbAction::Stop,
        };
        let log = match self.failure {
            Some(failure) => if failed_before {
                None
            } else {
                Some(failure_message(failure, database, db_path))
            },
            None => None,
        };
        ScanTurn { action, log }
    }
}

/// The entries among `rows`.
pub open spec fn present<E>(rows: Seq<Option<E>>) -> Seq<E>
    decreases rows.len(),
{
    if rows.len() == 0 {
        Seq::empty()
    } else {
        match rows.last() {
            Some(entry) => present(rows.drop_last()).push(entry),
            None => present(rows.drop_last()),
        }
    }
}

/// The events of a scan that opens the database, prepares the statement and
/// meets `rows`.
pub open spec fn row_events<E>(rows: Seq<Option<E>>) -> Seq<DbEvent<Option<E>>> {
    seq![DbEvent::Opened(true), DbEvent::Prepared(true)] + rows.map_values(
        |row: Option<E>| DbEvent::Stepped(DbStep::Row(row)),
    )
}

/// A scan gathers the entries of the rows that it meets, in their order.
pub proof fn law_scan_gathers_entries<E>(rows: Seq<Option<E>>)
    ensures
        RowScanView::<E>::start().after_all(row_events(rows)) == (RowScanView {
            stage: ScanStage::Stepping,
            entries: present(rows),
            failure: None,
        }),
    decreases rows.len(),
{
    let start = RowScanView::<E>::start();
    if rows.len() == 0 {
        let events = row_events(rows);
        assert(events =~= seq![DbEvent::Opened(true), DbEvent::Prepared(true)]);
        assert(events.drop_last() =~= seq![DbEvent::<Option<E>>::Opened(true)]);
        assert(events.drop_last().drop_last() =~= Seq::empty());
        reveal_with_fuel(RowScanView::after_all, 3);
    } else {
        law_scan_gathers_entries(rows.drop_last());
        assert(row_events(rows).drop_last() =~= row_events(rows.drop_last()));
        assert(row_events(rows).last() == DbEvent::Stepped(DbStep::Row(rows.last())));
    }
}

/// A scan whose rows come to an end, or whose next step fails, hands on the
/// entries of the rows that came before.
pub proof fn law_scan_keeps_entries_on_end_and_failure<E>(rows: Seq<Option<E>>)
    ensures
        RowScanView::<E>::start().after_all(
            row_events(rows).push(DbEvent::Stepped(DbStep::Done)),
        ) == (RowScanView { stage: ScanStage::Stopped, entries: present(rows), failure: None }),
        RowScanView::<E>::start().after_all(
            row_events(rows).push(DbEvent::Stepped(DbStep::Failed)),
        ) == (RowScanView {
            stage: ScanStage::Stopped,
            entries: present(rows),
            failure: Some(ScanFailure::Query),
        }),
{
    law_scan_gathers_entries(rows);
    assert(row_events(rows).push(DbEvent::Stepped(DbStep::Done)).drop_last() =~= row_events(rows));
    assert(row_events(rows).push(DbEvent::Stepped(DbStep::Failed)).drop_last()
        =~= row_events(rows));
}

/// A scan that has stopped stays as it is.
pub proof fn law_stopped_scan_stays<E>(scan: RowScanView<E>, events: Seq<DbEvent<Option<E>>>)
    requires
        scan.stage == ScanStage::Stopped,
    ensures
        scan.after_all(events) == scan,
    decreases events.len(),
{
    if events.len() > 0 {
        law_stopped_scan_stays(scan, events.drop_last());
    }
}

/// A database that cannot be opened, or whose rows cannot be asked for, has no
/// entries, whatever is told later.
pub proof fn law_unreadable_database_has_no_entries<E>(
    opened: DbEvent<Option<E>>,
    prepared: DbEvent<Option<E>>,
    later: Seq<DbEvent<Option<E>>>,
)
    requires
        opened != DbEvent::<Option<E>>::Opened(true) || prepared != DbEvent::<Option<E>>::Prepared(
            true,
        ),
    ensures
        RowScanView::<E>::start().after(opened).after(prepared).after_all(later) == (RowScanView {
            stage: ScanStage::Stopped,
            entries: Seq::<E>::empty(),
            failure: Some(
                if opened != DbEvent::<Option<E>>::Opened(true) {
                    ScanFailure::Open
                } else {
                    ScanFailure::Read
                },
            ),
        }),
{
    law_stopped_scan_stays(RowScanView::<E>::start().after(opened).after(prepared), later);
}

proof fn lemma_scan_after_all_add<E>(
    scan: RowScanView<E>,
    first: Seq<DbEvent<Option<E>>>,
    second: Seq<DbEvent<Option<E>>>,
)
    ensures
        scan.after_all(first + second) == scan.after_all(first).after_all(second),
    decreases second.len(),
{
    if second.len() == 0 {
        assert(first + second =~= first);
    } else {
        lemma_scan_after_all_add(scan, first, second.drop_last());
        assert((first + second).drop_last() =~= first + second.drop_last());
    }
}

/// The entries of a scan depend on the rows that it meets and on nothing else:
/// not on whether the rows end or a step fails, and not on what is told later.
/// A scan knows no options, so none can change them.
pub proof fn law_entries_depend_on_the_rows_alone<E>(
    rows: Seq<Option<E>>,
    end: DbEvent<Option<E>>,
    later: Seq<DbEvent<Option<E>>>,
)
    requires
        !(end matches DbEvent::Stepped(DbStep::Row(_))),
    ensures
        RowScanView::<E>::start().after_all(row_events(rows).push(end) + later).entries == present(
            rows,
        ),
{
    let start = RowScanView::<E>::start();
    let events = row_events(rows).push(end);
    law_scan_gathers_entries(rows);
    assert(events.drop_last() =~= row_events(rows));
    lemma_scan_after_all_add(start, events, later);
    law_stopped_scan_stays(start.after_all(events), later);
}

/// The identifier, the session identifier and the data of a row, if all three
/// columns could be read.
pub fn read_id_session_data(
    id: Option<String>,
    session_id: Option<String>,
    data: Option<String>,
) -> (row: Option<(String, String, String)>)
    ensures
        row == match (id, session_id, data) {
            (Some(id), Some(session_id), Some(data)) => Some((id, session_id, data)),
            _ => None,
        },
        row is Some <==> id is Some && session_id is Some && data is Some,
        row matches Some(read) ==> (Some(read.0) == id && Some(read.1) == session_id && Some(read.2)
            == data),
{
    let id = id?;
    let session_id = session_id?;
    let data = data?;
    Some((id, session_id, data))
}

proof fn lemma_present_is_filter<E>(rows: Seq<Option<E>>)
    ensures
        present(rows) == rows.filter(|row: Option<E>| row is Some).map_values(
            |row: Option<E>| row->0,
        ),
    decreases rows.len(),
{
    reveal(Seq::filter);
    let picked = rows.filter(|row: Option<E>| row is Some);
    if rows.len() > 0 {
        lemma_present_is_filter(rows.drop_last());
        let before = rows.drop_last().filter(|row: Option<E>| row is Some);
        if rows.last() is Some {
            assert(picked == before.push(rows.last()));
        }
        assert(present(rows) =~= picked.map_values(|row: Option<E>| row->0));
    } else {
        assert(present(rows) =~= picked.map_values(|row: Option<E>| row->0));
    }
}

/// A scan hands on what each row gave that gave an entry, in the order of the
/// rows, however many there are, however the rows end and whatever is told
/// later. It has failed unless the rows came to their end.
pub proof fn law_scan_hands_on_the_entry_of_each_row<E>(
    rows: Seq<Option<E>>,
    end: DbEvent<Option<E>>,
    later: Seq<DbEvent<Option<E>>>,
)
    requires
        !(end matches DbEvent::Stepped(DbStep::Row(_))),
    ensures
        ({
            let found = seq![DbEvent::<Option<E>>::Opened(true), DbEvent::Prepared(true)];
            let met = rows.map_values(|row: Option<E>| DbEvent::Stepped(DbStep::Row(row)));
            let entries = rows.filter(|row: Option<E>| row is Some).map_values(
                |row: Option<E>| row->0,
            );
            let going = RowScanView::<E>::start().after_all(found + met);
            let over = RowScanView::<E>::start().after_all(found + met + seq![end] + later);
            &&& going.entries == entries
            &&& going.failure is None
            &&& over.entries == entries
            &&& over.failure is None <==> end == DbEvent::<Option<E>>::Stepped(DbStep::Done)
            &&& over.failure is Some ==> over.failure == Some(ScanFailure::Query)
        }),
{
    let start = RowScanView::<E>::start();
    let events = row_events(rows);
    law_scan_gathers_entries(rows);
    lemma_present_is_filter(rows);
    assert(events + seq![end] =~= events.push(end));
    assert(events.push(end).drop_last() =~= events);
    lemma_scan_after_all_add(start, events + seq![end], later);
    law_stopped_scan_stays(start.after_all(events + seq![end]), later);
}

/// Where each row gave an entry, there are as many entries as rows, and each
/// stands where its row stood.
pub proof fn law_scan_loses_no_row<E>(rows: Seq<Option<E>>)
    requires
        forall|i: int| 0 <= i < rows.len() ==> (#[trigger] rows[i]) is Some,
    ensures
        ({
            let entries = RowScanView::<E>::start().after_all(
                seq![DbEvent::<Option<E>>::Opened(true), DbEvent::Prepared(true)]
                    + rows.map_values(|row: Option<E>| DbEvent::Stepped(DbStep::Row(row))),
            ).entries;
            &&& entries.len() == rows.len()
            &&& forall|i: int| 0 <= i < rows.len() ==> rows[i] == Some(#[trigger] entries[i])
        }),
    decreases rows.len(),
{
    law_scan_gathers_entries(rows);
    if rows.len() > 0 {
        let earlier = rows.drop_last();
        assert forall|i: int| 0 <= i < earlier.len() implies (#[trigger] earlier[i]) is Some by {
            assert(rows[i] is Some);
        }
        law_scan_loses_no_row(earlier);
        law_scan_gathers_entries(earlier);
        assert(rows[rows.len() - 1] is Some);
        assert forall|i: int| 0 <= i < rows.len() implies rows[i] == Some(
            #[trigger] present(rows)[i],
        ) by {
            if i < earlier.len() {
                assert(earlier[i] == Some(present(earlier)[i]));
            }
        }
    }
}

/// The course of a scan. The database is to be opened; once it is, the query is
/// to be prepared; once it is, it is to be stepped, and again after each row,
/// however many there were; and nothing more is to be done once the rows are
/// over or anything failed.
pub proof fn law_course_of_a_scan<E>(
    rows: Seq<Option<E>>,
    other: DbEvent<Option<E>>,
    later: Seq<DbEvent<Option<E>>>,
    query: &'static str,
)
    ensures
        ({
            let start = RowScanView::<E>::start();
            let opened = start.after(DbEvent::Opened(true));
            let going = start.after_all(
                seq![DbEvent::<Option<E>>::Opened(true), DbEvent::Prepared(true)]
                    + rows.map_values(|row: Option<E>| DbEvent::Stepped(DbStep::Row(row))),
            );
            &&& start.action(query) == DbAction::Open
            &&& opened.action(query) == DbAction::Prepare(query)
            &&& going.action(query) == DbAction::Step
            &&& other != DbEvent::<Option<E>>::Opened(true) ==> start.after(other).after_all(
                later,
            ).failure == Some(ScanFailure::Open)
            &&& other != DbEvent::<Option<E>>::Prepared(true) ==> opened.after(other).after_all(
                later,
            ).failure == Some(ScanFailure::Read)
            &&& other != DbEvent::<Option<E>>::Opened(true) ==> start.after(other).after_all(
                later,
            ).action(query) == DbAction::Stop
            &&& other != DbEvent::<Option<E>>::Prepared(true) ==> opened.after(other).after_all(
                later,
            ).action(query) == DbAction::Stop
            &&& !(other matches DbEvent::Stepped(DbStep::Row(_))) ==> going.after(
                other,
            ).after_all(later).action(query) == DbAction::Stop
        }),
{
    let start = RowScanView::<E>::start();
    let opened = start.after(DbEvent::Opened(true));
    let going = start.after_all(row_events(rows));
    law_scan_gathers_entries(rows);
    if other != DbEvent::<Option<E>>::Opened(true) {
        law_stopped_scan_stays(start.after(other), later);
    }
    if other != DbEvent::<Option<E>>::Prepared(true) {
        law_stopped_scan_stays(opened.after(other), later);
    }
    if !(other matches DbEvent::Stepped(DbStep::Row(_))) {
        law_stopped_scan_stays(going.after(other), later);
    }
}

/// A failure's message says what could not be done with which database: it
/// starts alike for all databases and ends with the kind and the path.
pub proof fn law_failure_messages(database: Seq<char>, db_path: Seq<char>)
    ensures
        failure_text(ScanFailure::Open, database, db_path) == "Failed to open "@ + database + ": "@
            + db_path,
        failure_text(ScanFailure::Read, database, db_path) == "Failed to read "@ + database + ": "@
            + db_path,
        failure_text(ScanFailure::Query, database, db_path) == "Failed to query "@ + database
            + ": "@ + db_path,
{
    reveal_strlit("Failed to ");
    reveal_strlit("open");
    reveal_strlit("read");
    reveal_strlit("query");
    reveal_strlit(" ");
    reveal_strlit("Failed to open ");
    reveal_strlit("Failed to read ");
    reveal_strlit("Failed to query ");
    assert("Failed to "@ + "open"@ + " "@ =~= "Failed to open "@);
    assert("Failed to "@ + "read"@ + " "@ =~= "Failed to read "@);
    assert("Failed to "@ + "query"@ + " "@ =~= "Failed to query "@);
}

} // verus!
