//! The course of a load, answer by answer.
//!
//! The caller looks for files, reads them through a cache and shows progress.
//! It tells each outcome as a [`LoadEvent`] and is told what to do next as a
//! [`LoadAction`]. An outcome that was not asked for changes nothing. `P` is how
//! the caller names files and `E` what it reports as an error.
use vstd::prelude::*;

use crate::entry::LoadedEntry;

verus! {

/// The options of the user that a load depends on. `M` is how the caller tells
/// in which mode costs are worked out.
#[derive(Debug)]
pub struct SharedArgs<M> {
    pub json: bool,
    pub single_thread: bool,
    pub live_only: bool,
    pub mode: M,
}

/// The agent whose records are loaded.
#[derive(Clone, Copy, Debug, PartialEq, Eq, Structural)]
pub enum UsageLoadAgent {
    Amp,
    Goose,
    Hermes,
}

/// How the cache tells that a file has changed.
#[derive(Clone, Copy, Debug, PartialEq, Eq, Structural)]
pub enum Freshness {
    /// By what the file system says of the file.
    FileStat,
    /// By a fingerprint of the content.
    Fingerprint,
}

/// The options of the cache.
#[derive(Clone, Copy, Debug, PartialEq, Eq, Structural)]
pub struct CacheOpts {
    pub single_thread: bool,
    pub live_only: bool,
}

/// Which cache to read files through, and how.
#[derive(Clone, Copy, Debug, PartialEq, Eq)]
pub struct CachePlan {
    pub cache: &'static str,
    pub opts: CacheOpts,
    pub freshness: Freshness,
}

/// Which files to collect below each directory.
#[derive(Clone, Copy, Debug, PartialEq, Eq)]
pub struct FileSearch {
    pub subdirectory: &'static str,
    pub extension: &'static str,
}

/// An outcome that the caller tells.
#[derive(Debug)]
pub enum LoadEvent<P, E> {
    /// Where the agent keeps its records.
    Paths(Result<Vec<P>, E>),
    /// The files that were collected there.
    Files(Vec<P>),
    /// The entries that were read, file by file.
    Entries(Result<Vec<LoadedEntry>, E>),
}

/// What the caller is to do next.
#[derive(Clone, Copy, Debug, PartialEq, Eq)]
pub enum LoadAction {
    /// Find where the agent keeps its records.
    FindPaths,
    /// Collect files below each of the sources, one source after the other.
    CollectFiles(FileSearch),
    /// Read the sources through the cache.
    LoadWithCache(CachePlan),
    /// Nothing more: the result is there.
    Finish,
}

/// Where a load stands.
#[derive(Clone, Copy, Debug, PartialEq, Eq)]
pub enum LoadStage {
    FindingPaths,
    CollectingFiles(FileSearch),
    Loading,
    Finished,
}

/// A load.
#[derive(Debug)]
pub struct Load<P, E> {
    stage: LoadStage,
    opts: CacheOpts,
    sources: Vec<P>,
    result: Option<Result<Vec<LoadedEntry>, E>>,
}

/// The state of a load.
pub struct LoadView<P, E> {
    pub stage: LoadStage,
    pub opts: CacheOpts,
    pub sources: Seq<P>,
    pub result: Option<Result<Seq<LoadedEntry>, E>>,
}

/// A load, with what to show while it runs.
#[derive(Debug)]
pub struct UsageLoad<P, E> {
    pub agent: UsageLoadAgent,
    pub json: bool,
    pub load: Load<P, E>,
}

/// A result with its entries as a sequence.
pub open spec fn result_view<E>(result: Result<Vec<LoadedEntry>, E>) -> Result<
    Seq<LoadedEntry>,
    E,
> {
    match result {
        Ok(entries) => Ok(entries@),
        Err(error) => Err(error),
    }
}

impl<P, E> LoadView<P, E> {
    /// The state before anything was asked.
    pub open spec fn start<M>(shared: SharedArgs<M>) -> Self {
        LoadView {
            stage: LoadStage::FindingPaths,
            opts: CacheOpts { single_thread: shared.single_thread, live_only: shared.live_only },
            sources: Seq::empty(),
            result: None,
        }
    }

    /// This state, finished with a result.
    pub open spec fn finished(self, result: Result<Seq<LoadedEntry>, E>) -> Self {
        LoadView { stage: LoadStage::Finished, result: Some(result), ..self }
    }

    /// The state that follows on an event, where `search` says which files
    /// have to be collected first, if any, and `arrange` what becomes of the
    /// entries that were read.
    pub open spec fn after(
        self,
        event: LoadEvent<P, E>,
        search: Option<FileSearch>,
        arrange: spec_fn(Seq<LoadedEntry>) -> Seq<LoadedEntry>,
    ) -> Self {
        match (self.stage, event) {
            (LoadStage::FindingPaths, LoadEvent::Paths(Ok(paths))) => LoadView {
                stage: match search {
                    Some(search) => LoadStage::CollectingFiles(search),
                    None => LoadStage::Loading,
                },
                sources: paths@,
                ..self
            },
            (LoadStage::FindingPaths, LoadEvent::Paths(Err(error))) => self.finished(Err(error)),
            (LoadStage::CollectingFiles(_), LoadEvent::Files(files)) => LoadView {
                stage: LoadStage::Loading,
                sources: files@,
                ..self
            },
            (LoadStage::Loading, LoadEvent::Entries(Ok(entries))) => self.finished(
                Ok(arrange(entries@)),
            ),
            (LoadStage::Loading, LoadEvent::Entries(Err(error))) => self.finished(Err(error)),
            _ => self,
        }
    }

    /// The state that follows on events one after the other.
    pub open spec fn after_all(
        self,
        events: Seq<LoadEvent<P, E>>,
        search: Option<FileSearch>,
        arrange: spec_fn(Seq<LoadedEntry>) -> Seq<LoadedEntry>,
    ) -> Self
        decreases events.len(),
    {
        if events.len() == 0 {
            self
        } else {
            self.after_all(events.drop_last(), search, arrange).after(
                events.last(),
                search,
                arrange,
            )
        }
    }

    /// What to do in this state.
    pub open spec fn action(self, cache: &'static str, freshness: Freshness) -> LoadAction {
        match self.stage {
            LoadStage::FindingPaths => LoadAction::FindPaths,
            LoadStage::CollectingFiles(search) => LoadAction::CollectFiles(search),
            LoadStage::Loading => LoadAction::LoadWithCache(
                CachePlan { cache, opts: self.opts, freshness },
            ),
            LoadStage::Finished => LoadAction::Finish,
        }
    }
}

impl<P, E> View for Load<P, E> {
    type V = LoadView<P, E>;

    closed spec fn view(&self) -> LoadView<P, E> {
        LoadView {
            stage: self.stage,
            opts: self.opts,
            sources: self.sources@,
            result: match self.result {
                Some(result) => Some(result_view(result)),
                None => None,
            },
        }
    }
}

impl<P, E> Load<P, E> {
    /// A load that is yet to find where the agent keeps its records.
    pub fn new<M>(shared: &SharedArgs<M>) -> (load: Self)
        ensures
            load@ == LoadView::<P, E>::start(*shared),
    {
        Load {
            stage: LoadStage::FindingPaths,
            opts: CacheOpts { single_thread: shared.single_thread, live_only: shared.live_only },
            sources: Vec::new(),
            result: None,
        }
    }

    /// What the next action is about: the places to collect files from, or the
    /// files to read.
    pub fn sources(&self) -> (sources: &Vec<P>)
        ensures
            sources@ == self@.sources,
    {
        &self.sources
    }

    /// The result, once there is one.
    pub fn into_result(self) -> (result: Option<Result<Vec<LoadedEntry>, E>>)
        ensures
            result is Some <==> self@.result is Some,
            result matches Some(present) ==> self@.result == Some(result_view(present)),
            result matches Some(Ok(entries)) ==> self@.result == Some(
                Ok::<Seq<LoadedEntry>, E>(entries@),
            ),
            result matches Some(Err(error)) ==> self@.result == Some(
                Err::<Seq<LoadedEntry>, E>(error),
            ),
    {
        self.result
    }

    /// Takes an event whose entries are arranged already, and says what to do
    /// next.
    pub(crate) fn take(
        &mut self,
        event: LoadEvent<P, E>,
        search: Option<FileSearch>,
        cache: &'static str,
        freshness: Freshness,
    ) -> (action: LoadAction)
        ensures
            final(self)@ == old(self)@.after(event, search, |entries: Seq<LoadedEntry>| entries),
            action == final(self)@.action(cache, freshness),
    {
        match (self.stage, event) {
            (LoadStage::FindingPaths, LoadEvent::Paths(Ok(paths))) => {
                self.stage = match search {
                    Some(search) => LoadStage::CollectingFiles(search),
                    None => LoadStage::Loading,
                };
                self.sources = paths;
            },
            (LoadStage::FindingPaths, LoadEvent::Paths(Err(error))) => {
                self.stage = LoadStage::Finished;
                self.result = Some(Err(error));
            },
            (LoadStage::CollectingFiles(_), LoadEvent::Files(files)) => {
                self.stage = LoadStage::Loading;
                self.sources = files;
            },
            (LoadStage::Loading, LoadEvent::Entries(entries)) => {
                self.stage = LoadStage::Finished;
                self.result = Some(entries);
            },
            _ => {},
        }
        match self.stage {
            LoadStage::FindingPaths => LoadAction::FindPaths,
            LoadStage::CollectingFiles(search) => LoadAction::CollectFiles(search),
            LoadStage::Loading => LoadAction::LoadWithCache(
                CachePlan { cache, opts: self.opts, freshness },
            ),
            LoadStage::Finished => LoadAction::Finish,
        }
    }
}

/// A load that has finished stays as it is.
pub proof fn law_finished_load_stays<P, E>(
    load: LoadView<P, E>,
    events: Seq<LoadEvent<P, E>>,
    search: Option<FileSearch>,
    arrange: spec_fn(Seq<LoadedEntry>) -> Seq<LoadedEntry>,
)
    requires
        load.stage is Finished,
    ensures
        load.after_all(events, search, arrange) == load,
    decreases events.len(),
{
    if events.len() > 0 {
        law_finished_load_stays(load, events.drop_last(), search, arrange);
    }
}

/// Where the agent's records cannot be found, the load hands on the error, and
/// nothing is read.
pub proof fn law_error_in_finding_is_handed_on<P, E, M>(
    shared: SharedArgs<M>,
    error: E,
    later: Seq<LoadEvent<P, E>>,
    search: Option<FileSearch>,
    arrange: spec_fn(Seq<LoadedEntry>) -> Seq<LoadedEntry>,
)
    ensures
        ({
            let load = LoadView::<P, E>::start(shared).after(
                LoadEvent::Paths(Err(error)),
                search,
                arrange,
            ).after_all(later, search, arrange);
            &&& load.stage is Finished
            &&& load.result == Some(Err::<Seq<LoadedEntry>, E>(error))
        }),
{
    law_finished_load_stays(
        LoadView::<P, E>::start(shared).after(LoadEvent::Paths(Err(error)), search, arrange),
        later,
        search,
        arrange,
    );
}

/// The state of a load whose records were found and whose files, where there is
/// a search for them, were collected.
pub open spec fn ready_to_read<P, E, M>(
    shared: SharedArgs<M>,
    paths: Vec<P>,
    files: Vec<P>,
    search: Option<FileSearch>,
    arrange: spec_fn(Seq<LoadedEntry>) -> Seq<LoadedEntry>,
) -> LoadView<P, E> {
    let found = LoadView::<P, E>::start(shared).after(
        LoadEvent::Paths(Ok(paths)),
        search,
        arrange,
    );
    if search is Some {
        found.after(LoadEvent::Files(files), search, arrange)
    } else {
        found
    }
}

/// What is read is what was collected, or found where nothing is collected. The
/// load's result is the arrangement of the entries read, or the error in reading.
pub proof fn law_load_hands_on_what_was_read<P, E, M>(
    shared: SharedArgs<M>,
    paths: Vec<P>,
    files: Vec<P>,
    entries: Result<Vec<LoadedEntry>, E>,
    later: Seq<LoadEvent<P, E>>,
    search: Option<FileSearch>,
    arrange: spec_fn(Seq<LoadedEntry>) -> Seq<LoadedEntry>,
)
    ensures
        ({
            let ready = ready_to_read::<P, E, M>(shared, paths, files, search, arrange);
            let load = ready.after(LoadEvent::Entries(entries), search, arrange).after_all(
                later,
                search,
                arrange,
            );
            &&& ready.stage is Loading
            &&& ready.opts == LoadView::<P, E>::start(shared).opts
            &&& ready.sources == if search is Some {
                files@
            } else {
                paths@
            }
            &&& load.result == Some(
                match entries {
                    Ok(read) => Ok(arrange(read@)),
                    Err(error) => Err(error),
                },
            )
        }),
{
    let ready = ready_to_read::<P, E, M>(shared, paths, files, search, arrange);
    law_finished_load_stays(
        ready.after(LoadEvent::Entries(entries), search, arrange),
        later,
        search,
        arrange,
    );
}

/// The result of a load depends on the entries that were read and on nothing
/// else: not on the options, not on where the entries were found or how they
/// were read, and not on what is told later. Reading the same entries again, out
/// of the files or out of the cache, gives the same result.
pub proof fn law_same_entries_give_the_same_result<P, E, M>(
    shared: SharedArgs<M>,
    paths: Vec<P>,
    files: Vec<P>,
    entries: Vec<LoadedEntry>,
    later: Seq<LoadEvent<P, E>>,
    shared_again: SharedArgs<M>,
    paths_again: Vec<P>,
    files_again: Vec<P>,
    entries_again: Vec<LoadedEntry>,
    later_again: Seq<LoadEvent<P, E>>,
    search: Option<FileSearch>,
    arrange: spec_fn(Seq<LoadedEntry>) -> Seq<LoadedEntry>,
)
    requires
        entries@ == entries_again@,
    ensures
        ready_to_read::<P, E, M>(shared, paths, files, search, arrange).after(
            LoadEvent::Entries(Ok(entries)),
            search,
            arrange,
        ).after_all(later, search, arrange).result == ready_to_read::<P, E, M>(
            shared_again,
            paths_again,
            files_again,
            search,
            arrange,
        ).after(LoadEvent::Entries(Ok(entries_again)), search, arrange).after_all(
            later_again,
            search,
            arrange,
        ).result,
{
    law_load_hands_on_what_was_read(shared, paths, files, Ok(entries), later, search, arrange);
    law_load_hands_on_what_was_read(
        shared_again,
        paths_again,
        files_again,
        Ok(entries_again),
        later_again,
        search,
        arrange,
    );
}

/// The course of a load in which all goes well. It is asked where the records
/// are; then, where files are searched for, for the files below all of these
/// places; then for the entries of all the files, or places, through the cache
/// and under the options of the user; and then for nothing more.
pub proof fn law_course_of_a_load<P, E, M>(
    shared: SharedArgs<M>,
    paths: Vec<P>,
    files: Vec<P>,
    entries: Vec<LoadedEntry>,
    search: FileSearch,
    cache: &'static str,
    freshness: Freshness,
    arrange: spec_fn(Seq<LoadedEntry>) -> Seq<LoadedEntry>,
)
    ensures
        ({
            let start = LoadView::<P, E>::start(shared);
            let placed = start.after(LoadEvent::Paths(Ok(paths)), None, arrange);
            let found = start.after(LoadEvent::Paths(Ok(paths)), Some(search), arrange);
            let collected = found.after(LoadEvent::Files(files), Some(search), arrange);
            let wanted = LoadAction::LoadWithCache(
                CachePlan {
                    cache,
                    opts: CacheOpts {
                        single_thread: shared.single_thread,
                        live_only: shared.live_only,
                    },
                    freshness,
                },
            );
            &&& start.action(cache, freshness) == LoadAction::FindPaths
            &&& start.result is None
            &&& placed.action(cache, freshness) == wanted
            &&& placed.sources == paths@
            &&& placed.result is None
            &&& found.action(cache, freshness) == LoadAction::CollectFiles(search)
            &&& found.sources == paths@
            &&& found.result is None
            &&& collected.action(cache, freshness) == wanted
            &&& collected.sources == files@
            &&& collected.result is None
            &&& placed.after(LoadEvent::Entries(Ok(entries)), None, arrange).action(
                cache,
                freshness,
            ) == LoadAction::Finish
            &&& placed.after(LoadEvent::Entries(Ok(entries)), None, arrange).result == Some(
                Ok::<Seq<LoadedEntry>, E>(arrange(entries@)),
            )
            &&& collected.after(LoadEvent::Entries(Ok(entries)), Some(search), arrange).action(
                cache,
                freshness,
            ) == LoadAction::Finish
            &&& collected.after(LoadEvent::Entries(Ok(entries)), Some(search), arrange).result
                == Some(Ok::<Seq<LoadedEntry>, E>(arrange(entries@)))
        }),
{
}

/// An error, in finding the records or in reading them, is the result as it was
/// reported, and nothing more is asked.
pub proof fn law_errors_end_a_load<P, E, M>(
    shared: SharedArgs<M>,
    paths: Vec<P>,
    files: Vec<P>,
    error: E,
    search: FileSearch,
    cache: &'static str,
    freshness: Freshness,
    arrange: spec_fn(Seq<LoadedEntry>) -> Seq<LoadedEntry>,
)
    ensures
        ({
            let start = LoadView::<P, E>::start(shared);
            let unfound = start.after(LoadEvent::Paths(Err(error)), Some(search), arrange);
            let unplaced = start.after(LoadEvent::Paths(Err(error)), None, arrange);
            let unread = start.after(LoadEvent::Paths(Ok(paths)), Some(search), arrange).after(
                LoadEvent::Files(files),
                Some(search),
                arrange,
            ).after(LoadEvent::Entries(Err(error)), Some(search), arrange);
            let unread_placed = start.after(LoadEvent::Paths(Ok(paths)), None, arrange).after(
                LoadEvent::Entries(Err(error)),
                None,
                arrange,
            );
            &&& unfound.result == Some(Err::<Seq<LoadedEntry>, E>(error))
            &&& unfound.action(cache, freshness) == LoadAction::Finish
            &&& unplaced.result == Some(Err::<Seq<LoadedEntry>, E>(error))
            &&& unplaced.action(cache, freshness) == LoadAction::Finish
            &&& unread.result == Some(Err::<Seq<LoadedEntry>, E>(error))
            &&& unread.action(cache, freshness) == LoadAction::Finish
            &&& unread_placed.result == Some(Err::<Seq<LoadedEntry>, E>(error))
            &&& unread_placed.action(cache, freshness) == LoadAction::Finish
        }),
{
}

/// An outcome that was not asked for changes nothing.
pub proof fn law_unasked_outcome_changes_nothing<P, E>(
    load: LoadView<P, E>,
    event: LoadEvent<P, E>,
    search: Option<FileSearch>,
    cache: &'static str,
    freshness: Freshness,
    arrange: spec_fn(Seq<LoadedEntry>) -> Seq<LoadedEntry>,
)
    requires
        match load.action(cache, freshness) {
            LoadAction::FindPaths => !(event is Paths),
            LoadAction::CollectFiles(_) => !(event is Files),
            LoadAction::LoadWithCache(_) => !(event is Entries),
            LoadAction::Finish => true,
        },
    ensures
        load.after(event, search, arrange) == load,
{
}

} // verus!
