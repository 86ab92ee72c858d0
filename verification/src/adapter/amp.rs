//! Amp, which keeps its threads in JSON files.
use vstd::prelude::*;

use crate::entry::{LoadedEntry, TokenUsageRaw};
use crate::load::{
    FileSearch, Freshness, Load, LoadAction, LoadEvent, LoadStage, LoadView, SharedArgs, UsageLoad,
    UsageLoadAgent,
};
use crate::order;

verus! {

/// What becomes of the entries that were read from the files, one file after the
/// other.
pub open spec fn arranged(entries: Seq<LoadedEntry>) -> Seq<LoadedEntry> {
    order::time_ordered(entries)
}

/// A load of the threads of Amp.
pub fn load_entries<P, E, M>(shared: &SharedArgs<M>) -> (begun: UsageLoad<P, E>)
    ensures
        begun.agent == UsageLoadAgent::Amp,
        begun.json == shared.json,
        begun.load@ == LoadView::<P, E>::start(*shared),
        begun.load@.opts.single_thread == shared.single_thread,
        begun.load@.opts.live_only == shared.live_only,
        begun.load@.result is None,
{
    UsageLoad { agent: UsageLoadAgent::Amp, json: shared.json, load: Load::new(shared) }
}

/// Takes an event of a load, and says what to do next. The files
/// are those ending in `json` below the directory `threads`.
pub fn load_entries_inner<P, E>(load: &mut Load<P, E>, event: LoadEvent<P, E>) -> (action:
    LoadAction)
    ensures
        final(load)@ == old(load)@.after(
            event,
            (Some(FileSearch { subdirectory: "threads", extension: "json" })),
            |entries: Seq<LoadedEntry>| arranged(entries),
        ),
        action == final(load)@.action("amp", Freshness::FileStat),
        event matches LoadEvent::Entries(Ok(entries)) ==> (old(load)@.stage == LoadStage::Loading
            ==> (final(load)@.result matches Some(Ok(loaded)) && {
                &&& forall|i: int, j: int|
                    0 <= i <= j < loaded.len() ==> (#[trigger] loaded[i]).timestamp <= (
                    #[trigger] loaded[j]).timestamp
                &&& loaded.to_multiset() == entries@.to_multiset()
                &&& forall|at: i64| #[trigger]
                    order::at_instant(loaded, at) == order::at_instant(entries@, at)
            })),
{
    proof {
        if let LoadEvent::Entries(Ok(entries)) = &event {
            order::law_time_ordered_is_a_stable_sort(entries@);
        }
    }
    let event = match event {
        LoadEvent::Entries(Ok(entries)) => LoadEvent::Entries(
            Ok(order::sort_by_timestamp(entries)),
        ),
        event => event,
    };
    let search = FileSearch { subdirectory: "threads", extension: "json" };
    load.take(event, Some(search), "amp", Freshness::FileStat)
}

/// What the cost of an entry is asked for with, and whether there is a price for
/// its model. `M` is a mode and `Q` a list of prices.
#[derive(Debug)]
pub struct CostQuestion<'a, M, Q> {
    pub model: Option<&'a str>,
    pub usage: TokenUsageRaw,
    /// The bit pattern of a cost that the agent logged.
    pub logged_cost_bits: Option<u64>,
    pub mode: M,
    pub pricing: &'a Q,
}

/// The usage that an entry is billed for: Amp bills reasoning tokens, which are
/// the extra tokens, as output.
pub open spec fn billed_usage(usage: TokenUsageRaw, extra_total_tokens: u64) -> TokenUsageRaw {
    TokenUsageRaw {
        output_tokens: if usage.output_tokens + extra_total_tokens > u64::MAX {
            u64::MAX
        } else {
            (usage.output_tokens + extra_total_tokens) as u64
        },
        cache_creation: None,
        ..usage
    }
}

/// An entry with another cost and another model that it has no price for.
pub open spec fn repriced(
    entry: LoadedEntry,
    cost_bits: u64,
    missing_pricing_model: Option<String>,
) -> LoadedEntry {
    LoadedEntry { cost_bits, missing_pricing_model, ..entry }
}

/// Repricing does not change what is asked when an entry is priced again, and
/// the last answer stands.
pub proof fn law_repricing_can_be_repeated(
    entry: LoadedEntry,
    first_cost_bits: u64,
    first_missing: Option<String>,
    cost_bits: u64,
    missing: Option<String>,
)
    ensures
        ({
            let once = repriced(entry, first_cost_bits, first_missing);
            &&& billed_usage(once.data.message.usage, once.extra_total_tokens) == billed_usage(
                entry.data.message.usage,
                entry.extra_total_tokens,
            )
            &&& once.data.message.model == entry.data.message.model
            &&& repriced(once, cost_bits, missing) == repriced(entry, cost_bits, missing)
        }),
{
}

/// What the cost of an entry is asked for with in a load: the mode and the prices
/// are those of this load. A logged cost is never used.
pub fn cost_question<'a, M: Copy, Q>(
    entry: &'a LoadedEntry,
    shared: &SharedArgs<M>,
    pricing: &'a Q,
) -> (question: CostQuestion<'a, M, Q>)
    ensures
        question.mode == shared.mode,
        question.pricing == pricing,
        question.usage == billed_usage(entry.data.message.usage, entry.extra_total_tokens),
        question.usage.input_tokens == entry.data.message.usage.input_tokens,
        question.usage.cache_creation_input_tokens
            == entry.data.message.usage.cache_creation_input_tokens,
        question.usage.cache_read_input_tokens == entry.data.message.usage.cache_read_input_tokens,
        question.usage.cache_creation is None,
        question.usage.output_tokens as int == vstd::math::min(
            entry.data.message.usage.output_tokens + entry.extra_total_tokens,
            u64::MAX as int,
        ),
        question.logged_cost_bits is None,
        question.model is Some <==> entry.data.message.model is Some,
        question.model matches Some(model) ==> model@ == entry.data.message.model->0@,
{
    let usage = entry.data.message.usage;
    CostQuestion {
        model: match &entry.data.message.model {
            Some(model) => Some(model.as_str()),
            None => None,
        },
        usage: TokenUsageRaw {
            output_tokens: usage.output_tokens.saturating_add(entry.extra_total_tokens),
            cache_creation: None,
            ..usage
        },
        logged_cost_bits: None,
        mode: shared.mode,
        pricing,
    }
}

/// Sets the cost of an entry, and the model that it has no price for, to the
/// answers. Nothing else of the entry changes.
pub fn reprice(entry: &mut LoadedEntry, cost_bits: u64, missing_pricing_model: Option<String>)
    ensures
        *final(entry) == repriced(*old(entry), cost_bits, missing_pricing_model),
        final(entry).cost_bits == cost_bits,
        final(entry).missing_pricing_model == missing_pricing_model,
        final(entry).data == old(entry).data,
        final(entry).timestamp == old(entry).timestamp,
        final(entry).date == old(entry).date,
        final(entry).session_id == old(entry).session_id,
        final(entry).model == old(entry).model,
        final(entry).extra_total_tokens == old(entry).extra_total_tokens,
        final(entry).message_count == old(entry).message_count,
{
    entry.cost_bits = cost_bits;
    entry.missing_pricing_model = missing_pricing_model;
}

/// Each kind of token is billed as it was counted, but for the extra tokens,
/// which are billed as output: all of them, as far as a count can hold them. The
/// division of the cache writes is left out, their count is not.
pub proof fn law_all_tokens_are_billed(usage: TokenUsageRaw, extra_total_tokens: u64)
    ensures
        ({
            let billed = billed_usage(usage, extra_total_tokens);
            &&& billed.input_tokens == usage.input_tokens
            &&& billed.cache_creation_input_tokens == usage.cache_creation_input_tokens
            &&& billed.cache_read_input_tokens == usage.cache_read_input_tokens
            &&& billed.cache_creation is None
            &&& billed.output_tokens as int == vstd::math::min(
                usage.output_tokens + extra_total_tokens,
                u64::MAX as int,
            )
            &&& usage.output_tokens + extra_total_tokens <= u64::MAX ==> billed.input_tokens
                + billed.output_tokens + billed.cache_creation_input_tokens
                + billed.cache_read_input_tokens == usage.input_tokens + usage.output_tokens
                + usage.cache_creation_input_tokens + usage.cache_read_input_tokens
                + extra_total_tokens
        }),
{
}

/// Repricing sets the cost and the model that there is no price for to what it
/// was given, and keeps the rest of the entry.
pub proof fn law_repricing_sets_the_answers_alone(
    entry: LoadedEntry,
    cost_bits: u64,
    missing: Option<String>,
)
    ensures
        ({
            let priced = repriced(entry, cost_bits, missing);
            &&& priced.cost_bits == cost_bits
            &&& priced.missing_pricing_model == missing
            &&& priced.data == entry.data
            &&& priced.timestamp == entry.timestamp
            &&& priced.date == entry.date
            &&& priced.session_id == entry.session_id
            &&& priced.model == entry.model
            &&& priced.extra_total_tokens == entry.extra_total_tokens
            &&& priced.message_count == entry.message_count
        }),
{
}

/// The result of a load of Amp has just the entries that were read, in time order:
/// no entry stands behind a later one, and at each instant the entries stand in
/// the order in which they were read.
pub proof fn law_result_of_a_load<P, E, M>(
    shared: SharedArgs<M>,
    paths: Vec<P>,
    files: Vec<P>,
    entries: Vec<LoadedEntry>,
    at: i64,
)
    ensures
        ({
            let search = Some(FileSearch { subdirectory: "threads", extension: "json" });
            let arrange = |entries: Seq<LoadedEntry>| arranged(entries);
            let load = LoadView::<P, E>::start(shared).after(
                LoadEvent::Paths(Ok(paths)),
                search,
                arrange,
            ).after(LoadEvent::Files(files), search, arrange).after(LoadEvent::Entries(Ok(entries)), search, arrange);
            &&& load.result matches Some(Ok(loaded))
            &&& forall|i: int, j: int|
                0 <= i <= j < loaded.len() ==> (#[trigger] loaded[i]).timestamp <= (
                #[trigger] loaded[j]).timestamp
            &&& loaded.to_multiset() == entries@.to_multiset()
            &&& loaded.filter(|entry: LoadedEntry| entry.timestamp == at) == entries@.filter(
                |entry: LoadedEntry| entry.timestamp == at,
            )
        }),
{
    order::law_time_order_keeps_entries_and_instants(entries@, at);
}

} // verus!
