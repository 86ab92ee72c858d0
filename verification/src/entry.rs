//! The usage entries that a load produces.
use vstd::prelude::*;

verus! {

/// How a cache write divides over the lifetimes that the cache offers.
#[derive(Clone, Copy, Debug, PartialEq, Eq, Structural)]
pub struct CacheCreation {
    pub ephemeral_5m_input_tokens: u64,
    pub ephemeral_1h_input_tokens: u64,
}

/// The token counts that one message was billed for.
#[derive(Clone, Copy, Debug, PartialEq, Eq, Structural)]
pub struct TokenUsageRaw {
    pub input_tokens: u64,
    pub output_tokens: u64,
    pub cache_creation_input_tokens: u64,
    pub cache_read_input_tokens: u64,
    pub cache_creation: Option<CacheCreation>,
}

/// The message that an entry records.
#[derive(Debug)]
pub struct UsageMessage {
    pub usage: TokenUsageRaw,
    pub model: Option<String>,
}

/// The record that an entry was made from.
#[derive(Debug)]
pub struct UsageData {
    pub message: UsageMessage,
}

/// One usage entry.
///
/// `timestamp` is an integer that orders instants. `cost_bits` is the bit
/// pattern of the cost in US dollars, a double-precision number.
#[derive(Debug)]
pub struct LoadedEntry {
    pub data: UsageData,
    pub timestamp: i64,
    pub date: String,
    pub session_id: String,
    pub model: Option<String>,
    pub extra_total_tokens: u64,
    pub message_count: Option<u64>,
    pub cost_bits: u64,
    pub missing_pricing_model: Option<String>,
}

} // verus!
