//! Fixed settings of the pipeline, read once at startup.
use vstd::prelude::*;

verus! {

/// Fan-out width of the probing stage.
pub const HTTP_CONCURRENCY: usize = 20;

/// Fan-out width of the analysis stage.
pub const LLM_CONCURRENCY: usize = 4;

/// Budget of analysis calls per minute.
pub const LLM_RATE_LIMIT_PER_MINUTE: u32 = 40;

/// Endpoint of the analysis service.
pub const NIM_API_URL: &'static str = "https://integrate.api.nvidia.com/v1/chat/completions";

/// Model that serves the analysis calls.
pub const NIM_MODEL: &'static str = "openai/gpt-oss-120b";

/// Timeout of each network call, in seconds.
pub const REQUEST_TIMEOUT_SECS: u64 = 15;

/// Largest number of body characters sent in one analysis request.
pub const HTML_TRUNCATE_CHARS: usize = 12_000;

/// Largest reply size requested from the analysis service, in tokens.
pub const LLM_MAX_TOKENS: u32 = 1024;

/// Domain under which the host names of the record file live.
pub const BASE_DOMAIN: &'static str = "hackclub.com";

} // verus!
